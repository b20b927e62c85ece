//! Crawl orchestration: the per-run state that hands out URLs within a
//! concurrency limit and records one outcome per URL.
use vstd::prelude::*;
use crate::entities::{Crawl, Page, Site};
use crate::error::PalimpError;
use crate::store::{
    has_crawl, has_site, lemma_insert_page_of_crawl, lemma_new_crawl_has_no_pages, Database,
};

verus! {

/// The outcome of fetching and archiving one sitemap URL.
pub enum CrawlResult {
    /// The page was fetched and archived.
    PageSucceeded(String),
    /// The page could not be fetched or archived: the URL and the reason.
    PageFailed(String, String),
}

/// The number of `true` entries.
pub open spec fn count_true(s: Seq<bool>) -> nat
    decreases s.len(),
{
    if s.len() == 0 {
        0
    } else {
        count_true(s.drop_last()) + if s.last() {
            1nat
        } else {
            0nat
        }
    }
}

/// Setting one entry changes the count by what that entry gains or loses.
pub proof fn lemma_count_true_update(s: Seq<bool>, i: int, b: bool)
    requires
        0 <= i < s.len(),
    ensures
        count_true(s.update(i, b)) + (if s[i] {
            1int
        } else {
            0int
        }) == count_true(s) + (if b {
            1int
        } else {
            0int
        }),
    decreases s.len(),
{
    let t = s.update(i, b);
    if i == s.len() - 1 {
        assert(t.drop_last() =~= s.drop_last());
    } else {
        lemma_count_true_update(s.drop_last(), i, b);
        assert(t.drop_last() =~= s.drop_last().update(i, b));
    }
}

/// The state of one crawl run: the sitemap's URLs, how many have been handed
/// out for fetching, which are being fetched, and the outcomes so far. An
/// async driver asks for URLs to fetch (at most `limit` at a time; 0 means no
/// limit), fetches them, and hands each result back.
pub struct CrawlSession {
    crawl_id: i64,
    urls: Vec<String>,
    limit: usize,
    next: usize,
    fetching: Vec<bool>,
    in_flight: usize,
    succeeded: usize,
    failed: usize,
}

impl CrawlSession {
    pub closed spec fn spec_crawl_id(&self) -> i64 {
        self.crawl_id
    }

    pub closed spec fn spec_urls(&self) -> Seq<String> {
        self.urls@
    }

    pub closed spec fn spec_limit(&self) -> usize {
        self.limit
    }

    /// How many URLs have been handed out.
    pub closed spec fn spec_next(&self) -> nat {
        self.next as nat
    }

    /// For each URL, whether it has been handed out and not yet completed.
    pub closed spec fn spec_fetching(&self) -> Seq<bool> {
        self.fetching@
    }

    pub closed spec fn spec_in_flight(&self) -> nat {
        self.in_flight as nat
    }

    pub closed spec fn spec_succeeded(&self) -> nat {
        self.succeeded as nat
    }

    pub closed spec fn spec_failed(&self) -> nat {
        self.failed as nat
    }

    /// URLs are handed out in order; the in-flight count is the number of
    /// URLs being fetched, within the limit; every URL handed out is either
    /// being fetched or has exactly one outcome.
    pub open spec fn wf(&self) -> bool {
        &&& self.spec_next() <= self.spec_urls().len()
        &&& self.spec_fetching().len() == self.spec_urls().len()
        &&& forall|i: int|
            self.spec_next() <= i < self.spec_fetching().len() ==> !(
            #[trigger] self.spec_fetching()[i])
        &&& self.spec_in_flight() == count_true(self.spec_fetching())
        &&& self.spec_limit() > 0 ==> self.spec_in_flight() <= self.spec_limit()
        &&& self.spec_succeeded() + self.spec_failed() + self.spec_in_flight() == self.spec_next()
    }

    /// Starts a crawl of `site_id` over the URLs of its sitemap: stores a new
    /// crawl row for the site, before any page is fetched. An unknown site is
    /// `NotFound`; on any error nothing is stored.
    pub fn start(site_id: i64, urls: Vec<String>, limit: usize, database: &mut Database) -> (r:
        Result<CrawlSession, PalimpError>)
        requires
            old(database).wf(),
        ensures
            final(database).wf(),
            match r {
                Ok(s) => {
                    &&& s.wf()
                    &&& has_site(old(database)@.sites, site_id)
                    &&& s.spec_crawl_id() == old(database)@.next_id
                    &&& s.spec_urls() == urls@
                    &&& s.spec_limit() == limit
                    &&& s.spec_next() == 0
                    &&& s.spec_succeeded() == 0
                    &&& s.spec_failed() == 0
                    &&& final(database)@.crawls.len() == old(database)@.crawls.len() + 1
                    &&& final(database)@.crawls.last().site_id == site_id
                    &&& final(database)@ == old(database)@.insert_crawl(
                        final(database)@.crawls.last(),
                    )
                    &&& final(database)@.crawls.last().id == Some(s.spec_crawl_id())
                    &&& final(database)@.pages_of_crawl(s.spec_crawl_id()).len() == 0
                    &&& final(database)@.crawls.last().started_at is Some
                },
                Err(e) => {
                    &&& final(database)@ == old(database)@
                    &&& e == PalimpError::NotFound && !has_site(old(database)@.sites, site_id)
                        || e == PalimpError::Storage && has_site(old(database)@.sites, site_id)
                        && old(database)@.next_id == i64::MAX
                },
            },
    {
        if let Err(e) = Site::fetch(site_id, database) {
            return Err(e);
        }
        let ghost db0 = database@;
        let mut crawl = Crawl::new(None, site_id);
        crawl.sync(database)?;
        proof {
            lemma_new_crawl_has_no_pages(db0, crawl);
        }
        let crawl_id = match crawl.id {
            Some(id) => id,
            None => {
                return Err(PalimpError::Storage);
            },
        };
        let mut fetching: Vec<bool> = Vec::new();
        let mut i: usize = 0;
        while i < urls.len()
            invariant
                i <= urls@.len(),
                fetching@.len() == i,
                forall|k: int| 0 <= k < i ==> !(#[trigger] fetching@[k]),
            decreases urls@.len() - i,
        {
            fetching.push(false);
            i += 1;
        }
        proof {
            assert(count_true(fetching@) == 0) by {
                lemma_no_true(fetching@);
            }
        }
        Ok(
            CrawlSession {
                crawl_id,
                urls,
                limit,
                next: 0,
                fetching,
                in_flight: 0,
                succeeded: 0,
                failed: 0,
            },
        )
    }

    pub fn crawl_id(&self) -> (r: i64)
        ensures
            r == self.spec_crawl_id(),
    {
        self.crawl_id
    }

    /// The number of URLs in the sitemap.
    pub fn total(&self) -> (r: usize)
        ensures
            r == self.spec_urls().len(),
    {
        self.urls.len()
    }

    pub fn succeeded(&self) -> (r: usize)
        ensures
            r == self.spec_succeeded(),
    {
        self.succeeded
    }

    pub fn failed(&self) -> (r: usize)
        ensures
            r == self.spec_failed(),
    {
        self.failed
    }

    pub fn in_flight(&self) -> (r: usize)
        ensures
            r == self.spec_in_flight(),
    {
        self.in_flight
    }

    /// True once every URL has been handed out and has its outcome.
    pub fn is_finished(&self) -> (r: bool)
        requires
            self.wf(),
        ensures
            r == (self.spec_next() == self.spec_urls().len() && self.spec_in_flight() == 0),
            r ==> self.spec_succeeded() + self.spec_failed() == self.spec_urls().len(),
    {
        self.next == self.urls.len() && self.in_flight == 0
    }

    /// Hands out the next URL to fetch, with its index, unless all have been
    /// handed out or `limit` fetches are in flight.
    pub fn next_fetch(&mut self) -> (r: Option<(usize, String)>)
        requires
            old(self).wf(),
        ensures
            final(self).wf(),
            final(self).spec_crawl_id() == old(self).spec_crawl_id(),
            final(self).spec_urls() == old(self).spec_urls(),
            final(self).spec_limit() == old(self).spec_limit(),
            final(self).spec_succeeded() == old(self).spec_succeeded(),
            final(self).spec_failed() == old(self).spec_failed(),
            match r {
                Some((i, url)) => {
                    &&& old(self).spec_next() < old(self).spec_urls().len()
                    &&& old(self).spec_limit() == 0 || old(self).spec_in_flight() < old(
                        self,
                    ).spec_limit()
                    &&& i == old(self).spec_next()
                    &&& url == old(self).spec_urls()[i as int]
                    &&& final(self).spec_next() == old(self).spec_next() + 1
                    &&& final(self).spec_in_flight() == old(self).spec_in_flight() + 1
                    &&& final(self).spec_fetching() == old(self).spec_fetching().update(
                        i as int,
                        true,
                    )
                },
                None => {
                    &&& old(self).spec_next() == old(self).spec_urls().len() || old(
                        self,
                    ).spec_limit() > 0 && old(self).spec_in_flight() == old(self).spec_limit()
                    &&& *final(self) == *old(self)
                },
            },
    {
        if self.next >= self.urls.len() {
            return None;
        }
        if self.limit > 0 && self.in_flight >= self.limit {
            return None;
        }
        let i = self.next;
        proof {
            lemma_count_true_update(self.fetching@, i as int, true);
        }
        self.fetching.set(i, true);
        self.next = i + 1;
        self.in_flight = self.in_flight + 1;
        Some((i, self.urls[i].clone()))
    }

    /// Records the result of fetching the URL with the given index: on a
    /// fetched page (final URL and HTML) the page is archived under the crawl
    /// and the outcome is a success; a failed fetch, or a page that cannot be
    /// archived, is a failure and stores nothing. An index that is not being
    /// fetched changes nothing and gives no outcome.
    pub fn complete(
        &mut self,
        index: usize,
        fetched: Result<(String, String), String>,
        database: &mut Database,
    ) -> (r: Option<CrawlResult>)
        requires
            old(self).wf(),
            old(database).wf(),
        ensures
            final(self).wf(),
            final(database).wf(),
            final(self).spec_crawl_id() == old(self).spec_crawl_id(),
            final(self).spec_urls() == old(self).spec_urls(),
            final(self).spec_limit() == old(self).spec_limit(),
            final(self).spec_next() == old(self).spec_next(),
            (r is None) == !(index < old(self).spec_next() && old(self).spec_fetching()[index as int]),
            final(database)@.pages_of_crawl(final(self).spec_crawl_id()).len()
                - final(self).spec_succeeded() == old(database)@.pages_of_crawl(
                old(self).spec_crawl_id(),
            ).len() - old(self).spec_succeeded(),
            match r {
                None => {
                    &&& !(index < old(self).spec_next() && old(self).spec_fetching()[index as int])
                    &&& *final(self) == *old(self)
                    &&& final(database)@ == old(database)@
                },
                Some(outcome) => {
                    &&& index < old(self).spec_next()
                    &&& old(self).spec_fetching()[index as int]
                    &&& final(self).spec_fetching() == old(self).spec_fetching().update(
                        index as int,
                        false,
                    )
                    &&& final(self).spec_in_flight() + 1 == old(self).spec_in_flight()
                    &&& match outcome {
                        CrawlResult::PageSucceeded(url) => {
                            &&& url == old(self).spec_urls()[index as int]
                            &&& fetched is Ok
                            &&& has_crawl(old(database)@.crawls, old(self).spec_crawl_id())
                            &&& old(database)@.next_id < i64::MAX
                            &&& final(self).spec_succeeded() == old(self).spec_succeeded() + 1
                            &&& final(self).spec_failed() == old(self).spec_failed()
                            &&& old(database)@.archived(
                                url,
                                fetched->Ok_0.0,
                                fetched->Ok_0.1,
                                old(self).spec_crawl_id(),
                                final(database)@,
                            )
                        },
                        CrawlResult::PageFailed(url, reason) => {
                            &&& url == old(self).spec_urls()[index as int]
                            &&& fetched is Err ==> reason == fetched->Err_0
                            &&& fetched is Ok ==> !has_crawl(
                                old(database)@.crawls,
                                old(self).spec_crawl_id(),
                            ) || old(database)@.next_id == i64::MAX
                            &&& final(self).spec_succeeded() == old(self).spec_succeeded()
                            &&& final(self).spec_failed() == old(self).spec_failed() + 1
                            &&& final(database)@ == old(database)@
                        },
                    }
                },
            },
    {
        if index >= self.next || !self.fetching[index] {
            return None;
        }
        proof {
            lemma_count_true_update(self.fetching@, index as int, false);
        }
        self.fetching.set(index, false);
        self.in_flight = self.in_flight - 1;
        let url = self.urls[index].clone();
        match fetched {
            Ok((final_url, html)) => {
                let page = Page {
                    url: url.clone(),
                    final_url,
                    html_content: html,
                    crawl_id: Some(self.crawl_id),
                };
                let ghost db0 = database@;
                match page.sync(database) {
                    Ok(id) => {
                        proof {
                            lemma_insert_page_of_crawl(
                                db0,
                                database@.pages.last(),
                                (self.crawl_id + 1) as i64,
                            );
                        }
                        self.succeeded = self.succeeded + 1;
                        Some(CrawlResult::PageSucceeded(url))
                    },
                    Err(e) => {
                        self.failed = self.failed + 1;
                        Some(CrawlResult::PageFailed(url, e.message()))
                    },
                }
            },
            Err(reason) => {
                self.failed = self.failed + 1;
                Some(CrawlResult::PageFailed(url, reason))
            },
        }
    }
}

/// A sequence with no `true` entry counts zero.
pub proof fn lemma_no_true(s: Seq<bool>)
    requires
        forall|k: int| 0 <= k < s.len() ==> !(#[trigger] s[k]),
    ensures
        count_true(s) == 0,
    decreases s.len(),
{
    if s.len() > 0 {
        lemma_no_true(s.drop_last());
    }
}

} // verus!

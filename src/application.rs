//! The application facade over one store.
use vstd::prelude::*;
use crate::crawl::{CrawlResult, CrawlSession};
use crate::entities::{Crawl, Query, ResultEntry, Site};
use crate::error::PalimpError;
use crate::query::{page_with_id, results_for_query, result_rows, page_counts, row_key, after_query};
use crate::store::{
    has_crawl, has_query, has_result, has_site, Database, DbView,
};

verus! {

/// The application facade: one store shared by site management, crawl runs,
/// query execution and result retrieval. Concurrent callers serialize on it
/// (one lock around the whole facade); a crawl's network work happens
/// outside it, between `start_crawl`, `next_fetch` and `record_page`.
pub struct Application {
    pub db: Database,
}

impl View for Application {
    type V = DbView;

    open spec fn view(&self) -> DbView {
        self.db@
    }
}

impl Application {
    pub open spec fn wf(&self) -> bool {
        self.db.wf()
    }

    /// An application over an empty store.
    pub fn new() -> (r: Application)
        ensures
            r.wf(),
            r@.next_id == 1,
            r@.sites.len() == 0,
            r@.crawls.len() == 0,
            r@.pages.len() == 0,
            r@.queries.len() == 0,
            r@.results.len() == 0,
    {
        Application { db: Database::new() }
    }

    /// Creates a site; the store assigns its id.
    pub fn new_site(&mut self, domain: &str, sitemap_url: &str) -> (r: Result<(), PalimpError>)
        requires
            old(self).wf(),
        ensures
            final(self).wf(),
            match r {
                Ok(()) => {
                    &&& final(self)@.sites.len() == old(self)@.sites.len() + 1
                    &&& final(self)@.sites.last().id == Some(old(self)@.next_id as i64)
                    &&& final(self)@.sites.last().domain@ == domain@
                    &&& final(self)@.sites.last().sitemap_url@ == sitemap_url@
                    &&& final(self)@ == old(self)@.insert_site(final(self)@.sites.last())
                },
                Err(e) => e == PalimpError::Storage && old(self)@.next_id == i64::MAX
                    && final(self)@ == old(self)@,
            },
    {
        let mut site = Site::new(None, domain, sitemap_url);
        site.sync(&mut self.db)
    }

    /// All sites, in creation order.
    pub fn list_sites(&self) -> (r: Result<Vec<Site>, PalimpError>)
        ensures
            r is Ok,
            r.unwrap()@ == self@.sites,
    {
        Site::fetch_all(&self.db)
    }

    /// The site with the given id.
    pub fn site(&self, site_id: i64) -> (r: Result<Site, PalimpError>)
        ensures
            match r {
                Ok(s) => s.id == Some(site_id) && self@.sites.contains(s),
                Err(e) => e == PalimpError::NotFound && !has_site(self@.sites, site_id),
            },
    {
        Site::fetch(site_id, &self.db)
    }

    /// Deletes a site with everything stored under it.
    pub fn delete_site(&mut self, site_id: i64) -> (r: Result<(), PalimpError>)
        requires
            old(self).wf(),
        ensures
            final(self).wf(),
            match r {
                Ok(()) => has_site(old(self)@.sites, site_id) && final(self)@ == old(
                    self,
                )@.delete_site(site_id),
                Err(e) => e == PalimpError::NotFound && !has_site(old(self)@.sites, site_id)
                    && final(self)@ == old(self)@,
            },
    {
        Site::delete(site_id, &mut self.db)
    }

    /// All crawls, in creation order.
    pub fn list_crawls(&self) -> (r: Result<Vec<Crawl>, PalimpError>)
        ensures
            r is Ok,
            r.unwrap()@ == self@.crawls,
    {
        Crawl::fetch_all(&self.db)
    }

    /// Deletes a crawl with its pages, queries and their result rows.
    pub fn delete_crawl(&mut self, crawl_id: i64) -> (r: Result<(), PalimpError>)
        requires
            old(self).wf(),
        ensures
            final(self).wf(),
            match r {
                Ok(()) => has_crawl(old(self)@.crawls, crawl_id) && final(self)@ == old(
                    self,
                )@.delete_crawl(crawl_id),
                Err(e) => e == PalimpError::NotFound && !has_crawl(old(self)@.crawls, crawl_id)
                    && final(self)@ == old(self)@,
            },
    {
        Crawl::delete(crawl_id, &mut self.db)
    }

    /// All queries, in creation order.
    pub fn list_queries(&self) -> (r: Result<Vec<Query>, PalimpError>)
        ensures
            r is Ok,
            r.unwrap()@ == self@.queries,
    {
        Query::fetch_all(&self.db)
    }

    /// Deletes a query row.
    pub fn delete_query(&mut self, query_id: i64) -> (r: Result<(), PalimpError>)
        requires
            old(self).wf(),
        ensures
            final(self).wf(),
            match r {
                Ok(()) => has_query(old(self)@.queries, query_id) && final(self)@ == old(
                    self,
                )@.delete_query(query_id),
                Err(e) => e == PalimpError::NotFound && !has_query(old(self)@.queries, query_id)
                    && final(self)@ == old(self)@,
            },
    {
        Query::delete(query_id, &mut self.db)
    }

    /// All result rows, in creation order.
    pub fn list_results(&self) -> (r: Result<Vec<ResultEntry>, PalimpError>)
        ensures
            r is Ok,
            r.unwrap()@ == self@.results,
    {
        ResultEntry::fetch_all(&self.db)
    }

    /// The result rows of a query's crawl and selector, with their page URLs.
    pub fn list_results_for_query(&self, query_id: i64) -> (r: Result<
        Vec<(ResultEntry, String)>,
        PalimpError,
    >)
        requires
            self.wf(),
        ensures
            match r {
                Ok(v) => {
                    &&& has_query(self@.queries, query_id)
                    &&& v@.map_values(|x: (ResultEntry, String)| x.0) == results_for_query(
                        self@,
                        query_id,
                    )
                    &&& forall|k: int|
                        0 <= k < v@.len() ==> (#[trigger] v@[k]).1 == page_with_id(
                            self@.pages,
                            v@[k].0.page_id,
                        ).url
                },
                Err(e) => e == PalimpError::NotFound && !has_query(self@.queries, query_id),
            },
    {
        crate::query::list_results_for_query(query_id, &self.db)
    }

    /// Deletes a result row.
    pub fn delete_result(&mut self, result_id: i64) -> (r: Result<(), PalimpError>)
        requires
            old(self).wf(),
        ensures
            final(self).wf(),
            match r {
                Ok(()) => has_result(old(self)@.results, result_id) && final(self)@ == old(
                    self,
                )@.delete_result(result_id),
                Err(e) => e == PalimpError::NotFound && !has_result(
                    old(self)@.results,
                    result_id,
                ) && final(self)@ == old(self)@,
            },
    {
        ResultEntry::delete(result_id, &mut self.db)
    }

    /// Runs a selector against the archived pages of a crawl; see
    /// `query::query`.
    pub fn query(&mut self, crawl_id: i64, selector: &str) -> (r: Result<
        Vec<ResultEntry>,
        PalimpError,
    >)
        requires
            old(self).wf(),
        ensures
            final(self).wf(),
            match r {
                Ok(rows) => {
                    &&& has_crawl(old(self)@.crawls, crawl_id)
                    &&& rows@.map_values(|e: ResultEntry| row_key(e)) == result_rows(
                        old(self)@.pages_of_crawl(crawl_id),
                        page_counts(old(self)@.pages_of_crawl(crawl_id), selector@),
                        old(self)@.pages_of_crawl(crawl_id).len() as int,
                        old(self)@.next_id + 1,
                    )
                    &&& forall|k: int| 0 <= k < rows@.len() ==> (#[trigger] rows@[k]).selector@
                        == selector@
                    &&& after_query(old(self)@, crawl_id, selector@, rows@, final(self)@)
                },
                Err(e) => {
                    &&& e == PalimpError::Storage
                    &&& final(self)@ == old(self)@
                    &&& !has_crawl(old(self)@.crawls, crawl_id) || old(self)@.next_id + 1
                        + result_rows(
                        old(self)@.pages_of_crawl(crawl_id),
                        page_counts(old(self)@.pages_of_crawl(crawl_id), selector@),
                        old(self)@.pages_of_crawl(crawl_id).len() as int,
                        old(self)@.next_id + 1,
                    ).len() > i64::MAX
                },
            },
    {
        crate::query::query(crawl_id, selector, &mut self.db)
    }

    /// Starts a crawl of a site over the URLs of its sitemap: stores the crawl
    /// row and returns the session that schedules the page fetches.
    pub fn start_crawl(&mut self, site_id: i64, urls: Vec<String>, max_concurrent: usize) -> (r:
        Result<CrawlSession, PalimpError>)
        requires
            old(self).wf(),
        ensures
            final(self).wf(),
            match r {
                Ok(s) => {
                    &&& s.wf()
                    &&& has_site(old(self)@.sites, site_id)
                    &&& s.spec_crawl_id() == old(self)@.next_id
                    &&& s.spec_urls() == urls@
                    &&& s.spec_limit() == max_concurrent
                    &&& s.spec_next() == 0
                    &&& s.spec_succeeded() == 0
                    &&& s.spec_failed() == 0
                    &&& final(self)@.crawls.last().site_id == site_id
                    &&& final(self)@.crawls.last().id == Some(s.spec_crawl_id())
                    &&& final(self)@ == old(self)@.insert_crawl(final(self)@.crawls.last())
                    &&& final(self)@.pages_of_crawl(s.spec_crawl_id()).len() == 0
                    &&& final(self)@.crawls.last().started_at is Some
                },
                Err(e) => {
                    &&& final(self)@ == old(self)@
                    &&& e == PalimpError::NotFound && !has_site(old(self)@.sites, site_id)
                        || e == PalimpError::Storage && has_site(old(self)@.sites, site_id)
                        && old(self)@.next_id == i64::MAX
                },
            },
    {
        CrawlSession::start(site_id, urls, max_concurrent, &mut self.db)
    }

    /// Records the result of one page fetch of a running crawl: a fetched
    /// page is archived under the crawl and is a success, unless the crawl
    /// is gone or the ids have run out; a failed fetch is a failure; an index
    /// that is not being fetched gives no outcome. See
    /// `CrawlSession::complete`.
    pub fn record_page(
        &mut self,
        session: &mut CrawlSession,
        index: usize,
        fetched: Result<(String, String), String>,
    ) -> (r: Option<CrawlResult>)
        requires
            old(self).wf(),
            old(session).wf(),
        ensures
            final(self).wf(),
            final(session).wf(),
            final(session).spec_crawl_id() == old(session).spec_crawl_id(),
            final(session).spec_urls() == old(session).spec_urls(),
            final(session).spec_limit() == old(session).spec_limit(),
            final(session).spec_next() == old(session).spec_next(),
            (r is None) == !(index < old(session).spec_next() && old(session).spec_fetching()[index as int]),
            final(self)@.pages_of_crawl(final(session).spec_crawl_id()).len()
                - final(session).spec_succeeded() == old(self)@.pages_of_crawl(
                old(session).spec_crawl_id(),
            ).len() - old(session).spec_succeeded(),
            match r {
                None => *final(session) == *old(session) && final(self)@ == old(self)@,
                Some(outcome) => {
                    &&& final(session).spec_fetching() == old(session).spec_fetching().update(
                        index as int,
                        false,
                    )
                    &&& final(session).spec_in_flight() + 1 == old(session).spec_in_flight()
                    &&& match outcome {
                        CrawlResult::PageSucceeded(url) => {
                            &&& url == old(session).spec_urls()[index as int]
                            &&& fetched is Ok
                            &&& has_crawl(old(self)@.crawls, old(session).spec_crawl_id())
                            &&& old(self)@.next_id < i64::MAX
                            &&& final(session).spec_succeeded() == old(session).spec_succeeded()
                                + 1
                            &&& final(session).spec_failed() == old(session).spec_failed()
                            &&& old(self)@.archived(
                                url,
                                fetched->Ok_0.0,
                                fetched->Ok_0.1,
                                old(session).spec_crawl_id(),
                                final(self)@,
                            )
                        },
                        CrawlResult::PageFailed(url, reason) => {
                            &&& url == old(session).spec_urls()[index as int]
                            &&& fetched is Err ==> reason == fetched->Err_0
                            &&& fetched is Ok ==> !has_crawl(
                                old(self)@.crawls,
                                old(session).spec_crawl_id(),
                            ) || old(self)@.next_id == i64::MAX
                            &&& final(session).spec_succeeded() == old(session).spec_succeeded()
                            &&& final(session).spec_failed() == old(session).spec_failed() + 1
                            &&& final(self)@ == old(self)@
                        },
                    }
                },
            },
    {
        session.complete(index, fetched, &mut self.db)
    }
}

} // verus!

//! The entity store: tables in creation order, store-assigned ids, and
//! deletes that cascade from sites to crawls to pages, queries and results.
use vstd::prelude::*;
use crate::entities::{Crawl, Page, PageArchive, Query, ResultEntry, Site};
use crate::clock::is_timestamp_text;
use crate::error::PalimpError;

verus! {

/// The mathematical content of the store: each table in creation order, and
/// the next id that the store will hand out.
pub struct DbView {
    pub sites: Seq<Site>,
    pub crawls: Seq<Crawl>,
    pub pages: Seq<PageArchive>,
    pub queries: Seq<Query>,
    pub results: Seq<ResultEntry>,
    pub next_id: int,
}

pub open spec fn has_site(sites: Seq<Site>, id: i64) -> bool {
    exists|i: int| 0 <= i < sites.len() && (#[trigger] sites[i]).id == Some(id)
}

pub open spec fn has_crawl(crawls: Seq<Crawl>, id: i64) -> bool {
    exists|i: int| 0 <= i < crawls.len() && (#[trigger] crawls[i]).id == Some(id)
}

pub open spec fn has_page(pages: Seq<PageArchive>, id: i64) -> bool {
    exists|i: int| 0 <= i < pages.len() && (#[trigger] pages[i]).id == id
}

pub open spec fn has_query(queries: Seq<Query>, id: i64) -> bool {
    exists|i: int| 0 <= i < queries.len() && (#[trigger] queries[i]).id == Some(id)
}

pub open spec fn has_result(results: Seq<ResultEntry>, id: i64) -> bool {
    exists|i: int| 0 <= i < results.len() && (#[trigger] results[i]).id == Some(id)
}

/// True when `id` is not the one id that is being dropped.
pub open spec fn not_dropped(id: Option<i64>, drop: Option<i64>) -> bool {
    drop is None || id != drop
}

pub open spec fn site_kept(drop: Option<i64>) -> spec_fn(Site) -> bool {
    |s: Site| not_dropped(s.id, drop)
}

pub open spec fn crawl_kept(sites: Seq<Site>, drop: Option<i64>) -> spec_fn(Crawl) -> bool {
    |c: Crawl| not_dropped(c.id, drop) && has_site(sites, c.site_id)
}

pub open spec fn page_kept(crawls: Seq<Crawl>) -> spec_fn(PageArchive) -> bool {
    |p: PageArchive| has_crawl(crawls, p.crawl_id)
}

pub open spec fn query_kept(crawls: Seq<Crawl>, drop: Option<i64>) -> spec_fn(Query) -> bool {
    |q: Query| not_dropped(q.id, drop) && has_crawl(crawls, q.crawl_id)
}

pub open spec fn result_kept(pages: Seq<PageArchive>, drop: Option<i64>) -> spec_fn(
    ResultEntry,
) -> bool {
    |e: ResultEntry| not_dropped(e.id, drop) && has_page(pages, e.page_id)
}

impl DbView {
    /// Ids are positive, below `next_id` and strictly increasing in creation
    /// order; every crawl, page, query and result row refers to a stored parent.
    pub open spec fn wf(self) -> bool {
        &&& 1 <= self.next_id <= i64::MAX
        &&& forall|i: int|
            0 <= i < self.sites.len() ==> (#[trigger] self.sites[i]).id is Some && 1
                <= self.sites[i].id.unwrap() < self.next_id
        &&& forall|i: int, j: int|
            0 <= i < j < self.sites.len() ==> self.sites[i].id.unwrap()
                < self.sites[j].id.unwrap()
        &&& forall|i: int|
            0 <= i < self.crawls.len() ==> (#[trigger] self.crawls[i]).id is Some && 1
                <= self.crawls[i].id.unwrap() < self.next_id && has_site(
                self.sites,
                self.crawls[i].site_id,
            )
        &&& forall|i: int, j: int|
            0 <= i < j < self.crawls.len() ==> self.crawls[i].id.unwrap()
                < self.crawls[j].id.unwrap()
        &&& forall|i: int|
            0 <= i < self.pages.len() ==> 1 <= (#[trigger] self.pages[i]).id < self.next_id
                && has_crawl(self.crawls, self.pages[i].crawl_id)
        &&& forall|i: int, j: int|
            0 <= i < j < self.pages.len() ==> self.pages[i].id < self.pages[j].id
        &&& forall|i: int|
            0 <= i < self.queries.len() ==> (#[trigger] self.queries[i]).id is Some && 1
                <= self.queries[i].id.unwrap() < self.next_id && has_crawl(
                self.crawls,
                self.queries[i].crawl_id,
            )
        &&& forall|i: int, j: int|
            0 <= i < j < self.queries.len() ==> self.queries[i].id.unwrap()
                < self.queries[j].id.unwrap()
        &&& forall|i: int|
            0 <= i < self.results.len() ==> (#[trigger] self.results[i]).id is Some && 1
                <= self.results[i].id.unwrap() < self.next_id && has_page(
                self.pages,
                self.results[i].page_id,
            )
        &&& forall|i: int, j: int|
            0 <= i < j < self.results.len() ==> self.results[i].id.unwrap()
                < self.results[j].id.unwrap()
    }

    /// Removes the site `site` (if given) and the crawl `crawl` (if given),
    /// then every row whose parent is gone, down the chain of references.
    pub open spec fn cascade(self, site: Option<i64>, crawl: Option<i64>) -> DbView {
        let sites = self.sites.filter(site_kept(site));
        let crawls = self.crawls.filter(crawl_kept(sites, crawl));
        let pages = self.pages.filter(page_kept(crawls));
        DbView {
            sites,
            crawls,
            pages,
            queries: self.queries.filter(query_kept(crawls, None)),
            results: self.results.filter(result_kept(pages, None)),
            next_id: self.next_id,
        }
    }

    pub open spec fn delete_site(self, id: i64) -> DbView {
        self.cascade(Some(id), None)
    }

    pub open spec fn delete_crawl(self, id: i64) -> DbView {
        self.cascade(None, Some(id))
    }

    pub open spec fn insert_site(self, s: Site) -> DbView {
        DbView { sites: self.sites.push(s), next_id: self.next_id + 1, ..self }
    }

    pub open spec fn insert_crawl(self, c: Crawl) -> DbView {
        DbView { crawls: self.crawls.push(c), next_id: self.next_id + 1, ..self }
    }

    /// Re-parents the crawl with the given id; its start time stays.
    pub open spec fn update_crawl(self, id: i64, site_id: i64) -> DbView {
        DbView {
            crawls: self.crawls.map_values(
                |x: Crawl| if x.id == Some(id) { Crawl { site_id, ..x } } else { x },
            ),
            ..self
        }
    }

    /// `last` is this store with one page appended: the next id, the given
    /// fields, and the time it was archived.
    pub open spec fn archived(
        self,
        url: String,
        final_url: String,
        html_content: String,
        crawl_id: i64,
        last: DbView,
    ) -> bool {
        &&& last.pages.len() == self.pages.len() + 1
        &&& last == self.insert_page(last.pages.last())
        &&& last.pages.last().id == self.next_id
        &&& last.pages.last().url == url
        &&& last.pages.last().final_url == final_url
        &&& last.pages.last().html_content == html_content
        &&& last.pages.last().crawl_id == crawl_id
        &&& is_timestamp_text(last.pages.last().created_at@)
    }

    pub open spec fn insert_page(self, p: PageArchive) -> DbView {
        DbView { pages: self.pages.push(p), next_id: self.next_id + 1, ..self }
    }

    pub open spec fn insert_query(self, q: Query) -> DbView {
        DbView { queries: self.queries.push(q), next_id: self.next_id + 1, ..self }
    }

    pub open spec fn update_query(self, q: Query) -> DbView {
        DbView {
            queries: self.queries.map_values(|x: Query| if x.id == q.id { q } else { x }),
            ..self
        }
    }

    pub open spec fn insert_result(self, e: ResultEntry) -> DbView {
        DbView { results: self.results.push(e), next_id: self.next_id + 1, ..self }
    }

    /// Rewrites the selector and count of the result row with the given id;
    /// its page stays.
    pub open spec fn update_result(self, id: i64, selector: String, count: u32) -> DbView {
        DbView {
            results: self.results.map_values(
                |x: ResultEntry| if x.id == Some(id) {
                    ResultEntry { selector, count, ..x }
                } else {
                    x
                },
            ),
            ..self
        }
    }

    pub open spec fn delete_query(self, id: i64) -> DbView {
        DbView { queries: self.queries.filter(query_kept(self.crawls, Some(id))), ..self }
    }

    pub open spec fn delete_result(self, id: i64) -> DbView {
        DbView { results: self.results.filter(result_kept(self.pages, Some(id))), ..self }
    }

    /// The archived pages of one crawl, in creation order.
    pub open spec fn pages_of_crawl(self, crawl_id: i64) -> Seq<PageArchive> {
        self.pages.filter(|p: PageArchive| p.crawl_id == crawl_id)
    }

    pub open spec fn update_site(self, s: Site) -> DbView {
        DbView { sites: self.sites.map_values(|x: Site| if x.id == s.id { s } else { x }), ..self }
    }
}

/// Taking an element more of a prefix extends its filter by that element
/// exactly when the element passes.
pub proof fn lemma_filter_prefix<A>(s: Seq<A>, p: spec_fn(A) -> bool, i: int)
    requires
        0 <= i < s.len(),
    ensures
        s.subrange(0, i + 1).filter(p) == (if p(s[i]) {
            s.subrange(0, i).filter(p).push(s[i])
        } else {
            s.subrange(0, i).filter(p)
        }),
{
    reveal(Seq::filter);
    assert(s.subrange(0, i + 1).drop_last() =~= s.subrange(0, i));
}

/// Filtering keeps only elements of the sequence that pass, and keeps a
/// strictly increasing key strictly increasing.
pub proof fn lemma_filter_ordered<A>(s: Seq<A>, p: spec_fn(A) -> bool, key: spec_fn(A) -> int)
    requires
        forall|i: int, j: int| 0 <= i < j < s.len() ==> key(s[i]) < key(s[j]),
    ensures
        forall|i: int|
            0 <= i < s.filter(p).len() ==> p(#[trigger] s.filter(p)[i]) && s.contains(
                s.filter(p)[i],
            ),
        forall|i: int, j: int|
            0 <= i < j < s.filter(p).len() ==> key(s.filter(p)[i]) < key(s.filter(p)[j]),
    decreases s.len(),
{
    reveal(Seq::filter);
    if s.len() > 0 {
        let t = s.drop_last();
        lemma_filter_ordered(t, p, key);
        assert forall|i: int| 0 <= i < t.filter(p).len() implies key(t.filter(p)[i]) < key(
            s.last(),
        ) && s.contains(t.filter(p)[i]) by {
            let k = choose|k: int| 0 <= k < t.len() && t[k] == t.filter(p)[i];
            assert(s[k] == t[k]);
        }
        assert(s[s.len() - 1] == s.last());
    }
}

/// The entity store: five tables with store-assigned ids and cascading
/// deletes along the references crawl -> site, page -> crawl, query -> crawl
/// and result -> page.
pub struct Database {
    sites: Vec<Site>,
    crawls: Vec<Crawl>,
    pages: Vec<PageArchive>,
    queries: Vec<Query>,
    results: Vec<ResultEntry>,
    next_id: i64,
}

impl View for Database {
    type V = DbView;

    closed spec fn view(&self) -> DbView {
        DbView {
            sites: self.sites@,
            crawls: self.crawls@,
            pages: self.pages@,
            queries: self.queries@,
            results: self.results@,
            next_id: self.next_id as int,
        }
    }
}

impl Database {
    pub open spec fn wf(&self) -> bool {
        self@.wf()
    }

    /// An empty store.
    pub fn new() -> (r: Database)
        ensures
            r.wf(),
            r@.next_id == 1,
            r@.sites.len() == 0,
            r@.crawls.len() == 0,
            r@.pages.len() == 0,
            r@.queries.len() == 0,
            r@.results.len() == 0,
    {
        Database {
            sites: Vec::new(),
            crawls: Vec::new(),
            pages: Vec::new(),
            queries: Vec::new(),
            results: Vec::new(),
            next_id: 1,
        }
    }

    /// Hands out the next id, unless the id space is exhausted.
    fn take_id(&mut self) -> (r: Option<i64>)
        requires
            old(self).wf(),
        ensures
            final(self).wf(),
            match r {
                Some(id) => {
                    &&& old(self)@.next_id < i64::MAX
                    &&& id == old(self)@.next_id
                    &&& final(self)@ == (DbView { next_id: old(self)@.next_id + 1, ..old(self)@ })
                },
                None => old(self)@.next_id == i64::MAX && final(self)@ == old(self)@,
            },
    {
        if self.next_id < i64::MAX {
            let id = self.next_id;
            let ghost db0 = self@;
            self.next_id = id + 1;
            proof {
                let d = self@;
                assert forall|i: int| 0 <= i < d.pages.len() implies 1 <= (
                #[trigger] d.pages[i]).id < d.next_id by {
                    assert(d.pages[i] == db0.pages[i]);
                }
                assert forall|i: int| 0 <= i < d.queries.len() implies 1 <= (
                #[trigger] d.queries[i]).id.unwrap() < d.next_id by {
                    assert(d.queries[i] == db0.queries[i]);
                }
                assert forall|i: int| 0 <= i < d.results.len() implies 1 <= (
                #[trigger] d.results[i]).id.unwrap() < d.next_id by {
                    assert(d.results[i] == db0.results[i]);
                }
            }
            Some(id)
        } else {
            None
        }
    }

    fn push_site(&mut self, s: Site)
        ensures
            final(self)@ == (DbView { sites: old(self)@.sites.push(s), ..old(self)@ }),
    {
        self.sites.push(s);
    }

    fn set_site(&mut self, i: usize, s: Site)
        requires
            i < old(self)@.sites.len(),
        ensures
            final(self)@ == (DbView { sites: old(self)@.sites.update(i as int, s), ..old(self)@ }),
    {
        self.sites.set(i, s);
    }

    fn push_crawl(&mut self, c: Crawl)
        ensures
            final(self)@ == (DbView { crawls: old(self)@.crawls.push(c), ..old(self)@ }),
    {
        self.crawls.push(c);
    }

    fn set_crawl(&mut self, i: usize, c: Crawl)
        requires
            i < old(self)@.crawls.len(),
        ensures
            final(self)@ == (DbView {
                crawls: old(self)@.crawls.update(i as int, c),
                ..old(self)@
            }),
    {
        self.crawls.set(i, c);
    }

    fn push_page(&mut self, p: PageArchive)
        ensures
            final(self)@ == (DbView { pages: old(self)@.pages.push(p), ..old(self)@ }),
    {
        self.pages.push(p);
    }

    fn push_query(&mut self, q: Query)
        ensures
            final(self)@ == (DbView { queries: old(self)@.queries.push(q), ..old(self)@ }),
    {
        self.queries.push(q);
    }

    fn set_query(&mut self, i: usize, q: Query)
        requires
            i < old(self)@.queries.len(),
        ensures
            final(self)@ == (DbView {
                queries: old(self)@.queries.update(i as int, q),
                ..old(self)@
            }),
    {
        self.queries.set(i, q);
    }

    fn push_result(&mut self, e: ResultEntry)
        ensures
            final(self)@ == (DbView { results: old(self)@.results.push(e), ..old(self)@ }),
    {
        self.results.push(e);
    }

    fn set_result(&mut self, i: usize, e: ResultEntry)
        requires
            i < old(self)@.results.len(),
        ensures
            final(self)@ == (DbView {
                results: old(self)@.results.update(i as int, e),
                ..old(self)@
            }),
    {
        self.results.set(i, e);
    }

    /// The next id the store will hand out.
    pub fn next_id(&self) -> (r: i64)
        ensures
            r == self@.next_id,
    {
        self.next_id
    }

    /// Rebuilds a store from saved tables (each in creation order) and the
    /// next id to hand out; `None` when the tables do not form a well-formed
    /// store (ids out of order or out of range, or a row whose parent is
    /// missing).
    pub fn restore(
        next_id: i64,
        sites: Vec<Site>,
        crawls: Vec<Crawl>,
        pages: Vec<PageArchive>,
        queries: Vec<Query>,
        results: Vec<ResultEntry>,
    ) -> (r: Option<Database>)
        ensures
            match r {
                Some(d) => d.wf() && d@ == (DbView {
                    sites: sites@,
                    crawls: crawls@,
                    pages: pages@,
                    queries: queries@,
                    results: results@,
                    next_id: next_id as int,
                }),
                None => !(DbView {
                    sites: sites@,
                    crawls: crawls@,
                    pages: pages@,
                    queries: queries@,
                    results: results@,
                    next_id: next_id as int,
                }).wf(),
            },
    {
        let d = Database { sites, crawls, pages, queries, results, next_id };
        if d.next_id < 1 {
            return None;
        }
        if d.sites_ok() && d.crawls_ok() && d.pages_ok() && d.queries_ok() && d.results_ok() {
            Some(d)
        } else {
            None
        }
    }

    fn sites_ok(&self) -> (r: bool)
        ensures
            r == ((forall|i: int|
                0 <= i < self@.sites.len() ==> (#[trigger] self@.sites[i]).id is Some && 1
                    <= self@.sites[i].id.unwrap() < self@.next_id) && (forall|i: int, j: int|
                0 <= i < j < self@.sites.len() ==> self@.sites[i].id.unwrap()
                    < self@.sites[j].id.unwrap())),
    {
        let mut i: usize = 0;
        while i < self.sites.len()
            invariant
                i <= self.sites@.len(),
                forall|a: int|
                    0 <= a < i ==> (#[trigger] self@.sites[a]).id is Some && 1
                        <= self@.sites[a].id.unwrap() < self@.next_id,
                forall|a: int, b: int|
                    0 <= a < b < i ==> self@.sites[a].id.unwrap() < self@.sites[b].id.unwrap(),
            decreases self.sites@.len() - i,
        {
            let x = match self.sites[i].id {
                Some(x) => x,
                None => {
                    return false;
                },
            };
            if x < 1 || x >= self.next_id {
                return false;
            }
            if i > 0 {
                if let Some(p) = self.sites[i - 1].id {
                    if p >= x {
                        return false;
                    }
                }
            }
            i += 1;
        }
        true
    }

    fn crawls_ok(&self) -> (r: bool)
        ensures
            r == ((forall|i: int|
                0 <= i < self@.crawls.len() ==> (#[trigger] self@.crawls[i]).id is Some && 1
                    <= self@.crawls[i].id.unwrap() < self@.next_id && has_site(
                    self@.sites,
                    self@.crawls[i].site_id,
                )) && (forall|i: int, j: int|
                0 <= i < j < self@.crawls.len() ==> self@.crawls[i].id.unwrap()
                    < self@.crawls[j].id.unwrap())),
    {
        let mut i: usize = 0;
        while i < self.crawls.len()
            invariant
                i <= self.crawls@.len(),
                forall|a: int|
                    0 <= a < i ==> (#[trigger] self@.crawls[a]).id is Some && 1
                        <= self@.crawls[a].id.unwrap() < self@.next_id && has_site(
                        self@.sites,
                        self@.crawls[a].site_id,
                    ),
                forall|a: int, b: int|
                    0 <= a < b < i ==> self@.crawls[a].id.unwrap() < self@.crawls[b].id.unwrap(),
            decreases self.crawls@.len() - i,
        {
            let x = match self.crawls[i].id {
                Some(x) => x,
                None => {
                    return false;
                },
            };
            if x < 1 || x >= self.next_id {
                return false;
            }
            if i > 0 {
                if let Some(p) = self.crawls[i - 1].id {
                    if p >= x {
                        return false;
                    }
                }
            }
            if self.site_index(self.crawls[i].site_id).is_none() {
                return false;
            }
            i += 1;
        }
        true
    }

    fn pages_ok(&self) -> (r: bool)
        ensures
            r == ((forall|i: int|
                0 <= i < self@.pages.len() ==> 1 <= (#[trigger] self@.pages[i]).id
                    < self@.next_id && has_crawl(self@.crawls, self@.pages[i].crawl_id)) && (
            forall|i: int, j: int|
                0 <= i < j < self@.pages.len() ==> self@.pages[i].id < self@.pages[j].id)),
    {
        let mut i: usize = 0;
        while i < self.pages.len()
            invariant
                i <= self.pages@.len(),
                forall|a: int|
                    0 <= a < i ==> 1 <= (#[trigger] self@.pages[a]).id < self@.next_id
                        && has_crawl(self@.crawls, self@.pages[a].crawl_id),
                forall|a: int, b: int|
                    0 <= a < b < i ==> self@.pages[a].id < self@.pages[b].id,
            decreases self.pages@.len() - i,
        {
            let x = self.pages[i].id;
            assert(self@.pages[i as int].id == x);
            if x < 1 || x >= self.next_id {
                return false;
            }
            if i > 0 && self.pages[i - 1].id >= x {
                assert(!(self@.pages[i - 1].id < self@.pages[i as int].id));
                return false;
            }
            if self.crawl_index(self.pages[i].crawl_id).is_none() {
                assert(!has_crawl(self@.crawls, self@.pages[i as int].crawl_id));
                return false;
            }
            i += 1;
        }
        true
    }

    fn queries_ok(&self) -> (r: bool)
        ensures
            r == ((forall|i: int|
                0 <= i < self@.queries.len() ==> (#[trigger] self@.queries[i]).id is Some && 1
                    <= self@.queries[i].id.unwrap() < self@.next_id && has_crawl(
                    self@.crawls,
                    self@.queries[i].crawl_id,
                )) && (forall|i: int, j: int|
                0 <= i < j < self@.queries.len() ==> self@.queries[i].id.unwrap()
                    < self@.queries[j].id.unwrap())),
    {
        let mut i: usize = 0;
        while i < self.queries.len()
            invariant
                i <= self.queries@.len(),
                forall|a: int|
                    0 <= a < i ==> (#[trigger] self@.queries[a]).id is Some && 1
                        <= self@.queries[a].id.unwrap() < self@.next_id && has_crawl(
                        self@.crawls,
                        self@.queries[a].crawl_id,
                    ),
                forall|a: int, b: int|
                    0 <= a < b < i ==> self@.queries[a].id.unwrap()
                        < self@.queries[b].id.unwrap(),
            decreases self.queries@.len() - i,
        {
            let x = match self.queries[i].id {
                Some(x) => x,
                None => {
                    return false;
                },
            };
            if x < 1 || x >= self.next_id {
                return false;
            }
            if i > 0 {
                if let Some(p) = self.queries[i - 1].id {
                    if p >= x {
                        return false;
                    }
                }
            }
            if self.crawl_index(self.queries[i].crawl_id).is_none() {
                return false;
            }
            i += 1;
        }
        true
    }

    fn results_ok(&self) -> (r: bool)
        ensures
            r == ((forall|i: int|
                0 <= i < self@.results.len() ==> (#[trigger] self@.results[i]).id is Some && 1
                    <= self@.results[i].id.unwrap() < self@.next_id && has_page(
                    self@.pages,
                    self@.results[i].page_id,
                )) && (forall|i: int, j: int|
                0 <= i < j < self@.results.len() ==> self@.results[i].id.unwrap()
                    < self@.results[j].id.unwrap())),
    {
        let mut i: usize = 0;
        while i < self.results.len()
            invariant
                i <= self.results@.len(),
                forall|a: int|
                    0 <= a < i ==> (#[trigger] self@.results[a]).id is Some && 1
                        <= self@.results[a].id.unwrap() < self@.next_id && has_page(
                        self@.pages,
                        self@.results[a].page_id,
                    ),
                forall|a: int, b: int|
                    0 <= a < b < i ==> self@.results[a].id.unwrap()
                        < self@.results[b].id.unwrap(),
            decreases self.results@.len() - i,
        {
            let x = match self.results[i].id {
                Some(x) => x,
                None => {
                    return false;
                },
            };
            if x < 1 || x >= self.next_id {
                return false;
            }
            if i > 0 {
                if let Some(p) = self.results[i - 1].id {
                    if p >= x {
                        return false;
                    }
                }
            }
            if self.page_index(self.results[i].page_id).is_none() {
                return false;
            }
            i += 1;
        }
        true
    }

    fn site_index(&self, id: i64) -> (r: Option<usize>)
        ensures
            match r {
                Some(i) => i < self@.sites.len() && self@.sites[i as int].id == Some(id),
                None => !has_site(self@.sites, id),
            },
    {
        let mut i: usize = 0;
        while i < self.sites.len()
            invariant
                i <= self.sites@.len(),
                forall|k: int| 0 <= k < i ==> self.sites@[k].id != Some(id),
            decreases self.sites@.len() - i,
        {
            if let Some(x) = self.sites[i].id {
                if x == id {
                    return Some(i);
                }
            }
            i += 1;
        }
        None
    }

    fn crawl_index(&self, id: i64) -> (r: Option<usize>)
        ensures
            match r {
                Some(i) => i < self@.crawls.len() && self@.crawls[i as int].id == Some(id),
                None => !has_crawl(self@.crawls, id),
            },
    {
        let mut i: usize = 0;
        while i < self.crawls.len()
            invariant
                i <= self.crawls@.len(),
                forall|k: int| 0 <= k < i ==> self.crawls@[k].id != Some(id),
            decreases self.crawls@.len() - i,
        {
            if let Some(x) = self.crawls[i].id {
                if x == id {
                    return Some(i);
                }
            }
            i += 1;
        }
        None
    }

    fn page_index(&self, id: i64) -> (r: Option<usize>)
        ensures
            match r {
                Some(i) => i < self@.pages.len() && self@.pages[i as int].id == id,
                None => !has_page(self@.pages, id),
            },
    {
        let mut i: usize = 0;
        while i < self.pages.len()
            invariant
                i <= self.pages@.len(),
                forall|k: int| 0 <= k < i ==> self.pages@[k].id != id,
            decreases self.pages@.len() - i,
        {
            if self.pages[i].id == id {
                return Some(i);
            }
            i += 1;
        }
        None
    }

    fn query_index(&self, id: i64) -> (r: Option<usize>)
        ensures
            match r {
                Some(i) => i < self@.queries.len() && self@.queries[i as int].id == Some(id),
                None => !has_query(self@.queries, id),
            },
    {
        let mut i: usize = 0;
        while i < self.queries.len()
            invariant
                i <= self.queries@.len(),
                forall|k: int| 0 <= k < i ==> self.queries@[k].id != Some(id),
            decreases self.queries@.len() - i,
        {
            if let Some(x) = self.queries[i].id {
                if x == id {
                    return Some(i);
                }
            }
            i += 1;
        }
        None
    }

    fn result_index(&self, id: i64) -> (r: Option<usize>)
        ensures
            match r {
                Some(i) => i < self@.results.len() && self@.results[i as int].id == Some(id),
                None => !has_result(self@.results, id),
            },
    {
        let mut i: usize = 0;
        while i < self.results.len()
            invariant
                i <= self.results@.len(),
                forall|k: int| 0 <= k < i ==> self.results@[k].id != Some(id),
            decreases self.results@.len() - i,
        {
            if let Some(x) = self.results[i].id {
                if x == id {
                    return Some(i);
                }
            }
            i += 1;
        }
        None
    }

    fn retain_sites(&mut self, drop: Option<i64>)
        ensures
            final(self)@ == (DbView { sites: old(self)@.sites.filter(site_kept(drop)), ..old(self)@ }),
    {
        let mut kept: Vec<Site> = Vec::new();
        let mut i: usize = 0;
        while i < self.sites.len()
            invariant
                i <= self.sites@.len(),
                kept@ == self.sites@.subrange(0, i as int).filter(site_kept(drop)),
            decreases self.sites@.len() - i,
        {
            let keep = match (drop, self.sites[i].id) {
                (Some(d), Some(x)) => x != d,
                _ => true,
            };
            proof {
                lemma_filter_prefix(self.sites@, site_kept(drop), i as int);
            }
            if keep {
                kept.push(self.sites[i].copy());
            }
            i += 1;
        }
        proof {
            assert(self.sites@.subrange(0, self.sites@.len() as int) =~= self.sites@);
        }
        self.sites = kept;
    }

    fn retain_crawls(&mut self, drop: Option<i64>)
        ensures
            final(self)@ == (DbView {
                crawls: old(self)@.crawls.filter(crawl_kept(old(self)@.sites, drop)),
                ..old(self)@
            }),
    {
        let mut kept: Vec<Crawl> = Vec::new();
        let mut i: usize = 0;
        while i < self.crawls.len()
            invariant
                i <= self.crawls@.len(),
                kept@ == self.crawls@.subrange(0, i as int).filter(
                    crawl_kept(self@.sites, drop),
                ),
            decreases self.crawls@.len() - i,
        {
            let not_gone = match (drop, self.crawls[i].id) {
                (Some(d), Some(x)) => x != d,
                _ => true,
            };
            let keep = not_gone && self.site_index(self.crawls[i].site_id).is_some();
            proof {
                lemma_filter_prefix(self.crawls@, crawl_kept(self@.sites, drop), i as int);
            }
            if keep {
                kept.push(self.crawls[i].copy());
            }
            i += 1;
        }
        proof {
            assert(self.crawls@.subrange(0, self.crawls@.len() as int) =~= self.crawls@);
        }
        self.crawls = kept;
    }

    fn retain_pages(&mut self)
        ensures
            final(self)@ == (DbView {
                pages: old(self)@.pages.filter(page_kept(old(self)@.crawls)),
                ..old(self)@
            }),
    {
        let mut kept: Vec<PageArchive> = Vec::new();
        let mut i: usize = 0;
        while i < self.pages.len()
            invariant
                i <= self.pages@.len(),
                kept@ == self.pages@.subrange(0, i as int).filter(page_kept(self@.crawls)),
            decreases self.pages@.len() - i,
        {
            let keep = self.crawl_index(self.pages[i].crawl_id).is_some();
            proof {
                lemma_filter_prefix(self.pages@, page_kept(self@.crawls), i as int);
            }
            if keep {
                kept.push(self.pages[i].copy());
            }
            i += 1;
        }
        proof {
            assert(self.pages@.subrange(0, self.pages@.len() as int) =~= self.pages@);
        }
        self.pages = kept;
    }

    fn retain_queries(&mut self, drop: Option<i64>)
        ensures
            final(self)@ == (DbView {
                queries: old(self)@.queries.filter(query_kept(old(self)@.crawls, drop)),
                ..old(self)@
            }),
    {
        let mut kept: Vec<Query> = Vec::new();
        let mut i: usize = 0;
        while i < self.queries.len()
            invariant
                i <= self.queries@.len(),
                kept@ == self.queries@.subrange(0, i as int).filter(
                    query_kept(self@.crawls, drop),
                ),
            decreases self.queries@.len() - i,
        {
            let not_gone = match (drop, self.queries[i].id) {
                (Some(d), Some(x)) => x != d,
                _ => true,
            };
            let keep = not_gone && self.crawl_index(self.queries[i].crawl_id).is_some();
            proof {
                lemma_filter_prefix(self.queries@, query_kept(self@.crawls, drop), i as int);
            }
            if keep {
                kept.push(self.queries[i].copy());
            }
            i += 1;
        }
        proof {
            assert(self.queries@.subrange(0, self.queries@.len() as int) =~= self.queries@);
        }
        self.queries = kept;
    }

    fn retain_results(&mut self, drop: Option<i64>)
        ensures
            final(self)@ == (DbView {
                results: old(self)@.results.filter(result_kept(old(self)@.pages, drop)),
                ..old(self)@
            }),
    {
        let mut kept: Vec<ResultEntry> = Vec::new();
        let mut i: usize = 0;
        while i < self.results.len()
            invariant
                i <= self.results@.len(),
                kept@ == self.results@.subrange(0, i as int).filter(
                    result_kept(self@.pages, drop),
                ),
            decreases self.results@.len() - i,
        {
            let not_gone = match (drop, self.results[i].id) {
                (Some(d), Some(x)) => x != d,
                _ => true,
            };
            let keep = not_gone && self.page_index(self.results[i].page_id).is_some();
            proof {
                lemma_filter_prefix(self.results@, result_kept(self@.pages, drop), i as int);
            }
            if keep {
                kept.push(self.results[i].copy());
            }
            i += 1;
        }
        proof {
            assert(self.results@.subrange(0, self.results@.len() as int) =~= self.results@);
        }
        self.results = kept;
    }

    /// Removes the given site and crawl, then every row left without its parent.
    fn remove_cascade(&mut self, site: Option<i64>, crawl: Option<i64>)
        requires
            old(self).wf(),
        ensures
            final(self)@ == old(self)@.cascade(site, crawl),
            final(self).wf(),
    {
        proof {
            lemma_cascade_wf(self@, site, crawl);
        }
        self.retain_sites(site);
        self.retain_crawls(crawl);
        self.retain_pages();
        self.retain_queries(None);
        self.retain_results(None);
    }
}


/// Appending a row with the next id keeps the store well formed.
pub proof fn lemma_insert_site_wf(db: DbView, s: Site)
    requires
        db.wf(),
        db.next_id < i64::MAX,
        s.id == Some(db.next_id as i64),
    ensures
        db.insert_site(s).wf(),
{
    let d = db.insert_site(s);
    assert forall|i: int| 0 <= i < db.sites.len() implies d.sites[i] == db.sites[i] by {}
    assert forall|i: int| 0 <= i < d.crawls.len() implies has_site(
        d.sites,
        #[trigger] d.crawls[i].site_id,
    ) by {
        let k = choose|k: int| 0 <= k < db.sites.len() && db.sites[k].id == Some(d.crawls[i].site_id);
        assert(d.sites[k] == db.sites[k]);
    }
    assert forall|i: int| 0 <= i < d.pages.len() implies 1 <= (#[trigger] d.pages[i]).id
        < d.next_id by {
        assert(d.pages[i] == db.pages[i]);
    }
    assert forall|i: int| 0 <= i < d.queries.len() implies 1 <= (
    #[trigger] d.queries[i]).id.unwrap() < d.next_id by {
        assert(d.queries[i] == db.queries[i]);
    }
    assert forall|i: int| 0 <= i < d.results.len() implies 1 <= (
    #[trigger] d.results[i]).id.unwrap() < d.next_id by {
        assert(d.results[i] == db.results[i]);
    }
}

/// Replacing a row by one with the same id keeps the store well formed.
pub proof fn lemma_update_site_wf(db: DbView, i: int, s: Site)
    requires
        db.wf(),
        0 <= i < db.sites.len(),
        db.sites[i].id == s.id,
    ensures
        (DbView { sites: db.sites.update(i, s), ..db }).wf(),
{
    let d = DbView { sites: db.sites.update(i, s), ..db };
    assert forall|k: int| 0 <= k < d.crawls.len() implies has_site(
        d.sites,
        #[trigger] d.crawls[k].site_id,
    ) by {
        let j = choose|j: int| 0 <= j < db.sites.len() && db.sites[j].id == Some(d.crawls[k].site_id);
        assert(d.sites[j].id == db.sites[j].id);
    }
    assert forall|k: int| 0 <= k < d.pages.len() implies 1 <= (#[trigger] d.pages[k]).id
        < d.next_id by {
        assert(d.pages[k] == db.pages[k]);
    }
    assert forall|k: int| 0 <= k < d.queries.len() implies 1 <= (
    #[trigger] d.queries[k]).id.unwrap() < d.next_id by {
        assert(d.queries[k] == db.queries[k]);
    }
    assert forall|k: int| 0 <= k < d.results.len() implies 1 <= (
    #[trigger] d.results[k]).id.unwrap() < d.next_id by {
        assert(d.results[k] == db.results[k]);
    }
}

/// Appending a crawl with the next id under a stored site keeps the store
/// well formed.
pub proof fn lemma_insert_crawl_wf(db: DbView, c: Crawl)
    requires
        db.wf(),
        db.next_id < i64::MAX,
        c.id == Some(db.next_id as i64),
        has_site(db.sites, c.site_id),
    ensures
        db.insert_crawl(c).wf(),
{
    let d = db.insert_crawl(c);
    assert forall|i: int| 0 <= i < db.crawls.len() implies d.crawls[i] == db.crawls[i] by {}
    assert forall|i: int| 0 <= i < d.pages.len() implies 1 <= (#[trigger] d.pages[i]).id
        < d.next_id && has_crawl(d.crawls, d.pages[i].crawl_id) by {
        let k = choose|k: int| 0 <= k < db.crawls.len() && db.crawls[k].id == Some(d.pages[i].crawl_id);
        assert(d.crawls[k] == db.crawls[k]);
    }
    assert forall|i: int| 0 <= i < d.queries.len() implies 1 <= (
    #[trigger] d.queries[i]).id.unwrap() < d.next_id && has_crawl(
        d.crawls,
        d.queries[i].crawl_id,
    ) by {
        let k = choose|k: int|
            0 <= k < db.crawls.len() && db.crawls[k].id == Some(d.queries[i].crawl_id);
        assert(d.crawls[k] == db.crawls[k]);
    }
    assert forall|i: int| 0 <= i < d.results.len() implies 1 <= (
    #[trigger] d.results[i]).id.unwrap() < d.next_id by {
        assert(d.results[i] == db.results[i]);
    }
}

/// Re-parenting a crawl under a stored site keeps the store well formed.
pub proof fn lemma_update_crawl_wf(db: DbView, i: int, c: Crawl)
    requires
        db.wf(),
        0 <= i < db.crawls.len(),
        db.crawls[i].id == c.id,
        has_site(db.sites, c.site_id),
    ensures
        (DbView { crawls: db.crawls.update(i, c), ..db }).wf(),
{
    let d = DbView { crawls: db.crawls.update(i, c), ..db };
    assert forall|k: int| 0 <= k < d.pages.len() implies 1 <= (#[trigger] d.pages[k]).id
        < d.next_id && has_crawl(d.crawls, d.pages[k].crawl_id) by {
        let j = choose|j: int| 0 <= j < db.crawls.len() && db.crawls[j].id == Some(d.pages[k].crawl_id);
        assert(d.crawls[j].id == db.crawls[j].id);
    }
    assert forall|k: int| 0 <= k < d.queries.len() implies 1 <= (
    #[trigger] d.queries[k]).id.unwrap() < d.next_id && has_crawl(
        d.crawls,
        d.queries[k].crawl_id,
    ) by {
        let j = choose|j: int|
            0 <= j < db.crawls.len() && db.crawls[j].id == Some(d.queries[k].crawl_id);
        assert(d.crawls[j].id == db.crawls[j].id);
    }
    assert forall|k: int| 0 <= k < d.results.len() implies 1 <= (
    #[trigger] d.results[k]).id.unwrap() < d.next_id by {
        assert(d.results[k] == db.results[k]);
    }
}

/// Appending a page with the next id under a stored crawl keeps the store
/// well formed.
pub proof fn lemma_insert_page_wf(db: DbView, p: PageArchive)
    requires
        db.wf(),
        db.next_id < i64::MAX,
        p.id == db.next_id,
        has_crawl(db.crawls, p.crawl_id),
    ensures
        db.insert_page(p).wf(),
{
    let d = db.insert_page(p);
    assert forall|i: int| 0 <= i < db.pages.len() implies d.pages[i] == db.pages[i] by {}
    assert forall|i: int| 0 <= i < d.queries.len() implies 1 <= (
    #[trigger] d.queries[i]).id.unwrap() < d.next_id by {
        assert(d.queries[i] == db.queries[i]);
    }
    assert forall|i: int| 0 <= i < d.results.len() implies 1 <= (
    #[trigger] d.results[i]).id.unwrap() < d.next_id && has_page(d.pages, d.results[i].page_id) by {
        let k = choose|k: int| 0 <= k < db.pages.len() && db.pages[k].id == d.results[i].page_id;
        assert(d.pages[k] == db.pages[k]);
    }
}

/// Appending a query with the next id under a stored crawl keeps the store
/// well formed.
pub proof fn lemma_insert_query_wf(db: DbView, q: Query)
    requires
        db.wf(),
        db.next_id < i64::MAX,
        q.id == Some(db.next_id as i64),
        has_crawl(db.crawls, q.crawl_id),
    ensures
        db.insert_query(q).wf(),
{
    let d = db.insert_query(q);
    assert forall|i: int| 0 <= i < db.queries.len() implies d.queries[i] == db.queries[i] by {}
    assert forall|i: int| 0 <= i < d.pages.len() implies 1 <= (#[trigger] d.pages[i]).id
        < d.next_id by {
        assert(d.pages[i] == db.pages[i]);
    }
    assert forall|i: int| 0 <= i < d.results.len() implies 1 <= (
    #[trigger] d.results[i]).id.unwrap() < d.next_id by {
        assert(d.results[i] == db.results[i]);
    }
}

/// Replacing a query by one with the same id under a stored crawl keeps the
/// store well formed.
pub proof fn lemma_update_query_wf(db: DbView, i: int, q: Query)
    requires
        db.wf(),
        0 <= i < db.queries.len(),
        db.queries[i].id == q.id,
        has_crawl(db.crawls, q.crawl_id),
    ensures
        (DbView { queries: db.queries.update(i, q), ..db }).wf(),
{
    let d = DbView { queries: db.queries.update(i, q), ..db };
    assert forall|k: int| 0 <= k < d.pages.len() implies 1 <= (#[trigger] d.pages[k]).id
        < d.next_id by {
        assert(d.pages[k] == db.pages[k]);
    }
    assert forall|k: int| 0 <= k < d.results.len() implies 1 <= (
    #[trigger] d.results[k]).id.unwrap() < d.next_id by {
        assert(d.results[k] == db.results[k]);
    }
}

/// Appending a result row with the next id for a stored page keeps the store
/// well formed.
pub proof fn lemma_insert_result_wf(db: DbView, e: ResultEntry)
    requires
        db.wf(),
        db.next_id < i64::MAX,
        e.id == Some(db.next_id as i64),
        has_page(db.pages, e.page_id),
    ensures
        db.insert_result(e).wf(),
{
    let d = db.insert_result(e);
    assert forall|i: int| 0 <= i < db.results.len() implies d.results[i] == db.results[i] by {}
    assert forall|i: int| 0 <= i < d.pages.len() implies 1 <= (#[trigger] d.pages[i]).id
        < d.next_id by {
        assert(d.pages[i] == db.pages[i]);
    }
    assert forall|i: int| 0 <= i < d.queries.len() implies 1 <= (
    #[trigger] d.queries[i]).id.unwrap() < d.next_id by {
        assert(d.queries[i] == db.queries[i]);
    }
}

/// Replacing a result row by one with the same id and page keeps the store
/// well formed.
pub proof fn lemma_update_result_wf(db: DbView, i: int, e: ResultEntry)
    requires
        db.wf(),
        0 <= i < db.results.len(),
        db.results[i].id == e.id,
        db.results[i].page_id == e.page_id,
    ensures
        (DbView { results: db.results.update(i, e), ..db }).wf(),
{
    let d = DbView { results: db.results.update(i, e), ..db };
    assert forall|k: int| 0 <= k < d.pages.len() implies 1 <= (#[trigger] d.pages[k]).id
        < d.next_id by {
        assert(d.pages[k] == db.pages[k]);
    }
    assert forall|k: int| 0 <= k < d.queries.len() implies 1 <= (
    #[trigger] d.queries[k]).id.unwrap() < d.next_id by {
        assert(d.queries[k] == db.queries[k]);
    }
}

/// Deleting one query or one result row keeps the store well formed.
pub proof fn lemma_delete_leaf_wf(db: DbView, id: i64)
    requires
        db.wf(),
    ensures
        db.delete_query(id).wf(),
        db.delete_result(id).wf(),
{
    let d = db.delete_query(id);
    lemma_filter_ordered(
        db.queries,
        query_kept(db.crawls, Some(id)),
        |x: Query| x.id.unwrap() as int,
    );
    assert forall|i: int| 0 <= i < d.queries.len() implies (#[trigger] d.queries[i]).id is Some
        && 1 <= d.queries[i].id.unwrap() < d.next_id by {
        let k = choose|k: int| 0 <= k < db.queries.len() && db.queries[k] == d.queries[i];
    }
    let e = db.delete_result(id);
    lemma_filter_ordered(
        db.results,
        result_kept(db.pages, Some(id)),
        |x: ResultEntry| x.id.unwrap() as int,
    );
    assert forall|i: int| 0 <= i < e.results.len() implies (#[trigger] e.results[i]).id is Some
        && 1 <= e.results[i].id.unwrap() < e.next_id by {
        let k = choose|k: int| 0 <= k < db.results.len() && db.results[k] == e.results[i];
    }
}

/// Archiving a page adds exactly one page to its crawl and none to any
/// other crawl.
pub proof fn lemma_insert_page_of_crawl(db: DbView, p: PageArchive, other: i64)
    requires
        other != p.crawl_id,
    ensures
        db.insert_page(p).pages_of_crawl(p.crawl_id).len() == db.pages_of_crawl(p.crawl_id).len()
            + 1,
        db.insert_page(p).pages_of_crawl(other) == db.pages_of_crawl(other),
{
    reveal(Seq::filter);
    assert(db.insert_page(p).pages.drop_last() =~= db.pages);
}

/// A crawl stored with the next id has no archived page.
pub proof fn lemma_new_crawl_has_no_pages(db: DbView, c: Crawl)
    requires
        db.wf(),
        c.id == Some(db.next_id as i64),
    ensures
        db.insert_crawl(c).pages_of_crawl(db.next_id as i64).len() == 0,
    decreases db.pages.len(),
{
    let cid = db.next_id as i64;
    assert forall|i: int| 0 <= i < db.pages.len() implies (#[trigger] db.pages[i]).crawl_id
        != cid by {
        let k = choose|k: int| 0 <= k < db.crawls.len() && db.crawls[k].id == Some(db.pages[i].crawl_id);
    }
    lemma_filter_ordered(db.pages, |q: PageArchive| q.crawl_id == cid, |q: PageArchive| q.id as int);
    if db.pages.filter(|q: PageArchive| q.crawl_id == cid).len() > 0 {
        let x = db.pages.filter(|q: PageArchive| q.crawl_id == cid)[0];
        let k = choose|k: int| 0 <= k < db.pages.len() && db.pages[k] == x;
    }
}

/// Cascading deletion keeps the store well formed.
pub proof fn lemma_cascade_wf(db: DbView, site: Option<i64>, crawl: Option<i64>)
    requires
        db.wf(),
    ensures
        db.cascade(site, crawl).wf(),
{
    let d = db.cascade(site, crawl);
    lemma_filter_ordered(db.sites, site_kept(site), |x: Site| x.id.unwrap() as int);
    lemma_filter_ordered(db.crawls, crawl_kept(d.sites, crawl), |x: Crawl| x.id.unwrap() as int);
    lemma_filter_ordered(db.pages, page_kept(d.crawls), |x: PageArchive| x.id as int);
    lemma_filter_ordered(db.queries, query_kept(d.crawls, None), |x: Query| x.id.unwrap() as int);
    lemma_filter_ordered(
        db.results,
        result_kept(d.pages, None),
        |x: ResultEntry| x.id.unwrap() as int,
    );
    assert forall|i: int| 0 <= i < d.sites.len() implies (#[trigger] d.sites[i]).id is Some && 1
        <= d.sites[i].id.unwrap() < d.next_id by {
        let k = choose|k: int| 0 <= k < db.sites.len() && db.sites[k] == d.sites[i];
    }
    assert forall|i: int| 0 <= i < d.crawls.len() implies (#[trigger] d.crawls[i]).id is Some && 1
        <= d.crawls[i].id.unwrap() < d.next_id by {
        let k = choose|k: int| 0 <= k < db.crawls.len() && db.crawls[k] == d.crawls[i];
    }
    assert forall|i: int| 0 <= i < d.pages.len() implies 1 <= (#[trigger] d.pages[i]).id
        < d.next_id by {
        let k = choose|k: int| 0 <= k < db.pages.len() && db.pages[k] == d.pages[i];
    }
    assert forall|i: int| 0 <= i < d.queries.len() implies (#[trigger] d.queries[i]).id is Some
        && 1 <= d.queries[i].id.unwrap() < d.next_id by {
        let k = choose|k: int| 0 <= k < db.queries.len() && db.queries[k] == d.queries[i];
    }
    assert forall|i: int| 0 <= i < d.results.len() implies (#[trigger] d.results[i]).id is Some
        && 1 <= d.results[i].id.unwrap() < d.next_id by {
        let k = choose|k: int| 0 <= k < db.results.len() && db.results[k] == d.results[i];
    }
}


impl Site {
    /// Stores the site: a site without an id is inserted and gets the next id;
    /// a site with an id replaces the stored row with that id.
    pub fn sync(&mut self, database: &mut Database) -> (r: Result<(), PalimpError>)
        requires
            old(database).wf(),
        ensures
            final(database).wf(),
            match old(self).id {
                None => match r {
                    Ok(()) => {
                        &&& final(self).id == Some(old(database)@.next_id as i64)
                        &&& final(self).domain == old(self).domain
                        &&& final(self).sitemap_url == old(self).sitemap_url
                        &&& final(database)@ == old(database)@.insert_site(*final(self))
                    },
                    Err(e) => {
                        &&& e == PalimpError::Storage
                        &&& old(database)@.next_id == i64::MAX
                        &&& final(database)@ == old(database)@
                        &&& *final(self) == *old(self)
                    },
                },
                Some(id) => {
                    &&& *final(self) == *old(self)
                    &&& match r {
                        Ok(()) => has_site(old(database)@.sites, id) && final(database)@
                            == old(database)@.update_site(*old(self)),
                        Err(e) => e == PalimpError::NotFound && !has_site(
                            old(database)@.sites,
                            id,
                        ) && final(database)@ == old(database)@,
                    }
                },
            },
    {
        match self.id {
            None => {
                let ghost db0 = database@;
                match database.take_id() {
                    None => {
                        Err(PalimpError::Storage)
                    },
                    Some(id) => {
                        self.id = Some(id);
                        database.push_site(self.copy());
                        proof {
                            assert(database@ == db0.insert_site(*self));
                            lemma_insert_site_wf(db0, *self);
                        }
                        Ok(())
                    },
                }
            },
            Some(id) => {
                match database.site_index(id) {
                    None => Err(PalimpError::NotFound),
                    Some(i) => {
                        let ghost db0 = database@;
                        database.set_site(i, self.copy());
                        proof {
                            assert(database@.sites =~= db0.sites.map_values(
                                |x: Site| if x.id == self.id { *self } else { x },
                            ));
                            lemma_update_site_wf(db0, i as int, *self);
                        }
                        Ok(())
                    },
                }
            },
        }
    }

    /// The stored site with the given id.
    pub fn fetch(id: i64, database: &Database) -> (r: Result<Site, PalimpError>)
        ensures
            match r {
                Ok(s) => s.id == Some(id) && database@.sites.contains(s),
                Err(e) => e == PalimpError::NotFound && !has_site(database@.sites, id),
            },
    {
        match database.site_index(id) {
            Some(i) => Ok(database.sites[i].copy()),
            None => Err(PalimpError::NotFound),
        }
    }

    /// All stored sites, in creation order.
    pub fn fetch_all(database: &Database) -> (r: Result<Vec<Site>, PalimpError>)
        ensures
            r is Ok,
            r.unwrap()@ == database@.sites,
    {
        let mut out: Vec<Site> = Vec::new();
        let mut i: usize = 0;
        while i < database.sites.len()
            invariant
                i <= database@.sites.len(),
                out@ == database@.sites.subrange(0, i as int),
            decreases database@.sites.len() - i,
        {
            out.push(database.sites[i].copy());
            proof {
                assert(out@ =~= database@.sites.subrange(0, i + 1));
            }
            i += 1;
        }
        proof {
            assert(out@ =~= database@.sites);
        }
        Ok(out)
    }

    /// Deletes the site with the given id and, by cascade, its crawls and
    /// everything stored under them.
    pub fn delete(id: i64, database: &mut Database) -> (r: Result<(), PalimpError>)
        requires
            old(database).wf(),
        ensures
            final(database).wf(),
            match r {
                Ok(()) => has_site(old(database)@.sites, id) && final(database)@ == old(
                    database,
                )@.delete_site(id),
                Err(e) => e == PalimpError::NotFound && !has_site(old(database)@.sites, id)
                    && final(database)@ == old(database)@,
            },
    {
        match database.site_index(id) {
            None => Err(PalimpError::NotFound),
            Some(_) => {
                database.remove_cascade(Some(id), None);
                Ok(())
            },
        }
    }
}


impl Crawl {
    /// Stores the crawl: a crawl without an id is inserted under its site and
    /// gets the next id and its start time; a crawl with an id moves the
    /// stored crawl with that id to `site_id`.
    pub fn sync(&mut self, database: &mut Database) -> (r: Result<(), PalimpError>)
        requires
            old(database).wf(),
        ensures
            final(database).wf(),
            final(self).site_id == old(self).site_id,
            match old(self).id {
                None => match r {
                    Ok(()) => {
                        &&& has_site(old(database)@.sites, old(self).site_id)
                        &&& final(self).id == Some(old(database)@.next_id as i64)
                        &&& final(self).started_at is Some
                        &&& is_timestamp_text(final(self).started_at.unwrap()@)
                        &&& final(database)@ == old(database)@.insert_crawl(*final(self))
                    },
                    Err(e) => {
                        &&& e == PalimpError::Storage
                        &&& !has_site(old(database)@.sites, old(self).site_id) || old(
                            database,
                        )@.next_id == i64::MAX
                        &&& final(database)@ == old(database)@
                        &&& *final(self) == *old(self)
                    },
                },
                Some(id) => {
                    &&& *final(self) == *old(self)
                    &&& match r {
                        Ok(()) => {
                            &&& has_crawl(old(database)@.crawls, id)
                            &&& has_site(old(database)@.sites, old(self).site_id)
                            &&& final(database)@ == old(database)@.update_crawl(
                                id,
                                old(self).site_id,
                            )
                        },
                        Err(e) => {
                            &&& e == PalimpError::NotFound && !has_crawl(
                                old(database)@.crawls,
                                id,
                            ) || e == PalimpError::Storage && has_crawl(
                                old(database)@.crawls,
                                id,
                            ) && !has_site(old(database)@.sites, old(self).site_id)
                            &&& final(database)@ == old(database)@
                        },
                    }
                },
            },
    {
        match self.id {
            None => {
                if database.site_index(self.site_id).is_none() {
                    return Err(PalimpError::Storage);
                }
                let ghost db0 = database@;
                match database.take_id() {
                    None => Err(PalimpError::Storage),
                    Some(id) => {
                        self.id = Some(id);
                        self.started_at = Some(crate::clock::timestamp_now());
                        database.push_crawl(self.copy());
                        proof {
                            assert(database@ == db0.insert_crawl(*self));
                            lemma_insert_crawl_wf(db0, *self);
                        }
                        Ok(())
                    },
                }
            },
            Some(id) => {
                match database.crawl_index(id) {
                    None => Err(PalimpError::NotFound),
                    Some(i) => {
                        if database.site_index(self.site_id).is_none() {
                            return Err(PalimpError::Storage);
                        }
                        let ghost db0 = database@;
                        let mut row = database.crawls[i].copy();
                        row.site_id = self.site_id;
                        database.set_crawl(i, row);
                        proof {
                            assert(database@.crawls =~= db0.crawls.map_values(
                                |x: Crawl| if x.id == Some(id) {
                                    Crawl { site_id: self.site_id, ..x }
                                } else {
                                    x
                                },
                            ));
                            lemma_update_crawl_wf(db0, i as int, row);
                        }
                        Ok(())
                    },
                }
            },
        }
    }

    /// The stored crawl with the given id.
    pub fn fetch(id: i64, database: &Database) -> (r: Result<Crawl, PalimpError>)
        ensures
            match r {
                Ok(c) => c.id == Some(id) && database@.crawls.contains(c),
                Err(e) => e == PalimpError::NotFound && !has_crawl(database@.crawls, id),
            },
    {
        match database.crawl_index(id) {
            Some(i) => Ok(database.crawls[i].copy()),
            None => Err(PalimpError::NotFound),
        }
    }

    /// All stored crawls, in creation order.
    pub fn fetch_all(database: &Database) -> (r: Result<Vec<Crawl>, PalimpError>)
        ensures
            r is Ok,
            r.unwrap()@ == database@.crawls,
    {
        let mut out: Vec<Crawl> = Vec::new();
        let mut i: usize = 0;
        while i < database.crawls.len()
            invariant
                i <= database@.crawls.len(),
                out@ == database@.crawls.subrange(0, i as int),
            decreases database@.crawls.len() - i,
        {
            out.push(database.crawls[i].copy());
            proof {
                assert(out@ =~= database@.crawls.subrange(0, i + 1));
            }
            i += 1;
        }
        proof {
            assert(out@ =~= database@.crawls);
        }
        Ok(out)
    }

    /// Deletes the crawl with the given id and, by cascade, its pages, its
    /// queries and the result rows of its pages.
    pub fn delete(id: i64, database: &mut Database) -> (r: Result<(), PalimpError>)
        requires
            old(database).wf(),
        ensures
            final(database).wf(),
            match r {
                Ok(()) => has_crawl(old(database)@.crawls, id) && final(database)@ == old(
                    database,
                )@.delete_crawl(id),
                Err(e) => e == PalimpError::NotFound && !has_crawl(old(database)@.crawls, id)
                    && final(database)@ == old(database)@,
            },
    {
        match database.crawl_index(id) {
            None => Err(PalimpError::NotFound),
            Some(_) => {
                database.remove_cascade(None, Some(id));
                Ok(())
            },
        }
    }
}

impl Page {
    /// Archives the page under its crawl and returns the id of the new row.
    pub fn sync(&self, database: &mut Database) -> (r: Result<i64, PalimpError>)
        requires
            old(database).wf(),
        ensures
            final(database).wf(),
            match r {
                Ok(id) => {
                    &&& self.crawl_id is Some
                    &&& has_crawl(old(database)@.crawls, self.crawl_id.unwrap())
                    &&& id == old(database)@.next_id
                    &&& old(database)@.archived(
                        self.url,
                        self.final_url,
                        self.html_content,
                        self.crawl_id.unwrap(),
                        final(database)@,
                    )
                },
                Err(e) => {
                    &&& final(database)@ == old(database)@
                    &&& match self.crawl_id {
                        None => e == PalimpError::Validation,
                        Some(c) => e == PalimpError::Storage && (!has_crawl(
                            old(database)@.crawls,
                            c,
                        ) || old(database)@.next_id == i64::MAX),
                    }
                },
            },
    {
        let crawl_id = match self.crawl_id {
            None => {
                return Err(PalimpError::Validation);
            },
            Some(c) => c,
        };
        if database.crawl_index(crawl_id).is_none() {
            return Err(PalimpError::Storage);
        }
        let ghost db0 = database@;
        match database.take_id() {
            None => Err(PalimpError::Storage),
            Some(id) => {
                let row = PageArchive {
                    id,
                    url: self.url.clone(),
                    final_url: self.final_url.clone(),
                    html_content: self.html_content.clone(),
                    crawl_id,
                    created_at: crate::clock::timestamp_now(),
                };
                database.push_page(row);
                proof {
                    assert(database@ == db0.insert_page(row));
                    assert(database@.pages.last() == row);
                    lemma_insert_page_wf(db0, row);
                }
                Ok(id)
            },
        }
    }
}

impl PageArchive {
    /// The archived page as a page of its crawl.
    pub fn to_page(&self) -> (r: Page)
        ensures
            r.url == self.url,
            r.final_url == self.final_url,
            r.html_content == self.html_content,
            r.crawl_id == Some(self.crawl_id),
    {
        Page {
            url: self.url.clone(),
            final_url: self.final_url.clone(),
            html_content: self.html_content.clone(),
            crawl_id: Some(self.crawl_id),
        }
    }

    /// The archived page with the given id.
    pub fn fetch(id: i64, database: &Database) -> (r: Result<PageArchive, PalimpError>)
        ensures
            match r {
                Ok(p) => p.id == id && database@.pages.contains(p),
                Err(e) => e == PalimpError::NotFound && !has_page(database@.pages, id),
            },
    {
        match database.page_index(id) {
            Some(i) => Ok(database.pages[i].copy()),
            None => Err(PalimpError::NotFound),
        }
    }

    /// The archived pages of one crawl, in creation order.
    pub fn fetch_by_crawl_id(crawl_id: i64, database: &Database) -> (r: Result<
        Vec<PageArchive>,
        PalimpError,
    >)
        ensures
            r is Ok,
            r.unwrap()@ == database@.pages_of_crawl(crawl_id),
    {
        let ghost pred = |p: PageArchive| p.crawl_id == crawl_id;
        let mut out: Vec<PageArchive> = Vec::new();
        let mut i: usize = 0;
        while i < database.pages.len()
            invariant
                i <= database@.pages.len(),
                pred == (|p: PageArchive| p.crawl_id == crawl_id),
                out@ == database@.pages.subrange(0, i as int).filter(pred),
            decreases database@.pages.len() - i,
        {
            proof {
                lemma_filter_prefix(database@.pages, pred, i as int);
            }
            if database.pages[i].crawl_id == crawl_id {
                out.push(database.pages[i].copy());
            }
            i += 1;
        }
        proof {
            assert(database@.pages.subrange(0, database@.pages.len() as int) =~= database@.pages);
        }
        Ok(out)
    }
}

impl Query {
    /// Stores the query: a query without an id is appended under its crawl
    /// and gets the next id; a query with an id replaces the stored row.
    pub fn sync(&mut self, database: &mut Database) -> (r: Result<(), PalimpError>)
        requires
            old(database).wf(),
        ensures
            final(database).wf(),
            final(self).crawl_id == old(self).crawl_id,
            final(self).selector == old(self).selector,
            match old(self).id {
                None => match r {
                    Ok(()) => {
                        &&& has_crawl(old(database)@.crawls, old(self).crawl_id)
                        &&& final(self).id == Some(old(database)@.next_id as i64)
                        &&& final(database)@ == old(database)@.insert_query(*final(self))
                    },
                    Err(e) => {
                        &&& e == PalimpError::Storage
                        &&& !has_crawl(old(database)@.crawls, old(self).crawl_id) || old(
                            database,
                        )@.next_id == i64::MAX
                        &&& final(database)@ == old(database)@
                        &&& *final(self) == *old(self)
                    },
                },
                Some(id) => {
                    &&& *final(self) == *old(self)
                    &&& match r {
                        Ok(()) => {
                            &&& has_query(old(database)@.queries, id)
                            &&& has_crawl(old(database)@.crawls, old(self).crawl_id)
                            &&& final(database)@ == old(database)@.update_query(*old(self))
                        },
                        Err(e) => {
                            &&& e == PalimpError::NotFound && !has_query(
                                old(database)@.queries,
                                id,
                            ) || e == PalimpError::Storage && has_query(
                                old(database)@.queries,
                                id,
                            ) && !has_crawl(old(database)@.crawls, old(self).crawl_id)
                            &&& final(database)@ == old(database)@
                        },
                    }
                },
            },
    {
        match self.id {
            None => {
                if database.crawl_index(self.crawl_id).is_none() {
                    return Err(PalimpError::Storage);
                }
                let ghost db0 = database@;
                match database.take_id() {
                    None => Err(PalimpError::Storage),
                    Some(id) => {
                        self.id = Some(id);
                        database.push_query(self.copy());
                        proof {
                            assert(database@ == db0.insert_query(*self));
                            lemma_insert_query_wf(db0, *self);
                        }
                        Ok(())
                    },
                }
            },
            Some(id) => {
                match database.query_index(id) {
                    None => Err(PalimpError::NotFound),
                    Some(i) => {
                        if database.crawl_index(self.crawl_id).is_none() {
                            return Err(PalimpError::Storage);
                        }
                        let ghost db0 = database@;
                        database.set_query(i, self.copy());
                        proof {
                            assert(database@.queries =~= db0.queries.map_values(
                                |x: Query| if x.id == self.id { *self } else { x },
                            ));
                            lemma_update_query_wf(db0, i as int, *self);
                        }
                        Ok(())
                    },
                }
            },
        }
    }

    /// The stored query with the given id.
    pub fn fetch(id: i64, database: &Database) -> (r: Result<Query, PalimpError>)
        ensures
            match r {
                Ok(q) => q.id == Some(id) && database@.queries.contains(q),
                Err(e) => e == PalimpError::NotFound && !has_query(database@.queries, id),
            },
    {
        match database.query_index(id) {
            Some(i) => Ok(database.queries[i].copy()),
            None => Err(PalimpError::NotFound),
        }
    }

    /// All stored queries, in creation order.
    pub fn fetch_all(database: &Database) -> (r: Result<Vec<Query>, PalimpError>)
        ensures
            r is Ok,
            r.unwrap()@ == database@.queries,
    {
        let mut out: Vec<Query> = Vec::new();
        let mut i: usize = 0;
        while i < database.queries.len()
            invariant
                i <= database@.queries.len(),
                out@ == database@.queries.subrange(0, i as int),
            decreases database@.queries.len() - i,
        {
            out.push(database.queries[i].copy());
            proof {
                assert(out@ =~= database@.queries.subrange(0, i + 1));
            }
            i += 1;
        }
        proof {
            assert(out@ =~= database@.queries);
        }
        Ok(out)
    }

    /// Deletes the query with the given id; nothing depends on a query.
    pub fn delete(id: i64, database: &mut Database) -> (r: Result<(), PalimpError>)
        requires
            old(database).wf(),
        ensures
            final(database).wf(),
            match r {
                Ok(()) => has_query(old(database)@.queries, id) && final(database)@ == old(
                    database,
                )@.delete_query(id),
                Err(e) => e == PalimpError::NotFound && !has_query(old(database)@.queries, id)
                    && final(database)@ == old(database)@,
            },
    {
        match database.query_index(id) {
            None => Err(PalimpError::NotFound),
            Some(_) => {
                proof {
                    lemma_delete_leaf_wf(database@, id);
                }
                database.retain_queries(Some(id));
                Ok(())
            },
        }
    }
}

impl ResultEntry {
    /// Stores the result row: a row without an id is appended for its page
    /// and gets the next id; a row with an id rewrites the selector and the
    /// count of the stored row.
    pub fn sync(&mut self, database: &mut Database) -> (r: Result<(), PalimpError>)
        requires
            old(database).wf(),
        ensures
            final(database).wf(),
            final(self).page_id == old(self).page_id,
            final(self).selector == old(self).selector,
            final(self).count == old(self).count,
            match old(self).id {
                None => match r {
                    Ok(()) => {
                        &&& has_page(old(database)@.pages, old(self).page_id)
                        &&& final(self).id == Some(old(database)@.next_id as i64)
                        &&& final(database)@ == old(database)@.insert_result(*final(self))
                    },
                    Err(e) => {
                        &&& e == PalimpError::Storage
                        &&& !has_page(old(database)@.pages, old(self).page_id) || old(
                            database,
                        )@.next_id == i64::MAX
                        &&& final(database)@ == old(database)@
                        &&& *final(self) == *old(self)
                    },
                },
                Some(id) => {
                    &&& *final(self) == *old(self)
                    &&& match r {
                        Ok(()) => has_result(old(database)@.results, id) && final(database)@
                            == old(database)@.update_result(
                            id,
                            old(self).selector,
                            old(self).count,
                        ),
                        Err(e) => e == PalimpError::NotFound && !has_result(
                            old(database)@.results,
                            id,
                        ) && final(database)@ == old(database)@,
                    }
                },
            },
    {
        match self.id {
            None => {
                if database.page_index(self.page_id).is_none() {
                    return Err(PalimpError::Storage);
                }
                let ghost db0 = database@;
                match database.take_id() {
                    None => Err(PalimpError::Storage),
                    Some(id) => {
                        self.id = Some(id);
                        database.push_result(self.copy());
                        proof {
                            assert(database@ == db0.insert_result(*self));
                            lemma_insert_result_wf(db0, *self);
                        }
                        Ok(())
                    },
                }
            },
            Some(id) => {
                match database.result_index(id) {
                    None => Err(PalimpError::NotFound),
                    Some(i) => {
                        let ghost db0 = database@;
                        let mut row = database.results[i].copy();
                        row.selector = self.selector.clone();
                        row.count = self.count;
                        database.set_result(i, row);
                        proof {
                            assert(database@.results =~= db0.results.map_values(
                                |x: ResultEntry| if x.id == Some(id) {
                                    ResultEntry { selector: self.selector, count: self.count, ..x }
                                } else {
                                    x
                                },
                            ));
                            lemma_update_result_wf(db0, i as int, row);
                        }
                        Ok(())
                    },
                }
            },
        }
    }

    /// The stored result row with the given id.
    pub fn fetch(id: i64, database: &Database) -> (r: Result<ResultEntry, PalimpError>)
        ensures
            match r {
                Ok(e) => e.id == Some(id) && database@.results.contains(e),
                Err(e) => e == PalimpError::NotFound && !has_result(database@.results, id),
            },
    {
        match database.result_index(id) {
            Some(i) => Ok(database.results[i].copy()),
            None => Err(PalimpError::NotFound),
        }
    }

    /// All stored result rows, in creation order.
    pub fn fetch_all(database: &Database) -> (r: Result<Vec<ResultEntry>, PalimpError>)
        ensures
            r is Ok,
            r.unwrap()@ == database@.results,
    {
        let mut out: Vec<ResultEntry> = Vec::new();
        let mut i: usize = 0;
        while i < database.results.len()
            invariant
                i <= database@.results.len(),
                out@ == database@.results.subrange(0, i as int),
            decreases database@.results.len() - i,
        {
            out.push(database.results[i].copy());
            proof {
                assert(out@ =~= database@.results.subrange(0, i + 1));
            }
            i += 1;
        }
        proof {
            assert(out@ =~= database@.results);
        }
        Ok(out)
    }

    /// Deletes the result row with the given id; nothing depends on it.
    pub fn delete(id: i64, database: &mut Database) -> (r: Result<(), PalimpError>)
        requires
            old(database).wf(),
        ensures
            final(database).wf(),
            match r {
                Ok(()) => has_result(old(database)@.results, id) && final(database)@ == old(
                    database,
                )@.delete_result(id),
                Err(e) => e == PalimpError::NotFound && !has_result(old(database)@.results, id)
                    && final(database)@ == old(database)@,
            },
    {
        match database.result_index(id) {
            None => Err(PalimpError::NotFound),
            Some(_) => {
                proof {
                    lemma_delete_leaf_wf(database@, id);
                }
                database.retain_results(Some(id));
                Ok(())
            },
        }
    }
}

} // verus!

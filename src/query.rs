//! The query engine: counts a selector's matches in a crawl's archived pages
//! and stores result rows; result retrieval by crawl and selector.
use vstd::prelude::*;
use crate::entities::{PageArchive, Query, ResultEntry};
use crate::error::PalimpError;
use crate::store::{
    has_crawl, has_page, has_query, lemma_filter_ordered, lemma_filter_prefix, Database, DbView,
};

verus! {

/// What tl finds for a selector in an HTML document: the number of matching
/// elements, or `None` when the document or the selector cannot be parsed.
pub uninterp spec fn selector_match_count(html: Seq<char>, selector: Seq<char>) -> Option<usize>;

/// Relies on tl::parse (default options) and tl's VDom::query_selector: the
/// number of elements that the selector matches, `None` where tl rejects the
/// document or the selector. The result depends on the two strings alone.
#[verifier::external_body]
fn count_matches(html: &str, selector: &str) -> (r: Option<usize>)
    ensures
        r == selector_match_count(html@, selector@),
{
    let dom = tl::parse(html, tl::ParserOptions::default()).ok()?;
    let nodes = dom.query_selector(selector)?;
    Some(nodes.count())
}

/// Parses an HTML document and counts the elements that the selector
/// matches; `None` when the document or the selector cannot be parsed.
pub fn match_count(html: &str, selector: &str) -> (r: Option<usize>)
    ensures
        r == selector_match_count(html@, selector@),
{
    count_matches(html, selector)
}

/// A match count as stored in a result row (counts past `u32::MAX` saturate).
pub open spec fn stored_count(n: usize) -> u32 {
    if n > u32::MAX {
        u32::MAX
    } else {
        n as u32
    }
}

/// The id, page and count of a result row.
pub open spec fn row_key(e: ResultEntry) -> (Option<i64>, i64, u32) {
    (e.id, e.page_id, e.count)
}

/// The result rows made from the first `n` pages and their match counts:
/// one row for each page whose count is positive, with ids counted up from
/// `next`.
pub open spec fn result_rows(
    pages: Seq<PageArchive>,
    counts: Seq<Option<usize>>,
    n: int,
    next: int,
) -> Seq<(Option<i64>, i64, u32)>
    decreases n,
{
    if n <= 0 {
        Seq::empty()
    } else {
        let prev = result_rows(pages, counts, n - 1, next);
        match counts[n - 1] {
            Some(c) => if c > 0 {
                prev.push((Some((next + prev.len()) as i64), pages[n - 1].id, stored_count(c)))
            } else {
                prev
            },
            None => prev,
        }
    }
}

/// Result rows only accumulate, and a page with a positive count adds one.
pub proof fn lemma_result_rows_grow(
    pages: Seq<PageArchive>,
    counts: Seq<Option<usize>>,
    i: int,
    n: int,
    next: int,
)
    requires
        0 <= i < n,
        counts[i] is Some,
        counts[i].unwrap() > 0,
    ensures
        result_rows(pages, counts, n, next).len() >= result_rows(pages, counts, i, next).len() + 1,
    decreases n,
{
    if n > i + 1 {
        lemma_result_rows_grow(pages, counts, i, n - 1, next);
    }
}

/// The match counts that tl gives for each page.
pub open spec fn page_counts(pages: Seq<PageArchive>, selector: Seq<char>) -> Seq<Option<usize>> {
    pages.map_values(|p: PageArchive| selector_match_count(p.html_content@, selector))
}

/// What a query execution leaves in the store: its query row appended, and
/// after it the result rows `rows`.
pub open spec fn after_query(
    db: DbView,
    crawl_id: i64,
    selector: Seq<char>,
    rows: Seq<ResultEntry>,
    last: DbView,
) -> bool {
    &&& last.queries.len() == db.queries.len() + 1
    &&& last.queries.drop_last() == db.queries
    &&& last.queries.last().id == Some(db.next_id as i64)
    &&& last.queries.last().crawl_id == crawl_id
    &&& last.queries.last().selector@ == selector
    &&& last == DbView {
        queries: last.queries,
        results: db.results + rows,
        next_id: db.next_id + 1 + rows.len(),
        ..db
    }
}

/// The number of result rows that the counts make: those that are positive.
fn positive_counts(
    pages: Ghost<Seq<PageArchive>>,
    counts: &Vec<Option<usize>>,
    next: Ghost<int>,
) -> (k: usize)
    ensures
        k == result_rows(pages@, counts@, counts@.len() as int, next@).len(),
{
    let mut k: usize = 0;
    let mut i: usize = 0;
    while i < counts.len()
        invariant
            i <= counts@.len(),
            k <= i,
            k == result_rows(pages@, counts@, i as int, next@).len(),
        decreases counts@.len() - i,
    {
        if let Some(c) = counts[i] {
            if c > 0 {
                k = k + 1;
            }
        }
        i += 1;
    }
    k
}

/// Runs a query against a crawl with the match count of each of its pages
/// given (`counts[i]` for the i-th page of the crawl in creation order):
/// appends a query row, then a result row for each page with a positive
/// count, and returns those result rows. Counts that do not line up with the
/// crawl's pages, a missing crawl, or too few ids left for the query row and
/// its result rows are refused, and then nothing is stored.
pub fn query_with_counts(
    crawl_id: i64,
    selector: &str,
    counts: &Vec<Option<usize>>,
    database: &mut Database,
) -> (r: Result<Vec<ResultEntry>, PalimpError>)
    requires
        old(database).wf(),
    ensures
        final(database).wf(),
        match r {
            Ok(rows) => {
                &&& counts@.len() == old(database)@.pages_of_crawl(crawl_id).len()
                &&& has_crawl(old(database)@.crawls, crawl_id)
                &&& rows@.map_values(|e: ResultEntry| row_key(e)) == result_rows(
                    old(database)@.pages_of_crawl(crawl_id),
                    counts@,
                    counts@.len() as int,
                    old(database)@.next_id + 1,
                )
                &&& forall|k: int| 0 <= k < rows@.len() ==> (#[trigger] rows@[k]).selector@
                    == selector@
                &&& after_query(old(database)@, crawl_id, selector@, rows@, final(database)@)
            },
            Err(e) => final(database)@ == old(database)@ && if counts@.len() != old(
                database,
            )@.pages_of_crawl(crawl_id).len() {
                e == PalimpError::Validation
            } else {
                &&& e == PalimpError::Storage
                &&& !has_crawl(old(database)@.crawls, crawl_id) || old(database)@.next_id + 1
                    + result_rows(
                    old(database)@.pages_of_crawl(crawl_id),
                    counts@,
                    counts@.len() as int,
                    old(database)@.next_id + 1,
                ).len() > i64::MAX
            },
        },
{
    let ghost db0 = database@;
    let pages = match PageArchive::fetch_by_crawl_id(crawl_id, database) {
        Ok(p) => p,
        Err(e) => {
            return Err(e);
        },
    };
    if counts.len() != pages.len() {
        return Err(PalimpError::Validation);
    }
    let needed = positive_counts(Ghost(pages@), counts, Ghost(db0.next_id + 1));
    let next = database.next_id();
    if next == i64::MAX || needed as u64 > (i64::MAX - next - 1) as u64 {
        return Err(PalimpError::Storage);
    }
    let mut q = Query::new(None, crawl_id, selector);
    q.sync(database)?;
    let ghost db1 = database@;
    proof {
        assert(db1.pages == db0.pages);
        assert(db1.pages_of_crawl(crawl_id) == db0.pages_of_crawl(crawl_id));
        lemma_filter_ordered(
            db1.pages,
            |p: PageArchive| p.crawl_id == crawl_id,
            |p: PageArchive| p.id as int,
        );
        assert forall|k: int| 0 <= k < pages@.len() implies has_page(
            db1.pages,
            (#[trigger] pages@[k]).id,
        ) by {
            let j = choose|j: int| 0 <= j < db1.pages.len() && db1.pages[j] == pages@[k];
        }
    }
    let mut out: Vec<ResultEntry> = Vec::new();
    let mut i: usize = 0;
    while i < pages.len()
        invariant
            i <= pages@.len(),
            pages@.len() == counts@.len(),
            pages@ == db0.pages_of_crawl(crawl_id),
            db0 == old(database)@,
            pages@ == db1.pages_of_crawl(crawl_id),
            has_crawl(db0.crawls, crawl_id),
            db1.next_id == db0.next_id + 1,
            db0.next_id + 1 + result_rows(pages@, counts@, counts@.len() as int, db1.next_id).len()
                <= i64::MAX,
            forall|k: int| 0 <= k < pages@.len() ==> has_page(db1.pages, (#[trigger] pages@[k]).id),
            database.wf(),
            database@ == (DbView {
                results: db1.results + out@,
                next_id: db1.next_id + out@.len(),
                ..db1
            }),
            out@.map_values(|e: ResultEntry| row_key(e)) == result_rows(
                pages@,
                counts@,
                i as int,
                db1.next_id,
            ),
            forall|k: int| 0 <= k < out@.len() ==> (#[trigger] out@[k]).selector@ == selector@,
        decreases pages@.len() - i,
    {
        let ghost prev = out@;
        if let Some(c) = counts[i] {
            if c > 0 {
                let stored: u32 = if c > u32::MAX as usize {
                    u32::MAX
                } else {
                    c as u32
                };
                let mut entry = ResultEntry::new(None, pages[i].id, selector, stored);
                let ghost before = database@;
                match entry.sync(database) {
                    Ok(()) => {},
                    Err(e) => {
                        proof {
                            lemma_result_rows_grow(
                                pages@,
                                counts@,
                                i as int,
                                counts@.len() as int,
                                db1.next_id,
                            );
                            assert(false);
                        }
                        return Err(e);
                    },
                }
                out.push(entry);
                proof {
                    assert(database@.results =~= db1.results + out@);
                    assert(out@.map_values(|e: ResultEntry| row_key(e)) =~= prev.map_values(
                        |e: ResultEntry| row_key(e),
                    ).push(row_key(entry)));
                }
            }
        }
        i += 1;
    }
    proof {
        assert(db1.queries == db0.queries.push(q));
        assert(db1.queries.drop_last() =~= db0.queries);
    }
    Ok(out)
}

/// Runs a query against a crawl: appends a query row, counts the selector's
/// matches in each archived page of the crawl with tl, and stores and
/// returns a result row for each page with a positive count. Pages that tl
/// cannot parse give no row.
pub fn query(crawl_id: i64, selector: &str, database: &mut Database) -> (r: Result<
    Vec<ResultEntry>,
    PalimpError,
>)
    requires
        old(database).wf(),
    ensures
        final(database).wf(),
        match r {
            Ok(rows) => {
                &&& has_crawl(old(database)@.crawls, crawl_id)
                &&& rows@.map_values(|e: ResultEntry| row_key(e)) == result_rows(
                    old(database)@.pages_of_crawl(crawl_id),
                    page_counts(old(database)@.pages_of_crawl(crawl_id), selector@),
                    old(database)@.pages_of_crawl(crawl_id).len() as int,
                    old(database)@.next_id + 1,
                )
                &&& forall|k: int| 0 <= k < rows@.len() ==> (#[trigger] rows@[k]).selector@
                    == selector@
                &&& after_query(old(database)@, crawl_id, selector@, rows@, final(database)@)
            },
            Err(e) => {
                &&& e == PalimpError::Storage
                &&& final(database)@ == old(database)@
                &&& !has_crawl(old(database)@.crawls, crawl_id) || old(database)@.next_id + 1
                    + result_rows(
                    old(database)@.pages_of_crawl(crawl_id),
                    page_counts(old(database)@.pages_of_crawl(crawl_id), selector@),
                    old(database)@.pages_of_crawl(crawl_id).len() as int,
                    old(database)@.next_id + 1,
                ).len() > i64::MAX
            },
        },
{
    let pages = match PageArchive::fetch_by_crawl_id(crawl_id, database) {
        Ok(p) => p,
        Err(e) => {
            return Err(e);
        },
    };
    let mut counts: Vec<Option<usize>> = Vec::new();
    let mut i: usize = 0;
    while i < pages.len()
        invariant
            i <= pages@.len(),
            counts@ == page_counts(pages@, selector@).subrange(0, i as int),
        decreases pages@.len() - i,
    {
        let c = count_matches(pages[i].html_content.as_str(), selector);
        counts.push(c);
        proof {
            assert(counts@ =~= page_counts(pages@, selector@).subrange(0, i + 1));
        }
        i += 1;
    }
    proof {
        assert(counts@ =~= page_counts(pages@, selector@));
    }
    query_with_counts(crawl_id, selector, &counts, database)
}


/// The archived page with the given id.
pub open spec fn page_with_id(pages: Seq<PageArchive>, id: i64) -> PageArchive {
    pages[choose|i: int| 0 <= i < pages.len() && pages[i].id == id]
}

/// The stored query with the given id.
pub open spec fn query_with_id(queries: Seq<Query>, id: i64) -> Query {
    queries[choose|i: int| 0 <= i < queries.len() && queries[i].id == Some(id)]
}

pub open spec fn result_of(db: DbView, crawl_id: i64, selector: Seq<char>) -> spec_fn(
    ResultEntry,
) -> bool {
    |e: ResultEntry|
        e.selector@ == selector && has_page(db.pages, e.page_id) && page_with_id(
            db.pages,
            e.page_id,
        ).crawl_id == crawl_id
}

/// The result rows, in creation order, for a selector on the pages of a crawl.
pub open spec fn results_for(db: DbView, crawl_id: i64, selector: Seq<char>) -> Seq<ResultEntry> {
    db.results.filter(result_of(db, crawl_id, selector))
}

/// The result rows that belong to a query: those of its crawl and selector.
pub open spec fn results_for_query(db: DbView, query_id: i64) -> Seq<ResultEntry> {
    results_for(
        db,
        query_with_id(db.queries, query_id).crawl_id,
        query_with_id(db.queries, query_id).selector@,
    )
}

/// In a well-formed store, the page with an id is the one stored under it.
pub proof fn lemma_page_with_id(db: DbView, p: PageArchive)
    requires
        db.wf(),
        db.pages.contains(p),
    ensures
        has_page(db.pages, p.id),
        page_with_id(db.pages, p.id) == p,
{
    let j = choose|j: int| 0 <= j < db.pages.len() && db.pages[j] == p;
    assert(db.pages[j].id == p.id);
    let i = choose|i: int| 0 <= i < db.pages.len() && db.pages[i].id == p.id;
    assert(i == j);
}

/// In a well-formed store, the query with an id is the one stored under it.
pub proof fn lemma_query_with_id(db: DbView, k: int)
    requires
        db.wf(),
        0 <= k < db.queries.len(),
    ensures
        has_query(db.queries, db.queries[k].id.unwrap()),
        query_with_id(db.queries, db.queries[k].id.unwrap()) == db.queries[k],
{
    let id = db.queries[k].id.unwrap();
    assert(db.queries[k].id == Some(id));
    let i = choose|i: int| 0 <= i < db.queries.len() && db.queries[i].id == Some(id);
    assert(i == k);
}

impl ResultEntry {
    /// The result rows, in creation order, for a selector on the pages of a
    /// crawl, whichever query execution stored them.
    pub fn fetch_by_crawl_and_selector(
        crawl_id: i64,
        selector: &str,
        database: &Database,
    ) -> (r: Result<Vec<ResultEntry>, PalimpError>)
        requires
            database.wf(),
        ensures
            r is Ok,
            r.unwrap()@ == results_for(database@, crawl_id, selector@),
    {
        let all = match ResultEntry::fetch_all(database) {
            Ok(v) => v,
            Err(e) => {
                return Err(e);
            },
        };
        let wanted = selector.to_owned();
        let ghost pred = result_of(database@, crawl_id, selector@);
        let mut out: Vec<ResultEntry> = Vec::new();
        let mut i: usize = 0;
        while i < all.len()
            invariant
                database.wf(),
                all@ == database@.results,
                wanted@ == selector@,
                pred == result_of(database@, crawl_id, selector@),
                i <= all@.len(),
                out@ == all@.subrange(0, i as int).filter(pred),
            decreases all@.len() - i,
        {
            proof {
                lemma_filter_prefix(all@, pred, i as int);
            }
            if all[i].selector == wanted {
                match PageArchive::fetch(all[i].page_id, database) {
                    Ok(page) => {
                        proof {
                            lemma_page_with_id(database@, page);
                        }
                        if page.crawl_id == crawl_id {
                            out.push(all[i].copy());
                        }
                    },
                    Err(_) => {},
                }
            }
            i += 1;
        }
        proof {
            assert(all@.subrange(0, all@.len() as int) =~= all@);
        }
        Ok(out)
    }
}

/// The result rows of a query's crawl and selector, each with the URL of its
/// page. Rows stored by earlier executions of the same selector on the same
/// crawl are included.
pub fn list_results_for_query(query_id: i64, database: &Database) -> (r: Result<
    Vec<(ResultEntry, String)>,
    PalimpError,
>)
    requires
        database.wf(),
    ensures
        match r {
            Ok(v) => {
                &&& has_query(database@.queries, query_id)
                &&& v@.map_values(|x: (ResultEntry, String)| x.0) == results_for_query(
                    database@,
                    query_id,
                )
                &&& forall|k: int|
                    0 <= k < v@.len() ==> (#[trigger] v@[k]).1 == page_with_id(
                        database@.pages,
                        v@[k].0.page_id,
                    ).url
            },
            Err(e) => e == PalimpError::NotFound && !has_query(database@.queries, query_id),
        },
{
    let q = Query::fetch(query_id, database)?;
    proof {
        let k = choose|k: int| 0 <= k < database@.queries.len() && database@.queries[k] == q;
        lemma_query_with_id(database@, k);
    }
    let rows = match ResultEntry::fetch_by_crawl_and_selector(
        q.crawl_id,
        q.selector.as_str(),
        database,
    ) {
        Ok(v) => v,
        Err(e) => {
            return Err(e);
        },
    };
    proof {
        lemma_filter_ordered(
            database@.results,
            result_of(database@, q.crawl_id, q.selector@),
            |e: ResultEntry| e.id.unwrap() as int,
        );
    }
    let mut out: Vec<(ResultEntry, String)> = Vec::new();
    let mut i: usize = 0;
    while i < rows.len()
        invariant
            database.wf(),
            rows@ == results_for(database@, q.crawl_id, q.selector@),
            forall|k: int|
                0 <= k < rows@.len() ==> result_of(database@, q.crawl_id, q.selector@)(
                    #[trigger] rows@[k],
                ),
            i <= rows@.len(),
            out@.map_values(|x: (ResultEntry, String)| x.0) == rows@.subrange(0, i as int),
            forall|k: int|
                0 <= k < out@.len() ==> (#[trigger] out@[k]).1 == page_with_id(
                    database@.pages,
                    out@[k].0.page_id,
                ).url,
        decreases rows@.len() - i,
    {
        let ghost e = rows@[i as int];
        assert(result_of(database@, q.crawl_id, q.selector@)(e));
        match PageArchive::fetch(rows[i].page_id, database) {
            Ok(page) => {
                proof {
                    lemma_page_with_id(database@, page);
                }
                let ghost prev = out@;
                out.push((rows[i].copy(), page.url));
                proof {
                    assert(out@.map_values(|x: (ResultEntry, String)| x.0) =~= prev.map_values(
                        |x: (ResultEntry, String)| x.0,
                    ).push(e));
                    assert(rows@.subrange(0, i + 1) =~= rows@.subrange(0, i as int).push(e));
                }
            },
            Err(_) => {
                return Err(PalimpError::NotFound);
            },
        }
        i += 1;
    }
    proof {
        assert(rows@.subrange(0, rows@.len() as int) =~= rows@);
    }
    Ok(out)
}

} // verus!

//! Properties that relate several operations of the library.
use vstd::prelude::*;
use crate::crawl::CrawlSession;
use crate::entities::{Crawl, PageArchive, ResultEntry, Site};
use crate::query::{after_query, lemma_query_with_id, result_rows, results_for_query};
use crate::store::{
    crawl_kept, has_crawl, has_page, has_site, lemma_filter_ordered, page_kept, query_kept,
    result_kept, site_kept, DbView,
};

verus! {

/// Filtering with a predicate that every element passes changes nothing.
pub proof fn lemma_filter_all<A>(s: Seq<A>, p: spec_fn(A) -> bool)
    requires
        forall|i: int| 0 <= i < s.len() ==> p(#[trigger] s[i]),
    ensures
        s.filter(p) == s,
    decreases s.len(),
{
    reveal(Seq::filter);
    if s.len() > 0 {
        lemma_filter_all(s.drop_last(), p);
        assert(s.drop_last().push(s.last()) =~= s);
    }
}

/// Filtering with a predicate that no element passes leaves nothing.
pub proof fn lemma_filter_none<A>(s: Seq<A>, p: spec_fn(A) -> bool)
    requires
        forall|i: int| 0 <= i < s.len() ==> !p(#[trigger] s[i]),
    ensures
        s.filter(p).len() == 0,
    decreases s.len(),
{
    reveal(Seq::filter);
    if s.len() > 0 {
        lemma_filter_none(s.drop_last(), p);
    }
}

/// Filters with predicates that agree on every element are equal.
pub proof fn lemma_filter_congruent<A>(s: Seq<A>, p: spec_fn(A) -> bool, q: spec_fn(A) -> bool)
    requires
        forall|i: int| 0 <= i < s.len() ==> p(#[trigger] s[i]) == q(s[i]),
    ensures
        s.filter(p) == s.filter(q),
    decreases s.len(),
{
    reveal(Seq::filter);
    if s.len() > 0 {
        lemma_filter_congruent(s.drop_last(), p, q);
        assert(p(s[s.len() - 1]) == q(s[s.len() - 1]));
    }
}

/// Creating a site: afterwards the list of sites holds exactly one record
/// with the newly assigned id, and it carries the given domain and sitemap
/// URL; no site stored before had that id, and the earlier sites stay as
/// they were.
pub proof fn lemma_new_site_listed(db: DbView, domain: Seq<char>, sitemap_url: Seq<char>, s: Site)
    requires
        db.wf(),
        db.next_id < i64::MAX,
        s.id == Some(db.next_id as i64),
        s.domain@ == domain,
        s.sitemap_url@ == sitemap_url,
    ensures
        db.insert_site(s).sites.filter(|x: Site| x.id == s.id) == seq![s],
        db.insert_site(s).sites.last().domain@ == domain,
        db.insert_site(s).sites.last().sitemap_url@ == sitemap_url,
        forall|i: int| 0 <= i < db.sites.len() ==> (#[trigger] db.sites[i]).id != s.id,
        db.insert_site(s).sites.drop_last() == db.sites,
{
    let d = db.insert_site(s);
    let p = |x: Site| x.id == s.id;
    assert(d.sites.drop_last() =~= db.sites);
    lemma_filter_none(db.sites, p);
    reveal(Seq::filter);
    assert(d.sites.filter(p) =~= seq![s]);
}

/// Creating a site whose domain and sitemap URL no stored site has: the list
/// of sites then holds exactly one record with them, the new one.
pub proof fn lemma_new_site_matches_once(db: DbView, s: Site)
    requires
        db.wf(),
        db.next_id < i64::MAX,
        s.id == Some(db.next_id as i64),
        forall|i: int|
            0 <= i < db.sites.len() ==> !((#[trigger] db.sites[i]).domain@ == s.domain@
                && db.sites[i].sitemap_url@ == s.sitemap_url@),
    ensures
        db.insert_site(s).sites.filter(
            |x: Site| x.domain@ == s.domain@ && x.sitemap_url@ == s.sitemap_url@,
        ) == seq![s],
{
    let d = db.insert_site(s);
    let p = |x: Site| x.domain@ == s.domain@ && x.sitemap_url@ == s.sitemap_url@;
    assert(d.sites.drop_last() =~= db.sites);
    lemma_filter_none(db.sites, p);
    reveal(Seq::filter);
    assert(d.sites.filter(p) =~= seq![s]);
}

/// A crawl with this id, under this site, exists in the store.
pub open spec fn crawl_under(db: DbView, crawl_id: i64, site_id: i64) -> bool {
    exists|i: int|
        0 <= i < db.crawls.len() && (#[trigger] db.crawls[i]).id == Some(crawl_id)
            && db.crawls[i].site_id == site_id
}

/// A page with this id, archived by a crawl of this site, exists in the store.
pub open spec fn page_under(db: DbView, page_id: i64, site_id: i64) -> bool {
    exists|i: int|
        0 <= i < db.pages.len() && (#[trigger] db.pages[i]).id == page_id && crawl_under(
            db,
            db.pages[i].crawl_id,
            site_id,
        )
}

/// A page with this id, archived by this crawl, exists in the store.
pub open spec fn page_in_crawl(db: DbView, page_id: i64, crawl_id: i64) -> bool {
    exists|i: int|
        0 <= i < db.pages.len() && (#[trigger] db.pages[i]).id == page_id && db.pages[i].crawl_id
            == crawl_id
}

proof fn lemma_crawl_ids_unique(db: DbView, j: int, k: int)
    requires
        db.wf(),
        0 <= j < db.crawls.len(),
        0 <= k < db.crawls.len(),
        db.crawls[j].id == db.crawls[k].id,
    ensures
        j == k,
{
    if j < k {
        assert(db.crawls[j].id.unwrap() < db.crawls[k].id.unwrap());
    } else if k < j {
        assert(db.crawls[k].id.unwrap() < db.crawls[j].id.unwrap());
    }
}

proof fn lemma_page_ids_unique(db: DbView, j: int, k: int)
    requires
        db.wf(),
        0 <= j < db.pages.len(),
        0 <= k < db.pages.len(),
        db.pages[j].id == db.pages[k].id,
    ensures
        j == k,
{
    if j < k {
        assert(db.pages[j].id < db.pages[k].id);
    } else if k < j {
        assert(db.pages[k].id < db.pages[j].id);
    }
}

/// Deleting a site removes the site and, transitively, every crawl, page,
/// query and result row rooted under it, and keeps every other row.
pub proof fn lemma_delete_site_cascades(db: DbView, site_id: i64)
    requires
        db.wf(),
        has_site(db.sites, site_id),
    ensures
        !has_site(db.delete_site(site_id).sites, site_id),
        forall|i: int|
            0 <= i < db.delete_site(site_id).crawls.len() ==> (#[trigger] db.delete_site(
                site_id,
            ).crawls[i]).site_id != site_id,
        forall|i: int|
            0 <= i < db.delete_site(site_id).pages.len() ==> !crawl_under(
                db,
                (#[trigger] db.delete_site(site_id).pages[i]).crawl_id,
                site_id,
            ),
        forall|i: int|
            0 <= i < db.delete_site(site_id).queries.len() ==> !crawl_under(
                db,
                (#[trigger] db.delete_site(site_id).queries[i]).crawl_id,
                site_id,
            ),
        forall|i: int|
            0 <= i < db.delete_site(site_id).results.len() ==> !page_under(
                db,
                (#[trigger] db.delete_site(site_id).results[i]).page_id,
                site_id,
            ),
        forall|i: int|
            0 <= i < db.sites.len() && (#[trigger] db.sites[i]).id != Some(site_id)
                ==> db.delete_site(site_id).sites.contains(db.sites[i]),
        forall|i: int|
            0 <= i < db.crawls.len() && (#[trigger] db.crawls[i]).site_id != site_id
                ==> db.delete_site(site_id).crawls.contains(db.crawls[i]),
        forall|i: int|
            0 <= i < db.pages.len() && !crawl_under(db, (#[trigger] db.pages[i]).crawl_id, site_id)
                ==> db.delete_site(site_id).pages.contains(db.pages[i]),
        forall|i: int|
            0 <= i < db.queries.len() && !crawl_under(
                db,
                (#[trigger] db.queries[i]).crawl_id,
                site_id,
            ) ==> db.delete_site(site_id).queries.contains(db.queries[i]),
        forall|i: int|
            0 <= i < db.results.len() && !page_under(db, (#[trigger] db.results[i]).page_id, site_id)
                ==> db.delete_site(site_id).results.contains(db.results[i]),
        db.delete_site(site_id).crawls == db.crawls.filter(|c: Crawl| c.site_id != site_id),
        db.delete_site(site_id).pages == db.pages.filter(
            |p: PageArchive| !crawl_under(db, p.crawl_id, site_id),
        ),
        db.delete_site(site_id).queries == db.queries.filter(
            |q: crate::entities::Query| !crawl_under(db, q.crawl_id, site_id),
        ),
        db.delete_site(site_id).results == db.results.filter(
            |r: ResultEntry| !page_under(db, r.page_id, site_id),
        ),
{
    let d = db.delete_site(site_id);
    let sp = site_kept(Some(site_id));
    let cp = crawl_kept(d.sites, None);
    let pp = page_kept(d.crawls);
    let qp = query_kept(d.crawls, None);
    let rp = result_kept(d.pages, None);
    lemma_filter_ordered(db.sites, sp, |x: Site| x.id.unwrap() as int);
    lemma_filter_ordered(db.crawls, cp, |x: Crawl| x.id.unwrap() as int);
    lemma_filter_ordered(db.pages, pp, |x: PageArchive| x.id as int);
    lemma_filter_ordered(db.queries, qp, |x: crate::entities::Query| x.id.unwrap() as int);
    lemma_filter_ordered(db.results, rp, |x: ResultEntry| x.id.unwrap() as int);
    // removed rows
    assert forall|i: int| 0 <= i < d.crawls.len() implies (
    #[trigger] d.crawls[i]).site_id != site_id by {
        assert(cp(d.crawls[i]));
        let k = choose|k: int| 0 <= k < d.sites.len() && d.sites[k].id == Some(d.crawls[i].site_id);
        assert(sp(d.sites[k]));
    }
    assert forall|i: int| 0 <= i < d.pages.len() implies !crawl_under(
        db,
        (#[trigger] d.pages[i]).crawl_id,
        site_id,
    ) by {
        assert(pp(d.pages[i]));
        let k = choose|k: int| 0 <= k < d.crawls.len() && d.crawls[k].id == Some(d.pages[i].crawl_id);
        let kk = choose|kk: int| 0 <= kk < db.crawls.len() && db.crawls[kk] == d.crawls[k];
        if crawl_under(db, d.pages[i].crawl_id, site_id) {
            let j = choose|j: int|
                0 <= j < db.crawls.len() && (#[trigger] db.crawls[j]).id == Some(
                    d.pages[i].crawl_id,
                ) && db.crawls[j].site_id == site_id;
            lemma_crawl_ids_unique(db, j, kk);
        }
    }
    assert forall|i: int| 0 <= i < d.queries.len() implies !crawl_under(
        db,
        (#[trigger] d.queries[i]).crawl_id,
        site_id,
    ) by {
        assert(qp(d.queries[i]));
        let k = choose|k: int|
            0 <= k < d.crawls.len() && d.crawls[k].id == Some(d.queries[i].crawl_id);
        let kk = choose|kk: int| 0 <= kk < db.crawls.len() && db.crawls[kk] == d.crawls[k];
        if crawl_under(db, d.queries[i].crawl_id, site_id) {
            let j = choose|j: int|
                0 <= j < db.crawls.len() && (#[trigger] db.crawls[j]).id == Some(
                    d.queries[i].crawl_id,
                ) && db.crawls[j].site_id == site_id;
            lemma_crawl_ids_unique(db, j, kk);
        }
    }
    assert forall|i: int| 0 <= i < d.results.len() implies !page_under(
        db,
        (#[trigger] d.results[i]).page_id,
        site_id,
    ) by {
        assert(rp(d.results[i]));
        let k = choose|k: int| 0 <= k < d.pages.len() && d.pages[k].id == d.results[i].page_id;
        let kk = choose|kk: int| 0 <= kk < db.pages.len() && db.pages[kk] == d.pages[k];
        assert(!crawl_under(db, d.pages[k].crawl_id, site_id));
        if page_under(db, d.results[i].page_id, site_id) {
            let j = choose|j: int|
                0 <= j < db.pages.len() && (#[trigger] db.pages[j]).id == d.results[i].page_id
                    && crawl_under(db, db.pages[j].crawl_id, site_id);
            lemma_page_ids_unique(db, j, kk);
        }
    }
    // kept rows
    assert forall|i: int|
        0 <= i < db.sites.len() && (#[trigger] db.sites[i]).id != Some(
            site_id,
        ) implies d.sites.contains(db.sites[i]) by {
        db.sites.lemma_filter_contains(sp, i);
    }
    assert forall|i: int|
        0 <= i < db.crawls.len() && (#[trigger] db.crawls[i]).site_id
            != site_id implies d.crawls.contains(db.crawls[i]) by {
        let k = choose|k: int|
            0 <= k < db.sites.len() && db.sites[k].id == Some(db.crawls[i].site_id);
        db.sites.lemma_filter_contains(sp, k);
        let m = choose|m: int| 0 <= m < d.sites.len() && d.sites[m] == db.sites[k];
        assert(has_site(d.sites, db.crawls[i].site_id));
        db.crawls.lemma_filter_contains(cp, i);
    }
    assert forall|i: int|
        0 <= i < db.pages.len() && !crawl_under(
            db,
            (#[trigger] db.pages[i]).crawl_id,
            site_id,
        ) implies d.pages.contains(db.pages[i]) by {
        let k = choose|k: int|
            0 <= k < db.crawls.len() && db.crawls[k].id == Some(db.pages[i].crawl_id);
        assert(db.crawls[k].site_id != site_id);
        let ks = choose|ks: int|
            0 <= ks < db.sites.len() && db.sites[ks].id == Some(db.crawls[k].site_id);
        db.sites.lemma_filter_contains(sp, ks);
        let m = choose|m: int| 0 <= m < d.sites.len() && d.sites[m] == db.sites[ks];
        db.crawls.lemma_filter_contains(cp, k);
        let mc = choose|mc: int| 0 <= mc < d.crawls.len() && d.crawls[mc] == db.crawls[k];
        assert(has_crawl(d.crawls, db.pages[i].crawl_id));
        db.pages.lemma_filter_contains(pp, i);
    }
    assert forall|i: int|
        0 <= i < db.queries.len() && !crawl_under(
            db,
            (#[trigger] db.queries[i]).crawl_id,
            site_id,
        ) implies d.queries.contains(db.queries[i]) by {
        let k = choose|k: int|
            0 <= k < db.crawls.len() && db.crawls[k].id == Some(db.queries[i].crawl_id);
        assert(db.crawls[k].site_id != site_id);
        let ks = choose|ks: int|
            0 <= ks < db.sites.len() && db.sites[ks].id == Some(db.crawls[k].site_id);
        db.sites.lemma_filter_contains(sp, ks);
        let m = choose|m: int| 0 <= m < d.sites.len() && d.sites[m] == db.sites[ks];
        db.crawls.lemma_filter_contains(cp, k);
        let mc = choose|mc: int| 0 <= mc < d.crawls.len() && d.crawls[mc] == db.crawls[k];
        assert(has_crawl(d.crawls, db.queries[i].crawl_id));
        db.queries.lemma_filter_contains(qp, i);
    }
    assert forall|i: int|
        0 <= i < db.results.len() && !page_under(
            db,
            (#[trigger] db.results[i]).page_id,
            site_id,
        ) implies d.results.contains(db.results[i]) by {
        let kp = choose|kp: int| 0 <= kp < db.pages.len() && db.pages[kp].id == db.results[i].page_id;
        assert(!crawl_under(db, db.pages[kp].crawl_id, site_id));
        let k = choose|k: int|
            0 <= k < db.crawls.len() && db.crawls[k].id == Some(db.pages[kp].crawl_id);
        assert(db.crawls[k].site_id != site_id);
        let ks = choose|ks: int|
            0 <= ks < db.sites.len() && db.sites[ks].id == Some(db.crawls[k].site_id);
        db.sites.lemma_filter_contains(sp, ks);
        let m = choose|m: int| 0 <= m < d.sites.len() && d.sites[m] == db.sites[ks];
        db.crawls.lemma_filter_contains(cp, k);
        let mc = choose|mc: int| 0 <= mc < d.crawls.len() && d.crawls[mc] == db.crawls[k];
        db.pages.lemma_filter_contains(pp, kp);
        let mp = choose|mp: int| 0 <= mp < d.pages.len() && d.pages[mp] == db.pages[kp];
        assert(has_page(d.pages, db.results[i].page_id));
        db.results.lemma_filter_contains(rp, i);
    }
    // the remaining tables as filters
    assert(!has_site(d.sites, site_id)) by {
        if has_site(d.sites, site_id) {
            let k = choose|k: int| 0 <= k < d.sites.len() && d.sites[k].id == Some(site_id);
            assert(sp(d.sites[k]));
        }
    }
    assert forall|i: int| 0 <= i < db.crawls.len() implies cp(#[trigger] db.crawls[i]) == (
    |c: Crawl| c.site_id != site_id)(db.crawls[i]) by {
        if cp(db.crawls[i]) {
            let k = choose|k: int| 0 <= k < d.sites.len() && d.sites[k].id == Some(db.crawls[i].site_id);
        }
        if db.crawls[i].site_id != site_id {
            assert(d.crawls.contains(db.crawls[i]));
            db.crawls.lemma_filter_contains_rev(cp, db.crawls[i]);
        }
    }
    lemma_filter_congruent(db.crawls, cp, |c: Crawl| c.site_id != site_id);
    assert forall|i: int| 0 <= i < db.pages.len() implies pp(#[trigger] db.pages[i]) == (
    |p: PageArchive| !crawl_under(db, p.crawl_id, site_id))(db.pages[i]) by {
        if !crawl_under(db, db.pages[i].crawl_id, site_id) {
            assert(d.pages.contains(db.pages[i]));
            db.pages.lemma_filter_contains_rev(pp, db.pages[i]);
        } else if pp(db.pages[i]) {
            db.pages.lemma_filter_contains(pp, i);
            let m = choose|m: int| 0 <= m < d.pages.len() && d.pages[m] == db.pages[i];
            assert(!crawl_under(db, d.pages[m].crawl_id, site_id));
        }
    }
    lemma_filter_congruent(db.pages, pp, |p: PageArchive| !crawl_under(db, p.crawl_id, site_id));
    assert forall|i: int| 0 <= i < db.queries.len() implies qp(#[trigger] db.queries[i]) == (
    |q: crate::entities::Query| !crawl_under(db, q.crawl_id, site_id))(db.queries[i]) by {
        if !crawl_under(db, db.queries[i].crawl_id, site_id) {
            assert(d.queries.contains(db.queries[i]));
            db.queries.lemma_filter_contains_rev(qp, db.queries[i]);
        } else if qp(db.queries[i]) {
            db.queries.lemma_filter_contains(qp, i);
            let m = choose|m: int| 0 <= m < d.queries.len() && d.queries[m] == db.queries[i];
            assert(!crawl_under(db, d.queries[m].crawl_id, site_id));
        }
    }
    lemma_filter_congruent(
        db.queries,
        qp,
        |q: crate::entities::Query| !crawl_under(db, q.crawl_id, site_id),
    );
    assert forall|i: int| 0 <= i < db.results.len() implies rp(#[trigger] db.results[i]) == (
    |r: ResultEntry| !page_under(db, r.page_id, site_id))(db.results[i]) by {
        if !page_under(db, db.results[i].page_id, site_id) {
            assert(d.results.contains(db.results[i]));
            db.results.lemma_filter_contains_rev(rp, db.results[i]);
        } else if rp(db.results[i]) {
            db.results.lemma_filter_contains(rp, i);
            let m = choose|m: int| 0 <= m < d.results.len() && d.results[m] == db.results[i];
            assert(!page_under(db, d.results[m].page_id, site_id));
        }
    }
    lemma_filter_congruent(db.results, rp, |r: ResultEntry| !page_under(db, r.page_id, site_id));
}


/// Deleting a crawl removes every page and query of that crawl and every
/// result row of its pages, and leaves the sites, the sibling crawls and all
/// rows that do not depend on the crawl as they were.
pub proof fn lemma_delete_crawl_cascades(db: DbView, crawl_id: i64)
    requires
        db.wf(),
        has_crawl(db.crawls, crawl_id),
    ensures
        db.delete_crawl(crawl_id).sites == db.sites,
        !has_crawl(db.delete_crawl(crawl_id).crawls, crawl_id),
        forall|i: int|
            0 <= i < db.crawls.len() && (#[trigger] db.crawls[i]).id != Some(crawl_id)
                ==> db.delete_crawl(crawl_id).crawls.contains(db.crawls[i]),
        forall|i: int|
            0 <= i < db.delete_crawl(crawl_id).pages.len() ==> (#[trigger] db.delete_crawl(
                crawl_id,
            ).pages[i]).crawl_id != crawl_id,
        forall|i: int|
            0 <= i < db.delete_crawl(crawl_id).queries.len() ==> (#[trigger] db.delete_crawl(
                crawl_id,
            ).queries[i]).crawl_id != crawl_id,
        forall|i: int|
            0 <= i < db.delete_crawl(crawl_id).results.len() ==> !page_in_crawl(
                db,
                (#[trigger] db.delete_crawl(crawl_id).results[i]).page_id,
                crawl_id,
            ),
        forall|i: int|
            0 <= i < db.pages.len() && (#[trigger] db.pages[i]).crawl_id != crawl_id
                ==> db.delete_crawl(crawl_id).pages.contains(db.pages[i]),
        forall|i: int|
            0 <= i < db.queries.len() && (#[trigger] db.queries[i]).crawl_id != crawl_id
                ==> db.delete_crawl(crawl_id).queries.contains(db.queries[i]),
        forall|i: int|
            0 <= i < db.results.len() && !page_in_crawl(
                db,
                (#[trigger] db.results[i]).page_id,
                crawl_id,
            ) ==> db.delete_crawl(crawl_id).results.contains(db.results[i]),
        db.delete_crawl(crawl_id).crawls == db.crawls.filter(|c: Crawl| c.id != Some(crawl_id)),
        db.delete_crawl(crawl_id).pages == db.pages.filter(
            |p: PageArchive| p.crawl_id != crawl_id,
        ),
        db.delete_crawl(crawl_id).queries == db.queries.filter(
            |q: crate::entities::Query| q.crawl_id != crawl_id,
        ),
        db.delete_crawl(crawl_id).results == db.results.filter(
            |r: ResultEntry| !page_in_crawl(db, r.page_id, crawl_id),
        ),
{
    let d = db.delete_crawl(crawl_id);
    let sp = site_kept(None);
    let cp = crawl_kept(d.sites, Some(crawl_id));
    let pp = page_kept(d.crawls);
    let qp = query_kept(d.crawls, None);
    let rp = result_kept(d.pages, None);
    lemma_filter_all(db.sites, sp);
    lemma_filter_ordered(db.crawls, cp, |x: Crawl| x.id.unwrap() as int);
    lemma_filter_ordered(db.pages, pp, |x: PageArchive| x.id as int);
    lemma_filter_ordered(db.queries, qp, |x: crate::entities::Query| x.id.unwrap() as int);
    lemma_filter_ordered(db.results, rp, |x: ResultEntry| x.id.unwrap() as int);
    assert(!has_crawl(d.crawls, crawl_id)) by {
        if has_crawl(d.crawls, crawl_id) {
            let k = choose|k: int| 0 <= k < d.crawls.len() && d.crawls[k].id == Some(crawl_id);
            assert(cp(d.crawls[k]));
        }
    }
    assert forall|i: int| 0 <= i < d.pages.len() implies (#[trigger] d.pages[i]).crawl_id
        != crawl_id by {
        assert(pp(d.pages[i]));
    }
    assert forall|i: int| 0 <= i < d.queries.len() implies (#[trigger] d.queries[i]).crawl_id
        != crawl_id by {
        assert(qp(d.queries[i]));
    }
    assert forall|i: int| 0 <= i < d.results.len() implies !page_in_crawl(
        db,
        (#[trigger] d.results[i]).page_id,
        crawl_id,
    ) by {
        assert(rp(d.results[i]));
        let k = choose|k: int| 0 <= k < d.pages.len() && d.pages[k].id == d.results[i].page_id;
        let kk = choose|kk: int| 0 <= kk < db.pages.len() && db.pages[kk] == d.pages[k];
        if page_in_crawl(db, d.results[i].page_id, crawl_id) {
            let j = choose|j: int|
                0 <= j < db.pages.len() && (#[trigger] db.pages[j]).id == d.results[i].page_id
                    && db.pages[j].crawl_id == crawl_id;
            lemma_page_ids_unique(db, j, kk);
        }
    }
    assert forall|i: int|
        0 <= i < db.crawls.len() && (#[trigger] db.crawls[i]).id != Some(
            crawl_id,
        ) implies d.crawls.contains(db.crawls[i]) by {
        db.crawls.lemma_filter_contains(cp, i);
    }
    assert forall|i: int|
        0 <= i < db.pages.len() && (#[trigger] db.pages[i]).crawl_id
            != crawl_id implies d.pages.contains(db.pages[i]) by {
        let k = choose|k: int|
            0 <= k < db.crawls.len() && db.crawls[k].id == Some(db.pages[i].crawl_id);
        db.crawls.lemma_filter_contains(cp, k);
        let mc = choose|mc: int| 0 <= mc < d.crawls.len() && d.crawls[mc] == db.crawls[k];
        db.pages.lemma_filter_contains(pp, i);
    }
    assert forall|i: int|
        0 <= i < db.queries.len() && (#[trigger] db.queries[i]).crawl_id
            != crawl_id implies d.queries.contains(db.queries[i]) by {
        let k = choose|k: int|
            0 <= k < db.crawls.len() && db.crawls[k].id == Some(db.queries[i].crawl_id);
        db.crawls.lemma_filter_contains(cp, k);
        let mc = choose|mc: int| 0 <= mc < d.crawls.len() && d.crawls[mc] == db.crawls[k];
        db.queries.lemma_filter_contains(qp, i);
    }
    assert forall|i: int|
        0 <= i < db.results.len() && !page_in_crawl(
            db,
            (#[trigger] db.results[i]).page_id,
            crawl_id,
        ) implies d.results.contains(db.results[i]) by {
        let kp = choose|kp: int| 0 <= kp < db.pages.len() && db.pages[kp].id == db.results[i].page_id;
        assert(db.pages[kp].crawl_id != crawl_id);
        let k = choose|k: int|
            0 <= k < db.crawls.len() && db.crawls[k].id == Some(db.pages[kp].crawl_id);
        db.crawls.lemma_filter_contains(cp, k);
        let mc = choose|mc: int| 0 <= mc < d.crawls.len() && d.crawls[mc] == db.crawls[k];
        db.pages.lemma_filter_contains(pp, kp);
        let mp = choose|mp: int| 0 <= mp < d.pages.len() && d.pages[mp] == db.pages[kp];
        db.results.lemma_filter_contains(rp, i);
    }
    // the remaining tables as filters
    assert forall|i: int| 0 <= i < db.crawls.len() implies cp(#[trigger] db.crawls[i]) == (
    |c: Crawl| c.id != Some(crawl_id))(db.crawls[i]) by {
        if db.crawls[i].id != Some(crawl_id) {
            assert(d.crawls.contains(db.crawls[i]));
            db.crawls.lemma_filter_contains_rev(cp, db.crawls[i]);
        }
    }
    lemma_filter_congruent(db.crawls, cp, |c: Crawl| c.id != Some(crawl_id));
    assert forall|i: int| 0 <= i < db.pages.len() implies pp(#[trigger] db.pages[i]) == (
    |p: PageArchive| p.crawl_id != crawl_id)(db.pages[i]) by {
        if db.pages[i].crawl_id != crawl_id {
            assert(d.pages.contains(db.pages[i]));
            db.pages.lemma_filter_contains_rev(pp, db.pages[i]);
        } else if pp(db.pages[i]) {
            db.pages.lemma_filter_contains(pp, i);
            let m = choose|m: int| 0 <= m < d.pages.len() && d.pages[m] == db.pages[i];
        }
    }
    lemma_filter_congruent(db.pages, pp, |p: PageArchive| p.crawl_id != crawl_id);
    assert forall|i: int| 0 <= i < db.queries.len() implies qp(#[trigger] db.queries[i]) == (
    |q: crate::entities::Query| q.crawl_id != crawl_id)(db.queries[i]) by {
        if db.queries[i].crawl_id != crawl_id {
            assert(d.queries.contains(db.queries[i]));
            db.queries.lemma_filter_contains_rev(qp, db.queries[i]);
        } else if qp(db.queries[i]) {
            db.queries.lemma_filter_contains(qp, i);
            let m = choose|m: int| 0 <= m < d.queries.len() && d.queries[m] == db.queries[i];
        }
    }
    lemma_filter_congruent(
        db.queries,
        qp,
        |q: crate::entities::Query| q.crawl_id != crawl_id,
    );
    assert forall|i: int| 0 <= i < db.results.len() implies rp(#[trigger] db.results[i]) == (
    |r: ResultEntry| !page_in_crawl(db, r.page_id, crawl_id))(db.results[i]) by {
        if !page_in_crawl(db, db.results[i].page_id, crawl_id) {
            assert(d.results.contains(db.results[i]));
            db.results.lemma_filter_contains_rev(rp, db.results[i]);
        } else if rp(db.results[i]) {
            db.results.lemma_filter_contains(rp, i);
            let m = choose|m: int| 0 <= m < d.results.len() && d.results[m] == db.results[i];
            assert(!page_in_crawl(db, d.results[m].page_id, crawl_id));
        }
    }
    lemma_filter_congruent(
        db.results,
        rp,
        |r: ResultEntry| !page_in_crawl(db, r.page_id, crawl_id),
    );
}

/// A crawl run ends with one outcome per sitemap URL and one archived page
/// per success. A session starts with no outcome and its crawl with no page,
/// and each recorded outcome keeps the crawl's archived pages minus its
/// successes unchanged (see `CrawlSession::start` and `complete`); so once
/// every URL has been handed out and none is in flight, successes and
/// failures add up to the URLs, and the archived pages number the successes.
pub proof fn lemma_finished_crawl_outcomes(s: CrawlSession, db: DbView)
    requires
        s.wf(),
        s.spec_next() == s.spec_urls().len(),
        s.spec_in_flight() == 0,
        db.pages_of_crawl(s.spec_crawl_id()).len() - s.spec_succeeded() == 0,
    ensures
        s.spec_succeeded() + s.spec_failed() == s.spec_urls().len(),
        db.pages_of_crawl(s.spec_crawl_id()).len() == s.spec_succeeded(),
{
}

/// The sum of the counts in a sequence of result rows.
pub open spec fn sum_row_counts(rows: Seq<(Option<i64>, i64, u32)>) -> int
    decreases rows.len(),
{
    if rows.len() == 0 {
        0
    } else {
        sum_row_counts(rows.drop_last()) + rows.last().2
    }
}

/// The sum of the first `n` match counts, a page that gave no count
/// counting zero.
pub open spec fn sum_counts(counts: Seq<Option<usize>>, n: int) -> int
    decreases n,
{
    if n <= 0 {
        0
    } else {
        sum_counts(counts, n - 1) + match counts[n - 1] {
            Some(c) => c as int,
            None => 0,
        }
    }
}

/// A query stores result rows only for pages with a positive count, one per
/// such page, and the counts of the stored rows add up to the match counts
/// of all the crawl's pages (counts up to `u32::MAX`, the widest a row holds).
pub proof fn lemma_query_counts_sum(
    pages: Seq<PageArchive>,
    counts: Seq<Option<usize>>,
    n: int,
    next: int,
)
    requires
        0 <= n <= pages.len(),
        n <= counts.len(),
        forall|i: int| 0 <= i < n && (#[trigger] counts[i]) is Some ==> counts[i].unwrap() <= u32::MAX,
    ensures
        sum_row_counts(result_rows(pages, counts, n, next)) == sum_counts(counts, n),
        forall|k: int|
            0 <= k < result_rows(pages, counts, n, next).len() ==> exists|i: int|
                0 <= i < n && (#[trigger] result_rows(pages, counts, n, next)[k]).1 == pages[i].id
                    && counts[i] == Some(result_rows(pages, counts, n, next)[k].2 as usize)
                    && result_rows(pages, counts, n, next)[k].2 > 0,
    decreases n,
{
    if n > 0 {
        lemma_query_counts_sum(pages, counts, n - 1, next);
        let prev = result_rows(pages, counts, n - 1, next);
        let rows = result_rows(pages, counts, n, next);
        if rows.len() > prev.len() {
            assert(rows.drop_last() == prev);
            assert forall|k: int| 0 <= k < rows.len() implies exists|i: int|
                0 <= i < n && (#[trigger] rows[k]).1 == pages[i].id && counts[i] == Some(
                    rows[k].2 as usize,
                ) && rows[k].2 > 0 by {
                if k < prev.len() {
                    assert(rows[k] == prev[k]);
                } else {
                    assert(rows[k].1 == pages[n - 1].id);
                }
            }
        }
    }
}

/// Running the same selector against the same crawl twice stores two query
/// rows with distinct ids, and the results listed for either id are the same
/// rows: results are keyed by crawl and selector.
pub proof fn lemma_repeated_query_same_results(
    db: DbView,
    crawl_id: i64,
    selector: Seq<char>,
    rows1: Seq<ResultEntry>,
    mid: DbView,
    rows2: Seq<ResultEntry>,
    last: DbView,
)
    requires
        mid.wf(),
        last.wf(),
        after_query(db, crawl_id, selector, rows1, mid),
        after_query(mid, crawl_id, selector, rows2, last),
    ensures
        last.queries.len() == db.queries.len() + 2,
        last.queries[db.queries.len() as int].id != last.queries[db.queries.len() as int + 1].id,
        last.queries[db.queries.len() as int].crawl_id == crawl_id,
        last.queries[db.queries.len() as int + 1].crawl_id == crawl_id,
        results_for_query(last, last.queries[db.queries.len() as int].id.unwrap())
            == results_for_query(last, last.queries[db.queries.len() as int + 1].id.unwrap()),
{
    let n = db.queries.len() as int;
    assert(last.queries[n] == mid.queries[n]);
    lemma_query_with_id(last, n);
    lemma_query_with_id(last, n + 1);
}

} // verus!

use palimp::clock::{civil_date, format_timestamp};
use palimp::application::Application;
use palimp::entities::{Crawl, Page, PageArchive, Query, ResultEntry, Site};
use palimp::error::PalimpError;
use palimp::store::Database;

/// A store with one site, one crawl, one page, one query and one result row;
/// returns (site, crawl, page, query, result) ids.
fn populated(db: &mut Database, domain: &str) -> (i64, i64, i64, i64, i64) {
    let mut site = Site::new(None, domain, "https://x.test/sitemap.xml");
    site.sync(db).unwrap();
    let site_id = site.id.unwrap();
    let mut crawl = Crawl::new(None, site_id);
    crawl.sync(db).unwrap();
    let crawl_id = crawl.id.unwrap();
    let page = Page::new("https://x.test/a", "https://x.test/a", "<p>a</p>", Some(crawl_id));
    let page_id = page.sync(db).unwrap();
    let mut query = Query::new(None, crawl_id, "p");
    query.sync(db).unwrap();
    let mut result = ResultEntry::new(None, page_id, "p", 1);
    result.sync(db).unwrap();
    (site_id, crawl_id, page_id, query.id.unwrap(), result.id.unwrap())
}

#[test]
fn new_site_gets_fresh_id_and_is_listed_once() {
    let mut app = Application::new();
    app.new_site("a.test", "https://a.test/sitemap.xml").unwrap();
    app.new_site("a.test", "https://a.test/sitemap.xml").unwrap();
    let sites = app.list_sites().unwrap();
    assert_eq!(sites.len(), 2);
    assert_ne!(sites[0].id, sites[1].id);
    let newest = sites[1].id.unwrap();
    assert_eq!(sites.iter().filter(|s| s.id == Some(newest)).count(), 1);
    assert_eq!(sites[1].domain, "a.test");
    assert_eq!(sites[1].sitemap_url, "https://a.test/sitemap.xml");
}

#[test]
fn ids_are_assigned_in_creation_order() {
    let mut db = Database::new();
    let (site_id, crawl_id, page_id, query_id, result_id) = populated(&mut db, "a.test");
    assert!(site_id < crawl_id && crawl_id < page_id && page_id < query_id && query_id < result_id);
}

#[test]
fn crawl_sync_sets_start_time() {
    let mut db = Database::new();
    let mut site = Site::new(None, "a.test", "s");
    site.sync(&mut db).unwrap();
    let mut crawl = Crawl::new(None, site.id.unwrap());
    assert!(crawl.started_at.is_none());
    crawl.sync(&mut db).unwrap();
    assert!(crawl.started_at.is_some());
    let stored = Crawl::fetch(crawl.id.unwrap(), &db).unwrap();
    assert_eq!(stored.started_at, crawl.started_at);
}

#[test]
fn site_update_replaces_fields() {
    let mut db = Database::new();
    let mut site = Site::new(None, "a.test", "old");
    site.sync(&mut db).unwrap();
    let mut changed = Site::new(site.id, "b.test", "new");
    changed.sync(&mut db).unwrap();
    let stored = Site::fetch(site.id.unwrap(), &db).unwrap();
    assert_eq!(stored.domain, "b.test");
    assert_eq!(stored.sitemap_url, "new");
    assert_eq!(Site::fetch_all(&db).unwrap().len(), 1);
}

#[test]
fn result_update_keeps_page() {
    let mut db = Database::new();
    let (_, _, page_id, _, result_id) = populated(&mut db, "a.test");
    let mut changed = ResultEntry::new(Some(result_id), 9999, "div", 7);
    changed.sync(&mut db).unwrap();
    let stored = ResultEntry::fetch(result_id, &db).unwrap();
    assert_eq!(stored.page_id, page_id);
    assert_eq!(stored.selector, "div");
    assert_eq!(stored.count, 7);
}

#[test]
fn missing_ids_are_not_found() {
    let mut db = Database::new();
    assert_eq!(Site::fetch(1, &db).err(), Some(PalimpError::NotFound));
    assert_eq!(Crawl::fetch(1, &db).err(), Some(PalimpError::NotFound));
    assert_eq!(PageArchive::fetch(1, &db).err(), Some(PalimpError::NotFound));
    assert_eq!(Query::fetch(1, &db).err(), Some(PalimpError::NotFound));
    assert_eq!(ResultEntry::fetch(1, &db).err(), Some(PalimpError::NotFound));
    assert_eq!(Site::delete(1, &mut db), Err(PalimpError::NotFound));
    assert_eq!(Crawl::delete(1, &mut db), Err(PalimpError::NotFound));
    assert_eq!(Query::delete(1, &mut db), Err(PalimpError::NotFound));
    assert_eq!(ResultEntry::delete(1, &mut db), Err(PalimpError::NotFound));
    let mut site = Site::new(Some(5), "a", "b");
    assert_eq!(site.sync(&mut db), Err(PalimpError::NotFound));
}

#[test]
fn page_without_crawl_is_a_validation_error() {
    let mut db = Database::new();
    let page = Page::new("u", "u", "<p></p>", None);
    assert_eq!(page.sync(&mut db), Err(PalimpError::Validation));
}

#[test]
fn references_to_missing_rows_are_storage_errors() {
    let mut db = Database::new();
    let mut crawl = Crawl::new(None, 42);
    assert_eq!(crawl.sync(&mut db), Err(PalimpError::Storage));
    let page = Page::new("u", "u", "<p></p>", Some(42));
    assert_eq!(page.sync(&mut db), Err(PalimpError::Storage));
    let mut query = Query::new(None, 42, "p");
    assert_eq!(query.sync(&mut db), Err(PalimpError::Storage));
    let mut result = ResultEntry::new(None, 42, "p", 1);
    assert_eq!(result.sync(&mut db), Err(PalimpError::Storage));
    assert_eq!(Crawl::fetch_all(&db).unwrap().len(), 0);
}

#[test]
fn delete_site_cascades_to_everything_under_it() {
    let mut db = Database::new();
    let (site_a, _, _, _, _) = populated(&mut db, "a.test");
    let (site_b, crawl_b, page_b, query_b, result_b) = populated(&mut db, "b.test");
    Site::delete(site_a, &mut db).unwrap();
    let sites = Site::fetch_all(&db).unwrap();
    assert_eq!(sites.len(), 1);
    assert_eq!(sites[0].id, Some(site_b));
    let crawls = Crawl::fetch_all(&db).unwrap();
    assert_eq!(crawls.len(), 1);
    assert_eq!(crawls[0].id, Some(crawl_b));
    assert_eq!(PageArchive::fetch(page_b, &db).unwrap().crawl_id, crawl_b);
    let queries = Query::fetch_all(&db).unwrap();
    assert_eq!(queries.len(), 1);
    assert_eq!(queries[0].id, Some(query_b));
    let results = ResultEntry::fetch_all(&db).unwrap();
    assert_eq!(results.len(), 1);
    assert_eq!(results[0].id, Some(result_b));
}

#[test]
fn delete_crawl_cascades_and_keeps_sibling_crawls() {
    let mut db = Database::new();
    let (site_id, crawl_a, page_a, _, _) = populated(&mut db, "a.test");
    let mut sibling = Crawl::new(None, site_id);
    sibling.sync(&mut db).unwrap();
    let sibling_id = sibling.id.unwrap();
    let page = Page::new("https://x.test/b", "https://x.test/b", "<p>b</p>", Some(sibling_id));
    let page_s = page.sync(&mut db).unwrap();
    let mut query = Query::new(None, sibling_id, "p");
    query.sync(&mut db).unwrap();
    let mut result = ResultEntry::new(None, page_s, "p", 1);
    result.sync(&mut db).unwrap();

    Crawl::delete(crawl_a, &mut db).unwrap();

    assert_eq!(Site::fetch_all(&db).unwrap().len(), 1);
    let crawls = Crawl::fetch_all(&db).unwrap();
    assert_eq!(crawls.len(), 1);
    assert_eq!(crawls[0].id, Some(sibling_id));
    assert_eq!(PageArchive::fetch(page_a, &db).err(), Some(PalimpError::NotFound));
    assert_eq!(PageArchive::fetch_by_crawl_id(crawl_a, &db).unwrap().len(), 0);
    assert_eq!(PageArchive::fetch_by_crawl_id(sibling_id, &db).unwrap().len(), 1);
    let queries = Query::fetch_all(&db).unwrap();
    assert_eq!(queries.len(), 1);
    assert_eq!(queries[0].crawl_id, sibling_id);
    let results = ResultEntry::fetch_all(&db).unwrap();
    assert_eq!(results.len(), 1);
    assert_eq!(results[0].page_id, page_s);
}

#[test]
fn delete_query_and_result_remove_one_row() {
    let mut db = Database::new();
    let (_, crawl_id, page_id, query_id, result_id) = populated(&mut db, "a.test");
    Query::delete(query_id, &mut db).unwrap();
    assert_eq!(Query::fetch_all(&db).unwrap().len(), 0);
    assert_eq!(ResultEntry::fetch_all(&db).unwrap().len(), 1);
    ResultEntry::delete(result_id, &mut db).unwrap();
    assert_eq!(ResultEntry::fetch_all(&db).unwrap().len(), 0);
    assert_eq!(PageArchive::fetch(page_id, &db).unwrap().crawl_id, crawl_id);
}

#[test]
fn archived_page_converts_back_to_page() {
    let mut db = Database::new();
    let (_, crawl_id, page_id, _, _) = populated(&mut db, "a.test");
    let page = PageArchive::fetch(page_id, &db).unwrap().to_page();
    assert_eq!(page.url, "https://x.test/a");
    assert_eq!(page.html_content, "<p>a</p>");
    assert_eq!(page.crawl_id, Some(crawl_id));
}

#[test]
fn restore_accepts_a_saved_store_and_refuses_a_broken_one() {
    let mut db = Database::new();
    let (site_id, crawl_id, page_id, _, _) = populated(&mut db, "a.test");
    let restored = Database::restore(
        db.next_id(),
        Site::fetch_all(&db).unwrap(),
        Crawl::fetch_all(&db).unwrap(),
        PageArchive::fetch_by_crawl_id(crawl_id, &db).unwrap(),
        Query::fetch_all(&db).unwrap(),
        ResultEntry::fetch_all(&db).unwrap(),
    )
    .expect("consistent store");
    assert_eq!(restored.next_id(), db.next_id());
    assert_eq!(Site::fetch(site_id, &restored).unwrap().domain, "a.test");
    assert_eq!(PageArchive::fetch(page_id, &restored).unwrap().crawl_id, crawl_id);

    let orphan = Database::restore(
        10,
        Vec::new(),
        vec![Crawl::new(Some(2), 1)],
        Vec::new(),
        Vec::new(),
        Vec::new(),
    );
    assert!(orphan.is_none());
    let unordered = Database::restore(
        10,
        vec![Site::new(Some(3), "a", "b"), Site::new(Some(2), "c", "d")],
        Vec::new(),
        Vec::new(),
        Vec::new(),
        Vec::new(),
    );
    assert!(unordered.is_none());
    let beyond = Database::restore(
        2,
        vec![Site::new(Some(2), "a", "b")],
        Vec::new(),
        Vec::new(),
        Vec::new(),
        Vec::new(),
    );
    assert!(beyond.is_none());
}

#[test]
fn timestamps_are_utc_calendar_times() {
    assert_eq!(format_timestamp(0), "1970-01-01 00:00:00");
    assert_eq!(format_timestamp(951_782_400), "2000-02-29 00:00:00");
    assert_eq!(format_timestamp(1_700_000_000), "2023-11-14 22:13:20");
    assert_eq!(format_timestamp(1_735_689_599), "2024-12-31 23:59:59");
    assert_eq!(civil_date(0), (1970, 1, 1));
    assert_eq!(civil_date(59), (1970, 3, 1));
    assert_eq!(civil_date(365 + 365 + 59), (1972, 2, 29));
}

#[test]
fn crawl_start_time_has_calendar_form() {
    let mut db = Database::new();
    let mut site = Site::new(None, "a.test", "s");
    site.sync(&mut db).unwrap();
    let mut crawl = Crawl::new(None, site.id.unwrap());
    crawl.sync(&mut db).unwrap();
    let t = crawl.started_at.unwrap();
    assert_eq!(t.len(), 19);
    assert_eq!(&t[4..5], "-");
    assert_eq!(&t[10..11], " ");
    assert_eq!(&t[13..14], ":");
}

#[test]
fn archived_page_records_its_time() {
    let mut db = Database::new();
    let (_, _, page_id, _, _) = populated(&mut db, "a.test");
    let page = PageArchive::fetch(page_id, &db).unwrap();
    assert_eq!(page.created_at.len(), 19);
    assert_eq!(&page.created_at[4..5], "-");
}

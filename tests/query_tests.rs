use palimp::application::Application;
use palimp::entities::{Crawl, Page, ResultEntry};
use palimp::error::PalimpError;
use palimp::query::query_with_counts;

const ITEMS: &str = r#"<html><body>
    <div class="item">1</div><div class="item">2</div><div class="item">3</div>
    <p>text</p></body></html>"#;

/// An application with one site and one crawl holding the given pages.
fn app_with_pages(pages: &[&str]) -> (Application, i64, Vec<i64>) {
    let mut app = Application::new();
    app.new_site("a.test", "https://a.test/sitemap.xml").unwrap();
    let site_id = app.list_sites().unwrap()[0].id.unwrap();
    let mut crawl = Crawl::new(None, site_id);
    crawl.sync(&mut app.db).unwrap();
    let crawl_id = crawl.id.unwrap();
    let mut ids = Vec::new();
    for (i, html) in pages.iter().enumerate() {
        let url = format!("https://a.test/{}", i);
        let page = Page::new(&url, &url, html, Some(crawl_id));
        ids.push(page.sync(&mut app.db).unwrap());
    }
    (app, crawl_id, ids)
}

#[test]
fn query_counts_matching_elements() {
    let (mut app, crawl_id, ids) = app_with_pages(&[ITEMS]);
    let rows = app.query(crawl_id, "div.item").unwrap();
    assert_eq!(rows.len(), 1);
    assert_eq!(rows[0].count, 3);
    assert_eq!(rows[0].page_id, ids[0]);
    assert_eq!(rows[0].selector, "div.item");
    assert_eq!(app.list_results().unwrap().len(), 1);

    let none = app.query(crawl_id, "span.missing").unwrap();
    assert_eq!(none.len(), 0);
    assert_eq!(app.list_results().unwrap().len(), 1);
    assert_eq!(app.list_queries().unwrap().len(), 2);
}

#[test]
fn query_sums_counts_over_pages() {
    let (mut app, crawl_id, _) =
        app_with_pages(&["<p>a</p><p>b</p>", "<div></div>", "<p>c</p>", ITEMS]);
    let rows = app.query(crawl_id, "p").unwrap();
    let counts: Vec<u32> = rows.iter().map(|r| r.count).collect();
    assert_eq!(counts, vec![2, 1, 1]);
    assert_eq!(counts.iter().sum::<u32>(), 4);
}

#[test]
fn query_with_given_counts_stores_positive_ones() {
    let (mut app, crawl_id, ids) = app_with_pages(&["<p></p>", "<p></p>", "<p></p>", "<p></p>"]);
    let counts = vec![Some(3), Some(0), None, Some(5)];
    let rows = query_with_counts(crawl_id, "x", &counts, &mut app.db).unwrap();
    assert_eq!(rows.len(), 2);
    assert_eq!((rows[0].page_id, rows[0].count), (ids[0], 3));
    assert_eq!((rows[1].page_id, rows[1].count), (ids[3], 5));
    assert!(rows[0].id.unwrap() < rows[1].id.unwrap());
    assert_eq!(rows.iter().map(|r| r.count).sum::<u32>(), 8);
}

#[test]
fn query_with_given_counts_saturates_huge_counts() {
    let (mut app, crawl_id, _) = app_with_pages(&["<p></p>"]);
    let counts = vec![Some(usize::MAX)];
    let rows = query_with_counts(crawl_id, "x", &counts, &mut app.db).unwrap();
    assert_eq!(rows[0].count, u32::MAX);
}

#[test]
fn query_on_missing_crawl_is_refused() {
    let mut app = Application::new();
    assert_eq!(app.query(3, "p").err(), Some(PalimpError::Storage));
    assert_eq!(app.list_queries().unwrap().len(), 0);
}

#[test]
fn repeated_query_lists_same_results_for_both_ids() {
    let (mut app, crawl_id, _) = app_with_pages(&[ITEMS, "<div class=\"item\"></div>"]);
    app.query(crawl_id, "div.item").unwrap();
    app.query(crawl_id, "div.item").unwrap();
    let queries = app.list_queries().unwrap();
    assert_eq!(queries.len(), 2);
    let first = app.list_results_for_query(queries[0].id.unwrap()).unwrap();
    let second = app.list_results_for_query(queries[1].id.unwrap()).unwrap();
    assert_eq!(first.len(), 4);
    let key = |v: &Vec<(ResultEntry, String)>| -> Vec<(Option<i64>, i64, u32, String)> {
        v.iter().map(|(r, u)| (r.id, r.page_id, r.count, u.clone())).collect()
    };
    assert_eq!(key(&first), key(&second));
    assert_eq!(first[0].1, "https://a.test/0");
    assert_eq!(first[1].1, "https://a.test/1");
}

#[test]
fn results_for_query_are_keyed_by_selector() {
    let (mut app, crawl_id, _) = app_with_pages(&[ITEMS]);
    app.query(crawl_id, "div.item").unwrap();
    app.query(crawl_id, "p").unwrap();
    let queries = app.list_queries().unwrap();
    let p_results = app.list_results_for_query(queries[1].id.unwrap()).unwrap();
    assert_eq!(p_results.len(), 1);
    assert_eq!(p_results[0].0.selector, "p");
    assert_eq!(p_results[0].0.count, 1);
    let by_key = ResultEntry::fetch_by_crawl_and_selector(crawl_id, "div.item", &app.db).unwrap();
    assert_eq!(by_key.len(), 1);
    assert_eq!(by_key[0].count, 3);
}

#[test]
fn results_for_missing_query_are_not_found() {
    let app = Application::new();
    assert_eq!(app.list_results_for_query(1).err(), Some(PalimpError::NotFound));
}

#[test]
fn query_with_misaligned_counts_is_refused() {
    let (mut app, crawl_id, _) = app_with_pages(&["<p></p>", "<p></p>"]);
    let counts = vec![Some(1)];
    let r = query_with_counts(crawl_id, "p", &counts, &mut app.db);
    assert_eq!(r.err(), Some(PalimpError::Validation));
    assert_eq!(app.list_queries().unwrap().len(), 0);
    assert_eq!(app.list_results().unwrap().len(), 0);
}

#[test]
fn failed_query_stores_nothing() {
    let mut app = Application::new();
    assert!(app.query(99, "p").is_err());
    assert_eq!(app.list_queries().unwrap().len(), 0);
    assert_eq!(app.list_results().unwrap().len(), 0);
}

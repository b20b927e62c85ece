use palimp::application::Application;
use palimp::crawl::{CrawlResult, CrawlSession};
use palimp::entities::PageArchive;
use palimp::error::PalimpError;

fn app_with_site() -> (Application, i64) {
    let mut app = Application::new();
    app.new_site("a.test", "https://a.test/sitemap.xml").unwrap();
    let site_id = app.list_sites().unwrap()[0].id.unwrap();
    (app, site_id)
}

fn urls(list: &[&str]) -> Vec<String> {
    list.iter().map(|u| u.to_string()).collect()
}

#[test]
fn crawl_with_one_missing_page() {
    let (mut app, site_id) = app_with_site();
    let mut session = app
        .start_crawl(site_id, urls(&["https://a.test/", "https://a.test/gone"]), 5)
        .unwrap();
    let (i0, u0) = session.next_fetch().unwrap();
    let (i1, u1) = session.next_fetch().unwrap();
    assert_eq!(u0, "https://a.test/");
    assert_eq!(u1, "https://a.test/gone");
    assert!(session.next_fetch().is_none());

    let failed = app.record_page(&mut session, i1, Err("Server returned an error: 404".to_string()));
    match failed {
        Some(CrawlResult::PageFailed(url, reason)) => {
            assert_eq!(url, "https://a.test/gone");
            assert_eq!(reason, "Server returned an error: 404");
        }
        _ => panic!("expected a failure"),
    }
    let ok = app.record_page(
        &mut session,
        i0,
        Ok(("https://a.test/".to_string(), "<p>home</p>".to_string())),
    );
    assert!(matches!(ok, Some(CrawlResult::PageSucceeded(ref u)) if u == "https://a.test/"));

    assert!(session.is_finished());
    assert_eq!(session.succeeded(), 1);
    assert_eq!(session.failed(), 1);
    assert_eq!(session.succeeded() + session.failed(), session.total());
    let pages = PageArchive::fetch_by_crawl_id(session.crawl_id(), &app.db).unwrap();
    assert_eq!(pages.len(), 1);
    assert_eq!(pages[0].url, "https://a.test/");
    assert_eq!(pages[0].html_content, "<p>home</p>");
}

#[test]
fn crawl_respects_concurrency_limit() {
    let (mut app, site_id) = app_with_site();
    let list = urls(&["u1", "u2", "u3", "u4", "u5"]);
    let mut session = app.start_crawl(site_id, list, 2).unwrap();
    let (a, _) = session.next_fetch().unwrap();
    let (_b, _) = session.next_fetch().unwrap();
    assert!(session.next_fetch().is_none());
    assert_eq!(session.in_flight(), 2);
    app.record_page(&mut session, a, Err("timeout".to_string())).unwrap();
    let (c, url) = session.next_fetch().unwrap();
    assert_eq!(c, 2);
    assert_eq!(url, "u3");
    assert!(!session.is_finished());
}

#[test]
fn crawl_emits_one_outcome_per_url() {
    let (mut app, site_id) = app_with_site();
    let list = urls(&["u1", "u2", "u3", "u4", "u5", "u6", "u7"]);
    let mut session = app.start_crawl(site_id, list, 3).unwrap();
    let mut outcomes = 0;
    let mut successes = 0;
    let mut pending: Vec<usize> = Vec::new();
    while !session.is_finished() {
        while let Some((i, _)) = session.next_fetch() {
            pending.push(i);
        }
        let i = pending.remove(0);
        let fetched = if i % 2 == 0 {
            Ok((format!("final{}", i), "<p></p>".to_string()))
        } else {
            Err("refused".to_string())
        };
        match app.record_page(&mut session, i, fetched) {
            Some(CrawlResult::PageSucceeded(_)) => {
                outcomes += 1;
                successes += 1;
            }
            Some(CrawlResult::PageFailed(_, _)) => outcomes += 1,
            None => panic!("index was being fetched"),
        }
    }
    assert_eq!(outcomes, 7);
    assert_eq!(successes, 4);
    let pages = PageArchive::fetch_by_crawl_id(session.crawl_id(), &app.db).unwrap();
    assert_eq!(pages.len(), successes);
}

#[test]
fn completing_an_index_twice_gives_no_outcome() {
    let (mut app, site_id) = app_with_site();
    let mut session = app.start_crawl(site_id, urls(&["u1"]), 0).unwrap();
    assert!(app.record_page(&mut session, 0, Err("x".to_string())).is_none());
    let (i, _) = session.next_fetch().unwrap();
    assert!(app.record_page(&mut session, i, Err("x".to_string())).is_some());
    assert!(app.record_page(&mut session, i, Err("x".to_string())).is_none());
    assert_eq!(session.failed(), 1);
}

#[test]
fn crawl_of_missing_site_is_refused() {
    let mut app = Application::new();
    let r = app.start_crawl(7, urls(&["u1"]), 1);
    assert_eq!(r.err().map(|e| e == PalimpError::NotFound), Some(true));
    assert_eq!(app.list_crawls().unwrap().len(), 0);
}

#[test]
fn page_of_deleted_crawl_is_a_failure() {
    let (mut app, site_id) = app_with_site();
    let mut session = app.start_crawl(site_id, urls(&["u1"]), 1).unwrap();
    let (i, _) = session.next_fetch().unwrap();
    app.delete_crawl(session.crawl_id()).unwrap();
    let r = app.record_page(&mut session, i, Ok(("u1".to_string(), "<p></p>".to_string())));
    assert!(matches!(r, Some(CrawlResult::PageFailed(_, _))));
    assert_eq!(app.list_crawls().unwrap().len(), 0);
}

#[test]
fn start_crawl_stores_crawl_before_fetching() {
    let (mut app, site_id) = app_with_site();
    let session = app.start_crawl(site_id, Vec::new(), 4).unwrap();
    let crawls = app.list_crawls().unwrap();
    assert_eq!(crawls.len(), 1);
    assert_eq!(crawls[0].id, Some(session.crawl_id()));
    assert_eq!(crawls[0].site_id, site_id);
    assert!(session.is_finished());
}

#[test]
fn crawl_session_start_directly() {
    let (mut app, site_id) = app_with_site();
    let session = CrawlSession::start(site_id, urls(&["a", "b"]), 1, &mut app.db).unwrap();
    assert_eq!(session.total(), 2);
    assert_eq!(session.in_flight(), 0);
}

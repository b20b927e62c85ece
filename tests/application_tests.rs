use palimp::application::Application;
use palimp::entities::{Crawl, Page, Query, ResultEntry};

fn create_test_app() -> Application {
    Application::new()
}

#[test]
fn test_site_lifecycle() {
    let mut app = create_test_app();

    app.new_site("example.com", "https://example.com/sitemap.xml")
        .expect("Failed to create site");

    let sites = app.list_sites().expect("Failed to list sites");
    assert_eq!(sites.len(), 1);
    assert_eq!(sites[0].domain, "example.com");
    assert_eq!(sites[0].sitemap_url, "https://example.com/sitemap.xml");

    let site_id = sites[0].id.expect("Site ID should be present");
    app.delete_site(site_id).expect("Failed to delete site");

    let sites_after = app.list_sites().expect("Failed to list sites");
    assert_eq!(sites_after.len(), 0);
}

#[test]
fn test_crawl_lifecycle() {
    let mut app = create_test_app();

    app.new_site("example.com", "https://example.com/sitemap.xml").unwrap();
    let sites = app.list_sites().unwrap();
    let site_id = sites[0].id.unwrap();

    {
        let mut crawl = Crawl::new(None, site_id);
        crawl.sync(&mut app.db).expect("Failed to sync manual crawl");
    }

    let crawls = app.list_crawls().expect("Failed to list crawls");
    assert_eq!(crawls.len(), 1);
    assert_eq!(crawls[0].site_id, site_id);

    let crawl_id = crawls[0].id.expect("Crawl ID should be present");
    app.delete_crawl(crawl_id).expect("Failed to delete crawl");

    let crawls_after = app.list_crawls().expect("Failed to list crawls");
    assert_eq!(crawls_after.len(), 0);
}

#[test]
fn test_query_lifecycle() {
    let mut app = create_test_app();

    app.new_site("test.com", "sitemap").unwrap();
    let site_id = app.list_sites().unwrap()[0].id.unwrap();

    let crawl_id = {
        let mut crawl = Crawl::new(None, site_id);
        crawl.sync(&mut app.db).unwrap();
        crawl.id.unwrap()
    };

    {
        let mut query = Query::new(None, crawl_id, "div > h1");
        query.sync(&mut app.db).expect("Failed to sync query");
    }

    let queries = app.list_queries().expect("Failed to list queries");
    assert_eq!(queries.len(), 1);
    assert_eq!(queries[0].selector, "div > h1");
    assert_eq!(queries[0].crawl_id, crawl_id);

    let query_id = queries[0].id.unwrap();
    app.delete_query(query_id).expect("Failed to delete query");

    let queries_after = app.list_queries().expect("Failed to list queries");
    assert_eq!(queries_after.len(), 0);
}

#[test]
fn test_result_lifecycle() {
    let mut app = create_test_app();

    app.new_site("test.com", "sitemap").unwrap();
    let site_id = app.list_sites().unwrap()[0].id.unwrap();

    let crawl_id = {
        let mut crawl = Crawl::new(None, site_id);
        crawl.sync(&mut app.db).unwrap();
        crawl.id.unwrap()
    };

    let page_id = {
        let html = "<html><body><h1>Hello</h1></body></html>";
        let page = Page::new("http://test.com", "http://test.com", html, Some(crawl_id));
        page.sync(&mut app.db).expect("Failed to sync page")
    };

    {
        let mut entry = ResultEntry::new(None, page_id, "h1", 1);
        entry.sync(&mut app.db).expect("Failed to sync result entry");
    }

    let results = app.list_results().expect("Failed to list results");
    assert_eq!(results.len(), 1);
    assert_eq!(results[0].selector, "h1");
    assert_eq!(results[0].page_id, page_id);
    assert_eq!(results[0].count, 1);

    let result_id = results[0].id.unwrap();
    app.delete_result(result_id).expect("Failed to delete result");

    let results_after = app.list_results().expect("Failed to list results");
    assert_eq!(results_after.len(), 0);
}

use palimp::entities::Page;
use palimp::query::match_count;

#[test]
fn test_page_selector_count() {
    let html = r#"
            <!DOCTYPE html>
            <html>
                <body>
                    <div class="item">Item 1</div>
                    <div class="item">Item 2</div>
                    <div class="item">Item 3</div>
                    <p>Just a paragraph</p>
                </body>
            </html>
        "#;

    let page = Page::new("http://test.com", "http://test.com", html, None);

    let count = match_count(&page.html_content, "div.item").expect("Selector failed");

    assert_eq!(count, 3);
}

#[test]
fn test_page_selector_zero_count() {
    let html = "<html><body><p>Hello</p></body></html>";
    let page = Page::new("http://test.com", "http://test.com", html, None);

    match match_count(&page.html_content, ".nonexistent") {
        Some(count) => assert_eq!(count, 0),
        None => {}
    }

    if let Some(count) = match_count(&page.html_content, "div.missing") {
        assert_eq!(count, 0);
    }
}

#[test]
fn match_count_counts_paragraphs() {
    let html = "<html><body><p>a</p><div><p class=\"x\">b</p></div></body></html>";
    assert_eq!(match_count(html, "p"), Some(2));
    assert_eq!(match_count(html, "p.x"), Some(1));
}

#[test]
fn page_new_keeps_its_fields() {
    let page = Page::new("http://a.test/", "http://a.test/final", "<p>x</p>", Some(4));
    assert_eq!(page.url, "http://a.test/");
    assert_eq!(page.final_url, "http://a.test/final");
    assert_eq!(page.html_content, "<p>x</p>");
    assert_eq!(page.crawl_id, Some(4));
}

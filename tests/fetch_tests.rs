use palimp::fetch::{check_page_response, check_sitemap_response, Rejection, PAGE_SIZE_LIMIT};

#[test]
fn html_page_is_accepted() {
    assert_eq!(check_page_response(200, "text/html; charset=utf-8", Some(1000)), Ok(()));
    assert_eq!(check_page_response(204, "text/html", None), Ok(()));
}

#[test]
fn error_status_is_rejected() {
    assert_eq!(check_page_response(404, "text/html", None), Err(Rejection::Status(404)));
    assert_eq!(check_page_response(500, "text/html", None), Err(Rejection::Status(500)));
    assert_eq!(check_page_response(301, "text/html", None), Err(Rejection::Status(301)));
}

#[test]
fn oversized_page_is_rejected() {
    assert_eq!(check_page_response(200, "text/html", Some(PAGE_SIZE_LIMIT)), Ok(()));
    assert_eq!(
        check_page_response(200, "text/html", Some(PAGE_SIZE_LIMIT + 1)),
        Err(Rejection::TooLarge(PAGE_SIZE_LIMIT + 1))
    );
    assert_eq!(PAGE_SIZE_LIMIT, 10 * 1024 * 1024);
}

#[test]
fn non_html_page_is_rejected() {
    assert_eq!(check_page_response(200, "application/json", None), Err(Rejection::NotHtml));
    assert_eq!(check_page_response(200, "", None), Err(Rejection::NotHtml));
}

#[test]
fn sitemap_needs_xml_type_or_suffix() {
    assert_eq!(check_sitemap_response("application/xml", "https://a.test/map"), Ok(()));
    assert_eq!(check_sitemap_response("text/plain", "https://a.test/sitemap.xml"), Ok(()));
    assert_eq!(
        check_sitemap_response("text/html", "https://a.test/sitemap"),
        Err(Rejection::NotXml)
    );
    assert_eq!(check_sitemap_response("", "https://a.test/xml"), Err(Rejection::NotXml));
}

#[test]
fn rejection_messages_are_distinct() {
    assert_ne!(Rejection::NotHtml.message(), Rejection::NotXml.message());
}

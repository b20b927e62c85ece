use palimp::error::PalimpError;
use palimp::sitemap::{Sitemap, XmlEvent};

#[test]
fn test_parse_sitemap() {
    let xml = r#"
            <?xml version="1.0" encoding="UTF-8"?>
            <urlset xmlns="http://www.sitemaps.org/schemas/sitemap/0.9">
                <url>
                    <loc>https://example.com/</loc>
                </url>
                <url>
                    <loc>https://example.com/about</loc>
                </url>
            </urlset>
        "#;

    let sitemap = Sitemap::new(xml).expect("Failed to parse sitemap");
    assert_eq!(sitemap.urlset.urls.len(), 2);
    assert_eq!(sitemap.urlset.urls[0].loc, "https://example.com/");
    assert_eq!(sitemap.urlset.urls[1].loc, "https://example.com/about");
}

#[test]
fn sitemap_skips_other_entry_elements() {
    let xml = "<urlset><url><loc>https://a.test/x</loc><lastmod>2024-01-01</lastmod>\
               <image:image><image:loc>https://a.test/i.png</image:loc></image:image></url>\
               <url><priority>0.5</priority><loc> https://a.test/y </loc></url></urlset>";
    let sitemap = Sitemap::new(xml).expect("sitemap");
    assert_eq!(sitemap.urlset.urls.len(), 2);
    assert_eq!(sitemap.urlset.urls[0].loc, "https://a.test/x");
    assert_eq!(sitemap.urlset.urls[1].loc, "https://a.test/y");
}

#[test]
fn sitemap_unescapes_locations() {
    let xml = "<urlset><url><loc>https://a.test/?a=1&amp;b=2</loc></url></urlset>";
    let sitemap = Sitemap::new(xml).expect("sitemap");
    assert_eq!(sitemap.urlset.urls[0].loc, "https://a.test/?a=1&b=2");
}

#[test]
fn empty_sitemap_has_no_urls() {
    let sitemap = Sitemap::new("<urlset></urlset>").expect("sitemap");
    assert_eq!(sitemap.urlset.urls.len(), 0);
    let sitemap = Sitemap::new("<urlset/>").expect("sitemap");
    assert_eq!(sitemap.urlset.urls.len(), 0);
}

#[test]
fn malformed_sitemap_is_a_parse_error() {
    let r = Sitemap::new("<urlset><url><loc>https://a.test/</url></urlset>");
    assert!(matches!(r, Err(PalimpError::Parse(_))));
}

#[test]
fn wrong_root_is_a_parse_error() {
    let r = Sitemap::new("<html><body>not a sitemap</body></html>");
    assert!(matches!(r, Err(PalimpError::Parse(_))));
}

#[test]
fn entry_without_location_is_a_parse_error() {
    let r = Sitemap::new("<urlset><url><lastmod>2024</lastmod></url></urlset>");
    assert!(matches!(r, Err(PalimpError::Parse(_))));
}

#[test]
fn unterminated_sitemap_is_a_parse_error() {
    let r = Sitemap::new("<urlset><url><loc>https://a.test/</loc></url>");
    assert!(matches!(r, Err(PalimpError::Parse(_))));
    let r = Sitemap::new("");
    assert!(matches!(r, Err(PalimpError::Parse(_))));
}

#[test]
fn sitemap_from_events_reads_locations() {
    let events = vec![
        XmlEvent::Other,
        XmlEvent::Open("urlset".to_string()),
        XmlEvent::Open("url".to_string()),
        XmlEvent::Open("loc".to_string()),
        XmlEvent::Text("https://a.test/1".to_string()),
        XmlEvent::Close("loc".to_string()),
        XmlEvent::Close("url".to_string()),
        XmlEvent::Close("urlset".to_string()),
        XmlEvent::End,
    ];
    let sitemap = Sitemap::from_events(&events).expect("sitemap");
    assert_eq!(sitemap.urlset.urls.len(), 1);
    assert_eq!(sitemap.urlset.urls[0].loc, "https://a.test/1");
}

#[test]
fn sitemap_from_events_reports_reader_error() {
    let events = vec![
        XmlEvent::Open("urlset".to_string()),
        XmlEvent::Invalid("broken".to_string()),
    ];
    match Sitemap::from_events(&events) {
        Err(PalimpError::Parse(m)) => assert_eq!(m, "broken"),
        _ => panic!("expected a parse error"),
    }
}

#[test]
fn sitemap_reads_cdata_locations() {
    let xml = "<urlset><url><loc><![CDATA[https://a.test/?a=1&b=2]]></loc></url></urlset>";
    let sitemap = Sitemap::new(xml).expect("sitemap");
    assert_eq!(sitemap.urlset.urls.len(), 1);
    assert_eq!(sitemap.urlset.urls[0].loc, "https://a.test/?a=1&b=2");
}

#[test]
fn sitemap_keeps_empty_locations() {
    let xml = "<urlset><url><loc></loc></url><url><loc/></url><url><loc>x</loc></url></urlset>";
    let sitemap = Sitemap::new(xml).expect("sitemap");
    assert_eq!(sitemap.urlset.urls.len(), 3);
    assert_eq!(sitemap.urlset.urls[0].loc, "");
    assert_eq!(sitemap.urlset.urls[1].loc, "");
    assert_eq!(sitemap.urlset.urls[2].loc, "x");
}

#[test]
fn undecodable_location_is_a_parse_error() {
    let r = Sitemap::new("<urlset><url><loc>https://a.test/&bogus;</loc></url></urlset>");
    assert!(matches!(r, Err(PalimpError::Parse(_))));
}

#[test]
fn text_outside_the_root_is_a_parse_error() {
    let r = Sitemap::new("<urlset><url><loc>x</loc></url></urlset>trailing");
    assert!(matches!(r, Err(PalimpError::Parse(_))));
    let r = Sitemap::new("leading<urlset><url><loc>x</loc></url></urlset>");
    assert!(matches!(r, Err(PalimpError::Parse(_))));
}

#[test]
fn bad_text_event_fails_the_grammar() {
    let events = vec![
        XmlEvent::Open("urlset".to_string()),
        XmlEvent::Open("url".to_string()),
        XmlEvent::Open("loc".to_string()),
        XmlEvent::BadText("unknown entity".to_string()),
        XmlEvent::Close("loc".to_string()),
        XmlEvent::Close("url".to_string()),
        XmlEvent::Close("urlset".to_string()),
        XmlEvent::End,
    ];
    match Sitemap::from_events(&events) {
        Err(PalimpError::Parse(m)) => assert_eq!(m, "unknown entity"),
        _ => panic!("expected a parse error"),
    }
}

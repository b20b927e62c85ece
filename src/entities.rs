//! The five stored record kinds, and the page that a crawl archives.
use vstd::prelude::*;

verus! {

/// A crawl target: a domain and the URL of its sitemap.
pub struct Site {
    pub id: Option<i64>,
    pub domain: String,
    pub sitemap_url: String,
}

/// One crawl run of a site. `started_at` is set by the store when the crawl
/// is first stored.
pub struct Crawl {
    pub id: Option<i64>,
    pub site_id: i64,
    pub started_at: Option<String>,
}

/// A fetched page that is about to be archived under a crawl.
pub struct Page {
    pub url: String,
    pub final_url: String,
    pub html_content: String,
    pub crawl_id: Option<i64>,
}

/// A stored snapshot of one fetched page.
pub struct PageArchive {
    pub id: i64,
    pub url: String,
    pub final_url: String,
    pub html_content: String,
    pub crawl_id: i64,
    /// When the page was archived (UTC, `YYYY-MM-DD HH:MM:SS`).
    pub created_at: String,
}

/// The record of one request to evaluate a selector against a crawl.
pub struct Query {
    pub id: Option<i64>,
    pub crawl_id: i64,
    pub selector: String,
}

/// The number of matches of a selector in one archived page.
pub struct ResultEntry {
    pub id: Option<i64>,
    pub page_id: i64,
    pub selector: String,
    pub count: u32,
}

fn copy_opt_string(s: &Option<String>) -> (r: Option<String>)
    ensures
        r == *s,
{
    match s {
        Some(v) => Some(v.clone()),
        None => None,
    }
}

impl Site {
    pub fn new(id: Option<i64>, domain: &str, sitemap_url: &str) -> (r: Site)
        ensures
            r.id == id,
            r.domain@ == domain@,
            r.sitemap_url@ == sitemap_url@,
    {
        Site { id, domain: domain.to_owned(), sitemap_url: sitemap_url.to_owned() }
    }

    /// An equal copy of this site.
    pub fn copy(&self) -> (r: Site)
        ensures
            r == *self,
    {
        Site { id: self.id, domain: self.domain.clone(), sitemap_url: self.sitemap_url.clone() }
    }
}

impl Crawl {
    pub fn new(id: Option<i64>, site_id: i64) -> (r: Crawl)
        ensures
            r.id == id,
            r.site_id == site_id,
            r.started_at is None,
    {
        Crawl { id, site_id, started_at: None }
    }

    /// An equal copy of this crawl.
    pub fn copy(&self) -> (r: Crawl)
        ensures
            r == *self,
    {
        Crawl { id: self.id, site_id: self.site_id, started_at: copy_opt_string(&self.started_at) }
    }
}

impl Page {
    pub fn new(url: &str, final_url: &str, page_content: &str, crawl_id: Option<i64>) -> (r: Page)
        ensures
            r.url@ == url@,
            r.final_url@ == final_url@,
            r.html_content@ == page_content@,
            r.crawl_id == crawl_id,
    {
        Page {
            url: url.to_owned(),
            final_url: final_url.to_owned(),
            html_content: page_content.to_owned(),
            crawl_id,
        }
    }
}

impl PageArchive {
    /// An equal copy of this archived page.
    pub fn copy(&self) -> (r: PageArchive)
        ensures
            r == *self,
    {
        PageArchive {
            id: self.id,
            url: self.url.clone(),
            final_url: self.final_url.clone(),
            html_content: self.html_content.clone(),
            crawl_id: self.crawl_id,
            created_at: self.created_at.clone(),
        }
    }
}

impl Query {
    pub fn new(id: Option<i64>, crawl_id: i64, selector: &str) -> (r: Query)
        ensures
            r.id == id,
            r.crawl_id == crawl_id,
            r.selector@ == selector@,
    {
        Query { id, crawl_id, selector: selector.to_owned() }
    }

    /// An equal copy of this query.
    pub fn copy(&self) -> (r: Query)
        ensures
            r == *self,
    {
        Query { id: self.id, crawl_id: self.crawl_id, selector: self.selector.clone() }
    }
}

impl ResultEntry {
    pub fn new(id: Option<i64>, page_id: i64, selector: &str, count: u32) -> (r: ResultEntry)
        ensures
            r.id == id,
            r.page_id == page_id,
            r.selector@ == selector@,
            r.count == count,
    {
        ResultEntry { id, page_id, selector: selector.to_owned(), count }
    }

    /// An equal copy of this result row.
    pub fn copy(&self) -> (r: ResultEntry)
        ensures
            r == *self,
    {
        ResultEntry {
            id: self.id,
            page_id: self.page_id,
            selector: self.selector.clone(),
            count: self.count,
        }
    }
}

} // verus!

//! Sitemap reading: quick-xml reports the document's events, and the
//! sitemap grammar over them yields the entry locations in order.
use vstd::prelude::*;
use crate::error::PalimpError;
use quick_xml::events::Event;
use quick_xml::Reader;

verus! {

/// One event of an XML document: element names are local names (no
/// namespace prefix), text is trimmed, and CDATA content is reported as
/// text.
pub enum XmlEvent {
    Open(String),
    Close(String),
    Empty(String),
    /// Text with its entity references resolved, or CDATA content.
    Text(String),
    /// Text as written in the document, before entity references are
    /// resolved.
    Escaped(String),
    /// Text whose entity references cannot be resolved, with the reason.
    BadText(String),
    /// A declaration, comment, processing instruction or doctype.
    Other,
    /// The end of the document.
    End,
    /// The reader found the document malformed, with its reason.
    Invalid(String),
}

/// quick-xml's pull reader, opaque here: what it still has to report is
/// `reader_events`.
#[verifier::external_type_specification]
#[verifier::external_body]
#[verifier::reject_recursive_types(R)]
pub struct ExReader<R>(Reader<R>);

/// The events that quick-xml reports for a document, up to and including
/// the end of the document or the first error.
pub uninterp spec fn xml_events(text: Seq<char>) -> Seq<XmlEvent>;

/// The events that a reader has still to report, up to and including the end
/// of the document or the first error; the reader is not read past those.
pub uninterp spec fn reader_events(reader: Reader<&[u8]>) -> Seq<XmlEvent>;

/// Relies on quick_xml::Reader::from_str (with text trimming on): a reader
/// positioned at the start of the document; it reports at least the end of
/// the document or an error.
#[verifier::external_body]
fn open_reader(text: &str) -> (r: Reader<&[u8]>)
    ensures
        reader_events(r) == xml_events(text@),
        reader_events(r).len() > 0,
{
    let mut reader = Reader::from_str(text);
    reader.config_mut().trim_text(true);
    reader
}

/// Relies on quick_xml::Reader::read_event: reports the next event and moves
/// past it; the end of the document and an error of the reader are the last
/// events of `reader_events`, and nothing is said of the reader after them. Text is reported as written (`Escaped`); CDATA, a slice of the
/// UTF-8 input, as `Text`.
#[verifier::external_body]
fn read_event(reader: &mut Reader<&[u8]>) -> (r: XmlEvent)
    requires
        reader_events(*old(reader)).len() > 0,
    ensures
        r == reader_events(*old(reader))[0],
        (r is End || r is Invalid) == (reader_events(*old(reader)).len() == 1),
        !(r is End || r is Invalid) ==> reader_events(*final(reader)) == reader_events(
            *old(reader),
        ).drop_first(),
{
    match reader.read_event() {
        Ok(Event::Start(e)) => XmlEvent::Open(String::from_utf8_lossy(e.local_name().as_ref()).into_owned()),
        Ok(Event::End(e)) => XmlEvent::Close(String::from_utf8_lossy(e.local_name().as_ref()).into_owned()),
        Ok(Event::Empty(e)) => XmlEvent::Empty(String::from_utf8_lossy(e.local_name().as_ref()).into_owned()),
        Ok(Event::Text(e)) => XmlEvent::Escaped(String::from_utf8_lossy(&e).into_owned()),
        Ok(Event::CData(e)) => XmlEvent::Text(String::from_utf8_lossy(&e).into_owned()),
        Ok(Event::Eof) => XmlEvent::End,
        Ok(_) => XmlEvent::Other,
        Err(err) => XmlEvent::Invalid(err.to_string()),
    }
}

/// What quick-xml makes of escaped text: the text with its entity and
/// character references resolved, or the reason it cannot.
pub uninterp spec fn unescaped(raw: Seq<char>) -> Result<String, String>;

/// Relies on quick_xml::escape::unescape (predefined entities, as the
/// reader's own BytesText::unescape uses): resolves the references in text.
#[verifier::external_body]
fn unescape_text(raw: &str) -> (r: Result<String, String>)
    ensures
        r == unescaped(raw@),
{
    match quick_xml::escape::unescape(raw) {
        Ok(t) => Ok(t.into_owned()),
        Err(e) => Err(e.to_string()),
    }
}

/// An event with its text decoded: escaped text becomes its resolved text,
/// or `BadText` when it cannot be resolved.
pub open spec fn decode_event(ev: XmlEvent) -> XmlEvent {
    match ev {
        XmlEvent::Escaped(raw) => match unescaped(raw@) {
            Ok(t) => XmlEvent::Text(t),
            Err(m) => XmlEvent::BadText(m),
        },
        _ => ev,
    }
}

/// Decodes the text of an event.
fn decode(ev: XmlEvent) -> (r: XmlEvent)
    ensures
        r == decode_event(ev),
{
    match ev {
        XmlEvent::Escaped(raw) => match unescape_text(raw.as_str()) {
            Ok(t) => XmlEvent::Text(t),
            Err(m) => XmlEvent::BadText(m),
        },
        other => other,
    }
}

/// Where a sitemap reader stands in the document.
pub enum ReadState {
    /// Before the root element.
    Prolog,
    /// Inside `urlset`, between entries.
    InUrlset,
    /// Inside a `url` entry: `None` before its location, `Some(None)` after an
    /// empty location, `Some(Some(t))` after the location `t`.
    InUrl(Option<Option<String>>),
    /// Inside a `loc` element, with its text if read.
    InLoc(Option<String>),
    /// Inside an element of `urlset` that is not an entry, this deep.
    SkipInUrlset(usize),
    /// Inside an element of an entry that is not its location, this deep.
    SkipInUrl(usize, Option<Option<String>>),
    /// After the root element.
    Closed,
    /// The document is not a sitemap; the reader's reason, if it gave one.
    Failed(Option<String>),
}

/// The text of a location as read: an empty location has no text.
pub open spec fn location_text(loc: Option<String>) -> Seq<char> {
    match loc {
        Some(t) => t@,
        None => Seq::empty(),
    }
}

/// The sitemap grammar: a root `urlset` holding `url` entries, each with
/// exactly one `loc`; other elements inside are skipped, and no text may
/// stand outside the root. Returns the next state and the location that
/// the event completes, if any.
pub open spec fn step(s: ReadState, ev: XmlEvent) -> (ReadState, Option<Seq<char>>) {
    match s {
        ReadState::Failed(m) => (ReadState::Failed(m), None),
        _ => match ev {
            XmlEvent::Invalid(m) => (ReadState::Failed(Some(m)), None),
            XmlEvent::BadText(m) => (ReadState::Failed(Some(m)), None),
            _ => (step_element(s, ev), match (s, ev) {
                (ReadState::InUrl(Some(l)), XmlEvent::Close(_)) => Some(location_text(l)),
                _ => None,
            }),
        },
    }
}

/// The next state for an event that is neither an error nor undecodable text.
pub open spec fn step_element(s: ReadState, ev: XmlEvent) -> ReadState {
    match s {
        ReadState::Prolog => match ev {
            XmlEvent::Open(n) => if n@ == "urlset"@ {
                ReadState::InUrlset
            } else {
                ReadState::Failed(None)
            },
            XmlEvent::Empty(n) => if n@ == "urlset"@ {
                ReadState::Closed
            } else {
                ReadState::Failed(None)
            },
            XmlEvent::Other => ReadState::Prolog,
            _ => ReadState::Failed(None),
        },
        ReadState::InUrlset => match ev {
            XmlEvent::Open(n) => if n@ == "url"@ {
                ReadState::InUrl(None)
            } else {
                ReadState::SkipInUrlset(1)
            },
            XmlEvent::Empty(n) => if n@ == "url"@ {
                ReadState::Failed(None)
            } else {
                ReadState::InUrlset
            },
            XmlEvent::Close(_) => ReadState::Closed,
            XmlEvent::Text(_) | XmlEvent::Other => ReadState::InUrlset,
            _ => ReadState::Failed(None),
        },
        ReadState::InUrl(loc) => match ev {
            XmlEvent::Open(n) => if n@ == "loc"@ {
                if loc is None {
                    ReadState::InLoc(None)
                } else {
                    ReadState::Failed(None)
                }
            } else {
                ReadState::SkipInUrl(1, loc)
            },
            XmlEvent::Empty(n) => if n@ == "loc"@ {
                if loc is None {
                    ReadState::InUrl(Some(None))
                } else {
                    ReadState::Failed(None)
                }
            } else {
                ReadState::InUrl(loc)
            },
            XmlEvent::Close(_) => if loc is Some {
                ReadState::InUrlset
            } else {
                ReadState::Failed(None)
            },
            XmlEvent::Text(_) | XmlEvent::Other => ReadState::InUrl(loc),
            _ => ReadState::Failed(None),
        },
        ReadState::InLoc(text) => match ev {
            XmlEvent::Text(t) => if text is None {
                ReadState::InLoc(Some(t))
            } else {
                ReadState::Failed(None)
            },
            XmlEvent::Close(_) => ReadState::InUrl(Some(text)),
            XmlEvent::Other => ReadState::InLoc(text),
            _ => ReadState::Failed(None),
        },
        ReadState::SkipInUrlset(d) => match ev {
            XmlEvent::Open(_) => if d == usize::MAX {
                ReadState::Failed(None)
            } else {
                ReadState::SkipInUrlset((d + 1) as usize)
            },
            XmlEvent::Close(_) => if d <= 1 {
                ReadState::InUrlset
            } else {
                ReadState::SkipInUrlset((d - 1) as usize)
            },
            XmlEvent::End => ReadState::Failed(None),
            _ => ReadState::SkipInUrlset(d),
        },
        ReadState::SkipInUrl(d, loc) => match ev {
            XmlEvent::Open(_) => if d == usize::MAX {
                ReadState::Failed(None)
            } else {
                ReadState::SkipInUrl((d + 1) as usize, loc)
            },
            XmlEvent::Close(_) => if d <= 1 {
                ReadState::InUrl(loc)
            } else {
                ReadState::SkipInUrl((d - 1) as usize, loc)
            },
            XmlEvent::End => ReadState::Failed(None),
            _ => ReadState::SkipInUrl(d, loc),
        },
        ReadState::Closed => match ev {
            XmlEvent::Other | XmlEvent::End => ReadState::Closed,
            _ => ReadState::Failed(None),
        },
        ReadState::Failed(m) => ReadState::Failed(m),
    }
}

/// The state and the locations read after the first `n` events.
pub open spec fn run(events: Seq<XmlEvent>, n: int) -> (ReadState, Seq<Seq<char>>)
    decreases n,
{
    if n <= 0 {
        (ReadState::Prolog, Seq::empty())
    } else {
        let (s, out) = run(events, n - 1);
        let (t, found) = step(s, events[n - 1]);
        (t, match found {
            Some(l) => out.push(l),
            None => out,
        })
    }
}

/// The locations of a sitemap's entries, in document order, or `None` when
/// the events do not form a complete sitemap.
pub open spec fn sitemap_locations(events: Seq<XmlEvent>) -> Option<Seq<Seq<char>>> {
    let (s, out) = run(events, events.len() as int);
    if s is Closed {
        Some(out)
    } else {
        None
    }
}

/// The entries of a sitemap.
pub struct UrlSet {
    pub urls: Vec<SitemapUrl>,
}

/// One entry of a sitemap: the location of a page.
pub struct SitemapUrl {
    pub loc: String,
}

/// A parsed sitemap.
pub struct Sitemap {
    pub urlset: UrlSet,
}

fn same_name(n: &String, name: &str) -> (r: bool)
    ensures
        r == (n@ == name@),
{
    let expected = name.to_owned();
    n.eq(&expected)
}

/// The text of a location as read.
fn location_string(loc: &Option<String>) -> (r: String)
    ensures
        r@ == location_text(*loc),
{
    match loc {
        Some(t) => t.clone(),
        None => String::new(),
    }
}

/// One step of the sitemap grammar.
fn next_state(s: ReadState, ev: &XmlEvent) -> (r: (ReadState, Option<String>))
    ensures
        r.0 == step(s, *ev).0,
        r.1 is Some == step(s, *ev).1 is Some,
        r.1 is Some ==> r.1.unwrap()@ == step(s, *ev).1.unwrap(),
{
    if let ReadState::Failed(m) = s {
        return (ReadState::Failed(m), None);
    }
    match ev {
        XmlEvent::Invalid(m) => {
            return (ReadState::Failed(Some(m.clone())), None);
        },
        XmlEvent::BadText(m) => {
            return (ReadState::Failed(Some(m.clone())), None);
        },
        _ => {},
    }
    let found = match (&s, ev) {
        (ReadState::InUrl(Some(l)), XmlEvent::Close(_)) => Some(location_string(l)),
        _ => None,
    };
    let t = match s {
        ReadState::Prolog => match ev {
            XmlEvent::Open(n) => if same_name(n, "urlset") {
                ReadState::InUrlset
            } else {
                ReadState::Failed(None)
            },
            XmlEvent::Empty(n) => if same_name(n, "urlset") {
                ReadState::Closed
            } else {
                ReadState::Failed(None)
            },
            XmlEvent::Other => ReadState::Prolog,
            _ => ReadState::Failed(None),
        },
        ReadState::InUrlset => match ev {
            XmlEvent::Open(n) => if same_name(n, "url") {
                ReadState::InUrl(None)
            } else {
                ReadState::SkipInUrlset(1)
            },
            XmlEvent::Empty(n) => if same_name(n, "url") {
                ReadState::Failed(None)
            } else {
                ReadState::InUrlset
            },
            XmlEvent::Close(_) => ReadState::Closed,
            XmlEvent::Text(_) | XmlEvent::Other => ReadState::InUrlset,
            _ => ReadState::Failed(None),
        },
        ReadState::InUrl(loc) => match ev {
            XmlEvent::Open(n) => if same_name(n, "loc") {
                if loc.is_none() {
                    ReadState::InLoc(None)
                } else {
                    ReadState::Failed(None)
                }
            } else {
                ReadState::SkipInUrl(1, loc)
            },
            XmlEvent::Empty(n) => if same_name(n, "loc") {
                if loc.is_none() {
                    ReadState::InUrl(Some(None))
                } else {
                    ReadState::Failed(None)
                }
            } else {
                ReadState::InUrl(loc)
            },
            XmlEvent::Close(_) => if loc.is_some() {
                ReadState::InUrlset
            } else {
                ReadState::Failed(None)
            },
            XmlEvent::Text(_) | XmlEvent::Other => ReadState::InUrl(loc),
            _ => ReadState::Failed(None),
        },
        ReadState::InLoc(text) => match ev {
            XmlEvent::Text(t) => if text.is_none() {
                ReadState::InLoc(Some(t.clone()))
            } else {
                ReadState::Failed(None)
            },
            XmlEvent::Close(_) => ReadState::InUrl(Some(text)),
            XmlEvent::Other => ReadState::InLoc(text),
            _ => ReadState::Failed(None),
        },
        ReadState::SkipInUrlset(d) => match ev {
            XmlEvent::Open(_) => if d == usize::MAX {
                ReadState::Failed(None)
            } else {
                ReadState::SkipInUrlset(d + 1)
            },
            XmlEvent::Close(_) => if d <= 1 {
                ReadState::InUrlset
            } else {
                ReadState::SkipInUrlset(d - 1)
            },
            XmlEvent::End => ReadState::Failed(None),
            _ => ReadState::SkipInUrlset(d),
        },
        ReadState::SkipInUrl(d, loc) => match ev {
            XmlEvent::Open(_) => if d == usize::MAX {
                ReadState::Failed(None)
            } else {
                ReadState::SkipInUrl(d + 1, loc)
            },
            XmlEvent::Close(_) => if d <= 1 {
                ReadState::InUrl(loc)
            } else {
                ReadState::SkipInUrl(d - 1, loc)
            },
            XmlEvent::End => ReadState::Failed(None),
            _ => ReadState::SkipInUrl(d, loc),
        },
        ReadState::Closed => match ev {
            XmlEvent::Other | XmlEvent::End => ReadState::Closed,
            _ => ReadState::Failed(None),
        },
        ReadState::Failed(m) => ReadState::Failed(m),
    };
    (t, found)
}

impl Sitemap {
    /// Reads a sitemap from the events of its document, with their text
    /// decoded (an `Escaped` event does not fit the grammar): the locations
    /// of its entries in document order, or a parse error when the events do
    /// not form a sitemap.
    pub fn from_events(events: &Vec<XmlEvent>) -> (r: Result<Sitemap, PalimpError>)
        ensures
            match sitemap_locations(events@) {
                Some(locs) => r is Ok && r->Ok_0.urlset.urls@.len() == locs.len() && forall|i: int|
                    0 <= i < locs.len() ==> (#[trigger] r->Ok_0.urlset.urls@[i]).loc@ == locs[i],
                None => r is Err && r->Err_0 is Parse,
            },
    {
        let mut state = ReadState::Prolog;
        let mut locs: Vec<String> = Vec::new();
        let mut i: usize = 0;
        while i < events.len()
            invariant
                i <= events@.len(),
                state == run(events@, i as int).0,
                locs@.len() == run(events@, i as int).1.len(),
                forall|k: int| 0 <= k < locs@.len() ==> (#[trigger] locs@[k])@ == run(
                    events@,
                    i as int,
                ).1[k],
            decreases events@.len() - i,
        {
            let ghost before = run(events@, i as int).1;
            let (t, found) = next_state(state, &events[i]);
            state = t;
            if let Some(l) = found {
                locs.push(l);
            }
            proof {
                assert(run(events@, i + 1).1 == match step(run(events@, i as int).0, events@[i as int]).1 {
                    Some(l) => before.push(l),
                    None => before,
                });
            }
            i += 1;
        }
        match state {
            ReadState::Closed => {
                let mut urls: Vec<SitemapUrl> = Vec::new();
                let mut k: usize = 0;
                while k < locs.len()
                    invariant
                        k <= locs@.len(),
                        urls@.len() == k,
                        forall|j: int| 0 <= j < k ==> (#[trigger] urls@[j]).loc == locs@[j],
                    decreases locs@.len() - k,
                {
                    urls.push(SitemapUrl { loc: locs[k].clone() });
                    k += 1;
                }
                Ok(Sitemap { urlset: UrlSet { urls } })
            },
            ReadState::Failed(Some(m)) => Err(PalimpError::Parse(m)),
            _ => Err(PalimpError::Parse("document is not a sitemap".to_owned())),
        }
    }

    /// Parses sitemap XML: the locations of its `url` entries in document
    /// order, or a parse error when the XML is malformed, holds text that
    /// cannot be decoded, or is not a sitemap.
    pub fn new(sitemap_content: &str) -> (r: Result<Sitemap, PalimpError>)
        ensures
            match sitemap_locations(
                xml_events(sitemap_content@).map_values(|e: XmlEvent| decode_event(e)),
            ) {
                Some(locs) => r is Ok && r->Ok_0.urlset.urls@.len() == locs.len() && forall|i: int|
                    0 <= i < locs.len() ==> (#[trigger] r->Ok_0.urlset.urls@[i]).loc@ == locs[i],
                None => r is Err && r->Err_0 is Parse,
            },
    {
        let mut reader = open_reader(sitemap_content);
        let mut events: Vec<XmlEvent> = Vec::new();
        let ghost mut raw: Seq<XmlEvent> = Seq::empty();
        let mut done = false;
        while !done
            invariant
                !done ==> raw + reader_events(reader) == xml_events(sitemap_content@),
                !done ==> reader_events(reader).len() > 0,
                done ==> raw == xml_events(sitemap_content@),
                events@ == raw.map_values(|e: XmlEvent| decode_event(e)),
            decreases (if done {
                0
            } else {
                reader_events(reader).len()
            }),
        {
            let ghost before = reader_events(reader);
            let ev = read_event(&mut reader);
            done = match ev {
                XmlEvent::End | XmlEvent::Invalid(_) => true,
                _ => false,
            };
            proof {
                raw = raw.push(ev);
            }
            events.push(decode(ev));
            proof {
                assert(before =~= seq![ev] + before.drop_first());
                if done {
                    assert(raw =~= raw.drop_last() + before);
                } else {
                    assert(raw + reader_events(reader) =~= raw.drop_last() + before);
                }
                assert(events@ =~= raw.map_values(|e: XmlEvent| decode_event(e)));
            }
        }
        Sitemap::from_events(&events)
    }
}

} // verus!

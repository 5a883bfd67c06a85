//! The XML events that feeds are read as.
//!
//! Tokenizing XML is quick-xml's work; each event it produces is carried
//! over into the plain [`XmlEvent`] that the feed parser consumes. The
//! events of a document are named by the document and their number,
//! [`xml_event_at`], and [`read_xml_events`] states that it reads them in
//! order up to the first end of input or error.

use vstd::prelude::*;
use quick_xml::events::BytesStart;
use quick_xml::events::Event::{CData, Empty, End, Eof, Start, Text};
use quick_xml::Reader;

verus! {

#[verifier::external_type_specification]
#[verifier::external_body]
#[verifier::reject_recursive_types(R)]
pub struct ExXmlReader<R>(Reader<R>);

#[verifier::external_type_specification]
#[verifier::external_body]
pub struct ExBytesStart<'a>(BytesStart<'a>);

/// One attribute of a start tag, key and raw value.
pub struct XmlAttribute {
    pub key: String,
    pub value: String,
}

/// One event of an XML document.
pub enum XmlEvent {
    /// A start tag, or an empty-element tag. Each attribute that does not
    /// parse is `None`.
    Start { name: String, attributes: Vec<Option<XmlAttribute>> },
    /// An end tag.
    End { name: String },
    /// Character data; `None` when its entities do not unescape.
    Text { text: Option<String> },
    /// A CDATA section.
    CData { data: String },
    /// Comments, declarations, processing instructions, doctypes.
    Other,
    /// The end of the document.
    Eof,
    /// A syntax error, with quick-xml's description of it.
    Error { message: String },
}

/// An event as plain values: names and texts as character sequences, an
/// attribute as its key and value.
pub enum XmlEventView {
    Start { name: Seq<char>, attributes: Seq<Option<(Seq<char>, Seq<char>)>> },
    End { name: Seq<char> },
    Text { text: Option<Seq<char>> },
    CData { data: Seq<char> },
    Other,
    Eof,
    Error { message: Seq<char> },
}

/// An attribute as its key and value.
pub open spec fn attribute_view(a: Option<XmlAttribute>) -> Option<(Seq<char>, Seq<char>)> {
    match a {
        Some(x) => Some((x.key@, x.value@)),
        None => None,
    }
}

impl View for XmlEvent {
    type V = XmlEventView;

    open spec fn view(&self) -> XmlEventView {
        match self {
            XmlEvent::Start { name, attributes } => XmlEventView::Start {
                name: name@,
                attributes: attributes@.map_values(|a: Option<XmlAttribute>| attribute_view(a)),
            },
            XmlEvent::End { name } => XmlEventView::End { name: name@ },
            XmlEvent::Text { text } => XmlEventView::Text {
                text: match text {
                    Some(t) => Some(t@),
                    None => None,
                },
            },
            XmlEvent::CData { data } => XmlEventView::CData { data: data@ },
            XmlEvent::Other => XmlEventView::Other,
            XmlEvent::Eof => XmlEventView::Eof,
            XmlEvent::Error { message } => XmlEventView::Error { message: message@ },
        }
    }
}

/// The event that quick-xml's reader, made over the document with
/// `Reader::from_str`, hands out on its `k`-th call of `read_event`
/// (counting from zero).
pub uninterp spec fn xml_event_at(doc: Seq<char>, k: int) -> XmlEventView;

/// Whether the event ends the reading: the end of input or an error.
pub open spec fn is_terminal(ev: XmlEvent) -> bool {
    ev is Eof || ev is Error
}

/// Whether the events are the first ones the reader hands out over the
/// document, in order.
pub open spec fn read_from(doc: Seq<char>, evs: Seq<XmlEvent>) -> bool {
    forall|k: int| 0 <= k < evs.len() ==> #[trigger] evs[k]@ == xml_event_at(doc, k)
}

/// Whether the reading stopped where it should: at the first end of input
/// or error, or, failing one, after `limit + 1` events.
pub open spec fn reading_stopped(evs: Seq<XmlEvent>, limit: nat) -> bool {
    &&& evs.len() >= 1
    &&& forall|k: int| 0 <= k < evs.len() - 1 ==> !is_terminal(#[trigger] evs[k])
    &&& (is_terminal(evs.last()) || evs.len() == limit + 1)
}

/// A reader over a document, with the text it reads, the number of events
/// it has handed out, and a start tag it has read but not yet handed out.
/// The fields are private to this module: a cursor is made by
/// [`XmlCursor::new`] and moved on only by [`XmlCursor::advance`], which
/// hands out the kept start tag at once and counts each event.
struct XmlCursor<'a> {
    reader: Reader<&'a [u8]>,
    text: &'a str,
    read: u128,
    tag: Option<BytesStart<'a>>,
}

/// `Reader::from_str`: a reader at the start of the text.
#[verifier::external_body]
fn open_reader<'a>(xml: &'a str) -> Reader<&'a [u8]> {
    Reader::from_str(xml)
}

/// `Reader::read_event` on the cursor's reader, which was made over the
/// cursor's text and has handed out `read` events before (no start tag is
/// kept back), so this is the event with that number. A start tag (or empty-element tag) is kept in
/// the cursor and `None` returned; any other event is converted: names
/// and raw data as text with invalid UTF-8 replaced, character data
/// unescaped (`None` where that fails), an error as quick-xml's
/// description. The text and the count are left as they are.
#[verifier::external_body]
fn read_event<'a>(cur: &mut XmlCursor<'a>) -> (r: Option<XmlEvent>)
    requires
        old(cur).tag is None,
    ensures
        r matches Some(ev) ==> ev@ == xml_event_at(old(cur).text@, old(cur).read as int),
        r is None ==> xml_event_at(old(cur).text@, old(cur).read as int) is Start,
        final(cur).tag is Some <==> r is None,
        final(cur).text == old(cur).text,
        final(cur).read == old(cur).read,
{
    let s = |b: &[u8]| String::from_utf8_lossy(b).into_owned();
    Some(match cur.reader.read_event() {
        Ok(Start(e) | Empty(e)) => {
            cur.tag = Some(e);
            return None;
        },
        Ok(End(e)) => XmlEvent::End { name: s(e.name().0) },
        Ok(Text(e)) => XmlEvent::Text { text: e.unescape().ok().map(String::from) },
        Ok(CData(e)) => XmlEvent::CData { data: s(&e) },
        Ok(Eof) => XmlEvent::Eof,
        Ok(_) => XmlEvent::Other,
        Err(e) => XmlEvent::Error { message: e.to_string() },
    })
}

/// `BytesStart::name` and `BytesStart::attributes` on the start tag that
/// the cursor keeps, which is the event with number `read`: its name, and
/// each attribute's key and raw value, as text with invalid UTF-8
/// replaced, or none for an attribute that does not parse. The tag leaves
/// the cursor; the text and the count are left as they are.
#[verifier::external_body]
fn take_start_tag<'a>(cur: &mut XmlCursor<'a>) -> (r: XmlEvent)
    requires
        old(cur).tag is Some,
    ensures
        r@ == xml_event_at(old(cur).text@, old(cur).read as int),
        final(cur).tag is None,
        final(cur).text == old(cur).text,
        final(cur).read == old(cur).read,
{
    let s = |b: &[u8]| String::from_utf8_lossy(b).into_owned();
    let e = cur.tag.take().unwrap();
    XmlEvent::Start {
        name: s(e.name().0),
        attributes: e.attributes().map(|a| a.ok().map(|a| XmlAttribute { key: s(a.key.0), value: s(&a.value) })).collect(),
    }
}

impl<'a> XmlCursor<'a> {
    /// A cursor at the start of the document.
    fn new(xml: &'a str) -> (c: XmlCursor<'a>)
        ensures
            c.text@ == xml@,
            c.read == 0,
            c.tag is None,
    {
        XmlCursor { reader: open_reader(xml), text: xml, read: 0, tag: None }
    }

    /// Reads the next event and counts it.
    fn advance(&mut self) -> (r: XmlEvent)
        requires
            old(self).read < u128::MAX,
            old(self).tag is None,
        ensures
            r@ == xml_event_at(old(self).text@, old(self).read as int),
            final(self).text == old(self).text,
            final(self).read == old(self).read + 1,
            final(self).tag is None,
    {
        let r = match read_event(self) {
            Some(ev) => ev,
            None => take_start_tag(self),
        };
        self.read = self.read + 1;
        r
    }
}

impl XmlEvent {
    /// Whether the event ends the reading.
    pub fn ends_reading(&self) -> (r: bool)
        ensures
            r == is_terminal(*self),
    {
        match self {
            XmlEvent::Eof => true,
            XmlEvent::Error { .. } => true,
            _ => false,
        }
    }
}

/// The events of a document, up to and including the first end of input
/// or error.
///
/// Each event other than the end of input takes at least one byte of the
/// text, so the end comes within `len + 1` reads; the loop counts them
/// down to make that bound explicit.
pub fn read_xml_events(xml: &str) -> (evs: Vec<XmlEvent>)
    ensures
        read_from(xml@, evs@),
        reading_stopped(evs@, xml.len() as nat),
{
    let mut cur = XmlCursor::new(xml);
    let mut evs: Vec<XmlEvent> = Vec::new();
    let mut budget: usize = xml.len();
    loop
        invariant_except_break
            cur.text@ == xml@,
            cur.read == evs.len(),
            cur.tag is None,
            evs.len() + budget == xml.len(),
            read_from(xml@, evs@),
            forall|k: int| 0 <= k < evs.len() ==> !is_terminal(#[trigger] evs@[k]),
        ensures
            read_from(xml@, evs@),
            reading_stopped(evs@, xml.len() as nat),
        decreases budget,
    {
        let ev = cur.advance();
        let done = ev.ends_reading();
        let ghost before = evs@;
        evs.push(ev);
        proof {
            assert(evs@ == before.push(ev));
            assert(read_from(xml@, evs@));
        }
        if done || budget == 0 {
            break;
        }
        budget = budget - 1;
    }
    evs
}

} // verus!

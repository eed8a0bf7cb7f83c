//! The XML events the block extraction consumes, and the calls into
//! `quick-xml` that produce them.

use vstd::prelude::*;
use quick_xml::events::Event;
use quick_xml::Reader;

verus! {

#[verifier::external_type_specification]
#[verifier::external_body]
#[verifier::reject_recursive_types(R)]
pub struct ExXmlReader<R>(Reader<R>);

/// One event of the XML reader, as the block extraction sees it.
pub enum XmlEvent {
    /// A start tag, with its raw (qualified) name.
    Start(Vec<u8>),
    /// An end tag, with its raw (qualified) name.
    End(Vec<u8>),
    /// Character data, still escaped; `None` where its bytes are not UTF-8.
    Text(Option<String>),
    /// The end of the document.
    Eof,
    /// A syntax error, with the reader's description of it.
    Error(String),
    /// Any other event: empty elements, CDATA, comments, declarations,
    /// processing instructions, doctype.
    Other,
}

/// The value of an event: tag names as bytes, text as characters.
pub enum XmlEventView {
    Start(Seq<u8>),
    End(Seq<u8>),
    Text(Option<Seq<char>>),
    Eof,
    Error(Seq<char>),
    Other,
}

impl View for XmlEvent {
    type V = XmlEventView;

    open spec fn view(&self) -> XmlEventView {
        match self {
            XmlEvent::Start(n) => XmlEventView::Start(n@),
            XmlEvent::End(n) => XmlEventView::End(n@),
            XmlEvent::Text(t) => XmlEventView::Text(
                match t {
                    Some(s) => Some(s@),
                    None => None,
                },
            ),
            XmlEvent::Eof => XmlEventView::Eof,
            XmlEvent::Error(m) => XmlEventView::Error(m@),
            XmlEvent::Other => XmlEventView::Other,
        }
    }
}

/// The values of a sequence of events.
pub open spec fn events_view(s: Seq<XmlEvent>) -> Seq<XmlEventView> {
    s.map_values(|e: XmlEvent| e@)
}

/// An event after which the reader has nothing more to say.
pub open spec fn is_terminal(e: XmlEventView) -> bool {
    e is Eof || e is Error
}

/// The events that a `quick_xml::Reader` made by `Reader::from_str(source)`
/// delivers from `read_event`, converted as `xml_next_event` converts them,
/// up to and including the first end of document or error.
pub uninterp spec fn xml_events_of(source: Seq<char>) -> Seq<XmlEventView>;

/// The events that `reader` still has to deliver, up to and including the
/// first end of document or error.
pub uninterp spec fn xml_pending(reader: Reader<&[u8]>) -> Seq<XmlEventView>;

/// The values of `Reader::buffer_position` on a reader made by
/// `Reader::from_str(source)`, each taken right after `read_event` has
/// delivered the corresponding event of `xml_events_of(source)`.
pub uninterp spec fn xml_event_positions(source: Seq<char>) -> Seq<u64>;

/// The values that `Reader::buffer_position` will have right after `reader`
/// delivers each of its pending events.
pub uninterp spec fn xml_pending_positions(reader: Reader<&[u8]>) -> Seq<u64>;

/// What `Reader::buffer_position` gives on `reader`.
pub uninterp spec fn xml_buffer_position(reader: Reader<&[u8]>) -> u64;

/// What `quick_xml::escape::unescape` gives for `raw`: `None` where it
/// reports an error.
pub uninterp spec fn xml_unescape_result(raw: Seq<char>) -> Option<Seq<char>>;

/// Calls `quick_xml::Reader::from_str`. The contract claims that the events
/// the reader has to deliver are the named events of `source`: the reader's
/// default configuration is fixed, so they depend on `source` alone; reading
/// consumes the input, so they reach an end of document or an error, and
/// that event is their last.
#[verifier::external_body]
pub(crate) fn xml_reader<'a>(source: &'a str) -> (r: Reader<&'a [u8]>)
    ensures
        xml_pending(r) == xml_events_of(source@),
        xml_pending(r).len() > 0,
        is_terminal(xml_pending(r).last()),
        forall|i: int| 0 <= i < xml_pending(r).len() - 1 ==> !is_terminal(#[trigger] xml_pending(r)[i]),
        xml_pending_positions(r) == xml_event_positions(source@),
        xml_pending_positions(r).len() == xml_pending(r).len(),
{
    Reader::from_str(source)
}

/// Calls `Reader::read_event` and converts the event: tag names to their
/// bytes, text content to a `String` (`None` where it is not UTF-8), an error
/// to its `Debug` text. The contract claims that, while the reader has events
/// to deliver, the event is the first of them and the reader is left with the
/// rest, its buffer position then being the one that went with that event.
#[verifier::external_body]
pub(crate) fn xml_next_event(reader: &mut Reader<&[u8]>) -> (e: XmlEvent)
    ensures
        xml_pending(*old(reader)).len() > 0 ==> e@ == xml_pending(*old(reader))[0],
        xml_pending(*old(reader)).len() > 0 ==> xml_pending(*final(reader)) == xml_pending(
            *old(reader),
        ).drop_first(),
        xml_pending(*old(reader)).len() > 0 ==> xml_pending_positions(*final(reader))
            == xml_pending_positions(*old(reader)).drop_first(),
        xml_pending(*old(reader)).len() > 0 ==> xml_buffer_position(*final(reader))
            == xml_pending_positions(*old(reader))[0],
{
    match reader.read_event() {
        Ok(Event::Start(e)) => XmlEvent::Start(e.name().as_ref().to_vec()),
        Ok(Event::End(e)) => XmlEvent::End(e.name().as_ref().to_vec()),
        Ok(Event::Text(e)) => XmlEvent::Text(String::from_utf8(e.to_vec()).ok()),
        Ok(Event::Eof) => XmlEvent::Eof,
        Ok(Event::Empty(_)) | Ok(Event::CData(_)) | Ok(Event::Comment(_)) => XmlEvent::Other,
        Ok(Event::Decl(_)) | Ok(Event::PI(_)) | Ok(Event::DocType(_)) => XmlEvent::Other,
        Err(e) => XmlEvent::Error(format!("{:?}", e)),
    }
}

/// Calls `Reader::buffer_position`; the contract claims that the answer is
/// the named position of `reader`.
#[verifier::external_body]
pub(crate) fn xml_position(reader: &Reader<&[u8]>) -> (p: u64)
    ensures
        p == xml_buffer_position(*reader),
{
    reader.buffer_position()
}

/// Calls `quick_xml::escape::unescape`, which replaces the predefined XML
/// entities and character references of `raw`; the contract claims that the
/// outcome is the named result, and, as the source shows, that text without
/// any `&` comes back unchanged. An error is turned into its `Display` text.
#[verifier::external_body]
pub(crate) fn xml_unescape(raw: &str) -> (r: Result<String, String>)
    ensures
        r is Err <==> xml_unescape_result(raw@) is None,
        r matches Ok(s) ==> xml_unescape_result(raw@) == Some(s@),
        r matches Ok(s) ==> (s@ == raw@ || raw@.contains('\u{26}')),
        r is Ok || raw@.contains('\u{26}'),
{
    match quick_xml::escape::unescape(raw) {
        Ok(s) => Ok(s.into_owned()),
        Err(e) => Err(e.to_string()),
    }
}

} // verus!

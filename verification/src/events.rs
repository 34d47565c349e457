//! The events that the markup of a filing is read as, and the reader that
//! produces them.

use quick_xml::events::Event;
use quick_xml::Reader;
use vstd::prelude::*;

verus! {

/// One attribute of a start tag as written: the bytes of its key and of its
/// value, or nothing where the attribute is malformed.
pub type RawAttribute = Option<(Vec<u8>, Vec<u8>)>;

/// What one step of reading the markup found.
#[derive(Debug)]
pub enum XmlToken {
    /// A start tag: the bytes of its name and its attributes in the order
    /// written. The reader gives a self-closing tag as a start tag with an
    /// end tag after it.
    Start { name: Vec<u8>, attributes: Vec<RawAttribute> },
    /// Character data between tags, without the white space around it.
    Text { content: Vec<u8> },
    /// An end tag.
    End,
    /// The end of the input.
    Eof,
    /// Markup that carries no element: a CDATA section, a comment, a
    /// declaration, a processing instruction, a document type.
    Other,
    /// Markup that could not be read.
    Malformed,
}

/// A token together with the offset in the input at which reading stood after
/// it.
#[derive(Debug)]
pub struct XmlEvent {
    pub token: XmlToken,
    pub position: usize,
}

/// What a [`RawAttribute`] holds.
pub type AttributeModel = Option<(Seq<u8>, Seq<u8>)>;

/// What an [`XmlToken`] holds, as mathematical values.
pub enum TokenModel {
    Start { name: Seq<u8>, attributes: Seq<AttributeModel> },
    Text { content: Seq<u8> },
    End,
    Eof,
    Other,
    Malformed,
}

/// What an [`XmlEvent`] holds, as mathematical values.
pub struct EventModel {
    pub token: TokenModel,
    pub position: usize,
}

/// The bytes of one attribute.
pub open spec fn attribute_view(attribute: RawAttribute) -> AttributeModel {
    match attribute {
        Some((key, value)) => Some((key@, value@)),
        None => None,
    }
}

/// The bytes of the attributes of a start tag.
pub open spec fn attributes_view(attributes: Seq<RawAttribute>) -> Seq<AttributeModel> {
    attributes.map_values(|a: RawAttribute| attribute_view(a))
}

impl View for XmlToken {
    type V = TokenModel;

    open spec fn view(&self) -> TokenModel {
        match *self {
            XmlToken::Start { name, attributes } => TokenModel::Start {
                name: name@,
                attributes: attributes_view(attributes@),
            },
            XmlToken::Text { content } => TokenModel::Text { content: content@ },
            XmlToken::End => TokenModel::End,
            XmlToken::Eof => TokenModel::Eof,
            XmlToken::Other => TokenModel::Other,
            XmlToken::Malformed => TokenModel::Malformed,
        }
    }
}

impl View for XmlEvent {
    type V = EventModel;

    open spec fn view(&self) -> EventModel {
        EventModel { token: self.token@, position: self.position }
    }
}

impl TokenModel {
    /// Whether reading stops at this token.
    pub open spec fn is_last(self) -> bool {
        self is Eof || self is Malformed
    }
}

/// The sequence is not empty and reading stops at its last event.
pub open spec fn ends_reading(events: Seq<EventModel>) -> bool {
    events.len() > 0 && events.last().token.is_last()
}

/// `quick_xml::Reader`: a value that the crate carries from call to call and
/// never looks into.
#[verifier::external_type_specification]
#[verifier::external_body]
#[verifier::reject_recursive_types(R)]
pub struct ExReader<R>(Reader<R>);

/// The events that a reader gives for a document when it trims text and
/// reads a self-closing tag as a start tag with an end tag after it: from the
/// start of the document up to and including the first end of input or the
/// first malformed piece of markup.
pub uninterp spec fn xml_events(content: Seq<char>) -> Seq<EventModel>;

/// The events that a reader has yet to give, up to and including the first
/// end of input or the first malformed piece of markup.
pub uninterp spec fn pending_events(reader: Reader<&[u8]>) -> Seq<EventModel>;

/// `quick_xml::Reader::from_str`, with `trim_text(true)` and
/// `expand_empty_elements(true)`: a reader at the start of `content` that
/// trims text and gives every self-closing tag as a start event followed by
/// an end event.
///
/// Assumed, not proved: what the reader will give is a function of `content`
/// alone, and its events end with an end of input or with malformed markup,
/// because the reader consumes some of the input with every other event but
/// the end event of a self-closing tag, which follows a start event that
/// did.
#[verifier::external_body]
pub(crate) fn open_reader<'a>(content: &'a str) -> (reader: Reader<&'a [u8]>)
    ensures
        pending_events(reader) == xml_events(content@),
        ends_reading(pending_events(reader)),
{
    let mut reader = Reader::from_str(content);
    reader.trim_text(true);
    reader.expand_empty_elements(true);
    reader
}

/// `quick_xml::Reader::read_event`, with `buffer_position` after it: the next
/// event, copied out of the input. A reader error becomes `Malformed`, an
/// attribute that the attribute iterator rejects becomes `None`. The reader
/// that `open_reader` makes gives no event for a self-closing tag as such, so
/// `Other` stands for no element.
///
/// Assumed, not proved: the event is the first of those that were pending,
/// and the others are pending after it.
#[verifier::external_body]
pub(crate) fn next_event(reader: &mut Reader<&[u8]>) -> (event: XmlEvent)
    ensures
        pending_events(*old(reader)).len() > 0 ==> event@ == pending_events(*old(reader)).first()
            && pending_events(*final(reader)) == pending_events(*old(reader)).drop_first(),
{
    let token = match reader.read_event() {
        Ok(Event::Start(e)) => XmlToken::Start {
            name: e.name().as_ref().to_vec(),
            attributes: e
                .attributes()
                .map(|a| a.ok().map(|a| (a.key.as_ref().to_vec(), a.value.to_vec())))
                .collect(),
        },
        Ok(Event::Text(e)) => XmlToken::Text { content: e.to_vec() },
        Ok(Event::End(_)) => XmlToken::End,
        Ok(Event::Eof) => XmlToken::Eof,
        Ok(_) => XmlToken::Other,
        Err(_) => XmlToken::Malformed,
    };
    XmlEvent { token, position: reader.buffer_position() }
}

} // verus!

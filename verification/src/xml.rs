//! The events of a document, as the markup reader yields them.
use crate::value::{is_word, text_view};
use quick_xml::events::attributes::{Attribute, Attributes};
use quick_xml::events::{BytesText, Event};
use quick_xml::Reader;
use vstd::prelude::*;
use vstd::string::StringSliceAdditionalSpecFns;

verus! {

/// A markup reader at some point of the document it was opened on.  The
/// reader's type takes its input through a trait that the verifier does not
/// know, so the reader is kept out of the verifier's sight.
#[verifier::external_body]
pub struct EventReader<'a> {
    inner: Reader<&'a [u8]>,
}

/// One event as the reader hands it out: names, attribute text and character
/// data are the bytes of the document, not yet interpreted.
pub enum RawEvent {
    /// An opening tag: its name and the text that follows the name.
    Start { name: Vec<u8>, attributes: Vec<u8> },
    /// A closing tag.
    End { name: Vec<u8> },
    /// Character data, still escaped.
    Text { content: Vec<u8> },
    /// The end of the document.
    Eof,
    /// A comment, a declaration or another event without meaning here.
    Other,
    /// The reader found the markup broken.
    Malformed,
}

/// What a [`RawEvent`] holds.
pub enum RawEventView {
    Start { name: Seq<u8>, attributes: Seq<u8> },
    End { name: Seq<u8> },
    Text { content: Seq<u8> },
    Eof,
    Other,
    Malformed,
}

impl View for RawEvent {
    type V = RawEventView;

    open spec fn view(&self) -> RawEventView {
        match self {
            RawEvent::Start { name, attributes } => RawEventView::Start {
                name: name@,
                attributes: attributes@,
            },
            RawEvent::End { name } => RawEventView::End { name: name@ },
            RawEvent::Text { content } => RawEventView::Text { content: content@ },
            RawEvent::Eof => RawEventView::Eof,
            RawEvent::Other => RawEventView::Other,
            RawEvent::Malformed => RawEventView::Malformed,
        }
    }
}

/// The bytes a reader was opened on.
pub uninterp spec fn reader_source(reader: &EventReader) -> Seq<u8>;

/// The number of events a reader has handed out.
pub uninterp spec fn reader_step(reader: &EventReader) -> nat;

/// Whether a reader trims white space around character data.
pub uninterp spec fn reader_trims_text(reader: &EventReader) -> bool;

/// Whether a reader splits a self-closing tag into an opening and a closing tag.
pub uninterp spec fn reader_expands_empty(reader: &EventReader) -> bool;

/// The event with index `step` that a reader over `source` hands out, given
/// how it was set up before its first event.
pub uninterp spec fn xml_event_at(
    source: Seq<u8>,
    trims_text: bool,
    expands_empty: bool,
    step: nat,
) -> RawEventView;

/// `quick_xml::Reader::from_reader` on a byte slice: a reader at the start of
/// `bytes`, with both settings off as the constructor leaves them.
#[verifier::external_body]
fn open_reader(bytes: &[u8]) -> (reader: EventReader<'_>)
    ensures
        reader_source(&reader) == bytes@,
        reader_step(&reader) == 0,
        !reader_trims_text(&reader),
        !reader_expands_empty(&reader),
{
    EventReader { inner: Reader::from_reader(bytes) }
}

/// `quick_xml::Reader::trim_text`: sets whether character data is trimmed.
/// Only a reader that has handed out no event is set up.
#[verifier::external_body]
fn set_trim_text(reader: &mut EventReader, on: bool)
    requires
        reader_step(old(reader)) == 0,
    ensures
        reader_trims_text(final(reader)) == on,
        reader_source(final(reader)) == reader_source(old(reader)),
        reader_step(final(reader)) == 0,
        reader_expands_empty(final(reader)) == reader_expands_empty(old(reader)),
{
    reader.inner.trim_text(on);
}

/// `quick_xml::Reader::expand_empty_elements`: sets whether a self-closing
/// tag comes out as an opening and a closing tag.
#[verifier::external_body]
fn set_expand_empty(reader: &mut EventReader, on: bool)
    requires
        reader_step(old(reader)) == 0,
    ensures
        reader_expands_empty(final(reader)) == on,
        reader_source(final(reader)) == reader_source(old(reader)),
        reader_step(final(reader)) == 0,
        reader_trims_text(final(reader)) == reader_trims_text(old(reader)),
{
    reader.inner.expand_empty_elements(on);
}

/// `quick_xml::Reader::read_event`: the next event, copied out of the
/// reader's buffer.  The reader works through its source in one direction,
/// so the event is the one its source, its settings and the count of events
/// before it determine.
#[verifier::external_body]
fn next_event(reader: &mut EventReader) -> (event: RawEvent)
    ensures
        event@ == xml_event_at(
            reader_source(old(reader)),
            reader_trims_text(old(reader)),
            reader_expands_empty(old(reader)),
            reader_step(old(reader)),
        ),
        reader_source(final(reader)) == reader_source(old(reader)),
        reader_trims_text(final(reader)) == reader_trims_text(old(reader)),
        reader_expands_empty(final(reader)) == reader_expands_empty(old(reader)),
        reader_step(final(reader)) == reader_step(old(reader)) + 1,
{
    let mut buf = Vec::new();
    match reader.inner.read_event(&mut buf) {
        Ok(Event::Start(e)) => RawEvent::Start {
            name: e.name().to_vec(),
            attributes: e.attributes_raw().to_vec(),
        },
        Ok(Event::End(e)) => RawEvent::End { name: e.name().to_vec() },
        Ok(Event::Text(t)) => RawEvent::Text { content: t.escaped().to_vec() },
        Ok(Event::Eof) => RawEvent::Eof,
        Ok(_) => RawEvent::Other,
        Err(_) => RawEvent::Malformed,
    }
}

/// One attribute of an opening tag, as written: the value is neither
/// unescaped nor interpreted.
#[derive(Clone, Debug, PartialEq, Eq)]
pub struct XmlAttribute {
    pub key: Vec<u8>,
    pub value: Vec<u8>,
}

/// What an [`XmlAttribute`] holds.
pub struct AttributeView {
    pub key: Seq<u8>,
    pub value: Seq<u8>,
}

impl View for XmlAttribute {
    type V = AttributeView;

    open spec fn view(&self) -> AttributeView {
        AttributeView { key: self.key@, value: self.value@ }
    }
}

/// What a list of attributes holds.
pub open spec fn attribute_list_view(list: Seq<XmlAttribute>) -> Seq<AttributeView> {
    list.map_values(|attribute: XmlAttribute| attribute@)
}

/// What an attribute list holds, where there is one.
pub open spec fn attributes_view(list: Option<Vec<XmlAttribute>>) -> Option<Seq<AttributeView>> {
    match list {
        Some(list) => Some(attribute_list_view(list@)),
        None => None,
    }
}

/// One event of a document.
#[derive(Clone, Debug, PartialEq, Eq)]
pub enum XmlEvent {
    /// An opening tag with its attributes in the order written; `None`
    /// where the attribute list does not parse.  A self-closing tag is an
    /// opening tag followed by a closing tag.
    Start { name: Vec<u8>, attributes: Option<Vec<XmlAttribute>> },
    /// A closing tag.
    End { name: Vec<u8> },
    /// Character data, unescaped; `None` where the data is not valid
    /// escaped UTF-8.
    Text { content: Option<String> },
    /// The end of the document.
    Eof,
    /// A comment, a declaration or another event without meaning here.
    Other,
    /// The markup is broken at this point.
    Malformed,
}

/// What an [`XmlEvent`] holds.
pub enum EventView {
    Start { name: Seq<u8>, attributes: Option<Seq<AttributeView>> },
    End { name: Seq<u8> },
    Text { content: Option<Seq<char>> },
    Eof,
    Other,
    Malformed,
}

impl View for XmlEvent {
    type V = EventView;

    open spec fn view(&self) -> EventView {
        match self {
            XmlEvent::Start { name, attributes } => EventView::Start {
                name: name@,
                attributes: attributes_view(*attributes),
            },
            XmlEvent::End { name } => EventView::End { name: name@ },
            XmlEvent::Text { content } => EventView::Text { content: text_view(*content) },
            XmlEvent::Eof => EventView::Eof,
            XmlEvent::Other => EventView::Other,
            XmlEvent::Malformed => EventView::Malformed,
        }
    }
}

/// What a list of events holds.
pub open spec fn events_view(events: Seq<XmlEvent>) -> Seq<EventView> {
    events.map_values(|event: XmlEvent| event@)
}

/// The attributes that the text after a tag's name writes, in order, or
/// nothing where the text is no well-formed attribute list.
pub uninterp spec fn xml_attributes(text: Seq<u8>) -> Option<Seq<AttributeView>>;

/// The characters that escaped character data stands for, or nothing where
/// an escape is broken or the data is not UTF-8.
pub uninterp spec fn xml_text(content: Seq<u8>) -> Option<Seq<char>>;

/// `quick_xml::events::attributes::Attributes::new` and the iterator it
/// returns, run to its end: every attribute of the text with its key and
/// its raw value, or nothing once the iterator reports an error.
#[verifier::external_body]
fn parse_attributes(text: &[u8]) -> (list: Option<Vec<XmlAttribute>>)
    ensures
        attributes_view(list) == xml_attributes(text@),
{
    let owned = |a: Attribute| XmlAttribute { key: a.key.to_vec(), value: a.value.into_owned() };
    Attributes::new(text, 0).map(|item| item.ok().map(owned)).collect()
}

/// `quick_xml::events::BytesText::unescape_and_decode_without_bom`: the
/// text that escaped character data stands for, or nothing where the call
/// reports an error.  The reader is only handed through; the call reads
/// nothing of it.
#[verifier::external_body]
fn unescape_text(reader: &EventReader, content: &[u8]) -> (text: Option<String>)
    ensures
        text_view(text) == xml_text(content@),
{
    BytesText::from_escaped(content).unescape_and_decode_without_bom(&reader.inner).ok()
}

/// The event that a raw event stands for, once its attribute text is parsed
/// and its character data unescaped.
pub open spec fn cooked(raw: RawEventView) -> EventView {
    match raw {
        RawEventView::Start { name, attributes } => EventView::Start {
            name,
            attributes: xml_attributes(attributes),
        },
        RawEventView::End { name } => EventView::End { name },
        RawEventView::Text { content } => EventView::Text { content: xml_text(content) },
        RawEventView::Eof => EventView::Eof,
        RawEventView::Other => EventView::Other,
        RawEventView::Malformed => EventView::Malformed,
    }
}

/// Whether nothing is read after this event.
pub open spec fn is_last(event: EventView) -> bool {
    event is Eof || event is Malformed
}

/// A bound on the number of events that is read of a document.  The reader
/// takes at least one byte for a tag or a run of character data and gives
/// at most two events for it, so no document reaches the bound; it is there
/// so that the reading is seen to end.
pub open spec fn event_limit(bytes: Seq<u8>) -> nat {
    2 * bytes.len() + 2
}

/// The events with index `step` and above of the document `bytes`, up to
/// the first that ends the reading, and fewer than `limit` in all.
pub open spec fn events_from(bytes: Seq<u8>, step: nat, limit: nat) -> Seq<EventView>
    decreases limit - step,
{
    if step >= limit {
        Seq::empty()
    } else {
        let event = cooked(xml_event_at(bytes, true, true, step));
        if is_last(event) {
            seq![event]
        } else {
            seq![event] + events_from(bytes, step + 1, limit)
        }
    }
}

/// The events of the document `bytes`: character data trimmed, self-closing
/// tags split in two, up to the end of the document or the first place at
/// which the markup is broken.
pub open spec fn document_events(bytes: Seq<u8>) -> Seq<EventView> {
    events_from(bytes, 0, event_limit(bytes))
}

/// Parses the attribute text and unescapes the character data of a raw
/// event.
fn cook(reader: &EventReader, raw: RawEvent) -> (event: XmlEvent)
    ensures
        event@ == cooked(raw@),
{
    match raw {
        RawEvent::Start { name, attributes } => {
            let list = parse_attributes(attributes.as_slice());
            XmlEvent::Start { name, attributes: list }
        },
        RawEvent::End { name } => XmlEvent::End { name },
        RawEvent::Text { content } => {
            let text = unescape_text(reader, content.as_slice());
            XmlEvent::Text { content: text }
        },
        RawEvent::Eof => XmlEvent::Eof,
        RawEvent::Other => XmlEvent::Other,
        RawEvent::Malformed => XmlEvent::Malformed,
    }
}

/// Whether nothing is read after this event.
fn ends_reading(event: &XmlEvent) -> (last: bool)
    ensures
        last == is_last(event@),
{
    match event {
        XmlEvent::Eof => true,
        XmlEvent::Malformed => true,
        _ => false,
    }
}

/// Reads the events of a document.
///
/// The list ends with [`XmlEvent::Eof`] where the document was read to its
/// end, and with [`XmlEvent::Malformed`] where the reader gave up.
pub fn read_events(bytes: &[u8]) -> (events: Vec<XmlEvent>)
    ensures
        events_view(events@) == document_events(bytes@),
{
    let mut reader = open_reader(bytes);
    set_trim_text(&mut reader, true);
    set_expand_empty(&mut reader, true);
    let limit: u128 = 2 * (bytes.len() as u128) + 2;
    let mut step: u128 = 0;
    let mut events: Vec<XmlEvent> = Vec::new();
    let mut done = false;
    assert(events_view(events@) =~= Seq::<EventView>::empty());
    while !done && step < limit
        invariant
            reader_source(&reader) == bytes@,
            reader_trims_text(&reader),
            reader_expands_empty(&reader),
            reader_step(&reader) == step,
            step <= limit,
            limit == event_limit(bytes@),
            document_events(bytes@) == events_view(events@) + (if done {
                Seq::<EventView>::empty()
            } else {
                events_from(bytes@, step as nat, limit as nat)
            }),
        decreases limit - step,
    {
        let raw = next_event(&mut reader);
        let event = cook(&reader, raw);
        done = ends_reading(&event);
        proof {
            let before = events_view(events@);
            let after = events_view(events@.push(event));
            assert(after =~= before.push(event@));
            let rest = events_from(bytes@, step as nat, limit as nat);
            if done {
                assert(rest == seq![event@]);
                assert(before + rest =~= after + Seq::<EventView>::empty());
            } else {
                let next = events_from(bytes@, (step + 1) as nat, limit as nat);
                assert(rest == seq![event@] + next);
                assert(before + rest =~= after + next);
            }
        }
        events.push(event);
        step += 1;
    }
    proof {
        if !done {
            assert(events_from(bytes@, step as nat, limit as nat) =~= Seq::<EventView>::empty());
        }
        assert(events_view(events@) + Seq::<EventView>::empty() =~= events_view(events@));
    }
    events
}

/// The value of the first attribute of `list` with the key `key`.
pub open spec fn attribute_value(list: Seq<AttributeView>, key: Seq<u8>) -> Option<Seq<u8>>
    decreases list.len(),
{
    if list.len() == 0 {
        None
    } else if list[0].key == key {
        Some(list[0].value)
    } else {
        attribute_value(list.drop_first(), key)
    }
}

/// The contents of an optional byte string.
pub open spec fn value_view(value: Option<&Vec<u8>>) -> Option<Seq<u8>> {
    match value {
        Some(value) => Some(value@),
        None => None,
    }
}

/// Finds the value of the first attribute with the key that `key` spells.
pub fn find_attribute<'a>(list: &'a Vec<XmlAttribute>, key: &str) -> (value: Option<&'a Vec<u8>>)
    ensures
        value_view(value) == attribute_value(attribute_list_view(list@), key.spec_bytes()),
{
    let ghost all = attribute_list_view(list@);
    let mut i: usize = 0;
    assert(all.skip(0) =~= all);
    while i < list.len()
        invariant
            i <= list.len(),
            all == attribute_list_view(list@),
            attribute_value(all, key.spec_bytes()) == attribute_value(
                all.skip(i as int),
                key.spec_bytes(),
            ),
        decreases list.len() - i,
    {
        let ghost rest = all.skip(i as int);
        assert(rest[0] == list@[i as int]@);
        assert(rest.drop_first() =~= all.skip(i + 1));
        if is_word(list[i].key.as_slice(), key) {
            return Some(&list[i].value);
        }
        i += 1;
    }
    assert(all.skip(i as int).len() == 0);
    None
}

} // verus!

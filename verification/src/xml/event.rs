//! The events of an XML document, as `quick_xml` reports them.
use vstd::prelude::*;
use std::borrow::Cow;

use quick_xml::events::Event;

verus! {

#[verifier::external_type_specification]
#[verifier::external_body]
#[verifier::reject_recursive_types(R)]
pub struct ExReader<R>(quick_xml::Reader<R>);

/// One event of a document.
#[derive(Debug)]
pub enum XmlEvent {
    /// What stands between `<` and `>` of a start tag.
    Start(Vec<u8>),
    /// What stands between `<` and `/>` of an empty-element tag.
    Empty(Vec<u8>),
    /// The qualified name in an end tag.
    End(Vec<u8>),
    /// Character data or a CDATA section; `None` where it is not UTF-8.
    Text(Option<String>),
    /// The name between `&` and `;` of an entity or character reference.
    Reference(Vec<u8>),
    /// A comment, a processing instruction or a declaration.
    Other,
    Malformed,
}

/// What an [`XmlEvent`] holds.
pub enum EventView {
    Start(Seq<u8>),
    Empty(Seq<u8>),
    End(Seq<u8>),
    Text(Option<Seq<char>>),
    Reference(Seq<u8>),
    Other,
    Malformed,
}

/// What an optional string holds.
pub open spec fn opt_view(s: Option<String>) -> Option<Seq<char>> {
    match s {
        Some(t) => Some(t@),
        None => None,
    }
}

impl View for XmlEvent {
    type V = EventView;

    open spec fn view(&self) -> EventView {
        match *self {
            XmlEvent::Start(t) => EventView::Start(t@),
            XmlEvent::Empty(t) => EventView::Empty(t@),
            XmlEvent::End(n) => EventView::End(n@),
            XmlEvent::Text(t) => EventView::Text(opt_view(t)),
            XmlEvent::Reference(n) => EventView::Reference(n@),
            XmlEvent::Other => EventView::Other,
            XmlEvent::Malformed => EventView::Malformed,
        }
    }
}

/// Every outcome, before the end of the document, of reading a document
/// with a `quick_xml` reader in its default configuration.
pub uninterp spec fn xml_events(data: Seq<u8>) -> Seq<EventView>;

/// The outcomes that a reader has still to give before the end of its document.
pub uninterp spec fn unread(reader: quick_xml::Reader<&[u8]>) -> Seq<EventView>;

/// Whether bytes stand in a document, right behind a `<`.
pub open spec fn follows_bracket(data: Seq<u8>, content: Seq<u8>) -> bool {
    exists|k: int|
        0 < k <= data.len() - content.len() && data[k - 1] == 0x3C && #[trigger] data.subrange(
            k,
            k + content.len(),
        ) == content
}

/// Whether the content of each tag among events stands in a document, right
/// behind a `<`.
pub open spec fn tags_stand(data: Seq<u8>, events: Seq<EventView>) -> bool {
    forall|i: int|
        0 <= i < events.len() ==> match #[trigger] events[i] {
            EventView::Start(c) => follows_bracket(data, c),
            EventView::Empty(c) => follows_bracket(data, c),
            _ => true,
        }
}

/// `quick_xml::Reader::from_reader` on a byte slice: a reader at the start of
/// the document, with the default configuration. It reads a tag where it has
/// passed a `<`, and gives the bytes behind that as they stand in the document.
#[verifier::external_body]
fn open_reader<'a>(data: &'a [u8]) -> (r: quick_xml::Reader<&'a [u8]>)
    ensures
        unread(r) == xml_events(data@),
        tags_stand(data@, unread(r)),
{
    quick_xml::Reader::from_reader(data)
}

/// `quick_xml::Reader::read_event`: the next outcome, or `None` at the end of
/// the document and ever after. Text is taken from `xml_content`, which
/// decodes it and normalises its line ends.
#[verifier::external_body]
fn next_event<'a>(reader: &mut quick_xml::Reader<&'a [u8]>) -> (r: Option<XmlEvent>)
    ensures
        unread(*old(reader)).len() == 0 ==> r is None && unread(*final(reader)) == unread(
            *old(reader),
        ),
        unread(*old(reader)).len() > 0 ==> r is Some && r->0@ == unread(*old(reader))[0] && unread(
            *final(reader),
        ) == unread(*old(reader)).skip(1),
{
    Some(match reader.read_event() {
        Ok(Event::Eof) => return None,
        Ok(Event::Start(e)) => XmlEvent::Start(e.to_vec()),
        Ok(Event::Empty(e)) => XmlEvent::Empty(e.to_vec()),
        Ok(Event::End(e)) => XmlEvent::End(e.to_vec()),
        Ok(Event::Text(t)) => XmlEvent::Text(t.xml_content().map(Cow::into_owned).ok()),
        Ok(Event::CData(t)) => XmlEvent::Text(t.xml_content().map(Cow::into_owned).ok()),
        Ok(Event::GeneralRef(r)) => XmlEvent::Reference(r.to_vec()),
        Ok(_) => XmlEvent::Other,
        Err(_) => XmlEvent::Malformed,
    })
}

/// The outcomes up to and with the first failure.
pub open spec fn up_to_failure(events: Seq<EventView>) -> Seq<EventView>
    decreases events.len(),
{
    if events.len() == 0 || events[0] is Malformed {
        events.take(if events.len() == 0 { 0 } else { 1 })
    } else {
        seq![events[0]] + up_to_failure(events.skip(1))
    }
}

/// The outcomes up to the first failure are the first of all outcomes.
proof fn up_to_failure_is_first(events: Seq<EventView>)
    ensures
        up_to_failure(events).len() <= events.len(),
        forall|i: int|
            0 <= i < up_to_failure(events).len() ==> #[trigger] up_to_failure(events)[i]
                == events[i],
    decreases events.len(),
{
    if events.len() > 0 && !(events[0] is Malformed) {
        let rest = events.skip(1);
        up_to_failure_is_first(rest);
        let all = up_to_failure(events);
        assert forall|i: int| 0 <= i < all.len() implies #[trigger] all[i] == events[i] by {
            if i > 0 {
                assert(all[i] == up_to_failure(rest)[i - 1]);
            }
        }
    }
}

/// What a list of events holds.
pub open spec fn event_views(events: Seq<XmlEvent>) -> Seq<EventView> {
    events.map_values(|e: XmlEvent| e@)
}

/// Reads a document to its end, or to the first place where it is not
/// well-formed.
pub fn read_events(data: &[u8]) -> (r: Vec<XmlEvent>)
    ensures
        event_views(r@) == up_to_failure(xml_events(data@)),
        tags_stand(data@, event_views(r@)),
{
    let mut reader = open_reader(data);
    let mut out: Vec<XmlEvent> = Vec::new();
    let ghost all = xml_events(data@);
    proof {
        up_to_failure_is_first(all);
    }
    assert(tags_stand(data@, up_to_failure(all)));
    assert(event_views(out@) + up_to_failure(unread(reader)) =~= up_to_failure(all));
    loop
        invariant_except_break
            event_views(out@) + up_to_failure(unread(reader)) == up_to_failure(all),
        ensures
            event_views(out@) == up_to_failure(all),
        decreases unread(reader).len(),
    {
        let ghost before = unread(reader);
        match next_event(&mut reader) {
            None => {
                assert(up_to_failure(before) =~= Seq::<EventView>::empty());
                assert(event_views(out@) + Seq::<EventView>::empty() =~= event_views(out@));
                break;
            },
            Some(e) => {
                let stop: bool = matches!(e, XmlEvent::Malformed);
                let ghost shown = e@;
                let ghost was = event_views(out@);
                out.push(e);
                assert(event_views(out@) =~= was.push(shown));
                if stop {
                    assert(up_to_failure(before) =~= seq![shown]);
                    assert(was + seq![shown] =~= was.push(shown));
                    break;
                }
                assert(was + (seq![shown] + up_to_failure(before.skip(1))) =~= was.push(shown)
                    + up_to_failure(before.skip(1)));
            },
        }
    }
    out
}

} // verus!

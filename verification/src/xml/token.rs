//! Tokens: events with their names, attribute values and text decoded.
use vstd::prelude::*;
use vstd::utf8::{decode_utf8, encode_utf8, valid_utf8};
use std::rc::Rc;

use crate::scan::chars_of;
use crate::xml::event::{
    event_views, opt_view, read_events, tags_stand, up_to_failure, xml_events, EventView, XmlEvent,
};

verus! {

/// An attribute: its qualified name, and its value with the references in it
/// resolved. The value is `None` where a reference in it cannot be resolved.
#[derive(Debug)]
pub struct Attr {
    pub key: String,
    pub value: Option<String>,
}

/// A tag: its qualified name and its attributes. An attribute that is not
/// well-formed stands as `None`; a tag that is not UTF-8 has no name and one
/// such attribute.
#[derive(Debug)]
pub struct Tag {
    pub name: Option<String>,
    pub attributes: Vec<Option<Attr>>,
}

/// One token of a document.
#[derive(Debug)]
pub enum Token {
    Start(Rc<Tag>),
    Empty(Rc<Tag>),
    End,
    /// Text, or what a reference stands for; `None` where it cannot be decoded.
    Text(Option<String>),
    /// A comment, a processing instruction or a declaration.
    Skip,
    Malformed,
}

/// What `quick_xml::escape::unescape` gives for a string: every reference in
/// it replaced by what it stands for, or nothing where one is unknown or
/// unfinished.
pub uninterp spec fn unescaped(raw: Seq<char>) -> Option<Seq<char>>;

/// `quick_xml::escape::unescape`. A string without `&` is handed back as it is.
#[verifier::external_body]
fn unescape(raw: &str) -> (r: Option<String>)
    ensures
        opt_view(r) == unescaped(raw@),
        !raw@.contains('&') ==> opt_view(r) == Some(raw@),
{
    quick_xml::escape::unescape(raw).ok().map(|c| c.into_owned())
}

/// The attributes, with the qualified name and the raw value of each, that
/// `quick_xml` finds in the content of a tag behind its first `from` bytes.
/// With `checks` a name that was there before does not count as well-formed.
pub uninterp spec fn tag_attributes(content: Seq<char>, from: nat, checks: bool) -> Seq<
    Option<(Seq<char>, Seq<char>)>,
>;

/// What a list of raw attributes holds.
pub open spec fn raw_attributes(s: Seq<Option<(String, String)>>) -> Seq<
    Option<(Seq<char>, Seq<char>)>,
> {
    s.map_values(
        |a: Option<(String, String)>|
            match a {
                Some(x) => Some((x.0@, x.1@)),
                None => None,
            },
    )
}

/// `quick_xml::events::attributes::Attributes::new` and its iteration, with
/// the check for repeated names on or off. The iteration slices the content
/// behind its first `from` bytes, so it must have as many.
#[verifier::external_body]
pub(crate) fn read_attributes(content: &str, from: usize, checks: bool) -> (r: Vec<
    Option<(String, String)>,
>)
    requires
        from <= encode_utf8(content@).len(),
    ensures
        raw_attributes(r@) == tag_attributes(content@, from as nat, checks),
{
    let text = |b: &[u8]| String::from_utf8_lossy(b).into_owned();
    let mut attributes = quick_xml::events::attributes::Attributes::new(content, from);
    attributes.with_checks(checks).map(|a| a.ok().map(|a| (text(a.key.0), text(&a.value)))).collect()
}

/// `std::str::from_utf8`: the characters that a byte slice encodes, where it
/// is valid UTF-8.
#[verifier::external_body]
pub(crate) fn utf8_string(bytes: &[u8]) -> (r: Option<String>)
    ensures
        r is Some <==> valid_utf8(bytes@),
        r is Some ==> r->0@ == decode_utf8(bytes@),
{
    std::str::from_utf8(bytes).ok().map(|s| s.to_string())
}

/// White space as XML knows it.
pub open spec fn is_xml_space(c: char) -> bool {
    c == ' ' || c == '\r' || c == '\n' || c == '\t'
}

/// Whether a character is white space in XML.
pub fn xml_space(c: char) -> (r: bool)
    ensures
        r == is_xml_space(c),
{
    c == ' ' || c == '\r' || c == '\n' || c == '\t'
}

/// The length of the first word of a tag's content: the tag's name.
pub open spec fn name_len(content: Seq<char>) -> nat
    decreases content.len(),
{
    if content.len() == 0 || is_xml_space(content[0]) {
        0
    } else {
        1 + name_len(content.skip(1))
    }
}

/// The first word of a tag's content: the tag's name.
pub open spec fn tag_name(content: Seq<char>) -> Seq<char> {
    content.take(name_len(content) as int)
}

/// A tag's name is no longer than the tag's content, in characters and in bytes.
pub proof fn a_name_lies_in_its_tag(content: Seq<char>)
    ensures
        name_len(content) <= content.len(),
        encode_utf8(tag_name(content)).len() <= encode_utf8(content).len(),
    decreases content.len(),
{
    if content.len() > 0 && !is_xml_space(content[0]) {
        let rest = content.skip(1);
        a_name_lies_in_its_tag(rest);
        assert(content.drop_first() =~= rest);
        assert(tag_name(content)[0] == content[0]);
        assert(tag_name(content).drop_first() =~= tag_name(rest));
    } else {
        assert(tag_name(content) =~= Seq::empty());
    }
}

/// The tag's name.
pub(crate) fn read_tag_name(content: &str) -> (r: String)
    ensures
        r@ == tag_name(content@),
{
    let all: Vec<char> = chars_of(content);
    let n: usize = all.len();
    let mut k: usize = 0;
    assert(all@.skip(0) =~= all@);
    while k < n && !xml_space(all[k])
        invariant
            n == all@.len(),
            k <= n,
            name_len(all@) == k + name_len(all@.skip(k as int)),
        decreases n - k,
    {
        assert(all@.skip(k as int).skip(1) =~= all@.skip(k as int + 1));
        k = k + 1;
    }
    assert(name_len(all@) == k);
    assert(content@.subrange(0, k as int) =~= tag_name(content@));
    content.substring_char(0, k).to_owned()
}

/// Whether an attribute is what a raw attribute decodes to.
pub open spec fn attr_is(raw: Option<(Seq<char>, Seq<char>)>, a: Option<Attr>) -> bool {
    match (raw, a) {
        (None, None) => true,
        (Some(r), Some(x)) => x.key@ == r.0 && opt_view(x.value) == unescaped(r.1),
        _ => false,
    }
}

/// Whether a tag is what the content of a tag decodes to.
pub open spec fn tag_is(content: Seq<u8>, t: Tag) -> bool {
    if valid_utf8(content) {
        let s = decode_utf8(content);
        let raw = tag_attributes(s, encode_utf8(tag_name(s)).len(), false);
        &&& opt_view(t.name) == Some(tag_name(s))
        &&& t.attributes@.len() == raw.len()
        &&& forall|i: int| 0 <= i < raw.len() ==> attr_is(raw[i], #[trigger] t.attributes@[i])
    } else {
        t.name is None && t.attributes@.len() == 1 && t.attributes@[0] is None
    }
}

/// Decodes the content of a tag.
pub fn decode_tag(content: &Vec<u8>) -> (r: Tag)
    ensures
        tag_is(content@, r),
{
    let text: String = match utf8_string(content.as_slice()) {
        Some(t) => t,
        None => {
            let mut broken: Vec<Option<Attr>> = Vec::new();
            broken.push(None);
            return Tag { name: None, attributes: broken };
        },
    };
    let name: String = read_tag_name(text.as_str());
    let behind: usize = name.as_str().as_bytes().len();
    proof {
        a_name_lies_in_its_tag(text@);
    }
    let raw: Vec<Option<(String, String)>> = read_attributes(text.as_str(), behind, false);
    let ghost named = tag_attributes(text@, encode_utf8(tag_name(text@)).len(), false);
    let mut attributes: Vec<Option<Attr>> = Vec::new();
    let mut i: usize = 0;
    while i < raw.len()
        invariant
            raw_attributes(raw@) == named,
            i <= raw@.len(),
            attributes@.len() == i,
            forall|j: int| 0 <= j < i ==> attr_is(named[j], #[trigger] attributes@[j]),
        decreases raw@.len() - i,
    {
        assert(named[i as int] == raw_attributes(raw@)[i as int]);
        let a: Option<Attr> = match &raw[i] {
            None => None,
            Some(x) => Some(Attr { key: x.0.clone(), value: unescape(x.1.as_str()) }),
        };
        attributes.push(a);
        i = i + 1;
    }
    Tag { name: Some(name), attributes }
}

/// What a reference stands for.
pub open spec fn reference_text(name: Seq<u8>) -> Option<Seq<char>> {
    if valid_utf8(name) {
        unescaped("&"@ + decode_utf8(name) + ";"@)
    } else {
        None
    }
}

/// What a reference stands for, where that is known.
fn resolve_reference(name: &Vec<u8>) -> (r: Option<String>)
    ensures
        opt_view(r) == reference_text(name@),
{
    match utf8_string(name.as_slice()) {
        None => None,
        Some(t) => {
            let whole: String = String::from_str("&").concat(t.as_str()).concat(";");
            unescape(whole.as_str())
        },
    }
}

/// Whether a token is what an event decodes to.
pub open spec fn token_is(event: EventView, t: Token) -> bool {
    match event {
        EventView::Start(c) => t matches Token::Start(tag) && tag_is(c, *tag),
        EventView::Empty(c) => t matches Token::Empty(tag) && tag_is(c, *tag),
        EventView::End(_) => t is End,
        EventView::Text(s) => t matches Token::Text(x) && opt_view(x) == s,
        EventView::Reference(n) => t matches Token::Text(x) && opt_view(x) == reference_text(n),
        EventView::Other => t is Skip,
        EventView::Malformed => t is Malformed,
    }
}

/// Decodes an event.
fn decode_event(event: &XmlEvent) -> (t: Token)
    ensures
        token_is(event@, t),
{
    match event {
        XmlEvent::Start(c) => Token::Start(Rc::new(decode_tag(c))),
        XmlEvent::Empty(c) => Token::Empty(Rc::new(decode_tag(c))),
        XmlEvent::End(_) => Token::End,
        XmlEvent::Text(s) => Token::Text(s.clone()),
        XmlEvent::Reference(n) => Token::Text(resolve_reference(n)),
        XmlEvent::Other => Token::Skip,
        XmlEvent::Malformed => Token::Malformed,
    }
}

/// Whether a list of tokens is what a list of events decodes to.
pub open spec fn tokens_are(events: Seq<EventView>, tokens: Seq<Token>) -> bool {
    &&& tokens.len() == events.len()
    &&& forall|i: int| 0 <= i < events.len() ==> token_is(events[i], #[trigger] tokens[i])
}

/// Whether a list of tokens is what a document reads as. The tags among its events
/// stand in the document.
pub open spec fn reads_as(data: Seq<u8>, tokens: Seq<Token>) -> bool {
    &&& tokens_are(up_to_failure(xml_events(data)), tokens)
    &&& tags_stand(data, up_to_failure(xml_events(data)))
}

/// Decodes a list of events.
pub fn decode_events(events: &Vec<XmlEvent>) -> (r: Vec<Token>)
    ensures
        tokens_are(event_views(events@), r@),
{
    let mut out: Vec<Token> = Vec::new();
    let mut i: usize = 0;
    while i < events.len()
        invariant
            i <= events@.len(),
            out@.len() == i,
            forall|j: int|
                0 <= j < i ==> token_is(event_views(events@)[j], #[trigger] out@[j]),
        decreases events@.len() - i,
    {
        let t: Token = decode_event(&events[i]);
        out.push(t);
        i = i + 1;
    }
    out
}

/// Reads a document into tokens, up to its end or the first place where it is
/// not well-formed.
pub fn read_tokens(data: &[u8]) -> (r: Vec<Token>)
    ensures
        reads_as(data@, r@),
{
    let events: Vec<XmlEvent> = read_events(data);
    decode_events(&events)
}

} // verus!

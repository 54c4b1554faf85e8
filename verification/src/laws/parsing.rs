//! How documents are taken apart.
use vstd::prelude::*;
use vstd::utf8::{decode_utf8, valid_utf8};

use crate::error::ParseError;
use crate::laws::text_reading::is_level_of;
use crate::model::drawing::BodyProperties;
use crate::dml::body::read_body_properties;
use crate::pptx::text::{ListStyle, TextBody, TextStyles};
use crate::pptx::text_parse::{
    default_text_style_from, diagram_text_from, point_texts, text_body_from, text_styles_from,
};
use crate::pptx::text_read::is_text_body;
use crate::xml::event::{event_views, EventView, XmlEvent};
use crate::xml::extension::{is_extension_element, strip_extension_elements, without_extensions};
use crate::xml::name::{attr_field_name, colon, prefix_of};
use crate::xml::query::{child_named, children_named};
use crate::xml::schema::check_element;
use crate::xml::token::{decode_events, decode_tag, name_len, tag_name, Tag, Token};
use crate::xml::tree::{
    element_end, read_root, root_start, spell, spell_node, spell_nodes, Element, Node,
};

verus! {

proof fn the_first_colon(p: Seq<char>, rest: Seq<char>)
    requires
        !p.contains(':'),
    ensures
        colon(p + seq![':'] + rest) == p.len(),
    decreases p.len(),
{
    let whole = p + seq![':'] + rest;
    if p.len() > 0 {
        assert(p.contains(p[0]));
        let q = p.skip(1);
        assert forall|i: int| 0 <= i < q.len() implies q[i] != ':' by {
            assert(p.contains(p[i + 1]));
        }
        the_first_colon(q, rest);
        assert(whole[0] == p[0]);
        assert(whole.skip(1) =~= q + seq![':'] + rest);
    } else {
        assert(whole[0] == ':');
    }
}

proof fn without_a_colon(name: Seq<char>)
    requires
        !name.contains(':'),
    ensures
        colon(name) == name.len(),
    decreases name.len(),
{
    if name.len() > 0 {
        assert(name.contains(name[0]));
        let q = name.skip(1);
        assert forall|i: int| 0 <= i < q.len() implies q[i] != ':' by {
            assert(name.contains(name[i + 1]));
        }
        without_a_colon(q);
    }
}

/// The prefix of a name is what stands before its first colon.
pub proof fn a_prefix_stands_before_the_colon(
    name: &str,
    p: Seq<char>,
    rest: Seq<char>,
    r: Option<String>,
)
    requires
        call_ensures(prefix_of, (name,), r),
        !p.contains(':'),
    ensures
        name@ == p + seq![':'] + rest ==> (r matches Some(s) && s@ == p),
        name@ == p ==> r is None,
{
    if name@ == p + seq![':'] + rest {
        the_first_colon(p, rest);
        assert(name@.take(p.len() as int) =~= p);
    }
    if name@ == p {
        without_a_colon(p);
    }
}

/// An attribute is looked up by what stands behind its prefix; only those that
/// declare namespaces, and those of the prefix `xml`, keep their whole names.
pub proof fn how_attributes_are_looked_up(
    key: &str,
    p: Seq<char>,
    rest: Seq<char>,
    r: String,
)
    requires
        call_ensures(attr_field_name, (key,), r),
        !p.contains(':'),
    ensures
        key@ == p + seq![':'] + rest && (p == "xmlns"@ || p == "xml"@) ==> r@ == key@,
        key@ == p + seq![':'] + rest && p != "xmlns"@ && p != "xml"@ && key@ != "xmlns"@ ==> r@
            == rest,
        key@ == p ==> r@ == key@,
{
    if key@ == p + seq![':'] + rest {
        the_first_colon(p, rest);
        assert(key@.take(p.len() as int) =~= p);
        assert(key@.skip(p.len() as int + 1) =~= rest);
    }
    if key@ == p {
        without_a_colon(p);
    }
}

/// The elements of the extension namespaces are told by their prefixes.
pub proof fn extensions_are_told_by_their_prefixes(
    tag: &Tag,
    n: String,
    p: Seq<char>,
    rest: Seq<char>,
    r: bool,
)
    requires
        call_ensures(is_extension_element, (tag,), r),
        !p.contains(':'),
    ensures
        tag.name is None ==> !r,
        tag.name == Some(n) && n@ == p ==> !r,
        tag.name == Some(n) && n@ == p + seq![':'] + rest ==> (r <==> p == "w14"@ || p == "w15"@ || p
            == "w16"@ || p == "w16se"@ || p == "w16cid"@ || p == "w16cex"@ || p == "w16sdtdh"@ || p
            == "w16du"@),
{
    if tag.name == Some(n) {
        if n@ == p + seq![':'] + rest {
            the_first_colon(p, rest);
            assert(n@.take(p.len() as int) =~= p);
        }
        if n@ == p {
            without_a_colon(p);
        }
    }
}

proof fn spelled_nodes_leave_elements_open(
    front: Seq<Token>,
    nodes: Seq<Node>,
    back: Seq<Token>,
    depth: nat,
)
    requires
        depth >= 1,
    ensures
        element_end(front + spell_nodes(nodes) + back, front.len() as int, depth) == element_end(
            front + spell_nodes(nodes) + back,
            front.len() as int + spell_nodes(nodes).len(),
            depth,
        ),
    decreases nodes,
{
    let t = front + spell_nodes(nodes) + back;
    if nodes.len() > 0 {
        let before = nodes.drop_last();
        let last = nodes.last();
        let rest = spell_node(last) + back;
        assert(t =~= front + spell_nodes(before) + rest);
        spelled_nodes_leave_elements_open(front, before, rest, depth);
        let longer = front + spell_nodes(before);
        assert(t =~= longer + spell_node(last) + back);
        a_spelled_node_leaves_elements_open(longer, last, back, depth);
        assert(longer.len() == front.len() + spell_nodes(before).len());
        assert(spell_nodes(nodes).len() == spell_nodes(before).len() + spell_node(last).len());
    } else {
        assert(spell_nodes(nodes).len() == 0);
    }
}

proof fn a_spelled_node_leaves_elements_open(
    front: Seq<Token>,
    node: Node,
    back: Seq<Token>,
    depth: nat,
)
    requires
        depth >= 1,
    ensures
        element_end(front + spell_node(node) + back, front.len() as int, depth) == element_end(
            front + spell_node(node) + back,
            front.len() as int + spell_node(node).len(),
            depth,
        ),
    decreases node,
{
    let t = front + spell_node(node) + back;
    let at = front.len() as int;
    match node {
        Node::Element(e) => {
            if e.closed {
                assert(spell_node(node) == spell(*e));
                assert(t[at] == Token::Empty(e.tag));
            } else {
                let inner = spell_nodes(e.children@);
                assert(spell_node(node) == seq![Token::Start(e.tag)] + inner + seq![Token::End]);
                assert(t[at] == Token::Start(e.tag));
                let head = front + seq![Token::Start(e.tag)];
                let tail = seq![Token::End] + back;
                assert(t =~= head + inner + tail);
                spelled_nodes_leave_elements_open(head, e.children@, tail, depth + 1);
                let end = at + 1 + inner.len();
                assert(t[end] == Token::End);
                assert(element_end(t, at, depth) == element_end(t, at + 1, depth + 1));
                assert(element_end(t, end, depth + 1) == element_end(t, end + 1, depth));
            }
        },
        Node::Text(s) => {
            assert(spell_node(node) == seq![Token::Text(s)]);
            assert(t[at] == Token::Text(s));
        },
        Node::Skip => {
            assert(spell_node(node) == seq![Token::Skip]);
            assert(t[at] == Token::Skip);
        },
    }
}

/// An element ends behind the tokens that spell it.
proof fn a_spelled_element_ends(front: Seq<Token>, e: Element, back: Seq<Token>)
    ensures
        element_end(front + spell(e) + back, front.len() as int, 0) == Some(
            (front.len() + spell(e).len()) as int,
        ),
{
    let t = front + spell(e) + back;
    let at = front.len() as int;
    if e.closed {
        assert(t[at] == Token::Empty(e.tag));
    } else {
        let inner = spell_nodes(e.children@);
        let head = front + seq![Token::Start(e.tag)];
        let tail = seq![Token::End] + back;
        assert(t[at] == Token::Start(e.tag));
        assert(t =~= head + inner + tail);
        spelled_nodes_leave_elements_open(head, e.children@, tail, 1);
        assert(t[at + 1 + inner.len()] == Token::End);
        assert(element_end(t, at, 0) == element_end(t, at + 1, 1));
    }
}

proof fn ends_do_not_depend_on_the_front(a: Seq<Token>, b: Seq<Token>, i: int, depth: nat)
    requires
        0 <= i <= b.len(),
    ensures
        element_end(a + b, a.len() + i, depth) == match element_end(b, i, depth) {
            Some(j) => Some(a.len() + j),
            None => None,
        },
    decreases b.len() - i,
{
    let t = a + b;
    if i < b.len() {
        assert(t[a.len() + i] == b[i]);
        match b[i] {
            Token::Malformed => {},
            Token::Start(_) => {
                ends_do_not_depend_on_the_front(a, b, i + 1, depth + 1);
            },
            Token::Empty(_) => {
                if depth > 0 {
                    ends_do_not_depend_on_the_front(a, b, i + 1, depth);
                }
            },
            Token::End => {
                if depth > 1 {
                    ends_do_not_depend_on_the_front(a, b, i + 1, (depth - 1) as nat);
                }
            },
            _ => {
                ends_do_not_depend_on_the_front(a, b, i + 1, depth);
            },
        }
    }
}

proof fn stripping_does_not_depend_on_the_front(a: Seq<Token>, b: Seq<Token>, i: int)
    requires
        0 <= i <= b.len(),
    ensures
        without_extensions(a + b, a.len() + i) == without_extensions(b, i),
    decreases b.len() - i,
{
    let t = a + b;
    if i < b.len() {
        assert(t[a.len() + i] == b[i]);
        if b[i] is Malformed {
        } else if crate::xml::extension::starts_extension(b[i]) {
            ends_do_not_depend_on_the_front(a, b, i, 0);
            crate::xml::tree::element_end_bounds(b, i, 0);
            if let Some(j) = element_end(b, i, 0) {
                stripping_does_not_depend_on_the_front(a, b, j);
            }
        } else {
            stripping_does_not_depend_on_the_front(a, b, i + 1);
        }
    }
}

/// An extension element is taken out with all that stands in it, and what stands
/// behind it stays.
pub proof fn an_extension_is_taken_out_whole(
    e: Element,
    rest: &Vec<Token>,
    whole: &Vec<Token>,
    is_extension: bool,
    a: Option<Vec<Token>>,
    b: Option<Vec<Token>>,
)
    requires
        whole@ == spell(e) + rest@,
        call_ensures(is_extension_element, (&*e.tag,), is_extension),
        is_extension,
        call_ensures(strip_extension_elements, (rest,), a),
        call_ensures(strip_extension_elements, (whole,), b),
    ensures
        a is None <==> b is None,
        a matches Some(x) ==> (b matches Some(y) && y@ == x@),
{
    let none = Seq::<Token>::empty();
    a_spelled_element_ends(none, e, rest@);
    assert(none + spell(e) + rest@ =~= whole@);
    stripping_does_not_depend_on_the_front(spell(e), rest@, 0);
    let n = spell(e).len() as int;
    if e.closed {
        assert(spell(e) == seq![Token::Empty(e.tag)]);
        assert(whole@[0] == Token::Empty(e.tag));
        assert(n == 1);
    } else {
        assert(whole@[0] == Token::Start(e.tag));
        assert(element_end(whole@, 0, 0) == Some(n));
    }
    assert(without_extensions(whole@, 0) == without_extensions(whole@, n));
}

/// A token that opens no extension element stays where it is.
pub proof fn other_tokens_stay(
    t: Token,
    rest: &Vec<Token>,
    whole: &Vec<Token>,
    a: Vec<Token>,
    b: Option<Vec<Token>>,
)
    requires
        whole@ == seq![t] + rest@,
        call_ensures(strip_extension_elements, (rest,), Some(a)),
        call_ensures(strip_extension_elements, (whole,), b),
    ensures
        t is End || t is Text || t is Skip ==> (b matches Some(y) && y@ == seq![t] + a@),
        t is Malformed ==> b is None,
        t matches Token::Start(tag) ==> (tag.name is None ==> (b matches Some(y) && y@ == seq![t]
            + a@)),
        t matches Token::Empty(tag) ==> (tag.name is None ==> (b matches Some(y) && y@ == seq![t]
            + a@)),
{
    assert(whole@[0] == t);
    stripping_does_not_depend_on_the_front(seq![t], rest@, 0);
}

proof fn what_spells_flat_tokens(nodes: Seq<Node>, flat: Seq<Token>)
    requires
        spell_nodes(nodes) == flat,
        forall|i: int|
            0 <= i < flat.len() ==> (#[trigger] flat[i]) is Text || flat[i] is Skip || flat[i]
                is Empty,
    ensures
        nodes.len() == flat.len(),
        forall|i: int|
            0 <= i < flat.len() ==> match #[trigger] flat[i] {
                Token::Text(s) => nodes[i] == Node::Text(s),
                Token::Empty(tag) => nodes[i] matches Node::Element(e) && e.tag == tag && e.closed,
                _ => nodes[i] is Skip,
            },
    decreases nodes.len(),
{
    if nodes.len() > 0 {
        let before = nodes.drop_last();
        let last = nodes.last();
        let n = spell_nodes(before).len() as int;
        assert(flat == spell_nodes(before) + spell_node(last));
        assert(spell_nodes(before) =~= flat.take(n));
        assert forall|i: int| 0 <= i < n implies (#[trigger] flat.take(n)[i]) is Text || flat.take(
            n,
        )[i] is Skip || flat.take(n)[i] is Empty by {
            assert(flat.take(n)[i] == flat[i]);
        }
        if let Node::Element(e) = last {
            assert(spell_node(last) == spell(*e));
            if !e.closed {
                assert(spell(*e)[0] == Token::Start(e.tag));
                assert(flat[n] == Token::Start(e.tag));
                assert(false);
            }
        }
        what_spells_flat_tokens(before, flat.take(n));
        assert(spell_node(last).len() == 1);
        assert(flat.len() == n + 1);
        assert(flat[n] == spell_node(last)[0]);
        assert forall|i: int| 0 <= i < flat.len() implies match #[trigger] flat[i] {
            Token::Text(s) => nodes[i] == Node::Text(s),
            Token::Empty(tag) => nodes[i] matches Node::Element(e) && e.tag == tag && e.closed,
            _ => nodes[i] is Skip,
        } by {
            if i < n {
                assert(flat.take(n)[i] == flat[i]);
                assert(before[i] == nodes[i]);
            }
        }
    }
}

/// An element is read from its tag to the tag that ends it, with its children in
/// the order of what spells them.
pub proof fn children_are_read_in_order(
    t: &Vec<Token>,
    tag: std::rc::Rc<Tag>,
    flat: Seq<Token>,
    r: Option<Element>,
    i: int,
)
    requires
        call_ensures(read_root, (t,), r),
        t@ == seq![Token::Start(tag)] + flat + seq![Token::End],
        forall|k: int|
            0 <= k < flat.len() ==> (#[trigger] flat[k]) is Text || flat[k] is Skip || flat[k]
                is Empty,
        0 <= i < flat.len(),
    ensures
        r matches Some(e) && {
            &&& e.tag == tag
            &&& !e.closed
            &&& e.children@.len() == flat.len()
            &&& match flat[i] {
                Token::Text(s) => e.children@[i] == Node::Text(s),
                Token::Empty(inner) => e.children@[i] matches Node::Element(x) && x.tag == inner
                    && x.closed,
                _ => e.children@[i] is Skip,
            }
        },
{
    assert(t@[0] == Token::Start(tag));
    assert(root_start(t@, 0) == Some(0int));
    flat_tokens_leave_elements_open(t@, 1, flat.len() as int + 1);
    let n = t@.len() as int;
    assert(t@[n - 1] == Token::End);
    assert(element_end(t@, 0, 0) == element_end(t@, 1, 1));
    assert(element_end(t@, 0, 0) == Some(n));
    let e = r->0;
    assert(t@.subrange(0, n) =~= t@);
    assert(t@ == spell(e));
    if e.closed {
        assert(spell(e).len() == 1);
        assert(false);
    }
    assert(spell(e)[0] == Token::Start(e.tag));
    let inner = spell_nodes(e.children@);
    assert(spell(e) == seq![Token::Start(e.tag)] + inner + seq![Token::End]);
    assert(inner =~= t@.subrange(1, n - 1));
    assert(flat =~= t@.subrange(1, n - 1));
    what_spells_flat_tokens(e.children@, flat);
}

proof fn flat_tokens_leave_elements_open(t: Seq<Token>, i: int, end: int)
    requires
        0 <= i <= end <= t.len(),
        forall|k: int|
            i <= k < end ==> (#[trigger] t[k]) is Text || t[k] is Skip || t[k] is Empty,
    ensures
        element_end(t, i, 1) == element_end(t, end, 1),
    decreases end - i,
{
    if i < end {
        flat_tokens_leave_elements_open(t, i + 1, end);
    }
}

/// What stands before the root element is passed over where it is blank or a
/// comment, and any other text leaves no root.
pub proof fn what_stands_before_the_root(
    rest: &Vec<Token>,
    whole: &Vec<Token>,
    t: Token,
    a: Option<Element>,
    b: Option<Element>,
)
    requires
        whole@ == seq![t] + rest@,
        call_ensures(read_root, (rest,), a),
        call_ensures(read_root, (whole,), b),
    ensures
        t is End || t is Malformed ==> b is None,
        t is Skip || (t matches Token::Text(Some(s)) && s@.len() == 0) ==> (a is None <==> b
            is None),
        t matches Token::Text(Some(s)) ==> ((exists|i: int|
            0 <= i < s@.len() && (#[trigger] s@[i]) != ' ' && s@[i] != '\t' && s@[i] != '\n'
                && s@[i] != '\r') ==> b is None),
        t matches Token::Text(None) ==> b is None,
        t matches Token::Empty(tag) ==> (b matches Some(e) && e.tag == tag && e.closed),
{
    assert(whole@[0] == t);
    roots_do_not_depend_on_the_front(seq![t], rest@, 0);
    if let Some(i) = root_start(rest@, 0) {
        root_lies_within(rest@, 0);
        ends_do_not_depend_on_the_front(seq![t], rest@, i, 0);
    }
    if let Token::Empty(tag) = t {
        assert(element_end(whole@, 0, 0) == Some(1int));
        let e = b->0;
        assert(whole@.subrange(0, 1) == spell(e));
        assert(spell(e)[0] == whole@.subrange(0, 1)[0]);
        if !e.closed {
            assert(spell(e)[0] == Token::Start(e.tag));
            assert(false);
        }
    }
    if let Token::Text(Some(s)) = t {
        if exists|i: int|
            0 <= i < s@.len() && (#[trigger] s@[i]) != ' ' && s@[i] != '\t' && s@[i] != '\n'
                && s@[i] != '\r' {
            assert(!crate::xml::tree::is_blank(s@));
        }
    }
}

proof fn root_lies_within(t: Seq<Token>, i: int)
    requires
        0 <= i,
    ensures
        root_start(t, i) matches Some(j) ==> i <= j < t.len(),
    decreases t.len() - i,
{
    if i < t.len() {
        root_lies_within(t, i + 1);
    }
}

proof fn roots_do_not_depend_on_the_front(a: Seq<Token>, b: Seq<Token>, i: int)
    requires
        0 <= i <= b.len(),
    ensures
        root_start(a + b, a.len() + i) == match root_start(b, i) {
            Some(j) => Some(a.len() + j),
            None => None,
        },
    decreases b.len() - i,
{
    if i < b.len() {
        assert((a + b)[a.len() + i] == b[i]);
        roots_do_not_depend_on_the_front(a, b, i + 1);
    }
}

/// Each event is a token of its own kind.
pub proof fn events_are_tokens_of_their_kind(events: &Vec<XmlEvent>, r: Vec<Token>, i: int)
    requires
        call_ensures(decode_events, (events,), r),
        0 <= i < events@.len(),
    ensures
        r@.len() == events@.len(),
        events@[i]@ is Start <==> r@[i] is Start,
        events@[i]@ is Empty <==> r@[i] is Empty,
        events@[i]@ is End <==> r@[i] is End,
        events@[i]@ is Other <==> r@[i] is Skip,
        events@[i]@ is Malformed <==> r@[i] is Malformed,
        events@[i]@ matches EventView::Text(s) ==> (r@[i] matches Token::Text(x)
            && crate::xml::event::opt_view(x) == s),
        events@[i]@ is Reference ==> r@[i] is Text,
{
    let views = event_views(events@);
    assert(views[i] == events@[i]@);
    assert(crate::xml::token::token_is(views[i], r@[i]));
}

proof fn the_first_word(name: Seq<char>, rest: Seq<char>)
    requires
        forall|i: int|
            0 <= i < name.len() ==> (#[trigger] name[i]) != ' ' && name[i] != '\t' && name[i] != '\n'
                && name[i] != '\r',
        rest.len() == 0 || rest[0] == ' ' || rest[0] == '\t' || rest[0] == '\n' || rest[0] == '\r',
    ensures
        name_len(name + rest) == name.len(),
    decreases name.len(),
{
    let whole = name + rest;
    if name.len() > 0 {
        let q = name.skip(1);
        assert forall|i: int| 0 <= i < q.len() implies (#[trigger] q[i]) != ' ' && q[i] != '\t'
            && q[i] != '\n' && q[i] != '\r' by {
            assert(name[i + 1] == q[i]);
        }
        the_first_word(q, rest);
        assert(whole[0] == name[0]);
        assert(whole.skip(1) =~= q + rest);
    } else if rest.len() > 0 {
        assert(whole[0] == rest[0]);
    }
}

/// The name of a tag is its first word.
pub proof fn a_tag_is_named_by_its_first_word(
    content: &Vec<u8>,
    name: Seq<char>,
    rest: Seq<char>,
    r: Tag,
)
    requires
        call_ensures(decode_tag, (content,), r),
        valid_utf8(content@),
        decode_utf8(content@) == name + rest,
        forall|i: int|
            0 <= i < name.len() ==> (#[trigger] name[i]) != ' ' && name[i] != '\t' && name[i] != '\n'
                && name[i] != '\r',
        rest.len() == 0 || rest[0] == ' ' || rest[0] == '\t' || rest[0] == '\n' || rest[0] == '\r',
    ensures
        r.name matches Some(n) && n@ == name,
{
    the_first_word(name, rest);
    assert((name + rest).take(name.len() as int) =~= name);
    assert(tag_name(decode_utf8(content@)) == name);
}

/// A tag that is not UTF-8 has no name.
pub proof fn a_tag_that_is_no_text_has_no_name(content: &Vec<u8>, r: Tag)
    requires
        call_ensures(decode_tag, (content,), r),
    ensures
        valid_utf8(content@) <==> r.name is Some,
        !valid_utf8(content@) ==> r.attributes@.len() == 1 && r.attributes@[0] is None,
{
}

/// An element that states a known attribute twice, or a child twice that may stand
/// once, is refused; so is one with what cannot be read.
pub proof fn what_stands_twice_is_refused(
    e: &Element,
    known: &[&str],
    single: &[&str],
    lists: &[&str],
    r: bool,
    i: int,
    j: int,
    k: int,
)
    requires
        call_ensures(check_element, (e, known, single, lists), r),
    ensures
        0 <= k < single@.len() && children_named(*e, single@[k]@).len() > 1 ==> !r,
        0 <= i < e.children@.len() && (e.children@[i] matches Node::Text(None)) ==> !r,
        0 <= i < e.tag.attributes@.len() && e.tag.attributes@[i] is None ==> !r,
        0 <= i < j < e.tag.attributes@.len() && 0 <= k < known@.len() && (
        e.tag.attributes@[i] matches Some(a) && (e.tag.attributes@[j] matches Some(b)
            && crate::xml::name::attr_field(a.key@) == known@[k]@ && crate::xml::name::attr_field(
            b.key@,
        ) == known@[k]@)) ==> !r,
        0 <= i < e.tag.attributes@.len() && 0 <= k < known@.len() && (
        e.tag.attributes@[i] matches Some(a) && crate::xml::name::attr_field(a.key@) == known@[k]@
            && a.value is None) ==> !r,
{
    if 0 <= k < known@.len() {
        assert(known@[k]@ == known@[k]@);
    }
}

/// An element without attributes and children is never refused.
pub proof fn an_empty_element_is_not_refused(
    e: &Element,
    known: &[&str],
    single: &[&str],
    lists: &[&str],
    r: bool,
)
    requires
        call_ensures(check_element, (e, known, single, lists), r),
        e.children@.len() == 0,
        e.tag.attributes@.len() == 0,
    ensures
        r,
{
    assert(forall|name: Seq<char>| #[trigger] children_named(*e, name).len() == 0) by {
        reveal(Seq::filter);
    }
}

/// A text body has its own properties and one paragraph for each that is stated,
/// in order; what is no document has none.
pub proof fn a_text_body_is_read_by_its_parts(
    root: &Option<Element>,
    r: Result<TextBody, ParseError>,
    x: &Element,
    p: BodyProperties,
)
    requires
        call_ensures(text_body_from, (root,), r),
        call_ensures(read_body_properties, (x,), p),
    ensures
        *root is None <==> r == Err::<TextBody, ParseError>(ParseError::Malformed),
        *root is Some && r is Err ==> r == Err::<TextBody, ParseError>(ParseError::Schema),
        *root matches Some(e) ==> (r matches Ok(b) ==> {
            &&& b.paragraphs@.len() == children_named(e, "p"@).len()
            &&& child_named(e, "bodyPr"@) is None ==> b.body_pr is None
            &&& child_named(e, "bodyPr"@) == Some(*x) ==> b.body_pr == Some(p)
        }),
{
}

/// Whether the levels of a list style are those that an element states.
pub open spec fn has_levels_of(e: Element, l: ListStyle) -> bool {
    &&& is_level_of(e, "lvl1pPr"@, l.levels@[0])
    &&& is_level_of(e, "lvl2pPr"@, l.levels@[1])
    &&& is_level_of(e, "lvl3pPr"@, l.levels@[2])
    &&& is_level_of(e, "lvl4pPr"@, l.levels@[3])
    &&& is_level_of(e, "lvl5pPr"@, l.levels@[4])
    &&& is_level_of(e, "lvl6pPr"@, l.levels@[5])
    &&& is_level_of(e, "lvl7pPr"@, l.levels@[6])
    &&& is_level_of(e, "lvl8pPr"@, l.levels@[7])
    &&& is_level_of(e, "lvl9pPr"@, l.levels@[8])
}

/// The text styles of a master are those for titles, for bodies and for all else,
/// each from its own element.
pub proof fn a_master_has_three_text_styles(
    root: Element,
    s: TextStyles,
    x: Element,
)
    requires
        call_ensures(text_styles_from, (&Some(root),), Ok::<TextStyles, ParseError>(s)),
        child_named(root, "txStyles"@) == Some(x),
    ensures
        child_named(x, "titleStyle"@) matches Some(t) ==> has_levels_of(t, s.title),
        child_named(x, "bodyStyle"@) matches Some(t) ==> has_levels_of(t, s.body),
        child_named(x, "otherStyle"@) matches Some(t) ==> has_levels_of(t, s.other),
        child_named(x, "titleStyle"@) is None ==> s.title.levels@[0] is None,
        child_named(x, "bodyStyle"@) is None ==> s.body.levels@[0] is None,
        child_named(x, "otherStyle"@) is None ==> s.other.levels@[0] is None,
{
    assert(crate::pptx::text_read::level_name(0) == "lvl1pPr"@);
}

/// The text style that all others fall back on stands in the presentation itself.
pub proof fn the_default_style_is_the_presentations(root: Element, s: ListStyle)
    requires
        call_ensures(default_text_style_from, (&Some(root),), Ok::<ListStyle, ParseError>(s)),
    ensures
        child_named(root, "defaultTextStyle"@) matches Some(t) ==> has_levels_of(t, s),
        child_named(root, "defaultTextStyle"@) is None ==> s.levels@[0] is None,
{
    assert(crate::pptx::text_read::level_name(0) == "lvl1pPr"@);
}

/// The texts of a diagram are those of its points, in order; a point without text
/// adds none.
pub proof fn points_have_their_texts_in_order(
    root: Element,
    l: Element,
    v: Vec<TextBody>,
    points: Seq<Element>,
    p: Element,
)
    requires
        call_ensures(diagram_text_from, (&Some(root),), Ok::<Vec<TextBody>, ParseError>(v)),
        child_named(root, "ptLst"@) == Some(l),
        children_named(l, "pt"@) == points.push(p),
    ensures
        child_named(p, "t"@) is None ==> v@.len() == point_texts(points).len(),
        child_named(p, "t"@) matches Some(t) ==> v@.len() == point_texts(points).len() + 1
            && is_text_body(t, v@[v@.len() - 1]),
        points.len() == 0 ==> point_texts(points).len() == 0,
{
    assert(points.push(p).drop_last() =~= points);
    let all = point_texts(points.push(p));
    if let Some(t) = child_named(p, "t"@) {
        assert(all == point_texts(points).push(t));
        assert(is_text_body(all[v@.len() - 1], v@[v@.len() - 1]));
    }
}

/// A diagram without a list of points has no text.
pub proof fn without_points_there_is_no_text(root: Element, v: Vec<TextBody>)
    requires
        call_ensures(diagram_text_from, (&Some(root),), Ok::<Vec<TextBody>, ParseError>(v)),
        child_named(root, "ptLst"@) is None,
    ensures
        v@.len() == 0,
{
}

} // verus!

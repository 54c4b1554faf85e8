//! Parts that read alike: a part, and the same part with its extension elements
//! cut out.
use vstd::prelude::*;
use vstd::utf8::{decode_utf8, decode_utf8_encode_utf8, encode_scalar, encode_utf8};

use crate::xml::event::{follows_bracket, opt_view, up_to_failure, xml_events, EventView};
use crate::xml::extension::{
    empty_extension, is_extension, is_extension_prefix, may_hold_extensions, part_root,
    starts_extension, without_extensions, without_extensions_keeps_the_rest,
};
use crate::xml::name::{colon, prefix};
use crate::xml::token::{reads_as, tag_is, tag_name, token_is, Attr, Tag, Token};
use crate::xml::tree::{element_end, element_end_bounds, is_root, Element};

verus! {

/// Whether two attributes hold the same.
pub open spec fn same_attr(a: Option<Attr>, b: Option<Attr>) -> bool {
    match (a, b) {
        (None, None) => true,
        (Some(x), Some(y)) => x.key@ == y.key@ && opt_view(x.value) == opt_view(y.value),
        _ => false,
    }
}

/// Whether two tags hold the same.
pub open spec fn same_tag(a: Tag, b: Tag) -> bool {
    &&& opt_view(a.name) == opt_view(b.name)
    &&& a.attributes@.len() == b.attributes@.len()
    &&& forall|i: int|
        0 <= i < a.attributes@.len() ==> same_attr(a.attributes@[i], #[trigger] b.attributes@[i])
}

/// Whether two tokens hold the same.
pub open spec fn same_token(a: Token, b: Token) -> bool {
    match (a, b) {
        (Token::Start(x), Token::Start(y)) => same_tag(*x, *y),
        (Token::Empty(x), Token::Empty(y)) => same_tag(*x, *y),
        (Token::Text(x), Token::Text(y)) => opt_view(x) == opt_view(y),
        (Token::End, Token::End) => true,
        (Token::Skip, Token::Skip) => true,
        (Token::Malformed, Token::Malformed) => true,
        _ => false,
    }
}

/// Whether two lists of tokens hold the same from `i` on.
pub open spec fn same_tokens(a: Seq<Token>, b: Seq<Token>, i: int) -> bool {
    &&& a.len() == b.len()
    &&& forall|k: int| i <= k < a.len() && 0 <= k ==> same_token(a[k], #[trigger] b[k])
}

/// Tags that the same content decodes to hold the same.
proof fn a_tag_decodes_to_one(content: Seq<u8>, a: &Tag, b: &Tag)
    requires
        tag_is(content, *a),
        tag_is(content, *b),
    ensures
        same_tag(*a, *b),
{
    assert forall|i: int| 0 <= i < a.attributes@.len() implies same_attr(
        a.attributes@[i],
        #[trigger] b.attributes@[i],
    ) by {
    }
}

/// A tag that holds the same is decoded from the same content.
proof fn same_tags_have_one_content(content: Seq<u8>, a: &Tag, b: &Tag)
    requires
        tag_is(content, *a),
        same_tag(*a, *b),
    ensures
        tag_is(content, *b),
{
    assert forall|i: int| 0 <= i < a.attributes@.len() implies same_attr(
        a.attributes@[i],
        #[trigger] b.attributes@[i],
    ) by {
    }
}

/// Tokens that the same event decodes to hold the same.
proof fn an_event_decodes_to_one(event: EventView, a: Token, b: Token)
    requires
        token_is(event, a),
        token_is(event, b),
    ensures
        same_token(a, b),
{
    match event {
        EventView::Start(c) => {
            a_tag_decodes_to_one(c, &*a->Start_0, &*b->Start_0);
        },
        EventView::Empty(c) => {
            a_tag_decodes_to_one(c, &*a->Empty_0, &*b->Empty_0);
        },
        _ => {},
    }
}

/// A token that holds the same is decoded from the same event.
proof fn same_tokens_have_one_event(event: EventView, a: Token, b: Token)
    requires
        token_is(event, a),
        same_token(a, b),
    ensures
        token_is(event, b),
{
    match event {
        EventView::Start(c) => {
            same_tags_have_one_content(c, &*a->Start_0, &*b->Start_0);
        },
        EventView::Empty(c) => {
            same_tags_have_one_content(c, &*a->Empty_0, &*b->Empty_0);
        },
        _ => {},
    }
}

/// Elements end at the same place in lists that hold the same.
proof fn elements_end_alike(a: Seq<Token>, b: Seq<Token>, i: int, depth: nat)
    requires
        same_tokens(a, b, i),
    ensures
        element_end(a, i, depth) == element_end(b, i, depth),
    decreases a.len() - i,
{
    if 0 <= i < a.len() {
        assert(same_token(a[i], b[i]));
        match a[i] {
            Token::Start(_) => elements_end_alike(a, b, i + 1, depth + 1),
            Token::Empty(_) => if depth > 0 {
                elements_end_alike(a, b, i + 1, depth);
            },
            Token::End => if depth > 1 {
                elements_end_alike(a, b, i + 1, (depth - 1) as nat);
            },
            Token::Malformed => {},
            _ => elements_end_alike(a, b, i + 1, depth),
        }
    }
}

/// What is left of lists that hold the same holds the same.
proof fn the_rest_is_alike(a: Seq<Token>, b: Seq<Token>, i: int)
    requires
        0 <= i,
        same_tokens(a, b, i),
    ensures
        match (without_extensions(a, i), without_extensions(b, i)) {
            (Some(x), Some(y)) => same_tokens(x, y, 0),
            (None, None) => true,
            _ => false,
        },
    decreases a.len() - i,
{
    if i < a.len() {
        assert(same_token(a[i], b[i]));
        if a[i] is Malformed {
        } else if starts_extension(a[i]) {
            elements_end_alike(a, b, i, 0);
            element_end_bounds(a, i, 0);
            match element_end(a, i, 0) {
                Some(j) => the_rest_is_alike(a, b, j),
                None => {},
            }
        } else {
            the_rest_is_alike(a, b, i + 1);
            if !empty_extension(a[i]) && without_extensions(a, i + 1) is Some {
                let x = without_extensions(a, i + 1)->0;
                let y = without_extensions(b, i + 1)->0;
                let all_x = seq![a[i]] + x;
                let all_y = seq![b[i]] + y;
                assert forall|k: int| 0 <= k < all_x.len() implies same_token(
                    all_x[k],
                    #[trigger] all_y[k],
                ) by {
                    if k > 0 {
                        assert(same_token(x[k - 1], y[k - 1]));
                    }
                }
            }
        }
    }
}

/// What is left of a list depends on its tokens from `i` on alone.
proof fn the_rest_depends_on_the_rest(a: Seq<Token>, b: Seq<Token>, i: int)
    requires
        0 <= i,
        a.len() == b.len(),
        forall|k: int| i <= k < a.len() ==> a[k] == #[trigger] b[k],
    ensures
        without_extensions(a, i) == without_extensions(b, i),
    decreases a.len() - i,
{
    if i < a.len() {
        if a[i] is Malformed {
        } else if starts_extension(a[i]) {
            assert forall|k: int| i <= k < a.len() && 0 <= k implies same_token(
                a[k],
                #[trigger] b[k],
            ) by {
                a_token_is_itself(a[k]);
            }
            elements_end_alike(a, b, i, 0);
            element_end_bounds(a, i, 0);
            match element_end(a, i, 0) {
                Some(j) => the_rest_depends_on_the_rest(a, b, j),
                None => {},
            }
        } else {
            the_rest_depends_on_the_rest(a, b, i + 1);
        }
    }
}

/// A token holds what it holds.
proof fn a_token_is_itself(a: Token)
    ensures
        same_token(a, a),
{
}

/// Nothing that is left of a list is out of place: no tag of an extension
/// element, and nothing that is not well-formed.
proof fn the_rest_is_sound(t: Seq<Token>, i: int)
    requires
        0 <= i,
    ensures
        without_extensions(t, i) matches Some(rest) ==> forall|k: int|
            0 <= k < rest.len() ==> !(#[trigger] rest[k] is Malformed) && !starts_extension(rest[k])
                && !empty_extension(rest[k]),
    decreases t.len() - i,
{
    if i < t.len() && !(t[i] is Malformed) {
        if starts_extension(t[i]) {
            match element_end(t, i, 0) {
                Some(j) => if i < j <= t.len() {
                    the_rest_is_sound(t, j);
                },
                None => {},
            }
        } else {
            the_rest_is_sound(t, i + 1);
        }
    }
}

/// Where no token opens an extension element, and something is left, all is left.
proof fn nothing_is_left_out(t: Seq<Token>, i: int)
    requires
        0 <= i <= t.len(),
        forall|k: int|
            0 <= k < t.len() ==> !starts_extension(#[trigger] t[k]) && !empty_extension(t[k]),
        without_extensions(t, i) is Some,
    ensures
        without_extensions(t, i) == Some(t.skip(i)),
    decreases t.len() - i,
{
    if i < t.len() {
        assert(!starts_extension(t[i]) && !empty_extension(t[i]));
        nothing_is_left_out(t, i + 1);
        assert(seq![t[i]] + t.skip(i + 1) =~= t.skip(i));
    } else {
        assert(t.skip(i) =~= Seq::empty());
    }
}

/// What is left without extension elements is left when they are cut out again.
proof fn to_cut_again_changes_nothing(t: Seq<Token>)
    requires
        without_extensions(t, 0) is Some,
    ensures
        without_extensions(without_extensions(t, 0)->0, 0) == without_extensions(t, 0),
{
    let kept = without_extensions(t, 0)->0;
    the_rest_is_sound(t, 0);
    without_extensions_keeps_the_rest(kept, 0);
    assert(kept.skip(0) =~= kept);
}

/// Puts tokens in the place of those that are left of a list, where they hold the
/// same.
proof fn put_back(t: Seq<Token>, i: int, kept: Seq<Token>) -> (r: Seq<Token>)
    requires
        0 <= i <= t.len(),
        without_extensions(t, i) matches Some(rest) && same_tokens(rest, kept, 0),
    ensures
        same_tokens(t, r, 0),
        forall|k: int| 0 <= k < i ==> r[k] == t[k],
        without_extensions(r, i) == Some(kept),
    decreases t.len() - i,
{
    if i == t.len() {
        assert(kept =~= Seq::empty());
        assert forall|k: int| 0 <= k < t.len() implies same_token(t[k], #[trigger] t[k]) by {
            a_token_is_itself(t[k]);
        }
        t
    } else if starts_extension(t[i]) {
        element_end_bounds(t, i, 0);
        let j = element_end(t, i, 0)->0;
        let r = put_back(t, j, kept);
        elements_end_alike(t, r, i, 0);
        assert(r[i] == t[i]);
        r
    } else if empty_extension(t[i]) {
        let r = put_back(t, i + 1, kept);
        assert(r[i] == t[i]);
        r
    } else {
        let rest = without_extensions(t, i)->0;
        let tail = without_extensions(t, i + 1)->0;
        assert(rest[0] == t[i]);
        assert(same_token(rest[0], kept[0]));
        assert forall|k: int| 0 <= k < tail.len() implies same_token(
            tail[k],
            #[trigger] kept.skip(1)[k],
        ) by {
            assert(tail[k] == rest[k + 1]);
            assert(same_token(rest[k + 1], kept[k + 1]));
        }
        let u = put_back(t, i + 1, kept.skip(1));
        let r = u.update(i, kept[0]);
        the_rest_depends_on_the_rest(u, r, i + 1);
        assert(seq![r[i]] + kept.skip(1) =~= kept);
        assert(same_token(t[i], r[i]));
        assert forall|k: int| 0 <= k < t.len() implies same_token(t[k], #[trigger] r[k]) by {
            if k != i {
                assert(r[k] == u[k]);
            }
        }
        r
    }
}

/// A character of one byte stands as that byte at the start of the bytes.
proof fn a_plain_character_is_a_byte(s: Seq<char>, c: char)
    requires
        s.len() > 0,
        s[0] == c,
        (c as u32) < 0x80,
    ensures
        encode_utf8(s) == seq![c as u8] + encode_utf8(s.skip(1)),
{
    let u = c as u32;
    assert((u & 0x7F) as u8 == u as u8) by (bit_vector)
        requires
            u < 0x80,
    ;
    assert(s.drop_first() =~= s.skip(1));
    assert(encode_scalar(u) =~= seq![c as u8]);
}

/// The first characters of a name with one of the prefixes of extension
/// namespaces.
proof fn a_prefix_marks_its_tag(content: Seq<char>, name: Seq<char>, p: Seq<char>)
    requires
        name == tag_name(content),
        prefix(name) == Some(p),
        is_extension_prefix(p),
    ensures
        content.len() >= 4,
        content[0] == 'w',
        content[1] == '1',
        content[2] == '6' || ((content[2] == '4' || content[2] == '5') && content[3] == ':'),
{
    crate::xml::token::a_name_lies_in_its_tag(content);
    colon_ends_prefix(name);
    reveal_strlit("w14");
    reveal_strlit("w15");
    reveal_strlit("w16");
    reveal_strlit("w16se");
    reveal_strlit("w16cid");
    reveal_strlit("w16cex");
    reveal_strlit("w16sdtdh");
    reveal_strlit("w16du");
    let n = colon(name) as int;
    assert(p == name.take(n));
    assert(p.len() >= 3);
    assert(p[0] == name[0] && p[1] == name[1] && p[2] == name[2]);
    assert(name[0] == content[0] && name[1] == content[1] && name[2] == content[2]);
    assert(name[3] == content[3]);
}

/// A colon stands behind a prefix.
proof fn colon_ends_prefix(name: Seq<char>)
    ensures
        colon(name) <= name.len(),
        colon(name) < name.len() ==> name[colon(name) as int] == ':',
    decreases name.len(),
{
    if name.len() > 0 && name[0] != ':' {
        colon_ends_prefix(name.skip(1));
    }
}

/// A document with the tag of an extension element holds one of the marks that
/// start such an element.
proof fn a_tag_shows_its_mark(data: Seq<u8>, content: Seq<u8>, tag: &Tag)
    requires
        follows_bracket(data, content),
        tag_is(content, *tag),
        is_extension(*tag),
    ensures
        may_hold_extensions(data),
{
    let s = decode_utf8(content);
    decode_utf8_encode_utf8(content);
    let name = tag_name(s);
    let p = prefix(name)->0;
    a_prefix_marks_its_tag(s, name, p);
    a_plain_character_is_a_byte(s, 'w');
    a_plain_character_is_a_byte(s.skip(1), '1');
    let third = s.skip(1).skip(1);
    assert(third[0] == s[2]);
    a_plain_character_is_a_byte(third, s[2]);
    assert(content[0] == 0x77 && content[1] == 0x31 && content[2] == s[2] as u8);
    let k = choose|k: int|
        0 < k <= data.len() - content.len() && data[k - 1] == 0x3C && #[trigger] data.subrange(
            k,
            k + content.len(),
        ) == content;
    let behind = data.subrange(k, k + content.len());
    assert(data[k] == behind[0] && data[k + 1] == behind[1] && data[k + 2] == behind[2]);
    if s[2] == '6' {
        let mark = seq![0x3Cu8, 0x77u8, 0x31u8, 0x36u8];
        assert(data.subrange(k - 1, k - 1 + mark.len()) =~= mark);
    } else {
        let fourth = third.skip(1);
        assert(fourth[0] == s[3]);
        a_plain_character_is_a_byte(fourth, ':');
        assert(content[3] == 0x3A);
        assert(data[k + 3] == behind[3]);
        let mark = seq![0x3Cu8, 0x77u8, 0x31u8, s[2] as u8, 0x3Au8];
        assert(data.subrange(k - 1, k - 1 + mark.len()) =~= mark);
    }
}

/// A document without a mark holds no extension element.
pub proof fn without_a_mark_there_is_none(data: Seq<u8>, t: Seq<Token>)
    requires
        reads_as(data, t),
        !may_hold_extensions(data),
    ensures
        forall|k: int|
            0 <= k < t.len() ==> !starts_extension(#[trigger] t[k]) && !empty_extension(t[k]),
{
    let events = up_to_failure(xml_events(data));
    assert forall|k: int| 0 <= k < t.len() implies !starts_extension(#[trigger] t[k])
        && !empty_extension(t[k]) by {
        assert(token_is(events[k], t[k]));
        match events[k] {
            EventView::Start(c) => {
                if is_extension(*t[k]->Start_0) {
                    a_tag_shows_its_mark(data, c, &*t[k]->Start_0);
                }
            },
            EventView::Empty(c) => {
                if is_extension(*t[k]->Empty_0) {
                    a_tag_shows_its_mark(data, c, &*t[k]->Empty_0);
                }
            },
            _ => {},
        }
    }
}

/// A part is read by what is left of its tokens, marked or not.
proof fn a_part_is_what_is_left(data: Seq<u8>, t: Seq<Token>, root: Option<Element>)
    requires
        reads_as(data, t),
        without_extensions(t, 0) is Some,
        is_root(without_extensions(t, 0)->0, root),
    ensures
        part_root(data, root),
{
    if !may_hold_extensions(data) {
        without_a_mark_there_is_none(data, t);
        nothing_is_left_out(t, 0);
        assert(t.skip(0) =~= t);
    }
}

/// Two lists of tokens that a document reads as hold the same.
proof fn readings_hold_the_same(data: Seq<u8>, a: Seq<Token>, b: Seq<Token>)
    requires
        reads_as(data, a),
        reads_as(data, b),
    ensures
        same_tokens(a, b, 0),
{
    let events = up_to_failure(xml_events(data));
    assert forall|k: int| 0 <= k < a.len() implies same_token(a[k], #[trigger] b[k]) by {
        assert(token_is(events[k], a[k]));
        an_event_decodes_to_one(events[k], a[k], b[k]);
    }
}

/// Tokens that hold the same are read from the same document.
proof fn the_same_is_read(data: Seq<u8>, a: Seq<Token>, b: Seq<Token>)
    requires
        reads_as(data, a),
        same_tokens(a, b, 0),
    ensures
        reads_as(data, b),
{
    let events = up_to_failure(xml_events(data));
    assert forall|k: int| 0 <= k < events.len() implies token_is(events[k], #[trigger] b[k]) by {
        assert(token_is(events[k], a[k]));
        same_tokens_have_one_event(events[k], a[k], b[k]);
    }
}

/// What a document with extension elements reads as, a document without them
/// reads as too.
proof fn cut_reads_as_whole(
    data: Seq<u8>,
    cut: Seq<u8>,
    t: Seq<Token>,
    kept: Seq<Token>,
    root: Option<Element>,
)
    requires
        reads_as(data, t),
        without_extensions(t, 0) == Some(kept),
        reads_as(cut, kept),
        part_root(data, root),
    ensures
        part_root(cut, root),
{
    let u = choose|u: Seq<Token>| #[trigger]
        reads_as(data, u) && if may_hold_extensions(data) {
            match without_extensions(u, 0) {
                Some(k) => is_root(k, root),
                None => root is None,
            }
        } else {
            is_root(u, root)
        };
    readings_hold_the_same(data, t, u);
    the_rest_is_alike(t, u, 0);
    let left = without_extensions(u, 0)->0;
    if !may_hold_extensions(data) {
        without_a_mark_there_is_none(data, u);
        nothing_is_left_out(u, 0);
        assert(u.skip(0) =~= u);
    }
    assert(is_root(left, root));
    the_same_is_read(cut, kept, left);
    to_cut_again_changes_nothing(u);
    a_part_is_what_is_left(cut, left, root);
}

/// What a document without extension elements reads as, a document with them
/// reads as too.
proof fn whole_reads_as_cut(
    data: Seq<u8>,
    cut: Seq<u8>,
    t: Seq<Token>,
    kept: Seq<Token>,
    root: Option<Element>,
)
    requires
        reads_as(data, t),
        without_extensions(t, 0) == Some(kept),
        reads_as(cut, kept),
        part_root(cut, root),
    ensures
        part_root(data, root),
{
    let u = choose|u: Seq<Token>| #[trigger]
        reads_as(cut, u) && if may_hold_extensions(cut) {
            match without_extensions(u, 0) {
                Some(k) => is_root(k, root),
                None => root is None,
            }
        } else {
            is_root(u, root)
        };
    readings_hold_the_same(cut, kept, u);
    the_rest_is_alike(kept, u, 0);
    to_cut_again_changes_nothing(t);
    the_rest_is_sound(t, 0);
    assert forall|k: int| 0 <= k < u.len() implies !starts_extension(#[trigger] u[k])
        && !empty_extension(u[k]) by {
        assert(same_token(kept[k], u[k]));
        assert(!starts_extension(kept[k]) && !empty_extension(kept[k]));
    }
    nothing_is_left_out(u, 0);
    assert(u.skip(0) =~= u);
    assert(is_root(u, root));
    let whole = put_back(t, 0, u);
    the_same_is_read(data, t, whole);
    a_part_is_what_is_left(data, whole, root);
}

/// A part reads as the same part with its extension elements cut out: where the
/// tokens of the one are those of the other without such elements, whatever is
/// the root element of the one is that of the other, and one has none where the
/// other has none. So an extension element can neither set a field nor collide
/// with one.
pub proof fn a_part_reads_alike_without_extensions(
    data: Seq<u8>,
    cut: Seq<u8>,
    t: Seq<Token>,
    kept: Seq<Token>,
)
    requires
        reads_as(data, t),
        without_extensions(t, 0) == Some(kept),
        reads_as(cut, kept),
    ensures
        forall|root: Option<Element>| part_root(data, root) <==> #[trigger] part_root(cut, root),
{
    assert forall|root: Option<Element>| part_root(data, root) <==> #[trigger] part_root(
        cut,
        root,
    ) by {
        if part_root(data, root) {
            cut_reads_as_whole(data, cut, t, kept, root);
        }
        if part_root(cut, root) {
            whole_reads_as_cut(data, cut, t, kept, root);
        }
    }
}

} // verus!

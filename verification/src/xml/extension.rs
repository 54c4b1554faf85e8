//! Word's extension elements, and the reading of a part without them.
//!
//! Elements are looked up by their local names, so an element of a `w14`,
//! `w15` or `w16` namespace would stand for the transitional element of the
//! same local name. None of these namespaces is modelled: their elements are
//! dropped, with everything in them, before a part is looked at. Attributes
//! of those namespaces stay.
use vstd::prelude::*;

use crate::scan::str_eq;
use crate::xml::name::{prefix, prefix_of};
use crate::xml::token::{read_tokens, reads_as, Tag, Token};
use crate::xml::tree::{element_end, is_root, read_root, Element};

verus! {

/// The prefixes of Word's extension namespaces.
pub open spec fn is_extension_prefix(p: Seq<char>) -> bool {
    ||| p == "w14"@
    ||| p == "w15"@
    ||| p == "w16"@
    ||| p == "w16se"@
    ||| p == "w16cid"@
    ||| p == "w16cex"@
    ||| p == "w16sdtdh"@
    ||| p == "w16du"@
}

/// Whether a tag opens an extension element.
pub open spec fn is_extension(tag: Tag) -> bool {
    match tag.name {
        Some(n) => match prefix(n@) {
            Some(p) => is_extension_prefix(p),
            None => false,
        },
        None => false,
    }
}

/// Whether a token is the start tag of an extension element.
pub open spec fn starts_extension(t: Token) -> bool {
    t matches Token::Start(tag) && is_extension(*tag)
}

/// Whether a token is a whole extension element, with no content.
pub open spec fn empty_extension(t: Token) -> bool {
    t matches Token::Empty(tag) && is_extension(*tag)
}

/// Whether a tag opens an extension element.
pub fn is_extension_element(tag: &Tag) -> (r: bool)
    ensures
        r == is_extension(*tag),
{
    match &tag.name {
        None => false,
        Some(n) => match prefix_of(n.as_str()) {
            None => false,
            Some(p) => {
                let p: &str = p.as_str();
                str_eq(p, "w14") || str_eq(p, "w15") || str_eq(p, "w16") || str_eq(p, "w16se")
                    || str_eq(p, "w16cid") || str_eq(p, "w16cex") || str_eq(p, "w16sdtdh")
                    || str_eq(p, "w16du")
            },
        },
    }
}

/// The tokens from `i` on without those of extension elements. There are none
/// where the document is not well-formed or ends inside an extension element.
pub open spec fn without_extensions(t: Seq<Token>, i: int) -> Option<Seq<Token>>
    decreases t.len() - i,
{
    if i < 0 || i >= t.len() {
        Some(Seq::empty())
    } else if t[i] is Malformed {
        None
    } else if starts_extension(t[i]) {
        match element_end(t, i, 0) {
            Some(j) => if i < j <= t.len() {
                without_extensions(t, j)
            } else {
                None
            },
            None => None,
        }
    } else if empty_extension(t[i]) {
        without_extensions(t, i + 1)
    } else {
        match without_extensions(t, i + 1) {
            Some(rest) => Some(seq![t[i]] + rest),
            None => None,
        }
    }
}

/// A document with no extension element keeps every token.
pub proof fn without_extensions_keeps_the_rest(t: Seq<Token>, i: int)
    requires
        0 <= i <= t.len(),
        forall|k: int|
            0 <= k < t.len() ==> !(#[trigger] t[k] is Malformed) && !starts_extension(t[k])
                && !empty_extension(t[k]),
    ensures
        without_extensions(t, i) == Some(t.skip(i)),
    decreases t.len() - i,
{
    if i < t.len() {
        without_extensions_keeps_the_rest(t, i + 1);
        assert(seq![t[i]] + t.skip(i + 1) =~= t.skip(i));
    } else {
        assert(t.skip(i) =~= Seq::empty());
    }
}

/// What is left of a document holds no extension element.
pub proof fn without_extensions_drops_them(t: Seq<Token>, i: int)
    ensures
        without_extensions(t, i) matches Some(rest) ==> forall|k: int|
            0 <= k < rest.len() ==> !starts_extension(#[trigger] rest[k]) && !empty_extension(
                rest[k],
            ),
    decreases t.len() - i,
{
    if 0 <= i < t.len() && !(t[i] is Malformed) {
        if starts_extension(t[i]) {
            match element_end(t, i, 0) {
                Some(j) => if i < j <= t.len() {
                    without_extensions_drops_them(t, j);
                },
                None => {},
            }
        } else {
            without_extensions_drops_them(t, i + 1);
        }
    }
}

/// The position behind the element that starts at `i`.
fn skip_element(t: &Vec<Token>, i: usize) -> (r: Option<usize>)
    requires
        i < t@.len(),
        t@[i as int] is Start,
    ensures
        match r {
            Some(j) => element_end(t@, i as int, 0) == Some(j as int) && i < j <= t@.len(),
            None => element_end(t@, i as int, 0) is None,
        },
{
    let n: usize = t.len();
    let mut depth: usize = 1;
    let mut k: usize = i + 1;
    while k < n
        invariant
            n == t@.len(),
            i < k <= n,
            1 <= depth <= k - i,
            element_end(t@, i as int, 0) == element_end(t@, k as int, depth as nat),
        decreases n - k,
    {
        match &t[k] {
            Token::Malformed => {
                return None;
            },
            Token::Start(_) => {
                depth = depth + 1;
            },
            Token::End => {
                if depth == 1 {
                    return Some(k + 1);
                }
                depth = depth - 1;
            },
            _ => {},
        }
        k = k + 1;
    }
    None
}

/// A copy of a token.
fn copy_token(t: &Token) -> (r: Token)
    ensures
        r == *t,
{
    match t {
        Token::Start(tag) => Token::Start(tag.clone()),
        Token::Empty(tag) => Token::Empty(tag.clone()),
        Token::End => Token::End,
        Token::Text(s) => {
            let copy: Option<String> = s.clone();
            assert(copy == *s);
            Token::Text(copy)
        },
        Token::Skip => Token::Skip,
        Token::Malformed => Token::Malformed,
    }
}

/// Drops the extension elements of a document.
pub fn strip_extension_elements(t: &Vec<Token>) -> (r: Option<Vec<Token>>)
    ensures
        (match r {
            Some(v) => Some(v@),
            None => None,
        }) == without_extensions(t@, 0),
{
    let n: usize = t.len();
    let mut out: Vec<Token> = Vec::new();
    let mut i: usize = 0;
    proof {
        if without_extensions(t@, 0) is Some {
            assert(out@ + without_extensions(t@, 0)->0 =~= without_extensions(t@, 0)->0);
        }
    }
    while i < n
        invariant
            n == t@.len(),
            i <= n,
            match without_extensions(t@, i as int) {
                Some(rest) => without_extensions(t@, 0) == Some(out@ + rest),
                None => without_extensions(t@, 0) is None,
            },
        decreases n - i,
    {
        let drop: bool = match &t[i] {
            Token::Malformed => {
                return None;
            },
            Token::Start(tag) => is_extension_element(tag),
            Token::Empty(tag) => is_extension_element(tag),
            _ => false,
        };
        if drop {
            if matches!(&t[i], Token::Start(_)) {
                match skip_element(t, i) {
                    None => {
                        return None;
                    },
                    Some(j) => {
                        i = j;
                    },
                }
            } else {
                i = i + 1;
            }
        } else {
            let ghost kept = out@;
            out.push(copy_token(&t[i]));
            proof {
                if without_extensions(t@, i + 1) is Some {
                    let rest = without_extensions(t@, i + 1)->0;
                    assert(kept + (seq![t@[i as int]] + rest) =~= out@ + rest);
                }
            }
            i = i + 1;
        }
    }
    assert(out@ + Seq::<Token>::empty() =~= out@);
    Some(out)
}

/// Whether a byte string occurs in another.
pub open spec fn occurs(haystack: Seq<u8>, needle: Seq<u8>) -> bool {
    exists|i: int|
        0 <= i <= haystack.len() - needle.len() && #[trigger] haystack.subrange(
            i,
            i + needle.len(),
        ) == needle
}

/// Whether a byte string occurs in another.
pub fn contains_subslice(haystack: &[u8], needle: &[u8]) -> (r: bool)
    requires
        needle@.len() > 0,
    ensures
        r == occurs(haystack@, needle@),
{
    let n: usize = haystack.len();
    let m: usize = needle.len();
    if n < m {
        return false;
    }
    let mut i: usize = 0;
    while i <= n - m
        invariant
            n == haystack@.len(),
            m == needle@.len(),
            0 < m <= n,
            i <= n - m + 1,
            forall|k: int|
                0 <= k < i ==> #[trigger] haystack@.subrange(k, k + m) != needle@,
        decreases n - m + 1 - i,
    {
        let mut j: usize = 0;
        while j < m && haystack[i + j] == needle[j]
            invariant
                n == haystack@.len(),
                m == needle@.len(),
                i + m <= n,
                j <= m,
                forall|k: int| 0 <= k < j ==> haystack@[i + k] == needle@[k],
            decreases m - j,
        {
            j = j + 1;
        }
        if j == m {
            assert(haystack@.subrange(i as int, i + m) =~= needle@);
            return true;
        }
        assert(haystack@.subrange(i as int, i + m) != needle@) by {
            assert(haystack@.subrange(i as int, i + m)[j as int] == haystack@[i + j]);
        }
        i = i + 1;
    }
    false
}

/// Whether a document may hold an extension element: one of the marks that
/// start such an element occurs in it.
pub open spec fn may_hold_extensions(data: Seq<u8>) -> bool {
    ||| occurs(data, seq![0x3Cu8, 0x77u8, 0x31u8, 0x34u8, 0x3Au8])
    ||| occurs(data, seq![0x3Cu8, 0x77u8, 0x31u8, 0x35u8, 0x3Au8])
    ||| occurs(data, seq![0x3Cu8, 0x77u8, 0x31u8, 0x36u8])
}

/// Whether one of `<w14:`, `<w15:` and `<w16` occurs in a document.
fn has_extension_marker(data: &[u8]) -> (r: bool)
    ensures
        r == may_hold_extensions(data@),
{
    let w14: [u8; 5] = [0x3C, 0x77, 0x31, 0x34, 0x3A];
    let w15: [u8; 5] = [0x3C, 0x77, 0x31, 0x35, 0x3A];
    let w16: [u8; 4] = [0x3C, 0x77, 0x31, 0x36];
    assert(w14@ =~= seq![0x3Cu8, 0x77u8, 0x31u8, 0x34u8, 0x3Au8]);
    assert(w15@ =~= seq![0x3Cu8, 0x77u8, 0x31u8, 0x35u8, 0x3Au8]);
    assert(w16@ =~= seq![0x3Cu8, 0x77u8, 0x31u8, 0x36u8]);
    contains_subslice(data, &w14) || contains_subslice(data, &w15) || contains_subslice(data, &w16)
}

/// Whether `root` is the root element of a part without its extension
/// elements, or is missing because the part has none that can be read.
pub open spec fn part_root(data: Seq<u8>, root: Option<Element>) -> bool {
    exists|t: Seq<Token>| #[trigger]
        reads_as(data, t) && if may_hold_extensions(data) {
            match without_extensions(t, 0) {
                Some(kept) => is_root(kept, root),
                None => root is None,
            }
        } else {
            is_root(t, root)
        }
}

/// Reads the root element of a part, without its extension elements.
pub fn from_xml(data: &[u8]) -> (r: Option<Element>)
    ensures
        part_root(data@, r),
{
    let tokens: Vec<Token> = read_tokens(data);
    assert(reads_as(data@, tokens@));
    if has_extension_marker(data) {
        match strip_extension_elements(&tokens) {
            Some(kept) => read_root(&kept),
            None => None,
        }
    } else {
        read_root(&tokens)
    }
}

} // verus!

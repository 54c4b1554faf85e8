//! The element tree that a list of tokens spells.
use vstd::prelude::*;
use std::rc::Rc;

use crate::scan::chars_of;
use crate::xml::token::{is_xml_space, xml_space, Tag, Token};

verus! {

/// A child of an element.
#[derive(Debug)]
pub enum Node {
    Element(Box<Element>),
    /// Text; `None` where it cannot be decoded.
    Text(Option<String>),
    /// A comment or a processing instruction.
    Skip,
}

/// An element with its children in document order.
#[derive(Debug)]
pub struct Element {
    pub tag: Rc<Tag>,
    /// Whether the element is written as one empty-element tag.
    pub closed: bool,
    pub children: Vec<Node>,
}

/// The tokens that spell an element.
pub open spec fn spell(e: Element) -> Seq<Token>
    decreases e,
{
    if e.closed {
        seq![Token::Empty(e.tag)]
    } else {
        seq![Token::Start(e.tag)] + spell_nodes(e.children@) + seq![Token::End]
    }
}

/// The tokens that spell a list of nodes.
pub open spec fn spell_nodes(nodes: Seq<Node>) -> Seq<Token>
    decreases nodes,
{
    if nodes.len() == 0 {
        Seq::empty()
    } else {
        spell_nodes(nodes.drop_last()) + spell_node(nodes.last())
    }
}

/// The tokens that spell a node.
pub open spec fn spell_node(node: Node) -> Seq<Token>
    decreases node,
{
    match node {
        Node::Element(e) => spell(*e),
        Node::Text(s) => seq![Token::Text(s)],
        Node::Skip => seq![Token::Skip],
    }
}

/// The position behind the end tag that closes `depth` open elements, and one
/// more that starts at `i` where `depth` is zero.
pub open spec fn element_end(t: Seq<Token>, i: int, depth: nat) -> Option<int>
    decreases t.len() - i,
{
    if i < 0 || i >= t.len() {
        None
    } else {
        match t[i] {
            Token::Malformed => None,
            Token::Start(_) => element_end(t, i + 1, depth + 1),
            Token::Empty(_) => if depth == 0 {
                Some(i + 1)
            } else {
                element_end(t, i + 1, depth)
            },
            Token::End => if depth <= 1 {
                Some(i + 1)
            } else {
                element_end(t, i + 1, (depth - 1) as nat)
            },
            _ => element_end(t, i + 1, depth),
        }
    }
}

/// An element ends behind its start and inside the document.
pub proof fn element_end_bounds(t: Seq<Token>, i: int, depth: nat)
    ensures
        element_end(t, i, depth) matches Some(j) ==> i < j <= t.len(),
    decreases t.len() - i,
{
    if 0 <= i < t.len() {
        match t[i] {
            Token::Start(_) => element_end_bounds(t, i + 1, depth + 1),
            Token::Empty(_) => if depth > 0 {
                element_end_bounds(t, i + 1, depth);
            },
            Token::End => if depth > 1 {
                element_end_bounds(t, i + 1, (depth - 1) as nat);
            },
            Token::Malformed => {},
            _ => element_end_bounds(t, i + 1, depth),
        }
    }
}

/// Elements that close inside open elements leave those open.
proof fn element_end_nests(t: Seq<Token>, i: int, inner: nat, outer: nat)
    requires
        inner >= 1,
        outer >= 1,
    ensures
        match element_end(t, i, inner) {
            Some(j) => element_end(t, i, inner + outer) == element_end(t, j, outer),
            None => element_end(t, i, inner + outer) is None,
        },
    decreases t.len() - i,
{
    if 0 <= i < t.len() {
        match t[i] {
            Token::Start(_) => element_end_nests(t, i + 1, inner + 1, outer),
            Token::Empty(_) => element_end_nests(t, i + 1, inner, outer),
            Token::End => if inner > 1 {
                element_end_nests(t, i + 1, (inner - 1) as nat, outer);
            },
            Token::Malformed => {},
            _ => element_end_nests(t, i + 1, inner, outer),
        }
    }
}

/// A whole element inside an open element leaves that open.
proof fn element_end_skips(t: Seq<Token>, i: int)
    requires
        0 <= i < t.len(),
        t[i] is Start || t[i] is Empty,
    ensures
        match element_end(t, i, 0) {
            Some(j) => element_end(t, i, 1) == element_end(t, j, 1),
            None => element_end(t, i, 1) is None,
        },
{
    if t[i] is Start {
        element_end_nests(t, i + 1, 1, 1);
    }
}

/// Reads the element that starts at `i`.
fn read_element(t: &Vec<Token>, i: usize) -> (r: Option<(Element, usize)>)
    requires
        i < t@.len(),
        t@[i as int] is Start || t@[i as int] is Empty,
    ensures
        match r {
            Some((e, j)) => {
                &&& element_end(t@, i as int, 0) == Some(j as int)
                &&& t@.subrange(i as int, j as int) == spell(e)
            },
            None => element_end(t@, i as int, 0) is None,
        },
    decreases t@.len() - i,
{
    let n: usize = t.len();
    let tag: Rc<Tag> = match &t[i] {
        Token::Empty(tag) => {
            let e = Element { tag: tag.clone(), closed: true, children: Vec::new() };
            assert(t@.subrange(i as int, i + 1) =~= spell(e));
            return Some((e, i + 1));
        },
        Token::Start(tag) => tag.clone(),
        _ => {
            return None;
        },
    };
    let mut children: Vec<Node> = Vec::new();
    let mut k: usize = i + 1;
    assert(t@.subrange(i + 1, k as int) =~= spell_nodes(children@));
    while k < n
        invariant
            n == t@.len(),
            i < k <= n,
            t@[i as int] == Token::Start(tag),
            t@.subrange(i + 1, k as int) == spell_nodes(children@),
            element_end(t@, i as int, 0) == element_end(t@, k as int, 1),
        decreases n - k,
    {
        proof {
            element_end_bounds(t@, k as int, 0);
        }
        let ghost before = children@;
        match &t[k] {
            Token::End => {
                let e = Element { tag, closed: false, children };
                assert(t@.subrange(i as int, k + 1) =~= seq![t@[i as int]] + t@.subrange(
                    i + 1,
                    k as int,
                ) + seq![t@[k as int]]);
                assert(t@.subrange(i as int, k + 1) =~= spell(e));
                return Some((e, k + 1));
            },
            Token::Malformed => {
                return None;
            },
            Token::Text(s) => {
                let copy: Option<String> = s.clone();
                assert(copy == *s);
                children.push(Node::Text(copy));
                assert(children@.drop_last() =~= before);
                assert(spell_node(children@.last()) == seq![t@[k as int]]);
                assert(t@.subrange(i + 1, k + 1) =~= t@.subrange(i + 1, k as int) + seq![
                    t@[k as int],
                ]);
                k = k + 1;
            },
            Token::Skip => {
                children.push(Node::Skip);
                assert(children@.drop_last() =~= before);
                assert(spell_node(children@.last()) == seq![t@[k as int]]);
                assert(t@.subrange(i + 1, k + 1) =~= t@.subrange(i + 1, k as int) + seq![
                    t@[k as int],
                ]);
                k = k + 1;
            },
            _ => {
                proof {
                    element_end_skips(t@, k as int);
                }
                match read_element(t, k) {
                    None => {
                        return None;
                    },
                    Some((e, j)) => {
                        children.push(Node::Element(Box::new(e)));
                        assert(children@.drop_last() =~= before);
                        assert(spell_node(children@.last()) == spell(e));
                        assert(t@.subrange(i + 1, j as int) =~= t@.subrange(i + 1, k as int)
                            + t@.subrange(k as int, j as int));
                        k = j;
                    },
                }
            },
        }
    }
    None
}

/// Whether text is white space alone.
pub open spec fn is_blank(s: Seq<char>) -> bool {
    forall|i: int| 0 <= i < s.len() ==> is_xml_space(#[trigger] s[i])
}

/// Whether text is white space alone.
pub fn blank(s: &str) -> (r: bool)
    ensures
        r == is_blank(s@),
{
    let all: Vec<char> = chars_of(s);
    let mut i: usize = 0;
    while i < all.len()
        invariant
            all@ == s@,
            i <= all@.len(),
            forall|j: int| 0 <= j < i ==> is_xml_space(#[trigger] s@[j]),
        decreases all@.len() - i,
    {
        if !xml_space(all[i]) {
            assert(!is_xml_space(s@[i as int]));
            return false;
        }
        i = i + 1;
    }
    true
}

/// The position of the root element: the first tag, with nothing but blank
/// text, comments and declarations before it.
pub open spec fn root_start(t: Seq<Token>, i: int) -> Option<int>
    decreases t.len() - i,
{
    if i < 0 || i >= t.len() {
        None
    } else {
        match t[i] {
            Token::Skip => root_start(t, i + 1),
            Token::Text(Some(s)) => if is_blank(s@) {
                root_start(t, i + 1)
            } else {
                None
            },
            Token::Start(_) => Some(i),
            Token::Empty(_) => Some(i),
            _ => None,
        }
    }
}

/// Whether `root` is the root element that a list of tokens spells, or is
/// missing because the tokens spell none. What stands behind the root
/// element is not looked at.
pub open spec fn is_root(t: Seq<Token>, root: Option<Element>) -> bool {
    let end = match root_start(t, 0) {
        Some(i) => element_end(t, i, 0),
        None => None,
    };
    match root {
        Some(e) => end is Some && t.subrange(root_start(t, 0)->0, end->0) == spell(e),
        None => end is None,
    }
}

/// Reads the root element.
pub fn read_root(t: &Vec<Token>) -> (r: Option<Element>)
    ensures
        is_root(t@, r),
{
    let n: usize = t.len();
    let mut i: usize = 0;
    while i < n
        invariant
            n == t@.len(),
            i <= n,
            root_start(t@, 0) == root_start(t@, i as int),
        decreases n - i,
    {
        match &t[i] {
            Token::Skip => {},
            Token::Text(Some(s)) => {
                if !blank(s.as_str()) {
                    return None;
                }
            },
            Token::Start(_) => {
                return match read_element(t, i) {
                    Some((e, _)) => Some(e),
                    None => None,
                };
            },
            Token::Empty(_) => {
                return match read_element(t, i) {
                    Some((e, _)) => Some(e),
                    None => None,
                };
            },
            _ => {
                return None;
            },
        }
        i = i + 1;
    }
    None
}

} // verus!

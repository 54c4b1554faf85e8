//! Looking up the children and attributes of an element by local name.
use vstd::prelude::*;

use crate::scan::str_eq;
use crate::xml::event::opt_view;
use crate::xml::name::{attr_field, attr_field_name, local_name, local_part};
use crate::xml::token::Attr;
use crate::xml::tree::{Element, Node};

verus! {

/// The local name of an element, where its tag has one.
pub open spec fn element_name(e: Element) -> Option<Seq<char>> {
    match e.tag.name {
        Some(n) => Some(local_part(n@)),
        None => None,
    }
}

/// Whether a node is an element with the given local name.
pub open spec fn named(n: Node, name: Seq<char>) -> bool {
    n matches Node::Element(e) && element_name(*e) == Some(name)
}

/// The local name of an element, where its tag has one.
pub fn element_local_name(e: &Element) -> (r: Option<String>)
    ensures
        opt_view(r) == element_name(*e),
{
    match &e.tag.name {
        Some(n) => Some(local_name(n.as_str())),
        None => None,
    }
}

/// Whether a node is an element with the given local name.
pub fn is_named(n: &Node, name: &str) -> (r: bool)
    ensures
        r == named(*n, name@),
{
    match n {
        Node::Element(e) => match element_local_name(e) {
            Some(l) => str_eq(l.as_str(), name),
            None => false,
        },
        _ => false,
    }
}

/// The elements of the given local name among a list of nodes, in order.
pub open spec fn elements_named(nodes: Seq<Node>, name: Seq<char>) -> Seq<Element>
    decreases nodes.len(),
{
    if nodes.len() == 0 {
        Seq::empty()
    } else {
        let rest = elements_named(nodes.drop_last(), name);
        match nodes.last() {
            Node::Element(e) => if element_name(*e) == Some(name) {
                rest.push(*e)
            } else {
                rest
            },
            _ => rest,
        }
    }
}

/// The children of the given local name, in order.
pub open spec fn children_named(e: Element, name: Seq<char>) -> Seq<Element> {
    elements_named(e.children@, name)
}

/// The first child of the given local name.
pub open spec fn child_named(e: Element, name: Seq<char>) -> Option<Element> {
    let all = children_named(e, name);
    if all.len() > 0 {
        Some(all[0])
    } else {
        None
    }
}

/// The first child of the given name in `path`, and in it that of the next.
pub open spec fn grandchild(e: Element, outer: Seq<char>, inner: Seq<char>) -> Option<Element> {
    match child_named(e, outer) {
        Some(c) => child_named(c, inner),
        None => None,
    }
}

/// The children of the given local name, in order.
pub fn children<'a>(e: &'a Element, name: &str) -> (r: Vec<&'a Element>)
    ensures
        r@.len() == children_named(*e, name@).len(),
        forall|i: int| 0 <= i < r@.len() ==> *#[trigger] r@[i] == children_named(*e, name@)[i],
{
    let mut out: Vec<&'a Element> = Vec::new();
    let n: usize = e.children.len();
    let mut i: usize = 0;
    while i < n
        invariant
            n == e.children@.len(),
            i <= n,
            out@.len() == elements_named(e.children@.take(i as int), name@).len(),
            forall|j: int|
                0 <= j < out@.len() ==> *#[trigger] out@[j] == elements_named(
                    e.children@.take(i as int),
                    name@,
                )[j],
        decreases n - i,
    {
        assert(e.children@.take(i + 1).drop_last() =~= e.children@.take(i as int));
        assert(e.children@.take(i + 1).last() == e.children@[i as int]);
        match &e.children[i] {
            Node::Element(c) => {
                let same: bool = match element_local_name(c) {
                    Some(l) => str_eq(l.as_str(), name),
                    None => false,
                };
                if same {
                    out.push(&**c);
                }
            },
            _ => {},
        }
        i = i + 1;
    }
    assert(e.children@.take(n as int) =~= e.children@);
    out
}

/// The first child of the given local name.
pub fn child<'a>(e: &'a Element, name: &str) -> (r: Option<&'a Element>)
    ensures
        r is Some <==> child_named(*e, name@) is Some,
        r is Some ==> *r->0 == child_named(*e, name@)->0,
{
    let all: Vec<&'a Element> = children(e, name);
    if all.len() > 0 {
        Some(all[0])
    } else {
        None
    }
}

/// The first child of a first child.
pub fn child_of_child<'a>(e: &'a Element, outer: &str, inner: &str) -> (r: Option<&'a Element>)
    ensures
        r is Some <==> grandchild(*e, outer@, inner@) is Some,
        r is Some ==> *r->0 == grandchild(*e, outer@, inner@)->0,
{
    match child(e, outer) {
        Some(c) => child(c, inner),
        None => None,
    }
}

/// Whether an attribute is looked up under the given name.
pub open spec fn attr_named(a: Option<Attr>, name: Seq<char>) -> bool {
    a matches Some(x) && attr_field(x.key@) == name
}

/// The value of the first attribute of the given name, where it can be decoded.
pub open spec fn first_attr(attributes: Seq<Option<Attr>>, name: Seq<char>) -> Option<Seq<char>>
    decreases attributes.len(),
{
    if attributes.len() == 0 {
        None
    } else if attr_named(attributes[0], name) {
        opt_view(attributes[0]->0.value)
    } else {
        first_attr(attributes.skip(1), name)
    }
}

/// The value of an attribute, where the element has it and it can be decoded.
pub open spec fn attr(e: Element, name: Seq<char>) -> Option<Seq<char>> {
    first_attr(e.tag.attributes@, name)
}

/// The value of an attribute of an optional element.
pub open spec fn opt_attr_of(e: Option<Element>, name: Seq<char>) -> Option<Seq<char>> {
    match e {
        Some(x) => attr(x, name),
        None => None,
    }
}

/// The value of an attribute, where the element has it and it can be decoded.
pub fn attribute(e: &Element, name: &str) -> (r: Option<String>)
    ensures
        opt_view(r) == attr(*e, name@),
{
    let n: usize = e.tag.attributes.len();
    let ghost all = e.tag.attributes@;
    let mut i: usize = 0;
    assert(all.skip(0) =~= all);
    while i < n
        invariant
            all == e.tag.attributes@,
            n == all.len(),
            i <= n,
            first_attr(all, name@) == first_attr(all.skip(i as int), name@),
        decreases n - i,
    {
        assert(all.skip(i as int)[0] == all[i as int]);
        assert(all.skip(i as int).skip(1) =~= all.skip(i + 1));
        match &e.tag.attributes[i] {
            Some(a) => {
                let field: String = attr_field_name(a.key.as_str());
                if str_eq(field.as_str(), name) {
                    let copy: Option<String> = a.value.clone();
                    assert(copy == a.value);
                    return copy;
                }
            },
            None => {},
        }
        i = i + 1;
    }
    None
}

/// The value of an attribute of an optional element.
pub fn attribute_of(e: Option<&Element>, name: &str) -> (r: Option<String>)
    ensures
        opt_view(r) == match e {
            Some(x) => attr(*x, name@),
            None => None,
        },
{
    match e {
        Some(x) => attribute(x, name),
        None => None,
    }
}

/// The text among a list of nodes.
pub open spec fn text_in(nodes: Seq<Node>) -> Seq<char>
    decreases nodes.len(),
{
    if nodes.len() == 0 {
        Seq::empty()
    } else {
        match nodes.last() {
            Node::Text(Some(s)) => text_in(nodes.drop_last()) + s@,
            _ => text_in(nodes.drop_last()),
        }
    }
}

/// The text that stands directly in an element.
pub fn element_text(e: &Element) -> (r: String)
    ensures
        r@ == text_in(e.children@),
{
    let mut out: String = String::new();
    let n: usize = e.children.len();
    let mut i: usize = 0;
    while i < n
        invariant
            n == e.children@.len(),
            i <= n,
            out@ == text_in(e.children@.take(i as int)),
        decreases n - i,
    {
        assert(e.children@.take(i + 1).drop_last() =~= e.children@.take(i as int));
        match &e.children[i] {
            Node::Text(Some(s)) => {
                out.append(s.as_str());
            },
            _ => {},
        }
        i = i + 1;
    }
    assert(e.children@.take(n as int) =~= e.children@);
    out
}

} // verus!

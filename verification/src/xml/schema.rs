//! What an element may hold at most once, and what must stand together.
//!
//! A known attribute or child is read by its local name, so it may occur only
//! once; children that form a list must follow one another, and so must the
//! children that no name claims, where they are read as one list.
use vstd::prelude::*;

use crate::scan::str_eq;
use crate::xml::name::{attr_field, attr_field_name};
use crate::xml::query::{children, children_named, element_local_name, element_name, is_named, named};
use crate::xml::token::Attr;
use crate::xml::tree::{blank, is_blank, Element, Node};

verus! {

/// Whether one of a list of names is the given one.
pub open spec fn listed(names: Seq<&str>, name: Seq<char>) -> bool {
    exists|k: int| 0 <= k < names.len() && #[trigger] names[k]@ == name
}

/// Whether one of a list of names is the given one.
fn is_listed(names: &[&str], name: &str) -> (r: bool)
    ensures
        r == listed(names@, name@),
{
    let mut k: usize = 0;
    while k < names.len()
        invariant
            k <= names@.len(),
            forall|j: int| 0 <= j < k ==> #[trigger] names@[j]@ != name@,
        decreases names@.len() - k,
    {
        if str_eq(names[k], name) {
            assert(names@[k as int]@ == name@);
            return true;
        }
        k = k + 1;
    }
    false
}

/// Whether an attribute is well-formed, and can be decoded where it is known.
pub open spec fn attr_reads(a: Option<Attr>, known: Seq<&str>) -> bool {
    a matches Some(x) && (listed(known, attr_field(x.key@)) ==> x.value is Some)
}

/// Whether two attributes may stand in one tag: their qualified names differ,
/// and no known name stands for both.
pub open spec fn attrs_differ(a: Option<Attr>, b: Option<Attr>, known: Seq<&str>) -> bool {
    match (a, b) {
        (Some(x), Some(y)) => {
            &&& x.key@ != y.key@
            &&& attr_field(x.key@) == attr_field(y.key@) ==> !listed(known, attr_field(x.key@))
        },
        _ => true,
    }
}

/// Whether every attribute of a tag is well-formed and each known one is
/// stated at most once.
pub open spec fn attributes_conform(attributes: Seq<Option<Attr>>, known: Seq<&str>) -> bool {
    &&& forall|i: int| 0 <= i < attributes.len() ==> attr_reads(#[trigger] attributes[i], known)
    &&& forall|i: int, j: int|
        0 <= i < j < attributes.len() ==> attrs_differ(
            #[trigger] attributes[i],
            #[trigger] attributes[j],
            known,
        )
}

/// Whether two attributes may stand in one tag.
fn differ(a: &Option<Attr>, b: &Option<Attr>, known: &[&str]) -> (r: bool)
    ensures
        r == attrs_differ(*a, *b, known@),
{
    match (a, b) {
        (Some(x), Some(y)) => {
            if str_eq(x.key.as_str(), y.key.as_str()) {
                return false;
            }
            let f: String = attr_field_name(x.key.as_str());
            let g: String = attr_field_name(y.key.as_str());
            !(str_eq(f.as_str(), g.as_str()) && is_listed(known, f.as_str()))
        },
        _ => true,
    }
}

/// Whether every attribute of a tag is well-formed and each known one is
/// stated at most once.
fn check_attributes(attributes: &Vec<Option<Attr>>, known: &[&str]) -> (r: bool)
    ensures
        r == attributes_conform(attributes@, known@),
{
    let n: usize = attributes.len();
    let mut j: usize = 0;
    while j < n
        invariant
            n == attributes@.len(),
            j <= n,
            forall|i: int| 0 <= i < j ==> attr_reads(#[trigger] attributes@[i], known@),
            forall|i: int, k: int|
                0 <= i < k < j ==> attrs_differ(
                    #[trigger] attributes@[i],
                    #[trigger] attributes@[k],
                    known@,
                ),
        decreases n - j,
    {
        let reads: bool = match &attributes[j] {
            None => false,
            Some(a) => a.value.is_some() || !is_listed(
                known,
                attr_field_name(a.key.as_str()).as_str(),
            ),
        };
        if !reads {
            assert(!attr_reads(attributes@[j as int], known@));
            return false;
        }
        let mut i: usize = 0;
        while i < j
            invariant
                n == attributes@.len(),
                i <= j < n,
                forall|k: int|
                    0 <= k < i ==> attrs_differ(
                        #[trigger] attributes@[k],
                        attributes@[j as int],
                        known@,
                    ),
            decreases j - i,
        {
            if !differ(&attributes[i], &attributes[j], known) {
                assert(!attrs_differ(attributes@[i as int], attributes@[j as int], known@));
                return false;
            }
            i = i + 1;
        }
        j = j + 1;
    }
    true
}

/// Whether a node is blank text or nothing that is read.
pub open spec fn passes(n: Node) -> bool {
    match n {
        Node::Skip => true,
        Node::Text(Some(s)) => is_blank(s@),
        _ => false,
    }
}

/// Whether a node is blank text or nothing that is read.
fn is_passed(n: &Node) -> (r: bool)
    ensures
        r == passes(*n),
{
    match n {
        Node::Skip => true,
        Node::Text(Some(s)) => blank(s.as_str()),
        _ => false,
    }
}

/// Whether a node can be read at all: text can be decoded, an element has a name.
pub open spec fn node_reads(n: Node) -> bool {
    match n {
        Node::Element(e) => element_name(*e) is Some,
        Node::Text(s) => s is Some,
        Node::Skip => true,
    }
}

/// Whether the elements of a name follow one another, with nothing but blank
/// text and comments between them.
pub open spec fn together(nodes: Seq<Node>, name: Seq<char>) -> bool {
    forall|a: int, b: int, c: int|
        0 <= a < b < c < nodes.len() && named(#[trigger] nodes[a], name) && named(
            #[trigger] nodes[c],
            name,
        ) ==> named(#[trigger] nodes[b], name) || passes(nodes[b])
}

/// Whether the elements of a name follow one another.
fn check_together(nodes: &Vec<Node>, name: &str) -> (r: bool)
    ensures
        r == together(nodes@, name@),
{
    let n: usize = nodes.len();
    let mut seen: bool = false;
    let mut ended: bool = false;
    let ghost mut at: int = 0;
    let ghost mut gap: int = 0;
    let mut i: usize = 0;
    while i < n
        invariant
            n == nodes@.len(),
            i <= n,
            seen ==> 0 <= at < i && named(nodes@[at], name@),
            !seen ==> !ended && forall|a: int| 0 <= a < i ==> !named(#[trigger] nodes@[a], name@),
            ended ==> seen && at < gap < i && !named(nodes@[gap], name@) && !passes(nodes@[gap]),
            seen && !ended ==> forall|b: int|
                at <= b < i ==> named(#[trigger] nodes@[b], name@) || passes(nodes@[b]),
            seen ==> forall|a: int| 0 <= a < at ==> !named(#[trigger] nodes@[a], name@),
            ended ==> forall|b: int|
                at <= b < gap ==> named(#[trigger] nodes@[b], name@) || passes(nodes@[b]),
            ended ==> forall|c: int| gap <= c < i ==> !named(#[trigger] nodes@[c], name@),
        decreases n - i,
    {
        if is_named(&nodes[i], name) {
            if ended {
                assert(named(nodes@[at], name@) && named(nodes@[i as int], name@) && !(named(
                    nodes@[gap],
                    name@,
                ) || passes(nodes@[gap])));
                return false;
            }
            if !seen {
                seen = true;
                proof {
                    at = i as int;
                }
            }
        } else if seen && !ended && !is_passed(&nodes[i]) {
            ended = true;
            proof {
                gap = i as int;
            }
        }
        i = i + 1;
    }
    true
}

/// Whether a node is claimed by none of the given names: an element of
/// another name, or text that is not blank.
pub open spec fn unclaimed(n: Node, claimed: Seq<&str>) -> bool {
    match n {
        Node::Element(e) => match element_name(*e) {
            Some(l) => !listed(claimed, l),
            None => true,
        },
        _ => !passes(n),
    }
}

/// Whether a node is claimed by none of the given names.
fn is_unclaimed(n: &Node, claimed: &[&str]) -> (r: bool)
    ensures
        r == unclaimed(*n, claimed@),
{
    match n {
        Node::Element(e) => match element_local_name(e) {
            Some(l) => !is_listed(claimed, l.as_str()),
            None => true,
        },
        _ => !is_passed(n),
    }
}

/// Whether the nodes that no name claims follow one another.
pub open spec fn rest_together(nodes: Seq<Node>, claimed: Seq<&str>) -> bool {
    forall|a: int, b: int, c: int|
        0 <= a < b < c < nodes.len() && unclaimed(#[trigger] nodes[a], claimed) && unclaimed(
            #[trigger] nodes[c],
            claimed,
        ) ==> unclaimed(#[trigger] nodes[b], claimed) || passes(nodes[b])
}

/// Whether the nodes that no name claims follow one another.
fn check_rest_together(nodes: &Vec<Node>, claimed: &[&str]) -> (r: bool)
    ensures
        r == rest_together(nodes@, claimed@),
{
    let n: usize = nodes.len();
    let mut seen: bool = false;
    let mut ended: bool = false;
    let ghost mut at: int = 0;
    let ghost mut gap: int = 0;
    let mut i: usize = 0;
    while i < n
        invariant
            n == nodes@.len(),
            i <= n,
            seen ==> 0 <= at < i && unclaimed(nodes@[at], claimed@),
            !seen ==> !ended && forall|a: int|
                0 <= a < i ==> !unclaimed(#[trigger] nodes@[a], claimed@),
            ended ==> seen && at < gap < i && !unclaimed(nodes@[gap], claimed@) && !passes(
                nodes@[gap],
            ),
            seen && !ended ==> forall|b: int|
                at <= b < i ==> unclaimed(#[trigger] nodes@[b], claimed@) || passes(nodes@[b]),
            seen ==> forall|a: int| 0 <= a < at ==> !unclaimed(#[trigger] nodes@[a], claimed@),
            ended ==> forall|b: int|
                at <= b < gap ==> unclaimed(#[trigger] nodes@[b], claimed@) || passes(nodes@[b]),
            ended ==> forall|c: int|
                gap <= c < i ==> !unclaimed(#[trigger] nodes@[c], claimed@),
        decreases n - i,
    {
        if is_unclaimed(&nodes[i], claimed) {
            if ended {
                assert(unclaimed(nodes@[at], claimed@) && unclaimed(nodes@[i as int], claimed@)
                    && !(unclaimed(nodes@[gap], claimed@) || passes(nodes@[gap])));
                return false;
            }
            if !seen {
                seen = true;
                proof {
                    at = i as int;
                }
            }
        } else if seen && !ended && !is_passed(&nodes[i]) {
            ended = true;
            proof {
                gap = i as int;
            }
        }
        i = i + 1;
    }
    true
}

/// Whether an element keeps to what its reader expects: its tag reads and
/// states each of the attributes `known` at most once, its children read,
/// each child of a name in `single` stands at most once, and the children of
/// each name in `lists` follow one another.
pub open spec fn conforms(
    e: Element,
    known: Seq<&str>,
    single: Seq<&str>,
    lists: Seq<&str>,
) -> bool {
    &&& attributes_conform(e.tag.attributes@, known)
    &&& forall|i: int| 0 <= i < e.children@.len() ==> node_reads(#[trigger] e.children@[i])
    &&& forall|k: int|
        0 <= k < single.len() ==> children_named(e, #[trigger] single[k]@).len() <= 1
    &&& forall|k: int| 0 <= k < lists.len() ==> together(e.children@, #[trigger] lists[k]@)
}

/// Whether an element keeps to what its reader expects.
pub fn check_element(e: &Element, known: &[&str], single: &[&str], lists: &[&str]) -> (r: bool)
    ensures
        r == conforms(*e, known@, single@, lists@),
{
    if !check_attributes(&e.tag.attributes, known) {
        return false;
    }
    let mut i: usize = 0;
    while i < e.children.len()
        invariant
            i <= e.children@.len(),
            forall|j: int| 0 <= j < i ==> node_reads(#[trigger] e.children@[j]),
        decreases e.children@.len() - i,
    {
        let reads: bool = match &e.children[i] {
            Node::Element(c) => c.tag.name.is_some(),
            Node::Text(s) => s.is_some(),
            Node::Skip => true,
        };
        if !reads {
            assert(!node_reads(e.children@[i as int]));
            return false;
        }
        i = i + 1;
    }
    let mut k: usize = 0;
    while k < single.len()
        invariant
            k <= single@.len(),
            forall|j: int|
                0 <= j < k ==> children_named(*e, #[trigger] single@[j]@).len() <= 1,
        decreases single@.len() - k,
    {
        if children(e, single[k]).len() > 1 {
            assert(children_named(*e, single@[k as int]@).len() > 1);
            return false;
        }
        k = k + 1;
    }
    let mut k: usize = 0;
    while k < lists.len()
        invariant
            k <= lists@.len(),
            forall|j: int| 0 <= j < k ==> together(e.children@, #[trigger] lists@[j]@),
        decreases lists@.len() - k,
    {
        if !check_together(&e.children, lists[k]) {
            assert(!together(e.children@, lists@[k as int]@));
            return false;
        }
        k = k + 1;
    }
    true
}

/// Whether an element keeps to what its reader expects, and the children that
/// none of the names in `single` claims follow one another.
pub open spec fn conforms_with_rest(e: Element, known: Seq<&str>, single: Seq<&str>) -> bool {
    &&& conforms(e, known, single, Seq::empty())
    &&& rest_together(e.children@, single)
}

/// Whether an element keeps to what its reader expects, and its unclaimed
/// children follow one another.
pub fn check_element_with_rest(e: &Element, known: &[&str], single: &[&str]) -> (r: bool)
    ensures
        r == conforms_with_rest(*e, known@, single@),
{
    let none: [&str; 0] = [];
    assert(none@ =~= Seq::empty());
    check_element(e, known, single, &none) && check_rest_together(&e.children, single)
}

/// Whether an optional element keeps to what its reader expects.
pub open spec fn opt_conforms(e: Option<Element>, known: Seq<&str>, single: Seq<&str>) -> bool {
    match e {
        Some(x) => conforms(x, known, single, seq![]),
        None => true,
    }
}

/// The element behind a reference.
pub open spec fn element_at(e: Option<&Element>) -> Option<Element> {
    match e {
        Some(x) => Some(*x),
        None => None,
    }
}

/// Whether an optional element keeps to what its reader expects.
pub fn check_opt(e: Option<&Element>, known: &[&str], single: &[&str]) -> (r: bool)
    ensures
        r == opt_conforms(element_at(e), known@, single@),
{
    match e {
        Some(x) => {
            let none: [&str; 0] = [];
            assert(none@ =~= seq![]);
            check_element(x, known, single, &none)
        },
        None => true,
    }
}

} // verus!

//! Qualified names.
use vstd::prelude::*;

use crate::scan::{chars_of, str_eq};

verus! {

/// The position of the first colon of a name, or the name's length.
pub open spec fn colon(name: Seq<char>) -> nat
    decreases name.len(),
{
    if name.len() == 0 || name[0] == ':' {
        0
    } else {
        1 + colon(name.skip(1))
    }
}

/// The local part of a qualified name: what follows the first colon, or the
/// whole name.
pub open spec fn local_part(name: Seq<char>) -> Seq<char> {
    if colon(name) < name.len() {
        name.skip(colon(name) as int + 1)
    } else {
        name
    }
}

/// The prefix of a qualified name: what stands before the first colon, where
/// there is one.
pub open spec fn prefix(name: Seq<char>) -> Option<Seq<char>> {
    if colon(name) < name.len() {
        Some(name.take(colon(name) as int))
    } else {
        None
    }
}

/// The position of the first colon of a name, or the name's length.
fn find_colon(all: &Vec<char>) -> (k: usize)
    ensures
        k == colon(all@),
        k <= all@.len(),
{
    let n: usize = all.len();
    let mut k: usize = 0;
    assert(all@.skip(0) =~= all@);
    while k < n && all[k] != ':'
        invariant
            n == all@.len(),
            k <= n,
            colon(all@) == k + colon(all@.skip(k as int)),
        decreases n - k,
    {
        assert(all@.skip(k as int).skip(1) =~= all@.skip(k as int + 1));
        k = k + 1;
    }
    k
}

/// The local part of a qualified name.
pub fn local_name(name: &str) -> (r: String)
    ensures
        r@ == local_part(name@),
{
    let all: Vec<char> = chars_of(name);
    let k: usize = find_colon(&all);
    if k < all.len() {
        let n: usize = all.len();
        assert(name@.subrange(k + 1, n as int) =~= local_part(name@));
        name.substring_char(k + 1, n).to_owned()
    } else {
        name.to_owned()
    }
}

/// The prefix of a qualified name, where it has one.
pub fn prefix_of(name: &str) -> (r: Option<String>)
    ensures
        (match r {
            Some(p) => Some(p@),
            None => None,
        }) == prefix(name@),
{
    let all: Vec<char> = chars_of(name);
    let k: usize = find_colon(&all);
    if k < all.len() {
        assert(name@.subrange(0, k as int) =~= name@.take(k as int));
        Some(name.substring_char(0, k).to_owned())
    } else {
        None
    }
}

/// The name under which an attribute is looked up: the local part, but the
/// whole name for a namespace declaration and for the prefix `xml`.
pub open spec fn attr_field(key: Seq<char>) -> Seq<char> {
    if key == "xmlns"@ || prefix(key) == Some("xmlns"@) || prefix(key) == Some("xml"@) {
        key
    } else {
        local_part(key)
    }
}

/// The name under which an attribute is looked up.
pub fn attr_field_name(key: &str) -> (r: String)
    ensures
        r@ == attr_field(key@),
{
    if str_eq(key, "xmlns") {
        return key.to_owned();
    }
    match prefix_of(key) {
        Some(p) => if str_eq(p.as_str(), "xmlns") || str_eq(p.as_str(), "xml") {
            key.to_owned()
        } else {
            local_name(key)
        },
        None => local_name(key),
    }
}

} // verus!

//! Attribute values read leniently: a value that does not read is no value.
//!
//! An absent value is inherited, so a value that does not read must not turn
//! into some other value: it counts as absent.
use vstd::prelude::*;

use crate::dimension::{units, Dimension};
use crate::scan::{decimal, read_i64, read_unsigned, str_eq, trim, trimmed, within};
use crate::xml::query::{attr, attribute, child, child_named, opt_attr_of};
use crate::xml::tree::Element;

verus! {

/// A type whose values are written as attribute values.
pub trait AttrValue: Sized {
    /// The value that a string denotes.
    spec fn read(s: Seq<char>) -> Option<Self>;

    /// The value that a string denotes.
    fn parse(s: &str) -> (r: Option<Self>)
        ensures
            r == Self::read(s@),
    ;
}

impl AttrValue for u8 {
    open spec fn read(s: Seq<char>) -> Option<u8> {
        match within(decimal(trimmed(s), false), 0, 255) {
            Some(v) => Some(v as u8),
            None => None,
        }
    }

    fn parse(s: &str) -> (r: Option<u8>) {
        match read_unsigned(&trim(s), 255) {
            Some(v) => Some(v as u8),
            None => None,
        }
    }
}

impl AttrValue for u32 {
    open spec fn read(s: Seq<char>) -> Option<u32> {
        match within(decimal(trimmed(s), false), 0, u32::MAX as int) {
            Some(v) => Some(v as u32),
            None => None,
        }
    }

    fn parse(s: &str) -> (r: Option<u32>) {
        read_unsigned(&trim(s), u32::MAX)
    }
}

impl AttrValue for i64 {
    open spec fn read(s: Seq<char>) -> Option<i64> {
        match within(decimal(trimmed(s), true), i64::MIN as int, i64::MAX as int) {
            Some(v) => Some(v as i64),
            None => None,
        }
    }

    fn parse(s: &str) -> (r: Option<i64>) {
        read_i64(&trim(s))
    }
}

impl<U> AttrValue for Dimension<U> {
    open spec fn read(s: Seq<char>) -> Option<Dimension<U>> {
        match i64::read(s) {
            Some(v) => Some(units(v)),
            None => None,
        }
    }

    fn parse(s: &str) -> (r: Option<Dimension<U>>) {
        match i64::parse(s) {
            Some(v) => Some(Dimension::new(v)),
            None => None,
        }
    }
}

/// The value of an optional string.
pub open spec fn reads<T: AttrValue>(s: Option<Seq<char>>) -> Option<T> {
    match s {
        Some(v) => T::read(v),
        None => None,
    }
}

/// The value of an attribute: none where it is absent or does not read.
pub fn opt_attr<T: AttrValue>(e: &Element, name: &str) -> (r: Option<T>)
    ensures
        r == reads::<T>(attr(*e, name@)),
{
    match attribute(e, name) {
        Some(s) => T::parse(s.as_str()),
        None => None,
    }
}

/// The value of the attribute `val` of a child: none where the child or the
/// attribute is absent, or the value does not read.
pub fn opt_val_attr<T: AttrValue>(e: &Element, name: &str) -> (r: Option<T>)
    ensures
        r == reads::<T>(opt_attr_of(child_named(*e, name@), "val"@)),
{
    match child(e, name) {
        Some(c) => opt_attr(c, "val"),
        None => None,
    }
}

/// The value of an attribute, or `fallback` where it is absent or does not read.
pub fn or_default<T: AttrValue>(e: &Element, name: &str, fallback: T) -> (r: T)
    ensures
        r == match reads::<T>(attr(*e, name@)) {
            Some(v) => v,
            None => fallback,
        },
{
    match opt_attr(e, name) {
        Some(v) => v,
        None => fallback,
    }
}

/// A measure that is not negative; zero stands for one that is absent, does
/// not read or is negative.
pub open spec fn nonneg<U>(s: Option<Seq<char>>) -> Dimension<U> {
    match reads::<i64>(s) {
        Some(v) => if v < 0 {
            units(0)
        } else {
            units(v)
        },
        None => units(0),
    }
}

/// A measure that is not negative; zero where it is absent, does not read or
/// is negative.
pub fn nonneg_or_default<U>(e: &Element, name: &str) -> (r: Dimension<U>)
    ensures
        r == nonneg::<U>(attr(*e, name@)),
{
    match opt_attr::<i64>(e, name) {
        Some(v) => if v < 0 {
            Dimension::new(0)
        } else {
            Dimension::new(v)
        },
        None => Dimension::new(0),
    }
}

/// A measure that is not negative; none where it is absent, does not read or
/// is negative.
pub open spec fn opt_nonneg<U>(s: Option<Seq<char>>) -> Option<Dimension<U>> {
    match reads::<i64>(s) {
        Some(v) => if v < 0 {
            None
        } else {
            Some(units(v))
        },
        None => None,
    }
}

/// A measure that is not negative; none where it is absent, does not read or
/// is negative.
pub fn optional_nonnegative_dimension<U>(e: &Element, name: &str) -> (r: Option<Dimension<U>>)
    ensures
        r == opt_nonneg::<U>(attr(*e, name@)),
{
    match opt_attr::<i64>(e, name) {
        Some(v) => if v < 0 {
            None
        } else {
            Some(Dimension::new(v))
        },
        None => None,
    }
}

/// A truth value as the schema writes it, with anything unknown read as false.
pub open spec fn truth(s: Option<Seq<char>>) -> Option<bool> {
    match s {
        Some(v) => Some(v == "1"@ || v == "true"@ || v == "on"@),
        None => None,
    }
}

/// A truth value as the schema writes it, with anything unknown read as false.
pub fn attr_bool(e: &Element, name: &str) -> (r: Option<bool>)
    ensures
        r == truth(attr(*e, name@)),
{
    match attribute(e, name) {
        Some(s) => Some(is_true(s.as_str())),
        None => None,
    }
}

/// Whether a string is one of the schema's words for true.
pub fn is_true(s: &str) -> (r: bool)
    ensures
        r == (s@ == "1"@ || s@ == "true"@ || s@ == "on"@),
{
    str_eq(s, "1") || str_eq(s, "true") || str_eq(s, "on")
}

} // verus!

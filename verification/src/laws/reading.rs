//! What is looked up in an element, and what numbers are written as.
use vstd::prelude::*;

use crate::scan::{decimal, digits_value, is_digits, trim, trimmed, white};
use crate::xml::event::opt_view;
use crate::xml::lenient::{attr_bool, nonneg_or_default, optional_nonnegative_dimension, AttrValue};
use crate::xml::name::{colon, local_name, local_part, prefix};
use crate::xml::query::{attribute, child, children, element_text, elements_named, first_attr};
use crate::xml::tree::{Element, Node};
use crate::dimension::{Dimension, Emu};

verus! {

/// A digit stands for its value, and a digit behind others for ten times their
/// value and its own. A sign in front turns the number, where signs are read.
pub proof fn digits_count_by_tens(s: Seq<char>, c: char, signed: bool)
    requires
        '0' <= c <= '9',
        forall|i: int| 0 <= i < s.len() ==> '0' <= #[trigger] s[i] <= '9',
    ensures
        decimal(seq![c], signed) == Some(c as int - '0' as int),
        s.len() > 0 ==> (decimal(s, signed) matches Some(n) && n >= 0 && decimal(s.push(c), signed)
            == Some(10 * n + (c as int - '0' as int))),
        s.len() > 0 ==> decimal(seq!['-'] + s, true) == Some(-decimal(s, true)->0),
        decimal(seq!['-'] + s, false) is None,
        s.len() > 0 ==> decimal(seq!['+'] + s, signed) == decimal(s, signed),
        decimal(Seq::empty(), signed) is None,
{
    assert(seq![c].drop_last() =~= Seq::<char>::empty());
    assert(is_digits(seq![c]));
    reveal_with_fuel(digits_value, 2);
    if s.len() > 0 {
        assert(is_digits(s));
        assert(is_digits(s.push(c))) by {
            assert forall|i: int| 0 <= i < s.push(c).len() implies crate::scan::is_digit(
                #[trigger] s.push(c)[i],
            ) by {
                if i < s.len() {
                    assert(s.push(c)[i] == s[i]);
                }
            }
        }
        assert(s.push(c).drop_last() =~= s);
        assert(s[0] == s[0] && s.push(c)[0] == s[0]);
    }
    assert((seq!['-'] + s).skip(1) =~= s);
    assert((seq!['+'] + s).skip(1) =~= s);
    assert(!crate::scan::is_digit((seq!['-'] + s)[0]));
}

/// What holds anything but digits behind a sign is no number.
pub proof fn what_is_no_number(s: Seq<char>, i: int, signed: bool)
    requires
        0 <= i < s.len(),
        !('0' <= s[i] <= '9'),
        i > 0 || !(s[0] == '+' || s[0] == '-'),
    ensures
        decimal(s, signed) is None,
{
    assert(!crate::scan::is_digit(s[i]));
    if i > 0 {
        assert(s.skip(1)[i - 1] == s[i]);
    }
}

/// A number may stand between white space, and counts where it can be held.
pub proof fn numbers_may_be_padded(s: &str, n: Option<i64>, u: Option<u32>, b: Option<u8>)
    requires
        call_ensures(<i64 as AttrValue>::parse, (s,), n),
        call_ensures(<u32 as AttrValue>::parse, (s,), u),
        call_ensures(<u8 as AttrValue>::parse, (s,), b),
    ensures
        match decimal(trimmed(s@), true) {
            Some(v) => if -0x8000_0000_0000_0000 <= v <= 0x7fff_ffff_ffff_ffff {
                n matches Some(x) && x == v
            } else {
                n is None
            },
            None => n is None,
        },
        match decimal(trimmed(s@), false) {
            Some(v) => (if 0 <= v <= 0xffff_ffff {
                u matches Some(x) && x == v
            } else {
                u is None
            }) && (if 0 <= v <= 255 {
                b matches Some(x) && x == v
            } else {
                b is None
            }),
            None => u is None && b is None,
        },
{
}

/// A measure is the number that stands for it.
pub proof fn a_measure_is_a_number(s: &str, n: Option<i64>, d: Option<Dimension<Emu>>)
    requires
        call_ensures(<i64 as AttrValue>::parse, (s,), n),
        call_ensures(<Dimension<Emu> as AttrValue>::parse, (s,), d),
    ensures
        n is Some <==> d is Some,
        d matches Some(x) ==> Some(x.value) == n,
{
}

/// A measure that must not be negative is none, or nothing, where it is.
pub proof fn a_negative_measure_does_not_count(
    e: &Element,
    name: &str,
    n: Option<i64>,
    filled: Dimension<Emu>,
    left: Option<Dimension<Emu>>,
)
    requires
        n == crate::xml::lenient::reads::<i64>(crate::xml::query::attr(*e, name@)),
        call_ensures(nonneg_or_default::<Emu>, (e, name), filled),
        call_ensures(optional_nonnegative_dimension::<Emu>, (e, name), left),
    ensures
        n matches Some(v) ==> (v >= 0 ==> filled.value == v && (left matches Some(d) && d.value
            == v)),
        n matches Some(v) ==> (v < 0 ==> filled.value == 0 && left is None),
        n is None ==> filled.value == 0 && left is None,
{
}

/// An attribute is true exactly where it is one of the three words for that, and
/// unsaid where it is absent.
pub proof fn three_words_are_true(e: &Element, name: &str, r: Option<bool>)
    requires
        call_ensures(attr_bool, (e, name), r),
    ensures
        r is None <==> crate::xml::query::attr(*e, name@) is None,
        r == Some(true) ==> crate::xml::query::attr(*e, name@) == Some("1"@)
            || crate::xml::query::attr(*e, name@) == Some("true"@) || crate::xml::query::attr(
            *e,
            name@,
        ) == Some("on"@),
        crate::xml::query::attr(*e, name@) == Some("1"@) || crate::xml::query::attr(*e, name@)
            == Some("true"@) || crate::xml::query::attr(*e, name@) == Some("on"@) ==> r == Some(
            true,
        ),
{
}

/// White space at either end goes, and nothing else.
pub proof fn trimming_takes_white_space(s: &str, r: Vec<char>)
    requires
        call_ensures(trim, (s,), r),
    ensures
        r@.len() > 0 ==> !crate::scan::is_white(r@[0]) && !crate::scan::is_white(r@.last()),
        exists|a: int, b: int|
            0 <= a <= b <= s@.len() && #[trigger] s@.subrange(a, b) == r@ && (forall|i: int|
                0 <= i < a || b <= i < s@.len() ==> crate::scan::is_white(#[trigger] s@[i])),
{
    let a = start_is_cut(s@);
    let front = s@.skip(a);
    let c = end_is_cut(front);
    let b = a + c;
    assert(s@.subrange(a, b) =~= front.take(c));
    assert forall|i: int| 0 <= i < a || b <= i < s@.len() implies crate::scan::is_white(
        #[trigger] s@[i],
    ) by {
        if b <= i {
            assert(front[i - a] == s@[i]);
        }
    }
    if r@.len() > 0 {
        assert(front.take(c)[0] == front[0]);
    }
}

proof fn start_is_cut(s: Seq<char>) -> (a: int)
    ensures
        0 <= a <= s.len(),
        crate::scan::trim_start(s) == s.skip(a),
        forall|i: int| 0 <= i < a ==> crate::scan::is_white(#[trigger] s[i]),
        a < s.len() ==> !crate::scan::is_white(s[a]),
    decreases s.len(),
{
    if s.len() > 0 && crate::scan::is_white(s[0]) {
        let a = start_is_cut(s.skip(1));
        assert(s.skip(1).skip(a) =~= s.skip(a + 1));
        assert forall|i: int| 0 <= i < a + 1 implies crate::scan::is_white(#[trigger] s[i]) by {
            if i > 0 {
                assert(s.skip(1)[i - 1] == s[i]);
            }
        }
        if a + 1 < s.len() {
            assert(s.skip(1)[a] == s[a + 1]);
        }
        a + 1
    } else {
        assert(s.skip(0) =~= s);
        0
    }
}

proof fn end_is_cut(s: Seq<char>) -> (c: int)
    ensures
        0 <= c <= s.len(),
        crate::scan::trim_end(s) == s.take(c),
        forall|i: int| c <= i < s.len() ==> crate::scan::is_white(#[trigger] s[i]),
        c > 0 ==> !crate::scan::is_white(s[c - 1]),
    decreases s.len(),
{
    if s.len() > 0 && crate::scan::is_white(s.last()) {
        let c = end_is_cut(s.drop_last());
        assert(s.drop_last().take(c) =~= s.take(c));
        assert forall|i: int| c <= i < s.len() implies crate::scan::is_white(#[trigger] s[i]) by {
            if i < s.len() - 1 {
                assert(s.drop_last()[i] == s[i]);
            }
        }
        if c > 0 {
            assert(s.drop_last()[c - 1] == s[c - 1]);
        }
        c
    } else {
        assert(s.take(s.len() as int) =~= s);
        s.len() as int
    }
}

/// A name without a colon is its own local name; of a name with a prefix what
/// follows the first colon is.
pub proof fn the_local_name_follows_the_colon(name: &str, p: Seq<char>, rest: Seq<char>, r: String)
    requires
        call_ensures(local_name, (name,), r),
        forall|i: int| 0 <= i < p.len() ==> #[trigger] p[i] != ':',
    ensures
        name@ == p ==> r@ == p,
        name@ == p + seq![':'] + rest ==> r@ == rest,
{
    if name@ == p {
        assert(p + Seq::<char>::empty() =~= p);
        no_colon_before(p, Seq::empty());
    }
    if name@ == p + seq![':'] + rest {
        no_colon_before(p, seq![':'] + rest);
        assert(p + seq![':'] + rest =~= p + (seq![':'] + rest));
        assert(name@.skip(p.len() as int + 1) =~= rest);
    }
}

proof fn no_colon_before(p: Seq<char>, rest: Seq<char>)
    requires
        forall|i: int| 0 <= i < p.len() ==> #[trigger] p[i] != ':',
        rest.len() == 0 || rest[0] == ':',
    ensures
        colon(p + rest) == p.len(),
    decreases p.len(),
{
    if p.len() > 0 {
        assert((p + rest).skip(1) =~= p.skip(1) + rest);
        assert((p + rest)[0] == p[0]);
        assert forall|i: int| 0 <= i < p.skip(1).len() implies #[trigger] p.skip(1)[i] != ':' by {
            assert(p.skip(1)[i] == p[i + 1]);
        }
        no_colon_before(p.skip(1), rest);
    } else {
        assert(p + rest =~= rest);
    }
}

/// Whether an attribute is written under a name, with or without a prefix that
/// is not reserved.
pub open spec fn is_written_under(key: Seq<char>, name: Seq<char>) -> bool {
    &&& local_part(key) == name
    &&& key != "xmlns"@
    &&& prefix(key) != Some("xmlns"@)
    &&& prefix(key) != Some("xml"@)
}

/// The value of an attribute is that of the first attribute that is written
/// under its name.
pub proof fn the_first_attribute_of_a_name_counts(e: &Element, name: &str, i: int, r: Option<String>)
    requires
        call_ensures(attribute, (e, name), r),
        0 <= i < e.tag.attributes@.len(),
        e.tag.attributes@[i] matches Some(a) && is_written_under(a.key@, name@),
        forall|j: int|
            0 <= j < i ==> ((#[trigger] e.tag.attributes@[j]) matches Some(b) ==> local_part(b.key@)
                != name@ && b.key@ != name@),
    ensures
        opt_view(r) == opt_view((e.tag.attributes@[i]->0).value),
{
    attributes_before_do_not_count(e.tag.attributes@, name@, i);
}

proof fn attributes_before_do_not_count(
    all: Seq<Option<crate::xml::token::Attr>>,
    name: Seq<char>,
    i: int,
)
    requires
        0 <= i < all.len(),
        all[i] matches Some(a) && is_written_under(a.key@, name),
        forall|j: int|
            0 <= j < i ==> ((#[trigger] all[j]) matches Some(b) ==> local_part(b.key@) != name
                && b.key@ != name),
    ensures
        first_attr(all, name) == opt_view((all[i]->0).value),
    decreases i,
{
    if i > 0 {
        let rest = all.skip(1);
        assert(rest[i - 1] == all[i]);
        assert forall|j: int| 0 <= j < i - 1 implies ((#[trigger] rest[j]) matches Some(b)
            ==> local_part(b.key@) != name && b.key@ != name) by {
            assert(rest[j] == all[j + 1]);
        }
        attributes_before_do_not_count(rest, name, i - 1);
        assert(!crate::xml::query::attr_named(all[0], name));
    }
}

/// An element without an attribute of a name has no value for it.
pub proof fn an_absent_attribute_has_no_value(e: &Element, name: &str, r: Option<String>)
    requires
        call_ensures(attribute, (e, name), r),
        forall|j: int|
            0 <= j < e.tag.attributes@.len() ==> ((#[trigger] e.tag.attributes@[j]) matches Some(b)
                ==> local_part(b.key@) != name@ && b.key@ != name@),
    ensures
        r is None,
{
    nothing_is_looked_up(e.tag.attributes@, name@);
}

proof fn nothing_is_looked_up(all: Seq<Option<crate::xml::token::Attr>>, name: Seq<char>)
    requires
        forall|j: int|
            0 <= j < all.len() ==> ((#[trigger] all[j]) matches Some(b) ==> local_part(b.key@)
                != name && b.key@ != name),
    ensures
        first_attr(all, name) is None,
    decreases all.len(),
{
    if all.len() > 0 {
        let rest = all.skip(1);
        assert forall|j: int| 0 <= j < rest.len() implies ((#[trigger] rest[j]) matches Some(b)
            ==> local_part(b.key@) != name && b.key@ != name) by {
            assert(rest[j] == all[j + 1]);
        }
        nothing_is_looked_up(rest, name);
        assert(!crate::xml::query::attr_named(all[0], name));
    }
}

/// Whether a node is an element whose tag has a local name.
pub open spec fn is_element_called(n: Node, name: Seq<char>) -> bool {
    n matches Node::Element(e) && e.tag.name matches Some(t) && local_part(t@) == name
}

/// The child of a name is the first of the children that is called so.
pub proof fn the_first_child_of_a_name_counts<'a>(
    e: &'a Element,
    name: &str,
    r: Option<&'a Element>,
    i: int,
)
    requires
        call_ensures(child, (e, name), r),
        0 <= i <= e.children@.len(),
        forall|j: int| 0 <= j < i ==> !is_element_called(#[trigger] e.children@[j], name@),
        i < e.children@.len() ==> is_element_called(e.children@[i], name@),
    ensures
        i < e.children@.len() ==> (r matches Some(x) && e.children@[i] matches Node::Element(c)
            && *x == *c),
        i == e.children@.len() ==> r is None,
{
    let all = e.children@;
    none_before(all, name@, i);
    if i < all.len() {
        assert(all.take(i + 1).drop_last() =~= all.take(i));
        assert(all.take(i + 1).last() == all[i]);
        earlier_children_stay(all, name@, i + 1);
        let now = elements_named(all.take(i + 1), name@);
        assert(now.len() == 1);
        assert(now[0] == elements_named(all, name@)[0]);
    } else {
        assert(all.take(i) =~= all);
    }
}

proof fn none_before(all: Seq<Node>, name: Seq<char>, n: int)
    requires
        0 <= n <= all.len(),
        forall|j: int| 0 <= j < n ==> !is_element_called(#[trigger] all[j], name),
    ensures
        elements_named(all.take(n), name).len() == 0,
    decreases n,
{
    if n > 0 {
        none_before(all, name, n - 1);
        assert(all.take(n).drop_last() =~= all.take(n - 1));
        assert(all.take(n).last() == all[n - 1]);
        assert(!is_element_called(all[n - 1], name));
    }
}

proof fn earlier_children_stay(all: Seq<Node>, name: Seq<char>, n: int)
    requires
        0 <= n <= all.len(),
    ensures
        elements_named(all.take(n), name).len() <= elements_named(all, name).len(),
        forall|k: int|
            0 <= k < elements_named(all.take(n), name).len() ==> #[trigger] elements_named(
                all.take(n),
                name,
            )[k] == elements_named(all, name)[k],
    decreases all.len() - n,
{
    if n == all.len() {
        assert(all.take(n) =~= all);
    } else {
        earlier_children_stay(all, name, n + 1);
        assert(all.take(n + 1).drop_last() =~= all.take(n));
        let a = elements_named(all.take(n), name);
        let b = elements_named(all.take(n + 1), name);
        assert forall|k: int| 0 <= k < a.len() implies #[trigger] a[k] == elements_named(
            all,
            name,
        )[k] by {
            assert(b[k] == a[k]);
        }
    }
}

/// One more child of a name stands behind those that were there, and any other
/// node changes nothing.
pub proof fn children_stand_in_order<'a>(
    few: &'a Element,
    many: &'a Element,
    name: &str,
    a: Vec<&'a Element>,
    b: Vec<&'a Element>,
    n: Node,
)
    requires
        call_ensures(children, (few, name), a),
        call_ensures(children, (many, name), b),
        many.children@ == few.children@.push(n),
    ensures
        is_element_called(n, name@) ==> b@.len() == a@.len() + 1 && (n matches Node::Element(e)
            && *b@[a@.len() as int] == *e),
        !is_element_called(n, name@) ==> b@.len() == a@.len(),
        forall|i: int| 0 <= i < a@.len() ==> *#[trigger] b@[i] == *a@[i],
        few.children@.len() == 0 ==> a@.len() == 0,
{
    assert(many.children@.drop_last() =~= few.children@);
    let x = elements_named(few.children@, name@);
    let y = elements_named(many.children@, name@);
    assert forall|i: int| 0 <= i < a@.len() implies *#[trigger] b@[i] == *a@[i] by {
        assert(*a@[i] == x[i]);
        assert(*b@[i] == y[i]);
    }
}

/// The text of an element is what its text nodes hold, in order, one behind the
/// other.
pub proof fn text_nodes_follow_each_other(
    few: &Element,
    many: &Element,
    a: String,
    b: String,
    n: Node,
)
    requires
        call_ensures(element_text, (few,), a),
        call_ensures(element_text, (many,), b),
        many.children@ == few.children@.push(n),
    ensures
        n matches Node::Text(Some(s)) ==> b@ == a@ + s@,
        !(n is Text) ==> b@ == a@,
        few.children@.len() == 0 ==> a@.len() == 0,
{
    assert(many.children@.drop_last() =~= few.children@);
}

/// White space is what Unicode counts as such.
pub proof fn which_characters_are_white(c: char, r: bool)
    requires
        call_ensures(white, (c,), r),
    ensures
        r <==> c == ' ' || c == '\t' || c == '\n' || c == '\r' || c == '\u{b}' || c == '\u{c}' || c
            == '\u{85}' || c == '\u{a0}' || c == '\u{1680}' || '\u{2000}' <= c <= '\u{200a}' || c
            == '\u{2028}' || c == '\u{2029}' || c == '\u{202f}' || c == '\u{205f}' || c == '\u{3000}',
{
}

} // verus!

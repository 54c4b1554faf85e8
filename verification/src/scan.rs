//! Scanning of short attribute values: comparison with a literal, trimming,
//! and decimal integers.
use vstd::prelude::*;
use vstd::string::StringSliceAdditionalSpecFns;
use vstd::utf8::{encode_utf8_decode_utf8};

verus! {

/// `String::push` appends one character.
pub assume_specification[ String::push ](s: &mut String, c: char)
    ensures
        final(s)@ == old(s)@.push(c),
;

/// Whether two strings hold the same characters.
pub fn str_eq(a: &str, b: &str) -> (r: bool)
    ensures
        r == (a@ == b@),
{
    let x: &[u8] = a.as_bytes();
    let y: &[u8] = b.as_bytes();
    proof {
        encode_utf8_decode_utf8(a@);
        encode_utf8_decode_utf8(b@);
    }
    if x.len() != y.len() {
        return false;
    }
    let n: usize = x.len();
    let mut i: usize = 0;
    while i < n
        invariant
            n == x@.len(),
            n == y@.len(),
            i <= n,
            x@ == a.spec_bytes(),
            y@ == b.spec_bytes(),
            forall|j: int| 0 <= j < i ==> x@[j] == y@[j],
        decreases n - i,
    {
        if x[i] != y[i] {
            return false;
        }
        i = i + 1;
    }
    assert(x@ =~= y@);
    true
}

/// Whether a sequence begins with another.
pub open spec fn begins_with(s: Seq<char>, head: Seq<char>) -> bool {
    head.len() <= s.len() && s.take(head.len() as int) == head
}

/// Whether a string begins with another.
pub fn starts_with(s: &str, head: &str) -> (r: bool)
    ensures
        r == begins_with(s@, head@),
{
    let all: Vec<char> = chars_of(s);
    let want: Vec<char> = chars_of(head);
    if all.len() < want.len() {
        return false;
    }
    let mut i: usize = 0;
    while i < want.len()
        invariant
            all@ == s@,
            want@ == head@,
            want@.len() <= all@.len(),
            i <= want@.len(),
            forall|j: int| 0 <= j < i ==> all@[j] == want@[j],
        decreases want@.len() - i,
    {
        if all[i] != want[i] {
            assert(s@.take(head@.len() as int)[i as int] != head@[i as int]);
            return false;
        }
        i = i + 1;
    }
    assert(s@.take(head@.len() as int) =~= head@);
    true
}

/// Whether characters are those of a string.
pub fn spells(chars: &Vec<char>, word: &str) -> (r: bool)
    ensures
        r == (chars@ == word@),
{
    let want: Vec<char> = chars_of(word);
    if chars.len() != want.len() {
        return false;
    }
    let mut i: usize = 0;
    while i < want.len()
        invariant
            want@ == word@,
            want@.len() == chars@.len(),
            i <= want@.len(),
            forall|j: int| 0 <= j < i ==> chars@[j] == want@[j],
        decreases want@.len() - i,
    {
        if chars[i] != want[i] {
            return false;
        }
        i = i + 1;
    }
    assert(chars@ =~= want@);
    true
}

/// The characters of a string, as a vector.
pub fn chars_of(s: &str) -> (r: Vec<char>)
    ensures
        r@ == s@,
{
    let mut out: Vec<char> = Vec::new();
    for c in it: s.chars()
        invariant
            out@ == it.seq().take(it.index() as int),
    {
        out.push(c);
    }
    out
}

/// A character with the Unicode property `White_Space`.
pub open spec fn is_white(c: char) -> bool {
    let v = c as u32;
    ||| 0x9 <= v <= 0xD
    ||| v == 0x20
    ||| v == 0x85
    ||| v == 0xA0
    ||| v == 0x1680
    ||| 0x2000 <= v <= 0x200A
    ||| v == 0x2028
    ||| v == 0x2029
    ||| v == 0x202F
    ||| v == 0x205F
    ||| v == 0x3000
}

/// Whether a character is white space.
pub fn white(c: char) -> (r: bool)
    ensures
        r == is_white(c),
{
    let v: u32 = c as u32;
    (0x9 <= v && v <= 0xD) || v == 0x20 || v == 0x85 || v == 0xA0 || v == 0x1680 || (0x2000 <= v
        && v <= 0x200A) || v == 0x2028 || v == 0x2029 || v == 0x202F || v == 0x205F || v == 0x3000
}

/// A character sequence without its leading white space.
pub open spec fn trim_start(s: Seq<char>) -> Seq<char>
    decreases s.len(),
{
    if s.len() > 0 && is_white(s[0]) {
        trim_start(s.skip(1))
    } else {
        s
    }
}

/// A character sequence without its trailing white space.
pub open spec fn trim_end(s: Seq<char>) -> Seq<char>
    decreases s.len(),
{
    if s.len() > 0 && is_white(s.last()) {
        trim_end(s.drop_last())
    } else {
        s
    }
}

/// A character sequence without the white space at either end.
pub open spec fn trimmed(s: Seq<char>) -> Seq<char> {
    trim_end(trim_start(s))
}

/// A string without the white space at either end.
pub fn trim(s: &str) -> (r: Vec<char>)
    ensures
        r@ == trimmed(s@),
{
    let all: Vec<char> = chars_of(s);
    let n: usize = all.len();
    let mut lo: usize = 0;
    assert(all@.skip(0) =~= all@);
    while lo < n && white(all[lo])
        invariant
            n == all@.len(),
            lo <= n,
            trim_start(all@) == trim_start(all@.skip(lo as int)),
        decreases n - lo,
    {
        assert(all@.skip(lo as int).skip(1) =~= all@.skip(lo as int + 1));
        lo = lo + 1;
    }
    let ghost from = all@.skip(lo as int);
    assert(trim_start(all@) == from);
    let mut hi: usize = n;
    assert(all@.subrange(lo as int, hi as int) =~= from);
    while lo < hi && white(all[hi - 1])
        invariant
            n == all@.len(),
            lo <= hi <= n,
            trim_end(from) == trim_end(all@.subrange(lo as int, hi as int)),
        decreases hi,
    {
        let ghost part = all@.subrange(lo as int, hi as int);
        assert(part.last() == all@[hi - 1]);
        assert(part.drop_last() =~= all@.subrange(lo as int, hi as int - 1));
        hi = hi - 1;
    }
    let ghost kept = all@.subrange(lo as int, hi as int);
    assert(trim_end(from) == kept) by {
        if lo < hi {
            assert(kept.last() == all@[hi - 1]);
        }
    }
    let mut out: Vec<char> = Vec::new();
    let mut i: usize = lo;
    while i < hi
        invariant
            n == all@.len(),
            lo <= i <= hi <= n,
            out@ == all@.subrange(lo as int, i as int),
        decreases hi - i,
    {
        out.push(all[i]);
        i = i + 1;
        assert(out@ =~= all@.subrange(lo as int, i as int));
    }
    out
}

/// Whether a character is an ASCII digit.
pub open spec fn is_digit(c: char) -> bool {
    '0' <= c <= '9'
}

/// The number that a run of decimal digits denotes.
pub open spec fn digits_value(s: Seq<char>) -> nat
    decreases s.len(),
{
    if s.len() == 0 {
        0
    } else {
        digits_value(s.drop_last()) * 10 + (s.last() as nat - '0' as nat) as nat
    }
}

/// Whether every character is a digit, and there is at least one.
pub open spec fn is_digits(s: Seq<char>) -> bool {
    s.len() > 0 && forall|i: int| 0 <= i < s.len() ==> is_digit(#[trigger] s[i])
}

/// The integer that an optionally signed run of digits denotes.
///
/// A minus sign is read only where `signed`.
pub open spec fn decimal(s: Seq<char>, signed: bool) -> Option<int> {
    if s.len() > 0 && (s[0] == '+' || (signed && s[0] == '-')) {
        if is_digits(s.skip(1)) {
            let v = digits_value(s.skip(1)) as int;
            Some(if s[0] == '-' { -v } else { v })
        } else {
            None
        }
    } else if is_digits(s) {
        Some(digits_value(s) as int)
    } else {
        None
    }
}

/// The value kept where it lies between two bounds.
pub open spec fn within(v: Option<int>, lo: int, hi: int) -> Option<int> {
    match v {
        Some(n) if lo <= n <= hi => Some(n),
        _ => None,
    }
}

/// The value of a digit run from `from` on, where it is at most `10^20`.
///
/// `None` stands for a longer number, `Some(None)` for a run that is no number.
fn digit_run(s: &Vec<char>, from: usize) -> (r: Option<Option<u128>>)
    requires
        from <= s@.len(),
    ensures
        match r {
            Some(Some(v)) => is_digits(s@.skip(from as int)) && v == digits_value(
                s@.skip(from as int),
            ) && v <= 100_000_000_000_000_000_000,
            Some(None) => !is_digits(s@.skip(from as int)),
            None => is_digits(s@.skip(from as int)) && digits_value(s@.skip(from as int))
                > 100_000_000_000_000_000_000,
        },
{
    let n: usize = s.len();
    let ghost all = s@.skip(from as int);
    if from == n {
        return Some(None);
    }
    let mut acc: u128 = 0;
    let mut big: bool = false;
    let mut i: usize = from;
    while i < n
        invariant
            n == s@.len(),
            from <= i <= n,
            all == s@.skip(from as int),
            forall|j: int| 0 <= j < i - from ==> is_digit(#[trigger] all[j]),
            big ==> digits_value(all.take(i - from)) > 100_000_000_000_000_000_000,
            !big ==> acc == digits_value(all.take(i - from)) && acc <= 100_000_000_000_000_000_000,
        decreases n - i,
    {
        let c: char = s[i];
        assert(c == all[i - from]);
        if !('0' <= c && c <= '9') {
            return Some(None);
        }
        let d: u128 = (c as u32 - 48) as u128;
        assert(all.take(i - from + 1).drop_last() =~= all.take(i - from));
        assert(all.take(i - from + 1).last() == c);
        if !big {
            acc = acc * 10 + d;
            if acc > 100_000_000_000_000_000_000 {
                big = true;
            }
        }
        i = i + 1;
    }
    assert(all.take(n - from) =~= all);
    if big {
        None
    } else {
        Some(Some(acc))
    }
}

/// Reads an optionally signed decimal integer that fits an `i64`.
pub fn read_i64(s: &Vec<char>) -> (r: Option<i64>)
    ensures
        (match r {
            Some(v) => Some(v as int),
            None => None,
        }) == within(decimal(s@, true), i64::MIN as int, i64::MAX as int),
{
    if s.len() > 0 && (s[0] == '+' || s[0] == '-') {
        match digit_run(s, 1) {
            Some(Some(v)) => {
                if s[0] == '-' {
                    if v <= 9_223_372_036_854_775_808 {
                        let w: i128 = -(v as i128);
                        Some(w as i64)
                    } else {
                        None
                    }
                } else if v <= 9_223_372_036_854_775_807 {
                    Some(v as i64)
                } else {
                    None
                }
            },
            Some(None) => None,
            None => None,
        }
    } else {
        assert(s@.skip(0) =~= s@);
        match digit_run(s, 0) {
            Some(Some(v)) => if v <= 9_223_372_036_854_775_807 {
                Some(v as i64)
            } else {
                None
            },
            Some(None) => None,
            None => None,
        }
    }
}

/// Reads an unsigned decimal integer that is at most `max`.
pub fn read_unsigned(s: &Vec<char>, max: u32) -> (r: Option<u32>)
    ensures
        (match r {
            Some(v) => Some(v as int),
            None => None,
        }) == within(decimal(s@, false), 0, max as int),
{
    let from: usize = if s.len() > 0 && s[0] == '+' {
        1
    } else {
        0
    };
    assert(s@.skip(0) =~= s@);
    match digit_run(s, from) {
        Some(Some(v)) => if v <= max as u128 {
            Some(v as u32)
        } else {
            None
        },
        Some(None) => None,
        None => None,
    }
}

} // verus!

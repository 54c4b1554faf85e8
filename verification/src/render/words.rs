//! Words, and letters in lower case, of font names.
use vstd::prelude::*;

use crate::opc::path::{append_chars, lower, to_lower};
use crate::scan::{chars_of, is_white, white};

verus! {

/// What `str::to_lowercase` makes of a string.
pub uninterp spec fn lowercase(s: Seq<char>) -> Seq<char>;

/// Whether all characters are of ASCII.
pub open spec fn is_plain(s: Seq<char>) -> bool {
    forall|i: int| 0 <= i < s.len() ==> ((#[trigger] s[i]) as u32) < 128
}

/// `str::to_lowercase`. Of plain ASCII it changes the letters `A` to `Z` alone.
#[verifier::external_body]
pub(crate) fn to_lowercase(s: &str) -> (r: String)
    ensures
        r@ == lowercase(s@),
        is_plain(s@) ==> r@ == lower(s@),
{
    s.to_lowercase()
}

/// The words of a string: what stands between its white space.
pub open spec fn words(s: Seq<char>) -> Seq<Seq<char>>
    decreases s.len(),
{
    if s.len() == 0 {
        Seq::empty()
    } else {
        let before = words(s.drop_last());
        if is_white(s.last()) {
            before
        } else if s.len() > 1 && !is_white(s[s.len() - 2]) {
            before.drop_last().push(before.last().push(s.last()))
        } else {
            before.push(seq![s.last()])
        }
    }
}

/// What words hold.
pub open spec fn spelled(all: Seq<Vec<char>>) -> Seq<Seq<char>> {
    all.map_values(|w: Vec<char>| w@)
}

/// The words of a string.
pub fn read_words(s: &str) -> (r: Vec<Vec<char>>)
    ensures
        spelled(r@) == words(s@),
{
    let all: Vec<char> = chars_of(s);
    let mut out: Vec<Vec<char>> = Vec::new();
    let mut open: bool = false;
    let mut i: usize = 0;
    assert(spelled(out@) =~= words(s@.take(0)));
    while i < all.len()
        invariant
            all@ == s@,
            i <= all@.len(),
            open == (i > 0 && !is_white(s@[i - 1])),
            open ==> out@.len() > 0,
            spelled(out@) == words(s@.take(i as int)),
        decreases all@.len() - i,
    {
        let ghost part = s@.take(i + 1);
        let ghost before = out@;
        assert(part.drop_last() =~= s@.take(i as int));
        assert(part.last() == s@[i as int]);
        assert(i > 0 ==> part[part.len() - 2] == s@[i - 1]);
        let c: char = all[i];
        if white(c) {
            open = false;
        } else if open {
            let n: usize = out.len();
            let word: &mut Vec<char> = &mut out[n - 1];
            word.push(c);
            assert(spelled(out@) =~= words(part));
            open = true;
        } else {
            let mut word: Vec<char> = Vec::new();
            word.push(c);
            assert(word@ =~= seq![c]);
            out.push(word);
            assert(spelled(out@) =~= spelled(before).push(seq![c]));
            open = true;
        }
        i = i + 1;
    }
    assert(s@.take(i as int) =~= s@);
    out
}

/// Words with a space between each two.
pub open spec fn spaced(all: Seq<Seq<char>>) -> Seq<char>
    decreases all.len(),
{
    if all.len() == 0 {
        Seq::empty()
    } else if all.len() == 1 {
        all[0]
    } else {
        spaced(all.drop_last()) + seq![' '] + all.last()
    }
}

/// The first `n` words with a space between each two.
pub fn join_words(all: &Vec<Vec<char>>, n: usize) -> (r: String)
    requires
        n <= all@.len(),
    ensures
        r@ == spaced(spelled(all@).take(n as int)),
{
    let ghost held = spelled(all@);
    let mut out: String = String::new();
    let mut i: usize = 0;
    while i < n
        invariant
            held == spelled(all@),
            n <= all@.len(),
            i <= n,
            out@ == spaced(held.take(i as int)),
        decreases n - i,
    {
        let ghost part = held.take(i + 1);
        assert(part.drop_last() =~= held.take(i as int));
        assert(part.last() == all@[i as int]@);
        if i > 0 {
            out.push(' ');
        }
        let ghost so_far = out@;
        append_chars(&mut out, &all[i]);
        proof {
            if i == 0 {
                assert(out@ =~= part[0]);
            } else {
                assert(out@ =~= spaced(held.take(i as int)) + seq![' '] + part.last());
            }
        }
        i = i + 1;
    }
    out
}

/// Whether two names differ at most in the case of the letters `A` to `Z`.
pub open spec fn same_name(a: Seq<char>, b: Seq<char>) -> bool {
    lower(a) == lower(b)
}

/// Whether two names differ at most in the case of the letters `A` to `Z`.
pub fn is_same_name(a: &str, b: &str) -> (r: bool)
    ensures
        r == same_name(a@, b@),
{
    let x: Vec<char> = chars_of(a);
    let y: Vec<char> = chars_of(b);
    if x.len() != y.len() {
        assert(lower(a@).len() != lower(b@).len());
        return false;
    }
    let mut i: usize = 0;
    while i < x.len()
        invariant
            x@ == a@,
            y@ == b@,
            x@.len() == y@.len(),
            i <= x@.len(),
            forall|k: int| 0 <= k < i ==> lower(a@)[k] == lower(b@)[k],
        decreases x@.len() - i,
    {
        if to_lower(x[i]) != to_lower(y[i]) {
            assert(lower(a@)[i as int] != lower(b@)[i as int]);
            return false;
        }
        i = i + 1;
    }
    assert(lower(a@) =~= lower(b@));
    true
}

} // verus!

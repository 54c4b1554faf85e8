//! Part paths.
//!
//! A path is kept in lower case, without a leading slash.
use vstd::prelude::*;

use crate::scan::chars_of;

verus! {

/// A letter of the alphabet in lower case; any other character as it is.
pub open spec fn lower_char(c: char) -> char {
    if 'A' <= c <= 'Z' {
        (c as u32 + 32) as char
    } else {
        c
    }
}

/// A string with the letters of the alphabet in lower case.
pub open spec fn lower(s: Seq<char>) -> Seq<char> {
    s.map_values(|c: char| lower_char(c))
}

/// A letter of the alphabet in lower case.
pub fn to_lower(c: char) -> (r: char)
    ensures
        r == lower_char(c),
{
    if 'A' <= c && c <= 'Z' {
        ((c as u8) + 32) as char
    } else {
        c
    }
}

/// What stands between the slashes of a path.
pub open spec fn segments(path: Seq<char>) -> Seq<Seq<char>>
    decreases path.len(),
{
    if path.len() == 0 {
        seq![Seq::empty()]
    } else {
        let before = segments(path.drop_last());
        if path.last() == '/' {
            before.push(Seq::empty())
        } else {
            before.drop_last().push(before.last().push(path.last()))
        }
    }
}

/// The place that is reached from another by one segment: the same by an empty
/// one or `.`, the one above by `..`, and otherwise one below.
pub open spec fn entered(place: Seq<Seq<char>>, segment: Seq<char>) -> Seq<Seq<char>> {
    if segment.len() == 0 || segment == seq!['.'] {
        place
    } else if segment == seq!['.', '.'] {
        if place.len() > 0 {
            place.drop_last()
        } else {
            place
        }
    } else {
        place.push(segment)
    }
}

/// The place that is reached from the root by segments.
pub open spec fn reached(all: Seq<Seq<char>>) -> Seq<Seq<char>>
    decreases all.len(),
{
    if all.len() == 0 {
        Seq::empty()
    } else {
        entered(reached(all.drop_last()), all.last())
    }
}

/// Segments with slashes between them.
pub open spec fn joined(all: Seq<Seq<char>>) -> Seq<char>
    decreases all.len(),
{
    if all.len() == 0 {
        Seq::empty()
    } else if all.len() == 1 {
        all[0]
    } else {
        joined(all.drop_last()) + seq!['/'] + all.last()
    }
}

/// The path that a text stands for, from the root of the package.
pub open spec fn normalized(path: Seq<char>) -> Seq<char> {
    joined(reached(segments(lower(path))))
}

/// The path that a target stands for. A target is relative to a directory
/// unless it starts with a slash.
pub open spec fn target_path(directory: Seq<char>, target: Seq<char>) -> Seq<char> {
    if target.len() > 0 && target[0] == '/' {
        normalized(target)
    } else {
        normalized(directory + seq!['/'] + target)
    }
}

/// What a list of segments holds.
spec fn spelled(all: Seq<Vec<char>>) -> Seq<Seq<char>> {
    all.map_values(|s: Vec<char>| s@)
}

/// Enters a segment.
fn enter(place: &mut Vec<Vec<char>>, segment: Vec<char>)
    ensures
        spelled(final(place)@) == entered(spelled(old(place)@), segment@),
{
    let ghost before = place@;
    let n: usize = segment.len();
    if n == 0 || (n == 1 && segment[0] == '.') {
        assert(n == 1 ==> segment@ =~= seq!['.']);
    } else if n == 2 && segment[0] == '.' && segment[1] == '.' {
        assert(segment@ =~= seq!['.', '.']);
        assert(segment@ != seq!['.']) by {
            assert(segment@.len() != seq!['.'].len());
        }
        if place.len() > 0 {
            let _ = place.pop();
            assert(spelled(place@) =~= spelled(before).drop_last());
        }
    } else {
        assert(segment@ != seq!['.'] && segment@ != seq!['.', '.']) by {
            if segment@ == seq!['.'] {
                assert(segment@[0] == '.');
            }
            if segment@ == seq!['.', '.'] {
                assert(segment@[0] == '.' && segment@[1] == '.');
            }
        }
        let ghost shown = segment@;
        place.push(segment);
        assert(spelled(place@) =~= spelled(before).push(shown));
    }
}

/// The path that characters stand for, from the root of the package.
fn normalize_chars(path: &Vec<char>) -> (r: String)
    ensures
        r@ == normalized(path@),
{
    let ghost low = lower(path@);
    let mut place: Vec<Vec<char>> = Vec::new();
    let mut segment: Vec<char> = Vec::new();
    assert(spelled(place@) =~= reached(segments(low.take(0)).drop_last())) by {
        assert(segments(low.take(0)).drop_last() =~= Seq::<Seq<char>>::empty());
    }
    let mut i: usize = 0;
    while i < path.len()
        invariant
            low == lower(path@),
            i <= path@.len(),
            segments(low.take(i as int)).len() > 0,
            spelled(place@) == reached(segments(low.take(i as int)).drop_last()),
            segment@ == segments(low.take(i as int)).last(),
        decreases path@.len() - i,
    {
        let ghost so_far = segments(low.take(i as int));
        assert(low.take(i + 1).drop_last() =~= low.take(i as int));
        assert(low.take(i + 1).last() == lower_char(path@[i as int]));
        let c: char = to_lower(path[i]);
        if c == '/' {
            assert(segments(low.take(i + 1)) =~= so_far.push(Seq::empty()));
            assert(segments(low.take(i + 1)).drop_last() =~= so_far);
            let done: Vec<char> = segment;
            segment = Vec::new();
            enter(&mut place, done);
        } else {
            let ghost next = so_far.drop_last().push(so_far.last().push(c));
            assert(segments(low.take(i + 1)) =~= next);
            assert(next.drop_last() =~= so_far.drop_last());
            segment.push(c);
        }
        i = i + 1;
    }
    assert(low.take(i as int) =~= low);
    enter(&mut place, segment);
    join(&place)
}

/// Segments with slashes between them.
fn join(place: &Vec<Vec<char>>) -> (r: String)
    ensures
        r@ == joined(spelled(place@)),
{
    let ghost all = spelled(place@);
    let mut out: String = String::new();
    proof {
        reveal_strlit("/");
    }
    assert("/"@ =~= seq!['/']);
    let mut i: usize = 0;
    while i < place.len()
        invariant
            all == spelled(place@),
            "/"@ == seq!['/'],
            i <= place@.len(),
            out@ == joined(all.take(i as int)),
        decreases place@.len() - i,
    {
        let ghost part = all.take(i + 1);
        assert(part.drop_last() =~= all.take(i as int));
        assert(part.last() == place@[i as int]@);
        if i > 0 {
            out.append("/");
        }
        append_chars(&mut out, &place[i]);
        proof {
            if i == 0 {
                assert(out@ =~= part[0]);
            }
        }
        i = i + 1;
    }
    assert(all.take(i as int) =~= all);
    out
}

/// Appends characters to a string.
pub fn append_chars(out: &mut String, chars: &Vec<char>)
    ensures
        final(out)@ == old(out)@ + chars@,
{
    let ghost before = out@;
    let mut k: usize = 0;
    while k < chars.len()
        invariant
            k <= chars@.len(),
            out@ == before + chars@.take(k as int),
        decreases chars@.len() - k,
    {
        out.push(chars[k]);
        assert(out@ =~= before + chars@.take(k + 1));
        k = k + 1;
    }
    assert(chars@.take(k as int) =~= chars@);
}

/// The path that a text stands for, from the root of the package.
pub fn normalize(path: &str) -> (r: String)
    ensures
        r@ == normalized(path@),
{
    let all: Vec<char> = chars_of(path);
    normalize_chars(&all)
}

/// The path that a target stands for.
pub fn resolve_target(directory: &str, target: &str) -> (r: String)
    ensures
        r@ == target_path(directory@, target@),
{
    let named: Vec<char> = chars_of(target);
    if named.len() > 0 && named[0] == '/' {
        normalize_chars(&named)
    } else {
        let mut whole: String = directory.to_owned();
        proof {
            reveal_strlit("/");
        }
        assert("/"@ =~= seq!['/']);
        whole.append("/");
        whole.append(target);
        normalize(whole.as_str())
    }
}

/// How many characters stand before the last slash of a path; none where it
/// has no slash.
pub open spec fn directory_len(path: Seq<char>) -> nat
    decreases path.len(),
{
    if path.len() == 0 {
        0
    } else if path.last() == '/' {
        (path.len() - 1) as nat
    } else {
        directory_len(path.drop_last())
    }
}

/// What stands before the last slash of a path.
pub open spec fn directory(path: Seq<char>) -> Seq<char> {
    path.take(directory_len(path) as int)
}

/// What stands behind the last slash of a path.
pub open spec fn file_name(path: Seq<char>) -> Seq<char> {
    if path.contains('/') {
        path.skip(directory_len(path) as int + 1)
    } else {
        path
    }
}

/// The path of the part that holds the relationships of another.
pub open spec fn rels_path(path: Seq<char>) -> Seq<char> {
    if path.contains('/') {
        directory(path) + "/_rels/"@ + file_name(path) + ".rels"@
    } else {
        "_rels/"@ + file_name(path) + ".rels"@
    }
}

/// The place of the last slash.
fn find_slash(all: &Vec<char>) -> (r: Option<usize>)
    ensures
        r is Some <==> all@.contains('/'),
        r matches Some(k) ==> k < all@.len() && k == directory_len(all@),
        r is None ==> directory_len(all@) == 0,
{
    let mut n: usize = all.len();
    assert(all@.take(n as int) =~= all@);
    while n > 0
        invariant
            n <= all@.len(),
            directory_len(all@) == directory_len(all@.take(n as int)),
            forall|k: int| n <= k < all@.len() ==> all@[k] != '/',
        decreases n,
    {
        assert(all@.take(n as int).last() == all@[n - 1]);
        assert(all@.take(n as int).drop_last() =~= all@.take(n - 1));
        if all[n - 1] == '/' {
            assert(all@[n - 1] == '/');
            return Some(n - 1);
        }
        n = n - 1;
    }
    None
}

/// What stands before the last slash of a path.
pub fn part_directory(path: &str) -> (r: String)
    ensures
        r@ == directory(path@),
{
    let all: Vec<char> = chars_of(path);
    match find_slash(&all) {
        Some(k) => {
            assert(path@.subrange(0, k as int) =~= path@.take(k as int));
            path.substring_char(0, k).to_owned()
        },
        None => {
            assert(directory(path@) =~= Seq::<char>::empty());
            String::new()
        },
    }
}

/// The path of the part that holds the relationships of another.
pub fn rels_path_for(path: &str) -> (r: String)
    ensures
        r@ == rels_path(path@),
{
    let all: Vec<char> = chars_of(path);
    match find_slash(&all) {
        Some(k) => {
            let n: usize = all.len();
            assert(path@.subrange(0, k as int) =~= path@.take(k as int));
            assert(path@.subrange(k + 1, n as int) =~= path@.skip(k + 1));
            let mut out: String = path.substring_char(0, k).to_owned();
            out.append("/_rels/");
            out.append(path.substring_char(k + 1, n));
            out.append(".rels");
            out
        },
        None => {
            let mut out: String = String::from_str("_rels/");
            out.append(path);
            out.append(".rels");
            out
        },
    }
}

} // verus!

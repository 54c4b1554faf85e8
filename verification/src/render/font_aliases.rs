//! Names beside those of families under which faces are known: the faces' own
//! names, and the names of families with a word for a weight.
use vstd::prelude::*;

use crate::render::font_db::{face_views, Face, FaceSlope, FaceView};
use crate::render::font_names::{canonical_weight_names, views, weight_words};
use crate::render::words::{join_words, lowercase, read_words, spaced, to_lowercase, words};
use crate::scan::{str_eq, trim, trimmed};

verus! {

/// A claim of a face on a name: whoever asks for the name may mean its family
/// at its weight.
#[derive(Debug)]
pub struct AliasClaim {
    pub key: String,
    pub family: String,
    pub weight: u16,
}

/// What a claim says.
pub struct Claim {
    pub key: Seq<char>,
    pub family: Seq<char>,
    pub weight: u16,
}

impl View for AliasClaim {
    type V = Claim;

    open spec fn view(&self) -> Claim {
        Claim { key: self.key@, family: self.family@, weight: self.weight }
    }
}

/// A name as it is looked up: in lower case, with single spaces.
pub open spec fn name_key(name: Seq<char>) -> Seq<char> {
    lowercase(spaced(words(name)))
}

/// A name as it is looked up.
pub fn face_name_key(name: &str) -> (r: String)
    ensures
        r@ == name_key(name@),
{
    let all: Vec<Vec<char>> = read_words(name);
    let joined: String = join_words(&all, all.len());
    assert(crate::render::words::spelled(all@).take(all@.len() as int) =~= words(name@));
    to_lowercase(joined.as_str())
}

/// The claim of a face on its own name, where it has one.
pub open spec fn own_claim(f: FaceView) -> Seq<Claim> {
    if trimmed(f.post_script_name).len() > 0 {
        seq![Claim { key: name_key(f.post_script_name), family: f.families[0], weight: f.weight }]
    } else {
        Seq::empty()
    }
}

/// The claims of a face on the name of its family with a word for its weight.
pub open spec fn weight_claims(f: FaceView, names: Seq<Seq<char>>) -> Seq<Claim> {
    names.map_values(
        |w: Seq<char>|
            Claim {
                key: name_key(f.families[0] + seq![' '] + w),
                family: f.families[0],
                weight: f.weight,
            },
    )
}

/// What a face claims. An upright face of normal width also claims the words
/// for its weight.
pub open spec fn face_claims(f: FaceView) -> Seq<Claim> {
    if f.families.len() == 0 {
        Seq::empty()
    } else if f.slope is Normal && f.width == 5 {
        own_claim(f) + weight_claims(f, weight_words(f.weight))
    } else {
        own_claim(f)
    }
}

/// What faces claim.
pub open spec fn claims_of(faces: Seq<FaceView>) -> Seq<Claim>
    decreases faces.len(),
{
    if faces.len() == 0 {
        Seq::empty()
    } else {
        claims_of(faces.drop_last()) + face_claims(faces.last())
    }
}

/// What claims say.
pub open spec fn claim_views(all: Seq<AliasClaim>) -> Seq<Claim> {
    all.map_values(|c: AliasClaim| c@)
}

/// Adds what a face claims.
fn add_claims(out: &mut Vec<AliasClaim>, f: &Face)
    ensures
        claim_views(final(out)@) == claim_views(old(out)@) + face_claims(f@),
{
    let ghost before = claim_views(out@);
    if f.families.len() == 0 {
        assert(claim_views(out@) =~= before + face_claims(f@));
        return;
    }
    assert(f@.families[0] == f.families@[0]@);
    if trim(f.post_script_name.as_str()).len() > 0 {
        out.push(
            AliasClaim {
                key: face_name_key(f.post_script_name.as_str()),
                family: f.families[0].clone(),
                weight: f.weight,
            },
        );
    }
    assert(claim_views(out@) =~= before + own_claim(f@));
    if f.slope == FaceSlope::Normal && f.width == 5 {
        let names: Vec<&'static str> = canonical_weight_names(f.weight);
        let ghost all = weight_claims(f@, weight_words(f.weight));
        let ghost with_own = before + own_claim(f@);
        let mut i: usize = 0;
        while i < names.len()
            invariant
                i <= names@.len(),
                f.families@.len() > 0,
                f@.families[0] == f.families@[0]@,
                views(names@) == weight_words(f.weight),
                all == weight_claims(f@, weight_words(f.weight)),
                claim_views(out@) == with_own + all.take(i as int),
            decreases names@.len() - i,
        {
            let mut name: String = f.families[0].clone();
            name.push(' ');
            name.append(names[i]);
            assert(views(names@)[i as int] == names@[i as int]@);
            assert(name@ =~= f@.families[0] + seq![' '] + names@[i as int]@);
            let ghost so_far = claim_views(out@);
            out.push(
                AliasClaim {
                    key: face_name_key(name.as_str()),
                    family: f.families[0].clone(),
                    weight: f.weight,
                },
            );
            assert(claim_views(out@) =~= so_far.push(all[i as int]));
            assert(so_far.push(all[i as int]) =~= with_own + all.take(i + 1));
            i = i + 1;
        }
        assert(all.take(i as int) =~= all);
        assert(claim_views(out@) =~= before + face_claims(f@));
    }
}

/// What the faces of a database claim.
pub fn read_claims(faces: &Vec<Face>) -> (r: Vec<AliasClaim>)
    ensures
        claim_views(r@) == claims_of(face_views(faces@)),
{
    let mut out: Vec<AliasClaim> = Vec::new();
    let ghost all = face_views(faces@);
    let mut i: usize = 0;
    assert(claim_views(out@) =~= claims_of(all.take(0)));
    while i < faces.len()
        invariant
            i <= faces@.len(),
            all == face_views(faces@),
            claim_views(out@) == claims_of(all.take(i as int)),
        decreases faces@.len() - i,
    {
        assert(all.take(i + 1).drop_last() =~= all.take(i as int));
        assert(all.take(i + 1).last() == faces@[i as int]@);
        add_claims(&mut out, &faces[i]);
        i = i + 1;
    }
    assert(all.take(i as int) =~= all);
    out
}

/// The first claim on a name.
pub open spec fn first_claim(claims: Seq<Claim>, key: Seq<char>) -> Option<Claim>
    decreases claims.len(),
{
    if claims.len() == 0 {
        None
    } else {
        match first_claim(claims.drop_last(), key) {
            Some(c) => Some(c),
            None => if claims.last().key == key {
                Some(claims.last())
            } else {
                None
            },
        }
    }
}

/// Whether all claims on a name are for the same family and weight.
pub open spec fn undisputed(claims: Seq<Claim>, c: Claim) -> bool {
    forall|i: int| 0 <= i < claims.len() && (#[trigger] claims[i]).key == c.key ==> claims[i] == c
}

/// What a name stands for, where all that claim it agree.
pub open spec fn alias(claims: Seq<Claim>, key: Seq<char>) -> Option<Claim> {
    match first_claim(claims, key) {
        Some(c) => if undisputed(claims, c) {
            Some(c)
        } else {
            None
        },
        None => None,
    }
}

/// A first claim is a claim on that name.
proof fn first_claim_is_one(claims: Seq<Claim>, key: Seq<char>)
    ensures
        first_claim(claims, key) is None <==> forall|i: int|
            0 <= i < claims.len() ==> (#[trigger] claims[i]).key != key,
        first_claim(claims, key) matches Some(c) ==> c.key == key && claims.contains(c),
    decreases claims.len(),
{
    if claims.len() > 0 {
        let shorter = claims.drop_last();
        first_claim_is_one(shorter, key);
        assert(forall|i: int| 0 <= i < shorter.len() ==> claims[i] == shorter[i]);
        assert(claims[claims.len() - 1] == claims.last());
        if first_claim(claims, key) is None {
            assert forall|i: int| 0 <= i < claims.len() implies (#[trigger] claims[i]).key != key by {
                if i < shorter.len() {
                    assert(shorter[i].key != key);
                }
            }
        } else if first_claim(shorter, key) is Some {
            let k = choose|k: int| 0 <= k < shorter.len() && shorter[k] == first_claim(shorter, key)->0;
            assert(claims[k].key == key);
        } else {
            assert(claims.last().key == key);
        }
    }
}

/// A name that two faces claim for different families or weights stands for
/// neither.
pub proof fn a_disputed_name_stands_for_nothing(claims: Seq<Claim>, i: int, j: int)
    requires
        0 <= i < claims.len(),
        0 <= j < claims.len(),
        claims[i].key == claims[j].key,
        claims[i] != claims[j],
    ensures
        alias(claims, claims[i].key) is None,
{
    let key = claims[i].key;
    first_claim_is_one(claims, key);
    match first_claim(claims, key) {
        Some(c) => {
            if undisputed(claims, c) {
                assert(claims[i] == c);
                assert(claims[j] == c);
            }
        },
        None => {},
    }
}

/// A name that all who claim it claim alike stands for that.
pub proof fn an_agreed_name_stands_for_its_face(claims: Seq<Claim>, i: int)
    requires
        0 <= i < claims.len(),
        undisputed(claims, claims[i]),
    ensures
        alias(claims, claims[i].key) == Some(claims[i]),
{
    let key = claims[i].key;
    first_claim_is_one(claims, key);
    let c = first_claim(claims, key)->0;
    let k = choose|k: int| 0 <= k < claims.len() && claims[k] == c;
    assert(claims[k].key == key);
}

/// What a name stands for: a family and a weight.
pub fn find_alias(claims: &Vec<AliasClaim>, key: &str) -> (r: Option<(String, u16)>)
    ensures
        match r {
            Some(t) => alias(claim_views(claims@), key@) == Some(
                (Claim { key: key@, family: t.0@, weight: t.1 }),
            ),
            None => alias(claim_views(claims@), key@) is None,
        },
{
    let ghost all = claim_views(claims@);
    let mut found: Option<usize> = None;
    let mut disputed: bool = false;
    let mut i: usize = 0;
    while i < claims.len()
        invariant
            i <= claims@.len(),
            all == claim_views(claims@),
            match found {
                Some(k) => k < i && first_claim(all.take(i as int), key@) == Some(all[k as int])
                    && all[k as int].key == key@ && disputed == !undisputed(
                    all.take(i as int),
                    all[k as int],
                ),
                None => first_claim(all.take(i as int), key@) is None && !disputed,
            },
        decreases claims@.len() - i,
    {
        let ghost before = all.take(i as int);
        let ghost part = all.take(i + 1);
        assert(part.drop_last() =~= before);
        assert(part.last() == all[i as int]);
        assert(all[i as int] == claims@[i as int]@);
        proof {
            first_claim_is_one(before, key@);
            assert forall|c: Claim| c.key == key@ && undisputed(before, c) && (all[i as int].key
                == key@ ==> all[i as int] == c) implies undisputed(part, c) by {
                assert forall|n: int|
                    0 <= n < part.len() && (#[trigger] part[n]).key == c.key implies part[n]
                    == c by {
                    if n < before.len() {
                        assert(before[n] == part[n]);
                    }
                }
            }
            assert forall|c: Claim| undisputed(part, c) implies undisputed(before, c) by {
                assert forall|n: int|
                    0 <= n < before.len() && (#[trigger] before[n]).key == c.key implies before[n]
                    == c by {
                    assert(before[n] == part[n]);
                }
            }
        }
        if str_eq(claims[i].key.as_str(), key) {
            match found {
                Some(k) => {
                    assert(all[k as int] == claims@[k as int]@);
                    let same: bool = claims[k].weight == claims[i].weight && str_eq(
                        claims[k].family.as_str(),
                        claims[i].family.as_str(),
                    );
                    assert(same == (all[k as int] == all[i as int]));
                    if !same {
                        assert(part[i as int] == all[i as int]);
                        assert(!undisputed(part, all[k as int]));
                        disputed = true;
                    }
                },
                None => {
                    assert(undisputed(before, all[i as int]));
                    found = Some(i);
                },
            }
        }
        i = i + 1;
    }
    assert(all.take(i as int) =~= all);
    match found {
        Some(k) => {
            assert(all[k as int] == claims@[k as int]@);
            if disputed {
                None
            } else {
                Some((claims[k].family.clone(), claims[k].weight))
            }
        },
        None => None,
    }
}

} // verus!

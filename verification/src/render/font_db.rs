//! The fonts of a host, as `fontdb` holds them.
use vstd::prelude::*;
use std::sync::Arc;

verus! {

#[verifier::external_type_specification]
#[verifier::external_body]
pub struct ExDatabase(fontdb::Database);

#[verifier::external_type_specification]
#[verifier::external_body]
pub struct ExFaceId(fontdb::ID);

/// How a face slopes.
#[derive(Debug, Clone, Copy, PartialEq, Eq, Structural)]
pub enum FaceSlope {
    Normal,
    Italic,
    Oblique,
}

/// A face of a font.
#[derive(Debug)]
pub struct Face {
    pub id: fontdb::ID,
    /// The names of the face's family, the English one first.
    pub families: Vec<String>,
    pub post_script_name: String,
    pub weight: u16,
    pub slope: FaceSlope,
    /// The width, from 1 to 9; 5 is neither condensed nor expanded.
    pub width: u16,
    /// Whether the font was loaded from memory.
    pub in_memory: bool,
    /// The place of the face in its file.
    pub index: u32,
}

/// What a face holds.
pub struct FaceView {
    pub id: fontdb::ID,
    pub families: Seq<Seq<char>>,
    pub post_script_name: Seq<char>,
    pub weight: u16,
    pub slope: FaceSlope,
    pub width: u16,
    pub in_memory: bool,
    pub index: u32,
}

/// What strings hold.
pub open spec fn texts(strings: Seq<String>) -> Seq<Seq<char>> {
    strings.map_values(|s: String| s@)
}

impl View for Face {
    type V = FaceView;

    open spec fn view(&self) -> FaceView {
        FaceView {
            id: self.id,
            families: texts(self.families@),
            post_script_name: self.post_script_name@,
            weight: self.weight,
            slope: self.slope,
            width: self.width,
            in_memory: self.in_memory,
            index: self.index,
        }
    }
}

/// What faces hold.
pub open spec fn face_views(faces: Seq<Face>) -> Seq<FaceView> {
    faces.map_values(|f: Face| f@)
}

/// The faces of a database, in the order in which it walks them.
pub uninterp spec fn faces_of(db: fontdb::Database) -> Seq<FaceView>;

/// The family that a database takes for its sans-serif.
pub uninterp spec fn sans_serif_of(db: fontdb::Database) -> Seq<char>;

/// The face that `fontdb` finds nearest to a weight and a slope among those of
/// a family, of normal width where it can.
pub uninterp spec fn nearest_face(
    faces: Seq<FaceView>,
    family: Seq<char>,
    weight: u16,
    italic: bool,
) -> Option<fontdb::ID>;

/// How many faces `fontdb` finds in the bytes of a font.
pub uninterp spec fn faces_in(bytes: Seq<u8>) -> nat;

/// Whether a face is of a family.
pub open spec fn is_of_family(f: FaceView, family: Seq<char>) -> bool {
    f.families.contains(family)
}

/// Whether a family has a face.
pub open spec fn has_family(faces: Seq<FaceView>, family: Seq<char>) -> bool {
    exists|i: int| 0 <= i < faces.len() && is_of_family(#[trigger] faces[i], family)
}

/// Whether an id is that of a face of a family.
pub open spec fn names_face_of(faces: Seq<FaceView>, family: Seq<char>, id: fontdb::ID) -> bool {
    exists|i: int|
        0 <= i < faces.len() && (#[trigger] faces[i]).id == id && is_of_family(faces[i], family)
}

/// Whether no two faces have the same id.
pub open spec fn have_own_ids(faces: Seq<FaceView>) -> bool {
    forall|i: int, j: int|
        0 <= i < j < faces.len() ==> (#[trigger] faces[i]).id != (#[trigger] faces[j]).id
}

/// `fontdb::Database::faces`, with each face taken out by its fields. Each face
/// has an id of its own.
#[verifier::external_body]
pub(crate) fn read_faces(db: &fontdb::Database) -> (r: Vec<Face>)
    ensures
        face_views(r@) == faces_of(*db),
        have_own_ids(face_views(r@)),
{
    let slope = |s| match s {
        fontdb::Style::Normal => FaceSlope::Normal,
        fontdb::Style::Italic => FaceSlope::Italic,
        fontdb::Style::Oblique => FaceSlope::Oblique,
    };
    let names = |f: &fontdb::FaceInfo| f.families.iter().map(|n| n.0.clone()).collect();
    db.faces().map(|f| Face {
        id: f.id, families: names(f), post_script_name: f.post_script_name.clone(),
        weight: f.weight.0, slope: slope(f.style), width: f.stretch.to_number(),
        in_memory: matches!(f.source, fontdb::Source::Binary(_)), index: f.index,
    }).collect()
}

/// `fontdb::Database::query` for one family by its name: the nearest face of
/// that family. There is one exactly where the family has a face.
#[verifier::external_body]
pub(crate) fn query_family(db: &fontdb::Database, family: &str, weight: u16, italic: bool) -> (r:
    Option<fontdb::ID>)
    ensures
        r == nearest_face(faces_of(*db), family@, weight, italic),
        r is Some <==> has_family(faces_of(*db), family@),
        r matches Some(id) ==> names_face_of(faces_of(*db), family@, id),
{
    db.query(&fontdb::Query {
        families: &[fontdb::Family::Name(family)],
        weight: fontdb::Weight(weight),
        stretch: fontdb::Stretch::Normal,
        style: if italic { fontdb::Style::Italic } else { fontdb::Style::Normal },
    })
}

/// `fontdb::Database::family_name` of the sans-serif family.
#[verifier::external_body]
pub(crate) fn sans_serif_name(db: &fontdb::Database) -> (r: String)
    ensures
        r@ == sans_serif_of(*db),
{
    db.family_name(&fontdb::Family::SansSerif).to_string()
}

/// Whether an id is that of a face.
pub open spec fn has_id(faces: Seq<FaceView>, id: fontdb::ID) -> bool {
    exists|f: FaceView| #[trigger] faces.contains(f) && f.id == id
}

/// Whether ids follow each other as their faces do in their file.
pub open spec fn in_file_order(faces: Seq<FaceView>, ids: Seq<fontdb::ID>) -> bool {
    forall|f: FaceView, g: FaceView, i: int, j: int|
        #![trigger faces.contains(f), faces.contains(g), ids[i], ids[j]]
        faces.contains(f) && faces.contains(g) && 0 <= i < j < ids.len() && f.id == ids[i] && g.id
            == ids[j] ==> f.index < g.index
}

/// Whether the faces of a file in memory have joined others, under ids of their
/// own.
pub open spec fn have_joined(
    before: Seq<FaceView>,
    after: Seq<FaceView>,
    ids: Seq<fontdb::ID>,
) -> bool {
    &&& after.len() == before.len() + ids.len()
    &&& forall|f: FaceView| #[trigger]
        before.contains(f) ==> after.contains(f) && !ids.contains(f.id)
    &&& forall|f: FaceView| #[trigger]
        after.contains(f) ==> before.contains(f) || (f.in_memory && ids.contains(f.id))
    &&& forall|i: int| 0 <= i < ids.len() ==> has_id(after, #[trigger] ids[i])
    &&& in_file_order(after, ids)
}

/// `fontdb::Database::load_font_source` with bytes in memory: the ids of the
/// faces found in them, in the order of the file. The faces join those that are
/// there. What the new faces are named is left unsaid.
#[verifier::external_body]
pub(crate) fn load_font(db: &mut fontdb::Database, bytes: Vec<u8>) -> (r: Vec<fontdb::ID>)
    ensures
        r@.len() == faces_in(bytes@),
        have_joined(faces_of(*old(db)), faces_of(*final(db)), r@),
        sans_serif_of(*final(db)) == sans_serif_of(*old(db)),
{
    db.load_font_source(fontdb::Source::Binary(Arc::new(bytes))).to_vec()
}

/// The faces under other ids than a given one.
pub open spec fn without_id(faces: Seq<FaceView>, id: fontdb::ID) -> Seq<FaceView> {
    faces.filter(|f: FaceView| f.id != id)
}

/// `fontdb::Database::clone`: a database with the same faces, under the same
/// ids.
#[verifier::external_body]
fn copy_database(db: &fontdb::Database) -> (r: fontdb::Database)
    ensures
        faces_of(r) == faces_of(*db),
        sans_serif_of(r) == sans_serif_of(*db),
{
    db.clone()
}

/// `fontdb::Database::remove_face`: the face with an id leaves, the others stay
/// as they are.
#[verifier::external_body]
fn remove_face(db: &mut fontdb::Database, id: fontdb::ID)
    ensures
        faces_of(*final(db)) == without_id(faces_of(*old(db)), id),
        sans_serif_of(*final(db)) == sans_serif_of(*old(db)),
{
    db.remove_face(id)
}

/// The faces that were not loaded from memory.
pub open spec fn host_faces(faces: Seq<FaceView>) -> Seq<FaceView> {
    faces.filter(|f: FaceView| !f.in_memory)
}

/// A filter that takes every item leaves them all.
proof fn taking_all(faces: Seq<FaceView>, p: spec_fn(FaceView) -> bool)
    requires
        forall|i: int| 0 <= i < faces.len() ==> p(#[trigger] faces[i]),
    ensures
        faces.filter(p) == faces,
    decreases faces.len(),
{
    reveal(Seq::filter);
    if faces.len() > 0 {
        assert forall|i: int| 0 <= i < faces.drop_last().len() implies p(
            #[trigger] faces.drop_last()[i],
        ) by {
            assert(faces.drop_last()[i] == faces[i]);
        }
        taking_all(faces.drop_last(), p);
        assert(faces.drop_last().push(faces.last()) =~= faces);
    }
}

/// Every face that a filter takes is one of those it is given.
proof fn taken_are_given(faces: Seq<FaceView>, p: spec_fn(FaceView) -> bool)
    ensures
        forall|i: int|
            0 <= i < faces.filter(p).len() ==> faces.contains(#[trigger] faces.filter(p)[i]),
    decreases faces.len(),
{
    reveal(Seq::filter);
    if faces.len() > 0 {
        taken_are_given(faces.drop_last(), p);
        assert(faces.contains(faces.last()));
        assert forall|i: int| 0 <= i < faces.filter(p).len() implies faces.contains(
            #[trigger] faces.filter(p)[i],
        ) by {
            let before = faces.drop_last().filter(p);
            if i < before.len() {
                let k = choose|k: int|
                    0 <= k < faces.drop_last().len() && faces.drop_last()[k] == before[i];
                assert(faces[k] == before[i]);
            }
        }
    }
}

/// What is left once the next face has been looked at.
proof fn one_face_further(all: Seq<FaceView>, i: int)
    requires
        have_own_ids(all),
        0 <= i < all.len(),
    ensures
        all[i].in_memory ==> without_id(host_faces(all.take(i)) + all.skip(i), all[i].id)
            == host_faces(all.take(i + 1)) + all.skip(i + 1),
        !all[i].in_memory ==> host_faces(all.take(i)) + all.skip(i) == host_faces(
            all.take(i + 1),
        ) + all.skip(i + 1),
{
    reveal(Seq::filter);
    let id = all[i].id;
    let p = |f: FaceView| f.id != id;
    let q = |f: FaceView| !f.in_memory;
    let a = host_faces(all.take(i));
    let b = all.skip(i + 1);
    assert(all.take(i + 1).drop_last() =~= all.take(i));
    assert(all.skip(i) =~= seq![all[i]] + b);
    if all[i].in_memory {
        taken_are_given(all.take(i), q);
        assert forall|k: int| 0 <= k < a.len() implies p(#[trigger] a[k]) by {
            assert(all.take(i).contains(a[k]));
            let n = choose|n: int| 0 <= n < all.take(i).len() && all.take(i)[n] == a[k];
            assert(all[n] == a[k]);
        }
        taking_all(a, p);
        taking_all(b, p);
        let one = seq![all[i]];
        assert(one.drop_last() =~= Seq::<FaceView>::empty());
        assert(one.filter(p) =~= Seq::<FaceView>::empty()) by {
            assert(one.drop_last().filter(p) =~= Seq::<FaceView>::empty());
        }
        Seq::filter_distributes_over_add(a, all.skip(i), p);
        Seq::filter_distributes_over_add(one, b, p);
        assert(one.filter(p) + b.filter(p) =~= b);
    } else {
        assert(a.push(all[i]) + b =~= a + all.skip(i));
    }
}

/// The face of a family nearest to a weight and a slope, fonts in memory left
/// aside.
pub(crate) fn query_host(db: &fontdb::Database, family: &str, weight: u16, italic: bool) -> (r:
    Option<fontdb::ID>)
    ensures
        r == nearest_face(host_faces(faces_of(*db)), family@, weight, italic),
        r is Some <==> has_family(host_faces(faces_of(*db)), family@),
        r matches Some(id) ==> names_face_of(host_faces(faces_of(*db)), family@, id),
{
    let mut host: fontdb::Database = copy_database(db);
    let faces: Vec<Face> = read_faces(db);
    let ghost all = face_views(faces@);
    let mut i: usize = 0;
    proof {
        reveal(Seq::filter);
        assert(host_faces(all.take(0)) + all.skip(0) =~= all);
    }
    while i < faces.len()
        invariant
            i <= faces@.len(),
            all == face_views(faces@),
            have_own_ids(all),
            faces_of(host) == host_faces(all.take(i as int)) + all.skip(i as int),
        decreases faces@.len() - i,
    {
        assert(all[i as int] == faces@[i as int]@);
        proof {
            one_face_further(all, i as int);
        }
        if faces[i].in_memory {
            remove_face(&mut host, faces[i].id);
        }
        i = i + 1;
    }
    assert(all.take(i as int) =~= all);
    assert(host_faces(all) + all.skip(i as int) =~= host_faces(all));
    query_family(&host, family, weight, italic)
}

} // verus!

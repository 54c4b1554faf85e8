//! What is found in a package, and where.
use vstd::prelude::*;

use crate::error::ParseError;
use crate::model::image::{ImageFormat, MediaEntry, PartMedia};
use crate::opc::contents::PackageContents;
use crate::opc::path::{
    directory_len, joined, lower, normalize, normalized, part_directory, reached, rels_path_for,
    resolve_target, segments,
};
use crate::opc::relationships::{
    by_id, by_type, Relationship, RelationshipType, Relationships, TargetMode,
};
use crate::pptx::media::{images_of, media_of, reading_once_is_enough, MediaCache};
use crate::pptx::package::{
    name_in, number, first_raw, presentation_from, raw_in, rels_loaded, walk_package, Part,
    PresentationPackage, PresentationXml, SlideParts,
};
use crate::xml::event::{event_views, read_events, up_to_failure, xml_events, EventView, XmlEvent};
use crate::xml::query::{attr, children_named};
use crate::xml::tree::Element;

verus! {

/// Two characters that are the same letter, in capitals or not, or the same
/// character.
pub open spec fn same_letter(a: char, b: char) -> bool {
    ||| a == b
    ||| 'A' <= a <= 'Z' && b as int == a as int + 32
    ||| 'A' <= b <= 'Z' && a as int == b as int + 32
}

proof fn same_letters_are_lowered_alike(a: char, b: char)
    requires
        same_letter(a, b),
    ensures
        crate::opc::path::lower_char(a) == crate::opc::path::lower_char(b),
{
}

/// Paths that differ in capitals only are one path.
pub proof fn capitals_do_not_tell_paths_apart(a: &str, b: &str, x: String, y: String)
    requires
        call_ensures(normalize, (a,), x),
        call_ensures(normalize, (b,), y),
        a@.len() == b@.len(),
        forall|i: int| 0 <= i < a@.len() ==> same_letter(#[trigger] a@[i], b@[i]),
    ensures
        x@ == y@,
{
    assert forall|i: int| 0 <= i < a@.len() implies #[trigger] lower(a@)[i] == lower(b@)[i] by {
        same_letters_are_lowered_alike(a@[i], b@[i]);
    }
    assert(lower(a@) =~= lower(b@));
}

proof fn a_segment_is_the_last(path: Seq<char>, s: Seq<char>)
    requires
        !s.contains('/'),
    ensures
        segments(path + seq!['/'] + s) == segments(path).push(s),
    decreases s.len(),
{
    let whole = path + seq!['/'] + s;
    if s.len() == 0 {
        assert(whole.drop_last() =~= path);
        assert(whole.last() == '/');
        assert(s =~= Seq::<char>::empty());
    } else {
        let rest = s.drop_last();
        assert forall|i: int| 0 <= i < rest.len() implies rest[i] != '/' by {
            assert(s.contains(s[i]));
        }
        a_segment_is_the_last(path, rest);
        assert(whole.drop_last() =~= path + seq!['/'] + rest);
        assert(whole.last() == s.last());
        assert(s.contains(s[s.len() - 1]));
        let before = segments(path).push(rest);
        assert(before.drop_last() =~= segments(path));
        assert(rest.push(s.last()) =~= s);
    }
}

proof fn one_segment_stands_alone(s: Seq<char>)
    requires
        !s.contains('/'),
    ensures
        segments(s) == seq![s],
    decreases s.len(),
{
    if s.len() == 0 {
        assert(s =~= Seq::<char>::empty());
    } else {
        let rest = s.drop_last();
        assert forall|i: int| 0 <= i < rest.len() implies rest[i] != '/' by {
            assert(s.contains(s[i]));
        }
        one_segment_stands_alone(rest);
        assert(s.contains(s[s.len() - 1]));
        assert(seq![rest].drop_last() =~= Seq::<Seq<char>>::empty());
        assert(rest.push(s.last()) =~= s);
        assert(segments(s) =~= seq![s]);
    }
}

proof fn lowering_keeps_slashes(s: Seq<char>)
    ensures
        lower(s).len() == s.len(),
        !s.contains('/') ==> !lower(s).contains('/'),
        s.len() == 1 && s[0] == '.' ==> lower(s) == seq!['.'],
        s.len() == 2 && s[0] == '.' && s[1] == '.' ==> lower(s) == seq!['.', '.'],
        lower(s) == seq!['.'] ==> s == seq!['.'],
        lower(s) == seq!['.', '.'] ==> s == seq!['.', '.'],
{
    if lower(s).contains('/') {
        let i = choose|i: int| 0 <= i < lower(s).len() && lower(s)[i] == '/';
        assert(crate::opc::path::lower_char(s[i]) == '/');
        assert(s[i] == '/');
        assert(s.contains('/'));
    }
    if s.len() == 1 && s[0] == '.' {
        assert(lower(s) =~= seq!['.']);
    }
    if s.len() == 2 && s[0] == '.' && s[1] == '.' {
        assert(lower(s) =~= seq!['.', '.']);
    }
    if lower(s) == seq!['.'] {
        assert(lower(s)[0] == '.');
        assert(crate::opc::path::lower_char(s[0]) == '.');
        assert(s =~= seq!['.']);
    }
    if lower(s) == seq!['.', '.'] {
        assert(lower(s)[0] == '.' && lower(s)[1] == '.');
        assert(crate::opc::path::lower_char(s[0]) == '.');
        assert(crate::opc::path::lower_char(s[1]) == '.');
        assert(s =~= seq!['.', '.']);
    }
}

proof fn lowering_goes_piece_by_piece(a: Seq<char>, s: Seq<char>)
    ensures
        lower(a + seq!['/'] + s) == lower(a) + seq!['/'] + lower(s),
{
    assert(lower(a + seq!['/'] + s) =~= lower(a) + seq!['/'] + lower(s));
}

/// A path is followed segment by segment: one more segment leads one place down,
/// `.` and nothing lead nowhere, and `..` leads to the place above.
pub proof fn a_path_is_followed_by_segments(
    path: &str,
    further: &str,
    s: Seq<char>,
    x: String,
    y: String,
)
    requires
        call_ensures(normalize, (path,), x),
        call_ensures(normalize, (further,), y),
        further@ == path@ + seq!['/'] + s,
        !s.contains('/'),
    ensures
        s.len() == 0 || s == seq!['.'] ==> y@ == x@,
        s == seq!['.', '.'] ==> {
            ||| y@.len() == 0
            ||| exists|t: Seq<char>| x@ == #[trigger] (y@ + seq!['/'] + t)
        },
        s.len() > 0 && s != seq!['.'] && s != seq!['.', '.'] ==> {
            ||| x@.len() == 0 && y@ == lower(s)
            ||| y@ == x@ + seq!['/'] + lower(s)
        },
{
    lowering_goes_piece_by_piece(path@, s);
    lowering_keeps_slashes(s);
    a_segment_is_the_last(lower(path@), lower(s));
    let all = segments(lower(path@));
    let more = all.push(lower(s));
    assert(more.drop_last() =~= all);
    let place = reached(all);
    assert(reached(more) == crate::opc::path::entered(place, lower(s)));
    if s.len() == 0 || s == seq!['.'] {
    } else if s == seq!['.', '.'] {
        assert(lower(s) != seq!['.']) by {
            assert(lower(s).len() == 2);
        }
        if place.len() > 1 {
            assert(x@ == y@ + seq!['/'] + place.last());
        }
    } else {
        let next = place.push(lower(s));
        assert(next.drop_last() =~= place);
        if place.len() == 0 {
            assert(joined(next) == next[0]);
        }
    }
}

/// A path of one segment is that segment, without capitals.
pub proof fn a_single_segment_is_its_path(path: &str, x: String)
    requires
        call_ensures(normalize, (path,), x),
        !path@.contains('/'),
        path@ != seq!['.'],
        path@ != seq!['.', '.'],
    ensures
        x@ == lower(path@),
{
    lowering_keeps_slashes(path@);
    one_segment_stands_alone(lower(path@));
    let all = seq![lower(path@)];
    assert(all.drop_last() =~= Seq::<Seq<char>>::empty());
    assert(reached(Seq::<Seq<char>>::empty()) == Seq::<Seq<char>>::empty());
    if path@.len() == 0 {
        assert(lower(path@) =~= Seq::<char>::empty());
    }
}

/// A target that starts with a slash does not depend on where it stands; any other
/// is followed from there.
pub proof fn a_target_is_followed_from_its_place(
    place: &str,
    target: &str,
    r: String,
    whole: &str,
    w: String,
)
    requires
        call_ensures(resolve_target, (place, target), r),
        call_ensures(normalize, (whole,), w),
    ensures
        target@.len() > 0 && target@[0] == '/' && whole@ == target@ ==> r@ == w@,
        (target@.len() == 0 || target@[0] != '/') && whole@ == place@ + seq!['/'] + target@ ==> r@
            == w@,
{
}

proof fn the_last_slash(dir: Seq<char>, file: Seq<char>)
    requires
        !file.contains('/'),
    ensures
        directory_len(dir + seq!['/'] + file) == dir.len(),
    decreases file.len(),
{
    let whole = dir + seq!['/'] + file;
    if file.len() == 0 {
        assert(whole.last() == '/');
    } else {
        let rest = file.drop_last();
        assert forall|i: int| 0 <= i < rest.len() implies rest[i] != '/' by {
            assert(file.contains(file[i]));
        }
        the_last_slash(dir, rest);
        assert(file.contains(file[file.len() - 1]));
        assert(whole.drop_last() =~= dir + seq!['/'] + rest);
        assert(whole.last() == file.last());
    }
}

proof fn no_slash_no_directory(file: Seq<char>)
    requires
        !file.contains('/'),
    ensures
        directory_len(file) == 0,
    decreases file.len(),
{
    if file.len() > 0 {
        let rest = file.drop_last();
        assert forall|i: int| 0 <= i < rest.len() implies rest[i] != '/' by {
            assert(file.contains(file[i]));
        }
        no_slash_no_directory(rest);
        assert(file.contains(file[file.len() - 1]));
    }
}

/// The directory of a part is what stands before its file, and its relationships
/// stand in a directory of their own beside it.
pub proof fn relationships_stand_beside_their_part(
    path: &str,
    dir: Seq<char>,
    file: Seq<char>,
    d: String,
    r: String,
)
    requires
        call_ensures(part_directory, (path,), d),
        call_ensures(rels_path_for, (path,), r),
        !file.contains('/'),
    ensures
        path@ == dir + seq!['/'] + file ==> d@ == dir && r@ == dir + "/_rels/"@ + file + ".rels"@,
        path@ == file ==> d@.len() == 0 && r@ == "_rels/"@ + file + ".rels"@,
{
    if path@ == dir + seq!['/'] + file {
        the_last_slash(dir, file);
        assert(path@[dir.len() as int] == '/');
        assert(path@.contains('/'));
        assert(path@.take(dir.len() as int) =~= dir);
        assert(path@.skip(dir.len() as int + 1) =~= file);
    }
    if path@ == file {
        no_slash_no_directory(file);
    }
}

proof fn the_first_of_an_id(list: Seq<Relationship>, id: Seq<char>)
    ensures
        by_id(list, id) is None ==> forall|i: int|
            0 <= i < list.len() ==> (#[trigger] list[i]).id@ != id,
        by_id(list, id) matches Some(r) ==> exists|i: int|
            0 <= i < list.len() && #[trigger] list[i] == r && r.id@ == id && forall|j: int|
                0 <= j < i ==> (#[trigger] list[j]).id@ != id,
    decreases list.len(),
{
    if list.len() > 0 && list[0].id@ != id {
        let rest = list.skip(1);
        the_first_of_an_id(rest, id);
        assert(forall|i: int| 0 <= i < rest.len() ==> #[trigger] rest[i] == list[i + 1]);
        if let Some(r) = by_id(list, id) {
            let i = choose|i: int|
                0 <= i < rest.len() && #[trigger] rest[i] == r && r.id@ == id && forall|j: int|
                    0 <= j < i ==> (#[trigger] rest[j]).id@ != id;
            assert(list[i + 1] == r);
            assert forall|j: int| 0 <= j < i + 1 implies (#[trigger] list[j]).id@ != id by {
                if j > 0 {
                    assert(rest[j - 1] == list[j]);
                }
            }
        } else {
            assert forall|i: int| 0 <= i < list.len() implies (#[trigger] list[i]).id@ != id by {
                if i > 0 {
                    assert(rest[i - 1] == list[i]);
                }
            }
        }
    } else if list.len() > 0 {
        assert(list[0] == list[0]);
    }
}

proof fn the_first_of_a_type(list: Seq<Relationship>, ty: RelationshipType)
    ensures
        by_type(list, ty) is None ==> forall|i: int|
            0 <= i < list.len() ==> (#[trigger] list[i]).rel_type != ty,
        by_type(list, ty) matches Some(r) ==> exists|i: int|
            0 <= i < list.len() && #[trigger] list[i] == r && r.rel_type == ty && forall|j: int|
                0 <= j < i ==> (#[trigger] list[j]).rel_type != ty,
    decreases list.len(),
{
    if list.len() > 0 && list[0].rel_type != ty {
        let rest = list.skip(1);
        the_first_of_a_type(rest, ty);
        assert(forall|i: int| 0 <= i < rest.len() ==> #[trigger] rest[i] == list[i + 1]);
        if let Some(r) = by_type(list, ty) {
            let i = choose|i: int|
                0 <= i < rest.len() && #[trigger] rest[i] == r && r.rel_type == ty && forall|j: int|
                    0 <= j < i ==> (#[trigger] rest[j]).rel_type != ty;
            assert(list[i + 1] == r);
            assert forall|j: int| 0 <= j < i + 1 implies (#[trigger] list[j]).rel_type != ty by {
                if j > 0 {
                    assert(rest[j - 1] == list[j]);
                }
            }
        } else {
            assert forall|i: int| 0 <= i < list.len() implies (#[trigger] list[i]).rel_type
                != ty by {
                if i > 0 {
                    assert(rest[i - 1] == list[i]);
                }
            }
        }
    } else if list.len() > 0 {
        assert(list[0] == list[0]);
    }
}

/// The first relationship of an id, or of a type, is found, and none is found only
/// where there is none.
pub proof fn the_first_relationship_is_found(
    rels: &Relationships,
    id: &str,
    ty: RelationshipType,
    a: Option<&Relationship>,
    b: Option<&Relationship>,
)
    requires
        call_ensures(Relationships::find_by_id, (rels, id), a),
        call_ensures(Relationships::find_by_type, (rels, ty), b),
    ensures
        a is None ==> forall|i: int|
            0 <= i < rels.list@.len() ==> (#[trigger] rels.list@[i]).id@ != id@,
        a matches Some(r) ==> r.id@ == id@ && exists|i: int|
            0 <= i < rels.list@.len() && #[trigger] rels.list@[i] == *r && forall|j: int|
                0 <= j < i ==> (#[trigger] rels.list@[j]).id@ != id@,
        b is None ==> forall|i: int|
            0 <= i < rels.list@.len() ==> (#[trigger] rels.list@[i]).rel_type != ty,
        b matches Some(r) ==> r.rel_type == ty && exists|i: int|
            0 <= i < rels.list@.len() && #[trigger] rels.list@[i] == *r && forall|j: int|
                0 <= j < i ==> (#[trigger] rels.list@[j]).rel_type != ty,
{
    the_first_of_an_id(rels.list@, id@);
    the_first_of_a_type(rels.list@, ty);
}

/// Whether a type is written with a word, behind either of the two prefixes that
/// types have.
pub open spec fn is_written(uri: Seq<char>, word: Seq<char>) -> bool {
    ||| uri == "http://schemas.openxmlformats.org/officeDocument/2006/relationships/"@ + word
    ||| uri == "http://purl.oclc.org/ooxml/officeDocument/relationships/"@ + word
}

/// A relationship has the id, the type, the target and the mode that its element
/// states.
pub proof fn a_relationship_is_read_by_its_names(
    root: Element,
    rels: Relationships,
    i: int,
    ty: Seq<char>,
)
    requires
        call_ensures(Relationships::from_root, (&Some(root),), rels),
        0 <= i < rels.list@.len(),
        attr(children_named(root, "Relationship"@)[i], "Type"@) == Some(ty),
    ensures
        ({
            let e = children_named(root, "Relationship"@)[i];
            let r = rels.list@[i];
            &&& rels.list@.len() == children_named(root, "Relationship"@).len()
            &&& attr(e, "Id"@) == Some(r.id@)
            &&& attr(e, "Target"@) == Some(r.target@)
            &&& r.target_mode is External <==> attr(e, "TargetMode"@) == Some("External"@)
            &&& r.rel_type is OfficeDocument ==> is_written(ty, "officeDocument"@)
            &&& r.rel_type is Slide ==> is_written(ty, "slide"@)
            &&& r.rel_type is SlideLayout ==> is_written(ty, "slideLayout"@)
            &&& r.rel_type is SlideMaster ==> is_written(ty, "slideMaster"@)
            &&& r.rel_type is NotesSlide ==> is_written(ty, "notesSlide"@)
            &&& r.rel_type is NotesMaster ==> is_written(ty, "notesMaster"@)
            &&& r.rel_type is Theme ==> is_written(ty, "theme"@)
            &&& r.rel_type is Image ==> is_written(ty, "image"@)
            &&& r.rel_type is Hyperlink ==> is_written(ty, "hyperlink"@)
            &&& r.rel_type is DiagramData ==> is_written(ty, "diagramData"@)
            &&& r.rel_type is Other ==> !is_written(ty, "officeDocument"@) && !is_written(
                ty,
                "slide"@,
            ) && !is_written(ty, "slideLayout"@) && !is_written(ty, "slideMaster"@)
                && !is_written(ty, "notesSlide"@) && !is_written(ty, "notesMaster"@)
                && !is_written(ty, "theme"@) && !is_written(ty, "image"@) && !is_written(
                ty,
                "hyperlink"@,
            ) && !is_written(ty, "diagramData"@)
        }),
{
    let stated = children_named(root, "Relationship"@);
    assert(crate::opc::relationships::relationship_reads(stated[i]));
    assert(crate::opc::relationships::is_relationship(stated[i], rels.list@[i]));
}

/// An entry of a package is found under its path; one that comes later under the
/// same path takes the place of one before it, and changes no other.
pub proof fn a_later_entry_takes_the_place_of_an_earlier_one(
    few: Vec<(String, Vec<u8>)>,
    more: Vec<(String, Vec<u8>)>,
    small: PackageContents,
    large: PackageContents,
    name: String,
    bytes: Vec<u8>,
    path: &str,
    name_path: String,
    a: Option<&Vec<u8>>,
    b: Option<&Vec<u8>>,
)
    requires
        call_ensures(PackageContents::from_entries, (few,), small),
        call_ensures(PackageContents::from_entries, (more,), large),
        more@ == few@.push((name, bytes)),
        call_ensures(PackageContents::get_part, (&small, path), a),
        call_ensures(PackageContents::get_part, (&large, path), b),
        name_path@ == normalized(name@),
    ensures
        few@.len() == 0 ==> a is None,
        name_path@ == path@ ==> (b matches Some(v) && v@ == bytes@),
        name_path@ != path@ ==> {
            &&& a is None <==> b is None
            &&& a matches Some(v) ==> (b matches Some(w) && w@ == v@)
        },
{
    let small_view = small@;
    let large_view = large@;
    assert(large_view =~= small_view.push((normalized(name@), bytes@)));
    assert(large_view.drop_last() =~= small_view);
    assert(large_view.last() == (normalized(name@), bytes@));
}

/// The part that a relationship of a part leads to is followed from the directory
/// of that part, and a target outside the package leads to none.
pub proof fn a_relationship_leads_from_its_part(
    part: &Part,
    id: &str,
    found: Option<&Relationship>,
    r: Option<String>,
    path: &str,
    dir: String,
    place: &str,
    target: &str,
    whole: String,
)
    requires
        call_ensures(Part::resolve_rel, (part, id), r),
        call_ensures(Relationships::find_by_id, (&part.rels, id), found),
        path@ == part.path@,
        call_ensures(part_directory, (path,), dir),
        place@ == dir@,
        call_ensures(resolve_target, (place, target), whole),
    ensures
        found is None ==> r is None,
        found matches Some(x) ==> {
            &&& x.target_mode is External ==> r is None
            &&& x.target_mode is Internal && target@ == x.target@ ==> (r matches Some(s) && s@
                == whole@)
        },
{
}

/// The name of what a tag opens.
pub open spec fn is_tag(e: XmlEvent, content: Seq<u8>) -> bool {
    e@ == EventView::Start(content) || e@ == EventView::Empty(content)
}

/// The events of a presentation are taken in one by one: a tag of the slide size
/// states that size, one of the notes size the other, and no other tag changes
/// either.
pub proof fn sizes_are_stated_by_their_tags(
    few: &Vec<XmlEvent>,
    more: &Vec<XmlEvent>,
    e: XmlEvent,
    content: Seq<u8>,
    a: PresentationXml,
    b: PresentationXml,
)
    requires
        call_ensures(presentation_from, (few,), Ok::<PresentationXml, ParseError>(a)),
        call_ensures(presentation_from, (more,), Ok::<PresentationXml, ParseError>(b)),
        more@ == few@.push(e),
        is_tag(e, content),
    ensures
        ({
            let cx = number(first_raw(raw_in(content), "cx"@));
            let cy = number(first_raw(raw_in(content), "cy"@));
            &&& name_in(content) == "sldSz"@ && cx is Some && cy is Some ==> b.slide_size == Some(
                (cx->0, cy->0),
            ) && b.notes_size == a.notes_size
            &&& name_in(content) == "notesSz"@ && cx is Some && cy is Some ==> b.notes_size == Some(
                (cx->0, cy->0),
            ) && b.slide_size == a.slide_size
            &&& name_in(content) != "sldSz"@ ==> b.slide_size == a.slide_size
            &&& name_in(content) != "notesSz"@ ==> b.notes_size == a.notes_size
        }),
{
    tag_names_differ();
    one_event_more(few, more, e);
}

proof fn tag_names_differ()
    ensures
        "sldIdLst"@ != "sldId"@,
        "sldIdLst"@ != "sldSz"@,
        "sldIdLst"@ != "notesSz"@,
        "sldId"@ != "sldSz"@,
        "sldId"@ != "notesSz"@,
        "sldSz"@ != "notesSz"@,
{
    reveal_strlit("sldIdLst");
    reveal_strlit("sldId");
    reveal_strlit("sldSz");
    reveal_strlit("notesSz");
    assert("sldIdLst"@.len() == 8 && "sldId"@.len() == 5 && "sldSz"@.len() == 5
        && "notesSz"@.len() == 7);
    assert("sldId"@[3] == 'I' && "sldSz"@[3] == 'S');
}

proof fn one_event_more(few: &Vec<XmlEvent>, more: &Vec<XmlEvent>, e: XmlEvent)
    requires
        more@ == few@.push(e),
    ensures
        event_views(more@).drop_last() == event_views(few@),
        event_views(more@).last() == e@,
        event_views(more@).len() == event_views(few@).len() + 1,
{
    assert(event_views(more@).drop_last() =~= event_views(few@));
}

/// Slides are named in the list of slides only, each behind those before it, by
/// the relationship that it is qualified with.
pub proof fn slides_are_named_in_their_list(
    none: &Vec<XmlEvent>,
    few: &Vec<XmlEvent>,
    more: &Vec<XmlEvent>,
    e: XmlEvent,
    f: XmlEvent,
    opened: Seq<u8>,
    content: Seq<u8>,
    a: PresentationXml,
    b: PresentationXml,
    c: PresentationXml,
)
    requires
        call_ensures(presentation_from, (none,), Ok::<PresentationXml, ParseError>(a)),
        call_ensures(presentation_from, (few,), Ok::<PresentationXml, ParseError>(b)),
        call_ensures(presentation_from, (more,), Ok::<PresentationXml, ParseError>(c)),
        few@ == none@.push(e),
        more@ == few@.push(f),
        is_tag(f, content),
    ensures
        none@.len() == 0 ==> a.slide_rel_ids@.len() == 0,
        ({
            let before = b.slide_rel_ids@;
            let after = c.slide_rel_ids@;
            let id = first_raw(raw_in(content), "r:id"@);
            let added = after.len() == before.len() + 1 && (id matches Some(s) && after.last()@
                == s);
            &&& before.len() <= after.len() <= before.len() + 1
            &&& forall|i: int| 0 <= i < before.len() ==> after[i]@ == (#[trigger] before[i])@
            &&& after.len() > before.len() ==> name_in(content) == "sldId"@ && added
            &&& name_in(content) == "sldId"@ && id is Some ==> {
                &&& e@ == EventView::Start(opened) && name_in(opened) == "sldIdLst"@ ==> added
                &&& e@ == EventView::Empty(opened) && name_in(opened) == "sldIdLst"@ ==> !added
                &&& is_tag(e, opened) && b.slide_rel_ids@.len() > a.slide_rel_ids@.len() ==> added
            }
        }),
{
    tag_names_differ();
    one_event_more(none, few, e);
    one_event_more(few, more, f);
    let first = crate::pptx::package::stated_by(event_views(none@));
    let second = crate::pptx::package::stated_by(event_views(few@));
    let third = crate::pptx::package::stated_by(event_views(more@));
    let before = b.slide_rel_ids@;
    let after = c.slide_rel_ids@;
    assert(crate::pptx::package::texts(before) == second.ids);
    assert(crate::pptx::package::texts(after) == third.ids);
    assert(crate::pptx::package::texts(a.slide_rel_ids@) == first.ids);
    assert(before.len() == second.ids.len());
    assert(after.len() == third.ids.len());
    assert(a.slide_rel_ids@.len() == first.ids.len());
    assert forall|i: int| 0 <= i < before.len() implies after[i]@ == (#[trigger] before[i])@ by {
        assert(crate::pptx::package::texts(before)[i] == before[i]@);
        assert(crate::pptx::package::texts(after)[i] == after[i]@);
    }
    if after.len() > before.len() {
        assert(crate::pptx::package::texts(after)[after.len() - 1] == after[after.len() - 1]@);
    }
}

/// Behind the end of the list of slides nothing names a slide.
pub proof fn behind_the_list_no_slide_is_named(
    few: &Vec<XmlEvent>,
    more: &Vec<XmlEvent>,
    none: &Vec<XmlEvent>,
    e: XmlEvent,
    f: XmlEvent,
    name: Seq<u8>,
    content: Seq<u8>,
    b: PresentationXml,
    c: PresentationXml,
)
    requires
        call_ensures(presentation_from, (few,), Ok::<PresentationXml, ParseError>(b)),
        call_ensures(presentation_from, (more,), Ok::<PresentationXml, ParseError>(c)),
        few@ == none@.push(e),
        more@ == few@.push(f),
        e@ == EventView::End(name),
        crate::xml::name::local_part(crate::pptx::package::lossy(name)) == "sldIdLst"@,
        is_tag(f, content),
    ensures
        c.slide_rel_ids@.len() == b.slide_rel_ids@.len(),
{
    tag_names_differ();
    one_event_more(none, few, e);
    one_event_more(few, more, f);
    let second = crate::pptx::package::stated_by(event_views(few@));
    let third = crate::pptx::package::stated_by(event_views(more@));
    assert(!second.inside);
    assert(crate::pptx::package::texts(b.slide_rel_ids@) == second.ids);
    assert(crate::pptx::package::texts(c.slide_rel_ids@) == third.ids);
    assert(b.slide_rel_ids@.len() == second.ids.len());
    assert(c.slide_rel_ids@.len() == third.ids.len());
}

/// Whether a relationship is the first of its type.
pub open spec fn is_first(list: Seq<Relationship>, ty: RelationshipType, i: int) -> bool {
    &&& 0 <= i < list.len()
    &&& list[i].rel_type == ty
    &&& forall|j: int| 0 <= j < i ==> (#[trigger] list[j]).rel_type != ty
}

/// Whether the first relationship of a type leads from a part to a path.
pub open spec fn leads_to(from: Part, ty: RelationshipType, path: Seq<char>) -> bool {
    exists|i: int| #[trigger]
        is_first(from.rels.list@, ty, i) && path == crate::opc::path::target_path(
            crate::opc::path::directory(from.path@),
            from.rels.list@[i].target@,
        )
}

proof fn where_the_first_is(list: Seq<Relationship>, ty: RelationshipType) -> (i: int)
    ensures
        by_type(list, ty) matches Some(r) ==> is_first(list, ty, i) && list[i] == r,
{
    the_first_of_a_type(list, ty);
    let r = by_type(list, ty)->0;
    choose|i: int|
        0 <= i < list.len() && #[trigger] list[i] == r && r.rel_type == ty && forall|j: int|
            0 <= j < i ==> (#[trigger] list[j]).rel_type != ty
}

proof fn where_a_type_leads(from: Part, ty: RelationshipType)
    ensures
        crate::pptx::package::target_by_type(from, ty) matches Some(path) ==> leads_to(
            from,
            ty,
            path,
        ),
{
    let i = where_the_first_is(from.rels.list@, ty);
    assert(by_type(from.rels.list@, ty) is Some ==> is_first(from.rels.list@, ty, i));
}

proof fn what_a_type_leads_to(
    package: PackageContents,
    from: Part,
    ty: RelationshipType,
    p: Option<Part>,
)
    requires
        crate::pptx::package::is_related(package, from, ty, p),
    ensures
        p matches Some(to) ==> leads_to(from, ty, to.path@) && package.part(to.path@) == Some(
            to.xml@,
        ),
{
    where_a_type_leads(from, ty);
}

/// A slide has its own layout, that layout's master, and its own notes.
pub proof fn a_slide_has_the_parts_around_it(
    package: PackageContents,
    p: PresentationPackage,
    i: int,
)
    requires
        call_ensures(walk_package, (package,), Ok::<PresentationPackage, ParseError>(p)),
        0 <= i < p.slides@.len(),
    ensures
        ({
            let s = p.slides@[i];
            &&& package.part(s.slide.path@) == Some(s.slide.xml@)
            &&& s.layout matches Some(l) ==> leads_to(s.slide, RelationshipType::SlideLayout, l.path@)
                && package.part(l.path@) == Some(l.xml@)
            &&& s.master matches Some(m) ==> (s.layout matches Some(l) && leads_to(
                l,
                RelationshipType::SlideMaster,
                m.path@,
            ) && package.part(m.path@) == Some(m.xml@))
            &&& s.notes matches Some(n) ==> leads_to(s.slide, RelationshipType::NotesSlide, n.path@)
                && package.part(n.path@) == Some(n.xml@)
        }),
{
    let s = p.slides@[i];
    what_a_type_leads_to(package, s.slide, RelationshipType::SlideLayout, s.layout);
    what_a_type_leads_to(package, s.slide, RelationshipType::NotesSlide, s.notes);
    if let Some(l) = s.layout {
        what_a_type_leads_to(package, l, RelationshipType::SlideMaster, s.master);
    }
}

proof fn the_first_master(slides: Seq<SlideParts>)
    ensures
        crate::pptx::package::first_master(slides) matches Some(m) ==> exists|i: int|
            0 <= i < slides.len() && (#[trigger] slides[i]).master == Some(m) && forall|j: int|
                0 <= j < i ==> (#[trigger] slides[j]).master is None,
        crate::pptx::package::first_master(slides) is None ==> forall|i: int|
            0 <= i < slides.len() ==> (#[trigger] slides[i]).master is None,
    decreases slides.len(),
{
    if slides.len() > 0 && slides[0].master is None {
        let rest = slides.skip(1);
        the_first_master(rest);
        if let Some(m) = crate::pptx::package::first_master(rest) {
            let i = choose|i: int|
                0 <= i < rest.len() && (#[trigger] rest[i]).master == Some(m) && forall|j: int|
                    0 <= j < i ==> (#[trigger] rest[j]).master is None;
            assert(slides[i + 1].master == Some(m));
            assert forall|j: int| 0 <= j < i + 1 implies (#[trigger] slides[j]).master is None by {
                if j > 0 {
                    assert(rest[j - 1] == slides[j]);
                }
            }
        } else {
            assert forall|i: int| 0 <= i < slides.len() implies (#[trigger] slides[i]).master
                is None by {
                if i > 0 {
                    assert(rest[i - 1] == slides[i]);
                }
            }
        }
    } else if slides.len() > 0 {
        assert(slides[0].master is Some);
    }
}

/// The theme of a presentation is that of the first master among its slides.
pub proof fn the_theme_is_the_first_masters(package: PackageContents, p: PresentationPackage)
    requires
        call_ensures(walk_package, (package,), Ok::<PresentationPackage, ParseError>(p)),
    ensures
        p.theme matches Some(t) ==> exists|i: int, m: Part, path: Seq<char>|
            0 <= i < p.slides@.len() && (forall|j: int|
                0 <= j < i ==> (#[trigger] p.slides@[j]).master is None) && (
            #[trigger] p.slides@[i]).master == Some(m) && #[trigger] leads_to(
                m,
                RelationshipType::Theme,
                path,
            ) && package.part(path) == Some(t@),
        (forall|i: int| 0 <= i < p.slides@.len() ==> (#[trigger] p.slides@[i]).master is None)
            ==> p.theme is None,
{
    the_first_master(p.slides@);
    if let Some(t) = p.theme {
        let m = crate::pptx::package::first_master(p.slides@)->0;
        let i = choose|i: int|
            0 <= i < p.slides@.len() && (#[trigger] p.slides@[i]).master == Some(m) && forall|
                j: int,
            |
                0 <= j < i ==> (#[trigger] p.slides@[j]).master is None;
        let path = crate::pptx::package::target_by_type(m, RelationshipType::Theme)->0;
        where_a_type_leads(m, RelationshipType::Theme);
        assert(leads_to(m, RelationshipType::Theme, path));
        assert(p.slides@[i].master == Some(m));
    }
}

/// A package holds what it was walked for, and slides that no size was stated for
/// are ten inches by seven and a half.
pub proof fn what_a_presentation_is_sized(
    package: PackageContents,
    r: Result<PresentationPackage, ParseError>,
    data: Seq<u8>,
    events: &Vec<XmlEvent>,
    x: PresentationXml,
)
    requires
        call_ensures(walk_package, (package,), r),
        package.part(crate::opc::path::rels_path(Seq::empty())) is None,
        package.part("ppt/presentation.xml"@) == Some(data),
        event_views(events@) == crate::xml::event::up_to_failure(crate::xml::event::xml_events(data)),
        call_ensures(presentation_from, (events,), Ok::<PresentationXml, ParseError>(x)),
    ensures
        r matches Ok(p) && {
            &&& p.package == package
            &&& x.slide_size matches Some(s) ==> p.info.slide_width_emu == s.0
                && p.info.slide_height_emu == s.1
            &&& x.slide_size is None ==> p.info.slide_width_emu == 10 * 914_400
                && 2 * p.info.slide_height_emu == 15 * 914_400
            &&& x.notes_size matches Some(s) ==> p.info.notes_width_emu == Some(s.0)
                && p.info.notes_height_emu == Some(s.1)
            &&& x.notes_size is None ==> p.info.notes_width_emu is None
                && p.info.notes_height_emu is None
            &&& p.slides@.len() <= x.slide_rel_ids@.len()
        },
{
    let root = choose|root: Relationships| #[trigger]
        rels_loaded(package, Seq::empty(), root) && crate::pptx::package::walk_outcome(
            package,
            root,
            r,
        );
    assert(rels_loaded(package, Seq::empty(), root));
    assert(root.list@.len() == 0);
    let path = crate::pptx::package::presentation_path(root);
    assert(path == "ppt/presentation.xml"@);
    assert(crate::pptx::package::part_outcome(package, path, data, r));
    let p = r->Ok_0;
    let stated = choose|stated: Result<PresentationXml, ParseError>| #[trigger]
        crate::pptx::package::presentation_outcome(event_views(events@), stated) && match stated {
            Err(e) => r == Err::<PresentationPackage, ParseError>(e),
            Ok(y) => crate::pptx::package::slides_outcome(package, path, y, r),
        };
    let y = stated->Ok_0;
    assert(crate::pptx::package::texts(y.slide_rel_ids@) == crate::pptx::package::texts(
        x.slide_rel_ids@,
    ));
    let presentation = choose|presentation: Part| #[trigger]
        crate::pptx::package::is_part(package, path, presentation) && (r matches Ok(p)
            && crate::pptx::package::is_presentation(package, presentation, y, p));
    no_more_slides_than_ids(package, presentation, crate::pptx::package::texts(y.slide_rel_ids@));
    assert(crate::pptx::package::texts(x.slide_rel_ids@).len() == x.slide_rel_ids@.len());
}

proof fn no_more_slides_than_ids(package: PackageContents, from: Part, ids: Seq<Seq<char>>)
    ensures
        crate::pptx::package::slide_paths(package, from, ids).len() <= ids.len(),
    decreases ids.len(),
{
    if ids.len() > 0 {
        no_more_slides_than_ids(package, from, ids.drop_last());
    }
}

/// Slides stand in the order of the ids that name them: one more id adds the part
/// that it leads to behind the others, where there is such a part.
pub proof fn slides_stand_in_the_order_of_their_ids(
    package: PackageContents,
    from: &Part,
    ids: Seq<Seq<char>>,
    id: &str,
    path: Option<String>,
)
    requires
        call_ensures(Part::resolve_rel, (from, id), path),
    ensures
        crate::pptx::package::slide_paths(package, *from, Seq::empty()).len() == 0,
        ({
            let before = crate::pptx::package::slide_paths(package, *from, ids);
            let after = crate::pptx::package::slide_paths(package, *from, ids.push(id@));
            &&& path is None ==> after == before
            &&& path matches Some(s) ==> {
                &&& package.part(s@) is Some ==> after == before.push(s@)
                &&& package.part(s@) is None ==> after == before
            }
        }),
{
    assert(ids.push(id@).drop_last() =~= ids);
}

proof fn the_extension_of_a_file(stem: Seq<char>, ext: Seq<char>)
    requires
        !ext.contains('.'),
    ensures
        crate::model::image::extension(stem + seq!['.'] + ext) == lower(ext),
    decreases ext.len(),
{
    let whole = stem + seq!['.'] + ext;
    assert(whole[stem.len() as int] == '.');
    assert(whole.contains('.'));
    if ext.len() == 0 {
        assert(whole.last() == '.');
        assert(lower(ext) =~= Seq::<char>::empty());
    } else {
        let rest = ext.drop_last();
        assert forall|i: int| 0 <= i < rest.len() implies rest[i] != '.' by {
            assert(ext.contains(ext[i]));
        }
        the_extension_of_a_file(stem, rest);
        assert(ext.contains(ext[ext.len() - 1]));
        assert(whole.drop_last() =~= stem + seq!['.'] + rest);
        assert(whole.last() == ext.last());
        assert(lower(ext) =~= lower(rest).push(crate::opc::path::lower_char(ext.last())));
    }
}

/// An image has the format of its extension, in capitals or not.
pub proof fn an_extension_tells_the_format(
    path: &str,
    data: &[u8],
    stem: Seq<char>,
    ext: Seq<char>,
    r: ImageFormat,
)
    requires
        call_ensures(ImageFormat::detect, (path, data), r),
        path@ == stem + seq!['.'] + ext,
        !ext.contains('.'),
    ensures
        lower(ext) == "png"@ ==> r is Png,
        lower(ext) == "jpg"@ || lower(ext) == "jpeg"@ ==> r is Jpeg,
        lower(ext) == "gif"@ ==> r is Gif,
        lower(ext) == "bmp"@ ==> r is Bmp,
        lower(ext) == "tif"@ || lower(ext) == "tiff"@ ==> r is Tiff,
        lower(ext) == "emf"@ ==> r is Emf,
        lower(ext) == "wmf"@ ==> r is Wmf,
        lower(ext) == "svg"@ ==> r is Svg,
        r is Emf ==> lower(ext) == "emf"@,
        r is Wmf ==> lower(ext) == "wmf"@,
        r is Svg ==> lower(ext) == "svg"@,
{
    the_extension_of_a_file(stem, ext);
    reveal_strlit("png");
    reveal_strlit("jpg");
    reveal_strlit("jpeg");
    reveal_strlit("gif");
    reveal_strlit("bmp");
    reveal_strlit("tif");
    reveal_strlit("tiff");
    reveal_strlit("emf");
    reveal_strlit("wmf");
    reveal_strlit("svg");
    assert("png"@[0] == 'p' && "jpg"@[0] == 'j' && "jpeg"@[0] == 'j' && "gif"@[0] == 'g'
        && "bmp"@[0] == 'b' && "tif"@[0] == 't' && "tiff"@[0] == 't' && "emf"@[0] == 'e'
        && "wmf"@[0] == 'w' && "svg"@[0] == 's');
}

/// Without an extension an image has the format that its first bytes show.
pub proof fn first_bytes_tell_the_format(path: &str, data: &[u8], r: ImageFormat)
    requires
        call_ensures(ImageFormat::detect, (path, data), r),
        !path@.contains('.'),
        data@.len() >= 4,
    ensures
        data@[0] == 0x89 && data@[1] == 0x50 && data@[2] == 0x4E && data@[3] == 0x47 <==> r is Png,
        data@[0] == 0xFF && data@[1] == 0xD8 && data@[2] == 0xFF <==> r is Jpeg,
        data@[0] == 0x47 && data@[1] == 0x49 && data@[2] == 0x46 && data@[3] == 0x38 <==> r is Gif,
        data@[0] == 0x42 && data@[1] == 0x4D <==> r is Bmp,
        data@[0] == 0x49 && data@[1] == 0x49 && data@[2] == 0x2A && data@[3] == 0x00 || data@[0]
            == 0x4D && data@[1] == 0x4D && data@[2] == 0x00 && data@[3] == 0x2A <==> r is Tiff,
        !(r is Emf || r is Wmf || r is Svg),
{
    reveal_strlit("png");
    reveal_strlit("jpg");
    reveal_strlit("jpeg");
    reveal_strlit("gif");
    reveal_strlit("bmp");
    reveal_strlit("tif");
    reveal_strlit("tiff");
    reveal_strlit("emf");
    reveal_strlit("wmf");
    reveal_strlit("svg");
    assert(crate::model::image::extension(path@).len() == 0);
    assert("png"@.len() == 3 && "jpg"@.len() == 3 && "jpeg"@.len() == 4 && "gif"@.len() == 3
        && "bmp"@.len() == 3 && "tif"@.len() == 3 && "tiff"@.len() == 4 && "emf"@.len() == 3
        && "wmf"@.len() == 3 && "svg"@.len() == 3);
    bytes_start_with(data@, seq![0x89u8, 0x50u8, 0x4Eu8, 0x47u8]);
    bytes_start_with(data@, seq![0xFFu8, 0xD8u8, 0xFFu8]);
    bytes_start_with(data@, seq![0x47u8, 0x49u8, 0x46u8, 0x38u8]);
    bytes_start_with(data@, seq![0x42u8, 0x4Du8]);
    bytes_start_with(data@, seq![0x49u8, 0x49u8, 0x2Au8, 0x00u8]);
    bytes_start_with(data@, seq![0x4Du8, 0x4Du8, 0x00u8, 0x2Au8]);
}

proof fn bytes_start_with(data: Seq<u8>, head: Seq<u8>)
    requires
        2 <= head.len() <= 4,
        data.len() >= 4,
    ensures
        crate::model::image::starts(data, head) <==> data[0] == head[0] && data[1] == head[1] && (
        head.len() > 2 ==> data[2] == head[2]) && (head.len() > 3 ==> data[3] == head[3]),
{
    let front = data.take(head.len() as int);
    if data[0] == head[0] && data[1] == head[1] && (head.len() > 2 ==> data[2] == head[2]) && (
    head.len() > 3 ==> data[3] == head[3]) {
        assert(front =~= head);
    }
    if crate::model::image::starts(data, head) {
        assert(front[0] == head[0] && front[1] == head[1]);
        assert(head.len() > 2 ==> front[2] == head[2]);
        assert(head.len() > 3 ==> front[3] == head[3]);
    }
}

/// An image that was entered is found by its id until another is entered under
/// that id, whatever is entered under other ids.
pub proof fn what_was_entered_is_found(
    before: &PartMedia,
    after: &PartMedia,
    id: Seq<char>,
    entry: MediaEntry,
    wanted: &str,
    a: Option<&MediaEntry>,
    b: Option<&MediaEntry>,
)
    requires
        after@ == before@.push((id, entry@)),
        call_ensures(PartMedia::get, (before, wanted), a),
        call_ensures(PartMedia::get, (after, wanted), b),
    ensures
        wanted@ == id ==> (b matches Some(e) && e@ == entry@),
        wanted@ != id ==> {
            &&& a is None <==> b is None
            &&& a matches Some(e) ==> (b matches Some(f) && f@ == e@)
        },
        before@.len() == 0 ==> a is None,
{
    assert(after@.drop_last() =~= before@);
}

proof fn the_images_of_ids(package: PackageContents, part: Part, rels: Seq<Relationship>, id: Seq<char>)
    ensures
        ({
            let found = crate::model::image::image_at(images_of(package, part, rels), id);
            let here = exists|i: int|
                0 <= i < rels.len() && (#[trigger] rels[i]).id@ == id && rels[i].rel_type
                    == RelationshipType::Image && rels[i].target_mode != TargetMode::External;
            &&& !here ==> found is None
            &&& here ==> match crate::pptx::package::target_by_id(part, id) {
                Some(path) => found == media_of(package, path),
                None => found is None,
            }
        }),
    decreases rels.len(),
{
    if rels.len() > 0 {
        let rest = rels.drop_last();
        the_images_of_ids(package, part, rest, id);
        let before = images_of(package, part, rest);
        let after = images_of(package, part, rels);
        let r = rels.last();
        assert(rels[rels.len() - 1] == r);
        assert(forall|i: int| 0 <= i < rest.len() ==> #[trigger] rest[i] == rels[i]);
        if after != before {
            let m = after.last();
            assert(after == before.push(m));
            assert(after.drop_last() =~= before);
        }
        if exists|i: int|
            0 <= i < rest.len() && (#[trigger] rest[i]).id@ == id && rest[i].rel_type
                == RelationshipType::Image && rest[i].target_mode != TargetMode::External {
            let i = choose|i: int|
                0 <= i < rest.len() && (#[trigger] rest[i]).id@ == id && rest[i].rel_type
                    == RelationshipType::Image && rest[i].target_mode != TargetMode::External;
            assert(rels[i].id@ == id);
        } else if exists|i: int|
            0 <= i < rels.len() && (#[trigger] rels[i]).id@ == id && rels[i].rel_type
                == RelationshipType::Image && rels[i].target_mode != TargetMode::External {
            let i = choose|i: int|
                0 <= i < rels.len() && (#[trigger] rels[i]).id@ == id && rels[i].rel_type
                    == RelationshipType::Image && rels[i].target_mode != TargetMode::External;
            if i < rest.len() {
                assert(rest[i].id@ == id);
            }
        }
    }
}

/// The image of an id is what the package holds where the part's relationship of
/// that id leads; an id of anything but an image in the package has none.
pub proof fn an_id_gives_the_image_it_leads_to(
    cache: &mut MediaCache,
    pkg: &PresentationPackage,
    part: &Part,
    table: &PartMedia,
    id: &str,
    path: Option<String>,
    m: Option<&MediaEntry>,
)
    requires
        old(cache).known().len() == 0,
        old(cache).tables().len() == 0,
        call_ensures(MediaCache::part_media, (cache, pkg, part), table),
        call_ensures(PartMedia::get, (table, id), m),
        call_ensures(Part::resolve_rel, (part, id), path),
    ensures
        (forall|i: int|
            0 <= i < part.rels.list@.len() ==> (#[trigger] part.rels.list@[i]).id@ != id@
                || part.rels.list@[i].rel_type != RelationshipType::Image
                || part.rels.list@[i].target_mode is External) ==> m is None,
        (exists|i: int|
            0 <= i < part.rels.list@.len() && (#[trigger] part.rels.list@[i]).id@ == id@
                && part.rels.list@[i].rel_type == RelationshipType::Image
                && part.rels.list@[i].target_mode is Internal) ==> {
            &&& path is None ==> m is None
            &&& path matches Some(s) ==> match pkg.package.part(s@) {
                Some(data) => m matches Some(e) && e@.data == data,
                None => m is None,
            }
        },
{
    reading_once_is_enough(old(cache).known(), pkg.package, *part, part.rels.list@);
    the_images_of_ids(pkg.package, *part, part.rels.list@, id@);
    let built = images_of(pkg.package, *part, part.rels.list@);
    let all = old(cache).tables().push((part.path@, built));
    assert(all[0] == (part.path@, built));
    assert(table@ == built);
}

/// The table of a part is the same whenever it is asked for, and of a part that was
/// not seen there is none.
pub proof fn a_part_keeps_its_table(
    cache: &MediaCache,
    one: Option<&str>,
    a: &PartMedia,
    b: &PartMedia,
)
    requires
        call_ensures(MediaCache::get, (cache, one), a),
        call_ensures(MediaCache::get, (cache, None::<&str>), b),
    ensures
        b@.len() == 0,
        cache.tables().len() == 0 ==> a@.len() == 0,
        one matches Some(p) ==> ((forall|i: int|
            0 <= i < cache.tables().len() ==> (#[trigger] cache.tables()[i]).0 != p@) ==> a@.len()
            == 0),
{
    if let Some(p) = one {
        if forall|i: int| 0 <= i < cache.tables().len() ==> (#[trigger] cache.tables()[i]).0
            != p@ {
            nothing_under_a_name(cache.tables(), p@);
        }
    }
}

proof fn nothing_under_a_name<T>(entries: Seq<(Seq<char>, T)>, name: Seq<char>)
    requires
        forall|i: int| 0 <= i < entries.len() ==> (#[trigger] entries[i]).0 != name,
    ensures
        crate::pptx::media::first_named(entries, name) is None,
    decreases entries.len(),
{
    if entries.len() > 0 {
        let rest = entries.skip(1);
        assert forall|i: int| 0 <= i < rest.len() implies (#[trigger] rest[i]).0 != name by {
            assert(rest[i] == entries[i + 1]);
        }
        nothing_under_a_name(rest, name);
    }
}

/// An image is of the format that its path and its bytes tell.
pub proof fn an_image_has_its_format(
    cache: &mut MediaCache,
    pkg: &PresentationPackage,
    part: &Part,
    table: &PartMedia,
    id: &str,
    m: MediaEntry,
    path: String,
    place: &str,
    data: &[u8],
    format: ImageFormat,
)
    requires
        old(cache).known().len() == 0,
        old(cache).tables().len() == 0,
        call_ensures(MediaCache::part_media, (cache, pkg, part), table),
        call_ensures(PartMedia::get, (table, id), Some(&m)),
        call_ensures(Part::resolve_rel, (part, id), Some(path)),
        place@ == path@,
        pkg.package.part(path@) == Some(data@),
        call_ensures(ImageFormat::detect, (place, data), format),
    ensures
        m.format == format,
        m@.data == data@,
{
    reading_once_is_enough(old(cache).known(), pkg.package, *part, part.rels.list@);
    the_images_of_ids(pkg.package, *part, part.rels.list@, id@);
    let built = images_of(pkg.package, *part, part.rels.list@);
    let all = old(cache).tables().push((part.path@, built));
    assert(all[0] == (part.path@, built));
    assert(table@ == built);
}

proof fn what_comes_before_a_failure(events: Seq<EventView>)
    ensures
        ({
            let first = up_to_failure(events);
            &&& first.len() <= events.len()
            &&& forall|i: int| 0 <= i < first.len() ==> #[trigger] first[i] == events[i]
            &&& forall|i: int| 0 <= i < first.len() - 1 ==> !((#[trigger] first[i]) is Malformed)
            &&& first.len() < events.len() ==> first.len() > 0 && first.last() is Malformed
            &&& events.len() > 0 ==> first.len() > 0
        }),
    decreases events.len(),
{
    let first = up_to_failure(events);
    if events.len() > 0 && !(events[0] is Malformed) {
        let rest = events.skip(1);
        what_comes_before_a_failure(rest);
        let tail = up_to_failure(rest);
        assert(first == seq![events[0]] + tail);
        assert forall|i: int| 0 <= i < first.len() implies #[trigger] first[i] == events[i] by {
            if i > 0 {
                assert(first[i] == tail[i - 1]);
                assert(tail[i - 1] == rest[i - 1]);
            }
        }
        assert forall|i: int| 0 <= i < first.len() - 1 implies !((
        #[trigger] first[i]) is Malformed) by {
            if i > 0 {
                assert(first[i] == tail[i - 1]);
            }
        }
        if first.len() < events.len() {
            assert(first.last() == tail.last());
        }
    }
}

/// A document is read from its start to the first place where it fails, and to its
/// end where it does not.
pub proof fn a_document_is_read_to_its_first_failure(data: &[u8], r: Vec<XmlEvent>, i: int)
    requires
        call_ensures(read_events, (data,), r),
        0 <= i < r@.len(),
    ensures
        r@.len() <= xml_events(data@).len(),
        r@[i]@ == xml_events(data@)[i],
        r@[i]@ is Malformed ==> i == r@.len() - 1,
        r@.len() < xml_events(data@).len() ==> r@[r@.len() - 1]@ is Malformed,
{
    what_comes_before_a_failure(xml_events(data@));
    let views = event_views(r@);
    assert(views.len() == r@.len());
    assert(views[i] == r@[i]@);
    assert(views[r@.len() - 1] == r@[r@.len() - 1]@);
}

/// Of the attributes of one name the first counts.
pub proof fn the_first_raw_attribute_counts(
    a: Option<(Seq<char>, Seq<char>)>,
    rest: Seq<Option<(Seq<char>, Seq<char>)>>,
    key: Seq<char>,
)
    ensures
        first_raw(Seq::empty(), key) is None,
        ({
            let all = seq![a] + rest;
            &&& a matches Some(x) ==> (x.0 == key ==> first_raw(all, key) == Some(x.1))
            &&& a matches Some(x) ==> (x.0 != key ==> first_raw(all, key) == first_raw(rest, key))
            &&& a is None ==> first_raw(all, key) == first_raw(rest, key)
        }),
{
    let all = seq![a] + rest;
    assert(all[0] == a);
    assert(all.skip(1) =~= rest);
}

/// The master of all notes is where the presentation leads to, and what is missing
/// is the presentation itself: where the package leads to, or its usual place.
pub proof fn where_the_presentation_is(
    package: PackageContents,
    r: Result<PresentationPackage, ParseError>,
)
    requires
        call_ensures(walk_package, (package,), r),
    ensures
        r matches Ok(p) ==> (p.notes_master matches Some(n) ==> package.part(n.path@) == Some(
            n.xml@,
        ) && exists|from: Part| #[trigger]
            leads_to(from, RelationshipType::NotesMaster, n.path@) && package.part(from.path@)
                == Some(from.xml@)),
        r matches Err(ParseError::MissingPart(path)) ==> package.part(path@) is None && exists|
            root: Relationships,
        | #[trigger]
            rels_loaded(package, Seq::empty(), root) && ((forall|i: int|
                0 <= i < root.list@.len() ==> (#[trigger] root.list@[i]).rel_type
                    != RelationshipType::OfficeDocument) ==> path@ == "ppt/presentation.xml"@) && (
            forall|i: int| #[trigger]
                is_first(root.list@, RelationshipType::OfficeDocument, i) ==> path@
                    == crate::opc::path::target_path(Seq::empty(), root.list@[i].target@)),
{
    let root = choose|root: Relationships| #[trigger]
        rels_loaded(package, Seq::empty(), root) && crate::pptx::package::walk_outcome(
            package,
            root,
            r,
        );
    assert(rels_loaded(package, Seq::empty(), root));
    let path = crate::pptx::package::presentation_path(root);
    the_first_of_a_type(root.list@, RelationshipType::OfficeDocument);
    let k = where_the_first_is(root.list@, RelationshipType::OfficeDocument);
    assert forall|i: int| #[trigger]
        is_first(root.list@, RelationshipType::OfficeDocument, i) implies path
        == crate::opc::path::target_path(Seq::empty(), root.list@[i].target@) by {
        assert(root.list@[i].rel_type == RelationshipType::OfficeDocument);
        assert(by_type(root.list@, RelationshipType::OfficeDocument) is Some);
        if k < i {
            assert(root.list@[k].rel_type != RelationshipType::OfficeDocument);
        } else if i < k {
            assert(root.list@[i].rel_type != RelationshipType::OfficeDocument);
        }
    }
    if package.part(path) is Some {
        let data = package.part(path)->0;
        assert(crate::pptx::package::part_outcome(package, path, data, r));
        let stated = choose|stated: Result<PresentationXml, ParseError>| #[trigger]
            crate::pptx::package::presentation_outcome(
                up_to_failure(xml_events(data)),
                stated,
            ) && match stated {
                Err(e) => r == Err::<PresentationPackage, ParseError>(e),
                Ok(y) => crate::pptx::package::slides_outcome(package, path, y, r),
            };
        if let Ok(y) = stated {
            let from = choose|presentation: Part| #[trigger]
                crate::pptx::package::is_part(package, path, presentation) && (r matches Ok(p)
                    && crate::pptx::package::is_presentation(package, presentation, y, p));
            assert(crate::pptx::package::is_part(package, path, from));
            let p = r->Ok_0;
            what_a_type_leads_to(package, from, RelationshipType::NotesMaster, p.notes_master);
        }
    }
}

} // verus!

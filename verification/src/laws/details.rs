//! What is decided in passing.
use vstd::prelude::*;

use crate::error::ParseError;
use crate::model::drawing::BodyProperties;
use crate::pptx::cascade::{are_counterparts, MatchRule};
use crate::pptx::geometry::{
    geometry_stats, placement_views, GeometryStats, Placement,
};
use crate::pptx::shape_parse::{
    first_tag, parse_single_object, shows_inherited_shapes, tag_local, FirstTag,
};
use crate::pptx::shapes::{
    Placeholder, PlaceholderKind, Shape, ShapeKind, SlideRect, TableCell, TableCellProperties,
};
use crate::pptx::text::{ListStyle, TextBody, TextParagraphProperties, TextStyles};
use crate::pptx::textcascade::TextStyleClass;
use crate::pptx::upright::{place_all_upright, place_upright};
use crate::render::font_aliases::{claim_views, face_name_key, read_claims, AliasClaim};
use crate::render::font_db::{face_views, Face};
use crate::render::fonts::{
    after_asking, after_families, after_styles, asking_keeps_what_is_kept, four_styles, kept,
    key_of, some_face_answers, FontRegistry, FontStyle, RegistryView, TypefaceEntry,
};
use crate::render::words::{is_same_name, read_words, spelled, words};
use crate::scan::{is_white, starts_with};
use crate::xml::event::{up_to_failure, xml_events, EventView};
use crate::xml::extension::contains_subslice;

verus! {

/// Titles read the style for titles, what stands at the edges of a slide and its
/// picture that for all else, and everything in between that for bodies.
pub proof fn which_style_a_kind_reads(kind: PlaceholderKind, r: TextStyleClass)
    requires
        call_ensures(TextStyleClass::of, (kind,), r),
    ensures
        r is Title <==> kind is Title || kind is CtrTitle,
        r is Other <==> kind is Dt || kind is Ftr || kind is SldNum || kind is SldImg || kind is Hdr,
{
}

/// The levels of a list are counted from zero, and there are nine.
pub proof fn levels_are_counted_from_zero<'a>(
    s: &'a ListStyle,
    level: u8,
    r: Option<&'a TextParagraphProperties>,
)
    requires
        call_ensures(ListStyle::level, (s, level), r),
    ensures
        level >= 9 ==> r is None,
        level < 9 ==> (r is None <==> s.levels@[level as int] is None),
        r matches Some(p) ==> level < 9 && (s.levels@[level as int] matches Some(q) && *p == *q),
{
}

/// A style is empty where no level of it is stated, and three are where all are.
pub proof fn what_is_empty(s: &TextStyles, title: bool, body: bool, other: bool, r: bool, i: int)
    requires
        call_ensures(ListStyle::is_empty, (&s.title,), title),
        call_ensures(ListStyle::is_empty, (&s.body,), body),
        call_ensures(ListStyle::is_empty, (&s.other,), other),
        call_ensures(TextStyles::is_empty, (s,), r),
        0 <= i < 9,
    ensures
        r <==> title && body && other,
        title ==> s.title.levels@[i] is None,
        s.title.levels@[i] is Some ==> !title,
        (forall|k: int| 0 <= k < 9 ==> #[trigger] s.title.levels@[k] is None) ==> title,
{
}

/// Placeholders are counterparts by their numbers, or by what their kinds come to
/// on a master.
pub proof fn who_is_a_counterpart(
    a: &Placeholder,
    b: &Placeholder,
    x: PlaceholderKind,
    y: PlaceholderKind,
    by_number: bool,
    by_kind: bool,
)
    requires
        call_ensures(are_counterparts, (a, b, MatchRule::Idx), by_number),
        call_ensures(are_counterparts, (a, b, MatchRule::CollapsedKind), by_kind),
        call_ensures(PlaceholderKind::collapsed_for_master, (a.kind,), x),
        call_ensures(PlaceholderKind::collapsed_for_master, (b.kind,), y),
    ensures
        by_number <==> a.idx == b.idx,
        by_kind <==> x == y,
{
}

/// A cell is covered where it is merged with a neighbour, in either direction.
pub proof fn which_cells_are_covered(c: &TableCell, r: bool)
    requires
        call_ensures(TableCell::is_absorbed, (c,), r),
    ensures
        c.h_merge ==> r,
        c.v_merge ==> r,
        !c.h_merge && !c.v_merge ==> !r,
{
}

/// The text of a cell stands as that of a box whose insets are the cell's margins,
/// each for its side.
pub proof fn a_cell_is_a_box_for_text(c: &TableCellProperties, r: BodyProperties)
    requires
        call_ensures(TableCellProperties::text_body_properties, (c,), r),
    ensures
        r.left_inset == c.left_margin,
        r.top_inset == c.top_margin,
        r.right_inset == c.right_margin,
        r.bottom_inset == c.bottom_margin,
        r.anchor == c.anchor,
        r.vert == c.vert,
        r.rotation is None,
        r.wrap is None,
        r.vert_overflow is None,
        r.auto_fit is None,
{
}

/// Only a shape without a transform needs one, and only an auto shape has text of
/// its own.
pub proof fn what_a_shape_lacks<'a>(s: &'a Shape, needs: bool, text: Option<&'a TextBody>)
    requires
        call_ensures(Shape::needs_inherited_geometry, (s,), needs),
        call_ensures(Shape::text, (s,), text),
    ensures
        needs <==> s.transform is None,
        !(s.kind is AutoShape) ==> text is None,
        s.kind matches ShapeKind::AutoShape(a) ==> match text {
            Some(t) => a.text == Some(*t),
            None => a.text is None,
        },
{
}

/// Shapes are counted one by one: each as placed or not, as a group or not, and as
/// skewed or not.
pub proof fn shapes_are_counted_one_by_one(
    few: &Vec<Placement>,
    more: &Vec<Placement>,
    p: Placement,
    places: &Vec<Option<SlideRect>>,
    a: GeometryStats,
    b: GeometryStats,
)
    requires
        call_ensures(geometry_stats, (few, places), a),
        call_ensures(geometry_stats, (more, places), b),
        more@ == few@.push(p),
    ensures
        b.positioned == a.positioned + if p.own is Some {
            1int
        } else {
            0int
        },
        b.unpositioned == a.unpositioned + if p.own is None {
            1int
        } else {
            0int
        },
        b.groups == a.groups + if p.is_group {
            1int
        } else {
            0int
        },
        b.groups_without_child_space == a.groups_without_child_space + if p.lacks_child_space {
            1int
        } else {
            0int
        },
        b.groups_with_zero_child_extent == a.groups_with_zero_child_extent
            + if p.zero_child_extent {
            1int
        } else {
            0int
        },
        b.skewed == a.skewed,
        few@.len() == 0 ==> a.positioned == 0 && a.unpositioned == 0 && a.groups == 0
            && a.groups_without_child_space == 0 && a.groups_with_zero_child_extent == 0,
        places@.len() == 0 ==> a.skewed == 0,
{
    let all = placement_views(more@);
    assert(all.drop_last() =~= placement_views(few@));
    assert(all.last() == p@);
}

/// Places are counted as skewed one by one.
pub proof fn skewed_places_are_counted_one_by_one(
    plan: &Vec<Placement>,
    few: &Vec<Option<SlideRect>>,
    more: &Vec<Option<SlideRect>>,
    place: Option<SlideRect>,
    a: GeometryStats,
    b: GeometryStats,
)
    requires
        call_ensures(geometry_stats, (plan, few), a),
        call_ensures(geometry_stats, (plan, more), b),
        more@ == few@.push(place),
    ensures
        place is None ==> b.skewed == a.skewed,
        place matches Some(r) ==> b.skewed == a.skewed + if r.skewed {
            1int
        } else {
            0int
        },
{
    assert(more@.drop_last() =~= few@);
}

/// Where all shapes can be placed, each has the place that it has by itself.
pub proof fn all_are_placed_as_each_is(
    plan: &Vec<Placement>,
    all: Option<Vec<Option<SlideRect>>>,
    i: int,
    one: Option<Option<SlideRect>>,
)
    requires
        call_ensures(place_all_upright, (plan,), all),
        0 <= i < plan@.len(),
        call_ensures(place_upright, (&plan@[i],), one),
    ensures
        one is None ==> all is None,
        all matches Some(v) ==> v@.len() == plan@.len() && one == Some(v@[i]),
{
    let views = placement_views(plan@);
    assert(views[i] == plan@[i]@);
    if let Some(v) = all {
        assert(v@[i] == crate::pptx::upright::place_of(views[i]));
    }
}

/// The faces of a host claim names one by one: each its own, and an upright one of
/// normal width also that of its family with each word for its weight.
pub proof fn faces_claim_names_one_by_one(
    few: &Vec<Face>,
    more: &Vec<Face>,
    f: Face,
    a: Vec<AliasClaim>,
    b: Vec<AliasClaim>,
    key: String,
    name: &str,
)
    requires
        call_ensures(read_claims, (few,), a),
        call_ensures(read_claims, (more,), b),
        more@ == few@.push(f),
        name@ == f.post_script_name@,
        call_ensures(face_name_key, (name,), key),
    ensures
        few@.len() == 0 ==> a@.len() == 0,
        b@.len() >= a@.len(),
        f.families@.len() == 0 ==> b@.len() == a@.len(),
        f.families@.len() > 0 && crate::scan::trimmed(f.post_script_name@).len() > 0 ==> b@.len()
            > a@.len() && b@[a@.len() as int].key@ == key@ && b@[a@.len() as int].family@
            == f.families@[0]@ && b@[a@.len() as int].weight == f.weight,
        f.families@.len() > 0 && crate::scan::trimmed(f.post_script_name@).len() == 0 && !(
        f.slope is Normal) ==> b@.len() == a@.len(),
        f.families@.len() > 0 && f.slope is Normal && f.width == 5 && f.weight == 700 ==> b@.len()
            > a@.len() && b@[b@.len() - 1].family@ == f.families@[0]@ && b@[b@.len() - 1].weight
            == 700 && b@[b@.len() - 1].key@ == crate::render::font_aliases::name_key(
            f.families@[0]@ + seq![' '] + "Bold"@,
        ),
{
    let faces = face_views(more@);
    assert(faces.drop_last() =~= face_views(few@));
    assert(faces.last() == f@);
    let before = claim_views(a@);
    let after = claim_views(b@);
    let added = crate::render::font_aliases::face_claims(f@);
    assert(after == before + added);
    assert(before.len() == a@.len());
    assert(after.len() == b@.len());
    assert(f@.families.len() == f.families@.len());
    if f.families@.len() > 0 {
        assert(f@.families[0] == f.families@[0]@);
        if added.len() > 0 {
            let k = a@.len() as int;
            assert(after[k] == b@[k]@);
            assert(after[k] == added[0]);
            let n = b@.len() - 1;
            assert(after[n] == b@[n]@);
            assert(after[n] == added[added.len() - 1]);
        }
    }
}

/// A word ends where white space begins: a character more goes to the last word,
/// begins one behind white space, or adds nothing where it is white itself.
pub proof fn words_grow_by_characters(
    s: &str,
    longer: &str,
    c: char,
    a: Vec<Vec<char>>,
    b: Vec<Vec<char>>,
)
    requires
        call_ensures(read_words, (s,), a),
        call_ensures(read_words, (longer,), b),
        longer@ == s@.push(c),
    ensures
        s@.len() == 0 ==> a@.len() == 0,
        is_white(c) ==> b@.len() == a@.len(),
        !is_white(c) && (s@.len() == 0 || is_white(s@.last())) ==> b@.len() == a@.len() + 1
            && b@[b@.len() - 1]@ == seq![c],
        !is_white(c) && s@.len() > 0 && !is_white(s@.last()) ==> b@.len() == a@.len() && b@.len() > 0
            && b@[b@.len() - 1]@ == a@[a@.len() - 1]@.push(c),
{
    assert(longer@.drop_last() =~= s@);
    assert(longer@.last() == c);
    let before = spelled(a@);
    let after = spelled(b@);
    assert(before.len() == a@.len() && after.len() == b@.len());
    if s@.len() > 0 && !is_white(s@.last()) {
        a_last_character_has_a_word(s@);
        assert(longer@[longer@.len() - 2] == s@.last());
    }
    if b@.len() > 0 {
        assert(after[b@.len() - 1] == b@[b@.len() - 1]@);
    }
    if a@.len() > 0 {
        assert(before[a@.len() - 1] == a@[a@.len() - 1]@);
    }
    if s@.len() > 0 {
        assert(longer@[longer@.len() - 2] == s@.last());
    }
}

proof fn a_last_character_has_a_word(s: Seq<char>)
    requires
        s.len() > 0,
        !is_white(s.last()),
    ensures
        words(s).len() > 0,
{
    if s.len() > 1 && !is_white(s[s.len() - 2]) {
        let shorter = s.drop_last();
        assert(words(s).len() == words(shorter).drop_last().len() + 1);
    }
}

/// Two names are the same where they differ in capitals at most.
pub proof fn names_may_differ_in_capitals(a: &str, b: &str, r: bool, i: int)
    requires
        call_ensures(is_same_name, (a, b), r),
    ensures
        a@.len() != b@.len() ==> !r,
        a@ == b@ ==> r,
        r && 0 <= i < a@.len() ==> crate::laws::packages::same_letter(a@[i], b@[i]),
{
    assert(crate::opc::path::lower(a@).len() == a@.len());
    assert(crate::opc::path::lower(b@).len() == b@.len());
    if r && 0 <= i < a@.len() {
        assert(crate::opc::path::lower(a@)[i] == crate::opc::path::lower_char(a@[i]));
        assert(crate::opc::path::lower(b@)[i] == crate::opc::path::lower_char(b@[i]));
    }
}

/// A string begins with another where that and something behind it make it up.
pub proof fn what_a_string_begins_with(s: &str, head: &str, rest: Seq<char>, r: bool)
    requires
        call_ensures(starts_with, (s, head), r),
    ensures
        s@ == head@ + rest ==> r,
        r ==> head@.len() <= s@.len() && s@ == head@ + s@.skip(head@.len() as int),
{
    if s@ == head@ + rest {
        assert(s@.take(head@.len() as int) =~= head@);
    }
    if r {
        assert(s@ =~= head@ + s@.skip(head@.len() as int));
    }
}

/// Bytes occur in others where those are made up of something, the bytes, and
/// something more.
pub proof fn where_bytes_occur(
    all: &[u8],
    part: &[u8],
    front: Seq<u8>,
    back: Seq<u8>,
    r: bool,
)
    requires
        call_ensures(contains_subslice, (all, part), r),
    ensures
        all@ == front + part@ + back ==> r,
        all@.len() < part@.len() ==> !r,
{
    if all@ == front + part@ + back {
        let i = front.len() as int;
        assert(all@.subrange(i, i + part@.len()) =~= part@);
    }
}

/// What the host alone answers is a face of it that is of the family, and none
/// that is held in memory.
pub proof fn only_the_host_answers(
    reg: &FontRegistry,
    family: &str,
    style: FontStyle,
    r: Option<TypefaceEntry>,
)
    requires
        call_ensures(FontRegistry::resolve_system_only, (reg, family, style), r),
    ensures
        r matches Some(e) ==> e.origin is System && exists|i: int|
            0 <= i < reg@.faces.len() && (#[trigger] reg@.faces[i]).id == e.id
                && !reg@.faces[i].in_memory && reg@.faces[i].families.contains(family@),
{
    if let Some(e) = r {
        let host = crate::render::font_db::host_faces(reg@.faces);
        let i = choose|i: int|
            0 <= i < host.len() && (#[trigger] host[i]).id == e.id
                && crate::render::font_db::is_of_family(host[i], family@);
        host_faces_are_faces(reg@.faces, i);
    }
}

proof fn host_faces_are_faces(
    faces: Seq<crate::render::font_db::FaceView>,
    i: int,
)
    requires
        0 <= i < crate::render::font_db::host_faces(faces).len(),
    ensures
        exists|k: int|
            0 <= k < faces.len() && #[trigger] faces[k] == crate::render::font_db::host_faces(
                faces,
            )[i] && !faces[k].in_memory,
{
    let host = crate::render::font_db::host_faces(faces);
    faces.lemma_filter_contains_rev(|f: crate::render::font_db::FaceView| !f.in_memory, host[i]);
    let test = |f: crate::render::font_db::FaceView| !f.in_memory;
    broadcast use vstd::seq_lib::group_filter_ensures;

    assert(test(host[i]));
    let k = choose|k: int| 0 <= k < faces.len() && faces[k] == host[i];
    assert(faces[k] == host[i]);
}

proof fn asking_keeps_faces(r: RegistryView, family: Seq<char>, style: FontStyle)
    ensures
        after_asking(r, family, style).faces == r.faces,
        r.faces.len() > 0 ==> kept(
            after_asking(r, family, style).answers,
            key_of(family, style),
        ) is Some,
{
    if r.faces.len() > 0 {
        some_face_answers(r, family, style);
    }
}

/// A family that was asked for ahead of time has an answer kept for each of its
/// four styles: normal, bold, slanted and both.
pub proof fn four_styles_are_kept(
    reg: &mut FontRegistry,
    families: &Vec<String>,
    bold: bool,
    italic: bool,
    style: FontStyle,
)
    requires
        call_ensures(FontRegistry::preload, (reg, families), ()),
        call_ensures(FontStyle::from_flags, (bold, italic), style),
        families@.len() == 1,
        old(reg)@.faces.len() > 0,
    ensures
        kept(final(reg)@.answers, key_of(families@[0]@, style)) is Some,
{
    let f = families@[0]@;
    let names = crate::render::font_db::texts(families@);
    assert(names.len() == 1 && names[0] == f);
    assert(names.last() == f);
    let r0 = old(reg)@;
    assert(names.drop_last() =~= Seq::<Seq<char>>::empty());
    assert(after_families(r0, Seq::<Seq<char>>::empty()) == r0);
    assert(after_families(r0, names) == after_styles(r0, f, four_styles()));
    let all = four_styles();
    let three = all.drop_last();
    let two = three.drop_last();
    let one = two.drop_last();
    assert(one.drop_last() =~= Seq::<FontStyle>::empty());
    let r1 = after_asking(r0, f, one.last());
    let r2 = after_asking(r1, f, two.last());
    let r3 = after_asking(r2, f, three.last());
    let r4 = after_asking(r3, f, all.last());
    reveal_with_fuel(after_styles, 5);
    assert(after_styles(r0, f, all) == r4);
    asking_keeps_faces(r0, f, one.last());
    asking_keeps_faces(r1, f, two.last());
    asking_keeps_faces(r2, f, three.last());
    asking_keeps_faces(r3, f, all.last());
    let k1 = key_of(f, one.last());
    let k2 = key_of(f, two.last());
    let k3 = key_of(f, three.last());
    asking_keeps_what_is_kept(r1, f, two.last(), k1);
    asking_keeps_what_is_kept(r2, f, three.last(), k1);
    asking_keeps_what_is_kept(r3, f, all.last(), k1);
    asking_keeps_what_is_kept(r2, f, three.last(), k2);
    asking_keeps_what_is_kept(r3, f, all.last(), k2);
    asking_keeps_what_is_kept(r3, f, all.last(), k3);
}

/// One object that was cut out is an auto shape, a group or a connector by the
/// name of its first tag; anything else gives none.
pub proof fn an_object_is_told_by_its_first_tag(
    data: &[u8],
    content: Seq<u8>,
    r: Result<Option<Shape>, ParseError>,
)
    requires
        call_ensures(parse_single_object, (data,), r),
        first_tag(up_to_failure(xml_events(data@))) == FirstTag::Holds(content),
    ensures
        ({
            let name = tag_local(content);
            &&& r matches Ok(Some(s)) ==> {
                &&& s.kind is AutoShape ==> name == seq![0x73u8, 0x70u8]
                &&& s.kind is Group ==> name == seq![0x67u8, 0x72u8, 0x70u8, 0x53u8, 0x70u8]
                &&& s.kind is Connector ==> name == seq![0x63u8, 0x78u8, 0x6Eu8, 0x53u8, 0x70u8]
                &&& s.kind is AutoShape || s.kind is Group || s.kind is Connector
                &&& !s.transform_inherited
                &&& s.slide_rect is None
            }
            &&& name != seq![0x73u8, 0x70u8] && name != seq![
                0x67u8,
                0x72u8,
                0x70u8,
                0x53u8,
                0x70u8,
            ] && name != seq![0x63u8, 0x78u8, 0x6Eu8, 0x53u8, 0x70u8] ==> r == Ok::<
                Option<Shape>,
                ParseError,
            >(None)
        }),
{
}

/// A document that ends before any tag shows what it inherits, and so does one
/// whose first tag is its root's and says nothing of it.
pub proof fn what_is_inherited_is_shown_by_default(data: &[u8], r: bool, content: Seq<u8>)
    requires
        call_ensures(shows_inherited_shapes, (data,), r),
    ensures
        up_to_failure(xml_events(data@)).len() == 0 ==> r,
        up_to_failure(xml_events(data@)).len() > 0 && up_to_failure(xml_events(data@))[0]
            is Malformed ==> r,
        up_to_failure(xml_events(data@)).len() > 0 && up_to_failure(xml_events(data@))[0]
            == EventView::Start(content) && !crate::pptx::shape_parse::opens_extension(content)
            ==> exists|tag: crate::xml::token::Tag| #[trigger]
            crate::xml::token::tag_is(content, tag) && (tag.attributes@.len() == 0 ==> r) && (
            tag.attributes@.len() > 0 && (tag.attributes@[0] matches Some(a)
                && crate::xml::name::attr_field(a.key@) == "showMasterSp"@ && (
            a.value matches Some(v) && v@ != "1"@ && v@ != "true"@ && v@ != "on"@)) ==> !r),
{
    let events = up_to_failure(xml_events(data@));
    if events.len() > 0 && events[0] == EventView::Start(content)
        && !crate::pptx::shape_parse::opens_extension(content) {
        let tag = choose|tag: crate::xml::token::Tag| #[trigger]
            crate::xml::token::tag_is(content, tag) && r == crate::pptx::shape_parse::shows(
                crate::pptx::shape_parse::early_attr(tag.attributes@, "showMasterSp"@),
            );
        assert(crate::xml::token::tag_is(content, tag));
    }
}

proof fn the_first_word_of_bytes(name: Seq<u8>, rest: Seq<u8>)
    requires
        forall|i: int|
            0 <= i < name.len() ==> (#[trigger] name[i]) != 0x20 && name[i] != 0x0D && name[i]
                != 0x0A && name[i] != 0x09,
        rest.len() == 0 || rest[0] == 0x20 || rest[0] == 0x0D || rest[0] == 0x0A || rest[0] == 0x09,
    ensures
        crate::pptx::shape_parse::word_len(name + rest) == name.len(),
    decreases name.len(),
{
    let whole = name + rest;
    if name.len() > 0 {
        let q = name.skip(1);
        assert forall|i: int| 0 <= i < q.len() implies (#[trigger] q[i]) != 0x20 && q[i] != 0x0D
            && q[i] != 0x0A && q[i] != 0x09 by {
            assert(name[i + 1] == q[i]);
        }
        the_first_word_of_bytes(q, rest);
        assert(whole[0] == name[0]);
        assert(whole.skip(1) =~= q + rest);
    } else if rest.len() > 0 {
        assert(whole[0] == rest[0]);
    }
}

/// The local name in a tag is its first word, behind the prefix where it has one.
pub proof fn a_tag_is_called_by_its_local_name(
    prefix: Seq<u8>,
    name: Seq<u8>,
    rest: Seq<u8>,
)
    requires
        forall|i: int|
            0 <= i < name.len() ==> (#[trigger] name[i]) != 0x20 && name[i] != 0x0D && name[i]
                != 0x0A && name[i] != 0x09,
        forall|i: int|
            0 <= i < prefix.len() ==> (#[trigger] prefix[i]) != 0x20 && prefix[i] != 0x0D
                && prefix[i] != 0x0A && prefix[i] != 0x09 && prefix[i] != 0x3A,
        rest.len() == 0 || rest[0] == 0x20 || rest[0] == 0x0D || rest[0] == 0x0A || rest[0] == 0x09,
    ensures
        tag_local(prefix + seq![0x3Au8] + name + rest) == name,
        !name.contains(0x3Au8) ==> tag_local(name + rest) == name,
{
    let word = prefix + seq![0x3Au8] + name;
    assert forall|i: int| 0 <= i < word.len() implies (#[trigger] word[i]) != 0x20 && word[i]
        != 0x0D && word[i] != 0x0A && word[i] != 0x09 by {
        if i < prefix.len() {
            assert(word[i] == prefix[i]);
        } else if i > prefix.len() {
            assert(word[i] == name[i - prefix.len() - 1]);
        }
    }
    the_first_word_of_bytes(word, rest);
    the_first_word_of_bytes(name, rest);
    assert((word + rest).take(word.len() as int) =~= word);
    assert((name + rest).take(name.len() as int) =~= name);
    assert(word[prefix.len() as int] == 0x3A);
    assert(word.contains(0x3Au8));
    word.index_of_first_ensures(0x3Au8);
    let k = word.index_of_first(0x3Au8)->0;
    if k < prefix.len() {
        assert(word[k] == prefix[k]);
    }
    assert(k == prefix.len());
    assert(word.skip(prefix.len() as int + 1) =~= name);
}

/// What stands before the first tag of a document is passed over, but not a failure.
pub proof fn the_first_tag_is_looked_for(e: EventView, rest: Seq<EventView>)
    ensures
        first_tag(Seq::empty()) is Ends,
        e matches EventView::Start(c) ==> first_tag(seq![e] + rest) == FirstTag::Holds(c),
        e matches EventView::Empty(c) ==> first_tag(seq![e] + rest) == FirstTag::Holds(c),
        e is Malformed ==> first_tag(seq![e] + rest) is Fails,
        e is Text || e is Other || e is Reference || e is End ==> first_tag(seq![e] + rest)
            == first_tag(rest),
{
    let all = seq![e] + rest;
    assert(all[0] == e);
    assert(all.skip(1) =~= rest);
}

} // verus!

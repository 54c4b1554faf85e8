//! The parts of a presentation: its slides in order, each with the parts that
//! it inherits from.
//!
//! Nothing here looks into a shape. A relationship's id means something only
//! in the part that declares it, so every part comes with its relationships.
use vstd::prelude::*;
use vstd::utf8::{decode_utf8, encode_utf8, valid_utf8};

use crate::error::ParseError;
use crate::opc::archive::{all_readable, archive_entries, readable_entries};
use crate::opc::contents::{with_paths, PackageContents};
use crate::opc::path::{
    directory, part_directory, rels_path, rels_path_for, resolve_target, target_path,
};
use crate::opc::relationships::{
    by_id, by_type, relationships_outcome, RelationshipType, Relationships, TargetMode,
};
use crate::scan::{chars_of, decimal, read_i64, str_eq, within};
use crate::xml::event::{
    event_views, read_events, up_to_failure, xml_events, EventView, XmlEvent,
};
use crate::xml::extension::part_root;
use crate::xml::name::{local_name, local_part};
use crate::xml::token::{
    a_name_lies_in_its_tag, raw_attributes, read_attributes, read_tag_name, tag_attributes, tag_name,
};
use crate::xml::tree::Element;

verus! {

/// What holds of all slides of a presentation.
#[derive(Debug, Clone, Copy, PartialEq, Eq)]
pub struct PresentationInfo {
    /// The width of a slide in EMU.
    pub slide_width_emu: i64,
    /// The height of a slide in EMU.
    pub slide_height_emu: i64,
    pub notes_width_emu: Option<i64>,
    pub notes_height_emu: Option<i64>,
}

/// A part, with the relationships that it declares.
#[derive(Debug)]
pub struct Part {
    pub path: String,
    pub xml: Vec<u8>,
    pub rels: Relationships,
}

/// A slide with the parts that it inherits from, as far as they can be
/// reached.
#[derive(Debug)]
pub struct SlideParts {
    pub slide: Part,
    pub layout: Option<Part>,
    pub master: Option<Part>,
    pub notes: Option<Part>,
}

/// A presentation, with its parts not yet looked into.
pub struct PresentationPackage {
    pub info: PresentationInfo,
    /// The slides in the order of the presentation.
    pub slides: Vec<SlideParts>,
    /// The theme of the first master.
    pub theme: Option<Vec<u8>>,
    /// The master of every notes slide.
    pub notes_master: Option<Part>,
    pub package: PackageContents,
}

/// What `String::from_utf8_lossy` makes of bytes that need not be UTF-8.
pub uninterp spec fn lossy(bytes: Seq<u8>) -> Seq<char>;

/// `String::from_utf8_lossy`: the characters that the bytes encode, with a
/// replacement character where they encode none.
#[verifier::external_body]
fn lossy_string(bytes: &[u8]) -> (r: String)
    ensures
        r@ == lossy(bytes@),
        valid_utf8(bytes@) ==> r@ == decode_utf8(bytes@),
{
    String::from_utf8_lossy(bytes).into_owned()
}

/// The value of the first well-formed attribute of a qualified name, as it
/// stands.
pub open spec fn first_raw(
    raw: Seq<Option<(Seq<char>, Seq<char>)>>,
    key: Seq<char>,
) -> Option<Seq<char>>
    decreases raw.len(),
{
    if raw.len() == 0 {
        None
    } else {
        match raw[0] {
            Some(a) => if a.0 == key {
                Some(a.1)
            } else {
                first_raw(raw.skip(1), key)
            },
            None => first_raw(raw.skip(1), key),
        }
    }
}

/// The attributes in a tag.
pub open spec fn raw_in(content: Seq<u8>) -> Seq<Option<(Seq<char>, Seq<char>)>> {
    let text = lossy(content);
    tag_attributes(text, encode_utf8(tag_name(text)).len(), true)
}

/// The local name in a tag.
pub open spec fn name_in(content: Seq<u8>) -> Seq<char> {
    local_part(tag_name(lossy(content)))
}

/// The value of an attribute in a tag, by its qualified name.
fn qualified_attr(raw: &Vec<Option<(String, String)>>, want: &str) -> (r: Option<String>)
    ensures
        (match r {
            Some(s) => Some(s@),
            None => None,
        }) == first_raw(raw_attributes(raw@), want@),
{
    let ghost all = raw_attributes(raw@);
    let mut i: usize = 0;
    assert(all.skip(0) =~= all);
    while i < raw.len()
        invariant
            all == raw_attributes(raw@),
            i <= all.len(),
            first_raw(all, want@) == first_raw(all.skip(i as int), want@),
        decreases all.len() - i,
    {
        assert(all.skip(i as int)[0] == all[i as int]);
        assert(all.skip(i as int).skip(1) =~= all.skip(i + 1));
        match &raw[i] {
            Some(a) => {
                if str_eq(a.0.as_str(), want) {
                    return Some(a.1.clone());
                }
            },
            None => {},
        }
        i = i + 1;
    }
    None
}

/// The number that text denotes.
pub open spec fn number(text: Option<Seq<char>>) -> Option<i64> {
    match text {
        Some(s) => match within(decimal(s, true), i64::MIN as int, i64::MAX as int) {
            Some(v) => Some(v as i64),
            None => None,
        },
        None => None,
    }
}

/// The size that attributes state: both sides, or none.
pub open spec fn size_in(raw: Seq<Option<(Seq<char>, Seq<char>)>>) -> Option<(i64, i64)> {
    match (number(first_raw(raw, "cx"@)), number(first_raw(raw, "cy"@))) {
        (Some(cx), Some(cy)) => Some((cx, cy)),
        _ => None,
    }
}

/// A number, where an attribute states one.
fn number_attr(raw: &Vec<Option<(String, String)>>, want: &str) -> (r: Option<i64>)
    ensures
        r == number(first_raw(raw_attributes(raw@), want@)),
{
    match qualified_attr(raw, want) {
        Some(s) => {
            let all: Vec<char> = chars_of(s.as_str());
            read_i64(&all)
        },
        None => None,
    }
}

/// The size that attributes state.
fn size_attrs(raw: &Vec<Option<(String, String)>>) -> (r: Option<(i64, i64)>)
    ensures
        r == size_in(raw_attributes(raw@)),
{
    match (number_attr(raw, "cx"), number_attr(raw, "cy")) {
        (Some(cx), Some(cy)) => Some((cx, cy)),
        _ => None,
    }
}

/// What a presentation part states.
#[derive(Debug)]
pub struct PresentationXml {
    /// The relationship ids of the slides, in order.
    pub slide_rel_ids: Vec<String>,
    pub slide_size: Option<(i64, i64)>,
    pub notes_size: Option<(i64, i64)>,
}

/// What the events of a presentation part have stated so far.
pub struct Stated {
    pub ids: Seq<Seq<char>>,
    /// Whether the list of slides is open.
    pub inside: bool,
    pub slide_size: Option<(i64, i64)>,
    pub notes_size: Option<(i64, i64)>,
}

/// What is stated behind a tag.
pub open spec fn after_tag(s: Stated, content: Seq<u8>, opens: bool) -> Stated {
    let name = name_in(content);
    if name == "sldIdLst"@ {
        Stated { inside: opens, ..s }
    } else if name == "sldId"@ {
        if s.inside {
            match first_raw(raw_in(content), "r:id"@) {
                Some(id) => Stated { ids: s.ids.push(id), ..s },
                None => s,
            }
        } else {
            s
        }
    } else if name == "sldSz"@ {
        Stated { slide_size: size_in(raw_in(content)), ..s }
    } else if name == "notesSz"@ {
        Stated { notes_size: size_in(raw_in(content)), ..s }
    } else {
        s
    }
}

/// What is stated behind an event.
pub open spec fn after_event(s: Stated, event: EventView) -> Stated {
    match event {
        EventView::Start(c) => after_tag(s, c, true),
        EventView::Empty(c) => after_tag(s, c, false),
        EventView::End(n) => if local_part(lossy(n)) == "sldIdLst"@ {
            Stated { inside: false, ..s }
        } else {
            s
        },
        _ => s,
    }
}

/// What the events of a presentation part state. Only what stands in the list
/// of slides is a slide, and only a qualified `r:id` leads to it.
pub open spec fn stated_by(events: Seq<EventView>) -> Stated
    decreases events.len(),
{
    if events.len() == 0 {
        Stated { ids: Seq::empty(), inside: false, slide_size: None, notes_size: None }
    } else {
        after_event(stated_by(events.drop_last()), events.last())
    }
}

/// What strings hold.
pub open spec fn texts(strings: Seq<String>) -> Seq<Seq<char>> {
    strings.map_values(|s: String| s@)
}

/// Whether what was read is what events state.
pub open spec fn is_stated(s: Stated, p: PresentationXml, inside: bool) -> bool {
    &&& texts(p.slide_rel_ids@) == s.ids
    &&& p.slide_size == s.slide_size
    &&& p.notes_size == s.notes_size
    &&& inside == s.inside
}

/// Whether a result is what the events of a presentation part give.
pub open spec fn presentation_outcome(
    events: Seq<EventView>,
    r: Result<PresentationXml, ParseError>,
) -> bool {
    if events.len() > 0 && events.last() is Malformed {
        r == Err::<PresentationXml, ParseError>(ParseError::Malformed)
    } else {
        r matches Ok(p) && is_stated(stated_by(events), p, stated_by(events).inside)
    }
}

/// Takes in one tag.
fn take_tag(
    p: &mut PresentationXml,
    inside: &mut bool,
    content: &Vec<u8>,
    opens: bool,
    Ghost(s): Ghost<Stated>,
)
    requires
        is_stated(s, *old(p), *old(inside)),
    ensures
        is_stated(after_tag(s, content@, opens), *final(p), *final(inside)),
{
    let text: String = lossy_string(content.as_slice());
    let qualified: String = read_tag_name(text.as_str());
    let name: String = local_name(qualified.as_str());
    let behind: usize = qualified.as_str().as_bytes().len();
    proof {
        a_name_lies_in_its_tag(text@);
    }
    let raw: Vec<Option<(String, String)>> = read_attributes(text.as_str(), behind, true);
    assert(raw_attributes(raw@) == raw_in(content@));
    if str_eq(name.as_str(), "sldIdLst") {
        *inside = opens;
    } else if str_eq(name.as_str(), "sldId") {
        if *inside {
            match qualified_attr(&raw, "r:id") {
                Some(id) => {
                    let ghost before = p.slide_rel_ids@;
                    let ghost shown = id@;
                    p.slide_rel_ids.push(id);
                    assert(texts(p.slide_rel_ids@) =~= texts(before).push(shown));
                },
                None => {},
            }
        }
    } else if str_eq(name.as_str(), "sldSz") {
        p.slide_size = size_attrs(&raw);
    } else if str_eq(name.as_str(), "notesSz") {
        p.notes_size = size_attrs(&raw);
    }
}

/// What the events of a presentation part state.
pub fn presentation_from(events: &Vec<XmlEvent>) -> (r: Result<PresentationXml, ParseError>)
    ensures
        presentation_outcome(event_views(events@), r),
{
    let ghost all = event_views(events@);
    let n: usize = events.len();
    if n > 0 && matches!(&events[n - 1], XmlEvent::Malformed) {
        assert(all.last() == events@[n - 1]@);
        return Err(ParseError::Malformed);
    }
    proof {
        if n > 0 {
            assert(all.last() == events@[n - 1]@);
        }
    }
    let mut p: PresentationXml = PresentationXml {
        slide_rel_ids: Vec::new(),
        slide_size: None,
        notes_size: None,
    };
    let mut inside: bool = false;
    assert(texts(p.slide_rel_ids@) =~= Seq::<Seq<char>>::empty());
    let mut i: usize = 0;
    while i < n
        invariant
            all == event_views(events@),
            n == events@.len(),
            i <= n,
            is_stated(stated_by(all.take(i as int)), p, inside),
        decreases n - i,
    {
        assert(all.take(i + 1).drop_last() =~= all.take(i as int));
        assert(all.take(i + 1).last() == events@[i as int]@);
        let ghost so_far = stated_by(all.take(i as int));
        match &events[i] {
            XmlEvent::Start(c) => {
                take_tag(&mut p, &mut inside, c, true, Ghost(so_far));
            },
            XmlEvent::Empty(c) => {
                take_tag(&mut p, &mut inside, c, false, Ghost(so_far));
            },
            XmlEvent::End(name) => {
                let text: String = lossy_string(name.as_slice());
                let local: String = local_name(text.as_str());
                if str_eq(local.as_str(), "sldIdLst") {
                    inside = false;
                }
            },
            _ => {},
        }
        i = i + 1;
    }
    assert(all.take(i as int) =~= all);
    Ok(p)
}

/// Reads a presentation part.
pub fn parse_presentation(data: &[u8]) -> (r: Result<PresentationXml, ParseError>)
    ensures
        presentation_outcome(up_to_failure(xml_events(data@)), r),
{
    let events: Vec<XmlEvent> = read_events(data);
    presentation_from(&events)
}

/// Whether relationships are those that a part states.
pub open spec fn rels_stated(data: Seq<u8>, rels: Relationships) -> bool {
    exists|root: Option<Element>| #[trigger]
        part_root(data, root) && relationships_outcome(root, rels.list@)
}

/// Whether relationships are those that the package states for a part.
pub open spec fn rels_loaded(package: PackageContents, path: Seq<char>, rels: Relationships) -> bool {
    match package.part(rels_path(path)) {
        Some(data) => rels_stated(data, rels),
        None => rels.list@.len() == 0,
    }
}

/// Whether a part is the one at a path, with its relationships.
pub open spec fn is_part(package: PackageContents, path: Seq<char>, p: Part) -> bool {
    &&& p.path@ == path
    &&& package.part(path) == Some(p.xml@)
    &&& rels_loaded(package, path, p.rels)
}

/// Whether a part is the one at a path, or is missing because there is none.
pub open spec fn is_loaded(package: PackageContents, path: Seq<char>, p: Option<Part>) -> bool {
    match p {
        Some(x) => is_part(package, path, x),
        None => package.part(path) is None,
    }
}

/// The path of the part that a relationship of a part leads to, by its id. A
/// target outside the package has none.
pub open spec fn target_by_id(p: Part, id: Seq<char>) -> Option<Seq<char>> {
    match by_id(p.rels.list@, id) {
        Some(r) => if r.target_mode == TargetMode::External {
            None
        } else {
            Some(target_path(directory(p.path@), r.target@))
        },
        None => None,
    }
}

/// The path of the part that a relationship of a part leads to, by its type.
pub open spec fn target_by_type(p: Part, ty: RelationshipType) -> Option<Seq<char>> {
    match by_type(p.rels.list@, ty) {
        Some(r) => Some(target_path(directory(p.path@), r.target@)),
        None => None,
    }
}

/// Whether a part is the one that a part is related to by a type.
pub open spec fn is_related(
    package: PackageContents,
    from: Part,
    ty: RelationshipType,
    p: Option<Part>,
) -> bool {
    match target_by_type(from, ty) {
        Some(path) => is_loaded(package, path, p),
        None => p is None,
    }
}

/// Whether a slide and the parts around it are those of a path. The master is
/// the layout's.
pub open spec fn is_slide(package: PackageContents, path: Seq<char>, s: SlideParts) -> bool {
    &&& is_part(package, path, s.slide)
    &&& is_related(package, s.slide, RelationshipType::SlideLayout, s.layout)
    &&& match s.layout {
        Some(l) => is_related(package, l, RelationshipType::SlideMaster, s.master),
        None => s.master is None,
    }
    &&& is_related(package, s.slide, RelationshipType::NotesSlide, s.notes)
}

/// The paths of the slides that relationship ids lead to, in order. An id that
/// leads to no part is passed over.
pub open spec fn slide_paths(
    package: PackageContents,
    presentation: Part,
    ids: Seq<Seq<char>>,
) -> Seq<Seq<char>>
    decreases ids.len(),
{
    if ids.len() == 0 {
        Seq::empty()
    } else {
        let before = slide_paths(package, presentation, ids.drop_last());
        match target_by_id(presentation, ids.last()) {
            Some(path) => if package.part(path) is Some {
                before.push(path)
            } else {
                before
            },
            None => before,
        }
    }
}

/// Whether slides are those of paths, in order.
pub open spec fn are_slides(
    package: PackageContents,
    paths: Seq<Seq<char>>,
    slides: Seq<SlideParts>,
) -> bool {
    &&& slides.len() == paths.len()
    &&& forall|i: int| 0 <= i < slides.len() ==> is_slide(package, paths[i], #[trigger] slides[i])
}

/// The first master among slides.
pub open spec fn first_master(slides: Seq<SlideParts>) -> Option<Part>
    decreases slides.len(),
{
    if slides.len() == 0 {
        None
    } else {
        match slides[0].master {
            Some(m) => Some(m),
            None => first_master(slides.skip(1)),
        }
    }
}

/// The theme of the first master among slides.
pub open spec fn theme_of(package: PackageContents, slides: Seq<SlideParts>) -> Option<Seq<u8>> {
    match first_master(slides) {
        Some(m) => match target_by_type(m, RelationshipType::Theme) {
            Some(path) => package.part(path),
            None => None,
        },
        None => None,
    }
}

/// The path of the presentation part: where the package's own relationships
/// lead, or the usual one.
pub open spec fn presentation_path(root: Relationships) -> Seq<char> {
    match by_type(root.list@, RelationshipType::OfficeDocument) {
        Some(r) => target_path(Seq::empty(), r.target@),
        None => "ppt/presentation.xml"@,
    }
}

/// Sizes, with the usual slide where none is stated.
pub open spec fn info_of(p: PresentationXml) -> PresentationInfo {
    PresentationInfo {
        slide_width_emu: match p.slide_size {
            Some(s) => s.0,
            None => 9_144_000,
        },
        slide_height_emu: match p.slide_size {
            Some(s) => s.1,
            None => 6_858_000,
        },
        notes_width_emu: match p.notes_size {
            Some(s) => Some(s.0),
            None => None,
        },
        notes_height_emu: match p.notes_size {
            Some(s) => Some(s.1),
            None => None,
        },
    }
}

/// Whether a presentation is what the package's parts give, by the package's
/// own relationships, its presentation part and what that part states.
pub open spec fn is_presentation(
    package: PackageContents,
    presentation: Part,
    stated: PresentationXml,
    r: PresentationPackage,
) -> bool {
    &&& r.package == package
    &&& r.info == info_of(stated)
    &&& are_slides(
        package,
        slide_paths(package, presentation, texts(stated.slide_rel_ids@)),
        r.slides@,
    )
    &&& (match r.theme {
        Some(t) => Some(t@),
        None => None,
    }) == theme_of(package, r.slides@)
    &&& is_related(package, presentation, RelationshipType::NotesMaster, r.notes_master)
}

/// Whether a result is what a package gives, by the package's own
/// relationships.
pub open spec fn walk_outcome(
    package: PackageContents,
    root: Relationships,
    r: Result<PresentationPackage, ParseError>,
) -> bool {
    let path = presentation_path(root);
    match package.part(path) {
        None => r matches Err(ParseError::MissingPart(p)) && p@ == path,
        Some(data) => part_outcome(package, path, data, r),
    }
}

/// Whether a result is what a presentation part gives.
pub open spec fn part_outcome(
    package: PackageContents,
    path: Seq<char>,
    data: Seq<u8>,
    r: Result<PresentationPackage, ParseError>,
) -> bool {
    exists|stated: Result<PresentationXml, ParseError>| #[trigger]
        presentation_outcome(up_to_failure(xml_events(data)), stated) && match stated {
            Err(e) => r == Err::<PresentationPackage, ParseError>(e),
            Ok(x) => slides_outcome(package, path, x, r),
        }
}

/// Whether a result is what a presentation part and what it states give.
pub open spec fn slides_outcome(
    package: PackageContents,
    path: Seq<char>,
    stated: PresentationXml,
    r: Result<PresentationPackage, ParseError>,
) -> bool {
    exists|presentation: Part| #[trigger]
        is_part(package, path, presentation) && (r matches Ok(p) && is_presentation(
            package,
            presentation,
            stated,
            p,
        ))
}

/// A copy of bytes.
pub(crate) fn copy_bytes(bytes: &Vec<u8>) -> (r: Vec<u8>)
    ensures
        r@ == bytes@,
{
    let mut out: Vec<u8> = Vec::new();
    let mut i: usize = 0;
    while i < bytes.len()
        invariant
            i <= bytes@.len(),
            out@ == bytes@.take(i as int),
        decreases bytes@.len() - i,
    {
        out.push(bytes[i]);
        assert(out@ =~= bytes@.take(i + 1));
        i = i + 1;
    }
    assert(bytes@.take(i as int) =~= bytes@);
    out
}

/// The relationships of a part. A part without any is as usual as one whose
/// relationships cannot be read is rare: both have none.
fn load_rels(package: &PackageContents, path: &str) -> (r: Relationships)
    ensures
        rels_loaded(*package, path@, r),
{
    let beside: String = rels_path_for(path);
    match package.get_part(beside.as_str()) {
        Some(data) => {
            let rels: Relationships = Relationships::parse(data.as_slice());
            assert(rels_stated(data@, rels));
            rels
        },
        None => Relationships { list: Vec::new() },
    }
}

/// The part at a path, with its relationships.
fn load_part(package: &PackageContents, path: &str) -> (r: Option<Part>)
    ensures
        is_loaded(*package, path@, r),
{
    match package.get_part(path) {
        Some(data) => {
            let xml: Vec<u8> = copy_bytes(data);
            let rels: Relationships = load_rels(package, path);
            Some(Part { path: path.to_owned(), xml, rels })
        },
        None => None,
    }
}

impl Part {
    /// The path of the part that a relationship of this part leads to, by its
    /// id. A target outside the package has none.
    pub fn resolve_rel(&self, rel_id: &str) -> (r: Option<String>)
        ensures
            (match r {
                Some(s) => Some(s@),
                None => None,
            }) == target_by_id(*self, rel_id@),
    {
        match self.rels.find_by_id(rel_id) {
            Some(rel) => {
                if rel.target_mode == TargetMode::External {
                    None
                } else {
                    let dir: String = part_directory(self.path.as_str());
                    Some(resolve_target(dir.as_str(), rel.target.as_str()))
                }
            },
            None => None,
        }
    }

    /// The path of the part that a relationship of this part leads to, by its
    /// type.
    fn resolve_rel_of_type(&self, ty: RelationshipType) -> (r: Option<String>)
        ensures
            (match r {
                Some(s) => Some(s@),
                None => None,
            }) == target_by_type(*self, ty),
    {
        match self.rels.find_by_type(ty) {
            Some(rel) => {
                let dir: String = part_directory(self.path.as_str());
                Some(resolve_target(dir.as_str(), rel.target.as_str()))
            },
            None => None,
        }
    }
}

/// The part that a part is related to by a type.
fn load_related(package: &PackageContents, from: &Part, ty: RelationshipType) -> (r: Option<Part>)
    ensures
        is_related(*package, *from, ty, r),
{
    match from.resolve_rel_of_type(ty) {
        Some(path) => load_part(package, path.as_str()),
        None => None,
    }
}

/// The slide at a path with the parts around it.
fn load_slide(package: &PackageContents, path: &str) -> (r: Option<SlideParts>)
    ensures
        r is Some <==> package.part(path@) is Some,
        r matches Some(s) ==> is_slide(*package, path@, s),
{
    match load_part(package, path) {
        Some(slide) => {
            let layout: Option<Part> = load_related(
                package,
                &slide,
                RelationshipType::SlideLayout,
            );
            let master: Option<Part> = match &layout {
                Some(l) => load_related(package, l, RelationshipType::SlideMaster),
                None => None,
            };
            let notes: Option<Part> = load_related(package, &slide, RelationshipType::NotesSlide);
            Some(SlideParts { slide, layout, master, notes })
        },
        None => None,
    }
}

/// The slides that relationship ids of a presentation lead to.
fn load_slides(package: &PackageContents, presentation: &Part, ids: &Vec<String>) -> (r: Vec<
    SlideParts,
>)
    ensures
        are_slides(*package, slide_paths(*package, *presentation, texts(ids@)), r@),
{
    let ghost all = texts(ids@);
    let mut slides: Vec<SlideParts> = Vec::new();
    let mut i: usize = 0;
    while i < ids.len()
        invariant
            all == texts(ids@),
            i <= ids@.len(),
            are_slides(*package, slide_paths(*package, *presentation, all.take(i as int)), slides@),
        decreases ids@.len() - i,
    {
        assert(all.take(i + 1).drop_last() =~= all.take(i as int));
        assert(all.take(i + 1).last() == ids@[i as int]@);
        let ghost so_far = slide_paths(*package, *presentation, all.take(i as int));
        match presentation.resolve_rel(ids[i].as_str()) {
            Some(path) => {
                match load_slide(package, path.as_str()) {
                    Some(slide) => {
                        let ghost paths = so_far.push(path@);
                        let ghost before = slides@;
                        slides.push(slide);
                        assert forall|k: int| 0 <= k < slides@.len() implies is_slide(
                            *package,
                            paths[k],
                            #[trigger] slides@[k],
                        ) by {
                            if k < before.len() {
                                assert(is_slide(*package, so_far[k], before[k]));
                            }
                        }
                    },
                    None => {},
                }
            },
            None => {},
        }
        i = i + 1;
    }
    assert(all.take(i as int) =~= all);
    slides
}

/// The theme of the first master among slides.
fn load_theme(package: &PackageContents, slides: &Vec<SlideParts>) -> (r: Option<Vec<u8>>)
    ensures
        (match r {
            Some(t) => Some(t@),
            None => None,
        }) == theme_of(*package, slides@),
{
    let ghost all = slides@;
    let mut i: usize = 0;
    assert(all.skip(0) =~= all);
    while i < slides.len()
        invariant
            all == slides@,
            i <= all.len(),
            first_master(all) == first_master(all.skip(i as int)),
        decreases all.len() - i,
    {
        assert(all.skip(i as int)[0] == all[i as int]);
        assert(all.skip(i as int).skip(1) =~= all.skip(i + 1));
        match &slides[i].master {
            Some(m) => {
                return match m.resolve_rel_of_type(RelationshipType::Theme) {
                    Some(path) => match package.get_part(path.as_str()) {
                        Some(data) => Some(copy_bytes(data)),
                        None => None,
                    },
                    None => None,
                };
            },
            None => {},
        }
        i = i + 1;
    }
    None
}

/// Walks the parts of a package from its presentation part.
pub fn walk_package(package: PackageContents) -> (r: Result<PresentationPackage, ParseError>)
    ensures
        exists|root: Relationships| #[trigger]
            rels_loaded(package, Seq::empty(), root) && walk_outcome(package, root, r),
{
    let root: Relationships = load_rels(&package, "");
    proof {
        reveal_strlit("");
        assert(""@ =~= Seq::<char>::empty());
        assert(rels_loaded(package, Seq::empty(), root));
    }
    let path: String = match root.find_by_type(RelationshipType::OfficeDocument) {
        Some(r) => resolve_target("", r.target.as_str()),
        None => String::from_str("ppt/presentation.xml"),
    };
    assert(path@ == presentation_path(root));
    let presentation: Part = match load_part(&package, path.as_str()) {
        Some(p) => p,
        None => {
            return Err(ParseError::MissingPart(path));
        },
    };
    assert(is_part(package, path@, presentation));
    let parsed: Result<PresentationXml, ParseError> = parse_presentation(
        presentation.xml.as_slice(),
    );
    let ghost given = parsed;
    assert(package.part(path@) == Some(presentation.xml@));
    assert(presentation_outcome(up_to_failure(xml_events(presentation.xml@)), given));
    let stated: PresentationXml = match parsed {
        Ok(x) => x,
        Err(e) => {
            assert(part_outcome(package, path@, presentation.xml@, Err(e)));
            return Err(e);
        },
    };
    let (slide_width_emu, slide_height_emu): (i64, i64) = match stated.slide_size {
        Some(s) => s,
        None => (9_144_000, 6_858_000),
    };
    let (notes_width_emu, notes_height_emu): (Option<i64>, Option<i64>) = match stated.notes_size {
        Some(s) => (Some(s.0), Some(s.1)),
        None => (None, None),
    };
    let info: PresentationInfo = PresentationInfo {
        slide_width_emu,
        slide_height_emu,
        notes_width_emu,
        notes_height_emu,
    };
    let notes_master: Option<Part> = load_related(
        &package,
        &presentation,
        RelationshipType::NotesMaster,
    );
    let slides: Vec<SlideParts> = load_slides(&package, &presentation, &stated.slide_rel_ids);
    let theme: Option<Vec<u8>> = load_theme(&package, &slides);
    let out: PresentationPackage = PresentationPackage {
        info,
        slides,
        theme,
        notes_master,
        package,
    };
    proof {
        assert(is_presentation(out.package, presentation, stated, out));
        assert(given == Ok::<PresentationXml, ParseError>(stated));
        assert(slides_outcome(out.package, path@, stated, Ok(out)));
        assert(part_outcome(out.package, path@, presentation.xml@, Ok(out)));
    }
    Ok(out)
}

/// Reads a presentation: its slides in order, each with the parts that it
/// inherits from.
pub fn walk(data: &[u8]) -> (r: Result<PresentationPackage, ParseError>)
    ensures
        match archive_entries(data@) {
            Some(all) => if all_readable(all) {
                exists|package: PackageContents, root: Relationships|
                    package@ == with_paths(readable_entries(all)) && #[trigger] rels_loaded(
                        package,
                        Seq::empty(),
                        root,
                    ) && walk_outcome(package, root, r)
            } else {
                r == Err::<PresentationPackage, ParseError>(ParseError::Container)
            },
            None => r == Err::<PresentationPackage, ParseError>(ParseError::Container),
        },
{
    match PackageContents::from_bytes(data) {
        Ok(package) => walk_package(package),
        Err(e) => Err(e),
    }
}

} // verus!

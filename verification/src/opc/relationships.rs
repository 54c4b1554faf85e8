//! The relationships that a part declares.
use vstd::prelude::*;

use crate::dml::shape::{read_text, text_or_empty};
use crate::scan::str_eq;
use crate::xml::extension::{from_xml, part_root};
use crate::xml::query::{attr, attribute, children, children_named};
use crate::xml::schema::{check_element, conforms};
use crate::xml::tree::Element;

verus! {

/// What a relationship leads to.
#[derive(Debug, Clone, Copy, PartialEq, Eq, Structural)]
pub enum RelationshipType {
    OfficeDocument,
    Slide,
    SlideLayout,
    SlideMaster,
    NotesSlide,
    NotesMaster,
    Theme,
    Image,
    Hyperlink,
    DiagramData,
    /// Anything else.
    Other,
}

/// Whether a target is a part of the package.
#[derive(Debug, Clone, Copy, PartialEq, Eq, Structural)]
pub enum TargetMode {
    Internal,
    External,
}

/// A relationship.
#[derive(Debug)]
pub struct Relationship {
    pub id: String,
    pub rel_type: RelationshipType,
    pub target: String,
    pub target_mode: TargetMode,
}

/// The relationships that a part declares, in order.
#[derive(Debug)]
pub struct Relationships {
    pub list: Vec<Relationship>,
}

/// Whether a type is written with the given last word, in either of the
/// format's namespaces.
pub open spec fn is_type(uri: Seq<char>, word: Seq<char>) -> bool {
    ||| uri == "http://schemas.openxmlformats.org/officeDocument/2006/relationships/"@ + word
    ||| uri == "http://purl.oclc.org/ooxml/officeDocument/relationships/"@ + word
}

/// What a relationship type is written as.
pub open spec fn type_of(uri: Seq<char>) -> RelationshipType {
    if is_type(uri, "officeDocument"@) {
        RelationshipType::OfficeDocument
    } else if is_type(uri, "slide"@) {
        RelationshipType::Slide
    } else if is_type(uri, "slideLayout"@) {
        RelationshipType::SlideLayout
    } else if is_type(uri, "slideMaster"@) {
        RelationshipType::SlideMaster
    } else if is_type(uri, "notesSlide"@) {
        RelationshipType::NotesSlide
    } else if is_type(uri, "notesMaster"@) {
        RelationshipType::NotesMaster
    } else if is_type(uri, "theme"@) {
        RelationshipType::Theme
    } else if is_type(uri, "image"@) {
        RelationshipType::Image
    } else if is_type(uri, "hyperlink"@) {
        RelationshipType::Hyperlink
    } else if is_type(uri, "diagramData"@) {
        RelationshipType::DiagramData
    } else {
        RelationshipType::Other
    }
}

/// Whether a type is written with the given last word.
fn has_type(uri: &str, word: &str) -> (r: bool)
    ensures
        r == is_type(uri@, word@),
{
    let transitional: String = String::from_str(
        "http://schemas.openxmlformats.org/officeDocument/2006/relationships/",
    ).concat(word);
    let strict: String = String::from_str(
        "http://purl.oclc.org/ooxml/officeDocument/relationships/",
    ).concat(word);
    str_eq(uri, transitional.as_str()) || str_eq(uri, strict.as_str())
}

/// The relationship type that a URI stands for.
fn read_type(uri: &str) -> (r: RelationshipType)
    ensures
        r == type_of(uri@),
{
    if has_type(uri, "officeDocument") {
        RelationshipType::OfficeDocument
    } else if has_type(uri, "slide") {
        RelationshipType::Slide
    } else if has_type(uri, "slideLayout") {
        RelationshipType::SlideLayout
    } else if has_type(uri, "slideMaster") {
        RelationshipType::SlideMaster
    } else if has_type(uri, "notesSlide") {
        RelationshipType::NotesSlide
    } else if has_type(uri, "notesMaster") {
        RelationshipType::NotesMaster
    } else if has_type(uri, "theme") {
        RelationshipType::Theme
    } else if has_type(uri, "image") {
        RelationshipType::Image
    } else if has_type(uri, "hyperlink") {
        RelationshipType::Hyperlink
    } else if has_type(uri, "diagramData") {
        RelationshipType::DiagramData
    } else {
        RelationshipType::Other
    }
}

/// Whether a relationship is what an element states.
pub open spec fn is_relationship(e: Element, r: Relationship) -> bool {
    &&& r.id@ == text_or_empty(e, "Id"@)
    &&& r.rel_type == type_of(text_or_empty(e, "Type"@))
    &&& r.target@ == text_or_empty(e, "Target"@)
    &&& r.target_mode == if attr(e, "TargetMode"@) == Some("External"@) {
        TargetMode::External
    } else {
        TargetMode::Internal
    }
}

/// Whether relationships are what an element states, in order.
pub open spec fn are_relationships(e: Element, list: Seq<Relationship>) -> bool {
    let stated = children_named(e, "Relationship"@);
    &&& list.len() == stated.len()
    &&& forall|i: int| 0 <= i < stated.len() ==> is_relationship(stated[i], #[trigger] list[i])
}

/// Whether a relationship reads: it must state its id, type and target.
pub open spec fn relationship_reads(e: Element) -> bool {
    &&& conforms(e, seq!["Id", "Type", "Target", "TargetMode"], seq![], seq![])
    &&& attr(e, "Id"@) is Some
    &&& attr(e, "Type"@) is Some
    &&& attr(e, "Target"@) is Some
}

/// Whether relationships read.
pub open spec fn relationships_read(e: Element) -> bool {
    let stated = children_named(e, "Relationship"@);
    &&& conforms(e, seq![], seq![], seq!["Relationship"])
    &&& forall|i: int| 0 <= i < stated.len() ==> relationship_reads(#[trigger] stated[i])
}

/// Whether relationships are what a part's root element gives: none where it
/// does not read.
pub open spec fn relationships_outcome(root: Option<Element>, list: Seq<Relationship>) -> bool {
    match root {
        Some(e) => if relationships_read(e) {
            are_relationships(e, list)
        } else {
            list.len() == 0
        },
        None => list.len() == 0,
    }
}

/// The relationship that an element states, where it reads.
fn read_relationship(e: &Element) -> (r: Option<Relationship>)
    ensures
        r is Some <==> relationship_reads(*e),
        r matches Some(x) ==> is_relationship(*e, x),
{
    let known: [&str; 4] = ["Id", "Type", "Target", "TargetMode"];
    let none: [&str; 0] = [];
    assert(known@ =~= seq!["Id", "Type", "Target", "TargetMode"]);
    assert(none@ =~= seq![]);
    if !check_element(e, &known, &none, &none) || attribute(e, "Id").is_none() || attribute(
        e,
        "Type",
    ).is_none() || attribute(e, "Target").is_none() {
        return None;
    }
    let uri: String = read_text(e, "Type");
    let target_mode: TargetMode = match attribute(e, "TargetMode") {
        Some(m) => if str_eq(m.as_str(), "External") {
            TargetMode::External
        } else {
            TargetMode::Internal
        },
        None => TargetMode::Internal,
    };
    Some(
        Relationship {
            id: read_text(e, "Id"),
            rel_type: read_type(uri.as_str()),
            target: read_text(e, "Target"),
            target_mode,
        },
    )
}

/// The first relationship of an id.
pub open spec fn by_id(list: Seq<Relationship>, id: Seq<char>) -> Option<Relationship>
    decreases list.len(),
{
    if list.len() == 0 {
        None
    } else if list[0].id@ == id {
        Some(list[0])
    } else {
        by_id(list.skip(1), id)
    }
}

/// The first relationship of a type.
pub open spec fn by_type(list: Seq<Relationship>, ty: RelationshipType) -> Option<Relationship>
    decreases list.len(),
{
    if list.len() == 0 {
        None
    } else if list[0].rel_type == ty {
        Some(list[0])
    } else {
        by_type(list.skip(1), ty)
    }
}

impl Relationships {
    /// The relationships that a root element states; none where it does not
    /// read.
    pub fn from_root(root: &Option<Element>) -> (r: Self)
        ensures
            relationships_outcome(*root, r.list@),
    {
        let e: &Element = match root {
            Some(e) => e,
            None => {
                return Relationships { list: Vec::new() };
            },
        };
        let lists: [&str; 1] = ["Relationship"];
        let none: [&str; 0] = [];
        assert(lists@ =~= seq!["Relationship"]);
        assert(none@ =~= seq![]);
        if !check_element(e, &none, &none, &lists) {
            return Relationships { list: Vec::new() };
        }
        let stated: Vec<&Element> = children(e, "Relationship");
        let ghost all = children_named(*e, "Relationship"@);
        let mut list: Vec<Relationship> = Vec::new();
        let mut i: usize = 0;
        while i < stated.len()
            invariant
                *root == Some(*e),
                all == children_named(*e, "Relationship"@),
                stated@.len() == all.len(),
                forall|k: int| 0 <= k < stated@.len() ==> *#[trigger] stated@[k] == all[k],
                i <= stated@.len(),
                list@.len() == i,
                forall|k: int| 0 <= k < i ==> relationship_reads(#[trigger] all[k]),
                forall|k: int| 0 <= k < i ==> is_relationship(all[k], #[trigger] list@[k]),
            decreases stated@.len() - i,
        {
            match read_relationship(stated[i]) {
                Some(r) => {
                    list.push(r);
                },
                None => {
                    assert(!relationship_reads(all[i as int]));
                    return Relationships { list: Vec::new() };
                },
            }
            i = i + 1;
        }
        Relationships { list }
    }

    /// Reads the part that holds a part's relationships. One that does not
    /// read holds none.
    pub fn parse(data: &[u8]) -> (r: Self)
        ensures
            exists|root: Option<Element>| #[trigger]
                part_root(data@, root) && relationships_outcome(root, r.list@),
    {
        let root: Option<Element> = from_xml(data);
        Relationships::from_root(&root)
    }

    /// The first relationship of an id.
    pub fn find_by_id(&self, id: &str) -> (r: Option<&Relationship>)
        ensures
            (match r {
                Some(x) => Some(*x),
                None => None,
            }) == by_id(self.list@, id@),
    {
        let ghost all = self.list@;
        let mut i: usize = 0;
        assert(all.skip(0) =~= all);
        while i < self.list.len()
            invariant
                all == self.list@,
                i <= all.len(),
                by_id(all, id@) == by_id(all.skip(i as int), id@),
            decreases all.len() - i,
        {
            assert(all.skip(i as int)[0] == all[i as int]);
            assert(all.skip(i as int).skip(1) =~= all.skip(i + 1));
            if str_eq(self.list[i].id.as_str(), id) {
                return Some(&self.list[i]);
            }
            i = i + 1;
        }
        None
    }

    /// The first relationship of a type.
    pub fn find_by_type(&self, ty: RelationshipType) -> (r: Option<&Relationship>)
        ensures
            (match r {
                Some(x) => Some(*x),
                None => None,
            }) == by_type(self.list@, ty),
    {
        let ghost all = self.list@;
        let mut i: usize = 0;
        assert(all.skip(0) =~= all);
        while i < self.list.len()
            invariant
                all == self.list@,
                i <= all.len(),
                by_type(all, ty) == by_type(all.skip(i as int), ty),
            decreases all.len() - i,
        {
            assert(all.skip(i as int)[0] == all[i as int]);
            assert(all.skip(i as int).skip(1) =~= all.skip(i + 1));
            if self.list[i].rel_type == ty {
                return Some(&self.list[i]);
            }
            i = i + 1;
        }
        None
    }
}

} // verus!

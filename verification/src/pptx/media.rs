//! The images of a presentation, by the part that refers to them.
//!
//! A relationship's id means something only in the part that declares it, so
//! every part has a table of its own. The bytes of an image are read once,
//! when something first asks for them, and shared from then on.
use vstd::prelude::*;
use std::rc::Rc;

use crate::model::image::{detected, ImageFormat, MediaEntry, MediaView, PartMedia};
use crate::opc::contents::PackageContents;
use crate::opc::relationships::{Relationship, RelationshipType, TargetMode};
use crate::pptx::package::{copy_bytes, target_by_id, Part, PresentationPackage};
use crate::scan::str_eq;

verus! {

/// The images read so far, and the tables of the parts seen so far.
pub struct MediaCache {
    /// What each path that was asked for holds, with nothing for a path at
    /// which there is no part.
    by_path: Vec<(String, Option<MediaEntry>)>,
    by_part: Vec<(String, PartMedia)>,
    empty: EmptyTable,
}

/// The table of a part that is not there. It stays empty.
struct EmptyTable {
    table: PartMedia,
}

impl EmptyTable {
    #[verifier::type_invariant]
    spec fn is_empty(self) -> bool {
        self.table@.len() == 0
    }

    fn new() -> Self {
        EmptyTable { table: PartMedia::new() }
    }

    /// The table, which holds nothing.
    fn get(&self) -> (r: &PartMedia)
        ensures
            r@ == Seq::<(Seq<char>, MediaView)>::empty(),
    {
        proof {
            use_type_invariant(self);
        }
        assert(self.table@ =~= Seq::<(Seq<char>, MediaView)>::empty());
        &self.table
    }
}

/// What an optional image holds.
pub open spec fn entry_view(e: Option<MediaEntry>) -> Option<MediaView> {
    match e {
        Some(m) => Some(m@),
        None => None,
    }
}

/// What stands first under a name.
pub open spec fn first_named<T>(entries: Seq<(Seq<char>, T)>, name: Seq<char>) -> Option<T>
    decreases entries.len(),
{
    if entries.len() == 0 {
        None
    } else if entries[0].0 == name {
        Some(entries[0].1)
    } else {
        first_named(entries.skip(1), name)
    }
}

/// The image at a path of a package.
pub open spec fn media_of(package: PackageContents, path: Seq<char>) -> Option<MediaView> {
    match package.part(path) {
        Some(data) => Some(MediaView { data, format: detected(path, data) }),
        None => None,
    }
}

/// What is known of the paths asked for, after one more question, and the
/// answer to it.
pub open spec fn after_load(
    known: Seq<(Seq<char>, Option<MediaView>)>,
    package: PackageContents,
    path: Seq<char>,
) -> (Seq<(Seq<char>, Option<MediaView>)>, Option<MediaView>) {
    match first_named(known, path) {
        Some(e) => (known, e),
        None => (known.push((path, media_of(package, path))), media_of(package, path)),
    }
}

/// Whether a relationship is to an image in the package.
pub open spec fn is_image(r: Relationship) -> bool {
    r.rel_type == RelationshipType::Image && r.target_mode != TargetMode::External
}

/// What is known, and the table of a part, after some of its relationships.
pub open spec fn tabled(
    known: Seq<(Seq<char>, Option<MediaView>)>,
    package: PackageContents,
    part: Part,
    rels: Seq<Relationship>,
) -> (Seq<(Seq<char>, Option<MediaView>)>, Seq<(Seq<char>, MediaView)>)
    decreases rels.len(),
{
    if rels.len() == 0 {
        (known, Seq::empty())
    } else {
        let before = tabled(known, package, part, rels.drop_last());
        let r = rels.last();
        if is_image(r) {
            match target_by_id(part, r.id@) {
                Some(path) => {
                    let answer = after_load(before.0, package, path);
                    (
                        answer.0,
                        match answer.1 {
                            Some(m) => before.1.push((r.id@, m)),
                            None => before.1,
                        },
                    )
                },
                None => before,
            }
        } else {
            before
        }
    }
}

/// The images that the relationships of a part lead to, each by its id.
pub open spec fn images_of(
    package: PackageContents,
    part: Part,
    rels: Seq<Relationship>,
) -> Seq<(Seq<char>, MediaView)>
    decreases rels.len(),
{
    if rels.len() == 0 {
        Seq::empty()
    } else {
        let before = images_of(package, part, rels.drop_last());
        let r = rels.last();
        if is_image(r) {
            match target_by_id(part, r.id@) {
                Some(path) => match media_of(package, path) {
                    Some(m) => before.push((r.id@, m)),
                    None => before,
                },
                None => before,
            }
        } else {
            before
        }
    }
}

/// Whether all that is known is true of a package.
pub open spec fn true_of(
    known: Seq<(Seq<char>, Option<MediaView>)>,
    package: PackageContents,
) -> bool {
    forall|i: int|
        0 <= i < known.len() ==> (#[trigger] known[i]).1 == media_of(package, known[i].0)
}

proof fn known_is_true(
    known: Seq<(Seq<char>, Option<MediaView>)>,
    package: PackageContents,
    path: Seq<char>,
)
    requires
        true_of(known, package),
        first_named(known, path) is Some,
    ensures
        first_named(known, path) == Some(media_of(package, path)),
    decreases known.len(),
{
    if known[0].0 != path {
        assert(forall|i: int| 0 <= i < known.skip(1).len() ==> #[trigger] known.skip(1)[i]
            == known[i + 1]);
        known_is_true(known.skip(1), package, path);
    }
}

/// What was read once is what the package holds: a table built with its help
/// is the one that the package alone gives, and what is known stays true.
pub proof fn reading_once_is_enough(
    known: Seq<(Seq<char>, Option<MediaView>)>,
    package: PackageContents,
    part: Part,
    rels: Seq<Relationship>,
)
    requires
        true_of(known, package),
    ensures
        tabled(known, package, part, rels).1 == images_of(package, part, rels),
        true_of(tabled(known, package, part, rels).0, package),
    decreases rels.len(),
{
    if rels.len() > 0 {
        reading_once_is_enough(known, package, part, rels.drop_last());
        let before = tabled(known, package, part, rels.drop_last());
        let r = rels.last();
        if is_image(r) {
            match target_by_id(part, r.id@) {
                Some(path) => {
                    if first_named(before.0, path) is Some {
                        known_is_true(before.0, package, path);
                    }
                },
                None => {},
            }
        }
    }
}

proof fn entered_last<T>(entries: Seq<(Seq<char>, T)>, name: Seq<char>, value: T)
    requires
        first_named(entries, name) is None,
    ensures
        first_named(entries.push((name, value)), name) == Some(value),
    decreases entries.len(),
{
    let more = entries.push((name, value));
    if entries.len() > 0 {
        assert(more[0] == entries[0]);
        assert(more.skip(1) =~= entries.skip(1).push((name, value)));
        entered_last(entries.skip(1), name, value);
    }
}

impl MediaCache {
    /// What is known of the paths asked for.
    pub closed spec fn known(self) -> Seq<(Seq<char>, Option<MediaView>)> {
        self.by_path@.map_values(|e: (String, Option<MediaEntry>)| (e.0@, entry_view(e.1)))
    }

    /// The tables of the parts seen.
    pub closed spec fn tables(self) -> Seq<(Seq<char>, Seq<(Seq<char>, MediaView)>)> {
        self.by_part@.map_values(|e: (String, PartMedia)| (e.0@, e.1@))
    }

    /// A cache in which nothing is known.
    pub fn new() -> (r: Self)
        ensures
            r.known().len() == 0,
            r.tables().len() == 0,
    {
        MediaCache { by_path: Vec::new(), by_part: Vec::new(), empty: EmptyTable::new() }
    }

    /// The place of a part's table.
    fn find_table(&self, path: &str) -> (r: Option<usize>)
        ensures
            r is Some <==> first_named(self.tables(), path@) is Some,
            r matches Some(i) ==> i < self.by_part@.len() && first_named(self.tables(), path@)
                == Some(self.by_part@[i as int].1@),
    {
        let ghost all = self.tables();
        let mut i: usize = 0;
        assert(all.skip(0) =~= all);
        while i < self.by_part.len()
            invariant
                all == self.tables(),
                i <= self.by_part@.len(),
                first_named(all, path@) == first_named(all.skip(i as int), path@),
            decreases self.by_part@.len() - i,
        {
            assert(all.skip(i as int)[0] == all[i as int]);
            assert(all.skip(i as int).skip(1) =~= all.skip(i + 1));
            if str_eq(self.by_part[i].0.as_str(), path) {
                return Some(i);
            }
            i = i + 1;
        }
        None
    }

    /// The image at a path, read at most once.
    fn load(&mut self, package: &PackageContents, path: &str) -> (r: Option<MediaEntry>)
        ensures
            (final(self).known(), entry_view(r)) == after_load(old(self).known(), *package, path@),
            final(self).tables() == old(self).tables(),
            final(self).by_part == old(self).by_part,
    {
        let ghost all = self.known();
        let mut i: usize = 0;
        assert(all.skip(0) =~= all);
        while i < self.by_path.len()
            invariant
                *self == *old(self),
                all == self.known(),
                i <= self.by_path@.len(),
                first_named(all, path@) == first_named(all.skip(i as int), path@),
            decreases self.by_path@.len() - i,
        {
            assert(all.skip(i as int)[0] == all[i as int]);
            assert(all.skip(i as int).skip(1) =~= all.skip(i + 1));
            if str_eq(self.by_path[i].0.as_str(), path) {
                let copy: Option<MediaEntry> = self.by_path[i].1.clone();
                assert(copy == self.by_path@[i as int].1);
                return copy;
            }
            i = i + 1;
        }
        let entry: Option<MediaEntry> = match package.get_part(path) {
            Some(bytes) => Some(
                MediaEntry {
                    data: Rc::new(copy_bytes(bytes)),
                    format: ImageFormat::detect(path, bytes.as_slice()),
                },
            ),
            None => None,
        };
        let copy: Option<MediaEntry> = entry.clone();
        assert(copy == entry);
        self.by_path.push((path.to_owned(), copy));
        assert(self.known() =~= all.push((path@, entry_view(entry))));
        entry
    }

    /// The images that a part refers to. The table of a part is built once.
    pub fn part_media(&mut self, pkg: &PresentationPackage, part: &Part) -> (r: &PartMedia)
        ensures
            first_named(final(self).tables(), part.path@) == Some(r@),
            first_named(old(self).tables(), part.path@) is Some ==> final(self).known() == old(
                self,
            ).known() && final(self).tables() == old(self).tables(),
            first_named(old(self).tables(), part.path@) is None ==> {
                let built = tabled(old(self).known(), pkg.package, *part, part.rels.list@);
                &&& final(self).known() == built.0
                &&& final(self).tables() == old(self).tables().push((part.path@, built.1))
            },
    {
        let found: Option<usize> = self.find_table(part.path.as_str());
        let place: usize = match found {
            Some(i) => i,
            None => self.build_table(pkg, part),
        };
        &self.by_part[place].1
    }

    /// Builds the table of a part that has none yet, and gives its place.
    fn build_table(&mut self, pkg: &PresentationPackage, part: &Part) -> (place: usize)
        requires
            first_named(old(self).tables(), part.path@) is None,
        ensures
            ({
                let built = tabled(old(self).known(), pkg.package, *part, part.rels.list@);
                &&& final(self).known() == built.0
                &&& final(self).tables() == old(self).tables().push((part.path@, built.1))
            }),
            place < final(self).by_part@.len(),
            first_named(final(self).tables(), part.path@) == Some(
                final(self).by_part@[place as int].1@,
            ),
    {
        let place: usize = self.by_part.len();
        let ghost known = self.known();
        let ghost tables = self.tables();
        let mut table: PartMedia = PartMedia::new();
        let ghost rels = part.rels.list@;
        let mut i: usize = 0;
        assert(table@ =~= Seq::<(Seq<char>, MediaView)>::empty());
        while i < part.rels.list.len()
            invariant
                rels == part.rels.list@,
                i <= rels.len(),
                place == self.by_part@.len(),
                self.tables() == tables,
                (self.known(), table@) == tabled(known, pkg.package, *part, rels.take(i as int)),
            decreases rels.len() - i,
        {
            assert(rels.take(i + 1).drop_last() =~= rels.take(i as int));
            let rel: &Relationship = &part.rels.list[i];
            if rel.rel_type == RelationshipType::Image && rel.target_mode != TargetMode::External {
                match part.resolve_rel(rel.id.as_str()) {
                    Some(path) => {
                        match self.load(&pkg.package, path.as_str()) {
                            Some(entry) => {
                                table.insert(rel.id.clone(), entry);
                            },
                            None => {},
                        }
                    },
                    None => {},
                }
            }
            i = i + 1;
        }
        assert(rels.take(i as int) =~= rels);
        let ghost built = table@;
        self.by_part.push((part.path.clone(), table));
        assert(self.tables() =~= tables.push((part.path@, built)));
        proof {
            entered_last(tables, part.path@, built);
        }
        place
    }

    /// The table of a part that was seen, and an empty one for any other.
    pub fn get(&self, part_path: Option<&str>) -> (r: &PartMedia)
        ensures
            r@ == match part_path {
                Some(p) => match first_named(self.tables(), p@) {
                    Some(t) => t,
                    None => Seq::empty(),
                },
                None => Seq::empty(),
            },
    {
        match part_path {
            Some(p) => match self.find_table(p) {
                Some(i) => &self.by_part[i].1,
                None => self.empty.get(),
            },
            None => self.empty.get(),
        }
    }
}

} // verus!

//! The parts of a package, by path.
use vstd::prelude::*;

use crate::error::ParseError;
use crate::opc::archive::{
    all_readable, archive_entries, entry_views, read_archive, readable_entries,
};
use crate::opc::path::{normalize, normalized};
use crate::scan::str_eq;

verus! {

/// The parts of a package, by path.
#[derive(Debug)]
pub struct PackageContents {
    parts: Vec<(String, Vec<u8>)>,
}

/// The content of the part at a path. A later part takes the place of an
/// earlier one.
pub open spec fn part_at(parts: Seq<(Seq<char>, Seq<u8>)>, path: Seq<char>) -> Option<Seq<u8>>
    decreases parts.len(),
{
    if parts.len() == 0 {
        None
    } else if parts.last().0 == path {
        Some(parts.last().1)
    } else {
        part_at(parts.drop_last(), path)
    }
}

/// Entries with their names as paths.
pub open spec fn with_paths(entries: Seq<(Seq<char>, Seq<u8>)>) -> Seq<(Seq<char>, Seq<u8>)> {
    entries.map_values(|e: (Seq<char>, Seq<u8>)| (normalized(e.0), e.1))
}

impl View for PackageContents {
    type V = Seq<(Seq<char>, Seq<u8>)>;

    closed spec fn view(&self) -> Seq<(Seq<char>, Seq<u8>)> {
        entry_views(self.parts@)
    }
}

impl PackageContents {
    /// The content of the part at a path.
    pub open spec fn part(self, path: Seq<char>) -> Option<Seq<u8>> {
        part_at(self@, path)
    }

    /// The package whose parts are the given entries.
    pub fn from_entries(entries: Vec<(String, Vec<u8>)>) -> (r: Self)
        ensures
            r@ == with_paths(entry_views(entries@)),
    {
        let ghost all = with_paths(entry_views(entries@));
        let mut entries: Vec<(String, Vec<u8>)> = entries;
        let ghost held = entries@;
        let mut parts: Vec<(String, Vec<u8>)> = Vec::new();
        let mut i: usize = 0;
        while i < entries.len()
            invariant
                all == with_paths(entry_views(held)),
                entries@.len() == held.len(),
                i <= held.len(),
                forall|k: int| i <= k < held.len() ==> #[trigger] entries@[k] == held[k],
                parts@.len() == i,
                forall|k: int| 0 <= k < i ==> #[trigger] entry_views(parts@)[k] == all[k],
            decreases held.len() - i,
        {
            let ghost before = parts@;
            let path: String = normalize(entries[i].0.as_str());
            let mut bytes: Vec<u8> = Vec::new();
            assert(entries@[i as int] == held[i as int]);
            bytes.append(&mut entries[i].1);
            assert(bytes@ =~= held[i as int].1@);
            parts.push((path, bytes));
            assert forall|k: int| 0 <= k < i + 1 implies #[trigger] entry_views(parts@)[k]
                == all[k] by {
                if k < i {
                    assert(entry_views(before)[k] == all[k]);
                }
            }
            i = i + 1;
        }
        assert(entry_views(parts@) =~= all);
        PackageContents { parts }
    }

    /// Reads a package.
    pub fn from_bytes(data: &[u8]) -> (r: Result<Self, ParseError>)
        ensures
            match archive_entries(data@) {
                Some(all) => if all_readable(all) {
                    r matches Ok(p) && p@ == with_paths(readable_entries(all))
                } else {
                    r == Err::<Self, ParseError>(ParseError::Container)
                },
                None => r == Err::<Self, ParseError>(ParseError::Container),
            },
    {
        match read_archive(data) {
            Some(entries) => Ok(Self::from_entries(entries)),
            None => Err(ParseError::Container),
        }
    }

    /// The content of the part at a path.
    pub fn get_part(&self, path: &str) -> (r: Option<&Vec<u8>>)
        ensures
            (match r {
                Some(b) => Some(b@),
                None => None,
            }) == self.part(path@),
    {
        let ghost all = self@;
        let mut n: usize = self.parts.len();
        assert(all.take(n as int) =~= all);
        while n > 0
            invariant
                all == entry_views(self.parts@),
                n <= all.len(),
                part_at(all, path@) == part_at(all.take(n as int), path@),
            decreases n,
        {
            assert(all.take(n as int).last() == all[n - 1]);
            assert(all.take(n as int).drop_last() =~= all.take(n - 1));
            if str_eq(self.parts[n - 1].0.as_str(), path) {
                return Some(&self.parts[n - 1].1);
            }
            n = n - 1;
        }
        None
    }
}

} // verus!

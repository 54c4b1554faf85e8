//! The entries of an archive, as `zip` reads them.
use vstd::prelude::*;
use std::io::{Cursor, Read};

use zip::ZipArchive;

verus! {

#[verifier::external_type_specification]
#[verifier::external_body]
#[verifier::reject_recursive_types(R)]
pub struct ExZipArchive<R>(ZipArchive<R>);

#[verifier::external_type_specification]
#[verifier::external_body]
#[verifier::reject_recursive_types(T)]
pub struct ExCursor<T>(Cursor<T>);

/// The entries that `zip` finds in an archive, each by its name and content,
/// or nothing where it cannot be read. Bytes that are no archive have none.
pub uninterp spec fn archive_entries(data: Seq<u8>) -> Option<
    Seq<Option<(Seq<char>, Seq<u8>)>>,
>;

/// The entries of an open archive.
pub uninterp spec fn entries_of(archive: ZipArchive<Cursor<&[u8]>>) -> Seq<
    Option<(Seq<char>, Seq<u8>)>,
>;

/// `zip::ZipArchive::new` over a byte slice: the archive, where the bytes are
/// one.
#[verifier::external_body]
fn open_archive<'a>(data: &'a [u8]) -> (r: Option<ZipArchive<Cursor<&'a [u8]>>>)
    ensures
        (match r {
            Some(a) => Some(entries_of(a)),
            None => None,
        }) == archive_entries(data@),
{
    ZipArchive::new(Cursor::new(data)).ok()
}

/// `zip::ZipArchive::len`: how many entries there are.
#[verifier::external_body]
fn entry_count(archive: &ZipArchive<Cursor<&[u8]>>) -> (r: usize)
    ensures
        r == entries_of(*archive).len(),
{
    archive.len()
}

/// What an entry that was read holds.
pub open spec fn entry_view(e: Option<(String, Vec<u8>)>) -> Option<(Seq<char>, Seq<u8>)> {
    match e {
        Some(x) => Some((x.0@, x.1@)),
        None => None,
    }
}

/// `zip::ZipArchive::by_index`, with the name of the entry and all that
/// reading it gives, or nothing where one of them fails. The archive is left
/// as it was.
#[verifier::external_body]
fn read_entry<'a>(archive: &mut ZipArchive<Cursor<&'a [u8]>>, index: usize) -> (r: Option<
    (String, Vec<u8>),
>)
    requires
        index < entries_of(*old(archive)).len(),
    ensures
        entry_view(r) == entries_of(*old(archive))[index as int],
        entries_of(*final(archive)) == entries_of(*old(archive)),
{
    let mut file = archive.by_index(index).ok()?;
    let name = file.name().ok()?.into_owned();
    let mut bytes = Vec::new();
    file.read_to_end(&mut bytes).ok()?;
    Some((name, bytes))
}

/// What entries that were read hold.
pub open spec fn entry_views(entries: Seq<(String, Vec<u8>)>) -> Seq<(Seq<char>, Seq<u8>)> {
    entries.map_values(|e: (String, Vec<u8>)| (e.0@, e.1@))
}

/// Whether all entries of an archive can be read.
pub open spec fn all_readable(entries: Seq<Option<(Seq<char>, Seq<u8>)>>) -> bool {
    forall|i: int| 0 <= i < entries.len() ==> #[trigger] entries[i] is Some
}

/// What the entries of an archive hold.
pub open spec fn readable_entries(entries: Seq<Option<(Seq<char>, Seq<u8>)>>) -> Seq<
    (Seq<char>, Seq<u8>),
> {
    entries.map_values(|e: Option<(Seq<char>, Seq<u8>)>| e->0)
}

/// Reads all entries of an archive. There is no result where the bytes are no
/// archive, or an entry cannot be read.
pub fn read_archive(data: &[u8]) -> (r: Option<Vec<(String, Vec<u8>)>>)
    ensures
        match archive_entries(data@) {
            Some(all) => if all_readable(all) {
                r is Some && entry_views(r->0@) == readable_entries(all)
            } else {
                r is None
            },
            None => r is None,
        },
{
    let mut archive: ZipArchive<Cursor<&[u8]>> = match open_archive(data) {
        Some(a) => a,
        None => {
            return None;
        },
    };
    let ghost all = entries_of(archive);
    let n: usize = entry_count(&archive);
    let mut out: Vec<(String, Vec<u8>)> = Vec::new();
    let mut i: usize = 0;
    while i < n
        invariant
            entries_of(archive) == all,
            archive_entries(data@) == Some(all),
            n == all.len(),
            i <= n,
            out@.len() == i,
            forall|k: int| 0 <= k < i ==> #[trigger] all[k] is Some,
            forall|k: int| 0 <= k < i ==> #[trigger] entry_views(out@)[k] == all[k]->0,
        decreases n - i,
    {
        let ghost before = out@;
        match read_entry(&mut archive, i) {
            Some(e) => {
                out.push(e);
                assert forall|k: int| 0 <= k < i + 1 implies #[trigger] entry_views(out@)[k]
                    == all[k]->0 by {
                    if k < i {
                        assert(entry_views(before)[k] == all[k]->0);
                    }
                }
            },
            None => {
                assert(all[i as int] is None);
                return None;
            },
        }
        i = i + 1;
    }
    assert(entry_views(out@) =~= readable_entries(all));
    Some(out)
}

} // verus!

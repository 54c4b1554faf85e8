//! Images: their formats, and the images that a part refers to.
use vstd::prelude::*;
use std::rc::Rc;

use crate::opc::path::{lower_char, to_lower};
use crate::scan::{chars_of, spells, str_eq};

verus! {

/// The format of an image.
#[derive(Debug, Clone, Copy, PartialEq, Eq, Structural)]
pub enum ImageFormat {
    Png,
    Jpeg,
    Gif,
    Bmp,
    Tiff,
    Emf,
    Wmf,
    Svg,
    Unknown,
}

/// What stands behind the last dot of a path, in lower case; nothing where it
/// has no dot.
pub open spec fn extension(path: Seq<char>) -> Seq<char>
    decreases path.len(),
{
    if path.len() == 0 || !path.contains('.') {
        Seq::empty()
    } else if path.last() == '.' {
        Seq::empty()
    } else {
        extension(path.drop_last()).push(lower_char(path.last()))
    }
}

/// The format that an extension stands for.
pub open spec fn format_by_extension(ext: Seq<char>) -> ImageFormat {
    if ext == "png"@ {
        ImageFormat::Png
    } else if ext == "jpg"@ || ext == "jpeg"@ {
        ImageFormat::Jpeg
    } else if ext == "gif"@ {
        ImageFormat::Gif
    } else if ext == "bmp"@ {
        ImageFormat::Bmp
    } else if ext == "tif"@ || ext == "tiff"@ {
        ImageFormat::Tiff
    } else if ext == "emf"@ {
        ImageFormat::Emf
    } else if ext == "wmf"@ {
        ImageFormat::Wmf
    } else if ext == "svg"@ {
        ImageFormat::Svg
    } else {
        ImageFormat::Unknown
    }
}

/// Whether bytes start with others.
pub open spec fn starts(data: Seq<u8>, head: Seq<u8>) -> bool {
    head.len() <= data.len() && data.take(head.len() as int) == head
}

/// The format that the first bytes of an image show.
pub open spec fn format_by_content(data: Seq<u8>) -> ImageFormat {
    if starts(data, seq![0x89u8, 0x50u8, 0x4Eu8, 0x47u8]) {
        ImageFormat::Png
    } else if starts(data, seq![0xFFu8, 0xD8u8, 0xFFu8]) {
        ImageFormat::Jpeg
    } else if starts(data, seq![0x47u8, 0x49u8, 0x46u8, 0x38u8]) {
        ImageFormat::Gif
    } else if starts(data, seq![0x42u8, 0x4Du8]) {
        ImageFormat::Bmp
    } else if starts(data, seq![0x49u8, 0x49u8, 0x2Au8, 0x00u8]) || starts(
        data,
        seq![0x4Du8, 0x4Du8, 0x00u8, 0x2Au8],
    ) {
        ImageFormat::Tiff
    } else {
        ImageFormat::Unknown
    }
}

/// Whether bytes start with others.
fn starts_with_bytes(data: &[u8], head: &[u8]) -> (r: bool)
    ensures
        r == starts(data@, head@),
{
    if data.len() < head.len() {
        return false;
    }
    let mut i: usize = 0;
    while i < head.len()
        invariant
            head@.len() <= data@.len(),
            i <= head@.len(),
            forall|k: int| 0 <= k < i ==> data@[k] == head@[k],
        decreases head@.len() - i,
    {
        if data[i] != head[i] {
            assert(data@.take(head@.len() as int)[i as int] != head@[i as int]);
            return false;
        }
        i = i + 1;
    }
    assert(data@.take(head@.len() as int) =~= head@);
    true
}

/// What stands behind the last dot of a path, in lower case.
fn read_extension(path: &str) -> (r: Vec<char>)
    ensures
        r@ == extension(path@),
{
    let all: Vec<char> = chars_of(path);
    let mut dot: usize = all.len();
    while dot > 0 && all[dot - 1] != '.'
        invariant
            dot <= all@.len(),
            forall|k: int| dot <= k < all@.len() ==> all@[k] != '.',
        decreases dot,
    {
        dot = dot - 1;
    }
    if dot == 0 {
        assert(!path@.contains('.'));
        return Vec::new();
    }
    assert(all@[dot - 1] == '.');
    let mut out: Vec<char> = Vec::new();
    assert(path@.take(dot as int).last() == '.');
    let mut i: usize = dot;
    while i < all.len()
        invariant
            all@ == path@,
            0 < dot <= i <= all@.len(),
            all@[dot - 1] == '.',
            forall|k: int| dot <= k < all@.len() ==> all@[k] != '.',
            out@ == extension(path@.take(i as int)),
        decreases all@.len() - i,
    {
        proof {
            let part = path@.take(i + 1);
            assert(part.drop_last() =~= path@.take(i as int));
            assert(part[dot - 1] == '.');
            assert(part.contains('.'));
        }
        out.push(to_lower(all[i]));
        i = i + 1;
    }
    assert(path@.take(i as int) =~= path@);
    out
}

/// The format of an image: what its extension says, or else its content.
pub open spec fn detected(path: Seq<char>, data: Seq<u8>) -> ImageFormat {
    if format_by_extension(extension(path)) is Unknown {
        format_by_content(data)
    } else {
        format_by_extension(extension(path))
    }
}

impl ImageFormat {
    /// The format of an image: what its extension says, or else its content.
    pub fn detect(path: &str, data: &[u8]) -> (r: ImageFormat)
        ensures
            r == detected(path@, data@),
    {
        let ext: Vec<char> = read_extension(path);
        if spells(&ext, "png") {
            return ImageFormat::Png;
        }
        if spells(&ext, "jpg") || spells(&ext, "jpeg") {
            return ImageFormat::Jpeg;
        }
        if spells(&ext, "gif") {
            return ImageFormat::Gif;
        }
        if spells(&ext, "bmp") {
            return ImageFormat::Bmp;
        }
        if spells(&ext, "tif") || spells(&ext, "tiff") {
            return ImageFormat::Tiff;
        }
        if spells(&ext, "emf") {
            return ImageFormat::Emf;
        }
        if spells(&ext, "wmf") {
            return ImageFormat::Wmf;
        }
        if spells(&ext, "svg") {
            return ImageFormat::Svg;
        }
        let png: [u8; 4] = [0x89, 0x50, 0x4E, 0x47];
        let jpeg: [u8; 3] = [0xFF, 0xD8, 0xFF];
        let gif: [u8; 4] = [0x47, 0x49, 0x46, 0x38];
        let bmp: [u8; 2] = [0x42, 0x4D];
        let tiff_le: [u8; 4] = [0x49, 0x49, 0x2A, 0x00];
        let tiff_be: [u8; 4] = [0x4D, 0x4D, 0x00, 0x2A];
        assert(png@ =~= seq![0x89u8, 0x50u8, 0x4Eu8, 0x47u8]);
        assert(jpeg@ =~= seq![0xFFu8, 0xD8u8, 0xFFu8]);
        assert(gif@ =~= seq![0x47u8, 0x49u8, 0x46u8, 0x38u8]);
        assert(bmp@ =~= seq![0x42u8, 0x4Du8]);
        assert(tiff_le@ =~= seq![0x49u8, 0x49u8, 0x2Au8, 0x00u8]);
        assert(tiff_be@ =~= seq![0x4Du8, 0x4Du8, 0x00u8, 0x2Au8]);
        if starts_with_bytes(data, &png) {
            ImageFormat::Png
        } else if starts_with_bytes(data, &jpeg) {
            ImageFormat::Jpeg
        } else if starts_with_bytes(data, &gif) {
            ImageFormat::Gif
        } else if starts_with_bytes(data, &bmp) {
            ImageFormat::Bmp
        } else if starts_with_bytes(data, &tiff_le) || starts_with_bytes(data, &tiff_be) {
            ImageFormat::Tiff
        } else {
            ImageFormat::Unknown
        }
    }
}

/// An image: its bytes, shared by all that refer to it, and its format.
#[derive(Debug)]
pub struct MediaEntry {
    pub data: Rc<Vec<u8>>,
    pub format: ImageFormat,
}

impl Clone for MediaEntry {
    fn clone(&self) -> (r: Self)
        ensures
            r == *self,
    {
        MediaEntry { data: self.data.clone(), format: self.format }
    }
}

/// What an image holds.
pub struct MediaView {
    pub data: Seq<u8>,
    pub format: ImageFormat,
}

impl View for MediaEntry {
    type V = MediaView;

    open spec fn view(&self) -> MediaView {
        MediaView { data: self.data@, format: self.format }
    }
}

/// The images that a part refers to, by relationship id.
#[derive(Debug)]
pub struct PartMedia {
    entries: Vec<(String, MediaEntry)>,
}

/// What a list of images holds.
pub open spec fn media_views(entries: Seq<(String, MediaEntry)>) -> Seq<(Seq<char>, MediaView)> {
    entries.map_values(|e: (String, MediaEntry)| (e.0@, e.1@))
}

impl View for PartMedia {
    type V = Seq<(Seq<char>, MediaView)>;

    closed spec fn view(&self) -> Seq<(Seq<char>, MediaView)> {
        media_views(self.entries@)
    }
}

/// The image of a relationship id: the one entered last.
pub open spec fn image_at(entries: Seq<(Seq<char>, MediaView)>, id: Seq<char>) -> Option<MediaView>
    decreases entries.len(),
{
    if entries.len() == 0 {
        None
    } else if entries.last().0 == id {
        Some(entries.last().1)
    } else {
        image_at(entries.drop_last(), id)
    }
}

impl PartMedia {
    /// A table without images.
    pub fn new() -> (r: Self)
        ensures
            r@.len() == 0,
    {
        PartMedia { entries: Vec::new() }
    }

    /// Enters the image of a relationship id.
    pub fn insert(&mut self, id: String, entry: MediaEntry)
        ensures
            final(self)@ == old(self)@.push((id@, entry@)),
    {
        let ghost before = self.entries@;
        let ghost more = (id@, entry@);
        self.entries.push((id, entry));
        assert(media_views(self.entries@) =~= media_views(before).push(more));
    }

    /// The image of a relationship id.
    pub fn get(&self, id: &str) -> (r: Option<&MediaEntry>)
        ensures
            (match r {
                Some(e) => Some(e@),
                None => None,
            }) == image_at(self@, id@),
    {
        let ghost all = self@;
        let mut n: usize = self.entries.len();
        assert(all.take(n as int) =~= all);
        while n > 0
            invariant
                all == media_views(self.entries@),
                n <= all.len(),
                image_at(all, id@) == image_at(all.take(n as int), id@),
            decreases n,
        {
            assert(all.take(n as int).last() == all[n - 1]);
            assert(all.take(n as int).drop_last() =~= all.take(n - 1));
            if str_eq(self.entries[n - 1].0.as_str(), id) {
                return Some(&self.entries[n - 1].1);
            }
            n = n - 1;
        }
        None
    }
}

impl Default for PartMedia {
    fn default() -> (r: Self)
        ensures
            r@.len() == 0,
    {
        PartMedia { entries: Vec::new() }
    }
}

} // verus!

use std::io::{Cursor, Write};
use std::rc::Rc;

use liteparse_ooxml::error::ParseError;
use liteparse_ooxml::model::image::ImageFormat;
use liteparse_ooxml::opc::contents::PackageContents;
use liteparse_ooxml::opc::path::{normalize, part_directory, rels_path_for, resolve_target};
use liteparse_ooxml::opc::relationships::{RelationshipType, Relationships, TargetMode};
use liteparse_ooxml::pptx::media::MediaCache;
use liteparse_ooxml::pptx::package::{parse_presentation, walk, PresentationPackage};

const TYPES: &str = "http://schemas.openxmlformats.org/officeDocument/2006/relationships/";

const PNG: &[u8] = &[0x89, b'P', b'N', b'G', 0x0D, 0x0A, 0x1A, 0x0A, 1];
const JPEG: &[u8] = &[0xFF, 0xD8, 0xFF, 0xE0, 2];

/// An archive of entries, each packed.
fn archive(entries: &[(&str, &[u8])]) -> Vec<u8> {
    let mut writer = zip::ZipWriter::new(Cursor::new(Vec::new()));
    for (name, content) in entries {
        writer
            .start_file(*name, zip::write::SimpleFileOptions::default())
            .expect("a new entry");
        writer.write_all(content).expect("written");
    }
    writer.finish().expect("closed").into_inner()
}

fn rels(list: &[(&str, &str, &str)]) -> Vec<u8> {
    let inner: String = list
        .iter()
        .map(|(id, word, target)| {
            format!(r#"<Relationship Id="{id}" Type="{TYPES}{word}" Target="{target}"/>"#)
        })
        .collect();
    format!(
        r#"<Relationships xmlns="http://schemas.openxmlformats.org/package/2006/relationships">{inner}</Relationships>"#
    )
    .into_bytes()
}

const PRESENTATION: &[u8] = br#"<p:presentation xmlns:p="p" xmlns:r="r">
  <p:sldIdLst><p:sldId id="256" r:id="rId3"/><p:sldId id="257" r:id="rId2"/>
    <p:sldId id="258" r:id="rId9"/><p:sldId id="259" r:id="rId8"/></p:sldIdLst>
  <p:sldSz cx="12192000" cy="6858000"/>
</p:presentation>"#;

/// A deck of two slides, the second part first. Two more are listed: one whose
/// part is missing, and one with an id that leads nowhere.
fn deck() -> Vec<u8> {
    let root = rels(&[("rId1", "officeDocument", "deck/Main.xml")]);
    let main = rels(&[
        ("rId2", "slide", "slides/slide1.xml"),
        ("rId3", "slide", "slides/slide2.xml"),
        ("rId8", "slide", "slides/gone.xml"),
        ("rId4", "notesMaster", "notes/master.xml"),
    ]);
    let first = rels(&[
        ("rId1", "slideLayout", "../layouts/layout1.xml"),
        ("rId2", "image", "../media/shared.png"),
        ("rId3", "image", "/deck/media/shared.png"),
        ("rId4", "image", "../media/lost.png"),
        ("rId5", "notesSlide", "../notes/notes1.xml"),
    ]);
    let layout = rels(&[
        ("rId1", "slideMaster", "../masters/master1.xml"),
        ("rId2", "image", "../media/photo.jfif"),
    ]);
    let master = rels(&[
        ("rId1", "theme", "../theme/theme1.xml"),
        ("rId2", "image", "../media/shared.png"),
    ]);
    archive(&[
        ("_rels/.rels", &root),
        ("deck/Main.xml", PRESENTATION),
        ("deck/_rels/Main.xml.rels", &main),
        ("deck/slides/slide1.xml", b"<p:sld>one</p:sld>"),
        ("deck/slides/_rels/slide1.xml.rels", &first),
        ("deck/slides/slide2.xml", b"<p:sld>two</p:sld>"),
        ("deck/layouts/layout1.xml", b"<p:sldLayout/>"),
        ("deck/layouts/_rels/layout1.xml.rels", &layout),
        ("deck/masters/master1.xml", b"<p:sldMaster/>"),
        ("deck/masters/_rels/master1.xml.rels", &master),
        ("deck/theme/theme1.xml", b"<a:theme/>"),
        ("deck/notes/notes1.xml", b"<p:notes/>"),
        ("deck/notes/master.xml", b"<p:notesMaster/>"),
        ("deck/media/shared.png", PNG),
        ("deck/media/photo.jfif", JPEG),
    ])
}

fn opened() -> PresentationPackage {
    walk(&deck()).expect("a deck")
}

#[test]
fn slides_come_in_the_order_of_the_presentation() {
    let d = opened();
    let paths: Vec<&str> = d.slides.iter().map(|s| s.slide.path.as_str()).collect();
    assert_eq!(paths, ["deck/slides/slide2.xml", "deck/slides/slide1.xml"]);
    assert_eq!(d.slides[1].slide.xml, b"<p:sld>one</p:sld>");
    assert_eq!((d.info.slide_width_emu, d.info.slide_height_emu), (12_192_000, 6_858_000));
    assert_eq!((d.info.notes_width_emu, d.info.notes_height_emu), (None, None));
}

#[test]
fn a_slide_is_joined_to_what_it_inherits_from() {
    let d = opened();
    let s = &d.slides[1];
    let path = |p: &Option<liteparse_ooxml::pptx::package::Part>| {
        p.as_ref().map(|x| x.path.clone())
    };
    assert_eq!(path(&s.layout).as_deref(), Some("deck/layouts/layout1.xml"));
    assert_eq!(path(&s.master).as_deref(), Some("deck/masters/master1.xml"));
    assert_eq!(path(&s.notes).as_deref(), Some("deck/notes/notes1.xml"));
    assert_eq!(path(&d.notes_master).as_deref(), Some("deck/notes/master.xml"));
    assert_eq!(d.theme.as_deref(), Some(b"<a:theme/>".as_slice()));
    // The other slide declares nothing, and is read all the same.
    let bare = &d.slides[0];
    assert!(bare.layout.is_none() && bare.master.is_none() && bare.notes.is_none());
    assert!(bare.slide.rels.list.is_empty());
}

#[test]
fn an_id_means_what_its_own_part_declares() {
    let d = opened();
    let s = &d.slides[1];
    assert_eq!(s.slide.resolve_rel("rId2").as_deref(), Some("deck/media/shared.png"));
    let layout = s.layout.as_ref().expect("joined");
    assert_eq!(layout.resolve_rel("rId2").as_deref(), Some("deck/media/photo.jfif"));
    assert_eq!(s.slide.resolve_rel("rId7"), None);
}

#[test]
fn without_root_relationships_the_usual_path_is_tried() {
    let plain = archive(&[("ppt/presentation.xml", b"<p:presentation/>")]);
    let d = walk(&plain).expect("a deck");
    assert!(d.slides.is_empty());
    assert_eq!((d.info.slide_width_emu, d.info.slide_height_emu), (9_144_000, 6_858_000));
}

#[test]
fn a_container_that_is_none_is_refused() {
    assert_eq!(walk(b"no archive").err(), Some(ParseError::Container));
    assert_eq!(walk(b"").err(), Some(ParseError::Container));
    let whole = deck();
    assert_eq!(walk(&whole[..whole.len() / 2]).err(), Some(ParseError::Container));
}

#[test]
fn a_package_without_a_presentation_names_what_is_missing() {
    let other = archive(&[("word/document.xml", b"<w:document/>")]);
    assert_eq!(
        walk(&other).err(),
        Some(ParseError::MissingPart("ppt/presentation.xml".to_string()))
    );
    let root = rels(&[("rId1", "officeDocument", "deck/main.xml")]);
    let astray = archive(&[("_rels/.rels", &root), ("ppt/presentation.xml", PRESENTATION)]);
    assert_eq!(
        walk(&astray).err(),
        Some(ParseError::MissingPart("deck/main.xml".to_string()))
    );
}

#[test]
fn a_presentation_that_is_no_xml_is_malformed() {
    let broken = archive(&[("ppt/presentation.xml", b"<p:presentation><p:sldIdLst></p:sldSz>")]);
    assert_eq!(walk(&broken).err(), Some(ParseError::Malformed));
}

#[test]
fn relationships_that_are_no_xml_cost_one_part_only() {
    let broken = archive(&[
        ("ppt/presentation.xml", PRESENTATION),
        ("ppt/_rels/presentation.xml.rels", b"<Relationships><"),
    ]);
    assert!(walk(&broken).expect("a deck").slides.is_empty());
}

#[test]
fn packed_entries_come_out_as_they_went_in() {
    let long = vec![b'x'; 10_000];
    let bytes = archive(&[("/Word/Media/Long.BIN", &long), ("a.xml", b"a")]);
    assert!(bytes.len() < 1_000);
    let package = PackageContents::from_bytes(&bytes).expect("an archive");
    assert_eq!(package.get_part("word/media/long.bin"), Some(&long));
    assert_eq!(package.get_part("a.xml").map(|b| b.as_slice()), Some(b"a".as_slice()));
    assert_eq!(package.get_part("b.xml"), None);
}

#[test]
fn a_later_entry_takes_the_place_of_an_earlier_one() {
    let package = PackageContents::from_entries(vec![
        ("a.xml".to_string(), vec![1]),
        ("A.xml".to_string(), vec![2]),
    ]);
    assert_eq!(package.get_part("a.xml"), Some(&vec![2]));
}

#[test]
fn targets_are_read_from_the_part_that_names_them() {
    assert_eq!(part_directory("deck/slides/slide1.xml"), "deck/slides");
    assert_eq!(part_directory("slide1.xml"), "");
    assert_eq!(rels_path_for("deck/slides/slide1.xml"), "deck/slides/_rels/slide1.xml.rels");
    assert_eq!(resolve_target("deck/slides", "../media/a.png"), "deck/media/a.png");
    assert_eq!(resolve_target("deck/slides", "/media/a.png"), "media/a.png");
    assert_eq!(normalize("/Deck/Main.XML"), "deck/main.xml");
}

#[test]
fn relationships_keep_their_order_and_their_words() {
    let all = Relationships::parse(
        br#"<Relationships>
          <Relationship Id="a" Type="http://purl.oclc.org/ooxml/officeDocument/relationships/image" Target="x &amp; y.png"/>
          <Relationship Id="b" Type="urn:other" Target="z" TargetMode="External"/>
        </Relationships>"#,
    );
    assert_eq!(all.list.len(), 2);
    assert_eq!(all.list[0].rel_type, RelationshipType::Image);
    assert_eq!(all.list[0].target, "x & y.png");
    assert_eq!(all.list[0].target_mode, TargetMode::Internal);
    let b = all.find_by_id("b").expect("declared");
    assert_eq!((b.rel_type, b.target_mode), (RelationshipType::Other, TargetMode::External));
    assert!(all.find_by_type(RelationshipType::Slide).is_none());
}

#[test]
fn images_are_told_apart_by_the_part_that_shows_them() {
    let d = opened();
    let s = &d.slides[1];
    let layout = s.layout.as_ref().expect("joined");
    let mut cache = MediaCache::new();
    let own = cache.part_media(&d, &s.slide).get("rId2").expect("there").clone();
    let inherited = cache.part_media(&d, layout).get("rId2").expect("there").clone();
    assert_eq!((own.format, own.data.as_slice()), (ImageFormat::Png, PNG));
    assert_eq!((inherited.format, inherited.data.as_slice()), (ImageFormat::Jpeg, JPEG));
}

#[test]
fn the_bytes_of_an_image_are_shared() {
    let d = opened();
    let s = &d.slides[1];
    let master = s.master.as_ref().expect("joined");
    let mut cache = MediaCache::new();
    let table = cache.part_media(&d, &s.slide);
    let first = table.get("rId2").expect("there").data.clone();
    let again = table.get("rId3").expect("there").data.clone();
    let elsewhere = cache.part_media(&d, master).get("rId2").expect("there").data.clone();
    let asked_again = cache.part_media(&d, &s.slide).get("rId2").expect("there").data.clone();
    assert!(Rc::ptr_eq(&first, &again));
    assert!(Rc::ptr_eq(&first, &elsewhere));
    assert!(Rc::ptr_eq(&first, &asked_again));
}

#[test]
fn only_images_of_the_package_are_in_a_table() {
    let d = opened();
    let s = &d.slides[1];
    let mut cache = MediaCache::new();
    let table = cache.part_media(&d, &s.slide);
    assert!(table.get("rId1").is_none());
    assert!(table.get("rId4").is_none());
    assert!(table.get("rId5").is_none());
    assert!(table.get("rId2").is_some());
}

#[test]
fn a_part_that_was_not_seen_shows_nothing() {
    let d = opened();
    let s = &d.slides[1];
    let mut cache = MediaCache::new();
    assert!(cache.get(Some("deck/slides/slide1.xml")).get("rId2").is_none());
    cache.part_media(&d, &s.slide);
    assert!(cache.get(Some("deck/slides/slide1.xml")).get("rId2").is_some());
    assert!(cache.get(Some("deck/masters/master1.xml")).get("rId2").is_none());
    assert!(cache.get(None).get("rId2").is_none());
}

#[test]
fn bytes_that_encode_nothing_are_replaced_in_an_id() {
    let xml = b"<p:presentation><p:sldIdLst><p:sldId r:id=\"r\xFFd\"/></p:sldIdLst></p:presentation>";
    assert_eq!(parse_presentation(xml).expect("read").slide_rel_ids, ["r\u{FFFD}d"]);
}

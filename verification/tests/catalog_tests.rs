use memebot::bitmap::Bitmap;
use memebot::bitmap::decode_image;
use memebot::catalog::EntryPlan;
use memebot::catalog::FontCache;
use memebot::catalog::entry_plan;
use memebot::catalog::find_by_command;
use memebot::catalog::find_default;
use memebot::catalog::make_meme;
use memebot::config::RawEntry;

fn png_bytes(w: u32, h: u32) -> Vec<u8> {
    let img = image::RgbaImage::new(w, h);
    let mut buf = Vec::new();
    image::DynamicImage::ImageRgba8(img).write_to(&mut buf, image::ImageOutputFormat::PNG).unwrap();
    buf
}

fn bitmap(w: u32, h: u32) -> Bitmap {
    decode_image(&png_bytes(w, h)).unwrap()
}

fn empty_raw() -> RawEntry {
    RawEntry {
        filename: None,
        font: None,
        font_size: None,
        left: None,
        top: None,
        right: None,
        bottom: None,
        text_prefix: None,
        text_suffix: None,
        command: None,
        is_default: None,
    }
}

#[test]
fn decoding_records_the_image_dimensions() {
    let b = bitmap(4, 3);
    assert_eq!(b.width, 4);
    assert_eq!(b.height, 3);
}

#[test]
fn garbage_bytes_do_not_decode() {
    assert!(decode_image(&[1, 2, 3, 4]).is_err());
}

#[test]
fn the_center_is_the_midpoint_of_the_region() {
    let mut raw = empty_raw();
    raw.filename = Some("x.png".to_string());
    raw.right = Some(800);
    raw.bottom = Some(400);
    let m = make_meme(raw, bitmap(800, 400), "f.ttf".to_string());
    assert_eq!(m.left, 0);
    assert_eq!(m.top, 0);
    assert_eq!((m.center_x, m.center_y), (400, 200));
}

#[test]
fn absent_fields_take_their_defaults() {
    let m = make_meme(empty_raw(), bitmap(64, 48), "f.ttf".to_string());
    assert_eq!(m.font_size, 12);
    assert_eq!((m.left, m.top, m.right, m.bottom), (0, 0, 64, 48));
    assert_eq!(m.command, "_default");
    assert_eq!(m.text_prefix, "");
    assert_eq!(m.text_suffix, "");
    assert!(!m.is_default);
}

#[test]
fn the_first_entry_sharing_a_command_wins() {
    let mut raw_a = empty_raw();
    raw_a.command = Some("foo".to_string());
    let mut raw_b = empty_raw();
    raw_b.command = Some("foo".to_string());
    raw_b.font_size = Some(99);
    let memes = vec![
        make_meme(raw_a, bitmap(2, 2), "f.ttf".to_string()),
        make_meme(raw_b, bitmap(2, 2), "f.ttf".to_string()),
    ];
    let idx = find_by_command(&memes, "foo").unwrap();
    assert_eq!(idx, 0);
    assert_eq!(memes[idx].font_size, 12);
    assert!(find_by_command(&memes, "bar").is_none());
}

#[test]
fn the_first_default_entry_wins() {
    let mut raw_a = empty_raw();
    raw_a.is_default = Some(true);
    raw_a.command = Some("one".to_string());
    let mut raw_b = empty_raw();
    raw_b.is_default = Some(true);
    raw_b.command = Some("two".to_string());
    let memes = vec![
        make_meme(empty_raw(), bitmap(2, 2), "f.ttf".to_string()),
        make_meme(raw_a, bitmap(2, 2), "f.ttf".to_string()),
        make_meme(raw_b, bitmap(2, 2), "f.ttf".to_string()),
    ];
    assert_eq!(find_default(&memes).unwrap(), 1);
}

#[test]
fn the_midpoint_wraps_like_the_compositor_arithmetic() {
    let mut raw = empty_raw();
    raw.left = Some(u32::MAX);
    raw.right = Some(u32::MAX);
    let m = make_meme(raw, bitmap(2, 2), "f.ttf".to_string());
    assert_eq!(m.center_x, 2147483647);
}

#[test]
fn an_entry_without_a_filename_is_skipped() {
    let plan = entry_plan(&empty_raw(), &FontCache::new());
    assert!(matches!(plan, EntryPlan::SkipNoFilename));
}

#[test]
fn an_entry_without_a_font_is_skipped_when_none_is_loaded() {
    let mut raw = empty_raw();
    raw.filename = Some("x.png".to_string());
    let plan = entry_plan(&raw, &FontCache::new());
    assert!(matches!(plan, EntryPlan::SkipNoFont));
}

#[test]
fn a_named_font_is_kept_and_the_filename_is_trimmed() {
    let mut raw = empty_raw();
    raw.filename = Some("  x.png \n".to_string());
    raw.font = Some(" f.ttf".to_string());
    match entry_plan(&raw, &FontCache::new()) {
        EntryPlan::Load { image_file, font_name, font_fallback } => {
            assert_eq!(image_file, "x.png");
            assert_eq!(font_name, " f.ttf");
            assert!(!font_fallback);
        },
        _ => panic!("expected a load plan"),
    }
}

#[test]
fn font_data_shorter_than_a_tag_is_refused_without_decoding() {
    let mut cache = FontCache::new();
    assert!(cache.load_font("f.ttf".to_string(), vec![0, 1]).is_err());
    assert!(!cache.has_font("f.ttf"));
    assert_eq!(cache.len(), 0);
}

#[test]
fn undecodable_font_bytes_are_not_stored() {
    let mut cache = FontCache::new();
    assert!(!cache.has_font("f.ttf"));
    let r = cache.load_font("f.ttf".to_string(), vec![0, 1, 2, 3]);
    assert!(r.is_err());
    assert!(!cache.has_font("f.ttf"));
    assert_eq!(cache.len(), 0);
}

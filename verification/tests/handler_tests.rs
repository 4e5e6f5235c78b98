use memebot::bitmap::decode_image;
use memebot::bitmap::encode_png;
use memebot::catalog::Catalog;
use memebot::catalog::FontCache;
use memebot::catalog::make_meme;
use memebot::config::RawEntry;
use memebot::handler::Action;
use memebot::handler::MessageInfo;
use memebot::handler::plan_message;
use memebot::session::BotSettings;

fn png_bytes(w: u32, h: u32) -> Vec<u8> {
    let img = image::RgbaImage::new(w, h);
    let mut buf = Vec::new();
    image::DynamicImage::ImageRgba8(img).write_to(&mut buf, image::ImageOutputFormat::PNG).unwrap();
    buf
}

fn raw_with_command(command: &str) -> RawEntry {
    RawEntry {
        filename: Some("x.png".to_string()),
        font: Some("f.ttf".to_string()),
        font_size: None,
        left: None,
        top: None,
        right: None,
        bottom: None,
        text_prefix: None,
        text_suffix: None,
        command: Some(command.to_string()),
        is_default: None,
    }
}

fn message(content: &str) -> MessageInfo {
    MessageInfo {
        content: content.to_string(),
        author_id: 9,
        author_is_bot: false,
        is_direct: false,
        mentions: Vec::new(),
        guild: None,
    }
}

#[test]
fn a_known_trigger_without_fonts_refuses_the_render() {
    let mut s = BotSettings::new(None);
    s.note_ready(1);
    let meme = make_meme(
        raw_with_command("cat"),
        decode_image(&png_bytes(8, 8)).unwrap(),
        "f.ttf".to_string(),
    );
    let catalog = Catalog { fonts: FontCache::new(), memes: vec![meme] };
    let r = plan_message(&mut s, &catalog, &message("<@1> cat hello"));
    assert!(
        matches!(r, Action::Reply(t) if t == "I don't know how to say this...Literally. (No fonts loaded.)")
    );
}

#[test]
fn trigger_matching_ignores_case() {
    let mut s = BotSettings::new(None);
    s.note_ready(1);
    let meme = make_meme(
        raw_with_command("cat"),
        decode_image(&png_bytes(8, 8)).unwrap(),
        "f.ttf".to_string(),
    );
    let catalog = Catalog { fonts: FontCache::new(), memes: vec![meme] };
    let r = plan_message(&mut s, &catalog, &message("<@1> CAT hello"));
    assert!(
        matches!(r, Action::Reply(t) if t == "I don't know how to say this...Literally. (No fonts loaded.)")
    );
}

#[test]
fn an_unknown_trigger_falls_back_to_the_first_default_template() {
    let mut s = BotSettings::new(None);
    s.note_ready(1);
    let named = make_meme(
        raw_with_command("cat"),
        decode_image(&png_bytes(8, 8)).unwrap(),
        "f.ttf".to_string(),
    );
    let mut default_raw = raw_with_command("dog");
    default_raw.is_default = Some(true);
    let fallback = make_meme(
        default_raw,
        decode_image(&png_bytes(8, 8)).unwrap(),
        "f.ttf".to_string(),
    );
    let catalog = Catalog { fonts: FontCache::new(), memes: vec![named, fallback] };
    let r = plan_message(&mut s, &catalog, &message("<@1> nothing here"));
    assert!(
        matches!(r, Action::Reply(t) if t == "I don't know how to say this...Literally. (No fonts loaded.)")
    );
}

#[test]
fn a_decoded_image_survives_a_png_round_trip() {
    let b = decode_image(&png_bytes(5, 7)).unwrap();
    let encoded = encode_png(&b).unwrap();
    let again = decode_image(&encoded).unwrap();
    assert_eq!((again.width, again.height), (5, 7));
}

use font_embed::{Detection, FontError, FontManager};

fn detection(kind: &str, short_name: Option<&str>) -> Detection {
    Detection { kind: kind.to_string(), short_name: short_name.map(str::to_string) }
}

fn decode(text: &str) -> Vec<u8> {
    base64::Engine::decode(&base64::engine::general_purpose::STANDARD, text).unwrap()
}

#[test]
fn the_font_kind_is_a_font() {
    assert!(detection("Font", Some("TTF")).is_font());
    assert!(detection("Font", Some("WOFF2")).is_font());
    assert!(detection("Font", None).is_font());
}

#[test]
fn other_kinds_are_no_font() {
    assert!(!detection("Image", Some("PNG")).is_font());
    assert!(!detection("Other", None).is_font());
    assert!(!detection("font", Some("TTF")).is_font());
    assert!(!detection("", Some("TTF")).is_font());
}

#[test]
fn four_byte_truetype_is_registered_and_rendered() {
    let bytes = [0x00, 0x01, 0x00, 0x00];
    let mut manager = FontManager::new();
    assert_eq!(manager.add_detected(&bytes, &detection("Font", Some("TTF"))), Ok(()));
    assert_eq!(manager.count(), 1);
    assert!(manager.is_renderable());
    assert_eq!(
        manager.style_sheet("f"),
        "@font-face {\n    font-family: 'f';\n    src: url(data:font/ttf;base64,AAEAAA==) format('TTF');\n}\n"
    );
    let (css, family) = manager.generate_style();
    assert_eq!(css.matches("@font-face").count(), 1);
    assert!(css.contains(&format!("font-family: '{}';", family)));
    assert!(css.contains("format('TTF')"));
    assert!(css.contains(";base64,AAEAAA==)"));
    assert_eq!(decode("AAEAAA=="), bytes.to_vec());
}

#[test]
fn a_detected_font_is_added_behind_the_others() {
    let mut manager = FontManager::new();
    manager.add_detected(b"one", &detection("Font", Some("OTF"))).unwrap();
    manager.add_detected(b"two!", &detection("Font", Some("WOFF2"))).unwrap();
    assert_eq!(manager.count(), 2);
    assert_eq!(
        manager.style_sheet("n"),
        "@font-face {\n    font-family: 'n';\n    src: url(data:font/otf;base64,b25l) format('OTF');\n}\n\
         @font-face {\n    font-family: 'n';\n    src: url(data:font/woff2;base64,dHdvIQ==) format('WOFF2');\n}\n"
    );
}

#[test]
fn a_detected_file_of_another_kind_is_refused() {
    let mut manager = FontManager::new();
    manager.add_detected(b"one", &detection("Font", Some("OTF"))).unwrap();
    let before = manager.style_sheet("n");
    assert_eq!(
        manager.add_detected(b"hello", &detection("Other", Some("TXT"))),
        Err(FontError::InvalidFont)
    );
    assert_eq!(
        manager.add_detected(&[0x00, 0x01, 0x00, 0x00], &detection("Image", None)),
        Err(FontError::InvalidFont)
    );
    assert_eq!(manager.count(), 1);
    assert_eq!(manager.style_sheet("n"), before);
}

#[test]
fn a_detected_font_without_short_name_is_added_and_not_renderable() {
    let mut manager = FontManager::new();
    assert!(manager.is_renderable());
    manager.add_detected(b"one", &detection("Font", Some("OTF"))).unwrap();
    assert!(manager.is_renderable());
    assert_eq!(manager.add_detected(b"two", &detection("Font", None)), Ok(()));
    assert_eq!(manager.count(), 2);
    assert!(!manager.is_renderable());
    manager.clear();
    assert!(manager.is_renderable());
}

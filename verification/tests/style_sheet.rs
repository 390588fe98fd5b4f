use font_embed::FontManager;

const TRUETYPE: [u8; 5] = [0x00, 0x01, 0x00, 0x00, 0x00];
const FAMILY_ALPHABET: &str = "123456789abcdefghijkmnopqrstuvwxyzABCDEFGHJKLMNPQRSTUVWXYZ";

/// The base64 texts in `css`, one for each rule, in order.
fn payloads(css: &str) -> Vec<String> {
    let mut found = Vec::new();
    let mut rest = css;
    while let Some(at) = rest.find(";base64,") {
        rest = &rest[at + ";base64,".len()..];
        let end = rest.find(')').unwrap();
        found.push(rest[..end].to_string());
        rest = &rest[end..];
    }
    found
}

fn decode(text: &str) -> Vec<u8> {
    base64::Engine::decode(&base64::engine::general_purpose::STANDARD, text).unwrap()
}

#[test]
fn empty_manager_gives_an_empty_sheet_and_a_name() {
    let (css, family) = FontManager::new().generate_style();
    assert_eq!(css, "");
    assert!(!family.is_empty());
}

#[test]
fn family_name_is_22_characters_of_its_alphabet() {
    let (_, family) = FontManager::new().generate_style();
    assert_eq!(family.chars().count(), 22);
    assert!(family.chars().all(|c| FAMILY_ALPHABET.contains(c)));
}

#[test]
fn one_font_gives_exactly_its_rule() {
    let mut manager = FontManager::new();
    manager.add_font(&TRUETYPE).unwrap();
    assert_eq!(
        manager.style_sheet("Embedded"),
        "@font-face {\n    font-family: 'Embedded';\n    src: url(data:font/ttf;base64,AAEAAAA=) format('TTF');\n}\n"
    );
}

#[test]
fn rules_follow_the_order_of_the_fonts() {
    let mut manager = FontManager::new();
    manager.add_font(b"wOF2").unwrap();
    manager.add_font(&TRUETYPE).unwrap();
    manager.add_font(b"wOFF").unwrap();
    assert_eq!(
        manager.style_sheet("x1"),
        "@font-face {\n    font-family: 'x1';\n    src: url(data:font/woff2;base64,d09GMg==) format('WOFF2');\n}\n\
         @font-face {\n    font-family: 'x1';\n    src: url(data:font/ttf;base64,AAEAAAA=) format('TTF');\n}\n\
         @font-face {\n    font-family: 'x1';\n    src: url(data:font/woff;base64,d09GRg==) format('WOFF');\n}\n"
    );
}

#[test]
fn generated_sheet_is_the_sheet_under_the_generated_name() {
    let mut manager = FontManager::new();
    manager.add_font(b"OTTO\0").unwrap();
    let expected = manager.style_sheet("?");
    let (css, family) = manager.generate_style();
    assert_eq!(css, expected.replace("'?'", &format!("'{}'", family)));
    assert!(css.contains(&format!("font-family: '{}';", family)));
    assert!(css.contains("format('OTF')"));
    assert!(css.contains("url(data:font/otf;base64,T1RUTwA=)"));
}

#[test]
fn two_sheets_of_the_same_fonts_differ_in_the_name_only() {
    let mut first = FontManager::new();
    let mut second = FontManager::new();
    for manager in [&mut first, &mut second] {
        manager.add_font(&TRUETYPE).unwrap();
        manager.add_font(b"wOFF").unwrap();
    }
    let (first_css, first_family) = first.generate_style();
    let (second_css, second_family) = second.generate_style();
    assert_ne!(first_family, second_family);
    assert_ne!(first_css, second_css);
    assert_eq!(first_css.replace(&first_family, &second_family), second_css);
}

#[test]
fn minimal_truetype_round_trip() {
    let mut manager = FontManager::new();
    manager.add_font(&TRUETYPE).unwrap();
    assert_eq!(manager.count(), 1);
    let (css, family) = manager.generate_style();
    assert_eq!(css.matches("@font-face").count(), 1);
    assert!(css.contains(&format!("font-family: '{}';", family)));
    assert!(css.contains("format('TTF')"));
    let found = payloads(&css);
    assert_eq!(found.len(), 1);
    assert_eq!(decode(&found[0]), TRUETYPE.to_vec());
}

#[test]
fn payloads_decode_to_the_registered_bytes() {
    let mut fonts: Vec<Vec<u8>> = Vec::new();
    for extra in 0..7u8 {
        let mut bytes = TRUETYPE.to_vec();
        for i in 0..extra {
            bytes.push(0xF9u8.wrapping_add(i.wrapping_mul(0x3B)));
        }
        fonts.push(bytes);
    }
    fonts.push(b"wOFF\xff\xfe\xfd\x00\x7f".to_vec());
    let mut manager = FontManager::new();
    for bytes in &fonts {
        manager.add_font(bytes).unwrap();
    }
    let (css, _) = manager.generate_style();
    let found = payloads(&css);
    assert_eq!(found.len(), fonts.len());
    for (text, bytes) in found.iter().zip(&fonts) {
        assert_eq!(&decode(text), bytes);
    }
}

#[test]
fn base64_text_of_each_group_length() {
    let cases: [(&[u8], &str); 4] = [
        (b"wOFF", "d09GRg=="),
        (b"wOFFf", "d09GRmY="),
        (b"wOFFfo", "d09GRmZv"),
        (b"wOFF\xfb\xff\xbf", "d09GRvv/vw=="),
    ];
    for (bytes, text) in cases {
        let mut manager = FontManager::new();
        manager.add_font(bytes).unwrap();
        assert_eq!(payloads(&manager.style_sheet("f")), vec![text.to_string()]);
    }
}

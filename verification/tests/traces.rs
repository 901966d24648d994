use aemu::gles_trace::{
    pixel_count, texture_payload_stats, texture_payload_to_rgb, texture_upload_matches,
    TextureUploadMatch, GL_ALPHA, GL_BGRA_EXT, GL_LUMINANCE, GL_LUMINANCE_ALPHA, GL_RGB, GL_RGBA,
    GL_UNSIGNED_BYTE, GL_UNSIGNED_SHORT_4_4_4_4, GL_UNSIGNED_SHORT_5_5_5_1,
    GL_UNSIGNED_SHORT_5_6_5,
};
use aemu::order::comes_before;
use aemu::strings::{equal_folded, same_text, text_contains};
use aemu::text::{dec, hex, hex16, hex32, hex4, signed};

#[test]
fn upload_words_are_trimmed_and_mostly_without_case() {
    let upload = TextureUploadMatch {
        kind: None,
        texture: 0xab,
        width: -1,
        height: 32,
        format: 0x1_2345,
        ty: 0x14,
    };
    for list in [
        "all",
        "nothing, ALL",
        "171",
        "tex171",
        "0XAB",
        "-1X32",
        "FMT12345",
        "ty0014",
        "\u{2003}ty0014\u{3000},x",
    ] {
        assert!(texture_upload_matches(list, upload), "{}", list);
    }
    for list in ["", " , ,", "TEX171", "tex 171", "ab", "0x0ab", "fmt2345", "ty14", "allx"] {
        assert!(!texture_upload_matches(list, upload), "{}", list);
    }
}

#[test]
fn pixels_become_rgb_by_layout() {
    let rgb = |format, ty, payload: &[u8]| texture_payload_to_rgb(1, 1, format, ty, payload);
    assert_eq!(rgb(GL_RGBA, GL_UNSIGNED_BYTE, &[1, 2, 3, 4]), Some(vec![1, 2, 3]));
    assert_eq!(rgb(GL_RGB, GL_UNSIGNED_BYTE, &[1, 2, 3]), Some(vec![1, 2, 3]));
    assert_eq!(rgb(GL_LUMINANCE, GL_UNSIGNED_BYTE, &[9]), Some(vec![9, 9, 9]));
    assert_eq!(rgb(GL_LUMINANCE_ALPHA, GL_UNSIGNED_BYTE, &[9, 1]), Some(vec![9, 9, 9]));
    assert_eq!(
        rgb(GL_RGB, GL_UNSIGNED_SHORT_5_6_5, &[0xe0, 0x07]),
        Some(vec![0, 0xff, 0])
    );
    assert_eq!(
        rgb(GL_RGBA, GL_UNSIGNED_SHORT_4_4_4_4, &[0x21, 0xf3]),
        Some(vec![17, 34, 51])
    );
    assert_eq!(
        rgb(GL_RGBA, GL_UNSIGNED_SHORT_5_5_5_1, &[0x10, 0x7c]),
        Some(vec![0x84, 0, 0xff])
    );
    assert_eq!(rgb(GL_ALPHA, GL_UNSIGNED_SHORT_5_6_5, &[0, 0]), None);
}

#[test]
fn rgb_needs_every_pixel() {
    let payload = [1u8; 12];
    let rgb = texture_payload_to_rgb(2, 2, GL_RGB, GL_UNSIGNED_BYTE, &payload).unwrap();
    assert_eq!(rgb.len(), 12);
    assert_eq!(texture_payload_to_rgb(2, 2, GL_RGB, GL_UNSIGNED_BYTE, &payload[..11]), None);
    assert_eq!(texture_payload_to_rgb(-2, 2, GL_RGB, GL_UNSIGNED_BYTE, &payload), None);
    assert_eq!(
        texture_payload_to_rgb(0, 2, GL_RGB, GL_UNSIGNED_BYTE, &payload),
        Some(Vec::new())
    );
    assert_eq!(pixel_count(3, 5), Some(15));
    assert_eq!(pixel_count(3, -5), None);
}

#[test]
fn visible_pixels_are_counted_by_layout() {
    let stats = |width, format, ty, payload: &[u8]| {
        texture_payload_stats(width, 1, format, ty, payload)
            .map(|s| (s.nonzero_rgb_pixels, s.nonzero_alpha_pixels))
    };
    assert_eq!(stats(2, GL_BGRA_EXT, GL_UNSIGNED_BYTE, &[0, 0, 1, 0, 0, 0, 0, 2]), Some((1, 1)));
    assert_eq!(stats(2, GL_RGB, GL_UNSIGNED_BYTE, &[0, 0, 0, 0, 0, 1]), Some((1, 2)));
    assert_eq!(stats(3, GL_ALPHA, GL_UNSIGNED_BYTE, &[0, 1, 2]), Some((0, 2)));
    assert_eq!(stats(2, GL_LUMINANCE, GL_UNSIGNED_BYTE, &[0, 1, 2]), Some((1, 2)));
    assert_eq!(stats(2, GL_LUMINANCE_ALPHA, GL_UNSIGNED_BYTE, &[0, 1, 2, 0]), Some((1, 1)));
    assert_eq!(stats(9, GL_RGB, GL_UNSIGNED_SHORT_5_6_5, &[0, 0, 1, 0, 7]), Some((1, 2)));
    assert_eq!(stats(2, GL_RGBA, GL_UNSIGNED_SHORT_4_4_4_4, &[0, 0xf0, 1, 0]), Some((1, 1)));
    assert_eq!(stats(2, GL_RGBA, GL_UNSIGNED_SHORT_5_5_5_1, &[1, 0, 2, 0]), Some((1, 1)));
    assert_eq!(stats(1, GL_RGB, 7, &[0, 0]), None);
    assert_eq!(stats(-1, GL_RGB, GL_UNSIGNED_BYTE, &[0, 0]), None);
}

#[test]
fn numbers_have_texts() {
    assert_eq!(dec(0), "0");
    assert_eq!(dec(u64::MAX), "18446744073709551615");
    assert_eq!(hex(0xbeef), "0xbeef");
    assert_eq!(hex(0), "0x0");
    assert_eq!(hex32(0x1f), "0x0000001f");
    assert_eq!(hex16(0x1f), "0x001f");
    assert_eq!(hex4(0x1f), "001f");
    assert_eq!(hex4(0x1_0000), "10000");
    assert_eq!(signed(i32::MIN), "-2147483648");
    assert_eq!(signed(7), "7");
}

#[test]
fn texts_compare_by_character() {
    assert!(same_text("caf\u{e9}", "café"));
    assert!(!same_text("a", "ab"));
    assert!(text_contains("xThumb-2", "Thumb-2"));
    assert!(text_contains("", ""));
    assert!(!text_contains("Thumb", "Thumb-2"));
    assert!(equal_folded(&['A', 'é'], "aé"));
    assert!(!equal_folded(&['É'], "é"));
    assert!(comes_before("", "a"));
    assert!(comes_before("Z", "a"));
    assert!(comes_before("a", "aa"));
    assert!(comes_before("z", "é"));
    assert!(!comes_before("a", "a"));
}

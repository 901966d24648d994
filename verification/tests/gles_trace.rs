use aemu::gles_trace::{
    texture_payload_stats, texture_payload_to_rgb, texture_upload_matches, TextureUploadMatch, GL_ALPHA,
    GL_BGRA_EXT, GL_RGB, GL_RGBA, GL_UNSIGNED_BYTE, GL_UNSIGNED_SHORT_5_6_5,
};

#[test]
fn upload_matcher_accepts_kind_size_texture_and_format_tokens() {
    let upload = TextureUploadMatch {
        kind: Some("texsubimage2d"),
        texture: 325,
        width: 64,
        height: 32,
        format: GL_RGBA,
        ty: GL_UNSIGNED_BYTE,
    };

    assert!(texture_upload_matches("texsubimage2d", upload));
    assert!(texture_upload_matches("64x32", upload));
    assert!(texture_upload_matches("tex325", upload));
    assert!(texture_upload_matches("fmt1908,ty1401", upload));
    assert!(!texture_upload_matches("teximage2d,128x128,tex1", upload));
}

#[test]
fn converts_common_upload_formats_to_rgb() {
    assert_eq!(
        texture_payload_to_rgb(
            1,
            1,
            GL_BGRA_EXT,
            GL_UNSIGNED_BYTE,
            &[0x10, 0x20, 0x30, 0xff]
        )
        .unwrap(),
        vec![0x30, 0x20, 0x10]
    );
    assert_eq!(
        texture_payload_to_rgb(1, 1, GL_RGB, GL_UNSIGNED_SHORT_5_6_5, &[0x00, 0xf8]).unwrap(),
        vec![0xff, 0x00, 0x00]
    );
    assert_eq!(
        texture_payload_to_rgb(2, 1, GL_ALPHA, GL_UNSIGNED_BYTE, &[0x11, 0xee]).unwrap(),
        vec![0x11, 0x11, 0x11, 0xee, 0xee, 0xee]
    );
}

#[test]
fn rejects_short_upload_payloads_for_png_conversion() {
    assert!(texture_payload_to_rgb(2, 1, GL_RGBA, GL_UNSIGNED_BYTE, &[1, 2, 3, 4]).is_none());
}

#[test]
fn counts_nonzero_rgba_pixels() {
    let stats = texture_payload_stats(
        2,
        1,
        GL_RGBA,
        GL_UNSIGNED_BYTE,
        &[0, 0, 0, 0x80, 0x12, 0, 0, 0],
    )
    .unwrap();

    assert_eq!(stats.nonzero_rgb_pixels, 1);
    assert_eq!(stats.nonzero_alpha_pixels, 1);
}

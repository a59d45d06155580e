use capture_engine::pixels::{drop_alpha, expand_rgb_to_rgba, uses_alpha};

#[test]
fn expand_adds_opaque_alpha_after_each_triple() {
    let rgb = vec![1u8, 2, 3, 4, 5, 6];
    assert_eq!(expand_rgb_to_rgba(&rgb), vec![1, 2, 3, 255, 4, 5, 6, 255]);
}

#[test]
fn expand_of_empty_is_empty() {
    assert_eq!(expand_rgb_to_rgba(&vec![]), Vec::<u8>::new());
}

#[test]
fn drop_alpha_keeps_the_colour_bytes() {
    let rgba = vec![1u8, 2, 3, 9, 4, 5, 6, 0];
    assert_eq!(drop_alpha(&rgba), vec![1, 2, 3, 4, 5, 6]);
}

#[test]
fn expand_then_drop_is_identity() {
    let rgb = vec![10u8, 20, 30, 40, 50, 60, 70, 80, 90];
    assert_eq!(drop_alpha(&expand_rgb_to_rgba(&rgb)), rgb);
}

#[test]
fn translucent_coloured_pixel_uses_alpha() {
    // One opaque pixel, one translucent non-white pixel.
    let rgba = vec![0u8, 0, 0, 255, 10, 10, 10, 128];
    assert!(uses_alpha(&rgba));
}

#[test]
fn translucent_white_pixel_does_not_use_alpha() {
    // A translucent pure-white pixel flattens safely.
    let rgba = vec![255u8, 255, 255, 128, 1, 2, 3, 255];
    assert!(!uses_alpha(&rgba));
}

#[test]
fn fully_opaque_buffer_does_not_use_alpha() {
    let rgba = vec![9u8, 8, 7, 255, 255, 255, 255, 255];
    assert!(!uses_alpha(&rgba));
}

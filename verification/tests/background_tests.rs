use bdd_plus::background::{background_from_decoded, background_image, background_size};

// A 2 x 1 RGBA PNG: one opaque red pixel, one half-transparent blue pixel.
const TINY_PNG: [u8; 71] = [
    137, 80, 78, 71, 13, 10, 26, 10, 0, 0, 0, 13, 73, 72, 68, 82, 0, 0, 0, 2, 0, 0, 0, 1, 8, 6, 0,
    0, 0, 244, 34, 127, 138, 0, 0, 0, 14, 73, 68, 65, 84, 120, 156, 99, 248, 207, 192, 0, 66, 13,
    0, 15, 122, 3, 126, 119, 233, 127, 151, 0, 0, 0, 0, 73, 69, 78, 68, 174, 66, 96, 130,
];

#[test]
fn decoded_result_becomes_background() {
    let img = background_from_decoded(Some((2, 1, vec![1, 2, 3, 4, 5, 6, 7, 8]))).unwrap();
    assert_eq!(img.size, [2, 1]);
    assert_eq!(img.rgba, vec![1, 2, 3, 4, 5, 6, 7, 8]);
    assert!(background_from_decoded(None).is_none());
}

#[test]
fn png_is_decoded_to_rgba() {
    let img = background_image(&TINY_PNG).unwrap();
    assert_eq!(img.size, [2, 1]);
    assert_eq!(img.rgba, vec![255, 0, 0, 255, 0, 0, 255, 128]);
}

#[test]
fn png_size() {
    assert_eq!(background_size(&TINY_PNG), Some([2, 1]));
}

#[test]
fn garbage_is_not_a_picture() {
    assert!(background_image(b"not a picture").is_none());
    assert!(background_size(&[]).is_none());
    assert!(background_size(&TINY_PNG[..40]).is_none());
}

#[test]
fn recognised_but_truncated_picture_is_rejected() {
    // Starts with the JPEG signature, so a format is guessed, but no picture follows.
    assert!(background_image(&[0xFF, 0xD8, 0xFF, 0xE0, 0, 0]).is_none());
}

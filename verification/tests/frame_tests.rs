use tinyrenderer::frame::{clear, set_pixel, set_pixel_inverse, ClearColor};

#[test]
fn clear_color_channels() {
    assert_eq!(ClearColor::TransparentBlack.rgba(), [0, 0, 0, 0]);
    assert_eq!(ClearColor::OpaqueBlack.rgba(), [0, 0, 0, 255]);
}

#[test]
fn clear_to_transparent_black_zeroes_every_byte() {
    let mut frame = vec![7u8; 800 * 600 * 4];
    clear(&mut frame, ClearColor::TransparentBlack);
    assert_eq!(&frame[0..4], &[0, 0, 0, 0]);
    assert!(frame.iter().all(|byte| *byte == 0));
}

#[test]
fn clear_to_opaque_black_sets_every_pixel() {
    let mut frame = vec![7u8; 800 * 600 * 4];
    clear(&mut frame, ClearColor::OpaqueBlack);
    assert_eq!(&frame[0..4], &[0, 0, 0, 255]);
    assert_eq!(frame.len(), 800 * 600 * 4);
    for pixel in frame.chunks(4) {
        assert_eq!(pixel, &[0, 0, 0, 255]);
    }
}

#[test]
fn clear_of_an_empty_frame_does_nothing() {
    let mut frame: Vec<u8> = Vec::new();
    clear(&mut frame, ClearColor::OpaqueBlack);
    assert!(frame.is_empty());
}

#[test]
fn clear_covers_a_ragged_tail() {
    let mut frame = vec![9u8; 6];
    clear(&mut frame, ClearColor::OpaqueBlack);
    assert_eq!(frame, vec![0, 0, 0, 255, 0, 0]);
}

#[test]
fn set_pixel_writes_at_the_flipped_row() {
    let mut frame = vec![0u8; 4 * 3 * 4];
    set_pixel(&mut frame, 2, 1, [10, 20, 30, 40], 4, 3);
    // row = 3 - 1 - 1 = 1, offset = (1 * 4 + 2) * 4 = 24
    let mut expected = vec![0u8; 4 * 3 * 4];
    expected[24..28].copy_from_slice(&[10, 20, 30, 40]);
    assert_eq!(frame, expected);
}

#[test]
fn set_pixel_bottom_left_is_the_last_row() {
    let mut frame = vec![0u8; 4 * 3 * 4];
    set_pixel(&mut frame, 0, 0, [1, 2, 3, 4], 4, 3);
    assert_eq!(&frame[32..36], &[1, 2, 3, 4]);
    assert_eq!(frame.iter().filter(|byte| **byte != 0).count(), 4);
}

#[test]
fn set_pixel_top_right_is_the_end_of_the_first_row() {
    let mut frame = vec![0u8; 4 * 3 * 4];
    set_pixel(&mut frame, 3, 2, [1, 2, 3, 4], 4, 3);
    assert_eq!(&frame[12..16], &[1, 2, 3, 4]);
    assert_eq!(frame.iter().filter(|byte| **byte != 0).count(), 4);
}

#[test]
fn set_pixel_reads_back_everywhere() {
    let width: u32 = 5;
    let height: u32 = 4;
    for x in 0..width {
        for y in 0..height {
            let mut frame = vec![0u8; (width * height * 4) as usize];
            set_pixel(&mut frame, x, y, [9, 8, 7, 6], width, height);
            let at = (((height - 1 - y) * width + x) * 4) as usize;
            assert_eq!(&frame[at..at + 4], &[9, 8, 7, 6]);
            assert_eq!(frame.iter().filter(|byte| **byte != 0).count(), 4);
        }
    }
}

#[test]
fn set_pixel_outside_the_frame_changes_nothing() {
    let mut frame = vec![5u8; 800 * 600 * 4];
    let before = frame.clone();
    set_pixel(&mut frame, 900, 10, [1, 2, 3, 4], 800, 600);
    assert_eq!(frame, before);
    set_pixel(&mut frame, 800, 0, [1, 2, 3, 4], 800, 600);
    assert_eq!(frame, before);
    set_pixel(&mut frame, 0, 600, [1, 2, 3, 4], 800, 600);
    assert_eq!(frame, before);
    set_pixel(&mut frame, u32::MAX, u32::MAX, [1, 2, 3, 4], 800, 600);
    assert_eq!(frame, before);
}

#[test]
fn set_pixel_on_an_empty_frame_is_ignored() {
    let mut frame: Vec<u8> = Vec::new();
    set_pixel(&mut frame, 0, 0, [1, 2, 3, 4], 0, 0);
    set_pixel(&mut frame, 0, 0, [1, 2, 3, 4], 0, 7);
    assert!(frame.is_empty());
}

#[test]
fn set_pixel_inverse_exchanges_the_coordinates() {
    let mut inverse = vec![0u8; 4 * 3 * 4];
    set_pixel_inverse(&mut inverse, 1, 2, [10, 20, 30, 40], 4, 3);
    let mut direct = vec![0u8; 4 * 3 * 4];
    set_pixel(&mut direct, 2, 1, [10, 20, 30, 40], 4, 3);
    assert_eq!(inverse, direct);
    assert_eq!(&inverse[24..28], &[10, 20, 30, 40]);
}

#[test]
fn clear_then_read_first_pixel_of_a_full_frame() {
    let mut frame = vec![200u8; 800 * 600 * 4];
    set_pixel(&mut frame, 3, 3, [1, 1, 1, 1], 800, 600);
    clear(&mut frame, ClearColor::OpaqueBlack);
    assert_eq!(&frame[0..4], &ClearColor::OpaqueBlack.rgba());
    clear(&mut frame, ClearColor::TransparentBlack);
    assert_eq!(&frame[0..4], &ClearColor::TransparentBlack.rgba());
}

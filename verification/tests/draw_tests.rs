use tinyrenderer::draw;
use tinyrenderer::frame::set_pixel;

const RED: [u8; 4] = [255, 0, 0, 255];

fn blank(width: u32, height: u32) -> Vec<u8> {
    vec![0u8; (width * height * 4) as usize]
}

fn painted(frame: &[u8], width: u32, height: u32) -> Vec<(u32, u32)> {
    let mut points = Vec::new();
    for x in 0..width {
        for y in 0..height {
            let at = (((height - 1 - y) * width + x) * 4) as usize;
            if frame[at..at + 4] != [0, 0, 0, 0] {
                points.push((x, y));
            }
        }
    }
    points
}

fn with_points(points: &[(u32, u32)], width: u32, height: u32) -> Vec<u8> {
    let mut frame = blank(width, height);
    for (x, y) in points {
        set_pixel(&mut frame, *x, *y, RED, width, height);
    }
    frame
}

#[test]
fn line_touches_its_start_and_not_its_end() {
    let mut frame = blank(800, 600);
    draw::line(&mut frame, 13, 20, 80, 40, RED, 800, 600);
    let start = ((600 - 1 - 20) * 800 + 13) * 4;
    assert_eq!(start, 1852852);
    assert_eq!(&frame[start..start + 4], &RED);
    let end = ((600 - 1 - 40) * 800 + 80) * 4;
    assert_eq!(&frame[end..end + 4], &[0, 0, 0, 0]);
    assert_eq!(painted(&frame, 800, 600).len(), 67);
}

#[test]
fn line_leaves_the_frame_without_harm() {
    let mut frame = blank(800, 600);
    draw::line(&mut frame, 700, 10, 900, 10, RED, 800, 600);
    let points = painted(&frame, 800, 600);
    assert_eq!(points.len(), 100);
    assert!(points.iter().all(|(x, y)| *y == 10 && 700 <= *x && *x < 800));
}

#[test]
fn line_wholly_outside_changes_nothing() {
    let mut frame = vec![3u8; 800 * 600 * 4];
    let before = frame.clone();
    draw::line(&mut frame, 900, 10, 950, 700, RED, 800, 600);
    assert_eq!(frame, before);
}

#[test]
fn shallow_line_steps_along_x() {
    let mut frame = blank(8, 5);
    draw::line(&mut frame, 0, 3, 6, 0, RED, 8, 5);
    let expected = with_points(&[(0, 3), (1, 3), (2, 2), (3, 2), (4, 1), (5, 1)], 8, 5);
    assert_eq!(frame, expected);
}

#[test]
fn steep_line_steps_along_y() {
    let mut frame = blank(10, 10);
    draw::line(&mut frame, 5, 1, 7, 9, RED, 10, 10);
    let expected = with_points(
        &[(5, 1), (5, 2), (5, 3), (6, 4), (6, 5), (6, 6), (6, 7), (7, 8)],
        10,
        10,
    );
    assert_eq!(frame, expected);
}

#[test]
fn diagonal_line_takes_every_step() {
    let mut frame = blank(6, 6);
    draw::line(&mut frame, 1, 1, 5, 5, RED, 6, 6);
    assert_eq!(frame, with_points(&[(1, 1), (2, 2), (3, 3), (4, 4)], 6, 6));
}

#[test]
fn horizontal_and_vertical_lines() {
    let mut frame = blank(6, 6);
    draw::line(&mut frame, 1, 2, 4, 2, RED, 6, 6);
    assert_eq!(frame, with_points(&[(1, 2), (2, 2), (3, 2)], 6, 6));
    let mut frame = blank(6, 6);
    draw::line(&mut frame, 2, 4, 2, 1, RED, 6, 6);
    assert_eq!(frame, with_points(&[(2, 1), (2, 2), (2, 3)], 6, 6));
}

#[test]
fn line_between_equal_points_draws_nothing() {
    let mut frame = blank(6, 6);
    draw::line(&mut frame, 3, 3, 3, 3, RED, 6, 6);
    assert_eq!(frame, blank(6, 6));
}

#[test]
fn line_is_the_same_from_either_end() {
    let ends: [(u32, u32, u32, u32); 6] = [
        (13, 20, 80, 40),
        (0, 3, 6, 0),
        (5, 1, 7, 9),
        (9, 9, 0, 0),
        (2, 7, 2, 0),
        (0, 5, 9, 5),
    ];
    for (x0, y0, x1, y1) in ends {
        let mut forward = blank(100, 50);
        draw::line(&mut forward, x0, y0, x1, y1, RED, 100, 50);
        let mut backward = blank(100, 50);
        draw::line(&mut backward, x1, y1, x0, y0, RED, 100, 50);
        assert_eq!(forward, backward);
    }
}

#[test]
fn line_paints_one_pixel_for_each_step_of_its_longer_side() {
    let mut frame = blank(100, 50);
    draw::line(&mut frame, 3, 40, 90, 2, RED, 100, 50);
    assert_eq!(painted(&frame, 100, 50).len(), 87);
    let mut frame = blank(100, 50);
    draw::line(&mut frame, 30, 1, 20, 49, RED, 100, 50);
    assert_eq!(painted(&frame, 100, 50).len(), 48);
}

#[test]
fn line_stays_within_half_a_pixel() {
    let (x0, y0, x1, y1): (i64, i64, i64, i64) = (3, 40, 90, 2);
    let mut frame = blank(100, 50);
    draw::line(&mut frame, 3, 40, 90, 2, RED, 100, 50);
    for (x, y) in painted(&frame, 100, 50) {
        let cross = (x as i64 - x0) * (y1 - y0) - (y as i64 - y0) * (x1 - x0);
        assert!(2 * cross.abs() <= (x1 - x0).abs());
        assert!(x0 <= x as i64 && (x as i64) < x1);
        assert!(y1 <= y as i64 && y as i64 <= y0);
    }
}

#[test]
fn line_keeps_what_it_does_not_cover() {
    let mut frame = vec![9u8; 8 * 5 * 4];
    draw::line(&mut frame, 0, 3, 6, 0, [1, 2, 3, 4], 8, 5);
    let mut expected = vec![9u8; 8 * 5 * 4];
    for (x, y) in [(0u32, 3u32), (1, 3), (2, 2), (3, 2), (4, 1), (5, 1)] {
        set_pixel(&mut expected, x, y, [1, 2, 3, 4], 8, 5);
    }
    assert_eq!(frame, expected);
}

#[test]
fn line_with_far_apart_ends_stays_in_range() {
    let mut frame = blank(4, 4);
    draw::line(&mut frame, 0, 0, 3_000_000, 3_000_000, RED, 4, 4);
    assert_eq!(frame, with_points(&[(0, 0), (1, 1), (2, 2), (3, 3)], 4, 4));
}

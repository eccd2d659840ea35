use kernel_core::gop::{find_ratio_level, line_advance, line_points, line_start, pixel_offset, select_mode};

#[test]
fn mode_ratio_levels() {
    assert_eq!(find_ratio_level(2520, 1080), Some(0));
    assert_eq!(find_ratio_level(1920, 1080), Some(2));
    assert_eq!(find_ratio_level(1280, 800), Some(3));
    assert_eq!(find_ratio_level(1024, 768), Some(4));
    assert_eq!(find_ratio_level(1000, 999), None);
}

#[test]
fn mode_selection() {
    let modes = vec![(1024, 768), (1920, 1080), (1280, 720), (1000, 999)];
    assert_eq!(select_mode(&modes), Some(1));
    let modes = vec![(800, 600), (1024, 768), (640, 480)];
    assert_eq!(select_mode(&modes), Some(1));
    let modes = vec![(1000, 999), (3, 7)];
    assert_eq!(select_mode(&modes), None);
    let modes = vec![(1600, 900), (1600, 900)];
    assert_eq!(select_mode(&modes), Some(0));
    assert_eq!(select_mode(&vec![]), None);
}

#[test]
fn pixel_location() {
    assert_eq!(pixel_offset(3, 2, 10, 5, 16), Some(35));
    assert_eq!(pixel_offset(10, 2, 10, 5, 16), None);
    assert_eq!(pixel_offset(0, 5, 10, 5, 16), None);
    assert_eq!(pixel_offset(9, 4, 10, 5, 10), Some(49));
    assert_eq!(pixel_offset(7, 1, 8, 2, 4), Some(11));
    assert_eq!(pixel_offset(usize::MAX, 0, usize::MAX, 1, usize::MAX), None);
}

#[test]
fn line_pixels() {
    assert_eq!(line_points(0, 0, 3, 0), vec![(0, 0), (1, 0), (2, 0), (3, 0)]);
    assert_eq!(line_points(0, 0, 0, -2), vec![(0, 0), (0, -1), (0, -2)]);
    assert_eq!(line_points(1, 1, 1, 1), vec![(1, 1)]);
    assert_eq!(line_points(0, 0, 2, 2), vec![(0, 0), (1, 1), (2, 2)]);
    assert_eq!(line_points(0, 0, 4, 2), vec![(0, 0), (1, 1), (2, 1), (3, 2), (4, 2)]);
    let pts = line_points(5, -3, -7, 9);
    assert_eq!(pts[0], (5, -3));
    assert_eq!(*pts.last().unwrap(), (-7, 9));
    for w in pts.windows(2) {
        let dx = (w[1].0 - w[0].0).abs();
        let dy = (w[1].1 - w[0].1).abs();
        assert!(dx <= 1 && dy <= 1 && dx + dy >= 1);
    }
}

#[test]
fn line_pen_walk() {
    let (x0, y0, x1, y1) = (5, -3, -7, 9);
    let mut pen = line_start(x0, y0, x1, y1);
    assert_eq!((pen.x, pen.y, pen.err), (5, -3, 0));
    let mut walked = vec![(pen.x, pen.y)];
    while (pen.x, pen.y) != (x1, y1) {
        pen = line_advance(x0, y0, x1, y1, &pen);
        walked.push((pen.x, pen.y));
    }
    assert_eq!(walked, line_points(x0, y0, x1, y1));
}

#[test]
fn line_pen_far_ends() {
    let far: isize = 1 << 40;
    let pen = line_start(0, 0, far, 2);
    assert_eq!((pen.x, pen.y, pen.err), (0, 0, far - 2));
    let next = line_advance(0, 0, far, 2, &pen);
    assert_eq!((next.x, next.y), (1, 0));
    assert_eq!(next.err, far - 4);
}

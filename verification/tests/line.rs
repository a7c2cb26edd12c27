use canvas::line::on_line;
use canvas::{Canvas, Color, Pixel};

const INK: u32 = 0xFFFF_FFFF;

fn floor_div(a: i128, b: i128) -> i128 {
    let q = a / b;
    if a % b != 0 && ((a < 0) != (b < 0)) {
        q - 1
    } else {
        q
    }
}

fn round_half_up(num: i128, den: i128) -> i128 {
    floor_div(2 * num + den, 2 * den)
}

fn expected_on_line(start: Pixel, end: Pixel, pixel: Pixel) -> bool {
    let (sx, sy, ex, ey) = (start.x as i128, start.y as i128, end.x as i128, end.y as i128);
    let (x, y) = (pixel.x as i128, pixel.y as i128);
    if start == end {
        return pixel == start;
    }
    if (ex - sx).abs() >= (ey - sy).abs() {
        let (lx, ly, rx, ry) = if sx <= ex { (sx, sy, ex, ey) } else { (ex, ey, sx, sy) };
        lx <= x && x <= rx && y == ly + round_half_up((x - lx) * (ry - ly), rx - lx)
    } else {
        let (lx, ly, rx, ry) = if sy <= ey { (sx, sy, ex, ey) } else { (ex, ey, sx, sy) };
        ly <= y && y <= ry && x == lx + round_half_up((y - ly) * (rx - lx), ry - ly)
    }
}

fn drawn(width: usize, height: usize, x1: usize, y1: usize, x2: usize, y2: usize) -> Vec<u32> {
    let mut canvas = Canvas::new(width, height);
    canvas.draw_line(x1, y1, x2, y2);
    canvas.get_pixels_ptr().to_vec()
}

#[test]
fn line_is_drawn_in_opaque_white() {
    let mut canvas = Canvas::new(2, 1);
    canvas.draw_line(0, 0, 0, 0);
    assert_eq!(canvas.get_pixels_ptr(), &[0xFFFF_FFFF, 0][..]);
    assert_eq!(Color::new(255, 255, 255).as_u32(), INK);
}

#[test]
fn line_with_a_color_is_drawn_in_it() {
    let mut canvas = Canvas::new(3, 1);
    canvas.draw_line_with(Pixel::new(0, 0), Pixel::new(1, 0), Color::new(1, 2, 3));
    assert_eq!(canvas.get_pixels_ptr(), &[0xFF01_0203, 0xFF01_0203, 0][..]);
}

#[test]
fn line_between_equal_end_points_is_one_pixel() {
    let e = INK;
    assert_eq!(drawn(3, 3, 1, 2, 1, 2), vec![0, 0, 0, 0, 0, 0, 0, e, 0]);
}

#[test]
fn horizontal_line() {
    let e = INK;
    let expected = vec![
        0, 0, 0, 0, 0, //
        0, e, e, e, 0, //
        0, 0, 0, 0, 0, //
    ];
    assert_eq!(drawn(5, 3, 1, 1, 3, 1), expected);
    assert_eq!(drawn(5, 3, 3, 1, 1, 1), expected);
}

#[test]
fn vertical_line() {
    let e = INK;
    let expected = vec![
        0, 0, 0, //
        0, e, 0, //
        0, e, 0, //
        0, e, 0, //
        0, 0, 0, //
    ];
    assert_eq!(drawn(3, 5, 1, 1, 1, 3), expected);
    assert_eq!(drawn(3, 5, 1, 3, 1, 1), expected);
}

#[test]
fn diagonal_lines() {
    let e = INK;
    let falling = vec![
        e, 0, 0, 0, //
        0, e, 0, 0, //
        0, 0, e, 0, //
        0, 0, 0, e, //
    ];
    assert_eq!(drawn(4, 4, 0, 0, 3, 3), falling);
    assert_eq!(drawn(4, 4, 3, 3, 0, 0), falling);
    let rising = vec![
        0, 0, 0, e, //
        0, 0, e, 0, //
        0, e, 0, 0, //
        e, 0, 0, 0, //
    ];
    assert_eq!(drawn(4, 4, 0, 3, 3, 0), rising);
    assert_eq!(drawn(4, 4, 3, 0, 0, 3), rising);
}

#[test]
fn shallow_line_rounds_halves_to_the_larger_row() {
    let e = INK;
    let expected = vec![
        e, 0, 0, 0, 0, //
        0, e, e, 0, 0, //
        0, 0, 0, e, e, //
    ];
    assert_eq!(drawn(5, 3, 0, 0, 4, 2), expected);
    assert_eq!(drawn(5, 3, 4, 2, 0, 0), expected);
}

#[test]
fn shallow_line_towards_smaller_rows_rounds_halves_to_the_larger_row() {
    let e = INK;
    let expected = vec![
        0, 0, 0, 0, e, //
        0, 0, e, e, 0, //
        e, e, 0, 0, 0, //
    ];
    assert_eq!(drawn(5, 3, 0, 2, 4, 0), expected);
    assert_eq!(drawn(5, 3, 4, 0, 0, 2), expected);
}

#[test]
fn steep_line_rounds_halves_to_the_larger_column() {
    let e = INK;
    let expected = vec![
        e, 0, 0, //
        0, e, 0, //
        0, e, 0, //
        0, 0, e, //
        0, 0, e, //
    ];
    assert_eq!(drawn(3, 5, 0, 0, 2, 4), expected);
    assert_eq!(drawn(3, 5, 2, 4, 0, 0), expected);
}

#[test]
fn line_of_slope_one_third() {
    let e = INK;
    let expected = vec![
        e, e, 0, 0, 0, 0, 0, //
        0, 0, e, e, e, 0, 0, //
        0, 0, 0, 0, 0, e, e, //
    ];
    assert_eq!(drawn(7, 3, 0, 0, 6, 2), expected);
}

#[test]
fn line_beyond_the_canvas_is_clipped() {
    let e = INK;
    let expected = vec![
        e, 0, 0, //
        0, e, 0, //
        0, 0, e, //
    ];
    assert_eq!(drawn(3, 3, 0, 0, 10, 10), expected);
    let row = vec![
        0, 0, 0, //
        e, e, e, //
        0, 0, 0, //
    ];
    assert_eq!(drawn(3, 3, 0, 1, 1000, 1), row);
    assert_eq!(drawn(3, 3, 0, 1, usize::MAX, 1), row);
}

#[test]
fn line_outside_the_canvas_paints_nothing() {
    assert_eq!(drawn(3, 3, 5, 5, 9, 7), vec![0u32; 9]);
    assert_eq!(drawn(3, 3, 3, 0, 3, 2), vec![0u32; 9]);
    assert_eq!(drawn(3, 3, usize::MAX, usize::MAX, usize::MAX, 3), vec![0u32; 9]);
    assert_eq!(drawn(0, 0, 0, 0, 1, 1), Vec::<u32>::new());
}

#[test]
fn line_leaves_other_pixels_untouched() {
    let mut canvas = Canvas::new(4, 4);
    canvas.fill(Color::new(1, 2, 3));
    canvas.draw_line_with(Pixel::new(0, 0), Pixel::new(3, 0), Color::new(4, 5, 6));
    let a = 0xFF04_0506;
    let b = 0xFF01_0203;
    assert_eq!(canvas.get_pixels_ptr(), &[a, a, a, a, b, b, b, b, b, b, b, b, b, b, b, b][..]);
}

#[test]
fn line_has_its_end_points() {
    for &(x1, y1, x2, y2) in
        [(0usize, 0usize, 6usize, 4usize), (6, 0, 0, 5), (2, 5, 3, 0), (1, 1, 1, 1), (5, 3, 0, 3)].iter()
    {
        let start = Pixel::new(x1, y1);
        let end = Pixel::new(x2, y2);
        assert!(on_line(start, end, start));
        assert!(on_line(start, end, end));
    }
}

#[test]
fn line_follows_the_rounding_rule_everywhere() {
    let ends = [0usize, 1, 2, 3, 5, 8];
    for &x1 in ends.iter() {
        for &y1 in ends.iter() {
            for &x2 in ends.iter() {
                for &y2 in ends.iter() {
                    let start = Pixel::new(x1, y1);
                    let end = Pixel::new(x2, y2);
                    for y in 0..10usize {
                        for x in 0..10usize {
                            let pixel = Pixel::new(x, y);
                            assert_eq!(
                                on_line(start, end, pixel),
                                expected_on_line(start, end, pixel),
                                "line ({}, {})-({}, {}) at ({}, {})",
                                x1,
                                y1,
                                x2,
                                y2,
                                x,
                                y
                            );
                            assert_eq!(on_line(start, end, pixel), on_line(end, start, pixel));
                        }
                    }
                }
            }
        }
    }
}

#[test]
fn drawn_line_is_the_rule_on_every_pixel() {
    for &(x1, y1, x2, y2) in
        [(0usize, 0usize, 8usize, 3usize), (8, 1, 0, 6), (2, 6, 4, 0), (7, 7, 7, 7), (0, 9, 12, 2)].iter()
    {
        let mut canvas = Canvas::new(9, 7);
        canvas.fill(Color::new(0, 0, 0));
        canvas.draw_line(x1, y1, x2, y2);
        for y in 0..7usize {
            for x in 0..9usize {
                let pixel = Pixel::new(x, y);
                let covered = expected_on_line(Pixel::new(x1, y1), Pixel::new(x2, y2), pixel);
                let expected = if covered { INK } else { 0xFF00_0000 };
                assert_eq!(canvas.get_pixel(pixel), Ok(&expected));
            }
        }
    }
}

#[test]
fn line_has_one_pixel_for_each_step_of_its_major_axis() {
    let start = Pixel::new(2, 9);
    let end = Pixel::new(13, 4);
    for x in 2..14usize {
        let count = (0..20usize).filter(|&y| on_line(start, end, Pixel::new(x, y))).count();
        assert_eq!(count, 1);
    }
    for y in 0..20usize {
        assert!(!on_line(start, end, Pixel::new(1, y)));
        assert!(!on_line(start, end, Pixel::new(14, y)));
    }
}

#[test]
fn line_with_the_largest_coordinates_is_exact() {
    let max = usize::MAX;
    let origin = Pixel::new(0, 0);
    let corner = Pixel::new(max, max);
    assert!(on_line(origin, corner, Pixel::new(5, 5)));
    assert!(on_line(origin, corner, Pixel::new(max - 1, max - 1)));
    assert!(!on_line(origin, corner, Pixel::new(5, 6)));
    assert!(!on_line(origin, corner, Pixel::new(max, max - 1)));
    let flat = Pixel::new(max, 1);
    let half = max / 2;
    assert!(on_line(origin, flat, Pixel::new(half, 0)));
    assert!(on_line(origin, flat, Pixel::new(half + 1, 1)));
    assert!(!on_line(origin, flat, Pixel::new(half, 1)));
    assert!(!on_line(origin, flat, Pixel::new(half + 1, 0)));
    let back = Pixel::new(0, max);
    let down = Pixel::new(max, 0);
    assert!(on_line(back, down, Pixel::new(1, max - 1)));
    assert!(!on_line(back, down, Pixel::new(1, max)));
}

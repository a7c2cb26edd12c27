//! The rule that says which pixels make up a straight line.
//!
//! A line runs between two end points. Its major axis is the axis on which the
//! end points lie further apart (the horizontal one when both distances are
//! equal). The line has exactly one pixel for each coordinate of the major
//! axis between the end points: the one whose other coordinate is that of the
//! exact line there, rounded to the nearest integer, and to the larger one
//! when the exact line passes half-way between two pixels. The rule is
//! integer-only and does not depend on the order of the end points.

use vstd::prelude::*;
use crate::arith::{axis_distance, distance, lemma_round_half_up, round_half_up, wide_product};
use crate::pixel::Pixel;

verus! {

/// The minor coordinate of the line from `(l_major, l_minor)` to
/// `(r_major, r_minor)` at the major coordinate `major`: the exact value
/// `l_minor + (major - l_major) * (r_minor - l_minor) / (r_major - l_major)`,
/// rounded. Meant for `l_major < r_major`.
pub open spec fn line_minor_at(
    l_major: int,
    l_minor: int,
    r_major: int,
    r_minor: int,
    major: int,
) -> int {
    l_minor + round_half_up((major - l_major) * (r_minor - l_minor), r_major - l_major)
}

/// Whether the point `(major, minor)` belongs to the line from
/// `(l_major, l_minor)` to `(r_major, r_minor)`, whose major coordinates
/// increase from the first end point to the second.
pub open spec fn on_axis_line(
    l_major: int,
    l_minor: int,
    r_major: int,
    r_minor: int,
    major: int,
    minor: int,
) -> bool {
    l_major <= major <= r_major && minor == line_minor_at(l_major, l_minor, r_major, r_minor, major)
}

/// Whether `pixel` belongs to the line between `start` and `end`.
pub open spec fn spec_on_line(start: Pixel, end: Pixel, pixel: Pixel) -> bool {
    let dx = distance(start.x as int, end.x as int);
    let dy = distance(start.y as int, end.y as int);
    if start == end {
        pixel == start
    } else if dx >= dy {
        if start.x <= end.x {
            on_axis_line(
                start.x as int,
                start.y as int,
                end.x as int,
                end.y as int,
                pixel.x as int,
                pixel.y as int,
            )
        } else {
            on_axis_line(
                end.x as int,
                end.y as int,
                start.x as int,
                start.y as int,
                pixel.x as int,
                pixel.y as int,
            )
        }
    } else {
        if start.y <= end.y {
            on_axis_line(
                start.y as int,
                start.x as int,
                end.y as int,
                end.x as int,
                pixel.y as int,
                pixel.x as int,
            )
        } else {
            on_axis_line(
                end.y as int,
                end.x as int,
                start.y as int,
                start.x as int,
                pixel.y as int,
                pixel.x as int,
            )
        }
    }
}

/// Whether the point `(major, minor)` belongs to the line from
/// `(l_major, l_minor)` to `(r_major, r_minor)`.
fn on_axis(
    l_major: usize,
    l_minor: usize,
    r_major: usize,
    r_minor: usize,
    major: usize,
    minor: usize,
) -> (covered: bool)
    requires
        l_major < r_major,
    ensures
        covered == on_axis_line(
            l_major as int,
            l_minor as int,
            r_major as int,
            r_minor as int,
            major as int,
            minor as int,
        ),
{
    if major < l_major || major > r_major {
        return false;
    }
    let den = r_major - l_major;
    let step = major - l_major;
    let ghost num = (major - l_major) * (r_minor - l_minor);
    let ghost offset = minor - l_minor;
    proof {
        lemma_round_half_up(num, den as int, offset);
    }
    if r_minor >= l_minor {
        // The line rises: it has no pixel below its first end point.
        if minor < l_minor {
            assert(2 * (num - den * offset) >= den) by (nonlinear_arith)
                requires
                    num == (major - l_major) * (r_minor - l_minor),
                    major >= l_major,
                    r_minor >= l_minor,
                    offset <= -1,
                    den > 0,
            ;
            return false;
        }
        let exact = wide_product(step, r_minor - l_minor);
        let taken = wide_product(den, minor - l_minor);
        if exact >= taken {
            exact - taken <= ((den - 1) / 2) as u128
        } else {
            taken - exact <= (den / 2) as u128
        }
    } else {
        // The line falls: it has no pixel above its first end point.
        if minor > l_minor {
            assert(2 * (num - den * offset) < -den) by (nonlinear_arith)
                requires
                    num == (major - l_major) * (r_minor - l_minor),
                    major >= l_major,
                    r_minor < l_minor,
                    offset >= 1,
                    den > 0,
            ;
            return false;
        }
        let exact = wide_product(step, l_minor - r_minor);
        let taken = wide_product(den, l_minor - minor);
        assert(num == -exact && den * offset == -taken) by (nonlinear_arith)
            requires
                num == (major - l_major) * (r_minor - l_minor),
                exact == (major - l_major) * (l_minor - r_minor),
                offset == minor - l_minor,
                taken == den * (l_minor - minor),
        ;
        if taken >= exact {
            taken - exact <= ((den - 1) / 2) as u128
        } else {
            exact - taken <= (den / 2) as u128
        }
    }
}

/// Whether `pixel` belongs to the line between `start` and `end`.
#[verifier::when_used_as_spec(spec_on_line)]
pub fn on_line(start: Pixel, end: Pixel, pixel: Pixel) -> (covered: bool)
    ensures
        covered == spec_on_line(start, end, pixel),
{
    if start.x == end.x && start.y == end.y {
        return pixel.x == start.x && pixel.y == start.y;
    }
    let dx = axis_distance(start.x, end.x);
    let dy = axis_distance(start.y, end.y);
    if dx >= dy {
        if start.x <= end.x {
            on_axis(start.x, start.y, end.x, end.y, pixel.x, pixel.y)
        } else {
            on_axis(end.x, end.y, start.x, start.y, pixel.x, pixel.y)
        }
    } else {
        if start.y <= end.y {
            on_axis(start.y, start.x, end.y, end.x, pixel.y, pixel.x)
        } else {
            on_axis(end.y, end.x, start.y, start.x, pixel.y, pixel.x)
        }
    }
}

/// Both end points of a line belong to it.
pub proof fn lemma_on_line_end_points(start: Pixel, end: Pixel)
    ensures
        spec_on_line(start, end, start),
        spec_on_line(start, end, end),
{
    let (sx, sy, ex, ey) = (start.x as int, start.y as int, end.x as int, end.y as int);
    if sx < ex {
        lemma_on_axis_line_end_points(sx, sy, ex, ey);
    }
    if ex < sx {
        lemma_on_axis_line_end_points(ex, ey, sx, sy);
    }
    if sy < ey {
        lemma_on_axis_line_end_points(sy, sx, ey, ex);
    }
    if ey < sy {
        lemma_on_axis_line_end_points(ey, ex, sy, sx);
    }
}

/// A line is the same set of pixels whichever end point is named first.
pub proof fn lemma_on_line_symmetric(start: Pixel, end: Pixel, pixel: Pixel)
    ensures
        spec_on_line(start, end, pixel) == spec_on_line(end, start, pixel),
{
}

/// A line between two end points of one row is the part of that row between
/// them, and a line between two end points of one column the part of that
/// column between them.
pub proof fn lemma_on_line_axis_parallel(start: Pixel, end: Pixel, pixel: Pixel)
    ensures
        start.y == end.y ==> (spec_on_line(start, end, pixel) <==> pixel.y == start.y && (start.x
            <= pixel.x <= end.x || end.x <= pixel.x <= start.x)),
        start.x == end.x ==> (spec_on_line(start, end, pixel) <==> pixel.x == start.x && (start.y
            <= pixel.y <= end.y || end.y <= pixel.y <= start.y)),
{
    let (sx, sy, ex, ey) = (start.x as int, start.y as int, end.x as int, end.y as int);
    let (x, y) = (pixel.x as int, pixel.y as int);
    if start != end {
        if sy == ey {
            if sx <= ex {
                lemma_line_minor_at_level(sx, sy, ex, x);
            } else {
                lemma_line_minor_at_level(ex, sy, sx, x);
            }
        }
        if sx == ex {
            if sy <= ey {
                lemma_line_minor_at_level(sy, sx, ey, y);
            } else {
                lemma_line_minor_at_level(ey, sx, sy, y);
            }
        }
    }
}

/// No pixel of a line lies outside the rectangle that its end points span.
pub proof fn lemma_on_line_between_end_points(start: Pixel, end: Pixel, pixel: Pixel)
    requires
        spec_on_line(start, end, pixel),
    ensures
        start.x <= pixel.x <= end.x || end.x <= pixel.x <= start.x,
        start.y <= pixel.y <= end.y || end.y <= pixel.y <= start.y,
{
    let (sx, sy, ex, ey) = (start.x as int, start.y as int, end.x as int, end.y as int);
    let (x, y) = (pixel.x as int, pixel.y as int);
    if start != end {
        if distance(sx, ex) >= distance(sy, ey) {
            if sx <= ex {
                lemma_line_minor_at_between(sx, sy, ex, ey, x);
            } else {
                lemma_line_minor_at_between(ex, ey, sx, sy, x);
            }
        } else {
            if sy <= ey {
                lemma_line_minor_at_between(sy, sx, ey, ex, y);
            } else {
                lemma_line_minor_at_between(ey, ex, sy, sx, y);
            }
        }
    }
}

/// The two end points of a line along one axis belong to it.
proof fn lemma_on_axis_line_end_points(l_major: int, l_minor: int, r_major: int, r_minor: int)
    requires
        l_major < r_major,
    ensures
        on_axis_line(l_major, l_minor, r_major, r_minor, l_major, l_minor),
        on_axis_line(l_major, l_minor, r_major, r_minor, r_major, r_minor),
{
    let den = r_major - l_major;
    let rise = r_minor - l_minor;
    assert((l_major - l_major) * rise == 0) by (nonlinear_arith);
    lemma_round_half_up(0, den, 0);
    assert(den * 0 == 0) by (nonlinear_arith);
    lemma_round_half_up(den * rise, den, rise);
}

/// A line whose end points have the same minor coordinate keeps it all along.
proof fn lemma_line_minor_at_level(l_major: int, minor: int, r_major: int, major: int)
    requires
        l_major < r_major,
    ensures
        line_minor_at(l_major, minor, r_major, minor, major) == minor,
{
    let den = r_major - l_major;
    assert((major - l_major) * (minor - minor) == 0) by (nonlinear_arith);
    assert(den * 0 == 0) by (nonlinear_arith);
    lemma_round_half_up(0, den, 0);
}

/// Between its end points, a line stays between their minor coordinates.
proof fn lemma_line_minor_at_between(
    l_major: int,
    l_minor: int,
    r_major: int,
    r_minor: int,
    major: int,
)
    requires
        l_major < r_major,
        l_major <= major <= r_major,
    ensures
        l_minor <= line_minor_at(l_major, l_minor, r_major, r_minor, major) <= r_minor || r_minor
            <= line_minor_at(l_major, l_minor, r_major, r_minor, major) <= l_minor,
{
    let den = r_major - l_major;
    let step = major - l_major;
    let rise = r_minor - l_minor;
    let num = step * rise;
    let value = round_half_up(num, den);
    lemma_round_half_up(num, den, value);
    if rise >= 0 {
        assert(0 <= value <= rise) by (nonlinear_arith)
            requires
                -den <= 2 * (num - den * value) < den,
                num == step * rise,
                0 <= step <= den,
                0 < den,
                0 <= rise,
        ;
    } else {
        assert(rise <= value <= 0) by (nonlinear_arith)
            requires
                -den <= 2 * (num - den * value) < den,
                num == step * rise,
                0 <= step <= den,
                0 < den,
                rise < 0,
        ;
    }
}

} // verus!

//! Straight lines, drawn with whole-number arithmetic alone.

use crate::frame::{
    byte_x, byte_y, frame_len, in_bounds, lemma_byte_of_pixel, lemma_pixel_offset_bounds,
    lemma_put_pixel_bytes, pixel_at, pixel_offset, set_pixel, set_pixel_inverse,
};
use vstd::arithmetic::div_mod::{lemma_fundamental_div_mod, lemma_mod_bound};
use vstd::prelude::*;
use vstd::set_lib::{lemma_int_range, lemma_map_size, set_int_range};

verus! {

/// Twice the distance, along `b`, from the straight line through `(a0, b0)`
/// and `(a1, b1)` to the point `(a, b)`, in units of `1 / (a1 - a0)`. It is
/// positive where the point lies on the side of `b0`.
pub open spec fn lean(a0: int, b0: int, a1: int, b1: int, a: int, b: int) -> int {
    2 * ((a - a0) * (b1 - b0) - (a1 - a0) * (b - b0))
}

/// Whether, at `a`, `b` is the whole coordinate nearest to the straight line
/// from `(a0, b0)` to `(a1, b1)`: no more than half a step off it and, where
/// two are equally near, the one on the side of `b0`.
pub open spec fn nearest(a0: int, b0: int, a1: int, b1: int, a: int, b: int) -> bool {
    let run = a1 - a0;
    if b0 <= b1 {
        -run < lean(a0, b0, a1, b1, a, b) <= run
    } else {
        -run <= lean(a0, b0, a1, b1, a, b) < run
    }
}

/// Whether a line stepped along `a` from `a0` up to, but not including, `a1`
/// covers `(a, b)`.
pub open spec fn on_run(a0: int, b0: int, a1: int, b1: int, a: int, b: int) -> bool {
    a0 <= a < a1 && nearest(a0, b0, a1, b1, a, b)
}

/// The distance between two coordinates.
pub open spec fn extent(from: int, to: int) -> int {
    if from <= to {
        to - from
    } else {
        from - to
    }
}

/// Whether the line between the two points is taller than it is wide.
pub open spec fn is_steep(x0: int, y0: int, x1: int, y1: int) -> bool {
    extent(x0, x1) < extent(y0, y1)
}

/// Whether [`line`] between `(x0, y0)` and `(x1, y1)` covers `(x, y)`.
///
/// The line is stepped along the axis on which it is longer, from the lower
/// end to the upper end, which itself is left out. At every step it covers the
/// one pixel nearest to the straight line between the two points.
pub open spec fn on_line(x0: int, y0: int, x1: int, y1: int, x: int, y: int) -> bool {
    if is_steep(x0, y0, x1, y1) {
        if y0 <= y1 {
            on_run(y0, x0, y1, x1, y, x)
        } else {
            on_run(y1, x1, y0, x0, y, x)
        }
    } else {
        if x0 <= x1 {
            on_run(x0, y0, x1, y1, x, y)
        } else {
            on_run(x1, y1, x0, y0, x, y)
        }
    }
}

/// The frame with every pixel that [`on_line`] names set to `rgba`.
pub open spec fn draw_line(
    frame: Seq<u8>,
    x0: int,
    y0: int,
    x1: int,
    y1: int,
    rgba: Seq<u8>,
    width: int,
    height: int,
) -> Seq<u8> {
    Seq::new(
        frame.len(),
        |i: int|
            if on_line(x0, y0, x1, y1, byte_x(i, width), byte_y(i, width, height)) {
                rgba[i % 4]
            } else {
                frame[i]
            },
    )
}

/// The frame with the pixels of a run set to `rgba` as far as the run has come
/// when its next step is `next`. With `steep`, the run's `a` is the frame's
/// `y`.
spec fn draw_run(
    frame: Seq<u8>,
    steep: bool,
    a0: int,
    b0: int,
    a1: int,
    b1: int,
    next: int,
    rgba: Seq<u8>,
    width: int,
    height: int,
) -> Seq<u8> {
    Seq::new(
        frame.len(),
        |i: int|
            {
                let a = if steep {
                    byte_y(i, width, height)
                } else {
                    byte_x(i, width)
                };
                let b = if steep {
                    byte_x(i, width)
                } else {
                    byte_y(i, width, height)
                };
                if a0 <= a < next && nearest(a0, b0, a1, b1, a, b) {
                    rgba[i % 4]
                } else {
                    frame[i]
                }
            },
    )
}

/// How [`lean`] changes with one step along either axis.
proof fn lemma_lean_step(a0: int, b0: int, a1: int, b1: int, a: int, b: int)
    ensures
        lean(a0, b0, a1, b1, a + 1, b) == lean(a0, b0, a1, b1, a, b) + 2 * (b1 - b0),
        lean(a0, b0, a1, b1, a, b + 1) == lean(a0, b0, a1, b1, a, b) - 2 * (a1 - a0),
        lean(a0, b0, a1, b1, a, b - 1) == lean(a0, b0, a1, b1, a, b) + 2 * (a1 - a0),
{
    let run = a1 - a0;
    let rise = b1 - b0;
    assert((a + 1 - a0) * rise == (a - a0) * rise + rise) by (nonlinear_arith);
    assert(run * (b + 1 - b0) == run * (b - b0) + run) by (nonlinear_arith);
    assert(run * (b - 1 - b0) == run * (b - b0) - run) by (nonlinear_arith);
}

/// At each step of a run there is no more than one nearest coordinate.
pub proof fn lemma_nearest_unique(a0: int, b0: int, a1: int, b1: int, a: int, b: int, c: int)
    requires
        a0 < a1,
        nearest(a0, b0, a1, b1, a, b),
        nearest(a0, b0, a1, b1, a, c),
    ensures
        b == c,
{
    let run = a1 - a0;
    let d = b - c;
    assert(lean(a0, b0, a1, b1, a, c) - lean(a0, b0, a1, b1, a, b) == 2 * (run * d))
        by (nonlinear_arith)
        requires
            d == b - c,
            run == a1 - a0,
    ;
    assert(d == 0) by (nonlinear_arith)
        requires
            0 < run,
            -2 * run < 2 * (run * d) < 2 * run,
    ;
}

/// A run that is no steeper than the diagonal stays between the `b` of its
/// two ends.
pub proof fn lemma_nearest_between(a0: int, b0: int, a1: int, b1: int, a: int, b: int)
    requires
        a0 < a1,
        a0 <= a <= a1,
        extent(b0, b1) <= a1 - a0,
        nearest(a0, b0, a1, b1, a, b),
    ensures
        b0 <= b1 ==> b0 <= b <= b1,
        b1 <= b0 ==> b1 <= b <= b0,
{
    let run = a1 - a0;
    let rise = b1 - b0;
    let k = a - a0;
    let t = b - b0;
    let l = lean(a0, b0, a1, b1, a, b);
    assert(l == 2 * (k * rise - run * t));
    if b0 <= b1 {
        assert(0 <= t <= rise) by (nonlinear_arith)
            requires
                0 < run,
                0 <= k <= run,
                0 <= rise <= run,
                l == 2 * (k * rise - run * t),
                -run < l <= run,
        ;
    } else {
        assert(rise <= t <= 0) by (nonlinear_arith)
            requires
                0 < run,
                0 <= k <= run,
                -run <= rise < 0,
                l == 2 * (k * rise - run * t),
                -run <= l < run,
        ;
    }
}

/// Draws a line one pixel wide between `(x0, y0)` and `(x1, y1)`.
///
/// The line is stepped along the axis on which it is longer, and at every
/// step the pixel nearest to the straight line is set to `rgba`. Of the two
/// ends the one with the greater coordinate on that axis is left out. Pixels
/// outside the frame are skipped. The other coordinate never leaves the range
/// between the two ends, so it cannot pass below zero.
pub fn line(
    frame: &mut [u8],
    x0: u32,
    y0: u32,
    x1: u32,
    y1: u32,
    rgba: [u8; 4],
    width: u32,
    height: u32,
)
    requires
        old(frame)@.len() == frame_len(width as int, height as int),
    ensures
        final(frame)@ == draw_line(
            old(frame)@,
            x0 as int,
            y0 as int,
            x1 as int,
            y1 as int,
            rgba@,
            width as int,
            height as int,
        ),
{
    let wide: u32 = if x0 <= x1 {
        x1 - x0
    } else {
        x0 - x1
    };
    let tall: u32 = if y0 <= y1 {
        y1 - y0
    } else {
        y0 - y1
    };
    let steep: bool = wide < tall;

    let mut a0: u32 = x0;
    let mut b0: u32 = y0;
    let mut a1: u32 = x1;
    let mut b1: u32 = y1;
    if steep {
        a0 = y0;
        b0 = x0;
        a1 = y1;
        b1 = x1;
    }
    if a0 > a1 {
        let (low, low_b): (u32, u32) = (a1, b1);
        a1 = a0;
        b1 = b0;
        a0 = low;
        b0 = low_b;
    }
    let run: i64 = a1 as i64 - a0 as i64;
    let rise: i64 = b1 as i64 - b0 as i64;
    let derror: i64 = if rise < 0 {
        -rise * 2
    } else {
        rise * 2
    };
    let mut error: i64 = 0;
    let mut a: u32 = a0;
    let mut b: u32 = b0;

    assert(frame@ =~= draw_run(
        old(frame)@,
        steep,
        a0 as int,
        b0 as int,
        a1 as int,
        b1 as int,
        a as int,
        rgba@,
        width as int,
        height as int,
    ));
    while a < a1
        invariant
            a0 <= a <= a1,
            run == a1 - a0,
            rise == b1 - b0,
            extent(b0 as int, b1 as int) <= run,
            derror == 2 * extent(b0 as int, b1 as int),
            frame@.len() == frame_len(width as int, height as int),
            frame@.len() == old(frame)@.len(),
            a < a1 ==> nearest(a0 as int, b0 as int, a1 as int, b1 as int, a as int, b as int),
            a < a1 ==> error == if b0 <= b1 {
                lean(a0 as int, b0 as int, a1 as int, b1 as int, a as int, b as int)
            } else {
                -lean(a0 as int, b0 as int, a1 as int, b1 as int, a as int, b as int)
            },
            frame@ == draw_run(
                old(frame)@,
                steep,
                a0 as int,
                b0 as int,
                a1 as int,
                b1 as int,
                a as int,
                rgba@,
                width as int,
                height as int,
            ),
        decreases a1 - a,
    {
        let ghost before = frame@;
        if steep {
            set_pixel_inverse(frame, a, b, rgba, width, height);
        } else {
            set_pixel(frame, a, b, rgba, width, height);
        }
        proof {
            let next = draw_run(
                old(frame)@,
                steep,
                a0 as int,
                b0 as int,
                a1 as int,
                b1 as int,
                a + 1,
                rgba@,
                width as int,
                height as int,
            );
            assert forall|i: int| 0 <= i < frame@.len() implies frame@[i] == next[i] by {
                let x = byte_x(i, width as int);
                let y = byte_y(i, width as int, height as int);
                let c = if steep {
                    x
                } else {
                    y
                };
                if steep {
                    lemma_put_pixel_bytes(
                        before,
                        b as int,
                        a as int,
                        rgba@,
                        width as int,
                        height as int,
                        i,
                    );
                } else {
                    lemma_put_pixel_bytes(
                        before,
                        a as int,
                        b as int,
                        rgba@,
                        width as int,
                        height as int,
                        i,
                    );
                }
                if nearest(a0 as int, b0 as int, a1 as int, b1 as int, a as int, c) {
                    lemma_nearest_unique(
                        a0 as int,
                        b0 as int,
                        a1 as int,
                        b1 as int,
                        a as int,
                        b as int,
                        c,
                    );
                }
            }
            assert(frame@ =~= next);
            lemma_lean_step(a0 as int, b0 as int, a1 as int, b1 as int, a as int, b as int);
            lemma_lean_step(a0 as int, b0 as int, a1 as int, b1 as int, a + 1, b as int);
        }
        error = error + derror;
        if error > run {
            if b1 > b0 {
                proof {
                    lemma_nearest_between(
                        a0 as int,
                        b0 as int,
                        a1 as int,
                        b1 as int,
                        a + 1,
                        b + 1,
                    );
                }
                b = b + 1;
            } else {
                proof {
                    lemma_nearest_between(
                        a0 as int,
                        b0 as int,
                        a1 as int,
                        b1 as int,
                        a + 1,
                        b - 1,
                    );
                }
                b = b - 1;
            }
            error = error - run * 2;
        }
        a = a + 1;
    }
    assert(frame@ =~= draw_line(
        old(frame)@,
        x0 as int,
        y0 as int,
        x1 as int,
        y1 as int,
        rgba@,
        width as int,
        height as int,
    ));
}

/// A line covers the same pixels whichever of its ends is named first.
pub proof fn lemma_line_reversed(x0: int, y0: int, x1: int, y1: int, x: int, y: int)
    ensures
        on_line(x0, y0, x1, y1, x, y) == on_line(x1, y1, x0, y0, x, y),
{
}

/// Drawing a line from either end gives the same frame.
pub proof fn lemma_draw_line_reversed(
    frame: Seq<u8>,
    x0: int,
    y0: int,
    x1: int,
    y1: int,
    rgba: Seq<u8>,
    width: int,
    height: int,
)
    ensures
        draw_line(frame, x0, y0, x1, y1, rgba, width, height) == draw_line(
            frame,
            x1,
            y1,
            x0,
            y0,
            rgba,
            width,
            height,
        ),
{
    assert forall|i: int| 0 <= i < frame.len() implies on_line(
        x0,
        y0,
        x1,
        y1,
        byte_x(i, width),
        byte_y(i, width, height),
    ) == on_line(x1, y1, x0, y0, byte_x(i, width), byte_y(i, width, height)) by {
        lemma_line_reversed(x0, y0, x1, y1, byte_x(i, width), byte_y(i, width, height));
    }
    assert(draw_line(frame, x0, y0, x1, y1, rgba, width, height) =~= draw_line(
        frame,
        x1,
        y1,
        x0,
        y0,
        rgba,
        width,
        height,
    ));
}

/// Every pixel that a line covers lies in the rectangle spanned by its two
/// ends.
pub proof fn lemma_line_in_box(x0: int, y0: int, x1: int, y1: int, x: int, y: int)
    requires
        on_line(x0, y0, x1, y1, x, y),
    ensures
        x0 <= x <= x1 || x1 <= x <= x0,
        y0 <= y <= y1 || y1 <= y <= y0,
{
    if is_steep(x0, y0, x1, y1) {
        if y0 <= y1 {
            lemma_nearest_between(y0, x0, y1, x1, y, x);
        } else {
            lemma_nearest_between(y1, x1, y0, x0, y, x);
        }
    } else {
        if x0 <= x1 {
            lemma_nearest_between(x0, y0, x1, y1, x, y);
        } else {
            lemma_nearest_between(x1, y1, x0, y0, x, y);
        }
    }
}

/// Twice the area of the triangle `(x0, y0)`, `(x1, y1)`, `(x, y)`, signed by
/// its orientation. Divided by the length of the segment between the first two
/// points, it is the distance of the third from the straight line through
/// them.
pub open spec fn cross(x0: int, y0: int, x1: int, y1: int, x: int, y: int) -> int {
    (x - x0) * (y1 - y0) - (y - y0) * (x1 - x0)
}

/// Every pixel that a line covers is no more than half a pixel off the
/// straight line between the two ends, measured along the axis on which the
/// line is shorter.
pub proof fn lemma_line_near(x0: int, y0: int, x1: int, y1: int, x: int, y: int)
    requires
        on_line(x0, y0, x1, y1, x, y),
    ensures
        is_steep(x0, y0, x1, y1) ==> -extent(y0, y1) <= 2 * cross(x0, y0, x1, y1, x, y) <= extent(
            y0,
            y1,
        ),
        !is_steep(x0, y0, x1, y1) ==> -extent(x0, x1) <= 2 * cross(x0, y0, x1, y1, x, y) <= extent(
            x0,
            x1,
        ),
{
    let c = cross(x0, y0, x1, y1, x, y);
    if is_steep(x0, y0, x1, y1) {
        if y0 <= y1 {
            assert(lean(y0, x0, y1, x1, y, x) == -2 * c) by (nonlinear_arith)
                requires
                    c == (x - x0) * (y1 - y0) - (y - y0) * (x1 - x0),
                    lean(y0, x0, y1, x1, y, x) == 2 * ((y - y0) * (x1 - x0) - (y1 - y0) * (x - x0)),
            ;
        } else {
            assert(lean(y1, x1, y0, x0, y, x) == 2 * c) by (nonlinear_arith)
                requires
                    c == (x - x0) * (y1 - y0) - (y - y0) * (x1 - x0),
                    lean(y1, x1, y0, x0, y, x) == 2 * ((y - y1) * (x0 - x1) - (y0 - y1) * (x - x1)),
            ;
        }
    } else {
        if x0 <= x1 {
            assert(lean(x0, y0, x1, y1, x, y) == 2 * c) by (nonlinear_arith)
                requires
                    c == (x - x0) * (y1 - y0) - (y - y0) * (x1 - x0),
                    lean(x0, y0, x1, y1, x, y) == 2 * ((x - x0) * (y1 - y0) - (x1 - x0) * (y - y0)),
            ;
        } else {
            assert(lean(x1, y1, x0, y0, x, y) == -2 * c) by (nonlinear_arith)
                requires
                    c == (x - x0) * (y1 - y0) - (y - y0) * (x1 - x0),
                    lean(x1, y1, x0, y0, x, y) == 2 * ((x - x1) * (y0 - y1) - (x0 - x1) * (y - y1)),
            ;
        }
    }
}

/// What [`draw_line`] does, told pixel by pixel: a pixel of the frame reads
/// back as `rgba` where the line covers it, and keeps its bytes elsewhere.
pub proof fn lemma_draw_line_pixels(
    frame: Seq<u8>,
    x0: int,
    y0: int,
    x1: int,
    y1: int,
    rgba: Seq<u8>,
    width: int,
    height: int,
    x: int,
    y: int,
)
    requires
        frame.len() == frame_len(width, height),
        rgba.len() == 4,
        in_bounds(x, y, width, height),
    ensures
        pixel_at(draw_line(frame, x0, y0, x1, y1, rgba, width, height), x, y, width, height)
            == if on_line(x0, y0, x1, y1, x, y) {
            rgba
        } else {
            pixel_at(frame, x, y, width, height)
        },
{
    let after = draw_line(frame, x0, y0, x1, y1, rgba, width, height);
    let at = pixel_offset(x, y, width, height);
    lemma_pixel_offset_bounds(x, y, width, height);
    lemma_byte_of_pixel(at, x, y, width, height);
    lemma_byte_of_pixel(at + 1, x, y, width, height);
    lemma_byte_of_pixel(at + 2, x, y, width, height);
    lemma_byte_of_pixel(at + 3, x, y, width, height);
    if on_line(x0, y0, x1, y1, x, y) {
        assert(pixel_at(after, x, y, width, height) =~= rgba);
    } else {
        assert(pixel_at(after, x, y, width, height) =~= pixel_at(frame, x, y, width, height));
    }
}

/// Where a run stands at `a`: the `b` that [`nearest`] names there.
pub open spec fn nearest_at(a0: int, b0: int, a1: int, b1: int, a: int) -> int {
    let run = a1 - a0;
    if b0 <= b1 {
        b0 + (2 * ((a - a0) * (b1 - b0)) + run - 1) / (2 * run)
    } else {
        b0 - (2 * ((a - a0) * (b0 - b1)) + run - 1) / (2 * run)
    }
}

/// At each step of a run there is a nearest coordinate, the one that
/// [`nearest_at`] computes.
pub proof fn lemma_nearest_at(a0: int, b0: int, a1: int, b1: int, a: int)
    requires
        a0 < a1,
    ensures
        nearest(a0, b0, a1, b1, a, nearest_at(a0, b0, a1, b1, a)),
{
    let run = a1 - a0;
    let rise = if b0 <= b1 {
        b1 - b0
    } else {
        b0 - b1
    };
    let n = 2 * ((a - a0) * rise) + run - 1;
    let d = 2 * run;
    let q = n / d;
    lemma_fundamental_div_mod(n, d);
    lemma_mod_bound(n, d);
    assert(d * q == 2 * (run * q)) by (nonlinear_arith)
        requires
            d == 2 * run,
    ;
    if b0 <= b1 {
        assert(lean(a0, b0, a1, b1, a, b0 + q) == 2 * ((a - a0) * rise) - 2 * (run * q));
    } else {
        assert((a - a0) * (b1 - b0) == -((a - a0) * rise)) by (nonlinear_arith)
            requires
                rise == b0 - b1,
        ;
        assert(run * (b0 - q - b0) == -(run * q)) by (nonlinear_arith);
        assert(lean(a0, b0, a1, b1, a, b0 - q) == 2 * (run * q) - 2 * ((a - a0) * rise));
    }
}

/// The pixels that a line covers.
pub open spec fn covered(x0: int, y0: int, x1: int, y1: int) -> Set<(int, int)> {
    Set::new(|p: (int, int)| on_line(x0, y0, x1, y1, p.0, p.1))
}

/// A line covers one pixel for each step along its longer side, and so as
/// many pixels as that side is long. No more than these are written into a
/// frame.
pub proof fn lemma_line_length(x0: int, y0: int, x1: int, y1: int)
    ensures
        covered(x0, y0, x1, y1).finite(),
        covered(x0, y0, x1, y1).len() == if is_steep(x0, y0, x1, y1) {
            extent(y0, y1)
        } else {
            extent(x0, x1)
        },
{
    let steep = is_steep(x0, y0, x1, y1);
    let a0 = if steep {
        if y0 <= y1 {
            y0
        } else {
            y1
        }
    } else {
        if x0 <= x1 {
            x0
        } else {
            x1
        }
    };
    let a1 = if steep {
        if y0 <= y1 {
            y1
        } else {
            y0
        }
    } else {
        if x0 <= x1 {
            x1
        } else {
            x0
        }
    };
    let b0 = if steep {
        if y0 <= y1 {
            x0
        } else {
            x1
        }
    } else {
        if x0 <= x1 {
            y0
        } else {
            y1
        }
    };
    let b1 = if steep {
        if y0 <= y1 {
            x1
        } else {
            x0
        }
    } else {
        if x0 <= x1 {
            y1
        } else {
            y0
        }
    };
    let steps = set_int_range(a0, a1);
    let place = |a: int|
        if steep {
            (nearest_at(a0, b0, a1, b1, a), a)
        } else {
            (a, nearest_at(a0, b0, a1, b1, a))
        };
    lemma_int_range(a0, a1);
    assert forall|p: (int, int)| covered(x0, y0, x1, y1).contains(p) implies steps.map(
        place,
    ).contains(p) by {
        let a = if steep {
            p.1
        } else {
            p.0
        };
        let b = if steep {
            p.0
        } else {
            p.1
        };
        lemma_nearest_at(a0, b0, a1, b1, a);
        lemma_nearest_unique(a0, b0, a1, b1, a, b, nearest_at(a0, b0, a1, b1, a));
        assert(steps.contains(a) && p == place(a));
    }
    assert forall|p: (int, int)| steps.map(place).contains(p) implies covered(
        x0,
        y0,
        x1,
        y1,
    ).contains(p) by {
        let a = choose|a: int| steps.contains(a) && p == place(a);
        lemma_nearest_at(a0, b0, a1, b1, a);
    }
    assert(steps.map(place) =~= covered(x0, y0, x1, y1));
    assert(vstd::relations::injective_on(place, steps));
    lemma_map_size(steps, covered(x0, y0, x1, y1), place);
}

} // verus!

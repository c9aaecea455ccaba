//! Integer geometry and line rasterization.
use vstd::prelude::*;

use vstd::arithmetic::div_mod::{
    lemma_fundamental_div_mod, lemma_fundamental_div_mod_converse, lemma_mod_pos_bound,
};

use crate::tga::image::{spec_put_pixel, Pixel, TgaImage};

verus! {

/// A point of the integer plane.
#[derive(Debug, Clone, Copy, PartialEq, Eq, Structural)]
pub struct Point2D {
    pub x: i32,
    pub y: i32,
}

/// The absolute value of `v`.
pub open spec fn spec_abs(v: int) -> int {
    if v < 0 {
        -v
    } else {
        v
    }
}

/// How far a line with run `dx` and rise `dy` (with `0 <= dy <= dx`) has
/// moved along its minor axis after `k` steps along its major axis: the
/// nearest whole number to `k * dy / dx`, halves rounded down.
pub open spec fn spec_rise(k: int, dx: int, dy: int) -> int {
    if dx == 0 {
        0
    } else {
        (2 * k * dy + dx - 1) / (2 * dx)
    }
}

/// The pixels of the walk from (`su`, `sv`) to (`eu`, `ev`) along the major
/// axis `u`, with `su <= eu`: one pixel per step of `u`. When `steep`, `u` is
/// the y axis and each pixel is given as (v, u); otherwise as (u, v).
pub open spec fn spec_walk(su: int, sv: int, eu: int, ev: int, steep: bool) -> Seq<(int, int)> {
    let dx = eu - su;
    let dy = spec_abs(ev - sv);
    Seq::new(
        (dx + 1) as nat,
        |k: int|
            {
                let u = su + k;
                let v = if ev > sv {
                    sv + spec_rise(k, dx, dy)
                } else {
                    sv - spec_rise(k, dx, dy)
                };
                if steep {
                    (v, u)
                } else {
                    (u, v)
                }
            },
    )
}

/// Whether the segment from `a` to `b` rises faster than it runs.
pub open spec fn spec_steep(a: Point2D, b: Point2D) -> bool {
    spec_abs(b.y - a.y) > spec_abs(b.x - a.x)
}

/// The pixels that the Bresenham approximation of the segment from `a` to `b`
/// is made of, in the order in which they are drawn. The segment is walked
/// along its longer axis (x, or y when the segment is steep), from the end
/// with the smaller coordinate on that axis.
pub open spec fn spec_line_pixels(a: Point2D, b: Point2D) -> Seq<(int, int)> {
    let steep = spec_steep(a, b);
    let (au, av, bu, bv) = if steep {
        (a.y as int, a.x as int, b.y as int, b.x as int)
    } else {
        (a.x as int, a.y as int, b.x as int, b.y as int)
    };
    if au > bu {
        spec_walk(bu, bv, au, av, steep)
    } else {
        spec_walk(au, av, bu, bv, steep)
    }
}

/// `data` after each pixel of `pixels` in turn has been overwritten by
/// `encoding`, in a row-major buffer `width` pixels wide.
pub open spec fn spec_paint(
    data: Seq<u8>,
    width: int,
    pixels: Seq<(int, int)>,
    encoding: Seq<u8>,
) -> Seq<u8>
    decreases pixels.len(),
{
    if pixels.len() == 0 {
        data
    } else {
        let last = pixels.last();
        spec_put_pixel(
            spec_paint(data, width, pixels.drop_last(), encoding),
            width,
            last.0,
            last.1,
            encoding,
        )
    }
}

/// The rise after `k` steps is pinned between two multiples of `2 * dx`, and
/// grows by one on the next step exactly when the accumulated error passes
/// `dx`.
proof fn lemma_rise_step(k: int, dx: int, dy: int)
    requires
        dx > 0,
        0 <= dy <= dx,
        k >= 0,
    ensures
        (2 * dx) * spec_rise(k, dx, dy) <= 2 * k * dy + dx - 1 < (2 * dx) * spec_rise(k, dx, dy)
            + 2 * dx,
        spec_rise(k + 1, dx, dy) == if 2 * (k + 1) * dy - (2 * dx) * spec_rise(k, dx, dy) > dx {
            spec_rise(k, dx, dy) + 1
        } else {
            spec_rise(k, dx, dy)
        },
{
    let d = 2 * dx;
    let n = 2 * k * dy + dx - 1;
    let c = spec_rise(k, dx, dy);
    assert(n >= 0) by (nonlinear_arith)
        requires
            n == 2 * k * dy + dx - 1,
            k >= 0,
            dy >= 0,
            dx > 0,
    ;
    lemma_fundamental_div_mod(n, d);
    lemma_mod_pos_bound(n, d);
    assert(d * c == c * d) by (nonlinear_arith);
    let n1 = 2 * (k + 1) * dy + dx - 1;
    assert(n1 == n + 2 * dy) by (nonlinear_arith)
        requires
            n1 == 2 * (k + 1) * dy + dx - 1,
            n == 2 * k * dy + dx - 1,
    ;
    assert(2 * (k + 1) * dy - d * c == n1 - dx + 1 - d * c) by (nonlinear_arith)
        requires
            n1 == 2 * (k + 1) * dy + dx - 1,
    ;
    assert(c == n / d);
    assert(d * (c + 1) == d * c + d) by (nonlinear_arith);
    assert(spec_rise(k + 1, dx, dy) == n1 / d);
    if n1 - d * c >= d {
        lemma_fundamental_div_mod_converse(n1, d, c + 1, n1 - d * (c + 1));
    } else {
        lemma_fundamental_div_mod_converse(n1, d, c, n1 - d * c);
    }
}

/// The rise never leaves the range from zero to the full rise `dy`.
proof fn lemma_rise_bounds(k: int, dx: int, dy: int)
    requires
        dx > 0,
        0 <= dy <= dx,
        0 <= k <= dx,
    ensures
        0 <= spec_rise(k, dx, dy) <= dy,
{
    let c = spec_rise(k, dx, dy);
    lemma_rise_step(k, dx, dy);
    assert(2 * k * dy <= 2 * dx * dy) by (nonlinear_arith)
        requires
            0 <= k <= dx,
            dy >= 0,
    ;
    assert(0 <= c <= dy) by (nonlinear_arith)
        requires
            (2 * dx) * c <= 2 * k * dy + dx - 1 < (2 * dx) * c + 2 * dx,
            2 * k * dy <= 2 * dx * dy,
            k >= 0,
            dy >= 0,
            dx > 0,
    ;
}

/// Whether pixel `q` follows pixel `p` on a line: one further along the
/// major axis (y when `steep`, else x), and at most one away along the other.
pub open spec fn spec_next_pixel(p: (int, int), q: (int, int), steep: bool) -> bool {
    if steep {
        q.1 == p.1 + 1 && spec_abs(q.0 - p.0) <= 1
    } else {
        q.0 == p.0 + 1 && spec_abs(q.1 - p.1) <= 1
    }
}

/// The walk starts at its first end, stops at its second, and each of its
/// pixels follows the one before.
proof fn lemma_walk_shape(su: int, sv: int, eu: int, ev: int, steep: bool)
    requires
        su <= eu,
        spec_abs(ev - sv) <= eu - su,
    ensures
        spec_walk(su, sv, eu, ev, steep).len() == eu - su + 1,
        spec_walk(su, sv, eu, ev, steep)[0] == if steep {
            (sv, su)
        } else {
            (su, sv)
        },
        spec_walk(su, sv, eu, ev, steep).last() == if steep {
            (ev, eu)
        } else {
            (eu, ev)
        },
        forall|k: int|
            #![trigger spec_walk(su, sv, eu, ev, steep)[k]]
            0 <= k < eu - su ==> spec_next_pixel(
                spec_walk(su, sv, eu, ev, steep)[k],
                spec_walk(su, sv, eu, ev, steep)[k + 1],
                steep,
            ),
{
    let dx = eu - su;
    let dy = spec_abs(ev - sv);
    let w = spec_walk(su, sv, eu, ev, steep);
    if dx > 0 {
        lemma_fundamental_div_mod_converse(dx - 1, 2 * dx, 0, dx - 1);
        assert(2 * dx * dy + dx - 1 == dy * (2 * dx) + (dx - 1)) by (nonlinear_arith);
        lemma_fundamental_div_mod_converse(2 * dx * dy + dx - 1, 2 * dx, dy, dx - 1);
        assert forall|k: int| #![trigger w[k]] 0 <= k < dx implies spec_next_pixel(
            w[k],
            w[k + 1],
            steep,
        ) by {
            lemma_rise_step(k, dx, dy);
        }
    }
}

/// The Bresenham approximation of a segment has one pixel per unit step along
/// the segment's longer axis, ends included: it starts at one end, stops at
/// the other, and each pixel lies one further along the longer axis than the
/// one before and at most one away along the other, so the line has no gaps.
pub proof fn lemma_line_shape(a: Point2D, b: Point2D)
    ensures
        spec_line_pixels(a, b).len() == 1 + if spec_steep(a, b) {
            spec_abs(b.y - a.y)
        } else {
            spec_abs(b.x - a.x)
        },
        (spec_line_pixels(a, b)[0] == (a.x as int, a.y as int) && spec_line_pixels(a, b).last()
            == (b.x as int, b.y as int)) || (spec_line_pixels(a, b)[0] == (b.x as int, b.y as int)
            && spec_line_pixels(a, b).last() == (a.x as int, a.y as int)),
        forall|k: int|
            #![trigger spec_line_pixels(a, b)[k]]
            0 <= k < spec_line_pixels(a, b).len() - 1 ==> spec_next_pixel(
                spec_line_pixels(a, b)[k],
                spec_line_pixels(a, b)[k + 1],
                spec_steep(a, b),
            ),
{
    let steep = spec_steep(a, b);
    let (au, av, bu, bv) = if steep {
        (a.y as int, a.x as int, b.y as int, b.x as int)
    } else {
        (a.x as int, a.y as int, b.x as int, b.y as int)
    };
    if au > bu {
        lemma_walk_shape(bu, bv, au, av, steep);
    } else {
        lemma_walk_shape(au, av, bu, bv, steep);
    }
}

/// Draws the segment from `a` to `b` into `image` with `line_color`, by
/// Bresenham's integer stepping: one pixel per unit step along the segment's
/// longer axis, and nothing else in the image changes. Both ends must lie
/// inside the image.
pub fn draw_line<P: Pixel>(a: Point2D, b: Point2D, image: &mut TgaImage<P>, line_color: &P)
    requires
        old(image).wf(),
        old(image).in_bounds(a.x as int, a.y as int),
        old(image).in_bounds(b.x as int, b.y as int),
    ensures
        final(image).wf(),
        final(image).spec_header() == old(image).spec_header(),
        final(image).spec_data() == spec_paint(
            old(image).spec_data(),
            old(image).spec_header().width as int,
            spec_line_pixels(a, b),
            line_color.encoding(),
        ),
{
    let ghost pixels = spec_line_pixels(a, b);
    let ghost width = image.spec_header().width as int;
    let ghost height = image.spec_header().height as int;
    let ghost data0 = image.spec_data();
    let ghost encoding = line_color.encoding();
    let mut a = a;
    let mut b = b;
    let mut steep = false;
    let run: i32 = if b.x > a.x { b.x - a.x } else { a.x - b.x };
    let rise: i32 = if b.y > a.y { b.y - a.y } else { a.y - b.y };
    if rise > run {
        a = Point2D { x: a.y, y: a.x };
        b = Point2D { x: b.y, y: b.x };
        steep = true;
    }
    if a.x > b.x {
        let t = a;
        a = b;
        b = t;
    }
    let dx: i32 = b.x - a.x;
    let dy: i32 = b.y - a.y;
    let derror2: i32 = if dy < 0 { -dy * 2 } else { dy * 2 };
    let ghost ady = spec_abs(dy as int);
    assert(pixels == spec_walk(a.x as int, a.y as int, b.x as int, b.y as int, steep));
    let mut error2: i32 = 0;
    let mut y: i32 = a.y;
    let mut x: i32 = a.x;
    let ghost mut c: int = 0;
    proof {
        if dx > 0 {
            lemma_rise_step(0, dx as int, ady);
            lemma_fundamental_div_mod_converse(dx - 1, 2 * dx, 0, dx - 1);
        }
        assert(pixels.take(0) =~= Seq::<(int, int)>::empty());
    }
    while x <= b.x
        invariant
            0 <= dx,
            0 <= ady <= dx,
            dx == b.x - a.x,
            derror2 == 2 * ady,
            ady == spec_abs(b.y - a.y),
            steep ==> 0 <= a.x < height && 0 <= b.x < height && 0 <= a.y < width && 0 <= b.y
                < width,
            !steep ==> 0 <= a.x < width && 0 <= b.x < width && 0 <= a.y < height && 0 <= b.y
                < height,
            a.x <= x <= b.x + 1,
            pixels == spec_walk(a.x as int, a.y as int, b.x as int, b.y as int, steep),
            pixels.len() == dx + 1,
            c == spec_rise(x - a.x, dx as int, ady),
            dx > 0 ==> (2 * dx) * c <= 2 * (x - a.x) * ady + dx - 1 < (2 * dx) * c + 2 * dx,
            dx == 0 ==> c == 0 && error2 == 0,
            error2 == 2 * (x - a.x) * ady - (2 * dx) * c,
            y == if b.y > a.y {
                a.y + c
            } else {
                a.y - c
            },
            x <= b.x ==> 0 <= c <= ady,
            image.wf(),
            image.spec_header() == old(image).spec_header(),
            width == image.spec_header().width,
            height == image.spec_header().height,
            data0 == old(image).spec_data(),
            encoding == line_color.encoding(),
            image.spec_data() == spec_paint(data0, width, pixels.take(x - a.x), encoding),
        decreases b.x + 1 - x,
    {
        let ghost k = x - a.x;
        assert(pixels[k] == (if steep {
            (y as int, x as int)
        } else {
            (x as int, y as int)
        }));
        if steep {
            image.set(y as u16, x as u16, line_color);
        } else {
            image.set(x as u16, y as u16, line_color);
        }
        proof {
            assert(pixels.take(k + 1).drop_last() =~= pixels.take(k));
            assert(pixels.take(k + 1).last() == pixels[k]);
        }
        error2 += derror2;
        let ghost c0 = c;
        proof {
            if dx > 0 {
                lemma_rise_step(k, dx as int, ady);
                assert(error2 == 2 * (k + 1) * ady - (2 * dx) * c) by (nonlinear_arith)
                    requires
                        error2 == 2 * k * ady - (2 * dx) * c + 2 * ady,
                ;
            }
        }
        if error2 > dx {
            y += if b.y > a.y { 1 } else { -1 };
            error2 -= dx * 2;
            proof {
                c = c + 1;
            }
        }
        x += 1;
        proof {
            if dx > 0 {
                assert(error2 == 2 * (x - a.x) * ady - (2 * dx) * c) by (nonlinear_arith)
                    requires
                        x - a.x == k + 1,
                        (c == c0 && error2 == 2 * (k + 1) * ady - (2 * dx) * c0) || (c == c0 + 1
                            && error2 == 2 * (k + 1) * ady - (2 * dx) * c0 - 2 * dx),
                ;
                lemma_rise_step(k + 1, dx as int, ady);
                if x <= b.x {
                    lemma_rise_bounds(k + 1, dx as int, ady);
                }
            } else {
                assert(error2 == 2 * (x - a.x) * ady - (2 * dx) * c) by (nonlinear_arith)
                    requires
                        ady == 0,
                        dx == 0,
                        error2 == 0,
                ;
            }
        }
    }
    assert(pixels.take(dx + 1) =~= pixels);
}

} // verus!

//! Framebuffer geometry: choosing a display mode by aspect ratio, locating a
//! pixel, and the pixels of a straight line.

use vstd::prelude::*;

verus! {

/// Accepted aspect ratios, most preferred first.
pub open spec fn allow_ratios() -> Seq<(usize, usize)> {
    seq![(21usize, 9usize), (32, 9), (16, 9), (16, 10), (4, 3), (3, 2), (5, 4)]
}

/// Resolution `w` x `h` has the aspect ratio `k`.
pub open spec fn has_ratio(w: usize, h: usize, k: int) -> bool {
    0 <= k < allow_ratios().len() && w * allow_ratios()[k].1 == h * allow_ratios()[k].0
}

/// Index of the first accepted ratio from `k` on that the resolution has.
pub open spec fn first_ratio_from(w: usize, h: usize, k: nat) -> Option<nat>
    decreases 7 - k,
{
    if k >= 7 {
        None
    } else if has_ratio(w, h, k as int) {
        Some(k)
    } else {
        first_ratio_from(w, h, k + 1)
    }
}

/// Preference level of a resolution: the index of the first accepted ratio it
/// has.
pub open spec fn ratio_level(w: usize, h: usize) -> Option<nat> {
    first_ratio_from(w, h, 0)
}

/// Preference level of mode `i`.
pub open spec fn mode_level(modes: Seq<(usize, usize)>, i: int) -> Option<nat> {
    ratio_level(modes[i].0, modes[i].1)
}

proof fn lemma_first_ratio_from(w: usize, h: usize, k: nat)
    requires
        k <= 7,
        forall|j: int| 0 <= j < k ==> !has_ratio(w, h, j),
    ensures
        first_ratio_from(w, h, k) == ratio_level(w, h),
    decreases k,
{
    if k > 0 {
        lemma_first_ratio_from(w, h, (k - 1) as nat);
    }
}

/// Mode `a` is at least as good as mode `b`: a lower level, or the same level
/// and at least the width.
pub open spec fn at_least_as_good(la: nat, wa: usize, lb: nat, wb: usize) -> bool {
    la < lb || (la == lb && wa >= wb)
}

/// The order of modes: the ratio level decides first, a lower level being
/// better whatever the widths; only between modes of the same level does the
/// wider one win, and of two modes alike in both each is as good as the other.
pub proof fn lemma_preference(la: nat, wa: usize, lb: nat, wb: usize)
    ensures
        at_least_as_good(la, wa, lb, wb) ==> la <= lb,
        la < lb ==> at_least_as_good(la, wa, lb, wb),
        la == lb ==> (at_least_as_good(la, wa, lb, wb) <==> wa >= wb),
{
}

/// The ratio levels of common resolutions, most preferred first: 21:9,
/// 32:9, 16:9, 16:10, 4:3, 3:2, 5:4; a square screen has none.
pub proof fn lemma_ratio_levels()
    ensures
        ratio_level(2520, 1080) == Some(0nat),
        ratio_level(3840, 1080) == Some(1nat),
        ratio_level(1920, 1080) == Some(2nat),
        ratio_level(1920, 1200) == Some(3nat),
        ratio_level(1600, 1200) == Some(4nat),
        ratio_level(1440, 960) == Some(5nat),
        ratio_level(1280, 1024) == Some(6nat),
        ratio_level(1000, 1000) is None,
{
    reveal_with_fuel(first_ratio_from, 8);
}

/// Resolutions small enough that the ratio test cannot overflow.
pub open spec fn resolutions_in_range(modes: Seq<(usize, usize)>) -> bool {
    forall|i: int| 0 <= i < modes.len() ==> (#[trigger] modes[i]).0 * 10 <= usize::MAX && modes[i].1 * 32 <= usize::MAX
}

fn ratio_table() -> (r: [(usize, usize); 7])
    ensures
        r@ == allow_ratios(),
{
    let r: [(usize, usize); 7] = [(21, 9), (32, 9), (16, 9), (16, 10), (4, 3), (3, 2), (5, 4)];
    assert(r@ =~= allow_ratios());
    r
}

/// Preference level of a resolution, if it has an accepted ratio.
pub fn find_ratio_level(w: usize, h: usize) -> (r: Option<usize>)
    requires
        w * 10 <= usize::MAX,
        h * 32 <= usize::MAX,
    ensures
        r is Some <==> ratio_level(w, h) is Some,
        r matches Some(l) ==> ratio_level(w, h) == Some(l as nat),
{
    let table = ratio_table();
    let mut k: usize = 0;
    while k < 7
        invariant
            k <= 7,
            table@ == allow_ratios(),
            w * 10 <= usize::MAX,
            h * 32 <= usize::MAX,
            forall|j: int| 0 <= j < k ==> !has_ratio(w, h, j),
        decreases 7 - k,
    {
        let (rw, rh) = table[k];
        assert(rh <= 10 && rw <= 32);
        assert(w * rh <= w * 10) by (nonlinear_arith)
            requires
                rh <= 10,
        ;
        assert(h * rw <= h * 32) by (nonlinear_arith)
            requires
                rw <= 32,
        ;
        if w * rh == h * rw {
            proof {
                lemma_first_ratio_from(w, h, k as nat);
            }
            return Some(k);
        }
        k += 1;
    }
    proof {
        lemma_first_ratio_from(w, h, 7);
    }
    None
}

/// Index of the display mode to use among the resolutions `modes`: one with
/// an accepted ratio, the lowest level first and then the widest, the first
/// such mode on a tie; none when no mode has an accepted ratio.
pub fn select_mode(modes: &Vec<(usize, usize)>) -> (r: Option<usize>)
    requires
        resolutions_in_range(modes@),
    ensures
        r is None <==> forall|i: int| 0 <= i < modes@.len() ==> mode_level(modes@, i) is None,
        r matches Some(b) ==> {
            &&& b < modes@.len()
            &&& mode_level(modes@, b as int) is Some
            &&& forall|i: int|
                0 <= i < modes@.len() && mode_level(modes@, i) is Some ==> at_least_as_good(
                    mode_level(modes@, b as int).unwrap(),
                    modes@[b as int].0,
                    mode_level(modes@, i).unwrap(),
                    modes@[i].0,
                )
            &&& forall|i: int|
                0 <= i < b && mode_level(modes@, i) is Some ==> !at_least_as_good(
                    mode_level(modes@, i).unwrap(),
                    modes@[i].0,
                    mode_level(modes@, b as int).unwrap(),
                    modes@[b as int].0,
                )
            &&& forall|i: int|
                0 <= i < modes@.len() && #[trigger] mode_level(modes@, i) is Some ==> mode_level(modes@, b as int).unwrap()
                    <= mode_level(modes@, i).unwrap()
            &&& forall|i: int|
                0 <= i < modes@.len() && #[trigger] mode_level(modes@, i) == mode_level(modes@, b as int) ==> modes@[i].0
                    <= modes@[b as int].0
            &&& forall|i: int|
                0 <= i < b && #[trigger] mode_level(modes@, i) == mode_level(modes@, b as int) ==> modes@[i].0
                    < modes@[b as int].0
        },
{
    let mut target: Option<(usize, usize, usize)> = None;
    let mut i: usize = 0;
    while i < modes.len()
        invariant
            i <= modes@.len(),
            resolutions_in_range(modes@),
            target is None <==> forall|k: int| 0 <= k < i ==> mode_level(modes@, k) is None,
            target matches Some(t) ==> {
                &&& t.2 < i
                &&& t.0 == modes@[t.2 as int].0
                &&& mode_level(modes@, t.2 as int) == Some(t.1 as nat)
                &&& forall|k: int|
                    0 <= k < i && mode_level(modes@, k) is Some ==> at_least_as_good(
                        t.1 as nat,
                        t.0,
                        mode_level(modes@, k).unwrap(),
                        modes@[k].0,
                    )
                &&& forall|k: int|
                    0 <= k < t.2 && mode_level(modes@, k) is Some ==> !at_least_as_good(
                        mode_level(modes@, k).unwrap(),
                        modes@[k].0,
                        t.1 as nat,
                        t.0,
                    )
            },
        decreases modes@.len() - i,
    {
        let (w, h) = modes[i];
        assert(modes@[i as int].0 * 10 <= usize::MAX && modes@[i as int].1 * 32 <= usize::MAX);
        assert(mode_level(modes@, i as int) == ratio_level(w, h));
        match find_ratio_level(w, h) {
            Some(level) => {
                let is_better = match target {
                    Some((best_w, best_level, _)) => level < best_level || (level == best_level && w > best_w),
                    None => true,
                };
                if is_better {
                    target = Some((w, level, i));
                }
            },
            None => {},
        }
        i += 1;
    }
    proof {
        if target is Some {
            let b = target.unwrap().2 as int;
            assert forall|i: int|
                0 <= i < modes@.len() && #[trigger] mode_level(modes@, i) is Some implies mode_level(modes@, b).unwrap()
                    <= mode_level(modes@, i).unwrap() by {
                lemma_preference(mode_level(modes@, b).unwrap(), modes@[b].0, mode_level(modes@, i).unwrap(), modes@[i].0);
            }
            assert forall|i: int|
                0 <= i < modes@.len() && #[trigger] mode_level(modes@, i) == mode_level(modes@, b) implies modes@[i].0
                    <= modes@[b].0 by {
                lemma_preference(mode_level(modes@, b).unwrap(), modes@[b].0, mode_level(modes@, i).unwrap(), modes@[i].0);
            }
            assert forall|i: int|
                0 <= i < b && #[trigger] mode_level(modes@, i) == mode_level(modes@, b) implies modes@[i].0
                    < modes@[b].0 by {
                lemma_preference(mode_level(modes@, i).unwrap(), modes@[i].0, mode_level(modes@, b).unwrap(), modes@[b].0);
            }
        }
    }
    match target {
        Some((_, _, idx)) => Some(idx),
        None => None,
    }
}

/// Index of pixel (`x`, `y`) in a framebuffer `w` pixels wide and `h` high
/// whose rows are `stride` pixels apart; none outside the picture.
pub fn pixel_offset(x: usize, y: usize, w: usize, h: usize, stride: usize) -> (r: Option<usize>)
    requires
        x < w && y < h ==> y * stride + x <= usize::MAX,
    ensures
        r is Some <==> x < w && y < h,
        r matches Some(o) ==> o == y * stride + x,
{
    if x < w && y < h {
        assert(0 <= y * stride) by (nonlinear_arith);
        Some(y * stride + x)
    } else {
        None
    }
}

/// Absolute value.
pub open spec fn abs(x: int) -> int {
    if x < 0 {
        -x
    } else {
        x
    }
}

/// The ends of a line lie close enough for the algorithm's arithmetic:
/// four times the distance along either axis fits in an `isize`.
pub open spec fn line_in_range(x0: isize, y0: isize, x1: isize, y1: isize) -> bool {
    4 * abs(x1 - x0) <= isize::MAX && 4 * abs(y1 - y0) <= isize::MAX
}

/// Point `p` lies in the box spanned by the line from (`x0`, `y0`) to
/// (`x1`, `y1`), and within one pixel-step of the ideal line: with `i` and
/// `j` its distances from the start along each axis,
/// `|dx * j - dy * i| <= dx + dy`.
pub open spec fn near_line(x0: isize, y0: isize, x1: isize, y1: isize, p: (isize, isize)) -> bool {
    let dx = abs(x1 - x0);
    let dy = abs(y1 - y0);
    let i = abs(p.0 - x0);
    let j = abs(p.1 - y0);
    &&& (x0 <= x1 ==> x0 <= p.0 <= x1)
    &&& (x1 < x0 ==> x1 <= p.0 <= x0)
    &&& (y0 <= y1 ==> y0 <= p.1 <= y1)
    &&& (y1 < y0 ==> y1 <= p.1 <= y0)
    &&& abs(dx * j - dy * i) <= dx + dy
}

/// `q` follows `p` on a line from (`x0`, `y0`): one step along one axis or
/// along both.
pub open spec fn line_step(x0: isize, y0: isize, p: (isize, isize), q: (isize, isize)) -> bool {
    let di = abs(q.0 - x0) - abs(p.0 - x0);
    let dj = abs(q.1 - y0) - abs(p.1 - y0);
    0 <= di <= 1 && 0 <= dj <= 1 && di + dj >= 1
}

/// Error term of the line algorithm at point `p`:
/// `dx * (j + 1) - dy * (i + 1)` for `p`'s distances `i`, `j` from the start.
pub open spec fn line_err(x0: isize, y0: isize, x1: isize, y1: isize, p: (isize, isize)) -> int {
    abs(x1 - x0) * (abs(p.1 - y0) + 1) - abs(y1 - y0) * (abs(p.0 - x0) + 1)
}

/// The pixel the line algorithm visits after `p`: a step along x when twice
/// the error term is at least `-dy`, a step along y when it is at most `dx`,
/// each towards the end point.
pub open spec fn line_next(x0: isize, y0: isize, x1: isize, y1: isize, p: (isize, isize)) -> (isize, isize) {
    let e = line_err(x0, y0, x1, y1, p);
    let nx: int = if 2 * e >= -abs(y1 - y0) {
        if x0 < x1 {
            p.0 + 1
        } else {
            p.0 - 1
        }
    } else {
        p.0 as int
    };
    let ny: int = if 2 * e <= abs(x1 - x0) {
        if y0 < y1 {
            p.1 + 1
        } else {
            p.1 - 1
        }
    } else {
        p.1 as int
    };
    (nx as isize, ny as isize)
}

/// One step of the line algorithm keeps its state consistent: the error
/// term stays `dx * (j + 1) - dy * (i + 1)` within `[-2 dy, 2 dx]`, the step
/// counts stay within the distances, and at least one coordinate moves.
proof fn lemma_line_step(gdx: int, gdy: int, i: int, j: int, err: int)
    requires
        0 <= i <= gdx,
        0 <= j <= gdy,
        err == gdx * (j + 1) - gdy * (i + 1),
        -2 * gdy <= err <= 2 * gdx,
        !(i == gdx && j == gdy),
    ensures
        ({
            let xs = 2 * err >= -gdy;
            let ys = 2 * err <= gdx;
            let i2 = if xs { i + 1 } else { i };
            let j2 = if ys { j + 1 } else { j };
            let err2 = err - (if xs { gdy } else { 0 }) + (if ys { gdx } else { 0 });
            &&& xs || ys
            &&& 0 <= i2 <= gdx
            &&& 0 <= j2 <= gdy
            &&& err2 == gdx * (j2 + 1) - gdy * (i2 + 1)
            &&& -2 * gdy <= err2 <= 2 * gdx
        }),
{
    if i == gdx {
        assert(2 * err < -gdy) by (nonlinear_arith)
            requires
                err == gdx * (j + 1) - gdy * (i + 1),
                i == gdx,
                0 <= j < gdy,
                gdx >= 0,
        ;
    }
    if j == gdy {
        assert(2 * err > gdx) by (nonlinear_arith)
            requires
                err == gdx * (j + 1) - gdy * (i + 1),
                j == gdy,
                0 <= i < gdx,
                gdy >= 0,
        ;
    }
    assert(gdx * (j + 1) - gdy * (i + 2) == err - gdy) by (nonlinear_arith)
        requires
            err == gdx * (j + 1) - gdy * (i + 1),
    ;
    assert(gdx * (j + 2) - gdy * (i + 1) == err + gdx) by (nonlinear_arith)
        requires
            err == gdx * (j + 1) - gdy * (i + 1),
    ;
    assert(gdx * (j + 2) - gdy * (i + 2) == err + gdx - gdy) by (nonlinear_arith)
        requires
            err == gdx * (j + 1) - gdy * (i + 1),
    ;
}

proof fn lemma_near_line(x0: isize, y0: isize, x1: isize, y1: isize, p: (isize, isize), i: int, j: int, err: int)
    requires
        0 <= i <= abs(x1 - x0),
        0 <= j <= abs(y1 - y0),
        p.0 == x0 + if x0 < x1 { i } else { -i },
        p.1 == y0 + if y0 < y1 { j } else { -j },
        err == abs(x1 - x0) * (j + 1) - abs(y1 - y0) * (i + 1),
        -2 * abs(y1 - y0) <= err <= 2 * abs(x1 - x0),
    ensures
        near_line(x0, y0, x1, y1, p),
        abs(p.0 - x0) == i,
        abs(p.1 - y0) == j,
{
    let gdx = abs(x1 - x0);
    let gdy = abs(y1 - y0);
    assert(abs(gdx * j - gdy * i) <= gdx + gdy) by (nonlinear_arith)
        requires
            err == gdx * (j + 1) - gdy * (i + 1),
            -2 * gdy <= err <= 2 * gdx,
    ;
}

proof fn lemma_line_next(x0: isize, y0: isize, x1: isize, y1: isize, p: (isize, isize), q: (isize, isize), err: int, xs: bool, ys: bool)
    requires
        line_err(x0, y0, x1, y1, p) == err,
        xs == (2 * err >= -abs(y1 - y0)),
        ys == (2 * err <= abs(x1 - x0)),
        q.0 == p.0 + if xs { if x0 < x1 { 1int } else { -1int } } else { 0int },
        q.1 == p.1 + if ys { if y0 < y1 { 1int } else { -1int } } else { 0int },
    ensures
        q == line_next(x0, y0, x1, y1, p),
{
}

/// What every prefix of the visited pixels satisfies.
#[verifier::opaque]
pub open spec fn line_prefix_ok(x0: isize, y0: isize, x1: isize, y1: isize, pts: Seq<(isize, isize)>) -> bool {
    &&& forall|k: int| 0 <= k < pts.len() ==> near_line(x0, y0, x1, y1, #[trigger] pts[k])
    &&& forall|k: int| 0 <= k < pts.len() - 1 ==> line_step(x0, y0, #[trigger] pts[k], pts[k + 1])
    &&& forall|k: int|
        0 <= k < pts.len() - 1 ==> #[trigger] pts[k] != (x1, y1) && pts[k + 1] == line_next(x0, y0, x1, y1, pts[k])
}

proof fn lemma_line_push(x0: isize, y0: isize, x1: isize, y1: isize, before: Seq<(isize, isize)>, p: (isize, isize))
    requires
        line_prefix_ok(x0, y0, x1, y1, before),
        near_line(x0, y0, x1, y1, p),
        before.len() > 0 ==> line_step(x0, y0, before.last(), p),
        before.len() > 0 ==> before.last() != (x1, y1) && p == line_next(x0, y0, x1, y1, before.last()),
    ensures
        line_prefix_ok(x0, y0, x1, y1, before.push(p)),
{
    reveal(line_prefix_ok);
    let pts = before.push(p);
    assert forall|k: int| 0 <= k < pts.len() - 1 implies line_step(x0, y0, #[trigger] pts[k], pts[k + 1]) by {
        if k < before.len() - 1 {
            assert(pts[k] == before[k] && pts[k + 1] == before[k + 1]);
        } else {
            assert(pts[k] == before.last());
        }
    }
    assert forall|k: int| 0 <= k < pts.len() implies near_line(x0, y0, x1, y1, #[trigger] pts[k]) by {
        if k < before.len() {
            assert(pts[k] == before[k]);
        }
    }
    assert forall|k: int| 0 <= k < pts.len() - 1 implies #[trigger] pts[k] != (x1, y1) && pts[k + 1] == line_next(x0, y0, x1, y1, pts[k]) by {
        if k < before.len() - 1 {
            assert(pts[k] == before[k] && pts[k + 1] == before[k + 1]);
        } else {
            assert(pts[k] == before.last());
        }
    }
}

/// Where a line drawing stands: the pixel reached and the error term of
/// the algorithm there.
#[derive(Clone, Copy, Debug, PartialEq, Eq)]
pub struct LinePen {
    pub x: isize,
    pub y: isize,
    pub err: isize,
}

/// `pen` is a state of the line algorithm from (`x0`, `y0`) towards
/// (`x1`, `y1`): its pixel lies between the ends, on the side of the end, and
/// its error term is `line_err` of that pixel, within `[-2 dy, 2 dx]`.
pub open spec fn pen_ok(x0: isize, y0: isize, x1: isize, y1: isize, pen: LinePen) -> bool {
    let i = abs(pen.x - x0);
    let j = abs(pen.y - y0);
    &&& i <= abs(x1 - x0)
    &&& j <= abs(y1 - y0)
    &&& pen.x == x0 + if x0 < x1 { i } else { -i }
    &&& pen.y == y0 + if y0 < y1 { j } else { -j }
    &&& pen.err == line_err(x0, y0, x1, y1, (pen.x, pen.y))
    &&& -2 * abs(y1 - y0) <= pen.err <= 2 * abs(x1 - x0)
}

/// Steps a pen has taken along both axes together.
pub open spec fn pen_progress(x0: isize, y0: isize, pen: LinePen) -> int {
    abs(pen.x - x0) + abs(pen.y - y0)
}

/// The pen at the start of a line: on (`x0`, `y0`), with error term
/// `dx - dy`.
pub fn line_start(x0: isize, y0: isize, x1: isize, y1: isize) -> (pen: LinePen)
    requires
        line_in_range(x0, y0, x1, y1),
    ensures
        pen.x == x0,
        pen.y == y0,
        pen_ok(x0, y0, x1, y1, pen),
        near_line(x0, y0, x1, y1, (pen.x, pen.y)),
{
    let dx: isize = if x1 >= x0 { x1 - x0 } else { x0 - x1 };
    let dy: isize = if y1 >= y0 { y1 - y0 } else { y0 - y1 };
    let pen = LinePen { x: x0, y: y0, err: dx - dy };
    assert(pen.err == line_err(x0, y0, x1, y1, (pen.x, pen.y))) by (nonlinear_arith)
        requires
            pen.err == abs(x1 - x0) - abs(y1 - y0),
            pen.x == x0,
            pen.y == y0,
    ;
    proof {
        lemma_near_line(x0, y0, x1, y1, (pen.x, pen.y), 0, 0, pen.err as int);
    }
    pen
}

/// One step of the line algorithm from a pen that has not reached the end:
/// it moves to `line_next` of its pixel, one step along one axis or both,
/// and stays near the ideal line.
pub fn line_advance(x0: isize, y0: isize, x1: isize, y1: isize, pen: &LinePen) -> (next: LinePen)
    requires
        line_in_range(x0, y0, x1, y1),
        pen_ok(x0, y0, x1, y1, *pen),
        (pen.x, pen.y) != (x1, y1),
    ensures
        pen_ok(x0, y0, x1, y1, next),
        (next.x, next.y) == line_next(x0, y0, x1, y1, (pen.x, pen.y)),
        line_step(x0, y0, (pen.x, pen.y), (next.x, next.y)),
        near_line(x0, y0, x1, y1, (next.x, next.y)),
        pen_progress(x0, y0, next) > pen_progress(x0, y0, *pen),
{
    let ghost gdx: int = abs(x1 - x0);
    let ghost gdy: int = abs(y1 - y0);
    let ghost i: int = abs(pen.x - x0);
    let ghost j: int = abs(pen.y - y0);
    let dx: isize = if x1 >= x0 { x1 - x0 } else { x0 - x1 };
    let dy: isize = if y1 >= y0 { y1 - y0 } else { y0 - y1 };
    let sx: isize = if x0 < x1 { 1 } else { -1 };
    let sy: isize = if y0 < y1 { 1 } else { -1 };
    proof {
        lemma_line_step(gdx, gdy, i, j, pen.err as int);
    }
    let err = pen.err;
    let e2 = 2 * err;
    let mut next = LinePen { x: pen.x, y: pen.y, err };
    let ghost mut i2: int = i;
    let ghost mut j2: int = j;
    if e2 >= -dy {
        next.err = next.err - dy;
        next.x = next.x + sx;
        proof {
            i2 = i + 1;
        }
    }
    if e2 <= dx {
        next.err = next.err + dx;
        next.y = next.y + sy;
        proof {
            j2 = j + 1;
        }
    }
    proof {
        lemma_line_next(x0, y0, x1, y1, (pen.x, pen.y), (next.x, next.y), pen.err as int, e2 >= -dy, e2 <= dx);
        lemma_near_line(x0, y0, x1, y1, (next.x, next.y), i2, j2, next.err as int);
    }
    next
}

/// The pixels Bresenham's algorithm visits from (`x0`, `y0`) to (`x1`, `y1`),
/// in order: the first is the start, each next one is `line_next` of the one
/// before until the end is reached, and the last is the end. Each pixel lies
/// near the ideal line and follows the one before by a single step.
pub fn line_points(x0: isize, y0: isize, x1: isize, y1: isize) -> (pts: Vec<(isize, isize)>)
    requires
        line_in_range(x0, y0, x1, y1),
    ensures
        pts@.len() >= 1,
        pts@[0] == (x0, y0),
        pts@.last() == (x1, y1),
        forall|k: int|
            0 <= k < pts@.len() - 1 ==> #[trigger] pts@[k] != (x1, y1) && pts@[k + 1] == line_next(
                x0,
                y0,
                x1,
                y1,
                pts@[k],
            ),
        forall|k: int| 0 <= k < pts@.len() ==> near_line(x0, y0, x1, y1, #[trigger] pts@[k]),
        forall|k: int| 0 <= k < pts@.len() - 1 ==> line_step(x0, y0, #[trigger] pts@[k], pts@[k + 1]),
{
    let mut pen = line_start(x0, y0, x1, y1);
    let mut pts: Vec<(isize, isize)> = Vec::new();
    assert(line_prefix_ok(x0, y0, x1, y1, pts@)) by {
        reveal(line_prefix_ok);
    }
    loop
        invariant_except_break
            pts@.len() > 0 ==> line_step(x0, y0, pts@.last(), (pen.x, pen.y)),
            pts@.len() > 0 ==> pts@.last() != (x1, y1) && (pen.x, pen.y) == line_next(x0, y0, x1, y1, pts@.last()),
        invariant
            line_in_range(x0, y0, x1, y1),
            pen_ok(x0, y0, x1, y1, pen),
            near_line(x0, y0, x1, y1, (pen.x, pen.y)),
            pts@.len() == 0 ==> pen.x == x0 && pen.y == y0,
            pts@.len() > 0 ==> pts@[0] == (x0, y0),
            line_prefix_ok(x0, y0, x1, y1, pts@),
        ensures
            pts@.len() >= 1,
            pts@[0] == (x0, y0),
            pts@.last() == (x1, y1),
            line_prefix_ok(x0, y0, x1, y1, pts@),
        decreases abs(x1 - x0) + abs(y1 - y0) - pen_progress(x0, y0, pen),
    {
        let ghost before = pts@;
        pts.push((pen.x, pen.y));
        proof {
            lemma_line_push(x0, y0, x1, y1, before, (pen.x, pen.y));
        }
        if pen.x == x1 && pen.y == y1 {
            break;
        }
        pen = line_advance(x0, y0, x1, y1, &pen);
    }
    proof {
        reveal(line_prefix_ok);
    }
    pts
}

} // verus!

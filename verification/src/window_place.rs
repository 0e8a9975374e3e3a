//! Keeping the pet window on a screen: of all monitors, the window moves to
//! the nearest position at which it lies wholly inside one of them.
use vstd::prelude::*;

verus! {

/// A monitor's area in physical pixels.
#[derive(Debug, Clone, Copy, PartialEq, Eq)]
pub struct MonitorArea {
    pub x: i32,
    pub y: i32,
    pub width: i32,
    pub height: i32,
}

pub open spec fn clamp_int(v: int, lo: int, hi: int) -> int {
    if v < lo {
        lo
    } else if v > hi {
        hi
    } else {
        v
    }
}

pub open spec fn max_int(a: int, b: int) -> int {
    if a >= b {
        a
    } else {
        b
    }
}

/// The position nearest to `(px, py)` at which a `w` by `h` window lies
/// inside the monitor (its top-left corner when the window is larger).
pub open spec fn fit_into(px: int, py: int, w: int, h: int, m: MonitorArea) -> (int, int) {
    let max_x = max_int(m.x + m.width - w, m.x as int);
    let max_y = max_int(m.y + m.height - h, m.y as int);
    (clamp_int(px, m.x as int, max_x), clamp_int(py, m.y as int, max_y))
}

pub open spec fn dist_sq(px: int, py: int, t: (int, int)) -> int {
    (px - t.0) * (px - t.0) + (py - t.1) * (py - t.1)
}

/// Scanning the first `n` monitors in order: the best position so far and
/// its squared distance; a later monitor wins only when strictly nearer.
pub open spec fn best_fit(px: int, py: int, w: int, h: int, ms: Seq<MonitorArea>, n: nat) -> (int, int, int)
    decreases n,
{
    if n == 0 {
        (px, py, i64::MAX as int)
    } else {
        let prev = best_fit(px, py, w, h, ms, (n - 1) as nat);
        let t = fit_into(px, py, w, h, ms[n - 1]);
        let d = dist_sq(px, py, t);
        if d < prev.2 {
            (t.0, t.1, d)
        } else {
            prev
        }
    }
}

proof fn lemma_fit_bounds(px: int, py: int, w: int, h: int, m: MonitorArea)
    requires
        i32::MIN <= px <= i32::MAX,
        i32::MIN <= py <= i32::MAX,
    ensures
        i32::MIN <= fit_into(px, py, w, h, m).0 <= i32::MAX,
        i32::MIN <= fit_into(px, py, w, h, m).1 <= i32::MAX,
{
}

proof fn lemma_best_bounds(px: int, py: int, w: int, h: int, ms: Seq<MonitorArea>, n: nat)
    requires
        i32::MIN <= px <= i32::MAX,
        i32::MIN <= py <= i32::MAX,
        n <= ms.len(),
    ensures
        i32::MIN <= best_fit(px, py, w, h, ms, n).0 <= i32::MAX,
        i32::MIN <= best_fit(px, py, w, h, ms, n).1 <= i32::MAX,
        0 <= best_fit(px, py, w, h, ms, n).2 <= i64::MAX,
    decreases n,
{
    if n > 0 {
        lemma_best_bounds(px, py, w, h, ms, (n - 1) as nat);
        lemma_fit_bounds(px, py, w, h, ms[n - 1]);
        let t = fit_into(px, py, w, h, ms[n - 1]);
        let (a, b) = (px - t.0, py - t.1);
        assert(a * a >= 0 && b * b >= 0) by (nonlinear_arith);
    }
}

/// The window goes to the nearest place that fits it on a monitor: the
/// chosen position is at least as near to the window as the position that
/// fits it into any one of the monitors.
pub proof fn nearest_fit_is_chosen(px: int, py: int, w: int, h: int, ms: Seq<MonitorArea>, n: nat)
    requires
        n <= ms.len(),
    ensures
        forall|i: int|
            0 <= i < n ==> best_fit(px, py, w, h, ms, n).2 <= #[trigger] dist_sq(
                px,
                py,
                fit_into(px, py, w, h, ms[i]),
            ),
    decreases n,
{
    if n > 0 {
        nearest_fit_is_chosen(px, py, w, h, ms, (n - 1) as nat);
    }
}

/// Where the window at `(pos_x, pos_y)`, `win_w` by `win_h`, should move so
/// that it lies inside a monitor: of the positions that fit it into each
/// monitor, the nearest (the first of equally near ones). `None` when there
/// is no monitor or the window need not move.
pub fn clamp_window_to_screen(
    pos_x: i32,
    pos_y: i32,
    win_w: i32,
    win_h: i32,
    monitors: &Vec<MonitorArea>,
) -> (r: Option<(i32, i32)>)
    ensures
        ({
            let b = best_fit(
                pos_x as int,
                pos_y as int,
                win_w as int,
                win_h as int,
                monitors@,
                monitors@.len(),
            );
            if monitors@.len() == 0 || (b.0 == pos_x && b.1 == pos_y) {
                r is None
            } else {
                r == Some((b.0 as i32, b.1 as i32))
            }
        }),
{
    let ghost (px, py, w, h) = (pos_x as int, pos_y as int, win_w as int, win_h as int);
    if monitors.len() == 0 {
        return None;
    }
    let mut best_x: i32 = pos_x;
    let mut best_y: i32 = pos_y;
    let mut best_dist: i128 = i64::MAX as i128;
    let n = monitors.len();
    let mut i: usize = 0;
    while i < n
        invariant
            n == monitors@.len(),
            i <= n,
            px == pos_x,
            py == pos_y,
            w == win_w,
            h == win_h,
            (best_x as int, best_y as int, best_dist as int) == best_fit(
                px,
                py,
                w,
                h,
                monitors@,
                i as nat,
            ),
        decreases n - i,
    {
        let m = monitors[i];
        proof {
            lemma_best_bounds(px, py, w, h, monitors@, (i + 1) as nat);
            lemma_fit_bounds(px, py, w, h, m);
        }
        let wide = m.x as i64 + m.width as i64 - win_w as i64;
        let max_x: i64 = if wide >= m.x as i64 {
            wide
        } else {
            m.x as i64
        };
        let tall = m.y as i64 + m.height as i64 - win_h as i64;
        let max_y: i64 = if tall >= m.y as i64 {
            tall
        } else {
            m.y as i64
        };
        let cx: i64 = if (pos_x as i64) < m.x as i64 {
            m.x as i64
        } else if pos_x as i64 > max_x {
            max_x
        } else {
            pos_x as i64
        };
        let cy: i64 = if (pos_y as i64) < m.y as i64 {
            m.y as i64
        } else if pos_y as i64 > max_y {
            max_y
        } else {
            pos_y as i64
        };
        assert((cx as int, cy as int) == fit_into(px, py, w, h, m));
        let dx: i128 = pos_x as i128 - cx as i128;
        let dy: i128 = pos_y as i128 - cy as i128;
        assert(0 <= dx * dx <= 0x1_0000_0000 * 0x1_0000_0000) by (nonlinear_arith)
            requires
                -0x1_0000_0000 <= dx <= 0x1_0000_0000,
        ;
        assert(0 <= dy * dy <= 0x1_0000_0000 * 0x1_0000_0000) by (nonlinear_arith)
            requires
                -0x1_0000_0000 <= dy <= 0x1_0000_0000,
        ;
        let dist: i128 = dx * dx + dy * dy;
        if dist < best_dist {
            best_dist = dist;
            best_x = cx as i32;
            best_y = cy as i32;
        }
        i = i + 1;
    }
    if best_x == pos_x && best_y == pos_y {
        None
    } else {
        Some((best_x, best_y))
    }
}

} // verus!

//! The animation that destroys the text: every cell of an area is emptied, each at its
//! own fixed point in the timeline, so the text scatters away rather than vanishing all
//! at once.

use crate::canvas::{blank, buffer_area, buffer_cells, reset_cell, Cells, Rect};
use crate::time::Duration;
use ratatui::buffer::Buffer;
use vstd::prelude::*;

verus! {

/// One more than the largest noise value: a cut that every cell has passed.
pub const NOISE_RANGE: u64 = 0x1_0000_0000;

/// A dissolve in progress.
#[derive(Clone, Copy, Debug, PartialEq, Eq, Structural)]
pub struct Dissolve {
    pub duration: Duration,
    pub elapsed: Duration,
}

/// A pseudo-random value for the cell in column `x` and row `y`.
pub open spec fn noise(x: u16, y: u16) -> u32 {
    let mixed = (x as u32).wrapping_mul(0x9E37_79B1) ^ (y as u32).wrapping_mul(0x85EB_CA77);
    let spread = (mixed ^ (mixed >> 15)).wrapping_mul(0x2545_F491);
    spread ^ (spread >> 13)
}

/// A stable pseudo-random value for a cell position, as a count of 2^-32nds. It depends
/// on the position alone, so each cell dissolves at the same moment on every frame.
pub fn cell_noise(x: u16, y: u16) -> (h: u32)
    ensures
        h == noise(x, y),
{
    let mut h: u32 = (x as u32).wrapping_mul(0x9E37_79B1) ^ (y as u32).wrapping_mul(0x85EB_CA77);
    h = h ^ (h >> 15);
    h = h.wrapping_mul(0x2545_F491);
    h ^ (h >> 13)
}

/// `cells` with every cell of `area` emptied whose noise lies below `cut`.
pub open spec fn dissolved(cells: Cells, area: Rect, cut: u64) -> Cells {
    Map::new(
        |p: (u16, u16)| cells.dom().contains(p),
        |p: (u16, u16)|
            if area.has(p) && noise(p.0, p.1) < cut {
                blank()
            } else {
                cells[p]
            },
    )
}

impl Dissolve {
    /// The animation never runs past its end.
    pub open spec fn valid(self) -> bool {
        self.elapsed.nanos <= self.duration.nanos
    }

    /// The animation `dt` later.
    pub open spec fn after(self, dt: Duration) -> Dissolve {
        Dissolve {
            duration: self.duration,
            elapsed: if self.elapsed.nanos + dt.nanos < self.duration.nanos {
                Duration { nanos: (self.elapsed.nanos + dt.nanos) as u128 }
            } else {
                self.duration
            },
        }
    }

    /// Whether the animation has reached its end.
    pub open spec fn over(self) -> bool {
        self.elapsed.nanos >= self.duration.nanos
    }

    /// The noise below which cells have dissolved: `eased` while the animation runs, none
    /// before it has begun, and all at its end.
    pub open spec fn cut(self, eased: u64) -> u64 {
        if self.elapsed.nanos == 0 {
            0
        } else if self.over() {
            NOISE_RANGE
        } else {
            eased
        }
    }

    /// An animation that has not begun.
    pub fn new(duration: Duration) -> (fx: Dissolve)
        ensures
            fx == (Dissolve { duration, elapsed: Duration { nanos: 0 } }),
            fx.valid(),
    {
        Dissolve { duration, elapsed: Duration { nanos: 0 } }
    }

    /// Advance the animation by one frame's worth of time.
    pub fn tick(&mut self, dt: Duration)
        requires
            old(self).elapsed.nanos + dt.nanos <= u128::MAX,
        ensures
            *final(self) == old(self).after(dt),
            final(self).valid(),
    {
        let reached: u128 = self.elapsed.nanos + dt.nanos;
        if reached < self.duration.nanos {
            self.elapsed = Duration { nanos: reached };
        } else {
            self.elapsed = self.duration;
        }
    }

    /// Whether the animation has reached its end.
    pub fn done(&self) -> (over: bool)
        ensures
            over == self.over(),
    {
        self.elapsed.nanos >= self.duration.nanos
    }

    /// Empty every cell in `area` whose point in the timeline has been passed: `eased` is
    /// how far an animation under way has come, in 2^-32nds and rounded up.
    pub fn render(&self, buf: &mut Buffer, area: Rect, eased: u64)
        ensures
            buffer_area(*final(buf)) == buffer_area(*old(buf)),
            buffer_cells(*final(buf)) == dissolved(
                buffer_cells(*old(buf)),
                area,
                self.cut(eased),
            ),
    {
        let cut: u64 = if self.elapsed.nanos == 0 {
            0
        } else if self.done() {
            NOISE_RANGE
        } else {
            eased
        };
        let ghost cells = buffer_cells(*buf);
        let ghost bounds = buffer_area(*buf);
        let right: u16 = area.x.saturating_add(area.width);
        let bottom: u16 = area.y.saturating_add(area.height);
        let mut y: u16 = area.y;
        while y < bottom
            invariant
                area.y <= y,
                right == area.right(),
                bottom == area.bottom(),
                buffer_area(*buf) == bounds,
                buffer_cells(*buf).dom() == cells.dom(),
                forall|p: (u16, u16)| #[trigger]
                    cells.dom().contains(p) ==> buffer_cells(*buf)[p] == (if area.has(p) && p.1 < y
                        && noise(p.0, p.1) < cut {
                        blank()
                    } else {
                        cells[p]
                    }),
            decreases bottom - y,
        {
            let mut x: u16 = area.x;
            while x < right
                invariant
                    area.x <= x,
                    area.y <= y < bottom,
                    right == area.right(),
                    bottom == area.bottom(),
                    buffer_area(*buf) == bounds,
                    buffer_cells(*buf).dom() == cells.dom(),
                    forall|p: (u16, u16)| #[trigger]
                        cells.dom().contains(p) ==> buffer_cells(*buf)[p] == (if area.has(p)
                            && (p.1 < y || p.1 == y && p.0 < x) && noise(p.0, p.1) < cut {
                            blank()
                        } else {
                            cells[p]
                        }),
                decreases right - x,
            {
                if (cell_noise(x, y) as u64) < cut {
                    reset_cell(buf, x, y);
                    proof {
                        assert(buffer_cells(*buf).dom() =~= cells.dom());
                    }
                }
                x = x + 1;
            }
            y = y + 1;
        }
        proof {
            assert(buffer_cells(*buf) =~= dissolved(cells, area, cut));
        }
    }
}

/// Once the cut has passed every noise value, no cell of the area shows anything.
pub proof fn law_full_cut_empties_the_area(cells: Cells, area: Rect, cut: u64, p: (u16, u16))
    requires
        cut >= NOISE_RANGE,
        cells.dom().contains(p),
        area.has(p),
    ensures
        dissolved(cells, area, cut)[p] == blank(),
{
}

/// A dissolve touches no cell outside its area, and adds or removes none.
pub proof fn law_dissolve_stays_in_its_area(cells: Cells, area: Rect, cut: u64)
    ensures
        dissolved(cells, area, cut).dom() == cells.dom(),
        forall|p: (u16, u16)|
            cells.dom().contains(p) && !area.has(p) ==> #[trigger] dissolved(cells, area, cut)[p]
                == cells[p],
{
    assert(dissolved(cells, area, cut).dom() =~= cells.dom());
}

/// Cells that have dissolved stay dissolved: drawing a later frame over an earlier one
/// gives the later frame.
pub proof fn law_dissolve_only_grows(cells: Cells, area: Rect, earlier: u64, later: u64)
    requires
        earlier <= later,
    ensures
        dissolved(dissolved(cells, area, earlier), area, later) == dissolved(cells, area, later),
{
    assert(dissolved(dissolved(cells, area, earlier), area, later) =~= dissolved(
        cells,
        area,
        later,
    ));
}

/// The cut grows with time: a later frame of an animation, whose eased value is no smaller,
/// has no smaller a cut.
pub proof fn law_cut_grows_with_time(early: Dissolve, late: Dissolve, e1: u64, e2: u64)
    requires
        early.duration == late.duration,
        early.elapsed.nanos <= late.elapsed.nanos,
        e1 <= e2 <= NOISE_RANGE,
    ensures
        early.cut(e1) <= late.cut(e2),
{
}

/// A cell never comes back: what is empty in a frame of an animation is empty in every later
/// one over the same cells. Before any time has passed no cell is emptied, and a cell that
/// is not emptied is as it was.
pub proof fn law_cells_never_come_back(
    cells: Cells,
    area: Rect,
    early: Dissolve,
    late: Dissolve,
    e1: u64,
    e2: u64,
)
    requires
        early.duration == late.duration,
        early.elapsed.nanos <= late.elapsed.nanos,
        e1 <= e2 <= NOISE_RANGE,
    ensures
        forall|p: (u16, u16)|
            cells.dom().contains(p) && #[trigger] dissolved(cells, area, early.cut(e1))[p]
                == blank() ==> dissolved(cells, area, late.cut(e2))[p] == blank(),
        forall|p: (u16, u16)|
            cells.dom().contains(p) ==> #[trigger] dissolved(cells, area, early.cut(e1))[p]
                == blank() || dissolved(cells, area, early.cut(e1))[p] == cells[p],
        early.elapsed.nanos == 0 ==> dissolved(cells, area, early.cut(e1)) == cells,
{
    law_cut_grows_with_time(early, late, e1, e2);
    if early.elapsed.nanos == 0 {
        assert(dissolved(cells, area, early.cut(e1)) =~= cells);
    }
}

/// How far an animation has come depends on the time that has passed, not on the frames
/// it was cut into.
pub proof fn law_frames_add_up(fx: Dissolve, first: Duration, second: Duration)
    requires
        fx.valid(),
        first.nanos + second.nanos <= u128::MAX,
    ensures
        fx.after(first).after(second) == fx.after(
            Duration { nanos: (first.nanos + second.nanos) as u128 },
        ),
{
}

/// An animation is over as soon as its duration has passed, and not before; time never
/// takes it back.
pub proof fn law_animation_ends_on_time(fx: Dissolve, dt: Duration)
    requires
        fx.valid(),
    ensures
        fx.after(dt).valid(),
        fx.after(dt).elapsed.nanos >= fx.elapsed.nanos,
        fx.after(dt).over() <==> fx.elapsed.nanos + dt.nanos >= fx.duration.nanos,
{
}

/// The noise of a cell mixes column and row so that both can be got back out of it: undoing
/// the last two steps of mixing leads to what the column and the row, each by its factor,
/// were at first.
#[verifier::spinoff_prover]
#[verifier::rlimit(40)]
pub proof fn law_noise_can_be_unmixed(x: u16, y: u16)
    ensures
        ({
            let h = noise(x, y);
            let spread = h ^ (h >> 13) ^ (h >> 26);
            let mixed = ((spread * 0x4144_4C71) % 0x1_0000_0000) as u32;
            let column = ((x * 0x9E37_79B1) % 0x1_0000_0000) as u32;
            let row = ((y * 0x85EB_CA77) % 0x1_0000_0000) as u32;
            mixed ^ (mixed >> 15) ^ (mixed >> 30) == column ^ row
        }),
{
    let column = ((x * 0x9E37_79B1) % 0x1_0000_0000) as u32;
    let row = ((y * 0x85EB_CA77) % 0x1_0000_0000) as u32;
    let start = column ^ row;
    let mixed = start ^ (start >> 15);
    let spread = ((mixed * 0x2545_F491) % 0x1_0000_0000) as u32;
    let h = spread ^ (spread >> 13);
    assert(h == noise(x, y));
    assert(h ^ (h >> 13) ^ (h >> 26) == spread) by (bit_vector)
        requires
            h == spread ^ (spread >> 13),
    ;
    assert(mixed ^ (mixed >> 15) ^ (mixed >> 30) == start) by (bit_vector)
        requires
            mixed == start ^ (start >> 15),
    ;
    assert((spread * 0x4144_4C71) % 0x1_0000_0000 == mixed) by {
        lemma_factor_undone(mixed as int);
    }
}

/// The factor of the last step of mixing has an inverse.
proof fn lemma_factor_undone(m: int)
    requires
        0 <= m < 0x1_0000_0000,
    ensures
        (((m * 0x2545_F491) % 0x1_0000_0000) * 0x4144_4C71) % 0x1_0000_0000 == m,
{
    let q = (m * 0x2545_F491) / 0x1_0000_0000;
    let r = (m * 0x2545_F491) % 0x1_0000_0000;
    assert(m * 0x2545_F491 == q * 0x1_0000_0000 + r);
    assert(r * 0x4144_4C71 == m + (m * 159429839 - q * 0x4144_4C71) * 0x1_0000_0000) by (nonlinear_arith)
        requires
            m * 0x2545_F491 == q * 0x1_0000_0000 + r,
    ;
}

/// A cell of the area is emptied if and only if its noise lies below the cut; every other
/// cell is as it was.
pub proof fn law_the_cut_decides(cells: Cells, area: Rect, cut: u64, p: (u16, u16))
    requires
        cells.dom().contains(p),
    ensures
        dissolved(cells, area, cut).dom() == cells.dom(),
        area.has(p) && noise(p.0, p.1) < cut ==> dissolved(cells, area, cut)[p] == blank(),
        !area.has(p) || noise(p.0, p.1) >= cut ==> dissolved(cells, area, cut)[p] == cells[p],
{
    law_dissolve_stays_in_its_area(cells, area, cut);
}

/// An animation runs as long as it should: each frame adds its time until the end is
/// reached, and there it stays.
pub proof fn law_frames_add_their_time(fx: Dissolve, dt: Duration)
    ensures
        fx.after(dt).duration == fx.duration,
        fx.elapsed.nanos + dt.nanos < fx.duration.nanos ==> fx.after(dt).elapsed.nanos
            == fx.elapsed.nanos + dt.nanos,
        fx.elapsed.nanos + dt.nanos >= fx.duration.nanos ==> fx.after(dt).elapsed == fx.duration,
        fx.over() <==> fx.elapsed.nanos >= fx.duration.nanos,
        fx.valid() <==> fx.elapsed.nanos <= fx.duration.nanos,
{
}

/// Before any time has passed no cell has dissolved, at the end every one, and in between
/// those below the eased value.
pub proof fn law_cut_of_a_frame(fx: Dissolve, eased: u64)
    ensures
        NOISE_RANGE == u32::MAX + 1,
        fx.elapsed.nanos == 0 ==> fx.cut(eased) == 0,
        fx.elapsed.nanos > 0 && fx.elapsed.nanos >= fx.duration.nanos ==> fx.cut(eased)
            == NOISE_RANGE,
        0 < fx.elapsed.nanos < fx.duration.nanos ==> fx.cut(eased) == eased,
{
}

} // verus!

//! Strokes: what a pointer dragged over the window paints on the grid.

use vstd::prelude::*;
use vstd::arithmetic::div_mod::{
    lemma_fundamental_div_mod,
    lemma_fundamental_div_mod_converse,
    lemma_mod_bound,
};
use crate::line::{
    lemma_horizontal_line,
    line_point,
    line_prefix_covers,
    line_steps,
    on_line,
    point,
    LineWalk,
};
use crate::world::{lemma_index_in_range, lemma_index_to_coordinates, World, WorldView};

verus! {

impl WorldView {
    /// The same world with the first `m` cells of the line from `a` to `b` set
    /// to live.
    spec fn with_line_prefix(self, a: (int, int), b: (int, int), m: int) -> WorldView {
        WorldView {
            cells: Seq::new(
                self.cells.len(),
                |i: int|
                    self.cells[i] || line_prefix_covers(
                        a,
                        b,
                        m,
                        (self.column_of(i), self.row_of(i)),
                    ),
            ),
            ..self
        }
    }

    /// The same world with every cell on the line from `a` to `b` set to live.
    /// Cells that were live stay live; the part of the line that lies outside
    /// the grid paints nothing.
    pub open spec fn with_line(self, a: (int, int), b: (int, int)) -> WorldView {
        WorldView {
            cells: Seq::new(
                self.cells.len(),
                |i: int| self.cells[i] || on_line(a, b, (self.column_of(i), self.row_of(i))),
            ),
            ..self
        }
    }
}

/// Setting the next cell of a line to live extends the painted part of the
/// line by one cell.
proof fn lemma_paint_next(g: WorldView, a: (int, int), b: (int, int), m: int)
    requires
        g.wf(),
        0 <= m,
    ensures
        g.with_line_prefix(a, b, m).with_cell(line_point(a, b, m).0, line_point(a, b, m).1, true)
            == g.with_line_prefix(a, b, m + 1),
        g.with_line_prefix(a, b, 0) == g,
{
    let p = line_point(a, b, m);
    let before = g.with_line_prefix(a, b, m);
    let after = before.with_cell(p.0, p.1, true);
    let goal = g.with_line_prefix(a, b, m + 1);
    if g.in_bounds(p.0, p.1) {
        lemma_index_in_range(g, p.0, p.1);
    }
    assert(after.cells.len() == goal.cells.len());
    assert forall|i: int| 0 <= i < goal.cells.len() implies after.cells[i] == goal.cells[i] by {
        let c = (g.column_of(i), g.row_of(i));
        lemma_index_to_coordinates(g, i);
        if line_prefix_covers(a, b, m, c) {
            let k = choose|k: int| 0 <= k < m && #[trigger] line_point(a, b, k) == c;
            assert(0 <= k < m + 1 && line_point(a, b, k) == c);
        }
        if p == c {
            assert(0 <= m < m + 1 && line_point(a, b, m) == c);
        }
        if line_prefix_covers(a, b, m + 1, c) {
            let k = choose|k: int| 0 <= k < m + 1 && #[trigger] line_point(a, b, k) == c;
            if k < m {
                assert(0 <= k < m && line_point(a, b, k) == c);
            }
        }
    }
    assert(after.cells =~= goal.cells);
    assert(g.with_line_prefix(a, b, 0).cells =~= g.cells);
}

/// Sets every cell on the line from `from` to `to` to live, both ends
/// included. Cells that were live stay live, and where the line leaves the
/// grid nothing is painted.
pub fn paint_line(world: &mut World, from: (i32, i32), to: (i32, i32))
    ensures
        final(world)@ == old(world)@.with_line(point(from), point(to)),
        final(world).label() == old(world).label(),
{
    let ghost a = point(from);
    let ghost b = point(to);
    let ghost g = world@;
    let mut walk = LineWalk::new(from, to);
    let first: (i32, i32) = walk.position();
    proof {
        use_type_invariant(&*world);
        lemma_paint_next(g, a, b, 0);
    }
    world.set_alive(first.0 as i64, first.1 as i64);
    while !walk.at_end()
        invariant
            g.wf(),
            walk@.from == a,
            walk@.to == b,
            walk@.wf(),
            world@ == g.with_line_prefix(a, b, walk@.taken + 1),
            world.label() == old(world).label(),
        decreases line_steps(a, b) - walk@.taken,
    {
        walk.advance();
        let next: (i32, i32) = walk.position();
        proof {
            lemma_paint_next(g, a, b, walk@.taken);
        }
        world.set_alive(next.0 as i64, next.1 as i64);
    }
    proof {
        assert(world@.cells =~= g.with_line(a, b).cells);
    }
}

/// A stroke along one row paints the same cells however often the pointer
/// was sampled on the way: a line to a cell in between and on from there
/// covers what the line between the two ends covers.
pub proof fn lemma_row_stroke_splits(g: WorldView, a: (int, int), m: (int, int), b: (int, int))
    requires
        a.1 == m.1,
        m.1 == b.1,
        a.0 <= m.0 <= b.0 || b.0 <= m.0 <= a.0,
    ensures
        g.with_line(a, m).with_line(m, b) == g.with_line(a, b),
{
    let halfway = g.with_line(a, m);
    assert forall|i: int| 0 <= i < g.cells.len() implies halfway.with_line(m, b).cells[i]
        == g.with_line(a, b).cells[i] by {
        let c = (g.column_of(i), g.row_of(i));
        lemma_horizontal_line(a, m, c);
        lemma_horizontal_line(m, b, c);
        lemma_horizontal_line(a, b, c);
    }
    assert(halfway.with_line(m, b).cells =~= g.with_line(a, b).cells);
}

/// The cell that holds pixel coordinate `p` where cells are `size` pixels
/// wide: `p / size` rounded down, so that pixels left of or above the window
/// fall into cells outside the grid.
pub open spec fn cell_of(p: int, size: int) -> int {
    p / size
}

/// The cell that holds the pixel `p`.
pub open spec fn cell_at(p: (i32, i32), size: int) -> (int, int) {
    (cell_of(p.0 as int, size), cell_of(p.1 as int, size))
}

/// The cell coordinate of pixel coordinate `p` for cells of `size` pixels.
pub fn to_cell(p: i32, size: u32) -> (c: i32)
    requires
        size > 0,
    ensures
        c == cell_of(p as int, size as int),
{
    let s: i64 = size as i64;
    let q: i64 = p as i64;
    if q >= 0 {
        proof {
            lemma_fundamental_div_mod(q as int, s as int);
            lemma_mod_bound(q as int, s as int);
            vstd::arithmetic::div_mod::lemma_div_pos_is_pos(q as int, s as int);
            assert(s * (q / s) >= q / s) by (nonlinear_arith)
                requires
                    s >= 1,
                    q / s >= 0,
            ;
        }
        (q / s) as i32
    } else {
        let m: i64 = -q - 1;
        let t: i64 = m / s;
        proof {
            lemma_fundamental_div_mod(m as int, s as int);
            lemma_mod_bound(m as int, s as int);
            vstd::arithmetic::div_mod::lemma_div_pos_is_pos(m as int, s as int);
            let r = (m as int) % (s as int);
            assert(s * t >= t) by (nonlinear_arith)
                requires
                    s >= 1,
                    t >= 0,
            ;
            assert((-t - 1) * s == -(s * t) - s) by (nonlinear_arith);
            lemma_fundamental_div_mod_converse(q as int, s as int, -t - 1, s - 1 - r);
        }
        (-t - 1) as i32
    }
}

impl WorldView {
    /// The world after a batch of pointer samples has been painted: a line
    /// from each sample to the next, starting from `last`, the sample before
    /// the batch, where there is one. Samples are in pixels, `size` to a cell.
    pub open spec fn with_stroke(
        self,
        last: Option<(i32, i32)>,
        samples: Seq<(i32, i32)>,
        size: int,
    ) -> WorldView
        decreases samples.len(),
    {
        if samples.len() == 0 {
            self
        } else {
            let before = self.with_stroke(last, samples.drop_last(), size);
            let from = if samples.len() == 1 {
                last
            } else {
                Some(samples[samples.len() - 2])
            };
            match from {
                Some(p) => before.with_line(cell_at(p, size), cell_at(samples.last(), size)),
                None => before,
            }
        }
    }
}

/// Painting changes cells only: the size of the grid and the simulation state
/// stay as they are.
pub proof fn lemma_stroke_keeps_frame(
    g: WorldView,
    last: Option<(i32, i32)>,
    samples: Seq<(i32, i32)>,
    size: int,
)
    ensures
        g.with_stroke(last, samples, size).width == g.width,
        g.with_stroke(last, samples, size).height == g.height,
        g.with_stroke(last, samples, size).state == g.state,
        g.with_stroke(last, samples, size).cells.len() == g.cells.len(),
    decreases samples.len(),
{
    if samples.len() > 0 {
        lemma_stroke_keeps_frame(g, last, samples.drop_last(), size);
    }
}

/// A stroke never erases: a cell that is live stays live whatever is painted.
pub proof fn lemma_stroke_never_erases(
    g: WorldView,
    last: Option<(i32, i32)>,
    samples: Seq<(i32, i32)>,
    size: int,
    i: int,
)
    requires
        0 <= i < g.cells.len(),
        g.cells[i],
    ensures
        g.with_stroke(last, samples, size).cells[i],
    decreases samples.len(),
{
    if samples.len() > 0 {
        lemma_stroke_never_erases(g, last, samples.drop_last(), size, i);
        lemma_stroke_keeps_frame(g, last, samples.drop_last(), size);
    }
}

/// The sample that a stroke continues from after a batch of samples.
pub open spec fn last_sample(last: Option<(i32, i32)>, samples: Seq<(i32, i32)>) -> Option<
    (i32, i32),
> {
    if samples.len() == 0 {
        last
    } else {
        Some(samples.last())
    }
}

/// Paints a batch of pointer samples, given in pixels, on a grid whose cells
/// are `cell_size` pixels wide: a line of live cells from each sample to the
/// next, beginning at `last`, the sample before the batch, if there is one.
/// Returns the sample from which the next batch continues.
pub fn rasterize(
    world: &mut World,
    last: Option<(i32, i32)>,
    samples: &Vec<(i32, i32)>,
    cell_size: u32,
) -> (end: Option<(i32, i32)>)
    requires
        cell_size > 0,
    ensures
        final(world)@ == old(world)@.with_stroke(last, samples@, cell_size as int),
        final(world).label() == old(world).label(),
        end == last_sample(last, samples@),
{
    let ghost g = world@;
    let mut from: Option<(i32, i32)> = last;
    let mut i: usize = 0;
    while i < samples.len()
        invariant
            cell_size > 0,
            i <= samples.len(),
            world@ == g.with_stroke(last, samples@.take(i as int), cell_size as int),
            world.label() == old(world).label(),
            from == last_sample(last, samples@.take(i as int)),
        decreases samples.len() - i,
    {
        let to: (i32, i32) = samples[i];
        proof {
            let next = samples@.take(i + 1);
            assert(next.drop_last() =~= samples@.take(i as int));
            assert(next.last() == to);
            if i > 0 {
                assert(next[next.len() - 2] == samples@.take(i as int).last());
            }
        }
        match from {
            Some(p) => {
                let a: (i32, i32) = (to_cell(p.0, cell_size), to_cell(p.1, cell_size));
                let b: (i32, i32) = (to_cell(to.0, cell_size), to_cell(to.1, cell_size));
                paint_line(world, a, b);
            },
            None => {},
        }
        from = Some(to);
        i = i + 1;
    }
    proof {
        assert(samples@.take(samples.len() as int) =~= samples@);
    }
    from
}

/// What a stroke holds.
pub struct StrokeView {
    /// Whether the pointer button is down.
    pub active: bool,
    /// The samples gathered since the last batch was painted.
    pub pending: Seq<(i32, i32)>,
    /// The last sample of the batches painted so far, from which the next
    /// batch continues; `None` where the stroke has no such sample yet.
    pub last: Option<(i32, i32)>,
}

impl StrokeView {
    /// No stroke in progress.
    pub open spec fn idle() -> StrokeView {
        StrokeView { active: false, pending: Seq::empty(), last: None }
    }

    /// The stroke after the pointer button went down at `p`: a new stroke
    /// whose only sample is `p`, with nothing painted yet. A line needs two
    /// samples, so the press alone paints nothing; the first move draws from
    /// `p`.
    pub open spec fn begun(self, p: (i32, i32)) -> StrokeView {
        StrokeView { active: true, pending: seq![p], last: None }
    }

    /// The stroke after the pointer moved to `p`: the sample counts only
    /// while the button is down.
    pub open spec fn extended(self, p: (i32, i32)) -> StrokeView {
        if self.active {
            StrokeView { pending: self.pending.push(p), ..self }
        } else {
            self
        }
    }

    /// The stroke after its pending samples have been painted.
    pub open spec fn drained(self) -> StrokeView {
        if self.active {
            StrokeView {
                active: true,
                pending: Seq::empty(),
                last: last_sample(self.last, self.pending),
            }
        } else {
            self
        }
    }
}

impl WorldView {
    /// The world after the pending samples of a stroke have been painted;
    /// a stroke whose button is up paints nothing.
    pub open spec fn with_pending(self, stroke: StrokeView, size: int) -> WorldView {
        if stroke.active {
            self.with_stroke(stroke.last, stroke.pending, size)
        } else {
            self
        }
    }
}

/// A stroke with no sample or with one sample paints nothing: a press of the
/// button alone leaves the world as it is, and so does a stroke whose
/// samples have all been painted.
pub proof fn lemma_short_stroke_paints_nothing(
    g: WorldView,
    s: StrokeView,
    p: (i32, i32),
    size: int,
)
    ensures
        g.with_pending(s.begun(p), size) == g,
        g.with_pending(s.drained(), size) == g,
        g.with_stroke(None, seq![p], size) == g,
        g.with_stroke(s.last, Seq::empty(), size) == g,
{
    reveal_with_fuel(WorldView::with_stroke, 2);
    assert(seq![p].drop_last() =~= Seq::<(i32, i32)>::empty());
}

/// A press followed by one move paints the line between the two cells.
pub proof fn lemma_press_and_move_paint_a_line(
    g: WorldView,
    s: StrokeView,
    p: (i32, i32),
    q: (i32, i32),
    size: int,
)
    ensures
        g.with_pending(s.begun(p).extended(q), size) == g.with_line(
            cell_at(p, size),
            cell_at(q, size),
        ),
        g.with_pending(s.begun(p).drained().extended(q), size) == g.with_line(
            cell_at(p, size),
            cell_at(q, size),
        ),
{
    reveal_with_fuel(WorldView::with_stroke, 3);
    let both = seq![p, q];
    assert(both.drop_last() =~= seq![p]);
    assert(seq![p].drop_last() =~= Seq::<(i32, i32)>::empty());
    assert(s.begun(p).extended(q).pending =~= both);
    let later = s.begun(p).drained().extended(q);
    assert(later.pending =~= seq![q]);
    assert(seq![q].drop_last() =~= Seq::<(i32, i32)>::empty());
    assert(later.last == Some(p));
}

/// The state of one press-drag-release gesture of the pointer. Positions are
/// in pixels.
#[derive(Clone, Debug, PartialEq)]
pub struct Stroke {
    pub active: bool,
    pub pending: Vec<(i32, i32)>,
    pub last: Option<(i32, i32)>,
}

impl View for Stroke {
    type V = StrokeView;

    open spec fn view(&self) -> StrokeView {
        StrokeView { active: self.active, pending: self.pending@, last: self.last }
    }
}

impl Stroke {
    /// No stroke in progress.
    pub fn new() -> (s: Stroke)
        ensures
            s@ == StrokeView::idle(),
    {
        Stroke { active: false, pending: Vec::new(), last: None }
    }

    /// The pointer button went down at `(x, y)`: a stroke begins there. The
    /// press is recorded as the first sample and paints nothing by itself.
    pub fn begin(&mut self, x: i32, y: i32)
        ensures
            final(self)@ == old(self)@.begun((x, y)),
    {
        self.active = true;
        self.pending.clear();
        self.pending.push((x, y));
        self.last = None;
        assert(self.pending@ =~= seq![(x, y)]);
    }

    /// The pointer moved to `(x, y)`.
    pub fn extend(&mut self, x: i32, y: i32)
        ensures
            final(self)@ == old(self)@.extended((x, y)),
    {
        if self.active {
            self.pending.push((x, y));
        }
    }

    /// The pointer button went up: the stroke is over, and samples not yet
    /// painted are dropped.
    pub fn end(&mut self)
        ensures
            final(self)@ == StrokeView::idle(),
    {
        self.active = false;
        self.last = None;
        self.pending.clear();
    }

    /// Paints the pending samples on `world`, whose cells are `cell_size`
    /// pixels wide, and keeps the last of them as the point from which the
    /// stroke continues. Does nothing while the button is up.
    pub fn apply(&mut self, world: &mut World, cell_size: u32)
        requires
            cell_size > 0,
        ensures
            final(world)@ == old(world)@.with_pending(old(self)@, cell_size as int),
            final(world).label() == old(world).label(),
            final(self)@ == old(self)@.drained(),
    {
        if self.active {
            let end: Option<(i32, i32)> = rasterize(world, self.last, &self.pending, cell_size);
            self.last = end;
            self.pending.clear();
        }
    }
}

} // verus!

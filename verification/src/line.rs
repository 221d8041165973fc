//! Straight lines on the grid: which cells a segment between two cells passes
//! through, and in which order.

use vstd::prelude::*;
use vstd::arithmetic::div_mod::{
    lemma_fundamental_div_mod,
    lemma_fundamental_div_mod_converse,
    lemma_mod_bound,
};

verus! {

/// A cell as a pair of mathematical integers.
pub open spec fn point(p: (i32, i32)) -> (int, int) {
    (p.0 as int, p.1 as int)
}

/// How far apart two coordinates are.
pub open spec fn distance(a: int, b: int) -> int {
    if a <= b {
        b - a
    } else {
        a - b
    }
}

/// The coordinate `offset` away from `from` on the side of `to`.
pub open spec fn toward(from: int, to: int, offset: int) -> int {
    if from < to {
        from + offset
    } else {
        from - offset
    }
}

/// `p / n` rounded to the nearest integer, a half rounded up. Meant for
/// `p >= 0` and `n > 0`.
pub open spec fn nearest(p: int, n: int) -> int {
    (2 * p + n) / (2 * n)
}

/// The number of steps from `a` to `b`: the larger of the two distances.
pub open spec fn line_steps(a: (int, int), b: (int, int)) -> int {
    if distance(a.0, b.0) >= distance(a.1, b.1) {
        distance(a.0, b.0)
    } else {
        distance(a.1, b.1)
    }
}

/// The cell reached after `k` steps on the way from `a` to `b`: `k` steps
/// along the longer side, and along the shorter side the nearest whole number
/// to the same share of it.
pub open spec fn line_point(a: (int, int), b: (int, int), k: int) -> (int, int) {
    let n = line_steps(a, b);
    if n == 0 {
        a
    } else {
        (
            toward(a.0, b.0, nearest(k * distance(a.0, b.0), n)),
            toward(a.1, b.1, nearest(k * distance(a.1, b.1), n)),
        )
    }
}

/// Whether `c` is among the first `m` cells on the way from `a` to `b`.
pub open spec fn line_prefix_covers(a: (int, int), b: (int, int), m: int, c: (int, int)) -> bool {
    exists|k: int| 0 <= k < m && #[trigger] line_point(a, b, k) == c
}

/// Whether the line from `a` to `b`, both ends included, passes through `c`.
pub open spec fn on_line(a: (int, int), b: (int, int), c: (int, int)) -> bool {
    line_prefix_covers(a, b, line_steps(a, b) + 1, c)
}

/// The cells of the line from `a` to `b` in the order in which the line
/// passes through them, both ends included.
pub open spec fn line(a: (int, int), b: (int, int)) -> Seq<(int, int)> {
    Seq::new((line_steps(a, b) + 1) as nat, |k: int| line_point(a, b, k))
}

/// `nearest(p, n)` is the one integer `q` with `q - 1/2 <= p / n < q + 1/2`.
pub proof fn lemma_nearest_bounds(p: int, n: int)
    requires
        n > 0,
    ensures
        2 * n * nearest(p, n) <= 2 * p + n < 2 * n * nearest(p, n) + 2 * n,
{
    let d = 2 * n;
    let x = 2 * p + n;
    lemma_fundamental_div_mod(x, d);
    lemma_mod_bound(x, d);
    assert(d * (x / d) == 2 * n * nearest(p, n)) by (nonlinear_arith)
        requires
            d == 2 * n,
            x / d == nearest(p, n),
    ;
}

/// The only integer `q` with `2nq <= 2p + n < 2nq + 2n` is `nearest(p, n)`.
pub proof fn lemma_nearest_unique(p: int, n: int, q: int)
    requires
        n > 0,
        2 * n * q <= 2 * p + n < 2 * n * q + 2 * n,
    ensures
        nearest(p, n) == q,
{
    let d = 2 * n;
    let x = 2 * p + n;
    let r = x - 2 * n * q;
    assert(q * d == 2 * n * q) by (nonlinear_arith)
        requires
            d == 2 * n,
    ;
    lemma_fundamental_div_mod_converse(x, d, q, r);
}

/// A whole number of `n`-ths is its own nearest integer.
pub proof fn lemma_nearest_of_multiple(k: int, n: int)
    requires
        n > 0,
    ensures
        nearest(k * n, n) == k,
{
    assert(2 * n * k == 2 * (k * n)) by (nonlinear_arith);
    lemma_nearest_unique(k * n, n, k);
}

/// On the way over `n` steps, the share of a side no longer than `n` grows
/// from nothing to the whole side and never exceeds the number of steps taken.
pub proof fn lemma_nearest_range(k: int, d: int, n: int)
    requires
        n > 0,
        0 <= d <= n,
        0 <= k <= n,
    ensures
        0 <= nearest(k * d, n) <= d,
        nearest(k * d, n) <= k,
        nearest(0 * d, n) == 0,
        nearest(n * d, n) == d,
{
    let q = nearest(k * d, n);
    lemma_nearest_bounds(k * d, n);
    assert(0 <= k * d <= n * d && k * d <= k * n) by (nonlinear_arith)
        requires
            0 <= d <= n,
            0 <= k <= n,
    ;
    if q < 0 {
        assert(2 * n * q + 2 * n <= 0) by (nonlinear_arith)
            requires
                q <= -1,
                n > 0,
        ;
    }
    if q > d {
        assert(2 * n * q >= 2 * n * d + 2 * n) by (nonlinear_arith)
            requires
                q >= d + 1,
                n > 0,
        ;
        assert(2 * n * d == 2 * (n * d)) by (nonlinear_arith);
    }
    if q > k {
        assert(2 * n * q >= 2 * n * k + 2 * n) by (nonlinear_arith)
            requires
                q >= k + 1,
                n > 0,
        ;
        assert(2 * n * k == 2 * (k * n)) by (nonlinear_arith);
    }
    assert(0 * d == 0);
    lemma_nearest_unique(0, n, 0);
    assert(n * d == d * n) by (nonlinear_arith);
    lemma_nearest_of_multiple(d, n);
}

/// The error term that the walk from one cell to another carries after `k`
/// steps, for sides `dx` and `dy`.
pub open spec fn line_error(dx: int, dy: int, k: int) -> int {
    let n = if dx >= dy {
        dx
    } else {
        dy
    };
    (nearest(k * dy, n) + 1) * dx - (nearest(k * dx, n) + 1) * dy
}

/// Before the first step the error term is the difference of the sides.
pub proof fn lemma_line_error_start(dx: int, dy: int)
    requires
        0 <= dx,
        0 <= dy,
        0 < dx || 0 < dy,
    ensures
        line_error(dx, dy, 0) == dx - dy,
{
    let n = if dx >= dy {
        dx
    } else {
        dy
    };
    lemma_nearest_range(0, dx, n);
    lemma_nearest_range(0, dy, n);
    let a = nearest(0 * dx, n);
    let b = nearest(0 * dy, n);
    assert((b + 1) * dx == dx && (a + 1) * dy == dy) by (nonlinear_arith)
        requires
            a == 0,
            b == 0,
    ;
}

/// One step of the walk, decided on the error term alone: the share of each
/// side either stays or grows by one, and the error term says which.
pub proof fn lemma_line_step(dx: int, dy: int, k: int)
    requires
        0 <= dx,
        0 <= dy,
        0 <= k,
        k < dx || k < dy,
    ensures
        ({
            let n = if dx >= dy {
                dx
            } else {
                dy
            };
            let e = line_error(dx, dy, k);
            &&& nearest((k + 1) * dx, n) == nearest(k * dx, n) + if 2 * e >= -dy {
                1int
            } else {
                0int
            }
            &&& nearest((k + 1) * dy, n) == nearest(k * dy, n) + if 2 * e <= dx {
                1int
            } else {
                0int
            }
            &&& line_error(dx, dy, k + 1) == e + (if 2 * e <= dx {
                dx
            } else {
                0int
            }) - (if 2 * e >= -dy {
                dy
            } else {
                0int
            })
            &&& -3 * dy <= 2 * e <= 3 * dx
        }),
{
    let n = if dx >= dy {
        dx
    } else {
        dy
    };
    let a = nearest(k * dx, n);
    let b = nearest(k * dy, n);
    let e = line_error(dx, dy, k);
    lemma_nearest_bounds(k * dx, n);
    lemma_nearest_bounds(k * dy, n);
    assert((k + 1) * dx == k * dx + dx) by (nonlinear_arith);
    assert((k + 1) * dy == k * dy + dy) by (nonlinear_arith);
    assert((b + 1) * dx == b * dx + dx) by (nonlinear_arith);
    assert((a + 1) * dy == a * dy + dy) by (nonlinear_arith);
    assert((b + 2) * dx == b * dx + 2 * dx) by (nonlinear_arith);
    assert((a + 2) * dy == a * dy + 2 * dy) by (nonlinear_arith);
    assert(2 * n * (a + 1) == 2 * n * a + 2 * n) by (nonlinear_arith);
    assert(2 * n * (b + 1) == 2 * n * b + 2 * n) by (nonlinear_arith);
    if dx >= dy {
        lemma_nearest_of_multiple(k, n);
        lemma_nearest_of_multiple(k + 1, n);
        assert(a == k);
        assert(2 * n * b == 2 * (b * dx)) by (nonlinear_arith)
            requires
                n == dx,
        ;
        let p = k * dy;
        let q = b * dx;
        assert(2 * e == 2 * q + 2 * dx - 2 * p - 2 * dy);
        if 2 * e <= dx {
            lemma_nearest_unique(p + dy, n, b + 1);
        } else {
            lemma_nearest_unique(p + dy, n, b);
        }
    } else {
        lemma_nearest_of_multiple(k, n);
        lemma_nearest_of_multiple(k + 1, n);
        assert(b == k);
        assert(2 * n * a == 2 * (a * dy)) by (nonlinear_arith)
            requires
                n == dy,
        ;
        let p = k * dx;
        let q = a * dy;
        assert(2 * e == 2 * p + 2 * dx - 2 * q - 2 * dy);
        if 2 * e >= -dy {
            lemma_nearest_unique(p + dx, n, a + 1);
        } else {
            lemma_nearest_unique(p + dx, n, a);
        }
    }
}

/// A line starts at its first end and, after all its steps, stands at its
/// other end.
pub proof fn lemma_line_ends(a: (int, int), b: (int, int))
    ensures
        line_point(a, b, 0) == a,
        line_point(a, b, line_steps(a, b)) == b,
        on_line(a, b, a),
        on_line(a, b, b),
{
    let n = line_steps(a, b);
    if n > 0 {
        lemma_nearest_range(0, distance(a.0, b.0), n);
        lemma_nearest_range(0, distance(a.1, b.1), n);
        lemma_nearest_range(n, distance(a.0, b.0), n);
        lemma_nearest_range(n, distance(a.1, b.1), n);
        assert(0 * distance(a.0, b.0) == 0 && 0 * distance(a.1, b.1) == 0);
    }
    assert(line_point(a, b, 0) == a);
    assert(line_point(a, b, n) == b);
}

/// Along its longer side a line advances by one cell with every step, so the
/// `k`-th cell lies exactly `k` away from the start on that side; along the
/// other side it never runs ahead of that.
pub proof fn lemma_line_progress(a: (int, int), b: (int, int), k: int)
    requires
        0 <= k <= line_steps(a, b),
    ensures
        distance(a.0, b.0) >= distance(a.1, b.1) ==> distance(a.0, line_point(a, b, k).0) == k,
        distance(a.0, b.0) < distance(a.1, b.1) ==> distance(a.1, line_point(a, b, k).1) == k,
        distance(a.0, line_point(a, b, k).0) <= k,
        distance(a.1, line_point(a, b, k).1) <= k,
        distance(a.0, line_point(a, b, k).0) <= distance(a.0, b.0),
        distance(a.1, line_point(a, b, k).1) <= distance(a.1, b.1),
{
    let n = line_steps(a, b);
    if n > 0 {
        lemma_nearest_range(k, distance(a.0, b.0), n);
        lemma_nearest_range(k, distance(a.1, b.1), n);
        lemma_nearest_of_multiple(k, n);
    }
}

/// No cell comes twice on a line: different step counts give different cells.
pub proof fn lemma_line_points_distinct(a: (int, int), b: (int, int), j: int, k: int)
    requires
        0 <= j < k <= line_steps(a, b),
    ensures
        line_point(a, b, j) != line_point(a, b, k),
{
    lemma_line_progress(a, b, j);
    lemma_line_progress(a, b, k);
}

/// A line has no gaps: each cell after the first touches the one before it,
/// by a side or by a corner.
pub proof fn lemma_line_connected(a: (int, int), b: (int, int), k: int)
    requires
        0 <= k < line_steps(a, b),
    ensures
        distance(line_point(a, b, k).0, line_point(a, b, k + 1).0) <= 1,
        distance(line_point(a, b, k).1, line_point(a, b, k + 1).1) <= 1,
        line_point(a, b, k) != line_point(a, b, k + 1),
{
    lemma_line_step(distance(a.0, b.0), distance(a.1, b.1), k);
    lemma_line_points_distinct(a, b, k, k + 1);
}

/// A line from a cell to itself is that cell and no other.
pub proof fn lemma_point_line(a: (int, int), c: (int, int))
    ensures
        on_line(a, a, c) <==> c == a,
{
    assert(line_steps(a, a) == 0);
    assert(line_point(a, a, 0) == a);
    if on_line(a, a, c) {
        let k = choose|k: int| 0 <= k < 1 && #[trigger] line_point(a, a, k) == c;
        assert(k == 0);
    }
}

/// A line in one row passes through exactly the cells of that row between its
/// two ends.
pub proof fn lemma_horizontal_line(a: (int, int), b: (int, int), c: (int, int))
    requires
        a.1 == b.1,
    ensures
        on_line(a, b, c) <==> c.1 == a.1 && (a.0 <= c.0 <= b.0 || b.0 <= c.0 <= a.0),
{
    let n = line_steps(a, b);
    assert(n == distance(a.0, b.0));
    if on_line(a, b, c) {
        let k = choose|k: int| 0 <= k < n + 1 && #[trigger] line_point(a, b, k) == c;
        lemma_line_progress(a, b, k);
        if n > 0 {
            lemma_nearest_range(k, 0, n);
            assert(k * 0 == 0);
        }
    }
    if c.1 == a.1 && (a.0 <= c.0 <= b.0 || b.0 <= c.0 <= a.0) {
        let k = distance(a.0, c.0);
        lemma_line_progress(a, b, k);
        if n > 0 {
            lemma_nearest_range(k, 0, n);
            assert(k * 0 == 0);
        }
        assert(line_point(a, b, k) == c);
    }
}

/// A line in one column passes through exactly the cells of that column
/// between its two ends.
pub proof fn lemma_vertical_line(a: (int, int), b: (int, int), c: (int, int))
    requires
        a.0 == b.0,
    ensures
        on_line(a, b, c) <==> c.0 == a.0 && (a.1 <= c.1 <= b.1 || b.1 <= c.1 <= a.1),
{
    let n = line_steps(a, b);
    assert(n == distance(a.1, b.1));
    if on_line(a, b, c) {
        let k = choose|k: int| 0 <= k < n + 1 && #[trigger] line_point(a, b, k) == c;
        lemma_line_progress(a, b, k);
        if n > 0 {
            lemma_nearest_range(k, 0, n);
            assert(k * 0 == 0);
        }
    }
    if c.0 == a.0 && (a.1 <= c.1 <= b.1 || b.1 <= c.1 <= a.1) {
        let k = distance(a.1, c.1);
        lemma_line_progress(a, b, k);
        if n > 0 {
            lemma_nearest_range(k, 0, n);
            assert(k * 0 == 0);
        }
        assert(line_point(a, b, k) == c);
    }
}

/// Where a walk along a line stands: the two ends of the line and the number
/// of steps taken from the first.
pub struct LineWalkView {
    pub from: (int, int),
    pub to: (int, int),
    pub taken: int,
}

impl LineWalkView {
    /// The walk has not gone past the end of its line.
    pub open spec fn wf(self) -> bool {
        0 <= self.taken <= line_steps(self.from, self.to)
    }

    /// The cell on which the walk stands.
    pub open spec fn position(self) -> (int, int) {
        line_point(self.from, self.to, self.taken)
    }

    /// Whether the walk stands on the last cell of its line.
    pub open spec fn at_end(self) -> bool {
        self.taken == line_steps(self.from, self.to)
    }

    /// The walk one step further on.
    pub open spec fn advanced(self) -> LineWalkView {
        LineWalkView { taken: self.taken + 1, ..self }
    }
}

/// A walk from one cell to another along the line between them, one cell at a
/// time. It carries an error term that says, from integers alone, along which
/// side the next step goes.
pub struct LineWalk {
    x: i64,
    y: i64,
    x1: i64,
    y1: i64,
    dx: i64,
    dy: i64,
    right: bool,
    down: bool,
    err: i64,
    from: Ghost<(int, int)>,
    taken: Ghost<int>,
}

impl View for LineWalk {
    type V = LineWalkView;

    closed spec fn view(&self) -> LineWalkView {
        LineWalkView { from: self.from@, to: (self.x1 as int, self.y1 as int), taken: self.taken@ }
    }
}

impl LineWalk {
    /// The walk stands on the cell that its number of steps gives, and the
    /// error term is the one that belongs to that cell.
    #[verifier::type_invariant]
    closed spec fn inv(self) -> bool {
        let a = self.from@;
        let b = (self.x1 as int, self.y1 as int);
        &&& i32::MIN <= a.0 <= i32::MAX && i32::MIN <= a.1 <= i32::MAX
        &&& i32::MIN <= b.0 <= i32::MAX && i32::MIN <= b.1 <= i32::MAX
        &&& self.dx == distance(a.0, b.0)
        &&& self.dy == distance(a.1, b.1)
        &&& self.right == (a.0 < b.0)
        &&& self.down == (a.1 < b.1)
        &&& 0 <= self.taken@ <= line_steps(a, b)
        &&& (self.x as int, self.y as int) == line_point(a, b, self.taken@)
        &&& line_steps(a, b) > 0 ==> self.err == line_error(
            self.dx as int,
            self.dy as int,
            self.taken@,
        )
    }

    /// A walk from `from` to `to` that stands on `from`.
    pub fn new(from: (i32, i32), to: (i32, i32)) -> (walk: LineWalk)
        ensures
            walk@ == (LineWalkView { from: point(from), to: point(to), taken: 0 }),
            walk@.wf(),
    {
        let x: i64 = from.0 as i64;
        let y: i64 = from.1 as i64;
        let x1: i64 = to.0 as i64;
        let y1: i64 = to.1 as i64;
        let dx: i64 = if x <= x1 {
            x1 - x
        } else {
            x - x1
        };
        let dy: i64 = if y <= y1 {
            y1 - y
        } else {
            y - y1
        };
        proof {
            lemma_line_ends(point(from), point(to));
            if line_steps(point(from), point(to)) > 0 {
                lemma_line_error_start(dx as int, dy as int);
            }
        }
        LineWalk {
            x,
            y,
            x1,
            y1,
            dx,
            dy,
            right: x < x1,
            down: y < y1,
            err: dx - dy,
            from: Ghost(point(from)),
            taken: Ghost(0),
        }
    }

    /// The cell on which the walk stands.
    pub fn position(&self) -> (p: (i32, i32))
        ensures
            point(p) == self@.position(),
            self@.wf(),
    {
        proof {
            use_type_invariant(self);
            lemma_line_progress(self@.from, self@.to, self@.taken);
        }
        (self.x as i32, self.y as i32)
    }

    /// Whether the walk stands on the last cell of its line.
    pub fn at_end(&self) -> (end: bool)
        ensures
            end == self@.at_end(),
            self@.wf(),
    {
        proof {
            use_type_invariant(self);
            lemma_line_ends(self@.from, self@.to);
            lemma_line_progress(self@.from, self@.to, self@.taken);
            lemma_line_progress(self@.from, self@.to, line_steps(self@.from, self@.to));
        }
        self.x == self.x1 && self.y == self.y1
    }

    /// Takes one step towards the end of the line.
    pub fn advance(&mut self)
        requires
            !old(self)@.at_end(),
        ensures
            final(self)@ == old(self)@.advanced(),
            final(self)@.wf(),
    {
        proof {
            use_type_invariant(&*self);
            lemma_line_step(self.dx as int, self.dy as int, self.taken@);
            lemma_line_progress(self@.from, self@.to, self.taken@ + 1);
        }
        let e2: i64 = 2 * self.err;
        let mut x: i64 = self.x;
        let mut y: i64 = self.y;
        let mut err: i64 = self.err;
        if e2 >= -self.dy {
            err = err - self.dy;
            x = if self.right {
                x + 1
            } else {
                x - 1
            };
        }
        if e2 <= self.dx {
            err = err + self.dx;
            y = if self.down {
                y + 1
            } else {
                y - 1
            };
        }
        *self = LineWalk {
            x,
            y,
            x1: self.x1,
            y1: self.y1,
            dx: self.dx,
            dy: self.dy,
            right: self.right,
            down: self.down,
            err,
            from: self.from,
            taken: Ghost(self.taken@ + 1),
        };
    }
}

/// The cells of the line from `from` to `to` in the order in which the line
/// passes through them, both ends included and no cell twice.
pub fn line_cells(from: (i32, i32), to: (i32, i32)) -> (cells: Vec<(i32, i32)>)
    requires
        line_steps(point(from), point(to)) < usize::MAX,
    ensures
        cells@.map_values(|p: (i32, i32)| point(p)) == line(point(from), point(to)),
{
    let ghost a = point(from);
    let ghost b = point(to);
    let mut walk = LineWalk::new(from, to);
    let mut cells: Vec<(i32, i32)> = Vec::new();
    cells.push(walk.position());
    while !walk.at_end()
        invariant
            walk@.from == a,
            walk@.to == b,
            walk@.wf(),
            cells@.len() == walk@.taken + 1,
            forall|k: int| 0 <= k <= walk@.taken ==> point(#[trigger] cells@[k]) == line_point(a, b, k),
        decreases line_steps(a, b) - walk@.taken,
    {
        walk.advance();
        cells.push(walk.position());
    }
    proof {
        assert(cells@.map_values(|p: (i32, i32)| point(p)) =~= line(a, b));
    }
    cells
}

} // verus!

//! A grid of characters that lines can be drawn on.

use vstd::prelude::*;

verus! {

/// A grid of cells, each blank or marked, that is drawn as text
pub struct AsciiCanvas {
    width: usize,
    height: usize,
    canvas: Vec<Vec<bool>>,
}

/// The value of an [`AsciiCanvas`]: its size and its rows of cells, top first.
pub struct AsciiCanvasView {
    pub width: usize,
    pub height: usize,
    pub cells: Seq<Seq<bool>>,
}

/// The values of the rows of a canvas.
pub open spec fn rows_view(rows: Seq<Vec<bool>>) -> Seq<Seq<bool>> {
    rows.map_values(|r: Vec<bool>| r@)
}

/// Whether a canvas value has `height` rows of `width` cells.
pub open spec fn canvas_shaped(v: AsciiCanvasView) -> bool {
    &&& v.cells.len() == v.height
    &&& forall|r: int| 0 <= r < v.height ==> (#[trigger] v.cells[r]).len() == v.width
}

impl View for AsciiCanvas {
    type V = AsciiCanvasView;

    closed spec fn view(&self) -> AsciiCanvasView {
        AsciiCanvasView { width: self.width, height: self.height, cells: rows_view(self.canvas@) }
    }
}

/// The line from one point to another, described by its ends.
pub struct LineGeometry {
    pub x1: int,
    pub y1: int,
    pub x2: int,
    pub y2: int,
}

/// Where the drawing of a line is: the current point and the error term.
pub struct LineState {
    pub x: int,
    pub y: int,
    pub err: int,
}

/// The distance to cover along `x`.
pub open spec fn line_dx(g: LineGeometry) -> int {
    if g.x1 <= g.x2 {
        g.x2 - g.x1
    } else {
        g.x1 - g.x2
    }
}

/// The distance to cover along `y`.
pub open spec fn line_dy(g: LineGeometry) -> int {
    if g.y1 <= g.y2 {
        g.y2 - g.y1
    } else {
        g.y1 - g.y2
    }
}

/// The direction of the steps along `x`.
pub open spec fn line_sx(g: LineGeometry) -> int {
    if g.x1 < g.x2 {
        1
    } else {
        -1
    }
}

/// The direction of the steps along `y`.
pub open spec fn line_sy(g: LineGeometry) -> int {
    if g.y1 < g.y2 {
        1
    } else {
        -1
    }
}

/// The number of steps taken along `x`.
pub open spec fn steps_x(g: LineGeometry, s: LineState) -> int {
    if g.x1 < g.x2 {
        s.x - g.x1
    } else {
        g.x1 - s.x
    }
}

/// The number of steps taken along `y`.
pub open spec fn steps_y(g: LineGeometry, s: LineState) -> int {
    if g.y1 < g.y2 {
        s.y - g.y1
    } else {
        g.y1 - s.y
    }
}

/// Whether a state is one the drawing of the line goes through: it has not passed the end
/// along either axis, and the error term is what the steps taken make it.
pub open spec fn line_valid(g: LineGeometry, s: LineState) -> bool {
    let i = steps_x(g, s);
    let j = steps_y(g, s);
    &&& 0 <= i <= line_dx(g)
    &&& 0 <= j <= line_dy(g)
    &&& s.err == line_dx(g) * (1 + j) - line_dy(g) * (1 + i)
}

/// The state the drawing starts in.
pub open spec fn line_start(g: LineGeometry) -> LineState {
    LineState { x: g.x1, y: g.y1, err: line_dx(g) - line_dy(g) }
}

/// Whether the drawing has reached the end of the line.
pub open spec fn line_at_end(g: LineGeometry, s: LineState) -> bool {
    s.x == g.x2 && s.y == g.y2
}

/// One step of Bresenham's algorithm: along `x` when twice the error is at least `-dy`, and
/// along `y` when it is at most `dx`.
pub open spec fn line_step(g: LineGeometry, s: LineState) -> LineState {
    let e2 = 2 * s.err;
    let dx = line_dx(g);
    let dy = -line_dy(g);
    let s1 = if e2 >= dy {
        LineState { x: s.x + line_sx(g), y: s.y, err: s.err + dy }
    } else {
        s
    };
    if e2 <= dx {
        LineState { x: s1.x, y: s1.y + line_sy(g), err: s1.err + dx }
    } else {
        s1
    }
}

/// The points that the drawing marks from state `s` on, the end last.
pub open spec fn line_trace(g: LineGeometry, s: LineState) -> Seq<(int, int)>
    decreases (line_dx(g) - steps_x(g, s)) + (line_dy(g) - steps_y(g, s)),
    when line_valid(g, s)
    via line_trace_decreases
{
    if line_at_end(g, s) {
        seq![(g.x2, g.y2)]
    } else {
        seq![(s.x, s.y)] + line_trace(g, line_step(g, s))
    }
}

/// A step from a state that is not the end keeps it one the drawing goes through, and
/// brings it closer to the end.
pub proof fn lemma_line_step(g: LineGeometry, s: LineState)
    requires
        line_valid(g, s),
        !line_at_end(g, s),
    ensures
        line_valid(g, line_step(g, s)),
        (line_dx(g) - steps_x(g, line_step(g, s))) + (line_dy(g) - steps_y(g, line_step(g, s))) < (
        line_dx(g) - steps_x(g, s)) + (line_dy(g) - steps_y(g, s)),
{
    let dx = line_dx(g);
    let big_dy = line_dy(g);
    let i = steps_x(g, s);
    let j = steps_y(g, s);
    let err = s.err;
    let s2 = line_step(g, s);
    // Not at the end: some steps are left along one axis
    assert(i < dx || j < big_dy);
    // At the end along x, no step is taken along x
    if i == dx && j < big_dy {
        assert(2 * err < -big_dy) by (nonlinear_arith)
            requires
                err == dx * (1 + j) - big_dy * (1 + i),
                i == dx,
                0 <= j < big_dy,
                dx >= 0,
        ;
    }
    // At the end along y, no step is taken along y
    if j == big_dy && i < dx {
        assert(2 * err > dx) by (nonlinear_arith)
            requires
                err == dx * (1 + j) - big_dy * (1 + i),
                j == big_dy,
                0 <= i < dx,
                big_dy >= 0,
        ;
    }
    let i2 = steps_x(g, s2);
    let j2 = steps_y(g, s2);
    assert(s2.err == dx * (1 + j2) - big_dy * (1 + i2)) by (nonlinear_arith)
        requires
            err == dx * (1 + j) - big_dy * (1 + i),
            i2 == i || i2 == i + 1,
            j2 == j || j2 == j + 1,
            s2.err == err + (if i2 == i + 1 {
                -big_dy
            } else {
                0
            }) + (if j2 == j + 1 {
                dx
            } else {
                0
            }),
    ;
}

/// The drawing starts in a state it goes through.
pub proof fn lemma_line_start_valid(g: LineGeometry)
    ensures
        line_valid(g, line_start(g)),
{
    let dx = line_dx(g);
    let big_dy = line_dy(g);
    assert(dx * (1 + 0) - big_dy * (1 + 0) == dx - big_dy) by (nonlinear_arith);
}

/// Adding a point to those marked marks its cell too.
pub proof fn lemma_marks_push(points: Seq<(int, int)>, p: (int, int))
    ensures
        forall|c: int, r: int|
            #[trigger] marks(points.push(p), c, r) == (marks(points, c, r) || p == (c, r)),
{
    assert forall|c: int, r: int|
        #[trigger] marks(points.push(p), c, r) == (marks(points, c, r) || p == (c, r)) by {
        if marks(points, c, r) {
            let k = choose|k: int| 0 <= k < points.len() && points[k] == (c, r);
            assert(points.push(p)[k] == (c, r));
        }
        if p == (c, r) {
            assert(points.push(p)[points.len() as int] == (c, r));
        }
        if marks(points.push(p), c, r) {
            let k = choose|k: int| 0 <= k < points.push(p).len() && points.push(p)[k] == (c, r);
            if k < points.len() {
                assert(points[k] == (c, r));
            }
        }
    }
}

#[via_fn]
proof fn line_trace_decreases(g: LineGeometry, s: LineState) {
    if line_valid(g, s) && !line_at_end(g, s) {
        lemma_line_step(g, s);
    }
}

/// The geometry of the line between two points of the canvas.
pub open spec fn line_geometry(x1: u16, y1: u16, x2: u16, y2: u16) -> LineGeometry {
    LineGeometry { x1: x1 as int, y1: y1 as int, x2: x2 as int, y2: y2 as int }
}

/// The points that Bresenham's algorithm marks for the line from `(x1, y1)` to `(x2, y2)`,
/// in order, as `(x, y)` pairs.
pub open spec fn line_points(x1: u16, y1: u16, x2: u16, y2: u16) -> Seq<(int, int)> {
    let g = line_geometry(x1, y1, x2, y2);
    line_trace(g, line_start(g))
}

/// Whether the cell at column `c` and row `r` is one of `points`.
pub open spec fn marks(points: Seq<(int, int)>, c: int, r: int) -> bool {
    exists|k: int| 0 <= k < points.len() && points[k] == (c, r)
}

impl AsciiCanvas {
    /// Whether the canvas has `height` rows of `width` cells.
    pub closed spec fn wf(&self) -> bool {
        canvas_shaped(self@)
    }

    /// A blank canvas of `width` columns and `height` rows
    pub fn new(width: usize, height: usize) -> (canvas: Self)
        ensures
            canvas.wf(),
            canvas@.width == width,
            canvas@.height == height,
            forall|r: int, c: int|
                0 <= r < height && 0 <= c < width ==> !#[trigger] canvas@.cells[r][c],
    {
        let mut rows: Vec<Vec<bool>> = Vec::new();
        let mut r: usize = 0;
        while r < height
            invariant
                r <= height,
                rows@.len() == r,
                forall|k: int| 0 <= k < r ==> (#[trigger] rows@[k])@ == Seq::new(width as nat, |c: int| false),
            decreases height - r,
        {
            let mut row: Vec<bool> = Vec::new();
            let mut c: usize = 0;
            while c < width
                invariant
                    c <= width,
                    row@ == Seq::new(c as nat, |k: int| false),
                decreases width - c,
            {
                row.push(false);
                c += 1;
                proof {
                    assert(row@ =~= Seq::new(c as nat, |k: int| false));
                }
            }
            rows.push(row);
            r += 1;
        }
        AsciiCanvas { width, height, canvas: rows }
    }

    /// Draws a line on a 2d character grid using Bresenham's line algorithm.
    ///
    /// Marks the cells of the points of [`line_points`] that lie on the canvas; the canvas
    /// must have a row.
    pub fn draw_line(&mut self, x1: u16, y1: u16, x2: u16, y2: u16)
        requires
            old(self).wf(),
            old(self)@.height > 0,
        ensures
            final(self).wf(),
            final(self)@.width == old(self)@.width,
            final(self)@.height == old(self)@.height,
            forall|r: int, c: int|
                0 <= r < old(self)@.height && 0 <= c < old(self)@.width ==> #[trigger] final(self)@.cells[r][c] == (old(self)@.cells[r][c] || marks(
                    line_points(x1, y1, x2, y2),
                    c,
                    r,
                )),
    {
        let ghost g = line_geometry(x1, y1, x2, y2);
        let mut x_curr = x1 as i64;
        let mut y_curr = y1 as i64;
        let x_end = x2 as i64;
        let y_end = y2 as i64;

        let dx = if x_end >= x_curr {
            x_end - x_curr
        } else {
            x_curr - x_end
        };
        let dy = -(if y_end >= y_curr {
            y_end - y_curr
        } else {
            y_curr - y_end
        });
        let sx: i64 = if x_curr < x_end {
            1
        } else {
            -1
        };
        let sy: i64 = if y_curr < y_end {
            1
        } else {
            -1
        };
        let mut err = dx + dy;
        let ghost old_cells = self@.cells;
        let ghost mut drawn: Seq<(int, int)> = seq![];
        proof {
            lemma_line_start_valid(g);
        }

        while x_curr != x_end || y_curr != y_end
            invariant
                self.wf(),
                self@.width == old(self)@.width,
                self@.height == old(self)@.height,
                self@.height > 0,
                old_cells == old(self)@.cells,
                g == line_geometry(x1, y1, x2, y2),
                x_end == x2,
                y_end == y2,
                dx == line_dx(g),
                dy == -line_dy(g),
                sx == line_sx(g),
                sy == line_sy(g),
                line_valid(g, LineState { x: x_curr as int, y: y_curr as int, err: err as int }),
                line_points(x1, y1, x2, y2) == drawn + line_trace(
                    g,
                    LineState { x: x_curr as int, y: y_curr as int, err: err as int },
                ),
                forall|r: int, c: int|
                    0 <= r < self@.height && 0 <= c < self@.width ==> #[trigger] self@.cells[r][c]
                        == (old_cells[r][c] || marks(drawn, c, r)),
            decreases (line_dx(g) - steps_x(
                g,
                LineState { x: x_curr as int, y: y_curr as int, err: err as int },
            )) + (line_dy(g) - steps_y(
                g,
                LineState { x: x_curr as int, y: y_curr as int, err: err as int },
            )),
        {
            let ghost s = LineState { x: x_curr as int, y: y_curr as int, err: err as int };
            proof {
                lemma_line_step(g, s);
                assert(err <= 65536 * 65536) by (nonlinear_arith)
                    requires
                        s.err == line_dx(g) * (1 + steps_y(g, s)) - line_dy(g) * (1 + steps_x(g, s)),
                        0 <= steps_x(g, s) <= line_dx(g) <= 65535,
                        0 <= steps_y(g, s) <= line_dy(g) <= 65535,
                        err == s.err,
                ;
                assert(err >= -(65536 * 65536)) by (nonlinear_arith)
                    requires
                        s.err == line_dx(g) * (1 + steps_y(g, s)) - line_dy(g) * (1 + steps_x(g, s)),
                        0 <= steps_x(g, s) <= line_dx(g) <= 65535,
                        0 <= steps_y(g, s) <= line_dy(g) <= 65535,
                        err == s.err,
                ;
            }
            self.draw_point(x_curr, y_curr);
            proof {
                lemma_marks_push(drawn, (x_curr as int, y_curr as int));
                drawn = drawn.push((x_curr as int, y_curr as int));
                assert(line_trace(g, s) == seq![(s.x, s.y)] + line_trace(g, line_step(g, s)));
                assert(line_points(x1, y1, x2, y2) =~= drawn + line_trace(g, line_step(g, s)));
            }
            let e2 = 2 * err;
            if e2 >= dy {
                err += dy;
                x_curr += sx;
            }
            if e2 <= dx {
                err += dx;
                y_curr += sy;
            }
        }
        proof {
            let s = LineState { x: x_curr as int, y: y_curr as int, err: err as int };
            assert(line_trace(g, s) == seq![(g.x2, g.y2)]);
        }
        self.draw_point(x_end, y_end);
        proof {
            lemma_marks_push(drawn, (x_end as int, y_end as int));
            drawn = drawn.push((x_end as int, y_end as int));
            assert(line_points(x1, y1, x2, y2) =~= drawn);
        }
    }

    /// Draws a point on a 2d character grid.
    fn draw_point(&mut self, x: i64, y: i64)
        requires
            old(self).wf(),
            old(self)@.height > 0,
            0 <= x <= u16::MAX,
            0 <= y <= u16::MAX,
        ensures
            final(self).wf(),
            final(self)@.width == old(self)@.width,
            final(self)@.height == old(self)@.height,
            forall|r: int, c: int|
                0 <= r < old(self)@.height && 0 <= c < old(self)@.width ==> #[trigger] final(self)@.cells[r][c] == (old(self)@.cells[r][c] || (c == x && r == y)),
    {
        let ghost before = self@;
        if x >= 0 && (x as usize) < self.canvas[0].len() && y >= 0 && (y as usize)
            < self.canvas.len() {
            let yu = y as usize;
            let xu = x as usize;
            assert(self.canvas@[0]@ == self@.cells[0]);
            assert(self.canvas@[yu as int]@ == self@.cells[yu as int]);
            let mut row = self.canvas[yu].clone();
            assert(row@ =~= self.canvas@[yu as int]@);
            row.set(xu, true);
            let ghost new_row = row@;
            self.canvas.set(yu, row);
            proof {
                assert(new_row =~= before.cells[yu as int].update(xu as int, true));
                assert(self@.cells =~= before.cells.update(yu as int, new_row));
                assert forall|r: int, c: int|
                    0 <= r < before.height && 0 <= c < before.width implies #[trigger] self@.cells[r][c]
                        == (before.cells[r][c] || (c == x && r == y)) by {
                    if r != yu {
                        assert(self@.cells[r] == before.cells[r]);
                    } else {
                        assert(self@.cells[r] == new_row);
                    }
                }
                assert(canvas_shaped(self@));
            }
        } else {
            assert(self.canvas@[0]@ == self@.cells[0]);
        }
    }
}

/// The text of a row: `*` for each marked cell, a space for each blank one.
pub open spec fn row_text(row: Seq<bool>) -> Seq<char> {
    row.map_values(|b: bool|
        if b {
            '*'
        } else {
            ' '
        })
}

/// The text of rows `0` to `n`: each row's text followed by a line break.
pub open spec fn rows_text(rows: Seq<Seq<bool>>, n: int) -> Seq<char>
    decreases n,
{
    if n <= 0 || n > rows.len() {
        seq![]
    } else {
        rows_text(rows, n - 1) + row_text(rows[n - 1]) + seq!['\n']
    }
}

impl AsciiCanvas {
    /// The canvas as text: one line per row, `*` for marked cells and spaces for the others
    pub fn render(&self) -> (text: String)
        ensures
            text@ == rows_text(self@.cells, self@.cells.len() as int),
    {
        proof {
            reveal_strlit("*");
            reveal_strlit(" ");
            reveal_strlit("\n");
        }
        let mut output = String::new();
        let mut r: usize = 0;
        while r < self.canvas.len()
            invariant
                r <= self.canvas@.len(),
                self@.cells == rows_view(self.canvas@),
                output@ == rows_text(self@.cells, r as int),
                "*"@ == seq!['*'],
                " "@ == seq![' '],
                "\n"@ == seq!['\n'],
            decreases self.canvas@.len() - r,
        {
            let row = &self.canvas[r];
            let ghost start = output@;
            let mut c: usize = 0;
            while c < row.len()
                invariant
                    c <= row@.len(),
                    output@ == start + row_text(row@).take(c as int),
                    "*"@ == seq!['*'],
                    " "@ == seq![' '],
                decreases row@.len() - c,
            {
                if row[c] {
                    output.append("*");
                } else {
                    output.append(" ");
                }
                proof {
                    assert(row_text(row@).take(c + 1) =~= row_text(row@).take(c as int).push(
                        row_text(row@)[c as int],
                    ));
                }
                c += 1;
            }
            output.append("\n");
            proof {
                assert(row_text(row@).take(row@.len() as int) =~= row_text(row@));
                assert(self@.cells[r as int] == row@);
            }
            r += 1;
        }
        output
    }
}

/// The points from a state the drawing goes through on: the first is that state's point,
/// the last is the end of the line, each lies between the ends of the line along both axes,
/// and each is a neighbour of the one before it (one step at most along each axis, and not
/// the same point).
pub proof fn lemma_line_trace(g: LineGeometry, s: LineState)
    requires
        line_valid(g, s),
    ensures
        line_trace(g, s).len() >= 1,
        line_trace(g, s)[0] == (s.x, s.y),
        line_trace(g, s).last() == (g.x2, g.y2),
        forall|k: int| 0 <= k < line_trace(g, s).len() ==> within_line_box(g, #[trigger] line_trace(g, s)[k]),
        forall|k: int|
            0 <= k < line_trace(g, s).len() - 1 ==> neighbours(
                #[trigger] line_trace(g, s)[k],
                line_trace(g, s)[k + 1],
            ),
    decreases (line_dx(g) - steps_x(g, s)) + (line_dy(g) - steps_y(g, s)),
{
    if !line_at_end(g, s) {
        lemma_line_step(g, s);
        let next = line_step(g, s);
        lemma_line_trace(g, next);
        let rest = line_trace(g, next);
        let all = line_trace(g, s);
        assert(all == seq![(s.x, s.y)] + rest);
        assert forall|k: int| 0 <= k < all.len() implies within_line_box(g, #[trigger] all[k]) by {
            if k > 0 {
                assert(all[k] == rest[k - 1]);
            }
        }
        assert forall|k: int| 0 <= k < all.len() - 1 implies neighbours(#[trigger] all[k], all[k + 1]) by {
            if k > 0 {
                assert(all[k] == rest[k - 1]);
                assert(all[k + 1] == rest[k]);
            }
        }
    }
}

/// Whether the error term keeps the drawing stepping along its major axis: along `x` at
/// every step when the line is at least as wide as it is tall, along `y` otherwise.
pub open spec fn steps_along_major(g: LineGeometry, s: LineState) -> bool {
    if line_dx(g) >= line_dy(g) {
        2 * s.err >= -line_dy(g)
    } else {
        2 * s.err <= line_dx(g)
    }
}

/// The number of points still to be marked from a state: one for each step left along the
/// major axis, and the end.
pub open spec fn points_left(g: LineGeometry, s: LineState) -> int {
    if line_dx(g) >= line_dy(g) {
        line_dx(g) - steps_x(g, s) + 1
    } else {
        line_dy(g) - steps_y(g, s) + 1
    }
}

/// From a state that steps along the major axis, every step moves one point further along
/// it, so the points left are one per step left along that axis, and the end.
pub proof fn lemma_line_trace_len(g: LineGeometry, s: LineState)
    requires
        line_valid(g, s),
        steps_along_major(g, s),
    ensures
        line_trace(g, s).len() == points_left(g, s),
    decreases (line_dx(g) - steps_x(g, s)) + (line_dy(g) - steps_y(g, s)),
{
    let dx = line_dx(g);
    let big_dy = line_dy(g);
    let i = steps_x(g, s);
    let j = steps_y(g, s);
    let err = s.err;
    if !line_at_end(g, s) {
        lemma_line_step(g, s);
        let next = line_step(g, s);
        if dx >= big_dy {
            if i == dx {
                assert(j < big_dy);
                assert(2 * err < -big_dy) by (nonlinear_arith)
                    requires
                        err == dx * (1 + j) - big_dy * (1 + i),
                        i == dx,
                        0 <= j < big_dy,
                        dx >= 0,
                ;
            }
            assert(steps_x(g, next) == i + 1);
        } else {
            if j == big_dy {
                assert(i < dx);
                assert(2 * err > dx) by (nonlinear_arith)
                    requires
                        err == dx * (1 + j) - big_dy * (1 + i),
                        j == big_dy,
                        0 <= i < dx,
                        big_dy >= 0,
                ;
            }
            assert(steps_y(g, next) == j + 1);
        }
        lemma_line_trace_len(g, next);
        assert(line_trace(g, s) == seq![(s.x, s.y)] + line_trace(g, next));
    }
}

/// Whether a point lies between the ends of a line along both axes.
pub open spec fn within_line_box(g: LineGeometry, p: (int, int)) -> bool {
    &&& (g.x1 <= p.0 <= g.x2 || g.x2 <= p.0 <= g.x1)
    &&& (g.y1 <= p.1 <= g.y2 || g.y2 <= p.1 <= g.y1)
}

/// Whether two points are distinct and one step apart at most along each axis.
pub open spec fn neighbours(p: (int, int), q: (int, int)) -> bool {
    &&& p != q
    &&& -1 <= p.0 - q.0 <= 1
    &&& -1 <= p.1 - q.1 <= 1
}

/// A line drawn with Bresenham's algorithm starts at its first point, ends at its second,
/// stays within the rectangle they span, goes from each point to a neighbouring one, and
/// marks one point more than the larger of its width and its height.
pub proof fn lemma_line_points(x1: u16, y1: u16, x2: u16, y2: u16)
    ensures
        line_points(x1, y1, x2, y2).len() >= 1,
        line_points(x1, y1, x2, y2)[0] == (x1 as int, y1 as int),
        line_points(x1, y1, x2, y2).last() == (x2 as int, y2 as int),
        forall|k: int|
            0 <= k < line_points(x1, y1, x2, y2).len() ==> within_line_box(
                line_geometry(x1, y1, x2, y2),
                #[trigger] line_points(x1, y1, x2, y2)[k],
            ),
        forall|k: int|
            0 <= k < line_points(x1, y1, x2, y2).len() - 1 ==> neighbours(
                #[trigger] line_points(x1, y1, x2, y2)[k],
                line_points(x1, y1, x2, y2)[k + 1],
            ),
        line_points(x1, y1, x2, y2).len() == (if line_dx(line_geometry(x1, y1, x2, y2)) >= line_dy(
            line_geometry(x1, y1, x2, y2),
        ) {
            line_dx(line_geometry(x1, y1, x2, y2))
        } else {
            line_dy(line_geometry(x1, y1, x2, y2))
        }) + 1,
{
    let g = line_geometry(x1, y1, x2, y2);
    lemma_line_start_valid(g);
    lemma_line_trace(g, line_start(g));
    lemma_line_trace_len(g, line_start(g));
}

} // verus!

//! Fireballs: a ball of fire that follows the path the finger drew.

use vstd::prelude::*;

use crate::error::digital_touch::{DigitalTouchError, DigitalTouchErrorView};
use crate::message_types::digital_touch::models::{
    decode_points, decode_u16s, spec_decode_u16s, spec_points, Point,
};
use crate::message_types::digital_touch::render::{number_with_unit, with_unit};
use crate::util::svg_canvas::{
    attrs_view, elem_text, set_def, with_id, SVGCanvas, SVGCanvasView,
};
use crate::util::text::{digits, join, joined, number_text};

verus! {

/// A Digital Touch fireball message
#[derive(Debug, Clone, PartialEq, Eq)]
pub struct DigitalTouchFireball {
    pub id: String,
    /// Where the fireball starts
    pub x: u16,
    pub y: u16,
    /// The points the fireball moves to, each with the time the move takes in milliseconds
    pub points: Vec<Point<u16>>,
    /// How long the fireball lasts, in milliseconds
    pub duration: usize,
}

/// The value of a [`DigitalTouchFireball`].
pub struct DigitalTouchFireballView {
    pub id: Seq<char>,
    pub x: u16,
    pub y: u16,
    pub points: Seq<Point<u16>>,
    pub duration: usize,
}

impl View for DigitalTouchFireball {
    type V = DigitalTouchFireballView;

    open spec fn view(&self) -> DigitalTouchFireballView {
        DigitalTouchFireballView {
            id: self.id@,
            x: self.x,
            y: self.y,
            points: self.points@,
            duration: self.duration,
        }
    }
}

/// The total time of the moves of `points`, from the first up to `n`.
pub open spec fn total_delay(points: Seq<Point<u16>>, n: int) -> int
    decreases n,
{
    if n <= 0 || n > points.len() {
        0
    } else {
        total_delay(points, n - 1) + points[n - 1].extra
    }
}

/// The time before the fireball starts moving: what is left of its duration (as an `i64`)
/// after all its moves, and zero when nothing is left (as a `usize`).
pub open spec fn spec_initial_delay(f: DigitalTouchFireballView) -> usize {
    let left = (f.duration as i64) as int - total_delay(f.points, f.points.len() as int);
    if left < 0 {
        0
    } else {
        left as usize
    }
}

impl DigitalTouchFireball {
    /// Builds a fireball message from the decoded fields of its payload: the start, the
    /// duration in milliseconds, the points (four bytes each) and their delays (two bytes
    /// each).
    pub fn from_payload(
        id: &str,
        x: u16,
        y: u16,
        duration: usize,
        points: &[u8],
        delays: &[u8],
    ) -> (fireball: Result<DigitalTouchFireball, DigitalTouchError>)
        requires
            points@.len() % 4 == 0,
            delays@.len() % 2 == 0,
        ensures
            match fireball {
                Ok(f) => points@.len() / 4 == spec_decode_u16s(delays@).len() && f@ == (
                DigitalTouchFireballView {
                    id: id@,
                    x,
                    y,
                    points: spec_points(points@, spec_decode_u16s(delays@)),
                    duration,
                }),
                Err(e) => points@.len() / 4 != spec_decode_u16s(delays@).len() && e@
                    == DigitalTouchErrorView::ArraysDoNotMatch(
                    "points"@,
                    (points@.len() / 4) as usize,
                    "extra"@,
                    spec_decode_u16s(delays@).len() as usize,
                ),
            },
    {
        let delays = decode_u16s(delays);
        let points = decode_points(points, delays)?;
        Ok(DigitalTouchFireball { id: id.to_owned(), x, y, points, duration })
    }

    /// The time before the fireball starts moving, in milliseconds
    pub fn get_initial_delay(&self) -> (delay: usize)
        requires
            (self.duration as i64) as int - total_delay(self.points@, self.points@.len() as int)
                >= i64::MIN,
        ensures
            delay == spec_initial_delay(self@),
    {
        let mut acc: i64 = self.duration as i64;
        let mut i: usize = 0;
        while i < self.points.len()
            invariant
                i <= self.points@.len(),
                (self.duration as i64) as int - total_delay(self.points@, self.points@.len() as int)
                    >= i64::MIN,
                acc == (self.duration as i64) as int - total_delay(self.points@, i as int),
            decreases self.points@.len() - i,
        {
            proof {
                lemma_total_delay_monotonic(self.points@, i + 1, self.points@.len() as int);
            }
            acc = acc - self.points[i].extra as i64;
            i += 1;
        }
        if acc < 0 {
            0
        } else {
            acc as usize
        }
    }
}

/// The total time of the moves grows with the number of moves counted.
pub proof fn lemma_total_delay_monotonic(points: Seq<Point<u16>>, m: int, n: int)
    requires
        0 <= m <= n <= points.len(),
    ensures
        total_delay(points, m) <= total_delay(points, n),
    decreases n - m,
{
    if m < n {
        lemma_total_delay_monotonic(points, m, n - 1);
    }
}

/// The lowest `y` of the fireball's start and points.
pub open spec fn min_y(f: DigitalTouchFireballView, n: int) -> u16
    decreases n,
{
    if n <= 0 || n > f.points.len() {
        f.y
    } else {
        let rest = min_y(f, n - 1);
        if f.points[n - 1].y < rest {
            f.points[n - 1].y
        } else {
            rest
        }
    }
}

/// The highest `y` of the fireball's start and points, measured from `low`.
pub open spec fn max_y_above(f: DigitalTouchFireballView, low: u16, n: int) -> int
    decreases n,
{
    if n <= 0 || n > f.points.len() {
        f.y - low
    } else {
        let rest = max_y_above(f, low, n - 1);
        if f.points[n - 1].y - low > rest {
            f.points[n - 1].y - low
        } else {
            rest
        }
    }
}

/// The lowest `y` of the fireball, and the height of its path above it.
pub open spec fn spec_y_range(f: DigitalTouchFireballView) -> (u16, u16) {
    let low = min_y(f, f.points.len() as int);
    (low, max_y_above(f, low, f.points.len() as int) as u16)
}

/// The text of a path step from one place to another.
pub open spec fn move_path(from: (int, int), to: (int, int)) -> Seq<char> {
    "M "@ + digits(from.0 as nat, 10) + ","@ + digits(from.1 as nat, 10) + " L "@ + digits(
        to.0 as nat,
        10,
    ) + ","@ + digits(to.1 as nat, 10)
}

/// A motion of the fireball along a path step.
pub open spec fn motion_elem(dur: nat, begin: nat, from: (int, int), to: (int, int)) -> Seq<char> {
    elem_text(
        "animateMotion"@,
        seq![
            ("dur"@, with_unit(dur, "ms"@)),
            ("begin"@, with_unit(begin, "ms"@)),
            ("repeatCount"@, "1"@),
            ("path"@, move_path(from, to)),
        ],
        None,
    )
}

/// Where a fitted place is drawn: `y` counts up from the bottom of the canvas.
pub open spec fn flipped(height: usize, place: (usize, usize)) -> (int, int) {
    (place.0 as int, height - place.1)
}

/// The moves of the fireball to its points, from the `n`-th on.
pub open spec fn moves_from(
    f: DigitalTouchFireballView,
    height: usize,
    moves: Seq<(usize, usize)>,
    n: int,
    delay: int,
    prev: (int, int),
) -> Seq<Seq<char>>
    decreases f.points.len() - n,
{
    if n < 0 || n >= f.points.len() {
        seq![]
    } else {
        let to = flipped(height, moves[n]);
        seq![motion_elem(f.points[n].extra as nat, delay as nat, prev, to)] + moves_from(
            f,
            height,
            moves,
            n + 1,
            delay + f.points[n].extra,
            to,
        )
    }
}

/// The animations of the fireball: a motion to its start, then its moves, one per line.
pub open spec fn fireball_animations(
    f: DigitalTouchFireballView,
    height: usize,
    start: (usize, usize),
    moves: Seq<(usize, usize)>,
) -> Seq<char> {
    let first = flipped(height, start);
    motion_elem(1, 1, first, first) + "\n"@ + joined(
        moves_from(f, height, moves, 0, spec_initial_delay(f) as int, first),
        "\n"@,
    )
}

/// A color stop of the fireball's gradient.
pub open spec fn stop_elem(offset: nat, color: Seq<char>) -> Seq<char> {
    elem_text(
        "stop"@,
        seq![("offset"@, with_unit(offset, "%"@)), ("stop-color"@, color)],
        None,
    )
}

/// The gradient of the fireball, from white at its center to red at its edge.
pub open spec fn gradient_stops() -> Seq<char> {
    joined(
        seq![
            stop_elem(0, "white"@),
            stop_elem(30, "gold"@),
            stop_elem(60, "orange"@),
            stop_elem(100, "red"@),
        ],
        "\n"@,
    )
}

/// The time at which the fireball's moves are over, counted from its initial delay.
pub open spec fn fireball_end(f: DigitalTouchFireballView) -> int {
    spec_initial_delay(f) + total_delay(f.points, f.points.len() as int)
}

/// A color stop of the gradient
fn stop(offset: usize, color: &str) -> (text: String)
    ensures
        text@ == stop_elem(offset as nat, color@),
{
    let attrs: Vec<(&str, String)> = vec![
        ("offset", number_with_unit(offset, "%")),
        ("stop-color", color.to_owned()),
    ];
    proof {
        assert(attrs_view(attrs@) =~= seq![
            ("offset"@, with_unit(offset as nat, "%"@)),
            ("stop-color"@, color@),
        ]);
    }
    SVGCanvas::generate_elem("stop", attrs, None)
}

/// Adds the fireball's gradient to the definitions of the canvas
fn add_radial_gradient_def(canvas: &mut SVGCanvas)
    requires
        old(canvas).wf(),
    ensures
        final(canvas).wf(),
        final(canvas)@ == (SVGCanvasView {
            defs: set_def(
                old(canvas)@.defs,
                "fireball-gradient"@,
                elem_text(
                    "radialGradient"@,
                    with_id(seq![], "fireball-gradient"@),
                    Some(gradient_stops()),
                ),
            ),
            ..old(canvas)@
        }),
{
    let stops: Vec<String> = vec![
        stop(0, "white"),
        stop(30, "gold"),
        stop(60, "orange"),
        stop(100, "red"),
    ];
    proof {
        assert(stops@.map_values(|t: String| t@) =~= seq![
            stop_elem(0, "white"@),
            stop_elem(30, "gold"@),
            stop_elem(60, "orange"@),
            stop_elem(100, "red"@),
        ]);
    }
    let inner = join(stops.as_slice(), "\n");
    let attrs: Vec<(&str, String)> = Vec::new();
    proof {
        assert(attrs_view(attrs@) =~= seq![]);
    }
    canvas.add_def("fireball-gradient", "radialGradient", attrs, Some(inner));
}

/// The text of a path step from one place to another
fn move_path_text(from_x: usize, from_y: usize, to_x: usize, to_y: usize) -> (text: String)
    ensures
        text@ == move_path((from_x as int, from_y as int), (to_x as int, to_y as int)),
{
    let mut text = "M ".to_owned();
    text.append(number_text(from_x as u64, 10).as_str());
    text.append(",");
    text.append(number_text(from_y as u64, 10).as_str());
    text.append(" L ");
    text.append(number_text(to_x as u64, 10).as_str());
    text.append(",");
    text.append(number_text(to_y as u64, 10).as_str());
    text
}

/// A motion of the fireball along a path step
fn motion(dur: usize, begin: usize, from_x: usize, from_y: usize, to_x: usize, to_y: usize) -> (text:
    String)
    ensures
        text@ == motion_elem(
            dur as nat,
            begin as nat,
            (from_x as int, from_y as int),
            (to_x as int, to_y as int),
        ),
{
    let attrs: Vec<(&str, String)> = vec![
        ("dur", number_with_unit(dur, "ms")),
        ("begin", number_with_unit(begin, "ms")),
        ("repeatCount", "1".to_owned()),
        ("path", move_path_text(from_x, from_y, to_x, to_y)),
    ];
    proof {
        assert(attrs_view(attrs@) =~= seq![
            ("dur"@, with_unit(dur as nat, "ms"@)),
            ("begin"@, with_unit(begin as nat, "ms"@)),
            ("repeatCount"@, "1"@),
            ("path"@, move_path((from_x as int, from_y as int), (to_x as int, to_y as int))),
        ]);
    }
    SVGCanvas::generate_elem("animateMotion", attrs, None)
}

impl DigitalTouchFireball {
    /// The lowest `y` of the fireball's start and points, and the height of its path above it:
    /// the `y` of each place is fitted to the canvas as its height above the lowest, out of
    /// that height
    pub fn y_range(&self) -> (range: (u16, u16))
        ensures
            range == spec_y_range(self@),
    {
        let mut low = self.y;
        let mut i: usize = 0;
        while i < self.points.len()
            invariant
                i <= self.points@.len(),
                low == min_y(self@, i as int),
            decreases self.points@.len() - i,
        {
            if self.points[i].y < low {
                low = self.points[i].y;
            }
            i += 1;
        }
        proof {
            lemma_min_y_lowest(self@, self.points@.len() as int);
        }
        let mut high = self.y - low;
        let mut k: usize = 0;
        while k < self.points.len()
            invariant
                k <= self.points@.len(),
                low == min_y(self@, self.points@.len() as int),
                forall|j: int| 0 <= j < self.points@.len() ==> low <= #[trigger] self@.points[j].y,
                low <= self.y,
                high == max_y_above(self@, low, k as int),
            decreases self.points@.len() - k,
        {
            let above = self.points[k].y - low;
            if above > high {
                high = above;
            }
            k += 1;
        }
        (low, high)
    }

    /// The animations of the fireball: a motion to its start, then a motion to each point,
    /// each after the ones before it; places are fitted to the canvas, `y` from the top
    fn render_svg_animations(
        &self,
        canvas: &SVGCanvas,
        start: (usize, usize),
        moves: &[(usize, usize)],
    ) -> (text: String)
        requires
            moves@.len() == self.points@.len(),
            start.1 <= canvas@.height,
            forall|k: int| 0 <= k < moves@.len() ==> (#[trigger] moves@[k]).1 <= canvas@.height,
            (self.duration as i64) as int - total_delay(self.points@, self.points@.len() as int)
                >= i64::MIN,
            fireball_end(self@) <= usize::MAX,
        ensures
            text@ == fireball_animations(self@, canvas@.height, start, moves@),
    {
        let mut delay = self.get_initial_delay();
        let height = canvas.height();
        let mut prev_x = start.0;
        let mut prev_y = height - start.1;
        let first = motion(1, 1, prev_x, prev_y, prev_x, prev_y);
        let ghost first_place = flipped(height, start);
        let mut steps: Vec<String> = Vec::new();
        let mut i: usize = 0;
        while i < self.points.len()
            invariant
                i <= self.points@.len(),
                moves@.len() == self.points@.len(),
                height == canvas@.height,
                forall|k: int| 0 <= k < moves@.len() ==> (#[trigger] moves@[k]).1 <= height,
                fireball_end(self@) <= usize::MAX,
                delay == spec_initial_delay(self@) + total_delay(self.points@, i as int),
                steps@.map_values(|t: String| t@) + moves_from(
                    self@,
                    height,
                    moves@,
                    i as int,
                    delay as int,
                    (prev_x as int, prev_y as int),
                ) == moves_from(
                    self@,
                    height,
                    moves@,
                    0,
                    spec_initial_delay(self@) as int,
                    first_place,
                ),
            decreases self.points@.len() - i,
        {
            let point = &self.points[i];
            let (x, fitted_y) = moves[i];
            let y = height - fitted_y;
            let step = motion(point.extra as usize, delay, prev_x, prev_y, x, y);
            let ghost before = steps@.map_values(|t: String| t@);
            steps.push(step);
            proof {
                lemma_total_delay_monotonic(self.points@, i + 1, self.points@.len() as int);
                assert(steps@.map_values(|t: String| t@) =~= before.push(step@));
            }
            delay += point.extra as usize;
            prev_x = x;
            prev_y = y;
            i += 1;
        }
        let rest = join(steps.as_slice(), "\n");
        let mut text = first;
        text.append("\n");
        text.append(rest.as_str());
        proof {
            assert(steps@.map_values(|t: String| t@) + seq![] =~= steps@.map_values(
                |t: String| t@,
            ));
        }
        text
    }

    /// Draws the fireball as a glowing circle that moves along its path; places are the start
    /// and the points fitted to the canvas, `y` from the top
    pub fn render_svg(&self, canvas: &mut SVGCanvas, start: (usize, usize), moves: &[(usize, usize)])
        requires
            old(canvas).wf(),
            moves@.len() == self.points@.len(),
            start.1 <= old(canvas)@.height,
            forall|k: int| 0 <= k < moves@.len() ==> (#[trigger] moves@[k]).1 <= old(canvas)@.height,
            (self.duration as i64) as int - total_delay(self.points@, self.points@.len() as int)
                >= i64::MIN,
            fireball_end(self@) <= usize::MAX,
        ensures
            final(canvas).wf(),
            final(canvas)@ == (SVGCanvasView {
                canvas: old(canvas)@.canvas + elem_text(
                    "circle"@,
                    seq![
                        ("cx"@, "0"@),
                        ("cy"@, "0"@),
                        ("r"@, "50"@),
                        ("fill"@, "url('#fireball-gradient')"@),
                    ],
                    Some(fireball_animations(self@, old(canvas)@.height, start, moves@)),
                ),
                defs: set_def(
                    old(canvas)@.defs,
                    "fireball-gradient"@,
                    elem_text(
                        "radialGradient"@,
                        with_id(seq![], "fireball-gradient"@),
                        Some(gradient_stops()),
                    ),
                ),
                ..old(canvas)@
            }),
    {
        add_radial_gradient_def(canvas);
        let animations = self.render_svg_animations(canvas, start, moves);
        let attrs: Vec<(&str, String)> = vec![
            ("cx", "0".to_owned()),
            ("cy", "0".to_owned()),
            ("r", "50".to_owned()),
            ("fill", "url('#fireball-gradient')".to_owned()),
        ];
        proof {
            assert(attrs_view(attrs@) =~= seq![
                ("cx"@, "0"@),
                ("cy"@, "0"@),
                ("r"@, "50"@),
                ("fill"@, "url('#fireball-gradient')"@),
            ]);
        }
        canvas.write_elem("circle", attrs, Some(animations));
    }
}

/// The lowest `y` is at most the start's and each point's.
pub proof fn lemma_min_y_lowest(f: DigitalTouchFireballView, n: int)
    requires
        0 <= n <= f.points.len(),
    ensures
        min_y(f, n) <= f.y,
        forall|j: int| 0 <= j < n ==> min_y(f, n) <= #[trigger] f.points[j].y,
    decreases n,
{
    if n > 0 {
        lemma_min_y_lowest(f, n - 1);
    }
}

} // verus!

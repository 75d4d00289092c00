//! Drawing taps and kisses on an SVG canvas: each point becomes a mark that fades in and out
//! in turn.

use vstd::prelude::*;

use crate::message_types::digital_touch::kiss::{DigitalTouchKiss, KissData};
use crate::message_types::digital_touch::models::{Color, Point};
use crate::message_types::digital_touch::tap::{DigitalTouchTap, TapData};
use crate::util::svg_canvas::{attrs_view, elem_text, SVGCanvas, SVGCanvasView};
use crate::util::text::{digits, number_text, signed_digits, signed_text};

verus! {

/// Where a point is drawn on the canvas: its position, already fitted to the canvas, and the
/// rotation of its mark in degrees (for kisses).
#[derive(Debug, Clone, Copy, PartialEq, Eq)]
pub struct TapPlacement {
    pub x: usize,
    pub y: usize,
    pub degrees: i16,
}

/// A number followed by a unit.
pub open spec fn with_unit(n: nat, unit: Seq<char>) -> Seq<char> {
    digits(n, 10) + unit
}

/// `n` followed by `unit`, as text.
pub fn number_with_unit(n: usize, unit: &str) -> (text: String)
    ensures
        text@ == with_unit(n as nat, unit@),
{
    let mut text = number_text(n as u64, 10);
    text.append(unit);
    text
}

/// The CSS text of a color: `rgba(r, g, b, a)`.
pub open spec fn rgba_text(c: Color) -> Seq<char> {
    "rgba("@ + digits(c.r as nat, 10) + ", "@ + digits(c.g as nat, 10) + ", "@ + digits(
        c.b as nat,
        10,
    ) + ", "@ + digits(c.a as nat, 10) + ")"@
}

/// The CSS text of a color
pub fn rgba(c: &Color) -> (text: String)
    ensures
        text@ == rgba_text(*c),
{
    let (r, g, b, a) = c.tuple();
    let mut text = "rgba(".to_owned();
    text.append(number_text(r as u64, 10).as_str());
    text.append(", ");
    text.append(number_text(g as u64, 10).as_str());
    text.append(", ");
    text.append(number_text(b as u64, 10).as_str());
    text.append(", ");
    text.append(number_text(a as u64, 10).as_str());
    text.append(")");
    text
}

/// An `animate` element that runs once, for 1.5 seconds, from `delay` milliseconds on.
pub open spec fn animation_text(
    attribute: Seq<char>,
    first: (Seq<char>, Seq<char>),
    second: (Seq<char>, Seq<char>),
    delay: nat,
) -> Seq<char> {
    elem_text(
        "animate"@,
        seq![
            ("attributeName"@, attribute),
            first,
            second,
            ("dur"@, "1.5s"@),
            ("begin"@, with_unit(delay, "ms"@)),
            ("repeatCount"@, "1"@),
            ("restart"@, "whenNotActive"@),
        ],
        None,
    )
}

/// The animation that fades a mark in and out.
pub open spec fn opacity_animation(delay: nat) -> Seq<char> {
    animation_text("opacity"@, ("values"@, "0.0; 1.0; 0.0"@), ("keyTimes"@, "0; 0.25; 1"@), delay)
}

/// An `animate` element that runs once, for 1.5 seconds, from `delay` milliseconds on
fn animation(
    attribute: &str,
    first: (&'static str, &'static str),
    second: (&'static str, &'static str),
    delay: usize,
) -> (text: String)
    ensures
        text@ == animation_text(
            attribute@,
            (first.0@, first.1@),
            (second.0@, second.1@),
            delay as nat,
        ),
{
    let attrs: Vec<(&str, String)> = vec![
        ("attributeName", attribute.to_owned()),
        (first.0, first.1.to_owned()),
        (second.0, second.1.to_owned()),
        ("dur", "1.5s".to_owned()),
        ("begin", number_with_unit(delay, "ms")),
        ("repeatCount", "1".to_owned()),
        ("restart", "whenNotActive".to_owned()),
    ];
    proof {
        assert(attrs_view(attrs@) =~= seq![
            ("attributeName"@, attribute@),
            (first.0@, first.1@),
            (second.0@, second.1@),
            ("dur"@, "1.5s"@),
            ("begin"@, with_unit(delay as nat, "ms"@)),
            ("repeatCount"@, "1"@),
            ("restart"@, "whenNotActive"@),
        ]);
    }
    SVGCanvas::generate_elem("animate", attrs, None)
}

/// The animation that fades a mark in and out
pub fn get_opacity_animation(delay: usize) -> (text: String)
    ensures
        text@ == opacity_animation(delay as nat),
{
    animation("opacity", ("values", "0.0; 1.0; 0.0"), ("keyTimes", "0; 0.25; 1"), delay)
}

/// The time at which the `k`-th mark appears: one millisecond, plus the delays of the
/// points up to and including it.
pub open spec fn appear_at(delays: Seq<u16>, k: int) -> int
    decreases k,
{
    if k < 0 || k >= delays.len() {
        1
    } else if k == 0 {
        1 + delays[0]
    } else {
        appear_at(delays, k - 1) + delays[k]
    }
}

/// The time at which the last mark appears, or one millisecond if there is none.
pub open spec fn last_appearance(delays: Seq<u16>) -> int {
    if delays.len() == 0 {
        1
    } else {
        appear_at(delays, delays.len() - 1)
    }
}

/// The times at which marks appear grow with each mark.
pub proof fn lemma_appear_at_grows(delays: Seq<u16>, j: int, k: int)
    requires
        0 <= j <= k < delays.len(),
    ensures
        appear_at(delays, j) <= appear_at(delays, k),
        1 <= appear_at(delays, j),
    decreases k,
{
    if j < k {
        lemma_appear_at_grows(delays, j, k - 1);
    } else if k > 0 {
        lemma_appear_at_grows(delays, k - 1, k - 1);
    }
}

/// The delays of tap points.
pub open spec fn tap_delays(taps: Seq<Point<TapData>>) -> Seq<u16> {
    taps.map_values(|p: Point<TapData>| p.extra.ms_delay)
}

/// The delays of kiss points.
pub open spec fn kiss_delays(kisses: Seq<Point<KissData>>) -> Seq<u16> {
    kisses.map_values(|p: Point<KissData>| p.extra.ms_delay)
}

/// The circle of one tap: drawn at its place in its color, growing as it fades in and out.
pub open spec fn tap_elem(tap: Point<TapData>, place: TapPlacement, delay: nat) -> Seq<char> {
    elem_text(
        "circle"@,
        seq![
            ("cx"@, with_unit(place.x as nat, "px"@)),
            ("cy"@, with_unit(place.y as nat, "px"@)),
            ("fill"@, "none"@),
            ("stroke-width"@, "30"@),
            ("stroke"@, rgba_text(tap.extra.color)),
        ],
        Some(
            opacity_animation(delay) + "\n"@ + animation_text(
                "r"@,
                ("from"@, "0%"@),
                ("to"@, "50%"@),
                delay,
            ),
        ),
    )
}

/// The circles of the first `n` taps.
pub open spec fn taps_text(taps: Seq<Point<TapData>>, places: Seq<TapPlacement>, n: int) -> Seq<
    char,
>
    decreases n,
{
    if n <= 0 || n > taps.len() {
        seq![]
    } else {
        taps_text(taps, places, n - 1) + tap_elem(
            taps[n - 1],
            places[n - 1],
            appear_at(tap_delays(taps), n - 1) as nat,
        )
    }
}

/// The shape of a kiss mark: a pair of lips.
pub open spec fn kiss_path() -> Seq<char> {
    "\nM -50,0\nL -14,-25\nA 20,20 0 0,0 13,-25\nL 50,0\nL -50,0\nA 40,20 0 0,0 50,0\n"@
}

/// The lips of one kiss: placed and turned as given, their outline widening as they fade
/// in and out.
pub open spec fn kiss_elem(place: TapPlacement, delay: nat) -> Seq<char> {
    elem_text(
        "path"@,
        seq![
            (
                "transform"@,
                "translate("@ + digits(place.x as nat, 10) + ", "@ + digits(place.y as nat, 10)
                    + ") rotate("@ + signed_digits(place.degrees as int) + ")"@,
            ),
            ("d"@, kiss_path()),
            ("fill"@, "none"@),
            ("stroke"@, "red"@),
            ("stroke-width"@, "0"@),
            ("stroke-linecap"@, "round"@),
            ("stroke-linejoin"@, "round"@),
            ("opacity"@, "0"@),
        ],
        Some(
            opacity_animation(delay) + "\n"@ + animation_text(
                "stroke-width"@,
                ("values"@, "0.0; 25.0; 0.0"@),
                ("keyTimes"@, "0; 0.25; 1"@),
                delay,
            ),
        ),
    )
}

/// The lips of the first `n` kisses.
pub open spec fn kisses_text(kisses: Seq<Point<KissData>>, places: Seq<TapPlacement>, n: int) -> Seq<
    char,
>
    decreases n,
{
    if n <= 0 || n > kisses.len() {
        seq![]
    } else {
        kisses_text(kisses, places, n - 1) + kiss_elem(
            places[n - 1],
            appear_at(kiss_delays(kisses), n - 1) as nat,
        )
    }
}

/// Drawing the points of a message as marks that appear one after the other
pub trait SVGTapRender {
    /// The number of points to draw.
    spec fn tap_count(&self) -> nat;

    /// The delays of the points, in order.
    spec fn delays(&self) -> Seq<u16>;

    /// The marks of the points drawn at the given places.
    spec fn taps_svg(&self, places: Seq<TapPlacement>) -> Seq<char>;

    /// Draws each point at its place, after the delays of the points before it
    fn render_svg(&self, canvas: &mut SVGCanvas, places: &[TapPlacement])
        requires
            old(canvas).wf(),
            places@.len() == self.tap_count(),
            last_appearance(self.delays()) <= usize::MAX,
        ensures
            final(canvas).wf(),
            final(canvas)@ == (SVGCanvasView {
                canvas: old(canvas)@.canvas + self.taps_svg(places@),
                ..old(canvas)@
            }),
    ;
}

impl SVGTapRender for DigitalTouchTap {
    open spec fn tap_count(&self) -> nat {
        self.taps@.len()
    }

    open spec fn delays(&self) -> Seq<u16> {
        tap_delays(self.taps@)
    }

    open spec fn taps_svg(&self, places: Seq<TapPlacement>) -> Seq<char> {
        taps_text(self.taps@, places, self.taps@.len() as int)
    }

    fn render_svg(&self, canvas: &mut SVGCanvas, places: &[TapPlacement]) {
        let ghost start = canvas@;
        let ghost delays = tap_delays(self.taps@);
        let mut delay: usize = 1;
        let mut i: usize = 0;
        while i < self.taps.len()
            invariant
                i <= self.taps@.len(),
                places@.len() == self.taps@.len(),
                delays == tap_delays(self.taps@),
                last_appearance(delays) <= usize::MAX,
                delay == if i == 0 {
                    1
                } else {
                    appear_at(delays, i - 1)
                },
                canvas.wf(),
                canvas@ == (SVGCanvasView {
                    canvas: start.canvas + taps_text(self.taps@, places@, i as int),
                    ..start
                }),
            decreases self.taps@.len() - i,
        {
            let point = &self.taps[i];
            proof {
                lemma_appear_at_grows(delays, i as int, delays.len() - 1);
                assert(delays[i as int] == point.extra.ms_delay);
            }
            delay += point.extra.ms_delay as usize;
            let place = places[i];
            let mut inner = get_opacity_animation(delay);
            inner.append("\n");
            inner.append(animation("r", ("from", "0%"), ("to", "50%"), delay).as_str());
            let attrs: Vec<(&str, String)> = vec![
                ("cx", number_with_unit(place.x, "px")),
                ("cy", number_with_unit(place.y, "px")),
                ("fill", "none".to_owned()),
                ("stroke-width", "30".to_owned()),
                ("stroke", rgba(&point.extra.color)),
            ];
            proof {
                assert(attrs_view(attrs@) =~= seq![
                    ("cx"@, with_unit(place.x as nat, "px"@)),
                    ("cy"@, with_unit(place.y as nat, "px"@)),
                    ("fill"@, "none"@),
                    ("stroke-width"@, "30"@),
                    ("stroke"@, rgba_text(point.extra.color)),
                ]);
            }
            let ghost inner_text = inner@;
            canvas.write_elem("circle", attrs, Some(inner));
            proof {
                assert(delay == appear_at(delays, i as int));
                assert(inner_text == opacity_animation(delay as nat) + "\n"@ + animation_text(
                    "r"@,
                    ("from"@, "0%"@),
                    ("to"@, "50%"@),
                    delay as nat,
                ));
                assert(start.canvas + taps_text(self.taps@, places@, i + 1) =~= start.canvas
                    + taps_text(self.taps@, places@, i as int) + tap_elem(*point, place, delay as nat));
            }
            i += 1;
        }
    }
}

impl SVGTapRender for DigitalTouchKiss {
    open spec fn tap_count(&self) -> nat {
        self.kisses@.len()
    }

    open spec fn delays(&self) -> Seq<u16> {
        kiss_delays(self.kisses@)
    }

    open spec fn taps_svg(&self, places: Seq<TapPlacement>) -> Seq<char> {
        kisses_text(self.kisses@, places, self.kisses@.len() as int)
    }

    fn render_svg(&self, canvas: &mut SVGCanvas, places: &[TapPlacement]) {
        let ghost start = canvas@;
        let ghost delays = kiss_delays(self.kisses@);
        let mut delay: usize = 1;
        let mut i: usize = 0;
        while i < self.kisses.len()
            invariant
                i <= self.kisses@.len(),
                places@.len() == self.kisses@.len(),
                delays == kiss_delays(self.kisses@),
                last_appearance(delays) <= usize::MAX,
                delay == if i == 0 {
                    1
                } else {
                    appear_at(delays, i - 1)
                },
                canvas.wf(),
                canvas@ == (SVGCanvasView {
                    canvas: start.canvas + kisses_text(self.kisses@, places@, i as int),
                    ..start
                }),
            decreases self.kisses@.len() - i,
        {
            let point = &self.kisses[i];
            proof {
                lemma_appear_at_grows(delays, i as int, delays.len() - 1);
                assert(delays[i as int] == point.extra.ms_delay);
            }
            delay += point.extra.ms_delay as usize;
            let place = places[i];
            let mut inner = get_opacity_animation(delay);
            inner.append("\n");
            inner.append(
                animation(
                    "stroke-width",
                    ("values", "0.0; 25.0; 0.0"),
                    ("keyTimes", "0; 0.25; 1"),
                    delay,
                ).as_str(),
            );
            let mut transform = "translate(".to_owned();
            transform.append(number_text(place.x as u64, 10).as_str());
            transform.append(", ");
            transform.append(number_text(place.y as u64, 10).as_str());
            transform.append(") rotate(");
            transform.append(signed_text(place.degrees as i64).as_str());
            transform.append(")");
            let attrs: Vec<(&str, String)> = vec![
                ("transform", transform),
                ("d", "\nM -50,0\nL -14,-25\nA 20,20 0 0,0 13,-25\nL 50,0\nL -50,0\nA 40,20 0 0,0 50,0\n".to_owned()),
                ("fill", "none".to_owned()),
                ("stroke", "red".to_owned()),
                ("stroke-width", "0".to_owned()),
                ("stroke-linecap", "round".to_owned()),
                ("stroke-linejoin", "round".to_owned()),
                ("opacity", "0".to_owned()),
            ];
            proof {
                assert(attrs_view(attrs@) =~= seq![
                    (
                        "transform"@,
                        "translate("@ + digits(place.x as nat, 10) + ", "@ + digits(
                            place.y as nat,
                            10,
                        ) + ") rotate("@ + signed_digits(place.degrees as int) + ")"@,
                    ),
                    ("d"@, kiss_path()),
                    ("fill"@, "none"@),
                    ("stroke"@, "red"@),
                    ("stroke-width"@, "0"@),
                    ("stroke-linecap"@, "round"@),
                    ("stroke-linejoin"@, "round"@),
                    ("opacity"@, "0"@),
                ]);
            }
            let ghost inner_text = inner@;
            canvas.write_elem("path", attrs, Some(inner));
            proof {
                assert(delay == appear_at(delays, i as int));
                assert(inner_text == opacity_animation(delay as nat) + "\n"@ + animation_text(
                    "stroke-width"@,
                    ("values"@, "0.0; 25.0; 0.0"@),
                    ("keyTimes"@, "0; 0.25; 1"@),
                    delay as nat,
                ));
                assert(start.canvas + kisses_text(self.kisses@, places@, i + 1) =~= start.canvas
                    + kisses_text(self.kisses@, places@, i as int) + kiss_elem(place, delay as nat));
            }
            i += 1;
        }
    }
}

} // verus!

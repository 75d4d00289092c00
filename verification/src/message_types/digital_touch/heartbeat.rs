//! Heartbeats: a heart that beats at a rate, and may break.

use vstd::prelude::*;

use crate::message_types::digital_touch::render::{number_with_unit, with_unit};
use crate::util::svg_canvas::{attrs_view, elem_text, SVGCanvas, SVGCanvasView};
use crate::util::text::{digits, join, joined, number_text, signed_digits, signed_text};

verus! {

/// A Digital Touch heartbeat message
#[derive(Debug, Clone, PartialEq, Eq)]
pub struct DigitalTouchHeartbeat {
    pub id: String,
    /// Beats per minute
    pub bpm: usize,
    /// How long the heart beats, in seconds
    pub duration: usize,
    /// When the heart breaks, in milliseconds; zero when it does not
    pub heart_broken_at_ms: usize,
}

/// The value of a [`DigitalTouchHeartbeat`].
pub struct DigitalTouchHeartbeatView {
    pub id: Seq<char>,
    pub bpm: usize,
    pub duration: usize,
    pub heart_broken_at_ms: usize,
}

impl View for DigitalTouchHeartbeat {
    type V = DigitalTouchHeartbeatView;

    open spec fn view(&self) -> DigitalTouchHeartbeatView {
        DigitalTouchHeartbeatView {
            id: self.id@,
            bpm: self.bpm,
            duration: self.duration,
            heart_broken_at_ms: self.heart_broken_at_ms,
        }
    }
}

/// The number of beats in the interval: `bpm` beats a minute for `duration` seconds, counted
/// in thousandths of a beat (rounded down) and then rounded up to whole beats.
pub open spec fn spec_beats_in_interval(bpm: nat, duration: nat) -> nat {
    let millibeats = (bpm * 1000) * (duration * 1000) / 60000;
    if millibeats % 1000 == 0 {
        millibeats / 1000
    } else {
        millibeats / 1000 + 1
    }
}

/// A heart that beats at some rate for some time beats at least once, so the time of a beat
/// can be computed.
pub proof fn lemma_beats_positive(bpm: nat, duration: nat)
    requires
        bpm > 0,
        duration > 0,
    ensures
        spec_beats_in_interval(bpm, duration) >= 1,
{
    assert((bpm * 1000) * (duration * 1000) >= 1000000) by (nonlinear_arith)
        requires
            bpm >= 1,
            duration >= 1,
    ;
}

/// Whether the arithmetic on the heartbeat's rate and duration stays within `usize`.
pub open spec fn heartbeat_in_range(bpm: nat, duration: nat) -> bool {
    &&& bpm * 1000 <= usize::MAX
    &&& duration * 1000 <= usize::MAX
    &&& (bpm * 1000) * (duration * 1000) <= usize::MAX
}

impl DigitalTouchHeartbeat {
    /// Builds a heartbeat message from the decoded fields of its payload
    pub fn from_payload(id: &str, bpm: usize, duration: usize, heart_broken_at_ms: usize) -> (heartbeat:
        DigitalTouchHeartbeat)
        ensures
            heartbeat@ == (DigitalTouchHeartbeatView { id: id@, bpm, duration, heart_broken_at_ms }),
    {
        DigitalTouchHeartbeat { id: id.to_owned(), bpm, duration, heart_broken_at_ms }
    }

    /// The number of whole beats in the heartbeat, rounded up
    pub fn beats_in_interval(&self) -> (beats: usize)
        requires
            heartbeat_in_range(self.bpm as nat, self.duration as nat),
        ensures
            beats == spec_beats_in_interval(self.bpm as nat, self.duration as nat),
    {
        let mut beats_in_interval = ((self.bpm * 1000) * (self.duration * 1000)) / 60000;
        if beats_in_interval % 1000 != 0 {
            beats_in_interval = ((beats_in_interval / 1000) + 1) * 1000;
        }
        beats_in_interval / 1000
    }

    /// The time that one beat takes, in milliseconds
    pub fn time_per_beat(&self) -> (ms: usize)
        requires
            heartbeat_in_range(self.bpm as nat, self.duration as nat),
            spec_beats_in_interval(self.bpm as nat, self.duration as nat) > 0,
        ensures
            ms == (self.duration as nat * 1000) / spec_beats_in_interval(self.bpm as nat, self.duration as nat),
            ms * spec_beats_in_interval(self.bpm as nat, self.duration as nat) <= self.duration * 1000,
    {
        let beats = self.beats_in_interval();
        let ms = (self.duration * 1000) / beats;
        assert(ms * beats <= self.duration * 1000) by (nonlinear_arith)
            requires
                beats > 0,
                ms == (self.duration as nat * 1000) / (beats as nat),
        ;
        ms
    }
}

/// One half of a drawn heart
#[derive(Debug, Clone, Copy, PartialEq, Eq)]
pub enum HeartSide {
    Left(),
    Right(),
}

/// The outline of a half of the heart.
pub open spec fn side_path(side: HeartSide) -> Seq<char> {
    match side {
        HeartSide::Right() => "\n    M 50,30\n    A 25,30 0 0,1 100,30\n    L 50,90\n    L 39,60\n    L 64,50\n    L 39,40\n    L 50,30\n  "@,
        HeartSide::Left() => "\n    M 50,30\n    A 25,30 0 0,0 0,30\n    L 50,90\n    L 41,60\n    L 66,50\n    L 41,40\n    L 50,30\n    "@,
    }
}

/// How far a half of the heart turns when it breaks, in degrees.
pub open spec fn side_rotation(side: HeartSide) -> int {
    match side {
        HeartSide::Left() => -15,
        HeartSide::Right() => 15,
    }
}

impl HeartSide {
    /// The outline of the half
    pub fn d(&self) -> (path: String)
        ensures
            path@ == side_path(*self),
    {
        match self {
            HeartSide::Right() => "\n    M 50,30\n    A 25,30 0 0,1 100,30\n    L 50,90\n    L 39,60\n    L 64,50\n    L 39,40\n    L 50,30\n  ".to_owned(),
            HeartSide::Left() => "\n    M 50,30\n    A 25,30 0 0,0 0,30\n    L 50,90\n    L 41,60\n    L 66,50\n    L 41,40\n    L 50,30\n    ".to_owned(),
        }
    }

    /// How far the half turns when the heart breaks, in degrees
    pub fn rotate_deg(&self) -> (degrees: isize)
        ensures
            degrees == side_rotation(*self),
    {
        match self {
            HeartSide::Left() => -15,
            HeartSide::Right() => 15,
        }
    }

    /// How far the half drops when the heart breaks
    pub fn drop_amount(&self) -> (amount: usize)
        ensures
            amount == match self {
                HeartSide::Left() => 5usize,
                HeartSide::Right() => 10usize,
            },
    {
        match self {
            HeartSide::Left() => 5,
            HeartSide::Right() => 10,
        }
    }
}

/// An `animateTransform` element that plays once for 1.5 seconds and keeps its last frame.
pub open spec fn break_elem(kind: Seq<char>, begin: nat, from: Seq<char>, to: Seq<char>) -> Seq<char> {
    elem_text(
        "animateTransform"@,
        seq![
            ("attributeName"@, "transform"@),
            ("type"@, kind),
            ("begin"@, with_unit(begin, "ms"@)),
            ("from"@, from),
            ("to"@, to),
            ("fill"@, "freeze"@),
            ("dur"@, "1.5s"@),
            ("repeatCount"@, "1"@),
            ("restart"@, "whenNotActive"@),
        ],
        None,
    )
}

/// The animations of a half of the heart when it breaks: it shrinks and turns away; none
/// when the heart does not break.
pub open spec fn heartbreak_animation(h: DigitalTouchHeartbeatView, side: HeartSide) -> Seq<Seq<char>> {
    if h.heart_broken_at_ms > 0 {
        seq![
            break_elem("scale"@, (h.heart_broken_at_ms + 1) as nat, "1.0"@, "0.75"@),
            break_elem(
                "rotate"@,
                (h.heart_broken_at_ms + 1) as nat,
                "0 50 60"@,
                signed_digits(side_rotation(side)) + " 50 60"@,
            ),
        ]
    } else {
        seq![]
    }
}

/// The beating of the heart: it grows and shrinks once per beat, for each beat.
pub open spec fn beat_elem(h: DigitalTouchHeartbeatView) -> Seq<char> {
    let beats = spec_beats_in_interval(h.bpm as nat, h.duration as nat);
    elem_text(
        "animateTransform"@,
        seq![
            ("attributeName"@, "transform"@),
            ("type"@, "scale"@),
            ("begin"@, "0s"@),
            ("values"@, "1.0; 2.0; 1.0"@),
            ("keyTimes"@, "0; 0.70; 1"@),
            ("dur"@, with_unit((h.duration * 1000) as nat / beats, "ms"@)),
            ("repeatCount"@, digits(beats, 10)),
            ("restart"@, "whenNotActive"@),
        ],
        None,
    )
}

/// The animations of a half of the heart, one per line.
pub open spec fn side_animations(h: DigitalTouchHeartbeatView, side: HeartSide) -> Seq<char> {
    joined(seq![beat_elem(h)] + heartbreak_animation(h, side), "\n"@)
}

/// A half of the heart, with its animations.
pub open spec fn side_elem(h: DigitalTouchHeartbeatView, side: HeartSide) -> Seq<char> {
    elem_text(
        "path"@,
        seq![
            ("d"@, side_path(side)),
            ("transform-origin"@, "50 45"@),
            ("fill"@, "red"@),
            ("stroke"@, "red"@),
            ("stroke-width"@, "5"@),
            ("stroke-linecap"@, "round"@),
            ("stroke-dasharray"@, "264.304"@),
            ("stroke-dashoffset"@, "99.617"@),
        ],
        Some(joined(seq![side_animations(h, side)], "\n"@)),
    )
}

/// The metadata of the heartbeat: its identifier, rate and duration, and when it breaks.
pub open spec fn metadata_elem(h: DigitalTouchHeartbeatView) -> Seq<char> {
    let items = seq![
        elem_text("id"@, seq![], Some(h.id)),
        elem_text("bpm"@, seq![], Some(digits(h.bpm as nat, 10))),
        elem_text("duration"@, seq![("unit"@, "second"@)], Some(digits(h.duration as nat, 10))),
    ];
    let all = if h.heart_broken_at_ms > 0 {
        items.push(
            elem_text(
                "heartbreak"@,
                seq![("unit"@, "millisecond"@)],
                Some(digits(h.heart_broken_at_ms as nat, 10)),
            ),
        )
    } else {
        items
    };
    elem_text("metadata"@, seq![], Some(joined(all, "\n"@)))
}

/// The group that draws the heart at `(x, y)`.
pub open spec fn heart_elem(h: DigitalTouchHeartbeatView, x: nat, y: nat) -> Seq<char> {
    elem_text(
        "g"@,
        seq![("transform"@, "translate("@ + digits(x, 10) + ","@ + digits(y, 10) + ")"@)],
        Some(
            joined(
                seq![
                    metadata_elem(h),
                    joined(
                        seq![side_elem(h, HeartSide::Left()), side_elem(h, HeartSide::Right())],
                        "\n"@,
                    ),
                ],
                "\n"@,
            ),
        ),
    )
}

/// Whether a heartbeat can be drawn: its arithmetic stays within `usize`, it has a beat,
/// and the time it breaks can be counted past.
pub open spec fn heartbeat_drawable(h: DigitalTouchHeartbeatView) -> bool {
    &&& heartbeat_in_range(h.bpm as nat, h.duration as nat)
    &&& spec_beats_in_interval(h.bpm as nat, h.duration as nat) > 0
    &&& h.heart_broken_at_ms < usize::MAX
}

/// An element with no attributes around an inner text
fn plain_elem(elem: &str, inner: String) -> (text: String)
    ensures
        text@ == elem_text(elem@, seq![], Some(inner@)),
{
    let attrs: Vec<(&str, String)> = Vec::new();
    proof {
        assert(attrs_view(attrs@) =~= seq![]);
    }
    SVGCanvas::generate_elem(elem, attrs, Some(inner))
}

/// An element with one attribute around an inner text
fn one_attr_elem(elem: &str, name: &str, value: &str, inner: String) -> (text: String)
    ensures
        text@ == elem_text(elem@, seq![(name@, value@)], Some(inner@)),
{
    let attrs: Vec<(&str, String)> = vec![(name, value.to_owned())];
    proof {
        assert(attrs_view(attrs@) =~= seq![(name@, value@)]);
    }
    SVGCanvas::generate_elem(elem, attrs, Some(inner))
}

/// An `animateTransform` element that plays once for 1.5 seconds and keeps its last frame
fn break_animation(kind: &str, begin: usize, from: &str, to: String) -> (text: String)
    ensures
        text@ == break_elem(kind@, begin as nat, from@, to@),
{
    let attrs: Vec<(&str, String)> = vec![
        ("attributeName", "transform".to_owned()),
        ("type", kind.to_owned()),
        ("begin", number_with_unit(begin, "ms")),
        ("from", from.to_owned()),
        ("to", to),
        ("fill", "freeze".to_owned()),
        ("dur", "1.5s".to_owned()),
        ("repeatCount", "1".to_owned()),
        ("restart", "whenNotActive".to_owned()),
    ];
    proof {
        assert(attrs_view(attrs@) =~= seq![
            ("attributeName"@, "transform"@),
            ("type"@, kind@),
            ("begin"@, with_unit(begin as nat, "ms"@)),
            ("from"@, from@),
            ("to"@, to@),
            ("fill"@, "freeze"@),
            ("dur"@, "1.5s"@),
            ("repeatCount"@, "1"@),
            ("restart"@, "whenNotActive"@),
        ]);
    }
    SVGCanvas::generate_elem("animateTransform", attrs, None)
}

/// The values of a sequence of strings.
pub open spec fn texts_view(texts: Seq<String>) -> Seq<Seq<char>> {
    texts.map_values(|t: String| t@)
}

impl DigitalTouchHeartbeat {
    /// Draws the heart: a group at the center of the canvas, moved up and left by the size
    /// of the heart; the center is given fitted to the canvas
    pub fn render_svg(&self, canvas: &mut SVGCanvas, center_x: usize, center_y: usize)
        requires
            old(canvas).wf(),
            center_x >= 50,
            center_y >= 45,
            heartbeat_drawable(self@),
        ensures
            final(canvas).wf(),
            final(canvas)@ == (SVGCanvasView {
                canvas: old(canvas)@.canvas + heart_elem(
                    self@,
                    (center_x - 50) as nat,
                    (center_y - 45) as nat,
                ),
                ..old(canvas)@
            }),
    {
        let x = center_x - 50;
        let y = center_y - 45;

        let left = self.side_elem(&HeartSide::Left());
        let right = self.side_elem(&HeartSide::Right());
        let heart_sides: Vec<String> = vec![left, right];
        proof {
            assert(texts_view(heart_sides@) =~= seq![
                side_elem(self@, HeartSide::Left()),
                side_elem(self@, HeartSide::Right()),
            ]);
        }
        let sides = join(heart_sides.as_slice(), "\n");
        let parts: Vec<String> = vec![self.get_metadata(), sides];
        proof {
            assert(texts_view(parts@) =~= seq![
                metadata_elem(self@),
                joined(
                    seq![side_elem(self@, HeartSide::Left()), side_elem(self@, HeartSide::Right())],
                    "\n"@,
                ),
            ]);
        }
        let inner = join(parts.as_slice(), "\n");
        let mut transform = "translate(".to_owned();
        transform.append(number_text(x as u64, 10).as_str());
        transform.append(",");
        transform.append(number_text(y as u64, 10).as_str());
        transform.append(")");
        let attrs: Vec<(&str, String)> = vec![("transform", transform)];
        proof {
            assert(attrs_view(attrs@) =~= seq![
                ("transform"@, "translate("@ + digits(x as nat, 10) + ","@ + digits(y as nat, 10) + ")"@),
            ]);
        }
        canvas.write_elem("g", attrs, Some(inner));
    }

    /// A half of the heart with its animations
    fn side_elem(&self, side: &HeartSide) -> (text: String)
        requires
            heartbeat_drawable(self@),
        ensures
            text@ == side_elem(self@, *side),
    {
        let animations: Vec<String> = vec![self.get_animations(side)];
        proof {
            assert(texts_view(animations@) =~= seq![side_animations(self@, *side)]);
        }
        let inner = join(animations.as_slice(), "\n");
        let attrs: Vec<(&str, String)> = vec![
            ("d", side.d()),
            ("transform-origin", "50 45".to_owned()),
            ("fill", "red".to_owned()),
            ("stroke", "red".to_owned()),
            ("stroke-width", "5".to_owned()),
            ("stroke-linecap", "round".to_owned()),
            ("stroke-dasharray", "264.304".to_owned()),
            ("stroke-dashoffset", "99.617".to_owned()),
        ];
        proof {
            assert(attrs_view(attrs@) =~= seq![
                ("d"@, side_path(*side)),
                ("transform-origin"@, "50 45"@),
                ("fill"@, "red"@),
                ("stroke"@, "red"@),
                ("stroke-width"@, "5"@),
                ("stroke-linecap"@, "round"@),
                ("stroke-dasharray"@, "264.304"@),
                ("stroke-dashoffset"@, "99.617"@),
            ]);
        }
        SVGCanvas::generate_elem("path", attrs, Some(inner))
    }

    /// The metadata of the heartbeat
    fn get_metadata(&self) -> (text: String)
        ensures
            text@ == metadata_elem(self@),
    {
        let mut metadata: Vec<String> = vec![
            plain_elem("id", self.id.clone()),
            plain_elem("bpm", number_text(self.bpm as u64, 10)),
            one_attr_elem("duration", "unit", "second", number_text(self.duration as u64, 10)),
        ];
        let ghost items = seq![
            elem_text("id"@, seq![], Some(self.id@)),
            elem_text("bpm"@, seq![], Some(digits(self.bpm as nat, 10))),
            elem_text("duration"@, seq![("unit"@, "second"@)], Some(digits(self.duration as nat, 10))),
        ];
        proof {
            assert(texts_view(metadata@) =~= items);
        }
        if self.heart_broken_at_ms > 0 {
            metadata.push(
                one_attr_elem(
                    "heartbreak",
                    "unit",
                    "millisecond",
                    number_text(self.heart_broken_at_ms as u64, 10),
                ),
            );
            proof {
                assert(texts_view(metadata@) =~= items.push(
                    elem_text(
                        "heartbreak"@,
                        seq![("unit"@, "millisecond"@)],
                        Some(digits(self.heart_broken_at_ms as nat, 10)),
                    ),
                ));
            }
        }
        plain_elem("metadata", join(metadata.as_slice(), "\n"))
    }

    /// The animations of a half of the heart
    fn get_animations(&self, side: &HeartSide) -> (text: String)
        requires
            heartbeat_drawable(self@),
        ensures
            text@ == side_animations(self@, *side),
    {
        let beats_in_interval = self.beats_in_interval();
        let time_per_beat = self.time_per_beat();
        let attrs: Vec<(&str, String)> = vec![
            ("attributeName", "transform".to_owned()),
            ("type", "scale".to_owned()),
            ("begin", "0s".to_owned()),
            ("values", "1.0; 2.0; 1.0".to_owned()),
            ("keyTimes", "0; 0.70; 1".to_owned()),
            ("dur", number_with_unit(time_per_beat, "ms")),
            ("repeatCount", number_text(beats_in_interval as u64, 10)),
            ("restart", "whenNotActive".to_owned()),
        ];
        proof {
            assert(attrs_view(attrs@) =~= seq![
                ("attributeName"@, "transform"@),
                ("type"@, "scale"@),
                ("begin"@, "0s"@),
                ("values"@, "1.0; 2.0; 1.0"@),
                ("keyTimes"@, "0; 0.70; 1"@),
                ("dur"@, with_unit(time_per_beat as nat, "ms"@)),
                ("repeatCount"@, digits(beats_in_interval as nat, 10)),
                ("restart"@, "whenNotActive"@),
            ]);
        }
        let beat = SVGCanvas::generate_elem("animateTransform", attrs, None);
        let mut all: Vec<String> = vec![beat];
        let breaking = self.get_heartbreak_animation(side);
        let ghost first = texts_view(all@);
        let mut i: usize = 0;
        while i < breaking.len()
            invariant
                i <= breaking@.len(),
                first.len() == 1,
                all@.len() == 1 + i,
                texts_view(all@) == first + texts_view(breaking@).take(i as int),
            decreases breaking@.len() - i,
        {
            let ghost before = all@;
            let copy = breaking[i].clone();
            assert(copy@ == breaking@[i as int]@);
            all.push(copy);
            proof {
                assert(all@ == before.push(copy));
                assert(texts_view(all@) =~= texts_view(before).push(copy@));
                assert(texts_view(breaking@).take(i + 1) =~= texts_view(breaking@).take(i as int).push(copy@));
                assert(texts_view(all@) =~= first + texts_view(breaking@).take(i + 1));
            }
            i += 1;
        }
        proof {
            assert(texts_view(breaking@).take(breaking@.len() as int) =~= texts_view(breaking@));
            assert(first =~= seq![beat_elem(self@)]);
        }
        join(all.as_slice(), "\n")
    }

    /// The animations of a half of the heart when it breaks
    fn get_heartbreak_animation(&self, side: &HeartSide) -> (animations: Vec<String>)
        requires
            self.heart_broken_at_ms < usize::MAX,
        ensures
            texts_view(animations@) == heartbreak_animation(self@, *side),
    {
        let mut heartbreak: Vec<String> = Vec::new();
        if self.heart_broken_at_ms > 0 {
            heartbreak.push(
                break_animation("scale", self.heart_broken_at_ms + 1, "1.0", "0.75".to_owned()),
            );
            let mut to = signed_text(side.rotate_deg() as i64);
            to.append(" 50 60");
            heartbreak.push(break_animation("rotate", self.heart_broken_at_ms + 1, "0 50 60", to));
        }
        proof {
            assert(texts_view(heartbreak@) =~= heartbreak_animation(self@, *side));
        }
        heartbreak
    }
}

} // verus!

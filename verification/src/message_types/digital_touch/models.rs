//! The values that Digital Touch messages are made of, and decoding them from raw bytes.

use vstd::prelude::*;

use crate::error::digital_touch::{DigitalTouchError, DigitalTouchErrorView};
use crate::message_types::digital_touch::fireball::{DigitalTouchFireball, DigitalTouchFireballView};
use crate::message_types::digital_touch::heartbeat::{DigitalTouchHeartbeat, DigitalTouchHeartbeatView};
use crate::message_types::digital_touch::kiss::{spec_kiss_from, DigitalTouchKiss, DigitalTouchKissView};
use crate::message_types::digital_touch::sketch::{
    sketch_readable, spec_strokes, DigitalTouchSketch, DigitalTouchSketchView,
};
use crate::message_types::digital_touch::tap::{spec_tap_from, DigitalTouchTap, DigitalTouchTapView};

verus! {

/// Parser for [digital touch](https://support.apple.com/guide/ipod-touch/send-a-digital-touch-effect-iph3fadba219/ios) iMessages.
///
/// This message type is not documented by Apple, but represents messages displayed as
/// `com.apple.DigitalTouchBalloonProvider`.
#[derive(Debug, PartialEq, Eq)]
pub enum DigitalTouchMessage {
    Tap(DigitalTouchTap),
    Sketch(DigitalTouchSketch),
    Kiss(DigitalTouchKiss),
    Heartbeat(DigitalTouchHeartbeat),
    Fireball(DigitalTouchFireball),
}

/// The value of a [`DigitalTouchMessage`].
pub enum DigitalTouchMessageView {
    Tap(DigitalTouchTapView),
    Sketch(DigitalTouchSketchView),
    Kiss(DigitalTouchKissView),
    Heartbeat(DigitalTouchHeartbeatView),
    Fireball(DigitalTouchFireballView),
}

impl View for DigitalTouchMessage {
    type V = DigitalTouchMessageView;

    open spec fn view(&self) -> DigitalTouchMessageView {
        match self {
            DigitalTouchMessage::Tap(t) => DigitalTouchMessageView::Tap(t@),
            DigitalTouchMessage::Sketch(s) => DigitalTouchMessageView::Sketch(s@),
            DigitalTouchMessage::Kiss(k) => DigitalTouchMessageView::Kiss(k@),
            DigitalTouchMessage::Heartbeat(h) => DigitalTouchMessageView::Heartbeat(h@),
            DigitalTouchMessage::Fireball(f) => DigitalTouchMessageView::Fireball(f@),
        }
    }
}

/// The decoded payload of a Digital Touch message, by kind: the fields of its protocol
/// buffer that the message is built from, the floating-point ones already converted to the
/// integers that the message keeps.
#[derive(Debug, Clone, PartialEq, Eq)]
pub enum TouchPayload {
    /// A kind that is not known, with its number
    Unknown(i32),
    Tap { location: Vec<u8>, delays: Vec<u8>, colors: Vec<u8> },
    Sketch { strokes_count: usize, strokes: Vec<u8>, colors: Vec<u8> },
    Kiss { points: Vec<u8>, delays: Vec<u8>, rotations: Vec<u8> },
    Heartbeat { bpm: usize, duration: usize, heart_broken_at_ms: usize },
    Fireball { x: u16, y: u16, duration: usize, points: Vec<u8>, delays: Vec<u8> },
}

/// Whether the byte fields of a payload have the lengths that decoding them needs.
pub open spec fn payload_decodable(payload: TouchPayload) -> bool {
    match payload {
        TouchPayload::Unknown(_) => true,
        TouchPayload::Tap { location, delays, colors } => location@.len() % 4 == 0
            && delays@.len() % 2 == 0 && colors@.len() % 4 == 0,
        TouchPayload::Sketch { strokes_count, strokes, colors } => colors@.len() % 4 == 0
            && sketch_readable(
            strokes@,
            spec_decode_colors(colors@).len(),
            strokes_count as nat,
            0,
            0,
        ),
        TouchPayload::Kiss { points, delays, rotations } => points@.len() % 4 == 0
            && delays@.len() % 2 == 0 && rotations@.len() % 2 == 0,
        TouchPayload::Heartbeat { .. } => true,
        TouchPayload::Fireball { points, delays, .. } => points@.len() % 4 == 0 && delays@.len()
            % 2 == 0,
    }
}

/// The message that a decoded payload gives, or the error.
pub open spec fn spec_message_from(id: Seq<char>, payload: TouchPayload) -> Result<
    DigitalTouchMessageView,
    DigitalTouchErrorView,
> {
    match payload {
        TouchPayload::Unknown(kind) => Err(DigitalTouchErrorView::UnknownDigitalTouchKind(kind)),
        TouchPayload::Tap { location, delays, colors } => match spec_tap_from(
            id,
            location@,
            delays@,
            colors@,
        ) {
            Ok(t) => Ok(DigitalTouchMessageView::Tap(t)),
            Err(e) => Err(e),
        },
        TouchPayload::Sketch { strokes_count, strokes, colors } => Ok(
            DigitalTouchMessageView::Sketch(
                DigitalTouchSketchView {
                    id,
                    strokes: spec_strokes(
                        strokes@,
                        spec_decode_colors(colors@),
                        strokes_count as nat,
                        0,
                        0,
                    ),
                },
            ),
        ),
        TouchPayload::Kiss { points, delays, rotations } => match spec_kiss_from(
            id,
            points@,
            delays@,
            rotations@,
        ) {
            Ok(k) => Ok(DigitalTouchMessageView::Kiss(k)),
            Err(e) => Err(e),
        },
        TouchPayload::Heartbeat { bpm, duration, heart_broken_at_ms } => Ok(
            DigitalTouchMessageView::Heartbeat(
                DigitalTouchHeartbeatView { id, bpm, duration, heart_broken_at_ms },
            ),
        ),
        TouchPayload::Fireball { x, y, duration, points, delays } => {
            let d = spec_decode_u16s(delays@);
            if points@.len() / 4 != d.len() {
                Err(
                    DigitalTouchErrorView::ArraysDoNotMatch(
                        "points"@,
                        (points@.len() / 4) as usize,
                        "extra"@,
                        d.len() as usize,
                    ),
                )
            } else {
                Ok(
                    DigitalTouchMessageView::Fireball(
                        DigitalTouchFireballView {
                            id,
                            x,
                            y,
                            points: spec_points(points@, d),
                            duration,
                        },
                    ),
                )
            }
        },
    }
}

impl DigitalTouchMessage {
    /// Builds a [`DigitalTouchMessage`] from the identifier and the decoded payload of the
    /// protocol buffer stored in the database.
    pub fn from_payload(id: &str, payload: &TouchPayload) -> (message: Result<Self, DigitalTouchError>)
        requires
            payload_decodable(*payload),
        ensures
            match (message, spec_message_from(id@, *payload)) {
                (Ok(m), Ok(v)) => m@ == v,
                (Err(e), Err(v)) => e@ == v,
                _ => false,
            },
    {
        match payload {
            TouchPayload::Unknown(kind) => Err(DigitalTouchError::UnknownDigitalTouchKind(*kind)),
            TouchPayload::Tap { location, delays, colors } => {
                let tap = DigitalTouchTap::from_payload(id, location.as_slice(), delays.as_slice(), colors.as_slice())?;
                Ok(DigitalTouchMessage::Tap(tap))
            },
            TouchPayload::Sketch { strokes_count, strokes, colors } => {
                let sketch = DigitalTouchSketch::from_payload(id, *strokes_count, strokes.as_slice(), colors.as_slice())?;
                Ok(DigitalTouchMessage::Sketch(sketch))
            },
            TouchPayload::Kiss { points, delays, rotations } => {
                let kiss = DigitalTouchKiss::from_payload(id, points.as_slice(), delays.as_slice(), rotations.as_slice())?;
                Ok(DigitalTouchMessage::Kiss(kiss))
            },
            TouchPayload::Heartbeat { bpm, duration, heart_broken_at_ms } => {
                let heartbeat = DigitalTouchHeartbeat::from_payload(id, *bpm, *duration, *heart_broken_at_ms);
                Ok(DigitalTouchMessage::Heartbeat(heartbeat))
            },
            TouchPayload::Fireball { x, y, duration, points, delays } => {
                let fireball = DigitalTouchFireball::from_payload(id, *x, *y, *duration, points.as_slice(), delays.as_slice())?;
                Ok(DigitalTouchMessage::Fireball(fireball))
            },
        }
    }
}

impl DigitalTouchMessage {
    /// Builds a [`DigitalTouchMessage`] from the result of decoding its protocol buffer: a
    /// payload that did not decode gives [`DigitalTouchError::ProtobufError`] with the decoder's
    /// error, and a decoded one gives what [`DigitalTouchMessage::from_payload`] gives.
    pub fn from_decoded(id: &str, decoded: Result<TouchPayload, protobuf::Error>) -> (message:
        Result<Self, DigitalTouchError>)
        requires
            decoded matches Ok(p) ==> payload_decodable(p),
        ensures
            match decoded {
                Err(_) => message matches Err(e) && e@ == DigitalTouchErrorView::ProtobufError,
                Ok(p) => match (message, spec_message_from(id@, p)) {
                    (Ok(m), Ok(v)) => m@ == v,
                    (Err(e), Err(v)) => e@ == v,
                    _ => false,
                },
            },
    {
        match decoded {
            Err(why) => Err(DigitalTouchError::ProtobufError(why)),
            Ok(payload) => DigitalTouchMessage::from_payload(id, &payload),
        }
    }
}

/// A point of a Digital Touch drawing, with the data that goes with it
#[derive(Debug, PartialEq, Clone, Copy, Eq)]
pub struct Point<T> {
    pub x: u16,
    pub y: u16,
    pub extra: T,
}

/// A color with an alpha channel
#[derive(Debug, Clone, PartialEq, Copy, Eq)]
pub struct Color {
    pub r: u8,
    pub g: u8,
    pub b: u8,
    pub a: u8,
}

/// The little-endian `u16` in the two bytes of `b` at position `i`.
pub open spec fn le_u16_at(b: Seq<u8>, i: int) -> u16 {
    (b[i] as int + 256 * (b[i + 1] as int)) as u16
}

/// The color in the four bytes of `b` at position `i`: red, green, blue and alpha.
pub open spec fn color_at(b: Seq<u8>, i: int) -> Color {
    Color { r: b[i], g: b[i + 1], b: b[i + 2], a: b[i + 3] }
}

/// The `i`-th chunk of `count` bytes of `b`.
pub open spec fn chunk(b: Seq<u8>, count: int, i: int) -> Seq<u8> {
    b.subrange(i * count, i * count + count)
}

/// The number of chunks of `count` bytes in `b`.
pub open spec fn chunk_count(b: Seq<u8>, count: int) -> int {
    b.len() as int / count
}

/// The little-endian `u16` values in `b`, two bytes each.
pub open spec fn spec_decode_u16s(b: Seq<u8>) -> Seq<u16> {
    Seq::new((b.len() / 2) as nat, |i: int| le_u16_at(b, 2 * i))
}

/// The colors in `b`, four bytes each.
pub open spec fn spec_decode_colors(b: Seq<u8>) -> Seq<Color> {
    Seq::new((b.len() / 4) as nat, |i: int| color_at(b, 4 * i))
}

/// The points in `raw`, four bytes each (`x` then `y`, little-endian), with the `extra`
/// values in order.
pub open spec fn spec_points<T>(raw: Seq<u8>, extra: Seq<T>) -> Seq<Point<T>> {
    Seq::new(
        extra.len(),
        |i: int| Point { x: le_u16_at(raw, 4 * i), y: le_u16_at(raw, 4 * i + 2), extra: extra[i] },
    )
}

/// The little-endian `u16` in the first two bytes of `buf`.
fn read_le_u16(buf: &[u8], i: usize) -> (value: u16)
    requires
        i + 2 <= buf@.len(),
    ensures
        value == le_u16_at(buf@, i as int),
{
    buf[i] as u16 + 256 * (buf[i + 1] as u16)
}

impl Color {
    pub fn new(r: u8, g: u8, b: u8, a: u8) -> (color: Self)
        ensures
            color == (Color { r, g, b, a }),
    {
        Self { r, g, b, a }
    }

    /// The color in the first four bytes of `buf`: red, green, blue and alpha.
    pub fn from_bytes(buf: &[u8]) -> (color: Color)
        requires
            buf@.len() >= 4,
        ensures
            color == color_at(buf@, 0),
    {
        Color::new(buf[0], buf[1], buf[2], buf[3])
    }

    pub fn tuple(&self) -> (channels: (u8, u8, u8, u8))
        ensures
            channels == (self.r, self.g, self.b, self.a),
    {
        (self.r, self.g, self.b, self.a)
    }

    /// The colors in `buf`, four bytes each.
    pub fn decode_all(buf: &[u8]) -> (colors: Vec<Color>)
        requires
            buf@.len() % 4 == 0,
        ensures
            colors@ == spec_decode_colors(buf@),
    {
        let parse = |chunk: &[u8]| -> (c: Color)
            requires
                chunk@.len() == 4,
            ensures
                c == color_at(chunk@, 0),
            { Color::from_bytes(chunk) };
        let colors = decode_bytes(buf, 4, parse);
        proof {
            assert forall|i: int| 0 <= i < colors@.len() implies colors@[i] == color_at(buf@, 4 * i) by {
                assert(parsed_from(parse, chunk(buf@, 4, i), colors@[i]));
                let s = choose|s: &[u8]| s@ == chunk(buf@, 4, i) && call_ensures(parse, (s,), colors@[i]);
                assert(chunk(buf@, 4, i)[0] == buf@[4 * i]);
                assert(chunk(buf@, 4, i)[1] == buf@[4 * i + 1]);
                assert(chunk(buf@, 4, i)[2] == buf@[4 * i + 2]);
                assert(chunk(buf@, 4, i)[3] == buf@[4 * i + 3]);
            }
            assert(colors@ =~= spec_decode_colors(buf@));
        }
        colors
    }
}

/// Whether `item` is what `parse_fn` may return for a slice that holds `bytes`.
pub open spec fn parsed_from<T, F: Fn(&[u8]) -> T>(parse_fn: F, bytes: Seq<u8>, item: T) -> bool {
    exists|s: &[u8]| s@ == bytes && call_ensures(parse_fn, (s,), item)
}

/// Applies `parse_fn` to each chunk of `count` bytes of `b`, in order.
pub fn decode_bytes<T, F: Fn(&[u8]) -> T>(b: &[u8], count: usize, parse_fn: F) -> (items: Vec<T>)
    requires
        count > 0,
        b@.len() % (count as nat) == 0,
        forall|s: &[u8]| s@.len() == count ==> call_requires(parse_fn, (s,)),
    ensures
        items@.len() == chunk_count(b@, count as int),
        forall|i: int|
            0 <= i < items@.len() ==> parsed_from(parse_fn, chunk(b@, count as int, i), #[trigger] items@[i]),
{
    let mut a: Vec<T> = Vec::new();
    let mut idx: usize = 0;
    while idx < b.len()
        invariant
            count > 0,
            b@.len() % (count as nat) == 0,
            forall|s: &[u8]| s@.len() == count ==> call_requires(parse_fn, (s,)),
            idx == a@.len() * count,
            idx <= b@.len(),
            forall|i: int|
                0 <= i < a@.len() ==> parsed_from(parse_fn, chunk(b@, count as int, i), #[trigger] a@[i]),
        decreases b@.len() - idx,
    {
        assert(idx + count <= b@.len()) by (nonlinear_arith)
            requires
                idx < b@.len(),
                idx == a@.len() * count,
                b@.len() % (count as nat) == 0,
                count > 0,
        ;
        let part = &b[idx..idx + count];
        let item = parse_fn(part);
        let ghost before = a@;
        proof {
            assert(part@ =~= chunk(b@, count as int, a@.len() as int));
        }
        a.push(item);
        proof {
            assert forall|i: int| 0 <= i < a@.len() implies parsed_from(
                parse_fn,
                chunk(b@, count as int, i),
                #[trigger] a@[i],
            ) by {
                if i < before.len() {
                    assert(a@[i] == before[i]);
                } else {
                    assert(call_ensures(parse_fn, (part,), a@[i]));
                }
            }
        }
        idx += count;
        proof {
            assert(idx == a@.len() * count) by (nonlinear_arith)
                requires
                    idx == (a@.len() - 1) * count + count,
            ;
        }
    }
    assert(a@.len() == chunk_count(b@, count as int)) by (nonlinear_arith)
        requires
            idx == a@.len() * count,
            idx >= b@.len(),
            idx <= b@.len(),
            count > 0,
    ;
    a
}

/// The little-endian `u16` values in `buf`, two bytes each.
pub fn decode_u16s(buf: &[u8]) -> (values: Vec<u16>)
    requires
        buf@.len() % 2 == 0,
    ensures
        values@ == spec_decode_u16s(buf@),
{
    let parse = |chunk: &[u8]| -> (v: u16)
        requires
            chunk@.len() == 2,
        ensures
            v == le_u16_at(chunk@, 0),
        { read_le_u16(chunk, 0) };
    let values = decode_bytes(buf, 2, parse);
    proof {
        assert forall|i: int| 0 <= i < values@.len() implies values@[i] == le_u16_at(buf@, 2 * i) by {
            assert(parsed_from(parse, chunk(buf@, 2, i), values@[i]));
            let s = choose|s: &[u8]| s@ == chunk(buf@, 2, i) && call_ensures(parse, (s,), values@[i]);
            assert(chunk(buf@, 2, i)[0] == buf@[2 * i]);
            assert(chunk(buf@, 2, i)[1] == buf@[2 * i + 1]);
        }
        assert(values@ =~= spec_decode_u16s(buf@));
    }
    values
}

/// Pairs the points in `raw_points` (four bytes each: `x` then `y`, little-endian) with the
/// `extra` values, which must be as many as the points.
pub fn decode_points<T: Copy>(raw_points: &[u8], extra: Vec<T>) -> (points: Result<
    Vec<Point<T>>,
    DigitalTouchError,
>)
    requires
        raw_points@.len() % 4 == 0,
    ensures
        match points {
            Ok(v) => raw_points@.len() / 4 == extra@.len() && v@ == spec_points(raw_points@, extra@),
            Err(e) => raw_points@.len() / 4 != extra@.len() && e@ == DigitalTouchErrorView::ArraysDoNotMatch(
                "points"@,
                (raw_points@.len() / 4) as usize,
                "extra"@,
                extra@.len() as usize,
            ),
        },
{
    let total = raw_points.len();
    let n = total / 4;
    if n != extra.len() {
        return Err(
            DigitalTouchError::ArraysDoNotMatch(
                "points".to_owned(),
                n,
                "extra".to_owned(),
                extra.len(),
            ),
        );
    }
    let mut out: Vec<Point<T>> = Vec::new();
    let mut i: usize = 0;
    while i < n
        invariant
            total == raw_points@.len(),
            n == raw_points@.len() / 4,
            n == extra@.len(),
            i <= n,
            out@ == spec_points(raw_points@, extra@).take(i as int),
        decreases n - i,
    {
        assert(4 * i + 4 <= raw_points@.len()) by (nonlinear_arith)
            requires
                i < n,
                n == raw_points@.len() / 4,
        ;

        let x = read_le_u16(raw_points, 4 * i);
        let y = read_le_u16(raw_points, 4 * i + 2);
        out.push(Point { x, y, extra: extra[i] });
        proof {
            assert(out@ =~= spec_points(raw_points@, extra@).take(i + 1));
        }
        i += 1;
    }
    assert(out@ =~= spec_points(raw_points@, extra@));
    Ok(out)
}

} // verus!

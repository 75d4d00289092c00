//! The ways the exporter can handle attachment data.

use vstd::prelude::*;

use crate::message_types::digital_touch::fireball::{fireball_end, total_delay};
use crate::message_types::digital_touch::heartbeat::{heart_elem, heartbeat_drawable};
use crate::message_types::digital_touch::models::DigitalTouchMessage;
use crate::message_types::digital_touch::render::{
    appear_at, kiss_delays, kisses_text, last_appearance, tap_delays, taps_text, SVGTapRender,
    TapPlacement,
};
use crate::message_types::digital_touch::fireball::{fireball_animations, gradient_stops};
use crate::message_types::digital_touch::sketch::{places_view, strokes_text, strokes_view};
use crate::util::platform::{all_ascii, ascii_lowercase, lowercase, to_lowercase};
use crate::util::svg_canvas::{
    document_text, elem_text, set_def, with_id, SVGCanvas, SVGCanvasView,
};
use crate::util::text::str_eq;

verus! {

/// Represents different ways the app can interact with attachment data
#[derive(Debug, PartialEq, Eq, Clone, Copy)]
pub enum AttachmentManager {
    /// Do not copy attachments
    Disabled,
    /// Copy and convert attachments to more compatible formats
    Compatible,
    /// Copy attachments without converting; preserves quality but may not display correctly in all browsers
    Efficient,
}

/// The way of handling attachments that a lowercase name stands for.
pub open spec fn manager_named(name: Seq<char>) -> Option<AttachmentManager> {
    if name == "compatible"@ {
        Some(AttachmentManager::Compatible)
    } else if name == "efficient"@ {
        Some(AttachmentManager::Efficient)
    } else if name == "disabled"@ {
        Some(AttachmentManager::Disabled)
    } else {
        None
    }
}

impl AttachmentManager {
    /// Create an instance of the enum given user input
    ///
    /// The match ignores case: the input is lowercased first.
    pub fn from_cli(copy_state: &str) -> (manager: Option<Self>)
        ensures
            manager == manager_named(lowercase(copy_state@)),
            all_ascii(copy_state@) ==> manager == manager_named(ascii_lowercase(copy_state@)),
    {
        let lower = to_lowercase(copy_state);
        let name = lower.as_str();
        if str_eq(name, "compatible") {
            Some(Self::Compatible)
        } else if str_eq(name, "efficient") {
            Some(Self::Efficient)
        } else if str_eq(name, "disabled") {
            Some(Self::Disabled)
        } else {
            None
        }
    }

    /// Whether attachments are written out at all
    pub fn copies(&self) -> (copies: bool)
        ensures
            copies == (*self != AttachmentManager::Disabled),
    {
        match self {
            AttachmentManager::Disabled => false,
            _ => true,
        }
    }

    /// The name under which the choice is displayed
    pub fn to_string(&self) -> (name: String)
        ensures
            name@ == match self {
                AttachmentManager::Disabled => "disabled"@,
                AttachmentManager::Compatible => "compatible"@,
                AttachmentManager::Efficient => "efficient"@,
            },
    {
        match self {
            AttachmentManager::Disabled => "disabled".to_owned(),
            AttachmentManager::Compatible => "compatible".to_owned(),
            AttachmentManager::Efficient => "efficient".to_owned(),
        }
    }
}

impl Default for AttachmentManager {
    /// Attachments are not copied unless asked for
    fn default() -> (manager: Self)
        ensures
            manager == AttachmentManager::Disabled,
    {
        Self::Disabled
    }
}

/// The size of the square canvas that Digital Touch messages are drawn on
pub const DIGITAL_TOUCH_CANVAS_SIZE: usize = 250;

/// Where the marks of a Digital Touch message go on the canvas, fitted to it: a place for
/// each tap or kiss, for each point of each stroke, the center of the canvas for a heart,
/// and the start and the places of the moves of a fireball (`y` from the top).
#[derive(Debug, PartialEq, Eq)]
pub enum DigitalTouchPlacement {
    Taps(Vec<TapPlacement>),
    Strokes(Vec<Vec<(usize, usize)>>),
    Heart { center_x: usize, center_y: usize },
    Fireball { start: (usize, usize), moves: Vec<(usize, usize)> },
}

/// Whether a placement fits a message: it is of the message's kind, places each of its
/// marks, and the message can be drawn with it.
pub open spec fn placement_fits(dt: DigitalTouchMessage, placement: DigitalTouchPlacement) -> bool {
    match (dt, placement) {
        (DigitalTouchMessage::Tap(t), DigitalTouchPlacement::Taps(p)) => p@.len() == t.taps@.len()
            && last_appearance(tap_delays(t.taps@)) <= usize::MAX,
        (DigitalTouchMessage::Kiss(k), DigitalTouchPlacement::Taps(p)) => p@.len() == k.kisses@.len()
            && last_appearance(kiss_delays(k.kisses@)) <= usize::MAX,
        (DigitalTouchMessage::Sketch(s), DigitalTouchPlacement::Strokes(p)) => p@.len()
            == s.strokes@.len() && forall|k: int|
            0 <= k < s.strokes@.len() ==> (#[trigger] s.strokes@[k])@.len() > 0,
        (
            DigitalTouchMessage::Heartbeat(h),
            DigitalTouchPlacement::Heart { center_x, center_y },
        ) => center_x >= 50 && center_y >= 45 && heartbeat_drawable(h@),
        (DigitalTouchMessage::Fireball(f), DigitalTouchPlacement::Fireball { start, moves }) => {
            &&& moves@.len() == f.points@.len()
            &&& start.1 <= DIGITAL_TOUCH_CANVAS_SIZE
            &&& forall|k: int|
                0 <= k < moves@.len() ==> (#[trigger] moves@[k]).1 <= DIGITAL_TOUCH_CANVAS_SIZE
            &&& (f.duration as i64) as int - total_delay(f.points@, f.points@.len() as int)
                >= i64::MIN
            &&& fireball_end(f@) <= usize::MAX
        },
        _ => false,
    }
}

/// The identifier of a Digital Touch message.
pub open spec fn touch_id(dt: DigitalTouchMessage) -> Seq<char> {
    match dt {
        DigitalTouchMessage::Tap(t) => t.id@,
        DigitalTouchMessage::Sketch(s) => s.id@,
        DigitalTouchMessage::Kiss(k) => k.id@,
        DigitalTouchMessage::Heartbeat(h) => h.id@,
        DigitalTouchMessage::Fireball(f) => f.id@,
    }
}

/// The canvas that a Digital Touch message is drawn on: a square titled with its
/// identifier, holding its marks at their places.
pub open spec fn touch_canvas(dt: DigitalTouchMessage, placement: DigitalTouchPlacement) -> SVGCanvasView {
    let size = DIGITAL_TOUCH_CANVAS_SIZE;
    let blank = SVGCanvasView {
        width: size,
        height: size,
        title: touch_id(dt),
        canvas: seq![],
        defs: seq![],
    };
    match (dt, placement) {
        (DigitalTouchMessage::Tap(t), DigitalTouchPlacement::Taps(p)) => SVGCanvasView {
            canvas: taps_text(t.taps@, p@, t.taps@.len() as int),
            ..blank
        },
        (DigitalTouchMessage::Kiss(k), DigitalTouchPlacement::Taps(p)) => SVGCanvasView {
            canvas: kisses_text(k.kisses@, p@, k.kisses@.len() as int),
            ..blank
        },
        (DigitalTouchMessage::Sketch(s), DigitalTouchPlacement::Strokes(p)) => SVGCanvasView {
            canvas: strokes_text(strokes_view(s.strokes@), places_view(p@), s.strokes@.len() as int),
            ..blank
        },
        (
            DigitalTouchMessage::Heartbeat(h),
            DigitalTouchPlacement::Heart { center_x, center_y },
        ) => SVGCanvasView {
            canvas: heart_elem(h@, (center_x - 50) as nat, (center_y - 45) as nat),
            ..blank
        },
        (DigitalTouchMessage::Fireball(f), DigitalTouchPlacement::Fireball { start, moves }) => SVGCanvasView {
            canvas: elem_text(
                "circle"@,
                seq![
                    ("cx"@, "0"@),
                    ("cy"@, "0"@),
                    ("r"@, "50"@),
                    ("fill"@, "url('#fireball-gradient')"@),
                ],
                Some(fireball_animations(f@, size, start, moves@)),
            ),
            defs: set_def(
                seq![],
                "fireball-gradient"@,
                elem_text(
                    "radialGradient"@,
                    with_id(seq![], "fireball-gradient"@),
                    Some(gradient_stops()),
                ),
            ),
            ..blank
        },
        _ => blank,
    }
}

/// Whether the times at which marks appear, one millisecond plus the delays so far, stay
/// within `usize`
fn appearances_fit(delays: &Vec<u16>) -> (fit: bool)
    ensures
        fit == (last_appearance(delays@) <= usize::MAX),
{
    if delays.len() == 0 {
        return true;
    }
    let mut total: usize = 1;
    let mut i: usize = 0;
    while i < delays.len()
        invariant
            0 < delays@.len(),
            i <= delays@.len(),
            total == if i == 0 {
                1
            } else {
                appear_at(delays@, i - 1)
            },
        decreases delays@.len() - i,
    {
        match total.checked_add(delays[i] as usize) {
            Some(t) => total = t,
            None => {
                proof {
                    crate::message_types::digital_touch::render::lemma_appear_at_grows(
                        delays@,
                        i as int,
                        delays@.len() - 1,
                    );
                }
                return false;
            },
        }
        i += 1;
    }
    true
}

impl AttachmentManager {
    /// Whether a placement fits a message, so that the message can be drawn with it
    #[verifier::loop_isolation(false)]
    pub fn placement_fits(dt: &DigitalTouchMessage, placement: &DigitalTouchPlacement) -> (fits: bool)
        ensures
            fits == placement_fits(*dt, *placement),
    {
        match (dt, placement) {
            (DigitalTouchMessage::Tap(t), DigitalTouchPlacement::Taps(p)) => {
                let mut delays: Vec<u16> = Vec::new();
                let mut i: usize = 0;
                while i < t.taps.len()
                    invariant
                        i <= t.taps@.len(),
                        delays@ == tap_delays(t.taps@).take(i as int),
                    decreases t.taps@.len() - i,
                {
                    delays.push(t.taps[i].extra.ms_delay);
                    proof {
                        assert(delays@ =~= tap_delays(t.taps@).take(i + 1));
                    }
                    i += 1;
                }
                assert(delays@ =~= tap_delays(t.taps@));
                p.len() == t.taps.len() && appearances_fit(&delays)
            },
            (DigitalTouchMessage::Kiss(k), DigitalTouchPlacement::Taps(p)) => {
                let mut delays: Vec<u16> = Vec::new();
                let mut i: usize = 0;
                while i < k.kisses.len()
                    invariant
                        i <= k.kisses@.len(),
                        delays@ == kiss_delays(k.kisses@).take(i as int),
                    decreases k.kisses@.len() - i,
                {
                    delays.push(k.kisses[i].extra.ms_delay);
                    proof {
                        assert(delays@ =~= kiss_delays(k.kisses@).take(i + 1));
                    }
                    i += 1;
                }
                assert(delays@ =~= kiss_delays(k.kisses@));
                p.len() == k.kisses.len() && appearances_fit(&delays)
            },
            (DigitalTouchMessage::Sketch(s), DigitalTouchPlacement::Strokes(p)) => {
                if p.len() != s.strokes.len() {
                    return false;
                }
                let mut i: usize = 0;
                while i < s.strokes.len()
                    invariant
                        i <= s.strokes@.len(),
                        forall|k: int| 0 <= k < i ==> (#[trigger] s.strokes@[k])@.len() > 0,
                    decreases s.strokes@.len() - i,
                {
                    if s.strokes[i].len() == 0 {
                        return false;
                    }
                    i += 1;
                }
                true
            },
            (
                DigitalTouchMessage::Heartbeat(h),
                DigitalTouchPlacement::Heart { center_x, center_y },
            ) => {
                if *center_x < 50 || *center_y < 45 || h.heart_broken_at_ms == usize::MAX {
                    return false;
                }
                let bpm_ms = match h.bpm.checked_mul(1000) {
                    Some(v) => v,
                    None => return false,
                };
                let duration_ms = match h.duration.checked_mul(1000) {
                    Some(v) => v,
                    None => return false,
                };
                if bpm_ms.checked_mul(duration_ms).is_none() {
                    return false;
                }
                h.beats_in_interval() > 0
            },
            (DigitalTouchMessage::Fireball(f), DigitalTouchPlacement::Fireball { start, moves }) => {
                if moves.len() != f.points.len() || start.1 > DIGITAL_TOUCH_CANVAS_SIZE {
                    return false;
                }
                let mut i: usize = 0;
                while i < moves.len()
                    invariant
                        i <= moves@.len(),
                        forall|k: int| 0 <= k < i ==> (#[trigger] moves@[k]).1 <= DIGITAL_TOUCH_CANVAS_SIZE,
                    decreases moves@.len() - i,
                {
                    if moves[i].1 > DIGITAL_TOUCH_CANVAS_SIZE {
                        return false;
                    }
                    i += 1;
                }
                // The total of the moves is at most the number of points times 65535, and
                // is counted in an i128
                let mut total: i128 = 0;
                let mut k: usize = 0;
                while k < f.points.len()
                    invariant
                        k <= f.points@.len(),
                        total == total_delay(f.points@, k as int),
                        0 <= total <= k * 65535,
                        f.points@.len() <= usize::MAX,
                    decreases f.points@.len() - k,
                {
                    total = total + f.points[k].extra as i128;
                    k += 1;
                }
                assert(total <= 0x1_0000_0000_0000_0000_0000) by (nonlinear_arith)
                    requires
                        total <= k * 65535,
                        k <= 0xffff_ffff_ffff_ffff,
                ;
                let left: i128 = (f.duration as i64) as i128 - total;
                if left < i64::MIN as i128 {
                    return false;
                }
                let initial: usize = if left < 0 {
                    0
                } else {
                    left as usize
                };
                proof {
                    assert(initial == crate::message_types::digital_touch::fireball::spec_initial_delay(f@));
                }
                initial as i128 + total <= usize::MAX as i128
            },
            _ => false,
        }
    }

    /// Draws a Digital Touch message as an SVG document on a square canvas titled with its
    /// identifier. Returns the name of the file to write (the identifier) and the document,
    /// or nothing when attachments are not copied.
    pub fn handle_digital_touch(&self, dt: &DigitalTouchMessage, placement: &DigitalTouchPlacement) -> (file: Option<
        (String, String),
    >)
        requires
            placement_fits(*dt, *placement),
        ensures
            match file {
                Some((name, svg)) => *self != AttachmentManager::Disabled && name@ == touch_id(*dt)
                    && svg@ == document_text(touch_canvas(*dt, *placement)),
                None => *self == AttachmentManager::Disabled,
            },
    {
        if !self.copies() {
            return None;
        }
        let mut canvas = SVGCanvas::square(DIGITAL_TOUCH_CANVAS_SIZE);
        let filename = match (dt, placement) {
            (DigitalTouchMessage::Tap(taps), DigitalTouchPlacement::Taps(p)) => {
                canvas.set_title(taps.id.clone());
                taps.render_svg(&mut canvas, p.as_slice());
                taps.id.clone()
            },
            (DigitalTouchMessage::Sketch(strokes), DigitalTouchPlacement::Strokes(p)) => {
                canvas.set_title(strokes.id.clone());
                strokes.render_svg(&mut canvas, p.as_slice());
                strokes.id.clone()
            },
            (DigitalTouchMessage::Kiss(kisses), DigitalTouchPlacement::Taps(p)) => {
                canvas.set_title(kisses.id.clone());
                kisses.render_svg(&mut canvas, p.as_slice());
                kisses.id.clone()
            },
            (
                DigitalTouchMessage::Heartbeat(beats),
                DigitalTouchPlacement::Heart { center_x, center_y },
            ) => {
                canvas.set_title(beats.id.clone());
                beats.render_svg(&mut canvas, *center_x, *center_y);
                beats.id.clone()
            },
            (DigitalTouchMessage::Fireball(fire), DigitalTouchPlacement::Fireball { start, moves }) => {
                canvas.set_title(fire.id.clone());
                fire.render_svg(&mut canvas, *start, moves.as_slice());
                fire.id.clone()
            },
            _ => {
                return None;
            },
        };
        proof {
            assert(canvas@ == touch_canvas(*dt, *placement));
        }
        Some((filename, canvas.render()))
    }
}

/// The image format a copied file is converted to.
#[derive(Debug, Clone, Copy, PartialEq, Eq, Structural)]
pub enum ImageType {
    Png,
    Gif,
    Jpeg,
}

/// Whether an image subtype is `HEIC`, in either case.
pub open spec fn is_heic(subtype: Seq<char>) -> bool {
    subtype == "heic"@ || subtype == "HEIC"@
}

/// Whether an image subtype is `HEICS`, in either case.
pub open spec fn is_heics(subtype: Seq<char>) -> bool {
    subtype == "heics"@ || subtype == "HEICS"@
}

/// The format a copied attachment is converted to: a `HEIC` sticker becomes a PNG, a `HEICS`
/// sticker a GIF, a `HEIC` attachment that is not a sticker a JPEG; any other file is copied
/// as it is (`None`). `subtype` is the image subtype of the file's media type, `None` for a
/// file that is not an image.
pub open spec fn spec_convert_target(is_sticker: bool, subtype: Option<Seq<char>>) -> Option<ImageType> {
    match subtype {
        Some(s) => if is_sticker {
            if is_heic(s) {
                Some(ImageType::Png)
            } else if is_heics(s) {
                Some(ImageType::Gif)
            } else {
                None
            }
        } else if is_heic(s) {
            Some(ImageType::Jpeg)
        } else {
            None
        },
        None => None,
    }
}

impl AttachmentManager {
    /// The format a copied attachment is converted to, if any
    pub fn convert_target(is_sticker: bool, image_subtype: Option<&str>) -> (target: Option<ImageType>)
        ensures
            target == spec_convert_target(
                is_sticker,
                match image_subtype {
                    Some(s) => Some(s@),
                    None => None,
                },
            ),
    {
        match image_subtype {
            None => None,
            Some(s) => {
                let heic = str_eq(s, "heic") || str_eq(s, "HEIC");
                if is_sticker {
                    if heic {
                        Some(ImageType::Png)
                    } else if str_eq(s, "heics") || str_eq(s, "HEICS") {
                        Some(ImageType::Gif)
                    } else {
                        None
                    }
                } else if heic {
                    Some(ImageType::Jpeg)
                } else {
                    None
                }
            },
        }
    }
}

} // verus!

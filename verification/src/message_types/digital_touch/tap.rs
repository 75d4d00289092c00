//! Taps: circles that appear where the screen was tapped.

use vstd::prelude::*;

use crate::error::digital_touch::{DigitalTouchError, DigitalTouchErrorView};
use crate::message_types::digital_touch::models::{
    decode_points, spec_decode_colors, spec_decode_u16s, spec_points, Color, Point,
};

verus! {

/// A Digital Touch tap message: the points that were tapped
#[derive(Debug, Clone, PartialEq, Eq)]
pub struct DigitalTouchTap {
    pub id: String,
    pub taps: Vec<Point<TapData>>,
}

/// The color and delay of a tap
#[derive(Debug, Clone, Copy, PartialEq, Eq)]
pub struct TapData {
    pub color: Color,
    pub ms_delay: u16,
}

/// The value of a [`DigitalTouchTap`].
pub struct DigitalTouchTapView {
    pub id: Seq<char>,
    pub taps: Seq<Point<TapData>>,
}

impl View for DigitalTouchTap {
    type V = DigitalTouchTapView;

    open spec fn view(&self) -> DigitalTouchTapView {
        DigitalTouchTapView { id: self.id@, taps: self.taps@ }
    }
}

/// The tap data made of colors and delays, paired in order.
pub open spec fn spec_tap_data(colors: Seq<Color>, delays: Seq<u16>) -> Seq<TapData> {
    Seq::new(
        if colors.len() < delays.len() {
            colors.len()
        } else {
            delays.len()
        },
        |i: int| TapData { color: colors[i], ms_delay: delays[i] },
    )
}

/// The taps of a tap message with the given location, delay and color bytes, or the error
/// that decoding them gives.
pub open spec fn spec_tap_from(
    id: Seq<char>,
    location: Seq<u8>,
    delays: Seq<u8>,
    colors: Seq<u8>,
) -> Result<DigitalTouchTapView, DigitalTouchErrorView> {
    let c = spec_decode_colors(colors);
    let d = spec_decode_u16s(delays);
    if c.len() != d.len() {
        Err(
            DigitalTouchErrorView::ArraysDoNotMatch(
                "delays"@,
                d.len() as usize,
                "colors"@,
                c.len() as usize,
            ),
        )
    } else if location.len() / 4 != c.len() {
        Err(
            DigitalTouchErrorView::ArraysDoNotMatch(
                "points"@,
                (location.len() / 4) as usize,
                "extra"@,
                c.len() as usize,
            ),
        )
    } else {
        Ok(DigitalTouchTapView { id, taps: spec_points(location, spec_tap_data(c, d)) })
    }
}

impl DigitalTouchTap {
    /// Builds a tap message from the decoded fields of its payload: tap locations (four bytes
    /// each), delays (two bytes each) and colors (four bytes each).
    pub fn from_payload(id: &str, location: &[u8], delays: &[u8], colors: &[u8]) -> (tap: Result<
        DigitalTouchTap,
        DigitalTouchError,
    >)
        requires
            location@.len() % 4 == 0,
            delays@.len() % 2 == 0,
            colors@.len() % 4 == 0,
        ensures
            match (tap, spec_tap_from(id@, location@, delays@, colors@)) {
                (Ok(t), Ok(v)) => t@ == v,
                (Err(e), Err(v)) => e@ == v,
                _ => false,
            },
    {
        let colors = Color::decode_all(colors);
        let delays = crate::message_types::digital_touch::models::decode_u16s(delays);

        if colors.len() != delays.len() {
            return Err(
                DigitalTouchError::ArraysDoNotMatch(
                    "delays".to_owned(),
                    delays.len(),
                    "colors".to_owned(),
                    colors.len(),
                ),
            );
        }
        let taps = merge_tap_data(location, &delays, &colors)?;
        Ok(DigitalTouchTap { id: id.to_owned(), taps })
    }
}

/// Pairs tap locations with colors and delays
fn merge_tap_data(points: &[u8], delays: &Vec<u16>, colors: &Vec<Color>) -> (taps: Result<
    Vec<Point<TapData>>,
    DigitalTouchError,
>)
    requires
        points@.len() % 4 == 0,
    ensures
        match taps {
            Ok(v) => points@.len() / 4 == spec_tap_data(colors@, delays@).len() && v@ == spec_points(
                points@,
                spec_tap_data(colors@, delays@),
            ),
            Err(e) => points@.len() / 4 != spec_tap_data(colors@, delays@).len() && e@
                == DigitalTouchErrorView::ArraysDoNotMatch(
                "points"@,
                (points@.len() / 4) as usize,
                "extra"@,
                spec_tap_data(colors@, delays@).len() as usize,
            ),
        },
{
    let n = if colors.len() < delays.len() {
        colors.len()
    } else {
        delays.len()
    };
    let mut data: Vec<TapData> = Vec::new();
    let mut i: usize = 0;
    while i < n
        invariant
            n <= colors@.len(),
            n <= delays@.len(),
            n == spec_tap_data(colors@, delays@).len(),
            i <= n,
            data@ == spec_tap_data(colors@, delays@).take(i as int),
        decreases n - i,
    {
        data.push(TapData { color: colors[i], ms_delay: delays[i] });
        proof {
            assert(data@ =~= spec_tap_data(colors@, delays@).take(i + 1));
        }
        i += 1;
    }
    assert(data@ =~= spec_tap_data(colors@, delays@));
    decode_points(points, data)
}

} // verus!

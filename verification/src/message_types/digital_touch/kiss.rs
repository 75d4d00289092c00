//! Kisses: lips placed and turned where the screen was kissed.

use vstd::prelude::*;

use crate::error::digital_touch::{DigitalTouchError, DigitalTouchErrorView};
use crate::message_types::digital_touch::models::{
    decode_points, decode_u16s, spec_decode_u16s, spec_points, Point,
};

verus! {

/// A Digital Touch kiss message: the places that were kissed
#[derive(Debug, Clone, PartialEq, Eq)]
pub struct DigitalTouchKiss {
    pub id: String,
    pub kisses: Vec<Point<KissData>>,
}

/// The delay and rotation of a kiss; the rotation is in thousandths of a radian
#[derive(Debug, Clone, Copy, PartialEq, Eq)]
pub struct KissData {
    pub ms_delay: u16,
    pub rads: u16,
}

/// The value of a [`DigitalTouchKiss`].
pub struct DigitalTouchKissView {
    pub id: Seq<char>,
    pub kisses: Seq<Point<KissData>>,
}

impl View for DigitalTouchKiss {
    type V = DigitalTouchKissView;

    open spec fn view(&self) -> DigitalTouchKissView {
        DigitalTouchKissView { id: self.id@, kisses: self.kisses@ }
    }
}

/// The kiss data made of rotations and delays, paired in order.
pub open spec fn spec_kiss_data(rotations: Seq<u16>, delays: Seq<u16>) -> Seq<KissData> {
    Seq::new(
        if rotations.len() < delays.len() {
            rotations.len()
        } else {
            delays.len()
        },
        |i: int| KissData { rads: rotations[i], ms_delay: delays[i] },
    )
}

/// The kisses of a kiss message with the given point, delay and rotation bytes, or the
/// error that decoding them gives.
pub open spec fn spec_kiss_from(
    id: Seq<char>,
    points: Seq<u8>,
    delays: Seq<u8>,
    rotations: Seq<u8>,
) -> Result<DigitalTouchKissView, DigitalTouchErrorView> {
    let d = spec_decode_u16s(delays);
    let r = spec_decode_u16s(rotations);
    if d.len() != r.len() {
        Err(
            DigitalTouchErrorView::ArraysDoNotMatch(
                "delays"@,
                d.len() as usize,
                "rotations"@,
                r.len() as usize,
            ),
        )
    } else if points.len() / 4 != d.len() {
        Err(
            DigitalTouchErrorView::ArraysDoNotMatch(
                "points"@,
                (points.len() / 4) as usize,
                "extra"@,
                d.len() as usize,
            ),
        )
    } else {
        Ok(DigitalTouchKissView { id, kisses: spec_points(points, spec_kiss_data(r, d)) })
    }
}

impl DigitalTouchKiss {
    /// Builds a kiss message from the decoded fields of its payload: points (four bytes
    /// each), delays and rotations (two bytes each).
    pub fn from_payload(id: &str, points: &[u8], delays: &[u8], rotations: &[u8]) -> (kiss: Result<
        DigitalTouchKiss,
        DigitalTouchError,
    >)
        requires
            points@.len() % 4 == 0,
            delays@.len() % 2 == 0,
            rotations@.len() % 2 == 0,
        ensures
            match (kiss, spec_kiss_from(id@, points@, delays@, rotations@)) {
                (Ok(k), Ok(v)) => k@ == v,
                (Err(e), Err(v)) => e@ == v,
                _ => false,
            },
    {
        let delays = decode_u16s(delays);
        let rotations = decode_u16s(rotations);

        if delays.len() != rotations.len() {
            return Err(
                DigitalTouchError::ArraysDoNotMatch(
                    "delays".to_owned(),
                    delays.len(),
                    "rotations".to_owned(),
                    rotations.len(),
                ),
            );
        }
        let kisses = merge_kiss_data(points, &delays, &rotations)?;
        Ok(DigitalTouchKiss { id: id.to_owned(), kisses })
    }
}

/// Pairs kiss points with rotations and delays
fn merge_kiss_data(points: &[u8], delays: &Vec<u16>, rotations: &Vec<u16>) -> (kisses: Result<
    Vec<Point<KissData>>,
    DigitalTouchError,
>)
    requires
        points@.len() % 4 == 0,
    ensures
        match kisses {
            Ok(v) => points@.len() / 4 == spec_kiss_data(rotations@, delays@).len() && v@
                == spec_points(points@, spec_kiss_data(rotations@, delays@)),
            Err(e) => points@.len() / 4 != spec_kiss_data(rotations@, delays@).len() && e@
                == DigitalTouchErrorView::ArraysDoNotMatch(
                "points"@,
                (points@.len() / 4) as usize,
                "extra"@,
                spec_kiss_data(rotations@, delays@).len() as usize,
            ),
        },
{
    let n = if rotations.len() < delays.len() {
        rotations.len()
    } else {
        delays.len()
    };
    let mut data: Vec<KissData> = Vec::new();
    let mut i: usize = 0;
    while i < n
        invariant
            n <= rotations@.len(),
            n <= delays@.len(),
            n == spec_kiss_data(rotations@, delays@).len(),
            i <= n,
            data@ == spec_kiss_data(rotations@, delays@).take(i as int),
        decreases n - i,
    {
        data.push(KissData { rads: rotations[i], ms_delay: delays[i] });
        proof {
            assert(data@ =~= spec_kiss_data(rotations@, delays@).take(i + 1));
        }
        i += 1;
    }
    assert(data@ =~= spec_kiss_data(rotations@, delays@));
    decode_points(points, data)
}

} // verus!

use imessage_database::error::digital_touch::DigitalTouchError;
use imessage_database::message_types::digital_touch::fireball::DigitalTouchFireball;
use imessage_database::message_types::digital_touch::heartbeat::{DigitalTouchHeartbeat, HeartSide};
use imessage_database::message_types::digital_touch::kiss::{DigitalTouchKiss, KissData};
use imessage_database::message_types::digital_touch::models::{
    decode_bytes, decode_points, decode_u16s, Color, DigitalTouchMessage, Point, TouchPayload,
};
use imessage_database::message_types::digital_touch::sketch::DigitalTouchSketch;
use imessage_database::message_types::digital_touch::tap::{DigitalTouchTap, TapData};

#[test]
fn color_from_bytes_and_tuple() {
    let c = Color::from_bytes(&[1, 2, 3, 4, 5]);
    assert_eq!(c, Color::new(1, 2, 3, 4));
    assert_eq!(c.tuple(), (1, 2, 3, 4));
}

#[test]
fn color_decode_all() {
    let colors = Color::decode_all(&[1, 2, 3, 4, 255, 0, 128, 64]);
    assert_eq!(colors, vec![Color::new(1, 2, 3, 4), Color::new(255, 0, 128, 64)]);
    assert!(Color::decode_all(&[]).is_empty());
}

#[test]
fn decode_u16s_little_endian() {
    assert_eq!(decode_u16s(&[1, 0, 0, 1, 255, 255]), vec![1, 256, 65535]);
}

#[test]
fn decode_bytes_applies_to_each_chunk() {
    let sums = decode_bytes(&[1, 2, 3, 4, 5, 6], 3, |b: &[u8]| b.iter().map(|x| *x as u32).sum::<u32>());
    assert_eq!(sums, vec![6, 15]);
}

#[test]
fn decode_points_pairs_with_extra() {
    let points = decode_points(&[1, 0, 2, 0, 0, 1, 0, 2], vec![7u16, 8u16]).unwrap();
    assert_eq!(
        points,
        vec![
            Point { x: 1, y: 2, extra: 7 },
            Point { x: 256, y: 512, extra: 8 },
        ]
    );
}

#[test]
fn decode_points_rejects_mismatched_lengths() {
    let err = decode_points(&[1, 0, 2, 0], vec![7u16, 8u16]).unwrap_err();
    assert!(matches!(
        &err,
        DigitalTouchError::ArraysDoNotMatch(a, 1, b, 2) if a == "points" && b == "extra"
    ));
    assert_eq!(err.message(), "length of arrays do not match: points(1) != extra(2)");
}

#[test]
fn tap_from_payload() {
    let tap = DigitalTouchTap::from_payload("tap-id", &[10, 0, 20, 0], &[5, 0], &[1, 2, 3, 4]).unwrap();
    assert_eq!(tap.id, "tap-id");
    assert_eq!(
        tap.taps,
        vec![Point {
            x: 10,
            y: 20,
            extra: TapData {
                color: Color::new(1, 2, 3, 4),
                ms_delay: 5
            }
        }]
    );
}

#[test]
fn tap_from_payload_rejects_colors_without_delays() {
    let err = DigitalTouchTap::from_payload("tap-id", &[], &[5, 0], &[1, 2, 3, 4, 5, 6, 7, 8]).unwrap_err();
    assert_eq!(err.message(), "length of arrays do not match: delays(1) != colors(2)");
}

#[test]
fn kiss_from_payload() {
    let kiss = DigitalTouchKiss::from_payload("k", &[1, 0, 2, 0], &[3, 0], &[232, 3]).unwrap();
    assert_eq!(
        kiss.kisses,
        vec![Point {
            x: 1,
            y: 2,
            extra: KissData {
                ms_delay: 3,
                rads: 1000
            }
        }]
    );
    let err = DigitalTouchKiss::from_payload("k", &[1, 0, 2, 0], &[3, 0, 4, 0], &[232, 3]).unwrap_err();
    assert_eq!(err.message(), "length of arrays do not match: delays(2) != rotations(1)");
}

#[test]
fn sketch_from_payload() {
    // one stroke: two bytes, a point count of two, then two points
    let strokes = [9, 9, 2, 0, 1, 0, 2, 0, 3, 0, 4, 0];
    let sketch = DigitalTouchSketch::from_payload("s", 1, &strokes, &[10, 20, 30, 40]).unwrap();
    let color = Color::new(10, 20, 30, 40);
    assert_eq!(
        sketch.strokes,
        vec![vec![
            Point { x: 1, y: 2, extra: color },
            Point { x: 3, y: 4, extra: color },
        ]]
    );
}

#[test]
fn heartbeat_beats() {
    let h = DigitalTouchHeartbeat::from_payload("h", 60, 10, 0);
    assert_eq!(h.beats_in_interval(), 10);
    assert_eq!(h.time_per_beat(), 1000);
    let h = DigitalTouchHeartbeat::from_payload("h", 70, 3, 0);
    assert_eq!(h.beats_in_interval(), 4);
    assert_eq!(h.time_per_beat(), 750);
}

#[test]
fn heart_sides() {
    assert_eq!(HeartSide::Left().rotate_deg(), -15);
    assert_eq!(HeartSide::Right().rotate_deg(), 15);
    assert_eq!(HeartSide::Left().drop_amount(), 5);
    assert_eq!(HeartSide::Right().drop_amount(), 10);
    assert!(HeartSide::Right().d().contains("A 25,30 0 0,1 100,30"));
}

#[test]
fn fireball_from_payload_and_delay() {
    let f = DigitalTouchFireball::from_payload("f", 5, 6, 100, &[1, 0, 9, 0, 2, 0, 3, 0], &[30, 0, 50, 0]).unwrap();
    assert_eq!(f.points, vec![Point { x: 1, y: 9, extra: 30 }, Point { x: 2, y: 3, extra: 50 }]);
    assert_eq!(f.get_initial_delay(), 20);
    assert_eq!(f.y_range(), (3, 6));
    let late = DigitalTouchFireball::from_payload("f", 5, 6, 10, &[1, 0, 9, 0], &[30, 0]).unwrap();
    assert_eq!(late.get_initial_delay(), 0);
}

#[test]
fn message_from_payload_by_kind() {
    let err = DigitalTouchMessage::from_payload("x", &TouchPayload::Unknown(7)).unwrap_err();
    assert_eq!(err.message(), "unknown digital touch kind: 7");
    let err = DigitalTouchMessage::from_payload("x", &TouchPayload::Unknown(-3)).unwrap_err();
    assert_eq!(err.message(), "unknown digital touch kind: -3");
    let msg = DigitalTouchMessage::from_payload(
        "hb",
        &TouchPayload::Heartbeat {
            bpm: 60,
            duration: 2,
            heart_broken_at_ms: 1500,
        },
    )
    .unwrap();
    assert_eq!(
        msg,
        DigitalTouchMessage::Heartbeat(DigitalTouchHeartbeat {
            id: "hb".to_string(),
            bpm: 60,
            duration: 2,
            heart_broken_at_ms: 1500
        })
    );
    let msg = DigitalTouchMessage::from_payload(
        "t",
        &TouchPayload::Tap {
            location: vec![1, 0, 1, 0],
            delays: vec![0, 0],
            colors: vec![0, 0, 0, 255],
        },
    )
    .unwrap();
    assert!(matches!(msg, DigitalTouchMessage::Tap(_)));
}

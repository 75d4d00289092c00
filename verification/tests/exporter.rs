use imessage_database::exporter::attachment_manager::{AttachmentManager, ImageType};
use imessage_database::exporter::options::{option_problems, Options, OptionsProblem};
use imessage_database::util::platform::Platform;
use imessage_database::util::text::{decimal_text, join, number_text, signed_text};

#[test]
fn attachment_manager_from_cli_any_case() {
    assert_eq!(AttachmentManager::from_cli("compatible"), Some(AttachmentManager::Compatible));
    assert_eq!(AttachmentManager::from_cli("EFFICIENT"), Some(AttachmentManager::Efficient));
    assert_eq!(AttachmentManager::from_cli("Disabled"), Some(AttachmentManager::Disabled));
    assert_eq!(AttachmentManager::from_cli("copy"), None);
    assert_eq!(AttachmentManager::default(), AttachmentManager::Disabled);
    assert_eq!(AttachmentManager::Efficient.to_string(), "efficient");
    assert!(!AttachmentManager::Disabled.copies());
    assert!(AttachmentManager::Compatible.copies());
}

#[test]
fn options_problems_in_order() {
    assert_eq!(
        option_problems(true, true, false, true),
        vec![
            OptionsProblem::CopyWithoutExportType,
            OptionsProblem::PathWithoutExportType,
            OptionsProblem::DiagnosticWithCopy,
            OptionsProblem::DiagnosticWithPath,
        ]
    );
    assert_eq!(option_problems(false, true, true, false), vec![OptionsProblem::DiagnosticWithExportType]);
    assert!(option_problems(true, false, true, true).is_empty());
    assert_eq!(
        OptionsProblem::CopyWithoutExportType.message(),
        "No export type selected, required by no-copy"
    );
    assert_eq!(
        OptionsProblem::DiagnosticWithExportType.message(),
        "Diagnostics are enabled; export is disallowed"
    );
}

#[test]
fn options_validity() {
    let ok = Options::from_values("db".to_string(), false, false, Some("txt"), Some("out"));
    assert!(ok.valid);
    let bad = Options::from_values("db".to_string(), true, false, None, None);
    assert!(!bad.valid);
    assert_eq!(bad.db_path, "db");
}

#[test]
fn platform_determine() {
    assert_eq!(Platform::determine(true, true, true), Platform::iOS);
    assert_eq!(Platform::determine(false, true, false), Platform::iOSFS);
    assert_eq!(Platform::determine(false, false, true), Platform::macOS);
    assert_eq!(Platform::determine(false, false, false), Platform::macOS);
}

#[test]
fn number_texts() {
    assert_eq!(number_text(255, 16), "ff");
    assert_eq!(number_text(0, 10), "0");
    assert_eq!(decimal_text(1234567890), "1234567890");
    assert_eq!(signed_text(-42), "-42");
    assert_eq!(signed_text(i64::MIN), "-9223372036854775808");
    assert_eq!(join(&["a".to_string(), "b".to_string(), "c".to_string()], ", "), "a, b, c");
    assert_eq!(join(&[], ", "), "");
}

use imessage_database::exporter::attachment_manager::DigitalTouchPlacement;
use imessage_database::message_types::digital_touch::heartbeat::DigitalTouchHeartbeat;
use imessage_database::message_types::digital_touch::models::{Color, DigitalTouchMessage, Point};
use imessage_database::message_types::digital_touch::sketch::DigitalTouchSketch;

#[test]
fn digital_touch_is_drawn_only_when_copying() {
    let dt = DigitalTouchMessage::Heartbeat(DigitalTouchHeartbeat::from_payload("beat", 60, 1, 0));
    let placement = DigitalTouchPlacement::Heart {
        center_x: 125,
        center_y: 125,
    };
    assert!(AttachmentManager::placement_fits(&dt, &placement));
    assert_eq!(AttachmentManager::Disabled.handle_digital_touch(&dt, &placement), None);
    let (name, svg) = AttachmentManager::Compatible
        .handle_digital_touch(&dt, &placement)
        .unwrap();
    assert_eq!(name, "beat");
    assert!(svg.starts_with("<svg viewBox=\"0 0 250 250\""));
    assert!(svg.contains("<title>beat</title>"));
    assert!(svg.contains("<g transform=\"translate(75,80)\">"));
    assert!(svg.ends_with("</svg>"));
}

#[test]
fn digital_touch_placements_must_fit() {
    let dt = DigitalTouchMessage::Heartbeat(DigitalTouchHeartbeat::from_payload("beat", 0, 1, 0));
    let placement = DigitalTouchPlacement::Heart {
        center_x: 125,
        center_y: 125,
    };
    // no beat at all: the time of a beat cannot be computed
    assert!(!AttachmentManager::placement_fits(&dt, &placement));
    let sketch = DigitalTouchMessage::Sketch(DigitalTouchSketch {
        id: "s".to_string(),
        strokes: vec![vec![Point { x: 1, y: 1, extra: Color::new(0, 0, 0, 0) }], vec![]],
    });
    assert!(!AttachmentManager::placement_fits(&sketch, &DigitalTouchPlacement::Strokes(vec![vec![(1, 1)], vec![]])));
    assert!(!AttachmentManager::placement_fits(&sketch, &placement));
}

#[test]
fn attachment_conversion_targets() {
    assert_eq!(AttachmentManager::convert_target(true, Some("heic")), Some(ImageType::Png));
    assert_eq!(AttachmentManager::convert_target(true, Some("HEIC")), Some(ImageType::Png));
    assert_eq!(AttachmentManager::convert_target(true, Some("heics")), Some(ImageType::Gif));
    assert_eq!(AttachmentManager::convert_target(true, Some("HEICS")), Some(ImageType::Gif));
    assert_eq!(AttachmentManager::convert_target(true, Some("png")), None);
    assert_eq!(AttachmentManager::convert_target(false, Some("heic")), Some(ImageType::Jpeg));
    assert_eq!(AttachmentManager::convert_target(false, Some("HEICS")), None);
    assert_eq!(AttachmentManager::convert_target(false, None), None);
    assert_eq!(AttachmentManager::convert_target(true, None), None);
}

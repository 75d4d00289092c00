use imessage_database::exporter::ndjson::{
    format_edited_json, format_text_body_json, EditedJson, TextPieceJson, UNSENT, UNSENT_AFTER,
};
use imessage_database::exporter::txt::{
    add_line, app_error_line, format_edited_part, format_message_text, format_shared_location,
    format_text_bubble, get_time, unsent_by_text, MessageHead, PartText, FITNESS_RECEIVER,
};
use imessage_database::message_types::edited::{EditStatus, EditedEvent, EditedMessage, EditedMessagePart};
use imessage_database::message_types::text_effects::TextEffect;
use imessage_database::tables::messages::models::TextAttributes;

fn head(date: &str, sender: &str) -> MessageHead {
    MessageHead {
        date: date.to_string(),
        sender: sender.to_string(),
        deleted: false,
        subject: None,
        shareplay: false,
        started_sharing_location: false,
        stopped_sharing_location: false,
        expressive: None,
        is_reply: false,
    }
}

fn line(text: &str) -> PartText {
    PartText {
        line: Some(text.to_string()),
        reactions: vec![],
        replies: vec![],
    }
}

fn event(date: i64, text: &str) -> EditedEvent {
    EditedEvent {
        date,
        text: text.to_string(),
        components: None,
        guid: None,
    }
}

#[test]
fn add_line_skips_empty_parts() {
    let mut s = String::new();
    add_line(&mut s, "", "  ");
    assert_eq!(s, "");
    add_line(&mut s, "a", "  ");
    assert_eq!(s, "  a\n");
}

#[test]
fn txt_message_from_me() {
    let text = format_message_text(&head("May 17, 2022  5:29:42 PM", "Me"), &[line("Hello world")], 0);
    assert_eq!(text, "May 17, 2022  5:29:42 PM\nMe\nHello world\n\n");
}

#[test]
fn txt_message_deleted() {
    let mut h = head("May 17, 2022  5:29:42 PM", "Me");
    h.deleted = true;
    let text = format_message_text(&h, &[line("Hello world")], 0);
    assert_eq!(
        text,
        "May 17, 2022  5:29:42 PM\nMe\nThis message was deleted from the conversation!\nHello world\n\n"
    );
}

#[test]
fn txt_message_with_reactions_replies_and_extras() {
    let mut h = head("date", "Sample Contact");
    h.subject = Some("Subject".to_string());
    h.shareplay = true;
    h.started_sharing_location = true;
    h.expressive = Some("Sent with Loud".to_string());
    h.is_reply = true;
    let part = PartText {
        line: Some("Hi".to_string()),
        reactions: vec!["Loved by Me".to_string(), "".to_string()],
        replies: vec!["    reply\n".to_string()],
    };
    let text = format_message_text(&h, &[part], 0);
    assert_eq!(
        text,
        "date\nSample Contact\nSubject\nSharePlay Message\nEnded\nStarted sharing location!\nHi\nSent with Loud\nReactions:\nLoved by Me\n\n    reply\n\nThis message responded to an earlier message.\n\n"
    );
}

#[test]
fn txt_reply_is_indented() {
    let mut h = head("date", "Me");
    h.is_reply = true;
    let text = format_message_text(&h, &[line("Hi")], 4);
    assert_eq!(text, "    date\n    Me\n    Hi\n");
}

#[test]
fn txt_time_and_names() {
    assert_eq!(get_time("d", None, true, None), "d");
    assert_eq!(get_time("d", Some(""), true, None), "d");
    assert_eq!(get_time("d", Some("1 minute"), true, None), "d (Read by them after 1 minute)");
    assert_eq!(get_time("d", Some("1 minute"), false, None), "d (Read by you after 1 minute)");
    assert_eq!(get_time("d", Some("1 minute"), false, Some("Name")), "d (Read by Name after 1 minute)");
    assert_eq!(unsent_by_text(true, None), "You");
    assert_eq!(unsent_by_text(true, Some("Name")), "Name");
    assert_eq!(unsent_by_text(false, Some("Name")), "They");
    assert_eq!(format_shared_location(true, false), "Started sharing location!");
    assert_eq!(format_shared_location(false, true), "Stopped sharing location!");
    assert_eq!(format_shared_location(false, false), "Shared location!");
    assert_eq!(app_error_line("no payload"), "Unable to format app message: no payload");
}

#[test]
fn txt_text_bubble() {
    let text = "Hello world";
    let attrs = vec![
        TextAttributes::new(0, 5, TextEffect::Default),
        TextAttributes::new(5, 11, TextEffect::Default),
    ];
    assert_eq!(format_text_bubble(text, &attrs), "Hello world");
    let bad = vec![TextAttributes::new(0, 50, TextEffect::Default)];
    assert_eq!(format_text_bubble(text, &bad), "Hello world");
    let emoji = "🙈a";
    let split = vec![TextAttributes::new(1, 5, TextEffect::Default)];
    assert_eq!(format_text_bubble(emoji, &split), "🙈a");
    let fitness = format!("{FITNESS_RECEIVER} closed all three rings");
    assert_eq!(format_text_bubble(&fitness, &[]), "You closed all three rings");
}

#[test]
fn txt_edited_parts() {
    let edited = EditedMessage {
        parts: vec![
            EditedMessagePart {
                status: EditStatus::Edited,
                edit_history: vec![event(1, "First"), event(2, "Second"), event(3, "Third")],
            },
            EditedMessagePart {
                status: EditStatus::Unsent,
                edit_history: vec![],
            },
            EditedMessagePart {
                status: EditStatus::Original,
                edit_history: vec![],
            },
        ],
    };
    let diffs = vec![None, Some("1 second".to_string()), None];
    assert_eq!(
        format_edited_part(&edited, 0, "May 17", &diffs, "You", None, "").unwrap(),
        "May 17 First\nEdited 1 second later: Second\nThird\n"
    );
    assert_eq!(
        format_edited_part(&edited, 1, "", &[], "They", Some("5 seconds"), "").unwrap(),
        "They unsent this message part 5 seconds after sending!"
    );
    assert_eq!(
        format_edited_part(&edited, 1, "", &[], "You", None, "").unwrap(),
        "You unsent this message part!"
    );
    assert_eq!(format_edited_part(&edited, 2, "", &[], "You", None, ""), None);
    assert_eq!(format_edited_part(&edited, 3, "", &[], "You", None, ""), None);

    match format_edited_json(&edited, 0, &[Some(10), Some(1), None], "You", None) {
        Some(EditedJson::Edited(versions)) => {
            assert_eq!(versions.len(), 3);
            assert_eq!(versions[1].timestamp, Some(1));
            assert_eq!(versions[2].text, "Third");
        }
        _ => panic!("expected versions"),
    }
    match format_edited_json(&edited, 1, &[], "They", Some("5 seconds")) {
        Some(EditedJson::Unsent(u)) => {
            assert_eq!(u.who, "They");
            assert_eq!(u.diff.as_deref(), Some("5 seconds"));
            assert_eq!(u.message, UNSENT_AFTER);
        }
        _ => panic!("expected unsent"),
    }
    match format_edited_json(&edited, 1, &[], "You", None) {
        Some(EditedJson::Unsent(u)) => assert_eq!(u.message, UNSENT),
        _ => panic!("expected unsent"),
    }
    assert!(format_edited_json(&edited, 2, &[], "You", None).is_none());
}

#[test]
fn ndjson_text_body() {
    let text = "Hello world";
    let attrs = vec![
        TextAttributes::new(0, 5, TextEffect::Default),
        TextAttributes::new(6, 11, TextEffect::OTP),
        TextAttributes::new(6, 60, TextEffect::OTP),
    ];
    let body = format_text_body_json(text, &attrs);
    assert_eq!(body.len(), 2);
    assert!(matches!(body[0], TextPieceJson::Attributed("Hello", TextEffect::Default)));
    assert!(matches!(body[1], TextPieceJson::Attributed("world", TextEffect::OTP)));
    let fitness = format!("{FITNESS_RECEIVER} closed all three rings");
    let body = format_text_body_json(&fitness, &[]);
    assert!(matches!(&body[0], TextPieceJson::Plain(p) if p == "You"));
    let body = format_text_body_json(text, &[]);
    assert!(matches!(&body[0], TextPieceJson::Plain(p) if p == "Hello world"));
}

#[test]
fn can_add_line_no_indent() {
    let mut s = String::new();
    add_line(&mut s, "hello world", "");
    assert_eq!(s, "hello world\n".to_string());
}

#[test]
fn can_add_line_indent() {
    let mut s = String::new();
    add_line(&mut s, "hello world", "  ");
    assert_eq!(s, "  hello world\n".to_string());
}

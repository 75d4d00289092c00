use imessage_database::exporter::ndjson::{
    format_message_json, time_json, EditedJson, PartContentJson, TextPieceJson,
};
use imessage_database::exporter::parts::{
    ndjson_part_contents, txt_part_texts, AttachmentOutcome, EditStamps, EditTimes,
};
use imessage_database::message_types::edited::{
    EditStatus, EditedEvent, EditedMessage, EditedMessagePart,
};
use imessage_database::message_types::text_effects::TextEffect;
use imessage_database::tables::messages::models::{BubbleComponent, TextAttributes};

fn event(date: i64, text: &str) -> EditedEvent {
    EditedEvent {
        date,
        text: text.to_string(),
        components: None,
        guid: None,
    }
}

fn mixed_body() -> Vec<BubbleComponent<'static>> {
    vec![
        BubbleComponent::Text(vec![TextAttributes::new(0, 5, TextEffect::Default)]),
        BubbleComponent::Attachment(""),
        BubbleComponent::Attachment(""),
        BubbleComponent::App,
        BubbleComponent::Attachment(""),
        BubbleComponent::Retracted,
    ]
}

#[test]
fn txt_parts_follow_attachment_index() {
    let body = mixed_body();
    let attachments = vec![
        AttachmentOutcome::Copied("attachments/a.jpg".to_string()),
        AttachmentOutcome::Sticker("Sticker from Me: s.png".to_string()),
    ];
    let app: Result<String, String> = Err("no payload".to_string());
    let reactions = vec![vec!["Loved by Me".to_string()], vec![], vec![], vec![], vec![], vec![]];
    let replies = vec![vec![], vec![], vec![], vec!["reply".to_string()], vec![], vec![]];
    let parts = txt_part_texts(
        &body,
        Some("hello"),
        None,
        &[],
        "Me",
        &attachments,
        &app,
        "",
        &reactions,
        &replies,
    );
    assert_eq!(parts.len(), 6);
    assert_eq!(parts[0].line.as_deref(), Some("hello"));
    assert_eq!(parts[0].reactions, vec!["Loved by Me".to_string()]);
    assert_eq!(parts[1].line.as_deref(), Some("attachments/a.jpg"));
    assert_eq!(parts[2].line.as_deref(), Some("Sticker from Me: s.png"));
    assert_eq!(parts[3].line.as_deref(), Some("Unable to format app message: no payload"));
    assert_eq!(parts[3].replies, vec!["reply".to_string()]);
    assert_eq!(parts[4].line.as_deref(), Some("Sticker from Me: s.png"));
    assert_eq!(parts[5].line, None);
}

#[test]
fn txt_parts_missing_and_failed_attachments() {
    let body = vec![
        BubbleComponent::Attachment(""),
        BubbleComponent::Attachment(""),
        BubbleComponent::App,
    ];
    let failed = vec![AttachmentOutcome::Failed("IMG_1.HEIC".to_string())];
    let app: Result<String, String> = Ok("App bubble".to_string());
    let empty = vec![vec![], vec![], vec![]];
    let parts = txt_part_texts(&body, None, None, &[], "Me", &failed, &app, "", &empty, &empty);
    assert_eq!(parts[0].line.as_deref(), Some("IMG_1.HEIC"));
    assert_eq!(parts[1].line.as_deref(), Some("IMG_1.HEIC"));
    assert_eq!(parts[2].line.as_deref(), Some("App bubble"));
    let parts = txt_part_texts(&body, None, None, &[], "Me", &[], &app, "", &empty, &empty);
    assert_eq!(parts[0].line.as_deref(), Some("Attachment missing!"));
    assert_eq!(parts[1].line.as_deref(), Some("Attachment missing!"));
}

#[test]
fn txt_parts_edited_and_unsent() {
    let body = vec![
        BubbleComponent::Text(vec![TextAttributes::new(0, 5, TextEffect::Default)]),
        BubbleComponent::Retracted,
        BubbleComponent::Text(vec![TextAttributes::new(0, 5, TextEffect::Default)]),
    ];
    let edited = EditedMessage {
        parts: vec![
            EditedMessagePart {
                status: EditStatus::Edited,
                edit_history: vec![event(1, "First"), event(2, "Second")],
            },
            EditedMessagePart {
                status: EditStatus::Unsent,
                edit_history: vec![],
            },
            EditedMessagePart {
                status: EditStatus::Original,
                edit_history: vec![],
            },
        ],
    };
    let times = vec![
        EditTimes {
            first_stamp: "May 17".to_string(),
            edit_diffs: vec![None, Some("1 second".to_string())],
            unsent_diff: None,
        },
        EditTimes {
            first_stamp: String::new(),
            edit_diffs: vec![],
            unsent_diff: Some("5 seconds".to_string()),
        },
        EditTimes {
            first_stamp: String::new(),
            edit_diffs: vec![],
            unsent_diff: None,
        },
    ];
    let app: Result<String, String> = Ok(String::new());
    let empty = vec![vec![], vec![], vec![]];
    let parts = txt_part_texts(
        &body,
        Some("hello"),
        Some(&edited),
        &times,
        "You",
        &[],
        &app,
        "",
        &empty,
        &empty,
    );
    assert_eq!(
        parts[0].line.as_deref(),
        Some("May 17 First\nEdited 1 second later: Second\n")
    );
    assert_eq!(
        parts[1].line.as_deref(),
        Some("You unsent this message part 5 seconds after sending!")
    );
    assert_eq!(parts[2].line.as_deref(), Some("hello"));
}

#[test]
fn ndjson_parts_follow_attachment_index() {
    let body = mixed_body();
    let attachments: Vec<AttachmentOutcome<u8>> = vec![
        AttachmentOutcome::Copied(1),
        AttachmentOutcome::Sticker(2),
    ];
    let contents = ndjson_part_contents(&body, Some("hello"), None, &[], "Me", &attachments, false);
    assert_eq!(contents.len(), 6);
    match &contents[0] {
        PartContentJson::Body(pieces) => {
            assert_eq!(pieces.len(), 1);
            match &pieces[0] {
                TextPieceJson::Attributed(t, e) => {
                    assert_eq!(*t, "hello");
                    assert!(matches!(e, TextEffect::Default));
                }
                _ => panic!("expected an attributed piece"),
            }
        }
        _ => panic!("expected a text body"),
    }
    assert!(matches!(contents[1], PartContentJson::Attachment(0)));
    assert!(matches!(contents[2], PartContentJson::Sticker(1)));
    assert!(matches!(contents[3], PartContentJson::AppError));
    assert!(matches!(contents[4], PartContentJson::Sticker(1)));
    assert!(matches!(contents[5], PartContentJson::Empty));
    let none: Vec<AttachmentOutcome<u8>> = vec![];
    let contents = ndjson_part_contents(&body, None, None, &[], "Me", &none, true);
    assert!(matches!(contents[0], PartContentJson::Empty));
    assert!(matches!(contents[1], PartContentJson::AttachmentMissing));
    assert!(matches!(contents[3], PartContentJson::App));
}

#[test]
fn ndjson_parts_edited_and_retracted() {
    let body = vec![
        BubbleComponent::Text(vec![TextAttributes::new(0, 5, TextEffect::Default)]),
        BubbleComponent::Retracted,
    ];
    let edited = EditedMessage {
        parts: vec![
            EditedMessagePart {
                status: EditStatus::Edited,
                edit_history: vec![event(1, "First"), event(2, "Second")],
            },
            EditedMessagePart {
                status: EditStatus::Unsent,
                edit_history: vec![],
            },
        ],
    };
    let stamps = vec![
        EditStamps { timestamps: vec![Some(10), Some(1)], unsent_diff: None },
        EditStamps { timestamps: vec![], unsent_diff: None },
    ];
    let none: Vec<AttachmentOutcome<u8>> = vec![];
    let contents =
        ndjson_part_contents(&body, Some("hello"), Some(&edited), &stamps, "They", &none, true);
    match &contents[0] {
        PartContentJson::Edited(EditedJson::Edited(versions)) => {
            assert_eq!(versions.len(), 2);
            assert_eq!(versions[0].timestamp, Some(10));
            assert_eq!(versions[1].text, "Second");
        }
        _ => panic!("expected edits"),
    }
    match &contents[1] {
        PartContentJson::Retracted(EditedJson::Unsent(u)) => assert_eq!(u.who, "They"),
        _ => panic!("expected an unsent part"),
    }
}

#[test]
fn ndjson_message_keeps_service() {
    let message = format_message_json::<u8>(
        Some("iMessage".to_string()),
        time_json(100, true, None),
        "Me".to_string(),
        false,
        None,
        false,
        false,
        false,
        vec![],
        false,
    );
    assert_eq!(message.service.as_deref(), Some("iMessage"));
    assert_eq!(message.reply, None);
    let without = format_message_json::<u8>(
        None,
        time_json(100, true, None),
        "Me".to_string(),
        false,
        None,
        false,
        false,
        false,
        vec![],
        true,
    );
    assert_eq!(without.service, None);
    assert_eq!(without.reply, Some(true));
}

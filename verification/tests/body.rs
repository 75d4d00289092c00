use imessage_database::message_types::edited::{
    EditStatus, EditedEvent, EditedMessage, EditedMessagePart,
};
use imessage_database::message_types::text_effects::{TextEffect, Unit};
use imessage_database::tables::messages::body::{parse_body_legacy, parse_body_typedstream};
use imessage_database::tables::messages::models::{BubbleComponent, TextAttributes};
use imessage_database::tables::messages::Message;
use imessage_database::util::typedstream::models::{Archivable, Class, OutputData};

fn blank() -> Message {
    Message {
        text: None,
        components: None,
        edited_parts: None,
    }
}

fn with_text(text: &str) -> Message {
    let mut m = blank();
    m.text = Some(text.to_string());
    m
}

fn object(class: &str, data: Vec<OutputData>) -> Archivable {
    Archivable::Object(
        Class {
            name: class.to_string(),
            version: 0,
        },
        data,
    )
}

fn nsstring(text: &str) -> Archivable {
    object("NSString", vec![OutputData::String(text.to_string())])
}

fn range(part: i64, length: u64) -> Archivable {
    Archivable::Data(vec![
        OutputData::SignedInteger(part),
        OutputData::UnsignedInteger(length),
    ])
}

fn dictionary(pairs: i64) -> Archivable {
    object("NSDictionary", vec![OutputData::SignedInteger(pairs)])
}

fn part(status: EditStatus) -> EditedMessagePart {
    EditedMessagePart {
        status,
        edit_history: vec![],
    }
}

#[test]
fn can_get_message_body_deleted_only() {
    let mut m = blank();
    m.edited_parts = Some(EditedMessage {
        parts: vec![EditedMessagePart {
            status: EditStatus::Unsent,
            edit_history: vec![],
        }],
    });

    assert_eq!(
        parse_body_typedstream(&m).unwrap(),
        vec![BubbleComponent::Retracted,]
    );
}

#[test]
fn can_get_message_body_single_emoji() {
    let m = with_text("🙈");
    assert_eq!(
        parse_body_legacy(&m),
        vec![BubbleComponent::Text(vec![TextAttributes::new(
            0,
            4,
            TextEffect::Default
        ),])]
    );
}

#[test]
fn can_get_message_body_multiple_emoji() {
    let m = with_text("🙈🙈🙈");
    assert_eq!(
        parse_body_legacy(&m),
        vec![BubbleComponent::Text(vec![TextAttributes::new(
            0,
            12,
            TextEffect::Default
        ),])]
    );
}

#[test]
fn can_get_message_body_text_only() {
    let m = with_text("Hello world");
    assert_eq!(
        parse_body_legacy(&m),
        vec![BubbleComponent::Text(vec![TextAttributes::new(
            0,
            11,
            TextEffect::Default
        ),])]
    );
}

#[test]
fn can_get_message_body_attachment_text() {
    let m = with_text("\u{FFFC}Hello world");
    assert_eq!(
        parse_body_legacy(&m),
        vec![
            BubbleComponent::Attachment(""),
            BubbleComponent::Text(vec![TextAttributes::new(3, 14, TextEffect::Default),])
        ]
    );
}

#[test]
fn can_get_message_body_app_text() {
    let m = with_text("\u{FFFD}Hello world");
    assert_eq!(
        parse_body_legacy(&m),
        vec![
            BubbleComponent::App,
            BubbleComponent::Text(vec![TextAttributes::new(3, 14, TextEffect::Default),])
        ]
    );
}

#[test]
fn can_get_message_body_app_attachment_text_mixed_start_text() {
    let m = with_text("One\u{FFFD}\u{FFFC}Two\u{FFFC}Three\u{FFFC}four");
    assert_eq!(
        parse_body_legacy(&m),
        vec![
            BubbleComponent::Text(vec![TextAttributes::new(0, 3, TextEffect::Default),]),
            BubbleComponent::App,
            BubbleComponent::Attachment(""),
            BubbleComponent::Text(vec![TextAttributes::new(9, 12, TextEffect::Default),]),
            BubbleComponent::Attachment(""),
            BubbleComponent::Text(vec![TextAttributes::new(15, 20, TextEffect::Default),]),
            BubbleComponent::Attachment(""),
            BubbleComponent::Text(vec![TextAttributes::new(23, 27, TextEffect::Default),]),
        ]
    );
}

#[test]
fn can_get_message_body_app_attachment_text_mixed_start_app() {
    let m = with_text("\u{FFFD}\u{FFFC}Two\u{FFFC}Three\u{FFFC}");
    assert_eq!(
        parse_body_legacy(&m),
        vec![
            BubbleComponent::App,
            BubbleComponent::Attachment(""),
            BubbleComponent::Text(vec![TextAttributes::new(6, 9, TextEffect::Default),]),
            BubbleComponent::Attachment(""),
            BubbleComponent::Text(vec![TextAttributes::new(12, 17, TextEffect::Default),]),
            BubbleComponent::Attachment(""),
        ]
    );
}

#[test]
fn legacy_body_of_message_without_text_is_empty() {
    assert_eq!(parse_body_legacy(&blank()), vec![]);
}

#[test]
fn legacy_body_of_empty_text_is_empty() {
    assert_eq!(parse_body_legacy(&with_text("")), vec![]);
}

#[test]
fn legacy_body_drops_single_character_between_replacements() {
    // A run of text of one character that ends at a replacement character is not kept
    let m = with_text("\u{FFFC}a\u{FFFC}");
    assert_eq!(
        parse_body_legacy(&m),
        vec![
            BubbleComponent::Attachment(""),
            BubbleComponent::Attachment(""),
        ]
    );
}

#[test]
fn typedstream_body_without_anything_is_none() {
    assert_eq!(parse_body_typedstream(&blank()), None);
}

#[test]
fn typedstream_body_with_components_but_no_text_is_none() {
    let mut m = blank();
    m.components = Some(vec![nsstring("hi"), range(1, 2)]);
    assert_eq!(parse_body_typedstream(&m), None);
}

#[test]
fn typedstream_body_of_plain_text() {
    let mut m = with_text("Noter test");
    m.components = Some(vec![
        nsstring("Noter test"),
        range(1, 10),
        dictionary(1),
        nsstring("__kIMMessagePartAttributeName"),
        object("NSNumber", vec![OutputData::SignedInteger(0)]),
    ]);
    assert_eq!(
        parse_body_typedstream(&m).unwrap(),
        vec![BubbleComponent::Text(vec![TextAttributes::new(
            0,
            10,
            TextEffect::Default
        )])]
    );
}

#[test]
fn typedstream_body_counts_characters_not_bytes() {
    let mut m = with_text("🙈a");
    m.components = Some(vec![nsstring("🙈a"), range(0, 1), range(0, 1)]);
    assert_eq!(
        parse_body_typedstream(&m).unwrap(),
        vec![BubbleComponent::Text(vec![
            TextAttributes::new(0, 4, TextEffect::Default),
            TextAttributes::new(4, 5, TextEffect::Default),
        ])]
    );
}

#[test]
fn typedstream_body_finds_attachment_mention_link_code_and_date() {
    let mut m = with_text("\u{FFFC}abcd");
    m.components = Some(vec![
        nsstring("\u{FFFC}abcd"),
        range(0, 1),
        dictionary(1),
        nsstring("__kIMFileTransferGUIDAttributeName"),
        nsstring("at_0_GUID"),
        range(1, 1),
        dictionary(1),
        nsstring("__kIMMentionConfirmedMention"),
        nsstring("+15558675309"),
        range(1, 1),
        dictionary(1),
        nsstring("__kIMLinkAttributeName"),
        object("NSURL", vec![]),
        nsstring("https://example.com"),
        range(1, 1),
        dictionary(1),
        nsstring("__kIMOneTimeCodeAttributeName"),
        object("NSDictionary", vec![]),
        range(1, 1),
        dictionary(1),
        nsstring("__kIMCalendarEventAttributeName"),
        object("NSDictionary", vec![]),
    ]);
    assert_eq!(
        parse_body_typedstream(&m).unwrap(),
        vec![
            BubbleComponent::Attachment("at_0_GUID"),
            BubbleComponent::Text(vec![
                TextAttributes::new(3, 4, TextEffect::Mention("+15558675309")),
                TextAttributes::new(4, 5, TextEffect::Link("https://example.com")),
                TextAttributes::new(5, 6, TextEffect::OTP),
                TextAttributes::new(6, 7, TextEffect::Conversion(Unit::Timezone)),
            ]),
        ]
    );
}

#[test]
fn typedstream_body_inserts_retracted_parts() {
    let mut m = with_text("ab");
    m.components = Some(vec![nsstring("ab"), range(0, 1), range(2, 1)]);
    m.edited_parts = Some(EditedMessage {
        parts: vec![
            part(EditStatus::Original),
            part(EditStatus::Unsent),
            part(EditStatus::Original),
            part(EditStatus::Unsent),
        ],
    });
    assert_eq!(
        parse_body_typedstream(&m).unwrap(),
        vec![
            BubbleComponent::Text(vec![
                TextAttributes::new(0, 1, TextEffect::Default),
                TextAttributes::new(1, 2, TextEffect::Default),
            ]),
            BubbleComponent::Retracted,
            BubbleComponent::Retracted,
        ]
    );
}

#[test]
fn edited_event_holds_its_version() {
    let event = EditedEvent {
        date: 1,
        text: "v1".to_string(),
        components: None,
        guid: None,
    };
    let m = EditedMessage {
        parts: vec![EditedMessagePart {
            status: EditStatus::Edited,
            edit_history: vec![event],
        }],
    };
    assert_eq!(m.parts[0].edit_history[0].date, 1);
}

use modern_sender::format::{
    parse_message_with_format, parse_message_with_whatsapp_format, FormatRange, TextStyle,
};
use modern_sender::ingest::{accept_messages, autosend_effective, AcceptedMessage, SendMode};
use modern_sender::render::{IndividualMessage, MessageInner, Name};
use modern_sender::retry::render_for_destination;

fn sample_message() -> MessageInner {
    MessageInner {
        message: vec![
            IndividualMessage::new(String::from("10:00"), "  first part  "),
            IndividualMessage::new(String::from("10:05"), "second part"),
        ],
        comment: Some(String::from("check twice")),
        reciever: Name::new("Alice"),
        sender: Name::new("Bob"),
        datetime: String::from("2024-01-01 10:00"),
        frequency: String::from("145.500"),
        location: String::from("North"),
        title: String::from("Report"),
        source: String::from("feed"),
        network: Some(42),
    }
}

#[test]
fn rendering_layout_is_exact() {
    let m = sample_message();
    let expected = "Report\n\nNorth\n\n2024-01-01 10:00\n\n\
                    Receiver: Alice\nSender: Bob\n\n\
                    first part\nsecond part\nComment: check twice";
    assert_eq!(m.render(), expected);
}

#[test]
fn with_frequency_prefixes_annotation() {
    let m = sample_message();
    let expected = format!("145.500\n{}", m.render());
    assert_eq!(m.with_frequency(), expected);
}

#[test]
fn empty_comment_is_omitted() {
    let mut m = sample_message();
    m.comment = Some(String::new());
    assert!(!m.render().contains("Comment:"));
    m.comment = None;
    assert!(!m.render().contains("Comment:"));
}

#[test]
fn blank_names_render_placeholder() {
    let mut m = sample_message();
    m.reciever = Name::new("");
    m.sender = Name::new("");
    let rendered = m.render();
    assert!(rendered.contains("Receiver: НВ\n"));
    assert!(rendered.contains("Sender: НВ\n"));
}

#[test]
fn names_lose_embedded_newlines() {
    let name = Name::new("Al\nice\r");
    assert_eq!(name.as_str(), "Alice");
}

#[test]
fn submessages_are_trimmed() {
    let sub = IndividualMessage::new(String::from("t"), "\n  spaced out \t");
    assert_eq!(sub.message, "spaced out");
}

#[test]
fn whatsapp_markup_rewrite() {
    assert_eq!(
        parse_message_with_whatsapp_format("**bold** *italic* ~~gone~~ ~plain"),
        "*bold* _italic_ ~gone~ ~plain"
    );
    assert_eq!(parse_message_with_whatsapp_format(""), "");
}

#[test]
fn format_ranges_cover_marked_spans() {
    let (plain, ranges) = parse_message_with_format("ab**cd**e*f*");
    assert_eq!(plain, "abcdef");
    assert_eq!(
        ranges,
        vec![
            FormatRange { start: 2, length: 2, style: TextStyle::Bold },
            FormatRange { start: 5, length: 1, style: TextStyle::Italic },
        ]
    );
}

#[test]
fn unclosed_marker_yields_no_range() {
    let (plain, ranges) = parse_message_with_format("a**b");
    assert_eq!(plain, "ab");
    assert!(ranges.is_empty());
}

#[test]
fn range_positions_count_graphemes() {
    // "e" followed by a combining acute accent is two chars but one
    // grapheme cluster, so the bold span starts at 1, not 2.
    let (plain, ranges) = parse_message_with_format("e\u{301}**x**");
    assert_eq!(plain, "e\u{301}x");
    assert_eq!(ranges, vec![FormatRange { start: 1, length: 1, style: TextStyle::Bold }]);
}

#[test]
fn test() {
    let s1 = "Regular text with some **bold statement** and ~~strikethrough~~*italic* touch";

    let (message, ranges) = parse_message_with_format(s1);
    for range in ranges.iter() {
        println!(
            "{:?}: {}",
            range.style,
            &message[range.start as usize..(range.start + range.length) as usize]
        );
    }
}

#[test]
fn parse_failure_forces_manual_review() {
    let accepted = accept_messages(SendMode::Standard, None, String::from("{not json"));
    assert_eq!(accepted.len(), 1);
    assert_eq!(accepted[0].content, "{not json");
    assert!(accepted[0].autosend_overwrite);
    assert!(accepted[0].freq.is_none());
    assert!(!autosend_effective(true, &accepted[0]));
}

#[test]
fn standard_mode_renders_each_message() {
    let m = sample_message();
    let rendered = m.render();
    let accepted = accept_messages(SendMode::Standard, Some(vec![m]), String::from("raw"));
    assert_eq!(accepted.len(), 1);
    assert_eq!(accepted[0].content, rendered);
    assert_eq!(accepted[0].freq.as_deref(), Some("145.500"));
    assert_eq!(accepted[0].network, Some(42));
    assert!(!accepted[0].autosend_overwrite);
    assert!(autosend_effective(true, &accepted[0]));
    assert!(!autosend_effective(false, &accepted[0]));
}

#[test]
fn frequency_mode_prefixes_each_message() {
    let m = sample_message();
    let expected = m.with_frequency();
    let accepted = accept_messages(SendMode::Frequency, Some(vec![m]), String::from("raw"));
    assert_eq!(accepted.len(), 1);
    assert_eq!(accepted[0].content, expected);
}

#[test]
fn plain_mode_passes_body_through() {
    let m = sample_message();
    let accepted = accept_messages(SendMode::Plain, Some(vec![m]), String::from("raw body"));
    assert_eq!(accepted.len(), 1);
    assert_eq!(accepted[0].content, "raw body");
    assert!(!accepted[0].autosend_overwrite);
}

#[test]
fn frequency_prefix_only_for_frequency_mode() {
    let freq = Some(String::from("145.500"));
    assert_eq!(
        render_for_destination("msg", &freq, modern_sender::SendMode::Frequency),
        "145.500\nmsg"
    );
    assert_eq!(
        render_for_destination("msg", &freq, modern_sender::SendMode::Normal),
        "msg"
    );
    assert_eq!(
        render_for_destination("msg", &None, modern_sender::SendMode::Frequency),
        "msg"
    );
}

#[test]
fn accepted_message_carries_fields() {
    let a = AcceptedMessage {
        content: String::from("c"),
        freq: None,
        network: None,
        autosend_overwrite: false,
    };
    assert_eq!(a.content, "c");
}

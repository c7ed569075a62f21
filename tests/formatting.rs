use socrates_journal::export::messages_to_export_format;
use socrates_journal::prompt::{convert_to_prompt_format, render, BASE_PROMPT};
use socrates_journal::text::{chars_of, trimmed};
use socrates_journal::{JournalMessage, Speaker, Timestamp};

fn msg(speaker: Speaker, text: &str) -> JournalMessage {
    JournalMessage::at(speaker, text.to_string(), Timestamp { secs: 0, nanos: 0 })
}

#[test]
fn export_collapses_newlines() {
    let out = messages_to_export_format(&[
        JournalMessage::new("Hello\n\n\n\n\n".into(), true),
        JournalMessage::new("What's up?\n".into(), false),
    ]);
    let expected = "Socrates: Hello\n\nMe: What's up?";
    assert_eq!(out, expected)
}

#[test]
fn generates_correct_prompt() {
    let out = convert_to_prompt_format(&[
        JournalMessage::new("Hello".into(), true),
        JournalMessage::new("What's up?".into(), false),
    ]);
    assert!(out.starts_with(BASE_PROMPT));
    assert!(out.ends_with("You: Hello\nMe: What's up?\nYou:"));
}

#[test]
fn prompt_of_empty_conversation_is_base_prompt() {
    assert_eq!(convert_to_prompt_format(&[]), BASE_PROMPT);
}

#[test]
fn render_drops_every_trailing_cue_of_the_base() {
    let out = render("Be kind.\nYou:You:", &[msg(Speaker::User, "hi")]);
    assert_eq!(out, "Be kind.\nMe: hi\nYou:");
}

#[test]
fn render_keeps_a_base_without_cue() {
    let out = render("Intro ", &[msg(Speaker::Assistant, "a"), msg(Speaker::User, "b")]);
    assert_eq!(out, "Intro You: a\nMe: b\nYou:");
}

#[test]
fn render_is_deterministic() {
    let msgs = vec![msg(Speaker::Assistant, "Hello"), msg(Speaker::User, "Hi")];
    assert_eq!(render("Base\nYou:", &msgs), render("Base\nYou:", &msgs));
}

#[test]
fn render_starts_with_trimmed_base_and_ends_with_cue() {
    let out = render("Base\nYou:", &[msg(Speaker::User, "x")]);
    assert!(out.starts_with("Base\n"));
    assert!(out.ends_with("\nYou:"));
}

#[test]
fn export_collapses_every_run() {
    let out = messages_to_export_format(&[
        msg(Speaker::User, "a\n\n\n\nb\n\n\nc\n\nd"),
    ]);
    assert_eq!(out, "Me: a\n\nb\n\nc\n\nd");
}

#[test]
fn export_of_nothing_is_empty() {
    assert_eq!(messages_to_export_format(&[]), "");
}

#[test]
fn export_trims_leading_whitespace_of_first_block() {
    let out = messages_to_export_format(&[msg(Speaker::Assistant, "x")]);
    assert_eq!(out, "Socrates: x");
}

#[test]
fn export_twice_is_identical() {
    let msgs = vec![msg(Speaker::Assistant, "Hello\n\n\n"), msg(Speaker::User, "Fine")];
    assert_eq!(messages_to_export_format(&msgs), messages_to_export_format(&msgs));
}

#[test]
fn trimmed_removes_unicode_whitespace() {
    assert_eq!(trimmed("\u{3000} \t hi there \u{a0}\n"), "hi there");
    assert_eq!(trimmed("   "), "");
}

#[test]
fn chars_of_keeps_order() {
    assert_eq!(chars_of("añb"), vec!['a', 'ñ', 'b']);
}

#[test]
fn new_message_records_speaker() {
    let m = JournalMessage::new("x".into(), true);
    assert!(m.from_bot());
    assert_eq!(m.speaker, Speaker::Assistant);
    let u = JournalMessage::new("y".into(), false);
    assert!(!u.from_bot());
}

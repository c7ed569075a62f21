use socrates_journal::completion::{clean_completion, reply_from_choices, UpstreamError};
use socrates_journal::dialogue::{
    finish_turn, step, Action, Event, TurnError, END_TEXT, NOTHING_TO_EXPORT_TEXT,
};
use socrates_journal::prompt::{TokenCounter, BASE_PROMPT};
use socrates_journal::{Command, JournalMessage, OpenAiApi, Speaker, State, Timestamp};

fn ts() -> Timestamp {
    Timestamp { secs: 1_700_000_000, nanos: 5 }
}

fn text_event(t: &str) -> Event {
    Event::Message { text: Some(t.to_string()), timestamp: ts() }
}

fn reply(t: &str) -> JournalMessage {
    JournalMessage::at(Speaker::Assistant, t.to_string(), ts())
}

#[test]
fn cue_and_whitespace_are_stripped() {
    assert_eq!(clean_completion("  Hello there!\nYou: "), "Hello there!");
    assert_eq!(clean_completion("How are you?\nMe:  \n"), "How are you?");
    assert_eq!(clean_completion("Fine You:Me: \n"), "Fine");
    assert_eq!(clean_completion("Plain"), "Plain");
}

#[test]
fn reply_uses_first_candidate() {
    let m = reply_from_choices(&vec!["\n\nWhat brings you here?\nYou: ".to_string(), "x".to_string()])
        .unwrap();
    assert_eq!(m.text, "What brings you here?");
    assert_eq!(m.speaker, Speaker::Assistant);
}

#[test]
fn reply_without_candidate_fails() {
    assert!(matches!(reply_from_choices(&vec![]), Err(UpstreamError::NoCandidate)));
    assert!(matches!(
        reply_from_choices(&vec!["  You: ".to_string()]),
        Err(UpstreamError::EmptyCandidate)
    ));
}

#[test]
fn authorization_header() {
    let api = OpenAiApi::new("abc".to_string());
    assert_eq!(api.authorization(), "Bearer abc");
    let req = api.request("prompt");
    assert_eq!(req.stop, vec!["You:".to_string(), "Me:".to_string()]);
    assert_eq!(req.model, "text-davinci-003");
    assert_eq!(req.prompt, "prompt");
    assert_eq!(req.max_tokens, 150);
}

#[test]
fn first_message_opens_with_one_record() {
    let counter = TokenCounter::p50k().unwrap();
    let (s, a) = step(State::Start, text_event("hi"), &counter);
    let (prompt, pending) = match a {
        Action::Complete { prompt, pending } => (prompt, pending),
        _ => panic!("expected a completion"),
    };
    assert_eq!(prompt, BASE_PROMPT);
    assert!(pending.is_empty());
    let (s, a) = finish_turn(s, pending, Ok(reply("Hello, I am Socrates.")));
    match s {
        State::Chatting { messages } => {
            assert_eq!(messages.len(), 1);
            assert_eq!(messages[0].text, "Hello, I am Socrates.");
        }
        State::Start => panic!("expected a conversation"),
    }
    assert!(matches!(a, Action::Send(t) if t == "Hello, I am Socrates."));
}

#[test]
fn user_turn_appends_trimmed_text_then_reply() {
    let counter = TokenCounter::p50k().unwrap();
    let start = State::Chatting { messages: vec![reply("Hello.")] };
    let (s, a) = step(start, text_event("  I feel stuck.  \n"), &counter);
    let (prompt, pending) = match a {
        Action::Complete { prompt, pending } => (prompt, pending),
        _ => panic!("expected a completion"),
    };
    assert!(prompt.ends_with("You: Hello.\nMe: I feel stuck.\nYou:"));
    assert_eq!(pending.len(), 2);
    assert_eq!(pending[1].text, "I feel stuck.");
    assert_eq!(pending[1].speaker, Speaker::User);
    assert_eq!(pending[1].timestamp, ts());
    let (s, _) = finish_turn(s, pending, Ok(reply("Why?")));
    match s {
        State::Chatting { messages } => assert_eq!(messages.len(), 3),
        State::Start => panic!("expected a conversation"),
    }
}

#[test]
fn failed_reply_keeps_state() {
    let start = State::Chatting { messages: vec![reply("Hello.")] };
    let (s, a) = finish_turn(start, vec![], Err(UpstreamError::NoCandidate));
    assert!(matches!(a, Action::Fail(TurnError::Upstream)));
    match s {
        State::Chatting { messages } => assert_eq!(messages.len(), 1),
        State::Start => panic!("expected a conversation"),
    }
}

#[test]
fn empty_or_missing_text_is_dropped() {
    let counter = TokenCounter::p50k().unwrap();
    let start = State::Chatting { messages: vec![reply("Hello.")] };
    let (s, a) = step(start, text_event("   \n"), &counter);
    assert!(matches!(a, Action::Nothing));
    let (s, a) = step(s, Event::Message { text: None, timestamp: ts() }, &counter);
    assert!(matches!(a, Action::Nothing));
    match s {
        State::Chatting { messages } => assert_eq!(messages.len(), 1),
        State::Start => panic!("expected a conversation"),
    }
}

#[test]
fn end_resets_and_export_finds_nothing() {
    let counter = TokenCounter::p50k().unwrap();
    let start = State::Chatting { messages: vec![reply("Hello.")] };
    let (s, a) = step(start, Event::Command(Command::End), &counter);
    assert!(matches!(s, State::Start));
    assert!(matches!(a, Action::Send(t) if t == END_TEXT));
    let (s, a) = step(s, Event::Command(Command::Export), &counter);
    assert!(matches!(s, State::Start));
    assert!(matches!(a, Action::Send(t) if t == NOTHING_TO_EXPORT_TEXT));
}

#[test]
fn export_twice_gives_same_file() {
    let counter = TokenCounter::p50k().unwrap();
    let start = State::Chatting { messages: vec![reply("Hello\n\n\n\n"), reply("Again")] };
    let (s, a1) = step(start, Event::Command(Command::Export), &counter);
    let (_, a2) = step(s, Event::Command(Command::Export), &counter);
    let f1 = match a1 {
        Action::SendExport(t) => t,
        _ => panic!("expected an export"),
    };
    let f2 = match a2 {
        Action::SendExport(t) => t,
        _ => panic!("expected an export"),
    };
    assert_eq!(f1, "Socrates: Hello\n\nSocrates: Again");
    assert_eq!(f1, f2);
}

#[test]
fn help_keeps_state() {
    let counter = TokenCounter::p50k().unwrap();
    let (s, a) = step(State::Start, Event::Command(Command::Help), &counter);
    assert!(matches!(s, State::Start));
    assert!(matches!(a, Action::ShowHelp));
}

#[test]
fn too_long_turn_falls_back_to_bare_instruction() {
    let counter = TokenCounter::p50k().unwrap();
    let long = "word ".repeat(3000);
    let start = State::Chatting { messages: vec![reply("Hello.")] };
    let (s, a) = step(start, text_event(&long), &counter);
    match a {
        Action::Complete { prompt, pending } => {
            assert_eq!(prompt, BASE_PROMPT);
            assert_eq!(pending.len(), 2);
        }
        _ => panic!("expected a completion"),
    }
    match s {
        State::Chatting { messages } => assert_eq!(messages.len(), 1),
        State::Start => panic!("expected a conversation"),
    }
}

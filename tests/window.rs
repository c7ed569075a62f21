use socrates_journal::prompt::{fits_budget, render, select_window, TokenCounter, WindowError};
use socrates_journal::{JournalMessage, Speaker, Timestamp};

fn conversation(n: usize) -> Vec<JournalMessage> {
    (0..n)
        .map(|i| {
            let speaker = if i % 2 == 0 { Speaker::Assistant } else { Speaker::User };
            let text = format!("message number {} with a few words in it", i);
            JournalMessage::at(speaker, text, Timestamp { secs: i as i64, nanos: 0 })
        })
        .collect()
}

#[test]
fn token_count_of_known_text() {
    let counter = TokenCounter::p50k().unwrap();
    assert_eq!(counter.count("hello world"), Some(2));
    assert_eq!(counter.count(""), Some(0));
}

#[test]
fn whole_conversation_when_it_fits() {
    let counter = TokenCounter::p50k().unwrap();
    let msgs = conversation(7);
    let out = select_window(&counter, "Base\nYou:", &msgs, 10_000, 5).unwrap();
    assert_eq!(out, render("Base\nYou:", &msgs));
}

#[test]
fn window_skips_whole_messages_in_steps() {
    let counter = TokenCounter::p50k().unwrap();
    let msgs = conversation(12);
    let at_ten = render("Base\nYou:", &msgs[10..]);
    let limit = counter.count(&at_ten).unwrap();
    assert!(counter.count(&render("Base\nYou:", &msgs)).unwrap() > limit);
    assert!(counter.count(&render("Base\nYou:", &msgs[5..])).unwrap() > limit);
    let out = select_window(&counter, "Base\nYou:", &msgs, limit, 5).unwrap();
    assert_eq!(out, at_ten);
}

#[test]
fn window_falls_back_to_bare_instruction() {
    let counter = TokenCounter::p50k().unwrap();
    let msgs = conversation(7);
    let bare = render("Base\nYou:", &[]);
    let limit = counter.count(&bare).unwrap();
    let out = select_window(&counter, "Base\nYou:", &msgs, limit, 5).unwrap();
    assert_eq!(out, "Base\nYou:");
}

#[test]
fn no_window_when_even_bare_instruction_is_too_long() {
    let counter = TokenCounter::p50k().unwrap();
    let msgs = conversation(3);
    assert_eq!(
        select_window(&counter, "Base\nYou:", &msgs, 1, 5),
        Err(WindowError::NoFittingWindow)
    );
    assert_eq!(
        select_window(&counter, "Base\nYou:", &[], 1, 5),
        Err(WindowError::NoFittingWindow)
    );
}

#[test]
fn budget_is_inclusive() {
    assert!(fits_budget(Some(2048), 2048));
    assert!(!fits_budget(Some(2049), 2048));
    assert!(fits_budget(Some(0), 0));
    assert!(!fits_budget(None, 2048));
}

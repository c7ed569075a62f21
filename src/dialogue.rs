use vstd::prelude::*;

use crate::completion::UpstreamError;
use crate::export::{export_spec, messages_to_export_format};
use crate::message::{JournalMessage, MessageView, Speaker, Timestamp, copy_messages, views_of};
use crate::prompt::{
    BASE_PROMPT,
    MAX_PROMPT_TOKENS,
    TokenCounter,
    WINDOW_STEP,
    render,
    render_spec,
    select_window,
    select_window_spec,
};
use crate::text::{trim, trimmed};

verus! {

/// Said when a conversation is ended.
pub const END_TEXT: &'static str = "Our conversation has ended. Thank you for taking the time to talk with me today! Type /start to begin a new conversation at a later time.";

/// Said when an export is asked for before any conversation.
pub const NOTHING_TO_EXPORT_TEXT: &'static str = "There aren't any messages to export yet. Try chatting with me for a while before running this command!";

/// Said before the exported conversation is sent.
pub const EXPORT_NOTICE_TEXT: &'static str = "Exporting our current conversation so far. Give me one second!";

/// Name of the file that holds an exported conversation.
pub const EXPORT_FILE_NAME: &'static str = "SocratesJournalBot.txt";

/// A session: no conversation yet, or one under way with its messages.
#[derive(Clone, Debug)]
pub enum State {
    Start,
    Chatting { messages: Vec<JournalMessage> },
}

pub enum SessionView {
    Idle,
    Active(Seq<MessageView>),
}

impl View for State {
    type V = SessionView;

    open spec fn view(&self) -> SessionView {
        match self {
            State::Start => SessionView::Idle,
            State::Chatting { messages } => SessionView::Active(views_of(messages@)),
        }
    }
}

/// The commands a user may give.
#[derive(Clone, Copy, Debug, PartialEq, Eq, Structural)]
pub enum Command {
    Help,
    Export,
    End,
}

/// What arrives from the chat: a command, or a message that may carry text.
pub enum Event {
    Command(Command),
    Message { text: Option<String>, timestamp: Timestamp },
}

pub enum EventView {
    Command(Command),
    Message { text: Option<Seq<char>>, timestamp: Timestamp },
}

impl View for Event {
    type V = EventView;

    open spec fn view(&self) -> EventView {
        match self {
            Event::Command(c) => EventView::Command(*c),
            Event::Message { text, timestamp } => EventView::Message {
                text: match text {
                    Some(t) => Some(t@),
                    None => None,
                },
                timestamp: *timestamp,
            },
        }
    }
}

/// Why a turn produced no reply.
#[derive(Clone, Copy, Debug, PartialEq, Eq, Structural)]
pub enum TurnError {
    NoFittingWindow,
    Upstream,
}

/// What the session asks its host to do.
pub enum Action {
    /// Nothing: the event is dropped.
    Nothing,
    /// Show the list of commands.
    ShowHelp,
    /// Send a text to the user.
    Send(String),
    /// Send the exported conversation as a file.
    SendExport(String),
    /// Ask the model to complete `prompt`, then finish the turn with `pending`.
    Complete { prompt: String, pending: Vec<JournalMessage> },
    /// Tell the user that the turn failed.
    Fail(TurnError),
}

pub enum ActionView {
    Nothing,
    ShowHelp,
    Send(Seq<char>),
    SendExport(Seq<char>),
    Complete { prompt: Seq<char>, pending: Seq<MessageView> },
    Fail(TurnError),
}

impl View for Action {
    type V = ActionView;

    open spec fn view(&self) -> ActionView {
        match self {
            Action::Nothing => ActionView::Nothing,
            Action::ShowHelp => ActionView::ShowHelp,
            Action::Send(t) => ActionView::Send(t@),
            Action::SendExport(t) => ActionView::SendExport(t@),
            Action::Complete { prompt, pending } => ActionView::Complete {
                prompt: prompt@,
                pending: views_of(pending@),
            },
            Action::Fail(e) => ActionView::Fail(*e),
        }
    }
}

/// The user's turn made of a message text: its text trimmed.
pub open spec fn user_turn(text: Seq<char>, timestamp: Timestamp) -> MessageView {
    MessageView { speaker: Speaker::User, text: trim(text), timestamp }
}

/// What the session does on an event, and the state it is left in.
pub open spec fn step_spec(s: SessionView, e: EventView) -> (SessionView, ActionView) {
    match e {
        EventView::Command(Command::End) => (SessionView::Idle, ActionView::Send(END_TEXT@)),
        EventView::Command(Command::Help) => (s, ActionView::ShowHelp),
        EventView::Command(Command::Export) => match s {
            SessionView::Idle => (s, ActionView::Send(NOTHING_TO_EXPORT_TEXT@)),
            SessionView::Active(ms) => (s, ActionView::SendExport(export_spec(ms))),
        },
        EventView::Message { text, timestamp } => match s {
            SessionView::Idle => (
                s,
                ActionView::Complete {
                    prompt: render_spec(BASE_PROMPT@, Seq::empty()),
                    pending: Seq::empty(),
                },
            ),
            SessionView::Active(ms) => match text {
                Some(t) if trim(t).len() > 0 => {
                    let pending = ms.push(user_turn(t, timestamp));
                    match select_window_spec(
                        BASE_PROMPT@,
                        pending,
                        MAX_PROMPT_TOKENS,
                        WINDOW_STEP as nat,
                    ) {
                        Some(p) => (s, ActionView::Complete { prompt: p, pending }),
                        None => (s, ActionView::Fail(TurnError::NoFittingWindow)),
                    }
                },
                _ => (s, ActionView::Nothing),
            },
        },
    }
}

/// How a turn ends once the model replied (`Some`) or failed (`None`).
pub open spec fn finish_spec(
    s: SessionView,
    pending: Seq<MessageView>,
    reply: Option<MessageView>,
) -> (SessionView, ActionView) {
    match reply {
        Some(m) => (SessionView::Active(pending.push(m)), ActionView::Send(m.text)),
        None => (s, ActionView::Fail(TurnError::Upstream)),
    }
}

/// Handles one event of a session.
pub fn step(state: State, event: Event, counter: &TokenCounter) -> (r: (State, Action))
    ensures
        (r.0@, r.1@) == step_spec(state@, event@),
{
    match event {
        Event::Command(Command::End) => (State::Start, Action::Send(String::from_str(END_TEXT))),
        Event::Command(Command::Help) => (state, Action::ShowHelp),
        Event::Command(Command::Export) => match state {
            State::Start => (State::Start, Action::Send(String::from_str(NOTHING_TO_EXPORT_TEXT))),
            State::Chatting { messages } => {
                let content = messages_to_export_format(messages.as_slice());
                (State::Chatting { messages }, Action::SendExport(content))
            },
        },
        Event::Message { text, timestamp } => match state {
            State::Start => {
                let pending: Vec<JournalMessage> = Vec::new();
                let prompt = render(BASE_PROMPT, pending.as_slice());
                proof {
                    assert(views_of(pending@) =~= Seq::<MessageView>::empty());
                }
                (State::Start, Action::Complete { prompt, pending })
            },
            State::Chatting { messages } => match text {
                None => (State::Chatting { messages }, Action::Nothing),
                Some(t) => {
                    let user_text = trimmed(t.as_str());
                    if user_text.as_str().is_empty() {
                        (State::Chatting { messages }, Action::Nothing)
                    } else {
                        let mut pending = copy_messages(messages.as_slice());
                        let user = JournalMessage::at(Speaker::User, user_text, timestamp);
                        proof {
                            assert(views_of(pending@.push(user)) =~= views_of(pending@).push(
                                user@,
                            ));
                        }
                        pending.push(user);
                        match select_window(
                            counter,
                            BASE_PROMPT,
                            pending.as_slice(),
                            MAX_PROMPT_TOKENS,
                            WINDOW_STEP,
                        ) {
                            Ok(prompt) => (
                                State::Chatting { messages },
                                Action::Complete { prompt, pending },
                            ),
                            Err(_) => (
                                State::Chatting { messages },
                                Action::Fail(TurnError::NoFittingWindow),
                            ),
                        }
                    }
                },
            },
        },
    }
}

/// Ends a turn with the model's reply, or with its failure; a failed turn
/// leaves the session as it was.
pub fn finish_turn(
    state: State,
    pending: Vec<JournalMessage>,
    reply: Result<JournalMessage, UpstreamError>,
) -> (r: (State, Action))
    ensures
        (r.0@, r.1@) == finish_spec(
            state@,
            views_of(pending@),
            match reply {
                Ok(m) => Some(m@),
                Err(_) => None,
            },
        ),
{
    match reply {
        Ok(m) => {
            let ghost before = pending@;
            let text = m.text.clone();
            let mut messages = pending;
            messages.push(m);
            proof {
                assert(views_of(messages@) =~= views_of(before).push(m@));
            }
            (State::Chatting { messages }, Action::Send(text))
        },
        Err(_) => (state, Action::Fail(TurnError::Upstream)),
    }
}

/// The first message of a session, whatever it says, opens a conversation
/// that holds exactly the model's opening message.
pub proof fn lemma_first_message_opens(text: Option<Seq<char>>, timestamp: Timestamp, opening: MessageView)
    ensures
        ({
            let (s1, a) = step_spec(SessionView::Idle, EventView::Message { text, timestamp });
            &&& s1 == SessionView::Idle
            &&& a matches ActionView::Complete { prompt, pending }
            &&& prompt == render_spec(BASE_PROMPT@, Seq::empty())
            &&& pending.len() == 0
            &&& finish_spec(s1, pending, Some(opening)).0 == SessionView::Active(seq![opening])
        }),
{
    let pending = Seq::<MessageView>::empty();
    assert(pending.push(opening) =~= seq![opening]);
}

/// Ending a conversation, from any state, leaves the session idle with its
/// messages gone: an export after it finds nothing to export.
pub proof fn lemma_end_discards(s: SessionView)
    ensures
        step_spec(s, EventView::Command(Command::End)).0 == SessionView::Idle,
        step_spec(
            step_spec(s, EventView::Command(Command::End)).0,
            EventView::Command(Command::Export),
        ) == (SessionView::Idle, ActionView::Send(NOTHING_TO_EXPORT_TEXT@)),
{
}

/// Exporting leaves the session as it was, so a second export gives the same
/// result as the first.
pub proof fn lemma_export_repeatable(s: SessionView)
    ensures
        ({
            let (s1, a1) = step_spec(s, EventView::Command(Command::Export));
            let (s2, a2) = step_spec(s1, EventView::Command(Command::Export));
            s1 == s && s2 == s && a1 == a2
        }),
{
}

} // verus!

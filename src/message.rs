use vstd::prelude::*;

verus! {

/// A point in time: whole seconds since the Unix epoch and the nanoseconds
/// within that second.
#[derive(Clone, Copy, Debug, PartialEq, Eq, Structural)]
pub struct Timestamp {
    pub secs: i64,
    pub nanos: u32,
}

/// Who wrote a message.
#[derive(Clone, Copy, Debug, PartialEq, Eq, Structural)]
pub enum Speaker {
    User,
    Assistant,
}

/// One utterance of a conversation.
#[derive(Clone, Debug)]
pub struct JournalMessage {
    pub speaker: Speaker,
    pub text: String,
    pub timestamp: Timestamp,
}

/// What a message is, with its text as characters.
pub struct MessageView {
    pub speaker: Speaker,
    pub text: Seq<char>,
    pub timestamp: Timestamp,
}

impl View for JournalMessage {
    type V = MessageView;

    open spec fn view(&self) -> MessageView {
        MessageView { speaker: self.speaker, text: self.text@, timestamp: self.timestamp }
    }
}

/// The views of a sequence of messages.
pub open spec fn views_of(msgs: Seq<JournalMessage>) -> Seq<MessageView> {
    msgs.map_values(|m: JournalMessage| m@)
}

/// Relies on chrono::Utc::now, read as seconds and nanoseconds since the epoch.
#[verifier::external_body]
fn now() -> (r: Timestamp) {
    let t = chrono::Utc::now();
    Timestamp { secs: t.timestamp(), nanos: t.timestamp_subsec_nanos() }
}

impl JournalMessage {
    /// A message written now; `from_bot` tells whether the assistant wrote it.
    pub fn new(text: String, from_bot: bool) -> (r: Self)
        ensures
            r.text@ == text@,
            r.speaker == (if from_bot {
                Speaker::Assistant
            } else {
                Speaker::User
            }),
    {
        let speaker = if from_bot {
            Speaker::Assistant
        } else {
            Speaker::User
        };
        JournalMessage { speaker, text, timestamp: now() }
    }

    /// A message with a given time.
    pub fn at(speaker: Speaker, text: String, timestamp: Timestamp) -> (r: Self)
        ensures
            r@ == (MessageView { speaker, text: text@, timestamp }),
    {
        JournalMessage { speaker, text, timestamp }
    }

    /// A copy of this message.
    pub fn duplicate(&self) -> (r: Self)
        ensures
            r@ == self@,
    {
        JournalMessage { speaker: self.speaker, text: self.text.clone(), timestamp: self.timestamp }
    }

    pub fn from_bot(&self) -> (r: bool)
        ensures
            r == (self.speaker == Speaker::Assistant),
    {
        match self.speaker {
            Speaker::Assistant => true,
            Speaker::User => false,
        }
    }
}

/// A copy of a sequence of messages.
pub fn copy_messages(msgs: &[JournalMessage]) -> (r: Vec<JournalMessage>)
    ensures
        views_of(r@) == views_of(msgs@),
{
    let mut out: Vec<JournalMessage> = Vec::new();
    let mut i: usize = 0;
    while i < msgs.len()
        invariant
            i <= msgs@.len(),
            out@.len() == i,
            forall|j: int| 0 <= j < i ==> out@[j]@ == msgs@[j]@,
        decreases msgs@.len() - i,
    {
        let m = msgs[i].duplicate();
        out.push(m);
        i = i + 1;
    }
    proof {
        assert(views_of(out@) =~= views_of(msgs@));
    }
    out
}

} // verus!

use vstd::prelude::*;

use crate::message::{JournalMessage, MessageView, Speaker, views_of};
use crate::text::{trim, trimmed};

verus! {

/// How a speaker is named in an exported conversation.
pub open spec fn export_label(s: Speaker) -> Seq<char> {
    match s {
        Speaker::Assistant => seq!['S', 'o', 'c', 'r', 'a', 't', 'e', 's'],
        Speaker::User => seq!['M', 'e'],
    }
}

/// `<label>: <text>` and a blank line.
pub open spec fn export_block(m: MessageView) -> Seq<char> {
    export_label(m.speaker) + seq![':', ' '] + m.text + seq!['\n', '\n']
}

pub open spec fn export_blocks(ms: Seq<MessageView>) -> Seq<char>
    decreases ms.len(),
{
    if ms.len() == 0 {
        Seq::empty()
    } else {
        export_blocks(ms.drop_last()) + export_block(ms.last())
    }
}

/// Every run of three or more newlines cut down to two: a newline is dropped
/// exactly when the two characters before it are newlines too.
pub open spec fn collapse_newlines(s: Seq<char>) -> Seq<char>
    decreases s.len(),
{
    if s.len() == 0 {
        Seq::empty()
    } else if s.len() >= 3 && s.last() == '\n' && s[s.len() - 2] == '\n' && s[s.len() - 3]
        == '\n' {
        collapse_newlines(s.drop_last())
    } else {
        collapse_newlines(s.drop_last()).push(s.last())
    }
}

/// The exported text of a conversation.
pub open spec fn export_spec(ms: Seq<MessageView>) -> Seq<char> {
    collapse_newlines(trim(export_blocks(ms)))
}

/// The pattern of a run of three or more newlines.
pub open spec fn newline_run_pattern() -> Seq<char> {
    seq!['\n', '{', '3', ',', '}']
}

/// Relies on regex::Regex::new and Regex::replace_all: the pattern `\n{3,}`
/// compiles, and each of its matches, taken leftmost and longest, is a whole
/// run of three or more newlines, which is replaced by two newlines.
#[verifier::external_body]
fn replace_newline_runs(pattern: &str, text: &str, replacement: &str) -> (r: String)
    requires
        pattern@ == newline_run_pattern(),
        replacement@ == seq!['\n', '\n'],
    ensures
        r@ == collapse_newlines(text@),
{
    regex::Regex::new(pattern).unwrap().replace_all(text, replacement).into_owned()
}

proof fn lemma_blocks_step(msgs: Seq<JournalMessage>, i: int)
    requires
        0 <= i < msgs.len(),
    ensures
        export_blocks(views_of(msgs.take(i + 1))) == export_blocks(views_of(msgs.take(i)))
            + export_block(msgs[i]@),
{
    let a = views_of(msgs.take(i + 1));
    assert(a.drop_last() =~= views_of(msgs.take(i)));
    assert(a.last() == msgs[i]@);
}

/// The conversation as plain text: one block per message, trimmed, with runs
/// of blank lines shortened.
pub fn messages_to_export_format(msgs: &[JournalMessage]) -> (r: String)
    ensures
        r@ == export_spec(views_of(msgs@)),
{
    let mut out = String::new();
    let mut i: usize = 0;
    proof {
        assert(views_of(msgs@.take(0)) =~= Seq::<MessageView>::empty());
    }
    while i < msgs.len()
        invariant
            i <= msgs@.len(),
            out@ == export_blocks(views_of(msgs@.take(i as int))),
        decreases msgs@.len() - i,
    {
        proof {
            reveal_strlit("Socrates");
            reveal_strlit("Me");
            reveal_strlit(": ");
            reveal_strlit("\n\n");
        }
        let m = &msgs[i];
        match m.speaker {
            Speaker::Assistant => out.append("Socrates"),
            Speaker::User => out.append("Me"),
        }
        out.append(": ");
        out.append(m.text.as_str());
        out.append("\n\n");
        proof {
            lemma_blocks_step(msgs@, i as int);
        }
        i = i + 1;
    }
    proof {
        assert(msgs@.take(msgs@.len() as int) =~= msgs@);
        reveal_strlit("\n{3,}");
        reveal_strlit("\n\n");
        assert("\n{3,}"@ =~= newline_run_pattern());
        assert("\n\n"@ =~= seq!['\n', '\n']);
    }
    let t = trimmed(out.as_str());
    replace_newline_runs("\n{3,}", t.as_str(), "\n\n")
}

} // verus!

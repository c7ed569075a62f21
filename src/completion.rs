use vstd::prelude::*;

use crate::message::{JournalMessage, Speaker};
use crate::prompt::{assistant_cue, assistant_cue_chars, user_cue, user_cue_chars};
use crate::text::{
    char_is_ws,
    chars_of,
    ends_with,
    first_non_ws,
    is_ws,
    prefix_ends_with,
    string_from_chars,
    trim_start,
};

verus! {

/// The completion model that is asked.
pub const COMPLETION_MODEL: &'static str = "text-davinci-003";

/// Most tokens that one reply may take.
pub const MAX_COMPLETION_TOKENS: u32 = 150;

/// Why the upstream model gave no reply.
#[derive(Clone, Debug)]
pub enum UpstreamError {
    /// The response held no candidate.
    NoCandidate,
    /// The first candidate held nothing once its cues and whitespace went.
    EmptyCandidate,
    /// The request failed or its response could not be read.
    Request(String),
}

/// Credentials for the upstream completion service.
#[derive(Clone)]
pub struct OpenAiApi {
    pub api_token: String,
}

/// What is sent to the completion service, sampling temperatures aside.
pub struct CompletionRequest {
    pub model: String,
    pub prompt: String,
    pub max_tokens: u32,
    pub top_p: u32,
    pub stop: Vec<String>,
}

impl OpenAiApi {
    pub fn new(api_token: String) -> (r: Self)
        ensures
            r.api_token == api_token,
    {
        OpenAiApi { api_token }
    }

    /// The value of the `Authorization` header: `Bearer <token>`.
    pub fn authorization(&self) -> (r: String)
        ensures
            r@ == seq!['B', 'e', 'a', 'r', 'e', 'r', ' '] + self.api_token@,
    {
        proof {
            reveal_strlit("Bearer ");
        }
        let mut r = String::from_str("Bearer ");
        r.append(self.api_token.as_str());
        r
    }

    /// The request for a completion of `prompt`; it stops at either cue.
    pub fn request(&self, prompt: &str) -> (r: CompletionRequest)
        ensures
            r.model@ == COMPLETION_MODEL@,
            r.prompt@ == prompt@,
            r.max_tokens == MAX_COMPLETION_TOKENS,
            r.top_p == 1,
            r.stop@.len() == 2,
            r.stop@[0]@ == assistant_cue(),
            r.stop@[1]@ == user_cue(),
    {
        let mut stop: Vec<String> = Vec::new();
        stop.push(string_from_chars(assistant_cue_chars().as_slice()));
        stop.push(string_from_chars(user_cue_chars().as_slice()));
        CompletionRequest {
            model: String::from_str(COMPLETION_MODEL),
            prompt: String::from_str(prompt),
            max_tokens: MAX_COMPLETION_TOKENS,
            top_p: 1,
            stop,
        }
    }
}

/// `s` with trailing whitespace and trailing cues removed, repeatedly.
pub open spec fn strip_cues(s: Seq<char>) -> Seq<char>
    decreases s.len(),
{
    if s.len() > 0 && is_ws(s.last()) {
        strip_cues(s.drop_last())
    } else if s.len() >= 4 && ends_with(s, assistant_cue()) {
        strip_cues(s.take(s.len() - 4))
    } else if s.len() >= 3 && ends_with(s, user_cue()) {
        strip_cues(s.take(s.len() - 3))
    } else {
        s
    }
}

/// The text of a candidate, without leading whitespace and without the cues
/// and whitespace that the model left at its end.
pub open spec fn clean_reply(s: Seq<char>) -> Seq<char> {
    strip_cues(trim_start(s))
}

/// The text of a candidate as it is kept.
pub fn clean_completion(text: &str) -> (r: String)
    ensures
        r@ == clean_reply(text@),
{
    let v = chars_of(text);
    let you = assistant_cue_chars();
    let me = user_cue_chars();
    let i = first_non_ws(&v);
    let mut n: usize = v.len();
    proof {
        assert(v@.skip(i as int) =~= v@.subrange(i as int, n as int));
    }
    loop
        invariant
            i <= n <= v.len(),
            you@ == assistant_cue(),
            me@ == user_cue(),
            clean_reply(v@) == strip_cues(v@.subrange(i as int, n as int)),
        ensures
            i <= n <= v.len(),
            clean_reply(v@) == v@.subrange(i as int, n as int),
        decreases n,
    {
        let ghost s = v@.subrange(i as int, n as int);
        if n > i && char_is_ws(v[n - 1]) {
            proof {
                assert(s.last() == v@[n - 1]);
                assert(s.drop_last() =~= v@.subrange(i as int, n - 1));
            }
            n = n - 1;
        } else if n - i >= 4 && prefix_ends_with(&v, n, &you) {
            proof {
                assert(s.subrange(s.len() - 4, s.len() as int) =~= v@.take(n as int).subrange(
                    n - 4,
                    n as int,
                ));
                assert(s.take(s.len() - 4) =~= v@.subrange(i as int, n - 4));
            }
            n = n - 4;
        } else if n - i >= 3 && prefix_ends_with(&v, n, &me) {
            proof {
                if n - i >= 4 {
                    assert(s.subrange(s.len() - 4, s.len() as int) =~= v@.take(n as int).subrange(
                        n - 4,
                        n as int,
                    ));
                }
                assert(s.subrange(s.len() - 3, s.len() as int) =~= v@.take(n as int).subrange(
                    n - 3,
                    n as int,
                ));
                assert(s.take(s.len() - 3) =~= v@.subrange(i as int, n - 3));
            }
            n = n - 3;
        } else {
            proof {
                if n > i {
                    assert(s.last() == v@[n - 1]);
                }
                if n - i >= 4 {
                    assert(s.subrange(s.len() - 4, s.len() as int) =~= v@.take(n as int).subrange(
                        n - 4,
                        n as int,
                    ));
                }
                if n - i >= 3 {
                    assert(s.subrange(s.len() - 3, s.len() as int) =~= v@.take(n as int).subrange(
                        n - 3,
                        n as int,
                    ));
                }
                assert(strip_cues(s) == s);
            }
            break ;
        }
    }
    let mut out: Vec<char> = Vec::new();
    let mut k: usize = i;
    while k < n
        invariant
            i <= k <= n <= v.len(),
            out@ == v@.subrange(i as int, k as int),
        decreases n - k,
    {
        out.push(v[k]);
        proof {
            assert(out@ =~= v@.subrange(i as int, k + 1));
        }
        k = k + 1;
    }
    string_from_chars(out.as_slice())
}

/// The assistant's message made of the first candidate of a response.
pub fn reply_from_choices(choices: &Vec<String>) -> (r: Result<JournalMessage, UpstreamError>)
    ensures
        choices@.len() == 0 ==> r matches Err(UpstreamError::NoCandidate),
        choices@.len() > 0 && clean_reply(choices@[0]@).len() == 0 ==> r matches Err(
            UpstreamError::EmptyCandidate,
        ),
        choices@.len() > 0 && clean_reply(choices@[0]@).len() > 0 ==> (r matches Ok(m) && m.text@
            == clean_reply(choices@[0]@) && m.speaker == Speaker::Assistant),
{
    if choices.len() == 0 {
        return Err(UpstreamError::NoCandidate);
    }
    let text = clean_completion(choices[0].as_str());
    if text.as_str().is_empty() {
        return Err(UpstreamError::EmptyCandidate);
    }
    Ok(JournalMessage::new(text, true))
}

proof fn lemma_trim_start_concat(t: Seq<char>, u: Seq<char>)
    ensures
        trim_start(t + u) == (if trim_start(t).len() > 0 {
            trim_start(t) + u
        } else {
            trim_start(u)
        }),
    decreases t.len(),
{
    if t.len() == 0 {
        assert(t + u =~= u);
    } else if is_ws(t[0]) {
        assert((t + u)[0] == t[0]);
        assert((t + u).drop_first() =~= t.drop_first() + u);
        lemma_trim_start_concat(t.drop_first(), u);
    } else {
        assert((t + u)[0] == t[0]);
    }
}

proof fn lemma_strip_whitespace_tail(x: Seq<char>, tail: Seq<char>)
    requires
        forall|i: int| 0 <= i < tail.len() ==> is_ws(tail[i]),
    ensures
        strip_cues(x + tail) == strip_cues(x),
    decreases tail.len(),
{
    if tail.len() == 0 {
        assert(x + tail =~= x);
    } else {
        let y = x + tail;
        assert(y.last() == tail.last());
        assert(y.drop_last() =~= x + tail.drop_last());
        lemma_strip_whitespace_tail(x, tail.drop_last());
    }
}

proof fn lemma_strip_cue(x: Seq<char>, cue: Seq<char>)
    requires
        cue == assistant_cue() || cue == user_cue(),
    ensures
        strip_cues(x + cue) == strip_cues(x),
{
    let y = x + cue;
    assert(y.last() == cue.last());
    if cue == assistant_cue() {
        assert(y.subrange(y.len() - 4, y.len() as int) =~= assistant_cue());
        assert(y.take(y.len() - 4) =~= x);
    } else {
        assert(y.subrange(y.len() - 3, y.len() as int) =~= user_cue());
        if y.len() >= 4 {
            assert(y.subrange(y.len() - 4, y.len() as int)[1] == 'M');
        }
        assert(y.take(y.len() - 3) =~= x);
    }
}

/// A candidate that ends with either cue and then whitespace is kept without
/// that cue and that whitespace.
pub proof fn lemma_trailing_cue_stripped(body: Seq<char>, cue: Seq<char>, tail: Seq<char>)
    requires
        cue == assistant_cue() || cue == user_cue(),
        forall|i: int| 0 <= i < tail.len() ==> is_ws(tail[i]),
    ensures
        clean_reply(body + cue + tail) == clean_reply(body),
{
    let ct = cue + tail;
    assert(ct[0] == cue[0]);
    assert(trim_start(ct) == ct);
    assert(body + cue + tail =~= body + ct);
    lemma_trim_start_concat(body, ct);
    let x = trim_start(body);
    if x.len() == 0 {
        assert(x + ct =~= ct);
    }
    assert(trim_start(body + cue + tail) == x + ct);
    assert(x + ct =~= (x + cue) + tail);
    lemma_strip_whitespace_tail(x + cue, tail);
    lemma_strip_cue(x, cue);
}

} // verus!

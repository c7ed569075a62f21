use vstd::prelude::*;

use crate::message::{JournalMessage, MessageView, Speaker, views_of};
use crate::text::{chars_of, ends_with, prefix_ends_with, string_from_chars};

verus! {

/// Largest prompt, in tokens, that the completion model accepts.
pub const MAX_PROMPT_TOKENS: usize = 2048;

/// How many of the oldest messages each further window leaves out.
pub const WINDOW_STEP: usize = 5;

/// The instruction that opens every prompt; it ends with the assistant's cue.
pub const BASE_PROMPT: &'static str = "You are Socrates. Please help me with an issue in my life. Please ask me questions to try to understand what my issue is and help me unpack it. You can start the conversation however you feel best.\nYou:";

/// The cue after which the model writes the assistant's turn.
pub open spec fn assistant_cue() -> Seq<char> {
    seq!['Y', 'o', 'u', ':']
}

/// The cue that starts a turn of the user.
pub open spec fn user_cue() -> Seq<char> {
    seq!['M', 'e', ':']
}

/// How a speaker is named in a prompt.
pub open spec fn prompt_label(s: Speaker) -> Seq<char> {
    match s {
        Speaker::Assistant => seq!['Y', 'o', 'u'],
        Speaker::User => seq!['M', 'e'],
    }
}

/// `<label>: <text>` and a newline.
pub open spec fn prompt_line(m: MessageView) -> Seq<char> {
    prompt_label(m.speaker) + seq![':', ' '] + m.text + seq!['\n']
}

pub open spec fn prompt_lines(ms: Seq<MessageView>) -> Seq<char>
    decreases ms.len(),
{
    if ms.len() == 0 {
        Seq::empty()
    } else {
        prompt_lines(ms.drop_last()) + prompt_line(ms.last())
    }
}

/// `base` with every trailing assistant cue removed.
pub open spec fn without_cue(base: Seq<char>) -> Seq<char>
    decreases base.len(),
{
    if base.len() >= 4 && ends_with(base, assistant_cue()) {
        without_cue(base.take(base.len() - 4))
    } else {
        base
    }
}

/// The prompt for a conversation: the instruction without its cue, one line
/// per message, and the bare assistant cue.
pub open spec fn render_spec(base: Seq<char>, ms: Seq<MessageView>) -> Seq<char> {
    without_cue(base) + prompt_lines(ms) + assistant_cue()
}

/// Number of p50k tokens in a text, or `None` where the tokenizer gives up on it.
pub uninterp spec fn p50k_token_count(text: Seq<char>) -> Option<usize>;

/// A token count is within budget when it is known and at most `max_tokens`.
pub open spec fn within_budget(count: Option<usize>, max_tokens: usize) -> bool {
    match count {
        Some(n) => n <= max_tokens,
        None => false,
    }
}

/// A prompt fits when its token count is within budget.
pub open spec fn fits(prompt: Seq<char>, max_tokens: usize) -> bool {
    within_budget(p50k_token_count(prompt), max_tokens)
}

/// The first window, among those that leave out `skip`, `skip + step`, ...
/// (while fewer than all) of the oldest messages and lastly all of them, whose
/// prompt fits.
pub open spec fn window_from(
    base: Seq<char>,
    ms: Seq<MessageView>,
    max_tokens: usize,
    step: nat,
    skip: nat,
) -> Option<Seq<char>>
    decreases ms.len() - skip when step > 0
{
    if skip >= ms.len() {
        let p = render_spec(base, Seq::empty());
        if fits(p, max_tokens) {
            Some(p)
        } else {
            None
        }
    } else {
        let p = render_spec(base, ms.skip(skip as int));
        if fits(p, max_tokens) {
            Some(p)
        } else {
            let next = if skip + step >= ms.len() {
                ms.len()
            } else {
                skip + step
            };
            window_from(base, ms, max_tokens, step, next)
        }
    }
}

/// The prompt that the window selector builds for a whole conversation.
pub open spec fn select_window_spec(
    base: Seq<char>,
    ms: Seq<MessageView>,
    max_tokens: usize,
    step: nat,
) -> Option<Seq<char>> {
    window_from(base, ms, max_tokens, step, 0)
}

/// Why no prompt could be built.
#[derive(Clone, Copy, Debug, PartialEq, Eq, Structural)]
pub enum WindowError {
    NoFittingWindow,
}

/// The model's tokenizer, built once and shared by every turn.
pub struct TokenCounter {
    bpe: tiktoken_rs::CoreBPE,
}

#[verifier::external_type_specification]
#[verifier::external_body]
pub struct ExCoreBPE(tiktoken_rs::CoreBPE);

/// Relies on tiktoken_rs::p50k_base: builds the p50k tokenizer from the table
/// that the crate embeds; it fails only if that table does not decode.
#[verifier::external_body]
fn load_p50k() -> (r: Option<tiktoken_rs::CoreBPE>) {
    tiktoken_rs::p50k_base().ok()
}

impl TokenCounter {
    /// The p50k tokenizer, or `None` where it cannot be built.
    pub fn p50k() -> (r: Option<TokenCounter>) {
        match load_p50k() {
            Some(bpe) => Some(TokenCounter { bpe }),
            None => None,
        }
    }

    /// Relies on tiktoken_rs::CoreBPE::encode, with the tokenizer's own
    /// CoreBPE::special_tokens allowed: the number of tokens of `text`, or an
    /// error where its pattern matcher gives up. Both depend on the text alone,
    /// since a counter only ever holds the p50k tokenizer.
    #[verifier::external_body]
    fn encoded_len(&self, text: &str) -> (r: Option<usize>)
        ensures
            r == p50k_token_count(text@),
    {
        self.bpe.encode(text, &self.bpe.special_tokens()).ok().map(|(tokens, _)| tokens.len())
    }

    /// Number of tokens in `text`.
    pub fn count(&self, text: &str) -> (r: Option<usize>)
        ensures
            r == p50k_token_count(text@),
    {
        self.encoded_len(text)
    }
}

/// The characters of the assistant cue.
pub(crate) fn assistant_cue_chars() -> (r: Vec<char>)
    ensures
        r@ == assistant_cue(),
{
    let mut v: Vec<char> = Vec::new();
    v.push('Y');
    v.push('o');
    v.push('u');
    v.push(':');
    assert(v@ =~= assistant_cue());
    v
}

/// The characters of the user cue.
pub(crate) fn user_cue_chars() -> (r: Vec<char>)
    ensures
        r@ == user_cue(),
{
    let mut v: Vec<char> = Vec::new();
    v.push('M');
    v.push('e');
    v.push(':');
    assert(v@ =~= user_cue());
    v
}

/// `base` without its trailing assistant cues.
fn base_without_cue(base: &str) -> (r: String)
    ensures
        r@ == without_cue(base@),
{
    let v = chars_of(base);
    let cue = assistant_cue_chars();
    let mut n: usize = v.len();
    proof {
        assert(v@.take(v.len() as int) =~= v@);
    }
    while prefix_ends_with(&v, n, &cue)
        invariant
            n <= v.len(),
            cue@ == assistant_cue(),
            without_cue(v@) == without_cue(v@.take(n as int)),
        decreases n,
    {
        proof {
            assert(v@.take(n as int).take(n - 4) =~= v@.take(n - 4));
        }
        n = n - 4;
    }
    let mut out: Vec<char> = Vec::new();
    let mut i: usize = 0;
    while i < n
        invariant
            i <= n <= v.len(),
            out@ == v@.take(i as int),
        decreases n - i,
    {
        out.push(v[i]);
        proof {
            assert(out@ =~= v@.take(i + 1));
        }
        i = i + 1;
    }
    string_from_chars(out.as_slice())
}

proof fn lemma_views_step(msgs: Seq<JournalMessage>, from: int, i: int)
    requires
        0 <= from <= i < msgs.len(),
    ensures
        prompt_lines(views_of(msgs.subrange(from, i + 1))) == prompt_lines(
            views_of(msgs.subrange(from, i)),
        ) + prompt_line(msgs[i]@),
{
    let a = views_of(msgs.subrange(from, i + 1));
    assert(a.drop_last() =~= views_of(msgs.subrange(from, i)));
    assert(a.last() == msgs[i]@);
}

/// The prompt for the messages of `msgs` from index `from` on.
fn render_suffix(base: &str, msgs: &[JournalMessage], from: usize) -> (r: String)
    requires
        from <= msgs@.len(),
    ensures
        r@ == render_spec(base@, views_of(msgs@.skip(from as int))),
{
    let mut out = base_without_cue(base);
    let mut i: usize = from;
    proof {
        assert(views_of(msgs@.subrange(from as int, from as int)) =~= Seq::<MessageView>::empty());
    }
    while i < msgs.len()
        invariant
            from <= i <= msgs@.len(),
            out@ == without_cue(base@) + prompt_lines(views_of(msgs@.subrange(from as int, i as int))),
        decreases msgs@.len() - i,
    {
        proof {
            reveal_strlit("You");
            reveal_strlit("Me");
            reveal_strlit(": ");
            reveal_strlit("\n");
        }
        let m = &msgs[i];
        match m.speaker {
            Speaker::Assistant => out.append("You"),
            Speaker::User => out.append("Me"),
        }
        out.append(": ");
        out.append(m.text.as_str());
        out.append("\n");
        proof {
            lemma_views_step(msgs@, from as int, i as int);
        }
        i = i + 1;
    }
    proof {
        reveal_strlit("You:");
    }
    out.append("You:");
    proof {
        assert(msgs@.subrange(from as int, msgs@.len() as int) =~= msgs@.skip(from as int));
    }
    out
}

/// The prompt for `msgs` under the instruction `base`.
pub fn render(base: &str, msgs: &[JournalMessage]) -> (r: String)
    ensures
        r@ == render_spec(base@, views_of(msgs@)),
{
    proof {
        assert(msgs@.skip(0) =~= msgs@);
    }
    render_suffix(base, msgs, 0)
}

/// The prompt for `msgs` under the journaling instruction.
pub fn convert_to_prompt_format(msgs: &[JournalMessage]) -> (r: String)
    ensures
        r@ == render_spec(BASE_PROMPT@, views_of(msgs@)),
{
    render(BASE_PROMPT, msgs)
}

/// Whether a prompt of `count` tokens fits in `max_tokens`; a prompt whose
/// count is unknown does not.
pub fn fits_budget(count: Option<usize>, max_tokens: usize) -> (r: bool)
    ensures
        r == within_budget(count, max_tokens),
{
    match count {
        Some(n) => n <= max_tokens,
        None => false,
    }
}

/// Whether `prompt` fits in `max_tokens`.
fn prompt_fits(counter: &TokenCounter, prompt: &String, max_tokens: usize) -> (r: bool)
    ensures
        r == fits(prompt@, max_tokens),
{
    fits_budget(counter.count(prompt.as_str()), max_tokens)
}

/// The prompt for the longest window of `msgs` that fits in `max_tokens`,
/// trying to leave out 0, `step`, `2 * step`, ... of the oldest messages and
/// lastly all of them; whole messages only are ever left out.
pub fn select_window(
    counter: &TokenCounter,
    base: &str,
    msgs: &[JournalMessage],
    max_tokens: usize,
    step: usize,
) -> (r: Result<String, WindowError>)
    requires
        step > 0,
    ensures
        match select_window_spec(base@, views_of(msgs@), max_tokens, step as nat) {
            Some(p) => r matches Ok(s) && s@ == p,
            None => r == Err::<String, WindowError>(WindowError::NoFittingWindow),
        },
{
    let ghost ms = views_of(msgs@);
    let mut skip: usize = 0;
    loop
        invariant
            step > 0,
            skip <= msgs@.len(),
            ms == views_of(msgs@),
            select_window_spec(base@, ms, max_tokens, step as nat) == window_from(
                base@,
                ms,
                max_tokens,
                step as nat,
                skip as nat,
            ),
        decreases msgs@.len() - skip,
    {
        if skip >= msgs.len() {
            let p = render_suffix(base, msgs, msgs.len());
            proof {
                assert(views_of(msgs@.skip(msgs@.len() as int)) =~= Seq::<MessageView>::empty());
            }
            if prompt_fits(counter, &p, max_tokens) {
                return Ok(p);
            } else {
                return Err(WindowError::NoFittingWindow);
            }
        }
        let p = render_suffix(base, msgs, skip);
        proof {
            assert(views_of(msgs@.skip(skip as int)) =~= ms.skip(skip as int));
        }
        if prompt_fits(counter, &p, max_tokens) {
            return Ok(p);
        }
        if step >= msgs.len() - skip {
            skip = msgs.len();
        } else {
            skip = skip + step;
        }
    }
}

/// A prompt starts with the instruction without its trailing cue and ends
/// with the bare assistant cue.
pub proof fn lemma_render_frame(base: Seq<char>, ms: Seq<MessageView>)
    ensures
        render_spec(base, ms).take(without_cue(base).len() as int) == without_cue(base),
        ends_with(render_spec(base, ms), assistant_cue()),
{
    let r = render_spec(base, ms);
    assert(r.take(without_cue(base).len() as int) =~= without_cue(base));
    assert(r.subrange(r.len() - 4, r.len() as int) =~= assistant_cue());
}

/// The prompt is a function of the instruction and the messages alone: equal
/// inputs give equal prompts.
pub proof fn lemma_render_deterministic(
    base1: Seq<char>,
    ms1: Seq<MessageView>,
    base2: Seq<char>,
    ms2: Seq<MessageView>,
)
    requires
        base1 == base2,
        ms1 == ms2,
    ensures
        render_spec(base1, ms1) == render_spec(base2, ms2),
{
}

/// The prompt of the window that leaves out the `i * step` oldest messages.
pub open spec fn nth_window(base: Seq<char>, ms: Seq<MessageView>, step: nat, i: nat) -> Seq<
    char,
> {
    render_spec(base, ms.skip((i * step) as int))
}

spec fn window_after(base: Seq<char>, ms: Seq<MessageView>, skip: nat, step: nat, i: nat) -> Seq<
    char,
> {
    render_spec(base, ms.skip((skip + i * step) as int))
}

proof fn lemma_window_from_first_fit(
    base: Seq<char>,
    ms: Seq<MessageView>,
    max_tokens: usize,
    step: nat,
    skip: nat,
    k: nat,
)
    requires
        step > 0,
        skip + k * step < ms.len(),
        forall|i: nat| i < k ==> !fits(#[trigger] window_after(base, ms, skip, step, i), max_tokens),
        fits(window_after(base, ms, skip, step, k), max_tokens),
    ensures
        window_from(base, ms, max_tokens, step, skip) == Some(window_after(base, ms, skip, step, k)),
    decreases k,
{
    assert(skip + 0 * step == skip);
    if k > 0 {
        assert(!fits(window_after(base, ms, skip, step, 0), max_tokens));
        assert(step <= k * step) by (nonlinear_arith)
            requires
                k >= 1,
        ;
        assert forall|i: nat| i < (k - 1) as nat implies !fits(
            #[trigger] window_after(base, ms, skip + step, step, i),
            max_tokens,
        ) by {
            assert(skip + step + i * step == skip + (i + 1) * step) by (nonlinear_arith);
            assert(!fits(window_after(base, ms, skip, step, i + 1), max_tokens));
        }
        assert(skip + step + (k - 1) as nat * step == skip + k * step) by (nonlinear_arith)
            requires
                k >= 1,
        ;
        lemma_window_from_first_fit(base, ms, max_tokens, step, skip + step, (k - 1) as nat);
    }
}

/// Where the windows that leave out 0, `step`, ..., `(k - 1) * step` of the
/// oldest messages do not fit and the one that leaves out `k * step` (fewer
/// than all) does, the selected prompt is exactly that window's: only whole
/// messages are ever left out.
pub proof fn lemma_window_first_fit(
    base: Seq<char>,
    ms: Seq<MessageView>,
    max_tokens: usize,
    step: nat,
    k: nat,
)
    requires
        step > 0,
        k * step < ms.len(),
        forall|i: nat| i < k ==> !fits(#[trigger] nth_window(base, ms, step, i), max_tokens),
        fits(nth_window(base, ms, step, k), max_tokens),
    ensures
        select_window_spec(base, ms, max_tokens, step) == Some(nth_window(base, ms, step, k)),
{
    assert forall|i: nat| i < k implies !fits(
        #[trigger] window_after(base, ms, 0, step, i),
        max_tokens,
    ) by {
        assert(window_after(base, ms, 0, step, i) == nth_window(base, ms, step, i));
    }
    assert(window_after(base, ms, 0, step, k) == nth_window(base, ms, step, k));
    lemma_window_from_first_fit(base, ms, max_tokens, step, 0, k);
}

proof fn lemma_window_from_suffix(
    base: Seq<char>,
    ms: Seq<MessageView>,
    max_tokens: usize,
    step: nat,
    skip: nat,
)
    requires
        step > 0,
        skip <= ms.len(),
    ensures
        window_from(base, ms, max_tokens, step, skip) matches Some(p) ==> exists|j: int|
            0 <= j <= ms.len() && p == render_spec(base, #[trigger] ms.skip(j)) && fits(
                p,
                max_tokens,
            ),
        (forall|j: int| skip <= j <= ms.len() ==> !fits(render_spec(base, #[trigger] ms.skip(j)), max_tokens))
            ==> window_from(base, ms, max_tokens, step, skip) is None,
    decreases ms.len() - skip,
{
    if skip >= ms.len() {
        assert(ms.skip(ms.len() as int) =~= Seq::<MessageView>::empty());
        assert(render_spec(base, Seq::empty()) == render_spec(base, ms.skip(ms.len() as int)));
    } else {
        let next = if skip + step >= ms.len() {
            ms.len()
        } else {
            skip + step
        };
        lemma_window_from_suffix(base, ms, max_tokens, step, next);
    }
}

/// A selected prompt is the prompt of a whole suffix of the conversation, and
/// it fits.
pub proof fn lemma_window_is_suffix(
    base: Seq<char>,
    ms: Seq<MessageView>,
    max_tokens: usize,
    step: nat,
)
    requires
        step > 0,
    ensures
        select_window_spec(base, ms, max_tokens, step) matches Some(p) ==> exists|j: int|
            0 <= j <= ms.len() && p == render_spec(base, #[trigger] ms.skip(j)) && fits(
                p,
                max_tokens,
            ),
{
    lemma_window_from_suffix(base, ms, max_tokens, step, 0);
}

/// Where no window fits, not even the bare instruction with no message at
/// all, there is no prompt.
pub proof fn lemma_no_window_fits(
    base: Seq<char>,
    ms: Seq<MessageView>,
    max_tokens: usize,
    step: nat,
)
    requires
        step > 0,
        forall|j: int| 0 <= j <= ms.len() ==> !fits(render_spec(base, #[trigger] ms.skip(j)), max_tokens),
    ensures
        select_window_spec(base, ms, max_tokens, step) is None,
{
    lemma_window_from_suffix(base, ms, max_tokens, step, 0);
}

} // verus!

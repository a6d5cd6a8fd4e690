//! The conversation: what a typed line means, the history of turns, and the
//! prompt text built from it (the model's own template when it has one,
//! ChatML otherwise).
use vstd::prelude::*;
use vstd::utf8::encode_utf8;

use crate::text::{chars_eq_str, chars_of, decode_lossy, lossy_utf8, trim, trimmed};

verus! {

/// A history of (role, content) turns, by value.
pub open spec fn turns_view(h: Seq<(String, String)>) -> Seq<(Seq<char>, Seq<char>)> {
    h.map_values(|t: (String, String)| (t.0@, t.1@))
}

// ---------------------------------------------------------------------------
// ChatML
// ---------------------------------------------------------------------------

/// One ChatML turn: `<|im_start|>{role}\n{content}<|im_end|>\n`.
pub open spec fn chatml_turn(role: Seq<char>, content: Seq<char>) -> Seq<char> {
    "<|im_start|>"@ + role + "\n"@ + content + "<|im_end|>\n"@
}

/// All turns of `h` in ChatML, in order.
pub open spec fn chatml_body(h: Seq<(Seq<char>, Seq<char>)>) -> Seq<char>
    decreases h.len(),
{
    if h.len() == 0 {
        Seq::empty()
    } else {
        chatml_body(h.drop_last()) + chatml_turn(h.last().0, h.last().1)
    }
}

/// The ChatML prompt for `h`: its turns, then the opening of the
/// assistant's turn.
pub open spec fn chatml_prompt(h: Seq<(Seq<char>, Seq<char>)>) -> Seq<char> {
    chatml_body(h) + "<|im_start|>assistant\n"@
}

/// The ChatML prompt for a history, used when the model has no template
/// of its own.
pub fn chatml(history: &Vec<(String, String)>) -> (s: String)
    ensures
        s@ == chatml_prompt(turns_view(history@)),
{
    let mut s = String::new();
    let n = history.len();
    let mut i: usize = 0;
    while i < n
        invariant
            n == history@.len(),
            i <= n,
            s@ == chatml_body(turns_view(history@.take(i as int))),
        decreases n - i,
    {
        let ghost before = s@;
        s.append("<|im_start|>");
        s.append(history[i].0.as_str());
        s.append("\n");
        s.append(history[i].1.as_str());
        s.append("<|im_end|>\n");
        proof {
            let h = turns_view(history@.take(i + 1));
            assert(h.drop_last() =~= turns_view(history@.take(i as int)));
            assert(h.last() == (history@[i as int].0@, history@[i as int].1@));
            assert(s@ =~= before + chatml_turn(h.last().0, h.last().1));
        }
        i = i + 1;
    }
    assert(history@.take(n as int) =~= history@);
    s.append("<|im_start|>assistant\n");
    s
}

/// The prompt of a history one turn longer is the earlier turns, the new
/// turn, and the opening of the assistant's turn.
pub proof fn lemma_chatml_extend(h: Seq<(Seq<char>, Seq<char>)>, role: Seq<char>, content: Seq<char>)
    ensures
        chatml_prompt(h.push((role, content))) == chatml_body(h) + chatml_turn(role, content)
            + "<|im_start|>assistant\n"@,
{
    assert(h.push((role, content)).drop_last() =~= h);
}

/// The ChatML prompt for a single user message reads
/// `<|im_start|>user\n{user}<|im_end|>\n<|im_start|>assistant\n`.
pub proof fn lemma_chatml_single_user(user: Seq<char>)
    ensures
        chatml_prompt(seq![("user"@, user)]) == "<|im_start|>user\n"@ + user
            + "<|im_end|>\n<|im_start|>assistant\n"@,
{
    reveal_strlit("<|im_start|>");
    reveal_strlit("user");
    reveal_strlit("\n");
    reveal_strlit("<|im_end|>\n");
    reveal_strlit("<|im_start|>assistant\n");
    reveal_strlit("<|im_start|>user\n");
    reveal_strlit("<|im_end|>\n<|im_start|>assistant\n");
    let h = seq![("user"@, user)];
    assert(h.drop_last() =~= Seq::<(Seq<char>, Seq<char>)>::empty());
    assert(chatml_body(h.drop_last()) =~= Seq::<char>::empty());
    assert(chatml_body(h) =~= chatml_turn("user"@, user));
    assert(chatml_prompt(h) =~= "<|im_start|>user\n"@ + user
        + "<|im_end|>\n<|im_start|>assistant\n"@);
}

// ---------------------------------------------------------------------------
// The model's own template
// ---------------------------------------------------------------------------

/// Room left in the template buffer beyond the message contents, for the
/// whole conversation.
pub const CHAT_TEMPLATE_SLACK: usize = 1024;

/// Room left in the template buffer beyond the message contents, for a
/// single prompt.
pub const PROMPT_TEMPLATE_SLACK: usize = 512;

/// The length in bytes of `s` as `str::len` reports it (its UTF-8 length).
pub open spec fn byte_len(s: Seq<char>) -> int {
    encode_utf8(s).len() as usize as int
}

/// Total UTF-8 length of the contents of the turns in `h`.
pub open spec fn content_bytes(h: Seq<(Seq<char>, Seq<char>)>) -> int
    decreases h.len(),
{
    if h.len() == 0 {
        0
    } else {
        content_bytes(h.drop_last()) + byte_len(h.last().1)
    }
}

/// The first size of the buffer the template is written into: the byte
/// length of all contents plus `slack`, or `None` where that does not fit
/// in `usize`.
pub fn template_capacity(history: &Vec<(String, String)>, slack: usize) -> (r: Option<usize>)
    ensures
        match r {
            Some(c) => c == content_bytes(turns_view(history@)) + slack,
            None => content_bytes(turns_view(history@)) + slack > usize::MAX,
        },
{
    let n = history.len();
    let mut total: usize = 0;
    let mut i: usize = 0;
    while i < n
        invariant
            n == history@.len(),
            i <= n,
            total == content_bytes(turns_view(history@.take(i as int))),
        decreases n - i,
    {
        let len = history[i].1.as_str().len();
        proof {
            let h = turns_view(history@.take(i + 1));
            assert(h.drop_last() =~= turns_view(history@.take(i as int)));
            assert(h.last().1 == history@[i as int].1@);
        }
        if total > usize::MAX - len {
            proof {
                lemma_content_bytes_prefix(turns_view(history@), i + 1);
                assert(turns_view(history@).take(i + 1) =~= turns_view(history@.take(i + 1)));
            }
            return None;
        }
        total = total + len;
        i = i + 1;
    }
    assert(history@.take(n as int) =~= history@);
    if total > usize::MAX - slack {
        None
    } else {
        Some(total + slack)
    }
}

/// The contents of a prefix of a history are no longer than those of the
/// whole history.
proof fn lemma_content_bytes_prefix(h: Seq<(Seq<char>, Seq<char>)>, i: int)
    requires
        0 <= i <= h.len(),
    ensures
        content_bytes(h.take(i)) <= content_bytes(h),
    decreases h.len() - i,
{
    if i < h.len() {
        assert(h.take(i + 1).drop_last() =~= h.take(i));
        lemma_content_bytes_prefix(h, i + 1);
    } else {
        assert(h.take(i) =~= h);
    }
}

/// What to do with the length the template function reported.
pub enum TemplateStep {
    /// The buffer was too small: call again with a buffer of this size.
    Retry(usize),
    /// The prompt is the first this many bytes of the buffer.
    Take(usize),
    /// No usable output: build the prompt in ChatML.
    Fallback,
}

/// What a final reported length `n` means.
pub open spec fn final_step_spec(n: i32) -> TemplateStep {
    if n > 0 {
        TemplateStep::Take(n as usize)
    } else {
        TemplateStep::Fallback
    }
}

/// What the length `n` reported by the first call, into a buffer of
/// `capacity` bytes, means. The capacity is handed to the call as a C
/// `int`, and compared as one.
pub open spec fn first_step_spec(n: i32, capacity: usize) -> TemplateStep {
    if n > capacity as i32 {
        TemplateStep::Retry(n as usize)
    } else {
        final_step_spec(n)
    }
}

/// Reads the length reported by the first template call.
pub fn template_first_step(n: i32, capacity: usize) -> (r: TemplateStep)
    ensures
        r == first_step_spec(n, capacity),
        n > capacity as i32 ==> r == TemplateStep::Retry(n as usize),
        0 < n <= capacity as i32 ==> r == TemplateStep::Take(n as usize),
        n <= 0 && n <= capacity as i32 ==> r is Fallback,
{
    if n > capacity as i32 {
        TemplateStep::Retry(n as usize)
    } else {
        template_final_step(n)
    }
}

/// Reads the length reported by the last template call.
pub fn template_final_step(n: i32) -> (r: TemplateStep)
    ensures
        r == final_step_spec(n),
        n > 0 ==> r == TemplateStep::Take(n as usize),
        n <= 0 ==> r is Fallback,
{
    if n > 0 {
        TemplateStep::Take(n as usize)
    } else {
        TemplateStep::Fallback
    }
}

/// The prompt text: the bytes the model's template produced, decoded
/// leniently, or ChatML when there are none.
pub fn prompt_text(history: &Vec<(String, String)>, templated: Option<Vec<u8>>) -> (s: String)
    ensures
        match templated {
            Some(bytes) => s@ == lossy_utf8(bytes@),
            None => s@ == chatml_prompt(turns_view(history@)),
        },
{
    match templated {
        Some(bytes) => decode_lossy(bytes.as_slice()),
        None => chatml(history),
    }
}

/// The reply as shown once generation is over: the generated bytes,
/// decoded leniently, without surrounding white space.
pub fn reply_text(bytes: &[u8]) -> (s: String)
    ensures
        s@ == trimmed(lossy_utf8(bytes@)),
{
    let t = decode_lossy(bytes);
    trim(t.as_str())
}

/// The step that decides the prompt when the template function reports
/// `n` for a first buffer of `capacity` bytes and, on a retry into a buffer
/// of the reported size, reports `n` again: `template_first_step`, then
/// `template_final_step` when it asked for a retry.
pub open spec fn decided_step(n: i32, capacity: usize) -> TemplateStep {
    match first_step_spec(n, capacity) {
        TemplateStep::Retry(_) => final_step_spec(n),
        s => s,
    }
}

/// The prompt for history `h` when the model's template (if it has one)
/// writes `full` and reports `n`, and the first buffer has `capacity` bytes:
/// the bytes taken, decoded by `prompt_text`, or `fallback` when the model
/// has no template or it produces nothing.
pub open spec fn templated_prompt(
    template: Option<(Seq<u8>, i32)>,
    capacity: usize,
    fallback: Seq<char>,
) -> Seq<char> {
    match template {
        Some((full, n)) => match decided_step(n, capacity) {
            TemplateStep::Take(k) => lossy_utf8(full.take(k as int)),
            _ => fallback,
        },
        None => fallback,
    }
}

/// The size of the first template buffer does not change the prompt: with
/// the same template output, any two capacities give the same text.
pub proof fn lemma_capacity_does_not_matter(
    template: Option<(Seq<u8>, i32)>,
    cap1: usize,
    cap2: usize,
    fallback: Seq<char>,
)
    ensures
        templated_prompt(template, cap1, fallback) == templated_prompt(template, cap2, fallback),
{
    if let Some((full, n)) = template {
        assert(decided_step(n, cap1) == final_step_spec(n));
        assert(decided_step(n, cap2) == final_step_spec(n));
    }
}

/// The one-shot prompt for `user` (single turn, ChatML written out as
/// `<|im_start|>user\n{user}<|im_end|>\n<|im_start|>assistant\n` when there is no
/// template) and the chat prompt for a history of that one user turn are
/// the same text, whatever buffer size each starts with.
pub proof fn lemma_single_turn_prompt_same(
    user: Seq<char>,
    template: Option<(Seq<u8>, i32)>,
    chat_capacity: usize,
    one_shot_capacity: usize,
)
    ensures
        templated_prompt(template, chat_capacity, chatml_prompt(seq![("user"@, user)]))
            == templated_prompt(
            template,
            one_shot_capacity,
            "<|im_start|>user\n"@ + user + "<|im_end|>\n<|im_start|>assistant\n"@,
        ),
{
    lemma_chatml_single_user(user);
    lemma_capacity_does_not_matter(
        template,
        chat_capacity,
        one_shot_capacity,
        chatml_prompt(seq![("user"@, user)]),
    );
}

/// A history made of one user message.
pub fn single_user_turn(user: &str) -> (h: Vec<(String, String)>)
    ensures
        turns_view(h@) == seq![("user"@, user@)],
{
    let mut h: Vec<(String, String)> = Vec::new();
    h.push((String::from_str("user"), String::from_str(user)));
    assert(turns_view(h@) =~= seq![("user"@, user@)]);
    h
}

// ---------------------------------------------------------------------------
// The session
// ---------------------------------------------------------------------------

/// What a line typed at the prompt asks for.
pub enum Input {
    /// Nothing but white space: ask again.
    Skip,
    /// `/quit` or `/exit`.
    Quit,
    /// `/reset`: forget the conversation.
    Reset,
    /// A message to the model, without surrounding white space.
    Message(String),
}

/// What the line `line` asks for.
pub open spec fn input_spec(line: Seq<char>, r: Input) -> bool {
    let t = trimmed(line);
    if t.len() == 0 {
        r is Skip
    } else if t == "/quit"@ || t == "/exit"@ {
        r is Quit
    } else if t == "/reset"@ {
        r is Reset
    } else {
        r matches Input::Message(m) && m@ == t
    }
}

/// Reads a line typed at the prompt.
pub fn classify_input(line: &str) -> (r: Input)
    ensures
        input_spec(line@, r),
        trimmed(line@).len() == 0 ==> r is Skip,
        trimmed(line@) == "/quit"@ || trimmed(line@) == "/exit"@ ==> r is Quit,
        trimmed(line@) == "/reset"@ ==> r is Reset,
        trimmed(line@).len() > 0 && trimmed(line@) != "/quit"@ && trimmed(line@) != "/exit"@
            && trimmed(line@) != "/reset"@ ==> (r matches Input::Message(m) && m@ == trimmed(
            line@,
        )),
{
    proof {
        reveal_strlit("/quit");
        reveal_strlit("/exit");
        reveal_strlit("/reset");
        assert("/reset"@[1] != "/quit"@[1]);
        assert("/reset"@[1] != "/exit"@[1]);
    }
    let t = trim(line);
    let c = chars_of(t.as_str());
    if c.len() == 0 {
        Input::Skip
    } else if chars_eq_str(c.as_slice(), "/quit") || chars_eq_str(c.as_slice(), "/exit") {
        Input::Quit
    } else if chars_eq_str(c.as_slice(), "/reset") {
        Input::Reset
    } else {
        Input::Message(t)
    }
}

/// The turns of a conversation so far.
pub struct ChatSession {
    history: Vec<(String, String)>,
}

impl View for ChatSession {
    type V = Seq<(Seq<char>, Seq<char>)>;

    closed spec fn view(&self) -> Seq<(Seq<char>, Seq<char>)> {
        turns_view(self.history@)
    }
}

impl ChatSession {
    /// A conversation with no turns.
    pub fn new() -> (s: ChatSession)
        ensures
            s@ == Seq::<(Seq<char>, Seq<char>)>::empty(),
    {
        let s = ChatSession { history: Vec::new() };
        assert(s@ =~= Seq::<(Seq<char>, Seq<char>)>::empty());
        s
    }

    /// The turns so far, in order.
    pub fn history(&self) -> (h: &Vec<(String, String)>)
        ensures
            turns_view(h@) == self@,
    {
        &self.history
    }

    /// Takes a line typed at the prompt: `/reset` forgets every turn, a
    /// message becomes the next user turn, and anything else leaves the
    /// turns as they were.
    pub fn handle_line(&mut self, line: &str) -> (r: Input)
        ensures
            input_spec(line@, r),
            trimmed(line@).len() == 0 ==> (r is Skip) && final(self)@ == old(self)@,
            trimmed(line@) == "/quit"@ || trimmed(line@) == "/exit"@ ==> (r is Quit)
                && final(self)@ == old(self)@,
            trimmed(line@) == "/reset"@ ==> (r is Reset) && final(self)@ == Seq::<
                (Seq<char>, Seq<char>),
            >::empty(),
            trimmed(line@).len() > 0 && trimmed(line@) != "/quit"@ && trimmed(line@) != "/exit"@
                && trimmed(line@) != "/reset"@ ==> (r matches Input::Message(m) && m@ == trimmed(
                line@,
            )) && final(self)@ == old(self)@.push(("user"@, trimmed(line@))),
            r is Reset ==> final(self)@ == Seq::<(Seq<char>, Seq<char>)>::empty(),
            r matches Input::Message(m) ==> final(self)@ == old(self)@.push(("user"@, m@)),
            (r is Skip || r is Quit) ==> final(self)@ == old(self)@,
    {
        let r = classify_input(line);
        match &r {
            Input::Reset => {
                self.history.clear();
                assert(self@ =~= Seq::<(Seq<char>, Seq<char>)>::empty());
            },
            Input::Message(m) => {
                let ghost before = self.history@;
                self.history.push((String::from_str("user"), m.clone()));
                assert(self@ =~= turns_view(before).push(("user"@, m@)));
            },
            _ => {},
        }
        r
    }

    /// Withdraws the last turn (a message that gave no prompt).
    pub fn withdraw_last(&mut self)
        ensures
            final(self)@ == old(self)@.take(
                if old(self)@.len() > 0 {
                    old(self)@.len() - 1
                } else {
                    0
                },
            ),
    {
        let ghost before = self.history@;
        let _ = self.history.pop();
        assert(self@ =~= turns_view(before).take(
            if before.len() > 0 {
                before.len() - 1
            } else {
                0
            },
        ));
    }

    /// Records the model's reply, without surrounding white space.
    pub fn record_reply(&mut self, reply: &str)
        ensures
            final(self)@ == old(self)@.push(("assistant"@, trimmed(reply@))),
    {
        let ghost before = self.history@;
        let t = trim(reply);
        self.history.push((String::from_str("assistant"), t));
        assert(self@ =~= turns_view(before).push(("assistant"@, trimmed(reply@))));
    }
}

/// A message taken and then withdrawn leaves the conversation as it was.
pub proof fn lemma_message_then_withdraw(before: Seq<(Seq<char>, Seq<char>)>, msg: Seq<char>, mid: Seq<(Seq<char>, Seq<char>)>, after: Seq<(Seq<char>, Seq<char>)>)
    requires
        mid == before.push(("user"@, msg)),
        after == mid.take(
            if mid.len() > 0 {
                mid.len() - 1
            } else {
                0
            },
        ),
    ensures
        after == before,
{
    assert(after =~= before);
}

} // verus!

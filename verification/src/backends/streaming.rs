//! Framing of streamed responses: the newline-delimited JSON lines of a local
//! model server, the Server-Sent Event frames of OpenAI-style gateways and
//! the `data:` fields they carry, and the running totals a stream builds up.

use vstd::prelude::*;
use vstd::utf8::{decode_utf8, valid_utf8};

use crate::text::{concat, string_from_chars, to_chars};

verus! {

/// Where the first line feed of `s` at or after index `i` stands.
pub open spec fn newline_from(s: Seq<u8>, i: int) -> Option<int>
    decreases s.len() - i,
{
    if i < 0 || i >= s.len() {
        None
    } else if s[i] == 10u8 {
        Some(i)
    } else {
        newline_from(s, i + 1)
    }
}

/// Take the first complete line (through its line feed) off the front of
/// `buf`; `None`, with `buf` untouched, while no line feed is buffered.
pub fn take_line(buf: &mut Vec<u8>) -> (r: Option<Vec<u8>>)
    ensures
        match newline_from(old(buf)@, 0) {
            Some(p) => (r is Some && r.unwrap()@ == old(buf)@.take(p + 1) && final(buf)@ == old(
                buf,
            )@.skip(p + 1)),
            None => (r is None && final(buf)@ == old(buf)@),
        },
{
    let n = buf.len();
    let mut i: usize = 0;
    while i < n
        invariant
            n == buf@.len(),
            buf@ == old(buf)@,
            i <= n,
            newline_from(buf@, 0) == newline_from(buf@, i as int),
        decreases n - i,
    {
        if buf[i] == 10u8 {
            let mut line = buf.split_off(i + 1);
            std::mem::swap(buf, &mut line);
            assert(line@ =~= old(buf)@.take(i + 1));
            return Some(line);
        }
        i = i + 1;
    }
    None
}

/// ASCII white space as `u8::is_ascii_whitespace` knows it: space, tab,
/// line feed, form feed and carriage return.
pub open spec fn is_ascii_white(b: u8) -> bool {
    b == 32u8 || b == 9u8 || b == 10u8 || b == 12u8 || b == 13u8
}

/// Whether a line holds nothing but ASCII white space.
pub fn is_blank_line(line: &[u8]) -> (r: bool)
    ensures
        r == forall|i: int| 0 <= i < line@.len() ==> is_ascii_white(#[trigger] line@[i]),
{
    let mut i: usize = 0;
    while i < line.len()
        invariant
            i <= line@.len(),
            forall|j: int| 0 <= j < i ==> is_ascii_white(#[trigger] line@[j]),
        decreases line.len() - i,
    {
        let b = line[i];
        if !(b == 32u8 || b == 9u8 || b == 10u8 || b == 12u8 || b == 13u8) {
            return false;
        }
        i = i + 1;
    }
    true
}

/// The length of the blank-line delimiter that starts at `i`: a line feed
/// followed by a line feed (2), or by a carriage return and a line feed (3);
/// 0 where no delimiter starts there.
pub open spec fn delimiter_at(s: Seq<u8>, i: int) -> int {
    if 0 <= i && i + 1 < s.len() && s[i] == 10u8 && s[i + 1] == 10u8 {
        2
    } else if 0 <= i && i + 2 < s.len() && s[i] == 10u8 && s[i + 1] == 13u8 && s[i + 2] == 10u8 {
        3
    } else {
        0
    }
}

/// The end of the first event frame found at or after `i`: just past the
/// first blank-line delimiter.
pub open spec fn frame_end_from(s: Seq<u8>, i: int) -> Option<int>
    decreases s.len() - i,
{
    if i < 0 || i >= s.len() {
        None
    } else if delimiter_at(s, i) > 0 {
        Some(i + delimiter_at(s, i))
    } else {
        frame_end_from(s, i + 1)
    }
}

proof fn lemma_frame_end_bounded(s: Seq<u8>, i: int)
    ensures
        frame_end_from(s, i) matches Some(k) ==> 0 < k <= s.len(),
    decreases s.len() - i,
{
    if 0 <= i < s.len() && delimiter_at(s, i) == 0 {
        lemma_frame_end_bounded(s, i + 1);
    }
}

/// The length in bytes of the first complete event frame in `buf`, its
/// blank-line delimiter included; `None` while no complete frame is buffered.
pub fn sse_frame_len(buf: &[u8]) -> (r: Option<usize>)
    ensures
        r is None <==> frame_end_from(buf@, 0) is None,
        r matches Some(k) ==> frame_end_from(buf@, 0) == Some(k as int),
{
    let n = buf.len();
    let mut i: usize = 0;
    while i < n
        invariant
            n == buf@.len(),
            i <= n,
            frame_end_from(buf@, 0) == frame_end_from(buf@, i as int),
        decreases n - i,
    {
        if buf[i] == 10u8 {
            if n - i > 1 && buf[i + 1] == 10u8 {
                return Some(i + 2);
            }
            if n - i > 2 && buf[i + 1] == 13u8 && buf[i + 2] == 10u8 {
                return Some(i + 3);
            }
        }
        i = i + 1;
    }
    None
}

/// Take the first complete event frame (delimiter included) off the front
/// of `buf`; `None`, with `buf` untouched, while no frame is complete.
pub fn take_frame(buf: &mut Vec<u8>) -> (r: Option<Vec<u8>>)
    ensures
        match frame_end_from(old(buf)@, 0) {
            Some(k) => (r is Some && r.unwrap()@ == old(buf)@.take(k) && final(buf)@ == old(
                buf,
            )@.skip(k)),
            None => (r is None && final(buf)@ == old(buf)@),
        },
{
    proof {
        lemma_frame_end_bounded(buf@, 0);
    }
    match sse_frame_len(buf.as_slice()) {
        Some(k) => {
            let mut frame = buf.split_off(k);
            std::mem::swap(buf, &mut frame);
            assert(frame@ =~= old(buf)@.take(k as int));
            Some(frame)
        },
        None => None,
    }
}

/// A line with one trailing carriage return removed.
pub open spec fn without_cr(line: Seq<char>) -> Seq<char> {
    if line.len() > 0 && line.last() == '\r' {
        line.drop_last()
    } else {
        line
    }
}

/// The lines of `s` after the partial line `cur`, as `str::lines` yields
/// them: split at each line feed, a carriage return before the line feed
/// dropped, and no empty line after a final line feed.
pub open spec fn split_lines(s: Seq<char>, cur: Seq<char>) -> Seq<Seq<char>>
    decreases s.len(),
{
    if s.len() == 0 {
        if cur.len() == 0 {
            seq![]
        } else {
            seq![cur]
        }
    } else if s[0] == '\n' {
        seq![without_cr(cur)] + split_lines(s.drop_first(), seq![])
    } else {
        split_lines(s.drop_first(), cur.push(s[0]))
    }
}

/// The lines of a text.
pub open spec fn lines_of(s: Seq<char>) -> Seq<Seq<char>> {
    split_lines(s, seq![])
}

/// Whether a line is a `data:` field of an event.
pub open spec fn is_data_line(line: Seq<char>) -> bool {
    line.len() >= 5 && line[0] == 'd' && line[1] == 'a' && line[2] == 't' && line[3] == 'a'
        && line[4] == ':'
}

/// The value of a `data:` field: what follows the colon, less one space
/// directly after it.
pub open spec fn data_value(line: Seq<char>) -> Seq<char> {
    let rest = line.skip(5);
    if rest.len() > 0 && rest[0] == ' ' {
        rest.skip(1)
    } else {
        rest
    }
}

/// The event data gathered so far (`acc`) after one more line: the values of
/// `data:` lines are joined by line feeds, other lines are ignored.
pub open spec fn with_line(acc: Seq<char>, line: Seq<char>) -> Seq<char> {
    if is_data_line(line) {
        (if acc.len() > 0 {
            acc.push('\n')
        } else {
            acc
        }) + data_value(line)
    } else {
        acc
    }
}

/// The event data of `lines`, continuing from `acc`.
pub open spec fn data_of(lines: Seq<Seq<char>>, acc: Seq<char>) -> Seq<char>
    decreases lines.len(),
{
    if lines.len() == 0 {
        acc
    } else {
        data_of(lines.drop_first(), with_line(acc, lines[0]))
    }
}

/// The data of one event block: its `data:` values joined by line feeds.
pub open spec fn event_data(text: Seq<char>) -> Seq<char> {
    data_of(lines_of(text), seq![])
}

/// The terminal data of an OpenAI-style stream.
pub open spec fn done_marker() -> Seq<char> {
    seq!['[', 'D', 'O', 'N', 'E', ']']
}

/// What one event block carries.
#[derive(Debug, Clone, PartialEq, Eq)]
pub enum SseData {
    /// The terminal `data: [DONE]` sentinel.
    Done,
    /// A payload to be decoded by the caller.
    Payload(String),
}

/// What an event block of bytes carries: nothing when it is not UTF-8 or has
/// no data, the end of the stream for `[DONE]`, else the payload.
pub open spec fn sse_event_of(block: Seq<u8>) -> Option<Result<(), Seq<char>>> {
    if !valid_utf8(block) {
        None
    } else {
        let d = event_data(decode_utf8(block));
        if d.len() == 0 {
            None
        } else if d == done_marker() {
            Some(Ok(()))
        } else {
            Some(Err(d))
        }
    }
}

/// `std::str::from_utf8`: the text that `bytes` encode, when they are valid
/// UTF-8, and `None` otherwise.
#[verifier::external_body]
fn utf8_text(bytes: &[u8]) -> (r: Option<&str>)
    ensures
        r is Some <==> valid_utf8(bytes@),
        r matches Some(s) ==> s@ == decode_utf8(bytes@),
{
    std::str::from_utf8(bytes).ok()
}

/// The data of the event block `text` (see [`event_data`]).
pub fn sse_data(text: &str) -> (r: String)
    ensures
        r@ == event_data(text@),
{
    let chars = to_chars(text);
    let n = chars.len();
    let mut cur: Vec<char> = Vec::new();
    let mut acc: Vec<char> = Vec::new();
    let mut i: usize = 0;
    assert(text@.skip(0) =~= text@);
    while i < n
        invariant
            chars@ == text@,
            n == chars@.len(),
            i <= n,
            event_data(text@) == data_of(split_lines(text@.skip(i as int), cur@), acc@),
        decreases n - i,
    {
        let c = chars[i];
        let ghost rest = text@.skip(i as int);
        assert(rest.drop_first() =~= text@.skip(i as int + 1));
        if c == '\n' {
            let ghost line = without_cr(cur@);
            if cur.len() > 0 && cur[cur.len() - 1] == '\r' {
                cur.pop();
            }
            assert(cur@ =~= line);
            let ghost tail = split_lines(text@.skip(i as int + 1), seq![]);
            assert((seq![line] + tail).drop_first() =~= tail);
            push_line(&mut acc, &cur);
            cur = Vec::new();
        } else {
            cur.push(c);
        }
        i = i + 1;
    }
    assert(text@.skip(n as int) =~= Seq::<char>::empty());
    if cur.len() > 0 {
        let ghost a0 = acc@;
        let ghost one = seq![cur@];
        assert(split_lines(text@.skip(n as int), cur@) == one);
        assert(one.drop_first() =~= Seq::<Seq<char>>::empty());
        assert(data_of(one, a0) == data_of(one.drop_first(), with_line(a0, cur@)));
        push_line(&mut acc, &cur);
    }
    string_from_chars(&acc)
}

/// Fold one line into the gathered data (see [`with_line`]).
fn push_line(acc: &mut Vec<char>, line: &Vec<char>)
    ensures
        final(acc)@ == with_line(old(acc)@, line@),
{
    if line.len() >= 5 && line[0] == 'd' && line[1] == 'a' && line[2] == 't' && line[3] == 'a'
        && line[4] == ':' {
        if acc.len() > 0 {
            acc.push('\n');
        }
        let ghost start = acc@;
        let mut j: usize = 5;
        if line.len() > 5 && line[5] == ' ' {
            j = 6;
        }
        let ghost value = data_value(line@);
        assert(value =~= line@.skip(j as int));
        while j < line.len()
            invariant
                5 <= j <= line@.len(),
                value == data_value(line@),
                acc@ + line@.skip(j as int) == start + value,
            decreases line.len() - j,
        {
            assert(line@.skip(j as int) =~= seq![line@[j as int]] + line@.skip(j as int + 1));
            acc.push(line[j]);
            j = j + 1;
        }
        assert(line@.skip(j as int) =~= Seq::<char>::empty());
        assert(acc@ =~= start + value);
    }
}

/// What an event block carries (see [`sse_event_of`]): `None` for a block
/// that is not UTF-8 or holds no data.
pub fn sse_event(block: &[u8]) -> (r: Option<SseData>)
    ensures
        match sse_event_of(block@) {
            None => r is None,
            Some(Ok(())) => r == Some(SseData::Done),
            Some(Err(d)) => (r matches Some(SseData::Payload(p)) && p@ == d),
        },
{
    let text = match utf8_text(block) {
        Some(t) => t,
        None => return None,
    };
    let data = sse_data(text);
    if data.unicode_len() == 0 {
        return None;
    }
    if is_done_marker(&data) {
        Some(SseData::Done)
    } else {
        Some(SseData::Payload(data))
    }
}

/// Whether `s` is exactly `[DONE]`.
fn is_done_marker(s: &String) -> (r: bool)
    ensures
        r == (s@ == done_marker()),
{
    let t = s.as_str();
    if t.unicode_len() != 6 {
        return false;
    }
    let r = t.get_char(0) == '[' && t.get_char(1) == 'D' && t.get_char(2) == 'O' && t.get_char(3) == 'N'
        && t.get_char(4) == 'E' && t.get_char(5) == ']';
    assert(r ==> t@ =~= done_marker());
    r
}

/// The token counts of a usage record.
#[derive(Debug, Clone, Copy, PartialEq, Eq, Structural)]
pub struct TokenCounts {
    pub prompt: Option<u32>,
    pub completion: Option<u32>,
    pub total: Option<u32>,
}

/// Prompt and completion counts added up, absent counts read as 0; `None`
/// when neither is reported.
pub open spec fn summed_tokens(prompt: Option<u32>, completion: Option<u32>) -> Option<int> {
    match (prompt, completion) {
        (None, None) => None,
        (p, c) => Some(p.unwrap_or(0) as int + c.unwrap_or(0) as int),
    }
}

/// Whether adding up the two counts stays within `u32`.
pub open spec fn sum_fits(prompt: Option<u32>, completion: Option<u32>) -> bool {
    prompt.unwrap_or(0) as int + completion.unwrap_or(0) as int <= u32::MAX
}

/// Prompt and completion counts added up (see [`summed_tokens`]).
pub fn combined_tokens(prompt: Option<u32>, completion: Option<u32>) -> (r: Option<u32>)
    requires
        sum_fits(prompt, completion),
    ensures
        match summed_tokens(prompt, completion) {
            None => r is None,
            Some(n) => r == Some(n as u32),
        },
{
    match (prompt, completion) {
        (None, None) => None,
        (p, c) => {
            let a: u32 = match p {
                Some(v) => v,
                None => 0,
            };
            let b: u32 = match c {
                Some(v) => v,
                None => 0,
            };
            Some(a + b)
        },
    }
}

/// The text and token counts a chat stream has delivered so far.
pub struct StreamTotals {
    pub text: String,
    pub prompt_tokens: Option<u32>,
    pub completion_tokens: Option<u32>,
    pub total_tokens: Option<u32>,
}

/// The text a non-empty piece of content adds; `None` for absent or empty
/// content, which is not forwarded.
pub open spec fn forwarded(content: Option<String>) -> Option<Seq<char>> {
    match content {
        Some(c) => if c@.len() > 0 {
            Some(c@)
        } else {
            None
        },
        None => None,
    }
}

impl StreamTotals {
    /// Nothing delivered yet.
    pub fn new() -> (r: Self)
        ensures
            r.text@.len() == 0,
            r.prompt_tokens is None,
            r.completion_tokens is None,
            r.total_tokens is None,
    {
        StreamTotals { text: String::new(), prompt_tokens: None, completion_tokens: None, total_tokens: None }
    }

    /// Append forwarded content to the text; returns what is to be sent on.
    fn append(&mut self, content: Option<String>) -> (r: Option<String>)
        ensures
            match forwarded(content) {
                Some(c) => (r matches Some(t) && t@ == c && final(self).text@ == old(self).text@ + c),
                None => (r is None && final(self).text@ == old(self).text@),
            },
            final(self).prompt_tokens == old(self).prompt_tokens,
            final(self).completion_tokens == old(self).completion_tokens,
            final(self).total_tokens == old(self).total_tokens,
    {
        match content {
            Some(c) => {
                if c.unicode_len() == 0 {
                    None
                } else {
                    self.text = concat(self.text.as_str(), c.as_str());
                    Some(c)
                }
            },
            None => None,
        }
    }

    /// Fold in one chunk of an OpenAI-style chat stream: a usage record, when
    /// the chunk has one, replaces all three counts (absent counts included),
    /// and the content of the chunk's first choice is appended when not empty.
    /// Returns the content to forward to the caller.
    pub fn apply_chunk(&mut self, usage: Option<TokenCounts>, content: Option<String>) -> (r: Option<
        String,
    >)
        ensures
            match forwarded(content) {
                Some(c) => (r matches Some(t) && t@ == c && final(self).text@ == old(self).text@ + c),
                None => (r is None && final(self).text@ == old(self).text@),
            },
            match usage {
                Some(u) => (final(self).prompt_tokens == u.prompt && final(self).completion_tokens
                    == u.completion && final(self).total_tokens == u.total),
                None => (final(self).prompt_tokens == old(self).prompt_tokens
                    && final(self).completion_tokens == old(self).completion_tokens
                    && final(self).total_tokens == old(self).total_tokens),
            },
    {
        if let Some(u) = usage {
            self.prompt_tokens = u.prompt;
            self.completion_tokens = u.completion;
            self.total_tokens = u.total;
        }
        self.append(content)
    }

    /// Fold in one object of a newline-delimited stream: the final object
    /// (`done`) replaces the prompt and completion counts, and its message
    /// content is appended when not empty. Returns the content to forward.
    pub fn apply_line(
        &mut self,
        done: bool,
        prompt_eval: Option<u32>,
        eval: Option<u32>,
        content: Option<String>,
    ) -> (r: Option<String>)
        ensures
            match forwarded(content) {
                Some(c) => (r matches Some(t) && t@ == c && final(self).text@ == old(self).text@ + c),
                None => (r is None && final(self).text@ == old(self).text@),
            },
            final(self).prompt_tokens == (if done {
                prompt_eval
            } else {
                old(self).prompt_tokens
            }),
            final(self).completion_tokens == (if done {
                eval
            } else {
                old(self).completion_tokens
            }),
            final(self).total_tokens == old(self).total_tokens,
    {
        if done {
            self.prompt_tokens = prompt_eval;
            self.completion_tokens = eval;
        }
        self.append(content)
    }

    /// The tokens a stream used: the reported total, else prompt and
    /// completion added up (see [`summed_tokens`]).
    pub fn tokens_used(&self) -> (r: Option<u32>)
        requires
            sum_fits(self.prompt_tokens, self.completion_tokens),
        ensures
            match self.total_tokens {
                Some(t) => r == Some(t),
                None => match summed_tokens(self.prompt_tokens, self.completion_tokens) {
                    None => r is None,
                    Some(n) => r == Some(n as u32),
                },
            },
    {
        let summed = combined_tokens(self.prompt_tokens, self.completion_tokens);
        match self.total_tokens {
            Some(t) => Some(t),
            None => summed,
        }
    }
}

} // verus!

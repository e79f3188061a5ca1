//! Streaming replies: splitting a byte stream into protocol lines,
//! interpreting provider chunks as events, and accumulating the reply that
//! is forwarded to the client and persisted.

use crate::models::StreamEvent;
use crate::text::{
    chars_of, find, find_exec, lemma_find_occurs, push_range, push_str, starts_with,
    starts_with_exec, string_of, string_of_range, sub_vec, trim, trim_range,
};
use vstd::prelude::*;

verus! {

/// The complete lines of `s` (each trimmed, blank ones dropped) and the
/// unterminated remainder.
pub open spec fn split_lines(s: Seq<char>) -> (Seq<Seq<char>>, Seq<char>)
    decreases s.len(),
{
    match find(s, seq!['\n']) {
        None => (Seq::empty(), s),
        Some(i) => {
            proof {
                lemma_find_occurs(s, seq!['\n']);
            }
            let line = trim(s.subrange(0, i + 1));
            let (ls, rest) = split_lines(s.subrange(i + 1, s.len() as int));
            (if line.len() > 0 {
                seq![line] + ls
            } else {
                ls
            }, rest)
        },
    }
}

/// The views of a list of strings.
pub open spec fn views(v: Seq<String>) -> Seq<Seq<char>> {
    v.map_values(|s: String| s@)
}

/// Buffers a text stream and hands out its complete lines.
pub struct LineBuffer {
    buffer: Vec<char>,
}

impl View for LineBuffer {
    type V = Seq<char>;

    closed spec fn view(&self) -> Seq<char> {
        self.buffer@
    }
}

impl LineBuffer {
    /// An empty buffer.
    pub fn new() -> (b: Self)
        ensures
            b@ == Seq::<char>::empty(),
    {
        LineBuffer { buffer: Vec::new() }
    }

    /// Append `text` and take every line it completes: trimmed, blank lines
    /// skipped. What follows the last newline stays buffered.
    pub fn push(&mut self, text: &str) -> (lines: Vec<String>)
        ensures
            views(lines@) == split_lines(old(self)@ + text@).0,
            final(self)@ == split_lines(old(self)@ + text@).1,
    {
        let t = chars_of(text);
        let mut all = Vec::new();
        let mut k: usize = 0;
        while k < self.buffer.len()
            invariant
                k <= self.buffer@.len(),
                all@ == self.buffer@.subrange(0, k as int),
            decreases self.buffer@.len() - k,
        {
            all.push(self.buffer[k]);
            k = k + 1;
            assert(all@ =~= self.buffer@.subrange(0, k as int));
        }
        let mut j: usize = 0;
        while j < t.len()
            invariant
                j <= t@.len(),
                all@ == self.buffer@ + t@.subrange(0, j as int),
            decreases t@.len() - j,
        {
            all.push(t[j]);
            j = j + 1;
            assert(all@ =~= self.buffer@ + t@.subrange(0, j as int));
        }
        assert(self.buffer@.subrange(0, self.buffer@.len() as int) =~= self.buffer@);
        assert(t@.subrange(0, t@.len() as int) =~= t@);
        let ghost whole = all@;
        let nl = vec!['\n'];
        let mut lines: Vec<String> = Vec::new();
        let mut start: usize = 0;
        assert(whole.subrange(0, whole.len() as int) =~= whole);
        assert(views(lines@) =~= Seq::<Seq<char>>::empty());
        assert(views(lines@) + split_lines(whole).0 =~= split_lines(whole).0);
        loop
            invariant
                start <= all@.len(),
                all@ == whole,
                whole == old(self)@ + text@,
                nl@ == seq!['\n'],
                split_lines(whole) == (views(lines@) + split_lines(
                    whole.subrange(start as int, whole.len() as int),
                ).0, split_lines(whole.subrange(start as int, whole.len() as int)).1),
            decreases all@.len() - start,
        {
            let rest = sub_vec(&all, start, all.len());
            let ghost r = rest@;
            match find_exec(&rest, &nl) {
                None => {
                    self.buffer = rest;
                    assert(views(lines@) + Seq::<Seq<char>>::empty() =~= views(lines@));
                    assert(split_lines(r) == (Seq::<Seq<char>>::empty(), r));
                    return lines;
                },
                Some(i) => {
                    proof {
                        lemma_find_occurs(rest@, nl@);
                    }
                    let (a, b) = trim_range(&rest, 0, i + 1);
                    let ghost old_lines = lines@;
                    if a < b {
                        lines.push(string_of_range(&rest, a, b));
                        assert(views(lines@) =~= views(old_lines).push(r.subrange(a as int, b as int)));
                    }
                    assert(r.subrange(i + 1, r.len() as int) =~= whole.subrange(
                        start + i + 1,
                        whole.len() as int,
                    ));
                    proof {
                        let line = trim(r.subrange(0, i + 1));
                        let tail = split_lines(r.subrange(i + 1, r.len() as int));
                        if line.len() > 0 {
                            assert(views(old_lines) + (seq![line] + tail.0) =~= views(lines@)
                                + tail.0);
                        }
                    }
                    start = start + i + 1;
                },
            }
        }
    }

    /// The trimmed text still buffered (a final line without a newline).
    pub fn rest(&self) -> (r: String)
        ensures
            r@ == trim(self@),
    {
        let (a, b) = trim_range(&self.buffer, 0, self.buffer.len());
        assert(self.buffer@.subrange(0, self.buffer@.len() as int) =~= self.buffer@);
        string_of_range(&self.buffer, a, b)
    }
}

/// A first occurrence of `p` that lies wholly inside `a` is also the first
/// in `a + b`.
proof fn lemma_find_in_prefix(a: Seq<char>, b: Seq<char>, p: Seq<char>)
    requires
        find(a, p) is Some,
    ensures
        find(a + b, p) == find(a, p),
    decreases a.len(),
{
    lemma_find_occurs(a, p);
    let i = find(a, p)->Some_0;
    assert((a + b).subrange(0, p.len() as int) =~= a.subrange(0, p.len() as int)) by {
        assert(p.len() <= a.len());
    }
    if !starts_with(a, p) {
        assert(a.len() > 0);
        assert((a + b).drop_first() =~= a.drop_first() + b);
        lemma_find_in_prefix(a.drop_first(), b, p);
    }
}

/// Splitting `a + b` into lines gives the lines of `a`, then the lines of
/// what `a` left unterminated followed by `b`.
pub proof fn lemma_split_lines_append(a: Seq<char>, b: Seq<char>)
    ensures
        split_lines(a + b) == (
            split_lines(a).0 + split_lines(split_lines(a).1 + b).0,
            split_lines(split_lines(a).1 + b).1,
        ),
    decreases a.len(),
{
    match find(a, seq!['\n']) {
        None => {
            assert(split_lines(a).0 + split_lines(a + b).0 =~= split_lines(a + b).0);
        },
        Some(i) => {
            lemma_find_in_prefix(a, b, seq!['\n']);
            lemma_find_occurs(a, seq!['\n']);
            let tail = a.subrange(i + 1, a.len() as int);
            assert((a + b).subrange(0, i + 1) =~= a.subrange(0, i + 1));
            assert((a + b).subrange(i + 1, (a + b).len() as int) =~= tail + b);
            lemma_split_lines_append(tail, b);
            let line = trim(a.subrange(0, i + 1));
            let t = split_lines(split_lines(tail).1 + b);
            if line.len() > 0 {
                assert(seq![line] + (split_lines(tail).0 + t.0) =~= (seq![line] + split_lines(tail).0)
                    + t.0);
            }
        },
    }
}

/// The lines and the buffered remainder after pushing `chunks` one by one
/// into an empty [`LineBuffer`].
pub open spec fn pushed_lines(chunks: Seq<Seq<char>>) -> (Seq<Seq<char>>, Seq<char>)
    decreases chunks.len(),
{
    if chunks.len() == 0 {
        (Seq::empty(), Seq::empty())
    } else {
        let before = pushed_lines(chunks.drop_last());
        let step = split_lines(before.1 + chunks.last());
        (before.0 + step.0, step.1)
    }
}

/// The lines a stream yields do not depend on how its body is cut into
/// chunks: pushing the chunks one by one into an empty [`LineBuffer`] gives
/// the lines, and leaves the remainder, of the whole body split at once.
pub proof fn lemma_lines_independent_of_chunking(chunks: Seq<Seq<char>>)
    ensures
        pushed_lines(chunks) == split_lines(concat_all(chunks)),
    decreases chunks.len(),
{
    if chunks.len() == 0 {
        assert(find(Seq::<char>::empty(), seq!['\n']) is None);
    } else {
        lemma_lines_independent_of_chunking(chunks.drop_last());
        lemma_split_lines_append(concat_all(chunks.drop_last()), chunks.last());
    }
}

/// The payload of a server-sent-events `data:` line.
pub open spec fn sse_data_of(line: Seq<char>) -> Option<Seq<char>> {
    if starts_with(line, "data:"@) {
        Some(trim(line.subrange(5, line.len() as int)))
    } else {
        None
    }
}

/// The trimmed payload of an SSE `data:` line; `None` for any other line.
pub fn sse_data(line: &str) -> (r: Option<String>)
    ensures
        match (r, sse_data_of(line@)) {
            (Some(a), Some(b)) => a@ == b,
            (None, None) => true,
            _ => false,
        },
{
    proof {
        reveal_strlit("data:");
    }
    let v = chars_of(line);
    let p = chars_of("data:");
    assert(p@.len() == 5);
    if !starts_with_exec(&v, &p) {
        return None;
    }
    let (a, b) = trim_range(&v, 5, v.len());
    Some(string_of_range(&v, a, b))
}

/// Whether an SSE payload is the end-of-stream marker `[DONE]`.
pub fn is_done_marker(data: &str) -> (b: bool)
    ensures
        b == (data@ == "[DONE]"@),
{
    crate::models::str_is(data, "[DONE]")
}

/// The view of an optional string.
pub open spec fn opt_str(o: Option<String>) -> Option<Seq<char>> {
    match o {
        Some(s) => Some(s@),
        None => None,
    }
}

/// The view of a stream event.
pub open spec fn event_view(e: StreamEvent) -> (int, Seq<char>) {
    match e {
        StreamEvent::Delta(s) => (0, s@),
        StreamEvent::Reasoning(s) => (1, s@),
        StreamEvent::Done => (2, Seq::empty()),
        StreamEvent::Error(s) => (3, s@),
    }
}

/// The events of one decoded OpenAI-style stream chunk (its first choice):
/// reasoning then content, each only when non-empty, then `Done` when the
/// choice finished with "stop". The flag says whether the stream ends.
pub open spec fn openai_chunk_events(
    reasoning: Option<Seq<char>>,
    content: Option<Seq<char>>,
    finish_reason: Option<Seq<char>>,
) -> (Seq<(int, Seq<char>)>, bool) {
    let r = match reasoning {
        Some(t) => if t.len() > 0 {
            seq![(1int, t)]
        } else {
            Seq::empty()
        },
        None => Seq::empty(),
    };
    let c = match content {
        Some(t) => if t.len() > 0 {
            seq![(0int, t)]
        } else {
            Seq::empty()
        },
        None => Seq::empty(),
    };
    let stop = finish_reason == Some("stop"@);
    (r + c + if stop {
        seq![(2int, Seq::<char>::empty())]
    } else {
        Seq::empty()
    }, stop)
}

fn push_nonempty(events: &mut Vec<StreamEvent>, text: Option<String>, reasoning: bool)
    ensures
        final(events)@.map_values(|e: StreamEvent| event_view(e)) == old(events)@.map_values(
            |e: StreamEvent| event_view(e),
        ) + match text {
            Some(t) => if t@.len() > 0 {
                seq![(if reasoning {
                    1int
                } else {
                    0int
                }, t@)]
            } else {
                Seq::empty()
            },
            None => Seq::empty(),
        },
        final(events)@ == old(events)@ + match text {
            Some(t) => if t@.len() > 0 {
                seq![
                    if reasoning {
                        StreamEvent::Reasoning(t)
                    } else {
                        StreamEvent::Delta(t)
                    },
                ]
            } else {
                Seq::empty()
            },
            None => Seq::empty(),
        },
{
    let ghost before = events@;
    match text {
        Some(t) => {
            if !t.as_str().is_empty() {
                let ev = if reasoning {
                    StreamEvent::Reasoning(t)
                } else {
                    StreamEvent::Delta(t)
                };
                events.push(ev);
                assert(events@.map_values(|e: StreamEvent| event_view(e)) =~= before.map_values(
                    |e: StreamEvent| event_view(e),
                ).push(event_view(ev)));
                assert(events@ =~= before + seq![ev]);
                return;
            }
        },
        None => {},
    }
    assert(before.map_values(|e: StreamEvent| event_view(e)) + Seq::empty() =~= before.map_values(
        |e: StreamEvent| event_view(e),
    ));
    assert(before + Seq::<StreamEvent>::empty() =~= before);
}

/// In a decoded OpenAI-style chunk, an answer event (kind 0) carries exactly
/// the chunk's content and a reasoning event (kind 1) exactly its reasoning
/// content; nothing else becomes text.
pub proof fn lemma_openai_chunk_kinds(
    reasoning: Option<Seq<char>>,
    content: Option<Seq<char>>,
    finish_reason: Option<Seq<char>>,
)
    ensures
        forall|i: int|
            0 <= i < openai_chunk_events(reasoning, content, finish_reason).0.len() ==> {
                let e = #[trigger] openai_chunk_events(reasoning, content, finish_reason).0[i];
                &&& e.0 == 0 ==> content == Some(e.1) && e.1.len() > 0
                &&& e.0 == 1 ==> reasoning == Some(e.1) && e.1.len() > 0
                &&& e.0 == 0 || e.0 == 1 || e.0 == 2
            },
        match content {
            Some(c) => c.len() > 0 ==> openai_chunk_events(reasoning, content, finish_reason).0.contains(
                (0int, c),
            ),
            None => true,
        },
{
    let ev = openai_chunk_events(reasoning, content, finish_reason).0;
    if let Some(c) = content {
        if c.len() > 0 {
            let k = if reasoning matches Some(t) && t.len() > 0 {
                1int
            } else {
                0int
            };
            assert(ev[k] == (0int, c));
        }
    }
}

/// In a decoded Ollama chunk without an error, an answer event (kind 0)
/// carries exactly the message content and a reasoning event (kind 1)
/// exactly its thinking.
pub proof fn lemma_ollama_chunk_kinds(
    thinking: Option<Seq<char>>,
    content: Option<Seq<char>>,
    done: bool,
)
    ensures
        forall|i: int|
            0 <= i < ollama_chunk_events(None, thinking, content, done).0.len() ==> {
                let e = #[trigger] ollama_chunk_events(None, thinking, content, done).0[i];
                &&& e.0 == 0 ==> content == Some(e.1) && e.1.len() > 0
                &&& e.0 == 1 ==> thinking == Some(e.1) && e.1.len() > 0
                &&& e.0 == 0 || e.0 == 1 || e.0 == 2
            },
        match thinking {
            Some(t) => t.len() > 0 ==> ollama_chunk_events(None, thinking, content, done).0[0] == (1int, t),
            None => true,
        },
{
}

/// Interpret one decoded OpenAI-style stream chunk.
pub fn openai_chunk(
    reasoning_content: Option<String>,
    content: Option<String>,
    finish_reason: Option<String>,
) -> (r: (Vec<StreamEvent>, bool))
    ensures
        (r.0@.map_values(|e: StreamEvent| event_view(e)), r.1) == openai_chunk_events(
            opt_str(reasoning_content),
            opt_str(content),
            opt_str(finish_reason),
        ),
        forall|i: int|
            0 <= i < r.0@.len() ==> match #[trigger] r.0@[i] {
                StreamEvent::Reasoning(x) => reasoning_content matches Some(t) && x@ == t@ && t@.len() > 0,
                StreamEvent::Delta(x) => content matches Some(c) && x@ == c@ && c@.len() > 0,
                StreamEvent::Done => finish_reason matches Some(f) && f@ == "stop"@,
                StreamEvent::Error(_) => false,
            },
        match reasoning_content {
            Some(t) => t@.len() > 0 ==> r.0@.len() > 0 && (r.0@[0] is Reasoning && r.0@[0]->Reasoning_0@ == t@),
            None => true,
        },
        match content {
            Some(c) => c@.len() > 0 ==> {
                let k = if reasoning_content matches Some(t) && t@.len() > 0 {
                    1int
                } else {
                    0int
                };
                r.0@.len() > k && (r.0@[k] is Delta && r.0@[k]->Delta_0@ == c@)
            },
            None => true,
        },
        r.1 <==> (finish_reason matches Some(f) && f@ == "stop"@),
        r.1 ==> r.0@.len() > 0 && r.0@.last() is Done,
{
    let mut events: Vec<StreamEvent> = Vec::new();
    push_nonempty(&mut events, reasoning_content, true);
    push_nonempty(&mut events, content, false);
    let stop = match &finish_reason {
        Some(f) => crate::models::str_is(f.as_str(), "stop"),
        None => false,
    };
    let ghost before = events@;
    if stop {
        events.push(StreamEvent::Done);
    }
    proof {
        let spec = openai_chunk_events(opt_str(reasoning_content), opt_str(content), opt_str(finish_reason));
        assert(events@.map_values(|e: StreamEvent| event_view(e)) =~= spec.0);
    }
    (events, stop)
}

/// The events of one decoded Ollama stream chunk: an error ends the stream
/// with that error followed by `Done`; otherwise thinking then content, each only when
/// non-empty, then `Done` when the chunk is the last one.
pub open spec fn ollama_chunk_events(
    error: Option<Seq<char>>,
    thinking: Option<Seq<char>>,
    content: Option<Seq<char>>,
    done: bool,
) -> (Seq<(int, Seq<char>)>, bool) {
    match error {
        Some(e) => (seq![(3int, e), (2int, Seq::<char>::empty())], true),
        None => {
            let r = match thinking {
                Some(t) => if t.len() > 0 {
                    seq![(1int, t)]
                } else {
                    Seq::empty()
                },
                None => Seq::empty(),
            };
            let c = match content {
                Some(t) => if t.len() > 0 {
                    seq![(0int, t)]
                } else {
                    Seq::empty()
                },
                None => Seq::empty(),
            };
            (r + c + if done {
                seq![(2int, Seq::<char>::empty())]
            } else {
                Seq::empty()
            }, done)
        },
    }
}

/// Interpret one decoded Ollama stream chunk. `message` holds the chunk's
/// message content and thinking, when it carries a message.
pub fn ollama_chunk(
    error: Option<String>,
    message: Option<(String, Option<String>)>,
    done: bool,
) -> (r: (Vec<StreamEvent>, bool))
    ensures
        (r.0@.map_values(|e: StreamEvent| event_view(e)), r.1) == ollama_chunk_events(
            opt_str(error),
            match message {
                Some(m) => opt_str(m.1),
                None => None,
            },
            match message {
                Some(m) => Some(m.0@),
                None => None,
            },
            done,
        ),
        match error {
            Some(e) => r.1 && r.0@.len() == 2 && (r.0@[0] is Error && r.0@[0]->Error_0@ == e@)
                && r.0@[1] is Done,
            None => {
                &&& r.1 == done
                &&& forall|i: int|
                    0 <= i < r.0@.len() ==> match #[trigger] r.0@[i] {
                        StreamEvent::Reasoning(x) => message matches Some(m) && m.1 matches Some(t)
                            && x@ == t@ && t@.len() > 0,
                        StreamEvent::Delta(x) => message matches Some(m) && x@ == m.0@ && m.0@.len() > 0,
                        StreamEvent::Done => done,
                        StreamEvent::Error(_) => false,
                    }
                &&& match message {
                    Some(m) => {
                        &&& (match m.1 {
                            Some(t) => t@.len() > 0 ==> r.0@.len() > 0 && (r.0@[0] is Reasoning && r.0@[0]->Reasoning_0@ == t@),
                            None => true,
                        })
                        &&& m.0@.len() > 0 ==> {
                            let k = if m.1 matches Some(t) && t@.len() > 0 {
                                1int
                            } else {
                                0int
                            };
                            r.0@.len() > k && (r.0@[k] is Delta && r.0@[k]->Delta_0@ == m.0@)
                        }
                    },
                    None => true,
                }
                &&& done ==> r.0@.len() > 0 && r.0@.last() is Done
            },
        },
{
    let mut events: Vec<StreamEvent> = Vec::new();
    match error {
        Some(e) => {
            events.push(StreamEvent::Error(e));
            events.push(StreamEvent::Done);
            proof {
                assert(events@.map_values(|e: StreamEvent| event_view(e)) =~= seq![
                    (3int, e@),
                    (2int, Seq::<char>::empty()),
                ]);
            }
            return (events, true);
        },
        None => {},
    }
    let (content, thinking) = match message {
        Some(m) => (Some(m.0), m.1),
        None => (None, None),
    };
    push_nonempty(&mut events, thinking, true);
    push_nonempty(&mut events, content, false);
    let ghost before = events@;
    if done {
        events.push(StreamEvent::Done);
    }
    proof {
        assert(events@.map_values(|e: StreamEvent| event_view(e)) =~= before.map_values(
            |e: StreamEvent| event_view(e),
        ) + if done {
            seq![(2int, Seq::<char>::empty())]
        } else {
            Seq::<(int, Seq<char>)>::empty()
        });
    }
    (events, done)
}


/// The concatenation of a list of text chunks.
pub open spec fn concat_all(chunks: Seq<Seq<char>>) -> Seq<char>
    decreases chunks.len(),
{
    if chunks.len() == 0 {
        Seq::empty()
    } else {
        concat_all(chunks.drop_last()) + chunks.last()
    }
}

/// Marker sent before the first reasoning chunk of a run: the opening tag
/// that the client's `parse_thinking` renders as a collapsible block.
pub open spec fn reasoning_open() -> Seq<char> {
    "<think>"@
}

/// Marker sent when reasoning gives way to the answer: the closing tag.
pub open spec fn reasoning_close() -> Seq<char> {
    "</think>"@
}

/// The chunks forwarded for one provider event, given whether a reasoning
/// run is open.
pub open spec fn forwarded_for(ev: (int, Seq<char>), in_reasoning: bool) -> Seq<Seq<char>> {
    if ev.0 == 1 {
        (if in_reasoning {
            Seq::empty()
        } else {
            seq![reasoning_open()]
        }) + seq![ev.1]
    } else if ev.0 == 0 {
        (if in_reasoning {
            seq![reasoning_close()]
        } else {
            Seq::empty()
        }) + seq![ev.1]
    } else if ev.0 == 3 {
        seq!["\n\n[error: "@ + ev.1 + "]"@]
    } else {
        Seq::empty()
    }
}

/// Answer text is forwarded as it is, with the closing tag in front only
/// when it ends an open reasoning run; reasoning text gets the opening tag
/// only when it starts a run. Errors and the end of the stream add no text.
pub proof fn lemma_forwarding_frames_runs(c: Seq<char>, e: Seq<char>, open: bool)
    ensures
        forwarded_for((0, c), false) == seq![c],
        forwarded_for((0, c), true) == seq!["</think>"@, c],
        forwarded_for((1, c), false) == seq!["<think>"@, c],
        forwarded_for((1, c), true) == seq![c],
        forwarded_for((2, Seq::empty()), open) == Seq::<Seq<char>>::empty(),
        forwarded_for((3, e), open) == seq!["\n\n[error: "@ + e + "]"@],
{
    assert(Seq::<Seq<char>>::empty() + seq![c] =~= seq![c]);
    assert(seq!["</think>"@] + seq![c] =~= seq!["</think>"@, c]);
    assert(seq!["<think>"@] + seq![c] =~= seq!["<think>"@, c]);
}

/// The reply being streamed for one generation: what the client is sent
/// and what is persisted once the stream ends.
pub struct ReplyAccumulator {
    accumulated: String,
    in_reasoning: bool,
}

impl View for ReplyAccumulator {
    type V = (Seq<char>, bool);

    closed spec fn view(&self) -> (Seq<char>, bool) {
        (self.accumulated@, self.in_reasoning)
    }
}

fn forward(acc: &mut String, out: &mut Vec<String>, chunk: String)
    ensures
        final(acc)@ == old(acc)@ + chunk@,
        views(final(out)@) == views(old(out)@).push(chunk@),
{
    push_str(acc, chunk.as_str());
    let ghost before = out@;
    out.push(chunk);
    assert(views(out@) =~= views(before).push(chunk@));
}

fn owned(s: &str) -> (r: String)
    ensures
        r@ == s@,
{
    let mut r = String::new();
    push_str(&mut r, s);
    r
}

impl ReplyAccumulator {
    /// Nothing accumulated, no reasoning run open.
    pub fn new() -> (a: Self)
        ensures
            a@ == (Seq::<char>::empty(), false),
    {
        ReplyAccumulator { accumulated: String::new(), in_reasoning: false }
    }

    /// The reply accumulated so far.
    pub fn accumulated(&self) -> (s: &String)
        ensures
            s@ == self@.0,
    {
        &self.accumulated
    }

    /// Handle one provider event: the chunks to send to the client, and
    /// whether the stream ends here. Reasoning runs are framed by markers;
    /// an error is reported to the client but never becomes part of the
    /// reply.
    pub fn on_event(&mut self, ev: StreamEvent) -> (r: (Vec<String>, bool))
        ensures
            views(r.0@) == forwarded_for(event_view(ev), old(self)@.1),
            r.1 == (event_view(ev).0 == 2 || event_view(ev).0 == 3),
            event_view(ev).0 == 0 || event_view(ev).0 == 1 ==> final(self)@ == (old(self)@.0
                + concat_all(views(r.0@)), event_view(ev).0 == 1),
            event_view(ev).0 == 2 || event_view(ev).0 == 3 ==> final(self)@ == old(self)@,
            match ev {
                StreamEvent::Delta(c) => {
                    &&& !r.1
                    &&& !final(self)@.1
                    &&& views(r.0@) == (if old(self)@.1 {
                        seq!["</think>"@, c@]
                    } else {
                        seq![c@]
                    })
                    &&& final(self)@.0 == (if old(self)@.1 {
                        old(self)@.0 + "</think>"@ + c@
                    } else {
                        old(self)@.0 + c@
                    })
                },
                StreamEvent::Reasoning(c) => {
                    &&& !r.1
                    &&& final(self)@.1
                    &&& views(r.0@) == (if old(self)@.1 {
                        seq![c@]
                    } else {
                        seq!["<think>"@, c@]
                    })
                    &&& final(self)@.0 == (if old(self)@.1 {
                        old(self)@.0 + c@
                    } else {
                        old(self)@.0 + "<think>"@ + c@
                    })
                },
                StreamEvent::Done => r.1 && r.0@.len() == 0 && final(self)@ == old(self)@,
                StreamEvent::Error(e) => r.1 && views(r.0@) == seq!["\n\n[error: "@ + e@ + "]"@]
                    && final(self)@ == old(self)@,
            },
    {
        proof {
            reveal_with_fuel(concat_all, 3);
        }
        let mut out: Vec<String> = Vec::new();
        let ghost acc0 = self.accumulated@;
        match ev {
            StreamEvent::Reasoning(chunk) => {
                if !self.in_reasoning {
                    self.in_reasoning = true;
                    forward(&mut self.accumulated, &mut out, owned("<think>"));
                }
                forward(&mut self.accumulated, &mut out, chunk);
                self.in_reasoning = true;
                proof {
                    assert(views(out@) =~= forwarded_for(event_view(ev), old(self)@.1));
                    if old(self)@.1 {
                        assert(views(out@).drop_last() =~= Seq::<Seq<char>>::empty());
                    } else {
                        assert(views(out@).drop_last().drop_last() =~= Seq::<Seq<char>>::empty());
                    }
                }
                (out, false)
            },
            StreamEvent::Delta(chunk) => {
                if self.in_reasoning {
                    self.in_reasoning = false;
                    forward(&mut self.accumulated, &mut out, owned("</think>"));
                }
                forward(&mut self.accumulated, &mut out, chunk);
                proof {
                    assert(views(out@) =~= forwarded_for(event_view(ev), old(self)@.1));
                    if old(self)@.1 {
                        assert(views(out@).drop_last().drop_last() =~= Seq::<Seq<char>>::empty());
                    } else {
                        assert(views(out@).drop_last() =~= Seq::<Seq<char>>::empty());
                    }
                }
                (out, false)
            },
            StreamEvent::Done => {
                assert(views(out@) =~= Seq::<Seq<char>>::empty());
                (out, true)
            },
            StreamEvent::Error(e) => {
                let mut notice = String::new();
                push_str(&mut notice, "\n\n[error: ");
                push_str(&mut notice, e.as_str());
                push_str(&mut notice, "]");
                out.push(notice);
                assert(views(out@) =~= forwarded_for(event_view(ev), old(self)@.1));
                (out, true)
            },
        }
    }

    /// Close an open reasoning run once the stream has ended: the chunks to
    /// send (the closing marker, if a run was open).
    pub fn finish(&mut self) -> (out: Vec<String>)
        ensures
            views(out@) == if old(self)@.1 {
                seq![reasoning_close()]
            } else {
                Seq::<Seq<char>>::empty()
            },
            final(self)@ == (old(self)@.0 + concat_all(views(out@)), false),
            old(self)@.1 ==> views(out@) == seq!["</think>"@] && final(self)@.0 == old(self)@.0 + "</think>"@,
            !old(self)@.1 ==> out@.len() == 0 && final(self)@ == old(self)@,
    {
        proof {
            reveal_with_fuel(concat_all, 2);
        }
        let mut out: Vec<String> = Vec::new();
        if self.in_reasoning {
            self.in_reasoning = false;
            forward(&mut self.accumulated, &mut out, owned("</think>"));
            assert(views(out@).drop_last() =~= Seq::<Seq<char>>::empty());
        } else {
            assert(views(out@) =~= Seq::<Seq<char>>::empty());
            assert(self.accumulated@ + Seq::<char>::empty() =~= self.accumulated@);
        }
        out
    }

    /// The reply to persist: the accumulated text, unless it is blank.
    pub fn reply_to_save(&self) -> (r: Option<String>)
        ensures
            crate::text::is_blank(self@.0) ==> r is None,
            !crate::text::is_blank(self@.0) ==> (r matches Some(s) && s@ == self@.0),
    {
        if crate::text::str_is_blank(self.accumulated.as_str()) {
            None
        } else {
            Some(self.accumulated.clone())
        }
    }
}

} // verus!

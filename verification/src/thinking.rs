//! Splitting a reasoning model's `<think>...</think>` prefix from its answer.

use crate::text::{
    chars_of, find, find_exec, occurs_at_exec, skip_ws, starts_with, string_of, string_of_range,
    sub_vec, trim, trim_range, trim_start,
};
use vstd::prelude::*;

verus! {

/// The parsed pieces of an assistant message.
#[derive(Debug)]
pub struct Parsed {
    /// The reasoning segment, if there is a non-empty one.
    pub reasoning: Option<String>,
    /// True while a `<think>` block is still open: reasoning is streaming
    /// and the answer hasn't started yet.
    pub reasoning_open: bool,
    /// The visible answer.
    pub answer: String,
}

/// The view of a [`Parsed`]: reasoning, whether it is still open, answer.
pub open spec fn parsed_view(p: Parsed) -> (Option<Seq<char>>, bool, Seq<char>) {
    (
        match p.reasoning {
            Some(r) => Some(r@),
            None => None,
        },
        p.reasoning_open,
        p.answer@,
    )
}

/// How a message splits into reasoning and answer.
pub open spec fn thinking_split(text: Seq<char>) -> (Option<Seq<char>>, bool, Seq<char>) {
    let t = trim_start(text);
    if starts_with(t, "<think>"@) {
        let rest = t.subrange(7, t.len() as int);
        match find(rest, "</think>"@) {
            Some(end) => {
                let reasoning = trim(rest.subrange(0, end));
                let answer = trim_start(rest.subrange(end + 8, rest.len() as int));
                (
                    if reasoning.len() > 0 {
                        Some(reasoning)
                    } else {
                        None
                    },
                    false,
                    answer,
                )
            },
            None => (Some(trim_start(rest)), true, Seq::empty()),
        }
    } else {
        (None, false, text)
    }
}

/// Split reasoning models' `<think>...</think>` prefix from the answer,
/// including the in-progress case where the closing tag hasn't streamed in.
pub fn parse_thinking(text: &str) -> (p: Parsed)
    ensures
        parsed_view(p) == thinking_split(text@),
{
    proof {
        reveal_strlit("<think>");
        reveal_strlit("</think>");
    }
    let v = chars_of(text);
    let open_tag = chars_of("<think>");
    let close_tag = chars_of("</think>");
    assert(open_tag@.len() == 7);
    assert(close_tag@.len() == 8);
    let i = skip_ws(&v, 0);
    assert(v@.subrange(0, v@.len() as int) =~= v@);
    let ghost t = v@.subrange(i as int, v@.len() as int);
    proof {
        crate::text::lemma_starts_with_sub(v@, open_tag@, i as int);
    }
    if occurs_at_exec(&v, &open_tag, i) {
        assert(crate::text::occurs_at(v@, open_tag@, i as int));
        assert(i + 7 <= v@.len());
        assert(v@.len() == v.len());
        let rest = sub_vec(&v, i + 7, v.len());
        assert(rest@ =~= t.subrange(7, t.len() as int));
        match find_exec(&rest, &close_tag) {
            Some(end) => {
                proof {
                    crate::text::lemma_find_occurs(rest@, close_tag@);
                }
                let (a, b) = trim_range(&rest, 0, end);
                let start = skip_ws(&rest, end + 8);
                let answer = string_of_range(&rest, start, rest.len());
                let reasoning = if a < b {
                    Some(string_of_range(&rest, a, b))
                } else {
                    None
                };
                Parsed { reasoning, reasoning_open: false, answer }
            },
            None => {
                let start = skip_ws(&rest, 0);
                assert(rest@.subrange(0, rest@.len() as int) =~= rest@);
                Parsed {
                    reasoning: Some(string_of_range(&rest, start, rest.len())),
                    reasoning_open: true,
                    answer: String::new(),
                }
            },
        }
    } else {
        Parsed { reasoning: None, reasoning_open: false, answer: string_of(&v) }
    }
}

} // verus!

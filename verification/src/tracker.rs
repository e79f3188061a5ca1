//! The app-wide tracker of replies being streamed, keyed by chat session,
//! which outlives the chat page so a reply finishes (and is announced) even
//! after the user navigates away.

use crate::text::push_str;
use std::collections::HashMap;
use vstd::prelude::*;

verus! {

broadcast use vstd::std_specs::hash::group_hash_axioms;

/// Replies streaming in: session id to the text received so far.
pub struct GenerationTracker {
    active: HashMap<u128, String>,
}

impl View for GenerationTracker {
    type V = Map<u128, Seq<char>>;

    closed spec fn view(&self) -> Map<u128, Seq<char>> {
        self.active@.map_values(|s: String| s@)
    }
}

impl GenerationTracker {
    /// Nothing streaming.
    pub fn new() -> (t: Self)
        ensures
            t@ == Map::<u128, Seq<char>>::empty(),
    {
        let t = GenerationTracker { active: HashMap::new() };
        assert(t@ =~= Map::<u128, Seq<char>>::empty());
        t
    }

    /// A reply starts streaming for `session_id`, with no text yet.
    pub fn start(&mut self, session_id: u128)
        ensures
            final(self)@ == old(self)@.insert(session_id, Seq::empty()),
    {
        self.active.insert(session_id, String::new());
        assert(self@ =~= old(self)@.insert(session_id, Seq::empty()));
    }

    /// A chunk of the reply for `session_id` arrived.
    pub fn append(&mut self, session_id: u128, chunk: &str)
        ensures
            old(self)@.contains_key(session_id) ==> final(self)@ == old(self)@.insert(
                session_id,
                old(self)@[session_id] + chunk@,
            ),
            !old(self)@.contains_key(session_id) ==> final(self)@ == old(self)@,
    {
        let current = match self.active.get(&session_id) {
            Some(s) => Some(s.clone()),
            None => None,
        };
        match current {
            Some(mut text) => {
                push_str(&mut text, chunk);
                self.active.insert(session_id, text);
                assert(self@ =~= old(self)@.insert(session_id, old(self)@[session_id] + chunk@));
            },
            None => {},
        }
    }

    /// The reply for `session_id` ended; its entry goes, and the toast to
    /// show is returned: whether the stream broke off decides which.
    pub fn finish(&mut self, session_id: u128, errored: bool) -> (message: &'static str)
        ensures
            final(self)@ == old(self)@.remove(session_id),
            message@ == (if errored {
                "Reply stopped"@
            } else {
                "Reply finished"@
            }),
    {
        self.active.remove(&session_id);
        assert(self@ =~= old(self)@.remove(session_id));
        if errored {
            "Reply stopped"
        } else {
            "Reply finished"
        }
    }

    /// The reply for `session_id` could not start; its entry goes, and the
    /// error to show is returned.
    pub fn fail(&mut self, session_id: u128, error: &str) -> (message: String)
        ensures
            final(self)@ == old(self)@.remove(session_id),
            message@ == "Generation failed: "@ + error@,
    {
        self.active.remove(&session_id);
        assert(self@ =~= old(self)@.remove(session_id));
        let mut m = String::new();
        push_str(&mut m, "Generation failed: ");
        push_str(&mut m, error);
        m
    }

    /// The text received so far for `session_id`, while it streams.
    pub fn content(&self, session_id: u128) -> (c: Option<&String>)
        ensures
            match c {
                Some(s) => self@.contains_key(session_id) && s@ == self@[session_id],
                None => !self@.contains_key(session_id),
            },
    {
        self.active.get(&session_id)
    }
}

/// The error shown when a stream breaks off.
pub fn stream_error_message(error: &str) -> (m: String)
    ensures
        m@ == "Stream error: "@ + error@,
{
    let mut m = String::new();
    push_str(&mut m, "Stream error: ");
    push_str(&mut m, error);
    m
}

/// A reply that starts and then ends leaves no trace of its session, and
/// other sessions' replies are untouched.
pub proof fn lemma_start_then_finish(m: Map<u128, Seq<char>>, s: u128, other: u128)
    requires
        other != s,
    ensures
        !m.insert(s, Seq::empty()).remove(s).contains_key(s),
        m.insert(s, Seq::empty()).remove(s).contains_key(other) == m.contains_key(other),
        m.contains_key(other) ==> m.insert(s, Seq::empty()).remove(s)[other] == m[other],
{
}

} // verus!

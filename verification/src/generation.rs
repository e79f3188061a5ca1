//! Registry of in-flight streaming generations, keyed by chat session, so a
//! generation can be cancelled mid-stream. A session has at most one active
//! generation: starting a new one replaces the previous (whose cancellation
//! handle is handed back to be signalled), and a generation only ever
//! deregisters itself.

use std::collections::HashMap;
use vstd::prelude::*;

verus! {

broadcast use vstd::std_specs::hash::group_hash_axioms;

/// The registry after a generation `g` with cancellation handle `h` starts
/// for session `s`.
pub open spec fn after_begin<T>(m: Map<u128, (u128, T)>, s: u128, g: u128, h: T) -> Map<
    u128,
    (u128, T),
> {
    m.insert(s, (g, h))
}

/// The registry after generation `g` of session `s` ends: its entry goes,
/// unless a newer generation has replaced it.
pub open spec fn after_finish<T>(m: Map<u128, (u128, T)>, s: u128, g: u128) -> Map<
    u128,
    (u128, T),
> {
    if m.contains_key(s) && m[s].0 == g {
        m.remove(s)
    } else {
        m
    }
}

/// Active generations: session id to (generation id, cancellation handle).
pub struct GenerationRegistry<T> {
    active: HashMap<u128, (u128, T)>,
}

impl<T> View for GenerationRegistry<T> {
    type V = Map<u128, (u128, T)>;

    closed spec fn view(&self) -> Map<u128, (u128, T)> {
        self.active@
    }
}

impl<T> GenerationRegistry<T> {
    /// An empty registry.
    pub fn new() -> (r: Self)
        ensures
            r@ == Map::<u128, (u128, T)>::empty(),
    {
        GenerationRegistry { active: HashMap::new() }
    }

    /// Register generation `generation_id` for a session. Returns the
    /// cancellation handle of the generation it replaces, if any, which the
    /// caller signals.
    pub fn begin(&mut self, session_id: u128, generation_id: u128, cancel: T) -> (replaced: Option<T>)
        ensures
            final(self)@ == after_begin(old(self)@, session_id, generation_id, cancel),
            replaced == (if old(self)@.contains_key(session_id) {
                Some(old(self)@[session_id].1)
            } else {
                None
            }),
    {
        match self.active.insert(session_id, (generation_id, cancel)) {
            Some(old_entry) => Some(old_entry.1),
            None => None,
        }
    }

    /// Deregister generation `generation_id` once its stream ends. No-op if
    /// a newer generation has replaced it.
    pub fn finish(&mut self, session_id: u128, generation_id: u128)
        ensures
            final(self)@ == after_finish(old(self)@, session_id, generation_id),
    {
        let current = match self.active.get(&session_id) {
            Some(entry) => Some(entry.0),
            None => None,
        };
        if current == Some(generation_id) {
            self.active.remove(&session_id);
        }
    }

    /// The cancellation handle of the session's active generation, if any.
    pub fn cancel(&self, session_id: u128) -> (handle: Option<&T>)
        ensures
            handle matches Some(h) ==> self@.contains_key(session_id) && *h == self@[session_id].1,
            handle is None ==> !self@.contains_key(session_id),
    {
        match self.active.get(&session_id) {
            Some(entry) => Some(&entry.1),
            None => None,
        }
    }

    /// The id of the session's active generation, if any.
    pub fn active_generation(&self, session_id: u128) -> (g: Option<u128>)
        ensures
            g matches Some(id) ==> self@.contains_key(session_id) && id == self@[session_id].0,
            g is None ==> !self@.contains_key(session_id),
    {
        match self.active.get(&session_id) {
            Some(entry) => Some(entry.0),
            None => None,
        }
    }
}

/// A generation that ends right after it starts leaves no trace of its
/// session.
pub proof fn lemma_begin_then_finish<T>(m: Map<u128, (u128, T)>, s: u128, g: u128, h: T)
    ensures
        after_finish(after_begin(m, s, g, h), s, g) == m.remove(s),
{
    assert(after_begin(m, s, g, h).remove(s) =~= m.remove(s));
}

/// When a newer generation has replaced an older one, the older one ending
/// leaves the newer one registered.
pub proof fn lemma_stale_finish_keeps_newer<T>(
    m: Map<u128, (u128, T)>,
    s: u128,
    g_old: u128,
    h_old: T,
    g_new: u128,
    h_new: T,
)
    requires
        g_old != g_new,
    ensures
        after_finish(after_begin(after_begin(m, s, g_old, h_old), s, g_new, h_new), s, g_old)
            == after_begin(m, s, g_new, h_new),
{
    assert(after_begin(after_begin(m, s, g_old, h_old), s, g_new, h_new) =~= after_begin(
        m,
        s,
        g_new,
        h_new,
    ));
}

/// Generations of different sessions never disturb each other.
pub proof fn lemma_sessions_independent<T>(
    m: Map<u128, (u128, T)>,
    s: u128,
    g: u128,
    h: T,
    other: u128,
    g2: u128,
)
    requires
        s != other,
    ensures
        after_begin(m, s, g, h).contains_key(other) == m.contains_key(other),
        after_finish(m, s, g2).contains_key(other) == m.contains_key(other),
        m.contains_key(other) ==> after_begin(m, s, g, h)[other] == m[other]
            && after_finish(m, s, g2)[other] == m[other],
{
}

} // verus!

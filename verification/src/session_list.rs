//! The sidebar's conversation list: pages fetched newest first, merged
//! without repeating a row, and requests numbered so that a slow, older
//! response never lands on top of a newer one.

use crate::ids::uuid_text;
use crate::text::{is_blank, push_str, str_is_blank};
use crate::ui::{appended_rows, merge_page};
use vstd::prelude::*;

verus! {

/// Rows fetched per page.
pub const PAGE_SIZE: u32 = 30;

/// How long typing must pause before a search is sent, in milliseconds.
pub const SEARCH_DEBOUNCE_MS: u64 = 250;

/// The list's state: the session ids held, where the next page starts,
/// whether more pages exist, whether a request is in flight, the number of
/// the latest request, and the last error.
pub struct SessionList {
    rows: Vec<u128>,
    next_offset: u32,
    has_more: bool,
    loading: bool,
    request_id: u32,
    error: Option<String>,
}

/// The view of a [`SessionList`].
pub struct ListState {
    pub rows: Seq<u128>,
    pub next_offset: u32,
    pub has_more: bool,
    pub loading: bool,
    pub request_id: u32,
    pub error: Option<Seq<char>>,
}

impl View for SessionList {
    type V = ListState;

    closed spec fn view(&self) -> ListState {
        ListState {
            rows: self.rows@,
            next_offset: self.next_offset,
            has_more: self.has_more,
            loading: self.loading,
            request_id: self.request_id,
            error: match self.error {
                Some(e) => Some(e@),
                None => None,
            },
        }
    }
}

/// The state after the page `page` answers request `id`, asked for with
/// `limit` rows, replacing the list or appending to it. An answer to any
/// request but the latest is ignored.
pub open spec fn after_page(s: ListState, id: u32, page: Seq<u128>, limit: u32, replace: bool) -> ListState {
    if id != s.request_id {
        s
    } else if replace {
        ListState {
            rows: page,
            next_offset: page.len() as u32,
            has_more: page.len() == limit,
            loading: false,
            request_id: s.request_id,
            error: None,
        }
    } else {
        ListState {
            rows: s.rows + appended_rows(s.rows, page),
            next_offset: (s.next_offset + page.len()) as u32,
            has_more: page.len() == limit,
            loading: false,
            request_id: s.request_id,
            error: None,
        }
    }
}

/// The state after request `id` failed with `message`; ignored unless it is
/// the latest request.
pub open spec fn after_error(s: ListState, id: u32, message: Seq<char>) -> ListState {
    if id != s.request_id {
        s
    } else {
        ListState { loading: false, error: Some(message), ..s }
    }
}

/// No id occurs twice.
pub open spec fn distinct_rows(s: Seq<u128>) -> bool {
    forall|i: int, j: int| 0 <= i < j < s.len() ==> s[i] != s[j]
}

impl SessionList {
    /// An empty list; nothing requested yet.
    pub fn new() -> (l: Self)
        ensures
            l@.rows.len() == 0,
            l@.next_offset == 0,
            !l@.has_more,
            !l@.loading,
            l@.request_id == 0,
            l@.error is None,
    {
        SessionList {
            rows: Vec::new(),
            next_offset: 0,
            has_more: false,
            loading: false,
            request_id: 0,
            error: None,
        }
    }

    /// A request is sent: it gets the next number, which is returned, and
    /// the list is loading.
    pub fn begin_request(&mut self) -> (id: u32)
        requires
            old(self)@.request_id < u32::MAX,
        ensures
            id == old(self)@.request_id + 1,
            final(self)@ == (ListState { request_id: id, loading: true, ..old(self)@ }),
    {
        self.request_id = self.request_id + 1;
        self.loading = true;
        self.request_id
    }

    /// The page `page` answered request `id`.
    pub fn on_page(&mut self, id: u32, page: Vec<u128>, limit: u32, replace: bool)
        requires
            page@.len() <= u32::MAX,
            !replace ==> old(self)@.next_offset + page@.len() <= u32::MAX,
        ensures
            final(self)@ == after_page(old(self)@, id, page@, limit, replace),
    {
        if id != self.request_id {
            return;
        }
        self.loading = false;
        self.error = None;
        let n = page.len() as u32;
        self.has_more = n == limit;
        if replace {
            self.next_offset = n;
            self.rows = page;
        } else {
            self.next_offset = self.next_offset + n;
            merge_page(&mut self.rows, &page);
        }
    }

    /// Request `id` failed with `message`.
    pub fn on_error(&mut self, id: u32, message: String)
        ensures
            final(self)@ == after_error(old(self)@, id, message@),
    {
        if id == self.request_id {
            self.loading = false;
            self.error = Some(message);
        }
    }

    /// How many rows a refresh asks for: as many as are held, and at least a
    /// page, so a refresh does not undo the user's scrolling.
    pub fn reload_limit(&self) -> (n: u32)
        ensures
            n == (if (self@.rows.len() as u32) < PAGE_SIZE {
                PAGE_SIZE
            } else {
                self@.rows.len() as u32
            }),
    {
        let loaded = self.rows.len() as u32;
        if loaded < PAGE_SIZE {
            PAGE_SIZE
        } else {
            loaded
        }
    }

    /// Where "load more" starts its request, unless a request is in flight
    /// or no more pages exist.
    pub fn load_more_offset(&self) -> (o: Option<u32>)
        ensures
            (self@.loading || !self@.has_more) ==> o is None,
            !(self@.loading || !self@.has_more) ==> o == Some(self@.next_offset),
    {
        if self.loading || !self.has_more {
            None
        } else {
            Some(self.next_offset)
        }
    }

    /// The session ids held, newest first.
    pub fn rows(&self) -> (r: &Vec<u128>)
        ensures
            r@ == self@.rows,
    {
        &self.rows
    }

    /// Whether a request is in flight.
    pub fn is_loading(&self) -> (b: bool)
        ensures
            b == self@.loading,
    {
        self.loading
    }

    /// The last error, if the latest request failed.
    pub fn error(&self) -> (e: Option<&String>)
        ensures
            match e {
                Some(m) => self@.error == Some(m@),
                None => self@.error is None,
            },
    {
        match &self.error {
            Some(m) => Some(m),
            None => None,
        }
    }
}

/// An answer to any request but the latest leaves the list as it was, so a
/// slow, older search never replaces the results of a newer one.
pub proof fn lemma_stale_answers_ignored(
    s: ListState,
    id: u32,
    page: Seq<u128>,
    limit: u32,
    replace: bool,
    message: Seq<char>,
)
    requires
        id != s.request_id,
    ensures
        after_page(s, id, page, limit, replace) == s,
        after_error(s, id, message) == s,
{
}

proof fn lemma_appended_distinct(held: Seq<u128>, page: Seq<u128>)
    requires
        distinct_rows(held),
    ensures
        distinct_rows(held + appended_rows(held, page)),
    decreases page.len(),
{
    if page.len() > 0 {
        lemma_appended_distinct(held, page.drop_last());
        let earlier = appended_rows(held, page.drop_last());
        let x = page.last();
        if !(held.contains(x) || earlier.contains(x)) {
            let both = held + earlier;
            assert forall|k: int| 0 <= k < both.len() implies both[k] != x by {
                if k < held.len() {
                    if both[k] == x {
                        assert(held[k] == x);
                    }
                } else {
                    if both[k] == x {
                        assert(earlier[k - held.len()] == x);
                    }
                }
            }
            assert(held + earlier.push(x) =~= both.push(x));
        }
    }
}

/// Appending a page never repeats a row: a list without repeats keeps none
/// after "load more", whatever the page holds.
pub proof fn lemma_load_more_keeps_rows_distinct(s: ListState, id: u32, page: Seq<u128>, limit: u32)
    requires
        distinct_rows(s.rows),
    ensures
        distinct_rows(after_page(s, id, page, limit, false).rows),
{
    lemma_appended_distinct(s.rows, page);
}

/// Whether the search box is shown: while rows are held, or while a search
/// is typed (so it can be cleared even when nothing matched).
pub fn shows_search(rows: usize, query: &str) -> (b: bool)
    ensures
        b == (rows > 0 || !is_blank(query@)),
{
    rows > 0 || !str_is_blank(query)
}

/// The text shown when the list is empty.
pub fn empty_list_text(loading: bool, query: &str) -> (s: &'static str)
    ensures
        s@ == (if loading {
            "Loading conversations…"@
        } else if is_blank(query@) {
            "No conversations yet. Select a character to start chatting."@
        } else {
            "No conversations match your search."@
        }),
{
    if loading {
        "Loading conversations…"
    } else if str_is_blank(query) {
        "No conversations yet. Select a character to start chatting."
    } else {
        "No conversations match your search."
    }
}

/// The title of a conversation row: its title unless blank, else the
/// character's name.
pub fn row_title(title: Option<String>, character_name: &str) -> (s: String)
    ensures
        s@ == (match title {
            Some(t) => if is_blank(t@) {
                character_name@
            } else {
                t@
            },
            None => character_name@,
        }),
{
    match title {
        Some(t) => {
            if str_is_blank(t.as_str()) {
                let mut s = String::new();
                push_str(&mut s, character_name);
                s
            } else {
                t
            }
        },
        None => {
            let mut s = String::new();
            push_str(&mut s, character_name);
            s
        },
    }
}

/// The link of a conversation row: `/chat/{id}`.
pub fn row_href(session_id: u128) -> (s: String)
    ensures
        s@ == "/chat/"@ + crate::ids::uuid_hyphenated(session_id),
{
    let mut s = String::new();
    push_str(&mut s, "/chat/");
    push_str(&mut s, uuid_text(session_id).as_str());
    s
}

/// The classes of a conversation row.
pub fn row_class(active: bool) -> (s: &'static str)
    ensures
        active ==> s@
            == "flex items-start gap-3 rounded-lg p-3 pr-9 text-left text-sm transition-colors hover:bg-accent cursor-pointer no-underline bg-accent"@,
        !active ==> s@
            == "flex items-start gap-3 rounded-lg p-3 pr-9 text-left text-sm transition-colors hover:bg-accent cursor-pointer no-underline"@,
{
    if active {
        "flex items-start gap-3 rounded-lg p-3 pr-9 text-left text-sm transition-colors hover:bg-accent cursor-pointer no-underline bg-accent"
    } else {
        "flex items-start gap-3 rounded-lg p-3 pr-9 text-left text-sm transition-colors hover:bg-accent cursor-pointer no-underline"
    }
}

} // verus!

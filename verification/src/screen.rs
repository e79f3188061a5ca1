//! Small decisions of the chat screen's frame: the model picker's label and
//! when a picked model becomes the default, when the message list follows
//! new output, how message rows are keyed, and when the generic top bar
//! shows.

use crate::ids::{uuid_hyphenated, uuid_text};
use crate::models::str_is;
use crate::text::{decimal, push_char, push_decimal, push_str, starts_with, starts_with_exec, chars_of};
use vstd::prelude::*;
use vstd::utf8::encode_utf8;

verus! {

/// The model picker's label.
pub fn model_label(selected: Option<String>) -> (s: String)
    ensures
        s@ == (match selected {
            Some(m) => m@,
            None => "Select model"@,
        }),
{
    match selected {
        Some(m) => m,
        None => {
            let mut s = String::new();
            push_str(&mut s, "Select model");
            s
        },
    }
}

/// Whether picking `model` must be saved as the default model: only when it
/// differs from the saved default.
pub fn saves_default_model(saved: Option<&str>, model: &str) -> (b: bool)
    ensures
        b == !(saved matches Some(d) && d@ == model@),
{
    match saved {
        Some(d) => !str_is(d, model),
        None => true,
    }
}

/// How close to the bottom, in pixels, the list must be to keep following
/// new output.
pub const FOLLOW_THRESHOLD: i64 = 100;

/// Whether the message list is scrolled to (near) its bottom.
pub fn near_bottom(scroll_height: i32, scroll_top: i32, client_height: i32) -> (b: bool)
    ensures
        b == (scroll_height - scroll_top - client_height < FOLLOW_THRESHOLD),
{
    (scroll_height as i64) - (scroll_top as i64) - (client_height as i64) < FOLLOW_THRESHOLD
}

/// The hint shown above an empty conversation.
pub fn empty_chat_hint(character_name: Option<&str>) -> (s: String)
    ensures
        s@ == (match character_name {
            Some(n) => if n@.len() > 0 {
                "Say hello to "@ + n@ + " to begin."@
            } else {
                "Send a message to begin chatting."@
            },
            None => "Send a message to begin chatting."@,
        }),
{
    let mut s = String::new();
    match character_name {
        Some(n) => {
            if n.is_empty() {
                push_str(&mut s, "Send a message to begin chatting.");
            } else {
                push_str(&mut s, "Say hello to ");
                push_str(&mut s, n);
                push_str(&mut s, " to begin.");
            }
        },
        None => push_str(&mut s, "Send a message to begin chatting."),
    }
    s
}

/// The ids' text forms joined with `,`.
pub open spec fn joined_ids(ids: Seq<u128>) -> Seq<char>
    decreases ids.len(),
{
    if ids.len() == 0 {
        Seq::empty()
    } else if ids.len() == 1 {
        uuid_hyphenated(ids[0])
    } else {
        joined_ids(ids.drop_last()) + seq![','] + uuid_hyphenated(ids.last())
    }
}

/// The key of a message row: its id, its byte length and its attachments'
/// ids, so an edited message is drawn again rather than reused.
pub fn message_row_key(id: u128, content: &str, attachment_ids: &Vec<u128>) -> (s: String)
    ensures
        s@ == uuid_hyphenated(id) + seq![':'] + decimal(encode_utf8(content@).len()) + seq![':']
            + joined_ids(attachment_ids@),
{
    let mut s = String::new();
    push_str(&mut s, uuid_text(id).as_str());
    push_char(&mut s, ':');
    let n = content.as_bytes().len();
    push_decimal(&mut s, n as u64);
    push_char(&mut s, ':');
    let ghost head = s@;
    let mut i: usize = 0;
    while i < attachment_ids.len()
        invariant
            i <= attachment_ids@.len(),
            s@ == head + joined_ids(attachment_ids@.subrange(0, i as int)),
        decreases attachment_ids@.len() - i,
    {
        let ghost before = s@;
        assert(attachment_ids@.subrange(0, i + 1).drop_last() =~= attachment_ids@.subrange(
            0,
            i as int,
        ));
        assert(attachment_ids@.subrange(0, i + 1).last() == attachment_ids@[i as int]);
        if i > 0 {
            push_char(&mut s, ',');
        } else {
            assert(attachment_ids@.subrange(0, 1)[0] == attachment_ids@[0]);
        }
        push_str(&mut s, uuid_text(attachment_ids[i]).as_str());
        assert(s@ =~= head + joined_ids(attachment_ids@.subrange(0, i + 1)));
        i = i + 1;
    }
    assert(attachment_ids@.subrange(0, attachment_ids@.len() as int) =~= attachment_ids@);
    s
}

/// Whether the page shows a conversation, whose own header replaces the
/// generic top bar.
pub fn on_chat_page(path: &str) -> (b: bool)
    ensures
        b == starts_with(path@, "/chat/"@),
{
    starts_with_exec(&chars_of(path), &chars_of("/chat/"))
}

/// The display class of the generic top bar on small screens.
pub fn top_bar_display(path: &str) -> (s: &'static str)
    ensures
        s@ == (if starts_with(path@, "/chat/"@) {
            "hidden"@
        } else {
            "flex"@
        }),
{
    if on_chat_page(path) {
        "hidden"
    } else {
        "flex"
    }
}

} // verus!

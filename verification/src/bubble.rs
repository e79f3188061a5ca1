//! Decisions of a message bubble: editing a user message (which images may
//! be added, when cancelling asks first), what an assistant bubble shows
//! while streaming, what "Copy" copies, and how attached images are laid
//! out.

use crate::models::{str_is, MAX_IMAGES_PER_MESSAGE, MAX_IMAGE_BYTES};
use crate::text::{chars_of, push_char, push_str, starts_with, starts_with_exec};
use crate::thinking::{parse_thinking, thinking_split};
use vstd::prelude::*;

verus! {

/// The warning for a file that cannot be added while editing a message, if
/// any: it must be an image, at most [`MAX_IMAGE_BYTES`], and the kept plus
/// newly added images must leave room for it.
pub open spec fn edit_image_refusal(
    name: Seq<char>,
    content_type: Seq<char>,
    size: u64,
    kept: usize,
    added: usize,
) -> Option<Seq<char>> {
    if !starts_with(content_type, "image/"@) {
        Some("\""@ + name + "\" isn't an image — only images can be attached"@)
    } else if size > MAX_IMAGE_BYTES {
        Some("\""@ + name + "\" is too large (max 10 MB)"@)
    } else if kept + added >= MAX_IMAGES_PER_MESSAGE {
        Some("You can attach up to 5 images per message"@)
    } else {
        None
    }
}

/// Checks a file picked while editing a message that keeps `kept` images
/// and has `added` new ones.
pub fn check_edit_image(name: &str, content_type: &str, size: u64, kept: usize, added: usize) -> (r:
    Option<String>)
    ensures
        match edit_image_refusal(name@, content_type@, size, kept, added) {
            Some(m) => r matches Some(w) && w@ == m,
            None => r is None,
        },
{
    let mut m = String::new();
    if !starts_with_exec(&chars_of(content_type), &chars_of("image/")) {
        push_str(&mut m, "\"");
        push_str(&mut m, name);
        push_str(&mut m, "\" isn't an image — only images can be attached");
        return Some(m);
    }
    if size > MAX_IMAGE_BYTES as u64 {
        push_str(&mut m, "\"");
        push_str(&mut m, name);
        push_str(&mut m, "\" is too large (max 10 MB)");
        return Some(m);
    }
    if kept >= MAX_IMAGES_PER_MESSAGE || added >= MAX_IMAGES_PER_MESSAGE - kept {
        push_str(&mut m, "You can attach up to 5 images per message");
        return Some(m);
    }
    None
}

/// Whether an image whose file has been read is still added: reads finish
/// one by one, so the cap is checked again.
pub fn edit_accepts_image(kept: usize, added: usize) -> (b: bool)
    ensures
        b == (kept + added < MAX_IMAGES_PER_MESSAGE),
{
    kept < MAX_IMAGES_PER_MESSAGE && added < MAX_IMAGES_PER_MESSAGE - kept
}

fn same_ids(a: &Vec<u128>, b: &Vec<u128>) -> (r: bool)
    ensures
        r == (a@ == b@),
{
    if a.len() != b.len() {
        return false;
    }
    let mut i: usize = 0;
    while i < a.len()
        invariant
            i <= a@.len(),
            a@.len() == b@.len(),
            forall|j: int| 0 <= j < i ==> a@[j] == b@[j],
        decreases a@.len() - i,
    {
        if a[i] != b[i] {
            return false;
        }
        i = i + 1;
    }
    assert(a@ =~= b@);
    true
}

/// Whether cancelling an edit discards something: changed text, a removed
/// image, or an added one.
pub fn edit_is_dirty(
    draft: &str,
    original: &str,
    kept_ids: &Vec<u128>,
    original_ids: &Vec<u128>,
    added: usize,
) -> (b: bool)
    ensures
        b == (draft@ != original@ || kept_ids@ != original_ids@ || added > 0),
{
    !str_is(draft, original) || !same_ids(kept_ids, original_ids) || added > 0
}

/// The name shown on an assistant bubble.
pub fn assistant_name(character_name: Option<String>) -> (s: String)
    ensures
        s@ == (match character_name {
            Some(n) => n@,
            None => "Assistant"@,
        }),
{
    match character_name {
        Some(n) => n,
        None => {
            let mut s = String::new();
            push_str(&mut s, "Assistant");
            s
        },
    }
}

/// The avatar URL of an assistant bubble: none for a missing or empty path.
pub fn assistant_avatar_url(avatar: Option<&str>) -> (r: Option<String>)
    ensures
        match avatar {
            Some(p) => if p@.len() == 0 {
                r is None
            } else {
                r matches Some(u) && u@ == seq!['/'] + p@
            },
            None => r is None,
        },
{
    match avatar {
        Some(p) => {
            if p.is_empty() {
                None
            } else {
                let mut u = String::new();
                push_char(&mut u, '/');
                push_str(&mut u, p);
                Some(u)
            }
        },
        None => None,
    }
}

/// What follows the text of an assistant bubble.
#[derive(Debug, Clone, Copy, PartialEq, Eq, Structural)]
pub enum StreamIndicator {
    /// Bouncing dots: streaming, nothing received yet.
    Dots,
    /// A blinking cursor: streaming.
    Cursor,
    /// Nothing: the reply is complete.
    Nothing,
}

/// The indicator after an assistant bubble's text.
pub fn stream_indicator(streaming: bool, received: &str) -> (i: StreamIndicator)
    ensures
        i == (if streaming && received@.len() == 0 {
            StreamIndicator::Dots
        } else if streaming {
            StreamIndicator::Cursor
        } else {
            StreamIndicator::Nothing
        }),
{
    if streaming && received.is_empty() {
        StreamIndicator::Dots
    } else if streaming {
        StreamIndicator::Cursor
    } else {
        StreamIndicator::Nothing
    }
}

/// What "Copy" copies from an assistant message: the answer, without its
/// reasoning.
pub fn copy_text(content: &str) -> (s: String)
    ensures
        s@ == thinking_split(content@).2,
{
    parse_thinking(content).answer
}

/// The heading of a reasoning panel.
pub fn thinking_heading(streaming: bool) -> (s: &'static str)
    ensures
        s@ == (if streaming {
            "Thinking..."@
        } else {
            "Reasoning"@
        }),
{
    if streaming {
        "Thinking..."
    } else {
        "Reasoning"
    }
}

/// The classes of a message's image grid, by how many images it holds.
pub fn image_grid_class(count: usize) -> (s: &'static str)
    ensures
        s@ == (if count == 1 {
            "mb-2"@
        } else if count <= 4 {
            "grid grid-cols-2 gap-1.5 mb-2"@
        } else {
            "grid grid-cols-3 gap-1.5 mb-2"@
        }),
{
    if count == 1 {
        "mb-2"
    } else if count <= 4 {
        "grid grid-cols-2 gap-1.5 mb-2"
    } else {
        "grid grid-cols-3 gap-1.5 mb-2"
    }
}

/// The classes of one image in a message's grid.
pub fn image_class(count: usize, is_user: bool) -> (s: String)
    ensures
        s@ == (if count == 1 {
            "rounded-lg max-w-full max-h-64 object-contain border "@
        } else {
            "rounded-lg w-full h-32 object-cover border "@
        }) + (if is_user {
            "border-primary-foreground/20"@
        } else {
            "border-border"@
        }),
{
    let mut s = String::new();
    if count == 1 {
        push_str(&mut s, "rounded-lg max-w-full max-h-64 object-contain border ");
    } else {
        push_str(&mut s, "rounded-lg w-full h-32 object-cover border ");
    }
    if is_user {
        push_str(&mut s, "border-primary-foreground/20");
    } else {
        push_str(&mut s, "border-border");
    }
    s
}

/// The alternative text of an attached image.
pub fn image_alt(original_name: Option<String>) -> (s: String)
    ensures
        s@ == (match original_name {
            Some(n) => n@,
            None => "attached image"@,
        }),
{
    match original_name {
        Some(n) => n,
        None => {
            let mut s = String::new();
            push_str(&mut s, "attached image");
            s
        },
    }
}

} // verus!

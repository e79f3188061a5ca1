//! Decisions of the chat screen: when a message can be sent, which picked
//! files become attachments, and how the live reply shown while a response
//! streams in evolves.

use crate::models::{str_is, ImageUpload, MAX_IMAGES_PER_MESSAGE, MAX_IMAGE_BYTES};
use crate::text::{
    chars_of, ends_with, ends_with_exec, is_blank, lowercase, lowercase_of, push_str,
    starts_with, starts_with_exec, str_is_blank,
};
use vstd::prelude::*;

verus! {

/// Whether the send button is enabled: nothing is streaming, a model is
/// chosen, and there is text or an image to send.
pub fn can_send(streaming: bool, disabled: bool, text: &str, images: usize) -> (b: bool)
    ensures
        b == (!streaming && !disabled && (!is_blank(text@) || images > 0)),
{
    if streaming || disabled {
        return false;
    }
    !str_is_blank(text) || images > 0
}

/// Whether a key press sends the message: Enter without Shift or Ctrl.
pub fn sends_on_key(key: &str, shift: bool, ctrl: bool) -> (b: bool)
    ensures
        b == (key@ == "Enter"@ && !shift && !ctrl),
{
    str_is(key, "Enter") && !shift && !ctrl
}

/// The text field's placeholder.
pub fn input_placeholder(disabled: bool) -> (s: &'static str)
    ensures
        s@ == (if disabled {
            "Select a model to start chatting..."@
        } else {
            "Type a message..."@
        }),
{
    if disabled {
        "Select a model to start chatting..."
    } else {
        "Type a message..."
    }
}

/// MIME types of HEIF/HEIC images, which are converted to JPEG first.
pub open spec fn is_heif_type(content_type: Seq<char>) -> bool {
    content_type == "image/heic"@ || content_type == "image/heif"@ || content_type
        == "image/heic-sequence"@ || content_type == "image/heif-sequence"@
}

/// Whether a file of this MIME type must be converted to JPEG before upload.
pub fn needs_heif_conversion(content_type: &str) -> (b: bool)
    ensures
        b == is_heif_type(content_type@),
{
    str_is(content_type, "image/heic") || str_is(content_type, "image/heif") || str_is(
        content_type,
        "image/heic-sequence",
    ) || str_is(content_type, "image/heif-sequence")
}

/// What becomes of a picked or pasted file.
#[derive(Debug, Clone, PartialEq, Eq)]
pub enum FileDecision {
    /// Refused, with the warning to show.
    Refuse(String),
    /// A HEIF/HEIC image, converted to JPEG and then attached.
    Convert,
    /// Read as it is and attached.
    Read,
}

/// The file is HEIF/HEIC: by its MIME type, or, where the browser reports
/// none, by its name's extension.
pub open spec fn is_heif_file(name: Seq<char>, content_type: Seq<char>) -> bool {
    is_heif_type(content_type) || (content_type.len() == 0 && (ends_with(
        lowercase_of(name),
        ".heic"@,
    ) || ends_with(lowercase_of(name), ".heif"@)))
}

/// The decision on a file named `name`, of type `content_type` and `size`
/// bytes, when `pending` images are already attached: it must be an image,
/// at most [`MAX_IMAGE_BYTES`], and there must be room for it.
pub open spec fn file_decision(name: Seq<char>, content_type: Seq<char>, size: u64, pending: usize) -> (
    int,
    Seq<char>,
) {
    let heif = is_heif_file(name, content_type);
    if !starts_with(content_type, "image/"@) && !heif {
        (0, "\""@ + name + "\" isn't an image — only images can be attached"@)
    } else if size > MAX_IMAGE_BYTES {
        (0, "\""@ + name + "\" is too large (max 10 MB)"@)
    } else if pending >= MAX_IMAGES_PER_MESSAGE {
        (0, "You can attach up to 5 images per message"@)
    } else if heif {
        (1, Seq::empty())
    } else {
        (2, Seq::empty())
    }
}

/// The view of a decision on a file: 0 refuses (with the warning), 1 makes a JPEG first, 2 reads the file.
pub open spec fn decision_view(v: FileDecision) -> (int, Seq<char>) {
    match v {
        FileDecision::Refuse(m) => (0, m@),
        FileDecision::Convert => (1, Seq::empty()),
        FileDecision::Read => (2, Seq::empty()),
    }
}

/// Decides what to do with a picked or pasted file.
pub fn classify_file(name: &str, content_type: &str, size: u64, pending: usize) -> (v: FileDecision)
    ensures
        decision_view(v) == file_decision(name@, content_type@, size, pending),
{
    let ct = chars_of(content_type);
    let lower = chars_of(lowercase(name).as_str());
    let by_ext = ends_with_exec(&lower, &chars_of(".heic")) || ends_with_exec(
        &lower,
        &chars_of(".heif"),
    );
    let heif = needs_heif_conversion(content_type) || (ct.len() == 0 && by_ext);
    if !starts_with_exec(&ct, &chars_of("image/")) && !heif {
        let mut m = String::new();
        push_str(&mut m, "\"");
        push_str(&mut m, name);
        push_str(&mut m, "\" isn't an image — only images can be attached");
        return FileDecision::Refuse(m);
    }
    if size > MAX_IMAGE_BYTES as u64 {
        let mut m = String::new();
        push_str(&mut m, "\"");
        push_str(&mut m, name);
        push_str(&mut m, "\" is too large (max 10 MB)");
        return FileDecision::Refuse(m);
    }
    if pending >= MAX_IMAGES_PER_MESSAGE {
        let mut m = String::new();
        push_str(&mut m, "You can attach up to 5 images per message");
        return FileDecision::Refuse(m);
    }
    if heif {
        FileDecision::Convert
    } else {
        FileDecision::Read
    }
}

/// An image attached to the message being written.
#[derive(Debug, Clone)]
pub struct PendingImage {
    pub id: u128,
    pub data: String,
    pub content_type: String,
    pub original_name: Option<String>,
    pub file_size: u64,
}

/// Attaches an image once its file has been read, unless the message
/// already holds the maximum; returns whether it was attached.
pub fn attach_image(pending: &mut Vec<PendingImage>, img: PendingImage) -> (added: bool)
    ensures
        added == (old(pending)@.len() < MAX_IMAGES_PER_MESSAGE),
        added ==> final(pending)@ == old(pending)@.push(img),
        !added ==> final(pending)@ == old(pending)@,
{
    if pending.len() < MAX_IMAGES_PER_MESSAGE {
        pending.push(img);
        true
    } else {
        false
    }
}

/// The attached images other than `id`, order kept.
pub open spec fn without_image(s: Seq<PendingImage>, id: u128) -> Seq<PendingImage>
    decreases s.len(),
{
    if s.len() == 0 {
        Seq::empty()
    } else if s.last().id == id {
        without_image(s.drop_last(), id)
    } else {
        without_image(s.drop_last(), id).push(s.last())
    }
}

/// Removes the attached image `id`.
pub fn remove_image(pending: &Vec<PendingImage>, id: u128) -> (r: Vec<PendingImage>)
    ensures
        r@ == without_image(pending@, id),
{
    let mut r: Vec<PendingImage> = Vec::new();
    let mut i: usize = 0;
    while i < pending.len()
        invariant
            i <= pending@.len(),
            r@ == without_image(pending@.subrange(0, i as int), id),
        decreases pending@.len() - i,
    {
        assert(pending@.subrange(0, i + 1).drop_last() =~= pending@.subrange(0, i as int));
        assert(pending@.subrange(0, i + 1).last() == pending@[i as int]);
        let p = &pending[i];
        if p.id != id {
            r.push(
                PendingImage {
                    id: p.id,
                    data: p.data.clone(),
                    content_type: p.content_type.clone(),
                    original_name: p.original_name.clone(),
                    file_size: p.file_size,
                },
            );
        }
        i = i + 1;
    }
    assert(pending@.subrange(0, pending@.len() as int) =~= pending@);
    r
}

/// The uploads sent with the message, in the order the images were attached.
pub fn pending_uploads(pending: &Vec<PendingImage>) -> (r: Vec<ImageUpload>)
    ensures
        r@.len() == pending@.len(),
        forall|i: int|
            0 <= i < pending@.len() ==> {
                &&& (#[trigger] r@[i]).data == pending@[i].data
                &&& r@[i].content_type == pending@[i].content_type
                &&& r@[i].original_name == pending@[i].original_name
            },
{
    let mut r: Vec<ImageUpload> = Vec::new();
    let mut i: usize = 0;
    while i < pending.len()
        invariant
            i <= pending@.len(),
            r@.len() == i,
            forall|k: int|
                0 <= k < i ==> {
                    &&& (#[trigger] r@[k]).data == pending@[k].data
                    &&& r@[k].content_type == pending@[k].content_type
                    &&& r@[k].original_name == pending@[k].original_name
                },
        decreases pending@.len() - i,
    {
        let p = &pending[i];
        r.push(
            ImageUpload {
                data: p.data.clone(),
                content_type: p.content_type.clone(),
                original_name: p.original_name.clone(),
            },
        );
        i = i + 1;
    }
    r
}

/// Why a message cannot go out yet.
#[derive(Debug, Clone, Copy, PartialEq, Eq, Structural)]
pub enum SendError {
    /// No provider or no model is selected.
    NoModel,
}

impl SendError {
    /// The error shown.
    pub fn describe(&self) -> (s: &'static str)
        ensures
            s@ == "Select a model first"@,
    {
        "Select a model first"
    }
}

/// The provider and model a message goes to; both must be selected.
pub fn send_target(provider: Option<u128>, model: Option<String>) -> (r: Result<
    (u128, String),
    SendError,
>)
    ensures
        match (provider, model) {
            (Some(p), Some(m)) => r matches Ok(t) && t.0 == p && t.1 == m,
            _ => r == Err::<(u128, String), SendError>(SendError::NoModel),
        },
{
    match (provider, model) {
        (Some(p), Some(m)) => Ok((p, m)),
        _ => Err(SendError::NoModel),
    }
}

/// The reply shown while a response streams in: whether one is streaming,
/// the text received so far, and the id of its placeholder message.
pub struct LiveReply {
    streaming: bool,
    content: String,
    placeholder: Option<u128>,
}

impl View for LiveReply {
    type V = (bool, Seq<char>, Option<u128>);

    closed spec fn view(&self) -> (bool, Seq<char>, Option<u128>) {
        (self.streaming, self.content@, self.placeholder)
    }
}

impl LiveReply {
    /// Nothing streaming.
    pub fn new() -> (r: Self)
        ensures
            r@ == (false, Seq::<char>::empty(), None::<u128>),
    {
        LiveReply { streaming: false, content: String::new(), placeholder: None }
    }

    /// A response starts streaming under the placeholder `id`.
    pub fn start(&mut self, id: u128)
        ensures
            final(self)@ == (true, Seq::<char>::empty(), Some(id)),
    {
        self.streaming = true;
        self.content = String::new();
        self.placeholder = Some(id);
    }

    /// A chunk of the response arrived.
    pub fn receive(&mut self, chunk: &str)
        ensures
            final(self)@ == (old(self)@.0, old(self)@.1 + chunk@, old(self)@.2),
    {
        push_str(&mut self.content, chunk);
    }

    /// The response ended (or failed, or was stopped): the live reply is
    /// cleared and the saved history takes its place.
    pub fn end(&mut self)
        ensures
            final(self)@ == (false, Seq::<char>::empty(), None::<u128>),
    {
        self.streaming = false;
        self.content = String::new();
        self.placeholder = None;
    }

    /// The server answered a stop request: when it had a generation to stop,
    /// the stream ends on its own; otherwise the live reply is cleared now.
    pub fn stop_answered(&mut self, was_active: bool)
        ensures
            was_active ==> final(self)@ == old(self)@,
            !was_active ==> final(self)@ == (false, Seq::<char>::empty(), None::<u128>),
    {
        if !was_active {
            self.end();
        }
    }

    /// Whether a response is streaming.
    pub fn is_streaming(&self) -> (b: bool)
        ensures
            b == self@.0,
    {
        self.streaming
    }

    /// The text received so far.
    pub fn content(&self) -> (s: &String)
        ensures
            s@ == self@.1,
    {
        &self.content
    }

    /// The placeholder message's id while streaming.
    pub fn placeholder(&self) -> (p: Option<u128>)
        ensures
            p == self@.2,
    {
        self.placeholder
    }
}

} // verus!

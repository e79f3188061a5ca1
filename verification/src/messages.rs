//! Chat history logic around messages: the prompt sent to a model, which
//! replies a regenerate discards, which edits are accepted and which
//! attachments an edit removes, which messages follow an edited one, how
//! attachments are grouped under their messages, and how uploaded images
//! are prepared for storage.

use crate::chat::{
    auto_title, build_system_prompt, check_image_upload, greeting_message, image_check, opt_view,
    resolve_placeholders, resolved, session_preview, system_prompt_for, titles_session,
    updates_preview, UploadError,
};
use crate::codec::{base64_encode, base64_encoding, base64_input_limit};
use crate::config::{attachment_file_name, attachment_rel, attachment_rel_path, file_name};
use crate::ids::{new_id, uuid_hyphenated};
use crate::model_list::{text_le, text_le_exec};
use crate::models::{str_is, ImageUpload, LlmImage, LlmMessage, MessageRole, MAX_IMAGES_PER_MESSAGE};
use crate::text::{chars_of, is_blank, str_is_blank, take_chars};
use vstd::prelude::*;

verus! {

/// A stored message as it enters a prompt: its role, its text, and its
/// images already read and encoded.
#[derive(Debug, Clone)]
pub struct HistoryEntry {
    pub role: MessageRole,
    pub content: String,
    pub images: Vec<LlmImage>,
}

/// An image for a model request: the file's bytes in base64.
pub fn encode_image(bytes: &[u8], content_type: String) -> (r: LlmImage)
    requires
        bytes@.len() < base64_input_limit(),
    ensures
        r.base64_data@ == base64_encoding(bytes@),
        r.content_type == content_type,
{
    LlmImage { base64_data: base64_encode(bytes), content_type }
}

/// The history entries that reach the model: all but system messages, whose
/// place the composed system prompt takes.
pub open spec fn conversation(h: Seq<HistoryEntry>) -> Seq<HistoryEntry>
    decreases h.len(),
{
    if h.len() == 0 {
        Seq::empty()
    } else if h.last().role == MessageRole::System {
        conversation(h.drop_last())
    } else {
        conversation(h.drop_last()).push(h.last())
    }
}

/// The prompt for a session: the composed system prompt, then every
/// non-system message with its placeholders resolved and its images.
pub fn build_prompt(
    name: &str,
    role: Option<&str>,
    personality: Option<&str>,
    system_prompt: Option<&str>,
    user_name: &str,
    default_system_prompt: &str,
    history: Vec<HistoryEntry>,
) -> (r: Vec<LlmMessage>)
    ensures
        r@.len() == conversation(history@).len() + 1,
        r@[0].role == MessageRole::System,
        r@[0].content@ == system_prompt_for(
            name@,
            opt_view(role),
            opt_view(personality),
            opt_view(system_prompt),
            user_name@,
            default_system_prompt@,
        ),
        r@[0].images@.len() == 0,
        forall|i: int|
            0 <= i < conversation(history@).len() ==> {
                &&& (#[trigger] r@[i + 1]).role == conversation(history@)[i].role
                &&& r@[i + 1].content@ == resolved(
                    conversation(history@)[i].content@,
                    name@,
                    user_name@,
                )
                &&& r@[i + 1].images == conversation(history@)[i].images
            },
{
    let system = build_system_prompt(
        name,
        role,
        personality,
        system_prompt,
        user_name,
        default_system_prompt,
    );
    let mut out: Vec<LlmMessage> = Vec::new();
    out.push(LlmMessage { role: MessageRole::System, content: system, images: Vec::new() });
    let ghost h = history@;
    let n = history.len();
    let mut rest = history;
    let mut taken: Vec<HistoryEntry> = Vec::new();
    let mut i: usize = 0;
    let ghost first = out@[0];
    while i < n
        invariant
            n == h.len(),
            i <= h.len(),
            rest@ == h.subrange(i as int, h.len() as int),
            out@.len() == conversation(h.subrange(0, i as int)).len() + 1,
            out@[0] == first,
            forall|k: int|
                0 <= k < conversation(h.subrange(0, i as int)).len() ==> {
                    &&& (#[trigger] out@[k + 1]).role == conversation(
                        h.subrange(0, i as int),
                    )[k].role
                    &&& out@[k + 1].content@ == resolved(
                        conversation(h.subrange(0, i as int))[k].content@,
                        name@,
                        user_name@,
                    )
                    &&& out@[k + 1].images == conversation(h.subrange(0, i as int))[k].images
                },
        decreases h.len() - i,
    {
        let entry = rest.remove(0);
        assert(entry == h[i as int]);
        assert(h.subrange(0, i + 1).drop_last() =~= h.subrange(0, i as int));
        assert(h.subrange(0, i + 1).last() == h[i as int]);
        assert(rest@ =~= h.subrange(i + 1, h.len() as int));
        if entry.role != MessageRole::System {
            let content = resolve_placeholders(entry.content.as_str(), name, user_name);
            out.push(LlmMessage { role: entry.role, content, images: entry.images });
        }
        i = i + 1;
    }
    assert(h.subrange(0, h.len() as int) =~= h);
    out
}

/// How many messages at the end of `roles` are assistant replies.
pub open spec fn trailing_replies_count(roles: Seq<MessageRole>) -> nat
    decreases roles.len(),
{
    if roles.len() > 0 && roles.last() == MessageRole::Assistant {
        trailing_replies_count(roles.drop_last()) + 1
    } else {
        0
    }
}

/// How many messages a regenerate discards: the assistant replies that end
/// the session, so that the prompt ends on the user's turn.
pub fn trailing_replies(roles: &Vec<MessageRole>) -> (n: usize)
    ensures
        n == trailing_replies_count(roles@),
        n <= roles@.len(),
        forall|i: int| roles@.len() - n <= i < roles@.len() ==> roles@[i] == MessageRole::Assistant,
        n < roles@.len() ==> roles@[roles@.len() - n - 1] != MessageRole::Assistant,
{
    let mut n: usize = 0;
    let len = roles.len();
    assert(roles@.subrange(0, len as int) =~= roles@);
    while n < len && roles[len - 1 - n] == MessageRole::Assistant
        invariant
            len == roles@.len(),
            n <= len,
            forall|i: int| len - n <= i < len ==> roles@[i] == MessageRole::Assistant,
            trailing_replies_count(roles@) == trailing_replies_count(
                roles@.subrange(0, len - n),
            ) + n,
        decreases len - n,
    {
        assert(roles@.subrange(0, len - n).drop_last() =~= roles@.subrange(0, len - n - 1));
        n = n + 1;
    }
    proof {
        if n < len {
            assert(roles@.subrange(0, len - n).last() == roles@[len - n - 1]);
        }
        assert(roles@.subrange(0, len - n).len() == 0 || roles@.subrange(0, len - n).last()
            != MessageRole::Assistant);
    }
    n
}

/// Why an edit of a message was refused.
#[derive(Debug, Clone, Copy, PartialEq, Eq, Structural)]
pub enum EditError {
    /// The edit leaves no text and no image.
    Empty,
}

impl EditError {
    /// The message reported for this error.
    pub fn describe(&self) -> (s: &'static str)
        ensures
            s@ == "Message cannot be empty"@,
    {
        "Message cannot be empty"
    }
}

/// Checks an edit of a user message: blank text is allowed only when the
/// message keeps or gains an image.
pub fn check_edit(content: &str, kept: usize, added: usize) -> (r: Result<(), EditError>)
    ensures
        r is Err <==> is_blank(content@) && kept == 0 && added == 0,
{
    if str_is_blank(content) && kept == 0 && added == 0 {
        Err(EditError::Empty)
    } else {
        Ok(())
    }
}

/// How many of the attachments `current` an edit keeps.
pub open spec fn kept_count(current: Seq<u128>, keep: Seq<u128>) -> nat
    decreases current.len(),
{
    if current.len() == 0 {
        0
    } else if keep.contains(current.last()) {
        kept_count(current.drop_last(), keep) + 1
    } else {
        kept_count(current.drop_last(), keep)
    }
}

/// Positions in `current` of the attachments an edit removes, in order.
pub open spec fn removed_positions(current: Seq<u128>, keep: Seq<u128>) -> Seq<usize>
    decreases current.len(),
{
    if current.len() == 0 {
        Seq::empty()
    } else if keep.contains(current.last()) {
        removed_positions(current.drop_last(), keep)
    } else {
        removed_positions(current.drop_last(), keep).push((current.len() - 1) as usize)
    }
}

proof fn lemma_kept_count_bound(current: Seq<u128>, keep: Seq<u128>)
    ensures
        kept_count(current, keep) <= current.len(),
    decreases current.len(),
{
    if current.len() > 0 {
        lemma_kept_count_bound(current.drop_last(), keep);
    }
}

fn contains_id(v: &Vec<u128>, x: u128) -> (b: bool)
    ensures
        b == v@.contains(x),
{
    let mut i: usize = 0;
    while i < v.len()
        invariant
            i <= v@.len(),
            forall|j: int| 0 <= j < i ==> v@[j] != x,
        decreases v@.len() - i,
    {
        if v[i] == x {
            assert(v@[i as int] == x);
            return true;
        }
        i = i + 1;
    }
    false
}

/// Reconciles a message's attachments with an edit: `current` are the ids
/// it has, `keep` those the edit keeps, `added` how many images it adds.
/// The per-message cap is checked before anything is removed, so a refused
/// edit leaves the attachments untouched; otherwise the positions in
/// `current` of the attachments to remove are returned.
pub fn attachments_to_remove(current: &Vec<u128>, keep: &Vec<u128>, added: usize) -> (r: Result<
    Vec<usize>,
    UploadError,
>)
    requires
        current@.len() + added <= usize::MAX,
    ensures
        kept_count(current@, keep@) + added > MAX_IMAGES_PER_MESSAGE ==> r == Err::<
            Vec<usize>,
            UploadError,
        >(UploadError::TooManyAttachments((kept_count(current@, keep@) + added) as usize)),
        kept_count(current@, keep@) + added <= MAX_IMAGES_PER_MESSAGE ==> (r matches Ok(v) && v@
            == removed_positions(current@, keep@)),
{
    let mut kept: usize = 0;
    let mut removed: Vec<usize> = Vec::new();
    let mut i: usize = 0;
    while i < current.len()
        invariant
            i <= current@.len(),
            kept == kept_count(current@.subrange(0, i as int), keep@),
            kept <= i,
            removed@ == removed_positions(current@.subrange(0, i as int), keep@),
        decreases current@.len() - i,
    {
        assert(current@.subrange(0, i + 1).drop_last() =~= current@.subrange(0, i as int));
        assert(current@.subrange(0, i + 1).last() == current@[i as int]);
        if contains_id(keep, current[i]) {
            kept = kept + 1;
        } else {
            removed.push(i);
        }
        i = i + 1;
    }
    assert(current@.subrange(0, current@.len() as int) =~= current@);
    if kept + added > MAX_IMAGES_PER_MESSAGE {
        return Err(UploadError::TooManyAttachments(kept + added));
    }
    Ok(removed)
}

/// The first message in `ids` with the id `owner`.
pub open spec fn owner_index(ids: Seq<u128>, owner: u128) -> Option<int>
    decreases ids.len(),
{
    if ids.len() == 0 {
        None
    } else {
        match owner_index(ids.drop_last(), owner) {
            Some(i) => Some(i),
            None => if ids.last() == owner {
                Some(ids.len() - 1)
            } else {
                None
            },
        }
    }
}

/// Positions, in order, of the attachments listed under message `m`: those
/// whose owner is first found at `m` in `ids`.
pub open spec fn grouped(ids: Seq<u128>, owners: Seq<u128>, m: int) -> Seq<usize>
    decreases owners.len(),
{
    if owners.len() == 0 {
        Seq::empty()
    } else if owner_index(ids, owners.last()) == Some(m) {
        grouped(ids, owners.drop_last(), m).push((owners.len() - 1) as usize)
    } else {
        grouped(ids, owners.drop_last(), m)
    }
}

fn find_owner(ids: &Vec<u128>, owner: u128) -> (r: Option<usize>)
    ensures
        r matches Some(i) ==> i < ids@.len() && owner_index(ids@, owner) == Some(i as int),
        r is None ==> owner_index(ids@, owner) is None,
{
    let mut i: usize = 0;
    while i < ids.len()
        invariant
            i <= ids@.len(),
            owner_index(ids@.subrange(0, i as int), owner) is None,
        decreases ids@.len() - i,
    {
        assert(ids@.subrange(0, i + 1).drop_last() =~= ids@.subrange(0, i as int));
        if ids[i] == owner {
            proof {
                lemma_owner_index_prefix(ids@, owner, i as int + 1);
            }
            return Some(i);
        }
        i = i + 1;
    }
    assert(ids@.subrange(0, ids@.len() as int) =~= ids@);
    None
}

proof fn lemma_owner_index_prefix(ids: Seq<u128>, owner: u128, k: int)
    requires
        0 < k <= ids.len(),
        owner_index(ids.subrange(0, k - 1), owner) is None,
        ids[k - 1] == owner,
    ensures
        owner_index(ids, owner) == Some(k - 1),
    decreases ids.len(),
{
    if k == ids.len() {
        assert(ids.drop_last() =~= ids.subrange(0, k - 1));
    } else {
        assert(ids.drop_last().subrange(0, k - 1) =~= ids.subrange(0, k - 1));
        lemma_owner_index_prefix(ids.drop_last(), owner, k);
    }
}

/// The attachments of a session grouped under their messages: entry `m` of
/// the result lists, in order, the positions in `owners` of the attachments
/// whose message is `ids[m]` (the first message with that id). Attachments
/// whose message is not in `ids` are left out.
pub fn group_attachments(ids: &Vec<u128>, owners: &Vec<u128>) -> (r: Vec<Vec<usize>>)
    ensures
        r@.len() == ids@.len(),
        forall|m: int| 0 <= m < ids@.len() ==> (#[trigger] r@[m])@ == grouped(ids@, owners@, m),
{
    let mut r: Vec<Vec<usize>> = Vec::new();
    let mut m: usize = 0;
    while m < ids.len()
        invariant
            m <= ids@.len(),
            r@.len() == m,
            forall|k: int| 0 <= k < m ==> (#[trigger] r@[k])@.len() == 0,
        decreases ids@.len() - m,
    {
        r.push(Vec::new());
        m = m + 1;
    }
    assert forall|k: int| 0 <= k < ids@.len() implies (#[trigger] r@[k])@ == grouped(
        ids@,
        owners@.subrange(0, 0),
        k,
    ) by {
        assert(r@[k]@ =~= Seq::<usize>::empty());
    }
    let mut j: usize = 0;
    while j < owners.len()
        invariant
            j <= owners@.len(),
            r@.len() == ids@.len(),
            forall|k: int|
                0 <= k < ids@.len() ==> (#[trigger] r@[k])@ == grouped(
                    ids@,
                    owners@.subrange(0, j as int),
                    k,
                ),
        decreases owners@.len() - j,
    {
        let ghost before = r@;
        assert(owners@.subrange(0, j + 1).drop_last() =~= owners@.subrange(0, j as int));
        assert(owners@.subrange(0, j + 1).last() == owners@[j as int]);
        match find_owner(ids, owners[j]) {
            Some(m) => {
                let mut g = r.remove(m);
                let ghost g0 = g@;
                g.push(j);
                r.insert(m, g);
                assert(r@ =~= before.update(m as int, g));
                assert(g0 == before[m as int]@);
                assert forall|k: int| 0 <= k < ids@.len() implies (#[trigger] r@[k])@ == grouped(
                    ids@,
                    owners@.subrange(0, j + 1),
                    k,
                ) by {
                    let s = owners@.subrange(0, j + 1);
                    assert(s.last() == owners@[j as int]);
                    assert(s.drop_last() =~= owners@.subrange(0, j as int));
                    assert(owner_index(ids@, owners@[j as int]) == Some(m as int));
                    assert(grouped(ids@, s, k) == if owner_index(ids@, s.last()) == Some(k) {
                        grouped(ids@, s.drop_last(), k).push(j)
                    } else {
                        grouped(ids@, s.drop_last(), k)
                    });
                    assert(before[k]@ == grouped(ids@, owners@.subrange(0, j as int), k));
                    if k != m {
                        assert(r@[k] == before[k]);
                    } else {
                        assert(r@[k]@ == g0.push(j));
                    }
                }
            },
            None => {},
        }
        j = j + 1;
    }
    assert(owners@.subrange(0, owners@.len() as int) =~= owners@);
    r
}

/// An uploaded image ready to be written: its id, the file name and the
/// relative path to record, and what the attachment row holds.
#[derive(Debug, Clone)]
pub struct StoredImage {
    pub id: u128,
    pub file_name: String,
    pub rel_path: String,
    pub content_type: String,
    pub original_name: Option<String>,
    pub bytes: Vec<u8>,
}

/// The first refusal among checks of the images `imgs`, if any.
pub open spec fn first_refusal(imgs: Seq<ImageUpload>) -> Option<UploadError>
    decreases imgs.len(),
{
    if imgs.len() == 0 {
        None
    } else {
        match first_refusal(imgs.drop_last()) {
            Some(e) => Some(e),
            None => match image_check(imgs.last()) {
                Err(e) => Some(e),
                Ok(_) => None,
            },
        }
    }
}

/// `s` is the stored form of the accepted upload `img`.
pub open spec fn stores(s: StoredImage, img: ImageUpload) -> bool {
    &&& image_check(img) is Ok
    &&& s.file_name@ == file_name(uuid_hyphenated(s.id), image_check(img)->Ok_0.0)
    &&& s.rel_path@ == attachment_rel(s.file_name@)
    &&& s.bytes@ == image_check(img)->Ok_0.1
    &&& s.content_type == img.content_type
    &&& s.original_name == img.original_name
}

/// Checks the images of one message and prepares each for storage under a
/// fresh id: at most [`MAX_IMAGES_PER_MESSAGE`] images, each of a supported
/// type, valid base64 and within the size limit. The first refusal is
/// returned.
pub fn prepare_uploads(images: &Vec<ImageUpload>) -> (r: Result<Vec<StoredImage>, UploadError>)
    ensures
        images@.len() > MAX_IMAGES_PER_MESSAGE ==> r == Err::<Vec<StoredImage>, UploadError>(
            UploadError::TooManyAttachments(images@.len() as usize),
        ),
        images@.len() <= MAX_IMAGES_PER_MESSAGE ==> match first_refusal(images@) {
            Some(e) => r == Err::<Vec<StoredImage>, UploadError>(e),
            None => r matches Ok(v) && v@.len() == images@.len() && forall|i: int|
                0 <= i < images@.len() ==> stores(#[trigger] v@[i], images@[i]),
        },
{
    if images.len() > MAX_IMAGES_PER_MESSAGE {
        return Err(UploadError::TooManyAttachments(images.len()));
    }
    let mut out: Vec<StoredImage> = Vec::new();
    let mut i: usize = 0;
    while i < images.len()
        invariant
            i <= images@.len(),
            images@.len() <= MAX_IMAGES_PER_MESSAGE,
            first_refusal(images@.subrange(0, i as int)) is None,
            out@.len() == i,
            forall|k: int| 0 <= k < i ==> stores(#[trigger] out@[k], images@[k]),
        decreases images@.len() - i,
    {
        assert(images@.subrange(0, i + 1).drop_last() =~= images@.subrange(0, i as int));
        assert(images@.subrange(0, i + 1).last() == images@[i as int]);
        let img = &images[i];
        match check_image_upload(img) {
            Ok((ext, bytes)) => {
                let id = new_id();
                let name = attachment_file_name(id, ext);
                let rel_path = attachment_rel_path(name.as_str());
                out.push(
                    StoredImage {
                        id,
                        file_name: name,
                        rel_path,
                        content_type: img.content_type.clone(),
                        original_name: img.original_name.clone(),
                        bytes,
                    },
                );
            },
            Err(e) => {
                proof {
                    lemma_first_refusal_prefix(images@, i as int + 1);
                }
                return Err(e);
            },
        }
        i = i + 1;
    }
    assert(images@.subrange(0, images@.len() as int) =~= images@);
    Ok(out)
}

proof fn lemma_first_refusal_prefix(imgs: Seq<ImageUpload>, k: int)
    requires
        0 < k <= imgs.len(),
        first_refusal(imgs.subrange(0, k)) is Some,
    ensures
        first_refusal(imgs) == first_refusal(imgs.subrange(0, k)),
    decreases imgs.len(),
{
    if k == imgs.len() {
        assert(imgs.subrange(0, k) =~= imgs);
    } else {
        assert(imgs.drop_last().subrange(0, k) =~= imgs.subrange(0, k));
        lemma_first_refusal_prefix(imgs.drop_last(), k);
    }
}

/// What adding a message does besides storing it: the images to write, the
/// sidebar preview to set (if the message updates it), and the title to
/// give the session if it has none yet (if the message may title it).
#[derive(Debug, Clone)]
pub struct MessagePlan {
    pub uploads: Vec<StoredImage>,
    pub preview: Option<String>,
    pub title: Option<String>,
}

/// Plans adding a message of `role` with `content` and `images`: the images
/// are checked and prepared first, so a refused image stores nothing.
pub fn plan_new_message(role: MessageRole, content: &str, images: &Vec<ImageUpload>) -> (r: Result<
    MessagePlan,
    UploadError,
>)
    ensures
        images@.len() > MAX_IMAGES_PER_MESSAGE ==> r == Err::<MessagePlan, UploadError>(
            UploadError::TooManyAttachments(images@.len() as usize),
        ),
        images@.len() <= MAX_IMAGES_PER_MESSAGE && first_refusal(images@) is Some ==> r == Err::<
            MessagePlan,
            UploadError,
        >(first_refusal(images@)->Some_0),
        images@.len() <= MAX_IMAGES_PER_MESSAGE && first_refusal(images@) is None ==> (r matches Ok(
            plan,
        ) && {
            &&& plan.uploads@.len() == images@.len()
            &&& forall|i: int| 0 <= i < images@.len() ==> stores(#[trigger] plan.uploads@[i], images@[i])
            &&& (role != MessageRole::System && !is_blank(content@)) ==> (plan.preview matches Some(p)
                && p@ == take_chars(content@, 120))
            &&& !(role != MessageRole::System && !is_blank(content@)) ==> plan.preview is None
            &&& role == MessageRole::User ==> (plan.title matches Some(t) && t@ == take_chars(
                content@,
                50,
            ))
            &&& role != MessageRole::User ==> plan.title is None
        }),
{
    let uploads = match prepare_uploads(images) {
        Ok(u) => u,
        Err(e) => {
            return Err(e);
        },
    };
    let preview = if updates_preview(role, content) {
        Some(session_preview(content))
    } else {
        None
    };
    let title = if titles_session(role) {
        Some(auto_title(content))
    } else {
        None
    };
    Ok(MessagePlan { uploads, preview, title })
}

/// What starting a session with a character's `greeting` records: the
/// session's preview (the greeting as given), and the greeting message to
/// insert first (none for a missing or blank greeting).
pub fn session_start(greeting: Option<String>) -> (r: (Option<String>, Option<String>))
    ensures
        r.0 == greeting,
        match greeting {
            Some(g) => if is_blank(g@) {
                r.1 is None
            } else {
                r.1 == Some(g)
            },
            None => r.1 is None,
        },
{
    let preview = greeting.clone();
    (preview, greeting_message(greeting))
}


/// A message stored at time `created` with id `id` comes after the anchor
/// message: its timestamp text sorts later (the order the database compares
/// them in), or it is the same and the id is greater.
pub open spec fn comes_after(created: Seq<char>, id: u128, anchor_created: Seq<char>, anchor_id: u128) -> bool {
    !text_le(created, anchor_created) || (created == anchor_created && anchor_id < id)
}

/// The views of `(timestamp, id)` pairs.
pub open spec fn stamp_views(msgs: Seq<(String, u128)>) -> Seq<(Seq<char>, u128)> {
    msgs.map_values(|m: (String, u128)| (m.0@, m.1))
}

/// The positions, in order, of the messages that come after the anchor.
pub open spec fn following(msgs: Seq<(Seq<char>, u128)>, anchor_created: Seq<char>, anchor_id: u128) -> Seq<int>
    decreases msgs.len(),
{
    if msgs.len() == 0 {
        Seq::empty()
    } else if comes_after(msgs.last().0, msgs.last().1, anchor_created, anchor_id) {
        following(msgs.drop_last(), anchor_created, anchor_id).push(msgs.len() - 1)
    } else {
        following(msgs.drop_last(), anchor_created, anchor_id)
    }
}

/// Which of a session's messages, given as `(timestamp, id)`, an edit of the
/// anchor message removes: those created strictly after it, by timestamp,
/// ties broken by id. Their positions, in order.
pub fn messages_after(msgs: &Vec<(String, u128)>, anchor_created: &str, anchor_id: u128) -> (r: Vec<usize>)
    ensures
        r@.map_values(|p: usize| p as int) == following(stamp_views(msgs@), anchor_created@, anchor_id),
{
    let anchor = chars_of(anchor_created);
    let mut out: Vec<usize> = Vec::new();
    let mut i: usize = 0;
    while i < msgs.len()
        invariant
            i <= msgs@.len(),
            anchor@ == anchor_created@,
            out@.map_values(|p: usize| p as int) == following(
                stamp_views(msgs@.subrange(0, i as int)),
                anchor_created@,
                anchor_id,
            ),
        decreases msgs@.len() - i,
    {
        let ghost pre = msgs@.subrange(0, i as int);
        assert(stamp_views(msgs@.subrange(0, i + 1)).drop_last() =~= stamp_views(pre));
        assert(stamp_views(msgs@.subrange(0, i + 1)).last() == (msgs@[i as int].0@, msgs@[i as int].1));
        let created = chars_of(msgs[i].0.as_str());
        let later = !text_le_exec(&created, &anchor) || (str_is(msgs[i].0.as_str(), anchor_created)
            && anchor_id < msgs[i].1);
        let ghost before = out@;
        if later {
            out.push(i);
            assert(out@.map_values(|p: usize| p as int) =~= before.map_values(|p: usize| p as int).push(
                i as int,
            ));
        }
        i = i + 1;
    }
    assert(msgs@.subrange(0, msgs@.len() as int) =~= msgs@);
    out
}

} // verus!

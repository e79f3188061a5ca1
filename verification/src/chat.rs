//! Chat logic: placeholder resolution, system-prompt composition, session
//! search patterns, sidebar previews, and image-upload validation.

use crate::codec::{base64_decode, base64_decoding};
use crate::models::{ImageUpload, MessageRole, MAX_IMAGE_BYTES, MAX_IMAGES_PER_MESSAGE};
use crate::text::{
    decimal, push_char, push_decimal, sub_vec,
    chars_of, is_blank, push_range, push_str, replace_all, replace_vec, string_of, take_chars,
    trim, trim_range,
};
use vstd::prelude::*;

verus! {

/// `text` with `{{char}}`, `<BOT>` and `<bot>` replaced by the character's
/// name and `{{user}}`, `<USER>` and `<user>` by the user's, in that order.
pub open spec fn resolved(text: Seq<char>, char_name: Seq<char>, user_name: Seq<char>) -> Seq<char> {
    let a = replace_all(text, "{{char}}"@, char_name);
    let b = replace_all(a, "{{user}}"@, user_name);
    let c = replace_all(b, "<BOT>"@, char_name);
    let d = replace_all(c, "<bot>"@, char_name);
    let e = replace_all(d, "<USER>"@, user_name);
    replace_all(e, "<user>"@, user_name)
}

/// Resolve `{{char}}` / `{{user}}` placeholders (and the `<BOT>` / `<USER>`
/// variants) in message text.
pub fn resolve_placeholders(text: &str, char_name: &str, user_name: &str) -> (r: String)
    ensures
        r@ == resolved(text@, char_name@, user_name@),
{
    proof {
        reveal_strlit("{{char}}");
        reveal_strlit("{{user}}");
        reveal_strlit("<BOT>");
        reveal_strlit("<bot>");
        reveal_strlit("<USER>");
        reveal_strlit("<user>");
    }
    let t = chars_of(text);
    let c = chars_of(char_name);
    let u = chars_of(user_name);
    let p1 = chars_of("{{char}}");
    let p2 = chars_of("{{user}}");
    let p3 = chars_of("<BOT>");
    let p4 = chars_of("<bot>");
    let p5 = chars_of("<USER>");
    let p6 = chars_of("<user>");
    let a = replace_vec(&t, &p1, &c);
    let b = replace_vec(&a, &p2, &u);
    let cc = replace_vec(&b, &p3, &c);
    let d = replace_vec(&cc, &p4, &c);
    let e = replace_vec(&d, &p5, &u);
    let f = replace_vec(&e, &p6, &u);
    string_of(&f)
}

/// The view of an optional string.
pub open spec fn opt_view(o: Option<&str>) -> Option<Seq<char>> {
    match o {
        Some(s) => Some(s@),
        None => None,
    }
}

/// The trimmed text of an optional field, if anything is left of it.
pub open spec fn present(o: Option<Seq<char>>) -> Option<Seq<char>> {
    match o {
        Some(s) => if trim(s).len() > 0 {
            Some(trim(s))
        } else {
            None
        },
        None => None,
    }
}

/// The full system message before placeholders are resolved: the base
/// prompt (the character's own unless it is blank, else the default), a
/// card with the name and role, and the personality when there is one.
pub open spec fn composed_system_prompt(
    name: Seq<char>,
    role: Option<Seq<char>>,
    personality: Option<Seq<char>>,
    system_prompt: Option<Seq<char>>,
    default_system_prompt: Seq<char>,
) -> Seq<char> {
    let base = match system_prompt {
        Some(sp) => if is_blank(sp) {
            default_system_prompt
        } else {
            sp
        },
        None => default_system_prompt,
    };
    let card = "Name: "@ + name + match present(role) {
        Some(r) => "\nRole: "@ + r,
        None => Seq::empty(),
    };
    trim(base) + "\n\n"@ + card + match present(personality) {
        Some(p) => "\n\n"@ + "Personality:\n"@ + p,
        None => Seq::empty(),
    }
}

/// The system message sent to the model, composed from all of a
/// character's fields with placeholders resolved.
pub open spec fn system_prompt_for(
    name: Seq<char>,
    role: Option<Seq<char>>,
    personality: Option<Seq<char>>,
    system_prompt: Option<Seq<char>>,
    user_name: Seq<char>,
    default_system_prompt: Seq<char>,
) -> Seq<char> {
    resolved(
        composed_system_prompt(name, role, personality, system_prompt, default_system_prompt),
        name,
        user_name,
    )
}

/// Appends the trimmed text of an optional field, if any, after `label`.
/// Returns whether anything was appended.
fn push_present(out: &mut String, label: &str, field: Option<&str>) -> (pushed: bool)
    ensures
        pushed == (present(opt_view(field)) is Some),
        present(opt_view(field)) matches Some(t) ==> final(out)@ == old(out)@ + label@ + t,
        present(opt_view(field)) is None ==> final(out)@ == old(out)@,
{
    match field {
        Some(f) => {
            let v = chars_of(f);
            let (i, j) = trim_range(&v, 0, v.len());
            assert(v@.subrange(0, v@.len() as int) =~= v@);
            if i == j {
                false
            } else {
                push_str(out, label);
                push_range(out, &v, i, j);
                true
            }
        },
        None => false,
    }
}

/// Compose the full system message from all of a character's fields so the
/// model always receives its name, role and personality.
pub fn build_system_prompt(
    name: &str,
    role: Option<&str>,
    personality: Option<&str>,
    system_prompt: Option<&str>,
    user_name: &str,
    default_system_prompt: &str,
) -> (r: String)
    ensures
        r@ == system_prompt_for(
            name@,
            opt_view(role),
            opt_view(personality),
            opt_view(system_prompt),
            user_name@,
            default_system_prompt@,
        ),
{
    let base: &str = match system_prompt {
        Some(sp) => {
            let v = chars_of(sp);
            let (i, j) = trim_range(&v, 0, v.len());
            assert(v@.subrange(0, v@.len() as int) =~= v@);
            if i == j {
                default_system_prompt
            } else {
                sp
            }
        },
        None => default_system_prompt,
    };
    let bv = chars_of(base);
    let (bi, bj) = trim_range(&bv, 0, bv.len());
    assert(bv@.subrange(0, bv@.len() as int) =~= bv@);
    let mut out = String::new();
    push_range(&mut out, &bv, bi, bj);
    push_str(&mut out, "\n\nName: ");
    push_str(&mut out, name);
    let ghost before_role = out@;
    push_present(&mut out, "\nRole: ", role);
    push_present(&mut out, "\n\nPersonality:\n", personality);
    proof {
        reveal_strlit("\n\nName: ");
        reveal_strlit("\n\n");
        reveal_strlit("Name: ");
        reveal_strlit("\n\nPersonality:\n");
        reveal_strlit("Personality:\n");
        let composed = composed_system_prompt(
            name@,
            opt_view(role),
            opt_view(personality),
            opt_view(system_prompt),
            default_system_prompt@,
        );
        assert(out@ =~= composed);
    }
    resolve_placeholders(out.as_str(), name, user_name)
}


/// Characters that SQL `LIKE` treats specially (with `ESCAPE '\'`).
pub open spec fn is_like_special(c: char) -> bool {
    c == '\\' || c == '%' || c == '_'
}

/// `s` with every special character preceded by a backslash.
pub open spec fn escape_like(s: Seq<char>) -> Seq<char>
    decreases s.len(),
{
    if s.len() == 0 {
        s
    } else {
        (if is_like_special(s[0]) {
            seq!['\\', s[0]]
        } else {
            seq![s[0]]
        }) + escape_like(s.drop_first())
    }
}

/// Reading an escaped `LIKE` body back: a backslash stands for the
/// character after it.
pub open spec fn unescape_like(t: Seq<char>) -> Seq<char>
    decreases t.len(),
{
    if t.len() == 0 {
        t
    } else if t[0] == '\\' && t.len() >= 2 {
        seq![t[1]] + unescape_like(t.subrange(2, t.len() as int))
    } else {
        seq![t[0]] + unescape_like(t.drop_first())
    }
}

/// The substring `LIKE` pattern for a search term.
pub open spec fn like_pattern_of(query: Seq<char>) -> Seq<char> {
    seq!['%'] + escape_like(query) + seq!['%']
}

pub proof fn lemma_escape_like_append(a: Seq<char>, b: Seq<char>)
    ensures
        escape_like(a + b) == escape_like(a) + escape_like(b),
    decreases a.len(),
{
    if a.len() == 0 {
        assert(a + b =~= b);
    } else {
        assert((a + b).drop_first() =~= a.drop_first() + b);
        lemma_escape_like_append(a.drop_first(), b);
        assert((a + b)[0] == a[0]);
    }
}

/// Escaping never loses information: reading the escaped body back gives
/// the search term, so `%` and `_` in a query are matched literally.
pub proof fn lemma_like_escape_round_trip(s: Seq<char>)
    ensures
        unescape_like(escape_like(s)) == s,
    decreases s.len(),
{
    if s.len() > 0 {
        let rest = escape_like(s.drop_first());
        lemma_like_escape_round_trip(s.drop_first());
        if is_like_special(s[0]) {
            let t = seq!['\\', s[0]] + rest;
            assert(t.subrange(2, t.len() as int) =~= rest);
            assert(s =~= seq![s[0]] + s.drop_first());
        } else {
            let t = seq![s[0]] + rest;
            assert(t.drop_first() =~= rest);
            assert(s =~= seq![s[0]] + s.drop_first());
        }
    }
}

/// Wraps a search term in `%` for a substring `LIKE`, escaping the
/// characters SQL treats as wildcards. Pair with `ESCAPE '\'`.
pub fn like_pattern(query: &str) -> (r: String)
    ensures
        r@ == like_pattern_of(query@),
{
    let q = chars_of(query);
    let mut out = String::new();
    push_char(&mut out, '%');
    let mut i: usize = 0;
    while i < q.len()
        invariant
            i <= q@.len(),
            out@ == seq!['%'] + escape_like(q@.subrange(0, i as int)),
        decreases q@.len() - i,
    {
        let c = q[i];
        if c == '\\' || c == '%' || c == '_' {
            push_char(&mut out, '\\');
        }
        push_char(&mut out, c);
        proof {
            let pre = q@.subrange(0, i as int);
            lemma_escape_like_append(pre, seq![c]);
            assert(q@.subrange(0, i + 1) =~= pre + seq![c]);
            assert(seq![c].drop_first() =~= Seq::<char>::empty());
            assert(escape_like(seq![c].drop_first()) =~= Seq::<char>::empty());
            assert(escape_like(seq![c]) =~= (if is_like_special(c) { seq!['\\', c] } else { seq![c] }));
        }
        i = i + 1;
    }
    push_char(&mut out, '%');
    assert(q@.subrange(0, q@.len() as int) =~= q@);
    out
}

/// The search pattern for a session query: `None` when there is no query or
/// it is blank, else the `LIKE` pattern of the trimmed query.
pub open spec fn search_pattern_of(query: Option<Seq<char>>) -> Option<Seq<char>> {
    match query {
        Some(q) => if trim(q).len() > 0 {
            Some(like_pattern_of(trim(q)))
        } else {
            None
        },
        None => None,
    }
}

/// The `LIKE` pattern that narrows a session listing, if any.
pub fn search_pattern(query: Option<&str>) -> (r: Option<String>)
    ensures
        match (r, search_pattern_of(opt_view(query))) {
            (Some(a), Some(b)) => a@ == b,
            (None, None) => true,
            _ => false,
        },
{
    match query {
        Some(q) => {
            let v = chars_of(q);
            let (i, j) = trim_range(&v, 0, v.len());
            assert(v@.subrange(0, v@.len() as int) =~= v@);
            if i == j {
                None
            } else {
                let t = string_of(&sub_vec(&v, i, j));
                Some(like_pattern(t.as_str()))
            }
        },
        None => None,
    }
}

/// The file extension for a supported image MIME type.
pub open spec fn mime_extension(content_type: Seq<char>) -> Option<Seq<char>> {
    if content_type == "image/png"@ {
        Some("png"@)
    } else if content_type == "image/jpeg"@ || content_type == "image/jpg"@ {
        Some("jpg"@)
    } else if content_type == "image/webp"@ {
        Some("webp"@)
    } else if content_type == "image/gif"@ {
        Some("gif"@)
    } else {
        None
    }
}

/// Map a supported image MIME type to a file extension; `None` for anything
/// that isn't a recognized image type.
pub fn mime_to_extension(content_type: &str) -> (r: Option<&'static str>)
    ensures
        match (r, mime_extension(content_type@)) {
            (Some(a), Some(b)) => a@ == b,
            (None, None) => true,
            _ => false,
        },
{
    if crate::models::str_is(content_type, "image/png") {
        Some("png")
    } else if crate::models::str_is(content_type, "image/jpeg") || crate::models::str_is(
        content_type,
        "image/jpg",
    ) {
        Some("jpg")
    } else if crate::models::str_is(content_type, "image/webp") {
        Some("webp")
    } else if crate::models::str_is(content_type, "image/gif") {
        Some("gif")
    } else {
        None
    }
}

/// Why an uploaded image was refused.
#[derive(Debug, Clone, PartialEq, Eq)]
pub enum UploadError {
    /// Too many images on one message (the count, then the limit).
    TooManyAttachments(usize),
    /// The MIME type is not a supported image type.
    UnsupportedType(String),
    /// The data is not valid base64.
    InvalidData,
    /// The decoded image exceeds the size limit (its size in bytes).
    TooLarge(usize),
}

impl UploadError {
    /// A human-readable description of the refusal.
    pub fn describe(&self) -> (s: String)
        ensures
            s@ == upload_error_text(*self),
    {
        let mut s = String::new();
        match self {
            UploadError::TooManyAttachments(n) => {
                push_str(&mut s, "too many attachments: ");
                push_decimal(&mut s, *n as u64);
                push_str(&mut s, " (max 5)");
            },
            UploadError::UnsupportedType(t) => {
                push_str(&mut s, "unsupported attachment type: ");
                push_str(&mut s, t.as_str());
            },
            UploadError::InvalidData => {
                push_str(&mut s, "decode attachment base64");
            },
            UploadError::TooLarge(n) => {
                push_str(&mut s, "image too large: ");
                push_decimal(&mut s, *n as u64);
                push_str(&mut s, " bytes (max 10485760 bytes)");
            },
        }
        s
    }
}

/// The description of an upload refusal.
pub open spec fn upload_error_text(e: UploadError) -> Seq<char> {
    match e {
        UploadError::TooManyAttachments(n) => "too many attachments: "@ + decimal(n as nat)
            + " (max 5)"@,
        UploadError::UnsupportedType(t) => "unsupported attachment type: "@ + t@,
        UploadError::InvalidData => "decode attachment base64"@,
        UploadError::TooLarge(n) => "image too large: "@ + decimal(n as nat)
            + " bytes (max 10485760 bytes)"@,
    }
}

/// Checks the number of images on one message against the per-message cap.
pub fn check_attachment_count(count: usize) -> (r: Result<(), UploadError>)
    ensures
        r is Ok <==> count <= MAX_IMAGES_PER_MESSAGE,
        r matches Err(e) ==> e == UploadError::TooManyAttachments(count),
{
    if count > MAX_IMAGES_PER_MESSAGE {
        Err(UploadError::TooManyAttachments(count))
    } else {
        Ok(())
    }
}

/// The outcome of checking an uploaded image: its file extension and its
/// decoded bytes, or why it is refused.
pub open spec fn image_check(img: ImageUpload) -> Result<(Seq<char>, Seq<u8>), UploadError> {
    match mime_extension(img.content_type@) {
        None => Err(UploadError::UnsupportedType(img.content_type)),
        Some(ext) => match base64_decoding(img.data@) {
            None => Err(UploadError::InvalidData),
            Some(b) => if b.len() > MAX_IMAGE_BYTES {
                Err(UploadError::TooLarge(b.len() as usize))
            } else {
                Ok((ext, b))
            },
        },
    }
}

/// Validate an uploaded image: a supported MIME type, valid base64, and a
/// decoded size within the limit. Returns the file extension and the bytes.
pub fn check_image_upload(img: &ImageUpload) -> (r: Result<(&'static str, Vec<u8>), UploadError>)
    ensures
        match image_check(*img) {
            Ok((ext, b)) => r matches Ok((e, bytes)) && e@ == ext && bytes@ == b,
            Err(x) => r == Err::<(&'static str, Vec<u8>), UploadError>(x),
        },
{
    let ext = match mime_to_extension(img.content_type.as_str()) {
        Some(e) => e,
        None => {
            return Err(UploadError::UnsupportedType(img.content_type.clone()));
        },
    };
    let bytes = match base64_decode(img.data.as_str()) {
        Ok(b) => b,
        Err(_) => {
            return Err(UploadError::InvalidData);
        },
    };
    if bytes.len() > MAX_IMAGE_BYTES {
        return Err(UploadError::TooLarge(bytes.len()));
    }
    Ok((ext, bytes))
}

/// The sidebar preview of a message: its first 120 characters.
pub fn session_preview(content: &str) -> (r: String)
    ensures
        r@ == take_chars(content@, 120),
{
    let v = chars_of(content);
    let n: usize = if v.len() < 120 { v.len() } else { 120 };
    string_of(&sub_vec(&v, 0, n))
}

/// The automatic session title taken from a first user message: its first
/// 50 characters.
pub fn auto_title(content: &str) -> (r: String)
    ensures
        r@ == take_chars(content@, 50),
{
    let v = chars_of(content);
    let n: usize = if v.len() < 50 { v.len() } else { 50 };
    string_of(&sub_vec(&v, 0, n))
}

/// Whether adding a message updates its session's sidebar preview: every
/// non-system message with visible content does.
pub fn updates_preview(role: MessageRole, content: &str) -> (b: bool)
    ensures
        b == (role != MessageRole::System && !is_blank(content@)),
{
    role != MessageRole::System && !crate::text::str_is_blank(content)
}

/// Whether adding a message may title its session: only user messages do
/// (and only while the session has no title).
pub fn titles_session(role: MessageRole) -> (b: bool)
    ensures
        b == (role == MessageRole::User),
{
    role == MessageRole::User
}

/// The greeting to insert as a new session's first message: the
/// character's greeting, unless it is missing or blank.
pub fn greeting_message(greeting: Option<String>) -> (r: Option<String>)
    ensures
        match greeting {
            Some(g) => if is_blank(g@) {
                r is None
            } else {
                r == Some(g)
            },
            None => r is None,
        },
{
    match greeting {
        Some(g) => {
            if crate::text::str_is_blank(g.as_str()) {
                None
            } else {
                Some(g)
            }
        },
        None => None,
    }
}

} // verus!

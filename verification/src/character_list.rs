//! Decisions of the characters page: which characters a search shows, when
//! closing the editor needs a confirmation, what the editor saves, and how
//! avatar files, copies, exports and imports are named and checked.

use crate::character::{opt_str, UpdateCharacter};
use crate::models::{str_is, NewCharacter};
use crate::text::{
    chars_of, contains_text, find, find_exec, is_blank, lowercase, lowercase_of, push_char,
    push_str, replace_all, replace_vec, str_contains, str_is_blank, string_of, string_of_range,
    trim, trimmed, lemma_find_occurs,
};
use vstd::prelude::*;

verus! {

/// The character list shows `c` for the search `query`: a blank query shows
/// everything; otherwise the lower-cased, trimmed query must occur in the
/// lower-cased name, role or personality.
pub open spec fn shows_character(query: Seq<char>, c: NewCharacter) -> bool {
    let q = lowercase_of(trim(query));
    ||| q.len() == 0
    ||| contains_text(lowercase_of(c.name@), q)
    ||| (c.role matches Some(r) && contains_text(lowercase_of(r@), q))
    ||| (c.personality matches Some(p) && contains_text(lowercase_of(p@), q))
}

/// Positions of the characters the search `query` shows, in list order.
pub open spec fn shown_positions(query: Seq<char>, list: Seq<NewCharacter>) -> Seq<usize>
    decreases list.len(),
{
    if list.len() == 0 {
        Seq::empty()
    } else if shows_character(query, list.last()) {
        shown_positions(query, list.drop_last()).push((list.len() - 1) as usize)
    } else {
        shown_positions(query, list.drop_last())
    }
}

fn optional_contains(field: &Option<String>, q: &str) -> (b: bool)
    ensures
        b == (field matches Some(f) && contains_text(lowercase_of(f@), q@)),
{
    match field {
        Some(f) => {
            let lf = lowercase(f.as_str());
            str_contains(lf.as_str(), q)
        },
        None => false,
    }
}

/// Positions of the characters to show for the search `query`.
pub fn visible_characters(query: &str, list: &Vec<NewCharacter>) -> (r: Vec<usize>)
    ensures
        r@ == shown_positions(query@, list@),
{
    let t = string_of(&trimmed(&chars_of(query)));
    let q = lowercase(t.as_str());
    let empty = chars_of(q.as_str()).len() == 0;
    let mut out: Vec<usize> = Vec::new();
    let mut i: usize = 0;
    while i < list.len()
        invariant
            i <= list@.len(),
            q@ == lowercase_of(trim(query@)),
            empty == (q@.len() == 0),
            out@ == shown_positions(query@, list@.subrange(0, i as int)),
        decreases list@.len() - i,
    {
        assert(list@.subrange(0, i + 1).drop_last() =~= list@.subrange(0, i as int));
        assert(list@.subrange(0, i + 1).last() == list@[i as int]);
        let c = &list[i];
        let shown = empty || str_contains(lowercase(c.name.as_str()).as_str(), q.as_str())
            || optional_contains(&c.role, q.as_str()) || optional_contains(
            &c.personality,
            q.as_str(),
        );
        if shown {
            out.push(i);
        }
        i = i + 1;
    }
    assert(list@.subrange(0, list@.len() as int) =~= list@);
    out
}

/// The text fields of the character editor.
#[derive(Debug, Clone)]
pub struct CharacterForm {
    pub name: String,
    pub role: String,
    pub personality: String,
    pub system_prompt: String,
    pub greeting: String,
}

/// Two editor states hold the same text in every field.
pub open spec fn same_form(a: CharacterForm, b: CharacterForm) -> bool {
    &&& a.name@ == b.name@
    &&& a.role@ == b.role@
    &&& a.personality@ == b.personality@
    &&& a.system_prompt@ == b.system_prompt@
    &&& a.greeting@ == b.greeting@
}

/// Whether the editor holds changes that closing it would discard: text that
/// differs from what the editor opened with, a newly picked avatar, or a
/// removed one.
pub fn form_is_dirty(
    current: &CharacterForm,
    opened: &CharacterForm,
    avatar_picked: bool,
    avatar_cleared: bool,
) -> (b: bool)
    ensures
        b == (!same_form(*current, *opened) || avatar_picked || avatar_cleared),
{
    let same = str_is(current.name.as_str(), opened.name.as_str()) && str_is(
        current.role.as_str(),
        opened.role.as_str(),
    ) && str_is(current.personality.as_str(), opened.personality.as_str()) && str_is(
        current.system_prompt.as_str(),
        opened.system_prompt.as_str(),
    ) && str_is(current.greeting.as_str(), opened.greeting.as_str());
    !same || avatar_picked || avatar_cleared
}

fn text_or_empty(s: &Option<String>) -> (r: String)
    ensures
        r@ == (match s {
            Some(t) => t@,
            None => Seq::empty(),
        }),
{
    match s {
        Some(t) => t.clone(),
        None => String::new(),
    }
}

/// The editor's fields for an existing character; missing fields are empty.
pub fn form_for(c: &NewCharacter) -> (f: CharacterForm)
    ensures
        f.name@ == c.name@,
        f.role@ == (match c.role {
            Some(t) => t@,
            None => Seq::empty(),
        }),
        f.personality@ == (match c.personality {
            Some(t) => t@,
            None => Seq::empty(),
        }),
        f.system_prompt@ == (match c.system_prompt {
            Some(t) => t@,
            None => Seq::empty(),
        }),
        f.greeting@ == (match c.greeting {
            Some(t) => t@,
            None => Seq::empty(),
        }),
{
    CharacterForm {
        name: c.name.clone(),
        role: text_or_empty(&c.role),
        personality: text_or_empty(&c.personality),
        system_prompt: text_or_empty(&c.system_prompt),
        greeting: text_or_empty(&c.greeting),
    }
}

/// A field of a new character: `None` when the editor field is empty.
pub open spec fn filled(s: Seq<char>) -> Option<Seq<char>> {
    if s.len() == 0 {
        None
    } else {
        Some(s)
    }
}

fn filled_field(s: &String) -> (r: Option<String>)
    ensures
        opt_str(r) == filled(s@),
{
    if s.as_str().is_empty() {
        None
    } else {
        Some(s.clone())
    }
}

/// What the editor sends to create a character: empty fields left out.
pub fn form_to_new(f: &CharacterForm) -> (c: NewCharacter)
    ensures
        c.name@ == f.name@,
        opt_str(c.role) == filled(f.role@),
        opt_str(c.personality) == filled(f.personality@),
        opt_str(c.system_prompt) == filled(f.system_prompt@),
        opt_str(c.greeting) == filled(f.greeting@),
{
    NewCharacter {
        name: f.name.clone(),
        role: filled_field(&f.role),
        personality: filled_field(&f.personality),
        system_prompt: filled_field(&f.system_prompt),
        greeting: filled_field(&f.greeting),
    }
}

/// What the editor sends to update the character `id`: every field, so an
/// emptied field is cleared.
pub fn form_to_update(id: u128, f: &CharacterForm) -> (u: UpdateCharacter)
    ensures
        u.id == id,
        opt_str(u.name) == Some(f.name@),
        opt_str(u.role) == Some(f.role@),
        opt_str(u.personality) == Some(f.personality@),
        opt_str(u.system_prompt) == Some(f.system_prompt@),
        opt_str(u.greeting) == Some(f.greeting@),
{
    UpdateCharacter {
        id,
        name: Some(f.name.clone()),
        role: Some(f.role.clone()),
        personality: Some(f.personality.clone()),
        system_prompt: Some(f.system_prompt.clone()),
        greeting: Some(f.greeting.clone()),
    }
}

/// The editor's complaint about the name field, if any.
pub fn form_name_error(name: &str) -> (e: Option<&'static str>)
    ensures
        is_blank(name@) ==> (e matches Some(m) && m@ == "Name is required"@),
        !is_blank(name@) ==> e is None,
{
    if str_is_blank(name) {
        Some("Name is required")
    } else {
        None
    }
}

/// The character created by "Duplicate": the same fields under the name
/// `{name} (copy)`.
pub fn duplicate_of(c: &NewCharacter) -> (d: NewCharacter)
    ensures
        d.name@ == c.name@ + " (copy)"@,
        d.role == c.role,
        d.personality == c.personality,
        d.system_prompt == c.system_prompt,
        d.greeting == c.greeting,
{
    let mut name = c.name.clone();
    push_str(&mut name, " (copy)");
    NewCharacter {
        name,
        role: c.role.clone(),
        personality: c.personality.clone(),
        system_prompt: c.system_prompt.clone(),
        greeting: c.greeting.clone(),
    }
}

/// The file name a character is exported under: its trimmed name with `/`
/// turned into `-`, then `.json`.
pub fn export_file_name(name: &str) -> (r: String)
    ensures
        r@ == replace_all(trim(name@), "/"@, "-"@) + ".json"@,
{
    proof {
        reveal_strlit("/");
        reveal_strlit("-");
    }
    let t = trimmed(&chars_of(name));
    let slash = chars_of("/");
    let dash = chars_of("-");
    let mut r = string_of(&replace_vec(&t, &slash, &dash));
    push_str(&mut r, ".json");
    r
}

/// The URL of a stored avatar: its relative path below the site root.
pub fn avatar_url(rel: Option<&str>) -> (r: Option<String>)
    ensures
        match rel {
            Some(p) => r matches Some(u) && u@ == seq!['/'] + p@,
            None => r is None,
        },
{
    match rel {
        Some(p) => {
            let mut u = String::new();
            push_char(&mut u, '/');
            push_str(&mut u, p);
            Some(u)
        },
        None => None,
    }
}

/// The avatar the editor shows: a newly picked image's preview, nothing
/// once the avatar was removed, else the saved avatar.
pub fn dialog_avatar_url(picked_preview: Option<&str>, cleared: bool, saved: Option<&str>) -> (r:
    Option<String>)
    ensures
        match picked_preview {
            Some(p) => r matches Some(u) && u@ == p@,
            None => if cleared {
                r is None
            } else {
                match saved {
                    Some(s) => r matches Some(u) && u@ == seq!['/'] + s@,
                    None => r is None,
                }
            },
        },
{
    match picked_preview {
        Some(p) => {
            let mut u = String::new();
            push_str(&mut u, p);
            Some(u)
        },
        None => if cleared {
            None
        } else {
            avatar_url(saved)
        },
    }
}

/// Largest image accepted as an avatar, in bytes (5 MB).
pub const MAX_AVATAR_FILE_BYTES: u64 = 5242880;

/// Why a picked file cannot become an avatar.
#[derive(Debug, Clone, Copy, PartialEq, Eq, Structural)]
pub enum AvatarFileError {
    /// The file is not an image.
    NotAnImage,
    /// The file exceeds [`MAX_AVATAR_FILE_BYTES`].
    TooLarge,
}

impl AvatarFileError {
    /// The warning shown for this error.
    pub fn describe(&self) -> (s: &'static str)
        ensures
            s@ == (match *self {
                AvatarFileError::NotAnImage => "Only image files can be used as an avatar"@,
                AvatarFileError::TooLarge => "Avatar image is too large (max 5 MB)"@,
            }),
    {
        match self {
            AvatarFileError::NotAnImage => "Only image files can be used as an avatar",
            AvatarFileError::TooLarge => "Avatar image is too large (max 5 MB)",
        }
    }
}

/// Checks a file picked as an avatar: an `image/` MIME type, at most
/// [`MAX_AVATAR_FILE_BYTES`].
pub fn check_avatar_file(content_type: &str, size: u64) -> (r: Result<(), AvatarFileError>)
    ensures
        !crate::text::starts_with(content_type@, "image/"@) ==> r == Err::<(), AvatarFileError>(
            AvatarFileError::NotAnImage,
        ),
        crate::text::starts_with(content_type@, "image/"@) && size > MAX_AVATAR_FILE_BYTES ==> r
            == Err::<(), AvatarFileError>(AvatarFileError::TooLarge),
        r is Ok <==> crate::text::starts_with(content_type@, "image/"@) && size
            <= MAX_AVATAR_FILE_BYTES,
{
    let ct = chars_of(content_type);
    let prefix = chars_of("image/");
    if !crate::text::starts_with_exec(&ct, &prefix) {
        Err(AvatarFileError::NotAnImage)
    } else if size > MAX_AVATAR_FILE_BYTES {
        Err(AvatarFileError::TooLarge)
    } else {
        Ok(())
    }
}

/// The base64 payload of a `data:` URL: the text between its first and
/// second comma (`split(',').nth(1)`), or empty when it has no comma.
pub open spec fn data_url_payload_of(url: Seq<char>) -> Seq<char> {
    match find(url, ","@) {
        None => Seq::empty(),
        Some(i) => {
            let rest = url.subrange(i + 1, url.len() as int);
            match find(rest, ","@) {
                Some(j) => rest.subrange(0, j),
                None => rest,
            }
        },
    }
}

/// The base64 payload of a `data:` URL read from a file.
pub fn data_url_payload(url: &str) -> (r: String)
    ensures
        r@ == data_url_payload_of(url@),
{
    proof {
        reveal_strlit(",");
    }
    let v = chars_of(url);
    let comma = chars_of(",");
    match find_exec(&v, &comma) {
        None => String::new(),
        Some(i) => {
            proof {
                lemma_find_occurs(v@, comma@);
                assert(comma@.len() == 1);
                assert(find(v@, comma@) == Some(i as int));
                assert(crate::text::occurs_at(v@, comma@, i as int));
                assert(v@.len() == v.len());
            }
            let rest = string_of_range(&v, i + 1, v.len());
            let rv = chars_of(rest.as_str());
            match find_exec(&rv, &comma) {
                Some(j) => {
                    proof {
                        lemma_find_occurs(rv@, comma@);
                    }
                    string_of_range(&rv, 0, j)
                },
                None => rest,
            }
        },
    }
}

/// Why an imported character file was refused.
#[derive(Debug, Clone, Copy, PartialEq, Eq, Structural)]
pub enum ImportError {
    /// The file is not a character file.
    Invalid,
    /// The character in the file has a blank name.
    NoName,
}

impl ImportError {
    /// The error shown for this refusal.
    pub fn describe(&self) -> (s: &'static str)
        ensures
            s@ == (match *self {
                ImportError::Invalid => "Import failed: not a valid character file"@,
                ImportError::NoName => "Import failed: the character has no name"@,
            }),
    {
        match self {
            ImportError::Invalid => "Import failed: not a valid character file",
            ImportError::NoName => "Import failed: the character has no name",
        }
    }
}

/// Checks an imported character: it must have a name.
pub fn check_import(c: &NewCharacter) -> (r: Result<(), ImportError>)
    ensures
        r is Ok <==> !is_blank(c.name@),
        r matches Err(e) ==> e == ImportError::NoName,
{
    if str_is_blank(c.name.as_str()) {
        Err(ImportError::NoName)
    } else {
        Ok(())
    }
}

/// The personality line of a character card.
pub fn card_personality(personality: Option<&str>) -> (s: String)
    ensures
        s@ == (match personality {
            Some(p) => p@,
            None => "No personality description yet."@,
        }),
{
    let mut s = String::new();
    match personality {
        Some(p) => push_str(&mut s, p),
        None => push_str(&mut s, "No personality description yet."),
    }
    s
}

/// The editor's title and subtitle.
pub fn editor_heading(editing: bool) -> (h: (&'static str, &'static str))
    ensures
        editing ==> h.0@ == "Edit Character"@ && h.1@ == "Update this character's details."@,
        !editing ==> h.0@ == "New Character"@ && h.1@
            == "Give your character a name, personality, and voice."@,
{
    if editing {
        ("Edit Character", "Update this character's details.")
    } else {
        ("New Character", "Give your character a name, personality, and voice.")
    }
}

} // verus!

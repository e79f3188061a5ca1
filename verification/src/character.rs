//! Roleplay characters: how their fields are cleaned on create and merged on
//! update, which names are accepted, how an avatar upload is checked and
//! where it is recorded, and how a model-designed draft becomes a character.

use crate::chat::{mime_extension, mime_to_extension, present};
use crate::codec::{base64_decode, base64_decoding};
use crate::config::{avatar_path_ext, avatar_rel, avatar_rel_path, file_name, joined, AVATARS_DIR};
use crate::models::NewCharacter;
use crate::text::{chars_of, push_str, string_of, trim, trimmed};
use vstd::prelude::*;

verus! {

/// The text of an optional string field.
pub open spec fn opt_str(o: Option<String>) -> Option<Seq<char>> {
    match o {
        Some(s) => Some(s@),
        None => None,
    }
}

/// An update field's new value: trimmed, and `None` where nothing is left.
pub fn opt_clean(s: String) -> (r: Option<String>)
    ensures
        opt_str(r) == present(Some(s@)),
{
    let t = trimmed(&chars_of(s.as_str()));
    if t.len() == 0 {
        None
    } else {
        Some(string_of(&t))
    }
}

/// An optional field trimmed, with empty values dropped, so that stored
/// records hold no blank strings.
pub fn clean(s: Option<String>) -> (r: Option<String>)
    ensures
        opt_str(r) == present(opt_str(s)),
{
    match s {
        Some(v) => opt_clean(v),
        None => None,
    }
}

/// The fields stored for a newly created character: the name as given, the
/// other fields cleaned.
pub fn new_character_fields(new: &NewCharacter) -> (r: NewCharacter)
    ensures
        r.name@ == new.name@,
        opt_str(r.role) == present(opt_str(new.role)),
        opt_str(r.personality) == present(opt_str(new.personality)),
        opt_str(r.system_prompt) == present(opt_str(new.system_prompt)),
        opt_str(r.greeting) == present(opt_str(new.greeting)),
{
    NewCharacter {
        name: new.name.clone(),
        role: clean(new.role.clone()),
        personality: clean(new.personality.clone()),
        system_prompt: clean(new.system_prompt.clone()),
        greeting: clean(new.greeting.clone()),
    }
}

/// Input for updating a character: `None` leaves a field unchanged; a blank
/// value clears an optional field.
#[derive(Debug, Clone)]
pub struct UpdateCharacter {
    pub id: u128,
    pub name: Option<String>,
    pub role: Option<String>,
    pub personality: Option<String>,
    pub system_prompt: Option<String>,
    pub greeting: Option<String>,
}

/// An optional field after an update: the cleaned new value where one was
/// given, the old value otherwise.
pub open spec fn merged_field(update: Option<String>, existing: Option<String>) -> Option<
    Seq<char>,
> {
    match update {
        Some(v) => present(Some(v@)),
        None => opt_str(existing),
    }
}

fn merge_field(update: Option<String>, existing: Option<String>) -> (r: Option<String>)
    ensures
        opt_str(r) == merged_field(update, existing),
{
    match update {
        Some(v) => opt_clean(v),
        None => existing,
    }
}

/// A character's fields after `update` is applied to `existing`.
pub fn merge_update(existing: NewCharacter, update: &UpdateCharacter) -> (r: NewCharacter)
    ensures
        r.name@ == (match update.name {
            Some(n) => n@,
            None => existing.name@,
        }),
        opt_str(r.role) == merged_field(update.role, existing.role),
        opt_str(r.personality) == merged_field(update.personality, existing.personality),
        opt_str(r.system_prompt) == merged_field(update.system_prompt, existing.system_prompt),
        opt_str(r.greeting) == merged_field(update.greeting, existing.greeting),
{
    let name = match &update.name {
        Some(n) => n.clone(),
        None => existing.name,
    };
    NewCharacter {
        name,
        role: merge_field(update.role.clone(), existing.role),
        personality: merge_field(update.personality.clone(), existing.personality),
        system_prompt: merge_field(update.system_prompt.clone(), existing.system_prompt),
        greeting: merge_field(update.greeting.clone(), existing.greeting),
    }
}

/// Longest accepted character name, in characters after trimming.
pub const MAX_NAME_CHARS: usize = 100;

/// Why a character's fields were refused.
#[derive(Debug, Clone, Copy, PartialEq, Eq, Structural)]
pub enum CharacterError {
    /// A new character's name is blank.
    NameRequired,
    /// A new character's name is longer than [`MAX_NAME_CHARS`].
    NameTooLong,
    /// An update would make the name blank.
    NameEmpty,
}

impl CharacterError {
    /// The message reported for this error.
    pub fn describe(&self) -> (s: &'static str)
        ensures
            s@ == character_error_text(*self),
    {
        match self {
            CharacterError::NameRequired => "Character name is required",
            CharacterError::NameTooLong => "Character name is too long (max 100)",
            CharacterError::NameEmpty => "Character name cannot be empty",
        }
    }
}

/// The message of a character error.
pub open spec fn character_error_text(e: CharacterError) -> Seq<char> {
    match e {
        CharacterError::NameRequired => "Character name is required"@,
        CharacterError::NameTooLong => "Character name is too long (max 100)"@,
        CharacterError::NameEmpty => "Character name cannot be empty"@,
    }
}

/// Checks a new character's name: not blank, and at most
/// [`MAX_NAME_CHARS`] characters once trimmed.
pub fn check_new_name(name: &str) -> (r: Result<(), CharacterError>)
    ensures
        trim(name@).len() == 0 ==> r == Err::<(), CharacterError>(CharacterError::NameRequired),
        trim(name@).len() > MAX_NAME_CHARS ==> r == Err::<(), CharacterError>(
            CharacterError::NameTooLong,
        ),
        r is Ok <==> 0 < trim(name@).len() <= MAX_NAME_CHARS,
{
    let t = trimmed(&chars_of(name));
    if t.len() == 0 {
        Err(CharacterError::NameRequired)
    } else if t.len() > MAX_NAME_CHARS {
        Err(CharacterError::NameTooLong)
    } else {
        Ok(())
    }
}

/// Checks the name an update sets, if it sets one: it may not be blank.
pub fn check_update_name(name: Option<&str>) -> (r: Result<(), CharacterError>)
    ensures
        r is Ok <==> (name matches Some(n) ==> trim(n@).len() > 0),
        r matches Err(e) ==> e == CharacterError::NameEmpty,
{
    match name {
        Some(n) => {
            if trimmed(&chars_of(n)).len() == 0 {
                Err(CharacterError::NameEmpty)
            } else {
                Ok(())
            }
        },
        None => Ok(()),
    }
}

/// Largest accepted avatar image, in bytes (5 MB).
pub const MAX_AVATAR_BYTES: usize = 5242880;

/// Why an avatar upload was refused.
#[derive(Debug, Clone, PartialEq, Eq)]
pub enum AvatarError {
    /// The MIME type is not a supported image type.
    UnsupportedType(String),
    /// The data is not valid base64.
    InvalidData,
    /// The decoded image exceeds [`MAX_AVATAR_BYTES`].
    TooLarge,
}

impl AvatarError {
    /// The message reported for this error.
    pub fn describe(&self) -> (s: String)
        ensures
            s@ == avatar_error_text(*self),
    {
        let mut s = String::new();
        match self {
            AvatarError::UnsupportedType(t) => {
                push_str(&mut s, "Unsupported image type: ");
                push_str(&mut s, t.as_str());
            },
            AvatarError::InvalidData => push_str(&mut s, "Invalid image data"),
            AvatarError::TooLarge => push_str(&mut s, "Image is too large (max 5 MB)"),
        }
        s
    }
}

/// The message of an avatar error.
pub open spec fn avatar_error_text(e: AvatarError) -> Seq<char> {
    match e {
        AvatarError::UnsupportedType(t) => "Unsupported image type: "@ + t@,
        AvatarError::InvalidData => "Invalid image data"@,
        AvatarError::TooLarge => "Image is too large (max 5 MB)"@,
    }
}

/// An accepted avatar: its extension, its bytes, and the path, relative to
/// the application directory, to record for it.
#[derive(Debug, Clone)]
pub struct AvatarUpload {
    pub ext: &'static str,
    pub bytes: Vec<u8>,
    pub rel_path: String,
}

/// Checks an avatar upload for the character `id`: `data` is raw base64 of
/// an image of MIME type `content_type`.
pub fn prepare_avatar(id: u128, data: &str, content_type: &str) -> (r: Result<
    AvatarUpload,
    AvatarError,
>)
    ensures
        match mime_extension(content_type@) {
            None => r matches Err(e) && e == AvatarError::UnsupportedType(e->0) && e->0@
                == content_type@,
            Some(ext) => match base64_decoding(data@) {
                None => r == Err::<AvatarUpload, AvatarError>(AvatarError::InvalidData),
                Some(b) => if b.len() > MAX_AVATAR_BYTES {
                    r == Err::<AvatarUpload, AvatarError>(AvatarError::TooLarge)
                } else {
                    r matches Ok(u) && u.ext@ == ext && u.bytes@ == b && u.rel_path@ == avatar_rel(
                        id,
                        ext,
                    )
                },
            },
        },
{
    let ext = match mime_to_extension(content_type) {
        Some(e) => e,
        None => {
            let mut t = String::new();
            push_str(&mut t, content_type);
            return Err(AvatarError::UnsupportedType(t));
        },
    };
    let bytes = match base64_decode(data) {
        Ok(b) => b,
        Err(_) => {
            return Err(AvatarError::InvalidData);
        },
    };
    if bytes.len() > MAX_AVATAR_BYTES {
        return Err(AvatarError::TooLarge);
    }
    let rel_path = avatar_rel_path(id, ext);
    Ok(AvatarUpload { ext, bytes, rel_path })
}

/// The avatar files a new upload for the character `id_text` replaces: one
/// per supported extension, whichever of them exist.
pub fn stale_avatar_files(config_dir: &str, id_text: &str) -> (r: Vec<String>)
    ensures
        r@.len() == 4,
        r@[0]@ == joined(joined(config_dir@, AVATARS_DIR@), file_name(id_text@, "png"@)),
        r@[1]@ == joined(joined(config_dir@, AVATARS_DIR@), file_name(id_text@, "jpg"@)),
        r@[2]@ == joined(joined(config_dir@, AVATARS_DIR@), file_name(id_text@, "webp"@)),
        r@[3]@ == joined(joined(config_dir@, AVATARS_DIR@), file_name(id_text@, "gif"@)),
{
    let mut r: Vec<String> = Vec::new();
    r.push(avatar_path_ext(config_dir, id_text, "png"));
    r.push(avatar_path_ext(config_dir, id_text, "jpg"));
    r.push(avatar_path_ext(config_dir, id_text, "webp"));
    r.push(avatar_path_ext(config_dir, id_text, "gif"));
    r
}

/// The avatar file to delete when a character's avatar path changes from
/// `old` to `new_rel`: the old one, if there was one and it differs.
pub fn replaced_avatar(old: Option<String>, new_rel: Option<&str>) -> (r: Option<String>)
    ensures
        match old {
            Some(o) => if (new_rel matches Some(n) && n@ == o@) {
                r is None
            } else {
                r == Some(o)
            },
            None => r is None,
        },
{
    match old {
        Some(o) => {
            let same = match new_rel {
                Some(n) => crate::models::str_is(o.as_str(), n),
                None => false,
            };
            if same {
                None
            } else {
                Some(o)
            }
        },
        None => None,
    }
}

/// A character draft designed by a model; every field but the name may be
/// missing.
#[derive(Debug, Clone)]
pub struct GeneratedCharacter {
    pub name: String,
    pub role: Option<String>,
    pub personality: Option<String>,
    pub system_prompt: Option<String>,
    pub greeting: Option<String>,
}

/// Why a character could not be designed.
#[derive(Debug, Clone, Copy, PartialEq, Eq, Structural)]
pub enum GenerateError {
    /// The description is blank.
    NoDescription,
    /// No model was chosen.
    NoModel,
    /// The model's draft has a blank name.
    NoName,
}

impl GenerateError {
    /// The message reported for this error.
    pub fn describe(&self) -> (s: &'static str)
        ensures
            s@ == generate_error_text(*self),
    {
        match self {
            GenerateError::NoDescription => "Describe the character first",
            GenerateError::NoModel => "Choose a model first",
            GenerateError::NoName => "The model didn't provide a character name",
        }
    }
}

/// The message of a generation error.
pub open spec fn generate_error_text(e: GenerateError) -> Seq<char> {
    match e {
        GenerateError::NoDescription => "Describe the character first"@,
        GenerateError::NoModel => "Choose a model first"@,
        GenerateError::NoName => "The model didn't provide a character name"@,
    }
}

/// The text that introduces the user's description in a design request.
pub const DESIGN_REQUEST_INTRO: &'static str =
    "Design a roleplay character based on this description (if it mentions an existing character or lesson, incorporate it):\n\n";

/// The user turn of a design request for `description` with `model`: the
/// trimmed description behind [`DESIGN_REQUEST_INTRO`].
pub fn design_request(description: &str, model: &str) -> (r: Result<String, GenerateError>)
    ensures
        trim(description@).len() == 0 ==> r == Err::<String, GenerateError>(
            GenerateError::NoDescription,
        ),
        trim(description@).len() > 0 && trim(model@).len() == 0 ==> r == Err::<
            String,
            GenerateError,
        >(GenerateError::NoModel),
        trim(description@).len() > 0 && trim(model@).len() > 0 ==> (r matches Ok(p) && p@
            == DESIGN_REQUEST_INTRO@ + trim(description@)),
{
    let d = trimmed(&chars_of(description));
    if d.len() == 0 {
        return Err(GenerateError::NoDescription);
    }
    if trimmed(&chars_of(model)).len() == 0 {
        return Err(GenerateError::NoModel);
    }
    let mut p = String::new();
    push_str(&mut p, DESIGN_REQUEST_INTRO);
    push_str(&mut p, string_of(&d).as_str());
    Ok(p)
}

/// The character a model's draft describes: the name trimmed, the other
/// fields cleaned. A draft with a blank name is refused.
pub fn generated_into_new(g: GeneratedCharacter) -> (r: Result<NewCharacter, GenerateError>)
    ensures
        trim(g.name@).len() == 0 <==> r is Err,
        r matches Err(e) ==> e == GenerateError::NoName,
        r matches Ok(c) ==> {
            &&& c.name@ == trim(g.name@)
            &&& opt_str(c.role) == present(opt_str(g.role))
            &&& opt_str(c.personality) == present(opt_str(g.personality))
            &&& opt_str(c.system_prompt) == present(opt_str(g.system_prompt))
            &&& opt_str(c.greeting) == present(opt_str(g.greeting))
        },
{
    let name = trimmed(&chars_of(g.name.as_str()));
    if name.len() == 0 {
        return Err(GenerateError::NoName);
    }
    Ok(
        NewCharacter {
            name: string_of(&name),
            role: clean(g.role),
            personality: clean(g.personality),
            system_prompt: clean(g.system_prompt),
            greeting: clean(g.greeting),
        },
    )
}

/// Cleaning is idempotent: a cleaned field is left as it is by cleaning it
/// again, so a stored record re-saved unchanged stays the same.
pub proof fn lemma_clean_idempotent(s: Option<Seq<char>>)
    ensures
        present(present(s)) == present(s),
{
    match s {
        Some(v) => {
            if trim(v).len() > 0 {
                crate::text::lemma_trim_idempotent(v);
            }
        },
        None => {},
    }
}

/// An update that sets nothing leaves every field as it was.
pub proof fn lemma_empty_update_keeps_fields(existing: NewCharacter, update: UpdateCharacter)
    requires
        update.name is None,
        update.role is None,
        update.personality is None,
        update.system_prompt is None,
        update.greeting is None,
    ensures
        merged_field(update.role, existing.role) == opt_str(existing.role),
        merged_field(update.personality, existing.personality) == opt_str(existing.personality),
        merged_field(update.system_prompt, existing.system_prompt) == opt_str(
            existing.system_prompt,
        ),
        merged_field(update.greeting, existing.greeting) == opt_str(existing.greeting),
{
}

} // verus!

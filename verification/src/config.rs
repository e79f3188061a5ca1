//! Where persistent app data lives: the SQLite database, avatars and
//! attachments, all under one application directory inside the platform's
//! configuration directory (e.g. `~/.config/nanorp` on Linux).
//!
//! Paths are text whose components are joined with `/`, which every
//! platform the app runs on accepts. The platform directory itself depends
//! on the machine; every other path is computed here from the application
//! directory that [`config_dir`] found.

use crate::ids::{uuid_hyphenated, uuid_text};
use crate::text::{push_char, push_str};
use vstd::prelude::*;

verus! {

/// Name of the application directory.
pub const APP_NAME: &'static str = "nanorp";

/// File name of the SQLite database.
pub const DB_FILENAME: &'static str = "nanorp.db";

/// Directory, under the application directory, holding avatar images.
pub const AVATARS_DIR: &'static str = "avatars";

/// Directory, under the application directory, holding message attachments.
pub const ATTACHMENTS_DIR: &'static str = "attachments";

/// `part` appended to `base` as a further path component.
pub open spec fn joined(base: Seq<char>, part: Seq<char>) -> Seq<char> {
    base + seq!['/'] + part
}

/// Why the application directory could not be located.
#[derive(Debug, Clone, Copy, PartialEq, Eq, Structural)]
pub enum ConfigError {
    /// The platform reported no configuration directory.
    NoConfigDir,
}

impl ConfigError {
    /// The message reported for this error.
    pub fn describe(&self) -> (s: &'static str)
        ensures
            s@ == "Could not determine config directory"@,
    {
        "Could not determine config directory"
    }
}

/// Calls `dirs::config_dir`, which asks the platform (environment variables
/// or the system's folder API) for the user's configuration directory, and
/// converts the path to text. Nothing is claimed of the result: it depends
/// on the machine, and a path that is not valid Unicode comes back as `None`
/// like a missing one.
#[verifier::external_body]
fn platform_config_dir() -> (dir: Option<String>) {
    dirs::config_dir().and_then(|p| p.into_os_string().into_string().ok())
}

/// `base` followed by the component `part`.
pub fn join_path(base: &str, part: &str) -> (r: String)
    ensures
        r@ == joined(base@, part@),
{
    let mut r = String::new();
    push_str(&mut r, base);
    push_char(&mut r, '/');
    push_str(&mut r, part);
    r
}

/// The application directory inside the platform directory `base`.
pub fn app_dir_under(base: &str) -> (r: String)
    ensures
        r@ == joined(base@, APP_NAME@),
{
    join_path(base, APP_NAME)
}

/// The application directory: [`APP_NAME`] inside the platform's
/// configuration directory, or an error where the platform has none.
pub fn config_dir() -> (r: Result<String, ConfigError>)
    ensures
        r matches Ok(dir) ==> exists|base: Seq<char>| #[trigger] joined(base, APP_NAME@) == dir@,
{
    match platform_config_dir() {
        Some(base) => {
            let dir = app_dir_under(&base);
            assert(joined(base@, APP_NAME@) == dir@);
            Ok(dir)
        },
        None => Err(ConfigError::NoConfigDir),
    }
}

/// The SQLite database file inside the application directory `config_dir`.
pub fn db_path(config_dir: &str) -> (r: String)
    ensures
        r@ == joined(config_dir@, DB_FILENAME@),
{
    join_path(config_dir, DB_FILENAME)
}

/// The avatars directory inside the application directory `config_dir`.
pub fn avatars_dir(config_dir: &str) -> (r: String)
    ensures
        r@ == joined(config_dir@, AVATARS_DIR@),
{
    join_path(config_dir, AVATARS_DIR)
}

/// The attachments directory inside the application directory `config_dir`.
pub fn attachments_dir(config_dir: &str) -> (r: String)
    ensures
        r@ == joined(config_dir@, ATTACHMENTS_DIR@),
{
    join_path(config_dir, ATTACHMENTS_DIR)
}

/// `id` followed by `.` and the extension `ext`.
pub open spec fn file_name(id: Seq<char>, ext: Seq<char>) -> Seq<char> {
    id + seq!['.'] + ext
}

fn name_with_ext(id: &str, ext: &str) -> (r: String)
    ensures
        r@ == file_name(id@, ext@),
{
    let mut r = String::new();
    push_str(&mut r, id);
    push_char(&mut r, '.');
    push_str(&mut r, ext);
    r
}

/// The avatar file of the character `id`, stored as `{id}.webp`.
pub fn avatar_path(config_dir: &str, id: &str) -> (r: String)
    ensures
        r@ == joined(joined(config_dir@, AVATARS_DIR@), file_name(id@, "webp"@)),
{
    let dir = avatars_dir(config_dir);
    let name = name_with_ext(id, "webp");
    join_path(&dir, &name)
}

/// The avatar file of the character `id` with the extension `ext`
/// (e.g. "png", "jpg", "webp", "gif").
pub fn avatar_path_ext(config_dir: &str, id: &str, ext: &str) -> (r: String)
    ensures
        r@ == joined(joined(config_dir@, AVATARS_DIR@), file_name(id@, ext@)),
{
    let dir = avatars_dir(config_dir);
    let name = name_with_ext(id, ext);
    join_path(&dir, &name)
}

/// The attachment file named `filename` (extension included).
pub fn attachment_path(config_dir: &str, filename: &str) -> (r: String)
    ensures
        r@ == joined(joined(config_dir@, ATTACHMENTS_DIR@), filename@),
{
    let dir = attachments_dir(config_dir);
    join_path(&dir, filename)
}

/// Path, relative to the application directory, recorded for the avatar of
/// the character `id` with the extension `ext`: `avatars/{id}.{ext}`.
pub open spec fn avatar_rel(id: u128, ext: Seq<char>) -> Seq<char> {
    joined(AVATARS_DIR@, file_name(uuid_hyphenated(id), ext))
}

/// Path, relative to the application directory, recorded for an attachment
/// file: `attachments/{filename}`.
pub open spec fn attachment_rel(filename: Seq<char>) -> Seq<char> {
    joined(ATTACHMENTS_DIR@, filename)
}

/// The relative path recorded for the avatar of the character `id`.
pub fn avatar_rel_path(id: u128, ext: &str) -> (r: String)
    ensures
        r@ == avatar_rel(id, ext@),
{
    let text = uuid_text(id);
    let name = name_with_ext(&text, ext);
    join_path(AVATARS_DIR, &name)
}

/// The file name of the attachment `id`: `{id}.{ext}`.
pub fn attachment_file_name(id: u128, ext: &str) -> (r: String)
    ensures
        r@ == file_name(uuid_hyphenated(id), ext@),
{
    let text = uuid_text(id);
    name_with_ext(&text, ext)
}

/// The relative path recorded for the attachment file `filename`.
pub fn attachment_rel_path(filename: &str) -> (r: String)
    ensures
        r@ == attachment_rel(filename@),
{
    join_path(ATTACHMENTS_DIR, filename)
}

/// The file that a relative path recorded in the database names.
pub fn resolve_rel(config_dir: &str, rel: &str) -> (r: String)
    ensures
        r@ == joined(config_dir@, rel@),
{
    join_path(config_dir, rel)
}

/// The file an avatar upload writes is the file its recorded relative path
/// names, so removing the avatar later removes what was written.
pub proof fn lemma_avatar_written_where_recorded(config_dir: Seq<char>, id: u128, ext: Seq<char>)
    ensures
        joined(joined(config_dir, AVATARS_DIR@), file_name(uuid_hyphenated(id), ext))
            == joined(config_dir, avatar_rel(id, ext)),
{
    let a = config_dir;
    let b = AVATARS_DIR@;
    let c = file_name(uuid_hyphenated(id), ext);
    assert(joined(joined(a, b), c) =~= joined(a, joined(b, c)));
}

/// The file an attachment upload writes is the file its recorded relative
/// path names, so deleting the message later removes what was written.
pub proof fn lemma_attachment_written_where_recorded(config_dir: Seq<char>, filename: Seq<char>)
    ensures
        joined(joined(config_dir, ATTACHMENTS_DIR@), filename)
            == joined(config_dir, attachment_rel(filename)),
{
    let a = config_dir;
    let b = ATTACHMENTS_DIR@;
    assert(joined(joined(a, b), filename) =~= joined(a, joined(b, filename)));
}

} // verus!

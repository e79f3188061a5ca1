//! Application settings, stored as one JSON-encoded value per key. Loading
//! starts from the defaults and lays each stored row over them; a missing
//! key keeps its default, and an unknown key or a value that does not decode
//! is skipped. Saving writes one row per setting, and loading those rows,
//! in whatever order they come back, gives the settings again. The sampling
//! values (temperature, top-p) are fractional and are encoded and decoded by
//! the caller.

use crate::ids::uuid_hyphenated;
use crate::text::{decimal, push_str};
use vstd::prelude::*;

verus! {

pub const KEY_DEFAULT_SYSTEM_PROMPT: &'static str = "default_system_prompt";
pub const KEY_USER_NAME: &'static str = "user_name";
pub const KEY_DEFAULT_PROVIDER_ID: &'static str = "default_provider_id";
pub const KEY_DEFAULT_MODEL: &'static str = "default_model";
pub const KEY_THEME: &'static str = "theme";
pub const KEY_RENDER_THINKING: &'static str = "render_thinking";
pub const KEY_TEMPERATURE: &'static str = "temperature";
pub const KEY_TOP_P: &'static str = "top_p";
pub const KEY_MAX_TOKENS: &'static str = "max_tokens";

/// The system prompt used when a character defines none.
pub const DEFAULT_SYSTEM_PROMPT: &'static str = "You are {{char}}. Stay in character at all times. Respond naturally and creatively to {{user}}'s messages. Be descriptive and engaging.";

/// The settings other than the sampling values.
#[derive(Debug, Clone)]
pub struct StoredSettings {
    /// Default system prompt, with `{{char}}` / `{{user}}` placeholders.
    pub default_system_prompt: String,
    /// The user's display name, for the `{{user}}` placeholder.
    pub user_name: String,
    /// The provider preselected for new chats.
    pub default_provider_id: Option<u128>,
    /// The model preselected for new chats.
    pub default_model: Option<String>,
    /// "light", "dark" or "system".
    pub theme: String,
    /// Whether a model's reasoning is shown in chat bubbles.
    pub render_thinking: bool,
    /// Most tokens to generate; `None` leaves it to the provider.
    pub max_tokens: Option<u32>,
}

/// The view of [`StoredSettings`].
pub struct SettingsView {
    pub default_system_prompt: Seq<char>,
    pub user_name: Seq<char>,
    pub default_provider_id: Option<u128>,
    pub default_model: Option<Seq<char>>,
    pub theme: Seq<char>,
    pub render_thinking: bool,
    pub max_tokens: Option<u32>,
}

impl View for StoredSettings {
    type V = SettingsView;

    open spec fn view(&self) -> SettingsView {
        SettingsView {
            default_system_prompt: self.default_system_prompt@,
            user_name: self.user_name@,
            default_provider_id: self.default_provider_id,
            default_model: match self.default_model {
                Some(m) => Some(m@),
                None => None,
            },
            theme: self.theme@,
            render_thinking: self.render_thinking,
            max_tokens: self.max_tokens,
        }
    }
}

/// The defaults.
pub open spec fn default_view() -> SettingsView {
    SettingsView {
        default_system_prompt: DEFAULT_SYSTEM_PROMPT@,
        user_name: "User"@,
        default_provider_id: None,
        default_model: None,
        theme: "system"@,
        render_thinking: true,
        max_tokens: None,
    }
}

/// The default settings.
pub fn default_settings() -> (s: StoredSettings)
    ensures
        s@ == default_view(),
{
    let mut prompt = String::new();
    push_str(&mut prompt, DEFAULT_SYSTEM_PROMPT);
    let mut user = String::new();
    push_str(&mut user, "User");
    let mut theme = String::new();
    push_str(&mut theme, "system");
    StoredSettings {
        default_system_prompt: prompt,
        user_name: user,
        default_provider_id: None,
        default_model: None,
        theme,
        render_thinking: true,
        max_tokens: None,
    }
}

/// What `serde_json::from_str::<String>` decodes from `text`.
pub uninterp spec fn json_text(text: Seq<char>) -> Option<Seq<char>>;

/// What `serde_json::from_str::<Option<String>>` decodes from `text`.
pub uninterp spec fn json_optional_text(text: Seq<char>) -> Option<Option<Seq<char>>>;

/// JSON whitespace: space, line feed, tab, carriage return.
pub open spec fn json_ws(c: char) -> bool {
    c == ' ' || c == '\n' || c == '\t' || c == '\r'
}

/// `text` without the JSON whitespace it starts with.
pub open spec fn json_trim_start(text: Seq<char>) -> Seq<char>
    decreases text.len(),
{
    if text.len() > 0 && json_ws(text[0]) {
        json_trim_start(text.drop_first())
    } else {
        text
    }
}

/// `text` without the JSON whitespace it ends with.
pub open spec fn json_trim_end(text: Seq<char>) -> Seq<char>
    decreases text.len(),
{
    if text.len() > 0 && json_ws(text.last()) {
        json_trim_end(text.drop_last())
    } else {
        text
    }
}

/// What `serde_json::from_str::<bool>` decodes from `text`: `true` or
/// `false`, with JSON whitespace allowed around it.
pub open spec fn json_flag(text: Seq<char>) -> Option<bool> {
    let word = json_trim_end(json_trim_start(text));
    if word == "true"@ {
        Some(true)
    } else if word == "false"@ {
        Some(false)
    } else {
        None
    }
}

/// The two texts a flag is written as decode to it.
proof fn lemma_flag_texts()
    ensures
        json_flag("true"@) == Some(true),
        json_flag("false"@) == Some(false),
{
    reveal_strlit("true");
    reveal_strlit("false");
    assert("false"@ != "true"@);
}

/// What `serde_json::from_str::<Option<u32>>` decodes from `text`.
pub uninterp spec fn json_optional_count(text: Seq<char>) -> Option<Option<u32>>;

/// What `serde_json::from_str::<Option<uuid::Uuid>>` decodes from `text`,
/// the id taken as its 128-bit value.
pub uninterp spec fn json_optional_id(text: Seq<char>) -> Option<Option<u128>>;

/// Calls `serde_json::from_str::<String>`; its outcome is named
/// [`json_text`], a function of the text alone.
#[verifier::external_body]
fn decode_text(text: &str) -> (r: Option<String>)
    ensures
        match r {
            Some(s) => json_text(text@) == Some(s@),
            None => json_text(text@) is None,
        },
{
    serde_json::from_str::<String>(text).ok()
}

/// Calls `serde_json::from_str::<Option<String>>`; its outcome is named
/// [`json_optional_text`].
#[verifier::external_body]
fn decode_optional_text(text: &str) -> (r: Option<Option<String>>)
    ensures
        match r {
            Some(Some(s)) => json_optional_text(text@) == Some(Some(s@)),
            Some(None) => json_optional_text(text@) == Some(None::<Seq<char>>),
            None => json_optional_text(text@) is None,
        },
{
    serde_json::from_str::<Option<String>>(text).ok()
}

/// Calls `serde_json::from_str::<bool>`, whose outcome is [`json_flag`]:
/// its `deserialize_bool` skips whitespace, reads `true` or `false`, and
/// `from_str` then allows only whitespace to follow.
#[verifier::external_body]
fn decode_flag(text: &str) -> (r: Option<bool>)
    ensures
        r == json_flag(text@),
{
    serde_json::from_str::<bool>(text).ok()
}

/// Calls `serde_json::from_str::<Option<u32>>`; its outcome is named
/// [`json_optional_count`].
#[verifier::external_body]
fn decode_optional_count(text: &str) -> (r: Option<Option<u32>>)
    ensures
        r == json_optional_count(text@),
{
    serde_json::from_str::<Option<u32>>(text).ok()
}

/// Calls `serde_json::from_str::<Option<uuid::Uuid>>` and takes the id's
/// 128-bit value; the outcome is named [`json_optional_id`].
#[verifier::external_body]
fn decode_optional_id(text: &str) -> (r: Option<Option<u128>>)
    ensures
        r == json_optional_id(text@),
{
    serde_json::from_str::<Option<uuid::Uuid>>(text).ok().map(|o| o.map(|u| u.as_u128()))
}

/// What a stored row did.
#[derive(Debug, Clone, Copy, PartialEq, Eq, Structural)]
pub enum RowEffect {
    /// A known key whose value decoded: the setting took it.
    Applied,
    /// A sampling key, whose value the caller decodes.
    Sampling,
    /// An unknown key, or a value that did not decode: nothing changed.
    Skipped,
}

/// The settings after the stored row `key` = `value` is laid over `s`.
pub open spec fn after_row(s: SettingsView, key: Seq<char>, value: Seq<char>) -> SettingsView {
    if key == KEY_DEFAULT_SYSTEM_PROMPT@ {
        match json_text(value) {
            Some(v) => SettingsView { default_system_prompt: v, ..s },
            None => s,
        }
    } else if key == KEY_USER_NAME@ {
        match json_text(value) {
            Some(v) => SettingsView { user_name: v, ..s },
            None => s,
        }
    } else if key == KEY_DEFAULT_PROVIDER_ID@ {
        match json_optional_id(value) {
            Some(v) => SettingsView { default_provider_id: v, ..s },
            None => s,
        }
    } else if key == KEY_DEFAULT_MODEL@ {
        match json_optional_text(value) {
            Some(v) => SettingsView { default_model: v, ..s },
            None => s,
        }
    } else if key == KEY_THEME@ {
        match json_text(value) {
            Some(v) => SettingsView { theme: v, ..s },
            None => s,
        }
    } else if key == KEY_RENDER_THINKING@ {
        match json_flag(value) {
            Some(v) => SettingsView { render_thinking: v, ..s },
            None => s,
        }
    } else if key == KEY_MAX_TOKENS@ {
        match json_optional_count(value) {
            Some(v) => SettingsView { max_tokens: v, ..s },
            None => s,
        }
    } else {
        s
    }
}

/// The key is one of the settings' keys.
pub open spec fn known_key(key: Seq<char>) -> bool {
    key == KEY_DEFAULT_SYSTEM_PROMPT@ || key == KEY_USER_NAME@ || key == KEY_DEFAULT_PROVIDER_ID@
        || key == KEY_DEFAULT_MODEL@ || key == KEY_THEME@ || key == KEY_RENDER_THINKING@ || key
        == KEY_TEMPERATURE@ || key == KEY_TOP_P@ || key == KEY_MAX_TOKENS@
}

/// Whether the row `key` = `value` changes a setting.
pub open spec fn row_applies(key: Seq<char>, value: Seq<char>) -> bool {
    if key == KEY_DEFAULT_SYSTEM_PROMPT@ || key == KEY_USER_NAME@ || key == KEY_THEME@ {
        json_text(value) is Some
    } else if key == KEY_DEFAULT_PROVIDER_ID@ {
        json_optional_id(value) is Some
    } else if key == KEY_DEFAULT_MODEL@ {
        json_optional_text(value) is Some
    } else if key == KEY_RENDER_THINKING@ {
        json_flag(value) is Some
    } else if key == KEY_MAX_TOKENS@ {
        json_optional_count(value) is Some
    } else {
        false
    }
}

/// The settings' keys are distinct from one another.
proof fn lemma_keys_distinct()
    ensures
        KEY_DEFAULT_SYSTEM_PROMPT@.len() == 21,
        KEY_USER_NAME@.len() == 9,
        KEY_DEFAULT_PROVIDER_ID@.len() == 19,
        KEY_DEFAULT_MODEL@.len() == 13,
        KEY_THEME@.len() == 5,
        KEY_RENDER_THINKING@.len() == 15,
        KEY_TEMPERATURE@.len() == 11,
        KEY_TOP_P@.len() == 5,
        KEY_MAX_TOKENS@.len() == 10,
        KEY_THEME@ != KEY_TOP_P@,
{
    reveal_strlit("default_system_prompt");
    reveal_strlit("user_name");
    reveal_strlit("default_provider_id");
    reveal_strlit("default_model");
    reveal_strlit("theme");
    reveal_strlit("render_thinking");
    reveal_strlit("temperature");
    reveal_strlit("top_p");
    reveal_strlit("max_tokens");
    assert(KEY_THEME@[1] != KEY_TOP_P@[1]);
}

/// Lays the stored row `key` = `value` over `s`.
pub fn apply_row(s: &mut StoredSettings, key: &str, value: &str) -> (e: RowEffect)
    ensures
        final(s)@ == after_row(old(s)@, key@, value@),
        e == (if key@ == KEY_TEMPERATURE@ || key@ == KEY_TOP_P@ {
            RowEffect::Sampling
        } else if row_applies(key@, value@) {
            RowEffect::Applied
        } else {
            RowEffect::Skipped
        }),
{
    proof {
        lemma_keys_distinct();
    }
    if crate::models::str_is(key, KEY_DEFAULT_SYSTEM_PROMPT) {
        match decode_text(value) {
            Some(v) => {
                s.default_system_prompt = v;
                RowEffect::Applied
            },
            None => RowEffect::Skipped,
        }
    } else if crate::models::str_is(key, KEY_USER_NAME) {
        match decode_text(value) {
            Some(v) => {
                s.user_name = v;
                RowEffect::Applied
            },
            None => RowEffect::Skipped,
        }
    } else if crate::models::str_is(key, KEY_DEFAULT_PROVIDER_ID) {
        match decode_optional_id(value) {
            Some(v) => {
                s.default_provider_id = v;
                RowEffect::Applied
            },
            None => RowEffect::Skipped,
        }
    } else if crate::models::str_is(key, KEY_DEFAULT_MODEL) {
        match decode_optional_text(value) {
            Some(v) => {
                s.default_model = v;
                RowEffect::Applied
            },
            None => RowEffect::Skipped,
        }
    } else if crate::models::str_is(key, KEY_THEME) {
        match decode_text(value) {
            Some(v) => {
                s.theme = v;
                RowEffect::Applied
            },
            None => RowEffect::Skipped,
        }
    } else if crate::models::str_is(key, KEY_RENDER_THINKING) {
        match decode_flag(value) {
            Some(v) => {
                s.render_thinking = v;
                RowEffect::Applied
            },
            None => RowEffect::Skipped,
        }
    } else if crate::models::str_is(key, KEY_TEMPERATURE) || crate::models::str_is(key, KEY_TOP_P) {
        RowEffect::Sampling
    } else if crate::models::str_is(key, KEY_MAX_TOKENS) {
        match decode_optional_count(value) {
            Some(v) => {
                s.max_tokens = v;
                RowEffect::Applied
            },
            None => RowEffect::Skipped,
        }
    } else {
        RowEffect::Skipped
    }
}

/// The settings after all stored rows are laid over the defaults, in order.
pub open spec fn loaded(rows: Seq<(Seq<char>, Seq<char>)>) -> SettingsView
    decreases rows.len(),
{
    if rows.len() == 0 {
        default_view()
    } else {
        after_row(loaded(rows.drop_last()), rows.last().0, rows.last().1)
    }
}

/// The views of stored rows.
pub open spec fn row_views(rows: Seq<(String, String)>) -> Seq<(Seq<char>, Seq<char>)> {
    rows.map_values(|r: (String, String)| (r.0@, r.1@))
}

/// The positions, in order, of the rows whose key is a sampling key.
pub open spec fn sampling_positions(rows: Seq<(Seq<char>, Seq<char>)>) -> Seq<int>
    decreases rows.len(),
{
    if rows.len() == 0 {
        Seq::empty()
    } else if rows.last().0 == KEY_TEMPERATURE@ || rows.last().0 == KEY_TOP_P@ {
        sampling_positions(rows.drop_last()).push(rows.len() - 1)
    } else {
        sampling_positions(rows.drop_last())
    }
}

/// Loads the settings from the stored rows: the defaults with every row
/// laid over them in order. Also returns the positions of the sampling rows,
/// which the caller decodes.
pub fn load_settings(rows: &Vec<(String, String)>) -> (r: (StoredSettings, Vec<usize>))
    ensures
        r.0@ == loaded(row_views(rows@)),
        r.1@.map_values(|p: usize| p as int) == sampling_positions(row_views(rows@)),
        forall|k: int| 0 <= k < r.1@.len() ==> #[trigger] r.1@[k] < rows@.len(),
        forall|k: int|
            0 <= k < r.1@.len() ==> (rows@[r.1@[k] as int].0@ == KEY_TEMPERATURE@ || rows@[#[trigger] r.1@[k] as int].0@
                == KEY_TOP_P@),
{
    let mut s = default_settings();
    let mut sampling: Vec<usize> = Vec::new();
    let mut i: usize = 0;
    while i < rows.len()
        invariant
            i <= rows@.len(),
            s@ == loaded(row_views(rows@.subrange(0, i as int))),
            sampling@.map_values(|p: usize| p as int) == sampling_positions(
                row_views(rows@.subrange(0, i as int)),
            ),
            forall|k: int| 0 <= k < sampling@.len() ==> #[trigger] sampling@[k] < i,
            forall|k: int|
                0 <= k < sampling@.len() ==> (rows@[sampling@[k] as int].0@ == KEY_TEMPERATURE@
                    || rows@[#[trigger] sampling@[k] as int].0@ == KEY_TOP_P@),
        decreases rows@.len() - i,
    {
        let ghost pre = rows@.subrange(0, i as int);
        assert(rows@.subrange(0, i + 1).drop_last() =~= pre);
        assert(row_views(rows@.subrange(0, i + 1)).drop_last() =~= row_views(pre));
        assert(row_views(rows@.subrange(0, i + 1)).last() == (rows@[i as int].0@, rows@[i as int].1@));
        let row = &rows[i];
        let e = apply_row(&mut s, row.0.as_str(), row.1.as_str());
        let ghost before = sampling@;
        if e == RowEffect::Sampling {
            sampling.push(i);
            assert(sampling@.map_values(|p: usize| p as int) =~= before.map_values(|p: usize| p as int).push(
                i as int,
            ));
        }
        i = i + 1;
    }
    assert(rows@.subrange(0, rows@.len() as int) =~= rows@);
    (s, sampling)
}

/// With no stored rows, every setting has its default.
pub proof fn lemma_missing_rows_give_defaults()
    ensures
        loaded(Seq::empty()) == default_view(),
{
}

/// A row with an unknown key changes nothing, so settings written by a
/// newer version of the app load without harm.
pub proof fn lemma_unknown_keys_ignored(s: SettingsView, key: Seq<char>, value: Seq<char>)
    requires
        !known_key(key),
    ensures
        after_row(s, key, value) == s,
{
    lemma_keys_distinct();
}

/// A row whose value does not decode changes nothing.
pub proof fn lemma_undecodable_rows_ignored(s: SettingsView, key: Seq<char>, value: Seq<char>)
    requires
        !row_applies(key, value),
    ensures
        after_row(s, key, value) == s,
{
    lemma_keys_distinct();
}


/// A lower-case hexadecimal digit.
pub open spec fn hex_digit(d: int) -> char {
    if d < 10 {
        (48 + d) as char
    } else {
        (87 + d) as char
    }
}

/// How `serde_json` writes one character inside a string literal: quote
/// and backslash escaped, the five control characters with a short escape
/// as that escape, any other control character below U+0020 as `\u00XX`,
/// every other character as itself.
pub open spec fn json_escaped_char(c: char) -> Seq<char> {
    if c == '"' {
        seq!['\\', '"']
    } else if c == '\\' {
        seq!['\\', '\\']
    } else if c == '\u{8}' {
        seq!['\\', 'b']
    } else if c == '\t' {
        seq!['\\', 't']
    } else if c == '\n' {
        seq!['\\', 'n']
    } else if c == '\u{c}' {
        seq!['\\', 'f']
    } else if c == '\r' {
        seq!['\\', 'r']
    } else if (c as u32) < 0x20 {
        seq!['\\', 'u', '0', '0', hex_digit((c as int) / 16), hex_digit((c as int) % 16)]
    } else {
        seq![c]
    }
}

/// The characters of `text`, each as `serde_json` writes it in a string.
pub open spec fn json_escaped(text: Seq<char>) -> Seq<char>
    decreases text.len(),
{
    if text.len() == 0 {
        Seq::empty()
    } else {
        json_escaped(text.drop_last()) + json_escaped_char(text.last())
    }
}

/// What `serde_json::to_string` writes for a string: the text as a JSON
/// string literal, in quotes, escaped.
pub open spec fn json_text_encoding(text: Seq<char>) -> Seq<char> {
    seq!['"'] + json_escaped(text) + seq!['"']
}

#[verifier::external_type_specification]
#[verifier::external_body]
pub struct ExJsonError(serde_json::Error);

/// Calls `serde_json::to_string` on a string. It does not fail: the
/// serializer writes into a `Vec`, whose writes do not fail, and a string
/// holds no map. Claimed beyond the name: `serde_json::from_str` reads the
/// text back, as a `String` and as an `Option<String>`.
#[verifier::external_body]
fn encode_text(text: &str) -> (r: Result<String, serde_json::Error>)
    ensures
        r is Ok,
        r matches Ok(t) ==> t@ == json_text_encoding(text@) && json_text(t@) == Some(text@)
            && json_optional_text(t@) == Some(Some(text@)),
{
    serde_json::to_string(text)
}

/// Calls `serde_json::to_string` on an optional string: `null` for `None`
/// (the serializer's `write_null`), the string's encoding otherwise. It does
/// not fail, as for a string. Claimed beyond that:
/// `serde_json::from_str::<Option<String>>` reads the value back.
#[verifier::external_body]
fn encode_optional_text(text: &Option<String>) -> (r: Result<String, serde_json::Error>)
    ensures
        r is Ok,
        r matches Ok(t) ==> t@ == (match text {
            Some(x) => json_text_encoding(x@),
            None => "null"@,
        }) && json_optional_text(t@) == Some(
            match text {
                Some(x) => Some(x@),
                None => None::<Seq<char>>,
            },
        ),
{
    serde_json::to_string(text)
}

/// Calls `serde_json::to_string` on a flag, which writes `true` or `false`
/// (the serializer's `write_bool`) and does not fail;
/// `serde_json::from_str::<bool>` reads it back.
#[verifier::external_body]
fn encode_flag(flag: bool) -> (r: Result<String, serde_json::Error>)
    ensures
        r is Ok,
        r matches Ok(t) ==> t@ == (if flag {
            "true"@
        } else {
            "false"@
        }),
{
    serde_json::to_string(&flag)
}

/// Calls `serde_json::to_string` on an optional count: `null`, or the
/// number in decimal (the serializer's `write_u32`); it does not fail.
/// `serde_json::from_str::<Option<u32>>` reads it back.
#[verifier::external_body]
fn encode_optional_count(count: Option<u32>) -> (r: Result<String, serde_json::Error>)
    ensures
        r is Ok,
        r matches Ok(t) ==> t@ == (match count {
            Some(n) => decimal(n as nat),
            None => "null"@,
        }) && json_optional_count(t@) == Some(count),
{
    serde_json::to_string(&count)
}

/// Calls `serde_json::to_string` on an optional id, taken as a
/// `uuid::Uuid`: `null`, or the hyphenated lower-case text in quotes (uuid's
/// `Serialize` for a human-readable format); it does not fail.
/// `serde_json::from_str::<Option<uuid::Uuid>>` reads it back.
#[verifier::external_body]
fn encode_optional_id(id: Option<u128>) -> (r: Result<String, serde_json::Error>)
    ensures
        r is Ok,
        r matches Ok(t) ==> t@ == (match id {
            Some(v) => "\""@ + uuid_hyphenated(v) + "\""@,
            None => "null"@,
        }) && json_optional_id(t@) == Some(id),
{
    serde_json::to_string(&id.map(uuid::Uuid::from_u128))
}

/// The rows saving `s` writes, in order: one per setting but the sampling
/// values, the key with its JSON-encoded value.
pub open spec fn saved_rows(s: SettingsView) -> Seq<(Seq<char>, Seq<char>)> {
    seq![
        (KEY_DEFAULT_SYSTEM_PROMPT@, json_text_encoding(s.default_system_prompt)),
        (KEY_USER_NAME@, json_text_encoding(s.user_name)),
        (
            KEY_DEFAULT_PROVIDER_ID@,
            match s.default_provider_id {
                Some(v) => "\""@ + uuid_hyphenated(v) + "\""@,
                None => "null"@,
            },
        ),
        (
            KEY_DEFAULT_MODEL@,
            match s.default_model {
                Some(t) => json_text_encoding(t),
                None => "null"@,
            },
        ),
        (KEY_THEME@, json_text_encoding(s.theme)),
        (
            KEY_RENDER_THINKING@,
            if s.render_thinking {
                "true"@
            } else {
                "false"@
            },
        ),
        (
            KEY_MAX_TOKENS@,
            match s.max_tokens {
                Some(n) => decimal(n as nat),
                None => "null"@,
            },
        ),
    ]
}

/// Row `i` is the only row of `rows` with the key `key`.
pub open spec fn only_row(rows: Seq<(Seq<char>, Seq<char>)>, key: Seq<char>, i: int) -> bool {
    &&& 0 <= i < rows.len()
    &&& rows[i].0 == key
    &&& forall|j: int| 0 <= j < rows.len() && j != i ==> #[trigger] rows[j].0 != key
}

/// `rows` hold `s`: for every setting but the sampling values, exactly one
/// row with its key, whose value decodes to the setting. Other rows, with
/// other keys, may come in any number and any order.
pub open spec fn holds_settings(rows: Seq<(Seq<char>, Seq<char>)>, s: SettingsView) -> bool {
    &&& exists|i: int| #[trigger] only_row(rows, KEY_DEFAULT_SYSTEM_PROMPT@, i)
        && json_text(rows[i].1) == Some(s.default_system_prompt)
    &&& exists|i: int| #[trigger] only_row(rows, KEY_USER_NAME@, i)
        && json_text(rows[i].1) == Some(s.user_name)
    &&& exists|i: int| #[trigger] only_row(rows, KEY_DEFAULT_PROVIDER_ID@, i)
        && json_optional_id(rows[i].1) == Some(s.default_provider_id)
    &&& exists|i: int| #[trigger] only_row(rows, KEY_DEFAULT_MODEL@, i)
        && json_optional_text(rows[i].1) == Some(s.default_model)
    &&& exists|i: int| #[trigger] only_row(rows, KEY_THEME@, i)
        && json_text(rows[i].1) == Some(s.theme)
    &&& exists|i: int| #[trigger] only_row(rows, KEY_RENDER_THINKING@, i)
        && json_flag(rows[i].1) == Some(s.render_thinking)
    &&& exists|i: int| #[trigger] only_row(rows, KEY_MAX_TOKENS@, i)
        && json_optional_count(rows[i].1) == Some(s.max_tokens)
}

/// The rows that save `s`: each setting but the sampling values under its
/// key, JSON-encoded. Loading them back, in any order and among any rows
/// with other keys, gives `s` again.
pub fn settings_rows(s: &StoredSettings) -> (r: Result<Vec<(String, String)>, serde_json::Error>)
    ensures
        r is Ok,
        r matches Ok(v) ==> row_views(v@) == saved_rows(s@) && holds_settings(row_views(v@), s@),
{
    proof {
        lemma_keys_distinct();
        lemma_flag_texts();
    }
    let prompt = match encode_text(s.default_system_prompt.as_str()) {
        Ok(t) => t,
        Err(e) => {
            return Err(e);
        },
    };
    let user = match encode_text(s.user_name.as_str()) {
        Ok(t) => t,
        Err(e) => {
            return Err(e);
        },
    };
    let provider = match encode_optional_id(s.default_provider_id) {
        Ok(t) => t,
        Err(e) => {
            return Err(e);
        },
    };
    let model = match encode_optional_text(&s.default_model) {
        Ok(t) => t,
        Err(e) => {
            return Err(e);
        },
    };
    let theme = match encode_text(s.theme.as_str()) {
        Ok(t) => t,
        Err(e) => {
            return Err(e);
        },
    };
    let thinking = match encode_flag(s.render_thinking) {
        Ok(t) => t,
        Err(e) => {
            return Err(e);
        },
    };
    let max_tokens = match encode_optional_count(s.max_tokens) {
        Ok(t) => t,
        Err(e) => {
            return Err(e);
        },
    };
    let mut r: Vec<(String, String)> = Vec::new();
    r.push((owned(KEY_DEFAULT_SYSTEM_PROMPT), prompt));
    r.push((owned(KEY_USER_NAME), user));
    r.push((owned(KEY_DEFAULT_PROVIDER_ID), provider));
    r.push((owned(KEY_DEFAULT_MODEL), model));
    r.push((owned(KEY_THEME), theme));
    r.push((owned(KEY_RENDER_THINKING), thinking));
    r.push((owned(KEY_MAX_TOKENS), max_tokens));
    proof {
        let v = row_views(r@);
        assert(v =~= saved_rows(s@));
        assert(only_row(v, KEY_DEFAULT_SYSTEM_PROMPT@, 0));
        assert(only_row(v, KEY_USER_NAME@, 1));
        assert(only_row(v, KEY_DEFAULT_PROVIDER_ID@, 2));
        assert(only_row(v, KEY_DEFAULT_MODEL@, 3));
        assert(only_row(v, KEY_THEME@, 4));
        assert(only_row(v, KEY_RENDER_THINKING@, 5));
        assert(only_row(v, KEY_MAX_TOKENS@, 6));
    }
    Ok(r)
}

/// A copy of `s`.
fn owned(s: &str) -> (r: String)
    ensures
        r@ == s@,
{
    let mut r = String::new();
    push_str(&mut r, s);
    r
}

/// The settings loaded from the first `n` of `rows`, given the positions of
/// the rows that hold each setting: a setting whose row is among them has
/// its stored value, any other its default.
spec fn loaded_prefix(s: SettingsView, n: int, at: (int, int, int, int, int, int, int)) -> SettingsView {
    let d = default_view();
    SettingsView {
        default_system_prompt: if at.0 < n { s.default_system_prompt } else { d.default_system_prompt },
        user_name: if at.1 < n { s.user_name } else { d.user_name },
        default_provider_id: if at.2 < n { s.default_provider_id } else { d.default_provider_id },
        default_model: if at.3 < n { s.default_model } else { d.default_model },
        theme: if at.4 < n { s.theme } else { d.theme },
        render_thinking: if at.5 < n { s.render_thinking } else { d.render_thinking },
        max_tokens: if at.6 < n { s.max_tokens } else { d.max_tokens },
    }
}

proof fn lemma_prefix_loads(
    rows: Seq<(Seq<char>, Seq<char>)>,
    s: SettingsView,
    at: (int, int, int, int, int, int, int),
    n: int,
)
    requires
        0 <= n <= rows.len(),
        only_row(rows, KEY_DEFAULT_SYSTEM_PROMPT@, at.0) && json_text(rows[at.0].1) == Some(s.default_system_prompt),
        only_row(rows, KEY_USER_NAME@, at.1) && json_text(rows[at.1].1) == Some(s.user_name),
        only_row(rows, KEY_DEFAULT_PROVIDER_ID@, at.2) && json_optional_id(rows[at.2].1) == Some(s.default_provider_id),
        only_row(rows, KEY_DEFAULT_MODEL@, at.3) && json_optional_text(rows[at.3].1) == Some(s.default_model),
        only_row(rows, KEY_THEME@, at.4) && json_text(rows[at.4].1) == Some(s.theme),
        only_row(rows, KEY_RENDER_THINKING@, at.5) && json_flag(rows[at.5].1) == Some(s.render_thinking),
        only_row(rows, KEY_MAX_TOKENS@, at.6) && json_optional_count(rows[at.6].1) == Some(s.max_tokens),
    ensures
        loaded(rows.subrange(0, n)) == loaded_prefix(s, n, at),
    decreases n,
{
    lemma_keys_distinct();
    if n > 0 {
        lemma_prefix_loads(rows, s, at, n - 1);
        let k = n - 1;
        assert(rows.subrange(0, n).drop_last() =~= rows.subrange(0, k));
        assert(rows.subrange(0, n).last() == rows[k]);
        let key = rows[k].0;
        if k != at.0 {
            assert(key != KEY_DEFAULT_SYSTEM_PROMPT@);
        }
        if k != at.1 {
            assert(key != KEY_USER_NAME@);
        }
        if k != at.2 {
            assert(key != KEY_DEFAULT_PROVIDER_ID@);
        }
        if k != at.3 {
            assert(key != KEY_DEFAULT_MODEL@);
        }
        if k != at.4 {
            assert(key != KEY_THEME@);
        }
        if k != at.5 {
            assert(key != KEY_RENDER_THINKING@);
        }
        if k != at.6 {
            assert(key != KEY_MAX_TOKENS@);
        }
    }
}

/// What a read gives back of a write: rows that hold `s` (one row per
/// setting, decoding to it, as [`settings_rows`] writes them) load as `s`,
/// whatever order they come back in and whatever rows with other keys
/// (the sampling values, keys of other versions) stand among them.
pub proof fn lemma_saved_settings_load_back(rows: Seq<(Seq<char>, Seq<char>)>, s: SettingsView)
    requires
        holds_settings(rows, s),
    ensures
        loaded(rows) == s,
{
    let i0 = choose|i: int| #[trigger] only_row(rows, KEY_DEFAULT_SYSTEM_PROMPT@, i)
        && json_text(rows[i].1) == Some(s.default_system_prompt);
    let i1 = choose|i: int| #[trigger] only_row(rows, KEY_USER_NAME@, i)
        && json_text(rows[i].1) == Some(s.user_name);
    let i2 = choose|i: int| #[trigger] only_row(rows, KEY_DEFAULT_PROVIDER_ID@, i)
        && json_optional_id(rows[i].1) == Some(s.default_provider_id);
    let i3 = choose|i: int| #[trigger] only_row(rows, KEY_DEFAULT_MODEL@, i)
        && json_optional_text(rows[i].1) == Some(s.default_model);
    let i4 = choose|i: int| #[trigger] only_row(rows, KEY_THEME@, i)
        && json_text(rows[i].1) == Some(s.theme);
    let i5 = choose|i: int| #[trigger] only_row(rows, KEY_RENDER_THINKING@, i)
        && json_flag(rows[i].1) == Some(s.render_thinking);
    let i6 = choose|i: int| #[trigger] only_row(rows, KEY_MAX_TOKENS@, i)
        && json_optional_count(rows[i].1) == Some(s.max_tokens);
    let at = (i0, i1, i2, i3, i4, i5, i6);
    lemma_prefix_loads(rows, s, at, rows.len() as int);
    assert(rows.subrange(0, rows.len() as int) =~= rows);
}

} // verus!

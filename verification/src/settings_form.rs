//! Decisions of the settings page: checking and sending the provider form,
//! when leaving a tab needs a confirmation, how a connection test is
//! reported, how a stored key is masked, and how the token limit is read.

use crate::codec::{bytes_range, utf8_string};
use crate::models::{str_is, ConnectionStatus, NewProvider, ProviderType};
use crate::provider::{nonempty_key, usable_key};
use crate::provider_store::UpdateProvider;
use crate::text::{chars_of, is_blank, push_str, starts_with, starts_with_exec, str_is_blank, trim, trimmed};
use crate::toast::ToastVariant;
use crate::update::{parse_part, parse_u64};
use vstd::prelude::*;
use vstd::utf8::{decode_utf8, encode_utf8, valid_utf8};

verus! {

/// The complaints of the provider form about its name and its URL.
#[derive(Debug, Clone, Copy, PartialEq, Eq)]
pub struct ProviderFormErrors {
    pub name: Option<&'static str>,
    pub url: Option<&'static str>,
}

/// The complaint about a provider URL, if any: it must not be blank and,
/// once trimmed, must start with `http://` or `https://`.
pub open spec fn url_complaint(url: Seq<char>) -> Option<Seq<char>> {
    let u = trim(url);
    if u.len() == 0 {
        Some("API URL is required"@)
    } else if !starts_with(u, "http://"@) && !starts_with(u, "https://"@) {
        Some("URL must start with http:// or https://"@)
    } else {
        None
    }
}

/// Checks the provider form; both fields are checked, so both complaints
/// can show at once.
pub fn check_provider_form(name: &str, url: &str) -> (e: ProviderFormErrors)
    ensures
        is_blank(name@) ==> (e.name matches Some(m) && m@ == "Name is required"@),
        !is_blank(name@) ==> e.name is None,
        match url_complaint(url@) {
            Some(c) => e.url matches Some(m) && m@ == c,
            None => e.url is None,
        },
{
    let name_error = if str_is_blank(name) {
        Some("Name is required")
    } else {
        None
    };
    let u = trimmed(&chars_of(url));
    let url_error = if u.len() == 0 {
        Some("API URL is required")
    } else if !starts_with_exec(&u, &chars_of("http://")) && !starts_with_exec(
        &u,
        &chars_of("https://"),
    ) {
        Some("URL must start with http:// or https://")
    } else {
        None
    };
    ProviderFormErrors { name: name_error, url: url_error }
}

/// The provider kind chosen in the form's select box.
pub fn form_provider_type(value: &str) -> (t: ProviderType)
    ensures
        t == (if value@ == "ollama"@ {
            ProviderType::Ollama
        } else {
            ProviderType::OpenAiCompatible
        }),
{
    if str_is(value, "ollama") {
        ProviderType::Ollama
    } else {
        ProviderType::OpenAiCompatible
    }
}

/// The fields of the provider form.
#[derive(Debug, Clone)]
pub struct ProviderForm {
    pub name: String,
    pub kind: String,
    pub url: String,
    pub key: String,
    pub is_default: bool,
}

/// Whether the provider form differs from what it opened with.
pub fn provider_form_dirty(current: &ProviderForm, opened: &ProviderForm) -> (b: bool)
    ensures
        b == !(current.name@ == opened.name@ && current.kind@ == opened.kind@ && current.url@
            == opened.url@ && current.key@ == opened.key@ && current.is_default
            == opened.is_default),
{
    !(str_is(current.name.as_str(), opened.name.as_str()) && str_is(
        current.kind.as_str(),
        opened.kind.as_str(),
    ) && str_is(current.url.as_str(), opened.url.as_str()) && str_is(
        current.key.as_str(),
        opened.key.as_str(),
    ) && current.is_default == opened.is_default)
}

/// The form opened for a stored provider; a missing key shows as empty.
pub fn provider_form_for(
    name: &str,
    provider_type: ProviderType,
    api_url: &str,
    api_key: Option<&str>,
    is_default: bool,
) -> (f: ProviderForm)
    ensures
        f.name@ == name@,
        f.kind@ == crate::models::provider_type_name(provider_type),
        f.url@ == api_url@,
        f.key@ == (match api_key {
            Some(k) => k@,
            None => Seq::empty(),
        }),
        f.is_default == is_default,
{
    let mut n = String::new();
    push_str(&mut n, name);
    let mut kind = String::new();
    push_str(&mut kind, crate::models::provider_type_str(&provider_type));
    let mut url = String::new();
    push_str(&mut url, api_url);
    let mut key = String::new();
    match api_key {
        Some(k) => push_str(&mut key, k),
        None => {},
    }
    ProviderForm { name: n, kind, url, key, is_default }
}

fn form_key(key: &String) -> (r: Option<String>)
    ensures
        r == usable_key(Some(*key)),
{
    nonempty_key(Some(key.clone()))
}

/// What the form sends to add a provider: an empty key left out.
pub fn provider_form_to_new(f: &ProviderForm) -> (p: NewProvider)
    ensures
        p.name@ == f.name@,
        p.provider_type == (if f.kind@ == "ollama"@ {
            ProviderType::Ollama
        } else {
            ProviderType::OpenAiCompatible
        }),
        p.api_url@ == f.url@,
        p.api_key == usable_key(Some(f.key)),
        p.is_default == f.is_default,
{
    NewProvider {
        name: f.name.clone(),
        provider_type: form_provider_type(f.kind.as_str()),
        api_url: f.url.clone(),
        api_key: form_key(&f.key),
        is_default: f.is_default,
    }
}

/// What the form sends to update the provider `id`: every field, the key
/// included (an empty key clears it).
pub fn provider_form_to_update(id: u128, f: &ProviderForm) -> (u: UpdateProvider)
    ensures
        u.id == id,
        u.name == Some(f.name),
        u.provider_type == Some(
            if f.kind@ == "ollama"@ {
                ProviderType::Ollama
            } else {
                ProviderType::OpenAiCompatible
            },
        ),
        u.api_url == Some(f.url),
        u.api_key == Some(usable_key(Some(f.key))),
        u.is_default == Some(f.is_default),
{
    UpdateProvider {
        id,
        name: Some(f.name.clone()),
        provider_type: Some(form_provider_type(f.kind.as_str())),
        api_url: Some(f.url.clone()),
        api_key: Some(form_key(&f.key)),
        is_default: Some(f.is_default),
    }
}

/// The notice after a provider was saved.
pub fn provider_saved_notice(editing: bool) -> (s: &'static str)
    ensures
        s@ == (if editing {
            "Provider updated"@
        } else {
            "Provider added"@
        }),
{
    if editing {
        "Provider updated"
    } else {
        "Provider added"
    }
}

/// Whether switching away from `active_tab` must first ask to discard
/// unsaved settings: only the General and Chat tabs edit settings.
pub fn tab_switch_needs_confirm(active_tab: &str, settings_changed: bool) -> (b: bool)
    ensures
        b == ((active_tab@ == "general"@ || active_tab@ == "chat"@) && settings_changed),
{
    (str_is(active_tab, "general") || str_is(active_tab, "chat")) && settings_changed
}

/// A toast to show: its variant, title, description and how long it stays.
#[derive(Debug, Clone)]
pub struct ToastSpec {
    pub variant: ToastVariant,
    pub title: &'static str,
    pub description: Option<String>,
    pub duration_ms: u64,
}

/// The toast reporting a finished connection test; none while testing.
pub fn connection_toast(status: &ConnectionStatus) -> (t: Option<ToastSpec>)
    ensures
        match *status {
            ConnectionStatus::Connected => t matches Some(s) && s.variant == ToastVariant::Success
                && s.title@ == "Connected"@ && s.description is None && s.duration_ms
                == crate::toast::DEFAULT_DURATION_MS,
            ConnectionStatus::Failed(reason) => t matches Some(s) && s.variant
                == ToastVariant::Error && s.title@ == "Connection failed"@ && s.description
                == Some(reason) && s.duration_ms == 5000,
            ConnectionStatus::Testing => t is None,
        },
{
    match status {
        ConnectionStatus::Connected => Some(
            ToastSpec {
                variant: ToastVariant::Success,
                title: "Connected",
                description: None,
                duration_ms: crate::toast::DEFAULT_DURATION_MS,
            },
        ),
        ConnectionStatus::Failed(reason) => Some(
            ToastSpec {
                variant: ToastVariant::Error,
                title: "Connection failed",
                description: Some(reason.clone()),
                duration_ms: 5000,
            },
        ),
        ConnectionStatus::Testing => None,
    }
}

/// The colour of a provider's status dot.
pub fn status_dot(status: Option<&ConnectionStatus>) -> (c: &'static str)
    ensures
        c@ == (match status {
            Some(ConnectionStatus::Connected) => "bg-green-500"@,
            Some(ConnectionStatus::Failed(_)) => "bg-red-500"@,
            Some(ConnectionStatus::Testing) => "bg-yellow-500"@,
            None => "bg-muted-foreground/40"@,
        }),
{
    match status {
        Some(ConnectionStatus::Connected) => "bg-green-500",
        Some(ConnectionStatus::Failed(_)) => "bg-red-500",
        Some(ConnectionStatus::Testing) => "bg-yellow-500",
        None => "bg-muted-foreground/40",
    }
}

/// How a stored key is shown: its first four bytes and a mask, or only the
/// mask for a key of at most eight bytes.
pub open spec fn masked_key(key: Seq<char>) -> Seq<char> {
    let b = encode_utf8(key);
    if b.len() <= 8 {
        "••••"@
    } else {
        decode_utf8(b.subrange(0, 4)) + "••••"@
    }
}

/// A stored key as the provider card shows it. A key of more than eight
/// bytes is cut after its fourth byte, which must end a character.
pub fn mask_key(key: &str) -> (r: String)
    requires
        encode_utf8(key@).len() > 8 ==> valid_utf8(encode_utf8(key@).subrange(0, 4)),
    ensures
        r@ == masked_key(key@),
{
    let bytes = key.as_bytes();
    let mut r = String::new();
    if bytes.len() <= 8 {
        push_str(&mut r, "••••");
        return r;
    }
    match utf8_string(bytes_range(bytes, 0, 4)) {
        Some(head) => {
            r = head;
            push_str(&mut r, "••••");
            r
        },
        None => {
            proof {
                assert(false);
            }
            r
        },
    }
}

/// The token limit typed into the settings: a positive whole number that
/// fits in 32 bits, else no limit.
pub open spec fn token_limit(input: Seq<char>) -> Option<u32> {
    match parse_u64(trim(input)) {
        Some(v) => if 0 < v && v <= u32::MAX {
            Some(v as u32)
        } else {
            None
        },
        None => None,
    }
}

/// Reads the maximum-tokens field (`trim().parse::<u32>()`, zero meaning
/// no limit).
pub fn parse_max_tokens(input: &str) -> (r: Option<u32>)
    ensures
        r == token_limit(input@),
{
    let t = trimmed(&chars_of(input));
    let v = parse_part(&t);
    if 0 < v && v <= u32::MAX as u64 {
        Some(v as u32)
    } else {
        None
    }
}

/// The classes of a settings navigation item.
pub fn nav_item_class(active: bool) -> (c: &'static str)
    ensures
        active ==> c@
            == "flex items-center gap-2.5 rounded-lg px-3 py-2 text-sm font-medium transition-colors whitespace-nowrap w-full text-left bg-accent text-accent-foreground"@,
        !active ==> c@
            == "flex items-center gap-2.5 rounded-lg px-3 py-2 text-sm font-medium transition-colors whitespace-nowrap w-full text-left text-muted-foreground hover:bg-accent/50 hover:text-foreground"@,
{
    if active {
        "flex items-center gap-2.5 rounded-lg px-3 py-2 text-sm font-medium transition-colors whitespace-nowrap w-full text-left bg-accent text-accent-foreground"
    } else {
        "flex items-center gap-2.5 rounded-lg px-3 py-2 text-sm font-medium transition-colors whitespace-nowrap w-full text-left text-muted-foreground hover:bg-accent/50 hover:text-foreground"
    }
}

/// The `aria-current` value of a settings navigation item.
pub fn nav_item_current(active: bool) -> (c: &'static str)
    ensures
        c@ == (if active {
            "page"@
        } else {
            "false"@
        }),
{
    if active {
        "page"
    } else {
        "false"
    }
}

/// The classes of an appearance option card.
pub fn theme_option_class(active: bool) -> (c: &'static str)
    ensures
        active ==> c@
            == "group relative flex flex-col gap-3 rounded-xl border-2 p-3 text-left transition-all border-primary ring-2 ring-primary/20"@,
        !active ==> c@
            == "group relative flex flex-col gap-3 rounded-xl border-2 p-3 text-left transition-all border-border hover:border-muted-foreground/40"@,
{
    if active {
        "group relative flex flex-col gap-3 rounded-xl border-2 p-3 text-left transition-all border-primary ring-2 ring-primary/20"
    } else {
        "group relative flex flex-col gap-3 rounded-xl border-2 p-3 text-left transition-all border-border hover:border-muted-foreground/40"
    }
}

} // verus!

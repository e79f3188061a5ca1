//! UI theme (light / dark / system): which value is in force and whether the
//! page is drawn dark. Reading and writing browser storage, and toggling the
//! `dark` class on the document, are left to the front end, which hands the
//! stored value and the OS colour preference in here.

use crate::models::str_is;
use crate::text::push_str;
use vstd::prelude::*;

verus! {

/// Browser storage key under which the chosen theme is kept.
pub const STORAGE_KEY: &'static str = "nanorp-theme";

/// Theme in force when none was chosen.
pub const DEFAULT_THEME: &'static str = "system";

/// Inline `<script>` body that reads the stored theme and sets the `dark`
/// class on `<html>` before the first paint, so hydration does not flash the
/// wrong theme.
pub const THEME_INIT_SCRIPT: &'static str = r#"
    (function () {
        try {
            var t = localStorage.getItem('nanorp-theme') || 'system';
            var mq = window.matchMedia('(prefers-color-scheme: dark)');
            var dark = t === 'dark' || (t === 'system' && mq.matches);
            document.documentElement.classList.toggle('dark', dark);
        } catch (e) {}
    })();
    "#;

/// The script rendered into `<head>` ahead of hydration.
pub fn theme_init_script() -> (s: &'static str)
    ensures
        s@ == THEME_INIT_SCRIPT@,
{
    THEME_INIT_SCRIPT
}

/// The theme in force, given what storage holds under [`STORAGE_KEY`].
pub open spec fn theme_in_force(stored: Option<Seq<char>>) -> Seq<char> {
    match stored {
        Some(t) => t,
        None => DEFAULT_THEME@,
    }
}

/// Whether `theme` draws the page dark: "dark" always, "light" never, and
/// anything else follows the operating system's preference.
pub open spec fn draws_dark(theme: Seq<char>, prefers_dark: bool) -> bool {
    if theme == "dark"@ {
        true
    } else if theme == "light"@ {
        false
    } else {
        prefers_dark
    }
}

/// The persisted theme, defaulting to "system" when storage holds none.
pub fn get_theme(stored: Option<String>) -> (t: String)
    ensures
        t@ == theme_in_force(
            match stored {
                Some(s) => Some(s@),
                None => None,
            },
        ),
{
    match stored {
        Some(s) => s,
        None => {
            let mut t = String::new();
            push_str(&mut t, DEFAULT_THEME);
            t
        },
    }
}

/// Whether the `dark` class belongs on `<html>` for `theme`.
pub fn apply(theme: &str, prefers_dark: bool) -> (dark: bool)
    ensures
        dark == draws_dark(theme@, prefers_dark),
{
    if str_is(theme, "dark") {
        true
    } else if str_is(theme, "light") {
        false
    } else {
        prefers_dark
    }
}

/// Choosing a theme: the value to store under [`STORAGE_KEY`], and whether
/// the page is then drawn dark.
pub fn set_theme(theme: &str, prefers_dark: bool) -> (r: (String, bool))
    ensures
        r.0@ == theme@,
        r.1 == draws_dark(theme@, prefers_dark),
{
    let mut stored = String::new();
    push_str(&mut stored, theme);
    (stored, apply(theme, prefers_dark))
}

/// A chosen theme is the one in force afterwards, and the page is drawn as
/// choosing it drew it.
pub proof fn lemma_theme_choice_persists(theme: Seq<char>, prefers_dark: bool)
    ensures
        theme_in_force(Some(theme)) == theme,
        draws_dark(theme_in_force(Some(theme)), prefers_dark) == draws_dark(theme, prefers_dark),
{
}

/// With nothing stored, the page follows the operating system.
pub proof fn lemma_default_follows_system(prefers_dark: bool)
    ensures
        draws_dark(theme_in_force(None), prefers_dark) == prefers_dark,
{
    reveal_strlit("system");
    reveal_strlit("dark");
    reveal_strlit("light");
    assert(DEFAULT_THEME@ != "dark"@) by {
        assert(DEFAULT_THEME@[0] != "dark"@[0]);
    }
    assert(DEFAULT_THEME@ != "light"@) by {
        assert(DEFAULT_THEME@[0] != "light"@[0]);
    }
}

} // verus!

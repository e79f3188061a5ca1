//! Provider configuration logic: URL normalisation, endpoint URLs, API-key
//! handling, model-output clean-up, and release version comparison.

use crate::text::{
    chars_of, ends_with, ends_with_exec, find, find_exec, lemma_find_occurs, occurs_at_exec,
    push_range, push_str, rfind, rfind_exec, starts_with, starts_with_exec, string_of,
    string_of_range, sub_vec, trim, trim_range,
};
use vstd::prelude::*;

verus! {

/// `s` with every leading repetition of the non-empty pattern `p` removed.
pub open spec fn strip_prefixes(s: Seq<char>, p: Seq<char>) -> Seq<char>
    decreases s.len(),
{
    if p.len() > 0 && starts_with(s, p) {
        strip_prefixes(s.subrange(p.len() as int, s.len() as int), p)
    } else {
        s
    }
}

/// `s` with every trailing occurrence of `c` removed.
pub open spec fn strip_suffix_char(s: Seq<char>, c: char) -> Seq<char>
    decreases s.len(),
{
    if s.len() > 0 && s.last() == c {
        strip_suffix_char(s.drop_last(), c)
    } else {
        s
    }
}

/// Index where `s[from..]` starts once leading repetitions of `p` are gone.
pub fn strip_prefixes_from(s: &Vec<char>, from: usize, p: &Vec<char>) -> (i: usize)
    requires
        from <= s@.len(),
        p@.len() > 0,
    ensures
        from <= i <= s@.len(),
        strip_prefixes(s@.subrange(from as int, s@.len() as int), p@) == s@.subrange(
            i as int,
            s@.len() as int,
        ),
{
    let mut i: usize = from;
    loop
        invariant
            from <= i <= s@.len(),
            p@.len() > 0,
            strip_prefixes(s@.subrange(from as int, s@.len() as int), p@) == strip_prefixes(
                s@.subrange(i as int, s@.len() as int),
                p@,
            ),
        decreases s@.len() - i,
    {
        proof {
            crate::text::lemma_starts_with_sub(s@, p@, i as int);
        }
        if occurs_at_exec(s, p, i) {
            let ghost sub = s@.subrange(i as int, s@.len() as int);
            assert(sub.subrange(p@.len() as int, sub.len() as int) =~= s@.subrange(
                i + p@.len(),
                s@.len() as int,
            ));
            assert(s@.len() == s.len());
            i = i + p.len();
        } else {
            return i;
        }
    }
}

/// End of `s[..to]` once trailing occurrences of `c` are gone.
pub fn strip_suffix_char_to(s: &Vec<char>, to: usize, c: char) -> (j: usize)
    requires
        to <= s@.len(),
    ensures
        j <= to,
        strip_suffix_char(s@.subrange(0, to as int), c) == s@.subrange(0, j as int),
{
    let mut j: usize = to;
    while j > 0 && s[j - 1] == c
        invariant
            j <= to <= s@.len(),
            strip_suffix_char(s@.subrange(0, to as int), c) == strip_suffix_char(
                s@.subrange(0, j as int),
                c,
            ),
        decreases j,
    {
        assert(s@.subrange(0, j as int).drop_last() =~= s@.subrange(0, j - 1));
        j = j - 1;
    }
    j
}

/// A stored provider URL: trimmed, with a single trailing slash removed.
pub open spec fn normalized_url(url: Seq<char>) -> Seq<char> {
    let t = trim(url);
    if t.len() > 0 && t.last() == '/' {
        t.drop_last()
    } else {
        t
    }
}

/// Normalise a provider URL so URLs are stored consistently: trimmed, and
/// one trailing slash stripped.
pub fn normalize_url(url: &str) -> (r: String)
    ensures
        r@ == normalized_url(url@),
{
    let v = chars_of(url);
    let (i, j) = trim_range(&v, 0, v.len());
    assert(v@.subrange(0, v@.len() as int) =~= v@);
    let t = sub_vec(&v, i, j);
    let e = if t.len() > 0 && t[t.len() - 1] == '/' {
        t.len() - 1
    } else {
        t.len()
    };
    assert(t@.subrange(0, t@.len() as int) =~= t@);
    assert(t@.len() > 0 ==> t@.subrange(0, t@.len() - 1) =~= t@.drop_last());
    string_of_range(&t, 0, e)
}

/// `url` without trailing slashes (`trim_end_matches('/')`).
pub fn trim_trailing_slashes(url: &str) -> (r: String)
    ensures
        r@ == strip_suffix_char(url@, '/'),
{
    let v = chars_of(url);
    let e = strip_suffix_char_to(&v, v.len(), '/');
    assert(v@.subrange(0, v@.len() as int) =~= v@);
    string_of_range(&v, 0, e)
}

/// The key to send: a present, non-empty key; `None` otherwise.
pub open spec fn usable_key(key: Option<String>) -> Option<String> {
    match key {
        Some(k) => if k@.len() > 0 {
            Some(k)
        } else {
            None
        },
        None => None,
    }
}

/// Drop an empty API key (`Option::filter(|k| !k.is_empty())`).
pub fn nonempty_key(key: Option<String>) -> (r: Option<String>)
    ensures
        r == usable_key(key),
{
    match key {
        Some(k) => {
            if k.as_str().is_empty() {
                None
            } else {
                Some(k)
            }
        },
        None => None,
    }
}

/// Connection settings of an Ollama server.
pub struct OllamaProvider {
    /// Base URL without trailing slashes.
    pub base_url: String,
}

impl OllamaProvider {
    /// Settings for the Ollama server at `base_url`.
    pub fn new(base_url: String) -> (p: Self)
        ensures
            p.base_url@ == strip_suffix_char(base_url@, '/'),
    {
        OllamaProvider { base_url: trim_trailing_slashes(base_url.as_str()) }
    }
}

/// Connection settings of an OpenAI-compatible endpoint.
pub struct OpenAiProvider {
    /// Base URL without trailing slashes.
    pub base_url: String,
    /// Bearer token; never an empty string.
    pub api_key: Option<String>,
}

/// The URL of an OpenAI-style API path below `base`, without doubling a
/// `/v1` that the base already ends with.
pub open spec fn openai_url(base: Seq<char>, path: Seq<char>) -> Seq<char> {
    let p = strip_prefixes(path, "/"@);
    if ends_with(base, "/v1"@) {
        base + "/"@ + strip_prefixes(p, "v1/"@)
    } else {
        base + "/"@ + p
    }
}

impl OpenAiProvider {
    /// Settings for the endpoint at `base_url`, with an optional key.
    pub fn new(base_url: String, api_key: Option<String>) -> (p: Self)
        ensures
            p.base_url@ == strip_suffix_char(base_url@, '/'),
            p.api_key == usable_key(api_key),
    {
        OpenAiProvider {
            base_url: trim_trailing_slashes(base_url.as_str()),
            api_key: nonempty_key(api_key),
        }
    }

    /// Build a `/v1/...` URL, avoiding a doubled `/v1` when the configured
    /// base already ends with it.
    pub fn api_url(&self, path: &str) -> (r: String)
        ensures
            r@ == openai_url(self.base_url@, path@),
    {
        proof {
            reveal_strlit("/");
            reveal_strlit("/v1");
            reveal_strlit("v1/");
        }
        let pv = chars_of(path);
        let slash = chars_of("/");
        let v1 = chars_of("/v1");
        let v1s = chars_of("v1/");
        assert(slash@.len() == 1);
        assert(v1s@.len() == 3);
        let start = strip_prefixes_from(&pv, 0, &slash);
        assert(pv@.subrange(0, pv@.len() as int) =~= pv@);
        let base = chars_of(self.base_url.as_str());
        let mut out = String::new();
        push_range(&mut out, &base, 0, base.len());
        push_str(&mut out, "/");
        if ends_with_exec(&base, &v1) {
            let rest = sub_vec(&pv, start, pv.len());
            let s2 = strip_prefixes_from(&rest, 0, &v1s);
            assert(rest@.subrange(0, rest@.len() as int) =~= rest@);
            push_range(&mut out, &rest, s2, rest.len());
        } else {
            push_range(&mut out, &pv, start, pv.len());
        }
        assert(base@.subrange(0, base@.len() as int) =~= base@);
        out
    }
}

/// The URL probed to test a provider connection.
pub fn connection_test_url(provider_type: crate::models::ProviderType, api_url: &str) -> (r: String)
    ensures
        r@ == api_url@ + match provider_type {
            crate::models::ProviderType::Ollama => "/api/tags"@,
            crate::models::ProviderType::OpenAiCompatible => "/v1/models"@,
        },
{
    let mut out = String::new();
    push_str(&mut out, api_url);
    match provider_type {
        crate::models::ProviderType::Ollama => push_str(&mut out, "/api/tags"),
        crate::models::ProviderType::OpenAiCompatible => push_str(&mut out, "/v1/models"),
    }
    out
}

/// A data URL embedding a base64 image, as OpenAI-style APIs expect.
pub fn image_data_url(content_type: &str, base64_data: &str) -> (r: String)
    ensures
        r@ == "data:"@ + content_type@ + ";base64,"@ + base64_data@,
{
    let mut out = String::new();
    push_str(&mut out, "data:");
    push_str(&mut out, content_type);
    push_str(&mut out, ";base64,");
    push_str(&mut out, base64_data);
    out
}

/// Model output with a surrounding code fence removed, so JSON wrapped in
/// markdown still parses.
pub open spec fn without_code_fence(text: Seq<char>) -> Seq<char> {
    let t = trim(text);
    if starts_with(t, "```"@) {
        let rest = t.subrange(3, t.len() as int);
        let body = match find(rest, "\n"@) {
            Some(nl) => rest.subrange(nl + 1, rest.len() as int),
            None => strip_prefixes(rest, "json"@),
        };
        match rfind(body, "```"@) {
            Some(end) => trim(body.subrange(0, end)),
            None => trim(body),
        }
    } else {
        t
    }
}

/// Strip a surrounding ```json ... ``` / ``` ... ``` code fence from model
/// output.
pub fn strip_code_fence(text: &str) -> (r: String)
    ensures
        r@ == without_code_fence(text@),
{
    proof {
        reveal_strlit("```");
        reveal_strlit("\n");
        reveal_strlit("json");
    }
    let v = chars_of(text);
    let (i, j) = trim_range(&v, 0, v.len());
    assert(v@.subrange(0, v@.len() as int) =~= v@);
    let t = sub_vec(&v, i, j);
    let fence = chars_of("```");
    let nl = chars_of("\n");
    let json = chars_of("json");
    assert(fence@.len() == 3);
    assert(nl@.len() == 1);
    assert(json@.len() == 4);
    if !starts_with_exec(&t, &fence) {
        return string_of(&t);
    }
    let rest = sub_vec(&t, 3, t.len());
    let body = match find_exec(&rest, &nl) {
        Some(k) => {
            proof {
                lemma_find_occurs(rest@, nl@);
            }
            assert(rest@.len() == rest.len());
            sub_vec(&rest, k + 1, rest.len())
        },
        None => {
            let s = strip_prefixes_from(&rest, 0, &json);
            assert(rest@.subrange(0, rest@.len() as int) =~= rest@);
            sub_vec(&rest, s, rest.len())
        },
    };
    let end = match rfind_exec(&body, &fence) {
        Some(e) => {
            proof {
                crate::text::lemma_rfind_occurs(body@, fence@);
            }
            e
        },
        None => body.len(),
    };
    let (a, b) = trim_range(&body, 0, end);
    proof {
        if rfind(body@, fence@) is None {
            assert(body@.subrange(0, body@.len() as int) =~= body@);
        }
    }
    string_of_range(&body, a, b)
}

} // verus!

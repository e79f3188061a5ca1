//! Release checks: comparing dotted version numbers and describing an
//! available update.

use crate::provider::strip_prefixes;
use crate::text::{chars_of, push_range, push_str, string_of_range, sub_vec};
use vstd::prelude::*;

verus! {

/// Whether `c` is an ASCII decimal digit.
pub open spec fn is_digit(c: char) -> bool {
    '0' <= c && c <= '9'
}

/// Whether every character of `d` is an ASCII digit.
pub open spec fn all_digits(d: Seq<char>) -> bool {
    forall|i: int| 0 <= i < d.len() ==> is_digit(#[trigger] d[i])
}

/// The number spelled by a sequence of ASCII digits.
pub open spec fn digits_value(d: Seq<char>) -> nat
    decreases d.len(),
{
    if d.len() == 0 {
        0
    } else {
        digits_value(d.drop_last()) * 10 + ((d.last() as nat) - 48) as nat
    }
}

/// What `str::parse::<u64>` yields: an optional `+`, then one or more ASCII
/// digits whose value fits in 64 bits.
pub open spec fn parse_u64(s: Seq<char>) -> Option<u64> {
    let d = if s.len() > 0 && s[0] == '+' {
        s.drop_first()
    } else {
        s
    };
    if d.len() > 0 && all_digits(d) && digits_value(d) <= u64::MAX {
        Some(digits_value(d) as u64)
    } else {
        None
    }
}

/// The dot-separated parts of `s` (one empty part for an empty string).
pub open spec fn split_dots(s: Seq<char>) -> Seq<Seq<char>>
    decreases s.len(),
{
    if s.len() == 0 {
        seq![Seq::empty()]
    } else {
        let parts = split_dots(s.drop_last());
        if s.last() == '.' {
            parts.push(Seq::empty())
        } else {
            parts.update(parts.len() - 1, parts.last().push(s.last()))
        }
    }
}

pub proof fn lemma_split_dots_nonempty(s: Seq<char>)
    ensures
        split_dots(s).len() >= 1,
    decreases s.len(),
{
    if s.len() > 0 {
        lemma_split_dots_nonempty(s.drop_last());
    }
}

/// The numeric components of a version: each dot-separated part parsed as
/// a number, unparseable parts counting as 0.
pub open spec fn version_parts(s: Seq<char>) -> Seq<u64> {
    split_dots(s).map_values(
        |p: Seq<char>|
            match parse_u64(p) {
                Some(v) => v,
                None => 0,
            },
    )
}

/// Lexicographic "greater than" on number sequences, as `Vec<u64>` orders.
pub open spec fn lex_greater(a: Seq<u64>, b: Seq<u64>) -> bool
    decreases a.len(),
{
    if a.len() == 0 {
        false
    } else if b.len() == 0 {
        true
    } else if a[0] != b[0] {
        a[0] > b[0]
    } else {
        lex_greater(a.drop_first(), b.drop_first())
    }
}

/// `a` and `b` agree on their first `k` components.
pub open spec fn agree_before(a: Seq<u64>, b: Seq<u64>, k: int) -> bool {
    forall|j: int| 0 <= j < k ==> a[j] == b[j]
}

/// `a` comes after `b` in the order of `Vec<u64>` exactly when, at the first
/// position `k` where they differ, `a` has the greater component, or `b`
/// ends at `k` while `a` goes on (then `b` is a proper prefix of `a`).
pub proof fn lemma_lex_greater_first_difference(a: Seq<u64>, b: Seq<u64>)
    ensures
        lex_greater(a, b) <==> exists|k: int|
            0 <= k < a.len() && k <= b.len() && #[trigger] agree_before(a, b, k) && (k == b.len()
                || a[k] > b[k]),
    decreases a.len(),
{
    if a.len() == 0 {
    } else if b.len() == 0 {
        assert(agree_before(a, b, 0));
    } else if a[0] != b[0] {
        assert(agree_before(a, b, 0));
        assert forall|k: int| 0 <= k < a.len() && k <= b.len() && #[trigger] agree_before(a, b, k)
            && (k == b.len() || a[k] > b[k]) implies a[0] > b[0] by {
            if k > 0 {
                assert(a[0] == b[0]);
            }
        }
    } else {
        let ta = a.drop_first();
        let tb = b.drop_first();
        lemma_lex_greater_first_difference(ta, tb);
        if lex_greater(ta, tb) {
            let k = choose|k: int|
                0 <= k < ta.len() && k <= tb.len() && #[trigger] agree_before(ta, tb, k) && (k == tb.len()
                    || ta[k] > tb[k]);
            assert forall|j: int| 0 <= j < k + 1 implies a[j] == b[j] by {
                if j > 0 {
                    assert(ta[j - 1] == tb[j - 1]);
                }
            }
            assert(agree_before(a, b, k + 1));
        }
        assert forall|k: int| 0 <= k < a.len() && k <= b.len() && #[trigger] agree_before(a, b, k)
            && (k == b.len() || a[k] > b[k]) implies lex_greater(ta, tb) by {
            assert(k > 0);
            assert forall|j: int| 0 <= j < k - 1 implies ta[j] == tb[j] by {
                assert(a[j + 1] == b[j + 1]);
            }
            assert(agree_before(ta, tb, k - 1));
        }
    }
}

/// Parse a version part as `str::parse::<u64>` does, yielding 0 on failure.
pub fn parse_part(s: &Vec<char>) -> (v: u64)
    ensures
        v == match parse_u64(s@) {
            Some(x) => x,
            None => 0,
        },
{
    let start: usize = if s.len() > 0 && s[0] == '+' { 1 } else { 0 };
    let ghost d = if s@.len() > 0 && s@[0] == '+' {
        s@.drop_first()
    } else {
        s@
    };
    assert(d =~= s@.subrange(start as int, s@.len() as int));
    if start == s.len() {
        return 0;
    }
    let mut acc: u64 = 0;
    let mut i: usize = start;
    while i < s.len()
        invariant
            start <= i <= s@.len(),
            d == s@.subrange(start as int, s@.len() as int),
            d == (if s@.len() > 0 && s@[0] == '+' {
                s@.drop_first()
            } else {
                s@
            }),
            start < s@.len(),
            forall|k: int| start <= k < i ==> is_digit(#[trigger] s@[k]),
            acc == digits_value(s@.subrange(start as int, i as int)),
        decreases s@.len() - i,
    {
        let c = s[i];
        if !('0' <= c && c <= '9') {
            assert(d[i - start] == s@[i as int]);
            assert(!is_digit(d[i - start]));
            assert(0 <= i - start < d.len());
            assert(!all_digits(d));
            assert(parse_u64(s@) is None);
            return 0;
        }
        let dv: u64 = (c as u32 - 48) as u64;
        assert(s@.subrange(start as int, i + 1).drop_last() =~= s@.subrange(start as int, i as int));
        if acc > (u64::MAX - dv) / 10 {
            proof {
                assert(acc * 10 + dv > u64::MAX) by (nonlinear_arith)
                    requires
                        acc > (u64::MAX - dv) / 10,
                        dv <= 9,
                ;
                if all_digits(d) {
                    lemma_digits_value_monotone(d, (i + 1 - start) as int);
                    assert(d.subrange(0, i + 1 - start) =~= s@.subrange(start as int, i + 1));
                }
                assert(parse_u64(s@) is None);
            }
            return 0;
        }
        assert(acc * 10 + dv <= u64::MAX) by (nonlinear_arith)
            requires
                acc <= (u64::MAX - dv) / 10,
                dv <= 9,
        ;
        acc = acc * 10 + dv;
        i = i + 1;
    }
    assert(s@.subrange(start as int, s@.len() as int) == d);
    acc
}

/// A number spelled by digits is at least the number spelled by any prefix.
pub proof fn lemma_digits_value_monotone(d: Seq<char>, k: int)
    requires
        0 <= k <= d.len(),
        forall|i: int| 0 <= i < d.len() ==> is_digit(#[trigger] d[i]),
    ensures
        digits_value(d.subrange(0, k)) <= digits_value(d),
    decreases d.len() - k,
{
    if k < d.len() {
        lemma_digits_value_monotone(d, k + 1);
        assert(d.subrange(0, k + 1).drop_last() =~= d.subrange(0, k));
        assert(is_digit(d[k]));
        assert(d.subrange(0, k + 1).last() == d[k]);
    } else {
        assert(d.subrange(0, k) =~= d);
    }
}

/// The numeric components of a dotted version string.
pub fn parse_version(s: &str) -> (r: Vec<u64>)
    ensures
        r@ == version_parts(s@),
{
    let v = chars_of(s);
    let mut parts: Vec<u64> = Vec::new();
    let mut start: usize = 0;
    let mut i: usize = 0;
    while i < v.len()
        invariant
            start <= i <= v@.len(),
            split_dots(v@.subrange(0, i as int)).len() >= 1,
            split_dots(v@.subrange(0, i as int)).last() == v@.subrange(start as int, i as int),
            parts@ == version_parts(v@.subrange(0, i as int)).drop_last(),
        decreases v@.len() - i,
    {
        let ghost pre = v@.subrange(0, i as int);
        proof {
            lemma_split_dots_nonempty(pre);
            assert(v@.subrange(0, i + 1).drop_last() =~= pre);
        }
        if v[i] == '.' {
            let part = sub_vec(&v, start, i);
            let n = parse_part(&part);
            parts.push(n);
            assert(parts@ =~= version_parts(v@.subrange(0, i + 1)).drop_last());
            start = i + 1;
            assert(split_dots(v@.subrange(0, i + 1)).last() =~= v@.subrange(start as int, i + 1));
        } else {
            assert(split_dots(v@.subrange(0, i + 1)).last() =~= v@.subrange(start as int, i + 1));
            assert(version_parts(v@.subrange(0, i + 1)).drop_last() =~= version_parts(pre).drop_last());
        }
        i = i + 1;
    }
    assert(v@.subrange(0, v@.len() as int) =~= v@);
    proof {
        lemma_split_dots_nonempty(v@);
    }
    let last = sub_vec(&v, start, v.len());
    let n = parse_part(&last);
    parts.push(n);
    assert(parts@ =~= version_parts(v@));
    parts
}

/// Whether `a > b` lexicographically.
pub fn lex_greater_exec(a: &Vec<u64>, b: &Vec<u64>) -> (r: bool)
    ensures
        r == lex_greater(a@, b@),
        r <==> exists|k: int|
            0 <= k < a@.len() && k <= b@.len() && #[trigger] agree_before(a@, b@, k) && (k == b@.len()
                || a@[k] > b@[k]),
{
    proof {
        lemma_lex_greater_first_difference(a@, b@);
    }
    let mut i: usize = 0;
    assert(a@.subrange(0, a@.len() as int) =~= a@);
    assert(b@.subrange(0, b@.len() as int) =~= b@);
    loop
        invariant
            i <= a@.len(),
            i <= b@.len(),
            lex_greater(a@, b@) == lex_greater(
                a@.subrange(i as int, a@.len() as int),
                b@.subrange(i as int, b@.len() as int),
            ),
        decreases a@.len() - i,
    {
        proof {
            lemma_lex_greater_first_difference(a@, b@);
        }
        if i == a.len() {
            return false;
        }
        if i == b.len() {
            return true;
        }
        if a[i] != b[i] {
            return a[i] > b[i];
        }
        assert(a@.subrange(i as int, a@.len() as int).drop_first() =~= a@.subrange(
            i + 1,
            a@.len() as int,
        ));
        assert(b@.subrange(i as int, b@.len() as int).drop_first() =~= b@.subrange(
            i + 1,
            b@.len() as int,
        ));
        i = i + 1;
    }
}

/// Simple dotted-version comparison: whether `latest` is newer than
/// `current`.
pub fn version_is_newer(latest: &str, current: &str) -> (r: bool)
    ensures
        r == lex_greater(version_parts(latest@), version_parts(current@)),
        r <==> exists|k: int|
            0 <= k < version_parts(latest@).len() && k <= version_parts(current@).len()
                && #[trigger] agree_before(version_parts(latest@), version_parts(current@), k) && (k
                == version_parts(current@).len() || version_parts(latest@)[k] > version_parts(current@)[k]),
{
    proof {
        lemma_lex_greater_first_difference(version_parts(latest@), version_parts(current@));
    }
    let l = parse_version(latest);
    let c = parse_version(current);
    proof {
        assert(l@.subrange(0, l@.len() as int) =~= l@);
        assert(c@.subrange(0, c@.len() as int) =~= c@);
    }
    lex_greater_exec(&l, &c)
}

/// Result of an update check.
#[derive(Debug, Clone)]
pub struct UpdateInfo {
    /// Latest release tag (e.g. "v0.2.0").
    pub latest_tag: String,
    /// Whether the latest version is newer than the running build.
    pub update_available: bool,
    /// URL of the release page.
    pub release_url: String,
}

/// Where releases are listed when the response names no page.
pub open spec fn default_release_url() -> Seq<char> {
    "https://github.com/coder3101/nanorp/releases"@
}

/// Describe the latest release, given the `tag_name` and `html_url` fields
/// of the release response: `None` when there is no tag.
pub fn update_info(tag_name: Option<&str>, html_url: Option<&str>, current_version: &str) -> (r:
    Option<UpdateInfo>)
    ensures
        ({
            let tag = strip_prefixes(
                match tag_name {
                    Some(t) => t@,
                    None => Seq::empty(),
                },
                "v"@,
            );
            if tag.len() == 0 {
                r is None
            } else {
                r matches Some(info) && info.latest_tag@ == "v"@ + tag && info.update_available
                    == lex_greater(version_parts(tag), version_parts(current_version@))
                    && info.release_url@ == match html_url {
                    Some(u) => u@,
                    None => default_release_url(),
                }
            }
        }),
{
    proof {
        reveal_strlit("v");
    }
    let raw = match tag_name {
        Some(t) => chars_of(t),
        None => Vec::new(),
    };
    let vv = chars_of("v");
    assert(vv@.len() == 1);
    let s = crate::provider::strip_prefixes_from(&raw, 0, &vv);
    assert(raw@.subrange(0, raw@.len() as int) =~= raw@);
    if s == raw.len() {
        return None;
    }
    let tag = string_of_range(&raw, s, raw.len());
    let mut latest_tag = String::new();
    push_str(&mut latest_tag, "v");
    push_str(&mut latest_tag, tag.as_str());
    let update_available = version_is_newer(tag.as_str(), current_version);
    let release_url = match html_url {
        Some(u) => {
            let mut out = String::new();
            push_str(&mut out, u);
            out
        },
        None => {
            let mut out = String::new();
            push_str(&mut out, "https://github.com/coder3101/nanorp/releases");
            out
        },
    };
    Some(UpdateInfo { latest_tag, update_available, release_url })
}

} // verus!

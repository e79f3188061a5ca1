//! Fallback avatars: an initial, and a gradient chosen deterministically
//! from the name so a character looks the same everywhere.

use crate::text::{chars_of, push_str, skip_ws, trim, trim_start};
use vstd::prelude::*;
use vstd::utf8::encode_utf8;

verus! {

/// The uppercase mapping of `c`, as `char::to_uppercase` yields it.
pub uninterp spec fn uppercase_of(c: char) -> Seq<char>;

/// Calls `char::to_uppercase` and collects the characters it yields.
/// Claimed beyond the name: an ASCII lowercase letter maps to its capital,
/// and any other ASCII character to itself, as the documentation of
/// `to_uppercase` and `to_ascii_uppercase` states.
#[verifier::external_body]
fn uppercase(c: char) -> (s: String)
    ensures
        s@ == uppercase_of(c),
        'a' <= c <= 'z' ==> s@ == seq![((c as u32) - 32) as char],
        (c as u32) < 128 && !('a' <= c <= 'z') ==> s@ == seq![c],
{
    c.to_uppercase().collect()
}

/// The fallback avatar text of a name: its first non-blank character in
/// upper case, or `?` for a blank name.
pub open spec fn initial_of(name: Seq<char>) -> Seq<char> {
    let t = trim(name);
    if t.len() == 0 {
        "?"@
    } else {
        uppercase_of(t[0])
    }
}

/// First character of a name, uppercased, for fallback avatars.
pub fn initial(name: &str) -> (s: String)
    ensures
        s@ == initial_of(name@),
        trim(name@).len() > 0 && 'a' <= trim(name@)[0] <= 'z' ==> s@ == seq![
            ((trim(name@)[0] as u32) - 32) as char,
        ],
        trim(name@).len() > 0 && (trim(name@)[0] as u32) < 128 && !('a' <= trim(name@)[0] <= 'z')
            ==> s@ == seq![trim(name@)[0]],
{
    proof {
        reveal_strlit("?");
    }
    let v = chars_of(name);
    let (i, j) = crate::text::trim_range(&v, 0, v.len());
    assert(v@.subrange(0, v@.len() as int) =~= v@);
    if i == j {
        let mut s = String::new();
        push_str(&mut s, "?");
        s
    } else {
        uppercase(v[i])
    }
}

/// The byte sum of `b`.
pub open spec fn byte_sum(b: Seq<u8>) -> nat
    decreases b.len(),
{
    if b.len() == 0 {
        0
    } else {
        byte_sum(b.drop_last()) + b.last() as nat
    }
}

/// The gradient classes, indexed by a name's byte sum modulo 8.
pub open spec fn gradient_class(k: nat) -> Seq<char> {
    if k == 0 {
        "from-rose-500 to-orange-500"@
    } else if k == 1 {
        "from-sky-500 to-indigo-500"@
    } else if k == 2 {
        "from-emerald-500 to-teal-500"@
    } else if k == 3 {
        "from-violet-500 to-fuchsia-500"@
    } else if k == 4 {
        "from-amber-500 to-pink-500"@
    } else if k == 5 {
        "from-cyan-500 to-blue-500"@
    } else if k == 6 {
        "from-lime-500 to-emerald-500"@
    } else {
        "from-fuchsia-500 to-purple-600"@
    }
}

/// Deterministic gradient classes derived from a name: the sum of its UTF-8
/// bytes picks one of eight gradients.
pub fn gradient(name: &str) -> (s: &'static str)
    ensures
        s@ == gradient_class(byte_sum(encode_utf8(name@)) % 8),
{
    let bytes = name.as_bytes();
    let mut k: u32 = 0;
    let mut i: usize = 0;
    while i < bytes.len()
        invariant
            i <= bytes@.len(),
            k < 8,
            k == byte_sum(bytes@.subrange(0, i as int)) % 8,
        decreases bytes@.len() - i,
    {
        assert(bytes@.subrange(0, i + 1).drop_last() =~= bytes@.subrange(0, i as int));
        k = (k + (bytes[i] as u32) % 8) % 8;
        i = i + 1;
    }
    assert(bytes@.subrange(0, bytes@.len() as int) =~= bytes@);
    match k {
        0 => "from-rose-500 to-orange-500",
        1 => "from-sky-500 to-indigo-500",
        2 => "from-emerald-500 to-teal-500",
        3 => "from-violet-500 to-fuchsia-500",
        4 => "from-amber-500 to-pink-500",
        5 => "from-cyan-500 to-blue-500",
        6 => "from-lime-500 to-emerald-500",
        _ => "from-fuchsia-500 to-purple-600",
    }
}

} // verus!

//! The models a provider offers, as the model picker lists them: an
//! OpenAI-style endpoint's models sorted by name, ignoring case, with equal
//! names kept in the order the endpoint gave; Ollama's as it gives them.

use crate::models::ModelInfo;
use crate::text::{chars_of, lowercase, lowercase_of};
use vstd::prelude::*;

verus! {

/// `a` sorts no later than `b`: character by character by code point, a
/// prefix first (the order of `String`s, whose UTF-8 bytes order as their
/// code points do).
pub open spec fn text_le(a: Seq<char>, b: Seq<char>) -> bool
    decreases a.len(),
{
    if a.len() == 0 {
        true
    } else if b.len() == 0 {
        false
    } else if a[0] != b[0] {
        a[0] < b[0]
    } else {
        text_le(a.drop_first(), b.drop_first())
    }
}

proof fn lemma_text_le_total(a: Seq<char>, b: Seq<char>)
    ensures
        text_le(a, b) || text_le(b, a),
    decreases a.len(),
{
    if a.len() > 0 && b.len() > 0 {
        if a[0] == b[0] {
            lemma_text_le_total(a.drop_first(), b.drop_first());
        }
    }
}

proof fn lemma_text_le_transitive(a: Seq<char>, b: Seq<char>, c: Seq<char>)
    requires
        text_le(a, b),
        text_le(b, c),
    ensures
        text_le(a, c),
    decreases a.len(),
{
    if a.len() > 0 && b.len() > 0 && c.len() > 0 && a[0] == b[0] && b[0] == c[0] {
        lemma_text_le_transitive(a.drop_first(), b.drop_first(), c.drop_first());
    }
}

pub(crate) fn text_le_exec(a: &Vec<char>, b: &Vec<char>) -> (r: bool)
    ensures
        r == text_le(a@, b@),
{
    let mut i: usize = 0;
    assert(a@.subrange(0, a@.len() as int) =~= a@);
    assert(b@.subrange(0, b@.len() as int) =~= b@);
    while i < a.len() && i < b.len() && a[i] == b[i]
        invariant
            i <= a@.len(),
            i <= b@.len(),
            text_le(a@, b@) == text_le(a@.subrange(i as int, a@.len() as int), b@.subrange(i as int, b@.len() as int)),
        decreases a@.len() - i,
    {
        assert(a@.subrange(i as int, a@.len() as int).drop_first() =~= a@.subrange(i + 1, a@.len() as int));
        assert(b@.subrange(i as int, b@.len() as int).drop_first() =~= b@.subrange(i + 1, b@.len() as int));
        i = i + 1;
    }
    if i == a.len() {
        true
    } else if i == b.len() {
        false
    } else {
        a[i] < b[i]
    }
}

/// `order` lists the positions of `keys` sorted by key, equal keys in their
/// original order: it is a permutation of `0..keys.len()`.
pub open spec fn stable_order(order: Seq<int>, keys: Seq<Seq<char>>) -> bool {
    &&& order.len() == keys.len()
    &&& forall|p: int| 0 <= p < order.len() ==> 0 <= #[trigger] order[p] < keys.len()
    &&& forall|p: int, q: int| 0 <= p < q < order.len() ==> order[p] != order[q]
    &&& forall|p: int, q: int|
        0 <= p < q < order.len() ==> text_le(keys[#[trigger] order[p]], keys[#[trigger] order[q]])
    &&& forall|p: int, q: int|
        0 <= p < q < order.len() && text_le(keys[#[trigger] order[q]], keys[#[trigger] order[p]])
            ==> order[p] < order[q]
}

/// Inserting position `i` into a stable order of the first `i` positions.
proof fn lemma_insert_keeps_order(order: Seq<int>, keys: Seq<Seq<char>>, i: int, j: int)
    requires
        0 <= i < keys.len(),
        0 <= j <= order.len(),
        order.len() == i,
        stable_order(order, keys.subrange(0, i)),
        forall|p: int| 0 <= p < j ==> text_le(keys[#[trigger] order[p]], keys[i]),
        j < order.len() ==> !text_le(keys[order[j]], keys[i]),
    ensures
        stable_order(order.insert(j, i), keys.subrange(0, i + 1)),
{
    let sub = keys.subrange(0, i);
    let k2 = keys.subrange(0, i + 1);
    let o2 = order.insert(j, i);
    assert forall|p: int| 0 <= p < order.len() implies #[trigger] sub[order[p]] == keys[order[p]] by {}
    assert forall|p: int| 0 <= p < o2.len() implies #[trigger] k2[o2[p]] == keys[o2[p]] by {
        if p < j {
            assert(o2[p] == order[p]);
        } else if p > j {
            assert(o2[p] == order[p - 1]);
        }
    }
    // Every position after the insertion point has a key above keys[i].
    assert forall|p: int| j <= p < order.len() implies !text_le(keys[#[trigger] order[p]], keys[i]) by {
        if p > j {
            assert(text_le(sub[order[j]], sub[order[p]]));
            if text_le(keys[order[p]], keys[i]) {
                lemma_text_le_transitive(keys[order[j]], keys[order[p]], keys[i]);
            }
        }
    }
    assert forall|p: int, q: int| 0 <= p < q < o2.len() implies text_le(
        k2[#[trigger] o2[p]],
        k2[#[trigger] o2[q]],
    ) by {
        if p < j && q < j {
            assert(text_le(sub[order[p]], sub[order[q]]));
        } else if p < j && q == j {
        } else if p < j {
            assert(text_le(sub[order[p]], sub[order[q - 1]]));
        } else if p == j {
            lemma_text_le_total(keys[i], keys[order[q - 1]]);
        } else {
            assert(text_le(sub[order[p - 1]], sub[order[q - 1]]));
        }
    }
    assert forall|p: int, q: int|
        0 <= p < q < o2.len() && text_le(k2[#[trigger] o2[q]], k2[#[trigger] o2[p]]) implies o2[p]
        < o2[q] by {
        if p < j && q < j {
            assert(text_le(sub[order[q]], sub[order[p]]) ==> order[p] < order[q]);
        } else if p < j && q == j {
        } else if p < j {
            assert(text_le(sub[order[q - 1]], sub[order[p]]) ==> order[p] < order[q - 1]);
        } else if p == j {
        } else {
            assert(text_le(sub[order[q - 1]], sub[order[p - 1]]) ==> order[p - 1] < order[q - 1]);
        }
    }
}

/// Positions of `keys` sorted by key, equal keys in their original order.
fn stable_sort_positions(keys: &Vec<Vec<char>>) -> (order: Vec<usize>)
    ensures
        stable_order(
            order@.map_values(|p: usize| p as int),
            keys@.map_values(|k: Vec<char>| k@),
        ),
{
    let ghost kv = keys@.map_values(|k: Vec<char>| k@);
    let mut order: Vec<usize> = Vec::new();
    let mut i: usize = 0;
    while i < keys.len()
        invariant
            i <= keys@.len(),
            kv == keys@.map_values(|k: Vec<char>| k@),
            stable_order(order@.map_values(|p: usize| p as int), kv.subrange(0, i as int)),
        decreases keys@.len() - i,
    {
        let ghost ov = order@.map_values(|p: usize| p as int);
        assert forall|p: int| 0 <= p < order@.len() implies (#[trigger] order@[p]) < i by {
            assert(ov[p] == order@[p] as int);
        }
        let mut j: usize = 0;
        while j < order.len() && text_le_exec(&keys[order[j]], &keys[i])
            invariant
                i < keys@.len(),
                j <= order@.len(),
                order@.len() == i,
                kv == keys@.map_values(|k: Vec<char>| k@),
                ov == order@.map_values(|p: usize| p as int),
                forall|p: int| 0 <= p < order@.len() ==> (#[trigger] order@[p]) < i,
                stable_order(ov, kv.subrange(0, i as int)),
                forall|p: int| 0 <= p < j ==> text_le(kv[#[trigger] ov[p]], kv[i as int]),
            decreases order@.len() - j,
        {
            assert(kv.subrange(0, i as int)[ov[j as int]] == kv[ov[j as int]]);
            j = j + 1;
        }
        proof {
            if j < order@.len() {
                assert(kv.subrange(0, i as int)[ov[j as int]] == kv[ov[j as int]]);
            }
            lemma_insert_keeps_order(ov, kv, i as int, j as int);
        }
        order.insert(j, i);
        assert(order@.map_values(|p: usize| p as int) =~= ov.insert(j as int, i as int));
        i = i + 1;
    }
    assert(kv.subrange(0, keys@.len() as int) =~= kv);
    order
}

/// `models` are the endpoint's model ids `ids`, each as both id and name
/// with no size, in the order `order` gives.
pub open spec fn listed_in_order(models: Seq<ModelInfo>, ids: Seq<String>, order: Seq<int>) -> bool {
    &&& models.len() == order.len()
    &&& forall|p: int|
        0 <= p < models.len() ==> {
            &&& (#[trigger] models[p]).id@ == ids[order[p]]@
            &&& models[p].name@ == ids[order[p]]@
            &&& models[p].size is None
        }
}

/// The lower-cased names of model ids, which they are sorted by.
pub open spec fn name_keys(ids: Seq<String>) -> Seq<Seq<char>> {
    ids.map_values(|s: String| lowercase_of(s@))
}

/// The models of an OpenAI-style endpoint from the ids it lists: sorted by
/// lower-cased name, equal names in the order listed.
pub fn openai_models(ids: &Vec<String>) -> (r: Vec<ModelInfo>)
    ensures
        exists|order: Seq<int>|
            #[trigger] stable_order(order, name_keys(ids@))
                && listed_in_order(r@, ids@, order),
{
    let mut keys: Vec<Vec<char>> = Vec::new();
    let mut i: usize = 0;
    while i < ids.len()
        invariant
            i <= ids@.len(),
            keys@.len() == i,
            forall|k: int| 0 <= k < i ==> (#[trigger] keys@[k])@ == lowercase_of(ids@[k]@),
        decreases ids@.len() - i,
    {
        keys.push(chars_of(lowercase(ids[i].as_str()).as_str()));
        i = i + 1;
    }
    assert(keys@.map_values(|k: Vec<char>| k@) =~= name_keys(ids@));
    let order = stable_sort_positions(&keys);
    let ghost ov = order@.map_values(|p: usize| p as int);
    let mut out: Vec<ModelInfo> = Vec::new();
    let mut p: usize = 0;
    while p < order.len()
        invariant
            p <= order@.len(),
            order@.len() == ids@.len(),
            ov == order@.map_values(|q: usize| q as int),
            forall|q: int| 0 <= q < order@.len() ==> 0 <= #[trigger] ov[q] < ids@.len(),
            out@.len() == p,
            forall|q: int|
                0 <= q < p ==> {
                    &&& (#[trigger] out@[q]).id@ == ids@[ov[q]]@
                    &&& out@[q].name@ == ids@[ov[q]]@
                    &&& out@[q].size is None
                },
        decreases order@.len() - p,
    {
        assert(ov[p as int] == order@[p as int] as int);
        let id = &ids[order[p]];
        out.push(ModelInfo { id: id.clone(), name: id.clone(), size: None });
        p = p + 1;
    }
    assert(listed_in_order(out@, ids@, ov));
    out
}

/// The models Ollama lists, each a name and an optional size, in its order.
pub fn ollama_models(entries: Vec<(String, Option<u64>)>) -> (r: Vec<ModelInfo>)
    ensures
        r@.len() == entries@.len(),
        forall|p: int|
            0 <= p < r@.len() ==> {
                &&& (#[trigger] r@[p]).id@ == entries@[p].0@
                &&& r@[p].name@ == entries@[p].0@
                &&& r@[p].size == entries@[p].1
            },
{
    let mut out: Vec<ModelInfo> = Vec::new();
    let mut p: usize = 0;
    while p < entries.len()
        invariant
            p <= entries@.len(),
            out@.len() == p,
            forall|q: int|
                0 <= q < p ==> {
                    &&& (#[trigger] out@[q]).id@ == entries@[q].0@
                    &&& out@[q].name@ == entries@[q].0@
                    &&& out@[q].size == entries@[q].1
                },
        decreases entries@.len() - p,
    {
        let e = &entries[p];
        out.push(ModelInfo { id: e.0.clone(), name: e.0.clone(), size: e.1 });
        p = p + 1;
    }
    out
}

} // verus!

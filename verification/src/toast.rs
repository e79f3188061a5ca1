//! The toast queue: numbered notifications that are added and dismissed.

use crate::text::push_str;
use vstd::prelude::*;

verus! {

/// The look of a toast.
#[derive(Debug, Clone, Copy, PartialEq, Eq, Structural)]
pub enum ToastVariant {
    Default,
    Success,
    Error,
    Warning,
}

impl ToastVariant {
    /// The CSS classes of this variant.
    pub fn classes(&self) -> (s: &'static str)
        ensures
            s@ == toast_classes(*self),
    {
        match self {
            ToastVariant::Default => "border-border bg-background text-foreground",
            ToastVariant::Success => "border-green-500/30 bg-green-50 text-green-900 dark:bg-green-950 dark:text-green-50",
            ToastVariant::Error => "border-destructive/30 bg-red-50 text-red-900 dark:bg-red-950 dark:text-red-50",
            ToastVariant::Warning => "border-yellow-500/30 bg-yellow-50 text-yellow-900 dark:bg-yellow-950 dark:text-yellow-50",
        }
    }
}

/// The CSS classes of a toast variant.
pub open spec fn toast_classes(v: ToastVariant) -> Seq<char> {
    match v {
        ToastVariant::Default => "border-border bg-background text-foreground"@,
        ToastVariant::Success => "border-green-500/30 bg-green-50 text-green-900 dark:bg-green-950 dark:text-green-50"@,
        ToastVariant::Error => "border-destructive/30 bg-red-50 text-red-900 dark:bg-red-950 dark:text-red-50"@,
        ToastVariant::Warning => "border-yellow-500/30 bg-yellow-50 text-yellow-900 dark:bg-yellow-950 dark:text-yellow-50"@,
    }
}

/// How long a toast shown through the shortcuts stays up.
pub const DEFAULT_DURATION_MS: u64 = 5000;

/// One notification.
#[derive(Debug, Clone)]
pub struct ToastData {
    pub id: u64,
    pub title: String,
    pub description: Option<String>,
    pub variant: ToastVariant,
    pub duration_ms: u64,
}

/// The toasts on screen, and the id the next one gets.
pub struct ToastContext {
    toasts: Vec<ToastData>,
    next_id: u64,
}

impl View for ToastContext {
    type V = (Seq<ToastData>, u64);

    closed spec fn view(&self) -> (Seq<ToastData>, u64) {
        (self.toasts@, self.next_id)
    }
}

/// `t` without the toasts whose id is `id`, order kept.
pub open spec fn without_id(t: Seq<ToastData>, id: u64) -> Seq<ToastData> {
    t.filter(|d: ToastData| d.id != id)
}

/// No id occurs twice in a toast list.
pub open spec fn distinct_ids(t: Seq<ToastData>) -> bool {
    forall|i: int, j: int| 0 <= i < j < t.len() ==> #[trigger] t[i].id != #[trigger] t[j].id
}

impl ToastContext {
    /// Every toast id is below the next id and no id occurs twice.
    pub open spec fn wf(&self) -> bool {
        &&& forall|i: int| 0 <= i < self@.0.len() ==> #[trigger] self@.0[i].id < self@.1
        &&& distinct_ids(self@.0)
    }

    /// The id the next toast will get.
    pub open spec fn next(&self) -> u64 {
        self@.1
    }

    /// The toasts on screen, oldest first.
    pub fn toasts(&self) -> (t: &Vec<ToastData>)
        ensures
            t@ == self@.0,
    {
        &self.toasts
    }

    /// No toasts; numbering starts at 0.
    pub fn new() -> (c: Self)
        ensures
            c.wf(),
            distinct_ids(c@.0),
            c@.0.len() == 0,
            c.next() == 0,
    {
        ToastContext { toasts: Vec::new(), next_id: 0 }
    }

    /// Show a toast and return its id: a fresh id, one more than the last.
    pub fn add(
        &mut self,
        title: String,
        description: Option<String>,
        variant: ToastVariant,
        duration_ms: u64,
    ) -> (id: u64)
        requires
            old(self).wf(),
            old(self).next() < u64::MAX,
        ensures
            final(self).wf(),
            distinct_ids(final(self)@.0),
            id == old(self).next(),
            final(self).next() == old(self).next() + 1,
            final(self)@.0 == old(self)@.0.push(
                ToastData { id, title, description, variant, duration_ms },
            ),
            forall|i: int| 0 <= i < old(self)@.0.len() ==> #[trigger] old(self)@.0[i].id != id,
    {
        let id = self.next_id;
        self.next_id = self.next_id + 1;
        self.toasts.push(ToastData { id, title, description, variant, duration_ms });
        id
    }

    /// Remove the toast with the given id (if present), keeping the others
    /// in order.
    pub fn dismiss(&mut self, id: u64)
        requires
            old(self).wf(),
        ensures
            final(self).wf(),
            distinct_ids(final(self)@.0),
            final(self).next() == old(self).next(),
            final(self)@.0 == without_id(old(self)@.0, id),
    {
        let mut kept: Vec<ToastData> = Vec::new();
        let ghost old_toasts = self.toasts@;
        let ghost next = self.next_id;
        let n = self.toasts.len();
        let mut taken: Vec<ToastData> = Vec::new();
        std::mem::swap(&mut taken, &mut self.toasts);
        let mut i: usize = 0;
        assert(without_id(old_toasts.subrange(0, 0), id) =~= Seq::<ToastData>::empty());
        while i < n
            invariant
                n == taken@.len(),
                taken@ == old_toasts,
                i <= n,
                self.next_id == next,
                forall|k: int| 0 <= k < old_toasts.len() ==> #[trigger] old_toasts[k].id < next,
                distinct_ids(old_toasts),
                kept@ == without_id(old_toasts.subrange(0, i as int), id),
                distinct_ids(kept@),
                forall|k: int| 0 <= k < kept@.len() ==> #[trigger] kept@[k].id < next,
                forall|k: int, j: int|
                    0 <= k < kept@.len() && i <= j < n ==> #[trigger] kept@[k].id
                        != #[trigger] old_toasts[j].id,
            decreases n - i,
        {
            let ghost pre = old_toasts.subrange(0, i as int);
            let ghost nxt = old_toasts.subrange(0, i + 1);
            assert(nxt.drop_last() =~= pre);
            assert(nxt.last() == old_toasts[i as int]);
            assert(nxt.len() > 0);
            assert(without_id(nxt, id) == (if old_toasts[i as int].id != id {
                without_id(pre, id).push(old_toasts[i as int])
            } else {
                without_id(pre, id)
            })) by {
                reveal_with_fuel(Seq::filter, 1);
            }
            let t = &taken[i];
            let ghost kept0 = kept@;
            if t.id != id {
                kept.push(t.clone_toast());
                assert(kept@ =~= kept0.push(old_toasts[i as int]));
                assert forall|a: int, b: int| 0 <= a < b < kept@.len() implies #[trigger] kept@[a].id
                    != #[trigger] kept@[b].id by {
                    if b == kept@.len() - 1 {
                        assert(kept0[a].id != old_toasts[i as int].id);
                    }
                }
                assert forall|k: int, j: int| 0 <= k < kept@.len() && i + 1 <= j < n implies #[trigger] kept@[k].id
                    != #[trigger] old_toasts[j].id by {
                    if k == kept@.len() - 1 {
                        assert(old_toasts[i as int].id != old_toasts[j].id);
                    } else {
                        assert(kept0[k].id != old_toasts[j].id);
                    }
                }
            }
            i = i + 1;
        }
        assert(old_toasts.subrange(0, n as int) =~= old_toasts);
        self.toasts = kept;
    }

    /// Show a toast with the default duration and no description.
    pub fn show(&mut self, title: String, variant: ToastVariant)
        requires
            old(self).wf(),
            old(self).next() < u64::MAX,
        ensures
            final(self).wf(),
            final(self).next() == old(self).next() + 1,
            final(self)@.0 == old(self)@.0.push(
                ToastData {
                    id: old(self).next(),
                    title,
                    description: None,
                    variant,
                    duration_ms: DEFAULT_DURATION_MS,
                },
            ),
    {
        self.add(title, None, variant, DEFAULT_DURATION_MS);
    }
}

impl ToastData {
    /// A field-for-field copy.
    pub fn clone_toast(&self) -> (c: ToastData)
        ensures
            c == *self,
    {
        let description = match &self.description {
            Some(d) => Some(d.clone()),
            None => None,
        };
        ToastData {
            id: self.id,
            title: self.title.clone(),
            description,
            variant: self.variant,
            duration_ms: self.duration_ms,
        }
    }
}

} // verus!

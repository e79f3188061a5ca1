//! Decisions behind the interface widgets: class names, keyboard focus
//! movement, default model choice, sidebar paging, and relative times.

use crate::text::{decimal, push_decimal, push_str};
use vstd::prelude::*;

verus! {

/// Horizontal alignment of a dropdown menu relative to its trigger.
#[derive(Debug, Clone, Copy, PartialEq, Eq, Structural)]
pub enum DropdownAlign {
    Start,
    Center,
    End,
}

impl DropdownAlign {
    /// The positioning classes of this alignment.
    pub fn classes(&self) -> (s: &'static str)
        ensures
            s@ == match *self {
                DropdownAlign::Start => "left-0"@,
                DropdownAlign::Center => "left-1/2 -translate-x-1/2"@,
                DropdownAlign::End => "right-0"@,
            },
    {
        match self {
            DropdownAlign::Start => "left-0",
            DropdownAlign::Center => "left-1/2 -translate-x-1/2",
            DropdownAlign::End => "right-0",
        }
    }
}

/// The edge a sheet slides in from.
#[derive(Debug, Clone, Copy, PartialEq, Eq, Structural)]
pub enum SheetSide {
    Left,
    Right,
    Top,
    Bottom,
}

impl SheetSide {
    /// The entry animation class of this side.
    pub fn enter_animation(&self) -> (s: &'static str)
        ensures
            s@ == match *self {
                SheetSide::Left => "animate-slide-in-from-left"@,
                SheetSide::Right => "animate-slide-in-from-right"@,
                SheetSide::Top => "animate-slide-in-from-top"@,
                SheetSide::Bottom => "animate-slide-in-from-bottom"@,
            },
    {
        match self {
            SheetSide::Left => "animate-slide-in-from-left",
            SheetSide::Right => "animate-slide-in-from-right",
            SheetSide::Top => "animate-slide-in-from-top",
            SheetSide::Bottom => "animate-slide-in-from-bottom",
        }
    }

    /// The placement classes of this side.
    pub fn fixed_classes(&self) -> (s: &'static str)
        ensures
            s@ == match *self {
                SheetSide::Left => "fixed inset-y-0 left-0 z-50 h-full w-80 max-w-[85vw]"@,
                SheetSide::Right => "fixed inset-y-0 right-0 z-50 h-full w-80 max-w-[85vw]"@,
                SheetSide::Top => "fixed inset-x-0 top-0 z-50 w-full"@,
                SheetSide::Bottom => "fixed inset-x-0 bottom-0 z-50 w-full"@,
            },
    {
        match self {
            SheetSide::Left => "fixed inset-y-0 left-0 z-50 h-full w-80 max-w-[85vw]",
            SheetSide::Right => "fixed inset-y-0 right-0 z-50 h-full w-80 max-w-[85vw]",
            SheetSide::Top => "fixed inset-x-0 top-0 z-50 w-full",
            SheetSide::Bottom => "fixed inset-x-0 bottom-0 z-50 w-full",
        }
    }
}

/// A keyboard step within a menu.
#[derive(Debug, Clone, Copy, PartialEq, Eq, Structural)]
pub enum ItemFocus {
    First,
    Last,
    Next,
    Prev,
}

/// The menu item to focus after a keyboard step: wrapping around the ends,
/// and entering at the first (or, going back, the last) item when no item
/// has focus.
pub open spec fn focus_target_of(step: ItemFocus, current: Option<usize>, len: usize) -> int {
    match (step, current) {
        (ItemFocus::First, _) => 0,
        (ItemFocus::Last, _) => len - 1,
        (ItemFocus::Next, Some(i)) => (i + 1) % (len as int),
        (ItemFocus::Prev, Some(i)) => (i + len - 1) % (len as int),
        (ItemFocus::Next, None) => 0,
        (ItemFocus::Prev, None) => len - 1,
    }
}

/// The index of the menu item to focus among `len` items.
pub fn focus_target(step: ItemFocus, current: Option<usize>, len: usize) -> (t: usize)
    requires
        len > 0,
        current matches Some(i) ==> i < len,
    ensures
        t == focus_target_of(step, current, len),
        t < len,
{
    match (step, current) {
        (ItemFocus::First, _) => 0,
        (ItemFocus::Last, _) => len - 1,
        (ItemFocus::Next, Some(i)) => (i + 1) % len,
        (ItemFocus::Prev, Some(i)) => {
            assert((i + len - 1) % (len as int) == (if i == 0 {
                len - 1
            } else {
                i - 1
            })) by (nonlinear_arith)
                requires
                    i < len,
            ;
            if i == 0 {
                len - 1
            } else {
                i - 1
            }
        },
        (ItemFocus::Next, None) => 0,
        (ItemFocus::Prev, None) => len - 1,
    }
}

/// A sequence extended by one element contains exactly what it contained
/// before, plus that element.
pub proof fn lemma_contains_push<A>(s: Seq<A>, x: A, y: A)
    ensures
        s.push(x).contains(y) <==> (s.contains(y) || x == y),
{
    if s.push(x).contains(y) {
        let w = choose|w: int| 0 <= w < s.push(x).len() && #[trigger] s.push(x)[w] == y;
        if w < s.len() {
            assert(s[w] == y);
        }
    }
    if s.contains(y) {
        let w = choose|w: int| 0 <= w < s.len() && #[trigger] s[w] == y;
        assert(s.push(x)[w] == y);
    }
    if x == y {
        assert(s.push(x)[s.len() as int] == y);
    }
}

/// Where keyboard focus is when Tab is pressed inside a dialog.
#[derive(Debug, Clone, Copy, PartialEq, Eq, Structural)]
pub enum ActiveFocus {
    /// No element has focus.
    Nothing,
    /// The focusable element at this position has focus.
    At(usize),
    /// Some element outside the dialog's focusable list has focus.
    Elsewhere,
}

/// What a Tab key press inside a dialog does.
#[derive(Debug, Clone, Copy, PartialEq, Eq, Structural)]
pub enum TabTrap {
    /// Swallow the key: there is nothing to focus.
    Prevent,
    /// Swallow the key and focus the first element.
    FocusFirst,
    /// Swallow the key and focus the last element.
    FocusLast,
    /// Let the browser move focus.
    Allow,
}

/// Keep Tab / Shift+Tab cycling within a dialog holding `count` focusable
/// elements.
pub fn tab_trap(count: usize, shift: bool, active: ActiveFocus) -> (r: TabTrap)
    ensures
        count == 0 ==> r == TabTrap::Prevent,
        count > 0 && shift ==> r == (if active == ActiveFocus::Nothing || active
            == ActiveFocus::At(0) {
            TabTrap::FocusLast
        } else {
            TabTrap::Allow
        }),
        count > 0 && !shift ==> r == (if active == ActiveFocus::Nothing || active
            == ActiveFocus::At((count - 1) as usize) {
            TabTrap::FocusFirst
        } else {
            TabTrap::Allow
        }),
{
    if count == 0 {
        return TabTrap::Prevent;
    }
    let (at_first, at_last) = match active {
        ActiveFocus::Nothing => (true, true),
        ActiveFocus::At(i) => (i == 0, i == count - 1),
        ActiveFocus::Elsewhere => (false, false),
    };
    if shift {
        if at_first {
            TabTrap::FocusLast
        } else {
            TabTrap::Allow
        }
    } else if at_last {
        TabTrap::FocusFirst
    } else {
        TabTrap::Allow
    }
}

/// One entry of a select box.
#[derive(Debug, Clone)]
pub struct SelectOption {
    pub value: String,
    pub label: String,
    pub disabled: bool,
}

impl SelectOption {
    /// An enabled option.
    pub fn new(value: String, label: String) -> (o: Self)
        ensures
            o.value == value,
            o.label == label,
            !o.disabled,
    {
        SelectOption { value, label, disabled: false }
    }

    /// The option with its disabled flag set as given.
    pub fn disabled(self, disabled: bool) -> (o: Self)
        ensures
            o.value == self.value,
            o.label == self.label,
            o.disabled == disabled,
    {
        SelectOption { disabled, ..self }
    }
}

/// The first index of a default provider, or 0 when none is default.
pub open spec fn default_pick(is_default: Seq<bool>) -> int
    decreases is_default.len(),
{
    if is_default.len() == 0 {
        0
    } else if is_default.last() && !is_default.drop_last().contains(true) {
        is_default.len() - 1
    } else {
        default_pick(is_default.drop_last())
    }
}

/// Which provider and model to select by default: the default provider
/// (else the first), and the preferred model if that provider offers it
/// (else its first model). `None` when there is no provider or it offers no
/// models.
pub open spec fn default_model_choice(
    is_default: Seq<bool>,
    models: Seq<Seq<Seq<char>>>,
    preferred: Option<Seq<char>>,
) -> Option<(int, Seq<char>)> {
    if is_default.len() == 0 {
        None
    } else {
        let p = default_pick(is_default);
        let ms = models[p];
        if ms.len() == 0 {
            None
        } else {
            match preferred {
                Some(pm) => if ms.contains(pm) {
                    Some((p, pm))
                } else {
                    Some((p, ms[0]))
                },
                None => Some((p, ms[0])),
            }
        }
    }
}

/// The views of a list of strings.
pub open spec fn string_views(v: Seq<String>) -> Seq<Seq<char>> {
    v.map_values(|s: String| s@)
}

/// Pick the default provider and model once providers and their models are
/// known. `models[i]` are the model ids of provider `i`.
pub fn pick_default_model(
    is_default: &Vec<bool>,
    models: &Vec<Vec<String>>,
    preferred: Option<&str>,
) -> (r: Option<(usize, String)>)
    requires
        is_default@.len() == models@.len(),
    ensures
        match (r, default_model_choice(
            is_default@,
            models@.map_values(|m: Vec<String>| string_views(m@)),
            crate::chat::opt_view(preferred),
        )) {
            (Some((i, m)), Some((j, n))) => i == j && m@ == n,
            (None, None) => true,
            _ => false,
        },
{
    if is_default.len() == 0 {
        return None;
    }
    let mut p: usize = 0;
    let mut k: usize = 0;
    let mut found = false;
    while k < is_default.len()
        invariant
            k <= is_default@.len(),
            is_default@.len() > 0,
            found == is_default@.subrange(0, k as int).contains(true),
            found ==> p < k && p == default_pick(is_default@.subrange(0, k as int)),
            !found ==> p == 0,
            !found ==> default_pick(is_default@.subrange(0, k as int)) == 0,
        decreases is_default@.len() - k,
    {
        let ghost pre = is_default@.subrange(0, k as int);
        assert(is_default@.subrange(0, k + 1).drop_last() =~= pre);
        if !found && is_default[k] {
            found = true;
            p = k;
            assert(is_default@.subrange(0, k + 1)[k as int] == true);
        } else if is_default[k] {
        } else {
            proof {
                if is_default@.subrange(0, k + 1).contains(true) {
                    let w = choose|w: int|
                        0 <= w < k + 1 && #[trigger] is_default@.subrange(0, k + 1)[w] == true;
                    assert(pre[w] == true);
                }
            }
        }
        k = k + 1;
    }
    assert(is_default@.subrange(0, is_default@.len() as int) =~= is_default@);
    let ms = &models[p];
    assert(models@.map_values(|m: Vec<String>| string_views(m@))[p as int] == string_views(ms@));
    if ms.len() == 0 {
        return None;
    }
    let mut choice: Option<usize> = None;
    if let Some(pm) = preferred {
        let mut j: usize = 0;
        while j < ms.len()
            invariant
                j <= ms@.len(),
                choice matches Some(c) ==> c < ms@.len() && ms@[c as int]@ == pm@,
                choice is None ==> forall|q: int| 0 <= q < j ==> ms@[q]@ != pm@,
            decreases ms@.len() - j,
        {
            if choice.is_none() && crate::models::str_is(ms[j].as_str(), pm) {
                choice = Some(j);
            }
            j = j + 1;
        }
        proof {
            let sv = string_views(ms@);
            if choice is None {
                assert forall|q: int| 0 <= q < sv.len() implies sv[q] != pm@ by {
                    assert(sv[q] == ms@[q]@);
                }
                assert(!sv.contains(pm@));
            } else {
                let c = choice->Some_0;
                assert(sv[c as int] == pm@);
                assert(sv.contains(pm@));
            }
        }
    }
    let idx: usize = match choice {
        Some(c) => c,
        None => 0,
    };
    Some((p, ms[idx].clone()))
}

/// The rows of a fetched page that get appended to the rows already held:
/// each row whose id is neither held nor appended earlier, in page order.
pub open spec fn appended_rows(held: Seq<u128>, page: Seq<u128>) -> Seq<u128>
    decreases page.len(),
{
    if page.len() == 0 {
        Seq::empty()
    } else {
        let earlier = appended_rows(held, page.drop_last());
        if held.contains(page.last()) || earlier.contains(page.last()) {
            earlier
        } else {
            earlier.push(page.last())
        }
    }
}

/// Append a fetched page of session ids to those already held, skipping
/// any id already present (rows shift as sessions are updated, so an offset
/// page can repeat a row).
pub fn merge_page(held: &mut Vec<u128>, page: &Vec<u128>)
    ensures
        final(held)@ == old(held)@ + appended_rows(old(held)@, page@),
{
    let ghost h0 = held@;
    let mut i: usize = 0;
    while i < page.len()
        invariant
            i <= page@.len(),
            held@ == h0 + appended_rows(h0, page@.subrange(0, i as int)),
        decreases page@.len() - i,
    {
        let id = page[i];
        let mut present = false;
        let mut k: usize = 0;
        while k < held.len()
            invariant
                k <= held@.len(),
                present == held@.subrange(0, k as int).contains(id),
            decreases held@.len() - k,
        {
            proof {
                let pre = held@.subrange(0, k as int);
                assert(held@.subrange(0, k + 1) =~= pre.push(held@[k as int]));
                lemma_contains_push(pre, held@[k as int], id);
            }
            if held[k] == id {
                present = true;
            }
            k = k + 1;
        }
        assert(held@.subrange(0, held@.len() as int) =~= held@);
        let ghost pre = page@.subrange(0, i as int);
        let ghost earlier = appended_rows(h0, pre);
        assert(page@.subrange(0, i + 1).drop_last() =~= pre);
        proof {
            assert((h0 + earlier).contains(id) <==> (h0.contains(id) || earlier.contains(id))) by {
                if (h0 + earlier).contains(id) {
                    let w = choose|w: int| 0 <= w < (h0 + earlier).len() && #[trigger] (h0 + earlier)[w] == id;
                    if w >= h0.len() {
                        assert(earlier[w - h0.len()] == id);
                    }
                }
                if h0.contains(id) {
                    let w = choose|w: int| 0 <= w < h0.len() && #[trigger] h0[w] == id;
                    assert((h0 + earlier)[w] == id);
                }
                if earlier.contains(id) {
                    let w = choose|w: int| 0 <= w < earlier.len() && #[trigger] earlier[w] == id;
                    assert((h0 + earlier)[h0.len() + w] == id);
                }
            }
        }
        if !present {
            held.push(id);
            assert(held@ =~= h0 + appended_rows(h0, page@.subrange(0, i + 1)));
        }
        i = i + 1;
    }
    assert(page@.subrange(0, page@.len() as int) =~= page@);
}

/// A compact relative time for a session that was updated `elapsed`
/// seconds ago.
pub open spec fn relative_time_text(elapsed: i64) -> Seq<char> {
    if elapsed < 60 {
        "now"@
    } else if elapsed < 3600 {
        decimal((elapsed / 60) as nat) + "m"@
    } else if elapsed < 86400 {
        decimal((elapsed / 3600) as nat) + "h"@
    } else if elapsed < 604800 {
        decimal((elapsed / 86400) as nat) + "d"@
    } else if elapsed < 2419200 {
        decimal((elapsed / 604800) as nat) + "w"@
    } else {
        decimal((elapsed / 86400 / 30) as nat) + "mo"@
    }
}

/// Format how long ago something happened ("now", "5m", "3h", "2d", "1w",
/// "4mo"), given the elapsed whole seconds.
pub fn format_relative_time(elapsed: i64) -> (s: String)
    ensures
        s@ == relative_time_text(elapsed),
{
    let mut s = String::new();
    if elapsed < 60 {
        push_str(&mut s, "now");
    } else if elapsed < 3600 {
        push_decimal(&mut s, (elapsed / 60) as u64);
        push_str(&mut s, "m");
    } else if elapsed < 86400 {
        push_decimal(&mut s, (elapsed / 3600) as u64);
        push_str(&mut s, "h");
    } else if elapsed < 604800 {
        push_decimal(&mut s, (elapsed / 86400) as u64);
        push_str(&mut s, "d");
    } else if elapsed < 2419200 {
        push_decimal(&mut s, (elapsed / 604800) as u64);
        push_str(&mut s, "w");
    } else {
        push_decimal(&mut s, (elapsed / 86400 / 30) as u64);
        push_str(&mut s, "mo");
    }
    s
}

} // verus!

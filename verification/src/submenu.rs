//! The scrolling submenu of skills and items.
//!
//! The submenu shows a window of at most four consecutive entries of a
//! list.  A cursor marks the highlighted entry; moving it past either end of
//! the list wraps around, and the window scrolls so that the cursor stays
//! inside it.

use vstd::prelude::*;
use crate::menu::MenuKey;

verus! {

/// Number of entries the submenu shows at once.
pub const SUBMENU_SLOTS: usize = 4;

/// Number of entries visible for a list of `len` entries.
pub open spec fn visible_count(len: int) -> int {
    if len < 4 { len } else { 4 }
}

/// The entry below `index`, wrapping to the first.
pub open spec fn index_below(index: int, len: int) -> int {
    if index + 1 >= len { 0 } else { index + 1 }
}

/// The entry above `index`, wrapping to the last.
pub open spec fn index_above(index: int, len: int) -> int {
    if index <= 0 { len - 1 } else { index - 1 }
}

/// The first visible entry once the cursor went down to `index`.
pub open spec fn top_below(index: int) -> int {
    if index >= 3 { index - 3 } else { 0 }
}

/// The first visible entry once the cursor went up to `index` from a window
/// starting at `top`.
pub open spec fn top_above(top: int, index: int, len: int) -> int {
    if index == len - 1 {
        top_below(index)
    } else if top > index {
        index
    } else {
        top
    }
}

/// The cursor of the submenu over a list of `len` entries.
pub struct SubmenuCursor {
    index: usize,
    view_top: usize,
    len: usize,
}

impl SubmenuCursor {
    /// The highlighted entry.
    pub closed spec fn spec_index(&self) -> int {
        self.index as int
    }

    /// The first visible entry.
    pub closed spec fn spec_view_top(&self) -> int {
        self.view_top as int
    }

    /// The number of entries.
    pub closed spec fn spec_len(&self) -> int {
        self.len as int
    }

    /// The list is not empty, the cursor is on an entry inside the window,
    /// and the window lies within the list.
    pub open spec fn wf(&self) -> bool {
        &&& 0 < self.spec_len()
        &&& 0 <= self.spec_view_top() <= self.spec_index() < self.spec_len()
        &&& self.spec_index() < self.spec_view_top() + 4
        &&& self.spec_view_top() + visible_count(self.spec_len()) <= self.spec_len()
    }

    /// The cursor on the first of `len` entries.
    pub fn new(len: usize) -> (c: Self)
        requires
            len > 0,
        ensures
            c.wf(),
            c.spec_index() == 0,
            c.spec_view_top() == 0,
            c.spec_len() == len,
    {
        SubmenuCursor { index: 0, view_top: 0, len }
    }

    /// The highlighted entry.
    pub fn index(&self) -> (i: usize)
        ensures
            i == self.spec_index(),
    {
        self.index
    }

    /// The visible entries: from `start` up to, not including, `end`.
    pub fn visible_range(&self) -> (range: (usize, usize))
        requires
            self.wf(),
        ensures
            range.0 == self.spec_view_top(),
            range.1 == self.spec_view_top() + visible_count(self.spec_len()),
            range.1 <= self.spec_len(),
    {
        let count = if self.len < SUBMENU_SLOTS { self.len } else { SUBMENU_SLOTS };
        (self.view_top, self.view_top + count)
    }

    /// The slot of the window in which the cursor is.
    pub fn slot(&self) -> (s: usize)
        requires
            self.wf(),
        ensures
            s == self.spec_index() - self.spec_view_top(),
            s < SUBMENU_SLOTS,
    {
        self.index - self.view_top
    }

    /// The cursor moves to the next entry, from the last to the first, and
    /// the window scrolls to keep it in its lowest slot when it can.
    pub fn down(&mut self)
        requires
            old(self).wf(),
        ensures
            final(self).wf(),
            final(self).spec_len() == old(self).spec_len(),
            final(self).spec_index() == index_below(old(self).spec_index(), old(self).spec_len()),
            final(self).spec_view_top() == top_below(final(self).spec_index()),
    {
        self.index = self.index + 1;
        if self.index >= self.len {
            self.index = 0;
        }
        self.view_top = if self.index >= 3 { self.index - 3 } else { 0 };
    }

    /// The cursor moves to the previous entry, from the first to the last;
    /// the window follows the cursor upwards, and shows the end of the list
    /// after wrapping.
    pub fn up(&mut self)
        requires
            old(self).wf(),
        ensures
            final(self).wf(),
            final(self).spec_len() == old(self).spec_len(),
            final(self).spec_index() == index_above(old(self).spec_index(), old(self).spec_len()),
            final(self).spec_view_top() == top_above(
                old(self).spec_view_top(),
                final(self).spec_index(),
                old(self).spec_len(),
            ),
    {
        if self.index == 0 {
            self.index = self.len - 1;
        } else {
            self.index = self.index - 1;
        }
        if self.view_top > self.index {
            self.view_top = self.index;
        }
        if self.index == self.len - 1 {
            self.view_top = if self.index >= 3 { self.index - 3 } else { 0 };
        }
    }
}

/// What the submenu does on a key press.
#[derive(PartialEq, Eq, Structural, Clone, Copy, Debug)]
pub enum SubmenuStep {
    /// The highlight leaves slot `from` and the window now shows the
    /// entries from `top` on, with the highlight in slot `to`.
    Moved { from: usize, to: usize, top: usize },
    /// The entry `index` is chosen.
    Select(usize),
    /// The submenu is left without a choice.
    Cancel,
}

/// One key press in the submenu.  Down and up move the cursor; confirm
/// chooses the highlighted entry; cancel leaves.
pub fn submenu_step(cursor: &mut SubmenuCursor, key: MenuKey) -> (step: SubmenuStep)
    requires
        old(cursor).wf(),
    ensures
        final(cursor).wf(),
        final(cursor).spec_len() == old(cursor).spec_len(),
        match key {
            MenuKey::Down => {
                &&& final(cursor).spec_index() == index_below(
                    old(cursor).spec_index(),
                    old(cursor).spec_len(),
                )
                &&& final(cursor).spec_view_top() == top_below(final(cursor).spec_index())
            },
            MenuKey::Up => {
                &&& final(cursor).spec_index() == index_above(
                    old(cursor).spec_index(),
                    old(cursor).spec_len(),
                )
                &&& final(cursor).spec_view_top() == top_above(
                    old(cursor).spec_view_top(),
                    final(cursor).spec_index(),
                    old(cursor).spec_len(),
                )
            },
            _ => *final(cursor) == *old(cursor),
        },
        match key {
            MenuKey::Down | MenuKey::Up => step matches SubmenuStep::Moved { from, to, top } && from
                == old(cursor).spec_index() - old(cursor).spec_view_top() && to
                == final(cursor).spec_index() - final(cursor).spec_view_top() && top
                == final(cursor).spec_view_top() && from < SUBMENU_SLOTS && to < SUBMENU_SLOTS,
            MenuKey::Confirm => step == SubmenuStep::Select(old(cursor).spec_index() as usize),
            MenuKey::Cancel => step is Cancel,
        },
{
    match key {
        MenuKey::Down => {
            let from = cursor.slot();
            cursor.down();
            SubmenuStep::Moved { from, to: cursor.slot(), top: cursor.view_top }
        },
        MenuKey::Up => {
            let from = cursor.slot();
            cursor.up();
            SubmenuStep::Moved { from, to: cursor.slot(), top: cursor.view_top }
        },
        MenuKey::Confirm => SubmenuStep::Select(cursor.index),
        MenuKey::Cancel => SubmenuStep::Cancel,
    }
}

/// Moving down then up, or up then down, brings the cursor back to the
/// same entry.
pub proof fn lemma_down_up_return(index: int, len: int)
    requires
        0 <= index < len,
    ensures
        index_above(index_below(index, len), len) == index,
        index_below(index_above(index, len), len) == index,
{
}

/// Moving down `len` times from any entry comes back to it.
pub proof fn lemma_down_cycles(index: int, len: int)
    requires
        0 <= index < len,
    ensures
        down_times(index, len, len as nat) == index,
{
    lemma_down_times(index, len, len as nat);
    vstd::arithmetic::div_mod::lemma_fundamental_div_mod_converse(index + len, len, 1, index);
}

/// The entry reached from `index` after `n` moves down.
pub open spec fn down_times(index: int, len: int, n: nat) -> int
    decreases n,
{
    if n == 0 {
        index
    } else {
        index_below(down_times(index, len, (n - 1) as nat), len)
    }
}

proof fn lemma_down_times(index: int, len: int, n: nat)
    requires
        0 <= index < len,
    ensures
        down_times(index, len, n) == (index + n) % len,
    decreases n,
{
    if n > 0 {
        lemma_down_times(index, len, (n - 1) as nat);
        lemma_mod_step(index + n - 1, len);
    } else {
        assert(index % len == index) by (nonlinear_arith)
            requires
                0 <= index < len,
        ;
    }
}

proof fn lemma_mod_step(a: int, len: int)
    requires
        len > 0,
        a >= 0,
    ensures
        index_below(a % len, len) == (a + 1) % len,
{
    vstd::arithmetic::div_mod::lemma_fundamental_div_mod(a, len);
    vstd::arithmetic::div_mod::lemma_fundamental_div_mod(a + 1, len);
    vstd::arithmetic::div_mod::lemma_mod_bound(a, len);
    vstd::arithmetic::div_mod::lemma_mod_bound(a + 1, len);
    let q = a / len;
    let r = a % len;
    if r + 1 >= len {
        assert(a + 1 == (q + 1) * len + 0) by (nonlinear_arith)
            requires
                a == len * q + r,
                r + 1 == len,
        ;
        vstd::arithmetic::div_mod::lemma_fundamental_div_mod_converse(a + 1, len, q + 1, 0);
    } else {
        assert(a + 1 == q * len + (r + 1)) by (nonlinear_arith)
            requires
                a == len * q + r,
        ;
        vstd::arithmetic::div_mod::lemma_fundamental_div_mod_converse(a + 1, len, q, r + 1);
    }
}

/// The texts of the submenu's slots: the `i`th slot shows `texts[i]`, or
/// nothing where the list is shorter than the window.
pub fn submenu_slot_texts(texts: &[String]) -> (slots: Vec<String>)
    ensures
        slots@.len() == SUBMENU_SLOTS,
        forall|i: int|
            0 <= i < SUBMENU_SLOTS ==> (#[trigger] slots@[i])@ == (if i < texts@.len() {
                texts@[i]@
            } else {
                Seq::<char>::empty()
            }),
{
    let mut slots: Vec<String> = Vec::new();
    let mut i: usize = 0;
    while i < SUBMENU_SLOTS
        invariant
            i <= SUBMENU_SLOTS,
            slots@.len() == i,
            forall|j: int|
                0 <= j < i ==> (#[trigger] slots@[j])@ == (if j < texts@.len() {
                    texts@[j]@
                } else {
                    Seq::<char>::empty()
                }),
        decreases SUBMENU_SLOTS - i,
    {
        if i < texts.len() {
            slots.push(texts[i].clone());
        } else {
            slots.push(String::new());
        }
        i = i + 1;
    }
    slots
}

/// Entry `j` comes before entry `i` once entries are sorted by key, entries
/// with equal keys keeping their order.
pub open spec fn ranks_before(keys: Seq<usize>, j: int, i: int) -> bool {
    keys[j] < keys[i] || (keys[j] == keys[i] && j < i)
}

/// How many of the first `n` entries come before entry `i`.
pub open spec fn count_before(keys: Seq<usize>, i: int, n: int) -> int
    decreases n,
{
    if n <= 0 {
        0
    } else {
        count_before(keys, i, n - 1) + if ranks_before(keys, n - 1, i) { 1int } else { 0int }
    }
}

/// The place of entry `i` once entries are sorted by key.
pub open spec fn rank(keys: Seq<usize>, i: int) -> int {
    count_before(keys, i, keys.len() as int)
}

/// Finds the entry whose place, once entries are sorted by key, is `slot`:
/// the position of the first entry of that place, or `None` if no entry has
/// it.
pub fn entry_at_rank(keys: &Vec<usize>, slot: usize) -> (found: Option<usize>)
    ensures
        match found {
            Some(i) => i < keys@.len() && rank(keys@, i as int) == slot && forall|j: int|
                0 <= j < i ==> rank(keys@, j) != slot,
            None => forall|j: int| 0 <= j < keys@.len() ==> rank(keys@, j) != slot,
        },
{
    let n = keys.len();
    let mut i: usize = 0;
    while i < n
        invariant
            n == keys@.len(),
            i <= n,
            forall|j: int| 0 <= j < i ==> rank(keys@, j) != slot,
        decreases n - i,
    {
        let mut count: usize = 0;
        let mut k: usize = 0;
        while k < n
            invariant
                n == keys@.len(),
                i < n,
                k <= n,
                count == count_before(keys@, i as int, k as int),
                count <= k,
            decreases n - k,
        {
            if keys[k] < keys[i] || (keys[k] == keys[i] && k < i) {
                count = count + 1;
            }
            k = k + 1;
        }
        if count == slot {
            return Some(i);
        }
        i = i + 1;
    }
    None
}

proof fn lemma_count_bound(keys: Seq<usize>, i: int, m: int)
    requires
        0 <= m <= keys.len(),
        0 <= i < keys.len(),
    ensures
        0 <= count_before(keys, i, m) <= m,
        i < m ==> count_before(keys, i, m) <= m - 1,
    decreases m,
{
    if m > 0 {
        lemma_count_bound(keys, i, m - 1);
    }
}

proof fn lemma_count_grows(keys: Seq<usize>, i: int, j: int, m: int)
    requires
        0 <= m <= keys.len(),
        0 <= i < keys.len(),
        0 <= j < keys.len(),
        ranks_before(keys, i, j),
    ensures
        count_before(keys, j, m) >= count_before(keys, i, m) + (if i < m { 1int } else { 0int }),
    decreases m,
{
    if m > 0 {
        lemma_count_grows(keys, i, j, m - 1);
    }
}

/// Entries sorted by key with ties kept in order: each entry gets a place
/// below the number of entries, and no two entries share a place.
pub proof fn lemma_ranks_distinct(keys: Seq<usize>, i: int, j: int)
    requires
        0 <= i < keys.len(),
        0 <= j < keys.len(),
        i != j,
    ensures
        0 <= rank(keys, i) < keys.len(),
        rank(keys, i) != rank(keys, j),
{
    lemma_count_bound(keys, i, keys.len() as int);
    if ranks_before(keys, i, j) {
        lemma_count_grows(keys, i, j, keys.len() as int);
    } else {
        lemma_count_grows(keys, j, i, keys.len() as int);
    }
}

/// Every place below the number of entries is taken by some entry, so the
/// submenu finds an entry for every slot when there are enough entries.
pub proof fn lemma_every_rank_is_taken(keys: Seq<usize>, slot: int)
    requires
        0 <= slot < keys.len(),
    ensures
        exists|i: int| 0 <= i < keys.len() && rank(keys, i) == slot,
{
    let n = keys.len() as int;
    let xs = vstd::set_lib::set_int_range(0, n);
    let f = |i: int| rank(keys, i);
    let ys = xs.map(f);
    vstd::set_lib::lemma_int_range(0, n);
    assert forall|a: int, b: int| xs.contains(a) && xs.contains(b) && #[trigger] f(a) == #[trigger] f(b)
        implies a == b by {
        if a != b {
            lemma_ranks_distinct(keys, a, b);
        }
    }
    assert(vstd::relations::injective_on(f, xs));
    vstd::set_lib::lemma_map_size(xs, ys, f);
    assert forall|y: int| ys.contains(y) implies xs.contains(y) by {
        let a = choose|a: int| xs.contains(a) && f(a) == y;
        lemma_count_bound(keys, a, n);
    }
    vstd::set_lib::lemma_subset_equality(ys, xs);
    assert(xs.contains(slot));
    assert(ys.contains(slot));
    let w = choose|a: int| xs.contains(a) && f(a) == slot;
    assert(0 <= w < n && rank(keys, w) == slot);
}

/// Sorted by key with ties kept in order: an entry with a smaller key comes
/// before one with a larger key, and of two entries with equal keys the
/// earlier one comes first.
pub proof fn lemma_rank_order(keys: Seq<usize>, i: int, j: int)
    requires
        0 <= i < keys.len(),
        0 <= j < keys.len(),
    ensures
        keys[i] < keys[j] ==> rank(keys, i) < rank(keys, j),
        keys[i] == keys[j] && i < j ==> rank(keys, i) < rank(keys, j),
{
    if keys[i] < keys[j] || (keys[i] == keys[j] && i < j) {
        lemma_count_grows(keys, i, j, keys.len() as int);
    }
}

/// Going down, the highlight is in slot `min(index, 3)` of the window: the
/// window scrolls only once the cursor would leave its lowest slot, and
/// goes back to the top after wrapping.  Going up, the window follows the
/// cursor upwards, and after wrapping to the last entry shows the end of
/// the list with the highlight in the last visible slot.
pub proof fn lemma_window_follows_cursor(index: int, top: int, len: int)
    requires
        0 <= top <= index < len,
        index < top + 4,
        top + visible_count(len) <= len,
    ensures
        ({
            let i = index_below(index, len);
            let t = top_below(i);
            &&& i - t == if i < 3 { i } else { 3 }
            &&& i == 0 ==> t == 0
        }),
        ({
            let i = index_above(index, len);
            let t = top_above(top, i, len);
            &&& index > 0 ==> t == if top <= i { top } else { i }
            &&& index == 0 ==> i == len - 1 && t + visible_count(len) == len && i - t
                == visible_count(len) - 1
        }),
{
}

} // verus!

//! Which terminal row each live bar is drawn on.
//!
//! Rows count down from the anchor (the cursor's line when the first bar was
//! drawn). A new bar takes the row below the lowest one in use; when a bar
//! closes, every bar below it slides up by one, so the live bars always fill
//! the rows `0..k` with no gap and no repeat.

use vstd::prelude::*;

verus! {

/// One live bar and the row it is drawn on.
#[derive(Debug, Clone, Copy, PartialEq, Eq)]
pub struct Slot {
    pub id: u64,
    pub row: u16,
}

/// The bookkeeping shared by all bars of a process: the id allocator, the row
/// of every live bar, and the cap on how many rows bars may use.
#[derive(Debug)]
pub struct Registry {
    /// The id the next bar will get.
    pub next_id: u64,
    /// The live bars, in the order they were created.
    pub positions: Vec<Slot>,
    /// Rows the bars may use, counting the row kept for the overflow marker;
    /// `0` means "as many as the terminal has".
    pub max_bars: u16,
}

impl View for Registry {
    /// The ids of the live bars; a bar's row is its index here.
    type V = Seq<u64>;

    open spec fn view(&self) -> Seq<u64> {
        self.positions@.map_values(|s: Slot| s.id)
    }
}

/// Rows that the bars may use: the cap when one is set, and never more than
/// the terminal has.
pub open spec fn rows_in_use(max_bars: u16, term_rows: u16) -> u16 {
    if max_bars != 0 && max_bars < term_rows {
        max_bars
    } else {
        term_rows
    }
}

impl Registry {
    /// Rows follow the order of creation with no gap, and ids are fresh.
    pub open spec fn wf(&self) -> bool {
        &&& forall|i: int| 0 <= i < self.positions@.len() ==> #[trigger] self.positions@[i].row == i
        &&& forall|i: int, j: int|
            0 <= i < j < self.positions@.len() ==> self.positions@[i].id
                < self.positions@[j].id
        &&& forall|i: int|
            0 <= i < self.positions@.len() ==> #[trigger] self.positions@[i].id < self.next_id
    }

    /// Another bar can get an id and a row.
    pub open spec fn has_room(&self) -> bool {
        self.positions@.len() < 65536 && self.next_id < u64::MAX
    }

    /// `id` is live and drawn on `row`.
    pub open spec fn at_row(&self, id: u64, row: int) -> bool {
        0 <= row < self@.len() && self@[row] == id
    }

    /// No bar yet, and no cap on the rows.
    pub fn new() -> (r: Registry)
        ensures
            r.wf(),
            r@ == Seq::<u64>::empty(),
            r.next_id == 0,
            r.max_bars == 0,
    {
        let r = Registry { next_id: 0, positions: Vec::new(), max_bars: 0 };
        assert(r@ =~= Seq::<u64>::empty());
        r
    }

    /// Registers a new bar: it gets the next id and the row below the lowest
    /// one in use (row `0` when no bar is live).
    pub fn next_free_pos(&mut self) -> (id: u64)
        requires
            old(self).wf(),
            old(self).has_room(),
        ensures
            final(self).wf(),
            id == old(self).next_id,
            final(self).next_id == id + 1,
            !old(self)@.contains(id),
            final(self)@ == old(self)@.push(id),
            final(self).at_row(id, old(self)@.len() as int),
            final(self).max_bars == old(self).max_bars,
    {
        let id = self.next_id;
        let mut next_row: u16 = 0;
        let mut i: usize = 0;
        while i < self.positions.len()
            invariant
                self.wf(),
                self.positions@.len() < 65536,
                i <= self.positions@.len(),
                next_row == i,
            decreases self.positions@.len() - i,
        {
            let row = self.positions[i].row;
            if row + 1 > next_row {
                next_row = row + 1;
            }
            i = i + 1;
        }
        let ghost before = *self;
        self.positions.push(Slot { id, row: next_row });
        self.next_id = id + 1;
        proof {
            assert(self@ =~= before@.push(id));
            if before@.contains(id) {
                let k = choose|k: int| 0 <= k < before@.len() && before@[k] == id;
                assert(before.positions@[k].id < before.next_id);
            }
        }
        id
    }

    /// The row of `id`, if it is live.
    pub fn position(&self, id: u64) -> (r: Option<u16>)
        requires
            self.wf(),
        ensures
            match r {
                Some(row) => self.at_row(id, row as int),
                None => !self@.contains(id),
            },
    {
        let mut i: usize = 0;
        while i < self.positions.len()
            invariant
                self.wf(),
                i <= self.positions@.len(),
                forall|j: int| 0 <= j < i ==> self@[j] != id,
            decreases self.positions@.len() - i,
        {
            if self.positions[i].id == id {
                return Some(self.positions[i].row);
            }
            i = i + 1;
        }
        None
    }

    /// No bar is live.
    pub fn is_finished(&self) -> (r: bool)
        ensures
            r == (self@.len() == 0),
    {
        self.positions.len() == 0
    }

    /// Removes the bar `id` and moves every bar below it one row up.
    pub fn reposition(&mut self, id: u64)
        requires
            old(self).wf(),
            old(self)@.contains(id),
        ensures
            final(self).wf(),
            forall|k: int| old(self).at_row(id, k) ==> final(self)@ == old(self)@.remove(k),
            final(self).next_id == old(self).next_id,
            final(self).max_bars == old(self).max_bars,
    {
        let ghost before = *self;
        let mut k: usize = 0;
        while k < self.positions.len() && self.positions[k].id != id
            invariant
                self.wf(),
                *self == before,
                k <= self.positions@.len(),
                forall|j: int| 0 <= j < k ==> self@[j] != id,
            decreases self.positions@.len() - k,
        {
            k = k + 1;
        }
        assert(k < self.positions@.len()) by {
            let w = choose|w: int| 0 <= w < before@.len() && before@[w] == id;
            assert(w >= k);
        }
        let closed_row = self.positions[k].row;
        self.positions.remove(k);
        let ghost ids = before@.remove(k as int);
        assert(self@ =~= ids);
        let mut i: usize = 0;
        while i < self.positions.len()
            invariant
                0 <= k <= self.positions@.len(),
                closed_row == k,
                i <= self.positions@.len(),
                self.positions@.len() == before.positions@.len() - 1,
                self@ == ids,
                self.next_id == before.next_id,
                self.max_bars == before.max_bars,
                forall|j: int| 0 <= j < i ==> #[trigger] self.positions@[j].row == j,
                forall|j: int|
                    i <= j < self.positions@.len() ==> #[trigger] self.positions@[j].row == if j
                        < k {
                        j
                    } else {
                        j + 1
                    },
            decreases self.positions@.len() - i,
        {
            let slot = self.positions[i];
            if slot.row > closed_row {
                self.positions.set(i, Slot { id: slot.id, row: slot.row - 1 });
                assert(self@ =~= ids);
            }
            i = i + 1;
        }
        proof {
            assert forall|a: int, b: int| 0 <= a < b < self.positions@.len() implies
                self.positions@[a].id < self.positions@[b].id by {
                assert(self.positions@[a].id == self@[a]);
                assert(self.positions@[b].id == self@[b]);
                let a0 = if a < k { a } else { a + 1 };
                let b0 = if b < k { b } else { b + 1 };
                assert(before@[a0] == before.positions@[a0].id);
                assert(before@[b0] == before.positions@[b0].id);
            }
            assert forall|a: int| 0 <= a < self.positions@.len() implies
                #[trigger] self.positions@[a].id < self.next_id by {
                assert(self.positions@[a].id == self@[a]);
                let a0 = if a < k { a } else { a + 1 };
                assert(before@[a0] == before.positions@[a0].id);
            }
            assert forall|w: int| before.at_row(id, w) implies self@ == before@.remove(w) by {
                if w != k {
                    let lo = if w < k { w } else { k as int };
                    let hi = if w < k { k as int } else { w };
                    assert(before.positions@[lo].id < before.positions@[hi].id);
                }
            }
        }
    }

    /// Rows that the bars may use on a terminal of `term_rows` rows.
    pub fn nrows(&self, term_rows: u16) -> (r: u16)
        ensures
            r == rows_in_use(self.max_bars, term_rows),
    {
        if self.max_bars != 0 {
            if self.max_bars < term_rows {
                self.max_bars
            } else {
                term_rows
            }
        } else {
            term_rows
        }
    }
}

/// Shows at most `nbars` bars at once; further bars hide behind a marker line.
/// Keeps room for at least one bar and the marker.
pub fn set_max_progress_bars(reg: &mut Registry, nbars: u16)
    ensures
        final(reg).max_bars == if nbars < 65535 {
            if nbars + 1 < 2 {
                2
            } else {
                nbars + 1
            }
        } else {
            65535
        },
        final(reg).next_id == old(reg).next_id,
        final(reg).positions == old(reg).positions,
{
    let nrows = nbars.saturating_add(1);
    reg.max_bars = if nrows < 2 {
        2
    } else {
        nrows
    };
}

/// A live bar has one row only.
pub proof fn lemma_row_unique(reg: Registry, id: u64, a: int, b: int)
    requires
        reg.wf(),
        reg.at_row(id, a),
        reg.at_row(id, b),
    ensures
        a == b,
{
    if a != b {
        let lo = if a < b { a } else { b };
        let hi = if a < b { b } else { a };
        assert(reg.positions@[lo].id < reg.positions@[hi].id);
    }
}

/// The live bars fill the rows `0..k` exactly, `k` being how many are live:
/// each has one row below `k`, no two share one, and no row below `k` is free.
pub proof fn lemma_rows_contiguous(reg: Registry)
    requires
        reg.wf(),
    ensures
        reg@.no_duplicates(),
        forall|id: u64| #[trigger]
            reg@.contains(id) ==> exists|r: int| 0 <= r < reg@.len() && reg.at_row(id, r),
        forall|r: int| 0 <= r < reg@.len() ==> reg.at_row(#[trigger] reg@[r], r),
        forall|i: int, j: int|
            0 <= i < j < reg.positions@.len() ==> reg.positions@[i].row
                != reg.positions@[j].row,
        forall|i: int| 0 <= i < reg.positions@.len() ==> #[trigger] reg.positions@[i].row < reg@.len(),
{
    assert forall|id: u64| #[trigger] reg@.contains(id) implies exists|r: int|
        0 <= r < reg@.len() && reg.at_row(id, r) by {
        let r = choose|r: int| 0 <= r < reg@.len() && reg@[r] == id;
        assert(reg.at_row(id, r));
    }
    assert forall|i: int, j: int| 0 <= i < reg@.len() && 0 <= j < reg@.len() && i != j implies
        reg@[i] != reg@[j] by {
        if reg@[i] == reg@[j] {
            lemma_row_unique(reg, reg@[i], i, j);
        }
    }
}

/// After bar `id` closes it is gone, the registry keeps its shape, and every
/// other bar keeps its row if it was above and moves up one row if it was
/// below: no row is repeated or skipped.
pub proof fn lemma_close_slides_up(before: Registry, after: Registry, id: u64, k: int)
    requires
        before.wf(),
        after.wf(),
        before.at_row(id, k),
        after@ == before@.remove(k),
    ensures
        !after@.contains(id),
        forall|j: int|
            0 <= j < before@.len() && j != k ==> after.at_row(
                #[trigger] before@[j],
                if j < k {
                    j
                } else {
                    j - 1
                },
            ),
{
    lemma_rows_contiguous(before);
    if after@.contains(id) {
        let w = choose|w: int| 0 <= w < after@.len() && after@[w] == id;
        let w0 = if w < k { w } else { w + 1 };
        assert(before@[w0] == id);
    }
}

} // verus!

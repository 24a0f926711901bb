//! Selection and scrolling over the entry grid. The selection moves row-major:
//! up and down step one row (one column stride), left and right stay within
//! their row. After every change the scroll offset is adjusted so the selected
//! row lies inside the visible window, and that containment is an invariant of
//! every operation here.
use vstd::prelude::*;

verus! {

use vstd::arithmetic::div_mod::lemma_div_non_zero;
use vstd::arithmetic::div_mod::lemma_div_nonincreasing;
use vstd::arithmetic::div_mod::lemma_div_pos_is_pos;
use vstd::arithmetic::div_mod::lemma_fundamental_div_mod;
use vstd::arithmetic::div_mod::lemma_fundamental_div_mod_converse;
use vstd::arithmetic::mul::lemma_mul_is_commutative;
use vstd::arithmetic::mul::lemma_mul_is_distributive_add_other_way;
use crate::entry::Entry;
use crate::layout::compute_num_cols;

/// A direction the selection can move in.
#[derive(Clone, Copy, PartialEq, Eq, Structural, Debug)]
pub enum Dir {
    Up,
    Down,
    Left,
    Right,
}

/// The grid row an index lies in.
pub open spec fn spec_row(sel: nat, cols: nat) -> nat
    recommends
        cols >= 1,
{
    sel / cols
}

/// The entry list with its cursor: which entry is selected, which row the
/// window starts at, and the grid shape the rows are counted in.
pub struct SelectionState {
    pub entries: Vec<Entry>,
    pub selected: usize,
    pub scroll_offset: usize,
    pub num_cols: usize,
    pub visible_rows: usize,
}

impl SelectionState {
    /// The invariant every public operation preserves: a valid grid shape,
    /// the selected index in `[0, max(1, entries.len()))`, and the selected
    /// row inside the visible window.
    pub open spec fn wf(self) -> bool {
        &&& self.entries@.len() <= usize::MAX
        &&& self.num_cols >= 1
        &&& self.visible_rows >= 1
        &&& (self.selected as nat) < if self.entries@.len() == 0 {
            1nat
        } else {
            self.entries@.len()
        }
        &&& self.scroll_offset <= spec_row(self.selected as nat, self.num_cols as nat)
        &&& spec_row(self.selected as nat, self.num_cols as nat) < self.scroll_offset
            + self.visible_rows
    }
}

/// The scroll offset after pulling the window over a row: unchanged when the
/// row is already visible, else moved the shortest way that shows it.
pub open spec fn spec_scroll_fix(row: nat, scroll: nat, visible: nat) -> nat
    recommends
        visible >= 1,
{
    if row < scroll {
        row
    } else if row >= scroll + visible {
        (row - visible + 1) as nat
    } else {
        scroll
    }
}

/// One move of the selection. A move that would leave the grid, leave the
/// row (for left/right), or pass the last entry does nothing.
pub open spec fn spec_move(st: SelectionState, d: Dir) -> SelectionState {
    let cols = st.num_cols as nat;
    match d {
        Dir::Up => {
            if st.selected >= st.num_cols {
                let s2 = (st.selected - st.num_cols) as usize;
                let row = spec_row(s2 as nat, cols);
                let o2 = if row < st.scroll_offset {
                    row as usize
                } else {
                    st.scroll_offset
                };
                SelectionState { selected: s2, scroll_offset: o2, ..st }
            } else {
                st
            }
        },
        Dir::Down => {
            if st.selected + st.num_cols < st.entries@.len() {
                let s2 = (st.selected + st.num_cols) as usize;
                let row = spec_row(s2 as nat, cols);
                let o2 = if row >= st.scroll_offset + st.visible_rows {
                    (row - st.visible_rows + 1) as usize
                } else {
                    st.scroll_offset
                };
                SelectionState { selected: s2, scroll_offset: o2, ..st }
            } else {
                st
            }
        },
        Dir::Left => {
            if st.selected > 0 && st.selected as nat % cols != 0 {
                SelectionState { selected: (st.selected - 1) as usize, ..st }
            } else {
                st
            }
        },
        Dir::Right => {
            if st.selected + 1 < st.entries@.len() && (st.selected + 1) as nat % cols != 0 {
                SelectionState { selected: (st.selected + 1) as usize, ..st }
            } else {
                st
            }
        },
    }
}

/// Stepping one column stride forward moves the row index up by one.
proof fn lemma_row_plus(sel: nat, cols: nat)
    requires
        cols >= 1,
    ensures
        (sel as int + cols as int) / (cols as int) == sel as int / (cols as int) + 1,
{
    let d = sel as int / cols as int;
    let r = sel as int % cols as int;
    lemma_fundamental_div_mod(sel as int, cols as int);
    lemma_mul_is_commutative(cols as int, d);
    lemma_mul_is_commutative(cols as int, d + 1);
    lemma_mul_is_distributive_add_other_way(cols as int, d, 1);
    lemma_fundamental_div_mod_converse(sel as int + cols as int, cols as int, d + 1, r);
}

/// Stepping one column stride back moves the row index down by one.
proof fn lemma_row_minus(sel: nat, cols: nat)
    requires
        cols >= 1,
        sel >= cols,
    ensures
        (sel as int - cols as int) / (cols as int) == sel as int / (cols as int) - 1,
        sel as int / (cols as int) >= 1,
{
    let d = sel as int / cols as int;
    let r = sel as int % cols as int;
    lemma_fundamental_div_mod(sel as int, cols as int);
    lemma_div_non_zero(sel as int, cols as int);
    lemma_mul_is_commutative(cols as int, d);
    lemma_mul_is_commutative(cols as int, d - 1);
    lemma_mul_is_distributive_add_other_way(cols as int, d - 1, 1);
    lemma_fundamental_div_mod_converse(sel as int - cols as int, cols as int, d - 1, r);
}

/// An index not at the start of its row shares the row with its predecessor.
proof fn lemma_row_same_left(sel: nat, cols: nat)
    requires
        cols >= 1,
        sel % cols != 0,
    ensures
        sel >= 1,
        (sel as int - 1) / (cols as int) == sel as int / (cols as int),
{
    let d = sel as int / cols as int;
    let r = sel as int % cols as int;
    lemma_fundamental_div_mod(sel as int, cols as int);
    lemma_mul_is_commutative(cols as int, d);
    lemma_fundamental_div_mod_converse(sel as int - 1, cols as int, d, r - 1);
}

/// An index whose successor is not at the start of a row shares the row with
/// that successor.
proof fn lemma_row_same_right(sel: nat, cols: nat)
    requires
        cols >= 1,
        (sel + 1) % cols != 0,
    ensures
        (sel as int + 1) / (cols as int) == sel as int / (cols as int),
{
    let d = sel as int / cols as int;
    let r = sel as int % cols as int;
    lemma_fundamental_div_mod(sel as int, cols as int);
    lemma_mul_is_commutative(cols as int, d);
    if r + 1 < cols {
        lemma_fundamental_div_mod_converse(sel as int + 1, cols as int, d, r + 1);
    } else {
        lemma_mul_is_commutative(cols as int, d + 1);
        lemma_mul_is_distributive_add_other_way(cols as int, d, 1);
        lemma_fundamental_div_mod_converse(sel as int + 1, cols as int, d + 1, 0);
    }
}

/// One move keeps the selection in bounds and the selected row visible.
pub proof fn lemma_move_preserves_wf(st: SelectionState, d: Dir)
    requires
        st.wf(),
    ensures
        spec_move(st, d).wf(),
{
    let cols = st.num_cols as nat;
    let sel = st.selected as nat;
    match d {
        Dir::Up => {
            if st.selected >= st.num_cols {
                lemma_row_minus(sel, cols);
                let s2 = (st.selected - st.num_cols) as int;
                lemma_div_nonincreasing(s2, cols as int);
                lemma_div_pos_is_pos(s2, cols as int);
                let res = spec_move(st, d);
                assert(res.selected == st.selected - st.num_cols);
                assert(spec_row(res.selected as nat, cols) == spec_row(sel, cols) - 1);
                assert(res.scroll_offset <= spec_row(res.selected as nat, cols));
                assert(spec_row(res.selected as nat, cols) < res.scroll_offset + res.visible_rows);
            }
        },
        Dir::Down => {
            if st.selected + st.num_cols < st.entries@.len() {
                lemma_row_plus(sel, cols);
                let s2 = (st.selected + st.num_cols) as int;
                lemma_div_nonincreasing(s2, cols as int);
                lemma_div_pos_is_pos(s2, cols as int);
                let res = spec_move(st, d);
                assert(res.selected == st.selected + st.num_cols);
                assert(spec_row(res.selected as nat, cols) == spec_row(sel, cols) + 1);
                assert(res.scroll_offset <= spec_row(res.selected as nat, cols));
                assert(spec_row(res.selected as nat, cols) < res.scroll_offset + res.visible_rows);
            }
        },
        Dir::Left => {
            if st.selected > 0 && sel % cols != 0 {
                lemma_row_same_left(sel, cols);
                let res = spec_move(st, d);
                assert(res.selected == st.selected - 1);
                assert(spec_row(res.selected as nat, cols) == spec_row(sel, cols));
                assert(res.scroll_offset <= spec_row(res.selected as nat, cols));
                assert(spec_row(res.selected as nat, cols) < res.scroll_offset + res.visible_rows);
            }
        },
        Dir::Right => {
            if st.selected + 1 < st.entries@.len() && (sel + 1) % cols != 0 {
                lemma_row_same_right(sel, cols);
                let res = spec_move(st, d);
                assert(res.selected == st.selected + 1);
                assert(spec_row(res.selected as nat, cols) == spec_row(sel, cols));
                assert(res.scroll_offset <= spec_row(res.selected as nat, cols));
                assert(spec_row(res.selected as nat, cols) < res.scroll_offset + res.visible_rows);
            }
        },
    }
}

/// A whole sequence of moves, applied in order.
pub open spec fn apply_moves(st: SelectionState, ds: Seq<Dir>) -> SelectionState
    decreases ds.len(),
{
    if ds.len() == 0 {
        st
    } else {
        apply_moves(spec_move(st, ds[0]), ds.drop_first())
    }
}

/// For every sequence of moves from a well-formed state, the selection stays
/// in `[0, max(1, entries.len()))` and the selected row stays inside the
/// visible scroll window — at the end and at every intermediate state.
pub proof fn lemma_moves_preserve_wf(st: SelectionState, ds: Seq<Dir>)
    requires
        st.wf(),
    ensures
        apply_moves(st, ds).wf(),
        forall|i: int| 0 <= i <= ds.len() ==> #[trigger] apply_moves(st, ds.take(i)).wf(),
    decreases ds.len(),
{
    if ds.len() == 0 {
        assert forall|i: int| 0 <= i <= ds.len() implies #[trigger] apply_moves(
            st,
            ds.take(i),
        ).wf() by {
            assert(ds.take(i) =~= Seq::<Dir>::empty());
        }
    } else {
        lemma_move_preserves_wf(st, ds[0]);
        lemma_moves_preserve_wf(spec_move(st, ds[0]), ds.drop_first());
        assert forall|i: int| 0 <= i <= ds.len() implies #[trigger] apply_moves(
            st,
            ds.take(i),
        ).wf() by {
            if i == 0 {
                assert(ds.take(0) =~= Seq::<Dir>::empty());
            } else {
                let dr = ds.drop_first();
                assert(ds.take(i).drop_first() =~= dr.take(i - 1));
                assert(apply_moves(st, ds.take(i)) == apply_moves(
                    spec_move(st, ds[0]),
                    dr.take(i - 1),
                ));
            }
        }
    }
}

impl SelectionState {
    /// A fresh selection over a new listing: cursor and scroll at the top,
    /// the column count derived from the viewport.
    pub fn from_entries(
        entries: Vec<Entry>,
        width: u16,
        avail_rows: usize,
        list_mode: bool,
    ) -> (st: SelectionState)
        ensures
            st.wf(),
            st.entries == entries,
            st.selected == 0,
            st.scroll_offset == 0,
            st.visible_rows == if avail_rows >= 1 {
                avail_rows as int
            } else {
                1int
            },
            list_mode ==> st.num_cols == 1,
            !list_mode ==> crate::layout::spec_is_best_cols(
                if entries@.len() >= 1 {
                    entries@.len()
                } else {
                    1nat
                },
                avail_rows as nat,
                crate::layout::spec_max_cols(width as nat),
                st.num_cols as nat,
            ),
    {
        let num_cols = compute_num_cols(entries.len(), width, avail_rows, list_mode);
        let visible_rows = if avail_rows >= 1 {
            avail_rows
        } else {
            1
        };
        SelectionState { entries, selected: 0, scroll_offset: 0, num_cols, visible_rows }
    }

    /// One move of the selection in a direction.
    pub fn move_dir(&mut self, d: Dir)
        requires
            old(self).wf(),
        ensures
            *final(self) == spec_move(*old(self), d),
            final(self).wf(),
    {
        proof {
            lemma_move_preserves_wf(*self, d);
        }
        let len = self.entries.len();
        match d {
            Dir::Up => {
                if self.selected >= self.num_cols {
                    self.selected = self.selected - self.num_cols;
                    let row = self.selected / self.num_cols;
                    if row < self.scroll_offset {
                        self.scroll_offset = row;
                    }
                }
            },
            Dir::Down => {
                if self.num_cols < len && self.selected < len - self.num_cols {
                    self.selected = self.selected + self.num_cols;
                    let row = self.selected / self.num_cols;
                    proof {
                        lemma_row_plus((old(self).selected) as nat, self.num_cols as nat);
                    }
                    if row >= self.scroll_offset && row - self.scroll_offset
                        >= self.visible_rows {
                        self.scroll_offset = row - (self.visible_rows - 1);
                    }
                }
            },
            Dir::Left => {
                if self.selected > 0 && self.selected % self.num_cols != 0 {
                    self.selected = self.selected - 1;
                }
            },
            Dir::Right => {
                if self.selected < len && len - self.selected > 1 && (self.selected + 1)
                    % self.num_cols != 0 {
                    self.selected = self.selected + 1;
                }
            },
        }
    }

    /// Moves one row up; refuses at the top row.
    pub fn select_up(&mut self)
        requires
            old(self).wf(),
        ensures
            *final(self) == spec_move(*old(self), Dir::Up),
            final(self).wf(),
    {
        self.move_dir(Dir::Up);
    }

    /// Moves one row down; refuses when the entry below is past the end.
    pub fn select_down(&mut self)
        requires
            old(self).wf(),
        ensures
            *final(self) == spec_move(*old(self), Dir::Down),
            final(self).wf(),
    {
        self.move_dir(Dir::Down);
    }

    /// Moves one entry left within the row; refuses at the row's start.
    pub fn select_left(&mut self)
        requires
            old(self).wf(),
        ensures
            *final(self) == spec_move(*old(self), Dir::Left),
            final(self).wf(),
    {
        self.move_dir(Dir::Left);
    }

    /// Moves one entry right within the row; refuses at the row's end and at
    /// the last entry.
    pub fn select_right(&mut self)
        requires
            old(self).wf(),
        ensures
            *final(self) == spec_move(*old(self), Dir::Right),
            final(self).wf(),
    {
        self.move_dir(Dir::Right);
    }

    /// Repeats a move: the jump variants step the base move `amount` times,
    /// stopping silently at boundaries.
    pub fn jump(&mut self, d: Dir, amount: usize)
        requires
            old(self).wf(),
        ensures
            *final(self) == spec_move_n(*old(self), d, amount as nat),
            final(self).wf(),
    {
        let mut i: usize = 0;
        while i < amount
            invariant
                i <= amount,
                self.wf(),
                *self == spec_move_n(*old(self), d, i as nat),
            decreases amount - i,
        {
            proof {
                lemma_move_n_snoc(*old(self), d, i as nat);
            }
            self.move_dir(d);
            i = i + 1;
        }
    }
}

/// A move repeated `n` times.
pub open spec fn spec_move_n(st: SelectionState, d: Dir, n: nat) -> SelectionState
    decreases n,
{
    if n == 0 {
        st
    } else {
        spec_move_n(spec_move(st, d), d, (n - 1) as nat)
    }
}

/// Repeating a move `n + 1` times is repeating it `n` times, then once more.
proof fn lemma_move_n_snoc(st: SelectionState, d: Dir, n: nat)
    ensures
        spec_move_n(st, d, n + 1) == spec_move(spec_move_n(st, d, n), d),
    decreases n,
{
    if n == 0 {
        assert(spec_move_n(st, d, 1) == spec_move_n(spec_move(st, d), d, 0));
    } else {
        lemma_move_n_snoc(spec_move(st, d), d, (n - 1) as nat);
        assert(spec_move_n(st, d, n + 1) == spec_move_n(spec_move(st, d), d, n));
        assert(spec_move_n(st, d, n) == spec_move_n(spec_move(st, d), d, (n - 1) as nat));
    }
}


impl SelectionState {
    /// Pulls the window over the selected row; a row already shown leaves
    /// the window alone (see `lemma_scroll_fix_idempotent`).
    pub fn scroll_into_view(&mut self)
        requires
            old(self).entries@.len() <= usize::MAX,
            old(self).num_cols >= 1,
            old(self).visible_rows >= 1,
            (old(self).selected as nat) < if old(self).entries@.len() == 0 {
                1nat
            } else {
                old(self).entries@.len()
            },
        ensures
            final(self).wf(),
            final(self).entries == old(self).entries,
            final(self).selected == old(self).selected,
            final(self).num_cols == old(self).num_cols,
            final(self).visible_rows == old(self).visible_rows,
            final(self).scroll_offset == spec_scroll_fix(
                spec_row(old(self).selected as nat, old(self).num_cols as nat),
                old(self).scroll_offset as nat,
                old(self).visible_rows as nat,
            ),
    {
        let row = self.selected / self.num_cols;
        proof {
            lemma_div_nonincreasing(self.selected as int, self.num_cols as int);
            lemma_div_pos_is_pos(self.selected as int, self.num_cols as int);
        }
        if row < self.scroll_offset {
            self.scroll_offset = row;
        } else if row - self.scroll_offset >= self.visible_rows {
            self.scroll_offset = row - (self.visible_rows - 1);
        }
    }

    /// Places the cursor on an index and pulls the window over its row.
    pub fn set_selected(&mut self, idx: usize)
        requires
            old(self).wf(),
            (idx as nat) < if old(self).entries@.len() == 0 {
                1nat
            } else {
                old(self).entries@.len()
            },
        ensures
            final(self).wf(),
            final(self).entries == old(self).entries,
            final(self).selected == idx,
            final(self).num_cols == old(self).num_cols,
            final(self).visible_rows == old(self).visible_rows,
            final(self).scroll_offset == spec_scroll_fix(
                spec_row(idx as nat, old(self).num_cols as nat),
                old(self).scroll_offset as nat,
                old(self).visible_rows as nat,
            ),
    {
        self.selected = idx;
        self.scroll_into_view();
    }

    /// Reshapes the grid to a viewport: the column count is derived anew,
    /// the cursor is clamped to the listing, and the window is pulled over
    /// its row.
    pub fn set_layout(&mut self, width: u16, avail_rows: usize, list_mode: bool)
        requires
            old(self).wf(),
        ensures
            final(self).wf(),
            final(self).entries == old(self).entries,
            final(self).visible_rows == if avail_rows >= 1 {
                avail_rows as int
            } else {
                1int
            },
            list_mode ==> final(self).num_cols == 1,
            !list_mode ==> crate::layout::spec_is_best_cols(
                if old(self).entries@.len() >= 1 {
                    old(self).entries@.len()
                } else {
                    1nat
                },
                avail_rows as nat,
                crate::layout::spec_max_cols(width as nat),
                final(self).num_cols as nat,
            ),
            final(self).selected == if old(self).entries@.len() == 0 {
                0int
            } else if old(self).selected < old(self).entries@.len() {
                old(self).selected as int
            } else {
                old(self).entries@.len() - 1
            },
            final(self).scroll_offset == spec_scroll_fix(
                spec_row(final(self).selected as nat, final(self).num_cols as nat),
                old(self).scroll_offset as nat,
                final(self).visible_rows as nat,
            ),
    {
        self.num_cols = compute_num_cols(self.entries.len(), width, avail_rows, list_mode);
        self.visible_rows = if avail_rows >= 1 {
            avail_rows
        } else {
            1
        };
        let len = self.entries.len();
        if len == 0 {
            self.selected = 0;
        } else if self.selected >= len {
            self.selected = len - 1;
        }
        self.scroll_into_view();
    }
}

/// Pulling the window over a row it already shows changes nothing: the
/// scroll fix is idempotent.
pub proof fn lemma_scroll_fix_idempotent(row: nat, scroll: nat, visible: nat)
    requires
        visible >= 1,
    ensures
        spec_scroll_fix(row, spec_scroll_fix(row, scroll, visible), visible) == spec_scroll_fix(
            row,
            scroll,
            visible,
        ),
{
}

} // verus!

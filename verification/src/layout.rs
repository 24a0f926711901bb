//! Adaptive grid layout: given an entry count and a viewport, choose a column
//! count. List mode always uses one column. Grid mode fits cells of a fixed
//! width and prefers the column count whose grid is closest to square among
//! those whose rows fit the viewport, breaking ties toward fewer columns.
use vstd::prelude::*;

verus! {

use vstd::arithmetic::div_mod::lemma_div_is_ordered_by_denominator;
use vstd::arithmetic::div_mod::lemma_fundamental_div_mod;
use vstd::arithmetic::div_mod::lemma_fundamental_div_mod_converse;
use vstd::arithmetic::mul::lemma_mul_is_commutative;
use vstd::arithmetic::mul::lemma_mul_is_distributive_add_other_way;

/// Width of one grid cell: a 20-character name plus a 2-character prefix.
pub const CELL_WIDTH: usize = 22;

/// Greatest number of whole cells that fit across the viewport, at least 1.
pub open spec fn spec_max_cols(width: nat) -> nat {
    if width / (CELL_WIDTH as nat) >= 1 {
        width / (CELL_WIDTH as nat)
    } else {
        1
    }
}

/// Rows a grid of `c` columns needs for `n` entries: `n / c` rounded up.
pub open spec fn spec_rows_needed(n: nat, c: nat) -> nat
    recommends
        c >= 1,
{
    (((n + c - 1) / (c as int)) as nat)
}

/// A column count fits when its rows stay within the viewport's row budget.
pub open spec fn spec_fits(n: nat, c: nat, avail: nat) -> bool {
    spec_rows_needed(n, c) <= avail
}

/// Distance of a grid of `c` columns from a square: `|c - rows_needed|`.
pub open spec fn spec_score(n: nat, c: nat) -> nat {
    if c >= spec_rows_needed(n, c) {
        (c - spec_rows_needed(n, c)) as nat
    } else {
        (spec_rows_needed(n, c) - c) as nat
    }
}

/// Least `r` in `[lo, m]` with `r * r >= n`, or `m` when there is none.
pub open spec fn spec_least_root_from(n: nat, lo: nat, m: nat) -> nat
    decreases m - lo,
{
    if lo >= m {
        m
    } else if lo * lo >= n {
        lo
    } else {
        spec_least_root_from(n, lo + 1, m)
    }
}

/// The ideal starting column count: `ceil(sqrt(n))`, clamped to `[1, m]`.
pub open spec fn spec_clamped_ideal(n: nat, m: nat) -> nat {
    spec_least_root_from(n, 1, m)
}

/// The chosen grid column count: the fitting `c` in `[1, max_cols]` with the
/// least score, ties toward the smaller `c`; the clamped ideal when nothing
/// fits.
pub open spec fn spec_is_best_cols(n: nat, avail: nat, m: nat, c: nat) -> bool {
    &&& 1 <= c <= m
    &&& if exists|k: nat| 1 <= k <= m && spec_fits(n, k, avail) {
        &&& spec_fits(n, c, avail)
        &&& forall|k: nat|
            1 <= k <= m && spec_fits(n, k, avail) ==> spec_score(n, c) < spec_score(n, k) || (
            spec_score(n, c) == spec_score(n, k) && c <= k)
    } else {
        c == spec_clamped_ideal(n, m)
    }
}

/// `n / c` rounded up equals `n / c` plus one more row for a remainder.
proof fn lemma_ceil_div(n: nat, c: nat)
    requires
        c >= 1,
    ensures
        spec_rows_needed(n, c) == n / c + if n % c == 0 {
            0int
        } else {
            1int
        },
{
    let d = n as int / c as int;
    let r = n as int % c as int;
    lemma_fundamental_div_mod(n as int, c as int);
    lemma_mul_is_commutative(c as int, d);
    lemma_mul_is_commutative(c as int, d + 1);
    if r == 0 {
        lemma_fundamental_div_mod_converse(n + c - 1, c as int, d, c - 1);
    } else {
        lemma_mul_is_distributive_add_other_way(c as int, d, 1);
        lemma_fundamental_div_mod_converse(n + c - 1, c as int, d + 1, r - 1);
    }
}

/// Rows needed, computed without overflow.
pub fn rows_needed(n: usize, c: usize) -> (r: usize)
    requires
        1 <= c,
    ensures
        r == spec_rows_needed(n as nat, c as nat),
{
    proof {
        lemma_ceil_div(n as nat, c as nat);
    }
    let q = n / c;
    if n % c == 0 {
        q
    } else {
        proof {
            assert(c >= 2) by {
                if c == 1 {
                    lemma_fundamental_div_mod_converse(n as int, 1, n as int, 0);
                }
            }
            assert(n as int / c as int <= n as int / 2) by {
                lemma_div_is_ordered_by_denominator(n as int, 2, c as int);
            }
        }
        q + 1
    }
}

/// Whether `i * i` still falls short of `n`, with `i` small enough that the
/// square cannot overflow.
fn sq_below(i: usize, n: usize) -> (b: bool)
    requires
        i <= 3000,
    ensures
        b <==> (i as int) * (i as int) < (n as int),
{
    proof {
        assert(i as int * i as int <= 3000int * 3000int) by (nonlinear_arith)
            requires
                i <= 3000,
        ;
    }
    i * i < n
}

/// Least `r` in `[1, m]` whose square reaches `n` (the ceiling of the square
/// root, clamped to `[1, m]`); `m` when even `m * m` falls short.
fn clamped_ceil_sqrt(n: usize, m: usize) -> (r: usize)
    requires
        1 <= m <= 3000,
    ensures
        r == spec_clamped_ideal(n as nat, m as nat),
        1 <= r <= m,
{
    let mut i: usize = 1;
    while i < m && sq_below(i, n)
        invariant
            1 <= i <= m <= 3000,
            spec_clamped_ideal(n as nat, m as nat) == spec_least_root_from(
                n as nat,
                i as nat,
                m as nat,
            ),
        decreases m - i,
    {
        i = i + 1;
    }
    i
}

/// Column count for the grid: search every `c` in `[1, max_cols]`, keep the
/// fitting one closest to square (first wins ties), fall back to the clamped
/// ideal when no column count fits the row budget.
pub fn grid_cols(n: usize, width: u16, available_rows: usize) -> (c: usize)
    requires
        n >= 1,
    ensures
        spec_is_best_cols(n as nat, available_rows as nat, spec_max_cols(width as nat), c as nat),
{
    let m = if (width as usize) / CELL_WIDTH >= 1 {
        (width as usize) / CELL_WIDTH
    } else {
        1
    };
    assert(m == spec_max_cols(width as nat));
    assert(m <= 3000) by {
        assert(width as nat / (CELL_WIDTH as nat) <= 65535nat / 22);
    }
    let ideal = clamped_ceil_sqrt(n, m);
    let mut best_cols: usize = ideal;
    let mut best_score: usize = usize::MAX;
    let mut c: usize = 1;
    while c <= m
        invariant
            1 <= c <= m + 1,
            m == spec_max_cols(width as nat),
            m <= 3000,
            n >= 1,
            ideal == spec_clamped_ideal(n as nat, m as nat),
            1 <= ideal <= m,
            1 <= best_cols <= m,
            if exists|k: nat| 1 <= k < c && spec_fits(n as nat, k, available_rows as nat) {
                &&& spec_fits(n as nat, best_cols as nat, available_rows as nat)
                &&& best_cols < c
                &&& best_score == spec_score(n as nat, best_cols as nat)
                &&& best_score < usize::MAX
                &&& forall|k: nat|
                    1 <= k < c && spec_fits(n as nat, k, available_rows as nat) ==> best_score
                        < spec_score(n as nat, k) || (best_score == spec_score(n as nat, k)
                        && best_cols <= k)
            } else {
                best_cols == ideal && best_score == usize::MAX
            },
        decreases m + 1 - c,
    {
        let rows = rows_needed(n, c);
        proof {
            assert(spec_rows_needed(n as nat, c as nat) >= 1) by {
                lemma_ceil_div(n as nat, c as nat);
                if n as nat / c as nat == 0 {
                    lemma_fundamental_div_mod(n as int, c as int);
                }
            }
        }
        if rows <= available_rows {
            let score = if c > rows {
                c - rows
            } else {
                rows - c
            };
            assert(score < usize::MAX);
            assert(score == spec_score(n as nat, c as nat));
            if score < best_score {
                best_score = score;
                best_cols = c;
            }
            proof {
                let cw = c as nat;
                assert(1 <= cw < (c + 1) as nat && spec_fits(n as nat, cw, available_rows as nat));
                assert(exists|k: nat|
                    1 <= k < (c + 1) as nat && spec_fits(n as nat, k, available_rows as nat));
            }
        } else {
            proof {
                assert(!spec_fits(n as nat, c as nat, available_rows as nat));
                assert forall|k: nat|
                    1 <= k < (c + 1) as nat && spec_fits(
                        n as nat,
                        k,
                        available_rows as nat,
                    ) implies 1 <= k < c as nat && spec_fits(
                    n as nat,
                    k,
                    available_rows as nat,
                ) by {
                    if k == c as nat {
                        assert(false);
                    }
                }
            }
        }
        c = c + 1;
    }
    best_cols
}

/// Column count for the browser: one column in list mode, the square-seeking
/// search in grid mode. An empty listing is laid out as a single cell.
pub fn compute_num_cols(num_entries: usize, width: u16, available_rows: usize, list_mode: bool) -> (
    c: usize)
    ensures
        list_mode ==> c == 1,
        !list_mode ==> spec_is_best_cols(
            if num_entries >= 1 {
                num_entries as nat
            } else {
                1nat
            },
            available_rows as nat,
            spec_max_cols(width as nat),
            c as nat,
        ),
        c >= 1,
{
    if list_mode {
        1
    } else {
        let n = if num_entries >= 1 {
            num_entries
        } else {
            1
        };
        grid_cols(n, width, available_rows)
    }
}

/// Rows left for content once the header and footer are taken out.
pub fn available_rows(height: u16, start_row: u16) -> (r: usize)
    ensures
        r == if height as int - start_row as int - 2 >= 0 {
            height as int - start_row as int - 2
        } else {
            0int
        },
{
    let below = if height as usize >= start_row as usize {
        height as usize - start_row as usize
    } else {
        0
    };
    if below >= 2 {
        below - 2
    } else {
        0
    }
}

} // verus!

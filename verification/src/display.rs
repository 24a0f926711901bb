//! What the renderer draws, computed as plain values: display names with
//! their truncation mark, the highlighted prefix length of a fuzzy match,
//! the visible row window, the preview split line, relative ages and
//! permission strings for the list info column, and the totals of a
//! directory preview. Turning these into escape sequences is the terminal
//! shell's work, not this crate's.
use vstd::prelude::*;

verus! {

use crate::bytes::clone_bytes;
use crate::entry::Entry;
use crate::fuzzy::spec_name_matches;
use crate::fuzzy::name_matches;

/// The width of a grid cell's name column.
pub const NAME_WIDTH: usize = 20;

/// The display name of an entry: directories may carry a trailing slash,
/// and a name over the column width is cut to one less and marked with a
/// trailing tilde (only in grid mode or when an info column follows).
pub open spec fn spec_display_name(
    name: Seq<u8>,
    is_dir: bool,
    show_dir_slash: bool,
    truncate: bool,
) -> Seq<u8> {
    let full = if is_dir && show_dir_slash {
        name + seq![47u8]
    } else {
        name
    };
    if truncate && full.len() > NAME_WIDTH {
        full.take(NAME_WIDTH as int - 1) + seq![126u8]
    } else {
        full
    }
}

/// The display name of an entry.
pub fn display_name(e: &Entry, show_dir_slash: bool, truncate: bool) -> (r: Vec<u8>)
    ensures
        r@ == spec_display_name(e.name@, e.is_dir, show_dir_slash, truncate),
{
    let mut full = clone_bytes(&e.name);
    if e.is_dir && show_dir_slash {
        full.push(47);
    }
    proof {
        if e.is_dir && show_dir_slash {
            assert(full@ =~= e.name@ + seq![47u8]);
        }
    }
    if truncate && full.len() > NAME_WIDTH {
        let mut cut: Vec<u8> = Vec::new();
        let mut i: usize = 0;
        while i < NAME_WIDTH - 1
            invariant
                i <= NAME_WIDTH - 1 < full@.len(),
                cut@ == full@.subrange(0, i as int),
            decreases NAME_WIDTH - 1 - i,
        {
            cut.push(full[i]);
            proof {
                assert(full@.subrange(0, i as int).push(full@[i as int]) =~= full@.subrange(
                    0,
                    i as int + 1,
                ));
            }
            i = i + 1;
        }
        cut.push(126);
        proof {
            assert(cut@ =~= full@.take(NAME_WIDTH as int - 1) + seq![126u8]);
        }
        cut
    } else {
        full
    }
}

/// How many leading bytes of a display name the fuzzy highlight covers:
/// the query's length, bounded by the display name, when fuzzy find is
/// active with a non-empty query that matches the entry; zero otherwise.
pub open spec fn spec_highlight_len(
    query: Seq<u8>,
    name: Seq<u8>,
    display_len: nat,
    fuzzy_active: bool,
    case_sensitive: bool,
) -> nat {
    if fuzzy_active && query.len() > 0 && spec_name_matches(query, name, case_sensitive) {
        if query.len() <= display_len {
            query.len()
        } else {
            display_len
        }
    } else {
        0nat
    }
}

/// The highlighted prefix length of one entry.
pub fn highlight_len(
    query: &Vec<u8>,
    name: &Vec<u8>,
    display_len: usize,
    fuzzy_active: bool,
    case_sensitive: bool,
) -> (r: usize)
    ensures
        r == spec_highlight_len(query@, name@, display_len as nat, fuzzy_active, case_sensitive),
{
    if fuzzy_active && query.len() > 0 && name_matches(query, name, case_sensitive) {
        if query.len() <= display_len {
            query.len()
        } else {
            display_len
        }
    } else {
        0
    }
}

/// The window of grid rows the viewport shows: from the scroll offset to
/// the end of the viewport or of the listing, whichever comes first.
pub fn row_window(
    num_entries: usize,
    num_cols: usize,
    scroll_offset: usize,
    max_display_rows: usize,
) -> (r: (usize, usize))
    requires
        num_cols >= 1,
    ensures
        r.0 == scroll_offset,
        ({
            let total = crate::layout::spec_rows_needed(num_entries as nat, num_cols as nat);
            r.1 == if scroll_offset + max_display_rows <= total {
                scroll_offset + max_display_rows
            } else {
                total as int
            }
        }),
{
    let total = crate::layout::rows_needed(num_entries, num_cols);
    let end = if max_display_rows <= total && scroll_offset <= total - max_display_rows {
        scroll_offset + max_display_rows
    } else {
        total
    };
    (scroll_offset, end)
}

/// The screen row where the preview pane begins: the content area below the
/// start row is split so the preview takes its configured percentage.
pub fn preview_split_line(height: u16, start_row: u16, percent: u8) -> (r: u16)
    requires
        start_row <= height,
        percent <= 100,
    ensures
        r == start_row + ((height - start_row) as int * (100 - percent) / 100),
        start_row <= r <= height,
{
    let span = (height - start_row) as u32;
    proof {
        assert(span as int * ((100 - percent) as int) <= 65535int * 100) by (nonlinear_arith)
            requires
                span <= 65535,
                percent <= 100,
        ;
    }
    let scaled = span * ((100 - percent) as u32) / 100;
    proof {
        assert(scaled <= span) by {
            assert(span * ((100 - percent) as u32) <= span * 100) by (nonlinear_arith)
                requires
                    percent <= 100,
            ;
            assert(span * 100u32 / 100 == span) by (nonlinear_arith);
            vstd::arithmetic::div_mod::lemma_div_is_ordered(
                span as int * ((100 - percent) as int),
                span as int * 100,
                100,
            );
        }
    }
    start_row + (scaled as u16)
}

/// How the list info column shows an entry's age. Fresh entries (or all of
/// them, verbosely) show a relative count in the largest unit that fits;
/// older ones show a month and a two-digit year read from the timestamp.
#[derive(Clone, Copy, PartialEq, Eq, Structural, Debug)]
pub enum AgeDisplay {
    Seconds(u64),
    Minutes(u64),
    Hours(u64),
    Days(u64),
    Months(u64),
    Years(u64),
    MonthYear { month_idx: u64, year2: u64 },
}

/// Roughly three months, in seconds.
pub const THREE_MONTHS_SECS: u64 = 7776000;

/// The age bucket of an entry: by elapsed seconds when recent or verbose,
/// else month and year derived from the modification timestamp with the
/// calendar approximated by 365-day years and 30-day months.
pub open spec fn spec_age_display(elapsed: u64, timestamp: u64, verbose: bool) -> AgeDisplay {
    if verbose || elapsed < THREE_MONTHS_SECS {
        if elapsed < 60 {
            AgeDisplay::Seconds(elapsed)
        } else if elapsed < 3600 {
            AgeDisplay::Minutes((elapsed as int / 60) as u64)
        } else if elapsed < 86400 {
            AgeDisplay::Hours((elapsed as int / 3600) as u64)
        } else if elapsed < 2592000 {
            AgeDisplay::Days((elapsed as int / 86400) as u64)
        } else if elapsed < 31536000 {
            AgeDisplay::Months((elapsed as int / 2592000) as u64)
        } else {
            AgeDisplay::Years((elapsed as int / 31536000) as u64)
        }
    } else {
        let days = timestamp as int / 86400;
        let year = 1970 + days / 365;
        let day_in_year = days % 365;
        let month = if day_in_year / 30 < 11 {
            day_in_year / 30
        } else {
            11int
        };
        AgeDisplay::MonthYear { month_idx: month as u64, year2: (year % 100) as u64 }
    }
}

/// The age bucket of an entry.
pub fn age_display(elapsed: u64, timestamp: u64, verbose: bool) -> (r: AgeDisplay)
    ensures
        r == spec_age_display(elapsed, timestamp, verbose),
{
    if verbose || elapsed < THREE_MONTHS_SECS {
        if elapsed < 60 {
            AgeDisplay::Seconds(elapsed)
        } else if elapsed < 3600 {
            AgeDisplay::Minutes(elapsed / 60)
        } else if elapsed < 86400 {
            AgeDisplay::Hours(elapsed / 3600)
        } else if elapsed < 2592000 {
            AgeDisplay::Days(elapsed / 86400)
        } else if elapsed < 31536000 {
            AgeDisplay::Months(elapsed / 2592000)
        } else {
            AgeDisplay::Years(elapsed / 31536000)
        }
    } else {
        let days = timestamp / 86400;
        let year = 1970 + days / 365;
        let day_in_year = days % 365;
        let month = if day_in_year / 30 < 11 {
            day_in_year / 30
        } else {
            11
        };
        AgeDisplay::MonthYear { month_idx: month, year2: year % 100 }
    }
}

/// The nine permission characters of a mode word: read, write and execute
/// for owner, group and others, a dash where the bit is off.
pub open spec fn spec_perm_char(mode: u32, bit: u32, c: u8) -> u8 {
    if mode & bit != 0 {
        c
    } else {
        45u8
    }
}

/// The `rwxrwxrwx` string of a mode word.
pub fn perm_chars(mode: u32) -> (r: Vec<u8>)
    ensures
        r@.len() == 9,
        r@[0] == spec_perm_char(mode, 0x100, 114),
        r@[1] == spec_perm_char(mode, 0x80, 119),
        r@[2] == spec_perm_char(mode, 0x40, 120),
        r@[3] == spec_perm_char(mode, 0x20, 114),
        r@[4] == spec_perm_char(mode, 0x10, 119),
        r@[5] == spec_perm_char(mode, 0x8, 120),
        r@[6] == spec_perm_char(mode, 0x4, 114),
        r@[7] == spec_perm_char(mode, 0x2, 119),
        r@[8] == spec_perm_char(mode, 0x1, 120),
{
    let mut r: Vec<u8> = Vec::new();
    r.push(if mode & 0x100 != 0 {
        114
    } else {
        45
    });
    r.push(if mode & 0x80 != 0 {
        119
    } else {
        45
    });
    r.push(if mode & 0x40 != 0 {
        120
    } else {
        45
    });
    r.push(if mode & 0x20 != 0 {
        114
    } else {
        45
    });
    r.push(if mode & 0x10 != 0 {
        119
    } else {
        45
    });
    r.push(if mode & 0x8 != 0 {
        120
    } else {
        45
    });
    r.push(if mode & 0x4 != 0 {
        114
    } else {
        45
    });
    r.push(if mode & 0x2 != 0 {
        119
    } else {
        45
    });
    r.push(if mode & 0x1 != 0 {
        120
    } else {
        45
    });
    r
}

/// The number of directories in a child listing.
pub open spec fn spec_dir_count(kinds: Seq<bool>) -> nat
    decreases kinds.len(),
{
    if kinds.len() == 0 {
        0nat
    } else {
        spec_dir_count(kinds.drop_last()) + if kinds.last() {
            1nat
        } else {
            0nat
        }
    }
}

/// The sum of the child sizes, saturating at the largest value.
pub open spec fn spec_size_sum(sizes: Seq<u64>) -> nat
    decreases sizes.len(),
{
    if sizes.len() == 0 {
        0nat
    } else {
        let rest = spec_size_sum(sizes.drop_last());
        if rest + sizes.last() <= u64::MAX {
            (rest + sizes.last()) as nat
        } else {
            u64::MAX as nat
        }
    }
}

/// The totals of a directory preview: how many children are directories,
/// how many are files, and their combined size (a directory's own size
/// already computed recursively by the caller), saturating on overflow.
pub fn dir_preview_totals(kinds: &Vec<bool>, sizes: &Vec<u64>) -> (r: (usize, usize, u64))
    requires
        kinds@.len() == sizes@.len(),
    ensures
        r.0 == spec_dir_count(kinds@),
        r.0 + r.1 == kinds@.len(),
        r.2 == spec_size_sum(sizes@),
{
    let mut dirs: usize = 0;
    let mut total: u64 = 0;
    let mut i: usize = 0;
    while i < kinds.len()
        invariant
            i <= kinds@.len() == sizes@.len(),
            dirs == spec_dir_count(kinds@.take(i as int)),
            dirs <= i,
            total == spec_size_sum(sizes@.take(i as int)),
        decreases kinds@.len() - i,
    {
        proof {
            assert(kinds@.take(i as int + 1).drop_last() =~= kinds@.take(i as int));
            assert(sizes@.take(i as int + 1).drop_last() =~= sizes@.take(i as int));
        }
        if kinds[i] {
            dirs = dirs + 1;
        }
        let s = sizes[i];
        if total <= u64::MAX - s {
            total = total + s;
        } else {
            total = u64::MAX;
        }
        i = i + 1;
    }
    proof {
        assert(kinds@.take(kinds@.len() as int) =~= kinds@);
        assert(sizes@.take(sizes@.len() as int) =~= sizes@);
    }
    (dirs, kinds.len() - dirs, total)
}

} // verus!

//! The browsing engine's state and its transitions: the mode machine
//! (normal, help overlay, fuzzy find), transactional directory reloads, the
//! fuzzy-typing flow with auto-navigation on a unique match, clipboard and
//! selection upkeep around file operations, and the preview toggles. All
//! filesystem reads arrive here as plain values; a failed reload restores
//! the previous state untouched and records which error to show.
use vstd::prelude::*;

verus! {

use crate::bytes::clone_bytes;
use crate::config::ColorConfig;
use crate::config::Config;
use crate::config::Keybindings;
use crate::config::Settings;
use crate::entry::Entry;
use crate::entry::build_entries;
use crate::entry::models;
use crate::entry::sorted_entries;
use crate::entry::spec_keeps;
use crate::fuzzy::fuzzy_match;
use crate::fuzzy::pop_char;
use crate::fuzzy::spec_match_count;
use crate::fuzzy::spec_name_matches;
use crate::fuzzy::spec_pop_char;
use crate::layout::available_rows;
use crate::path::spec_join;
use crate::path::join_path;
use crate::preview::PathMap;
use crate::preview::PreviewState;
use crate::selection::Dir;
use crate::selection::SelectionState;
use crate::undo::UndoLog;

/// The input mode: normal browsing, the help overlay, or incremental fuzzy
/// find with its query and bookkeeping.
pub enum Mode {
    Normal,
    Help,
    FuzzyFind { query: Vec<u8>, jump_on_unique: bool, prev_match_count: usize },
}

/// The query of a fuzzy-find mode; empty outside it.
pub open spec fn spec_fuzzy_query(m: Mode) -> Seq<u8> {
    match m {
        Mode::FuzzyFind { query, .. } => query@,
        _ => Seq::empty(),
    }
}

/// The previous match count of a fuzzy-find mode; zero outside it.
pub open spec fn spec_fuzzy_prev(m: Mode) -> int {
    match m {
        Mode::FuzzyFind { prev_match_count, .. } => prev_match_count as int,
        _ => 0int,
    }
}

/// Whether a fuzzy-find mode exits after acting on a unique match.
pub open spec fn spec_fuzzy_jump(m: Mode) -> bool {
    match m {
        Mode::FuzzyFind { jump_on_unique, .. } => jump_on_unique,
        _ => false,
    }
}

/// The kind of filesystem error a reload can surface.
#[derive(Clone, Copy, PartialEq, Eq, Structural, Debug)]
pub enum FsErrorKind {
    PermissionDenied,
    NotFound,
    Other,
}

/// What opening the selected entry means: nothing in an empty directory,
/// entering a subdirectory, or handing a file path out.
pub enum OpenOutcome {
    Nothing,
    EnterDir(Vec<u8>),
    OpenFile(Vec<u8>),
}

/// What a typed fuzzy character led to: staying in the mode, or a unique
/// match to open now.
#[derive(Clone, Copy, PartialEq, Eq, Structural, Debug)]
pub enum FuzzyOutcome {
    Stay,
    AutoOpen,
}

/// The whole browsing state.
pub struct Browser {
    pub current_dir: Vec<u8>,
    pub sel: SelectionState,
    pub mode: Mode,
    pub list_mode: bool,
    pub list_info_mode: u8,
    pub show_line_numbers: bool,
    pub preview_mode: bool,
    pub show_hidden: bool,
    pub show_dir_slash: bool,
    pub preview_split_percent: u8,
    pub clipboard: Option<Vec<u8>>,
    pub log: UndoLog,
    pub preview_cache: PathMap<PreviewState>,
    pub preview_scroll: PathMap<usize>,
    pub dir_sizes: PathMap<u64>,
    pub calculating_sizes: bool,
    pub show_created_date: bool,
    pub keybindings: Keybindings,
    pub colors: ColorConfig,
    pub settings: Settings,
    pub config_error: Option<String>,
    pub error: Option<FsErrorKind>,
}

impl Browser {
    /// The invariant every operation preserves.
    pub open spec fn wf(self) -> bool {
        &&& self.sel.wf()
        &&& self.list_info_mode < 4
        &&& self.preview_cache.wf()
        &&& self.preview_scroll.wf()
        &&& self.dir_sizes.wf()
    }

    /// A fresh browser over an empty listing; the first reload fills it.
    /// The help overlay shows on a first run.
    pub fn new(
        config: Config,
        start_dir: Vec<u8>,
        width: u16,
        height: u16,
        start_row: u16,
        show_help: bool,
        preview_split_percent: u8,
        config_error: Option<String>,
    ) -> (b: Browser)
        ensures
            b.wf(),
            b.current_dir == start_dir,
            b.sel.entries@.len() == 0,
            b.sel.selected == 0,
            b.sel.scroll_offset == 0,
            b.mode is Help <==> show_help,
            !show_help ==> b.mode is Normal,
            b.show_hidden == config.settings.show_hidden,
            b.preview_mode == config.settings.preview_on_start,
            b.show_dir_slash == config.settings.show_dir_slash,
            b.preview_split_percent == preview_split_percent,
            b.list_mode == false,
            b.list_info_mode == 0,
            b.show_line_numbers == true,
            b.clipboard is None,
            b.log.undo@.len() == 0,
            b.log.redo@.len() == 0,
            b.log.pending is None,
            b.error is None,
            b.settings == config.settings,
    {
        let avail = available_rows(height, start_row);
        let show_hidden = config.settings.show_hidden;
        let preview_mode = config.settings.preview_on_start;
        let show_dir_slash = config.settings.show_dir_slash;
        Browser {
            current_dir: start_dir,
            sel: SelectionState::from_entries(Vec::new(), width, avail, false),
            mode: if show_help {
                Mode::Help
            } else {
                Mode::Normal
            },
            list_mode: false,
            list_info_mode: 0,
            show_line_numbers: true,
            preview_mode,
            show_hidden,
            show_dir_slash,
            preview_split_percent,
            clipboard: None,
            log: UndoLog::new(),
            preview_cache: PathMap::new(),
            preview_scroll: PathMap::new(),
            dir_sizes: PathMap::new(),
            calculating_sizes: false,
            show_created_date: false,
            keybindings: config.keybindings,
            colors: config.colors,
            settings: config.settings,
            config_error,
            error: None,
        }
    }

    /// Applies the outcome of reading a directory. A successful read moves
    /// the browser there: entries filtered and sorted, cursor and scroll at
    /// the top, the layout derived anew. A failed read is transactional —
    /// the entries, selection, and current directory stay exactly as they
    /// were — and only records the error kind for display.
    pub fn reload(
        &mut self,
        new_dir: Vec<u8>,
        listing: Result<Vec<Entry>, FsErrorKind>,
        width: u16,
        avail_rows: usize,
    )
        requires
            old(self).wf(),
        ensures
            final(self).wf(),
            match listing {
                Ok(raw) => {
                    &&& final(self).current_dir == new_dir
                    &&& final(self).sel.selected == 0
                    &&& final(self).sel.scroll_offset == 0
                    &&& sorted_entries(models(final(self).sel.entries@))
                    &&& models(final(self).sel.entries@).to_multiset() == models(raw@).filter(
                        |m: crate::entry::EntryModel| spec_keeps(m, old(self).show_hidden),
                    ).to_multiset()
                    &&& final(self).sel.visible_rows == if avail_rows >= 1 {
                        avail_rows as int
                    } else {
                        1int
                    }
                    &&& (old(self).list_mode ==> final(self).sel.num_cols == 1)
                    &&& (!old(self).list_mode ==> crate::layout::spec_is_best_cols(
                        if final(self).sel.entries@.len() >= 1 {
                            final(self).sel.entries@.len()
                        } else {
                            1nat
                        },
                        avail_rows as nat,
                        crate::layout::spec_max_cols(width as nat),
                        final(self).sel.num_cols as nat,
                    ))
                    &&& final(self).error is None
                },
                Err(k) => {
                    &&& final(self).current_dir == old(self).current_dir
                    &&& final(self).sel == old(self).sel
                    &&& final(self).error == Some(k)
                },
            },
            final(self).mode == old(self).mode,
            final(self).show_hidden == old(self).show_hidden,
            final(self).list_mode == old(self).list_mode,
            final(self).clipboard == old(self).clipboard,
            final(self).log == old(self).log,
    {
        match listing {
            Ok(raw) => {
                let entries = build_entries(raw, self.show_hidden);
                self.current_dir = new_dir;
                self.sel = SelectionState::from_entries(entries, width, avail_rows, self.list_mode);
                self.error = None;
            },
            Err(k) => {
                self.error = Some(k);
            },
        }
    }

    /// Reshapes the grid to the current viewport.
    pub fn update_layout(&mut self, width: u16, avail_rows: usize)
        requires
            old(self).wf(),
        ensures
            final(self).wf(),
            final(self).sel.entries == old(self).sel.entries,
            final(self).sel.visible_rows == if avail_rows >= 1 {
                avail_rows as int
            } else {
                1int
            },
            old(self).list_mode ==> final(self).sel.num_cols == 1,
            !old(self).list_mode ==> crate::layout::spec_is_best_cols(
                if old(self).sel.entries@.len() >= 1 {
                    old(self).sel.entries@.len()
                } else {
                    1nat
                },
                avail_rows as nat,
                crate::layout::spec_max_cols(width as nat),
                final(self).sel.num_cols as nat,
            ),
            final(self).sel.selected == if old(self).sel.entries@.len() == 0 {
                0int
            } else if old(self).sel.selected < old(self).sel.entries@.len() {
                old(self).sel.selected as int
            } else {
                old(self).sel.entries@.len() - 1
            },
            final(self).sel.scroll_offset == crate::selection::spec_scroll_fix(
                crate::selection::spec_row(
                    final(self).sel.selected as nat,
                    final(self).sel.num_cols as nat,
                ),
                old(self).sel.scroll_offset as nat,
                final(self).sel.visible_rows as nat,
            ),
            final(self).mode == old(self).mode,
            final(self).current_dir == old(self).current_dir,
            final(self).list_mode == old(self).list_mode,
            final(self).clipboard == old(self).clipboard,
            final(self).log == old(self).log,
            final(self).preview_cache == old(self).preview_cache,
            final(self).preview_scroll == old(self).preview_scroll,
            final(self).dir_sizes == old(self).dir_sizes,
            final(self).show_hidden == old(self).show_hidden,
            final(self).error == old(self).error,
    {
        let list_mode = self.list_mode;
        self.sel.set_layout(width, avail_rows, list_mode);
    }

    /// What opening the current selection means.
    pub fn open_target(&self) -> (r: OpenOutcome)
        requires
            self.wf(),
        ensures
            self.sel.entries@.len() == 0 ==> r is Nothing,
            self.sel.entries@.len() > 0 ==> {
                let e = self.sel.entries@[self.sel.selected as int]@;
                if e.is_dir {
                    r matches OpenOutcome::EnterDir(p) && p@ == spec_join(
                        self.current_dir@,
                        e.name,
                    )
                } else {
                    r matches OpenOutcome::OpenFile(p) && p@ == spec_join(
                        self.current_dir@,
                        e.name,
                    )
                }
            },
    {
        if self.sel.entries.len() == 0 {
            return OpenOutcome::Nothing;
        }
        let e = &self.sel.entries[self.sel.selected];
        let p = join_path(&self.current_dir, &e.name);
        if e.is_dir {
            OpenOutcome::EnterDir(p)
        } else {
            OpenOutcome::OpenFile(p)
        }
    }

    /// The full path of the current selection, if any.
    pub fn selected_path(&self) -> (r: Option<Vec<u8>>)
        requires
            self.wf(),
        ensures
            self.sel.entries@.len() == 0 ==> r is None,
            self.sel.entries@.len() > 0 ==> (r matches Some(p) && p@ == spec_join(
                self.current_dir@,
                self.sel.entries@[self.sel.selected as int]@.name,
            )),
    {
        if self.sel.entries.len() == 0 {
            None
        } else {
            Some(join_path(&self.current_dir, &self.sel.entries[self.sel.selected].name))
        }
    }

    /// Remembers the selected path for a later paste.
    pub fn copy_to_clipboard(&mut self)
        requires
            old(self).wf(),
        ensures
            final(self).wf(),
            old(self).sel.entries@.len() == 0 ==> final(self).clipboard == old(self).clipboard,
            old(self).sel.entries@.len() > 0 ==> (final(self).clipboard matches Some(p) && p@
                == spec_join(
                old(self).current_dir@,
                old(self).sel.entries@[old(self).sel.selected as int]@.name,
            )),
            final(self).sel == old(self).sel,
            final(self).mode == old(self).mode,
    {
        if self.sel.entries.len() > 0 {
            let p = join_path(&self.current_dir, &self.sel.entries[self.sel.selected].name);
            self.clipboard = Some(p);
        }
    }

    /// Enters fuzzy-find mode with an empty query; the previous match count
    /// starts at the full entry count, so the very first narrowing to one
    /// match can auto-navigate.
    pub fn fuzzy_enter_mode(&mut self, jump: bool)
        requires
            old(self).wf(),
        ensures
            final(self).wf(),
            final(self).mode matches Mode::FuzzyFind { query, jump_on_unique, prev_match_count }
                && query@.len() == 0 && jump_on_unique == jump && prev_match_count == old(
                self,
            ).sel.entries@.len(),
            final(self).sel == old(self).sel,
    {
        let n = self.sel.entries.len();
        self.mode = Mode::FuzzyFind { query: Vec::new(), jump_on_unique: jump, prev_match_count: n };
    }

    /// Leaves fuzzy-find mode, clearing the query.
    pub fn fuzzy_escape(&mut self)
        requires
            old(self).wf(),
        ensures
            final(self).wf(),
            final(self).mode is Normal,
            final(self).sel == old(self).sel,
    {
        self.mode = Mode::Normal;
    }

    /// Flips the help overlay: normal browsing shows it, and from the
    /// overlay any key returns to normal browsing.
    pub fn toggle_help(&mut self)
        requires
            old(self).wf(),
        ensures
            final(self).wf(),
            old(self).mode is Help ==> final(self).mode is Normal,
            !(old(self).mode is Help) ==> final(self).mode is Help,
            final(self).sel == old(self).sel,
    {
        if matches!(self.mode, Mode::Help) {
            self.mode = Mode::Normal;
        } else {
            self.mode = Mode::Help;
        }
    }

    /// Dismisses the help overlay.
    pub fn dismiss_help(&mut self)
        requires
            old(self).wf(),
        ensures
            final(self).wf(),
            final(self).mode is Normal,
            final(self).sel == old(self).sel,
    {
        self.mode = Mode::Normal;
    }

    /// One typed character (as its UTF-8 bytes) in fuzzy-find mode: the
    /// query grows and matches are recomputed. A unique match snaps the
    /// selection to it; if matches were available before, the match is also
    /// opened — the query clears and the caller performs the open.
    pub fn fuzzy_type(&mut self, chars: &Vec<u8>) -> (r: FuzzyOutcome)
        requires
            old(self).wf(),
            old(self).mode is FuzzyFind,
        ensures
            final(self).wf(),
            ({
                let q2 = spec_fuzzy_query(old(self).mode) + chars@;
                let ms = models(old(self).sel.entries@);
                let cs = old(self).settings.case_sensitive_search;
                let count = if q2.len() == 0 {
                    0int
                } else {
                    spec_match_count(ms, q2, cs) as int
                };
                let auto = count == 1 && spec_fuzzy_prev(old(self).mode) >= 1;
                &&& (r == FuzzyOutcome::AutoOpen <==> auto)
                &&& final(self).mode is FuzzyFind
                &&& spec_fuzzy_jump(final(self).mode) == spec_fuzzy_jump(old(self).mode)
                &&& (auto ==> spec_fuzzy_query(final(self).mode).len() == 0 && spec_fuzzy_prev(
                    final(self).mode,
                ) == spec_fuzzy_prev(old(self).mode))
                &&& (!auto ==> spec_fuzzy_query(final(self).mode) == q2 && spec_fuzzy_prev(
                    final(self).mode,
                ) == count)
                &&& final(self).sel.entries == old(self).sel.entries
                &&& (count == 1 ==> q2.len() > 0 && spec_name_matches(
                    q2,
                    ms[final(self).sel.selected as int].name,
                    cs,
                ) && forall|j: int|
                    0 <= j < final(self).sel.selected ==> !spec_name_matches(q2, ms[j].name, cs))
                &&& (count != 1 ==> final(self).sel.selected == old(self).sel.selected)
                &&& final(self).current_dir == old(self).current_dir
            }),
    {
        let (q2, jump, prev) = match &self.mode {
            Mode::FuzzyFind { query, jump_on_unique, prev_match_count } => {
                let mut q2 = clone_bytes(query);
                let mut i: usize = 0;
                let ghost base = q2@;
                while i < chars.len()
                    invariant
                        i <= chars@.len(),
                        q2@ == base + chars@.subrange(0, i as int),
                    decreases chars@.len() - i,
                {
                    q2.push(chars[i]);
                    proof {
                        assert((base + chars@.subrange(0, i as int)).push(chars@[i as int]) =~= base
                            + chars@.subrange(0, i as int + 1));
                    }
                    i = i + 1;
                }
                proof {
                    assert(base + chars@.subrange(0, chars@.len() as int) =~= base + chars@);
                }
                (q2, *jump_on_unique, *prev_match_count)
            },
            _ => {
                proof {
                    assert(false);
                }
                (Vec::new(), false, 0)
            },
        };
        let (midx, count) = fuzzy_match(&self.sel.entries, &q2, self.settings.case_sensitive_search);
        if count == 1 {
            match midx {
                Some(i) => {
                    self.sel.set_selected(i);
                },
                None => {},
            }
            if prev >= 1 {
                self.mode = Mode::FuzzyFind {
                    query: Vec::new(),
                    jump_on_unique: jump,
                    prev_match_count: prev,
                };
                return FuzzyOutcome::AutoOpen;
            }
        }
        self.mode = Mode::FuzzyFind { query: q2, jump_on_unique: jump, prev_match_count: count };
        FuzzyOutcome::Stay
    }

    /// Clears the query after navigating within fuzzy mode (back or home):
    /// the mode stays, and the previous match count resets to the new
    /// listing's entry count.
    pub fn fuzzy_reset(&mut self)
        requires
            old(self).wf(),
            old(self).mode is FuzzyFind,
        ensures
            final(self).wf(),
            final(self).mode matches Mode::FuzzyFind { query, jump_on_unique, prev_match_count }
                && query@.len() == 0 && jump_on_unique == spec_fuzzy_jump(old(self).mode)
                && prev_match_count == old(self).sel.entries@.len(),
            final(self).sel == old(self).sel,
    {
        let jump = match &self.mode {
            Mode::FuzzyFind { jump_on_unique, .. } => *jump_on_unique,
            _ => false,
        };
        let n = self.sel.entries.len();
        self.mode = Mode::FuzzyFind { query: Vec::new(), jump_on_unique: jump, prev_match_count: n };
    }

    /// Settles fuzzy mode after an auto-opened match: jump mode returns to
    /// normal browsing; stay mode keeps searching with a cleared query and
    /// the new listing's entry count as the match baseline.
    pub fn fuzzy_after_open(&mut self)
        requires
            old(self).wf(),
            old(self).mode is FuzzyFind,
        ensures
            final(self).wf(),
            spec_fuzzy_jump(old(self).mode) ==> final(self).mode is Normal,
            !spec_fuzzy_jump(old(self).mode) ==> (final(self).mode matches Mode::FuzzyFind {
                query,
                jump_on_unique,
                prev_match_count,
            } && query@.len() == 0 && jump_on_unique == spec_fuzzy_jump(old(self).mode)
                && prev_match_count == old(self).sel.entries@.len()),
            final(self).sel == old(self).sel,
    {
        let jump = match &self.mode {
            Mode::FuzzyFind { jump_on_unique, .. } => *jump_on_unique,
            _ => false,
        };
        if jump {
            self.mode = Mode::Normal;
        } else {
            let n = self.sel.entries.len();
            self.mode = Mode::FuzzyFind {
                query: Vec::new(),
                jump_on_unique: jump,
                prev_match_count: n,
            };
        }
    }

    /// One erased character in fuzzy-find mode: the query shrinks by its
    /// last character and matches are recomputed. A unique match snaps the
    /// selection to it but never auto-opens — only forward typing does.
    pub fn fuzzy_backspace(&mut self)
        requires
            old(self).wf(),
            old(self).mode is FuzzyFind,
        ensures
            final(self).wf(),
            ({
                let q2 = spec_pop_char(spec_fuzzy_query(old(self).mode));
                let ms = models(old(self).sel.entries@);
                let cs = old(self).settings.case_sensitive_search;
                let count = if q2.len() == 0 {
                    0int
                } else {
                    spec_match_count(ms, q2, cs) as int
                };
                &&& final(self).mode is FuzzyFind
                &&& spec_fuzzy_query(final(self).mode) == q2
                &&& spec_fuzzy_prev(final(self).mode) == count
                &&& spec_fuzzy_jump(final(self).mode) == spec_fuzzy_jump(old(self).mode)
                &&& final(self).sel.entries == old(self).sel.entries
                &&& (count == 1 ==> spec_name_matches(
                    q2,
                    ms[final(self).sel.selected as int].name,
                    cs,
                ) && forall|j: int|
                    0 <= j < final(self).sel.selected ==> !spec_name_matches(q2, ms[j].name, cs))
                &&& (count != 1 ==> final(self).sel.selected == old(self).sel.selected)
                &&& final(self).current_dir == old(self).current_dir
            }),
    {
        let (q2, jump) = match &self.mode {
            Mode::FuzzyFind { query, jump_on_unique, .. } => {
                let mut q2 = clone_bytes(query);
                pop_char(&mut q2);
                (q2, *jump_on_unique)
            },
            _ => {
                proof {
                    assert(false);
                }
                (Vec::new(), false)
            },
        };
        let (midx, count) = fuzzy_match(&self.sel.entries, &q2, self.settings.case_sensitive_search);
        if count == 1 {
            match midx {
                Some(i) => {
                    self.sel.set_selected(i);
                },
                None => {},
            }
        }
        self.mode = Mode::FuzzyFind { query: q2, jump_on_unique: jump, prev_match_count: count };
    }

    /// Restores the cursor after an entry was removed and the listing
    /// reloaded: the old position where it still exists, else the entry
    /// before it.
    pub fn clamp_selection_after_removal(&mut self, old_selected: usize)
        requires
            old(self).wf(),
        ensures
            final(self).wf(),
            final(self).sel.entries == old(self).sel.entries,
            ({
                let len = old(self).sel.entries@.len();
                if len == 0 {
                    final(self).sel.selected == 0
                } else if old_selected < len {
                    final(self).sel.selected == old_selected
                } else {
                    final(self).sel.selected == len - 1
                }
            }),
    {
        let len = self.sel.entries.len();
        if len == 0 {
            self.sel.set_selected(0);
        } else if old_selected < len {
            self.sel.set_selected(old_selected);
        } else {
            self.sel.set_selected(len - 1);
        }
    }

    /// Flips whether hidden entries show; the caller reloads the listing.
    pub fn toggle_hidden(&mut self)
        requires
            old(self).wf(),
        ensures
            final(self).wf(),
            final(self).show_hidden == !old(self).show_hidden,
    {
        self.show_hidden = !self.show_hidden;
    }

    /// Flips between list and grid mode and reshapes the grid.
    pub fn toggle_list_mode(&mut self, width: u16, avail_rows: usize)
        requires
            old(self).wf(),
        ensures
            final(self).wf(),
            final(self).list_mode == !old(self).list_mode,
            final(self).sel.entries == old(self).sel.entries,
            final(self).sel.visible_rows == if avail_rows >= 1 {
                avail_rows as int
            } else {
                1int
            },
            final(self).list_mode ==> final(self).sel.num_cols == 1,
            !final(self).list_mode ==> crate::layout::spec_is_best_cols(
                if old(self).sel.entries@.len() >= 1 {
                    old(self).sel.entries@.len()
                } else {
                    1nat
                },
                avail_rows as nat,
                crate::layout::spec_max_cols(width as nat),
                final(self).sel.num_cols as nat,
            ),
    {
        self.list_mode = !self.list_mode;
        let list_mode = self.list_mode;
        self.sel.set_layout(width, avail_rows, list_mode);
    }

    /// Flips the preview pane.
    pub fn toggle_preview(&mut self)
        requires
            old(self).wf(),
        ensures
            final(self).wf(),
            final(self).preview_mode == !old(self).preview_mode,
    {
        self.preview_mode = !self.preview_mode;
    }

    /// The space key: with the preview open it flips line numbers, else it
    /// cycles the list info column through its four states.
    pub fn cycle_space(&mut self)
        requires
            old(self).wf(),
        ensures
            final(self).wf(),
            old(self).preview_mode ==> final(self).show_line_numbers == !old(
                self,
            ).show_line_numbers && final(self).list_info_mode == old(self).list_info_mode,
            !old(self).preview_mode ==> final(self).list_info_mode == (old(self).list_info_mode + 1)
                % 4 && final(self).show_line_numbers == old(self).show_line_numbers,
    {
        if self.preview_mode {
            self.show_line_numbers = !self.show_line_numbers;
        } else {
            self.list_info_mode = (self.list_info_mode + 1) % 4;
        }
    }

    /// Shrinks the preview pane by a tenth of the screen, to its floor of a
    /// fifth; only while the preview shows.
    pub fn preview_shrink(&mut self)
        requires
            old(self).wf(),
        ensures
            final(self).wf(),
            !old(self).preview_mode ==> final(self).preview_split_percent == old(
                self,
            ).preview_split_percent,
            old(self).preview_mode ==> final(self).preview_split_percent == if old(
                self,
            ).preview_split_percent >= 30 {
                old(self).preview_split_percent - 10
            } else {
                20int
            },
    {
        if self.preview_mode {
            if self.preview_split_percent >= 30 {
                self.preview_split_percent = self.preview_split_percent - 10;
            } else {
                self.preview_split_percent = 20;
            }
        }
    }

    /// Grows the preview pane by a tenth of the screen, up to the whole of
    /// it; only while the preview shows.
    pub fn preview_grow(&mut self)
        requires
            old(self).wf(),
        ensures
            final(self).wf(),
            !old(self).preview_mode ==> final(self).preview_split_percent == old(
                self,
            ).preview_split_percent,
            old(self).preview_mode ==> final(self).preview_split_percent == if old(
                self,
            ).preview_split_percent <= 90 {
                old(self).preview_split_percent + 10
            } else {
                100int
            },
    {
        if self.preview_mode {
            if self.preview_split_percent <= 90 {
                self.preview_split_percent = self.preview_split_percent + 10;
            } else {
                self.preview_split_percent = 100;
            }
        }
    }

    /// Clears the transient error; any key press dismisses it.
    pub fn clear_error(&mut self)
        requires
            old(self).wf(),
        ensures
            final(self).wf(),
            final(self).error is None,
            final(self).sel == old(self).sel,
            final(self).mode == old(self).mode,
    {
        self.error = None;
    }

    /// The message to show for the recorded error: permission problems get
    /// the specific access hint, other failures a generic one.
    pub fn error_hint(&self) -> (r: Option<String>)
        ensures
            self.error is None <==> r is None,
            self.error == Some(FsErrorKind::PermissionDenied) ==> (r matches Some(s) && s@
                == "Permission denied. Grant Full Disk Access to your terminal in System Settings > Privacy & Security."@),
            (self.error is Some && self.error != Some(FsErrorKind::PermissionDenied)) ==> (r
                matches Some(s) && s@ == "Cannot access the selected path."@),
    {
        match self.error {
            None => None,
            Some(FsErrorKind::PermissionDenied) => Some(
                String::from_str(
                    "Permission denied. Grant Full Disk Access to your terminal in System Settings > Privacy & Security.",
                ),
            ),
            Some(_) => Some(String::from_str("Cannot access the selected path.")),
        }
    }
}


/// One input event, as the dispatcher sees it.
#[derive(Clone, Copy, PartialEq, Eq, Structural, Debug)]
pub enum Key {
    Char(char),
    Up,
    Down,
    Left,
    Right,
    Enter,
    Backspace,
    Esc,
    Other,
}

/// What a key resolves to, given the mode and the configured bindings.
#[derive(Clone, Copy, PartialEq, Eq, Structural, Debug)]
pub enum KeyAction {
    Idle,
    DismissHelp,
    ToggleHelp,
    QuitNone,
    QuitCd,
    QuitOpenInFinder,
    FuzzyExit,
    FuzzyBack,
    FuzzyHome,
    FuzzyBackspace,
    FuzzyEnter,
    FuzzyType(char),
    MoveSel(Dir),
    Jump(Dir),
    Open,
    EnterOpen,
    Back,
    Home,
    NextSibling,
    PrevSibling,
    TogglePreview,
    ToggleHidden,
    ToggleMode,
    ListInfoEdit,
    Copy,
    Paste,
    Trash,
    Delete,
    Undo,
    Redo,
    Create,
    Rename,
    EnterFuzzy { jump: bool },
    PreviewShrink,
    PreviewGrow,
    PreviewScrollUp { page: bool },
    PreviewScrollDown { page: bool },
    CycleSpace,
}

/// The dispatch of a character in normal mode, in the precedence the event
/// loop applies: help first, then quitting, movement, jumps, the file and
/// preview actions, and last the unbound specials (`e` in list mode, space,
/// `k`, the capital preview-page keys).
pub open spec fn spec_interpret_char(br: Browser, ch: char, shift: bool) -> KeyAction {
    let kb = br.keybindings;
    if kb.help@.contains(ch) || ch == '!' {
        KeyAction::ToggleHelp
    } else if kb.quit@.contains(ch) {
        KeyAction::QuitCd
    } else if kb.quit_then_open_in_finder@.contains(ch) {
        KeyAction::QuitOpenInFinder
    } else if kb.up@.contains(ch) {
        KeyAction::MoveSel(Dir::Up)
    } else if kb.down@.contains(ch) {
        KeyAction::MoveSel(Dir::Down)
    } else if kb.left@.contains(ch) {
        KeyAction::MoveSel(Dir::Left)
    } else if kb.right@.contains(ch) {
        KeyAction::MoveSel(Dir::Right)
    } else if kb.jump_up@.contains(ch) {
        KeyAction::Jump(Dir::Up)
    } else if kb.jump_down@.contains(ch) {
        KeyAction::Jump(Dir::Down)
    } else if kb.jump_left@.contains(ch) {
        KeyAction::Jump(Dir::Left)
    } else if kb.jump_right@.contains(ch) {
        KeyAction::Jump(Dir::Right)
    } else if kb.open@.contains(ch) {
        KeyAction::Open
    } else if kb.back@.contains(ch) {
        KeyAction::Back
    } else if kb.home@.contains(ch) {
        KeyAction::Home
    } else if kb.next_sibling@.contains(ch) {
        KeyAction::NextSibling
    } else if kb.prev_sibling@.contains(ch) {
        KeyAction::PrevSibling
    } else if kb.preview_toggle@.contains(ch) {
        KeyAction::TogglePreview
    } else if kb.toggle_hidden@.contains(ch) {
        KeyAction::ToggleHidden
    } else if kb.toggle_mode@.contains(ch) {
        KeyAction::ToggleMode
    } else if ch == 'e' && br.list_mode {
        KeyAction::ListInfoEdit
    } else if kb.copy@.contains(ch) {
        KeyAction::Copy
    } else if kb.paste@.contains(ch) {
        KeyAction::Paste
    } else if kb.trash@.contains(ch) {
        KeyAction::Trash
    } else if kb.delete@.contains(ch) {
        KeyAction::Delete
    } else if kb.undo@.contains(ch) {
        KeyAction::Undo
    } else if kb.redo@.contains(ch) {
        KeyAction::Redo
    } else if kb.create@.contains(ch) {
        KeyAction::Create
    } else if kb.rename@.contains(ch) {
        KeyAction::Rename
    } else if kb.fuzzy_find@.contains(ch) || kb.fuzzy_home@.contains(ch) {
        KeyAction::EnterFuzzy { jump: kb.fuzzy_find@.contains(ch) && !shift }
    } else if kb.preview_height_decrease@.contains(ch) {
        KeyAction::PreviewShrink
    } else if kb.preview_height_increase@.contains(ch) {
        KeyAction::PreviewGrow
    } else if kb.preview_up@.contains(ch) || ch == 'I' {
        KeyAction::PreviewScrollUp { page: ch == 'I' || shift }
    } else if kb.preview_down@.contains(ch) || ch == 'O' {
        KeyAction::PreviewScrollDown { page: ch == 'O' || shift }
    } else if ch == ' ' {
        KeyAction::CycleSpace
    } else if ch == 'k' {
        KeyAction::EnterOpen
    } else {
        KeyAction::Idle
    }
}

/// The whole dispatch: any key dismisses the help overlay; fuzzy-find mode
/// interprets keys its own way (a literal `q` quits, the fuzzy-back and
/// fuzzy-home bindings navigate without leaving the mode, characters extend
/// the query); normal mode uses the bindings, and the arrows, escape, enter
/// and backspace keep their roles in both modes.
pub open spec fn spec_interpret(br: Browser, key: Key, shift: bool) -> KeyAction {
    if br.mode is Help {
        KeyAction::DismissHelp
    } else if br.mode is FuzzyFind {
        match key {
            Key::Esc => KeyAction::FuzzyExit,
            Key::Char(ch) => {
                if ch == 'q' {
                    KeyAction::QuitCd
                } else if br.keybindings.quit_then_open_in_finder@.contains(ch) {
                    KeyAction::QuitOpenInFinder
                } else if br.keybindings.fuzzy_back@.contains(ch) {
                    KeyAction::FuzzyBack
                } else if br.keybindings.fuzzy_home@.contains(ch) {
                    KeyAction::FuzzyHome
                } else {
                    KeyAction::FuzzyType(ch)
                }
            },
            Key::Backspace => KeyAction::FuzzyBackspace,
            Key::Enter => KeyAction::FuzzyEnter,
            Key::Up => KeyAction::MoveSel(Dir::Up),
            Key::Down => KeyAction::MoveSel(Dir::Down),
            Key::Left => KeyAction::MoveSel(Dir::Left),
            Key::Right => KeyAction::MoveSel(Dir::Right),
            Key::Other => KeyAction::Idle,
        }
    } else {
        match key {
            Key::Char(ch) => spec_interpret_char(br, ch, shift),
            Key::Esc => KeyAction::QuitNone,
            Key::Up => KeyAction::MoveSel(Dir::Up),
            Key::Down => KeyAction::MoveSel(Dir::Down),
            Key::Left => KeyAction::MoveSel(Dir::Left),
            Key::Right => KeyAction::MoveSel(Dir::Right),
            Key::Enter => KeyAction::EnterOpen,
            Key::Backspace => KeyAction::Back,
            Key::Other => KeyAction::Idle,
        }
    }
}

impl Browser {
    /// Resolves one input event against the current mode and bindings.
    pub fn interpret_key(&self, key: Key, shift: bool) -> (r: KeyAction)
        ensures
            r == spec_interpret(*self, key, shift),
    {
        let kb = &self.keybindings;
        match &self.mode {
            Mode::Help => KeyAction::DismissHelp,
            Mode::FuzzyFind { .. } => match key {
                Key::Esc => KeyAction::FuzzyExit,
                Key::Char(ch) => {
                    if ch == 'q' {
                        KeyAction::QuitCd
                    } else if kb.contains(&kb.quit_then_open_in_finder, ch) {
                        KeyAction::QuitOpenInFinder
                    } else if kb.contains(&kb.fuzzy_back, ch) {
                        KeyAction::FuzzyBack
                    } else if kb.contains(&kb.fuzzy_home, ch) {
                        KeyAction::FuzzyHome
                    } else {
                        KeyAction::FuzzyType(ch)
                    }
                },
                Key::Backspace => KeyAction::FuzzyBackspace,
                Key::Enter => KeyAction::FuzzyEnter,
                Key::Up => KeyAction::MoveSel(Dir::Up),
                Key::Down => KeyAction::MoveSel(Dir::Down),
                Key::Left => KeyAction::MoveSel(Dir::Left),
                Key::Right => KeyAction::MoveSel(Dir::Right),
                Key::Other => KeyAction::Idle,
            },
            Mode::Normal => match key {
                Key::Char(ch) => {
                    if kb.contains(&kb.help, ch) || ch == '!' {
                        KeyAction::ToggleHelp
                    } else if kb.contains(&kb.quit, ch) {
                        KeyAction::QuitCd
                    } else if kb.contains(&kb.quit_then_open_in_finder, ch) {
                        KeyAction::QuitOpenInFinder
                    } else if kb.contains(&kb.up, ch) {
                        KeyAction::MoveSel(Dir::Up)
                    } else if kb.contains(&kb.down, ch) {
                        KeyAction::MoveSel(Dir::Down)
                    } else if kb.contains(&kb.left, ch) {
                        KeyAction::MoveSel(Dir::Left)
                    } else if kb.contains(&kb.right, ch) {
                        KeyAction::MoveSel(Dir::Right)
                    } else if kb.contains(&kb.jump_up, ch) {
                        KeyAction::Jump(Dir::Up)
                    } else if kb.contains(&kb.jump_down, ch) {
                        KeyAction::Jump(Dir::Down)
                    } else if kb.contains(&kb.jump_left, ch) {
                        KeyAction::Jump(Dir::Left)
                    } else if kb.contains(&kb.jump_right, ch) {
                        KeyAction::Jump(Dir::Right)
                    } else if kb.contains(&kb.open, ch) {
                        KeyAction::Open
                    } else if kb.contains(&kb.back, ch) {
                        KeyAction::Back
                    } else if kb.contains(&kb.home, ch) {
                        KeyAction::Home
                    } else if kb.contains(&kb.next_sibling, ch) {
                        KeyAction::NextSibling
                    } else if kb.contains(&kb.prev_sibling, ch) {
                        KeyAction::PrevSibling
                    } else if kb.contains(&kb.preview_toggle, ch) {
                        KeyAction::TogglePreview
                    } else if kb.contains(&kb.toggle_hidden, ch) {
                        KeyAction::ToggleHidden
                    } else if kb.contains(&kb.toggle_mode, ch) {
                        KeyAction::ToggleMode
                    } else if ch == 'e' && self.list_mode {
                        KeyAction::ListInfoEdit
                    } else if kb.contains(&kb.copy, ch) {
                        KeyAction::Copy
                    } else if kb.contains(&kb.paste, ch) {
                        KeyAction::Paste
                    } else if kb.contains(&kb.trash, ch) {
                        KeyAction::Trash
                    } else if kb.contains(&kb.delete, ch) {
                        KeyAction::Delete
                    } else if kb.contains(&kb.undo, ch) {
                        KeyAction::Undo
                    } else if kb.contains(&kb.redo, ch) {
                        KeyAction::Redo
                    } else if kb.contains(&kb.create, ch) {
                        KeyAction::Create
                    } else if kb.contains(&kb.rename, ch) {
                        KeyAction::Rename
                    } else if kb.contains(&kb.fuzzy_find, ch) || kb.contains(&kb.fuzzy_home, ch) {
                        let jump = kb.contains(&kb.fuzzy_find, ch) && !shift;
                        KeyAction::EnterFuzzy { jump }
                    } else if kb.contains(&kb.preview_height_decrease, ch) {
                        KeyAction::PreviewShrink
                    } else if kb.contains(&kb.preview_height_increase, ch) {
                        KeyAction::PreviewGrow
                    } else if kb.contains(&kb.preview_up, ch) || ch == 'I' {
                        let page = ch == 'I' || shift;
                        KeyAction::PreviewScrollUp { page }
                    } else if kb.contains(&kb.preview_down, ch) || ch == 'O' {
                        let page = ch == 'O' || shift;
                        KeyAction::PreviewScrollDown { page }
                    } else if ch == ' ' {
                        KeyAction::CycleSpace
                    } else if ch == 'k' {
                        KeyAction::EnterOpen
                    } else {
                        KeyAction::Idle
                    }
                },
                Key::Esc => KeyAction::QuitNone,
                Key::Up => KeyAction::MoveSel(Dir::Up),
                Key::Down => KeyAction::MoveSel(Dir::Down),
                Key::Left => KeyAction::MoveSel(Dir::Left),
                Key::Right => KeyAction::MoveSel(Dir::Right),
                Key::Enter => KeyAction::EnterOpen,
                Key::Backspace => KeyAction::Back,
                Key::Other => KeyAction::Idle,
            },
        }
    }
}

} // verus!

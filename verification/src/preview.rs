//! The preview pipeline's bookkeeping: a per-path cache of preview states, a
//! per-path scroll position map, and the routing of a selected file to a
//! preview kind by its extension. PDF previews load in the background: the
//! first poll of an uncached path marks it `Loading` and asks the caller to
//! start one extraction job; later polls of the same path start none, and
//! once a terminal state is stored the lines are served from the cache.
use vstd::prelude::*;

verus! {

use crate::bytes::bytes_eq;
use crate::bytes::clone_bytes;
use crate::fuzzy::fold_case;
use crate::fuzzy::lower_byte;

/// The lifecycle of one path's preview content.
pub enum PreviewState {
    NotLoaded,
    Loading,
    Loaded(Vec<String>),
    Error(String),
}

/// A map from a path (as bytes) to a value, stored as an association list
/// with pairwise distinct keys.
pub struct PathMap<V> {
    pub items: Vec<(Vec<u8>, V)>,
}

/// The map an association list denotes; a later pair would win, but the
/// well-formedness below keeps keys distinct.
pub open spec fn alist_map<V>(items: Seq<(Vec<u8>, V)>) -> Map<Seq<u8>, V>
    decreases items.len(),
{
    if items.len() == 0 {
        Map::empty()
    } else {
        alist_map(items.drop_last()).insert(items.last().0@, items.last().1)
    }
}

/// No two pairs share a key.
pub open spec fn keys_unique<V>(items: Seq<(Vec<u8>, V)>) -> bool {
    forall|i: int, j: int| 0 <= i < j < items.len() ==> items[i].0@ != items[j].0@
}

impl<V> View for PathMap<V> {
    type V = Map<Seq<u8>, V>;

    open spec fn view(&self) -> Map<Seq<u8>, V> {
        alist_map(self.items@)
    }
}

/// A key is in the denoted map exactly when some pair holds it.
proof fn lemma_alist_contains<V>(items: Seq<(Vec<u8>, V)>, k: Seq<u8>)
    ensures
        alist_map(items).contains_key(k) <==> exists|i: int|
            0 <= i < items.len() && items[i].0@ == k,
    decreases items.len(),
{
    if items.len() > 0 {
        let sub = items.drop_last();
        lemma_alist_contains(sub, k);
        if alist_map(items).contains_key(k) {
            if items.last().0@ == k {
                assert(items[items.len() - 1].0@ == k);
            } else {
                let i = choose|i: int| 0 <= i < sub.len() && sub[i].0@ == k;
                assert(items[i].0@ == k);
            }
        }
        if exists|i: int| 0 <= i < items.len() && items[i].0@ == k {
            let i = choose|i: int| 0 <= i < items.len() && items[i].0@ == k;
            if i < items.len() - 1 {
                assert(sub[i].0@ == k);
            }
        }
    }
}

/// With distinct keys, each pair's key maps to that pair's value.
proof fn lemma_alist_index<V>(items: Seq<(Vec<u8>, V)>, i: int)
    requires
        keys_unique(items),
        0 <= i < items.len(),
    ensures
        alist_map(items).contains_key(items[i].0@),
        alist_map(items)[items[i].0@] == items[i].1,
    decreases items.len(),
{
    if i < items.len() - 1 {
        let sub = items.drop_last();
        assert(keys_unique(sub));
        lemma_alist_index(sub, i);
        assert(items.last().0@ != items[i].0@);
    }
}

/// Updating the pair that holds a key denotes inserting over that key.
proof fn lemma_alist_update<V>(items: Seq<(Vec<u8>, V)>, i: int, p: Vec<u8>, v: V)
    requires
        keys_unique(items),
        0 <= i < items.len(),
        p@ == items[i].0@,
    ensures
        alist_map(items.update(i, (p, v))) == alist_map(items).insert(p@, v),
        keys_unique(items.update(i, (p, v))),
    decreases items.len(),
{
    let upd = items.update(i, (p, v));
    assert(keys_unique(upd));
    if i == items.len() - 1 {
        assert(upd.drop_last() =~= items.drop_last());
        assert(alist_map(upd) =~= alist_map(items).insert(p@, v));
    } else {
        let sub = items.drop_last();
        assert(keys_unique(sub));
        assert(upd.drop_last() =~= sub.update(i, (p, v)));
        lemma_alist_update(sub, i, p, v);
        assert(items.last().0@ != items[i].0@);
        assert(alist_map(upd) == alist_map(sub).insert(p@, v).insert(
            items.last().0@,
            items.last().1,
        ));
        assert(alist_map(upd) =~= alist_map(items).insert(p@, v));
    }
}

impl<V> PathMap<V> {
    /// The well-formedness every operation preserves: keys are distinct.
    pub open spec fn wf(self) -> bool {
        keys_unique(self.items@)
    }

    /// An empty map.
    pub fn new() -> (m: PathMap<V>)
        ensures
            m.wf(),
            m@ == Map::<Seq<u8>, V>::empty(),
    {
        PathMap { items: Vec::new() }
    }

    /// The value stored for a path, if any.
    pub fn get(&self, path: &Vec<u8>) -> (r: Option<&V>)
        requires
            self.wf(),
        ensures
            match r {
                Some(v) => self@.contains_key(path@) && *v == self@[path@],
                None => !self@.contains_key(path@),
            },
    {
        let mut i: usize = 0;
        while i < self.items.len()
            invariant
                self.wf(),
                i <= self.items@.len(),
                forall|k: int| 0 <= k < i ==> self.items@[k].0@ != path@,
            decreases self.items@.len() - i,
        {
            if bytes_eq(&self.items[i].0, path) {
                proof {
                    lemma_alist_index(self.items@, i as int);
                }
                return Some(&self.items[i].1);
            }
            i = i + 1;
        }
        proof {
            lemma_alist_contains(self.items@, path@);
        }
        None
    }

    /// Stores a value for a path, replacing any previous one.
    pub fn set(&mut self, path: Vec<u8>, v: V)
        requires
            old(self).wf(),
        ensures
            final(self).wf(),
            final(self)@ == old(self)@.insert(path@, v),
    {
        let mut i: usize = 0;
        while i < self.items.len()
            invariant
                self.wf(),
                self.items@ == old(self).items@,
                i <= self.items@.len(),
                forall|k: int| 0 <= k < i ==> self.items@[k].0@ != path@,
            decreases self.items@.len() - i,
        {
            if bytes_eq(&self.items[i].0, &path) {
                proof {
                    lemma_alist_update(self.items@, i as int, path, v);
                }
                self.items[i] = (path, v);
                return ;
            }
            i = i + 1;
        }
        proof {
            lemma_alist_contains(self.items@, path@);
            assert(keys_unique(self.items@.push((path, v))));
            assert(self.items@.push((path, v)).drop_last() =~= self.items@);
        }
        self.items.push((path, v));
    }
}

/// Whether a poll for a PDF preview must start a background job: yes exactly
/// when the path is uncached or its entry was never loaded.
pub open spec fn spec_needs_spawn(m: Map<Seq<u8>, PreviewState>, k: Seq<u8>) -> bool {
    !m.contains_key(k) || m[k] is NotLoaded
}

/// One poll of the PDF preview cache. On a miss the entry is marked
/// `Loading` and the caller is told to start one extraction job; on a hit
/// the cache is left alone and the caller renders the cached state.
pub fn poll_pdf(cache: &mut PathMap<PreviewState>, path: &Vec<u8>) -> (spawn: bool)
    requires
        old(cache).wf(),
    ensures
        final(cache).wf(),
        spawn == spec_needs_spawn(old(cache)@, path@),
        spawn ==> final(cache)@ == old(cache)@.insert(path@, PreviewState::Loading),
        !spawn ==> *final(cache) == *old(cache),
{
    let needs = match cache.get(path) {
        None => true,
        Some(s) => matches!(s, PreviewState::NotLoaded),
    };
    if needs {
        cache.set(clone_bytes(path), PreviewState::Loading);
    }
    needs
}

/// Law: the first poll of an uncached path starts a job and later polls of
/// that path start none — not while it is loading, and not after the worker
/// has stored the extracted lines.
pub proof fn lemma_pdf_poll_no_respawn(
    m: Map<Seq<u8>, PreviewState>,
    k: Seq<u8>,
    lines: Vec<String>,
)
    requires
        !m.contains_key(k),
    ensures
        spec_needs_spawn(m, k),
        !spec_needs_spawn(m.insert(k, PreviewState::Loading), k),
        !spec_needs_spawn(
            m.insert(k, PreviewState::Loading).insert(k, PreviewState::Loaded(lines)),
            k,
        ),
{
}

/// The scroll position stored for a path; an unseen path starts at the top.
pub open spec fn spec_scroll_pos(m: Map<Seq<u8>, usize>, k: Seq<u8>) -> int {
    if m.contains_key(k) {
        m[k] as int
    } else {
        0int
    }
}

/// The scroll position of a file's preview.
pub fn scroll_pos(map: &PathMap<usize>, path: &Vec<u8>) -> (r: usize)
    requires
        map.wf(),
    ensures
        r == spec_scroll_pos(map@, path@),
{
    match map.get(path) {
        Some(v) => *v,
        None => 0,
    }
}

/// Scrolls a file's preview up: the position moves toward the top by
/// `amount`, stopping at the top.
pub fn scroll_preview_up(map: &mut PathMap<usize>, path: &Vec<u8>, amount: usize)
    requires
        old(map).wf(),
    ensures
        final(map).wf(),
        final(map)@ == old(map)@.insert(
            path@,
            (if spec_scroll_pos(old(map)@, path@) >= amount {
                spec_scroll_pos(old(map)@, path@) - amount
            } else {
                0int
            }) as usize,
        ),
{
    let current = scroll_pos(map, path);
    let new_pos = if current >= amount {
        current - amount
    } else {
        0
    };
    map.set(clone_bytes(path), new_pos);
}

/// Scrolls a file's preview down: the position moves by `amount` but never
/// past the last window that still shows `visible` lines of the file.
pub fn scroll_preview_down(
    map: &mut PathMap<usize>,
    path: &Vec<u8>,
    amount: usize,
    line_count: usize,
    visible: usize,
)
    requires
        old(map).wf(),
    ensures
        final(map).wf(),
        ({
            let max_scroll = if line_count >= visible {
                line_count - visible
            } else {
                0int
            };
            let target = spec_scroll_pos(old(map)@, path@) + amount;
            final(map)@ == old(map)@.insert(
                path@,
                (if target <= max_scroll {
                    target
                } else {
                    max_scroll
                }) as usize,
            )
        }),
{
    let current = scroll_pos(map, path);
    let max_scroll = if line_count >= visible {
        line_count - visible
    } else {
        0
    };
    let new_pos = if current >= max_scroll {
        max_scroll
    } else if amount < max_scroll - current {
        current + amount
    } else {
        max_scroll
    };
    map.set(clone_bytes(path), new_pos);
}

/// How the preview pipeline treats a file, by its extension.
#[derive(Clone, Copy, PartialEq, Eq, Structural, Debug)]
pub enum FileKind {
    Image,
    Pdf,
    Text,
}

/// The name's suffix after its last dot, scanning from the end; `None` when
/// the name has no dot at all.
pub open spec fn spec_after_last_dot(s: Seq<u8>) -> Option<Seq<u8>>
    decreases s.len(),
{
    if s.len() == 0 {
        None
    } else if s.last() == 46u8 {
        Some(Seq::empty())
    } else {
        match spec_after_last_dot(s.drop_last()) {
            Some(e) => Some(e.push(s.last())),
            None => None,
        }
    }
}

/// The extension of a file name: what follows the last dot, except that a
/// leading dot alone (a hidden name) gives none.
pub open spec fn spec_extension(name: Seq<u8>) -> Option<Seq<u8>> {
    match spec_after_last_dot(name) {
        Some(e) => if name.len() - e.len() - 1 >= 1 {
            Some(e)
        } else {
            None
        },
        None => None,
    }
}

/// The image extensions the preview renders as terminal graphics.
pub open spec fn spec_is_image_ext(e: Seq<u8>) -> bool {
    ||| e == seq![112u8, 110u8, 103u8]  // png
    ||| e == seq![106u8, 112u8, 103u8]  // jpg
    ||| e == seq![106u8, 112u8, 101u8, 103u8]  // jpeg
    ||| e == seq![103u8, 105u8, 102u8]  // gif
    ||| e == seq![98u8, 109u8, 112u8]  // bmp
    ||| e == seq![119u8, 101u8, 98u8, 112u8]  // webp
}

/// The preview route of a file name: image and PDF extensions are compared
/// case-insensitively; everything else previews as text.
pub open spec fn spec_file_kind(name: Seq<u8>) -> FileKind {
    match spec_extension(name) {
        Some(e) => {
            let f = fold_case(e);
            if spec_is_image_ext(f) {
                FileKind::Image
            } else if f == seq![112u8, 100u8, 102u8] {  // pdf
                FileKind::Pdf
            } else {
                FileKind::Text
            }
        },
        None => FileKind::Text,
    }
}

/// A name with no dot in it has no suffix after a last dot.
pub proof fn lemma_after_last_dot_none(s: Seq<u8>)
    requires
        forall|k: int| 0 <= k < s.len() ==> s[k] != 46u8,
    ensures
        spec_after_last_dot(s) is None,
    decreases s.len(),
{
    if s.len() > 0 {
        lemma_after_last_dot_none(s.drop_last());
    }
}

/// When position `i` holds the last dot, the suffix after it is exactly the
/// bytes past `i`.
pub proof fn lemma_after_last_dot_at(s: Seq<u8>, i: int)
    requires
        0 <= i < s.len(),
        s[i] == 46u8,
        forall|k: int| i < k < s.len() ==> s[k] != 46u8,
    ensures
        spec_after_last_dot(s) == Some(s.subrange(i + 1, s.len() as int)),
    decreases s.len(),
{
    if i == s.len() - 1 {
        assert(s.subrange(i + 1, s.len() as int) =~= Seq::<u8>::empty());
    } else {
        lemma_after_last_dot_at(s.drop_last(), i);
        let e = s.drop_last().subrange(i + 1, s.len() - 1);
        assert(e.push(s.last()) =~= s.subrange(i + 1, s.len() as int));
    }
}

/// The preview route of a file name.
pub fn classify(name: &Vec<u8>) -> (k: FileKind)
    ensures
        k == spec_file_kind(name@),
{
    let n = name.len();
    let mut j: usize = n;
    while j > 0 && name[j - 1] != 46u8
        invariant
            j <= n,
            n == name@.len(),
            forall|k: int| j <= k < n ==> name@[k] != 46u8,
        decreases j,
    {
        j = j - 1;
    }
    if j <= 1 {
        proof {
            if j == 0 {
                lemma_after_last_dot_none(name@);
            } else {
                lemma_after_last_dot_at(name@, 0);
            }
        }
        return FileKind::Text;
    }
    proof {
        lemma_after_last_dot_at(name@, j - 1);
    }
    let ghost ext = name@.subrange(j as int, n as int);
    let m = n - j;
    proof {
        assert(ext.len() == m);
        assert(forall|t: int| 0 <= t < m ==> ext[t] == name@[j + t]);
        assert(fold_case(ext).len() == m);
        assert(forall|t: int| 0 <= t < m ==> fold_case(ext)[t] == lower_byte(name@[j + t]));
    }
    if m == 3 {
        let c0 = lower_exec(name[j]);
        let c1 = lower_exec(name[j + 1]);
        let c2 = lower_exec(name[j + 2]);
        if c0 == 112 && c1 == 110 && c2 == 103 {
            proof {
                assert(fold_case(ext) =~= seq![112u8, 110u8, 103u8]);
            }
            FileKind::Image
        } else if c0 == 106 && c1 == 112 && c2 == 103 {
            proof {
                assert(fold_case(ext) =~= seq![106u8, 112u8, 103u8]);
            }
            FileKind::Image
        } else if c0 == 103 && c1 == 105 && c2 == 102 {
            proof {
                assert(fold_case(ext) =~= seq![103u8, 105u8, 102u8]);
            }
            FileKind::Image
        } else if c0 == 98 && c1 == 109 && c2 == 112 {
            proof {
                assert(fold_case(ext) =~= seq![98u8, 109u8, 112u8]);
            }
            FileKind::Image
        } else if c0 == 112 && c1 == 100 && c2 == 102 {
            proof {
                assert(fold_case(ext) =~= seq![112u8, 100u8, 102u8]);
            }
            FileKind::Pdf
        } else {
            proof {
                lemma_kind_text_3(fold_case(ext), c0, c1, c2);
            }
            FileKind::Text
        }
    } else if m == 4 {
        let c0 = lower_exec(name[j]);
        let c1 = lower_exec(name[j + 1]);
        let c2 = lower_exec(name[j + 2]);
        let c3 = lower_exec(name[j + 3]);
        if c0 == 106 && c1 == 112 && c2 == 101 && c3 == 103 {
            proof {
                assert(fold_case(ext) =~= seq![106u8, 112u8, 101u8, 103u8]);
            }
            FileKind::Image
        } else if c0 == 119 && c1 == 101 && c2 == 98 && c3 == 112 {
            proof {
                assert(fold_case(ext) =~= seq![119u8, 101u8, 98u8, 112u8]);
            }
            FileKind::Image
        } else {
            proof {
                lemma_kind_text_4(fold_case(ext), c0, c1, c2, c3);
            }
            FileKind::Text
        }
    } else {
        FileKind::Text
    }
}

/// Case folding of one byte (shared with the matcher's folding).
fn lower_exec(b: u8) -> (r: u8)
    ensures
        r == lower_byte(b),
{
    if 65 <= b && b <= 90 {
        b + 32
    } else {
        b
    }
}

/// A three-byte extension that is none of the known three-byte image or PDF
/// extensions routes to text.
proof fn lemma_kind_text_3(f: Seq<u8>, c0: u8, c1: u8, c2: u8)
    requires
        f.len() == 3,
        f[0] == c0,
        f[1] == c1,
        f[2] == c2,
        !(c0 == 112 && c1 == 110 && c2 == 103),
        !(c0 == 106 && c1 == 112 && c2 == 103),
        !(c0 == 103 && c1 == 105 && c2 == 102),
        !(c0 == 98 && c1 == 109 && c2 == 112),
        !(c0 == 112 && c1 == 100 && c2 == 102),
    ensures
        !spec_is_image_ext(f),
        f != seq![112u8, 100u8, 102u8],
{
}

/// A four-byte extension that is neither `jpeg` nor `webp` routes to text.
proof fn lemma_kind_text_4(f: Seq<u8>, c0: u8, c1: u8, c2: u8, c3: u8)
    requires
        f.len() == 4,
        f[0] == c0,
        f[1] == c1,
        f[2] == c2,
        f[3] == c3,
        !(c0 == 106 && c1 == 112 && c2 == 101 && c3 == 103),
        !(c0 == 119 && c1 == 101 && c2 == 98 && c3 == 112),
    ensures
        !spec_is_image_ext(f),
        f != seq![112u8, 100u8, 102u8],
{
}

} // verus!

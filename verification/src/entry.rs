//! Directory entries and the order the browser lists them in: directories
//! first, then lexicographically by name bytes. A reload filters hidden
//! entries (names starting with a dot) unless they are shown, then sorts.
use vstd::prelude::*;

verus! {

use vstd::seq_lib::group_to_multiset_ensures;
use vstd::seq_lib::to_multiset_build;

/// One child of the current directory: its file name (as bytes) and whether
/// it is a directory.
pub struct Entry {
    pub name: Vec<u8>,
    pub is_dir: bool,
}

/// The mathematical value of an entry.
pub struct EntryModel {
    pub name: Seq<u8>,
    pub is_dir: bool,
}

impl View for Entry {
    type V = EntryModel;

    open spec fn view(&self) -> EntryModel {
        EntryModel { name: self.name@, is_dir: self.is_dir }
    }
}

/// The models of a sequence of entries.
pub open spec fn models(s: Seq<Entry>) -> Seq<EntryModel> {
    s.map_values(|e: Entry| e@)
}

/// Lexicographic order on byte strings; a prefix comes before its extensions.
pub open spec fn lex_le(a: Seq<u8>, b: Seq<u8>) -> bool
    decreases a.len(),
{
    if a.len() == 0 {
        true
    } else if b.len() == 0 {
        false
    } else if a[0] < b[0] {
        true
    } else if a[0] > b[0] {
        false
    } else {
        lex_le(a.drop_first(), b.drop_first())
    }
}

/// The listing order: directories before files, names lexicographic within
/// each group.
pub open spec fn entry_le(a: EntryModel, b: EntryModel) -> bool {
    if a.is_dir != b.is_dir {
        a.is_dir
    } else {
        lex_le(a.name, b.name)
    }
}

/// Any two byte strings are ordered one way or the other.
pub proof fn lemma_lex_le_total(a: Seq<u8>, b: Seq<u8>)
    ensures
        lex_le(a, b) || lex_le(b, a),
    decreases a.len(),
{
    if a.len() > 0 && b.len() > 0 && a[0] == b[0] {
        lemma_lex_le_total(a.drop_first(), b.drop_first());
    }
}

/// Lexicographic order is transitive.
pub proof fn lemma_lex_le_trans(a: Seq<u8>, b: Seq<u8>, c: Seq<u8>)
    requires
        lex_le(a, b),
        lex_le(b, c),
    ensures
        lex_le(a, c),
    decreases a.len(),
{
    if a.len() > 0 && b.len() > 0 && c.len() > 0 && a[0] == b[0] && b[0] == c[0] {
        lemma_lex_le_trans(a.drop_first(), b.drop_first(), c.drop_first());
    }
}

/// The listing order is total.
pub proof fn lemma_entry_le_total(a: EntryModel, b: EntryModel)
    ensures
        entry_le(a, b) || entry_le(b, a),
{
    if a.is_dir == b.is_dir {
        lemma_lex_le_total(a.name, b.name);
    }
}

/// The listing order is transitive.
pub proof fn lemma_entry_le_trans(a: EntryModel, b: EntryModel, c: EntryModel)
    requires
        entry_le(a, b),
        entry_le(b, c),
    ensures
        entry_le(a, c),
{
    if a.is_dir == b.is_dir && b.is_dir == c.is_dir {
        lemma_lex_le_trans(a.name, b.name, c.name);
    }
}

/// Lexicographic comparison of two names.
pub fn name_le(a: &Vec<u8>, b: &Vec<u8>) -> (r: bool)
    ensures
        r == lex_le(a@, b@),
{
    let n = if a.len() < b.len() {
        a.len()
    } else {
        b.len()
    };
    proof {
        assert(a@.skip(0) =~= a@);
        assert(b@.skip(0) =~= b@);
    }
    let mut i: usize = 0;
    while i < n
        invariant
            i <= n,
            n <= a.len(),
            n <= b.len(),
            n == a.len() || n == b.len(),
            lex_le(a@, b@) == lex_le(a@.skip(i as int), b@.skip(i as int)),
        decreases n - i,
    {
        if a[i] < b[i] {
            return true;
        }
        if a[i] > b[i] {
            return false;
        }
        proof {
            assert(a@.skip(i as int).drop_first() =~= a@.skip(i as int + 1));
            assert(b@.skip(i as int).drop_first() =~= b@.skip(i as int + 1));
        }
        i = i + 1;
    }
    if a.len() <= b.len() {
        proof {
            assert(a@.skip(i as int).len() == 0);
        }
        true
    } else {
        proof {
            assert(b@.skip(i as int).len() == 0);
            assert(a@.skip(i as int).len() > 0);
        }
        false
    }
}

/// Comparison of two entries in listing order.
pub fn entry_le_exec(a: &Entry, b: &Entry) -> (r: bool)
    ensures
        r == entry_le(a@, b@),
{
    if a.is_dir != b.is_dir {
        a.is_dir
    } else {
        name_le(&a.name, &b.name)
    }
}

/// A sequence is in listing order.
pub open spec fn sorted_entries(s: Seq<EntryModel>) -> bool {
    forall|i: int, j: int| 0 <= i < j < s.len() ==> entry_le(s[i], s[j])
}

/// Places one entry into a sorted listing, keeping it sorted.
fn insert_sorted(out: &mut Vec<Entry>, e: Entry)
    requires
        sorted_entries(models(old(out)@)),
    ensures
        sorted_entries(models(final(out)@)),
        models(final(out)@).to_multiset() == models(old(out)@).to_multiset().insert(e@),
{
    broadcast use group_to_multiset_ensures;

    let mut p: usize = 0;
    while p < out.len() && entry_le_exec(&out[p], &e)
        invariant
            p <= out.len(),
            sorted_entries(models(out@)),
            out@ == old(out)@,
            forall|q: int| 0 <= q < p ==> entry_le(models(out@)[q], e@),
        decreases out.len() - p,
    {
        p = p + 1;
    }
    proof {
        if p < out@.len() {
            lemma_entry_le_total(models(out@)[p as int], e@);
        }
    }
    let ghost pre = out@;
    out.insert(p, e);
    proof {
        let m_new = models(out@);
        let m_old = models(pre);
        assert(m_new =~= m_old.insert(p as int, e@));
        assert forall|i: int, j: int| 0 <= i < j < m_new.len() implies entry_le(
            m_new[i],
            m_new[j],
        ) by {
            if i < p && j == p {
            } else if i == p && j > p + 1 {
                lemma_entry_le_trans(e@, m_old[p as int], m_old[j - 1]);
            } else {
            }
        }
        assert(out@.remove(p as int) =~= pre);
        assert(models(out@).remove(p as int) =~= models(pre));
        assert(models(out@)[p as int] == e@);
        assert(models(out@).contains(e@));
        assert(models(out@).to_multiset().count(e@) > 0);
        assert(models(pre).to_multiset() == models(out@).to_multiset().remove(e@));
        assert(models(out@).to_multiset() =~= models(pre).to_multiset().insert(e@));
    }
}

/// Sorts a listing: directories first, then lexicographically by name. The
/// result holds exactly the given entries.
pub fn sort_entries(v: Vec<Entry>) -> (out: Vec<Entry>)
    ensures
        sorted_entries(models(out@)),
        models(out@).to_multiset() == models(v@).to_multiset(),
{
    broadcast use group_to_multiset_ensures;

    let ghost all = v@;
    let mut rest = v;
    let mut out: Vec<Entry> = Vec::new();
    proof {
        assert(models(out@) =~= Seq::<EntryModel>::empty());
    }
    while rest.len() > 0
        invariant
            sorted_entries(models(out@)),
            models(out@).to_multiset().add(models(rest@).to_multiset()) =~= models(
                all,
            ).to_multiset(),
        decreases rest.len(),
    {
        let ghost old_rest = rest@;
        let ghost old_out_ms = models(out@).to_multiset();
        let e = match rest.pop() {
            Some(e) => e,
            None => {
                proof {
                    assert(false);
                }
                unreached()
            },
        };
        proof {
            assert(models(old_rest) =~= models(rest@).push(e@));
            to_multiset_build(models(rest@), e@);
        }
        insert_sorted(&mut out, e);
        proof {
            assert(models(out@).to_multiset().add(models(rest@).to_multiset()) =~= old_out_ms.add(
                models(old_rest).to_multiset(),
            ));
        }
    }
    proof {
        let m_rest = models(rest@).to_multiset();
        assert(models(rest@).len() == 0);
        assert forall|x: EntryModel| true implies m_rest.count(x) == 0 by {
            if m_rest.count(x) > 0 {
                assert(models(rest@).contains(x));
            }
        }
        assert(models(out@).to_multiset() =~= models(out@).to_multiset().add(m_rest));
    }
    out
}

/// Law: in a listing in sorted order, every directory precedes every
/// file — after the first file no directory follows.
pub proof fn lemma_directories_first(s: Seq<EntryModel>)
    requires
        sorted_entries(s),
    ensures
        forall|i: int, j: int| 0 <= i < j < s.len() && !s[i].is_dir ==> !s[j].is_dir,
{
    assert forall|i: int, j: int| 0 <= i < j < s.len() && !s[i].is_dir implies !s[j].is_dir by {
        assert(entry_le(s[i], s[j]));
    }
}

/// A hidden entry: its name starts with a dot.
pub open spec fn spec_is_hidden(name: Seq<u8>) -> bool {
    name.len() > 0 && name[0] == 46u8
}

/// Whether a listing keeps an entry: always when hidden entries are shown,
/// otherwise only when it is not hidden.
pub open spec fn spec_keeps(m: EntryModel, show_hidden: bool) -> bool {
    show_hidden || !spec_is_hidden(m.name)
}

/// Whether an entry's name starts with a dot.
pub fn is_hidden(name: &Vec<u8>) -> (r: bool)
    ensures
        r == spec_is_hidden(name@),
{
    name.len() > 0 && name[0] == 46u8
}

/// The entries a fresh listing shows, in display order: hidden entries are
/// dropped unless shown, and what remains is sorted directories-first, then
/// by name.
pub fn build_entries(raw: Vec<Entry>, show_hidden: bool) -> (out: Vec<Entry>)
    ensures
        sorted_entries(models(out@)),
        models(out@).to_multiset() == models(raw@).filter(
            |m: EntryModel| spec_keeps(m, show_hidden),
        ).to_multiset(),
{
    broadcast use group_to_multiset_ensures;

    let ghost pred = |m: EntryModel| spec_keeps(m, show_hidden);
    let ghost all = raw@;
    let mut rest = raw;
    let mut kept: Vec<Entry> = Vec::new();
    proof {
        assert(models(kept@) =~= Seq::<EntryModel>::empty());
        assert(Seq::<EntryModel>::empty().filter(pred) =~= Seq::<EntryModel>::empty());
    }
    while rest.len() > 0
        invariant
            models(kept@).to_multiset().add(models(rest@).filter(pred).to_multiset()) =~= models(
                all,
            ).filter(pred).to_multiset(),
            pred == (|m: EntryModel| spec_keeps(m, show_hidden)),
        decreases rest.len(),
    {
        let ghost old_rest = rest@;
        let ghost old_kept_ms = models(kept@).to_multiset();
        let e = match rest.pop() {
            Some(e) => e,
            None => {
                proof {
                    assert(false);
                }
                unreached()
            },
        };
        proof {
            assert(models(old_rest) =~= models(rest@).push(e@));
        }
        let keep = show_hidden || !is_hidden(&e.name);
        proof {
            assert(keep == pred(e@));
            models(rest@).lemma_filter_push(e@, pred);
            if pred(e@) {
                assert(models(old_rest).filter(pred) == models(rest@).filter(pred).push(e@));
            } else {
                assert(models(old_rest).filter(pred) == models(rest@).filter(pred));
            }
        }
        if keep {
            let ghost old_kept = kept@;
            let ghost ev = e@;
            kept.push(e);
            proof {
                assert(models(kept@) =~= models(old_kept).push(ev));
                to_multiset_build(models(old_kept), ev);
                to_multiset_build(models(rest@).filter(pred), ev);
                assert(models(kept@).to_multiset().add(
                    models(rest@).filter(pred).to_multiset(),
                ) =~= old_kept_ms.add(models(old_rest).filter(pred).to_multiset()));
            }
        }
    }
    proof {
        let m_rest = models(rest@).filter(pred).to_multiset();
        assert(models(rest@).len() == 0);
        assert(models(rest@).filter(pred).len() == 0) by {
            models(rest@).lemma_filter_len(pred);
        }
        assert forall|x: EntryModel| true implies m_rest.count(x) == 0 by {
            if m_rest.count(x) > 0 {
                assert(models(rest@).filter(pred).contains(x));
            }
        }
        assert(models(kept@).to_multiset() =~= models(kept@).to_multiset().add(m_rest));
    }
    sort_entries(kept)
}

} // verus!

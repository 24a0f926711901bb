//! Decisions around file operations: where sibling navigation goes, what a
//! pasted copy is called when its name is taken, and how the create prompt's
//! input is read. The filesystem work itself happens outside; these
//! functions only compute from the listings they are given.
use vstd::prelude::*;

verus! {

use vstd::arithmetic::div_mod::lemma_fundamental_div_mod;
use vstd::set_lib::lemma_int_range;
use vstd::set_lib::lemma_len_subset;
use vstd::set_lib::set_int_range;
use crate::bytes::bytes_eq;
use crate::bytes::clone_bytes;
use crate::bytes::spec_trim;
use crate::bytes::trim_bytes;
use crate::entry::lemma_lex_le_total;
use crate::fuzzy::fold_case;
use crate::fuzzy::lower_byte;
use crate::entry::lemma_lex_le_trans;
use crate::entry::lex_le;
use crate::entry::name_le;
use crate::preview::lemma_after_last_dot_at;
use crate::preview::lemma_after_last_dot_none;
use crate::preview::spec_extension;

/// The byte strings a list of names denotes.
pub open spec fn name_views(s: Seq<Vec<u8>>) -> Seq<Seq<u8>> {
    s.map_values(|v: Vec<u8>| v@)
}

/// A list of names in lexicographic order.
pub open spec fn sorted_names(s: Seq<Seq<u8>>) -> bool {
    forall|i: int, j: int| 0 <= i < j < s.len() ==> lex_le(s[i], s[j])
}

/// Places one name into a sorted list, keeping it sorted.
fn insert_name_sorted(out: &mut Vec<Vec<u8>>, v: Vec<u8>)
    requires
        sorted_names(name_views(old(out)@)),
    ensures
        sorted_names(name_views(final(out)@)),
        name_views(final(out)@).to_multiset() == name_views(old(out)@).to_multiset().insert(v@),
{
    broadcast use vstd::seq_lib::group_to_multiset_ensures;

    let mut p: usize = 0;
    while p < out.len() && name_le(&out[p], &v)
        invariant
            p <= out.len(),
            sorted_names(name_views(out@)),
            out@ == old(out)@,
            forall|q: int| 0 <= q < p ==> lex_le(name_views(out@)[q], v@),
        decreases out.len() - p,
    {
        p = p + 1;
    }
    proof {
        if p < out@.len() {
            lemma_lex_le_total(name_views(out@)[p as int], v@);
        }
    }
    let ghost pre = out@;
    out.insert(p, v);
    proof {
        let m_new = name_views(out@);
        let m_old = name_views(pre);
        assert(m_new =~= m_old.insert(p as int, v@));
        assert forall|i: int, j: int| 0 <= i < j < m_new.len() implies lex_le(
            m_new[i],
            m_new[j],
        ) by {
            if i == p && j > p + 1 {
                lemma_lex_le_trans(v@, m_old[p as int], m_old[j - 1]);
            }
        }
        vstd::seq_lib::to_multiset_insert(m_old, p as int, v@);
    }
}

/// Sorts sibling names lexicographically; the result holds exactly the
/// given names.
pub fn sort_names(v: Vec<Vec<u8>>) -> (out: Vec<Vec<u8>>)
    ensures
        sorted_names(name_views(out@)),
        name_views(out@).to_multiset() == name_views(v@).to_multiset(),
{
    broadcast use vstd::seq_lib::group_to_multiset_ensures;

    let ghost all = v@;
    let mut rest = v;
    let mut out: Vec<Vec<u8>> = Vec::new();
    proof {
        assert(name_views(out@) =~= Seq::<Seq<u8>>::empty());
    }
    while rest.len() > 0
        invariant
            sorted_names(name_views(out@)),
            name_views(out@).to_multiset().add(name_views(rest@).to_multiset()) =~= name_views(
                all,
            ).to_multiset(),
        decreases rest.len(),
    {
        let ghost old_rest = rest@;
        let ghost old_out_ms = name_views(out@).to_multiset();
        let e = match rest.pop() {
            Some(e) => e,
            None => {
                proof {
                    assert(false);
                }
                unreached()
            },
        };
        proof {
            assert(name_views(old_rest) =~= name_views(rest@).push(e@));
            vstd::seq_lib::to_multiset_build(name_views(rest@), e@);
        }
        insert_name_sorted(&mut out, e);
        proof {
            assert(name_views(out@).to_multiset().add(name_views(rest@).to_multiset())
                =~= old_out_ms.add(name_views(old_rest).to_multiset()));
        }
    }
    proof {
        let m_rest = name_views(rest@).to_multiset();
        assert(name_views(rest@).len() == 0);
        assert forall|x: Seq<u8>| true implies m_rest.count(x) == 0 by {
            if m_rest.count(x) > 0 {
                assert(name_views(rest@).contains(x));
            }
        }
        assert(name_views(out@).to_multiset() =~= name_views(out@).to_multiset().add(m_rest));
    }
    out
}

/// The index a cyclic step moves to.
pub open spec fn spec_cyclic_step(i: int, len: int, forward: bool) -> int {
    if forward {
        if i == len - 1 {
            0int
        } else {
            i + 1
        }
    } else {
        if i == 0 {
            len - 1
        } else {
            i - 1
        }
    }
}

/// Whether some name in the list holds these bytes.
pub open spec fn spec_name_in(names: Seq<Seq<u8>>, n: Seq<u8>) -> bool {
    exists|i: int| 0 <= i < names.len() && names[i] == n
}

/// The sibling directory a cyclic step lands on: among the sorted sibling
/// names, the one after (or before) the current one, wrapping at both ends.
/// Fewer than two siblings, or a current name not among them, move nowhere.
pub fn sibling_target(sorted: &Vec<Vec<u8>>, current: &Vec<u8>, forward: bool) -> (r: Option<
    Vec<u8>,
>)
    requires
        sorted_names(name_views(sorted@)),
    ensures
        sorted@.len() <= 1 ==> r is None,
        !spec_name_in(name_views(sorted@), current@) ==> r is None,
        (sorted@.len() > 1 && spec_name_in(name_views(sorted@), current@)) ==> (r matches Some(v)
            && exists|i: int|
            0 <= i < sorted@.len() && name_views(sorted@)[i] == current@ && (forall|j: int|
                0 <= j < i ==> name_views(sorted@)[j] != current@) && v@ == name_views(sorted@)[
                spec_cyclic_step(i, sorted@.len() as int, forward)
            ]),
{
    let len = sorted.len();
    if len <= 1 {
        return None;
    }
    let mut i: usize = 0;
    while i < len
        invariant
            i <= len,
            len == sorted@.len(),
            len > 1,
            forall|j: int| 0 <= j < i ==> name_views(sorted@)[j] != current@,
        decreases len - i,
    {
        if bytes_eq(&sorted[i], current) {
            let t = cyclic_step(i, len, forward);
            let out = clone_bytes(&sorted[t]);
            proof {
                assert(name_views(sorted@)[i as int] == current@);
            }
            return Some(out);
        }
        i = i + 1;
    }
    proof {
        assert(!spec_name_in(name_views(sorted@), current@));
    }
    None
}

/// The cyclic step, computed.
fn cyclic_step(i: usize, len: usize, forward: bool) -> (t: usize)
    requires
        len > 0,
        i < len,
    ensures
        t == spec_cyclic_step(i as int, len as int, forward),
        t < len,
{
    if forward {
        if i == len - 1 {
            0
        } else {
            i + 1
        }
    } else {
        if i == 0 {
            len - 1
        } else {
            i - 1
        }
    }
}

/// The decimal digits of a number.
pub open spec fn spec_dec(n: nat) -> Seq<u8>
    decreases n,
{
    if n < 10 {
        seq![(48 + n) as u8]
    } else {
        spec_dec(n / 10).push((48 + n % 10) as u8)
    }
}

/// The decimal digits of a number, as bytes.
pub fn dec_digits(n: usize) -> (r: Vec<u8>)
    ensures
        r@ == spec_dec(n as nat),
    decreases n,
{
    if n < 10 {
        let mut r: Vec<u8> = Vec::new();
        r.push(48 + (n as u8));
        proof {
            assert(r@ =~= spec_dec(n as nat));
        }
        r
    } else {
        let mut r = dec_digits(n / 10);
        r.push(48 + ((n % 10) as u8));
        r
    }
}

/// The stem of a file name: what precedes its extension, or the whole name
/// when it has none.
pub open spec fn spec_stem(name: Seq<u8>) -> Seq<u8> {
    match spec_extension(name) {
        Some(e) => name.take(name.len() - e.len() - 1),
        None => name,
    }
}

/// The extension of a file name, or empty when it has none.
pub open spec fn spec_ext_or_empty(name: Seq<u8>) -> Seq<u8> {
    match spec_extension(name) {
        Some(e) => e,
        None => Seq::empty(),
    }
}

/// The `k`-th fallback name for a pasted copy whose name is taken:
/// `stem (k).ext`, or `stem (k)` for a name without an extension.
pub open spec fn spec_candidate(src: Seq<u8>, k: nat) -> Seq<u8> {
    let stem = spec_stem(src);
    let ext = spec_ext_or_empty(src);
    let base = stem + seq![32u8, 40u8] + spec_dec(k) + seq![41u8];
    if ext.len() > 0 {
        base + seq![46u8] + ext
    } else {
        base
    }
}

/// Splits a name into its stem and its extension (empty when none).
fn split_stem_ext(src: &Vec<u8>) -> (r: (Vec<u8>, Vec<u8>))
    ensures
        r.0@ == spec_stem(src@),
        r.1@ == spec_ext_or_empty(src@),
{
    let n = src.len();
    let mut j: usize = n;
    while j > 0 && src[j - 1] != 46u8
        invariant
            j <= n,
            n == src@.len(),
            forall|k: int| j <= k < n ==> src@[k] != 46u8,
        decreases j,
    {
        j = j - 1;
    }
    if j <= 1 {
        proof {
            if j == 0 {
                lemma_after_last_dot_none(src@);
            } else {
                lemma_after_last_dot_at(src@, 0);
            }
        }
        return (clone_bytes(src), Vec::new());
    }
    proof {
        lemma_after_last_dot_at(src@, j - 1);
    }
    let mut stem: Vec<u8> = Vec::new();
    let mut k: usize = 0;
    while k < j - 1
        invariant
            k <= j - 1 < n,
            n == src@.len(),
            stem@ == src@.subrange(0, k as int),
        decreases j - 1 - k,
    {
        stem.push(src[k]);
        proof {
            assert(src@.subrange(0, k as int).push(src@[k as int]) =~= src@.subrange(
                0,
                k as int + 1,
            ));
        }
        k = k + 1;
    }
    let mut ext: Vec<u8> = Vec::new();
    let mut t: usize = j;
    while t < n
        invariant
            j <= t <= n,
            n == src@.len(),
            ext@ == src@.subrange(j as int, t as int),
        decreases n - t,
    {
        ext.push(src[t]);
        proof {
            assert(src@.subrange(j as int, t as int).push(src@[t as int]) =~= src@.subrange(
                j as int,
                t as int + 1,
            ));
        }
        t = t + 1;
    }
    proof {
        assert(ext@ =~= src@.subrange(j as int, n as int));
        assert(stem@ =~= src@.take(j - 1));
    }
    (stem, ext)
}

/// The `k`-th fallback name for a pasted copy.
fn candidate_name(src: &Vec<u8>, k: usize) -> (r: Vec<u8>)
    ensures
        r@ == spec_candidate(src@, k as nat),
{
    let (stem, ext) = split_stem_ext(src);
    let mut r = stem;
    r.push(32);
    r.push(40);
    let digits = dec_digits(k);
    let mut i: usize = 0;
    let ghost base = r@;
    while i < digits.len()
        invariant
            i <= digits@.len(),
            r@ == base + digits@.subrange(0, i as int),
        decreases digits@.len() - i,
    {
        r.push(digits[i]);
        proof {
            assert((base + digits@.subrange(0, i as int)).push(digits@[i as int]) =~= base
                + digits@.subrange(0, i as int + 1));
        }
        i = i + 1;
    }
    proof {
        assert(base + digits@.subrange(0, digits@.len() as int) =~= base + digits@);
        assert(base =~= spec_stem(src@) + seq![32u8, 40u8]);
    }
    r.push(41);
    if ext.len() > 0 {
        r.push(46);
        let ghost base2 = r@;
        let mut t: usize = 0;
        while t < ext.len()
            invariant
                t <= ext@.len(),
                r@ == base2 + ext@.subrange(0, t as int),
            decreases ext@.len() - t,
        {
            r.push(ext[t]);
            proof {
                assert((base2 + ext@.subrange(0, t as int)).push(ext@[t as int]) =~= base2
                    + ext@.subrange(0, t as int + 1));
            }
            t = t + 1;
        }
        proof {
            assert(base2 + ext@.subrange(0, ext@.len() as int) =~= base2 + ext@);
            assert(r@ =~= spec_candidate(src@, k as nat));
        }
    } else {
        proof {
            assert(r@ =~= spec_candidate(src@, k as nat));
        }
    }
    r
}

/// Whether the name is already taken in the directory.
fn name_taken(existing: &Vec<Vec<u8>>, n: &Vec<u8>) -> (r: bool)
    ensures
        r == spec_name_in(name_views(existing@), n@),
{
    let mut i: usize = 0;
    while i < existing.len()
        invariant
            i <= existing@.len(),
            forall|j: int| 0 <= j < i ==> name_views(existing@)[j] != n@,
        decreases existing@.len() - i,
    {
        if bytes_eq(&existing[i], n) {
            proof {
                assert(name_views(existing@)[i as int] == n@);
            }
            return true;
        }
        i = i + 1;
    }
    false
}

/// Decimal digit strings are never empty, and take at least two digits
/// from ten up.
proof fn lemma_dec_len(n: nat)
    ensures
        spec_dec(n).len() >= 1,
        n >= 10 ==> spec_dec(n).len() >= 2,
    decreases n,
{
    if n >= 10 {
        lemma_dec_len(n / 10);
    }
}

/// Distinct numbers have distinct decimal digit strings.
proof fn lemma_dec_injective(a: nat, b: nat)
    requires
        spec_dec(a) == spec_dec(b),
    ensures
        a == b,
    decreases a,
{
    lemma_dec_len(a);
    lemma_dec_len(b);
    if a < 10 && b < 10 {
        assert(spec_dec(a)[0] == (48 + a) as u8);
        assert(spec_dec(b)[0] == (48 + b) as u8);
    } else if a < 10 {
        assert(spec_dec(a).len() == 1);
        assert(false);
    } else if b < 10 {
        assert(spec_dec(b).len() == 1);
        assert(false);
    } else {
        assert(spec_dec(a).last() == (48 + a % 10) as u8);
        assert(spec_dec(b).last() == (48 + b % 10) as u8);
        assert(spec_dec(a).drop_last() =~= spec_dec(a / 10));
        assert(spec_dec(b).drop_last() =~= spec_dec(b / 10));
        lemma_dec_injective(a / 10, b / 10);
        lemma_fundamental_div_mod(a as int, 10);
        lemma_fundamental_div_mod(b as int, 10);
    }
}

/// Distinct counters give distinct fallback names for the same source.
proof fn lemma_candidate_injective(src: Seq<u8>, k1: nat, k2: nat)
    requires
        spec_candidate(src, k1) == spec_candidate(src, k2),
    ensures
        k1 == k2,
{
    let stem = spec_stem(src);
    let ext = spec_ext_or_empty(src);
    let off = stem.len() + 2;
    let d1 = spec_dec(k1);
    let d2 = spec_dec(k2);
    let c1 = spec_candidate(src, k1);
    let c2 = spec_candidate(src, k2);
    let tail = if ext.len() > 0 {
        1 + ext.len()
    } else {
        0nat
    };
    assert(c1.len() == off + d1.len() + 1 + tail);
    assert(c2.len() == off + d2.len() + 1 + tail);
    assert(d1.len() == d2.len());
    assert forall|t: int| 0 <= t < d1.len() implies d1[t] == d2[t] by {
        assert(c1[off + t] == d1[t]) by {
            assert(((stem + seq![32u8, 40u8]) + d1)[off + t] == d1[t]);
        }
        assert(c2[off + t] == d2[t]) by {
            assert(((stem + seq![32u8, 40u8]) + d2)[off + t] == d2[t]);
        }
    }
    assert(d1 =~= d2);
    lemma_dec_injective(k1, k2);
}

/// The name a pasted copy takes in a directory: the source's own name when
/// free, else `stem (k).ext` for the first free `k` from one upward. Some
/// `k` within one past the number of existing names is always free, since
/// distinct counters give distinct names.
pub fn resolve_paste_name(existing: &Vec<Vec<u8>>, src_name: &Vec<u8>) -> (r: Vec<u8>)
    requires
        existing@.len() < usize::MAX - 2,
    ensures
        !spec_name_in(name_views(existing@), src_name@) ==> r@ == src_name@,
        spec_name_in(name_views(existing@), src_name@) ==> exists|k: nat|
            1 <= k && r@ == spec_candidate(src_name@, k) && !spec_name_in(
                name_views(existing@),
                r@,
            ) && (forall|j: nat|
                1 <= j < k ==> spec_name_in(name_views(existing@), spec_candidate(src_name@, j))),
{
    if !name_taken(existing, src_name) {
        return clone_bytes(src_name);
    }
    let len = existing.len();
    let cap = len + 2;
    let ghost names = name_views(existing@);
    let ghost mut idxs: Seq<int> = Seq::empty();
    let mut k: usize = 1;
    while k < cap
        invariant
            1 <= k <= cap,
            cap == len + 2,
            len == existing@.len(),
            names == name_views(existing@),
            spec_name_in(names, src_name@),
            forall|j: nat|
                1 <= j < k ==> spec_name_in(names, spec_candidate(src_name@, j)),
            idxs.len() == k - 1,
            forall|t: int|
                0 <= t < idxs.len() ==> 0 <= #[trigger] idxs[t] < len && names[idxs[t]]
                    == spec_candidate(src_name@, (t + 1) as nat),
            forall|t1: int, t2: int| 0 <= t1 < t2 < idxs.len() ==> idxs[t1] != idxs[t2],
        decreases cap - k,
    {
        let cand = candidate_name(src_name, k);
        if !name_taken(existing, &cand) {
            proof {
                let kk = k as nat;
                assert(1 <= kk && cand@ == spec_candidate(src_name@, kk) && !spec_name_in(
                    names,
                    cand@,
                ) && (forall|j: nat|
                    1 <= j < kk ==> spec_name_in(names, spec_candidate(src_name@, j))));
            }
            return cand;
        }
        proof {
            let i_wit = choose|i: int| 0 <= i < names.len() && names[i] == cand@;
            assert forall|t: int| 0 <= t < idxs.len() implies idxs[t] != i_wit by {
                if idxs[t] == i_wit {
                    lemma_candidate_injective(src_name@, (t + 1) as nat, k as nat);
                }
            }
            idxs = idxs.push(i_wit);
        }
        k = k + 1;
    }
    proof {
        assert(idxs.len() == len + 1);
        assert(idxs.no_duplicates());
        idxs.unique_seq_to_set();
        assert forall|x: int| idxs.to_set().contains(x) implies set_int_range(
            0,
            len as int,
        ).contains(x) by {
            let t = choose|t: int| 0 <= t < idxs.len() && idxs[t] == x;
        }
        assert(idxs.to_set().subset_of(set_int_range(0, len as int)));
        lemma_int_range(0, len as int);
        lemma_len_subset(idxs.to_set(), set_int_range(0, len as int));
        assert(false);
    }
    unreached()
}

/// Whether a confirmation prompt's answer means yes: the trimmed input is
/// the single letter `y`, compared case-insensitively.
pub fn parse_confirm_input(input: &Vec<u8>) -> (r: bool)
    ensures
        r == (fold_case(spec_trim(input@)) == seq![121u8]),
{
    let t = trim_bytes(input);
    proof {
        assert(fold_case(t@).len() == t@.len());
    }
    if t.len() == 1 {
        let b = t[0];
        let lb = if 65 <= b && b <= 90 {
            b + 32
        } else {
            b
        };
        proof {
            assert(fold_case(t@)[0] == lower_byte(t@[0]));
            if lb == 121 {
                assert(fold_case(t@) =~= seq![121u8]);
            } else {
                assert(fold_case(t@) != seq![121u8]) by {
                    assert(seq![121u8][0] == 121u8);
                }
            }
        }
        lb == 121
    } else {
        false
    }
}

/// What the rename prompt's input means: trimmed, and only a non-empty
/// name different from the current one renames.
pub fn parse_rename_input(input: &Vec<u8>, old_name: &Vec<u8>) -> (r: Option<Vec<u8>>)
    ensures
        ({
            let t = spec_trim(input@);
            if t.len() == 0 || t == old_name@ {
                r is None
            } else {
                r matches Some(v) && v@ == t
            }
        }),
{
    let t = trim_bytes(input);
    if t.len() == 0 || bytes_eq(&t, old_name) {
        None
    } else {
        Some(t)
    }
}

/// What the create prompt's input means: trimmed, an empty input creates
/// nothing, and a trailing slash asks for a directory.
pub fn parse_create_input(input: &Vec<u8>) -> (r: Option<(Vec<u8>, bool)>)
    ensures
        spec_trim(input@).len() == 0 ==> r is None,
        spec_trim(input@).len() > 0 ==> (r matches Some(p) && p.0@ == spec_trim(input@) && p.1 == (
        spec_trim(input@).last() == 47u8)),
{
    let t = trim_bytes(input);
    if t.len() == 0 {
        None
    } else {
        let is_dir = t[t.len() - 1] == 47u8;
        Some((t, is_dir))
    }
}

} // verus!

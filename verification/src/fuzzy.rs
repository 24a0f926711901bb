//! Incremental fuzzy find: an entry matches when its display name starts
//! with the query, compared case-insensitively unless a case-sensitive flag
//! is set. The matcher reports the first matching index in listing order and
//! how many entries match; an empty query matches nothing.
use vstd::prelude::*;

verus! {

use crate::entry::Entry;
use crate::entry::EntryModel;
use crate::entry::models;

/// ASCII case folding of one byte: letters `A`..`Z` map to their lowercase
/// forms, every other byte is unchanged.
pub open spec fn lower_byte(b: u8) -> u8 {
    if 65 <= b <= 90 {
        (b + 32) as u8
    } else {
        b
    }
}

/// Case folding of a whole name.
pub open spec fn fold_case(s: Seq<u8>) -> Seq<u8> {
    s.map_values(|b: u8| lower_byte(b))
}

/// `p` is a prefix of `s`.
pub open spec fn is_prefix_of(p: Seq<u8>, s: Seq<u8>) -> bool {
    p.len() <= s.len() && p == s.subrange(0, p.len() as int)
}

/// The matching predicate: the name starts with the query, after case
/// folding both unless the search is case-sensitive.
pub open spec fn spec_name_matches(q: Seq<u8>, name: Seq<u8>, case_sensitive: bool) -> bool {
    if case_sensitive {
        is_prefix_of(q, name)
    } else {
        is_prefix_of(fold_case(q), fold_case(name))
    }
}

/// How many entries of a listing match the query.
pub open spec fn spec_match_count(entries: Seq<EntryModel>, q: Seq<u8>, case_sensitive: bool) -> nat
    decreases entries.len(),
{
    if entries.len() == 0 {
        0nat
    } else {
        spec_match_count(entries.drop_last(), q, case_sensitive) + if spec_name_matches(
            q,
            entries.last().name,
            case_sensitive,
        ) {
            1nat
        } else {
            0nat
        }
    }
}

/// Case folding of one byte.
fn lower_byte_exec(b: u8) -> (r: u8)
    ensures
        r == lower_byte(b),
{
    if 65 <= b && b <= 90 {
        b + 32
    } else {
        b
    }
}

/// Whether a name matches the query.
pub fn name_matches(query: &Vec<u8>, name: &Vec<u8>, case_sensitive: bool) -> (r: bool)
    ensures
        r == spec_name_matches(query@, name@, case_sensitive),
{
    if query.len() > name.len() {
        proof {
            assert(fold_case(query@).len() == query@.len());
            assert(fold_case(name@).len() == name@.len());
        }
        return false;
    }
    let mut i: usize = 0;
    while i < query.len()
        invariant
            i <= query@.len() <= name@.len(),
            case_sensitive ==> forall|k: int| 0 <= k < i ==> query@[k] == name@[k],
            !case_sensitive ==> forall|k: int|
                0 <= k < i ==> lower_byte(query@[k]) == lower_byte(name@[k]),
        decreases query@.len() - i,
    {
        let qb = query[i];
        let nb = name[i];
        let same = if case_sensitive {
            qb == nb
        } else {
            lower_byte_exec(qb) == lower_byte_exec(nb)
        };
        if !same {
            proof {
                if case_sensitive {
                    assert(name@.subrange(0, query@.len() as int)[i as int] == name@[i as int]);
                } else {
                    assert(fold_case(query@)[i as int] == lower_byte(query@[i as int]));
                    assert(fold_case(name@).subrange(0, query@.len() as int)[i as int]
                        == lower_byte(name@[i as int]));
                }
            }
            return false;
        }
        i = i + 1;
    }
    proof {
        if case_sensitive {
            assert(query@ =~= name@.subrange(0, query@.len() as int));
        } else {
            assert(fold_case(query@) =~= fold_case(name@).subrange(0, query@.len() as int));
        }
    }
    true
}

/// The fuzzy matcher over the current listing: the lowest matching index, if
/// any, and the number of matches. An empty query yields no match.
pub fn fuzzy_match(entries: &Vec<Entry>, query: &Vec<u8>, case_sensitive: bool) -> (r: (
    Option<usize>,
    usize,
))
    ensures
        query@.len() == 0 ==> r.0 is None && r.1 == 0,
        query@.len() > 0 ==> {
            &&& r.1 == spec_match_count(models(entries@), query@, case_sensitive)
            &&& match r.0 {
                Some(i) => {
                    &&& (i as int) < entries@.len()
                    &&& spec_name_matches(
                        query@,
                        models(entries@)[i as int].name,
                        case_sensitive,
                    )
                    &&& forall|j: int|
                        0 <= j < i ==> !spec_name_matches(
                            query@,
                            models(entries@)[j].name,
                            case_sensitive,
                        )
                    &&& r.1 > 0
                },
                None => {
                    &&& forall|j: int|
                        0 <= j < entries@.len() ==> !spec_name_matches(
                            query@,
                            models(entries@)[j].name,
                            case_sensitive,
                        )
                    &&& r.1 == 0
                },
            }
        },
{
    if query.len() == 0 {
        return (None, 0);
    }
    let mut first: Option<usize> = None;
    let mut count: usize = 0;
    let mut i: usize = 0;
    while i < entries.len()
        invariant
            i <= entries@.len(),
            query@.len() > 0,
            count <= i,
            count == spec_match_count(models(entries@).take(i as int), query@, case_sensitive),
            match first {
                Some(f) => {
                    &&& (f as int) < i
                    &&& spec_name_matches(
                        query@,
                        models(entries@)[f as int].name,
                        case_sensitive,
                    )
                    &&& forall|j: int|
                        0 <= j < f ==> !spec_name_matches(
                            query@,
                            models(entries@)[j].name,
                            case_sensitive,
                        )
                    &&& count > 0
                },
                None => {
                    &&& forall|j: int|
                        0 <= j < i ==> !spec_name_matches(
                            query@,
                            models(entries@)[j].name,
                            case_sensitive,
                        )
                    &&& count == 0
                },
            },
        decreases entries@.len() - i,
    {
        let m = name_matches(query, &entries[i].name, case_sensitive);
        proof {
            let ms = models(entries@);
            assert(ms.take(i as int + 1).drop_last() =~= ms.take(i as int));
            assert(ms.take(i as int + 1).last() == ms[i as int]);
            assert(ms[i as int].name == entries@[i as int].name@);
        }
        if m {
            count = count + 1;
            if first.is_none() {
                first = Some(i);
            }
        }
        i = i + 1;
    }
    proof {
        assert(models(entries@).take(entries@.len() as int) =~= models(entries@));
    }
    (first, count)
}


/// A matching entry makes the match count positive.
proof fn lemma_match_count_positive(entries: Seq<EntryModel>, q: Seq<u8>, cs: bool, i: int)
    requires
        0 <= i < entries.len(),
        spec_name_matches(q, entries[i].name, cs),
    ensures
        spec_match_count(entries, q, cs) >= 1,
    decreases entries.len(),
{
    if i < entries.len() - 1 {
        lemma_match_count_positive(entries.drop_last(), q, cs, i);
    }
}

/// Two matching entries make the match count at least two.
proof fn lemma_two_matches(entries: Seq<EntryModel>, q: Seq<u8>, cs: bool, i: int, j: int)
    requires
        0 <= i < j < entries.len(),
        spec_name_matches(q, entries[i].name, cs),
        spec_name_matches(q, entries[j].name, cs),
    ensures
        spec_match_count(entries, q, cs) >= 2,
    decreases entries.len(),
{
    if j == entries.len() - 1 {
        lemma_match_count_positive(entries.drop_last(), q, cs, i);
    } else {
        lemma_two_matches(entries.drop_last(), q, cs, i, j);
    }
}

/// Law: when exactly one entry matches the query, the matching entry is the
/// only one — auto-navigation on a unique match never has a second
/// candidate.
pub proof fn lemma_unique_match(entries: Seq<EntryModel>, q: Seq<u8>, cs: bool, i: int)
    requires
        spec_match_count(entries, q, cs) == 1,
        0 <= i < entries.len(),
        spec_name_matches(q, entries[i].name, cs),
    ensures
        forall|j: int|
            0 <= j < entries.len() && j != i ==> !spec_name_matches(q, entries[j].name, cs),
{
    assert forall|j: int|
        0 <= j < entries.len() && j != i implies !spec_name_matches(q, entries[j].name, cs) by {
        if spec_name_matches(q, entries[j].name, cs) {
            if j < i {
                lemma_two_matches(entries, q, cs, j, i);
            } else {
                lemma_two_matches(entries, q, cs, i, j);
            }
        }
    }
}

/// A UTF-8 continuation byte.
pub open spec fn spec_is_cont_byte(b: u8) -> bool {
    128 <= b < 192
}

/// The query with its trailing continuation bytes dropped.
pub open spec fn spec_drop_cont(s: Seq<u8>) -> Seq<u8>
    decreases s.len(),
{
    if s.len() > 0 && spec_is_cont_byte(s.last()) {
        spec_drop_cont(s.drop_last())
    } else {
        s
    }
}

/// The query with its last character removed: the character's continuation
/// bytes go, then its leading byte. An empty query stays empty.
pub open spec fn spec_pop_char(s: Seq<u8>) -> Seq<u8> {
    let t = spec_drop_cont(s);
    if t.len() > 0 {
        t.drop_last()
    } else {
        t
    }
}

/// Removes the last character from a query held as UTF-8 bytes.
pub fn pop_char(q: &mut Vec<u8>)
    ensures
        final(q)@ == spec_pop_char(old(q)@),
{
    loop
        invariant
            spec_drop_cont(q@) == spec_drop_cont(old(q)@),
        ensures
            q@ == spec_drop_cont(old(q)@),
        decreases q@.len(),
    {
        let n = q.len();
        if n == 0 {
            break ;
        }
        let b = q[n - 1];
        if 128 <= b && b < 192 {
            let popped = q.pop();
        } else {
            break ;
        }
    }
    if q.len() > 0 {
        let popped = q.pop();
    }
}

} // verus!

//! Ranking of scored documents.
//!
//! Scores are IEEE 754 single-precision bit patterns.  On bit patterns the
//! IEEE ordering of the represented values is a plain integer comparison
//! after a sign fix-up, so sorting by score needs no floating point at all:
//! `spec_score_key` maps a bit pattern to an integer that ascends exactly as
//! the represented value does (with the NaN patterns at the two extremes,
//! and -0.0 immediately below +0.0 — ties between equal scores are ranked
//! in an unspecified order anyway).

use vstd::prelude::*;
use vstd::seq_lib::group_seq_properties;
use vstd::multiset::Multiset;
use crate::spec_min;

verus! {

/// The integer ordering key of an IEEE 754 single, given by bit pattern.
pub open spec fn spec_score_key(bits: u32) -> int {
    if bits >= 0x8000_0000 {
        0xffff_ffff - bits
    } else {
        bits + 0x8000_0000
    }
}

/// Descending by score, pairwise.
pub open spec fn spec_sorted_desc(s: Seq<(String, u32)>) -> bool {
    forall|a: int, b: int|
        0 <= a < b < s.len() ==> spec_score_key((#[trigger] s[b]).1) <= spec_score_key(
            (#[trigger] s[a]).1,
        )
}

/// The ordering key of a score's bit pattern.
pub fn score_key(bits: u32) -> (k: u64)
    ensures
        k == spec_score_key(bits),
{
    if bits >= 0x8000_0000 {
        0xffff_ffffu64 - bits as u64
    } else {
        bits as u64 + 0x8000_0000
    }
}

/// Sorts `(id, score)` pairs descending by score and keeps the first
/// `top_k`: the returned prefix comes from some complete descending
/// ordering of the input pairs.
pub fn rank_top_k(scored: Vec<(String, u32)>, top_k: usize) -> (r: Vec<(String, u32)>)
    ensures
        r@.len() == spec_min(top_k as int, scored@.len() as int),
        spec_sorted_desc(r@),
        exists|full: Seq<(String, u32)>|
            #![auto]
            full.to_multiset() == scored@.to_multiset() && spec_sorted_desc(full) && r@
                == full.take(spec_min(top_k as int, scored@.len() as int)),
{
    broadcast use group_seq_properties;
    broadcast use vstd::seq_lib::group_to_multiset_ensures;
    broadcast use vstd::multiset::group_multiset_axioms;

    let n = scored.len();
    let mut sorted: Vec<(String, u32)> = Vec::new();
    let mut rest = scored;
    let ghost orig = rest@;
    while rest.len() > 0
        invariant
            sorted@.len() + rest@.len() == orig.len(),
            spec_sorted_desc(sorted@),
            sorted@.to_multiset().add(rest@.to_multiset()) == orig.to_multiset(),
        decreases rest@.len(),
    {
        let ghost rest0 = rest@;
        let item = rest.pop().unwrap();
        proof {
            assert(rest0.drop_last().push(rest0.last()) =~= rest0);
            vstd::seq_lib::to_multiset_build(rest0.drop_last(), rest0.last());
            assert(rest0.to_multiset() == rest0.drop_last().to_multiset().insert(rest0.last()));
        }
        let key = score_key(item.1);
        let mut p: usize = 0;
        while p < sorted.len() && score_key(sorted[p].1) >= key
            invariant
                p <= sorted@.len(),
                key == spec_score_key(item.1),
                forall|a: int|
                    0 <= a < p ==> spec_score_key((#[trigger] sorted@[a]).1) >= spec_score_key(
                        item.1,
                    ),
            decreases sorted@.len() - p,
        {
            p += 1;
        }
        assert(p == sorted@.len() || spec_score_key(sorted@[p as int].1) < spec_score_key(
            item.1,
        ));
        let ghost sorted0 = sorted@;
        sorted.insert(p, item);
        proof {
            let s2 = sorted@;
            assert(s2 == sorted0.insert(p as int, item));
            sorted0.insert_ensures(p as int, item);
            assert forall|a: int, b: int| 0 <= a < b < s2.len() implies spec_score_key(
                (#[trigger] s2[b]).1,
            ) <= spec_score_key((#[trigger] s2[a]).1) by {
                if b < p {
                    assert(s2[a] == sorted0[a] && s2[b] == sorted0[b]);
                } else if b == p {
                    assert(s2[a] == sorted0[a]);
                } else if a == p {
                    assert(s2[b] == sorted0[b - 1]);
                    assert(spec_score_key(sorted0[p as int].1) < spec_score_key(item.1));
                    if b - 1 > p {
                        assert(spec_score_key(sorted0[b - 1].1) <= spec_score_key(
                            sorted0[p as int].1,
                        ));
                    }
                } else if a < p {
                    assert(s2[a] == sorted0[a] && s2[b] == sorted0[b - 1]);
                } else {
                    assert(s2[a] == sorted0[a - 1] && s2[b] == sorted0[b - 1]);
                }
            }
            vstd::seq_lib::to_multiset_insert(sorted0, p as int, item);
            assert(s2.to_multiset() == sorted0.to_multiset().insert(item));
            assert(sorted@.to_multiset().add(rest@.to_multiset()) =~= orig.to_multiset());
        }
    }
    let ghost full = sorted@;
    assert(rest@.to_multiset() =~= Multiset::<(String, u32)>::empty());
    assert(full.to_multiset() =~= orig.to_multiset());

    let keep = if top_k < sorted.len() {
        top_k
    } else {
        sorted.len()
    };
    sorted.truncate(keep);
    assert(sorted@ == full.subrange(0, keep as int));
    assert(full.take(keep as int) == full.subrange(0, keep as int));
    assert(full.to_multiset() == scored@.to_multiset() && spec_sorted_desc(full) && sorted@
        == full.take(spec_min(top_k as int, scored@.len() as int)));
    sorted
}

} // verus!

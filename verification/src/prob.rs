//! Cumulative probability tables built from integer weight ratios.
//!
//! A table is an ordered sequence of `(category, lower, upper)` entries
//! whose half-open intervals `[lower, upper)` are contiguous and cover
//! `[0, total)` exactly, where `total` is the sum of the input weights.
//! A draw is an integer in `[0, total)` — the numerator of a fraction of
//! `total` — so every draw falls in exactly one interval and an interval's
//! width is exactly its category's input weight.

use vstd::prelude::*;

verus! {

/// The sum of the integer weights of a ratio list.
pub open spec fn weight_sum<T>(ratios: Seq<(T, u64)>) -> int
    decreases ratios.len(),
{
    if ratios.len() == 0 {
        0
    } else {
        weight_sum(ratios.drop_last()) + ratios.last().1
    }
}

/// Table well-formedness: intervals start at zero, are each non-empty or
/// empty but never reversed, and are contiguous in table order.
pub open spec fn table_wf<T>(t: Seq<(T, u64, u64)>) -> bool {
    &&& t.len() > 0 ==> t[0].1 == 0
    &&& forall|i: int| 0 <= i < t.len() ==> (#[trigger] t[i]).1 <= t[i].2
    &&& forall|i: int| 0 <= i && i + 1 < t.len() ==> (#[trigger] t[i]).2 == t[i + 1].1
}

/// The upper bound of the last interval: the sum of all weights.
pub open spec fn table_total<T>(t: Seq<(T, u64, u64)>) -> u64 {
    if t.len() == 0 {
        0
    } else {
        t.last().2
    }
}

/// Whether entry `i` of the table contains `draw`.
pub open spec fn entry_contains<T>(t: Seq<(T, u64, u64)>, i: int, draw: u64) -> bool {
    0 <= i < t.len() && t[i].1 <= draw < t[i].2
}

/// A prefix of a ratio list never weighs more than the whole list.
proof fn lemma_weight_sum_prefix<T>(ratios: Seq<(T, u64)>, i: int)
    requires
        0 <= i <= ratios.len(),
    ensures
        weight_sum(ratios.subrange(0, i)) <= weight_sum(ratios),
    decreases ratios.len(),
{
    if i == ratios.len() {
        assert(ratios.subrange(0, i) =~= ratios);
    } else {
        assert(ratios.drop_last().subrange(0, i) =~= ratios.subrange(0, i));
        lemma_weight_sum_prefix(ratios.drop_last(), i);
    }
}

/// Converts a list of (category, integer weight) pairs into a table of
/// cumulative half-open sampling intervals, in input order, each interval
/// exactly as wide as its weight. Returns `None` when the total weight is
/// zero — sampling would be undefined — or does not fit the bound type.
#[verifier::loop_isolation(false)]
pub fn calculate_probability<T: Copy>(integer_ratios: &Vec<(T, u64)>) -> (r: Option<
    Vec<(T, u64, u64)>,
>)
    ensures
        match r {
            Some(table) => {
                &&& 0 < weight_sum(integer_ratios@) <= u64::MAX
                &&& table@.len() == integer_ratios@.len()
                &&& table_wf(table@)
                &&& table_total(table@) == weight_sum(integer_ratios@)
                &&& forall|i: int|
                    0 <= i < table@.len() ==> (#[trigger] table@[i]).0 == integer_ratios@[i].0
                        && table@[i].2 - table@[i].1 == integer_ratios@[i].1
            },
            None => weight_sum(integer_ratios@) == 0 || weight_sum(integer_ratios@) > u64::MAX,
        },
{
    let mut resulting_probs: Vec<(T, u64, u64)> = Vec::new();
    let mut acc: u64 = 0;
    let mut i: usize = 0;
    while i < integer_ratios.len()
        invariant
            0 <= i <= integer_ratios@.len(),
            resulting_probs@.len() == i,
            acc == weight_sum(integer_ratios@.subrange(0, i as int)),
            table_wf(resulting_probs@),
            i > 0 ==> table_total(resulting_probs@) == acc,
            forall|j: int|
                0 <= j < i ==> (#[trigger] resulting_probs@[j]).0 == integer_ratios@[j].0
                    && resulting_probs@[j].2 - resulting_probs@[j].1 == integer_ratios@[j].1,
        decreases integer_ratios@.len() - i,
    {
        let (item, integer_prob) = integer_ratios[i];
        proof {
            assert(integer_ratios@.subrange(0, i + 1).drop_last() =~= integer_ratios@.subrange(
                0,
                i as int,
            ));
            assert(integer_ratios@.subrange(0, i + 1).last() == integer_ratios@[i as int]);
        }
        match acc.checked_add(integer_prob) {
            Some(next) => {
                resulting_probs.push((item, acc, next));
                acc = next;
            }
            None => {
                proof {
                    lemma_weight_sum_prefix(integer_ratios@, i + 1);
                }
                return None;
            }
        }
        i = i + 1;
    }
    proof {
        assert(integer_ratios@.subrange(0, integer_ratios@.len() as int) =~= integer_ratios@);
    }
    if acc == 0 {
        None
    } else {
        Some(resulting_probs)
    }
}

/// A scan that rejected every interval of a well-formed table must have
/// been given a draw at or past the table's total.
proof fn lemma_scan_exhausts<T>(t: Seq<(T, u64, u64)>, draw: u64)
    requires
        forall|i: int| 0 <= i && i + 1 < t.len() ==> (#[trigger] t[i]).2 == t[i + 1].1,
        t.len() > 0,
        draw >= t[0].1,
        forall|i: int| 0 <= i < t.len() ==> !(#[trigger] t[i].1 <= draw < t[i].2),
    ensures
        draw >= t.last().2,
    decreases t.len(),
{
    if t.len() == 1 {
    } else {
        let t2 = t.drop_first();
        assert forall|i: int| 0 <= i && i + 1 < t2.len() implies (#[trigger] t2[i]).2 == t2[i
            + 1].1 by {
            assert(t2[i] == t[i + 1]);
            assert(t2[i + 1] == t[i + 2]);
        }
        assert(t2[0] == t[1]);
        assert(draw >= t[0].2);
        assert forall|i: int| 0 <= i < t2.len() implies !(#[trigger] t2[i].1 <= draw
            < t2[i].2) by {
            assert(t2[i] == t[i + 1]);
        }
        lemma_scan_exhausts(t2, draw);
        assert(t2.last() == t.last());
    }
}

/// In a well-formed table, intervals never overlap: an earlier interval
/// ends no later than a later one begins.
proof fn lemma_table_monotone<T>(t: Seq<(T, u64, u64)>, i: int, j: int)
    requires
        table_wf(t),
        0 <= i < j < t.len(),
    ensures
        t[i].2 <= t[j].1,
    decreases j - i,
{
    if j == i + 1 {
    } else {
        lemma_table_monotone(t, i, j - 1);
    }
}

/// Sampling is total and unambiguous: every integer draw below the
/// table's total falls within exactly one entry's interval.
pub proof fn lemma_sampling_total<T>(t: Seq<(T, u64, u64)>, draw: u64)
    requires
        table_wf(t),
        t.len() > 0,
        draw < table_total(t),
    ensures
        exists|i: int| entry_contains(t, i, draw),
        forall|i: int, j: int|
            #[trigger] entry_contains(t, i, draw) && #[trigger] entry_contains(t, j, draw) ==> i
                == j,
{
    if !(exists|i: int| entry_contains(t, i, draw)) {
        assert(forall|i: int| 0 <= i < t.len() ==> !(#[trigger] t[i].1 <= draw < t[i].2))
            by {
            assert forall|i: int| 0 <= i < t.len() implies !(#[trigger] t[i].1 <= draw
                < t[i].2) by {
                assert(!entry_contains(t, i, draw));
            }
        }
        lemma_scan_exhausts(t, draw);
    }
    assert forall|i: int, j: int|
        #[trigger] entry_contains(t, i, draw) && #[trigger] entry_contains(t, j, draw) implies i
        == j by {
        if i < j {
            lemma_table_monotone(t, i, j);
        } else if j < i {
            lemma_table_monotone(t, j, i);
        }
    }
}

/// Scans the table in order and returns the first category whose interval
/// contains `draw`. A draw past every interval — only possible at or above
/// the table's total — falls back to the first-listed category.
#[verifier::loop_isolation(false)]
pub fn sample_probability<T: Copy>(table: &Vec<(T, u64, u64)>, draw: u64) -> (r: T)
    requires
        table_wf(table@),
        table@.len() > 0,
    ensures
        draw < table_total(table@) ==> exists|i: int|
            #[trigger] entry_contains(table@, i, draw) && r == table@[i].0,
        draw >= table_total(table@) ==> r == table@[0].0,
{
    let mut i: usize = 0;
    while i < table.len()
        invariant
            0 <= i <= table@.len(),
            forall|j: int| 0 <= j < i ==> !(#[trigger] table@[j].1 <= draw < table@[j].2),
        decreases table@.len() - i,
    {
        let (category, lower, upper) = table[i];
        if lower <= draw && draw < upper {
            proof {
                assert(entry_contains(table@, i as int, draw));
                if i as int != table@.len() - 1 {
                    lemma_table_monotone(table@, i as int, table@.len() - 1);
                }
                assert(draw < table_total(table@));
            }
            return category;
        }
        i = i + 1;
    }
    proof {
        lemma_scan_exhausts(table@, draw);
    }
    table[0].0
}

} // verus!

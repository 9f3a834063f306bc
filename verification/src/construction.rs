//! Construction sites: the progress engine, contribution rules and the
//! modules granted to a finished station.

use vstd::prelude::*;
use vstd::string::*;

verus! {

/// Total quantity delivered for `item_id` over a list of `(item_id, quantity)`
/// contribution rows.
pub open spec fn delivered_total(contributions: Seq<(u32, u32)>, item_id: u32) -> nat
    decreases contributions.len(),
{
    if contributions.len() == 0 {
        0
    } else {
        let last = contributions.last();
        delivered_total(contributions.drop_last(), item_id) + if last.0 == item_id {
            last.1 as nat
        } else {
            0nat
        }
    }
}

/// The completion ratio of one requirement `(item_id, quantity_required)` as a
/// fraction `(numerator, denominator)`: the delivered amount capped at the
/// required amount, over the required amount. A requirement of zero counts as
/// complete, `1 / 1`.
pub open spec fn requirement_ratio(requirement: (u32, u32), contributions: Seq<(u32, u32)>) -> (u32, u32) {
    if requirement.1 == 0 {
        (1u32, 1u32)
    } else {
        let total = delivered_total(contributions, requirement.0);
        (if total >= requirement.1 { requirement.1 } else { total as u32 }, requirement.1)
    }
}

/// The completion ratio of every requirement, in the order of the spec.
pub open spec fn progress_ratios(requirements: Seq<(u32, u32)>, contributions: Seq<(u32, u32)>) -> Seq<(u32, u32)> {
    requirements.map_values(|r: (u32, u32)| requirement_ratio(r, contributions))
}

/// Is one requirement satisfied by the contributions?
pub open spec fn requirement_met(requirement: (u32, u32), contributions: Seq<(u32, u32)>) -> bool {
    delivered_total(contributions, requirement.0) >= requirement.1
}

/// Is every requirement of a non-empty spec satisfied?
pub open spec fn construction_complete(requirements: Seq<(u32, u32)>, contributions: Seq<(u32, u32)>) -> bool {
    &&& requirements.len() > 0
    &&& forall|i: int| 0 <= i < requirements.len() ==> requirement_met(#[trigger] requirements[i], contributions)
}

/// Construction progress: one completion ratio per required resource.
///
/// The percentage shown to players is the average of these ratios times
/// one hundred (zero for an empty spec). Each ratio is capped at one, so
/// over-delivering one resource cannot make up for a deficit in another.
pub struct ConstructionProgress {
    /// `(numerator, denominator)` per requirement, in spec order.
    pub ratios: Vec<(u32, u32)>,
}

impl ConstructionProgress {
    /// Has every required resource been delivered in full (and is there at
    /// least one requirement)?
    pub fn is_complete(&self) -> (r: bool)
        ensures
            r == (self.ratios@.len() > 0 && forall|i: int|
                0 <= i < self.ratios@.len() ==> (#[trigger] self.ratios@[i]).0 == self.ratios@[i].1),
    {
        if self.ratios.len() == 0 {
            return false;
        }
        let mut i: usize = 0;
        while i < self.ratios.len()
            invariant
                0 <= i <= self.ratios@.len(),
                forall|j: int| 0 <= j < i ==> (#[trigger] self.ratios@[j]).0 == self.ratios@[j].1,
            decreases self.ratios@.len() - i,
        {
            if self.ratios[i].0 != self.ratios[i].1 {
                return false;
            }
            i = i + 1;
        }
        true
    }
}

proof fn lemma_delivered_total_push(contributions: Seq<(u32, u32)>, row: (u32, u32), item_id: u32)
    ensures
        delivered_total(contributions.push(row), item_id) == delivered_total(contributions, item_id) + if row.0 == item_id {
            row.1 as nat
        } else {
            0nat
        },
{
    assert(contributions.push(row).drop_last() =~= contributions);
}

/// Total delivered for `item_id`, saturated at `u32::MAX`.
fn delivered_saturating(contributions: &[(u32, u32)], item_id: u32) -> (total: u32)
    ensures
        total as nat == if delivered_total(contributions@, item_id) > u32::MAX as nat {
            u32::MAX as nat
        } else {
            delivered_total(contributions@, item_id)
        },
{
    let mut total: u32 = 0;
    let mut j: usize = 0;
    while j < contributions.len()
        invariant
            0 <= j <= contributions@.len(),
            total as nat == if delivered_total(contributions@.take(j as int), item_id) > u32::MAX as nat {
                u32::MAX as nat
            } else {
                delivered_total(contributions@.take(j as int), item_id)
            },
        decreases contributions@.len() - j,
    {
        let (id, qty) = contributions[j];
        proof {
            assert(contributions@.take(j + 1) =~= contributions@.take(j as int).push(contributions@[j as int]));
            lemma_delivered_total_push(contributions@.take(j as int), contributions@[j as int], item_id);
        }
        if id == item_id {
            total = total.saturating_add(qty);
        }
        j = j + 1;
    }
    assert(contributions@.take(contributions@.len() as int) =~= contributions@);
    total
}

/// Compute construction progress: the completion ratio of every required
/// resource type.
///
/// `requirements` is the spec, `(item_id, quantity_required)` per resource
/// type; `contributions` are `(item_id, quantity)` rows, summed per item id.
/// Items contributed but not required are ignored. A requirement of zero
/// counts as complete.
pub fn compute_construction_progress(requirements: &[(u32, u32)], contributions: &[(u32, u32)]) -> (progress: ConstructionProgress)
    ensures
        progress.ratios@ == progress_ratios(requirements@, contributions@),
{
    let mut ratios: Vec<(u32, u32)> = Vec::new();
    let mut i: usize = 0;
    while i < requirements.len()
        invariant
            0 <= i <= requirements@.len(),
            ratios@ == progress_ratios(requirements@.take(i as int), contributions@),
        decreases requirements@.len() - i,
    {
        let (item_id, required) = requirements[i];
        let ratio = if required == 0 {
            (1u32, 1u32)
        } else {
            let total = delivered_saturating(contributions, item_id);
            (if total >= required { required } else { total }, required)
        };
        ratios.push(ratio);
        proof {
            assert(requirements@.take(i + 1) =~= requirements@.take(i as int).push(requirements@[i as int]));
        }
        i = i + 1;
        assert(ratios@ =~= progress_ratios(requirements@.take(i as int), contributions@));
    }
    assert(requirements@.take(requirements@.len() as int) =~= requirements@);
    ConstructionProgress { ratios }
}

/// The distinct item ids of a list of rows, in order of first appearance.
pub open spec fn distinct_item_ids(rows: Seq<(u32, u32)>) -> Seq<u32>
    decreases rows.len(),
{
    if rows.len() == 0 {
        Seq::empty()
    } else {
        let prev = distinct_item_ids(rows.drop_last());
        if prev.contains(rows.last().0) {
            prev
        } else {
            prev.push(rows.last().0)
        }
    }
}

/// Contribution rows grouped per item id: one `(item_id, total)` row per
/// distinct item, in order of first appearance.
pub open spec fn aggregated_contributions(rows: Seq<(u32, u32)>) -> Seq<(u32, u32)> {
    distinct_item_ids(rows).map_values(|id: u32| (id, delivered_total(rows, id) as u32))
}

/// No item's total over `rows` exceeds `u32::MAX`.
pub open spec fn totals_fit_u32(rows: Seq<(u32, u32)>) -> bool {
    forall|id: u32| #[trigger] delivered_total(rows, id) <= u32::MAX as nat
}

proof fn lemma_distinct_item_ids(rows: Seq<(u32, u32)>)
    ensures
        distinct_item_ids(rows).no_duplicates(),
        forall|id: u32| distinct_item_ids(rows).contains(id) <==> exists|k: int| 0 <= k < rows.len() && (#[trigger] rows[k]).0 == id,
    decreases rows.len(),
{
    if rows.len() > 0 {
        let prev = rows.drop_last();
        let pd = distinct_item_ids(prev);
        let last = rows[rows.len() - 1].0;
        lemma_distinct_item_ids(prev);
        if !pd.contains(last) {
            let d = pd.push(last);
            assert(d.no_duplicates()) by {
                assert forall|a: int, b: int| 0 <= a < d.len() && 0 <= b < d.len() && a != b implies d[a] != d[b] by {
                    if a < pd.len() && b < pd.len() {
                        assert(d[a] == pd[a] && d[b] == pd[b]);
                    } else if a < pd.len() {
                        assert(d[a] == pd[a]);
                        assert(pd.contains(pd[a]));
                    } else if b < pd.len() {
                        assert(d[b] == pd[b]);
                        assert(pd.contains(pd[b]));
                    }
                }
            }
        }
        assert forall|id: u32| distinct_item_ids(rows).contains(id) implies exists|k: int| 0 <= k < rows.len() && (#[trigger] rows[k]).0 == id by {
            if pd.contains(id) {
                let k = choose|k: int| 0 <= k < prev.len() && (#[trigger] prev[k]).0 == id;
                assert(rows[k] == prev[k]);
            } else {
                let d = pd.push(last);
                let j = choose|j: int| 0 <= j < d.len() && d[j] == id;
                if j < pd.len() {
                    assert(pd[j] == d[j]);
                    assert(pd.contains(id));
                }
                assert(rows[rows.len() - 1].0 == id);
            }
        }
        assert forall|id: u32| (exists|k: int| 0 <= k < rows.len() && (#[trigger] rows[k]).0 == id) implies distinct_item_ids(rows).contains(id) by {
            let k = choose|k: int| 0 <= k < rows.len() && (#[trigger] rows[k]).0 == id;
            if k < rows.len() - 1 {
                assert(prev[k] == rows[k]);
                assert(pd.contains(id));
                if !pd.contains(last) {
                    let j = choose|j: int| 0 <= j < pd.len() && pd[j] == id;
                    assert(pd.push(last)[j] == id);
                }
            } else if !pd.contains(last) {
                assert(pd.push(last)[pd.len() as int] == id);
            }
        }
    }
}

proof fn lemma_delivered_total_absent(rows: Seq<(u32, u32)>, id: u32)
    requires
        forall|k: int| 0 <= k < rows.len() ==> (#[trigger] rows[k]).0 != id,
    ensures
        delivered_total(rows, id) == 0,
    decreases rows.len(),
{
    if rows.len() > 0 {
        let prev = rows.drop_last();
        assert forall|k: int| 0 <= k < prev.len() implies (#[trigger] prev[k]).0 != id by {
            assert(prev[k] == rows[k]);
        }
        lemma_delivered_total_absent(prev, id);
        assert(rows[rows.len() - 1].0 != id);
    }
}

proof fn lemma_delivered_total_prefix(rows: Seq<(u32, u32)>, n: int, id: u32)
    requires
        0 <= n <= rows.len(),
    ensures
        delivered_total(rows.take(n), id) <= delivered_total(rows, id),
    decreases rows.len() - n,
{
    if n < rows.len() {
        lemma_delivered_total_prefix(rows, n + 1, id);
        assert(rows.take(n + 1) =~= rows.take(n).push(rows[n]));
        lemma_delivered_total_push(rows.take(n), rows[n], id);
    } else {
        assert(rows.take(n) =~= rows);
    }
}

/// Over rows with pairwise distinct ids, the total of `id` is the amount on
/// its row (or zero when there is none).
proof fn lemma_total_of_unique_rows(ids: Seq<u32>, rows: Seq<(u32, u32)>, id: u32)
    requires
        ids.no_duplicates(),
        rows.len() == ids.len(),
        forall|k: int| 0 <= k < rows.len() ==> (#[trigger] rows[k]).0 == ids[k],
    ensures
        delivered_total(rows, id) == if ids.contains(id) {
            rows[ids.index_of(id)].1 as nat
        } else {
            0nat
        },
    decreases rows.len(),
{
    if rows.len() > 0 {
        let n = rows.len() - 1;
        let pids = ids.drop_last();
        let prows = rows.drop_last();
        assert(pids.no_duplicates()) by {
            assert forall|a: int, b: int| 0 <= a < pids.len() && 0 <= b < pids.len() && a != b implies pids[a] != pids[b] by {
                assert(pids[a] == ids[a] && pids[b] == ids[b]);
            }
        }
        assert forall|k: int| 0 <= k < prows.len() implies (#[trigger] prows[k]).0 == pids[k] by {
            assert(prows[k] == rows[k]);
        }
        lemma_total_of_unique_rows(pids, prows, id);
        if ids.contains(id) {
            ids.index_of_first_ensures(id);
            let k = ids.index_of(id);
            if k == n {
                assert(!pids.contains(id)) by {
                    if pids.contains(id) {
                        let j = choose|j: int| 0 <= j < pids.len() && pids[j] == id;
                        assert(ids[j] == id);
                    }
                }
            } else {
                assert(pids.contains(id)) by {
                    assert(pids[k] == id);
                }
                pids.index_of_first_ensures(id);
                let pk = pids.index_of(id);
                assert(ids[pk] == id);
                assert(pk == k);
                assert(ids[n] != id);
                assert(prows[k] == rows[k]);
            }
        } else {
            assert(ids[n] != id);
            assert(!pids.contains(id)) by {
                if pids.contains(id) {
                    let j = choose|j: int| 0 <= j < pids.len() && pids[j] == id;
                    assert(ids[j] == id);
                }
            }
        }
    }
}

/// Grouping contribution rows per item keeps every item's total.
pub proof fn lemma_aggregated_totals(rows: Seq<(u32, u32)>, id: u32)
    requires
        totals_fit_u32(rows),
    ensures
        delivered_total(aggregated_contributions(rows), id) == delivered_total(rows, id),
{
    let ids = distinct_item_ids(rows);
    let agg = aggregated_contributions(rows);
    lemma_distinct_item_ids(rows);
    assert forall|k: int| 0 <= k < agg.len() implies (#[trigger] agg[k]).0 == ids[k] by {}
    lemma_total_of_unique_rows(ids, agg, id);
    if ids.contains(id) {
        ids.index_of_first_ensures(id);
        assert(delivered_total(rows, id) <= u32::MAX as nat);
    } else {
        assert forall|k: int| 0 <= k < rows.len() implies (#[trigger] rows[k]).0 != id by {
            if rows[k].0 == id {
                assert(ids.contains(id));
            }
        }
        lemma_delivered_total_absent(rows, id);
    }
}

/// Sum every contribution row per item id: one `(item_id, total)` row per
/// distinct item, in order of first appearance.
pub fn aggregate_contributions(rows: &[(u32, u32)]) -> (totals: Vec<(u32, u32)>)
    requires
        totals_fit_u32(rows@),
    ensures
        totals@ == aggregated_contributions(rows@),
{
    let mut totals: Vec<(u32, u32)> = Vec::new();
    let mut i: usize = 0;
    while i < rows.len()
        invariant
            0 <= i <= rows@.len(),
            totals_fit_u32(rows@),
            totals@ == aggregated_contributions(rows@.take(i as int)),
        decreases rows@.len() - i,
    {
        let (item_id, qty) = rows[i];
        let ghost prefix = rows@.take(i as int);
        let ghost next = rows@.take(i + 1);
        proof {
            assert(next =~= prefix.push(rows@[i as int]));
            assert(next.drop_last() =~= prefix);
            lemma_distinct_item_ids(prefix);
            lemma_delivered_total_prefix(rows@, i + 1, item_id);
            assert forall|id: u32| #[trigger] delivered_total(next, id) == delivered_total(prefix, id) + if id == item_id {
                qty as nat
            } else {
                0nat
            } by {
                lemma_delivered_total_push(prefix, rows@[i as int], id);
            }
        }
        let mut k: usize = 0;
        while k < totals.len() && totals[k].0 != item_id
            invariant
                0 <= k <= totals@.len(),
                forall|j: int| 0 <= j < k ==> (#[trigger] totals@[j]).0 != item_id,
            decreases totals@.len() - k,
        {
            k = k + 1;
        }
        let found = k < totals.len();
        let ghost ids = distinct_item_ids(prefix);
        if found {
            proof {
                assert(ids[k as int] == item_id);
                assert(ids.contains(item_id));
            }
            let sum = totals[k].1 + qty;
            totals.set(k, (item_id, sum));
            proof {
                assert(distinct_item_ids(next) == ids);
                assert forall|j: int| 0 <= j < totals@.len() implies #[trigger] totals@[j] == aggregated_contributions(next)[j] by {
                    if j != k {
                        assert(ids[j] != item_id);
                    }
                }
                assert(totals@ =~= aggregated_contributions(next));
            }
        } else {
            totals.push((item_id, qty));
            proof {
                assert(!ids.contains(item_id)) by {
                    if ids.contains(item_id) {
                        let j = choose|j: int| 0 <= j < ids.len() && ids[j] == item_id;
                        assert(totals@[j].0 == item_id);
                    }
                }
                assert(distinct_item_ids(next) == ids.push(item_id));
                assert forall|k: int| 0 <= k < prefix.len() implies (#[trigger] prefix[k]).0 != item_id by {
                    if prefix[k].0 == item_id {
                        assert(ids.contains(item_id));
                    }
                }
                lemma_delivered_total_absent(prefix, item_id);
                assert forall|j: int| 0 <= j < totals@.len() implies #[trigger] totals@[j] == aggregated_contributions(next)[j] by {
                    if j < ids.len() {
                        assert(ids[j] != item_id);
                    }
                }
                assert(totals@ =~= aggregated_contributions(next));
            }
        }
        i = i + 1;
    }
    assert(rows@.take(rows@.len() as int) =~= rows@);
    totals
}

/// Progress stays within `[0, 100]` percent: every ratio has a positive
/// denominator and a numerator no larger than it.
pub proof fn law_progress_ratios_bounded(requirements: Seq<(u32, u32)>, contributions: Seq<(u32, u32)>)
    ensures
        forall|i: int| 0 <= i < requirements.len() ==> {
            let r = #[trigger] progress_ratios(requirements, contributions)[i];
            0 < r.1 && r.0 <= r.1
        },
{
}

/// Progress reaches one hundred percent exactly when every requirement of a
/// non-empty spec has been delivered in full: over-delivering one resource
/// cannot mask a deficit in another.
pub proof fn law_progress_complete_iff_all_delivered(requirements: Seq<(u32, u32)>, contributions: Seq<(u32, u32)>)
    ensures
        ({
            let ratios = progress_ratios(requirements, contributions);
            ratios.len() > 0 && forall|i: int| 0 <= i < ratios.len() ==> (#[trigger] ratios[i]).0 == ratios[i].1
        }) <==> construction_complete(requirements, contributions),
{
    let ratios = progress_ratios(requirements, contributions);
    assert forall|i: int| 0 <= i < requirements.len() implies ((#[trigger] ratios[i]).0 == ratios[i].1 <==> requirement_met(
        requirements[i],
        contributions,
    )) by {}
    if construction_complete(requirements, contributions) {
        assert forall|i: int| 0 <= i < ratios.len() implies (#[trigger] ratios[i]).0 == ratios[i].1 by {
            assert(requirement_met(requirements[i], contributions));
        }
    }
    if ratios.len() > 0 && forall|i: int| 0 <= i < ratios.len() ==> (#[trigger] ratios[i]).0 == ratios[i].1 {
        assert forall|i: int| 0 <= i < requirements.len() implies requirement_met(#[trigger] requirements[i], contributions) by {
            assert(ratios[i].0 == ratios[i].1);
        }
    }
}

/// Progress depends on the contributions only through each item's total.
proof fn lemma_progress_depends_on_totals(requirements: Seq<(u32, u32)>, a: Seq<(u32, u32)>, b: Seq<(u32, u32)>)
    requires
        forall|id: u32| #[trigger] delivered_total(a, id) == delivered_total(b, id),
    ensures
        progress_ratios(requirements, a) == progress_ratios(requirements, b),
{
    assert(progress_ratios(requirements, a) =~= progress_ratios(requirements, b)) by {
        assert forall|i: int| 0 <= i < requirements.len() implies #[trigger] progress_ratios(requirements, a)[i]
            == progress_ratios(requirements, b)[i] by {
            assert(delivered_total(a, requirements[i].0) == delivered_total(b, requirements[i].0));
        }
    }
}

/// Grouping the contribution rows per item (as the station refresh does)
/// leaves the progress unchanged: duplicate rows behave like their sum.
pub proof fn law_aggregation_preserves_progress(requirements: Seq<(u32, u32)>, rows: Seq<(u32, u32)>)
    requires
        totals_fit_u32(rows),
    ensures
        progress_ratios(requirements, aggregated_contributions(rows)) == progress_ratios(requirements, rows),
{
    assert forall|id: u32| #[trigger] delivered_total(aggregated_contributions(rows), id) == delivered_total(rows, id) by {
        lemma_aggregated_totals(rows, id);
    }
    lemma_progress_depends_on_totals(requirements, aggregated_contributions(rows), rows);
}

/// A contribution of an item the spec does not require changes nothing.
pub proof fn law_unrequired_contribution_ignored(requirements: Seq<(u32, u32)>, rows: Seq<(u32, u32)>, row: (u32, u32))
    requires
        forall|i: int| 0 <= i < requirements.len() ==> (#[trigger] requirements[i]).0 != row.0,
    ensures
        progress_ratios(requirements, rows.push(row)) == progress_ratios(requirements, rows),
{
    assert(progress_ratios(requirements, rows.push(row)) =~= progress_ratios(requirements, rows)) by {
        assert forall|i: int| 0 <= i < requirements.len() implies #[trigger] progress_ratios(requirements, rows.push(row))[i]
            == progress_ratios(requirements, rows)[i] by {
            lemma_delivered_total_push(rows, row, requirements[i].0);
        }
    }
}

/// A further contribution never lowers the progress of any requirement.
pub proof fn law_contribution_never_lowers_progress(requirements: Seq<(u32, u32)>, rows: Seq<(u32, u32)>, row: (u32, u32))
    ensures
        forall|i: int| 0 <= i < requirements.len() ==> (#[trigger] progress_ratios(requirements, rows.push(row))[i]).0
            >= progress_ratios(requirements, rows)[i].0,
{
    assert forall|i: int| 0 <= i < requirements.len() implies (#[trigger] progress_ratios(requirements, rows.push(row))[i]).0
        >= progress_ratios(requirements, rows)[i].0 by {
        lemma_delivered_total_push(rows, row, requirements[i].0);
    }
}

/// The total of an item over two lists of rows is the sum of its totals.
proof fn lemma_delivered_total_append(a: Seq<(u32, u32)>, b: Seq<(u32, u32)>, item_id: u32)
    ensures
        delivered_total(a + b, item_id) == delivered_total(a, item_id) + delivered_total(b, item_id),
    decreases b.len(),
{
    if b.len() == 0 {
        assert(a + b =~= a);
    } else {
        lemma_delivered_total_append(a, b.drop_last(), item_id);
        assert((a + b).drop_last() =~= a + b.drop_last());
    }
}

/// The total of an item depends only on which rows there are, not on their
/// order.
proof fn lemma_delivered_total_reorder(a: Seq<(u32, u32)>, b: Seq<(u32, u32)>, item_id: u32)
    requires
        a.to_multiset() == b.to_multiset(),
    ensures
        delivered_total(a, item_id) == delivered_total(b, item_id),
    decreases a.len(),
{
    broadcast use vstd::seq_lib::group_to_multiset_ensures;

    if a.len() == 0 {
        assert(b.to_multiset().len() == 0);
        assert(b.len() == 0);
    } else {
        let x = a.last();
        assert(a =~= a.drop_last().push(x));
        assert(a.to_multiset().count(x) > 0);
        assert(b.contains(x));
        let k = choose|k: int| 0 <= k < b.len() && b[k] == x;
        let rest = b.remove(k);
        assert(b =~= b.take(k) + seq![x] + b.skip(k + 1));
        assert(rest =~= b.take(k) + b.skip(k + 1));
        assert(rest.to_multiset() =~= b.to_multiset().remove(x)) by {
            vstd::seq_lib::lemma_seq_union_to_multiset_commutative(b.take(k), seq![x]);
            vstd::seq_lib::lemma_multiset_commutative(b.take(k), seq![x]);
            vstd::seq_lib::lemma_multiset_commutative(b.take(k) + seq![x], b.skip(k + 1));
            vstd::seq_lib::lemma_multiset_commutative(b.take(k), b.skip(k + 1));
        }
        assert(a.drop_last().to_multiset() =~= a.to_multiset().remove(x));
        lemma_delivered_total_reorder(a.drop_last(), rest, item_id);
        lemma_delivered_total_append(b.take(k), seq![x], item_id);
        lemma_delivered_total_append(b.take(k) + seq![x], b.skip(k + 1), item_id);
        lemma_delivered_total_append(b.take(k), b.skip(k + 1), item_id);
        let cx: nat = if x.0 == item_id { x.1 as nat } else { 0nat };
        assert(seq![x] =~= Seq::<(u32, u32)>::empty().push(x));
        lemma_delivered_total_push(Seq::<(u32, u32)>::empty(), x, item_id);
        assert(delivered_total(seq![x], item_id) == cx);
        lemma_delivered_total_push(a.drop_last(), x, item_id);
        assert(delivered_total(a, item_id) == delivered_total(a.drop_last(), item_id) + cx);
        assert(delivered_total(b, item_id) == delivered_total(b.take(k), item_id) + cx + delivered_total(b.skip(k + 1), item_id));
    }
}

/// Appending further contribution rows, in any number, never lowers the
/// progress of any requirement.
pub proof fn law_appended_contributions_never_lower_progress(
    requirements: Seq<(u32, u32)>,
    rows: Seq<(u32, u32)>,
    extra: Seq<(u32, u32)>,
)
    ensures
        forall|i: int| 0 <= i < requirements.len() ==> (#[trigger] progress_ratios(requirements, rows + extra)[i]).0
            >= progress_ratios(requirements, rows)[i].0,
        forall|i: int| 0 <= i < requirements.len() ==> (#[trigger] progress_ratios(requirements, rows + extra)[i]).1
            == progress_ratios(requirements, rows)[i].1,
{
    assert forall|i: int| 0 <= i < requirements.len() implies (#[trigger] progress_ratios(requirements, rows + extra)[i]).0
        >= progress_ratios(requirements, rows)[i].0 by {
        lemma_delivered_total_append(rows, extra, requirements[i].0);
    }
}

/// The order of the contribution rows does not matter: any reordering of
/// them gives the same progress.
pub proof fn law_reordered_contributions_keep_progress(
    requirements: Seq<(u32, u32)>,
    rows: Seq<(u32, u32)>,
    reordered: Seq<(u32, u32)>,
)
    requires
        reordered.to_multiset() == rows.to_multiset(),
    ensures
        progress_ratios(requirements, reordered) == progress_ratios(requirements, rows),
{
    assert forall|id: u32| #[trigger] delivered_total(reordered, id) == delivered_total(rows, id) by {
        lemma_delivered_total_reorder(reordered, rows, id);
    }
    lemma_progress_depends_on_totals(requirements, reordered, rows);
}

/// What is delivered of an item is the sum of the quantities of its rows:
/// nothing for no rows, a row's quantity for a row of that item, nothing for
/// a row of another item, and totals add up over concatenated rows.
pub proof fn law_delivered_total_is_row_sum(a: Seq<(u32, u32)>, b: Seq<(u32, u32)>, row: (u32, u32), item_id: u32)
    ensures
        delivered_total(Seq::empty(), item_id) == 0,
        delivered_total(seq![row], item_id) == if row.0 == item_id { row.1 as nat } else { 0nat },
        delivered_total(a + b, item_id) == delivered_total(a, item_id) + delivered_total(b, item_id),
{
    assert(seq![row] =~= Seq::<(u32, u32)>::empty().push(row));
    lemma_delivered_total_push(Seq::<(u32, u32)>::empty(), row, item_id);
    lemma_delivered_total_append(a, b, item_id);
}

/// One ratio per requirement, in spec order: a requirement of zero counts as
/// complete (1 / 1); any other counts what was delivered of its item, capped
/// at the required quantity, over the required quantity.
pub proof fn law_progress_ratio_of_each_requirement(requirements: Seq<(u32, u32)>, contributions: Seq<(u32, u32)>)
    ensures
        progress_ratios(requirements, contributions).len() == requirements.len(),
        forall|i: int|
            0 <= i < requirements.len() ==> {
                let (item, required) = requirements[i];
                let delivered = delivered_total(contributions, item);
                #[trigger] progress_ratios(requirements, contributions)[i] == if required == 0 {
                    (1u32, 1u32)
                } else if delivered >= required {
                    (required, required)
                } else {
                    (delivered as u32, required)
                }
            },
{
}

/// Why a contribution to a construction site was refused.
#[derive(Clone, Copy, Debug, PartialEq, Eq, Structural)]
pub enum ContributionError {
    /// A contribution of zero items.
    ZeroQuantity,
    /// The station is not a construction site.
    NotUnderConstruction,
    /// The site is already operational.
    AlreadyOperational,
    /// The ship and the station are in different sectors.
    WrongSector { ship_sector_id: u64, station_sector_id: u64 },
    /// The ship is farther from the site than the contribution range.
    OutOfRange,
    /// The site does not require this item.
    NotRequired { item_id: u32 },
    /// Everything required of this item has been delivered already.
    AlreadySatisfied { contributed: u32, required: u32 },
    /// The capped quantity does not fit the ship's cargo counter.
    ExceedsCargoLimit { quantity: u32 },
    /// The ship does not carry enough of the item.
    NotEnoughCargo { needed: u32, available: u32 },
}

/// The quantity required of `item_id` by the first requirement row naming it.
pub open spec fn requirement_for(requirements: Seq<(u32, u32)>, item_id: u32) -> Option<u32>
    decreases requirements.len(),
{
    if requirements.len() == 0 {
        None
    } else if requirements[0].0 == item_id {
        Some(requirements[0].1)
    } else {
        requirement_for(requirements.skip(1), item_id)
    }
}

/// Total quantity of `item_id` over a ship's `(item_id, quantity)` cargo rows.
pub open spec fn cargo_total(cargo: Seq<(u32, u16)>, item_id: u32) -> nat
    decreases cargo.len(),
{
    if cargo.len() == 0 {
        0
    } else {
        cargo_total(cargo.drop_last(), item_id) + if cargo.last().0 == item_id {
            cargo.last().1 as nat
        } else {
            0nat
        }
    }
}

/// The outcome of a deposit request: the number of items actually taken (the
/// request capped at what the site still needs) or the reason for refusal,
/// checked in this order.
pub open spec fn contribution_outcome(
    quantity: u32,
    site_operational: Option<bool>,
    ship_sector_id: u64,
    station_sector_id: u64,
    within_range: bool,
    requirements: Seq<(u32, u32)>,
    contributions: Seq<(u32, u32)>,
    item_id: u32,
    cargo: Seq<(u32, u16)>,
) -> Result<u16, ContributionError> {
    if quantity == 0 {
        Err(ContributionError::ZeroQuantity)
    } else if site_operational is None {
        Err(ContributionError::NotUnderConstruction)
    } else if site_operational == Some(true) {
        Err(ContributionError::AlreadyOperational)
    } else if ship_sector_id != station_sector_id {
        Err(ContributionError::WrongSector { ship_sector_id, station_sector_id })
    } else if !within_range {
        Err(ContributionError::OutOfRange)
    } else if requirement_for(requirements, item_id) is None {
        Err(ContributionError::NotRequired { item_id })
    } else {
        let required = requirement_for(requirements, item_id)->0;
        let contributed = delivered_total(contributions, item_id);
        if contributed >= required {
            Err(ContributionError::AlreadySatisfied { contributed: contributed as u32, required })
        } else {
            let remainder = required - contributed;
            let capped = if quantity < remainder { quantity as int } else { remainder };
            if capped > u16::MAX {
                Err(ContributionError::ExceedsCargoLimit { quantity: capped as u32 })
            } else if cargo_total(cargo, item_id) < capped {
                Err(ContributionError::NotEnoughCargo { needed: capped as u32, available: cargo_total(cargo, item_id) as u32 })
            } else {
                Ok(capped as u16)
            }
        }
    }
}

fn find_requirement(requirements: &[(u32, u32)], item_id: u32) -> (found: Option<u32>)
    ensures
        found == requirement_for(requirements@, item_id),
{
    let mut i: usize = 0;
    assert(requirements@.skip(0) =~= requirements@);
    while i < requirements.len()
        invariant
            0 <= i <= requirements@.len(),
            requirement_for(requirements@, item_id) == requirement_for(requirements@.skip(i as int), item_id),
        decreases requirements@.len() - i,
    {
        assert(requirements@.skip(i as int).skip(1) =~= requirements@.skip(i + 1));
        if requirements[i].0 == item_id {
            return Some(requirements[i].1);
        }
        i = i + 1;
    }
    None
}

fn cargo_available(cargo: &[(u32, u16)], item_id: u32) -> (total: u32)
    requires
        cargo_total(cargo@, item_id) <= u32::MAX,
    ensures
        total == cargo_total(cargo@, item_id),
{
    let mut total: u32 = 0;
    let mut j: usize = 0;
    while j < cargo.len()
        invariant
            0 <= j <= cargo@.len(),
            cargo_total(cargo@, item_id) <= u32::MAX,
            total == cargo_total(cargo@.take(j as int), item_id),
        decreases cargo@.len() - j,
    {
        proof {
            assert(cargo@.take(j + 1).drop_last() =~= cargo@.take(j as int));
            lemma_cargo_total_prefix(cargo@, j + 1, item_id);
        }
        if cargo[j].0 == item_id {
            total = total + cargo[j].1 as u32;
        }
        j = j + 1;
    }
    assert(cargo@.take(cargo@.len() as int) =~= cargo@);
    total
}

proof fn lemma_cargo_total_prefix(cargo: Seq<(u32, u16)>, n: int, item_id: u32)
    requires
        0 <= n <= cargo.len(),
    ensures
        cargo_total(cargo.take(n), item_id) <= cargo_total(cargo, item_id),
    decreases cargo.len() - n,
{
    if n < cargo.len() {
        lemma_cargo_total_prefix(cargo, n + 1, item_id);
        assert(cargo.take(n + 1).drop_last() =~= cargo.take(n));
    } else {
        assert(cargo.take(n) =~= cargo);
    }
}

/// `k` is the position of the first requirement row naming `item_id`.
pub open spec fn first_requirement_at(requirements: Seq<(u32, u32)>, item_id: u32, k: int) -> bool {
    &&& 0 <= k < requirements.len()
    &&& requirements[k].0 == item_id
    &&& forall|j: int| 0 <= j < k ==> requirements[j].0 != item_id
}

/// A requirement is read from the first row naming the item; an item no row
/// names is not required.
pub proof fn law_requirement_is_first_match(requirements: Seq<(u32, u32)>, item_id: u32, k: int)
    ensures
        first_requirement_at(requirements, item_id, k) ==> requirement_for(requirements, item_id) == Some(requirements[k].1),
        (forall|i: int| 0 <= i < requirements.len() ==> requirements[i].0 != item_id) ==> requirement_for(requirements, item_id) is None,
    decreases requirements.len(),
{
    if requirements.len() > 0 {
        let rest = requirements.skip(1);
        if first_requirement_at(requirements, item_id, k) && k > 0 {
            assert forall|j: int| 0 <= j < k - 1 implies rest[j].0 != item_id by {
                assert(rest[j] == requirements[j + 1]);
            }
            assert(rest[k - 1] == requirements[k]);
            assert(first_requirement_at(rest, item_id, k - 1));
        }
        law_requirement_is_first_match(rest, item_id, k - 1);
        if forall|i: int| 0 <= i < requirements.len() ==> requirements[i].0 != item_id {
            assert forall|i: int| 0 <= i < rest.len() implies rest[i].0 != item_id by {
                assert(rest[i] == requirements[i + 1]);
            }
        }
    }
}

/// What a ship carries of an item is the sum of its cargo rows of that item.
pub proof fn law_cargo_total_is_row_sum(a: Seq<(u32, u16)>, row: (u32, u16), item_id: u32)
    ensures
        cargo_total(Seq::empty(), item_id) == 0,
        cargo_total(a.push(row), item_id) == cargo_total(a, item_id) + if row.0 == item_id { row.1 as nat } else { 0nat },
{
    assert(a.push(row).drop_last() =~= a);
}

/// The refusals that come before the requirement is looked up, in order: a
/// deposit of nothing, a station that is no construction site, a site that
/// is already operational, a ship in another sector, a ship out of range.
pub proof fn law_contribution_early_refusals(
    quantity: u32,
    site_operational: Option<bool>,
    ship_sector_id: u64,
    station_sector_id: u64,
    within_range: bool,
    requirements: Seq<(u32, u32)>,
    contributions: Seq<(u32, u32)>,
    item_id: u32,
    cargo: Seq<(u32, u16)>,
)
    ensures
        ({
            let o = contribution_outcome(quantity, site_operational, ship_sector_id, station_sector_id, within_range,
                requirements, contributions, item_id, cargo);
            &&& quantity == 0 ==> o == Err::<u16, ContributionError>(ContributionError::ZeroQuantity)
            &&& quantity > 0 && site_operational is None ==> o == Err::<u16, ContributionError>(ContributionError::NotUnderConstruction)
            &&& quantity > 0 && site_operational == Some(true) ==> o == Err::<u16, ContributionError>(ContributionError::AlreadyOperational)
            &&& quantity > 0 && site_operational == Some(false) && ship_sector_id != station_sector_id ==> o == Err::<u16, ContributionError>(ContributionError::WrongSector { ship_sector_id, station_sector_id })
            &&& quantity > 0 && site_operational == Some(false) && ship_sector_id == station_sector_id && !within_range ==> o == Err::<u16, ContributionError>(ContributionError::OutOfRange)
            &&& quantity > 0 && site_operational == Some(false) && ship_sector_id == station_sector_id && within_range
                && (forall|i: int| 0 <= i < requirements.len() ==> requirements[i].0 != item_id)
                ==> o == Err::<u16, ContributionError>(ContributionError::NotRequired { item_id })
        }),
{
    law_requirement_is_first_match(requirements, item_id, 0);
}

/// A deposit of a required item (first requirement row `k`) at an open site
/// in range: refused when the item is already satisfied; otherwise the
/// request is capped at what is still needed, and that capped amount is
/// taken whenever it fits a cargo counter and the ship carries it.
pub proof fn law_contribution_of_required_item(
    quantity: u32,
    station_sector_id: u64,
    requirements: Seq<(u32, u32)>,
    contributions: Seq<(u32, u32)>,
    item_id: u32,
    cargo: Seq<(u32, u16)>,
    k: int,
)
    requires
        quantity > 0,
        first_requirement_at(requirements, item_id, k),
    ensures
        ({
            let o = contribution_outcome(quantity, Some(false), station_sector_id, station_sector_id, true, requirements,
                contributions, item_id, cargo);
            let required = requirements[k].1;
            let contributed = delivered_total(contributions, item_id);
            let still_needed = required - contributed;
            let capped = if quantity <= still_needed { quantity as int } else { still_needed };
            &&& contributed >= required ==> o == Err::<u16, ContributionError>(ContributionError::AlreadySatisfied { contributed: contributed as u32, required })
            &&& contributed < required && capped > u16::MAX ==> o == Err::<u16, ContributionError>(ContributionError::ExceedsCargoLimit { quantity: capped as u32 })
            &&& contributed < required && capped <= u16::MAX && cargo_total(cargo, item_id) < capped ==> o == Err::<u16, ContributionError>(ContributionError::NotEnoughCargo { needed: capped as u32, available: cargo_total(cargo, item_id) as u32 })
            &&& contributed < required && capped <= u16::MAX && cargo_total(cargo, item_id) >= capped ==> o == Ok::<u16, ContributionError>(capped as u16)
        }),
{
    law_requirement_is_first_match(requirements, item_id, k);
}

/// Validates a deposit of `quantity` units of `item_id` from a ship into a
/// construction site and caps it at what the site still needs.
///
/// `site_operational` is the site's `is_operational` flag, `None` when the
/// station is not a construction site. `within_range` is the outcome of the
/// distance check between ship and station. `contributions` are the site's
/// contribution rows, `cargo` the ship's cargo rows.
pub fn plan_contribution(
    quantity: u32,
    site_operational: Option<bool>,
    ship_sector_id: u64,
    station_sector_id: u64,
    within_range: bool,
    requirements: &[(u32, u32)],
    contributions: &[(u32, u32)],
    item_id: u32,
    cargo: &[(u32, u16)],
) -> (outcome: Result<u16, ContributionError>)
    requires
        totals_fit_u32(contributions@),
        cargo_total(cargo@, item_id) <= u32::MAX,
    ensures
        outcome == contribution_outcome(
            quantity,
            site_operational,
            ship_sector_id,
            station_sector_id,
            within_range,
            requirements@,
            contributions@,
            item_id,
            cargo@,
        ),
{
    if quantity == 0 {
        return Err(ContributionError::ZeroQuantity);
    }
    match site_operational {
        None => {
            return Err(ContributionError::NotUnderConstruction);
        },
        Some(true) => {
            return Err(ContributionError::AlreadyOperational);
        },
        Some(false) => {},
    }
    if ship_sector_id != station_sector_id {
        return Err(ContributionError::WrongSector { ship_sector_id, station_sector_id });
    }
    if !within_range {
        return Err(ContributionError::OutOfRange);
    }
    let required = match find_requirement(requirements, item_id) {
        Some(r) => r,
        None => {
            return Err(ContributionError::NotRequired { item_id });
        },
    };
    let totals = aggregate_contributions(contributions);
    let mut already_contributed: u32 = 0;
    let mut k: usize = 0;
    while k < totals.len()
        invariant
            0 <= k <= totals@.len(),
            totals@ == aggregated_contributions(contributions@),
            totals_fit_u32(contributions@),
            already_contributed == delivered_total(totals@.take(k as int), item_id),
        decreases totals@.len() - k,
    {
        proof {
            assert(totals@.take(k + 1) =~= totals@.take(k as int).push(totals@[k as int]));
            lemma_delivered_total_push(totals@.take(k as int), totals@[k as int], item_id);
            lemma_delivered_total_prefix(totals@, k + 1, item_id);
            lemma_aggregated_totals(contributions@, item_id);
        }
        if totals[k].0 == item_id {
            already_contributed = already_contributed + totals[k].1;
        }
        k = k + 1;
    }
    proof {
        assert(totals@.take(totals@.len() as int) =~= totals@);
        lemma_aggregated_totals(contributions@, item_id);
    }
    let remainder = required.saturating_sub(already_contributed);
    if remainder == 0 {
        return Err(ContributionError::AlreadySatisfied { contributed: already_contributed, required });
    }
    let effective = if quantity < remainder { quantity } else { remainder };
    if effective > 65535 {
        return Err(ContributionError::ExceedsCargoLimit { quantity: effective });
    }
    let available = cargo_available(cargo, item_id);
    if available < effective {
        return Err(ContributionError::NotEnoughCargo { needed: effective, available });
    }
    Ok(effective as u16)
}

/// An accepted contribution never exceeds what was asked, what the site
/// still needs, or what the ship carries: the delivered total can never
/// overshoot the requirement (the first requirement row naming the item,
/// which is the one the contribution is checked against).
pub proof fn law_contribution_capped_at_remainder(
    quantity: u32,
    site_operational: Option<bool>,
    ship_sector_id: u64,
    station_sector_id: u64,
    within_range: bool,
    requirements: Seq<(u32, u32)>,
    contributions: Seq<(u32, u32)>,
    item_id: u32,
    cargo: Seq<(u32, u16)>,
)
    requires
        contribution_outcome(
            quantity,
            site_operational,
            ship_sector_id,
            station_sector_id,
            within_range,
            requirements,
            contributions,
            item_id,
            cargo,
        ) is Ok,
    ensures
        ({
            let taken = contribution_outcome(
                quantity,
                site_operational,
                ship_sector_id,
                station_sector_id,
                within_range,
                requirements,
                contributions,
                item_id,
                cargo,
            )->Ok_0;
            &&& 0 < taken <= quantity
            &&& taken <= cargo_total(cargo, item_id)
            &&& requirement_for(requirements, item_id) matches Some(required) && delivered_total(contributions, item_id) + taken
                <= required
            &&& site_operational == Some(false)
            &&& ship_sector_id == station_sector_id
        }),
{
}

/// Recomputes a site's progress from its requirement spec and contribution
/// rows, and says whether this refresh completes it: progress is complete and
/// the site was not already operational. The host then stores the progress,
/// sets the operational flag to `was_operational || completes`, and only on
/// completion grants the modules and announces it, so at most once.
pub fn refresh_station_progress(requirements: &[(u32, u32)], contributions: &[(u32, u32)], was_operational: bool) -> (r: (
    ConstructionProgress,
    bool,
))
    requires
        totals_fit_u32(contributions@),
    ensures
        r.0.ratios@ == progress_ratios(requirements@, contributions@),
        r.1 == (construction_complete(requirements@, contributions@) && !was_operational),
        // The site is operational afterwards exactly when it was before or is
        // now complete; a refresh never takes the flag back.
        (was_operational || r.1) == (was_operational || construction_complete(requirements@, contributions@)),
        was_operational ==> !r.1,
{
    let totals = aggregate_contributions(contributions);
    let progress = compute_construction_progress(requirements, totals.as_slice());
    proof {
        law_aggregation_preserves_progress(requirements@, contributions@);
        law_progress_complete_iff_all_delivered(requirements@, contributions@);
    }
    let complete = progress.is_complete();
    let now_complete = complete && !was_operational;
    (progress, now_complete)
}

/// Why a construction site could not be created.
#[derive(Clone, Copy, Debug, PartialEq, Eq, Structural)]
pub enum SiteError {
    /// The spec lists no requirement, so the site could never complete.
    NoRequirements,
    /// A requirement of zero units (the first such item is named).
    ZeroQuantityRequirement { item_id: u32 },
}

/// Checks the requirement spec of a new construction site: it must be
/// non-empty and every quantity must be positive.
pub fn validate_construction_requirements(requirements: &[(u32, u32)]) -> (r: Result<(), SiteError>)
    ensures
        requirements@.len() == 0 ==> r == Err::<(), SiteError>(SiteError::NoRequirements),
        requirements@.len() > 0 && (forall|i: int| 0 <= i < requirements@.len() ==> (#[trigger] requirements@[i]).1 > 0) ==> r is Ok,
        requirements@.len() > 0 ==> forall|i: int|
            0 <= i < requirements@.len() && (#[trigger] requirements@[i]).1 == 0 && (forall|j: int| 0 <= j < i ==> requirements@[j].1 != 0)
                ==> r == Err::<(), SiteError>(SiteError::ZeroQuantityRequirement { item_id: requirements@[i].0 }),
{
    if requirements.len() == 0 {
        return Err(SiteError::NoRequirements);
    }
    let mut i: usize = 0;
    while i < requirements.len()
        invariant
            0 <= i <= requirements@.len(),
            forall|j: int| 0 <= j < i ==> (#[trigger] requirements@[j]).1 != 0,
        decreases requirements@.len() - i,
    {
        if requirements[i].1 == 0 {
            return Err(SiteError::ZeroQuantityRequirement { item_id: requirements[i].0 });
        }
        i = i + 1;
    }
    Ok(())
}

/// The lower-case form of a text, as `str::to_lowercase` computes it.
pub uninterp spec fn lowercase(text: Seq<char>) -> Seq<char>;

/// Calls `str::to_lowercase` and hands back the characters of the result;
/// claims only that they are the lower-case form of `text`, a function of
/// `text` alone.
#[verifier::external_body]
fn lowercase_chars(text: &str) -> (r: Vec<char>)
    ensures
        r@ == lowercase(text@),
{
    text.to_lowercase().chars().collect()
}

/// Does `needle` occur as a contiguous run inside `haystack`?
pub open spec fn has_substring(haystack: Seq<char>, needle: Seq<char>) -> bool {
    exists|i: int| 0 <= i && i + needle.len() <= haystack.len() && #[trigger] haystack.subrange(i, i + needle.len()) == needle
}

fn chars_contain(haystack: &Vec<char>, needle: &str) -> (r: bool)
    ensures
        r == has_substring(haystack@, needle@),
{
    let n = needle.unicode_len();
    let h = haystack.len();
    if n > h {
        assert forall|i: int| 0 <= i && i + needle@.len() <= haystack@.len() implies #[trigger] haystack@.subrange(i, i + needle@.len()) != needle@ by {}
        return false;
    }
    let mut i: usize = 0;
    while i <= h - n
        invariant
            n == needle@.len(),
            h == haystack@.len(),
            n <= h,
            0 <= i <= h - n + 1,
            forall|k: int| 0 <= k < i ==> #[trigger] haystack@.subrange(k, k + n) != needle@,
        decreases h - i,
    {
        let mut j: usize = 0;
        while j < n && haystack[i + j] == needle.get_char(j)
            invariant
                n == needle@.len(),
                h == haystack@.len(),
                i + n <= h,
                0 <= j <= n,
                forall|m: int| 0 <= m < j ==> haystack@[i + m] == needle@[m],
            decreases n - j,
        {
            j = j + 1;
        }
        if j == n {
            assert(haystack@.subrange(i as int, i + n) =~= needle@);
            return true;
        }
        assert(haystack@.subrange(i as int, i + n)[j as int] != needle@[j as int]);
        i = i + 1;
    }
    assert forall|k: int| 0 <= k && k + needle@.len() <= haystack@.len() implies #[trigger] haystack@.subrange(k, k + needle@.len()) != needle@ by {}
    false
}

/// What a finished construction site is for, read from keywords in its
/// (lower-cased) name; the first matching rule wins.
#[derive(Clone, Copy, Debug, PartialEq, Eq, Structural)]
pub enum StationPurpose {
    /// "refinery"
    Refinery,
    /// "bazaar", "exchange", "port", "depot" or "bazar"
    Market,
    /// "watch" or "outpost"
    Outpost,
    /// Anything else.
    General,
}

/// A module that a finished construction site is granted.
#[derive(Clone, Copy, Debug, PartialEq, Eq, Structural)]
pub enum GrantedModule {
    IronRefinery,
    IceRefinery,
    SiliconRefinery,
    TradingPort,
}

/// The purpose named by a lower-cased station name.
pub open spec fn purpose_of_lowercase(name: Seq<char>) -> StationPurpose {
    if has_substring(name, "refinery"@) {
        StationPurpose::Refinery
    } else if has_substring(name, "bazaar"@) || has_substring(name, "exchange"@) || has_substring(name, "port"@)
        || has_substring(name, "depot"@) || has_substring(name, "bazar"@) {
        StationPurpose::Market
    } else if has_substring(name, "watch"@) || has_substring(name, "outpost"@) {
        StationPurpose::Outpost
    } else {
        StationPurpose::General
    }
}

/// The modules granted for a purpose: the three basic refineries for a
/// refinery, a trading port for everything else, so that no finished
/// station is ever empty.
pub open spec fn modules_for_purpose(purpose: StationPurpose) -> Seq<GrantedModule> {
    match purpose {
        StationPurpose::Refinery => seq![GrantedModule::IronRefinery, GrantedModule::IceRefinery, GrantedModule::SiliconRefinery],
        _ => seq![GrantedModule::TradingPort],
    }
}

/// Classifies a station by the keywords in its already lower-cased name.
pub fn purpose_from_lowercase(lower: &Vec<char>) -> (purpose: StationPurpose)
    ensures
        purpose == purpose_of_lowercase(lower@),
{
    if chars_contain(lower, "refinery") {
        StationPurpose::Refinery
    } else if chars_contain(lower, "bazaar") || chars_contain(lower, "exchange") || chars_contain(lower, "port")
        || chars_contain(lower, "depot") || chars_contain(lower, "bazar") {
        StationPurpose::Market
    } else if chars_contain(lower, "watch") || chars_contain(lower, "outpost") {
        StationPurpose::Outpost
    } else {
        StationPurpose::General
    }
}

/// Classifies a station by the keywords in its name, ignoring case.
pub fn station_purpose(name: &str) -> (purpose: StationPurpose)
    ensures
        purpose == purpose_of_lowercase(lowercase(name@)),
{
    let lower = lowercase_chars(name);
    purpose_from_lowercase(&lower)
}

/// The modules granted to a station that has just completed construction,
/// chosen by keywords in its name; every station gets at least one.
pub fn modules_for_station_name(name: &str) -> (modules: Vec<GrantedModule>)
    ensures
        modules@ == modules_for_purpose(purpose_of_lowercase(lowercase(name@))),
        modules@.len() >= 1,
{
    match station_purpose(name) {
        StationPurpose::Refinery => {
            let v = vec![GrantedModule::IronRefinery, GrantedModule::IceRefinery, GrantedModule::SiliconRefinery];
            assert(v@ =~= modules_for_purpose(StationPurpose::Refinery));
            v
        },
        _ => {
            let v = vec![GrantedModule::TradingPort];
            assert(v@ =~= seq![GrantedModule::TradingPort]);
            v
        },
    }
}

/// The deposit amounts offered for a cargo row of `cargo_quantity` units at a
/// construction site: one, ten and a hundred where the row holds that many,
/// and the whole row.
pub open spec fn offered_deposits(cargo_quantity: u16) -> Seq<u32> {
    let tens: Seq<u32> = if cargo_quantity >= 10 { seq![10u32] } else { Seq::empty() };
    let hundreds: Seq<u32> = if cargo_quantity >= 100 { seq![100u32] } else { Seq::empty() };
    seq![1u32] + tens + hundreds + seq![cargo_quantity as u32]
}

/// Lists the deposit buttons shown for a cargo row at a construction site.
pub fn deposit_amounts(cargo_quantity: u16) -> (amounts: Vec<u32>)
    ensures
        amounts@ == offered_deposits(cargo_quantity),
{
    let mut amounts: Vec<u32> = vec![1];
    if cargo_quantity >= 10 {
        amounts.push(10);
    }
    if cargo_quantity >= 100 {
        amounts.push(100);
    }
    amounts.push(cargo_quantity as u32);
    assert(amounts@ =~= offered_deposits(cargo_quantity));
    amounts
}

} // verus!

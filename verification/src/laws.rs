//! What holds of the exchange as a whole: the laws that relate what the
//! lanes accumulated, what they finalized, and what the merge holds.

use crate::batch::Row;
use crate::cache::{bucket, merged, merged_bucket, merged_len};
use crate::sink::{first_failure, LaneOutcome, ShuffleSink};
use crate::source::ShuffleSource;
use vstd::multiset::Multiset;
use vstd::prelude::*;
use vstd::seq_lib::lemma_multiset_commutative;

verus! {

/// The rows that one lane accumulated, in the order of their arrival:
/// batch after batch, and within a batch row after row.
pub open spec fn lane_rows(pushed: Seq<Seq<Row>>) -> Seq<Row> {
    pushed.flatten()
}

/// The rows of the whole input: what every lane accumulated, lane after
/// lane.
pub open spec fn all_rows(pushed: Seq<Seq<Seq<Row>>>) -> Seq<Row>
    decreases pushed.len(),
{
    if pushed.len() == 0 {
        Seq::empty()
    } else {
        all_rows(pushed.drop_last()) + lane_rows(pushed.last())
    }
}

/// A lane keeps the order of arrival: the rows of a batch that the lane
/// accumulates follow all rows that it accumulated before, in the batch's
/// own order.
pub proof fn lemma_lane_keeps_arrival_order(pushed: Seq<Seq<Row>>, batch: Seq<Row>)
    ensures
        lane_rows(pushed.push(batch)) == lane_rows(pushed) + batch,
{
    pushed.lemma_flatten_push(batch);
}

/// Those of `rows` that belong to partition `p`, where `partition_of` says
/// for each row to which partition its key sends it.
pub open spec fn placed(rows: Multiset<Row>, partition_of: spec_fn(Row) -> int, p: int) -> Multiset<
    Row,
> {
    rows.filter(|r: Row| partition_of(r) == p)
}

/// What a write cache owes its lane: the cache that it finalizes holds, for
/// every partition, exactly the accumulated rows that belong there.
pub open spec fn partitions_input(
    cache: Seq<Seq<Row>>,
    pushed: Seq<Seq<Row>>,
    partition_of: spec_fn(Row) -> int,
) -> bool {
    forall|p: int| #[trigger]
        bucket(cache, p).to_multiset() == placed(lane_rows(pushed).to_multiset(), partition_of, p)
}

/// A lane finalizes its own rows only. Where a lane's finalized cache
/// partitions what the lane accumulated, every row in partition `p` of that
/// cache is a row that this lane accumulated, and belongs to `p`.
pub proof fn lemma_lane_finalizes_its_own_rows(
    cache: Seq<Seq<Row>>,
    pushed: Seq<Seq<Row>>,
    partition_of: spec_fn(Row) -> int,
    p: int,
    r: Row,
)
    requires
        partitions_input(cache, pushed, partition_of),
        bucket(cache, p).contains(r),
    ensures
        lane_rows(pushed).contains(r),
        partition_of(r) == p,
{
    broadcast use vstd::multiset::group_multiset_axioms;

    bucket(cache, p).to_multiset_ensures();
    lane_rows(pushed).to_multiset_ensures();
    assert(bucket(cache, p).to_multiset().count(r) > 0);
    assert(placed(lane_rows(pushed).to_multiset(), partition_of, p).count(r) > 0);
}

/// A partition of the merge is the merge's bucket for it, and beyond the
/// widest cache every bucket is empty.
pub proof fn lemma_merged_bucket(caches: Seq<Seq<Seq<Row>>>, p: int)
    ensures
        bucket(merged(caches), p) == merged_bucket(caches, p),
    decreases caches.len(),
{
    if caches.len() > 0 {
        lemma_merged_bucket(caches.drop_last(), p);
        if !(0 <= p < merged_len(caches)) {
            assert(bucket(caches.last(), p) =~= Seq::<Row>::empty());
            assert(merged_bucket(caches, p) =~= Seq::<Row>::empty());
        }
    }
}

/// Partition placement does not depend on the lanes. Where every lane's
/// finalized cache partitions what that lane accumulated, each partition of
/// the merge holds exactly the rows of the whole input that belong there:
/// none lost, none twice, however the batches were dealt to the lanes.
pub proof fn lemma_merge_partitions_all_input(
    pushed: Seq<Seq<Seq<Row>>>,
    caches: Seq<Seq<Seq<Row>>>,
    partition_of: spec_fn(Row) -> int,
    p: int,
)
    requires
        pushed.len() == caches.len(),
        forall|i: int|
            0 <= i < caches.len() ==> partitions_input(
                #[trigger] caches[i],
                pushed[i],
                partition_of,
            ),
    ensures
        bucket(merged(caches), p).to_multiset() == placed(
            all_rows(pushed).to_multiset(),
            partition_of,
            p,
        ),
    decreases caches.len(),
{
    broadcast use vstd::multiset::group_multiset_axioms;

    lemma_merged_bucket(caches, p);
    if caches.len() == 0 {
        assert(merged_bucket(caches, p).to_multiset().len() == 0) by {
            merged_bucket(caches, p).to_multiset_ensures();
        }
        assert(all_rows(pushed).to_multiset().len() == 0) by {
            all_rows(pushed).to_multiset_ensures();
        }
        assert(merged_bucket(caches, p).to_multiset() =~= placed(
            all_rows(pushed).to_multiset(),
            partition_of,
            p,
        ));
    } else {
        let last = caches.len() - 1;
        lemma_merge_partitions_all_input(pushed.drop_last(), caches.drop_last(), partition_of, p);
        lemma_merged_bucket(caches.drop_last(), p);
        assert(partitions_input(caches[last], pushed[last], partition_of));
        assert(bucket(caches.last(), p).to_multiset() == placed(
            lane_rows(pushed.last()).to_multiset(),
            partition_of,
            p,
        ));
        lemma_multiset_commutative(merged_bucket(caches.drop_last(), p), bucket(caches.last(), p));
        lemma_multiset_commutative(all_rows(pushed.drop_last()), lane_rows(pushed.last()));
        assert(merged_bucket(caches, p).to_multiset() =~= placed(
            all_rows(pushed).to_multiset(),
            partition_of,
            p,
        ));
    }
}

/// Two ways of dealing the same rows to lanes give the same partitions.
/// Where both runs partition what their lanes accumulated, and the whole
/// input of one run holds the rows of the other, each partition of one
/// merge holds the rows of the same partition of the other.
pub proof fn lemma_split_across_lanes_is_immaterial(
    pushed_a: Seq<Seq<Seq<Row>>>,
    caches_a: Seq<Seq<Seq<Row>>>,
    pushed_b: Seq<Seq<Seq<Row>>>,
    caches_b: Seq<Seq<Seq<Row>>>,
    partition_of: spec_fn(Row) -> int,
    p: int,
)
    requires
        pushed_a.len() == caches_a.len(),
        pushed_b.len() == caches_b.len(),
        forall|i: int|
            0 <= i < caches_a.len() ==> partitions_input(
                #[trigger] caches_a[i],
                pushed_a[i],
                partition_of,
            ),
        forall|i: int|
            0 <= i < caches_b.len() ==> partitions_input(
                #[trigger] caches_b[i],
                pushed_b[i],
                partition_of,
            ),
        all_rows(pushed_a).to_multiset() == all_rows(pushed_b).to_multiset(),
    ensures
        bucket(merged(caches_a), p).to_multiset() == bucket(merged(caches_b), p).to_multiset(),
{
    lemma_merge_partitions_all_input(pushed_a, caches_a, partition_of, p);
    lemma_merge_partitions_all_input(pushed_b, caches_b, partition_of, p);
}

/// Taking one cache out of a sequence of caches takes its rows out of each
/// bucket of the merge, and leaves a merge that is no wider.
proof fn lemma_merge_without(caches: Seq<Seq<Seq<Row>>>, j: int, p: int)
    requires
        0 <= j < caches.len(),
    ensures
        merged_bucket(caches, p).to_multiset() == merged_bucket(caches.remove(j), p).to_multiset().add(
            bucket(caches[j], p).to_multiset(),
        ),
        merged_len(caches) == if caches[j].len() > merged_len(caches.remove(j)) {
            caches[j].len()
        } else {
            merged_len(caches.remove(j))
        },
    decreases caches.len(),
{
    broadcast use vstd::multiset::group_multiset_axioms;

    let rest = caches.drop_last();
    if j == caches.len() - 1 {
        assert(caches.remove(j) =~= rest);
        lemma_multiset_commutative(merged_bucket(rest, p), bucket(caches.last(), p));
    } else {
        lemma_merge_without(rest, j, p);
        assert(caches.remove(j).drop_last() =~= rest.remove(j));
        assert(caches.remove(j).last() == caches.last());
        lemma_multiset_commutative(merged_bucket(rest, p), bucket(caches.last(), p));
        lemma_multiset_commutative(merged_bucket(rest.remove(j), p), bucket(caches.last(), p));
        assert(merged_bucket(caches, p).to_multiset() =~= merged_bucket(
            caches.remove(j),
            p,
        ).to_multiset().add(bucket(caches[j], p).to_multiset()));
    }
}

/// The merge does not depend on the order of the lanes. Where two
/// sequences hold the same finalized caches in any two orders, their merges
/// have the same number of partitions, and each partition holds the same
/// rows.
pub proof fn lemma_merge_ignores_lane_order(
    caches_a: Seq<Seq<Seq<Row>>>,
    caches_b: Seq<Seq<Seq<Row>>>,
    p: int,
)
    requires
        caches_a.to_multiset() == caches_b.to_multiset(),
    ensures
        merged(caches_a).len() == merged(caches_b).len(),
        bucket(merged(caches_a), p).to_multiset() == bucket(merged(caches_b), p).to_multiset(),
    decreases caches_a.len(),
{
    broadcast use vstd::multiset::group_multiset_axioms;
    broadcast use vstd::seq_lib::group_to_multiset_ensures;

    lemma_merged_bucket(caches_a, p);
    lemma_merged_bucket(caches_b, p);
    if caches_a.len() == 0 {
        assert(caches_b.len() == 0) by {
            caches_a.to_multiset_ensures();
            caches_b.to_multiset_ensures();
        }
    } else {
        let x = caches_a.last();
        let rest = caches_a.drop_last();
        assert(caches_a =~= rest.push(x));
        assert(caches_a.to_multiset().count(x) > 0);
        assert(caches_b.contains(x));
        let j = choose|j: int| 0 <= j < caches_b.len() && caches_b[j] == x;
        assert(rest.to_multiset() =~= caches_b.remove(j).to_multiset());
        lemma_merge_ignores_lane_order(rest, caches_b.remove(j), p);
        lemma_merged_bucket(rest, p);
        lemma_merged_bucket(caches_b.remove(j), p);
        lemma_merge_without(caches_b, j, p);
        lemma_multiset_commutative(merged_bucket(rest, p), bucket(x, p));
    }
}

/// Lanes do not interleave in the merge. The rows that one lane finalized
/// for a partition stand together in that partition of the merge, in the
/// lane's own order, right after the rows of the lanes before it.
pub proof fn lemma_lane_rows_stay_together(caches: Seq<Seq<Seq<Row>>>, lane: int, p: int)
    requires
        0 <= lane < caches.len(),
    ensures
        ({
            let start = merged_bucket(caches.take(lane), p).len() as int;
            let own = bucket(caches[lane], p);
            &&& start + own.len() <= bucket(merged(caches), p).len()
            &&& bucket(merged(caches), p).subrange(start, start + own.len()) == own
        }),
    decreases caches.len(),
{
    lemma_merged_bucket(caches, p);
    let rest = caches.drop_last();
    let start = merged_bucket(caches.take(lane), p).len() as int;
    let own = bucket(caches[lane], p);
    if lane == caches.len() - 1 {
        assert(caches.take(lane) =~= rest);
        assert(merged_bucket(caches, p).subrange(start, start + own.len()) =~= own);
    } else {
        lemma_lane_rows_stay_together(rest, lane, p);
        lemma_merged_bucket(rest, p);
        assert(rest.take(lane) =~= caches.take(lane));
        assert(merged_bucket(caches, p).subrange(start, start + own.len()) =~= merged_bucket(
            rest,
            p,
        ).subrange(start, start + own.len()));
    }
}

/// The join fails exactly where some lane fails: the first failure is
/// there if and only if at least one lane reports a failure.
pub proof fn lemma_any_failure_fails_the_join(lanes: Seq<LaneOutcome>)
    ensures
        first_failure(lanes) is Some <==> exists|i: int|
            0 <= i < lanes.len() && (#[trigger] lanes[i]).failure() is Some,
    decreases lanes.len(),
{
    if lanes.len() > 0 {
        let rest = lanes.drop_last();
        lemma_any_failure_fails_the_join(rest);
        if first_failure(rest) is Some {
            let i = choose|i: int| 0 <= i < rest.len() && (#[trigger] rest[i]).failure() is Some;
            assert(lanes[i].failure() is Some);
        } else if lanes.last().failure() is Some {
            assert(lanes[lanes.len() - 1].failure() is Some);
        } else {
            assert forall|i: int| 0 <= i < lanes.len() implies !((#[trigger] lanes[i]).failure()
                is Some) by {
                if i < rest.len() {
                    assert(rest[i] == lanes[i]);
                }
            }
        }
    }
}

/// No lanes merge to nothing: without any lane there is no failure, and
/// the merge is the artifact without partitions.
pub proof fn lemma_no_lanes_merge_to_nothing()
    ensures
        first_failure(Seq::<LaneOutcome>::empty()) is None,
        merged(Seq::<Seq<Seq<Row>>>::empty()) == Seq::<Seq<Row>>::empty(),
{
    assert(merged(Seq::<Seq<Seq<Row>>>::empty()) =~= Seq::<Seq<Row>>::empty());
}

/// The two ends of an exchange agree on the row layout. A source that
/// declares the layout that a sink is configured with yields exactly one
/// batch; that batch has the sink's layout, column for column, and no rows.
pub proof fn lemma_source_yields_sink_layout(sink: ShuffleSink, source: ShuffleSource)
    requires
        source.schema_view() == sink.schema_view(),
    ensures
        source.produced().len() == 1,
        source.produced()[0].schema == sink.schema_view(),
        source.produced()[0].rows.len() == 0,
{
}

} // verus!

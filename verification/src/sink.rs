//! The shuffle write sink: the operator that takes batches from many lanes
//! and, once every lane has ended, merges what the lanes finalized into the
//! artifact of the exchange.

use crate::batch::{MicroPartition, Row};
use crate::cache::{cache_views, merged, ShuffleCache};
use crate::error::{ShuffleError, TaskFailure};
use crate::expr::{clone_exprs, expr_texts, Expr};
use crate::schema::{FieldView, Schema};
use crate::text::{join_texts, joinable, joined, lemma_list_separator, list_separator, texts};
use crate::write_cache::{batch_rows, CacheConfig, CacheConfigView, InProgressShuffleCache};
use vstd::pervasive::unreached;
use vstd::prelude::*;
use vstd::string::StringExecFns;

verus! {

/// The write state of one lane. A lane owns its state alone; no other lane
/// reads or changes it.
pub struct ShuffleSinkState {
    in_progress: InProgressShuffleCache,
    finalized: Option<ShuffleCache>,
}

impl ShuffleSinkState {
    /// The lane's record of its write cache.
    pub closed spec fn cache(&self) -> InProgressShuffleCache {
        self.in_progress
    }

    /// Whether the slot for the finalized cache is empty. It is filled only
    /// inside `finalize`, which empties it again before it returns.
    pub closed spec fn slot_empty(&self) -> bool {
        self.finalized is None
    }

    /// The state of a lane whose cache has just been constructed.
    pub fn new(in_progress: InProgressShuffleCache) -> (r: Self)
        ensures
            r.cache() == in_progress,
            r.slot_empty(),
    {
        ShuffleSinkState { in_progress, finalized: None }
    }

    /// The lane's record of its write cache, to append to.
    pub fn get_cache(&mut self) -> (r: &mut InProgressShuffleCache)
        ensures
            *r == old(self).cache(),
            final(self).cache() == *final(r),
            final(self).slot_empty() == old(self).slot_empty(),
    {
        &mut self.in_progress
    }

    /// Whether the lane has been closed.
    pub fn is_closed(&self) -> (b: bool)
        ensures
            b == self.cache().closed(),
    {
        self.in_progress.is_closed()
    }

    /// Accumulates one batch: the batch goes to the lane's cache as a
    /// sequence of one. `appended` is what the append answered, and is
    /// handed on unchanged. On success the batch's rows follow what the lane
    /// accumulated before; on failure the lane accumulated nothing.
    pub fn accumulate(&mut self, batch: MicroPartition, appended: Result<(), ShuffleError>) -> (r:
        Result<(), ShuffleError>)
        requires
            !old(self).cache().closed(),
        ensures
            r == appended,
            final(self).cache().config() == old(self).cache().config(),
            !final(self).cache().closed(),
            final(self).slot_empty() == old(self).slot_empty(),
            final(self).cache().pushed() == if appended is Ok {
                old(self).cache().pushed().push(batch@.rows)
            } else {
                old(self).cache().pushed()
            },
    {
        let ghost before = self.cache().pushed();
        let batches = vec![batch];
        proof {
            assert(before + batch_rows(batches@) =~= before.push(batch@.rows));
        }
        let shuffle_cache = self.get_cache();
        shuffle_cache.push_partitions(batches, appended)
    }

    /// Closes the lane. `closed` is what closing the lane's cache answered.
    /// A finalized cache passes through the slot and is handed to the
    /// caller, which leaves the slot empty; a failure is handed on
    /// unchanged. Either way the lane is closed afterwards, so that it
    /// cannot be closed again.
    pub fn finalize(&mut self, closed: Result<ShuffleCache, ShuffleError>) -> (r: Result<
        ShuffleCache,
        ShuffleError,
    >)
        requires
            !old(self).cache().closed(),
        ensures
            r == closed,
            final(self).cache().closed(),
            final(self).cache().pushed() == old(self).cache().pushed(),
            final(self).cache().config() == old(self).cache().config(),
            final(self).slot_empty(),
    {
        match self.in_progress.close(closed) {
            Ok(cache) => {
                self.finalized = Some(cache);
                Ok(self.finalized.take().unwrap())
            },
            Err(e) => {
                self.finalized = None;
                Err(e)
            },
        }
    }
}

/// The per-lane state that the pipeline threads through an operator's
/// calls. The pipeline does not look inside; each operator narrows the
/// state to its own kind, and a state of another kind is a wiring defect.
pub enum BlockingSinkState {
    /// The state of a lane of a shuffle sink.
    Shuffle(ShuffleSinkState),
    /// The state of a lane of some other operator.
    Other,
}

impl BlockingSinkState {
    /// Whether this is the state of a lane of a shuffle sink.
    pub fn is_shuffle(&self) -> (b: bool)
        ensures
            b == (self is Shuffle),
    {
        match self {
            BlockingSinkState::Shuffle(_) => true,
            BlockingSinkState::Other => false,
        }
    }

    /// Narrows the state to that of a shuffle lane, where it is one.
    pub fn as_shuffle_mut(&mut self) -> (r: Option<&mut ShuffleSinkState>)
        ensures
            match r {
                Some(lane) => *old(self) == BlockingSinkState::Shuffle(*lane) && *final(self)
                    == BlockingSinkState::Shuffle(*final(lane)),
                None => *old(self) is Other && *final(self) == *old(self),
            },
    {
        match self {
            BlockingSinkState::Shuffle(lane) => Some(lane),
            BlockingSinkState::Other => None,
        }
    }
}

/// What a sink asks of the pipeline after a batch.
pub enum BlockingSinkStatus {
    /// Keep routing batches to the lane that owns this state.
    NeedMoreInput(BlockingSinkState),
    /// Route no more batches to the lane that owns this state.
    Finished(BlockingSinkState),
}

/// What one lane's closing task handed back at the barrier.
pub enum LaneOutcome {
    /// The task ran to its end, and this is what closing the lane answered.
    Completed(Result<ShuffleCache, ShuffleError>),
    /// The task did not run to its end.
    Aborted(TaskFailure),
}

impl LaneOutcome {
    /// The failure that the lane reports: that of its close, or that its
    /// task ended without a result. None for a lane that finalized.
    pub open spec fn failure(self) -> Option<ShuffleError> {
        match self {
            LaneOutcome::Completed(Ok(_)) => None,
            LaneOutcome::Completed(Err(e)) => Some(e),
            LaneOutcome::Aborted(f) => Some(ShuffleError::LaneTask(f)),
        }
    }

    /// The finalized cache of a lane that finalized, as partition id to
    /// rows.
    pub open spec fn cache(self) -> Seq<Seq<Row>> {
        match self {
            LaneOutcome::Completed(Ok(cache)) => cache@,
            _ => Seq::empty(),
        }
    }
}

/// The failure of the first lane that reports one, in lane order.
pub open spec fn first_failure(lanes: Seq<LaneOutcome>) -> Option<ShuffleError>
    decreases lanes.len(),
{
    if lanes.len() == 0 {
        None
    } else {
        match first_failure(lanes.drop_last()) {
            Some(e) => Some(e),
            None => lanes.last().failure(),
        }
    }
}

/// Once a lane among the first `n` reports a failure, the lanes after them
/// do not change which failure is the first.
pub proof fn lemma_first_failure_of_prefix(lanes: Seq<LaneOutcome>, n: int)
    requires
        0 <= n <= lanes.len(),
        first_failure(lanes.take(n)) is Some,
    ensures
        first_failure(lanes) == first_failure(lanes.take(n)),
    decreases lanes.len(),
{
    if n < lanes.len() {
        assert(lanes.drop_last().take(n) =~= lanes.take(n));
        lemma_first_failure_of_prefix(lanes.drop_last(), n);
    } else {
        assert(lanes.take(n) =~= lanes);
    }
}

/// The finalized caches of all lanes, in lane order.
pub open spec fn lane_caches(lanes: Seq<LaneOutcome>) -> Seq<Seq<Seq<Row>>> {
    lanes.map_values(|lane: LaneOutcome| lane.cache())
}

/// What a finished exchange leaves behind.
#[derive(Debug, PartialEq, Eq)]
pub struct FinalizedShuffle {
    /// The merged artifact: partition id to the rows of all lanes.
    pub artifact: ShuffleCache,
    /// The batch that the sink hands on to the pipeline: always none, since
    /// the artifact is read out of band.
    pub output: Option<MicroPartition>,
}

/// The exchange write operator. Its configuration is fixed at construction
/// and read by all lanes.
pub struct ShuffleSink {
    partition_by: Vec<Expr>,
    schema: Schema,
}

impl ShuffleSink {
    /// The display texts of the partition-key expressions, in order.
    pub closed spec fn partition_by_view(&self) -> Seq<Seq<char>> {
        expr_texts(self.partition_by@)
    }

    /// The row layout of the data that flows through the exchange.
    pub closed spec fn schema_view(&self) -> Seq<FieldView> {
        self.schema@
    }

    /// The sink that partitions by `partition_by` rows of layout `schema`.
    pub fn new(partition_by: Vec<Expr>, schema: Schema) -> (r: Self)
        ensures
            r.partition_by_view() == expr_texts(partition_by@),
            r.schema_view() == schema@,
    {
        Self { partition_by, schema }
    }

    /// The partition-key expressions, in order.
    pub fn partition_by(&self) -> (r: &Vec<Expr>)
        ensures
            expr_texts(r@) == self.partition_by_view(),
    {
        &self.partition_by
    }

    /// The row layout of the data that flows through the exchange.
    pub fn schema(&self) -> (r: &Schema)
        ensures
            r@ == self.schema_view(),
    {
        &self.schema
    }

    /// The operator's name.
    pub fn name(&self) -> (r: &'static str)
        ensures
            r@ == "ShuffleSink"@,
    {
        "ShuffleSink"
    }

    /// The one line that describes a sink with the given partition-key
    /// expressions.
    pub open spec fn display_text(partition_by: Seq<Seq<char>>) -> Seq<char> {
        "ShuffleSink: Partition by = "@ + joined(partition_by, list_separator())
    }

    /// The operator's description for diagnostics: one line, which names the
    /// partition-key expressions in order.
    pub fn multiline_display(&self) -> (lines: Vec<String>)
        requires
            joinable(self.partition_by_view().len(), list_separator()),
        ensures
            lines@.len() == 1,
            lines@[0]@ == Self::display_text(self.partition_by_view()),
    {
        let mut shown: Vec<String> = Vec::new();
        let mut i: usize = 0;
        while i < self.partition_by.len()
            invariant
                i <= self.partition_by.len(),
                shown@.len() == i,
                forall|j: int| 0 <= j < i ==> (#[trigger] shown@[j])@ == self.partition_by@[j]@,
            decreases self.partition_by.len() - i,
        {
            shown.push(self.partition_by[i].to_text());
            i += 1;
        }
        proof {
            lemma_list_separator();
            assert(texts(shown@) =~= self.partition_by_view());
        }
        let mut line = String::from_str("ShuffleSink: Partition by = ");
        line.append(join_texts(&shown, ", ").as_str());
        let mut lines = Vec::new();
        lines.push(line);
        lines
    }

    /// What a lane's write cache is constructed from, for a sink with the
    /// given partition-key expressions: these expressions, and nothing else
    /// set.
    pub open spec fn config_for(partition_by: Seq<Seq<char>>) -> CacheConfigView {
        CacheConfigView {
            num_partitions: 0,
            dirs: Seq::empty(),
            node_id: Seq::empty(),
            shuffle_stage_id: 0,
            target_filesize: 0,
            hash_seed: None,
            partition_by: Some(partition_by),
        }
    }

    /// The configuration from which every lane's write cache is constructed.
    /// It is the same for every lane, so that all lanes place rows alike.
    pub fn cache_config(&self) -> (config: CacheConfig)
        ensures
            config@ == Self::config_for(self.partition_by_view()),
    {
        let config = CacheConfig {
            num_partitions: 0,
            dirs: Vec::new(),
            node_id: String::new(),
            shuffle_stage_id: 0,
            target_filesize: 0,
            hash_seed: None,
            partition_by: Some(clone_exprs(&self.partition_by)),
        };
        assert(texts(config.dirs@) =~= Seq::<Seq<char>>::empty());
        config
    }

    /// Makes the state of a fresh lane. `opened` is what constructing the
    /// lane's write cache from `cache_config` answered. Where it succeeded,
    /// the state is that of a shuffle lane which has accumulated nothing and
    /// is not closed; where it failed, the failure is handed on unchanged.
    pub fn make_state(&self, opened: Result<(), ShuffleError>) -> (r: Result<
        BlockingSinkState,
        ShuffleError,
    >)
        ensures
            match opened {
                Ok(_) => r matches Ok(BlockingSinkState::Shuffle(lane)) && lane.cache().config()
                    == Self::config_for(self.partition_by_view()) && lane.cache().pushed()
                    == Seq::<Seq<Row>>::empty() && !lane.cache().closed() && lane.slot_empty(),
                Err(e) => r == Err::<BlockingSinkState, ShuffleError>(e),
            },
    {
        match InProgressShuffleCache::try_new(self.cache_config(), opened) {
            Ok(in_progress) => Ok(BlockingSinkState::Shuffle(ShuffleSinkState::new(in_progress))),
            Err(e) => Err(e),
        }
    }

    /// Takes one batch for one lane. `appended` is what appending the batch
    /// to the lane's write cache answered. On success the lane has
    /// accumulated the batch after all earlier ones, and the sink asks for
    /// more input for the same lane: it never has enough before the
    /// pipeline ends the input. On failure the failure is handed on
    /// unchanged.
    pub fn sink(
        &self,
        input: MicroPartition,
        state: BlockingSinkState,
        appended: Result<(), ShuffleError>,
    ) -> (r: Result<BlockingSinkStatus, ShuffleError>)
        requires
            state matches BlockingSinkState::Shuffle(lane) && !lane.cache().closed(),
        ensures
            match appended {
                Ok(_) => r matches Ok(BlockingSinkStatus::NeedMoreInput(BlockingSinkState::Shuffle(next)))
                    && next.cache().pushed() == state->Shuffle_0.cache().pushed().push(input@.rows)
                    && next.cache().config() == state->Shuffle_0.cache().config()
                    && !next.cache().closed()
                    && next.slot_empty() == state->Shuffle_0.slot_empty(),
                Err(e) => r == Err::<BlockingSinkStatus, ShuffleError>(e),
            },
    {
        let mut state = state;
        let accumulated = match state.as_shuffle_mut() {
            Some(lane) => lane.accumulate(input, appended),
            None => unreached(),
        };
        match accumulated {
            Ok(_) => Ok(BlockingSinkStatus::NeedMoreInput(state)),
            Err(e) => Err(e),
        }
    }

    /// Joins the lanes at the barrier and merges what they finalized.
    ///
    /// `lanes` holds, for every lane and in lane order, what its closing
    /// task handed back. Where any lane reports a failure, the whole call
    /// fails with the failure of the first such lane, and nothing is
    /// merged. Where every lane finalized, the artifact is the merge of
    /// their caches, and no batch is handed on. No lanes give the artifact
    /// without partitions.
    pub fn finalize(&self, lanes: Vec<LaneOutcome>) -> (r: Result<FinalizedShuffle, ShuffleError>)
        ensures
            match first_failure(lanes@) {
                Some(e) => r == Err::<FinalizedShuffle, ShuffleError>(e),
                None => r matches Ok(done) && done.output is None && done.artifact@ == merged(
                    lane_caches(lanes@),
                ),
            },
    {
        let ghost all = lanes@;
        let mut finished_caches: Vec<ShuffleCache> = Vec::new();
        for lane in it: lanes.into_iter()
            invariant
                all == lanes@,
                it.seq() == all,
                first_failure(all.take(it.index() as int)) is None,
                cache_views(finished_caches@) == lane_caches(all.take(it.index() as int)),
        {
            proof {
                let i = it.index() as int;
                assert(all.take(i + 1).drop_last() =~= all.take(i));
                assert(all.take(i + 1).last() == lane);
                if lane.failure() is Some {
                    lemma_first_failure_of_prefix(all, i + 1);
                }
                assert(lane_caches(all.take(i + 1)) =~= lane_caches(all.take(i)).push(lane.cache()));
            }
            match lane {
                LaneOutcome::Completed(Ok(cache)) => {
                    finished_caches.push(cache);
                },
                LaneOutcome::Completed(Err(e)) => {
                    return Err(e);
                },
                LaneOutcome::Aborted(f) => {
                    return Err(ShuffleError::LaneTask(f));
                },
            }
        }
        assert(all.take(all.len() as int) =~= all);
        let artifact = ShuffleCache::merge_all(finished_caches);
        Ok(FinalizedShuffle { artifact, output: None })
    }
}

} // verus!

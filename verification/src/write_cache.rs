//! A lane's record of its partitioned write cache.
//!
//! The cache itself buffers, partitions and stores rows somewhere else. What
//! lives here is what the exchange decides about it: the configuration that
//! it is opened with, what has been appended to it and in which order, and
//! whether it has been closed. Each operation is handed what the cache
//! answered, and says what follows from that answer.

use crate::batch::{MicroPartition, Row};
use crate::cache::ShuffleCache;
use crate::error::ShuffleError;
use crate::expr::{expr_texts, Expr};
use crate::text::texts;
use vstd::prelude::*;

verus! {

/// What a write cache is constructed from.
#[derive(Debug, PartialEq, Eq)]
pub struct CacheConfig {
    pub num_partitions: usize,
    pub dirs: Vec<String>,
    pub node_id: String,
    pub shuffle_stage_id: usize,
    pub target_filesize: usize,
    pub hash_seed: Option<u64>,
    pub partition_by: Option<Vec<Expr>>,
}

/// A cache configuration, mathematically.
pub struct CacheConfigView {
    pub num_partitions: nat,
    pub dirs: Seq<Seq<char>>,
    pub node_id: Seq<char>,
    pub shuffle_stage_id: nat,
    pub target_filesize: nat,
    pub hash_seed: Option<u64>,
    pub partition_by: Option<Seq<Seq<char>>>,
}

impl View for CacheConfig {
    type V = CacheConfigView;

    open spec fn view(&self) -> CacheConfigView {
        CacheConfigView {
            num_partitions: self.num_partitions as nat,
            dirs: texts(self.dirs@),
            node_id: self.node_id@,
            shuffle_stage_id: self.shuffle_stage_id as nat,
            target_filesize: self.target_filesize as nat,
            hash_seed: self.hash_seed,
            partition_by: match self.partition_by {
                Some(exprs) => Some(expr_texts(exprs@)),
                None => None,
            },
        }
    }
}

/// The rows of each batch of a sequence of batches, in order.
pub open spec fn batch_rows(batches: Seq<MicroPartition>) -> Seq<Seq<Row>> {
    batches.map_values(|b: MicroPartition| b@.rows)
}

/// A lane's record of its write cache while the cache is in progress.
pub struct InProgressShuffleCache {
    config: CacheConfig,
    pushed: Ghost<Seq<Seq<Row>>>,
    closed: bool,
}

impl InProgressShuffleCache {
    /// The configuration that the cache was constructed from.
    pub closed spec fn config(&self) -> CacheConfigView {
        self.config@
    }

    /// The rows of every batch that the cache has accepted, batch by batch
    /// in the order of their arrival.
    pub closed spec fn pushed(&self) -> Seq<Seq<Row>> {
        self.pushed@
    }

    /// Whether the cache has been closed.
    pub closed spec fn closed(&self) -> bool {
        self.closed
    }

    /// Records the construction of a cache from `config`. `opened` is what
    /// the construction answered. Where it succeeded, the record is that of
    /// a fresh cache: nothing appended, not closed. Where it failed, the
    /// failure is handed on unchanged.
    pub fn try_new(config: CacheConfig, opened: Result<(), ShuffleError>) -> (r: Result<
        Self,
        ShuffleError,
    >)
        ensures
            match opened {
                Ok(_) => r matches Ok(cache) && cache.config() == config@ && cache.pushed()
                    == Seq::<Seq<Row>>::empty() && !cache.closed(),
                Err(e) => r == Err::<Self, ShuffleError>(e),
            },
    {
        match opened {
            Ok(_) => Ok(
                InProgressShuffleCache { config, pushed: Ghost(Seq::empty()), closed: false },
            ),
            Err(e) => Err(e),
        }
    }

    /// Whether the cache has been closed.
    pub fn is_closed(&self) -> (b: bool)
        ensures
            b == self.closed(),
    {
        self.closed
    }

    /// The configuration that the cache was constructed from.
    pub fn get_config(&self) -> (r: &CacheConfig)
        ensures
            r@ == self.config(),
    {
        &self.config
    }

    /// Records the append of `batches`, which the cache takes in the given
    /// order. `appended` is what the append answered. Where it succeeded,
    /// the batches' rows follow what was accepted before. Where it failed,
    /// nothing is accepted and the failure is handed on unchanged.
    pub fn push_partitions(
        &mut self,
        batches: Vec<MicroPartition>,
        appended: Result<(), ShuffleError>,
    ) -> (r: Result<(), ShuffleError>)
        requires
            !old(self).closed(),
            batches@.len() > 0,
        ensures
            r == appended,
            final(self).config() == old(self).config(),
            !final(self).closed(),
            final(self).pushed() == if appended is Ok {
                old(self).pushed() + batch_rows(batches@)
            } else {
                old(self).pushed()
            },
    {
        match appended {
            Ok(done) => {
                self.pushed = Ghost(self.pushed@ + batch_rows(batches@));
                Ok(done)
            },
            Err(e) => Err(e),
        }
    }

    /// Records the close of the cache. `closed` is what the close answered,
    /// and is handed on unchanged. Whatever it was, the cache counts as
    /// closed from here on: a cache is closed once.
    pub fn close(&mut self, closed: Result<ShuffleCache, ShuffleError>) -> (r: Result<
        ShuffleCache,
        ShuffleError,
    >)
        requires
            !old(self).closed(),
        ensures
            r == closed,
            final(self).closed(),
            final(self).config() == old(self).config(),
            final(self).pushed() == old(self).pushed(),
    {
        self.closed = true;
        closed
    }
}

} // verus!

//! Finalized shuffle caches and their merge.
//!
//! A finalized cache is what closing one lane's write cache yields: for each
//! partition id, the rows that the lane placed there. The merge of several
//! finalized caches is the artifact of the whole exchange.

use crate::batch::Row;
use vstd::prelude::*;

verus! {

/// The rows that a finalized cache holds for partition `p`: none where the
/// cache has no such partition.
pub open spec fn bucket(cache: Seq<Seq<Row>>, p: int) -> Seq<Row> {
    if 0 <= p < cache.len() {
        cache[p]
    } else {
        Seq::empty()
    }
}

/// The number of partitions of the merge: that of the widest cache.
pub open spec fn merged_len(caches: Seq<Seq<Seq<Row>>>) -> nat
    decreases caches.len(),
{
    if caches.len() == 0 {
        0
    } else {
        let rest = merged_len(caches.drop_last());
        if caches.last().len() > rest {
            caches.last().len()
        } else {
            rest
        }
    }
}

/// Partition `p` of the merge: what each cache holds for `p`, cache after
/// cache.
pub open spec fn merged_bucket(caches: Seq<Seq<Seq<Row>>>, p: int) -> Seq<Row>
    decreases caches.len(),
{
    if caches.len() == 0 {
        Seq::empty()
    } else {
        merged_bucket(caches.drop_last(), p) + bucket(caches.last(), p)
    }
}

/// The merge of finalized caches.
pub open spec fn merged(caches: Seq<Seq<Seq<Row>>>) -> Seq<Seq<Row>> {
    Seq::new(merged_len(caches), |p: int| merged_bucket(caches, p))
}

/// An immutable finalized cache: partition id to rows.
#[derive(Debug, PartialEq, Eq)]
pub struct ShuffleCache {
    partitions: Vec<Vec<Row>>,
}

impl View for ShuffleCache {
    type V = Seq<Seq<Row>>;

    closed spec fn view(&self) -> Seq<Seq<Row>> {
        self.partitions@.map_values(|rows: Vec<Row>| rows@)
    }
}

/// The finalized caches of a sequence of lanes, each as partition id to rows.
pub open spec fn cache_views(caches: Seq<ShuffleCache>) -> Seq<Seq<Seq<Row>>> {
    caches.map_values(|c: ShuffleCache| c@)
}

fn append_rows(dst: &mut Vec<Row>, src: &Vec<Row>)
    ensures
        final(dst)@ == old(dst)@ + src@,
{
    let mut k: usize = 0;
    while k < src.len()
        invariant
            k <= src.len(),
            dst@ == old(dst)@ + src@.take(k as int),
        decreases src.len() - k,
    {
        dst.push(src[k]);
        assert(src@.take(k + 1) =~= src@.take(k as int).push(src@[k as int]));
        k += 1;
    }
    assert(src@.take(k as int) =~= src@);
}

impl ShuffleCache {
    /// The finalized cache that holds `partitions[p]` for partition `p`.
    pub fn new(partitions: Vec<Vec<Row>>) -> (r: Self)
        ensures
            r@ == partitions@.map_values(|rows: Vec<Row>| rows@),
    {
        ShuffleCache { partitions }
    }

    /// The number of partitions.
    pub fn num_partitions(&self) -> (n: usize)
        ensures
            n == self@.len(),
    {
        self.partitions.len()
    }

    /// The rows of every partition, by partition id.
    pub fn partitions(&self) -> (r: &Vec<Vec<Row>>)
        ensures
            r@.map_values(|rows: Vec<Row>| rows@) == self@,
    {
        &self.partitions
    }

    /// The rows of partition `p`, none where there is no such partition.
    pub fn rows(&self, p: usize) -> (r: Vec<Row>)
        ensures
            r@ == bucket(self@, p as int),
    {
        let mut out: Vec<Row> = Vec::new();
        if p < self.partitions.len() {
            append_rows(&mut out, &self.partitions[p]);
            assert(out@ =~= self.partitions@[p as int]@);
        }
        out
    }

    fn widest(caches: &Vec<ShuffleCache>) -> (n: usize)
        ensures
            n == merged_len(cache_views(caches@)),
    {
        let ghost views = cache_views(caches@);
        let mut n: usize = 0;
        let mut i: usize = 0;
        while i < caches.len()
            invariant
                i <= caches.len(),
                views == cache_views(caches@),
                n == merged_len(views.take(i as int)),
            decreases caches.len() - i,
        {
            proof {
                assert(views.take(i + 1).drop_last() =~= views.take(i as int));
                assert(views.take(i + 1).last() == caches@[i as int]@);
            }
            if caches[i].partitions.len() > n {
                n = caches[i].partitions.len();
            }
            i += 1;
        }
        assert(views.take(i as int) =~= views);
        n
    }

    fn gather(caches: &Vec<ShuffleCache>, p: usize) -> (rows: Vec<Row>)
        ensures
            rows@ == merged_bucket(cache_views(caches@), p as int),
    {
        let ghost views = cache_views(caches@);
        let mut rows: Vec<Row> = Vec::new();
        let mut i: usize = 0;
        while i < caches.len()
            invariant
                i <= caches.len(),
                views == cache_views(caches@),
                rows@ == merged_bucket(views.take(i as int), p as int),
            decreases caches.len() - i,
        {
            proof {
                assert(views.take(i + 1).drop_last() =~= views.take(i as int));
                assert(views.take(i + 1).last() == caches@[i as int]@);
            }
            if p < caches[i].partitions.len() {
                append_rows(&mut rows, &caches[i].partitions[p]);
            } else {
                assert(rows@ + Seq::<Row>::empty() =~= rows@);
            }
            i += 1;
        }
        assert(views.take(i as int) =~= views);
        rows
    }

    /// Merges finalized caches into one: the merge has as many partitions as
    /// the widest cache, and each partition holds what every cache holds for
    /// it, cache after cache. No caches merge into the cache without
    /// partitions.
    pub fn merge_all(caches: Vec<ShuffleCache>) -> (r: ShuffleCache)
        ensures
            r@ == merged(cache_views(caches@)),
    {
        let ghost views = cache_views(caches@);
        let n = Self::widest(&caches);
        let mut partitions: Vec<Vec<Row>> = Vec::new();
        let mut p: usize = 0;
        while p < n
            invariant
                p <= n,
                n == merged_len(views),
                views == cache_views(caches@),
                partitions@.len() == p,
                forall|q: int| 0 <= q < p ==> (#[trigger] partitions@[q])@ == merged_bucket(views, q),
            decreases n - p,
        {
            let rows = Self::gather(&caches, p);
            partitions.push(rows);
            p += 1;
        }
        let r = ShuffleCache { partitions };
        assert(r@ =~= merged(views));
        r
    }
}

} // verus!

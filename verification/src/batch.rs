//! Row batches: the unit in which data reaches the sink and leaves the
//! source.

use crate::schema::{FieldView, Schema};
use vstd::prelude::*;

verus! {

/// One row, reduced to what a shuffle needs of it: the value of its
/// partition key, and a payload that tells rows with equal keys apart.
#[derive(Clone, Copy, Debug, PartialEq, Eq, Structural)]
pub struct Row {
    pub key: u64,
    pub value: u64,
}

/// A batch of rows under one layout.
#[derive(Debug, PartialEq, Eq)]
pub struct MicroPartition {
    schema: Schema,
    rows: Vec<Row>,
}

/// What a batch is, mathematically: its layout and its rows in order.
pub struct MicroPartitionView {
    pub schema: Seq<FieldView>,
    pub rows: Seq<Row>,
}

impl View for MicroPartition {
    type V = MicroPartitionView;

    closed spec fn view(&self) -> MicroPartitionView {
        MicroPartitionView { schema: self.schema@, rows: self.rows@ }
    }
}

impl Clone for MicroPartition {
    fn clone(&self) -> (r: Self)
        ensures
            r@ == self@,
    {
        let mut rows: Vec<Row> = Vec::new();
        let mut i: usize = 0;
        while i < self.rows.len()
            invariant
                i <= self.rows.len(),
                rows@ == self.rows@.take(i as int),
            decreases self.rows.len() - i,
        {
            rows.push(self.rows[i]);
            assert(self.rows@.take(i + 1) =~= self.rows@.take(i as int).push(self.rows@[i as int]));
            i += 1;
        }
        assert(self.rows@.take(i as int) =~= self.rows@);
        MicroPartition { schema: self.schema.clone(), rows }
    }
}

impl MicroPartition {
    /// The batch with the given layout and rows.
    pub fn new(schema: Schema, rows: Vec<Row>) -> (r: Self)
        ensures
            r@ == (MicroPartitionView { schema: schema@, rows: rows@ }),
    {
        MicroPartition { schema, rows }
    }

    /// The batch with the given layout and no rows.
    pub fn empty(schema: Schema) -> (r: Self)
        ensures
            r@ == (MicroPartitionView { schema: schema@, rows: Seq::empty() }),
    {
        MicroPartition { schema, rows: Vec::new() }
    }

    /// The batch's layout.
    pub fn schema(&self) -> (r: &Schema)
        ensures
            r@ == self@.schema,
    {
        &self.schema
    }

    /// The batch's rows, in order.
    pub fn rows(&self) -> (r: &Vec<Row>)
        ensures
            r@ == self@.rows,
    {
        &self.rows
    }

    /// The number of rows.
    pub fn len(&self) -> (n: usize)
        ensures
            n == self@.rows.len(),
    {
        self.rows.len()
    }
}

} // verus!

//! The shuffle source: the operator that stands in the read slot of an
//! exchange. It states the exchange's row layout to the pipeline and yields
//! no rows; the partitions are read from the merged artifact out of band.

use crate::batch::{MicroPartition, MicroPartitionView};
use crate::error::ShuffleError;
use crate::schema::{FieldView, Schema};
use crate::text::{joinable, list_separator};
use vstd::prelude::*;
use vstd::string::StringExecFns;

verus! {

/// The exchange read-side placeholder.
pub struct ShuffleSource {
    schema: Schema,
}

impl ShuffleSource {
    /// The row layout that the source declares.
    pub closed spec fn schema_view(&self) -> Seq<FieldView> {
        self.schema@
    }

    /// What the source yields: one batch of the declared layout without
    /// rows, and then nothing.
    pub open spec fn produced(&self) -> Seq<MicroPartitionView> {
        seq![MicroPartitionView { schema: self.schema_view(), rows: Seq::empty() }]
    }

    /// The source that declares the layout `schema`.
    pub fn new(schema: Schema) -> (r: Self)
        ensures
            r.schema_view() == schema@,
    {
        Self { schema }
    }

    /// The batches that the source yields, in order. The ordering hint is
    /// not read, and the call never fails.
    pub fn get_data(&self, maintain_order: bool) -> (r: Result<Vec<MicroPartition>, ShuffleError>)
        ensures
            r matches Ok(batches) && batches@.len() == self.produced().len() && batches@[0]@
                == self.produced()[0],
    {
        let empty = MicroPartition::empty(self.schema.clone());
        let mut batches: Vec<MicroPartition> = Vec::new();
        batches.push(empty);
        Ok(batches)
    }

    /// The operator's name.
    pub fn name(&self) -> (r: &'static str)
        ensures
            r@ == "ShuffleSource"@,
    {
        "ShuffleSource"
    }

    /// The second line of the description of a source with the given
    /// layout.
    pub open spec fn schema_line(schema: Seq<FieldView>) -> Seq<char> {
        "Schema = "@ + Schema::short_text(schema)
    }

    /// The operator's description for diagnostics: a heading, then a line
    /// that shows the declared layout.
    pub fn multiline_display(&self) -> (lines: Vec<String>)
        requires
            joinable(self.schema_view().len(), list_separator()),
        ensures
            lines@.len() == 2,
            lines@[0]@ == "ShuffleSource:"@,
            lines@[1]@ == Self::schema_line(self.schema_view()),
    {
        let mut res: Vec<String> = Vec::new();
        res.push(String::from_str("ShuffleSource:"));
        let mut line = String::from_str("Schema = ");
        line.append(self.schema.short_string().as_str());
        res.push(line);
        res
    }

    /// The declared row layout.
    pub fn schema(&self) -> (r: &Schema)
        ensures
            r@ == self.schema_view(),
    {
        &self.schema
    }
}

} // verus!

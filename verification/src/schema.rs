//! Row layouts: the named, typed columns of the data that flows through an
//! exchange.

use crate::text::{join_texts, joinable, joined, lemma_list_separator, list_separator, texts};
use vstd::prelude::*;
use vstd::string::StringExecFns;

verus! {

/// One column of a row layout.
#[derive(Debug, PartialEq, Eq)]
pub struct Field {
    pub name: String,
    pub dtype: String,
}

/// What a column is, mathematically: its name and the name of its type.
pub struct FieldView {
    pub name: Seq<char>,
    pub dtype: Seq<char>,
}

impl View for Field {
    type V = FieldView;

    open spec fn view(&self) -> FieldView {
        FieldView { name: self.name@, dtype: self.dtype@ }
    }
}

impl Clone for Field {
    fn clone(&self) -> (r: Self)
        ensures
            r@ == self@,
    {
        Field { name: self.name.clone(), dtype: self.dtype.clone() }
    }
}

impl Field {
    pub fn new(name: String, dtype: String) -> (r: Self)
        ensures
            r.name == name,
            r.dtype == dtype,
    {
        Field { name, dtype }
    }

    /// The column as it is shown in diagnostics: name, `#`, type.
    pub open spec fn short_text(v: FieldView) -> Seq<char> {
        v.name + seq!['#'] + v.dtype
    }

    pub fn short_string(&self) -> (r: String)
        ensures
            r@ == Self::short_text(self@),
    {
        let mut out = self.name.clone();
        proof {
            reveal_strlit("#");
            assert("#"@ =~= seq!['#']);
        }
        out.append("#");
        out.append(self.dtype.as_str());
        out
    }
}

/// An ordered row layout.
#[derive(Debug, PartialEq, Eq)]
pub struct Schema {
    fields: Vec<Field>,
}

impl View for Schema {
    type V = Seq<FieldView>;

    closed spec fn view(&self) -> Seq<FieldView> {
        self.fields@.map_values(|f: Field| f@)
    }
}

impl Clone for Schema {
    fn clone(&self) -> (r: Self)
        ensures
            r@ == self@,
    {
        let mut fields: Vec<Field> = Vec::new();
        let mut i: usize = 0;
        while i < self.fields.len()
            invariant
                i <= self.fields.len(),
                fields@.len() == i,
                forall|j: int| 0 <= j < i ==> (#[trigger] fields@[j])@ == self.fields@[j]@,
            decreases self.fields.len() - i,
        {
            fields.push(self.fields[i].clone());
            i += 1;
        }
        let r = Schema { fields };
        assert(r@ =~= self@);
        r
    }
}

impl Schema {
    /// The layout with the given columns, in the given order.
    pub fn new(fields: Vec<Field>) -> (r: Self)
        ensures
            r@ == fields@.map_values(|f: Field| f@),
    {
        Schema { fields }
    }

    /// The layout without columns.
    pub fn empty() -> (r: Self)
        ensures
            r@ == Seq::<FieldView>::empty(),
    {
        let r = Schema { fields: Vec::new() };
        assert(r@ =~= Seq::<FieldView>::empty());
        r
    }

    /// The number of columns.
    pub fn len(&self) -> (n: usize)
        ensures
            n == self@.len(),
    {
        self.fields.len()
    }

    /// The columns, in order.
    pub fn fields(&self) -> (r: &Vec<Field>)
        ensures
            r@.map_values(|f: Field| f@) == self@,
    {
        &self.fields
    }

    /// The layout as it is shown in diagnostics: every column's short text,
    /// in order, separated by a comma and a space.
    pub open spec fn short_text(v: Seq<FieldView>) -> Seq<char> {
        joined(v.map_values(|f: FieldView| Field::short_text(f)), list_separator())
    }

    pub fn short_string(&self) -> (r: String)
        requires
            joinable(self@.len(), list_separator()),
        ensures
            r@ == Self::short_text(self@),
    {
        let mut parts: Vec<String> = Vec::new();
        let mut i: usize = 0;
        while i < self.fields.len()
            invariant
                i <= self.fields.len(),
                parts@.len() == i,
                forall|j: int|
                    0 <= j < i ==> (#[trigger] parts@[j])@ == Field::short_text(self.fields@[j]@),
            decreases self.fields.len() - i,
        {
            parts.push(self.fields[i].short_string());
            i += 1;
        }
        proof {
            lemma_list_separator();
            assert(texts(parts@) =~= self@.map_values(|f: FieldView| Field::short_text(f)));
        }
        join_texts(&parts, ", ")
    }
}

} // verus!

//! Partition-key expressions, as far as the exchange reads them.

use vstd::prelude::*;

verus! {

/// A scalar expression over a row, held by the text that displays it.
#[derive(Debug, PartialEq, Eq)]
pub struct Expr {
    text: String,
}

impl View for Expr {
    type V = Seq<char>;

    closed spec fn view(&self) -> Seq<char> {
        self.text@
    }
}

impl Clone for Expr {
    fn clone(&self) -> (r: Self)
        ensures
            r@ == self@,
    {
        Expr { text: self.text.clone() }
    }
}

impl Expr {
    /// The expression that displays as `text`.
    pub fn new(text: String) -> (r: Self)
        ensures
            r@ == text@,
    {
        Expr { text }
    }

    /// The text that displays the expression.
    pub fn to_text(&self) -> (r: String)
        ensures
            r@ == self@,
    {
        self.text.clone()
    }
}

/// The display texts of a sequence of expressions, in order.
pub open spec fn expr_texts(exprs: Seq<Expr>) -> Seq<Seq<char>> {
    exprs.map_values(|e: Expr| e@)
}

/// A copy of a list of expressions.
pub fn clone_exprs(exprs: &Vec<Expr>) -> (r: Vec<Expr>)
    ensures
        expr_texts(r@) == expr_texts(exprs@),
{
    let mut out: Vec<Expr> = Vec::new();
    let mut i: usize = 0;
    while i < exprs.len()
        invariant
            i <= exprs.len(),
            out@.len() == i,
            forall|j: int| 0 <= j < i ==> (#[trigger] out@[j])@ == exprs@[j]@,
        decreases exprs.len() - i,
    {
        out.push(exprs[i].clone());
        i += 1;
    }
    assert(expr_texts(out@) =~= expr_texts(exprs@));
    out
}

} // verus!

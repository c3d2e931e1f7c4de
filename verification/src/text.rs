//! Text rendering shared by the operators' diagnostics.

use itertools::Itertools;
use vstd::prelude::*;

verus! {

/// The texts of `items` written one after another, with `sep` between each
/// two neighbours and nothing before the first or after the last.
pub open spec fn joined(items: Seq<Seq<char>>, sep: Seq<char>) -> Seq<char>
    decreases items.len(),
{
    if items.len() == 0 {
        Seq::empty()
    } else if items.len() == 1 {
        items[0]
    } else {
        joined(items.drop_last(), sep) + sep + items.last()
    }
}

/// The character sequences of a sequence of strings, in order.
pub open spec fn texts(items: Seq<String>) -> Seq<Seq<char>> {
    items.map_values(|s: String| s@)
}

/// The separator between the items of a list in diagnostics.
pub open spec fn list_separator() -> Seq<char> {
    seq![',', ' ']
}

/// The literal `", "` is the list separator.
pub proof fn lemma_list_separator()
    ensures
        ", "@ == list_separator(),
{
    reveal_strlit(", ");
    assert(", "@ =~= list_separator());
}

/// Whether `join_texts` may be called: the separator, counted at four bytes
/// per character, repeated once per item still fits a string's capacity.
pub open spec fn joinable(count: nat, sep: Seq<char>) -> bool {
    4 * sep.len() * count <= isize::MAX
}

/// Whether a list of `count` items can be joined with the list separator.
pub fn list_joinable(count: usize) -> (ok: bool)
    ensures
        ok == joinable(count as nat, list_separator()),
{
    let limit: usize = (isize::MAX as usize) / 8;
    proof {
        let width = list_separator().len();
        assert(width == 2);
        assert(4 * width * count == 8 * count) by (nonlinear_arith)
            requires
                width == 2,
        ;
    }
    count <= limit
}

/// `itertools::Itertools::join` on the items of a vector of strings.
///
/// Trusted: the result is empty for no items, and otherwise the first item
/// followed, for each further item, by `sep` and that item, each written as
/// `Display` writes a `String`, that is unchanged. The call sizes its
/// buffer as the separator's byte length times the number of items after
/// the first; `joinable` keeps that product within what a `String` may
/// ask for, so the call neither overflows nor panics.
#[verifier::external_body]
pub(crate) fn join_texts(items: &Vec<String>, sep: &str) -> (r: String)
    requires
        joinable(items@.len(), sep@),
    ensures
        r@ == joined(texts(items@), sep@),
{
    items.iter().join(sep)
}

} // verus!

//! What the operators keep of the order of their input.

use crate::execution::{filter_item, filtered, ItemView};
use crate::parser::ast::ExprView;
use crate::storage::error::StorageErrorView;
use crate::storage::storage_manager::AttributesView;
use vstd::prelude::*;

verus! {

/// The rows among the items `items`, in order.
pub open spec fn rows_among(items: Seq<ItemView>) -> Seq<Seq<u8>>
    decreases items.len(),
{
    if items.len() == 0 {
        Seq::empty()
    } else {
        match items[0] {
            Ok(row) => seq![row] + rows_among(items.skip(1)),
            Err(_) => rows_among(items.skip(1)),
        }
    }
}

/// Whether `part` is what is left of `whole` after some of its elements are
/// taken out.
pub open spec fn is_subsequence<T>(part: Seq<T>, whole: Seq<T>) -> bool
    decreases whole.len(),
{
    if part.len() == 0 {
        true
    } else if whole.len() == 0 {
        false
    } else {
        (part[0] == whole[0] && is_subsequence(part.skip(1), whole.skip(1))) || is_subsequence(
            part,
            whole.skip(1),
        )
    }
}

/// The rows that a filter yields are, in the same order, rows of its input:
/// a filter only drops rows.
pub proof fn lemma_filter_yields_subsequence(
    items: Seq<ItemView>,
    predicate: ExprView,
    schema: AttributesView,
)
    ensures
        is_subsequence(rows_among(filtered(items, predicate, schema)), rows_among(items)),
    decreases items.len(),
{
    if items.len() > 0 {
        let rest = items.skip(1);
        let kept = rows_among(filtered(rest, predicate, schema));
        lemma_filter_yields_subsequence(rest, predicate, schema);
        match items[0] {
            Ok(row) => {
                assert((seq![row] + rows_among(rest)).skip(1) =~= rows_among(rest));
                match filter_item(items[0], predicate, schema) {
                    Some(Ok(same)) => {
                        let head = seq![Ok::<Seq<u8>, StorageErrorView>(
                            same,
                        )];
                        let out = head + filtered(rest, predicate, schema);
                        assert(out.skip(1) =~= filtered(rest, predicate, schema));
                        assert((seq![row] + kept).skip(1) =~= kept);
                    },
                    Some(Err(e)) => {
                        let head = seq![Err::<Seq<u8>, StorageErrorView>(e)];
                        let out = head + filtered(rest, predicate, schema);
                        assert(out.skip(1) =~= filtered(rest, predicate, schema));
                    },
                    None => {},
                }
            },
            Err(e) => {
                let head = seq![Err::<Seq<u8>, StorageErrorView>(e)];
                let out = head + filtered(rest, predicate, schema);
                assert(out.skip(1) =~= filtered(rest, predicate, schema));
            },
        }
    }
}

} // verus!

//! The inner join: the rows of its left input, each followed by a row of its
//! right input, wherever a predicate holds of the values of both.

use crate::execution::{
    consistent, depth_of, drained, item_view, item_views, ItemView, join_consistent, joined,
    kept_rows, NextTuple, probe_item, probed, row_matches, stream_of, SubQueryTuples, TupleResult,
};
use crate::execution::expr_evaluation::evaluate_predicate_with_ctx;
use crate::parser::ast::Expr;
use crate::storage::error::{StorageError, StorageErrorView};
use crate::storage::storage_manager::AttributeName;
use crate::storage::tuple::TupleRecord;
use crate::storage::tuple_serde::{named_value_views, StorageTupleValue};
use vstd::prelude::*;

verus! {

/// A row of the left input, kept with its values under their names.
pub struct TupleWithColumnLookup {
    pub tuple: TupleRecord,
    pub columns: Vec<(AttributeName, StorageTupleValue)>,
}

/// The left input is the build side: it is taken whole when the first row is
/// asked for. The right input is the probe side: it is taken row by row, and
/// all that one of its rows yields is yielded before the next is taken.
pub struct InnerJoinOperation {
    pub predicate: Expr,
    pub left: SubQueryTuples,
    pub right: SubQueryTuples,
    /// The rows of the left input.
    pub left_tuple_buffer: Vec<TupleWithColumnLookup>,
    /// What the last row of the right input yields.
    pub joined_tuples_buffer: Vec<Result<TupleRecord, StorageError>>,
    /// How much of `joined_tuples_buffer` has been yielded.
    pub emitted: usize,
    pub pre_fetched_left: bool,
}

/// The values `left` followed by the values `right`.
fn merged(
    left: &Vec<(AttributeName, StorageTupleValue)>,
    right: &Vec<(AttributeName, StorageTupleValue)>,
) -> (r: Vec<(AttributeName, StorageTupleValue)>)
    ensures
        named_value_views(r@) == named_value_views(left@) + named_value_views(right@),
{
    let mut r: Vec<(AttributeName, StorageTupleValue)> = Vec::new();
    let mut i: usize = 0;
    while i < left.len()
        invariant
            i <= left.len(),
            r.len() == i,
            forall|j: int|
                0 <= j < i ==> (#[trigger] r[j]).0@ == left[j].0@ && r[j].1@ == left[j].1@,
        decreases left.len() - i,
    {
        r.push((left[i].0.clone(), left[i].1.clone()));
        i += 1;
    }
    let mut k: usize = 0;
    while k < right.len()
        invariant
            k <= right.len(),
            r.len() == left.len() + k,
            forall|j: int|
                0 <= j < left.len() ==> (#[trigger] r[j]).0@ == left[j].0@ && r[j].1@
                    == left[j].1@,
            forall|j: int|
                0 <= j < k ==> (#[trigger] r[left.len() + j]).0@ == right[j].0@ && r[left.len()
                    + j].1@ == right[j].1@,
        decreases right.len() - k,
    {
        let ghost before = r@;
        r.push((right[k].0.clone(), right[k].1.clone()));
        assert forall|j: int| 0 <= j < k + 1 implies (#[trigger] r[left.len() + j]).0@
            == right[j].0@ && r[left.len() + j].1@ == right[j].1@ by {
            if j < k {
                assert(r[left.len() + j] == before[left.len() + j]);
            }
        }
        k += 1;
    }
    assert(named_value_views(r@) =~= named_value_views(left@) + named_value_views(right@)) by {
        assert forall|j: int| 0 <= j < left.len() + right.len() implies named_value_views(
            r@,
        )[j] == (named_value_views(left@) + named_value_views(right@))[j] by {
            if j >= left.len() {
                let m = j - left.len();
                assert(r[left.len() + m].1@ == right[m].1@);
            }
        }
    }
    r
}

fn clone_item(item: &Result<TupleRecord, StorageError>) -> (r: Result<TupleRecord, StorageError>)
    ensures
        item_view(r) == item_view(*item),
{
    match item {
        Ok(record) => Ok(record.clone()),
        Err(e) => Err(e.clone()),
    }
}

impl InnerJoinOperation {
    /// The join of `left` and `right` under `predicate`.
    pub fn new(left: SubQueryTuples, right: SubQueryTuples, predicate: Expr) -> (r: Self)
        ensures
            r.predicate == predicate,
            r.left == left,
            r.right == right,
            !r.pre_fetched_left,
            join_consistent(r),
    {
        InnerJoinOperation {
            predicate,
            left,
            right,
            left_tuple_buffer: Vec::new(),
            joined_tuples_buffer: Vec::new(),
            emitted: 0,
            pre_fetched_left: false,
        }
    }

    /// Takes the left input, up to its first error.
    #[verifier::loop_isolation(false)]
    pub fn pre_fetch_left(&mut self) -> (r: Result<(), StorageError>)
        requires
            old(self).wf(),
            !old(self).pre_fetched_left,
        ensures
            final(self).wf(),
            final(self).depth() == old(self).depth(),
            final(self).pre_fetched_left,
            final(self).predicate == old(self).predicate,
            final(self).left.schema == old(self).left.schema,
            final(self).right == old(self).right,
            final(self).joined_tuples_buffer == old(self).joined_tuples_buffer,
            final(self).emitted == old(self).emitted,
            kept_rows(final(self).left_tuple_buffer@) == drained(
                stream_of(*old(self).left.tuples),
                old(self).left.schema@,
            ).0,
            match r {
                Ok(_) => drained(stream_of(*old(self).left.tuples), old(self).left.schema@).1
                    is None,
                Err(e) => drained(stream_of(*old(self).left.tuples), old(self).left.schema@).1
                    == Some(e@),
            },
        decreases old(self).depth(), 1nat,
    {
        self.pre_fetched_left = true;
        let ghost schema = self.left.schema@;
        let ghost start = stream_of(*old(self).left.tuples);
        assert(kept_rows(self.left_tuple_buffer@) + drained(start, schema).0 =~= drained(
            start,
            schema,
        ).0);
        loop
            invariant
                self.pre_fetched_left,
                self.predicate == old(self).predicate,
                self.left.schema == old(self).left.schema,
                self.right == old(self).right,
                self.joined_tuples_buffer == old(self).joined_tuples_buffer,
                self.emitted == old(self).emitted,
                consistent(*self.left.tuples),
                depth_of(*self.left.tuples) == depth_of(*old(self).left.tuples),
                self.wf(),
                drained(start, schema).0 == kept_rows(self.left_tuple_buffer@) + drained(
                    stream_of(*self.left.tuples),
                    schema,
                ).0,
                drained(start, schema).1 == drained(stream_of(*self.left.tuples), schema).1,
            decreases stream_of(*self.left.tuples).len(),
        {
            let ghost items = stream_of(*self.left.tuples);
            let ghost kept = kept_rows(self.left_tuple_buffer@);
            match self.left.tuples.next() {
                Some(Ok(tuple)) => {
                    match tuple.to_values(&self.left.schema.attributes) {
                        Ok(columns) => {
                            proof {
                                assert(kept + (seq![tuple@] + drained(items.skip(1), schema).0)
                                    =~= kept.push(tuple@) + drained(items.skip(1), schema).0);
                            }
                            self.left_tuple_buffer.push(TupleWithColumnLookup { tuple, columns });
                            assert(kept_rows(self.left_tuple_buffer@) =~= kept.push(tuple@));
                        },
                        Err(e) => {
                            assert(kept + Seq::empty() =~= kept);
                            return Err(StorageError::from(e));
                        },
                    }
                },
                Some(Err(e)) => {
                    assert(kept + Seq::empty() =~= kept);
                    return Err(e);
                },
                None => {
                    assert(kept + Seq::empty() =~= kept);
                    return Ok(());
                },
            }
        }
    }
}

impl InnerJoinOperation {
    /// Makes ready what the item `right` of the right input yields against
    /// the rows of the left input.
    #[verifier::loop_isolation(false)]
    fn probe(&mut self, right: Result<TupleRecord, StorageError>)
        requires
            old(self).wf(),
            old(self).pre_fetched_left,
        ensures
            final(self).wf(),
            final(self).pre_fetched_left,
            final(self).predicate == old(self).predicate,
            final(self).left == old(self).left,
            final(self).right == old(self).right,
            final(self).left_tuple_buffer == old(self).left_tuple_buffer,
            final(self).emitted == 0,
            item_views(final(self).joined_tuples_buffer@) == probe_item(
                item_view(right),
                kept_rows(old(self).left_tuple_buffer@),
                old(self).left.schema@,
                old(self).right.schema@,
                old(self).predicate@,
            ),
    {
        self.joined_tuples_buffer = Vec::new();
        self.emitted = 0;
        let ghost kept = kept_rows(self.left_tuple_buffer@);
        match right {
            Err(e) => {
                self.joined_tuples_buffer.push(Err(e));
                assert(item_views(self.joined_tuples_buffer@) =~= seq![
                    Err::<Seq<u8>, StorageErrorView>(e@),
                ]);
            },
            Ok(right) => match right.to_values(&self.right.schema.attributes) {
                Err(e) => {
                    let error = StorageError::from(e);
                    self.joined_tuples_buffer.push(Err(error));
                    assert(item_views(self.joined_tuples_buffer@) =~= seq![
                        Err::<Seq<u8>, StorageErrorView>(error@),
                    ]);
                },
                Ok(right_columns) => {
                    let ghost right_values = named_value_views(right_columns@);
                    let ghost all = row_matches(
                        kept,
                        self.left.schema@,
                        right@,
                        right_values,
                        self.predicate@,
                    );
                    let mut i: usize = 0;
                    proof {
                        assert(kept.skip(0) == kept);
                        assert(item_views(self.joined_tuples_buffer@) + all =~= all);
                    }
                    while i < self.left_tuple_buffer.len()
                        invariant
                            i <= self.left_tuple_buffer.len(),
                            self.pre_fetched_left,
                            self.predicate == old(self).predicate,
                            self.left == old(self).left,
                            self.right == old(self).right,
                            self.left_tuple_buffer == old(self).left_tuple_buffer,
                            self.emitted == 0,
                            all == item_views(self.joined_tuples_buffer@) + row_matches(
                                kept.skip(i as int),
                                self.left.schema@,
                                right@,
                                right_values,
                                self.predicate@,
                            ),
                        decreases self.left_tuple_buffer.len() - i,
                    {
                        let ghost ready = item_views(self.joined_tuples_buffer@);
                        let ghost more = row_matches(
                            kept.skip(i + 1),
                            self.left.schema@,
                            right@,
                            right_values,
                            self.predicate@,
                        );
                        proof {
                            assert(kept.skip(i as int)[0] == self.left_tuple_buffer[i as int].tuple@);
                            assert(kept.skip(i as int).skip(1) == kept.skip(i + 1));
                        }
                        let ctx = merged(&self.left_tuple_buffer[i].columns, &right_columns);
                        match evaluate_predicate_with_ctx(&self.predicate, &ctx) {
                            Ok(true) => {
                                let row = TupleRecord::concat(
                                    &self.left_tuple_buffer[i].tuple,
                                    &right,
                                );
                                self.joined_tuples_buffer.push(Ok(row));
                                proof {
                                    let item = Ok::<Seq<u8>, StorageErrorView>(
                                        row@,
                                    );
                                    assert(item_views(self.joined_tuples_buffer@) =~= ready.push(
                                        item,
                                    ));
                                    assert(ready + (seq![item] + more) =~= ready.push(item)
                                        + more);
                                }
                            },
                            Ok(false) => {},
                            Err(e) => {
                                let error = StorageError::EvaluationError(e.to_string());
                                self.joined_tuples_buffer.push(Err(error));
                                proof {
                                    let item = Err::<Seq<u8>, StorageErrorView>(
                                        error@,
                                    );
                                    assert(item_views(self.joined_tuples_buffer@) =~= ready.push(
                                        item,
                                    ));
                                    assert(ready + seq![item] =~= ready.push(item));
                                }
                                return ;
                            },
                        }
                        i += 1;
                    }
                    assert(item_views(self.joined_tuples_buffer@) + Seq::empty() =~= item_views(
                        self.joined_tuples_buffer@,
                    ));
                },
            },
        }
    }

    /// Takes items of the right input until one of them yields something.
    /// Says whether there is something to yield.
    #[verifier::loop_isolation(false)]
    pub fn join_next_tuple_from_right(&mut self) -> (r: bool)
        requires
            old(self).wf(),
            old(self).pre_fetched_left,
            old(self).emitted == old(self).joined_tuples_buffer.len(),
        ensures
            final(self).wf(),
            final(self).depth() == old(self).depth(),
            final(self).pre_fetched_left,
            final(self).pending() == old(self).pending(),
            r == (final(self).emitted < final(self).joined_tuples_buffer.len()),
            !r ==> final(self).pending().len() == 0,
        decreases old(self).depth(), 1nat,
    {
        loop
            invariant
                self.wf(),
                self.depth() == old(self).depth(),
                self.pre_fetched_left,
                self.emitted == self.joined_tuples_buffer.len(),
                self.pending() == old(self).pending(),
            decreases stream_of(*self.right.tuples).len(),
        {
            let ghost items = stream_of(*self.right.tuples);
            let ghost ready = item_views(self.joined_tuples_buffer@).skip(self.emitted as int);
            assert(ready =~= Seq::empty());
            match self.right.tuples.next() {
                Some(result) => {
                    self.probe(result);
                    proof {
                        let yielded = item_views(self.joined_tuples_buffer@);
                        assert(yielded.skip(0) == yielded);
                        let rest = probed(
                            items.skip(1),
                            kept_rows(self.left_tuple_buffer@),
                            self.left.schema@,
                            self.right.schema@,
                            self.predicate@,
                        );
                        assert(self.pending() =~= yielded + rest);
                        assert(old(self).pending() =~= ready + (yielded + rest));
                    }
                    if self.joined_tuples_buffer.len() > 0 {
                        return true;
                    }
                },
                None => {
                    assert(self.pending() =~= Seq::empty());
                    return false;
                },
            }
        }
    }
}

impl NextTuple for InnerJoinOperation {
    open spec fn pending(&self) -> Seq<ItemView> {
        joined(*self, stream_of(*self.left.tuples), stream_of(*self.right.tuples))
    }

    open spec fn depth(&self) -> nat {
        depth_of(*self.left.tuples) + depth_of(*self.right.tuples) + 1
    }

    open spec fn wf(&self) -> bool {
        consistent(*self.left.tuples) && consistent(*self.right.tuples) && join_consistent(*self)
    }

    fn next(&mut self) -> (r: TupleResult)
        decreases old(self).depth(), 2nat,
    {
        if !self.pre_fetched_left {
            match self.pre_fetch_left() {
                Ok(()) => {},
                Err(err) => {
                    assert(self.pending() =~= old(self).pending().skip(1));
                    return Some(Err(err));
                },
            }
            assert(self.pending() =~= old(self).pending());
        }
        if self.emitted >= self.joined_tuples_buffer.len() {
            if !self.join_next_tuple_from_right() {
                return None;
            }
        }
        let ghost before = self.pending();
        let item = clone_item(&self.joined_tuples_buffer[self.emitted]);
        self.emitted += 1;
        proof {
            assert(before[0] == item_view(item));
            assert(self.pending() =~= before.skip(1));
        }
        Some(item)
    }
}

} // verus!

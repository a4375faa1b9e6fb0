//! The projection: the rows of its input, cut down to some attributes.

use crate::execution::{
    consistent, depth_of, drain, gathered, item_views, ItemView, NextTuple, Operator,
    projected_items, stream_of, TupleResult,
};
use crate::execution::expr_evaluation::{EvaluationError, find_value};
use crate::planner::plan::query_plan::QueryResultSchema;
use crate::storage::error::StorageError;
use crate::storage::storage_manager::{AttributeName, lemma_lookup_is_entry, name_views};
use crate::storage::tuple::TupleRecord;
use crate::storage::tuple_serde::{
    encodable, lemma_decoded_encodable, named_value_views, NamedValuesView, serialize_tuple,
    StorageTupleValue, value_views, ValueView,
};
use vstd::prelude::*;

verus! {

/// Reads each row of `input` against `record_schema` and yields the row of
/// its values for `projected_attributes`, in that order.
pub struct ProjectOperation {
    pub record_schema: QueryResultSchema,
    pub projected_attributes: Vec<AttributeName>,
    pub input: Box<Operator>,
}

/// The values called `names` in `values`, in the order of `names`.
#[verifier::loop_isolation(false)]
pub fn gather(values: &Vec<(AttributeName, StorageTupleValue)>, names: &Vec<AttributeName>) -> (r:
    Result<Vec<StorageTupleValue>, String>)
    ensures
        match gathered(named_value_views(values@), name_views(names@)) {
            Ok(found) => r is Ok && value_views(r.unwrap()@) == found,
            Err(name) => r is Err && r.unwrap_err()@ == name,
        },
{
    let ghost table = named_value_views(values@);
    let ghost wanted = name_views(names@);
    let mut found: Vec<StorageTupleValue> = Vec::new();
    let mut i: usize = 0;
    proof {
        assert(wanted.skip(0) == wanted);
        match gathered(table, wanted) {
            Ok(rest) => {
                assert(value_views(found@) + rest =~= rest);
            },
            Err(_) => {},
        }
    }
    while i < names.len()
        invariant
            i <= names.len(),
            gathered(table, wanted) == match gathered(table, wanted.skip(i as int)) {
                Ok(rest) => Ok::<Seq<ValueView>, Seq<char>>(value_views(found@) + rest),
                Err(name) => Err(name),
            },
        decreases names.len() - i,
    {
        assert(wanted.skip(i as int)[0] == names[i as int]@);
        assert(wanted.skip(i as int).skip(1) == wanted.skip(i + 1));
        match find_value(values, &names[i].0) {
            Some(value) => {
                let value = value.clone();
                proof {
                    match gathered(table, wanted.skip(i + 1)) {
                        Ok(rest) => {
                            assert(value_views(found@.push(value)) + rest =~= value_views(found@)
                                + (seq![value@] + rest));
                        },
                        Err(_) => {},
                    }
                }
                found.push(value);
            },
            None => {
                return Err(names[i].0.clone());
            },
        }
        i += 1;
    }
    assert(value_views(found@) + Seq::empty() =~= value_views(found@));
    Ok(found)
}

impl NextTuple for ProjectOperation {
    open spec fn pending(&self) -> Seq<ItemView> {
        projected_items(
            stream_of(*self.input),
            self.record_schema@,
            name_views(self.projected_attributes@),
        )
    }

    open spec fn depth(&self) -> nat {
        depth_of(*self.input) + 1
    }

    open spec fn wf(&self) -> bool {
        consistent(*self.input)
    }

    fn next(&mut self) -> (r: TupleResult)
        decreases old(self).depth(), 2nat,
    {
        let ghost items = stream_of(*self.input);
        let ghost schema = self.record_schema@;
        let ghost names = name_views(self.projected_attributes@);
        let result = self.input.next();
        proof {
            if items.len() > 0 {
                assert(projected_items(items.skip(1), schema, names) =~= projected_items(
                    items,
                    schema,
                    names,
                ).skip(1));
            }
        }
        match result {
            Some(Ok(record)) => {
                match record.to_values(&self.record_schema.attributes) {
                    Ok(value_by_attr) => {
                        match gather(&value_by_attr, &self.projected_attributes) {
                            Ok(projected_values) => {
                                proof {
                                    lemma_decoded_encodable(record@, schema);
                                    lemma_gathered_encodable(
                                        named_value_views(value_by_attr@),
                                        names,
                                    );
                                    assert forall|i: int|
                                        0 <= i < projected_values.len() implies encodable(
                                        #[trigger] projected_values[i]@,
                                    ) by {
                                        assert(value_views(projected_values@)[i]
                                            == projected_values[i]@);
                                    }
                                }
                                Some(Ok(serialize_tuple(projected_values)))
                            },
                            Err(name) => Some(
                                Err(
                                    StorageError::EvaluationError(
                                        EvaluationError::NoSuchAttribute(name).to_string(),
                                    ),
                                ),
                            ),
                        }
                    },
                    Err(err) => Some(Err(StorageError::from(err))),
                }
            },
            Some(Err(err)) => Some(Err(err)),
            None => None,
        }
    }
}

impl ProjectOperation {
    /// All that the projection yields, in order.
    pub fn execute(self) -> (r: Vec<Result<TupleRecord, StorageError>>)
        requires
            self.wf(),
        ensures
            item_views(r@) == self.pending(),
    {
        let mut project = self;
        drain(&mut project)
    }
}

/// Values gathered from values that the codec can write can be written.
pub proof fn lemma_gathered_encodable(values: NamedValuesView, names: Seq<Seq<char>>)
    requires
        forall|i: int| 0 <= i < values.len() ==> encodable(
            (#[trigger] values[i]).1,
        ),
    ensures
        gathered(values, names) is Ok ==> forall|i: int|
            0 <= i < gathered(values, names)->Ok_0.len() ==> encodable(
                #[trigger] gathered(values, names)->Ok_0[i],
            ),
    decreases names.len(),
{
    if names.len() > 0 {
        lemma_gathered_encodable(values, names.skip(1));
        lemma_lookup_is_entry(values, names[0]);
    }
}

} // verus!

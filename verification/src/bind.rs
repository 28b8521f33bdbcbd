//! Binding step templates to data records: one bound step for each pair of
//! a step and a record under the step's data key.

use vstd::prelude::*;
use crate::error::{RunError, RunErrorModel};
use crate::text::{decimal, push_decimal};
use crate::types::{
    data_model, step_models, BoundModel, FlattenStep, InputData, InputDataMap, InputStep,
    RecordModel, StepModel,
};

verus! {

/// The name of the bound step that a step forms with its record number
/// `index`: the step's name, then the index in brackets.
pub open spec fn bound_name(step_name: Seq<char>, index: nat) -> Seq<char> {
    step_name + seq!['['] + decimal(index) + seq![']']
}

/// What a record hands to the requests of a step: its body and its query
/// only where the step asks for them, its expected status always.
pub open spec fn bound_record(step: StepModel, record: RecordModel) -> RecordModel {
    RecordModel {
        body: if step.option.body {
            record.body
        } else {
            None
        },
        query: if step.option.query {
            record.query
        } else {
            None
        },
        expect_status: record.expect_status,
    }
}

/// The bound step of a step and its record number `index`.
pub open spec fn bind_record(step: StepModel, record: RecordModel, index: nat) -> BoundModel {
    BoundModel {
        name: bound_name(step.name, index),
        path: step.path,
        method: step.method,
        input_data: bound_record(step, record),
    }
}

/// The bound steps of one step, in record order, each with the step's
/// number and its record's number.
pub open spec fn bind_step(step_index: nat, step: StepModel, records: Seq<RecordModel>) -> Seq<
    (nat, nat, BoundModel),
> {
    Seq::new(
        records.len(),
        |j: int| (step_index, j as nat, bind_record(step, records[j], j as nat)),
    )
}

/// The bound steps of a sequence of steps: those of the first step, then
/// those of the second, and so on.
pub open spec fn flatten(steps: Seq<StepModel>, data: Map<Seq<char>, Seq<RecordModel>>) -> Seq<
    (nat, nat, BoundModel),
>
    decreases steps.len(),
{
    if steps.len() == 0 {
        Seq::empty()
    } else {
        flatten(steps.drop_last(), data) + bind_step(
            (steps.len() - 1) as nat,
            steps.last(),
            data[steps.last().ref_data],
        )
    }
}

/// Whether step number `i` is the first whose data key the collection lacks.
pub open spec fn first_unbound_at(
    steps: Seq<StepModel>,
    data: Map<Seq<char>, Seq<RecordModel>>,
    i: int,
) -> bool {
    &&& 0 <= i < steps.len()
    &&& !data.contains_key(steps[i].ref_data)
    &&& forall|j: int| 0 <= j < i ==> data.contains_key(#[trigger] steps[j].ref_data)
}

/// Whether the collection holds the data key of every step.
pub open spec fn all_bound(steps: Seq<StepModel>, data: Map<Seq<char>, Seq<RecordModel>>) -> bool {
    forall|i: int| 0 <= i < steps.len() ==> data.contains_key(#[trigger] steps[i].ref_data)
}

/// Binding as a whole: the bound steps of all steps, or, where a step names
/// a key that the collection lacks, the error that carries the key of the
/// first such step.
pub open spec fn bind(steps: Seq<StepModel>, data: Map<Seq<char>, Seq<RecordModel>>) -> Result<
    Seq<(nat, nat, BoundModel)>,
    RunErrorModel,
> {
    if all_bound(steps, data) {
        Ok(flatten(steps, data))
    } else {
        let i = choose|i: int| first_unbound_at(steps, data, i);
        Err(RunErrorModel::DataReference { key: steps[i].ref_data })
    }
}

/// The models of a list of bound steps with their two numbers.
pub open spec fn flat_models(flat: Seq<(usize, usize, FlattenStep)>) -> Seq<(nat, nat, BoundModel)> {
    Seq::new(flat.len(), |k: int| (flat[k].0 as nat, flat[k].1 as nat, flat[k].2@))
}

/// A binding result with both sides as models.
pub open spec fn flat_result_model(
    result: Result<Vec<(usize, usize, FlattenStep)>, RunError>,
) -> Result<Seq<(nat, nat, BoundModel)>, RunErrorModel> {
    match result {
        Ok(flat) => Ok(flat_models(flat@)),
        Err(e) => Err(e@),
    }
}

/// A step whose data key holds `n` records is bound `n` times: number `j`
/// of them carries record `j` and the name `name[j]`.
pub proof fn lemma_bind_single_step(step: StepModel, data: Map<Seq<char>, Seq<RecordModel>>)
    requires
        data.contains_key(step.ref_data),
    ensures
        bind(seq![step], data) == Ok::<Seq<(nat, nat, BoundModel)>, RunErrorModel>(
            bind_step(0, step, data[step.ref_data]),
        ),
        bind_step(0, step, data[step.ref_data]).len() == data[step.ref_data].len(),
        forall|j: int|
            0 <= j < data[step.ref_data].len() ==> {
                let bound = #[trigger] bind_step(0, step, data[step.ref_data])[j];
                &&& bound.0 == 0
                &&& bound.1 == j
                &&& bound.2.name == bound_name(step.name, j as nat)
                &&& bound.2.input_data == bound_record(step, data[step.ref_data][j])
                &&& bound.2.input_data.expect_status == data[step.ref_data][j].expect_status
            },
{
    let steps = seq![step];
    assert(steps.drop_last() =~= Seq::<StepModel>::empty());
    assert(steps.last() == step);
    reveal_with_fuel(flatten, 2);
    assert(flatten(steps, data) =~= bind_step(0, step, data[step.ref_data]));
}

/// Within the bound steps of a sequence of steps, those of step `i` stand
/// together, behind those of the steps before it, and in record order.
pub proof fn lemma_flatten_segment(
    steps: Seq<StepModel>,
    data: Map<Seq<char>, Seq<RecordModel>>,
    i: int,
)
    requires
        0 <= i < steps.len(),
    ensures
        ({
            let offset = flatten(steps.take(i), data).len() as int;
            let records = data[steps[i].ref_data];
            &&& offset + records.len() <= flatten(steps, data).len()
            &&& flatten(steps, data).subrange(offset, offset + records.len()) == bind_step(
                i as nat,
                steps[i],
                records,
            )
        }),
    decreases steps.len(),
{
    let offset = flatten(steps.take(i), data).len() as int;
    let records = data[steps[i].ref_data];
    let shorter = steps.drop_last();
    if i == steps.len() - 1 {
        assert(steps.take(i) =~= shorter);
        assert(flatten(steps, data).subrange(offset, offset + records.len()) =~= bind_step(
            i as nat,
            steps[i],
            records,
        ));
    } else {
        lemma_flatten_segment(shorter, data, i);
        assert(shorter.take(i) =~= steps.take(i));
        assert(shorter[i] == steps[i]);
        assert(flatten(steps, data).subrange(offset, offset + records.len())
            =~= flatten(shorter, data).subrange(offset, offset + records.len()));
    }
}

/// The bound step of `step` and its record number `index`.
fn bind_one(step: &InputStep, record: &InputData, index: usize) -> (bound: FlattenStep)
    ensures
        bound@ == bind_record(step@, record@, index as nat),
{
    let mut name = step.name.clone();
    name.push('[');
    push_decimal(&mut name, index as u64);
    name.push(']');
    assert(name@ =~= bound_name(step.name@, index as nat));
    let body = if step.option.body {
        crate::types::duplicate_optional_object(&record.body)
    } else {
        None
    };
    let query = if step.option.query {
        crate::types::duplicate_optional_object(&record.query)
    } else {
        None
    };
    FlattenStep {
        name,
        path: step.path.clone(),
        method: step.method.clone(),
        input_data: InputData { body, query, expect_status: record.expect_status },
    }
}

/// Binds every step to every record under its data key: the bound steps
/// come step by step and, within a step, in record order, each with the
/// number of its step and of its record. A key that holds no record adds
/// nothing. The first step whose key the collection lacks ends the binding
/// with a data reference error that carries the key.
pub fn gen_flatten_step(test_steps: &Vec<InputStep>, input_data_map: &InputDataMap) -> (result:
    Result<Vec<(usize, usize, FlattenStep)>, RunError>)
    ensures
        flat_result_model(result) == bind(step_models(test_steps@), data_model(*input_data_map)),
{
    let ghost steps = step_models(test_steps@);
    let ghost data = data_model(*input_data_map);
    let mut flatten_steps: Vec<(usize, usize, FlattenStep)> = Vec::new();
    let mut step_index: usize = 0;
    assert(steps.take(0) =~= Seq::<StepModel>::empty());
    while step_index < test_steps.len()
        invariant
            steps == step_models(test_steps@),
            data == data_model(*input_data_map),
            step_index <= test_steps@.len(),
            forall|k: int| 0 <= k < step_index ==> data.contains_key(#[trigger] steps[k].ref_data),
            flat_models(flatten_steps@) == flatten(steps.take(step_index as int), data),
        decreases test_steps.len() - step_index,
    {
        let step = &test_steps[step_index];
        let ghost before = flat_models(flatten_steps@);
        match input_data_map.get(step.ref_data.as_str()) {
            None => {
                proof {
                    assert(first_unbound_at(steps, data, step_index as int));
                    let i = choose|i: int| first_unbound_at(steps, data, i);
                    assert(i == step_index);
                }
                return Err(RunError::DataReference { key: step.ref_data.clone() });
            },
            Some(records) => {
                let ghost models = data[steps[step_index as int].ref_data];
                let mut data_index: usize = 0;
                while data_index < records.len()
                    invariant
                        0 <= step_index < test_steps@.len(),
                        *step == test_steps@[step_index as int],
                        models == crate::types::record_models(records@),
                        data_index <= records@.len(),
                        flat_models(flatten_steps@) == before + bind_step(
                            step_index as nat,
                            step@,
                            models,
                        ).take(data_index as int),
                    decreases records.len() - data_index,
                {
                    let bound = bind_one(step, &records[data_index], data_index);
                    let ghost earlier = flatten_steps@;
                    flatten_steps.push((step_index, data_index, bound));
                    proof {
                        let whole = bind_step(step_index as nat, step@, models);
                        assert(flat_models(flatten_steps@) =~= flat_models(earlier).push(
                            whole[data_index as int],
                        ));
                        assert(whole.take(data_index + 1) =~= whole.take(data_index as int).push(
                            whole[data_index as int],
                        ));
                    }
                    data_index = data_index + 1;
                }
                proof {
                    let whole = bind_step(step_index as nat, step@, models);
                    let upto = steps.take(step_index + 1);
                    assert(whole.take(records@.len() as int) =~= whole);
                    assert(upto.drop_last() =~= steps.take(step_index as int));
                    assert(upto.last() == steps[step_index as int]);
                }
            },
        }
        step_index = step_index + 1;
    }
    assert(steps.take(step_index as int) =~= steps);
    Ok(flatten_steps)
}

} // verus!

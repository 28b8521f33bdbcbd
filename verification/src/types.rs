//! The data model of a suite, of its data records and of its report, each
//! with the mathematical model that the contracts speak of.

use vstd::prelude::*;
use crate::json::{duplicate_object, optional_object_model, JsonModel, JsonObject};
use crate::config::{data_file_path, data_path};
use crate::error::{text_result_model, RunError};
use crate::table::Table;

verus! {

/// Which parts of a data record a step hands to its requests.
#[derive(Debug, Clone, Copy)]
pub struct InputOption {
    pub body: bool,
    pub query: bool,
}

/// A step template: one request shape, to be bound to data records.
#[derive(Debug)]
pub struct InputStep {
    pub name: String,
    pub path: String,
    pub method: String,
    pub ref_data: String,
    pub option: InputOption,
}

/// A named group of steps that share an optional login requirement.
#[derive(Debug)]
pub struct InputCaterogy {
    pub login: Option<String>,
    pub steps: Vec<InputStep>,
}

/// A whole suite: where to send requests, where its data lives, the steps
/// that open sessions, and the categories of test steps.
#[derive(Debug)]
pub struct InputConfigration {
    pub base_url: String,
    pub data: String,
    pub init: Vec<InputStep>,
    pub categories: Table<InputCaterogy>,
}

/// One data record: what to send and which status to expect.
#[derive(Debug)]
pub struct InputData {
    pub body: Option<JsonObject>,
    pub query: Option<JsonObject>,
    pub expect_status: u16,
}

/// The data collection: each data key with its records, in order.
pub type InputDataMap = Table<Vec<InputData>>;

/// A step bound to one data record.
#[derive(Debug)]
pub struct FlattenStep {
    pub name: String,
    pub path: String,
    pub method: String,
    pub input_data: InputData,
}

/// The outcome of one bound step. `duration` counts nanoseconds from
/// dispatch to response.
#[derive(Debug)]
pub struct OutputResult {
    pub name: String,
    pub category: String,
    pub status: String,
    pub duration: u64,
    pub message: String,
}

/// The report of a run.
#[derive(Debug)]
pub struct OutputData {
    pub base_url: String,
    pub results: Vec<OutputResult>,
}

/// A step template with its texts as character sequences.
pub struct StepModel {
    pub name: Seq<char>,
    pub path: Seq<char>,
    pub method: Seq<char>,
    pub ref_data: Seq<char>,
    pub option: InputOption,
}

/// A data record with its body and query as models.
pub struct RecordModel {
    pub body: Option<Map<Seq<char>, JsonModel>>,
    pub query: Option<Map<Seq<char>, JsonModel>>,
    pub expect_status: u16,
}

/// A bound step with its texts as character sequences.
pub struct BoundModel {
    pub name: Seq<char>,
    pub path: Seq<char>,
    pub method: Seq<char>,
    pub input_data: RecordModel,
}

/// An outcome with its texts as character sequences.
pub struct OutcomeModel {
    pub name: Seq<char>,
    pub category: Seq<char>,
    pub status: Seq<char>,
    pub duration: u64,
    pub message: Seq<char>,
}

/// A report with its outcomes as models.
pub struct ReportModel {
    pub base_url: Seq<char>,
    pub results: Seq<OutcomeModel>,
}

impl View for InputStep {
    type V = StepModel;

    open spec fn view(&self) -> StepModel {
        StepModel {
            name: self.name@,
            path: self.path@,
            method: self.method@,
            ref_data: self.ref_data@,
            option: self.option,
        }
    }
}

impl View for InputData {
    type V = RecordModel;

    open spec fn view(&self) -> RecordModel {
        RecordModel {
            body: optional_object_model(self.body),
            query: optional_object_model(self.query),
            expect_status: self.expect_status,
        }
    }
}

impl View for FlattenStep {
    type V = BoundModel;

    open spec fn view(&self) -> BoundModel {
        BoundModel {
            name: self.name@,
            path: self.path@,
            method: self.method@,
            input_data: self.input_data@,
        }
    }
}

impl View for OutputResult {
    type V = OutcomeModel;

    open spec fn view(&self) -> OutcomeModel {
        OutcomeModel {
            name: self.name@,
            category: self.category@,
            status: self.status@,
            duration: self.duration,
            message: self.message@,
        }
    }
}

impl View for OutputData {
    type V = ReportModel;

    open spec fn view(&self) -> ReportModel {
        ReportModel { base_url: self.base_url@, results: outcome_models(self.results@) }
    }
}

/// The models of a sequence of steps.
pub open spec fn step_models(steps: Seq<InputStep>) -> Seq<StepModel> {
    Seq::new(steps.len(), |i: int| steps[i]@)
}

/// The models of a sequence of records.
pub open spec fn record_models(records: Seq<InputData>) -> Seq<RecordModel> {
    Seq::new(records.len(), |i: int| records[i]@)
}

/// The models of a sequence of outcomes.
pub open spec fn outcome_models(outcomes: Seq<OutputResult>) -> Seq<OutcomeModel> {
    Seq::new(outcomes.len(), |i: int| outcomes[i]@)
}

/// The model of a data collection: each key with the models of its records.
pub open spec fn data_model(data: InputDataMap) -> Map<Seq<char>, Seq<RecordModel>> {
    Map::new(|k: Seq<char>| data@.contains_key(k), |k: Seq<char>| record_models(data@[k]@))
}

/// A copy of an optional keyed collection.
pub fn duplicate_optional_object(members: &Option<JsonObject>) -> (copy: Option<JsonObject>)
    ensures
        optional_object_model(copy) == optional_object_model(*members),
{
    match members {
        Some(m) => Some(duplicate_object(m)),
        None => None,
    }
}

impl InputConfigration {
    /// The path of the data document that the suite points to, or a
    /// configuration error where its pointer lacks the scheme.
    pub fn data_file(&self) -> (result: Result<String, RunError>)
        ensures
            text_result_model(result) == data_path(self.data@),
    {
        data_file_path(self.data.as_str())
    }
}

impl InputData {
    /// A deep copy of the record.
    pub fn duplicate(&self) -> (copy: InputData)
        ensures
            copy@ == self@,
    {
        InputData {
            body: duplicate_optional_object(&self.body),
            query: duplicate_optional_object(&self.query),
            expect_status: self.expect_status,
        }
    }
}

} // verus!

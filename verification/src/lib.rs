//! The engine of a declarative HTTP API test runner.
//!
//! A suite names a base address, init steps that open sessions, and
//! categories of test steps; a data collection holds the records that the
//! steps are bound to. The engine decides and the caller sends:
//!
//! 1. [`init_requests`] plans one request for each init step. The caller
//!    sends them all at once and hands the replies to [`harvest_sessions`],
//!    which gives the session cookies.
//! 2. [`TestRun`] takes the categories in turn. [`TestRun::advance`] says
//!    whether a category is passed over, ends the run, or is to be
//!    dispatched, and with which requests; [`TestRun::absorb`] turns the
//!    replies into outcomes.
//! 3. [`finalize`] wraps the outcomes into the report.
//!
//! Every request is a plain value ([`HttpRequest`]) and every reply is one
//! ([`InitReply`], [`TestReply`]): nothing here touches the network. The
//! contracts are stated over the models of these values, which each module
//! defines beside its types.

pub mod bind;
pub mod config;
pub mod error;
pub mod init;
pub mod json;
pub mod judge;
pub mod plan;
pub mod report;
pub mod request;
pub mod runner;
pub mod table;
pub mod template;
pub mod text;
pub mod types;

pub use crate::bind::gen_flatten_step;
pub use crate::config::data_file_path;
pub use crate::error::RunError;
pub use crate::init::{harvest_sessions, init_request, init_requests, InitReply, SessionMap};
pub use crate::json::{JsonNumber, JsonObject, JsonValue};
pub use crate::report::finalize;
pub use crate::request::{build_request, method_or_get, HttpRequest};
pub use crate::judge::{collect_outcomes, evaluate, outcome_with_reason, TestReply};
pub use crate::plan::{plan_category, CategoryPlan, PlannedRequest};
pub use crate::runner::{Action, TestRun};
pub use crate::table::Table;
pub use crate::template::{classify, expand_template, resolve_path};
pub use crate::types::{
    FlattenStep, InputCaterogy, InputConfigration, InputData, InputDataMap, InputOption,
    InputStep, OutputData, OutputResult,
};

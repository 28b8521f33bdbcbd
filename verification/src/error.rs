//! The ways a run can end before its report is complete.

use vstd::prelude::*;
use vstd::string::StringExecFns;

verus! {

/// A fatal condition. A response whose status differs from the expected one
/// is no error: it is recorded as a failed outcome and the run goes on.
#[derive(Debug)]
pub enum RunError {
    /// The suite's data pointer lacks the `json://` scheme.
    Config,
    /// A step names a data key that the data collection does not hold.
    DataReference { key: String },
    /// A path placeholder has no entry in the step's query record.
    Template { token: String },
    /// A dispatched request got no response.
    Network,
    /// A category requires the session of a login that produced none.
    Auth { category: String },
}

/// A fatal condition with its texts as character sequences.
pub enum RunErrorModel {
    Config,
    DataReference { key: Seq<char> },
    Template { token: Seq<char> },
    Network,
    Auth { category: Seq<char> },
}

impl View for RunError {
    type V = RunErrorModel;

    open spec fn view(&self) -> RunErrorModel {
        match self {
            RunError::Config => RunErrorModel::Config,
            RunError::DataReference { key } => RunErrorModel::DataReference { key: key@ },
            RunError::Template { token } => RunErrorModel::Template { token: token@ },
            RunError::Network => RunErrorModel::Network,
            RunError::Auth { category } => RunErrorModel::Auth { category: category@ },
        }
    }
}

/// The line that describes a fatal condition to the user.
pub open spec fn error_text(error: RunErrorModel) -> Seq<char> {
    match error {
        RunErrorModel::Config => "Invalid data file path"@,
        RunErrorModel::DataReference { key } => "Invalid data reference: "@ + key,
        RunErrorModel::Template { token } => "No query value for placeholder: "@ + token,
        RunErrorModel::Network => "Request failed"@,
        RunErrorModel::Auth { category } => "Cookie Not found: "@ + category,
    }
}

/// A text result with its text and its error as models.
pub open spec fn text_result_model(result: Result<String, RunError>) -> Result<
    Seq<char>,
    RunErrorModel,
> {
    match result {
        Ok(text) => Ok(text@),
        Err(e) => Err(e@),
    }
}

impl RunError {
    /// The line that describes this condition to the user.
    pub fn message(&self) -> (text: String)
        ensures
            text@ == error_text(self@),
    {
        match self {
            RunError::Config => String::from_str("Invalid data file path"),
            RunError::DataReference { key } => String::from_str("Invalid data reference: ").concat(
                key.as_str(),
            ),
            RunError::Template { token } => String::from_str(
                "No query value for placeholder: ",
            ).concat(token.as_str()),
            RunError::Network => String::from_str("Request failed"),
            RunError::Auth { category } => String::from_str("Cookie Not found: ").concat(
                category.as_str(),
            ),
        }
    }
}

} // verus!

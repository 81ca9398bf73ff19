//! Why a workflow, a config or a script gave no result.
use vstd::prelude::*;

use crate::text::texts;
use crate::typescript::{strip_message, StripError};

verus! {

/// Why a workflow, a config or a script gave no result.
#[derive(Debug)]
pub enum ExecuteError {
    /// The workflow's path could not be made canonical.
    CanonicalizeWorkflow { cause: String },
    /// The workflow's file could not be read.
    ReadWorkflow { path: String, cause: String },
    /// The workflow's TypeScript does not parse.
    StripWorkflow { path: String, rejection: StripError },
    /// The config's path could not be made canonical.
    CanonicalizeConfig { cause: String },
    /// There is no engine.
    CreateRuntime { cause: String },
    /// There is no global scope.
    CreateContext { cause: String },
    /// The host function could not be made known to the script.
    SetFunction { function: String, cause: String },
    /// A script failed.
    Script { cause: String },
    /// The workflow could not be compiled or started.
    WorkflowModule { cause: String },
    /// The workflow failed.
    WorkflowEvaluation { cause: String },
    /// A script or a workflow built a document of a type that is not known.
    UnknownOutputType { output_type: String },
    /// The config could not be compiled or started.
    ConfigModule { cause: String },
    /// The config failed.
    ConfigEvaluation { cause: String },
    /// The config ended without handing itself over.
    ConfigNotSet,
}

impl ExecuteError {
    /// What the error says.
    pub open spec fn message_text(self) -> Seq<char> {
        match self {
            ExecuteError::CanonicalizeWorkflow { .. } => "Failed to canonicalize workflow path"@,
            ExecuteError::ReadWorkflow { path, .. } => "Failed to read workflow: "@ + path@,
            ExecuteError::StripWorkflow { path, .. } => "Failed to strip TypeScript: "@ + path@,
            ExecuteError::CanonicalizeConfig { .. } => "Failed to canonicalize config path"@,
            ExecuteError::CreateRuntime { .. } => "Failed to create QuickJS runtime"@,
            ExecuteError::CreateContext { .. } => "Failed to create QuickJS context"@,
            ExecuteError::SetFunction { function, cause } => "Failed to set "@ + function@ + ": "@
                + cause@,
            ExecuteError::Script { cause } => "QuickJS evaluation error: "@ + cause@,
            ExecuteError::WorkflowModule { cause } => "QuickJS workflow module error: "@ + cause@,
            ExecuteError::WorkflowEvaluation { cause } => "QuickJS workflow evaluation error: "@
                + cause@,
            ExecuteError::UnknownOutputType { output_type } => "Unknown output type: "@
                + output_type@,
            ExecuteError::ConfigModule { cause } => "QuickJS config module error: "@ + cause@,
            ExecuteError::ConfigEvaluation { cause } => "QuickJS config evaluation error: "@
                + cause@,
            ExecuteError::ConfigNotSet => "Config did not call __gha_set_config"@,
        }
    }

    /// What the error came from, where the message does not say it.
    pub open spec fn cause_text(self) -> Option<Seq<char>> {
        match self {
            ExecuteError::CanonicalizeWorkflow { cause } => Some(cause@),
            ExecuteError::ReadWorkflow { cause, .. } => Some(cause@),
            ExecuteError::StripWorkflow { rejection, .. } => Some(
                strip_message(texts(rejection.errors@)),
            ),
            ExecuteError::CanonicalizeConfig { cause } => Some(cause@),
            ExecuteError::CreateRuntime { cause } => Some(cause@),
            ExecuteError::CreateContext { cause } => Some(cause@),
            _ => None,
        }
    }

    /// What the error says.
    pub fn message(&self) -> (text: String)
        ensures
            text@ == self.message_text(),
    {
        match self {
            ExecuteError::CanonicalizeWorkflow { .. } => {
                "Failed to canonicalize workflow path".to_owned()
            },
            ExecuteError::ReadWorkflow { path, .. } => {
                "Failed to read workflow: ".to_owned().concat(path.as_str())
            },
            ExecuteError::StripWorkflow { path, .. } => {
                "Failed to strip TypeScript: ".to_owned().concat(path.as_str())
            },
            ExecuteError::CanonicalizeConfig { .. } => {
                "Failed to canonicalize config path".to_owned()
            },
            ExecuteError::CreateRuntime { .. } => "Failed to create QuickJS runtime".to_owned(),
            ExecuteError::CreateContext { .. } => "Failed to create QuickJS context".to_owned(),
            ExecuteError::SetFunction { function, cause } => {
                let text = "Failed to set ".to_owned().concat(function.as_str());
                text.concat(": ").concat(cause.as_str())
            },
            ExecuteError::Script { cause } => {
                "QuickJS evaluation error: ".to_owned().concat(cause.as_str())
            },
            ExecuteError::WorkflowModule { cause } => {
                "QuickJS workflow module error: ".to_owned().concat(cause.as_str())
            },
            ExecuteError::WorkflowEvaluation { cause } => {
                "QuickJS workflow evaluation error: ".to_owned().concat(cause.as_str())
            },
            ExecuteError::UnknownOutputType { output_type } => {
                "Unknown output type: ".to_owned().concat(output_type.as_str())
            },
            ExecuteError::ConfigModule { cause } => {
                "QuickJS config module error: ".to_owned().concat(cause.as_str())
            },
            ExecuteError::ConfigEvaluation { cause } => {
                "QuickJS config evaluation error: ".to_owned().concat(cause.as_str())
            },
            ExecuteError::ConfigNotSet => "Config did not call __gha_set_config".to_owned(),
        }
    }

    /// What the error came from, where the message does not say it.
    pub fn cause(&self) -> (text: Option<String>)
        ensures
            match text {
                Some(text) => self.cause_text() == Some(text@),
                None => self.cause_text() is None,
            },
    {
        match self {
            ExecuteError::CanonicalizeWorkflow { cause } => Some(cause.clone()),
            ExecuteError::ReadWorkflow { cause, .. } => Some(cause.clone()),
            ExecuteError::StripWorkflow { rejection, .. } => Some(rejection.message()),
            ExecuteError::CanonicalizeConfig { cause } => Some(cause.clone()),
            ExecuteError::CreateRuntime { cause } => Some(cause.clone()),
            ExecuteError::CreateContext { cause } => Some(cause.clone()),
            _ => None,
        }
    }
}

/// What each error says, and what it came from: paths and reasons are named in full.
pub proof fn law_error_says(error: ExecuteError)
    ensures
        match error {
            ExecuteError::CanonicalizeWorkflow { cause } => {
                &&& error.message_text() == "Failed to canonicalize workflow path"@
                &&& error.cause_text() == Some(cause@)
            },
            ExecuteError::ReadWorkflow { path, cause } => {
                &&& error.message_text() == "Failed to read workflow: "@ + path@
                &&& error.cause_text() == Some(cause@)
            },
            ExecuteError::StripWorkflow { path, rejection } => {
                &&& error.message_text() == "Failed to strip TypeScript: "@ + path@
                &&& error.cause_text() == Some(strip_message(texts(rejection.errors@)))
            },
            ExecuteError::CanonicalizeConfig { cause } => {
                &&& error.message_text() == "Failed to canonicalize config path"@
                &&& error.cause_text() == Some(cause@)
            },
            ExecuteError::CreateRuntime { cause } => {
                &&& error.message_text() == "Failed to create QuickJS runtime"@
                &&& error.cause_text() == Some(cause@)
            },
            ExecuteError::CreateContext { cause } => {
                &&& error.message_text() == "Failed to create QuickJS context"@
                &&& error.cause_text() == Some(cause@)
            },
            ExecuteError::SetFunction { function, cause } => {
                &&& error.message_text() == "Failed to set "@ + function@ + ": "@ + cause@
                &&& error.cause_text() is None
            },
            ExecuteError::Script { cause } => {
                &&& error.message_text() == "QuickJS evaluation error: "@ + cause@
                &&& error.cause_text() is None
            },
            ExecuteError::WorkflowModule { cause } => {
                &&& error.message_text() == "QuickJS workflow module error: "@ + cause@
                &&& error.cause_text() is None
            },
            ExecuteError::WorkflowEvaluation { cause } => {
                &&& error.message_text() == "QuickJS workflow evaluation error: "@ + cause@
                &&& error.cause_text() is None
            },
            ExecuteError::UnknownOutputType { output_type } => {
                &&& error.message_text() == "Unknown output type: "@ + output_type@
                &&& error.cause_text() is None
            },
            ExecuteError::ConfigModule { cause } => {
                &&& error.message_text() == "QuickJS config module error: "@ + cause@
                &&& error.cause_text() is None
            },
            ExecuteError::ConfigEvaluation { cause } => {
                &&& error.message_text() == "QuickJS config evaluation error: "@ + cause@
                &&& error.cause_text() is None
            },
            ExecuteError::ConfigNotSet => {
                &&& error.message_text() == "Config did not call __gha_set_config"@
                &&& error.cause_text() is None
            },
        },
{
}

} // verus!

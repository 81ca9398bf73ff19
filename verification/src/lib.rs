//! Runs GitHub Actions workflows that are written in TypeScript or JavaScript.
//!
//! A workflow is stripped to JavaScript, evaluated by an embedded engine, and hands
//! its documents over by calling a build function. A config is evaluated in the same
//! way and hands over one JSON text. Reading files, and loading modules on the
//! engine's behalf, is left to the host; [`executor`] and [`resolver`] tell it step by
//! step what to do.
pub mod error;
pub mod executor;
pub mod output;
pub mod path;
pub mod quickjs;
pub mod resolver;
pub mod text;
pub mod typescript;

pub use crate::error::ExecuteError;
pub use crate::executor::{
    execute_config, execute_js, execute_workflow, ConfigReply, ConfigStep, ConfigTask,
    WorkflowReply, WorkflowStep, WorkflowTask,
};
pub use crate::output::BuildOutput;
pub use crate::resolver::{LoadStep, Lookup, ModuleResolver, Resolution};
pub use crate::typescript::{strip_typescript, StripError};

//! Verified core of a local file automation engine: configuration checks,
//! condition matching, action planning, the decisions taken while applying
//! and recovering plans, and the sandboxed evaluation of JavaScript rules.

pub mod bindings;
pub mod error;
pub mod text;
pub mod paths;
pub mod model;
pub mod config;
pub mod planner;
pub mod snapshot;
pub mod executor;
pub mod daemon;
pub mod imports;
pub mod state;
pub mod process;
pub mod json;
pub mod step;
pub mod script;

pub use error::Error;
pub use model::{
    Action, Arg, Conflict, Draft, Evaluation, Event, Exec, FileContext, PathArg, Plan, Receipt, Rename, Snapshot,
    Transfer,
};
pub use script::JsEvaluator;

//! What the parts of the library owe their callers, stated over what goes in and what comes out.

pub mod branch;
pub mod check;
pub mod config;
pub mod control;
pub mod declaration;
pub mod expansion;
pub mod failures;
pub mod graph;
pub mod links;
pub mod manifest;
pub mod observe;
pub mod policy;
pub mod scaling;
pub mod start;
pub mod supervisor;
pub mod telemetry;
pub mod text;
pub mod wiring;
pub mod worker;

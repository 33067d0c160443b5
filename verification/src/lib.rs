//! Verified core of a scaling pipeline runtime.

pub mod bookkeeping;
pub mod branch;
pub mod check;
pub mod columns;
pub mod config;
pub mod construction;
pub mod control;
pub mod cycles;
pub mod error;
pub mod expand;
pub mod expansion;
pub mod fields;
pub mod grammar;
pub mod graph;
pub mod laws;
pub mod links;
pub mod manifest;
pub mod merging;
pub mod observe;
pub mod outcome;
pub mod pipe;
pub mod plan;
pub mod policy;
pub mod recycle;
pub mod rounds;
pub mod scaling;
pub mod snapshot;
pub mod startup;
pub mod supervisor;
pub mod telemetry;
pub mod text;
pub mod tokens;
pub mod union_find;
pub mod wiring;
pub mod worker;

//! A harness that builds many packages of a registry with per-pass compiler
//! timing switched on, keeps each package's output in a log of its own, and
//! reads the timings back from those logs.
//!
//! The modules hold the decisions, each proved against its contract:
//! `krate` parses package specifiers, `batch` expands the work list and plans
//! each package against the ledger of logs already written, `resolve` picks the
//! version to build, `capture` keeps the state of the redirected output streams,
//! `builder` chooses the phases and words their reports, and `timing` parses a
//! captured log and words a report line. Reading and writing files, running the
//! builder and moving the streams are left to the caller.
use vstd::prelude::*;

pub mod text;
pub mod krate;
pub mod timing;
pub mod capture;
pub mod batch;
pub mod resolve;
pub mod builder;

verus! {

} // verus!

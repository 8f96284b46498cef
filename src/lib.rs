//! Structured results from a refinement-type verifier run as a subprocess: the parser of
//! its line-delimited JSON output, the syntax-error filter, and the runner's decisions.
pub mod diagnostics;
pub mod json;
pub mod text;
pub mod runner;
pub mod tools;

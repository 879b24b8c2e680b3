//! A terminal browser for a cloud provider's inventory of serverless
//! functions.
//!
//! The library holds the logic of the tool: exhaustive aggregation of a
//! page-limited listing into one complete, sorted catalog; the selection
//! state machine that drives the interactive list; the pure projection of
//! catalog and selection into drawable regions; and the plain-text startup
//! report. Network retrieval and terminal painting stay outside, in the
//! binary around this crate.

pub mod aggregate;
pub mod catalog;
pub mod order;
pub mod render;
pub mod report;
pub mod select;

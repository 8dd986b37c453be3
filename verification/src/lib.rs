//! Release discovery and reconciliation for a curated roster of artists.
//!
//! The crate holds the decisions of a release watcher: how a paged listing is
//! walked, how raw catalogue records become a canonical release list, which of
//! those releases count as new relative to a watermark, and how an operator
//! curates the next baseline. Network, terminal and disk access stay with the
//! caller, who hands in plain values and carries out the actions returned.

pub mod rank;
pub mod text;
pub mod day;
pub mod release;
pub mod arrange;
pub mod catalog;
pub mod pipeline;
pub mod watermark;
pub mod session;
pub mod transport;
pub mod fetch;
pub mod resolve;
pub mod gate;
pub mod roster;
pub mod paths;
pub mod run;

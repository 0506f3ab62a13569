//! Synchronises documents from a set of source directories into one
//! destination directory (an e-book reader's storage): files with a recognised
//! extension are copied across unless a file of the same name is already there.
//!
//! The library holds the decisions of a run and proves them: which walked
//! paths are candidates, where each one goes, what the outcome of an exclusive
//! create means, how events are tallied and reported; and, over a model of a
//! whole run, that the counts balance, that a dry run changes nothing, that a
//! second run copies nothing, and that no two copies share a destination.
pub mod paths;
pub mod stats;
pub mod scanner;
pub mod coordinator;
pub mod run;
pub mod report;
pub mod defaults;

//! Verified core of a cache-cleaning engine.
//!
//! The library discovers reclaimable cache and build artifacts under chosen
//! root directories, measures them, and plans their safe removal, always
//! honouring a user-supplied set of exclusion patterns: an excluded path is
//! never reported by a scan, never counted by the size pass, and never named
//! by a removal plan.
//!
//! The modules, roughly bottom-up: [`strutil`] holds verified string and
//! path helpers; [`error`] the shared error type; [`exclude`] the compiled
//! exclusion matcher; [`fswalk`] the pruning tree walker and the size pass;
//! [`model`] categories, items and reports; [`scan`] the category scanners
//! and the scan orchestrator; [`delete`] the two-phase deletion planner and
//! its tolerance policy; [`docker`] the container-engine adapter's logic;
//! [`config`] the exclude-pattern configuration and its stored form; [`fmt`]
//! presentation helpers; and [`run`] command-level decisions.
//!
//! Filesystem listing, glob compilation and a few other leaf operations are
//! trusted wrappers around outside crates; everything that decides — what a
//! walk visits, what a scan reports, what gets measured, what gets deleted
//! and in what order, and which failures are tolerated — is verified.

pub mod config;
pub mod delete;
pub mod docker;
pub mod error;
pub mod exclude;
pub mod fmt;
pub mod fswalk;
pub mod model;
pub mod run;
pub mod scan;
pub mod strutil;

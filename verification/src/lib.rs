//! Planning and validation of third-party plugin ("mod") installs.
//!
//! The library is organised leaf to root: a semantic-versioning-like
//! [`version::Version`] domain with partial specificity, version
//! requirements built from comparators, a registry data model, a conflict
//! detector over a snapshot of installed mods, and a greedy dependency
//! resolver that turns an install request into an ordered operation plan.

pub mod assoc;
pub mod config;
pub mod install;
pub mod manifest;
pub mod mod_view;
pub mod paths;
pub mod resolver;
pub mod scan;
pub mod requirement;
pub mod text;
pub mod version;

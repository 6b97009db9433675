//! Composer for a "message of the day" terminal report.
//!
//! A configuration document names an ordered set of status panels.  Every
//! panel goes through a two-phase protocol: `prepare` turns its configuration
//! into a ready-to-render component and an optional layout constraint, and
//! `print` renders the panel from data gathered for it.  Between the two
//! phases the composer reduces all constraints to a single report-wide
//! width, so that every panel is rendered against the same value.

pub mod component;
pub mod config;
pub mod global_config;
pub mod ssl_certs;
pub mod toml_tree;

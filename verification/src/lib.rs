//! Core of a launcher for a dynamic-instrumentation tool: user settings are
//! validated field by field and reduced to a single shell command string, and
//! the two binary assets the tool needs can be provisioned by a background
//! task whose decisions (file naming, archive extraction planning, outcome
//! delivery) are made here. Everything that touches the screen, the network
//! or the filesystem lives outside; this crate works on plain values and is
//! verified.

pub mod archive;
pub mod checks;
pub mod config;
pub mod launch;
pub mod provision;
pub mod session;
pub mod synth;
pub mod text;

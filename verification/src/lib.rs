//! Typed configuration options for declarative system modules.
//!
//! The crate models a module's configurable attributes (switches, text,
//! enumerations and number lists), extracts the currently effective values
//! from declarative config text, tracks pending changes against that
//! snapshot, serializes the changes back into config text, and drives the
//! privileged write-rebuild-or-restore transaction as a state machine.

pub mod apply;
pub mod changes;
pub mod cmap;
pub mod extract;
pub mod nix;
pub mod numbers;
pub mod options;
pub mod text;
pub mod tracker;
pub mod writer;

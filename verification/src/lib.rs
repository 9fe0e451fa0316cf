//! Core logic of a keyboard-driven application launcher.
//!
//! The launcher shows a grid of installed applications, narrows it as the
//! user types a query, and routes arrow-key presses between a search entry
//! and the grids of results and per-application actions.  This crate holds
//! the decision logic of that front end: case-insensitive query matching,
//! incremental reconciliation of the filtered list against the full list,
//! and the keyboard/focus state machine.  Widget handling and talking to
//! the desktop's application registry stay outside, in the binary.

pub mod details;
pub mod matching;
pub mod navigation;
pub mod reconcile;
pub mod text;

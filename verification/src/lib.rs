//! Editing and bookkeeping core of a two-class point classifier.
//!
//! A shell collects two sets of labelled points, asks a numerical solver for
//! the line that separates them best, and draws the answer. This crate holds
//! every decision of that workflow that does not need real-number arithmetic:
//! how a frame of input edits the point sets, when the separator has to be
//! discarded or computed again, and which solver answers may be kept.

pub mod clip;
pub mod discriminate;
pub mod program;
pub mod state;
pub mod utils;

//! Reconciliation of game saves between a handheld's local save directory and
//! a remote platform reached over a file-transfer session.

pub mod listing;
pub mod paths;
pub mod save_compare;
pub mod save_model;
pub mod sync_plan;

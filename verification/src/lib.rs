//! Navigation and selection state machine of a terminal dashboard that lists
//! mirror countries: key classification, action lookup, filtering and
//! sorting of the list, paging, and the set of chosen mirrors.

pub mod key;
pub mod action;
pub mod dispatch;
pub mod mirrors;
pub mod text;
pub mod selection;
pub mod listing;
pub mod model;
pub mod laws;
pub mod state;
pub mod cli;
pub mod config;

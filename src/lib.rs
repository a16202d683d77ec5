//! A personal time tracker's core: the duration codec, the entry ledger's
//! transitions, the typed cell renderer and the report layout.

pub mod text;
pub mod duration;
pub mod ledger;
pub mod report;
pub mod args;
pub mod cli;

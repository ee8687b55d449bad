//! Verified core of the Hen Local live-translation desktop shell.

pub mod account;
pub mod bridge;
pub mod data;
pub mod dataflow;
pub mod license;
pub mod listener;
pub mod overlay;
pub mod preferences;
pub mod previews;
pub mod protocol;
pub mod shared;
pub mod shell;
pub mod speech;
pub mod text;
pub mod usage;

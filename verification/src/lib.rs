//! The rules by which the sessions of a coding agent are persisted, shown and
//! changed. What touches files, clocks and services is left to the caller: the
//! library decides, and says what is to be done next.

pub mod activity;
pub mod assembly;
pub mod capsule;
pub mod catalog;
pub mod chat;
pub mod clock;
pub mod close;
pub mod compression;
pub mod digest;
pub mod errors;
pub mod file_target;
pub mod history;
pub mod json;
pub mod lifecycle;
pub mod manager;
pub mod memory;
pub mod messages;
pub mod model;
pub mod plugins;
pub mod projection;
pub mod remote;
pub mod revert;
pub mod save;
pub mod selectors;
pub mod session;
pub mod snapshots;
pub mod system;
pub mod text;
pub mod transcript;
pub mod turn;
pub mod window;
pub mod workspace;

//! Core of a collaborative plain-text editor: the canonical document, a
//! single-hunk diff engine, undo/redo history, the connection registry and
//! the broadcaster that ties them together, plus the editor's small stores.

pub mod text;
pub mod editor;
pub mod document;
pub mod networking;
pub mod client;
pub mod broadcaster;
pub mod store;
pub mod storage;
pub mod ui;
pub mod utils;
pub mod auth;

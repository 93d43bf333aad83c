pub mod diff_engine;
pub mod state;
pub mod version_control;
pub mod snippets;
pub mod theme;
pub mod extensions;
pub mod annotations;
pub mod collaboration;
pub mod editor;
pub mod events;
pub mod formatter;
pub mod linter;

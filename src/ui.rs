pub mod chat;
pub mod cursors;
pub mod file_manager;
pub mod renderer;
pub mod theme;
pub mod user_profile;
pub mod input_handler;

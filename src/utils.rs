pub mod diff_util;
pub mod helpers;
pub mod types;

//! The status of a working copy: which files changed, which are untracked, what is in conflict, and
//! the template language that renders it.

pub mod decimal;
pub mod displayed;
pub mod merge;
pub mod method_table;
pub mod methods;
pub mod property;
pub mod repo_path;
pub mod status;
pub mod status_templater;
pub mod template_language;
pub mod untracked;

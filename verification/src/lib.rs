pub mod cli;
pub mod config;
pub mod directory_manager;
pub mod fuzzy;
pub mod layout;
pub mod manifest;
pub mod paths;
pub mod repos;
pub mod script;
pub mod session_manager;
pub mod text;
pub mod tmux;

pub use config::{Config, SearchRoot};
pub use directory_manager::{DirectoryManager, DirectoryManagerBuilder};
pub use session_manager::{CreateSessionOptions, Options as ListSessionsOptions, SessionManager, SwitchTarget};

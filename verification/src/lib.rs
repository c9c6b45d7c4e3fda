//! The navigation and listing core of a password-store browser.
//!
//! A store is a directory tree below a fixed root. The browser shows one
//! directory of it at a time: its sub-directories and its secret files,
//! never hidden entries. This crate holds the state of such a browser and the
//! rules that change it, with their proofs; reading directories and drawing
//! the list are left to the caller.
//!
//! - [`paths`]: parent, last component and equality of paths, as
//!   `std::path::Path` answers them.
//! - [`entry`]: one entry of a listing.
//! - [`listing`]: which children of a directory are shown, and in what order.
//! - [`navigation`]: the root, the current directory, and the two ways to move.
//! - [`config`]: where the store is.
//! - [`browser`]: the browser as a whole, command by command.

pub mod browser;
pub mod config;
pub mod entry;
pub mod listing;
pub mod navigation;
pub mod paths;

pub use browser::{Action, App, Msg};
pub use config::ConfigError;
pub use entry::{EntryType, PasswordStoreEntry, PasswordStoreEntryInput, PasswordStoreEntryOutput};
pub use listing::{DirChild, ListError};
pub use navigation::{NavError, NavigationState};

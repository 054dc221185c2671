//! A registry of files kept in a local staging directory (the stall) and the
//! places they belong to elsewhere in the filesystem.
//!
//! The registry is a bijection between local and remote paths. Paths are
//! texts whose components are separated by `/`. The contracts of this crate
//! are stated over plain values: a registry is seen as a [`stall::StallView`],
//! a map from each local path to its remote path together with the status of
//! the registry's file.

pub mod application;
pub mod bijection;
pub mod command;
pub mod entry;
pub mod error;
pub mod list;
pub mod path;
pub mod persist;
pub mod stall;
pub mod text;

pub use application::LoadStatus;
pub use command::{ColorOption, ColorOptionParseError, CommandOptions, CommonOptions};
pub use entry::Entry;
pub use error::{InvalidFile, ListError, MissingFile};
pub use stall::Stall;

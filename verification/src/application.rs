//! What a registry knows about the file it is kept in.

use vstd::prelude::*;
use vstd::string::StringExecFns;

verus! {

/// Whether a registry has changes that are not saved, and the path of the
/// file it was loaded from or is to be saved to.
#[derive(Debug)]
pub struct LoadStatus {
    load_path: Option<String>,
    modified: bool,
}

/// A load status as plain values.
pub struct LoadStatusView {
    /// The path of the registry's file, or `None` for a registry that
    /// belongs to no file.
    pub load_path: Option<Seq<char>>,
    /// Whether the registry has changed since it was loaded or saved.
    pub modified: bool,
}

impl View for LoadStatus {
    type V = LoadStatusView;

    closed spec fn view(&self) -> LoadStatusView {
        LoadStatusView {
            load_path: match self.load_path {
                Some(path) => Some(path@),
                None => None,
            },
            modified: self.modified,
        }
    }
}

impl Clone for LoadStatus {
    /// The same status.
    fn clone(&self) -> (copy: LoadStatus)
        ensures
            copy@ == self@,
    {
        let load_path = match &self.load_path {
            Some(path) => Some(path.clone()),
            None => None,
        };
        LoadStatus { load_path, modified: self.modified }
    }
}

impl Default for LoadStatus {
    /// The status of a registry that belongs to no file and has no changes.
    fn default() -> (status: LoadStatus)
        ensures
            status@ == (LoadStatusView { load_path: None, modified: false }),
    {
        LoadStatus { load_path: None, modified: false }
    }
}

impl LoadStatus {
    /// Returns the status with `path` as its load path.
    #[must_use]
    pub fn with_load_path(self, path: &str) -> (status: LoadStatus)
        ensures
            status@ == (LoadStatusView { load_path: Some(path@), modified: self@.modified }),
    {
        let mut status = self;
        status.set_load_path(path);
        status
    }

    /// The load path, if there is one.
    #[must_use]
    pub fn load_path(&self) -> (path: Option<&str>)
        ensures
            match path {
                Some(p) => self@.load_path == Some(p@),
                None => self@.load_path is None,
            },
    {
        match &self.load_path {
            Some(p) => Some(p.as_str()),
            None => None,
        }
    }

    /// Sets the load path.
    pub fn set_load_path(&mut self, path: &str)
        ensures
            final(self)@ == (LoadStatusView {
                load_path: Some(path@),
                modified: old(self)@.modified,
            }),
    {
        self.load_path = Some(String::from_str(path));
    }

    /// Whether there are changes that are not saved.
    #[must_use]
    pub fn modified(&self) -> (modified: bool)
        ensures
            modified == self@.modified,
    {
        self.modified
    }

    /// Sets whether there are changes that are not saved.
    pub fn set_modified(&mut self, modified: bool)
        ensures
            final(self)@ == (LoadStatusView { load_path: old(self)@.load_path, modified }),
    {
        self.modified = modified;
    }
}

} // verus!

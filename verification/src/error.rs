//! What can be wrong with a stall's files.

use vstd::prelude::*;
use vstd::string::StringExecFns;

verus! {

/// The specified file was invalid.
#[derive(Debug, Clone)]
pub struct InvalidFile;

impl InvalidFile {
    /// The error in words.
    pub fn message(&self) -> (text: String)
        ensures
            text@ == "Invalid file."@,
    {
        String::from_str("Invalid file.")
    }
}

/// The specified file was missing.
#[derive(Debug)]
pub struct MissingFile {
    /// The path of the missing file.
    pub path: String,
}

impl Clone for MissingFile {
    /// The same error.
    fn clone(&self) -> (copy: MissingFile)
        ensures
            copy.path@ == self.path@,
    {
        MissingFile { path: self.path.clone() }
    }
}

impl MissingFile {
    /// The error in words.
    pub fn message(&self) -> (text: String)
        ensures
            text@ == "missing file: "@ + self.path@ + "."@,
    {
        String::from_str("missing file: ").concat(self.path.as_str()).concat(".")
    }
}

/// Why bytes could not be read as a registry in the list format.
#[derive(Debug, Clone, Copy, PartialEq, Eq, Structural)]
pub enum ListError {
    /// The bytes are not text: they are not valid UTF-8.
    NotText,
    /// A line names a path that has no file name, such as `/` or `..`.
    MissingFileName {
        /// The number of the line, counted from 1.
        line: usize,
    },
}

} // verus!

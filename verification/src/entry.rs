//! One pair of the registry, lent out for reading.

use vstd::prelude::*;

verus! {

/// A file of the stall: where its copy lies in the stall, and where the file
/// itself belongs.
#[derive(Debug, Clone, Copy)]
pub struct Entry<'a> {
    /// The path of the copy inside the stall.
    pub local: &'a str,
    /// The path of the file outside the stall.
    pub remote: &'a str,
}

impl<'a> Entry<'a> {
    /// The pair of texts that the entry shows: local first, remote second.
    pub open spec fn pair(self) -> (Seq<char>, Seq<char>) {
        (self.local@, self.remote@)
    }
}

} // verus!

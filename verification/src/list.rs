//! The list format of a registry: one remote path on each line.
//!
//! White space around a line counts for nothing. A line that is empty, or
//! begins with `#` or `//`, holds no path. Every other line is a remote path,
//! and the name of its file is the local path that goes with it.

use crate::bijection::put;
use crate::error::ListError;
use crate::path::{file_name_of, has_file_name, lemma_file_name_is_a_name};
use crate::stall::{Stall, StallView};
use crate::text::{
    after_first_line, first_line_len, lemma_first_line_len_bounds, line_end, lines, str_from_utf8,
    to_chars, trim, trim_range,
};
use vstd::prelude::*;
use vstd::utf8::{decode_utf8, encode_utf8_decode_utf8, valid_utf8};

verus! {

/// Whether a line begins as a comment does: with `#` or with `//`.
pub open spec fn is_comment(line: Seq<char>) -> bool {
    ||| line.len() >= 1 && line[0] == '#'
    ||| line.len() >= 2 && line[0] == '/' && line[1] == '/'
}

/// Whether a line, white space taken off, holds no path.
pub open spec fn is_skipped(line: Seq<char>) -> bool {
    line.len() == 0 || is_comment(line)
}

/// The entries that a list of lines gives, read from the first line to the
/// last: each path is put in under the name of its file, and takes the place
/// of an earlier entry that shares a side with it. The first line whose path
/// has no file name makes the whole list fail.
pub open spec fn list_entries(lines: Seq<Seq<char>>) -> Result<
    Map<Seq<char>, Seq<char>>,
    ListError,
>
    decreases lines.len(),
{
    if lines.len() == 0 {
        Ok(Map::empty())
    } else {
        match list_entries(lines.drop_last()) {
            Err(e) => Err(e),
            Ok(entries) => {
                let remote = trim(lines.last());
                if is_skipped(remote) {
                    Ok(entries)
                } else {
                    match file_name_of(remote) {
                        Some(local) => Ok(put(entries, local, remote)),
                        None => Err(ListError::MissingFileName { line: lines.len() as usize }),
                    }
                }
            },
        }
    }
}

impl StallView {
    /// The registry that a text in the list format gives: it belongs to no
    /// file and counts as unchanged.
    pub open spec fn parse_list(text: Seq<char>) -> Result<StallView, ListError> {
        match list_entries(lines(text)) {
            Ok(entries) => Ok(StallView { entries, load_path: None, modified: false }),
            Err(e) => Err(e),
        }
    }

    /// The registry that bytes in the list format give: the bytes are read as
    /// UTF-8, and what is no text is no list.
    pub open spec fn parse_list_from_bytes(bytes: Seq<u8>) -> Result<StallView, ListError> {
        if valid_utf8(bytes) {
            StallView::parse_list(decode_utf8(bytes))
        } else {
            Err(ListError::NotText)
        }
    }
}

/// Every path that a list brings into a registry ends in the name of a file:
/// the remote paths because a line without one makes the list fail, the local
/// paths because they are such names.
pub proof fn lemma_list_entries_are_named(lines: Seq<Seq<char>>)
    requires
        list_entries(lines) is Ok,
    ensures
        (StallView { entries: list_entries(lines)->Ok_0, load_path: None, modified: false })
            .all_named(),
    decreases lines.len(),
{
    if lines.len() > 0 {
        let front = lines.drop_last();
        lemma_list_entries_are_named(front);
        let before = StallView {
            entries: list_entries(front)->Ok_0,
            load_path: None,
            modified: false,
        };
        let after = StallView {
            entries: list_entries(lines)->Ok_0,
            load_path: None,
            modified: false,
        };
        let remote = trim(lines.last());
        if !is_skipped(remote) {
            lemma_file_name_is_a_name(remote);
        }
        assert forall|l: Seq<char>| #[trigger] after.entries.dom().contains(l) implies has_file_name(
            l,
        ) && has_file_name(after.entries[l]) by {
            if is_skipped(remote) || l != file_name_of(remote)->0 {
                assert(before.entries.dom().contains(l));
            }
        }
    }
}

/// Once a line has failed, the lines behind it change nothing.
pub proof fn lemma_list_entries_fails_early(done: Seq<Seq<char>>, rest: Seq<Seq<char>>)
    requires
        list_entries(done) is Err,
    ensures
        list_entries(done + rest) == list_entries(done),
    decreases rest.len(),
{
    if rest.len() == 0 {
        assert(done + rest == done);
    } else {
        assert((done + rest).drop_last() == done + rest.drop_last());
        lemma_list_entries_fails_early(done, rest.drop_last());
    }
}

/// Tests whether a line, white space taken off, holds no path.
fn line_is_skipped(line: &[char]) -> (skipped: bool)
    ensures
        skipped == is_skipped(line@),
{
    line.len() == 0 || line[0] == '#' || (line.len() >= 2 && line[0] == '/' && line[1] == '/')
}

impl Stall {
    /// Reads a registry from a text in the list format. The registry belongs
    /// to no file and counts as unchanged. Fails at the first line whose path
    /// has no file name.
    pub fn parse_list_from_str(text: &str) -> (parsed: Result<Stall, ListError>)
        ensures
            match parsed {
                Ok(stall) => stall.wf() && stall@.all_named() && StallView::parse_list(text@)
                    == Ok::<StallView, ListError>(stall@),
                Err(e) => StallView::parse_list(text@) == Err::<StallView, ListError>(e),
            },
    {
        let chars = to_chars(text);
        let n = chars.len();
        let mut stall = Stall::new_detached();
        let mut pos: usize = 0;
        let mut line_no: usize = 0;
        let ghost mut done: Seq<Seq<char>> = Seq::empty();
        assert(chars@.subrange(0, n as int) == text@);
        while pos < n
            invariant
                pos <= n == chars.len(),
                chars@ == text@,
                lines(text@) == done + lines(chars@.subrange(pos as int, n as int)),
                done.len() == line_no <= pos,
                stall.wf(),
                list_entries(done) == Ok::<Map<Seq<char>, Seq<char>>, ListError>(stall@.entries),
                stall@.load_path is None,
                !stall@.modified,
            decreases n - pos,
        {
            let ghost rest = chars@.subrange(pos as int, n as int);
            proof {
                lemma_first_line_len_bounds(rest);
            }
            let end = line_end(chars.as_slice(), pos);
            let line = &chars.as_slice()[pos..end];
            assert(line@ == rest.subrange(0, first_line_len(rest)));
            let (a, b) = trim_range(line);
            let remote = &line[a..b];
            let next = if end < n {
                end + 1
            } else {
                end
            };
            assert(chars@.subrange(next as int, n as int) == after_first_line(rest));
            proof {
                assert(done + lines(rest) == done.push(line@) + lines(after_first_line(rest)));
                assert(done.push(line@).drop_last() == done);
                done = done.push(line@);
            }
            line_no = line_no + 1;
            if !line_is_skipped(remote) {
                if !stall.insert_list_remote(remote) {
                    proof {
                        lemma_list_entries_fails_early(done, lines(after_first_line(rest)));
                    }
                    return Err(ListError::MissingFileName { line: line_no });
                }
            }
            pos = next;
        }
        assert(lines(text@) == done);
        proof {
            lemma_list_entries_are_named(done);
        }
        Ok(stall)
    }

    /// Reads a registry from bytes in the list format: UTF-8 text with one
    /// remote path on each line. The registry belongs to no file and counts
    /// as unchanged. Fails where the bytes are no text, and at the first line
    /// whose path has no file name.
    pub fn parse_list_from_bytes(bytes: &[u8]) -> (parsed: Result<Stall, ListError>)
        ensures
            match parsed {
                Ok(stall) => stall.wf() && stall@.all_named()
                    && StallView::parse_list_from_bytes(bytes@) == Ok::<StallView, ListError>(
                    stall@,
                ),
                Err(e) => StallView::parse_list_from_bytes(bytes@) == Err::<StallView, ListError>(
                    e,
                ),
            },
    {
        match str_from_utf8(bytes) {
            Some(text) => {
                proof {
                    encode_utf8_decode_utf8(text@);
                }
                Stall::parse_list_from_str(text)
            },
            None => Err(ListError::NotText),
        }
    }
}

} // verus!

//! Paths as text: components separated by `/`, and the name of the file that
//! a path ends in.

use crate::text::{string_from_chars, to_chars};
use vstd::prelude::*;

verus! {

/// Whether `name` is the component `.`, which stands for the directory itself.
pub open spec fn is_cur_dir(name: Seq<char>) -> bool {
    name.len() == 1 && name[0] == '.'
}

/// Whether `name` is the component `..`, which stands for the parent directory.
pub open spec fn is_parent_dir(name: Seq<char>) -> bool {
    name.len() == 2 && name[0] == '.' && name[1] == '.'
}

/// Where the last component of `path` begins: behind its last `/`, or at 0
/// where it has none.
pub open spec fn component_start(path: Seq<char>) -> int
    decreases path.len(),
{
    if path.len() == 0 || path.last() == '/' {
        path.len() as int
    } else {
        component_start(path.drop_last())
    }
}

/// The file name of `path`: its last component, where separators at the end
/// and components `.` count for nothing. A path has none where no component
/// is left, as in `/`, or where the last one is `..`.
pub open spec fn file_name_of(path: Seq<char>) -> Option<Seq<char>>
    decreases path.len(),
    via file_name_decreases
{
    if path.len() == 0 {
        None
    } else if path.last() == '/' {
        file_name_of(path.drop_last())
    } else {
        let start = component_start(path);
        let name = path.subrange(start, path.len() as int);
        if is_cur_dir(name) {
            file_name_of(path.subrange(0, start))
        } else if is_parent_dir(name) {
            None
        } else {
            Some(name)
        }
    }
}

#[via_fn]
proof fn file_name_decreases(path: Seq<char>) {
    lemma_component_start(path);
}

/// Whether `path` ends in the name of a file.
pub open spec fn has_file_name(path: Seq<char>) -> bool {
    file_name_of(path) is Some
}

/// The last component begins inside the path, directly behind a separator or
/// at the very beginning, and holds no separator itself.
pub proof fn lemma_component_start(path: Seq<char>)
    ensures
        0 <= component_start(path) <= path.len(),
        component_start(path) > 0 ==> path[component_start(path) - 1] == '/',
        forall|i: int| component_start(path) <= i < path.len() ==> path[i] != '/',
        path.len() > 0 && path.last() != '/' ==> component_start(path) < path.len(),
    decreases path.len(),
{
    if path.len() == 0 || path.last() == '/' {
    } else {
        let front = path.drop_last();
        lemma_component_start(front);
        assert forall|i: int| component_start(path) <= i < path.len() implies path[i] != '/' by {
            if i < front.len() {
                assert(path[i] == front[i]);
            }
        }
    }
}

/// A file name is not empty, holds no separator, and is neither `.` nor `..`;
/// taken as a path, it is its own file name.
pub proof fn lemma_file_name_is_a_name(path: Seq<char>)
    requires
        has_file_name(path),
    ensures
        file_name_of(path)->0.len() > 0,
        forall|i: int| 0 <= i < file_name_of(path)->0.len() ==> file_name_of(path)->0[i] != '/',
        !is_cur_dir(file_name_of(path)->0),
        !is_parent_dir(file_name_of(path)->0),
        file_name_of(file_name_of(path)->0) == file_name_of(path),
    decreases path.len(),
{
    lemma_component_start(path);
    if path.last() == '/' {
        lemma_file_name_is_a_name(path.drop_last());
    } else {
        let start = component_start(path);
        let name = path.subrange(start, path.len() as int);
        if is_cur_dir(name) {
            lemma_file_name_is_a_name(path.subrange(0, start));
        } else {
            lemma_component_start_of_name(name);
            assert(name.subrange(0, name.len() as int) == name);
        }
    }
}

/// A text without a separator is one component.
proof fn lemma_component_start_of_name(name: Seq<char>)
    requires
        forall|i: int| 0 <= i < name.len() ==> name[i] != '/',
    ensures
        component_start(name) == 0,
    decreases name.len(),
{
    if name.len() > 0 {
        lemma_component_start_of_name(name.drop_last());
    }
}

/// Where the file name of the path begins and ends, if it has one.
pub fn file_name_range(chars: &[char]) -> (r: Option<(usize, usize)>)
    ensures
        match r {
            Some((a, b)) => a < b <= chars.len() && file_name_of(chars@) == Some(
                chars@.subrange(a as int, b as int),
            ),
            None => file_name_of(chars@) is None,
        },
{
    let mut end: usize = chars.len();
    assert(chars@.take(end as int) == chars@);
    loop
        invariant
            end <= chars.len(),
            file_name_of(chars@) == file_name_of(chars@.take(end as int)),
        decreases end,
    {
        if end == 0 {
            return None;
        }
        let ghost path = chars@.take(end as int);
        if chars[end - 1] == '/' {
            assert(path.drop_last() == chars@.take(end - 1));
            end = end - 1;
        } else {
            let mut start: usize = end - 1;
            assert(path.drop_last() == chars@.take(start as int));
            while start > 0 && chars[start - 1] != '/'
                invariant
                    start < end <= chars.len(),
                    path == chars@.take(end as int),
                    component_start(path) == component_start(chars@.take(start as int)),
                decreases start,
            {
                assert(chars@.take(start as int).drop_last() == chars@.take(start - 1));
                start = start - 1;
            }
            assert(component_start(path) == start);
            assert(path.subrange(start as int, end as int) == chars@.subrange(
                start as int,
                end as int,
            ));
            assert(path.subrange(0, start as int) == chars@.take(start as int));
            if end - start == 1 && chars[start] == '.' {
                end = start;
            } else if end - start == 2 && chars[start] == '.' && chars[start + 1] == '.' {
                return None;
            } else {
                return Some((start, end));
            }
        }
    }
}

/// The file name of `path`, if it has one.
pub fn file_name(path: &str) -> (r: Option<String>)
    ensures
        match r {
            Some(name) => file_name_of(path@) == Some(name@),
            None => file_name_of(path@) is None,
        },
{
    let chars = to_chars(path);
    match file_name_range(chars.as_slice()) {
        Some((a, b)) => Some(string_from_chars(&chars.as_slice()[a..b])),
        None => None,
    }
}

} // verus!

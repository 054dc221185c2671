//! The registry of a stall: which local path stands for which remote path.

use crate::application::LoadStatus;
use crate::bijection::{
    bimap_clone, bimap_get_by_left, bimap_get_by_right, bimap_insert, bimap_is_empty, bimap_iter,
    bimap_new, bimap_remove_by_left, bimap_remove_by_right, is_bijection, left_of, lemma_left_of,
    lemma_listing_len, lemma_put_is_bijection, lemma_remove_is_bijection,
    lemma_without_right_is_bijection, lists_in_order, pairs, put, shown, without_right,
};
use crate::entry::Entry;
use crate::path::{file_name_of, file_name_range, has_file_name};
use crate::text::string_from_chars;
use bimap::BiBTreeMap;
use vstd::prelude::*;

verus! {

/// A registry as plain values.
pub struct StallView {
    /// The remote path of each local path.
    pub entries: Map<Seq<char>, Seq<char>>,
    /// The path of the registry's file, or `None` for a registry that
    /// belongs to no file.
    pub load_path: Option<Seq<char>>,
    /// Whether the registry has changed since it was loaded or saved.
    pub modified: bool,
}

impl StallView {
    /// Whether the entries are a bijection of finitely many pairs: no two
    /// share a local path, no two share a remote path.
    pub open spec fn wf(self) -> bool {
        is_bijection(self.entries)
    }

    /// Whether every path of the registry, local or remote, ends in the name
    /// of a file. Entries that were taken in one by one or read from a list
    /// are such; the pairs of a structured record are taken as they are.
    pub open spec fn all_named(self) -> bool {
        forall|local: Seq<char>| #[trigger]
            self.entries.dom().contains(local) ==> has_file_name(local) && has_file_name(
                self.entries[local],
            )
    }

    /// The registry without entries that belongs to the file at `path`.
    pub open spec fn new(path: Seq<char>) -> StallView {
        StallView { entries: Map::empty(), load_path: Some(path), modified: false }
    }

    /// The registry without entries that belongs to no file.
    pub open spec fn detached() -> StallView {
        StallView { entries: Map::empty(), load_path: None, modified: false }
    }

    /// The entry with the local path `local`, if there is one.
    pub open spec fn entry_local(self, local: Seq<char>) -> Option<(Seq<char>, Seq<char>)> {
        if self.entries.dom().contains(local) {
            Some((local, self.entries[local]))
        } else {
            None
        }
    }

    /// The entry with the remote path `remote`, if there is one.
    pub open spec fn entry_remote(self, remote: Seq<char>) -> Option<(Seq<char>, Seq<char>)> {
        if self.entries.contains_value(remote) {
            Some((left_of(self.entries, remote), remote))
        } else {
            None
        }
    }

    /// The registry after `(local, remote)` came in: an entry that had the
    /// same local path and one that had the same remote path are gone, and
    /// the registry counts as changed.
    pub open spec fn insert(self, local: Seq<char>, remote: Seq<char>) -> StallView {
        StallView { entries: put(self.entries, local, remote), modified: true, ..self }
    }

    /// The registry after the remote path of a list's line came in under the
    /// name of its file. Reading a list is no change: the status stays.
    pub open spec fn insert_list_remote(self, remote: Seq<char>) -> StallView {
        StallView { entries: put(self.entries, file_name_of(remote)->0, remote), ..self }
    }

    /// The registry after the entry with the local path `local` was asked to
    /// leave: it counts as changed whether there was one or not.
    pub open spec fn remove_local(self, local: Seq<char>) -> StallView {
        StallView { entries: self.entries.remove(local), modified: true, ..self }
    }

    /// The registry after the entry with the remote path `remote` was asked
    /// to leave: it counts as changed whether there was one or not.
    pub open spec fn remove_remote(self, remote: Seq<char>) -> StallView {
        StallView { entries: without_right(self.entries, remote), modified: true, ..self }
    }
}

/// After an entry was taken in it is found under either of its paths: a
/// lookup by its local path and a lookup by its remote path both give the
/// entry itself.
pub proof fn lemma_insert_then_lookup(stall: StallView, local: Seq<char>, remote: Seq<char>)
    requires
        stall.wf(),
        has_file_name(local),
        has_file_name(remote),
    ensures
        stall.insert(local, remote).wf(),
        stall.insert(local, remote).entry_local(local) == Some((local, remote)),
        stall.insert(local, remote).entry_remote(remote) == Some((local, remote)),
{
    lemma_put_is_bijection(stall.entries, local, remote);
    lemma_left_of(stall.insert(local, remote).entries, local, remote);
}

/// An entry that is taken in under a local path evicts the entry that had
/// this local path before: where `(local, first)` and then `(local, second)`
/// came in, with two different remote paths, nothing is found under `first`
/// any more, and `(local, second)` is found under `second`.
pub proof fn lemma_insert_evicts(
    stall: StallView,
    local: Seq<char>,
    first: Seq<char>,
    second: Seq<char>,
)
    requires
        stall.wf(),
        has_file_name(local),
        has_file_name(first),
        has_file_name(second),
        first != second,
    ensures
        stall.insert(local, first).insert(local, second).wf(),
        stall.insert(local, first).insert(local, second).entry_remote(first) is None,
        stall.insert(local, first).insert(local, second).entry_remote(second) == Some(
            (local, second),
        ),
{
    let once = stall.insert(local, first);
    let twice = once.insert(local, second);
    lemma_put_is_bijection(stall.entries, local, first);
    lemma_put_is_bijection(once.entries, local, second);
    lemma_left_of(twice.entries, local, second);
    assert forall|l: Seq<char>| twice.entries.dom().contains(l) implies twice.entries[l]
        != first by {
        if l != local {
            assert(once.entries.dom().contains(l));
            assert(once.entries[l] != once.entries[local]);
        }
    }
}

/// Paths with file names keep a registry of such paths: taking an entry in
/// whose two paths end in a file name, and asking entries to leave, never
/// brings in a path without one.
pub proof fn lemma_names_are_kept(stall: StallView, local: Seq<char>, remote: Seq<char>)
    requires
        stall.all_named(),
    ensures
        has_file_name(local) && has_file_name(remote) ==> stall.insert(local, remote).all_named(),
        stall.remove_local(local).all_named(),
        stall.remove_remote(remote).all_named(),
{
    let removed = stall.remove_local(local);
    assert forall|l: Seq<char>| #[trigger] removed.entries.dom().contains(l) implies has_file_name(
        l,
    ) && has_file_name(removed.entries[l]) by {
        assert(stall.entries.dom().contains(l));
    }
    let removed = stall.remove_remote(remote);
    assert forall|l: Seq<char>| #[trigger] removed.entries.dom().contains(l) implies has_file_name(
        l,
    ) && has_file_name(removed.entries[l]) by {
        assert(stall.entries.dom().contains(l));
    }
    if has_file_name(local) && has_file_name(remote) {
        let after = stall.insert(local, remote);
        assert forall|l: Seq<char>| #[trigger] after.entries.dom().contains(l) implies has_file_name(
            l,
        ) && has_file_name(after.entries[l]) by {
            if l != local {
                assert(stall.entries.dom().contains(l));
            }
        }
    }
}

/// Asking an entry to leave that is not there changes no entry, and still
/// makes the registry count as changed.
pub proof fn lemma_remove_absent(stall: StallView, local: Seq<char>)
    requires
        stall.wf(),
        stall.entry_local(local) is None,
    ensures
        stall.remove_local(local).entries == stall.entries,
        stall.remove_local(local).modified,
{
    assert(stall.entries.remove(local) =~= stall.entries);
}

/// The registry of a stall: a bijection between local and remote paths, and
/// the status of the file it is kept in.
#[derive(Debug)]
pub struct Stall {
    /// The status of the registry's file.
    load_status: LoadStatus,
    /// The entries: left is local, right is remote.
    entries: BiBTreeMap<String, String>,
}

impl View for Stall {
    type V = StallView;

    closed spec fn view(&self) -> StallView {
        StallView {
            entries: pairs(self.entries),
            load_path: self.load_status@.load_path,
            modified: self.load_status@.modified,
        }
    }
}

impl Clone for Stall {
    /// A registry with the same entries and the same status.
    fn clone(&self) -> (copy: Stall)
        ensures
            copy@ == self@,
    {
        Stall { load_status: self.load_status.clone(), entries: bimap_clone(&self.entries) }
    }
}

impl Stall {
    /// Whether the registry is a bijection of finitely many pairs.
    pub open spec fn wf(&self) -> bool {
        self@.wf()
    }

    /// A registry without entries that belongs to the file at `path`.
    #[must_use]
    pub fn new(path: &str) -> (stall: Stall)
        ensures
            stall.wf(),
            stall@ == StallView::new(path@),
    {
        let stall = Stall {
            load_status: LoadStatus::default().with_load_path(path),
            entries: bimap_new(),
        };
        assert(stall@.entries =~= Map::empty());
        stall
    }

    /// A registry without entries that belongs to no file.
    #[must_use]
    pub(crate) fn new_detached() -> (stall: Stall)
        ensures
            stall.wf(),
            stall@ == StallView::detached(),
    {
        let stall = Stall { load_status: LoadStatus::default(), entries: bimap_new() };
        assert(stall@.entries =~= Map::empty());
        stall
    }

    /// Whether the registry has no entries.
    #[must_use]
    pub fn is_empty(&self) -> (empty: bool)
        ensures
            empty == self@.entries.is_empty(),
    {
        bimap_is_empty(&self.entries)
    }

    /// The entry with the local path `local`, if there is one.
    #[must_use]
    pub fn entry_local<'a>(&'a self, local: &'a str) -> (entry: Option<Entry<'a>>)
        ensures
            match entry {
                Some(e) => self@.entry_local(local@) == Some(e.pair()),
                None => self@.entry_local(local@) is None,
            },
    {
        match bimap_get_by_left(&self.entries, local) {
            Some(remote) => Some(Entry { local, remote: remote.as_str() }),
            None => None,
        }
    }

    /// The entry with the remote path `remote`, if there is one.
    #[must_use]
    pub fn entry_remote<'a>(&'a self, remote: &'a str) -> (entry: Option<Entry<'a>>)
        requires
            self.wf(),
        ensures
            match entry {
                Some(e) => self@.entry_remote(remote@) == Some(e.pair()),
                None => self@.entry_remote(remote@) is None,
            },
    {
        match bimap_get_by_right(&self.entries, remote) {
            Some(local) => {
                proof {
                    lemma_left_of(self@.entries, local@, remote@);
                }
                Some(Entry { local: local.as_str(), remote })
            },
            None => None,
        }
    }

    /// The entries, each once, in ascending order of their local paths.
    pub fn entries(&self) -> (entries: Vec<Entry<'_>>)
        ensures
            lists_in_order(self@.entries, shown(entries@)),
            entries.len() == self@.entries.len(),
    {
        let entries = bimap_iter(&self.entries);
        proof {
            lemma_listing_len(self@.entries, shown(entries@));
        }
        entries
    }

    /// Takes the entry `(local, remote)` in. An entry that had the same local
    /// path and one that had the same remote path leave the registry, which
    /// then counts as changed.
    pub fn insert(&mut self, local: String, remote: String)
        requires
            old(self).wf(),
            has_file_name(local@),
            has_file_name(remote@),
        ensures
            final(self).wf(),
            final(self)@ == old(self)@.insert(local@, remote@),
            old(self)@.all_named() ==> final(self)@.all_named(),
    {
        proof {
            if self@.all_named() {
                lemma_names_are_kept(self@, local@, remote@);
            }
        }
        self.load_status.set_modified(true);
        self.pair_up(local, remote);
    }

    /// Pairs `local` with `remote` and leaves the status as it is. An entry
    /// that had the same local path and one that had the same remote path
    /// leave the registry.
    pub(crate) fn pair_up(&mut self, local: String, remote: String)
        requires
            old(self).wf(),
        ensures
            final(self).wf(),
            final(self)@ == (StallView {
                entries: put(old(self)@.entries, local@, remote@),
                ..old(self)@
            }),
    {
        proof {
            lemma_put_is_bijection(self@.entries, local@, remote@);
        }
        bimap_insert(&mut self.entries, local, remote);
    }

    /// Takes the remote path of a list's line in, under the name of its file,
    /// and leaves the status as it is. Takes nothing in and says so where the
    /// path has no file name.
    pub(crate) fn insert_list_remote(&mut self, remote: &[char]) -> (inserted: bool)
        requires
            old(self).wf(),
        ensures
            final(self).wf(),
            inserted == has_file_name(remote@),
            inserted ==> final(self)@ == old(self)@.insert_list_remote(remote@),
            !inserted ==> final(self)@ == old(self)@,
    {
        match file_name_range(remote) {
            Some((a, b)) => {
                let local = string_from_chars(&remote[a..b]);
                self.pair_up(local, string_from_chars(remote));
                true
            },
            None => false,
        }
    }

    /// Takes out the entry with the local path `local` and returns it, if
    /// there is one. The registry counts as changed either way.
    pub fn remove_local(&mut self, local: &str) -> (removed: Option<(String, String)>)
        requires
            old(self).wf(),
        ensures
            final(self).wf(),
            final(self)@ == old(self)@.remove_local(local@),
            match removed {
                Some(pair) => old(self)@.entry_local(local@) == Some((pair.0@, pair.1@)),
                None => old(self)@.entry_local(local@) is None,
            },
    {
        proof {
            lemma_remove_is_bijection(self@.entries, local@);
        }
        self.load_status.set_modified(true);
        bimap_remove_by_left(&mut self.entries, local)
    }

    /// Takes out the entry with the remote path `remote` and returns it, if
    /// there is one. The registry counts as changed either way.
    pub fn remove_remote(&mut self, remote: &str) -> (removed: Option<(String, String)>)
        requires
            old(self).wf(),
        ensures
            final(self).wf(),
            final(self)@ == old(self)@.remove_remote(remote@),
            match removed {
                Some(pair) => old(self)@.entry_remote(remote@) == Some((pair.0@, pair.1@)),
                None => old(self)@.entry_remote(remote@) is None,
            },
    {
        proof {
            lemma_without_right_is_bijection(self@.entries, remote@);
        }
        self.load_status.set_modified(true);
        let removed = bimap_remove_by_right(&mut self.entries, remote);
        proof {
            if removed is Some {
                let pair = removed.unwrap();
                lemma_left_of(old(self)@.entries, pair.0@, remote@);
            }
        }
        removed
    }

    /// Returns the registry with `path` as its load path.
    #[must_use]
    pub fn with_load_path(self, path: &str) -> (stall: Stall)
        ensures
            stall@ == (StallView { load_path: Some(path@), ..self@ }),
    {
        let mut stall = self;
        stall.set_load_path(path);
        stall
    }

    /// The path of the file the registry belongs to, if there is one.
    #[must_use]
    pub fn load_path(&self) -> (path: Option<&str>)
        ensures
            match path {
                Some(p) => self@.load_path == Some(p@),
                None => self@.load_path is None,
            },
    {
        self.load_status.load_path()
    }

    /// Sets the path of the file the registry belongs to.
    pub fn set_load_path(&mut self, path: &str)
        ensures
            final(self)@ == (StallView { load_path: Some(path@), ..old(self)@ }),
    {
        self.load_status.set_load_path(path);
    }

    /// Whether the registry has changes that are not saved.
    #[must_use]
    pub fn modified(&self) -> (modified: bool)
        ensures
            modified == self@.modified,
    {
        self.load_status.modified()
    }

    /// Sets whether the registry has changes that are not saved.
    pub fn set_modified(&mut self, modified: bool)
        ensures
            final(self)@ == (StallView { modified, ..old(self)@ }),
    {
        self.load_status.set_modified(modified);
    }
}

} // verus!

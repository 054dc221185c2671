//! Loading a registry: from the pairs of a structured record, or, where the
//! bytes are no such record, from a list.
//!
//! Reading the structured format is the caller's part. The registry takes
//! what the caller read: the pairs of the record in the order of the file, or
//! word that the bytes are no record, in which case the bytes are read as a
//! list. Writing it is the caller's part too, from [`Stall::entries`].

use crate::bijection::{lists_in_order, put, put_all};
use crate::error::ListError;
use crate::stall::{Stall, StallView};
use crate::text::lemma_text_lt_irreflexive;
use vstd::prelude::*;

verus! {

/// The pairs of strings as pairs of texts.
pub open spec fn texts(pairs: Seq<(String, String)>) -> Seq<(Seq<char>, Seq<char>)> {
    pairs.map_values(|p: (String, String)| (p.0@, p.1@))
}

impl StallView {
    /// The registry that a record's pairs give, put in one after the other:
    /// a later pair takes the place of an earlier one that shares a side with
    /// it. The registry belongs to no file and counts as unchanged.
    pub open spec fn from_entries(listing: Seq<(Seq<char>, Seq<char>)>) -> StallView {
        StallView { entries: put_all(Map::empty(), listing), load_path: None, modified: false }
    }

    /// What reading a registry's file gives. `structured` holds the pairs of
    /// the structured record, or `None` where the bytes are no such record:
    /// then the bytes are read as a list, and a failure there is the failure
    /// of the whole.
    pub open spec fn read(
        structured: Option<Seq<(Seq<char>, Seq<char>)>>,
        bytes: Seq<u8>,
    ) -> Result<StallView, ListError> {
        match structured {
            Some(listing) => Ok(StallView::from_entries(listing)),
            None => StallView::parse_list_from_bytes(bytes),
        }
    }
}

/// The part of `m` that the first `k` pairs of `listing` show.
spec fn shown_part(
    m: Map<Seq<char>, Seq<char>>,
    listing: Seq<(Seq<char>, Seq<char>)>,
    k: int,
) -> Map<Seq<char>, Seq<char>> {
    Map::new(
        |l: Seq<char>| exists|i: int| 0 <= i < k && #[trigger] listing[i].0 == l,
        |l: Seq<char>| m[l],
    )
}

proof fn lemma_put_all_prefix(
    m: Map<Seq<char>, Seq<char>>,
    listing: Seq<(Seq<char>, Seq<char>)>,
    k: int,
)
    requires
        m.is_injective(),
        lists_in_order(m, listing),
        0 <= k <= listing.len(),
    ensures
        put_all(Map::empty(), listing.take(k)) == shown_part(m, listing, k),
    decreases k,
{
    let prefix = listing.take(k);
    if k == 0 {
        assert(shown_part(m, listing, k) =~= Map::empty());
    } else {
        lemma_put_all_prefix(m, listing, k - 1);
        assert(prefix.drop_last() == listing.take(k - 1));
        let before = shown_part(m, listing, k - 1);
        let (l, r) = listing[k - 1];
        assert(m.contains_pair(l, r));
        assert forall|x: Seq<char>| before.dom().contains(x) implies x != l && before[x] != r by {
            let i = choose|i: int| 0 <= i < k - 1 && #[trigger] listing[i].0 == x;
            assert(m.contains_pair(listing[i].0, listing[i].1));
            lemma_text_lt_irreflexive(l);
            if before[x] == r {
                assert(m[x] == m[l]);
            }
        }
        assert(put(before, l, r) =~= shown_part(m, listing, k));
    }
}

/// A registry comes back from its own entries: the pairs that
/// [`Stall::entries`] hands out, given to [`Stall::from_entries`], make a
/// registry with the very same entries.
pub proof fn lemma_entries_round_trip(stall: StallView, listing: Seq<(Seq<char>, Seq<char>)>)
    requires
        stall.wf(),
        lists_in_order(stall.entries, listing),
    ensures
        StallView::from_entries(listing).entries == stall.entries,
        StallView::from_entries(listing).wf(),
{
    lemma_put_all_prefix(stall.entries, listing, listing.len() as int);
    assert(listing.take(listing.len() as int) == listing);
    assert(shown_part(stall.entries, listing, listing.len() as int) =~= stall.entries);
}

impl Stall {
    /// The registry that the pairs of a structured record give: each is a
    /// local path with its remote path. They are put in one after the other,
    /// so a later pair takes the place of an earlier one that shares a side
    /// with it. The registry belongs to no file and counts as unchanged.
    #[must_use]
    pub fn from_entries(entries: Vec<(String, String)>) -> (stall: Stall)
        ensures
            stall.wf(),
            stall@ == StallView::from_entries(texts(entries@)),
    {
        let mut stall = Stall::new_detached();
        let ghost all = entries@;
        for pair in it: entries
            invariant
                it.seq() == all,
                stall.wf(),
                stall@ == StallView::from_entries(texts(all.take(it.index() as int))),
        {
            proof {
                let k = it.index() as int;
                assert(texts(all.take(k + 1)).drop_last() == texts(all.take(k)));
            }
            stall.pair_up(pair.0, pair.1);
        }
        assert(all.take(all.len() as int) == all);
        stall
    }

    /// Makes the registry of a file that was read. `structured` holds the
    /// pairs that the reader of the structured format found, or `None` where
    /// it found the bytes to be no such record. In that case the bytes are
    /// read as a list, and only a failure there is reported. The registry
    /// belongs to no file yet and counts as unchanged.
    pub fn read_from_bytes(structured: Option<Vec<(String, String)>>, bytes: &[u8]) -> (read:
        Result<Stall, ListError>)
        ensures
            match read {
                Ok(stall) => stall.wf() && StallView::read(
                    match structured {
                        Some(entries) => Some(texts(entries@)),
                        None => None,
                    },
                    bytes@,
                ) == Ok::<StallView, ListError>(stall@),
                Err(e) => StallView::read(
                    match structured {
                        Some(entries) => Some(texts(entries@)),
                        None => None,
                    },
                    bytes@,
                ) == Err::<StallView, ListError>(e),
            },
    {
        match structured {
            Some(entries) => Ok(Stall::from_entries(entries)),
            None => Stall::parse_list_from_bytes(bytes),
        }
    }
}

} // verus!

//! The two-way map between local and remote paths.
//!
//! The registry keeps its pairs in a `bimap::BiBTreeMap`. Verus does not look
//! inside that type: what it holds is named by [`pairs`], and each method the
//! registry calls is reached through a function of this module whose contract
//! is taken on trust from the map's documentation.

use crate::entry::Entry;
use crate::text::{lemma_text_lt_asymmetric, lemma_text_lt_irreflexive, text_lt};
use bimap::BiBTreeMap;
use vstd::prelude::*;

verus! {

#[verifier::external_type_specification]
#[verifier::external_body]
#[verifier::reject_recursive_types(L)]
#[verifier::reject_recursive_types(R)]
pub struct ExBiBTreeMap<L, R>(BiBTreeMap<L, R>);

/// What a two-way map holds: each left text with the right text it is paired
/// with.
pub uninterp spec fn pairs(m: BiBTreeMap<String, String>) -> Map<Seq<char>, Seq<char>>;

/// `m` without the pair whose right side is `right`.
pub open spec fn without_right(m: Map<Seq<char>, Seq<char>>, right: Seq<char>) -> Map<
    Seq<char>,
    Seq<char>,
> {
    Map::new(|l: Seq<char>| m.dom().contains(l) && m[l] != right, |l: Seq<char>| m[l])
}

/// `m` after `(left, right)` has taken the place of every pair that shares a
/// side with it.
pub open spec fn put(m: Map<Seq<char>, Seq<char>>, left: Seq<char>, right: Seq<char>) -> Map<
    Seq<char>,
    Seq<char>,
> {
    without_right(m.remove(left), right).insert(left, right)
}

/// Whether `listing` shows every pair of `m` once, in ascending order of the
/// left side.
pub open spec fn lists_in_order(
    m: Map<Seq<char>, Seq<char>>,
    listing: Seq<(Seq<char>, Seq<char>)>,
) -> bool {
    &&& forall|i: int|
        0 <= i < listing.len() ==> m.contains_pair(#[trigger] listing[i].0, listing[i].1)
    &&& forall|l: Seq<char>| #[trigger]
        m.dom().contains(l) ==> exists|i: int| 0 <= i < listing.len() && #[trigger] listing[i].0 == l
    &&& forall|i: int, j: int|
        0 <= i < j < listing.len() ==> text_lt(#[trigger] listing[i].0, #[trigger] listing[j].0)
}

/// The pairs that a vector of entries shows.
pub open spec fn shown(entries: Seq<Entry<'_>>) -> Seq<(Seq<char>, Seq<char>)> {
    entries.map_values(|e: Entry<'_>| e.pair())
}

/// `m` after the pairs of `listing` were put into it, one after the other.
pub open spec fn put_all(m: Map<Seq<char>, Seq<char>>, listing: Seq<(Seq<char>, Seq<char>)>) -> Map<
    Seq<char>,
    Seq<char>,
>
    decreases listing.len(),
{
    if listing.len() == 0 {
        m
    } else {
        put(put_all(m, listing.drop_last()), listing.last().0, listing.last().1)
    }
}

/// Whether `m` is a bijection of finitely many pairs: no two pairs share a
/// right side (a map lets none share a left side).
pub open spec fn is_bijection(m: Map<Seq<char>, Seq<char>>) -> bool {
    m.dom().finite() && m.is_injective()
}

/// The left side that `m` pairs with `right`.
pub open spec fn left_of(m: Map<Seq<char>, Seq<char>>, right: Seq<char>) -> Seq<char> {
    choose|l: Seq<char>| m.contains_pair(l, right)
}

/// Where `m` holds a pair with the right side `right`, `left_of` is the left
/// side of such a pair.
pub proof fn lemma_left_of_is_paired(m: Map<Seq<char>, Seq<char>>, right: Seq<char>)
    requires
        m.contains_value(right),
    ensures
        m.contains_pair(left_of(m, right), right),
{
    let k = choose|k: Seq<char>| #[trigger] m.dom().contains(k) && m[k] == right;
    assert(m.contains_pair(k, right));
}

/// In a bijection one left side at most is paired with a right side.
pub proof fn lemma_left_of(m: Map<Seq<char>, Seq<char>>, left: Seq<char>, right: Seq<char>)
    requires
        m.is_injective(),
        m.contains_pair(left, right),
    ensures
        m.contains_value(right),
        left_of(m, right) == left,
{
    let l = left_of(m, right);
    assert(m.contains_pair(l, right));
    if l != left {
        assert(m[l] != m[left]);
    }
}

/// Putting a pair into a bijection gives a bijection.
pub proof fn lemma_put_is_bijection(m: Map<Seq<char>, Seq<char>>, left: Seq<char>, right: Seq<char>)
    requires
        is_bijection(m),
    ensures
        is_bijection(put(m, left, right)),
{
    let p = put(m, left, right);
    assert(p.dom().subset_of(m.dom().insert(left)));
    vstd::set_lib::lemma_set_subset_finite(m.dom().insert(left), p.dom());
    assert forall|x: Seq<char>, y: Seq<char>|
        x != y && p.dom().contains(x) && p.dom().contains(y) implies #[trigger] p[x]
        != #[trigger] p[y] by {
        if x != left && y != left {
            assert(m[x] != m[y]);
        }
    }
}

/// Taking the pair with a given left side out of a bijection leaves a
/// bijection.
pub proof fn lemma_remove_is_bijection(m: Map<Seq<char>, Seq<char>>, left: Seq<char>)
    requires
        is_bijection(m),
    ensures
        is_bijection(m.remove(left)),
{
    let p = m.remove(left);
    assert forall|x: Seq<char>, y: Seq<char>|
        x != y && p.dom().contains(x) && p.dom().contains(y) implies #[trigger] p[x]
        != #[trigger] p[y] by {
        assert(m[x] != m[y]);
    }
}

/// Taking the pair with a given right side out of a bijection leaves a
/// bijection: the one pair is gone, the others stay.
pub proof fn lemma_without_right_is_bijection(m: Map<Seq<char>, Seq<char>>, right: Seq<char>)
    requires
        is_bijection(m),
    ensures
        is_bijection(without_right(m, right)),
        !m.contains_value(right) ==> without_right(m, right) == m,
        m.contains_value(right) ==> without_right(m, right) == m.remove(left_of(m, right)),
{
    let p = without_right(m, right);
    assert(p.dom().subset_of(m.dom()));
    vstd::set_lib::lemma_set_subset_finite(m.dom(), p.dom());
    assert forall|x: Seq<char>, y: Seq<char>|
        x != y && p.dom().contains(x) && p.dom().contains(y) implies #[trigger] p[x]
        != #[trigger] p[y] by {
        assert(m[x] != m[y]);
    }
    if m.contains_value(right) {
        let l = left_of(m, right);
        lemma_left_of_is_paired(m, right);
        assert forall|k: Seq<char>| m.dom().contains(k) && k != l implies m[k] != right by {
            assert(m[k] != m[l]);
        }
        assert(p =~= m.remove(l));
    } else {
        assert(p =~= m);
    }
}

/// The left sides that a listing shows, in its order.
pub open spec fn lefts(listing: Seq<(Seq<char>, Seq<char>)>) -> Seq<Seq<char>> {
    listing.map_values(|p: (Seq<char>, Seq<char>)| p.0)
}

/// A listing of a map is as long as the map has pairs, which are finitely
/// many.
pub proof fn lemma_listing_len(m: Map<Seq<char>, Seq<char>>, listing: Seq<(Seq<char>, Seq<char>)>)
    requires
        lists_in_order(m, listing),
    ensures
        m.dom().finite(),
        listing.len() == m.dom().len(),
{
    let keys = lefts(listing);
    assert forall|i: int, j: int| 0 <= i < keys.len() && 0 <= j < keys.len() && i != j implies keys[i]
        != keys[j] by {
        if i < j {
            assert(text_lt(listing[i].0, listing[j].0));
        } else {
            assert(text_lt(listing[j].0, listing[i].0));
        }
        lemma_text_lt_irreflexive(keys[i]);
    }
    assert forall|l: Seq<char>| keys.to_set().contains(l) <==> m.dom().contains(l) by {
        if keys.to_set().contains(l) {
            let i = choose|i: int| 0 <= i < keys.len() && keys[i] == l;
            assert(m.contains_pair(listing[i].0, listing[i].1));
        }
        if m.dom().contains(l) {
            let i = choose|i: int| 0 <= i < listing.len() && #[trigger] listing[i].0 == l;
            assert(keys[i] == l);
        }
    }
    assert(keys.to_set() =~= m.dom());
    keys.unique_seq_to_set();
    vstd::seq_lib::seq_to_set_is_finite(keys);
}

/// A map has one listing only: two listings of the same map, each in
/// ascending order of the left side, are the same listing.
pub proof fn lemma_listing_is_unique(
    m: Map<Seq<char>, Seq<char>>,
    a: Seq<(Seq<char>, Seq<char>)>,
    b: Seq<(Seq<char>, Seq<char>)>,
)
    requires
        lists_in_order(m, a),
        lists_in_order(m, b),
    ensures
        a == b,
{
    lemma_listing_len(m, a);
    lemma_listing_len(m, b);
    lemma_listings_agree(m, a, b, a.len() as int);
    assert forall|i: int| 0 <= i < a.len() implies a[i] == b[i] by {
        assert(m.contains_pair(a[i].0, a[i].1));
        assert(m.contains_pair(b[i].0, b[i].1));
    }
    assert(a =~= b);
}

/// Two listings of the same map show the same left sides at their first `n`
/// places.
proof fn lemma_listings_agree(
    m: Map<Seq<char>, Seq<char>>,
    a: Seq<(Seq<char>, Seq<char>)>,
    b: Seq<(Seq<char>, Seq<char>)>,
    n: int,
)
    requires
        lists_in_order(m, a),
        lists_in_order(m, b),
        0 <= n <= a.len(),
        a.len() == b.len(),
    ensures
        forall|i: int| 0 <= i < n ==> (#[trigger] a[i]).0 == b[i].0,
    decreases n,
{
    if n > 0 {
        lemma_listings_agree(m, a, b, n - 1);
        let i = n - 1;
        assert(m.contains_pair(a[i].0, a[i].1));
        assert(m.contains_pair(b[i].0, b[i].1));
        let j = choose|j: int| 0 <= j < b.len() && #[trigger] b[j].0 == a[i].0;
        let k = choose|k: int| 0 <= k < a.len() && #[trigger] a[k].0 == b[i].0;
        lemma_text_lt_irreflexive(a[i].0);
        lemma_text_lt_irreflexive(b[i].0);
        if j < i {
            assert(a[j].0 == b[j].0);
            assert(text_lt(a[j].0, a[i].0));
        } else if k < i {
            assert(a[k].0 == b[k].0);
            assert(text_lt(b[k].0, b[i].0));
        } else if j > i {
            assert(text_lt(b[i].0, b[j].0));
            if k > i {
                assert(text_lt(a[i].0, a[k].0));
                lemma_text_lt_asymmetric(a[i].0, a[k].0);
            }
        }
    }
}

/// `BiBTreeMap::new`: a map that holds no pair.
#[verifier::external_body]
pub(crate) fn bimap_new() -> (m: BiBTreeMap<String, String>)
    ensures
        pairs(m).is_empty(),
{
    BiBTreeMap::new()
}

/// `BiBTreeMap::clone`: a map that holds the same pairs.
#[verifier::external_body]
pub(crate) fn bimap_clone(m: &BiBTreeMap<String, String>) -> (copy: BiBTreeMap<String, String>)
    ensures
        pairs(copy) == pairs(*m),
{
    m.clone()
}

/// `BiBTreeMap::is_empty`: whether the map holds no pair.
#[verifier::external_body]
pub(crate) fn bimap_is_empty(m: &BiBTreeMap<String, String>) -> (b: bool)
    ensures
        b == pairs(*m).is_empty(),
{
    m.is_empty()
}

/// `BiBTreeMap::get_by_left`: the right side paired with `left`, or `None`
/// where no pair has that left side.
#[verifier::external_body]
pub(crate) fn bimap_get_by_left<'a>(m: &'a BiBTreeMap<String, String>, left: &str) -> (r: Option<
    &'a String,
>)
    ensures
        match r {
            Some(right) => pairs(*m).contains_pair(left@, right@),
            None => !pairs(*m).dom().contains(left@),
        },
{
    m.get_by_left(left)
}

/// `BiBTreeMap::get_by_right`: the left side paired with `right`, or `None`
/// where no pair has that right side.
#[verifier::external_body]
pub(crate) fn bimap_get_by_right<'a>(m: &'a BiBTreeMap<String, String>, right: &str) -> (r:
    Option<&'a String>)
    ensures
        match r {
            Some(left) => pairs(*m).contains_pair(left@, right@),
            None => !pairs(*m).contains_value(right@),
        },
{
    m.get_by_right(right)
}

/// `BiBTreeMap::insert`: the map takes the pair in; a pair that had the same
/// left side and a pair that had the same right side leave it.
#[verifier::external_body]
pub(crate) fn bimap_insert(m: &mut BiBTreeMap<String, String>, left: String, right: String)
    ensures
        pairs(*final(m)) == put(pairs(*old(m)), left@, right@),
{
    m.insert(left, right);
}

/// `BiBTreeMap::remove_by_left`: the pair with the left side `left` leaves
/// the map and is returned; `None` where there is none, and the map is as it
/// was.
#[verifier::external_body]
pub(crate) fn bimap_remove_by_left(m: &mut BiBTreeMap<String, String>, left: &str) -> (r: Option<
    (String, String),
>)
    ensures
        pairs(*final(m)) == pairs(*old(m)).remove(left@),
        match r {
            Some(pair) => pair.0@ == left@ && pairs(*old(m)).contains_pair(left@, pair.1@),
            None => !pairs(*old(m)).dom().contains(left@),
        },
{
    m.remove_by_left(left)
}

/// `BiBTreeMap::remove_by_right`: the pair with the right side `right`
/// leaves the map and is returned; `None` where there is none, and the map is
/// as it was.
#[verifier::external_body]
pub(crate) fn bimap_remove_by_right(m: &mut BiBTreeMap<String, String>, right: &str) -> (r:
    Option<(String, String)>)
    ensures
        pairs(*final(m)) == without_right(pairs(*old(m)), right@),
        match r {
            Some(pair) => pair.1@ == right@ && pairs(*old(m)).contains_pair(pair.0@, right@),
            None => !pairs(*old(m)).contains_value(right@),
        },
{
    m.remove_by_right(right)
}

/// `BiBTreeMap::iter`: every pair of the map once, in ascending order of the
/// left side, which for `String` is the order of `str`.
#[verifier::external_body]
pub(crate) fn bimap_iter<'a>(m: &'a BiBTreeMap<String, String>) -> (v: Vec<Entry<'a>>)
    ensures
        lists_in_order(pairs(*m), shown(v@)),
{
    m.iter().map(|(l, r)| Entry { local: l.as_str(), remote: r.as_str() }).collect()
}

} // verus!

//! Combination of partition ids.
use std::collections::BTreeSet;

use vstd::prelude::*;

verus! {

broadcast use vstd::std_specs::btree::group_btree_axioms;

/// The hash of two hashes, after Boost's `hash_combine`: the right one plus a
/// constant and two shifts of the left one, modulo 2^64, xored onto the left one.
pub open spec fn hash_combine(lhs: u64, rhs: u64) -> u64 {
    lhs ^ (((rhs + 0x9e3779b9 + (lhs << 6) + (lhs >> 2)) % 0x1_0000_0000_0000_0000) as u64)
}

/// The hash of a list of ids, taken from left to right. One id is its own hash.
pub open spec fn hash_of_listing(ids: Seq<u64>) -> u64
    decreases ids.len(),
{
    if ids.len() == 0 {
        0
    } else if ids.len() == 1 {
        ids[0]
    } else {
        hash_combine(hash_of_listing(ids.drop_last()), ids.last())
    }
}

/// Whether every id is smaller than those behind it.
pub open spec fn strictly_ascending(ids: Seq<u64>) -> bool {
    forall|i: int, j: int| 0 <= i < j < ids.len() ==> ids[i] < ids[j]
}

/// The ids of a set from the smallest to the largest.
pub open spec fn ascending_listing(ids: Set<u64>) -> Seq<u64> {
    choose|listing: Seq<u64>| strictly_ascending(listing) && listing.to_set() == ids
}

/// The partition id that stands for a set of partition ids.
pub open spec fn combined_partition_id(ids: Set<u64>) -> u64 {
    hash_of_listing(ascending_listing(ids))
}

/// Two ascending lists of the same ids are the same list.
proof fn lemma_ascending_listing_unique(left: Seq<u64>, right: Seq<u64>)
    requires
        strictly_ascending(left),
        strictly_ascending(right),
        left.to_set() == right.to_set(),
    ensures
        left == right,
    decreases left.len(),
{
    if left.len() == 0 {
        if right.len() > 0 {
            assert(right.to_set().contains(right[0]));
            assert(left.contains(right[0]));
        }
        assert(left =~= right);
    } else {
        assert(left.to_set().contains(left[0]));
        assert(right.contains(left[0]));
        assert(left.to_set().contains(left.last()));
        assert(right.contains(left.last()));
        assert(right.to_set().contains(right.last()));
        assert(left.contains(right.last()));
        assert(left.last() == right.last());
        let left_rest = left.drop_last();
        let right_rest = right.drop_last();
        assert forall|id: u64| left_rest.to_set().contains(id) == right_rest.to_set().contains(
            id,
        ) by {
            if left_rest.contains(id) {
                let i = choose|i: int| 0 <= i < left_rest.len() && left_rest[i] == id;
                assert(left[i] == id && left.contains(id) && left.to_set().contains(id));
                assert(right.contains(id));
                let j = choose|j: int| 0 <= j < right.len() && right[j] == id;
                assert(right_rest[j] == id);
            }
            if right_rest.contains(id) {
                let i = choose|i: int| 0 <= i < right_rest.len() && right_rest[i] == id;
                assert(right[i] == id && right.contains(id) && right.to_set().contains(id));
                assert(left.contains(id));
                let j = choose|j: int| 0 <= j < left.len() && left[j] == id;
                assert(left_rest[j] == id);
            }
        }
        assert(left_rest.to_set() =~= right_rest.to_set());
        lemma_ascending_listing_unique(left_rest, right_rest);
        assert(left =~= left_rest.push(left.last()));
        assert(right =~= right_rest.push(right.last()));
    }
}

/// An ascending list takes in one more id.
proof fn lemma_insert_ascending(listing: Seq<u64>, id: u64) -> (more: Seq<u64>)
    requires
        strictly_ascending(listing),
    ensures
        strictly_ascending(more),
        forall|other: u64| #[trigger] more.contains(other) <==> listing.contains(other) || other == id,
    decreases listing.len(),
{
    if listing.len() == 0 {
        let more = seq![id];
        assert(more[0] == id);
        more
    } else if listing.last() == id {
        listing
    } else {
        let rest = if listing.last() < id {
            listing
        } else {
            lemma_insert_ascending(listing.drop_last(), id)
        };
        let largest = if listing.last() < id {
            id
        } else {
            listing.last()
        };
        let more = rest.push(largest);
        assert forall|i: int, j: int| 0 <= i < j < more.len() implies more[i] < more[j] by {
            assert(rest.contains(rest[i]));
        }
        assert forall|other: u64| #[trigger]
            more.contains(other) <==> listing.contains(other) || other == id by {
            assert(listing =~= listing.drop_last().push(listing.last()));
            lemma_contains_after_push(rest, largest, other);
            lemma_contains_after_push(listing.drop_last(), listing.last(), other);
        }
        more
    }
}

/// A list with one more id holds that id and the ids before it.
proof fn lemma_contains_after_push(listing: Seq<u64>, id: u64, other: u64)
    ensures
        listing.push(id).contains(other) <==> listing.contains(other) || other == id,
{
    let more = listing.push(id);
    if listing.contains(other) {
        let i = choose|i: int| 0 <= i < listing.len() && listing[i] == other;
        assert(more[i] == other);
    }
    assert(more[listing.len() as int] == id);
}

/// The ids of a list can be listed from the smallest to the largest.
proof fn lemma_ascending_listing_exists(ids: Seq<u64>) -> (listing: Seq<u64>)
    ensures
        strictly_ascending(listing),
        forall|id: u64| #[trigger] listing.contains(id) <==> ids.contains(id),
    decreases ids.len(),
{
    if ids.len() == 0 {
        ids
    } else {
        let rest = lemma_ascending_listing_exists(ids.drop_last());
        let listing = lemma_insert_ascending(rest, ids.last());
        assert forall|id: u64| #[trigger] listing.contains(id) <==> ids.contains(id) by {
            assert(ids =~= ids.drop_last().push(ids.last()));
            lemma_contains_after_push(ids.drop_last(), ids.last(), id);
            assert(rest.contains(id) <==> ids.drop_last().contains(id));
        }
        listing
    }
}

/// Whatever the order of a list of ids and however often one occurs in it, their
/// ascending listing holds each of them once, from the smallest to the largest, and
/// nothing else.
pub proof fn law_every_list_has_an_ascending_listing(ids: Seq<u64>)
    ensures
        strictly_ascending(ascending_listing(ids.to_set())),
        ascending_listing(ids.to_set()).to_set() == ids.to_set(),
        forall|i: int, j: int|
            0 <= i < j < ascending_listing(ids.to_set()).len() ==> ascending_listing(
                ids.to_set(),
            )[i] < ascending_listing(ids.to_set())[j],
        forall|id: u64| #[trigger]
            ascending_listing(ids.to_set()).contains(id) <==> ids.contains(id),
{
    let listing = lemma_ascending_listing_exists(ids);
    assert(listing.to_set() =~= ids.to_set());
    let chosen = ascending_listing(ids.to_set());
    assert forall|id: u64| #[trigger] chosen.contains(id) <==> ids.contains(id) by {
        assert(chosen.to_set().contains(id) <==> ids.to_set().contains(id));
    }
}

/// What a `BTreeSet` calls increasing is strictly ascending.
proof fn lemma_increasing_is_ascending(refs: Seq<&u64>)
    requires
        vstd::std_specs::btree::increasing_seq(refs),
    ensures
        strictly_ascending(refs.unref()),
{
    assert(vstd::laws_cmp::obeys_cmp::<&u64>()) by {
        reveal(vstd::laws_eq::obeys_eq_spec_properties);
        reveal(vstd::laws_cmp::obeys_cmp_partial_ord);
        reveal(vstd::laws_cmp::obeys_cmp_ord);
    }
    let listing = refs.unref();
    assert forall|i: int, j: int| 0 <= i < j < listing.len() implies listing[i] < listing[j] by {
        assert(vstd::std_specs::cmp::OrdSpec::cmp_spec(&refs[i], &refs[j]) is Less);
    }
}

/// An ascending list of ids is hashed as it stands.
pub proof fn law_ascending_ids_are_hashed_in_order(ids: Seq<u64>)
    requires
        strictly_ascending(ids),
    ensures
        combined_partition_id(ids.to_set()) == hash_of_listing(ids),
{
    lemma_ascending_listing_unique(ascending_listing(ids.to_set()), ids);
}

/// The partition id that stands for no partition at all is 0.
pub proof fn law_no_partition_ids_give_zero()
    ensures
        combined_partition_id(Set::empty()) == 0,
{
    assert(Seq::<u64>::empty().to_set() =~= Set::empty());
    law_ascending_ids_are_hashed_in_order(Seq::empty());
}

/// A single partition id is left unchanged.
pub proof fn law_single_partition_id_is_unchanged(id: u64)
    ensures
        combined_partition_id(set![id]) == id,
{
    let listing = seq![id];
    assert(listing.to_set() =~= set![id]) by {
        assert(listing[0] == id);
    }
    law_ascending_ids_are_hashed_in_order(listing);
}

/// Lists that hold the same ids, in whatever order and however often, combine to
/// the same partition id.
pub proof fn law_only_the_set_of_partition_ids_matters(left: Seq<u64>, right: Seq<u64>)
    requires
        forall|id: u64| left.contains(id) <==> right.contains(id),
    ensures
        combined_partition_id(left.to_set()) == combined_partition_id(right.to_set()),
{
    assert(left.to_set() =~= right.to_set());
}

/// Zero is not neutral: next to any other id it changes the result.
pub proof fn law_zero_has_an_impact(id: u64)
    requires
        id != 0,
    ensures
        combined_partition_id(set![0, id]) == (id + 0x9e3779b9) % 0x1_0000_0000_0000_0000,
        combined_partition_id(set![0, id]) != combined_partition_id(set![id]),
{
    let listing = seq![0u64, id];
    assert(listing.to_set() =~= set![0, id]) by {
        assert(listing[0] == 0 && listing[1] == id);
    }
    law_ascending_ids_are_hashed_in_order(listing);
    law_single_partition_id_is_unchanged(id);
    assert(listing.drop_last() =~= seq![0u64]);
    assert(hash_of_listing(listing) == hash_combine(hash_of_listing(listing.drop_last()), id));
    let sum = ((id + 0x9e3779b9) % 0x1_0000_0000_0000_0000) as u64;
    assert(0u64 << 6 == 0 && 0u64 >> 2 == 0) by (bit_vector);
    assert(0u64 ^ sum == sum) by (bit_vector);
}

/// Taking the left hash off the combined one leaves a sum that the right hash can be read
/// off: the right hash itself, a constant, and the left one shifted by six bits to the
/// left and by two to the right, modulo 2^64.
pub proof fn law_right_hash_can_be_read_off(lhs: u64, rhs: u64)
    ensures
        hash_combine(lhs, rhs) ^ lhs == (rhs + 0x9e3779b9 + (lhs << 6) + (lhs >> 2))
            % 0x1_0000_0000_0000_0000,
{
    let sum = ((rhs + 0x9e3779b9 + (lhs << 6) + (lhs >> 2)) % 0x1_0000_0000_0000_0000) as u64;
    assert((lhs ^ sum) ^ lhs == sum) by (bit_vector);
}

/// An id that is larger than some others is combined with what they combine to: it is
/// added to a constant and two shifts of that, modulo 2^64, and xored onto it.
pub proof fn law_larger_id_is_combined_last(ids: Seq<u64>, id: u64)
    requires
        ids.len() > 0,
        forall|i: int| 0 <= i < ids.len() ==> #[trigger] ids[i] < id,
    ensures
        ({
            let before = combined_partition_id(ids.to_set());
            let after = combined_partition_id(ids.push(id).to_set());
            after ^ before == (id + 0x9e3779b9 + (before << 6) + (before >> 2))
                % 0x1_0000_0000_0000_0000
        }),
{
    law_every_list_has_an_ascending_listing(ids);
    let listing = ascending_listing(ids.to_set());
    let more = listing.push(id);
    assert forall|i: int, j: int| 0 <= i < j < more.len() implies more[i] < more[j] by {
        assert(listing.contains(listing[i]));
        assert(ids.contains(listing[i]));
    }
    assert(more.to_set() =~= ids.push(id).to_set()) by {
        assert forall|other: u64| more.contains(other) <==> ids.push(id).contains(other) by {
            lemma_contains_after_push(listing, id, other);
            lemma_contains_after_push(ids, id, other);
            assert(listing.contains(other) <==> ids.contains(other));
        }
    }
    assert(ids.contains(ids[0]));
    assert(listing.contains(ids[0]));
    assert(more.drop_last() =~= listing);
    law_ascending_ids_are_hashed_in_order(more);
    law_right_hash_can_be_read_off(hash_of_listing(listing), id);
}

/// Combines two hashes as Boost's `hash_combine` does.
pub fn combine_two_hashes(lhs: u64, rhs: u64) -> (combined: u64)
    ensures
        combined == hash_combine(lhs, rhs),
        combined ^ lhs == (rhs + 0x9e3779b9 + (lhs << 6) + (lhs >> 2)) % 0x1_0000_0000_0000_0000,
{
    proof {
        law_right_hash_can_be_read_off(lhs, rhs);
    }
    let update_to_xor: u64 = rhs.wrapping_add(0x9e3779b9).wrapping_add(lhs << 6).wrapping_add(
        lhs >> 2,
    );
    lhs ^ update_to_xor
}

/// Combines partition ids into one. The result is that of the set of the ids:
/// neither their order nor how often one occurs matters. No ids give 0.
pub fn combine_partition_ids_aux(partition_ids: &[u64]) -> (combined: u64)
    ensures
        combined == combined_partition_id(partition_ids@.to_set()),
        strictly_ascending(partition_ids@) ==> combined == hash_of_listing(partition_ids@),
{
    let mut sorted_unique_partition_ids: BTreeSet<u64> = BTreeSet::new();
    for i in 0..partition_ids.len()
        invariant
            sorted_unique_partition_ids@ =~= partition_ids@.take(i as int).to_set(),
    {
        proof {
            let next = partition_ids@.take(i + 1);
            assert(next =~= partition_ids@.take(i as int).push(partition_ids[i as int]));
            assert(next.to_set() =~= partition_ids@.take(i as int).to_set().insert(
                partition_ids[i as int],
            )) by {
                assert(next.last() == partition_ids[i as int]);
                assert forall|id: u64| partition_ids@.take(i as int).contains(id) implies next.contains(
                    id,
                ) by {
                    let k = choose|k: int| 0 <= k < i && partition_ids@.take(i as int)[k] == id;
                    assert(next[k] == id);
                }
            }
        }
        sorted_unique_partition_ids.insert(partition_ids[i]);
    }
    assert(partition_ids@.take(partition_ids@.len() as int) =~= partition_ids@);
    let mut combined: u64 = 0;
    let mut is_first: bool = true;
    for id in it: sorted_unique_partition_ids.iter()
        invariant
            is_first == (it.index() == 0),
            combined == hash_of_listing(it.seq().unref().take(it.index() as int)),
    {
        proof {
            let listing = it.seq().unref();
            let seen = listing.take(it.index() as int);
            assert(listing.take(it.index() + 1) =~= seen.push(*id));
            assert(seen.push(*id).drop_last() =~= seen);
        }
        if is_first {
            combined = *id;
            is_first = false;
        } else {
            combined = combine_two_hashes(combined, *id);
        }
    }
    proof {
        let refs = vstd::std_specs::iter::IteratorSpec::remaining(
            &sorted_unique_partition_ids.iter(),
        );
        let listing = refs.unref();
        assert(listing.take(listing.len() as int) =~= listing);
        lemma_increasing_is_ascending(refs);
        law_ascending_ids_are_hashed_in_order(listing);
        if strictly_ascending(partition_ids@) {
            law_ascending_ids_are_hashed_in_order(partition_ids@);
        }
    }
    combined
}

} // verus!

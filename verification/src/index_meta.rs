//! The meta information of an index, and the directory that overlays it.
use vstd::prelude::*;

use crate::error::MergeError;

verus! {

/// The meta information of an index: its segments, and whatever else it holds.
pub struct IndexMetaParts<Segment, Header> {
    pub segments: Vec<Segment>,
    pub header: Header,
}

/// Mathematical view of an [`IndexMetaParts`].
#[verifier::ext_equal]
pub struct IndexMetaPartsView<Segment, Header> {
    pub segments: Seq<Segment>,
    pub header: Header,
}

impl<Segment, Header> View for IndexMetaParts<Segment, Header> {
    type V = IndexMetaPartsView<Segment, Header>;

    open spec fn view(&self) -> IndexMetaPartsView<Segment, Header> {
        IndexMetaPartsView { segments: self.segments@, header: self.header }
    }
}

/// The views of a list of index metas.
pub open spec fn meta_views<Segment, Header>(
    index_metas: Seq<IndexMetaParts<Segment, Header>>,
) -> Seq<IndexMetaPartsView<Segment, Header>> {
    index_metas.map_values(|index_meta: IndexMetaParts<Segment, Header>| index_meta@)
}

/// The segments of the index metas, one meta after the other.
pub open spec fn segments_of<Segment, Header>(
    index_metas: Seq<IndexMetaPartsView<Segment, Header>>,
) -> Seq<Segment>
    decreases index_metas.len(),
{
    if index_metas.len() == 0 {
        seq![]
    } else {
        segments_of(index_metas.drop_last()) + index_metas.last().segments
    }
}

/// The meta of the union of indexes: the last meta with the segments of the others,
/// in order, behind its own.
pub open spec fn union_of<Segment, Header>(
    index_metas: Seq<IndexMetaPartsView<Segment, Header>>,
) -> IndexMetaPartsView<Segment, Header> {
    IndexMetaPartsView {
        segments: index_metas.last().segments + segments_of(index_metas.drop_last()),
        header: index_metas.last().header,
    }
}

/// The union of a single index is that index.
pub proof fn law_union_of_one_is_itself<Segment, Header>(
    index_meta: IndexMetaPartsView<Segment, Header>,
)
    ensures
        union_of(seq![index_meta]).segments == index_meta.segments,
        union_of(seq![index_meta]).header == index_meta.header,
{
    assert(seq![index_meta].drop_last() =~= Seq::empty());
    assert(union_of(seq![index_meta]).segments =~= index_meta.segments);
}

/// One more index in front of others adds its own segments to their union, all of them
/// and nothing else, right behind those of the last index. What the union holds besides
/// segments stays as it is.
pub proof fn law_one_more_index_adds_its_segments<Segment, Header>(
    first: IndexMetaPartsView<Segment, Header>,
    rest: Seq<IndexMetaPartsView<Segment, Header>>,
)
    requires
        rest.len() > 0,
    ensures
        ({
            let union = union_of(rest);
            let larger = union_of(seq![first] + rest);
            let own = rest.last().segments.len() as int;
            &&& larger.segments == union.segments.take(own) + first.segments
                + union.segments.skip(own)
            &&& larger.header == union.header
            &&& union.segments.take(own) == rest.last().segments
            &&& union.header == rest.last().header
        }),
{
    let own = rest.last().segments;
    let others = rest.drop_last();
    assert((seq![first] + rest).drop_last() =~= seq![first] + others);
    assert((seq![first] + rest).last() == rest.last());
    lemma_segments_of_one_more(first, others);
    assert((own + segments_of(others)).take(own.len() as int) =~= own);
    assert((own + segments_of(others)).skip(own.len() as int) =~= segments_of(others));
    assert(union_of(seq![first] + rest).segments =~= own + first.segments + segments_of(others));
}

/// The segments of an index in front of others come first.
proof fn lemma_segments_of_one_more<Segment, Header>(
    first: IndexMetaPartsView<Segment, Header>,
    rest: Seq<IndexMetaPartsView<Segment, Header>>,
)
    ensures
        segments_of(seq![first] + rest) == first.segments + segments_of(rest),
    decreases rest.len(),
{
    let all = seq![first] + rest;
    if rest.len() == 0 {
        let none = all.drop_last();
        assert(none =~= Seq::empty());
        assert(segments_of(none) =~= Seq::empty());
        assert(all.last() == first);
        assert(segments_of(rest) =~= Seq::empty());
        assert(segments_of(all) =~= first.segments + segments_of(rest));
    } else {
        lemma_segments_of_one_more(first, rest.drop_last());
        assert(all.drop_last() =~= seq![first] + rest.drop_last());
        assert(all.last() == rest.last());
        assert(segments_of(all) =~= first.segments + segments_of(rest));
    }
}

/// The segments of one list of indexes behind those of another are those of both lists,
/// one behind the other. A single index has its own segments, no index has none.
pub proof fn law_segments_of_two_lists<Segment, Header>(
    left: Seq<IndexMetaPartsView<Segment, Header>>,
    right: Seq<IndexMetaPartsView<Segment, Header>>,
    index_meta: IndexMetaPartsView<Segment, Header>,
)
    ensures
        segments_of(left + right) == segments_of(left) + segments_of(right),
        segments_of(seq![index_meta]) == index_meta.segments,
        segments_of(Seq::<IndexMetaPartsView<Segment, Header>>::empty()).len() == 0,
    decreases right.len(),
{
    lemma_segments_of_one_more(index_meta, Seq::empty());
    assert(seq![index_meta] + Seq::<IndexMetaPartsView<Segment, Header>>::empty()
        =~= seq![index_meta]);
    assert(segments_of(seq![index_meta]) =~= index_meta.segments);
    if right.len() == 0 {
        assert(left + right =~= left);
        assert(segments_of(left + right) =~= segments_of(left) + segments_of(right));
    } else {
        law_segments_of_two_lists(left, right.drop_last(), index_meta);
        assert((left + right).drop_last() =~= left + right.drop_last());
        assert((left + right).last() == right.last());
        assert(segments_of(left + right) =~= segments_of(left) + segments_of(right));
    }
}

/// The union of two lists of indexes holds what the unions of the one and of the other
/// hold, each segment as often as both together.
pub proof fn law_union_of_two_lists<Segment, Header>(
    left: Seq<IndexMetaPartsView<Segment, Header>>,
    right: Seq<IndexMetaPartsView<Segment, Header>>,
)
    requires
        left.len() > 0,
        right.len() > 0,
    ensures
        union_of(left + right).segments.to_multiset() == union_of(left).segments.to_multiset().add(
            union_of(right).segments.to_multiset(),
        ),
        union_of(left + right).segments.len() == union_of(left).segments.len() + union_of(
            right,
        ).segments.len(),
{
    law_union_holds_every_segment(left);
    law_union_holds_every_segment(right);
    law_union_holds_every_segment(left + right);
    law_segments_of_two_lists(left, right, left[0]);
    vstd::seq_lib::lemma_multiset_commutative(segments_of(left), segments_of(right));
    assert(union_of(left + right).segments.to_multiset() =~= union_of(
        left,
    ).segments.to_multiset().add(union_of(right).segments.to_multiset()));
    broadcast use vstd::seq_lib::group_to_multiset_ensures;

    assert(union_of(left + right).segments.to_multiset().len() == union_of(
        left,
    ).segments.to_multiset().len() + union_of(right).segments.to_multiset().len());
}

/// Every segment of every index is in the union, and every segment of the union is one of
/// an index.
pub proof fn law_union_holds_the_segments_of_each<Segment, Header>(
    index_metas: Seq<IndexMetaPartsView<Segment, Header>>,
)
    requires
        index_metas.len() > 0,
    ensures
        forall|i: int, j: int|
            0 <= i < index_metas.len() && 0 <= j < index_metas[i].segments.len() ==> union_of(
                index_metas,
            ).segments.contains(#[trigger] index_metas[i].segments[j]),
        forall|k: int|
            0 <= k < union_of(index_metas).segments.len() ==> exists|i: int|
                0 <= i < index_metas.len() && (#[trigger] index_metas[i]).segments.contains(
                    #[trigger] union_of(index_metas).segments[k],
                ),
    decreases index_metas.len(),
{
    let all = union_of(index_metas).segments;
    let first = index_metas[0];
    if index_metas.len() == 1 {
        assert(index_metas =~= seq![first]);
        law_union_of_one_is_itself(first);
        assert forall|i: int, j: int|
            0 <= i < index_metas.len() && 0 <= j < index_metas[i].segments.len() implies all.contains(
            #[trigger] index_metas[i].segments[j],
        ) by {
            assert(all[j] == index_metas[i].segments[j]);
        }
        assert forall|k: int| 0 <= k < all.len() implies exists|i: int|
            0 <= i < index_metas.len() && (#[trigger] index_metas[i]).segments.contains(
                #[trigger] union_of(index_metas).segments[k],
            ) by {
            assert(index_metas[0].segments[k] == all[k]);
        }
    } else {
        let rest = index_metas.skip(1);
        let smaller = union_of(rest).segments;
        let own = rest.last().segments.len() as int;
        assert(index_metas =~= seq![first] + rest);
        law_one_more_index_adds_its_segments(first, rest);
        law_union_holds_the_segments_of_each(rest);
        let added = first.segments.len() as int;
        assert forall|k: int| 0 <= k < smaller.len() implies #[trigger] all.contains(smaller[k]) by {
            if k < own {
                assert(all[k] == smaller[k]);
            } else {
                assert(all[k + added] == smaller[k]);
            }
        }
        assert forall|i: int, j: int|
            0 <= i < index_metas.len() && 0 <= j < index_metas[i].segments.len() implies all.contains(
            #[trigger] index_metas[i].segments[j],
        ) by {
            let segment = index_metas[i].segments[j];
            if i == 0 {
                assert(all[own + j] == segment);
            } else {
                assert(rest[i - 1].segments[j] == segment);
                let k = choose|k: int| 0 <= k < smaller.len() && smaller[k] == segment;
                assert(all.contains(smaller[k]));
            }
        }
        assert forall|k: int| 0 <= k < all.len() implies exists|i: int|
            0 <= i < index_metas.len() && (#[trigger] index_metas[i]).segments.contains(
                #[trigger] union_of(index_metas).segments[k],
            ) by {
            if own <= k < own + added {
                assert(index_metas[0].segments[k - own] == all[k]);
            } else {
                let at = if k < own {
                    k
                } else {
                    k - added
                };
                assert(smaller[at] == all[k]);
                let i = choose|i: int|
                    0 <= i < rest.len() && (#[trigger] rest[i]).segments.contains(smaller[at]);
                assert(index_metas[i + 1] == rest[i]);
            }
        }
    }
}

/// No segment is lost in the union and none is added: it holds the segments of all the
/// metas, each as often as they do.
pub proof fn law_union_holds_every_segment<Segment, Header>(
    index_metas: Seq<IndexMetaPartsView<Segment, Header>>,
)
    requires
        index_metas.len() > 0,
    ensures
        union_of(index_metas).segments.to_multiset() == segments_of(index_metas).to_multiset(),
{
    let own = index_metas.last().segments;
    let others = segments_of(index_metas.drop_last());
    vstd::seq_lib::lemma_multiset_commutative(own, others);
    vstd::seq_lib::lemma_multiset_commutative(others, own);
    assert((own + others).to_multiset() =~= (others + own).to_multiset());
}

/// Combines the metas of several indexes into that of their union. Fails where there
/// is none.
pub fn combine_index_meta<Segment, Header>(
    index_metas: Vec<IndexMetaParts<Segment, Header>>,
) -> (combined: Result<IndexMetaParts<Segment, Header>, MergeError>)
    ensures
        match combined {
            Ok(union_index_meta) => {
                &&& index_metas@.len() > 0
                &&& union_index_meta@ == union_of(meta_views(index_metas@))
                &&& union_index_meta.header == index_metas@.last().header
                &&& forall|i: int, j: int|
                    0 <= i < index_metas@.len() && 0 <= j < index_metas@[i].segments@.len()
                        ==> union_index_meta.segments@.contains(
                        #[trigger] index_metas@[i].segments@[j],
                    )
            },
            Err(error) => index_metas@.len() == 0 && error == MergeError::NoIndexMeta,
        },
{
    let ghost metas = meta_views(index_metas@);
    let ghost given = index_metas@;
    let mut index_metas = index_metas;
    let mut union_index_meta = match index_metas.pop() {
        Some(last) => last,
        None => {
            return Err(MergeError::NoIndexMeta);
        },
    };
    let ghost own = union_index_meta.segments@;
    let ghost others = metas.drop_last();
    assert(meta_views(index_metas@) =~= others);
    let ghost header = union_index_meta.header;
    for index_meta in it: index_metas
        invariant
            meta_views(it.seq()) == others,
            union_index_meta.header == header,
            union_index_meta.segments@ == own + segments_of(others.take(it.index() as int)),
    {
        let mut segments = index_meta.segments;
        proof {
            assert(others[it.index() as int].segments == segments@);
            assert(others.take(it.index() + 1).drop_last() =~= others.take(it.index() as int));
        }
        union_index_meta.segments.append(&mut segments);
    }
    assert(others.take(others.len() as int) =~= others);
    proof {
        law_union_holds_the_segments_of_each(metas);
        assert forall|i: int, j: int|
            0 <= i < given.len() && 0 <= j < given[i].segments@.len() implies union_index_meta.segments@.contains(
            #[trigger] given[i].segments@[j],
        ) by {
            assert(metas[i].segments[j] == given[i].segments@[j]);
        }
    }
    Ok(union_index_meta)
}

/// The directories that an index over the splits reads through, first the one that
/// answers first: the output, then the overlay, then the splits in order.
pub fn directory_stack<Directory>(
    output: Directory,
    overlay: Directory,
    splits: Vec<Directory>,
) -> (stack: Vec<Directory>)
    ensures
        stack@ == seq![output, overlay] + splits@,
{
    let mut splits = splits;
    let mut stack: Vec<Directory> = Vec::new();
    stack.push(output);
    stack.push(overlay);
    stack.append(&mut splits);
    stack
}

} // verus!

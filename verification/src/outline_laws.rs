//! What holds of an outline whatever is done to it.
use crate::outline::{
    ancestry, closes_cycle, deeper_run, depth_follows, hangs_below, is_parent, on_the_way_up,
    parent_comes_next, positions_after_insert, positions_after_remove, reindexed, way_up,
    EntryState, FlatEntry, OutlineState,
};
use crate::protocol::CallHierarchyItem;
use vstd::prelude::*;

verus! {

/// A run of deeper entries ends within the list, holds only deeper entries, and is followed by
/// none.
pub proof fn run_is_maximal<Id>(entries: Seq<EntryState<Id>>, from: int, depth: int)
    requires
        0 <= from <= entries.len(),
    ensures
        from + deeper_run(entries, from, depth) <= entries.len(),
        forall|k: int|
            from <= k < from + deeper_run(entries, from, depth) ==> (#[trigger] entries[k]).depth
                > depth,
        from + deeper_run(entries, from, depth) < entries.len() ==> entries[from + deeper_run(
            entries,
            from,
            depth,
        )].depth <= depth,
    decreases entries.len() - from,
{
    if from < entries.len() && entries[from].depth > depth {
        run_is_maximal(entries, from + 1, depth);
    }
}

/// A stretch of deeper entries that is followed by none is the run.
pub proof fn maximal_is_run<Id>(entries: Seq<EntryState<Id>>, from: int, depth: int, count: int)
    requires
        0 <= from <= from + count <= entries.len(),
        forall|k: int| from <= k < from + count ==> (#[trigger] entries[k]).depth > depth,
        from + count < entries.len() ==> entries[from + count].depth <= depth,
    ensures
        deeper_run(entries, from, depth) == count,
    decreases count,
{
    if count > 0 {
        assert(entries[from].depth > depth);
        maximal_is_run(entries, from + 1, depth, count - 1);
    }
}

/// No entry of a tree is deeper than its position.
pub proof fn depth_is_bounded<Id>(outline: OutlineState<Id>, index: int)
    requires
        outline.is_tree(),
        0 <= index < outline.entries.len(),
    ensures
        outline.entries[index].depth <= index,
    decreases index,
{
    if index > 0 {
        assert(depth_follows(outline.entries, index));
        depth_is_bounded(outline, index - 1);
    }
}

/// An entry has descendants listed below it just if the next entry is deeper.
pub proof fn has_descendants_iff_next_deeper<Id>(outline: OutlineState<Id>, index: int)
    requires
        0 <= index < outline.entries.len(),
    ensures
        outline.descendant_count(index) > 0 <==> index + 1 < outline.entries.len()
            && outline.entries[index + 1].depth > outline.entries[index].depth,
        index + 1 + outline.descendant_count(index) <= outline.entries.len(),
{
    run_is_maximal(outline.entries, index + 1, outline.depth_at(index));
}

/// Where the entries and the expanded positions stand once `children` have taken the place of the
/// descendants of the entry at `parent`: what is up to the parent stays where it is, the children
/// follow, none of them expanded, and what came after the descendants comes after the children.
pub proof fn children_layout<Id>(
    outline: OutlineState<Id>,
    parent: int,
    children: Seq<EntryState<Id>>,
)
    requires
        0 <= parent < outline.entries.len(),
        outline.entries.len() <= usize::MAX,
        outline.entries.len() - outline.descendant_count(parent) + children.len() <= usize::MAX,
    ensures
        ({
            let after = outline.with_children(parent, children);
            let gone = outline.descendant_count(parent) as int;
            let added = children.len() as int;
            &&& parent + 1 + gone <= outline.entries.len()
            &&& after.entries == reindexed(
                outline.entries.take(parent + 1) + children + outline.entries.skip(
                    parent + 1 + gone,
                ),
            )
            &&& outline.expanded_in_range() ==> after.expanded_in_range()
            &&& forall|i: usize| #[trigger]
                after.expanded.contains(i) <==> {
                    ||| i <= parent && outline.expanded.contains(i)
                    ||| i > parent + added && i - added + gone <= usize::MAX
                        && outline.expanded.contains((i - added + gone) as usize)
                }
        }),
{
    run_is_maximal(outline.entries, parent + 1, outline.depth_at(parent));
    let gone = outline.descendant_count(parent) as int;
    let added = children.len() as int;
    let bare = outline.without_descendants(parent);
    let after = outline.with_children(parent, children);
    assert(bare.entries.take(parent + 1) =~= outline.entries.take(parent + 1));
    assert(bare.entries.skip(parent + 1) =~= outline.entries.skip(parent + 1 + gone));
    assert forall|i: usize| #[trigger]
        after.expanded.contains(i) <==> {
            ||| i <= parent && outline.expanded.contains(i)
            ||| i > parent + added && i - added + gone <= usize::MAX
                && outline.expanded.contains((i - added + gone) as usize)
        } by {
        if i > parent + added {
            let j = (i - added) as usize;
            assert(after.expanded.contains(i) == bare.expanded.contains(j));
            if gone > 0 {
                assert(bare.expanded.contains(j) == (j + gone <= usize::MAX
                    && outline.expanded.contains((j + gone) as usize)));
            }
        }
    }
}

/// The entries of a tree, once `children` have taken the place of the descendants of the entry at
/// `parent`.
pub proof fn children_entries<Id>(
    outline: OutlineState<Id>,
    parent: int,
    children: Seq<EntryState<Id>>,
)
    requires
        0 <= parent < outline.entries.len(),
    ensures
        parent + 1 + outline.descendant_count(parent) <= outline.entries.len(),
        outline.with_children(parent, children).entries == reindexed(
            outline.entries.take(parent + 1) + children + outline.entries.skip(
                parent + 1 + outline.descendant_count(parent),
            ),
        ),
{
    run_is_maximal(outline.entries, parent + 1, outline.depth_at(parent));
    let bare = outline.without_descendants(parent);
    assert(bare.entries.take(parent + 1) =~= outline.entries.take(parent + 1));
    assert(bare.entries.skip(parent + 1) =~= outline.entries.skip(
        parent + 1 + outline.descendant_count(parent),
    ));
}

/// Children one level below their parent leave a tree a tree.
pub proof fn children_keep_tree<Id>(
    outline: OutlineState<Id>,
    parent: int,
    children: Seq<EntryState<Id>>,
)
    requires
        outline.is_tree(),
        0 <= parent < outline.entries.len(),
        outline.entries.len() - outline.descendant_count(parent) + children.len() <= usize::MAX,
        forall|k: int|
            0 <= k < children.len() ==> (#[trigger] children[k]).depth
                == outline.entries[parent].depth + 1,
    ensures
        outline.with_children(parent, children).is_tree(),
{
    let before = outline.entries;
    let gone = outline.descendant_count(parent) as int;
    let added = children.len() as int;
    let after = outline.with_children(parent, children).entries;
    children_entries(outline, parent, children);
    run_is_maximal(before, parent + 1, outline.depth_at(parent));
    assert forall|i: int| 0 < i < after.len() implies #[trigger] depth_follows(after, i) by {
        if i <= parent {
            assert(depth_follows(before, i));
        } else if i > parent + 1 + added {
            assert(depth_follows(before, i - added + gone));
        } else if i == parent + 1 + added && i < after.len() {
            assert(depth_follows(before, parent + 1 + gone));
        }
    }
}

/// Something stays selected, and stays in the list, when children take the place of the
/// descendants of an entry.
pub proof fn children_keep_selection<Id>(
    outline: OutlineState<Id>,
    parent: int,
    children: Seq<EntryState<Id>>,
)
    requires
        outline.selection_in_range(),
        0 <= parent < outline.entries.len(),
        outline.entries.len() - outline.descendant_count(parent) + children.len() <= usize::MAX,
    ensures
        outline.with_children(parent, children).selection_in_range(),
{
    children_entries(outline, parent, children);
}

/// To collapse an entry is to expand it no more, and to list nothing below it.
pub proof fn collapse_is_no_children<Id>(outline: OutlineState<Id>, index: int)
    requires
        0 <= index < outline.entries.len() <= usize::MAX,
    ensures
        outline.collapsed(index) == (OutlineState {
            expanded: outline.expanded.remove(index as usize),
            ..outline
        }).with_children(index, Seq::empty()),
{
    let folded = OutlineState { expanded: outline.expanded.remove(index as usize), ..outline };
    let none = Seq::<EntryState<Id>>::empty();
    let bare = folded.without_descendants(index);
    run_is_maximal(outline.entries, index + 1, outline.depth_at(index));
    assert(bare.entries.take(index + 1) + none + bare.entries.skip(index + 1) =~= bare.entries);
    assert(positions_after_insert(bare.expanded, index + 1, 0) =~= bare.expanded);
    assert(outline.collapsed(index) =~= folded.with_children(index, none));
}

/// A tree stays a tree, with a selection in it, when an entry is collapsed, wherever that entry
/// may stand.
pub proof fn collapse_keeps_tree<Id>(outline: OutlineState<Id>, index: int)
    requires
        outline.is_tree(),
        outline.selection_in_range(),
        0 <= index,
        outline.entries.len() <= usize::MAX,
    ensures
        outline.collapsed(index).is_tree(),
        outline.collapsed(index).selection_in_range(),
{
    if index < outline.entries.len() {
        let folded = OutlineState { expanded: outline.expanded.remove(index as usize), ..outline };
        let none = Seq::<EntryState<Id>>::empty();
        collapse_is_no_children(outline, index);
        assert(folded.is_tree());
        children_keep_tree(folded, index, none);
        children_keep_selection(folded, index, none);
    } else {
        assert(outline.collapsed(index).entries =~= outline.entries);
    }
}

/// Only entries of the list are expanded after one of them is collapsed, and it is not among
/// them.
pub proof fn collapse_keeps_expanded_in_range<Id>(outline: OutlineState<Id>, index: int)
    requires
        outline.expanded_in_range(),
        0 <= index < outline.entries.len() <= usize::MAX,
    ensures
        outline.collapsed(index).expanded_in_range(),
        !outline.collapsed(index).expanded.contains(index as usize),
{
    let folded = OutlineState { expanded: outline.expanded.remove(index as usize), ..outline };
    assert(folded.expanded_in_range());
    collapse_is_no_children(outline, index);
    children_layout(folded, index, Seq::empty());
}

/// Once children that are deeper than their parent are put below it, they are its descendants,
/// and nothing else is.
pub proof fn children_are_the_descendants<Id>(
    outline: OutlineState<Id>,
    parent: int,
    children: Seq<EntryState<Id>>,
)
    requires
        0 <= parent < outline.entries.len(),
        forall|k: int|
            0 <= k < children.len() ==> (#[trigger] children[k]).depth
                > outline.entries[parent].depth,
    ensures
        outline.with_children(parent, children).descendant_count(parent) == children.len(),
{
    let after = outline.with_children(parent, children);
    let gone = outline.descendant_count(parent) as int;
    children_entries(outline, parent, children);
    run_is_maximal(outline.entries, parent + 1, outline.depth_at(parent));
    assert forall|k: int| parent + 1 <= k < parent + 1 + children.len() implies (
    #[trigger] after.entries[k]).depth > after.depth_at(parent) by {
        assert(after.entries[k].depth == children[k - parent - 1].depth);
    }
    assert(parent + 1 + children.len() < after.entries.len() ==> after.entries[parent + 1
        + children.len()].depth == outline.entries[parent + 1 + gone].depth);
    maximal_is_run(after.entries, parent + 1, after.depth_at(parent), children.len() as int);
}

/// Of two lists of children that are put below an entry one after the other, only the second
/// counts.
pub proof fn last_children_count<Id>(
    outline: OutlineState<Id>,
    parent: int,
    first: Seq<EntryState<Id>>,
    second: Seq<EntryState<Id>>,
)
    requires
        0 <= parent < outline.entries.len() <= usize::MAX,
        outline.entries.len() - outline.descendant_count(parent) + first.len() <= usize::MAX,
        outline.entries.len() - outline.descendant_count(parent) + second.len() <= usize::MAX,
        outline.can_replace_children(parent, first.len() as int),
        forall|k: int|
            0 <= k < first.len() ==> (#[trigger] first[k]).depth > outline.entries[parent].depth,
    ensures
        outline.with_children(parent, first).with_children(parent, second)
            == outline.with_children(parent, second),
{
    let middle = outline.with_children(parent, first);
    let twice = middle.with_children(parent, second);
    let once = outline.with_children(parent, second);
    let gone = outline.descendant_count(parent) as int;
    children_are_the_descendants(outline, parent, first);
    assert(middle.descendant_count(parent) == first.len());
    children_layout(outline, parent, first);
    children_layout(outline, parent, second);
    children_layout(middle, parent, second);
    assert(twice.entries =~= once.entries) by {
        assert(middle.entries.len() == outline.entries.len() - gone + first.len());
        assert forall|i: int| 0 <= i < twice.entries.len() implies twice.entries[i]
            == once.entries[i] by {
            if i > parent + second.len() {
                let j = i - second.len() + first.len();
                assert(middle.entries[j].entry_id == outline.entries[j - first.len()
                    + gone].entry_id);
            }
        }
    }
    assert(twice.expanded =~= once.expanded) by {
        assert forall|i: usize| twice.expanded.contains(i) == once.expanded.contains(i) by {
            if i > parent + second.len() {
                let j = i - second.len() + first.len();
                if j < middle.entries.len() {
                    assert(middle.expanded.contains(j as usize) == outline.expanded.contains(
                        (j - first.len() + gone) as usize,
                    ));
                }
            }
        }
    }
    assert(twice.selected == once.selected);
}

/// Collapsing an entry forgets the children that were put below it last: the outcome is the one
/// of collapsing it before.
pub proof fn collapse_forgets_children<Id>(
    outline: OutlineState<Id>,
    parent: int,
    children: Seq<EntryState<Id>>,
)
    requires
        0 <= parent < outline.entries.len() <= usize::MAX,
        outline.entries.len() - outline.descendant_count(parent) + children.len() <= usize::MAX,
        outline.can_replace_children(parent, children.len() as int),
        forall|k: int|
            0 <= k < children.len() ==> (#[trigger] children[k]).depth
                > outline.entries[parent].depth,
    ensures
        outline.with_children(parent, children).collapsed(parent) == outline.collapsed(parent),
{
    let p = parent as usize;
    let none = Seq::<EntryState<Id>>::empty();
    let folded = OutlineState { expanded: outline.expanded.remove(p), ..outline };
    let after = outline.with_children(parent, children);
    let folded_after = OutlineState { expanded: after.expanded.remove(p), ..after };
    assert(folded.descendant_count(parent) == outline.descendant_count(parent));
    children_layout(outline, parent, children);
    children_layout(folded, parent, children);
    assert(folded_after.expanded =~= folded.with_children(parent, children).expanded);
    assert(folded_after =~= folded.with_children(parent, children));
    collapse_is_no_children(after, parent);
    collapse_is_no_children(outline, parent);
    last_children_count(folded, parent, children, none);
}

/// Collapsing an entry that had nothing listed below it when its children came in undoes their
/// coming in: only the mark that it is expanded is gone.
pub proof fn collapse_undoes_children<Id>(
    outline: OutlineState<Id>,
    parent: int,
    children: Seq<EntryState<Id>>,
)
    requires
        outline.is_tree(),
        0 <= parent < outline.entries.len(),
        outline.entries.len() + children.len() <= usize::MAX,
        outline.can_replace_children(parent, children.len() as int),
        outline.descendant_count(parent) == 0,
        forall|k: int|
            0 <= k < children.len() ==> (#[trigger] children[k]).depth
                > outline.entries[parent].depth,
    ensures
        outline.with_children(parent, children).collapsed(parent) == (OutlineState {
            expanded: outline.expanded.remove(parent as usize),
            ..outline
        }),
{
    collapse_forgets_children(outline, parent, children);
    assert(outline.collapsed(parent).entries =~= outline.entries);
}

/// Where the entry at `index` stands once `children` have taken the place of the descendants of
/// the entry at `parent`.
pub open spec fn position_after_children<Id>(
    outline: OutlineState<Id>,
    parent: int,
    children: Seq<EntryState<Id>>,
    index: int,
) -> int {
    if index <= parent {
        index
    } else {
        index - outline.descendant_count(parent) + children.len()
    }
}

/// An entry that stays in the list when children come in keeps its marks: the one at its new
/// position is the same, expanded just if it was, and selected if it was.
pub proof fn entries_keep_their_marks<Id>(
    outline: OutlineState<Id>,
    parent: int,
    children: Seq<EntryState<Id>>,
    index: int,
)
    requires
        0 <= parent < outline.entries.len() <= usize::MAX,
        outline.entries.len() - outline.descendant_count(parent) + children.len() <= usize::MAX,
        0 <= index < outline.entries.len(),
        index <= parent || index > parent + outline.descendant_count(parent),
    ensures
        ({
            let after = outline.with_children(parent, children);
            let there = position_after_children(outline, parent, children, index);
            &&& 0 <= there < after.entries.len()
            &&& after.entries[there] == (EntryState {
                node_index: there as usize,
                ..outline.entries[index]
            })
            &&& after.expanded.contains(there as usize) == outline.expanded.contains(index as usize)
            &&& outline.selected == Some(index as usize) ==> after.selected == Some(there as usize)
        }),
{
    children_layout(outline, parent, children);
}

/// New children come in neither expanded nor selected, and a selection among the entries that
/// they replace goes to their parent.
pub proof fn children_come_in_unmarked<Id>(
    outline: OutlineState<Id>,
    parent: int,
    children: Seq<EntryState<Id>>,
    k: int,
)
    requires
        0 <= parent < outline.entries.len() <= usize::MAX,
        outline.entries.len() - outline.descendant_count(parent) + children.len() <= usize::MAX,
        outline.can_replace_children(parent, children.len() as int),
        0 <= k < children.len(),
    ensures
        ({
            let after = outline.with_children(parent, children);
            &&& after.entries[parent + 1 + k] == (EntryState {
                node_index: (parent + 1 + k) as usize,
                ..children[k]
            })
            &&& !after.expanded.contains((parent + 1 + k) as usize)
            &&& after.selected != Some((parent + 1 + k) as usize)
            &&& outline.selected is Some && parent < outline.selected->0 <= parent
                + outline.descendant_count(parent) ==> after.selected == Some(parent as usize)
        }),
{
    children_layout(outline, parent, children);
}

/// The ancestry of an entry depends on the depths up to it alone.
pub proof fn ancestry_is_local<Id>(a: Seq<EntryState<Id>>, b: Seq<EntryState<Id>>, index: int)
    requires
        0 <= index < a.len(),
        index < b.len(),
        forall|i: int| 0 <= i <= index ==> (#[trigger] a[i]).depth == (#[trigger] b[i]).depth,
    ensures
        ancestry(a, index) == ancestry(b, index),
    decreases index,
{
    if exists|p: int| is_parent(a, p, index) {
        let p = choose|p: int| is_parent(a, p, index);
        assert forall|k: int| p < k < index implies (#[trigger] b[k]).depth >= b[index].depth by {
            assert(a[k].depth == b[k].depth);
        }
        assert(is_parent(b, p, index));
        parent_comes_next(a, p, index);
        parent_comes_next(b, p, index);
        ancestry_is_local(a, b, p);
    } else if exists|p: int| is_parent(b, p, index) {
        let p = choose|p: int| is_parent(b, p, index);
        assert forall|k: int| p < k < index implies (#[trigger] a[k]).depth >= a[index].depth by {
            assert(a[k].depth == b[k].depth);
        }
        assert(is_parent(a, p, index));
    }
}

/// All of the ancestry of an entry stands at or above it.
pub proof fn ancestry_stands_above<Id>(entries: Seq<EntryState<Id>>, index: int)
    requires
        0 <= index < entries.len(),
    ensures
        forall|a: int|
            0 <= a < ancestry(entries, index).len() ==> 0 <= #[trigger] ancestry(
                entries,
                index,
            )[a] <= index,
    decreases index,
{
    if exists|p: int| is_parent(entries, p, index) {
        let p = choose|p: int| is_parent(entries, p, index);
        ancestry_stands_above(entries, p);
        parent_comes_next(entries, p, index);
        assert forall|a: int| 0 <= a < ancestry(entries, index).len() implies 0
            <= #[trigger] ancestry(entries, index)[a] <= index by {
            if a > 0 {
                assert(ancestry(entries, index)[a] == ancestry(entries, p)[a - 1]);
            }
        }
    }
}

/// The way up from `reached`, which the walk up from `index` has come to, is the rest of the
/// ancestry of `reached`, when no entry from `from` down to it is less deep.
proof fn lemma_way_up_from<Id>(
    entries: Seq<EntryState<Id>>,
    index: int,
    reached: int,
    from: int,
)
    requires
        -1 <= from < reached <= index < entries.len(),
        reached == index || hangs_below(entries, reached, index),
        forall|k: int| 0 <= k <= index ==> (#[trigger] entries[k]).node_index == k,
        forall|k: int|
            from < k < reached ==> (#[trigger] entries[k]).depth >= entries[reached].depth,
    ensures
        seq![reached] + way_up(entries, index, from) == ancestry(entries, reached),
    decreases from + 1,
{
    if from < 0 {
        assert(!exists|p: int| is_parent(entries, p, reached)) by {
            if exists|p: int| is_parent(entries, p, reached) {
                let p = choose|p: int| is_parent(entries, p, reached);
                assert(entries[p].depth >= entries[reached].depth);
            }
        }
        assert(seq![reached] + way_up(entries, index, from) =~= seq![reached]);
    } else {
        assert(entries[from].node_index == from);
        if entries[from].depth < entries[reached].depth {
            assert(is_parent(entries, from, reached));
            parent_comes_next(entries, from, reached);
            assert(hangs_below(entries, from, index));
            lemma_way_up_from(entries, index, from, from - 1);
        } else {
            assert(entries[reached].depth <= entries[from].depth);
            assert(!hangs_below(entries, from, index));
            lemma_way_up_from(entries, index, reached, from - 1);
        }
    }
}

/// Where each entry has its own position written into it, the walk up from an entry names the
/// entry itself, its parent, and so on up to one that has none, and nothing else.
pub proof fn way_up_is_the_ancestry<Id>(entries: Seq<EntryState<Id>>, index: int)
    requires
        0 <= index < entries.len(),
        forall|k: int| 0 <= k <= index ==> (#[trigger] entries[k]).node_index == k,
    ensures
        way_up(entries, index, index) == ancestry(entries, index),
{
    assert(entries[index].node_index == index);
    assert(on_the_way_up(entries, index, index));
    lemma_way_up_from(entries, index, index, index - 1);
}

/// A child hangs below the entry that it was put under: its ancestry is itself, followed by that
/// of its parent, which is as it was.
pub proof fn child_hangs_below_parent<Id>(
    outline: OutlineState<Id>,
    parent: int,
    children: Seq<EntryState<Id>>,
    k: int,
)
    requires
        0 <= parent < outline.entries.len(),
        0 <= k < children.len(),
        forall|i: int|
            0 <= i < children.len() ==> (#[trigger] children[i]).depth
                == outline.entries[parent].depth + 1,
    ensures
        ({
            let after = outline.with_children(parent, children);
            &&& ancestry(after.entries, parent + 1 + k) == seq![parent + 1 + k] + ancestry(
                outline.entries,
                parent,
            )
        }),
{
    let after = outline.with_children(parent, children);
    children_entries(outline, parent, children);
    assert forall|i: int| parent < i < parent + 1 + k implies (#[trigger] after.entries[i]).depth
        >= after.entries[parent + 1 + k].depth by {
        assert(after.entries[i].depth == children[i - parent - 1].depth);
    }
    assert(after.entries[parent + 1 + k].depth == children[k].depth);
    assert(is_parent(after.entries, parent, parent + 1 + k));
    parent_comes_next(after.entries, parent, parent + 1 + k);
    ancestry_is_local(after.entries, outline.entries, parent);
}

/// Where only expanded entries have descendants listed below them, it stays so when children come
/// in below an expanded entry.
pub proof fn children_keep_collapsed_hidden<Id>(
    outline: OutlineState<Id>,
    parent: int,
    children: Seq<EntryState<Id>>,
)
    requires
        outline.collapsed_hide_descendants(),
        0 <= parent < outline.entries.len() <= usize::MAX,
        outline.entries.len() - outline.descendant_count(parent) + children.len() <= usize::MAX,
        children.len() > 0 ==> outline.expanded.contains(parent as usize),
        forall|k: int|
            0 <= k < children.len() ==> (#[trigger] children[k]).depth
                == outline.entries[parent].depth + 1,
    ensures
        outline.with_children(parent, children).collapsed_hide_descendants(),
{
    let after = outline.with_children(parent, children);
    let gone = outline.descendant_count(parent) as int;
    let added = children.len() as int;
    children_layout(outline, parent, children);
    children_are_the_descendants(outline, parent, children);
    run_is_maximal(outline.entries, parent + 1, outline.depth_at(parent));
    assert forall|i: int|
        0 <= i < after.entries.len() && #[trigger] after.descendant_count(
            i,
        ) > 0 implies after.expanded.contains(i as usize) by {
        has_descendants_iff_next_deeper(after, i);
        if i < parent {
            has_descendants_iff_next_deeper(outline, i);
            assert(outline.descendant_count(i) > 0);
        } else if i == parent {
        } else if i <= parent + added {
            assert(after.entries[i].depth == children[i - parent - 1].depth);
            if i < parent + added {
                assert(after.entries[i + 1].depth == children[i - parent].depth);
            } else {
                assert(after.entries[i + 1].depth == outline.entries[parent + 1 + gone].depth);
            }
        } else {
            let j = i - added + gone;
            has_descendants_iff_next_deeper(outline, j);
            assert(outline.descendant_count(j) > 0);
            assert(outline.expanded.contains(j as usize));
        }
    }
}

/// Where only expanded entries have descendants listed below them, it stays so when an entry is
/// collapsed.
pub proof fn collapse_keeps_collapsed_hidden<Id>(outline: OutlineState<Id>, index: int)
    requires
        outline.collapsed_hide_descendants(),
        0 <= index < outline.entries.len() <= usize::MAX,
    ensures
        outline.collapsed(index).collapsed_hide_descendants(),
        outline.collapsed(index).descendant_count(index) == 0,
{
    let p = index as usize;
    let none = Seq::<EntryState<Id>>::empty();
    let folded = OutlineState { expanded: outline.expanded.remove(p), ..outline };
    let bare = outline.with_children(index, none);
    let after = outline.collapsed(index);
    collapse_is_no_children(outline, index);
    assert(folded.descendant_count(index) == outline.descendant_count(index));
    children_keep_collapsed_hidden(outline, index, none);
    children_are_the_descendants(folded, index, none);
    children_layout(outline, index, none);
    children_layout(folded, index, none);
    assert(after.entries =~= bare.entries);
    assert forall|i: int|
        0 <= i < after.entries.len() && #[trigger] after.descendant_count(
            i,
        ) > 0 implies after.expanded.contains(i as usize) by {
        assert(bare.descendant_count(i) == after.descendant_count(i));
        assert(bare.expanded.contains(i as usize));
        assert(i != index);
    }
}

/// Where an entry without descendants turns out to have no children, still only expanded entries
/// have descendants listed below them.
pub proof fn childless_keeps_collapsed_hidden<Id>(outline: OutlineState<Id>, index: int)
    requires
        outline.collapsed_hide_descendants(),
        0 <= index < outline.entries.len() <= usize::MAX,
        outline.descendant_count(index) == 0,
    ensures
        outline.with_childless(index).collapsed_hide_descendants(),
{
    let after = outline.with_childless(index);
    assert forall|i: int|
        0 <= i < after.entries.len() && #[trigger] after.descendant_count(
            i,
        ) > 0 implies after.expanded.contains(i as usize) by {
        has_descendants_iff_next_deeper(after, i);
        has_descendants_iff_next_deeper(outline, i);
        assert(outline.descendant_count(i) > 0);
    }
}

/// Selecting the next entry and then the one before goes back to where it started, unless the
/// last entry was selected.
pub proof fn previous_undoes_next<Id>(outline: OutlineState<Id>)
    requires
        outline.entries.len() <= usize::MAX,
        outline.selected is Some,
        outline.selected->0 + 1 < outline.entries.len(),
    ensures
        ({
            let moved = outline.with_selected(outline.next_index());
            moved.with_selected(moved.previous_index()) == outline
        }),
{
}

/// Selecting the entry before and then the next one goes back to where it started, unless the
/// first entry was selected.
pub proof fn next_undoes_previous<Id>(outline: OutlineState<Id>)
    requires
        outline.entries.len() <= usize::MAX,
        outline.selected is Some,
        0 < outline.selected->0 < outline.entries.len(),
    ensures
        ({
            let moved = outline.with_selected(outline.previous_index());
            moved.with_selected(moved.next_index()) == outline
        }),
{
}

/// Selecting the next entry stops at the last one, and selecting the one before at the first.
pub proof fn selection_stops_at_the_ends<Id>(outline: OutlineState<Id>)
    requires
        0 < outline.entries.len() <= usize::MAX,
    ensures
        outline.selected == Some((outline.entries.len() - 1) as usize) ==> outline.with_selected(
            outline.next_index(),
        ) == outline,
        outline.selected == Some(0usize) ==> outline.with_selected(outline.previous_index())
            == outline,
{
}

/// Moving the selection keeps it in the list.
pub proof fn moving_keeps_selection_in_range<Id>(outline: OutlineState<Id>)
    requires
        outline.selection_in_range(),
        outline.entries.len() <= usize::MAX,
    ensures
        outline.with_selected(outline.next_index()).selection_in_range(),
        outline.with_selected(outline.previous_index()).selection_in_range(),
{
}

/// What a line of the list holds is what its entry holds.
pub proof fn lines_hold_their_entry<Id>(entry: FlatEntry<Id>)
    ensures
        entry@.entry_id == entry.entry_id,
        entry@.item == entry.item,
        entry@.from_ranges == entry.from_ranges@,
        entry@.depth == entry.depth,
        entry@.has_children == entry.has_children,
        entry@.node_index == entry.node_index,
{
}

/// The descendants of an entry are the entries that follow it and are deeper, up to the first one
/// that is not.
pub proof fn descendants_are_the_deeper_that_follow<Id>(
    outline: OutlineState<Id>,
    index: int,
    gone: int,
)
    requires
        0 <= index < outline.entries.len(),
        0 <= gone,
        index + 1 + gone <= outline.entries.len(),
        forall|i: int|
            index < i <= index + gone ==> (#[trigger] outline.entries[i]).depth
                > outline.entries[index].depth,
        index + 1 + gone < outline.entries.len() ==> outline.entries[index + 1 + gone].depth
            <= outline.entries[index].depth,
    ensures
        outline.descendant_count(index) == gone,
{
    maximal_is_run(outline.entries, index + 1, outline.depth_at(index), gone);
}

/// An entry that is not in the list has no descendants.
pub proof fn unlisted_entries_have_no_descendants<Id>(outline: OutlineState<Id>, index: int)
    requires
        index >= outline.entries.len(),
    ensures
        outline.descendant_count(index) == 0,
{
}

/// Children take the place of the `gone` descendants of their parent: the entries up to the
/// parent stay, the children follow in their order, then comes what came after the descendants.
/// All keep what they hold, but for their position, which is written into each.
pub proof fn children_take_the_place_of_descendants<Id>(
    outline: OutlineState<Id>,
    parent: int,
    gone: int,
    children: Seq<EntryState<Id>>,
)
    requires
        0 <= parent,
        0 <= gone,
        parent + 1 + gone <= outline.entries.len(),
        forall|i: int|
            parent < i <= parent + gone ==> (#[trigger] outline.entries[i]).depth
                > outline.entries[parent].depth,
        parent + 1 + gone < outline.entries.len() ==> outline.entries[parent + 1 + gone].depth
            <= outline.entries[parent].depth,
    ensures
        ({
            let after = outline.with_children(parent, children).entries;
            let added = children.len() as int;
            &&& after.len() == outline.entries.len() - gone + added
            &&& forall|i: int|
                0 <= i <= parent ==> #[trigger] after[i] == (EntryState {
                    node_index: i as usize,
                    ..outline.entries[i]
                })
            &&& forall|i: int|
                parent < i <= parent + added ==> #[trigger] after[i] == (EntryState {
                    node_index: i as usize,
                    ..children[i - parent - 1]
                })
            &&& forall|i: int|
                parent + added < i < after.len() ==> #[trigger] after[i] == (EntryState {
                    node_index: i as usize,
                    ..outline.entries[i - added + gone]
                })
        }),
{
    descendants_are_the_deeper_that_follow(outline, parent, gone);
    children_entries(outline, parent, children);
}

/// When children take the place of the `gone` descendants of their parent, expanded positions up
/// to the parent stay, those of the descendants are dropped, and those after them move by as much
/// as their entries. No child is expanded.
pub proof fn expanded_positions_follow_their_entries<Id>(
    outline: OutlineState<Id>,
    parent: int,
    gone: int,
    children: Seq<EntryState<Id>>,
    position: usize,
)
    requires
        0 <= parent,
        outline.entries.len() <= usize::MAX,
        0 <= gone,
        parent + 1 + gone <= outline.entries.len(),
        forall|i: int|
            parent < i <= parent + gone ==> (#[trigger] outline.entries[i]).depth
                > outline.entries[parent].depth,
        parent + 1 + gone < outline.entries.len() ==> outline.entries[parent + 1 + gone].depth
            <= outline.entries[parent].depth,
        outline.entries.len() - gone + children.len() <= usize::MAX,
    ensures
        ({
            let after = outline.with_children(parent, children).expanded;
            let added = children.len() as int;
            &&& position <= parent ==> (after.contains(position) <==> outline.expanded.contains(
                position,
            ))
            &&& parent < position <= parent + added ==> !after.contains(position)
            &&& position > parent + gone && position - gone + added <= usize::MAX ==> (
            after.contains((position - gone + added) as usize) <==> outline.expanded.contains(
                position,
            ))
            &&& position > parent + added && position - added + gone > usize::MAX
                ==> !after.contains(position)
        }),
{
    descendants_are_the_deeper_that_follow(outline, parent, gone);
    children_layout(outline, parent, children);
}

/// When children take the place of the `gone` descendants of their parent, the selection stays
/// with its entry. A selection among the descendants goes to the parent.
pub proof fn selection_follows_its_entry<Id>(
    outline: OutlineState<Id>,
    parent: int,
    gone: int,
    children: Seq<EntryState<Id>>,
)
    requires
        0 <= parent,
        outline.entries.len() <= usize::MAX,
        0 <= gone,
        parent + 1 + gone <= outline.entries.len(),
        forall|i: int|
            parent < i <= parent + gone ==> (#[trigger] outline.entries[i]).depth
                > outline.entries[parent].depth,
        parent + 1 + gone < outline.entries.len() ==> outline.entries[parent + 1 + gone].depth
            <= outline.entries[parent].depth,
        outline.can_replace_children(parent, children.len() as int),
        outline.entries.len() - gone + children.len() <= usize::MAX,
    ensures
        ({
            let after = outline.with_children(parent, children).selected;
            &&& outline.selected is None <==> after is None
            &&& outline.selected matches Some(selected) ==> {
                &&& selected <= parent ==> after->0 == selected
                &&& parent < selected <= parent + gone ==> after->0 == parent
                &&& selected > parent + gone ==> after->0 == selected - gone + children.len()
            }
        }),
{
    descendants_are_the_deeper_that_follow(outline, parent, gone);
}

/// Collapsing an entry takes its `gone` descendants out of the list and nothing else: the entries
/// up to it stay, and those after the descendants move up. All keep what they hold, but for their
/// position.
pub proof fn collapsing_takes_out_the_descendants<Id>(
    outline: OutlineState<Id>,
    index: int,
    gone: int,
)
    requires
        0 <= index,
        0 <= gone,
        index + 1 + gone <= outline.entries.len(),
        forall|i: int|
            index < i <= index + gone ==> (#[trigger] outline.entries[i]).depth
                > outline.entries[index].depth,
        index + 1 + gone < outline.entries.len() ==> outline.entries[index + 1 + gone].depth
            <= outline.entries[index].depth,
    ensures
        ({
            let after = outline.collapsed(index).entries;
            &&& after.len() == outline.entries.len() - gone
            &&& forall|i: int|
                0 <= i <= index ==> #[trigger] after[i] == (EntryState {
                    node_index: i as usize,
                    ..outline.entries[i]
                })
            &&& forall|i: int|
                index < i < after.len() ==> #[trigger] after[i] == (EntryState {
                    node_index: i as usize,
                    ..outline.entries[i + gone]
                })
        }),
{
    descendants_are_the_deeper_that_follow(outline, index, gone);
    assert(outline.collapsed(index).entries.len() == outline.entries.len() - gone);
}

/// After an entry is collapsed it is not expanded, entries above it are if they were, and so are
/// those after its `gone` descendants, at the positions that they have moved up to.
pub proof fn collapsing_keeps_other_marks<Id>(
    outline: OutlineState<Id>,
    index: int,
    gone: int,
    position: usize,
)
    requires
        0 <= index,
        outline.entries.len() <= usize::MAX,
        0 <= gone,
        index + 1 + gone <= outline.entries.len(),
        forall|i: int|
            index < i <= index + gone ==> (#[trigger] outline.entries[i]).depth
                > outline.entries[index].depth,
        index + 1 + gone < outline.entries.len() ==> outline.entries[index + 1 + gone].depth
            <= outline.entries[index].depth,
    ensures
        ({
            let after = outline.collapsed(index);
            &&& !after.expanded.contains(index as usize)
            &&& position < index ==> (after.expanded.contains(position)
                <==> outline.expanded.contains(position))
            &&& position > index + gone ==> (after.expanded.contains((position - gone) as usize)
                <==> outline.expanded.contains(position))
            &&& outline.selected is None <==> after.selected is None
            &&& outline.selected matches Some(selected) ==> {
                &&& selected <= index ==> after.selected->0 == selected
                &&& index < selected <= index + gone ==> after.selected->0 == index
                &&& selected > index + gone ==> after.selected->0 == selected - gone
            }
        }),
{
    descendants_are_the_deeper_that_follow(outline, index, gone);
    let folded = OutlineState { expanded: outline.expanded.remove(index as usize), ..outline };
    assert(folded.descendant_count(index) == gone);
}

/// Taking `count` entries out from `start` on leaves the others in their order, each as it was.
/// Marks stay with their entries: those of the entries taken out are dropped, and a selection
/// among them goes to `fallback`, or to the last entry where that lies beyond it.
pub proof fn taking_out_a_range_keeps_the_others<Id>(
    outline: OutlineState<Id>,
    start: int,
    count: int,
    fallback: int,
    position: usize,
)
    requires
        0 <= start,
        0 <= count,
        0 <= fallback <= usize::MAX,
        start + count <= outline.entries.len() <= usize::MAX,
    ensures
        ({
            let after = outline.without_range(start, count, fallback);
            &&& after.entries.len() == outline.entries.len() - count
            &&& forall|i: int|
                0 <= i < start ==> #[trigger] after.entries[i] == outline.entries[i]
            &&& forall|i: int|
                start <= i < after.entries.len() ==> #[trigger] after.entries[i]
                    == outline.entries[i + count]
            &&& position < start ==> (after.expanded.contains(position)
                <==> outline.expanded.contains(position))
            &&& position >= start + count ==> (after.expanded.contains(
                (position - count) as usize,
            ) <==> outline.expanded.contains(position))
            &&& position > usize::MAX - count && count > 0 ==> !after.expanded.contains(position)
            &&& outline.selected is None ==> after.selected is None
            &&& outline.selected matches Some(selected) ==> {
                &&& selected < start ==> after.selected == Some(selected)
                &&& selected >= start + count ==> after.selected == Some(
                    (selected - count) as usize,
                )
                &&& start <= selected < start + count ==> {
                    &&& after.entries.len() == 0 ==> after.selected is None
                    &&& fallback < after.entries.len() ==> after.selected == Some(
                        fallback as usize,
                    )
                    &&& 0 < after.entries.len() <= fallback ==> after.selected == Some(
                        (after.entries.len() - 1) as usize,
                    )
                }
            }
        }),
{
}

/// Taking out no entries changes nothing, wherever they would start.
pub proof fn taking_out_nothing_changes_nothing<Id>(
    outline: OutlineState<Id>,
    start: int,
    fallback: int,
)
    ensures
        outline.without_range(start, 0, fallback) == outline,
{
}

/// Collapsing a position that no entry is at takes its mark away, and changes nothing else of a
/// list in which each entry has its position written into it.
pub proof fn collapsing_an_unlisted_position_drops_its_mark<Id>(
    outline: OutlineState<Id>,
    index: int,
    position: usize,
)
    requires
        outline.entries.len() <= index <= usize::MAX,
        forall|i: int|
            0 <= i < outline.entries.len() ==> (#[trigger] outline.entries[i]).node_index == i,
    ensures
        outline.collapsed(index).entries == outline.entries,
        outline.collapsed(index).selected == outline.selected,
        outline.collapsed(index).expanded.contains(position) <==> position != index
            && outline.expanded.contains(position),
{
    assert(outline.collapsed(index).entries =~= outline.entries);
}

/// Children can take the place of the `gone` descendants of an entry just if that moves no mark
/// beyond the end of the list past the greatest position there is.
pub proof fn marks_beyond_the_list_must_fit<Id>(
    outline: OutlineState<Id>,
    parent: int,
    gone: int,
    count: int,
)
    requires
        0 <= parent < outline.entries.len(),
        0 <= gone,
        parent + 1 + gone <= outline.entries.len(),
        forall|i: int|
            parent < i <= parent + gone ==> (#[trigger] outline.entries[i]).depth
                > outline.entries[parent].depth,
        parent + 1 + gone < outline.entries.len() ==> outline.entries[parent + 1 + gone].depth
            <= outline.entries[parent].depth,
    ensures
        outline.can_replace_children(parent, count) <==> {
            &&& forall|i: usize| #[trigger]
                outline.expanded.contains(i) && i >= outline.entries.len() ==> i - gone + count
                    <= usize::MAX
            &&& outline.selected matches Some(selected) ==> selected >= outline.entries.len()
                ==> selected - gone + count <= usize::MAX
        },
{
    descendants_are_the_deeper_that_follow(outline, parent, gone);
}

/// Making room for `count` entries at `at` leaves the entries as they are. Marks before `at` stay,
/// those from `at` on move by `count`, and nothing is marked in the room made.
pub proof fn making_room_moves_what_follows<Id>(
    outline: OutlineState<Id>,
    at: int,
    count: int,
    position: usize,
)
    requires
        0 <= at,
        0 <= count,
        outline.has_room(at, count),
    ensures
        ({
            let after = outline.with_room(at, count);
            &&& after.entries == outline.entries
            &&& position < at ==> (after.expanded.contains(position)
                <==> outline.expanded.contains(position))
            &&& at <= position < at + count ==> !after.expanded.contains(position)
            &&& position >= at && position + count <= usize::MAX ==> (after.expanded.contains(
                (position + count) as usize,
            ) <==> outline.expanded.contains(position))
            &&& outline.selected is None <==> after.selected is None
            &&& outline.selected matches Some(selected) ==> {
                &&& selected < at ==> after.selected->0 == selected
                &&& selected >= at ==> after.selected->0 == selected + count
            }
        }),
{
}

/// Taking out a range undoes making room for it.
pub proof fn taking_out_undoes_making_room(positions: Set<usize>, at: int, count: int)
    requires
        0 <= at,
        0 <= count,
        forall|i: usize| #[trigger] positions.contains(i) && i >= at ==> i + count <= usize::MAX,
    ensures
        positions_after_remove(positions_after_insert(positions, at, count), at, count)
            == positions,
{
    let there = positions_after_insert(positions, at, count);
    assert(positions_after_remove(there, at, count) =~= positions);
}

/// Writing their positions into the entries changes nothing else.
pub proof fn positions_are_all_that_is_written<Id>(outline: OutlineState<Id>, index: int)
    requires
        0 <= index < outline.entries.len() <= usize::MAX,
    ensures
        ({
            let after = outline.with_reindexed();
            &&& after.entries.len() == outline.entries.len()
            &&& after.entries[index] == (EntryState {
                node_index: index as usize,
                ..outline.entries[index]
            })
            &&& after.expanded == outline.expanded
            &&& after.selected == outline.selected
        }),
{
}

/// The entry that turns out to have nothing to list below it is no longer offered for expansion,
/// nor expanded. Nothing else changes.
pub proof fn childless_entries_are_noted<Id>(outline: OutlineState<Id>, index: int, other: int)
    requires
        0 <= index < outline.entries.len() <= usize::MAX,
        0 <= other < outline.entries.len(),
    ensures
        ({
            let after = outline.with_childless(index);
            &&& after.entries.len() == outline.entries.len()
            &&& after.entries[index] == (EntryState {
                has_children: false,
                ..outline.entries[index]
            })
            &&& !after.expanded.contains(index as usize)
            &&& other != index ==> after.entries[other] == outline.entries[other]
            &&& other != index ==> (after.expanded.contains(other as usize)
                <==> outline.expanded.contains(other as usize))
            &&& after.selected == outline.selected
        }),
{
}

/// Selecting moves the selection to an entry of the list and nowhere else, and changes nothing
/// else.
pub proof fn selecting_moves_only_the_selection<Id>(outline: OutlineState<Id>, index: int)
    requires
        0 <= index <= usize::MAX,
    ensures
        outline.with_selected(index).entries == outline.entries,
        outline.with_selected(index).expanded == outline.expanded,
        index < outline.entries.len() ==> outline.with_selected(index).selected == Some(
            index as usize,
        ),
        index >= outline.entries.len() ==> outline.with_selected(index).selected
            == outline.selected,
{
}

/// Selecting the next entry goes one down, and selecting the one before goes one up, as far as
/// there are entries. Where nothing is selected both go to the first entry.
pub proof fn selection_moves_step_by_step<Id>(outline: OutlineState<Id>)
    requires
        outline.entries.len() <= usize::MAX,
    ensures
        outline.entries.len() == 0 ==> outline.with_selected(outline.next_index()) == outline
            && outline.with_selected(outline.previous_index()) == outline,
        outline.entries.len() > 0 ==> ({
            let down = outline.with_selected(outline.next_index()).selected;
            let up = outline.with_selected(outline.previous_index()).selected;
            &&& outline.selected is None ==> down == Some(0usize) && up == Some(0usize)
            &&& outline.selected matches Some(selected) ==> {
                &&& down is Some
                &&& up is Some
                &&& selected + 1 < outline.entries.len() ==> down->0 == selected + 1
                &&& selected + 1 >= outline.entries.len() ==> down->0 == outline.entries.len() - 1
                &&& 0 < selected <= outline.entries.len() ==> up->0 == selected - 1
                &&& selected > outline.entries.len() ==> up->0 == selected
                &&& selected == 0 ==> up->0 == 0
            }
        }),
{
}

/// The ancestry of an entry is the entry itself and every entry above it that is less deep than
/// all that stand between them, the nearest first.
pub proof fn ancestry_is_all_that_it_hangs_below<Id>(
    entries: Seq<EntryState<Id>>,
    index: int,
    above: int,
)
    requires
        0 <= index < entries.len(),
    ensures
        ancestry(entries, index).contains(above) <==> above == index || (0 <= above < index
            && forall|k: int|
            above < k <= index ==> (#[trigger] entries[k]).depth > entries[above].depth),
        ancestry(entries, index).len() > 0,
        ancestry(entries, index)[0] == index,
        forall|a: int, b: int|
            0 <= a < b < ancestry(entries, index).len() ==> #[trigger] ancestry(entries, index)[a]
                > #[trigger] ancestry(entries, index)[b],
    decreases index,
{
    let path = ancestry(entries, index);
    if exists|p: int| is_parent(entries, p, index) {
        let p = choose|p: int| is_parent(entries, p, index);
        parent_comes_next(entries, p, index);
        let rest = ancestry(entries, p);
        assert(path == seq![index] + rest);
        ancestry_is_all_that_it_hangs_below(entries, p, above);
        ancestry_stands_above(entries, p);
        assert(path.contains(above) <==> above == index || rest.contains(above)) by {
            if rest.contains(above) {
                let a = choose|a: int| 0 <= a < rest.len() && rest[a] == above;
                assert(path[a + 1] == above);
            }
            if path.contains(above) && above != index {
                let a = choose|a: int| 0 <= a < path.len() && path[a] == above;
                assert(rest[a - 1] == above);
            }
            assert(path[0] == index);
        }
        if 0 <= above < index {
            let hangs = forall|k: int|
                above < k <= index ==> (#[trigger] entries[k]).depth > entries[above].depth;
            if above > p {
                assert(entries[above].depth >= entries[index].depth);
                assert(!hangs) by {
                    if hangs {
                        assert(entries[index].depth > entries[above].depth);
                    }
                }
                if rest.contains(above) {
                    let a = choose|a: int| 0 <= a < rest.len() && rest[a] == above;
                    assert(rest[a] <= p);
                }
            } else if above < p {
                if rest.contains(above) {
                    assert(entries[p].depth > entries[above].depth);
                    assert forall|k: int| above < k <= index implies (#[trigger] entries[k]).depth
                        > entries[above].depth by {
                        if k > p && k < index {
                            assert(entries[k].depth >= entries[index].depth);
                        }
                    }
                }
            } else {
                assert forall|k: int| above < k <= index implies (#[trigger] entries[k]).depth
                    > entries[above].depth by {
                    if k < index {
                        assert(entries[k].depth >= entries[index].depth);
                    }
                }
                assert(rest[0] == p);
            }
        } else if rest.contains(above) {
            let a = choose|a: int| 0 <= a < rest.len() && rest[a] == above;
            assert(0 <= rest[a] <= p);
        }
        assert forall|a: int, b: int| 0 <= a < b < path.len() implies #[trigger] path[a]
            > #[trigger] path[b] by {
            assert(path[b] == rest[b - 1]);
            if a > 0 {
                assert(path[a] == rest[a - 1]);
            } else {
                assert(rest[b - 1] <= p);
            }
        }
    } else {
        assert(path[0] == index);
        if 0 <= above < index && (forall|k: int|
            above < k <= index ==> (#[trigger] entries[k]).depth > entries[above].depth) {
            lemma_parent_exists(entries, above, index);
        }
    }
}

/// An entry that hangs below another has a parent.
proof fn lemma_parent_exists<Id>(entries: Seq<EntryState<Id>>, above: int, index: int)
    requires
        0 <= above < index < entries.len(),
        entries[above].depth < entries[index].depth,
    ensures
        exists|p: int| is_parent(entries, p, index),
    decreases index - above,
{
    if exists|k: int| above < k < index && (#[trigger] entries[k]).depth < entries[index].depth {
        let k = choose|k: int|
            above < k < index && (#[trigger] entries[k]).depth < entries[index].depth;
        lemma_parent_exists(entries, k, index);
    } else {
        assert(is_parent(entries, above, index));
    }
}

/// The walk up from `index` names a position just if its entry is less deep than all that follow
/// it up to `index`, or is as deep as the one at `index` and has `index` written into it. It names
/// them from the bottom to the top, each once.
pub proof fn walk_up_names_each_once<Id>(
    entries: Seq<EntryState<Id>>,
    index: int,
    from: int,
    position: int,
)
    requires
        -1 <= from <= index < entries.len(),
    ensures
        way_up(entries, index, from).contains(position) <==> {
            &&& 0 <= position <= from
            &&& {
                ||| position < index && forall|k: int|
                    position < k <= index ==> (#[trigger] entries[k]).depth
                        > entries[position].depth
                ||| entries[position].depth == entries[index].depth
                    && entries[position].node_index == index
            }
        },
        forall|a: int, b: int|
            0 <= a < b < way_up(entries, index, from).len() ==> #[trigger] way_up(
                entries,
                index,
                from,
            )[a] > #[trigger] way_up(entries, index, from)[b],
        forall|a: int|
            0 <= a < way_up(entries, index, from).len() ==> 0 <= #[trigger] way_up(
                entries,
                index,
                from,
            )[a] <= from,
    decreases from + 1,
{
    let path = way_up(entries, index, from);
    if from >= 0 {
        walk_up_names_each_once(entries, index, from - 1, position);
        let rest = way_up(entries, index, from - 1);
        if on_the_way_up(entries, index, from) {
            assert(path == seq![from] + rest);
            assert(path[0] == from);
            assert(path.contains(position) <==> position == from || rest.contains(position)) by {
                if rest.contains(position) {
                    let a = choose|a: int| 0 <= a < rest.len() && rest[a] == position;
                    assert(path[a + 1] == position);
                }
                if path.contains(position) && position != from {
                    let a = choose|a: int| 0 <= a < path.len() && path[a] == position;
                    assert(rest[a - 1] == position);
                }
            }
            assert forall|a: int, b: int| 0 <= a < b < path.len() implies #[trigger] path[a]
                > #[trigger] path[b] by {
                assert(path[b] == rest[b - 1]);
                if a > 0 {
                    assert(path[a] == rest[a - 1]);
                }
            }
            assert forall|a: int| 0 <= a < path.len() implies 0 <= #[trigger] path[a] <= from by {
                if a > 0 {
                    assert(path[a] == rest[a - 1]);
                }
            }
        }
    }
}

/// An item closes a cycle below an entry if that entry, or one above it that is less deep than all
/// that stand between them, bears the same URI and the same place of its name.
pub proof fn items_met_above_close_a_cycle<Id>(
    entries: Seq<EntryState<Id>>,
    index: int,
    above: int,
    item: CallHierarchyItem,
)
    requires
        0 <= above <= index < entries.len(),
        forall|k: int|
            above < k <= index ==> (#[trigger] entries[k]).depth > entries[above].depth,
        entries[above].item.uri@ == item.uri@,
        entries[above].item.selection_range == item.selection_range,
    ensures
        closes_cycle(entries, index, item),
{
    let path = ancestry(entries, index);
    ancestry_is_all_that_it_hangs_below(entries, index, above);
    let k = choose|k: int| 0 <= k < path.len() && path[k] == above;
    assert(entries[path[k]].item.same_symbol(item));
}

/// An item that closes a cycle below an entry is met above: there is an entry with the same URI
/// and the same place of its name, which is that entry or less deep than all that follow it up to
/// there.
pub proof fn cycles_close_at_an_item_above<Id>(
    entries: Seq<EntryState<Id>>,
    index: int,
    item: CallHierarchyItem,
) -> (above: int)
    requires
        0 <= index < entries.len(),
        closes_cycle(entries, index, item),
    ensures
        0 <= above <= index,
        forall|k: int|
            above < k <= index ==> (#[trigger] entries[k]).depth > entries[above].depth,
        entries[above].item.uri@ == item.uri@,
        entries[above].item.selection_range == item.selection_range,
{
    let path = ancestry(entries, index);
    let k = choose|k: int|
        0 <= k < path.len() && (#[trigger] entries[path[k]]).item.same_symbol(item);
    let above = path[k];
    assert(path.contains(above));
    ancestry_is_all_that_it_hangs_below(entries, index, above);
    ancestry_stands_above(entries, index);
    above
}

} // verus!

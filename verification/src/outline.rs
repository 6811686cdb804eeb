//! A tree shown as a flat list: each entry stands above its descendants, and its depth says how
//! far it is indented. Which entries are expanded and which one is selected is kept by position
//! in the list, and moves along when entries come and go.
use crate::protocol::{CallHierarchyItem, Range};
use std::collections::HashSet;
use vstd::prelude::*;

verus! {

/// One line of the list.
#[derive(Debug)]
pub struct FlatEntry<Id> {
    /// What the entry is known by while the list changes around it.
    pub entry_id: Id,
    pub item: CallHierarchyItem,
    /// Where the calls stand that link the entry to the one above it in the tree.
    pub from_ranges: Vec<Range>,
    pub depth: usize,
    pub has_children: bool,
    /// The entry's position in the list.
    pub node_index: usize,
}

/// What a line of the list holds.
#[verifier::ext_equal]
pub struct EntryState<Id> {
    pub entry_id: Id,
    pub item: CallHierarchyItem,
    pub from_ranges: Seq<Range>,
    pub depth: usize,
    pub has_children: bool,
    pub node_index: usize,
}

impl<Id> View for FlatEntry<Id> {
    type V = EntryState<Id>;

    open spec fn view(&self) -> EntryState<Id> {
        EntryState {
            entry_id: self.entry_id,
            item: self.item,
            from_ranges: self.from_ranges@,
            depth: self.depth,
            has_children: self.has_children,
            node_index: self.node_index,
        }
    }
}

/// What the lines of a list hold.
pub open spec fn states<Id>(entries: Seq<FlatEntry<Id>>) -> Seq<EntryState<Id>> {
    Seq::new(entries.len(), |i: int| entries[i]@)
}

/// The number of entries, from position `from` on, that are deeper than `depth`, up to the first
/// one that is not.
pub open spec fn deeper_run<Id>(entries: Seq<EntryState<Id>>, from: int, depth: int) -> nat
    decreases entries.len() - from,
{
    if 0 <= from < entries.len() && entries[from].depth > depth {
        1 + deeper_run(entries, from + 1, depth)
    } else {
        0
    }
}

/// Whether the entry at `index` is below the root, and at most one level deeper than the entry
/// above it.
pub open spec fn depth_follows<Id>(entries: Seq<EntryState<Id>>, index: int) -> bool {
    1 <= entries[index].depth <= entries[index - 1].depth + 1
}

/// Whether the entry at `parent` is the one that the entry at `index` hangs below: the nearest
/// entry above it that is less deep.
pub open spec fn is_parent<Id>(entries: Seq<EntryState<Id>>, parent: int, index: int) -> bool {
    &&& 0 <= parent < index < entries.len()
    &&& entries[parent].depth < entries[index].depth
    &&& forall|k: int| parent < k < index ==> (#[trigger] entries[k]).depth >= entries[index].depth
}

/// The position of the entry at `index`, then that of its parent, and so on up to an entry that
/// has none.
pub open spec fn ancestry<Id>(entries: Seq<EntryState<Id>>, index: int) -> Seq<int>
    decreases index,
{
    if exists|parent: int| is_parent(entries, parent, index) {
        let parent = choose|parent: int| is_parent(entries, parent, index);
        seq![index] + ancestry(entries, parent)
    } else {
        seq![index]
    }
}

/// Whether the entry at `index` hangs below the one at `above`, directly or not: all entries from
/// there to `index` are deeper.
pub open spec fn hangs_below<Id>(entries: Seq<EntryState<Id>>, above: int, index: int) -> bool {
    &&& 0 <= above < index < entries.len()
    &&& forall|k: int|
        above < k <= index ==> (#[trigger] entries[k]).depth > entries[above].depth
}

/// Whether the walk up from `index` names the entry at `position`: it is one that the entry at
/// `index` hangs below, or it is as deep as that entry and has `index` written into it.
pub open spec fn on_the_way_up<Id>(
    entries: Seq<EntryState<Id>>,
    index: int,
    position: int,
) -> bool {
    ||| hangs_below(entries, position, index)
    ||| entries[position].depth == entries[index].depth && entries[position].node_index == index
}

/// The positions, from `from` up to the top of the list, that the walk up from `index` names.
pub open spec fn way_up<Id>(entries: Seq<EntryState<Id>>, index: int, from: int) -> Seq<int>
    decreases from + 1,
{
    if from < 0 {
        Seq::empty()
    } else if on_the_way_up(entries, index, from) {
        seq![from] + way_up(entries, index, from - 1)
    } else {
        way_up(entries, index, from - 1)
    }
}

/// Whether `item` is the symbol of the entry at `index` or of one that it hangs below.
pub open spec fn closes_cycle<Id>(
    entries: Seq<EntryState<Id>>,
    index: int,
    item: CallHierarchyItem,
) -> bool {
    exists|k: int|
        0 <= k < ancestry(entries, index).len() && (#[trigger] entries[ancestry(
            entries,
            index,
        )[k]]).item.same_symbol(item)
}

/// Where the positions in `positions` have moved to once the `count` positions from `start` on
/// are taken out. The positions taken out are dropped.
pub open spec fn positions_after_remove(
    positions: Set<usize>,
    start: int,
    count: int,
) -> Set<usize> {
    Set::new(
        |i: usize|
            if i < start {
                positions.contains(i)
            } else {
                i + count <= usize::MAX && positions.contains((i + count) as usize)
            },
    )
}

/// Where the positions in `positions` have moved to once `count` new ones are put in at `at`.
pub open spec fn positions_after_insert(positions: Set<usize>, at: int, count: int) -> Set<usize> {
    Set::new(
        |i: usize|
            if i < at {
                positions.contains(i)
            } else {
                i >= at + count && positions.contains((i - count) as usize)
            },
    )
}

/// The selected position once the `count` positions from `start` on are taken out and `left`
/// remain. A selection among those taken out falls back to `fallback`, or to the last position if
/// that lies beyond it.
pub open spec fn selection_after_remove(
    selected: Option<usize>,
    start: int,
    count: int,
    fallback: int,
    left: int,
) -> Option<usize> {
    match selected {
        None => None,
        Some(s) => if s < start {
            Some(s)
        } else if s < start + count {
            if left == 0 {
                None
            } else if fallback < left {
                Some(fallback as usize)
            } else {
                Some((left - 1) as usize)
            }
        } else {
            Some((s - count) as usize)
        },
    }
}

/// The selected position once `count` new ones are put in at `at`.
pub open spec fn selection_after_insert(selected: Option<usize>, at: int, count: int) -> Option<
    usize,
> {
    match selected {
        None => None,
        Some(s) => if s < at {
            Some(s)
        } else {
            Some((s + count) as usize)
        },
    }
}

/// The entries, each with its own position written into it.
pub open spec fn reindexed<Id>(entries: Seq<EntryState<Id>>) -> Seq<EntryState<Id>> {
    Seq::new(
        entries.len(),
        |i: int| EntryState { node_index: i as usize, ..entries[i] },
    )
}

/// The state of an outline.
#[verifier::ext_equal]
pub struct OutlineState<Id> {
    pub entries: Seq<EntryState<Id>>,
    pub expanded: Set<usize>,
    pub selected: Option<usize>,
}

impl<Id> OutlineState<Id> {
    /// The depth of the entry at `index`, and 0 where there is none.
    pub open spec fn depth_at(self, index: int) -> int {
        if 0 <= index < self.entries.len() {
            self.entries[index].depth as int
        } else {
            0
        }
    }

    /// How many entries are listed below the one at `index` as its descendants.
    pub open spec fn descendant_count(self, index: int) -> nat {
        deeper_run(self.entries, index + 1, self.depth_at(index))
    }

    /// Whether the entries form a tree with one root: each knows its position, the first is the
    /// only one at depth 0, and none is more than one level deeper than the one above it.
    pub open spec fn is_tree(self) -> bool {
        &&& forall|i: int|
            0 <= i < self.entries.len() ==> (#[trigger] self.entries[i]).node_index == i
        &&& self.entries.len() > 0 ==> self.entries[0].depth == 0
        &&& forall|i: int|
            0 < i < self.entries.len() ==> #[trigger] depth_follows(self.entries, i)
    }

    /// Whether something is selected just if there is an entry, and what is selected is one.
    pub open spec fn selection_in_range(self) -> bool {
        match self.selected {
            None => self.entries.len() == 0,
            Some(s) => s < self.entries.len(),
        }
    }

    /// Whether only entries of the list are expanded.
    pub open spec fn expanded_in_range(self) -> bool {
        forall|i: usize| #[trigger] self.expanded.contains(i) ==> i < self.entries.len()
    }

    /// Whether every entry that has descendants listed below it is expanded.
    pub open spec fn collapsed_hide_descendants(self) -> bool {
        forall|i: int|
            0 <= i < self.entries.len() && #[trigger] self.descendant_count(i) > 0
                ==> self.expanded.contains(i as usize)
    }

    /// The outline without the `count` entries from `start` on.
    pub open spec fn without_range(self, start: int, count: int, fallback: int) -> Self {
        if count == 0 {
            self
        } else {
            let entries = self.entries.take(start) + self.entries.skip(start + count);
            OutlineState {
                entries,
                expanded: positions_after_remove(self.expanded, start, count),
                selected: selection_after_remove(
                    self.selected,
                    start,
                    count,
                    fallback,
                    entries.len() as int,
                ),
            }
        }
    }

    /// The outline with the expanded and the selected positions moved to make room for `count`
    /// entries at `at`.
    pub open spec fn with_room(self, at: int, count: int) -> Self {
        OutlineState {
            expanded: positions_after_insert(self.expanded, at, count),
            selected: selection_after_insert(self.selected, at, count),
            ..self
        }
    }

    /// The outline with `added` put in at `at`.
    pub open spec fn with_inserted(self, at: int, added: Seq<EntryState<Id>>) -> Self {
        OutlineState {
            entries: self.entries.take(at) + added + self.entries.skip(at),
            ..self.with_room(at, added.len() as int)
        }
    }

    pub open spec fn with_reindexed(self) -> Self {
        OutlineState { entries: reindexed(self.entries), ..self }
    }

    /// Whether the positions from `at` on can be moved by `count`.
    pub open spec fn has_room(self, at: int, count: int) -> bool {
        &&& forall|i: usize| #[trigger]
            self.expanded.contains(i) && i >= at ==> i + count <= usize::MAX
        &&& self.selected is Some && self.selected->0 >= at ==> self.selected->0 + count
            <= usize::MAX
    }

    /// The outline after the entry at `index` is selected. Nothing is selected where there is no
    /// such entry.
    pub open spec fn with_selected(self, index: int) -> Self {
        if index < self.entries.len() {
            OutlineState { selected: Some(index as usize), ..self }
        } else {
            self
        }
    }

    /// The position to select next: the one after the selected one, as far as there is one, and
    /// the first where nothing is selected.
    pub open spec fn next_index(self) -> int {
        match self.selected {
            None => 0,
            Some(i) => if i + 1 < self.entries.len() {
                i + 1
            } else if self.entries.len() == 0 {
                0
            } else {
                self.entries.len() - 1
            },
        }
    }

    /// The position to select before: the one before the selected one, and the first where
    /// nothing is selected or the selection is there already.
    pub open spec fn previous_index(self) -> int {
        match self.selected {
            None => 0,
            Some(i) => if i == 0 {
                0
            } else {
                i - 1
            },
        }
    }

    /// The outline without the descendants of the entry at `index`.
    pub open spec fn without_descendants(self, index: int) -> Self {
        self.without_range(index + 1, self.descendant_count(index) as int, index)
    }

    /// Whether `count` children can be put in the place of the descendants of the entry at
    /// `parent_index`: what is marked beyond the end of the list can move along.
    pub open spec fn can_replace_children(self, parent_index: int, count: int) -> bool {
        &&& forall|i: usize| #[trigger]
            self.expanded.contains(i) && i >= self.entries.len() ==> i - self.descendant_count(
                parent_index,
            ) + count <= usize::MAX
        &&& self.selected is Some && self.selected->0 >= self.entries.len() ==> self.selected->0
            - self.descendant_count(parent_index) + count <= usize::MAX
    }

    /// The outline after the entry at `index` turned out to have nothing to list below it.
    pub open spec fn with_childless(self, index: int) -> Self {
        OutlineState {
            entries: self.entries.update(
                index,
                EntryState { has_children: false, ..self.entries[index] },
            ),
            expanded: self.expanded.remove(index as usize),
            ..self
        }
    }

    /// The outline after the entry at `index` is collapsed: it is expanded no more, and its
    /// descendants are gone.
    pub open spec fn collapsed(self, index: int) -> Self {
        (OutlineState {
            expanded: self.expanded.remove(index as usize),
            ..self
        }).without_descendants(index).with_reindexed()
    }

    /// The outline with `children` as the only descendants of the entry at `parent_index`.
    pub open spec fn with_children(self, parent_index: int, children: Seq<EntryState<Id>>) -> Self {
        self.without_descendants(parent_index).with_inserted(
            parent_index + 1,
            children,
        ).with_reindexed()
    }
}

/// The positions among the first `count` of `walked`.
spec fn walked_set(walked: Seq<&usize>, count: int) -> Set<usize> {
    walked.take(count).unref().to_set()
}

proof fn lemma_walked_step(walked: Seq<&usize>, count: int)
    requires
        0 <= count < walked.len(),
    ensures
        walked_set(walked, count + 1) == walked_set(walked, count).insert(*walked[count]),
{
    let shorter = walked.take(count).unref();
    let longer = walked.take(count + 1).unref();
    assert(longer =~= shorter.push(*walked[count]));
    assert forall|p: usize| longer.contains(p) implies shorter.contains(p) || p
        == *walked[count] by {
        let k = choose|k: int| 0 <= k < longer.len() && longer[k] == p;
        if k < shorter.len() {
            assert(shorter[k] == p);
        }
    }
    assert forall|p: usize| shorter.contains(p) || p == *walked[count] implies longer.contains(
        p,
    ) by {
        if shorter.contains(p) {
            let k = choose|k: int| 0 <= k < shorter.len() && shorter[k] == p;
            assert(longer[k] == p);
        } else {
            assert(longer[count] == p);
        }
    }
    assert(longer.to_set() =~= shorter.to_set().insert(*walked[count]));
}

/// Moves positions to where they are once the `count` positions from `start` on are taken out.
fn move_for_remove(positions: &HashSet<usize>, start: usize, count: usize) -> (moved: HashSet<
    usize,
>)
    requires
        start + count <= usize::MAX,
    ensures
        moved@ == positions_after_remove(positions@, start as int, count as int),
{
    let end: usize = start + count;
    let mut moved: HashSet<usize> = HashSet::new();
    for position in iter: positions.iter()
        invariant
            end == start + count,
            iter.seq().unref().to_set() == positions@,
            iter.seq().take(iter.seq().len() as int) == iter.seq(),
            moved@ == positions_after_remove(
                walked_set(iter.seq(), iter.index() as int),
                start as int,
                count as int,
            ),
    {
        proof {
            lemma_walked_step(iter.seq(), iter.index() as int);
        }
        let from: usize = *position;
        if from < start {
            moved.insert(from);
        } else if from >= end {
            moved.insert(from - count);
        }
    }
    moved
}

/// Whether the positions from `from` on go no further than `last`.
spec fn reach_no_further(positions: Set<usize>, from: usize, last: usize) -> bool {
    forall|i: usize| #[trigger] positions.contains(i) && i >= from ==> i <= last
}

fn none_beyond(positions: &HashSet<usize>, from: usize, last: usize) -> (none: bool)
    ensures
        none == reach_no_further(positions@, from, last),
{
    let mut none: bool = true;
    for position in iter: positions.iter()
        invariant
            iter.seq().unref().to_set() == positions@,
            iter.seq().take(iter.seq().len() as int) == iter.seq(),
            none == reach_no_further(walked_set(iter.seq(), iter.index() as int), from, last),
    {
        let at: usize = *position;
        let ghost earlier = walked_set(iter.seq(), iter.index() as int);
        proof {
            lemma_walked_step(iter.seq(), iter.index() as int);
            assert(earlier.insert(at).contains(at));
            assert forall|i: usize| #[trigger] earlier.contains(i) implies earlier.insert(
                at,
            ).contains(i) by {
            }
        }
        if at >= from && at > last {
            none = false;
        }
    }
    none
}

/// Moves positions to where they are once `count` new ones are put in at `at`.
fn move_for_insert(positions: &HashSet<usize>, at: usize, count: usize) -> (moved: HashSet<usize>)
    requires
        forall|i: usize| #[trigger]
            positions@.contains(i) && i >= at ==> i + count <= usize::MAX,
    ensures
        moved@ == positions_after_insert(positions@, at as int, count as int),
{
    let mut moved: HashSet<usize> = HashSet::new();
    for position in iter: positions.iter()
        invariant
            forall|i: usize| #[trigger]
                positions@.contains(i) && i >= at ==> i + count <= usize::MAX,
            iter.seq().unref().to_set() == positions@,
            iter.seq().take(iter.seq().len() as int) == iter.seq(),
            moved@ == positions_after_insert(
                walked_set(iter.seq(), iter.index() as int),
                at as int,
                count as int,
            ),
    {
        let from: usize = *position;
        proof {
            lemma_walked_step(iter.seq(), iter.index() as int);
            assert(iter.seq().unref()[iter.index() as int] == from);
            assert(positions@.contains(from));
        }
        if from < at {
            moved.insert(from);
        } else {
            moved.insert(from + count);
        }
    }
    moved
}

/// A tree shown as a flat list.
#[derive(Debug)]
pub struct Outline<Id> {
    flat_entries: Vec<FlatEntry<Id>>,
    expanded: HashSet<usize>,
    selected_index: Option<usize>,
}

impl<Id> View for Outline<Id> {
    type V = OutlineState<Id>;

    closed spec fn view(&self) -> OutlineState<Id> {
        OutlineState {
            entries: states(self.flat_entries@),
            expanded: self.expanded@,
            selected: self.selected_index,
        }
    }
}

impl<Id> Outline<Id> {
    /// An outline with nothing in it.
    pub fn new() -> (outline: Self)
        ensures
            outline@ == (OutlineState::<Id> {
                entries: Seq::empty(),
                expanded: Set::empty(),
                selected: None,
            }),
    {
        Outline { flat_entries: Vec::new(), expanded: HashSet::new(), selected_index: None }
    }

    /// Writes its own position into each entry.
    pub fn reindex_entries(&mut self)
        ensures
            final(self)@ == old(self)@.with_reindexed(),
    {
        let mut index: usize = 0;
        while index < self.flat_entries.len()
            invariant
                index <= self.flat_entries.len(),
                self.flat_entries.len() == old(self).flat_entries.len(),
                self.expanded == old(self).expanded,
                self.selected_index == old(self).selected_index,
                forall|i: int|
                    0 <= i < index ==> (#[trigger] self.flat_entries@[i])@ == (EntryState {
                        node_index: i as usize,
                        ..old(self).flat_entries@[i]@
                    }),
                forall|i: int|
                    index <= i < self.flat_entries.len() ==> #[trigger] self.flat_entries@[i]
                        == old(self).flat_entries@[i],
            decreases self.flat_entries.len() - index,
        {
            self.flat_entries[index].node_index = index;
            index = index + 1;
        }
        assert(self@.entries =~= reindexed(old(self)@.entries));
    }

    /// How many entries are listed below the one at `parent_index` as its descendants.
    pub fn count_visible_descendants(&self, parent_index: usize) -> (count: usize)
        requires
            parent_index < usize::MAX,
        ensures
            count == self@.descendant_count(parent_index as int),
            count > 0 ==> parent_index + 1 + count <= self@.entries.len(),
    {
        let len: usize = self.flat_entries.len();
        let parent_depth: usize = if parent_index < len {
            self.flat_entries[parent_index].depth
        } else {
            0
        };
        let start: usize = parent_index + 1;
        let mut end: usize = start;
        while end < len && self.flat_entries[end].depth > parent_depth
            invariant
                start <= end,
                end > start ==> end <= len,
                len == self.flat_entries.len(),
                deeper_run(self@.entries, start as int, parent_depth as int) == end - start
                    + deeper_run(self@.entries, end as int, parent_depth as int),
            decreases len - end,
        {
            end = end + 1;
        }
        end - start
    }

    /// Takes out the `remove_count` entries from `remove_start` on.
    pub fn remove_entry_range(
        &mut self,
        remove_start: usize,
        remove_count: usize,
        fallback_selected_index: usize,
    )
        requires
            remove_count > 0 ==> remove_start + remove_count <= old(self)@.entries.len(),
        ensures
            final(self)@ == old(self)@.without_range(
                remove_start as int,
                remove_count as int,
                fallback_selected_index as int,
            ),
    {
        if remove_count == 0 {
            return;
        }
        let len: usize = self.flat_entries.len();
        assert(remove_start + remove_count <= len);
        let remove_end: usize = remove_start + remove_count;
        let mut tail = self.flat_entries.split_off(remove_start);
        let mut kept = tail.split_off(remove_count);
        self.flat_entries.append(&mut kept);
        assert(self@.entries =~= old(self)@.entries.take(remove_start as int)
            + old(self)@.entries.skip(remove_end as int));

        self.expanded = move_for_remove(&self.expanded, remove_start, remove_count);

        self.selected_index = match self.selected_index {
            None => None,
            Some(selected_index) => if selected_index < remove_start {
                Some(selected_index)
            } else if selected_index < remove_end {
                let left: usize = self.flat_entries.len();
                if left == 0 {
                    None
                } else if fallback_selected_index < left {
                    Some(fallback_selected_index)
                } else {
                    Some(left - 1)
                }
            } else {
                Some(selected_index - remove_count)
            },
        };
    }

    /// Moves the expanded and the selected positions to make room for `inserted_count` entries at
    /// `insert_at`.
    pub fn remap_indices_for_insert(&mut self, insert_at: usize, inserted_count: usize)
        requires
            old(self)@.has_room(insert_at as int, inserted_count as int),
        ensures
            final(self)@ == old(self)@.with_room(insert_at as int, inserted_count as int),
    {
        if inserted_count == 0 {
            assert(positions_after_insert(self@.expanded, insert_at as int, 0) =~= self@.expanded);
            return;
        }
        self.expanded = move_for_insert(&self.expanded, insert_at, inserted_count);
        self.selected_index = match self.selected_index {
            None => None,
            Some(selected_index) => if selected_index >= insert_at {
                Some(selected_index + inserted_count)
            } else {
                Some(selected_index)
            },
        };
    }

    /// Puts `children` below the entry at `parent_index`, in the place of whatever was listed
    /// below it.
    pub fn replace_children(&mut self, parent_index: usize, children: Vec<FlatEntry<Id>>)
        requires
            parent_index < old(self)@.entries.len(),
            old(self)@.can_replace_children(parent_index as int, children@.len() as int),
        ensures
            final(self)@ == old(self)@.with_children(parent_index as int, states(children@)),
    {
        let mut children = children;
        let ghost added = states(children@);
        assert(parent_index < self.flat_entries.len());
        let insert_at: usize = parent_index + 1;
        let old_child_count: usize = self.count_visible_descendants(parent_index);
        self.remove_entry_range(insert_at, old_child_count, parent_index);
        let ghost bare = self@;
        assert(bare == old(self)@.without_descendants(parent_index as int));

        let inserted_count: usize = children.len();
        let mut tail = self.flat_entries.split_off(insert_at);
        self.flat_entries.append(&mut children);
        self.flat_entries.append(&mut tail);
        assert(self@.entries =~= bare.entries.take(insert_at as int) + added + bare.entries.skip(
            insert_at as int,
        ));
        assert(self.flat_entries.len() == bare.entries.len() + inserted_count);

        self.remap_indices_for_insert(insert_at, inserted_count);
        self.reindex_entries();
    }

    /// Whether `count` children can be put below the entry at `parent_index`: there is such an
    /// entry, and no position marked beyond the end of the list would be moved out of reach.
    pub fn takes_children(&self, parent_index: usize, count: usize) -> (takes: bool)
        ensures
            takes == (parent_index < self@.entries.len() && self@.can_replace_children(
                parent_index as int,
                count as int,
            )),
    {
        let len: usize = self.flat_entries.len();
        if parent_index >= len {
            return false;
        }
        let gone: usize = self.count_visible_descendants(parent_index);
        let unmoved: usize = usize::MAX - count;
        if let Some(selected) = self.selected_index {
            if selected >= len && selected - gone > unmoved {
                return false;
            }
        }
        if unmoved > usize::MAX - gone {
            return true;
        }
        let takes: bool = none_beyond(&self.expanded, len, unmoved + gone);
        proof {
            let p = parent_index as int;
            if takes {
                assert(forall|i: usize| #[trigger]
                    self@.expanded.contains(i) && i >= len ==> i <= unmoved + gone);
                assert(self@.can_replace_children(p, count as int));
            } else {
                let i = choose|i: usize| #[trigger]
                    self.expanded@.contains(i) && i >= len && i > unmoved + gone;
                assert(self@.expanded.contains(i));
                assert(i - self@.descendant_count(p) + count > usize::MAX);
            }
        }
        takes
    }

    /// Collapses the entry at `index`: takes it out of the expanded ones, and its descendants out
    /// of the list.
    pub fn collapse(&mut self, index: usize)
        requires
            index < usize::MAX,
        ensures
            final(self)@ == old(self)@.collapsed(index as int),
    {
        self.expanded.remove(&index);
        let count: usize = self.count_visible_descendants(index);
        let remove_start: usize = index + 1;
        self.remove_entry_range(remove_start, count, index);
        self.reindex_entries();
    }

    /// Notes that the entry at `index` is expanded.
    pub fn expand(&mut self, index: usize)
        ensures
            final(self)@ == (OutlineState {
                expanded: old(self)@.expanded.insert(index),
                ..old(self)@
            }),
    {
        self.expanded.insert(index);
    }

    /// Notes that the entry at `index` has nothing to list below it.
    pub fn mark_childless(&mut self, index: usize)
        requires
            index < old(self)@.entries.len(),
        ensures
            final(self)@ == old(self)@.with_childless(index as int),
    {
        self.flat_entries[index].has_children = false;
        self.expanded.remove(&index);
        assert(self@.entries =~= old(self)@.with_childless(index as int).entries);
    }

    /// Makes `root` the only entry, expanded and selected.
    pub fn show_root(&mut self, root: FlatEntry<Id>)
        ensures
            final(self)@ == (OutlineState {
                entries: seq![root@],
                expanded: set![0usize],
                selected: Some(0usize),
            }),
    {
        let mut flat_entries: Vec<FlatEntry<Id>> = Vec::new();
        flat_entries.push(root);
        self.expanded.clear();
        self.expanded.insert(0);
        self.selected_index = Some(0);
        self.flat_entries = flat_entries;
        assert(self@.entries =~= seq![root@]);
        assert(self@.expanded =~= set![0usize]);
    }

    /// Takes everything out.
    pub fn clear(&mut self)
        ensures
            final(self)@ == (OutlineState::<Id> {
                entries: Seq::empty(),
                expanded: Set::empty(),
                selected: None,
            }),
    {
        self.flat_entries.clear();
        self.expanded.clear();
        self.selected_index = None;
    }

    /// Selects the entry at `index`, if there is one.
    pub fn select_entry(&mut self, index: usize) -> (moved: bool)
        ensures
            final(self)@ == old(self)@.with_selected(index as int),
            moved == (index < old(self)@.entries.len()),
    {
        if index < self.flat_entries.len() {
            self.selected_index = Some(index);
            true
        } else {
            false
        }
    }

    /// Selects the entry after the selected one, and returns its position.
    pub fn select_next(&mut self) -> (selected: Option<usize>)
        requires
            old(self)@.selected matches Some(i) ==> i < usize::MAX,
        ensures
            final(self)@ == old(self)@.with_selected(old(self)@.next_index()),
            selected == (if old(self)@.next_index() < old(self)@.entries.len() {
                Some(old(self)@.next_index() as usize)
            } else {
                None
            }),
    {
        let last: usize = self.flat_entries.len().saturating_sub(1);
        let next: usize = match self.selected_index {
            None => 0,
            Some(i) => if i + 1 < last {
                i + 1
            } else {
                last
            },
        };
        if self.select_entry(next) {
            Some(next)
        } else {
            None
        }
    }

    /// Selects the entry before the selected one, and returns its position.
    pub fn select_previous(&mut self) -> (selected: Option<usize>)
        ensures
            final(self)@ == old(self)@.with_selected(old(self)@.previous_index()),
            selected == (if old(self)@.previous_index() < old(self)@.entries.len() {
                Some(old(self)@.previous_index() as usize)
            } else {
                None
            }),
    {
        let previous: usize = match self.selected_index {
            None => 0,
            Some(i) => i.saturating_sub(1),
        };
        if self.select_entry(previous) {
            Some(previous)
        } else {
            None
        }
    }

    /// The symbols that the walk up from `index` names: that of the entry at `index`, where its own
    /// position is written into it, then that of its parent, and so on up to the root. An entry
    /// above that is as deep and has `index` written into it is named too.
    pub fn ancestor_items(&self, index: usize) -> (items: Vec<&CallHierarchyItem>)
        requires
            index < self@.entries.len(),
        ensures
            items@.len() == way_up(self@.entries, index as int, index as int).len(),
            forall|k: int|
                0 <= k < items@.len() ==> *(#[trigger] items@[k]) == self@.entries[way_up(
                    self@.entries,
                    index as int,
                    index as int,
                )[k]].item,
    {
        let ghost entries = self@.entries;
        let ghost i = index as int;
        let ghost mut found: Seq<int> = Seq::empty();
        let ghost mut lowest: int = i;
        let mut items: Vec<&CallHierarchyItem> = Vec::new();
        assert(index < self.flat_entries.len());
        let target_depth: usize = self.flat_entries[index].depth;
        let mut current_depth: usize = target_depth;
        let mut position: usize = index + 1;
        assert(found + way_up(entries, i, i) =~= way_up(entries, i, i));
        while position > 0
            invariant
                entries == states(self.flat_entries@),
                i == index,
                position <= index + 1,
                index < entries.len(),
                target_depth == entries[i].depth,
                0 <= lowest <= i,
                position <= index ==> position <= lowest,
                current_depth == entries[lowest].depth,
                position == index + 1 ==> lowest == i,
                forall|k: int|
                    position <= k <= i ==> (#[trigger] entries[k]).depth >= current_depth,
                way_up(entries, i, i) == found + way_up(entries, i, position - 1),
                items@.len() == found.len(),
                forall|k: int|
                    0 <= k < found.len() ==> *(#[trigger] items@[k]) == entries[found[k]].item,
            decreases position,
        {
            let ghost passed = found;
            position = position - 1;
            let ghost p = position as int;
            let entry = &self.flat_entries[position];
            assert(entry@ == entries[p]);
            assert(hangs_below(entries, p, i) <==> entry.depth < current_depth) by {
                if p < i {
                    assert(entries[lowest].depth == current_depth);
                }
            }
            if entry.depth < current_depth {
                current_depth = entry.depth;
                items.push(&entry.item);
                proof {
                    lowest = p;
                    found = found.push(p);
                }
            } else if entry.depth == target_depth && entry.node_index == index {
                items.push(&entry.item);
                proof {
                    found = found.push(p);
                }
            }
            assert(passed + way_up(entries, i, p) =~= found + way_up(entries, i, p - 1));
        }
        assert(found + way_up(entries, i, -1) =~= found);
        items
    }

    /// Whether the entry at `index` is expanded.
    pub fn is_expanded(&self, index: usize) -> (expanded: bool)
        ensures
            expanded == self@.expanded.contains(index),
    {
        self.expanded.contains(&index)
    }

    /// The position of the selected entry.
    pub fn selected_index(&self) -> (selected: Option<usize>)
        ensures
            selected == self@.selected,
    {
        self.selected_index
    }

    /// The number of entries listed.
    pub fn len(&self) -> (len: usize)
        ensures
            len == self@.entries.len(),
    {
        self.flat_entries.len()
    }

    /// The entry at `index`.
    pub fn entry(&self, index: usize) -> (entry: Option<&FlatEntry<Id>>)
        ensures
            entry is Some <==> index < self@.entries.len(),
            entry matches Some(e) ==> e@ == self@.entries[index as int],
    {
        if index < self.flat_entries.len() {
            Some(&self.flat_entries[index])
        } else {
            None
        }
    }
}

/// The parent of an entry, where it has one, comes next in its ancestry.
pub proof fn parent_comes_next<Id>(entries: Seq<EntryState<Id>>, parent: int, index: int)
    requires
        is_parent(entries, parent, index),
    ensures
        ancestry(entries, index) == seq![index] + ancestry(entries, parent),
{
    let chosen = choose|p: int| is_parent(entries, p, index);
    assert(is_parent(entries, chosen, index));
    assert(chosen == parent) by {
        if chosen < parent {
            assert(entries[parent].depth >= entries[index].depth);
        } else if parent < chosen {
            assert(entries[chosen].depth >= entries[index].depth);
        }
    }
}

/// The length of a list in memory fits in a `usize`.
pub proof fn len_fits<Id>(outline: &Outline<Id>)
    ensures
        outline@.entries.len() <= usize::MAX,
{
    vstd::std_specs::vec::axiom_spec_len(&outline.flat_entries);
}

} // verus!

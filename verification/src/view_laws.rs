//! What holds of the view from one step to the next.
use crate::call_hierarchy_view::{
    answer_keeps_well_formed, first_with_id_is_unique, id_after, index_of_id, is_first_with_id,
    placement, Toggled, ViewState,
};
use crate::navigation::EntityId;
use crate::outline::{ancestry, closes_cycle, EntryState, OutlineState};
use crate::outline_laws::{
    ancestry_stands_above, child_hangs_below_parent, childless_keeps_collapsed_hidden,
    children_are_the_descendants, children_entries, children_keep_collapsed_hidden,
    children_layout, children_take_the_place_of_descendants, collapse_is_no_children,
    collapse_keeps_collapsed_hidden, collapse_undoes_children, collapsing_keeps_other_marks,
    collapsing_takes_out_the_descendants, cycles_close_at_an_item_above, depth_is_bounded,
    entries_keep_their_marks, expanded_positions_follow_their_entries,
    items_met_above_close_a_cycle, last_children_count, position_after_children,
    selection_follows_its_entry,
};
use crate::protocol::{CallDirection, CallHierarchyItem, Range};
use crate::uri::file_path_of_uri;
use vstd::prelude::*;

verus! {

/// Each entry is found by its number, unless that is the greatest there is, and an entry further
/// up bears it too.
pub proof fn entry_is_found_by_its_id(state: ViewState, index: int)
    requires
        state.well_formed(),
        0 <= index < state.outline.entries.len(),
    ensures
        ({
            let id = state.outline.entries[index].entry_id;
            &&& id < usize::MAX ==> is_first_with_id(state.outline.entries, id, index)
            &&& is_first_with_id(state.outline.entries, id, index) <==> index_of_id(
                state.outline.entries,
                id,
            ) == Some(index)
        }),
{
    let entries = state.outline.entries;
    let id = entries[index].entry_id;
    if is_first_with_id(entries, id, index) {
        lemma_first_is_found(entries, id, index);
    }
}

proof fn lemma_first_is_found(entries: Seq<EntryState<usize>>, id: usize, index: int)
    requires
        is_first_with_id(entries, id, index),
    ensures
        index_of_id(entries, id) == Some(index),
{
    let found = choose|i: int| is_first_with_id(entries, id, i);
    first_with_id_is_unique(entries, id, index, found);
}

/// An answer about an entry that bears no number in the list changes nothing.
pub proof fn answers_about_unlisted_entries_are_dropped(
    state: ViewState,
    id: usize,
    children: Seq<(CallHierarchyItem, Vec<Range>)>,
)
    requires
        forall|i: int|
            0 <= i < state.outline.entries.len() ==> (
            #[trigger] state.outline.entries[i]).entry_id != id,
    ensures
        state.with_answer(id, children) == state,
{
}

/// After a new root is set, an answer to a request sent before changes nothing, unless it is about
/// the greatest number there is, which the new root bears too.
pub proof fn answers_die_with_their_root(
    state: ViewState,
    item: CallHierarchyItem,
    buffer: EntityId,
    direction: CallDirection,
    load: int,
    children: Seq<(CallHierarchyItem, Vec<Range>)>,
)
    requires
        state.well_formed(),
        0 <= load < state.pending_loads.len(),
        state.pending_loads[load] < usize::MAX,
    ensures
        state.with_root(item, buffer, direction).with_answer(state.pending_loads[load], children)
            == state.with_root(item, buffer, direction),
{
    assert(state.is_given_out(state.pending_loads[load]));
    answers_about_unlisted_entries_are_dropped(
        state.with_root(item, buffer, direction),
        state.pending_loads[load],
        children,
    );
}

/// After the results are cleared, no answer changes anything.
pub proof fn answers_after_clearing_are_dropped(
    state: ViewState,
    id: usize,
    children: Seq<(CallHierarchyItem, Vec<Range>)>,
)
    ensures
        state.cleared().with_answer(id, children) == state.cleared(),
{
}

/// An answer about an entry that has been collapsed since changes nothing, unless the entry bears
/// the greatest number there is, and one further up that is expanded bears it too.
pub proof fn answers_about_collapsed_entries_are_dropped(
    state: ViewState,
    index: int,
    children: Seq<(CallHierarchyItem, Vec<Range>)>,
)
    requires
        state.well_formed(),
        0 <= index < state.outline.entries.len() <= usize::MAX,
        state.outline.expanded.contains(index as usize),
        state.outline.entries[index].entry_id < usize::MAX || state.awaiting_index(
            state.outline.entries[index].entry_id,
        ) is None || state.awaiting_index(state.outline.entries[index].entry_id) == Some(index),
    ensures
        state.toggled(index).with_answer(state.outline.entries[index].entry_id, children)
            == state.toggled(index),
{
    let entries = state.outline.entries;
    let after = state.toggled(index).outline;
    let id = entries[index].entry_id;
    lemma_collapse_keeps_what_is_above(state.outline, index);
    lemma_first_exists(entries, id, index);
    let found = choose|i: int| is_first_with_id(entries, id, i);
    assert(found <= index);
    entry_is_found_by_its_id(state, index);
    assert forall|i: int| 0 <= i < found implies (#[trigger] after.entries[i]).entry_id != id by {
        assert(entries[i].entry_id != id);
    }
    lemma_first_is_found(after.entries, id, found);
}

/// An entry with a number in the list means that there is a first one with it.
proof fn lemma_first_exists(entries: Seq<EntryState<usize>>, id: usize, index: int)
    requires
        0 <= index < entries.len(),
        entries[index].entry_id == id,
    ensures
        exists|i: int| is_first_with_id(entries, id, i),
    decreases index,
{
    if exists|i: int| 0 <= i < index && entries[i].entry_id == id {
        let i = choose|i: int| 0 <= i < index && entries[i].entry_id == id;
        lemma_first_exists(entries, id, i);
    } else {
        assert(is_first_with_id(entries, id, index));
    }
}

/// The entry that is collapsed and those above it stay where they are, and all but that entry
/// stay expanded if they were.
proof fn lemma_collapse_keeps_what_is_above(outline: OutlineState<usize>, index: int)
    requires
        outline.expanded_in_range(),
        0 <= index < outline.entries.len() <= usize::MAX,
    ensures
        index < outline.collapsed(index).entries.len() <= usize::MAX,
        forall|i: int|
            0 <= i <= index ==> (#[trigger] outline.collapsed(index).entries[i]).entry_id
                == outline.entries[i].entry_id,
        forall|i: int|
            0 <= i <= index ==> #[trigger] outline.collapsed(index).expanded.contains(i as usize)
                == (i != index && outline.expanded.contains(i as usize)),
{
    let folded = OutlineState { expanded: outline.expanded.remove(index as usize), ..outline };
    collapse_is_no_children(outline, index);
    children_entries(folded, index, Seq::empty());
    children_layout(folded, index, Seq::empty());
}

/// Numbers given out one after the other rise until the greatest there is, which is then given
/// out every time. Giving out `a` numbers and then `b` is giving out `a + b`.
pub proof fn numbers_rise_to_the_greatest(id: usize, a: int, b: int)
    requires
        0 <= a,
        0 <= b,
    ensures
        id_after(id, 0) == id,
        id_after(id, 1) == (if id < usize::MAX {
            id + 1
        } else {
            usize::MAX as int
        }),
        id_after(id_after(id, a), b) == id_after(id, a + b),
        a < b && id_after(id, a) < usize::MAX ==> id_after(id, a) < id_after(id, b),
        id_after(usize::MAX, a) == usize::MAX,
{
}

/// The entries that an answer brings in get numbers that rise until the greatest there is, and
/// differ from each other as long as there are numbers left for all of them. They differ from
/// those of all entries that were listed before, but for entries that bear the greatest number.
pub proof fn new_entries_get_new_ids(
    state: ViewState,
    id: usize,
    children: Seq<(CallHierarchyItem, Vec<Range>)>,
)
    requires
        state.well_formed(),
    ensures
        forall|k: int, l: int|
            0 <= k < l < state.answer_ids(id, children).len() && (
            #[trigger] state.answer_ids(id, children)[k]) < usize::MAX ==> state.answer_ids(
                id,
                children,
            )[k] < #[trigger] state.answer_ids(id, children)[l],
        state.next_entry_id + children.len() <= usize::MAX + 1 ==> state.answer_ids(
            id,
            children,
        ).no_duplicates(),
        forall|k: int, i: int|
            0 <= k < state.answer_ids(id, children).len() && 0 <= i < state.outline.entries.len()
                && (#[trigger] state.outline.entries[i]).entry_id < usize::MAX
                ==> #[trigger] state.answer_ids(id, children)[k]
                != state.outline.entries[i].entry_id,
{
    let ids = state.answer_ids(id, children);
    assert forall|k: int, i: int|
        0 <= k < ids.len() && 0 <= i < state.outline.entries.len() && (
        #[trigger] state.outline.entries[i]).entry_id < usize::MAX implies #[trigger] ids[k]
        != state.outline.entries[i].entry_id by {
        assert(state.is_given_out(state.outline.entries[i].entry_id));
    }
}

/// Toggling an entry that is collapsed, with nothing listed below it, and then toggling it again
/// leaves only the note that its calls were asked for.
pub proof fn toggling_twice_changes_nothing_listed(state: ViewState, index: int)
    requires
        state.well_formed(),
        0 <= index < state.outline.entries.len() <= usize::MAX,
        !state.outline.expanded.contains(index as usize),
        state.outline.descendant_count(index) == 0,
    ensures
        ({
            let after = state.toggled(index).toggled(index);
            after == (ViewState { pending_loads: after.pending_loads, ..state })
        }),
{
    let after = state.toggled(index).toggled(index);
    let opened = state.with_expanded(index).outline;
    assert(opened.descendant_count(index) == 0);
    assert(after.outline.entries =~= state.outline.entries);
    assert(after.outline.expanded =~= state.outline.expanded);
}

/// Collapsing an entry undoes expanding it, also where the server has answered in between: what
/// is listed, expanded and selected is as it was. This takes that the answer finds the entry: it
/// does not where the entry bears the greatest number there is, as does one further up.
pub proof fn collapsing_undoes_expanding(
    state: ViewState,
    index: int,
    children: Seq<(CallHierarchyItem, Vec<Range>)>,
)
    requires
        state.well_formed(),
        0 <= index < state.outline.entries.len(),
        state.outline.entries[index].entry_id < usize::MAX || is_first_with_id(
            state.outline.entries,
            state.outline.entries[index].entry_id,
            index,
        ),
        state.outline.entries.len() + children.len() <= usize::MAX,
        !state.outline.expanded.contains(index as usize),
        state.outline.descendant_count(index) == 0,
        children.len() > 0,
    ensures
        ({
            let id = state.outline.entries[index].entry_id;
            let answered = state.toggled(index).with_answer(id, children);
            &&& answered.outline.descendant_count(index) == children.len()
            &&& answered.toggled(index).outline == state.outline
        }),
{
    let id = state.outline.entries[index].entry_id;
    let opened = state.toggled(index);
    let added = opened.child_entries(index, children);
    entry_is_found_by_its_id(state, index);
    assert(opened.awaiting_index(id) == Some(index));
    depth_is_bounded(state.outline, index);
    assert(opened.outline.descendant_count(index) == 0);
    assert(opened.outline.is_tree());
    children_are_the_descendants(opened.outline, index, added);
    children_layout(opened.outline, index, added);
    collapse_undoes_children(opened.outline, index, added);
    assert(opened.outline.expanded.remove(index as usize) =~= state.outline.expanded);
    let answered = opened.with_answer(id, children);
    assert(answered.outline == opened.outline.with_children(index, added));
    assert(answered.outline.expanded.contains(index as usize));
}

/// Of two answers about the same entry only the second is listed.
pub proof fn last_answer_counts(
    state: ViewState,
    id: usize,
    first: Seq<(CallHierarchyItem, Vec<Range>)>,
    second: Seq<(CallHierarchyItem, Vec<Range>)>,
)
    requires
        state.well_formed(),
        state.awaiting_index(id) is Some,
        first.len() > 0,
        second.len() > 0,
        state.outline.entries.len() <= usize::MAX,
        state.with_answer(id, first).outline.entries.len() <= usize::MAX,
        state.with_answer(id, second).outline.entries.len() <= usize::MAX,
    ensures
        ({
            let index = state.awaiting_index(id)->0;
            let between = state.with_answer(id, first);
            &&& between.awaiting_index(id) == Some(index)
            &&& between.with_answer(id, second).outline == state.outline.with_children(
                index,
                between.child_entries(index, second),
            )
        }),
{
    let index = state.awaiting_index(id)->0;
    let between = state.with_answer(id, first);
    let added = state.child_entries(index, first);
    assert(is_first_with_id(state.outline.entries, id, index));
    depth_is_bounded(state.outline, index);
    children_entries(state.outline, index, added);
    children_entries(state.outline, index, state.child_entries(index, second));
    entries_keep_their_marks(state.outline, index, added, index);
    assert forall|i: int| 0 <= i < index implies (
    #[trigger] between.outline.entries[i]).entry_id != id by {
        assert(state.outline.entries[i].entry_id != id);
    }
    lemma_first_is_found(between.outline.entries, id, index);
    last_children_count(
        state.outline,
        index,
        added,
        between.child_entries(index, second),
    );
}

/// An entry outside what an answer replaces keeps its marks, and is still found by its number,
/// unless that is the greatest there is, which entries that came in above may bear too.
pub proof fn answers_keep_other_entries(
    state: ViewState,
    id: usize,
    children: Seq<(CallHierarchyItem, Vec<Range>)>,
    index: int,
)
    requires
        state.well_formed(),
        state.awaiting_index(id) is Some,
        children.len() > 0,
        state.with_answer(id, children).outline.entries.len() <= usize::MAX,
        0 <= index < state.outline.entries.len() <= usize::MAX,
        index <= state.awaiting_index(id)->0 || index > state.awaiting_index(id)->0
            + state.outline.descendant_count(state.awaiting_index(id)->0),
    ensures
        ({
            let parent = state.awaiting_index(id)->0;
            let after = state.with_answer(id, children);
            let there = position_after_children(
                state.outline,
                parent,
                state.child_entries(parent, children),
                index,
            );
            let number = state.outline.entries[index].entry_id;
            &&& number < usize::MAX || index <= parent && is_first_with_id(
                state.outline.entries,
                number,
                index,
            ) ==> index_of_id(after.outline.entries, number) == Some(there)
            &&& after.outline.entries[there] == (EntryState {
                node_index: there as usize,
                ..state.outline.entries[index]
            })
            &&& after.outline.expanded.contains(there as usize)
                == state.outline.expanded.contains(index as usize)
            &&& state.outline.selected == Some(index as usize) ==> after.outline.selected == Some(
                there as usize,
            )
        }),
{
    let parent = state.awaiting_index(id)->0;
    let after = state.with_answer(id, children);
    let added = state.child_entries(parent, children);
    assert(is_first_with_id(state.outline.entries, id, parent));
    children_entries(state.outline, parent, added);
    answer_keeps_well_formed(state, id, children);
    entries_keep_their_marks(state.outline, parent, added, index);
    let there = position_after_children(state.outline, parent, added, index);
    let number = state.outline.entries[index].entry_id;
    entry_is_found_by_its_id(after, there);
    if index <= parent && is_first_with_id(state.outline.entries, number, index) {
        assert forall|i: int| 0 <= i < index implies (
        #[trigger] after.outline.entries[i]).entry_id != number by {
            assert(state.outline.entries[i].entry_id != number);
        }
        lemma_first_is_found(after.outline.entries, number, index);
    }
}

/// An empty answer leaves all entries where they are, with their numbers, and the selection too.
/// All entries but the one that it is about stay expanded if they were, and offered for expansion
/// if they were. That one is neither from then on.
pub proof fn empty_answers_keep_the_list(state: ViewState, id: usize, index: int)
    requires
        state.well_formed(),
        state.awaiting_index(id) is Some,
        0 <= index < state.outline.entries.len() <= usize::MAX,
    ensures
        ({
            let parent = state.awaiting_index(id)->0;
            let after = state.with_answer(id, Seq::empty());
            &&& after.outline.entries.len() == state.outline.entries.len()
            &&& after.outline.selected == state.outline.selected
            &&& after.outline.entries[index] == (EntryState {
                has_children: index != parent && state.outline.entries[index].has_children,
                ..state.outline.entries[index]
            })
            &&& after.outline.expanded.contains(index as usize) == (index != parent
                && state.outline.expanded.contains(index as usize))
            &&& after.next_entry_id == state.next_entry_id
        }),
{
}

/// An entry that comes in is offered for expansion just if none of the entries that it hangs
/// below stands for the same symbol.
pub proof fn only_new_symbols_can_be_expanded(
    state: ViewState,
    id: usize,
    children: Seq<(CallHierarchyItem, Vec<Range>)>,
    k: int,
)
    requires
        state.well_formed(),
        state.awaiting_index(id) is Some,
        state.outline.entries.len() <= usize::MAX,
        0 <= k < children.len(),
    ensures
        ({
            let after = state.with_answer(id, children).outline.entries;
            let index = state.awaiting_index(id)->0 + 1 + k;
            &&& 0 <= index < after.len()
            &&& after[index].item == children[k].0
            &&& after[index].has_children <==> forall|a: int|
                1 <= a < ancestry(after, index).len() ==> !(#[trigger] after[ancestry(
                    after,
                    index,
                )[a]]).item.same_symbol(children[k].0)
        }),
{
    let parent = state.awaiting_index(id)->0;
    let added = state.child_entries(parent, children);
    let before = state.outline.entries;
    let after = state.with_answer(id, children).outline.entries;
    let index = parent + 1 + k;
    let item = children[k].0;
    assert(is_first_with_id(before, id, parent));
    depth_is_bounded(state.outline, parent);
    children_entries(state.outline, parent, added);
    child_hangs_below_parent(state.outline, parent, added, k);
    let path = ancestry(after, index);
    let above = ancestry(before, parent);
    assert(path == seq![index] + above);
    ancestry_stands_above(before, parent);
    assert forall|a: int| 0 <= a < above.len() implies after[#[trigger] above[a]].item
        == before[above[a]].item && path[a + 1] == above[a] by {
    }
    if closes_cycle(before, parent, item) {
        let a = choose|a: int|
            0 <= a < above.len() && (#[trigger] before[above[a]]).item.same_symbol(item);
        assert(after[path[a + 1]].item.same_symbol(item));
    } else {
        assert forall|a: int| 1 <= a < path.len() implies !(
        #[trigger] after[path[a]]).item.same_symbol(item) by {
            assert(path[a] == above[a - 1]);
            assert(!before[above[a - 1]].item.same_symbol(item));
        }
    }
}

/// Where only expanded entries have descendants listed below them, an answer leaves it so, unless
/// it is an empty answer about an entry that has some.
pub proof fn answers_keep_collapsed_hidden(
    state: ViewState,
    id: usize,
    children: Seq<(CallHierarchyItem, Vec<Range>)>,
)
    requires
        state.well_formed(),
        state.outline.collapsed_hide_descendants(),
        state.outline.entries.len() <= usize::MAX,
        state.with_answer(id, children).outline.entries.len() <= usize::MAX,
        children.len() == 0 && state.awaiting_index(id) is Some ==> state.outline.descendant_count(
            state.awaiting_index(id)->0,
        ) == 0,
    ensures
        state.with_answer(id, children).outline.collapsed_hide_descendants(),
{
    if let Some(index) = state.awaiting_index(id) {
        assert(is_first_with_id(state.outline.entries, id, index));
        if children.len() == 0 {
            childless_keeps_collapsed_hidden(state.outline, index);
        } else {
            let added = state.child_entries(index, children);
            depth_is_bounded(state.outline, index);
            children_entries(state.outline, index, added);
            children_keep_collapsed_hidden(state.outline, index, added);
        }
    }
}

/// Where only expanded entries have descendants listed below them, toggling an entry leaves it
/// so.
pub proof fn toggling_keeps_collapsed_hidden(state: ViewState, index: int)
    requires
        state.well_formed(),
        state.outline.collapsed_hide_descendants(),
        0 <= index < state.outline.entries.len() <= usize::MAX,
    ensures
        state.toggled(index).outline.collapsed_hide_descendants(),
{
    if state.outline.expanded.contains(index as usize) {
        collapse_keeps_collapsed_hidden(state.outline, index);
    } else {
        let after = state.toggled(index).outline;
        assert forall|i: int|
            0 <= i < after.entries.len() && #[trigger] after.descendant_count(
                i,
            ) > 0 implies after.expanded.contains(i as usize) by {
            assert(state.outline.descendant_count(i) > 0);
        }
    }
}

/// A root that is newly set has no descendants listed below it.
pub proof fn new_root_keeps_collapsed_hidden(
    state: ViewState,
    item: CallHierarchyItem,
    buffer: EntityId,
    direction: CallDirection,
)
    ensures
        state.with_root(item, buffer, direction).outline.collapsed_hide_descendants(),
        state.cleared().outline.collapsed_hide_descendants(),
{
}

/// A number is looked up to the first entry that bears it, and to none where none does.
pub proof fn numbers_are_looked_up_from_the_top(
    entries: Seq<EntryState<usize>>,
    id: usize,
    index: int,
)
    ensures
        0 <= index < entries.len() && entries[index].entry_id == id && (forall|i: int|
            0 <= i < index ==> (#[trigger] entries[i]).entry_id != id) ==> index_of_id(entries, id)
            == Some(index),
        (forall|i: int| 0 <= i < entries.len() ==> (#[trigger] entries[i]).entry_id != id)
            ==> index_of_id(entries, id) is None,
{
    if 0 <= index < entries.len() && entries[index].entry_id == id && (forall|i: int|
        0 <= i < index ==> (#[trigger] entries[i]).entry_id != id) {
        assert(is_first_with_id(entries, id, index));
        lemma_first_is_found(entries, id, index);
    }
}

/// A request asks about the entry that bears the number: for its item, for the buffer of the root,
/// and in the direction that the view is set to, whichever entry it is. Sending it is noted, and
/// changes nothing else.
pub proof fn requests_are_about_the_entry(state: ViewState, id: usize, index: int)
    requires
        0 <= index < state.outline.entries.len() <= usize::MAX,
        state.outline.entries[index].entry_id == id,
        forall|i: int| 0 <= i < index ==> (#[trigger] state.outline.entries[i]).entry_id != id,
    ensures
        state.load_request(id) is Some <==> state.root_buffer is Some,
        state.load_request(id) matches Some(request) ==> {
            &&& request.parent_entry_id == id
            &&& request.item == state.outline.entries[index].item
            &&& Some(request.buffer) == state.root_buffer
            &&& request.direction == state.direction
        },
        state.root_buffer is Some ==> state.loading(id) == (ViewState {
            pending_loads: state.pending_loads.push(id),
            ..state
        }),
        state.root_buffer is None ==> state.loading(id) == state,
{
    numbers_are_looked_up_from_the_top(state.outline.entries, id, index);
}

/// Nothing is asked, and nothing changes, where no entry bears the number.
pub proof fn nothing_is_asked_about_unlisted_entries(state: ViewState, id: usize)
    requires
        forall|i: int|
            0 <= i < state.outline.entries.len() ==> (
            #[trigger] state.outline.entries[i]).entry_id != id,
    ensures
        state.load_request(id) is None,
        state.loading(id) == state,
{
    numbers_are_looked_up_from_the_top(state.outline.entries, id, 0);
}

/// Toggling an entry that is collapsed expands it and no other, and asks for its calls in the
/// direction that the view is set to. What is listed and selected stays.
pub proof fn expanding_asks_for_the_calls(state: ViewState, index: int)
    requires
        state.well_formed(),
        0 <= index < state.outline.entries.len() <= usize::MAX,
        !state.outline.expanded.contains(index as usize),
    ensures
        ({
            let id = state.outline.entries[index].entry_id;
            let after = state.toggled(index);
            &&& state.toggle_outcome(index) matches Toggled::Expanded(Some(request)) && {
                &&& request.parent_entry_id == id
                &&& request.direction == state.direction
                &&& Some(request.buffer) == state.root_buffer
                &&& id < usize::MAX ==> request.item == state.outline.entries[index].item
            }
            &&& after.outline.entries == state.outline.entries
            &&& after.outline.selected == state.outline.selected
            &&& forall|position: usize| #[trigger]
                after.outline.expanded.contains(position) <==> position == index
                    || state.outline.expanded.contains(position)
            &&& after.pending_loads == state.pending_loads.push(id)
            &&& after.next_entry_id == state.next_entry_id
            &&& after.direction == state.direction
            &&& after.root == state.root
            &&& after.root_buffer == state.root_buffer
            &&& after.navigation_pane == state.navigation_pane
        }),
{
    let id = state.outline.entries[index].entry_id;
    lemma_first_exists(state.outline.entries, id, index);
    let found = choose|i: int| is_first_with_id(state.outline.entries, id, i);
    lemma_first_is_found(state.outline.entries, id, found);
    entry_is_found_by_its_id(state, index);
    requests_are_about_the_entry(state.with_expanded(index), id, found);
    requests_are_about_the_entry(state, id, found);
}

/// Toggling an entry that is expanded asks for nothing, and takes its `gone` descendants out of
/// the list and nothing else. A selection among them goes to the entry, and marks stay with the
/// entries that remain.
pub proof fn collapsing_takes_out_only_descendants(
    state: ViewState,
    parent: int,
    gone: int,
    position: usize,
)
    requires
        state.well_formed(),
        0 <= parent < state.outline.entries.len() <= usize::MAX,
        0 <= gone,
        parent + 1 + gone <= state.outline.entries.len(),
        forall|i: int|
            parent < i <= parent + gone ==> (#[trigger] state.outline.entries[i]).depth
                > state.outline.entries[parent].depth,
        parent + 1 + gone < state.outline.entries.len() ==> state.outline.entries[parent + 1
            + gone].depth <= state.outline.entries[parent].depth,
        state.outline.expanded.contains(parent as usize),
    ensures
        state.toggle_outcome(parent) is Collapsed,
        state.toggled(parent) == (ViewState {
            outline: state.toggled(parent).outline,
            ..state
        }),
        ({
            let after = state.toggled(parent).outline;
            &&& after.entries.len() == state.outline.entries.len() - gone
            &&& forall|i: int|
                0 <= i <= parent ==> #[trigger] after.entries[i] == state.outline.entries[i]
            &&& forall|i: int|
                parent < i < after.entries.len() ==> #[trigger] after.entries[i] == (EntryState {
                    node_index: i as usize,
                    ..state.outline.entries[i + gone]
                })
            &&& !after.expanded.contains(parent as usize)
            &&& position < parent ==> (after.expanded.contains(position)
                <==> state.outline.expanded.contains(position))
            &&& position > parent + gone ==> (after.expanded.contains((position - gone) as usize)
                <==> state.outline.expanded.contains(position))
            &&& state.outline.selected matches Some(selected) ==> {
                &&& after.selected is Some
                &&& selected <= parent ==> after.selected->0 == selected
                &&& parent < selected <= parent + gone ==> after.selected->0 == parent
                &&& selected > parent + gone ==> after.selected->0 == selected - gone
            }
        }),
{
    collapsing_takes_out_the_descendants(state.outline, parent, gone);
    collapsing_keeps_other_marks(state.outline, parent, gone, position);
}

/// An answer that is awaited is listed call by call, in its order, right below the entry that it
/// is about: each new entry holds the item and the places of its call, stands one level deeper
/// than that entry, and bears the next number.
pub proof fn answers_are_listed_call_by_call(
    state: ViewState,
    id: usize,
    children: Seq<(CallHierarchyItem, Vec<Range>)>,
    parent: int,
    k: int,
)
    requires
        state.well_formed(),
        0 <= parent < state.outline.entries.len() <= usize::MAX,
        state.outline.entries[parent].entry_id == id,
        forall|i: int| 0 <= i < parent ==> (#[trigger] state.outline.entries[i]).entry_id != id,
        state.outline.expanded.contains(parent as usize),
        0 <= k < children.len(),
    ensures
        ({
            let after = state.with_answer(id, children).outline.entries;
            let entry = after[parent + 1 + k];
            &&& parent + children.len() < after.len()
            &&& entry.item == children[k].0
            &&& entry.from_ranges == children[k].1@
            &&& entry.depth == state.outline.entries[parent].depth + 1
            &&& entry.node_index == (parent + 1 + k) as usize
            &&& state.next_entry_id + k <= usize::MAX ==> entry.entry_id == state.next_entry_id + k
            &&& state.next_entry_id + k > usize::MAX ==> entry.entry_id == usize::MAX
            &&& state.answer_ids(id, children).len() == children.len()
            &&& state.answer_ids(id, children)[k] == entry.entry_id
        }),
{
    numbers_are_looked_up_from_the_top(state.outline.entries, id, parent);
    depth_is_bounded(state.outline, parent);
    children_entries(state.outline, parent, state.child_entries(parent, children));
}

/// An answer that is awaited takes the place of the `gone` descendants of its entry, and of
/// nothing else: what stands above stays, and what stands below moves along as it is.
pub proof fn answers_replace_only_descendants(
    state: ViewState,
    id: usize,
    children: Seq<(CallHierarchyItem, Vec<Range>)>,
    parent: int,
    gone: int,
)
    requires
        state.well_formed(),
        0 <= parent < state.outline.entries.len() <= usize::MAX,
        state.outline.entries[parent].entry_id == id,
        forall|i: int| 0 <= i < parent ==> (#[trigger] state.outline.entries[i]).entry_id != id,
        0 <= gone,
        parent + 1 + gone <= state.outline.entries.len(),
        forall|i: int|
            parent < i <= parent + gone ==> (#[trigger] state.outline.entries[i]).depth
                > state.outline.entries[parent].depth,
        parent + 1 + gone < state.outline.entries.len() ==> state.outline.entries[parent + 1
            + gone].depth <= state.outline.entries[parent].depth,
        state.outline.expanded.contains(parent as usize),
        children.len() > 0,
        state.outline.entries.len() - gone + children.len() <= usize::MAX,
    ensures
        ({
            let after = state.with_answer(id, children).outline.entries;
            &&& after.len() == state.outline.entries.len() - gone + children.len()
            &&& forall|i: int|
                0 <= i <= parent ==> #[trigger] after[i] == state.outline.entries[i]
            &&& forall|i: int|
                parent + children.len() < i < after.len() ==> #[trigger] after[i] == (EntryState {
                    node_index: i as usize,
                    ..state.outline.entries[i - children.len() + gone]
                })
        }),
        state.with_answer(id, children) == (ViewState {
            outline: state.with_answer(id, children).outline,
            next_entry_id: if state.next_entry_id + children.len() <= usize::MAX {
                (state.next_entry_id + children.len()) as usize
            } else {
                usize::MAX
            },
            ..state
        }),
{
    numbers_are_looked_up_from_the_top(state.outline.entries, id, parent);
    children_take_the_place_of_descendants(
        state.outline,
        parent,
        gone,
        state.child_entries(parent, children),
    );
}

/// When an answer comes in, entries stay expanded and selected as they were, new ones are
/// neither, and a selection among the `gone` entries that it replaces goes to the entry that it is
/// about.
pub proof fn answers_leave_the_marks_with_their_entries(
    state: ViewState,
    id: usize,
    children: Seq<(CallHierarchyItem, Vec<Range>)>,
    parent: int,
    gone: int,
    position: usize,
)
    requires
        state.well_formed(),
        0 <= parent < state.outline.entries.len() <= usize::MAX,
        state.outline.entries[parent].entry_id == id,
        forall|i: int| 0 <= i < parent ==> (#[trigger] state.outline.entries[i]).entry_id != id,
        0 <= gone,
        parent + 1 + gone <= state.outline.entries.len(),
        forall|i: int|
            parent < i <= parent + gone ==> (#[trigger] state.outline.entries[i]).depth
                > state.outline.entries[parent].depth,
        parent + 1 + gone < state.outline.entries.len() ==> state.outline.entries[parent + 1
            + gone].depth <= state.outline.entries[parent].depth,
        state.outline.expanded.contains(parent as usize),
        children.len() > 0,
        state.outline.entries.len() - gone + children.len() <= usize::MAX,
    ensures
        ({
            let after = state.with_answer(id, children).outline;
            &&& after.selected is Some <==> state.outline.selected is Some
            &&& state.outline.selected matches Some(selected) ==> {
                &&& selected <= parent ==> after.selected->0 == selected
                &&& parent < selected <= parent + gone ==> after.selected->0 == parent
                &&& selected > parent + gone ==> after.selected->0 == selected - gone
                    + children.len()
            }
            &&& position <= parent ==> (after.expanded.contains(position)
                <==> state.outline.expanded.contains(position))
            &&& parent < position <= parent + children.len() ==> !after.expanded.contains(position)
            &&& position > parent + gone && position - gone + children.len() <= usize::MAX ==> (
            after.expanded.contains((position - gone + children.len()) as usize)
                <==> state.outline.expanded.contains(position))
        }),
{
    let added = state.child_entries(parent, children);
    numbers_are_looked_up_from_the_top(state.outline.entries, id, parent);
    expanded_positions_follow_their_entries(state.outline, parent, gone, added, position);
    selection_follows_its_entry(state.outline, parent, gone, added);
}

/// A new entry is not offered for expansion if its symbol is met above it: if the entry that it
/// hangs below, or one above that which is less deep than all that stand between them, bears the
/// same URI and the same place of its name.
pub proof fn symbols_met_above_cannot_be_expanded(
    state: ViewState,
    id: usize,
    children: Seq<(CallHierarchyItem, Vec<Range>)>,
    parent: int,
    k: int,
    above: int,
)
    requires
        state.well_formed(),
        0 <= parent < state.outline.entries.len() <= usize::MAX,
        state.outline.entries[parent].entry_id == id,
        forall|i: int| 0 <= i < parent ==> (#[trigger] state.outline.entries[i]).entry_id != id,
        state.outline.expanded.contains(parent as usize),
        0 <= k < children.len(),
        0 <= above <= parent,
        forall|i: int|
            above < i <= parent ==> (#[trigger] state.outline.entries[i]).depth
                > state.outline.entries[above].depth,
        state.outline.entries[above].item.uri@ == children[k].0.uri@,
        state.outline.entries[above].item.selection_range == children[k].0.selection_range,
    ensures
        !state.with_answer(id, children).outline.entries[parent + 1 + k].has_children,
{
    numbers_are_looked_up_from_the_top(state.outline.entries, id, parent);
    children_entries(state.outline, parent, state.child_entries(parent, children));
    items_met_above_close_a_cycle(state.outline.entries, parent, above, children[k].0);
}

/// A new entry that is not offered for expansion has met its symbol above: there is an entry that
/// it hangs below with the same URI and the same place of its name.
pub proof fn only_symbols_met_above_cannot_be_expanded(
    state: ViewState,
    id: usize,
    children: Seq<(CallHierarchyItem, Vec<Range>)>,
    parent: int,
    k: int,
) -> (above: int)
    requires
        state.well_formed(),
        0 <= parent < state.outline.entries.len() <= usize::MAX,
        state.outline.entries[parent].entry_id == id,
        forall|i: int| 0 <= i < parent ==> (#[trigger] state.outline.entries[i]).entry_id != id,
        state.outline.expanded.contains(parent as usize),
        0 <= k < children.len(),
        !state.with_answer(id, children).outline.entries[parent + 1 + k].has_children,
    ensures
        0 <= above <= parent,
        forall|i: int|
            above < i <= parent ==> (#[trigger] state.outline.entries[i]).depth
                > state.outline.entries[above].depth,
        state.outline.entries[above].item.uri@ == children[k].0.uri@,
        state.outline.entries[above].item.selection_range == children[k].0.selection_range,
{
    numbers_are_looked_up_from_the_top(state.outline.entries, id, parent);
    children_entries(state.outline, parent, state.child_entries(parent, children));
    cycles_close_at_an_item_above(state.outline.entries, parent, children[k].0)
}

/// An empty answer that is awaited is noted at its entry, which is then neither offered for
/// expansion nor expanded. All else stays, what was listed below the entry included.
pub proof fn empty_answers_are_noted(state: ViewState, id: usize, parent: int, other: int)
    requires
        state.well_formed(),
        0 <= parent < state.outline.entries.len() <= usize::MAX,
        state.outline.entries[parent].entry_id == id,
        forall|i: int| 0 <= i < parent ==> (#[trigger] state.outline.entries[i]).entry_id != id,
        state.outline.expanded.contains(parent as usize),
        0 <= other < state.outline.entries.len(),
    ensures
        ({
            let after = state.with_answer(id, Seq::empty());
            &&& after == (ViewState { outline: after.outline, ..state })
            &&& after.outline.entries.len() == state.outline.entries.len()
            &&& after.outline.selected == state.outline.selected
            &&& after.outline.entries[parent] == (EntryState {
                has_children: false,
                ..state.outline.entries[parent]
            })
            &&& !after.outline.expanded.contains(parent as usize)
            &&& other != parent ==> after.outline.entries[other] == state.outline.entries[other]
            &&& other != parent ==> (after.outline.expanded.contains(other as usize)
                <==> state.outline.expanded.contains(other as usize))
            &&& state.answer_ids(id, Seq::empty()).len() == 0
        }),
{
    numbers_are_looked_up_from_the_top(state.outline.entries, id, parent);
}

/// An answer about an entry that is not expanded changes nothing, and gives out no numbers.
pub proof fn answers_nobody_awaits_are_dropped(
    state: ViewState,
    id: usize,
    children: Seq<(CallHierarchyItem, Vec<Range>)>,
    parent: int,
)
    requires
        0 <= parent < state.outline.entries.len() <= usize::MAX,
        state.outline.entries[parent].entry_id == id,
        forall|i: int| 0 <= i < parent ==> (#[trigger] state.outline.entries[i]).entry_id != id,
        !state.outline.expanded.contains(parent as usize),
    ensures
        state.with_answer(id, children) == state,
        state.answer_ids(id, children).len() == 0,
{
    numbers_are_looked_up_from_the_top(state.outline.entries, id, parent);
}

/// A new root is all that is listed: it holds the item, bears the next number, stands at the top,
/// is expanded, selected and offered for expansion, and stands for no call. The requests sent so
/// far stay noted, and the one for its calls with them.
pub proof fn new_root_is_all_that_is_listed(
    state: ViewState,
    item: CallHierarchyItem,
    buffer: EntityId,
    direction: CallDirection,
    position: usize,
)
    ensures
        ({
            let after = state.with_root(item, buffer, direction);
            let entries = after.outline.entries;
            &&& after.root == Some(item)
            &&& after.root_buffer == Some(buffer)
            &&& after.direction == direction
            &&& after.navigation_pane == state.navigation_pane
            &&& entries.len() == 1
            &&& entries[0].entry_id == state.next_entry_id
            &&& entries[0].item == item
            &&& entries[0].from_ranges.len() == 0
            &&& entries[0].depth == 0
            &&& entries[0].has_children
            &&& entries[0].node_index == 0
            &&& after.outline.expanded.contains(position) <==> position == 0
            &&& after.outline.selected == Some(0usize)
            &&& state.next_entry_id < usize::MAX ==> after.next_entry_id == state.next_entry_id + 1
            &&& state.next_entry_id == usize::MAX ==> after.next_entry_id == usize::MAX
            &&& after.pending_loads == state.pending_loads.push(state.next_entry_id)
        }),
{
    let placed = state.rooted(item, buffer, direction);
    assert(is_first_with_id(placed.outline.entries, state.next_entry_id, 0));
    lemma_first_is_found(placed.outline.entries, state.next_entry_id, 0);
}

/// Clearing leaves nothing listed, marked, awaited or remembered, and starts the numbers anew. The
/// direction and the pane to open entries in stay.
pub proof fn clearing_leaves_nothing(state: ViewState, position: usize)
    ensures
        ({
            let after = state.cleared();
            &&& after.root is None
            &&& after.root_buffer is None
            &&& after.outline.entries.len() == 0
            &&& !after.outline.expanded.contains(position)
            &&& after.outline.selected is None
            &&& after.next_entry_id == 0
            &&& after.pending_loads.len() == 0
            &&& after.direction == state.direction
            &&& after.navigation_pane == state.navigation_pane
        }),
{
}

/// An entry leads to the file that its URI names, to the first of the calls that it stands for, or
/// to its symbol's name where it stands for none, in the pane set for it. It leads nowhere where
/// the URI names no file, and so does an entry that is not listed.
pub proof fn entries_lead_to_their_first_call(state: ViewState, index: int)
    requires
        0 <= index,
    ensures
        index >= state.outline.entries.len() ==> state.target_of(index) is None,
        index < state.outline.entries.len() ==> ({
            let entry = state.outline.entries[index];
            &&& state.target_of(index) is Some <==> file_path_of_uri(entry.item.uri@) is Some
            &&& state.target_of(index) matches Some(target) ==> {
                &&& Some(target.path) == file_path_of_uri(entry.item.uri@)
                &&& target.pane == state.navigation_pane
                &&& entry.from_ranges.len() > 0 ==> target.row == entry.from_ranges[0].start.line
                    && target.column == entry.from_ranges[0].start.character
                &&& entry.from_ranges.len() == 0 ==> target.row
                    == entry.item.selection_range.start.line && target.column
                    == entry.item.selection_range.start.character
            }
        }),
{
}

/// A view goes into the pane on the right: the last one open there is activated, and focused
/// unless it is active already. A new one is added where none is open there, and one is split off
/// where there is no such pane.
pub proof fn views_go_to_the_right(views: Seq<EntityId>, active_item: Option<EntityId>)
    ensures
        placement(None, active_item) is SplitRight,
        views.len() == 0 ==> placement(Some(views), active_item) is AddToRightPane,
        views.len() > 0 ==> {
            &&& placement(Some(views), active_item) is Activate
            &&& placement(Some(views), active_item)->Activate_view == views[views.len() - 1]
            &&& placement(Some(views), active_item)->Activate_focus <==> active_item
                != Some(views[views.len() - 1])
        },
{
}

} // verus!

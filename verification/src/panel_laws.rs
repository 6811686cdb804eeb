//! What holds of the panel from one step to the next.
use crate::call_hierarchy_panel::{placement, PanelState, Toggled};
use crate::navigation::EntityId;
use crate::outline::EntryState;
use crate::outline_laws::{
    children_are_the_descendants, children_entries, children_keep_collapsed_hidden,
    children_layout, children_take_the_place_of_descendants, collapse_keeps_collapsed_hidden,
    collapse_keeps_expanded_in_range, collapse_undoes_children, collapsing_keeps_other_marks,
    collapsing_takes_out_the_descendants, depth_is_bounded,
    expanded_positions_follow_their_entries, last_children_count, selection_follows_its_entry,
};
use crate::protocol::{CallDirection, CallHierarchyItem, Range};
use crate::uri::file_path_of_uri;
use vstd::prelude::*;

verus! {

/// Only the request sent last is awaited.
pub proof fn last_request_is_awaited(state: PanelState, first: int, second: int)
    requires
        state.well_formed(),
        0 <= second < state.outline.entries.len() <= usize::MAX,
    ensures
        state.loading(first).loading(second).pending_load == Some(second as usize),
        state.loading(first).loading(second) == state.loading(second),
{
}

/// Toggling an entry that is collapsed, with nothing listed below it, and then toggling it again
/// leaves only the note that its calls were asked for.
pub proof fn toggling_twice_changes_nothing_listed(state: PanelState, index: int)
    requires
        state.well_formed(),
        0 <= index <= usize::MAX,
        state.outline.entries.len() <= usize::MAX,
        !state.outline.expanded.contains(index as usize),
        state.outline.descendant_count(index) == 0,
    ensures
        ({
            let after = state.toggled(index).toggled(index);
            after == (PanelState { pending_load: after.pending_load, ..state })
        }),
{
    let after = state.toggled(index).toggled(index);
    let opened = state.with_expanded(index).outline;
    assert(opened.descendant_count(index) == 0);
    assert(after.outline.entries =~= state.outline.entries);
    assert(after.outline.expanded =~= state.outline.expanded);
}

/// Collapsing an entry undoes expanding it, also where the server has answered in between: what
/// is listed, expanded and selected is as it was.
pub proof fn collapsing_undoes_expanding(
    state: PanelState,
    index: int,
    children: Seq<(CallHierarchyItem, Vec<Range>)>,
)
    requires
        state.well_formed(),
        0 <= index < state.outline.entries.len(),
        state.outline.entries.len() + children.len() <= usize::MAX,
        state.outline.can_replace_children(index, children.len() as int),
        !state.outline.expanded.contains(index as usize),
        state.outline.descendant_count(index) == 0,
    ensures
        ({
            let answered = state.toggled(index).with_answer(index, children);
            &&& answered.outline.descendant_count(index) == children.len()
            &&& answered.toggled(index).outline == state.outline
        }),
{
    let opened = state.toggled(index);
    let added = opened.child_entries(index, children);
    depth_is_bounded(state.outline, index);
    assert(opened.outline.descendant_count(index) == 0);
    assert(opened.outline.is_tree());
    children_are_the_descendants(opened.outline, index, added);
    children_layout(opened.outline, index, added);
    collapse_undoes_children(opened.outline, index, added);
    assert(opened.outline.expanded.remove(index as usize) =~= state.outline.expanded);
    assert(opened.with_answer(index, children).outline.expanded.contains(index as usize));
}

/// Of two answers about the same entry only the second counts.
pub proof fn last_answer_counts(
    state: PanelState,
    index: int,
    first: Seq<(CallHierarchyItem, Vec<Range>)>,
    second: Seq<(CallHierarchyItem, Vec<Range>)>,
)
    requires
        state.well_formed(),
        0 <= index < state.outline.entries.len() <= usize::MAX,
        state.with_answer(index, first).outline.entries.len() <= usize::MAX,
        state.with_answer(index, second).outline.entries.len() <= usize::MAX,
        state.outline.can_replace_children(index, first.len() as int),
    ensures
        state.with_answer(index, first).with_answer(index, second) == state.with_answer(
            index,
            second,
        ),
{
    let added = state.child_entries(index, first);
    let between = state.with_answer(index, first);
    depth_is_bounded(state.outline, index);
    children_entries(state.outline, index, added);
    children_entries(state.outline, index, state.child_entries(index, second));
    children_layout(state.outline, index, added);
    assert(between.child_entries(index, second) =~= state.child_entries(index, second));
    last_children_count(state.outline, index, added, state.child_entries(index, second));
}

/// Where only expanded entries have descendants listed below them, an answer about an expanded
/// entry leaves it so.
pub proof fn answers_keep_collapsed_hidden(
    state: PanelState,
    index: int,
    children: Seq<(CallHierarchyItem, Vec<Range>)>,
)
    requires
        state.well_formed(),
        state.outline.collapsed_hide_descendants(),
        0 <= index < state.outline.entries.len() <= usize::MAX,
        state.with_answer(index, children).outline.entries.len() <= usize::MAX,
        children.len() == 0 || state.outline.expanded.contains(index as usize),
    ensures
        state.with_answer(index, children).outline.collapsed_hide_descendants(),
{
    let added = state.child_entries(index, children);
    depth_is_bounded(state.outline, index);
    children_entries(state.outline, index, added);
    children_keep_collapsed_hidden(state.outline, index, added);
}

/// Where only expanded entries have descendants listed below them, toggling an entry leaves it
/// so.
pub proof fn toggling_keeps_collapsed_hidden(state: PanelState, index: int)
    requires
        state.well_formed(),
        state.outline.collapsed_hide_descendants(),
        0 <= index <= usize::MAX,
        state.outline.entries.len() <= usize::MAX,
    ensures
        state.toggled(index).outline.collapsed_hide_descendants(),
{
    let collapses = state.outline.expanded.contains(index as usize);
    if collapses && index < state.outline.entries.len() {
        collapse_keeps_collapsed_hidden(state.outline, index);
    } else {
        let after = state.toggled(index).outline;
        assert(after.entries =~= state.outline.entries);
        assert forall|i: int|
            0 <= i < after.entries.len() && #[trigger] after.descendant_count(
                i,
            ) > 0 implies after.expanded.contains(i as usize) by {
            assert(state.outline.descendant_count(i) > 0);
        }
    }
}

/// As long as only entries of the list are toggled, only entries of the list are expanded.
pub proof fn toggling_keeps_expanded_in_range(state: PanelState, index: int)
    requires
        state.well_formed(),
        state.outline.expanded_in_range(),
        0 <= index < state.outline.entries.len() <= usize::MAX,
    ensures
        state.toggled(index).outline.expanded_in_range(),
{
    if state.outline.expanded.contains(index as usize) {
        collapse_keeps_expanded_in_range(state.outline, index);
    }
}

/// Where only entries of the list are expanded, an answer can be taken in for any entry of the
/// list, and leaves it so.
pub proof fn answers_fit(
    state: PanelState,
    index: int,
    children: Seq<(CallHierarchyItem, Vec<Range>)>,
)
    requires
        state.well_formed(),
        state.outline.expanded_in_range(),
        0 <= index < state.outline.entries.len() <= usize::MAX,
        state.with_answer(index, children).outline.entries.len() <= usize::MAX,
    ensures
        state.outline.can_replace_children(index, children.len() as int),
        state.with_answer(index, children).outline.expanded_in_range(),
{
    let added = state.child_entries(index, children);
    children_entries(state.outline, index, added);
    children_layout(state.outline, index, added);
}

/// A request asks about the entry at its position: for its item, for the buffer of the root, and
/// in the direction that the panel is set to, whichever entry it is. It is the one awaited from
/// then on, and nothing else changes. Nothing is asked about an entry that is not listed.
pub proof fn requests_are_about_the_entry(state: PanelState, index: int)
    requires
        0 <= index <= usize::MAX,
    ensures
        state.load_request(index) is Some <==> state.root_buffer is Some && index
            < state.outline.entries.len(),
        state.load_request(index) matches Some(request) ==> {
            &&& request.entry_index == index
            &&& request.item == state.outline.entries[index].item
            &&& Some(request.buffer) == state.root_buffer
            &&& request.direction == state.direction
        },
        state.root_buffer is Some && index < state.outline.entries.len() ==> state.loading(index)
            == (PanelState { pending_load: Some(index as usize), ..state }),
        state.root_buffer is None || index >= state.outline.entries.len() ==> state.loading(index)
            == state,
{
}

/// Toggling an entry that is collapsed expands it and no other, and asks for its calls in the
/// direction that the panel is set to. What is listed and selected stays.
pub proof fn expanding_asks_for_the_calls(state: PanelState, index: int)
    requires
        state.well_formed(),
        0 <= index <= usize::MAX,
        !state.outline.expanded.contains(index as usize),
    ensures
        state.toggle_outcome(index) is Expanded,
        index >= state.outline.entries.len() ==> state.toggle_outcome(index)->Expanded_0 is None,
        index < state.outline.entries.len() ==> {
            &&& state.toggle_outcome(index) matches Toggled::Expanded(Some(request)) && {
                &&& request.entry_index == index
                &&& request.item == state.outline.entries[index].item
                &&& Some(request.buffer) == state.root_buffer
                &&& request.direction == state.direction
            }
        },
        ({
            let after = state.toggled(index);
            &&& after.outline.entries == state.outline.entries
            &&& after.outline.selected == state.outline.selected
            &&& forall|position: usize| #[trigger]
                after.outline.expanded.contains(position) <==> position == index
                    || state.outline.expanded.contains(position)
            &&& after.pending_load == (if index < state.outline.entries.len() {
                Some(index as usize)
            } else {
                state.pending_load
            })
            &&& after.direction == state.direction
            &&& after.root == state.root
            &&& after.root_buffer == state.root_buffer
        }),
{
    requests_are_about_the_entry(state, index);
    requests_are_about_the_entry(state.with_expanded(index), index);
}

/// Toggling an entry that is expanded asks for nothing, and takes its `gone` descendants out of
/// the list and nothing else. A selection among them goes to the entry, and marks stay with the
/// entries that remain.
pub proof fn collapsing_takes_out_only_descendants(
    state: PanelState,
    parent: int,
    gone: int,
    position: usize,
)
    requires
        state.well_formed(),
        0 <= parent < state.outline.entries.len() <= usize::MAX,
        0 <= gone,
        parent + 1 + gone <= state.outline.entries.len(),
        forall|i: int|
            parent < i <= parent + gone ==> (#[trigger] state.outline.entries[i]).depth
                > state.outline.entries[parent].depth,
        parent + 1 + gone < state.outline.entries.len() ==> state.outline.entries[parent + 1
            + gone].depth <= state.outline.entries[parent].depth,
        state.outline.expanded.contains(parent as usize),
    ensures
        state.toggle_outcome(parent) is Collapsed,
        state.toggled(parent) == (PanelState {
            outline: state.toggled(parent).outline,
            ..state
        }),
        ({
            let after = state.toggled(parent).outline;
            &&& after.entries.len() == state.outline.entries.len() - gone
            &&& forall|i: int|
                0 <= i <= parent ==> #[trigger] after.entries[i] == state.outline.entries[i]
            &&& forall|i: int|
                parent < i < after.entries.len() ==> #[trigger] after.entries[i] == (EntryState {
                    node_index: i as usize,
                    ..state.outline.entries[i + gone]
                })
            &&& !after.expanded.contains(parent as usize)
            &&& position < parent ==> (after.expanded.contains(position)
                <==> state.outline.expanded.contains(position))
            &&& position > parent + gone ==> (after.expanded.contains((position - gone) as usize)
                <==> state.outline.expanded.contains(position))
            &&& state.outline.selected matches Some(selected) ==> {
                &&& after.selected is Some
                &&& selected <= parent ==> after.selected->0 == selected
                &&& parent < selected <= parent + gone ==> after.selected->0 == parent
                &&& selected > parent + gone ==> after.selected->0 == selected - gone
            }
        }),
{
    collapsing_takes_out_the_descendants(state.outline, parent, gone);
    collapsing_keeps_other_marks(state.outline, parent, gone, position);
}

/// An answer is listed call by call, in its order, right below the entry that it is about: each
/// new entry holds the item and the places of its call, stands one level deeper than that entry,
/// and is offered for expansion.
pub proof fn answers_are_listed_call_by_call(
    state: PanelState,
    parent: int,
    children: Seq<(CallHierarchyItem, Vec<Range>)>,
    k: int,
)
    requires
        state.well_formed(),
        0 <= parent < state.outline.entries.len() <= usize::MAX,
        0 <= k < children.len(),
    ensures
        ({
            let after = state.with_answer(parent, children).outline.entries;
            let entry = after[parent + 1 + k];
            &&& parent + children.len() < after.len()
            &&& entry.item == children[k].0
            &&& entry.from_ranges == children[k].1@
            &&& entry.depth == state.outline.entries[parent].depth + 1
            &&& entry.has_children
            &&& entry.node_index == (parent + 1 + k) as usize
        }),
{
    depth_is_bounded(state.outline, parent);
    children_entries(state.outline, parent, state.child_entries(parent, children));
}

/// An answer takes the place of the `gone` descendants of its entry, and of nothing else: what
/// stands above stays, and what stands below moves along as it is.
pub proof fn answers_replace_only_descendants(
    state: PanelState,
    parent: int,
    children: Seq<(CallHierarchyItem, Vec<Range>)>,
    gone: int,
)
    requires
        state.well_formed(),
        0 <= parent < state.outline.entries.len() <= usize::MAX,
        0 <= gone,
        parent + 1 + gone <= state.outline.entries.len(),
        forall|i: int|
            parent < i <= parent + gone ==> (#[trigger] state.outline.entries[i]).depth
                > state.outline.entries[parent].depth,
        parent + 1 + gone < state.outline.entries.len() ==> state.outline.entries[parent + 1
            + gone].depth <= state.outline.entries[parent].depth,
        state.outline.entries.len() - gone + children.len() <= usize::MAX,
    ensures
        ({
            let after = state.with_answer(parent, children).outline.entries;
            &&& after.len() == state.outline.entries.len() - gone + children.len()
            &&& forall|i: int|
                0 <= i <= parent ==> #[trigger] after[i] == state.outline.entries[i]
            &&& forall|i: int|
                parent + children.len() < i < after.len() ==> #[trigger] after[i] == (EntryState {
                    node_index: i as usize,
                    ..state.outline.entries[i - children.len() + gone]
                })
        }),
        state.with_answer(parent, children) == (PanelState {
            outline: state.with_answer(parent, children).outline,
            ..state
        }),
{
    children_take_the_place_of_descendants(
        state.outline,
        parent,
        gone,
        state.child_entries(parent, children),
    );
}

/// When an answer comes in, entries stay expanded and selected as they were, new ones are
/// neither, and a selection among the `gone` entries that it replaces goes to the entry that it is
/// about.
pub proof fn answers_leave_the_marks_with_their_entries(
    state: PanelState,
    parent: int,
    children: Seq<(CallHierarchyItem, Vec<Range>)>,
    gone: int,
    position: usize,
)
    requires
        state.well_formed(),
        0 <= parent < state.outline.entries.len() <= usize::MAX,
        0 <= gone,
        parent + 1 + gone <= state.outline.entries.len(),
        forall|i: int|
            parent < i <= parent + gone ==> (#[trigger] state.outline.entries[i]).depth
                > state.outline.entries[parent].depth,
        parent + 1 + gone < state.outline.entries.len() ==> state.outline.entries[parent + 1
            + gone].depth <= state.outline.entries[parent].depth,
        state.outline.entries.len() - gone + children.len() <= usize::MAX,
        state.outline.can_replace_children(parent, children.len() as int),
    ensures
        ({
            let after = state.with_answer(parent, children).outline;
            &&& after.selected is Some <==> state.outline.selected is Some
            &&& state.outline.selected matches Some(selected) ==> {
                &&& selected <= parent ==> after.selected->0 == selected
                &&& parent < selected <= parent + gone ==> after.selected->0 == parent
                &&& selected > parent + gone ==> after.selected->0 == selected - gone
                    + children.len()
            }
            &&& position <= parent ==> (after.expanded.contains(position)
                <==> state.outline.expanded.contains(position))
            &&& parent < position <= parent + children.len() ==> !after.expanded.contains(position)
            &&& position > parent + gone && position - gone + children.len() <= usize::MAX ==> (
            after.expanded.contains((position - gone + children.len()) as usize)
                <==> state.outline.expanded.contains(position))
        }),
{
    let added = state.child_entries(parent, children);
    expanded_positions_follow_their_entries(state.outline, parent, gone, added, position);
    selection_follows_its_entry(state.outline, parent, gone, added);
}

/// A new root is all that is listed: it holds the item, stands at the top, is expanded, selected
/// and offered for expansion, and stands for no call. The request for its calls is awaited.
pub proof fn new_root_is_all_that_is_listed(
    state: PanelState,
    item: CallHierarchyItem,
    buffer: EntityId,
    direction: CallDirection,
    position: usize,
)
    ensures
        ({
            let after = state.with_root(item, buffer, direction);
            let entries = after.outline.entries;
            &&& after.root == Some(item)
            &&& after.root_buffer == Some(buffer)
            &&& after.direction == direction
            &&& entries.len() == 1
            &&& entries[0].item == item
            &&& entries[0].from_ranges.len() == 0
            &&& entries[0].depth == 0
            &&& entries[0].has_children
            &&& entries[0].node_index == 0
            &&& after.outline.expanded.contains(position) <==> position == 0
            &&& after.outline.selected == Some(0usize)
            &&& after.pending_load == Some(0usize)
        }),
{
}

/// Clearing leaves nothing listed, marked, awaited or remembered. The direction stays.
pub proof fn clearing_leaves_nothing(state: PanelState, position: usize)
    ensures
        ({
            let after = state.cleared();
            &&& after.root is None
            &&& after.root_buffer is None
            &&& after.outline.entries.len() == 0
            &&& !after.outline.expanded.contains(position)
            &&& after.outline.selected is None
            &&& after.pending_load is None
            &&& after.direction == state.direction
        }),
{
}

/// An entry leads to the file that its URI names, to the start of its symbol's name, whatever
/// calls it stands for, and in no pane in particular. It leads nowhere where the URI names no
/// file, and so does an entry that is not listed.
pub proof fn entries_lead_to_their_name(state: PanelState, index: int)
    requires
        0 <= index,
    ensures
        index >= state.outline.entries.len() ==> state.target_of(index) is None,
        index < state.outline.entries.len() ==> ({
            let item = state.outline.entries[index].item;
            &&& state.target_of(index) is Some <==> file_path_of_uri(item.uri@) is Some
            &&& state.target_of(index) matches Some(target) ==> {
                &&& Some(target.path) == file_path_of_uri(item.uri@)
                &&& target.row == item.selection_range.start.line
                &&& target.column == item.selection_range.start.character
                &&& target.pane is None
            }
        }),
{
}

/// The panel that is open is activated, and focused unless it is active already. Otherwise a new
/// one goes into the pane on the right, or into one split off where there is none.
pub proof fn panels_are_opened_once(
    existing: EntityId,
    active_item: Option<EntityId>,
    has_right_pane: bool,
)
    ensures
        placement(Some(existing), active_item, has_right_pane) is Activate,
        placement(Some(existing), active_item, has_right_pane)->Activate_view == existing,
        placement(Some(existing), active_item, has_right_pane)->Activate_focus <==> active_item
            != Some(existing),
        has_right_pane ==> placement(None, active_item, has_right_pane) is AddToRightPane,
        !has_right_pane ==> placement(None, active_item, has_right_pane) is SplitRight,
{
}

} // verus!

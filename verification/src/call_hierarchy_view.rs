//! The call hierarchy as a view in the pane on the right. Entries are known by numbers, so that
//! what the server answers late still finds its place, or is dropped where that is gone.
use crate::navigation::{
    activate, activation, first_call, first_call_of, target_in, target_in_document, EntityId,
    NavigationTarget, Placement, ShowCommand,
};
use crate::outline::{
    ancestry, closes_cycle, depth_follows, len_fits, states, EntryState, FlatEntry, Outline,
    OutlineState,
};
use crate::outline_laws::{
    children_entries, children_keep_selection, children_keep_tree, children_layout,
    collapse_is_no_children, collapse_keeps_expanded_in_range, collapse_keeps_tree,
    depth_is_bounded, way_up_is_the_ancestry,
};
use crate::protocol::{CallDirection, CallHierarchyItem, Position, Range};
use crate::rows::{entries_placeholder, entry_rows, header_row, EntryRow, HeaderRow};
use crate::selection::{chosen_index, in_source_file, select_call_hierarchy_item};
use crate::uri::file_path_of_uri;
use crate::view_laws::expanding_asks_for_the_calls;
use std::path::PathBuf;
use vstd::prelude::*;

verus! {

/// A request for the calls of an entry, to be sent to the server.
#[derive(Debug)]
pub struct LoadRequest {
    /// The entry that the answer belongs to.
    pub parent_entry_id: usize,
    pub item: CallHierarchyItem,
    pub buffer: EntityId,
    pub direction: CallDirection,
}

/// What came of toggling an entry.
#[derive(Debug)]
pub enum Toggled {
    Collapsed,
    /// The entry is expanded, and its calls are to be asked for.
    Expanded(Option<LoadRequest>),
}

/// The view.
#[derive(Debug)]
pub struct CallHierarchyView {
    navigation_pane: Option<EntityId>,
    root: Option<CallHierarchyItem>,
    root_buffer: Option<EntityId>,
    outline: Outline<usize>,
    next_entry_id: usize,
    direction: CallDirection,
    pending_loads: Vec<usize>,
}

/// The state of the view.
#[verifier::ext_equal]
pub struct ViewState {
    /// The pane that entries are opened in.
    pub navigation_pane: Option<EntityId>,
    pub root: Option<CallHierarchyItem>,
    pub root_buffer: Option<EntityId>,
    pub outline: OutlineState<usize>,
    /// The number that the next new entry gets.
    pub next_entry_id: usize,
    pub direction: CallDirection,
    /// For each request sent since the results were last cleared the entry that it is about. To
    /// clear this is to withdraw the requests that are still under way.
    pub pending_loads: Seq<usize>,
}

/// Whether the entry at `index` is the first one with number `id`.
pub open spec fn is_first_with_id(
    entries: Seq<EntryState<usize>>,
    id: usize,
    index: int,
) -> bool {
    &&& 0 <= index < entries.len()
    &&& entries[index].entry_id == id
    &&& forall|i: int| 0 <= i < index ==> (#[trigger] entries[i]).entry_id != id
}

/// The position of the first entry with number `id`.
pub open spec fn index_of_id(entries: Seq<EntryState<usize>>, id: usize) -> Option<int> {
    if exists|index: int| is_first_with_id(entries, id, index) {
        Some(choose|index: int| is_first_with_id(entries, id, index))
    } else {
        None
    }
}

/// The number `k` places after `id`, or the greatest there is where that is passed.
pub open spec fn id_after(id: usize, k: int) -> usize {
    if id + k <= usize::MAX {
        (id + k) as usize
    } else {
        usize::MAX
    }
}

impl ViewState {
    /// What holds of every state: the entries are a tree with the root at its top, what is
    /// expanded and what is selected is in the list, and entries bear different numbers, all
    /// given out already. Only the greatest number may be borne by several, once it is reached.
    pub open spec fn well_formed(self) -> bool {
        &&& self.outline.is_tree()
        &&& self.outline.selection_in_range()
        &&& self.outline.expanded_in_range()
        &&& self.root_on_top()
        &&& self.ids_told_apart()
    }

    pub open spec fn root_on_top(self) -> bool {
        if self.outline.entries.len() == 0 {
            self.root is None && self.root_buffer is None
        } else {
            self.root == Some(self.outline.entries[0].item) && self.root_buffer is Some
        }
    }

    /// Whether `id` is among the numbers given out: it is less than the next one, which is the
    /// greatest there is once that is reached.
    pub open spec fn is_given_out(self, id: usize) -> bool {
        id < self.next_entry_id || self.next_entry_id == usize::MAX
    }

    pub open spec fn ids_told_apart(self) -> bool {
        &&& forall|i: int|
            0 <= i < self.outline.entries.len() ==> self.is_given_out(
                (#[trigger] self.outline.entries[i]).entry_id,
            )
        &&& forall|i: int, j: int|
            0 <= i < j < self.outline.entries.len() && (
            #[trigger] self.outline.entries[i]).entry_id < usize::MAX
                ==> self.outline.entries[i].entry_id != (
            #[trigger] self.outline.entries[j]).entry_id
        &&& forall|i: int|
            0 <= i < self.pending_loads.len() ==> self.is_given_out(
                #[trigger] self.pending_loads[i],
            )
    }

    /// The state with all results gone.
    pub open spec fn cleared(self) -> Self {
        ViewState {
            root: None,
            root_buffer: None,
            outline: OutlineState {
                entries: Seq::empty(),
                expanded: Set::empty(),
                selected: None,
            },
            next_entry_id: 0,
            pending_loads: Seq::empty(),
            ..self
        }
    }

    /// The request that `load_children` makes for the entry with number `id`: there is one where
    /// there is such an entry and a buffer to ask about.
    pub open spec fn load_request(self, id: usize) -> Option<LoadRequest> {
        match (index_of_id(self.outline.entries, id), self.root_buffer) {
            (Some(index), Some(buffer)) => Some(
                LoadRequest {
                    parent_entry_id: id,
                    item: self.outline.entries[index].item,
                    buffer,
                    direction: self.direction,
                },
            ),
            _ => None,
        }
    }

    /// The state after the calls of the entry with number `id` are asked for.
    pub open spec fn loading(self, id: usize) -> Self {
        if self.load_request(id) is Some {
            ViewState { pending_loads: self.pending_loads.push(id), ..self }
        } else {
            self
        }
    }

    /// The state with `item` as the root and nothing below it, before its calls are asked for.
    pub open spec fn rooted(
        self,
        item: CallHierarchyItem,
        buffer: EntityId,
        direction: CallDirection,
    ) -> Self {
        ViewState {
            root: Some(item),
            root_buffer: Some(buffer),
            outline: OutlineState {
                entries: seq![
                    EntryState {
                        entry_id: self.next_entry_id,
                        item,
                        from_ranges: Seq::empty(),
                        depth: 0,
                        has_children: true,
                        node_index: 0,
                    },
                ],
                expanded: set![0usize],
                selected: Some(0usize),
            },
            next_entry_id: id_after(self.next_entry_id, 1),
            direction,
            ..self
        }
    }

    /// The state after `set_root`: the root is put in place and its calls are asked for.
    pub open spec fn with_root(
        self,
        item: CallHierarchyItem,
        buffer: EntityId,
        direction: CallDirection,
    ) -> Self {
        self.rooted(item, buffer, direction).loading(self.next_entry_id)
    }

    /// The entries that `children` become below the entry at `parent_index`. One whose symbol
    /// stands above it already is not offered for expansion.
    pub open spec fn child_entries(
        self,
        parent_index: int,
        children: Seq<(CallHierarchyItem, Vec<Range>)>,
    ) -> Seq<EntryState<usize>> {
        Seq::new(
            children.len(),
            |k: int|
                EntryState {
                    entry_id: id_after(self.next_entry_id, k),
                    item: children[k].0,
                    from_ranges: children[k].1@,
                    depth: (self.outline.entries[parent_index].depth + 1) as usize,
                    has_children: !closes_cycle(
                        self.outline.entries,
                        parent_index,
                        children[k].0,
                    ),
                    node_index: 0,
                },
        )
    }

    /// The position of the entry that an answer about entry `id` is to be listed below: it is
    /// still there, and still expanded.
    pub open spec fn awaiting_index(self, id: usize) -> Option<int> {
        match index_of_id(self.outline.entries, id) {
            Some(index) => if self.outline.expanded.contains(index as usize) {
                Some(index)
            } else {
                None
            },
            None => None,
        }
    }

    /// The state after the server answered `children` for the entry with number `id`. An answer
    /// that nothing awaits is dropped. An empty one is noted, and anything else takes the place of
    /// what was listed below the entry.
    pub open spec fn with_answer(
        self,
        id: usize,
        children: Seq<(CallHierarchyItem, Vec<Range>)>,
    ) -> Self {
        match self.awaiting_index(id) {
            None => self,
            Some(index) => if children.len() == 0 {
                ViewState { outline: self.outline.with_childless(index), ..self }
            } else {
                ViewState {
                    outline: self.outline.with_children(
                        index,
                        self.child_entries(index, children),
                    ),
                    next_entry_id: id_after(self.next_entry_id, children.len() as int),
                    ..self
                }
            },
        }
    }

    /// The numbers that the entries get which that answer brings in.
    pub open spec fn answer_ids(
        self,
        id: usize,
        children: Seq<(CallHierarchyItem, Vec<Range>)>,
    ) -> Seq<usize> {
        if self.awaiting_index(id) is Some {
            Seq::new(children.len(), |k: int| id_after(self.next_entry_id, k))
        } else {
            Seq::empty()
        }
    }

    /// The state with the entry at `index` expanded, before its calls are asked for.
    pub open spec fn with_expanded(self, index: int) -> Self {
        ViewState {
            outline: OutlineState {
                expanded: self.outline.expanded.insert(index as usize),
                ..self.outline
            },
            ..self
        }
    }

    /// The state after the entry at `index` is toggled.
    pub open spec fn toggled(self, index: int) -> Self {
        if self.outline.expanded.contains(index as usize) {
            ViewState { outline: self.outline.collapsed(index), ..self }
        } else {
            self.with_expanded(index).loading(self.outline.entries[index].entry_id)
        }
    }

    /// What toggling the entry at `index` comes to.
    pub open spec fn toggle_outcome(self, index: int) -> Toggled {
        if self.outline.expanded.contains(index as usize) {
            Toggled::Collapsed
        } else {
            Toggled::Expanded(self.load_request(self.outline.entries[index].entry_id))
        }
    }

    /// Where the entry at `index` leads: to the first call that it stands for.
    pub open spec fn target_of(self, index: int) -> Option<NavigationTarget> {
        if index < self.outline.entries.len() {
            target_in(
                file_path_of_uri(self.outline.entries[index].item.uri@),
                first_call(self.outline.entries[index]),
                self.navigation_pane,
            )
        } else {
            None
        }
    }
}

impl View for CallHierarchyView {
    type V = ViewState;

    closed spec fn view(&self) -> ViewState {
        ViewState {
            navigation_pane: self.navigation_pane,
            root: self.root,
            root_buffer: self.root_buffer,
            outline: self.outline@,
            next_entry_id: self.next_entry_id,
            direction: self.direction,
            pending_loads: self.pending_loads@,
        }
    }
}

impl CallHierarchyView {
    /// A view with nothing in it, set to incoming calls.
    pub fn new(navigation_pane: Option<EntityId>) -> (view: Self)
        ensures
            view@.well_formed(),
            view@ == (ViewState {
                navigation_pane,
                root: None,
                root_buffer: None,
                outline: OutlineState {
                    entries: Seq::empty(),
                    expanded: Set::empty(),
                    selected: None,
                },
                next_entry_id: 0,
                direction: CallDirection::Incoming,
                pending_loads: Seq::empty(),
            }),
    {
        CallHierarchyView {
            navigation_pane,
            root: None,
            root_buffer: None,
            outline: Outline::new(),
            next_entry_id: 0,
            direction: CallDirection::Incoming,
            pending_loads: Vec::new(),
        }
    }

    /// Takes all results out, and withdraws the requests under way.
    pub fn clear_results(&mut self)
        ensures
            final(self)@ == old(self)@.cleared(),
            final(self)@.well_formed(),
    {
        self.root = None;
        self.root_buffer = None;
        self.outline.clear();
        self.next_entry_id = 0;
        self.pending_loads.clear();
    }

    /// Gives out a new number: one more than the last, until the numbers are used up.
    pub fn new_entry_id(&mut self) -> (entry_id: usize)
        ensures
            entry_id == old(self)@.next_entry_id,
            old(self)@.well_formed() ==> final(self)@.well_formed(),
            final(self)@ == (ViewState {
                next_entry_id: id_after(old(self)@.next_entry_id, 1),
                ..old(self)@
            }),
    {
        let entry_id: usize = self.next_entry_id;
        self.next_entry_id = self.next_entry_id.saturating_add(1);
        entry_id
    }

    /// The position of the first entry with number `entry_id`.
    pub fn entry_index_by_id(&self, entry_id: usize) -> (found: Option<usize>)
        ensures
            found is None ==> forall|i: int|
                0 <= i < self@.outline.entries.len() ==> (
                #[trigger] self@.outline.entries[i]).entry_id != entry_id,
            found matches Some(index) ==> {
                &&& self@.outline.entries[index as int].entry_id == entry_id
                &&& forall|i: int|
                    0 <= i < index ==> (#[trigger] self@.outline.entries[i]).entry_id != entry_id
            },
            found is Some <==> index_of_id(self@.outline.entries, entry_id) is Some,
            found matches Some(index) ==> {
                &&& index < self@.outline.entries.len()
                &&& index_of_id(self@.outline.entries, entry_id) == Some(index as int)
            },
    {
        let ghost entries = self@.outline.entries;
        let len: usize = self.outline.len();
        let mut index: usize = 0;
        while index < len
            invariant
                entries == self.outline@.entries,
                index <= len == entries.len(),
                forall|i: int| 0 <= i < index ==> (#[trigger] entries[i]).entry_id != entry_id,
            decreases len - index,
        {
            if let Some(entry) = self.outline.entry(index) {
                if entry.entry_id == entry_id {
                    proof {
                        assert(is_first_with_id(entries, entry_id, index as int));
                        let chosen = choose|i: int| is_first_with_id(entries, entry_id, i);
                        first_with_id_is_unique(entries, entry_id, index as int, chosen);
                    }
                    return Some(index);
                }
            }
            index = index + 1;
        }
        None
    }

    /// Asks for the calls of the entry with number `parent_entry_id`, in the direction that the
    /// view is set to.
    pub fn load_children(&mut self, parent_entry_id: usize) -> (request: Option<LoadRequest>)
        requires
            old(self)@.well_formed(),
        ensures
            request matches Some(asked) ==> {
                &&& asked.parent_entry_id == parent_entry_id
                &&& asked.direction == old(self)@.direction
                &&& Some(asked.buffer) == old(self)@.root_buffer
                &&& exists|index: int|
                    0 <= index < old(self)@.outline.entries.len() && (
                    #[trigger] old(self)@.outline.entries[index]).entry_id == parent_entry_id
                        && old(self)@.outline.entries[index].item == asked.item
            },
            request == old(self)@.load_request(parent_entry_id),
            final(self)@ == old(self)@.loading(parent_entry_id),
            final(self)@.well_formed(),
    {
        let index: usize = match self.entry_index_by_id(parent_entry_id) {
            Some(index) => index,
            None => {
                return None;
            },
        };
        let item: CallHierarchyItem = match self.outline.entry(index) {
            Some(entry) => entry.item.clone(),
            None => {
                return None;
            },
        };
        let buffer: EntityId = match self.root_buffer {
            Some(buffer) => buffer,
            None => {
                return None;
            },
        };
        self.pending_loads.push(parent_entry_id);
        Some(LoadRequest { parent_entry_id, item, buffer, direction: self.direction })
    }

    /// Makes `item` the root, expanded and selected, with nothing below it, and asks for its
    /// calls.
    pub fn set_root(
        &mut self,
        item: CallHierarchyItem,
        buffer: EntityId,
        direction: CallDirection,
    ) -> (request: Option<LoadRequest>)
        requires
            old(self)@.well_formed(),
        ensures
            request == Some(
                LoadRequest {
                    parent_entry_id: old(self)@.next_entry_id,
                    item,
                    buffer,
                    direction,
                },
            ),
            final(self)@ == old(self)@.with_root(item, buffer, direction),
            final(self)@.well_formed(),
    {
        let root_entry_id: usize = self.new_entry_id();
        self.root = Some(item.clone());
        self.root_buffer = Some(buffer);
        self.direction = direction;
        self.outline.show_root(
            FlatEntry {
                entry_id: root_entry_id,
                item,
                from_ranges: Vec::new(),
                depth: 0,
                has_children: true,
                node_index: 0,
            },
        );
        proof {
            assert(self@ =~= old(self)@.rooted(item, buffer, direction));
            assert(is_first_with_id(self@.outline.entries, root_entry_id, 0));
            let chosen = choose|i: int| is_first_with_id(self@.outline.entries, root_entry_id, i);
            first_with_id_is_unique(self@.outline.entries, root_entry_id, 0, chosen);
        }
        self.load_children(root_entry_id)
    }

    /// For each of `children` whether its symbol stands above it already, were it listed below
    /// the entry at `parent_index`.
    fn cycles(
        &self,
        parent_index: usize,
        children: &Vec<(CallHierarchyItem, Vec<Range>)>,
    ) -> (cycles: Vec<bool>)
        requires
            self@.outline.is_tree(),
            parent_index < self@.outline.entries.len(),
        ensures
            cycles@.len() == children@.len(),
            forall|k: int|
                0 <= k < cycles@.len() ==> #[trigger] cycles@[k] == closes_cycle(
                    self@.outline.entries,
                    parent_index as int,
                    children@[k].0,
                ),
    {
        let ghost entries = self@.outline.entries;
        let ancestors = self.outline.ancestor_items(parent_index);
        let ghost above = ancestry(entries, parent_index as int);
        proof {
            way_up_is_the_ancestry(entries, parent_index as int);
        }
        let mut cycles: Vec<bool> = Vec::new();
        let mut k: usize = 0;
        while k < children.len()
            invariant
                k <= children.len(),
                cycles@.len() == k,
                above == ancestry(entries, parent_index as int),
                ancestors@.len() == above.len(),
                forall|a: int|
                    0 <= a < ancestors@.len() ==> *(#[trigger] ancestors@[a])
                        == entries[above[a]].item,
                forall|i: int|
                    0 <= i < k ==> #[trigger] cycles@[i] == closes_cycle(
                        entries,
                        parent_index as int,
                        children@[i].0,
                    ),
            decreases children.len() - k,
        {
            let item = &children[k].0;
            let mut is_cycle: bool = false;
            let mut a: usize = 0;
            while a < ancestors.len()
                invariant
                    a <= ancestors.len(),
                    ancestors@.len() == above.len(),
                    forall|b: int|
                        0 <= b < ancestors@.len() ==> *(#[trigger] ancestors@[b])
                            == entries[above[b]].item,
                    is_cycle <==> exists|b: int|
                        0 <= b < a && (#[trigger] entries[above[b]]).item.same_symbol(*item),
                decreases ancestors.len() - a,
            {
                if ancestors[a].is_same_symbol(item) {
                    is_cycle = true;
                    assert(entries[above[a as int]].item.same_symbol(*item));
                }
                a = a + 1;
            }
            cycles.push(is_cycle);
            k = k + 1;
        }
        cycles
    }

    /// Takes in what the server answered for the entry with number `parent_entry_id`, and returns
    /// the numbers of the entries that came in.
    pub fn insert_children(
        &mut self,
        parent_entry_id: usize,
        children: Vec<(CallHierarchyItem, Vec<Range>)>,
    ) -> (inserted_entry_ids: Vec<usize>)
        requires
            old(self)@.well_formed(),
        ensures
            final(self)@ == old(self)@.with_answer(parent_entry_id, children@),
            inserted_entry_ids@ == old(self)@.answer_ids(parent_entry_id, children@),
            old(self)@.awaiting_index(parent_entry_id) matches Some(parent) ==> forall|k: int|
                0 <= k < children@.len() ==> {
                    &&& (#[trigger] children@[k]).0
                        == final(self)@.outline.entries[parent + 1 + k].item
                    &&& children@[k].1@
                        == final(self)@.outline.entries[parent + 1 + k].from_ranges
                },
            final(self)@.well_formed(),
    {
        let parent_index: usize = match self.entry_index_by_id(parent_entry_id) {
            Some(index) => index,
            None => {
                return Vec::new();
            },
        };
        if !self.outline.is_expanded(parent_index) {
            return Vec::new();
        }
        let ghost before = self@;
        let ghost brought = children@;
        let ghost p = parent_index as int;
        if children.len() == 0 {
            self.outline.mark_childless(parent_index);
            proof {
                len_fits(&self.outline);
                answer_keeps_well_formed(before, parent_entry_id, brought);
            }
            return Vec::new();
        }
        proof {
            len_fits(&self.outline);
            depth_is_bounded(before.outline, p);
        }
        let child_depth: usize = match self.outline.entry(parent_index) {
            Some(entry) => entry.depth + 1,
            None => 1,
        };
        let cycles = self.cycles(parent_index, &children);
        let mut inserted_entry_ids: Vec<usize> = Vec::new();
        let mut entries_to_insert: Vec<FlatEntry<usize>> = Vec::new();
        for child in iter: children
            invariant
                iter.seq() == brought,
                cycles@.len() == brought.len(),
                child_depth == before.outline.entries[p].depth + 1,
                forall|k: int|
                    0 <= k < cycles@.len() ==> #[trigger] cycles@[k] == closes_cycle(
                        before.outline.entries,
                        p,
                        brought[k].0,
                    ),
                self@ == (ViewState {
                    next_entry_id: id_after(before.next_entry_id, iter.index() as int),
                    ..before
                }),
                inserted_entry_ids@ == Seq::new(
                    iter.index() as nat,
                    |k: int| id_after(before.next_entry_id, k),
                ),
                entries_to_insert@.len() == iter.index(),
                forall|j: int|
                    0 <= j < entries_to_insert@.len() ==> (#[trigger] entries_to_insert@[j])@
                        == before.child_entries(p, brought)[j],
        {
            let k: usize = inserted_entry_ids.len();
            let is_cycle: bool = cycles[k];
            let (item, from_ranges) = child;
            let entry_id: usize = self.new_entry_id();
            inserted_entry_ids.push(entry_id);
            entries_to_insert.push(
                FlatEntry {
                    entry_id,
                    item,
                    from_ranges,
                    depth: child_depth,
                    has_children: !is_cycle,
                    node_index: 0,
                },
            );
            assert(entries_to_insert@[k as int]@ =~= before.child_entries(p, brought)[k as int]);
        }
        assert(states(entries_to_insert@) =~= before.child_entries(p, brought));
        self.outline.replace_children(parent_index, entries_to_insert);
        proof {
            len_fits(&self.outline);
            children_entries(before.outline, p, before.child_entries(p, brought));
            answer_keeps_well_formed(before, parent_entry_id, brought);
        }
        inserted_entry_ids
    }
}

/// How a view is brought up in the pane on the right. `right_pane` holds the views that are open
/// in that pane, where there is such a pane: the last of them is activated.
pub open spec fn placement(right_pane: Option<Seq<EntityId>>, active_item: Option<EntityId>) -> Placement {
    match right_pane {
        Some(views) => if views.len() > 0 {
            activation(views.last(), active_item)
        } else {
            Placement::AddToRightPane
        },
        None => Placement::SplitRight,
    }
}

/// Decides how a view is brought up in the pane on the right.
pub fn open_or_focus_call_hierarchy_view_in_right_pane(
    right_pane: &Option<Vec<EntityId>>,
    active_item: Option<EntityId>,
) -> (placed: Placement)
    ensures
        placed == placement(
            match *right_pane {
                Some(views) => Some(views@),
                None => None,
            },
            active_item,
        ),
{
    match right_pane {
        Some(views) => if views.len() > 0 {
            activate(views[views.len() - 1], active_item)
        } else {
            Placement::AddToRightPane
        },
        None => Placement::SplitRight,
    }
}

impl CallHierarchyView {
    /// Sets the pane that entries are opened in.
    pub fn set_navigation_pane(&mut self, pane: EntityId)
        ensures
            final(self)@ == (ViewState { navigation_pane: Some(pane), ..old(self)@ }),
            old(self)@.well_formed() ==> final(self)@.well_formed(),
    {
        self.navigation_pane = Some(pane);
    }

    /// Takes a command to show the calls of the symbol under the cursor, and returns whether they
    /// are to be looked for: they are if there is an editor with a cursor, and only then the view
    /// is set to the direction that the command names.
    pub fn show(&mut self, command: ShowCommand, has_active_editor: bool) -> (look: bool)
        ensures
            look == has_active_editor,
            final(self)@ == (if has_active_editor {
                ViewState { direction: command.direction(old(self)@.direction), ..old(self)@ }
            } else {
                old(self)@
            }),
            old(self)@.well_formed() ==> final(self)@.well_formed(),
    {
        if has_active_editor {
            self.direction = command.direction_from(self.direction);
        }
        has_active_editor
    }

    /// Takes in the items that the server offers for `position`: the best of them becomes the
    /// root, and where there is none the results are cleared. `direction` is the one that the
    /// view was set to when the server was asked.
    pub fn accept_prepared(
        &mut self,
        items: Vec<CallHierarchyItem>,
        position: Position,
        source_file_path: Option<PathBuf>,
        buffer: EntityId,
        direction: CallDirection,
    ) -> (request: Option<LoadRequest>)
        requires
            old(self)@.well_formed(),
        ensures
            match chosen_index(items@, in_source_file(items@, source_file_path), position) {
                None => {
                    &&& request is None
                    &&& final(self)@ == old(self)@.cleared()
                },
                Some(i) => {
                    &&& request == Some(
                        LoadRequest {
                            parent_entry_id: old(self)@.next_entry_id,
                            item: items@[i],
                            buffer,
                            direction,
                        },
                    )
                    &&& final(self)@ == old(self)@.with_root(items@[i], buffer, direction)
                },
            },
            final(self)@.well_formed(),
    {
        match select_call_hierarchy_item(items, position, source_file_path) {
            None => {
                self.clear_results();
                None
            },
            Some(item) => self.set_root(item, buffer, direction),
        }
    }

    /// Turns the view to `direction`: where it is set to the other one and there is a root, the
    /// calls of the root are listed anew.
    pub fn choose_direction(&mut self, direction: CallDirection) -> (request: Option<LoadRequest>)
        requires
            old(self)@.well_formed(),
        ensures
            if old(self)@.direction != direction && old(self)@.root is Some {
                &&& request == Some(
                    LoadRequest {
                        parent_entry_id: old(self)@.next_entry_id,
                        item: old(self)@.root->0,
                        buffer: old(self)@.root_buffer->0,
                        direction,
                    },
                )
                &&& final(self)@ == old(self)@.with_root(
                    old(self)@.root->0,
                    old(self)@.root_buffer->0,
                    direction,
                )
            } else {
                &&& request is None
                &&& final(self)@ == old(self)@
            },
            final(self)@.well_formed(),
    {
        if self.direction != direction {
            let root: Option<CallHierarchyItem> = match &self.root {
                Some(item) => Some(item.clone()),
                None => None,
            };
            if let (Some(item), Some(buffer)) = (root, self.root_buffer) {
                return self.set_root(item, buffer, direction);
            }
        }
        None
    }

    /// Collapses the entry at `index` if it is expanded, and otherwise expands it and asks for
    /// its calls.
    pub fn toggle_expanded(&mut self, index: usize) -> (toggled: Toggled)
        requires
            old(self)@.well_formed(),
            index < old(self)@.outline.entries.len(),
        ensures
            toggled is Collapsed <==> old(self)@.outline.expanded.contains(index),
            toggled matches Toggled::Expanded(request) ==> {
                &&& request is Some
                &&& request->0.parent_entry_id == old(self)@.outline.entries[index as int].entry_id
                &&& request->0.direction == old(self)@.direction
                &&& Some(request->0.buffer) == old(self)@.root_buffer
                &&& request->0.parent_entry_id < usize::MAX ==> request->0.item
                    == old(self)@.outline.entries[index as int].item
            },
            toggled == old(self)@.toggle_outcome(index as int),
            final(self)@ == old(self)@.toggled(index as int),
            final(self)@.well_formed(),
    {
        let ghost before = self@;
        proof {
            len_fits(&self.outline);
            if !before.outline.expanded.contains(index) {
                expanding_asks_for_the_calls(before, index as int);
            }
        }
        if self.outline.is_expanded(index) {
            self.outline.collapse(index);
            proof {
                collapse_keeps_well_formed(before, index as int);
            }
            Toggled::Collapsed
        } else {
            self.outline.expand(index);
            let entry_id: usize = match self.outline.entry(index) {
                Some(entry) => entry.entry_id,
                None => 0,
            };
            assert(self@ =~= before.with_expanded(index as int));
            Toggled::Expanded(self.load_children(entry_id))
        }
    }

    /// Expands the selected entry, unless it is expanded already.
    pub fn expand_selected_entry(&mut self) -> (toggled: Option<Toggled>)
        requires
            old(self)@.well_formed(),
        ensures
            toggled matches Some(Toggled::Expanded(Some(request))) ==> {
                &&& request.direction == old(self)@.direction
                &&& Some(request.buffer) == old(self)@.root_buffer
                &&& request.parent_entry_id
                    == old(self)@.outline.entries[old(self)@.outline.selected->0 as int].entry_id
                &&& request.parent_entry_id < usize::MAX ==> request.item
                    == old(self)@.outline.entries[old(self)@.outline.selected->0 as int].item
            },
            match old(self)@.outline.selected {
                Some(index) if !old(self)@.outline.expanded.contains(index) => {
                    &&& toggled == Some(old(self)@.toggle_outcome(index as int))
                    &&& final(self)@ == old(self)@.toggled(index as int)
                },
                _ => {
                    &&& toggled is None
                    &&& final(self)@ == old(self)@
                },
            },
            final(self)@.well_formed(),
    {
        if let Some(index) = self.outline.selected_index() {
            if !self.outline.is_expanded(index) {
                return Some(self.toggle_expanded(index));
            }
        }
        None
    }

    /// Collapses the selected entry if it is expanded, and returns whether it was.
    pub fn collapse_selected_entry(&mut self) -> (collapsed: bool)
        requires
            old(self)@.well_formed(),
        ensures
            collapsed == (old(self)@.outline.selected is Some && old(self)@.outline.expanded.contains(
                old(self)@.outline.selected->0,
            )),
            final(self)@ == (if collapsed {
                ViewState {
                    outline: old(self)@.outline.collapsed(old(self)@.outline.selected->0 as int),
                    ..old(self)@
                }
            } else {
                old(self)@
            }),
            final(self)@.well_formed(),
    {
        let ghost before = self@;
        proof {
            len_fits(&self.outline);
        }
        if let Some(index) = self.outline.selected_index() {
            if self.outline.is_expanded(index) {
                self.outline.collapse(index);
                proof {
                    collapse_keeps_well_formed(before, index as int);
                }
                return true;
            }
        }
        false
    }

    /// Selects the entry at `index`, if there is one, and returns whether there is.
    pub fn select_entry(&mut self, index: usize) -> (moved: bool)
        ensures
            moved == (index < old(self)@.outline.entries.len()),
            final(self)@ == (ViewState {
                outline: old(self)@.outline.with_selected(index as int),
                ..old(self)@
            }),
            old(self)@.well_formed() ==> final(self)@.well_formed(),
    {
        self.outline.select_entry(index)
    }

    /// Selects the entry after the selected one, and returns the position to scroll to.
    pub fn select_next(&mut self) -> (selected: Option<usize>)
        requires
            old(self)@.well_formed(),
        ensures
            selected == final(self)@.outline.selected,
            final(self)@ == (ViewState {
                outline: old(self)@.outline.with_selected(old(self)@.outline.next_index()),
                ..old(self)@
            }),
            final(self)@.well_formed(),
    {
        proof {
            len_fits(&self.outline);
        }
        self.outline.select_next()
    }

    /// Selects the entry before the selected one, and returns the position to scroll to.
    pub fn select_previous(&mut self) -> (selected: Option<usize>)
        requires
            old(self)@.well_formed(),
        ensures
            selected == final(self)@.outline.selected,
            final(self)@ == (ViewState {
                outline: old(self)@.outline.with_selected(old(self)@.outline.previous_index()),
                ..old(self)@
            }),
            final(self)@.well_formed(),
    {
        proof {
            len_fits(&self.outline);
        }
        self.outline.select_previous()
    }

    /// Where the entry at `index` leads.
    pub fn navigate_to_entry(&self, index: usize) -> (target: Option<NavigationTarget>)
        ensures
            target == self@.target_of(index as int),
            index >= self@.outline.entries.len() ==> target is None,
            index < self@.outline.entries.len() ==> ({
                let entry = self@.outline.entries[index as int];
                &&& target is Some <==> file_path_of_uri(entry.item.uri@) is Some
                &&& target matches Some(t) ==> {
                    &&& Some(t.path) == file_path_of_uri(entry.item.uri@)
                    &&& t.pane == self@.navigation_pane
                    &&& entry.from_ranges.len() > 0 ==> t.row == entry.from_ranges[0].start.line
                        && t.column == entry.from_ranges[0].start.character
                    &&& entry.from_ranges.len() == 0 ==> t.row
                        == entry.item.selection_range.start.line && t.column
                        == entry.item.selection_range.start.character
                }
            }),
    {
        match self.outline.entry(index) {
            Some(entry) => target_in_document(
                &entry.item,
                first_call_of(entry),
                self.navigation_pane,
            ),
            None => None,
        }
    }

    /// Where the selected entry leads.
    pub fn open_selected_entry(&self) -> (target: Option<NavigationTarget>)
        ensures
            target == (match self@.outline.selected {
                Some(index) => self@.target_of(index as int),
                None => None,
            }),
    {
        match self.outline.selected_index() {
            Some(index) => self.navigate_to_entry(index),
            None => None,
        }
    }

    /// Takes a click on the line at `index`: the entry is selected, and a double click leads to
    /// where it leads.
    pub fn click_entry(&mut self, index: usize, click_count: usize) -> (outcome: (
        bool,
        Option<NavigationTarget>,
    ))
        ensures
            outcome.0 == (index < old(self)@.outline.entries.len()),
            outcome.1 == (if click_count >= 2 {
                old(self)@.target_of(index as int)
            } else {
                None
            }),
            final(self)@ == (ViewState {
                outline: old(self)@.outline.with_selected(index as int),
                ..old(self)@
            }),
            old(self)@.well_formed() ==> final(self)@.well_formed(),
    {
        let moved: bool = self.select_entry(index);
        let target: Option<NavigationTarget> = if click_count >= 2 {
            self.navigate_to_entry(index)
        } else {
            None
        };
        (moved, target)
    }

    /// The lines from position `start` up to and without position `end`.
    pub fn render_entries(&self, start: usize, end: usize) -> (rows: Vec<EntryRow>)
        requires
            start <= end <= self@.outline.entries.len(),
        ensures
            rows@.len() == end - start,
            forall|i: int|
                0 <= i < rows@.len() ==> (#[trigger] rows@[i]).shows(
                    self@.outline,
                    self@.outline.entries[start + i],
                ),
    {
        entry_rows(&self.outline, start, end)
    }

    /// What is shown in the place of the lines where there is no entry.
    pub fn render_placeholder(&self) -> (text: Option<&'static str>)
        ensures
            text is Some <==> self@.outline.entries.len() == 0,
            text matches Some(t) ==> t@ == "No call hierarchy results"@,
    {
        entries_placeholder(&self.outline)
    }

    /// The header.
    pub fn render_header(&self) -> (row: HeaderRow)
        ensures
            row.shows(self@.direction, self@.root),
    {
        header_row(self.direction, &self.root)
    }

    /// The number of entries listed.
    pub fn len(&self) -> (len: usize)
        ensures
            len == self@.outline.entries.len(),
    {
        self.outline.len()
    }

    /// The entry at `index`.
    pub fn entry(&self, index: usize) -> (entry: Option<&FlatEntry<usize>>)
        ensures
            entry is Some <==> index < self@.outline.entries.len(),
            entry matches Some(e) ==> e@ == self@.outline.entries[index as int],
    {
        self.outline.entry(index)
    }

    /// Whether the entry at `index` is expanded.
    pub fn is_expanded(&self, index: usize) -> (expanded: bool)
        ensures
            expanded == self@.outline.expanded.contains(index),
    {
        self.outline.is_expanded(index)
    }

    /// The position of the selected entry.
    pub fn selected_index(&self) -> (selected: Option<usize>)
        ensures
            selected == self@.outline.selected,
    {
        self.outline.selected_index()
    }

    /// The direction that the view is set to.
    pub fn direction(&self) -> (direction: CallDirection)
        ensures
            direction == self@.direction,
    {
        self.direction
    }

    /// The pane that entries are opened in.
    pub fn navigation_pane(&self) -> (pane: Option<EntityId>)
        ensures
            pane == self@.navigation_pane,
    {
        self.navigation_pane
    }

    /// How many requests were sent since the results were last cleared.
    pub fn pending_load_count(&self) -> (count: usize)
        ensures
            count == self@.pending_loads.len(),
    {
        self.pending_loads.len()
    }
}

/// Collapsing an entry leaves the state well-formed.
pub proof fn collapse_keeps_well_formed(state: ViewState, index: int)
    requires
        state.well_formed(),
        0 <= index < state.outline.entries.len() <= usize::MAX,
    ensures
        (ViewState { outline: state.outline.collapsed(index), ..state }).well_formed(),
{
    let folded = OutlineState {
        expanded: state.outline.expanded.remove(index as usize),
        ..state.outline
    };
    let none = Seq::<EntryState<usize>>::empty();
    collapse_keeps_tree(state.outline, index);
    collapse_keeps_expanded_in_range(state.outline, index);
    collapse_is_no_children(state.outline, index);
    children_entries(folded, index, none);
}

/// There is only one first entry with a number.
pub proof fn first_with_id_is_unique(
    entries: Seq<EntryState<usize>>,
    id: usize,
    a: int,
    b: int,
)
    requires
        is_first_with_id(entries, id, a),
        is_first_with_id(entries, id, b),
    ensures
        a == b,
{
    if a < b {
        assert(entries[a].entry_id != id);
    } else if b < a {
        assert(entries[b].entry_id != id);
    }
}

/// An answer that brings entries in leaves the numbers told apart.
proof fn lemma_answer_keeps_ids(
    state: ViewState,
    parent: int,
    children: Seq<(CallHierarchyItem, Vec<Range>)>,
    after: ViewState,
)
    requires
        state.ids_told_apart(),
        0 <= parent < state.outline.entries.len(),
        after == (ViewState {
            outline: state.outline.with_children(parent, state.child_entries(parent, children)),
            next_entry_id: id_after(state.next_entry_id, children.len() as int),
            ..state
        }),
    ensures
        after.ids_told_apart(),
{
    let added = state.child_entries(parent, children);
    let before = state.outline.entries;
    let listed = after.outline.entries;
    let gone = state.outline.descendant_count(parent) as int;
    let n = children.len() as int;
    children_entries(state.outline, parent, added);
    assert forall|i: int| 0 <= i < listed.len() implies (#[trigger] listed[i]).entry_id == (
    if i <= parent {
        before[i].entry_id
    } else if i <= parent + n {
        id_after(state.next_entry_id, i - parent - 1)
    } else {
        before[i - n + gone].entry_id
    }) by {
    }
    assert forall|i: int, j: int|
        0 <= i < j < listed.len() && (#[trigger] listed[i]).entry_id
            < usize::MAX implies listed[i].entry_id != (#[trigger] listed[j]).entry_id by {
        let a = if i <= parent {
            i
        } else {
            i - n + gone
        };
        let b = if j <= parent {
            j
        } else {
            j - n + gone
        };
        let i_is_new = parent < i <= parent + n;
        let j_is_new = parent < j <= parent + n;
        if !i_is_new && !j_is_new {
            assert(before[a].entry_id != before[b].entry_id);
        } else if !i_is_new {
            assert(state.is_given_out(before[a].entry_id));
        } else if !j_is_new {
            assert(state.is_given_out(before[b].entry_id));
        }
    }
    assert forall|i: int| 0 <= i < listed.len() implies after.is_given_out(
        (#[trigger] listed[i]).entry_id,
    ) by {
        if i <= parent {
            assert(state.is_given_out(before[i].entry_id));
        } else if i > parent + n {
            assert(state.is_given_out(before[i - n + gone].entry_id));
        }
    }
    assert forall|i: int| 0 <= i < after.pending_loads.len() implies after.is_given_out(
        #[trigger] after.pending_loads[i],
    ) by {
        assert(state.is_given_out(state.pending_loads[i]));
    }
}

/// An answer of the server leaves the state well-formed.
pub proof fn answer_keeps_well_formed(
    state: ViewState,
    id: usize,
    children: Seq<(CallHierarchyItem, Vec<Range>)>,
)
    requires
        state.well_formed(),
        state.outline.entries.len() <= usize::MAX,
        state.with_answer(id, children).outline.entries.len() <= usize::MAX,
    ensures
        state.with_answer(id, children).well_formed(),
{
    let after = state.with_answer(id, children);
    if let Some(p) = state.awaiting_index(id) {
        let before = state.outline;
        assert(is_first_with_id(before.entries, id, p));
        if children.len() == 0 {
            assert forall|i: int| 0 < i < after.outline.entries.len() implies #[trigger]
                depth_follows(after.outline.entries, i) by {
                assert(depth_follows(before.entries, i));
            }
        } else {
            let added = state.child_entries(p, children);
            depth_is_bounded(before, p);
            children_entries(before, p, added);
            children_layout(before, p, added);
            children_keep_tree(before, p, added);
            children_keep_selection(before, p, added);
            lemma_answer_keeps_ids(state, p, children, after);
        }
    }
}

} // verus!

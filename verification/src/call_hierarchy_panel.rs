//! The call hierarchy as a panel, of which there is one in a workspace. Entries are known by
//! their position, and only the request sent last is awaited.
use crate::navigation::{
    activate, activation, target_in, target_in_document, EntityId, NavigationTarget, Placement,
    ShowCommand,
};
use crate::outline::{len_fits, states, EntryState, FlatEntry, Outline, OutlineState};
use crate::outline_laws::{
    children_entries, children_keep_selection, children_keep_tree, collapse_is_no_children,
    collapse_keeps_tree, depth_is_bounded,
};
use crate::protocol::{CallDirection, CallHierarchyItem, Range};
use crate::rows::{entries_placeholder, entry_rows, header_row, EntryRow, HeaderRow};
use crate::uri::file_path_of_uri;
use vstd::prelude::*;

verus! {

/// A request for the calls of an entry, to be sent to the server.
#[derive(Debug)]
pub struct LoadRequest {
    /// The position of the entry that the answer belongs to.
    pub entry_index: usize,
    pub item: CallHierarchyItem,
    pub buffer: EntityId,
    pub direction: CallDirection,
}

/// What came of toggling an entry.
#[derive(Debug)]
pub enum Toggled {
    Collapsed,
    /// The entry is expanded, and its calls are to be asked for.
    Expanded(Option<LoadRequest>),
}

/// The panel.
#[derive(Debug)]
pub struct CallHierarchyView {
    root: Option<CallHierarchyItem>,
    root_buffer: Option<EntityId>,
    outline: Outline<()>,
    direction: CallDirection,
    pending_load: Option<usize>,
}

/// The state of the panel.
#[verifier::ext_equal]
pub struct PanelState {
    pub root: Option<CallHierarchyItem>,
    pub root_buffer: Option<EntityId>,
    pub outline: OutlineState<()>,
    pub direction: CallDirection,
    /// The position of the entry that the awaited request is about. To put another one here is to
    /// withdraw the request that was awaited before.
    pub pending_load: Option<usize>,
}

impl PanelState {
    /// What holds of every state: the entries are a tree with the root at its top, and what is
    /// selected is in the list.
    pub open spec fn well_formed(self) -> bool {
        &&& self.outline.is_tree()
        &&& self.outline.selection_in_range()
        &&& self.root_on_top()
    }

    pub open spec fn root_on_top(self) -> bool {
        if self.outline.entries.len() == 0 {
            self.root is None && self.root_buffer is None
        } else {
            self.root == Some(self.outline.entries[0].item) && self.root_buffer is Some
        }
    }

    /// The state with all results gone.
    pub open spec fn cleared(self) -> Self {
        PanelState {
            root: None,
            root_buffer: None,
            outline: OutlineState {
                entries: Seq::empty(),
                expanded: Set::empty(),
                selected: None,
            },
            pending_load: None,
            ..self
        }
    }

    /// The request that `load_children` makes for the entry at `index`: there is one where there
    /// is such an entry and a buffer to ask about.
    pub open spec fn load_request(self, index: int) -> Option<LoadRequest> {
        match self.root_buffer {
            Some(buffer) if index < self.outline.entries.len() => Some(
                LoadRequest {
                    entry_index: index as usize,
                    item: self.outline.entries[index].item,
                    buffer,
                    direction: self.direction,
                },
            ),
            _ => None,
        }
    }

    /// The state after the calls of the entry at `index` are asked for.
    pub open spec fn loading(self, index: int) -> Self {
        if self.load_request(index) is Some {
            PanelState { pending_load: Some(index as usize), ..self }
        } else {
            self
        }
    }

    /// The state after `item` is made the root, with nothing below it, and its calls are asked
    /// for.
    pub open spec fn with_root(
        self,
        item: CallHierarchyItem,
        buffer: EntityId,
        direction: CallDirection,
    ) -> Self {
        PanelState {
            root: Some(item),
            root_buffer: Some(buffer),
            outline: OutlineState {
                entries: seq![
                    EntryState {
                        entry_id: (),
                        item,
                        from_ranges: Seq::empty(),
                        depth: 0,
                        has_children: true,
                        node_index: 0,
                    },
                ],
                expanded: set![0usize],
                selected: Some(0usize),
            },
            direction,
            pending_load: Some(0usize),
        }
    }

    /// The entries that `children` become below the entry at `parent_index`.
    pub open spec fn child_entries(
        self,
        parent_index: int,
        children: Seq<(CallHierarchyItem, Vec<Range>)>,
    ) -> Seq<EntryState<()>> {
        Seq::new(
            children.len(),
            |k: int|
                EntryState {
                    entry_id: (),
                    item: children[k].0,
                    from_ranges: children[k].1@,
                    depth: (self.outline.entries[parent_index].depth + 1) as usize,
                    has_children: true,
                    node_index: 0,
                },
        )
    }

    /// The state after the server answered `children` for the entry at `index`: they take the
    /// place of what was listed below it.
    pub open spec fn with_answer(
        self,
        index: int,
        children: Seq<(CallHierarchyItem, Vec<Range>)>,
    ) -> Self {
        PanelState {
            outline: self.outline.with_children(index, self.child_entries(index, children)),
            ..self
        }
    }

    /// The state with the entry at `index` expanded, before its calls are asked for.
    pub open spec fn with_expanded(self, index: int) -> Self {
        PanelState {
            outline: OutlineState {
                expanded: self.outline.expanded.insert(index as usize),
                ..self.outline
            },
            ..self
        }
    }

    /// The state after the entry at `index` is toggled.
    pub open spec fn toggled(self, index: int) -> Self {
        if self.outline.expanded.contains(index as usize) {
            PanelState { outline: self.outline.collapsed(index), ..self }
        } else {
            self.with_expanded(index).loading(index)
        }
    }

    /// What toggling the entry at `index` comes to.
    pub open spec fn toggle_outcome(self, index: int) -> Toggled {
        if self.outline.expanded.contains(index as usize) {
            Toggled::Collapsed
        } else {
            Toggled::Expanded(self.load_request(index))
        }
    }

    /// Where the entry at `index` leads: to the name of its symbol.
    pub open spec fn target_of(self, index: int) -> Option<NavigationTarget> {
        if index < self.outline.entries.len() {
            target_in(
                file_path_of_uri(self.outline.entries[index].item.uri@),
                self.outline.entries[index].item.selection_range.start,
                None,
            )
        } else {
            None
        }
    }
}

impl View for CallHierarchyView {
    type V = PanelState;

    closed spec fn view(&self) -> PanelState {
        PanelState {
            root: self.root,
            root_buffer: self.root_buffer,
            outline: self.outline@,
            direction: self.direction,
            pending_load: self.pending_load,
        }
    }
}

/// How the panel is brought up: the one that is open is activated, and else a new one goes into
/// the pane on the right, or into one split off.
pub open spec fn placement(
    existing: Option<EntityId>,
    active_item: Option<EntityId>,
    has_right_pane: bool,
) -> Placement {
    match existing {
        Some(view) => activation(view, active_item),
        None => if has_right_pane {
            Placement::AddToRightPane
        } else {
            Placement::SplitRight
        },
    }
}

/// Decides how the panel is brought up.
pub fn open_or_focus_call_hierarchy_view(
    existing: Option<EntityId>,
    active_item: Option<EntityId>,
    has_right_pane: bool,
) -> (placed: Placement)
    ensures
        placed == placement(existing, active_item, has_right_pane),
{
    match existing {
        Some(view) => activate(view, active_item),
        None => if has_right_pane {
            Placement::AddToRightPane
        } else {
            Placement::SplitRight
        },
    }
}

impl CallHierarchyView {
    /// A panel with nothing in it, set to incoming calls.
    pub fn new() -> (view: Self)
        ensures
            view@.well_formed(),
            view@ == (PanelState {
                root: None,
                root_buffer: None,
                outline: OutlineState {
                    entries: Seq::empty(),
                    expanded: Set::empty(),
                    selected: None,
                },
                direction: CallDirection::Incoming,
                pending_load: None,
            }),
    {
        CallHierarchyView {
            root: None,
            root_buffer: None,
            outline: Outline::new(),
            direction: CallDirection::Incoming,
            pending_load: None,
        }
    }

    /// Takes all results out, and withdraws the request under way.
    pub fn clear_results(&mut self)
        ensures
            final(self)@ == old(self)@.cleared(),
            final(self)@.well_formed(),
    {
        self.root = None;
        self.root_buffer = None;
        self.outline.clear();
        self.pending_load = None;
    }

    /// Asks for the calls of the entry at `entry_index`, in the direction that the panel is set
    /// to. The request that was awaited before is withdrawn.
    pub fn load_children(&mut self, entry_index: usize) -> (request: Option<LoadRequest>)
        ensures
            request is Some <==> entry_index < old(self)@.outline.entries.len()
                && old(self)@.root_buffer is Some,
            request matches Some(asked) ==> {
                &&& asked.entry_index == entry_index
                &&& asked.direction == old(self)@.direction
                &&& Some(asked.buffer) == old(self)@.root_buffer
                &&& asked.item == old(self)@.outline.entries[entry_index as int].item
            },
            request == old(self)@.load_request(entry_index as int),
            final(self)@ == old(self)@.loading(entry_index as int),
            old(self)@.well_formed() ==> final(self)@.well_formed(),
    {
        let item: CallHierarchyItem = match self.outline.entry(entry_index) {
            Some(entry) => entry.item.clone(),
            None => {
                return None;
            },
        };
        let buffer: EntityId = match self.root_buffer {
            Some(buffer) => buffer,
            None => {
                return None;
            },
        };
        self.pending_load = Some(entry_index);
        Some(LoadRequest { entry_index, item, buffer, direction: self.direction })
    }

    /// Makes `item` the root, expanded and selected, with nothing below it, and asks for its
    /// calls.
    pub fn set_root(
        &mut self,
        item: CallHierarchyItem,
        buffer: EntityId,
        direction: CallDirection,
    ) -> (request: Option<LoadRequest>)
        ensures
            request == Some(LoadRequest { entry_index: 0, item, buffer, direction }),
            final(self)@ == old(self)@.with_root(item, buffer, direction),
            final(self)@.well_formed(),
    {
        self.root = Some(item.clone());
        self.root_buffer = Some(buffer);
        self.direction = direction;
        self.outline.show_root(
            FlatEntry {
                entry_id: (),
                item,
                from_ranges: Vec::new(),
                depth: 0,
                has_children: true,
                node_index: 0,
            },
        );
        self.load_children(0)
    }

    /// Whether an answer of `count` calls can be taken in for the entry at `parent_index`: there
    /// is such an entry, and no position marked beyond the end of the list would be moved out of
    /// reach.
    pub fn takes_children(&self, parent_index: usize, count: usize) -> (takes: bool)
        ensures
            takes == (parent_index < self@.outline.entries.len()
                && self@.outline.can_replace_children(parent_index as int, count as int)),
    {
        self.outline.takes_children(parent_index, count)
    }

    /// Takes in what the server answered for the entry at `parent_index`.
    pub fn insert_children(
        &mut self,
        parent_index: usize,
        children: Vec<(CallHierarchyItem, Vec<Range>)>,
    )
        requires
            old(self)@.well_formed(),
            parent_index < old(self)@.outline.entries.len(),
            old(self)@.outline.can_replace_children(parent_index as int, children@.len() as int),
        ensures
            final(self)@ == old(self)@.with_answer(parent_index as int, children@),
            forall|k: int|
                0 <= k < children@.len() ==> {
                    &&& (#[trigger] children@[k]).0
                        == final(self)@.outline.entries[parent_index + 1 + k].item
                    &&& children@[k].1@
                        == final(self)@.outline.entries[parent_index + 1 + k].from_ranges
                },
            final(self)@.well_formed(),
    {
        let ghost before = self@;
        let ghost brought = children@;
        let ghost p = parent_index as int;
        proof {
            len_fits(&self.outline);
            depth_is_bounded(before.outline, p);
        }
        let child_depth: usize = match self.outline.entry(parent_index) {
            Some(entry) => entry.depth + 1,
            None => 1,
        };
        let mut entries_to_insert: Vec<FlatEntry<()>> = Vec::new();
        for child in iter: children
            invariant
                iter.seq() == brought,
                child_depth == before.outline.entries[p].depth + 1,
                entries_to_insert@.len() == iter.index(),
                forall|j: int|
                    0 <= j < entries_to_insert@.len() ==> (#[trigger] entries_to_insert@[j])@
                        == before.child_entries(p, brought)[j],
        {
            let (item, from_ranges) = child;
            entries_to_insert.push(
                FlatEntry {
                    entry_id: (),
                    item,
                    from_ranges,
                    depth: child_depth,
                    has_children: true,
                    node_index: 0,
                },
            );
            assert(entries_to_insert@.last()@ =~= before.child_entries(p, brought)[iter.index()
                as int]);
        }
        assert(states(entries_to_insert@) =~= before.child_entries(p, brought));
        self.outline.replace_children(parent_index, entries_to_insert);
        proof {
            len_fits(&self.outline);
            children_entries(before.outline, p, before.child_entries(p, brought));
            answer_keeps_well_formed(before, p, brought);
        }
    }

    /// Takes a command to show the calls of the symbol under the cursor, and returns whether they
    /// are to be looked for: they are if there is an editor with a cursor. The panel is set to the
    /// direction that the command names in any case.
    pub fn show(&mut self, command: ShowCommand, has_active_editor: bool) -> (look: bool)
        ensures
            look == has_active_editor,
            final(self)@ == (PanelState {
                direction: command.direction(old(self)@.direction),
                ..old(self)@
            }),
            old(self)@.well_formed() ==> final(self)@.well_formed(),
    {
        self.direction = command.direction_from(self.direction);
        has_active_editor
    }

    /// Takes in the items that the server offers: the first of them becomes the root, and where
    /// there is none the results are cleared. `direction` is the one that the panel was set to
    /// when the server was asked.
    pub fn accept_prepared(
        &mut self,
        items: Vec<CallHierarchyItem>,
        buffer: EntityId,
        direction: CallDirection,
    ) -> (request: Option<LoadRequest>)
        ensures
            if items@.len() == 0 {
                &&& request is None
                &&& final(self)@ == old(self)@.cleared()
            } else {
                &&& request == Some(
                    LoadRequest { entry_index: 0, item: items@[0], buffer, direction },
                )
                &&& final(self)@ == old(self)@.with_root(items@[0], buffer, direction)
            },
            final(self)@.well_formed(),
    {
        if items.len() == 0 {
            self.clear_results();
            None
        } else {
            let item: CallHierarchyItem = items[0].clone();
            self.set_root(item, buffer, direction)
        }
    }

    /// Turns the panel to `direction`: where it is set to the other one, it is set to this one,
    /// and the calls of the root, if there is one, are listed anew.
    pub fn choose_direction(&mut self, direction: CallDirection) -> (request: Option<LoadRequest>)
        requires
            old(self)@.well_formed(),
        ensures
            if old(self)@.direction != direction && old(self)@.root is Some {
                &&& request == Some(
                    LoadRequest {
                        entry_index: 0,
                        item: old(self)@.root->0,
                        buffer: old(self)@.root_buffer->0,
                        direction,
                    },
                )
                &&& final(self)@ == old(self)@.with_root(
                    old(self)@.root->0,
                    old(self)@.root_buffer->0,
                    direction,
                )
            } else {
                &&& request is None
                &&& final(self)@ == (PanelState { direction, ..old(self)@ })
            },
            final(self)@.well_formed(),
    {
        if self.direction != direction {
            self.direction = direction;
            let root: Option<CallHierarchyItem> = match &self.root {
                Some(item) => Some(item.clone()),
                None => None,
            };
            if let (Some(item), Some(buffer)) = (root, self.root_buffer) {
                return self.set_root(item, buffer, direction);
            }
        }
        None
    }

    /// Collapses the entry at `index` if it is expanded, and otherwise notes that it is expanded
    /// and asks for its calls, if there is such an entry.
    pub fn toggle_expanded(&mut self, index: usize) -> (toggled: Toggled)
        requires
            old(self)@.well_formed(),
            old(self)@.outline.expanded.contains(index) ==> index < usize::MAX,
        ensures
            toggled is Collapsed <==> old(self)@.outline.expanded.contains(index),
            toggled matches Toggled::Expanded(request) ==> {
                &&& request is Some <==> index < old(self)@.outline.entries.len()
                &&& request matches Some(asked) ==> {
                    &&& asked.entry_index == index
                    &&& asked.direction == old(self)@.direction
                    &&& Some(asked.buffer) == old(self)@.root_buffer
                    &&& asked.item == old(self)@.outline.entries[index as int].item
                }
            },
            toggled == old(self)@.toggle_outcome(index as int),
            final(self)@ == old(self)@.toggled(index as int),
            final(self)@.well_formed(),
    {
        let ghost before = self@;
        proof {
            len_fits(&self.outline);
        }
        if self.outline.is_expanded(index) {
            self.outline.collapse(index);
            proof {
                collapse_keeps_well_formed(before, index as int);
            }
            Toggled::Collapsed
        } else {
            self.outline.expand(index);
            assert(self@ =~= before.with_expanded(index as int));
            Toggled::Expanded(self.load_children(index))
        }
    }

    /// Expands the selected entry, unless it is expanded already.
    pub fn expand_selected_entry(&mut self) -> (toggled: Option<Toggled>)
        requires
            old(self)@.well_formed(),
        ensures
            match old(self)@.outline.selected {
                Some(index) if !old(self)@.outline.expanded.contains(index) => {
                    &&& toggled == Some(old(self)@.toggle_outcome(index as int))
                    &&& final(self)@ == old(self)@.toggled(index as int)
                },
                _ => {
                    &&& toggled is None
                    &&& final(self)@ == old(self)@
                },
            },
            final(self)@.well_formed(),
    {
        if let Some(index) = self.outline.selected_index() {
            if !self.outline.is_expanded(index) {
                return Some(self.toggle_expanded(index));
            }
        }
        None
    }

    /// Collapses the selected entry if it is expanded, and returns whether it was.
    pub fn collapse_selected_entry(&mut self) -> (collapsed: bool)
        requires
            old(self)@.well_formed(),
        ensures
            collapsed == (old(self)@.outline.selected is Some && old(self)@.outline.expanded.contains(
                old(self)@.outline.selected->0,
            )),
            final(self)@ == (if collapsed {
                PanelState {
                    outline: old(self)@.outline.collapsed(old(self)@.outline.selected->0 as int),
                    ..old(self)@
                }
            } else {
                old(self)@
            }),
            final(self)@.well_formed(),
    {
        let ghost before = self@;
        proof {
            len_fits(&self.outline);
        }
        if let Some(index) = self.outline.selected_index() {
            if self.outline.is_expanded(index) {
                self.outline.collapse(index);
                proof {
                    collapse_keeps_well_formed(before, index as int);
                }
                return true;
            }
        }
        false
    }

    /// Selects the entry at `index`, if there is one, and returns whether there is.
    pub fn select_entry(&mut self, index: usize) -> (moved: bool)
        ensures
            moved == (index < old(self)@.outline.entries.len()),
            final(self)@ == (PanelState {
                outline: old(self)@.outline.with_selected(index as int),
                ..old(self)@
            }),
            old(self)@.well_formed() ==> final(self)@.well_formed(),
    {
        self.outline.select_entry(index)
    }

    /// Selects the entry after the selected one, and returns the position to scroll to.
    pub fn select_next(&mut self) -> (selected: Option<usize>)
        requires
            old(self)@.well_formed(),
        ensures
            selected == final(self)@.outline.selected,
            final(self)@ == (PanelState {
                outline: old(self)@.outline.with_selected(old(self)@.outline.next_index()),
                ..old(self)@
            }),
            final(self)@.well_formed(),
    {
        proof {
            len_fits(&self.outline);
        }
        self.outline.select_next()
    }

    /// Selects the entry before the selected one, and returns the position to scroll to.
    pub fn select_previous(&mut self) -> (selected: Option<usize>)
        requires
            old(self)@.well_formed(),
        ensures
            selected == final(self)@.outline.selected,
            final(self)@ == (PanelState {
                outline: old(self)@.outline.with_selected(old(self)@.outline.previous_index()),
                ..old(self)@
            }),
            final(self)@.well_formed(),
    {
        proof {
            len_fits(&self.outline);
        }
        self.outline.select_previous()
    }

    /// Where the entry at `index` leads.
    pub fn navigate_to_entry(&self, index: usize) -> (target: Option<NavigationTarget>)
        ensures
            target == self@.target_of(index as int),
            index >= self@.outline.entries.len() ==> target is None,
            index < self@.outline.entries.len() ==> ({
                let item = self@.outline.entries[index as int].item;
                &&& target is Some <==> file_path_of_uri(item.uri@) is Some
                &&& target matches Some(t) ==> {
                    &&& Some(t.path) == file_path_of_uri(item.uri@)
                    &&& t.row == item.selection_range.start.line
                    &&& t.column == item.selection_range.start.character
                    &&& t.pane is None
                }
            }),
    {
        match self.outline.entry(index) {
            Some(entry) => target_in_document(&entry.item, entry.item.selection_range.start, None),
            None => None,
        }
    }

    /// Where the selected entry leads.
    pub fn open_selected_entry(&self) -> (target: Option<NavigationTarget>)
        ensures
            target == (match self@.outline.selected {
                Some(index) => self@.target_of(index as int),
                None => None,
            }),
    {
        match self.outline.selected_index() {
            Some(index) => self.navigate_to_entry(index),
            None => None,
        }
    }

    /// Takes a click on the line at `index`: the entry is selected, and a double click leads to
    /// where it leads.
    pub fn click_entry(&mut self, index: usize, click_count: usize) -> (outcome: (
        bool,
        Option<NavigationTarget>,
    ))
        ensures
            outcome.0 == (index < old(self)@.outline.entries.len()),
            outcome.1 == (if click_count > 1 {
                old(self)@.target_of(index as int)
            } else {
                None
            }),
            final(self)@ == (PanelState {
                outline: old(self)@.outline.with_selected(index as int),
                ..old(self)@
            }),
            old(self)@.well_formed() ==> final(self)@.well_formed(),
    {
        let moved: bool = self.select_entry(index);
        let target: Option<NavigationTarget> = if click_count > 1 {
            self.navigate_to_entry(index)
        } else {
            None
        };
        (moved, target)
    }

    /// The lines from position `start` up to and without position `end`.
    pub fn render_entries(&self, start: usize, end: usize) -> (rows: Vec<EntryRow>)
        requires
            start <= end <= self@.outline.entries.len(),
        ensures
            rows@.len() == end - start,
            forall|i: int|
                0 <= i < rows@.len() ==> (#[trigger] rows@[i]).shows(
                    self@.outline,
                    self@.outline.entries[start + i],
                ),
    {
        entry_rows(&self.outline, start, end)
    }

    /// What is shown in the place of the lines where there is no entry.
    pub fn render_placeholder(&self) -> (text: Option<&'static str>)
        ensures
            text is Some <==> self@.outline.entries.len() == 0,
            text matches Some(t) ==> t@ == "No call hierarchy results"@,
    {
        entries_placeholder(&self.outline)
    }

    /// The header.
    pub fn render_header(&self) -> (row: HeaderRow)
        ensures
            row.shows(self@.direction, self@.root),
    {
        header_row(self.direction, &self.root)
    }

    /// The number of entries listed.
    pub fn len(&self) -> (len: usize)
        ensures
            len == self@.outline.entries.len(),
    {
        self.outline.len()
    }

    /// The entry at `index`.
    pub fn entry(&self, index: usize) -> (entry: Option<&FlatEntry<()>>)
        ensures
            entry is Some <==> index < self@.outline.entries.len(),
            entry matches Some(e) ==> e@ == self@.outline.entries[index as int],
    {
        self.outline.entry(index)
    }

    /// Whether the entry at `index` is expanded.
    pub fn is_expanded(&self, index: usize) -> (expanded: bool)
        ensures
            expanded == self@.outline.expanded.contains(index),
    {
        self.outline.is_expanded(index)
    }

    /// The position of the selected entry.
    pub fn selected_index(&self) -> (selected: Option<usize>)
        ensures
            selected == self@.outline.selected,
    {
        self.outline.selected_index()
    }

    /// The direction that the panel is set to.
    pub fn direction(&self) -> (direction: CallDirection)
        ensures
            direction == self@.direction,
    {
        self.direction
    }

    /// The position of the entry that the awaited request is about.
    pub fn pending_load(&self) -> (pending: Option<usize>)
        ensures
            pending == self@.pending_load,
    {
        self.pending_load
    }
}

/// An answer of the server leaves the state well-formed.
pub proof fn answer_keeps_well_formed(
    state: PanelState,
    index: int,
    children: Seq<(CallHierarchyItem, Vec<Range>)>,
)
    requires
        state.well_formed(),
        0 <= index < state.outline.entries.len() <= usize::MAX,
        state.with_answer(index, children).outline.entries.len() <= usize::MAX,
    ensures
        state.with_answer(index, children).well_formed(),
{
    let added = state.child_entries(index, children);
    depth_is_bounded(state.outline, index);
    children_entries(state.outline, index, added);
    children_keep_tree(state.outline, index, added);
    children_keep_selection(state.outline, index, added);
}

/// Collapsing an entry leaves the state well-formed, wherever that entry may stand.
pub proof fn collapse_keeps_well_formed(state: PanelState, index: int)
    requires
        state.well_formed(),
        0 <= index,
        state.outline.entries.len() <= usize::MAX,
    ensures
        (PanelState { outline: state.outline.collapsed(index), ..state }).well_formed(),
{
    collapse_keeps_tree(state.outline, index);
    if index < state.outline.entries.len() {
        let folded = OutlineState {
            expanded: state.outline.expanded.remove(index as usize),
            ..state.outline
        };
        collapse_is_no_children(state.outline, index);
        children_entries(folded, index, Seq::empty());
    }
}

} // verus!

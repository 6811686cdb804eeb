//! Where the view is put, and where it leads.
use crate::outline::{EntryState, FlatEntry};
use crate::protocol::{CallDirection, CallHierarchyItem, Position, Range};
use crate::uri::{file_path_of_uri, uri_to_file_path};
use std::path::PathBuf;
use vstd::prelude::*;

verus! {

/// The number by which the editor knows a buffer, a pane or an item of a pane.
#[derive(Clone, Copy, Debug, PartialEq, Eq, Structural)]
pub struct EntityId {
    pub value: u64,
}

/// A place to go to: a file, a position in it, and the pane to open it in, where one is set.
#[derive(Debug)]
pub struct NavigationTarget {
    pub path: PathBuf,
    pub row: u32,
    pub column: u32,
    pub pane: Option<EntityId>,
}

/// The target at `start` in the file `path`. There is none where there is no file.
pub open spec fn target_in(path: Option<PathBuf>, start: Position, pane: Option<EntityId>) -> Option<
    NavigationTarget,
> {
    match path {
        Some(path) => Some(
            NavigationTarget { path, row: start.line, column: start.character, pane },
        ),
        None => None,
    }
}

pub fn target_in_file(path: Option<PathBuf>, start: Position, pane: Option<EntityId>) -> (target:
    Option<NavigationTarget>)
    ensures
        target == target_in(path, start, pane),
        target is Some <==> path is Some,
        target matches Some(t) ==> {
            &&& Some(t.path) == path
            &&& t.row == start.line
            &&& t.column == start.character
            &&& t.pane == pane
        },
{
    match path {
        Some(path) => Some(
            NavigationTarget { path, row: start.line, column: start.character, pane },
        ),
        None => None,
    }
}

/// The target at `start` in the document of an item. There is none where that is no file.
pub fn target_in_document(
    item: &CallHierarchyItem,
    start: Position,
    pane: Option<EntityId>,
) -> (target: Option<NavigationTarget>)
    ensures
        target == target_in(file_path_of_uri(item.uri@), start, pane),
        target is Some <==> file_path_of_uri(item.uri@) is Some,
        target matches Some(t) ==> {
            &&& Some(t.path) == file_path_of_uri(item.uri@)
            &&& t.row == start.line
            &&& t.column == start.character
            &&& t.pane == pane
        },
{
    target_in_file(uri_to_file_path(item.uri.as_str()), start, pane)
}

/// The first call that an entry stands for, or the name of its symbol where it stands for none.
pub open spec fn first_call<Id>(entry: EntryState<Id>) -> Position {
    if entry.from_ranges.len() > 0 {
        entry.from_ranges[0].start
    } else {
        entry.item.selection_range.start
    }
}

pub fn first_call_of<Id>(entry: &FlatEntry<Id>) -> (start: Position)
    ensures
        start == first_call(entry@),
        entry.from_ranges@.len() > 0 ==> start == entry.from_ranges@[0].start,
        entry.from_ranges@.len() == 0 ==> start == entry.item.selection_range.start,
{
    if entry.from_ranges.len() > 0 {
        entry.from_ranges[0].start
    } else {
        entry.item.selection_range.start
    }
}

/// The commands that bring the call hierarchy up for the symbol under the cursor.
#[derive(Clone, Copy, Debug, PartialEq, Eq, Structural)]
pub enum ShowCommand {
    /// In the direction that the view is set to.
    ShowCallHierarchy,
    ShowIncomingCalls,
    ShowOutgoingCalls,
}

impl ShowCommand {
    /// The direction that the view is set to once the command is given.
    pub open spec fn direction(self, current: CallDirection) -> CallDirection {
        match self {
            ShowCommand::ShowCallHierarchy => current,
            ShowCommand::ShowIncomingCalls => CallDirection::Incoming,
            ShowCommand::ShowOutgoingCalls => CallDirection::Outgoing,
        }
    }

    pub fn direction_from(self, current: CallDirection) -> (direction: CallDirection)
        ensures
            direction == self.direction(current),
            self is ShowCallHierarchy ==> direction == current,
            self is ShowIncomingCalls ==> direction is Incoming,
            self is ShowOutgoingCalls ==> direction is Outgoing,
    {
        match self {
            ShowCommand::ShowCallHierarchy => current,
            ShowCommand::ShowIncomingCalls => CallDirection::Incoming,
            ShowCommand::ShowOutgoingCalls => CallDirection::Outgoing,
        }
    }
}

/// How the view is brought up.
#[derive(Clone, Copy, Debug, PartialEq, Eq, Structural)]
pub enum Placement {
    /// A view that is open is activated, and given the focus unless it is the active item already.
    Activate { view: EntityId, focus: bool },
    /// A new view is added to the pane on the right.
    AddToRightPane,
    /// A new view is put into a new pane, split off to the right.
    SplitRight,
}

/// Activates `view`, where `active_item` is the active item.
pub open spec fn activation(view: EntityId, active_item: Option<EntityId>) -> Placement {
    Placement::Activate { view, focus: active_item != Some(view) }
}

pub fn activate(view: EntityId, active_item: Option<EntityId>) -> (placement: Placement)
    ensures
        placement == activation(view, active_item),
        placement is Activate,
        placement->Activate_view == view,
        placement->Activate_focus <==> active_item is None || active_item->0 != view,
{
    let is_active: bool = match active_item {
        Some(item) => item == view,
        None => false,
    };
    Placement::Activate { view, focus: !is_active }
}

/// There is a target just if there is a file: it is in that file, at the line and the character
/// given, for the pane given.
pub proof fn targets_lead_to_the_place_given(
    path: Option<PathBuf>,
    start: Position,
    pane: Option<EntityId>,
)
    ensures
        target_in(path, start, pane) is Some <==> path is Some,
        target_in(path, start, pane) matches Some(target) ==> {
            &&& Some(target.path) == path
            &&& target.row == start.line
            &&& target.column == start.character
            &&& target.pane == pane
        },
{
}

/// The first of the calls that an entry stands for counts, however many follow. Where it stands
/// for none, the start of its symbol's name does.
pub proof fn first_call_counts<Id>(entry: EntryState<Id>, more: Seq<Range>)
    ensures
        entry.from_ranges.len() > 0 ==> first_call(entry) == entry.from_ranges[0].start,
        entry.from_ranges.len() == 0 ==> first_call(entry) == entry.item.selection_range.start,
        entry.from_ranges.len() > 0 ==> first_call(
            EntryState { from_ranges: entry.from_ranges + more, ..entry },
        ) == first_call(entry),
{
}

/// A command that names a direction sets the view to it, whatever it was set to. The one that
/// names none leaves it.
pub proof fn commands_set_their_direction(current: CallDirection)
    ensures
        ShowCommand::ShowIncomingCalls.direction(current) == CallDirection::Incoming,
        ShowCommand::ShowOutgoingCalls.direction(current) == CallDirection::Outgoing,
        ShowCommand::ShowCallHierarchy.direction(current) == current,
{
}

/// What is activated is the view given, and it gets the focus just if it is not the active item
/// already.
pub proof fn active_views_are_not_focused_again(view: EntityId, active_item: Option<EntityId>)
    ensures
        activation(view, active_item) is Activate,
        activation(view, active_item)->Activate_view == view,
        activation(view, active_item)->Activate_focus <==> active_item is None || active_item->0
            != view,
        !activation(view, Some(view))->Activate_focus,
{
}

} // verus!

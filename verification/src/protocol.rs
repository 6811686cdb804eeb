//! What the call hierarchy reads of the language server's messages, as plain values.
use vstd::prelude::*;

verus! {

/// A position in a document: a zero-based line and a zero-based UTF-16 offset in it.
#[derive(Clone, Copy, Debug, PartialEq, Eq, Structural)]
pub struct Position {
    pub line: u32,
    pub character: u32,
}

/// A half-open stretch of a document, from `start` up to and without `end`.
#[derive(Clone, Copy, Debug, PartialEq, Eq, Structural)]
pub struct Range {
    pub start: Position,
    pub end: Position,
}

impl Position {
    /// Whether this position stands before `other`: on an earlier line, or earlier on the same
    /// line.
    pub open spec fn before(self, other: Position) -> bool {
        self.line < other.line || (self.line == other.line && self.character < other.character)
    }

    pub fn is_before(&self, other: &Position) -> (before: bool)
        ensures
            before == self.before(*other),
            self.line < other.line ==> before,
            self.line > other.line ==> !before,
            self.line == other.line ==> before == (self.character < other.character),
    {
        self.line < other.line || (self.line == other.line && self.character < other.character)
    }
}

impl Range {
    /// Whether `position` lies in the range: not before its start, and before its end.
    pub open spec fn contains(self, position: Position) -> bool {
        !position.before(self.start) && position.before(self.end)
    }
}

/// Whether `position` lies in `range`, whose end is exclusive.
pub fn lsp_range_contains_position(range: &Range, position: &Position) -> (inside: bool)
    ensures
        inside == range.contains(*position),
        position == range.end ==> !inside,
        range.start.line == position.line && position.line == range.end.line ==> inside == (
        range.start.character <= position.character < range.end.character),
        range.start.line < position.line < range.end.line ==> inside,
        position.line < range.start.line || position.line > range.end.line ==> !inside,
{
    !position.is_before(&range.start) && position.is_before(&range.end)
}

/// The kinds of symbol that are told apart on screen. Every other kind is `Other`.
#[derive(Clone, Copy, Debug, PartialEq, Eq, Structural)]
pub enum SymbolKind {
    Module,
    Namespace,
    Class,
    Method,
    Property,
    Field,
    Constructor,
    Enum,
    Interface,
    Function,
    Variable,
    Constant,
    Struct,
    Other,
}

/// A symbol that calls or is called.
///
/// The server's own message holds more than is read here, and wants it back when the calls of
/// the item are asked for: `handle` is the number under which the caller of the library keeps
/// that message.
#[derive(Debug)]
pub struct CallHierarchyItem {
    pub name: String,
    pub kind: SymbolKind,
    pub detail: Option<String>,
    pub uri: String,
    pub selection_range: Range,
    pub handle: u64,
}

impl CallHierarchyItem {
    /// Whether two items stand for the same symbol: the same place of the same
    /// document.
    pub open spec fn same_symbol(self, other: CallHierarchyItem) -> bool {
        self.uri@ == other.uri@ && self.selection_range == other.selection_range
    }

    pub fn is_same_symbol(&self, other: &CallHierarchyItem) -> (same: bool)
        ensures
            same == self.same_symbol(*other),
            same ==> self.uri@ == other.uri@ && self.selection_range == other.selection_range,
            !same ==> self.uri@ != other.uri@ || self.selection_range != other.selection_range,
    {
        self.uri == other.uri && self.selection_range == other.selection_range
    }
}

impl Clone for CallHierarchyItem {
    fn clone(&self) -> (copy: Self)
        ensures
            copy == *self,
    {
        let detail = match &self.detail {
            Some(text) => Some(text.clone()),
            None => None,
        };
        CallHierarchyItem {
            name: self.name.clone(),
            kind: self.kind,
            detail,
            uri: self.uri.clone(),
            selection_range: self.selection_range,
            handle: self.handle,
        }
    }
}

/// A caller of some item, and where in the caller the calls stand.
#[derive(Debug)]
pub struct IncomingCall {
    pub from: CallHierarchyItem,
    pub from_ranges: Vec<Range>,
}

/// An item that some item calls, and where in the calling item the calls stand.
#[derive(Debug)]
pub struct OutgoingCall {
    pub to: CallHierarchyItem,
    pub from_ranges: Vec<Range>,
}

/// Which calls of an item are listed below it.
#[derive(Clone, Copy, Debug, PartialEq, Eq, Structural)]
pub enum CallDirection {
    /// The calls made to the item.
    Incoming,
    /// The calls that the item makes.
    Outgoing,
}

/// The server's answer to a request for the calls of an item.
#[derive(Debug)]
pub enum CallsReply {
    Incoming(Vec<IncomingCall>),
    Outgoing(Vec<OutgoingCall>),
}

impl CallsReply {
    /// The items to list below the one that was asked about, in the order of the answer: for
    /// each call its other end, and where the call stands.
    pub open spec fn children(self) -> Seq<(CallHierarchyItem, Vec<Range>)> {
        match self {
            CallsReply::Incoming(calls) => Seq::new(
                calls@.len(),
                |i: int| (calls@[i].from, calls@[i].from_ranges),
            ),
            CallsReply::Outgoing(calls) => Seq::new(
                calls@.len(),
                |i: int| (calls@[i].to, calls@[i].from_ranges),
            ),
        }
    }

    pub fn into_children(self) -> (children: Vec<(CallHierarchyItem, Vec<Range>)>)
        ensures
            children@ == self.children(),
            self matches CallsReply::Incoming(calls) ==> {
                &&& children@.len() == calls@.len()
                &&& forall|i: int|
                    0 <= i < calls@.len() ==> (#[trigger] children@[i]).0 == calls@[i].from
                        && children@[i].1 == calls@[i].from_ranges
            },
            self matches CallsReply::Outgoing(calls) ==> {
                &&& children@.len() == calls@.len()
                &&& forall|i: int|
                    0 <= i < calls@.len() ==> (#[trigger] children@[i]).0 == calls@[i].to
                        && children@[i].1 == calls@[i].from_ranges
            },
    {
        let ghost reply = self;
        let mut children: Vec<(CallHierarchyItem, Vec<Range>)> = Vec::new();
        match self {
            CallsReply::Incoming(calls) => {
                for call in iter: calls
                    invariant
                        reply == CallsReply::Incoming(calls),
                        iter.seq() == calls@,
                        children@ == reply.children().take(iter.index() as int),
                {
                    children.push((call.from, call.from_ranges));
                }
            },
            CallsReply::Outgoing(calls) => {
                for call in iter: calls
                    invariant
                        reply == CallsReply::Outgoing(calls),
                        iter.seq() == calls@,
                        children@ == reply.children().take(iter.index() as int),
                {
                    children.push((call.to, call.from_ranges));
                }
            },
        }
        children
    }
}

/// Positions are ordered line by line, and within a line by character: of two positions one comes
/// first, unless they are the same.
pub proof fn positions_are_ordered(a: Position, b: Position, c: Position)
    ensures
        a.line < b.line ==> a.before(b),
        a.line == b.line && a.character < b.character ==> a.before(b),
        a.before(b) ==> a.line <= b.line && !b.before(a),
        !a.before(b) && !b.before(a) <==> a.line == b.line && a.character == b.character,
        a.before(b) && b.before(c) ==> a.before(c),
{
}

/// A range holds the positions from its start on, up to and without its end.
pub proof fn ranges_are_half_open(range: Range, position: Position)
    ensures
        range.contains(position) <==> {
            &&& range.start.line < position.line || (range.start.line == position.line
                && range.start.character <= position.character)
            &&& position.line < range.end.line || (position.line == range.end.line
                && position.character < range.end.character)
        },
        !range.contains(range.end),
        range.contains(range.start) <==> range.start.line < range.end.line || (range.start.line
            == range.end.line && range.start.character < range.end.character),
{
}

/// Of two ranges where the second starts as the first ends, a position of the whole lies in
/// exactly one.
pub proof fn ranges_join(first: Range, second: Range, position: Position)
    requires
        first.end == second.start,
        !first.end.before(first.start),
        !second.end.before(second.start),
    ensures
        (Range { start: first.start, end: second.end }).contains(position) <==> (first.contains(
            position,
        ) || second.contains(position)),
        !(first.contains(position) && second.contains(position)),
{
}

/// Two items stand for the same symbol just if their URIs are spelled the same and their names
/// stand at the same place, whatever else the items hold.
pub proof fn symbols_are_told_apart_by_place(
    a: CallHierarchyItem,
    b: CallHierarchyItem,
    c: CallHierarchyItem,
)
    ensures
        a.same_symbol(b) <==> {
            &&& a.uri@ == b.uri@
            &&& a.selection_range.start.line == b.selection_range.start.line
            &&& a.selection_range.start.character == b.selection_range.start.character
            &&& a.selection_range.end.line == b.selection_range.end.line
            &&& a.selection_range.end.character == b.selection_range.end.character
        },
        a.same_symbol(a),
        a.same_symbol(b) ==> b.same_symbol(a),
        a.same_symbol(b) && b.same_symbol(c) ==> a.same_symbol(c),
{
}

/// An answer about incoming calls gives one child for each call, in the order of the answer: the
/// caller, with the places where it calls.
pub proof fn incoming_answers_list_the_callers(calls: Vec<IncomingCall>, i: int)
    requires
        0 <= i < calls@.len(),
    ensures
        CallsReply::Incoming(calls).children().len() == calls@.len(),
        CallsReply::Incoming(calls).children()[i].0 == calls@[i].from,
        CallsReply::Incoming(calls).children()[i].1 == calls@[i].from_ranges,
{
}

/// An answer about outgoing calls gives one child for each call, in the order of the answer: what
/// is called, with the places where it is called.
pub proof fn outgoing_answers_list_the_callees(calls: Vec<OutgoingCall>, i: int)
    requires
        0 <= i < calls@.len(),
    ensures
        CallsReply::Outgoing(calls).children().len() == calls@.len(),
        CallsReply::Outgoing(calls).children()[i].0 == calls@[i].to,
        CallsReply::Outgoing(calls).children()[i].1 == calls@[i].from_ranges,
{
}

/// An answer without calls gives no children.
pub proof fn empty_answers_list_nothing(incoming: Vec<IncomingCall>, outgoing: Vec<OutgoingCall>)
    ensures
        CallsReply::Incoming(incoming).children().len() == 0 <==> incoming@.len() == 0,
        CallsReply::Outgoing(outgoing).children().len() == 0 <==> outgoing@.len() == 0,
{
}

} // verus!

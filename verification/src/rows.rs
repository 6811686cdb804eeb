//! What is to be seen of the entries and of the header.
use crate::icons::{icon_of, symbol_icon, IconName};
use crate::outline::{EntryState, FlatEntry, Outline, OutlineState};
use crate::protocol::{CallDirection, CallHierarchyItem};
use vstd::prelude::*;
use vstd::string::*;

verus! {

/// The decimal digit `d`.
pub open spec fn digit(d: int) -> char {
    ('0' as int + d) as char
}

/// `n` in decimal, without leading zeros.
pub open spec fn decimal(n: nat) -> Seq<char>
    decreases n,
{
    if n < 10 {
        seq![digit(n as int)]
    } else {
        decimal(n / 10).push(digit((n % 10) as int))
    }
}

/// A count in round brackets.
pub open spec fn in_brackets(n: nat) -> Seq<char> {
    seq!['('] + decimal(n) + seq![')']
}

fn digit_text(d: usize) -> (text: &'static str)
    requires
        d < 10,
    ensures
        text@ == seq![digit(d as int)],
{
    proof {
        reveal_strlit("0");
        reveal_strlit("1");
        reveal_strlit("2");
        reveal_strlit("3");
        reveal_strlit("4");
        reveal_strlit("5");
        reveal_strlit("6");
        reveal_strlit("7");
        reveal_strlit("8");
        reveal_strlit("9");
    }
    let text = match d {
        0 => "0",
        1 => "1",
        2 => "2",
        3 => "3",
        4 => "4",
        5 => "5",
        6 => "6",
        7 => "7",
        8 => "8",
        _ => "9",
    };
    assert(text@ =~= seq![digit(d as int)]);
    text
}

fn push_decimal(text: &mut String, n: usize)
    ensures
        final(text)@ == old(text)@ + decimal(n as nat),
    decreases n,
{
    if n < 10 {
        text.append(digit_text(n));
    } else {
        push_decimal(text, n / 10);
        text.append(digit_text(n % 10));
        assert(text@ =~= old(text)@ + decimal(n as nat));
    }
}

/// The label that tells how many calls an entry stands for. There is none where it stands for
/// none.
pub fn count_label(call_count: usize) -> (label: Option<String>)
    ensures
        label is Some <==> call_count > 0,
        label matches Some(text) ==> text@ == in_brackets(call_count as nat),
{
    if call_count == 0 {
        return None;
    }
    proof {
        reveal_strlit("(");
        reveal_strlit(")");
    }
    let mut text: String = String::new();
    text.append("(");
    push_decimal(&mut text, call_count);
    text.append(")");
    assert(text@ =~= in_brackets(call_count as nat));
    Some(text)
}

/// One line as it is to be seen.
#[derive(Debug)]
pub struct EntryRow {
    /// The position that clicks on the line refer to.
    pub index: usize,
    pub is_selected: bool,
    /// Whether the line is expanded, for a line that can be.
    pub toggle: Option<bool>,
    pub icon: IconName,
    pub name: String,
    /// What stands after the name, where there is something.
    pub detail: Option<String>,
    pub count_label: Option<String>,
    pub indent_level: usize,
}

impl EntryRow {
    /// Whether the row shows `entry` as it stands in `outline`.
    pub open spec fn shows<Id>(self, outline: OutlineState<Id>, entry: EntryState<Id>) -> bool {
        &&& self.index == entry.node_index
        &&& self.is_selected == (outline.selected == Some(entry.node_index))
        &&& self.toggle == (if entry.has_children {
            Some(outline.expanded.contains(entry.node_index))
        } else {
            None
        })
        &&& self.icon == icon_of(entry.item.kind)
        &&& self.name == entry.item.name
        &&& self.detail == (match entry.item.detail {
            Some(text) => if text@.len() > 0 {
                Some(text)
            } else {
                None
            },
            None => None,
        })
        &&& self.count_label is Some <==> entry.from_ranges.len() > 0
        &&& self.count_label matches Some(text) ==> text@ == in_brackets(entry.from_ranges.len())
        &&& self.indent_level == entry.depth
    }
}

/// The line of one entry.
pub fn entry_row<Id>(outline: &Outline<Id>, entry: &FlatEntry<Id>) -> (row: EntryRow)
    ensures
        row.shows(outline@, entry@),
        row.index == entry.node_index,
        row.is_selected <==> outline@.selected == Some(entry.node_index),
        row.toggle is Some <==> entry.has_children,
        row.toggle matches Some(on) ==> on == outline@.expanded.contains(entry.node_index),
        row.name@ == entry.item.name@,
        row.detail is Some <==> entry.item.detail is Some && entry.item.detail->0@.len() > 0,
        row.detail is Some ==> row.detail->0@ == entry.item.detail->0@,
        row.count_label is Some <==> entry.from_ranges@.len() > 0,
        row.indent_level == entry.depth,
{
    let index: usize = entry.node_index;
    let is_selected: bool = match outline.selected_index() {
        Some(selected) => selected == index,
        None => false,
    };
    let toggle: Option<bool> = if entry.has_children {
        Some(outline.is_expanded(index))
    } else {
        None
    };
    let detail: Option<String> = match &entry.item.detail {
        Some(text) => if text.as_str().is_empty() {
            None
        } else {
            Some(text.clone())
        },
        None => None,
    };
    EntryRow {
        index,
        is_selected,
        toggle,
        icon: symbol_icon(entry.item.kind),
        name: entry.item.name.clone(),
        detail,
        count_label: count_label(entry.from_ranges.len()),
        indent_level: entry.depth,
    }
}

/// The lines from position `start` up to and without position `end`.
pub fn entry_rows<Id>(outline: &Outline<Id>, start: usize, end: usize) -> (rows: Vec<EntryRow>)
    requires
        start <= end <= outline@.entries.len(),
    ensures
        rows@.len() == end - start,
        forall|i: int|
            0 <= i < rows@.len() ==> (#[trigger] rows@[i]).shows(
                outline@,
                outline@.entries[start + i],
            ),
{
    let mut rows: Vec<EntryRow> = Vec::new();
    let mut index: usize = start;
    while index < end
        invariant
            start <= index <= end <= outline@.entries.len(),
            rows@.len() == index - start,
            forall|i: int|
                0 <= i < rows@.len() ==> (#[trigger] rows@[i]).shows(
                    outline@,
                    outline@.entries[start + i],
                ),
        decreases end - index,
    {
        if let Some(entry) = outline.entry(index) {
            rows.push(entry_row(outline, entry));
        }
        index = index + 1;
    }
    rows
}

/// What is shown in the place of the lines where there is no entry.
pub fn entries_placeholder<Id>(outline: &Outline<Id>) -> (text: Option<&'static str>)
    ensures
        text is Some <==> outline@.entries.len() == 0,
        text matches Some(t) ==> t@ == "No call hierarchy results"@,
{
    if outline.len() == 0 {
        Some("No call hierarchy results")
    } else {
        None
    }
}

/// The header as it is to be seen.
#[derive(Debug)]
pub struct HeaderRow {
    pub incoming_on: bool,
    pub outgoing_on: bool,
    /// The name of the root, where there is one.
    pub root_name: Option<String>,
}

impl HeaderRow {
    /// Whether the header shows `direction` and the name of `root`.
    pub open spec fn shows(self, direction: CallDirection, root: Option<CallHierarchyItem>) -> bool {
        &&& self.incoming_on == (direction is Incoming)
        &&& self.outgoing_on == (direction is Outgoing)
        &&& self.root_name == (match root {
            Some(item) => Some(item.name),
            None => None,
        })
    }
}

pub fn header_row(direction: CallDirection, root: &Option<CallHierarchyItem>) -> (row: HeaderRow)
    ensures
        row.shows(direction, *root),
        row.incoming_on <==> direction is Incoming,
        row.outgoing_on <==> direction is Outgoing,
        row.root_name is Some <==> *root is Some,
        row.root_name matches Some(name) ==> name@ == root->0.name@,
{
    HeaderRow {
        incoming_on: direction == CallDirection::Incoming,
        outgoing_on: direction == CallDirection::Outgoing,
        root_name: match root {
            Some(item) => Some(item.name.clone()),
            None => None,
        },
    }
}

/// The number that a text of decimal digits spells.
pub open spec fn number_of(text: Seq<char>) -> int
    decreases text.len(),
{
    if text.len() == 0 {
        0
    } else {
        10 * number_of(text.drop_last()) + (text.last() as int - '0' as int)
    }
}

/// A number in decimal is made of digits, does not start with a zero unless it is zero, and reads
/// back as the number.
pub proof fn decimals_read_back(n: nat)
    ensures
        number_of(decimal(n)) == n,
        decimal(n).len() > 0,
        forall|i: int| 0 <= i < decimal(n).len() ==> '0' <= #[trigger] decimal(n)[i] <= '9',
        n > 0 ==> decimal(n)[0] != '0',
        n == 0 ==> decimal(n).len() == 1,
    decreases n,
{
    if n < 10 {
        let text = decimal(n);
        assert(text.drop_last() =~= Seq::empty());
        assert(number_of(text.drop_last()) == 0);
    } else {
        decimals_read_back(n / 10);
        let text = decimal(n);
        assert(text.drop_last() =~= decimal(n / 10));
        assert(text[0] == decimal(n / 10)[0]);
        assert forall|i: int| 0 <= i < text.len() implies '0' <= #[trigger] text[i] <= '9' by {
            if i < text.len() - 1 {
                assert(text[i] == decimal(n / 10)[i]);
            }
        }
    }
}

/// A count stands in round brackets, and what stands between them reads back as the count.
pub proof fn counts_stand_in_brackets(n: nat)
    ensures
        in_brackets(n).len() > 2,
        in_brackets(n)[0] == '(',
        in_brackets(n).last() == ')',
        number_of(in_brackets(n).subrange(1, in_brackets(n).len() - 1)) == n,
{
    decimals_read_back(n);
    assert(in_brackets(n).subrange(1, in_brackets(n).len() - 1) =~= decimal(n));
}

/// What a row tells of an entry: its position, whether that is selected and, where the entry can
/// be expanded, whether it is; the symbol's name, its detail unless that is empty, how many calls
/// the entry stands for unless it is none, and how deep it is.
pub proof fn rows_tell_of_their_entry<Id>(
    row: EntryRow,
    outline: OutlineState<Id>,
    entry: EntryState<Id>,
)
    requires
        row.shows(outline, entry),
    ensures
        row.index == entry.node_index,
        row.is_selected <==> outline.selected == Some(entry.node_index),
        row.toggle is Some <==> entry.has_children,
        row.toggle matches Some(on) ==> on == outline.expanded.contains(entry.node_index),
        row.icon == icon_of(entry.item.kind),
        row.name@ == entry.item.name@,
        row.detail is Some <==> entry.item.detail is Some && entry.item.detail->0@.len() > 0,
        row.detail is Some ==> row.detail->0@ == entry.item.detail->0@,
        row.count_label is Some <==> entry.from_ranges.len() > 0,
        row.count_label matches Some(text) ==> {
            &&& text@.len() > 2
            &&& text@[0] == '('
            &&& text@.last() == ')'
            &&& number_of(text@.subrange(1, text@.len() - 1)) == entry.from_ranges.len()
        },
        row.indent_level == entry.depth,
{
    counts_stand_in_brackets(entry.from_ranges.len());
}

/// The header has just the direction on that the view is set to, and names the root, where there
/// is one.
pub proof fn headers_tell_of_the_view(
    row: HeaderRow,
    direction: CallDirection,
    root: Option<CallHierarchyItem>,
)
    requires
        row.shows(direction, root),
    ensures
        row.incoming_on <==> direction == CallDirection::Incoming,
        row.outgoing_on <==> direction == CallDirection::Outgoing,
        row.incoming_on != row.outgoing_on,
        row.root_name is Some <==> root is Some,
        row.root_name matches Some(name) ==> name@ == root->0.name@,
{
}

} // verus!

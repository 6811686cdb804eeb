//! Which of the items that the server offers for a position becomes the root.
use crate::protocol::{lsp_range_contains_position, CallHierarchyItem, Position};
use crate::uri::{file_path_of_uri, in_file, lsp_item_is_in_file};
use std::path::PathBuf;
use vstd::prelude::*;
use vstd::std_specs::cmp::PartialEqSpec;

verus! {

pub open spec fn distance(a: int, b: int) -> int {
    if a < b {
        b - a
    } else {
        a - b
    }
}

/// By what items are ranked: how many lines further down the item's name ends than it starts, how
/// many characters it takes, counted from the start of the last line where it takes several, and
/// how far its start is from the position, in lines and in characters.
pub open spec fn rank(item: CallHierarchyItem, position: Position) -> (int, int, int, int) {
    let range = item.selection_range;
    let lines = range.end.line - range.start.line;
    let characters = range.end.character - range.start.character;
    (
        if lines < 0 {
            0
        } else {
            lines
        },
        if lines != 0 {
            range.end.character as int
        } else if characters < 0 {
            0
        } else {
            characters
        },
        distance(range.start.line as int, position.line as int),
        distance(range.start.character as int, position.character as int),
    )
}

/// Whether rank `a` is better than rank `b`: smaller in the first component that differs.
pub open spec fn better(a: (int, int, int, int), b: (int, int, int, int)) -> bool {
    ||| a.0 < b.0
    ||| a.0 == b.0 && a.1 < b.1
    ||| a.0 == b.0 && a.1 == b.1 && a.2 < b.2
    ||| a.0 == b.0 && a.1 == b.1 && a.2 == b.2 && a.3 < b.3
}

/// Whether the item at `index` is to be considered: it lies in the right file, and the position
/// lies on its name.
pub open spec fn eligible(
    items: Seq<CallHierarchyItem>,
    in_source: Seq<bool>,
    position: Position,
    index: int,
) -> bool {
    &&& 0 <= index < items.len()
    &&& in_source[index]
    &&& items[index].selection_range.contains(position)
}

/// Whether the item at `index` is the first of the best among those considered.
pub open spec fn is_best(
    items: Seq<CallHierarchyItem>,
    in_source: Seq<bool>,
    position: Position,
    index: int,
) -> bool {
    &&& eligible(items, in_source, position, index)
    &&& forall|other: int| #[trigger]
        eligible(items, in_source, position, other) ==> {
            &&& !better(rank(items[other], position), rank(items[index], position))
            &&& other < index ==> better(rank(items[index], position), rank(items[other], position))
        }
}

/// The position of the item to choose: the first of the best among those considered, or the very
/// first item where none is considered. There is none only where there is no item at all.
pub open spec fn chosen_index(
    items: Seq<CallHierarchyItem>,
    in_source: Seq<bool>,
    position: Position,
) -> Option<int> {
    if items.len() == 0 {
        None
    } else if exists|index: int| is_best(items, in_source, position, index) {
        Some(choose|index: int| is_best(items, in_source, position, index))
    } else {
        Some(0)
    }
}

/// For each item whether it lies in the file that was asked about. Where none was, all do.
pub open spec fn in_source_file(
    items: Seq<CallHierarchyItem>,
    source_file_path: Option<PathBuf>,
) -> Seq<bool> {
    Seq::new(
        items.len(),
        |i: int|
            match source_file_path {
                Some(path) => in_file(items[i], path),
                None => true,
            },
    )
}

/// There is only one first of the best.
pub proof fn best_is_unique(
    items: Seq<CallHierarchyItem>,
    in_source: Seq<bool>,
    position: Position,
    a: int,
    b: int,
)
    requires
        is_best(items, in_source, position, a),
        is_best(items, in_source, position, b),
    ensures
        a == b,
{
}

/// Whether the item at `index` is the first of the best among those considered of the first
/// `count`.
spec fn is_best_of_first(
    items: Seq<CallHierarchyItem>,
    in_source: Seq<bool>,
    position: Position,
    count: int,
    index: int,
) -> bool {
    &&& eligible(items, in_source, position, index)
    &&& index < count
    &&& forall|other: int| #[trigger]
        eligible(items, in_source, position, other) && other < count ==> {
            &&& !better(rank(items[other], position), rank(items[index], position))
            &&& other < index ==> better(rank(items[index], position), rank(items[other], position))
        }
}

proof fn lemma_best_exists(
    items: Seq<CallHierarchyItem>,
    in_source: Seq<bool>,
    position: Position,
    count: int,
    some: int,
) -> (best: int)
    requires
        eligible(items, in_source, position, some),
        some < count,
    ensures
        is_best_of_first(items, in_source, position, count, best),
    decreases count,
{
    let last = count - 1;
    if exists|i: int| eligible(items, in_source, position, i) && i < last {
        let earlier = choose|i: int| eligible(items, in_source, position, i) && i < last;
        let best = lemma_best_exists(items, in_source, position, last, earlier);
        if eligible(items, in_source, position, last) && better(
            rank(items[last], position),
            rank(items[best], position),
        ) {
            last
        } else {
            best
        }
    } else {
        some
    }
}

/// Something is chosen just if something is offered, and it is one of the items offered. Where
/// some item is to be considered, the one chosen is to be considered, none of the others is
/// better, and it is the first of those that none is better than. Where none is, the very first
/// is chosen.
pub proof fn choice_is_the_best_offered(
    items: Seq<CallHierarchyItem>,
    in_source: Seq<bool>,
    position: Position,
)
    ensures
        chosen_index(items, in_source, position) is Some <==> items.len() > 0,
        chosen_index(items, in_source, position) matches Some(i) ==> {
            &&& 0 <= i < items.len()
            &&& (exists|other: int| eligible(items, in_source, position, other)) ==> is_best(
                items,
                in_source,
                position,
                i,
            )
            &&& !(exists|other: int| eligible(items, in_source, position, other)) ==> i == 0
        },
{
    if exists|other: int| eligible(items, in_source, position, other) {
        let other = choose|other: int| eligible(items, in_source, position, other);
        let best = lemma_best_exists(items, in_source, position, items.len() as int, other);
        assert(is_best(items, in_source, position, best));
    }
}

fn difference(a: u32, b: u32) -> (d: u32)
    ensures
        d == distance(a as int, b as int),
{
    if a < b {
        b - a
    } else {
        a - b
    }
}

/// Computes by what an item is ranked.
fn rank_of(item: &CallHierarchyItem, position: &Position) -> (key: (u32, u32, u32, u32))
    ensures
        (key.0 as int, key.1 as int, key.2 as int, key.3 as int) == rank(*item, *position),
{
    let range = item.selection_range;
    let characters: u32 = if range.end.line == range.start.line {
        range.end.character.saturating_sub(range.start.character)
    } else {
        range.end.character
    };
    (
        range.end.line.saturating_sub(range.start.line),
        characters,
        difference(range.start.line, position.line),
        difference(range.start.character, position.character),
    )
}

fn is_better(a: &(u32, u32, u32, u32), b: &(u32, u32, u32, u32)) -> (is: bool)
    ensures
        is == better(
            (a.0 as int, a.1 as int, a.2 as int, a.3 as int),
            (b.0 as int, b.1 as int, b.2 as int, b.3 as int),
        ),
{
    a.0 < b.0 || (a.0 == b.0 && (a.1 < b.1 || (a.1 == b.1 && (a.2 < b.2 || (a.2 == b.2 && a.3
        < b.3)))))
}

/// The position of the item to choose, where `in_source` tells for each item whether it lies in
/// the file that was asked about.
pub fn select_index(
    items: &Vec<CallHierarchyItem>,
    in_source: &Vec<bool>,
    requested_position: &Position,
) -> (chosen: Option<usize>)
    requires
        in_source@.len() == items@.len(),
    ensures
        chosen is Some == chosen_index(items@, in_source@, *requested_position) is Some,
        chosen matches Some(i) ==> Some(i as int) == chosen_index(
            items@,
            in_source@,
            *requested_position,
        ) && i < items@.len(),
{
    if items.len() == 0 {
        return None;
    }
    let ghost position = *requested_position;
    let mut best: Option<usize> = None;
    let mut index: usize = 0;
    while index < items.len()
        invariant
            index <= items@.len(),
            in_source@.len() == items@.len(),
            position == *requested_position,
            best is None ==> forall|other: int| #[trigger]
                eligible(items@, in_source@, position, other) ==> other >= index,
            best matches Some(b) ==> {
                &&& b < index
                &&& eligible(items@, in_source@, position, b as int)
                &&& forall|other: int| #[trigger]
                    eligible(items@, in_source@, position, other) && other < index ==> {
                        &&& !better(rank(items@[other], position), rank(items@[b as int], position))
                        &&& other < b ==> better(
                            rank(items@[b as int], position),
                            rank(items@[other], position),
                        )
                    }
            },
        decreases items@.len() - index,
    {
        let item = &items[index];
        if in_source[index] && lsp_range_contains_position(
            &item.selection_range,
            requested_position,
        ) {
            assert(eligible(items@, in_source@, position, index as int));
            best = match best {
                None => Some(index),
                Some(b) => if is_better(
                    &rank_of(item, requested_position),
                    &rank_of(&items[b], requested_position),
                ) {
                    Some(index)
                } else {
                    Some(b)
                },
            };
        }
        index = index + 1;
    }
    match best {
        Some(b) => {
            proof {
                assert(is_best(items@, in_source@, position, b as int));
                let c = choose|i: int| is_best(items@, in_source@, position, i);
                best_is_unique(items@, in_source@, position, b as int, c);
            }
            Some(b)
        },
        None => Some(0),
    }
}

/// Chooses the item to start from: among the items in the file that was asked about on whose name
/// the position lies the best, or else the first item offered.
pub fn select_call_hierarchy_item(
    items: Vec<CallHierarchyItem>,
    requested_position: Position,
    source_file_path: Option<PathBuf>,
) -> (chosen: Option<CallHierarchyItem>)
    ensures
        chosen is None <==> items@.len() == 0,
        chosen matches Some(item) ==> items@.contains(item),
        chosen == (match chosen_index(
            items@,
            in_source_file(items@, source_file_path),
            requested_position,
        ) {
            Some(i) => Some(items@[i]),
            None => None,
        }),
{
    let mut in_source: Vec<bool> = Vec::new();
    let mut index: usize = 0;
    while index < items.len()
        invariant
            index <= items@.len(),
            in_source@ == in_source_file(items@, source_file_path).take(index as int),
        decreases items@.len() - index,
    {
        let inside: bool = match &source_file_path {
            Some(path) => lsp_item_is_in_file(&items[index], path),
            None => true,
        };
        in_source.push(inside);
        index = index + 1;
    }
    assert(in_source@ =~= in_source_file(items@, source_file_path));
    match select_index(&items, &in_source, &requested_position) {
        Some(i) => Some(items[i].clone()),
        None => None,
    }
}

/// Nothing that could have been chosen is narrower than what is chosen. Against any other item
/// that lies in the right file and on whose name the position lies, the item chosen does so too,
/// and its name spans fewer lines; or as many lines and fewer characters, those of its last line
/// where it spans several; or is as wide, and starts on a line nearer to the position, or on the
/// same line at a character nearer to it; or is alike in all this, and was offered earlier.
pub proof fn narrowest_is_chosen(
    items: Seq<CallHierarchyItem>,
    in_source: Seq<bool>,
    position: Position,
    i: int,
    j: int,
)
    requires
        chosen_index(items, in_source, position) == Some(i),
        0 <= j < items.len(),
        in_source[j],
        items[j].selection_range.start.line < position.line || (
        items[j].selection_range.start.line == position.line
            && items[j].selection_range.start.character <= position.character),
        position.line < items[j].selection_range.end.line || (position.line
            == items[j].selection_range.end.line && position.character
            < items[j].selection_range.end.character),
    ensures
        ({
            let a = items[i].selection_range;
            let b = items[j].selection_range;
            let lines_a = a.end.line - a.start.line;
            let lines_b = b.end.line - b.start.line;
            let characters_a = a.end.character - (if lines_a == 0 {
                a.start.character as int
            } else {
                0
            });
            let characters_b = b.end.character - (if lines_b == 0 {
                b.start.character as int
            } else {
                0
            });
            let off_a = if a.start.character <= position.character {
                position.character - a.start.character
            } else {
                a.start.character - position.character
            };
            let off_b = if b.start.character <= position.character {
                position.character - b.start.character
            } else {
                b.start.character - position.character
            };
            let alike = lines_a == lines_b && characters_a == characters_b;
            &&& 0 <= i < items.len()
            &&& in_source[i]
            &&& a.start.line < position.line || (a.start.line == position.line
                && a.start.character <= position.character)
            &&& position.line < a.end.line || (position.line == a.end.line && position.character
                < a.end.character)
            &&& lines_a <= lines_b
            &&& lines_a == lines_b ==> characters_a <= characters_b
            &&& alike ==> a.start.line >= b.start.line
            &&& alike && a.start.line == b.start.line ==> off_a <= off_b
            &&& alike && a.start.line == b.start.line && off_a == off_b ==> i <= j
        }),
{
    assert(eligible(items, in_source, position, j));
    choice_is_the_best_offered(items, in_source, position);
}

/// The same by the items' URIs: where a file was asked about, only items whose URI names that
/// file compete.
pub proof fn narrowest_in_the_file_is_chosen(
    items: Seq<CallHierarchyItem>,
    source_file_path: Option<PathBuf>,
    position: Position,
    i: int,
    j: int,
)
    requires
        chosen_index(items, in_source_file(items, source_file_path), position) == Some(i),
        0 <= j < items.len(),
        source_file_path matches Some(asked) ==> file_path_of_uri(items[j].uri@) is Some
            && file_path_of_uri(items[j].uri@)->0.eq_spec(&asked),
        items[j].selection_range.start.line < position.line || (
        items[j].selection_range.start.line == position.line
            && items[j].selection_range.start.character <= position.character),
        position.line < items[j].selection_range.end.line || (position.line
            == items[j].selection_range.end.line && position.character
            < items[j].selection_range.end.character),
    ensures
        ({
            let a = items[i].selection_range;
            let b = items[j].selection_range;
            let lines_a = a.end.line - a.start.line;
            let lines_b = b.end.line - b.start.line;
            let characters_a = a.end.character - (if lines_a == 0 {
                a.start.character as int
            } else {
                0
            });
            let characters_b = b.end.character - (if lines_b == 0 {
                b.start.character as int
            } else {
                0
            });
            let off_a = if a.start.character <= position.character {
                position.character - a.start.character
            } else {
                a.start.character - position.character
            };
            let off_b = if b.start.character <= position.character {
                position.character - b.start.character
            } else {
                b.start.character - position.character
            };
            let alike = lines_a == lines_b && characters_a == characters_b;
            &&& 0 <= i < items.len()
            &&& source_file_path matches Some(asked) ==> file_path_of_uri(items[i].uri@) is Some
                && file_path_of_uri(items[i].uri@)->0.eq_spec(&asked)
            &&& a.start.line < position.line || (a.start.line == position.line
                && a.start.character <= position.character)
            &&& position.line < a.end.line || (position.line == a.end.line && position.character
                < a.end.character)
            &&& lines_a <= lines_b
            &&& lines_a == lines_b ==> characters_a <= characters_b
            &&& alike ==> a.start.line >= b.start.line
            &&& alike && a.start.line == b.start.line ==> off_a <= off_b
            &&& alike && a.start.line == b.start.line && off_a == off_b ==> i <= j
        }),
{
    narrowest_is_chosen(items, in_source_file(items, source_file_path), position, i, j);
}

/// Where no item lies both in the right file and under the position, the first item offered is
/// chosen. Nothing is chosen just if nothing is offered.
pub proof fn first_is_chosen_where_none_fits(
    items: Seq<CallHierarchyItem>,
    in_source: Seq<bool>,
    position: Position,
)
    requires
        forall|j: int|
            0 <= j < items.len() && #[trigger] in_source[j] ==> {
                let range = items[j].selection_range;
                ||| position.line < range.start.line
                ||| position.line == range.start.line && position.character
                    < range.start.character
                ||| position.line > range.end.line
                ||| position.line == range.end.line && position.character >= range.end.character
            },
    ensures
        items.len() == 0 ==> chosen_index(items, in_source, position) is None,
        items.len() > 0 ==> chosen_index(items, in_source, position) == Some(0int),
{
    choice_is_the_best_offered(items, in_source, position);
    assert forall|j: int| !eligible(items, in_source, position, j) by {
        if 0 <= j < items.len() && in_source[j] {
        }
    }
}

/// Whether an item lies in the right file goes by its own URI alone, and where no file was asked
/// about all items do.
pub proof fn files_are_told_item_by_item(
    items: Seq<CallHierarchyItem>,
    source_file_path: Option<PathBuf>,
    i: int,
)
    requires
        0 <= i < items.len(),
    ensures
        in_source_file(items, source_file_path).len() == items.len(),
        source_file_path is None ==> in_source_file(items, source_file_path)[i],
        source_file_path matches Some(asked) ==> in_source_file(items, source_file_path)[i] == (
        file_path_of_uri(items[i].uri@) is Some && file_path_of_uri(items[i].uri@)->0.eq_spec(
            &asked,
        )),
{
}

} // verus!

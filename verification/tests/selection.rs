use call_hierarchy::protocol::{CallHierarchyItem, Position, Range, SymbolKind};
use call_hierarchy::selection::{select_call_hierarchy_item, select_index};
use std::path::PathBuf;

fn at(line: u32, character: u32) -> Position {
    Position { line, character }
}

fn item(name: &str, uri: &str, start: Position, end: Position) -> CallHierarchyItem {
    CallHierarchyItem {
        name: name.to_string(),
        kind: SymbolKind::Function,
        detail: None,
        uri: uri.to_string(),
        selection_range: Range { start, end },
        handle: 0,
    }
}

fn chosen_name(
    items: Vec<CallHierarchyItem>,
    position: Position,
    path: Option<&str>,
) -> Option<String> {
    select_call_hierarchy_item(items, position, path.map(PathBuf::from)).map(|item| item.name)
}

#[test]
fn nothing_is_chosen_from_nothing() {
    assert_eq!(chosen_name(vec![], at(0, 0), None), None);
    assert_eq!(chosen_name(vec![], at(0, 0), Some("/a.rs")), None);
}

#[test]
fn the_narrowest_range_that_holds_the_position_is_chosen() {
    let items = vec![
        item("wide", "file:///a.rs", at(1, 0), at(1, 20)),
        item("narrow", "file:///a.rs", at(1, 4), at(1, 9)),
        item("elsewhere", "file:///a.rs", at(1, 10), at(1, 12)),
    ];
    assert_eq!(chosen_name(items, at(1, 5), None), Some("narrow".to_string()));
}

#[test]
fn fewer_lines_count_before_fewer_characters() {
    let items = vec![
        item("two lines", "file:///a.rs", at(1, 0), at(2, 1)),
        item("one line", "file:///a.rs", at(1, 0), at(1, 50)),
    ];
    assert_eq!(chosen_name(items, at(1, 5), None), Some("one line".to_string()));
}

#[test]
fn a_range_over_several_lines_counts_the_characters_of_its_last() {
    let items = vec![
        item("ends late", "file:///a.rs", at(1, 9), at(2, 8)),
        item("ends early", "file:///a.rs", at(1, 0), at(2, 3)),
    ];
    assert_eq!(chosen_name(items, at(2, 1), None), Some("ends early".to_string()));
}

#[test]
fn the_start_nearest_to_the_position_breaks_a_tie() {
    let items = vec![
        item("far", "file:///a.rs", at(1, 0), at(1, 10)),
        item("near", "file:///a.rs", at(1, 4), at(1, 14)),
    ];
    assert_eq!(chosen_name(items, at(1, 6), None), Some("near".to_string()));
    let lines = vec![
        item("far", "file:///a.rs", at(1, 0), at(3, 5)),
        item("near", "file:///a.rs", at(2, 0), at(4, 5)),
    ];
    assert_eq!(chosen_name(lines, at(2, 2), None), Some("near".to_string()));
}

#[test]
fn the_first_of_equals_is_chosen() {
    let items = vec![
        item("first", "file:///a.rs", at(1, 0), at(1, 10)),
        item("second", "file:///a.rs", at(1, 0), at(1, 10)),
    ];
    assert_eq!(chosen_name(items, at(1, 5), None), Some("first".to_string()));
}

#[test]
fn the_end_of_a_range_lies_outside_it() {
    let items = vec![
        item("before", "file:///a.rs", at(1, 0), at(1, 5)),
        item("after", "file:///a.rs", at(1, 5), at(1, 30)),
    ];
    assert_eq!(chosen_name(items, at(1, 5), None), Some("after".to_string()));
}

#[test]
fn items_of_other_files_are_not_considered() {
    let items = vec![
        item("other file", "file:///b.rs", at(1, 4), at(1, 6)),
        item("right file", "file:///a.rs", at(1, 0), at(1, 20)),
    ];
    assert_eq!(chosen_name(items, at(1, 5), Some("/a.rs")), Some("right file".to_string()));
}

#[test]
fn the_first_item_is_taken_where_none_is_considered() {
    let items = vec![
        item("first", "file:///b.rs", at(9, 0), at(9, 1)),
        item("second", "file:///b.rs", at(1, 0), at(1, 20)),
    ];
    assert_eq!(chosen_name(items, at(1, 5), Some("/a.rs")), Some("first".to_string()));
}

#[test]
fn a_range_that_ends_before_it_starts_holds_no_position() {
    let items = vec![
        item("first", "file:///a.rs", at(0, 0), at(0, 0)),
        item("backwards", "file:///a.rs", at(5, 5), at(1, 1)),
    ];
    assert_eq!(chosen_name(items, at(3, 3), None), Some("first".to_string()));
}

#[test]
fn the_index_goes_by_the_given_flags() {
    let items = vec![
        item("a", "file:///a.rs", at(1, 4), at(1, 6)),
        item("b", "file:///a.rs", at(1, 0), at(1, 20)),
    ];
    assert_eq!(select_index(&items, &vec![true, true], &at(1, 5)), Some(0));
    assert_eq!(select_index(&items, &vec![false, true], &at(1, 5)), Some(1));
    assert_eq!(select_index(&items, &vec![false, false], &at(1, 5)), Some(0));
    assert_eq!(select_index(&vec![], &vec![], &at(1, 5)), None);
}

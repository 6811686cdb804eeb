use call_hierarchy::call_hierarchy_view::{
    open_or_focus_call_hierarchy_view_in_right_pane, CallHierarchyView, Toggled,
};
use call_hierarchy::icons::{symbol_icon, IconName};
use call_hierarchy::navigation::{EntityId, Placement, ShowCommand};
use call_hierarchy::protocol::{
    CallDirection, CallHierarchyItem, Position, Range, SymbolKind,
};
use call_hierarchy::rows::count_label;
use std::path::PathBuf;

fn id(value: u64) -> EntityId {
    EntityId { value }
}

fn at(line: u32, character: u32) -> Position {
    Position { line, character }
}

fn range(line: u32) -> Range {
    Range { start: at(line, 4), end: at(line, 9) }
}

fn item(name: &str, line: u32) -> CallHierarchyItem {
    CallHierarchyItem {
        name: name.to_string(),
        kind: SymbolKind::Function,
        detail: None,
        uri: "file:///work/a.rs".to_string(),
        selection_range: range(line),
        handle: line as u64,
    }
}

fn children(names: &[(&str, u32)]) -> Vec<(CallHierarchyItem, Vec<Range>)> {
    names.iter().map(|(name, line)| (item(name, *line), vec![range(line + 100)])).collect()
}

fn names(view: &CallHierarchyView) -> Vec<String> {
    (0..view.len()).map(|i| view.entry(i).unwrap().item.name.clone()).collect()
}

fn depths(view: &CallHierarchyView) -> Vec<usize> {
    (0..view.len()).map(|i| view.entry(i).unwrap().depth).collect()
}

fn positions(view: &CallHierarchyView) -> Vec<usize> {
    (0..view.len()).map(|i| view.entry(i).unwrap().node_index).collect()
}

fn expanded(view: &CallHierarchyView) -> Vec<usize> {
    (0..view.len() + 20).filter(|i| view.is_expanded(*i)).collect()
}

/// root, with a, b and c below it, and with d and e below b.
fn tree() -> CallHierarchyView {
    let mut view = CallHierarchyView::new(Some(id(7)));
    view.set_root(item("root", 0), id(1), CallDirection::Incoming);
    assert_eq!(view.insert_children(0, children(&[("a", 1), ("b", 2), ("c", 3)])), vec![1, 2, 3]);
    assert!(matches!(view.toggle_expanded(2), Toggled::Expanded(Some(_))));
    assert_eq!(view.insert_children(2, children(&[("d", 4), ("e", 5)])), vec![4, 5]);
    view
}

#[test]
fn a_new_view_is_empty_and_set_to_incoming_calls() {
    let view = CallHierarchyView::new(None);
    assert_eq!(view.len(), 0);
    assert_eq!(view.selected_index(), None);
    assert_eq!(view.direction(), CallDirection::Incoming);
    assert_eq!(view.render_placeholder(), Some("No call hierarchy results"));
    assert_eq!(view.pending_load_count(), 0);
    assert!(view.open_selected_entry().is_none());
}

#[test]
fn a_root_is_shown_expanded_and_selected_and_its_calls_are_asked_for() {
    let mut view = CallHierarchyView::new(None);
    let request = view.set_root(item("root", 9), id(1), CallDirection::Outgoing).unwrap();
    assert_eq!(request.parent_entry_id, 0);
    assert_eq!(request.item.name, "root");
    assert_eq!(request.buffer, id(1));
    assert_eq!(request.direction, CallDirection::Outgoing);
    assert_eq!(names(&view), vec!["root"]);
    assert_eq!(view.selected_index(), Some(0));
    assert!(view.is_expanded(0));
    assert!(view.entry(0).unwrap().has_children);
    assert_eq!(view.pending_load_count(), 1);
    assert_eq!(view.render_placeholder(), None);
}

#[test]
fn children_are_listed_below_their_parent() {
    let view = tree();
    assert_eq!(names(&view), vec!["root", "a", "b", "d", "e", "c"]);
    assert_eq!(depths(&view), vec![0, 1, 1, 2, 2, 1]);
    assert_eq!(positions(&view), vec![0, 1, 2, 3, 4, 5]);
    assert_eq!(expanded(&view), vec![0, 2]);
}

#[test]
fn collapsing_takes_the_descendants_out() {
    let mut view = tree();
    assert!(matches!(view.toggle_expanded(2), Toggled::Collapsed));
    assert_eq!(names(&view), vec!["root", "a", "b", "c"]);
    assert_eq!(positions(&view), vec![0, 1, 2, 3]);
    assert_eq!(expanded(&view), vec![0]);
    assert!(matches!(view.toggle_expanded(0), Toggled::Collapsed));
    assert_eq!(names(&view), vec!["root"]);
    assert_eq!(expanded(&view), Vec::<usize>::new());
}

#[test]
fn collapsing_the_root_forgets_what_was_expanded_below() {
    let mut view = tree();
    view.toggle_expanded(0);
    assert!(matches!(view.toggle_expanded(0), Toggled::Expanded(Some(_))));
    view.insert_children(0, children(&[("a", 1), ("b", 2), ("c", 3)]));
    assert_eq!(names(&view), vec!["root", "a", "b", "c"]);
    assert_eq!(expanded(&view), vec![0]);
}

#[test]
fn expanding_and_collapsing_restores_the_list() {
    let mut view = tree();
    view.select_entry(5);
    let before = (names(&view), depths(&view), positions(&view), expanded(&view));
    view.toggle_expanded(1);
    view.insert_children(1, children(&[("x", 20), ("y", 21)]));
    assert_eq!(view.len(), 8);
    assert_eq!(view.selected_index(), Some(7));
    assert_eq!(expanded(&view), vec![0, 1, 4]);
    view.toggle_expanded(1);
    assert_eq!((names(&view), depths(&view), positions(&view), expanded(&view)), before);
    assert_eq!(view.selected_index(), Some(5));
}

#[test]
fn toggling_twice_without_an_answer_restores_the_list() {
    let mut view = tree();
    let before = (names(&view), expanded(&view));
    view.toggle_expanded(5);
    assert_eq!(expanded(&view), vec![0, 2, 5]);
    view.toggle_expanded(5);
    assert_eq!((names(&view), expanded(&view)), before);
}

#[test]
fn a_selection_below_a_collapsed_entry_goes_to_it() {
    let mut view = tree();
    view.select_entry(4);
    view.toggle_expanded(2);
    assert_eq!(view.selected_index(), Some(2));
    let mut view = tree();
    view.select_entry(4);
    view.toggle_expanded(0);
    assert_eq!(view.selected_index(), Some(0));
}

#[test]
fn an_answer_for_an_entry_that_is_gone_is_dropped() {
    let mut view = tree();
    view.toggle_expanded(2);
    assert_eq!(view.insert_children(4, children(&[("late", 50)])), Vec::<usize>::new());
    assert_eq!(names(&view), vec!["root", "a", "b", "c"]);
}

#[test]
fn an_answer_for_a_collapsed_entry_is_dropped() {
    let mut view = tree();
    view.toggle_expanded(2);
    assert!(view.insert_children(2, children(&[("late", 50)])).is_empty());
    assert_eq!(names(&view), vec!["root", "a", "b", "c"]);
}

#[test]
fn an_answer_sent_before_a_new_root_is_dropped() {
    let mut view = tree();
    view.set_root(item("other", 60), id(2), CallDirection::Incoming);
    assert!(view.insert_children(0, children(&[("late", 50)])).is_empty());
    assert!(view.insert_children(2, children(&[("late", 50)])).is_empty());
    assert_eq!(names(&view), vec!["other"]);
    assert_eq!(view.entry(0).unwrap().entry_id, 6);
    assert_eq!(view.insert_children(6, children(&[("now", 51)])), vec![7]);
}

#[test]
fn an_answer_finds_its_entry_after_the_list_has_moved() {
    let mut view = tree();
    view.toggle_expanded(5);
    view.toggle_expanded(2);
    view.insert_children(3, children(&[("below c", 70)]));
    assert_eq!(names(&view), vec!["root", "a", "b", "c", "below c"]);
    assert_eq!(depths(&view), vec![0, 1, 1, 1, 2]);
}

#[test]
fn the_last_of_two_answers_counts() {
    let mut view = tree();
    assert_eq!(view.insert_children(2, children(&[("f", 8)])), vec![6]);
    assert_eq!(names(&view), vec!["root", "a", "b", "f", "c"]);
    view.insert_children(0, children(&[("only", 9)]));
    assert_eq!(names(&view), vec!["root", "only"]);
    assert_eq!(expanded(&view), vec![0]);
}

#[test]
fn an_empty_answer_takes_the_offer_to_expand_away() {
    let mut view = tree();
    view.toggle_expanded(1);
    assert!(view.insert_children(1, vec![]).is_empty());
    assert!(!view.entry(1).unwrap().has_children);
    assert!(!view.is_expanded(1));
    assert_eq!(view.len(), 6);
    assert_eq!(view.render_entries(1, 2)[0].toggle, None);
}

#[test]
fn an_empty_answer_leaves_what_an_earlier_one_listed() {
    let mut view = tree();
    view.insert_children(2, vec![]);
    assert!(!view.is_expanded(2));
    assert_eq!(names(&view), vec!["root", "a", "b", "d", "e", "c"]);
}

#[test]
fn a_symbol_that_stands_above_cannot_be_expanded_again() {
    let mut view = tree();
    view.toggle_expanded(3);
    let looping = children(&[("root", 0), ("b", 2), ("d", 4), ("e", 5), ("a", 1)]);
    view.insert_children(4, looping);
    let offered: Vec<bool> = (4..9).map(|i| view.entry(i).unwrap().has_children).collect();
    assert_eq!(names(&view)[4..9], ["root", "b", "d", "e", "a"]);
    assert_eq!(offered, vec![false, false, false, true, true]);
}

#[test]
fn symbols_of_other_documents_or_places_make_no_cycle() {
    let mut view = CallHierarchyView::new(None);
    view.set_root(item("root", 0), id(1), CallDirection::Incoming);
    let mut elsewhere = item("root", 0);
    elsewhere.uri = "file:///work/b.rs".to_string();
    let renamed = item("renamed", 0);
    view.insert_children(
        0,
        vec![(elsewhere, vec![]), (item("root", 1), vec![]), (renamed, vec![])],
    );
    let offered: Vec<bool> = (1..4).map(|i| view.entry(i).unwrap().has_children).collect();
    assert_eq!(offered, vec![true, true, false]);
}

#[test]
fn clearing_takes_everything_out_and_starts_numbers_anew() {
    let mut view = tree();
    view.show(ShowCommand::ShowOutgoingCalls, true);
    view.clear_results();
    assert_eq!(view.len(), 0);
    assert_eq!(expanded(&view), Vec::<usize>::new());
    assert_eq!(view.selected_index(), None);
    assert_eq!(view.pending_load_count(), 0);
    assert_eq!(view.direction(), CallDirection::Outgoing);
    assert_eq!(view.navigation_pane(), Some(id(7)));
    assert!(view.insert_children(0, children(&[("late", 50)])).is_empty());
    let request = view.set_root(item("next", 1), id(1), CallDirection::Incoming).unwrap();
    assert_eq!(request.parent_entry_id, 0);
}

#[test]
fn requests_are_made_only_for_listed_entries() {
    let mut view = tree();
    let request = view.load_children(3).unwrap();
    assert_eq!((request.parent_entry_id, request.item.name.as_str()), (3, "c"));
    assert!(view.load_children(99).is_none());
    assert_eq!(view.entry_index_by_id(4), Some(3));
    assert_eq!(view.entry_index_by_id(99), None);
    let mut empty = CallHierarchyView::new(None);
    assert!(empty.load_children(0).is_none());
}

#[test]
fn the_selection_moves_and_stops_at_the_ends() {
    let mut view = tree();
    assert_eq!(view.select_previous(), Some(0));
    assert_eq!(view.select_next(), Some(1));
    assert_eq!(view.select_next(), Some(2));
    assert_eq!(view.select_previous(), Some(1));
    assert!(view.select_entry(5));
    assert_eq!(view.select_next(), Some(5));
    assert!(!view.select_entry(6));
    assert_eq!(view.selected_index(), Some(5));
    let mut empty = CallHierarchyView::new(None);
    assert_eq!(empty.select_next(), None);
    assert_eq!(empty.select_previous(), None);
}

#[test]
fn the_selected_entry_is_expanded_and_collapsed() {
    let mut view = tree();
    view.select_entry(1);
    assert!(!view.collapse_selected_entry());
    match view.expand_selected_entry() {
        Some(Toggled::Expanded(Some(request))) => assert_eq!(request.parent_entry_id, 1),
        other => panic!("{:?}", other),
    }
    assert!(view.expand_selected_entry().is_none());
    assert!(view.collapse_selected_entry());
    assert!(!view.is_expanded(1));
    assert!(CallHierarchyView::new(None).expand_selected_entry().is_none());
    assert!(!CallHierarchyView::new(None).collapse_selected_entry());
}

#[test]
fn an_entry_leads_to_its_first_call() {
    let mut view = tree();
    let target = view.navigate_to_entry(1).unwrap();
    assert_eq!(target.path, PathBuf::from("/work/a.rs"));
    assert_eq!((target.row, target.column), (101, 4));
    assert_eq!(target.pane, Some(id(7)));
    let root = view.open_selected_entry().unwrap();
    assert_eq!((root.row, root.column), (0, 4));
    assert!(view.navigate_to_entry(6).is_none());
    view.set_navigation_pane(id(8));
    assert_eq!(view.navigate_to_entry(1).unwrap().pane, Some(id(8)));
}

#[test]
fn a_double_click_leads_there() {
    let mut view = tree();
    let (moved, target) = view.click_entry(2, 1);
    assert!(moved && target.is_none());
    assert_eq!(view.selected_index(), Some(2));
    let (moved, target) = view.click_entry(3, 2);
    assert!(moved);
    assert_eq!(target.unwrap().row, 104);
    let (moved, target) = view.click_entry(30, 2);
    assert!(!moved && target.is_none());
    assert_eq!(view.selected_index(), Some(3));
}

#[test]
fn the_other_direction_lists_the_root_anew() {
    let mut view = tree();
    assert!(view.choose_direction(CallDirection::Incoming).is_none());
    assert_eq!(view.len(), 6);
    let request = view.choose_direction(CallDirection::Outgoing).unwrap();
    assert_eq!(request.direction, CallDirection::Outgoing);
    assert_eq!(request.item.name, "root");
    assert_eq!(request.parent_entry_id, 6);
    assert_eq!(names(&view), vec!["root"]);
    let mut empty = CallHierarchyView::new(None);
    assert!(empty.choose_direction(CallDirection::Outgoing).is_none());
    assert_eq!(empty.direction(), CallDirection::Incoming);
}

#[test]
fn a_command_sets_the_direction_where_there_is_an_editor() {
    let mut view = CallHierarchyView::new(None);
    assert!(!view.show(ShowCommand::ShowOutgoingCalls, false));
    assert_eq!(view.direction(), CallDirection::Incoming);
    assert!(view.show(ShowCommand::ShowOutgoingCalls, true));
    assert_eq!(view.direction(), CallDirection::Outgoing);
    assert!(view.show(ShowCommand::ShowCallHierarchy, true));
    assert_eq!(view.direction(), CallDirection::Outgoing);
    assert!(view.show(ShowCommand::ShowIncomingCalls, true));
    assert_eq!(view.direction(), CallDirection::Incoming);
}

#[test]
fn the_best_item_offered_becomes_the_root() {
    let mut view = tree();
    let offered = vec![item("first", 3), item("under the cursor", 8)];
    let request = view
        .accept_prepared(
            offered,
            at(8, 5),
            Some(PathBuf::from("/work/a.rs")),
            id(1),
            CallDirection::Outgoing,
        )
        .unwrap();
    assert_eq!(request.item.name, "under the cursor");
    assert_eq!(view.direction(), CallDirection::Outgoing);
    assert_eq!(names(&view), vec!["under the cursor"]);
    let none = view.accept_prepared(vec![], at(0, 0), None, id(1), CallDirection::Incoming);
    assert!(none.is_none());
    assert_eq!(view.len(), 0);
    assert_eq!(view.direction(), CallDirection::Outgoing);
}

#[test]
fn the_view_is_placed_on_the_right() {
    let active = Some(id(3));
    let open = open_or_focus_call_hierarchy_view_in_right_pane;
    assert_eq!(open(&None, active), Placement::SplitRight);
    assert_eq!(open(&Some(vec![]), active), Placement::AddToRightPane);
    assert_eq!(
        open(&Some(vec![id(3), id(4)]), active),
        Placement::Activate { view: id(4), focus: true }
    );
    assert_eq!(
        open(&Some(vec![id(4), id(3)]), active),
        Placement::Activate { view: id(3), focus: false }
    );
    assert_eq!(
        open(&Some(vec![id(4)]), None),
        Placement::Activate { view: id(4), focus: true }
    );
}

#[test]
fn rows_show_the_entries() {
    let mut view = CallHierarchyView::new(None);
    let mut root = item("root", 0);
    root.kind = SymbolKind::Class;
    root.detail = Some(String::new());
    view.set_root(root, id(1), CallDirection::Incoming);
    let mut child = item("child", 1);
    child.detail = Some("in a module".to_string());
    view.insert_children(0, vec![(child, (0..12).map(range).collect())]);
    let rows = view.render_entries(0, 2);
    assert_eq!(rows.len(), 2);
    assert_eq!(rows[0].index, 0);
    assert!(rows[0].is_selected);
    assert_eq!(rows[0].toggle, Some(true));
    assert_eq!(rows[0].icon, IconName::Blocks);
    assert_eq!(rows[0].name, "root");
    assert_eq!(rows[0].detail, None);
    assert_eq!(rows[0].count_label, None);
    assert_eq!(rows[0].indent_level, 0);
    assert_eq!(rows[1].index, 1);
    assert!(!rows[1].is_selected);
    assert_eq!(rows[1].toggle, Some(false));
    assert_eq!(rows[1].icon, IconName::Code);
    assert_eq!(rows[1].detail, Some("in a module".to_string()));
    assert_eq!(rows[1].count_label, Some("(12)".to_string()));
    assert_eq!(rows[1].indent_level, 1);
    assert!(view.render_entries(1, 1).is_empty());
}

#[test]
fn the_header_shows_the_direction_and_the_root() {
    let mut view = CallHierarchyView::new(None);
    let header = view.render_header();
    assert!(header.incoming_on && !header.outgoing_on);
    assert_eq!(header.root_name, None);
    view.set_root(item("root", 0), id(1), CallDirection::Outgoing);
    let header = view.render_header();
    assert!(!header.incoming_on && header.outgoing_on);
    assert_eq!(header.root_name, Some("root".to_string()));
}

#[test]
fn counts_are_written_in_decimal() {
    assert_eq!(count_label(0), None);
    for n in [1, 9, 10, 99, 100, 1234567890, usize::MAX] {
        assert_eq!(count_label(n), Some(format!("({})", n)));
    }
}

#[test]
fn each_kind_has_its_icon() {
    for kind in [SymbolKind::Function, SymbolKind::Method, SymbolKind::Constructor, SymbolKind::Other] {
        assert_eq!(symbol_icon(kind), IconName::Code);
    }
    for kind in [SymbolKind::Class, SymbolKind::Struct, SymbolKind::Interface, SymbolKind::Enum] {
        assert_eq!(symbol_icon(kind), IconName::Blocks);
    }
    for kind in [SymbolKind::Module, SymbolKind::Namespace] {
        assert_eq!(symbol_icon(kind), IconName::Folder);
    }
    for kind in [SymbolKind::Property, SymbolKind::Field, SymbolKind::Variable, SymbolKind::Constant] {
        assert_eq!(symbol_icon(kind), IconName::Dash);
    }
}

#[test]
fn numbers_are_given_out_one_after_the_other() {
    let mut view = CallHierarchyView::new(None);
    assert_eq!((view.new_entry_id(), view.new_entry_id(), view.new_entry_id()), (0, 1, 2));
    assert_eq!(view.len(), 0);
    let request = view.set_root(item("root", 0), id(1), CallDirection::Incoming).unwrap();
    assert_eq!(request.parent_entry_id, 3);
    assert_eq!(view.new_entry_id(), 4);
    assert_eq!(view.insert_children(3, children(&[("a", 1), ("b", 2)])), vec![5, 6]);
    assert_eq!(names(&view), vec!["root", "a", "b"]);
}

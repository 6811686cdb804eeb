use call_hierarchy::call_hierarchy_panel::{
    open_or_focus_call_hierarchy_view, CallHierarchyView, Toggled,
};
use call_hierarchy::navigation::{EntityId, Placement, ShowCommand};
use call_hierarchy::outline::{FlatEntry, Outline};
use call_hierarchy::protocol::{
    CallDirection, CallHierarchyItem, Position, Range, SymbolKind,
};
use std::path::PathBuf;

fn id(value: u64) -> EntityId {
    EntityId { value }
}

fn range(line: u32) -> Range {
    Range {
        start: Position { line, character: 4 },
        end: Position { line, character: 9 },
    }
}

fn item(name: &str, line: u32) -> CallHierarchyItem {
    CallHierarchyItem {
        name: name.to_string(),
        kind: SymbolKind::Function,
        detail: None,
        uri: "file:///work/a.rs".to_string(),
        selection_range: range(line),
        handle: 0,
    }
}

fn children(names: &[(&str, u32)]) -> Vec<(CallHierarchyItem, Vec<Range>)> {
    names.iter().map(|(name, line)| (item(name, *line), vec![range(line + 100)])).collect()
}

fn names(panel: &CallHierarchyView) -> Vec<String> {
    (0..panel.len()).map(|i| panel.entry(i).unwrap().item.name.clone()).collect()
}

fn expanded(panel: &CallHierarchyView) -> Vec<usize> {
    (0..panel.len() + 20).filter(|i| panel.is_expanded(*i)).collect()
}

/// root, with a, b and c below it, and with d and e below b.
fn tree() -> CallHierarchyView {
    let mut panel = CallHierarchyView::new();
    panel.set_root(item("root", 0), id(1), CallDirection::Incoming);
    panel.insert_children(0, children(&[("a", 1), ("b", 2), ("c", 3)]));
    panel.toggle_expanded(2);
    panel.insert_children(2, children(&[("d", 4), ("e", 5)]));
    panel
}

#[test]
fn panel_lists_children_below_their_parent() {
    let panel = tree();
    assert_eq!(names(&panel), vec!["root", "a", "b", "d", "e", "c"]);
    let depths: Vec<usize> = (0..6).map(|i| panel.entry(i).unwrap().depth).collect();
    assert_eq!(depths, vec![0, 1, 1, 2, 2, 1]);
    let positions: Vec<usize> = (0..6).map(|i| panel.entry(i).unwrap().node_index).collect();
    assert_eq!(positions, vec![0, 1, 2, 3, 4, 5]);
    assert_eq!(expanded(&panel), vec![0, 2]);
    assert_eq!(panel.selected_index(), Some(0));
}

#[test]
fn panel_awaits_only_the_last_request() {
    let mut panel = tree();
    assert_eq!(panel.pending_load(), Some(2));
    let request = panel.load_children(5).unwrap();
    assert_eq!((request.entry_index, request.item.name.as_str()), (5, "c"));
    assert_eq!(panel.pending_load(), Some(5));
    assert!(panel.load_children(6).is_none());
    assert_eq!(panel.pending_load(), Some(5));
}

#[test]
fn panel_offers_every_child_for_expansion() {
    let mut panel = tree();
    panel.insert_children(3, children(&[("root", 0)]));
    assert!(panel.entry(4).unwrap().has_children);
}

#[test]
fn panel_lists_an_answer_for_a_collapsed_entry() {
    let mut panel = tree();
    panel.insert_children(1, children(&[("x", 9)]));
    assert_eq!(names(&panel), vec!["root", "a", "x", "b", "d", "e", "c"]);
    assert_eq!(expanded(&panel), vec![0, 3]);
}

#[test]
fn panel_takes_an_empty_answer_as_no_children() {
    let mut panel = tree();
    panel.insert_children(2, vec![]);
    assert_eq!(names(&panel), vec!["root", "a", "b", "c"]);
    assert!(panel.is_expanded(2));
    assert!(panel.entry(2).unwrap().has_children);
}

#[test]
fn panel_counts_the_last_of_two_answers() {
    let mut panel = tree();
    panel.insert_children(2, children(&[("f", 8), ("g", 9), ("h", 10)]));
    panel.insert_children(2, children(&[("k", 11)]));
    assert_eq!(names(&panel), vec!["root", "a", "b", "k", "c"]);
}

#[test]
fn panel_restores_the_list_when_an_expanded_entry_is_collapsed() {
    let mut panel = tree();
    panel.select_entry(4);
    panel.toggle_expanded(1);
    panel.insert_children(1, children(&[("x", 9), ("y", 10)]));
    assert_eq!(panel.selected_index(), Some(6));
    assert!(matches!(panel.toggle_expanded(1), Toggled::Collapsed));
    assert_eq!(names(&panel), vec!["root", "a", "b", "d", "e", "c"]);
    assert_eq!(panel.selected_index(), Some(4));
    assert_eq!(expanded(&panel), vec![0, 2]);
}

#[test]
fn panel_notes_a_toggle_beyond_the_list() {
    let mut panel = tree();
    assert!(matches!(panel.toggle_expanded(9), Toggled::Expanded(None)));
    assert_eq!(expanded(&panel), vec![0, 2, 9]);
    assert_eq!(panel.pending_load(), Some(2));
    panel.insert_children(1, children(&[("x", 9)]));
    assert_eq!(expanded(&panel), vec![0, 3, 10]);
    assert!(matches!(panel.toggle_expanded(10), Toggled::Collapsed));
    assert_eq!(panel.len(), 7);
}

#[test]
fn panel_tells_which_answers_it_can_take() {
    let mut panel = tree();
    assert!(panel.takes_children(5, 1000));
    assert!(!panel.takes_children(6, 0));
    panel.toggle_expanded(usize::MAX - 1);
    assert!(panel.takes_children(5, 1));
    assert!(!panel.takes_children(5, 2));
    assert!(panel.takes_children(2, 3));
    assert!(!panel.takes_children(2, 4));
    panel.insert_children(2, children(&[("x", 1), ("y", 2), ("z", 3)]));
    assert!(panel.is_expanded(usize::MAX));
}

#[test]
fn panel_takes_the_first_item_offered() {
    let mut panel = CallHierarchyView::new();
    let request = panel
        .accept_prepared(vec![item("first", 1), item("second", 2)], id(4), CallDirection::Outgoing)
        .unwrap();
    assert_eq!(request.item.name, "first");
    assert_eq!((request.entry_index, request.buffer), (0, id(4)));
    assert_eq!(panel.direction(), CallDirection::Outgoing);
    assert!(panel.accept_prepared(vec![], id(4), CallDirection::Incoming).is_none());
    assert_eq!(panel.len(), 0);
    assert_eq!(panel.pending_load(), None);
}

#[test]
fn panel_sets_the_direction_even_without_a_root() {
    let mut panel = CallHierarchyView::new();
    assert!(panel.choose_direction(CallDirection::Outgoing).is_none());
    assert_eq!(panel.direction(), CallDirection::Outgoing);
    let mut panel = tree();
    assert!(panel.choose_direction(CallDirection::Incoming).is_none());
    assert_eq!(panel.len(), 6);
    let request = panel.choose_direction(CallDirection::Outgoing).unwrap();
    assert_eq!((request.entry_index, request.item.name.as_str()), (0, "root"));
    assert_eq!(names(&panel), vec!["root"]);
}

#[test]
fn panel_takes_the_direction_of_a_command_even_without_an_editor() {
    let mut panel = CallHierarchyView::new();
    assert!(!panel.show(ShowCommand::ShowOutgoingCalls, false));
    assert_eq!(panel.direction(), CallDirection::Outgoing);
    assert!(panel.show(ShowCommand::ShowCallHierarchy, true));
    assert_eq!(panel.direction(), CallDirection::Outgoing);
    assert!(panel.show(ShowCommand::ShowIncomingCalls, true));
    assert_eq!(panel.direction(), CallDirection::Incoming);
}

#[test]
fn panel_leads_to_the_name_of_the_symbol() {
    let mut panel = tree();
    let target = panel.navigate_to_entry(1).unwrap();
    assert_eq!(target.path, PathBuf::from("/work/a.rs"));
    assert_eq!((target.row, target.column, target.pane), (1, 4, None));
    let (moved, target) = panel.click_entry(3, 2);
    assert!(moved);
    assert_eq!(target.unwrap().row, 4);
    assert_eq!(panel.open_selected_entry().unwrap().row, 4);
    assert!(panel.click_entry(3, 1).1.is_none());
}

#[test]
fn panel_moves_the_selection() {
    let mut panel = tree();
    assert_eq!(panel.select_next(), Some(1));
    assert_eq!(panel.select_previous(), Some(0));
    assert_eq!(panel.select_previous(), Some(0));
    assert!(panel.select_entry(5));
    assert_eq!(panel.select_next(), Some(5));
    assert_eq!(CallHierarchyView::new().select_next(), None);
}

#[test]
fn panel_expands_and_collapses_the_selected_entry() {
    let mut panel = tree();
    panel.select_entry(2);
    assert!(panel.expand_selected_entry().is_none());
    assert!(panel.collapse_selected_entry());
    assert_eq!(names(&panel), vec!["root", "a", "b", "c"]);
    assert!(matches!(panel.expand_selected_entry(), Some(Toggled::Expanded(Some(_)))));
    assert_eq!(panel.pending_load(), Some(2));
}

#[test]
fn panel_shows_rows_and_header() {
    let panel = tree();
    let rows = panel.render_entries(1, 3);
    assert_eq!(rows[0].name, "a");
    assert_eq!(rows[0].toggle, Some(false));
    assert_eq!(rows[1].toggle, Some(true));
    assert_eq!(rows[1].count_label, Some("(1)".to_string()));
    assert_eq!(panel.render_header().root_name, Some("root".to_string()));
    assert_eq!(panel.render_placeholder(), None);
    assert_eq!(CallHierarchyView::new().render_placeholder(), Some("No call hierarchy results"));
}

#[test]
fn panel_is_placed_once_in_a_workspace() {
    let open = open_or_focus_call_hierarchy_view;
    assert_eq!(open(None, Some(id(3)), true), Placement::AddToRightPane);
    assert_eq!(open(None, Some(id(3)), false), Placement::SplitRight);
    assert_eq!(
        open(Some(id(3)), Some(id(3)), true),
        Placement::Activate { view: id(3), focus: false }
    );
    assert_eq!(
        open(Some(id(3)), Some(id(4)), false),
        Placement::Activate { view: id(3), focus: true }
    );
}

fn entry(name: &str, depth: usize) -> FlatEntry<u8> {
    FlatEntry {
        entry_id: 0,
        item: item(name, 0),
        from_ranges: vec![],
        depth,
        has_children: true,
        node_index: 0,
    }
}

fn outline() -> Outline<u8> {
    let mut outline = Outline::new();
    outline.show_root(entry("root", 0));
    outline.replace_children(0, vec![entry("a", 1), entry("b", 2), entry("c", 2), entry("d", 1)]);
    outline.expand(1);
    outline.expand(4);
    outline.select_entry(4);
    outline
}

#[test]
fn taking_a_range_out_moves_the_marks() {
    let mut outline = outline();
    outline.remove_entry_range(2, 2, 1);
    assert_eq!(outline.len(), 3);
    assert!(outline.is_expanded(1) && outline.is_expanded(2) && !outline.is_expanded(4));
    assert_eq!(outline.selected_index(), Some(2));
    outline.remove_entry_range(2, 1, 9);
    assert_eq!(outline.selected_index(), Some(1));
    outline.remove_entry_range(7, 0, 0);
    assert_eq!(outline.len(), 2);
    outline.remove_entry_range(0, 2, 0);
    assert_eq!(outline.len(), 0);
    assert_eq!(outline.selected_index(), None);
}

#[test]
fn making_room_moves_the_marks() {
    let mut outline = outline();
    outline.remap_indices_for_insert(2, 3);
    assert!(outline.is_expanded(0) && outline.is_expanded(1) && outline.is_expanded(7));
    assert!(!outline.is_expanded(4));
    assert_eq!(outline.selected_index(), Some(7));
    outline.remap_indices_for_insert(0, 0);
    assert_eq!(outline.selected_index(), Some(7));
}

#[test]
fn descendants_are_the_deeper_entries_that_follow() {
    let outline = outline();
    let counts: Vec<usize> = (0..7).map(|i| outline.count_visible_descendants(i)).collect();
    assert_eq!(counts, vec![4, 2, 0, 0, 0, 0, 0]);
}

#[test]
fn ancestors_are_named_from_the_entry_up() {
    let outline = outline();
    let names = |i: usize| -> Vec<String> {
        outline.ancestor_items(i).into_iter().map(|item| item.name.clone()).collect()
    };
    assert_eq!(names(3), vec!["c", "a", "root"]);
    assert_eq!(names(4), vec!["d", "root"]);
    assert_eq!(names(0), vec!["root"]);
}

#[test]
fn an_entry_is_named_by_the_position_written_into_it() {
    let mut outline: Outline<u8> = Outline::new();
    let mut root = entry("root", 0);
    root.node_index = 7;
    outline.show_root(root);
    assert!(outline.ancestor_items(0).is_empty());
    outline.reindex_entries();
    assert_eq!(outline.ancestor_items(0).len(), 1);
}

#[test]
fn positions_written_before_a_range_was_taken_out_still_name() {
    let mut outline = outline();
    outline.remove_entry_range(1, 1, 0);
    let names = |outline: &Outline<u8>, i: usize| -> Vec<String> {
        outline.ancestor_items(i).into_iter().map(|item| item.name.clone()).collect()
    };
    assert_eq!(names(&outline, 1), vec!["root"]);
    assert_eq!(names(&outline, 2), vec!["b", "root"]);
    outline.reindex_entries();
    assert_eq!(names(&outline, 1), vec!["b", "root"]);
    assert_eq!(names(&outline, 2), vec!["c", "root"]);
}

#[test]
fn marks_beyond_the_list_come_back_when_an_answer_is_collapsed() {
    let mut panel = tree();
    panel.toggle_expanded(10);
    panel.toggle_expanded(1);
    panel.insert_children(1, children(&[("x", 7), ("y", 8)]));
    assert_eq!(expanded(&panel), vec![0, 1, 4, 12]);
    panel.toggle_expanded(1);
    assert_eq!(expanded(&panel), vec![0, 2, 10]);
    assert_eq!(names(&panel), vec!["root", "a", "b", "d", "e", "c"]);
    panel.toggle_expanded(10);
    assert_eq!(expanded(&panel), vec![0, 2]);
}

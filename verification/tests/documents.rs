use call_hierarchy::navigation::{
    target_in_document, target_in_file, EntityId, NavigationTarget,
};
use call_hierarchy::protocol::{
    lsp_range_contains_position, CallHierarchyItem, CallsReply, IncomingCall, OutgoingCall,
    Position, Range, SymbolKind,
};
use call_hierarchy::uri::{lsp_item_is_in_file, path_is_source};
use std::path::PathBuf;

fn at(line: u32, character: u32) -> Position {
    Position { line, character }
}

fn item(name: &str, uri: &str) -> CallHierarchyItem {
    CallHierarchyItem {
        name: name.to_string(),
        kind: SymbolKind::Method,
        detail: Some("of a class".to_string()),
        uri: uri.to_string(),
        selection_range: Range { start: at(3, 7), end: at(3, 12) },
        handle: 41,
    }
}

#[test]
fn an_item_is_in_the_file_that_its_uri_names() {
    let here = item("f", "file:///work/src/my%20file.rs");
    assert!(lsp_item_is_in_file(&here, &PathBuf::from("/work/src/my file.rs")));
    assert!(lsp_item_is_in_file(&here, &PathBuf::from("/work//src/./my file.rs")));
    assert!(!lsp_item_is_in_file(&here, &PathBuf::from("/work/src/my%20file.rs")));
    assert!(!lsp_item_is_in_file(&here, &PathBuf::from("/work/src")));
}

#[test]
fn an_item_without_a_file_is_in_none() {
    let nowhere = item("f", "no uri at all");
    assert!(!lsp_item_is_in_file(&nowhere, &PathBuf::from("no uri at all")));
    let mail = item("f", "mailto:someone@example.org");
    assert!(!lsp_item_is_in_file(&mail, &PathBuf::from("/someone@example.org")));
    let remote = item("f", "file://elsewhere/work/a.rs");
    assert!(!lsp_item_is_in_file(&remote, &PathBuf::from("/work/a.rs")));
}

#[test]
fn a_missing_path_is_no_source() {
    assert!(!path_is_source(&None, &PathBuf::from("/a")));
    assert!(path_is_source(&Some(PathBuf::from("/a/b")), &PathBuf::from("/a//b")));
    assert!(!path_is_source(&Some(PathBuf::from("/a/c")), &PathBuf::from("/a/b")));
}

#[test]
fn a_target_is_made_of_the_path_and_the_position() {
    let pane = Some(EntityId { value: 5 });
    let NavigationTarget { path, row, column, pane: to } =
        target_in_document(&item("f", "file:///work/a%2Bb.rs"), at(3, 7), pane).unwrap();
    assert_eq!(path, PathBuf::from("/work/a+b.rs"));
    assert_eq!((row, column), (3, 7));
    assert_eq!(to, pane);
    assert!(target_in_document(&item("f", "untitled"), at(3, 7), None).is_none());
    assert!(target_in_file(None, at(3, 7), pane).is_none());
    assert_eq!(target_in_file(Some(PathBuf::from("/x")), at(1, 2), None).unwrap().column, 2);
}

#[test]
fn a_range_holds_its_start_and_not_its_end() {
    let range = Range { start: at(2, 5), end: at(4, 1) };
    assert!(lsp_range_contains_position(&range, &at(2, 5)));
    assert!(lsp_range_contains_position(&range, &at(3, 99)));
    assert!(lsp_range_contains_position(&range, &at(4, 0)));
    assert!(!lsp_range_contains_position(&range, &at(4, 1)));
    assert!(!lsp_range_contains_position(&range, &at(2, 4)));
    assert!(!lsp_range_contains_position(&range, &at(1, 50)));
}

#[test]
fn an_incoming_answer_lists_the_callers() {
    let range = Range { start: at(1, 1), end: at(1, 2) };
    let reply = CallsReply::Incoming(vec![
        IncomingCall { from: item("a", "file:///a.rs"), from_ranges: vec![range] },
        IncomingCall { from: item("b", "file:///b.rs"), from_ranges: vec![] },
    ]);
    let children = reply.into_children();
    assert_eq!(children.len(), 2);
    assert_eq!(children[0].0.name, "a");
    assert_eq!(children[0].1, vec![range]);
    assert_eq!(children[1].0.name, "b");
    assert!(children[1].1.is_empty());
}

#[test]
fn an_outgoing_answer_lists_the_callees() {
    let reply = CallsReply::Outgoing(vec![OutgoingCall {
        to: item("callee", "file:///a.rs"),
        from_ranges: vec![],
    }]);
    let children = reply.into_children();
    assert_eq!(children.len(), 1);
    assert_eq!(children[0].0.name, "callee");
}

#[test]
fn a_clone_of_an_item_is_equal_in_every_field() {
    let original = item("f", "file:///a.rs");
    let copy = original.clone();
    assert_eq!(copy.name, original.name);
    assert_eq!(copy.kind, original.kind);
    assert_eq!(copy.detail, original.detail);
    assert_eq!(copy.uri, original.uri);
    assert_eq!(copy.selection_range, original.selection_range);
    assert_eq!(copy.handle, original.handle);
    assert!(copy.is_same_symbol(&original));
    assert!(!copy.is_same_symbol(&item("f", "file:///b.rs")));
}

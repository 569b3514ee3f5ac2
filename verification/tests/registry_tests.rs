use volume_sync::events::SinkDetails;
use volume_sync::registry::SinkRegistry;

fn sink(index: u32, name: &str) -> SinkDetails {
    SinkDetails { index, name: name.to_string() }
}

fn names(list: &[&str]) -> Vec<String> {
    list.iter().map(|n| n.to_string()).collect()
}

#[test]
fn new_registry_is_empty() {
    let r = SinkRegistry::new();
    assert!(r.snapshot().is_empty());
    assert!(!r.contains(0));
}

#[test]
fn rebuild_keeps_exactly_the_configured_names() {
    let mut r = SinkRegistry::new();
    let sinks = vec![sink(1, "Chat"), sink(2, "Game"), sink(3, "Music")];
    r.rebuild(&sinks, &names(&["Chat", "Game"]));
    assert!(r.contains(1));
    assert!(r.contains(2));
    assert!(!r.contains(3));
    assert_eq!(r.snapshot(), vec![1, 2]);
}

#[test]
fn rebuild_discards_previous_contents() {
    let mut r = SinkRegistry::new();
    r.rebuild(&vec![sink(7, "Chat")], &names(&["Chat"]));
    assert!(r.contains(7));
    r.rebuild(&vec![sink(8, "Game")], &names(&["Game"]));
    assert!(!r.contains(7));
    assert!(r.contains(8));
}

#[test]
fn appeared_sink_joins_only_when_configured() {
    let mut r = SinkRegistry::new();
    let configured = names(&["Chat"]);
    r.note_appeared(4, &"Chat".to_string(), &configured);
    assert!(r.contains(4));
    r.note_appeared(5, &"Music".to_string(), &configured);
    assert!(!r.contains(5));
}

#[test]
fn appearance_is_idempotent() {
    let mut r = SinkRegistry::new();
    let configured = names(&["Chat"]);
    r.note_appeared(4, &"Chat".to_string(), &configured);
    r.note_appeared(4, &"Chat".to_string(), &configured);
    assert_eq!(r.snapshot(), vec![4]);
}

#[test]
fn removed_sink_leaves_unconditionally() {
    let mut r = SinkRegistry::new();
    r.rebuild(&vec![sink(1, "Chat"), sink(2, "Game")], &names(&["Chat", "Game"]));
    r.note_removed(1);
    assert!(!r.contains(1));
    assert!(r.contains(2));
}

#[test]
fn removing_an_absent_index_changes_nothing() {
    let mut r = SinkRegistry::new();
    r.rebuild(&vec![sink(1, "Chat")], &names(&["Chat"]));
    r.note_removed(99);
    assert_eq!(r.snapshot(), vec![1]);
}

#[test]
fn snapshot_is_a_copy_not_a_live_view() {
    let mut r = SinkRegistry::new();
    r.rebuild(&vec![sink(1, "Chat"), sink(2, "Game")], &names(&["Chat", "Game"]));
    let snap = r.snapshot();
    r.note_removed(1);
    assert_eq!(snap, vec![1, 2]);
    assert_eq!(r.snapshot(), vec![2]);
}

use volume_sync::config::{Config, LogLevel};
use volume_sync::dispatcher::{Action, Dispatcher};
use volume_sync::events::{SinkDetails, VolumeSyncEvent};

fn sink(index: u32, name: &str) -> SinkDetails {
    SinkDetails { index, name: name.to_string() }
}

fn config(list: &[&str]) -> Config {
    Config { sinks: list.iter().map(|n| n.to_string()).collect(), log_level: None }
}

#[test]
fn fresh_dispatcher_tracks_nothing() {
    let d = Dispatcher::new();
    assert!(d.registry.snapshot().is_empty());
    assert!(d.config.sinks.is_empty());
}

#[test]
fn new_sink_with_configured_name_is_tracked() {
    let mut d = Dispatcher::new();
    d.finish_reload(Some(config(&["Chat"])), &vec![]);
    let r = d.step(VolumeSyncEvent::SinkNew(sink(3, "Chat")));
    assert_eq!(r, Action::Idle);
    assert!(d.registry.contains(3));
}

#[test]
fn new_sink_with_other_name_is_ignored() {
    let mut d = Dispatcher::new();
    d.finish_reload(Some(config(&["Chat"])), &vec![]);
    let r = d.step(VolumeSyncEvent::SinkNew(sink(3, "Music")));
    assert_eq!(r, Action::Idle);
    assert!(!d.registry.contains(3));
}

#[test]
fn change_of_tracked_pair_targets_exactly_the_other() {
    let mut d = Dispatcher::new();
    let sinks = vec![sink(1, "Chat"), sink(2, "Game")];
    d.finish_reload(Some(config(&["Chat", "Game"])), &sinks);
    let r = d.step(VolumeSyncEvent::SinkChanged(1));
    match r {
        Action::Propagate { from, targets } => {
            assert_eq!(from, 1);
            assert_eq!(targets, vec![2]);
        }
        other => panic!("expected a propagation, got {other:?}"),
    }
}

#[test]
fn change_of_untracked_sink_is_ignored() {
    let mut d = Dispatcher::new();
    let sinks = vec![sink(1, "Chat"), sink(2, "Game")];
    d.finish_reload(Some(config(&["Chat", "Game"])), &sinks);
    let r = d.step(VolumeSyncEvent::SinkChanged(9));
    assert_eq!(r, Action::Idle);
}

#[test]
fn removal_then_change_propagates_nothing() {
    let mut d = Dispatcher::new();
    let sinks = vec![sink(1, "Chat"), sink(2, "Game")];
    d.finish_reload(Some(config(&["Chat", "Game"])), &sinks);
    let r = d.step(VolumeSyncEvent::SinkRemoved(1));
    assert_eq!(r, Action::Idle);
    assert!(!d.registry.contains(1));
    let r = d.step(VolumeSyncEvent::SinkChanged(1));
    assert_eq!(r, Action::Idle);
}

#[test]
fn config_change_event_asks_for_a_reload() {
    let mut d = Dispatcher::new();
    let r = d.step(VolumeSyncEvent::ConfigChanged);
    assert_eq!(r, Action::ReloadConfig);
}

#[test]
fn reload_rescopes_the_tracked_set() {
    let mut d = Dispatcher::new();
    let sinks = vec![sink(1, "Chat"), sink(2, "Game"), sink(3, "Music")];
    d.finish_reload(Some(config(&["Chat", "Game"])), &sinks);
    assert_eq!(d.registry.snapshot(), vec![1, 2]);
    d.finish_reload(Some(config(&["Music"])), &sinks);
    assert_eq!(d.registry.snapshot(), vec![3]);
}

#[test]
fn unreadable_config_falls_back_to_empty_tracked_set() {
    let mut d = Dispatcher::new();
    let sinks = vec![sink(1, "Chat")];
    d.finish_reload(Some(config(&["Chat"])), &sinks);
    assert!(d.registry.contains(1));
    d.finish_reload(None, &sinks);
    assert!(d.registry.snapshot().is_empty());
    assert!(d.config.sinks.is_empty());
    assert!(matches!(d.config.log_level, Some(LogLevel::Info)));
}

#[test]
fn reload_normalizes_a_missing_log_level() {
    let mut d = Dispatcher::new();
    d.finish_reload(Some(config(&["Chat"])), &vec![]);
    assert!(matches!(d.config.log_level, Some(LogLevel::Info)));
    let explicit = Config { sinks: Vec::new(), log_level: Some(LogLevel::Debug) };
    d.finish_reload(Some(explicit), &vec![]);
    assert!(matches!(d.config.log_level, Some(LogLevel::Debug)));
}

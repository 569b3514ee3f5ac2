use volume_sync::config::{config_file_path, Config, LogLevel};

#[test]
fn default_config_tracks_nothing_at_info() {
    let c = Config::default();
    assert!(c.sinks.is_empty());
    assert!(matches!(c.log_level, Some(LogLevel::Info)));
}

#[test]
fn config_path_prefers_explicit_config_dir() {
    let p = config_file_path(Some("/xdg".to_string()), Some("/home/u".to_string()));
    assert_eq!(p, "/xdg/volume-sync.toml");
}

#[test]
fn config_path_falls_back_to_home_config_dir() {
    let p = config_file_path(None, Some("/home/u".to_string()));
    assert_eq!(p, "/home/u/.config/volume-sync.toml");
}

#[test]
fn config_path_falls_back_to_current_dir() {
    let p = config_file_path(None, None);
    assert_eq!(p, "./volume-sync.toml");
}

#[test]
fn level_filters_match_levels() {
    assert_eq!(LogLevel::Off.to_level_filter(), log::LevelFilter::Off);
    assert_eq!(LogLevel::Error.to_level_filter(), log::LevelFilter::Error);
    assert_eq!(LogLevel::Warn.to_level_filter(), log::LevelFilter::Warn);
    assert_eq!(LogLevel::Info.to_level_filter(), log::LevelFilter::Info);
    assert_eq!(LogLevel::Debug.to_level_filter(), log::LevelFilter::Debug);
    assert_eq!(LogLevel::Trace.to_level_filter(), log::LevelFilter::Trace);
}

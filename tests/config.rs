use mirror_backup::{
    config_from_entries, get_paths_from_config, mode_of_format, resolve_settings, ConfigError, Mode,
};

fn strings(words: &[&str]) -> Vec<String> {
    words.iter().map(|w| w.to_string()).collect()
}

#[test]
fn format_words_select_the_mode() {
    assert_eq!(mode_of_format(&"tar.gz".to_string()), Mode::TarGz);
    assert_eq!(mode_of_format(&"zip".to_string()), Mode::Zip);
    assert_eq!(mode_of_format(&"copy".to_string()), Mode::Incremental);
    assert_eq!(mode_of_format(&"".to_string()), Mode::Incremental);
    assert_eq!(mode_of_format(&"ZIP".to_string()), Mode::Incremental);
}

#[test]
fn command_line_names_the_folders() {
    let s = resolve_settings(&strings(&["prog", "src", "dst", "zip"]), None).unwrap();
    assert_eq!(s.source, "src");
    assert_eq!(s.backup, "dst");
    assert_eq!(s.mode, Mode::Zip);
}

#[test]
fn missing_format_word_means_incremental() {
    let s = resolve_settings(&strings(&["prog", "src", "dst"]), None).unwrap();
    assert_eq!(s.mode, Mode::Incremental);
}

#[test]
fn command_line_wins_over_configuration() {
    let config = Some(("a".to_string(), "b".to_string(), "tar.gz".to_string()));
    let s = resolve_settings(&strings(&["prog", "src", "dst", "other"]), config).unwrap();
    assert_eq!(s.source, "src");
    assert_eq!(s.mode, Mode::Incremental);
}

#[test]
fn configuration_is_the_fallback() {
    let config = Some(("a".to_string(), "b".to_string(), "tar.gz".to_string()));
    let s = resolve_settings(&strings(&["prog", "src"]), config).unwrap();
    assert_eq!(s.source, "a");
    assert_eq!(s.backup, "b");
    assert_eq!(s.mode, Mode::TarGz);
}

#[test]
fn nothing_usable_is_a_usage_error() {
    assert_eq!(resolve_settings(&strings(&["prog"]), None).unwrap_err(), ConfigError::Usage);
    assert_eq!(resolve_settings(&strings(&[]), None).unwrap_err(), ConfigError::Usage);
}

#[test]
fn entries_need_all_three() {
    let full = config_from_entries(Some("s".to_string()), Some("b".to_string()), Some("f".to_string()));
    assert_eq!(full, Some(("s".to_string(), "b".to_string(), "f".to_string())));
    assert_eq!(config_from_entries(Some("s".to_string()), None, Some("f".to_string())), None);
}

#[test]
fn toml_configuration_is_read() {
    let text = "source = \"/data\"\nbackup = \"/mnt/b\"\nformat = \"zip\"\n";
    assert_eq!(
        get_paths_from_config(text),
        Some(("/data".to_string(), "/mnt/b".to_string(), "zip".to_string()))
    );
}

#[test]
fn toml_configuration_with_a_gap_is_refused() {
    assert_eq!(get_paths_from_config("source = \"/data\"\nbackup = \"/b\"\n"), None);
    assert_eq!(get_paths_from_config("source = \"/d\"\nbackup = \"/b\"\nformat = 3\n"), None);
    assert_eq!(get_paths_from_config("source = = \"/d\""), None);
    assert_eq!(get_paths_from_config("[source]\nbackup = \"x\"\nformat = \"zip\"\n"), None);
}

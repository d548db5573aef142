use std::path::PathBuf;

use keystroke::api::typing::TypingClass;
use keystroke::settings::{config_path, Settings, FILENAME};

#[test]
fn defaults_are_empty() {
    let settings = Settings::default();
    assert_eq!(settings.typing_username(), None);
    assert_eq!(settings.typing_class(), None);
    assert_eq!(settings.loaded_from(), None);
    assert_eq!(FILENAME, "settings.toml");
}

#[test]
fn settings_remember_their_file() {
    let path = PathBuf::from("/tmp/keystroke/settings.toml");
    let fallback = Settings::from_file(None, path.clone());
    assert_eq!(fallback.typing_username(), None);
    assert_eq!(fallback.loaded_from(), Some(&path));

    let mut parsed = Settings::default();
    parsed.typing_username = Some("teach".to_string());
    parsed.typing_class = Some(TypingClass::new(3, "C".to_string()));
    let settings = Settings::from_file(Some(parsed), path.clone());
    assert_eq!(settings.typing_username().map(|s| s.as_str()), Some("teach"));
    assert_eq!(settings.typing_class(), Some(&TypingClass::new(3, "C".to_string())));
    assert_eq!(settings.loaded_from(), Some(&path));
}

#[test]
fn working_directory_file_comes_first() {
    let local = PathBuf::from("/work/settings.toml");
    let config = PathBuf::from("/home/u/.config/keystroke/settings.toml");
    let r = config_path(Some(local.clone()), true, Some(config), PathBuf::from(FILENAME));
    assert_eq!(r, local);
}

#[test]
fn config_dir_when_no_local_file() {
    let local = PathBuf::from("/work/settings.toml");
    let config = PathBuf::from("/home/u/.config/keystroke/settings.toml");
    let r = config_path(Some(local), false, Some(config.clone()), PathBuf::from(FILENAME));
    assert_eq!(r, config);
    let r = config_path(None, true, Some(config.clone()), PathBuf::from(FILENAME));
    assert_eq!(r, config);
}

#[test]
fn bare_name_when_nothing_else() {
    let local = PathBuf::from("/work/settings.toml");
    let r = config_path(Some(local), false, None, PathBuf::from(FILENAME));
    assert_eq!(r, PathBuf::from("settings.toml"));
    let r = config_path(None, false, None, PathBuf::from(FILENAME));
    assert_eq!(r, PathBuf::from("settings.toml"));
}

#[test]
fn settings_are_saved_where_they_came_from() {
    let resolved = PathBuf::from("/home/u/.config/keystroke/settings.toml");
    let fresh = Settings::default();
    assert_eq!(fresh.save_target(&resolved), &resolved);

    let source = PathBuf::from("/work/settings.toml");
    let loaded = Settings::from_file(None, source.clone());
    assert_eq!(loaded.save_target(&resolved), &source);
}

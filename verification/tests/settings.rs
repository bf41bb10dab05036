use config::{Config, File, FileFormat};
use trinity::cfg::{get_api, get_hotkey_config, get_theme, value_or};
use trinity::panel::{theme_preference, uses_light_visuals, PanelApp, ThemePreference};
use trinity::persistence::{
    clipboard_history_path, config_path, default_api, default_theme, trinity_dir, PathStyle,
};

fn settings(toml: &str) -> Config {
    Config::builder()
        .add_source(File::from_str(toml, FileFormat::Toml))
        .build()
        .expect("settings should parse")
}

#[test]
fn missing_settings_fall_back_to_defaults() {
    let s = settings("");
    assert_eq!(get_api(&s), "https://deepl.zu1k.com/translate");
    assert_eq!(get_theme(&s), "dark");
    let hk = get_hotkey_config(&s);
    assert_eq!(hk.open_translator, "Alt+Q");
    assert_eq!(hk.translate_selection, "CmdOrCtrl+Shift+T");
    assert_eq!(hk.quit_app, "CmdOrCtrl+Shift+D");
}

#[test]
fn settings_are_read_with_legacy_hotkey_names() {
    let s = settings(
        "api = \"https://example.test\"\n[window]\ntheme = \"light\"\n[hotkey]\nlaunch = \"Alt+W\"\nquit = \"Alt+X\"\n",
    );
    assert_eq!(get_api(&s), "https://example.test");
    assert_eq!(get_theme(&s), "light");
    let hk = get_hotkey_config(&s);
    assert_eq!(hk.open_translator, "Alt+W");
    assert_eq!(hk.quit_app, "Alt+X");
    let s = settings("[hotkey]\nlaunch = \"Alt+W\"\nopen_translator = \"Alt+E\"\n");
    assert_eq!(get_hotkey_config(&s).open_translator, "Alt+E");
    let panel = PanelApp::from_settings(&settings("[window]\ntheme = \"system\"\n"));
    assert_eq!(panel.api_url(), "https://deepl.zu1k.com/translate");
    assert_eq!(panel.theme(), "system");
}

#[test]
fn theme_names_choose_the_visuals() {
    assert_eq!(theme_preference("system"), ThemePreference::System);
    assert_eq!(theme_preference("light"), ThemePreference::Light);
    assert_eq!(theme_preference("Light"), ThemePreference::Dark);
    assert!(uses_light_visuals("light"));
    assert!(!uses_light_visuals("system"));
    assert_eq!(value_or(None, "d"), "d");
    assert_eq!(value_or(Some("v".to_string()), "d"), "v");
}

#[test]
fn files_live_in_the_trinity_directory() {
    assert_eq!(trinity_dir(PathStyle::Unix, Some("/home/u")), "/home/u/.trinity");
    assert_eq!(trinity_dir(PathStyle::Unix, Some("/home/u/")), "/home/u/.trinity");
    assert_eq!(trinity_dir(PathStyle::Unix, None), "./.trinity");
    assert_eq!(config_path(PathStyle::Unix, Some("/h")), "/h/.trinity/config.json");
    assert_eq!(
        clipboard_history_path(PathStyle::Unix, None),
        "./.trinity/clipboard_history.json"
    );
    assert_eq!(
        config_path(PathStyle::Windows, Some("C:\\Users\\u")),
        "C:\\Users\\u\\.trinity\\config.json"
    );
    assert_eq!(trinity_dir(PathStyle::Windows, Some("C:/Users/u/")), "C:/Users/u/.trinity");
    assert_eq!(
        config_path(PathStyle::Windows, Some("C:")),
        "C:.trinity\\config.json"
    );
    assert_eq!(
        clipboard_history_path(PathStyle::Windows, Some("d:")),
        "d:.trinity\\clipboard_history.json"
    );
    assert_eq!(trinity_dir(PathStyle::Unix, Some("C:")), "C:/.trinity");
    assert_eq!(default_api(), "https://deepl.zu1k.com/translate");
    assert_eq!(default_theme(), "dark");
}

#[test]
fn save_hotkey_config_updates_only_hotkey_fields() {
    let content = r#"api = "https://example.test"

[hotkey]
launch = "Alt+Q"

[window]
theme = "light"
"#;
    let config = trinity::hotkey::HotkeyConfig {
        open_translator: "Alt+W".to_string(),
        translate_selection: "CmdOrCtrl+Shift+T".to_string(),
        quit_app: "CmdOrCtrl+Shift+D".to_string(),
        ..Default::default()
    };
    let saved = trinity::cfg::hotkey_settings_text(content, &config)
        .unwrap_or_else(|| panic!("failed to save hotkey config"));
    assert!(saved.contains(r#"api = "https://example.test""#));
    assert!(saved.contains(r#"theme = "light""#));
    assert!(saved.contains(r#"open_translator = "Alt+W""#));
    assert!(saved.contains(r#"translate_selection = "CmdOrCtrl+Shift+T""#));
    assert!(saved.contains(r#"quit_app = "CmdOrCtrl+Shift+D""#));
}

#[test]
fn hotkeys_start_a_document_when_settings_do_not_parse_or_refuse_a_non_table() {
    let config = trinity::hotkey::HotkeyConfig::default();
    let saved = trinity::cfg::hotkey_settings_text("not = [valid", &config).expect("new document");
    let reread = settings(&saved);
    assert_eq!(get_hotkey_config(&reread), config);
    assert_eq!(
        trinity::cfg::hotkey_settings_text("hotkey = \"Alt+Q\"\n", &config),
        None
    );
}

#[test]
fn clipboard_and_dictation_shortcuts_are_saved_and_numbers_kept() {
    let content = "[window]\nwidth = 500.0\n";
    let config = trinity::hotkey::HotkeyConfig {
        open_clipboard: "Alt+V".to_string(),
        ..Default::default()
    };
    let saved = trinity::cfg::hotkey_settings_text(content, &config).expect("saved");
    assert!(saved.contains("width = 500.0"));
    assert!(saved.contains(r#"open_clipboard = "Alt+V""#));
    assert!(saved.contains(r#"record_dictation = "CmdOrCtrl+Shift+Space""#));
    let reread = settings(&saved);
    assert_eq!(get_hotkey_config(&reread), config);
}

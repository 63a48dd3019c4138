use ts_native::config::{default_input, default_linker, default_output, ExtensionItem, ProjectConfig};

#[test]
fn test_default_config() {
    let config = ProjectConfig::default();
    assert_eq!(config.compile.input, "src/main.ts");
    assert!(config.extensions.auto_discover);
    assert!(!config.has_explicit_extensions());
}

#[test]
fn default_config_discovers_extensions() {
    let config = ProjectConfig::default();
    assert!(config.should_auto_discover());
    assert!(config.get_excluded_extensions().is_empty());
    assert_eq!(config.compile.output, "a.exe");
    assert_eq!(ProjectConfig::config_file_name(), "ts-native.toml");
}

#[test]
fn explicit_extensions_turn_discovery_off() {
    let mut config = ProjectConfig::default();
    config.extensions.items.push(ExtensionItem { path: None, crate_name: Some("json".to_string()) });
    assert!(config.has_explicit_extensions());
    assert!(!config.should_auto_discover());
}

#[test]
fn serde_defaults() {
    assert_eq!(default_input(), "src/main.ts");
    assert_eq!(default_output(), "a.exe");
    assert_eq!(default_linker(), "auto");
}

use ferrumnote::config::{
    default_config_path, load, load_from_path, merge_with_default, set_workspace_root,
    set_workspace_root_at_path, write_default_if_missing, AppConfig, ConfigError, ConfigFile,
    ConfigWrite, PartialConfig,
};
use ferrumnote::error::IoFailure;
use ferrumnote::observe::{PathKind, PathReport};

fn nothing() -> PartialConfig {
    PartialConfig {
        autosave_ms: None,
        theme: None,
        font_size: None,
        recent_files_limit: None,
        line_width_hint: None,
        ui_language: None,
        show_debug_panels: None,
        workspace_root: None,
    }
}

fn directory(canonical: &str) -> PathReport {
    PathReport { kind: PathKind::Directory, canonical: Ok(canonical.to_string()) }
}

/// Writes a configuration down as the application does, with the toml crate.
fn written(config: &AppConfig) -> String {
    let mut table = toml::Table::new();
    table.insert("autosave_ms".to_string(), toml::Value::Integer(config.autosave_ms as i64));
    table.insert("theme".to_string(), toml::Value::String(config.theme.clone()));
    table.insert("font_size".to_string(), toml::Value::Integer(config.font_size as i64));
    table.insert(
        "recent_files_limit".to_string(),
        toml::Value::Integer(config.recent_files_limit as i64),
    );
    table.insert(
        "line_width_hint".to_string(),
        toml::Value::Integer(config.line_width_hint as i64),
    );
    table.insert("ui_language".to_string(), toml::Value::String(config.ui_language.clone()));
    table.insert(
        "show_debug_panels".to_string(),
        toml::Value::Boolean(config.show_debug_panels),
    );
    if let Some(root) = &config.workspace_root {
        table.insert("workspace_root".to_string(), toml::Value::String(root.clone()));
    }
    toml::to_string_pretty(&table).expect("a configuration can be written")
}

/// Reads a configuration file as the application does, with the toml crate.
fn found(raw: &str) -> ConfigFile {
    let parsed = match raw.parse::<toml::Table>() {
        Err(e) => Err(e.to_string()),
        Ok(table) => Ok(PartialConfig {
            autosave_ms: table.get("autosave_ms").and_then(|v| v.as_integer()).map(|v| v as u64),
            theme: table.get("theme").and_then(|v| v.as_str()).map(|v| v.to_string()),
            font_size: table.get("font_size").and_then(|v| v.as_integer()).map(|v| v as u16),
            recent_files_limit: table
                .get("recent_files_limit")
                .and_then(|v| v.as_integer())
                .map(|v| v as usize),
            line_width_hint: table
                .get("line_width_hint")
                .and_then(|v| v.as_integer())
                .map(|v| v as u16),
            ui_language: table.get("ui_language").and_then(|v| v.as_str()).map(|v| v.to_string()),
            show_debug_panels: table.get("show_debug_panels").and_then(|v| v.as_bool()),
            workspace_root: table
                .get("workspace_root")
                .and_then(|v| v.as_str())
                .map(|v| v.to_string()),
        }),
    };
    ConfigFile::Text { raw: raw.to_string(), parsed }
}

#[test]
fn set_workspace_root_persists_to_config_file() {
    let workspace = "/tmp/dir/../dir/workspace";
    let expected = "/tmp/dir/workspace".to_string();

    let saved = set_workspace_root_at_path(workspace, &directory(&expected), &ConfigFile::Missing)
        .expect("workspace root should be saved");
    assert_eq!(saved.workspace_root, Some(expected.clone()));

    let loaded = load_from_path(&found(&written(&saved))).expect("config should reload");
    assert_eq!(loaded.workspace_root, Some(expected));
    assert_eq!(loaded, saved);
}

#[test]
fn set_workspace_root_rejects_missing_directory() {
    let missing = PathReport { kind: PathKind::Missing, canonical: Ok(String::new()) };
    let err = set_workspace_root_at_path("/tmp/dir/missing", &missing, &ConfigFile::Missing)
        .expect_err("missing path should be rejected");

    assert!(matches!(err, ConfigError::InvalidWorkspaceRoot(_)));
    assert_eq!(
        err,
        ConfigError::InvalidWorkspaceRoot(
            "workspace root does not exist: /tmp/dir/missing".to_string()
        )
    );
}

#[test]
fn the_default_configuration_is_as_documented() {
    let config = AppConfig::default();
    assert_eq!(config.autosave_ms, 1500);
    assert_eq!(config.theme, "light");
    assert_eq!(config.font_size, 16);
    assert_eq!(config.recent_files_limit, 20);
    assert_eq!(config.line_width_hint, 88);
    assert_eq!(config.ui_language, "en");
    assert!(!config.show_debug_panels);
    assert_eq!(config.workspace_root, None);
    assert_eq!(merge_with_default(nothing()), config);
}

#[test]
fn a_configuration_file_overrides_the_defaults_where_it_speaks() {
    let partial = PartialConfig {
        autosave_ms: Some(250),
        theme: Some("dark".to_string()),
        font_size: None,
        recent_files_limit: Some(5),
        line_width_hint: None,
        ui_language: Some("de".to_string()),
        show_debug_panels: Some(true),
        workspace_root: Some("/ws".to_string()),
    };
    assert_eq!(
        merge_with_default(partial),
        AppConfig {
            autosave_ms: 250,
            theme: "dark".to_string(),
            font_size: 16,
            recent_files_limit: 5,
            line_width_hint: 88,
            ui_language: "de".to_string(),
            show_debug_panels: true,
            workspace_root: Some("/ws".to_string()),
        }
    );
}

#[test]
fn a_blank_workspace_root_counts_as_none() {
    for blank in ["", "  ", "\t\n"] {
        let mut partial = nothing();
        partial.workspace_root = Some(blank.to_string());
        assert_eq!(merge_with_default(partial).workspace_root, None);
    }
    let mut partial = nothing();
    partial.workspace_root = Some(" /ws ".to_string());
    assert_eq!(merge_with_default(partial).workspace_root, Some(" /ws ".to_string()));
}

#[test]
fn no_file_and_a_blank_file_give_the_defaults() {
    assert_eq!(load_from_path(&ConfigFile::Missing), Ok(AppConfig::default()));
    assert_eq!(load_from_path(&found("")), Ok(AppConfig::default()));
    let blank = ConfigFile::Text { raw: " \n\t".to_string(), parsed: Err("unused".to_string()) };
    assert_eq!(load_from_path(&blank), Ok(AppConfig::default()));
}

#[test]
fn a_configuration_file_is_read_through_toml() {
    let loaded = load_from_path(&found("theme = \"dark\"\nfont_size = 12\n")).unwrap();
    assert_eq!(loaded.theme, "dark");
    assert_eq!(loaded.font_size, 12);
    assert_eq!(loaded.autosave_ms, 1500);

    let broken = found("theme = ");
    let message = match &broken {
        ConfigFile::Text { parsed: Err(message), .. } => message.clone(),
        _ => panic!("the text is no configuration"),
    };
    assert_eq!(load_from_path(&broken), Err(ConfigError::Parse(message)));
}

#[test]
fn a_file_that_cannot_be_read_is_a_failure() {
    let failure = IoFailure { permission_denied: true, message: "denied".to_string() };
    assert_eq!(
        load_from_path(&ConfigFile::Unreadable(failure.clone())),
        Err(ConfigError::Io(failure))
    );
}

#[test]
fn the_configuration_file_lies_below_the_home_directory() {
    assert_eq!(
        default_config_path(Some("/home/ann")),
        Ok("/home/ann/.ferrumnote/config.toml".to_string())
    );
    assert_eq!(
        default_config_path(Some("/home/ann/")),
        Ok("/home/ann/.ferrumnote/config.toml".to_string())
    );
    assert_eq!(default_config_path(Some("")), Ok(".ferrumnote/config.toml".to_string()));
    assert_eq!(default_config_path(None), Err(ConfigError::HomeUnavailable));
    for home in ["/home/ann", "/", "", "rel/home", "/home//ann//"] {
        let expected = std::path::PathBuf::from(home).join(".ferrumnote").join("config.toml");
        assert_eq!(default_config_path(Some(home)), Ok(expected.to_str().unwrap().to_string()));
    }
}

#[test]
fn loading_needs_a_home_directory() {
    assert_eq!(load(None, &ConfigFile::Missing), Err(ConfigError::HomeUnavailable));
    assert_eq!(load(Some("/home/ann"), &ConfigFile::Missing), Ok(AppConfig::default()));
    assert_eq!(load(Some("/home/ann"), &found("ui_language = \"fr\"")).unwrap().ui_language, "fr");
}

#[test]
fn setting_the_workspace_root_checks_the_directory() {
    let file = found("theme = \"dark\"");
    assert_eq!(
        set_workspace_root_at_path("  ", &directory("/ws"), &file),
        Err(ConfigError::InvalidWorkspaceRoot("workspace root is empty".to_string()))
    );
    let a_file = PathReport { kind: PathKind::File, canonical: Ok("/ws.md".to_string()) };
    assert_eq!(
        set_workspace_root_at_path("/ws.md", &a_file, &file),
        Err(ConfigError::InvalidWorkspaceRoot(
            "workspace root is not a directory: /ws.md".to_string()
        ))
    );
    let failure = IoFailure { permission_denied: false, message: "loop".to_string() };
    let unresolved = PathReport { kind: PathKind::Directory, canonical: Err(failure.clone()) };
    assert_eq!(
        set_workspace_root_at_path("/ws", &unresolved, &file),
        Err(ConfigError::Io(failure))
    );
    let saved = set_workspace_root_at_path("/ws/", &directory("/ws"), &file).unwrap();
    assert_eq!(saved.theme, "dark");
    assert_eq!(saved.workspace_root, Some("/ws".to_string()));
    let broken = ConfigFile::Text { raw: "x".to_string(), parsed: Err("bad".to_string()) };
    assert_eq!(
        set_workspace_root_at_path("/ws", &directory("/ws"), &broken),
        Err(ConfigError::Parse("bad".to_string()))
    );
}

#[test]
fn setting_the_workspace_root_needs_a_home_directory() {
    assert_eq!(
        set_workspace_root("/ws", None, &directory("/ws"), &ConfigFile::Missing),
        Err(ConfigError::HomeUnavailable)
    );
    let saved =
        set_workspace_root("/ws", Some("/home/ann"), &directory("/ws"), &ConfigFile::Missing)
            .unwrap();
    assert_eq!(saved.workspace_root, Some("/ws".to_string()));
    assert_eq!(saved.theme, "light");
}

#[test]
fn the_default_configuration_is_written_only_where_none_is() {
    assert_eq!(
        write_default_if_missing(Some("/home/ann"), true),
        Ok(ConfigWrite { path: "/home/ann/.ferrumnote/config.toml".to_string(), config: None })
    );
    assert_eq!(
        write_default_if_missing(Some("/home/ann"), false),
        Ok(ConfigWrite {
            path: "/home/ann/.ferrumnote/config.toml".to_string(),
            config: Some(AppConfig::default())
        })
    );
    assert_eq!(write_default_if_missing(None, false), Err(ConfigError::HomeUnavailable));
}

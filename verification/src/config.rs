//! The configuration of the application: its defaults, what a configuration
//! file adds to them, and the workspace root that it records.

use vstd::prelude::*;
use vstd::string::*;
use crate::error::{copy_failure, IoFailure, IoFailureView};
use crate::observe::{PathKind, PathReport, PathReportView};
use crate::path::{join, join_path};
use crate::text::{is_blank, is_blank_str, text_of};

verus! {

/// The configuration of the application.
#[derive(Debug, Clone, PartialEq, Eq)]
pub struct AppConfig {
    pub autosave_ms: u64,
    pub theme: String,
    pub font_size: u16,
    pub recent_files_limit: usize,
    pub line_width_hint: u16,
    pub ui_language: String,
    pub show_debug_panels: bool,
    pub workspace_root: Option<String>,
}

/// A configuration with its texts as sequences of characters.
pub struct AppConfigView {
    pub autosave_ms: u64,
    pub theme: Seq<char>,
    pub font_size: u16,
    pub recent_files_limit: usize,
    pub line_width_hint: u16,
    pub ui_language: Seq<char>,
    pub show_debug_panels: bool,
    pub workspace_root: Option<Seq<char>>,
}

impl View for AppConfig {
    type V = AppConfigView;

    open spec fn view(&self) -> AppConfigView {
        AppConfigView {
            autosave_ms: self.autosave_ms,
            theme: self.theme@,
            font_size: self.font_size,
            recent_files_limit: self.recent_files_limit,
            line_width_hint: self.line_width_hint,
            ui_language: self.ui_language@,
            show_debug_panels: self.show_debug_panels,
            workspace_root: text_of(self.workspace_root),
        }
    }
}

/// The configuration that holds where nothing else is said.
pub open spec fn default_config() -> AppConfigView {
    AppConfigView {
        autosave_ms: 1500,
        theme: "light"@,
        font_size: 16,
        recent_files_limit: 20,
        line_width_hint: 88,
        ui_language: "en"@,
        show_debug_panels: false,
        workspace_root: None,
    }
}

impl Default for AppConfig {
    fn default() -> (config: Self)
        ensures
            config@ == default_config(),
    {
        AppConfig {
            autosave_ms: 1500,
            theme: String::from_str("light"),
            font_size: 16,
            recent_files_limit: 20,
            line_width_hint: 88,
            ui_language: String::from_str("en"),
            show_debug_panels: false,
            workspace_root: None,
        }
    }
}

/// What a configuration file says: each setting is there or not.
#[derive(Debug, Clone, PartialEq, Eq)]
pub struct PartialConfig {
    pub autosave_ms: Option<u64>,
    pub theme: Option<String>,
    pub font_size: Option<u16>,
    pub recent_files_limit: Option<usize>,
    pub line_width_hint: Option<u16>,
    pub ui_language: Option<String>,
    pub show_debug_panels: Option<bool>,
    pub workspace_root: Option<String>,
}

/// What a configuration file says, with its texts as sequences of characters.
pub struct PartialConfigView {
    pub autosave_ms: Option<u64>,
    pub theme: Option<Seq<char>>,
    pub font_size: Option<u16>,
    pub recent_files_limit: Option<usize>,
    pub line_width_hint: Option<u16>,
    pub ui_language: Option<Seq<char>>,
    pub show_debug_panels: Option<bool>,
    pub workspace_root: Option<Seq<char>>,
}

impl View for PartialConfig {
    type V = PartialConfigView;

    open spec fn view(&self) -> PartialConfigView {
        PartialConfigView {
            autosave_ms: self.autosave_ms,
            theme: text_of(self.theme),
            font_size: self.font_size,
            recent_files_limit: self.recent_files_limit,
            line_width_hint: self.line_width_hint,
            ui_language: text_of(self.ui_language),
            show_debug_panels: self.show_debug_panels,
            workspace_root: text_of(self.workspace_root),
        }
    }
}

/// Why the configuration could not be read or changed.
#[derive(Debug, Clone, PartialEq, Eq)]
pub enum ConfigError {
    /// The file system failed.
    Io(IoFailure),
    /// The configuration file is not what it should be; the text says why.
    Parse(String),
    /// The configuration could not be written down; the text says why.
    Serialize(String),
    /// The home directory is not known.
    HomeUnavailable,
    /// The workspace root cannot be used; the text says why.
    InvalidWorkspaceRoot(String),
}

/// An error with its texts as sequences of characters.
pub enum ConfigErrorView {
    Io(IoFailureView),
    Parse(Seq<char>),
    Serialize(Seq<char>),
    HomeUnavailable,
    InvalidWorkspaceRoot(Seq<char>),
}

impl View for ConfigError {
    type V = ConfigErrorView;

    open spec fn view(&self) -> ConfigErrorView {
        match self {
            ConfigError::Io(f) => ConfigErrorView::Io(f@),
            ConfigError::Parse(t) => ConfigErrorView::Parse(t@),
            ConfigError::Serialize(t) => ConfigErrorView::Serialize(t@),
            ConfigError::HomeUnavailable => ConfigErrorView::HomeUnavailable,
            ConfigError::InvalidWorkspaceRoot(t) => ConfigErrorView::InvalidWorkspaceRoot(t@),
        }
    }
}

/// The view of a result: of its value or of its error.
pub open spec fn config_outcome<T: View>(r: Result<T, ConfigError>) -> Result<
    T::V,
    ConfigErrorView,
> {
    match r {
        Ok(v) => Ok(v@),
        Err(e) => Err(e@),
    }
}

/// The configuration that a file gives: what the file says where it says
/// something, the default elsewhere. A workspace root that is blank counts as
/// not said.
pub open spec fn merged(partial: PartialConfigView) -> AppConfigView {
    let defaults = default_config();
    AppConfigView {
        autosave_ms: match partial.autosave_ms {
            Some(v) => v,
            None => defaults.autosave_ms,
        },
        theme: match partial.theme {
            Some(v) => v,
            None => defaults.theme,
        },
        font_size: match partial.font_size {
            Some(v) => v,
            None => defaults.font_size,
        },
        recent_files_limit: match partial.recent_files_limit {
            Some(v) => v,
            None => defaults.recent_files_limit,
        },
        line_width_hint: match partial.line_width_hint {
            Some(v) => v,
            None => defaults.line_width_hint,
        },
        ui_language: match partial.ui_language {
            Some(v) => v,
            None => defaults.ui_language,
        },
        show_debug_panels: match partial.show_debug_panels {
            Some(v) => v,
            None => defaults.show_debug_panels,
        },
        workspace_root: match partial.workspace_root {
            Some(root) => if is_blank(root) {
                defaults.workspace_root
            } else {
                Some(root)
            },
            None => defaults.workspace_root,
        },
    }
}

/// The configuration that the file gives: what it says, and the default for
/// what it does not say.
pub fn merge_with_default(partial: PartialConfig) -> (config: AppConfig)
    ensures
        config@ == merged(partial@),
{
    let defaults = AppConfig::default();
    let workspace_root = match partial.workspace_root {
        Some(root) => {
            if is_blank_str(root.as_str()) {
                defaults.workspace_root
            } else {
                Some(root)
            }
        },
        None => defaults.workspace_root,
    };
    AppConfig {
        autosave_ms: match partial.autosave_ms {
            Some(v) => v,
            None => defaults.autosave_ms,
        },
        theme: match partial.theme {
            Some(v) => v,
            None => defaults.theme,
        },
        font_size: match partial.font_size {
            Some(v) => v,
            None => defaults.font_size,
        },
        recent_files_limit: match partial.recent_files_limit {
            Some(v) => v,
            None => defaults.recent_files_limit,
        },
        line_width_hint: match partial.line_width_hint {
            Some(v) => v,
            None => defaults.line_width_hint,
        },
        ui_language: match partial.ui_language {
            Some(v) => v,
            None => defaults.ui_language,
        },
        show_debug_panels: match partial.show_debug_panels {
            Some(v) => v,
            None => defaults.show_debug_panels,
        },
        workspace_root,
    }
}

/// The home directory as it was given.
pub open spec fn home_text(home: Option<&str>) -> Option<Seq<char>> {
    match home {
        Some(h) => Some(h@),
        None => None,
    }
}

/// The path of the configuration file below the home directory.
pub open spec fn config_path(home: Option<Seq<char>>) -> Result<Seq<char>, ConfigErrorView> {
    match home {
        None => Err(ConfigErrorView::HomeUnavailable),
        Some(h) => Ok(join(join(h, ".ferrumnote"@), "config.toml"@)),
    }
}

/// The path of the configuration file: `.ferrumnote/config.toml` below the
/// home directory `home`. Fails with `HomeUnavailable` when no home directory
/// is known.
pub fn default_config_path(home: Option<&str>) -> (out: Result<String, ConfigError>)
    ensures
        config_outcome(out) == config_path(home_text(home)),
{
    match home {
        None => Err(ConfigError::HomeUnavailable),
        Some(h) => {
            let dir = join_path(h, ".ferrumnote");
            Ok(join_path(dir.as_str(), "config.toml"))
        },
    }
}

/// What was found where the configuration file should be: nothing, a file
/// that could not be read, or its text with what parsing made of it.
#[derive(Debug, PartialEq, Eq)]
pub enum ConfigFile {
    Missing,
    Unreadable(IoFailure),
    Text { raw: String, parsed: Result<PartialConfig, String> },
}

/// What was found, with its texts as sequences of characters.
pub enum ConfigFileView {
    Missing,
    Unreadable(IoFailureView),
    Text { raw: Seq<char>, parsed: Result<PartialConfigView, Seq<char>> },
}

impl View for ConfigFile {
    type V = ConfigFileView;

    open spec fn view(&self) -> ConfigFileView {
        match self {
            ConfigFile::Missing => ConfigFileView::Missing,
            ConfigFile::Unreadable(f) => ConfigFileView::Unreadable(f@),
            ConfigFile::Text { raw, parsed } => ConfigFileView::Text {
                raw: raw@,
                parsed: match parsed {
                    Ok(p) => Ok(p@),
                    Err(t) => Err(t@),
                },
            },
        }
    }
}

/// The configuration that holds given what was found where the file should
/// be: the default when there is no file or a blank one.
pub open spec fn loaded(file: ConfigFileView) -> Result<AppConfigView, ConfigErrorView> {
    match file {
        ConfigFileView::Missing => Ok(default_config()),
        ConfigFileView::Unreadable(f) => Err(ConfigErrorView::Io(f)),
        ConfigFileView::Text { raw, parsed } => if is_blank(raw) {
            Ok(default_config())
        } else {
            match parsed {
                Err(t) => Err(ConfigErrorView::Parse(t)),
                Ok(p) => Ok(merged(p)),
            }
        },
    }
}

fn copy_partial(p: &PartialConfig) -> (out: PartialConfig)
    ensures
        out@ == p@,
{
    PartialConfig {
        autosave_ms: p.autosave_ms,
        theme: match &p.theme {
            Some(t) => Some(t.clone()),
            None => None,
        },
        font_size: p.font_size,
        recent_files_limit: p.recent_files_limit,
        line_width_hint: p.line_width_hint,
        ui_language: match &p.ui_language {
            Some(t) => Some(t.clone()),
            None => None,
        },
        show_debug_panels: p.show_debug_panels,
        workspace_root: match &p.workspace_root {
            Some(t) => Some(t.clone()),
            None => None,
        },
    }
}

/// The configuration that holds, where `file` is what was found at the path
/// of the configuration file. No file and a blank file give the defaults.
/// Fails with the failure to read the file and with `Parse` when its text is
/// not a configuration.
pub fn load_from_path(file: &ConfigFile) -> (out: Result<AppConfig, ConfigError>)
    ensures
        config_outcome(out) == loaded(file@),
{
    match file {
        ConfigFile::Missing => Ok(AppConfig::default()),
        ConfigFile::Unreadable(f) => Err(ConfigError::Io(copy_failure(f))),
        ConfigFile::Text { raw, parsed } => {
            if is_blank_str(raw.as_str()) {
                return Ok(AppConfig::default());
            }
            match parsed {
                Err(t) => Err(ConfigError::Parse(t.clone())),
                Ok(p) => Ok(merge_with_default(copy_partial(p))),
            }
        },
    }
}

/// The configuration of the application, given the home directory and what
/// was found at the path of the configuration file below it.
pub open spec fn load_outcome(home: Option<Seq<char>>, file: ConfigFileView) -> Result<
    AppConfigView,
    ConfigErrorView,
> {
    match config_path(home) {
        Err(e) => Err(e),
        Ok(_) => loaded(file),
    }
}

/// The configuration of the application. `home` is the home directory, if it
/// is known, and `file` what was found at `default_config_path(home)`. Fails
/// with `HomeUnavailable` when no home directory is known, and as
/// `load_from_path` does.
pub fn load(home: Option<&str>, file: &ConfigFile) -> (out: Result<AppConfig, ConfigError>)
    ensures
        config_outcome(out) == load_outcome(home_text(home), file@),
{
    match default_config_path(home) {
        Err(e) => Err(e),
        Ok(_) => load_from_path(file),
    }
}

/// The configuration that records `workspace_path` as workspace root, given
/// what the file system reports of that path and what was found at the path
/// of the configuration file.
pub open spec fn rooted_config(
    workspace_path: Seq<char>,
    workspace: PathReportView,
    file: ConfigFileView,
) -> Result<AppConfigView, ConfigErrorView> {
    if is_blank(workspace_path) {
        Err(ConfigErrorView::InvalidWorkspaceRoot("workspace root is empty"@))
    } else if workspace.kind == PathKind::Missing {
        Err(
            ConfigErrorView::InvalidWorkspaceRoot(
                "workspace root does not exist: "@ + workspace_path,
            ),
        )
    } else if workspace.kind != PathKind::Directory {
        Err(
            ConfigErrorView::InvalidWorkspaceRoot(
                "workspace root is not a directory: "@ + workspace_path,
            ),
        )
    } else {
        match workspace.canonical {
            Err(f) => Err(ConfigErrorView::Io(f)),
            Ok(canonical) => match loaded(file) {
                Err(e) => Err(e),
                Ok(config) => Ok(
                    AppConfigView {
                        autosave_ms: config.autosave_ms,
                        theme: config.theme,
                        font_size: config.font_size,
                        recent_files_limit: config.recent_files_limit,
                        line_width_hint: config.line_width_hint,
                        ui_language: config.ui_language,
                        show_debug_panels: config.show_debug_panels,
                        workspace_root: Some(canonical),
                    },
                ),
            },
        }
    }
}

/// The configuration to write down so that `workspace_path` becomes the
/// workspace root: the configuration that holds now, with the canonical form
/// of that path as its root. `workspace` is what the file system reports of
/// the path and `file` what was found at the path of the configuration file.
/// Fails with `InvalidWorkspaceRoot` when the path is blank, missing or no
/// directory, with the failure to resolve it, and as `load_from_path` does.
pub fn set_workspace_root_at_path(
    workspace_path: &str,
    workspace: &PathReport,
    file: &ConfigFile,
) -> (out: Result<AppConfig, ConfigError>)
    ensures
        config_outcome(out) == rooted_config(workspace_path@, workspace@, file@),
{
    if is_blank_str(workspace_path) {
        return Err(ConfigError::InvalidWorkspaceRoot(String::from_str("workspace root is empty")));
    }
    match workspace.kind {
        PathKind::Missing => {
            return Err(
                ConfigError::InvalidWorkspaceRoot(
                    String::from_str("workspace root does not exist: ").concat(workspace_path),
                ),
            );
        },
        PathKind::Directory => {},
        _ => {
            return Err(
                ConfigError::InvalidWorkspaceRoot(
                    String::from_str("workspace root is not a directory: ").concat(
                        workspace_path,
                    ),
                ),
            );
        },
    }
    let canonical = match &workspace.canonical {
        Err(f) => {
            return Err(ConfigError::Io(copy_failure(f)));
        },
        Ok(c) => c.clone(),
    };
    match load_from_path(file) {
        Err(e) => Err(e),
        Ok(config) => Ok(
            AppConfig {
                autosave_ms: config.autosave_ms,
                theme: config.theme,
                font_size: config.font_size,
                recent_files_limit: config.recent_files_limit,
                line_width_hint: config.line_width_hint,
                ui_language: config.ui_language,
                show_debug_panels: config.show_debug_panels,
                workspace_root: Some(canonical),
            },
        ),
    }
}

/// The configuration to write down so that `workspace_path` becomes the
/// workspace root, given the home directory as well.
pub open spec fn set_root_outcome(
    workspace_path: Seq<char>,
    home: Option<Seq<char>>,
    workspace: PathReportView,
    file: ConfigFileView,
) -> Result<AppConfigView, ConfigErrorView> {
    match config_path(home) {
        Err(e) => Err(e),
        Ok(_) => rooted_config(workspace_path, workspace, file),
    }
}

/// The configuration to write to `default_config_path(home)` so that `path`
/// becomes the workspace root. `home` is the home directory, if it is known,
/// `workspace` what the file system reports of `path`, and `file` what was
/// found at the path of the configuration file. Fails with `HomeUnavailable`
/// when no home directory is known, and as `set_workspace_root_at_path` does.
pub fn set_workspace_root(
    path: &str,
    home: Option<&str>,
    workspace: &PathReport,
    file: &ConfigFile,
) -> (out: Result<AppConfig, ConfigError>)
    ensures
        config_outcome(out) == set_root_outcome(path@, home_text(home), workspace@, file@),
{
    match default_config_path(home) {
        Err(e) => Err(e),
        Ok(_) => set_workspace_root_at_path(path, workspace, file),
    }
}

/// Where the configuration file lies and what is to be written there, if
/// anything.
#[derive(Debug, Clone, PartialEq, Eq)]
pub struct ConfigWrite {
    pub path: String,
    pub config: Option<AppConfig>,
}

/// Where the configuration file lies and what is to be written there, with
/// the texts as sequences of characters.
pub struct ConfigWriteView {
    pub path: Seq<char>,
    pub config: Option<AppConfigView>,
}

impl View for ConfigWrite {
    type V = ConfigWriteView;

    open spec fn view(&self) -> ConfigWriteView {
        ConfigWriteView {
            path: self.path@,
            config: match self.config {
                Some(c) => Some(c@),
                None => None,
            },
        }
    }
}

/// What is to be written where the configuration file lies: the default
/// configuration when nothing is there, nothing otherwise.
pub open spec fn default_write(home: Option<Seq<char>>, exists: bool) -> Result<
    ConfigWriteView,
    ConfigErrorView,
> {
    match config_path(home) {
        Err(e) => Err(e),
        Ok(p) => Ok(
            ConfigWriteView {
                path: p,
                config: if exists {
                    None
                } else {
                    Some(default_config())
                },
            },
        ),
    }
}

/// Decides whether the default configuration is to be written: it is when no
/// configuration file exists. `home` is the home directory, if it is known,
/// and `exists` tells whether something lies at `default_config_path(home)`.
/// Fails with `HomeUnavailable` when no home directory is known.
pub fn write_default_if_missing(home: Option<&str>, exists: bool) -> (out: Result<
    ConfigWrite,
    ConfigError,
>)
    ensures
        config_outcome(out) == default_write(home_text(home), exists),
{
    match default_config_path(home) {
        Err(e) => Err(e),
        Ok(path) => {
            if exists {
                Ok(ConfigWrite { path, config: None })
            } else {
                Ok(ConfigWrite { path, config: Some(AppConfig::default()) })
            }
        },
    }
}

} // verus!

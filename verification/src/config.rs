//! Settings of the application, with their defaults.
use vstd::prelude::*;
use crate::theme::ThemeConfig;
use crate::paths::{join, path_join};

verus! {

/// Editor settings.
#[derive(Debug, Clone)]
pub struct EditorConfig {
    pub tab_size: usize,
    pub show_line_numbers: bool,
    pub syntax_highlighting: bool,
}

/// File browser settings.
#[derive(Debug, Clone)]
pub struct FileBrowserConfig {
    pub show_hidden: bool,
    pub confirm_delete: bool,
}

/// All settings.
#[derive(Debug, Clone)]
pub struct Config {
    pub theme: ThemeConfig,
    pub editor: EditorConfig,
    pub file_browser: FileBrowserConfig,
}

impl Default for EditorConfig {
    fn default() -> (c: Self)
        ensures
            c.tab_size == 4,
            c.show_line_numbers,
            c.syntax_highlighting,
    {
        EditorConfig { tab_size: 4, show_line_numbers: true, syntax_highlighting: true }
    }
}

impl Default for FileBrowserConfig {
    fn default() -> (c: Self)
        ensures
            !c.show_hidden,
            c.confirm_delete,
    {
        FileBrowserConfig { show_hidden: false, confirm_delete: true }
    }
}

impl Default for Config {
    fn default() -> (c: Self)
        ensures
            c.theme.is_default(),
            c.editor.tab_size == 4,
            c.editor.show_line_numbers,
            c.editor.syntax_highlighting,
            !c.file_browser.show_hidden,
            c.file_browser.confirm_delete,
    {
        Config {
            theme: ThemeConfig::default(),
            editor: EditorConfig::default(),
            file_browser: FileBrowserConfig::default(),
        }
    }
}

/// The configuration directory that the platform's conventions give for an
/// application (`directories::ProjectDirs::from(..).config_dir()`), if a home
/// directory is known.  It depends on the environment, so nothing is claimed
/// of the result.
#[verifier::external_body]
fn project_config_dir(qualifier: &str, organization: &str, application: &str) -> (r: Option<String>) {
    directories::ProjectDirs::from(qualifier, organization, application).map(
        |d| d.config_dir().to_string_lossy().into_owned(),
    )
}

/// The settings file in the configuration directory `dir`, or in the working
/// directory when there is none.
pub open spec fn config_path_of(dir: Option<Seq<char>>) -> Seq<char> {
    match dir {
        Some(d) => path_join(d, "config.toml"@),
        None => "config.toml"@,
    }
}

/// The text of a directory, if there is one.
pub open spec fn dir_view(dir: Option<String>) -> Option<Seq<char>> {
    match dir {
        Some(d) => Some(d@),
        None => None,
    }
}

/// `p` names the settings file: `config.toml` joined to some directory, or
/// `config.toml` alone.
pub open spec fn is_config_path(p: Seq<char>) -> bool {
    exists|dir: Option<Seq<char>>| p == #[trigger] config_path_of(dir)
}

/// The qualifier, organization and application name under which the
/// configuration directory is looked up.
pub fn config_identity() -> (r: (&'static str, &'static str, &'static str))
    ensures
        r.0@ == "com"@,
        r.1@ == "NeoFM"@,
        r.2@ == "nfm"@,
{
    ("com", "NeoFM", "nfm")
}

/// The settings file for the configuration directory `dir` that the platform
/// gave (`None` when it gave none).
pub fn config_path_in(dir: Option<String>) -> (p: String)
    ensures
        p@ == config_path_of(dir_view(dir)),
{
    match dir {
        Some(d) => join(d.as_str(), "config.toml"),
        None => crate::text::string_of("config.toml"),
    }
}

/// Where the settings file lives: `config.toml` in the configuration
/// directory that the platform gives for `config_identity()`, or in the
/// working directory when there is none.
pub fn get_config_path() -> (p: String)
    ensures
        is_config_path(p@),
{
    let (qualifier, organization, application) = config_identity();
    let dir = project_config_dir(qualifier, organization, application);
    let ghost d = dir_view(dir);
    let p = config_path_in(dir);
    assert(p@ == config_path_of(d));
    p
}

} // verus!

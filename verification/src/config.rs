//! The configuration of an application and its defaults.

use vstd::prelude::*;
use vstd::string::*;
use crate::text::chars_of;

verus! {

/// The window of the application.
#[derive(PartialEq, Eq, Clone, Debug)]
pub struct WindowConfig {
    pub width: i32,
    pub height: i32,
    pub resizable: bool,
    pub title: String,
    pub fullscreen: bool,
}

/// The default width of the window: 800.
pub fn default_width() -> (w: i32)
    ensures
        w == 800,
{
    800
}

/// The default height of the window: 600.
pub fn default_height() -> (h: i32)
    ensures
        h == 600,
{
    600
}

/// Whether the window can be resized by default: it can.
pub fn default_resizable() -> (b: bool)
    ensures
        b,
{
    true
}

/// The default title of the window.
pub fn default_title() -> (s: String)
    ensures
        s@ == "Tauri App"@,
{
    String::from_str("Tauri App")
}

/// The window with every setting at its default.
pub fn default_window() -> (w: WindowConfig)
    ensures
        w.width == 800,
        w.height == 600,
        w.resizable,
        w.title@ == "Tauri App"@,
        !w.fullscreen,
{
    WindowConfig {
        width: default_width(),
        height: default_height(),
        resizable: default_resizable(),
        title: default_title(),
        fullscreen: false,
    }
}

/// The server that hands the assets to the webview.
#[derive(PartialEq, Eq, Clone, Debug)]
pub struct EmbeddedServerConfig {
    pub host: String,
    pub port: String,
}

/// The default host of the embedded server.
pub fn default_host() -> (s: String)
    ensures
        s@ == "http://127.0.0.1"@,
{
    String::from_str("http://127.0.0.1")
}

/// The default port of the embedded server: any free one.
pub fn default_port() -> (s: String)
    ensures
        s@ == "random"@,
{
    String::from_str("random")
}

/// The embedded server with every setting at its default.
pub fn default_embedded_server() -> (c: EmbeddedServerConfig)
    ensures
        c.host@ == "http://127.0.0.1"@,
        c.port@ == "random"@,
{
    EmbeddedServerConfig { host: default_host(), port: default_port() }
}

/// An argument of the command line of the application.
#[derive(PartialEq, Eq, Clone, Debug, Default)]
pub struct CliArg {
    pub short: Option<char>,
    pub name: String,
    pub description: Option<String>,
    pub long_description: Option<String>,
    pub takes_value: Option<bool>,
    pub multiple: Option<bool>,
    pub multiple_occurrences: Option<bool>,
    pub number_of_values: Option<u64>,
    pub possible_values: Option<Vec<String>>,
    pub min_values: Option<u64>,
    pub max_values: Option<u64>,
    pub required: Option<bool>,
    pub required_unless: Option<String>,
    pub required_unless_all: Option<Vec<String>>,
    pub required_unless_one: Option<Vec<String>>,
    pub conflicts_with: Option<String>,
    pub conflicts_with_all: Option<Vec<String>>,
    pub requires: Option<String>,
    pub requires_all: Option<Vec<String>>,
    pub requires_if: Option<Vec<String>>,
    pub required_if: Option<Vec<String>>,
    pub require_equals: Option<bool>,
}

/// A subcommand under its name.
#[derive(PartialEq, Eq, Debug)]
pub struct NamedSubcommand {
    pub name: String,
    pub subcommand: CliSubcommand,
}

/// A subcommand of the command line.
#[derive(PartialEq, Eq, Debug)]
pub struct CliSubcommand {
    pub description: Option<String>,
    pub long_description: Option<String>,
    pub before_help: Option<String>,
    pub after_help: Option<String>,
    pub args: Option<Vec<CliArg>>,
    pub subcommands: Option<Vec<NamedSubcommand>>,
}

/// The command line of the application.
#[derive(PartialEq, Eq, Debug)]
pub struct CliConfig {
    pub description: Option<String>,
    pub long_description: Option<String>,
    pub before_help: Option<String>,
    pub after_help: Option<String>,
    pub args: Option<Vec<CliArg>>,
    pub subcommands: Option<Vec<NamedSubcommand>>,
}

/// What a command and a subcommand have in common.
pub trait Cli {
    /// The declared arguments.
    spec fn spec_args(&self) -> Option<Vec<CliArg>>;

    /// The declared subcommands.
    spec fn spec_subcommands(&self) -> Option<Vec<NamedSubcommand>>;

    /// The short description.
    spec fn spec_description(&self) -> Option<String>;

    /// The text shown before the help.
    spec fn spec_before_help(&self) -> Option<String>;

    /// The text shown after the help.
    spec fn spec_after_help(&self) -> Option<String>;

    /// The declared arguments.
    fn args(&self) -> (r: Option<&Vec<CliArg>>)
        ensures
            r is Some == self.spec_args() is Some,
            r is Some ==> *r->0 == self.spec_args()->0,
    ;

    /// The declared subcommands.
    fn subcommands(&self) -> (r: Option<&Vec<NamedSubcommand>>)
        ensures
            r is Some == self.spec_subcommands() is Some,
            r is Some ==> *r->0 == self.spec_subcommands()->0,
    ;

    /// The short description.
    fn description(&self) -> (r: Option<&String>)
        ensures
            r is Some == self.spec_description() is Some,
            r is Some ==> *r->0 == self.spec_description()->0,
    ;

    /// The long description, which is the short one.
    fn long_description(&self) -> (r: Option<&String>)
        ensures
            r is Some == self.spec_description() is Some,
            r is Some ==> *r->0 == self.spec_description()->0,
    ;

    /// The text shown before the help.
    fn before_help(&self) -> (r: Option<&String>)
        ensures
            r is Some == self.spec_before_help() is Some,
            r is Some ==> *r->0 == self.spec_before_help()->0,
    ;

    /// The text shown after the help.
    fn after_help(&self) -> (r: Option<&String>)
        ensures
            r is Some == self.spec_after_help() is Some,
            r is Some ==> *r->0 == self.spec_after_help()->0,
    ;
}

impl Cli for CliSubcommand {
    open spec fn spec_args(&self) -> Option<Vec<CliArg>> {
        self.args
    }

    open spec fn spec_subcommands(&self) -> Option<Vec<NamedSubcommand>> {
        self.subcommands
    }

    open spec fn spec_description(&self) -> Option<String> {
        self.description
    }

    open spec fn spec_before_help(&self) -> Option<String> {
        self.before_help
    }

    open spec fn spec_after_help(&self) -> Option<String> {
        self.after_help
    }

    fn args(&self) -> (r: Option<&Vec<CliArg>>) {
        self.args.as_ref()
    }

    fn subcommands(&self) -> (r: Option<&Vec<NamedSubcommand>>) {
        self.subcommands.as_ref()
    }

    fn description(&self) -> (r: Option<&String>) {
        self.description.as_ref()
    }

    fn long_description(&self) -> (r: Option<&String>) {
        self.description.as_ref()
    }

    fn before_help(&self) -> (r: Option<&String>) {
        self.before_help.as_ref()
    }

    fn after_help(&self) -> (r: Option<&String>) {
        self.after_help.as_ref()
    }
}

impl Cli for CliConfig {
    open spec fn spec_args(&self) -> Option<Vec<CliArg>> {
        self.args
    }

    open spec fn spec_subcommands(&self) -> Option<Vec<NamedSubcommand>> {
        self.subcommands
    }

    open spec fn spec_description(&self) -> Option<String> {
        self.description
    }

    open spec fn spec_before_help(&self) -> Option<String> {
        self.before_help
    }

    open spec fn spec_after_help(&self) -> Option<String> {
        self.after_help
    }

    fn args(&self) -> (r: Option<&Vec<CliArg>>) {
        self.args.as_ref()
    }

    fn subcommands(&self) -> (r: Option<&Vec<NamedSubcommand>>) {
        self.subcommands.as_ref()
    }

    fn description(&self) -> (r: Option<&String>) {
        self.description.as_ref()
    }

    fn long_description(&self) -> (r: Option<&String>) {
        self.description.as_ref()
    }

    fn before_help(&self) -> (r: Option<&String>) {
        self.before_help.as_ref()
    }

    fn after_help(&self) -> (r: Option<&String>) {
        self.after_help.as_ref()
    }
}

/// What concerns the running application.
#[derive(PartialEq, Eq, Debug)]
pub struct TauriConfig {
    pub window: WindowConfig,
    pub embedded_server: EmbeddedServerConfig,
    pub cli: Option<CliConfig>,
}

/// What concerns the build.
#[derive(PartialEq, Eq, Clone, Debug)]
pub struct BuildConfig {
    pub dev_path: String,
}

/// The default path of the development server: none.
pub fn default_dev_path() -> (s: String)
    ensures
        s@.len() == 0,
{
    String::new()
}

/// The whole configuration.
#[derive(PartialEq, Eq, Debug)]
pub struct Config {
    pub tauri: TauriConfig,
    pub build: BuildConfig,
}

/// The application settings at their defaults, without a command line.
pub fn default_tauri() -> (c: TauriConfig)
    ensures
        c.window.width == 800,
        c.window.height == 600,
        c.window.resizable,
        c.window.title@ == "Tauri App"@,
        !c.window.fullscreen,
        c.embedded_server.host@ == "http://127.0.0.1"@,
        c.embedded_server.port@ == "random"@,
        c.cli is None,
{
    TauriConfig { window: default_window(), embedded_server: default_embedded_server(), cli: None }
}

/// The build settings at their defaults.
pub fn default_build() -> (c: BuildConfig)
    ensures
        c.dev_path@.len() == 0,
{
    BuildConfig { dev_path: default_dev_path() }
}

/// Whether `s` starts with `http`.
pub open spec fn starts_with_http(s: Seq<char>) -> bool {
    s.len() >= 4 && s[0] == 'h' && s[1] == 't' && s[2] == 't' && s[3] == 'p'
}

/// The address of the embedded server: host, a colon and the port, with
/// `http://` in front unless it starts with `http` already.
pub open spec fn server_url_text(host: Seq<char>, port: Seq<char>) -> Seq<char> {
    let url = host + ":"@ + port;
    if starts_with_http(url) {
        url
    } else {
        "http://"@ + url
    }
}

/// The address under which the embedded server is reached on `port`.
pub fn setup_server_url(port: String, config: &Config) -> (url: String)
    ensures
        url@ == server_url_text(config.tauri.embedded_server.host@, port@),
{
    let mut url = config.tauri.embedded_server.host.clone();
    url.append(":");
    url.append(port.as_str());
    let chars = chars_of(url.as_str());
    if chars.len() >= 4 && chars[0] == 'h' && chars[1] == 't' && chars[2] == 't' && chars[3]
        == 'p' {
        url
    } else {
        let mut full = String::from_str("http://");
        full.append(url.as_str());
        full
    }
}

} // verus!

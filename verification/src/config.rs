//! Settings of the catalog server and their defaults.

use vstd::prelude::*;
use crate::text::str_eq;

verus! {

/// The server's settings. Loading them from a file and the environment is the caller's part.
#[derive(Debug)]
pub struct Config {
    /// Base URL of the OpenList instance, e.g. `https://files.example.com`
    pub oplist_url: String,
    /// Bearer token for authenticated OpenList; leave empty for public instances
    pub oplist_token: String,
    /// Address the OPDS server listens on
    pub bind_addr: String,
    /// Public URL of this server (used in feed `self` links)
    pub base_url: String,
    /// `<title>` shown in the root OPDS catalog feed
    pub catalog_title: String,
    /// OpenList path to expose as OPDS root
    pub root_path: String,
    /// When true, file downloads are proxied through `/opds/raw/*path` so the
    /// OpenList token is never exposed to the OPDS client.
    /// When false (default), acquisition links point directly to the OpenList `raw_url`.
    pub proxy_enabled: bool,
}

/// The listen address when none is configured.
pub fn default_bind_addr() -> (r: String)
    ensures
        r@ == "0.0.0.0:3000"@,
{
    String::from_str("0.0.0.0:3000")
}

/// This server's public URL when none is configured.
pub fn default_base_url() -> (r: String)
    ensures
        r@ == "http://localhost:3000"@,
{
    String::from_str("http://localhost:3000")
}

/// The catalog title when none is configured.
pub fn default_catalog_title() -> (r: String)
    ensures
        r@ == "OpenList OPDS"@,
{
    String::from_str("OpenList OPDS")
}

/// The exposed OpenList path when none is configured.
pub fn default_root_path() -> (r: String)
    ensures
        r@ == "/"@,
{
    String::from_str("/")
}

/// The formats a configuration file can be written in.
#[derive(Debug, Clone, Copy, PartialEq, Eq)]
pub enum ConfigFormat {
    Toml,
    Yaml,
    Json,
}

/// The format named by a file extension, if the extension is one of the supported ones.
pub open spec fn spec_config_format(extension: Option<Seq<char>>) -> Option<ConfigFormat> {
    match extension {
        Some(e) => if e == "toml"@ {
            Some(ConfigFormat::Toml)
        } else if e == "yaml"@ || e == "yml"@ {
            Some(ConfigFormat::Yaml)
        } else if e == "json"@ {
            Some(ConfigFormat::Json)
        } else {
            None
        },
        None => None,
    }
}

/// The format of a configuration file from its extension: `toml`, `yaml` or `yml`, `json`.
/// Any other extension, or none, is unsupported.
pub fn config_format(extension: Option<&str>) -> (r: Option<ConfigFormat>)
    ensures
        r == spec_config_format(extension.deep_view()),
{
    match extension {
        Some(e) => if str_eq(e, "toml") {
            Some(ConfigFormat::Toml)
        } else if str_eq(e, "yaml") || str_eq(e, "yml") {
            Some(ConfigFormat::Yaml)
        } else if str_eq(e, "json") {
            Some(ConfigFormat::Json)
        } else {
            None
        },
        None => None,
    }
}

} // verus!

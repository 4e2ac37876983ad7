//! Preset options of the compiler: React, the environment targets, and
//! the per-library import rewriting.

use vstd::prelude::*;
use crate::text::str_eq;

verus! {

pub struct ReactConfig {
    pub hmr: bool,
    pub auto_import_react: bool,
}

pub struct PluginImportItem {
    pub source: String,
    pub transform: String,
}

/// The JSX runtime.
#[derive(Clone, Copy, PartialEq, Eq, Structural, Debug)]
pub enum ReactMode {
    Classic,
    Automatic,
}

impl ReactMode {
    /// The runtime named `classic` or `automatic`.
    pub fn from(s: String) -> (r: ReactMode)
        requires
            s@ == "classic"@ || s@ == "automatic"@,
        ensures
            r == (if s@ == "classic"@ { ReactMode::Classic } else { ReactMode::Automatic }),
    {
        if str_eq(s.as_str(), "classic") {
            ReactMode::Classic
        } else {
            ReactMode::Automatic
        }
    }
}

pub struct PresetReact {
    pub runtime: String,
    pub development: bool,
    pub throw_if_namespace: bool,
    pub import_source: String,
    pub pragma: String,
    pub pragma_frag: String,
    pub hmr: bool,
}

/// How polyfills are added.
#[derive(Clone, Copy, PartialEq, Eq, Structural, Debug)]
pub enum PolyfillMode {
    Entry,
    Usage,
    /// `false`: no polyfills.
    Off,
}

impl PolyfillMode {
    /// The mode named `entry`, `usage` or `false`.
    pub fn from(s: String) -> (r: PolyfillMode)
        requires
            s@ == "entry"@ || s@ == "usage"@ || s@ == "false"@,
        ensures
            r == (if s@ == "entry"@ {
                PolyfillMode::Entry
            } else if s@ == "usage"@ {
                PolyfillMode::Usage
            } else {
                PolyfillMode::Off
            }),
    {
        if str_eq(s.as_str(), "entry") {
            PolyfillMode::Entry
        } else if str_eq(s.as_str(), "usage") {
            PolyfillMode::Usage
        } else {
            PolyfillMode::Off
        }
    }
}

pub struct PresetEnv {
    pub targets: String,
    pub core_js: String,
    pub mode: String,
}

pub struct Config {
    pub ts: bool,
    pub react: PresetReact,
    pub envii: PresetEnv,
    pub plugin_import: Vec<PluginImportItem>,
}

} // verus!

//! Verified core of a collection of JavaScript source transforms.

pub mod text;
pub mod ast;
pub mod template;
pub mod plugin_import;
pub mod pattern;
pub mod react_utils;
pub mod react_rebind;
pub mod ssr_loader_id;
pub mod modernjs_ssr_loader_id;
pub mod dyn_import_node;
pub mod lodash;
pub mod const_elements;
pub mod lock_corejs_version;
pub mod remove_es_module_mark;
pub mod config_routes;
pub mod binding_types;
pub mod compiler;
pub mod presets;
pub mod pass;
pub mod fixture;

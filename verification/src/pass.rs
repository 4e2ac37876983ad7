//! The transforms a compilation runs before SWC's own, as the extensions
//! of the options select them.

use vstd::prelude::*;
use crate::binding_types::PackageConfig;
use crate::lock_corejs_version::LockCoreJsVersion;
use crate::lodash::PluginLodashConfig;
use crate::plugin_import::PluginImportConfig;
use crate::react_utils::ReactUtilsConfig;

verus! {

/// The built-in transforms and their options; each runs when its options
/// are given.
pub struct Extensions {
    /// Per package, how its imports are split up.
    pub modularize_imports: Option<Vec<(String, PackageConfig)>>,
    pub plugin_import: Option<Vec<PluginImportConfig>>,
    pub react_utils: Option<ReactUtilsConfig>,
    pub lock_corejs_version: Option<LockCoreJsVersion>,
    pub lodash: Option<PluginLodashConfig>,
}

#[derive(Clone, Copy, PartialEq, Eq, Structural, Debug)]
pub enum InternalPass {
    ModularizeImports,
    PluginImport,
    ReactUtils,
    LockCoreJsVersion,
    Lodash,
}

/// The transforms the extensions enable, in the order they are chained:
/// modularized imports, component imports, React helpers, `core-js`
/// pinning, lodash.
pub open spec fn spec_internal_passes(ext: Extensions) -> Seq<InternalPass> {
    (if ext.modularize_imports is Some { seq![InternalPass::ModularizeImports] } else { Seq::empty() })
        + (if ext.plugin_import is Some { seq![InternalPass::PluginImport] } else { Seq::empty() })
        + (if ext.react_utils is Some { seq![InternalPass::ReactUtils] } else { Seq::empty() })
        + (if ext.lock_corejs_version is Some { seq![InternalPass::LockCoreJsVersion] } else { Seq::empty() })
        + (if ext.lodash is Some { seq![InternalPass::Lodash] } else { Seq::empty() })
}

pub fn internal_transform_pass(ext: &Extensions) -> (r: Vec<InternalPass>)
    ensures
        r@ == spec_internal_passes(*ext),
{
    let mut r: Vec<InternalPass> = Vec::new();
    if ext.modularize_imports.is_some() {
        r.push(InternalPass::ModularizeImports);
    }
    if ext.plugin_import.is_some() {
        r.push(InternalPass::PluginImport);
    }
    if ext.react_utils.is_some() {
        r.push(InternalPass::ReactUtils);
    }
    if ext.lock_corejs_version.is_some() {
        r.push(InternalPass::LockCoreJsVersion);
    }
    if ext.lodash.is_some() {
        r.push(InternalPass::Lodash);
    }
    assert(r@ =~= spec_internal_passes(*ext));
    r
}

} // verus!

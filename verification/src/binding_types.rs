//! The options as the JavaScript side hands them over, and their
//! conversion into the options of the transforms: absent flags take their
//! defaults, pattern lists are compiled.

use vstd::prelude::*;
use crate::config_routes::ConfigRoutesConfig;
use crate::const_elements::{strs_view, ReactConstElementsOptions};
use crate::dyn_import_node::DynImportNodeConfig;
use crate::lodash::PluginLodashConfig;
use crate::pattern::{compile_all, spec_regex_valid, Pattern};
use crate::react_utils::{spec_mode_from, Mode, ReactRemovePropTypeConfig, ReactUtilsConfig};
use crate::ssr_loader_id::SSRLoaderIdConfig;
use crate::text::{str_eq, to_owned_string};

verus! {

pub open spec fn bool_or(o: Option<bool>, d: bool) -> bool {
    match o {
        Some(b) => b,
        None => d,
    }
}

pub struct ConfigRoutesConfigNapi {
    pub lazy: Option<bool>,
}

impl ConfigRoutesConfigNapi {
    pub fn into_raw_config(self) -> (r: ConfigRoutesConfig)
        ensures
            r.lazy == self.lazy,
    {
        ConfigRoutesConfig { lazy: self.lazy }
    }
}

pub struct DynImportNodeConfigNapi {
    pub interop: Option<bool>,
}

impl DynImportNodeConfigNapi {
    /// Interop is off unless asked for.
    pub fn into_raw_config(self) -> (r: DynImportNodeConfig)
        ensures
            r.interop == bool_or(self.interop, false),
    {
        DynImportNodeConfig {
            interop: match self.interop {
                Some(b) => b,
                None => false,
            },
        }
    }
}

/// Where the pinned `core-js` and the SWC helpers are.
pub struct LockCoreJsVersionNapi {
    pub corejs: String,
    pub swc_helpers: String,
}

/// The options of the `core-js` pinning.
pub struct LockCoreJsConfig {
    pub corejs: String,
    pub swc_helpers: String,
}

impl LockCoreJsVersionNapi {
    pub fn into_raw_config(self) -> (r: LockCoreJsConfig)
        ensures
            r.corejs == self.corejs,
            r.swc_helpers == self.swc_helpers,
    {
        LockCoreJsConfig { corejs: self.corejs, swc_helpers: self.swc_helpers }
    }
}

pub struct PluginLodashConfigNapi {
    pub cwd: Option<String>,
    pub ids: Option<Vec<String>>,
}

impl PluginLodashConfigNapi {
    /// The working directory defaults to the process's, `current_dir`;
    /// the package list to none.
    pub fn into_raw_config(self, current_dir: String) -> (r: PluginLodashConfig)
        ensures
            r.cwd == match self.cwd {
                Some(c) => c,
                None => current_dir,
            },
            r.ids@ == match self.ids {
                Some(v) => v@,
                None => Seq::<String>::empty(),
            },
    {
        PluginLodashConfig {
            cwd: match self.cwd {
                Some(c) => c,
                None => current_dir,
            },
            ids: match self.ids {
                Some(v) => v,
                None => Vec::new(),
            },
        }
    }
}

/// How imports of one package are rewritten by `modularize_imports`.
pub struct PackageConfigNapi {
    pub transform: String,
    pub prevent_full_import: bool,
    pub skip_default_conversion: bool,
}

pub struct PackageConfig {
    pub transform: String,
    pub prevent_full_import: bool,
    pub skip_default_conversion: bool,
}

impl PackageConfigNapi {
    pub fn into_raw_config(self) -> (r: PackageConfig)
        ensures
            r.transform == self.transform,
            r.prevent_full_import == self.prevent_full_import,
            r.skip_default_conversion == self.skip_default_conversion,
    {
        PackageConfig {
            transform: self.transform,
            prevent_full_import: self.prevent_full_import,
            skip_default_conversion: self.skip_default_conversion,
        }
    }
}

pub struct ReactConstElementsOptionsNapi {
    pub immutable_globals: Option<Vec<String>>,
    pub allow_mutable_props_on_tags: Option<Vec<String>>,
}

/// The distinct strings of `v`, each where it first occurs.
pub open spec fn dedup(v: Seq<Seq<char>>, n: int) -> Seq<Seq<char>>
    decreases n,
{
    if n <= 0 {
        Seq::empty()
    } else {
        let prev = dedup(v, n - 1);
        if prev.contains(v[n - 1]) { prev } else { prev.push(v[n - 1]) }
    }
}

fn contains_string(v: &Vec<String>, s: &str) -> (r: bool)
    ensures
        r == strs_view(v@).contains(s@),
{
    let mut k: usize = 0;
    while k < v.len()
        invariant
            k <= v@.len(),
            forall|j: int| 0 <= j < k ==> v@[j]@ != s@,
        decreases v@.len() - k,
    {
        if str_eq(v[k].as_str(), s) {
            assert(strs_view(v@)[k as int] == s@);
            return true;
        }
        k = k + 1;
    }
    assert forall|j: int| 0 <= j < strs_view(v@).len() implies strs_view(v@)[j] != s@ by {
        assert(strs_view(v@)[j] == v@[j]@);
    }
    false
}

/// The strings as a set: each once, absent ones none.
pub fn string_set(v: Option<Vec<String>>) -> (r: Vec<String>)
    ensures
        strs_view(r@) == match v {
            Some(x) => dedup(strs_view(x@), x@.len() as int),
            None => Seq::<Seq<char>>::empty(),
        },
{
    let v = match v {
        Some(x) => x,
        None => {
            let r: Vec<String> = Vec::new();
            assert(strs_view(r@) =~= Seq::<Seq<char>>::empty());
            return r;
        },
    };
    let ghost sv = strs_view(v@);
    let mut out: Vec<String> = Vec::new();
    let mut k: usize = 0;
    assert(strs_view(out@) =~= dedup(sv, 0));
    while k < v.len()
        invariant
            k <= v@.len(),
            sv == strs_view(v@),
            strs_view(out@) == dedup(sv, k as int),
        decreases v@.len() - k,
    {
        assert(sv[k as int] == v@[k as int]@);
        if !contains_string(&out, v[k].as_str()) {
            let ghost before = out@;
            out.push(v[k].clone());
            assert(strs_view(out@) =~= strs_view(before).push(v@[k as int]@));
        }
        k = k + 1;
    }
    out
}

impl ReactConstElementsOptionsNapi {
    pub fn into_raw_config(self) -> (r: ReactConstElementsOptions)
        ensures
            strs_view(r.immutable_globals@) == match self.immutable_globals {
                Some(x) => dedup(strs_view(x@), x@.len() as int),
                None => Seq::<Seq<char>>::empty(),
            },
            strs_view(r.allow_mutable_props_on_tags@) == match self.allow_mutable_props_on_tags {
                Some(x) => dedup(strs_view(x@), x@.len() as int),
                None => Seq::<Seq<char>>::empty(),
            },
    {
        ReactConstElementsOptions {
            immutable_globals: string_set(self.immutable_globals),
            allow_mutable_props_on_tags: string_set(self.allow_mutable_props_on_tags),
        }
    }
}

/// The options of the `propTypes` removal, with the patterns as text.
pub struct ReactUtilsRmPropTypesConfig {
    pub mode: String,
    pub remove_import: bool,
    pub ignore_filenames: Vec<String>,
    pub additional_libraries: Vec<String>,
    pub class_name_matchers: Vec<String>,
}

pub struct ReactUtilsConfigNapi {
    pub auto_import_react: Option<bool>,
    pub rm_effect: Option<bool>,
    pub rm_prop_types: Option<ReactUtilsRmPropTypesConfig>,
}

/// Every string is a pattern the regex syntax accepts.
pub open spec fn all_valid(v: Seq<String>) -> bool {
    forall|k: int| 0 <= k < v.len() ==> spec_regex_valid(#[trigger] v[k]@)
}

/// The compiled patterns have the given sources, in order.
pub open spec fn compiled_from(ps: Seq<Pattern>, srcs: Seq<String>) -> bool {
    ps.len() == srcs.len() && forall|k: int| 0 <= k < srcs.len() ==> #[trigger] ps[k].source_view() == srcs[k]@
}

/// A pattern list that the regex syntax rejects.
pub struct InvalidPattern;

impl ReactUtilsRmPropTypesConfig {
    /// The removal options: the mode is read from its name, the pattern
    /// lists are compiled; `Err` when one of the patterns is rejected.
    pub fn into_raw_config(self) -> (r: Result<ReactRemovePropTypeConfig, InvalidPattern>)
        ensures
            match r {
                Ok(c) => {
                    &&& c.mode == spec_mode_from(self.mode@)
                    &&& c.remove_import == self.remove_import
                    &&& compiled_from(c.ignore_filenames@, self.ignore_filenames@)
                    &&& compiled_from(c.additional_libraries@, self.additional_libraries@)
                    &&& compiled_from(c.class_name_matchers@, self.class_name_matchers@)
                },
                Err(_) => !(all_valid(self.ignore_filenames@) && all_valid(self.additional_libraries@) && all_valid(
                    self.class_name_matchers@,
                )),
            },
    {
        let mode = Mode::from(self.mode);
        let ignore_filenames = match compile_all(&self.ignore_filenames) {
            Some(p) => p,
            None => return Err(InvalidPattern),
        };
        let additional_libraries = match compile_all(&self.additional_libraries) {
            Some(p) => p,
            None => return Err(InvalidPattern),
        };
        let class_name_matchers = match compile_all(&self.class_name_matchers) {
            Some(p) => p,
            None => return Err(InvalidPattern),
        };
        Ok(ReactRemovePropTypeConfig { mode, remove_import: self.remove_import, ignore_filenames, additional_libraries, class_name_matchers })
    }
}

impl ReactUtilsConfigNapi {
    /// Absent flags are off; `Err` when a pattern of the removal options is
    /// rejected.
    pub fn into_raw_config(self) -> (r: Result<ReactUtilsConfig, InvalidPattern>)
        ensures
            match r {
                Ok(c) => {
                    &&& c.auto_import_react == bool_or(self.auto_import_react, false)
                    &&& c.rm_effect == bool_or(self.rm_effect, false)
                    &&& (c.rm_prop_types is Some <==> self.rm_prop_types is Some)
                    &&& (self.rm_prop_types matches Some(p) ==> {
                        let rc = c.rm_prop_types.unwrap();
                        &&& rc.mode == spec_mode_from(p.mode@)
                        &&& rc.remove_import == p.remove_import
                        &&& compiled_from(rc.ignore_filenames@, p.ignore_filenames@)
                        &&& compiled_from(rc.additional_libraries@, p.additional_libraries@)
                        &&& compiled_from(rc.class_name_matchers@, p.class_name_matchers@)
                    })
                },
                Err(_) => self.rm_prop_types matches Some(p) && !(all_valid(p.ignore_filenames@) && all_valid(
                    p.additional_libraries@,
                ) && all_valid(p.class_name_matchers@)),
            },
    {
        let rm_prop_types = match self.rm_prop_types {
            Some(p) => match p.into_raw_config() {
                Ok(c) => Some(c),
                Err(e) => return Err(e),
            },
            None => None,
        };
        Ok(ReactUtilsConfig {
            auto_import_react: match self.auto_import_react {
                Some(b) => b,
                None => false,
            },
            rm_effect: match self.rm_effect {
                Some(b) => b,
                None => false,
            },
            rm_prop_types,
        })
    }
}

pub struct SSRLoaderIdConfigNapi {
    pub runtime_package_name: String,
    pub function_use_loader_name: Option<String>,
    pub function_use_static_loader_name: Option<String>,
    pub function_create_container_name: Option<String>,
}

impl SSRLoaderIdConfigNapi {
    pub fn into_raw_config(self) -> (r: SSRLoaderIdConfig)
        ensures
            r.runtime_package_name == self.runtime_package_name,
            r.function_use_loader_name == self.function_use_loader_name,
            r.function_use_static_loader_name == self.function_use_static_loader_name,
            r.function_create_container_name == self.function_create_container_name,
    {
        SSRLoaderIdConfig {
            runtime_package_name: self.runtime_package_name,
            function_use_loader_name: self.function_use_loader_name,
            function_use_static_loader_name: self.function_use_static_loader_name,
            function_create_container_name: self.function_create_container_name,
        }
    }
}


/// A source path given as a template, or by a JavaScript function (known
/// by the handle under which the JavaScript side keeps it).
pub enum CustomTransform {
    Tpl(String),
    Fn(u64),
}

/// Which style import a component gets.
pub enum StyleConfig {
    Custom(CustomTransform),
    /// The style of the component in this directory of the library.
    StyleLibraryDirectory(String),
    /// The component's `style/css`.
    Css,
    /// The component's `style` when `true`.
    Bool(bool),
    /// No style import.
    Unset,
}

pub struct StyleConfigNapi {
    pub style_library_directory: Option<String>,
    pub custom_fn: Option<u64>,
    pub custom_tpl: Option<String>,
    pub css: Option<String>,
    pub bool: Option<bool>,
}

/// A style directory, when given, wins and the other options are ignored;
/// otherwise the first option given, in this order: template, function,
/// `css`, boolean.
pub open spec fn spec_style_config(c: StyleConfigNapi) -> StyleConfig {
    match c.style_library_directory {
        Some(d) => StyleConfig::StyleLibraryDirectory(d),
        None => match c.custom_tpl {
            Some(t) => StyleConfig::Custom(CustomTransform::Tpl(t)),
            None => match c.custom_fn {
                Some(f) => StyleConfig::Custom(CustomTransform::Fn(f)),
                None => if c.css is Some {
                    StyleConfig::Css
                } else {
                    match c.bool {
                        Some(b) => StyleConfig::Bool(b),
                        None => StyleConfig::Unset,
                    }
                },
            },
        },
    }
}

impl StyleConfigNapi {
    pub fn into_raw_config(self) -> (r: StyleConfig)
        ensures
            r == spec_style_config(self),
    {
        if let Some(d) = self.style_library_directory {
            StyleConfig::StyleLibraryDirectory(d)
        } else if let Some(tpl) = self.custom_tpl {
            StyleConfig::Custom(CustomTransform::Tpl(tpl))
        } else if let Some(f) = self.custom_fn {
            StyleConfig::Custom(CustomTransform::Fn(f))
        } else if self.css.is_some() {
            StyleConfig::Css
        } else if let Some(b) = self.bool {
            StyleConfig::Bool(b)
        } else {
            StyleConfig::Unset
        }
    }
}

/// The options of one library for the component import rewriting, as the
/// JavaScript side hands them over.
pub struct PluginImportConfigNapi {
    pub library_name: String,
    pub library_directory: Option<String>,
    pub custom_name_fn: Option<u64>,
    pub custom_name_tpl: Option<String>,
    pub custom_style_name_fn: Option<u64>,
    pub custom_style_name_tpl: Option<String>,
    pub style: Option<StyleConfigNapi>,
    pub camel_to_dash_component_name: Option<bool>,
    pub transform_to_default_import: Option<bool>,
    pub ignore_es_component: Option<Vec<String>>,
    pub ignore_style_component: Option<Vec<String>>,
}

/// The options of one library, with the template or function that names
/// the component and style sources chosen.
pub struct ImportLibraryConfig {
    pub library_name: String,
    pub library_directory: Option<String>,
    pub custom_name: Option<CustomTransform>,
    pub custom_style_name: Option<CustomTransform>,
    pub style: Option<StyleConfig>,
    pub camel_to_dash_component_name: Option<bool>,
    pub transform_to_default_import: Option<bool>,
    pub ignore_es_component: Option<Vec<String>>,
    pub ignore_style_component: Option<Vec<String>>,
}

/// A template wins over a function.
pub open spec fn spec_custom(tpl: Option<String>, f: Option<u64>) -> Option<CustomTransform> {
    match tpl {
        Some(t) => Some(CustomTransform::Tpl(t)),
        None => match f {
            Some(h) => Some(CustomTransform::Fn(h)),
            None => None,
        },
    }
}

fn custom(tpl: Option<String>, f: Option<u64>) -> (r: Option<CustomTransform>)
    ensures
        r == spec_custom(tpl, f),
{
    match tpl {
        Some(t) => Some(CustomTransform::Tpl(t)),
        None => match f {
            Some(h) => Some(CustomTransform::Fn(h)),
            None => None,
        },
    }
}

impl PluginImportConfigNapi {
    pub fn into_raw_config(self) -> (r: ImportLibraryConfig)
        ensures
            r.library_name == self.library_name,
            r.library_directory == self.library_directory,
            r.custom_name == spec_custom(self.custom_name_tpl, self.custom_name_fn),
            r.custom_style_name == spec_custom(self.custom_style_name_tpl, self.custom_style_name_fn),
            r.style == match self.style {
                Some(c) => Some(spec_style_config(c)),
                None => None,
            },
            r.camel_to_dash_component_name == self.camel_to_dash_component_name,
            r.transform_to_default_import == self.transform_to_default_import,
            r.ignore_es_component == self.ignore_es_component,
            r.ignore_style_component == self.ignore_style_component,
    {
        ImportLibraryConfig {
            library_name: self.library_name,
            library_directory: self.library_directory,
            custom_name: custom(self.custom_name_tpl, self.custom_name_fn),
            custom_style_name: custom(self.custom_style_name_tpl, self.custom_style_name_fn),
            style: match self.style {
                Some(c) => Some(c.into_raw_config()),
                None => None,
            },
            camel_to_dash_component_name: self.camel_to_dash_component_name,
            transform_to_default_import: self.transform_to_default_import,
            ignore_es_component: self.ignore_es_component,
            ignore_style_component: self.ignore_style_component,
        }
    }
}

/// What a JavaScript function returned, by its type; for a type other
/// than these, the type's name.
pub enum JsReturn {
    Undefined,
    Null,
    Bool(bool),
    Str(String),
    Other(String),
}

pub open spec fn replace_expr_message() -> Seq<char> {
    "functions of pluginImport replaceExpr can only strictly return false or string"@
}

/// The source path a `replaceExpr` function gave: none for `undefined`,
/// `null` and `false`, the string for a string; `true` and any other type
/// are errors.
pub open spec fn spec_replace_expr_result(ret: JsReturn) -> Result<Option<Seq<char>>, Seq<char>> {
    match ret {
        JsReturn::Undefined => Ok(None),
        JsReturn::Null => Ok(None),
        JsReturn::Bool(b) => if b { Err(replace_expr_message()) } else { Ok(None) },
        JsReturn::Str(s) => Ok(Some(s@)),
        JsReturn::Other(ty) => Err(replace_expr_message() + ". Received: "@ + ty@),
    }
}

pub fn replace_expr_result(ret: JsReturn) -> (r: Result<Option<String>, String>)
    ensures
        match (r, spec_replace_expr_result(ret)) {
            (Ok(Some(s)), Ok(Some(t))) => s@ == t,
            (Ok(None), Ok(None)) => true,
            (Err(m), Err(n)) => m@ == n,
            _ => false,
        },
{
    let base = "functions of pluginImport replaceExpr can only strictly return false or string";
    match ret {
        JsReturn::Undefined => Ok(None),
        JsReturn::Null => Ok(None),
        JsReturn::Bool(b) => if b { Err(to_owned_string(base)) } else { Ok(None) },
        JsReturn::Str(s) => Ok(Some(s)),
        JsReturn::Other(ty) => {
            let mut m = to_owned_string(base);
            crate::text::push_str(&mut m, ". Received: ");
            crate::text::push_str(&mut m, ty.as_str());
            Err(m)
        },
    }
}

} // verus!

//! Import paths rendered from handlebars templates, with the `kebabCase`,
//! `upperCase` and `lowerCase` helpers available to the templates.

use vstd::prelude::*;
use handlebars::{Context, Handlebars, Helper, HelperResult, Output, RenderContext};
use crate::text::{kebab_case, spec_kebab_case, spec_to_lowercase, spec_to_uppercase, to_lowercase, to_uppercase};

verus! {

#[verifier::external_type_specification]
#[verifier::external_body]
pub struct ExHandlebars<'reg>(handlebars::Handlebars<'reg>);

/// Whether handlebars' `Template::compile` accepts the template text.
pub uninterp spec fn spec_template_compiles(t: Seq<char>) -> bool;

/// What handlebars renders from the template text `t` with `this` bound to
/// the string `ident`, by a registry that has the `kebabCase`,
/// `upperCase` and `lowerCase` helpers of this module besides its built-in
/// ones; `None` when compiling or rendering fails.
pub uninterp spec fn spec_render_template(t: Seq<char>, ident: Seq<char>) -> Option<Seq<char>>;

/// handlebars' `Template::compile` on `t`: whether it succeeds is
/// `spec_template_compiles` of the text.
#[verifier::external_body]
pub(crate) fn template_compiles(t: &str) -> (r: bool)
    ensures
        r == spec_template_compiles(t@),
{
    handlebars::Template::compile(t).is_ok()
}

/// The `kebabCase` helper: heck's kebab case of its argument.
pub fn helper_kebab_case(s: &str) -> (r: String)
    ensures
        r@ == spec_kebab_case(s@),
{
    kebab_case(s)
}

/// The `upperCase` helper: the uppercase mapping of its argument.
pub fn helper_upper_case(s: &str) -> (r: String)
    ensures
        r@ == spec_to_uppercase(s@),
{
    to_uppercase(s)
}

/// The `lowerCase` helper: the lowercase mapping of its argument.
pub fn helper_lower_case(s: &str) -> (r: String)
    ensures
        r@ == spec_to_lowercase(s@),
{
    to_lowercase(s)
}

/// `Handlebars::new`: a registry with the built-in helpers only.
#[verifier::external_body]
fn new_registry() -> (r: Handlebars<'static>) {
    Handlebars::new()
}

/// Registers `kebabCase`, whose closure writes `helper_kebab_case` of the
/// helper's first argument (the empty string when there is none).
#[verifier::external_body]
fn add_kebab_case_helper(r: &mut Handlebars<'static>) {
    r.register_helper("kebabCase", Box::new(|h: &Helper<'_>, _: &Handlebars<'_>, _: &Context, _: &mut RenderContext<'_, '_>, o: &mut dyn Output| -> HelperResult {
        o.write(&helper_kebab_case(h.param(0).and_then(|v| v.value().as_str()).unwrap_or("")))?;
        Ok(())
    }));
}

/// Registers `upperCase`, whose closure writes `helper_upper_case` of the
/// helper's first argument (the empty string when there is none).
#[verifier::external_body]
fn add_upper_case_helper(r: &mut Handlebars<'static>) {
    r.register_helper("upperCase", Box::new(|h: &Helper<'_>, _: &Handlebars<'_>, _: &Context, _: &mut RenderContext<'_, '_>, o: &mut dyn Output| -> HelperResult {
        o.write(&helper_upper_case(h.param(0).and_then(|v| v.value().as_str()).unwrap_or("")))?;
        Ok(())
    }));
}

/// Registers `lowerCase`, whose closure writes `helper_lower_case` of the
/// helper's first argument (the empty string when there is none).
#[verifier::external_body]
fn add_lower_case_helper(r: &mut Handlebars<'static>) {
    r.register_helper("lowerCase", Box::new(|h: &Helper<'_>, _: &Handlebars<'_>, _: &Context, _: &mut RenderContext<'_, '_>, o: &mut dyn Output| -> HelperResult {
        o.write(&helper_lower_case(h.param(0).and_then(|v| v.value().as_str()).unwrap_or("")))?;
        Ok(())
    }));
}

/// A handlebars registry with the three case helpers. The field is private
/// and built only by `CaseRenderer::new`, which adds exactly those helpers
/// to a new registry, so what it renders is `spec_render_template`.
pub struct CaseRenderer {
    registry: Handlebars<'static>,
}

impl CaseRenderer {
    pub(crate) fn new() -> (r: CaseRenderer) {
        let mut registry = new_registry();
        add_kebab_case_helper(&mut registry);
        add_upper_case_helper(&mut registry);
        add_lower_case_helper(&mut registry);
        CaseRenderer { registry }
    }

    /// `Handlebars::render_template` of `t` with `ident` as the data, on
    /// this registry: the result is `spec_render_template(t, ident)`,
    /// `None` when the template fails to compile or to render.
    #[verifier::external_body]
    pub(crate) fn render(&self, t: &str, ident: &String) -> (r: Option<String>)
        ensures
            match r {
                Some(s) => spec_render_template(t@, ident@) == Some(s@),
                None => spec_render_template(t@, ident@) is None,
            },
    {
        self.registry.render_template(t, ident).ok()
    }
}

} // verus!

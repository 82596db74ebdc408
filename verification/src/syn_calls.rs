//! The boundary to syn and quote.  Rust function items and qualified paths
//! follow Rust's own grammar, which syn parses; only what each call returns
//! is stated here, as a function of the input text alone, and everything
//! built on the results is verified.

use vstd::prelude::*;
use crate::ast::FnSig;
use crate::ast::FnSigView;
use crate::ast::GenericParam;

verus! {

/// The signature that a function item's text declares — its name and its
/// ordered generic-parameter list — or `None` where the text is not a
/// function item.  The value depends on the text alone.
pub uninterp spec fn fn_sig_of(s: Seq<char>) -> Option<FnSigView>;

/// Relies on syn::parse_str::<syn::ItemFn> to parse a function item, keeping
/// its name and its generic parameters in declared order.
#[verifier::external_body]
pub(crate) fn parse_fn_sig(src: &str) -> (r: Option<FnSig>)
    ensures
        r is Some <==> fn_sig_of(src@) is Some,
        r matches Some(sig) ==> Some(sig@) == fn_sig_of(src@),
{
    let f = match syn::parse_str::<syn::ItemFn>(src) {
        Ok(f) => f,
        Err(_) => return None,
    };
    let params = f.sig.generics.params.into_iter().map(|g| match g {
        syn::GenericParam::Type(t) => GenericParam::TypeParam(t.ident.to_string()),
        syn::GenericParam::Lifetime(l) => GenericParam::LifetimeParam(l.lifetime.ident.to_string()),
        syn::GenericParam::Const(c) => GenericParam::ConstParam(c.ident.to_string()),
    }).collect();
    Some(FnSig { ident: f.sig.ident.to_string(), params })
}

/// The token rendering of a type-qualified path — or `None` where the text is
/// not one.  The value depends on the text alone.
pub uninterp spec fn path_tokens_of(s: Seq<char>) -> Option<Seq<char>>;

/// Relies on syn::parse_str::<syn::TypePath> to validate the path, and on
/// quote's token printing to write its tokens back out.
#[verifier::external_body]
pub(crate) fn parse_type_path(src: &str) -> (r: Option<String>)
    ensures
        r is Some <==> path_tokens_of(src@) is Some,
        r matches Some(p) ==> Some(p@) == path_tokens_of(src@),
{
    match syn::parse_str::<syn::TypePath>(src) {
        Ok(p) => Some(quote::ToTokens::to_token_stream(&p).to_string()),
        Err(_) => None,
    }
}

} // verus!

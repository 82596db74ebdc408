//! Forced monomorphization of generic functions.
//!
//! A generic function only gets machine code once it is instantiated at
//! concrete types.  This library performs the source-level transformation
//! that forces such an instantiation: given a function item and a
//! substitution list such as `T = i32, U = i64`, [`mono`] emits a constant
//! declaration whose initializer takes the address of the function applied to
//! the chosen arguments, erased to an opaque pointer, followed by the
//! function unchanged.  [`mono_macro`] does the same around a fully qualified
//! path such as `<Foo<i32> as Trait<u8>>::method`, for methods that only a
//! path can name.  A build arrangement that shares generic code across
//! compilation units can then reuse the one emitted body.

use vstd::prelude::*;
use vstd::string::StringExecFns;

pub mod ast;
pub mod emit;
pub mod matching;
pub mod subst;
pub mod syn_calls;

use crate::ast::FnSig;
use crate::ast::FnSigView;
use crate::ast::MonoError;
use crate::ast::SubstEntry;
use crate::ast::entries_view;
use crate::emit::const_decl_text;
use crate::emit::emit_const_decl;
use crate::emit::emit_path_decl;
use crate::emit::lemma_distinct_instantiations;
use crate::emit::mono_output_text;
use crate::emit::path_decl_text;
use crate::matching::compute_args;
use crate::matching::first_unmatched;
use crate::matching::lemma_matched_args_wf;
use crate::matching::matched_args;
use crate::subst::lemma_parse_substitutions_wf;
use crate::subst::parse_substitution_list;
use crate::subst::parse_substitutions;
use crate::syn_calls::fn_sig_of;
use crate::syn_calls::parse_fn_sig;
use crate::syn_calls::parse_type_path;
use crate::syn_calls::path_tokens_of;

verus! {

/// Expands one attribute application on a parsed signature: matches the
/// substitution entries against the generic parameters in declared order,
/// then emits the forcing declaration followed by the original function text.
/// Succeeds exactly where every declared type parameter is matched; the
/// error names the first that is not.
pub fn expand_fn(sig: &FnSig, entries: &Vec<SubstEntry>, func: &str) -> (r: Result<
    String,
    MonoError,
>)
    ensures
        r matches Ok(out) ==> ({
            &&& matched_args(sig@.params, entries_view(entries@)) matches Some(args)
            &&& out@ == mono_output_text(sig@.ident, args, func@)
        }),
        r matches Err(e) ==> ({
            &&& e matches MonoError::IncompleteInstantiation(p)
            &&& first_unmatched(sig@.params, entries_view(entries@)) == Some(p@)
        }),
{
    match compute_args(&sig.params, entries) {
        Ok(args) => {
            let mut out = emit_const_decl(sig.ident.as_str(), &args);
            out.append("\n");
            out.append(func);
            Ok(out)
        },
        Err(name) => Err(MonoError::IncompleteInstantiation(name)),
    }
}

/// The attribute transform: `attr` is the argument list written in the
/// attribute, `func` the annotated function item.  On success the output is
/// the forcing constant declaration, a newline, and the function unchanged.
/// `ParseError` comes exactly from text outside the two grammars; an
/// unmatched declared type parameter gives `IncompleteInstantiation` with the
/// first such parameter's name.
pub fn mono(attr: &str, func: &str) -> (r: Result<String, MonoError>)
    ensures
        match r {
            Ok(out) => ({
                &&& parse_substitutions(attr@) matches Some(subs)
                &&& fn_sig_of(func@) matches Some(sig)
                &&& matched_args(sig.params, subs) matches Some(args)
                &&& out@ == mono_output_text(sig.ident, args, func@)
            }),
            Err(MonoError::ParseError) => parse_substitutions(attr@) is None || fn_sig_of(func@)
                is None,
            Err(MonoError::IncompleteInstantiation(p)) => ({
                &&& parse_substitutions(attr@) matches Some(subs)
                &&& fn_sig_of(func@) matches Some(sig)
                &&& first_unmatched(sig.params, subs) == Some(p@)
            }),
        },
{
    let entries = match parse_substitution_list(attr) {
        Some(v) => v,
        None => {
            return Err(MonoError::ParseError);
        },
    };
    let sig = match parse_fn_sig(func) {
        Some(s) => s,
        None => {
            return Err(MonoError::ParseError);
        },
    };
    expand_fn(&sig, &entries, func)
}

/// The path transform: frames an already concrete, fully qualified path in
/// the same forcing declaration, with no parameter matching.  The output is a
/// pure function of the path's tokens, so the same path text always gives the
/// same declaration; text that is no type-qualified path gives `ParseError`.
pub fn mono_macro(input: &str) -> (r: Result<String, MonoError>)
    ensures
        match r {
            Ok(out) => ({
                &&& path_tokens_of(input@) matches Some(path)
                &&& out@ == path_decl_text(path)
            }),
            Err(MonoError::ParseError) => path_tokens_of(input@) is None,
            Err(MonoError::IncompleteInstantiation(_)) => false,
        },
{
    match parse_type_path(input) {
        Some(p) => Ok(emit_path_decl(p.as_str())),
        None => Err(MonoError::ParseError),
    }
}

/// Stacking independence, completed: two applications on the same function
/// whose matchings pick different argument lists emit different forcing
/// declarations.  Everything the two argument lists hold came through the
/// argument parser, so their names are identifiers and the printed texts can
/// only coincide when the lists do.
pub proof fn lemma_stacked_decls_distinct(attr1: Seq<char>, attr2: Seq<char>, sig: FnSigView)
    requires
        parse_substitutions(attr1) is Some,
        parse_substitutions(attr2) is Some,
        matched_args(sig.params, parse_substitutions(attr1).unwrap()) is Some,
        matched_args(sig.params, parse_substitutions(attr2).unwrap()) is Some,
        matched_args(sig.params, parse_substitutions(attr1).unwrap()) != matched_args(
            sig.params,
            parse_substitutions(attr2).unwrap(),
        ),
    ensures
        ({
            let args1 = matched_args(sig.params, parse_substitutions(attr1).unwrap()).unwrap();
            let args2 = matched_args(sig.params, parse_substitutions(attr2).unwrap()).unwrap();
            const_decl_text(sig.ident, args1) != const_decl_text(sig.ident, args2)
        }),
{
    lemma_parse_substitutions_wf(attr1);
    lemma_parse_substitutions_wf(attr2);
    lemma_matched_args_wf(sig.params, parse_substitutions(attr1).unwrap());
    lemma_matched_args_wf(sig.params, parse_substitutions(attr2).unwrap());
    lemma_distinct_instantiations(
        sig.ident,
        matched_args(sig.params, parse_substitutions(attr1).unwrap()).unwrap(),
        matched_args(sig.params, parse_substitutions(attr2).unwrap()).unwrap(),
    );
}

} // verus!

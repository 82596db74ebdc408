//! The matching pass of the attribute transform: walks the function's generic
//! parameters in declared order and picks, for each, the replacement from the
//! substitution list.
//!
//! Policy: an entry matches a parameter by kind — and, for a type parameter,
//! by identifier.  A type parameter with no matching entry fails the whole
//! expansion at once; a lifetime or const parameter with none is passed over,
//! since leaving it unconstrained does not block monomorphization.  The
//! argument list that comes out follows the declared parameter order, never
//! the order the substitutions were written in; with duplicate entries the
//! first match wins.

use vstd::prelude::*;
use crate::ast::GenericParam;
use crate::ast::GenericParamView;
use crate::ast::SubstEntry;
use crate::ast::SubstEntryView;
use crate::ast::TypeOrLifetime;
use crate::ast::TypeOrLifetimeView;
use crate::ast::args_view;
use crate::ast::entries_view;
use crate::ast::params_view;
use crate::subst::wf_args;
use crate::subst::wf_entries;
use crate::subst::wf_tol;

verus! {

/// Whether substitution entry name `name` binds generic parameter `p`:
/// matching kind, and for type parameters the same identifier.
pub open spec fn entry_matches(p: GenericParamView, name: TypeOrLifetimeView) -> bool {
    match (p, name) {
        (GenericParamView::TypeParam(pn), TypeOrLifetimeView::TypeName(en)) => pn == en,
        (GenericParamView::LifetimeParam(_), TypeOrLifetimeView::LifetimeName(_)) => true,
        _ => false,
    }
}

/// The replacement that the first matching entry of `subs` gives to `p`, if
/// any: linear search in the order the entries were written.
pub open spec fn find_subst(subs: Seq<SubstEntryView>, p: GenericParamView) -> Option<
    TypeOrLifetimeView,
>
    decreases subs.len(),
{
    if subs.len() == 0 {
        None
    } else if entry_matches(p, subs[0].name) {
        Some(subs[0].value)
    } else {
        find_subst(subs.drop_first(), p)
    }
}

/// The concrete argument list for `params` under `subs`, in declared
/// parameter order: each matched parameter contributes its replacement, an
/// unmatched lifetime or const parameter is passed over, and an unmatched
/// type parameter makes the whole result `None`.
pub open spec fn matched_args(params: Seq<GenericParamView>, subs: Seq<SubstEntryView>) -> Option<
    Seq<TypeOrLifetimeView>,
>
    decreases params.len(),
{
    if params.len() == 0 {
        Some(Seq::empty())
    } else {
        match find_subst(subs, params[0]) {
            Some(v) => match matched_args(params.drop_first(), subs) {
                Some(rest) => Some(seq![v] + rest),
                None => None,
            },
            None => match params[0] {
                GenericParamView::TypeParam(_) => None,
                _ => matched_args(params.drop_first(), subs),
            },
        }
    }
}

/// The first type parameter of `params`, in declared order, that no entry of
/// `subs` matches: the parameter the failure diagnostic names.
pub open spec fn first_unmatched(params: Seq<GenericParamView>, subs: Seq<SubstEntryView>) -> Option<
    Seq<char>,
>
    decreases params.len(),
{
    if params.len() == 0 {
        None
    } else {
        match params[0] {
            GenericParamView::TypeParam(n) => if find_subst(subs, params[0]) is Some {
                first_unmatched(params.drop_first(), subs)
            } else {
                Some(n)
            },
            _ => first_unmatched(params.drop_first(), subs),
        }
    }
}

/// Completeness enforcement: matching fails exactly when some declared type
/// parameter has no matching substitution entry — and then the first such
/// parameter is the one reported.
pub proof fn lemma_completeness(params: Seq<GenericParamView>, subs: Seq<SubstEntryView>)
    ensures
        matched_args(params, subs) is None <==> first_unmatched(params, subs) is Some,
    decreases params.len(),
{
    if params.len() > 0 {
        lemma_completeness(params.drop_first(), subs);
    }
}

/// Lifetime permissiveness: when every declared type parameter has a matching
/// entry, matching succeeds, however many lifetime or const parameters are
/// left unmatched.
pub proof fn lemma_lifetimes_permissive(params: Seq<GenericParamView>, subs: Seq<SubstEntryView>)
    requires
        forall|i: int|
            0 <= i < params.len() && (#[trigger] params[i]) is TypeParam ==> find_subst(
                subs,
                params[i],
            ) is Some,
    ensures
        matched_args(params, subs) is Some,
    decreases params.len(),
{
    if params.len() > 0 {
        assert(forall|i: int|
            0 <= i < params.drop_first().len() && (#[trigger] params.drop_first()[i]) is TypeParam
                ==> find_subst(subs, params.drop_first()[i]) is Some) by {
            assert(forall|i: int|
                0 <= i < params.drop_first().len() ==> params.drop_first()[i] == params[i + 1]);
        }
        lemma_lifetimes_permissive(params.drop_first(), subs);
    }
}

/// Order preservation: when every declared parameter has a matching entry,
/// the argument list is exactly the replacements in declared parameter order
/// — position by position — whatever order the entries were written in.
pub proof fn lemma_order_preservation(params: Seq<GenericParamView>, subs: Seq<SubstEntryView>)
    requires
        forall|i: int| 0 <= i < params.len() ==> find_subst(subs, #[trigger] params[i]) is Some,
    ensures
        matched_args(params, subs) is Some,
        matched_args(params, subs).unwrap().len() == params.len(),
        forall|i: int|
            0 <= i < params.len() ==> Some(#[trigger] matched_args(params, subs).unwrap()[i])
                == find_subst(subs, params[i]),
    decreases params.len(),
{
    if params.len() > 0 {
        assert(forall|i: int|
            0 <= i < params.drop_first().len() ==> find_subst(
                subs,
                #[trigger] params.drop_first()[i],
            ) is Some) by {
            assert(forall|i: int|
                0 <= i < params.drop_first().len() ==> params.drop_first()[i] == params[i + 1]);
        }
        lemma_order_preservation(params.drop_first(), subs);
    }
}

proof fn lemma_find_subst_wf(subs: Seq<SubstEntryView>, p: GenericParamView)
    requires
        wf_entries(subs),
    ensures
        find_subst(subs, p) matches Some(v) ==> wf_tol(v),
    decreases subs.len(),
{
    if subs.len() > 0 && !entry_matches(p, subs[0].name) {
        assert(wf_entries(subs.drop_first())) by {
            assert(forall|i: int|
                0 <= i < subs.drop_first().len() ==> #[trigger] subs.drop_first()[i] == subs[i
                    + 1]);
        }
        lemma_find_subst_wf(subs.drop_first(), p);
    }
}

/// Matching hands out nothing but the substitution list's own values: with a
/// well-formed substitution list, every argument that comes out is a
/// well-formed identifier or lifetime.
pub proof fn lemma_matched_args_wf(params: Seq<GenericParamView>, subs: Seq<SubstEntryView>)
    requires
        wf_entries(subs),
    ensures
        matched_args(params, subs) matches Some(args) ==> wf_args(args),
    decreases params.len(),
{
    if params.len() > 0 {
        lemma_find_subst_wf(subs, params[0]);
        lemma_matched_args_wf(params.drop_first(), subs);
        match find_subst(subs, params[0]) {
            Some(v) => {
                match matched_args(params.drop_first(), subs) {
                    Some(rest) => {
                        assert forall|i: int| 0 <= i < (seq![v] + rest).len() implies wf_tol(
                            #[trigger] (seq![v] + rest)[i],
                        ) by {
                            if i > 0 {
                                assert((seq![v] + rest)[i] == rest[i - 1]);
                            }
                        }
                    },
                    None => {},
                }
            },
            None => {},
        }
    }
}

fn entry_matches_x(p: &GenericParam, name: &TypeOrLifetime) -> (b: bool)
    ensures
        b == entry_matches(p@, name@),
{
    match (p, name) {
        (GenericParam::TypeParam(pn), TypeOrLifetime::TypeName(en)) => pn.eq(en),
        (GenericParam::LifetimeParam(_), TypeOrLifetime::LifetimeName(_)) => true,
        _ => false,
    }
}

fn clone_tol(a: &TypeOrLifetime) -> (r: TypeOrLifetime)
    ensures
        r@ == a@,
{
    match a {
        TypeOrLifetime::TypeName(s) => TypeOrLifetime::TypeName(s.clone()),
        TypeOrLifetime::LifetimeName(s) => TypeOrLifetime::LifetimeName(s.clone()),
    }
}

fn find_subst_x(subs: &Vec<SubstEntry>, p: &GenericParam) -> (r: Option<TypeOrLifetime>)
    ensures
        r is Some <==> find_subst(entries_view(subs@), p@) is Some,
        r matches Some(v) ==> find_subst(entries_view(subs@), p@) == Some(v@),
{
    let ghost sv = entries_view(subs@);
    let mut j: usize = 0;
    proof {
        assert(sv.skip(0) =~= sv);
    }
    while j < subs.len()
        invariant
            j <= subs.len(),
            sv == entries_view(subs@),
            sv.len() == subs.len(),
            find_subst(sv, p@) == find_subst(sv.skip(j as int), p@),
        decreases subs.len() - j,
    {
        if entry_matches_x(p, &subs[j].name) {
            let v = clone_tol(&subs[j].value);
            proof {
                assert(sv.skip(j as int)[0] == subs@[j as int]@);
            }
            return Some(v);
        }
        proof {
            assert(sv.skip(j as int)[0] == subs@[j as int]@);
            assert(sv.skip(j as int).drop_first() =~= sv.skip(j as int + 1));
        }
        j += 1;
    }
    proof {
        assert(sv.skip(subs.len() as int) =~= Seq::<SubstEntryView>::empty());
    }
    None
}

/// Computes the concrete argument list for `params` under `subs`, or hands
/// back the name of the first declared type parameter that no entry matches.
pub fn compute_args(params: &Vec<GenericParam>, subs: &Vec<SubstEntry>) -> (r: Result<
    Vec<TypeOrLifetime>,
    String,
>)
    ensures
        r matches Ok(args) ==> matched_args(params_view(params@), entries_view(subs@)) == Some(
            args_view(args@),
        ),
        r matches Err(name) ==> first_unmatched(params_view(params@), entries_view(subs@)) == Some(
            name@,
        ),
{
    let ghost pv = params_view(params@);
    let ghost sv = entries_view(subs@);
    let mut args: Vec<TypeOrLifetime> = Vec::new();
    let mut i: usize = 0;
    proof {
        assert(args_view(args@) =~= Seq::<TypeOrLifetimeView>::empty());
        assert(pv.skip(0) =~= pv);
        assert(Seq::<TypeOrLifetimeView>::empty() + matched_args(pv, sv).unwrap() =~= matched_args(
            pv,
            sv,
        ).unwrap());
    }
    while i < params.len()
        invariant
            i <= params.len(),
            pv == params_view(params@),
            sv == entries_view(subs@),
            pv.len() == params.len(),
            matched_args(pv, sv) == match matched_args(pv.skip(i as int), sv) {
                Some(rest) => Some(args_view(args@) + rest),
                None => None,
            },
            first_unmatched(pv, sv) == first_unmatched(pv.skip(i as int), sv),
        decreases params.len() - i,
    {
        proof {
            assert(pv.skip(i as int)[0] == params@[i as int]@);
            assert(pv.skip(i as int).drop_first() =~= pv.skip(i as int + 1));
        }
        let p = &params[i];
        match find_subst_x(subs, p) {
            Some(v) => {
                let ghost old_args = args_view(args@);
                let ghost vv = v@;
                args.push(v);
                proof {
                    assert(args_view(args@) =~= old_args + seq![vv]);
                    assert forall|rest: Seq<TypeOrLifetimeView>|
                        (old_args + seq![vv]) + rest =~= old_args + (seq![vv] + rest) by {};
                }
            },
            None => {
                match p {
                    GenericParam::TypeParam(n) => {
                        return Err(n.clone());
                    },
                    _ => {},
                }
            },
        }
        i += 1;
    }
    proof {
        assert(pv.skip(params.len() as int) =~= Seq::<GenericParamView>::empty());
        assert(args_view(args@) + Seq::<TypeOrLifetimeView>::empty() =~= args_view(args@));
    }
    Ok(args)
}

} // verus!

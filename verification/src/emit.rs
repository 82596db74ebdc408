//! The reference-cast emitter: synthesizes the one constant declaration that
//! forces an instantiation.  Its initializer takes the address of the callee
//! applied to the chosen arguments and erases the function-pointer type to an
//! opaque pointer, so the declaration reads the same whatever the callee's
//! signature.  Output is pinned character by character: it is a pure function
//! of the callee and the ordered argument list.

use vstd::prelude::*;
use vstd::string::StringExecFns;
use crate::ast::TypeOrLifetime;
use crate::ast::TypeOrLifetimeView;
use crate::ast::args_view;
use crate::subst::wf_args;
use crate::subst::wf_tol;

verus! {

/// The characters of one emitted argument: the identifier of a type, or the
/// tick and name of a lifetime.
pub open spec fn tol_text(a: TypeOrLifetimeView) -> Seq<char> {
    match a {
        TypeOrLifetimeView::TypeName(n) => n,
        TypeOrLifetimeView::LifetimeName(n) => seq!['\''] + n,
    }
}

/// The characters of an emitted argument list: each argument in order,
/// each followed by a comma (Rust accepts the trailing one).
pub open spec fn args_text(args: Seq<TypeOrLifetimeView>) -> Seq<char>
    decreases args.len(),
{
    if args.len() == 0 {
        Seq::empty()
    } else {
        args_text(args.drop_last()) + tol_text(args.last()) + seq![',']
    }
}

/// The constant declaration that forces `callee` to be instantiated at
/// `args`, in that order.
pub open spec fn const_decl_text(callee: Seq<char>, args: Seq<TypeOrLifetimeView>) -> Seq<char> {
    "pub const _: *const () = (&"@ + callee + "::<"@ + args_text(args) + ">) as *const _ as _;"@
}

/// The constant declaration that forces the instantiation a fully qualified
/// path already names: the path is framed as it stands.
pub open spec fn path_decl_text(path: Seq<char>) -> Seq<char> {
    "pub const _: *const () = (&"@ + path + ") as *const _ as _;"@
}

/// The whole output of the attribute transform: the forcing declaration, a
/// newline, then the original function text unchanged.
pub open spec fn mono_output_text(
    ident: Seq<char>,
    args: Seq<TypeOrLifetimeView>,
    func: Seq<char>,
) -> Seq<char> {
    const_decl_text(ident, args) + "\n"@ + func
}

fn push_tol(out: &mut String, a: &TypeOrLifetime)
    ensures
        final(out)@ == old(out)@ + tol_text(a@),
{
    match a {
        TypeOrLifetime::TypeName(n) => {
            out.append(n.as_str());
        },
        TypeOrLifetime::LifetimeName(n) => {
            out.append("'");
            out.append(n.as_str());
            proof {
                reveal_strlit("'");
                assert(("'")@ =~= seq!['\'']);
                assert(old(out)@ + ("'")@ + n@ =~= old(out)@ + (seq!['\''] + n@));
            }
        },
    }
}

fn push_args(out: &mut String, args: &Vec<TypeOrLifetime>)
    ensures
        final(out)@ == old(out)@ + args_text(args_view(args@)),
{
    let ghost av = args_view(args@);
    let mut i: usize = 0;
    proof {
        assert(args_text(av.take(0)) =~= Seq::<char>::empty());
        assert(old(out)@ + Seq::<char>::empty() =~= old(out)@);
    }
    while i < args.len()
        invariant
            i <= args.len(),
            av == args_view(args@),
            av.len() == args.len(),
            out@ == old(out)@ + args_text(av.take(i as int)),
        decreases args.len() - i,
    {
        push_tol(out, &args[i]);
        out.append(",");
        proof {
            reveal_strlit(",");
            assert((",")@ =~= seq![',']);
            assert(av.take(i as int + 1).drop_last() =~= av.take(i as int));
            assert(av.take(i as int + 1).last() == av[i as int]);
            assert(args_text(av.take(i as int + 1)) == args_text(av.take(i as int)) + tol_text(
                av[i as int],
            ) + seq![',']);
            assert(out@ =~= old(out)@ + args_text(av.take(i as int + 1)));
        }
        i += 1;
    }
    proof {
        assert(av.take(args.len() as int) =~= av);
    }
}

/// Emits the forcing declaration for a callable name and an ordered,
/// possibly empty argument list.
pub fn emit_const_decl(callee: &str, args: &Vec<TypeOrLifetime>) -> (r: String)
    ensures
        r@ == const_decl_text(callee@, args_view(args@)),
{
    let mut out = String::new();
    out.append("pub const _: *const () = (&");
    out.append(callee);
    out.append("::<");
    push_args(&mut out, args);
    out.append(">) as *const _ as _;");
    proof {
        assert(out@ =~= const_decl_text(callee@, args_view(args@)));
    }
    out
}

/// Emits the forcing declaration around a fully qualified path.
pub fn emit_path_decl(path: &str) -> (r: String)
    ensures
        r@ == path_decl_text(path@),
{
    let mut out = String::new();
    out.append("pub const _: *const () = (&");
    out.append(path);
    out.append(") as *const _ as _;");
    proof {
        assert(out@ =~= path_decl_text(path@));
    }
    out
}

/// Idempotent passthrough: the attribute transform's output carries the
/// original function text, byte for byte, as its tail — whatever the callee
/// and arguments were.
pub proof fn lemma_passthrough(
    ident: Seq<char>,
    args: Seq<TypeOrLifetimeView>,
    func: Seq<char>,
)
    ensures
        mono_output_text(ident, args, func).len() >= func.len(),
        mono_output_text(ident, args, func).subrange(
            mono_output_text(ident, args, func).len() - func.len(),
            mono_output_text(ident, args, func).len() as int,
        ) == func,
{
    let out = mono_output_text(ident, args, func);
    assert(out.subrange(out.len() - func.len(), out.len() as int) =~= func);
}

/// Stacking independence: a second application around a first one emits two
/// declarations, each depending only on its own argument list, followed by
/// exactly one copy of the original function.
pub proof fn lemma_stacking_independence(
    ident: Seq<char>,
    args1: Seq<TypeOrLifetimeView>,
    args2: Seq<TypeOrLifetimeView>,
    func: Seq<char>,
)
    ensures
        const_decl_text(ident, args2) + "\n"@ + mono_output_text(ident, args1, func)
            == const_decl_text(ident, args2) + "\n"@ + const_decl_text(ident, args1) + "\n"@
            + func,
{
    assert(const_decl_text(ident, args2) + "\n"@ + mono_output_text(ident, args1, func)
        =~= const_decl_text(ident, args2) + "\n"@ + const_decl_text(ident, args1) + "\n"@ + func);
}

/// A middle piece framed by fixed text is read back unambiguously: equal
/// framings mean equal middles.
pub proof fn lemma_framing_injective(a: Seq<char>, b: Seq<char>, x: Seq<char>, y: Seq<char>)
    requires
        a + x + b == a + y + b,
    ensures
        x == y,
{
    assert((a + x + b).len() == a.len() + x.len() + b.len());
    assert((a + y + b).len() == a.len() + y.len() + b.len());
    assert(x.len() == y.len());
    assert forall|k: int| 0 <= k < x.len() implies x[k] == y[k] by {
        assert((a + x + b)[a.len() + k] == x[k]);
        assert((a + y + b)[a.len() + k] == y[k]);
    }
    assert(x =~= y);
}

/// No comma anywhere in `s`.
pub open spec fn comma_free(s: Seq<char>) -> bool {
    forall|k: int| 0 <= k < s.len() ==> (#[trigger] s[k]) != ','
}

proof fn lemma_wf_tol_text(a: TypeOrLifetimeView)
    requires
        wf_tol(a),
    ensures
        tol_text(a).len() > 0,
        comma_free(tol_text(a)),
{
    match a {
        TypeOrLifetimeView::TypeName(_) => {},
        TypeOrLifetimeView::LifetimeName(n) => {
            assert forall|k: int| 0 <= k < tol_text(a).len() implies (#[trigger] tol_text(a)[k])
                != ',' by {
                if k > 0 {
                    assert(tol_text(a)[k] == n[k - 1]);
                }
            }
        },
    }
}

/// The printed argument decides its tag and name: a lifetime's text starts
/// with the tick no identifier may start with.
proof fn lemma_tol_text_injective(a: TypeOrLifetimeView, b: TypeOrLifetimeView)
    requires
        wf_tol(a),
        wf_tol(b),
        tol_text(a) == tol_text(b),
    ensures
        a == b,
{
    match (a, b) {
        (TypeOrLifetimeView::TypeName(_), TypeOrLifetimeView::TypeName(_)) => {},
        (TypeOrLifetimeView::LifetimeName(n1), TypeOrLifetimeView::LifetimeName(n2)) => {
            assert(tol_text(a).len() == 1 + n1.len());
            assert(tol_text(b).len() == 1 + n2.len());
            assert forall|k: int| 0 <= k < n1.len() implies n1[k] == n2[k] by {
                assert(tol_text(a)[k + 1] == n1[k]);
                assert(tol_text(b)[k + 1] == n2[k]);
            }
            assert(n1 =~= n2);
        },
        (TypeOrLifetimeView::TypeName(n1), TypeOrLifetimeView::LifetimeName(_)) => {
            assert(tol_text(a)[0] == n1[0]);
            assert(tol_text(b)[0] == '\'');
        },
        (TypeOrLifetimeView::LifetimeName(_), TypeOrLifetimeView::TypeName(n2)) => {
            assert(tol_text(a)[0] == '\'');
            assert(tol_text(b)[0] == n2[0]);
        },
    }
}

/// Nonempty argument text ends with the comma the emitter writes after every
/// argument.
proof fn lemma_args_text_shape(args: Seq<TypeOrLifetimeView>)
    ensures
        args.len() == 0 ==> args_text(args).len() == 0,
        args.len() > 0 ==> args_text(args).len() > 0 && args_text(args)[args_text(
            args,
        ).len() - 1] == ',',
{
}

/// Reading one comma-terminated, comma-free piece back off the end is
/// unambiguous, as long as what precedes it is empty or itself
/// comma-terminated.
proof fn lemma_unambiguous_tail(u: Seq<char>, s: Seq<char>, v: Seq<char>, t: Seq<char>)
    requires
        u + s + seq![','] == v + t + seq![','],
        s.len() > 0,
        comma_free(s),
        t.len() > 0,
        comma_free(t),
        u.len() == 0 || u[u.len() - 1] == ',',
        v.len() == 0 || v[v.len() - 1] == ',',
    ensures
        s == t,
        u == v,
{
    let x = u + s + seq![','];
    let y = v + t + seq![','];
    assert(x.len() == u.len() + s.len() + 1);
    assert(y.len() == v.len() + t.len() + 1);
    if s.len() < t.len() {
        assert(u.len() > v.len());
        assert(x[u.len() - 1] == u[u.len() - 1]);
        assert(y[u.len() - 1] == t[u.len() - 1 - v.len()]);
        assert(false);
    }
    if t.len() < s.len() {
        assert(v.len() > u.len());
        assert(y[v.len() - 1] == v[v.len() - 1]);
        assert(x[v.len() - 1] == s[v.len() - 1 - u.len()]);
        assert(false);
    }
    assert(s =~= t) by {
        assert(forall|k: int|
            0 <= k < s.len() ==> #[trigger] s[k] == x[u.len() + k] && t[k] == y[v.len() + k]);
    }
    assert(u =~= v) by {
        assert(forall|k: int| 0 <= k < u.len() ==> #[trigger] u[k] == x[k] && v[k] == y[k]);
    }
}

/// The printed argument list decides the arguments: two well-formed argument
/// lists that print alike are the same list, element for element.
pub proof fn lemma_args_text_injective(a: Seq<TypeOrLifetimeView>, b: Seq<TypeOrLifetimeView>)
    requires
        wf_args(a),
        wf_args(b),
        args_text(a) == args_text(b),
    ensures
        a == b,
    decreases a.len(),
{
    lemma_args_text_shape(a);
    lemma_args_text_shape(b);
    if a.len() == 0 {
        assert(b.len() == 0);
        assert(a =~= b);
    } else {
        assert(b.len() > 0);
        let u = args_text(a.drop_last());
        let s = tol_text(a.last());
        let v = args_text(b.drop_last());
        let t = tol_text(b.last());
        lemma_wf_tol_text(a.last());
        lemma_wf_tol_text(b.last());
        lemma_args_text_shape(a.drop_last());
        lemma_args_text_shape(b.drop_last());
        lemma_unambiguous_tail(u, s, v, t);
        lemma_tol_text_injective(a.last(), b.last());
        assert(wf_args(a.drop_last()) && wf_args(b.drop_last())) by {
            assert(forall|i: int|
                0 <= i < a.drop_last().len() ==> #[trigger] a.drop_last()[i] == a[i]);
            assert(forall|i: int|
                0 <= i < b.drop_last().len() ==> #[trigger] b.drop_last()[i] == b[i]);
        }
        lemma_args_text_injective(a.drop_last(), b.drop_last());
        assert(a =~= b) by {
            assert(forall|i: int|
                0 <= i < a.len() - 1 ==> #[trigger] a[i] == a.drop_last()[i] && b[i]
                    == b.drop_last()[i]);
        }
    }
}

/// Distinct instantiations give distinct declarations: with well-formed
/// names, two emitted constants for the same callee coincide only when their
/// argument lists do — so stacked applications with different substitutions
/// really force different instantiations.
pub proof fn lemma_distinct_instantiations(
    ident: Seq<char>,
    args1: Seq<TypeOrLifetimeView>,
    args2: Seq<TypeOrLifetimeView>,
)
    requires
        wf_args(args1),
        wf_args(args2),
        args1 != args2,
    ensures
        const_decl_text(ident, args1) != const_decl_text(ident, args2),
{
    if const_decl_text(ident, args1) == const_decl_text(ident, args2) {
        let a = "pub const _: *const () = (&"@ + ident + "::<"@;
        let b = ">) as *const _ as _;"@;
        assert(const_decl_text(ident, args1) =~= a + args_text(args1) + b);
        assert(const_decl_text(ident, args2) =~= a + args_text(args2) + b);
        lemma_framing_injective(a, b, args_text(args1), args_text(args2));
        lemma_args_text_injective(args1, args2);
    }
}

} // verus!

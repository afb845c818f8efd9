//! How a call finds its routine and what it returns.

use crate::catalog::CatalogView;
use crate::error::AnalyzeErrorView;
use crate::expr_type::CompositeFieldView;
use crate::functions::{
    accepts, argument_fits, bind_all, callable, cast_match, declared_choice, default_match,
    exact_match, last_choice, oid_accepts, out_args_upto, plain_resolution, polymorphic_match,
    resolution, resolve, selected, unknown_match, Matching, ResolvedFunctionView,
};
use crate::pg_catalog::{ArgMode, PgAggregate, PgProcView, ProKind, TypCategory};
use crate::table::row_get;
use vstd::prelude::*;

verus! {

/// `anyelement`, `anycompatible`, `anynonarray`, `anycompatiblenonarray` or `anyenum`.
pub open spec fn element_pseudo_type(t: u32) -> bool {
    t == 2283 || t == 5077 || t == 2776 || t == 5079 || t == 3500
}

/// `anyarray` or `anycompatiblearray`.
pub open spec fn array_pseudo_type(t: u32) -> bool {
    t == 2277 || t == 5078
}

/// `anyrange`, `anymultirange`, `anycompatiblerange` or `anycompatiblemultirange`.
pub open spec fn range_pseudo_type(t: u32) -> bool {
    t == 3831 || t == 4537 || t == 5080 || t == 4538
}

/// A routine that a call by this name can mean.
pub open spec fn candidate(
    c: CatalogView,
    schema: Option<Seq<char>>,
    name: Seq<char>,
    oid: u32,
    f: PgProcView,
) -> bool {
    c.find_functions(schema, name).contains(oid) && c.get_proc(oid) == Some(f) && f.prokind
        != ProKind::Procedure
}

/// A result describes a routine: its arguments, schema, kind and strictness.
pub open spec fn describes(c: CatalogView, r: ResolvedFunctionView, f: PgProcView) -> bool {
    r.arg_types == f.proargtypes && (r.is_aggregate <==> f.prokind == ProKind::Aggregate)
        && r.is_strict == f.proisstrict && (c.namespace_name(f.pronamespace) matches Some(s)
        ==> r.schema == s)
}

/// What a routine is declared to return: for an aggregate with a final function, what
/// that returns.
pub open spec fn declares(c: CatalogView, f: PgProcView, t: u32) -> bool {
    if row_get::<PgAggregate>(c.pg_aggregate, f.oid) matches Some(a) && a.aggfinalfn matches Some(g)
        && c.get_proc(g) is Some {
        t == c.get_proc(row_get::<PgAggregate>(c.pg_aggregate, f.oid)->0.aggfinalfn->0)->0.prorettype
    } else {
        t == f.prorettype
    }
}

/// An argument of type `a` goes where `e` is expected: it has the type, its type is
/// unknown, or an implicit cast leads there, for an array element by element.
pub open spec fn goes_for(c: CatalogView, a: u32, e: u32) -> bool {
    a == e || a == 705 || c.has_implicit_cast(a, e) || (c.element_of(a) is Some && c.element_of(
        e,
    ) is Some && c.has_implicit_cast(c.element_of(a)->0, c.element_of(e)->0))
}

/// All arguments go where a routine of as many expects them.
pub open spec fn all_go_for(c: CatalogView, args: Seq<u32>, expected: Seq<u32>) -> bool {
    args.len() == expected.len() && forall|i: int|
        0 <= i < args.len() ==> goes_for(c, #[trigger] args[i], expected[i])
}

proof fn lemma_selected_are(c: CatalogView, oids: Seq<u32>, args: Seq<u32>, m: Matching, x: u32)
    ensures
        selected(c, oids, args, m).contains(x) <==> oids.contains(x) && oid_accepts(
            c,
            x,
            args,
            m,
        ),
    decreases oids.len(),
{
    reveal(Seq::filter);
    if oids.len() > 0 {
        let head = oids.drop_last();
        lemma_selected_are(c, head, args, m, x);
        let all = selected(c, oids, args, m);
        let before = selected(c, head, args, m);
        if oids.contains(x) && x != oids.last() {
            let i = choose|i: int| 0 <= i < oids.len() && oids[i] == x;
            assert(head[i] == x);
        }
        if head.contains(x) {
            let i = choose|i: int| 0 <= i < head.len() && head[i] == x;
            assert(oids[i] == x);
        }
        if oid_accepts(c, oids.last(), args, m) {
            assert(all == before.push(oids.last()));
            assert(all.last() == oids.last());
            if before.contains(x) {
                let i = choose|i: int| 0 <= i < before.len() && before[i] == x;
                assert(all[i] == x);
            }
            if all.contains(x) && x != oids.last() {
                let i = choose|i: int| 0 <= i < all.len() && all[i] == x;
                assert(before[i] == x);
            }
        } else {
            assert(all == before);
        }
    }
}

proof fn lemma_callable_are(c: CatalogView, oids: Seq<u32>, x: u32)
    ensures
        callable(c, oids).contains(x) <==> oids.contains(x) && c.get_proc(x) is Some
            && c.get_proc(x)->0.prokind != ProKind::Procedure,
    decreases oids.len(),
{
    reveal(Seq::filter);
    if oids.len() > 0 {
        let head = oids.drop_last();
        lemma_callable_are(c, head, x);
        let all = callable(c, oids);
        let before = callable(c, head);
        if oids.contains(x) && x != oids.last() {
            let i = choose|i: int| 0 <= i < oids.len() && oids[i] == x;
            assert(head[i] == x);
        }
        if head.contains(x) {
            let i = choose|i: int| 0 <= i < head.len() && head[i] == x;
            assert(oids[i] == x);
        }
        if c.get_proc(oids.last()) is Some && c.get_proc(oids.last())->0.prokind
            != ProKind::Procedure {
            assert(all == before.push(oids.last()));
            assert(all.last() == oids.last());
            if before.contains(x) {
                let i = choose|i: int| 0 <= i < before.len() && before[i] == x;
                assert(all[i] == x);
            }
            if all.contains(x) && x != oids.last() {
                let i = choose|i: int| 0 <= i < all.len() && all[i] == x;
                assert(before[i] == x);
            }
        } else {
            assert(all == before);
        }
    }
}

/// Those that a selection keeps are among those that it selects from, and accept the
/// arguments.
proof fn lemma_kept(c: CatalogView, oids: Seq<u32>, args: Seq<u32>, m: Matching)
    ensures
        forall|i: int|
            0 <= i < selected(c, oids, args, m).len() ==> oids.contains(
                #[trigger] selected(c, oids, args, m)[i],
            ) && oid_accepts(c, selected(c, oids, args, m)[i], args, m),
{
    assert forall|i: int| 0 <= i < selected(c, oids, args, m).len() implies oids.contains(
        #[trigger] selected(c, oids, args, m)[i],
    ) && oid_accepts(c, selected(c, oids, args, m)[i], args, m) by {
        lemma_selected_are(c, oids, args, m, selected(c, oids, args, m)[i]);
    }
}

proof fn lemma_choices(c: CatalogView, oids: Seq<u32>, args: Seq<u32>)
    ensures
        exact_match(c, oids, args) matches Some(x) ==> oids.contains(x) && oid_accepts(
            c,
            x,
            args,
            Matching::Exact,
        ),
        unknown_match(c, oids, args) matches Some(x) ==> oids.contains(x) && oid_accepts(
            c,
            x,
            args,
            Matching::UnknownFits,
        ),
        default_match(c, oids, args) matches Some(x) ==> oids.contains(x) && oid_accepts(
            c,
            x,
            args,
            Matching::Defaults,
        ),
        cast_match(c, oids, args) matches Some(x) ==> oids.contains(x) && oid_accepts(
            c,
            x,
            args,
            Matching::Casts,
        ),
        polymorphic_match(c, oids, args) matches Some(x) ==> oids.contains(x) && oid_accepts(
            c,
            x,
            args,
            Matching::PolymorphicCasts,
        ),
        last_choice(c, oids, args) matches Some(x) ==> oids.contains(x) && c.get_proc(x) is Some,
{
    lemma_kept(c, oids, args, Matching::Exact);
    lemma_kept(c, oids, args, Matching::UnknownFits);
    lemma_kept(c, oids, args, Matching::Defaults);
    lemma_kept(c, oids, args, Matching::Casts);
    let fitting = selected(c, oids, args, Matching::Casts);
    lemma_kept(c, fitting, args, Matching::Strings);
    let strings = selected(c, fitting, args, Matching::Strings);
    lemma_kept(c, strings, args, Matching::Preferred);
    let preferred = selected(c, strings, args, Matching::Preferred);
    if strings.len() > 0 {
        lemma_selected_are(c, oids, args, Matching::Casts, strings[0]);
    }
    if preferred.len() > 0 {
        lemma_selected_are(c, fitting, args, Matching::Strings, preferred[0]);
        lemma_selected_are(c, oids, args, Matching::Casts, preferred[0]);
    }
    lemma_kept(c, oids, args, Matching::Polymorphic);
    lemma_kept(c, oids, args, Matching::PolymorphicCasts);
    lemma_kept(c, oids, args, Matching::Aggregate);
    lemma_kept(c, oids, args, Matching::Count);
    if let Some(x) = polymorphic_match(c, oids, args) {
        if selected(c, oids, args, Matching::Polymorphic).len() > 0 {
            let f = c.get_proc(x)->0;
            assert forall|i: int| 0 <= i < args.len() implies #[trigger] argument_fits(
                c,
                f.proargtypes[i],
                args[i],
                Matching::PolymorphicCasts,
            ) by {
                assert(argument_fits(c, f.proargtypes[i], args[i], Matching::Polymorphic));
            }
        }
    }
}

/// A call that resolves means a function or aggregate of its name, and the result
/// describes that routine.
pub proof fn law_resolved_call_means_a_candidate(
    c: CatalogView,
    schema: Option<Seq<char>>,
    name: Seq<char>,
    args: Seq<u32>,
)
    ensures
        resolve(c, schema, name, args) matches Ok(r) ==> exists|oid: u32, f: PgProcView|
            #[trigger] candidate(c, schema, name, oid, f) && describes(c, r, f),
{
    let all = c.find_functions(schema, name);
    let oids = callable(c, all);
    lemma_choices(c, oids, args);
    if let Ok(r) = resolve(c, schema, name, args) {
        let oid = if declared_choice(c, oids, args) is Some {
            declared_choice(c, oids, args)->0
        } else if polymorphic_match(c, oids, args) is Some {
            polymorphic_match(c, oids, args)->0
        } else {
            last_choice(c, oids, args)->0
        };
        lemma_callable_are(c, all, oid);
        let f = c.get_proc(oid)->0;
        assert(candidate(c, schema, name, oid, f) && describes(c, r, f));
    }
}

/// A call by a name that no function or aggregate has is refused.
pub proof fn law_unknown_function_is_refused(
    c: CatalogView,
    schema: Option<Seq<char>>,
    name: Seq<char>,
    args: Seq<u32>,
)
    requires
        forall|oid: u32, f: PgProcView| !#[trigger] candidate(c, schema, name, oid, f),
    ensures
        resolve(c, schema, name, args) == Err::<ResolvedFunctionView, _>(
            AnalyzeErrorView::UndefinedFunction("function "@ + name + "() does not exist"@),
        ),
{
    let all = c.find_functions(schema, name);
    let oids = callable(c, all);
    if oids.len() > 0 {
        lemma_callable_are(c, all, oids[0]);
        assert(candidate(c, schema, name, oids[0], c.get_proc(oids[0])->0));
    }
}

/// Where a routine of the name takes arguments of just the given types, the call means
/// such a routine and has the type that it is declared to return.
pub proof fn law_call_means_the_exact_signature(
    c: CatalogView,
    schema: Option<Seq<char>>,
    name: Seq<char>,
    args: Seq<u32>,
    oid: u32,
    f: PgProcView,
)
    requires
        candidate(c, schema, name, oid, f),
        f.proargtypes == args,
    ensures
        resolve(c, schema, name, args) matches Ok(r) && r.arg_types == args && exists|
            found: u32,
            g: PgProcView,
        |
            #[trigger] candidate(c, schema, name, found, g) && g.proargtypes == args && describes(
                c,
                r,
                g,
            ) && declares(c, g, r.return_type_oid),
{
    let all = c.find_functions(schema, name);
    let oids = callable(c, all);
    lemma_callable_are(c, all, oid);
    lemma_selected_are(c, oids, args, Matching::Exact, oid);
    assert(accepts(c, f, args, Matching::Exact));
    lemma_choices(c, oids, args);
    let x = exact_match(c, oids, args)->0;
    lemma_callable_are(c, all, x);
    let g = c.get_proc(x)->0;
    assert(g.proargtypes =~= args) by {
        assert forall|i: int| 0 <= i < args.len() implies g.proargtypes[i] == args[i] by {
            assert(argument_fits(c, g.proargtypes[i], args[i], Matching::Exact));
        }
    }
    assert(candidate(c, schema, name, x, g));
}

/// Where implicit casts lead from the arguments to a routine of the name, the call means
/// a routine that casts lead to, and has the type that it is declared to return.
pub proof fn law_call_follows_implicit_casts(
    c: CatalogView,
    schema: Option<Seq<char>>,
    name: Seq<char>,
    args: Seq<u32>,
    oid: u32,
    f: PgProcView,
)
    requires
        candidate(c, schema, name, oid, f),
        all_go_for(c, args, f.proargtypes),
    ensures
        resolve(c, schema, name, args) matches Ok(r) && args.len() <= r.arg_types.len() && (forall|
            i: int,
        |
            0 <= i < args.len() ==> goes_for(c, #[trigger] args[i], r.arg_types[i])) && exists|
            found: u32,
            g: PgProcView,
        |
            #[trigger] candidate(c, schema, name, found, g) && describes(c, r, g) && declares(
                c,
                g,
                r.return_type_oid,
            ),
{
    let all = c.find_functions(schema, name);
    let oids = callable(c, all);
    lemma_callable_are(c, all, oid);
    assert forall|i: int| 0 <= i < args.len() implies #[trigger] argument_fits(
        c,
        f.proargtypes[i],
        args[i],
        Matching::Casts,
    ) by {
        assert(goes_for(c, args[i], f.proargtypes[i]));
    }
    assert(accepts(c, f, args, Matching::Casts));
    lemma_selected_are(c, oids, args, Matching::Casts, oid);
    lemma_choices(c, oids, args);
    let x = declared_choice(c, oids, args)->0;
    lemma_callable_are(c, all, x);
    let g = c.get_proc(x)->0;
    assert forall|i: int| 0 <= i < args.len() implies goes_for(
        c,
        #[trigger] args[i],
        g.proargtypes[i],
    ) by {
        if exact_match(c, oids, args) is Some {
            assert(argument_fits(c, g.proargtypes[i], args[i], Matching::Exact));
        } else if unknown_match(c, oids, args) is Some {
            assert(argument_fits(c, g.proargtypes[i], args[i], Matching::UnknownFits));
        } else if default_match(c, oids, args) is Some {
            assert(argument_fits(c, g.proargtypes[i], args[i], Matching::Defaults));
        } else {
            assert(argument_fits(c, g.proargtypes[i], args[i], Matching::Casts));
        }
    }
    assert(candidate(c, schema, name, x, g));
}

// ── Pseudo-types ────────────────────────────────────────────────────────────

/// A call means a routine through its pseudo-types.
pub open spec fn means_through_pseudo_types(
    c: CatalogView,
    schema: Option<Seq<char>>,
    name: Seq<char>,
    args: Seq<u32>,
    f: PgProcView,
) -> bool {
    let oids = callable(c, c.find_functions(schema, name));
    declared_choice(c, oids, args) is None && polymorphic_match(c, oids, args) is Some
        && c.get_proc(polymorphic_match(c, oids, args)->0) == Some(f)
}

/// An argument of an element pseudo-type is the first to say which element type is meant.
pub open spec fn first_element(c: CatalogView, f: PgProcView, args: Seq<u32>, k: int) -> bool {
    0 <= k < args.len() && (forall|i: int|
        0 <= i < k ==> !element_pseudo_type(#[trigger] f.proargtypes[i]) && !(array_pseudo_type(
            f.proargtypes[i],
        ) && c.element_of(args[i]) is Some))
}

proof fn lemma_unbound(c: CatalogView, expected: Seq<u32>, args: Seq<u32>, n: nat)
    requires
        n <= args.len(),
    ensures
        (forall|i: int|
            0 <= i < n ==> !element_pseudo_type(#[trigger] expected[i]) && !(array_pseudo_type(
                expected[i],
            ) && c.element_of(args[i]) is Some)) ==> bind_all(c, expected, args, n).element is None,
        (forall|i: int|
            0 <= i < n ==> !array_pseudo_type(#[trigger] expected[i]) && !range_pseudo_type(
                expected[i],
            )) ==> bind_all(c, expected, args, n).array is None,
    decreases n,
{
    if n > 0 {
        lemma_unbound(c, expected, args, (n - 1) as nat);
        assert(expected[n - 1] == expected[n - 1]);
    }
}

proof fn lemma_bound_stays(c: CatalogView, expected: Seq<u32>, args: Seq<u32>, k: nat, n: nat)
    requires
        k <= n,
    ensures
        bind_all(c, expected, args, k).element is Some ==> bind_all(c, expected, args, n).element
            == bind_all(c, expected, args, k).element,
        bind_all(c, expected, args, k).array is Some ==> bind_all(c, expected, args, n).array
            == bind_all(c, expected, args, k).array,
    decreases n,
{
    if k < n {
        lemma_bound_stays(c, expected, args, k, (n - 1) as nat);
    }
}

proof fn lemma_meant(
    c: CatalogView,
    schema: Option<Seq<char>>,
    name: Seq<char>,
    args: Seq<u32>,
    f: PgProcView,
)
    requires
        means_through_pseudo_types(c, schema, name, args, f),
    ensures
        f.proargtypes.len() == args.len(),
        resolve(c, schema, name, args) == Ok::<_, AnalyzeErrorView>(
            resolution(c, f, bind_all(c, f.proargtypes, args, args.len())),
        ),
{
    let oids = callable(c, c.find_functions(schema, name));
    lemma_choices(c, oids, args);
}

/// A routine that is declared to return an element pseudo-type returns what its first
/// argument of such a type is. One that is declared to return an array pseudo-type, with
/// no array or range among its arguments, returns the array type over that.
pub proof fn law_element_argument_fixes_the_result(
    c: CatalogView,
    schema: Option<Seq<char>>,
    name: Seq<char>,
    args: Seq<u32>,
    f: PgProcView,
    t: u32,
    k: int,
)
    requires
        means_through_pseudo_types(c, schema, name, args, f),
        declares(c, f, t),
        first_element(c, f, args, k),
        element_pseudo_type(f.proargtypes[k]),
    ensures
        resolve(c, schema, name, args) matches Ok(r) && (element_pseudo_type(t)
            ==> r.return_type_oid == args[k]) && (array_pseudo_type(t) && (forall|i: int|
            0 <= i < args.len() ==> !array_pseudo_type(#[trigger] f.proargtypes[i])
                && !range_pseudo_type(f.proargtypes[i])) ==> (c.array_type_of(args[k]) matches Some(
            a,
        ) ==> r.return_type_oid == a)),
{
    lemma_meant(c, schema, name, args, f);
    lemma_unbound(c, f.proargtypes, args, k as nat);
    lemma_unbound(c, f.proargtypes, args, args.len());
    lemma_bound_stays(c, f.proargtypes, args, (k + 1) as nat, args.len());
    assert(bind_all(c, f.proargtypes, args, (k + 1) as nat).element == Some(args[k]));
}

/// A routine that is declared to return an array pseudo-type returns what its first
/// argument of an array or range pseudo-type is. One that is declared to return an
/// element pseudo-type returns the element type of the first array, where no argument
/// before says which it is.
pub proof fn law_array_argument_fixes_the_result(
    c: CatalogView,
    schema: Option<Seq<char>>,
    name: Seq<char>,
    args: Seq<u32>,
    f: PgProcView,
    t: u32,
    k: int,
)
    requires
        means_through_pseudo_types(c, schema, name, args, f),
        declares(c, f, t),
        0 <= k < args.len(),
        array_pseudo_type(f.proargtypes[k]) || range_pseudo_type(f.proargtypes[k]),
        forall|i: int|
            0 <= i < k ==> !array_pseudo_type(#[trigger] f.proargtypes[i]) && !range_pseudo_type(
                f.proargtypes[i],
            ),
    ensures
        resolve(c, schema, name, args) matches Ok(r) && (array_pseudo_type(t) || range_pseudo_type(
            t,
        ) ==> r.return_type_oid == args[k]) && (element_pseudo_type(t) && first_element(
            c,
            f,
            args,
            k,
        ) && array_pseudo_type(f.proargtypes[k]) ==> (c.element_of(args[k]) matches Some(e)
            ==> r.return_type_oid == e)),
{
    lemma_meant(c, schema, name, args, f);
    lemma_unbound(c, f.proargtypes, args, k as nat);
    lemma_bound_stays(c, f.proargtypes, args, (k + 1) as nat, args.len());
    assert(bind_all(c, f.proargtypes, args, (k + 1) as nat).array == Some(args[k]));
}

/// A routine that is declared to return a type that is no such pseudo-type returns just
/// that.
pub proof fn law_plain_result_type_is_kept(
    c: CatalogView,
    schema: Option<Seq<char>>,
    name: Seq<char>,
    args: Seq<u32>,
    f: PgProcView,
    t: u32,
)
    requires
        means_through_pseudo_types(c, schema, name, args, f),
        declares(c, f, t),
        !element_pseudo_type(t),
        !array_pseudo_type(t),
        !range_pseudo_type(t),
    ensures
        resolve(c, schema, name, args) matches Ok(r) && r.return_type_oid == t,
{
    lemma_meant(c, schema, name, args, f);
}

/// The arguments of a call that means a routine through its pseudo-types: each has the
/// expected type or none that is known, or is an array for an array pseudo-type, no array
/// for `anynonarray`, an enum for `anyenum`, a range for a range pseudo-type, or casts to
/// a type that is no pseudo-type.
pub proof fn law_pseudo_types_stand_for_their_kind(
    c: CatalogView,
    schema: Option<Seq<char>>,
    name: Seq<char>,
    args: Seq<u32>,
    f: PgProcView,
    i: int,
)
    requires
        means_through_pseudo_types(c, schema, name, args, f),
        0 <= i < args.len(),
        args[i] != 705,
        args[i] != f.proargtypes[i],
        args[i] != 22,
        args[i] != 30,
    ensures
        array_pseudo_type(f.proargtypes[i]) ==> (c.get_type(args[i]) matches Some(row)
            && row.typcategory == TypCategory::Array),
        f.proargtypes[i] == 2776 || f.proargtypes[i] == 5079 ==> !(c.get_type(args[i]) matches Some(
            row,
        ) && row.typcategory == TypCategory::Array),
        f.proargtypes[i] == 3500 ==> (c.get_type(args[i]) matches Some(row) && row.typtype
            == crate::pg_catalog::TypType::Enum),
        range_pseudo_type(f.proargtypes[i]) ==> (c.get_type(args[i]) matches Some(row)
            && row.typtype == crate::pg_catalog::TypType::Range),
        !element_pseudo_type(f.proargtypes[i]) && !array_pseudo_type(f.proargtypes[i])
            && !range_pseudo_type(f.proargtypes[i]) ==> goes_for(c, args[i], f.proargtypes[i]),
{
    let oids = callable(c, c.find_functions(schema, name));
    lemma_choices(c, oids, args);
    assert(argument_fits(c, f.proargtypes[i], args[i], Matching::PolymorphicCasts));
}

// ── The order of the choices ────────────────────────────────────────────────

/// An argument has the type that is expected, or none that is known.
pub open spec fn known_fits(a: u32, e: u32) -> bool {
    a == e || a == 705
}

/// All arguments have the types that a routine of as many expects, or none that is known.
pub open spec fn all_known_fit(args: Seq<u32>, expected: Seq<u32>) -> bool {
    args.len() == expected.len() && forall|i: int|
        0 <= i < args.len() ==> known_fits(#[trigger] args[i], expected[i])
}

proof fn lemma_only(c: CatalogView, oids: Seq<u32>, args: Seq<u32>, m: Matching, x: u32)
    requires
        oids.contains(x),
        oid_accepts(c, x, args, m),
        forall|y: u32| #[trigger] oids.contains(y) && oid_accepts(c, y, args, m) ==> y == x,
        oids.no_duplicates(),
    ensures
        selected(c, oids, args, m) == seq![x],
    decreases oids.len(),
{
    reveal(Seq::filter);
    let head = oids.drop_last();
    let all = selected(c, oids, args, m);
    let before = selected(c, head, args, m);
    assert(head.no_duplicates());
    assert forall|y: u32| #[trigger] head.contains(y) && oid_accepts(c, y, args, m) implies y
        == x by {
        let k = choose|k: int| 0 <= k < head.len() && head[k] == y;
        assert(oids[k] == y);
        assert(oids.contains(y));
    }
    if oids.last() == x {
        if before.len() > 0 {
            lemma_selected_are(c, head, args, m, before[0]);
            assert(head.contains(before[0]));
            let k = choose|k: int| 0 <= k < head.len() && head[k] == before[0];
            assert(oids[k] == x && oids[oids.len() - 1] == x);
        }
        assert(before =~= Seq::empty());
        assert(all =~= seq![x]);
    } else {
        let k = choose|k: int| 0 <= k < oids.len() && oids[k] == x;
        assert(head[k] == x);
        lemma_only(c, head, args, m, x);
        assert(oids.contains(oids.last())) by {
            assert(oids[oids.len() - 1] == oids.last());
        }
    }
}

/// Where no routine of the name takes just the types of the arguments, some of which are
/// unknown, and only one takes those that are known, the call means that one.
pub proof fn law_only_routine_for_known_arguments(
    c: CatalogView,
    schema: Option<Seq<char>>,
    name: Seq<char>,
    args: Seq<u32>,
    oid: u32,
    f: PgProcView,
)
    requires
        args.contains(705),
        callable(c, c.find_functions(schema, name)).no_duplicates(),
        candidate(c, schema, name, oid, f),
        all_known_fit(args, f.proargtypes),
        forall|x: u32, g: PgProcView| #[trigger]
            candidate(c, schema, name, x, g) ==> g.proargtypes != args && (all_known_fit(
                args,
                g.proargtypes,
            ) ==> x == oid),
    ensures
        resolve(c, schema, name, args) matches Ok(r) && describes(c, r, f) && declares(
            c,
            f,
            r.return_type_oid,
        ),
{
    let all = c.find_functions(schema, name);
    let oids = callable(c, all);
    lemma_callable_are(c, all, oid);
    lemma_choices(c, oids, args);
    if let Some(x) = exact_match(c, oids, args) {
        lemma_callable_are(c, all, x);
        let g = c.get_proc(x)->0;
        assert(candidate(c, schema, name, x, g));
        assert(g.proargtypes =~= args) by {
            assert forall|i: int| 0 <= i < args.len() implies g.proargtypes[i] == args[i] by {
                assert(argument_fits(c, g.proargtypes[i], args[i], Matching::Exact));
            }
        }
    }
    assert(accepts(c, f, args, Matching::UnknownFits)) by {
        assert forall|i: int| 0 <= i < args.len() implies #[trigger] argument_fits(
            c,
            f.proargtypes[i],
            args[i],
            Matching::UnknownFits,
        ) by {
            assert(known_fits(args[i], f.proargtypes[i]));
        }
    }
    assert forall|y: u32| #[trigger] oids.contains(y) && oid_accepts(
        c,
        y,
        args,
        Matching::UnknownFits,
    ) implies y == oid by {
        lemma_callable_are(c, all, y);
        let g = c.get_proc(y)->0;
        assert(candidate(c, schema, name, y, g));
        assert(all_known_fit(args, g.proargtypes)) by {
            assert forall|i: int| 0 <= i < args.len() implies known_fits(
                #[trigger] args[i],
                g.proargtypes[i],
            ) by {
                assert(argument_fits(c, g.proargtypes[i], args[i], Matching::UnknownFits));
            }
        }
    }
    lemma_only(c, oids, args, Matching::UnknownFits, oid);
}

/// A routine that is the only one of its name is meant by a call with as many arguments as
/// it takes, whatever their types, and also with fewer where it has defaults for the rest and
/// the arguments go where it expects them.
pub proof fn law_only_routine_is_meant(
    c: CatalogView,
    schema: Option<Seq<char>>,
    name: Seq<char>,
    args: Seq<u32>,
    oid: u32,
    f: PgProcView,
)
    requires
        callable(c, c.find_functions(schema, name)) == seq![oid],
        c.get_proc(oid) == Some(f),
        args.len() == f.proargtypes.len() || (args.len() < f.proargtypes.len()
            && f.proargtypes.len() - args.len() <= f.pronargdefaults && (forall|i: int|
            0 <= i < args.len() ==> (#[trigger] args[i] == f.proargtypes[i] || args[i] == 705
                || c.has_implicit_cast(args[i], f.proargtypes[i])))),
    ensures
        resolve(c, schema, name, args) matches Ok(r) && describes(c, r, f),
{
    let oids = seq![oid];
    lemma_choices(c, oids, args);
    assert(oids.contains(oid)) by {
        assert(oids[0] == oid);
    }
    assert(oids.no_duplicates());
    assert forall|y: u32| #[trigger] oids.contains(y) implies y == oid by {}
    if args.len() == f.proargtypes.len() {
        if last_choice(c, oids, args) is None {
            lemma_only(c, oids, args, Matching::Count, oid);
        }
    } else {
        assert(accepts(c, f, args, Matching::Defaults)) by {
            assert forall|i: int| 0 <= i < args.len() implies #[trigger] argument_fits(
                c,
                f.proargtypes[i],
                args[i],
                Matching::Defaults,
            ) by {
                assert(args[i] == args[i]);
            }
        }
        lemma_only(c, oids, args, Matching::Defaults, oid);
    }
}

/// The named arguments of a routine through which it returns a value, in their order, are
/// the columns that it returns.
pub open spec fn returns_column(p: PgProcView, k: int) -> bool {
    (p.proargmodes[k] == ArgMode::Out || p.proargmodes[k] == ArgMode::InOut || p.proargmodes[k]
        == ArgMode::Table) && p.proargnames[k].len() > 0
}

/// The number of columns among the first `n` arguments of a routine.
pub open spec fn columns_before(p: PgProcView, n: int) -> int
    decreases n,
{
    if n <= 0 {
        0
    } else {
        columns_before(p, n - 1) + if returns_column(p, n - 1) {
            1int
        } else {
            0int
        }
    }
}

proof fn lemma_out_args(p: PgProcView, n: nat, k: int)
    requires
        0 <= k < n,
        returns_column(p, k),
    ensures
        out_args_upto(p, n).len() == columns_before(p, n as int),
        0 <= columns_before(p, k) < columns_before(p, n as int),
        out_args_upto(p, n)[columns_before(p, k)] == (CompositeFieldView {
            name: p.proargnames[k],
            type_oid: p.proallargtypes[k],
            not_null: false,
        }),
    decreases n,
{
    lemma_out_count(p, (n - 1) as nat);
    if k < n - 1 {
        lemma_out_args(p, (n - 1) as nat, k);
    }
}

proof fn lemma_out_count(p: PgProcView, n: nat)
    ensures
        out_args_upto(p, n).len() == columns_before(p, n as int),
    decreases n,
{
    if n > 0 {
        lemma_out_count(p, (n - 1) as nat);
    }
}

/// A routine returns a column for each of its named output arguments, in their order, of its
/// type, which may be null.
pub proof fn law_output_arguments_are_columns(c: CatalogView, p: PgProcView, k: int)
    requires
        p.proallargtypes.len() == p.proargmodes.len(),
        p.proargmodes.len() == p.proargnames.len(),
        0 <= k < p.proargmodes.len(),
        returns_column(p, k),
    ensures
        ({
            let out = plain_resolution(c, p).out_args;
            let i = columns_before(p, k);
            &&& out.len() == columns_before(p, p.proargmodes.len() as int)
            &&& 0 <= i < out.len()
            &&& out[i].name == p.proargnames[k]
            &&& out[i].type_oid == p.proallargtypes[k]
            &&& !out[i].not_null
        }),
{
    lemma_out_args(p, p.proargmodes.len(), k);
}

} // verus!

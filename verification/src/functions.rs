//! Function and aggregate resolution.

use crate::catalog::{CatalogView, PgCatalog};
use crate::error::{AnalyzeError, AnalyzeErrorView};
use crate::expr_type::{composite_views, CompositeField, CompositeFieldView};
use crate::lookup::opt_str;
use crate::pg_catalog::{
    ArgMode, PgAggregate, PgProc, PgProcView, ProKind, TypCategory, TypType, UNKNOWN,
};
use crate::table::{copy_numbers, row_get};
use crate::text::{concat3, concat5, decimal, decimal_text, same_text};
use vstd::prelude::*;

verus! {

// ── Polymorphic pseudo-types ────────────────────────────────────────────────

pub const ANYELEMENT: u32 = 2283;

pub const ANYARRAY: u32 = 2277;

pub const ANYNONARRAY: u32 = 2776;

pub const ANYENUM: u32 = 3500;

pub const ANYRANGE: u32 = 3831;

pub const ANYMULTIRANGE: u32 = 4537;

pub const ANYCOMPATIBLE: u32 = 5077;

pub const ANYCOMPATIBLEARRAY: u32 = 5078;

pub const ANYCOMPATIBLENONARRAY: u32 = 5079;

pub const ANYCOMPATIBLERANGE: u32 = 5080;

pub const ANYCOMPATIBLEMULTIRANGE: u32 = 4538;

pub const INT2VECTOR: u32 = 22;

pub const OIDVECTOR: u32 = 30;

/// A pseudo-type that stands for any type of a family: the element types.
pub open spec fn is_any_element(t: u32) -> bool {
    t == ANYELEMENT || t == ANYCOMPATIBLE
}

/// A pseudo-type that stands for any array.
pub open spec fn is_any_array(t: u32) -> bool {
    t == ANYARRAY || t == ANYCOMPATIBLEARRAY
}

/// A pseudo-type that stands for any type that is no array.
pub open spec fn is_any_nonarray(t: u32) -> bool {
    t == ANYNONARRAY || t == ANYCOMPATIBLENONARRAY
}

/// A pseudo-type that stands for any range or multirange.
pub open spec fn is_any_range(t: u32) -> bool {
    t == ANYRANGE || t == ANYMULTIRANGE || t == ANYCOMPATIBLERANGE || t == ANYCOMPATIBLEMULTIRANGE
}

/// A pseudo-type that stands for other types.
pub open spec fn polymorphic(t: u32) -> bool {
    is_any_element(t) || is_any_array(t) || is_any_nonarray(t) || t == ANYENUM || is_any_range(t)
}

/// Whether a type is a pseudo-type that stands for other types.
pub fn is_polymorphic(oid: u32) -> (r: bool)
    ensures
        r == polymorphic(oid),
{
    oid == ANYELEMENT || oid == ANYCOMPATIBLE || oid == ANYARRAY || oid == ANYCOMPATIBLEARRAY || oid
        == ANYNONARRAY || oid == ANYCOMPATIBLENONARRAY || oid == ANYENUM || oid == ANYRANGE || oid
        == ANYMULTIRANGE || oid == ANYCOMPATIBLERANGE || oid == ANYCOMPATIBLEMULTIRANGE
}

/// How much a type says of a value: the more, the greater.
pub open spec fn specificity(t: u32) -> u8 {
    if is_any_element(t) {
        1
    } else if is_any_array(t) || is_any_nonarray(t) {
        2
    } else if t == ANYENUM || is_any_range(t) {
        3
    } else {
        10
    }
}

/// How much a type says of a value: the more, the greater.
pub fn polymorphic_specificity(oid: u32) -> (r: u8)
    ensures
        r == specificity(oid),
{
    if oid == ANYELEMENT || oid == ANYCOMPATIBLE {
        1
    } else if oid == ANYARRAY || oid == ANYNONARRAY || oid == ANYCOMPATIBLEARRAY || oid
        == ANYCOMPATIBLENONARRAY {
        2
    } else if oid == ANYENUM || oid == ANYRANGE || oid == ANYMULTIRANGE || oid == ANYCOMPATIBLERANGE
        || oid == ANYCOMPATIBLEMULTIRANGE {
        3
    } else {
        10
    }
}

/// Whether a type is an array, or a vector that goes for one.
pub open spec fn arraylike(c: CatalogView, t: u32) -> bool {
    t == INT2VECTOR || t == OIDVECTOR || match c.get_type(t) {
        Some(row) => row.typcategory == TypCategory::Array,
        None => false,
    }
}

/// Whether a type is of a kind.
pub open spec fn has_typtype(c: CatalogView, t: u32, kind: TypType) -> bool {
    match c.get_type(t) {
        Some(row) => row.typtype == kind,
        None => false,
    }
}

/// Whether `expected` is a pseudo-type that stands for `actual`.
pub open spec fn stands_for(c: CatalogView, expected: u32, actual: u32) -> bool {
    if is_any_element(expected) {
        true
    } else if is_any_array(expected) {
        arraylike(c, actual)
    } else if is_any_nonarray(expected) {
        !arraylike(c, actual)
    } else if expected == ANYENUM {
        has_typtype(c, actual, TypType::Enum)
    } else if is_any_range(expected) {
        has_typtype(c, actual, TypType::Range)
    } else {
        false
    }
}

/// Whether `expected` is a pseudo-type that stands for `actual`.
pub fn matches_polymorphic(expected: u32, actual: u32, snapshot: &PgCatalog) -> (r: bool)
    ensures
        r == stands_for(snapshot@, expected, actual),
{
    let row = snapshot.get_type(actual);
    let is_array: bool = actual == INT2VECTOR || actual == OIDVECTOR || match row {
        Some(t) => t.typcategory == TypCategory::Array,
        None => false,
    };
    if expected == ANYELEMENT || expected == ANYCOMPATIBLE {
        true
    } else if expected == ANYARRAY || expected == ANYCOMPATIBLEARRAY {
        is_array
    } else if expected == ANYNONARRAY || expected == ANYCOMPATIBLENONARRAY {
        !is_array
    } else if expected == ANYENUM {
        match row {
            Some(t) => t.typtype == TypType::Enum,
            None => false,
        }
    } else if expected == ANYRANGE || expected == ANYMULTIRANGE || expected == ANYCOMPATIBLERANGE
        || expected == ANYCOMPATIBLEMULTIRANGE {
        match row {
            Some(t) => t.typtype == TypType::Range,
            None => false,
        }
    } else {
        false
    }
}

/// What the pseudo-types of a call have been bound to: an element type, and an
/// array or range type. The first binding of each stays.
#[derive(Debug, Clone, Copy, PartialEq, Eq, Structural)]
pub struct Bound {
    pub element: Option<u32>,
    pub array: Option<u32>,
}

/// The first of two values that is there.
pub open spec fn first_of(a: Option<u32>, b: Option<u32>) -> Option<u32> {
    match a {
        Some(x) => Some(x),
        None => b,
    }
}

/// The bindings behind one more argument.
pub open spec fn bind(c: CatalogView, b: Bound, expected: u32, actual: u32) -> Bound {
    if is_any_element(expected) || is_any_nonarray(expected) || expected == ANYENUM {
        Bound { element: first_of(b.element, Some(actual)), ..b }
    } else if is_any_array(expected) {
        Bound {
            element: first_of(b.element, c.element_of(actual)),
            array: first_of(b.array, Some(actual)),
        }
    } else if is_any_range(expected) {
        Bound { array: first_of(b.array, Some(actual)), ..b }
    } else {
        b
    }
}

/// The bindings that the first `n` arguments give.
pub open spec fn bind_all(c: CatalogView, expected: Seq<u32>, actual: Seq<u32>, n: nat) -> Bound
    decreases n,
{
    if n == 0 {
        Bound { element: None, array: None }
    } else {
        bind(
            c,
            bind_all(c, expected, actual, (n - 1) as nat),
            expected[n - 1],
            actual[n - 1],
        )
    }
}

fn or_else(a: Option<u32>, b: Option<u32>) -> (r: Option<u32>)
    ensures
        r == first_of(a, b),
{
    match a {
        Some(x) => Some(x),
        None => b,
    }
}

/// Binds the pseudo-types of one argument.
pub fn bind_polymorphic_from(expected: u32, actual: u32, snapshot: &PgCatalog, bound: Bound) -> (r:
    Bound)
    ensures
        r == bind(snapshot@, bound, expected, actual),
{
    if expected == ANYELEMENT || expected == ANYNONARRAY || expected == ANYENUM || expected
        == ANYCOMPATIBLE || expected == ANYCOMPATIBLENONARRAY {
        Bound { element: or_else(bound.element, Some(actual)), array: bound.array }
    } else if expected == ANYARRAY || expected == ANYCOMPATIBLEARRAY {
        Bound {
            element: or_else(bound.element, snapshot.element_of(actual)),
            array: or_else(bound.array, Some(actual)),
        }
    } else if expected == ANYRANGE || expected == ANYMULTIRANGE || expected == ANYCOMPATIBLERANGE
        || expected == ANYCOMPATIBLEMULTIRANGE {
        Bound { element: bound.element, array: or_else(bound.array, Some(actual)) }
    } else {
        bound
    }
}

/// The type that a type stands for under the bindings.
pub open spec fn substituted(c: CatalogView, t: u32, b: Bound) -> u32 {
    if is_any_element(t) || is_any_nonarray(t) || t == ANYENUM {
        match b.element {
            Some(e) => e,
            None => t,
        }
    } else if is_any_array(t) {
        match b.array {
            Some(a) => a,
            None => match b.element {
                Some(e) => match c.array_type_of(e) {
                    Some(a) => a,
                    None => t,
                },
                None => t,
            },
        }
    } else if is_any_range(t) {
        match b.array {
            Some(a) => a,
            None => t,
        }
    } else {
        t
    }
}

/// The type that a type stands for under the bindings.
pub fn substitute_polymorphic(oid: u32, bound: Bound, snapshot: &PgCatalog) -> (r: u32)
    ensures
        r == substituted(snapshot@, oid, bound),
{
    if oid == ANYELEMENT || oid == ANYNONARRAY || oid == ANYENUM || oid == ANYCOMPATIBLE || oid
        == ANYCOMPATIBLENONARRAY {
        match bound.element {
            Some(e) => e,
            None => oid,
        }
    } else if oid == ANYARRAY || oid == ANYCOMPATIBLEARRAY {
        match bound.array {
            Some(a) => a,
            None => match bound.element {
                Some(e) => match snapshot.array_type_of(e) {
                    Some(a) => a,
                    None => oid,
                },
                None => oid,
            },
        }
    } else if oid == ANYRANGE || oid == ANYMULTIRANGE || oid == ANYCOMPATIBLERANGE || oid
        == ANYCOMPATIBLEMULTIRANGE {
        match bound.array {
            Some(a) => a,
            None => oid,
        }
    } else {
        oid
    }
}

// ── Which candidates accept the arguments ───────────────────────────────────

/// Whether a value of one type is taken for one of another, arrays element by
/// element.
pub open spec fn casts(c: CatalogView, source: u32, target: u32) -> bool {
    c.has_implicit_cast(source, target) || match (c.element_of(source), c.element_of(target)) {
        (Some(s), Some(t)) => c.has_implicit_cast(s, t),
        _ => false,
    }
}

fn casts_implicitly(source: u32, target: u32, snapshot: &PgCatalog) -> (r: bool)
    ensures
        r == casts(snapshot@, source, target),
{
    snapshot.has_implicit_cast(source, target) || match (
        snapshot.element_of(source),
        snapshot.element_of(target),
    ) {
        (Some(s), Some(t)) => snapshot.has_implicit_cast(s, t),
        _ => false,
    }
}

/// How a candidate is asked to accept the arguments of a call.
#[derive(Debug, Clone, Copy, PartialEq, Eq, Structural)]
pub enum Matching {
    /// Each argument has the expected type.
    Exact,
    /// As `Exact`, but an unknown type fits.
    UnknownFits,
    /// As `UnknownFits`, with implicit casts, and defaults for missing arguments.
    Defaults,
    /// As `UnknownFits`, with implicit casts, arrays element by element.
    Casts,
    /// As `UnknownFits`, and pseudo-types stand for others.
    Polymorphic,
    /// As `Polymorphic`, with implicit casts to types that are no pseudo-types.
    PolymorphicCasts,
    /// Arguments of unknown type are expected to be strings.
    Strings,
    /// Arguments of unknown type are expected to be of a preferred type.
    Preferred,
    /// The candidate is an aggregate.
    Aggregate,
    /// The number of arguments fits.
    Count,
}

/// Whether one argument fits.
pub open spec fn argument_fits(c: CatalogView, expected: u32, actual: u32, m: Matching) -> bool {
    match m {
        Matching::Exact => expected == actual,
        Matching::UnknownFits => expected == actual || actual == UNKNOWN,
        Matching::Defaults => expected == actual || actual == UNKNOWN || c.has_implicit_cast(
            actual,
            expected,
        ),
        Matching::Casts => expected == actual || actual == UNKNOWN || casts(c, actual, expected),
        Matching::Polymorphic => expected == actual || actual == UNKNOWN || stands_for(
            c,
            expected,
            actual,
        ),
        Matching::PolymorphicCasts => expected == actual || actual == UNKNOWN || stands_for(
            c,
            expected,
            actual,
        ) || (!polymorphic(expected) && casts(c, actual, expected)),
        Matching::Strings => actual != UNKNOWN || match c.get_type(expected) {
            Some(t) => t.typcategory == TypCategory::String,
            None => false,
        },
        Matching::Preferred => actual != UNKNOWN || match c.get_type(expected) {
            Some(t) => t.typispreferred,
            None => false,
        },
        _ => true,
    }
}

/// Whether the first arguments, as many as are given, fit.
pub open spec fn arguments_fit(
    c: CatalogView,
    expected: Seq<u32>,
    actual: Seq<u32>,
    m: Matching,
) -> bool {
    forall|i: int|
        0 <= i < actual.len() ==> #[trigger] argument_fits(c, expected[i], actual[i], m)
}

/// Whether a candidate accepts the arguments of a call.
pub open spec fn accepts(c: CatalogView, f: PgProcView, args: Seq<u32>, m: Matching) -> bool {
    match m {
        Matching::Aggregate => f.prokind == ProKind::Aggregate,
        Matching::Count => f.proargtypes.len() == args.len() || f.provariadic is Some,
        Matching::Defaults => f.proargtypes.len() >= args.len() && (if f.pronargdefaults > 0 {
            f.pronargdefaults as int
        } else {
            0
        }) >= f.proargtypes.len() - args.len() && arguments_fit(c, f.proargtypes, args, m),
        _ => f.proargtypes.len() == args.len() && arguments_fit(c, f.proargtypes, args, m),
    }
}

/// Whether the routine with this OID accepts the arguments of a call.
pub open spec fn oid_accepts(c: CatalogView, oid: u32, args: Seq<u32>, m: Matching) -> bool {
    match c.get_proc(oid) {
        Some(f) => accepts(c, f, args, m),
        None => false,
    }
}

/// Those of the candidates that accept the arguments of a call.
pub open spec fn selected(c: CatalogView, oids: Seq<u32>, args: Seq<u32>, m: Matching) -> Seq<u32> {
    oids.filter(|oid: u32| oid_accepts(c, oid, args, m))
}

fn check_argument(snapshot: &PgCatalog, expected: u32, actual: u32, m: Matching) -> (r: bool)
    ensures
        r == argument_fits(snapshot@, expected, actual, m),
{
    match m {
        Matching::Exact => expected == actual,
        Matching::UnknownFits => expected == actual || actual == UNKNOWN,
        Matching::Defaults => expected == actual || actual == UNKNOWN
            || snapshot.has_implicit_cast(actual, expected),
        Matching::Casts => expected == actual || actual == UNKNOWN || casts_implicitly(
            actual,
            expected,
            snapshot,
        ),
        Matching::Polymorphic => expected == actual || actual == UNKNOWN || matches_polymorphic(
            expected,
            actual,
            snapshot,
        ),
        Matching::PolymorphicCasts => expected == actual || actual == UNKNOWN
            || matches_polymorphic(expected, actual, snapshot) || (!is_polymorphic(expected)
            && casts_implicitly(actual, expected, snapshot)),
        Matching::Strings => actual != UNKNOWN || match snapshot.get_type(expected) {
            Some(t) => t.typcategory == TypCategory::String,
            None => false,
        },
        Matching::Preferred => actual != UNKNOWN || match snapshot.get_type(expected) {
            Some(t) => t.typispreferred,
            None => false,
        },
        _ => true,
    }
}

fn check_arguments(snapshot: &PgCatalog, expected: &Vec<u32>, args: &Vec<u32>, m: Matching) -> (r:
    bool)
    requires
        args@.len() <= expected@.len(),
    ensures
        r == arguments_fit(snapshot@, expected@, args@, m),
{
    let mut i: usize = 0;
    while i < args.len()
        invariant
            i <= args@.len() <= expected@.len(),
            forall|j: int|
                0 <= j < i ==> #[trigger] argument_fits(snapshot@, expected@[j], args@[j], m),
        decreases args.len() - i,
    {
        if !check_argument(snapshot, expected[i], args[i], m) {
            proof {
                assert(!argument_fits(snapshot@, expected@[i as int], args@[i as int], m));
            }
            return false;
        }
        i = i + 1;
    }
    true
}

fn check_candidate(snapshot: &PgCatalog, f: &PgProc, args: &Vec<u32>, m: Matching) -> (r: bool)
    ensures
        r == accepts(snapshot@, f@, args@, m),
{
    let total: usize = f.proargtypes.len();
    match m {
        Matching::Aggregate => f.prokind == ProKind::Aggregate,
        Matching::Count => total == args.len() || f.provariadic.is_some(),
        Matching::Defaults => {
            if total < args.len() {
                return false;
            }
            let defaults: i16 = if f.pronargdefaults > 0 {
                f.pronargdefaults
            } else {
                0
            };
            let missing: usize = total - args.len();
            missing <= defaults as usize && check_arguments(snapshot, &f.proargtypes, args, m)
        },
        _ => total == args.len() && check_arguments(snapshot, &f.proargtypes, args, m),
    }
}

/// Those of the candidates that accept the arguments of a call.
fn select(snapshot: &PgCatalog, oids: &Vec<u32>, args: &Vec<u32>, m: Matching) -> (r: Vec<u32>)
    ensures
        r@ == selected(snapshot@, oids@, args@, m),
{
    let mut r: Vec<u32> = Vec::new();
    let mut i: usize = 0;
    proof {
        reveal(Seq::filter);
    }
    while i < oids.len()
        invariant
            i <= oids@.len(),
            r@ == selected(snapshot@, oids@.take(i as int), args@, m),
        decreases oids.len() - i,
    {
        proof {
            reveal(Seq::filter);
            assert(oids@.take(i + 1).drop_last() =~= oids@.take(i as int));
        }
        match snapshot.pg_proc.get(oids[i]) {
            Some(f) => {
                if check_candidate(snapshot, f, args, m) {
                    r.push(oids[i]);
                }
            },
            None => {},
        }
        i = i + 1;
    }
    proof {
        assert(oids@.take(i as int) =~= oids@);
    }
    r
}

// ── The choice among candidates ─────────────────────────────────────────────

/// The first of a list.
pub open spec fn first(s: Seq<u32>) -> Option<u32> {
    if s.len() > 0 {
        Some(s[0])
    } else {
        None
    }
}

/// The only one of a list.
pub open spec fn only(s: Seq<u32>) -> Option<u32> {
    if s.len() == 1 {
        Some(s[0])
    } else {
        None
    }
}

fn first_one(s: &Vec<u32>) -> (r: Option<u32>)
    ensures
        r == first(s@),
{
    if s.len() > 0 {
        Some(s[0])
    } else {
        None
    }
}

fn only_one(s: &Vec<u32>) -> (r: Option<u32>)
    ensures
        r == only(s@),
{
    if s.len() == 1 {
        Some(s[0])
    } else {
        None
    }
}

fn has_unknown(args: &Vec<u32>) -> (r: bool)
    ensures
        r == args@.contains(UNKNOWN),
{
    let mut i: usize = 0;
    while i < args.len()
        invariant
            i <= args@.len(),
            forall|j: int| 0 <= j < i ==> args@[j] != UNKNOWN,
        decreases args.len() - i,
    {
        if args[i] == UNKNOWN {
            return true;
        }
        i = i + 1;
    }
    false
}

/// The first candidate that expects just the types of the arguments.
pub open spec fn exact_match(c: CatalogView, oids: Seq<u32>, args: Seq<u32>) -> Option<u32> {
    first(selected(c, oids, args, Matching::Exact))
}

pub fn find_exact_match(candidates: &Vec<u32>, arg_types: &Vec<u32>, snapshot: &PgCatalog) -> (r:
    Option<u32>)
    ensures
        r == exact_match(snapshot@, candidates@, arg_types@),
{
    first_one(&select(snapshot, candidates, arg_types, Matching::Exact))
}

/// The only candidate that expects the types of the arguments that are known,
/// where some are not.
pub open spec fn unknown_match(c: CatalogView, oids: Seq<u32>, args: Seq<u32>) -> Option<u32> {
    if args.contains(UNKNOWN) {
        only(selected(c, oids, args, Matching::UnknownFits))
    } else {
        None
    }
}

pub fn find_unknown_compatible_match(
    candidates: &Vec<u32>,
    arg_types: &Vec<u32>,
    snapshot: &PgCatalog,
) -> (r: Option<u32>)
    ensures
        r == unknown_match(snapshot@, candidates@, arg_types@),
{
    if has_unknown(arg_types) {
        only_one(&select(snapshot, candidates, arg_types, Matching::UnknownFits))
    } else {
        None
    }
}

/// The only candidate that takes defaults for the arguments that are missing.
pub open spec fn default_match(c: CatalogView, oids: Seq<u32>, args: Seq<u32>) -> Option<u32> {
    only(selected(c, oids, args, Matching::Defaults))
}

fn find_default_args_match(candidates: &Vec<u32>, arg_types: &Vec<u32>, snapshot: &PgCatalog) -> (r:
    Option<u32>)
    ensures
        r == default_match(snapshot@, candidates@, arg_types@),
{
    only_one(&select(snapshot, candidates, arg_types, Matching::Defaults))
}

/// The candidate that implicit casts lead to. Where several do and some arguments
/// are unknown, one that takes those for strings goes first, and among such one
/// that takes them for a preferred type.
pub open spec fn cast_match(c: CatalogView, oids: Seq<u32>, args: Seq<u32>) -> Option<u32> {
    let fitting = selected(c, oids, args, Matching::Casts);
    let strings = selected(c, fitting, args, Matching::Strings);
    let preferred = selected(c, strings, args, Matching::Preferred);
    if fitting.len() <= 1 || !args.contains(UNKNOWN) || strings.len() == 0 {
        first(fitting)
    } else if strings.len() == 1 || preferred.len() == 0 {
        first(strings)
    } else {
        first(preferred)
    }
}

fn find_cast_match(candidates: &Vec<u32>, arg_types: &Vec<u32>, snapshot: &PgCatalog) -> (r: Option<
    u32,
>)
    ensures
        r == cast_match(snapshot@, candidates@, arg_types@),
{
    let fitting: Vec<u32> = select(snapshot, candidates, arg_types, Matching::Casts);
    if fitting.len() <= 1 || !has_unknown(arg_types) {
        return first_one(&fitting);
    }
    let strings: Vec<u32> = select(snapshot, &fitting, arg_types, Matching::Strings);
    if strings.len() == 0 {
        return first_one(&fitting);
    }
    if strings.len() == 1 {
        return first_one(&strings);
    }
    let preferred: Vec<u32> = select(snapshot, &strings, arg_types, Matching::Preferred);
    if preferred.len() > 0 {
        return first_one(&preferred);
    }
    first_one(&strings)
}

/// The only candidate whose pseudo-types stand for the arguments; where there is
/// none, the only one that implicit casts then lead to.
pub open spec fn polymorphic_match(c: CatalogView, oids: Seq<u32>, args: Seq<u32>) -> Option<u32> {
    let strict = selected(c, oids, args, Matching::Polymorphic);
    if strict.len() > 0 {
        only(strict)
    } else {
        only(selected(c, oids, args, Matching::PolymorphicCasts))
    }
}

fn find_polymorphic_match(candidates: &Vec<u32>, arg_types: &Vec<u32>, snapshot: &PgCatalog) -> (r:
    Option<u32>)
    ensures
        r == polymorphic_match(snapshot@, candidates@, arg_types@),
{
    let strict: Vec<u32> = select(snapshot, candidates, arg_types, Matching::Polymorphic);
    if strict.len() > 0 {
        only_one(&strict)
    } else {
        only_one(&select(snapshot, candidates, arg_types, Matching::PolymorphicCasts))
    }
}

// ── The result ──────────────────────────────────────────────────────────────

/// What a function call resolves to.
#[derive(Debug)]
pub struct ResolvedFunction {
    pub return_type_oid: u32,
    /// The argument types of the signature.
    pub arg_types: Vec<u32>,
    pub schema: String,
    pub is_aggregate: bool,
    pub is_strict: bool,
    /// The columns that a function returns through its output arguments.
    pub out_args: Vec<CompositeField>,
}

#[verifier::ext_equal]
pub struct ResolvedFunctionView {
    pub return_type_oid: u32,
    pub arg_types: Seq<u32>,
    pub schema: Seq<char>,
    pub is_aggregate: bool,
    pub is_strict: bool,
    pub out_args: Seq<CompositeFieldView>,
}

impl View for ResolvedFunction {
    type V = ResolvedFunctionView;

    open spec fn view(&self) -> ResolvedFunctionView {
        ResolvedFunctionView {
            return_type_oid: self.return_type_oid,
            arg_types: self.arg_types@,
            schema: self.schema@,
            is_aggregate: self.is_aggregate,
            is_strict: self.is_strict,
            out_args: composite_views(self.out_args@),
        }
    }
}

/// An argument through which a routine returns a value.
pub open spec fn is_output(mode: ArgMode) -> bool {
    mode == ArgMode::Out || mode == ArgMode::InOut || mode == ArgMode::Table
}

/// The named output arguments among the first `n` arguments.
pub open spec fn out_args_upto(p: PgProcView, n: nat) -> Seq<CompositeFieldView>
    decreases n,
{
    if n == 0 {
        Seq::empty()
    } else {
        let rest = out_args_upto(p, (n - 1) as nat);
        if is_output(p.proargmodes[n - 1]) && p.proargnames[n - 1].len() > 0 {
            rest.push(
                CompositeFieldView {
                    name: p.proargnames[n - 1],
                    type_oid: p.proallargtypes[n - 1],
                    not_null: false,
                },
            )
        } else {
            rest
        }
    }
}

/// The number of arguments that have a type, a mode and a name.
pub open spec fn described_args(p: PgProcView) -> nat {
    let a = p.proallargtypes.len();
    let b = p.proargmodes.len();
    let d = p.proargnames.len();
    let m = if a <= b {
        a
    } else {
        b
    };
    if m <= d {
        m
    } else {
        d
    }
}

/// The named output arguments of a routine.
pub open spec fn out_args_of(p: PgProcView) -> Seq<CompositeFieldView> {
    out_args_upto(p, described_args(p))
}

/// The named output arguments of a routine.
pub fn build_out_args(p: &PgProc) -> (r: Vec<CompositeField>)
    ensures
        composite_views(r@) == out_args_of(p@),
{
    let mut r: Vec<CompositeField> = Vec::new();
    let mut i: usize = 0;
    proof {
        assert(composite_views(r@) =~= Seq::empty());
    }
    while i < p.proallargtypes.len() && i < p.proargmodes.len() && i < p.proargnames.len()
        invariant
            i <= described_args(p@),
            composite_views(r@) == out_args_upto(p@, i as nat),
        decreases described_args(p@) - i,
    {
        let mode: ArgMode = p.proargmodes[i];
        if (mode == ArgMode::Out || mode == ArgMode::InOut || mode == ArgMode::Table)
            && !p.proargnames[i].as_str().is_empty() {
            let ghost before = composite_views(r@);
            r.push(
                CompositeField {
                    name: p.proargnames[i].clone(),
                    type_oid: p.proallargtypes[i],
                    not_null: false,
                },
            );
            proof {
                assert(composite_views(r@) =~= before.push(r@.last()@));
            }
        }
        i = i + 1;
    }
    r
}

/// The type that the final function of an aggregate returns.
pub open spec fn final_type(c: CatalogView, oid: u32) -> Option<u32> {
    match row_get::<PgAggregate>(c.pg_aggregate, oid) {
        Some(a) => match a.aggfinalfn {
            Some(f) => match c.get_proc(f) {
                Some(p) => Some(p.prorettype),
                None => None,
            },
            None => None,
        },
        None => None,
    }
}

fn final_return_type(snapshot: &PgCatalog, oid: u32) -> (r: Option<u32>)
    ensures
        r == final_type(snapshot@, oid),
{
    match snapshot.pg_aggregate.get(oid) {
        Some(a) => match a.aggfinalfn {
            Some(f) => match snapshot.pg_proc.get(f) {
                Some(p) => Some(p.prorettype),
                None => None,
            },
            None => None,
        },
        None => None,
    }
}

/// What a routine returns: the type of the final function of an aggregate, or its
/// own.
pub open spec fn declared_return(c: CatalogView, f: PgProcView) -> u32 {
    match final_type(c, f.oid) {
        Some(t) => t,
        None => f.prorettype,
    }
}

/// The name of a schema, empty where there is none.
pub open spec fn schema_text(c: CatalogView, nsoid: u32) -> Seq<char> {
    match c.namespace_name(nsoid) {
        Some(s) => s,
        None => Seq::empty(),
    }
}

/// The fields with the types that theirs stand for under the bindings.
pub open spec fn substituted_fields(
    c: CatalogView,
    fields: Seq<CompositeFieldView>,
    b: Bound,
) -> Seq<CompositeFieldView> {
    fields.map_values(
        |f: CompositeFieldView|
            CompositeFieldView { type_oid: substituted(c, f.type_oid, b), ..f },
    )
}

/// What a call of a routine gives under the bindings.
pub open spec fn resolution(c: CatalogView, f: PgProcView, b: Bound) -> ResolvedFunctionView {
    ResolvedFunctionView {
        return_type_oid: substituted(c, declared_return(c, f), b),
        arg_types: f.proargtypes,
        schema: schema_text(c, f.pronamespace),
        is_aggregate: f.prokind == ProKind::Aggregate,
        is_strict: f.proisstrict,
        out_args: substituted_fields(c, out_args_of(f), b),
    }
}

/// What a call of a routine gives as it is declared.
pub open spec fn plain_resolution(c: CatalogView, f: PgProcView) -> ResolvedFunctionView {
    ResolvedFunctionView {
        return_type_oid: declared_return(c, f),
        arg_types: f.proargtypes,
        schema: schema_text(c, f.pronamespace),
        is_aggregate: f.prokind == ProKind::Aggregate,
        is_strict: f.proisstrict,
        out_args: out_args_of(f),
    }
}

pub fn schema_name(snapshot: &PgCatalog, nsoid: u32) -> (r: String)
    ensures
        r@ == schema_text(snapshot@, nsoid),
{
    match snapshot.namespace_name(nsoid) {
        Some(s) => s.to_owned(),
        None => String::new(),
    }
}

fn make_resolved(f: &PgProc, snapshot: &PgCatalog) -> (r: ResolvedFunction)
    ensures
        r@ == plain_resolution(snapshot@, f@),
{
    let return_type_oid: u32 = match final_return_type(snapshot, f.oid) {
        Some(t) => t,
        None => f.prorettype,
    };
    ResolvedFunction {
        return_type_oid,
        arg_types: copy_numbers(&f.proargtypes),
        schema: schema_name(snapshot, f.pronamespace),
        is_aggregate: f.prokind == ProKind::Aggregate,
        is_strict: f.proisstrict,
        out_args: build_out_args(f),
    }
}

fn make_resolved_polymorphic(f: &PgProc, actual_args: &Vec<u32>, snapshot: &PgCatalog) -> (r:
    ResolvedFunction)
    requires
        f.proargtypes@.len() == actual_args@.len(),
    ensures
        r@ == resolution(
            snapshot@,
            f@,
            bind_all(snapshot@, f@.proargtypes, actual_args@, actual_args@.len()),
        ),
{
    let mut bound: Bound = Bound { element: None, array: None };
    let mut i: usize = 0;
    while i < actual_args.len()
        invariant
            i <= actual_args@.len(),
            f.proargtypes@.len() == actual_args@.len(),
            bound == bind_all(snapshot@, f@.proargtypes, actual_args@, i as nat),
        decreases actual_args.len() - i,
    {
        bound = bind_polymorphic_from(f.proargtypes[i], actual_args[i], snapshot, bound);
        i = i + 1;
    }
    let declared: u32 = match final_return_type(snapshot, f.oid) {
        Some(t) => t,
        None => f.prorettype,
    };
    let fields: Vec<CompositeField> = build_out_args(f);
    let mut out_args: Vec<CompositeField> = Vec::new();
    let ghost all = substituted_fields(snapshot@, composite_views(fields@), bound);
    let mut k: usize = 0;
    proof {
        assert(composite_views(out_args@) =~= all.take(0));
    }
    while k < fields.len()
        invariant
            k <= fields@.len(),
            all == substituted_fields(snapshot@, composite_views(fields@), bound),
            composite_views(out_args@) == all.take(k as int),
        decreases fields.len() - k,
    {
        let ghost before = composite_views(out_args@);
        out_args.push(
            CompositeField {
                name: fields[k].name.clone(),
                type_oid: substitute_polymorphic(fields[k].type_oid, bound, snapshot),
                not_null: fields[k].not_null,
            },
        );
        proof {
            assert(composite_views(out_args@) =~= before.push(out_args@.last()@));
            assert(all.take(k + 1) =~= all.take(k as int).push(all[k as int]));
        }
        k = k + 1;
    }
    proof {
        assert(all.take(k as int) =~= all);
    }
    ResolvedFunction {
        return_type_oid: substitute_polymorphic(declared, bound, snapshot),
        arg_types: copy_numbers(&f.proargtypes),
        schema: schema_name(snapshot, f.pronamespace),
        is_aggregate: f.prokind == ProKind::Aggregate,
        is_strict: f.proisstrict,
        out_args,
    }
}

// ── Resolution ──────────────────────────────────────────────────────────────

/// Those of the routines that are no procedures.
pub open spec fn callable(c: CatalogView, oids: Seq<u32>) -> Seq<u32> {
    oids.filter(|oid: u32| c.get_proc(oid) matches Some(f) && f.prokind != ProKind::Procedure)
}

fn callable_routines(snapshot: &PgCatalog, oids: &Vec<u32>) -> (r: Vec<u32>)
    ensures
        r@ == callable(snapshot@, oids@),
{
    let mut r: Vec<u32> = Vec::new();
    let mut i: usize = 0;
    proof {
        reveal(Seq::filter);
    }
    while i < oids.len()
        invariant
            i <= oids@.len(),
            r@ == callable(snapshot@, oids@.take(i as int)),
        decreases oids.len() - i,
    {
        proof {
            reveal(Seq::filter);
            assert(oids@.take(i + 1).drop_last() =~= oids@.take(i as int));
        }
        match snapshot.pg_proc.get(oids[i]) {
            Some(f) => {
                if f.prokind != ProKind::Procedure {
                    r.push(oids[i]);
                }
            },
            None => {},
        }
        i = i + 1;
    }
    proof {
        assert(oids@.take(i as int) =~= oids@);
    }
    r
}

/// The candidate that a call chooses without regard to pseudo-types.
pub open spec fn declared_choice(c: CatalogView, oids: Seq<u32>, args: Seq<u32>) -> Option<u32> {
    match exact_match(c, oids, args) {
        Some(oid) => Some(oid),
        None => match unknown_match(c, oids, args) {
            Some(oid) => Some(oid),
            None => match default_match(c, oids, args) {
                Some(oid) => Some(oid),
                None => cast_match(c, oids, args),
            },
        },
    }
}

/// The candidate that a call chooses where nothing fits its arguments: the only
/// aggregate, or the only one that takes as many.
pub open spec fn last_choice(c: CatalogView, oids: Seq<u32>, args: Seq<u32>) -> Option<u32> {
    match only(selected(c, oids, args, Matching::Aggregate)) {
        Some(oid) => Some(oid),
        None => only(selected(c, oids, args, Matching::Count)),
    }
}

/// What a call resolves to.
pub open spec fn resolve(
    c: CatalogView,
    schema: Option<Seq<char>>,
    name: Seq<char>,
    args: Seq<u32>,
) -> Result<ResolvedFunctionView, AnalyzeErrorView> {
    let oids = callable(c, c.find_functions(schema, name));
    if oids.len() == 0 {
        Err(AnalyzeErrorView::UndefinedFunction("function "@ + name + "() does not exist"@))
    } else {
        match declared_choice(c, oids, args) {
            Some(oid) => Ok(plain_resolution(c, c.get_proc(oid)->0)),
            None => match polymorphic_match(c, oids, args) {
                Some(oid) => Ok(
                    resolution(
                        c,
                        c.get_proc(oid)->0,
                        bind_all(c, c.get_proc(oid)->0.proargtypes, args, args.len()),
                    ),
                ),
                None => match last_choice(c, oids, args) {
                    Some(oid) => Ok(plain_resolution(c, c.get_proc(oid)->0)),
                    None => Err(
                        AnalyzeErrorView::UndefinedFunction(
                            "function "@ + name + " with "@ + decimal_text(args.len())
                                + " argument(s) does not exist (found "@ + decimal_text(oids.len())
                                + " candidate(s))"@,
                        ),
                    ),
                },
            },
        }
    }
}

/// Those that a selection keeps are candidates that accept the arguments.
proof fn lemma_selected(c: CatalogView, oids: Seq<u32>, args: Seq<u32>, m: Matching)
    ensures
        forall|i: int|
            0 <= i < selected(c, oids, args, m).len() ==> oid_accepts(
                c,
                #[trigger] selected(c, oids, args, m)[i],
                args,
                m,
            ),
    decreases oids.len(),
{
    reveal(Seq::filter);
    if oids.len() > 0 {
        lemma_selected(c, oids.drop_last(), args, m);
    }
}

fn choose_declared(candidates: &Vec<u32>, arg_types: &Vec<u32>, snapshot: &PgCatalog) -> (r: Option<
    u32,
>)
    ensures
        r == declared_choice(snapshot@, candidates@, arg_types@),
{
    match find_exact_match(candidates, arg_types, snapshot) {
        Some(oid) => Some(oid),
        None => match find_unknown_compatible_match(candidates, arg_types, snapshot) {
            Some(oid) => Some(oid),
            None => match find_default_args_match(candidates, arg_types, snapshot) {
                Some(oid) => Some(oid),
                None => find_cast_match(candidates, arg_types, snapshot),
            },
        },
    }
}

fn choose_last(candidates: &Vec<u32>, arg_types: &Vec<u32>, snapshot: &PgCatalog) -> (r: Option<
    u32,
>)
    ensures
        r == last_choice(snapshot@, candidates@, arg_types@),
{
    match only_one(&select(snapshot, candidates, arg_types, Matching::Aggregate)) {
        Some(oid) => Some(oid),
        None => only_one(&select(snapshot, candidates, arg_types, Matching::Count)),
    }
}

proof fn lemma_choices_are_known(c: CatalogView, oids: Seq<u32>, args: Seq<u32>)
    ensures
        declared_choice(c, oids, args) matches Some(oid) ==> c.get_proc(oid) is Some,
        last_choice(c, oids, args) matches Some(oid) ==> c.get_proc(oid) is Some,
        polymorphic_match(c, oids, args) matches Some(oid) ==> c.get_proc(oid) is Some
            && c.get_proc(oid)->0.proargtypes.len() == args.len(),
{
    lemma_selected(c, oids, args, Matching::Exact);
    lemma_selected(c, oids, args, Matching::UnknownFits);
    lemma_selected(c, oids, args, Matching::Defaults);
    lemma_selected(c, oids, args, Matching::Casts);
    let fitting = selected(c, oids, args, Matching::Casts);
    lemma_selected(c, fitting, args, Matching::Strings);
    let strings = selected(c, fitting, args, Matching::Strings);
    lemma_selected(c, strings, args, Matching::Preferred);
    lemma_selected(c, oids, args, Matching::Polymorphic);
    lemma_selected(c, oids, args, Matching::PolymorphicCasts);
    lemma_selected(c, oids, args, Matching::Aggregate);
    lemma_selected(c, oids, args, Matching::Count);
}

/// Resolves a function call by name and argument types.
///
/// # Errors
///
/// There is no function of the name, or none can be chosen.
pub fn resolve_function(
    snapshot: &PgCatalog,
    schema: Option<&str>,
    name: &str,
    arg_types: &Vec<u32>,
) -> (r: Result<ResolvedFunction, AnalyzeError>)
    ensures
        match r {
            Ok(f) => resolve(snapshot@, opt_str(schema), name@, arg_types@) == Ok::<
                _,
                AnalyzeErrorView,
            >(f@),
            Err(e) => resolve(snapshot@, opt_str(schema), name@, arg_types@) == Err::<
                ResolvedFunctionView,
                _,
            >(e@),
        },
{
    let all: Vec<u32> = snapshot.find_functions(schema, name);
    let candidates: Vec<u32> = callable_routines(snapshot, &all);
    if candidates.len() == 0 {
        return Err(
            AnalyzeError::UndefinedFunction(concat3("function ", name, "() does not exist")),
        );
    }
    proof {
        lemma_choices_are_known(snapshot@, candidates@, arg_types@);
    }
    match choose_declared(&candidates, arg_types, snapshot) {
        Some(oid) => {
            if let Some(f) = snapshot.pg_proc.get(oid) {
                return Ok(make_resolved(f, snapshot));
            }
        },
        None => {},
    }
    match find_polymorphic_match(&candidates, arg_types, snapshot) {
        Some(oid) => {
            if let Some(f) = snapshot.pg_proc.get(oid) {
                return Ok(make_resolved_polymorphic(f, arg_types, snapshot));
            }
        },
        None => {},
    }
    match choose_last(&candidates, arg_types, snapshot) {
        Some(oid) => {
            if let Some(f) = snapshot.pg_proc.get(oid) {
                return Ok(make_resolved(f, snapshot));
            }
        },
        None => {},
    }
    let head: String = concat5(
        "function ",
        name,
        " with ",
        decimal(arg_types.len() as u64).as_str(),
        " argument(s) does not exist (found ",
    );
    Err(
        AnalyzeError::UndefinedFunction(
            concat3(
                head.as_str(),
                decimal(candidates.len() as u64).as_str(),
                " candidate(s))",
            ),
        ),
    )
}

// ── Built-in functions with special nullability ─────────────────────────────

/// Built-in strict functions that may return null though no argument is null.
pub open spec fn nullable_though_strict(name: Seq<char>) -> bool {
    name == "array_position"@ || name == "array_upper"@ || name == "array_lower"@
        || name == "array_length"@ || name == "regexp_match"@ || name == "regexp_matches"@
        || name == "substring"@ || name == "json_object_field"@ || name == "json_object_field_text"@
        || name == "json_array_element"@ || name == "json_array_element_text"@
        || name == "jsonb_object_field"@ || name == "jsonb_object_field_text"@
        || name == "jsonb_array_element"@ || name == "jsonb_array_element_text"@
        || name == "jsonb_path_query_first"@ || name == "jsonb_path_match"@
        || name == "jsonb_extract_path"@ || name == "jsonb_extract_path_text"@
        || name == "json_extract_path"@ || name == "json_extract_path_text"@ || name == "nullif"@
        || name == "obj_description"@ || name == "col_description"@ || name == "shobj_description"@
}

pub fn is_nullable_strict_exception(name: &str) -> (r: bool)
    ensures
        r == nullable_though_strict(name@),
{
    same_text(name, "array_position") || same_text(name, "array_upper")
        || same_text(name, "array_lower") || same_text(name, "array_length")
        || same_text(name, "regexp_match") || same_text(name, "regexp_matches")
        || same_text(name, "substring") || same_text(name, "json_object_field")
        || same_text(name, "json_object_field_text") || same_text(name, "json_array_element")
        || same_text(name, "json_array_element_text") || same_text(name, "jsonb_object_field")
        || same_text(name, "jsonb_object_field_text") || same_text(name, "jsonb_array_element")
        || same_text(name, "jsonb_array_element_text") || same_text(name, "jsonb_path_query_first")
        || same_text(name, "jsonb_path_match") || same_text(name, "jsonb_extract_path")
        || same_text(name, "jsonb_extract_path_text") || same_text(name, "json_extract_path")
        || same_text(name, "json_extract_path_text") || same_text(name, "nullif")
        || same_text(name, "obj_description") || same_text(name, "col_description")
        || same_text(name, "shobj_description")
}

/// Built-in operators that may return null though no operand is null.
pub open spec fn nullable_operator(name: Seq<char>) -> bool {
    name == "->"@ || name == "->>"@ || name == "#>"@ || name == "#>>"@
}

pub fn is_nullable_operator(name: &str) -> (r: bool)
    ensures
        r == nullable_operator(name@),
{
    same_text(name, "->") || same_text(name, "->>") || same_text(name, "#>") || same_text(name, "#>>")
}

/// Built-in functions that are not strict and never return null.
pub open spec fn never_null(name: Seq<char>) -> bool {
    name == "concat"@ || name == "format"@ || name == "now"@ || name == "transaction_timestamp"@
        || name == "statement_timestamp"@ || name == "clock_timestamp"@ || name == "timeofday"@
        || name == "current_timestamp"@ || name == "current_date"@ || name == "localtime"@
        || name == "localtimestamp"@ || name == "current_user"@ || name == "session_user"@
        || name == "current_schema"@ || name == "current_database"@ || name == "current_catalog"@
        || name == "inet_client_addr"@ || name == "inet_server_addr"@ || name == "pg_backend_pid"@
        || name == "pg_postmaster_start_time"@ || name == "version"@ || name == "random"@
        || name == "gen_random_uuid"@ || name == "setseed"@ || name == "nextval"@
        || name == "currval"@ || name == "lastval"@ || name == "setval"@ || name == "txid_current"@
        || name == "txid_current_if_assigned"@ || name == "array_cat"@ || name == "array_append"@
        || name == "array_prepend"@ || name == "coalesce"@ || name == "greatest"@
        || name == "least"@ || name == "json_build_object"@ || name == "jsonb_build_object"@
        || name == "json_build_array"@ || name == "jsonb_build_array"@ || name == "row_number"@
        || name == "rank"@ || name == "dense_rank"@ || name == "percent_rank"@
        || name == "cume_dist"@ || name == "ntile"@
}

pub fn is_not_null_nonstrict(name: &str) -> (r: bool)
    ensures
        r == never_null(name@),
{
    same_text(name, "concat") || same_text(name, "format") || same_text(name, "now")
        || same_text(name, "transaction_timestamp") || same_text(name, "statement_timestamp")
        || same_text(name, "clock_timestamp") || same_text(name, "timeofday")
        || same_text(name, "current_timestamp") || same_text(name, "current_date")
        || same_text(name, "localtime") || same_text(name, "localtimestamp")
        || same_text(name, "current_user") || same_text(name, "session_user")
        || same_text(name, "current_schema") || same_text(name, "current_database")
        || same_text(name, "current_catalog") || same_text(name, "inet_client_addr")
        || same_text(name, "inet_server_addr") || same_text(name, "pg_backend_pid")
        || same_text(name, "pg_postmaster_start_time") || same_text(name, "version")
        || same_text(name, "random") || same_text(name, "gen_random_uuid")
        || same_text(name, "setseed") || same_text(name, "nextval") || same_text(name, "currval")
        || same_text(name, "lastval") || same_text(name, "setval")
        || same_text(name, "txid_current") || same_text(name, "txid_current_if_assigned")
        || same_text(name, "array_cat") || same_text(name, "array_append")
        || same_text(name, "array_prepend") || same_text(name, "coalesce")
        || same_text(name, "greatest") || same_text(name, "least")
        || same_text(name, "json_build_object") || same_text(name, "jsonb_build_object")
        || same_text(name, "json_build_array") || same_text(name, "jsonb_build_array")
        || same_text(name, "row_number") || same_text(name, "rank") || same_text(name, "dense_rank")
        || same_text(name, "percent_rank") || same_text(name, "cume_dist")
        || same_text(name, "ntile")
}

// ── Laws ────────────────────────────────────────────────────────────────────

/// A candidate that expects just the types of the arguments is chosen before all
/// others that do not.
pub proof fn law_exact_signature_wins(c: CatalogView, oids: Seq<u32>, args: Seq<u32>)
    requires
        exists|i: int|
            0 <= i < oids.len() && oid_accepts(c, #[trigger] oids[i], args, Matching::Exact),
    ensures
        declared_choice(c, oids, args) matches Some(oid) && oid_accepts(
            c,
            oid,
            args,
            Matching::Exact,
        ),
{
    lemma_selected(c, oids, args, Matching::Exact);
    lemma_selection_keeps(c, oids, args, Matching::Exact);
}

proof fn lemma_selection_keeps(c: CatalogView, oids: Seq<u32>, args: Seq<u32>, m: Matching)
    requires
        exists|i: int| 0 <= i < oids.len() && oid_accepts(c, #[trigger] oids[i], args, m),
    ensures
        selected(c, oids, args, m).len() > 0,
    decreases oids.len(),
{
    reveal(Seq::filter);
    let i = choose|i: int| 0 <= i < oids.len() && oid_accepts(c, #[trigger] oids[i], args, m);
    if i < oids.len() - 1 {
        assert(oids.drop_last()[i] == oids[i]);
        lemma_selection_keeps(c, oids.drop_last(), args, m);
    }
}

} // verus!

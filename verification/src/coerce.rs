//! Which types go for which, and the common type of several.

use crate::catalog::{CatalogView, PgCatalog};
use crate::lookup::{domain_base, domains_end, law_domains_are_unwrapped_once};
use crate::pg_catalog::{
    CastContext, BPCHAR, FLOAT4, FLOAT8, INT2, INT4, INT8, NAME, NUMERIC, TEXT, UNKNOWN, VARCHAR,
};
use vstd::prelude::*;

verus! {

/// How freely a value may be coerced.
#[derive(Debug, Clone, Copy, PartialEq, Eq, Structural)]
pub enum CoercionContext {
    /// Only by implicit casts, as for the arguments of operators and functions.
    Implicit,
    /// By implicit and assignment casts, as for the target columns of `INSERT`
    /// and `UPDATE`, `WHERE`, `LIMIT` and `OFFSET`.
    Assignment,
}

/// Whether a value of one type may be coerced to another: they are the same
/// below their domains, or a cast that the context allows leads there.
pub open spec fn coercible(
    c: CatalogView,
    source: u32,
    target: u32,
    context: CoercionContext,
) -> bool {
    let s = c.unwrap_domain(source);
    let t = c.unwrap_domain(target);
    source == target || s == t || match c.cast_between(s, t) {
        Some(k) => k.castcontext == CastContext::Implicit || (context == CoercionContext::Assignment
            && k.castcontext == CastContext::Assignment),
        None => false,
    }
}

/// Whether a value of type `source` may be coerced to `target` in a context.
pub fn can_coerce(
    source: u32,
    target: u32,
    context: CoercionContext,
    snapshot: &PgCatalog,
) -> (r: bool)
    ensures
        r == coercible(snapshot@, source, target, context),
{
    if source == target {
        return true;
    }
    let s: u32 = snapshot.unwrap_domain(source);
    let t: u32 = snapshot.unwrap_domain(target);
    if s == t {
        return true;
    }
    match snapshot.cast_between(s, t) {
        Some(k) => k.castcontext == CastContext::Implicit || (context == CoercionContext::Assignment
            && k.castcontext == CastContext::Assignment),
        None => false,
    }
}

/// The place of a numeric type in the order of promotion.
pub open spec fn rank_of(type_oid: u32) -> Option<u8> {
    if type_oid == INT2 {
        Some(0)
    } else if type_oid == INT4 {
        Some(1)
    } else if type_oid == INT8 {
        Some(2)
    } else if type_oid == NUMERIC {
        Some(3)
    } else if type_oid == FLOAT4 {
        Some(4)
    } else if type_oid == FLOAT8 {
        Some(5)
    } else {
        None
    }
}

/// The place of a numeric type in the order of promotion.
pub fn numeric_rank(type_oid: u32) -> (r: Option<u8>)
    ensures
        r == rank_of(type_oid),
{
    if type_oid == INT2 {
        Some(0)
    } else if type_oid == INT4 {
        Some(1)
    } else if type_oid == INT8 {
        Some(2)
    } else if type_oid == NUMERIC {
        Some(3)
    } else if type_oid == FLOAT4 {
        Some(4)
    } else if type_oid == FLOAT8 {
        Some(5)
    } else {
        None
    }
}

/// A type whose values are texts.
pub open spec fn stringlike(type_oid: u32) -> bool {
    type_oid == TEXT || type_oid == VARCHAR || type_oid == BPCHAR || type_oid == NAME
}

pub fn is_string_type(type_oid: u32) -> (r: bool)
    ensures
        r == stringlike(type_oid),
{
    type_oid == TEXT || type_oid == VARCHAR || type_oid == BPCHAR || type_oid == NAME
}

/// The types of a list that are known.
pub open spec fn concrete(types: Seq<u32>) -> Seq<u32> {
    crate::table::without(types, UNKNOWN)
}

/// All types of a list are numeric.
pub open spec fn all_numeric(types: Seq<u32>) -> bool {
    forall|i: int| 0 <= i < types.len() ==> rank_of(#[trigger] types[i]) is Some
}

/// All types of a list are string-like.
pub open spec fn all_stringlike(types: Seq<u32>) -> bool {
    forall|i: int| 0 <= i < types.len() ==> stringlike(#[trigger] types[i])
}

/// All types of a list are `t`.
pub open spec fn all_same(types: Seq<u32>, t: u32) -> bool {
    forall|i: int| 0 <= i < types.len() ==> #[trigger] types[i] == t
}

/// All types of a list are `t` or lead there by an implicit cast.
pub open spec fn all_cast_to(c: CatalogView, types: Seq<u32>, t: u32) -> bool {
    forall|i: int|
        0 <= i < types.len() ==> (#[trigger] types[i]) == t || c.has_implicit_cast(types[i], t)
}

/// The numeric type of a list that comes last in the order of promotion.
pub open spec fn highest(types: Seq<u32>) -> u32
    decreases types.len(),
{
    if types.len() <= 1 {
        types[0]
    } else {
        let h = highest(types.drop_last());
        if rank_of(types.last())->0 >= rank_of(h)->0 {
            types.last()
        } else {
            h
        }
    }
}

/// The first of `candidates` that all of `types` cast to.
pub open spec fn first_target(c: CatalogView, types: Seq<u32>, candidates: Seq<u32>) -> Option<u32>
    decreases candidates.len(),
{
    if candidates.len() == 0 {
        None
    } else if all_cast_to(c, types, candidates[0]) {
        Some(candidates[0])
    } else {
        first_target(c, types, candidates.drop_first())
    }
}

/// The common type of several, as `CASE`, `COALESCE` and `UNION` need it: unknown
/// types do not count; of several numeric types the highest; of several
/// string-like types `text`; else the first to which all others cast implicitly,
/// or `text` where all cast to that.
pub open spec fn common_type(c: CatalogView, types: Seq<u32>) -> Option<u32> {
    let known = concrete(types);
    if types.len() == 0 {
        None
    } else if known.len() == 0 {
        Some(TEXT)
    } else if all_same(known, known[0]) {
        Some(known[0])
    } else if all_numeric(known) {
        Some(highest(known))
    } else if all_stringlike(known) {
        Some(TEXT)
    } else {
        match first_target(c, known, known) {
            Some(t) => Some(t),
            None => if all_cast_to(c, known, TEXT) {
                Some(TEXT)
            } else {
                None
            },
        }
    }
}

/// The types of a list that are known.
pub fn concrete_types(types: &Vec<u32>) -> (r: Vec<u32>)
    ensures
        r@ == concrete(types@),
{
    crate::table::numbers_without(types, UNKNOWN)
}

fn casts_to(types: &Vec<u32>, t: u32, snapshot: &PgCatalog) -> (r: bool)
    ensures
        r == all_cast_to(snapshot@, types@, t),
{
    let mut i: usize = 0;
    while i < types.len()
        invariant
            i <= types@.len(),
            forall|j: int|
                0 <= j < i ==> (#[trigger] types@[j]) == t || snapshot@.has_implicit_cast(
                    types@[j],
                    t,
                ),
        decreases types.len() - i,
    {
        if types[i] != t && !snapshot.has_implicit_cast(types[i], t) {
            return false;
        }
        i = i + 1;
    }
    true
}

/// The common type of several.
pub fn find_common_type(types: &Vec<u32>, snapshot: &PgCatalog) -> (r: Option<u32>)
    ensures
        r == common_type(snapshot@, types@),
{
    if types.len() == 0 {
        return None;
    }
    let known: Vec<u32> = concrete_types(types);
    if known.len() == 0 {
        return Some(TEXT);
    }
    let mut same: bool = true;
    let mut numeric: bool = true;
    let mut strings: bool = true;
    let mut high: u32 = known[0];
    let mut i: usize = 0;
    while i < known.len()
        invariant
            known@.len() > 0,
            i <= known@.len(),
            same == all_same(known@.take(i as int), known@[0]),
            numeric == all_numeric(known@.take(i as int)),
            strings == all_stringlike(known@.take(i as int)),
            i == 0 ==> high == known@[0],
            i > 0 && numeric ==> high == highest(known@.take(i as int)) && rank_of(high) is Some,
        decreases known.len() - i,
    {
        let t: u32 = known[i];
        proof {
            let before = known@.take(i as int);
            let after = known@.take(i + 1);
            assert(after.drop_last() =~= before);
            assert(after[i as int] == t);
            assert(all_same(after, known@[0]) == (all_same(before, known@[0]) && t == known@[0])) by {
                if all_same(after, known@[0]) {
                    assert forall|j: int| 0 <= j < before.len() implies #[trigger] before[j]
                        == known@[0] by {
                        assert(after[j] == before[j]);
                    }
                }
            }
            assert(all_numeric(after) == (all_numeric(before) && rank_of(t) is Some)) by {
                if all_numeric(after) {
                    assert forall|j: int| 0 <= j < before.len() implies rank_of(
                        #[trigger] before[j],
                    ) is Some by {
                        assert(after[j] == before[j]);
                    }
                }
            }
            assert(all_stringlike(after) == (all_stringlike(before) && stringlike(t))) by {
                if all_stringlike(after) {
                    assert forall|j: int| 0 <= j < before.len() implies stringlike(
                        #[trigger] before[j],
                    ) by {
                        assert(after[j] == before[j]);
                    }
                }
            }
        }
        same = same && t == known[0];
        strings = strings && is_string_type(t);
        match (numeric_rank(t), numeric_rank(high)) {
            (Some(a), Some(b)) => {
                if a >= b {
                    high = t;
                }
            },
            (Some(_), None) => {
                high = t;
            },
            (None, _) => {
                numeric = false;
            },
        }
        i = i + 1;
    }
    proof {
        assert(known@.take(i as int) =~= known@);
    }
    if same {
        return Some(known[0]);
    }
    if numeric {
        return Some(high);
    }
    if strings {
        return Some(TEXT);
    }
    let mut k: usize = 0;
    proof {
        assert(known@.skip(0) =~= known@);
    }
    while k < known.len()
        invariant
            k <= known@.len(),
            types@.len() > 0,
            known@ == concrete(types@),
            known@.len() > 0,
            !all_same(known@, known@[0]),
            !all_numeric(known@),
            !all_stringlike(known@),
            first_target(snapshot@, known@, known@) == first_target(
                snapshot@,
                known@,
                known@.skip(k as int),
            ),
        decreases known.len() - k,
    {
        proof {
            assert(known@.skip(k as int).drop_first() =~= known@.skip(k + 1));
        }
        if casts_to(&known, known[k], snapshot) {
            return Some(known[k]);
        }
        k = k + 1;
    }
    if casts_to(&known, TEXT, snapshot) {
        return Some(TEXT);
    }
    None
}

// ── Laws ────────────────────────────────────────────────────────────────────

/// Every type may be coerced to itself, in either context, and what an implicit
/// context allows an assignment context allows too.
pub proof fn law_coercion_contexts_are_nested(c: CatalogView, source: u32, target: u32)
    ensures
        coercible(c, source, source, CoercionContext::Implicit),
        coercible(c, source, target, CoercionContext::Implicit) ==> coercible(
            c,
            source,
            target,
            CoercionContext::Assignment,
        ),
{
}

/// A domain goes where its base goes: looking through some of the domains around the
/// source or the target changes no answer, unless domains lead back to one another.
pub proof fn law_domains_coerce_as_their_bases(
    c: CatalogView,
    source: u32,
    target: u32,
    context: CoercionContext,
    n: nat,
)
    ensures
        domains_end(c, source) ==> coercible(c, domain_base(c, source, n), target, context)
            == coercible(c, source, target, context),
        domains_end(c, target) ==> coercible(c, source, domain_base(c, target, n), context)
            == coercible(c, source, target, context),
{
    if domains_end(c, source) {
        law_domains_are_unwrapped_once(c, source, n);
    }
    if domains_end(c, target) {
        law_domains_are_unwrapped_once(c, target, n);
    }
}

pub proof fn lemma_concrete_members(types: Seq<u32>, t: u32)
    ensures
        concrete(types).contains(t) <==> types.contains(t) && t != UNKNOWN,
    decreases types.len(),
{
    reveal(Seq::filter);
    if types.len() > 0 {
        let rest = types.drop_last();
        lemma_concrete_members(rest, t);
        if types.contains(t) {
            let k = choose|k: int| 0 <= k < types.len() && types[k] == t;
            if k < rest.len() {
                assert(rest[k] == t);
            }
        }
        if rest.contains(t) {
            let k = choose|k: int| 0 <= k < rest.len() && rest[k] == t;
            assert(types[k] == t);
        }
        assert(types[types.len() - 1] == types.last());
        let before = concrete(rest);
        if types.last() != UNKNOWN {
            assert(concrete(types) == before.push(types.last()));
            if before.contains(t) {
                let k = choose|k: int| 0 <= k < before.len() && before[k] == t;
                assert(before.push(types.last())[k] == t);
            }
            if t == types.last() {
                assert(before.push(t)[before.len() as int] == t);
            }
        } else {
            assert(concrete(types) == before);
        }
    }
}

proof fn lemma_highest(known: Seq<u32>)
    requires
        known.len() > 0,
        all_numeric(known),
    ensures
        known.contains(highest(known)),
        rank_of(highest(known)) is Some,
        forall|i: int|
            0 <= i < known.len() ==> rank_of(#[trigger] known[i])->0 <= rank_of(
                highest(known),
            )->0,
    decreases known.len(),
{
    if known.len() == 1 {
        assert(known[0] == highest(known));
    } else {
        let rest = known.drop_last();
        assert forall|i: int| 0 <= i < rest.len() implies rank_of(#[trigger] rest[i]) is Some by {
            assert(rest[i] == known[i]);
        }
        lemma_highest(rest);
        let h = highest(rest);
        let k = choose|k: int| 0 <= k < rest.len() && rest[k] == h;
        assert(known[k] == h);
        assert(known[known.len() - 1] == known.last());
        assert forall|i: int| 0 <= i < known.len() implies rank_of(#[trigger] known[i])->0
            <= rank_of(highest(known))->0 by {
            if i < rest.len() {
                assert(rest[i] == known[i]);
            }
        }
    }
}

/// Of several numeric types, beside which unknown ones do not count, the common type is
/// the greatest in the order `int2`, `int4`, `int8`, `numeric`, `float4`, `float8`,
/// whatever the catalog holds.
pub proof fn law_greatest_numeric_type_is_common(c: CatalogView, types: Seq<u32>) -> (g: u32)
    requires
        concrete(types).len() > 0,
        all_numeric(concrete(types)),
    ensures
        common_type(c, types) == Some(g),
        types.contains(g),
        rank_of(g) is Some,
        forall|i: int|
            0 <= i < types.len() && #[trigger] types[i] != UNKNOWN ==> rank_of(types[i])->0
                <= rank_of(g)->0,
{
    let known = concrete(types);
    let g = highest(known);
    lemma_highest(known);
    lemma_concrete_members(types, g);
    if all_same(known, known[0]) {
        let k = choose|k: int| 0 <= k < known.len() && known[k] == g;
        assert(known[k] == known[0]);
    }
    assert(types.len() > 0);
    assert forall|i: int| 0 <= i < types.len() && #[trigger] types[i] != UNKNOWN implies rank_of(
        types[i],
    )->0 <= rank_of(g)->0 by {
        lemma_concrete_members(types, types[i]);
        let k = choose|k: int| 0 <= k < known.len() && known[k] == types[i];
        assert(rank_of(known[k])->0 <= rank_of(g)->0);
    }
    g
}

/// The common type of numeric types depends on nothing but which types there are: not
/// on their order, how often each stands, unknown types between them, or the catalog.
pub proof fn law_order_of_numeric_types_does_not_matter(
    c: CatalogView,
    d: CatalogView,
    types: Seq<u32>,
    others: Seq<u32>,
)
    requires
        concrete(types).len() > 0,
        all_numeric(concrete(types)),
        forall|t: u32| t != UNKNOWN ==> (#[trigger] types.contains(t) <==> others.contains(t)),
    ensures
        common_type(c, types) == common_type(d, others),
{
    let known = concrete(types);
    let also = concrete(others);
    assert forall|i: int| 0 <= i < also.len() implies rank_of(#[trigger] also[i]) is Some by {
        let t = also[i];
        lemma_concrete_members(others, t);
        lemma_concrete_members(types, t);
        assert(types.contains(t));
        let k = choose|k: int| 0 <= k < known.len() && known[k] == t;
        assert(rank_of(known[k]) is Some);
    }
    let first = known[0];
    lemma_concrete_members(types, first);
    assert(types.contains(first));
    lemma_concrete_members(others, first);
    let g = law_greatest_numeric_type_is_common(c, types);
    let h = law_greatest_numeric_type_is_common(d, others);
    assert(types.contains(g) && others.contains(g));
    assert(types.contains(h) && others.contains(h));
    let a = choose|a: int| 0 <= a < types.len() && types[a] == h;
    let b = choose|b: int| 0 <= b < others.len() && others[b] == g;
    assert(rank_of(types[a])->0 <= rank_of(g)->0);
    assert(rank_of(others[b])->0 <= rank_of(h)->0);
}

/// Of several types that are all the same, that one is the common type, unless it
/// is unknown: then it is `text`.
pub proof fn law_common_type_of_one_type(c: CatalogView, types: Seq<u32>, t: u32)
    requires
        types.len() > 0,
        all_same(types, t),
    ensures
        common_type(c, types) == Some(
            if t == UNKNOWN {
                TEXT
            } else {
                t
            },
        ),
{
    lemma_concrete_of_one_type(types, t);
}

proof fn lemma_concrete_of_one_type(types: Seq<u32>, t: u32)
    requires
        all_same(types, t),
    ensures
        concrete(types) == if t == UNKNOWN {
            Seq::<u32>::empty()
        } else {
            types
        },
    decreases types.len(),
{
    reveal(Seq::filter);
    if types.len() > 0 {
        let rest = types.drop_last();
        assert forall|i: int| 0 <= i < rest.len() implies #[trigger] rest[i] == t by {
            assert(types[i] == t);
        }
        lemma_concrete_of_one_type(rest, t);
        assert(types[types.len() - 1] == t);
        assert(rest.push(t) =~= types);
    }
}

} // verus!

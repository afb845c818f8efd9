//! Which types go together.

use crate::catalog::CatalogView;
use crate::coerce::{
    all_cast_to, all_numeric, all_same, all_stringlike, coercible, common_type, concrete,
    first_target, highest, lemma_concrete_members, rank_of, stringlike, CoercionContext,
    law_greatest_numeric_type_is_common,
};
use crate::pg_catalog::CastContext;
use vstd::prelude::*;

verus! {

/// `int2`, `int4`, `int8`, `numeric`, `float4` and `float8`, each before those that it is
/// promoted to.
pub open spec fn promotions() -> Seq<u32> {
    seq![21, 23, 20, 1700, 700, 701]
}

/// `text`, `varchar`, `bpchar` or `name`.
pub open spec fn textual(t: u32) -> bool {
    t == 25 || t == 1043 || t == 1042 || t == 19
}

/// A value of one type goes for one of a common type: it has the type, is unknown, or casts
/// there without a word; numbers are promoted, and strings are taken for `text`.
pub open spec fn joins(c: CatalogView, from: u32, to: u32) -> bool {
    ||| from == to
    ||| from == 705
    ||| c.has_implicit_cast(from, to)
    ||| to == 25 && textual(from)
    ||| exists|i: int, j: int|
        0 <= i <= j < 6 && #[trigger] promotions()[i] == from && #[trigger] promotions()[j] == to
}

proof fn lemma_ranks(t: u32)
    ensures
        rank_of(t) is Some <==> promotions().contains(t),
        forall|i: int| 0 <= i < 6 && #[trigger] promotions()[i] == t ==> rank_of(t) == Some(i as u8),
{
    let p = promotions();
    assert(p[0] == 21 && p[1] == 23 && p[2] == 20 && p[3] == 1700 && p[4] == 700 && p[5] == 701);
    if rank_of(t) is Some {
        assert(p[rank_of(t)->0 as int] == t);
    }
}

/// Of several numbers the common type is that of the one which all others are promoted to:
/// `int2` before `int4`, `int8`, `numeric`, `float4` and `float8`.
pub proof fn law_numbers_are_promoted(c: CatalogView, types: Seq<u32>, k: int)
    requires
        0 <= k < 6,
        types.contains(promotions()[k]),
        forall|i: int|
            0 <= i < types.len() ==> #[trigger] types[i] == 705 || exists|j: int|
                0 <= j <= k && #[trigger] promotions()[j] == types[i],
    ensures
        common_type(c, types) == Some(promotions()[k]),
{
    let t = promotions()[k];
    lemma_ranks(t);
    let known = concrete(types);
    lemma_concrete_members(types, t);
    assert(t != 705);
    assert(known.contains(t));
    assert forall|i: int| 0 <= i < known.len() implies rank_of(#[trigger] known[i]) is Some by {
        lemma_concrete_members(types, known[i]);
        assert(types.contains(known[i]));
        let m = choose|m: int| 0 <= m < types.len() && types[m] == known[i];
        assert(types[m] == known[i]);
        lemma_ranks(known[i]);
    }
    let g = law_greatest_numeric_type_is_common(c, types);
    let m = choose|m: int| 0 <= m < types.len() && types[m] == t;
    assert(types[m] != 705);
    let n = choose|n: int| 0 <= n < types.len() && types[n] == g;
    assert(types[n] == g);
    lemma_ranks(g);
}

proof fn lemma_first_target(c: CatalogView, types: Seq<u32>, candidates: Seq<u32>)
    ensures
        first_target(c, types, candidates) matches Some(t) ==> all_cast_to(c, types, t)
            && candidates.contains(t),
        (exists|i: int|
            0 <= i < candidates.len() && all_cast_to(c, types, #[trigger] candidates[i]))
            ==> first_target(c, types, candidates) is Some,
    decreases candidates.len(),
{
    if candidates.len() > 0 {
        let rest = candidates.drop_first();
        lemma_first_target(c, types, rest);
        if let Some(t) = first_target(c, types, rest) {
            if rest.contains(t) {
                let k = choose|k: int| 0 <= k < rest.len() && rest[k] == t;
                assert(candidates[k + 1] == t);
            }
        }
        if !all_cast_to(c, types, candidates[0]) && exists|i: int|
            0 <= i < candidates.len() && all_cast_to(c, types, #[trigger] candidates[i]) {
            let i = choose|i: int|
                0 <= i < candidates.len() && all_cast_to(c, types, #[trigger] candidates[i]);
            assert(rest[i - 1] == candidates[i]);
        }
    }
}

proof fn lemma_highest_is_reached(types: Seq<u32>)
    requires
        types.len() > 0,
        all_numeric(types),
    ensures
        types.contains(highest(types)),
        rank_of(highest(types)) is Some,
        forall|i: int|
            0 <= i < types.len() ==> rank_of(#[trigger] types[i])->0 <= rank_of(
                highest(types),
            )->0,
    decreases types.len(),
{
    if types.len() > 1 {
        let head = types.drop_last();
        assert forall|i: int| 0 <= i < head.len() implies rank_of(#[trigger] head[i]) is Some by {
            assert(rank_of(types[i]) is Some);
        }
        lemma_highest_is_reached(head);
        let h = highest(head);
        let k = choose|k: int| 0 <= k < head.len() && head[k] == h;
        assert(types[k] == h);
        assert(types[types.len() - 1] == types.last());
        assert(rank_of(types[types.len() - 1]) is Some);
        assert forall|i: int| 0 <= i < types.len() implies rank_of(#[trigger] types[i])->0
            <= rank_of(highest(types))->0 by {
            if i < head.len() {
                assert(rank_of(head[i])->0 <= rank_of(h)->0);
            }
        }
    } else {
        assert(types[0] == highest(types));
    }
}

/// Every type of a list goes for their common type.
pub proof fn law_all_join_the_common_type(c: CatalogView, types: Seq<u32>, i: int)
    requires
        0 <= i < types.len(),
    ensures
        common_type(c, types) matches Some(t) ==> joins(c, types[i], t),
{
    let known = concrete(types);
    let x = types[i];
    lemma_concrete_members(types, x);
    if let Some(t) = common_type(c, types) {
        if x != 705 {
            assert(types.contains(x));
            assert(known.contains(x));
            let k = choose|k: int| 0 <= k < known.len() && known[k] == x;
            assert(known[k] == x);
            if all_same(known, known[0]) {
            } else if all_numeric(known) {
                lemma_highest_is_reached(known);
                lemma_ranks(x);
                lemma_ranks(t);
                let a = rank_of(x)->0 as int;
                let b = rank_of(t)->0 as int;
                let p = promotions();
                assert(p[0] == 21 && p[1] == 23 && p[2] == 20 && p[3] == 1700 && p[4] == 700
                    && p[5] == 701);
                assert(p[a] == x && p[b] == t);
            } else if all_stringlike(known) {
            } else {
                lemma_first_target(c, known, known);
            }
        }
    }
}

/// There is a common type where all known types of a list are one or cast to it without a
/// word, where all are numbers and where all are strings.
pub proof fn law_common_type_is_found(c: CatalogView, types: Seq<u32>, t: u32)
    requires
        types.len() > 0,
    ensures
        (forall|i: int| 0 <= i < types.len() ==> #[trigger] types[i] == 705) ==> common_type(
            c,
            types,
        ) == Some(25u32),
        t != 705 && types.contains(t) && (forall|i: int|
            0 <= i < types.len() ==> #[trigger] types[i] == 705 || types[i] == t
                || c.has_implicit_cast(types[i], t)) ==> common_type(c, types) is Some,
        t != 705 && types.contains(t) && (forall|i: int|
            0 <= i < types.len() ==> #[trigger] types[i] == 705 || types[i] == t) ==> common_type(
            c,
            types,
        ) == Some(t),
        (forall|i: int| 0 <= i < types.len() ==> #[trigger] types[i] == 705 || textual(types[i]))
            ==> (common_type(c, types) matches Some(s) && textual(s)),
{
    let known = concrete(types);
    if known.len() > 0 {
        lemma_concrete_members(types, known[0]);
        let m = choose|m: int| 0 <= m < types.len() && types[m] == known[0];
        assert(types[m] != 705);
    }
    assert forall|k: int| 0 <= k < known.len() implies types.contains(#[trigger] known[k])
        && known[k] != 705 by {
        lemma_concrete_members(types, known[k]);
    }
    lemma_first_target(c, known, known);
    if t != 705 && types.contains(t) {
        lemma_concrete_members(types, t);
        let k = choose|k: int| 0 <= k < known.len() && known[k] == t;
        assert(known[k] == t);
        if forall|i: int|
            0 <= i < types.len() ==> #[trigger] types[i] == 705 || types[i] == t
                || c.has_implicit_cast(types[i], t) {
            assert(all_cast_to(c, known, known[k])) by {
                assert forall|j: int| 0 <= j < known.len() implies (#[trigger] known[j]) == t
                    || c.has_implicit_cast(known[j], t) by {
                    assert(types.contains(known[j]));
                    let m = choose|m: int| 0 <= m < types.len() && types[m] == known[j];
                    assert(types[m] == known[j]);
                }
            }
        }
        if forall|i: int| 0 <= i < types.len() ==> #[trigger] types[i] == 705 || types[i] == t {
            assert forall|j: int| 0 <= j < known.len() implies #[trigger] known[j] == t by {
                assert(types.contains(known[j]));
                let m = choose|m: int| 0 <= m < types.len() && types[m] == known[j];
                assert(types[m] == known[j]);
            }
        }
    }
    if forall|i: int| 0 <= i < types.len() ==> #[trigger] types[i] == 705 || textual(types[i]) {
        assert forall|j: int| 0 <= j < known.len() implies #[trigger] stringlike(known[j])
            && textual(known[j]) && rank_of(known[j]) is None by {
            assert(types.contains(known[j]));
            let m = choose|m: int| 0 <= m < types.len() && types[m] == known[j];
            assert(types[m] == known[j]);
        }
        if known.len() > 0 {
            assert(stringlike(known[0]));
        }
    }
}

/// Strings of different types have `text` for their common type.
pub proof fn law_different_strings_are_text(c: CatalogView, types: Seq<u32>, a: u32, b: u32)
    requires
        types.contains(a),
        types.contains(b),
        a != b,
        a != 705,
        b != 705,
        forall|i: int| 0 <= i < types.len() ==> #[trigger] types[i] == 705 || textual(types[i]),
    ensures
        common_type(c, types) == Some(25u32),
{
    let known = concrete(types);
    lemma_concrete_members(types, a);
    lemma_concrete_members(types, b);
    let i = choose|i: int| 0 <= i < known.len() && known[i] == a;
    let j = choose|j: int| 0 <= j < known.len() && known[j] == b;
    assert(known[i] == a && known[j] == b);
    assert forall|k: int| 0 <= k < known.len() implies #[trigger] stringlike(known[k]) && rank_of(
        known[k],
    ) is None by {
        lemma_concrete_members(types, known[k]);
        let m = choose|m: int| 0 <= m < types.len() && types[m] == known[k];
        assert(types[m] == known[k]);
    }
    assert(stringlike(known[i]));
}

/// A value can be coerced to its own type, to one that is the same below domains, and where
/// the catalog has a cast between the two below their domains that is made without a word,
/// or on assignment where that is asked for. It can be coerced to no other.
pub proof fn law_coercion_follows_the_casts(
    c: CatalogView,
    source: u32,
    target: u32,
    context: CoercionContext,
)
    ensures
        source == target || c.unwrap_domain(source) == c.unwrap_domain(target) ==> coercible(
            c,
            source,
            target,
            context,
        ),
        c.cast_between(c.unwrap_domain(source), c.unwrap_domain(target)) matches Some(k) ==> (
        k.castcontext == CastContext::Implicit ==> coercible(c, source, target, context)) && (
        k.castcontext == CastContext::Assignment && source != target && c.unwrap_domain(source)
            != c.unwrap_domain(target) ==> (coercible(c, source, target, context) <==> context
            == CoercionContext::Assignment)) && (k.castcontext == CastContext::Explicit && source
            != target && c.unwrap_domain(source) != c.unwrap_domain(target) ==> !coercible(
            c,
            source,
            target,
            context,
        )),
        source != target && c.unwrap_domain(source) != c.unwrap_domain(target) && c.cast_between(
            c.unwrap_domain(source),
            c.unwrap_domain(target),
        ) is None ==> !coercible(c, source, target, context),
{
}

} // verus!

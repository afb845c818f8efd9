//! Which parameters a statement has.

use crate::param_collector::{
    ParamEntry, first_gap, first_untyped, param_list, sorted_params,
};
use vstd::prelude::*;

verus! {

proof fn lemma_untyped(s: Seq<ParamEntry>)
    ensures
        first_untyped(s) is Some <==> exists|k: int|
            0 <= k < s.len() && (#[trigger] s[k]).seen && s[k].type_oid is None,
    decreases s.len(),
{
    if s.len() > 0 {
        let rest = s.drop_first();
        lemma_untyped(rest);
        assert forall|k: int| 0 <= k < rest.len() implies #[trigger] rest[k] == s[k + 1] by {}
        if exists|k: int| 0 <= k < rest.len() && (#[trigger] rest[k]).seen && rest[k].type_oid
            is None {
            let k = choose|k: int|
                0 <= k < rest.len() && (#[trigger] rest[k]).seen && rest[k].type_oid is None;
            assert(s[k + 1].seen);
        }
        if exists|k: int| 0 <= k < s.len() && (#[trigger] s[k]).seen && s[k].type_oid is None {
            let k = choose|k: int|
                0 <= k < s.len() && (#[trigger] s[k]).seen && s[k].type_oid is None;
            if k > 0 {
                assert(rest[k - 1].seen);
            }
        }
    }
}

proof fn lemma_all_listed(s: Seq<ParamEntry>)
    requires
        forall|k: int| 0 <= k < s.len() ==> (#[trigger] s[k]).seen,
    ensures
        param_list(s).len() == s.len(),
        forall|k: int|
            0 <= k < s.len() ==> (#[trigger] param_list(s)[k]).0 == s[k].num && (s[k].type_oid
                matches Some(t) ==> param_list(s)[k].1 == t) && param_list(s)[k].2 == (
            s[k].nullable == Some(true)),
    decreases s.len(),
{
    if s.len() > 0 {
        let head = s.drop_last();
        assert forall|k: int| 0 <= k < head.len() implies (#[trigger] head[k]).seen by {
            assert(s[k].seen);
        }
        lemma_all_listed(head);
        assert(s[s.len() - 1].seen);
        assert forall|k: int| 0 <= k < s.len() implies (#[trigger] param_list(s)[k]).0 == s[k].num
            && (s[k].type_oid matches Some(t) ==> param_list(s)[k].1 == t) && param_list(s)[k].2
            == (s[k].nullable == Some(true)) by {
            if k < head.len() {
                assert(param_list(s)[k] == param_list(head)[k]);
                assert(head[k] == s[k]);
            }
        }
    }
}

proof fn lemma_gap(l: Seq<(i32, u32, bool)>, i: int)
    requires
        0 <= i <= l.len(),
    ensures
        first_gap(l, i) is None <==> forall|k: int|
            i <= k < l.len() ==> (#[trigger] l[k]).0 == k + 1,
    decreases l.len() - i,
{
    if i < l.len() {
        lemma_gap(l, i + 1);
    }
}

/// Parameters that are numbered from one on without a gap, and all have a type, are listed in
/// their order, each with its type and whether it may be null.
pub proof fn law_parameters_are_listed(s: Seq<ParamEntry>, k: int)
    requires
        forall|j: int|
            0 <= j < s.len() ==> (#[trigger] s[j]).seen && s[j].num == j + 1 && s[j].type_oid
                is Some,
        0 <= k < s.len(),
    ensures
        sorted_params(s) matches Ok(l) && l.len() == s.len() && l[k].0 == k + 1 && Some(l[k].1)
            == s[k].type_oid && (l[k].2 <==> s[k].nullable == Some(true)),
{
    lemma_untyped(s);
    lemma_all_listed(s);
    let l = param_list(s);
    assert forall|j: int| 0 <= j < l.len() implies (#[trigger] l[j]).0 == j + 1 by {
        assert(s[j].num == j + 1);
    }
    lemma_gap(l, 0);
    assert(s[k].seen);
}

/// A parameter that occurs and has no type is an error.
pub proof fn law_parameter_without_a_type_is_refused(s: Seq<ParamEntry>, k: int)
    requires
        0 <= k < s.len(),
        s[k].seen,
        s[k].type_oid is None,
    ensures
        sorted_params(s) is Err,
{
    lemma_untyped(s);
}

/// A gap in the numbers of the parameters is an error.
pub proof fn law_gap_is_refused(s: Seq<ParamEntry>, k: int)
    requires
        forall|j: int| 0 <= j < s.len() ==> (#[trigger] s[j]).seen,
        0 <= k < s.len(),
        s[k].num != k + 1,
    ensures
        sorted_params(s) is Err,
{
    lemma_all_listed(s);
    let l = param_list(s);
    assert(l[k].0 == s[k].num);
    lemma_gap(l, 0);
}

} // verus!

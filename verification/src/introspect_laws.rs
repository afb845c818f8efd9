//! What a live server's description of a statement stands for.

use crate::introspect::{
    column_described, columns_described, named, nullable_by_name, origin_says, param_described,
    params_described, resolved_at, IntrospectErrorView, ResolvedView, TypeNames, WireColumn,
    WireKind, WireType,
};
use crate::type_map::rust_name;
use vstd::prelude::*;

verus! {

/// A list of pairs has an entry under a name, the first one, at a position.
pub open spec fn entry_at(list: Seq<(String, String)>, name: Seq<char>, k: int) -> bool {
    0 <= k < list.len() && list[k].0@ == name && forall|j: int|
        0 <= j < k ==> (#[trigger] list[j]).0@ != name
}

/// A list of pairs has no entry under a name.
pub open spec fn no_entry(list: Seq<(String, String)>, name: Seq<char>) -> bool {
    forall|j: int| 0 <= j < list.len() ==> (#[trigger] list[j]).0@ != name
}

proof fn lemma_named(list: Seq<(String, String)>, name: Seq<char>, k: int)
    ensures
        entry_at(list, name, k) ==> named(list, name) == Some(list[k].1@),
        no_entry(list, name) ==> named(list, name) is None,
    decreases list.len(),
{
    if list.len() > 0 {
        let rest = list.drop_first();
        lemma_named(rest, name, k - 1);
        if entry_at(list, name, k) && k > 0 {
            assert(list[0].0@ != name);
            assert forall|j: int| 0 <= j < k - 1 implies (#[trigger] rest[j]).0@ != name by {
                assert(list[j + 1].0@ != name);
            }
            assert(entry_at(rest, name, k - 1));
        }
        if no_entry(list, name) {
            assert(list[0].0@ != name);
            assert forall|j: int| 0 <= j < rest.len() implies (#[trigger] rest[j]).0@ != name by {
                assert(list[j + 1].0@ != name);
            }
        }
    }
}

/// A domain over `jsonb` that the project names is read as JSON and converted to the type
/// that is named; every other domain is what its base type is.
pub proof fn law_domain_is_its_base(t: WireType, names: TypeNames, base: Box<WireType>, k: int)
    requires
        t.kind == WireKind::Domain(base),
    ensures
        base.oid == 3802 && entry_at(names.domains@, t.name@, k) ==> resolved_at(t, names, 0) == (
        ResolvedView {
            effective_oid: 3802,
            rust_type: Some("serde_json::Value"@),
            domain_rust_type: Some(names.domains@[k].1@),
            enum_rust_type: None,
        }),
        base.oid != 3802 || no_entry(names.domains@, t.name@) ==> resolved_at(t, names, 0)
            == resolved_at(*base, names, 1),
{
    lemma_named(names.domains@, t.name@, k);
}

/// An enum is a text, converted to the type that the project names for it, if it does.
pub proof fn law_enum_is_a_text(t: WireType, names: TypeNames, k: int)
    requires
        t.kind == WireKind::Enum,
    ensures
        resolved_at(t, names, 0).effective_oid == t.oid,
        resolved_at(t, names, 0).rust_type == Some("String"@),
        resolved_at(t, names, 0).domain_rust_type is None,
        entry_at(names.enums@, t.name@, k) ==> resolved_at(t, names, 0).enum_rust_type == Some(
            names.enums@[k].1@,
        ),
        no_entry(names.enums@, t.name@) ==> resolved_at(t, names, 0).enum_rust_type is None,
{
    lemma_named(names.enums@, t.name@, k);
}

/// An array is a vector of what its elements are.
pub proof fn law_array_is_a_vector(t: WireType, names: TypeNames, element: Box<WireType>)
    requires
        t.kind == WireKind::Array(element),
    ensures
        resolved_at(t, names, 0).effective_oid == t.oid,
        resolved_at(*element, names, 1).rust_type matches Some(e) ==> resolved_at(
            t,
            names,
            0,
        ).rust_type == Some("Vec<"@ + e + ">"@),
        resolved_at(*element, names, 1).rust_type is None ==> resolved_at(t, names, 0).rust_type
            is None,
{
}

/// Any other type is the one that stands for it where it is supported, else the one that the
/// project names for it with its schema, and else the one that it names without.
pub proof fn law_other_types_are_supported_or_named(
    t: WireType,
    names: TypeNames,
    k: int,
    m: int,
)
    requires
        t.kind == WireKind::Other,
    ensures
        resolved_at(t, names, 0).effective_oid == t.oid,
        rust_name(t.oid) is Some ==> resolved_at(t, names, 0).rust_type == rust_name(t.oid),
        rust_name(t.oid) is None && entry_at(names.custom_types@, t.schema@ + "."@ + t.name@, k)
            ==> resolved_at(t, names, 0).rust_type == Some(names.custom_types@[k].1@),
        rust_name(t.oid) is None && no_entry(names.custom_types@, t.schema@ + "."@ + t.name@)
            && entry_at(names.custom_types@, t.name@, m) ==> resolved_at(t, names, 0).rust_type
            == Some(names.custom_types@[m].1@),
        rust_name(t.oid) is None && no_entry(names.custom_types@, t.schema@ + "."@ + t.name@)
            && no_entry(names.custom_types@, t.name@) ==> resolved_at(t, names, 0).rust_type
            is None,
{
    lemma_named(names.custom_types@, t.schema@ + "."@ + t.name@, k);
    lemma_named(names.custom_types@, t.name@, m);
}

proof fn lemma_params(types: Seq<WireType>, names: TypeNames, n: int)
    requires
        0 <= n <= types.len(),
    ensures
        params_described(types, names, n) matches Ok(list) ==> list.len() == n && forall|i: int|
            0 <= i < n ==> param_described(types[i], names) == Ok::<_, IntrospectErrorView>(
                #[trigger] list[i],
            ),
        params_described(types, names, n) is Err ==> exists|i: int|
            0 <= i < n && param_described(#[trigger] types[i], names) is Err,
    decreases n,
{
    if n > 0 {
        lemma_params(types, names, n - 1);
        if params_described(types, names, n - 1) is Err {
            let i = choose|i: int|
                0 <= i < n - 1 && param_described(#[trigger] types[i], names) is Err;
            assert(param_described(types[i], names) is Err);
        } else if param_described(types[n - 1], names) is Err {
            assert(param_described(types[n - 1], names) is Err);
        }
    }
}

/// Each parameter is described by its own type, in the order of the statement, and taken for
/// never null. A type that nothing stands for is an error.
pub proof fn law_parameters_are_described_in_turn(
    types: Seq<WireType>,
    names: TypeNames,
    i: int,
)
    requires
        0 <= i < types.len(),
    ensures
        params_described(types, names, types.len() as int) matches Ok(list) ==> list.len()
            == types.len() && list[i].pg_type_oid == resolved_at(types[i], names, 0).effective_oid
            && Some(list[i].rust_type) == resolved_at(types[i], names, 0).rust_type
            && !list[i].nullable && list[i].domain_rust_type == resolved_at(
            types[i],
            names,
            0,
        ).domain_rust_type && list[i].enum_rust_type == resolved_at(
            types[i],
            names,
            0,
        ).enum_rust_type,
        params_described(types, names, types.len() as int) is Err <==> exists|k: int|
            0 <= k < types.len() && resolved_at(
                #[trigger] types[k],
                names,
                0,
            ).rust_type is None,
{
    let n = types.len() as int;
    lemma_params(types, names, n);
    if let Ok(list) = params_described(types, names, n) {
        assert(param_described(types[i], names) == Ok::<_, IntrospectErrorView>(list[i]));
        assert forall|k: int| 0 <= k < types.len() implies resolved_at(
            #[trigger] types[k],
            names,
            0,
        ).rust_type is Some by {
            assert(param_described(types[k], names) == Ok::<_, IntrospectErrorView>(list[k]));
        }
    } else {
        let k = choose|k: int| 0 <= k < n && param_described(#[trigger] types[k], names) is Err;
        assert(resolved_at(types[k], names, 0).rust_type is None);
    }
}

proof fn lemma_columns(columns: Seq<WireColumn>, names: TypeNames, n: int)
    requires
        0 <= n <= columns.len(),
    ensures
        columns_described(columns, names, n) matches Ok(list) ==> list.len() == n && forall|i: int|
            0 <= i < n ==> column_described(columns, i, names) == Ok::<_, IntrospectErrorView>(
                #[trigger] list[i],
            ),
    decreases n,
{
    if n > 0 {
        lemma_columns(columns, names, n - 1);
    }
}

proof fn lemma_by_name(columns: Seq<WireColumn>, name: Seq<char>, n: int, k: int)
    requires
        0 <= k < n <= columns.len(),
        columns[k].name@ == name,
        forall|j: int| k < j < n ==> (#[trigger] columns[j]).name@ != name,
    ensures
        nullable_by_name(columns, name, n) == origin_says(columns[k]),
    decreases n,
{
    if k < n - 1 {
        assert(columns[n - 1].name@ != name);
        lemma_by_name(columns, name, n - 1, k);
    }
}

/// Each column is described in its turn. A `!` behind its name says that it is never null, a
/// `?` that it may be, and neither is part of the name. Without either it may be null unless
/// it comes from a column of a table that is never null; of several columns of the name the
/// last one says so.
pub proof fn law_columns_are_described_in_turn(
    columns: Seq<WireColumn>,
    names: TypeNames,
    i: int,
    k: int,
)
    requires
        0 <= i < columns.len(),
        i <= k < columns.len(),
        columns[k].name@ == columns[i].name@,
        forall|j: int| k < j < columns.len() ==> (#[trigger] columns[j]).name@ != columns[i].name@,
    ensures
        columns_described(columns, names, columns.len() as int) matches Ok(list) ==> {
            let name = columns[i].name@;
            let bang = name.len() > 0 && name[name.len() - 1] == '!';
            let query = name.len() > 0 && name[name.len() - 1] == '?';
            &&& list.len() == columns.len()
            &&& list[i].pg_type_oid == resolved_at(columns[i].ty, names, 0).effective_oid
            &&& Some(list[i].rust_type) == resolved_at(columns[i].ty, names, 0).rust_type
            &&& list[i].name == if bang || query {
                name.take(name.len() - 1)
            } else {
                name
            }
            &&& bang ==> !list[i].nullable
            &&& query ==> list[i].nullable
            &&& !bang && !query ==> (list[i].nullable <==> !(columns[k].has_origin
                && columns[k].origin_nullable == Some(false)))
        },
{
    let n = columns.len() as int;
    lemma_columns(columns, names, n);
    lemma_by_name(columns, columns[i].name@, n, k);
    if let Ok(list) = columns_described(columns, names, n) {
        assert(column_described(columns, i, names) == Ok::<_, IntrospectErrorView>(list[i]));
        let name = columns[i].name@;
        if name.len() > 0 {
            assert(name.drop_last() =~= name.take(name.len() - 1));
        }
    }
}

/// The array types that are supported, each before its element type.
pub open spec fn arrays() -> Seq<(u32, u32)> {
    seq![
        (1000, 16),
        (1005, 21),
        (1007, 23),
        (1009, 25),
        (1016, 20),
        (1021, 700),
        (1022, 701),
        (2951, 2950),
        (3807, 3802),
    ]
}

/// The vector of what stands for its elements stands for a supported array type.
pub proof fn law_supported_arrays_are_vectors(k: int)
    requires
        0 <= k < 9,
    ensures
        rust_name(arrays()[k].1) matches Some(e) && rust_name(arrays()[k].0) == Some(
            "Vec<"@ + e + ">"@,
        ),
{
    reveal_strlit("Vec<");
    reveal_strlit(">");
    reveal_strlit("bool");
    reveal_strlit("i16");
    reveal_strlit("i32");
    reveal_strlit("String");
    reveal_strlit("i64");
    reveal_strlit("f32");
    reveal_strlit("f64");
    reveal_strlit("uuid::Uuid");
    reveal_strlit("serde_json::Value");
    reveal_strlit("Vec<bool>");
    reveal_strlit("Vec<i16>");
    reveal_strlit("Vec<i32>");
    reveal_strlit("Vec<String>");
    reveal_strlit("Vec<i64>");
    reveal_strlit("Vec<f32>");
    reveal_strlit("Vec<f64>");
    reveal_strlit("Vec<uuid::Uuid>");
    reveal_strlit("Vec<serde_json::Value>");
    assert("Vec<bool>"@ =~= "Vec<"@ + "bool"@ + ">"@);
    assert("Vec<i16>"@ =~= "Vec<"@ + "i16"@ + ">"@);
    assert("Vec<i32>"@ =~= "Vec<"@ + "i32"@ + ">"@);
    assert("Vec<String>"@ =~= "Vec<"@ + "String"@ + ">"@);
    assert("Vec<i64>"@ =~= "Vec<"@ + "i64"@ + ">"@);
    assert("Vec<f32>"@ =~= "Vec<"@ + "f32"@ + ">"@);
    assert("Vec<f64>"@ =~= "Vec<"@ + "f64"@ + ">"@);
    assert("Vec<uuid::Uuid>"@ =~= "Vec<"@ + "uuid::Uuid"@ + ">"@);
    assert("Vec<serde_json::Value>"@ =~= "Vec<"@ + "serde_json::Value"@ + ">"@);
}

} // verus!

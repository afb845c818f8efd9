//! The rows of the catalog and the indexes from names to rows stay in step.

use crate::catalog::{empty_catalog, CatalogView};
use crate::pg_catalog::{
    PgCast, PgClass, PgClassView, PgCollation, PgCollationView, PgExtension, PgExtensionView,
    PgNamespace, PgNamespaceView, PgOperator, PgOperatorView, PgProc, PgProcView, PgType,
    PgTypeView,
};
use crate::table::{
    distinct_keys, lemma_drop_keeps_distinct, lemma_put_keeps_distinct, lemma_row_position,
    lemma_row_position_meaning, list_add, list_get, list_remove, map_get, row_drop, row_get,
    row_position, row_put, without, Row,
};
use vstd::prelude::*;

verus! {

// ── Tables ──────────────────────────────────────────────────────────────────

/// After a row is put into a table, its key leads to it, and every other key leads
/// where it led before.
pub proof fn law_put_row_is_found<R: Row>(rows: Seq<R::V>, v: R::V, key: u32)
    ensures
        row_get::<R>(row_put::<R>(rows, v), key) == (if key == R::key_of(v) {
            Some(v)
        } else {
            row_get::<R>(rows, key)
        }),
{
    let after = row_put::<R>(rows, v);
    let p = row_position::<R>(rows, R::key_of(v));
    lemma_row_position_meaning::<R>(rows, R::key_of(v));
    lemma_row_position_meaning::<R>(rows, key);
    let q = row_position::<R>(rows, key);
    if key == R::key_of(v) {
        assert forall|j: int| 0 <= j < p implies R::key_of(#[trigger] after[j]) != key by {
            assert(after[j] == rows[j]);
        }
        lemma_row_position::<R>(after, key, p);
    } else if q < rows.len() {
        assert forall|j: int| 0 <= j < q implies R::key_of(#[trigger] after[j]) != key by {
            if j != p {
                assert(after[j] == rows[j]);
            }
        }
        assert(q != p);
        lemma_row_position::<R>(after, key, q);
    } else {
        assert forall|j: int| 0 <= j < after.len() implies R::key_of(#[trigger] after[j]) != key by {
            if j != p {
                assert(after[j] == rows[j]);
            }
        }
        lemma_row_position::<R>(after, key, after.len() as int);
    }
}

/// After a row is taken from a table without double keys, its key leads to no row,
/// and every other key leads where it led before.
pub proof fn law_dropped_row_is_gone<R: Row>(rows: Seq<R::V>, dropped: u32, key: u32)
    requires
        distinct_keys::<R>(rows),
    ensures
        row_get::<R>(row_drop::<R>(rows, dropped), key) == (if key == dropped {
            None
        } else {
            row_get::<R>(rows, key)
        }),
{
    let after = row_drop::<R>(rows, dropped);
    let p = row_position::<R>(rows, dropped);
    let q = row_position::<R>(rows, key);
    lemma_row_position_meaning::<R>(rows, dropped);
    lemma_row_position_meaning::<R>(rows, key);
    if p < rows.len() {
        if key == dropped {
            assert forall|j: int| 0 <= j < after.len() implies R::key_of(#[trigger] after[j])
                != key by {
                if j < p {
                    assert(after[j] == rows[j]);
                } else {
                    assert(after[j] == rows[j + 1]);
                    assert(R::key_of(rows[p]) != R::key_of(rows[j + 1]));
                }
            }
            lemma_row_position::<R>(after, key, after.len() as int);
        } else {
            let place = if q > p {
                q - 1
            } else {
                q
            };
            assert forall|j: int| 0 <= j < place implies R::key_of(#[trigger] after[j]) != key by {
                if j < p {
                    assert(after[j] == rows[j]);
                } else {
                    assert(after[j] == rows[j + 1]);
                }
            }
            if q < rows.len() {
                assert(after[place] == rows[q]);
            }
            lemma_row_position::<R>(after, key, place);
        }
    }
}

// ── Names that lead to one row ──────────────────────────────────────────────

/// Whether the row that a key leads to bears a name.
pub open spec fn bears<R: Row, K>(
    rows: Seq<R::V>,
    name: spec_fn(R::V) -> K,
    key: u32,
    q: K,
) -> bool {
    match row_get::<R>(rows, key) {
        Some(v) => name(v) == q,
        None => false,
    }
}

/// Whether a name leads to a key when, and only when, the row with that key bears the
/// name, and no key occurs twice.
pub open spec fn in_step<R: Row, K>(
    rows: Seq<R::V>,
    index: Map<K, u32>,
    name: spec_fn(R::V) -> K,
) -> bool {
    &&& distinct_keys::<R>(rows)
    &&& forall|q: K, key: u32|
        #[trigger] bears::<R, K>(rows, name, key, q) <==> map_get(index, q) == Some(key)
}

pub proof fn lemma_put_in_step<R: Row, K>(
    rows: Seq<R::V>,
    index: Map<K, u32>,
    name: spec_fn(R::V) -> K,
    v: R::V,
)
    requires
        in_step::<R, K>(rows, index, name),
        map_get(index, name(v)) is Some ==> map_get(index, name(v)) == Some(R::key_of(v)),
        row_get::<R>(rows, R::key_of(v)) matches Some(old_row) ==> name(old_row) == name(v),
    ensures
        in_step::<R, K>(row_put::<R>(rows, v), index.insert(name(v), R::key_of(v)), name),
{
    let after = row_put::<R>(rows, v);
    let names = index.insert(name(v), R::key_of(v));
    lemma_put_keeps_distinct::<R>(rows, v);
    assert forall|q: K, key: u32|
        #[trigger] bears::<R, K>(after, name, key, q) <==> map_get(names, q) == Some(key) by {
        law_put_row_is_found::<R>(rows, v, key);
        assert(bears::<R, K>(rows, name, key, q) <==> map_get(index, q) == Some(key));
        assert(bears::<R, K>(rows, name, R::key_of(v), q) <==> map_get(index, q) == Some(
            R::key_of(v),
        ));
    }
}

pub proof fn lemma_drop_in_step<R: Row, K>(
    rows: Seq<R::V>,
    index: Map<K, u32>,
    name: spec_fn(R::V) -> K,
    dropped: u32,
)
    requires
        in_step::<R, K>(rows, index, name),
        row_get::<R>(rows, dropped) is Some,
    ensures
        in_step::<R, K>(
            row_drop::<R>(rows, dropped),
            index.remove(name(row_get::<R>(rows, dropped)->Some_0)),
            name,
        ),
{
    let gone = name(row_get::<R>(rows, dropped)->Some_0);
    let after = row_drop::<R>(rows, dropped);
    let names = index.remove(gone);
    lemma_drop_keeps_distinct::<R>(rows, dropped);
    assert(bears::<R, K>(rows, name, dropped, gone));
    assert forall|q: K, key: u32|
        #[trigger] bears::<R, K>(after, name, key, q) <==> map_get(names, q) == Some(key) by {
        law_dropped_row_is_gone::<R>(rows, dropped, key);
        assert(bears::<R, K>(rows, name, key, q) <==> map_get(index, q) == Some(key));
        assert(bears::<R, K>(rows, name, dropped, q) <==> map_get(index, q) == Some(dropped));
    }
}

proof fn lemma_rename_in_step<R: Row, K>(
    rows: Seq<R::V>,
    index: Map<K, u32>,
    name: spec_fn(R::V) -> K,
    before: R::V,
    v: R::V,
)
    requires
        in_step::<R, K>(rows, index, name),
        row_get::<R>(rows, R::key_of(v)) == Some(before),
        name(v) == name(before) || map_get(index, name(v)) is None,
    ensures
        in_step::<R, K>(
            row_put::<R>(rows, v),
            index.remove(name(before)).insert(name(v), R::key_of(v)),
            name,
        ),
{
    let after = row_put::<R>(rows, v);
    let names = index.remove(name(before)).insert(name(v), R::key_of(v));
    lemma_put_keeps_distinct::<R>(rows, v);
    assert(bears::<R, K>(rows, name, R::key_of(v), name(before)));
    assert forall|q: K, key: u32|
        #[trigger] bears::<R, K>(after, name, key, q) <==> map_get(names, q) == Some(key) by {
        law_put_row_is_found::<R>(rows, v, key);
        assert(bears::<R, K>(rows, name, key, q) <==> map_get(index, q) == Some(key));
        assert(bears::<R, K>(rows, name, R::key_of(v), q) <==> map_get(index, q) == Some(
            R::key_of(v),
        ));
    }
}

// ── Names that lead to several rows ─────────────────────────────────────────

/// Whether a name lists a key when, and only when, the row with that key bears the
/// name, and no key occurs twice.
pub open spec fn lists_in_step<R: Row>(
    rows: Seq<R::V>,
    index: Map<(u32, Seq<char>), Seq<u32>>,
    name: spec_fn(R::V) -> (u32, Seq<char>),
) -> bool {
    &&& distinct_keys::<R>(rows)
    &&& forall|ns: u32, n: Seq<char>, key: u32|
        #[trigger] bears::<R, (u32, Seq<char>)>(rows, name, key, (ns, n)) <==> list_get(
            index,
            ns,
            n,
        ).contains(key)
}

proof fn lemma_pushed(s: Seq<u32>, x: u32, y: u32)
    ensures
        s.push(x).contains(y) <==> y == x || s.contains(y),
{
    if s.contains(y) {
        let k = choose|k: int| 0 <= k < s.len() && s[k] == y;
        assert(s.push(x)[k] == y);
    }
    assert(s.push(x)[s.len() as int] == x);
    if s.push(x).contains(y) && y != x {
        let k = choose|k: int| 0 <= k < s.push(x).len() && s.push(x)[k] == y;
        assert(s[k] == y);
    }
}

proof fn lemma_without(s: Seq<u32>, x: u32, y: u32)
    ensures
        without(s, x).contains(y) <==> y != x && s.contains(y),
    decreases s.len(),
{
    reveal(Seq::filter);
    if s.len() > 0 {
        let front = s.drop_last();
        lemma_without(front, x, y);
        assert(front.push(s.last()) =~= s);
        lemma_pushed(front, s.last(), y);
        lemma_pushed(without(front, x), s.last(), y);
    }
}

proof fn lemma_list_removed(
    index: Map<(u32, Seq<char>), Seq<u32>>,
    ns: u32,
    n: Seq<char>,
    target: u32,
    ns2: u32,
    n2: Seq<char>,
    key: u32,
)
    ensures
        list_get(list_remove(index, ns, n, target), ns2, n2).contains(key) <==> list_get(
            index,
            ns2,
            n2,
        ).contains(key) && !(key == target && ns == ns2 && n == n2),
{
    let before = list_get(index, ns, n);
    let rest = without(before, target);
    lemma_without(before, target, key);
    if rest.len() == 0 {
        assert(!rest.contains(key));
    }
}

pub proof fn lemma_list_put<R: Row>(
    rows: Seq<R::V>,
    index: Map<(u32, Seq<char>), Seq<u32>>,
    name: spec_fn(R::V) -> (u32, Seq<char>),
    v: R::V,
)
    requires
        lists_in_step::<R>(rows, index, name),
        row_get::<R>(rows, R::key_of(v)) matches Some(old_row) ==> name(old_row) == name(v),
    ensures
        lists_in_step::<R>(
            row_put::<R>(rows, v),
            list_add(index, name(v).0, name(v).1, R::key_of(v)),
            name,
        ),
{
    let after = row_put::<R>(rows, v);
    let names = list_add(index, name(v).0, name(v).1, R::key_of(v));
    lemma_put_keeps_distinct::<R>(rows, v);
    assert forall|ns: u32, n: Seq<char>, key: u32|
        #[trigger] bears::<R, (u32, Seq<char>)>(after, name, key, (ns, n)) <==> list_get(
            names,
            ns,
            n,
        ).contains(key) by {
        law_put_row_is_found::<R>(rows, v, key);
        lemma_pushed(list_get(index, name(v).0, name(v).1), R::key_of(v), key);
        assert(bears::<R, (u32, Seq<char>)>(rows, name, key, (ns, n)) <==> list_get(
            index,
            ns,
            n,
        ).contains(key));
    }
}

pub proof fn lemma_list_drop<R: Row>(
    rows: Seq<R::V>,
    index: Map<(u32, Seq<char>), Seq<u32>>,
    name: spec_fn(R::V) -> (u32, Seq<char>),
    dropped: u32,
)
    requires
        lists_in_step::<R>(rows, index, name),
        row_get::<R>(rows, dropped) is Some,
    ensures
        ({
            let gone = name(row_get::<R>(rows, dropped)->Some_0);
            lists_in_step::<R>(
                row_drop::<R>(rows, dropped),
                list_remove(index, gone.0, gone.1, dropped),
                name,
            )
        }),
{
    let gone = name(row_get::<R>(rows, dropped)->Some_0);
    let after = row_drop::<R>(rows, dropped);
    let names = list_remove(index, gone.0, gone.1, dropped);
    lemma_drop_keeps_distinct::<R>(rows, dropped);
    assert forall|ns: u32, n: Seq<char>, key: u32|
        #[trigger] bears::<R, (u32, Seq<char>)>(after, name, key, (ns, n)) <==> list_get(
            names,
            ns,
            n,
        ).contains(key) by {
        law_dropped_row_is_gone::<R>(rows, dropped, key);
        lemma_list_removed(index, gone.0, gone.1, dropped, ns, n, key);
        assert(bears::<R, (u32, Seq<char>)>(rows, name, key, (ns, n)) <==> list_get(
            index,
            ns,
            n,
        ).contains(key));
    }
}

pub proof fn lemma_list_rename<R: Row>(
    rows: Seq<R::V>,
    index: Map<(u32, Seq<char>), Seq<u32>>,
    name: spec_fn(R::V) -> (u32, Seq<char>),
    before: R::V,
    v: R::V,
)
    requires
        lists_in_step::<R>(rows, index, name),
        row_get::<R>(rows, R::key_of(v)) == Some(before),
    ensures
        lists_in_step::<R>(
            row_put::<R>(rows, v),
            list_add(
                list_remove(index, name(before).0, name(before).1, R::key_of(v)),
                name(v).0,
                name(v).1,
                R::key_of(v),
            ),
            name,
        ),
{
    let after = row_put::<R>(rows, v);
    let fewer = list_remove(index, name(before).0, name(before).1, R::key_of(v));
    let names = list_add(fewer, name(v).0, name(v).1, R::key_of(v));
    lemma_put_keeps_distinct::<R>(rows, v);
    assert forall|ns: u32, n: Seq<char>, key: u32|
        #[trigger] bears::<R, (u32, Seq<char>)>(after, name, key, (ns, n)) <==> list_get(
            names,
            ns,
            n,
        ).contains(key) by {
        law_put_row_is_found::<R>(rows, v, key);
        lemma_list_removed(index, name(before).0, name(before).1, R::key_of(v), ns, n, key);
        lemma_pushed(list_get(fewer, name(v).0, name(v).1), R::key_of(v), key);
        assert(bears::<R, (u32, Seq<char>)>(rows, name, key, (ns, n)) <==> list_get(
            index,
            ns,
            n,
        ).contains(key));
    }
}

// ── The catalog ─────────────────────────────────────────────────────────────

/// What a schema is found by.
pub open spec fn name_of_namespace() -> spec_fn(PgNamespaceView) -> (u32, Seq<char>) {
    |v: PgNamespaceView| (0u32, v.nspname)
}

/// What a type is found by.
pub open spec fn name_of_type() -> spec_fn(PgTypeView) -> (u32, Seq<char>) {
    |v: PgTypeView| (v.typnamespace, v.typname)
}

/// What a relation is found by.
pub open spec fn name_of_class() -> spec_fn(PgClassView) -> (u32, Seq<char>) {
    |v: PgClassView| (v.relnamespace, v.relname)
}

/// What an extension is found by.
pub open spec fn name_of_extension() -> spec_fn(PgExtensionView) -> (u32, Seq<char>) {
    |v: PgExtensionView| (0u32, v.extname)
}

/// What a collation is found by.
pub open spec fn name_of_collation() -> spec_fn(PgCollationView) -> (u32, Seq<char>) {
    |v: PgCollationView| (v.collnamespace, v.collname)
}

/// What a cast is found by.
pub open spec fn name_of_cast() -> spec_fn(PgCast) -> (u32, u32) {
    |v: PgCast| (v.castsource, v.casttarget)
}

/// What a function is found by.
pub open spec fn name_of_proc() -> spec_fn(PgProcView) -> (u32, Seq<char>) {
    |v: PgProcView| (v.pronamespace, v.proname)
}

/// What an operator is found by.
pub open spec fn name_of_operator() -> spec_fn(PgOperatorView) -> (u32, Seq<char>) {
    |v: PgOperatorView| (v.oprnamespace, v.oprname)
}

/// Whether every index of a catalog is in step with its table.
pub open spec fn catalog_in_step(c: CatalogView) -> bool {
    &&& in_step::<PgNamespace, (u32, Seq<char>)>(c.pg_namespace, c.namespace_by_name, name_of_namespace())
    &&& in_step::<PgType, (u32, Seq<char>)>(c.pg_type, c.type_by_qname, name_of_type())
    &&& in_step::<PgClass, (u32, Seq<char>)>(c.pg_class, c.class_by_qname, name_of_class())
    &&& in_step::<PgExtension, (u32, Seq<char>)>(c.pg_extension, c.extension_by_name, name_of_extension())
    &&& in_step::<PgCollation, (u32, Seq<char>)>(c.pg_collation, c.collation_by_qname, name_of_collation())
    &&& in_step::<PgCast, (u32, u32)>(c.pg_cast, c.cast_by_pair, name_of_cast())
    &&& lists_in_step::<PgProc>(c.pg_proc, c.proc_by_qname, name_of_proc())
    &&& lists_in_step::<PgOperator>(c.pg_operator, c.operator_by_qname, name_of_operator())
}

proof fn lemma_empty_in_step<R: Row, K>(name: spec_fn(R::V) -> K)
    ensures
        in_step::<R, K>(Seq::empty(), Map::empty(), name),
{
    assert forall|q: K, key: u32|
        #[trigger] bears::<R, K>(Seq::empty(), name, key, q) <==> map_get(
            Map::<K, u32>::empty(),
            q,
        ) == Some(key) by {
        lemma_row_position_meaning::<R>(Seq::empty(), key);
    }
}

proof fn lemma_empty_lists_in_step<R: Row>(name: spec_fn(R::V) -> (u32, Seq<char>))
    ensures
        lists_in_step::<R>(Seq::empty(), Map::empty(), name),
{
    assert forall|ns: u32, n: Seq<char>, key: u32|
        #[trigger] bears::<R, (u32, Seq<char>)>(Seq::empty(), name, key, (ns, n)) <==> list_get(
            Map::empty(),
            ns,
            n,
        ).contains(key) by {
        lemma_row_position_meaning::<R>(Seq::empty(), key);
    }
}

/// The indexes of an empty catalog are in step with its tables.
pub proof fn law_empty_catalog_is_in_step()
    ensures
        catalog_in_step(empty_catalog()),
{
    lemma_empty_in_step::<PgNamespace, (u32, Seq<char>)>(name_of_namespace());
    lemma_empty_in_step::<PgType, (u32, Seq<char>)>(name_of_type());
    lemma_empty_in_step::<PgClass, (u32, Seq<char>)>(name_of_class());
    lemma_empty_in_step::<PgExtension, (u32, Seq<char>)>(name_of_extension());
    lemma_empty_in_step::<PgCollation, (u32, Seq<char>)>(name_of_collation());
    lemma_empty_in_step::<PgCast, (u32, u32)>(name_of_cast());
    lemma_empty_lists_in_step::<PgProc>(name_of_proc());
    lemma_empty_lists_in_step::<PgOperator>(name_of_operator());
}

/// A schema whose name is free, or its own, goes into the catalog with its name.
pub proof fn law_namespace_goes_in_with_its_name(c: CatalogView, row: PgNamespaceView)
    requires
        catalog_in_step(c),
        map_get(c.namespace_by_name, (0, row.nspname)) is Some ==> map_get(c.namespace_by_name, (0, row.nspname)) == Some(row.oid),
        row_get::<PgNamespace>(c.pg_namespace, row.oid) matches Some(o) ==> name_of_namespace()(o) == name_of_namespace()(row),
    ensures
        catalog_in_step(c.with_namespace(row)),
        map_get(c.with_namespace(row).namespace_by_name, (0, row.nspname)) == Some(row.oid),
        row_get::<PgNamespace>(c.with_namespace(row).pg_namespace, row.oid) == Some(row),
{
    lemma_put_in_step::<PgNamespace, (u32, Seq<char>)>(
        c.pg_namespace,
        c.namespace_by_name,
        name_of_namespace(),
        row,
    );
    law_put_row_is_found::<PgNamespace>(c.pg_namespace, row, row.oid);
}

/// A schema leaves the catalog with its name.
pub proof fn law_namespace_leaves_with_its_name(c: CatalogView, oid: u32)
    requires
        catalog_in_step(c),
    ensures
        catalog_in_step(c.without_namespace(oid)),
        row_get::<PgNamespace>(c.without_namespace(oid).pg_namespace, oid) is None,
        forall|q: (u32, Seq<char>)| map_get(c.without_namespace(oid).namespace_by_name, q) != Some(oid),
{
    if row_get::<PgNamespace>(c.pg_namespace, oid) is Some {
        lemma_drop_in_step::<PgNamespace, (u32, Seq<char>)>(
            c.pg_namespace,
            c.namespace_by_name,
            name_of_namespace(),
            oid,
        );
        law_dropped_row_is_gone::<PgNamespace>(c.pg_namespace, oid, oid);
    }
    let after = c.without_namespace(oid);
    assert forall|q: (u32, Seq<char>)| map_get(after.namespace_by_name, q) != Some(oid) by {
        assert(!bears::<PgNamespace, (u32, Seq<char>)>(after.pg_namespace, name_of_namespace(), oid, q));
    }
}

/// A schema that gets a free name is found by it, under the same OID, and by no
/// other.
pub proof fn law_renamed_namespace_keeps_its_oid(c: CatalogView, oid: u32, name: Seq<char>)
    requires
        catalog_in_step(c),
        row_get::<PgNamespace>(c.pg_namespace, oid) is Some,
        map_get(c.namespace_by_name, (0, name)) is None || map_get(c.namespace_by_name, (0, name))
            == Some(oid),
    ensures
        catalog_in_step(c.with_namespace_renamed(oid, name)),
        map_get(c.with_namespace_renamed(oid, name).namespace_by_name, (0, name)) == Some(oid),
        row_get::<PgNamespace>(c.with_namespace_renamed(oid, name).pg_namespace, oid) == Some(
            PgNamespaceView {
                nspname: name,
                ..row_get::<PgNamespace>(c.pg_namespace, oid)->Some_0
            },
        ),
{
    let before = row_get::<PgNamespace>(c.pg_namespace, oid)->Some_0;
    let row = PgNamespaceView { nspname: name, ..before };
    lemma_row_position_meaning::<PgNamespace>(c.pg_namespace, oid);
    assert(bears::<PgNamespace, (u32, Seq<char>)>(
        c.pg_namespace,
        name_of_namespace(),
        oid,
        (0u32, name),
    ) <==> map_get(c.namespace_by_name, (0u32, name)) == Some(oid));
    lemma_rename_in_step::<PgNamespace, (u32, Seq<char>)>(
        c.pg_namespace,
        c.namespace_by_name,
        name_of_namespace(),
        before,
        row,
    );
    law_put_row_is_found::<PgNamespace>(c.pg_namespace, row, oid);
}

/// A type whose name is free, or its own, goes into the catalog with its name.
pub proof fn law_type_goes_in_with_its_name(c: CatalogView, row: PgTypeView)
    requires
        catalog_in_step(c),
        map_get(c.type_by_qname, (row.typnamespace, row.typname)) is Some ==> map_get(c.type_by_qname, (row.typnamespace, row.typname)) == Some(row.oid),
        row_get::<PgType>(c.pg_type, row.oid) matches Some(o) ==> name_of_type()(o) == name_of_type()(row),
    ensures
        catalog_in_step(c.with_type(row)),
        map_get(c.with_type(row).type_by_qname, (row.typnamespace, row.typname)) == Some(row.oid),
        row_get::<PgType>(c.with_type(row).pg_type, row.oid) == Some(row),
{
    lemma_put_in_step::<PgType, (u32, Seq<char>)>(c.pg_type, c.type_by_qname, name_of_type(), row);
    law_put_row_is_found::<PgType>(c.pg_type, row, row.oid);
}

/// A type leaves the catalog with its name.
pub proof fn law_type_leaves_with_its_name(c: CatalogView, oid: u32)
    requires
        catalog_in_step(c),
    ensures
        catalog_in_step(c.without_type(oid)),
        row_get::<PgType>(c.without_type(oid).pg_type, oid) is None,
        forall|q: (u32, Seq<char>)| map_get(c.without_type(oid).type_by_qname, q) != Some(oid),
{
    if row_get::<PgType>(c.pg_type, oid) is Some {
        lemma_drop_in_step::<PgType, (u32, Seq<char>)>(
            c.pg_type,
            c.type_by_qname,
            name_of_type(),
            oid,
        );
        law_dropped_row_is_gone::<PgType>(c.pg_type, oid, oid);
    }
    let after = c.without_type(oid);
    assert forall|q: (u32, Seq<char>)| map_get(after.type_by_qname, q) != Some(oid) by {
        assert(!bears::<PgType, (u32, Seq<char>)>(after.pg_type, name_of_type(), oid, q));
    }
}

/// A type that gets a free name is found by it, under the same OID, and by no other.
pub proof fn law_renamed_type_keeps_its_oid(c: CatalogView, oid: u32, name: Seq<char>, ns: u32)
    requires
        catalog_in_step(c),
        row_get::<PgType>(c.pg_type, oid) is Some,
        map_get(c.type_by_qname, (ns, name)) is None || map_get(c.type_by_qname, (ns, name)) == Some(oid),
    ensures
        catalog_in_step(c.with_type_renamed(oid, name, ns)),
        map_get(c.with_type_renamed(oid, name, ns).type_by_qname, (ns, name)) == Some(oid),
        row_get::<PgType>(c.with_type_renamed(oid, name, ns).pg_type, oid) == Some(
            PgTypeView { typname: name, typnamespace: ns, ..row_get::<PgType>(c.pg_type, oid)->Some_0 },
        ),
        forall|q: (u32, Seq<char>)|
            q != (ns, name) ==> map_get(c.with_type_renamed(oid, name, ns).type_by_qname, q) != Some(oid),
{
    let before = row_get::<PgType>(c.pg_type, oid)->Some_0;
    let row = PgTypeView { typname: name, typnamespace: ns, ..before };
    lemma_row_position_meaning::<PgType>(c.pg_type, oid);
    assert(bears::<PgType, (u32, Seq<char>)>(c.pg_type, name_of_type(), oid, (ns, name)) <==> map_get(c.type_by_qname, (ns, name))
        == Some(oid));
    lemma_rename_in_step::<PgType, (u32, Seq<char>)>(
        c.pg_type,
        c.type_by_qname,
        name_of_type(),
        before,
        row,
    );
    law_put_row_is_found::<PgType>(c.pg_type, row, oid);
    let after = c.with_type_renamed(oid, name, ns);
    assert forall|q: (u32, Seq<char>)| q != (ns, name) implies map_get(after.type_by_qname, q) != Some(oid) by {
        assert(!bears::<PgType, (u32, Seq<char>)>(after.pg_type, name_of_type(), oid, q));
    }
}

/// A relation whose name is free, or its own, goes into the catalog with its name.
pub proof fn law_class_goes_in_with_its_name(c: CatalogView, row: PgClassView)
    requires
        catalog_in_step(c),
        map_get(c.class_by_qname, (row.relnamespace, row.relname)) is Some ==> map_get(c.class_by_qname, (row.relnamespace, row.relname)) == Some(row.oid),
        row_get::<PgClass>(c.pg_class, row.oid) matches Some(o) ==> name_of_class()(o) == name_of_class()(row),
    ensures
        catalog_in_step(c.with_class(row)),
        map_get(c.with_class(row).class_by_qname, (row.relnamespace, row.relname)) == Some(row.oid),
        row_get::<PgClass>(c.with_class(row).pg_class, row.oid) == Some(row),
{
    lemma_put_in_step::<PgClass, (u32, Seq<char>)>(
        c.pg_class,
        c.class_by_qname,
        name_of_class(),
        row,
    );
    law_put_row_is_found::<PgClass>(c.pg_class, row, row.oid);
}

/// A relation leaves the catalog with its name.
pub proof fn law_class_leaves_with_its_name(c: CatalogView, oid: u32)
    requires
        catalog_in_step(c),
    ensures
        catalog_in_step(c.without_class(oid)),
        row_get::<PgClass>(c.without_class(oid).pg_class, oid) is None,
        forall|q: (u32, Seq<char>)| map_get(c.without_class(oid).class_by_qname, q) != Some(oid),
{
    if row_get::<PgClass>(c.pg_class, oid) is Some {
        lemma_drop_in_step::<PgClass, (u32, Seq<char>)>(
            c.pg_class,
            c.class_by_qname,
            name_of_class(),
            oid,
        );
        law_dropped_row_is_gone::<PgClass>(c.pg_class, oid, oid);
    }
    let after = c.without_class(oid);
    assert forall|q: (u32, Seq<char>)| map_get(after.class_by_qname, q) != Some(oid) by {
        assert(!bears::<PgClass, (u32, Seq<char>)>(after.pg_class, name_of_class(), oid, q));
    }
}

/// A relation that gets a free name is found by it, under the same OID, and by no other.
pub proof fn law_renamed_class_keeps_its_oid(c: CatalogView, oid: u32, name: Seq<char>, ns: u32)
    requires
        catalog_in_step(c),
        row_get::<PgClass>(c.pg_class, oid) is Some,
        map_get(c.class_by_qname, (ns, name)) is None || map_get(c.class_by_qname, (ns, name)) == Some(oid),
    ensures
        catalog_in_step(c.with_class_renamed(oid, name, ns)),
        map_get(c.with_class_renamed(oid, name, ns).class_by_qname, (ns, name)) == Some(oid),
        row_get::<PgClass>(c.with_class_renamed(oid, name, ns).pg_class, oid) == Some(
            PgClassView { relname: name, relnamespace: ns, ..row_get::<PgClass>(c.pg_class, oid)->Some_0 },
        ),
        forall|q: (u32, Seq<char>)|
            q != (ns, name) ==> map_get(c.with_class_renamed(oid, name, ns).class_by_qname, q) != Some(oid),
{
    let before = row_get::<PgClass>(c.pg_class, oid)->Some_0;
    let row = PgClassView { relname: name, relnamespace: ns, ..before };
    lemma_row_position_meaning::<PgClass>(c.pg_class, oid);
    assert(bears::<PgClass, (u32, Seq<char>)>(c.pg_class, name_of_class(), oid, (ns, name)) <==> map_get(c.class_by_qname, (ns, name))
        == Some(oid));
    lemma_rename_in_step::<PgClass, (u32, Seq<char>)>(
        c.pg_class,
        c.class_by_qname,
        name_of_class(),
        before,
        row,
    );
    law_put_row_is_found::<PgClass>(c.pg_class, row, oid);
    let after = c.with_class_renamed(oid, name, ns);
    assert forall|q: (u32, Seq<char>)| q != (ns, name) implies map_get(after.class_by_qname, q) != Some(oid) by {
        assert(!bears::<PgClass, (u32, Seq<char>)>(after.pg_class, name_of_class(), oid, q));
    }
}

/// An extension whose name is free, or its own, goes into the catalog with its name.
pub proof fn law_extension_goes_in_with_its_name(c: CatalogView, row: PgExtensionView)
    requires
        catalog_in_step(c),
        map_get(c.extension_by_name, (0, row.extname)) is Some ==> map_get(c.extension_by_name, (0, row.extname)) == Some(row.oid),
        row_get::<PgExtension>(c.pg_extension, row.oid) matches Some(o) ==> name_of_extension()(o) == name_of_extension()(row),
    ensures
        catalog_in_step(c.with_extension(row)),
        map_get(c.with_extension(row).extension_by_name, (0, row.extname)) == Some(row.oid),
        row_get::<PgExtension>(c.with_extension(row).pg_extension, row.oid) == Some(row),
{
    lemma_put_in_step::<PgExtension, (u32, Seq<char>)>(
        c.pg_extension,
        c.extension_by_name,
        name_of_extension(),
        row,
    );
    law_put_row_is_found::<PgExtension>(c.pg_extension, row, row.oid);
}

/// An extension leaves the catalog with its name.
pub proof fn law_extension_leaves_with_its_name(c: CatalogView, oid: u32)
    requires
        catalog_in_step(c),
    ensures
        catalog_in_step(c.without_extension(oid)),
        row_get::<PgExtension>(c.without_extension(oid).pg_extension, oid) is None,
        forall|q: (u32, Seq<char>)| map_get(c.without_extension(oid).extension_by_name, q) != Some(oid),
{
    if row_get::<PgExtension>(c.pg_extension, oid) is Some {
        lemma_drop_in_step::<PgExtension, (u32, Seq<char>)>(
            c.pg_extension,
            c.extension_by_name,
            name_of_extension(),
            oid,
        );
        law_dropped_row_is_gone::<PgExtension>(c.pg_extension, oid, oid);
    }
    let after = c.without_extension(oid);
    assert forall|q: (u32, Seq<char>)| map_get(after.extension_by_name, q) != Some(oid) by {
        assert(!bears::<PgExtension, (u32, Seq<char>)>(after.pg_extension, name_of_extension(), oid, q));
    }
}

/// A collation whose name is free, or its own, goes into the catalog with its name.
pub proof fn law_collation_goes_in_with_its_name(c: CatalogView, row: PgCollationView)
    requires
        catalog_in_step(c),
        map_get(c.collation_by_qname, (row.collnamespace, row.collname)) is Some ==> map_get(c.collation_by_qname, (row.collnamespace, row.collname)) == Some(row.oid),
        row_get::<PgCollation>(c.pg_collation, row.oid) matches Some(o) ==> name_of_collation()(o) == name_of_collation()(row),
    ensures
        catalog_in_step(c.with_collation(row)),
        map_get(c.with_collation(row).collation_by_qname, (row.collnamespace, row.collname)) == Some(row.oid),
        row_get::<PgCollation>(c.with_collation(row).pg_collation, row.oid) == Some(row),
{
    lemma_put_in_step::<PgCollation, (u32, Seq<char>)>(
        c.pg_collation,
        c.collation_by_qname,
        name_of_collation(),
        row,
    );
    law_put_row_is_found::<PgCollation>(c.pg_collation, row, row.oid);
}

/// A cast whose name is free, or its own, goes into the catalog with its name.
pub proof fn law_cast_goes_in_with_its_name(c: CatalogView, row: PgCast)
    requires
        catalog_in_step(c),
        map_get(c.cast_by_pair, (row.castsource, row.casttarget)) is Some ==> map_get(c.cast_by_pair, (row.castsource, row.casttarget)) == Some(row.oid),
        row_get::<PgCast>(c.pg_cast, row.oid) matches Some(o) ==> name_of_cast()(o) == name_of_cast()(row),
    ensures
        catalog_in_step(c.with_cast(row)),
        map_get(c.with_cast(row).cast_by_pair, (row.castsource, row.casttarget)) == Some(row.oid),
        row_get::<PgCast>(c.with_cast(row).pg_cast, row.oid) == Some(row),
{
    lemma_put_in_step::<PgCast, (u32, u32)>(c.pg_cast, c.cast_by_pair, name_of_cast(), row);
    law_put_row_is_found::<PgCast>(c.pg_cast, row, row.oid);
}

/// A cast leaves the catalog with its name.
pub proof fn law_cast_leaves_with_its_name(c: CatalogView, oid: u32)
    requires
        catalog_in_step(c),
    ensures
        catalog_in_step(c.without_cast(oid)),
        row_get::<PgCast>(c.without_cast(oid).pg_cast, oid) is None,
        forall|q: (u32, u32)| map_get(c.without_cast(oid).cast_by_pair, q) != Some(oid),
{
    if row_get::<PgCast>(c.pg_cast, oid) is Some {
        lemma_drop_in_step::<PgCast, (u32, u32)>(c.pg_cast, c.cast_by_pair, name_of_cast(), oid);
        law_dropped_row_is_gone::<PgCast>(c.pg_cast, oid, oid);
    }
    let after = c.without_cast(oid);
    assert forall|q: (u32, u32)| map_get(after.cast_by_pair, q) != Some(oid) by {
        assert(!bears::<PgCast, (u32, u32)>(after.pg_cast, name_of_cast(), oid, q));
    }
}

/// A function goes into the catalog with its name, beside others of that name.
pub proof fn law_proc_goes_in_with_its_name(c: CatalogView, row: PgProcView)
    requires
        catalog_in_step(c),
        row_get::<PgProc>(c.pg_proc, row.oid) matches Some(o) ==> name_of_proc()(o) == name_of_proc()(row),
    ensures
        catalog_in_step(c.with_proc(row)),
        list_get(c.with_proc(row).proc_by_qname, row.pronamespace, row.proname).contains(row.oid),
        row_get::<PgProc>(c.with_proc(row).pg_proc, row.oid) == Some(row),
{
    lemma_list_put::<PgProc>(c.pg_proc, c.proc_by_qname, name_of_proc(), row);
    law_put_row_is_found::<PgProc>(c.pg_proc, row, row.oid);
    lemma_pushed(list_get(c.proc_by_qname, row.pronamespace, row.proname), row.oid, row.oid);
}

/// A function leaves the catalog with its name.
pub proof fn law_proc_leaves_with_its_name(c: CatalogView, oid: u32)
    requires
        catalog_in_step(c),
    ensures
        catalog_in_step(c.without_proc(oid)),
        row_get::<PgProc>(c.without_proc(oid).pg_proc, oid) is None,
        forall|ns: u32, n: Seq<char>| !(#[trigger] list_get(c.without_proc(oid).proc_by_qname, ns, n)).contains(
            oid,
        ),
{
    if row_get::<PgProc>(c.pg_proc, oid) is Some {
        lemma_list_drop::<PgProc>(c.pg_proc, c.proc_by_qname, name_of_proc(), oid);
        law_dropped_row_is_gone::<PgProc>(c.pg_proc, oid, oid);
    }
    let after = c.without_proc(oid);
    assert forall|ns: u32, n: Seq<char>| !(#[trigger] list_get(after.proc_by_qname, ns, n)).contains(oid) by {
        assert(!bears::<PgProc, (u32, Seq<char>)>(after.pg_proc, name_of_proc(), oid, (ns, n)));
    }
}

/// An operator goes into the catalog with its name, beside others of that name.
pub proof fn law_operator_goes_in_with_its_name(c: CatalogView, row: PgOperatorView)
    requires
        catalog_in_step(c),
        row_get::<PgOperator>(c.pg_operator, row.oid) matches Some(o) ==> name_of_operator()(o) == name_of_operator()(row),
    ensures
        catalog_in_step(c.with_operator(row)),
        list_get(c.with_operator(row).operator_by_qname, row.oprnamespace, row.oprname).contains(row.oid),
        row_get::<PgOperator>(c.with_operator(row).pg_operator, row.oid) == Some(row),
{
    lemma_list_put::<PgOperator>(c.pg_operator, c.operator_by_qname, name_of_operator(), row);
    law_put_row_is_found::<PgOperator>(c.pg_operator, row, row.oid);
    lemma_pushed(list_get(c.operator_by_qname, row.oprnamespace, row.oprname), row.oid, row.oid);
}

/// An operator leaves the catalog with its name.
pub proof fn law_operator_leaves_with_its_name(c: CatalogView, oid: u32)
    requires
        catalog_in_step(c),
    ensures
        catalog_in_step(c.without_operator(oid)),
        row_get::<PgOperator>(c.without_operator(oid).pg_operator, oid) is None,
        forall|ns: u32, n: Seq<char>| !(#[trigger] list_get(c.without_operator(oid).operator_by_qname, ns, n)).contains(
            oid,
        ),
{
    if row_get::<PgOperator>(c.pg_operator, oid) is Some {
        lemma_list_drop::<PgOperator>(c.pg_operator, c.operator_by_qname, name_of_operator(), oid);
        law_dropped_row_is_gone::<PgOperator>(c.pg_operator, oid, oid);
    }
    let after = c.without_operator(oid);
    assert forall|ns: u32, n: Seq<char>| !(#[trigger] list_get(after.operator_by_qname, ns, n)).contains(oid) by {
        assert(!bears::<PgOperator, (u32, Seq<char>)>(after.pg_operator, name_of_operator(), oid, (ns, n)));
    }
}

/// A function that gets another name is listed under it, and no longer under the one
/// that it had.
pub proof fn law_renamed_proc_keeps_its_oid(c: CatalogView, oid: u32, name: Seq<char>, ns: u32)
    requires
        catalog_in_step(c),
        row_get::<PgProc>(c.pg_proc, oid) is Some,
    ensures
        catalog_in_step(c.with_proc_renamed(oid, name, ns)),
        list_get(c.with_proc_renamed(oid, name, ns).proc_by_qname, ns, name).contains(oid),
        forall|ns2: u32, n2: Seq<char>|
            (ns2, n2) != (ns, name) ==> !(#[trigger] list_get(
                c.with_proc_renamed(oid, name, ns).proc_by_qname,
                ns2,
                n2,
            )).contains(oid),
{
    let before = row_get::<PgProc>(c.pg_proc, oid)->Some_0;
    let row = PgProcView { proname: name, pronamespace: ns, ..before };
    lemma_row_position_meaning::<PgProc>(c.pg_proc, oid);
    lemma_list_rename::<PgProc>(c.pg_proc, c.proc_by_qname, name_of_proc(), before, row);
    law_put_row_is_found::<PgProc>(c.pg_proc, row, oid);
    let after = c.with_proc_renamed(oid, name, ns);
    assert(bears::<PgProc, (u32, Seq<char>)>(after.pg_proc, name_of_proc(), oid, (ns, name)));
    assert forall|ns2: u32, n2: Seq<char>| (ns2, n2) != (ns, name) implies !(#[trigger] list_get(
        after.proc_by_qname,
        ns2,
        n2,
    )).contains(oid) by {
        assert(!bears::<PgProc, (u32, Seq<char>)>(after.pg_proc, name_of_proc(), oid, (ns2, n2)));
    }
}

} // verus!

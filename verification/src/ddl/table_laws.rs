//! What the definitions in a `CREATE TABLE` leave in the catalog.

use super::constraints::{
    with_backed_constraint, with_backed_constraints, with_constraint_row, PendingView,
};
use super::laws::lemma_last_attnum;
use super::stmt::{ColumnDef, ConstrType, Constraint, CreateStmt, TableElt};
use super::tables::{
    column_row, constrained_flags, flags_from, initial_flags, inherited_row, key_columns,
    last_attnum, parent_relation, parsed_column, parsed_columns, statement_columns, table_created,
    with_columns, with_inherited_columns, with_parent, with_parents, with_relation, ColumnFlags,
    ParsedColumnView, MAX_ATTNUM,
};
use super::util::{ensured_range, opt_named_type};
use super::DdlErrorView;
use crate::ast::RangeVar;
use crate::catalog::{attr_inserted, CatalogView};
use crate::catalog_laws::law_put_row_is_found;
use crate::lookup::find_attribute;
use crate::pg_catalog::{PgAttributeView, RelAttrs, RelAttrsView};
use crate::text::texts;
use vstd::prelude::*;

verus! {

/// One of the elements is a primary key over a column.
pub open spec fn keyed_by(elts: Seq<TableElt>, name: Seq<char>) -> bool {
    exists|i: int|
        0 <= i < elts.len() && #[trigger] elts[i] is Constraint && elts[i]->Constraint_0.contype
            == ConstrType::Primary && texts(elts[i]->Constraint_0.keys@).contains(name)
}

/// One of the constraints of a column is of a form.
pub open spec fn constrained(cd: ColumnDef, form: ConstrType) -> bool {
    exists|i: int| 0 <= i < cd.constraints@.len() && (#[trigger] cd.constraints@[i]).contype == form
}

/// A statement makes a column never null: by `NOT NULL`, as an identity column, or as part
/// of the primary key of the column or the table.
pub open spec fn never_null(stmt: CreateStmt, cd: ColumnDef) -> bool {
    cd.is_not_null || cd.identity@.len() > 0 || constrained(cd, ConstrType::NotNull) || constrained(
        cd,
        ConstrType::Primary,
    ) || constrained(cd, ConstrType::Identity) || keyed_by(stmt.constraints@, cd.colname@)
        || keyed_by(stmt.table_elts@, cd.colname@)
}

/// A definition gives its column a value where none is written: a default, a sequence or
/// an expression.
pub open spec fn fills_itself(cd: ColumnDef) -> bool {
    cd.has_default || cd.identity@.len() > 0 || cd.generated@.len() > 0 || constrained(
        cd,
        ConstrType::Default,
    ) || constrained(cd, ConstrType::Identity) || constrained(cd, ConstrType::Generated) || (
    cd.target matches Some(t) && (texts(t.names@).contains("serial"@) || texts(t.names@).contains(
        "bigserial"@,
    ) || texts(t.names@).contains("smallserial"@)))
}

/// A column is as its definition says.
pub open spec fn as_defined(
    c: CatalogView,
    stmt: CreateStmt,
    cd: ColumnDef,
    a: PgAttributeView,
) -> bool {
    &&& a.attname == cd.colname@
    &&& match opt_named_type(c, cd.target) {
        Some(t) => a.atttypid == t,
        None => a.atttypid == 705,
    }
    &&& cd.target matches Some(t) ==> (t.typmod matches Ok(m) ==> a.atttypmod == m)
    &&& a.attnotnull <==> never_null(stmt, cd)
    &&& a.atthasdef <==> fills_itself(cd)
    &&& a.attgenerated is Some <==> cd.generated@.len() > 0 || constrained(
        cd,
        ConstrType::Generated,
    )
    &&& cd.identity@.len() == 0 ==> (a.attidentity is Some <==> constrained(
        cd,
        ConstrType::Identity,
    ))
}

/// The number of columns among the first elements.
pub open spec fn columns_before(elts: Seq<TableElt>, n: int) -> int
    decreases n,
{
    if n <= 0 {
        0
    } else if elts[n - 1] is Column {
        columns_before(elts, n - 1) + 1
    } else {
        columns_before(elts, n - 1)
    }
}

// ── Columns ─────────────────────────────────────────────────────────────────

/// One of the constraints from `i` on is of a form.
pub open spec fn later(cons: Seq<Constraint>, i: int, form: ConstrType) -> bool {
    exists|k: int| i <= k < cons.len() && (#[trigger] cons[k]).contype == form
}

proof fn lemma_later(cons: Seq<Constraint>, i: int, form: ConstrType)
    requires
        0 <= i < cons.len(),
    ensures
        later(cons, i, form) <==> cons[i].contype == form || later(cons, i + 1, form),
{
    if later(cons, i + 1, form) {
        let k = choose|k: int| i + 1 <= k < cons.len() && (#[trigger] cons[k]).contype == form;
        assert(cons[k].contype == form);
    }
}

pub proof fn lemma_flags(c: CatalogView, cons: Seq<Constraint>, i: int, f: ColumnFlags)
    requires
        0 <= i <= cons.len(),
    ensures
        flags_from(c, cons, i, f) matches Ok(r) ==> {
            &&& r.not_null <==> f.not_null || later(cons, i, ConstrType::NotNull) || later(
                cons,
                i,
                ConstrType::Primary,
            ) || later(cons, i, ConstrType::Identity)
            &&& r.has_default <==> f.has_default || later(cons, i, ConstrType::Default) || later(
                cons,
                i,
                ConstrType::Identity,
            ) || later(cons, i, ConstrType::Generated)
            &&& r.is_generated <==> f.is_generated || later(cons, i, ConstrType::Generated)
            &&& r.identity is Some <==> f.identity is Some || later(cons, i, ConstrType::Identity)
        },
    decreases cons.len() - i,
{
    if i < cons.len() {
        lemma_flags(c, cons, i + 1, constrained_flags(f, cons[i]));
        lemma_later(cons, i, ConstrType::NotNull);
        lemma_later(cons, i, ConstrType::Primary);
        lemma_later(cons, i, ConstrType::Identity);
        lemma_later(cons, i, ConstrType::Default);
        lemma_later(cons, i, ConstrType::Generated);
    }
}

/// One of the elements from `i` on is a primary key over a column.
spec fn keyed_from(elts: Seq<TableElt>, i: int, name: Seq<char>) -> bool {
    exists|k: int|
        i <= k < elts.len() && #[trigger] elts[k] is Constraint && elts[k]->Constraint_0.contype
            == ConstrType::Primary && texts(elts[k]->Constraint_0.keys@).contains(name)
}

proof fn lemma_joined_lists(a: Seq<Seq<char>>, b: Seq<Seq<char>>, x: Seq<char>)
    ensures
        (a + b).contains(x) <==> a.contains(x) || b.contains(x),
{
    let both = a + b;
    if a.contains(x) {
        let k = choose|k: int| 0 <= k < a.len() && a[k] == x;
        assert(both[k] == x);
    }
    if b.contains(x) {
        let k = choose|k: int| 0 <= k < b.len() && b[k] == x;
        assert(both[a.len() + k] == x);
    }
    if both.contains(x) {
        let k = choose|k: int| 0 <= k < both.len() && both[k] == x;
        if k < a.len() {
            assert(a[k] == x);
        } else {
            assert(b[k - a.len()] == x);
        }
    }
}

proof fn lemma_keys(
    c: CatalogView,
    elts: Seq<TableElt>,
    i: int,
    acc: Seq<Seq<char>>,
    name: Seq<char>,
)
    requires
        0 <= i <= elts.len(),
    ensures
        key_columns(c, elts, i, acc) matches Ok(pk) ==> (pk.contains(name) <==> acc.contains(name)
            || keyed_from(elts, i, name)),
    decreases elts.len() - i,
{
    if i < elts.len() {
        let more = match elts[i] {
            TableElt::Constraint(con) => if con.contype == ConstrType::Primary {
                acc + texts(con.keys@)
            } else {
                acc
            },
            _ => acc,
        };
        lemma_keys(c, elts, i + 1, more, name);
        if let TableElt::Constraint(con) = elts[i] {
            lemma_joined_lists(acc, texts(con.keys@), name);
        }
        if keyed_from(elts, i + 1, name) {
            let k = choose|k: int|
                i + 1 <= k < elts.len() && #[trigger] elts[k] is Constraint
                    && elts[k]->Constraint_0.contype == ConstrType::Primary && texts(
                    elts[k]->Constraint_0.keys@,
                ).contains(name);
            assert(elts[k] is Constraint);
        }
        if keyed_from(elts, i, name) {
            let k = choose|k: int|
                i <= k < elts.len() && #[trigger] elts[k] is Constraint
                    && elts[k]->Constraint_0.contype == ConstrType::Primary && texts(
                    elts[k]->Constraint_0.keys@,
                ).contains(name);
            if k > i {
                assert(keyed_from(elts, i + 1, name));
            }
        }
    }
}

proof fn lemma_columns_before(elts: Seq<TableElt>, i: int, j: int)
    requires
        0 <= i <= j,
    ensures
        0 <= columns_before(elts, i) <= columns_before(elts, j),
    decreases j,
{
    if i < j {
        lemma_columns_before(elts, i, j - 1);
    } else if i > 0 {
        lemma_columns_before(elts, i - 1, j - 1);
    }
}

proof fn lemma_parsed(
    c: CatalogView,
    elts: Seq<TableElt>,
    i: int,
    pk: Seq<Seq<char>>,
    acc: Seq<ParsedColumnView>,
)
    requires
        0 <= i <= elts.len(),
        acc.len() == columns_before(elts, i),
    ensures
        parsed_columns(c, elts, i, pk, acc) matches Ok(list) ==> {
            &&& list.len() == columns_before(elts, elts.len() as int)
            &&& acc.len() <= list.len()
            &&& forall|k: int| 0 <= k < acc.len() ==> #[trigger] list[k] == acc[k]
            &&& forall|k: int|
                #![trigger elts[k]]
                i <= k < elts.len() && elts[k] is Column ==> 0 <= columns_before(elts, k)
                    < list.len() && parsed_column(c, elts[k]->Column_0, pk) == Ok::<_, DdlErrorView>(
                    list[columns_before(elts, k)],
                )
        },
    decreases elts.len() - i,
{
    if i < elts.len() {
        lemma_columns_before(elts, i, elts.len() as int);
        lemma_columns_before(elts, i + 1, elts.len() as int);
        match elts[i] {
            TableElt::Column(cd) => {
                if let Ok(p) = parsed_column(c, cd, pk) {
                    lemma_parsed(c, elts, i + 1, pk, acc.push(p));
                    if let Ok(list) = parsed_columns(c, elts, i, pk, acc) {
                        assert(list == parsed_columns(c, elts, i + 1, pk, acc.push(p))->Ok_0);
                        assert forall|k: int| 0 <= k < acc.len() implies #[trigger] list[k]
                            == acc[k] by {
                            assert(acc.push(p)[k] == acc[k]);
                        }
                        assert(list[acc.len() as int] == acc.push(p)[acc.len() as int]);
                    }
                }
            },
            _ => {
                lemma_parsed(c, elts, i + 1, pk, acc);
            },
        }
    }
}

// ── The rows ────────────────────────────────────────────────────────────────

spec fn rows_of(relid: u32, columns: Seq<ParsedColumnView>, n: int) -> Seq<PgAttributeView> {
    Seq::new(n as nat, |k: int| column_row(relid, columns[k], (k + 1) as i16))
}

proof fn lemma_columns_are_listed(
    c: CatalogView,
    relid: u32,
    columns: Seq<ParsedColumnView>,
    n: int,
)
    requires
        0 <= n <= columns.len(),
        columns.len() <= MAX_ATTNUM,
        c.attributes_of(relid).len() == 0,
    ensures
        with_columns(c, relid, columns, n).attributes_of(relid) == rows_of(relid, columns, n),
    decreases n,
{
    if n == 0 {
        assert(c.attributes_of(relid) =~= rows_of(relid, columns, 0));
    } else {
        lemma_columns_are_listed(c, relid, columns, n - 1);
        let before = with_columns(c, relid, columns, n - 1);
        let a = column_row(relid, columns[n - 1], n as i16);
        let attrs = rows_of(relid, columns, n - 1);
        if n > 1 {
            assert(attrs.last().attnum == (n - 1) as i16);
        }
        assert(attr_inserted(attrs, a) == attrs.push(a));
        law_put_row_is_found::<RelAttrs>(
            before.pg_attribute,
            RelAttrsView { relid, attrs: attrs.push(a) },
            relid,
        );
        assert(attrs.push(a) =~= rows_of(relid, columns, n));
    }
}

proof fn lemma_relation_has_columns(
    c: CatalogView,
    ns: u32,
    name: Seq<char>,
    columns: Seq<ParsedColumnView>,
)
    requires
        with_relation(c, ns, name, columns).0 is Ok,
        columns.len() <= MAX_ATTNUM,
        c.attributes_of(c.next_oid).len() == 0,
    ensures
        with_relation(c, ns, name, columns).1.attributes_of(c.next_oid) == rows_of(
            c.next_oid,
            columns,
            columns.len() as int,
        ),
{
    let relid = c.next_oid;
    let c3 = c.allocated().1.allocated().1.allocated().1;
    let row = crate::pg_catalog::PgClassView {
        oid: relid,
        relname: name,
        relnamespace: ns,
        relkind: crate::pg_catalog::RelKind::Table,
        reltype: Some(c.allocated().1.next_oid),
    };
    lemma_columns_are_listed(c3.with_class(row), relid, columns, columns.len() as int);
}

/// The first rows of a list are those of another.
spec fn begins_with(list: Seq<PgAttributeView>, head: Seq<PgAttributeView>) -> bool {
    head.len() <= list.len() && list.take(head.len() as int) == head
}

proof fn lemma_inherited_stand_behind(
    c: CatalogView,
    child: u32,
    existing: Seq<PgAttributeView>,
    parent: Seq<PgAttributeView>,
    i: int,
    attnum: i16,
)
    requires
        0 <= i <= parent.len(),
        forall|k: int|
            0 <= k < c.attributes_of(child).len() ==> (#[trigger] c.attributes_of(child)[k]).attnum
                <= attnum,
    ensures
        begins_with(
            with_inherited_columns(c, child, existing, parent, i, attnum).1.attributes_of(child),
            c.attributes_of(child),
        ),
    decreases parent.len() - i,
{
    let own = c.attributes_of(child);
    assert(own.take(own.len() as int) =~= own);
    if i < parent.len() {
        if find_attribute(existing, parent[i].attname) is Some {
            lemma_inherited_stand_behind(c, child, existing, parent, i + 1, attnum);
        } else if attnum < MAX_ATTNUM {
            let next = (attnum + 1) as i16;
            let a = inherited_row(child, parent[i], next);
            let c1 = c.with_attribute(a);
            if own.len() > 0 {
                assert(own[own.len() - 1].attnum <= attnum);
            }
            assert(attr_inserted(own, a) == own.push(a));
            law_put_row_is_found::<RelAttrs>(
                c.pg_attribute,
                RelAttrsView { relid: child, attrs: own.push(a) },
                child,
            );
            let more = c1.attributes_of(child);
            assert(more == own.push(a));
            assert forall|k: int| 0 <= k < more.len() implies (#[trigger] more[k]).attnum
                <= next by {
                if k < own.len() {
                    assert(own[k].attnum <= attnum);
                }
            }
            lemma_inherited_stand_behind(c1, child, existing, parent, i + 1, next);
            let all = with_inherited_columns(c, child, existing, parent, i, attnum).1.attributes_of(
                child,
            );
            assert(all.take(own.len() as int) =~= all.take(more.len() as int).take(
                own.len() as int,
            ));
            assert(more.take(own.len() as int) =~= own);
        }
    }
}

proof fn lemma_parents_stand_behind(c: CatalogView, child: u32, parents: Seq<RangeVar>, i: int)
    requires
        0 <= i <= parents.len(),
    ensures
        begins_with(
            with_parents(c, child, parents, i).1.attributes_of(child),
            c.attributes_of(child),
        ),
    decreases parents.len() - i,
{
    let own = c.attributes_of(child);
    assert(own.take(own.len() as int) =~= own);
    if i < parents.len() {
        if let Ok(parent) = parent_relation(c, parents[i]) {
            lemma_last_attnum(own);
            lemma_inherited_stand_behind(
                c,
                child,
                own,
                c.attributes_of(parent),
                0,
                last_attnum(own),
            );
            if i < 0x7fff_ffff {
                let c1 = with_parent(c, child, parent, (i + 1) as i32).1;
                lemma_parents_stand_behind(c1, child, parents, i + 1);
                let mid = c1.attributes_of(child);
                let all = with_parents(c, child, parents, i).1.attributes_of(child);
                if with_parent(c, child, parent, (i + 1) as i32).0 is Ok {
                    assert(all.take(own.len() as int) =~= all.take(mid.len() as int).take(
                        own.len() as int,
                    ));
                }
            }
        }
    }
}

pub proof fn lemma_constraints_keep_columns(
    c: CatalogView,
    relid: u32,
    list: Seq<PendingView>,
    i: int,
)
    requires
        0 <= i <= list.len(),
    ensures
        with_backed_constraints(c, relid, list, i).1.pg_attribute == c.pg_attribute,
    decreases list.len() - i,
{
    if i < list.len() {
        let (r, c1) = with_backed_constraint(c, relid, list[i]);
        assert(with_constraint_row(c, relid, list[i]).1.pg_attribute == c.pg_attribute);
        assert(c1.pg_attribute == c.pg_attribute);
        if r is Ok {
            lemma_constraints_keep_columns(c1, relid, list, i + 1);
        }
    }
}

/// A table that was made has the columns that its statement defines, in their order,
/// numbered from one and each as its definition says. A column is never null just where
/// its definition or a primary key of the statement, on the column or on the table, makes
/// it so.
pub proof fn law_created_table_has_its_columns(
    c: CatalogView,
    stmt: CreateStmt,
    rv: RangeVar,
    ns: u32,
    name: Seq<char>,
    i: int,
)
    requires
        stmt.relation == Some(rv),
        ensured_range(c, rv).0 == Ok::<(u32, Seq<char>), DdlErrorView>((ns, name)),
        ensured_range(c, rv).1.class_named(ns, name) is None,
        ensured_range(c, rv).1.attributes_of(ensured_range(c, rv).1.next_oid).len() == 0,
        table_created(c, stmt).0 is Ok,
        0 <= i < stmt.table_elts@.len(),
        stmt.table_elts@[i] is Column,
    ensures
        ({
            let c0 = ensured_range(c, rv).1;
            let attrs = table_created(c, stmt).1.attributes_of(c0.next_oid);
            let k = columns_before(stmt.table_elts@, i);
            0 <= k < attrs.len() && as_defined(c0, stmt, stmt.table_elts@[i]->Column_0, attrs[k])
                && attrs[k].attnum == k + 1 && attrs[k].attrelid == c0.next_oid
        }),
{
    let c0 = ensured_range(c, rv).1;
    let relid = c0.next_oid;
    let elts = stmt.table_elts@;
    let cd = elts[i]->Column_0;
    let columns = statement_columns(c0, stmt)->Ok_0;
    let pk1 = key_columns(c0, stmt.constraints@, 0, Seq::empty())->Ok_0;
    let pk = key_columns(c0, elts, 0, pk1)->Ok_0;
    lemma_keys(c0, stmt.constraints@, 0, Seq::empty(), cd.colname@);
    lemma_keys(c0, elts, 0, pk1, cd.colname@);
    assert(keyed_from(stmt.constraints@, 0, cd.colname@) <==> keyed_by(
        stmt.constraints@,
        cd.colname@,
    ));
    assert(keyed_from(elts, 0, cd.colname@) <==> keyed_by(elts, cd.colname@));
    lemma_parsed(c0, elts, 0, pk, Seq::empty());
    let k = columns_before(elts, i);
    assert(elts[i] is Column);
    let p = columns[k];
    lemma_flags(c0, cd.constraints@, 0, initial_flags(cd));
    assert forall|form: ConstrType| later(cd.constraints@, 0, form) <==> #[trigger] constrained(
        cd,
        form,
    ) by {}
    lemma_relation_has_columns(c0, ns, name, columns);
    let c1 = with_relation(c0, ns, name, columns).1;
    lemma_parents_stand_behind(c1, relid, stmt.inh_relations@, 0);
    let c2 = if stmt.partbound {
        c1
    } else {
        with_parents(c1, relid, stmt.inh_relations@, 0).1
    };
    let own = rows_of(relid, columns, columns.len() as int);
    assert(own.take(own.len() as int) =~= own);
    assert(begins_with(c2.attributes_of(relid), own));
    let list = super::constraints::statement_pendings(
        c2,
        name,
        c2.attributes_of(relid),
        stmt,
    )->Ok_0;
    lemma_constraints_keep_columns(c2, relid, list, 0);
    let attrs = table_created(c, stmt).1.attributes_of(relid);
    assert(attrs == c2.attributes_of(relid));
    assert(attrs[k] == attrs.take(own.len() as int)[k]);
    assert(attrs[k] == column_row(relid, p, (k + 1) as i16));
    assert(parsed_column(c0, cd, pk) == Ok::<_, DdlErrorView>(p));
}

} // verus!

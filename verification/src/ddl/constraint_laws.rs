//! What the constraints of a `CREATE TABLE` leave in the catalog.

use super::alter_laws::{lemma_numbers, numbers_are};
use super::constraints::{
    column_pending, column_pendings, columns_pendings, constraint_row, first_mismatch, fk_target,
    makes_key, same_members, statement_pendings, table_pending, table_pendings, types_numbered,
    with_backed_constraint, with_backed_constraints, PendingView,
};
use super::stmt::{ConstrType, Constraint, CreateStmt, TableElt};
use super::table_laws::lemma_constraints_keep_columns;
use super::tables::{statement_columns, table_created, with_parents, with_relation};
use super::util::{ensured_range, range_names};
use super::DdlErrorView;
use crate::ast::RangeVar;
use crate::catalog::CatalogView;
use crate::catalog_laws::law_put_row_is_found;
use crate::lookup::{find_attnum, find_attribute};
use crate::pg_catalog::{ConType, PgAttributeView, PgConstraint, PgConstraintView};
use crate::table::row_get;
use crate::text::texts;
use vstd::prelude::*;

verus! {

/// The catalog has a constraint on a relation, made before a number was reached.
pub open spec fn noted_below(
    c: CatalogView,
    relid: u32,
    p: PendingView,
    oid: u32,
) -> bool {
    oid < c.next_oid && row_get::<PgConstraint>(c.pg_constraint, oid) == Some(
        PgConstraintView {
            oid,
            conname: p.conname,
            conrelid: relid,
            contype: p.contype,
            conkey: p.conkey,
            confrelid: p.confrelid,
            confkey: p.confkey,
        },
    )
}

/// The catalog has a constraint on a relation.
pub open spec fn noted(c: CatalogView, relid: u32, p: PendingView) -> bool {
    exists|oid: u32| #[trigger] noted_below(c, relid, p, oid)
}

proof fn lemma_one_noted(c: CatalogView, relid: u32, p: PendingView)
    requires
        with_backed_constraint(c, relid, p).0 is Ok,
    ensures
        ({
            let after = with_backed_constraint(c, relid, p).1;
            &&& noted(after, relid, p)
            &&& forall|q: PendingView, oid: u32|
                noted_below(c, relid, q, oid) ==> #[trigger] noted_below(after, relid, q, oid)
        }),
{
    let after = with_backed_constraint(c, relid, p).1;
    let row = constraint_row(c.next_oid, relid, p);
    law_put_row_is_found::<PgConstraint>(c.pg_constraint, row, c.next_oid);
    assert(noted_below(after, relid, p, c.next_oid));
    assert forall|q: PendingView, oid: u32| noted_below(c, relid, q, oid) implies #[trigger] noted_below(
        after,
        relid,
        q,
        oid,
    ) by {
        law_put_row_is_found::<PgConstraint>(c.pg_constraint, row, oid);
    }
}

proof fn lemma_all_noted(c: CatalogView, relid: u32, list: Seq<PendingView>, i: int)
    requires
        0 <= i <= list.len(),
        with_backed_constraints(c, relid, list, i).0 is Ok,
    ensures
        ({
            let after = with_backed_constraints(c, relid, list, i).1;
            &&& forall|k: int| i <= k < list.len() ==> noted(after, relid, #[trigger] list[k])
            &&& forall|q: PendingView, oid: u32|
                noted_below(c, relid, q, oid) ==> #[trigger] noted_below(after, relid, q, oid)
        }),
    decreases list.len() - i,
{
    if i < list.len() {
        lemma_one_noted(c, relid, list[i]);
        let c1 = with_backed_constraint(c, relid, list[i]).1;
        lemma_all_noted(c1, relid, list, i + 1);
        let after = with_backed_constraints(c, relid, list, i).1;
        assert(after == with_backed_constraints(c1, relid, list, i + 1).1);
        assert forall|q: PendingView, oid: u32| noted_below(
            c,
            relid,
            q,
            oid,
        ) implies #[trigger] noted_below(after, relid, q, oid) by {
            assert(noted_below(c1, relid, q, oid));
        }
        assert forall|k: int| i <= k < list.len() implies noted(
            after,
            relid,
            #[trigger] list[k],
        ) by {
            if k == i {
                let oid = choose|oid: u32| #[trigger] noted_below(c1, relid, list[i], oid);
                assert(noted_below(after, relid, list[i], oid));
            }
        }
    }
}

/// All members of a list are members of another.
spec fn within(a: Seq<PendingView>, b: Seq<PendingView>) -> bool {
    forall|p: PendingView| #[trigger] a.contains(p) ==> b.contains(p)
}

proof fn lemma_pushed(a: Seq<PendingView>, p: PendingView)
    ensures
        within(a, a.push(p)),
        a.push(p).contains(p),
{
    assert(a.push(p)[a.len() as int] == p);
    assert forall|q: PendingView| #[trigger] a.contains(q) implies a.push(p).contains(q) by {
        let k = choose|k: int| 0 <= k < a.len() && a[k] == q;
        assert(a.push(p)[k] == q);
    }
}

proof fn lemma_table_pendings(
    c: CatalogView,
    relname: Seq<char>,
    attrs: Seq<PgAttributeView>,
    elts: Seq<TableElt>,
    i: int,
    acc: Seq<PendingView>,
)
    requires
        0 <= i <= elts.len(),
    ensures
        table_pendings(c, relname, attrs, elts, i, acc) matches Ok(list) ==> within(acc, list)
            && forall|k: int|
            i <= k < elts.len() && #[trigger] elts[k] is Constraint ==> (table_pending(
                c,
                relname,
                attrs,
                elts[k]->Constraint_0,
            ) matches Ok(p) && (p matches Some(q) ==> list.contains(q))),
    decreases elts.len() - i,
{
    if i < elts.len() {
        match elts[i] {
            TableElt::Constraint(con) => {
                match table_pending(c, relname, attrs, con) {
                    Ok(Some(p)) => {
                        lemma_table_pendings(c, relname, attrs, elts, i + 1, acc.push(p));
                        lemma_pushed(acc, p);
                        if let Ok(list) = table_pendings(c, relname, attrs, elts, i, acc) {
                            assert(within(acc.push(p), list));
                            assert(acc.push(p).contains(p));
                            assert forall|q: PendingView| #[trigger] acc.contains(
                                q,
                            ) implies list.contains(q) by {
                                assert(acc.push(p).contains(q));
                            }
                        }
                    },
                    Ok(None) => {
                        lemma_table_pendings(c, relname, attrs, elts, i + 1, acc);
                    },
                    Err(_) => {},
                }
            },
            _ => {
                lemma_table_pendings(c, relname, attrs, elts, i + 1, acc);
            },
        }
    }
}

proof fn lemma_column_pendings(
    c: CatalogView,
    relname: Seq<char>,
    column: PgAttributeView,
    cons: Seq<Constraint>,
    i: int,
    acc: Seq<PendingView>,
)
    requires
        0 <= i <= cons.len(),
    ensures
        column_pendings(c, relname, column, cons, i, acc) matches Ok(list) ==> within(acc, list)
            && forall|k: int|
            i <= k < cons.len() ==> (column_pending(
                c,
                relname,
                column,
                #[trigger] cons[k],
            ) matches Ok(p) && (p matches Some(q) ==> list.contains(q))),
    decreases cons.len() - i,
{
    if i < cons.len() {
        match column_pending(c, relname, column, cons[i]) {
            Ok(Some(p)) => {
                lemma_column_pendings(c, relname, column, cons, i + 1, acc.push(p));
                lemma_pushed(acc, p);
                if let Ok(list) = column_pendings(c, relname, column, cons, i, acc) {
                    assert(within(acc.push(p), list));
                    assert(acc.push(p).contains(p));
                    assert forall|q: PendingView| #[trigger] acc.contains(q) implies list.contains(
                        q,
                    ) by {
                        assert(acc.push(p).contains(q));
                    }
                }
            },
            Ok(None) => {
                lemma_column_pendings(c, relname, column, cons, i + 1, acc);
            },
            Err(_) => {},
        }
    }
}

proof fn lemma_columns_pendings(
    c: CatalogView,
    relname: Seq<char>,
    attrs: Seq<PgAttributeView>,
    elts: Seq<TableElt>,
    i: int,
    acc: Seq<PendingView>,
    k: int,
    m: int,
)
    requires
        0 <= i <= k < elts.len(),
        elts[k] is Column,
        0 <= m < elts[k]->Column_0.constraints@.len(),
        find_attribute(attrs, elts[k]->Column_0.colname@) is Some,
    ensures
        columns_pendings(c, relname, attrs, elts, i, acc) matches Ok(list) ==> within(acc, list)
            && (column_pending(
            c,
            relname,
            find_attribute(attrs, elts[k]->Column_0.colname@)->0,
            elts[k]->Column_0.constraints@[m],
        ) matches Ok(p) && (p matches Some(q) ==> list.contains(q))),
    decreases elts.len() - i,
{
    match elts[i] {
        TableElt::Column(cd) => match find_attribute(attrs, cd.colname@) {
            Some(a) => {
                lemma_column_pendings(c, relname, a, cd.constraints@, 0, acc);
                if let Ok(more) = column_pendings(c, relname, a, cd.constraints@, 0, acc) {
                    if i < k {
                        lemma_columns_pendings(c, relname, attrs, elts, i + 1, more, k, m);
                    } else {
                        lemma_columns_keep(c, relname, attrs, elts, i + 1, more);
                        assert(cd.constraints@[m] == elts[k]->Column_0.constraints@[m]);
                    }
                    if let Ok(list) = columns_pendings(c, relname, attrs, elts, i, acc) {
                        assert(within(more, list));
                        assert forall|q: PendingView| #[trigger] acc.contains(
                            q,
                        ) implies list.contains(q) by {
                            assert(more.contains(q));
                        }
                        if i == k {
                            if let Ok(Some(q)) = column_pending(
                                c,
                                relname,
                                a,
                                cd.constraints@[m],
                            ) {
                                assert(more.contains(q));
                            }
                        }
                    }
                }
            },
            None => {
                lemma_columns_pendings(c, relname, attrs, elts, i + 1, acc, k, m);
            },
        },
        _ => {
            lemma_columns_pendings(c, relname, attrs, elts, i + 1, acc, k, m);
        },
    }
}

proof fn lemma_columns_keep(
    c: CatalogView,
    relname: Seq<char>,
    attrs: Seq<PgAttributeView>,
    elts: Seq<TableElt>,
    i: int,
    acc: Seq<PendingView>,
)
    requires
        0 <= i <= elts.len(),
    ensures
        columns_pendings(c, relname, attrs, elts, i, acc) matches Ok(list) ==> within(acc, list),
    decreases elts.len() - i,
{
    if i < elts.len() {
        match elts[i] {
            TableElt::Column(cd) => match find_attribute(attrs, cd.colname@) {
                Some(a) => {
                    lemma_column_pendings(c, relname, a, cd.constraints@, 0, acc);
                    if let Ok(more) = column_pendings(c, relname, a, cd.constraints@, 0, acc) {
                        lemma_columns_keep(c, relname, attrs, elts, i + 1, more);
                        if let Ok(list) = columns_pendings(c, relname, attrs, elts, i, acc) {
                            assert(within(more, list));
                            assert forall|q: PendingView| #[trigger] acc.contains(
                                q,
                            ) implies list.contains(q) by {
                                assert(more.contains(q));
                            }
                        }
                    }
                },
                None => lemma_columns_keep(c, relname, attrs, elts, i + 1, acc),
            },
            _ => lemma_columns_keep(c, relname, attrs, elts, i + 1, acc),
        }
    }
}

/// A table was made by a statement, in a schema and under a name.
pub open spec fn made(
    c: CatalogView,
    stmt: CreateStmt,
    rv: RangeVar,
    ns: u32,
    name: Seq<char>,
) -> bool {
    stmt.relation == Some(rv) && ensured_range(c, rv).0 == Ok::<(u32, Seq<char>), DdlErrorView>(
        (ns, name),
    ) && ensured_range(c, rv).1.class_named(ns, name) is None && table_created(c, stmt).0 is Ok
}

proof fn lemma_made(c: CatalogView, stmt: CreateStmt, rv: RangeVar, ns: u32, name: Seq<char>) -> (r:
    (CatalogView, Seq<PendingView>))
    requires
        made(c, stmt, rv, ns, name),
    ensures
        ({
            let relid = ensured_range(c, rv).1.next_oid;
            let after = table_created(c, stmt).1;
            let (c2, list) = r;
            &&& after.attributes_of(relid) == c2.attributes_of(relid)
            &&& statement_pendings(c2, name, c2.attributes_of(relid), stmt) == Ok::<
                _,
                DdlErrorView,
            >(list)
            &&& with_backed_constraints(c2, relid, list, 0).0 is Ok
            &&& with_backed_constraints(c2, relid, list, 0).1 == after
        }),
{
    let c0 = ensured_range(c, rv).1;
    let relid = c0.next_oid;
    let columns = statement_columns(c0, stmt)->Ok_0;
    let c1 = with_relation(c0, ns, name, columns).1;
    assert(with_relation(c0, ns, name, columns).0 == Ok::<u32, DdlErrorView>(relid));
    let c2 = if stmt.partbound {
        c1
    } else {
        with_parents(c1, relid, stmt.inh_relations@, 0).1
    };
    let list = statement_pendings(c2, name, c2.attributes_of(relid), stmt)->Ok_0;
    lemma_constraints_keep_columns(c2, relid, list, 0);
    (c2, list)
}

/// A primary key or unique constraint on a new table is noted over the numbers of its
/// columns.
pub proof fn law_created_table_has_its_keys(
    c: CatalogView,
    stmt: CreateStmt,
    rv: RangeVar,
    ns: u32,
    name: Seq<char>,
    k: int,
    nums: Seq<i16>,
)
    requires
        made(c, stmt, rv, ns, name),
        0 <= k < stmt.table_elts@.len(),
        stmt.table_elts@[k] is Constraint,
        nums.len() > 0,
        numbers_are(
            table_created(c, stmt).1.attributes_of(ensured_range(c, rv).1.next_oid),
            texts(stmt.table_elts@[k]->Constraint_0.keys@),
            nums,
        ),
    ensures
        ({
            let con = stmt.table_elts@[k]->Constraint_0;
            let relid = ensured_range(c, rv).1.next_oid;
            let after = table_created(c, stmt).1;
            &&& con.contype == ConstrType::Primary ==> exists|p: PendingView|
                #[trigger] noted(after, relid, p) && p.contype == ConType::PrimaryKey && p.conkey
                    == nums
            &&& con.contype == ConstrType::Unique ==> exists|p: PendingView|
                #[trigger] noted(after, relid, p) && p.contype == ConType::Unique && p.conkey
                    == nums
        }),
{
    let relid = ensured_range(c, rv).1.next_oid;
    let after = table_created(c, stmt).1;
    let (c2, list) = lemma_made(c, stmt, rv, ns, name);
    let attrs = c2.attributes_of(relid);
    let con = stmt.table_elts@[k]->Constraint_0;
    lemma_numbers(attrs, texts(con.keys@), nums);
    let l1 = columns_pendings(c2, name, attrs, stmt.table_elts@, 0, Seq::empty())->Ok_0;
    let l2 = table_pendings(c2, name, attrs, stmt.constraints@, 0, l1)->Ok_0;
    lemma_table_pendings(c2, name, attrs, stmt.table_elts@, 0, l2);
    lemma_all_noted(c2, relid, list, 0);
    if con.contype == ConstrType::Primary || con.contype == ConstrType::Unique {
        assert(stmt.table_elts@[k] is Constraint);
        let p = table_pending(c2, name, attrs, con)->Ok_0->0;
        assert(list.contains(p));
        let m = choose|m: int| 0 <= m < list.len() && list[m] == p;
        assert(noted(after, relid, list[m]));
    }
}

/// A constraint on a column of a new table is noted over the number of that column.
pub proof fn law_created_columns_have_their_keys(
    c: CatalogView,
    stmt: CreateStmt,
    rv: RangeVar,
    ns: u32,
    name: Seq<char>,
    k: int,
    m: int,
    a: PgAttributeView,
)
    requires
        made(c, stmt, rv, ns, name),
        0 <= k < stmt.table_elts@.len(),
        stmt.table_elts@[k] is Column,
        0 <= m < stmt.table_elts@[k]->Column_0.constraints@.len(),
        find_attribute(
            table_created(c, stmt).1.attributes_of(ensured_range(c, rv).1.next_oid),
            stmt.table_elts@[k]->Column_0.colname@,
        ) == Some(a),
    ensures
        ({
            let con = stmt.table_elts@[k]->Column_0.constraints@[m];
            let relid = ensured_range(c, rv).1.next_oid;
            let after = table_created(c, stmt).1;
            &&& con.contype == ConstrType::Primary ==> exists|p: PendingView|
                #[trigger] noted(after, relid, p) && p.contype == ConType::PrimaryKey && p.conkey
                    == seq![a.attnum]
            &&& con.contype == ConstrType::Unique ==> exists|p: PendingView|
                #[trigger] noted(after, relid, p) && p.contype == ConType::Unique && p.conkey
                    == seq![a.attnum]
            &&& con.contype == ConstrType::Check ==> exists|p: PendingView|
                #[trigger] noted(after, relid, p) && p.contype == ConType::Check && p.conkey
                    == seq![a.attnum]
            &&& con.contype == ConstrType::Foreign ==> exists|p: PendingView|
                #[trigger] noted(after, relid, p) && p.contype == ConType::ForeignKey && p.conkey
                    == seq![a.attnum] && p.confrelid is Some && p.confkey.len() == 1
        }),
{
    let relid = ensured_range(c, rv).1.next_oid;
    let after = table_created(c, stmt).1;
    let (c2, list) = lemma_made(c, stmt, rv, ns, name);
    let attrs = c2.attributes_of(relid);
    let con = stmt.table_elts@[k]->Column_0.constraints@[m];
    let elts = stmt.table_elts@;
    lemma_columns_pendings(c2, name, attrs, elts, 0, Seq::empty(), k, m);
    let l1 = columns_pendings(c2, name, attrs, elts, 0, Seq::empty())->Ok_0;
    lemma_table_pendings(c2, name, attrs, stmt.constraints@, 0, l1);
    let l2 = table_pendings(c2, name, attrs, stmt.constraints@, 0, l1)->Ok_0;
    lemma_table_pendings(c2, name, attrs, elts, 0, l2);
    lemma_all_noted(c2, relid, list, 0);
    if let Some(p) = column_pending(c2, name, a, con)->Ok_0 {
        assert(l1.contains(p));
        assert(l2.contains(p));
        assert(list.contains(p));
        let j = choose|j: int| 0 <= j < list.len() && list[j] == p;
        assert(noted(after, relid, list[j]));
        if con.contype == ConstrType::Foreign {
            law_foreign_key_refers_to_a_key(
                c2,
                con.pktable->0,
                texts(con.pk_attrs@),
                name,
                seq![a.atttypid],
            );
        }
    }
}

// ── Foreign keys ────────────────────────────────────────────────────────────

proof fn lemma_mismatch(c: CatalogView, a: Seq<u32>, b: Seq<u32>, i: int)
    requires
        0 <= i,
        a.len() == b.len(),
    ensures
        first_mismatch(c, a, b, i) is None <==> forall|k: int|
            #![trigger a[k]]
            i <= k < a.len() ==> c.unwrap_domain(a[k]) == c.unwrap_domain(b[k]),
    decreases a.len() - i,
{
    if i < a.len() {
        lemma_mismatch(c, a, b, i + 1);
        assert(a[i] == a[i]);
    }
}

proof fn lemma_types_numbered(attrs: Seq<PgAttributeView>, nums: Seq<i16>)
    ensures
        types_numbered(attrs, nums).len() <= nums.len(),
        types_numbered(attrs, nums).len() == nums.len() ==> forall|i: int|
            0 <= i < nums.len() ==> (find_attnum(attrs, #[trigger] nums[i]) matches Some(a)
                && a.atttypid == types_numbered(attrs, nums)[i]),
    decreases nums.len(),
{
    if nums.len() > 0 {
        let head = nums.drop_last();
        lemma_types_numbered(attrs, head);
        if types_numbered(attrs, nums).len() == nums.len() {
            assert forall|i: int| 0 <= i < nums.len() implies (find_attnum(
                attrs,
                #[trigger] nums[i],
            ) matches Some(a) && a.atttypid == types_numbered(attrs, nums)[i]) by {
                if i < head.len() {
                    assert(head[i] == nums[i]);
                }
            }
        }
    }
}

/// A foreign key refers to a relation that exists, to columns of it that just a primary key
/// or unique constraint covers, and to as many as it has; each of them has the type of the
/// column that refers to it, below domains.
pub proof fn law_foreign_key_refers_to_a_key(
    c: CatalogView,
    rv: RangeVar,
    names: Seq<Seq<char>>,
    relname: Seq<char>,
    local: Seq<u32>,
)
    ensures
        fk_target(c, Some(rv), names, relname, local) matches Ok((target, nums)) ==> {
            let (schema, name) = range_names(c, rv);
            &&& c.namespace_oid(schema) matches Some(ns) && c.class_named(ns, name) == Some(target)
            &&& nums.len() == local.len()
            &&& exists|i: int|
                0 <= i < c.pg_constraint.len() && (#[trigger] c.pg_constraint[i]).conrelid == target
                    && (c.pg_constraint[i].contype == ConType::PrimaryKey
                    || c.pg_constraint[i].contype == ConType::Unique) && forall|n: i16|
                    #[trigger] nums.contains(n) <==> c.pg_constraint[i].conkey.contains(n)
            &&& forall|i: int|
                0 <= i < nums.len() ==> (find_attnum(
                    c.attributes_of(target),
                    #[trigger] nums[i],
                ) matches Some(a) && c.unwrap_domain(a.atttypid) == c.unwrap_domain(local[i]))
        },
{
    if let Ok((target, nums)) = fk_target(c, Some(rv), names, relname, local) {
        let attrs = c.attributes_of(target);
        let types = types_numbered(attrs, nums);
        lemma_types_numbered(attrs, nums);
        lemma_mismatch(c, local, types, 0);
        let i = choose|i: int|
            0 <= i < c.pg_constraint.len() && (#[trigger] c.pg_constraint[i]).conrelid == target
                && makes_key(c.pg_constraint[i].contype) && same_members(
                c.pg_constraint[i].conkey,
                nums,
            );
        assert(c.pg_constraint[i].conrelid == target);
        assert forall|k: int| 0 <= k < nums.len() implies (find_attnum(
            attrs,
            #[trigger] nums[k],
        ) matches Some(a) && c.unwrap_domain(a.atttypid) == c.unwrap_domain(local[k])) by {
            assert(local[k] == local[k]);
        }
    }
}

/// A foreign key to a relation that is missing is refused.
pub proof fn law_foreign_key_needs_its_table(
    c: CatalogView,
    rv: RangeVar,
    names: Seq<Seq<char>>,
    relname: Seq<char>,
    local: Seq<u32>,
)
    requires
        ({
            let (schema, name) = range_names(c, rv);
            c.namespace_oid(schema) matches Some(ns) ==> c.class_named(ns, name) is None
        }),
    ensures
        fk_target(c, Some(rv), names, relname, local) matches Err(DdlErrorView::TableNotFound(_)),
{
}

} // verus!

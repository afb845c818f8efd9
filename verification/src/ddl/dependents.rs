//! The views that depend on an object, and how a relation goes.

use crate::catalog::{CatalogView, PgCatalog};
use crate::pg_catalog::{
    DepType, PgClass, PgDepend, PgIndex, PgInherits, RelKind, PG_CLASS_RELID, PG_PROC_RELID,
    PG_TYPE_RELID,
};
use crate::table::owned_keys;
use vstd::prelude::*;

verus! {

// ── Ascending lists ─────────────────────────────────────────────────────────

/// An ascending list with one more number, which it holds once.
pub open spec fn put_sorted(s: Seq<u32>, x: u32) -> Seq<u32>
    decreases s.len(),
{
    if s.len() == 0 || s.last() < x {
        s.push(x)
    } else if s.last() == x {
        s
    } else {
        put_sorted(s.drop_last(), x).push(s.last())
    }
}

/// Whether each number is greater than those before it.
pub open spec fn ascending(s: Seq<u32>) -> bool {
    forall|i: int, j: int| 0 <= i < j < s.len() ==> s[i] < s[j]
}

pub proof fn lemma_put_sorted(s: Seq<u32>, x: u32)
    requires
        ascending(s),
    ensures
        ascending(put_sorted(s, x)),
        put_sorted(s, x).contains(x),
        forall|y: u32| put_sorted(s, x).contains(y) ==> y == x || s.contains(y),
        forall|y: u32| s.contains(y) ==> put_sorted(s, x).contains(y),
        forall|i: int|
            0 <= i < put_sorted(s, x).len() ==> #[trigger] put_sorted(s, x)[i] == x || s.contains(
                put_sorted(s, x)[i],
            ),
    decreases s.len(),
{
    let r = put_sorted(s, x);
    if s.len() == 0 || s.last() < x {
        assert(r.last() == x);
        assert forall|y: u32| s.contains(y) implies r.contains(y) by {
            let k = s.index_of(y);
            assert(r[k] == y);
        }
        assert forall|i: int| 0 <= i < r.len() implies #[trigger] r[i] == x || s.contains(r[i]) by {
            if i < s.len() {
                assert(s[i] == r[i]);
            }
        }
    } else if s.last() == x {
        assert(s[s.len() - 1] == x);
    } else {
        let t = s.drop_last();
        let p = put_sorted(t, x);
        lemma_put_sorted(t, x);
        assert(r == p.push(s.last()));
        assert forall|i: int| 0 <= i < r.len() implies #[trigger] r[i] == x || s.contains(r[i]) by {
            if i < p.len() {
                assert(p[i] == r[i]);
                if p[i] != x {
                    let k = t.index_of(p[i]);
                    assert(s[k] == p[i]);
                }
            } else {
                assert(s[s.len() - 1] == r[i]);
            }
        }
        assert forall|i: int, j: int| 0 <= i < j < r.len() implies r[i] < r[j] by {
            if j == p.len() {
                assert(p[i] == r[i]);
                if p[i] != x {
                    let k = t.index_of(p[i]);
                    assert(s[k] == p[i]);
                }
            }
        }
        assert(r.contains(x)) by {
            assert(p.contains(x));
            let k = p.index_of(x);
            assert(r[k] == x);
        }
        assert forall|y: u32| s.contains(y) implies r.contains(y) by {
            let k = s.index_of(y);
            if k < t.len() {
                assert(t[k] == y);
                assert(t.contains(y));
                assert(p.contains(y));
                let m = p.index_of(y);
                assert(r[m] == y);
            } else {
                assert(r[p.len() as int] == y);
            }
        }
    }
}

/// Puts a number into an ascending list, unless it is there.
pub(crate) fn insert_sorted(v: &mut Vec<u32>, x: u32)
    ensures
        final(v)@ == put_sorted(old(v)@, x),
{
    let mut i: usize = v.len();
    proof {
        assert(v@.take(i as int) =~= v@);
        assert(put_sorted(v@, x) =~= put_sorted(v@.take(i as int), x) + v@.skip(i as int));
    }
    while i > 0 && v[i - 1] > x
        invariant
            v@ == old(v)@,
            i <= v@.len(),
            put_sorted(v@, x) == put_sorted(v@.take(i as int), x) + v@.skip(i as int),
        decreases i,
    {
        proof {
            let s = v@.take(i as int);
            assert(s.drop_last() =~= v@.take(i - 1));
            assert(put_sorted(s, x) == put_sorted(s.drop_last(), x).push(s.last()));
            assert(put_sorted(s.drop_last(), x).push(s.last()) + v@.skip(i as int) =~= put_sorted(
                s.drop_last(),
                x,
            ) + v@.skip(i - 1));
        }
        i = i - 1;
    }
    proof {
        let s = v@.take(i as int);
        if i > 0 && v@[i - 1] == x {
            assert(s + v@.skip(i as int) =~= v@);
        } else {
            assert(s.push(x) + v@.skip(i as int) =~= v@.insert(i as int, x));
        }
    }
    if i == 0 || v[i - 1] != x {
        v.insert(i, x);
    }
}

// ── Views that depend on an object ──────────────────────────────────────────

/// Whether a dependency is one of a relation on this object, and on this column
/// where one is given.
pub open spec fn leads_to(d: PgDepend, classid: u32, oid: u32, column: Option<i16>) -> bool {
    &&& d.deptype == DepType::Normal
    &&& d.classid == PG_CLASS_RELID
    &&& d.refclassid == classid
    &&& d.refobjid == oid
    &&& match column {
        Some(n) => d.refobjsubid == n,
        None => true,
    }
}

/// Whether this relation is a view, materialized or not.
pub open spec fn is_view(c: CatalogView, oid: u32) -> bool {
    match c.get_class(oid) {
        Some(k) => k.relkind == RelKind::View || k.relkind == RelKind::MaterializedView,
        None => false,
    }
}

/// The views among the relations that these dependencies lead from, ascending.
pub open spec fn views_among(
    c: CatalogView,
    deps: Seq<PgDepend>,
    classid: u32,
    oid: u32,
    column: Option<i16>,
) -> Seq<u32>
    decreases deps.len(),
{
    if deps.len() == 0 {
        Seq::empty()
    } else {
        let rest = views_among(c, deps.drop_last(), classid, oid, column);
        let d = deps.last();
        if leads_to(d, classid, oid, column) && is_view(c, d.objid) {
            put_sorted(rest, d.objid)
        } else {
            rest
        }
    }
}

/// The views that depend on an object, ascending.
pub open spec fn views_on(c: CatalogView, classid: u32, oid: u32, column: Option<i16>) -> Seq<u32> {
    views_among(c, c.pg_depend, classid, oid, column)
}

/// The views that depend on a column of a relation, ascending.
pub open spec fn views_on_column(c: CatalogView, relid: u32, column: Seq<char>) -> Seq<u32> {
    match c.attribute_by_name(relid, column) {
        Some(a) => views_on(c, PG_CLASS_RELID, relid, Some(a.attnum)),
        None => Seq::empty(),
    }
}

/// Whether one of these dependencies leads from a relation to an object.
pub open spec fn leads_from(
    deps: Seq<PgDepend>,
    v: u32,
    classid: u32,
    oid: u32,
    column: Option<i16>,
) -> bool {
    exists|k: int|
        0 <= k < deps.len() && #[trigger] leads_to(deps[k], classid, oid, column) && deps[k].objid
            == v
}

/// The views that depend on an object are listed once each, in ascending order;
/// they are exactly the views from which a dependency leads to the object.
pub proof fn law_dependent_views_are_listed_once(
    c: CatalogView,
    classid: u32,
    oid: u32,
    column: Option<i16>,
)
    ensures
        ascending(views_on(c, classid, oid, column)),
        forall|v: u32| #[trigger]
            views_on(c, classid, oid, column).contains(v) <==> is_view(c, v) && leads_from(
                c.pg_depend,
                v,
                classid,
                oid,
                column,
            ),
{
    lemma_views_among(c, c.pg_depend, classid, oid, column);
}

proof fn lemma_views_among(
    c: CatalogView,
    deps: Seq<PgDepend>,
    classid: u32,
    oid: u32,
    column: Option<i16>,
)
    ensures
        ascending(views_among(c, deps, classid, oid, column)),
        forall|v: u32| #[trigger]
            views_among(c, deps, classid, oid, column).contains(v) <==> is_view(c, v) && leads_from(
                deps,
                v,
                classid,
                oid,
                column,
            ),
    decreases deps.len(),
{
    if deps.len() > 0 {
        let front = deps.drop_last();
        let d = deps.last();
        let rest = views_among(c, front, classid, oid, column);
        let all = views_among(c, deps, classid, oid, column);
        lemma_views_among(c, front, classid, oid, column);
        if leads_to(d, classid, oid, column) && is_view(c, d.objid) {
            lemma_put_sorted(rest, d.objid);
        }
        assert forall|v: u32| #[trigger] all.contains(v) <==> is_view(c, v) && leads_from(
            deps,
            v,
            classid,
            oid,
            column,
        ) by {
            if leads_from(front, v, classid, oid, column) {
                let k = choose|k: int|
                    0 <= k < front.len() && #[trigger] leads_to(front[k], classid, oid, column)
                        && front[k].objid == v;
                assert(leads_to(deps[k], classid, oid, column));
            }
            if leads_from(deps, v, classid, oid, column) {
                let k = choose|k: int|
                    0 <= k < deps.len() && #[trigger] leads_to(deps[k], classid, oid, column)
                        && deps[k].objid == v;
                if k < front.len() {
                    assert(leads_to(front[k], classid, oid, column));
                }
            }
            if leads_to(d, classid, oid, column) && v == d.objid {
                assert(leads_to(deps[deps.len() - 1], classid, oid, column));
            }
            assert(rest.contains(v) <==> is_view(c, v) && leads_from(
                front,
                v,
                classid,
                oid,
                column,
            ));
        }
    }
}

fn is_view_oid(db: &PgCatalog, oid: u32) -> (r: bool)
    ensures
        r == is_view(db@, oid),
{
    match db.get_class(oid) {
        Some(k) => match k.relkind {
            RelKind::View => true,
            RelKind::MaterializedView => true,
            _ => false,
        },
        None => false,
    }
}

fn find_views_on(db: &PgCatalog, classid: u32, oid: u32, column: Option<i16>) -> (r: Vec<u32>)
    ensures
        r@ == views_on(db@, classid, oid, column),
{
    let ghost deps = db@.pg_depend;
    let mut r: Vec<u32> = Vec::new();
    let mut i: usize = 0;
    while i < db.pg_depend.len()
        invariant
            deps == db@.pg_depend,
            i <= deps.len(),
            r@ == views_among(db@, deps.take(i as int), classid, oid, column),
        decreases db.pg_depend.len() - i,
    {
        proof {
            assert(deps.take(i + 1).drop_last() =~= deps.take(i as int));
            assert(deps.take(i + 1).last() == deps[i as int]);
        }
        let d: PgDepend = db.pg_depend[i];
        let normal: bool = match d.deptype {
            DepType::Normal => true,
            _ => false,
        };
        let column_fits: bool = match column {
            Some(n) => d.refobjsubid == n,
            None => true,
        };
        if normal && d.classid == PG_CLASS_RELID && d.refclassid == classid && d.refobjid == oid
            && column_fits && is_view_oid(db, d.objid) {
            insert_sorted(&mut r, d.objid);
        }
        i = i + 1;
    }
    proof {
        assert(deps.take(i as int) =~= deps);
    }
    r
}

/// The views that depend on a table or view.
pub fn find_dependent_views(db: &PgCatalog, relid: u32) -> (r: Vec<u32>)
    ensures
        r@ == views_on(db@, PG_CLASS_RELID, relid, None),
{
    find_views_on(db, PG_CLASS_RELID, relid, None)
}

/// The views that depend on a column of a relation.
pub fn find_views_depending_on_column(
    db: &PgCatalog,
    relid: u32,
    column_name: &str,
) -> (r: Vec<u32>)
    ensures
        r@ == views_on_column(db@, relid, column_name@),
{
    match db.attribute_by_name(relid, column_name) {
        Some(a) => find_views_on(db, PG_CLASS_RELID, relid, Some(a.attnum)),
        None => Vec::new(),
    }
}

/// The views that depend on a type.
pub fn find_views_depending_on_type(db: &PgCatalog, type_oid: u32) -> (r: Vec<u32>)
    ensures
        r@ == views_on(db@, PG_TYPE_RELID, type_oid, None),
{
    find_views_on(db, PG_TYPE_RELID, type_oid, None)
}

/// The views that depend on a function.
pub fn find_views_depending_on_function(db: &PgCatalog, proc_oid: u32) -> (r: Vec<u32>)
    ensures
        r@ == views_on(db@, PG_PROC_RELID, proc_oid, None),
{
    find_views_on(db, PG_PROC_RELID, proc_oid, None)
}

// ── A relation goes ─────────────────────────────────────────────────────────

/// The catalog without the links between a relation and its parents and children.
pub open spec fn without_inheritance(c: CatalogView, relid: u32) -> CatalogView {
    CatalogView {
        pg_inherits: c.pg_inherits.filter(
            |i: PgInherits| i.inhrelid != relid && i.inhparent != relid,
        ),
        ..c
    }
}

/// The catalog without the relations of the first `n` indexes.
pub open spec fn without_index_relations(c: CatalogView, oids: Seq<u32>, n: int) -> CatalogView
    decreases n,
{
    if n <= 0 {
        c
    } else {
        without_index_relations(c, oids, n - 1).without_class(oids[n - 1]).without_dependencies(
            PG_CLASS_RELID,
            oids[n - 1],
        )
    }
}

/// Whether a relation of this kind can have indexes that go with it.
pub open spec fn has_indexes(kind: RelKind) -> bool {
    kind == RelKind::Table || kind == RelKind::Partitioned || kind == RelKind::MaterializedView
}

/// The catalog without a relation: its columns, dependencies, constraints, rules,
/// parents, indexes and types go with it.
pub open spec fn relation_dropped(c: CatalogView, relid: u32) -> CatalogView {
    match c.get_class(relid) {
        None => c,
        Some(k) => {
            let c1 = without_inheritance(
                c.without_class(relid).without_dependencies(
                    PG_CLASS_RELID,
                    relid,
                ).without_constraints_of(relid).without_rewrites_of(relid),
                relid,
            );
            let c2 = if has_indexes(k.relkind) {
                let oids = owned_keys::<PgIndex>(c1.pg_index, relid);
                without_index_relations(c1.without_indexes_of(relid), oids, oids.len() as int)
            } else {
                c1
            };
            match k.reltype {
                None => c2,
                Some(t) => match c2.array_type_of(t) {
                    Some(a) => c2.without_type(a).without_type(t),
                    None => c2.without_type(t),
                },
            }
        },
    }
}

fn remove_inheritance(db: &mut PgCatalog, relid: u32)
    ensures
        final(db)@ == without_inheritance(old(db)@, relid),
{
    let ghost wanted = |i: PgInherits| i.inhrelid != relid && i.inhparent != relid;
    let mut kept: Vec<PgInherits> = Vec::new();
    let mut i: usize = 0;
    proof {
        reveal(Seq::filter);
    }
    while i < db.pg_inherits.len()
        invariant
            *db == *old(db),
            i <= db.pg_inherits@.len(),
            wanted == (|i: PgInherits| i.inhrelid != relid && i.inhparent != relid),
            kept@ == db.pg_inherits@.take(i as int).filter(wanted),
        decreases db.pg_inherits.len() - i,
    {
        proof {
            reveal(Seq::filter);
            assert(db.pg_inherits@.take(i + 1).drop_last() =~= db.pg_inherits@.take(i as int));
        }
        let d: PgInherits = db.pg_inherits[i];
        if d.inhrelid != relid && d.inhparent != relid {
            kept.push(d);
        }
        i = i + 1;
    }
    proof {
        assert(db.pg_inherits@.take(i as int) =~= db.pg_inherits@);
    }
    db.pg_inherits = kept;
}

fn remove_index_relations(db: &mut PgCatalog, oids: &Vec<u32>)
    ensures
        final(db)@ == without_index_relations(old(db)@, oids@, oids@.len() as int),
{
    let mut i: usize = 0;
    while i < oids.len()
        invariant
            i <= oids@.len(),
            db@ == without_index_relations(old(db)@, oids@, i as int),
        decreases oids.len() - i,
    {
        let _row: Option<PgClass> = db.remove_pg_class(oids[i]);
        db.remove_dependencies(PG_CLASS_RELID, oids[i]);
        i = i + 1;
    }
}

/// Removes a relation with all that belongs to it, as `DROP TABLE` does.
pub(crate) fn drop_relation_by_oid(db: &mut PgCatalog, class_oid: u32)
    ensures
        final(db)@ == relation_dropped(old(db)@, class_oid),
{
    let (relkind, reltype): (RelKind, Option<u32>) = match db.get_class(class_oid) {
        Some(k) => (k.relkind, k.reltype),
        None => return ,
    };
    let _row: Option<PgClass> = db.remove_pg_class(class_oid);
    db.remove_dependencies(PG_CLASS_RELID, class_oid);
    db.remove_pg_constraints_of(class_oid);
    db.remove_pg_rewrites_of(class_oid);
    remove_inheritance(db, class_oid);
    let indexed: bool = match relkind {
        RelKind::Table => true,
        RelKind::Partitioned => true,
        RelKind::MaterializedView => true,
        _ => false,
    };
    if indexed {
        let oids: Vec<u32> = db.remove_pg_indexes_of(class_oid);
        remove_index_relations(db, &oids);
    }
    match reltype {
        Some(t) => {
            match db.array_type_of(t) {
                Some(a) => {
                    let _array: Option<crate::pg_catalog::PgType> = db.remove_pg_type(a);
                },
                None => {},
            }
            let _composite: Option<crate::pg_catalog::PgType> = db.remove_pg_type(t);
        },
        None => {},
    }
}

// ── Views go, and what depends on them ──────────────────────────────────────

/// The members of `s` that are not in `done`.
pub open spec fn not_in(s: Seq<u32>, done: Seq<u32>) -> Seq<u32> {
    s.filter(|x: u32| !done.contains(x))
}

/// The catalog without the relations of `pending`, the last first, and without
/// the views that depend on one of them. `done` has gone already.
pub open spec fn views_dropped(c: CatalogView, pending: Seq<u32>, done: Seq<u32>) -> CatalogView
    decreases 0x1_0000_0000 - done.len(), pending.len(),
    when done.no_duplicates()
    via views_dropped_ends
{
    if pending.len() == 0 {
        c
    } else {
        let oid = pending.last();
        let rest = pending.drop_last();
        if done.contains(oid) {
            views_dropped(c, rest, done)
        } else {
            views_dropped(
                relation_dropped(c, oid),
                rest + not_in(views_on(c, PG_CLASS_RELID, oid, None), done),
                done.push(oid),
            )
        }
    }
}

#[via_fn]
proof fn views_dropped_ends(c: CatalogView, pending: Seq<u32>, done: Seq<u32>) {
    if pending.len() > 0 && !done.contains(pending.last()) {
        lemma_push_fresh(done, pending.last());
    }
}

/// A list without repetition cannot grow beyond the number of its possible members.
pub proof fn lemma_push_fresh(s: Seq<u32>, x: u32)
    requires
        s.no_duplicates(),
        !s.contains(x),
    ensures
        s.push(x).no_duplicates(),
        s.len() < 0x1_0000_0000,
{
    let t = s.push(x);
    assert(t.no_duplicates()) by {
        assert forall|i: int, j: int| 0 <= i < t.len() && 0 <= j < t.len() && i != j implies t[i]
            != t[j] by {
            if i == s.len() {
                assert(s[j] != x);
            }
            if j == s.len() {
                assert(s[i] != x);
            }
        }
    }
    let n = Seq::new(t.len(), |i: int| t[i] as int);
    assert(n.no_duplicates());
    n.unique_seq_to_set();
    vstd::set_lib::lemma_int_range(0, 0x1_0000_0000);
    assert(n.to_set().subset_of(vstd::set_lib::set_int_range(0, 0x1_0000_0000)));
    vstd::set_lib::lemma_len_subset(
        n.to_set(),
        vstd::set_lib::set_int_range(0, 0x1_0000_0000),
    );
}

pub(crate) fn has_number(v: &Vec<u32>, x: u32) -> (r: bool)
    ensures
        r == v@.contains(x),
{
    let mut i: usize = 0;
    while i < v.len()
        invariant
            i <= v@.len(),
            forall|j: int| 0 <= j < i ==> v@[j] != x,
        decreases v.len() - i,
    {
        if v[i] == x {
            return true;
        }
        i = i + 1;
    }
    false
}

fn push_not_in(v: &mut Vec<u32>, more: &Vec<u32>, done: &Vec<u32>)
    ensures
        final(v)@ == old(v)@ + not_in(more@, done@),
{
    let ghost wanted = |x: u32| !done@.contains(x);
    let mut i: usize = 0;
    proof {
        reveal(Seq::filter);
        assert(more@.take(0).filter(wanted) =~= Seq::empty());
    }
    while i < more.len()
        invariant
            i <= more@.len(),
            wanted == (|x: u32| !done@.contains(x)),
            v@ == old(v)@ + more@.take(i as int).filter(wanted),
        decreases more.len() - i,
    {
        proof {
            reveal(Seq::filter);
            assert(more@.take(i + 1).drop_last() =~= more@.take(i as int));
        }
        if !has_number(done, more[i]) {
            v.push(more[i]);
        }
        i = i + 1;
    }
    proof {
        assert(more@.take(i as int) =~= more@);
    }
}

/// Drops views, and the views that depend on them, and so on.
pub fn drop_views(db: &mut PgCatalog, view_oids: &Vec<u32>)
    ensures
        final(db)@ == views_dropped(old(db)@, view_oids@, Seq::empty()),
{
    let mut to_drop: Vec<u32> = crate::table::copy_numbers(view_oids);
    let mut dropped: Vec<u32> = Vec::new();
    while to_drop.len() > 0
        invariant
            dropped@.no_duplicates(),
            views_dropped(old(db)@, view_oids@, Seq::empty()) == views_dropped(
                db@,
                to_drop@,
                dropped@,
            ),
        decreases 0x1_0000_0000 - dropped@.len(), to_drop@.len(),
    {
        let ghost before = to_drop@;
        match to_drop.pop() {
            Some(oid) => {
                proof {
                    assert(before.drop_last() =~= to_drop@);
                }
                if !has_number(&dropped, oid) {
                    let dependents: Vec<u32> = find_dependent_views(db, oid);
                    push_not_in(&mut to_drop, &dependents, &dropped);
                    drop_relation_by_oid(db, oid);
                    proof {
                        lemma_push_fresh(dropped@, oid);
                    }
                    dropped.push(oid);
                }
            },
            None => {},
        }
    }
}

} // verus!

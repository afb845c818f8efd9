//! The commands of `ALTER TABLE` on columns.

use super::dependents::{
    drop_views, find_views_depending_on_column, views_dropped, views_on_column,
};
use super::stmt::{AlterDef, AlterTableCmd, ColumnDef, ConstrType, DefArg, DefElem};
use super::tables::{
    column_row, find_last_attnum, find_sure_identity_kind, last_attnum, modifier_of, new_column_row,
    parse_column_def, parsed_column, read_modifier, sure_identity_kind, too_many_columns,
    ParsedColumn, MAX_ATTNUM,
};
use super::util::{opt_named_type, resolve_opt_type, Step};
use super::{ddl_outcome, DdlError, DdlErrorView};
use crate::catalog::{CatalogView, PgCatalog};
use crate::lookup::{attribute_named, find_attribute};
use crate::pg_catalog::{
    attr_views, AttIdentity, ConType, PgAttribute, PgAttributeView, PgClass, PgConstraint,
    PgConstraintView, PgIndex, PgIndexView, PgInherits, RelAttrs, RelAttrsView, PG_CLASS_RELID,
    UNKNOWN,
};
use crate::table::{row_get, row_position};
use crate::text::{
    concat2, concat3, concat4, concat5, decimal, decimal_text, has_text, join, joined, same_text,
    texts,
};
use vstd::prelude::*;

verus! {

// ── Changes of one column ───────────────────────────────────────────────────

/// A change of a column.
#[derive(Debug, Clone, Copy, PartialEq, Eq, Structural)]
pub enum ColumnChange {
    NotNull(bool),
    HasDefault(bool),
    Identity(AttIdentity),
    NoIdentity,
    Retyped(u32, Option<i32>),
    Nothing,
}

/// A column after a change.
pub open spec fn changed(a: PgAttributeView, change: ColumnChange) -> PgAttributeView {
    match change {
        ColumnChange::NotNull(b) => PgAttributeView { attnotnull: b, ..a },
        ColumnChange::HasDefault(b) => PgAttributeView { atthasdef: b, ..a },
        ColumnChange::Identity(k) => PgAttributeView {
            attidentity: Some(k),
            attnotnull: true,
            atthasdef: true,
            ..a
        },
        ColumnChange::NoIdentity => PgAttributeView { attidentity: None, ..a },
        ColumnChange::Retyped(t, m) => PgAttributeView { atttypid: t, atttypmod: m, ..a },
        ColumnChange::Nothing => a,
    }
}

/// The position of the first column of a name, or the number of columns.
pub open spec fn column_position(attrs: Seq<PgAttributeView>, name: Seq<char>) -> int
    decreases attrs.len(),
{
    if attrs.len() == 0 {
        0
    } else if attrs[0].attname == name {
        0
    } else {
        1 + column_position(attrs.drop_first(), name)
    }
}

/// Whether the catalog lists columns for a relation.
pub open spec fn has_columns(c: CatalogView, relid: u32) -> bool {
    row_get::<RelAttrs>(c.pg_attribute, relid) is Some
}

/// The error for a relation without a list of columns.
pub open spec fn no_such_relation(relid: u32) -> DdlErrorView {
    DdlErrorView::TableNotFound("relation oid "@ + decimal_text(relid as nat))
}

/// The error for a column that is not there.
pub open spec fn no_such_column(name: Seq<char>) -> DdlErrorView {
    DdlErrorView::Parse("column \""@ + name + "\" of relation does not exist"@)
}

/// The catalog in which the first column of a name has changed; it stays as it is
/// where there is none.
pub open spec fn with_column_changed(
    c: CatalogView,
    relid: u32,
    name: Seq<char>,
    change: ColumnChange,
) -> CatalogView {
    let attrs = c.attributes_of(relid);
    let i = column_position(attrs, name);
    if i < attrs.len() {
        c.with_attributes(relid, attrs.update(i, changed(attrs[i], change)))
    } else {
        c
    }
}

/// What changing a column does. With `missing_ok`, one that is not there is no
/// error.
pub open spec fn column_altered(
    c: CatalogView,
    relid: u32,
    name: Seq<char>,
    change: ColumnChange,
    missing_ok: bool,
) -> Step<()> {
    if !has_columns(c, relid) {
        (Err(no_such_relation(relid)), c)
    } else if column_position(c.attributes_of(relid), name) < c.attributes_of(relid).len() {
        (Ok(()), with_column_changed(c, relid, name, change))
    } else if missing_ok {
        (Ok(()), c)
    } else {
        (Err(no_such_column(name)), c)
    }
}

proof fn lemma_column_position(attrs: Seq<PgAttributeView>, name: Seq<char>, k: int)
    requires
        0 <= k <= attrs.len(),
        forall|j: int| 0 <= j < k ==> (#[trigger] attrs[j]).attname != name,
        k < attrs.len() ==> attrs[k].attname == name,
    ensures
        column_position(attrs, name) == k,
    decreases attrs.len(),
{
    if attrs.len() > 0 && k > 0 {
        let rest = attrs.drop_first();
        assert forall|j: int| 0 <= j < k - 1 implies (#[trigger] rest[j]).attname != name by {
            assert(rest[j] == attrs[j + 1]);
        }
        lemma_column_position(rest, name, k - 1);
    }
}

pub(crate) fn find_column_position(attrs: &Vec<PgAttribute>, name: &str) -> (r: usize)
    ensures
        r == column_position(attr_views(attrs@), name@),
        r <= attrs@.len(),
{
    let ghost views = attr_views(attrs@);
    let mut i: usize = 0;
    while i < attrs.len()
        invariant
            views == attr_views(attrs@),
            i <= attrs@.len(),
            forall|j: int| 0 <= j < i ==> (#[trigger] views[j]).attname != name@,
        decreases attrs.len() - i,
    {
        if same_text(attrs[i].attname.as_str(), name) {
            proof {
                lemma_column_position(views, name@, i as int);
            }
            return i;
        }
        i = i + 1;
    }
    proof {
        lemma_column_position(views, name@, i as int);
    }
    i
}

fn apply_change(a: &PgAttribute, change: ColumnChange) -> (r: PgAttribute)
    ensures
        r@ == changed(a@, change),
{
    let mut r: PgAttribute = a.copy();
    match change {
        ColumnChange::NotNull(b) => {
            r.attnotnull = b;
        },
        ColumnChange::HasDefault(b) => {
            r.atthasdef = b;
        },
        ColumnChange::Identity(k) => {
            r.attidentity = Some(k);
            r.attnotnull = true;
            r.atthasdef = true;
        },
        ColumnChange::NoIdentity => {
            r.attidentity = None;
        },
        ColumnChange::Retyped(t, m) => {
            r.atttypid = t;
            r.atttypmod = m;
        },
        ColumnChange::Nothing => {},
    }
    r
}

/// Changes the first column of a name; gives whether there is one.
pub(crate) fn change_column(
    db: &mut PgCatalog,
    relid: u32,
    name: &str,
    change: ColumnChange,
) -> (r: bool)
    ensures
        r == (column_position(old(db)@.attributes_of(relid), name@) < old(db)@.attributes_of(
            relid,
        ).len()),
        final(db)@ == with_column_changed(old(db)@, relid, name@, change),
{
    let mut attrs: Vec<PgAttribute> = db.attributes_of(relid);
    let ghost views = attr_views(attrs@);
    let i: usize = find_column_position(&attrs, name);
    if i < attrs.len() {
        let row: PgAttribute = apply_change(&attrs[i], change);
        attrs.set(i, row);
        proof {
            assert(attr_views(attrs@) =~= views.update(i as int, row@));
        }
        db.set_attributes(relid, attrs);
        true
    } else {
        false
    }
}

fn alter_column(
    db: &mut PgCatalog,
    relid: u32,
    name: &str,
    change: ColumnChange,
    missing_ok: bool,
) -> (r: Result<(), DdlError>)
    ensures
        (ddl_outcome(r), final(db)@) == column_altered(
            old(db)@,
            relid,
            name@,
            change,
            missing_ok,
        ),
{
    if !db.pg_attribute.has(relid) {
        return Err(
            DdlError::TableNotFound(concat2("relation oid ", decimal(relid as u64).as_str())),
        );
    }
    if change_column(db, relid, name, change) || missing_ok {
        Ok(())
    } else {
        Err(DdlError::Parse(concat3("column \"", name, "\" of relation does not exist")))
    }
}

// ── Identity ────────────────────────────────────────────────────────────────

/// The kind of identity column that the number of a letter stands for.
pub open spec fn numbered_identity(n: i32) -> AttIdentity {
    if (n as u8) == 97u8 {
        AttIdentity::Always
    } else {
        AttIdentity::ByDefault
    }
}

/// The change that the first option `generated` from `i` on asks for.
pub open spec fn option_identity(options: Seq<DefElem>, i: int) -> ColumnChange
    decreases options.len() - i,
{
    if i < 0 || i >= options.len() {
        ColumnChange::Nothing
    } else {
        match options[i].arg {
            DefArg::Integer(n) => if options[i].defname@ == "generated"@ {
                ColumnChange::Identity(numbered_identity(n))
            } else {
                option_identity(options, i + 1)
            },
            _ => option_identity(options, i + 1),
        }
    }
}

/// What making a column an identity column does.
pub open spec fn identity_set(c: CatalogView, relid: u32, cmd: AlterTableCmd) -> Step<()> {
    match cmd.def {
        AlterDef::Constraint(con) => if con.contype == ConstrType::Identity {
            column_altered(
                c,
                relid,
                cmd.name@,
                ColumnChange::Identity(sure_identity_kind(con.generated_when@)),
                false,
            )
        } else {
            (Ok(()), c)
        },
        AlterDef::Options(options) => column_altered(
            c,
            relid,
            cmd.name@,
            option_identity(options@, 0),
            false,
        ),
        _ => (Ok(()), c),
    }
}

fn find_option_identity(options: &Vec<DefElem>) -> (r: ColumnChange)
    ensures
        r == option_identity(options@, 0),
{
    let mut i: usize = 0;
    while i < options.len()
        invariant
            i <= options@.len(),
            option_identity(options@, 0) == option_identity(options@, i as int),
        decreases options.len() - i,
    {
        match options[i].arg {
            DefArg::Integer(n) => {
                if same_text(options[i].defname.as_str(), "generated") {
                    let letter: u8 = #[verifier::truncate] (n as u8);
                    return ColumnChange::Identity(
                        if letter == 97 {
                            AttIdentity::Always
                        } else {
                            AttIdentity::ByDefault
                        },
                    );
                }
            },
            _ => {},
        }
        i = i + 1;
    }
    ColumnChange::Nothing
}

pub(crate) fn set_identity(db: &mut PgCatalog, relid: u32, cmd: &AlterTableCmd) -> (r: Result<
    (),
    DdlError,
>)
    ensures
        (ddl_outcome(r), final(db)@) == identity_set(old(db)@, relid, *cmd),
{
    let change: ColumnChange = match &cmd.def {
        AlterDef::Constraint(con) => match con.contype {
            ConstrType::Identity => ColumnChange::Identity(
                find_sure_identity_kind(con.generated_when.as_str()),
            ),
            _ => return Ok(()),
        },
        AlterDef::Options(options) => find_option_identity(options),
        _ => return Ok(()),
    };
    alter_column(db, relid, cmd.name.as_str(), change, false)
}

pub(crate) fn drop_identity(db: &mut PgCatalog, relid: u32, cmd: &AlterTableCmd) -> (r: Result<
    (),
    DdlError,
>)
    ensures
        (ddl_outcome(r), final(db)@) == column_altered(
            old(db)@,
            relid,
            cmd.name@,
            ColumnChange::NoIdentity,
            cmd.missing_ok,
        ),
{
    alter_column(db, relid, cmd.name.as_str(), ColumnChange::NoIdentity, cmd.missing_ok)
}

pub(crate) fn set_not_null(db: &mut PgCatalog, relid: u32, col_name: &str, not_null: bool) -> (r:
    Result<(), DdlError>)
    ensures
        (ddl_outcome(r), final(db)@) == column_altered(
            old(db)@,
            relid,
            col_name@,
            ColumnChange::NotNull(not_null),
            false,
        ),
{
    alter_column(db, relid, col_name, ColumnChange::NotNull(not_null), false)
}

/// The change that `SET DEFAULT` and `DROP DEFAULT` ask for.
pub open spec fn default_change(cmd: AlterTableCmd) -> ColumnChange {
    ColumnChange::HasDefault(!(cmd.def is Missing))
}

pub(crate) fn set_default(db: &mut PgCatalog, relid: u32, cmd: &AlterTableCmd) -> (r: Result<
    (),
    DdlError,
>)
    ensures
        (ddl_outcome(r), final(db)@) == column_altered(
            old(db)@,
            relid,
            cmd.name@,
            default_change(*cmd),
            false,
        ),
{
    let has_default: bool = match &cmd.def {
        AlterDef::Missing => false,
        _ => true,
    };
    alter_column(db, relid, cmd.name.as_str(), ColumnChange::HasDefault(has_default), false)
}

// ── ADD COLUMN ──────────────────────────────────────────────────────────────

/// What adding a column does: it comes behind the others.
pub open spec fn column_added(c: CatalogView, relid: u32, cmd: AlterTableCmd) -> Step<()> {
    match cmd.def {
        AlterDef::Column(cd) => if find_attribute(c.attributes_of(relid), cd.colname@) is Some {
            if cmd.missing_ok {
                (Ok(()), c)
            } else {
                (
                    Err(
                        DdlErrorView::DuplicateObject(
                            "column \""@ + cd.colname@ + "\" of relation already exists"@,
                        ),
                    ),
                    c,
                )
            }
        } else {
            match parsed_column(c, cd, Seq::empty()) {
                Err(e) => (Err(e), c),
                Ok(p) => {
                    let last = last_attnum(c.attributes_of(relid));
                    if last >= MAX_ATTNUM {
                        (Err(too_many_columns()), c)
                    } else {
                        (Ok(()), c.with_attribute(column_row(relid, p, (last + 1) as i16)))
                    }
                },
            }
        },
        _ => (Ok(()), c),
    }
}

pub(crate) fn add_column(db: &mut PgCatalog, relid: u32, cmd: &AlterTableCmd) -> (r: Result<
    (),
    DdlError,
>)
    ensures
        (ddl_outcome(r), final(db)@) == column_added(old(db)@, relid, *cmd),
{
    let cd: &ColumnDef = match &cmd.def {
        AlterDef::Column(cd) => cd,
        _ => return Ok(()),
    };
    let attrs: Vec<PgAttribute> = db.attributes_of(relid);
    if attribute_named(&attrs, cd.colname.as_str()).is_some() {
        if cmd.missing_ok {
            return Ok(());
        }
        return Err(
            DdlError::DuplicateObject(
                concat3("column \"", cd.colname.as_str(), "\" of relation already exists"),
            ),
        );
    }
    let none: Vec<String> = Vec::new();
    proof {
        assert(texts(none@) =~= Seq::empty());
    }
    let col: ParsedColumn = match parse_column_def(db, cd, &none) {
        Ok(p) => p,
        Err(e) => return Err(e),
    };
    let last: i16 = find_last_attnum(&attrs);
    if last >= MAX_ATTNUM {
        return Err(DdlError::Internal("column number overflowed".to_owned()));
    }
    db.insert_pg_attribute(new_column_row(relid, &col, last + 1));
    Ok(())
}

// ── DROP COLUMN ─────────────────────────────────────────────────────────────

/// Whether a column has another name than this.
pub open spec fn unlike(name: Seq<char>) -> spec_fn(PgAttributeView) -> bool {
    |a: PgAttributeView| a.attname != name
}

/// The catalog in which a relation has no column of a name.
pub open spec fn without_column(c: CatalogView, relid: u32, name: Seq<char>) -> CatalogView {
    if has_columns(c, relid) {
        c.with_attributes(relid, c.attributes_of(relid).filter(unlike(name)))
    } else {
        c
    }
}

/// The children of a relation, in the order of the links.
pub open spec fn children_of(links: Seq<PgInherits>, parent: u32) -> Seq<u32>
    decreases links.len(),
{
    if links.len() == 0 {
        Seq::empty()
    } else if links.last().inhparent == parent {
        children_of(links.drop_last(), parent).push(links.last().inhrelid)
    } else {
        children_of(links.drop_last(), parent)
    }
}

/// The number of relations that have a column of a name.
pub open spec fn holders(rows: Seq<RelAttrsView>, name: Seq<char>) -> nat
    decreases rows.len(),
{
    if rows.len() == 0 {
        0
    } else {
        holders(rows.drop_last(), name) + if find_attribute(rows.last().attrs, name) is Some {
            1nat
        } else {
            0nat
        }
    }
}

/// The catalog in which the relations of `pending` have lost the column of a name,
/// and their children with them, and so on. A relation that does not have the
/// column keeps its children as they are.
pub open spec fn children_stripped(
    c: CatalogView,
    pending: Seq<u32>,
    name: Seq<char>,
) -> CatalogView
    decreases holders(c.pg_attribute, name), pending.len(),
    via children_stripped_ends
{
    if pending.len() == 0 {
        c
    } else {
        let child = pending[0];
        let rest = pending.skip(1);
        if find_attribute(c.attributes_of(child), name) is Some {
            let c1 = without_column(c, child, name);
            children_stripped(c1, children_of(c1.pg_inherits, child) + rest, name)
        } else {
            children_stripped(c, rest, name)
        }
    }
}

#[via_fn]
proof fn children_stripped_ends(c: CatalogView, pending: Seq<u32>, name: Seq<char>) {
    if pending.len() > 0 && find_attribute(c.attributes_of(pending[0]), name) is Some {
        lemma_fewer_holders(c, pending[0], name);
    }
}

pub proof fn lemma_fewer_holders(c: CatalogView, relid: u32, name: Seq<char>)
    requires
        find_attribute(c.attributes_of(relid), name) is Some,
    ensures
        holders(without_column(c, relid, name).pg_attribute, name) < holders(
            c.pg_attribute,
            name,
        ),
{
    let rows = c.pg_attribute;
    crate::table::lemma_row_position_meaning::<RelAttrs>(rows, relid);
    let i = row_position::<RelAttrs>(rows, relid);
    let kept = c.attributes_of(relid).filter(unlike(name));
    lemma_none_left(c.attributes_of(relid), name);
    lemma_holders_update(rows, i, RelAttrsView { relid, attrs: kept }, name);
}

pub proof fn lemma_absent(attrs: Seq<PgAttributeView>, name: Seq<char>)
    requires
        forall|i: int| 0 <= i < attrs.len() ==> (#[trigger] attrs[i]).attname != name,
    ensures
        find_attribute(attrs, name) is None,
    decreases attrs.len(),
{
    if attrs.len() > 0 {
        lemma_absent(attrs.drop_first(), name);
    }
}

pub proof fn lemma_none_left(attrs: Seq<PgAttributeView>, name: Seq<char>)
    ensures
        find_attribute(attrs.filter(unlike(name)), name) is None,
{
    let kept = attrs.filter(unlike(name));
    broadcast use vstd::seq_lib::group_filter_ensures;

    assert forall|i: int| 0 <= i < kept.len() implies (#[trigger] kept[i]).attname != name by {
        assert(unlike(name)(kept[i]));
    }
    lemma_absent(kept, name);
}

proof fn lemma_holders_update(rows: Seq<RelAttrsView>, i: int, row: RelAttrsView, name: Seq<char>)
    requires
        0 <= i < rows.len(),
        find_attribute(rows[i].attrs, name) is Some,
        find_attribute(row.attrs, name) is None,
    ensures
        holders(rows.update(i, row), name) + 1 == holders(rows, name),
    decreases rows.len(),
{
    let after = rows.update(i, row);
    if i == rows.len() - 1 {
        assert(after.drop_last() =~= rows.drop_last());
    } else {
        assert(after.drop_last() =~= rows.drop_last().update(i, row));
        assert(after.last() == rows.last());
        lemma_holders_update(rows.drop_last(), i, row, name);
    }
}

fn remove_column(db: &mut PgCatalog, relid: u32, name: &str)
    ensures
        final(db)@ == without_column(old(db)@, relid, name@),
{
    if db.pg_attribute.has(relid) {
        let attrs: Vec<PgAttribute> = db.attributes_of(relid);
        let ghost views = attr_views(attrs@);
        let ghost wanted = unlike(name@);
        let mut kept: Vec<PgAttribute> = Vec::new();
        let mut i: usize = 0;
        proof {
            reveal(Seq::filter);
            assert(attr_views(kept@) =~= views.take(0).filter(wanted));
        }
        while i < attrs.len()
            invariant
                views == attr_views(attrs@),
                wanted == unlike(name@),
                i <= attrs@.len(),
                attr_views(kept@) == views.take(i as int).filter(wanted),
            decreases attrs.len() - i,
        {
            proof {
                reveal(Seq::filter);
                assert(views.take(i + 1).drop_last() =~= views.take(i as int));
                assert(views.take(i + 1).last() == attrs@[i as int]@);
            }
            if !same_text(attrs[i].attname.as_str(), name) {
                let ghost before = attr_views(kept@);
                let a: PgAttribute = attrs[i].copy();
                kept.push(a);
                proof {
                    assert(attr_views(kept@) =~= before.push(attrs@[i as int]@));
                }
            }
            i = i + 1;
        }
        proof {
            assert(views.take(i as int) =~= views);
        }
        db.set_attributes(relid, kept);
    }
}

fn find_children(db: &PgCatalog, parent: u32) -> (r: Vec<u32>)
    ensures
        r@ == children_of(db@.pg_inherits, parent),
{
    let ghost links = db@.pg_inherits;
    let mut r: Vec<u32> = Vec::new();
    let mut i: usize = 0;
    while i < db.pg_inherits.len()
        invariant
            links == db@.pg_inherits,
            i <= links.len(),
            r@ == children_of(links.take(i as int), parent),
        decreases links.len() - i,
    {
        proof {
            assert(links.take(i + 1).drop_last() =~= links.take(i as int));
        }
        if db.pg_inherits[i].inhparent == parent {
            r.push(db.pg_inherits[i].inhrelid);
        }
        i = i + 1;
    }
    proof {
        assert(links.take(i as int) =~= links);
    }
    r
}

/// Takes a column from the children of a relation, and from theirs.
fn cascade_drop_column_to_children(db: &mut PgCatalog, parent: u32, name: &str)
    ensures
        final(db)@ == children_stripped(
            old(db)@,
            children_of(old(db)@.pg_inherits, parent),
            name@,
        ),
{
    let mut pending: Vec<u32> = find_children(db, parent);
    let ghost start = pending@;
    while pending.len() > 0
        invariant
            children_stripped(old(db)@, start, name@) == children_stripped(
                db@,
                pending@,
                name@,
            ),
        decreases holders(db@.pg_attribute, name@), pending@.len(),
    {
        let ghost before = pending@;
        let child: u32 = pending.remove(0);
        proof {
            assert(pending@ =~= before.skip(1));
        }
        let attrs: Vec<PgAttribute> = db.attributes_of(child);
        if attribute_named(&attrs, name).is_some() {
            proof {
                lemma_fewer_holders(db@, child, name@);
            }
            remove_column(db, child, name);
            let mut next: Vec<u32> = find_children(db, child);
            next.append(&mut pending);
            pending = next;
        }
    }
}

/// The labels of the relations in a list whose schema has a name.
pub open spec fn placed_labels(c: CatalogView, oids: Seq<u32>) -> Seq<Seq<char>>
    decreases oids.len(),
{
    if oids.len() == 0 {
        Seq::empty()
    } else {
        let rest = placed_labels(c, oids.drop_last());
        match c.get_class(oids.last()) {
            Some(k) => match c.namespace_name(k.relnamespace) {
                Some(ns) => rest.push(ns + "."@ + k.relname),
                None => rest,
            },
            None => rest,
        }
    }
}

/// The name of a relation, or nothing.
pub open spec fn plain_relname(c: CatalogView, relid: u32) -> Seq<char> {
    match c.get_class(relid) {
        Some(k) => k.relname,
        None => Seq::empty(),
    }
}

/// Whether a constraint is on a column, or refers to it.
pub open spec fn constrains(k: PgConstraintView, relid: u32, attnum: i16) -> bool {
    k.conrelid == relid && k.conkey.contains(attnum)
}

pub open spec fn refers_to(k: PgConstraintView, relid: u32, attnum: i16) -> bool {
    k.contype == ConType::ForeignKey && k.confrelid == Some(relid) && k.confkey.contains(attnum)
}

/// The names of the constraints on a column and of those that refer to it.
pub open spec fn blocking_constraints(rows: Seq<PgConstraintView>, relid: u32, attnum: i16) -> Seq<
    Seq<char>,
>
    decreases rows.len(),
{
    if rows.len() == 0 {
        Seq::empty()
    } else {
        let k = rows.last();
        let rest = blocking_constraints(rows.drop_last(), relid, attnum);
        let with_own = if constrains(k, relid, attnum) {
            rest.push(k.conname)
        } else {
            rest
        };
        if refers_to(k, relid, attnum) {
            with_own.push(k.conname)
        } else {
            with_own
        }
    }
}

/// The constraints on a column and those that refer to it.
pub open spec fn column_constraints(
    rows: Seq<PgConstraintView>,
    relid: u32,
    attnum: i16,
) -> Seq<u32>
    decreases rows.len(),
{
    if rows.len() == 0 {
        Seq::empty()
    } else {
        let rest = column_constraints(rows.drop_last(), relid, attnum);
        if constrains(rows.last(), relid, attnum) || refers_to(rows.last(), relid, attnum) {
            rest.push(rows.last().oid)
        } else {
            rest
        }
    }
}

/// The indexes over a column.
pub open spec fn column_indexes(rows: Seq<PgIndexView>, relid: u32, attnum: i16) -> Seq<u32>
    decreases rows.len(),
{
    if rows.len() == 0 {
        Seq::empty()
    } else {
        let rest = column_indexes(rows.drop_last(), relid, attnum);
        if rows.last().indrelid == relid && rows.last().indkey.contains(attnum) {
            rest.push(rows.last().indexrelid)
        } else {
            rest
        }
    }
}

/// The names of indexes that are not among the names of constraints.
pub open spec fn blocking_indexes(c: CatalogView, oids: Seq<u32>, known: Seq<Seq<char>>) -> Seq<
    Seq<char>,
>
    decreases oids.len(),
{
    if oids.len() == 0 {
        Seq::empty()
    } else {
        let rest = blocking_indexes(c, oids.drop_last(), known);
        match c.get_class(oids.last()) {
            Some(k) => if known.contains(k.relname) {
                rest
            } else {
                rest.push(k.relname)
            },
            None => rest,
        }
    }
}

/// What is named as being in the way of dropping a column: constraints, then
/// indexes.
pub open spec fn blockers(c: CatalogView, relid: u32, attnum: i16) -> Seq<Seq<char>> {
    let known = blocking_constraints(c.pg_constraint, relid, attnum);
    known + blocking_indexes(c, column_indexes(c.pg_index, relid, attnum), known)
}

/// The catalog without the first `n` of these indexes.
pub open spec fn without_indexes(c: CatalogView, oids: Seq<u32>, n: int) -> CatalogView
    decreases n,
{
    if n <= 0 {
        c
    } else {
        without_indexes(c, oids, n - 1).without_index(oids[n - 1]).without_class(
            oids[n - 1],
        ).without_dependencies(PG_CLASS_RELID, oids[n - 1])
    }
}

/// The catalog without what is in the way of dropping a column.
pub open spec fn unblocked(c: CatalogView, relid: u32, attnum: i16) -> CatalogView {
    if blockers(c, relid, attnum).len() == 0 {
        c
    } else {
        let keys = column_constraints(c.pg_constraint, relid, attnum);
        let indexes = column_indexes(c.pg_index, relid, attnum);
        without_indexes(
            super::drop::without_constraints(c, keys, keys.len() as int),
            indexes,
            indexes.len() as int,
        )
    }
}

/// The error for a column that something depends on.
pub open spec fn column_depended_on(
    c: CatalogView,
    relid: u32,
    name: Seq<char>,
    what: Seq<char>,
    who: Seq<Seq<char>>,
) -> DdlErrorView {
    DdlErrorView::DependencyError(
        "cannot drop column "@ + plain_relname(c, relid) + "."@ + name + " because "@ + what
            + " "@ + joined(who, ", "@) + " depend on it"@,
    )
}

/// What dropping a column does. The children of the relation lose the column too.
pub open spec fn column_dropped(c: CatalogView, relid: u32, cmd: AlterTableCmd) -> Step<()> {
    let name = cmd.name@;
    let views = views_on_column(c, relid, name);
    match find_attribute(c.attributes_of(relid), name) {
        None => if cmd.missing_ok {
            (Ok(()), c)
        } else {
            (Err(no_such_column(name)), c)
        },
        Some(a) => if views.len() > 0 && !cmd.cascade {
            (Err(column_depended_on(c, relid, name, "view(s)"@, placed_labels(c, views))), c)
        } else if blockers(c, relid, a.attnum).len() > 0 && !cmd.cascade {
            (
                Err(
                    column_depended_on(
                        c,
                        relid,
                        name,
                        "constraint(s)"@,
                        blockers(c, relid, a.attnum),
                    ),
                ),
                c,
            )
        } else {
            let c1 = unblocked(c, relid, a.attnum);
            let c2 = if views.len() > 0 {
                views_dropped(c1, views, Seq::empty())
            } else {
                c1
            };
            let c3 = without_column(c2, relid, name);
            (Ok(()), children_stripped(c3, children_of(c3.pg_inherits, relid), name))
        },
    }
}

pub(crate) fn format_placed(db: &PgCatalog, oids: &Vec<u32>) -> (r: Vec<String>)
    ensures
        texts(r@) == placed_labels(db@, oids@),
{
    let mut r: Vec<String> = Vec::new();
    let mut i: usize = 0;
    proof {
        assert(texts(r@) =~= Seq::empty());
    }
    while i < oids.len()
        invariant
            i <= oids@.len(),
            texts(r@) == placed_labels(db@, oids@.take(i as int)),
        decreases oids.len() - i,
    {
        proof {
            assert(oids@.take(i + 1).drop_last() =~= oids@.take(i as int));
        }
        match db.get_class(oids[i]) {
            Some(k) => match db.namespace_name(k.relnamespace) {
                Some(ns) => {
                    let ghost before = texts(r@);
                    let label: String = concat3(ns, ".", k.relname.as_str());
                    r.push(label);
                    proof {
                        assert(texts(r@) =~= before.push(label@));
                    }
                },
                None => {},
            },
            None => {},
        }
        i = i + 1;
    }
    proof {
        assert(oids@.take(i as int) =~= oids@);
    }
    r
}

pub(crate) fn find_plain_relname(db: &PgCatalog, relid: u32) -> (r: String)
    ensures
        r@ == plain_relname(db@, relid),
{
    match db.get_class(relid) {
        Some(k) => k.relname.clone(),
        None => String::new(),
    }
}

fn has_attnum(v: &Vec<i16>, n: i16) -> (r: bool)
    ensures
        r == v@.contains(n),
{
    let mut i: usize = 0;
    while i < v.len()
        invariant
            i <= v@.len(),
            forall|j: int| 0 <= j < i ==> v@[j] != n,
        decreases v.len() - i,
    {
        if v[i] == n {
            return true;
        }
        i = i + 1;
    }
    false
}

fn is_constraint_on(k: &PgConstraint, relid: u32, attnum: i16) -> (r: bool)
    ensures
        r == constrains(k@, relid, attnum),
{
    k.conrelid == relid && has_attnum(&k.conkey, attnum)
}

fn is_reference_to(k: &PgConstraint, relid: u32, attnum: i16) -> (r: bool)
    ensures
        r == refers_to(k@, relid, attnum),
{
    let foreign: bool = match k.contype {
        ConType::ForeignKey => true,
        _ => false,
    };
    let here: bool = match k.confrelid {
        Some(oid) => oid == relid,
        None => false,
    };
    foreign && here && has_attnum(&k.confkey, attnum)
}

fn find_column_constraints(db: &PgCatalog, relid: u32, attnum: i16) -> (r: (Vec<u32>, Vec<String>))
    ensures
        r.0@ == column_constraints(db@.pg_constraint, relid, attnum),
        texts(r.1@) == blocking_constraints(db@.pg_constraint, relid, attnum),
{
    let ghost rows = db@.pg_constraint;
    let mut oids: Vec<u32> = Vec::new();
    let mut names: Vec<String> = Vec::new();
    let mut i: usize = 0;
    proof {
        assert(texts(names@) =~= Seq::empty());
    }
    while i < db.pg_constraint.len()
        invariant
            rows == db@.pg_constraint,
            i <= rows.len(),
            oids@ == column_constraints(rows.take(i as int), relid, attnum),
            texts(names@) == blocking_constraints(rows.take(i as int), relid, attnum),
        decreases rows.len() - i,
    {
        let k: &PgConstraint = db.pg_constraint.at(i);
        proof {
            assert(rows.take(i + 1).drop_last() =~= rows.take(i as int));
            assert(rows.take(i + 1).last() == k@);
        }
        let own: bool = is_constraint_on(k, relid, attnum);
        let reference: bool = is_reference_to(k, relid, attnum);
        if own || reference {
            oids.push(k.oid);
        }
        if own {
            let ghost before = texts(names@);
            names.push(k.conname.clone());
            proof {
                assert(texts(names@) =~= before.push(k@.conname));
            }
        }
        if reference {
            let ghost before = texts(names@);
            names.push(k.conname.clone());
            proof {
                assert(texts(names@) =~= before.push(k@.conname));
            }
        }
        i = i + 1;
    }
    proof {
        assert(rows.take(i as int) =~= rows);
    }
    (oids, names)
}

fn find_column_indexes(db: &PgCatalog, relid: u32, attnum: i16) -> (r: Vec<u32>)
    ensures
        r@ == column_indexes(db@.pg_index, relid, attnum),
{
    let ghost rows = db@.pg_index;
    let mut r: Vec<u32> = Vec::new();
    let mut i: usize = 0;
    while i < db.pg_index.len()
        invariant
            rows == db@.pg_index,
            i <= rows.len(),
            r@ == column_indexes(rows.take(i as int), relid, attnum),
        decreases rows.len() - i,
    {
        let k: &PgIndex = db.pg_index.at(i);
        proof {
            assert(rows.take(i + 1).drop_last() =~= rows.take(i as int));
            assert(rows.take(i + 1).last() == k@);
        }
        if k.indrelid == relid && has_attnum(&k.indkey, attnum) {
            r.push(k.indexrelid);
        }
        i = i + 1;
    }
    proof {
        assert(rows.take(i as int) =~= rows);
    }
    r
}

fn find_blocking_indexes(db: &PgCatalog, oids: &Vec<u32>, known: &Vec<String>) -> (r: Vec<String>)
    ensures
        texts(r@) == blocking_indexes(db@, oids@, texts(known@)),
{
    let mut r: Vec<String> = Vec::new();
    let mut i: usize = 0;
    proof {
        assert(texts(r@) =~= Seq::empty());
    }
    while i < oids.len()
        invariant
            i <= oids@.len(),
            texts(r@) == blocking_indexes(db@, oids@.take(i as int), texts(known@)),
        decreases oids.len() - i,
    {
        proof {
            assert(oids@.take(i + 1).drop_last() =~= oids@.take(i as int));
        }
        match db.get_class(oids[i]) {
            Some(k) => {
                if !has_text(known, k.relname.as_str()) {
                    let ghost before = texts(r@);
                    r.push(k.relname.clone());
                    proof {
                        assert(texts(r@) =~= before.push(k@.relname));
                    }
                }
            },
            None => {},
        }
        i = i + 1;
    }
    proof {
        assert(oids@.take(i as int) =~= oids@);
    }
    r
}

fn remove_indexes(db: &mut PgCatalog, oids: &Vec<u32>)
    ensures
        final(db)@ == without_indexes(old(db)@, oids@, oids@.len() as int),
{
    let mut i: usize = 0;
    while i < oids.len()
        invariant
            i <= oids@.len(),
            db@ == without_indexes(old(db)@, oids@, i as int),
        decreases oids.len() - i,
    {
        db.remove_pg_index(oids[i]);
        let _row: Option<PgClass> = db.remove_pg_class(oids[i]);
        db.remove_dependencies(PG_CLASS_RELID, oids[i]);
        i = i + 1;
    }
}

fn column_depended_on_error(
    db: &PgCatalog,
    relid: u32,
    name: &str,
    what: &str,
    who: &Vec<String>,
) -> (r:
    DdlError)
    ensures
        r@ == column_depended_on(db@, relid, name@, what@, texts(who@)),
{
    let relname: String = find_plain_relname(db, relid);
    let list: String = join(who, ", ");
    let head: String = concat5("cannot drop column ", relname.as_str(), ".", name, " because ");
    DdlError::DependencyError(concat5(head.as_str(), what, " ", list.as_str(), " depend on it"))
}

/// Takes out what is in the way of dropping a column, or says that it is.
fn unblock_column(
    db: &mut PgCatalog,
    relid: u32,
    name: &str,
    attnum: i16,
    cascade: bool,
) -> (r: Result<
    (),
    DdlError,
>)
    ensures
        (ddl_outcome(r), final(db)@) == (if blockers(old(db)@, relid, attnum).len() > 0
            && !cascade {
            (
                Err(
                    column_depended_on(
                        old(db)@,
                        relid,
                        name@,
                        "constraint(s)"@,
                        blockers(old(db)@, relid, attnum),
                    ),
                ),
                old(db)@,
            )
        } else {
            (Ok(()), unblocked(old(db)@, relid, attnum))
        }),
{
    let (keys, mut names): (Vec<u32>, Vec<String>) = find_column_constraints(db, relid, attnum);
    let indexes: Vec<u32> = find_column_indexes(db, relid, attnum);
    let mut more: Vec<String> = find_blocking_indexes(db, &indexes, &names);
    let ghost known = texts(names@);
    let ghost others = texts(more@);
    names.append(&mut more);
    proof {
        assert(texts(names@) =~= known + others);
    }
    if names.len() == 0 {
        return Ok(());
    }
    if !cascade {
        return Err(column_depended_on_error(db, relid, name, "constraint(s)", &names));
    }
    super::drop::remove_constraints(db, &keys);
    remove_indexes(db, &indexes);
    Ok(())
}

pub(crate) fn drop_column(db: &mut PgCatalog, relid: u32, cmd: &AlterTableCmd) -> (r: Result<
    (),
    DdlError,
>)
    ensures
        (ddl_outcome(r), final(db)@) == column_dropped(old(db)@, relid, *cmd),
{
    let name: &str = cmd.name.as_str();
    let attrs: Vec<PgAttribute> = db.attributes_of(relid);
    let attnum: i16 = match attribute_named(&attrs, name) {
        Some(a) => a.attnum,
        None => {
            if cmd.missing_ok {
                return Ok(());
            }
            return Err(
                DdlError::Parse(concat3("column \"", name, "\" of relation does not exist")),
            );
        },
    };
    let views: Vec<u32> = find_views_depending_on_column(db, relid, name);
    if views.len() > 0 && !cmd.cascade {
        let labels: Vec<String> = format_placed(db, &views);
        return Err(column_depended_on_error(db, relid, name, "view(s)", &labels));
    }
    match unblock_column(db, relid, name, attnum, cmd.cascade) {
        Ok(_) => {},
        Err(e) => return Err(e),
    }
    if views.len() > 0 {
        drop_views(db, &views);
    }
    remove_column(db, relid, name);
    cascade_drop_column_to_children(db, relid, name);
    Ok(())
}

// ── ALTER COLUMN TYPE ───────────────────────────────────────────────────────

/// Why the type of a column that views depend on cannot change.
pub open spec fn type_in_use(
    c: CatalogView,
    relid: u32,
    name: Seq<char>,
    views: Seq<u32>,
    same_form: bool,
) -> DdlErrorView {
    DdlErrorView::DependencyError(
        "cannot alter type of column "@ + plain_relname(c, relid) + "."@ + name
            + " because view(s) "@ + joined(placed_labels(c, views), ", "@) + (if same_form {
            " depend on it"@
        } else {
            " depend on it and the new type is not binary coercible with the old one"@
        }) + " (hint: drop the view(s) first, alter the column, then recreate)"@,
    )
}

/// What changing the type of a column does. It fails where the modifier of the type is
/// none, and where a view depends on the column; with `CASCADE` such views are dropped,
/// and the views that depend on them.
pub open spec fn column_retyped(c: CatalogView, relid: u32, cmd: AlterTableCmd) -> Step<()> {
    match cmd.def {
        AlterDef::Column(cd) => {
            let name = cmd.name@;
            let target = match opt_named_type(c, cd.target) {
                Some(t) => t,
                None => UNKNOWN,
            };
            let views = views_on_column(c, relid, name);
            match modifier_of(cd.target) {
                Err(e) => (Err(e), c),
                Ok(typmod) => match find_attribute(c.attributes_of(relid), name) {
                    None => (Err(no_such_column(name)), c),
                    Some(a) => if views.len() > 0 && !cmd.cascade {
                        (
                            Err(
                                type_in_use(
                                    c,
                                    relid,
                                    name,
                                    views,
                                    c.is_binary_coercible(a.atttypid, target),
                                ),
                            ),
                            c,
                        )
                    } else {
                        let c1 = if views.len() > 0 {
                            views_dropped(c, views, Seq::empty())
                        } else {
                            c
                        };
                        (
                            Ok(()),
                            with_column_changed(
                                c1,
                                relid,
                                name,
                                ColumnChange::Retyped(target, typmod),
                            ),
                        )
                    },
                },
            }
        },
        _ => (Ok(()), c),
    }
}

fn type_in_use_error(
    db: &PgCatalog,
    relid: u32,
    name: &str,
    views: &Vec<u32>,
    same_form: bool,
) -> (r: DdlError)
    ensures
        r@ == type_in_use(db@, relid, name@, views@, same_form),
{
    let relname: String = find_plain_relname(db, relid);
    let labels: Vec<String> = format_placed(db, views);
    let list: String = join(&labels, ", ");
    let head: String = concat5(
        "cannot alter type of column ",
        relname.as_str(),
        ".",
        name,
        " because view(s) ",
    );
    let reason: &str = if same_form {
        " depend on it"
    } else {
        " depend on it and the new type is not binary coercible with the old one"
    };
    DdlError::DependencyError(
        concat4(
            head.as_str(),
            list.as_str(),
            reason,
            " (hint: drop the view(s) first, alter the column, then recreate)",
        ),
    )
}

pub(crate) fn alter_column_type(db: &mut PgCatalog, relid: u32, cmd: &AlterTableCmd) -> (r: Result<
    (),
    DdlError,
>)
    ensures
        (ddl_outcome(r), final(db)@) == column_retyped(old(db)@, relid, *cmd),
{
    let cd: &ColumnDef = match &cmd.def {
        AlterDef::Column(cd) => cd,
        _ => return Ok(()),
    };
    let name: &str = cmd.name.as_str();
    let target: u32 = match resolve_opt_type(&cd.target, db) {
        Some(t) => t,
        None => UNKNOWN,
    };
    let typmod: Option<i32> = match read_modifier(&cd.target) {
        Ok(m) => m,
        Err(e) => return Err(e),
    };
    let attrs: Vec<PgAttribute> = db.attributes_of(relid);
    let old_type: u32 = match attribute_named(&attrs, name) {
        Some(a) => a.atttypid,
        None => return Err(
            DdlError::Parse(concat3("column \"", name, "\" of relation does not exist")),
        ),
    };
    let views: Vec<u32> = find_views_depending_on_column(db, relid, name);
    if views.len() > 0 {
        if !cmd.cascade {
            let same_form: bool = db.is_binary_coercible(old_type, target);
            return Err(type_in_use_error(db, relid, name, &views, same_form));
        }
        drop_views(db, &views);
    }
    let _found: bool = change_column(db, relid, name, ColumnChange::Retyped(target, typmod));
    Ok(())
}

} // verus!

//! What `ALTER TABLE` does to columns and constraints.

use super::alter::{column_renamed, constraint_renamed, relation_renamed};
use super::alter_column::{
    changed, column_altered, column_position, default_change, with_column_changed, ColumnChange,
};
use super::alter_table::{
    command_applied, commands_applied, constraint_named, not_null_where, with_not_null,
};
use super::constraints::{
    constraint_row, local_pending, numbers_of, with_backed_constraint, with_constraint_row,
    PendingView,
};
use super::laws::lemma_last_attnum;
use super::stmt::{
    AlterDef, AlterTableCmd, AlterTableType, ColumnDef, ConstrType, Constraint, RenameStmt,
};
use super::table_laws::{constrained, fills_itself, lemma_flags, later};
use super::tables::{column_row, initial_flags, last_attnum, parsed_column};
use super::util::{opt_named_type, range_names};
use super::DdlErrorView;
use crate::catalog::{attr_inserted, CatalogView};
use crate::catalog_laws::{law_dropped_row_is_gone, law_put_row_is_found};
use crate::lookup::find_attribute;
use crate::pg_catalog::{
    AttIdentity, ConType, PgAttributeView, PgConstraint, PgConstraintView, RelAttrs, RelAttrsView,
    RelKind,
};
use crate::table::{distinct_keys, row_get};
use crate::text::texts;
use vstd::prelude::*;

verus! {

/// A relation has a column of a name, its first one, at a position.
pub open spec fn column_at(c: CatalogView, relid: u32, name: Seq<char>, k: int) -> bool {
    &&& row_get::<RelAttrs>(c.pg_attribute, relid) is Some
    &&& 0 <= k < c.attributes_of(relid).len()
    &&& c.attributes_of(relid)[k].attname == name
    &&& forall|j: int| 0 <= j < k ==> (#[trigger] c.attributes_of(relid)[j]).attname != name
}

/// Of two catalogs the second has another column at a position of a relation, and is else
/// as the first.
pub open spec fn differs_in_column(
    before: CatalogView,
    after: CatalogView,
    relid: u32,
    k: int,
    a: PgAttributeView,
) -> bool {
    &&& after == (CatalogView { pg_attribute: after.pg_attribute, ..before })
    &&& after.attributes_of(relid) == before.attributes_of(relid).update(k, a)
    &&& forall|other: u32|
        other != relid ==> #[trigger] after.attributes_of(other) == before.attributes_of(other)
}

proof fn lemma_position(attrs: Seq<PgAttributeView>, name: Seq<char>, k: int)
    requires
        0 <= k < attrs.len(),
        attrs[k].attname == name,
        forall|j: int| 0 <= j < k ==> (#[trigger] attrs[j]).attname != name,
    ensures
        column_position(attrs, name) == k,
        find_attribute(attrs, name) == Some(attrs[k]),
    decreases k,
{
    if k > 0 {
        assert(attrs[0].attname != name);
        let rest = attrs.drop_first();
        assert forall|j: int| 0 <= j < k - 1 implies (#[trigger] rest[j]).attname != name by {
            assert(attrs[j + 1].attname != name);
        }
        lemma_position(rest, name, k - 1);
    }
}

proof fn lemma_changed(c: CatalogView, relid: u32, name: Seq<char>, change: ColumnChange, k: int)
    requires
        column_at(c, relid, name, k),
    ensures
        differs_in_column(
            c,
            with_column_changed(c, relid, name, change),
            relid,
            k,
            changed(c.attributes_of(relid)[k], change),
        ),
        column_altered(c, relid, name, change, false) == (
            Ok::<(), DdlErrorView>(()),
            with_column_changed(c, relid, name, change),
        ),
        column_altered(c, relid, name, change, true) == (
            Ok::<(), DdlErrorView>(()),
            with_column_changed(c, relid, name, change),
        ),
{
    let attrs = c.attributes_of(relid);
    lemma_position(attrs, name, k);
    let row = RelAttrsView { relid, attrs: attrs.update(k, changed(attrs[k], change)) };
    let after = with_column_changed(c, relid, name, change);
    law_put_row_is_found::<RelAttrs>(c.pg_attribute, row, relid);
    assert forall|other: u32| other != relid implies #[trigger] after.attributes_of(other)
        == c.attributes_of(other) by {
        law_put_row_is_found::<RelAttrs>(c.pg_attribute, row, other);
    }
}

/// `SET NOT NULL` makes the column never null, `DROP NOT NULL` lets it be null, and nothing
/// else changes.
pub proof fn law_not_null_is_set_and_dropped(
    c: CatalogView,
    relid: u32,
    cmd: AlterTableCmd,
    k: int,
)
    requires
        cmd.subtype == AlterTableType::SetNotNull || cmd.subtype == AlterTableType::DropNotNull,
        column_at(c, relid, cmd.name@, k),
    ensures
        command_applied(c, relid, cmd).0 is Ok,
        differs_in_column(
            c,
            command_applied(c, relid, cmd).1,
            relid,
            k,
            PgAttributeView {
                attnotnull: cmd.subtype == AlterTableType::SetNotNull,
                ..c.attributes_of(relid)[k]
            },
        ),
{
    lemma_changed(c, relid, cmd.name@, ColumnChange::NotNull(true), k);
    lemma_changed(c, relid, cmd.name@, ColumnChange::NotNull(false), k);
}

/// `SET DEFAULT` notes that the column has a default, `DROP DEFAULT` that it has none.
pub proof fn law_default_is_set_and_dropped(
    c: CatalogView,
    relid: u32,
    cmd: AlterTableCmd,
    k: int,
)
    requires
        cmd.subtype == AlterTableType::ColumnDefault,
        column_at(c, relid, cmd.name@, k),
    ensures
        command_applied(c, relid, cmd).0 is Ok,
        differs_in_column(
            c,
            command_applied(c, relid, cmd).1,
            relid,
            k,
            PgAttributeView { atthasdef: !(cmd.def is Missing), ..c.attributes_of(relid)[k] },
        ),
{
    lemma_changed(c, relid, cmd.name@, default_change(cmd), k);
}

/// A column that becomes an identity column is never null and fills itself; one that is no
/// longer one keeps both.
pub proof fn law_identity_is_set_and_dropped(
    c: CatalogView,
    relid: u32,
    cmd: AlterTableCmd,
    k: int,
)
    requires
        column_at(c, relid, cmd.name@, k),
    ensures
        cmd.subtype == AlterTableType::AddIdentity && (cmd.def matches AlterDef::Constraint(con)
            && con.contype == ConstrType::Identity) ==> command_applied(c, relid, cmd).0 is Ok
            && differs_in_column(
            c,
            command_applied(c, relid, cmd).1,
            relid,
            k,
            PgAttributeView {
                attidentity: Some(
                    if cmd.def->Constraint_0.generated_when@ == "a"@ {
                        AttIdentity::Always
                    } else {
                        AttIdentity::ByDefault
                    },
                ),
                attnotnull: true,
                atthasdef: true,
                ..c.attributes_of(relid)[k]
            },
        ),
        cmd.subtype == AlterTableType::DropIdentity ==> command_applied(c, relid, cmd).0 is Ok
            && differs_in_column(
            c,
            command_applied(c, relid, cmd).1,
            relid,
            k,
            PgAttributeView { attidentity: None, ..c.attributes_of(relid)[k] },
        ),
{
    lemma_changed(c, relid, cmd.name@, ColumnChange::NoIdentity, k);
    if let AlterDef::Constraint(con) = cmd.def {
        lemma_changed(
            c,
            relid,
            cmd.name@,
            ColumnChange::Identity(super::tables::sure_identity_kind(con.generated_when@)),
            k,
        );
    }
}

/// A column that no view depends on gets the type that is written, and keeps the rest.
pub proof fn law_column_gets_its_new_type(
    c: CatalogView,
    relid: u32,
    cmd: AlterTableCmd,
    cd: ColumnDef,
    modifier: Option<i32>,
    k: int,
)
    requires
        cmd.subtype == AlterTableType::AlterColumnType,
        cmd.def == AlterDef::Column(cd),
        cd.target matches Some(t) && t.typmod matches Ok(m) && m == modifier,
        super::dependents::views_on_column(c, relid, cmd.name@).len() == 0,
        column_at(c, relid, cmd.name@, k),
    ensures
        command_applied(c, relid, cmd).0 is Ok,
        differs_in_column(
            c,
            command_applied(c, relid, cmd).1,
            relid,
            k,
            PgAttributeView {
                atttypid: match opt_named_type(c, cd.target) {
                    Some(t) => t,
                    None => 705,
                },
                atttypmod: modifier,
                ..c.attributes_of(relid)[k]
            },
        ),
{
    let target = match opt_named_type(c, cd.target) {
        Some(t) => t,
        None => 705,
    };
    lemma_position(c.attributes_of(relid), cmd.name@, k);
    lemma_changed(c, relid, cmd.name@, ColumnChange::Retyped(target, modifier), k);
}

/// A command on a column that is not there is an error, and changes nothing.
pub proof fn law_missing_column_is_an_error(c: CatalogView, relid: u32, cmd: AlterTableCmd)
    requires
        cmd.subtype == AlterTableType::SetNotNull || cmd.subtype == AlterTableType::DropNotNull
            || cmd.subtype == AlterTableType::ColumnDefault,
        forall|j: int|
            0 <= j < c.attributes_of(relid).len() ==> (
            #[trigger] c.attributes_of(relid)[j]).attname != cmd.name@,
    ensures
        command_applied(c, relid, cmd).0 is Err,
        command_applied(c, relid, cmd).1 == c,
{
    lemma_no_position(c.attributes_of(relid), cmd.name@);
}

proof fn lemma_no_position(attrs: Seq<PgAttributeView>, name: Seq<char>)
    requires
        forall|j: int| 0 <= j < attrs.len() ==> (#[trigger] attrs[j]).attname != name,
    ensures
        column_position(attrs, name) == attrs.len(),
        find_attribute(attrs, name) is None,
    decreases attrs.len(),
{
    if attrs.len() > 0 {
        assert(attrs[0].attname != name);
        let rest = attrs.drop_first();
        assert forall|j: int| 0 <= j < rest.len() implies (#[trigger] rest[j]).attname != name by {
            assert(attrs[j + 1].attname != name);
        }
        lemma_no_position(rest, name);
    }
}

/// A column that is added stands behind the others, as its definition says: it is never null
/// just where its definition makes it so.
pub proof fn law_added_column_is_as_defined(
    c: CatalogView,
    relid: u32,
    cmd: AlterTableCmd,
    cd: ColumnDef,
)
    requires
        cmd.subtype == AlterTableType::AddColumn,
        cmd.def == AlterDef::Column(cd),
        forall|j: int|
            0 <= j < c.attributes_of(relid).len() ==> (
            #[trigger] c.attributes_of(relid)[j]).attname != cd.colname@,
        command_applied(c, relid, cmd).0 is Ok,
    ensures
        ({
            let attrs = c.attributes_of(relid);
            let after = command_applied(c, relid, cmd).1.attributes_of(relid);
            let a = after[attrs.len() as int];
            &&& after.len() == attrs.len() + 1
            &&& after.take(attrs.len() as int) == attrs
            &&& a.attrelid == relid
            &&& a.attname == cd.colname@
            &&& match opt_named_type(c, cd.target) {
                Some(t) => a.atttypid == t,
                None => a.atttypid == 705,
            }
            &&& a.attnotnull <==> cd.is_not_null || cd.identity@.len() > 0 || constrained(
                cd,
                ConstrType::NotNull,
            ) || constrained(cd, ConstrType::Primary) || constrained(cd, ConstrType::Identity)
            &&& a.atthasdef <==> fills_itself(cd)
            &&& a.attgenerated is Some <==> cd.generated@.len() > 0 || constrained(
                cd,
                ConstrType::Generated,
            )
        }),
{
    let attrs = c.attributes_of(relid);
    lemma_no_position(attrs, cd.colname@);
    lemma_last_attnum(attrs);
    let p = parsed_column(c, cd, Seq::empty())->Ok_0;
    let last = last_attnum(attrs);
    let a = column_row(relid, p, (last + 1) as i16);
    if attrs.len() > 0 {
        assert(attrs[attrs.len() - 1].attnum <= last);
    }
    assert(attr_inserted(attrs, a) == attrs.push(a));
    law_put_row_is_found::<RelAttrs>(
        c.pg_attribute,
        RelAttrsView { relid, attrs: attrs.push(a) },
        relid,
    );
    assert(attrs.push(a).take(attrs.len() as int) =~= attrs);
    lemma_flags(c, cd.constraints@, 0, initial_flags(cd));
    assert forall|form: ConstrType| later(cd.constraints@, 0, form) <==> #[trigger] constrained(
        cd,
        form,
    ) by {}
    assert(!Seq::<Seq<char>>::empty().contains(cd.colname@));
}

// ── Constraints ─────────────────────────────────────────────────────────────

/// The numbers of the columns of these names, in their order.
pub open spec fn numbers_are(
    attrs: Seq<PgAttributeView>,
    names: Seq<Seq<char>>,
    nums: Seq<i16>,
) -> bool {
    nums.len() == names.len() && forall|i: int|
        0 <= i < names.len() ==> (find_attribute(attrs, #[trigger] names[i]) matches Some(a)
            && a.attnum == nums[i])
}

pub proof fn lemma_numbers(attrs: Seq<PgAttributeView>, names: Seq<Seq<char>>, nums: Seq<i16>)
    requires
        numbers_are(attrs, names, nums),
    ensures
        numbers_of(attrs, names) == nums,
    decreases names.len(),
{
    if names.len() > 0 {
        let head = names.drop_last();
        let front = nums.drop_last();
        assert forall|i: int| 0 <= i < head.len() implies (find_attribute(
            attrs,
            #[trigger] head[i],
        ) matches Some(a) && a.attnum == front[i]) by {
            assert(names[i] == head[i]);
        }
        lemma_numbers(attrs, head, front);
        assert(names[names.len() - 1] == names.last());
        assert(front.push(nums.last()) =~= nums);
    } else {
        assert(nums =~= Seq::empty());
    }
}

/// The catalog has a constraint of a relation.
pub open spec fn has_constraint(
    c: CatalogView,
    relid: u32,
    contype: ConType,
    conkey: Seq<i16>,
) -> bool {
    exists|oid: u32| #[trigger]
        row_get::<PgConstraint>(c.pg_constraint, oid) is Some && row_get::<PgConstraint>(
            c.pg_constraint,
            oid,
        )->0.conrelid == relid && row_get::<PgConstraint>(c.pg_constraint, oid)->0.contype
            == contype && row_get::<PgConstraint>(c.pg_constraint, oid)->0.conkey == conkey
}

pub proof fn lemma_constraint_is_noted(c: CatalogView, relid: u32, p: PendingView)
    ensures
        with_backed_constraint(c, relid, p).0 is Ok ==> has_constraint(
            with_backed_constraint(c, relid, p).1,
            relid,
            p.contype,
            p.conkey,
        ),
        with_constraint_row(c, relid, p).0 is Ok ==> has_constraint(
            with_constraint_row(c, relid, p).1,
            relid,
            p.contype,
            p.conkey,
        ),
        with_backed_constraint(c, relid, p).1.pg_attribute == c.pg_attribute,
{
    let oid = c.next_oid;
    let c1 = with_constraint_row(c, relid, p).1;
    if with_constraint_row(c, relid, p).0 is Ok {
        law_put_row_is_found::<PgConstraint>(
            c.pg_constraint,
            constraint_row(oid, relid, p),
            oid,
        );
        assert(row_get::<PgConstraint>(c1.pg_constraint, oid) is Some);
        if with_backed_constraint(c, relid, p).0 is Ok {
            let c2 = with_backed_constraint(c, relid, p).1;
            assert(c2.pg_constraint == c1.pg_constraint);
            assert(row_get::<PgConstraint>(c2.pg_constraint, oid) is Some);
        }
    }
}

/// `ADD PRIMARY KEY` makes its columns never null, leaves all others as they are, and notes
/// the key over their numbers. `ADD UNIQUE` notes a key and changes no column.
pub proof fn law_added_key_is_noted(
    c: CatalogView,
    relid: u32,
    cmd: AlterTableCmd,
    con: Constraint,
    nums: Seq<i16>,
)
    requires
        cmd.subtype == AlterTableType::AddConstraint,
        cmd.def == AlterDef::Constraint(con),
        con.contype == ConstrType::Primary || con.contype == ConstrType::Unique,
        con.keys@.len() > 0,
        row_get::<RelAttrs>(c.pg_attribute, relid) is Some,
        numbers_are(c.attributes_of(relid), texts(con.keys@), nums),
        command_applied(c, relid, cmd).0 is Ok,
    ensures
        con.contype == ConstrType::Primary ==> has_constraint(
            command_applied(c, relid, cmd).1,
            relid,
            ConType::PrimaryKey,
            nums,
        ),
        con.contype == ConstrType::Unique ==> has_constraint(
            command_applied(c, relid, cmd).1,
            relid,
            ConType::Unique,
            nums,
        ),
        command_applied(c, relid, cmd).1.attributes_of(relid).len() == c.attributes_of(
            relid,
        ).len(),
        forall|i: int|
            0 <= i < c.attributes_of(relid).len() ==> (#[trigger] command_applied(
                c,
                relid,
                cmd,
            ).1.attributes_of(relid)[i]) == (PgAttributeView {
                attnotnull: c.attributes_of(relid)[i].attnotnull || (con.contype
                    == ConstrType::Primary && texts(con.keys@).contains(
                    c.attributes_of(relid)[i].attname,
                )),
                ..c.attributes_of(relid)[i]
            }),
{
    let names = texts(con.keys@);
    let attrs = c.attributes_of(relid);
    if con.contype == ConstrType::Primary {
        let c1 = with_not_null(c, relid, names);
        let after = not_null_where(attrs, names);
        law_put_row_is_found::<RelAttrs>(
            c.pg_attribute,
            RelAttrsView { relid, attrs: after },
            relid,
        );
        assert(c1.attributes_of(relid) == after);
        assert(numbers_are(after, names, nums)) by {
            assert forall|i: int| 0 <= i < names.len() implies (find_attribute(
                after,
                #[trigger] names[i],
            ) matches Some(a) && a.attnum == nums[i]) by {
                assert(find_attribute(attrs, names[i]) is Some);
                lemma_names_stay(attrs, names, names[i]);
            }
        }
        lemma_numbers(after, names, nums);
        let p = local_pending(
            super::constraints::chosen_name(
                con.conname@,
                super::alter_column::plain_relname(c1, relid) + "_pkey"@,
            ),
            ConType::PrimaryKey,
            nums,
        );
        lemma_constraint_is_noted(c1, relid, p);
    } else {
        lemma_numbers(attrs, names, nums);
        let p = local_pending(
            super::constraints::chosen_name(
                con.conname@,
                super::alter_column::plain_relname(c, relid) + "_"@ + crate::text::joined(
                    names,
                    "_"@,
                ) + "_key"@,
            ),
            ConType::Unique,
            nums,
        );
        lemma_constraint_is_noted(c, relid, p);
    }
}

proof fn lemma_names_stay(attrs: Seq<PgAttributeView>, names: Seq<Seq<char>>, name: Seq<char>)
    ensures
        find_attribute(attrs, name) matches Some(a) ==> find_attribute(
            not_null_where(attrs, names),
            name,
        ) matches Some(b) && b.attnum == a.attnum,
    decreases attrs.len(),
{
    if attrs.len() > 0 {
        let after = not_null_where(attrs, names);
        assert(after.drop_first() =~= not_null_where(attrs.drop_first(), names));
        assert(after[0].attname == attrs[0].attname);
        lemma_names_stay(attrs.drop_first(), names, name);
    }
}

/// A constraint `NOT NULL` that is added makes its column never null.
pub proof fn law_added_not_null_holds(
    c: CatalogView,
    relid: u32,
    cmd: AlterTableCmd,
    con: Constraint,
    k: int,
)
    requires
        cmd.subtype == AlterTableType::AddConstraint,
        cmd.def == AlterDef::Constraint(con),
        con.contype == ConstrType::NotNull,
        con.keys@.len() > 0,
        column_at(c, relid, con.keys@[0]@, k),
    ensures
        command_applied(c, relid, cmd).0 is Ok,
        differs_in_column(
            c,
            command_applied(c, relid, cmd).1,
            relid,
            k,
            PgAttributeView { attnotnull: true, ..c.attributes_of(relid)[k] },
        ),
{
    lemma_changed(c, relid, con.keys@[0]@, ColumnChange::NotNull(true), k);
}

proof fn lemma_constraint_named(rows: Seq<PgConstraintView>, relid: u32, name: Seq<char>)
    ensures
        constraint_named(rows, relid, name) matches Some(k) ==> rows.contains(k) && k.conrelid
            == relid && k.conname == name,
        (exists|i: int|
            0 <= i < rows.len() && (#[trigger] rows[i]).conrelid == relid && rows[i].conname
                == name) ==> constraint_named(rows, relid, name) is Some,
    decreases rows.len(),
{
    if rows.len() > 0 {
        let head = rows.drop_last();
        lemma_constraint_named(head, relid, name);
        if let Some(k) = constraint_named(head, relid, name) {
            let i = choose|i: int| 0 <= i < head.len() && head[i] == k;
            assert(rows[i] == k);
        }
        if exists|i: int|
            0 <= i < rows.len() && (#[trigger] rows[i]).conrelid == relid && rows[i].conname
                == name {
            let i = choose|i: int|
                0 <= i < rows.len() && (#[trigger] rows[i]).conrelid == relid && rows[i].conname
                    == name;
            if i < head.len() {
                assert(head[i].conrelid == relid);
            }
        }
        assert(rows[rows.len() - 1] == rows.last());
    }
}

/// A constraint that no relation has is not dropped; it is an error unless `IF EXISTS` is
/// written. One that is dropped leaves the columns as they are.
pub proof fn law_dropped_constraint_keeps_the_columns(
    c: CatalogView,
    relid: u32,
    cmd: AlterTableCmd,
)
    requires
        cmd.subtype == AlterTableType::DropConstraint,
        c.get_class(relid) matches Some(k) && k.relkind != RelKind::Index,
        distinct_keys::<RelAttrs>(c.pg_attribute),
    ensures
        command_applied(c, relid, cmd).1.attributes_of(relid) == c.attributes_of(relid),
        (forall|i: int|
            0 <= i < c.pg_constraint.len() ==> (#[trigger] c.pg_constraint[i]).conrelid != relid
                || c.pg_constraint[i].conname != cmd.name@) ==> command_applied(c, relid, cmd).1
            == c && (command_applied(c, relid, cmd).0 is Ok <==> cmd.missing_ok),
        command_applied(c, relid, cmd).0 is Err ==> command_applied(c, relid, cmd).1 == c,
{
    lemma_constraint_named(c.pg_constraint, relid, cmd.name@);
    if let Some(k) = constraint_named(c.pg_constraint, relid, cmd.name@) {
        let i = choose|i: int| 0 <= i < c.pg_constraint.len() && c.pg_constraint[i] == k;
        assert(c.pg_constraint[i].conrelid == relid);
    }
    if let Some(index) = super::alter_table::backing_index(c, relid, cmd.name@) {
        law_dropped_row_is_gone::<RelAttrs>(c.pg_attribute, index, relid);
    }
}

/// The commands of an `ALTER TABLE` are applied one after the other, and the first error
/// ends them.
pub proof fn law_commands_follow_each_other(
    c: CatalogView,
    relid: u32,
    cmds: Seq<AlterTableCmd>,
    i: int,
)
    requires
        0 <= i < cmds.len(),
    ensures
        command_applied(c, relid, cmds[i]).0 is Ok ==> commands_applied(c, relid, cmds, i)
            == commands_applied(command_applied(c, relid, cmds[i]).1, relid, cmds, i + 1),
        command_applied(c, relid, cmds[i]).0 is Err ==> commands_applied(c, relid, cmds, i)
            == command_applied(c, relid, cmds[i]),
{
}

// ── Renaming ────────────────────────────────────────────────────────────────

/// A renamed column has its new name and is else the same, and so are the other columns of
/// its relation.
pub proof fn law_renamed_column_has_its_new_name(
    c: CatalogView,
    stmt: RenameStmt,
    relid: u32,
    k: int,
)
    requires
        stmt.relation is Some,
        ({
            let names = range_names(c, stmt.relation->0);
            c.namespace_oid(names.0) is Some && c.class_named(
                c.namespace_oid(names.0)->0,
                names.1,
            ) == Some(relid)
        }),
        column_at(c, relid, stmt.subname@, k),
    ensures
        column_renamed(c, stmt).0 is Ok,
        ({
            let before = c.attributes_of(relid);
            let behind = column_renamed(c, stmt).1.attributes_of(relid);
            &&& behind.len() == before.len()
            &&& behind[k] == (PgAttributeView { attname: stmt.newname@, ..before[k] })
            &&& forall|j: int|
                0 <= j < before.len() && j != k ==> #[trigger] behind[j] == before[j]
        }),
        forall|r: u32|
            r != relid ==> #[trigger] column_renamed(c, stmt).1.attributes_of(r)
                == c.attributes_of(r),
{
    let attrs = c.attributes_of(relid);
    lemma_position(attrs, stmt.subname@, k);
    let row = RelAttrsView {
        relid,
        attrs: attrs.update(k, PgAttributeView { attname: stmt.newname@, ..attrs[k] }),
    };
    law_put_row_is_found::<RelAttrs>(c.pg_attribute, row, relid);
    assert forall|r: u32| r != relid implies #[trigger] column_renamed(c, stmt).1.attributes_of(r)
        == c.attributes_of(r) by {
        law_put_row_is_found::<RelAttrs>(c.pg_attribute, row, r);
    }
}

/// A relation that is not there is an error, unless the statement allows for it; nothing
/// changes either way.
pub proof fn law_missing_relation_is_not_renamed(c: CatalogView, stmt: RenameStmt)
    requires
        stmt.relation is Some,
        ({
            let names = range_names(c, stmt.relation->0);
            c.namespace_oid(names.0) is None || c.class_named(
                c.namespace_oid(names.0)->0,
                names.1,
            ) is None
        }),
    ensures
        column_renamed(c, stmt).0 is Ok <==> stmt.missing_ok,
        relation_renamed(c, stmt).0 is Ok <==> stmt.missing_ok,
        constraint_renamed(c, stmt).0 is Ok <==> stmt.missing_ok,
        column_renamed(c, stmt).1 == c,
        relation_renamed(c, stmt).1 == c,
        constraint_renamed(c, stmt).1 == c,
{
}

} // verus!

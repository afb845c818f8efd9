//! Constraints of tables: their rows in the catalog, the targets of foreign keys,
//! and the types of their expressions.

use super::stmt::{ConstrType, Constraint, CreateStmt, TableElt};
use super::util::{range_names, range_var_names, Step};
use super::{ddl_outcome, DdlError, DdlErrorView};
use crate::ast::RangeVar;
use crate::catalog::{CatalogView, PgCatalog};
use crate::lookup::{attribute_named, attribute_numbered, find_attnum, find_attribute};
use crate::pg_catalog::{
    attr_views, copy_attnums, ConType, PgAttribute, PgAttributeView, PgClass, PgClassView,
    PgConstraint, PgConstraintView, PgIndex, PgIndexView, RelKind,
};
use crate::text::{concat2, concat3, concat4, concat5, decimal, decimal_text, join, joined, texts};
use vstd::prelude::*;

verus! {

// ── Rows of pg_constraint ───────────────────────────────────────────────────

/// A constraint that is to get its row.
#[derive(Debug)]
pub struct Pending {
    pub conname: String,
    pub contype: ConType,
    pub conkey: Vec<i16>,
    pub confrelid: Option<u32>,
    pub confkey: Vec<i16>,
}

#[verifier::ext_equal]
pub struct PendingView {
    pub conname: Seq<char>,
    pub contype: ConType,
    pub conkey: Seq<i16>,
    pub confrelid: Option<u32>,
    pub confkey: Seq<i16>,
}

impl View for Pending {
    type V = PendingView;

    open spec fn view(&self) -> PendingView {
        PendingView {
            conname: self.conname@,
            contype: self.contype,
            conkey: self.conkey@,
            confrelid: self.confrelid,
            confkey: self.confkey@,
        }
    }
}

/// The views of several constraints.
pub open spec fn pending_views(list: Seq<Pending>) -> Seq<PendingView> {
    list.map_values(|p: Pending| p@)
}

/// A constraint without a target.
pub open spec fn local_pending(
    conname: Seq<char>,
    contype: ConType,
    conkey: Seq<i16>,
) -> PendingView {
    PendingView { conname, contype, conkey, confrelid: None, confkey: Seq::empty() }
}

/// The name of a constraint: the one that is written, or else a made one.
pub open spec fn chosen_name(written: Seq<char>, made: Seq<char>) -> Seq<char> {
    if written.len() == 0 {
        made
    } else {
        written
    }
}

/// Whether a constraint makes its columns a key.
pub open spec fn makes_key(t: ConType) -> bool {
    t == ConType::PrimaryKey || t == ConType::Unique
}

/// The row of a constraint.
pub open spec fn constraint_row(oid: u32, relid: u32, p: PendingView) -> PgConstraintView {
    PgConstraintView {
        oid,
        conname: p.conname,
        conrelid: relid,
        contype: p.contype,
        conkey: p.conkey,
        confrelid: p.confrelid,
        confkey: p.confkey,
    }
}

/// The catalog with a row for a constraint.
pub open spec fn with_constraint_row(c: CatalogView, relid: u32, p: PendingView) -> Step<()> {
    match c.allocated() {
        (Ok(oid), c1) => (Ok(()), c1.with_constraint(constraint_row(oid, relid, p))),
        (Err(e), c1) => (Err(e), c1),
    }
}

/// The number of columns of an index, as its row gives it.
pub open spec fn column_count(conkey: Seq<i16>) -> i16 {
    (conkey.len() as usize) as i16
}

/// The catalog with a row for a constraint and, where it makes a key, the index
/// of the same name that backs it.
pub open spec fn with_backed_constraint(c: CatalogView, relid: u32, p: PendingView) -> Step<()> {
    match with_constraint_row(c, relid, p) {
        (Err(e), c1) => (Err(e), c1),
        (Ok(_), c1) => if makes_key(p.contype) {
            match c1.get_class(relid) {
                None => (Err(DdlErrorView::Internal("relation is not registered"@)), c1),
                Some(table) => match c1.allocated() {
                    (Err(e), c2) => (Err(e), c2),
                    (Ok(indexrelid), c2) => (
                        Ok(()),
                        c2.with_class(
                            PgClassView {
                                oid: indexrelid,
                                relname: p.conname,
                                relnamespace: table.relnamespace,
                                relkind: RelKind::Index,
                                reltype: None,
                            },
                        ).with_index(
                            PgIndexView {
                                indexrelid,
                                indrelid: relid,
                                indnatts: column_count(p.conkey),
                                indnkeyatts: column_count(p.conkey),
                                indisunique: true,
                                indisprimary: p.contype == ConType::PrimaryKey,
                                indkey: p.conkey,
                                indexprs: Seq::empty(),
                                indpred: None,
                            },
                        ),
                    ),
                },
            }
        } else {
            (Ok(()), c1)
        },
    }
}

/// The catalog with the rows of the constraints from `i` on.
pub open spec fn with_backed_constraints(
    c: CatalogView,
    relid: u32,
    list: Seq<PendingView>,
    i: int,
) -> Step<()>
    decreases list.len() - i,
{
    if i < 0 || i >= list.len() {
        (Ok(()), c)
    } else {
        match with_backed_constraint(c, relid, list[i]) {
            (Ok(_), c1) => with_backed_constraints(c1, relid, list, i + 1),
            (Err(e), c1) => (Err(e), c1),
        }
    }
}

pub(crate) fn constraint_name(written: &str, made: String) -> (r: String)
    ensures
        r@ == chosen_name(written@, made@),
{
    if written.is_empty() {
        made
    } else {
        written.to_owned()
    }
}

pub(crate) fn emit_constraint(db: &mut PgCatalog, relid: u32, p: &Pending) -> (r: Result<
    (),
    DdlError,
>)
    ensures
        (ddl_outcome(r), final(db)@) == with_constraint_row(old(db)@, relid, p@),
{
    match db.alloc_oid() {
        Ok(oid) => {
            db.insert_pg_constraint(
                PgConstraint {
                    oid,
                    conname: p.conname.clone(),
                    conrelid: relid,
                    contype: p.contype,
                    conkey: copy_attnums(&p.conkey),
                    confrelid: p.confrelid,
                    confkey: copy_attnums(&p.confkey),
                },
            );
            Ok(())
        },
        Err(e) => Err(e),
    }
}

/// Adds the row of a constraint and, where it makes a key, the index that backs
/// it. The two share a name.
pub(crate) fn emit_constraint_with_backing_index(db: &mut PgCatalog, relid: u32, p: &Pending) -> (r:
    Result<(), DdlError>)
    ensures
        (ddl_outcome(r), final(db)@) == with_backed_constraint(old(db)@, relid, p@),
{
    match emit_constraint(db, relid, p) {
        Ok(_) => {},
        Err(e) => return Err(e),
    }
    if p.contype == ConType::PrimaryKey || p.contype == ConType::Unique {
        let nsoid: u32 = match db.get_class(relid) {
            Some(table) => table.relnamespace,
            None => return Err(DdlError::Internal("relation is not registered".to_owned())),
        };
        let indexrelid: u32 = match db.alloc_oid() {
            Ok(oid) => oid,
            Err(e) => return Err(e),
        };
        db.insert_pg_class(
            PgClass {
                oid: indexrelid,
                relname: p.conname.clone(),
                relnamespace: nsoid,
                relkind: RelKind::Index,
                reltype: None,
            },
        );
        let natts: i16 = p.conkey.len() as i16;
        let row: PgIndex = PgIndex {
            indexrelid,
            indrelid: relid,
            indnatts: natts,
            indnkeyatts: natts,
            indisunique: true,
            indisprimary: p.contype == ConType::PrimaryKey,
            indkey: copy_attnums(&p.conkey),
            indexprs: Vec::new(),
            indpred: None,
        };
        proof {
            assert(row@.indexprs =~= Seq::empty());
        }
        db.insert_pg_index(row);
    }
    Ok(())
}

fn emit_all(db: &mut PgCatalog, relid: u32, list: &Vec<Pending>) -> (r: Result<(), DdlError>)
    ensures
        (ddl_outcome(r), final(db)@) == with_backed_constraints(
            old(db)@,
            relid,
            pending_views(list@),
            0,
        ),
{
    let ghost views = pending_views(list@);
    let mut i: usize = 0;
    while i < list.len()
        invariant
            i <= list@.len(),
            views == pending_views(list@),
            with_backed_constraints(old(db)@, relid, views, 0) == with_backed_constraints(
                db@,
                relid,
                views,
                i as int,
            ),
        decreases list.len() - i,
    {
        match emit_constraint_with_backing_index(db, relid, &list[i]) {
            Ok(_) => {},
            Err(e) => return Err(e),
        }
        i = i + 1;
    }
    Ok(())
}

// ── Columns by name and number ──────────────────────────────────────────────

/// The numbers of the columns that have these names, without names that none has.
pub open spec fn numbers_of(attrs: Seq<PgAttributeView>, names: Seq<Seq<char>>) -> Seq<i16>
    decreases names.len(),
{
    if names.len() == 0 {
        Seq::empty()
    } else {
        let rest = numbers_of(attrs, names.drop_last());
        match find_attribute(attrs, names.last()) {
            Some(a) => rest.push(a.attnum),
            None => rest,
        }
    }
}

/// The types of the columns that have these names, without names that none has.
pub open spec fn types_of(attrs: Seq<PgAttributeView>, names: Seq<Seq<char>>) -> Seq<u32>
    decreases names.len(),
{
    if names.len() == 0 {
        Seq::empty()
    } else {
        let rest = types_of(attrs, names.drop_last());
        match find_attribute(attrs, names.last()) {
            Some(a) => rest.push(a.atttypid),
            None => rest,
        }
    }
}

/// The types of the columns with these numbers, without numbers that none has.
pub open spec fn types_numbered(attrs: Seq<PgAttributeView>, nums: Seq<i16>) -> Seq<u32>
    decreases nums.len(),
{
    if nums.len() == 0 {
        Seq::empty()
    } else {
        let rest = types_numbered(attrs, nums.drop_last());
        match find_attnum(attrs, nums.last()) {
            Some(a) => rest.push(a.atttypid),
            None => rest,
        }
    }
}

/// The first name that no column has.
pub open spec fn first_unknown(attrs: Seq<PgAttributeView>, names: Seq<Seq<char>>) -> Option<
    Seq<char>,
>
    decreases names.len(),
{
    if names.len() == 0 {
        None
    } else {
        match first_unknown(attrs, names.drop_last()) {
            Some(n) => Some(n),
            None => if find_attribute(attrs, names.last()) is None {
                Some(names.last())
            } else {
                None
            },
        }
    }
}

pub(crate) fn find_numbers(attrs: &Vec<PgAttribute>, names: &Vec<String>) -> (r: Vec<i16>)
    ensures
        r@ == numbers_of(attr_views(attrs@), texts(names@)),
{
    let ghost all = texts(names@);
    let mut r: Vec<i16> = Vec::new();
    let mut i: usize = 0;
    while i < names.len()
        invariant
            i <= names@.len(),
            all == texts(names@),
            r@ == numbers_of(attr_views(attrs@), all.take(i as int)),
        decreases names.len() - i,
    {
        proof {
            assert(all.take(i + 1).drop_last() =~= all.take(i as int));
        }
        match attribute_named(attrs, names[i].as_str()) {
            Some(a) => r.push(a.attnum),
            None => {},
        }
        i = i + 1;
    }
    proof {
        assert(all.take(i as int) =~= all);
    }
    r
}

pub(crate) fn find_types(attrs: &Vec<PgAttribute>, names: &Vec<String>) -> (r: Vec<u32>)
    ensures
        r@ == types_of(attr_views(attrs@), texts(names@)),
{
    let ghost all = texts(names@);
    let mut r: Vec<u32> = Vec::new();
    let mut i: usize = 0;
    while i < names.len()
        invariant
            i <= names@.len(),
            all == texts(names@),
            r@ == types_of(attr_views(attrs@), all.take(i as int)),
        decreases names.len() - i,
    {
        proof {
            assert(all.take(i + 1).drop_last() =~= all.take(i as int));
        }
        match attribute_named(attrs, names[i].as_str()) {
            Some(a) => r.push(a.atttypid),
            None => {},
        }
        i = i + 1;
    }
    proof {
        assert(all.take(i as int) =~= all);
    }
    r
}

fn find_types_numbered(attrs: &Vec<PgAttribute>, nums: &Vec<i16>) -> (r: Vec<u32>)
    ensures
        r@ == types_numbered(attr_views(attrs@), nums@),
{
    let mut r: Vec<u32> = Vec::new();
    let mut i: usize = 0;
    while i < nums.len()
        invariant
            i <= nums@.len(),
            r@ == types_numbered(attr_views(attrs@), nums@.take(i as int)),
        decreases nums.len() - i,
    {
        proof {
            assert(nums@.take(i + 1).drop_last() =~= nums@.take(i as int));
        }
        match attribute_numbered(attrs, nums[i]) {
            Some(a) => r.push(a.atttypid),
            None => {},
        }
        i = i + 1;
    }
    proof {
        assert(nums@.take(i as int) =~= nums@);
    }
    r
}

fn find_unknown<'a>(attrs: &Vec<PgAttribute>, names: &'a Vec<String>) -> (r: Option<&'a str>)
    ensures
        crate::lookup::opt_str(r) == first_unknown(attr_views(attrs@), texts(names@)),
{
    let ghost all = texts(names@);
    let mut i: usize = 0;
    while i < names.len()
        invariant
            i <= names@.len(),
            all == texts(names@),
            first_unknown(attr_views(attrs@), all.take(i as int)) is None,
        decreases names.len() - i,
    {
        proof {
            assert(all.take(i + 1).drop_last() =~= all.take(i as int));
        }
        if attribute_named(attrs, names[i].as_str()).is_none() {
            proof {
                lemma_first_unknown_stays(attr_views(attrs@), all, i + 1);
            }
            return Some(names[i].as_str());
        }
        i = i + 1;
    }
    proof {
        assert(all.take(i as int) =~= all);
    }
    None
}

proof fn lemma_first_unknown_stays(attrs: Seq<PgAttributeView>, names: Seq<Seq<char>>, k: int)
    requires
        0 <= k <= names.len(),
        first_unknown(attrs, names.take(k)) is Some,
    ensures
        first_unknown(attrs, names) == first_unknown(attrs, names.take(k)),
    decreases names.len() - k,
{
    if k == names.len() {
        assert(names.take(k) =~= names);
    } else {
        assert(names.take(k + 1).drop_last() =~= names.take(k));
        lemma_first_unknown_stays(attrs, names, k + 1);
    }
}

// ── Foreign keys ────────────────────────────────────────────────────────────

/// The primary key of a relation.
pub open spec fn primary_key_of(rows: Seq<PgConstraintView>, relid: u32) -> Option<PgConstraintView>
    decreases rows.len(),
{
    if rows.len() == 0 {
        None
    } else if rows[0].conrelid == relid && rows[0].contype == ConType::PrimaryKey {
        Some(rows[0])
    } else {
        primary_key_of(rows.drop_first(), relid)
    }
}

/// Whether two lists have the same members.
pub open spec fn same_members(a: Seq<i16>, b: Seq<i16>) -> bool {
    forall|n: i16| #![trigger a.contains(n)] #![trigger b.contains(n)] a.contains(n) == b.contains(n)
}

/// Whether a key of a relation has just these columns.
pub open spec fn some_key_covers(rows: Seq<PgConstraintView>, relid: u32, nums: Seq<i16>) -> bool {
    exists|i: int|
        0 <= i < rows.len() && (#[trigger] rows[i]).conrelid == relid && makes_key(rows[i].contype)
            && same_members(rows[i].conkey, nums)
}

/// The columns of the target that a foreign key refers to: those that it names,
/// or the primary key.
pub open spec fn referenced_columns(
    c: CatalogView,
    target: u32,
    target_name: Seq<char>,
    names: Seq<Seq<char>>,
) -> Result<Seq<i16>, DdlErrorView> {
    if names.len() == 0 {
        match primary_key_of(c.pg_constraint, target) {
            Some(k) => Ok(k.conkey),
            None => Err(
                DdlErrorView::DependencyError(
                    "there is no primary key for referenced table \""@ + target_name + "\""@,
                ),
            ),
        }
    } else {
        match first_unknown(c.attributes_of(target), names) {
            Some(n) => Err(
                DdlErrorView::Parse(
                    "column \""@ + n
                        + "\" referenced in foreign key constraint does not exist on \""@
                        + target_name + "\""@,
                ),
            ),
            None => Ok(numbers_of(c.attributes_of(target), names)),
        }
    }
}

/// The first position at which two lists of types differ below their domains.
pub open spec fn first_mismatch(c: CatalogView, a: Seq<u32>, b: Seq<u32>, i: int) -> Option<int>
    decreases a.len() - i,
{
    if i < 0 || i >= a.len() || i >= b.len() {
        None
    } else if c.unwrap_domain(a[i]) != c.unwrap_domain(b[i]) {
        Some(i)
    } else {
        first_mismatch(c, a, b, i + 1)
    }
}

/// The name of a type, or nothing.
pub open spec fn plain_type_name(c: CatalogView, oid: u32) -> Seq<char> {
    match c.get_type(oid) {
        Some(t) => t.typname,
        None => Seq::empty(),
    }
}

/// Why the types of a foreign key do not go together, if so.
pub open spec fn fk_type_error(
    c: CatalogView,
    relname: Seq<char>,
    target_name: Seq<char>,
    nums: Seq<i16>,
    local: Seq<u32>,
    target_types: Seq<u32>,
) -> Option<DdlErrorView> {
    if target_types.len() != nums.len() {
        Some(
            DdlErrorView::Parse(
                "foreign key on "@ + relname + " references unknown column on \""@ + target_name
                    + "\""@,
            ),
        )
    } else if target_types.len() != local.len() {
        Some(
            DdlErrorView::Parse(
                "foreign key on "@ + relname + " has "@ + decimal_text(local.len())
                    + " local column(s) but references "@ + decimal_text(target_types.len())
                    + " on \""@ + target_name + "\""@,
            ),
        )
    } else {
        match first_mismatch(c, local, target_types, 0) {
            Some(i) => Some(
                DdlErrorView::DependencyError(
                    "foreign key constraint on "@ + relname + " has incompatible types: local "@
                        + plain_type_name(c, local[i]) + " vs referenced "@ + plain_type_name(
                        c,
                        target_types[i],
                    ) + " on \""@ + target_name + "\""@,
                ),
            ),
            None => None,
        }
    }
}

/// The relation and the columns that a foreign key refers to: they exist, a key
/// covers them, and their types are those of the local columns.
pub open spec fn fk_target(
    c: CatalogView,
    pktable: Option<RangeVar>,
    pk_attrs: Seq<Seq<char>>,
    relname: Seq<char>,
    local: Seq<u32>,
) -> Result<(u32, Seq<i16>), DdlErrorView> {
    match pktable {
        None => Err(
            DdlErrorView::Parse("FOREIGN KEY on "@ + relname + " without REFERENCES"@),
        ),
        Some(rv) => {
            let (schema, name) = range_names(c, rv);
            match c.namespace_oid(schema) {
                None => Err(
                    DdlErrorView::TableNotFound(
                        "referenced table \""@ + schema + "."@ + name + "\" does not exist"@,
                    ),
                ),
                Some(ns) => match c.class_named(ns, name) {
                    None => Err(
                        DdlErrorView::TableNotFound(
                            "referenced table \""@ + name + "\" does not exist"@,
                        ),
                    ),
                    Some(target) => match referenced_columns(c, target, name, pk_attrs) {
                        Err(e) => Err(e),
                        Ok(nums) => if !some_key_covers(c.pg_constraint, target, nums) {
                            Err(
                                DdlErrorView::DependencyError(
                                    "there is no unique constraint matching given keys for referenced table \""@
                                        + name + "\""@,
                                ),
                            )
                        } else {
                            let types = types_numbered(c.attributes_of(target), nums);
                            match fk_type_error(c, relname, name, nums, local, types) {
                                Some(e) => Err(e),
                                None => Ok((target, nums)),
                            }
                        },
                    },
                },
            }
        },
    }
}

/// A target of a foreign key as a value.
pub open spec fn target_view(r: Result<(u32, Vec<i16>), DdlError>) -> Result<
    (u32, Seq<i16>),
    DdlErrorView,
> {
    match r {
        Ok((t, nums)) => Ok((t, nums@)),
        Err(e) => Err(e@),
    }
}

/// A list of column numbers as a value.
pub open spec fn nums_view(r: Result<Vec<i16>, DdlError>) -> Result<Seq<i16>, DdlErrorView> {
    match r {
        Ok(nums) => Ok(nums@),
        Err(e) => Err(e@),
    }
}

fn find_primary_key(db: &PgCatalog, relid: u32) -> (r: Option<&PgConstraint>)
    ensures
        match r {
            Some(k) => primary_key_of(db@.pg_constraint, relid) == Some(k@),
            None => primary_key_of(db@.pg_constraint, relid) is None,
        },
{
    let ghost rows = db@.pg_constraint;
    let mut i: usize = 0;
    proof {
        assert(rows.skip(0) =~= rows);
    }
    while i < db.pg_constraint.len()
        invariant
            rows == db@.pg_constraint,
            i <= rows.len(),
            primary_key_of(rows, relid) == primary_key_of(rows.skip(i as int), relid),
        decreases rows.len() - i,
    {
        proof {
            assert(rows.skip(i as int).drop_first() =~= rows.skip(i + 1));
        }
        let k: &PgConstraint = db.pg_constraint.at(i);
        if k.conrelid == relid && k.contype == ConType::PrimaryKey {
            return Some(k);
        }
        i = i + 1;
    }
    None
}

fn has_number(v: &Vec<i16>, n: i16) -> (r: bool)
    ensures
        r == v@.contains(n),
{
    let mut i: usize = 0;
    while i < v.len()
        invariant
            i <= v@.len(),
            forall|k: int| 0 <= k < i ==> v@[k] != n,
        decreases v.len() - i,
    {
        if v[i] == n {
            return true;
        }
        i = i + 1;
    }
    false
}

fn all_within(a: &Vec<i16>, b: &Vec<i16>) -> (r: bool)
    ensures
        r == forall|n: i16| #[trigger] a@.contains(n) ==> b@.contains(n),
{
    let mut i: usize = 0;
    while i < a.len()
        invariant
            i <= a@.len(),
            forall|k: int| 0 <= k < i ==> b@.contains(#[trigger] a@[k]),
        decreases a.len() - i,
    {
        if !has_number(b, a[i]) {
            proof {
                assert(a@.contains(a@[i as int]));
            }
            return false;
        }
        i = i + 1;
    }
    true
}

pub(crate) fn has_same_members(a: &Vec<i16>, b: &Vec<i16>) -> (r: bool)
    ensures
        r == same_members(a@, b@),
{
    if all_within(a, b) {
        let back: bool = all_within(b, a);
        proof {
            if same_members(a@, b@) {
                assert forall|n: i16| #[trigger] b@.contains(n) implies a@.contains(n) by {}
            }
        }
        back
    } else {
        proof {
            if same_members(a@, b@) {
                assert forall|n: i16| #[trigger] a@.contains(n) implies b@.contains(n) by {}
            }
        }
        false
    }
}

fn is_covered(db: &PgCatalog, relid: u32, nums: &Vec<i16>) -> (r: bool)
    ensures
        r == some_key_covers(db@.pg_constraint, relid, nums@),
{
    let ghost rows = db@.pg_constraint;
    let mut i: usize = 0;
    while i < db.pg_constraint.len()
        invariant
            rows == db@.pg_constraint,
            i <= rows.len(),
            forall|k: int|
                0 <= k < i ==> !((#[trigger] rows[k]).conrelid == relid && makes_key(
                    rows[k].contype,
                ) && same_members(rows[k].conkey, nums@)),
        decreases rows.len() - i,
    {
        let k: &PgConstraint = db.pg_constraint.at(i);
        if k.conrelid == relid && (k.contype == ConType::PrimaryKey || k.contype == ConType::Unique)
            && has_same_members(&k.conkey, nums) {
            proof {
                assert(rows[i as int] == k@);
                assert(rows[i as int].conrelid == relid);
            }
            return true;
        }
        i = i + 1;
    }
    false
}

fn find_referenced(db: &PgCatalog, target: u32, target_name: &str, names: &Vec<String>) -> (r:
    Result<Vec<i16>, DdlError>)
    ensures
        nums_view(r) == referenced_columns(db@, target, target_name@, texts(names@)),
{
    if names.len() == 0 {
        return match find_primary_key(db, target) {
            Some(k) => Ok(copy_attnums(&k.conkey)),
            None => Err(
                DdlError::DependencyError(
                    concat3(
                        "there is no primary key for referenced table \"",
                        target_name,
                        "\"",
                    ),
                ),
            ),
        };
    }
    let attrs: Vec<PgAttribute> = db.attributes_of(target);
    match find_unknown(&attrs, names) {
        Some(n) => Err(
            DdlError::Parse(
                concat5(
                    "column \"",
                    n,
                    "\" referenced in foreign key constraint does not exist on \"",
                    target_name,
                    "\"",
                ),
            ),
        ),
        None => Ok(find_numbers(&attrs, names)),
    }
}

fn type_name_or_nothing(db: &PgCatalog, oid: u32) -> (r: String)
    ensures
        r@ == plain_type_name(db@, oid),
{
    match db.get_type(oid) {
        Some(t) => t.typname.clone(),
        None => String::new(),
    }
}

fn check_fk_types(
    db: &PgCatalog,
    relname: &str,
    target_name: &str,
    nums: &Vec<i16>,
    local: &Vec<u32>,
    types: &Vec<u32>,
) -> (r: Result<(), DdlError>)
    ensures
        match r {
            Ok(_) => fk_type_error(db@, relname@, target_name@, nums@, local@, types@) is None,
            Err(e) => fk_type_error(db@, relname@, target_name@, nums@, local@, types@) == Some(
                e@,
            ),
        },
{
    if types.len() != nums.len() {
        return Err(
            DdlError::Parse(
                concat5(
                    "foreign key on ",
                    relname,
                    " references unknown column on \"",
                    target_name,
                    "\"",
                ),
            ),
        );
    }
    if types.len() != local.len() {
        let head: String = concat4(
            "foreign key on ",
            relname,
            " has ",
            decimal(local.len() as u64).as_str(),
        );
        let middle: String = concat3(
            head.as_str(),
            " local column(s) but references ",
            decimal(types.len() as u64).as_str(),
        );
        return Err(
            DdlError::Parse(concat4(middle.as_str(), " on \"", target_name, "\"")),
        );
    }
    let mut i: usize = 0;
    while i < local.len()
        invariant
            i <= local@.len() == types@.len(),
            types@.len() == nums@.len(),
            first_mismatch(db@, local@, types@, 0) == first_mismatch(
                db@,
                local@,
                types@,
                i as int,
            ),
        decreases local.len() - i,
    {
        if db.unwrap_domain(local[i]) != db.unwrap_domain(types[i]) {
            let head: String = concat4(
                "foreign key constraint on ",
                relname,
                " has incompatible types: local ",
                type_name_or_nothing(db, local[i]).as_str(),
            );
            return Err(
                DdlError::DependencyError(
                    concat4(
                        concat3(
                            head.as_str(),
                            " vs referenced ",
                            type_name_or_nothing(db, types[i]).as_str(),
                        ).as_str(),
                        " on \"",
                        target_name,
                        "\"",
                    ),
                ),
            );
        }
        i = i + 1;
    }
    Ok(())
}

/// The relation and the columns that a foreign key refers to.
///
/// # Errors
///
/// The relation or a column does not exist, no primary key or unique constraint
/// covers the columns, or their types are not those of the local columns.
pub(crate) fn resolve_fk_target(
    db: &PgCatalog,
    con: &Constraint,
    relname: &str,
    local: &Vec<u32>,
) -> (r: Result<(u32, Vec<i16>), DdlError>)
    ensures
        target_view(r) == fk_target(
            db@,
            con.pktable,
            texts(con.pk_attrs@),
            relname@,
            local@,
        ),
{
    let rv: &RangeVar = match &con.pktable {
        Some(rv) => rv,
        None => return Err(
            DdlError::Parse(concat3("FOREIGN KEY on ", relname, " without REFERENCES")),
        ),
    };
    let (schema, name): (String, String) = range_var_names(rv, db);
    let ns: u32 = match db.namespace_oid(schema.as_str()) {
        Some(ns) => ns,
        None => return Err(
            DdlError::TableNotFound(
                concat5(
                    "referenced table \"",
                    schema.as_str(),
                    ".",
                    name.as_str(),
                    "\" does not exist",
                ),
            ),
        ),
    };
    let target: u32 = match db.class_by_qname.get(ns, name.as_str()) {
        Some(t) => t,
        None => return Err(
            DdlError::TableNotFound(
                concat3("referenced table \"", name.as_str(), "\" does not exist"),
            ),
        ),
    };
    let nums: Vec<i16> = match find_referenced(db, target, name.as_str(), &con.pk_attrs) {
        Ok(nums) => nums,
        Err(e) => return Err(e),
    };
    if !is_covered(db, target, &nums) {
        return Err(
            DdlError::DependencyError(
                concat3(
                    "there is no unique constraint matching given keys for referenced table \"",
                    name.as_str(),
                    "\"",
                ),
            ),
        );
    }
    let attrs: Vec<PgAttribute> = db.attributes_of(target);
    let types: Vec<u32> = find_types_numbered(&attrs, &nums);
    match check_fk_types(db, relname, name.as_str(), &nums, local, &types) {
        Ok(_) => Ok((target, nums)),
        Err(e) => Err(e),
    }
}

// ── The constraints of a new table ──────────────────────────────────────────

/// The foreign key of some columns, or why there cannot be one.
pub open spec fn fk_pending(
    c: CatalogView,
    con: Constraint,
    relname: Seq<char>,
    made: Seq<char>,
    nums: Seq<i16>,
    types: Seq<u32>,
) -> Result<PendingView, DdlErrorView> {
    match fk_target(c, con.pktable, texts(con.pk_attrs@), relname, types) {
        Ok((target, confkey)) => Ok(
            PendingView {
                conname: chosen_name(con.conname@, made),
                contype: ConType::ForeignKey,
                conkey: nums,
                confrelid: Some(target),
                confkey,
            },
        ),
        Err(e) => Err(e),
    }
}

/// The row that a constraint of a column asks for, if it asks for one.
pub open spec fn column_pending(
    c: CatalogView,
    relname: Seq<char>,
    column: PgAttributeView,
    con: Constraint,
) -> Result<Option<PendingView>, DdlErrorView> {
    let key = seq![column.attnum];
    let stem = relname + "_"@ + column.attname;
    match con.contype {
        ConstrType::Primary => Ok(
            Some(
                local_pending(
                    chosen_name(con.conname@, relname + "_pkey"@),
                    ConType::PrimaryKey,
                    key,
                ),
            ),
        ),
        ConstrType::Unique => Ok(
            Some(
                local_pending(chosen_name(con.conname@, stem + "_key"@), ConType::Unique, key),
            ),
        ),
        ConstrType::Check => Ok(
            Some(
                local_pending(chosen_name(con.conname@, stem + "_check"@), ConType::Check, key),
            ),
        ),
        ConstrType::Foreign => match fk_pending(
            c,
            con,
            relname,
            stem + "_fkey"@,
            key,
            seq![column.atttypid],
        ) {
            Ok(p) => Ok(Some(p)),
            Err(e) => Err(e),
        },
        _ => Ok(None),
    }
}

/// The rows that the constraints of a column from `i` on ask for, behind `acc`.
pub open spec fn column_pendings(
    c: CatalogView,
    relname: Seq<char>,
    column: PgAttributeView,
    cons: Seq<Constraint>,
    i: int,
    acc: Seq<PendingView>,
) -> Result<Seq<PendingView>, DdlErrorView>
    decreases cons.len() - i,
{
    if i < 0 || i >= cons.len() {
        Ok(acc)
    } else {
        match column_pending(c, relname, column, cons[i]) {
            Ok(Some(p)) => column_pendings(c, relname, column, cons, i + 1, acc.push(p)),
            Ok(None) => column_pendings(c, relname, column, cons, i + 1, acc),
            Err(e) => Err(e),
        }
    }
}

/// The rows that the constraints of the columns from `i` on ask for, behind `acc`.
pub open spec fn columns_pendings(
    c: CatalogView,
    relname: Seq<char>,
    attrs: Seq<PgAttributeView>,
    elts: Seq<TableElt>,
    i: int,
    acc: Seq<PendingView>,
) -> Result<Seq<PendingView>, DdlErrorView>
    decreases elts.len() - i,
{
    if i < 0 || i >= elts.len() {
        Ok(acc)
    } else {
        match elts[i] {
            TableElt::Column(cd) => match find_attribute(attrs, cd.colname@) {
                Some(a) => match column_pendings(c, relname, a, cd.constraints@, 0, acc) {
                    Ok(more) => columns_pendings(c, relname, attrs, elts, i + 1, more),
                    Err(e) => Err(e),
                },
                None => columns_pendings(c, relname, attrs, elts, i + 1, acc),
            },
            _ => columns_pendings(c, relname, attrs, elts, i + 1, acc),
        }
    }
}

/// The row that a constraint of a table asks for, if it asks for one.
pub open spec fn table_pending(
    c: CatalogView,
    relname: Seq<char>,
    attrs: Seq<PgAttributeView>,
    con: Constraint,
) -> Result<Option<PendingView>, DdlErrorView> {
    let names = texts(con.keys@);
    let nums = numbers_of(attrs, names);
    match con.contype {
        ConstrType::Primary => Ok(
            if nums.len() == 0 {
                None
            } else {
                Some(
                    local_pending(
                        chosen_name(con.conname@, relname + "_pkey"@),
                        ConType::PrimaryKey,
                        nums,
                    ),
                )
            },
        ),
        ConstrType::Unique => Ok(
            if nums.len() == 0 {
                None
            } else {
                Some(
                    local_pending(
                        chosen_name(
                            con.conname@,
                            relname + "_"@ + joined(names, "_"@) + "_key"@,
                        ),
                        ConType::Unique,
                        nums,
                    ),
                )
            },
        ),
        ConstrType::Check => Ok(
            Some(
                local_pending(chosen_name(con.conname@, relname + "_check"@), ConType::Check, nums),
            ),
        ),
        ConstrType::Foreign => {
            let fk_names = texts(con.fk_attrs@);
            let types = types_of(attrs, fk_names);
            if types.len() != fk_names.len() {
                Err(
                    DdlErrorView::Parse(
                        "foreign key on "@ + relname + " references unknown local column"@,
                    ),
                )
            } else {
                match fk_pending(
                    c,
                    con,
                    relname,
                    relname + "_"@ + joined(fk_names, "_"@) + "_fkey"@,
                    numbers_of(attrs, fk_names),
                    types,
                ) {
                    Ok(p) => Ok(Some(p)),
                    Err(e) => Err(e),
                }
            }
        },
        _ => Ok(None),
    }
}

/// The rows that the constraints among the elements from `i` on ask for, behind
/// `acc`.
pub open spec fn table_pendings(
    c: CatalogView,
    relname: Seq<char>,
    attrs: Seq<PgAttributeView>,
    elts: Seq<TableElt>,
    i: int,
    acc: Seq<PendingView>,
) -> Result<Seq<PendingView>, DdlErrorView>
    decreases elts.len() - i,
{
    if i < 0 || i >= elts.len() {
        Ok(acc)
    } else {
        match elts[i] {
            TableElt::Constraint(con) => match table_pending(c, relname, attrs, con) {
                Ok(Some(p)) => table_pendings(c, relname, attrs, elts, i + 1, acc.push(p)),
                Ok(None) => table_pendings(c, relname, attrs, elts, i + 1, acc),
                Err(e) => Err(e),
            },
            _ => table_pendings(c, relname, attrs, elts, i + 1, acc),
        }
    }
}

/// The rows that all constraints of a new table ask for: those of its columns,
/// then its own.
pub open spec fn statement_pendings(
    c: CatalogView,
    relname: Seq<char>,
    attrs: Seq<PgAttributeView>,
    stmt: CreateStmt,
) -> Result<Seq<PendingView>, DdlErrorView> {
    match columns_pendings(c, relname, attrs, stmt.table_elts@, 0, Seq::empty()) {
        Err(e) => Err(e),
        Ok(l1) => match table_pendings(c, relname, attrs, stmt.constraints@, 0, l1) {
            Err(e) => Err(e),
            Ok(l2) => table_pendings(c, relname, attrs, stmt.table_elts@, 0, l2),
        },
    }
}

/// The catalog with the rows of all constraints of a new table.
pub open spec fn with_table_constraints(
    c: CatalogView,
    relid: u32,
    relname: Seq<char>,
    stmt: CreateStmt,
) -> Step<()> {
    match statement_pendings(c, relname, c.attributes_of(relid), stmt) {
        Err(e) => (Err(e), c),
        Ok(list) => with_backed_constraints(c, relid, list, 0),
    }
}

/// A list of constraints as a value.
pub open spec fn pendings_view(r: Result<Vec<Pending>, DdlError>) -> Result<
    Seq<PendingView>,
    DdlErrorView,
> {
    match r {
        Ok(l) => Ok(pending_views(l@)),
        Err(e) => Err(e@),
    }
}

/// A constraint that may be missing, as a value.
pub open spec fn pending_view(r: Result<Option<Pending>, DdlError>) -> Result<
    Option<PendingView>,
    DdlErrorView,
> {
    match r {
        Ok(Some(p)) => Ok(Some(p@)),
        Ok(None) => Ok(None),
        Err(e) => Err(e@),
    }
}

fn new_local(conname: String, contype: ConType, conkey: Vec<i16>) -> (r: Pending)
    ensures
        r@ == local_pending(conname@, contype, conkey@),
{
    Pending { conname, contype, conkey, confrelid: None, confkey: Vec::new() }
}

pub(crate) fn new_foreign_key(
    db: &PgCatalog,
    con: &Constraint,
    relname: &str,
    made: String,
    nums: Vec<i16>,
    types: &Vec<u32>,
) -> (r: Result<Pending, DdlError>)
    ensures
        match r {
            Ok(p) => fk_pending(db@, *con, relname@, made@, nums@, types@) == Ok::<
                _,
                DdlErrorView,
            >(p@),
            Err(e) => fk_pending(db@, *con, relname@, made@, nums@, types@) == Err::<
                PendingView,
                _,
            >(e@),
        },
{
    match resolve_fk_target(db, con, relname, types) {
        Ok((target, confkey)) => Ok(
            Pending {
                conname: constraint_name(con.conname.as_str(), made),
                contype: ConType::ForeignKey,
                conkey: nums,
                confrelid: Some(target),
                confkey,
            },
        ),
        Err(e) => Err(e),
    }
}

fn find_column_pending(
    db: &PgCatalog,
    relname: &str,
    column: &PgAttribute,
    con: &Constraint,
) -> (r: Result<Option<Pending>, DdlError>)
    ensures
        pending_view(r) == column_pending(db@, relname@, column@, *con),
{
    let mut key: Vec<i16> = Vec::new();
    key.push(column.attnum);
    proof {
        assert(key@ =~= seq![column.attnum]);
    }
    let written: &str = con.conname.as_str();
    let stem: String = concat3(relname, "_", column.attname.as_str());
    match con.contype {
        ConstrType::Primary => Ok(
            Some(
                new_local(
                    constraint_name(written, concat2(relname, "_pkey")),
                    ConType::PrimaryKey,
                    key,
                ),
            ),
        ),
        ConstrType::Unique => Ok(
            Some(
                new_local(
                    constraint_name(written, concat2(stem.as_str(), "_key")),
                    ConType::Unique,
                    key,
                ),
            ),
        ),
        ConstrType::Check => Ok(
            Some(
                new_local(
                    constraint_name(written, concat2(stem.as_str(), "_check")),
                    ConType::Check,
                    key,
                ),
            ),
        ),
        ConstrType::Foreign => {
            let mut types: Vec<u32> = Vec::new();
            types.push(column.atttypid);
            proof {
                assert(types@ =~= seq![column.atttypid]);
            }
            match new_foreign_key(
                db,
                con,
                relname,
                concat2(stem.as_str(), "_fkey"),
                key,
                &types,
            ) {
                Ok(p) => Ok(Some(p)),
                Err(e) => Err(e),
            }
        },
        _ => Ok(None),
    }
}

fn push_pending(list: &mut Vec<Pending>, p: Pending)
    ensures
        pending_views(final(list)@) == pending_views(old(list)@).push(p@),
{
    let ghost before = pending_views(list@);
    list.push(p);
    proof {
        assert(pending_views(list@) =~= before.push(p@));
    }
}

fn collect_column(
    db: &PgCatalog,
    relname: &str,
    column: &PgAttribute,
    cons: &Vec<Constraint>,
    acc: Vec<Pending>,
) -> (r: Result<Vec<Pending>, DdlError>)
    ensures
        pendings_view(r) == column_pendings(
            db@,
            relname@,
            column@,
            cons@,
            0,
            pending_views(acc@),
        ),
{
    let ghost start = pending_views(acc@);
    let mut list: Vec<Pending> = acc;
    let mut i: usize = 0;
    while i < cons.len()
        invariant
            i <= cons@.len(),
            start == pending_views(acc@),
            column_pendings(db@, relname@, column@, cons@, 0, start) == column_pendings(
                db@,
                relname@,
                column@,
                cons@,
                i as int,
                pending_views(list@),
            ),
        decreases cons.len() - i,
    {
        match find_column_pending(db, relname, column, &cons[i]) {
            Ok(Some(p)) => push_pending(&mut list, p),
            Ok(None) => {},
            Err(e) => return Err(e),
        }
        i = i + 1;
    }
    Ok(list)
}

fn collect_columns(
    db: &PgCatalog,
    relname: &str,
    attrs: &Vec<PgAttribute>,
    elts: &Vec<TableElt>,
) -> (r: Result<Vec<Pending>, DdlError>)
    ensures
        pendings_view(r) == columns_pendings(
            db@,
            relname@,
            attr_views(attrs@),
            elts@,
            0,
            Seq::empty(),
        ),
{
    let ghost views = attr_views(attrs@);
    let mut list: Vec<Pending> = Vec::new();
    let mut i: usize = 0;
    proof {
        assert(pending_views(list@) =~= Seq::empty());
    }
    while i < elts.len()
        invariant
            i <= elts@.len(),
            views == attr_views(attrs@),
            columns_pendings(db@, relname@, views, elts@, 0, Seq::empty()) == columns_pendings(
                db@,
                relname@,
                views,
                elts@,
                i as int,
                pending_views(list@),
            ),
        decreases elts.len() - i,
    {
        match &elts[i] {
            TableElt::Column(cd) => match attribute_named(attrs, cd.colname.as_str()) {
                Some(a) => {
                    match collect_column(db, relname, a, &cd.constraints, list) {
                        Ok(more) => {
                            list = more;
                        },
                        Err(e) => return Err(e),
                    }
                },
                None => {},
            },
            _ => {},
        }
        i = i + 1;
    }
    Ok(list)
}

fn find_table_pending(
    db: &PgCatalog,
    relname: &str,
    attrs: &Vec<PgAttribute>,
    con: &Constraint,
) -> (r: Result<Option<Pending>, DdlError>)
    ensures
        pending_view(r) == table_pending(db@, relname@, attr_views(attrs@), *con),
{
    let nums: Vec<i16> = find_numbers(attrs, &con.keys);
    let written: &str = con.conname.as_str();
    match con.contype {
        ConstrType::Primary => Ok(
            if nums.len() == 0 {
                None
            } else {
                Some(
                    new_local(
                        constraint_name(written, concat2(relname, "_pkey")),
                        ConType::PrimaryKey,
                        nums,
                    ),
                )
            },
        ),
        ConstrType::Unique => Ok(
            if nums.len() == 0 {
                None
            } else {
                let made: String = concat4(relname, "_", join(&con.keys, "_").as_str(), "_key");
                Some(new_local(constraint_name(written, made), ConType::Unique, nums))
            },
        ),
        ConstrType::Check => Ok(
            Some(
                new_local(
                    constraint_name(written, concat2(relname, "_check")),
                    ConType::Check,
                    nums,
                ),
            ),
        ),
        ConstrType::Foreign => {
            let types: Vec<u32> = find_types(attrs, &con.fk_attrs);
            if types.len() != con.fk_attrs.len() {
                return Err(
                    DdlError::Parse(
                        concat3("foreign key on ", relname, " references unknown local column"),
                    ),
                );
            }
            let made: String = concat4(relname, "_", join(&con.fk_attrs, "_").as_str(), "_fkey");
            match new_foreign_key(
                db,
                con,
                relname,
                made,
                find_numbers(attrs, &con.fk_attrs),
                &types,
            ) {
                Ok(p) => Ok(Some(p)),
                Err(e) => Err(e),
            }
        },
        _ => Ok(None),
    }
}

fn collect_table(
    db: &PgCatalog,
    relname: &str,
    attrs: &Vec<PgAttribute>,
    elts: &Vec<TableElt>,
    acc: Vec<Pending>,
) -> (r: Result<Vec<Pending>, DdlError>)
    ensures
        pendings_view(r) == table_pendings(
            db@,
            relname@,
            attr_views(attrs@),
            elts@,
            0,
            pending_views(acc@),
        ),
{
    let ghost views = attr_views(attrs@);
    let ghost start = pending_views(acc@);
    let mut list: Vec<Pending> = acc;
    let mut i: usize = 0;
    while i < elts.len()
        invariant
            i <= elts@.len(),
            views == attr_views(attrs@),
            start == pending_views(acc@),
            table_pendings(db@, relname@, views, elts@, 0, start) == table_pendings(
                db@,
                relname@,
                views,
                elts@,
                i as int,
                pending_views(list@),
            ),
        decreases elts.len() - i,
    {
        match &elts[i] {
            TableElt::Constraint(con) => {
                match find_table_pending(db, relname, attrs, con) {
                    Ok(Some(p)) => push_pending(&mut list, p),
                    Ok(None) => {},
                    Err(e) => return Err(e),
                }
            },
            _ => {},
        }
        i = i + 1;
    }
    Ok(list)
}

/// Adds the rows of all constraints of a new table. The targets of foreign keys
/// are looked up before the first row is added.
///
/// # Errors
///
/// A foreign key has no such target, or the OIDs have run out.
pub(crate) fn emit_constraints(
    db: &mut PgCatalog,
    relid: u32,
    relname: &str,
    stmt: &CreateStmt,
) -> (r:
    Result<(), DdlError>)
    ensures
        (ddl_outcome(r), final(db)@) == with_table_constraints(
            old(db)@,
            relid,
            relname@,
            *stmt,
        ),
{
    let attrs: Vec<PgAttribute> = db.attributes_of(relid);
    let l1: Vec<Pending> = match collect_columns(db, relname, &attrs, &stmt.table_elts) {
        Ok(l) => l,
        Err(e) => return Err(e),
    };
    let l2: Vec<Pending> = match collect_table(db, relname, &attrs, &stmt.constraints, l1) {
        Ok(l) => l,
        Err(e) => return Err(e),
    };
    let l3: Vec<Pending> = match collect_table(db, relname, &attrs, &stmt.table_elts, l2) {
        Ok(l) => l,
        Err(e) => return Err(e),
    };
    emit_all(db, relid, &l3)
}

} // verus!

//! The interpreter: which handler a statement goes to.

use super::aggregates::{aggregate_created, define_aggregate};
use super::alter::{rename, renamed, schema_set, set_schema};
use super::alter_table::{alter_table, table_altered};
use super::collations::{collation_created, define_collation};
use super::drop::{drop_objects, objects_dropped};
use super::extensions::{
    extension_position, extract_option, find_extension, find_install_path, find_upgrade_path,
    install_path, list_objects, positions, record_extension_membership, text_option, upgrade_path,
    version_views, with_members, KnownObjects,
};
use super::functions::{create_function, function_created};
use super::indexes::{create_index, index_created};
use super::operators::{define_operator, operator_created};
use super::sequences::{alter_sequence, create_sequence, sequence_checked, sequence_created};
use super::stmt::{
    AlterExtensionStmt, CreateExtensionStmt, CreateSchemaStmt, DefineStmt, ExtensionDef,
    ExtensionVersion, ObjectType, Statement,
};
use super::tables::{create_table, table_created};
use super::types::{
    alter_enum, cast_created, composite_created, create_cast, create_composite, create_domain,
    create_enum, create_range, define_type, domain_created, enum_altered, enum_created,
    range_created, type_defined,
};
use super::util::{ensure_namespace, ensured_namespace, Step};
use super::views::{create_table_as, create_view, table_as_created, view_created};
use super::{ddl_outcome, DdlError, DdlErrorView};
use crate::catalog::{CatalogView, PgCatalog};
use crate::pg_catalog::{PgExtension, PgExtensionView};
use crate::table::{map_get, row_get, row_put};
use crate::text::{concat3, same_text};
use vstd::prelude::*;

verus! {

// ── What statements do ──────────────────────────────────────────────────────

/// What a `CREATE TYPE`, `CREATE OPERATOR`, `CREATE AGGREGATE` or `CREATE COLLATION`
/// does; other definitions do not matter for types.
pub open spec fn defined(c: CatalogView, stmt: DefineStmt) -> Step<()> {
    match stmt.kind {
        ObjectType::Type => type_defined(c, stmt),
        ObjectType::Operator => operator_created(c, stmt),
        ObjectType::Aggregate => aggregate_created(c, stmt),
        ObjectType::Collation => collation_created(c, stmt),
        _ => (Ok(()), c),
    }
}

/// Whether a statement of this kind does not matter for types.
pub open spec fn matters_not(kind: Seq<char>) -> bool {
    ||| kind == "GrantStmt"@
    ||| kind == "CommentStmt"@
    ||| kind == "CreateTrigStmt"@
    ||| kind == "RuleStmt"@
    ||| kind == "ConstraintsSetStmt"@
    ||| kind == "CreatePolicyStmt"@
    ||| kind == "AlterPolicyStmt"@
    ||| kind == "AlterOwnerStmt"@
    ||| kind == "AlterDefaultPrivilegesStmt"@
    ||| kind == "CreateRoleStmt"@
    ||| kind == "AlterRoleStmt"@
    ||| kind == "GrantRoleStmt"@
    ||| kind == "CreateOpClassStmt"@
    ||| kind == "AlterOpFamilyStmt"@
    ||| kind == "AlterOperatorStmt"@
    ||| kind == "SelectStmt"@
    ||| kind == "InsertStmt"@
    ||| kind == "UpdateStmt"@
    ||| kind == "DeleteStmt"@
    ||| kind == "TransactionStmt"@
    ||| kind == "DoStmt"@
    ||| kind == "TruncateStmt"@
    ||| kind == "CopyStmt"@
    ||| kind == "ClusterStmt"@
    ||| kind == "VacuumStmt"@
    ||| kind == "ReindexStmt"@
    ||| kind == "LockStmt"@
    ||| kind == "VariableSetStmt"@
    ||| kind == "VariableShowStmt"@
    ||| kind == "DiscardStmt"@
    ||| kind == "ExplainStmt"@
    ||| kind == "AlterFunctionStmt"@
    ||| kind == "AlterDomainStmt"@
    ||| kind == "NotifyStmt"@
    ||| kind == "ListenStmt"@
    ||| kind == "UnlistenStmt"@
    ||| kind == "AlterExtensionContentsStmt"@
    ||| kind == "CreateAmStmt"@
}

/// What a statement does.
pub open spec fn statement_applied(c: CatalogView, s: Statement) -> Step<()>
    decreases s, 0nat, 0int,
{
    match s {
        Statement::Create(x) => table_created(c, x),
        Statement::AlterTable(x) => table_altered(c, x),
        Statement::CreateDomain(x) => domain_created(c, x),
        Statement::CreateEnum(x) => enum_created(c, x),
        Statement::CompositeType(x) => composite_created(c, x),
        Statement::CreateRange(x) => range_created(c, x),
        Statement::AlterEnum(x) => enum_altered(c, x),
        Statement::Drop(x) => objects_dropped(c, x, 0),
        Statement::CreateSchema(x) => schema_created(c, x),
        Statement::CreateSeq(x) => sequence_created(c, x),
        Statement::AlterSeq(x) => (sequence_checked(c, x), c),
        Statement::CreateFunction(x) => function_created(c, x),
        Statement::View(x) => view_created(c, x),
        Statement::CreateTableAs(x) => table_as_created(c, x),
        Statement::CreateExtension(x) => extension_created(c, x),
        Statement::AlterExtension(x) => extension_altered(c, x),
        Statement::Define(x) => defined(c, x),
        Statement::CreateCast(x) => cast_created(c, x),
        Statement::Rename(x) => renamed(c, x),
        Statement::AlterObjectSchema(x) => schema_set(c, x),
        Statement::Index(x) => index_created(c, x),
        Statement::Other { kind, text } => if matters_not(kind@) {
            (Ok(()), c)
        } else {
            (Err(DdlErrorView::UnsupportedDdl(text@)), c)
        },
    }
}

/// What the statements from `i` on do. The first error ends them; what was done
/// before stays.
pub open spec fn statements_applied(c: CatalogView, list: Seq<Statement>, i: int) -> Step<()>
    decreases list, 0nat, list.len() - i,
{
    if i < 0 || i >= list.len() {
        (Ok(()), c)
    } else {
        match statement_applied(c, list[i]) {
            (Err(e), c1) => (Err(e), c1),
            (Ok(_), c1) => statements_applied(c1, list, i + 1),
        }
    }
}

/// What `CREATE SCHEMA` does: the schema is made, then its statements are applied.
pub open spec fn schema_created(c: CatalogView, stmt: CreateSchemaStmt) -> Step<()>
    decreases stmt, 0nat, 0int,
{
    if stmt.schemaname@.len() == 0 {
        statements_applied(c, stmt.schema_elts@, 0)
    } else {
        match ensured_namespace(c, stmt.schemaname@) {
            (Err(e), c1) => (Err(e), c1),
            (Ok(_), c1) => statements_applied(c1, stmt.schema_elts@, 0),
        }
    }
}

// ── Extensions ──────────────────────────────────────────────────────────────

/// What the script of a version does.
pub open spec fn version_applied(c: CatalogView, v: ExtensionVersion) -> Step<()>
    decreases v, 0nat, 0int,
{
    statements_applied(c, v.script@, 0)
}

/// What the scripts of a path from `k` on do.
pub open spec fn path_applied(
    c: CatalogView,
    vs: Seq<ExtensionVersion>,
    path: Seq<int>,
    k: int,
) -> Step<()>
    decreases vs, 0nat, path.len() - k,
{
    if k < 0 || k >= path.len() || path[k] < 0 || path[k] >= vs.len() {
        (Ok(()), c)
    } else {
        match version_applied(c, vs[path[k]]) {
            (Err(e), c1) => (Err(e), c1),
            (Ok(_), c1) => path_applied(c1, vs, path, k + 1),
        }
    }
}

/// The catalog whose search path begins with a schema.
pub open spec fn searched_first(c: CatalogView, ns: u32) -> CatalogView {
    if c.search_path.len() > 0 && c.search_path[0] == ns {
        c
    } else {
        CatalogView { search_path: seq![ns] + c.search_path, ..c }
    }
}

/// What the scripts of a path do in a schema, which is first in the search path
/// meanwhile.
pub open spec fn scripts_applied(
    c: CatalogView,
    ext: ExtensionDef,
    schema: Seq<char>,
    path: Seq<int>,
) -> Step<()>
    decreases ext, 0nat, 0int,
{
    match ensured_namespace(c, schema) {
        (Err(e), c1) => (Err(e), c1),
        (Ok(ns), c1) => {
            let (r, c2) = path_applied(searched_first(c1, ns), ext.versions@, path, 0);
            (r, CatalogView { search_path: c.search_path, ..c2 })
        },
    }
}

/// A text, or another one where it is missing.
pub open spec fn text_or(t: Option<Seq<char>>, other: Seq<char>) -> Seq<char> {
    match t {
        Some(s) => s,
        None => other,
    }
}

/// What `CREATE EXTENSION` does. What the scripts make belongs to the extension.
pub open spec fn extension_created(c: CatalogView, stmt: CreateExtensionStmt) -> Step<()>
    decreases stmt, 0nat, 0int,
{
    let name = stmt.extname@;
    let k = extension_position(stmt.registry@, name, 0);
    if map_get(c.extension_by_name, (0, name)) is Some {
        if stmt.if_not_exists {
            (Ok(()), c)
        } else {
            (
                Err(DdlErrorView::DuplicateObject("extension \""@ + name + "\" already exists"@)),
                c,
            )
        }
    } else if k < 0 || k >= stmt.registry@.len() {
        (
            Err(
                DdlErrorView::ExtensionError(
                    "unknown extension '"@ + name
                        + "': add a SQL file to cubos_sql_analyzer/src/extensions/ to register it for static analysis"@,
                ),
            ),
            c,
        )
    } else {
        let ext = stmt.registry@[k];
        let version = text_or(
            text_option(stmt.options@, "new_version"@, 0),
            ext.default_version@,
        );
        let schema = text_or(text_option(stmt.options@, "schema"@, 0), "public"@);
        match install_path(ext.name@, version_views(ext.versions@), version) {
            Err(e) => (Err(e), c),
            Ok(path) => match ensured_namespace(c, schema) {
                (Err(e), c1) => (Err(e), c1),
                (Ok(ns), c1) => match c1.allocated() {
                    (Err(e), c2) => (Err(e), c2),
                    (Ok(oid), c2) => {
                        let c3 = c2.with_extension(
                            PgExtensionView {
                                oid,
                                extname: name,
                                extnamespace: ns,
                                extversion: version,
                            },
                        );
                        match scripts_applied(c3, ext, schema, path) {
                            (Err(e), c4) => (Err(e), c4),
                            (Ok(_), c4) => (Ok(()), with_members(c4, oid, c3)),
                        }
                    },
                },
            },
        }
    }
}

/// The catalog in which an extension has another version.
pub open spec fn with_extension_version(
    c: CatalogView,
    oid: u32,
    version: Seq<char>,
) -> CatalogView {
    match row_get::<PgExtension>(c.pg_extension, oid) {
        Some(row) => CatalogView {
            pg_extension: row_put::<PgExtension>(
                c.pg_extension,
                PgExtensionView { extversion: version, ..row },
            ),
            ..c
        },
        None => c,
    }
}

/// The installed version of an extension.
pub open spec fn installed_version(c: CatalogView, oid: u32) -> Seq<char> {
    match row_get::<PgExtension>(c.pg_extension, oid) {
        Some(row) => row.extversion,
        None => Seq::empty(),
    }
}

/// The schema of an extension.
pub open spec fn installed_schema(c: CatalogView, oid: u32) -> Seq<char> {
    match row_get::<PgExtension>(c.pg_extension, oid) {
        Some(row) => text_or(c.namespace_name(row.extnamespace), "public"@),
        None => "public"@,
    }
}

/// What `ALTER EXTENSION ... UPDATE` does.
pub open spec fn extension_altered(c: CatalogView, stmt: AlterExtensionStmt) -> Step<()>
    decreases stmt, 0nat, 0int,
{
    let name = stmt.extname@;
    let k = extension_position(stmt.registry@, name, 0);
    match map_get(c.extension_by_name, (0, name)) {
        None => (
            Err(DdlErrorView::ExtensionError("extension '"@ + name + "' is not installed"@)),
            c,
        ),
        Some(oid) => if k < 0 || k >= stmt.registry@.len() {
            (
                Err(DdlErrorView::ExtensionError("extension '"@ + name + "' not in registry"@)),
                c,
            )
        } else {
            let ext = stmt.registry@[k];
            let version = text_or(
                text_option(stmt.options@, "new_version"@, 0),
                ext.default_version@,
            );
            if installed_version(c, oid) == version {
                (Ok(()), c)
            } else {
                match upgrade_path(
                    ext.name@,
                    version_views(ext.versions@),
                    installed_version(c, oid),
                    version,
                ) {
                    Err(e) => (Err(e), c),
                    Ok(path) => match scripts_applied(c, ext, installed_schema(c, oid), path) {
                        (Err(e), c1) => (Err(e), c1),
                        (Ok(_), c1) => (
                            Ok(()),
                            with_extension_version(with_members(c1, oid, c), oid, version),
                        ),
                    },
                }
            }
        },
    }
}

// ── Carried out ─────────────────────────────────────────────────────────────

fn define(db: &mut PgCatalog, stmt: &DefineStmt) -> (r: Result<(), DdlError>)
    ensures
        (ddl_outcome(r), final(db)@) == defined(old(db)@, *stmt),
{
    match stmt.kind {
        ObjectType::Type => define_type(db, stmt),
        ObjectType::Operator => define_operator(db, stmt),
        ObjectType::Aggregate => define_aggregate(db, stmt),
        ObjectType::Collation => define_collation(db, stmt),
        _ => Ok(()),
    }
}

fn is_irrelevant(kind: &str) -> (r: bool)
    ensures
        r == matters_not(kind@),
{
    same_text(kind, "GrantStmt") || same_text(kind, "CommentStmt")
        || same_text(kind, "CreateTrigStmt") || same_text(kind, "RuleStmt")
        || same_text(kind, "ConstraintsSetStmt") || same_text(kind, "CreatePolicyStmt")
        || same_text(kind, "AlterPolicyStmt") || same_text(kind, "AlterOwnerStmt")
        || same_text(kind, "AlterDefaultPrivilegesStmt") || same_text(kind, "CreateRoleStmt")
        || same_text(kind, "AlterRoleStmt") || same_text(kind, "GrantRoleStmt")
        || same_text(kind, "CreateOpClassStmt") || same_text(kind, "AlterOpFamilyStmt")
        || same_text(kind, "AlterOperatorStmt") || same_text(kind, "SelectStmt")
        || same_text(kind, "InsertStmt") || same_text(kind, "UpdateStmt")
        || same_text(kind, "DeleteStmt") || same_text(kind, "TransactionStmt")
        || same_text(kind, "DoStmt") || same_text(kind, "TruncateStmt")
        || same_text(kind, "CopyStmt") || same_text(kind, "ClusterStmt")
        || same_text(kind, "VacuumStmt") || same_text(kind, "ReindexStmt")
        || same_text(kind, "LockStmt") || same_text(kind, "VariableSetStmt")
        || same_text(kind, "VariableShowStmt") || same_text(kind, "DiscardStmt")
        || same_text(kind, "ExplainStmt") || same_text(kind, "AlterFunctionStmt")
        || same_text(kind, "AlterDomainStmt") || same_text(kind, "NotifyStmt")
        || same_text(kind, "ListenStmt") || same_text(kind, "UnlistenStmt")
        || same_text(kind, "AlterExtensionContentsStmt") || same_text(kind, "CreateAmStmt")
}

/// Applies a statement.
///
/// # Errors
///
/// The statement is not known, or its handler fails.
pub fn apply_statement(db: &mut PgCatalog, stmt: &Statement) -> (r: Result<(), DdlError>)
    ensures
        (ddl_outcome(r), final(db)@) == statement_applied(old(db)@, *stmt),
    decreases stmt, 0nat,
{
    match stmt {
        Statement::Create(x) => create_table(db, x),
        Statement::AlterTable(x) => alter_table(db, x),
        Statement::CreateDomain(x) => create_domain(db, x),
        Statement::CreateEnum(x) => create_enum(db, x),
        Statement::CompositeType(x) => create_composite(db, x),
        Statement::CreateRange(x) => create_range(db, x),
        Statement::AlterEnum(x) => alter_enum(db, x),
        Statement::Drop(x) => drop_objects(db, x),
        Statement::CreateSchema(x) => create_schema(db, x),
        Statement::CreateSeq(x) => create_sequence(db, x),
        Statement::AlterSeq(x) => alter_sequence(db, x),
        Statement::CreateFunction(x) => create_function(db, x),
        Statement::View(x) => create_view(db, x),
        Statement::CreateTableAs(x) => create_table_as(db, x),
        Statement::CreateExtension(x) => create_extension(db, x),
        Statement::AlterExtension(x) => alter_extension(db, x),
        Statement::Define(x) => define(db, x),
        Statement::CreateCast(x) => create_cast(db, x),
        Statement::Rename(x) => rename(db, x),
        Statement::AlterObjectSchema(x) => set_schema(db, x),
        Statement::Index(x) => create_index(db, x),
        Statement::Other { kind, text } => if is_irrelevant(kind.as_str()) {
            Ok(())
        } else {
            Err(DdlError::UnsupportedDdl(text.clone()))
        },
    }
}

/// Applies statements, one after the other.
///
/// # Errors
///
/// A statement fails; those behind it are not applied.
pub fn apply_statements(db: &mut PgCatalog, list: &Vec<Statement>) -> (r: Result<(), DdlError>)
    ensures
        (ddl_outcome(r), final(db)@) == statements_applied(old(db)@, list@, 0),
    decreases list, 0nat,
{
    let mut i: usize = 0;
    while i < list.len()
        invariant
            i <= list@.len(),
            statements_applied(old(db)@, list@, 0) == statements_applied(db@, list@, i as int),
        decreases list.len() - i,
    {
        proof {
            assert(decreases_to!(list => list@[i as int]));
        }
        match apply_statement(db, &list[i]) {
            Ok(_) => {},
            Err(e) => return Err(e),
        }
        i = i + 1;
    }
    Ok(())
}

/// Applies a `CREATE SCHEMA`.
///
/// # Errors
///
/// One of its statements fails, or the OIDs have run out.
pub fn create_schema(db: &mut PgCatalog, stmt: &CreateSchemaStmt) -> (r: Result<(), DdlError>)
    ensures
        (ddl_outcome(r), final(db)@) == schema_created(old(db)@, *stmt),
    decreases stmt, 0nat,
{
    if !stmt.schemaname.as_str().is_empty() {
        match ensure_namespace(db, stmt.schemaname.as_str()) {
            Ok(_) => {},
            Err(e) => return Err(e),
        }
    }
    apply_statements(db, &stmt.schema_elts)
}

fn apply_version(db: &mut PgCatalog, v: &ExtensionVersion) -> (r: Result<(), DdlError>)
    ensures
        (ddl_outcome(r), final(db)@) == version_applied(old(db)@, *v),
    decreases v, 0nat,
{
    apply_statements(db, &v.script)
}

fn apply_path(db: &mut PgCatalog, vs: &Vec<ExtensionVersion>, path: &Vec<usize>) -> (r: Result<
    (),
    DdlError,
>)
    requires
        forall|k: int| 0 <= k < path@.len() ==> #[trigger] path@[k] < vs@.len(),
    ensures
        (ddl_outcome(r), final(db)@) == path_applied(old(db)@, vs@, positions(path@), 0),
    decreases vs, 0nat,
{
    let ghost steps = positions(path@);
    let mut k: usize = 0;
    while k < path.len()
        invariant
            forall|k: int| 0 <= k < path@.len() ==> #[trigger] path@[k] < vs@.len(),
            steps == positions(path@),
            k <= path@.len(),
            path_applied(old(db)@, vs@, steps, 0) == path_applied(db@, vs@, steps, k as int),
        decreases path.len() - k,
    {
        let i: usize = path[k];
        proof {
            assert(steps[k as int] == i);
            assert(decreases_to!(vs => vs@[i as int]));
        }
        match apply_version(db, &vs[i]) {
            Ok(_) => {},
            Err(e) => return Err(e),
        }
        k = k + 1;
    }
    Ok(())
}

/// Applies the scripts of a path with their schema first in the search path.
fn apply_with_schema(db: &mut PgCatalog, ext: &ExtensionDef, schema: &str, path: &Vec<usize>) -> (r:
    Result<(), DdlError>)
    requires
        forall|k: int| 0 <= k < path@.len() ==> #[trigger] path@[k] < ext.versions@.len(),
    ensures
        (ddl_outcome(r), final(db)@) == scripts_applied(
            old(db)@,
            *ext,
            schema@,
            positions(path@),
        ),
    decreases ext, 0nat,
{
    let original: Vec<u32> = crate::table::copy_numbers(&db.search_path);
    let ns: u32 = match ensure_namespace(db, schema) {
        Ok(ns) => ns,
        Err(e) => return Err(e),
    };
    if db.search_path.len() == 0 || db.search_path[0] != ns {
        let ghost before = db@;
        db.search_path.insert(0, ns);
        proof {
            assert(db@.search_path =~= seq![ns] + before.search_path);
        }
    }
    let r: Result<(), DdlError> = apply_path(db, &ext.versions, path);
    db.search_path = original;
    r
}

/// Applies a `CREATE EXTENSION`.
///
/// # Errors
///
/// The extension is installed already and `IF NOT EXISTS` is not written, it is not
/// known, no scripts lead to the version, or a script fails.
pub fn create_extension(db: &mut PgCatalog, stmt: &CreateExtensionStmt) -> (r: Result<
    (),
    DdlError,
>)
    ensures
        (ddl_outcome(r), final(db)@) == extension_created(old(db)@, *stmt),
    decreases stmt, 0nat,
{
    let name: &str = stmt.extname.as_str();
    if db.extension_by_name.get(0, name).is_some() {
        if stmt.if_not_exists {
            return Ok(());
        }
        return Err(
            DdlError::DuplicateObject(concat3("extension \"", name, "\" already exists")),
        );
    }
    let k: usize = find_extension(&stmt.registry, name);
    if k >= stmt.registry.len() {
        return Err(
            DdlError::ExtensionError(
                concat3(
                    "unknown extension '",
                    name,
                    "': add a SQL file to cubos_sql_analyzer/src/extensions/ to register it for static analysis",
                ),
            ),
        );
    }
    let ext: &ExtensionDef = &stmt.registry[k];
    let version: String = match extract_option(&stmt.options, "new_version") {
        Some(v) => v,
        None => ext.default_version.clone(),
    };
    let schema: String = match extract_option(&stmt.options, "schema") {
        Some(s) => s,
        None => "public".to_owned(),
    };
    let path: Vec<usize> = match find_install_path(ext, version.as_str()) {
        Ok(p) => p,
        Err(e) => return Err(e),
    };
    let ns: u32 = match ensure_namespace(db, schema.as_str()) {
        Ok(ns) => ns,
        Err(e) => return Err(e),
    };
    let oid: u32 = match db.alloc_oid() {
        Ok(oid) => oid,
        Err(e) => return Err(e),
    };
    db.insert_pg_extension(
        PgExtension { oid, extname: name.to_owned(), extnamespace: ns, extversion: version },
    );
    let known: KnownObjects = list_objects(db);
    let ghost before = db@;
    proof {
        assert(decreases_to!(stmt => stmt.registry@[k as int]));
    }
    match apply_with_schema(db, ext, schema.as_str(), &path) {
        Ok(_) => {},
        Err(e) => return Err(e),
    }
    record_extension_membership(db, oid, &known, Ghost(before));
    Ok(())
}

/// Applies an `ALTER EXTENSION ... UPDATE`.
///
/// # Errors
///
/// The extension is not installed or not known, no scripts lead to the version, or a
/// script fails.
pub fn alter_extension(db: &mut PgCatalog, stmt: &AlterExtensionStmt) -> (r: Result<(), DdlError>)
    ensures
        (ddl_outcome(r), final(db)@) == extension_altered(old(db)@, *stmt),
    decreases stmt, 0nat,
{
    let name: &str = stmt.extname.as_str();
    let oid: u32 = match db.extension_by_name.get(0, name) {
        Some(oid) => oid,
        None => return Err(
            DdlError::ExtensionError(concat3("extension '", name, "' is not installed")),
        ),
    };
    let (installed, schema): (String, String) = match db.pg_extension.get(oid) {
        Some(row) => (
            row.extversion.clone(),
            match db.namespace_name(row.extnamespace) {
                Some(s) => s.to_owned(),
                None => "public".to_owned(),
            },
        ),
        None => (String::new(), "public".to_owned()),
    };
    let k: usize = find_extension(&stmt.registry, name);
    if k >= stmt.registry.len() {
        return Err(DdlError::ExtensionError(concat3("extension '", name, "' not in registry")));
    }
    let ext: &ExtensionDef = &stmt.registry[k];
    let version: String = match extract_option(&stmt.options, "new_version") {
        Some(v) => v,
        None => ext.default_version.clone(),
    };
    if same_text(installed.as_str(), version.as_str()) {
        return Ok(());
    }
    let path: Vec<usize> = match find_upgrade_path(ext, installed.as_str(), version.as_str()) {
        Ok(p) => p,
        Err(e) => return Err(e),
    };
    let known: KnownObjects = list_objects(db);
    let ghost before = db@;
    proof {
        assert(decreases_to!(stmt => stmt.registry@[k as int]));
    }
    match apply_with_schema(db, ext, schema.as_str(), &path) {
        Ok(_) => {},
        Err(e) => return Err(e),
    }
    record_extension_membership(db, oid, &known, Ghost(before));
    let row: Option<PgExtension> = match db.pg_extension.get(oid) {
        Some(row) => Some(
            PgExtension {
                oid: row.oid,
                extname: row.extname.clone(),
                extnamespace: row.extnamespace,
                extversion: version,
            },
        ),
        None => None,
    };
    match row {
        Some(row) => db.pg_extension.insert(row),
        None => {},
    }
    Ok(())
}

} // verus!

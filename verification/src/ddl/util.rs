//! What the handlers of the schema statements share.

use super::{DdlError, DdlErrorView};
use crate::ast::{qualified, Node, RangeVar, TypeName};
use crate::catalog::{CatalogView, PgCatalog};
use crate::expr::{first_array_of, split_name};
use crate::infer::find_array_over;
use crate::lookup::opt_str;
use crate::pg_catalog::{
    CastContext, CastMethod, PgCast, PgNamespace, PgNamespaceView, TypCategory, RECORD,
};
use crate::scope::QualifiedName;
use crate::text::{concat2, same_text, texts};
use vstd::prelude::*;

verus! {

/// What a step of the interpreter gives, and the catalog behind it.
pub type Step<T> = (Result<T, DdlErrorView>, CatalogView);

// ── Names ───────────────────────────────────────────────────────────────────

/// The schema of a name that is written without one: the first of the search
/// path, or `public`.
pub open spec fn default_schema(c: CatalogView) -> Seq<char> {
    if c.search_path.len() > 0 {
        match c.namespace_name(c.search_path[0]) {
            Some(s) => s,
            None => "public"@,
        }
    } else {
        "public"@
    }
}

/// The schema and the name that a relation is written with.
pub open spec fn range_names(c: CatalogView, rv: RangeVar) -> (Seq<char>, Seq<char>) {
    (
        if rv.schemaname@.len() == 0 {
            default_schema(c)
        } else {
            rv.schemaname@
        },
        rv.relname@,
    )
}

/// The schema and the name that a list of name parts stands for.
pub open spec fn listed_names(c: CatalogView, parts: Seq<Seq<char>>) -> (Seq<char>, Seq<char>) {
    match qualified(parts) {
        Some((Some(schema), name)) => (schema, name),
        Some((None, name)) => (default_schema(c), name),
        None => ("public"@, Seq::empty()),
    }
}

/// The schema of a name that is written without one.
pub fn default_schema_name(db: &PgCatalog) -> (r: String)
    ensures
        r@ == default_schema(db@),
{
    if db.search_path.len() > 0 {
        match db.namespace_name(db.search_path[0]) {
            Some(s) => return s.to_owned(),
            None => {},
        }
    }
    "public".to_owned()
}

/// The schema and the name that a relation is written with. Without a schema it
/// is the first of the search path.
pub fn range_var_names(rv: &RangeVar, db: &PgCatalog) -> (r: (String, String))
    ensures
        (r.0@, r.1@) == range_names(db@, *rv),
{
    let schema: String = if rv.schemaname.as_str().is_empty() {
        default_schema_name(db)
    } else {
        rv.schemaname.clone()
    };
    (schema, rv.relname.clone())
}

/// The qualified name that a relation is written with.
pub fn range_var_key(rv: &RangeVar, db: &PgCatalog) -> (r: QualifiedName)
    ensures
        (r.schema@, r.name@) == range_names(db@, *rv),
{
    let (schema, name): (String, String) = range_var_names(rv, db);
    QualifiedName { schema, name }
}

/// The schema and the name that a list of name parts stands for.
pub fn extract_names(names: &Vec<String>, db: &PgCatalog) -> (r: (String, String))
    ensures
        (r.0@, r.1@) == listed_names(db@, texts(names@)),
{
    match split_name(names) {
        Some((Some(schema), name)) => (schema.to_owned(), name.to_owned()),
        Some((None, name)) => (default_schema_name(db), name.to_owned()),
        None => ("public".to_owned(), String::new()),
    }
}

/// The qualified name that a list of name parts stands for.
pub fn names_key(names: &Vec<String>, db: &PgCatalog) -> (r: QualifiedName)
    ensures
        (r.schema@, r.name@) == listed_names(db@, texts(names@)),
{
    let (schema, name): (String, String) = extract_names(names, db);
    QualifiedName { schema, name }
}

/// The text that a node holds.
pub fn node_string(n: &Node) -> (r: Option<&str>)
    ensures
        opt_str(r) == (match *n {
            Node::Text(s) => Some(s@),
            _ => None,
        }),
{
    match n {
        Node::Text(s) => Some(s.as_str()),
        _ => None,
    }
}

// ── Types ───────────────────────────────────────────────────────────────────

/// The name of a type in the catalog, for the ways to write it.
pub open spec fn canonical(name: Seq<char>) -> Seq<char> {
    if name == "integer"@ || name == "int"@ || name == "serial"@ {
        "int4"@
    } else if name == "smallint"@ || name == "smallserial"@ {
        "int2"@
    } else if name == "bigint"@ || name == "bigserial"@ {
        "int8"@
    } else if name == "real"@ {
        "float4"@
    } else if name == "double precision"@ || name == "double"@ {
        "float8"@
    } else if name == "boolean"@ {
        "bool"@
    } else if name == "character varying"@ {
        "varchar"@
    } else if name == "character"@ || name == "char"@ {
        "bpchar"@
    } else if name == "decimal"@ {
        "numeric"@
    } else {
        name
    }
}

/// The name of a type in the catalog, for the ways to write it.
pub fn normalize_type_name(name: &str) -> (r: &str)
    ensures
        r@ == canonical(name@),
{
    if same_text(name, "integer") || same_text(name, "int") || same_text(name, "serial") {
        "int4"
    } else if same_text(name, "smallint") || same_text(name, "smallserial") {
        "int2"
    } else if same_text(name, "bigint") || same_text(name, "bigserial") {
        "int8"
    } else if same_text(name, "real") {
        "float4"
    } else if same_text(name, "double precision") || same_text(name, "double") {
        "float8"
    } else if same_text(name, "boolean") {
        "bool"
    } else if same_text(name, "character varying") {
        "varchar"
    } else if same_text(name, "character") || same_text(name, "char") {
        "bpchar"
    } else if same_text(name, "decimal") {
        "numeric"
    } else {
        name
    }
}

/// None of the names in the catalog is another way to write a type.
proof fn lemma_catalog_names_differ(c: Seq<char>)
    requires
        c == "int4"@ || c == "int2"@ || c == "int8"@ || c == "float4"@ || c == "float8"@ || c
            == "bool"@ || c == "varchar"@ || c == "bpchar"@ || c == "numeric"@,
    ensures
        canonical(c) == c,
{
    reveal_strlit("integer");
    reveal_strlit("int");
    reveal_strlit("serial");
    reveal_strlit("smallint");
    reveal_strlit("smallserial");
    reveal_strlit("bigint");
    reveal_strlit("bigserial");
    reveal_strlit("real");
    reveal_strlit("double precision");
    reveal_strlit("double");
    reveal_strlit("boolean");
    reveal_strlit("character varying");
    reveal_strlit("character");
    reveal_strlit("char");
    reveal_strlit("decimal");
    reveal_strlit("int4");
    reveal_strlit("int2");
    reveal_strlit("int8");
    reveal_strlit("float4");
    reveal_strlit("float8");
    reveal_strlit("bool");
    reveal_strlit("varchar");
    reveal_strlit("bpchar");
    reveal_strlit("numeric");
    // Where the lengths agree, some letter does not.
    assert(c.len() == 4 || c.len() == 6 || c.len() == 7);
    assert("real"@[0] == 'r' && "char"@[0] == 'c');
    assert("serial"@[0] == 's' && "bigint"@[1] == 'i' && "double"@[0] == 'd');
    assert("integer"@[0] == 'i' && "boolean"@[0] == 'b' && "decimal"@[0] == 'd');
    assert("int4"@[0] == 'i' && "int2"@[0] == 'i' && "int8"@[0] == 'i' && "bool"@[0] == 'b');
    assert("float4"@[0] == 'f' && "float8"@[0] == 'f' && "bpchar"@[0] == 'b' && "bpchar"@[1]
        == 'p');
    assert("varchar"@[0] == 'v' && "numeric"@[0] == 'n');
}

/// The name of a type in the catalog stands for itself: to look up the name that a way
/// of writing a type stands for is to look up that way of writing it.
pub proof fn law_canonical_names_stay(name: Seq<char>)
    ensures
        canonical(canonical(name)) == canonical(name),
{
    let c = canonical(name);
    if c != name {
        assert(c == "int4"@ || c == "int2"@ || c == "int8"@ || c == "float4"@ || c == "float8"@
            || c == "bool"@ || c == "varchar"@ || c == "bpchar"@ || c == "numeric"@);
        lemma_catalog_names_differ(c);
    }
}

/// The type that a written type stands for, if there is one.
pub open spec fn named_type(c: CatalogView, tn: TypeName) -> Option<u32> {
    match qualified(texts(tn.names@)) {
        None => None,
        Some((schema, name)) => match c.resolve_type(schema, canonical(name)) {
            Some(oid) => if tn.is_array {
                first_array_of(c.pg_type, oid)
            } else {
                Some(oid)
            },
            None => None,
        },
    }
}

/// The type that an optional written type stands for.
pub open spec fn opt_named_type(c: CatalogView, tn: Option<TypeName>) -> Option<u32> {
    match tn {
        Some(t) => named_type(c, t),
        None => None,
    }
}

/// The type that a written type stands for: with or without a schema, under its
/// name in the catalog or another common one, or an array of such a type.
pub fn resolve_type_name(tn: &TypeName, db: &PgCatalog) -> (r: Option<u32>)
    ensures
        r == named_type(db@, *tn),
{
    match split_name(&tn.names) {
        None => None,
        Some((schema, raw_name)) => {
            let name: &str = normalize_type_name(raw_name);
            match db.resolve_type_by_name(schema, name) {
                Some(oid) => if tn.is_array {
                    find_array_over(db, oid)
                } else {
                    Some(oid)
                },
                None => None,
            }
        },
    }
}

/// The type that an optional written type stands for.
pub(crate) fn resolve_opt_type(tn: &Option<TypeName>, db: &PgCatalog) -> (r: Option<u32>)
    ensures
        r == opt_named_type(db@, *tn),
{
    match tn {
        Some(t) => resolve_type_name(t, db),
        None => None,
    }
}

/// The name by which PostgreSQL's messages call a type.
pub open spec fn message_name(name: Seq<char>) -> Seq<char> {
    if name == "int2"@ {
        "smallint"@
    } else if name == "int4"@ {
        "integer"@
    } else if name == "int8"@ {
        "bigint"@
    } else if name == "float4"@ {
        "real"@
    } else if name == "float8"@ {
        "double precision"@
    } else if name == "bool"@ {
        "boolean"@
    } else if name == "varchar"@ {
        "character varying"@
    } else if name == "bpchar"@ {
        "character"@
    } else if name == "varbit"@ {
        "bit varying"@
    } else if name == "time"@ {
        "time without time zone"@
    } else if name == "timetz"@ {
        "time with time zone"@
    } else if name == "timestamp"@ {
        "timestamp without time zone"@
    } else if name == "timestamptz"@ {
        "timestamp with time zone"@
    } else {
        name
    }
}

/// A type as messages call it; an array by its element type.
pub open spec fn message_type(c: CatalogView, oid: u32) -> Seq<char> {
    match c.get_type(oid) {
        None => "unknown"@,
        Some(t) => match t.typelem {
            Some(e) => match c.get_type(e) {
                Some(elem) => if t.typcategory == TypCategory::Array {
                    message_name(elem.typname) + "[]"@
                } else {
                    message_name(t.typname)
                },
                None => message_name(t.typname),
            },
            None => message_name(t.typname),
        },
    }
}

fn plain_message_name(name: &str) -> (r: &str)
    ensures
        r@ == message_name(name@),
{
    if same_text(name, "int2") {
        "smallint"
    } else if same_text(name, "int4") {
        "integer"
    } else if same_text(name, "int8") {
        "bigint"
    } else if same_text(name, "float4") {
        "real"
    } else if same_text(name, "float8") {
        "double precision"
    } else if same_text(name, "bool") {
        "boolean"
    } else if same_text(name, "varchar") {
        "character varying"
    } else if same_text(name, "bpchar") {
        "character"
    } else if same_text(name, "varbit") {
        "bit varying"
    } else if same_text(name, "time") {
        "time without time zone"
    } else if same_text(name, "timetz") {
        "time with time zone"
    } else if same_text(name, "timestamp") {
        "timestamp without time zone"
    } else if same_text(name, "timestamptz") {
        "timestamp with time zone"
    } else {
        name
    }
}

/// A type as messages call it: `integer` rather than `int4`.
pub fn format_type_for_message(db: &PgCatalog, oid: u32) -> (r: String)
    ensures
        r@ == message_type(db@, oid),
{
    match db.get_type(oid) {
        None => "unknown".to_owned(),
        Some(t) => {
            match t.typelem {
                Some(e) => match db.get_type(e) {
                    Some(elem) => {
                        let is_array: bool = match t.typcategory {
                            TypCategory::Array => true,
                            _ => false,
                        };
                        if is_array {
                            return concat2(plain_message_name(elem.typname.as_str()), "[]");
                        }
                    },
                    None => {},
                },
                None => {},
            }
            plain_message_name(t.typname.as_str()).to_owned()
        },
    }
}

// ── Schemas ─────────────────────────────────────────────────────────────────

/// The schema of this name, which is made where it is missing.
pub open spec fn ensured_namespace(c: CatalogView, name: Seq<char>) -> Step<u32> {
    match c.namespace_oid(name) {
        Some(oid) => (Ok(oid), c),
        None => match c.allocated() {
            (Ok(oid), c1) => (Ok(oid), c1.with_namespace(PgNamespaceView { oid, nspname: name })),
            (Err(e), c1) => (Err(e), c1),
        },
    }
}

/// The schema of a relation, which is made where it is missing, and its name.
pub open spec fn ensured_range(c: CatalogView, rv: RangeVar) -> Step<(u32, Seq<char>)> {
    let (schema, name) = range_names(c, rv);
    match ensured_namespace(c, schema) {
        (Ok(ns), c1) => (Ok((ns, name)), c1),
        (Err(e), c1) => (Err(e), c1),
    }
}

/// The schema of a name, which is made where it is missing, and the name.
pub open spec fn ensured_names(c: CatalogView, parts: Seq<Seq<char>>) -> Step<(u32, Seq<char>)> {
    let (schema, name) = listed_names(c, parts);
    match ensured_namespace(c, schema) {
        (Ok(ns), c1) => (Ok((ns, name)), c1),
        (Err(e), c1) => (Err(e), c1),
    }
}

/// A schema and a name as a value.
pub open spec fn place_view(r: Result<(u32, String), DdlError>) -> Result<
    (u32, Seq<char>),
    DdlErrorView,
> {
    match r {
        Ok((ns, name)) => Ok((ns, name@)),
        Err(e) => Err(e@),
    }
}

/// The schema of this name, which is made where it is missing.
pub fn ensure_namespace(db: &mut PgCatalog, name: &str) -> (r: Result<u32, DdlError>)
    ensures
        (super::ddl_outcome(r), final(db)@) == ensured_namespace(old(db)@, name@),
{
    match db.namespace_oid(name) {
        Some(oid) => Ok(oid),
        None => match db.alloc_oid() {
            Ok(oid) => {
                db.insert_pg_namespace(PgNamespace { oid, nspname: name.to_owned() });
                Ok(oid)
            },
            Err(e) => Err(e),
        },
    }
}

/// The schema of a relation, which is made where it is missing, and its name.
pub fn ensure_range_var(db: &mut PgCatalog, rv: &RangeVar) -> (r: Result<(u32, String), DdlError>)
    ensures
        (place_view(r), final(db)@) == ensured_range(old(db)@, *rv),
{
    let (schema, name): (String, String) = range_var_names(rv, db);
    match ensure_namespace(db, schema.as_str()) {
        Ok(ns) => Ok((ns, name)),
        Err(e) => Err(e),
    }
}

/// The schema of a name, which is made where it is missing, and the name.
pub fn ensure_qualified_name(db: &mut PgCatalog, names: &Vec<String>) -> (r: Result<
    (u32, String),
    DdlError,
>)
    ensures
        (place_view(r), final(db)@) == ensured_names(old(db)@, texts(names@)),
{
    let (schema, name): (String, String) = extract_names(names, db);
    match ensure_namespace(db, schema.as_str()) {
        Ok(ns) => Ok((ns, name)),
        Err(e) => Err(e),
    }
}

// ── Casts ───────────────────────────────────────────────────────────────────

/// A composite type can be taken for a `record`.
pub open spec fn with_record_cast(c: CatalogView, composite: u32) -> Step<()> {
    match c.allocated() {
        (Ok(oid), c1) => (
            Ok(()),
            c1.with_cast(
                PgCast {
                    oid,
                    castsource: composite,
                    casttarget: RECORD,
                    castcontext: CastContext::Implicit,
                    castmethod: CastMethod::Binary,
                },
            ),
        ),
        (Err(e), c1) => (Err(e), c1),
    }
}

/// Notes that a composite type can be taken for a `record`.
pub fn register_composite_to_record_cast(db: &mut PgCatalog, composite: u32) -> (r: Result<
    (),
    DdlError,
>)
    ensures
        (super::ddl_outcome(r), final(db)@) == with_record_cast(old(db)@, composite),
{
    match db.alloc_oid() {
        Ok(oid) => {
            db.insert_pg_cast(
                PgCast {
                    oid,
                    castsource: composite,
                    casttarget: RECORD,
                    castcontext: CastContext::Implicit,
                    castmethod: CastMethod::Binary,
                },
            );
            Ok(())
        },
        Err(e) => Err(e),
    }
}

} // verus!

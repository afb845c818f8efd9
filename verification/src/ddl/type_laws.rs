//! What the definitions of types, casts, functions and views leave in the catalog.

use super::drop::type_at;
use super::functions::{
    arg_mode, is_output, is_plain, output_types, recorded, return_type, routine_row, says_strict,
    signature, SignatureView,
};
use super::laws::law_array_type_is_linked;
use super::stmt::{
    AlterEnumStmt, CoercionContext, ColumnDef, CompositeTypeStmt, ConstrType, CreateCastStmt,
    CreateDomainStmt, CreateFunctionStmt, CreateRangeStmt, FunctionParameter, FunctionParameterMode,
    StoredQuery,
};
use super::tables::MAX_ATTNUM;
use super::types::{
    cast_created, composite_created, composite_fields, domain_created, domain_row, enum_altered,
    field_row, label_position, new_label_position, plain_type_row, range_created, range_subtype,
    with_array_type, with_fields, FieldView,
};
use super::util::{ensured_names, ensured_range, listed_names, opt_named_type};
use super::views::{
    relation_installed, resolved_query, resolved_row, with_resolved_columns, ResolvedColumnView,
};
use super::DdlErrorView;
use crate::ast::RangeVar;
use crate::catalog::{attr_inserted, CatalogView};
use crate::catalog_laws::law_put_row_is_found;
use crate::pg_catalog::{
    ArgMode, CastContext, CastMethod, EnumLabels, EnumLabelsView, PgAttributeView, PgCast,
    PgClassView, PgEnumView, PgRange, PgType, PgTypeView, ProKind, RelAttrs, RelAttrsView, RelKind,
    TypCategory, TypType,
};
use crate::table::row_get;
use crate::text::texts;
use vstd::prelude::*;

verus! {

// ── Types ───────────────────────────────────────────────────────────────────

/// A type and its array type know each other.
pub open spec fn has_array(c: CatalogView, oid: u32) -> bool {
    c.get_type(oid) matches Some(t) && t.typarray matches Some(a) && c.get_type(a) matches Some(
        row,
    ) && row.typelem == Some(oid) && row.typcategory == TypCategory::Array && row.typnamespace
        == t.typnamespace && row.typname == "_"@ + t.typname
}

proof fn lemma_new_type_has_array(c: CatalogView, row: PgTypeView)
    requires
        row.oid < c.next_oid,
        c.next_oid < u32::MAX,
    ensures
        ({
            let (r, after) = with_array_type(
                c.with_type(row),
                row.typnamespace,
                row.typname,
                row.oid,
            );
            &&& r is Ok
            &&& has_array(after, row.oid)
            &&& after.get_type(row.oid) == Some(PgTypeView { typarray: Some(c.next_oid), ..row })
            &&& row.typname != "_"@ + row.typname
            &&& after.type_named(row.typnamespace, row.typname) == Some(row.oid)
            &&& after.pg_range == c.pg_range
        }),
{
    law_put_row_is_found::<PgType>(c.pg_type, row, row.oid);
    law_array_type_is_linked(c.with_type(row), row.typnamespace, row.typname, row.oid);
    reveal_strlit("_");
    assert(("_"@ + row.typname).len() == row.typname.len() + 1);
}

/// A domain that was made is over its base type, has its category and modifier, and is never
/// null just where one of its constraints is `NOT NULL`. It has an array type.
pub proof fn law_created_domain_is_over_its_base(
    c: CatalogView,
    stmt: CreateDomainStmt,
    ns: u32,
    name: Seq<char>,
)
    requires
        ensured_names(c, texts(stmt.domainname@)).0 == Ok::<(u32, Seq<char>), DdlErrorView>(
            (ns, name),
        ),
        domain_created(c, stmt).0 is Ok,
    ensures
        ({
            let before = ensured_names(c, texts(stmt.domainname@)).1;
            let after = domain_created(c, stmt).1;
            let oid = before.next_oid;
            &&& after.type_named(ns, name) == Some(oid)
            &&& has_array(after, oid)
            &&& opt_named_type(before, stmt.target) is Some
            &&& after.get_type(oid) matches Some(row) && row.typtype == TypType::Domain
                && row.typbasetype == opt_named_type(before, stmt.target) && (row.typnotnull
                <==> exists|i: int|
                0 <= i < stmt.constraints@.len() && (#[trigger] stmt.constraints@[i]).contype
                    == ConstrType::NotNull) && (stmt.target matches Some(t) && (t.typmod matches Ok(m)
                ==> row.typtypmod == m)) && (before.get_type(
                opt_named_type(before, stmt.target)->0,
            ) matches Some(base) ==> row.typcategory == base.typcategory)
        }),
{
    let before = ensured_names(c, texts(stmt.domainname@)).1;
    let oid = before.next_oid;
    let c2 = before.allocated().1;
    let base = opt_named_type(before, stmt.target)->0;
    let typmod = super::tables::modifier_of(stmt.target)->Ok_0;
    let row = domain_row(
        c2,
        oid,
        ns,
        name,
        base,
        typmod,
        super::types::some_not_null(stmt.constraints@),
    );
    lemma_new_type_has_array(c2, row);
}

/// A range type that was made is a range over its subtype, and has an array type.
pub proof fn law_created_range_is_over_its_subtype(
    c: CatalogView,
    stmt: CreateRangeStmt,
    ns: u32,
    name: Seq<char>,
    subtype: u32,
)
    requires
        ensured_names(c, texts(stmt.names@)).0 == Ok::<(u32, Seq<char>), DdlErrorView>((ns, name)),
        range_subtype(ensured_names(c, texts(stmt.names@)).1, stmt.params@) == Some(subtype),
        range_created(c, stmt).0 is Ok,
    ensures
        ({
            let oid = ensured_names(c, texts(stmt.names@)).1.next_oid;
            let after = range_created(c, stmt).1;
            &&& after.type_named(ns, name) == Some(oid)
            &&& has_array(after, oid)
            &&& after.get_type(oid) matches Some(row) && row.typtype == TypType::Range
                && row.typcategory == TypCategory::Range
            &&& row_get::<PgRange>(after.pg_range, oid) == Some(
                PgRange { rngtypid: oid, rngsubtype: subtype },
            )
        }),
{
    let before = ensured_names(c, texts(stmt.names@)).1;
    let oid = before.next_oid;
    let c2 = before.allocated().1;
    let row = plain_type_row(oid, name, ns, TypType::Range, TypCategory::Range);
    let range = PgRange { rngtypid: oid, rngsubtype: subtype };
    let c3 = c2.with_type(row).with_range(range);
    law_put_row_is_found::<PgType>(c2.pg_type, row, oid);
    law_put_row_is_found::<PgRange>(c2.pg_range, range, oid);
    law_array_type_is_linked(c3, ns, name, oid);
    reveal_strlit("_");
    assert(("_"@ + name).len() == name.len() + 1);
}

/// A label that is added stands right behind or right before its neighbour, as the statement
/// says, or last where it names none.
pub proof fn law_new_label_stands_beside_its_neighbour(
    c: CatalogView,
    stmt: AlterEnumStmt,
    oid: u32,
    k: int,
)
    requires
        type_at(c, listed_names(c, texts(stmt.names@))) == Some(oid),
        c.get_type(oid) is Some && c.get_type(oid)->Some_0.typtype == TypType::Enum,
        forall|i: int|
            0 <= i < c.labels_of(oid).len() ==> (#[trigger] c.labels_of(oid)[i]).enumlabel
                != stmt.new_val@,
        enum_altered(c, stmt).0 is Ok,
        stmt.new_val_neighbor@.len() > 0 ==> 0 <= k < c.labels_of(oid).len() && c.labels_of(
            oid,
        )[k].enumlabel == stmt.new_val_neighbor@ && forall|i: int|
            0 <= i < k ==> (#[trigger] c.labels_of(oid)[i]).enumlabel != stmt.new_val_neighbor@,
    ensures
        ({
            let before = c.labels_of(oid);
            let after = enum_altered(c, stmt).1.labels_of(oid);
            let at = if stmt.new_val_neighbor@.len() == 0 {
                before.len() as int
            } else if stmt.new_val_is_after {
                k + 1
            } else {
                k
            };
            &&& after.len() == before.len() + 1
            &&& after[at].enumlabel == stmt.new_val@
            &&& after[at].enumtypid == oid
            &&& after.remove(at) == before
        }),
{
    let labels = c.labels_of(oid);
    lemma_no_label(labels, stmt.new_val@);
    if stmt.new_val_neighbor@.len() > 0 {
        lemma_label_at(labels, stmt.new_val_neighbor@, k);
    }
    let at = new_label_position(labels, stmt);
    let label = PgEnumView { oid: c.next_oid, enumtypid: oid, enumlabel: stmt.new_val@ };
    law_put_row_is_found::<EnumLabels>(
        c.pg_enum,
        EnumLabelsView { typid: oid, labels: labels.insert(at, label) },
        oid,
    );
    assert(labels.insert(at, label).remove(at) =~= labels);
}

proof fn lemma_no_label(labels: Seq<PgEnumView>, text: Seq<char>)
    requires
        forall|i: int| 0 <= i < labels.len() ==> (#[trigger] labels[i]).enumlabel != text,
    ensures
        label_position(labels, text) == labels.len(),
    decreases labels.len(),
{
    if labels.len() > 0 {
        assert(labels[0].enumlabel != text);
        let rest = labels.drop_first();
        assert forall|i: int| 0 <= i < rest.len() implies (#[trigger] rest[i]).enumlabel
            != text by {
            assert(labels[i + 1].enumlabel != text);
        }
        lemma_no_label(rest, text);
    }
}

proof fn lemma_label_at(labels: Seq<PgEnumView>, text: Seq<char>, k: int)
    requires
        0 <= k < labels.len(),
        labels[k].enumlabel == text,
        forall|i: int| 0 <= i < k ==> (#[trigger] labels[i]).enumlabel != text,
    ensures
        label_position(labels, text) == k,
    decreases k,
{
    if k > 0 {
        assert(labels[0].enumlabel != text);
        let rest = labels.drop_first();
        assert forall|i: int| 0 <= i < k - 1 implies (#[trigger] rest[i]).enumlabel != text by {
            assert(labels[i + 1].enumlabel != text);
        }
        lemma_label_at(rest, text, k - 1);
    }
}

/// A cast that was made leads from its source to its target, is applied without a word, on
/// assignment or only where it is written, as the statement says, and is carried out by text,
/// by a function, or not at all where the two have the same bytes.
pub proof fn law_created_cast_is_found(
    c: CatalogView,
    stmt: CreateCastStmt,
    source: u32,
    target: u32,
)
    requires
        opt_named_type(c, stmt.sourcetype) == Some(source),
        opt_named_type(c, stmt.targettype) == Some(target),
        cast_created(c, stmt).0 is Ok,
    ensures
        cast_created(c, stmt).1.cast_between(source, target) matches Some(k) && k.castcontext
            == (match stmt.context {
            CoercionContext::Implicit => CastContext::Implicit,
            CoercionContext::Assignment => CastContext::Assignment,
            CoercionContext::Other => CastContext::Explicit,
        }) && (k.castmethod == CastMethod::InOut <==> stmt.inout) && (k.castmethod
            == CastMethod::Function <==> !stmt.inout && stmt.has_func),
        forall|s: u32, t: u32|
            (s, t) != (source, target) && (c.cast_between(s, t) matches Some(k) && k.oid
                < c.next_oid) ==> #[trigger] cast_created(c, stmt).1.cast_between(s, t)
                == c.cast_between(s, t),
{
    let row = PgCast {
        oid: c.next_oid,
        castsource: source,
        casttarget: target,
        castcontext: super::types::cast_context(stmt.context),
        castmethod: super::types::cast_method(stmt),
    };
    law_put_row_is_found::<PgCast>(c.pg_cast, row, c.next_oid);
    assert forall|s: u32, t: u32|
        (s, t) != (source, target) && (c.cast_between(s, t) matches Some(k) && k.oid
            < c.next_oid) implies #[trigger] cast_created(c, stmt).1.cast_between(s, t)
        == c.cast_between(s, t) by {
        let oid = crate::table::map_get(c.cast_by_pair, (s, t))->0;
        crate::table::lemma_row_position_meaning::<PgCast>(c.pg_cast, oid);
        law_put_row_is_found::<PgCast>(c.pg_cast, row, oid);
    }
}

// ── Composite types and views ───────────────────────────────────────────────

spec fn field_rows(relid: u32, fields: Seq<FieldView>, n: int) -> Seq<PgAttributeView> {
    Seq::new(n as nat, |k: int| field_row(relid, fields[k], (k + 1) as i16))
}

proof fn lemma_fields_are_listed(c: CatalogView, relid: u32, fields: Seq<FieldView>, n: int)
    requires
        0 <= n <= fields.len(),
        fields.len() <= MAX_ATTNUM,
        c.attributes_of(relid).len() == 0,
    ensures
        with_fields(c, relid, fields, n).attributes_of(relid) == field_rows(relid, fields, n),
    decreases n,
{
    if n == 0 {
        assert(c.attributes_of(relid) =~= field_rows(relid, fields, 0));
    } else {
        lemma_fields_are_listed(c, relid, fields, n - 1);
        let before = with_fields(c, relid, fields, n - 1);
        let a = field_row(relid, fields[n - 1], n as i16);
        let attrs = field_rows(relid, fields, n - 1);
        if n > 1 {
            assert(attrs.last().attnum == (n - 1) as i16);
        }
        assert(attr_inserted(attrs, a) == attrs.push(a));
        law_put_row_is_found::<RelAttrs>(
            before.pg_attribute,
            RelAttrsView { relid, attrs: attrs.push(a) },
            relid,
        );
        assert(attrs.push(a) =~= field_rows(relid, fields, n));
    }
}

proof fn lemma_fields(c: CatalogView, defs: Seq<ColumnDef>)
    requires
        forall|i: int|
            0 <= i < defs.len() ==> opt_named_type(c, (#[trigger] defs[i]).target) is Some,
    ensures
        composite_fields(c, defs) matches Ok(fields) ==> fields.len() == defs.len() && forall|
            i: int,
        |
            0 <= i < defs.len() ==> (#[trigger] fields[i]).name == defs[i].colname@ && Some(
                fields[i].type_oid,
            ) == opt_named_type(c, defs[i].target) && fields[i].not_null == defs[i].is_not_null,
    decreases defs.len(),
{
    if defs.len() > 0 {
        let head = defs.drop_last();
        assert forall|i: int| 0 <= i < head.len() implies opt_named_type(
            c,
            (#[trigger] head[i]).target,
        ) is Some by {
            assert(opt_named_type(c, defs[i].target) is Some);
        }
        lemma_fields(c, head);
        assert(opt_named_type(c, defs[defs.len() - 1].target) is Some);
    }
}

/// A composite type that was made has the fields that are written, in their order, each with
/// its name and type.
pub proof fn law_created_composite_has_its_fields(
    c: CatalogView,
    stmt: CompositeTypeStmt,
    rv: RangeVar,
    ns: u32,
    name: Seq<char>,
    i: int,
)
    requires
        stmt.typevar == Some(rv),
        ensured_range(c, rv).0 == Ok::<(u32, Seq<char>), DdlErrorView>((ns, name)),
        ensured_range(c, rv).1.attributes_of(ensured_range(c, rv).1.next_oid).len() == 0,
        composite_created(c, stmt).0 is Ok,
        forall|k: int|
            0 <= k < stmt.coldeflist@.len() ==> opt_named_type(
                ensured_range(c, rv).1,
                (#[trigger] stmt.coldeflist@[k]).target,
            ) is Some,
        0 <= i < stmt.coldeflist@.len(),
    ensures
        ({
            let before = ensured_range(c, rv).1;
            let attrs = composite_created(c, stmt).1.attributes_of(before.next_oid);
            &&& attrs.len() == stmt.coldeflist@.len()
            &&& attrs[i].attname == stmt.coldeflist@[i].colname@
            &&& Some(attrs[i].atttypid) == opt_named_type(before, stmt.coldeflist@[i].target)
            &&& attrs[i].attnum == i + 1
            &&& attrs[i].attnotnull == stmt.coldeflist@[i].is_not_null
        }),
{
    let before = ensured_range(c, rv).1;
    let relid = before.next_oid;
    lemma_fields(before, stmt.coldeflist@);
    let fields = composite_fields(before, stmt.coldeflist@)->Ok_0;
    let c2 = before.allocated().1.allocated().1;
    let c3 = c2.with_class(
        PgClassView {
            oid: relid,
            relname: name,
            relnamespace: ns,
            relkind: RelKind::CompositeType,
            reltype: Some(before.allocated().1.next_oid),
        },
    );
    lemma_fields_are_listed(c3, relid, fields, fields.len() as int);
    let attrs = composite_created(c, stmt).1.attributes_of(relid);
    assert(attrs == field_rows(relid, fields, fields.len() as int));
    assert(attrs[i] == field_row(relid, fields[i], (i + 1) as i16));
}

spec fn resolved_rows(relid: u32, columns: Seq<ResolvedColumnView>, n: int) -> Seq<
    PgAttributeView,
> {
    Seq::new(n as nat, |k: int| resolved_row(relid, columns[k], (k + 1) as i16))
}

proof fn lemma_resolved_are_listed(
    c: CatalogView,
    relid: u32,
    columns: Seq<ResolvedColumnView>,
    n: int,
)
    requires
        0 <= n <= columns.len(),
        columns.len() <= MAX_ATTNUM,
        c.attributes_of(relid).len() == 0,
    ensures
        with_resolved_columns(c, relid, columns, n).attributes_of(relid) == resolved_rows(
            relid,
            columns,
            n,
        ),
    decreases n,
{
    if n == 0 {
        assert(c.attributes_of(relid) =~= resolved_rows(relid, columns, 0));
    } else {
        lemma_resolved_are_listed(c, relid, columns, n - 1);
        let before = with_resolved_columns(c, relid, columns, n - 1);
        let a = resolved_row(relid, columns[n - 1], n as i16);
        let attrs = resolved_rows(relid, columns, n - 1);
        if n > 1 {
            assert(attrs.last().attnum == (n - 1) as i16);
        }
        assert(attr_inserted(attrs, a) == attrs.push(a));
        law_put_row_is_found::<RelAttrs>(
            before.pg_attribute,
            RelAttrsView { relid, attrs: attrs.push(a) },
            relid,
        );
        assert(attrs.push(a) =~= resolved_rows(relid, columns, n));
    }
}

/// A view, or a table made from a query, has the columns of its query, in their order: each
/// under its alias or else its name in the query, of its type, and never null just where the
/// query's column is not.
pub proof fn law_view_has_the_columns_of_its_query(
    c: CatalogView,
    ns: u32,
    name: Seq<char>,
    kind: RelKind,
    q: StoredQuery,
    aliases: Seq<Seq<char>>,
    label: Seq<char>,
    i: int,
)
    requires
        q.node is Some,
        q.analysis is Ok,
        resolved_query(c, q, aliases, label) is Ok,
        relation_installed(
            c,
            ns,
            name,
            kind,
            Some(resolved_query(c, q, aliases, label)->Ok_0),
        ).0 is Ok,
        c.attributes_of(c.next_oid).len() == 0,
        0 <= i < q.analysis->Ok_0@.len(),
    ensures
        ({
            let raw = q.analysis->Ok_0@;
            let attrs = relation_installed(
                c,
                ns,
                name,
                kind,
                Some(resolved_query(c, q, aliases, label)->Ok_0),
            ).1.attributes_of(c.next_oid);
            &&& attrs.len() == raw.len()
            &&& attrs[i].attname == if i < aliases.len() {
                aliases[i]
            } else {
                raw[i].name@
            }
            &&& attrs[i].atttypid == raw[i].type_oid
            &&& attrs[i].atttypmod == raw[i].typmod
            &&& attrs[i].attnotnull == !raw[i].nullable
            &&& attrs[i].attnum == i + 1
        }),
{
    let resolved = resolved_query(c, q, aliases, label)->Ok_0;
    let columns = resolved.columns;
    let relid = c.next_oid;
    let c3 = c.allocated().1.allocated().1.allocated().1;
    let row = PgClassView {
        oid: relid,
        relname: name,
        relnamespace: ns,
        relkind: kind,
        reltype: Some(c.allocated().1.next_oid),
    };
    lemma_resolved_are_listed(c3.with_class(row), relid, columns, columns.len() as int);
    let after = relation_installed(c, ns, name, kind, Some(resolved)).1;
    assert(after.attributes_of(relid) == resolved_rows(relid, columns, columns.len() as int));
}

// ── Functions ───────────────────────────────────────────────────────────────

/// A call passes a parameter of this mode.
pub open spec fn passed(m: FunctionParameterMode) -> bool {
    m != FunctionParameterMode::Out && m != FunctionParameterMode::Table
}

/// A parameter of this mode is part of the result.
pub open spec fn returned(m: FunctionParameterMode) -> bool {
    m == FunctionParameterMode::Out || m == FunctionParameterMode::Table || m
        == FunctionParameterMode::InOut
}

/// The number of those of the first `n` parameters that a call passes.
pub open spec fn passed_before(params: Seq<FunctionParameter>, n: int) -> int
    decreases n,
{
    if n <= 0 {
        0
    } else {
        passed_before(params, n - 1) + if passed(params[n - 1].mode) {
            1int
        } else {
            0int
        }
    }
}

proof fn lemma_passed_grows(params: Seq<FunctionParameter>, i: int, n: int)
    requires
        0 <= i <= n,
    ensures
        0 <= passed_before(params, i) <= passed_before(params, n),
    decreases n,
{
    if i < n {
        lemma_passed_grows(params, i, n - 1);
    } else if i > 0 {
        lemma_passed_grows(params, i - 1, n - 1);
    }
}

proof fn lemma_passed_of(params: Seq<FunctionParameter>, n: int, k: int)
    requires
        0 <= k <= n <= params.len(),
    ensures
        passed_before(params.take(n), k) == passed_before(params, k),
    decreases k,
{
    if k > 0 {
        lemma_passed_of(params, n, k - 1);
        assert(params.take(n)[k - 1] == params[k - 1]);
    }
}

proof fn lemma_signature(c: CatalogView, params: Seq<FunctionParameter>)
    requires
        forall|i: int|
            0 <= i < params.len() ==> opt_named_type(c, (#[trigger] params[i]).arg_type) is Some,
    ensures
        ({
            let s = signature(c, params);
            let n = params.len() as int;
            &&& s.all_types.len() == n && s.modes.len() == n && s.names.len() == n
            &&& s.arg_types.len() == passed_before(params, n)
            &&& forall|i: int|
                #![trigger params[i]]
                0 <= i < n ==> Some(s.all_types[i]) == opt_named_type(c, params[i].arg_type)
                    && s.modes[i] == arg_mode(params[i].mode) && s.names[i] == params[i].name@ && (
                passed(params[i].mode) ==> 0 <= passed_before(params, i) < s.arg_types.len()
                    && Some(s.arg_types[passed_before(params, i)]) == opt_named_type(
                    c,
                    params[i].arg_type,
                ))
        }),
    decreases params.len(),
{
    if params.len() > 0 {
        let head = params.drop_last();
        let n = params.len() as int;
        assert(head =~= params.take(n - 1));
        assert forall|i: int| 0 <= i < head.len() implies opt_named_type(
            c,
            (#[trigger] head[i]).arg_type,
        ) is Some by {
            assert(opt_named_type(c, params[i].arg_type) is Some);
        }
        lemma_signature(c, head);
        assert(opt_named_type(c, params[n - 1].arg_type) is Some);
        lemma_passed_of(params, n - 1, n - 1);
        lemma_passed_grows(params, n - 1, n);
        let s = signature(c, params);
        let t = signature(c, head);
        assert forall|i: int|
            #![trigger params[i]]
            0 <= i < n implies Some(s.all_types[i]) == opt_named_type(c, params[i].arg_type)
            && s.modes[i] == arg_mode(params[i].mode) && s.names[i] == params[i].name@ && (passed(
            params[i].mode,
        ) ==> 0 <= passed_before(params, i) < s.arg_types.len() && Some(
            s.arg_types[passed_before(params, i)],
        ) == opt_named_type(c, params[i].arg_type)) by {
            lemma_passed_grows(params, i, n);
            if i < n - 1 {
                assert(head[i] == params[i]);
                lemma_passed_of(params, n - 1, i);
            }
        }
    }
}

/// A function that was made takes the parameters that a call passes, in their order, is
/// strict just where an option says so, returns a set just where it is written, and returns
/// the type that is written.
pub proof fn law_created_function_has_its_signature(
    c: CatalogView,
    oid: u32,
    ns: u32,
    name: Seq<char>,
    stmt: CreateFunctionStmt,
    i: int,
)
    requires
        forall|k: int|
            0 <= k < stmt.parameters@.len() ==> opt_named_type(
                c,
                (#[trigger] stmt.parameters@[k]).arg_type,
            ) is Some,
        0 <= i < stmt.parameters@.len(),
    ensures
        ({
            let row = routine_row(c, oid, ns, name, stmt);
            let params = stmt.parameters@;
            &&& row.proargtypes.len() == passed_before(params, params.len() as int)
            &&& passed(params[i].mode) ==> 0 <= passed_before(params, i) < row.proargtypes.len()
                && Some(row.proargtypes[passed_before(params, i)]) == opt_named_type(
                c,
                params[i].arg_type,
            )
            &&& opt_named_type(c, stmt.return_type) matches Some(t) ==> row.prorettype == t
            &&& row.proisstrict <==> exists|k: int|
                0 <= k < stmt.options@.len() && #[trigger] says_strict(stmt.options@[k])
            &&& row.proretset <==> (stmt.return_type matches Some(t) && t.setof)
            &&& (row.prokind == ProKind::Procedure <==> stmt.is_procedure)
            &&& !passed(params[i].mode) || params[i].name@.len() > 0
                ==> row.proallargtypes.len() == params.len() && Some(row.proallargtypes[i])
                == opt_named_type(c, params[i].arg_type) && row.proargnames[i] == params[i].name@
                && (returned(params[i].mode) <==> row.proargmodes[i] == ArgMode::Out
                || row.proargmodes[i] == ArgMode::InOut || row.proargmodes[i] == ArgMode::Table)
        }),
{
    lemma_signature(c, stmt.parameters@);
    let s = signature(c, stmt.parameters@);
    assert(stmt.parameters@[i] == stmt.parameters@[i]);
    assert(s.modes[i] == arg_mode(stmt.parameters@[i].mode));
    assert(s.names[i] == stmt.parameters@[i].name@);
}

/// A function without a written result returns what its only output parameter is, and a
/// record where it has several.
pub proof fn law_output_parameters_are_the_result(
    c: CatalogView,
    oid: u32,
    ns: u32,
    name: Seq<char>,
    stmt: CreateFunctionStmt,
    i: int,
    j: int,
)
    requires
        forall|k: int|
            0 <= k < stmt.parameters@.len() ==> opt_named_type(
                c,
                (#[trigger] stmt.parameters@[k]).arg_type,
            ) is Some,
        opt_named_type(c, stmt.return_type) is None,
        0 <= i < stmt.parameters@.len(),
        returned(stmt.parameters@[i].mode),
    ensures
        (forall|k: int|
            0 <= k < stmt.parameters@.len() && k != i ==> !returned(
                (#[trigger] stmt.parameters@[k]).mode,
            )) ==> Some(routine_row(c, oid, ns, name, stmt).prorettype) == opt_named_type(
            c,
            stmt.parameters@[i].arg_type,
        ),
        0 <= j < stmt.parameters@.len() && i < j && returned(stmt.parameters@[j].mode)
            ==> routine_row(c, oid, ns, name, stmt).prorettype == 2249,
{
    let params = stmt.parameters@;
    lemma_signature(c, params);
    let s = signature(c, params);
    assert(params[i] == params[i]);
    assert(s.modes[i] == arg_mode(params[i].mode));
    assert(!is_plain(s)) by {
        assert(s.modes[i] != ArgMode::In);
    }
    assert(recorded(s) == s);
    let n = params.len() as int;
    if forall|k: int|
        0 <= k < params.len() && k != i ==> !returned((#[trigger] params[k]).mode) {
        assert forall|k: int| 0 <= k < n && k != i implies !is_output(#[trigger] s.modes[k]) by {
            assert(!returned(params[k].mode));
            assert(s.modes[k] == arg_mode(params[k].mode));
        }
        lemma_one_output(s, n, i);
    }
    if 0 <= j < params.len() && i < j && returned(params[j].mode) {
        assert(params[j] == params[j]);
        assert(s.modes[j] == arg_mode(params[j].mode));
        lemma_two_outputs(s, n, i, j);
    }
}

proof fn lemma_one_output(s: SignatureView, n: int, i: int)
    requires
        0 <= n <= s.modes.len(),
        forall|k: int| 0 <= k < n && k != i ==> !is_output(#[trigger] s.modes[k]),
        0 <= i < n ==> is_output(s.modes[i]),
    ensures
        output_types(s, n) == if 0 <= i < n {
            seq![s.all_types[i]]
        } else {
            Seq::<u32>::empty()
        },
    decreases n,
{
    if n > 0 {
        lemma_one_output(s, n - 1, i);
        assert(n - 1 != i ==> !is_output(s.modes[n - 1]));
        if n - 1 == i {
            assert(output_types(s, n) =~= seq![s.all_types[i]]);
        }
    } else {
        assert(output_types(s, n) =~= Seq::<u32>::empty());
    }
}

proof fn lemma_two_outputs(s: SignatureView, n: int, i: int, j: int)
    requires
        0 <= i < j < n,
        is_output(s.modes[i]),
        is_output(s.modes[j]),
    ensures
        output_types(s, n).len() >= 2,
    decreases n,
{
    if n - 1 > j {
        lemma_two_outputs(s, n - 1, i, j);
    } else {
        lemma_some_output(s, n - 1, i);
    }
}

proof fn lemma_some_output(s: SignatureView, n: int, i: int)
    requires
        0 <= i < n,
        is_output(s.modes[i]),
    ensures
        output_types(s, n).len() >= 1,
    decreases n,
{
    if n - 1 > i {
        lemma_some_output(s, n - 1, i);
    }
}

} // verus!

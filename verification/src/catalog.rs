//! The catalog in memory: its tables, the indexes by name, and the operations
//! that keep the two in step.

use crate::ddl::{DdlError, DdlErrorView};
use crate::pg_catalog::{
    attr_views, label_views, EnumLabels, EnumLabelsView, PgAggregate, PgAttribute, PgAttributeView,
    PgCast, PgClass, PgClassView, PgCollation, PgCollationView, PgConstraint, PgConstraintView,
    PgDepend, PgEnum, PgEnumView, PgExtension, PgExtensionView, PgIndex, PgIndexView, PgInherits,
    PgNamespace, PgNamespaceView, PgOperator, PgOperatorView, PgProc, PgProcView, PgRange,
    PgRewrite, PgRewriteView, PgType, PgTypeView, RelAttrs, RelAttrsView, RelKind,
    SerializedAst, SerializedAstView, USER_OID_START,
};
use crate::table::{
    list_add, list_get, list_remove, map_get, not_owned, owned_keys, row_drop, row_get, row_put,
    CopyRow, ListIndex, NameIndex, PairIndex, Row, Table,
};
use crate::text::same_text;
use vstd::prelude::*;

verus! {

/// The catalog: its tables, the indexes by name, the search path and the next
/// OID to give out. The scope of an index by qualified name is the schema; the
/// indexes of schemas and extensions have the one scope `0`.
#[derive(Clone)]
pub struct PgCatalog {
    pub pg_namespace: Table<PgNamespace>,
    pub pg_type: Table<PgType>,
    pub pg_class: Table<PgClass>,
    pub pg_proc: Table<PgProc>,
    pub pg_aggregate: Table<PgAggregate>,
    pub pg_operator: Table<PgOperator>,
    pub pg_cast: Table<PgCast>,
    pub pg_extension: Table<PgExtension>,
    pub pg_collation: Table<PgCollation>,
    pub pg_attribute: Table<RelAttrs>,
    pub pg_enum: Table<EnumLabels>,
    pub pg_range: Table<PgRange>,
    pub pg_constraint: Table<PgConstraint>,
    pub pg_index: Table<PgIndex>,
    pub pg_rewrite: Table<PgRewrite>,
    pub pg_depend: Vec<PgDepend>,
    pub pg_inherits: Vec<PgInherits>,
    pub namespace_by_name: NameIndex,
    pub type_by_qname: NameIndex,
    pub class_by_qname: NameIndex,
    pub extension_by_name: NameIndex,
    pub collation_by_qname: NameIndex,
    pub proc_by_qname: ListIndex,
    pub operator_by_qname: ListIndex,
    pub cast_by_pair: PairIndex,
    pub search_path: Vec<u32>,
    pub next_oid: u32,
}

/// What a catalog holds.
#[verifier::ext_equal]
pub struct CatalogView {
    pub pg_namespace: Seq<PgNamespaceView>,
    pub pg_type: Seq<PgTypeView>,
    pub pg_class: Seq<PgClassView>,
    pub pg_proc: Seq<PgProcView>,
    pub pg_aggregate: Seq<PgAggregate>,
    pub pg_operator: Seq<PgOperatorView>,
    pub pg_cast: Seq<PgCast>,
    pub pg_extension: Seq<PgExtensionView>,
    pub pg_collation: Seq<PgCollationView>,
    pub pg_attribute: Seq<RelAttrsView>,
    pub pg_enum: Seq<EnumLabelsView>,
    pub pg_range: Seq<PgRange>,
    pub pg_constraint: Seq<PgConstraintView>,
    pub pg_index: Seq<PgIndexView>,
    pub pg_rewrite: Seq<PgRewriteView>,
    pub pg_depend: Seq<PgDepend>,
    pub pg_inherits: Seq<PgInherits>,
    pub namespace_by_name: Map<(u32, Seq<char>), u32>,
    pub type_by_qname: Map<(u32, Seq<char>), u32>,
    pub class_by_qname: Map<(u32, Seq<char>), u32>,
    pub extension_by_name: Map<(u32, Seq<char>), u32>,
    pub collation_by_qname: Map<(u32, Seq<char>), u32>,
    pub proc_by_qname: Map<(u32, Seq<char>), Seq<u32>>,
    pub operator_by_qname: Map<(u32, Seq<char>), Seq<u32>>,
    pub cast_by_pair: Map<(u32, u32), u32>,
    pub search_path: Seq<u32>,
    pub next_oid: u32,
}

impl View for PgCatalog {
    type V = CatalogView;

    open spec fn view(&self) -> CatalogView {
        CatalogView {
            pg_namespace: self.pg_namespace@,
            pg_type: self.pg_type@,
            pg_class: self.pg_class@,
            pg_proc: self.pg_proc@,
            pg_aggregate: self.pg_aggregate@,
            pg_operator: self.pg_operator@,
            pg_cast: self.pg_cast@,
            pg_extension: self.pg_extension@,
            pg_collation: self.pg_collation@,
            pg_attribute: self.pg_attribute@,
            pg_enum: self.pg_enum@,
            pg_range: self.pg_range@,
            pg_constraint: self.pg_constraint@,
            pg_index: self.pg_index@,
            pg_rewrite: self.pg_rewrite@,
            pg_depend: self.pg_depend@,
            pg_inherits: self.pg_inherits@,
            namespace_by_name: self.namespace_by_name@,
            type_by_qname: self.type_by_qname@,
            class_by_qname: self.class_by_qname@,
            extension_by_name: self.extension_by_name@,
            collation_by_qname: self.collation_by_qname@,
            proc_by_qname: self.proc_by_qname@,
            operator_by_qname: self.operator_by_qname@,
            cast_by_pair: self.cast_by_pair@,
            search_path: self.search_path@,
            next_oid: self.next_oid,
        }
    }
}

/// A catalog without rows.
pub open spec fn empty_catalog() -> CatalogView {
    CatalogView {
        pg_namespace: Seq::empty(),
        pg_type: Seq::empty(),
        pg_class: Seq::empty(),
        pg_proc: Seq::empty(),
        pg_aggregate: Seq::empty(),
        pg_operator: Seq::empty(),
        pg_cast: Seq::empty(),
        pg_extension: Seq::empty(),
        pg_collation: Seq::empty(),
        pg_attribute: Seq::empty(),
        pg_enum: Seq::empty(),
        pg_range: Seq::empty(),
        pg_constraint: Seq::empty(),
        pg_index: Seq::empty(),
        pg_rewrite: Seq::empty(),
        pg_depend: Seq::empty(),
        pg_inherits: Seq::empty(),
        search_path: Seq::empty(),
        namespace_by_name: Map::empty(),
        type_by_qname: Map::empty(),
        class_by_qname: Map::empty(),
        extension_by_name: Map::empty(),
        collation_by_qname: Map::empty(),
        proc_by_qname: Map::empty(),
        operator_by_qname: Map::empty(),
        cast_by_pair: Map::empty(),
        next_oid: USER_OID_START,
    }
}

/// The position at which a column goes into a list by ascending number: behind
/// those whose number is not greater.
pub open spec fn attr_inserted(
    attrs: Seq<PgAttributeView>,
    a: PgAttributeView,
) -> Seq<PgAttributeView>
    decreases attrs.len(),
{
    if attrs.len() == 0 || attrs.last().attnum <= a.attnum {
        attrs.push(a)
    } else {
        attr_inserted(attrs.drop_last(), a).push(attrs.last())
    }
}

/// What the first rule `_RETURN` of a relation does.
pub open spec fn first_body(rows: Seq<PgRewriteView>, view: u32) -> Option<SerializedAstView>
    decreases rows.len(),
{
    if rows.len() == 0 {
        None
    } else {
        match first_body(rows.drop_last(), view) {
            Some(b) => Some(b),
            None => if rows.last().ev_class == view && rows.last().rulename == "_RETURN"@ {
                Some(rows.last().ev_action)
            } else {
                None
            },
        }
    }
}

impl CatalogView {
    // ── Schemas ──

    pub open spec fn with_namespace(self, row: PgNamespaceView) -> CatalogView {
        CatalogView {
            namespace_by_name: self.namespace_by_name.insert((0, row.nspname), row.oid),
            pg_namespace: row_put::<PgNamespace>(self.pg_namespace, row),
            ..self
        }
    }

    pub open spec fn without_namespace(self, oid: u32) -> CatalogView {
        match row_get::<PgNamespace>(self.pg_namespace, oid) {
            Some(row) => CatalogView {
                namespace_by_name: self.namespace_by_name.remove((0, row.nspname)),
                pg_namespace: row_drop::<PgNamespace>(self.pg_namespace, oid),
                ..self
            },
            None => self,
        }
    }

    pub open spec fn with_namespace_renamed(self, oid: u32, name: Seq<char>) -> CatalogView {
        match row_get::<PgNamespace>(self.pg_namespace, oid) {
            Some(row) => CatalogView {
                namespace_by_name: self.namespace_by_name.remove((0, row.nspname)).insert(
                    (0, name),
                    oid,
                ),
                pg_namespace: row_put::<PgNamespace>(
                    self.pg_namespace,
                    PgNamespaceView { nspname: name, ..row },
                ),
                ..self
            },
            None => self,
        }
    }

    /// The OID of the schema with this name.
    pub open spec fn namespace_oid(self, name: Seq<char>) -> Option<u32> {
        map_get(self.namespace_by_name, (0, name))
    }

    /// The name of a schema.
    pub open spec fn namespace_name(self, oid: u32) -> Option<Seq<char>> {
        match row_get::<PgNamespace>(self.pg_namespace, oid) {
            Some(row) => Some(row.nspname),
            None => None,
        }
    }

    // ── Types ──

    pub open spec fn with_type(self, row: PgTypeView) -> CatalogView {
        CatalogView {
            type_by_qname: self.type_by_qname.insert((row.typnamespace, row.typname), row.oid),
            pg_type: row_put::<PgType>(self.pg_type, row),
            ..self
        }
    }

    pub open spec fn without_type(self, oid: u32) -> CatalogView {
        match row_get::<PgType>(self.pg_type, oid) {
            Some(row) => CatalogView {
                type_by_qname: self.type_by_qname.remove((row.typnamespace, row.typname)),
                pg_type: row_drop::<PgType>(self.pg_type, oid),
                pg_enum: row_drop::<EnumLabels>(self.pg_enum, oid),
                pg_range: row_drop::<PgRange>(self.pg_range, oid),
                ..self
            },
            None => self,
        }
    }

    pub open spec fn with_type_renamed(self, oid: u32, name: Seq<char>, nsoid: u32) -> CatalogView {
        match row_get::<PgType>(self.pg_type, oid) {
            Some(row) => CatalogView {
                type_by_qname: self.type_by_qname.remove((row.typnamespace, row.typname)).insert(
                    (nsoid, name),
                    oid,
                ),
                pg_type: row_put::<PgType>(
                    self.pg_type,
                    PgTypeView { typname: name, typnamespace: nsoid, ..row },
                ),
                ..self
            },
            None => self,
        }
    }

    /// The type with this OID.
    pub open spec fn get_type(self, oid: u32) -> Option<PgTypeView> {
        row_get::<PgType>(self.pg_type, oid)
    }

    /// The type with this name in a schema.
    pub open spec fn type_named(self, nsoid: u32, name: Seq<char>) -> Option<u32> {
        map_get(self.type_by_qname, (nsoid, name))
    }

    // ── Relations ──

    pub open spec fn with_class(self, row: PgClassView) -> CatalogView {
        CatalogView {
            class_by_qname: self.class_by_qname.insert((row.relnamespace, row.relname), row.oid),
            pg_class: row_put::<PgClass>(self.pg_class, row),
            ..self
        }
    }

    pub open spec fn without_class(self, oid: u32) -> CatalogView {
        match row_get::<PgClass>(self.pg_class, oid) {
            Some(row) => CatalogView {
                class_by_qname: self.class_by_qname.remove((row.relnamespace, row.relname)),
                pg_class: row_drop::<PgClass>(self.pg_class, oid),
                pg_attribute: row_drop::<RelAttrs>(self.pg_attribute, oid),
                ..self
            },
            None => self,
        }
    }

    pub open spec fn with_class_renamed(
        self,
        oid: u32,
        name: Seq<char>,
        nsoid: u32,
    ) -> CatalogView {
        match row_get::<PgClass>(self.pg_class, oid) {
            Some(row) => CatalogView {
                class_by_qname: self.class_by_qname.remove((row.relnamespace, row.relname)).insert(
                    (nsoid, name),
                    oid,
                ),
                pg_class: row_put::<PgClass>(
                    self.pg_class,
                    PgClassView { relname: name, relnamespace: nsoid, ..row },
                ),
                ..self
            },
            None => self,
        }
    }

    /// The relation with this OID.
    pub open spec fn get_class(self, oid: u32) -> Option<PgClassView> {
        row_get::<PgClass>(self.pg_class, oid)
    }

    /// The relation with this name in a schema.
    pub open spec fn class_named(self, nsoid: u32, name: Seq<char>) -> Option<u32> {
        map_get(self.class_by_qname, (nsoid, name))
    }

    // ── Columns ──

    /// The columns of a relation, none where the catalog has no list for it.
    pub open spec fn attributes_of(self, relid: u32) -> Seq<PgAttributeView> {
        match row_get::<RelAttrs>(self.pg_attribute, relid) {
            Some(row) => row.attrs,
            None => Seq::empty(),
        }
    }

    /// The catalog with another list of columns for a relation.
    pub open spec fn with_attributes(self, relid: u32, attrs: Seq<PgAttributeView>) -> CatalogView {
        CatalogView {
            pg_attribute: row_put::<RelAttrs>(self.pg_attribute, RelAttrsView { relid, attrs }),
            ..self
        }
    }

    pub open spec fn with_attribute(self, a: PgAttributeView) -> CatalogView {
        self.with_attributes(a.attrelid, attr_inserted(self.attributes_of(a.attrelid), a))
    }

    // ── Enum labels and ranges ──

    /// The labels of an enum type, none where the catalog has no list for it.
    pub open spec fn labels_of(self, typid: u32) -> Seq<PgEnumView> {
        match row_get::<EnumLabels>(self.pg_enum, typid) {
            Some(row) => row.labels,
            None => Seq::empty(),
        }
    }

    pub open spec fn with_labels(self, typid: u32, labels: Seq<PgEnumView>) -> CatalogView {
        CatalogView {
            pg_enum: row_put::<EnumLabels>(self.pg_enum, EnumLabelsView { typid, labels }),
            ..self
        }
    }

    /// The catalog with a label put at a position among those of its type.
    pub open spec fn with_label_at(self, row: PgEnumView, at: int) -> CatalogView {
        self.with_labels(row.enumtypid, self.labels_of(row.enumtypid).insert(at, row))
    }

    pub open spec fn with_range(self, row: PgRange) -> CatalogView {
        CatalogView { pg_range: row_put::<PgRange>(self.pg_range, row), ..self }
    }

    // ── Routines ──

    pub open spec fn with_proc(self, row: PgProcView) -> CatalogView {
        CatalogView {
            proc_by_qname: list_add(self.proc_by_qname, row.pronamespace, row.proname, row.oid),
            pg_proc: row_put::<PgProc>(self.pg_proc, row),
            ..self
        }
    }

    pub open spec fn without_proc(self, oid: u32) -> CatalogView {
        match row_get::<PgProc>(self.pg_proc, oid) {
            Some(row) => CatalogView {
                proc_by_qname: list_remove(
                    self.proc_by_qname,
                    row.pronamespace,
                    row.proname,
                    oid,
                ),
                pg_proc: row_drop::<PgProc>(self.pg_proc, oid),
                pg_aggregate: row_drop::<PgAggregate>(self.pg_aggregate, oid),
                ..self
            },
            None => self,
        }
    }

    pub open spec fn with_proc_renamed(self, oid: u32, name: Seq<char>, nsoid: u32) -> CatalogView {
        match row_get::<PgProc>(self.pg_proc, oid) {
            Some(row) => CatalogView {
                proc_by_qname: list_add(
                    list_remove(self.proc_by_qname, row.pronamespace, row.proname, oid),
                    nsoid,
                    name,
                    oid,
                ),
                pg_proc: row_put::<PgProc>(
                    self.pg_proc,
                    PgProcView { proname: name, pronamespace: nsoid, ..row },
                ),
                ..self
            },
            None => self,
        }
    }

    /// The routine with this OID.
    pub open spec fn get_proc(self, oid: u32) -> Option<PgProcView> {
        row_get::<PgProc>(self.pg_proc, oid)
    }

    /// The routines with this name in a schema.
    pub open spec fn procs_named(self, nsoid: u32, name: Seq<char>) -> Seq<u32> {
        list_get(self.proc_by_qname, nsoid, name)
    }

    pub open spec fn with_aggregate(self, row: PgAggregate) -> CatalogView {
        CatalogView { pg_aggregate: row_put::<PgAggregate>(self.pg_aggregate, row), ..self }
    }

    // ── Operators and casts ──

    pub open spec fn with_operator(self, row: PgOperatorView) -> CatalogView {
        CatalogView {
            operator_by_qname: list_add(
                self.operator_by_qname,
                row.oprnamespace,
                row.oprname,
                row.oid,
            ),
            pg_operator: row_put::<PgOperator>(self.pg_operator, row),
            ..self
        }
    }

    pub open spec fn without_operator(self, oid: u32) -> CatalogView {
        match row_get::<PgOperator>(self.pg_operator, oid) {
            Some(row) => CatalogView {
                operator_by_qname: list_remove(
                    self.operator_by_qname,
                    row.oprnamespace,
                    row.oprname,
                    oid,
                ),
                pg_operator: row_drop::<PgOperator>(self.pg_operator, oid),
                ..self
            },
            None => self,
        }
    }

    /// The operators with this name in a schema.
    pub open spec fn operators_named(self, nsoid: u32, name: Seq<char>) -> Seq<u32> {
        list_get(self.operator_by_qname, nsoid, name)
    }

    pub open spec fn with_cast(self, row: PgCast) -> CatalogView {
        CatalogView {
            cast_by_pair: self.cast_by_pair.insert((row.castsource, row.casttarget), row.oid),
            pg_cast: row_put::<PgCast>(self.pg_cast, row),
            ..self
        }
    }

    pub open spec fn without_cast(self, oid: u32) -> CatalogView {
        match row_get::<PgCast>(self.pg_cast, oid) {
            Some(row) => CatalogView {
                cast_by_pair: self.cast_by_pair.remove((row.castsource, row.casttarget)),
                pg_cast: row_drop::<PgCast>(self.pg_cast, oid),
                ..self
            },
            None => self,
        }
    }

    /// The cast between two types.
    pub open spec fn cast_between(self, source: u32, target: u32) -> Option<PgCast> {
        match map_get(self.cast_by_pair, (source, target)) {
            Some(oid) => row_get::<PgCast>(self.pg_cast, oid),
            None => None,
        }
    }

    // ── Extensions and collations ──

    pub open spec fn with_extension(self, row: PgExtensionView) -> CatalogView {
        CatalogView {
            extension_by_name: self.extension_by_name.insert((0, row.extname), row.oid),
            pg_extension: row_put::<PgExtension>(self.pg_extension, row),
            ..self
        }
    }

    pub open spec fn without_extension(self, oid: u32) -> CatalogView {
        match row_get::<PgExtension>(self.pg_extension, oid) {
            Some(row) => CatalogView {
                extension_by_name: self.extension_by_name.remove((0, row.extname)),
                pg_extension: row_drop::<PgExtension>(self.pg_extension, oid),
                ..self
            },
            None => self,
        }
    }

    pub open spec fn with_collation(self, row: PgCollationView) -> CatalogView {
        CatalogView {
            collation_by_qname: self.collation_by_qname.insert(
                (row.collnamespace, row.collname),
                row.oid,
            ),
            pg_collation: row_put::<PgCollation>(self.pg_collation, row),
            ..self
        }
    }

    // ── Constraints, indexes, rules ──

    pub open spec fn with_constraint(self, row: PgConstraintView) -> CatalogView {
        CatalogView { pg_constraint: row_put::<PgConstraint>(self.pg_constraint, row), ..self }
    }

    pub open spec fn without_constraint(self, oid: u32) -> CatalogView {
        CatalogView { pg_constraint: row_drop::<PgConstraint>(self.pg_constraint, oid), ..self }
    }

    pub open spec fn without_constraints_of(self, relid: u32) -> CatalogView {
        CatalogView {
            pg_constraint: not_owned::<PgConstraint>(self.pg_constraint, relid),
            ..self
        }
    }

    pub open spec fn with_index(self, row: PgIndexView) -> CatalogView {
        CatalogView { pg_index: row_put::<PgIndex>(self.pg_index, row), ..self }
    }

    pub open spec fn without_index(self, indexrelid: u32) -> CatalogView {
        CatalogView { pg_index: row_drop::<PgIndex>(self.pg_index, indexrelid), ..self }
    }

    pub open spec fn without_indexes_of(self, relid: u32) -> CatalogView {
        CatalogView { pg_index: not_owned::<PgIndex>(self.pg_index, relid), ..self }
    }

    pub open spec fn with_rewrite(self, row: PgRewriteView) -> CatalogView {
        CatalogView { pg_rewrite: row_put::<PgRewrite>(self.pg_rewrite, row), ..self }
    }

    pub open spec fn without_rewrites_of(self, relid: u32) -> CatalogView {
        CatalogView {
            pg_rewrite: not_owned::<PgRewrite>(self.pg_rewrite, relid),
            ..self
        }
    }

    /// The stored query of a view: what its rule `_RETURN` does. No other relation has one.
    pub open spec fn view_body(self, view: u32) -> Option<SerializedAstView> {
        match self.get_class(view) {
            Some(k) => if k.relkind == RelKind::View || k.relkind == RelKind::MaterializedView {
                first_body(self.pg_rewrite, view)
            } else {
                None
            },
            None => None,
        }
    }

    /// The catalog in which the view's query is not stored.
    pub open spec fn without_view_body(self, view: u32) -> CatalogView {
        CatalogView {
            pg_rewrite: self.pg_rewrite.filter(
                |r: PgRewriteView| !(r.ev_class == view && r.rulename == "_RETURN"@),
            ),
            ..self
        }
    }

    // ── Dependencies ──

    pub open spec fn with_dependency(self, row: PgDepend) -> CatalogView {
        CatalogView { pg_depend: self.pg_depend.push(row), ..self }
    }

    pub open spec fn without_dependencies_of(self, classid: u32, objid: u32) -> CatalogView {
        CatalogView {
            pg_depend: self.pg_depend.filter(
                |d: PgDepend| !(d.classid == classid && d.objid == objid),
            ),
            ..self
        }
    }

    pub open spec fn without_dependencies_on(self, refclassid: u32, refobjid: u32) -> CatalogView {
        CatalogView {
            pg_depend: self.pg_depend.filter(
                |d: PgDepend| !(d.refclassid == refclassid && d.refobjid == refobjid),
            ),
            ..self
        }
    }

    /// The catalog without the dependencies of an object and on it.
    pub open spec fn without_dependencies(self, classid: u32, objid: u32) -> CatalogView {
        self.without_dependencies_of(classid, objid).without_dependencies_on(classid, objid)
    }

    // ── OIDs ──

    /// The next OID and the catalog behind it.
    pub open spec fn allocated(self) -> (Result<u32, DdlErrorView>, CatalogView) {
        if self.next_oid == u32::MAX {
            (Err(DdlErrorView::Internal("OID counter overflowed"@)), self)
        } else {
            (Ok(self.next_oid), CatalogView { next_oid: (self.next_oid + 1) as u32, ..self })
        }
    }
}

impl PgCatalog {
    /// A catalog without rows.
    pub fn empty() -> (r: PgCatalog)
        ensures
            r@ == empty_catalog(),
    {
        let r: PgCatalog = PgCatalog {
            pg_namespace: Table::empty(),
            pg_type: Table::empty(),
            pg_class: Table::empty(),
            pg_proc: Table::empty(),
            pg_aggregate: Table::empty(),
            pg_operator: Table::empty(),
            pg_cast: Table::empty(),
            pg_extension: Table::empty(),
            pg_collation: Table::empty(),
            pg_attribute: Table::empty(),
            pg_enum: Table::empty(),
            pg_range: Table::empty(),
            pg_constraint: Table::empty(),
            pg_index: Table::empty(),
            pg_rewrite: Table::empty(),
            pg_depend: Vec::new(),
            pg_inherits: Vec::new(),
            namespace_by_name: NameIndex::empty(),
            type_by_qname: NameIndex::empty(),
            class_by_qname: NameIndex::empty(),
            extension_by_name: NameIndex::empty(),
            collation_by_qname: NameIndex::empty(),
            proc_by_qname: ListIndex::empty(),
            operator_by_qname: ListIndex::empty(),
            cast_by_pair: PairIndex::empty(),
            search_path: Vec::new(),
            next_oid: USER_OID_START,
        };
        proof {
            assert(r@ =~= empty_catalog());
        }
        r
    }

    /// Gives out the next OID.
    pub fn alloc_oid(&mut self) -> (r: Result<u32, DdlError>)
        ensures
            crate::ddl::ddl_outcome(r) == old(self)@.allocated().0,
            final(self)@ == old(self)@.allocated().1,
    {
        if self.next_oid == u32::MAX {
            Err(DdlError::Internal("OID counter overflowed".to_owned()))
        } else {
            let oid: u32 = self.next_oid;
            self.next_oid = oid + 1;
            Ok(oid)
        }
    }

    // ── Schemas ──

    pub fn insert_pg_namespace(&mut self, row: PgNamespace)
        ensures
            final(self)@ == old(self)@.with_namespace(row@),
    {
        self.namespace_by_name.insert(0, row.nspname.as_str(), row.oid);
        self.pg_namespace.insert(row);
    }

    pub fn remove_pg_namespace(&mut self, oid: u32) -> (r: Option<PgNamespace>)
        ensures
            final(self)@ == old(self)@.without_namespace(oid),
            r is Some == (row_get::<PgNamespace>(old(self)@.pg_namespace, oid) is Some),
            r matches Some(x) ==> row_get::<PgNamespace>(old(self)@.pg_namespace, oid) == Some(x@),
    {
        match self.pg_namespace.remove(oid) {
            Some(row) => {
                self.namespace_by_name.remove(0, row.nspname.as_str());
                Some(row)
            },
            None => {
                proof {
                    lemma_row_drop_missing::<PgNamespace>(self.pg_namespace@, oid);
                }
                None
            },
        }
    }

    pub fn rename_pg_namespace(&mut self, oid: u32, new_name: &str)
        ensures
            final(self)@ == old(self)@.with_namespace_renamed(oid, new_name@),
    {
        proof {
            crate::table::lemma_row_position_meaning::<PgNamespace>(self.pg_namespace@, oid);
        }
        let i: usize = self.pg_namespace.position(oid);
        if i < self.pg_namespace.len() {
            let old_name: String = self.pg_namespace.at(i).nspname.clone();
            self.namespace_by_name.remove(0, old_name.as_str());
            self.namespace_by_name.insert(0, new_name, oid);
            let row: PgNamespace = PgNamespace { oid, nspname: new_name.to_owned() };
            self.pg_namespace.insert(row);
        }
    }

    /// The OID of the schema with this name.
    pub fn namespace_oid(&self, name: &str) -> (r: Option<u32>)
        ensures
            r == self@.namespace_oid(name@),
    {
        self.namespace_by_name.get(0, name)
    }

    /// The name of a schema.
    pub fn namespace_name(&self, oid: u32) -> (r: Option<&str>)
        ensures
            match r {
                Some(s) => self@.namespace_name(oid) == Some(s@),
                None => self@.namespace_name(oid) is None,
            },
    {
        match self.pg_namespace.get(oid) {
            Some(row) => Some(row.nspname.as_str()),
            None => None,
        }
    }

    // ── Types ──

    pub fn insert_pg_type(&mut self, row: PgType)
        ensures
            final(self)@ == old(self)@.with_type(row@),
    {
        self.type_by_qname.insert(row.typnamespace, row.typname.as_str(), row.oid);
        self.pg_type.insert(row);
    }

    pub fn remove_pg_type(&mut self, oid: u32) -> (r: Option<PgType>)
        ensures
            final(self)@ == old(self)@.without_type(oid),
            r matches Some(x) ==> old(self)@.get_type(oid) == Some(x@),
            r is None ==> old(self)@.get_type(oid) is None,
    {
        match self.pg_type.remove(oid) {
            Some(row) => {
                self.type_by_qname.remove(row.typnamespace, row.typname.as_str());
                let _labels: Option<EnumLabels> = self.pg_enum.remove(oid);
                let _range: Option<PgRange> = self.pg_range.remove(oid);
                Some(row)
            },
            None => {
                proof {
                    lemma_row_drop_missing::<PgType>(self.pg_type@, oid);
                }
                None
            },
        }
    }

    pub fn rename_pg_type(&mut self, oid: u32, new_name: &str, new_nsoid: u32)
        ensures
            final(self)@ == old(self)@.with_type_renamed(oid, new_name@, new_nsoid),
    {
        let i: usize = self.pg_type.position(oid);
        if i < self.pg_type.len() {
            let ghost before = self.pg_type@;
            proof {
                crate::table::lemma_row_position_meaning::<PgType>(before, oid);
            }
            let old_name: String = self.pg_type.at(i).typname.clone();
            let old_nsoid: u32 = self.pg_type.at(i).typnamespace;
            let mut renamed: PgType = self.pg_type.at(i).copy_row();
            renamed.typname = new_name.to_owned();
            renamed.typnamespace = new_nsoid;
            self.pg_type.insert(renamed);
            proof {
                let row = before[i as int];
                assert(self.pg_type@ =~= before.update(
                    i as int,
                    PgTypeView { typname: new_name@, typnamespace: new_nsoid, ..row },
                ));
            }
            self.type_by_qname.remove(old_nsoid, old_name.as_str());
            self.type_by_qname.insert(new_nsoid, new_name, oid);
        }
    }

    /// The type with this OID.
    pub fn get_type(&self, oid: u32) -> (r: Option<&PgType>)
        ensures
            match r {
                Some(t) => self@.get_type(oid) == Some(t@),
                None => self@.get_type(oid) is None,
            },
    {
        self.pg_type.get(oid)
    }

    // ── Relations ──

    pub fn insert_pg_class(&mut self, row: PgClass)
        ensures
            final(self)@ == old(self)@.with_class(row@),
    {
        self.class_by_qname.insert(row.relnamespace, row.relname.as_str(), row.oid);
        self.pg_class.insert(row);
    }

    pub fn remove_pg_class(&mut self, oid: u32) -> (r: Option<PgClass>)
        ensures
            final(self)@ == old(self)@.without_class(oid),
            r matches Some(x) ==> old(self)@.get_class(oid) == Some(x@),
            r is None ==> old(self)@.get_class(oid) is None,
    {
        match self.pg_class.remove(oid) {
            Some(row) => {
                self.class_by_qname.remove(row.relnamespace, row.relname.as_str());
                let _attrs: Option<RelAttrs> = self.pg_attribute.remove(oid);
                Some(row)
            },
            None => {
                proof {
                    lemma_row_drop_missing::<PgClass>(self.pg_class@, oid);
                }
                None
            },
        }
    }

    pub fn rename_pg_class(&mut self, oid: u32, new_name: &str, new_nsoid: u32)
        ensures
            final(self)@ == old(self)@.with_class_renamed(oid, new_name@, new_nsoid),
    {
        let i: usize = self.pg_class.position(oid);
        if i < self.pg_class.len() {
            let ghost before = self.pg_class@;
            proof {
                crate::table::lemma_row_position_meaning::<PgClass>(before, oid);
            }
            let old_name: String = self.pg_class.at(i).relname.clone();
            let old_nsoid: u32 = self.pg_class.at(i).relnamespace;
            let mut renamed: PgClass = self.pg_class.at(i).copy_row();
            renamed.relname = new_name.to_owned();
            renamed.relnamespace = new_nsoid;
            self.pg_class.insert(renamed);
            proof {
                let row = before[i as int];
                assert(self.pg_class@ =~= before.update(
                    i as int,
                    PgClassView { relname: new_name@, relnamespace: new_nsoid, ..row },
                ));
            }
            self.class_by_qname.remove(old_nsoid, old_name.as_str());
            self.class_by_qname.insert(new_nsoid, new_name, oid);
        }
    }

    /// The relation with this OID.
    pub fn get_class(&self, oid: u32) -> (r: Option<&PgClass>)
        ensures
            match r {
                Some(t) => self@.get_class(oid) == Some(t@),
                None => self@.get_class(oid) is None,
            },
    {
        self.pg_class.get(oid)
    }

    // ── Columns ──

    /// A copy of the columns of a relation.
    pub fn attributes_of(&self, relid: u32) -> (r: Vec<PgAttribute>)
        ensures
            attr_views(r@) == self@.attributes_of(relid),
    {
        match self.pg_attribute.get(relid) {
            Some(row) => copy_attributes(&row.attrs),
            None => {
                let r: Vec<PgAttribute> = Vec::new();
                proof {
                    assert(attr_views(r@) =~= Seq::empty());
                }
                r
            },
        }
    }

    /// Replaces the columns of a relation.
    pub fn set_attributes(&mut self, relid: u32, attrs: Vec<PgAttribute>)
        ensures
            final(self)@ == old(self)@.with_attributes(relid, attr_views(attrs@)),
    {
        self.pg_attribute.insert(RelAttrs { relid, attrs });
    }

    pub fn insert_pg_attribute(&mut self, attr: PgAttribute)
        ensures
            final(self)@ == old(self)@.with_attribute(attr@),
    {
        let relid: u32 = attr.attrelid;
        let attrs: Vec<PgAttribute> = self.attributes_of(relid);
        let attrs: Vec<PgAttribute> = insert_attribute(attrs, attr);
        self.set_attributes(relid, attrs);
    }

    // ── Enum labels and ranges ──

    /// A copy of the labels of an enum type.
    pub fn labels_of(&self, typid: u32) -> (r: Vec<PgEnum>)
        ensures
            label_views(r@) == self@.labels_of(typid),
    {
        let mut r: Vec<PgEnum> = Vec::new();
        proof {
            assert(label_views(r@) =~= Seq::empty());
        }
        match self.pg_enum.get(typid) {
            Some(row) => {
                let mut i: usize = 0;
                while i < row.labels.len()
                    invariant
                        i <= row.labels@.len(),
                        label_views(r@) == label_views(row.labels@).take(i as int),
                    decreases row.labels.len() - i,
                {
                    let e: &PgEnum = &row.labels[i];
                    let ghost before = label_views(r@);
                    r.push(
                        PgEnum { oid: e.oid, enumtypid: e.enumtypid, enumlabel: e.enumlabel.clone() },
                    );
                    proof {
                        assert(label_views(r@) =~= before.push(label_views(row.labels@)[i as int]));
                        assert(label_views(row.labels@).take(i + 1) =~= label_views(
                            row.labels@,
                        ).take(i as int).push(label_views(row.labels@)[i as int]));
                    }
                    i = i + 1;
                }
                proof {
                    assert(label_views(row.labels@).take(i as int) =~= label_views(row.labels@));
                }
            },
            None => {},
        }
        r
    }

    /// Puts a label at a position among those of its type.
    pub fn insert_pg_enum(&mut self, row: PgEnum, at: usize)
        requires
            at <= old(self)@.labels_of(row.enumtypid).len(),
        ensures
            final(self)@ == old(self)@.with_label_at(row@, at as int),
    {
        let typid: u32 = row.enumtypid;
        let mut labels: Vec<PgEnum> = self.labels_of(typid);
        let ghost before = label_views(labels@);
        labels.insert(at, row);
        proof {
            assert(label_views(labels@) =~= before.insert(at as int, row@));
        }
        self.pg_enum.insert(EnumLabels { typid, labels });
    }

    pub fn insert_pg_range(&mut self, row: PgRange)
        ensures
            final(self)@ == old(self)@.with_range(row),
    {
        self.pg_range.insert(row);
    }

    // ── Routines ──

    pub fn insert_pg_proc(&mut self, row: PgProc)
        ensures
            final(self)@ == old(self)@.with_proc(row@),
    {
        self.proc_by_qname.add_target(row.pronamespace, row.proname.as_str(), row.oid);
        self.pg_proc.insert(row);
    }

    pub fn remove_pg_proc(&mut self, oid: u32) -> (r: Option<PgProc>)
        ensures
            final(self)@ == old(self)@.without_proc(oid),
            r matches Some(x) ==> old(self)@.get_proc(oid) == Some(x@),
            r is None ==> old(self)@.get_proc(oid) is None,
    {
        match self.pg_proc.remove(oid) {
            Some(row) => {
                self.proc_by_qname.remove_target(row.pronamespace, row.proname.as_str(), oid);
                let _agg: Option<PgAggregate> = self.pg_aggregate.remove(oid);
                Some(row)
            },
            None => {
                proof {
                    lemma_row_drop_missing::<PgProc>(self.pg_proc@, oid);
                }
                None
            },
        }
    }

    pub fn rename_pg_proc(&mut self, oid: u32, new_name: &str, new_nsoid: u32)
        ensures
            final(self)@ == old(self)@.with_proc_renamed(oid, new_name@, new_nsoid),
    {
        let i: usize = self.pg_proc.position(oid);
        if i < self.pg_proc.len() {
            let ghost before = self.pg_proc@;
            proof {
                crate::table::lemma_row_position_meaning::<PgProc>(before, oid);
            }
            let old_name: String = self.pg_proc.at(i).proname.clone();
            let old_nsoid: u32 = self.pg_proc.at(i).pronamespace;
            let mut renamed: PgProc = self.pg_proc.at(i).copy_row();
            renamed.proname = new_name.to_owned();
            renamed.pronamespace = new_nsoid;
            self.pg_proc.insert(renamed);
            proof {
                let row = before[i as int];
                assert(self.pg_proc@ =~= before.update(
                    i as int,
                    PgProcView { proname: new_name@, pronamespace: new_nsoid, ..row },
                ));
            }
            self.proc_by_qname.remove_target(old_nsoid, old_name.as_str(), oid);
            self.proc_by_qname.add_target(new_nsoid, new_name, oid);
        }
    }

    pub fn insert_pg_aggregate(&mut self, row: PgAggregate)
        ensures
            final(self)@ == old(self)@.with_aggregate(row),
    {
        self.pg_aggregate.insert(row);
    }

    // ── Operators and casts ──

    pub fn insert_pg_operator(&mut self, row: PgOperator)
        ensures
            final(self)@ == old(self)@.with_operator(row@),
    {
        self.operator_by_qname.add_target(row.oprnamespace, row.oprname.as_str(), row.oid);
        self.pg_operator.insert(row);
    }

    pub fn remove_pg_operator(&mut self, oid: u32) -> (r: Option<PgOperator>)
        ensures
            final(self)@ == old(self)@.without_operator(oid),
            r matches Some(x) ==> row_get::<PgOperator>(old(self)@.pg_operator, oid) == Some(x@),
            r is None ==> row_get::<PgOperator>(old(self)@.pg_operator, oid) is None,
    {
        match self.pg_operator.remove(oid) {
            Some(row) => {
                self.operator_by_qname.remove_target(row.oprnamespace, row.oprname.as_str(), oid);
                Some(row)
            },
            None => {
                proof {
                    lemma_row_drop_missing::<PgOperator>(self.pg_operator@, oid);
                }
                None
            },
        }
    }

    pub fn insert_pg_cast(&mut self, row: PgCast)
        ensures
            final(self)@ == old(self)@.with_cast(row),
    {
        self.cast_by_pair.insert(row.castsource, row.casttarget, row.oid);
        self.pg_cast.insert(row);
    }

    pub fn remove_pg_cast(&mut self, oid: u32) -> (r: Option<PgCast>)
        ensures
            final(self)@ == old(self)@.without_cast(oid),
            r == row_get::<PgCast>(old(self)@.pg_cast, oid),
    {
        match self.pg_cast.remove(oid) {
            Some(row) => {
                self.cast_by_pair.remove(row.castsource, row.casttarget);
                Some(row)
            },
            None => {
                proof {
                    lemma_row_drop_missing::<PgCast>(self.pg_cast@, oid);
                }
                None
            },
        }
    }

    // ── Extensions and collations ──

    pub fn insert_pg_extension(&mut self, row: PgExtension)
        ensures
            final(self)@ == old(self)@.with_extension(row@),
    {
        self.extension_by_name.insert(0, row.extname.as_str(), row.oid);
        self.pg_extension.insert(row);
    }

    pub fn remove_pg_extension(&mut self, oid: u32) -> (r: Option<PgExtension>)
        ensures
            final(self)@ == old(self)@.without_extension(oid),
            r matches Some(x) ==> row_get::<PgExtension>(old(self)@.pg_extension, oid) == Some(x@),
            r is None ==> row_get::<PgExtension>(old(self)@.pg_extension, oid) is None,
    {
        match self.pg_extension.remove(oid) {
            Some(row) => {
                self.extension_by_name.remove(0, row.extname.as_str());
                Some(row)
            },
            None => {
                proof {
                    lemma_row_drop_missing::<PgExtension>(self.pg_extension@, oid);
                }
                None
            },
        }
    }

    pub fn insert_pg_collation(&mut self, row: PgCollation)
        ensures
            final(self)@ == old(self)@.with_collation(row@),
    {
        self.collation_by_qname.insert(row.collnamespace, row.collname.as_str(), row.oid);
        self.pg_collation.insert(row);
    }

    // ── Constraints, indexes, rules ──

    pub fn insert_pg_constraint(&mut self, row: PgConstraint)
        ensures
            final(self)@ == old(self)@.with_constraint(row@),
    {
        self.pg_constraint.insert(row);
    }

    pub fn remove_pg_constraint(&mut self, oid: u32)
        ensures
            final(self)@ == old(self)@.without_constraint(oid),
    {
        let _row: Option<PgConstraint> = self.pg_constraint.remove(oid);
    }

    pub fn remove_pg_constraints_of(&mut self, relid: u32)
        ensures
            final(self)@ == old(self)@.without_constraints_of(relid),
    {
        self.pg_constraint.remove_owned(relid);
    }

    pub fn insert_pg_index(&mut self, row: PgIndex)
        ensures
            final(self)@ == old(self)@.with_index(row@),
    {
        self.pg_index.insert(row);
    }

    pub fn remove_pg_index(&mut self, indexrelid: u32)
        ensures
            final(self)@ == old(self)@.without_index(indexrelid),
    {
        let _row: Option<PgIndex> = self.pg_index.remove(indexrelid);
    }

    /// Removes the indexes of a relation and gives their OIDs.
    pub fn remove_pg_indexes_of(&mut self, relid: u32) -> (r: Vec<u32>)
        ensures
            r@ == owned_keys::<PgIndex>(old(self)@.pg_index, relid),
            final(self)@ == old(self)@.without_indexes_of(relid),
    {
        let r: Vec<u32> = self.pg_index.keys_owned(relid);
        self.pg_index.remove_owned(relid);
        r
    }

    pub fn insert_pg_rewrite(&mut self, row: PgRewrite)
        ensures
            final(self)@ == old(self)@.with_rewrite(row@),
    {
        self.pg_rewrite.insert(row);
    }

    pub fn remove_pg_rewrites_of(&mut self, relid: u32)
        ensures
            final(self)@ == old(self)@.without_rewrites_of(relid),
    {
        self.pg_rewrite.remove_owned(relid);
    }

    /// The stored query of a view; nothing for another relation.
    pub fn view_body(&self, view_oid: u32) -> (r: Option<&SerializedAst>)
        ensures
            (match r {
                Some(b) => Some(b@),
                None => None,
            }) == self@.view_body(view_oid),
    {
        match self.get_class(view_oid) {
            Some(k) => if k.relkind != RelKind::View && k.relkind != RelKind::MaterializedView {
                return None;
            },
            None => return None,
        }
        let ghost rows = self@.pg_rewrite;
        let mut i: usize = 0;
        while i < self.pg_rewrite.len()
            invariant
                rows == self@.pg_rewrite,
                self@.view_body(view_oid) == first_body(rows, view_oid),
                i <= rows.len(),
                first_body(rows.take(i as int), view_oid) is None,
            decreases rows.len() - i,
        {
            let row: &PgRewrite = self.pg_rewrite.at(i);
            proof {
                assert(rows.take(i + 1).drop_last() =~= rows.take(i as int));
                assert(rows.take(i + 1).last() == row@);
            }
            if row.ev_class == view_oid && same_text(row.rulename.as_str(), "_RETURN") {
                proof {
                    lemma_first_body(rows, view_oid, i + 1);
                }
                return Some(&row.ev_action);
            }
            i = i + 1;
        }
        proof {
            assert(rows.take(i as int) =~= rows);
        }
        None
    }

    /// Forgets the stored query of a view.
    pub fn clear_view_body(&mut self, view_oid: u32)
        ensures
            final(self)@ == old(self)@.without_view_body(view_oid),
    {
        let ghost before = self@.pg_rewrite;
        let ghost wanted = |r: PgRewriteView| !(r.ev_class == view_oid && r.rulename == "_RETURN"@);
        let ghost mut done: int = 0;
        let mut i: usize = 0;
        proof {
            reveal(Seq::filter);
            assert(before.take(0).filter(wanted) =~= Seq::empty());
            assert(before =~= before.take(0).filter(wanted) + before.skip(0));
        }
        while i < self.pg_rewrite.len()
            invariant
                wanted == (|r: PgRewriteView| !(r.ev_class == view_oid && r.rulename == "_RETURN"@)),
                0 <= done <= before.len(),
                i == before.take(done).filter(wanted).len(),
                i <= self.pg_rewrite@.len(),
                self@.pg_rewrite == before.take(done).filter(wanted) + before.skip(done),
                self@ == (CatalogView { pg_rewrite: self@.pg_rewrite, ..old(self)@ }),
            decreases self.pg_rewrite@.len() - i,
        {
            let ghost kept = before.take(done).filter(wanted);
            let ghost now = self@.pg_rewrite;
            proof {
                assert(now[i as int] == before[done]);
                reveal(Seq::filter);
                assert(before.take(done + 1).drop_last() =~= before.take(done));
                assert(before.take(done + 1).last() == before[done]);
            }
            let rule: &PgRewrite = self.pg_rewrite.at(i);
            let gone: bool = rule.ev_class == view_oid && same_text(
                rule.rulename.as_str(),
                "_RETURN",
            );
            if gone {
                let _row: PgRewrite = self.pg_rewrite.remove_at(i);
                proof {
                    assert(self@.pg_rewrite =~= now.remove(i as int));
                    assert(now.remove(i as int) =~= kept + before.skip(done + 1));
                }
            } else {
                i = i + 1;
                proof {
                    assert(kept.push(before[done]) + before.skip(done + 1) =~= now);
                }
            }
            proof {
                done = done + 1;
            }
        }
        proof {
            assert(before.take(done) =~= before);
            assert(self@.pg_rewrite =~= before.filter(wanted));
        }
    }

    // ── Dependencies ──

    pub fn add_dependency(&mut self, row: PgDepend)
        ensures
            final(self)@ == old(self)@.with_dependency(row),
    {
        self.pg_depend.push(row);
    }

    pub fn remove_dependencies_of(&mut self, classid: u32, objid: u32)
        ensures
            final(self)@ == old(self)@.without_dependencies_of(classid, objid),
    {
        let ghost wanted = |d: PgDepend| !(d.classid == classid && d.objid == objid);
        let mut kept: Vec<PgDepend> = Vec::new();
        let mut i: usize = 0;
        proof {
            reveal(Seq::filter);
        }
        while i < self.pg_depend.len()
            invariant
                *self == *old(self),
                i <= self.pg_depend@.len(),
                wanted == (|d: PgDepend| !(d.classid == classid && d.objid == objid)),
                kept@ == self.pg_depend@.take(i as int).filter(wanted),
            decreases self.pg_depend.len() - i,
        {
            proof {
                reveal(Seq::filter);
                assert(self.pg_depend@.take(i + 1).drop_last() =~= self.pg_depend@.take(i as int));
            }
            let d: PgDepend = self.pg_depend[i];
            if !(d.classid == classid && d.objid == objid) {
                kept.push(d);
            }
            i = i + 1;
        }
        proof {
            assert(self.pg_depend@.take(i as int) =~= self.pg_depend@);
        }
        self.pg_depend = kept;
    }

    pub fn remove_dependencies_on(&mut self, refclassid: u32, refobjid: u32)
        ensures
            final(self)@ == old(self)@.without_dependencies_on(refclassid, refobjid),
    {
        let ghost wanted = |d: PgDepend| !(d.refclassid == refclassid && d.refobjid == refobjid);
        let mut kept: Vec<PgDepend> = Vec::new();
        let mut i: usize = 0;
        proof {
            reveal(Seq::filter);
        }
        while i < self.pg_depend.len()
            invariant
                *self == *old(self),
                i <= self.pg_depend@.len(),
                wanted == (|d: PgDepend| !(d.refclassid == refclassid && d.refobjid == refobjid)),
                kept@ == self.pg_depend@.take(i as int).filter(wanted),
            decreases self.pg_depend.len() - i,
        {
            proof {
                reveal(Seq::filter);
                assert(self.pg_depend@.take(i + 1).drop_last() =~= self.pg_depend@.take(i as int));
            }
            let d: PgDepend = self.pg_depend[i];
            if !(d.refclassid == refclassid && d.refobjid == refobjid) {
                kept.push(d);
            }
            i = i + 1;
        }
        proof {
            assert(self.pg_depend@.take(i as int) =~= self.pg_depend@);
        }
        self.pg_depend = kept;
    }

    /// Removes the dependencies of an object and those on it.
    pub fn remove_dependencies(&mut self, classid: u32, objid: u32)
        ensures
            final(self)@ == old(self)@.without_dependencies(classid, objid),
    {
        self.remove_dependencies_of(classid, objid);
        self.remove_dependencies_on(classid, objid);
    }
}

/// A table without a row of a key is not changed by taking that key out.
/// The first of the rules is found in every longer list.
proof fn lemma_first_body(rows: Seq<PgRewriteView>, view: u32, n: int)
    requires
        0 <= n <= rows.len(),
        first_body(rows.take(n), view) is Some,
    ensures
        first_body(rows, view) == first_body(rows.take(n), view),
    decreases rows.len(),
{
    if n < rows.len() {
        assert(rows.drop_last().take(n) =~= rows.take(n));
        lemma_first_body(rows.drop_last(), view, n);
    } else {
        assert(rows.take(n) =~= rows);
    }
}

pub proof fn lemma_row_drop_missing<R: Row>(rows: Seq<R::V>, key: u32)
    requires
        row_get::<R>(rows, key) is None,
    ensures
        row_drop::<R>(rows, key) == rows,
{
}

/// A copy of a list of columns.
pub fn copy_attributes(attrs: &Vec<PgAttribute>) -> (r: Vec<PgAttribute>)
    ensures
        attr_views(r@) == attr_views(attrs@),
{
    let mut r: Vec<PgAttribute> = Vec::new();
    let mut i: usize = 0;
    proof {
        assert(attr_views(r@) =~= attr_views(attrs@).take(0));
    }
    while i < attrs.len()
        invariant
            i <= attrs@.len(),
            attr_views(r@) == attr_views(attrs@).take(i as int),
        decreases attrs.len() - i,
    {
        let ghost before = attr_views(r@);
        r.push(attrs[i].copy());
        proof {
            assert(attr_views(r@) =~= before.push(attr_views(attrs@)[i as int]));
            assert(attr_views(attrs@).take(i + 1) =~= attr_views(attrs@).take(i as int).push(
                attr_views(attrs@)[i as int],
            ));
        }
        i = i + 1;
    }
    proof {
        assert(attr_views(attrs@).take(i as int) =~= attr_views(attrs@));
    }
    r
}

/// Puts a column into a list by ascending number.
pub(crate) fn insert_attribute(attrs: Vec<PgAttribute>, attr: PgAttribute) -> (r: Vec<PgAttribute>)
    ensures
        attr_views(r@) == attr_inserted(attr_views(attrs@), attr@),
{
    let mut attrs: Vec<PgAttribute> = attrs;
    let ghost before = attr_views(attrs@);
    let mut k: usize = attrs.len();
    proof {
        assert(before.take(k as int) =~= before);
        assert(before.skip(k as int) =~= Seq::empty());
        assert(attr_inserted(before, attr@) =~= attr_inserted(before.take(k as int), attr@)
            + before.skip(k as int));
    }
    while 0 < k && attr.attnum < attrs[k - 1].attnum
        invariant
            k <= attrs@.len(),
            before == attr_views(attrs@),
            attr_inserted(before, attr@) == attr_inserted(before.take(k as int), attr@)
                + before.skip(k as int),
        decreases k,
    {
        proof {
            assert(before.take(k as int).drop_last() =~= before.take(k - 1));
            assert(before.take(k as int).last() == before[k - 1]);
            assert(before.skip(k - 1) =~= seq![before[k - 1]].add(before.skip(k as int)));
            assert(attr_inserted(before.take(k - 1), attr@).push(before[k - 1]) + before.skip(
                k as int,
            ) =~= attr_inserted(before.take(k - 1), attr@) + before.skip(k - 1));
        }
        k = k - 1;
    }
    let ghost value = attr@;
    attrs.insert(k, attr);
    proof {
        assert(attr_inserted(before.take(k as int), value) == before.take(k as int).push(value));
        assert(attr_views(attrs@) =~= before.take(k as int).push(value) + before.skip(k as int));
    }
    attrs
}

} // verus!

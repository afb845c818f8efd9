//! The schema of a live server, put together from the rows of its catalog.

use crate::expr_type::{CompositeField, CompositeFieldView};
use crate::pg_catalog::CastContext;
use crate::text::{characters, concat3, decimal, decimal_text, same_text, slice_text};
use vstd::prelude::*;

verus! {

// ── Search path ─────────────────────────────────────────────────────────────

/// Whether a character is white space, as Unicode has it.
pub open spec fn is_space(c: char) -> bool {
    ('\u{9}' <= c <= '\u{d}') || c == ' ' || c == '\u{85}' || c == '\u{a0}' || c == '\u{1680}' || (
    '\u{2000}' <= c <= '\u{200a}') || c == '\u{2028}' || c == '\u{2029}' || c == '\u{202f}' || c
        == '\u{205f}' || c == '\u{3000}'
}

/// Whether a character is taken off the ends of a name: a quote, or white space.
pub open spec fn taken_off(c: char, quotes: bool) -> bool {
    if quotes {
        c == '"'
    } else {
        is_space(c)
    }
}

/// A text without such characters at its start.
pub open spec fn start_trimmed(s: Seq<char>, quotes: bool) -> Seq<char>
    decreases s.len(),
{
    if s.len() > 0 && taken_off(s[0], quotes) {
        start_trimmed(s.drop_first(), quotes)
    } else {
        s
    }
}

/// A text without such characters at its end.
pub open spec fn end_trimmed(s: Seq<char>, quotes: bool) -> Seq<char>
    decreases s.len(),
{
    if s.len() > 0 && taken_off(s.last(), quotes) {
        end_trimmed(s.drop_last(), quotes)
    } else {
        s
    }
}

/// A text without such characters at its ends.
pub open spec fn trimmed(s: Seq<char>, quotes: bool) -> Seq<char> {
    end_trimmed(start_trimmed(s, quotes), quotes)
}

/// The schema that an entry of the search path names. The schema of the user is the
/// public one.
pub open spec fn path_entry(s: Seq<char>) -> Seq<char> {
    let name = trimmed(trimmed(s, false), true);
    if name == "$user"@ {
        "public"@
    } else {
        name
    }
}

/// The schemas that a search path names: those found, then those from position `i`
/// on, where an entry began at `start`.
pub open spec fn path_from(
    s: Seq<char>,
    start: int,
    i: int,
    found: Seq<Seq<char>>,
) -> Seq<Seq<char>>
    decreases s.len() - i,
{
    if i >= s.len() {
        found.push(path_entry(s.subrange(start, s.len() as int)))
    } else if s[i] == ',' {
        path_from(s, i + 1, i + 1, found.push(path_entry(s.subrange(start, i))))
    } else {
        path_from(s, start, i + 1, found)
    }
}

fn is_taken_off(c: char, quotes: bool) -> (r: bool)
    ensures
        r == taken_off(c, quotes),
{
    if quotes {
        c == '"'
    } else {
        ('\u{9}' <= c && c <= '\u{d}') || c == ' ' || c == '\u{85}' || c == '\u{a0}' || c
            == '\u{1680}' || ('\u{2000}' <= c && c <= '\u{200a}') || c == '\u{2028}' || c
            == '\u{2029}' || c == '\u{202f}' || c == '\u{205f}' || c == '\u{3000}'
    }
}

fn trim_range(chars: &Vec<char>, from: usize, to: usize, quotes: bool) -> (r: (usize, usize))
    requires
        from <= to <= chars@.len(),
    ensures
        from <= r.0 <= r.1 <= to,
        chars@.subrange(r.0 as int, r.1 as int) == trimmed(
            chars@.subrange(from as int, to as int),
            quotes,
        ),
{
    let ghost whole = chars@.subrange(from as int, to as int);
    let mut a: usize = from;
    while a < to && is_taken_off(chars[a], quotes)
        invariant
            from <= a <= to <= chars@.len(),
            start_trimmed(whole, quotes) == start_trimmed(
                chars@.subrange(a as int, to as int),
                quotes,
            ),
        decreases to - a,
    {
        proof {
            assert(chars@.subrange(a as int, to as int).drop_first() =~= chars@.subrange(
                a + 1,
                to as int,
            ));
        }
        a = a + 1;
    }
    let ghost middle = chars@.subrange(a as int, to as int);
    let mut b: usize = to;
    while a < b && is_taken_off(chars[b - 1], quotes)
        invariant
            from <= a <= b <= to <= chars@.len(),
            end_trimmed(middle, quotes) == end_trimmed(
                chars@.subrange(a as int, b as int),
                quotes,
            ),
        decreases b - a,
    {
        proof {
            assert(chars@.subrange(a as int, b as int).drop_last() =~= chars@.subrange(
                a as int,
                b - 1,
            ));
        }
        b = b - 1;
    }
    (a, b)
}

fn read_entry(chars: &Vec<char>, from: usize, to: usize) -> (r: String)
    requires
        from <= to <= chars@.len(),
    ensures
        r@ == path_entry(chars@.subrange(from as int, to as int)),
{
    let (a, b) = trim_range(chars, from, to, false);
    let (c, d) = trim_range(chars, a, b, true);
    let name: String = slice_text(chars, c, d);
    if same_text(&name, "$user") {
        "public".to_string()
    } else {
        name
    }
}

/// The values of a list of texts.
pub open spec fn text_list(v: Seq<String>) -> Seq<Seq<char>> {
    v.map_values(|s: String| s@)
}

/// The schemas that the setting `search_path` names, in their order.
pub fn parse_search_path(raw: &str) -> (r: Vec<String>)
    ensures
        text_list(r@) == path_from(raw@, 0, 0, Seq::empty()),
{
    let chars: Vec<char> = characters(raw);
    let mut r: Vec<String> = Vec::new();
    let mut start: usize = 0;
    let mut i: usize = 0;
    proof {
        assert(text_list(r@) =~= Seq::empty());
    }
    while i < chars.len()
        invariant
            chars@ == raw@,
            start <= i <= chars@.len(),
            path_from(raw@, 0, 0, Seq::empty()) == path_from(
                raw@,
                start as int,
                i as int,
                text_list(r@),
            ),
        decreases chars.len() - i,
    {
        if chars[i] == ',' {
            let ghost before = text_list(r@);
            let entry: String = read_entry(&chars, start, i);
            r.push(entry);
            proof {
                assert(text_list(r@) =~= before.push(entry@));
            }
            start = i + 1;
        }
        i = i + 1;
    }
    let ghost before = text_list(r@);
    let entry: String = read_entry(&chars, start, i);
    r.push(entry);
    proof {
        assert(text_list(r@) =~= before.push(entry@));
    }
    r
}

// ── Types ───────────────────────────────────────────────────────────────────

/// A row of `pg_type` with the name of its schema.
#[derive(Debug)]
pub struct TypeRow {
    pub oid: u32,
    pub name: String,
    pub schema: String,
    pub typtype: i8,
    pub basetype: u32,
    pub typelem: u32,
    pub typrelid: u32,
    pub typlen: i16,
}

/// A row of `pg_enum`.
#[derive(Debug)]
pub struct LabelRow {
    pub typid: u32,
    pub label: String,
}

/// A row of `pg_attribute` as a field of a composite type.
#[derive(Debug)]
pub struct FieldRow {
    pub relid: u32,
    pub field: CompositeField,
}

/// What kind of type it is.
#[derive(Debug)]
pub enum TypeKind {
    Base,
    Domain { base_type_oid: u32 },
    Enum { labels: Vec<String> },
    Composite { fields: Vec<CompositeField> },
    Range { subtype_oid: u32 },
    Array { element_type_oid: u32 },
    Pseudo,
}

pub enum TypeKindView {
    Base,
    Domain { base_type_oid: u32 },
    Enum { labels: Seq<Seq<char>> },
    Composite { fields: Seq<CompositeFieldView> },
    Range { subtype_oid: u32 },
    Array { element_type_oid: u32 },
    Pseudo,
}

/// The values of a list of fields.
pub open spec fn composite_views(v: Seq<CompositeField>) -> Seq<CompositeFieldView> {
    v.map_values(|f: CompositeField| f@)
}

impl View for TypeKind {
    type V = TypeKindView;

    open spec fn view(&self) -> TypeKindView {
        match *self {
            TypeKind::Base => TypeKindView::Base,
            TypeKind::Domain { base_type_oid } => TypeKindView::Domain { base_type_oid },
            TypeKind::Enum { labels } => TypeKindView::Enum { labels: text_list(labels@) },
            TypeKind::Composite { fields } => TypeKindView::Composite {
                fields: composite_views(fields@),
            },
            TypeKind::Range { subtype_oid } => TypeKindView::Range { subtype_oid },
            TypeKind::Array { element_type_oid } => TypeKindView::Array { element_type_oid },
            TypeKind::Pseudo => TypeKindView::Pseudo,
        }
    }
}

/// The labels of a type among the first `n` rows, in their order.
pub open spec fn labels_in(rows: Seq<LabelRow>, typid: u32, n: int) -> Seq<Seq<char>>
    decreases n,
{
    if n <= 0 {
        Seq::empty()
    } else if rows[n - 1].typid == typid {
        labels_in(rows, typid, n - 1).push(rows[n - 1].label@)
    } else {
        labels_in(rows, typid, n - 1)
    }
}

fn find_labels(rows: &Vec<LabelRow>, typid: u32) -> (r: Vec<String>)
    ensures
        text_list(r@) == labels_in(rows@, typid, rows@.len() as int),
{
    let mut r: Vec<String> = Vec::new();
    let mut i: usize = 0;
    proof {
        assert(text_list(r@) =~= Seq::empty());
    }
    while i < rows.len()
        invariant
            i <= rows@.len(),
            text_list(r@) == labels_in(rows@, typid, i as int),
        decreases rows.len() - i,
    {
        if rows[i].typid == typid {
            let ghost before = text_list(r@);
            let label: String = rows[i].label.as_str().to_owned();
            r.push(label);
            proof {
                assert(text_list(r@) =~= before.push(label@));
            }
        }
        i = i + 1;
    }
    r
}

/// The fields of a relation among the first `n` rows, in their order.
pub open spec fn fields_in(rows: Seq<FieldRow>, relid: u32, n: int) -> Seq<CompositeFieldView>
    decreases n,
{
    if n <= 0 {
        Seq::empty()
    } else if rows[n - 1].relid == relid {
        fields_in(rows, relid, n - 1).push(rows[n - 1].field@)
    } else {
        fields_in(rows, relid, n - 1)
    }
}

fn find_fields(rows: &Vec<FieldRow>, relid: u32) -> (r: Vec<CompositeField>)
    ensures
        composite_views(r@) == fields_in(rows@, relid, rows@.len() as int),
{
    let mut r: Vec<CompositeField> = Vec::new();
    let mut i: usize = 0;
    proof {
        assert(composite_views(r@) =~= Seq::empty());
    }
    while i < rows.len()
        invariant
            i <= rows@.len(),
            composite_views(r@) == fields_in(rows@, relid, i as int),
        decreases rows.len() - i,
    {
        if rows[i].relid == relid {
            let ghost before = composite_views(r@);
            let f: &CompositeField = &rows[i].field;
            let copy: CompositeField = CompositeField {
                name: f.name.as_str().to_owned(),
                type_oid: f.type_oid,
                not_null: f.not_null,
            };
            r.push(copy);
            proof {
                assert(composite_views(r@) =~= before.push(copy@));
            }
        }
        i = i + 1;
    }
    r
}

/// The kind of a type, by the letter in its row: `d` for a domain, `e` for an enum,
/// `c` for a composite type, `r` for a range, `p` for a pseudo type. Of the others, a
/// type of varying length with elements and an underscore before its name is an
/// array.
pub open spec fn kind_of_row(
    row: TypeRow,
    labels: Seq<LabelRow>,
    fields: Seq<FieldRow>,
) -> TypeKindView {
    if row.typtype == 100 {
        TypeKindView::Domain { base_type_oid: row.basetype }
    } else if row.typtype == 101 {
        TypeKindView::Enum { labels: labels_in(labels, row.oid, labels.len() as int) }
    } else if row.typtype == 99 {
        TypeKindView::Composite { fields: fields_in(fields, row.typrelid, fields.len() as int) }
    } else if row.typtype == 114 {
        TypeKindView::Range { subtype_oid: row.basetype }
    } else if row.typtype == 112 {
        TypeKindView::Pseudo
    } else if row.typelem != 0 && row.typlen == -1 && row.name@.len() > 0 && row.name@[0] == '_' {
        TypeKindView::Array { element_type_oid: row.typelem }
    } else {
        TypeKindView::Base
    }
}

fn read_kind(row: &TypeRow, labels: &Vec<LabelRow>, fields: &Vec<FieldRow>) -> (r: TypeKind)
    ensures
        r@ == kind_of_row(*row, labels@, fields@),
{
    let letter: i8 = row.typtype;
    if letter == 100 {
        TypeKind::Domain { base_type_oid: row.basetype }
    } else if letter == 101 {
        TypeKind::Enum { labels: find_labels(labels, row.oid) }
    } else if letter == 99 {
        TypeKind::Composite { fields: find_fields(fields, row.typrelid) }
    } else if letter == 114 {
        TypeKind::Range { subtype_oid: row.basetype }
    } else if letter == 112 {
        TypeKind::Pseudo
    } else {
        let chars: Vec<char> = characters(&row.name);
        if row.typelem != 0 && row.typlen == -1 && chars.len() > 0 && chars[0] == '_' {
            TypeKind::Array { element_type_oid: row.typelem }
        } else {
            TypeKind::Base
        }
    }
}

/// A type of the schema.
#[derive(Debug)]
pub struct TypeEntry {
    pub oid: u32,
    pub name: String,
    pub schema: String,
    pub kind: TypeKind,
}

pub struct TypeEntryView {
    pub oid: u32,
    pub name: Seq<char>,
    pub schema: Seq<char>,
    pub kind: TypeKindView,
}

impl View for TypeEntry {
    type V = TypeEntryView;

    open spec fn view(&self) -> TypeEntryView {
        TypeEntryView {
            oid: self.oid,
            name: self.name@,
            schema: self.schema@,
            kind: self.kind@,
        }
    }
}

/// The entry of a row.
pub open spec fn type_entry(
    row: TypeRow,
    labels: Seq<LabelRow>,
    fields: Seq<FieldRow>,
) -> TypeEntryView {
    TypeEntryView {
        oid: row.oid,
        name: row.name@,
        schema: row.schema@,
        kind: kind_of_row(row, labels, fields),
    }
}

/// The types of the schema, in the order of their rows.
pub fn export_types(rows: Vec<TypeRow>, labels: &Vec<LabelRow>, fields: &Vec<FieldRow>) -> (r: Vec<
    TypeEntry,
>)
    ensures
        r@.len() == rows@.len(),
        forall|i: int|
            0 <= i < rows@.len() ==> (#[trigger] r@[i])@ == type_entry(rows@[i], labels@, fields@),
{
    let mut r: Vec<TypeEntry> = Vec::new();
    let mut i: usize = 0;
    while i < rows.len()
        invariant
            i <= rows@.len(),
            r@.len() == i,
            forall|k: int|
                0 <= k < i ==> (#[trigger] r@[k])@ == type_entry(rows@[k], labels@, fields@),
        decreases rows.len() - i,
    {
        let row: &TypeRow = &rows[i];
        let entry: TypeEntry = TypeEntry {
            oid: row.oid,
            name: row.name.as_str().to_owned(),
            schema: row.schema.as_str().to_owned(),
            kind: read_kind(row, labels, fields),
        };
        r.push(entry);
        i = i + 1;
    }
    r
}

// ── Tables ──────────────────────────────────────────────────────────────────

/// A row of `pg_class` with the name of its schema.
#[derive(Debug)]
pub struct TableRow {
    pub oid: u32,
    pub name: String,
    pub schema: String,
    pub relkind: i8,
}

/// A column of a table.
#[derive(Debug)]
pub struct TableColumn {
    pub name: String,
    pub type_oid: u32,
    pub not_null: bool,
    pub has_default: bool,
    pub attnum: i16,
}

pub struct TableColumnView {
    pub name: Seq<char>,
    pub type_oid: u32,
    pub not_null: bool,
    pub has_default: bool,
    pub attnum: i16,
}

impl View for TableColumn {
    type V = TableColumnView;

    open spec fn view(&self) -> TableColumnView {
        TableColumnView {
            name: self.name@,
            type_oid: self.type_oid,
            not_null: self.not_null,
            has_default: self.has_default,
            attnum: self.attnum,
        }
    }
}

/// A row of `pg_attribute` as a column of a table.
#[derive(Debug)]
pub struct ColumnRow {
    pub relid: u32,
    pub column: TableColumn,
}

/// What kind of relation it is.
#[derive(Debug, Clone, Copy, PartialEq, Eq, Structural)]
pub enum RelationKind {
    Table,
    View,
    MaterializedView,
    Partitioned,
}

/// A relation of the schema.
#[derive(Debug)]
pub struct TableEntry {
    pub oid: u32,
    pub name: String,
    pub schema: String,
    pub kind: RelationKind,
    pub columns: Vec<TableColumn>,
}

pub struct TableEntryView {
    pub oid: u32,
    pub name: Seq<char>,
    pub schema: Seq<char>,
    pub kind: RelationKind,
    pub columns: Seq<TableColumnView>,
}

/// The values of a list of columns.
pub open spec fn table_column_views(v: Seq<TableColumn>) -> Seq<TableColumnView> {
    v.map_values(|c: TableColumn| c@)
}

/// The values of a list of relations.
pub open spec fn table_views(v: Seq<TableEntry>) -> Seq<TableEntryView> {
    v.map_values(|t: TableEntry| t@)
}

impl View for TableEntry {
    type V = TableEntryView;

    open spec fn view(&self) -> TableEntryView {
        TableEntryView {
            oid: self.oid,
            name: self.name@,
            schema: self.schema@,
            kind: self.kind,
            columns: table_column_views(self.columns@),
        }
    }
}

/// The columns of a relation among the first `n` rows, in their order.
pub open spec fn columns_in(rows: Seq<ColumnRow>, relid: u32, n: int) -> Seq<TableColumnView>
    decreases n,
{
    if n <= 0 {
        Seq::empty()
    } else if rows[n - 1].relid == relid {
        columns_in(rows, relid, n - 1).push(rows[n - 1].column@)
    } else {
        columns_in(rows, relid, n - 1)
    }
}

fn find_columns(rows: &Vec<ColumnRow>, relid: u32) -> (r: Vec<TableColumn>)
    ensures
        table_column_views(r@) == columns_in(rows@, relid, rows@.len() as int),
{
    let mut r: Vec<TableColumn> = Vec::new();
    let mut i: usize = 0;
    proof {
        assert(table_column_views(r@) =~= Seq::empty());
    }
    while i < rows.len()
        invariant
            i <= rows@.len(),
            table_column_views(r@) == columns_in(rows@, relid, i as int),
        decreases rows.len() - i,
    {
        if rows[i].relid == relid {
            let ghost before = table_column_views(r@);
            let c: &TableColumn = &rows[i].column;
            let copy: TableColumn = TableColumn {
                name: c.name.as_str().to_owned(),
                type_oid: c.type_oid,
                not_null: c.not_null,
                has_default: c.has_default,
                attnum: c.attnum,
            };
            r.push(copy);
            proof {
                assert(table_column_views(r@) =~= before.push(copy@));
            }
        }
        i = i + 1;
    }
    r
}

/// The kind of a relation, by the letter in its row: `r`, `v`, `m` or `p`.
pub open spec fn relation_kind(letter: i8) -> Option<RelationKind> {
    if letter == 114 {
        Some(RelationKind::Table)
    } else if letter == 118 {
        Some(RelationKind::View)
    } else if letter == 109 {
        Some(RelationKind::MaterializedView)
    } else if letter == 112 {
        Some(RelationKind::Partitioned)
    } else {
        None
    }
}

fn read_relation_kind(letter: i8) -> (r: Option<RelationKind>)
    ensures
        r == relation_kind(letter),
{
    if letter == 114 {
        Some(RelationKind::Table)
    } else if letter == 118 {
        Some(RelationKind::View)
    } else if letter == 109 {
        Some(RelationKind::MaterializedView)
    } else if letter == 112 {
        Some(RelationKind::Partitioned)
    } else {
        None
    }
}

/// The relations of the first `n` rows. Relations of another kind are left out.
pub open spec fn tables_in(rows: Seq<TableRow>, columns: Seq<ColumnRow>, n: int) -> Seq<
    TableEntryView,
>
    decreases n,
{
    if n <= 0 {
        Seq::empty()
    } else {
        let before = tables_in(rows, columns, n - 1);
        match relation_kind(rows[n - 1].relkind) {
            Some(kind) => before.push(
                TableEntryView {
                    oid: rows[n - 1].oid,
                    name: rows[n - 1].name@,
                    schema: rows[n - 1].schema@,
                    kind,
                    columns: columns_in(columns, rows[n - 1].oid, columns.len() as int),
                },
            ),
            None => before,
        }
    }
}

/// The relations of the schema with their columns.
pub fn export_tables(rows: Vec<TableRow>, columns: &Vec<ColumnRow>) -> (r: Vec<TableEntry>)
    ensures
        table_views(r@) == tables_in(rows@, columns@, rows@.len() as int),
{
    let mut r: Vec<TableEntry> = Vec::new();
    let mut i: usize = 0;
    proof {
        assert(table_views(r@) =~= Seq::empty());
    }
    while i < rows.len()
        invariant
            i <= rows@.len(),
            table_views(r@) == tables_in(rows@, columns@, i as int),
        decreases rows.len() - i,
    {
        let row: &TableRow = &rows[i];
        match read_relation_kind(row.relkind) {
            Some(kind) => {
                let ghost before = table_views(r@);
                let entry: TableEntry = TableEntry {
                    oid: row.oid,
                    name: row.name.as_str().to_owned(),
                    schema: row.schema.as_str().to_owned(),
                    kind,
                    columns: find_columns(columns, row.oid),
                };
                r.push(entry);
                proof {
                    assert(table_views(r@) =~= before.push(entry@));
                }
            },
            None => {},
        }
        i = i + 1;
    }
    r
}

// ── Functions ───────────────────────────────────────────────────────────────

/// A row of `pg_proc` with the name of its schema.
#[derive(Debug)]
pub struct FunctionRow {
    pub oid: u32,
    pub name: String,
    pub schema: String,
    pub arg_types: Vec<u32>,
    pub return_type_oid: u32,
    pub is_strict: bool,
    pub is_set_returning: bool,
    pub is_variadic: bool,
    pub prokind: i8,
}

/// What an aggregate returns in the end, where it has a final function.
#[derive(Debug)]
pub struct AggregateRow {
    pub oid: u32,
    pub final_type: Option<u32>,
}

/// A function of the schema.
#[derive(Debug)]
pub struct FunctionEntry {
    pub oid: u32,
    pub name: String,
    pub schema: String,
    pub arg_types: Vec<u32>,
    pub return_type_oid: u32,
    pub is_aggregate: bool,
    pub is_window: bool,
    pub is_variadic: bool,
    pub is_set_returning: bool,
    pub is_strict: bool,
    pub agg_final_type_oid: Option<u32>,
}

#[verifier::ext_equal]
pub struct FunctionEntryView {
    pub oid: u32,
    pub name: Seq<char>,
    pub schema: Seq<char>,
    pub arg_types: Seq<u32>,
    pub return_type_oid: u32,
    pub is_aggregate: bool,
    pub is_window: bool,
    pub is_variadic: bool,
    pub is_set_returning: bool,
    pub is_strict: bool,
    pub agg_final_type_oid: Option<u32>,
}

impl View for FunctionEntry {
    type V = FunctionEntryView;

    open spec fn view(&self) -> FunctionEntryView {
        FunctionEntryView {
            oid: self.oid,
            name: self.name@,
            schema: self.schema@,
            arg_types: self.arg_types@,
            return_type_oid: self.return_type_oid,
            is_aggregate: self.is_aggregate,
            is_window: self.is_window,
            is_variadic: self.is_variadic,
            is_set_returning: self.is_set_returning,
            is_strict: self.is_strict,
            agg_final_type_oid: self.agg_final_type_oid,
        }
    }
}

/// What the last of the first `n` rows says of an aggregate.
pub open spec fn final_type_in(rows: Seq<AggregateRow>, oid: u32, n: int) -> Option<u32>
    decreases n,
{
    if n <= 0 {
        None
    } else if rows[n - 1].oid == oid {
        rows[n - 1].final_type
    } else {
        final_type_in(rows, oid, n - 1)
    }
}

fn find_final_type(rows: &Vec<AggregateRow>, oid: u32) -> (r: Option<u32>)
    ensures
        r == final_type_in(rows@, oid, rows@.len() as int),
{
    let mut i: usize = rows.len();
    while i > 0
        invariant
            i <= rows@.len(),
            final_type_in(rows@, oid, rows@.len() as int) == final_type_in(rows@, oid, i as int),
        decreases i,
    {
        if rows[i - 1].oid == oid {
            return rows[i - 1].final_type;
        }
        i = i - 1;
    }
    None
}

/// The function of a row: the letter `a` marks an aggregate, `w` a window function.
pub open spec fn function_entry(
    row: FunctionRow,
    aggregates: Seq<AggregateRow>,
) -> FunctionEntryView {
    FunctionEntryView {
        oid: row.oid,
        name: row.name@,
        schema: row.schema@,
        arg_types: row.arg_types@,
        return_type_oid: row.return_type_oid,
        is_aggregate: row.prokind == 97,
        is_window: row.prokind == 119,
        is_variadic: row.is_variadic,
        is_set_returning: row.is_set_returning,
        is_strict: row.is_strict,
        agg_final_type_oid: if row.prokind == 97 {
            final_type_in(aggregates, row.oid, aggregates.len() as int)
        } else {
            None
        },
    }
}

/// The function of a row.
pub fn export_function(row: FunctionRow, aggregates: &Vec<AggregateRow>) -> (r: FunctionEntry)
    ensures
        r@ == function_entry(row, aggregates@),
{
    let is_aggregate: bool = row.prokind == 97;
    let agg_final_type_oid: Option<u32> = if is_aggregate {
        find_final_type(aggregates, row.oid)
    } else {
        None
    };
    FunctionEntry {
        oid: row.oid,
        name: row.name,
        schema: row.schema,
        arg_types: row.arg_types,
        return_type_oid: row.return_type_oid,
        is_aggregate,
        is_window: row.prokind == 119,
        is_variadic: row.is_variadic,
        is_set_returning: row.is_set_returning,
        is_strict: row.is_strict,
        agg_final_type_oid,
    }
}

/// Functions with the same name.
#[derive(Debug)]
pub struct FunctionGroup {
    pub name: String,
    pub functions: Vec<FunctionEntry>,
}

#[verifier::ext_equal]
pub struct FunctionGroupView {
    pub name: Seq<char>,
    pub functions: Seq<FunctionEntryView>,
}

/// The values of a list of functions.
pub open spec fn function_views(v: Seq<FunctionEntry>) -> Seq<FunctionEntryView> {
    v.map_values(|f: FunctionEntry| f@)
}

/// The values of a list of groups.
pub open spec fn group_views(v: Seq<FunctionGroup>) -> Seq<FunctionGroupView> {
    v.map_values(|g: FunctionGroup| g@)
}

impl View for FunctionGroup {
    type V = FunctionGroupView;

    open spec fn view(&self) -> FunctionGroupView {
        FunctionGroupView { name: self.name@, functions: function_views(self.functions@) }
    }
}

/// The position of the first group with this name, or the number of groups.
pub open spec fn group_position(groups: Seq<FunctionGroupView>, name: Seq<char>, i: int) -> int
    decreases groups.len() - i,
{
    if i >= groups.len() {
        groups.len() as int
    } else if groups[i].name == name {
        i
    } else {
        group_position(groups, name, i + 1)
    }
}

/// The groups with one more function, behind the others of its name.
pub open spec fn grouped(groups: Seq<FunctionGroupView>, f: FunctionEntryView) -> Seq<
    FunctionGroupView,
> {
    let i = group_position(groups, f.name, 0);
    if i < groups.len() {
        groups.update(
            i,
            FunctionGroupView { name: groups[i].name, functions: groups[i].functions.push(f) },
        )
    } else {
        groups.push(FunctionGroupView { name: f.name, functions: seq![f] })
    }
}

fn find_group(groups: &Vec<FunctionGroup>, name: &str) -> (r: usize)
    ensures
        r as int == group_position(group_views(groups@), name@, 0),
        r <= groups@.len(),
{
    let mut i: usize = 0;
    while i < groups.len()
        invariant
            i <= groups@.len(),
            group_position(group_views(groups@), name@, 0) == group_position(
                group_views(groups@),
                name@,
                i as int,
            ),
        decreases groups.len() - i,
    {
        if same_text(&groups[i].name, name) {
            return i;
        }
        i = i + 1;
    }
    i
}

fn group_function(groups: &mut Vec<FunctionGroup>, f: FunctionEntry)
    ensures
        group_views(final(groups)@) == grouped(group_views(old(groups)@), f@),
{
    let ghost before = group_views(groups@);
    let ghost value = f@;
    let i: usize = find_group(groups, &f.name);
    if i < groups.len() {
        let mut group: FunctionGroup = groups.remove(i);
        let ghost functions = function_views(group.functions@);
        group.functions.push(f);
        proof {
            assert(function_views(group.functions@) =~= functions.push(value));
        }
        groups.insert(i, group);
        proof {
            assert(group_views(groups@) =~= grouped(before, value));
        }
    } else {
        let name: String = f.name.as_str().to_owned();
        let mut functions: Vec<FunctionEntry> = Vec::new();
        functions.push(f);
        proof {
            assert(function_views(functions@) =~= seq![value]);
        }
        groups.push(FunctionGroup { name, functions });
        proof {
            assert(group_views(groups@) =~= grouped(before, value));
        }
    }
}

/// The functions of the first `n` rows, by name.
pub open spec fn functions_in(rows: Seq<FunctionRow>, aggregates: Seq<AggregateRow>, n: int) -> Seq<
    FunctionGroupView,
>
    decreases n,
{
    if n <= 0 {
        Seq::empty()
    } else {
        grouped(functions_in(rows, aggregates, n - 1), function_entry(rows[n - 1], aggregates))
    }
}

/// The functions of the schema, by name.
pub fn export_functions(rows: Vec<FunctionRow>, aggregates: &Vec<AggregateRow>) -> (r: Vec<
    FunctionGroup,
>)
    ensures
        group_views(r@) == functions_in(rows@, aggregates@, rows@.len() as int),
{
    let ghost all = rows@;
    let mut rest: Vec<FunctionRow> = rows;
    let mut r: Vec<FunctionGroup> = Vec::new();
    let ghost mut done: int = 0;
    proof {
        assert(group_views(r@) =~= Seq::empty());
    }
    while rest.len() > 0
        invariant
            0 <= done <= all.len(),
            rest@ == all.skip(done),
            group_views(r@) == functions_in(all, aggregates@, done),
        decreases rest.len(),
    {
        let row: FunctionRow = rest.remove(0);
        proof {
            assert(row == all[done]);
            assert(rest@ =~= all.skip(done + 1));
        }
        let entry: FunctionEntry = export_function(row, aggregates);
        group_function(&mut r, entry);
        proof {
            done = done + 1;
        }
    }
    r
}

// ── Operators and casts ─────────────────────────────────────────────────────

/// A row of `pg_operator`.
#[derive(Debug)]
pub struct OperatorRow {
    pub name: String,
    pub left: u32,
    pub right: u32,
    pub result: u32,
}

/// An operator of the schema. A prefix operator has no left type.
#[derive(Debug)]
pub struct OperatorEntry {
    pub name: String,
    pub left_type_oid: Option<u32>,
    pub right_type_oid: u32,
    pub result_type_oid: u32,
}

#[verifier::ext_equal]
pub struct OperatorEntryView {
    pub name: Seq<char>,
    pub left_type_oid: Option<u32>,
    pub right_type_oid: u32,
    pub result_type_oid: u32,
}

impl View for OperatorEntry {
    type V = OperatorEntryView;

    open spec fn view(&self) -> OperatorEntryView {
        OperatorEntryView {
            name: self.name@,
            left_type_oid: self.left_type_oid,
            right_type_oid: self.right_type_oid,
            result_type_oid: self.result_type_oid,
        }
    }
}

/// The operator of a row.
pub open spec fn operator_entry(row: OperatorRow) -> OperatorEntryView {
    OperatorEntryView {
        name: row.name@,
        left_type_oid: if row.left == 0 {
            None
        } else {
            Some(row.left)
        },
        right_type_oid: row.right,
        result_type_oid: row.result,
    }
}

/// The operator of a row.
pub fn export_operator(row: OperatorRow) -> (r: OperatorEntry)
    ensures
        r@ == operator_entry(row),
{
    OperatorEntry {
        name: row.name,
        left_type_oid: if row.left == 0 {
            None
        } else {
            Some(row.left)
        },
        right_type_oid: row.right,
        result_type_oid: row.result,
    }
}

/// Operators with the same name.
#[derive(Debug)]
pub struct OperatorGroup {
    pub name: String,
    pub operators: Vec<OperatorEntry>,
}

#[verifier::ext_equal]
pub struct OperatorGroupView {
    pub name: Seq<char>,
    pub operators: Seq<OperatorEntryView>,
}

/// The values of a list of operators.
pub open spec fn operator_views(v: Seq<OperatorEntry>) -> Seq<OperatorEntryView> {
    v.map_values(|o: OperatorEntry| o@)
}

/// The values of a list of groups.
pub open spec fn operator_group_views(v: Seq<OperatorGroup>) -> Seq<OperatorGroupView> {
    v.map_values(|g: OperatorGroup| g@)
}

impl View for OperatorGroup {
    type V = OperatorGroupView;

    open spec fn view(&self) -> OperatorGroupView {
        OperatorGroupView { name: self.name@, operators: operator_views(self.operators@) }
    }
}

/// The position of the first group with this name, or the number of groups.
pub open spec fn operator_group_position(
    groups: Seq<OperatorGroupView>,
    name: Seq<char>,
    i: int,
) -> int
    decreases groups.len() - i,
{
    if i >= groups.len() {
        groups.len() as int
    } else if groups[i].name == name {
        i
    } else {
        operator_group_position(groups, name, i + 1)
    }
}

/// The groups with one more operator, behind the others of its name.
pub open spec fn operator_grouped(groups: Seq<OperatorGroupView>, f: OperatorEntryView) -> Seq<
    OperatorGroupView,
> {
    let i = operator_group_position(groups, f.name, 0);
    if i < groups.len() {
        groups.update(
            i,
            OperatorGroupView { name: groups[i].name, operators: groups[i].operators.push(f) },
        )
    } else {
        groups.push(OperatorGroupView { name: f.name, operators: seq![f] })
    }
}

fn find_operator_group(groups: &Vec<OperatorGroup>, name: &str) -> (r: usize)
    ensures
        r as int == operator_group_position(operator_group_views(groups@), name@, 0),
        r <= groups@.len(),
{
    let mut i: usize = 0;
    while i < groups.len()
        invariant
            i <= groups@.len(),
            operator_group_position(operator_group_views(groups@), name@, 0) == operator_group_position(
                operator_group_views(groups@),
                name@,
                i as int,
            ),
        decreases groups.len() - i,
    {
        if same_text(&groups[i].name, name) {
            return i;
        }
        i = i + 1;
    }
    i
}

fn group_operator(groups: &mut Vec<OperatorGroup>, f: OperatorEntry)
    ensures
        operator_group_views(final(groups)@) == operator_grouped(operator_group_views(old(groups)@), f@),
{
    let ghost before = operator_group_views(groups@);
    let ghost value = f@;
    let i: usize = find_operator_group(groups, &f.name);
    if i < groups.len() {
        let mut group: OperatorGroup = groups.remove(i);
        let ghost operators = operator_views(group.operators@);
        group.operators.push(f);
        proof {
            assert(operator_views(group.operators@) =~= operators.push(value));
        }
        groups.insert(i, group);
        proof {
            assert(operator_group_views(groups@) =~= operator_grouped(before, value));
        }
    } else {
        let name: String = f.name.as_str().to_owned();
        let mut operators: Vec<OperatorEntry> = Vec::new();
        operators.push(f);
        proof {
            assert(operator_views(operators@) =~= seq![value]);
        }
        groups.push(OperatorGroup { name, operators });
        proof {
            assert(operator_group_views(groups@) =~= operator_grouped(before, value));
        }
    }
}

/// The operators of the first `n` rows, by name.
pub open spec fn operators_in(rows: Seq<OperatorRow>, n: int) -> Seq<OperatorGroupView>
    decreases n,
{
    if n <= 0 {
        Seq::empty()
    } else {
        operator_grouped(operators_in(rows, n - 1), operator_entry(rows[n - 1]))
    }
}

/// The operators of the schema, by name.
pub fn export_operators(rows: Vec<OperatorRow>) -> (r: Vec<OperatorGroup>)
    ensures
        operator_group_views(r@) == operators_in(rows@, rows@.len() as int),
{
    let ghost all = rows@;
    let mut rest: Vec<OperatorRow> = rows;
    let mut r: Vec<OperatorGroup> = Vec::new();
    let ghost mut done: int = 0;
    proof {
        assert(operator_group_views(r@) =~= Seq::empty());
    }
    while rest.len() > 0
        invariant
            0 <= done <= all.len(),
            rest@ == all.skip(done),
            operator_group_views(r@) == operators_in(all, done),
        decreases rest.len(),
    {
        let row: OperatorRow = rest.remove(0);
        proof {
            assert(row == all[done]);
            assert(rest@ =~= all.skip(done + 1));
        }
        let entry: OperatorEntry = export_operator(row);
        group_operator(&mut r, entry);
        proof {
            done = done + 1;
        }
    }
    r
}

/// Where a cast is applied, by the letter in its row: `i` for an implicit cast, `a`
/// for one on assignment.
pub open spec fn cast_context(letter: i8) -> CastContext {
    if letter == 105 {
        CastContext::Implicit
    } else if letter == 97 {
        CastContext::Assignment
    } else {
        CastContext::Explicit
    }
}

/// Where a cast is applied.
pub fn export_cast_context(letter: i8) -> (r: CastContext)
    ensures
        r == cast_context(letter),
{
    if letter == 105 {
        CastContext::Implicit
    } else if letter == 97 {
        CastContext::Assignment
    } else {
        CastContext::Explicit
    }
}

/// The name under which the cast between two types is kept.
pub fn cast_key(source: u32, target: u32) -> (r: String)
    ensures
        r@ == decimal_text(source as nat) + ":"@ + decimal_text(target as nat),
{
    concat3(&decimal(source as u64), ":", &decimal(target as u64))
}

/// A row of `pg_cast`.
#[derive(Debug, Clone, Copy)]
pub struct CastRow {
    pub source: u32,
    pub target: u32,
    pub context: i8,
}

/// A cast of the schema, under the name of its two types.
#[derive(Debug)]
pub struct CastEntry {
    pub key: String,
    pub context: CastContext,
}

/// The casts of the schema, in the order of their rows.
pub fn export_casts(rows: &Vec<CastRow>) -> (r: Vec<CastEntry>)
    ensures
        r@.len() == rows@.len(),
        forall|i: int|
            0 <= i < rows@.len() ==> (#[trigger] r@[i]).key@ == decimal_text(rows@[i].source as nat)
                + ":"@ + decimal_text(rows@[i].target as nat) && r@[i].context == cast_context(
                rows@[i].context,
            ),
{
    let mut r: Vec<CastEntry> = Vec::new();
    let mut i: usize = 0;
    while i < rows.len()
        invariant
            i <= rows@.len(),
            r@.len() == i,
            forall|k: int|
                0 <= k < i ==> (#[trigger] r@[k]).key@ == decimal_text(rows@[k].source as nat)
                    + ":"@ + decimal_text(rows@[k].target as nat) && r@[k].context == cast_context(
                    rows@[k].context,
                ),
        decreases rows.len() - i,
    {
        let row: CastRow = rows[i];
        r.push(
            CastEntry {
                key: cast_key(row.source, row.target),
                context: export_cast_context(row.context),
            },
        );
        i = i + 1;
    }
    r
}

// ── The schema ──────────────────────────────────────────────────────────────

/// The rows that the server gives of its catalog, and its setting `search_path`.
#[derive(Debug)]
pub struct CatalogRows {
    pub search_path: String,
    pub types: Vec<TypeRow>,
    pub labels: Vec<LabelRow>,
    pub fields: Vec<FieldRow>,
    pub tables: Vec<TableRow>,
    pub columns: Vec<ColumnRow>,
    pub functions: Vec<FunctionRow>,
    pub aggregates: Vec<AggregateRow>,
    pub operators: Vec<OperatorRow>,
    pub casts: Vec<CastRow>,
}

/// A schema: its types, relations, functions, operators and casts, and the schemas
/// that are searched.
#[derive(Debug)]
pub struct SchemaSnapshot {
    pub types: Vec<TypeEntry>,
    pub tables: Vec<TableEntry>,
    pub functions: Vec<FunctionGroup>,
    pub operators: Vec<OperatorGroup>,
    pub casts: Vec<CastEntry>,
    pub search_path: Vec<String>,
}

/// A name with its schema in front of it.
pub open spec fn qualified_name(schema: Seq<char>, name: Seq<char>) -> Seq<char> {
    schema + "."@ + name
}

/// The last of some types that has this qualified name.
pub open spec fn last_type_named(types: Seq<TypeEntry>, key: Seq<char>) -> Option<u32>
    decreases types.len(),
{
    if types.len() == 0 {
        None
    } else if qualified_name(types.last().schema@, types.last().name@) == key {
        Some(types.last().oid)
    } else {
        last_type_named(types.drop_last(), key)
    }
}

/// The last of some relations that has this qualified name.
pub open spec fn last_table_named(tables: Seq<TableEntry>, key: Seq<char>) -> Option<u32>
    decreases tables.len(),
{
    if tables.len() == 0 {
        None
    } else if qualified_name(tables.last().schema@, tables.last().name@) == key {
        Some(tables.last().oid)
    } else {
        last_table_named(tables.drop_last(), key)
    }
}

impl TypeEntry {
    /// The name of the type with its schema in front of it.
    pub fn qualified_name(&self) -> (r: String)
        ensures
            r@ == qualified_name(self.schema@, self.name@),
    {
        concat3(self.schema.as_str(), ".", self.name.as_str())
    }
}

impl TableEntry {
    /// The name of the relation with its schema in front of it.
    pub fn qualified_name(&self) -> (r: String)
        ensures
            r@ == qualified_name(self.schema@, self.name@),
    {
        concat3(self.schema.as_str(), ".", self.name.as_str())
    }
}

impl SchemaSnapshot {
    /// The type with this qualified name; of several the last.
    pub fn type_by_name(&self, key: &str) -> (r: Option<u32>)
        ensures
            r == last_type_named(self.types@, key@),
    {
        let mut i: usize = self.types.len();
        proof {
            assert(self.types@.take(i as int) =~= self.types@);
        }
        while i > 0
            invariant
                i <= self.types@.len(),
                last_type_named(self.types@, key@) == last_type_named(
                    self.types@.take(i as int),
                    key@,
                ),
            decreases i,
        {
            proof {
                assert(self.types@.take(i as int).drop_last() =~= self.types@.take(i - 1));
            }
            if same_text(self.types[i - 1].qualified_name().as_str(), key) {
                return Some(self.types[i - 1].oid);
            }
            i = i - 1;
        }
        None
    }

    /// The relation with this qualified name; of several the last.
    pub fn table_by_name(&self, key: &str) -> (r: Option<u32>)
        ensures
            r == last_table_named(self.tables@, key@),
    {
        let mut i: usize = self.tables.len();
        proof {
            assert(self.tables@.take(i as int) =~= self.tables@);
        }
        while i > 0
            invariant
                i <= self.tables@.len(),
                last_table_named(self.tables@, key@) == last_table_named(
                    self.tables@.take(i as int),
                    key@,
                ),
            decreases i,
        {
            proof {
                assert(self.tables@.take(i as int).drop_last() =~= self.tables@.take(i - 1));
            }
            if same_text(self.tables[i - 1].qualified_name().as_str(), key) {
                return Some(self.tables[i - 1].oid);
            }
            i = i - 1;
        }
        None
    }
}

/// The schema that the rows of a catalog make.
pub fn export_schema(rows: CatalogRows) -> (r: SchemaSnapshot)
    ensures
        text_list(r.search_path@) == path_from(rows.search_path@, 0, 0, Seq::empty()),
        r.types@.len() == rows.types@.len(),
        forall|i: int|
            0 <= i < rows.types@.len() ==> (#[trigger] r.types@[i])@ == type_entry(
                rows.types@[i],
                rows.labels@,
                rows.fields@,
            ),
        table_views(r.tables@) == tables_in(
            rows.tables@,
            rows.columns@,
            rows.tables@.len() as int,
        ),
        group_views(r.functions@) == functions_in(
            rows.functions@,
            rows.aggregates@,
            rows.functions@.len() as int,
        ),
        operator_group_views(r.operators@) == operators_in(
            rows.operators@,
            rows.operators@.len() as int,
        ),
        r.casts@.len() == rows.casts@.len(),
        forall|i: int|
            0 <= i < rows.casts@.len() ==> (#[trigger] r.casts@[i]).key@ == decimal_text(
                rows.casts@[i].source as nat,
            ) + ":"@ + decimal_text(rows.casts@[i].target as nat) && r.casts@[i].context
                == cast_context(rows.casts@[i].context),
{
    let search_path: Vec<String> = parse_search_path(&rows.search_path);
    let types: Vec<TypeEntry> = export_types(rows.types, &rows.labels, &rows.fields);
    let tables: Vec<TableEntry> = export_tables(rows.tables, &rows.columns);
    let functions: Vec<FunctionGroup> = export_functions(rows.functions, &rows.aggregates);
    let operators: Vec<OperatorGroup> = export_operators(rows.operators);
    let casts: Vec<CastEntry> = export_casts(&rows.casts);
    SchemaSnapshot { types, tables, functions, operators, casts, search_path }
}

// ── Laws ────────────────────────────────────────────────────────────────────

proof fn lemma_group_position(groups: Seq<FunctionGroupView>, name: Seq<char>, i: int)
    requires
        0 <= i <= groups.len(),
    ensures
        i <= group_position(groups, name, i) <= groups.len(),
        group_position(groups, name, i) < groups.len() ==> groups[group_position(
            groups,
            name,
            i,
        )].name == name,
        forall|k: int|
            i <= k < group_position(groups, name, i) ==> (#[trigger] groups[k]).name != name,
    decreases groups.len() - i,
{
    if i < groups.len() && groups[i].name != name {
        lemma_group_position(groups, name, i + 1);
    }
}

/// Whether the groups hold functions of their names only, and no name has two groups.
pub open spec fn well_grouped(groups: Seq<FunctionGroupView>) -> bool {
    &&& forall|i: int, k: int|
        0 <= i < groups.len() && 0 <= k < groups[i].functions.len() ==> (
        #[trigger] groups[i].functions[k]).name == groups[i].name
    &&& forall|i: int, j: int|
        0 <= i < j < groups.len() ==> (#[trigger] groups[i]).name != (#[trigger] groups[j]).name
}

/// The functions of a schema stand in one group for each name, with the functions of
/// that name only.
pub proof fn law_functions_are_grouped(
    rows: Seq<FunctionRow>,
    aggregates: Seq<AggregateRow>,
    n: int,
)
    ensures
        well_grouped(functions_in(rows, aggregates, n)),
    decreases n,
{
    if n > 0 {
        law_functions_are_grouped(rows, aggregates, n - 1);
        let before = functions_in(rows, aggregates, n - 1);
        let f = function_entry(rows[n - 1], aggregates);
        lemma_group_position(before, f.name, 0);
        let p = group_position(before, f.name, 0);
        let after = functions_in(rows, aggregates, n);
        assert forall|i: int, k: int|
            0 <= i < after.len() && 0 <= k < after[i].functions.len() implies (
        #[trigger] after[i].functions[k]).name == after[i].name by {
            if i < before.len() && k < before[i].functions.len() {
                assert(before[i].functions[k].name == before[i].name);
            }
        }
        assert forall|i: int, j: int| 0 <= i < j < after.len() implies (#[trigger] after[i]).name
            != (#[trigger] after[j]).name by {
            if j < before.len() {
                assert(before[i].name != before[j].name);
            }
        }
    }
}

} // verus!

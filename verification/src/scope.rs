//! The relations and columns that an expression can name.

use crate::error::{AnalyzeError, AnalyzeErrorView};
use crate::expr_type::{opt_field_views, RecordField, RecordFieldView};
use crate::lookup::opt_str;
use crate::pg_catalog::{attr_views, PgAttribute, PgAttributeView};
use crate::text::{concat3, same_text};
use vstd::prelude::*;

verus! {

/// A column that is in scope.
#[derive(Debug)]
pub struct ScopeColumn {
    pub table_alias: String,
    pub name: String,
    pub type_oid: u32,
    pub base_not_null: bool,
    /// The fields of the column where it is a record whose fields are known.
    pub record_fields: Option<Vec<RecordField>>,
}

/// A relation with its schema.
#[derive(Debug)]
pub struct QualifiedName {
    pub schema: String,
    pub name: String,
}

/// A source of columns: a relation, or a query under an alias.
#[derive(Debug)]
pub struct TableSource {
    pub alias: String,
    /// The relation behind the source; `None` for a query.
    pub source_qn: Option<QualifiedName>,
    pub columns: Vec<ScopeColumn>,
}

/// The sources that are in scope.
#[derive(Debug)]
pub struct Scope {
    pub sources: Vec<TableSource>,
}

#[verifier::ext_equal]
pub struct ScopeColumnView {
    pub table_alias: Seq<char>,
    pub name: Seq<char>,
    pub type_oid: u32,
    pub base_not_null: bool,
    pub record_fields: Option<Seq<RecordFieldView>>,
}

impl View for ScopeColumn {
    type V = ScopeColumnView;

    open spec fn view(&self) -> ScopeColumnView {
        ScopeColumnView {
            table_alias: self.table_alias@,
            name: self.name@,
            type_oid: self.type_oid,
            base_not_null: self.base_not_null,
            record_fields: opt_field_views(self.record_fields),
        }
    }
}

#[verifier::ext_equal]
pub struct QualifiedNameView {
    pub schema: Seq<char>,
    pub name: Seq<char>,
}

impl View for QualifiedName {
    type V = QualifiedNameView;

    open spec fn view(&self) -> QualifiedNameView {
        QualifiedNameView { schema: self.schema@, name: self.name@ }
    }
}

#[verifier::ext_equal]
pub struct SourceView {
    pub alias: Seq<char>,
    pub source_qn: Option<QualifiedNameView>,
    pub columns: Seq<ScopeColumnView>,
}

/// The views of several columns.
pub open spec fn column_views(columns: Seq<ScopeColumn>) -> Seq<ScopeColumnView> {
    columns.map_values(|c: ScopeColumn| c@)
}

impl View for TableSource {
    type V = SourceView;

    open spec fn view(&self) -> SourceView {
        SourceView {
            alias: self.alias@,
            source_qn: match self.source_qn {
                Some(q) => Some(q@),
                None => None,
            },
            columns: column_views(self.columns@),
        }
    }
}

impl View for Scope {
    type V = Seq<SourceView>;

    open spec fn view(&self) -> Seq<SourceView> {
        self.sources@.map_values(|s: TableSource| s@)
    }
}

/// The first source with this alias.
pub open spec fn source_named(sources: Seq<SourceView>, alias: Seq<char>) -> Option<SourceView>
    decreases sources.len(),
{
    if sources.len() == 0 {
        None
    } else if sources[0].alias == alias {
        Some(sources[0])
    } else {
        source_named(sources.drop_first(), alias)
    }
}

/// The first column of this name.
pub open spec fn column_named(columns: Seq<ScopeColumnView>, name: Seq<char>) -> Option<
    ScopeColumnView,
>
    decreases columns.len(),
{
    if columns.len() == 0 {
        None
    } else if columns[0].name == name {
        Some(columns[0])
    } else {
        column_named(columns.drop_first(), name)
    }
}

/// The columns of this name, at most one from each source.
pub open spec fn columns_named(sources: Seq<SourceView>, name: Seq<char>) -> Seq<ScopeColumnView>
    decreases sources.len(),
{
    if sources.len() == 0 {
        Seq::empty()
    } else {
        let rest = columns_named(sources.drop_last(), name);
        match column_named(sources.last().columns, name) {
            Some(c) => rest.push(c),
            None => rest,
        }
    }
}

/// The column that a reference names: that of the source with the alias, or the
/// only one of its name among all sources.
pub open spec fn resolved_column(
    sources: Seq<SourceView>,
    table: Option<Seq<char>>,
    column: Seq<char>,
) -> Result<ScopeColumnView, AnalyzeErrorView> {
    match table {
        Some(t) => match source_named(sources, t) {
            Some(s) => match column_named(s.columns, column) {
                Some(c) => Ok(c),
                None => Err(
                    AnalyzeErrorView::UndefinedColumn(
                        "column "@ + t + "."@ + column + " does not exist"@,
                    ),
                ),
            },
            None => Err(
                AnalyzeErrorView::UndefinedTable(
                    "missing FROM-clause entry for table \""@ + t + "\""@,
                ),
            ),
        },
        None => {
            let found = columns_named(sources, column);
            if found.len() == 1 {
                Ok(found[0])
            } else if found.len() == 0 {
                Err(
                    AnalyzeErrorView::UndefinedColumn(
                        "column \""@ + column + "\" does not exist"@,
                    ),
                )
            } else {
                Err(
                    AnalyzeErrorView::AmbiguousColumn(
                        "column reference \""@ + column + "\" is ambiguous"@,
                    ),
                )
            }
        },
    }
}

impl Default for Scope {
    fn default() -> (r: Scope)
        ensures
            r@ == Seq::<SourceView>::empty(),
    {
        let r: Scope = Scope { sources: Vec::new() };
        proof {
            assert(r@ =~= Seq::empty());
        }
        r
    }
}

fn find_column<'a>(columns: &'a Vec<ScopeColumn>, name: &str) -> (r: Option<&'a ScopeColumn>)
    ensures
        match r {
            Some(c) => column_named(column_views(columns@), name@) == Some(c@),
            None => column_named(column_views(columns@), name@) is None,
        },
{
    let ghost views = column_views(columns@);
    let mut i: usize = 0;
    proof {
        assert(views.skip(0) =~= views);
    }
    while i < columns.len()
        invariant
            i <= columns@.len(),
            views == column_views(columns@),
            column_named(views, name@) == column_named(views.skip(i as int), name@),
        decreases columns.len() - i,
    {
        proof {
            assert(views.skip(i as int).drop_first() =~= views.skip(i + 1));
            assert(views.skip(i as int)[0] == columns@[i as int]@);
        }
        if same_text(columns[i].name.as_str(), name) {
            return Some(&columns[i]);
        }
        i = i + 1;
    }
    None
}

/// The column of `alias` that a catalog column stands for.
pub open spec fn attribute_in_scope(alias: Seq<char>, a: PgAttributeView) -> ScopeColumnView {
    ScopeColumnView {
        table_alias: alias,
        name: a.attname,
        type_oid: a.atttypid,
        base_not_null: a.attnotnull,
        record_fields: None,
    }
}

impl Scope {
    /// The first source with this alias.
    pub fn find_source(&self, alias: &str) -> (r: Option<&TableSource>)
        ensures
            match r {
                Some(s) => source_named(self@, alias@) == Some(s@),
                None => source_named(self@, alias@) is None,
            },
    {
        let mut i: usize = 0;
        proof {
            assert(self@.skip(0) =~= self@);
        }
        while i < self.sources.len()
            invariant
                i <= self.sources@.len(),
                source_named(self@, alias@) == source_named(self@.skip(i as int), alias@),
            decreases self.sources.len() - i,
        {
            proof {
                assert(self@.skip(i as int).drop_first() =~= self@.skip(i + 1));
                assert(self@.skip(i as int)[0] == self.sources@[i as int]@);
            }
            if same_text(self.sources[i].alias.as_str(), alias) {
                return Some(&self.sources[i]);
            }
            i = i + 1;
        }
        None
    }

    /// The column that a reference names.
    ///
    /// # Errors
    ///
    /// There is no such source or column, or more than one column of the name.
    pub fn resolve_column(&self, table: Option<&str>, column: &str) -> (r: Result<
        &ScopeColumn,
        AnalyzeError,
    >)
        ensures
            match r {
                Ok(c) => resolved_column(self@, opt_str(table), column@) == Ok::<
                    _,
                    AnalyzeErrorView,
                >(c@),
                Err(e) => resolved_column(self@, opt_str(table), column@) == Err::<
                    ScopeColumnView,
                    _,
                >(e@),
            },
    {
        match table {
            Some(t) => match self.find_source(t) {
                Some(s) => match find_column(&s.columns, column) {
                    Some(c) => Ok(c),
                    None => {
                        let head: String = concat3("column ", t, ".");
                        Err(
                            AnalyzeError::UndefinedColumn(
                                concat3(head.as_str(), column, " does not exist"),
                            ),
                        )
                    },
                },
                None => Err(
                    AnalyzeError::UndefinedTable(
                        concat3("missing FROM-clause entry for table \"", t, "\""),
                    ),
                ),
            },
            None => {
                let mut found: Option<&ScopeColumn> = None;
                let mut many: bool = false;
                let mut i: usize = 0;
                while i < self.sources.len()
                    invariant
                        i <= self.sources@.len(),
                        match found {
                            Some(c) => {
                                let l = columns_named(self@.take(i as int), column@);
                                l.len() > 0 && l[0] == c@ && many == (l.len() > 1)
                            },
                            None => !many && columns_named(
                                self@.take(i as int),
                                column@,
                            ).len() == 0,
                        },
                    decreases self.sources.len() - i,
                {
                    proof {
                        assert(self@.take(i + 1).drop_last() =~= self@.take(i as int));
                        assert(self@[i as int] == self.sources@[i as int]@);
                    }
                    match find_column(&self.sources[i].columns, column) {
                        Some(c) => {
                            if found.is_some() {
                                many = true;
                            } else {
                                found = Some(c);
                            }
                        },
                        None => {},
                    }
                    i = i + 1;
                }
                proof {
                    assert(self@.take(i as int) =~= self@);
                }
                match found {
                    Some(c) => if many {
                        Err(
                            AnalyzeError::AmbiguousColumn(
                                concat3("column reference \"", column, "\" is ambiguous"),
                            ),
                        )
                    } else {
                        Ok(c)
                    },
                    None => Err(
                        AnalyzeError::UndefinedColumn(
                            concat3("column \"", column, "\" does not exist"),
                        ),
                    ),
                }
            },
        }
    }
}

/// The scope of a statement that writes to one relation: its columns, under its
/// own name.
pub open spec fn written_scope(
    schema: Seq<char>,
    relname: Seq<char>,
    attrs: Seq<PgAttributeView>,
) -> Seq<SourceView> {
    seq![
        SourceView {
            alias: relname,
            source_qn: Some(QualifiedNameView { schema, name: relname }),
            columns: attrs.map_values(|a: PgAttributeView| attribute_in_scope(relname, a)),
        },
    ]
}

/// The scope of a statement that writes to one relation.
pub fn relation_scope(schema: &str, relname: &str, attrs: &Vec<PgAttribute>) -> (r: Scope)
    ensures
        r@ == written_scope(schema@, relname@, attr_views(attrs@)),
{
    let mut columns: Vec<ScopeColumn> = Vec::new();
    let ghost wanted = attr_views(attrs@).map_values(
        |a: PgAttributeView| attribute_in_scope(relname@, a),
    );
    let mut i: usize = 0;
    proof {
        assert(column_views(columns@) =~= wanted.take(0));
    }
    while i < attrs.len()
        invariant
            i <= attrs@.len(),
            wanted == attr_views(attrs@).map_values(
                |a: PgAttributeView| attribute_in_scope(relname@, a),
            ),
            column_views(columns@) == wanted.take(i as int),
        decreases attrs.len() - i,
    {
        let a: &PgAttribute = &attrs[i];
        let ghost before = columns@;
        let c: ScopeColumn = ScopeColumn {
            table_alias: relname.to_owned(),
            name: a.attname.clone(),
            type_oid: a.atttypid,
            base_not_null: a.attnotnull,
            record_fields: None,
        };
        columns.push(c);
        proof {
            assert(column_views(columns@) =~= column_views(before).push(c@));
            assert(wanted[i as int] == c@);
            assert(wanted.take(i + 1) =~= wanted.take(i as int).push(wanted[i as int]));
        }
        i = i + 1;
    }
    proof {
        assert(wanted.take(i as int) =~= wanted);
    }
    let mut sources: Vec<TableSource> = Vec::new();
    sources.push(
        TableSource {
            alias: relname.to_owned(),
            source_qn: Some(QualifiedName { schema: schema.to_owned(), name: relname.to_owned() }),
            columns,
        },
    );
    let r: Scope = Scope { sources };
    proof {
        assert(r@ =~= written_scope(schema@, relname@, attr_views(attrs@)));
    }
    r
}

} // verus!

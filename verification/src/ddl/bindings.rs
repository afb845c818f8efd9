//! What the names in a query refer to.
//!
//! A stored query keeps, for each place that holds a name, the object that the
//! name stood for when the query was stored: one binding for each place, in the
//! order of a walk through the tree.

use crate::ast::{
    extract_string_fields, part_names, qualified, ColumnRef, CommonTableExpr, FuncCall, JoinExpr,
    Node, RangeFunction, RangeSubselect, RangeVar, SelectStmt, TypeName, WindowDef,
};
use crate::catalog::{CatalogView, PgCatalog};
use crate::expr::split_name;
use crate::pg_catalog::{attr_views, AstBinding, PgAttribute, PgAttributeView};
use crate::text::{copy_texts, has_text, same_text, texts};
use vstd::prelude::*;

verus! {

// ── Sources in scope ────────────────────────────────────────────────────────

/// A source of a `FROM` clause.
#[derive(Debug, Clone)]
pub struct FromSource {
    pub alias: String,
    /// The relation; none for a query under a name.
    pub relid: Option<u32>,
    /// The names of the columns, as far as they are known.
    pub columns: Vec<String>,
}

#[verifier::ext_equal]
pub struct FromSourceView {
    pub alias: Seq<char>,
    pub relid: Option<u32>,
    pub columns: Seq<Seq<char>>,
}

impl View for FromSource {
    type V = FromSourceView;

    open spec fn view(&self) -> FromSourceView {
        FromSourceView { alias: self.alias@, relid: self.relid, columns: texts(self.columns@) }
    }
}

/// The sources of one query.
pub type Frame = Seq<FromSourceView>;

/// The sources of one query, as values.
pub open spec fn frame_view(f: Seq<FromSource>) -> Frame {
    f.map_values(|s: FromSource| s@)
}

/// The sources of a query and of those around it, the outermost first.
pub open spec fn stack_view(st: Seq<Vec<FromSource>>) -> Seq<Frame> {
    st.map_values(|f: Vec<FromSource>| frame_view(f@))
}

/// A source that is no relation and whose columns are not known.
pub open spec fn local_source(alias: Seq<char>) -> FromSourceView {
    FromSourceView { alias, relid: None, columns: Seq::empty() }
}

/// The names of columns.
pub open spec fn attribute_names(attrs: Seq<PgAttributeView>) -> Seq<Seq<char>> {
    attrs.map_values(|a: PgAttributeView| a.attname)
}

/// Whether a frame has a query under this name.
pub open spec fn frame_has_local(f: Frame, name: Seq<char>) -> bool {
    exists|i: int| 0 <= i < f.len() && (#[trigger] f[i]).relid is None && f[i].alias == name
}

/// Whether a query under this name is in scope.
pub open spec fn has_local(st: Seq<Frame>, f: Frame, name: Seq<char>) -> bool {
    frame_has_local(f, name) || exists|i: int|
        0 <= i < st.len() && frame_has_local(#[trigger] st[i], name)
}

// ── Columns ─────────────────────────────────────────────────────────────────

/// The binding for a column of a source: none where the source is no relation or
/// has no such column.
pub open spec fn column_of(
    c: CatalogView,
    relid: Option<u32>,
    col: Seq<char>,
) -> Option<(u32, i16)> {
    match relid {
        Some(r) => match c.attribute_by_name(r, col) {
            Some(a) => Some((r, a.attnum)),
            None => None,
        },
        None => None,
    }
}

/// The sources of a frame that have a column of this name.
pub open spec fn holders(f: Frame, col: Seq<char>) -> Frame {
    f.filter(|s: FromSourceView| s.columns.contains(col))
}

/// The column that a bare name stands for: that of the only source with such a
/// column, in the innermost query that has one.
pub open spec fn bare_column(c: CatalogView, st: Seq<Frame>, col: Seq<char>) -> Option<(u32, i16)>
    decreases st.len(),
{
    if st.len() == 0 {
        None
    } else {
        let found = holders(st.last(), col);
        if found.len() == 0 {
            bare_column(c, st.drop_last(), col)
        } else if found.len() == 1 {
            column_of(c, found[0].relid, col)
        } else {
            None
        }
    }
}

/// Whether a source goes by a name: as its alias or as the relation's name.
pub open spec fn goes_by(c: CatalogView, s: FromSourceView, name: Seq<char>) -> bool {
    s.alias == name || match s.relid {
        Some(r) => c.get_class(r) matches Some(k) && k.relname == name,
        None => false,
    }
}

/// The first source of a frame that goes by a name.
pub open spec fn first_called(c: CatalogView, f: Frame, name: Seq<char>) -> Option<FromSourceView>
    decreases f.len(),
{
    if f.len() == 0 {
        None
    } else if goes_by(c, f[0], name) {
        Some(f[0])
    } else {
        first_called(c, f.drop_first(), name)
    }
}

/// The column that `name.col` stands for.
pub open spec fn aliased_column(
    c: CatalogView,
    st: Seq<Frame>,
    name: Seq<char>,
    col: Seq<char>,
) -> Option<(u32, i16)>
    decreases st.len(),
{
    if st.len() == 0 {
        None
    } else {
        match first_called(c, st.last(), name) {
            Some(s) => column_of(c, s.relid, col),
            None => aliased_column(c, st.drop_last(), name, col),
        }
    }
}

/// Whether a relation is the one of this name in this schema.
pub open spec fn is_relation(
    c: CatalogView,
    relid: u32,
    schema: Seq<char>,
    name: Seq<char>,
) -> bool {
    c.get_class(relid) matches Some(k) && c.namespace_name(k.relnamespace) == Some(schema)
        && k.relname == name
}

/// The column of this name of the first source in a frame that is the relation.
pub open spec fn frame_column(
    c: CatalogView,
    f: Frame,
    schema: Seq<char>,
    name: Seq<char>,
    col: Seq<char>,
) -> Option<(u32, i16)>
    decreases f.len(),
{
    if f.len() == 0 {
        None
    } else {
        let here = match f[0].relid {
            Some(r) => if is_relation(c, r, schema, name) {
                column_of(c, Some(r), col)
            } else {
                None
            },
            None => None,
        };
        match here {
            Some(p) => Some(p),
            None => frame_column(c, f.drop_first(), schema, name, col),
        }
    }
}

/// The column that `schema.name.col` stands for.
pub open spec fn qualified_column(
    c: CatalogView,
    st: Seq<Frame>,
    schema: Seq<char>,
    name: Seq<char>,
    col: Seq<char>,
) -> Option<(u32, i16)>
    decreases st.len(),
{
    if st.len() == 0 {
        None
    } else {
        match frame_column(c, st.last(), schema, name, col) {
            Some(p) => Some(p),
            None => qualified_column(c, st.drop_last(), schema, name, col),
        }
    }
}

/// The binding of a column reference.
pub open spec fn column_binding(
    c: CatalogView,
    st: Seq<Frame>,
    parts: Seq<Seq<char>>,
) -> AstBinding {
    let found = if parts.len() == 1 {
        bare_column(c, st, parts[0])
    } else if parts.len() == 2 {
        aliased_column(c, st, parts[0], parts[1])
    } else if parts.len() == 3 {
        qualified_column(c, st, parts[0], parts[1], parts[2])
    } else {
        None
    };
    match found {
        Some((relid, attnum)) => AstBinding::Column(relid, attnum),
        None => AstBinding::Unresolved,
    }
}

/// The binding of a function name: the first function of that name.
pub open spec fn function_binding(c: CatalogView, parts: Seq<Seq<char>>) -> AstBinding {
    match qualified(parts) {
        Some((schema, name)) => {
            let found = c.find_functions(schema, name);
            if found.len() > 0 {
                AstBinding::Function(found[0])
            } else {
                AstBinding::Unresolved
            }
        },
        None => AstBinding::Unresolved,
    }
}

/// The binding of a type name.
pub open spec fn type_binding(c: CatalogView, parts: Seq<Seq<char>>) -> AstBinding {
    match qualified(parts) {
        Some((schema, name)) => match c.resolve_type(schema, name) {
            Some(oid) => AstBinding::Type(oid),
            None => AstBinding::Unresolved,
        },
        None => AstBinding::Unresolved,
    }
}

/// The alias of a relation in a `FROM` clause.
pub open spec fn range_alias(rv: RangeVar) -> Seq<char> {
    match rv.alias {
        Some(a) => a@,
        None => rv.relname@,
    }
}

/// The relation that a `FROM` clause names: none where a query of that name is in
/// scope, or there is no such relation.
pub open spec fn range_relation(
    c: CatalogView,
    st: Seq<Frame>,
    f: Frame,
    rv: RangeVar,
) -> Option<u32> {
    if rv.schemaname@.len() == 0 {
        if has_local(st, f, rv.relname@) {
            None
        } else {
            c.resolve_table(None, rv.relname@)
        }
    } else {
        c.resolve_table(Some(rv.schemaname@), rv.relname@)
    }
}

// ── The walk ────────────────────────────────────────────────────────────────

/// The bindings of the names in a tree.
pub open spec fn bindings_in(n: Node, c: CatalogView, st: Seq<Frame>) -> Seq<AstBinding>
    decreases n, 0nat, 0int,
{
    match n {
        Node::SelectStmt(sel) => select_bindings(*sel, c, st),
        Node::ColumnRef(cr) => seq![column_binding(c, st, part_names(cr.fields@))],
        Node::AExpr(e) => opt_bindings(e.lexpr, c, st) + opt_bindings(e.rexpr, c, st),
        Node::BoolExpr(args) => list_bindings(args@, 0, c, st),
        Node::FuncCall(fc) => seq![function_binding(c, texts(fc.funcname@))] + list_bindings(
            fc.args@,
            0,
            c,
            st,
        ) + window_bindings(fc.over, c, st) + opt_bindings(fc.agg_filter, c, st),
        Node::TypeCast(t) => opt_bindings(t.arg, c, st) + match t.target {
            Some(tn) => seq![type_binding(c, texts(tn.names@))],
            None => Seq::empty(),
        },
        Node::CollateClause(arg) => opt_bindings(arg, c, st),
        Node::CoalesceExpr(args) => list_bindings(args@, 0, c, st),
        Node::MinMaxExpr(m) => list_bindings(m.args@, 0, c, st),
        Node::NullIfExpr(args) => list_bindings(args@, 0, c, st),
        Node::CaseExpr(e) => opt_bindings(e.arg, c, st) + list_bindings(e.args@, 0, c, st)
            + opt_bindings(e.defresult, c, st),
        Node::CaseWhen(w) => opt_bindings(w.expr, c, st) + opt_bindings(w.result, c, st),
        Node::SubLink(s) => opt_bindings(s.testexpr, c, st) + opt_bindings(s.subselect, c, st),
        Node::NullTest(arg) => opt_bindings(arg, c, st),
        Node::BooleanTest(arg) => opt_bindings(arg, c, st),
        Node::List(items) => list_bindings(items@, 0, c, st),
        Node::ArrayExpr(elements) => list_bindings(elements@, 0, c, st),
        Node::RowExpr(args) => list_bindings(args@, 0, c, st),
        Node::ResTarget(val) => opt_bindings(val, c, st),
        Node::SortBy(node) => opt_bindings(node, c, st),
        _ => Seq::empty(),
    }
}

pub open spec fn opt_bindings(
    n: Option<Box<Node>>,
    c: CatalogView,
    st: Seq<Frame>,
) -> Seq<AstBinding>
    decreases n, 0nat, 0int,
{
    match n {
        Some(b) => bindings_in(*b, c, st),
        None => Seq::empty(),
    }
}

pub open spec fn list_bindings(nodes: Seq<Node>, i: int, c: CatalogView, st: Seq<Frame>) -> Seq<
    AstBinding,
>
    decreases nodes, 0nat, nodes.len() - i,
{
    if i < 0 || i >= nodes.len() {
        Seq::empty()
    } else {
        bindings_in(nodes[i], c, st) + list_bindings(nodes, i + 1, c, st)
    }
}

pub open spec fn window_bindings(w: Option<Box<WindowDef>>, c: CatalogView, st: Seq<Frame>) -> Seq<
    AstBinding,
>
    decreases w, 0nat, 0int,
{
    match w {
        Some(d) => list_bindings(d.partition_clause@, 0, c, st) + list_bindings(
            d.order_clause@,
            0,
            c,
            st,
        ),
        None => Seq::empty(),
    }
}

pub open spec fn opt_select_bindings(
    s: Option<Box<SelectStmt>>,
    c: CatalogView,
    st: Seq<Frame>,
) -> Seq<
    AstBinding,
>
    decreases s, 0nat, 0int,
{
    match s {
        Some(b) => select_bindings(*b, c, st),
        None => Seq::empty(),
    }
}

/// The bindings of a query: of the queries that it combines, of its common table
/// expressions, of its `FROM` clause, and then of its other clauses, with the
/// sources in scope.
pub open spec fn select_bindings(sel: SelectStmt, c: CatalogView, st: Seq<Frame>) -> Seq<AstBinding>
    decreases sel, 1nat, 0int,
{
    let (b1, f1) = cte_bindings(sel.ctes@, 0, c, st, Seq::empty());
    let (b2, f2) = from_bindings(sel.from_clause@, 0, c, st, f1);
    opt_select_bindings(sel.larg, c, st) + opt_select_bindings(sel.rarg, c, st) + b1 + b2
        + clause_bindings(sel, c, st.push(f2))
}

/// The bindings of the clauses of a query that see its sources.
pub open spec fn clause_bindings(sel: SelectStmt, c: CatalogView, st: Seq<Frame>) -> Seq<AstBinding>
    decreases sel, 0nat, 0int,
{
    list_bindings(sel.target_list@, 0, c, st) + opt_bindings(sel.where_clause, c, st)
        + list_bindings(sel.group_clause@, 0, c, st) + opt_bindings(sel.having_clause, c, st)
        + list_bindings(sel.sort_clause@, 0, c, st) + list_bindings(sel.distinct_clause@, 0, c, st)
}

/// The bindings of the common table expressions from `i` on, and the frame with
/// them. Each sees those before it.
pub open spec fn cte_bindings(
    nodes: Seq<Node>,
    i: int,
    c: CatalogView,
    st: Seq<Frame>,
    f: Frame,
) -> (Seq<AstBinding>, Frame)
    decreases nodes, 0nat, nodes.len() - i,
{
    if i < 0 || i >= nodes.len() {
        (Seq::empty(), f)
    } else {
        match nodes[i] {
            Node::CommonTableExpr(cte) => {
                let here = opt_bindings(cte.ctequery, c, st.push(f));
                let source = FromSourceView {
                    alias: cte.ctename@,
                    relid: None,
                    columns: texts(cte.aliascolnames@),
                };
                let (rest, last) = cte_bindings(nodes, i + 1, c, st, f.push(source));
                (here + rest, last)
            },
            _ => cte_bindings(nodes, i + 1, c, st, f),
        }
    }
}

/// The bindings of the items of a `FROM` clause from `i` on, and the frame with
/// them.
pub open spec fn from_bindings(
    nodes: Seq<Node>,
    i: int,
    c: CatalogView,
    st: Seq<Frame>,
    f: Frame,
) -> (Seq<AstBinding>, Frame)
    decreases nodes, 0nat, nodes.len() - i,
{
    if i < 0 || i >= nodes.len() {
        (Seq::empty(), f)
    } else {
        let (here, next) = item_bindings(nodes[i], c, st, f);
        let (rest, last) = from_bindings(nodes, i + 1, c, st, next);
        (here + rest, last)
    }
}

/// The bindings of an item of a `FROM` clause, and the frame with its sources.
pub open spec fn item_bindings(n: Node, c: CatalogView, st: Seq<Frame>, f: Frame) -> (
    Seq<AstBinding>,
    Frame,
)
    decreases n, 0nat, 0int,
{
    match n {
        Node::RangeVar(rv) => match range_relation(c, st, f, rv) {
            Some(relid) => (
                seq![AstBinding::Relation(relid)],
                f.push(
                    FromSourceView {
                        alias: range_alias(rv),
                        relid: Some(relid),
                        columns: attribute_names(c.attributes_of(relid)),
                    },
                ),
            ),
            None => (seq![AstBinding::Unresolved], f.push(local_source(range_alias(rv)))),
        },
        Node::JoinExpr(j) => {
            let (b1, f1) = opt_item_bindings(j.larg, c, st, f);
            let (b2, f2) = opt_item_bindings(j.rarg, c, st, f1);
            (b1 + b2 + opt_bindings(j.quals, c, st.push(f2)), f2)
        },
        Node::RangeSubselect(s) => (
            opt_bindings(s.subquery, c, st),
            f.push(
                local_source(
                    match s.alias {
                        Some(a) => a@,
                        None => "_subquery"@,
                    },
                ),
            ),
        ),
        Node::RangeFunction(r) => (
            list_bindings(r.functions@, 0, c, st),
            f.push(
                local_source(
                    match r.alias {
                        Some(a) => a@,
                        None => "_srf"@,
                    },
                ),
            ),
        ),
        _ => (Seq::empty(), f),
    }
}

pub open spec fn opt_item_bindings(
    n: Option<Box<Node>>,
    c: CatalogView,
    st: Seq<Frame>,
    f: Frame,
) -> (Seq<AstBinding>, Frame)
    decreases n, 0nat, 0int,
{
    match n {
        Some(b) => item_bindings(*b, c, st, f),
        None => (Seq::empty(), f),
    }
}

// ── Carried out ─────────────────────────────────────────────────────────────

fn frame_has_local_named(f: &Vec<FromSource>, name: &str) -> (r: bool)
    ensures
        r == frame_has_local(frame_view(f@), name@),
{
    let ghost views = frame_view(f@);
    let mut i: usize = 0;
    while i < f.len()
        invariant
            i <= f@.len(),
            views == frame_view(f@),
            forall|k: int|
                0 <= k < i ==> !((#[trigger] views[k]).relid is None && views[k].alias == name@),
        decreases f.len() - i,
    {
        if f[i].relid.is_none() && same_text(f[i].alias.as_str(), name) {
            proof {
                assert(views[i as int].relid is None && views[i as int].alias == name@);
            }
            return true;
        }
        i = i + 1;
    }
    false
}

fn has_local_named(stack: &Vec<Vec<FromSource>>, f: &Vec<FromSource>, name: &str) -> (r: bool)
    ensures
        r == has_local(stack_view(stack@), frame_view(f@), name@),
{
    if frame_has_local_named(f, name) {
        return true;
    }
    let ghost views = stack_view(stack@);
    let mut i: usize = 0;
    while i < stack.len()
        invariant
            i <= stack@.len(),
            views == stack_view(stack@),
            forall|k: int| 0 <= k < i ==> !frame_has_local(#[trigger] views[k], name@),
        decreases stack.len() - i,
    {
        if frame_has_local_named(&stack[i], name) {
            proof {
                assert(frame_has_local(views[i as int], name@));
            }
            return true;
        }
        i = i + 1;
    }
    false
}

fn find_column_of(db: &PgCatalog, relid: Option<u32>, col: &str) -> (r: Option<(u32, i16)>)
    ensures
        r == column_of(db@, relid, col@),
{
    match relid {
        Some(rel) => match db.attribute_by_name(rel, col) {
            Some(a) => Some((rel, a.attnum)),
            None => None,
        },
        None => None,
    }
}

/// The number of sources of a frame that have a column, and the first of them.
fn count_holders(f: &Vec<FromSource>, col: &str) -> (r: (usize, Option<u32>))
    ensures
        r.0 == holders(frame_view(f@), col@).len(),
        r.0 > 0 ==> r.1 == holders(frame_view(f@), col@)[0].relid,
{
    let ghost views = frame_view(f@);
    let mut n: usize = 0;
    let mut first: Option<u32> = None;
    let mut i: usize = 0;
    proof {
        reveal(Seq::filter);
    }
    while i < f.len()
        invariant
            i <= f@.len(),
            n <= i,
            views == frame_view(f@),
            n == holders(views.take(i as int), col@).len(),
            n > 0 ==> first == holders(views.take(i as int), col@)[0].relid,
        decreases f.len() - i,
    {
        proof {
            reveal(Seq::filter);
            assert(views.take(i + 1).drop_last() =~= views.take(i as int));
        }
        if has_text(&f[i].columns, col) {
            if n == 0 {
                first = f[i].relid;
            }
            n = n + 1;
        }
        i = i + 1;
    }
    proof {
        assert(views.take(i as int) =~= views);
    }
    (n, first)
}

fn resolve_column_unqualified(
    db: &PgCatalog,
    stack: &Vec<Vec<FromSource>>,
    col: &str,
) -> (r: Option<
    (u32, i16),
>)
    ensures
        r == bare_column(db@, stack_view(stack@), col@),
{
    let ghost views = stack_view(stack@);
    let mut k: usize = stack.len();
    proof {
        assert(views.take(k as int) =~= views);
    }
    while k > 0
        invariant
            k <= stack@.len(),
            views == stack_view(stack@),
            bare_column(db@, views, col@) == bare_column(db@, views.take(k as int), col@),
        decreases k,
    {
        proof {
            assert(views.take(k as int).drop_last() =~= views.take(k - 1));
            assert(views.take(k as int).last() == frame_view(stack@[k - 1]@));
        }
        let (n, relid): (usize, Option<u32>) = count_holders(&stack[k - 1], col);
        if n == 1 {
            return find_column_of(db, relid, col);
        }
        if n > 1 {
            return None;
        }
        k = k - 1;
    }
    None
}

fn source_goes_by(db: &PgCatalog, s: &FromSource, name: &str) -> (r: bool)
    ensures
        r == goes_by(db@, s@, name@),
{
    if same_text(s.alias.as_str(), name) {
        return true;
    }
    match s.relid {
        Some(rel) => match db.get_class(rel) {
            Some(k) => same_text(k.relname.as_str(), name),
            None => false,
        },
        None => false,
    }
}

fn find_called<'a>(
    db: &PgCatalog,
    f: &'a Vec<FromSource>,
    name: &str,
) -> (r: Option<&'a FromSource>)
    ensures
        match r {
            Some(s) => first_called(db@, frame_view(f@), name@) == Some(s@),
            None => first_called(db@, frame_view(f@), name@) is None,
        },
{
    let ghost views = frame_view(f@);
    let mut i: usize = 0;
    proof {
        assert(views.skip(0) =~= views);
    }
    while i < f.len()
        invariant
            i <= f@.len(),
            views == frame_view(f@),
            first_called(db@, views, name@) == first_called(db@, views.skip(i as int), name@),
        decreases f.len() - i,
    {
        proof {
            assert(views.skip(i as int).drop_first() =~= views.skip(i + 1));
            assert(views.skip(i as int)[0] == f@[i as int]@);
        }
        if source_goes_by(db, &f[i], name) {
            return Some(&f[i]);
        }
        i = i + 1;
    }
    None
}

fn resolve_column_aliased(
    db: &PgCatalog,
    stack: &Vec<Vec<FromSource>>,
    name: &str,
    col: &str,
) -> (r: Option<(u32, i16)>)
    ensures
        r == aliased_column(db@, stack_view(stack@), name@, col@),
{
    let ghost views = stack_view(stack@);
    let mut k: usize = stack.len();
    proof {
        assert(views.take(k as int) =~= views);
    }
    while k > 0
        invariant
            k <= stack@.len(),
            views == stack_view(stack@),
            aliased_column(db@, views, name@, col@) == aliased_column(
                db@,
                views.take(k as int),
                name@,
                col@,
            ),
        decreases k,
    {
        proof {
            assert(views.take(k as int).drop_last() =~= views.take(k - 1));
            assert(views.take(k as int).last() == frame_view(stack@[k - 1]@));
        }
        match find_called(db, &stack[k - 1], name) {
            Some(s) => return find_column_of(db, s.relid, col),
            None => {},
        }
        k = k - 1;
    }
    None
}

fn is_the_relation(db: &PgCatalog, relid: u32, schema: &str, name: &str) -> (r: bool)
    ensures
        r == is_relation(db@, relid, schema@, name@),
{
    match db.get_class(relid) {
        Some(k) => match db.namespace_name(k.relnamespace) {
            Some(s) => same_text(s, schema) && same_text(k.relname.as_str(), name),
            None => false,
        },
        None => false,
    }
}

fn find_frame_column(
    db: &PgCatalog,
    f: &Vec<FromSource>,
    schema: &str,
    name: &str,
    col: &str,
) -> (r: Option<(u32, i16)>)
    ensures
        r == frame_column(db@, frame_view(f@), schema@, name@, col@),
{
    let ghost views = frame_view(f@);
    let mut i: usize = 0;
    proof {
        assert(views.skip(0) =~= views);
    }
    while i < f.len()
        invariant
            i <= f@.len(),
            views == frame_view(f@),
            frame_column(db@, views, schema@, name@, col@) == frame_column(
                db@,
                views.skip(i as int),
                schema@,
                name@,
                col@,
            ),
        decreases f.len() - i,
    {
        proof {
            assert(views.skip(i as int).drop_first() =~= views.skip(i + 1));
            assert(views.skip(i as int)[0] == f@[i as int]@);
        }
        match f[i].relid {
            Some(rel) => {
                if is_the_relation(db, rel, schema, name) {
                    match find_column_of(db, Some(rel), col) {
                        Some(p) => return Some(p),
                        None => {},
                    }
                }
            },
            None => {},
        }
        i = i + 1;
    }
    None
}

fn resolve_column_qualified(
    db: &PgCatalog,
    stack: &Vec<Vec<FromSource>>,
    schema: &str,
    name: &str,
    col: &str,
) -> (r: Option<(u32, i16)>)
    ensures
        r == qualified_column(db@, stack_view(stack@), schema@, name@, col@),
{
    let ghost views = stack_view(stack@);
    let mut k: usize = stack.len();
    proof {
        assert(views.take(k as int) =~= views);
    }
    while k > 0
        invariant
            k <= stack@.len(),
            views == stack_view(stack@),
            qualified_column(db@, views, schema@, name@, col@) == qualified_column(
                db@,
                views.take(k as int),
                schema@,
                name@,
                col@,
            ),
        decreases k,
    {
        proof {
            assert(views.take(k as int).drop_last() =~= views.take(k - 1));
            assert(views.take(k as int).last() == frame_view(stack@[k - 1]@));
        }
        match find_frame_column(db, &stack[k - 1], schema, name, col) {
            Some(p) => return Some(p),
            None => {},
        }
        k = k - 1;
    }
    None
}

fn bind_column_ref(db: &PgCatalog, stack: &Vec<Vec<FromSource>>, cr: &ColumnRef) -> (r: AstBinding)
    ensures
        r == column_binding(db@, stack_view(stack@), part_names(cr.fields@)),
{
    let parts: Vec<String> = extract_string_fields(&cr.fields);
    proof {
        assert(parts@.len() == part_names(cr.fields@).len());
        assert(forall|i: int| 0 <= i < parts@.len() ==> parts@[i]@ == part_names(cr.fields@)[i]);
    }
    let found: Option<(u32, i16)> = if parts.len() == 1 {
        resolve_column_unqualified(db, stack, parts[0].as_str())
    } else if parts.len() == 2 {
        resolve_column_aliased(db, stack, parts[0].as_str(), parts[1].as_str())
    } else if parts.len() == 3 {
        resolve_column_qualified(
            db,
            stack,
            parts[0].as_str(),
            parts[1].as_str(),
            parts[2].as_str(),
        )
    } else {
        None
    };
    match found {
        Some((relid, attnum)) => AstBinding::Column(relid, attnum),
        None => AstBinding::Unresolved,
    }
}

fn bind_func_name(db: &PgCatalog, funcname: &Vec<String>) -> (r: AstBinding)
    ensures
        r == function_binding(db@, texts(funcname@)),
{
    match split_name(funcname) {
        Some((schema, name)) => {
            let found: Vec<u32> = db.find_functions(schema, name);
            if found.len() > 0 {
                AstBinding::Function(found[0])
            } else {
                AstBinding::Unresolved
            }
        },
        None => AstBinding::Unresolved,
    }
}

fn bind_type_name(db: &PgCatalog, tn: &TypeName) -> (r: AstBinding)
    ensures
        r == type_binding(db@, texts(tn.names@)),
{
    match split_name(&tn.names) {
        Some((schema, name)) => match db.resolve_type_by_name(schema, name) {
            Some(oid) => AstBinding::Type(oid),
            None => AstBinding::Unresolved,
        },
        None => AstBinding::Unresolved,
    }
}

fn find_range_relation(
    db: &PgCatalog,
    stack: &Vec<Vec<FromSource>>,
    f: &Vec<FromSource>,
    rv: &RangeVar,
) -> (r: Option<u32>)
    ensures
        r == range_relation(db@, stack_view(stack@), frame_view(f@), *rv),
{
    if rv.schemaname.as_str().is_empty() {
        if has_local_named(stack, f, rv.relname.as_str()) {
            None
        } else {
            db.resolve_table(None, rv.relname.as_str())
        }
    } else {
        db.resolve_table(Some(rv.schemaname.as_str()), rv.relname.as_str())
    }
}

fn alias_or(alias: &Option<String>, other: &str) -> (r: String)
    ensures
        r@ == (match *alias {
            Some(a) => a@,
            None => other@,
        }),
{
    match alias {
        Some(a) => a.clone(),
        None => other.to_owned(),
    }
}

fn find_attribute_names(attrs: &Vec<PgAttribute>) -> (r: Vec<String>)
    ensures
        texts(r@) == attribute_names(attr_views(attrs@)),
{
    let ghost wanted = attribute_names(attr_views(attrs@));
    let mut r: Vec<String> = Vec::new();
    let mut i: usize = 0;
    proof {
        assert(texts(r@) =~= wanted.take(0));
    }
    while i < attrs.len()
        invariant
            i <= attrs@.len(),
            wanted == attribute_names(attr_views(attrs@)),
            texts(r@) == wanted.take(i as int),
        decreases attrs.len() - i,
    {
        let ghost before = r@;
        let name: String = attrs[i].attname.clone();
        r.push(name);
        proof {
            assert(texts(r@) =~= texts(before).push(name@));
            assert(wanted.take(i + 1) =~= wanted.take(i as int).push(wanted[i as int]));
        }
        i = i + 1;
    }
    proof {
        assert(wanted.take(i as int) =~= wanted);
    }
    r
}

fn push_source(f: Vec<FromSource>, s: FromSource) -> (r: Vec<FromSource>)
    ensures
        frame_view(r@) == frame_view(f@).push(s@),
{
    let mut r: Vec<FromSource> = f;
    let ghost before = r@;
    r.push(s);
    proof {
        assert(frame_view(r@) =~= frame_view(before).push(s@));
    }
    r
}

fn new_local(alias: String) -> (r: FromSource)
    ensures
        r@ == local_source(alias@),
{
    let r: FromSource = FromSource { alias, relid: None, columns: Vec::new() };
    proof {
        assert(r@.columns =~= Seq::empty());
    }
    r
}

fn push_frame(stack: &mut Vec<Vec<FromSource>>, f: Vec<FromSource>)
    ensures
        final(stack)@ == old(stack)@.push(f),
        stack_view(final(stack)@) == stack_view(old(stack)@).push(frame_view(f@)),
{
    let ghost before = stack@;
    stack.push(f);
    proof {
        assert(stack_view(stack@) =~= stack_view(before).push(frame_view(f@)));
    }
}

fn pop_frame(stack: &mut Vec<Vec<FromSource>>) -> (f: Vec<FromSource>)
    requires
        old(stack)@.len() > 0,
    ensures
        final(stack)@ == old(stack)@.drop_last(),
        f == old(stack)@.last(),
{
    match stack.pop() {
        Some(f) => f,
        None => Vec::new(),
    }
}

fn walk_node(
    node: &Node,
    db: &PgCatalog,
    stack: &mut Vec<Vec<FromSource>>,
    out: &mut Vec<AstBinding>,
)
    ensures
        final(stack)@ == old(stack)@,
        final(out)@ == old(out)@ + bindings_in(*node, db@, stack_view(old(stack)@)),
    decreases node, 0nat,
{
    let ghost start = out@;
    let ghost st = stack_view(stack@);
    match node {
        Node::SelectStmt(sel) => walk_select(sel, db, stack, out),
        Node::ColumnRef(cr) => {
            out.push(bind_column_ref(db, stack, cr));
        },
        Node::AExpr(e) => {
            walk_opt(&e.lexpr, db, stack, out);
            walk_opt(&e.rexpr, db, stack, out);
        },
        Node::BoolExpr(args) => walk_list(args, db, stack, out),
        Node::FuncCall(fc) => {
            out.push(bind_func_name(db, &fc.funcname));
            walk_list(&fc.args, db, stack, out);
            match &fc.over {
                Some(w) => walk_window(w, db, stack, out),
                None => {},
            }
            walk_opt(&fc.agg_filter, db, stack, out);
        },
        Node::TypeCast(t) => {
            walk_opt(&t.arg, db, stack, out);
            match &t.target {
                Some(tn) => out.push(bind_type_name(db, tn)),
                None => {},
            }
        },
        Node::CollateClause(arg) => walk_opt(arg, db, stack, out),
        Node::CoalesceExpr(args) => walk_list(args, db, stack, out),
        Node::MinMaxExpr(m) => walk_list(&m.args, db, stack, out),
        Node::NullIfExpr(args) => walk_list(args, db, stack, out),
        Node::CaseExpr(e) => {
            walk_opt(&e.arg, db, stack, out);
            walk_list(&e.args, db, stack, out);
            walk_opt(&e.defresult, db, stack, out);
        },
        Node::CaseWhen(w) => {
            walk_opt(&w.expr, db, stack, out);
            walk_opt(&w.result, db, stack, out);
        },
        Node::SubLink(s) => {
            walk_opt(&s.testexpr, db, stack, out);
            walk_opt(&s.subselect, db, stack, out);
        },
        Node::NullTest(arg) => walk_opt(arg, db, stack, out),
        Node::BooleanTest(arg) => walk_opt(arg, db, stack, out),
        Node::List(items) => walk_list(items, db, stack, out),
        Node::ArrayExpr(elements) => walk_list(elements, db, stack, out),
        Node::RowExpr(args) => walk_list(args, db, stack, out),
        Node::ResTarget(val) => walk_opt(val, db, stack, out),
        Node::SortBy(n) => walk_opt(n, db, stack, out),
        _ => {},
    }
    proof {
        assert(out@ =~= start + bindings_in(*node, db@, st));
    }
}

fn walk_opt(
    node: &Option<Box<Node>>,
    db: &PgCatalog,
    stack: &mut Vec<Vec<FromSource>>,
    out: &mut Vec<AstBinding>,
)
    ensures
        final(stack)@ == old(stack)@,
        final(out)@ == old(out)@ + opt_bindings(*node, db@, stack_view(old(stack)@)),
    decreases node, 0nat,
{
    match node {
        Some(b) => walk_node(b, db, stack, out),
        None => {
            proof {
                assert(out@ =~= out@ + Seq::<AstBinding>::empty());
            }
        },
    }
}

fn walk_list(
    nodes: &Vec<Node>,
    db: &PgCatalog,
    stack: &mut Vec<Vec<FromSource>>,
    out: &mut Vec<AstBinding>,
)
    ensures
        final(stack)@ == old(stack)@,
        final(out)@ == old(out)@ + list_bindings(nodes@, 0, db@, stack_view(old(stack)@)),
    decreases nodes, 0nat,
{
    let ghost st = stack_view(stack@);
    let mut i: usize = 0;
    while i < nodes.len()
        invariant
            i <= nodes@.len(),
            stack@ == old(stack)@,
            st == stack_view(old(stack)@),
            out@ + list_bindings(nodes@, i as int, db@, st) == old(out)@ + list_bindings(
                nodes@,
                0,
                db@,
                st,
            ),
        decreases nodes.len() - i,
    {
        proof {
            assert(decreases_to!(nodes => nodes@[i as int]));
        }
        let ghost before = out@;
        walk_node(&nodes[i], db, stack, out);
        proof {
            let here = bindings_in(nodes@[i as int], db@, st);
            let rest = list_bindings(nodes@, i + 1, db@, st);
            assert((before + here) + rest =~= before + (here + rest));
        }
        i = i + 1;
    }
    proof {
        assert(out@ + Seq::<AstBinding>::empty() =~= out@);
    }
}

fn walk_window(
    w: &WindowDef,
    db: &PgCatalog,
    stack: &mut Vec<Vec<FromSource>>,
    out: &mut Vec<AstBinding>,
)
    ensures
        final(stack)@ == old(stack)@,
        final(out)@ == old(out)@ + (list_bindings(
            w.partition_clause@,
            0,
            db@,
            stack_view(old(stack)@),
        ) + list_bindings(w.order_clause@, 0, db@, stack_view(old(stack)@))),
    decreases w, 0nat,
{
    let ghost start = out@;
    walk_list(&w.partition_clause, db, stack, out);
    walk_list(&w.order_clause, db, stack, out);
    proof {
        let st = stack_view(stack@);
        assert(out@ =~= start + (list_bindings(w.partition_clause@, 0, db@, st) + list_bindings(
            w.order_clause@,
            0,
            db@,
            st,
        )));
    }
}

fn walk_opt_select(
    sel: &Option<Box<SelectStmt>>,
    db: &PgCatalog,
    stack: &mut Vec<Vec<FromSource>>,
    out: &mut Vec<AstBinding>,
)
    ensures
        final(stack)@ == old(stack)@,
        final(out)@ == old(out)@ + opt_select_bindings(*sel, db@, stack_view(old(stack)@)),
    decreases sel, 0nat,
{
    match sel {
        Some(b) => walk_select(b, db, stack, out),
        None => {
            proof {
                assert(out@ =~= out@ + Seq::<AstBinding>::empty());
            }
        },
    }
}

proof fn lemma_concat(a: Seq<AstBinding>, b: Seq<AstBinding>, c: Seq<AstBinding>)
    ensures
        (a + b) + c == a + (b + c),
{
    assert((a + b) + c =~= a + (b + c));
}

/// Walks the clauses of a query that see its sources.
fn walk_clauses(
    sel: &SelectStmt,
    db: &PgCatalog,
    stack: &mut Vec<Vec<FromSource>>,
    out: &mut Vec<AstBinding>,
)
    ensures
        final(stack)@ == old(stack)@,
        final(out)@ == old(out)@ + clause_bindings(*sel, db@, stack_view(old(stack)@)),
    decreases sel, 0nat,
{
    let ghost start = out@;
    let ghost st = stack_view(stack@);
    let ghost b1 = list_bindings(sel.target_list@, 0, db@, st);
    let ghost b2 = opt_bindings(sel.where_clause, db@, st);
    let ghost b3 = list_bindings(sel.group_clause@, 0, db@, st);
    let ghost b4 = opt_bindings(sel.having_clause, db@, st);
    let ghost b5 = list_bindings(sel.sort_clause@, 0, db@, st);
    let ghost b6 = list_bindings(sel.distinct_clause@, 0, db@, st);
    walk_list(&sel.target_list, db, stack, out);
    walk_opt(&sel.where_clause, db, stack, out);
    walk_list(&sel.group_clause, db, stack, out);
    walk_opt(&sel.having_clause, db, stack, out);
    walk_list(&sel.sort_clause, db, stack, out);
    walk_list(&sel.distinct_clause, db, stack, out);
    proof {
        lemma_concat(start, b1, b2);
        lemma_concat(start, b1 + b2, b3);
        lemma_concat(start, b1 + b2 + b3, b4);
        lemma_concat(start, b1 + b2 + b3 + b4, b5);
        lemma_concat(start, b1 + b2 + b3 + b4 + b5, b6);
    }
}

fn walk_select(
    sel: &SelectStmt,
    db: &PgCatalog,
    stack: &mut Vec<Vec<FromSource>>,
    out: &mut Vec<AstBinding>,
)
    ensures
        final(stack)@ == old(stack)@,
        final(out)@ == old(out)@ + select_bindings(*sel, db@, stack_view(old(stack)@)),
    decreases sel, 1nat,
{
    let ghost start = out@;
    let ghost outer = stack@;
    let ghost st = stack_view(stack@);
    let ghost b1 = opt_select_bindings(sel.larg, db@, st);
    let ghost b2 = opt_select_bindings(sel.rarg, db@, st);
    let ghost b3 = cte_bindings(sel.ctes@, 0, db@, st, Seq::empty()).0;
    walk_opt_select(&sel.larg, db, stack, out);
    walk_opt_select(&sel.rarg, db, stack, out);
    let f1: Vec<FromSource> = walk_ctes(&sel.ctes, db, stack, out);
    let ghost b4 = from_bindings(sel.from_clause@, 0, db@, st, frame_view(f1@)).0;
    let f2: Vec<FromSource> = walk_from(&sel.from_clause, db, stack, f1, out);
    let ghost b5 = clause_bindings(*sel, db@, st.push(frame_view(f2@)));
    push_frame(stack, f2);
    walk_clauses(sel, db, stack, out);
    let _f: Vec<FromSource> = pop_frame(stack);
    proof {
        assert(stack@ =~= outer);
        lemma_concat(start, b1, b2);
        lemma_concat(start, b1 + b2, b3);
        lemma_concat(start, b1 + b2 + b3, b4);
        lemma_concat(start, b1 + b2 + b3 + b4, b5);
    }
}

fn walk_ctes(
    nodes: &Vec<Node>,
    db: &PgCatalog,
    stack: &mut Vec<Vec<FromSource>>,
    out: &mut Vec<AstBinding>,
) -> (f: Vec<FromSource>)
    ensures
        final(stack)@ == old(stack)@,
        final(out)@ == old(out)@ + cte_bindings(
            nodes@,
            0,
            db@,
            stack_view(old(stack)@),
            Seq::empty(),
        ).0,
        frame_view(f@) == cte_bindings(
            nodes@,
            0,
            db@,
            stack_view(old(stack)@),
            Seq::empty(),
        ).1,
    decreases nodes, 0nat,
{
    let ghost st = stack_view(stack@);
    let ghost all = cte_bindings(nodes@, 0, db@, st, Seq::empty());
    let mut f: Vec<FromSource> = Vec::new();
    proof {
        assert(frame_view(f@) =~= Seq::empty());
    }
    let mut i: usize = 0;
    while i < nodes.len()
        invariant
            i <= nodes@.len(),
            stack@ == old(stack)@,
            st == stack_view(old(stack)@),
            all == cte_bindings(nodes@, 0, db@, st, Seq::empty()),
            out@ + cte_bindings(nodes@, i as int, db@, st, frame_view(f@)).0 == old(out)@ + all.0,
            cte_bindings(nodes@, i as int, db@, st, frame_view(f@)).1 == all.1,
        decreases nodes.len() - i,
    {
        proof {
            assert(decreases_to!(nodes => nodes@[i as int]));
        }
        match &nodes[i] {
            Node::CommonTableExpr(cte) => {
                let ghost before = out@;
                let ghost frame = frame_view(f@);
                push_frame(stack, f);
                walk_opt(&cte.ctequery, db, stack, out);
                f = pop_frame(stack);
                proof {
                    assert(stack@ =~= old(stack)@);
                }
                let s: FromSource = FromSource {
                    alias: cte.ctename.clone(),
                    relid: None,
                    columns: copy_texts(&cte.aliascolnames),
                };
                f = push_source(f, s);
                proof {
                    let here = opt_bindings(cte.ctequery, db@, st.push(frame));
                    let rest = cte_bindings(nodes@, i + 1, db@, st, frame_view(f@)).0;
                    assert((before + here) + rest =~= before + (here + rest));
                }
            },
            _ => {},
        }
        i = i + 1;
    }
    proof {
        assert(out@ + Seq::<AstBinding>::empty() =~= out@);
    }
    f
}

fn walk_from(
    nodes: &Vec<Node>,
    db: &PgCatalog,
    stack: &mut Vec<Vec<FromSource>>,
    f: Vec<FromSource>,
    out: &mut Vec<AstBinding>,
) -> (r: Vec<FromSource>)
    ensures
        final(stack)@ == old(stack)@,
        final(out)@ == old(out)@ + from_bindings(
            nodes@,
            0,
            db@,
            stack_view(old(stack)@),
            frame_view(f@),
        ).0,
        frame_view(r@) == from_bindings(
            nodes@,
            0,
            db@,
            stack_view(old(stack)@),
            frame_view(f@),
        ).1,
    decreases nodes, 0nat,
{
    let ghost st = stack_view(stack@);
    let ghost all = from_bindings(nodes@, 0, db@, st, frame_view(f@));
    let mut r: Vec<FromSource> = f;
    let mut i: usize = 0;
    while i < nodes.len()
        invariant
            i <= nodes@.len(),
            stack@ == old(stack)@,
            st == stack_view(old(stack)@),
            all == from_bindings(nodes@, 0, db@, st, frame_view(f@)),
            out@ + from_bindings(nodes@, i as int, db@, st, frame_view(r@)).0 == old(out)@ + all.0,
            from_bindings(nodes@, i as int, db@, st, frame_view(r@)).1 == all.1,
        decreases nodes.len() - i,
    {
        proof {
            assert(decreases_to!(nodes => nodes@[i as int]));
        }
        let ghost before = out@;
        let ghost frame = frame_view(r@);
        r = process_from_item(&nodes[i], db, stack, r, out);
        proof {
            let here = item_bindings(nodes@[i as int], db@, st, frame).0;
            let rest = from_bindings(nodes@, i + 1, db@, st, frame_view(r@)).0;
            assert((before + here) + rest =~= before + (here + rest));
        }
        i = i + 1;
    }
    proof {
        assert(out@ + Seq::<AstBinding>::empty() =~= out@);
    }
    r
}

fn process_from_item(
    node: &Node,
    db: &PgCatalog,
    stack: &mut Vec<Vec<FromSource>>,
    f: Vec<FromSource>,
    out: &mut Vec<AstBinding>,
) -> (r: Vec<FromSource>)
    ensures
        final(stack)@ == old(stack)@,
        final(out)@ == old(out)@ + item_bindings(
            *node,
            db@,
            stack_view(old(stack)@),
            frame_view(f@),
        ).0,
        frame_view(r@) == item_bindings(
            *node,
            db@,
            stack_view(old(stack)@),
            frame_view(f@),
        ).1,
    decreases node, 0nat,
{
    let ghost start = out@;
    let ghost st = stack_view(stack@);
    match node {
        Node::RangeVar(rv) => {
            let alias: String = alias_or(&rv.alias, rv.relname.as_str());
            match find_range_relation(db, stack, &f, rv) {
                Some(relid) => {
                    out.push(AstBinding::Relation(relid));
                    let attrs: Vec<PgAttribute> = db.attributes_of(relid);
                    let s: FromSource = FromSource {
                        alias,
                        relid: Some(relid),
                        columns: find_attribute_names(&attrs),
                    };
                    proof {
                        assert(out@ =~= start + seq![AstBinding::Relation(relid)]);
                    }
                    push_source(f, s)
                },
                None => {
                    out.push(AstBinding::Unresolved);
                    proof {
                        assert(out@ =~= start + seq![AstBinding::Unresolved]);
                    }
                    push_source(f, new_local(alias))
                },
            }
        },
        Node::JoinExpr(j) => {
            let f1: Vec<FromSource> = process_opt_item(&j.larg, db, stack, f, out);
            let f2: Vec<FromSource> = process_opt_item(&j.rarg, db, stack, f1, out);
            let ghost outer = stack@;
            push_frame(stack, f2);
            walk_opt(&j.quals, db, stack, out);
            let r: Vec<FromSource> = pop_frame(stack);
            proof {
                assert(stack@ =~= outer);
                assert(out@ =~= start + item_bindings(*node, db@, st, frame_view(f@)).0);
            }
            r
        },
        Node::RangeSubselect(s) => {
            walk_opt(&s.subquery, db, stack, out);
            push_source(f, new_local(alias_or(&s.alias, "_subquery")))
        },
        Node::RangeFunction(x) => {
            walk_list(&x.functions, db, stack, out);
            push_source(f, new_local(alias_or(&x.alias, "_srf")))
        },
        _ => {
            proof {
                assert(out@ =~= start + Seq::<AstBinding>::empty());
            }
            f
        },
    }
}

fn process_opt_item(
    node: &Option<Box<Node>>,
    db: &PgCatalog,
    stack: &mut Vec<Vec<FromSource>>,
    f: Vec<FromSource>,
    out: &mut Vec<AstBinding>,
) -> (r: Vec<FromSource>)
    ensures
        final(stack)@ == old(stack)@,
        final(out)@ == old(out)@ + opt_item_bindings(
            *node,
            db@,
            stack_view(old(stack)@),
            frame_view(f@),
        ).0,
        frame_view(r@) == opt_item_bindings(
            *node,
            db@,
            stack_view(old(stack)@),
            frame_view(f@),
        ).1,
    decreases node, 0nat,
{
    match node {
        Some(b) => process_from_item(b, db, stack, f, out),
        None => {
            proof {
                assert(out@ =~= out@ + Seq::<AstBinding>::empty());
            }
            f
        },
    }
}

/// The bindings of the names in a query.
pub fn collect_view_bindings(query: &Node, db: &PgCatalog) -> (r: Vec<AstBinding>)
    ensures
        r@ == bindings_in(*query, db@, Seq::empty()),
{
    let mut stack: Vec<Vec<FromSource>> = Vec::new();
    let mut out: Vec<AstBinding> = Vec::new();
    proof {
        assert(stack_view(stack@) =~= Seq::empty());
    }
    walk_node(query, db, &mut stack, &mut out);
    proof {
        assert(out@ =~= bindings_in(*query, db@, Seq::empty()));
    }
    out
}

} // verus!

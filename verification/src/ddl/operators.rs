//! `CREATE OPERATOR`.

use super::stmt::{DefArg, DefElem, DefineStmt};
use super::util::{
    default_schema, default_schema_name, ensure_namespace, ensured_namespace, named_type,
    resolve_type_name, Step,
};
use super::{ddl_outcome, DdlError};
use crate::ast::qualified;
use crate::catalog::{CatalogView, PgCatalog};
use crate::expr::split_name;
use crate::lookup::opt_str;
use crate::pg_catalog::{PgOperator, PgOperatorView};
use crate::text::{same_but_case, same_text_but_case, texts};
use vstd::prelude::*;

verus! {

// ── Options ─────────────────────────────────────────────────────────────────

/// The parts of the name that the value of an option gives.
pub open spec fn name_parts(arg: DefArg) -> Seq<Seq<char>> {
    match arg {
        DefArg::TypeName(tn) => texts(tn.names@),
        DefArg::Text(s) => seq![s@],
        DefArg::Names(names) => texts(names@),
        _ => Seq::empty(),
    }
}

/// The function that the value of an option names.
pub open spec fn function_name(arg: DefArg) -> Option<(Option<Seq<char>>, Seq<char>)> {
    qualified(name_parts(arg))
}

/// A function's name as a value.
pub open spec fn name_view(n: Option<(Option<String>, String)>) -> Option<
    (Option<Seq<char>>, Seq<char>),
> {
    match n {
        Some((Some(schema), name)) => Some((Some(schema@), name@)),
        Some((None, name)) => Some((None, name@)),
        None => None,
    }
}

/// Whether an option has a value.
pub open spec fn has_value(o: DefElem) -> bool {
    !(o.arg is Missing)
}

/// What the options of an operator say.
#[verifier::ext_equal]
pub struct OperatorOptions {
    pub left: Option<u32>,
    pub right: Option<u32>,
    pub procedure: Option<(Option<Seq<char>>, Seq<char>)>,
}

/// What the options of an operator say; of options with the same name the last.
pub open spec fn operator_options(c: CatalogView, options: Seq<DefElem>) -> OperatorOptions
    decreases options.len(),
{
    if options.len() == 0 {
        OperatorOptions { left: None, right: None, procedure: None }
    } else {
        let before = operator_options(c, options.drop_last());
        let o = options.last();
        if !has_value(o) {
            before
        } else if same_but_case(o.defname@, "leftarg"@) {
            match o.arg {
                DefArg::TypeName(tn) => OperatorOptions { left: named_type(c, tn), ..before },
                _ => before,
            }
        } else if same_but_case(o.defname@, "rightarg"@) {
            match o.arg {
                DefArg::TypeName(tn) => OperatorOptions { right: named_type(c, tn), ..before },
                _ => before,
            }
        } else if same_but_case(o.defname@, "procedure"@) || same_but_case(
            o.defname@,
            "function"@,
        ) {
            OperatorOptions { procedure: function_name(o.arg), ..before }
        } else {
            before
        }
    }
}

fn copy_name(parts: &Vec<String>) -> (r: Option<(Option<String>, String)>)
    ensures
        name_view(r) == qualified(texts(parts@)),
{
    match split_name(parts) {
        Some((Some(schema), name)) => Some((Some(schema.to_owned()), name.to_owned())),
        Some((None, name)) => Some((None, name.to_owned())),
        None => None,
    }
}

/// The function that the value of an option names.
pub(crate) fn parse_func_name(arg: &DefArg) -> (r: Option<(Option<String>, String)>)
    ensures
        name_view(r) == function_name(*arg),
{
    match arg {
        DefArg::TypeName(tn) => copy_name(&tn.names),
        DefArg::Text(s) => Some((None, s.clone())),
        DefArg::Names(names) => copy_name(names),
        _ => None,
    }
}

// ── Result types ────────────────────────────────────────────────────────────

/// Whether these are the arguments of a function for an operator between these
/// types.
pub open spec fn takes_operands(args: Seq<u32>, left: Option<u32>, right: u32) -> bool {
    match left {
        Some(l) => args.len() == 2 && args[0] == l && args[1] == right,
        None => args.len() == 1 && args[0] == right,
    }
}

/// The result type of the first function of a list that takes these operands.
pub open spec fn first_result(
    c: CatalogView,
    oids: Seq<u32>,
    left: Option<u32>,
    right: u32,
) -> Option<
    u32,
>
    decreases oids.len(),
{
    if oids.len() == 0 {
        None
    } else {
        match first_result(c, oids.drop_last(), left, right) {
            Some(t) => Some(t),
            None => match c.get_proc(oids.last()) {
                Some(p) => if takes_operands(p.proargtypes, left, right) {
                    Some(p.prorettype)
                } else {
                    None
                },
                None => None,
            },
        }
    }
}

/// The result type of an operator: that of its function.
pub open spec fn operator_result(c: CatalogView, o: OperatorOptions, right: u32) -> Option<u32> {
    match o.procedure {
        Some((schema, name)) => first_result(c, c.find_functions(schema, name), o.left, right),
        None => None,
    }
}

proof fn lemma_first_result(c: CatalogView, oids: Seq<u32>, n: int, left: Option<u32>, right: u32)
    requires
        0 <= n <= oids.len(),
        first_result(c, oids.take(n), left, right) is Some,
    ensures
        first_result(c, oids, left, right) == first_result(c, oids.take(n), left, right),
    decreases oids.len(),
{
    if n < oids.len() {
        assert(oids.drop_last().take(n) =~= oids.take(n));
        lemma_first_result(c, oids.drop_last(), n, left, right);
    } else {
        assert(oids.take(n) =~= oids);
    }
}

fn resolve_procedure_return(
    db: &PgCatalog,
    schema: Option<&str>,
    name: &str,
    left: Option<u32>,
    right: u32,
) -> (r: Option<u32>)
    ensures
        r == first_result(db@, db@.find_functions(opt_str(schema), name@), left, right),
{
    let oids: Vec<u32> = db.find_functions(schema, name);
    let mut i: usize = 0;
    while i < oids.len()
        invariant
            i <= oids@.len(),
            oids@ == db@.find_functions(opt_str(schema), name@),
            first_result(db@, oids@.take(i as int), left, right) is None,
        decreases oids.len() - i,
    {
        proof {
            assert(oids@.take(i + 1).drop_last() =~= oids@.take(i as int));
        }
        match db.pg_proc.get(oids[i]) {
            Some(p) => {
                let fits: bool = match left {
                    Some(l) => p.proargtypes.len() == 2 && p.proargtypes[0] == l
                        && p.proargtypes[1] == right,
                    None => p.proargtypes.len() == 1 && p.proargtypes[0] == right,
                };
                if fits {
                    proof {
                        lemma_first_result(db@, oids@, i + 1, left, right);
                    }
                    return Some(p.prorettype);
                }
            },
            None => {},
        }
        i = i + 1;
    }
    proof {
        assert(oids@.take(i as int) =~= oids@);
    }
    None
}

// ── CREATE OPERATOR ─────────────────────────────────────────────────────────

/// The schema that the name of an operator is written with, or the first of the
/// search path.
pub open spec fn operator_schema(c: CatalogView, parts: Seq<Seq<char>>) -> Seq<char> {
    if parts.len() >= 2 {
        parts[parts.len() - 2]
    } else {
        default_schema(c)
    }
}

/// What `CREATE OPERATOR` does. Without a right operand of a known type it does
/// nothing.
pub open spec fn operator_created(c: CatalogView, stmt: DefineStmt) -> Step<()> {
    let parts = texts(stmt.defnames@);
    let o = operator_options(c, stmt.definition@);
    match o.right {
        None => (Ok(()), c),
        Some(right) => if parts.len() == 0 {
            (Ok(()), c)
        } else {
            match ensured_namespace(c, operator_schema(c, parts)) {
                (Err(e), c1) => (Err(e), c1),
                (Ok(ns), c1) => match c1.allocated() {
                    (Err(e), c2) => (Err(e), c2),
                    (Ok(oid), c2) => (
                        Ok(()),
                        c2.with_operator(
                            PgOperatorView {
                                oid,
                                oprname: parts.last(),
                                oprnamespace: ns,
                                oprleft: o.left,
                                oprright: right,
                                oprresult: operator_result(c, o, right),
                            },
                        ),
                    ),
                },
            }
        },
    }
}

/// What the options of an operator say.
struct ReadOptions {
    left: Option<u32>,
    right: Option<u32>,
    procedure: Option<(Option<String>, String)>,
}

impl ReadOptions {
    spec fn view(&self) -> OperatorOptions {
        OperatorOptions {
            left: self.left,
            right: self.right,
            procedure: name_view(self.procedure),
        }
    }
}

fn read_options(db: &PgCatalog, options: &Vec<DefElem>) -> (r: ReadOptions)
    ensures
        r@ == operator_options(db@, options@),
{
    let mut r: ReadOptions = ReadOptions { left: None, right: None, procedure: None };
    let mut i: usize = 0;
    while i < options.len()
        invariant
            i <= options@.len(),
            r@ == operator_options(db@, options@.take(i as int)),
        decreases options.len() - i,
    {
        proof {
            assert(options@.take(i + 1).drop_last() =~= options@.take(i as int));
        }
        let name: &str = options[i].defname.as_str();
        match &options[i].arg {
            DefArg::Missing => {},
            DefArg::TypeName(tn) => {
                if same_text_but_case(name, "leftarg") {
                    r.left = resolve_type_name(tn, db);
                } else if same_text_but_case(name, "rightarg") {
                    r.right = resolve_type_name(tn, db);
                } else if same_text_but_case(name, "procedure") || same_text_but_case(
                    name,
                    "function",
                ) {
                    r.procedure = parse_func_name(&options[i].arg);
                }
            },
            _ => {
                if !same_text_but_case(name, "leftarg") && !same_text_but_case(name, "rightarg")
                    && (same_text_but_case(name, "procedure") || same_text_but_case(
                    name,
                    "function",
                )) {
                    r.procedure = parse_func_name(&options[i].arg);
                }
            },
        }
        i = i + 1;
    }
    proof {
        assert(options@.take(i as int) =~= options@);
    }
    r
}

/// Applies a `CREATE OPERATOR`. The result type is that of the operator's function.
///
/// # Errors
///
/// The OIDs have run out.
pub fn define_operator(db: &mut PgCatalog, stmt: &DefineStmt) -> (r: Result<(), DdlError>)
    ensures
        (ddl_outcome(r), final(db)@) == operator_created(old(db)@, *stmt),
{
    let o: ReadOptions = read_options(db, &stmt.definition);
    let right: u32 = match o.right {
        Some(oid) => oid,
        None => return Ok(()),
    };
    let n: usize = stmt.defnames.len();
    if n == 0 {
        return Ok(());
    }
    let result: Option<u32> = match &o.procedure {
        Some((Some(schema), name)) => resolve_procedure_return(
            db,
            Some(schema.as_str()),
            name.as_str(),
            o.left,
            right,
        ),
        Some((None, name)) => resolve_procedure_return(db, None, name.as_str(), o.left, right),
        None => None,
    };
    let schema: String = if n >= 2 {
        stmt.defnames[n - 2].clone()
    } else {
        default_schema_name(db)
    };
    let ns: u32 = match ensure_namespace(db, schema.as_str()) {
        Ok(ns) => ns,
        Err(e) => return Err(e),
    };
    let oid: u32 = match db.alloc_oid() {
        Ok(oid) => oid,
        Err(e) => return Err(e),
    };
    db.insert_pg_operator(
        PgOperator {
            oid,
            oprname: stmt.defnames[n - 1].clone(),
            oprnamespace: ns,
            oprleft: o.left,
            oprright: right,
            oprresult: result,
        },
    );
    Ok(())
}

} // verus!

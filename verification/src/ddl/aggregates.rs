//! `CREATE AGGREGATE`.
//!
//! An aggregate is a routine. It returns what its final function returns or,
//! without one, its state.

use super::operators::{function_name, has_value, name_view, parse_func_name};
use super::stmt::{DefArg, DefElem, DefineArg, DefineStmt, FunctionParameterMode};
use super::util::{ensure_qualified_name, ensured_names, named_type, resolve_type_name, Step};
use super::{ddl_outcome, DdlError};
use crate::ast::TypeName;
use crate::catalog::{CatalogView, PgCatalog};
use crate::pg_catalog::{
    PgAggregate, PgProc, PgProcView, ProKind, ProVolatile, UNKNOWN,
};
use crate::text::{same_but_case, same_text_but_case, texts};
use vstd::prelude::*;

verus! {

// ── Arguments ───────────────────────────────────────────────────────────────

/// The arguments of an aggregate, without the list that they may be wrapped in.
pub open spec fn plain_args(args: Seq<DefineArg>) -> Seq<DefineArg> {
    if args.len() == 2 {
        match args[0] {
            DefineArg::List(l) => l@,
            _ => args,
        }
    } else {
        args
    }
}

/// A type, or `unknown` where it is not known.
pub open spec fn type_or_unknown(c: CatalogView, tn: TypeName) -> u32 {
    match named_type(c, tn) {
        Some(oid) => oid,
        None => UNKNOWN,
    }
}

/// The types of the arguments, and the type of a variadic one.
pub open spec fn aggregate_args(c: CatalogView, args: Seq<DefineArg>) -> (Seq<u32>, Option<u32>)
    decreases args.len(),
{
    if args.len() == 0 {
        (Seq::empty(), None)
    } else {
        let (types, variadic) = aggregate_args(c, args.drop_last());
        match args.last() {
            DefineArg::Parameter(fp) => match fp.arg_type {
                Some(tn) => (
                    types.push(type_or_unknown(c, tn)),
                    if fp.mode == FunctionParameterMode::Variadic {
                        Some(type_or_unknown(c, tn))
                    } else {
                        variadic
                    },
                ),
                None => (types, variadic),
            },
            DefineArg::TypeName(tn) => (types.push(type_or_unknown(c, tn)), variadic),
            _ => (types, variadic),
        }
    }
}

fn resolve_or_unknown(tn: &TypeName, db: &PgCatalog) -> (r: u32)
    ensures
        r == type_or_unknown(db@, *tn),
{
    match resolve_type_name(tn, db) {
        Some(oid) => oid,
        None => UNKNOWN,
    }
}

fn read_args(db: &PgCatalog, args: &Vec<DefineArg>) -> (r: (Vec<u32>, Option<u32>))
    ensures
        (r.0@, r.1) == aggregate_args(db@, args@),
{
    let mut types: Vec<u32> = Vec::new();
    let mut variadic: Option<u32> = None;
    let mut i: usize = 0;
    while i < args.len()
        invariant
            i <= args@.len(),
            (types@, variadic) == aggregate_args(db@, args@.take(i as int)),
        decreases args.len() - i,
    {
        proof {
            assert(args@.take(i + 1).drop_last() =~= args@.take(i as int));
        }
        match &args[i] {
            DefineArg::Parameter(fp) => match &fp.arg_type {
                Some(tn) => {
                    let oid: u32 = resolve_or_unknown(tn, db);
                    types.push(oid);
                    match fp.mode {
                        FunctionParameterMode::Variadic => {
                            variadic = Some(oid);
                        },
                        _ => {},
                    }
                },
                None => {},
            },
            DefineArg::TypeName(tn) => types.push(resolve_or_unknown(tn, db)),
            _ => {},
        }
        i = i + 1;
    }
    proof {
        assert(args@.take(i as int) =~= args@);
    }
    (types, variadic)
}

// ── Options ─────────────────────────────────────────────────────────────────

/// The state type and the final function that the options of an aggregate give; of
/// options with the same name the last.
pub open spec fn aggregate_options(c: CatalogView, options: Seq<DefElem>) -> (
    Option<u32>,
    Option<(Option<Seq<char>>, Seq<char>)>,
)
    decreases options.len(),
{
    if options.len() == 0 {
        (None, None)
    } else {
        let (state, final_name) = aggregate_options(c, options.drop_last());
        let o = options.last();
        if !has_value(o) {
            (state, final_name)
        } else if same_but_case(o.defname@, "stype"@) {
            match o.arg {
                DefArg::TypeName(tn) => (named_type(c, tn), final_name),
                _ => (state, final_name),
            }
        } else if same_but_case(o.defname@, "finalfunc"@) {
            (state, function_name(o.arg))
        } else {
            (state, final_name)
        }
    }
}

/// The function that a name leads to first.
pub open spec fn first_function(
    c: CatalogView,
    name: Option<(Option<Seq<char>>, Seq<char>)>,
) -> Option<u32> {
    match name {
        Some((schema, n)) => {
            let found = c.find_functions(schema, n);
            if found.len() > 0 {
                Some(found[0])
            } else {
                None
            }
        },
        None => None,
    }
}

/// What an aggregate returns.
pub open spec fn aggregate_result(
    c: CatalogView,
    final_function: Option<u32>,
    state: Option<u32>,
) -> u32 {
    match final_function {
        Some(oid) => match c.get_proc(oid) {
            Some(p) => p.prorettype,
            None => UNKNOWN,
        },
        None => match state {
            Some(t) => t,
            None => UNKNOWN,
        },
    }
}

fn read_options(db: &PgCatalog, options: &Vec<DefElem>) -> (r: (
    Option<u32>,
    Option<(Option<String>, String)>,
))
    ensures
        (r.0, name_view(r.1)) == aggregate_options(db@, options@),
{
    let mut state: Option<u32> = None;
    let mut final_name: Option<(Option<String>, String)> = None;
    let mut i: usize = 0;
    while i < options.len()
        invariant
            i <= options@.len(),
            (state, name_view(final_name)) == aggregate_options(db@, options@.take(i as int)),
        decreases options.len() - i,
    {
        proof {
            assert(options@.take(i + 1).drop_last() =~= options@.take(i as int));
        }
        let name: &str = options[i].defname.as_str();
        match &options[i].arg {
            DefArg::Missing => {},
            DefArg::TypeName(tn) => {
                if same_text_but_case(name, "stype") {
                    state = resolve_type_name(tn, db);
                } else if same_text_but_case(name, "finalfunc") {
                    final_name = parse_func_name(&options[i].arg);
                }
            },
            _ => {
                if !same_text_but_case(name, "stype") && same_text_but_case(name, "finalfunc") {
                    final_name = parse_func_name(&options[i].arg);
                }
            },
        }
        i = i + 1;
    }
    proof {
        assert(options@.take(i as int) =~= options@);
    }
    (state, final_name)
}

fn find_first_function(db: &PgCatalog, name: &Option<(Option<String>, String)>) -> (r: Option<u32>)
    ensures
        r == first_function(db@, name_view(*name)),
{
    let found: Vec<u32> = match name {
        Some((Some(schema), n)) => db.find_functions(Some(schema.as_str()), n.as_str()),
        Some((None, n)) => db.find_functions(None, n.as_str()),
        None => return None,
    };
    if found.len() > 0 {
        Some(found[0])
    } else {
        None
    }
}

// ── CREATE AGGREGATE ────────────────────────────────────────────────────────

/// The row of the routine that a `CREATE AGGREGATE` makes.
pub open spec fn aggregate_row(
    c: CatalogView,
    oid: u32,
    ns: u32,
    name: Seq<char>,
    stmt: DefineStmt,
) -> PgProcView {
    let (types, variadic) = aggregate_args(c, plain_args(stmt.args@));
    let (state, final_name) = aggregate_options(c, stmt.definition@);
    PgProcView {
        oid,
        proname: name,
        pronamespace: ns,
        prokind: ProKind::Aggregate,
        proargtypes: types,
        prorettype: aggregate_result(c, first_function(c, final_name), state),
        proretset: false,
        provariadic: variadic,
        proisstrict: false,
        pronargdefaults: 0,
        proallargtypes: Seq::empty(),
        proargmodes: Seq::empty(),
        proargnames: Seq::empty(),
        provolatile: ProVolatile::Immutable,
    }
}

/// What `CREATE AGGREGATE` does.
pub open spec fn aggregate_created(c: CatalogView, stmt: DefineStmt) -> Step<()> {
    match ensured_names(c, texts(stmt.defnames@)) {
        (Err(e), c1) => (Err(e), c1),
        (Ok((ns, name)), c1) => match c1.allocated() {
            (Err(e), c2) => (Err(e), c2),
            (Ok(oid), c2) => (
                Ok(()),
                c2.with_proc(aggregate_row(c2, oid, ns, name, stmt)).with_aggregate(
                    PgAggregate {
                        aggfnoid: oid,
                        aggfinalfn: first_function(c2, aggregate_options(c2, stmt.definition@).1),
                    },
                ),
            ),
        },
    }
}

/// Applies a `CREATE AGGREGATE`.
///
/// # Errors
///
/// The OIDs have run out.
pub fn define_aggregate(db: &mut PgCatalog, stmt: &DefineStmt) -> (r: Result<(), DdlError>)
    ensures
        (ddl_outcome(r), final(db)@) == aggregate_created(old(db)@, *stmt),
{
    let (ns, name): (u32, String) = match ensure_qualified_name(db, &stmt.defnames) {
        Ok(p) => p,
        Err(e) => return Err(e),
    };
    let oid: u32 = match db.alloc_oid() {
        Ok(oid) => oid,
        Err(e) => return Err(e),
    };
    let args: &Vec<DefineArg> = if stmt.args.len() == 2 {
        match &stmt.args[0] {
            DefineArg::List(l) => l,
            _ => &stmt.args,
        }
    } else {
        &stmt.args
    };
    let (types, variadic): (Vec<u32>, Option<u32>) = read_args(db, args);
    let (state, final_name): (Option<u32>, Option<(Option<String>, String)>) = read_options(
        db,
        &stmt.definition,
    );
    let final_function: Option<u32> = find_first_function(db, &final_name);
    let prorettype: u32 = match final_function {
        Some(f) => match db.pg_proc.get(f) {
            Some(p) => p.prorettype,
            None => UNKNOWN,
        },
        None => match state {
            Some(t) => t,
            None => UNKNOWN,
        },
    };
    let row: PgProc = PgProc {
        oid,
        proname: name,
        pronamespace: ns,
        prokind: ProKind::Aggregate,
        proargtypes: types,
        prorettype,
        proretset: false,
        provariadic: variadic,
        proisstrict: false,
        pronargdefaults: 0,
        proallargtypes: Vec::new(),
        proargmodes: Vec::new(),
        proargnames: Vec::new(),
        provolatile: ProVolatile::Immutable,
    };
    proof {
        assert(row@ =~= aggregate_row(db@, oid, ns, name@, *stmt));
    }
    db.insert_pg_proc(row);
    db.insert_pg_aggregate(PgAggregate { aggfnoid: oid, aggfinalfn: final_function });
    Ok(())
}

} // verus!

//! `CREATE FUNCTION` and `CREATE PROCEDURE`, as far as the signature goes.

use super::routines::same_numbers;
use super::stmt::{
    CreateFunctionStmt, DefArg, DefElem, FunctionParameter, FunctionParameterMode,
};
use super::util::{
    ensure_qualified_name, ensured_names, opt_named_type, resolve_opt_type, Step,
};
use super::{ddl_outcome, DdlError, DdlErrorView};
use crate::catalog::{CatalogView, PgCatalog};
use crate::pg_catalog::{
    ArgMode, PgProc, PgProcView, ProKind, ProVolatile, RECORD, UNKNOWN,
};
use crate::text::{concat4, same_text, texts};
use vstd::prelude::*;

verus! {

// ── Parameters ──────────────────────────────────────────────────────────────

/// The parameters of a routine: the types of those that a call passes, and the
/// types, modes and names of all.
#[derive(Debug)]
pub struct Signature {
    pub arg_types: Vec<u32>,
    pub all_types: Vec<u32>,
    pub modes: Vec<ArgMode>,
    pub names: Vec<String>,
    pub variadic: Option<u32>,
}

#[verifier::ext_equal]
pub struct SignatureView {
    pub arg_types: Seq<u32>,
    pub all_types: Seq<u32>,
    pub modes: Seq<ArgMode>,
    pub names: Seq<Seq<char>>,
    pub variadic: Option<u32>,
}

impl View for Signature {
    type V = SignatureView;

    open spec fn view(&self) -> SignatureView {
        SignatureView {
            arg_types: self.arg_types@,
            all_types: self.all_types@,
            modes: self.modes@,
            names: texts(self.names@),
            variadic: self.variadic,
        }
    }
}

/// A routine without parameters.
pub open spec fn no_parameters() -> SignatureView {
    SignatureView {
        arg_types: Seq::empty(),
        all_types: Seq::empty(),
        modes: Seq::empty(),
        names: Seq::empty(),
        variadic: None,
    }
}

/// The mode of a parameter, as the catalog has it.
pub open spec fn arg_mode(m: FunctionParameterMode) -> ArgMode {
    match m {
        FunctionParameterMode::In
        | FunctionParameterMode::Default
        | FunctionParameterMode::Undefined => ArgMode::In,
        FunctionParameterMode::Variadic => ArgMode::Variadic,
        FunctionParameterMode::InOut => ArgMode::InOut,
        FunctionParameterMode::Out => ArgMode::Out,
        FunctionParameterMode::Table => ArgMode::Table,
    }
}

/// Whether a call passes a parameter of this mode.
pub open spec fn is_input(m: ArgMode) -> bool {
    m == ArgMode::In || m == ArgMode::Variadic || m == ArgMode::InOut
}

/// Whether the result holds a parameter of this mode.
pub open spec fn is_output(m: ArgMode) -> bool {
    m == ArgMode::Out || m == ArgMode::InOut || m == ArgMode::Table
}

/// A signature with one more parameter.
pub open spec fn with_parameter(
    s: SignatureView,
    oid: u32,
    m: ArgMode,
    name: Seq<char>,
) -> SignatureView {
    SignatureView {
        arg_types: if is_input(m) {
            s.arg_types.push(oid)
        } else {
            s.arg_types
        },
        all_types: s.all_types.push(oid),
        modes: s.modes.push(m),
        names: s.names.push(name),
        variadic: if m == ArgMode::Variadic {
            Some(oid)
        } else {
            s.variadic
        },
    }
}

/// The parameters whose types are known.
pub open spec fn signature(c: CatalogView, params: Seq<FunctionParameter>) -> SignatureView
    decreases params.len(),
{
    if params.len() == 0 {
        no_parameters()
    } else {
        let s = signature(c, params.drop_last());
        match opt_named_type(c, params.last().arg_type) {
            Some(oid) => with_parameter(s, oid, arg_mode(params.last().mode), params.last().name@),
            None => s,
        }
    }
}

/// Whether every parameter is passed by a call and has no name.
pub open spec fn is_plain(s: SignatureView) -> bool {
    (forall|i: int| 0 <= i < s.modes.len() ==> #[trigger] s.modes[i] == ArgMode::In) && (forall|
        i: int,
    |
        0 <= i < s.names.len() ==> (#[trigger] s.names[i]).len() == 0)
}

/// What the catalog records of a signature: of a plain one only the argument types.
pub open spec fn recorded(s: SignatureView) -> SignatureView {
    if is_plain(s) {
        SignatureView {
            all_types: Seq::empty(),
            modes: Seq::empty(),
            names: Seq::empty(),
            ..s
        }
    } else {
        s
    }
}

/// The types of those of the first `n` parameters that the result holds.
pub open spec fn output_types(s: SignatureView, n: int) -> Seq<u32>
    decreases n,
{
    if n <= 0 {
        Seq::empty()
    } else if is_output(s.modes[n - 1]) {
        output_types(s, n - 1).push(s.all_types[n - 1])
    } else {
        output_types(s, n - 1)
    }
}

/// The type of the result: the one that is written; else that of the only output
/// parameter, or a record of several.
pub open spec fn return_type(s: SignatureView, written: Option<u32>) -> u32 {
    match written {
        Some(oid) => oid,
        None => {
            let outputs = output_types(s, s.modes.len() as int);
            if outputs.len() == 0 {
                UNKNOWN
            } else if outputs.len() == 1 {
                outputs[0]
            } else {
                RECORD
            }
        },
    }
}

// ── Options ─────────────────────────────────────────────────────────────────

/// Whether an option says that the routine is strict.
pub open spec fn says_strict(o: DefElem) -> bool {
    o.defname@ == "strict"@ && match o.arg {
        DefArg::Integer(n) => n == 1,
        DefArg::Boolean(b) => b,
        _ => false,
    }
}

/// Whether one of the options says that the routine is strict.
pub open spec fn is_strict(options: Seq<DefElem>) -> bool {
    exists|i: int| 0 <= i < options.len() && #[trigger] says_strict(options[i])
}

/// The volatility that a word stands for.
pub open spec fn volatility_word(word: Seq<char>) -> ProVolatile {
    if word == "immutable"@ {
        ProVolatile::Immutable
    } else if word == "stable"@ {
        ProVolatile::Stable
    } else {
        ProVolatile::Volatile
    }
}

/// The volatility that the first option for it from `i` on gives; volatile where
/// there is none.
pub open spec fn declared_volatility(options: Seq<DefElem>, i: int) -> ProVolatile
    decreases options.len() - i,
{
    if i < 0 || i >= options.len() {
        ProVolatile::Volatile
    } else {
        match options[i].arg {
            DefArg::Text(word) => if options[i].defname@ == "volatility"@ {
                volatility_word(word@)
            } else {
                declared_volatility(options, i + 1)
            },
            _ => declared_volatility(options, i + 1),
        }
    }
}

// ── The routine ─────────────────────────────────────────────────────────────

/// The first routine of a list with these argument types.
pub open spec fn same_arguments(c: CatalogView, oids: Seq<u32>, args: Seq<u32>) -> Option<u32>
    decreases oids.len(),
{
    if oids.len() == 0 {
        None
    } else {
        match same_arguments(c, oids.drop_last(), args) {
            Some(oid) => Some(oid),
            None => match c.get_proc(oids.last()) {
                Some(p) => if p.proargtypes == args {
                    Some(oids.last())
                } else {
                    None
                },
                None => None,
            },
        }
    }
}

/// The kind of routine that a statement makes.
pub open spec fn statement_kind(stmt: CreateFunctionStmt) -> ProKind {
    if stmt.is_procedure {
        ProKind::Procedure
    } else {
        ProKind::Function
    }
}

/// The row of the routine that a statement makes.
pub open spec fn routine_row(
    c: CatalogView,
    oid: u32,
    ns: u32,
    name: Seq<char>,
    stmt: CreateFunctionStmt,
) -> PgProcView {
    let s = recorded(signature(c, stmt.parameters@));
    PgProcView {
        oid,
        proname: name,
        pronamespace: ns,
        prokind: statement_kind(stmt),
        proargtypes: s.arg_types,
        prorettype: return_type(s, opt_named_type(c, stmt.return_type)),
        proretset: match stmt.return_type {
            Some(tn) => tn.setof,
            None => false,
        },
        provariadic: s.variadic,
        proisstrict: is_strict(stmt.options@),
        pronargdefaults: 0,
        proallargtypes: s.all_types,
        proargmodes: s.modes,
        proargnames: s.names,
        provolatile: declared_volatility(stmt.options@, 0),
    }
}

/// What making way for a routine does: one with the same arguments is replaced
/// where the statement says so, it is of the same kind and it returns the same type.
pub open spec fn way_made(
    c: CatalogView,
    ns: u32,
    name: Seq<char>,
    stmt: CreateFunctionStmt,
) -> Step<()> {
    let row = routine_row(c, 0, ns, name, stmt);
    match same_arguments(c, c.procs_named(ns, name), row.proargtypes) {
        None => (Ok(()), c),
        Some(old) => match c.get_proc(old) {
            Some(p) => if stmt.replace && p.prokind == row.prokind {
                if p.prorettype != row.prorettype {
                    (
                        Err(
                            DdlErrorView::DuplicateObject(
                                "cannot change return type of existing function"@,
                            ),
                        ),
                        c,
                    )
                } else {
                    (Ok(()), c.without_proc(old))
                }
            } else {
                (Err(taken(name, stmt.is_procedure)), c)
            },
            None => (Err(taken(name, stmt.is_procedure)), c),
        },
    }
}

/// The error for a signature that is taken.
pub open spec fn taken(name: Seq<char>, procedure: bool) -> DdlErrorView {
    DdlErrorView::DuplicateObject(
        super::routines::routine_word(procedure) + " \""@ + name
            + "\" already exists with same argument types"@,
    )
}

/// What `CREATE FUNCTION` does.
pub open spec fn function_created(c: CatalogView, stmt: CreateFunctionStmt) -> Step<()> {
    match ensured_names(c, texts(stmt.funcname@)) {
        (Err(e), c1) => (Err(e), c1),
        (Ok((ns, name)), c1) => match way_made(c1, ns, name, stmt) {
            (Err(e), c2) => (Err(e), c2),
            (Ok(_), c2) => match c2.allocated() {
                (Err(e), c3) => (Err(e), c3),
                (Ok(oid), c3) => (Ok(()), c3.with_proc(routine_row(c1, oid, ns, name, stmt))),
            },
        },
    }
}

// ── Carried out ─────────────────────────────────────────────────────────────

fn to_arg_mode(m: FunctionParameterMode) -> (r: ArgMode)
    ensures
        r == arg_mode(m),
{
    match m {
        FunctionParameterMode::In
        | FunctionParameterMode::Default
        | FunctionParameterMode::Undefined => ArgMode::In,
        FunctionParameterMode::Variadic => ArgMode::Variadic,
        FunctionParameterMode::InOut => ArgMode::InOut,
        FunctionParameterMode::Out => ArgMode::Out,
        FunctionParameterMode::Table => ArgMode::Table,
    }
}

fn read_signature(params: &Vec<FunctionParameter>, db: &PgCatalog) -> (r: Signature)
    ensures
        r@ == signature(db@, params@),
{
    let mut s: Signature = Signature {
        arg_types: Vec::new(),
        all_types: Vec::new(),
        modes: Vec::new(),
        names: Vec::new(),
        variadic: None,
    };
    let mut i: usize = 0;
    proof {
        assert(s@ =~= no_parameters());
    }
    while i < params.len()
        invariant
            i <= params@.len(),
            s@ == signature(db@, params@.take(i as int)),
        decreases params.len() - i,
    {
        proof {
            assert(params@.take(i + 1).drop_last() =~= params@.take(i as int));
        }
        let fp: &FunctionParameter = &params[i];
        match resolve_opt_type(&fp.arg_type, db) {
            Some(oid) => {
                let ghost before = s@;
                let mode: ArgMode = to_arg_mode(fp.mode);
                match mode {
                    ArgMode::In | ArgMode::InOut => s.arg_types.push(oid),
                    ArgMode::Variadic => {
                        s.arg_types.push(oid);
                        s.variadic = Some(oid);
                    },
                    ArgMode::Out | ArgMode::Table => {},
                }
                s.all_types.push(oid);
                s.modes.push(mode);
                s.names.push(fp.name.clone());
                proof {
                    assert(s@ =~= with_parameter(before, oid, mode, fp.name@));
                }
            },
            None => {},
        }
        i = i + 1;
    }
    proof {
        assert(params@.take(i as int) =~= params@);
    }
    s
}

fn is_plain_signature(s: &Signature) -> (r: bool)
    ensures
        r == is_plain(s@),
{
    let mut i: usize = 0;
    while i < s.modes.len()
        invariant
            i <= s.modes@.len(),
            forall|j: int| 0 <= j < i ==> #[trigger] s@.modes[j] == ArgMode::In,
        decreases s.modes.len() - i,
    {
        match s.modes[i] {
            ArgMode::In => {},
            _ => {
                proof {
                    assert(s@.modes[i as int] != ArgMode::In);
                }
                return false;
            },
        }
        i = i + 1;
    }
    let mut k: usize = 0;
    while k < s.names.len()
        invariant
            k <= s.names@.len(),
            forall|j: int| 0 <= j < k ==> (#[trigger] s@.names[j]).len() == 0,
        decreases s.names.len() - k,
    {
        if !s.names[k].as_str().is_empty() {
            proof {
                assert(s@.names[k as int].len() != 0);
            }
            return false;
        }
        k = k + 1;
    }
    true
}

fn record_signature(s: Signature) -> (r: Signature)
    ensures
        r@ == recorded(s@),
{
    if is_plain_signature(&s) {
        let r: Signature = Signature {
            arg_types: s.arg_types,
            all_types: Vec::new(),
            modes: Vec::new(),
            names: Vec::new(),
            variadic: s.variadic,
        };
        proof {
            assert(r@ =~= recorded(s@));
        }
        r
    } else {
        s
    }
}

proof fn lemma_signature_lengths(c: CatalogView, params: Seq<FunctionParameter>)
    ensures
        signature(c, params).modes.len() == signature(c, params).all_types.len(),
    decreases params.len(),
{
    if params.len() > 0 {
        lemma_signature_lengths(c, params.drop_last());
    }
}

fn find_return_type(s: &Signature, written: Option<u32>) -> (r: u32)
    requires
        s.modes@.len() == s.all_types@.len(),
    ensures
        r == return_type(s@, written),
{
    match written {
        Some(oid) => oid,
        None => {
            let mut outputs: Vec<u32> = Vec::new();
            let mut i: usize = 0;
            while i < s.modes.len()
                invariant
                    i <= s.modes@.len() == s.all_types@.len(),
                    outputs@ == output_types(s@, i as int),
                decreases s.modes.len() - i,
            {
                match s.modes[i] {
                    ArgMode::Out | ArgMode::InOut | ArgMode::Table => outputs.push(s.all_types[i]),
                    _ => {},
                }
                i = i + 1;
            }
            if outputs.len() == 0 {
                UNKNOWN
            } else if outputs.len() == 1 {
                outputs[0]
            } else {
                RECORD
            }
        },
    }
}

fn has_strict(options: &Vec<DefElem>) -> (r: bool)
    ensures
        r == is_strict(options@),
{
    let mut i: usize = 0;
    while i < options.len()
        invariant
            i <= options@.len(),
            forall|j: int| 0 <= j < i ==> !#[trigger] says_strict(options@[j]),
        decreases options.len() - i,
    {
        let on: bool = match options[i].arg {
            DefArg::Integer(n) => n == 1,
            DefArg::Boolean(b) => b,
            _ => false,
        };
        if on && same_text(options[i].defname.as_str(), "strict") {
            proof {
                assert(says_strict(options@[i as int]));
            }
            return true;
        }
        i = i + 1;
    }
    false
}

fn find_volatility(options: &Vec<DefElem>) -> (r: ProVolatile)
    ensures
        r == declared_volatility(options@, 0),
{
    let mut i: usize = 0;
    while i < options.len()
        invariant
            i <= options@.len(),
            declared_volatility(options@, 0) == declared_volatility(options@, i as int),
        decreases options.len() - i,
    {
        match &options[i].arg {
            DefArg::Text(word) => {
                if same_text(options[i].defname.as_str(), "volatility") {
                    return if same_text(word.as_str(), "immutable") {
                        ProVolatile::Immutable
                    } else if same_text(word.as_str(), "stable") {
                        ProVolatile::Stable
                    } else {
                        ProVolatile::Volatile
                    };
                }
            },
            _ => {},
        }
        i = i + 1;
    }
    ProVolatile::Volatile
}

proof fn lemma_same_arguments(c: CatalogView, oids: Seq<u32>, n: int, args: Seq<u32>)
    requires
        0 <= n <= oids.len(),
        same_arguments(c, oids.take(n), args) is Some,
    ensures
        same_arguments(c, oids, args) == same_arguments(c, oids.take(n), args),
    decreases oids.len(),
{
    if n < oids.len() {
        assert(oids.drop_last().take(n) =~= oids.take(n));
        lemma_same_arguments(c, oids.drop_last(), n, args);
    } else {
        assert(oids.take(n) =~= oids);
    }
}

fn find_same_arguments(db: &PgCatalog, oids: &Vec<u32>, args: &Vec<u32>) -> (r: Option<u32>)
    ensures
        r == same_arguments(db@, oids@, args@),
{
    let mut i: usize = 0;
    while i < oids.len()
        invariant
            i <= oids@.len(),
            same_arguments(db@, oids@.take(i as int), args@) is None,
        decreases oids.len() - i,
    {
        proof {
            assert(oids@.take(i + 1).drop_last() =~= oids@.take(i as int));
        }
        match db.pg_proc.get(oids[i]) {
            Some(p) => {
                if same_numbers(&p.proargtypes, args) {
                    proof {
                        lemma_same_arguments(db@, oids@, i + 1, args@);
                    }
                    return Some(oids[i]);
                }
            },
            None => {},
        }
        i = i + 1;
    }
    proof {
        assert(oids@.take(i as int) =~= oids@);
    }
    None
}

fn build_routine(db: &PgCatalog, ns: u32, name: &str, stmt: &CreateFunctionStmt) -> (r: PgProc)
    ensures
        r@ == routine_row(db@, 0, ns, name@, *stmt),
{
    proof {
        lemma_signature_lengths(db@, stmt.parameters@);
    }
    let s: Signature = record_signature(read_signature(&stmt.parameters, db));
    let written: Option<u32> = resolve_opt_type(&stmt.return_type, db);
    let prorettype: u32 = find_return_type(&s, written);
    let proretset: bool = match &stmt.return_type {
        Some(tn) => tn.setof,
        None => false,
    };
    let prokind: ProKind = if stmt.is_procedure {
        ProKind::Procedure
    } else {
        ProKind::Function
    };
    PgProc {
        oid: 0,
        proname: name.to_owned(),
        pronamespace: ns,
        prokind,
        proargtypes: s.arg_types,
        prorettype,
        proretset,
        provariadic: s.variadic,
        proisstrict: has_strict(&stmt.options),
        pronargdefaults: 0,
        proallargtypes: s.all_types,
        proargmodes: s.modes,
        proargnames: s.names,
        provolatile: find_volatility(&stmt.options),
    }
}

fn taken_error(name: &str, procedure: bool) -> (r: DdlError)
    ensures
        r@ == taken(name@, procedure),
{
    let word: &'static str = if procedure {
        "procedure"
    } else {
        "function"
    };
    DdlError::DuplicateObject(
        concat4(word, " \"", name, "\" already exists with same argument types"),
    )
}

fn make_way(db: &mut PgCatalog, ns: u32, name: &str, stmt: &CreateFunctionStmt, row: &PgProc) -> (r:
    Result<(), DdlError>)
    requires
        row@ == routine_row(old(db)@, 0, ns, name@, *stmt),
    ensures
        (ddl_outcome(r), final(db)@) == way_made(old(db)@, ns, name@, *stmt),
{
    let oids: Vec<u32> = db.proc_by_qname.get(ns, name);
    match find_same_arguments(db, &oids, &row.proargtypes) {
        None => Ok(()),
        Some(old_oid) => {
            let (same_kind, same_return): (bool, bool) = match db.pg_proc.get(old_oid) {
                Some(p) => (p.prokind == row.prokind, p.prorettype == row.prorettype),
                None => return Err(taken_error(name, stmt.is_procedure)),
            };
            if stmt.replace && same_kind {
                if !same_return {
                    return Err(
                        DdlError::DuplicateObject(
                            "cannot change return type of existing function".to_owned(),
                        ),
                    );
                }
                let _gone: Option<PgProc> = db.remove_pg_proc(old_oid);
                Ok(())
            } else {
                Err(taken_error(name, stmt.is_procedure))
            }
        },
    }
}

/// Applies a `CREATE FUNCTION` or `CREATE PROCEDURE`.
///
/// # Errors
///
/// A routine with the same name and argument types is there and is not to be
/// replaced, is of another kind or returns another type; or the OIDs have run out.
pub fn create_function(db: &mut PgCatalog, stmt: &CreateFunctionStmt) -> (r: Result<(), DdlError>)
    ensures
        (ddl_outcome(r), final(db)@) == function_created(old(db)@, *stmt),
{
    let (ns, name): (u32, String) = match ensure_qualified_name(db, &stmt.funcname) {
        Ok(p) => p,
        Err(e) => return Err(e),
    };
    let mut row: PgProc = build_routine(db, ns, name.as_str(), stmt);
    match make_way(db, ns, name.as_str(), stmt, &row) {
        Ok(_) => {},
        Err(e) => return Err(e),
    }
    let oid: u32 = match db.alloc_oid() {
        Ok(oid) => oid,
        Err(e) => return Err(e),
    };
    row.oid = oid;
    db.insert_pg_proc(row);
    Ok(())
}

} // verus!

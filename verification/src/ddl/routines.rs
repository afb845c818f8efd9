//! Routines and operators by name and argument types, and how they go.

use super::dependents::{
    drop_views, find_views_depending_on_function, views_dropped, views_on,
};
use super::drop::{format_view_list, view_list};
use super::stmt::{DropItem, ObjectRef, ObjectWithArgs};
use super::util::{
    format_type_for_message, message_type, named_type, opt_named_type, resolve_opt_type,
    resolve_type_name, Step,
};
use super::{ddl_outcome, DdlError, DdlErrorView};
use crate::ast::{qualified, TypeName};
use crate::catalog::{CatalogView, PgCatalog};
use crate::expr::split_name;
use crate::lookup::{operators_on_path, opt_str};
use crate::pg_catalog::{
    PgCast, PgOperator, PgProc, PgProcView, ProKind, PG_CAST_RELID, PG_OPERATOR_RELID,
    PG_PROC_RELID,
};
use crate::table::{map_get, row_get};
use crate::text::{concat2, concat4, concat5, join, joined, texts};
use vstd::prelude::*;

verus! {

// ── Routines by name and arguments ──────────────────────────────────────────

/// What a statement calls a routine.
#[derive(Debug, Clone, Copy, PartialEq, Eq, Structural)]
pub enum RoutineKind {
    Function,
    Procedure,
    Aggregate,
}

/// Whether a routine is of the kind that a statement calls it.
pub open spec fn is_kind(k: ProKind, want: RoutineKind) -> bool {
    match want {
        RoutineKind::Function => k == ProKind::Function || k == ProKind::Window,
        RoutineKind::Procedure => k == ProKind::Procedure,
        RoutineKind::Aggregate => k == ProKind::Aggregate,
    }
}

/// Whether a routine is of a kind and, where argument types are given, has those.
pub open spec fn is_routine(p: PgProcView, want: RoutineKind, args: Option<Seq<u32>>) -> bool {
    is_kind(p.prokind, want) && match args {
        Some(l) => p.proargtypes == l,
        None => true,
    }
}

/// The first routine of a list of this kind and with these arguments.
pub open spec fn first_routine(
    c: CatalogView,
    oids: Seq<u32>,
    want: RoutineKind,
    args: Option<Seq<u32>>,
) -> Option<u32>
    decreases oids.len(),
{
    if oids.len() == 0 {
        None
    } else {
        match first_routine(c, oids.drop_last(), want, args) {
            Some(oid) => Some(oid),
            None => match c.get_proc(oids.last()) {
                Some(p) => if is_routine(p, want, args) {
                    Some(oids.last())
                } else {
                    None
                },
                None => None,
            },
        }
    }
}

/// The routine of this name, kind and, where given, argument types; without a
/// schema it is looked for along the search path.
pub open spec fn routine_named(
    c: CatalogView,
    schema: Option<Seq<char>>,
    name: Seq<char>,
    want: RoutineKind,
    args: Option<Seq<u32>>,
) -> Option<u32> {
    first_routine(c, c.find_functions(schema, name), want, args)
}

pub(crate) fn same_numbers(a: &Vec<u32>, b: &Vec<u32>) -> (r: bool)
    ensures
        r == (a@ == b@),
{
    if a.len() != b.len() {
        return false;
    }
    let mut i: usize = 0;
    while i < a.len()
        invariant
            i <= a@.len() == b@.len(),
            forall|j: int| 0 <= j < i ==> a@[j] == b@[j],
        decreases a.len() - i,
    {
        if a[i] != b[i] {
            return false;
        }
        i = i + 1;
    }
    proof {
        assert(a@ =~= b@);
    }
    true
}

pub open spec fn opt_numbers(v: Option<&Vec<u32>>) -> Option<Seq<u32>> {
    match v {
        Some(l) => Some(l@),
        None => None,
    }
}

fn fits_routine(p: &PgProc, want: RoutineKind, args: Option<&Vec<u32>>) -> (r: bool)
    ensures
        r == is_routine(p@, want, opt_numbers(args)),
{
    let kind_ok: bool = match want {
        RoutineKind::Function => match p.prokind {
            ProKind::Function => true,
            ProKind::Window => true,
            _ => false,
        },
        RoutineKind::Procedure => match p.prokind {
            ProKind::Procedure => true,
            _ => false,
        },
        RoutineKind::Aggregate => match p.prokind {
            ProKind::Aggregate => true,
            _ => false,
        },
    };
    kind_ok && match args {
        Some(l) => same_numbers(&p.proargtypes, l),
        None => true,
    }
}

proof fn lemma_first_routine(
    c: CatalogView,
    oids: Seq<u32>,
    n: int,
    want: RoutineKind,
    args: Option<Seq<u32>>,
)
    requires
        0 <= n <= oids.len(),
        first_routine(c, oids.take(n), want, args) is Some,
    ensures
        first_routine(c, oids, want, args) == first_routine(c, oids.take(n), want, args),
    decreases oids.len(),
{
    if n < oids.len() {
        assert(oids.drop_last().take(n) =~= oids.take(n));
        lemma_first_routine(c, oids.drop_last(), n, want, args);
    } else {
        assert(oids.take(n) =~= oids);
    }
}

/// The routine of this name, kind and, where given, argument types.
pub(crate) fn find_proc(
    db: &PgCatalog,
    schema: Option<&str>,
    name: &str,
    want: RoutineKind,
    args: Option<&Vec<u32>>,
) -> (r: Option<u32>)
    ensures
        r == routine_named(db@, opt_str(schema), name@, want, opt_numbers(args)),
{
    let oids: Vec<u32> = db.find_functions(schema, name);
    find_among(db, &oids, want, args)
}

/// The first schema of a path with a routine of this name, kind and arguments, and
/// the routine.
pub open spec fn routine_on_path(
    c: CatalogView,
    path: Seq<u32>,
    name: Seq<char>,
    want: RoutineKind,
    args: Option<Seq<u32>>,
) -> Option<(u32, u32)>
    decreases path.len(),
{
    if path.len() == 0 {
        None
    } else {
        match routine_on_path(c, path.drop_last(), name, want, args) {
            Some(p) => Some(p),
            None => match first_routine(c, c.procs_named(path.last(), name), want, args) {
                Some(oid) => Some((path.last(), oid)),
                None => None,
            },
        }
    }
}

proof fn lemma_routine_on_path(
    c: CatalogView,
    path: Seq<u32>,
    n: int,
    name: Seq<char>,
    want: RoutineKind,
    args: Option<Seq<u32>>,
)
    requires
        0 <= n <= path.len(),
        routine_on_path(c, path.take(n), name, want, args) is Some,
    ensures
        routine_on_path(c, path, name, want, args) == routine_on_path(
            c,
            path.take(n),
            name,
            want,
            args,
        ),
    decreases path.len(),
{
    if n < path.len() {
        assert(path.drop_last().take(n) =~= path.take(n));
        lemma_routine_on_path(c, path.drop_last(), n, name, want, args);
    } else {
        assert(path.take(n) =~= path);
    }
}

fn find_among(
    db: &PgCatalog,
    oids: &Vec<u32>,
    want: RoutineKind,
    args: Option<&Vec<u32>>,
) -> (r: Option<
    u32,
>)
    ensures
        r == first_routine(db@, oids@, want, opt_numbers(args)),
{
    let mut i: usize = 0;
    while i < oids.len()
        invariant
            i <= oids@.len(),
            first_routine(db@, oids@.take(i as int), want, opt_numbers(args)) is None,
        decreases oids.len() - i,
    {
        proof {
            assert(oids@.take(i + 1).drop_last() =~= oids@.take(i as int));
        }
        match db.pg_proc.get(oids[i]) {
            Some(p) => {
                if fits_routine(p, want, args) {
                    proof {
                        lemma_first_routine(db@, oids@, i + 1, want, opt_numbers(args));
                    }
                    return Some(oids[i]);
                }
            },
            None => {},
        }
        i = i + 1;
    }
    proof {
        assert(oids@.take(i as int) =~= oids@);
    }
    None
}

/// The schema and the OID of the routine of this name, kind and argument types.
pub(crate) fn find_placed_proc(
    db: &PgCatalog,
    schema: Option<&str>,
    name: &str,
    want: RoutineKind,
    args: Option<&Vec<u32>>,
) -> (r: Option<(u32, u32)>)
    ensures
        r == routine_on_path(
            db@,
            db@.routine_path(opt_str(schema)),
            name@,
            want,
            opt_numbers(args),
        ),
{
    let path: Vec<u32> = db.routine_path(schema);
    let mut i: usize = 0;
    while i < path.len()
        invariant
            i <= path@.len(),
            path@ == db@.routine_path(opt_str(schema)),
            routine_on_path(db@, path@.take(i as int), name@, want, opt_numbers(args)) is None,
        decreases path.len() - i,
    {
        proof {
            assert(path@.take(i + 1).drop_last() =~= path@.take(i as int));
        }
        let oids: Vec<u32> = db.proc_by_qname.get(path[i], name);
        match find_among(db, &oids, want, args) {
            Some(oid) => {
                proof {
                    lemma_routine_on_path(db@, path@, i + 1, name@, want, opt_numbers(args));
                }
                return Some((path[i], oid));
            },
            None => {},
        }
        i = i + 1;
    }
    proof {
        assert(path@.take(i as int) =~= path@);
    }
    None
}

// ── Argument types ──────────────────────────────────────────────────────────

/// The types of the arguments that are written, as far as they are known.
pub open spec fn known_args(c: CatalogView, args: Seq<Option<TypeName>>) -> Seq<u32>
    decreases args.len(),
{
    if args.len() == 0 {
        Seq::empty()
    } else {
        match opt_named_type(c, args.last()) {
            Some(oid) => known_args(c, args.drop_last()).push(oid),
            None => known_args(c, args.drop_last()),
        }
    }
}

pub(crate) fn resolve_args(args: &Vec<Option<TypeName>>, db: &PgCatalog) -> (r: Vec<u32>)
    ensures
        r@ == known_args(db@, args@),
{
    let mut r: Vec<u32> = Vec::new();
    let mut i: usize = 0;
    while i < args.len()
        invariant
            i <= args@.len(),
            r@ == known_args(db@, args@.take(i as int)),
        decreases args.len() - i,
    {
        proof {
            assert(args@.take(i + 1).drop_last() =~= args@.take(i as int));
        }
        match resolve_opt_type(&args[i], db) {
            Some(oid) => r.push(oid),
            None => {},
        }
        i = i + 1;
    }
    proof {
        assert(args@.take(i as int) =~= args@);
    }
    r
}

/// Types as messages list them.
pub open spec fn arg_list(c: CatalogView, oids: Seq<u32>) -> Seq<char> {
    joined(oids.map_values(|oid: u32| message_type(c, oid)), ", "@)
}

/// Types as messages list them: `integer, text`.
pub(crate) fn format_arg_oids(oids: &Vec<u32>, db: &PgCatalog) -> (r: String)
    ensures
        r@ == arg_list(db@, oids@),
{
    let mut parts: Vec<String> = Vec::new();
    let mut i: usize = 0;
    while i < oids.len()
        invariant
            i <= oids@.len(),
            parts@.len() == i,
            forall|j: int| 0 <= j < i ==> #[trigger] parts@[j]@ == message_type(db@, oids@[j]),
        decreases oids.len() - i,
    {
        parts.push(format_type_for_message(db, oids[i]));
        i = i + 1;
    }
    proof {
        assert(texts(parts@) =~= oids@.map_values(|oid: u32| message_type(db@, oid)));
    }
    join(&parts, ", ")
}

// ── DROP FUNCTION, PROCEDURE, AGGREGATE ─────────────────────────────────────

/// The catalog without a routine.
pub open spec fn without_routine(c: CatalogView, oid: u32) -> CatalogView {
    c.without_proc(oid).without_dependencies(PG_PROC_RELID, oid)
}

/// What dropping a routine that is there does. `kind` and `role` are how the error
/// calls it.
pub open spec fn known_routine_drop(
    c: CatalogView,
    oid: u32,
    name: Seq<char>,
    args: Seq<u32>,
    cascade: bool,
    kind: Seq<char>,
    role: Seq<char>,
) -> Step<()> {
    let views = views_on(c, PG_PROC_RELID, oid, None);
    if views.len() > 0 && !cascade {
        (
            Err(
                DdlErrorView::DependencyError(
                    "cannot drop "@ + kind + " "@ + name + "("@ + arg_list(c, args)
                        + ") because other objects depend on it (view(s) "@ + view_list(c, views)
                        + " depend on this "@ + role + ")"@,
                ),
            ),
            c,
        )
    } else if views.len() > 0 {
        (Ok(()), without_routine(views_dropped(c, views, Seq::empty()), oid))
    } else {
        (Ok(()), without_routine(c, oid))
    }
}

/// What messages call functions and procedures.
pub open spec fn routine_word(procedure: bool) -> Seq<char> {
    if procedure {
        "procedure"@
    } else {
        "function"@
    }
}

/// What dropping a function or procedure does.
pub open spec fn function_drop(
    c: CatalogView,
    obj: ObjectRef,
    missing_ok: bool,
    cascade: bool,
    procedure: bool,
) -> Step<()> {
    match obj {
        ObjectRef::WithArgs(o) => match qualified(texts(o.objname@)) {
            None => (Ok(()), c),
            Some((schema, name)) => {
                let args = known_args(c, o.objargs@);
                let wanted = if o.objargs@.len() == 0 && o.args_unspecified {
                    None
                } else {
                    Some(args)
                };
                let want = if procedure {
                    RoutineKind::Procedure
                } else {
                    RoutineKind::Function
                };
                match routine_named(c, schema, name, want, wanted) {
                    None => if missing_ok {
                        (Ok(()), c)
                    } else {
                        (
                            Err(
                                DdlErrorView::DependencyError(
                                    routine_word(procedure) + " "@ + name + " does not exist"@,
                                ),
                            ),
                            c,
                        )
                    },
                    Some(oid) => known_routine_drop(
                        c,
                        oid,
                        name,
                        args,
                        cascade,
                        routine_word(procedure),
                        routine_word(procedure),
                    ),
                }
            },
        },
        _ => (Ok(()), c),
    }
}

/// What dropping an aggregate does.
pub open spec fn aggregate_drop(
    c: CatalogView,
    obj: ObjectRef,
    missing_ok: bool,
    cascade: bool,
) -> Step<
    (),
> {
    match obj {
        ObjectRef::WithArgs(o) => match qualified(texts(o.objname@)) {
            None => (Ok(()), c),
            Some((schema, name)) => {
                let args = known_args(c, o.objargs@);
                match routine_named(c, schema, name, RoutineKind::Aggregate, Some(args)) {
                    None => if missing_ok {
                        (Ok(()), c)
                    } else {
                        (
                            Err(
                                DdlErrorView::DependencyError(
                                    "aggregate "@ + name + "("@ + arg_list(c, args)
                                        + ") does not exist"@,
                                ),
                            ),
                            c,
                        )
                    },
                    Some(oid) => known_routine_drop(
                        c,
                        oid,
                        name,
                        args,
                        cascade,
                        "function"@,
                        "aggregate"@,
                    ),
                }
            },
        },
        _ => (Ok(()), c),
    }
}

fn drop_known_routine(
    db: &mut PgCatalog,
    oid: u32,
    name: &str,
    args: &Vec<u32>,
    cascade: bool,
    kind: &str,
    role: &str,
) -> (r: Result<(), DdlError>)
    ensures
        (ddl_outcome(r), final(db)@) == known_routine_drop(
            old(db)@,
            oid,
            name@,
            args@,
            cascade,
            kind@,
            role@,
        ),
{
    let views: Vec<u32> = find_views_depending_on_function(db, oid);
    if views.len() > 0 && !cascade {
        let arg_text: String = format_arg_oids(args, db);
        let list: String = format_view_list(db, &views);
        let head: String = concat5("cannot drop ", kind, " ", name, "(");
        let middle: String = concat4(
            head.as_str(),
            arg_text.as_str(),
            ") because other objects depend on it (view(s) ",
            list.as_str(),
        );
        return Err(
            DdlError::DependencyError(concat4(middle.as_str(), " depend on this ", role, ")")),
        );
    }
    if views.len() > 0 {
        drop_views(db, &views);
    }
    let _row: Option<PgProc> = db.remove_pg_proc(oid);
    db.remove_dependencies(PG_PROC_RELID, oid);
    Ok(())
}

pub(crate) fn drop_function(
    db: &mut PgCatalog,
    obj: &ObjectRef,
    missing_ok: bool,
    cascade: bool,
    procedure: bool,
) -> (r: Result<(), DdlError>)
    ensures
        (ddl_outcome(r), final(db)@) == function_drop(
            old(db)@,
            *obj,
            missing_ok,
            cascade,
            procedure,
        ),
{
    let o: &ObjectWithArgs = match obj {
        ObjectRef::WithArgs(o) => o,
        _ => return Ok(()),
    };
    let (schema, name): (Option<&str>, &str) = match split_name(&o.objname) {
        Some(p) => p,
        None => return Ok(()),
    };
    let args: Vec<u32> = resolve_args(&o.objargs, db);
    let want: RoutineKind = if procedure {
        RoutineKind::Procedure
    } else {
        RoutineKind::Function
    };
    let word: &'static str = if procedure {
        "procedure"
    } else {
        "function"
    };
    let target: Option<u32> = if o.objargs.len() == 0 && o.args_unspecified {
        find_proc(db, schema, name, want, None)
    } else {
        find_proc(db, schema, name, want, Some(&args))
    };
    match target {
        None => {
            if missing_ok {
                return Ok(());
            }
            Err(DdlError::DependencyError(concat4(word, " ", name, " does not exist")))
        },
        Some(oid) => drop_known_routine(db, oid, name, &args, cascade, word, word),
    }
}

pub(crate) fn drop_aggregate(
    db: &mut PgCatalog,
    obj: &ObjectRef,
    missing_ok: bool,
    cascade: bool,
) -> (r:
    Result<(), DdlError>)
    ensures
        (ddl_outcome(r), final(db)@) == aggregate_drop(old(db)@, *obj, missing_ok, cascade),
{
    let o: &ObjectWithArgs = match obj {
        ObjectRef::WithArgs(o) => o,
        _ => return Ok(()),
    };
    let (schema, name): (Option<&str>, &str) = match split_name(&o.objname) {
        Some(p) => p,
        None => return Ok(()),
    };
    let args: Vec<u32> = resolve_args(&o.objargs, db);
    match find_proc(db, schema, name, RoutineKind::Aggregate, Some(&args)) {
        None => {
            if missing_ok {
                return Ok(());
            }
            let arg_text: String = format_arg_oids(&args, db);
            Err(
                DdlError::DependencyError(
                    concat5("aggregate ", name, "(", arg_text.as_str(), ") does not exist"),
                ),
            )
        },
        Some(oid) => drop_known_routine(db, oid, name, &args, cascade, "function", "aggregate"),
    }
}

// ── DROP OPERATOR ───────────────────────────────────────────────────────────

/// The first operator of a list with just these operand types.
pub open spec fn first_exact_operator(
    c: CatalogView,
    oids: Seq<u32>,
    left: Option<u32>,
    right: u32,
) -> Option<u32>
    decreases oids.len(),
{
    if oids.len() == 0 {
        None
    } else {
        match first_exact_operator(c, oids.drop_last(), left, right) {
            Some(oid) => Some(oid),
            None => match row_get::<PgOperator>(c.pg_operator, oids.last()) {
                Some(o) => if o.oprleft == left && o.oprright == right {
                    Some(oids.last())
                } else {
                    None
                },
                None => None,
            },
        }
    }
}

/// The types on the two sides of an operator; one type stands on the right.
pub open spec fn operand_types(c: CatalogView, args: Seq<Option<TypeName>>) -> (
    Option<u32>,
    Option<u32>,
) {
    if args.len() == 2 {
        (opt_named_type(c, args[0]), opt_named_type(c, args[1]))
    } else if args.len() == 1 {
        (None, opt_named_type(c, args[0]))
    } else {
        (None, None)
    }
}

/// What dropping an operator does.
pub open spec fn operator_drop(c: CatalogView, obj: ObjectRef, missing_ok: bool) -> Step<()> {
    match obj {
        ObjectRef::WithArgs(o) => match (
            qualified(texts(o.objname@)),
            operand_types(c, o.objargs@),
        ) {
            (Some((schema, name)), (left, Some(right))) => match first_exact_operator(
                c,
                operators_on_path(c, c.routine_path(schema), name),
                left,
                right,
            ) {
                None => if missing_ok {
                    (Ok(()), c)
                } else {
                    (
                        Err(
                            DdlErrorView::DependencyError(
                                "operator does not exist: "@ + (match left {
                                    Some(l) => message_type(c, l),
                                    None => "NONE"@,
                                }) + " "@ + name + " "@ + message_type(c, right),
                            ),
                        ),
                        c,
                    )
                },
                Some(oid) => (
                    Ok(()),
                    c.without_operator(oid).without_dependencies(PG_OPERATOR_RELID, oid),
                ),
            },
            _ => (Ok(()), c),
        },
        _ => (Ok(()), c),
    }
}

proof fn lemma_first_exact_operator(
    c: CatalogView,
    oids: Seq<u32>,
    n: int,
    left: Option<u32>,
    right: u32,
)
    requires
        0 <= n <= oids.len(),
        first_exact_operator(c, oids.take(n), left, right) is Some,
    ensures
        first_exact_operator(c, oids, left, right) == first_exact_operator(
            c,
            oids.take(n),
            left,
            right,
        ),
    decreases oids.len(),
{
    if n < oids.len() {
        assert(oids.drop_last().take(n) =~= oids.take(n));
        lemma_first_exact_operator(c, oids.drop_last(), n, left, right);
    } else {
        assert(oids.take(n) =~= oids);
    }
}

fn same_opt(a: Option<u32>, b: Option<u32>) -> (r: bool)
    ensures
        r == (a == b),
{
    match (a, b) {
        (Some(x), Some(y)) => x == y,
        (None, None) => true,
        _ => false,
    }
}

fn find_operator(
    db: &PgCatalog,
    schema: Option<&str>,
    name: &str,
    left: Option<u32>,
    right: u32,
) -> (r: Option<u32>)
    ensures
        r == first_exact_operator(
            db@,
            operators_on_path(db@, db@.routine_path(opt_str(schema)), name@),
            left,
            right,
        ),
{
    let oids: Vec<u32> = db.find_operators(schema, name);
    let mut i: usize = 0;
    while i < oids.len()
        invariant
            i <= oids@.len(),
            oids@ == operators_on_path(db@, db@.routine_path(opt_str(schema)), name@),
            first_exact_operator(db@, oids@.take(i as int), left, right) is None,
        decreases oids.len() - i,
    {
        proof {
            assert(oids@.take(i + 1).drop_last() =~= oids@.take(i as int));
        }
        match db.pg_operator.get(oids[i]) {
            Some(o) => {
                if same_opt(o.oprleft, left) && o.oprright == right {
                    proof {
                        lemma_first_exact_operator(db@, oids@, i + 1, left, right);
                    }
                    return Some(oids[i]);
                }
            },
            None => {},
        }
        i = i + 1;
    }
    proof {
        assert(oids@.take(i as int) =~= oids@);
    }
    None
}

fn parse_operator_arg_types(args: &Vec<Option<TypeName>>, db: &PgCatalog) -> (r: (
    Option<u32>,
    Option<u32>,
))
    ensures
        r == operand_types(db@, args@),
{
    if args.len() == 2 {
        (resolve_opt_type(&args[0], db), resolve_opt_type(&args[1], db))
    } else if args.len() == 1 {
        (None, resolve_opt_type(&args[0], db))
    } else {
        (None, None)
    }
}

pub(crate) fn drop_operator(db: &mut PgCatalog, obj: &ObjectRef, missing_ok: bool) -> (r: Result<
    (),
    DdlError,
>)
    ensures
        (ddl_outcome(r), final(db)@) == operator_drop(old(db)@, *obj, missing_ok),
{
    let o: &ObjectWithArgs = match obj {
        ObjectRef::WithArgs(o) => o,
        _ => return Ok(()),
    };
    let (schema, name): (Option<&str>, &str) = match split_name(&o.objname) {
        Some(p) => p,
        None => return Ok(()),
    };
    let (left, right_opt): (Option<u32>, Option<u32>) = parse_operator_arg_types(&o.objargs, db);
    let right: u32 = match right_opt {
        Some(oid) => oid,
        None => return Ok(()),
    };
    match find_operator(db, schema, name, left, right) {
        None => {
            if missing_ok {
                return Ok(());
            }
            let left_name: String = match left {
                Some(l) => format_type_for_message(db, l),
                None => "NONE".to_owned(),
            };
            let right_name: String = format_type_for_message(db, right);
            let head: String = concat2("operator does not exist: ", left_name.as_str());
            Err(
                DdlError::DependencyError(
                    concat5(head.as_str(), " ", name, " ", right_name.as_str()),
                ),
            )
        },
        Some(oid) => {
            let _row: Option<PgOperator> = db.remove_pg_operator(oid);
            db.remove_dependencies(PG_OPERATOR_RELID, oid);
            Ok(())
        },
    }
}

// ── DROP CAST ───────────────────────────────────────────────────────────────

/// The type that a node in a list names.
pub open spec fn item_type(c: CatalogView, item: DropItem) -> Option<u32> {
    match item {
        DropItem::TypeName(tn) => named_type(c, tn),
        _ => None,
    }
}

/// What dropping a cast does.
pub open spec fn cast_drop(c: CatalogView, obj: ObjectRef, missing_ok: bool) -> Step<()> {
    match obj {
        ObjectRef::List(items) => if items@.len() != 2 {
            (Ok(()), c)
        } else {
            match (item_type(c, items@[0]), item_type(c, items@[1])) {
                (Some(source), Some(target)) => match map_get(c.cast_by_pair, (source, target)) {
                    Some(oid) => (
                        Ok(()),
                        c.without_cast(oid).without_dependencies_of(PG_CAST_RELID, oid),
                    ),
                    None => if missing_ok {
                        (Ok(()), c)
                    } else {
                        (
                            Err(
                                DdlErrorView::DependencyError(
                                    "cast from type "@ + message_type(c, source) + " to type "@
                                        + message_type(c, target) + " does not exist"@,
                                ),
                            ),
                            c,
                        )
                    },
                },
                _ => if missing_ok {
                    (Ok(()), c)
                } else {
                    (Err(DdlErrorView::TypeNotFound("cast source or target type"@)), c)
                },
            }
        },
        _ => (Ok(()), c),
    }
}

fn resolve_item(item: &DropItem, db: &PgCatalog) -> (r: Option<u32>)
    ensures
        r == item_type(db@, *item),
{
    match item {
        DropItem::TypeName(tn) => resolve_type_name(tn, db),
        _ => None,
    }
}

pub(crate) fn drop_cast(db: &mut PgCatalog, obj: &ObjectRef, missing_ok: bool) -> (r: Result<
    (),
    DdlError,
>)
    ensures
        (ddl_outcome(r), final(db)@) == cast_drop(old(db)@, *obj, missing_ok),
{
    let items: &Vec<DropItem> = match obj {
        ObjectRef::List(items) => items,
        _ => return Ok(()),
    };
    if items.len() != 2 {
        return Ok(());
    }
    match (resolve_item(&items[0], db), resolve_item(&items[1], db)) {
        (Some(source), Some(target)) => match db.cast_by_pair.get(source, target) {
            Some(oid) => {
                let _row: Option<PgCast> = db.remove_pg_cast(oid);
                db.remove_dependencies_of(PG_CAST_RELID, oid);
                Ok(())
            },
            None => {
                if missing_ok {
                    return Ok(());
                }
                let source_name: String = format_type_for_message(db, source);
                let target_name: String = format_type_for_message(db, target);
                Err(
                    DdlError::DependencyError(
                        concat5(
                            "cast from type ",
                            source_name.as_str(),
                            " to type ",
                            target_name.as_str(),
                            " does not exist",
                        ),
                    ),
                )
            },
        },
        _ => {
            if missing_ok {
                return Ok(());
            }
            Err(DdlError::TypeNotFound("cast source or target type".to_owned()))
        },
    }
}

} // verus!

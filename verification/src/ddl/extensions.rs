//! The versions of extensions and the scripts that lead from one to another.

use super::stmt::{DefArg, DefElem, ExtensionDef, ExtensionVersion};
use super::{DdlError, DdlErrorView};
use crate::catalog::{CatalogView, PgCatalog};
use crate::pg_catalog::{
    DepType, PgCast, PgDepend, PgProc, PgType, PG_CAST_RELID, PG_EXTENSION_RELID, PG_PROC_RELID,
    PG_TYPE_RELID,
};
use crate::table::row_keys;
use crate::text::{concat3, concat5, same_text};
use vstd::prelude::*;

verus! {

// ── Versions ────────────────────────────────────────────────────────────────

/// A version without its script.
#[verifier::ext_equal]
pub struct VersionView {
    pub version: Seq<char>,
    pub from: Option<Seq<char>>,
}

/// A version without its script.
pub open spec fn version_view(v: ExtensionVersion) -> VersionView {
    VersionView {
        version: v.version@,
        from: match v.from {
            Some(s) => Some(s@),
            None => None,
        },
    }
}

/// The versions of an extension without their scripts.
pub open spec fn version_views(vs: Seq<ExtensionVersion>) -> Seq<VersionView> {
    vs.map_values(|v: ExtensionVersion| version_view(v))
}

/// The position of the first version from `i` on that starts from `from`, or the
/// number of versions.
pub open spec fn version_from(vs: Seq<VersionView>, from: Option<Seq<char>>, i: int) -> int
    decreases vs.len() - i,
{
    if i < 0 || i >= vs.len() {
        vs.len() as int
    } else if vs[i].from == from {
        i
    } else {
        version_from(vs, from, i + 1)
    }
}

/// The greatest number of upgrades that are tried.
pub const MAX_UPGRADES: usize = 100;

/// The upgrades that lead from one version to another, behind `path`; or the version
/// at which they end.
pub open spec fn upgrades(
    vs: Seq<VersionView>,
    current: Seq<char>,
    target: Seq<char>,
    path: Seq<int>,
    fuel: nat,
) -> Result<Seq<int>, Seq<char>>
    decreases fuel,
{
    let i = version_from(vs, Some(current), 0);
    if fuel == 0 || i >= vs.len() {
        Err(current)
    } else if vs[i].version == target {
        Ok(path.push(i))
    } else {
        upgrades(vs, vs[i].version, target, path.push(i), (fuel - 1) as nat)
    }
}

/// The versions whose scripts install an extension at a version: a base, then
/// upgrades.
pub open spec fn install_path(name: Seq<char>, vs: Seq<VersionView>, target: Seq<char>) -> Result<
    Seq<int>,
    DdlErrorView,
> {
    let base = version_from(vs, None, 0);
    if base >= vs.len() {
        Err(
            DdlErrorView::ExtensionError(
                "extension '"@ + name + "' has no base install version"@,
            ),
        )
    } else if vs[base].version == target {
        Ok(seq![base])
    } else {
        match upgrades(vs, vs[base].version, target, seq![base], MAX_UPGRADES as nat) {
            Ok(path) => Ok(path),
            Err(reached) => Err(
                DdlErrorView::ExtensionError(
                    "no install path for extension '"@ + name + "' to version '"@ + target
                        + "' (reached '"@ + reached + "')"@,
                ),
            ),
        }
    }
}

/// The versions whose scripts upgrade an extension from one version to another.
pub open spec fn upgrade_path(
    name: Seq<char>,
    vs: Seq<VersionView>,
    from: Seq<char>,
    target: Seq<char>,
) -> Result<Seq<int>, DdlErrorView> {
    match upgrades(vs, from, target, Seq::empty(), MAX_UPGRADES as nat) {
        Ok(path) => Ok(path),
        Err(reached) => Err(
            DdlErrorView::ExtensionError(
                "no upgrade path for extension '"@ + name + "' from '"@ + from + "' to '"@ + target
                    + "' (reached '"@ + reached + "')"@,
            ),
        ),
    }
}

// ── Laws of paths ───────────────────────────────────────────────────────────

/// Whether each version of a path is there and starts from the version before it;
/// the first starts from `start`.
pub open spec fn is_chain(vs: Seq<VersionView>, path: Seq<int>, start: Option<Seq<char>>) -> bool {
    forall|k: int|
        #![trigger path[k]]
        0 <= k < path.len() ==> 0 <= path[k] < vs.len() && vs[path[k]].from == if k == 0 {
            start
        } else {
            Some(vs[path[k - 1]].version)
        }
}

/// A path that installs an extension begins with a base, each script starts from the
/// version that the one before it led to, and the last leads to the version that was
/// asked for.
pub proof fn law_install_path_leads_to_target(
    name: Seq<char>,
    vs: Seq<VersionView>,
    target: Seq<char>,
)
    ensures
        install_path(name, vs, target) matches Ok(path) ==> {
            &&& path.len() > 0
            &&& is_chain(vs, path, None)
            &&& vs[path.last()].version == target
        },
{
    let base = version_from(vs, None, 0);
    lemma_version_from(vs, None, 0);
    if base < vs.len() && vs[base].version != target {
        lemma_upgrades(vs, vs[base].version, target, seq![base], MAX_UPGRADES as nat, None);
    }
}

/// A path that upgrades an extension begins at the installed version, each script
/// starts from the version that the one before it led to, and the last leads to the
/// version that was asked for.
pub proof fn law_upgrade_path_leads_to_target(
    name: Seq<char>,
    vs: Seq<VersionView>,
    from: Seq<char>,
    target: Seq<char>,
)
    ensures
        upgrade_path(name, vs, from, target) matches Ok(path) ==> {
            &&& path.len() > 0
            &&& is_chain(vs, path, Some(from))
            &&& vs[path.last()].version == target
        },
{
    lemma_upgrades(vs, from, target, Seq::empty(), MAX_UPGRADES as nat, Some(from));
}

proof fn lemma_version_from(vs: Seq<VersionView>, from: Option<Seq<char>>, i: int)
    requires
        0 <= i <= vs.len(),
    ensures
        i <= version_from(vs, from, i) <= vs.len(),
        version_from(vs, from, i) < vs.len() ==> vs[version_from(vs, from, i)].from == from,
    decreases vs.len() - i,
{
    if i < vs.len() && vs[i].from != from {
        lemma_version_from(vs, from, i + 1);
    }
}

proof fn lemma_upgrades(
    vs: Seq<VersionView>,
    current: Seq<char>,
    target: Seq<char>,
    path: Seq<int>,
    fuel: nat,
    start: Option<Seq<char>>,
)
    requires
        is_chain(vs, path, start),
        path.len() == 0 ==> start == Some(current),
        path.len() > 0 ==> vs[path.last()].version == current,
    ensures
        upgrades(vs, current, target, path, fuel) matches Ok(p) ==> {
            &&& p.len() > 0
            &&& is_chain(vs, p, start)
            &&& vs[p.last()].version == target
        },
    decreases fuel,
{
    let i = version_from(vs, Some(current), 0);
    lemma_version_from(vs, Some(current), 0);
    if fuel > 0 && i < vs.len() {
        let next = path.push(i);
        assert(is_chain(vs, next, start)) by {
            assert forall|k: int|
                #![trigger next[k]]
                0 <= k < next.len() implies 0 <= next[k] < vs.len() && vs[next[k]].from == if k
                == 0 {
                start
            } else {
                Some(vs[next[k - 1]].version)
            } by {
                if k < path.len() {
                    assert(next[k] == path[k]);
                    if k > 0 {
                        assert(next[k - 1] == path[k - 1]);
                    }
                } else if k > 0 {
                    assert(next[k - 1] == path.last());
                }
            }
        }
        if vs[i].version != target {
            lemma_upgrades(vs, vs[i].version, target, next, (fuel - 1) as nat, start);
        }
    }
}

// ── Paths, found ────────────────────────────────────────────────────────────

/// Positions as numbers.
pub open spec fn positions(v: Seq<usize>) -> Seq<int> {
    v.map_values(|i: usize| i as int)
}

/// A path, or why there is none, as a value.
pub open spec fn path_view(r: Result<Vec<usize>, DdlError>) -> Result<Seq<int>, DdlErrorView> {
    match r {
        Ok(p) => Ok(positions(p@)),
        Err(e) => Err(e@),
    }
}

fn starts_from(v: &ExtensionVersion, from: Option<&str>) -> (r: bool)
    ensures
        r == (version_view(*v).from == crate::lookup::opt_str(from)),
{
    match (&v.from, from) {
        (Some(a), Some(b)) => same_text(a.as_str(), b),
        (None, None) => true,
        _ => false,
    }
}

fn find_version_from(vs: &Vec<ExtensionVersion>, from: Option<&str>) -> (r: usize)
    ensures
        r == version_from(version_views(vs@), crate::lookup::opt_str(from), 0),
        r <= vs@.len(),
{
    let ghost views = version_views(vs@);
    let ghost wanted = crate::lookup::opt_str(from);
    let mut i: usize = 0;
    while i < vs.len()
        invariant
            views == version_views(vs@),
            wanted == crate::lookup::opt_str(from),
            i <= vs@.len(),
            version_from(views, wanted, 0) == version_from(views, wanted, i as int),
        decreases vs.len() - i,
    {
        proof {
            assert(views[i as int] == version_view(vs@[i as int]));
        }
        if starts_from(&vs[i], from) {
            return i;
        }
        i = i + 1;
    }
    i
}

fn find_upgrades(ext: &ExtensionDef, start: &str, target: &str, begun: Vec<usize>) -> (r: Result<
    Vec<usize>,
    String,
>)
    requires
        forall|k: int| 0 <= k < begun@.len() ==> #[trigger] begun@[k] < ext.versions@.len(),
    ensures
        (match r {
            Ok(p) => Ok::<Seq<int>, Seq<char>>(positions(p@)),
            Err(s) => Err(s@),
        }) == upgrades(
            version_views(ext.versions@),
            start@,
            target@,
            positions(begun@),
            MAX_UPGRADES as nat,
        ),
        r matches Ok(p) ==> forall|k: int|
            0 <= k < p@.len() ==> #[trigger] p@[k] < ext.versions@.len(),
{
    let ghost vs = version_views(ext.versions@);
    let ghost begun_at = positions(begun@);
    let mut path: Vec<usize> = begun;
    let mut current: String = start.to_owned();
    let mut tries: usize = 0;
    while tries < MAX_UPGRADES
        invariant
            vs == version_views(ext.versions@),
            tries <= MAX_UPGRADES,
            forall|k: int| 0 <= k < path@.len() ==> #[trigger] path@[k] < ext.versions@.len(),
            begun_at == positions(begun@),
            upgrades(vs, start@, target@, begun_at, MAX_UPGRADES as nat) == upgrades(
                vs,
                current@,
                target@,
                positions(path@),
                (MAX_UPGRADES - tries) as nat,
            ),
        decreases MAX_UPGRADES - tries,
    {
        let i: usize = find_version_from(&ext.versions, Some(current.as_str()));
        if i >= ext.versions.len() {
            return Err(current);
        }
        proof {
            assert(vs[i as int] == version_view(ext.versions@[i as int]));
        }
        let ghost before = positions(path@);
        path.push(i);
        proof {
            assert(positions(path@) =~= before.push(i as int));
        }
        if same_text(ext.versions[i].version.as_str(), target) {
            return Ok(path);
        }
        current = ext.versions[i].version.clone();
        tries = tries + 1;
    }
    Err(current)
}

/// The scripts that install an extension at a version.
pub(crate) fn find_install_path(ext: &ExtensionDef, target: &str) -> (r: Result<
    Vec<usize>,
    DdlError,
>)
    ensures
        path_view(r) == install_path(ext.name@, version_views(ext.versions@), target@),
        r matches Ok(p) ==> forall|k: int|
            0 <= k < p@.len() ==> #[trigger] p@[k] < ext.versions@.len(),
{
    let base: usize = find_version_from(&ext.versions, None);
    if base >= ext.versions.len() {
        return Err(
            DdlError::ExtensionError(
                concat3("extension '", ext.name.as_str(), "' has no base install version"),
            ),
        );
    }
    proof {
        assert(version_views(ext.versions@)[base as int] == version_view(
            ext.versions@[base as int],
        ));
    }
    let mut path: Vec<usize> = Vec::new();
    path.push(base);
    proof {
        assert(positions(path@) =~= seq![base as int]);
    }
    let start: &str = ext.versions[base].version.as_str();
    if same_text(start, target) {
        return Ok(path);
    }
    match find_upgrades(ext, start, target, path) {
        Ok(p) => Ok(p),
        Err(reached) => {
            let head: String = concat5(
                "no install path for extension '",
                ext.name.as_str(),
                "' to version '",
                target,
                "' (reached '",
            );
            Err(DdlError::ExtensionError(concat3(head.as_str(), reached.as_str(), "')")))
        },
    }
}

/// The scripts that upgrade an extension from one version to another.
pub(crate) fn find_upgrade_path(ext: &ExtensionDef, from: &str, target: &str) -> (r: Result<
    Vec<usize>,
    DdlError,
>)
    ensures
        path_view(r) == upgrade_path(ext.name@, version_views(ext.versions@), from@, target@),
        r matches Ok(p) ==> forall|k: int|
            0 <= k < p@.len() ==> #[trigger] p@[k] < ext.versions@.len(),
{
    let path: Vec<usize> = Vec::new();
    proof {
        assert(positions(path@) =~= Seq::empty());
    }
    match find_upgrades(ext, from, target, path) {
        Ok(p) => Ok(p),
        Err(reached) => {
            let head: String = concat5(
                "no upgrade path for extension '",
                ext.name.as_str(),
                "' from '",
                from,
                "' to '",
            );
            Err(
                DdlError::ExtensionError(
                    concat5(head.as_str(), target, "' (reached '", reached.as_str(), "')"),
                ),
            )
        },
    }
}

// ── Options and the registry ────────────────────────────────────────────────

/// The text of the first option of this name from `i` on.
pub open spec fn text_option(options: Seq<DefElem>, name: Seq<char>, i: int) -> Option<Seq<char>>
    decreases options.len() - i,
{
    if i < 0 || i >= options.len() {
        None
    } else {
        match options[i].arg {
            DefArg::Text(s) => if options[i].defname@ == name {
                Some(s@)
            } else {
                text_option(options, name, i + 1)
            },
            _ => text_option(options, name, i + 1),
        }
    }
}

/// The text of the first option of this name.
pub(crate) fn extract_option(options: &Vec<DefElem>, name: &str) -> (r: Option<String>)
    ensures
        crate::text::opt_text(r) == text_option(options@, name@, 0),
{
    let mut i: usize = 0;
    while i < options.len()
        invariant
            i <= options@.len(),
            text_option(options@, name@, 0) == text_option(options@, name@, i as int),
        decreases options.len() - i,
    {
        match &options[i].arg {
            DefArg::Text(s) => {
                if same_text(options[i].defname.as_str(), name) {
                    return Some(s.clone());
                }
            },
            _ => {},
        }
        i = i + 1;
    }
    None
}

/// The position of the first extension of this name from `i` on, or the number of
/// extensions.
pub open spec fn extension_position(registry: Seq<ExtensionDef>, name: Seq<char>, i: int) -> int
    decreases registry.len() - i,
{
    if i < 0 || i >= registry.len() {
        registry.len() as int
    } else if registry[i].name@ == name {
        i
    } else {
        extension_position(registry, name, i + 1)
    }
}

pub(crate) fn find_extension(registry: &Vec<ExtensionDef>, name: &str) -> (r: usize)
    ensures
        r == extension_position(registry@, name@, 0),
        r <= registry@.len(),
{
    let mut i: usize = 0;
    while i < registry.len()
        invariant
            i <= registry@.len(),
            extension_position(registry@, name@, 0) == extension_position(
                registry@,
                name@,
                i as int,
            ),
        decreases registry.len() - i,
    {
        if same_text(registry[i].name.as_str(), name) {
            return i;
        }
        i = i + 1;
    }
    i
}

// ── What belongs to an extension ────────────────────────────────────────────

/// That an object belongs to an extension.
pub open spec fn membership(ext: u32, classid: u32, oid: u32) -> PgDepend {
    PgDepend {
        classid,
        objid: oid,
        objsubid: 0,
        refclassid: PG_EXTENSION_RELID,
        refobjid: ext,
        refobjsubid: 0,
        deptype: DepType::Extension,
    }
}

/// That those of the first `n` objects that are not in `before` belong to an
/// extension.
pub open spec fn memberships(
    ext: u32,
    classid: u32,
    before: Seq<u32>,
    now: Seq<u32>,
    n: int,
) -> Seq<
    PgDepend,
>
    decreases n,
{
    if n <= 0 {
        Seq::empty()
    } else if before.contains(now[n - 1]) {
        memberships(ext, classid, before, now, n - 1)
    } else {
        memberships(ext, classid, before, now, n - 1).push(
            membership(ext, classid, now[n - 1]),
        )
    }
}

/// The catalog in which the types, routines and casts that were not there before
/// belong to an extension.
pub open spec fn with_members(c: CatalogView, ext: u32, before: CatalogView) -> CatalogView {
    let types = row_keys::<PgType>(c.pg_type);
    let procs = row_keys::<PgProc>(c.pg_proc);
    let casts = row_keys::<PgCast>(c.pg_cast);
    CatalogView {
        pg_depend: c.pg_depend + memberships(
            ext,
            PG_TYPE_RELID,
            row_keys::<PgType>(before.pg_type),
            types,
            types.len() as int,
        ) + memberships(
            ext,
            PG_PROC_RELID,
            row_keys::<PgProc>(before.pg_proc),
            procs,
            procs.len() as int,
        ) + memberships(
            ext,
            PG_CAST_RELID,
            row_keys::<PgCast>(before.pg_cast),
            casts,
            casts.len() as int,
        ),
        ..c
    }
}

/// The OIDs of the types, routines and casts of a catalog.
pub struct KnownObjects {
    pub types: Vec<u32>,
    pub procs: Vec<u32>,
    pub casts: Vec<u32>,
}

impl KnownObjects {
    pub open spec fn are_of(&self, c: CatalogView) -> bool {
        &&& self.types@ == row_keys::<PgType>(c.pg_type)
        &&& self.procs@ == row_keys::<PgProc>(c.pg_proc)
        &&& self.casts@ == row_keys::<PgCast>(c.pg_cast)
    }
}

pub(crate) fn list_objects(db: &PgCatalog) -> (r: KnownObjects)
    ensures
        r.are_of(db@),
{
    KnownObjects { types: db.pg_type.keys(), procs: db.pg_proc.keys(), casts: db.pg_cast.keys() }
}

fn add_memberships(db: &mut PgCatalog, ext: u32, classid: u32, before: &Vec<u32>, now: &Vec<u32>)
    ensures
        final(db)@ == (CatalogView {
            pg_depend: old(db)@.pg_depend + memberships(
                ext,
                classid,
                before@,
                now@,
                now@.len() as int,
            ),
            ..old(db)@
        }),
{
    let ghost start = db@;
    let mut i: usize = 0;
    proof {
        assert(db@.pg_depend =~= start.pg_depend + Seq::<PgDepend>::empty());
    }
    while i < now.len()
        invariant
            i <= now@.len(),
            db@ == (CatalogView {
                pg_depend: start.pg_depend + memberships(ext, classid, before@, now@, i as int),
                ..start
            }),
        decreases now.len() - i,
    {
        let ghost added = memberships(ext, classid, before@, now@, i as int);
        if !super::dependents::has_number(before, now[i]) {
            db.add_dependency(
                PgDepend {
                    classid,
                    objid: now[i],
                    objsubid: 0,
                    refclassid: PG_EXTENSION_RELID,
                    refobjid: ext,
                    refobjsubid: 0,
                    deptype: DepType::Extension,
                },
            );
            proof {
                let m = membership(ext, classid, now@[i as int]);
                assert((start.pg_depend + added).push(m) =~= start.pg_depend + added.push(m));
            }
        }
        i = i + 1;
    }
}

/// Notes that what was not there before belongs to an extension.
pub(crate) fn record_extension_membership(
    db: &mut PgCatalog,
    ext: u32,
    before: &KnownObjects,
    Ghost(earlier): Ghost<CatalogView>,
)
    requires
        before.are_of(earlier),
    ensures
        final(db)@ == with_members(old(db)@, ext, earlier),
{
    let now: KnownObjects = list_objects(db);
    let ghost start = db@;
    add_memberships(db, ext, PG_TYPE_RELID, &before.types, &now.types);
    add_memberships(db, ext, PG_PROC_RELID, &before.procs, &now.procs);
    add_memberships(db, ext, PG_CAST_RELID, &before.casts, &now.casts);
    proof {
        assert(db@ =~= with_members(start, ext, earlier));
    }
}

} // verus!

//! The rows of PostgreSQL's system catalog, as far as the analyzer knows them.
//!
//! Each type stands for a table of `pg_catalog` and has its columns, under their
//! names there. An object is referred to by its OID, a number that is never
//! zero; `None` stands for the zero that PostgreSQL writes where there is no
//! such object.

use crate::table::{OwnedRow, Row};
use crate::text::texts;
use vstd::prelude::*;

verus! {

// ── OIDs of built-in types ──────────────────────────────────────────────────
pub const BOOL: u32 = 16;
pub const BYTEA: u32 = 17;
pub const NAME: u32 = 19;
pub const INT8: u32 = 20;
pub const INT2: u32 = 21;
pub const INT4: u32 = 23;
pub const TEXT: u32 = 25;
pub const FLOAT4: u32 = 700;
pub const FLOAT8: u32 = 701;
pub const UNKNOWN: u32 = 705;
pub const BPCHAR: u32 = 1042;
pub const VARCHAR: u32 = 1043;
pub const NUMERIC: u32 = 1700;
pub const RECORD: u32 = 2249;

// ── OIDs of catalog tables ──────────────────────────────────────────────────
pub const PG_NAMESPACE_RELID: u32 = 2615;
pub const PG_TYPE_RELID: u32 = 1247;
pub const PG_CLASS_RELID: u32 = 1259;
pub const PG_PROC_RELID: u32 = 1255;
pub const PG_OPERATOR_RELID: u32 = 2617;
pub const PG_CAST_RELID: u32 = 2605;
pub const PG_EXTENSION_RELID: u32 = 3079;

/// The least OID that a new object gets.
pub const USER_OID_START: u32 = 100_000;

// ── Kinds ───────────────────────────────────────────────────────────────────
/// What kind of type a `pg_type` row describes (`typtype`).
#[derive(Debug, Clone, Copy, PartialEq, Eq, Structural)]
pub enum TypType {
    Base,
    Composite,
    Domain,
    Enum,
    Pseudo,
    Range,
    Multirange,
}
/// The category by which PostgreSQL groups types (`typcategory`).
#[derive(Debug, Clone, Copy, PartialEq, Eq, Structural)]
pub enum TypCategory {
    Array,
    Boolean,
    Composite,
    DateTime,
    Enum,
    Geometric,
    Network,
    Numeric,
    Pseudo,
    Range,
    String,
    Timespan,
    UserDefined,
    BitString,
    Unknown,
    Internal,
}
/// What kind of relation a `pg_class` row describes (`relkind`).
#[derive(Debug, Clone, Copy, PartialEq, Eq, Structural)]
pub enum RelKind {
    Table,
    Index,
    Sequence,
    ToastTable,
    View,
    MaterializedView,
    CompositeType,
    ForeignTable,
    Partitioned,
    PartitionedIndex,
}
/// What kind of routine a `pg_proc` row describes (`prokind`).
#[derive(Debug, Clone, Copy, PartialEq, Eq, Structural)]
pub enum ProKind {
    Function,
    Aggregate,
    Window,
    Procedure,
}
/// How far the result of a routine may change between calls (`provolatile`).
#[derive(Debug, Clone, Copy, PartialEq, Eq, Structural)]
pub enum ProVolatile {
    Immutable,
    Stable,
    Volatile,
}
/// How a routine uses an argument (`proargmodes`).
#[derive(Debug, Clone, Copy, PartialEq, Eq, Structural)]
pub enum ArgMode {
    In,
    Out,
    InOut,
    Variadic,
    Table,
}
/// How a generated column gets its value (`attgenerated`).
#[derive(Debug, Clone, Copy, PartialEq, Eq, Structural)]
pub enum AttGenerated {
    Stored,
    Virtual,
}
/// When an identity column generates its value (`attidentity`).
#[derive(Debug, Clone, Copy, PartialEq, Eq, Structural)]
pub enum AttIdentity {
    Always,
    ByDefault,
}
/// Where a cast is applied without being written (`castcontext`).
#[derive(Debug, Clone, Copy, PartialEq, Eq, Structural)]
pub enum CastContext {
    Implicit,
    Assignment,
    Explicit,
}
/// How a cast is carried out (`castmethod`).
#[derive(Debug, Clone, Copy, PartialEq, Eq, Structural)]
pub enum CastMethod {
    Function,
    Binary,
    InOut,
}
/// The event that a rewrite rule is for (`ev_type`).
#[derive(Debug, Clone, Copy, PartialEq, Eq, Structural)]
pub enum EvType {
    Select,
    Update,
    Insert,
    Delete,
}
/// In which replication mode a rewrite rule fires (`ev_enabled`).
#[derive(Debug, Clone, Copy, PartialEq, Eq, Structural)]
pub enum EvEnabled {
    Origin,
    Replica,
    Always,
    Disabled,
}
/// What a dependency means (`deptype`).
#[derive(Debug, Clone, Copy, PartialEq, Eq, Structural)]
pub enum DepType {
    Normal,
    Auto,
    Internal,
    Extension,
    AutoExtension,
    Pin,
}
/// What a constraint demands (`contype`).
#[derive(Debug, Clone, Copy, PartialEq, Eq, Structural)]
pub enum ConType {
    Check,
    ForeignKey,
    PrimaryKey,
    Unique,
    Exclusion,
    Other,
}

/// What a name in a stored expression refers to.
#[derive(Debug, Clone, Copy, PartialEq, Eq, Structural)]
pub enum AstBinding {
    Relation(u32),
    Column(u32, i16),
    Function(u32),
    Type(u32),
    Unresolved,
}

/// An expression as it is stored: its encoded tree, and what each name in it
/// refers to, in the order of a walk through the tree.
#[derive(Debug, Clone, PartialEq, Eq)]
pub struct SerializedAst {
    pub ast: Vec<u8>,
    pub bindings: Vec<AstBinding>,
}

#[verifier::ext_equal]
pub struct SerializedAstView {
    pub ast: Seq<u8>,
    pub bindings: Seq<AstBinding>,
}

impl View for SerializedAst {
    type V = SerializedAstView;

    open spec fn view(&self) -> SerializedAstView {
        SerializedAstView { ast: self.ast@, bindings: self.bindings@ }
    }
}

/// The views of a list of stored expressions.
pub open spec fn ast_views(v: Seq<SerializedAst>) -> Seq<SerializedAstView> {
    v.map_values(|a: SerializedAst| a@)
}

/// The view of a stored expression that may be absent.
pub open spec fn opt_ast_view(v: Option<SerializedAst>) -> Option<SerializedAstView> {
    match v {
        Some(a) => Some(a@),
        None => None,
    }
}

// ── Rows ────────────────────────────────────────────────────────────────────
/// A schema.
#[derive(Debug, Clone)]
pub struct PgNamespace {
    pub oid: u32,
    pub nspname: String,
}

#[verifier::ext_equal]
pub struct PgNamespaceView {
    pub oid: u32,
    pub nspname: Seq<char>,
}

impl View for PgNamespace {
    type V = PgNamespaceView;

    open spec fn view(&self) -> PgNamespaceView {
        PgNamespaceView {
            oid: self.oid,
            nspname: self.nspname@,
        }
    }
}

impl Row for PgNamespace {
    type V = PgNamespaceView;

    open spec fn row(&self) -> PgNamespaceView {
        self@
    }

    open spec fn key_of(v: PgNamespaceView) -> u32 {
        v.oid
    }

    fn key(&self) -> (k: u32) {
        self.oid
    }
}

/// A type.
#[derive(Debug, Clone)]
pub struct PgType {
    pub oid: u32,
    pub typname: String,
    pub typnamespace: u32,
    pub typtype: TypType,
    pub typcategory: TypCategory,
    pub typispreferred: bool,
    pub typrelid: Option<u32>,
    pub typelem: Option<u32>,
    pub typarray: Option<u32>,
    pub typbasetype: Option<u32>,
    pub typnotnull: bool,
    pub typtypmod: Option<i32>,
}

#[verifier::ext_equal]
pub struct PgTypeView {
    pub oid: u32,
    pub typname: Seq<char>,
    pub typnamespace: u32,
    pub typtype: TypType,
    pub typcategory: TypCategory,
    pub typispreferred: bool,
    pub typrelid: Option<u32>,
    pub typelem: Option<u32>,
    pub typarray: Option<u32>,
    pub typbasetype: Option<u32>,
    pub typnotnull: bool,
    pub typtypmod: Option<i32>,
}

impl View for PgType {
    type V = PgTypeView;

    open spec fn view(&self) -> PgTypeView {
        PgTypeView {
            oid: self.oid,
            typname: self.typname@,
            typnamespace: self.typnamespace,
            typtype: self.typtype,
            typcategory: self.typcategory,
            typispreferred: self.typispreferred,
            typrelid: self.typrelid,
            typelem: self.typelem,
            typarray: self.typarray,
            typbasetype: self.typbasetype,
            typnotnull: self.typnotnull,
            typtypmod: self.typtypmod,
        }
    }
}

impl Row for PgType {
    type V = PgTypeView;

    open spec fn row(&self) -> PgTypeView {
        self@
    }

    open spec fn key_of(v: PgTypeView) -> u32 {
        v.oid
    }

    fn key(&self) -> (k: u32) {
        self.oid
    }
}

/// A label of an enum type. The order of the labels is the order of the rows.
#[derive(Debug, Clone)]
pub struct PgEnum {
    pub oid: u32,
    pub enumtypid: u32,
    pub enumlabel: String,
}

#[verifier::ext_equal]
pub struct PgEnumView {
    pub oid: u32,
    pub enumtypid: u32,
    pub enumlabel: Seq<char>,
}

impl View for PgEnum {
    type V = PgEnumView;

    open spec fn view(&self) -> PgEnumView {
        PgEnumView {
            oid: self.oid,
            enumtypid: self.enumtypid,
            enumlabel: self.enumlabel@,
        }
    }
}

/// The subtype of a range type.
#[derive(Debug, Clone, Copy, PartialEq, Eq, Structural)]
pub struct PgRange {
    pub rngtypid: u32,
    pub rngsubtype: u32,
}

impl Row for PgRange {
    type V = PgRange;

    open spec fn row(&self) -> PgRange {
        *self
    }

    open spec fn key_of(v: PgRange) -> u32 {
        v.rngtypid
    }

    fn key(&self) -> (k: u32) {
        self.rngtypid
    }
}

/// A constraint of a relation.
#[derive(Debug, Clone)]
pub struct PgConstraint {
    pub oid: u32,
    pub conname: String,
    pub conrelid: u32,
    pub contype: ConType,
    pub conkey: Vec<i16>,
    pub confrelid: Option<u32>,
    pub confkey: Vec<i16>,
}

#[verifier::ext_equal]
pub struct PgConstraintView {
    pub oid: u32,
    pub conname: Seq<char>,
    pub conrelid: u32,
    pub contype: ConType,
    pub conkey: Seq<i16>,
    pub confrelid: Option<u32>,
    pub confkey: Seq<i16>,
}

impl View for PgConstraint {
    type V = PgConstraintView;

    open spec fn view(&self) -> PgConstraintView {
        PgConstraintView {
            oid: self.oid,
            conname: self.conname@,
            conrelid: self.conrelid,
            contype: self.contype,
            conkey: self.conkey@,
            confrelid: self.confrelid,
            confkey: self.confkey@,
        }
    }
}

impl Row for PgConstraint {
    type V = PgConstraintView;

    open spec fn row(&self) -> PgConstraintView {
        self@
    }

    open spec fn key_of(v: PgConstraintView) -> u32 {
        v.oid
    }

    fn key(&self) -> (k: u32) {
        self.oid
    }
}

/// An index of a relation.
#[derive(Debug, Clone)]
pub struct PgIndex {
    pub indexrelid: u32,
    pub indrelid: u32,
    pub indnatts: i16,
    pub indnkeyatts: i16,
    pub indisunique: bool,
    pub indisprimary: bool,
    pub indkey: Vec<i16>,
    pub indexprs: Vec<SerializedAst>,
    pub indpred: Option<SerializedAst>,
}

#[verifier::ext_equal]
pub struct PgIndexView {
    pub indexrelid: u32,
    pub indrelid: u32,
    pub indnatts: i16,
    pub indnkeyatts: i16,
    pub indisunique: bool,
    pub indisprimary: bool,
    pub indkey: Seq<i16>,
    pub indexprs: Seq<SerializedAstView>,
    pub indpred: Option<SerializedAstView>,
}

impl View for PgIndex {
    type V = PgIndexView;

    open spec fn view(&self) -> PgIndexView {
        PgIndexView {
            indexrelid: self.indexrelid,
            indrelid: self.indrelid,
            indnatts: self.indnatts,
            indnkeyatts: self.indnkeyatts,
            indisunique: self.indisunique,
            indisprimary: self.indisprimary,
            indkey: self.indkey@,
            indexprs: ast_views(self.indexprs@),
            indpred: opt_ast_view(self.indpred),
        }
    }
}

impl Row for PgIndex {
    type V = PgIndexView;

    open spec fn row(&self) -> PgIndexView {
        self@
    }

    open spec fn key_of(v: PgIndexView) -> u32 {
        v.indexrelid
    }

    fn key(&self) -> (k: u32) {
        self.indexrelid
    }
}

/// One parent of a relation.
#[derive(Debug, Clone, Copy, PartialEq, Eq, Structural)]
pub struct PgInherits {
    pub inhrelid: u32,
    pub inhparent: u32,
    pub inhseqno: i32,
}

/// A relation.
#[derive(Debug, Clone)]
pub struct PgClass {
    pub oid: u32,
    pub relname: String,
    pub relnamespace: u32,
    pub relkind: RelKind,
    pub reltype: Option<u32>,
}

#[verifier::ext_equal]
pub struct PgClassView {
    pub oid: u32,
    pub relname: Seq<char>,
    pub relnamespace: u32,
    pub relkind: RelKind,
    pub reltype: Option<u32>,
}

impl View for PgClass {
    type V = PgClassView;

    open spec fn view(&self) -> PgClassView {
        PgClassView {
            oid: self.oid,
            relname: self.relname@,
            relnamespace: self.relnamespace,
            relkind: self.relkind,
            reltype: self.reltype,
        }
    }
}

impl Row for PgClass {
    type V = PgClassView;

    open spec fn row(&self) -> PgClassView {
        self@
    }

    open spec fn key_of(v: PgClassView) -> u32 {
        v.oid
    }

    fn key(&self) -> (k: u32) {
        self.oid
    }
}

/// A rewrite rule; the rule `_RETURN` of a view holds its body.
#[derive(Debug, Clone)]
pub struct PgRewrite {
    pub oid: u32,
    pub rulename: String,
    pub ev_class: u32,
    pub ev_type: EvType,
    pub ev_enabled: EvEnabled,
    pub is_instead: bool,
    pub ev_qual: Option<SerializedAst>,
    pub ev_action: SerializedAst,
}

#[verifier::ext_equal]
pub struct PgRewriteView {
    pub oid: u32,
    pub rulename: Seq<char>,
    pub ev_class: u32,
    pub ev_type: EvType,
    pub ev_enabled: EvEnabled,
    pub is_instead: bool,
    pub ev_qual: Option<SerializedAstView>,
    pub ev_action: SerializedAstView,
}

impl View for PgRewrite {
    type V = PgRewriteView;

    open spec fn view(&self) -> PgRewriteView {
        PgRewriteView {
            oid: self.oid,
            rulename: self.rulename@,
            ev_class: self.ev_class,
            ev_type: self.ev_type,
            ev_enabled: self.ev_enabled,
            is_instead: self.is_instead,
            ev_qual: opt_ast_view(self.ev_qual),
            ev_action: self.ev_action@,
        }
    }
}

impl Row for PgRewrite {
    type V = PgRewriteView;

    open spec fn row(&self) -> PgRewriteView {
        self@
    }

    open spec fn key_of(v: PgRewriteView) -> u32 {
        v.oid
    }

    fn key(&self) -> (k: u32) {
        self.oid
    }
}

/// A column of a relation.
#[derive(Debug, Clone)]
pub struct PgAttribute {
    pub attrelid: u32,
    pub attname: String,
    pub atttypid: u32,
    pub attnum: i16,
    pub attnotnull: bool,
    pub atthasdef: bool,
    pub attgenerated: Option<AttGenerated>,
    pub atttypmod: Option<i32>,
    pub attidentity: Option<AttIdentity>,
}

#[verifier::ext_equal]
pub struct PgAttributeView {
    pub attrelid: u32,
    pub attname: Seq<char>,
    pub atttypid: u32,
    pub attnum: i16,
    pub attnotnull: bool,
    pub atthasdef: bool,
    pub attgenerated: Option<AttGenerated>,
    pub atttypmod: Option<i32>,
    pub attidentity: Option<AttIdentity>,
}

impl View for PgAttribute {
    type V = PgAttributeView;

    open spec fn view(&self) -> PgAttributeView {
        PgAttributeView {
            attrelid: self.attrelid,
            attname: self.attname@,
            atttypid: self.atttypid,
            attnum: self.attnum,
            attnotnull: self.attnotnull,
            atthasdef: self.atthasdef,
            attgenerated: self.attgenerated,
            atttypmod: self.atttypmod,
            attidentity: self.attidentity,
        }
    }
}

/// A routine.
#[derive(Debug, Clone)]
pub struct PgProc {
    pub oid: u32,
    pub proname: String,
    pub pronamespace: u32,
    pub prokind: ProKind,
    pub proargtypes: Vec<u32>,
    pub prorettype: u32,
    pub proretset: bool,
    pub provariadic: Option<u32>,
    pub proisstrict: bool,
    pub pronargdefaults: i16,
    pub proallargtypes: Vec<u32>,
    pub proargmodes: Vec<ArgMode>,
    pub proargnames: Vec<String>,
    pub provolatile: ProVolatile,
}

#[verifier::ext_equal]
pub struct PgProcView {
    pub oid: u32,
    pub proname: Seq<char>,
    pub pronamespace: u32,
    pub prokind: ProKind,
    pub proargtypes: Seq<u32>,
    pub prorettype: u32,
    pub proretset: bool,
    pub provariadic: Option<u32>,
    pub proisstrict: bool,
    pub pronargdefaults: i16,
    pub proallargtypes: Seq<u32>,
    pub proargmodes: Seq<ArgMode>,
    pub proargnames: Seq<Seq<char>>,
    pub provolatile: ProVolatile,
}

impl View for PgProc {
    type V = PgProcView;

    open spec fn view(&self) -> PgProcView {
        PgProcView {
            oid: self.oid,
            proname: self.proname@,
            pronamespace: self.pronamespace,
            prokind: self.prokind,
            proargtypes: self.proargtypes@,
            prorettype: self.prorettype,
            proretset: self.proretset,
            provariadic: self.provariadic,
            proisstrict: self.proisstrict,
            pronargdefaults: self.pronargdefaults,
            proallargtypes: self.proallargtypes@,
            proargmodes: self.proargmodes@,
            proargnames: texts(self.proargnames@),
            provolatile: self.provolatile,
        }
    }
}

impl Row for PgProc {
    type V = PgProcView;

    open spec fn row(&self) -> PgProcView {
        self@
    }

    open spec fn key_of(v: PgProcView) -> u32 {
        v.oid
    }

    fn key(&self) -> (k: u32) {
        self.oid
    }
}

/// What is special to an aggregate.
#[derive(Debug, Clone, Copy, PartialEq, Eq, Structural)]
pub struct PgAggregate {
    pub aggfnoid: u32,
    pub aggfinalfn: Option<u32>,
}

impl Row for PgAggregate {
    type V = PgAggregate;

    open spec fn row(&self) -> PgAggregate {
        *self
    }

    open spec fn key_of(v: PgAggregate) -> u32 {
        v.aggfnoid
    }

    fn key(&self) -> (k: u32) {
        self.aggfnoid
    }
}

/// An operator.
#[derive(Debug, Clone)]
pub struct PgOperator {
    pub oid: u32,
    pub oprname: String,
    pub oprnamespace: u32,
    pub oprleft: Option<u32>,
    pub oprright: u32,
    pub oprresult: Option<u32>,
}

#[verifier::ext_equal]
pub struct PgOperatorView {
    pub oid: u32,
    pub oprname: Seq<char>,
    pub oprnamespace: u32,
    pub oprleft: Option<u32>,
    pub oprright: u32,
    pub oprresult: Option<u32>,
}

impl View for PgOperator {
    type V = PgOperatorView;

    open spec fn view(&self) -> PgOperatorView {
        PgOperatorView {
            oid: self.oid,
            oprname: self.oprname@,
            oprnamespace: self.oprnamespace,
            oprleft: self.oprleft,
            oprright: self.oprright,
            oprresult: self.oprresult,
        }
    }
}

impl Row for PgOperator {
    type V = PgOperatorView;

    open spec fn row(&self) -> PgOperatorView {
        self@
    }

    open spec fn key_of(v: PgOperatorView) -> u32 {
        v.oid
    }

    fn key(&self) -> (k: u32) {
        self.oid
    }
}

/// A cast between two types.
#[derive(Debug, Clone, Copy, PartialEq, Eq, Structural)]
pub struct PgCast {
    pub oid: u32,
    pub castsource: u32,
    pub casttarget: u32,
    pub castcontext: CastContext,
    pub castmethod: CastMethod,
}

impl Row for PgCast {
    type V = PgCast;

    open spec fn row(&self) -> PgCast {
        *self
    }

    open spec fn key_of(v: PgCast) -> u32 {
        v.oid
    }

    fn key(&self) -> (k: u32) {
        self.oid
    }
}

/// An installed extension.
#[derive(Debug, Clone)]
pub struct PgExtension {
    pub oid: u32,
    pub extname: String,
    pub extnamespace: u32,
    pub extversion: String,
}

#[verifier::ext_equal]
pub struct PgExtensionView {
    pub oid: u32,
    pub extname: Seq<char>,
    pub extnamespace: u32,
    pub extversion: Seq<char>,
}

impl View for PgExtension {
    type V = PgExtensionView;

    open spec fn view(&self) -> PgExtensionView {
        PgExtensionView {
            oid: self.oid,
            extname: self.extname@,
            extnamespace: self.extnamespace,
            extversion: self.extversion@,
        }
    }
}

impl Row for PgExtension {
    type V = PgExtensionView;

    open spec fn row(&self) -> PgExtensionView {
        self@
    }

    open spec fn key_of(v: PgExtensionView) -> u32 {
        v.oid
    }

    fn key(&self) -> (k: u32) {
        self.oid
    }
}

/// A collation.
#[derive(Debug, Clone)]
pub struct PgCollation {
    pub oid: u32,
    pub collname: String,
    pub collnamespace: u32,
    pub collencoding: i32,
}

#[verifier::ext_equal]
pub struct PgCollationView {
    pub oid: u32,
    pub collname: Seq<char>,
    pub collnamespace: u32,
    pub collencoding: i32,
}

impl View for PgCollation {
    type V = PgCollationView;

    open spec fn view(&self) -> PgCollationView {
        PgCollationView {
            oid: self.oid,
            collname: self.collname@,
            collnamespace: self.collnamespace,
            collencoding: self.collencoding,
        }
    }
}

impl Row for PgCollation {
    type V = PgCollationView;

    open spec fn row(&self) -> PgCollationView {
        self@
    }

    open spec fn key_of(v: PgCollationView) -> u32 {
        v.oid
    }

    fn key(&self) -> (k: u32) {
        self.oid
    }
}

/// An object (`classid`, `objid`) that depends on another (`refclassid`, `refobjid`).
#[derive(Debug, Clone, Copy, PartialEq, Eq, Structural)]
pub struct PgDepend {
    pub classid: u32,
    pub objid: u32,
    pub objsubid: i16,
    pub refclassid: u32,
    pub refobjid: u32,
    pub refobjsubid: i16,
    pub deptype: DepType,
}

impl OwnedRow for PgConstraint {
    open spec fn owner_of(v: PgConstraintView) -> u32 {
        v.conrelid
    }

    fn owner(&self) -> (o: u32) {
        self.conrelid
    }
}

impl OwnedRow for PgRewrite {
    open spec fn owner_of(v: PgRewriteView) -> u32 {
        v.ev_class
    }

    fn owner(&self) -> (o: u32) {
        self.ev_class
    }
}

impl OwnedRow for PgIndex {
    open spec fn owner_of(v: PgIndexView) -> u32 {
        v.indrelid
    }

    fn owner(&self) -> (o: u32) {
        self.indrelid
    }
}

impl OwnedRow for PgClass {
    open spec fn owner_of(v: PgClassView) -> u32 {
        v.relnamespace
    }

    fn owner(&self) -> (o: u32) {
        self.relnamespace
    }
}

impl OwnedRow for PgType {
    open spec fn owner_of(v: PgTypeView) -> u32 {
        v.typnamespace
    }

    fn owner(&self) -> (o: u32) {
        self.typnamespace
    }
}

impl OwnedRow for PgProc {
    open spec fn owner_of(v: PgProcView) -> u32 {
        v.pronamespace
    }

    fn owner(&self) -> (o: u32) {
        self.pronamespace
    }
}

impl OwnedRow for PgOperator {
    open spec fn owner_of(v: PgOperatorView) -> u32 {
        v.oprnamespace
    }

    fn owner(&self) -> (o: u32) {
        self.oprnamespace
    }
}

/// The columns of one relation, by ascending `attnum`.
#[derive(Debug, Clone)]
pub struct RelAttrs {
    pub relid: u32,
    pub attrs: Vec<PgAttribute>,
}

#[verifier::ext_equal]
pub struct RelAttrsView {
    pub relid: u32,
    pub attrs: Seq<PgAttributeView>,
}

/// The views of a list of columns.
pub open spec fn attr_views(v: Seq<PgAttribute>) -> Seq<PgAttributeView> {
    v.map_values(|a: PgAttribute| a@)
}

impl Row for RelAttrs {
    type V = RelAttrsView;

    open spec fn row(&self) -> RelAttrsView {
        RelAttrsView { relid: self.relid, attrs: attr_views(self.attrs@) }
    }

    open spec fn key_of(v: RelAttrsView) -> u32 {
        v.relid
    }

    fn key(&self) -> (k: u32) {
        self.relid
    }
}

/// The labels of one enum type, in their order.
#[derive(Debug, Clone)]
pub struct EnumLabels {
    pub typid: u32,
    pub labels: Vec<PgEnum>,
}

#[verifier::ext_equal]
pub struct EnumLabelsView {
    pub typid: u32,
    pub labels: Seq<PgEnumView>,
}

/// The views of a list of enum labels.
pub open spec fn label_views(v: Seq<PgEnum>) -> Seq<PgEnumView> {
    v.map_values(|a: PgEnum| a@)
}

impl Row for EnumLabels {
    type V = EnumLabelsView;

    open spec fn row(&self) -> EnumLabelsView {
        EnumLabelsView { typid: self.typid, labels: label_views(self.labels@) }
    }

    open spec fn key_of(v: EnumLabelsView) -> u32 {
        v.typid
    }

    fn key(&self) -> (k: u32) {
        self.typid
    }
}

/// A copy of a list of column numbers.
pub fn copy_attnums(v: &Vec<i16>) -> (r: Vec<i16>)
    ensures
        r@ == v@,
{
    let mut r: Vec<i16> = Vec::new();
    let mut i: usize = 0;
    while i < v.len()
        invariant
            i <= v@.len(),
            r@ == v@.take(i as int),
        decreases v.len() - i,
    {
        r.push(v[i]);
        i = i + 1;
    }
    proof {
        assert(v@.take(i as int) =~= v@);
    }
    r
}

impl PgAttribute {
    /// A copy of this row.
    pub fn copy(&self) -> (r: PgAttribute)
        ensures
            r@ == self@,
    {
        PgAttribute {
            attrelid: self.attrelid,
            attname: self.attname.clone(),
            atttypid: self.atttypid,
            attnum: self.attnum,
            attnotnull: self.attnotnull,
            atthasdef: self.atthasdef,
            attgenerated: self.attgenerated,
            atttypmod: self.atttypmod,
            attidentity: self.attidentity,
        }
    }
}

} // verus!

//! The parsed form of schema statements, as far as the interpreter reads it.

use crate::ast::{Node, RangeVar, TypeName};
use crate::error::AnalyzeError;
use vstd::prelude::*;

verus! {

/// The value of an option.
#[derive(Debug)]
pub enum DefArg {
    Missing,
    Integer(i32),
    Boolean(bool),
    Text(String),
    TypeName(TypeName),
    /// A list of names.
    Names(Vec<String>),
    Other,
}

/// An option of a statement, such as `stype = int4`.
#[derive(Debug)]
pub struct DefElem {
    pub defname: String,
    pub arg: DefArg,
}

/// What a constraint demands.
#[derive(Debug, Clone, Copy, PartialEq, Eq, Structural)]
pub enum ConstrType {
    NotNull,
    Default,
    Identity,
    Generated,
    Check,
    Primary,
    Unique,
    Foreign,
    Other,
}

/// A constraint of a column or a table.
#[derive(Debug)]
pub struct Constraint {
    pub contype: ConstrType,
    /// The name, or the empty text.
    pub conname: String,
    pub raw_expr: Option<Box<Node>>,
    /// The columns of a primary key or a unique constraint.
    pub keys: Vec<String>,
    /// The columns of a foreign key.
    pub fk_attrs: Vec<String>,
    /// The columns that a foreign key refers to; none stand for the primary key.
    pub pk_attrs: Vec<String>,
    pub pktable: Option<RangeVar>,
    /// `a` or `d` for an identity column.
    pub generated_when: String,
}

#[derive(Debug)]
pub struct ColumnDef {
    pub colname: String,
    pub target: Option<TypeName>,
    pub is_not_null: bool,
    /// It has a default.
    pub has_default: bool,
    /// `a` or `d` for an identity column, else the empty text.
    pub identity: String,
    /// Not empty for a generated column.
    pub generated: String,
    pub constraints: Vec<Constraint>,
}

/// What stands between the brackets of a `CREATE TABLE`.
#[derive(Debug)]
pub enum TableElt {
    Column(ColumnDef),
    Constraint(Constraint),
    Other,
}

#[derive(Debug)]
pub struct CreateStmt {
    pub relation: Option<RangeVar>,
    pub table_elts: Vec<TableElt>,
    pub constraints: Vec<TableElt>,
    pub inh_relations: Vec<RangeVar>,
    /// It is a partition of another table.
    pub partbound: bool,
    pub if_not_exists: bool,
}

/// A column of an analyzed query.
#[derive(Debug)]
pub struct RawColumn {
    pub name: String,
    pub type_oid: u32,
    pub typmod: Option<i32>,
    pub nullable: bool,
}

/// A query that a relation is made from.
#[derive(Debug)]
pub struct StoredQuery {
    /// The query; none where the parser gave an empty node.
    pub node: Option<Box<Node>>,
    /// The columns of the query, or why it could not be analyzed.
    pub analysis: Result<Vec<RawColumn>, AnalyzeError>,
    /// The query in its encoded form.
    pub ast: Vec<u8>,
}

#[derive(Debug)]
pub struct ViewStmt {
    pub view: Option<RangeVar>,
    /// The names of the columns, as far as they are written.
    pub aliases: Vec<Node>,
    pub query: Option<StoredQuery>,
    pub replace: bool,
}

#[derive(Debug)]
pub struct CreateTableAsStmt {
    pub rel: Option<RangeVar>,
    pub query: Option<StoredQuery>,
    pub objtype: ObjectType,
}

/// What a command of an `ALTER TABLE` does.
#[derive(Debug, Clone, Copy, PartialEq, Eq, Structural)]
pub enum AlterTableType {
    AddColumn,
    AddColumnToView,
    DropColumn,
    SetNotNull,
    DropNotNull,
    ColumnDefault,
    AlterColumnType,
    AddConstraint,
    DropConstraint,
    AddIdentity,
    SetIdentity,
    DropIdentity,
    Other,
}

/// The definition that a command of an `ALTER TABLE` brings.
#[derive(Debug)]
pub enum AlterDef {
    Missing,
    Column(ColumnDef),
    Constraint(Constraint),
    Options(Vec<DefElem>),
    Other,
}

#[derive(Debug)]
pub struct AlterTableCmd {
    pub subtype: AlterTableType,
    pub name: String,
    pub def: AlterDef,
    pub cascade: bool,
    pub missing_ok: bool,
}

#[derive(Debug)]
pub struct AlterTableStmt {
    pub relation: Option<RangeVar>,
    pub cmds: Vec<AlterTableCmd>,
    pub missing_ok: bool,
}

#[derive(Debug)]
pub struct CreateDomainStmt {
    pub domainname: Vec<String>,
    pub target: Option<TypeName>,
    pub constraints: Vec<Constraint>,
}

#[derive(Debug)]
pub struct CreateEnumStmt {
    pub names: Vec<String>,
    pub vals: Vec<Node>,
}

#[derive(Debug)]
pub struct CompositeTypeStmt {
    pub typevar: Option<RangeVar>,
    pub coldeflist: Vec<ColumnDef>,
}

#[derive(Debug)]
pub struct CreateRangeStmt {
    pub names: Vec<String>,
    pub params: Vec<DefElem>,
}

#[derive(Debug)]
pub struct AlterEnumStmt {
    pub names: Vec<String>,
    pub new_val: String,
    /// The label beside which the new one goes, or the empty text.
    pub new_val_neighbor: String,
    pub new_val_is_after: bool,
    pub skip_if_new_val_exists: bool,
}

/// The kind of object that a statement is about.
#[derive(Debug, Clone, Copy, PartialEq, Eq, Structural)]
pub enum ObjectType {
    Aggregate,
    Cast,
    Collation,
    Column,
    Domain,
    DomainConstraint,
    Extension,
    ForeignTable,
    Function,
    Index,
    Matview,
    Operator,
    Policy,
    Procedure,
    Routine,
    Rule,
    Schema,
    Sequence,
    TableConstraint,
    Table,
    Trigger,
    Type,
    View,
    Other,
}

/// A node in the list that names an object.
#[derive(Debug)]
pub enum DropItem {
    Text(String),
    TypeName(TypeName),
    Other,
}

/// A routine or an operator with the types of its arguments.
#[derive(Debug)]
pub struct ObjectWithArgs {
    pub objname: Vec<String>,
    /// The types of the arguments; a missing type stands for no argument.
    pub objargs: Vec<Option<TypeName>>,
    /// No list of arguments was written.
    pub args_unspecified: bool,
}

/// An object as a `DROP` names it.
#[derive(Debug)]
pub enum ObjectRef {
    List(Vec<DropItem>),
    TypeName(TypeName),
    Text(String),
    WithArgs(ObjectWithArgs),
    Other,
}

#[derive(Debug)]
pub struct DropStmt {
    pub remove_type: ObjectType,
    pub objects: Vec<ObjectRef>,
    pub missing_ok: bool,
    pub cascade: bool,
}

/// `ALTER ... RENAME`.
#[derive(Debug)]
pub struct RenameStmt {
    pub rename_type: ObjectType,
    pub relation: Option<RangeVar>,
    pub object: ObjectRef,
    /// The column, constraint or schema that gets another name.
    pub subname: String,
    pub newname: String,
    pub missing_ok: bool,
}

/// `ALTER ... SET SCHEMA`.
#[derive(Debug)]
pub struct AlterObjectSchemaStmt {
    pub object_type: ObjectType,
    pub relation: Option<RangeVar>,
    pub object: ObjectRef,
    pub newschema: String,
    pub missing_ok: bool,
}

/// How a parameter of a routine is passed.
#[derive(Debug, Clone, Copy, PartialEq, Eq, Structural)]
pub enum FunctionParameterMode {
    In,
    Out,
    InOut,
    Variadic,
    Table,
    Default,
    Undefined,
}

#[derive(Debug)]
pub struct FunctionParameter {
    pub name: String,
    pub arg_type: Option<TypeName>,
    pub mode: FunctionParameterMode,
}

/// An argument in the definition of an aggregate.
#[derive(Debug)]
pub enum DefineArg {
    Parameter(FunctionParameter),
    TypeName(TypeName),
    List(Vec<DefineArg>),
    Other,
}

/// `CREATE TYPE`, `CREATE OPERATOR`, `CREATE AGGREGATE` and `CREATE COLLATION`.
#[derive(Debug)]
pub struct DefineStmt {
    pub kind: ObjectType,
    pub defnames: Vec<String>,
    pub args: Vec<DefineArg>,
    pub definition: Vec<DefElem>,
    pub if_not_exists: bool,
}

/// When a cast is applied, as `CREATE CAST` says.
#[derive(Debug, Clone, Copy, PartialEq, Eq, Structural)]
pub enum CoercionContext {
    Implicit,
    Assignment,
    Other,
}

#[derive(Debug)]
pub struct CreateCastStmt {
    pub sourcetype: Option<TypeName>,
    pub targettype: Option<TypeName>,
    pub context: CoercionContext,
    pub inout: bool,
    /// A function carries the cast out.
    pub has_func: bool,
}

#[derive(Debug)]
pub struct CreateFunctionStmt {
    pub funcname: Vec<String>,
    pub parameters: Vec<FunctionParameter>,
    pub return_type: Option<TypeName>,
    pub options: Vec<DefElem>,
    pub is_procedure: bool,
    pub replace: bool,
}

/// A column or an expression of an index.
#[derive(Debug)]
pub struct IndexElem {
    /// The column, or the empty text.
    pub name: String,
    pub expr: Option<Box<Node>>,
}

#[derive(Debug)]
pub struct IndexStmt {
    /// The name, or the empty text.
    pub idxname: String,
    pub relation: Option<RangeVar>,
    pub index_params: Vec<IndexElem>,
    pub has_where: bool,
    pub unique: bool,
}

#[derive(Debug)]
pub struct CreateSeqStmt {
    pub sequence: Option<RangeVar>,
    pub if_not_exists: bool,
}

#[derive(Debug)]
pub struct AlterSeqStmt {
    pub sequence: Option<RangeVar>,
    pub missing_ok: bool,
}

/// A version of an extension: a base to install, or an upgrade.
#[derive(Debug)]
pub struct ExtensionVersion {
    /// The version that the script leads to.
    pub version: String,
    /// The version that the script starts from; none for a base.
    pub from: Option<String>,
    pub script: Vec<Statement>,
}

/// An extension and its versions.
#[derive(Debug)]
pub struct ExtensionDef {
    pub name: String,
    /// The version that is installed where none is asked for.
    pub default_version: String,
    pub versions: Vec<ExtensionVersion>,
}

#[derive(Debug)]
pub struct CreateExtensionStmt {
    pub extname: String,
    pub if_not_exists: bool,
    pub options: Vec<DefElem>,
    /// The extensions that can be installed.
    pub registry: Vec<ExtensionDef>,
}

#[derive(Debug)]
pub struct AlterExtensionStmt {
    pub extname: String,
    pub options: Vec<DefElem>,
    /// The extensions that can be installed.
    pub registry: Vec<ExtensionDef>,
}

#[derive(Debug)]
pub struct CreateSchemaStmt {
    /// The name, or the empty text.
    pub schemaname: String,
    /// The statements that stand in the `CREATE SCHEMA`.
    pub schema_elts: Vec<Statement>,
}

/// A statement that changes the schema, or that leaves it as it is.
#[derive(Debug)]
pub enum Statement {
    Create(CreateStmt),
    AlterTable(AlterTableStmt),
    CreateDomain(CreateDomainStmt),
    CreateEnum(CreateEnumStmt),
    CompositeType(CompositeTypeStmt),
    CreateRange(CreateRangeStmt),
    AlterEnum(AlterEnumStmt),
    Drop(DropStmt),
    CreateSchema(CreateSchemaStmt),
    CreateSeq(CreateSeqStmt),
    AlterSeq(AlterSeqStmt),
    CreateFunction(CreateFunctionStmt),
    View(ViewStmt),
    CreateTableAs(CreateTableAsStmt),
    CreateExtension(CreateExtensionStmt),
    AlterExtension(AlterExtensionStmt),
    Define(DefineStmt),
    CreateCast(CreateCastStmt),
    Rename(RenameStmt),
    AlterObjectSchema(AlterObjectSchemaStmt),
    Index(IndexStmt),
    /// Another statement: the name of its kind, such as `GrantStmt`, and how it is shown.
    Other { kind: String, text: String },
}

} // verus!

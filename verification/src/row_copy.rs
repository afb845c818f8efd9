//! Copies of the rows of the catalog.

use crate::catalog::copy_attributes;
use crate::pg_catalog::{
    ast_views, copy_attnums, label_views, opt_ast_view, ArgMode, AstBinding, EnumLabels,
    PgAggregate, PgCast, PgClass, PgCollation, PgConstraint, PgEnum, PgExtension, PgIndex,
    PgNamespace, PgOperator, PgProc, PgRange, PgRewrite, PgType, RelAttrs, SerializedAst,
};
use crate::table::{copy_numbers, CopyRow};
use crate::text::copy_texts;
use vstd::prelude::*;

verus! {

fn copy_modes(v: &Vec<ArgMode>) -> (r: Vec<ArgMode>)
    ensures
        r@ == v@,
{
    let mut r: Vec<ArgMode> = Vec::new();
    let mut i: usize = 0;
    while i < v.len()
        invariant
            i <= v@.len(),
            r@ == v@.take(i as int),
        decreases v.len() - i,
    {
        r.push(v[i]);
        i = i + 1;
    }
    proof {
        assert(v@.take(i as int) =~= v@);
    }
    r
}

fn copy_bindings(v: &Vec<AstBinding>) -> (r: Vec<AstBinding>)
    ensures
        r@ == v@,
{
    let mut r: Vec<AstBinding> = Vec::new();
    let mut i: usize = 0;
    while i < v.len()
        invariant
            i <= v@.len(),
            r@ == v@.take(i as int),
        decreases v.len() - i,
    {
        r.push(v[i]);
        i = i + 1;
    }
    proof {
        assert(v@.take(i as int) =~= v@);
    }
    r
}

/// A copy of a list of bytes.
pub fn copy_bytes(v: &Vec<u8>) -> (r: Vec<u8>)
    ensures
        r@ == v@,
{
    let mut r: Vec<u8> = Vec::new();
    let mut i: usize = 0;
    while i < v.len()
        invariant
            i <= v@.len(),
            r@ == v@.take(i as int),
        decreases v.len() - i,
    {
        r.push(v[i]);
        i = i + 1;
    }
    proof {
        assert(v@.take(i as int) =~= v@);
    }
    r
}

impl SerializedAst {
    /// A copy of this expression.
    pub fn copy(&self) -> (r: SerializedAst)
        ensures
            r@ == self@,
    {
        SerializedAst { ast: copy_bytes(&self.ast), bindings: copy_bindings(&self.bindings) }
    }
}

fn copy_asts(v: &Vec<SerializedAst>) -> (r: Vec<SerializedAst>)
    ensures
        ast_views(r@) == ast_views(v@),
{
    let mut r: Vec<SerializedAst> = Vec::new();
    let mut i: usize = 0;
    while i < v.len()
        invariant
            i <= v@.len(),
            r@.len() == i,
            forall|j: int| 0 <= j < i ==> #[trigger] r@[j]@ == v@[j]@,
        decreases v.len() - i,
    {
        r.push(v[i].copy());
        i = i + 1;
    }
    proof {
        assert(ast_views(r@) =~= ast_views(v@));
    }
    r
}

fn copy_opt_ast(v: &Option<SerializedAst>) -> (r: Option<SerializedAst>)
    ensures
        opt_ast_view(r) == opt_ast_view(*v),
{
    match v {
        Some(a) => Some(a.copy()),
        None => None,
    }
}

/// A copy of a list of enum labels.
pub fn copy_labels(v: &Vec<PgEnum>) -> (r: Vec<PgEnum>)
    ensures
        label_views(r@) == label_views(v@),
{
    let mut r: Vec<PgEnum> = Vec::new();
    let mut i: usize = 0;
    while i < v.len()
        invariant
            i <= v@.len(),
            r@.len() == i,
            forall|j: int| 0 <= j < i ==> #[trigger] r@[j]@ == v@[j]@,
        decreases v.len() - i,
    {
        r.push(
            PgEnum {
                oid: v[i].oid,
                enumtypid: v[i].enumtypid,
                enumlabel: v[i].enumlabel.clone(),
            },
        );
        i = i + 1;
    }
    proof {
        assert(label_views(r@) =~= label_views(v@));
    }
    r
}

impl CopyRow for PgNamespace {
    fn copy_row(&self) -> (r: PgNamespace) {
        PgNamespace {
            oid: self.oid,
            nspname: self.nspname.clone(),
        }
    }
}

impl CopyRow for PgType {
    fn copy_row(&self) -> (r: PgType) {
        PgType {
            oid: self.oid,
            typname: self.typname.clone(),
            typnamespace: self.typnamespace,
            typtype: self.typtype,
            typcategory: self.typcategory,
            typispreferred: self.typispreferred,
            typrelid: self.typrelid,
            typelem: self.typelem,
            typarray: self.typarray,
            typbasetype: self.typbasetype,
            typnotnull: self.typnotnull,
            typtypmod: self.typtypmod,
        }
    }
}

impl CopyRow for PgClass {
    fn copy_row(&self) -> (r: PgClass) {
        PgClass {
            oid: self.oid,
            relname: self.relname.clone(),
            relnamespace: self.relnamespace,
            relkind: self.relkind,
            reltype: self.reltype,
        }
    }
}

impl CopyRow for PgProc {
    fn copy_row(&self) -> (r: PgProc) {
        PgProc {
            oid: self.oid,
            proname: self.proname.clone(),
            pronamespace: self.pronamespace,
            prokind: self.prokind,
            proargtypes: copy_numbers(&self.proargtypes),
            prorettype: self.prorettype,
            proretset: self.proretset,
            provariadic: self.provariadic,
            proisstrict: self.proisstrict,
            pronargdefaults: self.pronargdefaults,
            proallargtypes: copy_numbers(&self.proallargtypes),
            proargmodes: copy_modes(&self.proargmodes),
            proargnames: copy_texts(&self.proargnames),
            provolatile: self.provolatile,
        }
    }
}

impl CopyRow for PgOperator {
    fn copy_row(&self) -> (r: PgOperator) {
        PgOperator {
            oid: self.oid,
            oprname: self.oprname.clone(),
            oprnamespace: self.oprnamespace,
            oprleft: self.oprleft,
            oprright: self.oprright,
            oprresult: self.oprresult,
        }
    }
}

impl CopyRow for PgExtension {
    fn copy_row(&self) -> (r: PgExtension) {
        PgExtension {
            oid: self.oid,
            extname: self.extname.clone(),
            extnamespace: self.extnamespace,
            extversion: self.extversion.clone(),
        }
    }
}

impl CopyRow for PgCollation {
    fn copy_row(&self) -> (r: PgCollation) {
        PgCollation {
            oid: self.oid,
            collname: self.collname.clone(),
            collnamespace: self.collnamespace,
            collencoding: self.collencoding,
        }
    }
}

impl CopyRow for PgConstraint {
    fn copy_row(&self) -> (r: PgConstraint) {
        PgConstraint {
            oid: self.oid,
            conname: self.conname.clone(),
            conrelid: self.conrelid,
            contype: self.contype,
            conkey: copy_attnums(&self.conkey),
            confrelid: self.confrelid,
            confkey: copy_attnums(&self.confkey),
        }
    }
}

impl CopyRow for PgIndex {
    fn copy_row(&self) -> (r: PgIndex) {
        PgIndex {
            indexrelid: self.indexrelid,
            indrelid: self.indrelid,
            indnatts: self.indnatts,
            indnkeyatts: self.indnkeyatts,
            indisunique: self.indisunique,
            indisprimary: self.indisprimary,
            indkey: copy_attnums(&self.indkey),
            indexprs: copy_asts(&self.indexprs),
            indpred: copy_opt_ast(&self.indpred),
        }
    }
}

impl CopyRow for PgRewrite {
    fn copy_row(&self) -> (r: PgRewrite) {
        PgRewrite {
            oid: self.oid,
            rulename: self.rulename.clone(),
            ev_class: self.ev_class,
            ev_type: self.ev_type,
            ev_enabled: self.ev_enabled,
            is_instead: self.is_instead,
            ev_qual: copy_opt_ast(&self.ev_qual),
            ev_action: self.ev_action.copy(),
        }
    }
}

impl CopyRow for PgRange {
    fn copy_row(&self) -> (r: PgRange) {
        *self
    }
}

impl CopyRow for PgAggregate {
    fn copy_row(&self) -> (r: PgAggregate) {
        *self
    }
}

impl CopyRow for PgCast {
    fn copy_row(&self) -> (r: PgCast) {
        *self
    }
}

impl CopyRow for RelAttrs {
    fn copy_row(&self) -> (r: RelAttrs) {
        RelAttrs { relid: self.relid, attrs: copy_attributes(&self.attrs) }
    }
}

impl CopyRow for EnumLabels {
    fn copy_row(&self) -> (r: EnumLabels) {
        EnumLabels { typid: self.typid, labels: copy_labels(&self.labels) }
    }
}

} // verus!

//! `CREATE INDEX`.
//!
//! An index does not change the type of any query. Its expressions must not call
//! volatile functions, though, and a unique index over all rows counts as a unique
//! constraint where `ON CONFLICT` looks for one.

use super::constraints::{
    chosen_name, constraint_name, emit_constraint, local_pending, with_constraint_row, Pending,
};
use super::drop::{class_at, find_class_at};
use super::stmt::{IndexElem, IndexStmt};
use super::util::{range_names, range_var_names, Step};
use super::volatile::{check_opt_volatile, opt_volatility, ExprLocation};
use super::{ddl_outcome, DdlError, DdlErrorView};
use crate::ast::RangeVar;
use crate::catalog::{CatalogView, PgCatalog};
use crate::lookup::{attribute_named, find_attribute};
use crate::pg_catalog::{attr_views, ConType, PgAttribute, PgAttributeView};
use crate::text::{concat4, join, joined, texts};
use vstd::prelude::*;

verus! {

/// Whether the expressions of an index from `i` on may stand there.
pub open spec fn params_checked(c: CatalogView, params: Seq<IndexElem>, i: int) -> Result<
    (),
    DdlErrorView,
>
    decreases params.len() - i,
{
    if i < 0 || i >= params.len() {
        Ok(())
    } else {
        match opt_volatility(params[i].expr, ExprLocation::Index, c) {
            Err(e) => Err(e),
            Ok(_) => params_checked(c, params, i + 1),
        }
    }
}

/// The numbers of the columns of an index; none where one of its parts is no column
/// of the table.
pub open spec fn index_key(attrs: Seq<PgAttributeView>, params: Seq<IndexElem>) -> Option<Seq<i16>>
    decreases params.len(),
{
    if params.len() == 0 {
        Some(Seq::empty())
    } else {
        match index_key(attrs, params.drop_last()) {
            None => None,
            Some(nums) => if params.last().name@.len() == 0 {
                None
            } else {
                match find_attribute(attrs, params.last().name@) {
                    Some(a) => Some(nums.push(a.attnum)),
                    None => None,
                }
            },
        }
    }
}

/// The names of the columns of an index.
pub open spec fn column_names(params: Seq<IndexElem>) -> Seq<Seq<char>> {
    params.map_values(|p: IndexElem| p.name@)
}

/// The catalog with the constraint that a unique index stands for.
pub open spec fn unique_noted(c: CatalogView, stmt: IndexStmt) -> Step<()> {
    match stmt.relation {
        None => (Ok(()), c),
        Some(rv) => {
            let names = range_names(c, rv);
            match class_at(c, names) {
                None => (Ok(()), c),
                Some(relid) => match index_key(c.attributes_of(relid), stmt.index_params@) {
                    None => (Ok(()), c),
                    Some(nums) => if nums.len() == 0 {
                        (Ok(()), c)
                    } else {
                        with_constraint_row(
                            c,
                            relid,
                            local_pending(
                                chosen_name(
                                    stmt.idxname@,
                                    names.1 + "_"@ + joined(
                                        column_names(stmt.index_params@),
                                        "_"@,
                                    ) + "_key"@,
                                ),
                                ConType::Unique,
                                nums,
                            ),
                        )
                    },
                },
            }
        },
    }
}

/// What `CREATE INDEX` does.
pub open spec fn index_created(c: CatalogView, stmt: IndexStmt) -> Step<()> {
    match params_checked(c, stmt.index_params@, 0) {
        Err(e) => (Err(e), c),
        Ok(_) => if stmt.unique && !stmt.has_where {
            unique_noted(c, stmt)
        } else {
            (Ok(()), c)
        },
    }
}

fn check_params(db: &PgCatalog, params: &Vec<IndexElem>) -> (r: Result<(), DdlError>)
    ensures
        ddl_outcome(r) == params_checked(db@, params@, 0),
{
    let mut i: usize = 0;
    while i < params.len()
        invariant
            i <= params@.len(),
            params_checked(db@, params@, 0) == params_checked(db@, params@, i as int),
        decreases params.len() - i,
    {
        match check_opt_volatile(&params[i].expr, ExprLocation::Index, db) {
            Ok(_) => {},
            Err(e) => return Err(e),
        }
        i = i + 1;
    }
    Ok(())
}

proof fn lemma_no_key(attrs: Seq<PgAttributeView>, params: Seq<IndexElem>, n: int)
    requires
        0 <= n <= params.len(),
        index_key(attrs, params.take(n)) is None,
    ensures
        index_key(attrs, params) is None,
    decreases params.len(),
{
    if n < params.len() {
        assert(params.drop_last().take(n) =~= params.take(n));
        lemma_no_key(attrs, params.drop_last(), n);
    } else {
        assert(params.take(n) =~= params);
    }
}

fn find_index_key(attrs: &Vec<PgAttribute>, params: &Vec<IndexElem>) -> (r: Option<Vec<i16>>)
    ensures
        (match r {
            Some(nums) => Some(nums@),
            None => None,
        }) == index_key(attr_views(attrs@), params@),
{
    let ghost views = attr_views(attrs@);
    let mut nums: Vec<i16> = Vec::new();
    let mut i: usize = 0;
    while i < params.len()
        invariant
            views == attr_views(attrs@),
            i <= params@.len(),
            index_key(views, params@.take(i as int)) == Some(nums@),
        decreases params.len() - i,
    {
        proof {
            assert(params@.take(i + 1).drop_last() =~= params@.take(i as int));
        }
        let name: &str = params[i].name.as_str();
        if name.is_empty() {
            proof {
                lemma_no_key(views, params@, i + 1);
            }
            return None;
        }
        match attribute_named(attrs, name) {
            Some(a) => nums.push(a.attnum),
            None => {
                proof {
                    lemma_no_key(views, params@, i + 1);
                }
                return None;
            },
        }
        i = i + 1;
    }
    proof {
        assert(params@.take(i as int) =~= params@);
    }
    Some(nums)
}

fn list_names(params: &Vec<IndexElem>) -> (r: Vec<String>)
    ensures
        texts(r@) == column_names(params@),
{
    let mut r: Vec<String> = Vec::new();
    let mut i: usize = 0;
    while i < params.len()
        invariant
            i <= params@.len(),
            r@.len() == i,
            forall|j: int| 0 <= j < i ==> #[trigger] r@[j]@ == params@[j].name@,
        decreases params.len() - i,
    {
        r.push(params[i].name.clone());
        i = i + 1;
    }
    proof {
        assert(texts(r@) =~= column_names(params@));
    }
    r
}

fn note_unique(db: &mut PgCatalog, stmt: &IndexStmt) -> (r: Result<(), DdlError>)
    ensures
        (ddl_outcome(r), final(db)@) == unique_noted(old(db)@, *stmt),
{
    let rv: &RangeVar = match &stmt.relation {
        Some(rv) => rv,
        None => return Ok(()),
    };
    let (schema, table): (String, String) = range_var_names(rv, db);
    let relid: u32 = match find_class_at(db, schema.as_str(), table.as_str()) {
        Some(oid) => oid,
        None => return Ok(()),
    };
    let attrs: Vec<PgAttribute> = db.attributes_of(relid);
    let conkey: Vec<i16> = match find_index_key(&attrs, &stmt.index_params) {
        Some(nums) => nums,
        None => return Ok(()),
    };
    if conkey.len() == 0 {
        return Ok(());
    }
    let names: Vec<String> = list_names(&stmt.index_params);
    let listed: String = join(&names, "_");
    let conname: String = constraint_name(
        stmt.idxname.as_str(),
        concat4(table.as_str(), "_", listed.as_str(), "_key"),
    );
    let p: Pending = Pending {
        conname,
        contype: ConType::Unique,
        conkey,
        confrelid: None,
        confkey: Vec::new(),
    };
    proof {
        assert(p@ =~= local_pending(conname@, ConType::Unique, conkey@));
    }
    emit_constraint(db, relid, &p)
}

/// Applies a `CREATE INDEX`.
///
/// # Errors
///
/// An expression of the index calls a volatile function, or the OIDs have run out.
pub fn create_index(db: &mut PgCatalog, stmt: &IndexStmt) -> (r: Result<(), DdlError>)
    ensures
        (ddl_outcome(r), final(db)@) == index_created(old(db)@, *stmt),
{
    match check_params(db, &stmt.index_params) {
        Ok(_) => {},
        Err(e) => return Err(e),
    }
    if stmt.unique && !stmt.has_where {
        note_unique(db, stmt)
    } else {
        Ok(())
    }
}

} // verus!

//! Questions that the analyzer asks of the catalog.

use crate::catalog::{CatalogView, PgCatalog};
use crate::pg_catalog::{
    attr_views, CastContext, CastMethod, PgAttribute, PgAttributeView, PgCast, PgCollationView,
    PgOperator, PgOperatorView, PgType, PgTypeView, TypCategory, TypType, UNKNOWN,
};
use crate::table::{lemma_row_position_meaning, map_get, row_get, row_position, Row};
use crate::text::same_text;
use vstd::prelude::*;
use vstd::set_lib::{lemma_int_range, lemma_len_subset, set_int_range};

verus! {

/// The type below the domains around it, where at most `fuel` domains are
/// looked through.
pub open spec fn domain_base(c: CatalogView, oid: u32, fuel: nat) -> u32
    decreases fuel,
{
    match c.get_type(oid) {
        Some(t) => match (t.typtype, t.typbasetype) {
            (TypType::Domain, Some(base)) => if fuel == 0 {
                oid
            } else {
                domain_base(c, base, (fuel - 1) as nat)
            },
            _ => oid,
        },
        None => oid,
    }
}

/// The first schema of a path that holds a type of this name.
pub open spec fn type_on_path(c: CatalogView, path: Seq<u32>, name: Seq<char>) -> Option<u32>
    decreases path.len(),
{
    if path.len() == 0 {
        None
    } else {
        match c.type_named(path[0], name) {
            Some(oid) => Some(oid),
            None => type_on_path(c, path.drop_first(), name),
        }
    }
}

/// The first schema of a path that holds a relation of this name.
pub open spec fn class_on_path(c: CatalogView, path: Seq<u32>, name: Seq<char>) -> Option<u32>
    decreases path.len(),
{
    if path.len() == 0 {
        None
    } else {
        match c.class_named(path[0], name) {
            Some(oid) => Some(oid),
            None => class_on_path(c, path.drop_first(), name),
        }
    }
}

/// The first schema of a path that holds a collation of this name.
pub open spec fn collation_on_path(c: CatalogView, path: Seq<u32>, name: Seq<char>) -> Option<u32>
    decreases path.len(),
{
    if path.len() == 0 {
        None
    } else {
        match map_get(c.collation_by_qname, (path[0], name)) {
            Some(oid) => Some(oid),
            None => collation_on_path(c, path.drop_first(), name),
        }
    }
}

/// Those of the routines that the catalog has.
pub open spec fn known_procs(c: CatalogView, oids: Seq<u32>) -> Seq<u32> {
    oids.filter(|oid: u32| c.get_proc(oid) is Some)
}

/// The routines of this name in the schemas of a path, in the order of the path.
pub open spec fn procs_on_path(c: CatalogView, path: Seq<u32>, name: Seq<char>) -> Seq<u32>
    decreases path.len(),
{
    if path.len() == 0 {
        Seq::empty()
    } else {
        procs_on_path(c, path.drop_last(), name) + known_procs(c, c.procs_named(path.last(), name))
    }
}

/// Those of the operators that the catalog has.
pub open spec fn known_operators(c: CatalogView, oids: Seq<u32>) -> Seq<u32> {
    oids.filter(|oid: u32| row_get::<PgOperator>(c.pg_operator, oid) is Some)
}

/// The operators of this name in the schemas of a path, in the order of the path.
pub open spec fn operators_on_path(c: CatalogView, path: Seq<u32>, name: Seq<char>) -> Seq<u32>
    decreases path.len(),
{
    if path.len() == 0 {
        Seq::empty()
    } else {
        operators_on_path(c, path.drop_last(), name) + known_operators(
            c,
            c.operators_named(path.last(), name),
        )
    }
}

/// How freely an operand may fit what an operator expects.
#[derive(Debug, Clone, Copy, PartialEq, Eq, Structural)]
pub enum Fit {
    /// It has just that type.
    Same,
    /// It has that type, or none is known of it.
    SameOrUnknown,
    /// It has that type, none is known of it, or an implicit cast leads there.
    Castable,
}

/// Whether an operand of type `actual` fits an expected type.
pub open spec fn operand_fits(c: CatalogView, actual: u32, expected: u32, fit: Fit) -> bool {
    actual == expected || (fit != Fit::Same && actual == UNKNOWN) || (fit == Fit::Castable
        && c.has_implicit_cast(actual, expected))
}

/// Whether an operator fits its operands.
pub open spec fn operator_fits(
    c: CatalogView,
    op: PgOperatorView,
    left: Option<u32>,
    right: u32,
    fit: Fit,
) -> bool {
    &&& match (left, op.oprleft) {
        (Some(l), Some(e)) => operand_fits(c, l, e, fit),
        (None, None) => true,
        _ => false,
    }
    &&& operand_fits(c, right, op.oprright, fit)
}

/// The first operator of a list that fits its operands.
pub open spec fn first_operator(
    c: CatalogView,
    oids: Seq<u32>,
    left: Option<u32>,
    right: u32,
    fit: Fit,
) -> Option<PgOperatorView>
    decreases oids.len(),
{
    if oids.len() == 0 {
        None
    } else {
        match row_get::<PgOperator>(c.pg_operator, oids[0]) {
            Some(op) => if operator_fits(c, op, left, right, fit) {
                Some(op)
            } else {
                first_operator(c, oids.drop_first(), left, right, fit)
            },
            None => first_operator(c, oids.drop_first(), left, right, fit),
        }
    }
}

/// The first type of a category that PostgreSQL prefers in it.
pub open spec fn first_preferred(types: Seq<PgTypeView>, category: TypCategory) -> Option<u32>
    decreases types.len(),
{
    if types.len() == 0 {
        None
    } else if types[0].typcategory == category && types[0].typispreferred {
        Some(types[0].oid)
    } else {
        first_preferred(types.drop_first(), category)
    }
}

/// The first column of this name.
pub open spec fn find_attribute(attrs: Seq<PgAttributeView>, name: Seq<char>) -> Option<
    PgAttributeView,
>
    decreases attrs.len(),
{
    if attrs.len() == 0 {
        None
    } else if attrs[0].attname == name {
        Some(attrs[0])
    } else {
        find_attribute(attrs.drop_first(), name)
    }
}

/// The first column with this number.
pub open spec fn find_attnum(attrs: Seq<PgAttributeView>, attnum: i16) -> Option<PgAttributeView>
    decreases attrs.len(),
{
    if attrs.len() == 0 {
        None
    } else if attrs[0].attnum == attnum {
        Some(attrs[0])
    } else {
        find_attnum(attrs.drop_first(), attnum)
    }
}

impl CatalogView {
    /// The type below the domains around it.
    pub open spec fn unwrap_domain(self, oid: u32) -> u32 {
        domain_base(self, oid, self.pg_type.len())
    }

    /// Whether a value of one type is taken for one of the other without a word.
    pub open spec fn has_implicit_cast(self, source: u32, target: u32) -> bool {
        match self.cast_between(source, target) {
            Some(k) => k.castcontext == CastContext::Implicit,
            None => false,
        }
    }

    /// Whether values of the two types have the same bytes.
    pub open spec fn is_binary_coercible(self, source: u32, target: u32) -> bool {
        let s = self.unwrap_domain(source);
        let t = self.unwrap_domain(target);
        s == t || match self.cast_between(s, t) {
            Some(k) => k.castmethod == CastMethod::Binary,
            None => false,
        }
    }

    /// The array type over an element type.
    pub open spec fn array_type_of(self, oid: u32) -> Option<u32> {
        match self.get_type(oid) {
            Some(t) => t.typarray,
            None => None,
        }
    }

    /// The element type of an array type.
    pub open spec fn element_of(self, oid: u32) -> Option<u32> {
        match self.get_type(oid) {
            Some(t) => if t.typcategory == TypCategory::Array {
                t.typelem
            } else {
                None
            },
            None => None,
        }
    }

    /// The fields of a composite type.
    pub open spec fn composite_fields(self, oid: u32) -> Option<Seq<PgAttributeView>> {
        match self.get_type(oid) {
            Some(t) => if t.typtype == TypType::Composite {
                match t.typrelid {
                    Some(relid) => Some(self.attributes_of(relid)),
                    None => Some(Seq::empty()),
                }
            } else {
                None
            },
            None => None,
        }
    }

    /// The schema of built-in objects.
    pub open spec fn builtin_schema(self) -> Option<u32> {
        self.namespace_oid("pg_catalog"@)
    }

    /// The schemas in which a routine or operator is looked for.
    pub open spec fn routine_path(self, schema: Option<Seq<char>>) -> Seq<u32> {
        match schema {
            Some(s) => match self.namespace_oid(s) {
                Some(ns) => seq![ns],
                None => Seq::empty(),
            },
            None => match self.builtin_schema() {
                Some(ns) => if self.search_path.contains(ns) {
                    self.search_path
                } else {
                    seq![ns] + self.search_path
                },
                None => self.search_path,
            },
        }
    }

    /// The schemas in which a relation, type or collation is looked for.
    pub open spec fn object_path(self, schema: Option<Seq<char>>) -> Seq<u32> {
        match schema {
            Some(s) => match self.namespace_oid(s) {
                Some(ns) => seq![ns],
                None => Seq::empty(),
            },
            None => match self.builtin_schema() {
                Some(ns) => self.search_path.push(ns),
                None => self.search_path,
            },
        }
    }

    /// The type that a name stands for.
    pub open spec fn resolve_type(self, schema: Option<Seq<char>>, name: Seq<char>) -> Option<u32> {
        type_on_path(self, self.object_path(schema), name)
    }

    /// The relation that a name stands for.
    pub open spec fn resolve_table(
        self,
        schema: Option<Seq<char>>,
        name: Seq<char>,
    ) -> Option<u32> {
        class_on_path(self, self.object_path(schema), name)
    }

    /// The collation that a name stands for.
    pub open spec fn resolve_collation(self, schema: Option<Seq<char>>, name: Seq<char>) -> Option<
        PgCollationView,
    > {
        match collation_on_path(self, self.object_path(schema), name) {
            Some(oid) => row_get::<crate::pg_catalog::PgCollation>(self.pg_collation, oid),
            None => None,
        }
    }

    /// The routines that a name may stand for.
    pub open spec fn find_functions(self, schema: Option<Seq<char>>, name: Seq<char>) -> Seq<u32> {
        procs_on_path(self, self.routine_path(schema), name)
    }

    /// The operator that a name stands for between two operand types: one for
    /// just those types; else one for the type of the operand that is known, where
    /// the other is not; else one that fits what is known; else one that implicit
    /// casts lead to. Where no type is known there is none.
    pub open spec fn find_operator(self, name: Seq<char>, left: Option<u32>, right: u32) -> Option<
        PgOperatorView,
    > {
        let oids = operators_on_path(self, self.routine_path(None), name);
        let l = match left {
            Some(l) => Some(self.unwrap_domain(l)),
            None => None,
        };
        let r = self.unwrap_domain(right);
        let both_l = if l == Some(UNKNOWN) {
            Some(r)
        } else {
            l
        };
        let both_r = match l {
            Some(t) => if r == UNKNOWN {
                t
            } else {
                r
            },
            None => r,
        };
        if (l is None || l == Some(UNKNOWN)) && r == UNKNOWN {
            None
        } else {
            match first_operator(self, oids, both_l, both_r, Fit::Same) {
                Some(op) => Some(op),
                None => match first_operator(self, oids, l, r, Fit::SameOrUnknown) {
                    Some(op) => Some(op),
                    None => first_operator(self, oids, l, r, Fit::Castable),
                },
            }
        }
    }

    /// The type that PostgreSQL prefers in a category.
    pub open spec fn preferred_type_in_category(self, category: TypCategory) -> Option<u32> {
        first_preferred(self.pg_type, category)
    }

    /// The column of a relation with this name.
    pub open spec fn attribute_by_name(self, relid: u32, name: Seq<char>) -> Option<
        PgAttributeView,
    > {
        find_attribute(self.attributes_of(relid), name)
    }
}

// ── The questions, answered ─────────────────────────────────────────────────

/// The text of an optional string slice.
pub open spec fn opt_str(s: Option<&str>) -> Option<Seq<char>> {
    match s {
        Some(t) => Some(t@),
        None => None,
    }
}

/// The first column of this name.
pub fn attribute_named<'a>(attrs: &'a Vec<PgAttribute>, name: &str) -> (r: Option<&'a PgAttribute>)
    ensures
        match r {
            Some(a) => find_attribute(attr_views(attrs@), name@) == Some(a@),
            None => find_attribute(attr_views(attrs@), name@) is None,
        },
{
    let ghost views = attr_views(attrs@);
    let mut i: usize = 0;
    proof {
        assert(views.skip(0) =~= views);
    }
    while i < attrs.len()
        invariant
            i <= attrs@.len(),
            views == attr_views(attrs@),
            find_attribute(views, name@) == find_attribute(views.skip(i as int), name@),
        decreases attrs.len() - i,
    {
        proof {
            assert(views.skip(i as int).drop_first() =~= views.skip(i + 1));
            assert(views.skip(i as int)[0] == attrs@[i as int]@);
        }
        if same_text(attrs[i].attname.as_str(), name) {
            return Some(&attrs[i]);
        }
        i = i + 1;
    }
    None
}

/// The first column with this number.
pub fn attribute_numbered<'a>(attrs: &'a Vec<PgAttribute>, attnum: i16) -> (r: Option<
    &'a PgAttribute,
>)
    ensures
        match r {
            Some(a) => find_attnum(attr_views(attrs@), attnum) == Some(a@),
            None => find_attnum(attr_views(attrs@), attnum) is None,
        },
{
    let ghost views = attr_views(attrs@);
    let mut i: usize = 0;
    proof {
        assert(views.skip(0) =~= views);
    }
    while i < attrs.len()
        invariant
            i <= attrs@.len(),
            views == attr_views(attrs@),
            find_attnum(views, attnum) == find_attnum(views.skip(i as int), attnum),
        decreases attrs.len() - i,
    {
        proof {
            assert(views.skip(i as int).drop_first() =~= views.skip(i + 1));
            assert(views.skip(i as int)[0] == attrs@[i as int]@);
        }
        if attrs[i].attnum == attnum {
            return Some(&attrs[i]);
        }
        i = i + 1;
    }
    None
}

impl PgCatalog {
    /// The type below the domains around it.
    pub fn unwrap_domain(&self, type_oid: u32) -> (r: u32)
        ensures
            r == self@.unwrap_domain(type_oid),
    {
        let mut oid: u32 = type_oid;
        let mut fuel: usize = self.pg_type.len();
        loop
            invariant
                self@.unwrap_domain(type_oid) == domain_base(self@, oid, fuel as nat),
            decreases fuel,
        {
            match self.get_type(oid) {
                Some(t) => match (t.typtype, t.typbasetype) {
                    (TypType::Domain, Some(base)) => {
                        if fuel == 0 {
                            return oid;
                        }
                        fuel = fuel - 1;
                        oid = base;
                    },
                    _ => return oid,
                },
                None => return oid,
            }
        }
    }

    /// The cast between two types.
    pub fn cast_between(&self, source: u32, target: u32) -> (r: Option<PgCast>)
        ensures
            r == self@.cast_between(source, target),
    {
        match self.cast_by_pair.get(source, target) {
            Some(oid) => match self.pg_cast.get(oid) {
                Some(k) => Some(*k),
                None => None,
            },
            None => None,
        }
    }

    pub fn has_implicit_cast(&self, source: u32, target: u32) -> (r: bool)
        ensures
            r == self@.has_implicit_cast(source, target),
    {
        match self.cast_between(source, target) {
            Some(k) => k.castcontext == CastContext::Implicit,
            None => false,
        }
    }

    pub fn is_binary_coercible(&self, source: u32, target: u32) -> (r: bool)
        ensures
            r == self@.is_binary_coercible(source, target),
    {
        let s: u32 = self.unwrap_domain(source);
        let t: u32 = self.unwrap_domain(target);
        s == t || match self.cast_between(s, t) {
            Some(k) => k.castmethod == CastMethod::Binary,
            None => false,
        }
    }

    pub fn array_type_of(&self, oid: u32) -> (r: Option<u32>)
        ensures
            r == self@.array_type_of(oid),
    {
        match self.get_type(oid) {
            Some(t) => t.typarray,
            None => None,
        }
    }

    pub fn element_of(&self, oid: u32) -> (r: Option<u32>)
        ensures
            r == self@.element_of(oid),
    {
        match self.get_type(oid) {
            Some(t) => if t.typcategory == TypCategory::Array {
                t.typelem
            } else {
                None
            },
            None => None,
        }
    }

    pub fn composite_fields(&self, oid: u32) -> (r: Option<Vec<PgAttribute>>)
        ensures
            match r {
                Some(v) => self@.composite_fields(oid) == Some(attr_views(v@)),
                None => self@.composite_fields(oid) is None,
            },
    {
        match self.get_type(oid) {
            Some(t) => if t.typtype == TypType::Composite {
                match t.typrelid {
                    Some(relid) => Some(self.attributes_of(relid)),
                    None => {
                        let v: Vec<PgAttribute> = Vec::new();
                        proof {
                            assert(attr_views(v@) =~= Seq::empty());
                        }
                        Some(v)
                    },
                }
            } else {
                None
            },
            None => None,
        }
    }

    fn on_search_path(&self, ns: u32) -> (r: bool)
        ensures
            r == self@.search_path.contains(ns),
    {
        let mut i: usize = 0;
        while i < self.search_path.len()
            invariant
                i <= self.search_path@.len(),
                forall|j: int| 0 <= j < i ==> self.search_path@[j] != ns,
            decreases self.search_path.len() - i,
        {
            if self.search_path[i] == ns {
                return true;
            }
            i = i + 1;
        }
        false
    }

    /// The schemas in which a routine or operator is looked for.
    pub fn routine_path(&self, schema: Option<&str>) -> (r: Vec<u32>)
        ensures
            r@ == self@.routine_path(opt_str(schema)),
    {
        let mut path: Vec<u32> = Vec::new();
        match schema {
            Some(s) => {
                match self.namespace_oid(s) {
                    Some(ns) => {
                        path.push(ns);
                        proof {
                            assert(path@ =~= seq![ns]);
                        }
                    },
                    None => {},
                }
            },
            None => {
                match self.namespace_oid("pg_catalog") {
                    Some(ns) => {
                        if !self.on_search_path(ns) {
                            path.push(ns);
                            proof {
                                assert(path@ =~= seq![ns]);
                            }
                        }
                    },
                    None => {},
                }
                let mut rest: Vec<u32> = crate::table::copy_numbers(&self.search_path);
                let ghost head = path@;
                path.append(&mut rest);
                proof {
                    assert(path@ =~= head + self.search_path@);
                    assert(Seq::<u32>::empty() + self.search_path@ =~= self.search_path@);
                }
            },
        }
        path
    }

    /// The schemas in which a relation, type or collation is looked for.
    pub fn object_path(&self, schema: Option<&str>) -> (r: Vec<u32>)
        ensures
            r@ == self@.object_path(opt_str(schema)),
    {
        match schema {
            Some(s) => {
                let mut path: Vec<u32> = Vec::new();
                match self.namespace_oid(s) {
                    Some(ns) => {
                        path.push(ns);
                        proof {
                            assert(path@ =~= seq![ns]);
                        }
                    },
                    None => {},
                }
                path
            },
            None => {
                let mut path: Vec<u32> = crate::table::copy_numbers(&self.search_path);
                match self.namespace_oid("pg_catalog") {
                    Some(ns) => path.push(ns),
                    None => {},
                }
                path
            },
        }
    }

    /// The type that a name stands for.
    pub fn resolve_type_by_name(&self, schema: Option<&str>, name: &str) -> (r: Option<u32>)
        ensures
            r == self@.resolve_type(opt_str(schema), name@),
    {
        let path: Vec<u32> = self.object_path(schema);
        let mut i: usize = 0;
        proof {
            assert(path@.skip(0) =~= path@);
        }
        while i < path.len()
            invariant
                i <= path@.len(),
                path@ == self@.object_path(opt_str(schema)),
                type_on_path(self@, path@, name@) == type_on_path(
                    self@,
                    path@.skip(i as int),
                    name@,
                ),
            decreases path.len() - i,
        {
            proof {
                assert(path@.skip(i as int).drop_first() =~= path@.skip(i + 1));
            }
            match self.type_by_qname.get(path[i], name) {
                Some(oid) => return Some(oid),
                None => {},
            }
            i = i + 1;
        }
        None
    }

    /// The relation that a name stands for.
    pub fn resolve_table(&self, schema: Option<&str>, name: &str) -> (r: Option<u32>)
        ensures
            r == self@.resolve_table(opt_str(schema), name@),
    {
        let path: Vec<u32> = self.object_path(schema);
        let mut i: usize = 0;
        proof {
            assert(path@.skip(0) =~= path@);
        }
        while i < path.len()
            invariant
                i <= path@.len(),
                path@ == self@.object_path(opt_str(schema)),
                class_on_path(self@, path@, name@) == class_on_path(
                    self@,
                    path@.skip(i as int),
                    name@,
                ),
            decreases path.len() - i,
        {
            proof {
                assert(path@.skip(i as int).drop_first() =~= path@.skip(i + 1));
            }
            match self.class_by_qname.get(path[i], name) {
                Some(oid) => return Some(oid),
                None => {},
            }
            i = i + 1;
        }
        None
    }

    /// The encoding of the collation that a name stands for.
    pub fn resolve_collation(&self, schema: Option<&str>, name: &str) -> (r: Option<i32>)
        ensures
            match r {
                Some(n) => self@.resolve_collation(opt_str(schema), name@) matches Some(row)
                    && row.collencoding == n,
                None => self@.resolve_collation(opt_str(schema), name@) is None,
            },
    {
        let path: Vec<u32> = self.object_path(schema);
        let mut i: usize = 0;
        proof {
            assert(path@.skip(0) =~= path@);
        }
        while i < path.len()
            invariant
                i <= path@.len(),
                path@ == self@.object_path(opt_str(schema)),
                collation_on_path(self@, path@, name@) == collation_on_path(
                    self@,
                    path@.skip(i as int),
                    name@,
                ),
            decreases path.len() - i,
        {
            proof {
                assert(path@.skip(i as int).drop_first() =~= path@.skip(i + 1));
            }
            match self.collation_by_qname.get(path[i], name) {
                Some(oid) => return match self.pg_collation.get(oid) {
                    Some(row) => Some(row.collencoding),
                    None => None,
                },
                None => {},
            }
            i = i + 1;
        }
        None
    }

    fn known_procs(&self, oids: &Vec<u32>) -> (r: Vec<u32>)
        ensures
            r@ == known_procs(self@, oids@),
    {
        let mut r: Vec<u32> = Vec::new();
        let mut i: usize = 0;
        proof {
            reveal(Seq::filter);
        }
        while i < oids.len()
            invariant
                i <= oids@.len(),
                r@ == known_procs(self@, oids@.take(i as int)),
            decreases oids.len() - i,
        {
            proof {
                reveal(Seq::filter);
                assert(oids@.take(i + 1).drop_last() =~= oids@.take(i as int));
            }
            if self.pg_proc.has(oids[i]) {
                r.push(oids[i]);
            }
            i = i + 1;
        }
        proof {
            assert(oids@.take(i as int) =~= oids@);
        }
        r
    }

    /// The routines that a name may stand for.
    pub fn find_functions(&self, schema: Option<&str>, name: &str) -> (r: Vec<u32>)
        ensures
            r@ == self@.find_functions(opt_str(schema), name@),
    {
        let path: Vec<u32> = self.routine_path(schema);
        let mut r: Vec<u32> = Vec::new();
        let mut i: usize = 0;
        while i < path.len()
            invariant
                i <= path@.len(),
                r@ == procs_on_path(self@, path@.take(i as int), name@),
            decreases path.len() - i,
        {
            proof {
                assert(path@.take(i + 1).drop_last() =~= path@.take(i as int));
            }
            let here: Vec<u32> = self.proc_by_qname.get(path[i], name);
            let mut known: Vec<u32> = self.known_procs(&here);
            r.append(&mut known);
            i = i + 1;
        }
        proof {
            assert(path@.take(i as int) =~= path@);
        }
        r
    }

    fn known_operators(&self, oids: &Vec<u32>) -> (r: Vec<u32>)
        ensures
            r@ == known_operators(self@, oids@),
    {
        let mut r: Vec<u32> = Vec::new();
        let mut i: usize = 0;
        proof {
            reveal(Seq::filter);
        }
        while i < oids.len()
            invariant
                i <= oids@.len(),
                r@ == known_operators(self@, oids@.take(i as int)),
            decreases oids.len() - i,
        {
            proof {
                reveal(Seq::filter);
                assert(oids@.take(i + 1).drop_last() =~= oids@.take(i as int));
            }
            if self.pg_operator.has(oids[i]) {
                r.push(oids[i]);
            }
            i = i + 1;
        }
        proof {
            assert(oids@.take(i as int) =~= oids@);
        }
        r
    }

    /// The operators that a name may stand for.
    pub fn find_operators(&self, schema: Option<&str>, name: &str) -> (r: Vec<u32>)
        ensures
            r@ == operators_on_path(self@, self@.routine_path(opt_str(schema)), name@),
    {
        let path: Vec<u32> = self.routine_path(schema);
        let mut r: Vec<u32> = Vec::new();
        let mut i: usize = 0;
        while i < path.len()
            invariant
                i <= path@.len(),
                r@ == operators_on_path(self@, path@.take(i as int), name@),
            decreases path.len() - i,
        {
            proof {
                assert(path@.take(i + 1).drop_last() =~= path@.take(i as int));
            }
            let here: Vec<u32> = self.operator_by_qname.get(path[i], name);
            let mut known: Vec<u32> = self.known_operators(&here);
            r.append(&mut known);
            i = i + 1;
        }
        proof {
            assert(path@.take(i as int) =~= path@);
        }
        r
    }

    fn operand_fits(&self, actual: u32, expected: u32, fit: Fit) -> (r: bool)
        ensures
            r == operand_fits(self@, actual, expected, fit),
    {
        actual == expected || (fit != Fit::Same && actual == UNKNOWN) || (fit == Fit::Castable
            && self.has_implicit_cast(actual, expected))
    }

    fn first_operator(
        &self,
        oids: &Vec<u32>,
        left: Option<u32>,
        right: u32,
        fit: Fit,
    ) -> (r: Option<
        &PgOperator,
    >)
        ensures
            match r {
                Some(op) => first_operator(self@, oids@, left, right, fit) == Some(op@),
                None => first_operator(self@, oids@, left, right, fit) is None,
            },
    {
        let mut i: usize = 0;
        proof {
            assert(oids@.skip(0) =~= oids@);
        }
        while i < oids.len()
            invariant
                i <= oids@.len(),
                first_operator(self@, oids@, left, right, fit) == first_operator(
                    self@,
                    oids@.skip(i as int),
                    left,
                    right,
                    fit,
                ),
            decreases oids.len() - i,
        {
            proof {
                assert(oids@.skip(i as int).drop_first() =~= oids@.skip(i + 1));
            }
            match self.pg_operator.get(oids[i]) {
                Some(op) => {
                    let left_fits: bool = match (left, op.oprleft) {
                        (Some(l), Some(e)) => self.operand_fits(l, e, fit),
                        (None, None) => true,
                        _ => false,
                    };
                    if left_fits && self.operand_fits(right, op.oprright, fit) {
                        return Some(op);
                    }
                },
                None => {},
            }
            i = i + 1;
        }
        None
    }

    /// The operator that a name stands for between two operand types.
    pub fn find_operator(&self, name: &str, left: Option<u32>, right: u32) -> (r: Option<
        &PgOperator,
    >)
        ensures
            match r {
                Some(op) => self@.find_operator(name@, left, right) == Some(op@),
                None => self@.find_operator(name@, left, right) is None,
            },
    {
        let oids: Vec<u32> = self.find_operators(None, name);
        let l: Option<u32> = match left {
            Some(l) => Some(self.unwrap_domain(l)),
            None => None,
        };
        let r: u32 = self.unwrap_domain(right);
        let l_known: bool = match l {
            Some(t) => t != UNKNOWN,
            None => false,
        };
        if !l_known && r == UNKNOWN {
            return None;
        }
        let both_l: Option<u32> = if l.is_some() && !l_known {
            Some(r)
        } else {
            l
        };
        let both_r: u32 = match l {
            Some(t) => if r == UNKNOWN {
                t
            } else {
                r
            },
            None => r,
        };
        match self.first_operator(&oids, both_l, both_r, Fit::Same) {
            Some(op) => Some(op),
            None => match self.first_operator(&oids, l, r, Fit::SameOrUnknown) {
                Some(op) => Some(op),
                None => self.first_operator(&oids, l, r, Fit::Castable),
            },
        }
    }

    /// The type that PostgreSQL prefers in a category.
    pub fn preferred_type_in_category(&self, category: TypCategory) -> (r: Option<u32>)
        ensures
            r == self@.preferred_type_in_category(category),
    {
        let ghost types = self@.pg_type;
        let mut i: usize = 0;
        proof {
            assert(types.skip(0) =~= types);
        }
        while i < self.pg_type.len()
            invariant
                types == self@.pg_type,
                i <= types.len(),
                first_preferred(types, category) == first_preferred(
                    types.skip(i as int),
                    category,
                ),
            decreases types.len() - i,
        {
            proof {
                assert(types.skip(i as int).drop_first() =~= types.skip(i + 1));
            }
            let t: &PgType = self.pg_type.at(i);
            if t.typcategory == category && t.typispreferred {
                return Some(t.oid);
            }
            i = i + 1;
        }
        None
    }

    /// The column of a relation with this name.
    pub fn attribute_by_name(&self, relid: u32, name: &str) -> (r: Option<PgAttribute>)
        ensures
            match r {
                Some(a) => self@.attribute_by_name(relid, name@) == Some(a@),
                None => self@.attribute_by_name(relid, name@) is None,
            },
    {
        let attrs: Vec<PgAttribute> = self.attributes_of(relid);
        match attribute_named(&attrs, name) {
            Some(a) => Some(a.copy()),
            None => None,
        }
    }
}

// ── Laws ────────────────────────────────────────────────────────────────────

/// Whether a type is a domain over another one.
pub open spec fn is_domain(c: CatalogView, oid: u32) -> bool {
    match c.get_type(oid) {
        Some(t) => t.typtype == TypType::Domain && t.typbasetype is Some,
        None => false,
    }
}

/// Whether the domains from a type on end in a type that is none, that is, do not lead
/// back to one another.
pub open spec fn domains_end(c: CatalogView, oid: u32) -> bool {
    exists|n: nat| !is_domain(c, #[trigger] domain_base(c, oid, n))
}

/// Looking through some domains and then through some more is looking through as many
/// at once.
pub proof fn lemma_domains_in_two_steps(c: CatalogView, oid: u32, a: nat, b: nat)
    ensures
        domain_base(c, domain_base(c, oid, a), b) == domain_base(c, oid, a + b),
    decreases a,
{
    if is_domain(c, oid) && a > 0 {
        let base = c.get_type(oid)->Some_0.typbasetype->Some_0;
        lemma_domains_in_two_steps(c, base, (a - 1) as nat, b);
    }
}

/// Once no domain is left, looking on changes nothing.
pub proof fn lemma_domains_ended(c: CatalogView, oid: u32, n: nat, m: nat)
    requires
        n <= m,
        !is_domain(c, domain_base(c, oid, n)),
    ensures
        domain_base(c, oid, m) == domain_base(c, oid, n),
{
    lemma_domains_in_two_steps(c, oid, n, (m - n) as nat);
}

proof fn lemma_domains_go_round(c: CatalogView, oid: u32, i: nat, j: nat, n: nat)
    requires
        i < j,
        domain_base(c, oid, i) == domain_base(c, oid, j),
        forall|k: nat| k <= j ==> is_domain(c, #[trigger] domain_base(c, oid, k)),
    ensures
        is_domain(c, domain_base(c, oid, n)),
    decreases n,
{
    if n > j {
        let rest = (n - j) as nat;
        lemma_domains_in_two_steps(c, oid, j, rest);
        lemma_domains_in_two_steps(c, oid, i, rest);
        lemma_domains_go_round(c, oid, i, j, (i + rest) as nat);
    }
}

/// There are no more domains to look through than there are types, unless the domains
/// lead back to one another.
pub proof fn law_all_domains_are_unwrapped(c: CatalogView, oid: u32)
    requires
        domains_end(c, oid),
    ensures
        !is_domain(c, c.unwrap_domain(oid)),
{
    let size = c.pg_type.len();
    if is_domain(c, domain_base(c, oid, size)) {
        assert forall|k: nat| k <= size implies is_domain(c, #[trigger] domain_base(c, oid, k)) by {
            if !is_domain(c, domain_base(c, oid, k)) {
                lemma_domains_ended(c, oid, k, size);
            }
        }
        let places = Seq::new(
            size + 1,
            |k: int| row_position::<PgType>(c.pg_type, domain_base(c, oid, k as nat)),
        );
        assert forall|k: int| 0 <= k < places.len() implies 0 <= #[trigger] places[k] < size
            && PgType::key_of(c.pg_type[places[k]]) == domain_base(c, oid, k as nat) by {
            assert(is_domain(c, domain_base(c, oid, k as nat)));
            lemma_row_position_meaning::<PgType>(c.pg_type, domain_base(c, oid, k as nat));
        }
        if places.no_duplicates() {
            places.unique_seq_to_set();
            lemma_int_range(0, size as int);
            assert(places.to_set().subset_of(set_int_range(0, size as int)));
            lemma_len_subset(places.to_set(), set_int_range(0, size as int));
            assert(false);
        }
        let (i, j) = choose|i: int, j: int|
            0 <= i < places.len() && 0 <= j < places.len() && i != j && places[i] == places[j];
        assert(domain_base(c, oid, i as nat) == domain_base(c, oid, j as nat));
        let n = choose|n: nat| !is_domain(c, #[trigger] domain_base(c, oid, n));
        if i < j {
            lemma_domains_go_round(c, oid, i as nat, j as nat, n);
        } else {
            lemma_domains_go_round(c, oid, j as nat, i as nat, n);
        }
    }
}

/// Looking through the domains around a type gives the same from any place on the way.
pub proof fn law_domains_are_unwrapped_once(c: CatalogView, oid: u32, n: nat)
    requires
        domains_end(c, oid),
    ensures
        c.unwrap_domain(domain_base(c, oid, n)) == c.unwrap_domain(oid),
{
    law_all_domains_are_unwrapped(c, oid);
    let size = c.pg_type.len();
    lemma_domains_in_two_steps(c, oid, n, size);
    lemma_domains_ended(c, oid, size, (n + size) as nat);
}

} // verus!

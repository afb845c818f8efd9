//! OIDs, one type for each catalog table.
//!
//! An OID is never zero. Where a column of the catalogs may hold no OID, the
//! database stores a zero there; here that is an absent value.

use vstd::prelude::*;

verus! {

/// What all the OID types have in common.
pub trait OidLike: Sized + Copy {
    /// The number.
    spec fn number(self) -> u32;

    /// The OID with a number; none for zero.
    fn new(value: u32) -> (r: Option<Self>)
        ensures
            match r {
                Some(o) => value != 0 && o.number() == value,
                None => value == 0,
            },
    ;

    /// The number, which is not zero.
    fn get(self) -> (r: u32)
        ensures
            r == self.number(),
            r != 0,
    ;
}

/// `pg_namespace.oid`: a schema.
#[derive(Debug, Clone, Copy, PartialEq, Eq, Hash, PartialOrd, Ord, Structural)]
pub struct PgNamespaceOid {
    value: u32,
}

impl PgNamespaceOid {
    #[verifier::type_invariant]
    spec fn is_set(self) -> bool {
        self.value != 0
    }

    pub closed spec fn raw(self) -> u32 {
        self.value
    }

    /// The OID with a number; none for zero.
    pub fn new(value: u32) -> (r: Option<PgNamespaceOid>)
        ensures
            match r {
                Some(o) => value != 0 && o.raw() == value,
                None => value == 0,
            },
    {
        if value == 0 {
            None
        } else {
            Some(PgNamespaceOid { value })
        }
    }

    /// The OID with a number that is known not to be zero.
    pub fn from_raw(value: u32) -> (r: PgNamespaceOid)
        requires
            value != 0,
        ensures
            r.raw() == value,
    {
        PgNamespaceOid { value }
    }

    /// The number, which is not zero.
    pub fn get(self) -> (r: u32)
        ensures
            r == self.raw(),
            r != 0,
    {
        proof {
            use_type_invariant(self);
        }
        self.value
    }

    /// The OID that a document gives as a number.
    ///
    /// # Errors
    ///
    /// The number is zero.
    pub fn checked(value: u32) -> (r: Result<PgNamespaceOid, &'static str>)
        ensures
            match r {
                Ok(o) => value != 0 && o.raw() == value,
                Err(e) => value == 0 && e@ == "PgNamespaceOid must be non-zero"@,
            },
    {
        if value == 0 {
            Err("PgNamespaceOid must be non-zero")
        } else {
            Ok(PgNamespaceOid { value })
        }
    }
}

impl OidLike for PgNamespaceOid {
    open spec fn number(self) -> u32 {
        self.raw()
    }

    fn new(value: u32) -> (r: Option<PgNamespaceOid>) {
        PgNamespaceOid::new(value)
    }

    fn get(self) -> (r: u32) {
        PgNamespaceOid::get(self)
    }
}

/// `pg_type.oid`: a type.
#[derive(Debug, Clone, Copy, PartialEq, Eq, Hash, PartialOrd, Ord, Structural)]
pub struct PgTypeOid {
    value: u32,
}

impl PgTypeOid {
    #[verifier::type_invariant]
    spec fn is_set(self) -> bool {
        self.value != 0
    }

    pub closed spec fn raw(self) -> u32 {
        self.value
    }

    /// The OID with a number; none for zero.
    pub fn new(value: u32) -> (r: Option<PgTypeOid>)
        ensures
            match r {
                Some(o) => value != 0 && o.raw() == value,
                None => value == 0,
            },
    {
        if value == 0 {
            None
        } else {
            Some(PgTypeOid { value })
        }
    }

    /// The OID with a number that is known not to be zero.
    pub fn from_raw(value: u32) -> (r: PgTypeOid)
        requires
            value != 0,
        ensures
            r.raw() == value,
    {
        PgTypeOid { value }
    }

    /// The number, which is not zero.
    pub fn get(self) -> (r: u32)
        ensures
            r == self.raw(),
            r != 0,
    {
        proof {
            use_type_invariant(self);
        }
        self.value
    }

    /// The OID that a document gives as a number.
    ///
    /// # Errors
    ///
    /// The number is zero.
    pub fn checked(value: u32) -> (r: Result<PgTypeOid, &'static str>)
        ensures
            match r {
                Ok(o) => value != 0 && o.raw() == value,
                Err(e) => value == 0 && e@ == "PgTypeOid must be non-zero"@,
            },
    {
        if value == 0 {
            Err("PgTypeOid must be non-zero")
        } else {
            Ok(PgTypeOid { value })
        }
    }
}

impl OidLike for PgTypeOid {
    open spec fn number(self) -> u32 {
        self.raw()
    }

    fn new(value: u32) -> (r: Option<PgTypeOid>) {
        PgTypeOid::new(value)
    }

    fn get(self) -> (r: u32) {
        PgTypeOid::get(self)
    }
}

/// `pg_class.oid`: a relation; also the `classid` and `refclassid` of `pg_depend`.
#[derive(Debug, Clone, Copy, PartialEq, Eq, Hash, PartialOrd, Ord, Structural)]
pub struct PgClassOid {
    value: u32,
}

impl PgClassOid {
    #[verifier::type_invariant]
    spec fn is_set(self) -> bool {
        self.value != 0
    }

    pub closed spec fn raw(self) -> u32 {
        self.value
    }

    /// The OID with a number; none for zero.
    pub fn new(value: u32) -> (r: Option<PgClassOid>)
        ensures
            match r {
                Some(o) => value != 0 && o.raw() == value,
                None => value == 0,
            },
    {
        if value == 0 {
            None
        } else {
            Some(PgClassOid { value })
        }
    }

    /// The OID with a number that is known not to be zero.
    pub fn from_raw(value: u32) -> (r: PgClassOid)
        requires
            value != 0,
        ensures
            r.raw() == value,
    {
        PgClassOid { value }
    }

    /// The number, which is not zero.
    pub fn get(self) -> (r: u32)
        ensures
            r == self.raw(),
            r != 0,
    {
        proof {
            use_type_invariant(self);
        }
        self.value
    }

    /// The OID that a document gives as a number.
    ///
    /// # Errors
    ///
    /// The number is zero.
    pub fn checked(value: u32) -> (r: Result<PgClassOid, &'static str>)
        ensures
            match r {
                Ok(o) => value != 0 && o.raw() == value,
                Err(e) => value == 0 && e@ == "PgClassOid must be non-zero"@,
            },
    {
        if value == 0 {
            Err("PgClassOid must be non-zero")
        } else {
            Ok(PgClassOid { value })
        }
    }
}

impl OidLike for PgClassOid {
    open spec fn number(self) -> u32 {
        self.raw()
    }

    fn new(value: u32) -> (r: Option<PgClassOid>) {
        PgClassOid::new(value)
    }

    fn get(self) -> (r: u32) {
        PgClassOid::get(self)
    }
}

/// `pg_proc.oid`: a function, procedure or aggregate.
#[derive(Debug, Clone, Copy, PartialEq, Eq, Hash, PartialOrd, Ord, Structural)]
pub struct PgProcOid {
    value: u32,
}

impl PgProcOid {
    #[verifier::type_invariant]
    spec fn is_set(self) -> bool {
        self.value != 0
    }

    pub closed spec fn raw(self) -> u32 {
        self.value
    }

    /// The OID with a number; none for zero.
    pub fn new(value: u32) -> (r: Option<PgProcOid>)
        ensures
            match r {
                Some(o) => value != 0 && o.raw() == value,
                None => value == 0,
            },
    {
        if value == 0 {
            None
        } else {
            Some(PgProcOid { value })
        }
    }

    /// The OID with a number that is known not to be zero.
    pub fn from_raw(value: u32) -> (r: PgProcOid)
        requires
            value != 0,
        ensures
            r.raw() == value,
    {
        PgProcOid { value }
    }

    /// The number, which is not zero.
    pub fn get(self) -> (r: u32)
        ensures
            r == self.raw(),
            r != 0,
    {
        proof {
            use_type_invariant(self);
        }
        self.value
    }

    /// The OID that a document gives as a number.
    ///
    /// # Errors
    ///
    /// The number is zero.
    pub fn checked(value: u32) -> (r: Result<PgProcOid, &'static str>)
        ensures
            match r {
                Ok(o) => value != 0 && o.raw() == value,
                Err(e) => value == 0 && e@ == "PgProcOid must be non-zero"@,
            },
    {
        if value == 0 {
            Err("PgProcOid must be non-zero")
        } else {
            Ok(PgProcOid { value })
        }
    }
}

impl OidLike for PgProcOid {
    open spec fn number(self) -> u32 {
        self.raw()
    }

    fn new(value: u32) -> (r: Option<PgProcOid>) {
        PgProcOid::new(value)
    }

    fn get(self) -> (r: u32) {
        PgProcOid::get(self)
    }
}

/// `pg_operator.oid`: an operator.
#[derive(Debug, Clone, Copy, PartialEq, Eq, Hash, PartialOrd, Ord, Structural)]
pub struct PgOperatorOid {
    value: u32,
}

impl PgOperatorOid {
    #[verifier::type_invariant]
    spec fn is_set(self) -> bool {
        self.value != 0
    }

    pub closed spec fn raw(self) -> u32 {
        self.value
    }

    /// The OID with a number; none for zero.
    pub fn new(value: u32) -> (r: Option<PgOperatorOid>)
        ensures
            match r {
                Some(o) => value != 0 && o.raw() == value,
                None => value == 0,
            },
    {
        if value == 0 {
            None
        } else {
            Some(PgOperatorOid { value })
        }
    }

    /// The OID with a number that is known not to be zero.
    pub fn from_raw(value: u32) -> (r: PgOperatorOid)
        requires
            value != 0,
        ensures
            r.raw() == value,
    {
        PgOperatorOid { value }
    }

    /// The number, which is not zero.
    pub fn get(self) -> (r: u32)
        ensures
            r == self.raw(),
            r != 0,
    {
        proof {
            use_type_invariant(self);
        }
        self.value
    }

    /// The OID that a document gives as a number.
    ///
    /// # Errors
    ///
    /// The number is zero.
    pub fn checked(value: u32) -> (r: Result<PgOperatorOid, &'static str>)
        ensures
            match r {
                Ok(o) => value != 0 && o.raw() == value,
                Err(e) => value == 0 && e@ == "PgOperatorOid must be non-zero"@,
            },
    {
        if value == 0 {
            Err("PgOperatorOid must be non-zero")
        } else {
            Ok(PgOperatorOid { value })
        }
    }
}

impl OidLike for PgOperatorOid {
    open spec fn number(self) -> u32 {
        self.raw()
    }

    fn new(value: u32) -> (r: Option<PgOperatorOid>) {
        PgOperatorOid::new(value)
    }

    fn get(self) -> (r: u32) {
        PgOperatorOid::get(self)
    }
}

/// `pg_cast.oid`: a cast.
#[derive(Debug, Clone, Copy, PartialEq, Eq, Hash, PartialOrd, Ord, Structural)]
pub struct PgCastOid {
    value: u32,
}

impl PgCastOid {
    #[verifier::type_invariant]
    spec fn is_set(self) -> bool {
        self.value != 0
    }

    pub closed spec fn raw(self) -> u32 {
        self.value
    }

    /// The OID with a number; none for zero.
    pub fn new(value: u32) -> (r: Option<PgCastOid>)
        ensures
            match r {
                Some(o) => value != 0 && o.raw() == value,
                None => value == 0,
            },
    {
        if value == 0 {
            None
        } else {
            Some(PgCastOid { value })
        }
    }

    /// The OID with a number that is known not to be zero.
    pub fn from_raw(value: u32) -> (r: PgCastOid)
        requires
            value != 0,
        ensures
            r.raw() == value,
    {
        PgCastOid { value }
    }

    /// The number, which is not zero.
    pub fn get(self) -> (r: u32)
        ensures
            r == self.raw(),
            r != 0,
    {
        proof {
            use_type_invariant(self);
        }
        self.value
    }

    /// The OID that a document gives as a number.
    ///
    /// # Errors
    ///
    /// The number is zero.
    pub fn checked(value: u32) -> (r: Result<PgCastOid, &'static str>)
        ensures
            match r {
                Ok(o) => value != 0 && o.raw() == value,
                Err(e) => value == 0 && e@ == "PgCastOid must be non-zero"@,
            },
    {
        if value == 0 {
            Err("PgCastOid must be non-zero")
        } else {
            Ok(PgCastOid { value })
        }
    }
}

impl OidLike for PgCastOid {
    open spec fn number(self) -> u32 {
        self.raw()
    }

    fn new(value: u32) -> (r: Option<PgCastOid>) {
        PgCastOid::new(value)
    }

    fn get(self) -> (r: u32) {
        PgCastOid::get(self)
    }
}

/// `pg_extension.oid`: an extension.
#[derive(Debug, Clone, Copy, PartialEq, Eq, Hash, PartialOrd, Ord, Structural)]
pub struct PgExtensionOid {
    value: u32,
}

impl PgExtensionOid {
    #[verifier::type_invariant]
    spec fn is_set(self) -> bool {
        self.value != 0
    }

    pub closed spec fn raw(self) -> u32 {
        self.value
    }

    /// The OID with a number; none for zero.
    pub fn new(value: u32) -> (r: Option<PgExtensionOid>)
        ensures
            match r {
                Some(o) => value != 0 && o.raw() == value,
                None => value == 0,
            },
    {
        if value == 0 {
            None
        } else {
            Some(PgExtensionOid { value })
        }
    }

    /// The OID with a number that is known not to be zero.
    pub fn from_raw(value: u32) -> (r: PgExtensionOid)
        requires
            value != 0,
        ensures
            r.raw() == value,
    {
        PgExtensionOid { value }
    }

    /// The number, which is not zero.
    pub fn get(self) -> (r: u32)
        ensures
            r == self.raw(),
            r != 0,
    {
        proof {
            use_type_invariant(self);
        }
        self.value
    }

    /// The OID that a document gives as a number.
    ///
    /// # Errors
    ///
    /// The number is zero.
    pub fn checked(value: u32) -> (r: Result<PgExtensionOid, &'static str>)
        ensures
            match r {
                Ok(o) => value != 0 && o.raw() == value,
                Err(e) => value == 0 && e@ == "PgExtensionOid must be non-zero"@,
            },
    {
        if value == 0 {
            Err("PgExtensionOid must be non-zero")
        } else {
            Ok(PgExtensionOid { value })
        }
    }
}

impl OidLike for PgExtensionOid {
    open spec fn number(self) -> u32 {
        self.raw()
    }

    fn new(value: u32) -> (r: Option<PgExtensionOid>) {
        PgExtensionOid::new(value)
    }

    fn get(self) -> (r: u32) {
        PgExtensionOid::get(self)
    }
}

/// `pg_enum.oid`: a label of an enum.
#[derive(Debug, Clone, Copy, PartialEq, Eq, Hash, PartialOrd, Ord, Structural)]
pub struct PgEnumOid {
    value: u32,
}

impl PgEnumOid {
    #[verifier::type_invariant]
    spec fn is_set(self) -> bool {
        self.value != 0
    }

    pub closed spec fn raw(self) -> u32 {
        self.value
    }

    /// The OID with a number; none for zero.
    pub fn new(value: u32) -> (r: Option<PgEnumOid>)
        ensures
            match r {
                Some(o) => value != 0 && o.raw() == value,
                None => value == 0,
            },
    {
        if value == 0 {
            None
        } else {
            Some(PgEnumOid { value })
        }
    }

    /// The OID with a number that is known not to be zero.
    pub fn from_raw(value: u32) -> (r: PgEnumOid)
        requires
            value != 0,
        ensures
            r.raw() == value,
    {
        PgEnumOid { value }
    }

    /// The number, which is not zero.
    pub fn get(self) -> (r: u32)
        ensures
            r == self.raw(),
            r != 0,
    {
        proof {
            use_type_invariant(self);
        }
        self.value
    }

    /// The OID that a document gives as a number.
    ///
    /// # Errors
    ///
    /// The number is zero.
    pub fn checked(value: u32) -> (r: Result<PgEnumOid, &'static str>)
        ensures
            match r {
                Ok(o) => value != 0 && o.raw() == value,
                Err(e) => value == 0 && e@ == "PgEnumOid must be non-zero"@,
            },
    {
        if value == 0 {
            Err("PgEnumOid must be non-zero")
        } else {
            Ok(PgEnumOid { value })
        }
    }
}

impl OidLike for PgEnumOid {
    open spec fn number(self) -> u32 {
        self.raw()
    }

    fn new(value: u32) -> (r: Option<PgEnumOid>) {
        PgEnumOid::new(value)
    }

    fn get(self) -> (r: u32) {
        PgEnumOid::get(self)
    }
}

/// `pg_constraint.oid`: a constraint.
#[derive(Debug, Clone, Copy, PartialEq, Eq, Hash, PartialOrd, Ord, Structural)]
pub struct PgConstraintOid {
    value: u32,
}

impl PgConstraintOid {
    #[verifier::type_invariant]
    spec fn is_set(self) -> bool {
        self.value != 0
    }

    pub closed spec fn raw(self) -> u32 {
        self.value
    }

    /// The OID with a number; none for zero.
    pub fn new(value: u32) -> (r: Option<PgConstraintOid>)
        ensures
            match r {
                Some(o) => value != 0 && o.raw() == value,
                None => value == 0,
            },
    {
        if value == 0 {
            None
        } else {
            Some(PgConstraintOid { value })
        }
    }

    /// The OID with a number that is known not to be zero.
    pub fn from_raw(value: u32) -> (r: PgConstraintOid)
        requires
            value != 0,
        ensures
            r.raw() == value,
    {
        PgConstraintOid { value }
    }

    /// The number, which is not zero.
    pub fn get(self) -> (r: u32)
        ensures
            r == self.raw(),
            r != 0,
    {
        proof {
            use_type_invariant(self);
        }
        self.value
    }

    /// The OID that a document gives as a number.
    ///
    /// # Errors
    ///
    /// The number is zero.
    pub fn checked(value: u32) -> (r: Result<PgConstraintOid, &'static str>)
        ensures
            match r {
                Ok(o) => value != 0 && o.raw() == value,
                Err(e) => value == 0 && e@ == "PgConstraintOid must be non-zero"@,
            },
    {
        if value == 0 {
            Err("PgConstraintOid must be non-zero")
        } else {
            Ok(PgConstraintOid { value })
        }
    }
}

impl OidLike for PgConstraintOid {
    open spec fn number(self) -> u32 {
        self.raw()
    }

    fn new(value: u32) -> (r: Option<PgConstraintOid>) {
        PgConstraintOid::new(value)
    }

    fn get(self) -> (r: u32) {
        PgConstraintOid::get(self)
    }
}

/// `pg_rewrite.oid`: a rule.
#[derive(Debug, Clone, Copy, PartialEq, Eq, Hash, PartialOrd, Ord, Structural)]
pub struct PgRewriteOid {
    value: u32,
}

impl PgRewriteOid {
    #[verifier::type_invariant]
    spec fn is_set(self) -> bool {
        self.value != 0
    }

    pub closed spec fn raw(self) -> u32 {
        self.value
    }

    /// The OID with a number; none for zero.
    pub fn new(value: u32) -> (r: Option<PgRewriteOid>)
        ensures
            match r {
                Some(o) => value != 0 && o.raw() == value,
                None => value == 0,
            },
    {
        if value == 0 {
            None
        } else {
            Some(PgRewriteOid { value })
        }
    }

    /// The OID with a number that is known not to be zero.
    pub fn from_raw(value: u32) -> (r: PgRewriteOid)
        requires
            value != 0,
        ensures
            r.raw() == value,
    {
        PgRewriteOid { value }
    }

    /// The number, which is not zero.
    pub fn get(self) -> (r: u32)
        ensures
            r == self.raw(),
            r != 0,
    {
        proof {
            use_type_invariant(self);
        }
        self.value
    }

    /// The OID that a document gives as a number.
    ///
    /// # Errors
    ///
    /// The number is zero.
    pub fn checked(value: u32) -> (r: Result<PgRewriteOid, &'static str>)
        ensures
            match r {
                Ok(o) => value != 0 && o.raw() == value,
                Err(e) => value == 0 && e@ == "PgRewriteOid must be non-zero"@,
            },
    {
        if value == 0 {
            Err("PgRewriteOid must be non-zero")
        } else {
            Ok(PgRewriteOid { value })
        }
    }
}

impl OidLike for PgRewriteOid {
    open spec fn number(self) -> u32 {
        self.raw()
    }

    fn new(value: u32) -> (r: Option<PgRewriteOid>) {
        PgRewriteOid::new(value)
    }

    fn get(self) -> (r: u32) {
        PgRewriteOid::get(self)
    }
}

/// `pg_collation.oid`: a collation.
#[derive(Debug, Clone, Copy, PartialEq, Eq, Hash, PartialOrd, Ord, Structural)]
pub struct PgCollationOid {
    value: u32,
}

impl PgCollationOid {
    #[verifier::type_invariant]
    spec fn is_set(self) -> bool {
        self.value != 0
    }

    pub closed spec fn raw(self) -> u32 {
        self.value
    }

    /// The OID with a number; none for zero.
    pub fn new(value: u32) -> (r: Option<PgCollationOid>)
        ensures
            match r {
                Some(o) => value != 0 && o.raw() == value,
                None => value == 0,
            },
    {
        if value == 0 {
            None
        } else {
            Some(PgCollationOid { value })
        }
    }

    /// The OID with a number that is known not to be zero.
    pub fn from_raw(value: u32) -> (r: PgCollationOid)
        requires
            value != 0,
        ensures
            r.raw() == value,
    {
        PgCollationOid { value }
    }

    /// The number, which is not zero.
    pub fn get(self) -> (r: u32)
        ensures
            r == self.raw(),
            r != 0,
    {
        proof {
            use_type_invariant(self);
        }
        self.value
    }

    /// The OID that a document gives as a number.
    ///
    /// # Errors
    ///
    /// The number is zero.
    pub fn checked(value: u32) -> (r: Result<PgCollationOid, &'static str>)
        ensures
            match r {
                Ok(o) => value != 0 && o.raw() == value,
                Err(e) => value == 0 && e@ == "PgCollationOid must be non-zero"@,
            },
    {
        if value == 0 {
            Err("PgCollationOid must be non-zero")
        } else {
            Ok(PgCollationOid { value })
        }
    }
}

impl OidLike for PgCollationOid {
    open spec fn number(self) -> u32 {
        self.raw()
    }

    fn new(value: u32) -> (r: Option<PgCollationOid>) {
        PgCollationOid::new(value)
    }

    fn get(self) -> (r: u32) {
        PgCollationOid::get(self)
    }
}

/// `pg_depend.objid` and `refobjid`, whose table the class beside it names.
#[derive(Debug, Clone, Copy, PartialEq, Eq, Hash, PartialOrd, Ord, Structural)]
pub struct PgGenericOid {
    value: u32,
}

impl PgGenericOid {
    #[verifier::type_invariant]
    spec fn is_set(self) -> bool {
        self.value != 0
    }

    pub closed spec fn raw(self) -> u32 {
        self.value
    }

    /// The OID with a number; none for zero.
    pub fn new(value: u32) -> (r: Option<PgGenericOid>)
        ensures
            match r {
                Some(o) => value != 0 && o.raw() == value,
                None => value == 0,
            },
    {
        if value == 0 {
            None
        } else {
            Some(PgGenericOid { value })
        }
    }

    /// The OID with a number that is known not to be zero.
    pub fn from_raw(value: u32) -> (r: PgGenericOid)
        requires
            value != 0,
        ensures
            r.raw() == value,
    {
        PgGenericOid { value }
    }

    /// The number, which is not zero.
    pub fn get(self) -> (r: u32)
        ensures
            r == self.raw(),
            r != 0,
    {
        proof {
            use_type_invariant(self);
        }
        self.value
    }

    /// The OID that a document gives as a number.
    ///
    /// # Errors
    ///
    /// The number is zero.
    pub fn checked(value: u32) -> (r: Result<PgGenericOid, &'static str>)
        ensures
            match r {
                Ok(o) => value != 0 && o.raw() == value,
                Err(e) => value == 0 && e@ == "PgGenericOid must be non-zero"@,
            },
    {
        if value == 0 {
            Err("PgGenericOid must be non-zero")
        } else {
            Ok(PgGenericOid { value })
        }
    }
}

impl OidLike for PgGenericOid {
    open spec fn number(self) -> u32 {
        self.raw()
    }

    fn new(value: u32) -> (r: Option<PgGenericOid>) {
        PgGenericOid::new(value)
    }

    fn get(self) -> (r: u32) {
        PgGenericOid::get(self)
    }
}

// ── Stored forms ────────────────────────────────────────────────────────────

/// The numbers of several OIDs.
pub open spec fn numbers<O: OidLike>(list: Seq<O>) -> Seq<u32> {
    list.map_values(|o: O| o.number())
}

/// The stored form of an OID that may be absent: zero stands for none.
pub fn oid_or_zero<O: OidLike>(value: Option<O>) -> (r: u32)
    ensures
        match value {
            Some(o) => r == o.number() && r != 0,
            None => r == 0,
        },
{
    match value {
        Some(o) => o.get(),
        None => 0,
    }
}

/// The OID that a stored form stands for.
pub fn oid_from_stored<O: OidLike>(raw: u32) -> (r: Option<O>)
    ensures
        match r {
            Some(o) => raw != 0 && o.number() == raw,
            None => raw == 0,
        },
{
    O::new(raw)
}

/// The stored form of a list of OIDs.
pub fn stored_oids<O: OidLike>(value: &Vec<O>) -> (r: Vec<u32>)
    ensures
        r@ == numbers(value@),
{
    let mut r: Vec<u32> = Vec::new();
    let mut i: usize = 0;
    while i < value.len()
        invariant
            i <= value@.len(),
            r@ == numbers(value@).take(i as int),
        decreases value.len() - i,
    {
        r.push(value[i].get());
        proof {
            assert(numbers(value@).take(i + 1) =~= numbers(value@).take(i as int).push(
                numbers(value@)[i as int],
            ));
        }
        i = i + 1;
    }
    proof {
        assert(numbers(value@).take(i as int) =~= numbers(value@));
    }
    r
}

/// The numbers of a stored list that are OIDs: all but zero.
pub open spec fn stored_numbers(raws: Seq<u32>) -> Seq<u32>
    decreases raws.len(),
{
    if raws.len() == 0 {
        Seq::empty()
    } else {
        let rest = stored_numbers(raws.drop_last());
        if raws.last() != 0 {
            rest.push(raws.last())
        } else {
            rest
        }
    }
}

/// The OIDs that a stored list stands for. A zero, which older lists may hold, stands
/// for none.
pub fn oids_from_stored<O: OidLike>(raws: &Vec<u32>) -> (r: Vec<O>)
    ensures
        numbers(r@) == stored_numbers(raws@),
{
    let mut v: Vec<O> = Vec::new();
    let mut i: usize = 0;
    proof {
        assert(numbers(v@) =~= stored_numbers(raws@.take(0)));
    }
    while i < raws.len()
        invariant
            i <= raws@.len(),
            numbers(v@) == stored_numbers(raws@.take(i as int)),
        decreases raws.len() - i,
    {
        proof {
            assert(raws@.take(i + 1).drop_last() =~= raws@.take(i as int));
        }
        match O::new(raws[i]) {
            Some(o) => {
                let ghost before = v@;
                v.push(o);
                proof {
                    assert(numbers(v@) =~= numbers(before).push(o.number()));
                }
            },
            None => {},
        }
        i = i + 1;
    }
    proof {
        assert(raws@.take(i as int) =~= raws@);
    }
    v
}

/// The stored form of a number that may be absent: `-1` stands for none.
pub open spec fn stored_number(value: Option<i32>) -> i32 {
    match value {
        Some(v) => v,
        None => -1i32,
    }
}

/// The number that a stored form stands for; `-1` stands for none.
pub open spec fn number_from(raw: i32) -> Option<i32> {
    if raw == -1 {
        None
    } else {
        Some(raw)
    }
}

/// The stored form of a number that may be absent.
pub fn option_i32_neg_one(value: Option<i32>) -> (r: i32)
    ensures
        r == stored_number(value),
{
    match value {
        Some(v) => v,
        None => -1,
    }
}

/// The number that a stored form stands for.
pub fn option_i32_from_stored(raw: i32) -> (r: Option<i32>)
    ensures
        r == number_from(raw),
{
    if raw == -1 {
        None
    } else {
        Some(raw)
    }
}

// ── Laws ────────────────────────────────────────────────────────────────────

/// A number that may be absent comes back from its stored form, but for `-1`, which
/// comes back as absent.
pub proof fn law_stored_number_comes_back(value: Option<i32>)
    requires
        value != Some(-1i32),
    ensures
        number_from(stored_number(value)) == value,
{
}

/// A list of OIDs comes back from its stored form, since none of them is zero.
pub proof fn law_stored_oids_come_back(numbers: Seq<u32>)
    requires
        !numbers.contains(0),
    ensures
        stored_numbers(numbers) == numbers,
    decreases numbers.len(),
{
    if numbers.len() > 0 {
        let rest = numbers.drop_last();
        assert(numbers.last() == numbers[numbers.len() - 1]);
        assert forall|k: int| 0 <= k < rest.len() implies rest[k] != 0 by {
            assert(rest[k] == numbers[k]);
        }
        law_stored_oids_come_back(rest);
        assert(rest.push(numbers.last()) =~= numbers);
    }
}

/// No zero is read from a stored list.
pub proof fn law_no_zero_is_read(raws: Seq<u32>)
    ensures
        !stored_numbers(raws).contains(0),
        stored_numbers(raws).len() <= raws.len(),
    decreases raws.len(),
{
    if raws.len() > 0 {
        law_no_zero_is_read(raws.drop_last());
        let s = stored_numbers(raws);
        assert forall|k: int| 0 <= k < s.len() implies s[k] != 0 by {
            let rest = stored_numbers(raws.drop_last());
            if k < rest.len() {
                assert(rest[k] == s[k]);
            }
        }
    }
}

} // verus!

//! The type of an expression, as the analyzer infers it.

use vstd::prelude::*;

verus! {

/// The type of an expression and whether it may be null. `record_fields` holds
/// the fields of an anonymous record whose fields are known, such as `ROW(1, 2)`.
#[derive(Debug)]
pub struct ExprType {
    pub type_oid: u32,
    pub nullable: bool,
    pub record_fields: Option<Vec<RecordField>>,
}

/// One field of an anonymous record.
#[derive(Debug)]
pub struct RecordField {
    pub name: String,
    pub ty: ExprType,
}

/// A field as the catalog knows it: of a composite type, or of what a function
/// returns through its output arguments.
#[derive(Debug)]
pub struct CompositeField {
    pub name: String,
    pub type_oid: u32,
    pub not_null: bool,
}

#[verifier::ext_equal]
pub struct CompositeFieldView {
    pub name: Seq<char>,
    pub type_oid: u32,
    pub not_null: bool,
}

impl View for CompositeField {
    type V = CompositeFieldView;

    open spec fn view(&self) -> CompositeFieldView {
        CompositeFieldView {
            name: self.name@,
            type_oid: self.type_oid,
            not_null: self.not_null,
        }
    }
}

/// The views of a list of fields.
pub open spec fn composite_views(fields: Seq<CompositeField>) -> Seq<CompositeFieldView> {
    fields.map_values(|f: CompositeField| f@)
}

#[verifier::ext_equal]
pub struct ExprTypeView {
    pub type_oid: u32,
    pub nullable: bool,
    pub record_fields: Option<Seq<RecordFieldView>>,
}

#[verifier::ext_equal]
pub struct RecordFieldView {
    pub name: Seq<char>,
    pub ty: ExprTypeView,
}

/// The views of a list of record fields.
pub open spec fn field_views_of(fields: Seq<RecordField>) -> Seq<RecordFieldView>
    decreases fields,
{
    if fields.len() == 0 {
        Seq::empty()
    } else {
        field_views_of(fields.drop_last()).push(
            RecordFieldView { name: fields.last().name@, ty: fields.last().ty.view() },
        )
    }
}

/// The view of fields that may be unknown.
pub open spec fn opt_field_views(fields: Option<Vec<RecordField>>) -> Option<Seq<RecordFieldView>>
    decreases fields,
{
    match fields {
        Some(v) => Some(field_views_of(v@)),
        None => None,
    }
}

impl ExprType {
    /// The type as a mathematical value.
    pub open spec fn view(&self) -> ExprTypeView
        decreases self,
    {
        ExprTypeView {
            type_oid: self.type_oid,
            nullable: self.nullable,
            record_fields: match self.record_fields {
                Some(v) => Some(field_views_of(v@)),
                None => None,
            },
        }
    }
}

/// A type that is no record.
pub open spec fn scalar_type(type_oid: u32, nullable: bool) -> ExprTypeView {
    ExprTypeView { type_oid, nullable, record_fields: None }
}

/// The first field of this name.
pub open spec fn find_field(fields: Seq<RecordFieldView>, name: Seq<char>) -> Option<
    RecordFieldView,
>
    decreases fields.len(),
{
    if fields.len() == 0 {
        None
    } else if fields[0].name == name {
        Some(fields[0])
    } else {
        find_field(fields.drop_first(), name)
    }
}

/// The fields of a record that has the given fields of the catalog.
pub open spec fn lifted(fields: Seq<CompositeFieldView>) -> Seq<RecordFieldView> {
    fields.map_values(
        |f: CompositeFieldView|
            RecordFieldView { name: f.name, ty: scalar_type(f.type_oid, !f.not_null) },
    )
}

pub proof fn lemma_field_views(fields: Seq<RecordField>)
    ensures
        field_views_of(fields).len() == fields.len(),
        forall|i: int|
            0 <= i < fields.len() ==> (#[trigger] field_views_of(fields)[i]) == (RecordFieldView {
                name: fields[i].name@,
                ty: fields[i].ty.view(),
            }),
    decreases fields.len(),
{
    if fields.len() > 0 {
        lemma_field_views(fields.drop_last());
    }
}

pub proof fn lemma_field_views_push(fields: Seq<RecordField>, f: RecordField)
    ensures
        field_views_of(fields.push(f)) == field_views_of(fields).push(
            RecordFieldView { name: f.name@, ty: f.ty.view() },
        ),
{
    assert(fields.push(f).drop_last() =~= fields);
}

impl ExprType {
    /// A type that is no record.
    pub fn scalar(type_oid: u32, nullable: bool) -> (r: ExprType)
        ensures
            r@ == scalar_type(type_oid, nullable),
    {
        ExprType { type_oid, nullable, record_fields: None }
    }

    /// A copy of this type.
    pub fn copy(&self) -> (r: ExprType)
        ensures
            r@ == self@,
        decreases self, 0nat,
    {
        let record_fields: Option<Vec<RecordField>> = match &self.record_fields {
            Some(v) => Some(copy_fields(v)),
            None => None,
        };
        ExprType { type_oid: self.type_oid, nullable: self.nullable, record_fields }
    }
}

/// A copy of a list of record fields.
pub fn copy_fields(fields: &Vec<RecordField>) -> (r: Vec<RecordField>)
    ensures
        field_views_of(r@) == field_views_of(fields@),
    decreases fields, 1nat,
{
    let mut r: Vec<RecordField> = Vec::new();
    let mut i: usize = 0;
    while i < fields.len()
        invariant
            i <= fields@.len(),
            field_views_of(r@) == field_views_of(fields@.take(i as int)),
        decreases fields.len() - i,
    {
        proof {
            assert(fields@.take(i + 1) =~= fields@.take(i as int).push(fields@[i as int]));
            lemma_field_views_push(fields@.take(i as int), fields@[i as int]);
            assert(decreases_to!(fields => fields@[i as int]));
            assert(decreases_to!(fields@[i as int] => fields@[i as int].ty));
        }
        let f: RecordField = RecordField { name: fields[i].name.clone(), ty: fields[i].ty.copy() };
        proof {
            lemma_field_views_push(r@, f);
        }
        r.push(f);
        i = i + 1;
    }
    proof {
        assert(fields@.take(i as int) =~= fields@);
    }
    r
}

/// The first field of this name.
pub fn field_named<'a>(fields: &'a Vec<RecordField>, name: &str) -> (r: Option<&'a RecordField>)
    ensures
        match r {
            Some(f) => find_field(field_views_of(fields@), name@) == Some(
                RecordFieldView { name: f.name@, ty: f.ty@ },
            ),
            None => find_field(field_views_of(fields@), name@) is None,
        },
{
    let ghost views = field_views_of(fields@);
    let mut i: usize = 0;
    proof {
        lemma_field_views(fields@);
        assert(views.skip(0) =~= views);
    }
    while i < fields.len()
        invariant
            i <= fields@.len(),
            views == field_views_of(fields@),
            views.len() == fields@.len(),
            find_field(views, name@) == find_field(views.skip(i as int), name@),
        decreases fields.len() - i,
    {
        proof {
            lemma_field_views(fields@);
            assert(views.skip(i as int).drop_first() =~= views.skip(i + 1));
            assert(views.skip(i as int)[0] == views[i as int]);
        }
        if crate::text::same_text(fields[i].name.as_str(), name) {
            return Some(&fields[i]);
        }
        i = i + 1;
    }
    None
}

impl RecordField {
    /// The field of a record that a field of the catalog gives.
    pub fn lift(f: &CompositeField) -> (r: RecordField)
        ensures
            r.name@ == f.name@,
            r.ty@ == scalar_type(f.type_oid, !f.not_null),
    {
        RecordField { name: f.name.clone(), ty: ExprType::scalar(f.type_oid, !f.not_null) }
    }

    /// The fields of a record that the fields of the catalog give.
    pub fn lift_all(fields: &Vec<CompositeField>) -> (r: Vec<RecordField>)
        ensures
            field_views_of(r@) == lifted(composite_views(fields@)),
    {
        let mut r: Vec<RecordField> = Vec::new();
        let mut i: usize = 0;
        let ghost all = lifted(composite_views(fields@));
        proof {
            assert(field_views_of(r@) =~= all.take(0));
        }
        while i < fields.len()
            invariant
                i <= fields@.len(),
                all == lifted(composite_views(fields@)),
                field_views_of(r@) == all.take(i as int),
            decreases fields.len() - i,
        {
            let f: RecordField = RecordField::lift(&fields[i]);
            proof {
                lemma_field_views_push(r@, f);
                assert(all.take(i + 1) =~= all.take(i as int).push(all[i as int]));
            }
            r.push(f);
            i = i + 1;
        }
        proof {
            assert(all.take(i as int) =~= all);
        }
        r
    }
}

} // verus!

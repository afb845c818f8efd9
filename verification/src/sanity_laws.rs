//! When two readings of a statement agree.

use crate::sanity::{
    Mismatch, OurColumn, TheirColumn, Type, apply_mismatch, column_mismatch, described_name,
    plain_column,
};
use vstd::prelude::*;

verus! {

/// Two outcomes of a statement agree where both accept it, or where the server refuses it
/// with no message, or where our refusal begins with the message of the server.
pub proof fn law_outcomes_agree(ours: Option<Seq<char>>, theirs: Option<Option<Seq<char>>>)
    ensures
        theirs is None ==> (apply_mismatch(ours, theirs) is None <==> ours is None),
        theirs == Some(None::<Seq<char>>) ==> apply_mismatch(ours, theirs) is None,
        theirs is Some && theirs->0 is Some ==> (apply_mismatch(ours, theirs) is None <==> ours
            is Some && ours->0.len() >= theirs->0->0.len() && ours->0.take(
            theirs->0->0.len() as int,
        ) == theirs->0->0),
        ours is Some && theirs is None ==> apply_mismatch(ours, theirs) == Some(
            Mismatch::WronglyRefused,
        ),
        ours is None && theirs is Some && theirs->0 is Some ==> apply_mismatch(ours, theirs)
            == Some(Mismatch::WronglyAccepted),
{
}

/// A column of ours has the name and the type of the server's column.
pub open spec fn columns_agree(ours: OurColumn, theirs: TheirColumn) -> bool {
    ours.name@ == plain_column(theirs.name@) && described_name(ours.ty)
        == theirs.qualified_type@
}

proof fn lemma_columns(ours: Seq<OurColumn>, theirs: Seq<TheirColumn>, i: int)
    requires
        0 <= i <= ours.len(),
    ensures
        column_mismatch(ours, theirs, i) is None <==> forall|k: int|
            i <= k < ours.len() ==> columns_agree(#[trigger] ours[k], theirs[k]),
    decreases ours.len() - i,
{
    if i < ours.len() {
        lemma_columns(ours, theirs, i + 1);
        if column_mismatch(ours, theirs, i) is None {
            assert forall|k: int| i <= k < ours.len() implies columns_agree(
                #[trigger] ours[k],
                theirs[k],
            ) by {
                if k > i {
                    assert(ours[k] == ours[k]);
                }
            }
        }
    }
}

/// Two lists of columns agree just where each column has the name and type of the server's.
pub proof fn law_columns_agree_one_by_one(ours: Seq<OurColumn>, theirs: Seq<TheirColumn>)
    ensures
        column_mismatch(ours, theirs, 0) is None <==> forall|k: int|
            0 <= k < ours.len() ==> columns_agree(#[trigger] ours[k], theirs[k]),
{
    lemma_columns(ours, theirs, 0);
}

/// A domain is described as its base, and an array by its element.
pub proof fn law_types_are_described_by_their_parts(ty: Type)
    ensures
        ty matches Type::Domain { base, .. } ==> described_name(ty) == described_name(*base),
        ty matches Type::Array { element } ==> described_name(ty) == described_name(*element)
            + "[]"@,
        ty matches Type::Basic { schema, name } ==> described_name(ty) == schema@ + "."@ + name@,
        ty matches Type::Enum { schema, name } ==> described_name(ty) == schema@ + "."@ + name@,
        ty matches Type::Range { schema, name } ==> described_name(ty) == schema@ + "."@ + name@,
{
}

} // verus!

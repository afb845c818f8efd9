//! How a template is put together with what was inferred for it.

use crate::lexer::lemma_byte_len_concat;
use crate::param::{LexOutputView, SpreadFieldView, SpreadParamView};
use crate::query::{
    analyzed_params, analyzed_spread, analyzed_spreads, explicit_marks, offset_at, placeholders,
    rows_inserted, sample_row, sample_text, spread_marks, InferredParam,
};
use crate::text::{byte_len, decimal_text, joined};
use vstd::prelude::*;
use vstd::utf8::encode_utf8;

verus! {

/// The number of fields of a spread, none where it has no braces.
pub open spec fn width(s: SpreadParamView) -> nat {
    match s.fields {
        Some(fields) => fields.len(),
        None => 0,
    }
}

/// The number of fields of the first `n` spreads.
pub open spec fn widths(spreads: Seq<SpreadParamView>, n: int) -> nat
    decreases n,
{
    if n <= 0 {
        0
    } else {
        widths(spreads, n - 1) + width(spreads[n - 1])
    }
}

/// Placeholders with the numbers behind `before`, with a comma and a space between each two.
pub open spec fn numbered_list(before: nat, n: nat) -> Seq<char> {
    joined(Seq::new(n, |k: int| "$"@ + decimal_text((before + k + 1) as nat)), ", "@)
}

proof fn lemma_placeholders(before: nat, n: nat)
    ensures
        placeholders(before, n) == numbered_list(before, n),
    decreases n,
{
    let list = Seq::new(n, |k: int| "$"@ + decimal_text((before + k + 1) as nat));
    if n > 1 {
        let head = Seq::new((n - 1) as nat, |k: int| "$"@ + decimal_text((before + k + 1) as nat));
        lemma_placeholders(before, (n - 1) as nat);
        assert(list.drop_last() =~= head);
        reveal_strlit(", $");
        reveal_strlit(", ");
        reveal_strlit("$");
        assert(", $"@ =~= ", "@ + "$"@);
        let front = joined(head, ", "@);
        let number = decimal_text(before + n);
        assert(front + ", $"@ + number =~= front + ", "@ + ("$"@ + number));
    }
}

/// The text from position `from` on, with a row of placeholders in brackets for each spread
/// from the `j`th on at its position, numbered on behind `before`.
pub open spec fn woven(
    sql: Seq<char>,
    from: int,
    spreads: Seq<SpreadParamView>,
    at: Seq<int>,
    j: int,
    before: nat,
) -> Seq<char>
    decreases spreads.len() - j,
{
    if 0 <= j < spreads.len() {
        sql.subrange(from, at[j]) + match spreads[j].fields {
            Some(fields) => "("@ + numbered_list(before, fields.len()) + ")"@,
            None => Seq::empty(),
        } + woven(sql, at[j], spreads, at, j + 1, before + width(spreads[j]))
    } else {
        sql.skip(from)
    }
}

proof fn lemma_offsets_grow(sql: Seq<char>, i: int, j: int)
    requires
        0 <= i < j <= sql.len(),
    ensures
        byte_len(sql.take(i)) < byte_len(sql.take(j)),
        offset_at(sql, i) == byte_len(sql.take(i)),
        offset_at(sql, j) == byte_len(sql.take(j)),
{
    assert(sql.take(j) =~= sql.take(i) + sql.subrange(i, j));
    lemma_byte_len_concat(sql.take(i), sql.subrange(i, j));
    let rest = sql.subrange(i, j);
    assert(rest.len() > 0);
    assert(encode_utf8(rest).len() > 0);
    assert(sql =~= sql.take(i) + sql.skip(i));
    lemma_byte_len_concat(sql.take(i), sql.skip(i));
    assert(sql =~= sql.take(j) + sql.skip(j));
    lemma_byte_len_concat(sql.take(j), sql.skip(j));
}

proof fn lemma_offset(sql: Seq<char>, i: int)
    requires
        0 <= i <= sql.len(),
    ensures
        offset_at(sql, i) == byte_len(sql.take(i)),
{
    assert(sql =~= sql.take(i) + sql.skip(i));
    lemma_byte_len_concat(sql.take(i), sql.skip(i));
}

/// Spreads stand at positions of the text, one behind or at that of the one before.
pub open spec fn stand_at(l: LexOutputView, at: Seq<int>) -> bool {
    &&& at.len() == l.spreads.len()
    &&& forall|j: int|
        0 <= j < at.len() ==> 0 <= #[trigger] at[j] <= l.sql.len() && l.spreads[j].offset
            == byte_len(l.sql.take(at[j]))
    &&& forall|j: int, k: int| 0 <= j < k < at.len() ==> at[j] <= at[k]
}

proof fn lemma_woven(
    l: LexOutputView,
    at: Seq<int>,
    i: int,
    j: int,
    before: nat,
    written: Seq<char>,
)
    requires
        stand_at(l, at),
        0 <= i <= l.sql.len(),
        0 <= j <= at.len(),
        j < at.len() ==> i <= at[j],
    ensures
        rows_inserted(l.sql, i, l.spreads, j, before, written) == written + woven(
            l.sql,
            i,
            l.spreads,
            at,
            j,
            before,
        ),
    decreases l.sql.len() - i, at.len() - j,
{
    let sql = l.sql;
    lemma_offset(sql, i);
    if j < at.len() {
        let s = l.spreads[j];
        let row = match s.fields {
            Some(fields) => "("@ + numbered_list(before, fields.len()) + ")"@,
            None => Seq::empty(),
        };
        let n = before + width(s);
        let rest = woven(sql, at[j], l.spreads, at, j + 1, n);
        if i == at[j] {
            if let Some(fields) = s.fields {
                lemma_placeholders(before, fields.len());
            }
            assert(sample_row(s, before) == row);
            if j + 1 < at.len() {
                assert(at[j] <= at[j + 1]);
            }
            lemma_woven(l, at, i, j + 1, n, written + row);
            assert(sql.subrange(i, i) =~= Seq::empty());
            assert(written + row + rest =~= written + (sql.subrange(i, at[j]) + row + rest));
        } else {
            lemma_offsets_grow(sql, i, at[j]);
            lemma_woven(l, at, i + 1, j, before, written.push(sql[i]));
            assert(sql.subrange(i, at[j]) =~= seq![sql[i]] + sql.subrange(i + 1, at[j]));
            assert(written.push(sql[i]) + (sql.subrange(i + 1, at[j]) + row + rest) =~= written + (
            sql.subrange(i, at[j]) + row + rest));
        }
    } else if i < sql.len() {
        lemma_woven(l, at, i + 1, j, before, written.push(sql[i]));
        assert(written.push(sql[i]) + sql.skip(i + 1) =~= written + sql.skip(i));
    } else {
        assert(written + sql.skip(i) =~= written);
    }
}

/// The text that is analyzed is the rewritten one, with a row of placeholders in brackets at
/// the place of each spread. They are numbered on, behind the parameters.
pub proof fn law_spreads_become_rows_of_placeholders(l: LexOutputView, at: Seq<int>)
    requires
        stand_at(l, at),
    ensures
        sample_text(l) == woven(l.sql, 0, l.spreads, at, 0, l.params.len()),
{
    lemma_woven(l, at, 0, 0, l.params.len(), Seq::empty());
    let all = woven(l.sql, 0, l.spreads, at, 0, l.params.len());
    assert(Seq::<char>::empty() + all =~= all);
}

proof fn lemma_marks(spreads: Seq<SpreadParamView>, n: int)
    requires
        0 <= n <= spreads.len(),
    ensures
        spread_marks(spreads, n).len() == widths(spreads, n),
    decreases n,
{
    if n > 0 {
        lemma_marks(spreads, n - 1);
    }
}

/// There is a placeholder for each parameter and for each field of a spread.
pub proof fn law_placeholders_are_counted(l: LexOutputView)
    ensures
        explicit_marks(l).len() == l.params.len() + widths(l.spreads, l.spreads.len() as int),
{
    lemma_marks(l.spreads, l.spreads.len() as int);
}

/// A parameter of a query has its name and the offsets of its placeholders from the
/// template, and the type that was inferred. It may be null where its mark says so, and
/// without a mark where that was inferred.
pub proof fn law_parameters_are_merged(l: LexOutputView, infos: Seq<InferredParam>, i: int)
    requires
        0 <= i < l.params.len(),
    ensures
        analyzed_params(l, infos).len() == l.params.len(),
        analyzed_params(l, infos)[i].name == l.params[i].name,
        analyzed_params(l, infos)[i].sql_offsets == l.params[i].sql_offsets,
        analyzed_params(l, infos)[i].type_oid == infos[i].type_oid,
        l.params[i].nullable == Some(true) ==> analyzed_params(l, infos)[i].nullable,
        l.params[i].nullable == Some(false) ==> !analyzed_params(l, infos)[i].nullable,
        l.params[i].nullable is None ==> analyzed_params(l, infos)[i].nullable
            == infos[i].nullable,
{
}

proof fn lemma_spreads(l: LexOutputView, infos: Seq<InferredParam>, n: int, j: int)
    requires
        0 <= j < n <= l.spreads.len(),
    ensures
        analyzed_spreads(l, infos, n).len() == n,
        analyzed_spreads(l, infos, n)[j] == analyzed_spread(
            l.spreads[j],
            infos,
            (l.params.len() + widths(l.spreads, j)) as int,
        ),
    decreases n,
{
    lemma_marks(l.spreads, n - 1);
    assert(analyzed_spreads(l, infos, 0) =~= Seq::empty());
    if j < n - 1 {
        lemma_spreads(l, infos, n - 1, j);
    } else if n > 1 {
        lemma_spreads(l, infos, n - 1, 0);
    }
}

/// A field of a spread has the type that was inferred for its placeholder, which stands
/// behind those of the parameters, of the spreads before and of the fields before. It may be
/// null where it is marked so, and else where that was inferred.
pub proof fn law_fields_are_merged(
    l: LexOutputView,
    infos: Seq<InferredParam>,
    j: int,
    fields: Seq<SpreadFieldView>,
    k: int,
)
    requires
        0 <= j < l.spreads.len(),
        l.spreads[j].fields == Some(fields),
        0 <= k < fields.len(),
    ensures
        ({
            let s = analyzed_spreads(l, infos, l.spreads.len() as int)[j];
            let info = infos[l.params.len() + widths(l.spreads, j) + k];
            &&& s.name == l.spreads[j].name
            &&& s.offset == l.spreads[j].offset
            &&& s.fields matches Some(list) && list.len() == fields.len() && list[k].name
                == fields[k].name && list[k].type_oid == info.type_oid && (list[k].nullable
                <==> fields[k].nullable || info.nullable)
        }),
{
    lemma_spreads(l, infos, l.spreads.len() as int, j);
}

} // verus!

//! What is read from an exported catalog.

use crate::export::{
    RelationKind, TypeKindView, FieldRow, LabelRow, ColumnRow, TypeRow, cast_context, columns_in,
    end_trimmed, fields_in, is_space, kind_of_row, labels_in, path_entry, path_from, relation_kind,
    start_trimmed, taken_off, trimmed,
};
use crate::pg_catalog::CastContext;
use vstd::prelude::*;

verus! {

// ── The search path ─────────────────────────────────────────────────────────

/// The text up to the next comma is one entry of the path, and the next begins behind the
/// comma; the last entry goes up to the end.
pub proof fn law_path_is_split_at_commas(
    s: Seq<char>,
    start: int,
    i: int,
    stop: int,
    found: Seq<Seq<char>>,
)
    requires
        0 <= start <= i <= stop <= s.len(),
        forall|k: int| i <= k < stop ==> s[k] != ',',
        stop == s.len() || s[stop] == ',',
    ensures
        stop < s.len() ==> path_from(s, start, i, found) == path_from(
            s,
            stop + 1,
            stop + 1,
            found.push(path_entry(s.subrange(start, stop))),
        ),
        stop == s.len() ==> path_from(s, start, i, found) == found.push(
            path_entry(s.subrange(start, stop)),
        ),
    decreases stop - i,
{
    if i < stop {
        law_path_is_split_at_commas(s, start, i + 1, stop, found);
    }
}

proof fn lemma_start_trimmed(s: Seq<char>, quotes: bool, k: int)
    requires
        0 <= k < s.len(),
        forall|i: int| 0 <= i < k ==> taken_off(#[trigger] s[i], quotes),
        !taken_off(s[k], quotes),
    ensures
        start_trimmed(s, quotes) == s.subrange(k, s.len() as int),
    decreases k,
{
    if k > 0 {
        let rest = s.drop_first();
        assert(taken_off(s[0], quotes));
        assert forall|i: int| 0 <= i < k - 1 implies taken_off(#[trigger] rest[i], quotes) by {
            assert(rest[i] == s[i + 1]);
        }
        assert(rest[k - 1] == s[k]);
        lemma_start_trimmed(rest, quotes, k - 1);
        assert(rest.subrange(k - 1, rest.len() as int) =~= s.subrange(k, s.len() as int));
    } else {
        assert(s.subrange(0, s.len() as int) =~= s);
    }
}

proof fn lemma_end_trimmed(s: Seq<char>, quotes: bool, k: int)
    requires
        0 < k <= s.len(),
        forall|i: int| k <= i < s.len() ==> taken_off(#[trigger] s[i], quotes),
        !taken_off(s[k - 1], quotes),
    ensures
        end_trimmed(s, quotes) == s.take(k),
    decreases s.len() - k,
{
    if k < s.len() {
        let rest = s.drop_last();
        assert(taken_off(s[s.len() - 1], quotes));
        assert forall|i: int| k <= i < rest.len() implies taken_off(#[trigger] rest[i], quotes) by {
            assert(rest[i] == s[i]);
        }
        lemma_end_trimmed(rest, quotes, k);
        assert(rest.take(k) =~= s.take(k));
    } else {
        assert(s.last() == s[s.len() - 1]);
        assert(s.take(k) =~= s);
    }
}

proof fn lemma_trimmed(s: Seq<char>, quotes: bool, a: int, b: int)
    requires
        0 <= a < b <= s.len(),
        forall|i: int| 0 <= i < a ==> taken_off(#[trigger] s[i], quotes),
        forall|i: int| b <= i < s.len() ==> taken_off(#[trigger] s[i], quotes),
        !taken_off(s[a], quotes),
        !taken_off(s[b - 1], quotes),
    ensures
        trimmed(s, quotes) == s.subrange(a, b),
{
    lemma_start_trimmed(s, quotes, a);
    let rest = s.subrange(a, s.len() as int);
    assert forall|i: int| b - a <= i < rest.len() implies taken_off(#[trigger] rest[i], quotes) by {
        assert(rest[i] == s[i + a]);
    }
    assert(rest[b - a - 1] == s[b - 1]);
    lemma_end_trimmed(rest, quotes, b - a);
    assert(rest.take(b - a) =~= s.subrange(a, b));
}

/// An entry of the path is the name without the blanks and then the quotes around it, and the
/// name of the user stands for the public schema.
pub proof fn law_path_entry_is_its_name(s: Seq<char>, a: int, b: int, quotes: int)
    requires
        0 <= quotes,
        0 <= a,
        a + quotes < b - quotes,
        b <= s.len(),
        forall|i: int| 0 <= i < a ==> is_space(#[trigger] s[i]),
        forall|i: int| b <= i < s.len() ==> is_space(#[trigger] s[i]),
        !is_space(s[a]),
        !is_space(s[b - 1]),
        forall|i: int| a <= i < a + quotes ==> #[trigger] s[i] == '"',
        forall|i: int| b - quotes <= i < b ==> #[trigger] s[i] == '"',
        s[a + quotes] != '"',
        s[b - quotes - 1] != '"',
    ensures
        path_entry(s) == if s.subrange(a + quotes, b - quotes) == "$user"@ {
            "public"@
        } else {
            s.subrange(a + quotes, b - quotes)
        },
{
    assert forall|i: int| 0 <= i < a implies taken_off(#[trigger] s[i], false) by {
        assert(is_space(s[i]));
    }
    assert forall|i: int| b <= i < s.len() implies taken_off(#[trigger] s[i], false) by {
        assert(is_space(s[i]));
    }
    lemma_trimmed(s, false, a, b);
    let inner = s.subrange(a, b);
    assert forall|i: int| 0 <= i < quotes implies taken_off(#[trigger] inner[i], true) by {
        assert(inner[i] == s[a + i]);
    }
    assert forall|i: int| inner.len() - quotes <= i < inner.len() implies taken_off(
        #[trigger] inner[i],
        true,
    ) by {
        assert(inner[i] == s[a + i]);
    }
    assert(inner[quotes] == s[a + quotes]);
    assert(inner[inner.len() - quotes - 1] == s[b - quotes - 1]);
    lemma_trimmed(inner, true, quotes, inner.len() - quotes);
    assert(inner.subrange(quotes, inner.len() - quotes) =~= s.subrange(a + quotes, b - quotes));
}

// ── Rows ────────────────────────────────────────────────────────────────────

proof fn lemma_labels_before(rows: Seq<LabelRow>, r: LabelRow, typid: u32, n: int)
    requires
        0 <= n <= rows.len(),
    ensures
        labels_in(rows.push(r), typid, n) == labels_in(rows, typid, n),
    decreases n,
{
    if n > 0 {
        lemma_labels_before(rows, r, typid, n - 1);
    }
}

/// A type has the labels of its own rows, in their order.
pub proof fn law_labels_go_to_their_type(rows: Seq<LabelRow>, r: LabelRow, typid: u32)
    ensures
        ({
            let before = labels_in(rows, typid, rows.len() as int);
            let all = labels_in(rows.push(r), typid, rows.len() as int + 1);
            all == if r.typid == typid {
                before.push(r.label@)
            } else {
                before
            }
        }),
{
    lemma_labels_before(rows, r, typid, rows.len() as int);
}

proof fn lemma_fields_before(rows: Seq<FieldRow>, r: FieldRow, relid: u32, n: int)
    requires
        0 <= n <= rows.len(),
    ensures
        fields_in(rows.push(r), relid, n) == fields_in(rows, relid, n),
    decreases n,
{
    if n > 0 {
        lemma_fields_before(rows, r, relid, n - 1);
    }
}

/// A composite type has the fields of its own rows, in their order.
pub proof fn law_fields_go_to_their_type(rows: Seq<FieldRow>, r: FieldRow, relid: u32)
    ensures
        ({
            let before = fields_in(rows, relid, rows.len() as int);
            let all = fields_in(rows.push(r), relid, rows.len() as int + 1);
            all == if r.relid == relid {
                before.push(r.field@)
            } else {
                before
            }
        }),
{
    lemma_fields_before(rows, r, relid, rows.len() as int);
}

proof fn lemma_columns_before(rows: Seq<ColumnRow>, r: ColumnRow, relid: u32, n: int)
    requires
        0 <= n <= rows.len(),
    ensures
        columns_in(rows.push(r), relid, n) == columns_in(rows, relid, n),
    decreases n,
{
    if n > 0 {
        lemma_columns_before(rows, r, relid, n - 1);
    }
}

/// A relation has the columns of its own rows, in their order.
pub proof fn law_columns_go_to_their_relation(rows: Seq<ColumnRow>, r: ColumnRow, relid: u32)
    ensures
        ({
            let before = columns_in(rows, relid, rows.len() as int);
            let all = columns_in(rows.push(r), relid, rows.len() as int + 1);
            all == if r.relid == relid {
                before.push(r.column@)
            } else {
                before
            }
        }),
{
    lemma_columns_before(rows, r, relid, rows.len() as int);
}

/// The letters of the catalog say of which kind a type is; what is of no such kind is an
/// array where its name begins with an underscore and it has elements, else a base type.
pub proof fn law_letters_say_the_kind(row: TypeRow, ls: Seq<LabelRow>, fs: Seq<FieldRow>)
    ensures
        row.typtype as int == 'd' as int ==> (kind_of_row(row, ls, fs) == TypeKindView::Domain {
            base_type_oid: row.basetype,
        }),
        row.typtype as int == 'e' as int ==> (kind_of_row(row, ls, fs) == TypeKindView::Enum {
            labels: labels_in(ls, row.oid, ls.len() as int),
        }),
        row.typtype as int == 'c' as int ==> (kind_of_row(row, ls, fs) == TypeKindView::Composite {
            fields: fields_in(fs, row.typrelid, fs.len() as int),
        }),
        row.typtype as int == 'r' as int ==> (kind_of_row(row, ls, fs) == TypeKindView::Range {
            subtype_oid: row.basetype,
        }),
        row.typtype as int == 'p' as int ==> kind_of_row(row, ls, fs) == TypeKindView::Pseudo,
        row.typtype as int == 'b' as int ==> kind_of_row(row, ls, fs) == if row.typelem != 0
            && row.typlen == -1 && row.name@.len() > 0 && row.name@[0] == '_' {
            TypeKindView::Array { element_type_oid: row.typelem }
        } else {
            TypeKindView::Base
        },
{
}

/// The letters of the catalog say of which kind a relation is and where a cast applies.
pub proof fn law_letters_say_the_relation(letter: i8)
    ensures
        relation_kind(letter) == Some(RelationKind::Table) <==> letter as int == 'r' as int,
        relation_kind(letter) == Some(RelationKind::View) <==> letter as int == 'v' as int,
        relation_kind(letter) == Some(RelationKind::MaterializedView) <==> letter as int
            == 'm' as int,
        relation_kind(letter) == Some(RelationKind::Partitioned) <==> letter as int == 'p' as int,
        cast_context(letter) == CastContext::Implicit <==> letter as int == 'i' as int,
        cast_context(letter) == CastContext::Assignment <==> letter as int == 'a' as int,
{
}

} // verus!

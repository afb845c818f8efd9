//! The analysis of a query template: what the lexer found in it, put together with
//! the types that were inferred for its parameters and columns.

use crate::error::{AnalyzeError, AnalyzeErrorView};
use crate::lexer::{lex, lex_error_message, lex_text};
use crate::lookup::opt_str;
use crate::param::{
    field_views, LexOutput, LexOutputView, Param, SpreadField, SpreadFieldView, SpreadParam,
    SpreadParamView,
};
use crate::text::{byte_len, byte_length, characters, concat5, decimal, decimal_text};
use crate::type_map::{from_oid, rust_name};
use vstd::prelude::*;
use vstd::utf8::{encode_scalar, encode_utf8};

verus! {

// ── Annotations ─────────────────────────────────────────────────────────────

/// What a field of a spread says of null.
pub open spec fn field_mark(f: SpreadFieldView) -> Option<bool> {
    if f.nullable {
        Some(true)
    } else {
        None
    }
}

/// The fields of a spread, none where it has no braces.
pub open spec fn spread_fields(s: SpreadParamView) -> Seq<SpreadFieldView> {
    match s.fields {
        Some(fields) => fields,
        None => Seq::empty(),
    }
}

/// What the fields of the first `n` spreads say of null.
pub open spec fn spread_marks(spreads: Seq<SpreadParamView>, n: int) -> Seq<Option<bool>>
    decreases n,
{
    if n <= 0 {
        Seq::empty()
    } else {
        spread_marks(spreads, n - 1) + spread_fields(spreads[n - 1]).map_values(
            |f: SpreadFieldView| field_mark(f),
        )
    }
}

/// What the template says of null for each placeholder: the parameters first, then
/// the fields of the spreads.
pub open spec fn explicit_marks(l: LexOutputView) -> Seq<Option<bool>> {
    l.params.map_values(|p: crate::param::ParamView| p.nullable) + spread_marks(
        l.spreads,
        l.spreads.len() as int,
    )
}

/// What the template says of null for each placeholder.
pub fn param_nullability(l: &LexOutput) -> (r: Vec<Option<bool>>)
    ensures
        r@ == explicit_marks(l@),
{
    let mut r: Vec<Option<bool>> = Vec::new();
    let mut i: usize = 0;
    let ghost marks = l@.params.map_values(|p: crate::param::ParamView| p.nullable);
    while i < l.params.len()
        invariant
            marks == l@.params.map_values(|p: crate::param::ParamView| p.nullable),
            i <= l.params@.len(),
            r@ == marks.take(i as int),
        decreases l.params.len() - i,
    {
        r.push(l.params[i].nullable);
        proof {
            assert(r@ =~= marks.take(i + 1));
        }
        i = i + 1;
    }
    proof {
        assert(marks.take(i as int) =~= marks);
    }
    let mut j: usize = 0;
    proof {
        assert(r@ =~= marks + spread_marks(l@.spreads, 0));
    }
    while j < l.spreads.len()
        invariant
            j <= l.spreads@.len(),
            r@ == marks + spread_marks(l@.spreads, j as int),
        decreases l.spreads.len() - j,
    {
        let ghost before = r@;
        let ghost fields = spread_fields(l@.spreads[j as int]).map_values(
            |f: SpreadFieldView| field_mark(f),
        );
        match &l.spreads[j].fields {
            Some(list) => {
                let mut k: usize = 0;
                proof {
                    assert(r@ =~= before + fields.take(0));
                }
                while k < list.len()
                    invariant
                        k <= list@.len(),
                        fields == field_views(list@).map_values(
                            |f: SpreadFieldView| field_mark(f),
                        ),
                        r@ == before + fields.take(k as int),
                    decreases list.len() - k,
                {
                    let mark: Option<bool> = if list[k].nullable {
                        Some(true)
                    } else {
                        None
                    };
                    proof {
                        assert(fields[k as int] == mark);
                    }
                    r.push(mark);
                    proof {
                        assert(r@ =~= before + fields.take(k + 1));
                    }
                    k = k + 1;
                }
                proof {
                    assert(fields.take(k as int) =~= fields);
                }
            },
            None => {
                proof {
                    assert(before + fields =~= before);
                }
            },
        }
        proof {
            assert(r@ =~= marks + spread_marks(l@.spreads, j + 1));
        }
        j = j + 1;
    }
    r
}

// ── The text that is analyzed ───────────────────────────────────────────────

/// `n` placeholders with ascending numbers, the first behind `before`.
pub open spec fn placeholders(before: nat, n: nat) -> Seq<char>
    decreases n,
{
    if n == 0 {
        Seq::empty()
    } else if n == 1 {
        "$"@ + decimal_text(before + 1)
    } else {
        placeholders(before, (n - 1) as nat) + ", $"@ + decimal_text(before + n)
    }
}

/// What stands for a spread: one row of placeholders for its fields, nothing where it
/// has no braces.
pub open spec fn sample_row(s: SpreadParamView, before: nat) -> Seq<char> {
    match s.fields {
        Some(fields) => "("@ + placeholders(before, fields.len()) + ")"@,
        None => Seq::empty(),
    }
}

/// The byte offset of the character at position `i`.
pub open spec fn offset_at(sql: Seq<char>, i: int) -> int {
    byte_len(sql) - byte_len(sql.skip(i))
}

/// The text with a row for each spread from the `j`th on, from position `i` on:
/// behind what is written, each row at the offset of its spread, with placeholders
/// behind `before`.
pub open spec fn rows_inserted(
    sql: Seq<char>,
    i: int,
    spreads: Seq<SpreadParamView>,
    j: int,
    before: nat,
    written: Seq<char>,
) -> Seq<char>
    decreases sql.len() - i, spreads.len() - j,
{
    if 0 <= j < spreads.len() && spreads[j].offset == offset_at(sql, i) {
        rows_inserted(
            sql,
            i,
            spreads,
            j + 1,
            before + spread_fields(spreads[j]).len(),
            written + sample_row(spreads[j], before),
        )
    } else if i < sql.len() {
        rows_inserted(sql, i + 1, spreads, j, before, written.push(sql[i]))
    } else {
        written
    }
}

/// The text that is analyzed: the rewritten one, with one row of placeholders at the
/// place of each spread.
pub open spec fn sample_text(l: LexOutputView) -> Seq<char> {
    rows_inserted(l.sql, 0, l.spreads, 0, l.params.len(), Seq::empty())
}

fn write_placeholders(before: usize, n: usize) -> (r: String)
    requires
        before + n <= usize::MAX,
    ensures
        r@ == placeholders(before as nat, n as nat),
{
    let mut r: String = String::new();
    let mut k: usize = 0;
    proof {
        assert(r@ =~= Seq::empty());
    }
    while k < n
        invariant
            before + n <= usize::MAX,
            k <= n,
            r@ == placeholders(before as nat, k as nat),
        decreases n - k,
    {
        let number: usize = before + k + 1;
        if k == 0 {
            r.append("$");
            r.append(&decimal(number as u64));
            proof {
                assert(r@ =~= "$"@ + decimal_text((before + 1) as nat));
            }
        } else {
            r.append(", $");
            r.append(&decimal(number as u64));
        }
        k = k + 1;
    }
    r
}

fn char_width(c: char) -> (r: usize)
    ensures
        r == encode_scalar(c as u32).len(),
        1 <= r <= 4,
{
    let n: u32 = c as u32;
    if n <= 0x7f {
        1
    } else if n <= 0x7ff {
        2
    } else if n <= 0xffff {
        3
    } else {
        4
    }
}

/// The number of fields of the first `n` spreads.
spec fn field_total(spreads: Seq<SpreadParamView>, n: int) -> nat {
    spread_marks(spreads, n).len()
}

proof fn lemma_field_total(spreads: Seq<SpreadParamView>, a: int, b: int)
    requires
        0 <= a <= b,
    ensures
        field_total(spreads, a) <= field_total(spreads, b),
    decreases b,
{
    if a < b {
        lemma_field_total(spreads, a, b - 1);
    }
}

fn build_sample(l: &LexOutput, total: usize) -> (r: String)
    requires
        total == explicit_marks(l@).len(),
    ensures
        r@ == sample_text(l@),
{
    let chars: Vec<char> = characters(&l.sql);
    let ghost spreads = l@.spreads;
    let mut r: String = String::new();
    let mut i: usize = 0;
    let mut j: usize = 0;
    let mut at: usize = 0;
    let mut before: usize = l.params.len();
    let bytes: usize = byte_length(&l.sql);
    proof {
        assert(r@ =~= Seq::empty());
        assert(l.sql@.skip(0) =~= l.sql@);
        assert(l@.params.len() == l.params@.len());
    }
    while i < chars.len() || (j < l.spreads.len() && l.spreads[j].offset == at)
        invariant
            chars@ == l.sql@,
            spreads == l@.spreads,
            total == explicit_marks(l@).len(),
            bytes == byte_len(l.sql@),
            i <= chars@.len(),
            j <= l.spreads@.len(),
            at == offset_at(l.sql@, i as int),
            at <= bytes,
            before == l@.params.len() + field_total(spreads, j as int),
            sample_text(l@) == rows_inserted(
                l.sql@,
                i as int,
                spreads,
                j as int,
                before as nat,
                r@,
            ),
        decreases chars.len() - i, l.spreads.len() - j,
    {
        if j < l.spreads.len() && l.spreads[j].offset == at {
            let ghost written = r@;
            let ghost row = sample_row(spreads[j as int], before as nat);
            proof {
                lemma_field_total(spreads, j + 1, l.spreads@.len() as int);
                assert(field_total(spreads, j + 1) == field_total(spreads, j as int)
                    + spread_fields(spreads[j as int]).len());
            }
            match &l.spreads[j].fields {
                Some(fields) => {
                    let n: usize = fields.len();
                    r.append("(");
                    r.append(&write_placeholders(before, n));
                    r.append(")");
                    proof {
                        assert(field_views(fields@).len() == n);
                        assert(r@ =~= written + row);
                    }
                    before = before + n;
                },
                None => {
                    proof {
                        assert(r@ =~= written + row);
                    }
                },
            }
            j = j + 1;
        } else {
            let c: char = chars[i];
            proof {
                let rest = l.sql@.skip(i as int);
                assert(rest[0] == c);
                assert(rest.drop_first() =~= l.sql@.skip(i + 1));
                assert(encode_utf8(rest) == encode_scalar(c as u32) + encode_utf8(rest.drop_first()));
            }
            r.push(c);
            at = at + char_width(c);
            i = i + 1;
        }
    }
    r
}

// ── Queries ─────────────────────────────────────────────────────────────────

/// What was inferred for one placeholder.
#[derive(Debug, Clone, Copy, PartialEq, Eq, Structural)]
pub struct InferredParam {
    pub type_oid: u32,
    pub nullable: bool,
}

/// An output column of a query.
#[derive(Debug)]
pub struct AnalyzedColumn {
    pub name: String,
    pub type_oid: u32,
    pub nullable: bool,
}

/// A named parameter with its type and the byte offsets behind its placeholders.
#[derive(Debug)]
pub struct AnalyzedParam {
    pub name: String,
    pub type_oid: u32,
    pub nullable: bool,
    pub sql_offsets: Vec<usize>,
}

/// A field of a spread.
#[derive(Debug)]
pub struct AnalyzedSpreadField {
    pub name: String,
    pub type_oid: u32,
    pub nullable: bool,
}

/// A spread with the byte offset at which its rows go.
#[derive(Debug)]
pub struct AnalyzedSpread {
    pub name: String,
    pub offset: usize,
    /// The fields in the braces, or `None` where there are no braces.
    pub fields: Option<Vec<AnalyzedSpreadField>>,
}

/// The analysis of a query.
#[derive(Debug)]
pub struct AnalyzedQuery {
    pub sql: String,
    pub params: Vec<AnalyzedParam>,
    pub spreads: Vec<AnalyzedSpread>,
    pub columns: Vec<AnalyzedColumn>,
}

fn supported_rust_type(oid: u32) -> (r: Option<&'static str>)
    ensures
        opt_str(r) == rust_name(oid),
{
    match from_oid(oid) {
        Some(info) => Some(info.rust_type),
        None => None,
    }
}

impl AnalyzedColumn {
    /// The Rust type that stands for the type, where it is supported.
    pub fn rust_type(&self) -> (r: Option<&'static str>)
        ensures
            opt_str(r) == rust_name(self.type_oid),
    {
        supported_rust_type(self.type_oid)
    }
}

impl AnalyzedParam {
    /// The Rust type that stands for the type, where it is supported.
    pub fn rust_type(&self) -> (r: Option<&'static str>)
        ensures
            opt_str(r) == rust_name(self.type_oid),
    {
        supported_rust_type(self.type_oid)
    }
}

impl AnalyzedSpreadField {
    /// The Rust type that stands for the type, where it is supported.
    pub fn rust_type(&self) -> (r: Option<&'static str>)
        ensures
            opt_str(r) == rust_name(self.type_oid),
    {
        supported_rust_type(self.type_oid)
    }
}

#[verifier::ext_equal]
pub struct AnalyzedParamView {
    pub name: Seq<char>,
    pub type_oid: u32,
    pub nullable: bool,
    pub sql_offsets: Seq<nat>,
}

#[verifier::ext_equal]
pub struct AnalyzedFieldView {
    pub name: Seq<char>,
    pub type_oid: u32,
    pub nullable: bool,
}

#[verifier::ext_equal]
pub struct AnalyzedSpreadView {
    pub name: Seq<char>,
    pub offset: nat,
    pub fields: Option<Seq<AnalyzedFieldView>>,
}

impl View for AnalyzedParam {
    type V = AnalyzedParamView;

    open spec fn view(&self) -> AnalyzedParamView {
        AnalyzedParamView {
            name: self.name@,
            type_oid: self.type_oid,
            nullable: self.nullable,
            sql_offsets: self.sql_offsets@.map_values(|n: usize| n as nat),
        }
    }
}

impl View for AnalyzedSpreadField {
    type V = AnalyzedFieldView;

    open spec fn view(&self) -> AnalyzedFieldView {
        AnalyzedFieldView { name: self.name@, type_oid: self.type_oid, nullable: self.nullable }
    }
}

/// The values of a list of fields.
pub open spec fn analyzed_fields(v: Seq<AnalyzedSpreadField>) -> Seq<AnalyzedFieldView> {
    v.map_values(|f: AnalyzedSpreadField| f@)
}

impl View for AnalyzedSpread {
    type V = AnalyzedSpreadView;

    open spec fn view(&self) -> AnalyzedSpreadView {
        AnalyzedSpreadView {
            name: self.name@,
            offset: self.offset as nat,
            fields: match self.fields {
                Some(fields) => Some(analyzed_fields(fields@)),
                None => None,
            },
        }
    }
}

/// Whether a placeholder can be null: what the template says, else what was inferred.
pub open spec fn merged(mark: Option<bool>, inferred: bool) -> bool {
    match mark {
        Some(explicit) => explicit,
        None => inferred,
    }
}

/// The parameters of a query.
pub open spec fn analyzed_params(l: LexOutputView, infos: Seq<InferredParam>) -> Seq<
    AnalyzedParamView,
> {
    Seq::new(
        l.params.len(),
        |i: int|
            AnalyzedParamView {
                name: l.params[i].name,
                type_oid: infos[i].type_oid,
                nullable: merged(l.params[i].nullable, infos[i].nullable),
                sql_offsets: l.params[i].sql_offsets,
            },
    )
}

/// A spread whose fields have the placeholders behind `before`.
pub open spec fn analyzed_spread(
    s: SpreadParamView,
    infos: Seq<InferredParam>,
    before: int,
) -> AnalyzedSpreadView {
    AnalyzedSpreadView {
        name: s.name,
        offset: s.offset,
        fields: match s.fields {
            Some(fields) => Some(
                Seq::new(
                    fields.len(),
                    |k: int|
                        AnalyzedFieldView {
                            name: fields[k].name,
                            type_oid: infos[before + k].type_oid,
                            nullable: merged(field_mark(fields[k]), infos[before + k].nullable),
                        },
                ),
            ),
            None => None,
        },
    }
}

/// The first `n` spreads of a query.
pub open spec fn analyzed_spreads(l: LexOutputView, infos: Seq<InferredParam>, n: int) -> Seq<
    AnalyzedSpreadView,
>
    decreases n,
{
    if n <= 0 {
        Seq::empty()
    } else {
        analyzed_spreads(l, infos, n - 1).push(
            analyzed_spread(
                l.spreads[n - 1],
                infos,
                (l.params.len() + spread_marks(l.spreads, n - 1).len()) as int,
            ),
        )
    }
}

/// What is said where the analyzer found another number of placeholders than the
/// lexer.
pub open spec fn count_error(l: LexOutputView, found: nat) -> AnalyzeErrorView {
    AnalyzeErrorView::Internal(
        "analyzer param count ("@ + decimal_text(found)
            + ") does not match lexer placeholder count ("@ + decimal_text(
            explicit_marks(l).len(),
        ) + (") for SQL: "@ + sample_text(l)),
    )
}

/// Whether a query is the analysis of a template with these inferred types.
pub open spec fn is_analysis(
    q: AnalyzedQuery,
    l: LexOutputView,
    columns: Seq<AnalyzedColumn>,
    infos: Seq<InferredParam>,
) -> bool {
    &&& q.sql@ == l.sql
    &&& q.columns@ == columns
    &&& q.params@.map_values(|p: AnalyzedParam| p@) == analyzed_params(l, infos)
    &&& q.spreads@.map_values(|s: AnalyzedSpread| s@) == analyzed_spreads(
        l,
        infos,
        l.spreads.len() as int,
    )
}

fn merge(mark: Option<bool>, inferred: bool) -> (r: bool)
    ensures
        r == merged(mark, inferred),
{
    match mark {
        Some(explicit) => explicit,
        None => inferred,
    }
}

fn copy_offsets(v: &Vec<usize>) -> (r: Vec<usize>)
    ensures
        r@ == v@,
{
    let mut r: Vec<usize> = Vec::new();
    let mut i: usize = 0;
    while i < v.len()
        invariant
            i <= v@.len(),
            r@ == v@.take(i as int),
        decreases v.len() - i,
    {
        r.push(v[i]);
        proof {
            assert(r@ =~= v@.take(i + 1));
        }
        i = i + 1;
    }
    proof {
        assert(v@.take(i as int) =~= v@);
    }
    r
}

fn fuse_params(l: &LexOutput, infos: &Vec<InferredParam>) -> (r: Vec<AnalyzedParam>)
    requires
        l@.params.len() <= infos@.len(),
    ensures
        r@.map_values(|p: AnalyzedParam| p@) == analyzed_params(l@, infos@),
{
    let mut r: Vec<AnalyzedParam> = Vec::new();
    let mut i: usize = 0;
    while i < l.params.len()
        invariant
            l@.params.len() <= infos@.len(),
            i <= l.params@.len(),
            r@.len() == i,
            forall|k: int| 0 <= k < i ==> (#[trigger] r@[k])@ == analyzed_params(l@, infos@)[k],
        decreases l.params.len() - i,
    {
        let p: &Param = &l.params[i];
        proof {
            assert(l@.params[i as int] == p@);
            assert(l@.params.len() == l.params@.len());
        }
        r.push(
            AnalyzedParam {
                name: p.name.as_str().to_owned(),
                type_oid: infos[i].type_oid,
                nullable: merge(p.nullable, infos[i].nullable),
                sql_offsets: copy_offsets(&p.sql_offsets),
            },
        );
        i = i + 1;
    }
    proof {
        assert(r@.map_values(|p: AnalyzedParam| p@) =~= analyzed_params(l@, infos@));
    }
    r
}

fn fuse_spread(s: &SpreadParam, infos: &Vec<InferredParam>, before: usize) -> (r: AnalyzedSpread)
    requires
        before + spread_fields(s@).len() <= infos@.len(),
    ensures
        r@ == analyzed_spread(s@, infos@, before as int),
{
    let fields: Option<Vec<AnalyzedSpreadField>> = match &s.fields {
        None => None,
        Some(list) => {
            let mut v: Vec<AnalyzedSpreadField> = Vec::new();
            let mut k: usize = 0;
            let total: usize = infos.len();
            let ghost all = field_views(list@);
            let ghost wanted = Seq::new(
                all.len(),
                |k: int|
                    AnalyzedFieldView {
                        name: all[k].name,
                        type_oid: infos@[before + k].type_oid,
                        nullable: merged(field_mark(all[k]), infos@[before + k].nullable),
                    },
            );
            while k < list.len()
                invariant
                    all == field_views(list@),
                    before + list@.len() <= total,
                    total == infos@.len(),
                    wanted == Seq::new(
                        all.len(),
                        |k: int|
                            AnalyzedFieldView {
                                name: all[k].name,
                                type_oid: infos@[before + k].type_oid,
                                nullable: merged(field_mark(all[k]), infos@[before + k].nullable),
                            },
                    ),
                    k <= list@.len(),
                    v@.len() == k,
                    forall|n: int| 0 <= n < k ==> (#[trigger] v@[n])@ == wanted[n],
                decreases list.len() - k,
            {
                let f: &SpreadField = &list[k];
                proof {
                    assert(all[k as int] == f@);
                }
                let mark: Option<bool> = if f.nullable {
                    Some(true)
                } else {
                    None
                };
                v.push(
                    AnalyzedSpreadField {
                        name: f.name.as_str().to_owned(),
                        type_oid: infos[before + k].type_oid,
                        nullable: merge(mark, infos[before + k].nullable),
                    },
                );
                k = k + 1;
            }
            proof {
                assert(analyzed_fields(v@) =~= wanted);
            }
            Some(v)
        },
    };
    AnalyzedSpread { name: s.name.as_str().to_owned(), offset: s.offset, fields }
}

fn fuse_spreads(l: &LexOutput, infos: &Vec<InferredParam>) -> (r: Vec<AnalyzedSpread>)
    requires
        infos@.len() == explicit_marks(l@).len(),
    ensures
        r@.map_values(|s: AnalyzedSpread| s@) == analyzed_spreads(
            l@,
            infos@,
            l@.spreads.len() as int,
        ),
{
    let mut r: Vec<AnalyzedSpread> = Vec::new();
    let mut before: usize = l.params.len();
    let mut j: usize = 0;
    let ghost spreads = l@.spreads;
    let total: usize = infos.len();
    proof {
        assert(r@.map_values(|s: AnalyzedSpread| s@) =~= Seq::empty());
        assert(l@.params.len() == l.params@.len());
    }
    while j < l.spreads.len()
        invariant
            spreads == l@.spreads,
            j <= l.spreads@.len(),
            total == infos@.len(),
            infos@.len() == explicit_marks(l@).len(),
            before == l@.params.len() + field_total(spreads, j as int),
            r@.map_values(|s: AnalyzedSpread| s@) == analyzed_spreads(l@, infos@, j as int),
        decreases l.spreads.len() - j,
    {
        let s: &SpreadParam = &l.spreads[j];
        let ghost made = r@.map_values(|s: AnalyzedSpread| s@);
        proof {
            assert(spreads[j as int] == s@);
            lemma_field_total(spreads, j + 1, l.spreads@.len() as int);
            assert(field_total(spreads, j + 1) == field_total(spreads, j as int) + spread_fields(
                s@,
            ).len());
        }
        let next: AnalyzedSpread = fuse_spread(s, infos, before);
        r.push(next);
        proof {
            assert(r@.map_values(|s: AnalyzedSpread| s@) =~= made.push(next@));
        }
        match &s.fields {
            Some(fields) => {
                proof {
                    assert(field_views(fields@).len() == fields@.len());
                }
                before = before + fields.len();
            },
            None => {},
        }
        j = j + 1;
    }
    r
}

/// The analysis of a template, from the columns and parameters that were inferred for
/// the text that is analyzed. There must be as many parameters as placeholders.
pub fn fuse(l: LexOutput, columns: Vec<AnalyzedColumn>, infos: Vec<InferredParam>) -> (r: Result<
    AnalyzedQuery,
    AnalyzeError,
>)
    ensures
        match r {
            Ok(q) => infos@.len() == explicit_marks(l@).len() && is_analysis(
                q,
                l@,
                columns@,
                infos@,
            ),
            Err(e) => infos@.len() != explicit_marks(l@).len() && e@ == count_error(
                l@,
                infos@.len(),
            ),
        },
{
    let marks: Vec<Option<bool>> = param_nullability(&l);
    let expected: usize = marks.len();
    if infos.len() != expected {
        let sample: String = build_sample(&l, expected);
        let found: String = decimal(infos.len() as u64);
        let wanted: String = decimal(expected as u64);
        let tail: String = crate::text::concat2(") for SQL: ", &sample);
        return Err(
            AnalyzeError::Internal(
                concat5(
                    "analyzer param count (",
                    &found,
                    ") does not match lexer placeholder count (",
                    &wanted,
                    &tail,
                ),
            ),
        );
    }
    let params: Vec<AnalyzedParam> = fuse_params(&l, &infos);
    let spreads: Vec<AnalyzedSpread> = fuse_spreads(&l, &infos);
    Ok(AnalyzedQuery { sql: l.sql, params, spreads, columns })
}

/// What is analyzed of a template: the text, and what the template says of null for
/// each placeholder.
#[derive(Debug)]
pub struct AnalysisInput {
    pub sql: String,
    pub nullability: Vec<Option<bool>>,
}

/// What is to be analyzed of a template, or the error of the lexer.
pub fn analysis_input(sql: &str) -> (r: Result<AnalysisInput, AnalyzeError>)
    ensures
        match lex_text(sql@) {
            Ok(l) => r matches Ok(input) && input.sql@ == sample_text(l) && input.nullability@
                == explicit_marks(l),
            Err(e) => r matches Err(f) && f@ == AnalyzeErrorView::Lex(lex_error_message(e)),
        },
{
    match lex(sql) {
        Ok(l) => {
            let nullability: Vec<Option<bool>> = param_nullability(&l);
            let total: usize = nullability.len();
            Ok(AnalysisInput { sql: build_sample(&l, total), nullability })
        },
        Err(e) => Err(AnalyzeError::from_lex(&e)),
    }
}

/// The analysis of a template, given what was inferred for the text that is analyzed.
/// An error of the lexer comes before one of the inference.
pub fn analyze(
    sql: &str,
    inferred: Result<(Vec<AnalyzedColumn>, Vec<InferredParam>), AnalyzeError>,
) -> (r: Result<AnalyzedQuery, AnalyzeError>)
    ensures
        match lex_text(sql@) {
            Err(e) => r matches Err(f) && f@ == AnalyzeErrorView::Lex(lex_error_message(e)),
            Ok(l) => match inferred {
                Err(e) => r matches Err(f) && f@ == e@,
                Ok((columns, infos)) => match r {
                    Ok(q) => infos@.len() == explicit_marks(l).len() && is_analysis(
                        q,
                        l,
                        columns@,
                        infos@,
                    ),
                    Err(f) => infos@.len() != explicit_marks(l).len() && f@ == count_error(
                        l,
                        infos@.len(),
                    ),
                },
            },
        },
{
    match lex(sql) {
        Ok(l) => match inferred {
            Ok((columns, infos)) => fuse(l, columns, infos),
            Err(e) => Err(e),
        },
        Err(e) => Err(AnalyzeError::from_lex(&e)),
    }
}

// ── Expressions of indexes ──────────────────────────────────────────────────

/// The query whose only target is an expression.
pub fn expression_query(expr: &str) -> (r: String)
    ensures
        r@ == "SELECT "@ + expr@,
{
    crate::text::concat2("SELECT ", expr)
}

/// The query whose condition is a predicate.
pub fn predicate_query(predicate: &str) -> (r: String)
    ensures
        r@ == "SELECT 1 WHERE "@ + predicate@,
{
    crate::text::concat2("SELECT 1 WHERE ", predicate)
}

// ── Laws ────────────────────────────────────────────────────────────────────

proof fn lemma_no_rows(sql: Seq<char>, i: int, before: nat, written: Seq<char>)
    requires
        0 <= i <= sql.len(),
    ensures
        rows_inserted(sql, i, Seq::empty(), 0, before, written) == written + sql.skip(i),
    decreases sql.len() - i,
{
    if i < sql.len() {
        lemma_no_rows(sql, i + 1, before, written.push(sql[i]));
        assert(written.push(sql[i]) + sql.skip(i + 1) =~= written + sql.skip(i));
    } else {
        assert(written + sql.skip(i) =~= written);
    }
}

/// A template without spreads is analyzed as the lexer rewrote it.
pub proof fn law_without_spreads_the_text_stays(l: LexOutputView)
    requires
        l.spreads.len() == 0,
    ensures
        sample_text(l) == l.sql,
{
    assert(l.spreads =~= Seq::empty());
    lemma_no_rows(l.sql, 0, l.params.len(), Seq::empty());
    assert(Seq::<char>::empty() + l.sql.skip(0) =~= l.sql);
}

/// What a template says of null always wins over what was inferred.
pub proof fn law_explicit_mark_wins(l: LexOutputView, infos: Seq<InferredParam>, i: int)
    requires
        0 <= i < l.params.len(),
        l.params[i].nullable is Some,
    ensures
        Some(analyzed_params(l, infos)[i].nullable) == l.params[i].nullable,
{
}

} // verus!

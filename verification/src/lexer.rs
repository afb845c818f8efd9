//! SQL template lexer.
//!
//! [`lex`] takes a SQL text with `$name` parameters and `$..spread` syntax and
//! rewrites it to PostgreSQL's positional placeholders (`$1`, `$2`, ...).
//!
//! The lexer is not a SQL parser. It knows just enough to tell ordinary SQL
//! from string literals, comments, dollar-quoted strings and quoted
//! identifiers: `$name` inside one of those is left untouched.

use crate::param::{
    field_views, param_position, param_views, spread_views, LexOutput, LexOutputView, Param,
    ParamView, SpreadField, SpreadFieldView, SpreadParam, SpreadParamView,
};
use crate::text::{
    byte_len, byte_length, characters, concat2, concat3, decimal, decimal_text, same_text,
    slice_text,
};
use vstd::prelude::*;

verus! {

/// What is wrong with a SQL template. Each variant holds the byte position at
/// which the unclosed construct begins.
#[derive(Debug, Clone, PartialEq, Eq)]
pub enum LexError {
    /// A single-quoted string literal is never closed.
    UnclosedString { position: usize },
    /// A `/* ... */` block comment is never closed.
    UnclosedBlockComment { position: usize },
    /// A dollar-quoted string (`$$...$$` or `$tag$...$tag$`) is never closed.
    UnclosedDollarQuote { tag: String, position: usize },
    /// A double-quoted identifier is never closed.
    UnclosedQuotedIdentifier { position: usize },
}

#[verifier::ext_equal]
pub enum LexErrorView {
    UnclosedString { position: nat },
    UnclosedBlockComment { position: nat },
    UnclosedDollarQuote { tag: Seq<char>, position: nat },
    UnclosedQuotedIdentifier { position: nat },
}

impl View for LexError {
    type V = LexErrorView;

    open spec fn view(&self) -> LexErrorView {
        match *self {
            LexError::UnclosedString { position } => LexErrorView::UnclosedString {
                position: position as nat,
            },
            LexError::UnclosedBlockComment { position } => LexErrorView::UnclosedBlockComment {
                position: position as nat,
            },
            LexError::UnclosedDollarQuote { tag, position } => LexErrorView::UnclosedDollarQuote {
                tag: tag@,
                position: position as nat,
            },
            LexError::UnclosedQuotedIdentifier { position } =>
                LexErrorView::UnclosedQuotedIdentifier { position: position as nat },
        }
    }
}

/// The message for a lexer error.
pub open spec fn lex_error_message(e: LexErrorView) -> Seq<char> {
    match e {
        LexErrorView::UnclosedString { position } => "unclosed string literal at byte "@
            + decimal_text(position),
        LexErrorView::UnclosedBlockComment { position } => "unclosed block comment at byte "@
            + decimal_text(position),
        LexErrorView::UnclosedDollarQuote { tag, position } => "unclosed dollar-quote $"@ + tag
            + "$ at byte "@ + decimal_text(position),
        LexErrorView::UnclosedQuotedIdentifier { position } => "unclosed quoted identifier at byte "@
            + decimal_text(position),
    }
}

impl LexError {
    /// The message to show for this error.
    pub fn message(&self) -> (r: String)
        ensures
            r@ == lex_error_message(self@),
    {
        match self {
            LexError::UnclosedString { position } => concat2(
                "unclosed string literal at byte ",
                decimal(*position as u64).as_str(),
            ),
            LexError::UnclosedBlockComment { position } => concat2(
                "unclosed block comment at byte ",
                decimal(*position as u64).as_str(),
            ),
            LexError::UnclosedDollarQuote { tag, position } => {
                let head: String = concat3("unclosed dollar-quote $", tag.as_str(), "$ at byte ");
                concat2(head.as_str(), decimal(*position as u64).as_str())
            },
            LexError::UnclosedQuotedIdentifier { position } => concat2(
                "unclosed quoted identifier at byte ",
                decimal(*position as u64).as_str(),
            ),
        }
    }
}

/// What a call of [`lex`] returned, over the views.
pub open spec fn lex_outcome(r: Result<LexOutput, LexError>) -> Result<
    LexOutputView,
    LexErrorView,
> {
    match r {
        Ok(o) => Ok(o@),
        Err(e) => Err(e@),
    }
}

// ── Characters ──────────────────────────────────────────────────────────────

/// A letter of the alphabet or an underscore.
pub open spec fn starts_ident(c: char) -> bool {
    ('a' <= c && c <= 'z') || ('A' <= c && c <= 'Z') || c == '_'
}

/// A letter of the alphabet, a decimal digit or an underscore.
pub open spec fn in_ident(c: char) -> bool {
    starts_ident(c) || ('0' <= c && c <= '9')
}

/// One of the five white space characters of ASCII.
pub open spec fn is_space(c: char) -> bool {
    c == ' ' || c == '\t' || c == '\n' || c == '\r' || c == '\x0C'
}

pub fn is_ident_start(c: char) -> (r: bool)
    ensures
        r == starts_ident(c),
{
    ('a' <= c && c <= 'z') || ('A' <= c && c <= 'Z') || c == '_'
}

pub fn is_ident_char(c: char) -> (r: bool)
    ensures
        r == in_ident(c),
{
    is_ident_start(c) || ('0' <= c && c <= '9')
}

fn is_ascii_space(c: char) -> (r: bool)
    ensures
        r == is_space(c),
{
    c == ' ' || c == '\t' || c == '\n' || c == '\r' || c == '\x0C'
}

// ── Where things end ────────────────────────────────────────────────────────

/// The end of the run of identifier characters that begins at `j`.
pub open spec fn ident_end(s: Seq<char>, j: int) -> int
    decreases s.len() - j,
{
    if 0 <= j < s.len() && in_ident(s[j]) {
        ident_end(s, j + 1)
    } else {
        j
    }
}

/// The end of the white space that begins at `j`.
pub open spec fn space_end(s: Seq<char>, j: int) -> int
    decreases s.len() - j,
{
    if 0 <= j < s.len() && is_space(s[j]) {
        space_end(s, j + 1)
    } else {
        j
    }
}

/// Where a quoted run ends whose inside begins at `j`: behind the first `quote`
/// that no second one follows at once (two of them stand for one inside).
pub open spec fn quoted_end(s: Seq<char>, j: int, quote: char) -> Option<int>
    decreases s.len() - j,
{
    if j < 0 || j >= s.len() {
        None
    } else if s[j] != quote {
        quoted_end(s, j + 1, quote)
    } else if j + 1 < s.len() && s[j + 1] == quote {
        quoted_end(s, j + 2, quote)
    } else {
        Some(j + 1)
    }
}

/// Where a line comment ends: behind the line's newline, or with the text.
pub open spec fn line_end(s: Seq<char>, j: int) -> int
    decreases s.len() - j,
{
    if j < 0 || j >= s.len() {
        j
    } else if s[j] == '\n' {
        j + 1
    } else {
        line_end(s, j + 1)
    }
}

/// Whether `a` and then `b` stand at `j`.
pub open spec fn pair_at(s: Seq<char>, j: int, a: char, b: char) -> bool {
    0 <= j && j + 1 < s.len() && s[j] == a && s[j + 1] == b
}

/// Where a block comment ends whose inside goes on at `j`, with `depth` comments open.
pub open spec fn comment_end(s: Seq<char>, j: int, depth: nat) -> Option<int>
    decreases s.len() - j,
{
    if j < 0 || j >= s.len() {
        None
    } else if pair_at(s, j, '/', '*') {
        comment_end(s, j + 2, depth + 1)
    } else if pair_at(s, j, '*', '/') {
        if depth <= 1 {
            Some(j + 2)
        } else {
            comment_end(s, j + 2, (depth - 1) as nat)
        }
    } else {
        comment_end(s, j + 1, depth)
    }
}

/// Whether `pattern` stands at `j`.
pub open spec fn stands_at(s: Seq<char>, j: int, pattern: Seq<char>) -> bool {
    0 <= j && j + pattern.len() <= s.len() && s.subrange(j, j + pattern.len()) == pattern
}

/// Where a dollar-quoted run ends whose inside goes on at `j`: behind the first `close`.
pub open spec fn dollar_end(s: Seq<char>, j: int, close: Seq<char>) -> Option<int>
    decreases s.len() - j,
{
    if j < 0 || j >= s.len() {
        None
    } else if stands_at(s, j, close) {
        Some(j + close.len())
    } else {
        dollar_end(s, j + 1, close)
    }
}

/// The fields of a spread from `j` on, behind those in `seen`, and where they end.
pub open spec fn spread_fields(s: Seq<char>, j: int, seen: Seq<SpreadFieldView>) -> (
    Seq<SpreadFieldView>,
    int,
)
    decreases s.len() - j,
{
    proof {
        lemma_space_end(s, j);
    }
    let k = space_end(s, j);
    if k < 0 || k >= s.len() {
        (seen, k)
    } else if s[k] == '}' {
        (seen, k + 1)
    } else if starts_ident(s[k]) {
        proof {
            lemma_ident_end(s, k);
        }
        let e = ident_end(s, k);
        let nullable = e < s.len() && s[e] == '?';
        let after = if nullable {
            e + 1
        } else {
            e
        };
        proof {
            lemma_space_end(s, after);
        }
        let sep = space_end(s, after);
        let next = if sep < s.len() && s[sep] == ',' {
            sep + 1
        } else {
            sep
        };
        spread_fields(
            s,
            next,
            seen.push(SpreadFieldView { name: s.subrange(k, e), nullable }),
        )
    } else {
        spread_fields(s, k + 1, seen)
    }
}

// ── Tokens ──────────────────────────────────────────────────────────────────

/// What stands at a place of ordinary SQL.
pub enum Token {
    /// Text up to `end` that is kept as it is.
    Verbatim { end: int },
    /// A parameter.
    Named { name: Seq<char>, nullable: Option<bool>, end: int },
    /// A spread parameter.
    Spread { name: Seq<char>, fields: Option<Seq<SpreadFieldView>>, end: int },
    /// A construct that is never closed.
    Unclosed { error: LexErrorView },
}

/// A construct that is kept as it is, where it is closed.
pub open spec fn closed_token(end: Option<int>, error: LexErrorView) -> Token {
    match end {
        Some(end) => Token::Verbatim { end },
        None => Token::Unclosed { error },
    }
}

/// The dollar-quoted string that begins at `i` with `$tag$`.
pub open spec fn dollar_quote_token(s: Seq<char>, i: int, tag: Seq<char>) -> Token {
    let close = seq!['$'] + tag + seq!['$'];
    closed_token(
        dollar_end(s, i + close.len(), close),
        LexErrorView::UnclosedDollarQuote { tag, position: byte_len(s.take(i)) },
    )
}

/// What the dollar sign at `i` begins.
pub open spec fn dollar_token(s: Seq<char>, i: int) -> Token {
    if pair_at(s, i + 1, '.', '.') {
        if i + 3 < s.len() && starts_ident(s[i + 3]) {
            let e = ident_end(s, i + 3);
            let name = s.subrange(i + 3, e);
            let brace = space_end(s, e);
            if brace < s.len() && s[brace] == '{' {
                let (fields, end) = spread_fields(s, brace + 1, Seq::empty());
                Token::Spread { name, fields: Some(fields), end }
            } else {
                Token::Spread { name, fields: None, end: e }
            }
        } else {
            Token::Verbatim { end: i + 1 }
        }
    } else if i + 1 < s.len() && s[i + 1] == '$' {
        dollar_quote_token(s, i, Seq::empty())
    } else if i + 1 < s.len() && starts_ident(s[i + 1]) {
        let e = ident_end(s, i + 1);
        let name = s.subrange(i + 1, e);
        if e < s.len() && s[e] == '$' {
            dollar_quote_token(s, i, name)
        } else if e < s.len() && s[e] == '?' {
            Token::Named { name, nullable: Some(true), end: e + 1 }
        } else if e < s.len() && s[e] == '!' {
            Token::Named { name, nullable: Some(false), end: e + 1 }
        } else {
            Token::Named { name, nullable: None, end: e }
        }
    } else {
        Token::Verbatim { end: i + 1 }
    }
}

/// What stands at `i`, a place of ordinary SQL.
pub open spec fn token_at(s: Seq<char>, i: int) -> Token {
    if s[i] == '\'' {
        closed_token(
            quoted_end(s, i + 1, '\''),
            LexErrorView::UnclosedString { position: byte_len(s.take(i)) },
        )
    } else if s[i] == '"' {
        closed_token(
            quoted_end(s, i + 1, '"'),
            LexErrorView::UnclosedQuotedIdentifier { position: byte_len(s.take(i)) },
        )
    } else if pair_at(s, i, '-', '-') {
        Token::Verbatim { end: line_end(s, i + 2) }
    } else if pair_at(s, i, '/', '*') {
        closed_token(
            comment_end(s, i + 2, 1),
            LexErrorView::UnclosedBlockComment { position: byte_len(s.take(i)) },
        )
    } else if s[i] == '$' {
        dollar_token(s, i)
    } else {
        Token::Verbatim { end: i + 1 }
    }
}

/// The placeholder for the parameter at position `k` (counted from zero).
pub open spec fn placeholder(k: int) -> Seq<char> {
    seq!['$'] + decimal_text((k + 1) as nat)
}

/// `acc` behind one more occurrence of a parameter: a name that is new gets
/// the next number, and the offset behind the placeholder is recorded.
pub open spec fn with_param(
    acc: LexOutputView,
    name: Seq<char>,
    nullable: Option<bool>,
) -> LexOutputView {
    let k = param_position(acc.params, name);
    let params = if k < acc.params.len() {
        acc.params
    } else {
        acc.params.push(ParamView { name, nullable, sql_offsets: Seq::empty() })
    };
    let sql = acc.sql + placeholder(k);
    LexOutputView {
        sql,
        params: params.update(
            k,
            ParamView { sql_offsets: params[k].sql_offsets.push(byte_len(sql)), ..params[k] },
        ),
        spreads: acc.spreads,
    }
}

/// `acc` behind a spread parameter, which leaves no text.
pub open spec fn with_spread(
    acc: LexOutputView,
    name: Seq<char>,
    fields: Option<Seq<SpreadFieldView>>,
) -> LexOutputView {
    LexOutputView {
        spreads: acc.spreads.push(SpreadParamView { name, fields, offset: byte_len(acc.sql) }),
        ..acc
    }
}

/// `acc` behind text that is kept.
pub open spec fn with_text(acc: LexOutputView, text: Seq<char>) -> LexOutputView {
    LexOutputView { sql: acc.sql + text, ..acc }
}

/// What the text from `i` on adds to `acc`.
pub open spec fn lex_from(s: Seq<char>, i: int, acc: LexOutputView) -> Result<
    LexOutputView,
    LexErrorView,
>
    decreases s.len() - i,
{
    if i < 0 || i >= s.len() {
        Ok(acc)
    } else {
        proof {
            lemma_token_advances(s, i);
        }
        match token_at(s, i) {
            Token::Verbatim { end } => lex_from(s, end, with_text(acc, s.subrange(i, end))),
            Token::Named { name, nullable, end } => lex_from(
                s,
                end,
                with_param(acc, name, nullable),
            ),
            Token::Spread { name, fields, end } => lex_from(s, end, with_spread(acc, name, fields)),
            Token::Unclosed { error } => Err(error),
        }
    }
}

/// Nothing read yet.
pub open spec fn lex_start() -> LexOutputView {
    LexOutputView { sql: Seq::empty(), params: Seq::empty(), spreads: Seq::empty() }
}

/// What lexing the template `s` gives.
pub open spec fn lex_text(s: Seq<char>) -> Result<LexOutputView, LexErrorView> {
    lex_from(s, 0, lex_start())
}

// ── Each token takes at least one character ─────────────────────────────────

pub proof fn lemma_ident_end(s: Seq<char>, j: int)
    requires
        0 <= j <= s.len(),
    ensures
        j <= ident_end(s, j) <= s.len(),
        j < s.len() && in_ident(s[j]) ==> j < ident_end(s, j),
        forall|k: int| j <= k < ident_end(s, j) ==> in_ident(#[trigger] s[k]),
    decreases s.len() - j,
{
    if j < s.len() && in_ident(s[j]) {
        lemma_ident_end(s, j + 1);
    }
}

pub proof fn lemma_space_end(s: Seq<char>, j: int)
    ensures
        0 <= j <= s.len() ==> j <= space_end(s, j) <= s.len(),
        !(0 <= j <= s.len()) ==> space_end(s, j) == j,
    decreases s.len() - j,
{
    if 0 <= j < s.len() && is_space(s[j]) {
        lemma_space_end(s, j + 1);
    }
}

pub proof fn lemma_quoted_end(s: Seq<char>, j: int, quote: char)
    ensures
        quoted_end(s, j, quote) matches Some(e) ==> j < e <= s.len(),
    decreases s.len() - j,
{
    if 0 <= j < s.len() {
        if s[j] != quote {
            lemma_quoted_end(s, j + 1, quote);
        } else if j + 1 < s.len() && s[j + 1] == quote {
            lemma_quoted_end(s, j + 2, quote);
        }
    }
}

pub proof fn lemma_line_end(s: Seq<char>, j: int)
    requires
        0 <= j <= s.len(),
    ensures
        j <= line_end(s, j) <= s.len(),
    decreases s.len() - j,
{
    if j < s.len() && s[j] != '\n' {
        lemma_line_end(s, j + 1);
    }
}

pub proof fn lemma_comment_end(s: Seq<char>, j: int, depth: nat)
    ensures
        comment_end(s, j, depth) matches Some(e) ==> j < e <= s.len(),
    decreases s.len() - j,
{
    if 0 <= j < s.len() {
        if pair_at(s, j, '/', '*') {
            lemma_comment_end(s, j + 2, depth + 1);
        } else if pair_at(s, j, '*', '/') {
            if depth > 1 {
                lemma_comment_end(s, j + 2, (depth - 1) as nat);
            }
        } else {
            lemma_comment_end(s, j + 1, depth);
        }
    }
}

pub proof fn lemma_dollar_end(s: Seq<char>, j: int, close: Seq<char>)
    requires
        close.len() > 0,
    ensures
        dollar_end(s, j, close) matches Some(e) ==> j < e <= s.len(),
    decreases s.len() - j,
{
    if 0 <= j < s.len() && !stands_at(s, j, close) {
        lemma_dollar_end(s, j + 1, close);
    }
}

pub proof fn lemma_spread_fields(s: Seq<char>, j: int, seen: Seq<SpreadFieldView>)
    requires
        0 <= j <= s.len(),
    ensures
        j <= spread_fields(s, j, seen).1 <= s.len(),
    decreases s.len() - j,
{
    lemma_space_end(s, j);
    let k = space_end(s, j);
    if k < s.len() && s[k] != '}' {
        if starts_ident(s[k]) {
            lemma_ident_end(s, k);
            let e = ident_end(s, k);
            let nullable = e < s.len() && s[e] == '?';
            let after = if nullable {
                e + 1
            } else {
                e
            };
            lemma_space_end(s, after);
            let sep = space_end(s, after);
            let next = if sep < s.len() && s[sep] == ',' {
                sep + 1
            } else {
                sep
            };
            lemma_spread_fields(
                s,
                next,
                seen.push(SpreadFieldView { name: s.subrange(k, e), nullable }),
            );
        } else {
            lemma_spread_fields(s, k + 1, seen);
        }
    }
}

/// Where the token at `i` ends, unless it is unclosed.
pub open spec fn token_end(t: Token) -> Option<int> {
    match t {
        Token::Verbatim { end } => Some(end),
        Token::Named { end, .. } => Some(end),
        Token::Spread { end, .. } => Some(end),
        Token::Unclosed { .. } => None,
    }
}

pub proof fn lemma_token_advances(s: Seq<char>, i: int)
    requires
        0 <= i < s.len(),
    ensures
        token_end(token_at(s, i)) matches Some(e) ==> i < e <= s.len(),
{
    lemma_quoted_end(s, i + 1, '\'');
    lemma_quoted_end(s, i + 1, '"');
    if pair_at(s, i, '-', '-') {
        lemma_line_end(s, i + 2);
    }
    lemma_comment_end(s, i + 2, 1);
    if s[i] == '$' {
        if pair_at(s, i + 1, '.', '.') {
            if i + 3 < s.len() && starts_ident(s[i + 3]) {
                lemma_ident_end(s, i + 3);
                let e = ident_end(s, i + 3);
                lemma_space_end(s, e);
                let brace = space_end(s, e);
                if brace < s.len() {
                    lemma_spread_fields(s, brace + 1, Seq::empty());
                }
            }
        } else if i + 1 < s.len() && s[i + 1] == '$' {
            let close = seq!['$'] + Seq::<char>::empty() + seq!['$'];
            lemma_dollar_end(s, i + close.len(), close);
        } else if i + 1 < s.len() && starts_ident(s[i + 1]) {
            lemma_ident_end(s, i + 1);
            let close = seq!['$'] + s.subrange(i + 1, ident_end(s, i + 1)) + seq!['$'];
            lemma_dollar_end(s, i + close.len(), close);
        }
    }
}


// ── The lexer ───────────────────────────────────────────────────────────────

/// Where the identifier at `start` ends.
fn scan_ident(chars: &Vec<char>, start: usize) -> (end: usize)
    requires
        start <= chars@.len(),
    ensures
        end == ident_end(chars@, start as int),
        start <= end <= chars@.len(),
{
    let mut end: usize = start;
    while end < chars.len() && is_ident_char(chars[end])
        invariant
            start <= end <= chars@.len(),
            ident_end(chars@, start as int) == ident_end(chars@, end as int),
        decreases chars.len() - end,
    {
        end = end + 1;
    }
    end
}

/// The identifier that begins at `start`: the longest run of identifier characters.
pub fn read_ident(chars: &Vec<char>, start: usize) -> (r: String)
    requires
        start <= chars@.len(),
    ensures
        r@ == chars@.subrange(start as int, ident_end(chars@, start as int)),
{
    let end: usize = scan_ident(chars, start);
    slice_text(chars, start, end)
}

fn scan_space(chars: &Vec<char>, start: usize) -> (end: usize)
    requires
        start <= chars@.len(),
    ensures
        end == space_end(chars@, start as int),
        start <= end <= chars@.len(),
{
    let mut end: usize = start;
    while end < chars.len() && is_ascii_space(chars[end])
        invariant
            start <= end <= chars@.len(),
            space_end(chars@, start as int) == space_end(chars@, end as int),
        decreases chars.len() - end,
    {
        end = end + 1;
    }
    end
}

/// An optional position, as a number.
pub open spec fn as_position(p: Option<usize>) -> Option<int> {
    match p {
        Some(n) => Some(n as int),
        None => None,
    }
}

fn scan_quoted(chars: &Vec<char>, start: usize, quote: char) -> (end: Option<usize>)
    requires
        start <= chars@.len(),
    ensures
        as_position(end) == quoted_end(chars@, start as int, quote),
{
    let mut j: usize = start;
    while j < chars.len()
        invariant
            start <= j <= chars@.len(),
            quoted_end(chars@, start as int, quote) == quoted_end(chars@, j as int, quote),
        decreases chars.len() - j,
    {
        if chars[j] != quote {
            j = j + 1;
        } else if j + 1 < chars.len() && chars[j + 1] == quote {
            j = j + 2;
        } else {
            return Some(j + 1);
        }
    }
    None
}

fn scan_line(chars: &Vec<char>, start: usize) -> (end: usize)
    requires
        start <= chars@.len(),
    ensures
        end == line_end(chars@, start as int),
{
    let mut j: usize = start;
    while j < chars.len()
        invariant
            start <= j <= chars@.len(),
            line_end(chars@, start as int) == line_end(chars@, j as int),
        decreases chars.len() - j,
    {
        if chars[j] == '\n' {
            return j + 1;
        }
        j = j + 1;
    }
    j
}

fn scan_comment(chars: &Vec<char>, start: usize) -> (end: Option<usize>)
    requires
        start <= chars@.len(),
    ensures
        as_position(end) == comment_end(chars@, start as int, 1),
{
    let mut j: usize = start;
    let mut depth: usize = 1;
    while j < chars.len()
        invariant
            start <= j <= chars@.len(),
            1 <= depth <= 1 + (j - start),
            comment_end(chars@, start as int, 1) == comment_end(chars@, j as int, depth as nat),
        decreases chars.len() - j,
    {
        if j + 1 < chars.len() && chars[j] == '/' && chars[j + 1] == '*' {
            depth = depth + 1;
            j = j + 2;
        } else if j + 1 < chars.len() && chars[j] == '*' && chars[j + 1] == '/' {
            if depth == 1 {
                return Some(j + 2);
            }
            depth = depth - 1;
            j = j + 2;
        } else {
            j = j + 1;
        }
    }
    None
}

fn pattern_at(chars: &Vec<char>, j: usize, pattern: &Vec<char>) -> (r: bool)
    requires
        j <= chars@.len(),
    ensures
        r == stands_at(chars@, j as int, pattern@),
{
    if pattern.len() > chars.len() - j {
        return false;
    }
    let len: usize = chars.len();
    let mut k: usize = 0;
    while k < pattern.len()
        invariant
            k <= pattern@.len(),
            len == chars@.len(),
            j + pattern@.len() <= len,
            forall|m: int| 0 <= m < k ==> chars@[j + m] == #[trigger] pattern@[m],
        decreases pattern.len() - k,
    {
        if chars[j + k] != pattern[k] {
            proof {
                assert(chars@.subrange(j as int, j + pattern@.len())[k as int] != pattern@[k as int]);
            }
            return false;
        }
        k = k + 1;
    }
    proof {
        assert(chars@.subrange(j as int, j + pattern@.len()) =~= pattern@);
    }
    true
}

fn scan_dollar(chars: &Vec<char>, start: usize, close: &Vec<char>) -> (end: Option<usize>)
    requires
        start <= chars@.len(),
    ensures
        as_position(end) == dollar_end(chars@, start as int, close@),
{
    let mut j: usize = start;
    while j < chars.len()
        invariant
            start <= j <= chars@.len(),
            dollar_end(chars@, start as int, close@) == dollar_end(chars@, j as int, close@),
        decreases chars.len() - j,
    {
        if pattern_at(chars, j, close) {
            return Some(j + close.len());
        }
        j = j + 1;
    }
    None
}

fn scan_spread_fields(chars: &Vec<char>, start: usize) -> (r: (Vec<SpreadField>, usize))
    requires
        start <= chars@.len(),
    ensures
        (field_views(r.0@), r.1 as int) == spread_fields(chars@, start as int, Seq::empty()),
        r.1 <= chars@.len(),
{
    let mut fields: Vec<SpreadField> = Vec::new();
    let mut j: usize = start;
    proof {
        assert(field_views(fields@) =~= Seq::<SpreadFieldView>::empty());
    }
    loop
        invariant
            start <= j <= chars@.len(),
            spread_fields(chars@, start as int, Seq::empty()) == spread_fields(
                chars@,
                j as int,
                field_views(fields@),
            ),
        decreases chars.len() - j,
    {
        let k: usize = scan_space(chars, j);
        if k >= chars.len() {
            return (fields, k);
        }
        if chars[k] == '}' {
            return (fields, k + 1);
        }
        if is_ident_start(chars[k]) {
            proof {
                lemma_ident_end(chars@, k as int);
            }
            let e: usize = scan_ident(chars, k);
            let name: String = slice_text(chars, k, e);
            let nullable: bool = e < chars.len() && chars[e] == '?';
            let after: usize = if nullable {
                e + 1
            } else {
                e
            };
            let sep: usize = scan_space(chars, after);
            let ghost before = field_views(fields@);
            fields.push(SpreadField { name, nullable });
            proof {
                assert(field_views(fields@) =~= before.push(
                    SpreadFieldView { name: chars@.subrange(k as int, e as int), nullable },
                ));
            }
            if sep < chars.len() && chars[sep] == ',' {
                j = sep + 1;
            } else {
                j = sep;
            }
        } else {
            j = k + 1;
        }
    }
}

/// The number of bytes that the first `n` characters take.
fn byte_offset(chars: &Vec<char>, n: usize) -> (r: usize)
    requires
        n <= chars@.len(),
    ensures
        r == byte_len(chars@.take(n as int)),
{
    let head: String = slice_text(chars, 0, n);
    proof {
        assert(chars@.subrange(0, n as int) =~= chars@.take(n as int));
    }
    byte_length(head.as_str())
}

pub proof fn lemma_param_position(params: Seq<ParamView>, name: Seq<char>, k: int)
    requires
        0 <= k <= params.len(),
        forall|j: int| 0 <= j < k ==> (#[trigger] params[j]).name != name,
        k < params.len() ==> params[k].name == name,
    ensures
        param_position(params, name) == k,
    decreases params.len(),
{
    if k > 0 {
        assert forall|j: int| 0 <= j < k - 1 implies (#[trigger] params.drop_first()[j]).name
            != name by {
            assert(params.drop_first()[j] == params[j + 1]);
        }
        if k < params.len() {
            assert(params.drop_first()[k - 1] == params[k]);
        }
        lemma_param_position(params.drop_first(), name, k - 1);
    }
}

fn find_param(params: &Vec<Param>, name: &str) -> (k: usize)
    ensures
        k == param_position(param_views(params@), name@),
        k <= params@.len(),
{
    let mut k: usize = 0;
    while k < params.len()
        invariant
            k <= params@.len(),
            forall|j: int| 0 <= j < k ==> (#[trigger] param_views(params@)[j]).name != name@,
        decreases params.len() - k,
    {
        if same_text(params[k].name.as_str(), name) {
            proof {
                lemma_param_position(param_views(params@), name@, k as int);
            }
            return k;
        }
        k = k + 1;
    }
    proof {
        lemma_param_position(param_views(params@), name@, k as int);
    }
    k
}

/// Adds one occurrence of a parameter to the output.
fn add_param(out: &mut LexOutput, name: String, nullable: Option<bool>)
    ensures
        final(out)@ == with_param(old(out)@, name@, nullable),
{
    let ghost before = out@;
    let k: usize = find_param(&out.params, name.as_str());
    let ghost fresh = ParamView { name: name@, nullable, sql_offsets: Seq::empty() };
    if k == out.params.len() {
        out.params.push(Param { name, nullable, sql_offsets: Vec::new() });
        proof {
            assert(out.params@.last()@ =~= fresh);
        }
    }
    let count: usize = out.params.len();
    let ghost params = param_views(out.params@);
    proof {
        assert(k < count);
        assert(params =~= if k < before.params.len() {
            before.params
        } else {
            before.params.push(fresh)
        });
    }
    out.sql.push('$');
    out.sql.append(decimal(k as u64 + 1).as_str());
    proof {
        assert(out.sql@ =~= before.sql + placeholder(k as int));
    }
    let offset: usize = byte_length(out.sql.as_str());
    let ghost earlier = out.params@[k as int];
    out.params[k].sql_offsets.push(offset);
    proof {
        assert(out.params@[k as int].sql_offsets@ == earlier.sql_offsets@.push(offset));
        assert(out.params@[k as int]@.sql_offsets =~= earlier@.sql_offsets.push(offset as nat));
        assert(param_views(out.params@) =~= params.update(k as int, out.params@[k as int]@));
    }
}

/// Adds a spread parameter to the output.
fn add_spread(out: &mut LexOutput, name: String, fields: Option<Vec<SpreadField>>)
    ensures
        final(out)@ == with_spread(
            old(out)@,
            name@,
            match fields {
                Some(f) => Some(field_views(f@)),
                None => None,
            },
        ),
{
    let offset: usize = byte_length(out.sql.as_str());
    let ghost before = out@.spreads;
    out.spreads.push(SpreadParam { name, fields, offset });
    proof {
        assert(spread_views(out.spreads@) =~= before.push(out.spreads@.last()@));
    }
}

/// Reads the construct that the dollar sign at `i` begins and returns where it ends.
fn lex_dollar(chars: &Vec<char>, i: usize, out: &mut LexOutput) -> (r: Result<usize, LexError>)
    requires
        i < chars@.len(),
        chars@[i as int] == '$',
    ensures
        match (r, dollar_token(chars@, i as int)) {
            (Ok(n), Token::Verbatim { end }) => n == end && final(out)@ == with_text(
                old(out)@,
                chars@.subrange(i as int, end),
            ),
            (Ok(n), Token::Named { name, nullable, end }) => n == end && final(out)@ == with_param(
                old(out)@,
                name,
                nullable,
            ),
            (Ok(n), Token::Spread { name, fields, end }) => n == end && final(out)@ == with_spread(
                old(out)@,
                name,
                fields,
            ),
            (Err(e), Token::Unclosed { error }) => e@ == error,
            _ => false,
        },
{
    let len: usize = chars.len();
    if len - i > 2 && chars[i + 1] == '.' && chars[i + 2] == '.' {
        if len - i > 3 && is_ident_start(chars[i + 3]) {
            let e: usize = scan_ident(chars, i + 3);
            let name: String = read_ident(chars, i + 3);
            let brace: usize = scan_space(chars, e);
            if brace < len && chars[brace] == '{' {
                let (fields, end) = scan_spread_fields(chars, brace + 1);
                add_spread(out, name, Some(fields));
                return Ok(end);
            }
            add_spread(out, name, None);
            return Ok(e);
        }
    } else if i + 1 < len && (chars[i + 1] == '$' || is_ident_start(chars[i + 1])) {
        let e: usize = scan_ident(chars, i + 1);
        let name: String = read_ident(chars, i + 1);
        proof {
            if chars@[i + 1] == '$' {
                assert(name@ =~= Seq::<char>::empty());
            }
        }
        if e < len && chars[e] == '$' {
            let mut close: Vec<char> = Vec::new();
            close.push('$');
            let mut tag: Vec<char> = characters(name.as_str());
            close.append(&mut tag);
            close.push('$');
            proof {
                assert(close@ =~= seq!['$'] + name@ + seq!['$']);
            }
            return match scan_dollar(chars, e + 1, &close) {
                Some(end) => {
                    proof {
                        lemma_dollar_end(chars@, e + 1, close@);
                    }
                    out.sql.append(slice_text(chars, i, end).as_str());
                    Ok(end)
                },
                None => Err(
                    LexError::UnclosedDollarQuote { tag: name, position: byte_offset(chars, i) },
                ),
            };
        }
        if e < len && chars[e] == '?' {
            add_param(out, name, Some(true));
            return Ok(e + 1);
        }
        if e < len && chars[e] == '!' {
            add_param(out, name, Some(false));
            return Ok(e + 1);
        }
        add_param(out, name, None);
        return Ok(e);
    }
    out.sql.push('$');
    proof {
        assert(chars@.subrange(i as int, i + 1) =~= seq!['$']);
        assert(out.sql@ =~= old(out).sql@ + chars@.subrange(i as int, i + 1));
    }
    Ok(i + 1)
}

/// Reads the token at `i` and returns where it ends.
fn lex_token(chars: &Vec<char>, i: usize, out: &mut LexOutput) -> (r: Result<usize, LexError>)
    requires
        i < chars@.len(),
    ensures
        match (r, token_at(chars@, i as int)) {
            (Ok(n), Token::Verbatim { end }) => n == end && final(out)@ == with_text(
                old(out)@,
                chars@.subrange(i as int, end),
            ),
            (Ok(n), Token::Named { name, nullable, end }) => n == end && final(out)@ == with_param(
                old(out)@,
                name,
                nullable,
            ),
            (Ok(n), Token::Spread { name, fields, end }) => n == end && final(out)@ == with_spread(
                old(out)@,
                name,
                fields,
            ),
            (Err(e), Token::Unclosed { error }) => e@ == error,
            _ => false,
        },
{
    proof {
        lemma_token_advances(chars@, i as int);
    }
    let len: usize = chars.len();
    let c: char = chars[i];
    if c == '$' {
        return lex_dollar(chars, i, out);
    }
    let end: usize = if c == '\'' {
        match scan_quoted(chars, i + 1, '\'') {
            Some(end) => end,
            None => return Err(LexError::UnclosedString { position: byte_offset(chars, i) }),
        }
    } else if c == '"' {
        match scan_quoted(chars, i + 1, '"') {
            Some(end) => end,
            None => return Err(
                LexError::UnclosedQuotedIdentifier { position: byte_offset(chars, i) },
            ),
        }
    } else if c == '-' && i + 1 < len && chars[i + 1] == '-' {
        scan_line(chars, i + 2)
    } else if c == '/' && i + 1 < len && chars[i + 1] == '*' {
        match scan_comment(chars, i + 2) {
            Some(end) => end,
            None => return Err(LexError::UnclosedBlockComment { position: byte_offset(chars, i) }),
        }
    } else {
        i + 1
    };
    out.sql.append(slice_text(chars, i, end).as_str());
    Ok(end)
}

/// Lexes a SQL template: extracts named and spread parameters.
///
/// `$name` becomes a positional placeholder (`$1`, `$2`, ...; one number for
/// each name), `$..spread` is taken out of the text and its byte offset is
/// recorded. Parameters inside string literals, comments, dollar-quoted strings
/// and quoted identifiers are left alone.
///
/// # Errors
///
/// The text holds a string literal, block comment, dollar-quoted string or
/// quoted identifier that is never closed.
pub fn lex(sql: &str) -> (r: Result<LexOutput, LexError>)
    ensures
        lex_outcome(r) == lex_text(sql@),
{
    let chars: Vec<char> = characters(sql);
    let len: usize = chars.len();
    let mut out: LexOutput = LexOutput { sql: String::new(), params: Vec::new(), spreads: Vec::new() };
    proof {
        assert(out@ =~= lex_start());
    }
    let mut i: usize = 0;
    while i < len
        invariant
            len == chars@.len(),
            i <= len,
            chars@ == sql@,
            lex_text(sql@) == lex_from(sql@, i as int, out@),
        decreases len - i,
    {
        proof {
            lemma_token_advances(sql@, i as int);
        }
        match lex_token(&chars, i, &mut out) {
            Ok(end) => {
                i = end;
            },
            Err(e) => return Err(e),
        }
    }
    Ok(out)
}

// ── Back to the template ────────────────────────────────────────────────────

/// The bytes of the template that byte `at` of the lexed text stems from, as an
/// offset and the offset behind. A byte that was kept stems from itself, each
/// byte of a placeholder from the whole parameter; a byte behind the lexed text
/// from the end of the template.
pub open spec fn source_of(s: Seq<char>, i: int, acc: LexOutputView, at: nat) -> (nat, nat)
    decreases s.len() - i,
{
    if i < 0 || i >= s.len() {
        (byte_len(s), byte_len(s))
    } else {
        proof {
            lemma_token_advances(s, i);
        }
        match token_at(s, i) {
            Token::Verbatim { end } => {
                let next = with_text(acc, s.subrange(i, end));
                if at < byte_len(next.sql) {
                    let n = byte_len(s.take(i)) + at - byte_len(acc.sql);
                    (n as nat, (n + 1) as nat)
                } else {
                    source_of(s, end, next, at)
                }
            },
            Token::Named { name, nullable, end } => {
                let next = with_param(acc, name, nullable);
                if at < byte_len(next.sql) {
                    (byte_len(s.take(i)), byte_len(s.take(end)))
                } else {
                    source_of(s, end, next, at)
                }
            },
            Token::Spread { name, fields, end } => source_of(
                s,
                end,
                with_spread(acc, name, fields),
                at,
            ),
            Token::Unclosed { error } => (byte_len(s), byte_len(s)),
        }
    }
}

/// The span of the template that a span of the lexed text stems from.
pub open spec fn source_span(s: Seq<char>, start: nat, end: nat) -> (nat, nat) {
    let first = source_of(s, 0, lex_start(), start);
    if end > start {
        (first.0, source_of(s, 0, lex_start(), (end - 1) as nat).1)
    } else {
        (first.0, first.0)
    }
}

pub proof fn lemma_byte_len_concat(a: Seq<char>, b: Seq<char>)
    ensures
        byte_len(a + b) == byte_len(a) + byte_len(b),
    decreases a.len(),
{
    if a.len() == 0 {
        assert(a + b =~= b);
    } else {
        assert((a + b).drop_first() =~= a.drop_first() + b);
        lemma_byte_len_concat(a.drop_first(), b);
        assert((a + b)[0] == a[0]);
    }
}

fn find_source(sql: &str, at: usize) -> (r: (usize, usize))
    ensures
        (r.0 as nat, r.1 as nat) == source_of(sql@, 0, lex_start(), at as nat),
{
    let chars: Vec<char> = characters(sql);
    let len: usize = chars.len();
    let total: usize = byte_length(sql);
    let mut out: LexOutput = LexOutput { sql: String::new(), params: Vec::new(), spreads: Vec::new() };
    proof {
        assert(out@ =~= lex_start());
    }
    let mut i: usize = 0;
    while i < len
        invariant
            len == chars@.len(),
            i <= len,
            chars@ == sql@,
            total == byte_len(sql@),
            byte_len(out@.sql) <= at,
            source_of(sql@, 0, lex_start(), at as nat) == source_of(
                sql@,
                i as int,
                out@,
                at as nat,
            ),
        decreases len - i,
    {
        proof {
            lemma_token_advances(sql@, i as int);
        }
        let before: usize = byte_length(out.sql.as_str());
        let ghost acc = out@;
        let end: usize = match lex_token(&chars, i, &mut out) {
            Ok(end) => end,
            Err(_) => return (total, total),
        };
        if at < byte_length(out.sql.as_str()) {
            let begin: usize = byte_offset(&chars, i);
            if is_named(&chars, i) {
                return (begin, byte_offset(&chars, end));
            }
            proof {
                let kept = sql@.subrange(i as int, end as int);
                let rest = sql@.skip(end as int);
                lemma_byte_len_concat(acc.sql, kept);
                assert(sql@.take(i as int) + kept =~= sql@.take(end as int));
                lemma_byte_len_concat(sql@.take(i as int), kept);
                assert(sql@.take(end as int) + rest =~= sql@);
                lemma_byte_len_concat(sql@.take(end as int), rest);
            }
            let n: usize = begin + (at - before);
            return (n, n + 1);
        }
        i = end;
    }
    (total, total)
}

/// Whether the token at `i` is a parameter.
fn is_named(chars: &Vec<char>, i: usize) -> (r: bool)
    requires
        i < chars@.len(),
    ensures
        r == (token_at(chars@, i as int) is Named),
{
    let len: usize = chars.len();
    if chars[i] != '$' || len - i < 2 || !is_ident_start(chars[i + 1]) {
        return false;
    }
    let e: usize = scan_ident(chars, i + 1);
    !(e < len && chars[e] == '$')
}

/// The span of the template that a span of the lexed text stems from, both in
/// bytes.
pub fn original_span(sql: &str, start: usize, end: usize) -> (r: (usize, usize))
    ensures
        (r.0 as nat, r.1 as nat) == source_span(sql@, start as nat, end as nat),
{
    let first: (usize, usize) = find_source(sql, start);
    if end > start {
        (first.0, find_source(sql, end - 1).1)
    } else {
        (first.0, first.0)
    }
}

// ── Laws ────────────────────────────────────────────────────────────────────

/// Text from `i` on without a dollar sign is copied and brings no parameter.
proof fn lemma_plain_text_is_copied(s: Seq<char>, i: int, acc: LexOutputView)
    requires
        0 <= i <= s.len(),
        !s.contains('$'),
    ensures
        lex_from(s, i, acc) matches Ok(o) ==> o == with_text(acc, s.subrange(i, s.len() as int)),
    decreases s.len() - i,
{
    if i == s.len() {
        assert(acc.sql =~= acc.sql + s.subrange(i, i));
    } else {
        assert(s[i] != '$');
        lemma_token_advances(s, i);
        if let Token::Verbatim { end } = token_at(s, i) {
            let next = with_text(acc, s.subrange(i, end));
            lemma_plain_text_is_copied(s, end, next);
            assert(next.sql + s.subrange(end, s.len() as int) =~= acc.sql + s.subrange(
                i,
                s.len() as int,
            ));
        }
    }
}

/// A template without a dollar sign comes out as it went in, with no parameters.
pub proof fn law_plain_text_is_unchanged(s: Seq<char>)
    requires
        !s.contains('$'),
    ensures
        lex_text(s) matches Ok(o) ==> o.sql == s && o.params.len() == 0 && o.spreads.len() == 0,
{
    lemma_plain_text_is_copied(s, 0, lex_start());
    assert(lex_start().sql + s.subrange(0, s.len() as int) =~= s);
}

proof fn lemma_plain_source(s: Seq<char>, i: int, acc: LexOutputView, at: nat)
    requires
        0 <= i <= s.len(),
        !s.contains('$'),
        acc.sql == s.take(i),
        lex_from(s, i, acc) is Ok,
        byte_len(s.take(i)) <= at < byte_len(s),
    ensures
        source_of(s, i, acc, at) == (at, at + 1),
    decreases s.len() - i,
{
    assert(s.take(s.len() as int) =~= s);
    if i < s.len() {
        assert(s[i] != '$');
        lemma_token_advances(s, i);
        if let Token::Verbatim { end } = token_at(s, i) {
            let next = with_text(acc, s.subrange(i, end));
            assert(next.sql =~= s.take(end));
            if at >= byte_len(next.sql) {
                lemma_plain_source(s, end, next, at);
            }
        }
    }
}

/// In a template without a dollar sign each span stems from itself.
pub proof fn law_plain_spans_are_unchanged(s: Seq<char>, start: nat, end: nat)
    requires
        !s.contains('$'),
        lex_text(s) is Ok,
        start < end <= byte_len(s),
    ensures
        source_span(s, start, end) == (start, end),
{
    assert(lex_start().sql =~= s.take(0));
    assert(byte_len(s.take(0)) == 0);
    lemma_plain_source(s, 0, lex_start(), start);
    lemma_plain_source(s, 0, lex_start(), (end - 1) as nat);
}

/// No two parameters share a name, and each one occurs.
pub open spec fn params_are_distinct(params: Seq<ParamView>) -> bool {
    &&& forall|j: int, k: int|
        0 <= j < k < params.len() ==> (#[trigger] params[j]).name != (#[trigger] params[k]).name
    &&& forall|j: int| 0 <= j < params.len() ==> (#[trigger] params[j]).sql_offsets.len() > 0
}

/// The position of a name is that of a parameter which has it, or the number
/// of parameters where none has.
pub proof fn lemma_position_of_name(params: Seq<ParamView>, name: Seq<char>)
    ensures
        0 <= param_position(params, name) <= params.len(),
        param_position(params, name) < params.len() ==> params[param_position(params, name)].name
            == name,
        forall|j: int|
            0 <= j < param_position(params, name) ==> (#[trigger] params[j]).name != name,
    decreases params.len(),
{
    if params.len() > 0 && params[0].name != name {
        lemma_position_of_name(params.drop_first(), name);
        assert forall|j: int| 0 <= j < param_position(params, name) implies (
        #[trigger] params[j]).name != name by {
            if j > 0 {
                assert(params[j] == params.drop_first()[j - 1]);
            }
        }
    }
}

proof fn lemma_names_stay_distinct(s: Seq<char>, i: int, acc: LexOutputView)
    requires
        0 <= i <= s.len(),
        params_are_distinct(acc.params),
    ensures
        lex_from(s, i, acc) matches Ok(o) ==> params_are_distinct(o.params),
    decreases s.len() - i,
{
    if i < s.len() {
        lemma_token_advances(s, i);
        match token_at(s, i) {
            Token::Verbatim { end } => {
                lemma_names_stay_distinct(s, end, with_text(acc, s.subrange(i, end)));
            },
            Token::Named { name, nullable, end } => {
                lemma_position_of_name(acc.params, name);
                lemma_names_stay_distinct(s, end, with_param(acc, name, nullable));
            },
            Token::Spread { name, fields, end } => {
                lemma_names_stay_distinct(s, end, with_spread(acc, name, fields));
            },
            Token::Unclosed { error } => {},
        }
    }
}

/// Each parameter name gets one number: no two parameters of a lexed template
/// share a name, and each has at least one placeholder in the text.
pub proof fn law_one_parameter_for_each_name(s: Seq<char>)
    ensures
        lex_text(s) matches Ok(o) ==> params_are_distinct(o.params),
{
    lemma_names_stay_distinct(s, 0, lex_start());
}

} // verus!

//! Lexing a text that was lexed changes nothing.

use crate::lexer::{
    comment_end, dollar_end, dollar_quote_token, dollar_token, ident_end, in_ident,
    lemma_comment_end, lemma_dollar_end, lemma_ident_end, lemma_line_end, lemma_position_of_name,
    lemma_quoted_end, lemma_token_advances, lex_from, lex_start, lex_text, line_end, pair_at,
    placeholder, quoted_end, stands_at, starts_ident, token_at, with_param, with_spread, with_text,
    LexErrorView, Token,
};
use crate::param::{param_position, LexOutputView, ParamView};
use crate::text::decimal_text;
use vstd::prelude::*;

verus! {

// ── What a token looks at ───────────────────────────────────────────────────

/// Whether `t` holds from `j + d` on what `s` holds from `j` up to `e`.
spec fn agree(s: Seq<char>, t: Seq<char>, d: int, j: int, e: int) -> bool {
    &&& 0 <= j <= e <= s.len()
    &&& 0 <= j + d
    &&& e + d <= t.len()
    &&& forall|k: int| j <= k < e ==> #[trigger] s[k] == t[k + d]
}

/// Whether the same character stands at `k` in `s` and at `k + d` in `t`, or both end there.
spec fn same_at(s: Seq<char>, t: Seq<char>, d: int, k: int) -> bool {
    ||| k == s.len() && k + d == t.len()
    ||| 0 <= k < s.len() && 0 <= k + d < t.len() && s[k] == t[k + d]
}

proof fn lemma_ident_moves(s: Seq<char>, t: Seq<char>, d: int, j: int)
    requires
        agree(s, t, d, j, ident_end(s, j) + 1),
    ensures
        ident_end(t, j + d) == ident_end(s, j) + d,
    decreases s.len() - j,
{
    lemma_ident_end(s, j);
    assert(s[j] == t[j + d]);
    if in_ident(s[j]) {
        lemma_ident_end(s, j + 1);
        lemma_ident_moves(s, t, d, j + 1);
    }
}

proof fn lemma_quote_moves(s: Seq<char>, t: Seq<char>, d: int, j: int, e: int, quote: char)
    requires
        quoted_end(s, j, quote) == Some(e),
        agree(s, t, d, j, e),
        same_at(s, t, d, e),
    ensures
        quoted_end(t, j + d, quote) == Some(e + d),
    decreases s.len() - j,
{
    lemma_quoted_end(s, j, quote);
    assert(s[j] == t[j + d]);
    if s[j] != quote {
        lemma_quoted_end(s, j + 1, quote);
        lemma_quote_moves(s, t, d, j + 1, e, quote);
    } else if j + 1 < s.len() && s[j + 1] == quote {
        lemma_quoted_end(s, j + 2, quote);
        assert(s[j + 1] == t[j + 1 + d]);
        lemma_quote_moves(s, t, d, j + 2, e, quote);
    }
}

proof fn lemma_line_moves(s: Seq<char>, t: Seq<char>, d: int, j: int)
    requires
        agree(s, t, d, j, line_end(s, j)),
        same_at(s, t, d, line_end(s, j)),
    ensures
        line_end(t, j + d) == line_end(s, j) + d,
    decreases s.len() - j,
{
    if j < s.len() {
        if s[j] != '\n' {
            lemma_line_end(s, j + 1);
            assert(s[j] == t[j + d]);
            lemma_line_moves(s, t, d, j + 1);
        } else {
            assert(s[j] == t[j + d]);
        }
    }
}

proof fn lemma_comment_moves(s: Seq<char>, t: Seq<char>, d: int, j: int, depth: nat, e: int)
    requires
        comment_end(s, j, depth) == Some(e),
        agree(s, t, d, j, e),
    ensures
        comment_end(t, j + d, depth) == Some(e + d),
    decreases s.len() - j,
{
    lemma_comment_end(s, j, depth);
    assert(s[j] == t[j + d]);
    if pair_at(s, j, '/', '*') {
        lemma_comment_end(s, j + 2, depth + 1);
        assert(s[j + 1] == t[j + 1 + d]);
        lemma_comment_moves(s, t, d, j + 2, depth + 1, e);
    } else if pair_at(s, j, '*', '/') {
        assert(j + 2 <= e) by {
            if depth > 1 {
                lemma_comment_end(s, j + 2, (depth - 1) as nat);
            }
        }
        assert(s[j + 1] == t[j + 1 + d]);
        if depth > 1 {
            lemma_comment_moves(s, t, d, j + 2, (depth - 1) as nat, e);
        }
    } else {
        lemma_comment_end(s, j + 1, depth);
        assert(s[j + 1] == t[j + 1 + d]);
        lemma_comment_moves(s, t, d, j + 1, depth, e);
    }
}

proof fn lemma_close_is_inside(s: Seq<char>, j: int, close: Seq<char>)
    requires
        close.len() > 0,
    ensures
        dollar_end(s, j, close) matches Some(e) ==> j + close.len() <= e,
    decreases s.len() - j,
{
    if 0 <= j < s.len() && !stands_at(s, j, close) {
        lemma_close_is_inside(s, j + 1, close);
    }
}

proof fn lemma_dollar_moves(s: Seq<char>, t: Seq<char>, d: int, j: int, close: Seq<char>, e: int)
    requires
        close.len() > 0,
        dollar_end(s, j, close) == Some(e),
        agree(s, t, d, j, e),
    ensures
        dollar_end(t, j + d, close) == Some(e + d),
    decreases s.len() - j,
{
    lemma_close_is_inside(s, j, close);
    lemma_dollar_end(s, j, close);
    let n = j + close.len();
    assert(s.subrange(j, n) =~= t.subrange(j + d, n + d)) by {
        assert forall|k: int| 0 <= k < close.len() implies s.subrange(j, n)[k] == t.subrange(
            j + d,
            n + d,
        )[k] by {
            assert(s[j + k] == t[j + k + d]);
        }
    }
    if !stands_at(s, j, close) {
        lemma_dollar_end(s, j + 1, close);
        lemma_dollar_moves(s, t, d, j + 1, close, e);
    }
}

// ── Text that is kept is kept again ─────────────────────────────────────────

proof fn lemma_quoted_string_moves(s: Seq<char>, t: Seq<char>, d: int, i: int, n: int, e: int)
    requires
        i + 2 <= n <= e,
        agree(s, t, d, i, e),
        dollar_quote_token(s, i, s.subrange(i + 1, n - 1)) == (Token::Verbatim { end: e }),
    ensures
        dollar_quote_token(t, i + d, t.subrange(i + d + 1, n + d - 1)) == (Token::Verbatim {
            end: e + d,
        }),
{
    let tag = s.subrange(i + 1, n - 1);
    assert(tag =~= t.subrange(i + d + 1, n + d - 1)) by {
        assert forall|k: int| 0 <= k < tag.len() implies tag[k] == t.subrange(
            i + d + 1,
            n + d - 1,
        )[k] by {
            assert(s[i + 1 + k] == t[i + 1 + k + d]);
        }
    }
    let close = seq!['$'] + tag + seq!['$'];
    assert(close.len() == n - i);
    lemma_dollar_moves(s, t, d, n, close, e);
}

/// Whether, behind `i`, the two texts are alike as far as a dollar sign at `i` is looked
/// behind: the next character, and what follows one or two dots.
spec fn alike(s: Seq<char>, t: Seq<char>, d: int, i: int) -> bool {
    &&& same_at(s, t, d, i)
    &&& i < s.len() && s[i] == '.' ==> same_at(s, t, d, i + 1)
    &&& pair_at(s, i, '.', '.') ==> same_at(s, t, d, i + 2)
}

proof fn lemma_dollar_token_moves(s: Seq<char>, t: Seq<char>, d: int, i: int, e: int)
    requires
        0 <= i < e,
        s[i] == '$',
        dollar_token(s, i) == (Token::Verbatim { end: e }),
        agree(s, t, d, i, e),
        alike(s, t, d, e),
    ensures
        dollar_token(t, i + d) == (Token::Verbatim { end: e + d }),
{
    assert(s[i] == t[i + d]);
    if pair_at(s, i + 1, '.', '.') {
        assert(e == i + 1);
    } else if i + 1 < s.len() && s[i + 1] == '$' {
        let close = seq!['$'] + Seq::<char>::empty() + seq!['$'];
        lemma_close_is_inside(s, i + 2, close);
        assert(s[i + 1] == t[i + 1 + d]);
        assert(s.subrange(i + 1, i + 1) =~= Seq::<char>::empty());
        assert(t.subrange(i + d + 1, i + d + 1) =~= Seq::<char>::empty());
        lemma_quoted_string_moves(s, t, d, i, i + 2, e);
    } else if i + 1 < s.len() && starts_ident(s[i + 1]) {
        lemma_ident_end(s, i + 1);
        let n = ident_end(s, i + 1) + 1;
        let close = seq!['$'] + s.subrange(i + 1, n - 1) + seq!['$'];
        assert(close.len() == n - i);
        lemma_close_is_inside(s, n, close);
        assert(s[i + 1] == t[i + 1 + d]);
        assert(s[n - 1] == t[n - 1 + d]);
        lemma_ident_moves(s, t, d, i + 1);
        lemma_quoted_string_moves(s, t, d, i, n, e);
    } else {
        assert(e == i + 1);
        assert(same_at(s, t, d, i + 1));
    }
}

proof fn lemma_kept_token_moves(s: Seq<char>, t: Seq<char>, d: int, i: int, e: int)
    requires
        0 <= i < e,
        token_at(s, i) == (Token::Verbatim { end: e }),
        agree(s, t, d, i, e),
        alike(s, t, d, e),
    ensures
        token_at(t, i + d) == (Token::Verbatim { end: e + d }),
{
    assert(s[i] == t[i + d]);
    if s[i] == '\'' {
        lemma_quote_moves(s, t, d, i + 1, e, '\'');
    } else if s[i] == '"' {
        lemma_quote_moves(s, t, d, i + 1, e, '"');
    } else if pair_at(s, i, '-', '-') {
        lemma_line_end(s, i + 2);
        assert(s[i + 1] == t[i + 1 + d]);
        lemma_line_moves(s, t, d, i + 2);
    } else if pair_at(s, i, '/', '*') {
        lemma_comment_end(s, i + 2, 1);
        assert(s[i + 1] == t[i + 1 + d]);
        lemma_comment_moves(s, t, d, i + 2, 1, e);
    } else if s[i] == '$' {
        lemma_dollar_token_moves(s, t, d, i, e);
    } else {
        assert(e == i + 1);
    }
}

// ── Placeholders are kept ───────────────────────────────────────────────────

proof fn lemma_decimal_digits(n: nat)
    ensures
        decimal_text(n).len() > 0,
        forall|k: int|
            0 <= k < decimal_text(n).len() ==> '0' <= #[trigger] decimal_text(n)[k]
                && decimal_text(n)[k] <= '9',
    decreases n,
{
    if n >= 10 {
        lemma_decimal_digits(n / 10);
    }
}

proof fn lemma_digits_are_kept(t: Seq<char>, q: int, e: int, acc: LexOutputView)
    requires
        0 <= q <= e <= t.len(),
        forall|k: int| q <= k < e ==> '0' <= #[trigger] t[k] && t[k] <= '9',
    ensures
        lex_from(t, q, acc) == lex_from(t, e, with_text(acc, t.subrange(q, e))),
    decreases e - q,
{
    if q == e {
        assert(acc.sql + t.subrange(q, e) =~= acc.sql);
    } else {
        assert('0' <= t[q] && t[q] <= '9');
        let next = with_text(acc, t.subrange(q, q + 1));
        assert(lex_from(t, q, acc) == lex_from(t, q + 1, next));
        lemma_digits_are_kept(t, q + 1, e, next);
        assert(next.sql + t.subrange(q + 1, e) =~= acc.sql + t.subrange(q, e));
    }
}

proof fn lemma_placeholder_is_kept(t: Seq<char>, p: int, k: int, acc: LexOutputView)
    requires
        0 <= p,
        0 <= k,
        p + placeholder(k).len() <= t.len(),
        t.subrange(p, p + placeholder(k).len()) == placeholder(k),
    ensures
        placeholder(k).len() >= 2,
        t[p] == '$',
        lex_from(t, p, acc) == lex_from(
            t,
            p + placeholder(k).len(),
            with_text(acc, placeholder(k)),
        ),
{
    let text = placeholder(k);
    let digits = decimal_text((k + 1) as nat);
    let e = p + text.len();
    lemma_decimal_digits((k + 1) as nat);
    assert forall|m: int| p + 1 <= m < e implies '0' <= #[trigger] t[m] && t[m] <= '9' by {
        assert(t[m] == t.subrange(p, e)[m - p]);
        assert(text[m - p] == digits[m - p - 1]);
    }
    assert(t[p] == t.subrange(p, e)[0]);
    assert(text[0] == '$');
    assert('0' <= t[p + 1] && t[p + 1] <= '9');
    assert(token_at(t, p) == (Token::Verbatim { end: p + 1 }));
    let next = with_text(acc, t.subrange(p, p + 1));
    assert(lex_from(t, p, acc) == lex_from(t, p + 1, next));
    lemma_digits_are_kept(t, p + 1, e, next);
    assert(next.sql + t.subrange(p + 1, e) =~= acc.sql + t.subrange(p, e));
}

// ── The law ─────────────────────────────────────────────────────────────────

proof fn lemma_spreads_stay(s: Seq<char>, i: int, acc: LexOutputView)
    requires
        0 <= i <= s.len(),
    ensures
        lex_from(s, i, acc) matches Ok(o) ==> acc.spreads.len() <= o.spreads.len(),
    decreases s.len() - i,
{
    if i < s.len() {
        lemma_token_advances(s, i);
        match token_at(s, i) {
            Token::Verbatim { end } => {
                lemma_spreads_stay(s, end, with_text(acc, s.subrange(i, end)));
            },
            Token::Named { name, nullable, end } => {
                lemma_spreads_stay(s, end, with_param(acc, name, nullable));
            },
            Token::Spread { name, fields, end } => {
                lemma_spreads_stay(s, end, with_spread(acc, name, fields));
            },
            Token::Unclosed { error } => {},
        }
    }
}

/// Whether the text `t` is kept from `p` on when it is lexed.
spec fn kept_from(t: Seq<char>, p: int, again: LexOutputView) -> bool {
    lex_from(t, p, again) == Ok::<LexOutputView, LexErrorView>(with_text(again, t.skip(p)))
}

proof fn lemma_text_in_front(t: Seq<char>, head: Seq<char>, text: Seq<char>)
    requires
        head.len() + text.len() <= t.len(),
        t.take((head.len() + text.len()) as int) == head + text,
    ensures
        t.take(head.len() as int) == head,
        t.subrange(head.len() as int, (head.len() + text.len()) as int) == text,
        t.skip(head.len() as int) == text + t.skip((head.len() + text.len()) as int),
{
    let p = head.len() as int;
    let q = (head.len() + text.len()) as int;
    let both = t.take(q);
    assert(t.take(p) =~= both.take(p));
    assert(both.take(p) =~= head);
    assert(t.subrange(p, q) =~= both.subrange(p, q));
    assert(both.subrange(p, q) =~= text);
    assert(t.skip(p) =~= t.subrange(p, q) + t.skip(q));
}

proof fn lemma_kept_token_is_kept(
    s: Seq<char>,
    i: int,
    end: int,
    t: Seq<char>,
    head: Seq<char>,
    again: LexOutputView,
)
    requires
        0 <= i < end <= s.len(),
        token_at(s, i) == (Token::Verbatim { end }),
        head.len() + end - i <= t.len(),
        t.take(head.len() + end - i) == head + s.subrange(i, end),
        alike(s, t, head.len() - i, end),
        kept_from(t, head.len() + end - i, with_text(again, s.subrange(i, end))),
    ensures
        t.take(head.len() as int) == head,
        alike(s, t, head.len() - i, i),
        kept_from(t, head.len() as int, again),
{
    let text = s.subrange(i, end);
    let p = head.len() as int;
    let q = p + end - i;
    let d = p - i;
    lemma_text_in_front(t, head, text);
    assert forall|k: int| i <= k < end implies #[trigger] s[k] == t[k + d] by {
        assert(t.subrange(p, q)[k - i] == t[k + d]);
        assert(text[k - i] == s[k]);
    }
    assert(agree(s, t, d, i, end));
    lemma_kept_token_moves(s, t, d, i, end);
    let after = with_text(again, text);
    assert(lex_from(t, p, again) == lex_from(t, q, after));
    assert(after.sql + t.skip(q) =~= again.sql + t.skip(p));
    assert(s[i] == t[i + d]);
    if s[i] == '.' {
        assert(end == i + 1);
    }
}

/// The part of a lexed text that stems from what is behind `i` is kept when it is lexed.
proof fn lemma_lexed_text_is_kept(
    s: Seq<char>,
    i: int,
    acc: LexOutputView,
    o: LexOutputView,
    again: LexOutputView,
)
    requires
        0 <= i <= s.len(),
        lex_from(s, i, acc) == Ok::<LexOutputView, LexErrorView>(o),
        o.spreads.len() == 0,
    ensures
        acc.sql.len() <= o.sql.len(),
        o.sql.take(acc.sql.len() as int) == acc.sql,
        alike(s, o.sql, acc.sql.len() - i, i),
        kept_from(o.sql, acc.sql.len() as int, again),
    decreases s.len() - i,
{
    let t = o.sql;
    let p = acc.sql.len() as int;
    if i == s.len() {
        assert(o == acc);
        assert(t.take(p) =~= acc.sql);
        assert(again.sql + t.skip(p) =~= again.sql);
    } else {
        lemma_token_advances(s, i);
        match token_at(s, i) {
            Token::Verbatim { end } => {
                let text = s.subrange(i, end);
                let next = with_text(acc, text);
                lemma_lexed_text_is_kept(s, end, next, o, with_text(again, text));
                assert(next.sql.len() == p + end - i);
                lemma_kept_token_is_kept(s, i, end, t, acc.sql, again);
            },
            Token::Named { name, nullable, end } => {
                let next = with_param(acc, name, nullable);
                let k = param_position(acc.params, name);
                lemma_position_of_name(acc.params, name);
                let text = placeholder(k);
                let after = with_text(again, text);
                lemma_lexed_text_is_kept(s, end, next, o, after);
                let q = p + text.len();
                assert(next.sql == acc.sql + text);
                lemma_text_in_front(t, acc.sql, text);
                lemma_placeholder_is_kept(t, p, k, again);
                assert(after.sql + t.skip(q) =~= again.sql + t.skip(p));
                assert(s[i] == '$');
            },
            Token::Spread { name, fields, end } => {
                lemma_spreads_stay(s, end, with_spread(acc, name, fields));
            },
            Token::Unclosed { error } => {},
        }
    }
}

/// The text that a template without spreads is rewritten to is a fixed point: lexed once
/// more it comes out as it is, with no parameters and no spreads.
pub proof fn law_lexed_text_is_unchanged(s: Seq<char>)
    ensures
        lex_text(s) matches Ok(o) ==> o.spreads.len() == 0 ==> lex_text(o.sql) == Ok::<
            LexOutputView,
            LexErrorView,
        >(
            LexOutputView {
                sql: o.sql,
                params: Seq::<ParamView>::empty(),
                spreads: Seq::empty(),
            },
        ),
{
    if let Ok(o) = lex_text(s) {
        if o.spreads.len() == 0 {
            lemma_lexed_text_is_kept(s, 0, lex_start(), o, lex_start());
            assert(lex_start().sql + o.sql.skip(0) =~= o.sql);
        }
    }
}

} // verus!

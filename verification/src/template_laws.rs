//! What stands in a template and what it is rewritten to.

use crate::lexer::{
    comment_end, dollar_end, ident_end, lemma_byte_len_concat, lemma_position_of_name, lex_from,
    lex_start, lex_text, line_end, pair_at, placeholder, quoted_end, source_of, source_span,
    space_end, spread_fields, stands_at, token_at, with_param, with_spread, with_text, LexErrorView,
    Token,
};
use crate::param::{
    param_position, LexOutputView, ParamView, SpreadFieldView, SpreadParamView,
};
use crate::text::{byte_len, decimal_text};
use vstd::prelude::*;

verus! {

/// A letter or an underscore.
pub open spec fn letter(c: char) -> bool {
    ('a' <= c && c <= 'z') || ('A' <= c && c <= 'Z') || c == '_'
}

/// A letter, a digit or an underscore.
pub open spec fn word(c: char) -> bool {
    letter(c) || ('0' <= c && c <= '9')
}

/// A space, a tab, a line feed, a form feed or a carriage return.
pub open spec fn blank(c: char) -> bool {
    c == ' ' || c == '\t' || c == '\n' || c == '\x0C' || c == '\r'
}

/// A name: letters, digits and underscores, the first of them no digit.
pub open spec fn is_name(name: Seq<char>) -> bool {
    name.len() > 0 && letter(name[0]) && forall|i: int|
        0 <= i < name.len() ==> word(#[trigger] name[i])
}

/// A text stands at a place.
pub open spec fn reads(s: Seq<char>, i: int, text: Seq<char>) -> bool {
    0 <= i && i + text.len() <= s.len() && forall|k: int|
        0 <= k < text.len() ==> s[i + k] == #[trigger] text[k]
}

/// A place is the end of the text, or a character stands there that is none of a word.
pub open spec fn word_ends(s: Seq<char>, e: int) -> bool {
    e == s.len() || (0 <= e < s.len() && !word(s[e]))
}

proof fn lemma_run(s: Seq<char>, j: int, e: int)
    requires
        0 <= j <= e <= s.len(),
        forall|k: int| j <= k < e ==> word(#[trigger] s[k]),
        word_ends(s, e),
    ensures
        ident_end(s, j) == e,
    decreases e - j,
{
    if j < e {
        assert(word(s[j]));
        lemma_run(s, j + 1, e);
    }
}

proof fn lemma_name_run(s: Seq<char>, j: int, name: Seq<char>)
    requires
        reads(s, j, name),
        is_name(name),
        word_ends(s, j + name.len()),
    ensures
        ident_end(s, j) == j + name.len(),
        s.subrange(j, j + name.len()) == name,
        letter(s[j]),
{
    let e = j + name.len();
    assert forall|k: int| j <= k < e implies word(#[trigger] s[k]) by {
        assert(word(name[k - j]));
        assert(s[j + (k - j)] == name[k - j]);
    }
    assert(s[j + 0] == name[0]);
    lemma_run(s, j, e);
    assert(s.subrange(j, e) =~= name) by {
        assert forall|k: int| 0 <= k < name.len() implies s.subrange(j, e)[k] == name[k] by {
            assert(s[j + k] == name[k]);
        }
    }
}

// ── Tokens ──────────────────────────────────────────────────────────────────

/// In ordinary SQL a dollar sign and the whole run of letters, digits and underscores
/// behind it are one parameter, which has that run for its name. A `?` or `!` behind it
/// says whether it may be null.
pub proof fn law_parameter_has_the_whole_run(s: Seq<char>, i: int, name: Seq<char>)
    requires
        is_name(name),
        reads(s, i, seq!['$'] + name),
        word_ends(s, i + 1 + name.len()),
        i + 1 + name.len() < s.len() ==> s[i + 1 + name.len()] != '$',
    ensures
        ({
            let e = i + 1 + name.len();
            token_at(s, i) == if e < s.len() && s[e] == '?' {
                Token::Named { name, nullable: Some(true), end: e + 1 }
            } else if e < s.len() && s[e] == '!' {
                Token::Named { name, nullable: Some(false), end: e + 1 }
            } else {
                Token::Named { name, nullable: None, end: e }
            }
        }),
{
    let text = seq!['$'] + name;
    assert(s[i + 0] == text[0]);
    assert(reads(s, i + 1, name)) by {
        assert forall|k: int| 0 <= k < name.len() implies s[i + 1 + k] == #[trigger] name[k] by {
            assert(s[i + (k + 1)] == text[k + 1]);
        }
    }
    lemma_name_run(s, i + 1, name);
}

/// A text with each of its quotes written twice.
pub open spec fn doubled(text: Seq<char>, quote: char) -> Seq<char>
    decreases text.len(),
{
    if text.len() == 0 {
        Seq::empty()
    } else if text[0] == quote {
        seq![quote, quote] + doubled(text.drop_first(), quote)
    } else {
        seq![text[0]] + doubled(text.drop_first(), quote)
    }
}

proof fn lemma_quoted(s: Seq<char>, j: int, text: Seq<char>, quote: char)
    requires
        reads(s, j, doubled(text, quote) + seq![quote]),
        j + doubled(text, quote).len() + 1 < s.len() ==> s[j + doubled(text, quote).len() + 1]
            != quote,
    ensures
        quoted_end(s, j, quote) == Some(j + doubled(text, quote).len() + 1),
    decreases text.len(),
{
    let inside = doubled(text, quote);
    let all = inside + seq![quote];
    assert(s[j + 0] == all[0]);
    if text.len() > 0 {
        let rest = doubled(text.drop_first(), quote);
        let n: int = if text[0] == quote {
            2
        } else {
            1
        };
        assert(inside.len() == n + rest.len());
        assert(reads(s, j + n, rest + seq![quote])) by {
            assert forall|k: int| 0 <= k < (rest + seq![quote]).len() implies s[j + n + k]
                == #[trigger] (rest + seq![quote])[k] by {
                assert(s[j + (n + k)] == all[n + k]);
            }
        }
        if text[0] == quote {
            assert(s[j + 1] == all[1]);
        }
        lemma_quoted(s, j + n, text.drop_first(), quote);
    }
}

/// A string literal or a quoted identifier is kept as it stands, up to the quote that
/// closes it; a quote that is written twice is inside.
pub proof fn law_quoted_text_is_kept(s: Seq<char>, i: int, text: Seq<char>, quote: char)
    requires
        quote == '\'' || quote == '"',
        reads(s, i, seq![quote] + doubled(text, quote) + seq![quote]),
        i + doubled(text, quote).len() + 2 < s.len() ==> s[i + doubled(text, quote).len() + 2]
            != quote,
    ensures
        token_at(s, i) == (Token::Verbatim { end: i + doubled(text, quote).len() + 2 }),
{
    let inside = doubled(text, quote);
    let all = seq![quote] + inside + seq![quote];
    assert(s[i + 0] == all[0]);
    assert(reads(s, i + 1, inside + seq![quote])) by {
        assert forall|k: int| 0 <= k < (inside + seq![quote]).len() implies s[i + 1 + k]
            == #[trigger] (inside + seq![quote])[k] by {
            assert(s[i + (k + 1)] == all[k + 1]);
        }
    }
    lemma_quoted(s, i + 1, text, quote);
}

proof fn lemma_never_quoted(s: Seq<char>, j: int, quote: char)
    requires
        0 <= j,
        forall|k: int| j <= k < s.len() ==> #[trigger] s[k] != quote,
    ensures
        quoted_end(s, j, quote) is None,
    decreases s.len() - j,
{
    if j < s.len() {
        assert(s[j] != quote);
        lemma_never_quoted(s, j + 1, quote);
    }
}

/// A quote that nothing closes is an error at its place.
pub proof fn law_unclosed_quote_is_an_error(s: Seq<char>, i: int)
    requires
        0 <= i < s.len(),
        s[i] == '\'' || s[i] == '"',
        forall|k: int| i < k < s.len() ==> #[trigger] s[k] != s[i],
    ensures
        token_at(s, i) == (Token::Unclosed {
            error: if s[i] == '\'' {
                LexErrorView::UnclosedString { position: byte_len(s.take(i)) }
            } else {
                LexErrorView::UnclosedQuotedIdentifier { position: byte_len(s.take(i)) }
            },
        }),
{
    lemma_never_quoted(s, i + 1, s[i]);
}

proof fn lemma_line(s: Seq<char>, j: int, e: int)
    requires
        0 <= j <= e <= s.len(),
        forall|k: int| j <= k < e ==> #[trigger] s[k] != '\n',
        e < s.len() ==> s[e] == '\n',
    ensures
        line_end(s, j) == if e < s.len() {
            e + 1
        } else {
            e
        },
    decreases e - j,
{
    if j < e {
        assert(s[j] != '\n');
        lemma_line(s, j + 1, e);
    }
}

/// A comment from `--` to the end of its line is kept.
pub proof fn law_line_comment_is_kept(s: Seq<char>, i: int, e: int)
    requires
        0 <= i,
        i + 2 <= e <= s.len(),
        s[i] == '-',
        s[i + 1] == '-',
        forall|k: int| i + 2 <= k < e ==> #[trigger] s[k] != '\n',
        e < s.len() ==> s[e] == '\n',
    ensures
        token_at(s, i) == (Token::Verbatim {
            end: if e < s.len() {
                e + 1
            } else {
                e
            },
        }),
{
    lemma_line(s, i + 2, e);
}

proof fn lemma_comment(s: Seq<char>, j: int, e: int, depth: nat)
    requires
        0 <= j <= e,
        e + 2 <= s.len(),
        s[e] == '*',
        s[e + 1] == '/',
        forall|k: int|
            j <= k < e ==> !(#[trigger] s[k] == '*' && s[k + 1] == '/') && !(s[k] == '/' && s[k + 1]
                == '*'),
        depth >= 1,
    ensures
        comment_end(s, j, depth) == if depth <= 1 {
            Some(e + 2)
        } else {
            comment_end(s, e + 2, (depth - 1) as nat)
        },
    decreases e - j,
{
    if j < e {
        assert(s[j] == s[j]);
        lemma_comment(s, j + 1, e, depth);
    }
}

/// A comment from `/*` to `*/`, with neither of the two inside, is kept.
pub proof fn law_block_comment_is_kept(s: Seq<char>, i: int, e: int)
    requires
        0 <= i,
        i + 2 <= e,
        e + 2 <= s.len(),
        s[i] == '/',
        s[i + 1] == '*',
        s[e] == '*',
        s[e + 1] == '/',
        forall|k: int|
            i + 2 <= k < e ==> !(#[trigger] s[k] == '*' && s[k + 1] == '/') && !(s[k] == '/'
                && s[k + 1] == '*'),
    ensures
        token_at(s, i) == (Token::Verbatim { end: e + 2 }),
{
    lemma_comment(s, i + 2, e, 1);
}

proof fn lemma_comment_inside(s: Seq<char>, j: int, depth: nat, more: nat, e: int)
    requires
        comment_end(s, j, depth) == Some(e),
        depth >= 1,
        more >= 1,
    ensures
        comment_end(s, j, depth + more) == comment_end(s, e, more),
    decreases s.len() - j,
{
    if pair_at(s, j, '/', '*') {
        lemma_comment_inside(s, j + 2, depth + 1, more, e);
    } else if pair_at(s, j, '*', '/') {
        if depth > 1 {
            lemma_comment_inside(s, j + 2, (depth - 1) as nat, more, e);
        }
    } else {
        lemma_comment_inside(s, j + 1, depth, more, e);
    }
}

/// Comments nest: a comment that stands inside another, with neither `/*` nor `*/` between
/// its borders and those of the other, does not end the other.
pub proof fn law_comments_nest(s: Seq<char>, i: int, m: int, n: int, e: int)
    requires
        0 <= i,
        i + 2 <= m < n <= e,
        e + 2 <= s.len(),
        s[i] == '/',
        s[i + 1] == '*',
        s[m] == '/',
        s[m + 1] == '*',
        token_at(s, m) == (Token::Verbatim { end: n }),
        s[e] == '*',
        s[e + 1] == '/',
        forall|k: int|
            i + 2 <= k < m || n <= k < e ==> !(#[trigger] s[k] == '*' && s[k + 1] == '/') && !(s[k]
                == '/' && s[k + 1] == '*'),
    ensures
        token_at(s, i) == (Token::Verbatim { end: e + 2 }),
{
    lemma_comment(s, n, e, 1);
    assert(comment_end(s, m + 2, 1) == Some(n));
    lemma_comment_inside(s, m + 2, 1, 1, n);
    lemma_comment_to(s, i + 2, m, 1);
}

proof fn lemma_comment_to(s: Seq<char>, j: int, m: int, depth: nat)
    requires
        0 <= j <= m,
        m + 2 <= s.len(),
        s[m] == '/',
        s[m + 1] == '*',
        forall|k: int|
            j <= k < m ==> !(#[trigger] s[k] == '*' && s[k + 1] == '/') && !(s[k] == '/' && s[k + 1]
                == '*'),
    ensures
        comment_end(s, j, depth) == comment_end(s, m + 2, depth + 1),
    decreases m - j,
{
    if j < m {
        assert(s[j] == s[j]);
        lemma_comment_to(s, j + 1, m, depth);
    }
}

proof fn lemma_stands(s: Seq<char>, j: int, text: Seq<char>)
    ensures
        stands_at(s, j, text) <==> reads(s, j, text),
{
    if 0 <= j && j + text.len() <= s.len() {
        let here = s.subrange(j, j + text.len());
        if here == text {
            assert forall|k: int| 0 <= k < text.len() implies s[j + k] == #[trigger] text[k] by {
                assert(here[k] == s[j + k]);
            }
        }
        if reads(s, j, text) {
            assert(here =~= text) by {
                assert forall|k: int| 0 <= k < text.len() implies here[k] == text[k] by {
                    assert(s[j + k] == text[k]);
                }
            }
        }
    }
}

proof fn lemma_dollar(s: Seq<char>, j: int, e: int, close: Seq<char>)
    requires
        0 <= j <= e,
        close.len() > 0,
        reads(s, e, close),
        forall|k: int| j <= k < e ==> !#[trigger] reads(s, k, close),
    ensures
        dollar_end(s, j, close) == Some(e + close.len()),
    decreases e - j,
{
    lemma_stands(s, j, close);
    if j < e {
        assert(!reads(s, j, close));
        lemma_dollar(s, j + 1, e, close);
    }
}

/// A dollar-quoted string is kept from `$tag$` to the next `$tag$`.
pub proof fn law_dollar_quoted_text_is_kept(s: Seq<char>, i: int, tag: Seq<char>, e: int)
    requires
        tag.len() == 0 || is_name(tag),
        reads(s, i, seq!['$'] + tag + seq!['$']),
        i + tag.len() + 2 <= e,
        reads(s, e, seq!['$'] + tag + seq!['$']),
        forall|k: int|
            i + tag.len() + 2 <= k < e ==> !#[trigger] reads(s, k, seq!['$'] + tag + seq!['$']),
    ensures
        token_at(s, i) == (Token::Verbatim { end: e + tag.len() + 2 }),
{
    let close = seq!['$'] + tag + seq!['$'];
    let n = tag.len() as int;
    assert(s[i + 0] == close[0]);
    assert(s[i + (n + 1)] == close[n + 1]);
    lemma_dollar(s, i + n + 2, e, close);
    if n == 0 {
        assert(tag =~= Seq::empty());
        assert(!pair_at(s, i + 1, '.', '.'));
    } else {
        assert(reads(s, i + 1, tag)) by {
            assert forall|k: int| 0 <= k < tag.len() implies s[i + 1 + k] == #[trigger] tag[k] by {
                assert(s[i + (k + 1)] == close[k + 1]);
            }
        }
        lemma_name_run(s, i + 1, tag);
    }
}

/// Every other character of ordinary SQL is kept by itself, and so is a dollar sign before
/// anything but a name, a second dollar sign or two dots.
pub proof fn law_other_characters_are_kept(s: Seq<char>, i: int)
    requires
        0 <= i < s.len(),
        s[i] != '\'',
        s[i] != '"',
        i + 1 < s.len() ==> !(s[i] == '-' && s[i + 1] == '-') && !(s[i] == '/' && s[i + 1] == '*'),
        s[i] == '$' && i + 1 < s.len() ==> !letter(s[i + 1]) && s[i + 1] != '$' && s[i + 1] != '.',
    ensures
        token_at(s, i) == (Token::Verbatim { end: i + 1 }),
{
}

proof fn lemma_blanks(s: Seq<char>, j: int, e: int)
    requires
        0 <= j <= e <= s.len(),
        forall|k: int| j <= k < e ==> blank(#[trigger] s[k]),
        e < s.len() ==> !blank(s[e]),
    ensures
        space_end(s, j) == e,
    decreases e - j,
{
    if j < e {
        assert(blank(s[j]));
        lemma_blanks(s, j + 1, e);
    }
}

/// `$..` and a name are a spread of that name. It has fields just where a brace follows,
/// which blanks may stand before.
pub proof fn law_spread_has_the_whole_run(s: Seq<char>, i: int, name: Seq<char>, b: int)
    requires
        is_name(name),
        reads(s, i, seq!['$', '.', '.'] + name),
        word_ends(s, i + 3 + name.len()),
        i + 3 + name.len() <= b <= s.len(),
        forall|k: int| i + 3 + name.len() <= k < b ==> blank(#[trigger] s[k]),
        b < s.len() ==> !blank(s[b]),
    ensures
        token_at(s, i) == if b < s.len() && s[b] == '{' {
            Token::Spread {
                name,
                fields: Some(spread_fields(s, b + 1, Seq::empty()).0),
                end: spread_fields(s, b + 1, Seq::empty()).1,
            }
        } else {
            Token::Spread { name, fields: None, end: i + 3 + name.len() }
        },
{
    let text = seq!['$', '.', '.'] + name;
    assert(s[i + 0] == text[0]);
    assert(s[i + 1] == text[1]);
    assert(s[i + 2] == text[2]);
    assert(reads(s, i + 3, name)) by {
        assert forall|k: int| 0 <= k < name.len() implies s[i + 3 + k] == #[trigger] name[k] by {
            assert(s[i + (k + 3)] == text[k + 3]);
        }
    }
    lemma_name_run(s, i + 3, name);
    lemma_blanks(s, i + 3 + name.len(), b);
}

/// Behind blanks, a name in the braces of a spread is a field, nullable just where a `?`
/// follows it; further fields follow behind blanks and a comma. The closing brace ends
/// the fields.
pub proof fn law_spread_fields_are_named_in_turn(
    s: Seq<char>,
    j: int,
    k: int,
    name: Seq<char>,
    c: int,
    seen: Seq<SpreadFieldView>,
)
    requires
        0 <= j <= k < s.len(),
        forall|m: int| j <= m < k ==> blank(#[trigger] s[m]),
        is_name(name),
        reads(s, k, name),
        word_ends(s, k + name.len()),
        ({
            let e = k + name.len();
            let after = if e < s.len() && s[e] == '?' {
                e + 1
            } else {
                e
            };
            after <= c < s.len() && (forall|m: int| after <= m < c ==> blank(#[trigger] s[m]))
        }),
        s[c] == ',' || s[c] == '}',
    ensures
        ({
            let e = k + name.len();
            let field = SpreadFieldView { name, nullable: e < s.len() && s[e] == '?' };
            spread_fields(s, j, seen) == if s[c] == ',' {
                spread_fields(s, c + 1, seen.push(field))
            } else {
                (seen.push(field), c + 1)
            }
        }),
{
    lemma_name_run(s, k, name);
    assert(letter(s[k]));
    lemma_blanks(s, j, k);
    let e = k + name.len();
    let after = if e < s.len() && s[e] == '?' {
        e + 1
    } else {
        e
    };
    lemma_blanks(s, after, c);
    let field = SpreadFieldView { name, nullable: e < s.len() && s[e] == '?' };
    if s[c] == '}' {
        lemma_blanks(s, c, c);
        assert(spread_fields(s, j, seen) == spread_fields(s, c, seen.push(field)));
        assert(spread_fields(s, c, seen.push(field)) == (seen.push(field), c + 1));
    }
}

// ── The output ──────────────────────────────────────────────────────────────

/// A template, cut into its tokens.
pub open spec fn cut(s: Seq<char>, cuts: Seq<int>, tokens: Seq<Token>) -> bool {
    &&& cuts.len() == tokens.len() + 1
    &&& cuts[0] == 0
    &&& cuts[tokens.len() as int] == s.len()
    &&& forall|k: int|
        0 <= k < tokens.len() ==> 0 <= cuts[k] < cuts[k + 1] <= s.len() && token_at(s, cuts[k])
            == #[trigger] tokens[k] && match tokens[k] {
            Token::Verbatim { end } => end == cuts[k + 1],
            Token::Named { end, .. } => end == cuts[k + 1],
            Token::Spread { end, .. } => end == cuts[k + 1],
            Token::Unclosed { .. } => false,
        }
}

/// What the first `n` tokens are rewritten to, where the parameter at `k` is the one at
/// position `places[k]`: text that is kept stays, a parameter becomes its placeholder, and
/// a spread leaves nothing.
pub open spec fn rewritten(
    s: Seq<char>,
    cuts: Seq<int>,
    tokens: Seq<Token>,
    places: Seq<int>,
    n: int,
) -> Seq<char>
    decreases n,
{
    if n <= 0 {
        Seq::empty()
    } else {
        rewritten(s, cuts, tokens, places, n - 1) + match tokens[n - 1] {
            Token::Verbatim { .. } => s.subrange(cuts[n - 1], cuts[n]),
            Token::Named { .. } => seq!['$'] + decimal_text((places[n - 1] + 1) as nat),
            _ => Seq::empty(),
        }
    }
}

/// The offsets in the rewritten text behind the placeholders of the parameter at position
/// `p`, among the first `n` tokens.
pub open spec fn offsets(
    s: Seq<char>,
    cuts: Seq<int>,
    tokens: Seq<Token>,
    places: Seq<int>,
    p: int,
    n: int,
) -> Seq<nat>
    decreases n,
{
    if n <= 0 {
        Seq::empty()
    } else if tokens[n - 1] is Named && places[n - 1] == p {
        offsets(s, cuts, tokens, places, p, n - 1).push(
            byte_len(rewritten(s, cuts, tokens, places, n)),
        )
    } else {
        offsets(s, cuts, tokens, places, p, n - 1)
    }
}

/// The spreads among the first `n` tokens, each with its offset in the rewritten text.
pub open spec fn spreads(
    s: Seq<char>,
    cuts: Seq<int>,
    tokens: Seq<Token>,
    places: Seq<int>,
    n: int,
) -> Seq<SpreadParamView>
    decreases n,
{
    if n <= 0 {
        Seq::empty()
    } else {
        let before = spreads(s, cuts, tokens, places, n - 1);
        match tokens[n - 1] {
            Token::Spread { name, fields, .. } => before.push(
                SpreadParamView {
                    name,
                    fields,
                    offset: byte_len(rewritten(s, cuts, tokens, places, n - 1)),
                },
            ),
            _ => before,
        }
    }
}

/// The parameter at a position is that of one of the first `n` tokens.
pub open spec fn occurs(tokens: Seq<Token>, places: Seq<int>, p: int, n: int) -> bool {
    exists|k: int| 0 <= k < n && #[trigger] tokens[k] is Named && places[k] == p
}

/// Parameters are numbered by their names in the order in which the names first occur
/// among the first `n` tokens: a name that occurred keeps its position, and a new one gets
/// a position behind those of all others. Each position belongs to some token.
pub open spec fn numbered(
    tokens: Seq<Token>,
    places: Seq<int>,
    params: Seq<ParamView>,
    n: int,
) -> bool {
    &&& forall|k: int|
        0 <= k < n && #[trigger] tokens[k] is Named ==> 0 <= places[k] < params.len()
            && params[places[k]].name == tokens[k]->Named_name
    &&& forall|k: int, m: int|
        0 <= m < k < n && #[trigger] tokens[m] is Named && #[trigger] tokens[k] is Named ==> (
        places[m] == places[k] <==> tokens[m]->Named_name == tokens[k]->Named_name)
    &&& forall|k: int|
        0 <= k < n && #[trigger] tokens[k] is Named && (forall|m: int|
            0 <= m < k && #[trigger] tokens[m] is Named ==> tokens[m]->Named_name
                != tokens[k]->Named_name) ==> params[places[k]].nullable
            == tokens[k]->Named_nullable && forall|m: int|
            0 <= m < k && #[trigger] tokens[m] is Named ==> places[m] < places[k]
    &&& forall|p: int| 0 <= p < params.len() ==> #[trigger] occurs(tokens, places, p, n)
}

spec fn run(s: Seq<char>, cuts: Seq<int>, tokens: Seq<Token>, n: int) -> LexOutputView
    decreases n,
{
    if n <= 0 {
        lex_start()
    } else {
        let acc = run(s, cuts, tokens, n - 1);
        match tokens[n - 1] {
            Token::Verbatim { .. } => with_text(acc, s.subrange(cuts[n - 1], cuts[n])),
            Token::Named { name, nullable, .. } => with_param(acc, name, nullable),
            Token::Spread { name, fields, .. } => with_spread(acc, name, fields),
            Token::Unclosed { .. } => acc,
        }
    }
}

proof fn lemma_run_reaches(s: Seq<char>, cuts: Seq<int>, tokens: Seq<Token>, n: int)
    requires
        cut(s, cuts, tokens),
        0 <= n <= tokens.len(),
    ensures
        lex_text(s) == lex_from(s, cuts[n], run(s, cuts, tokens, n)),
    decreases n,
{
    if n > 0 {
        lemma_run_reaches(s, cuts, tokens, n - 1);
        assert(token_at(s, cuts[n - 1]) == tokens[n - 1]);
    }
}

/// The position of the parameter at each token, none where there is no parameter.
spec fn places_of(s: Seq<char>, cuts: Seq<int>, tokens: Seq<Token>) -> Seq<int> {
    Seq::new(
        tokens.len(),
        |k: int|
            match tokens[k] {
                Token::Named { name, .. } => param_position(run(s, cuts, tokens, k).params, name),
                _ => -1,
            },
    )
}

proof fn lemma_run_text(s: Seq<char>, cuts: Seq<int>, tokens: Seq<Token>, n: int)
    requires
        cut(s, cuts, tokens),
        0 <= n <= tokens.len(),
    ensures
        run(s, cuts, tokens, n).sql == rewritten(s, cuts, tokens, places_of(s, cuts, tokens), n),
        run(s, cuts, tokens, n).spreads == spreads(
            s,
            cuts,
            tokens,
            places_of(s, cuts, tokens),
            n,
        ),
    decreases n,
{
    if n > 0 {
        lemma_run_text(s, cuts, tokens, n - 1);
        let before = run(s, cuts, tokens, n - 1);
        assert(token_at(s, cuts[n - 1]) == tokens[n - 1]);
        match tokens[n - 1] {
            Token::Named { name, nullable, end } => {
                assert(places_of(s, cuts, tokens)[n - 1] == param_position(before.params, name));
            },
            Token::Spread { name, fields, end } => {
                assert(before.sql + Seq::empty() =~= before.sql);
            },
            _ => {},
        }
    }
}

proof fn lemma_run_numbers(s: Seq<char>, cuts: Seq<int>, tokens: Seq<Token>, n: int)
    requires
        cut(s, cuts, tokens),
        0 <= n <= tokens.len(),
    ensures
        numbered(tokens, places_of(s, cuts, tokens), run(s, cuts, tokens, n).params, n),
    decreases n,
{
    let places = places_of(s, cuts, tokens);
    if n > 0 {
        lemma_run_numbers(s, cuts, tokens, n - 1);
        let before = run(s, cuts, tokens, n - 1);
        let r = run(s, cuts, tokens, n);
        if tokens[n - 1] is Named {
            let name = tokens[n - 1]->Named_name;
            lemma_position_of_name(before.params, name);
            assert(places[n - 1] == param_position(before.params, name));
            lemma_numbered_on(tokens, places, before.params, r.params, n);
        } else {
            assert(token_at(s, cuts[n - 1]) == tokens[n - 1]);
            assert(r.params == before.params);
            assert forall|p: int| 0 <= p < r.params.len() implies #[trigger] occurs(
                tokens,
                places,
                p,
                n,
            ) by {
                assert(occurs(tokens, places, p, n - 1));
                let k = choose|k: int|
                    0 <= k < n - 1 && #[trigger] tokens[k] is Named && places[k] == p;
                assert(tokens[k] is Named && places[k] == p);
            }
        }
    }
}

proof fn lemma_run_offsets(s: Seq<char>, cuts: Seq<int>, tokens: Seq<Token>, n: int, p: int)
    requires
        cut(s, cuts, tokens),
        0 <= n <= tokens.len(),
        0 <= p,
    ensures
        ({
            let r = run(s, cuts, tokens, n);
            let all = offsets(s, cuts, tokens, places_of(s, cuts, tokens), p, n);
            if p < r.params.len() {
                r.params[p].sql_offsets == all
            } else {
                all.len() == 0
            }
        }),
    decreases n,
{
    let places = places_of(s, cuts, tokens);
    if n > 0 {
        lemma_run_offsets(s, cuts, tokens, n - 1, p);
        lemma_run_text(s, cuts, tokens, n);
        let before = run(s, cuts, tokens, n - 1);
        let earlier = offsets(s, cuts, tokens, places, p, n - 1);
        assert(token_at(s, cuts[n - 1]) == tokens[n - 1]);
        if let Token::Named { name, nullable, end } = tokens[n - 1] {
            lemma_position_of_name(before.params, name);
            assert(places[n - 1] == param_position(before.params, name));
            if p >= before.params.len() {
                assert(earlier =~= Seq::empty());
            }
        }
    }
}

proof fn lemma_numbered_on(
    tokens: Seq<Token>,
    places: Seq<int>,
    before: Seq<ParamView>,
    params: Seq<ParamView>,
    n: int,
)
    requires
        0 < n <= tokens.len(),
        places.len() == tokens.len(),
        numbered(tokens, places, before, n - 1),
        tokens[n - 1] is Named,
        0 <= places[n - 1] <= before.len(),
        places[n - 1] < before.len() ==> before[places[n - 1]].name == tokens[n - 1]->Named_name,
        forall|j: int|
            0 <= j < places[n - 1] ==> (#[trigger] before[j]).name != tokens[n - 1]->Named_name,
        params.len() == if places[n - 1] < before.len() {
            before.len()
        } else {
            before.len() + 1
        },
        forall|p: int|
            0 <= p < before.len() ==> (#[trigger] params[p]).name == before[p].name
                && params[p].nullable == before[p].nullable,
        places[n - 1] == before.len() ==> params[places[n - 1]].name == tokens[n - 1]->Named_name
            && params[places[n - 1]].nullable == tokens[n - 1]->Named_nullable,
    ensures
        numbered(tokens, places, params, n),
{
    let q = places[n - 1];
    let name = tokens[n - 1]->Named_name;
    assert forall|k: int| 0 <= k < n && #[trigger] tokens[k] is Named implies 0 <= places[k]
        < params.len() && params[places[k]].name == tokens[k]->Named_name by {
        if k < n - 1 {
            assert(before[places[k]].name == tokens[k]->Named_name);
        }
    }
    assert forall|k: int, m: int|
        0 <= m < k < n && #[trigger] tokens[m] is Named && #[trigger] tokens[k] is Named implies (
    places[m] == places[k] <==> tokens[m]->Named_name == tokens[k]->Named_name) by {
        if k == n - 1 {
            assert(before[places[m]].name == tokens[m]->Named_name);
            if tokens[m]->Named_name == name {
                assert(places[m] >= q);
                if q == before.len() {
                    assert(before[places[m]].name != name);
                }
                if q < places[m] {
                    lemma_one_place(tokens, places, before, n - 1, q, places[m]);
                }
            }
        }
    }
    assert forall|k: int|
        0 <= k < n && #[trigger] tokens[k] is Named && (forall|m: int|
            0 <= m < k && #[trigger] tokens[m] is Named ==> tokens[m]->Named_name
                != tokens[k]->Named_name) implies params[places[k]].nullable
        == tokens[k]->Named_nullable && forall|m: int|
        0 <= m < k && #[trigger] tokens[m] is Named ==> places[m] < places[k] by {
        if k == n - 1 {
            if q < before.len() {
                assert(occurs(tokens, places, q, n - 1));
                let m = choose|m: int|
                    0 <= m < n - 1 && #[trigger] tokens[m] is Named && places[m] == q;
                assert(tokens[m]->Named_name == before[q].name);
            }
        }
    }
    assert forall|p: int| 0 <= p < params.len() implies #[trigger] occurs(
        tokens,
        places,
        p,
        n,
    ) by {
        if p < before.len() {
            assert(occurs(tokens, places, p, n - 1));
            let k = choose|k: int|
                0 <= k < n - 1 && #[trigger] tokens[k] is Named && places[k] == p;
            assert(tokens[k] is Named && places[k] == p);
        } else {
            assert(tokens[n - 1] is Named && places[n - 1] == p);
        }
    }
}

/// Two positions have two names.
proof fn lemma_one_place(
    tokens: Seq<Token>,
    places: Seq<int>,
    params: Seq<ParamView>,
    n: int,
    p: int,
    q: int,
)
    requires
        0 <= n <= tokens.len(),
        numbered(tokens, places, params, n),
        0 <= p < q < params.len(),
    ensures
        params[p].name != params[q].name,
{
    assert(occurs(tokens, places, p, n));
    assert(occurs(tokens, places, q, n));
    let k = choose|k: int| 0 <= k < n && #[trigger] tokens[k] is Named && places[k] == p;
    let m = choose|m: int|
        0 <= m < n && #[trigger] tokens[m] is Named && places[m] == q;
    assert(params[places[k]].name == tokens[k]->Named_name);
    assert(params[places[m]].name == tokens[m]->Named_name);
    if k < m {
        assert(places[k] == places[m] <==> tokens[k]->Named_name == tokens[m]->Named_name);
    } else {
        assert(places[m] == places[k] <==> tokens[m]->Named_name == tokens[k]->Named_name);
    }
}

/// A template that can be cut into its tokens is rewritten token by token: text that is kept
/// stays as it is, each parameter becomes `$` and its number, and spreads leave no text.
/// The parameters are numbered in the order in which their names first occur, and each has
/// the offsets behind all its placeholders.
pub proof fn law_template_is_rewritten_token_by_token(
    s: Seq<char>,
    cuts: Seq<int>,
    tokens: Seq<Token>,
) -> (places: Seq<int>)
    requires
        cut(s, cuts, tokens),
    ensures
        places.len() == tokens.len(),
        lex_text(s) matches Ok(o) && o.sql == rewritten(
            s,
            cuts,
            tokens,
            places,
            tokens.len() as int,
        ) && o.spreads == spreads(s, cuts, tokens, places, tokens.len() as int) && numbered(
            tokens,
            places,
            o.params,
            tokens.len() as int,
        ) && (forall|p: int|
            0 <= p < o.params.len() ==> (#[trigger] o.params[p]).sql_offsets == offsets(
                s,
                cuts,
                tokens,
                places,
                p,
                tokens.len() as int,
            )),
{
    let n = tokens.len() as int;
    lemma_run_reaches(s, cuts, tokens, n);
    lemma_run_text(s, cuts, tokens, n);
    lemma_run_numbers(s, cuts, tokens, n);
    let o = run(s, cuts, tokens, n);
    assert forall|p: int| 0 <= p < o.params.len() implies (#[trigger] o.params[p]).sql_offsets
        == offsets(s, cuts, tokens, places_of(s, cuts, tokens), p, n) by {
        lemma_run_offsets(s, cuts, tokens, n, p);
    }
    places_of(s, cuts, tokens)
}

// ── Back to the template ────────────────────────────────────────────────────

proof fn lemma_source_reaches(
    s: Seq<char>,
    cuts: Seq<int>,
    tokens: Seq<Token>,
    n: int,
    at: nat,
)
    requires
        cut(s, cuts, tokens),
        0 <= n <= tokens.len(),
        byte_len(run(s, cuts, tokens, n).sql) <= at,
    ensures
        source_of(s, 0, lex_start(), at) == source_of(s, cuts[n], run(s, cuts, tokens, n), at),
    decreases n,
{
    if n > 0 {
        let acc = run(s, cuts, tokens, n - 1);
        assert(token_at(s, cuts[n - 1]) == tokens[n - 1]);
        match tokens[n - 1] {
            Token::Verbatim { end } => {
                lemma_byte_len_concat(acc.sql, s.subrange(cuts[n - 1], cuts[n]));
            },
            Token::Named { name, nullable, end } => {
                lemma_byte_len_concat(
                    acc.sql,
                    placeholder(param_position(acc.params, name)),
                );
            },
            _ => {},
        }
        lemma_source_reaches(s, cuts, tokens, n - 1, at);
    }
}

/// A byte of the rewritten text that was kept stems from just that byte of the template, and
/// a byte of a placeholder from the whole parameter that stood there.
pub proof fn law_bytes_stem_from_their_token(
    s: Seq<char>,
    cuts: Seq<int>,
    tokens: Seq<Token>,
    k: int,
    at: nat,
) -> (places: Seq<int>)
    requires
        cut(s, cuts, tokens),
        0 <= k < tokens.len(),
    ensures
        lex_text(s) matches Ok(o) && o.sql == rewritten(
            s,
            cuts,
            tokens,
            places,
            tokens.len() as int,
        ),
        ({
            let before = byte_len(rewritten(s, cuts, tokens, places, k));
            let behind = byte_len(rewritten(s, cuts, tokens, places, k + 1));
            before <= at < behind ==> source_span(s, at, at + 1) == match tokens[k] {
                Token::Verbatim { .. } => {
                    let source = (byte_len(s.take(cuts[k])) + at - before) as nat;
                    (source, source + 1)
                },
                _ => (byte_len(s.take(cuts[k])), byte_len(s.take(cuts[k + 1]))),
            }
        }),
{
    let places = law_template_is_rewritten_token_by_token(s, cuts, tokens);
    let own = places_of(s, cuts, tokens);
    lemma_run_reaches(s, cuts, tokens, tokens.len() as int);
    lemma_run_text(s, cuts, tokens, tokens.len() as int);
    lemma_run_text(s, cuts, tokens, k);
    lemma_run_text(s, cuts, tokens, k + 1);
    assert(token_at(s, cuts[k]) == tokens[k]);
    if byte_len(rewritten(s, cuts, tokens, own, k)) <= at < byte_len(
        rewritten(s, cuts, tokens, own, k + 1),
    ) {
        lemma_source_reaches(s, cuts, tokens, k, at);
        let acc = run(s, cuts, tokens, k);
        if let Token::Spread { name, fields, end } = tokens[k] {
            assert(run(s, cuts, tokens, k + 1).sql == acc.sql);
        }
    }
    own
}

/// What is behind the rewritten text is taken to be behind the template.
pub proof fn law_bytes_behind_are_behind(
    s: Seq<char>,
    cuts: Seq<int>,
    tokens: Seq<Token>,
    at: nat,
)
    requires
        cut(s, cuts, tokens),
    ensures
        lex_text(s) matches Ok(o) && (at >= byte_len(o.sql) ==> source_span(s, at, at + 1) == (
            byte_len(s),
            byte_len(s),
        )),
{
    let n = tokens.len() as int;
    lemma_run_reaches(s, cuts, tokens, n);
    if at >= byte_len(run(s, cuts, tokens, n).sql) {
        lemma_source_reaches(s, cuts, tokens, n, at);
    }
}

/// A span of the rewritten text stems from the bytes from where its first byte stems from up
/// to where its last byte stems from; an empty one from an empty place.
pub proof fn law_spans_stem_from_their_ends(s: Seq<char>, start: nat, end: nat)
    ensures
        source_span(s, start, end).0 == source_span(s, start, start + 1).0,
        end > start ==> source_span(s, start, end).1 == source_span(s, (end - 1) as nat, end).1,
        end <= start ==> source_span(s, start, end).1 == source_span(s, start, end).0,
{
}

} // verus!

//! Diagnostics as text: the message, the lines of the query that it speaks of
//! with the places marked, and a hint.
//!
//! ```text
//! relation "userz" does not exist
//!   ╭────
//! 2 │ FROM userz
//!   ·      ──┬──
//!   ·        ╰─ relation does not exist
//!   ╰────
//!   help: did you mean "users"?
//! ```

use crate::lexer::{original_span, source_span};
use crate::text::{byte_len, characters, concat3, decimal, decimal_text, opt_text};
use vstd::prelude::*;
use vstd::utf8::encode_utf8;

verus! {

/// A span of a text, in bytes: an offset and the offset behind.
#[derive(Debug, Clone, Copy, PartialEq, Eq, Structural)]
pub struct SourceSpan {
    pub start: usize,
    pub end: usize,
}

impl SourceSpan {
    pub fn new(start: usize, end: usize) -> (r: SourceSpan)
        ensures
            r == (SourceSpan { start, end }),
    {
        SourceSpan { start, end }
    }
}

/// A span of the lexed query, with what is to be said of it.
#[derive(Debug)]
pub struct Label {
    pub span: SourceSpan,
    pub message: String,
}

/// An error with the places that it speaks of.
#[derive(Debug)]
pub struct RawError {
    /// The message, as the database words it.
    pub message: String,
    pub primary: Option<Label>,
    pub secondaries: Vec<Label>,
    pub hint: Option<String>,
}

impl RawError {
    /// A query names a relation that does not exist.
    pub fn undefined_table(name: &str, span: Option<SourceSpan>, hint: Option<String>) -> (r:
        RawError)
        ensures
            r.message@ == "relation \""@ + name@ + "\" does not exist"@,
            match span {
                Some(s) => r.primary matches Some(l) && l.span == s && l.message@
                    == "relation does not exist"@,
                None => r.primary is None,
            },
            r.secondaries@.len() == 0,
            r.hint == hint,
    {
        let primary: Option<Label> = match span {
            Some(span) => Some(Label { span, message: "relation does not exist".to_owned() }),
            None => None,
        };
        RawError {
            message: concat3("relation \"", name, "\" does not exist"),
            primary,
            secondaries: Vec::new(),
            hint,
        }
    }

    /// The message, as the database words it.
    pub fn pg_message(&self) -> (r: &str)
        ensures
            r@ == self.message@,
    {
        self.message.as_str()
    }
}

// ── Positions ───────────────────────────────────────────────────────────────

/// A line of a query, and columns in it, all counted from one; the columns are
/// bytes, and `col_end` is behind the last.
#[derive(Debug, Clone, Copy, PartialEq, Eq, Structural)]
pub struct Position {
    pub line: usize,
    pub col_start: usize,
    pub col_end: usize,
}

/// The number of lines that end before byte `n`.
pub open spec fn newlines(b: Seq<u8>, n: int) -> nat
    decreases n,
{
    if n <= 0 {
        0
    } else {
        newlines(b, n - 1) + if b[n - 1] == 10 {
            1nat
        } else {
            0nat
        }
    }
}

/// Where the line of byte `n` starts.
pub open spec fn line_start(b: Seq<u8>, n: int) -> int
    decreases n,
{
    if n <= 0 {
        0
    } else if b[n - 1] == 10 {
        n
    } else {
        line_start(b, n - 1)
    }
}

/// The first newline from byte `n` on, or the end of the text.
pub open spec fn newline_from(b: Seq<u8>, n: int) -> int
    decreases b.len() - n,
{
    if n < 0 || n >= b.len() {
        b.len() as int
    } else if b[n] == 10 {
        n
    } else {
        newline_from(b, n + 1)
    }
}

/// The place of the span `start..end` in a text: the line on which it starts, and
/// its columns up to the end of that line. At least one byte is covered, unless
/// the line ends at once. None where the span starts behind the text.
pub open spec fn position_of(b: Seq<u8>, start: int, end: int) -> Option<(int, int, int)> {
    if start > b.len() {
        None
    } else {
        let clamped = if end < b.len() {
            end
        } else {
            b.len() as int
        };
        let last = if clamped > start {
            clamped
        } else {
            start + 1
        };
        let first = line_start(b, start);
        let stop = newline_from(b, first);
        let on_line = if last < stop {
            last
        } else {
            stop
        };
        Some((1 + newlines(b, start) as int, 1 + start - first, 1 + on_line - first))
    }
}

/// A position as numbers.
pub open spec fn position_view(p: Position) -> (int, int, int) {
    (p.line as int, p.col_start as int, p.col_end as int)
}

pub proof fn lemma_lines(b: Seq<u8>, n: int)
    requires
        0 <= n <= b.len(),
    ensures
        newlines(b, n) <= n,
        0 <= line_start(b, n) <= n,
        forall|k: int| line_start(b, n) <= k < n ==> b[k] != 10,
    decreases n,
{
    if n > 0 {
        lemma_lines(b, n - 1);
    }
}

pub proof fn lemma_newline_from(b: Seq<u8>, n: int, m: int)
    requires
        0 <= n <= m <= b.len(),
        forall|k: int| n <= k < m ==> b[k] != 10,
    ensures
        m <= newline_from(b, n) <= b.len(),
        newline_from(b, n) == newline_from(b, m),
    decreases b.len() - n,
{
    if n < m {
        lemma_newline_from(b, n + 1, m);
    } else if n < b.len() && b[n] != 10 {
        lemma_newline_from(b, n + 1, n + 1);
    }
}

fn span_to_position(span: SourceSpan, sql: &str) -> (r: Option<Position>)
    requires
        byte_len(sql@) < usize::MAX,
    ensures
        match (r, position_of(encode_utf8(sql@), span.start as int, span.end as int)) {
            (Some(p), Some(v)) => position_view(p) == v && 1 <= p.col_start <= p.col_end && p.line
                >= 1,
            (None, None) => true,
            _ => false,
        },
{
    let bytes: &[u8] = sql.as_bytes();
    let len: usize = bytes.len();
    let start: usize = span.start;
    if start > len {
        return None;
    }
    let mut line: usize = 1;
    let mut first: usize = 0;
    let mut i: usize = 0;
    while i < start
        invariant
            bytes@ == encode_utf8(sql@),
            len == bytes@.len(),
            i <= start <= len,
            len < usize::MAX,
            line == newlines(bytes@, i as int) + 1,
            line <= i + 1,
            first == line_start(bytes@, i as int),
            first <= i,
        decreases start - i,
    {
        if bytes[i] == 10 {
            line = line + 1;
            first = i + 1;
        }
        i = i + 1;
    }
    let mut stop: usize = start;
    proof {
        lemma_lines(bytes@, start as int);
        lemma_newline_from(bytes@, first as int, start as int);
    }
    while stop < len && bytes[stop] != 10
        invariant
            bytes@ == encode_utf8(sql@),
            len == bytes@.len(),
            start <= stop <= len,
            newline_from(bytes@, first as int) == newline_from(bytes@, stop as int),
        decreases len - stop,
    {
        stop = stop + 1;
    }
    let clamped: usize = if span.end < len {
        span.end
    } else {
        len
    };
    let on_line: usize = if clamped > start {
        if clamped < stop {
            clamped
        } else {
            stop
        }
    } else if start < stop {
        start + 1
    } else {
        stop
    };
    Some(Position { line, col_start: 1 + (start - first), col_end: 1 + (on_line - first) })
}

/// The place in the template that a span of the lexed text stems from.
pub open spec fn label_position(span: SourceSpan, sql: Seq<char>) -> Option<(int, int, int)> {
    let source = source_span(sql, span.start as nat, span.end as nat);
    position_of(encode_utf8(sql), source.0 as int, source.1 as int)
}

fn translate(span: SourceSpan, sql: &str) -> (r: SourceSpan)
    ensures
        (r.start as nat, r.end as nat) == source_span(sql@, span.start as nat, span.end as nat),
{
    let (start, end): (usize, usize) = original_span(sql, span.start, span.end);
    SourceSpan::new(start, end)
}

// ── Lines of a text ─────────────────────────────────────────────────────────

/// Where the line that begins at character `i` ends.
pub open spec fn line_stop(s: Seq<char>, i: int) -> int
    decreases s.len() - i,
{
    if i < 0 || i >= s.len() {
        s.len() as int
    } else if s[i] == '\n' {
        i
    } else {
        line_stop(s, i + 1)
    }
}

/// A line without the carriage return at its end, if it has one.
pub open spec fn without_return(line: Seq<char>) -> Seq<char> {
    if line.len() > 0 && line.last() == '\r' {
        line.drop_last()
    } else {
        line
    }
}

/// Line `n` (counted from zero) of the text from `i` on; nothing where there are
/// not so many lines.
pub open spec fn line_text(s: Seq<char>, i: int, n: nat) -> Seq<char>
    decreases n,
{
    let stop = line_stop(s, i);
    if i >= s.len() {
        Seq::empty()
    } else if n > 0 {
        line_text(s, stop + 1, (n - 1) as nat)
    } else if stop < s.len() {
        without_return(s.subrange(i, stop))
    } else {
        s.subrange(i, stop)
    }
}

proof fn lemma_line_stop(s: Seq<char>, i: int)
    requires
        0 <= i <= s.len(),
    ensures
        i <= line_stop(s, i) <= s.len(),
    decreases s.len() - i,
{
    if i < s.len() && s[i] != '\n' {
        lemma_line_stop(s, i + 1);
    }
}

fn find_line_stop(chars: &Vec<char>, i: usize) -> (r: usize)
    requires
        i <= chars@.len(),
    ensures
        r == line_stop(chars@, i as int),
        i <= r <= chars@.len(),
{
    let mut k: usize = i;
    while k < chars.len() && chars[k] != '\n'
        invariant
            i <= k <= chars@.len(),
            line_stop(chars@, i as int) == line_stop(chars@, k as int),
        decreases chars.len() - k,
    {
        k = k + 1;
    }
    k
}

fn nth_line(sql: &str, line: usize) -> (r: String)
    requires
        line >= 1,
    ensures
        r@ == line_text(sql@, 0, (line - 1) as nat),
{
    let chars: Vec<char> = characters(sql);
    let mut i: usize = 0;
    let mut n: usize = line - 1;
    while i < chars.len()
        invariant
            chars@ == sql@,
            i <= chars@.len(),
            line_text(sql@, 0, (line - 1) as nat) == line_text(sql@, i as int, n as nat),
        decreases chars.len() - i,
    {
        let stop: usize = find_line_stop(&chars, i);
        if n == 0 {
            if stop < chars.len() && stop > i && chars[stop - 1] == '\r' {
                proof {
                    assert(chars@.subrange(i as int, stop as int).drop_last() =~= chars@.subrange(
                        i as int,
                        stop - 1,
                    ));
                }
                return crate::text::slice_text(&chars, i, stop - 1);
            }
            return crate::text::slice_text(&chars, i, stop);
        }
        n = n - 1;
        if stop >= chars.len() {
            proof {
                assert(line_text(sql@, stop + 1, n as nat) =~= Seq::empty());
            }
            return String::new();
        }
        i = stop + 1;
    }
    String::new()
}

// ── Markers ─────────────────────────────────────────────────────────────────

/// A marked place, with what is to be said of it.
#[derive(Debug, Clone)]
pub struct MarkerEntry {
    pub pos: Position,
    pub label: Option<String>,
}

#[verifier::ext_equal]
pub struct MarkerView {
    pub line: int,
    pub col_start: int,
    pub col_end: int,
    pub label: Option<Seq<char>>,
}

impl View for MarkerEntry {
    type V = MarkerView;

    open spec fn view(&self) -> MarkerView {
        MarkerView {
            line: self.pos.line as int,
            col_start: self.pos.col_start as int,
            col_end: self.pos.col_end as int,
            label: opt_text(self.label),
        }
    }
}

/// The views of several markers.
pub open spec fn marker_views(list: Seq<MarkerEntry>) -> Seq<MarkerView> {
    list.map_values(|m: MarkerEntry| m@)
}

/// A marker has a line and columns that are counted from one.
pub open spec fn placed(m: MarkerView) -> bool {
    m.line >= 1 && 1 <= m.col_start <= m.col_end
}

/// The column in the middle of a marker, where its label hangs.
pub open spec fn anchor(m: MarkerView) -> int {
    m.col_start + (m.col_end - m.col_start) / 2
}

/// The markers with `m` behind those that do not start to the right of it.
pub open spec fn sorted_in(list: Seq<MarkerView>, m: MarkerView) -> Seq<MarkerView>
    decreases list.len(),
{
    if list.len() == 0 {
        seq![m]
    } else if list.last().col_start > m.col_start {
        sorted_in(list.drop_last(), m).push(list.last())
    } else {
        list.push(m)
    }
}

/// The markers by ascending column; those that start together keep their order.
pub open spec fn by_column(list: Seq<MarkerView>) -> Seq<MarkerView>
    decreases list.len(),
{
    if list.len() == 0 {
        Seq::empty()
    } else {
        sorted_in(by_column(list.drop_last()), list.last())
    }
}

/// The greatest end column, at least one.
pub open spec fn widest(list: Seq<MarkerView>) -> int
    decreases list.len(),
{
    if list.len() == 0 {
        1
    } else {
        let rest = widest(list.drop_last());
        if list.last().col_end > rest {
            list.last().col_end
        } else {
            rest
        }
    }
}

/// Whether a column (counted from zero) is marked.
pub open spec fn underlined(list: Seq<MarkerView>, c: int) -> bool {
    exists|i: int|
        0 <= i < list.len() && (#[trigger] list[i]).col_start - 1 <= c < list[i].col_end - 1
}

/// Whether a label hangs at a column (counted from zero).
pub open spec fn anchored(list: Seq<MarkerView>, c: int) -> bool {
    exists|i: int|
        0 <= i < list.len() && (#[trigger] list[i]).label is Some && anchor(list[i]) - 1 == c
}

/// The row under a line that marks its columns.
pub open spec fn underline(list: Seq<MarkerView>) -> Seq<char> {
    Seq::new(
        widest(list) as nat,
        |c: int|
            if anchored(list, c) {
                '┬'
            } else if underlined(list, c) {
                '─'
            } else {
                ' '
            },
    )
}

/// A text without the spaces at its end.
pub open spec fn trimmed(s: Seq<char>) -> Seq<char>
    decreases s.len(),
{
    if s.len() > 0 && s.last() == ' ' {
        trimmed(s.drop_last())
    } else {
        s
    }
}

/// The markers that have a label.
pub open spec fn labelled(list: Seq<MarkerView>) -> Seq<MarkerView> {
    list.filter(|m: MarkerView| m.label is Some)
}

/// What stands before the label of marker `k`: a line down to each label that is
/// still to come.
pub open spec fn connector(list: Seq<MarkerView>, k: int) -> Seq<char> {
    Seq::new(
        (anchor(list[k]) - 1) as nat,
        |c: int|
            if anchored(list.take(k), c) {
                '│'
            } else {
                ' '
            },
    )
}

/// The rows of the labels of the first `n` markers, the last one first.
pub open spec fn label_rows(pad: Seq<char>, list: Seq<MarkerView>, n: int) -> Seq<char>
    decreases n,
{
    if n <= 0 {
        Seq::empty()
    } else {
        pad + " · "@ + connector(list, n - 1) + "╰─ "@ + list[n - 1].label->0 + "\n"@
            + label_rows(pad, list, n - 1)
    }
}

/// The rows under a line.
pub open spec fn marker_rows(pad: Seq<char>, markers: Seq<MarkerView>) -> Seq<char> {
    let list = by_column(markers);
    let named = labelled(list);
    pad + " · "@ + trimmed(underline(list)) + "\n"@ + label_rows(pad, named, named.len() as int)
}

fn copy_label(l: &Option<String>) -> (r: Option<String>)
    ensures
        opt_text(r) == opt_text(*l),
{
    match l {
        Some(s) => Some(s.as_str().to_owned()),
        None => None,
    }
}

fn copy_marker(m: &MarkerEntry) -> (r: MarkerEntry)
    ensures
        r@ == m@,
{
    MarkerEntry { pos: m.pos, label: copy_label(&m.label) }
}

fn insert_sorted(list: &mut Vec<MarkerEntry>, m: MarkerEntry)
    ensures
        marker_views(final(list)@) == sorted_in(marker_views(old(list)@), m@),
{
    let ghost s = marker_views(list@);
    let mut i: usize = list.len();
    proof {
        assert(s.take(i as int) =~= s);
        assert(s.skip(i as int) =~= Seq::empty());
        assert(sorted_in(s, m@) =~= sorted_in(s.take(i as int), m@) + s.skip(i as int));
    }
    while i > 0 && list[i - 1].pos.col_start > m.pos.col_start
        invariant
            i <= list@.len(),
            s == marker_views(list@),
            sorted_in(s, m@) == sorted_in(s.take(i as int), m@) + s.skip(i as int),
        decreases i,
    {
        proof {
            assert(s.take(i as int).drop_last() =~= s.take(i - 1));
            assert(sorted_in(s.take(i - 1), m@).push(s[i - 1]) + s.skip(i as int) =~= sorted_in(
                s.take(i - 1),
                m@,
            ) + s.skip(i - 1));
        }
        i = i - 1;
    }
    proof {
        if i > 0 {
            assert(s.take(i as int).last() == s[i - 1]);
        }
        assert(sorted_in(s.take(i as int), m@) =~= s.take(i as int).push(m@));
    }
    list.insert(i, m);
    proof {
        assert(marker_views(list@) =~= s.take(i as int).push(m@) + s.skip(i as int));
    }
}

fn sort_markers(list: &Vec<MarkerEntry>) -> (r: Vec<MarkerEntry>)
    ensures
        marker_views(r@) == by_column(marker_views(list@)),
{
    let ghost s = marker_views(list@);
    let mut r: Vec<MarkerEntry> = Vec::new();
    let mut i: usize = 0;
    proof {
        assert(marker_views(r@) =~= Seq::empty());
    }
    while i < list.len()
        invariant
            i <= list@.len(),
            s == marker_views(list@),
            marker_views(r@) == by_column(s.take(i as int)),
        decreases list.len() - i,
    {
        proof {
            assert(s.take(i + 1).drop_last() =~= s.take(i as int));
        }
        insert_sorted(&mut r, copy_marker(&list[i]));
        i = i + 1;
    }
    proof {
        assert(s.take(i as int) =~= s);
    }
    r
}

proof fn lemma_sorted_in_keeps(list: Seq<MarkerView>, m: MarkerView)
    requires
        placed(m),
        forall|i: int| 0 <= i < list.len() ==> placed(#[trigger] list[i]),
    ensures
        forall|i: int|
            0 <= i < sorted_in(list, m).len() ==> placed(#[trigger] sorted_in(list, m)[i]),
        sorted_in(list, m).len() == list.len() + 1,
    decreases list.len(),
{
    if list.len() > 0 && list.last().col_start > m.col_start {
        lemma_sorted_in_keeps(list.drop_last(), m);
    }
}

proof fn lemma_by_column_keeps(list: Seq<MarkerView>)
    requires
        forall|i: int| 0 <= i < list.len() ==> placed(#[trigger] list[i]),
    ensures
        forall|i: int| 0 <= i < by_column(list).len() ==> placed(#[trigger] by_column(list)[i]),
        by_column(list).len() == list.len(),
    decreases list.len(),
{
    if list.len() > 0 {
        lemma_by_column_keeps(list.drop_last());
        lemma_sorted_in_keeps(by_column(list.drop_last()), list.last());
    }
}

proof fn lemma_widest(list: Seq<MarkerView>)
    requires
        forall|i: int| 0 <= i < list.len() ==> placed(#[trigger] list[i]),
    ensures
        widest(list) >= 1,
        forall|i: int| 0 <= i < list.len() ==> (#[trigger] list[i]).col_end <= widest(list),
    decreases list.len(),
{
    if list.len() > 0 {
        lemma_widest(list.drop_last());
        assert forall|i: int| 0 <= i < list.len() implies (#[trigger] list[i]).col_end <= widest(
            list,
        ) by {
            if i < list.len() - 1 {
                assert(list[i] == list.drop_last()[i]);
            }
        }
    }
}

fn find_widest(list: &Vec<MarkerEntry>) -> (r: usize)
    ensures
        r == widest(marker_views(list@)),
{
    let ghost s = marker_views(list@);
    let mut r: usize = 1;
    let mut i: usize = 0;
    while i < list.len()
        invariant
            i <= list@.len(),
            s == marker_views(list@),
            r == widest(s.take(i as int)),
        decreases list.len() - i,
    {
        proof {
            assert(s.take(i + 1).drop_last() =~= s.take(i as int));
        }
        if list[i].pos.col_end > r {
            r = list[i].pos.col_end;
        }
        i = i + 1;
    }
    proof {
        assert(s.take(i as int) =~= s);
    }
    r
}

fn anchor_of(m: &MarkerEntry) -> (r: usize)
    requires
        placed(m@),
    ensures
        r == anchor(m@),
{
    m.pos.col_start + (m.pos.col_end - m.pos.col_start) / 2
}

fn is_underlined(list: &Vec<MarkerEntry>, c: usize) -> (r: bool)
    requires
        forall|i: int| 0 <= i < list@.len() ==> placed(#[trigger] marker_views(list@)[i]),
    ensures
        r == underlined(marker_views(list@), c as int),
{
    let ghost s = marker_views(list@);
    let mut i: usize = 0;
    while i < list.len()
        invariant
            i <= list@.len(),
            s == marker_views(list@),
            forall|k: int| 0 <= k < list@.len() ==> placed(#[trigger] s[k]),
            forall|k: int|
                0 <= k < i ==> !((#[trigger] s[k]).col_start - 1 <= c < s[k].col_end - 1),
        decreases list.len() - i,
    {
        proof {
            assert(placed(s[i as int]));
        }
        if list[i].pos.col_start - 1 <= c && c < list[i].pos.col_end - 1 {
            proof {
                assert(s[i as int].col_start - 1 <= c < s[i as int].col_end - 1);
            }
            return true;
        }
        i = i + 1;
    }
    false
}

fn is_anchored(list: &Vec<MarkerEntry>, n: usize, c: usize) -> (r: bool)
    requires
        n <= list@.len(),
        forall|i: int| 0 <= i < list@.len() ==> placed(#[trigger] marker_views(list@)[i]),
    ensures
        r == anchored(marker_views(list@).take(n as int), c as int),
{
    let ghost s = marker_views(list@);
    let ghost t = s.take(n as int);
    let mut i: usize = 0;
    while i < n
        invariant
            i <= n <= list@.len(),
            s == marker_views(list@),
            t == s.take(n as int),
            forall|k: int| 0 <= k < list@.len() ==> placed(#[trigger] s[k]),
            forall|k: int| 0 <= k < i ==> !((#[trigger] t[k]).label is Some && anchor(t[k]) - 1 == c),
        decreases n - i,
    {
        proof {
            assert(placed(s[i as int]));
            assert(t[i as int] == list@[i as int]@);
        }
        if list[i].label.is_some() && anchor_of(&list[i]) - 1 == c {
            proof {
                assert(t[i as int].label is Some && anchor(t[i as int]) - 1 == c);
            }
            return true;
        }
        i = i + 1;
    }
    false
}

/// Adds the marks under a line, up to the last column that has one.
fn push_underline(out: &mut String, list: &Vec<MarkerEntry>)
    requires
        forall|i: int| 0 <= i < list@.len() ==> placed(#[trigger] marker_views(list@)[i]),
    ensures
        final(out)@ == old(out)@ + trimmed(underline(marker_views(list@))),
{
    let ghost s = marker_views(list@);
    let ghost row = underline(s);
    let width: usize = find_widest(list);
    proof {
        lemma_widest(s);
    }
    let mut chars: Vec<char> = Vec::new();
    let mut c: usize = 0;
    let total: usize = list.len();
    while c < width
        invariant
            c <= width,
            total == list@.len(),
            s == marker_views(list@),
            row == underline(s),
            width == widest(s),
            forall|i: int| 0 <= i < list@.len() ==> placed(#[trigger] s[i]),
            chars@ == row.take(c as int),
        decreases width - c,
    {
        proof {
            assert(s.take(total as int) =~= s);
            assert(row.take(c + 1) =~= row.take(c as int).push(row[c as int]));
        }
        if is_anchored(list, total, c) {
            chars.push('┬');
        } else if is_underlined(list, c) {
            chars.push('─');
        } else {
            chars.push(' ');
        }
        c = c + 1;
    }
    proof {
        assert(row.take(c as int) =~= row);
    }
    let mut end: usize = chars.len();
    proof {
        assert(row.take(end as int) =~= row);
    }
    while end > 0 && chars[end - 1] == ' '
        invariant
            end <= chars@.len(),
            chars@ == row,
            trimmed(row) == trimmed(row.take(end as int)),
        decreases end,
    {
        proof {
            assert(row.take(end as int).drop_last() =~= row.take(end - 1));
        }
        end = end - 1;
    }
    proof {
        if end > 0 {
            assert(row.take(end as int).last() == row[end - 1]);
        }
        assert(row.subrange(0, end as int) =~= row.take(end as int));
    }
    out.append(crate::text::slice_text(&chars, 0, end).as_str());
}

fn keep_labelled(list: &Vec<MarkerEntry>) -> (r: Vec<MarkerEntry>)
    ensures
        marker_views(r@) == labelled(marker_views(list@)),
{
    let ghost s = marker_views(list@);
    let mut r: Vec<MarkerEntry> = Vec::new();
    let mut i: usize = 0;
    proof {
        reveal(Seq::filter);
        assert(marker_views(r@) =~= labelled(s.take(0)));
    }
    while i < list.len()
        invariant
            i <= list@.len(),
            s == marker_views(list@),
            marker_views(r@) == labelled(s.take(i as int)),
        decreases list.len() - i,
    {
        proof {
            reveal(Seq::filter);
            assert(s.take(i + 1).drop_last() =~= s.take(i as int));
        }
        if list[i].label.is_some() {
            let ghost before = r@;
            let m: MarkerEntry = copy_marker(&list[i]);
            r.push(m);
            proof {
                assert(marker_views(r@) =~= marker_views(before).push(m@));
            }
        }
        i = i + 1;
    }
    proof {
        assert(s.take(i as int) =~= s);
    }
    r
}

fn push_connector(out: &mut String, list: &Vec<MarkerEntry>, k: usize)
    requires
        k < list@.len(),
        forall|i: int| 0 <= i < list@.len() ==> placed(#[trigger] marker_views(list@)[i]),
    ensures
        final(out)@ == old(out)@ + connector(marker_views(list@), k as int),
{
    let ghost s = marker_views(list@);
    let ghost row = connector(s, k as int);
    let ghost start = out@;
    proof {
        assert(placed(s[k as int]));
    }
    let width: usize = anchor_of(&list[k]) - 1;
    let mut c: usize = 0;
    proof {
        assert(start + row.take(0) =~= start);
    }
    while c < width
        invariant
            c <= width == row.len(),
            k < list@.len(),
            s == marker_views(list@),
            row == connector(s, k as int),
            forall|i: int| 0 <= i < list@.len() ==> placed(#[trigger] s[i]),
            out@ == start + row.take(c as int),
        decreases width - c,
    {
        proof {
            assert(start + row.take(c + 1) =~= (start + row.take(c as int)).push(row[c as int]));
        }
        if is_anchored(list, k, c) {
            out.push('│');
        } else {
            out.push(' ');
        }
        c = c + 1;
    }
    proof {
        assert(row.take(c as int) =~= row);
    }
}

proof fn lemma_labelled_keeps(list: Seq<MarkerView>)
    requires
        forall|i: int| 0 <= i < list.len() ==> placed(#[trigger] list[i]),
    ensures
        forall|i: int|
            0 <= i < labelled(list).len() ==> placed(#[trigger] labelled(list)[i]) && labelled(
                list,
            )[i].label is Some,
    decreases list.len(),
{
    reveal(Seq::filter);
    if list.len() > 0 {
        lemma_labelled_keeps(list.drop_last());
    }
}

fn render_markers_for_line(out: &mut String, gutter_pad: &str, entries: &Vec<MarkerEntry>)
    requires
        forall|i: int| 0 <= i < entries@.len() ==> placed(#[trigger] marker_views(entries@)[i]),
    ensures
        final(out)@ == old(out)@ + marker_rows(gutter_pad@, marker_views(entries@)),
{
    let ghost start = out@;
    let ghost pad = gutter_pad@;
    let list: Vec<MarkerEntry> = sort_markers(entries);
    let named: Vec<MarkerEntry> = keep_labelled(&list);
    let ghost names = marker_views(named@);
    proof {
        lemma_by_column_keeps(marker_views(entries@));
        lemma_labelled_keeps(marker_views(list@));
    }
    out.append(gutter_pad);
    out.append(" · ");
    push_underline(out, &list);
    out.append("\n");
    let ghost head = out@;
    let mut n: usize = named.len();
    proof {
        assert(head + label_rows(pad, names, n as int) =~= start + marker_rows(
            pad,
            marker_views(entries@),
        ));
    }
    while n > 0
        invariant
            n <= named@.len(),
            pad == gutter_pad@,
            names == marker_views(named@),
            forall|i: int|
                0 <= i < names.len() ==> placed(#[trigger] names[i]) && names[i].label is Some,
            out@ + label_rows(pad, names, n as int) == start + marker_rows(
                pad,
                marker_views(entries@),
            ),
        decreases n,
    {
        let ghost before = out@;
        proof {
            assert(names[n - 1].label is Some);
        }
        out.append(gutter_pad);
        out.append(" · ");
        push_connector(out, &named, n - 1);
        out.append("╰─ ");
        match &named[n - 1].label {
            Some(l) => out.append(l.as_str()),
            None => {},
        }
        out.append("\n");
        proof {
            assert(out@ + label_rows(pad, names, n - 1) =~= before + label_rows(
                pad,
                names,
                n as int,
            ));
        }
        n = n - 1;
    }
    proof {
        assert(out@ + Seq::<char>::empty() =~= out@);
    }
}

// ── The whole text ──────────────────────────────────────────────────────────

/// The marker for a label of an error, where it has a place.
pub open spec fn marker_of(span: SourceSpan, label: Option<Seq<char>>, sql: Seq<char>) -> Option<
    MarkerView,
> {
    match label_position(span, sql) {
        Some((line, col_start, col_end)) => Some(MarkerView { line, col_start, col_end, label }),
        None => None,
    }
}

/// The markers for the primary label of an error, if it has one; an empty message
/// is no label.
pub open spec fn primary_markers(primary: Option<Label>, sql: Seq<char>) -> Seq<MarkerView> {
    match primary {
        Some(l) => {
            let label = if l.message@.len() == 0 {
                None
            } else {
                Some(l.message@)
            };
            match marker_of(l.span, label, sql) {
                Some(m) => seq![m],
                None => Seq::empty(),
            }
        },
        None => Seq::empty(),
    }
}

/// The markers for the other labels.
pub open spec fn secondary_markers(labels: Seq<Label>, sql: Seq<char>) -> Seq<MarkerView>
    decreases labels.len(),
{
    if labels.len() == 0 {
        Seq::empty()
    } else {
        let rest = secondary_markers(labels.drop_last(), sql);
        match marker_of(labels.last().span, Some(labels.last().message@), sql) {
            Some(m) => rest.push(m),
            None => rest,
        }
    }
}

/// All markers of an error, the primary one first.
pub open spec fn error_markers(raw: RawError, sql: Seq<char>) -> Seq<MarkerView> {
    primary_markers(raw.primary, sql) + secondary_markers(raw.secondaries@, sql)
}

/// The markers on a line.
pub open spec fn markers_on(list: Seq<MarkerView>, line: int) -> Seq<MarkerView> {
    list.filter(|m: MarkerView| m.line == line)
}

/// The first line behind `after` that has a marker.
pub open spec fn next_line(list: Seq<MarkerView>, after: int) -> Option<int>
    decreases list.len(),
{
    if list.len() == 0 {
        None
    } else {
        let line = list.last().line;
        match next_line(list.drop_last(), after) {
            Some(l) => if after < line < l {
                Some(line)
            } else {
                Some(l)
            },
            None => if after < line {
                Some(line)
            } else {
                None
            },
        }
    }
}

/// The last line that has a marker.
pub open spec fn last_line(list: Seq<MarkerView>) -> int
    decreases list.len(),
{
    if list.len() == 0 {
        0
    } else {
        let rest = last_line(list.drop_last());
        if list.last().line > rest {
            list.last().line
        } else {
            rest
        }
    }
}

/// `n` spaces.
pub open spec fn spaces(n: nat) -> Seq<char> {
    Seq::new(n, |i: int| ' ')
}

/// The number of a line, set to the right in a gutter.
pub open spec fn gutter_number(line: int, width: nat) -> Seq<char> {
    let digits = decimal_text(line as nat);
    spaces((width - digits.len()) as nat) + digits
}

/// A line with its markers under it; `after` is the line shown before, or zero.
pub open spec fn marked_line(
    list: Seq<MarkerView>,
    after: int,
    line: int,
    width: nat,
    sql: Seq<char>,
) -> Seq<char> {
    let pad = spaces(width);
    (if after > 0 && line > after + 1 {
        pad + " ·\n"@
    } else {
        Seq::empty()
    }) + gutter_number(line, width) + " │ "@ + line_text(sql, 0, (line - 1) as nat) + "\n"@
        + marker_rows(pad, markers_on(list, line))
}

/// The lines behind `after` that have markers, with their markers under them; a
/// row between two lines that are not next to each other. `after` is the line
/// shown before, or zero.
pub open spec fn marked_lines(
    list: Seq<MarkerView>,
    after: int,
    width: nat,
    sql: Seq<char>,
) -> Seq<char>
    decreases last_line(list) - after,
    when after >= 0 && forall|i: int| 0 <= i < list.len() ==> placed(#[trigger] list[i])
    via marked_lines_decreases
{
    match next_line(list, after) {
        None => Seq::empty(),
        Some(line) => marked_line(list, after, line, width, sql) + marked_lines(
            list,
            line,
            width,
            sql,
        ),
    }
}

#[via_fn]
proof fn marked_lines_decreases(
    list: Seq<MarkerView>,
    after: int,
    width: nat,
    sql: Seq<char>,
) {
    lemma_next_line(list, after);
}

proof fn lemma_next_line(list: Seq<MarkerView>, after: int)
    ensures
        next_line(list, after) matches Some(l) ==> after < l <= last_line(list),
    decreases list.len(),
{
    if list.len() > 0 {
        lemma_next_line(list.drop_last(), after);
    }
}

/// The line with the hint, if there is one.
pub open spec fn hint_line(hint: Option<Seq<char>>) -> Seq<char> {
    match hint {
        Some(h) => "  help: "@ + h + "\n"@,
        None => Seq::empty(),
    }
}

/// The text of a diagnostic. Its first line is the message.
pub open spec fn rendered(message: Seq<char>, raw: RawError, sql: Seq<char>) -> Seq<char> {
    let list = error_markers(raw, sql);
    let hint = hint_line(opt_text(raw.hint));
    if list.len() == 0 {
        message + "\n"@ + hint
    } else {
        let width = decimal_text(last_line(list) as nat).len();
        let pad = spaces(width);
        message + "\n"@ + pad + " ╭────\n"@ + marked_lines(list, 0, width, sql) + pad
            + " ╰────\n"@ + hint
    }
}

fn find_marker(span: SourceSpan, label: Option<String>, sql: &str) -> (r: Option<MarkerEntry>)
    requires
        byte_len(sql@) < usize::MAX,
    ensures
        match r {
            Some(m) => marker_of(span, opt_text(label), sql@) == Some(m@) && placed(m@),
            None => marker_of(span, opt_text(label), sql@) is None,
        },
{
    match span_to_position(translate(span, sql), sql) {
        Some(pos) => Some(MarkerEntry { pos, label }),
        None => None,
    }
}

fn collect_markers(raw: &RawError, sql: &str) -> (r: Vec<MarkerEntry>)
    requires
        byte_len(sql@) < usize::MAX,
    ensures
        marker_views(r@) == error_markers(*raw, sql@),
        forall|i: int| 0 <= i < r@.len() ==> placed(#[trigger] marker_views(r@)[i]),
{
    let mut r: Vec<MarkerEntry> = Vec::new();
    match &raw.primary {
        Some(l) => {
            let label: Option<String> = if l.message.as_str().is_empty() {
                None
            } else {
                Some(l.message.as_str().to_owned())
            };
            match find_marker(l.span, label, sql) {
                Some(m) => r.push(m),
                None => {},
            }
        },
        None => {},
    }
    let ghost labels = raw.secondaries@;
    let ghost first = primary_markers(raw.primary, sql@);
    proof {
        assert(marker_views(r@) =~= first);
        assert(first + secondary_markers(labels.take(0), sql@) =~= first);
    }
    let mut i: usize = 0;
    while i < raw.secondaries.len()
        invariant
            i <= labels.len(),
            byte_len(sql@) < usize::MAX,
            labels == raw.secondaries@,
            marker_views(r@) == first + secondary_markers(labels.take(i as int), sql@),
            forall|k: int| 0 <= k < r@.len() ==> placed(#[trigger] marker_views(r@)[k]),
        decreases labels.len() - i,
    {
        proof {
            assert(labels.take(i + 1).drop_last() =~= labels.take(i as int));
        }
        let l: &Label = &raw.secondaries[i];
        match find_marker(l.span, Some(l.message.as_str().to_owned()), sql) {
            Some(m) => {
                let ghost before = r@;
                r.push(m);
                proof {
                    assert(marker_views(r@) =~= marker_views(before).push(m@));
                    assert(marker_views(r@) =~= first + secondary_markers(
                        labels.take(i + 1),
                        sql@,
                    ));
                    assert forall|k: int| 0 <= k < r@.len() implies placed(
                        #[trigger] marker_views(r@)[k],
                    ) by {
                        if k < before.len() {
                            assert(marker_views(r@)[k] == marker_views(before)[k]);
                        }
                    }
                }
            },
            None => {},
        }
        i = i + 1;
    }
    proof {
        assert(labels.take(i as int) =~= labels);
    }
    r
}

fn take_line(list: &Vec<MarkerEntry>, line: usize) -> (r: Vec<MarkerEntry>)
    ensures
        marker_views(r@) == markers_on(marker_views(list@), line as int),
{
    let ghost s = marker_views(list@);
    let mut r: Vec<MarkerEntry> = Vec::new();
    let mut i: usize = 0;
    proof {
        reveal(Seq::filter);
        assert(marker_views(r@) =~= markers_on(s.take(0), line as int));
    }
    while i < list.len()
        invariant
            i <= list@.len(),
            s == marker_views(list@),
            marker_views(r@) == markers_on(s.take(i as int), line as int),
        decreases list.len() - i,
    {
        proof {
            reveal(Seq::filter);
            assert(s.take(i + 1).drop_last() =~= s.take(i as int));
        }
        if list[i].pos.line == line {
            let ghost before = r@;
            let m: MarkerEntry = copy_marker(&list[i]);
            r.push(m);
            proof {
                assert(marker_views(r@) =~= marker_views(before).push(m@));
            }
        }
        i = i + 1;
    }
    proof {
        assert(s.take(i as int) =~= s);
    }
    r
}

proof fn lemma_markers_on_keeps(list: Seq<MarkerView>, line: int)
    requires
        forall|i: int| 0 <= i < list.len() ==> placed(#[trigger] list[i]),
    ensures
        forall|i: int|
            0 <= i < markers_on(list, line).len() ==> placed(#[trigger] markers_on(list, line)[i]),
    decreases list.len(),
{
    reveal(Seq::filter);
    if list.len() > 0 {
        lemma_markers_on_keeps(list.drop_last(), line);
        let rest = markers_on(list.drop_last(), line);
        assert(placed(list[list.len() - 1]));
        assert(markers_on(list, line) == if list.last().line == line {
            rest.push(list.last())
        } else {
            rest
        });
    }
}

fn find_next_line(list: &Vec<MarkerEntry>, after: usize) -> (r: Option<usize>)
    ensures
        match r {
            Some(l) => next_line(marker_views(list@), after as int) == Some(l as int) && l > after,
            None => next_line(marker_views(list@), after as int) is None,
        },
{
    let ghost s = marker_views(list@);
    let mut r: Option<usize> = None;
    let mut i: usize = 0;
    while i < list.len()
        invariant
            i <= list@.len(),
            s == marker_views(list@),
            match r {
                Some(l) => next_line(s.take(i as int), after as int) == Some(l as int) && l > after,
                None => next_line(s.take(i as int), after as int) is None,
            },
        decreases list.len() - i,
    {
        proof {
            assert(s.take(i + 1).drop_last() =~= s.take(i as int));
        }
        let line: usize = list[i].pos.line;
        if line > after {
            match r {
                Some(l) => {
                    if line < l {
                        r = Some(line);
                    }
                },
                None => {
                    r = Some(line);
                },
            }
        }
        i = i + 1;
    }
    proof {
        assert(s.take(i as int) =~= s);
    }
    r
}

fn find_last_line(list: &Vec<MarkerEntry>) -> (r: usize)
    ensures
        r == last_line(marker_views(list@)),
{
    let ghost s = marker_views(list@);
    let mut r: usize = 0;
    let mut i: usize = 0;
    while i < list.len()
        invariant
            i <= list@.len(),
            s == marker_views(list@),
            r == last_line(s.take(i as int)),
        decreases list.len() - i,
    {
        proof {
            assert(s.take(i + 1).drop_last() =~= s.take(i as int));
        }
        if list[i].pos.line > r {
            r = list[i].pos.line;
        }
        i = i + 1;
    }
    proof {
        assert(s.take(i as int) =~= s);
    }
    r
}

fn space_text(n: usize) -> (r: String)
    ensures
        r@ == spaces(n as nat),
{
    let mut r: String = String::new();
    let mut i: usize = 0;
    proof {
        assert(r@ =~= spaces(0));
    }
    while i < n
        invariant
            i <= n,
            r@ == spaces(i as nat),
        decreases n - i,
    {
        r.push(' ');
        i = i + 1;
        proof {
            assert(r@ =~= spaces(i as nat));
        }
    }
    r
}

fn push_gutter_number(out: &mut String, line: usize, width: usize)
    ensures
        width >= decimal_text(line as nat).len() ==> final(out)@ == old(out)@ + gutter_number(
            line as int,
            width as nat,
        ),
{
    let ghost start = out@;
    let digits: String = decimal(line as u64);
    let n: usize = digits.as_str().unicode_len();
    if n < width {
        out.append(space_text(width - n).as_str());
    } else {
        proof {
            assert(spaces(0) =~= Seq::empty());
        }
    }
    out.append(digits.as_str());
    proof {
        if width >= n {
            assert(out@ =~= start + gutter_number(line as int, width as nat));
        }
    }
}

proof fn lemma_decimal_grows(a: nat, b: nat)
    requires
        a <= b,
    ensures
        decimal_text(a).len() <= decimal_text(b).len(),
    decreases b,
{
    if a >= 10 {
        lemma_decimal_grows(a / 10, b / 10);
    } else if b >= 10 {
        lemma_decimal_grows(0, b / 10);
    }
}

fn push_marked_line(
    out: &mut String,
    list: &Vec<MarkerEntry>,
    after: usize,
    line: usize,
    width: usize,
    sql: &str,
)
    requires
        forall|i: int| 0 <= i < list@.len() ==> placed(#[trigger] marker_views(list@)[i]),
        width >= decimal_text(line as nat).len(),
        line > after,
    ensures
        final(out)@ == old(out)@ + marked_line(
            marker_views(list@),
            after as int,
            line as int,
            width as nat,
            sql@,
        ),
{
    let ghost start = out@;
    let pad: String = space_text(width);
    if after > 0 && line > after + 1 {
        out.append(pad.as_str());
        out.append(" ·\n");
    } else {
        proof {
            assert(out@ =~= start + Seq::<char>::empty());
        }
    }
    push_gutter_number(out, line, width);
    out.append(" │ ");
    out.append(nth_line(sql, line).as_str());
    out.append("\n");
    let entries: Vec<MarkerEntry> = take_line(list, line);
    proof {
        lemma_markers_on_keeps(marker_views(list@), line as int);
    }
    render_markers_for_line(out, pad.as_str(), &entries);
    proof {
        assert(out@ =~= start + marked_line(
            marker_views(list@),
            after as int,
            line as int,
            width as nat,
            sql@,
        ));
    }
}

fn push_marked_lines(out: &mut String, list: &Vec<MarkerEntry>, width: usize, sql: &str)
    requires
        forall|i: int| 0 <= i < list@.len() ==> placed(#[trigger] marker_views(list@)[i]),
        width == decimal_text(last_line(marker_views(list@)) as nat).len(),
    ensures
        final(out)@ == old(out)@ + marked_lines(marker_views(list@), 0, width as nat, sql@),
{
    let ghost s = marker_views(list@);
    let last: usize = find_last_line(list);
    let mut after: usize = 0;
    loop
        invariant
            s == marker_views(list@),
            last == last_line(s),
            width == decimal_text(last as nat).len(),
            forall|i: int| 0 <= i < list@.len() ==> placed(#[trigger] s[i]),
            old(out)@ + marked_lines(s, 0, width as nat, sql@) == out@ + marked_lines(
                s,
                after as int,
                width as nat,
                sql@,
            ),
            0 <= after <= last,
        decreases last - after,
    {
        proof {
            lemma_next_line(s, after as int);
        }
        let line: usize = match find_next_line(list, after) {
            Some(l) => l,
            None => {
                proof {
                    assert(out@ + Seq::<char>::empty() =~= out@);
                }
                return;
            },
        };
        let ghost before = out@;
        proof {
            lemma_decimal_grows(line as nat, last as nat);
        }
        push_marked_line(out, list, after, line, width, sql);
        proof {
            let block = marked_line(s, after as int, line as int, width as nat, sql@);
            let rest = marked_lines(s, line as int, width as nat, sql@);
            assert((before + block) + rest =~= before + (block + rest));
        }
        after = line;
    }
}

/// The text of a diagnostic: the message, the lines of the template that the
/// error speaks of with the places marked, and the hint. The spans of the error
/// are those of the lexed text; places that the template does not have are left
/// out.
pub fn render(pg_message: &str, raw: &RawError, sql_original: &str) -> (r: String)
    requires
        byte_len(sql_original@) < usize::MAX,
    ensures
        r@ == rendered(pg_message@, *raw, sql_original@),
{
    let list: Vec<MarkerEntry> = collect_markers(raw, sql_original);
    let mut out: String = String::new();
    out.append(pg_message);
    out.append("\n");
    let ghost head = out@;
    proof {
        assert(head =~= pg_message@ + "\n"@);
    }
    if list.len() > 0 {
        let last: usize = find_last_line(&list);
        let width: usize = decimal(last as u64).as_str().unicode_len();
        let pad: String = space_text(width);
        out.append(pad.as_str());
        out.append(" ╭────\n");
        push_marked_lines(&mut out, &list, width, sql_original);
        out.append(pad.as_str());
        out.append(" ╰────\n");
    }
    let ghost body = out@;
    match &raw.hint {
        Some(h) => {
            out.append("  help: ");
            out.append(h.as_str());
            out.append("\n");
            proof {
                assert(out@ =~= body + hint_line(opt_text(raw.hint)));
            }
        },
        None => {
            proof {
                assert(out@ =~= body + hint_line(opt_text(raw.hint)));
            }
        },
    }
    proof {
        assert(out@ =~= rendered(pg_message@, *raw, sql_original@));
    }
    out
}

// ── Laws ────────────────────────────────────────────────────────────────────

/// A diagnostic begins with its message, word for word, on a line of its own.
pub proof fn law_message_comes_first(message: Seq<char>, raw: RawError, sql: Seq<char>)
    ensures
        rendered(message, raw, sql).len() > message.len(),
        rendered(message, raw, sql).take(message.len() as int) == message,
        rendered(message, raw, sql)[message.len() as int] == '\n',
{
    reveal_strlit("\n");
    let r = rendered(message, raw, sql);
    assert(r.take(message.len() as int) =~= message);
}

/// An error without a place is its message and its hint.
pub proof fn law_without_places_the_text_is_flat(message: Seq<char>, raw: RawError, sql: Seq<char>)
    requires
        raw.primary is None,
        raw.secondaries@.len() == 0,
    ensures
        rendered(message, raw, sql) == message + "\n"@ + hint_line(opt_text(raw.hint)),
{
    assert(error_markers(raw, sql) =~= Seq::empty());
}

} // verus!

//! What a diagnostic shows.

use crate::diagnostic::{
    Label, MarkerView, RawError, anchor, anchored, by_column, label_position, lemma_lines,
    lemma_newline_from, line_start, line_stop, line_text, newlines, next_line, position_of,
    rendered, secondary_markers, sorted_in, underline, underlined, widest,
};
use crate::lexer::source_span;
use vstd::prelude::*;
use vstd::utf8::encode_utf8;

verus! {

// ── Places ──────────────────────────────────────────────────────────────────

proof fn lemma_newlines(b: Seq<u8>, n: int)
    requires
        0 <= n <= b.len(),
    ensures
        newlines(b, n) == b.take(n).filter(|x: u8| x == 10).len(),
    decreases n,
{
    reveal(Seq::filter);
    if n > 0 {
        lemma_newlines(b, n - 1);
        assert(b.take(n).drop_last() =~= b.take(n - 1));
    }
}

/// A span is shown on the line on which it starts, by the number of the newlines before it,
/// from its own column up to its end or that of the line, whichever comes first. An empty
/// span is shown as one column, except at the end of a line.
pub proof fn law_span_is_on_its_line(b: Seq<u8>, start: int, end: int, first: int, stop: int)
    requires
        0 <= first <= start <= stop <= b.len(),
        0 <= end,
        first == 0 || b[first - 1] == 10,
        stop == b.len() || b[stop] == 10,
        forall|k: int| first <= k < stop ==> b[k] != 10,
    ensures
        position_of(b, start, end) matches Some(p) && p.0 == 1 + b.take(start).filter(
            |x: u8| x == 10,
        ).len() && p.1 == 1 + start - first && p.2 - p.1 == if end > stop {
            stop - start
        } else if end > start {
            end - start
        } else if start < stop {
            1
        } else {
            0
        },
{
    lemma_newlines(b, start);
    lemma_lines(b, start);
    let f = line_start(b, start);
    if f < first {
        assert(b[first - 1] != 10);
    }
    lemma_line_start(b, start);
    if first < f {
        assert(b[f - 1] == 10);
    }
    lemma_newline_from(b, first, stop);
}

proof fn lemma_line_start(b: Seq<u8>, n: int)
    requires
        0 <= n <= b.len(),
    ensures
        0 <= line_start(b, n) <= n,
        line_start(b, n) == 0 || b[line_start(b, n) - 1] == 10,
    decreases n,
{
    if n > 0 {
        lemma_line_start(b, n - 1);
    }
}

/// A span behind the text is not shown.
pub proof fn law_span_behind_the_text_is_not_shown(b: Seq<u8>, start: int, end: int)
    requires
        start > b.len(),
    ensures
        position_of(b, start, end) is None,
{
}

// ── Lines ───────────────────────────────────────────────────────────────────

proof fn lemma_stop(s: Seq<char>, i: int, stop: int)
    requires
        0 <= i <= stop <= s.len(),
        forall|k: int| i <= k < stop ==> s[k] != '\n',
        stop == s.len() || s[stop] == '\n',
    ensures
        line_stop(s, i) == stop,
    decreases stop - i,
{
    if i < stop {
        lemma_stop(s, i + 1, stop);
    }
}

/// The first line of a text is what stands before the first newline, without a carriage
/// return before that; where there is none it is the whole text.
pub proof fn law_first_line(s: Seq<char>, i: int, stop: int)
    requires
        0 <= i < s.len(),
        i <= stop <= s.len(),
        forall|k: int| i <= k < stop ==> s[k] != '\n',
        stop == s.len() || s[stop] == '\n',
    ensures
        line_text(s, i, 0) == if stop < s.len() && stop > i && s[stop - 1] == '\r' {
            s.subrange(i, stop - 1)
        } else {
            s.subrange(i, stop)
        },
{
    lemma_stop(s, i, stop);
    if stop > i {
        assert(s.subrange(i, stop).drop_last() =~= s.subrange(i, stop - 1));
    }
}

/// The later lines are those behind the first newline.
pub proof fn law_later_lines(s: Seq<char>, i: int, stop: int, n: nat)
    requires
        0 <= i <= stop < s.len(),
        forall|k: int| i <= k < stop ==> s[k] != '\n',
        s[stop] == '\n',
    ensures
        line_text(s, i, n + 1) == line_text(s, stop + 1, n),
{
    lemma_stop(s, i, stop);
}

// ── Markers ─────────────────────────────────────────────────────────────────

/// Markers stand in the order of their columns.
pub open spec fn ascending(list: Seq<MarkerView>) -> bool {
    forall|i: int, j: int|
        0 <= i < j < list.len() ==> (#[trigger] list[i]).col_start <= (
        #[trigger] list[j]).col_start
}

/// The markers that start in a column.
pub open spec fn starting_in(list: Seq<MarkerView>, c: int) -> Seq<MarkerView> {
    list.filter(|x: MarkerView| x.col_start == c)
}

proof fn lemma_one_more(list: Seq<MarkerView>, m: MarkerView, c: int)
    ensures
        m.col_start == c ==> starting_in(list.push(m), c) == starting_in(list, c).push(m),
        m.col_start != c ==> starting_in(list.push(m), c) == starting_in(list, c),
{
    reveal(Seq::filter);
    assert(list.push(m).drop_last() =~= list);
}

proof fn lemma_sorted_in(list: Seq<MarkerView>, m: MarkerView, c: int)
    requires
        ascending(list),
    ensures
        ascending(sorted_in(list, m)),
        sorted_in(list, m).len() == list.len() + 1,
        sorted_in(list, m).last().col_start == if list.len() > 0 && list.last().col_start
            > m.col_start {
            list.last().col_start
        } else {
            m.col_start
        },
        m.col_start == c ==> starting_in(sorted_in(list, m), c) == starting_in(list, c).push(m),
        m.col_start != c ==> starting_in(sorted_in(list, m), c) == starting_in(list, c),
    decreases list.len(),
{
    let r = sorted_in(list, m);
    lemma_one_more(list, m, c);
    if list.len() == 0 {
        assert(list =~= Seq::empty());
        assert(r =~= list.push(m));
    } else if list.last().col_start > m.col_start {
        let head = list.drop_last();
        let inner = sorted_in(head, m);
        lemma_sorted_in(head, m, c);
        assert(list =~= head.push(list.last()));
        lemma_one_more(head, list.last(), c);
        lemma_one_more(inner, list.last(), c);
        assert(inner.last().col_start <= list.last().col_start) by {
            if head.len() > 0 {
                assert(list[list.len() - 2].col_start <= list[list.len() - 1].col_start);
            }
        }
        assert forall|i: int, j: int| 0 <= i < j < r.len() implies (#[trigger] r[i]).col_start <= (
        #[trigger] r[j]).col_start by {
            if j == inner.len() {
                assert(r[i] == inner[i]);
                assert(inner[inner.len() - 1] == inner.last());
            } else {
                assert(r[i] == inner[i] && r[j] == inner[j]);
            }
        }
    } else {
        assert forall|i: int, j: int| 0 <= i < j < r.len() implies (#[trigger] r[i]).col_start <= (
        #[trigger] r[j]).col_start by {
            if j == list.len() {
                assert(r[i] == list[i]);
                assert(list[list.len() - 1] == list.last());
            } else {
                assert(r[i] == list[i] && r[j] == list[j]);
            }
        }
    }
}

/// The markers under a line are all its markers by ascending column, and those that start in
/// the same column keep their order.
pub proof fn law_markers_go_by_column(list: Seq<MarkerView>, c: int)
    ensures
        ascending(by_column(list)),
        by_column(list).len() == list.len(),
        starting_in(by_column(list), c) == starting_in(list, c),
    decreases list.len(),
{
    if list.len() > 0 {
        let head = list.drop_last();
        law_markers_go_by_column(head, c);
        lemma_sorted_in(by_column(head), list.last(), c);
        lemma_one_more(head, list.last(), c);
        assert(list =~= head.push(list.last()));
    } else {
        assert(list =~= Seq::empty());
    }
}

proof fn lemma_widest(list: Seq<MarkerView>, i: int)
    requires
        0 <= i < list.len(),
    ensures
        list[i].col_end <= widest(list),
    decreases list.len(),
{
    if i < list.len() - 1 {
        lemma_widest(list.drop_last(), i);
    }
}

/// Under the columns of a marker stands a line, and in its middle a corner where it has a
/// label; a column that no marker covers, and where no label hangs, stays blank.
pub proof fn law_columns_are_marked(list: Seq<MarkerView>, i: int, c: int)
    requires
        0 <= i < list.len(),
        1 <= list[i].col_start <= list[i].col_end,
        0 <= c,
    ensures
        ({
            let m = list[i];
            let row = underline(list);
            let middle = m.col_start - 1 + (m.col_end - m.col_start) / 2;
            &&& m.col_start - 1 <= c < m.col_end - 1 ==> c < row.len() && (row[c] == '─' || row[c]
                == '┬')
            &&& m.label is Some ==> middle < row.len() && row[middle] == '┬'
            &&& c < row.len() && row[c] == '┬' ==> exists|k: int|
                0 <= k < list.len() && (#[trigger] list[k]).label is Some && c
                    == list[k].col_start - 1 + (list[k].col_end - list[k].col_start) / 2
            &&& c < row.len() && row[c] == '─' ==> exists|k: int|
                0 <= k < list.len() && (#[trigger] list[k]).col_start <= c + 1 < list[k].col_end
        }),
{
    lemma_widest(list, i);
    let m = list[i];
    let row = underline(list);
    let middle = m.col_start - 1 + (m.col_end - m.col_start) / 2;
    if m.label is Some {
        assert(anchor(list[i]) - 1 == middle);
        assert(anchored(list, middle));
    }
    if m.col_start - 1 <= c < m.col_end - 1 {
        assert(underlined(list, c));
    }
    if c < row.len() && row[c] == '┬' {
        assert(anchored(list, c));
    }
    if c < row.len() && row[c] == '─' {
        assert(underlined(list, c));
    }
}

/// The lines are shown by ascending number, each just where it has a marker.
pub proof fn law_lines_are_shown_in_order(list: Seq<MarkerView>, after: int)
    ensures
        match next_line(list, after) {
            Some(l) => after < l && (exists|i: int|
                0 <= i < list.len() && (#[trigger] list[i]).line == l) && (forall|i: int|
                0 <= i < list.len() && after < (#[trigger] list[i]).line ==> l <= list[i].line),
            None => forall|i: int|
                0 <= i < list.len() ==> (#[trigger] list[i]).line <= after,
        },
    decreases list.len(),
{
    if list.len() > 0 {
        let head = list.drop_last();
        law_lines_are_shown_in_order(head, after);
        assert(list[list.len() - 1] == list.last());
        assert forall|i: int| 0 <= i < list.len() - 1 implies list[i] == #[trigger] head[i] by {}
        if let Some(l) = next_line(head, after) {
            let i = choose|i: int| 0 <= i < head.len() && (#[trigger] head[i]).line == l;
            assert(list[i].line == l);
        }
        assert forall|i: int| 0 <= i < list.len() - 1 implies #[trigger] list[i] == head[i] by {}
    }
}

/// The other labels of an error are marked in their order, each where its span has a place.
pub proof fn law_labels_are_marked_in_turn(labels: Seq<Label>, l: Label, sql: Seq<char>)
    ensures
        ({
            let source = source_span(sql, l.span.start as nat, l.span.end as nat);
            let before = secondary_markers(labels, sql);
            let all = secondary_markers(labels.push(l), sql);
            match position_of(encode_utf8(sql), source.0 as int, source.1 as int) {
                Some((line, col_start, col_end)) => all == before.push(
                    MarkerView { line, col_start, col_end, label: Some(l.message@) },
                ),
                None => all == before,
            }
        }),
        secondary_markers(Seq::empty(), sql) == Seq::<MarkerView>::empty(),
{
    assert(labels.push(l).drop_last() =~= labels);
}

// ── The whole ───────────────────────────────────────────────────────────────

/// An error without a label that has a place is shown as its message and its hint.
pub proof fn law_error_without_a_place(message: Seq<char>, raw: RawError, sql: Seq<char>)
    requires
        raw.primary matches Some(l) ==> label_position(l.span, sql) is None,
        forall|i: int|
            0 <= i < raw.secondaries@.len() ==> label_position(
                (#[trigger] raw.secondaries@[i]).span,
                sql,
            ) is None,
    ensures
        rendered(message, raw, sql) == message + "\n"@ + match raw.hint {
            Some(h) => "  help: "@ + h@ + "\n"@,
            None => Seq::empty(),
        },
{
    lemma_no_markers(raw.secondaries@, sql);
}

proof fn lemma_no_markers(labels: Seq<Label>, sql: Seq<char>)
    requires
        forall|i: int|
            0 <= i < labels.len() ==> label_position((#[trigger] labels[i]).span, sql) is None,
    ensures
        secondary_markers(labels, sql).len() == 0,
    decreases labels.len(),
{
    if labels.len() > 0 {
        assert(labels[labels.len() - 1] == labels.last());
        lemma_no_markers(labels.drop_last(), sql);
    }
}

} // verus!

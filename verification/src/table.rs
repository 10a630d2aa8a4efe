//! Normalization of GitHub-style pipe tables before markdown parsing.
//!
//! Model output often carries tables with ragged spacing, repeated header rows, or pipes inside
//! inline code spans. These functions rewrite such blocks into a canonical form that the markdown
//! parser recognizes as a table, leaving every other line untouched.
use vstd::prelude::*;
use crate::text::{
    chars_eq, lines_of, split_lines,     collapse_ws, collapse_ws_chars, count_char, count_char_in, extend_chars, join, join_chars,
    repeat_char,     chars_of, contains_char, slice_range, str_views, string_from_chars, string_views, trim_chars,
    trimmed, vec_views,
};

verus! {

/// Character that stands in for a pipe inside an inline code span of a table cell.
pub const TABLE_PIPE_SENTINEL: char = '\u{E000}';

/// Length of the run of backticks that starts at `i`.
pub open spec fn tick_run(s: Seq<char>, i: int) -> nat
    decreases s.len() - i,
{
    if 0 <= i < s.len() && s[i] == '`' {
        1 + tick_run(s, i + 1)
    } else {
        0
    }
}

pub proof fn lemma_tick_run_bound(s: Seq<char>, i: int)
    requires
        0 <= i <= s.len(),
    ensures
        i + tick_run(s, i) <= s.len(),
        forall|k: int| i <= k < i + tick_run(s, i) ==> #[trigger] s[k] == '`',
    decreases s.len() - i,
{
    if i < s.len() && s[i] == '`' {
        lemma_tick_run_bound(s, i + 1);
    }
}

/// Code-span state after a run of `n` backticks: a run as long as the opening run closes the
/// span, any run opens a span when none is open, and other runs change nothing.
pub open spec fn after_ticks(open: Option<nat>, n: nat) -> Option<nat> {
    match open {
        Some(m) => if m == n {
            None
        } else {
            Some(m)
        },
        None => Some(n),
    }
}

/// The pipes of `s` at or after `i` that are not escaped by a backslash, each with its position
/// and whether it lies inside an inline code span, when the scan starts in state `open`.
pub open spec fn pipes_from(s: Seq<char>, i: int, open: Option<nat>) -> Seq<(int, bool)>
    decreases s.len() - i,
{
    if i < 0 || i >= s.len() {
        Seq::empty()
    } else if s[i] == '\\' {
        pipes_from(s, if i + 1 < s.len() { i + 2 } else { i + 1 }, open)
    } else if s[i] == '`' {
        proof {
            lemma_tick_run_bound(s, i);
        }
        pipes_from(s, i + tick_run(s, i), after_ticks(open, tick_run(s, i)))
    } else if s[i] == '|' {
        seq![(i, open is Some)] + pipes_from(s, i + 1, open)
    } else {
        pipes_from(s, i + 1, open)
    }
}

/// The unescaped pipes of `s`, scanned from its start.
pub open spec fn pipes(s: Seq<char>) -> Seq<(int, bool)> {
    pipes_from(s, 0, None)
}

/// Positions of the pipes that separate cells: those outside code spans.
pub open spec fn separators(p: Seq<(int, bool)>) -> Seq<int>
    decreases p.len(),
{
    if p.len() == 0 {
        Seq::empty()
    } else if !p[0].1 {
        seq![p[0].0] + separators(p.drop_first())
    } else {
        separators(p.drop_first())
    }
}

/// The pieces of `s` from `start` on, cut at the positions `ps` (the cut characters dropped).
pub open spec fn split_at_positions(s: Seq<char>, ps: Seq<int>, start: int) -> Seq<Seq<char>>
    decreases ps.len(),
{
    if ps.len() == 0 {
        seq![s.subrange(start, s.len() as int)]
    } else {
        seq![s.subrange(start, ps[0])] + split_at_positions(s, ps.drop_first(), ps[0] + 1)
    }
}

/// A trimmed row without one leading and one trailing border pipe.
pub open spec fn table_core(t: Seq<char>) -> Seq<char> {
    let a = if t.len() > 0 && t[0] == '|' {
        t.drop_first()
    } else {
        t
    };
    if a.len() > 0 && a.last() == '|' {
        a.drop_last()
    } else {
        a
    }
}

/// The cells of a pipe-table row, or `None` when the line is not a row of at least two cells.
pub open spec fn split_cells(line: Seq<char>) -> Option<Seq<Seq<char>>> {
    let t = trimmed(line);
    if t.len() == 0 || !t.contains('|') {
        None
    } else {
        let core = table_core(t);
        let cells = split_at_positions(core, separators(pipes(core)), 0);
        if cells.len() < 2 {
            None
        } else {
            Some(cells)
        }
    }
}

/// The cells of a row, or no cells when the line is not a row.
pub open spec fn cells_or_empty(line: Seq<char>) -> Seq<Seq<char>> {
    match split_cells(line) {
        Some(c) => c,
        None => Seq::empty(),
    }
}

/// Whether position `j` of `s` holds a pipe inside an inline code span.
pub open spec fn code_pipe_at(s: Seq<char>, j: int) -> bool {
    pipes(s).contains((j, true))
}

/// `s` with every pipe inside an inline code span replaced by the sentinel, so that the
/// markdown parser does not take it for a cell boundary.
pub open spec fn protected_cell(s: Seq<char>) -> Seq<char> {
    Seq::new(s.len(), |j: int| if code_pipe_at(s, j) { TABLE_PIPE_SENTINEL } else { s[j] })
}

/// Facts about the pipe scan: positions are in range, increasing, and hold pipes; outside any
/// code span and without backticks, no pipe is inside code.
pub proof fn lemma_pipes_from(s: Seq<char>, i: int, open: Option<nat>)
    requires
        0 <= i,
    ensures
        forall|k: int|
            0 <= k < pipes_from(s, i, open).len() ==> i <= (#[trigger] pipes_from(s, i, open)[k]).0
                < s.len() && s[pipes_from(s, i, open)[k].0] == '|',
        forall|k1: int, k2: int|
            0 <= k1 < k2 < pipes_from(s, i, open).len() ==> (#[trigger] pipes_from(s, i, open)[k1]).0
                < (#[trigger] pipes_from(s, i, open)[k2]).0,
        open is None && (forall|k: int| i <= k < s.len() ==> s[k] != '`') ==> forall|k: int|
            0 <= k < pipes_from(s, i, open).len() ==> !(#[trigger] pipes_from(s, i, open)[k]).1,
    decreases s.len() - i,
{
    if i >= s.len() {
    } else if s[i] == '\\' {
        let n = if i + 1 < s.len() {
            i + 2
        } else {
            i + 1
        };
        lemma_pipes_from(s, n, open);
        assert(pipes_from(s, i, open) == pipes_from(s, n, open));
    } else if s[i] == '`' {
        lemma_tick_run_bound(s, i);
        lemma_pipes_from(s, i + tick_run(s, i), after_ticks(open, tick_run(s, i)));
        assert(pipes_from(s, i, open) == pipes_from(
            s,
            i + tick_run(s, i),
            after_ticks(open, tick_run(s, i)),
        ));
    } else if s[i] == '|' {
        lemma_pipes_from(s, i + 1, open);
        let rest = pipes_from(s, i + 1, open);
        let all = pipes_from(s, i, open);
        assert(all == seq![(i, open is Some)] + rest);
        assert forall|k: int| 0 <= k < all.len() implies i <= (#[trigger] all[k]).0 < s.len()
            && s[all[k].0] == '|' by {
            if k > 0 {
                assert(all[k] == rest[k - 1]);
            }
        }
        assert forall|k1: int, k2: int| 0 <= k1 < k2 < all.len() implies (#[trigger] all[k1]).0
            < (#[trigger] all[k2]).0 by {
            assert(all[k2] == rest[k2 - 1]);
            if k1 > 0 {
                assert(all[k1] == rest[k1 - 1]);
            }
        }
        if open is None && (forall|k: int| i <= k < s.len() ==> s[k] != '`') {
            assert forall|k: int| 0 <= k < all.len() implies !(#[trigger] all[k]).1 by {
                if k > 0 {
                    assert(all[k] == rest[k - 1]);
                }
            }
        }
    } else {
        lemma_pipes_from(s, i + 1, open);
        assert(pipes_from(s, i, open) == pipes_from(s, i + 1, open));
    }
}

/// The scan state as a mathematical value.
pub open spec fn open_view(o: Option<usize>) -> Option<nat> {
    match o {
        Some(n) => Some(n as nat),
        None => None,
    }
}

/// Code-span state after a run of `n` backticks.
fn after_tick_run(open: Option<usize>, n: usize) -> (r: Option<usize>)
    ensures
        open_view(r) == after_ticks(open_view(open), n as nat),
{
    match open {
        Some(m) => if m == n {
            None
        } else {
            Some(m)
        },
        None => Some(n),
    }
}

/// Counts the backticks that start at `i`; returns the index just past them and their number.
fn scan_tick_run(s: &[char], i: usize) -> (r: (usize, usize))
    requires
        i < s@.len(),
        s@[i as int] == '`',
    ensures
        r.1 == tick_run(s@, i as int),
        r.0 == i + r.1,
        r.0 <= s@.len(),
        r.1 >= 1,
{
    let mut j = i;
    while j < s.len() && s[j] == '`'
        invariant
            i <= j <= s@.len(),
            tick_run(s@, i as int) == (j - i) + tick_run(s@, j as int),
        decreases s@.len() - j,
    {
        j += 1;
    }
    (j, j - i)
}

/// Cuts `core` at its cell separators.
fn split_core(core: &[char]) -> (cells: Vec<Vec<char>>)
    ensures
        vec_views(cells@) == split_at_positions(core@, separators(pipes(core@)), 0),
{
    let ghost full = split_at_positions(core@, separators(pipes(core@)), 0);
    let mut cells: Vec<Vec<char>> = Vec::new();
    let mut cell_start: usize = 0;
    let mut idx: usize = 0;
    let mut open: Option<usize> = None;
    while idx < core.len()
        invariant
            cell_start <= idx <= core@.len(),
            full == vec_views(cells@) + split_at_positions(
                core@,
                separators(pipes_from(core@, idx as int, open_view(open))),
                cell_start as int,
            ),
        decreases core@.len() - idx,
    {
        let ch = core[idx];
        if ch == '\\' {
            idx += 1;
            if idx < core.len() {
                idx += 1;
            }
        } else if ch == '`' {
            let (next, count) = scan_tick_run(core, idx);
            open = after_tick_run(open, count);
            idx = next;
        } else if ch == '|' && open.is_none() {
            let ghost before = vec_views(cells@);
            let ghost rest = pipes_from(core@, idx + 1, open_view(open));
            assert(pipes_from(core@, idx as int, open_view(open)) == seq![(idx as int, false)]
                + rest);
            assert((seq![(idx as int, false)] + rest).drop_first() == rest);
            let piece = slice_range(core, cell_start, idx);
            cells.push(piece);
            idx += 1;
            cell_start = idx;
            proof {
                let ps = separators(rest);
                assert(separators(seq![((idx - 1) as int, false)] + rest) == seq![
                    (idx - 1) as int,
                ] + ps);
                assert((seq![(idx - 1) as int] + ps).drop_first() == ps);
                assert(vec_views(cells@) == before.push(piece@));
                assert(full == vec_views(cells@) + split_at_positions(
                    core@,
                    ps,
                    cell_start as int,
                ));
            }
        } else if ch == '|' {
            let ghost rest = pipes_from(core@, idx + 1, open_view(open));
            assert(pipes_from(core@, idx as int, open_view(open)) == seq![(idx as int, true)]
                + rest);
            assert((seq![(idx as int, true)] + rest).drop_first() == rest);
            idx += 1;
        } else {
            idx += 1;
        }
    }
    let last = slice_range(core, cell_start, core.len());
    let ghost before = vec_views(cells@);
    cells.push(last);
    assert(vec_views(cells@) == before.push(last@));
    cells
}

/// Splits a pipe-table row into raw cells (internal form of [`split_pipe_table_cells`]).
pub fn split_cells_chars(line: &[char]) -> (r: Option<Vec<Vec<char>>>)
    ensures
        match r {
            Some(v) => split_cells(line@) == Some(vec_views(v@)),
            None => split_cells(line@) is None,
        },
{
    let t = trim_chars(line);
    if t.len() == 0 || !contains_char(t.as_slice(), '|') {
        return None;
    }
    let mut lo: usize = 0;
    let mut hi: usize = t.len();
    if t[0] == '|' {
        lo = 1;
    }
    if lo < hi && t[hi - 1] == '|' {
        hi -= 1;
    }
    let core = slice_range(t.as_slice(), lo, hi);
    proof {
        let a = if t@[0] == '|' { t@.drop_first() } else { t@ };
        assert(a == t@.subrange(lo as int, t@.len() as int));
        assert(core@ == table_core(t@));
    }
    let cells = split_core(core.as_slice());
    if cells.len() < 2 {
        return None;
    }
    Some(cells)
}

/// Splits a pipe-table row into its raw cells, honoring backslash escapes and inline code
/// spans; `None` when the line is not a row of at least two cells.
pub fn split_pipe_table_cells(line: &str) -> (r: Option<Vec<String>>)
    ensures
        match r {
            Some(v) => split_cells(line@) == Some(string_views(v@)),
            None => split_cells(line@) is None,
        },
{
    let chars = chars_of(line);
    match split_cells_chars(chars.as_slice()) {
        None => None,
        Some(cells) => Some(strings_of(&cells)),
    }
}

/// The strings made of each character vector.
pub fn strings_of(v: &Vec<Vec<char>>) -> (r: Vec<String>)
    ensures
        string_views(r@) == vec_views(v@),
{
    let mut r: Vec<String> = Vec::new();
    let mut i: usize = 0;
    while i < v.len()
        invariant
            i <= v@.len(),
            string_views(r@) == vec_views(v@).subrange(0, i as int),
        decreases v@.len() - i,
    {
        let ghost before = string_views(r@);
        r.push(string_from_chars(v[i].as_slice()));
        i += 1;
        assert(string_views(r@) == before.push(v@[i - 1]@));
        assert(vec_views(v@).subrange(0, i as int) == vec_views(v@).subrange(0, i - 1).push(
            v@[i - 1]@,
        ));
    }
    assert(vec_views(v@).subrange(0, v@.len() as int) == vec_views(v@));
    r
}


/// The cell with pipes inside code spans protected (internal form of
/// [`protect_table_cell_for_parser`]).
pub fn protect_cell_chars(cell: &[char]) -> (r: Vec<char>)
    ensures
        r@ == protected_cell(cell@),
{
    proof {
        lemma_pipes_from(cell@, 0, None);
    }
    if !contains_char(cell, '|') || !contains_char(cell, '`') {
        proof {
            let p = pipes(cell@);
            assert forall|j: int| 0 <= j < cell@.len() implies !code_pipe_at(cell@, j) by {
                if p.contains((j, true)) {
                    let k = choose|k: int| 0 <= k < p.len() && p[k] == (j, true);
                    assert(p[k].1);
                    if !cell@.contains('|') {
                        assert(cell@[p[k].0] == '|');
                    }
                }
            }
            assert(protected_cell(cell@) =~= cell@);
        }
        return slice_range(cell, 0, cell.len());
    }
    let mut out: Vec<char> = Vec::new();
    let mut idx: usize = 0;
    let mut open: Option<usize> = None;
    let ghost mut seen: Seq<(int, bool)> = Seq::empty();
    while idx < cell.len()
        invariant
            idx <= cell@.len(),
            pipes(cell@) == seen + pipes_from(cell@, idx as int, open_view(open)),
            forall|k: int| 0 <= k < seen.len() ==> (#[trigger] seen[k]).0 < idx,
            out@.len() == idx,
            forall|j: int|
                0 <= j < idx ==> #[trigger] out@[j] == if seen.contains((j, true)) {
                    TABLE_PIPE_SENTINEL
                } else {
                    cell@[j]
                },
        decreases cell@.len() - idx,
    {
        let ch = cell[idx];
        let ghost old_out = out@;
        if ch == '\\' {
            let ghost start = idx;
            out.push(ch);
            idx += 1;
            if idx < cell.len() {
                out.push(cell[idx]);
                idx += 1;
            }
            assert(pipes_from(cell@, start as int, open_view(open)) == pipes_from(
                cell@,
                idx as int,
                open_view(open),
            ));
            assert forall|j: int| 0 <= j < idx implies #[trigger] out@[j] == if seen.contains(
                (j, true),
            ) {
                TABLE_PIPE_SENTINEL
            } else {
                cell@[j]
            } by {
                if j >= start {
                    if seen.contains((j, true)) {
                        let k = choose|k: int| 0 <= k < seen.len() && seen[k] == (j, true);
                        assert(seen[k].0 < start);
                    }
                } else {
                    assert(out@[j] == old_out[j]);
                }
            }
        } else if ch == '`' {
            let ghost start = idx;
            let (next, count) = scan_tick_run(cell, idx);
            proof {
                lemma_tick_run_bound(cell@, start as int);
            }
            while idx < next
                invariant
                    start <= idx <= next <= cell@.len(),
                    out@.len() == idx,
                    forall|k: int| start <= k < next ==> cell@[k] == '`',
                    forall|j: int| 0 <= j < start ==> out@[j] == old_out[j],
                    forall|j: int| start <= j < idx ==> #[trigger] out@[j] == cell@[j],
                decreases next - idx,
            {
                out.push(cell[idx]);
                idx += 1;
            }
            assert(pipes_from(cell@, start as int, open_view(open)) == pipes_from(
                cell@,
                next as int,
                after_ticks(open_view(open), count as nat),
            ));
            open = after_tick_run(open, count);
            assert forall|j: int| 0 <= j < idx implies #[trigger] out@[j] == if seen.contains(
                (j, true),
            ) {
                TABLE_PIPE_SENTINEL
            } else {
                cell@[j]
            } by {
                if j >= start {
                    if seen.contains((j, true)) {
                        let k = choose|k: int| 0 <= k < seen.len() && seen[k] == (j, true);
                        assert(seen[k].0 < start);
                    }
                } else {
                    assert(out@[j] == old_out[j]);
                }
            }
        } else {
            let ghost old_seen = seen;
            let ghost st = open_view(open);
            if ch == '|' {
                let ghost rest = pipes_from(cell@, idx + 1, st);
                assert(pipes_from(cell@, idx as int, st) == seq![(idx as int, st is Some)] + rest);
                proof {
                    seen = seen.push((idx as int, st is Some));
                    assert(seq![(idx as int, st is Some)] + rest == seq![(idx as int, st is Some)].add(rest));
                    assert(old_seen + (seq![(idx as int, st is Some)] + rest) == seen + rest);
                }
                if open.is_some() {
                    out.push(TABLE_PIPE_SENTINEL);
                } else {
                    out.push(ch);
                }
            } else {
                assert(pipes_from(cell@, idx as int, st) == pipes_from(cell@, idx + 1, st));
                out.push(ch);
            }
            idx += 1;
            assert forall|j: int| 0 <= j < idx implies #[trigger] out@[j] == if seen.contains(
                (j, true),
            ) {
                TABLE_PIPE_SENTINEL
            } else {
                cell@[j]
            } by {
                if j < idx - 1 {
                    assert(out@[j] == old_out[j]);
                    if seen.contains((j, true)) && !old_seen.contains((j, true)) {
                        let k = choose|k: int| 0 <= k < seen.len() && seen[k] == (j, true);
                        if k < old_seen.len() {
                            assert(old_seen[k] == seen[k]);
                        }
                    }
                    if old_seen.contains((j, true)) {
                        let k = choose|k: int| 0 <= k < old_seen.len() && old_seen[k] == (j, true);
                        assert(seen[k] == old_seen[k]);
                    }
                } else {
                    if old_seen.contains((j, true)) {
                        let k = choose|k: int| 0 <= k < old_seen.len() && old_seen[k] == (j, true);
                        assert(old_seen[k].0 < idx - 1);
                    }
                    if seen.contains((j, true)) && !old_seen.contains((j, true)) {
                        let k = choose|k: int| 0 <= k < seen.len() && seen[k] == (j, true);
                        if k < old_seen.len() {
                            assert(old_seen[k] == seen[k]);
                        }
                    }
                    if ch == '|' && open.is_some() {
                        assert(seen[seen.len() - 1] == (j, true));
                    }
                }
            }
        }
    }
    assert(pipes(cell@) == seen);
    assert(out@ =~= protected_cell(cell@));
    out
}

/// Replaces each pipe inside an inline code span of a table cell by a private-use sentinel, so
/// the markdown parser keeps the span inside one cell.
pub fn protect_table_cell_for_parser(cell: &str) -> (r: String)
    ensures
        r@ == protected_cell(cell@),
{
    let chars = chars_of(cell);
    let out = protect_cell_chars(chars.as_slice());
    string_from_chars(out.as_slice())
}


/// `s` with each sentinel turned back into the pipe it stands for.
pub open spec fn restored_pipes(s: Seq<char>) -> Seq<char> {
    s.map_values(|c: char| if c == TABLE_PIPE_SENTINEL { '|' } else { c })
}

fn restore_pipes_chars(v: &[char]) -> (r: Vec<char>)
    ensures
        r@ == restored_pipes(v@),
{
    let mut out: Vec<char> = Vec::new();
    let mut i: usize = 0;
    while i < v.len()
        invariant
            i <= v@.len(),
            out@ == restored_pipes(v@.subrange(0, i as int)),
        decreases v@.len() - i,
    {
        let c = v[i];
        out.push(if c == TABLE_PIPE_SENTINEL {
            '|'
        } else {
            c
        });
        i += 1;
        assert(out@ =~= restored_pipes(v@.subrange(0, i as int)));
    }
    assert(v@.subrange(0, v@.len() as int) =~= v@);
    out
}

/// Text bound for a table cell, with the pipes that [`protect_table_cell_for_parser`] hid
/// from the parser put back.
pub fn restore_table_pipes(text: &str) -> (r: String)
    ensures
        r@ == restored_pipes(text@),
{
    let chars = chars_of(text);
    let out = restore_pipes_chars(chars.as_slice());
    string_from_chars(out.as_slice())
}

/// The text of a finished table cell: trimmed, with its hidden pipes put back.
pub fn finish_table_cell(cell: &str) -> (r: String)
    ensures
        r@ == restored_pipes(trimmed(cell@)),
{
    let chars = chars_of(cell);
    let t = trim_chars(chars.as_slice());
    let out = restore_pipes_chars(t.as_slice());
    string_from_chars(out.as_slice())
}

/// A cell that does not itself contain the sentinel reads back exactly as written once the
/// pipes hidden from the parser are put back.
pub proof fn protected_cell_restores(s: Seq<char>)
    requires
        forall|j: int| 0 <= j < s.len() ==> s[j] != TABLE_PIPE_SENTINEL,
    ensures
        restored_pipes(protected_cell(s)) == s,
{
    lemma_pipes_from(s, 0, None);
    assert forall|j: int| 0 <= j < s.len() implies #[trigger] restored_pipes(protected_cell(s))[j]
        == s[j] by {
        if code_pipe_at(s, j) {
            let k = choose|k: int| 0 <= k < pipes(s).len() && pipes(s)[k] == (j, true);
            assert(s[pipes(s)[k].0] == '|');
        }
    }
    assert(restored_pipes(protected_cell(s)) =~= s);
}

/// Whether `line` is a row of at least two pipe-separated cells.
pub open spec fn is_table_row(line: Seq<char>) -> bool {
    split_cells(line) is Some
}

/// Whether a delimiter cell is well formed: after trimming it is nonempty and made only of
/// dashes, colons and spaces.
pub open spec fn is_delimiter_cell(cell: Seq<char>) -> bool {
    let t = trimmed(cell);
    t.len() > 0 && forall|j: int| 0 <= j < t.len() ==> (t[j] == '-' || t[j] == ':' || t[j] == ' ')
}

/// Whether `line` is a delimiter row such as `|---|:--:|`.
pub open spec fn is_table_delimiter(line: Seq<char>) -> bool {
    match split_cells(line) {
        Some(cells) => forall|k: int| 0 <= k < cells.len() ==> is_delimiter_cell(#[trigger] cells[k]),
        None => false,
    }
}

/// The cells of a row with whitespace collapsed, used to recognize repeated header rows.
pub open spec fn normalized_cells(line: Seq<char>) -> Seq<Seq<char>> {
    cells_or_empty(line).map_values(|c: Seq<char>| collapse_ws(c))
}

/// The separator written between canonical cells.
pub open spec fn cell_separator() -> Seq<char> {
    seq![' ', '|', ' ']
}

/// `| c1 | c2 | ... |` for the given cell texts.
pub open spec fn framed(cells: Seq<Seq<char>>) -> Seq<char> {
    seq!['|', ' '] + join(cells, cell_separator()) + seq![' ', '|']
}

/// A row rewritten as `| a | b |` with trimmed cells whose code-span pipes are protected.
pub open spec fn canonical_row(line: Seq<char>) -> Seq<char> {
    framed(cells_or_empty(line).map_values(|c: Seq<char>| protected_cell(trimmed(c))))
}

/// A delimiter cell rewritten as at least three dashes, keeping its alignment colons.
pub open spec fn canonical_delimiter_cell(cell: Seq<char>) -> Seq<char> {
    let t = trimmed(cell);
    let dashes = count_char(t, '-');
    let n: nat = if dashes < 3 {
        3
    } else {
        dashes
    };
    let left = if t.len() > 0 && t[0] == ':' {
        seq![':']
    } else {
        Seq::empty()
    };
    let right = if t.len() > 0 && t.last() == ':' {
        seq![':']
    } else {
        Seq::empty()
    };
    left + Seq::new(n, |_j: int| '-') + right
}

/// A delimiter row rewritten as `| --- | :---: |`.
pub open spec fn canonical_delimiter(line: Seq<char>) -> Seq<char> {
    framed(cells_or_empty(line).map_values(|c: Seq<char>| canonical_delimiter_cell(c)))
}

/// The cells of a row, or none (internal).
fn cells_or_empty_chars(line: &[char]) -> (r: Vec<Vec<char>>)
    ensures
        vec_views(r@) == cells_or_empty(line@),
{
    match split_cells_chars(line) {
        Some(c) => c,
        None => {
            let v: Vec<Vec<char>> = Vec::new();
            assert(vec_views(v@) =~= Seq::<Seq<char>>::empty());
            v
        },
    }
}

/// Whether `line` is a row of at least two pipe-separated cells.
pub fn looks_like_pipe_table_row(line: &str) -> (r: bool)
    ensures
        r == is_table_row(line@),
{
    split_pipe_table_cells(line).is_some()
}

fn is_delimiter_cell_chars(cell: &[char]) -> (r: bool)
    ensures
        r == is_delimiter_cell(cell@),
{
    let t = trim_chars(cell);
    if t.len() == 0 {
        return false;
    }
    let mut j: usize = 0;
    while j < t.len()
        invariant
            j <= t@.len(),
            t@ == trimmed(cell@),
            forall|k: int| 0 <= k < j ==> (t@[k] == '-' || t@[k] == ':' || t@[k] == ' '),
        decreases t@.len() - j,
    {
        let c = t[j];
        if !(c == '-' || c == ':' || c == ' ') {
            return false;
        }
        j += 1;
    }
    true
}

/// Internal form of [`looks_like_pipe_table_delimiter`].
pub fn is_delimiter_chars(line: &[char]) -> (r: bool)
    ensures
        r == is_table_delimiter(line@),
{
    match split_cells_chars(line) {
        None => false,
        Some(cells) => {
            let mut k: usize = 0;
            while k < cells.len()
                invariant
                    k <= cells@.len(),
                    split_cells(line@) == Some(vec_views(cells@)),
                    forall|i: int| 0 <= i < k ==> is_delimiter_cell(#[trigger] cells@[i]@),
                decreases cells@.len() - k,
            {
                if !is_delimiter_cell_chars(cells[k].as_slice()) {
                    assert(vec_views(cells@)[k as int] == cells@[k as int]@);
                    assert(!is_delimiter_cell(vec_views(cells@)[k as int]));
                    proof {
                        let cs = vec_views(cells@);
                        if is_table_delimiter(line@) {
                            match split_cells(line@) {
                                Some(c2) => {
                                    assert(c2 == cs);
                                    assert(is_delimiter_cell(c2[k as int]));
                                },
                                None => {},
                            }
                        }
                    }
                    return false;
                }
                k += 1;
            }
            assert forall|i: int| 0 <= i < vec_views(cells@).len() implies is_delimiter_cell(
                #[trigger] vec_views(cells@)[i],
            ) by {
                assert(vec_views(cells@)[i] == cells@[i]@);
            }
            true
        },
    }
}

/// Whether `line` is a delimiter row such as `|---|:--:|`.
pub fn looks_like_pipe_table_delimiter(line: &str) -> (r: bool)
    ensures
        r == is_table_delimiter(line@),
{
    let chars = chars_of(line);
    is_delimiter_chars(chars.as_slice())
}

/// Internal form of [`normalize_pipe_table_cells`].
pub fn normalized_cells_chars(line: &[char]) -> (r: Vec<Vec<char>>)
    ensures
        vec_views(r@) == normalized_cells(line@),
{
    let cells = cells_or_empty_chars(line);
    let mut r: Vec<Vec<char>> = Vec::new();
    let mut k: usize = 0;
    while k < cells.len()
        invariant
            k <= cells@.len(),
            vec_views(cells@) == cells_or_empty(line@),
            r@.len() == k,
            forall|i: int| 0 <= i < k ==> #[trigger] r@[i]@ == ({ let c = cells@[i]@; collapse_ws(c) }),
        decreases cells@.len() - k,
    {
        r.push(collapse_ws_chars(cells[k].as_slice()));
        k += 1;
    }
    assert(vec_views(r@) =~= vec_views(cells@).map_values(|c: Seq<char>| collapse_ws(c)));
    r
}

/// The cells of a row with internal whitespace collapsed to single spaces (no cells when the
/// line is not a row).
pub fn normalize_pipe_table_cells(line: &str) -> (r: Vec<String>)
    ensures
        string_views(r@) == normalized_cells(line@),
{
    let chars = chars_of(line);
    let cells = normalized_cells_chars(chars.as_slice());
    strings_of(&cells)
}

/// `| ` + parts joined by ` | ` + ` |`.
fn frame_cells(parts: &Vec<Vec<char>>) -> (r: Vec<char>)
    ensures
        r@ == framed(vec_views(parts@)),
{
    let mut r: Vec<char> = Vec::new();
    r.push('|');
    r.push(' ');
    let sep = vec![' ', '|', ' '];
    assert(sep@ =~= cell_separator());
    let body = join_chars(parts, sep.as_slice());
    extend_chars(&mut r, body.as_slice());
    r.push(' ');
    r.push('|');
    assert(r@ =~= framed(vec_views(parts@)));
    r
}

/// Internal form of [`canonicalize_pipe_table_row`].
pub fn canonical_row_chars(line: &[char]) -> (r: Vec<char>)
    ensures
        r@ == canonical_row(line@),
{
    let cells = cells_or_empty_chars(line);
    let mut parts: Vec<Vec<char>> = Vec::new();
    let mut k: usize = 0;
    while k < cells.len()
        invariant
            k <= cells@.len(),
            vec_views(cells@) == cells_or_empty(line@),
            parts@.len() == k,
            forall|i: int| 0 <= i < k ==> #[trigger] parts@[i]@ == ({ let c = cells@[i]@; protected_cell(trimmed(c)) }),
        decreases cells@.len() - k,
    {
        let t = trim_chars(cells[k].as_slice());
        parts.push(protect_cell_chars(t.as_slice()));
        k += 1;
    }
    assert(vec_views(parts@) =~= vec_views(cells@).map_values(|c: Seq<char>| protected_cell(trimmed(c))));
    frame_cells(&parts)
}

/// Rewrites a table row as `| a | b |`: trimmed cells, single-space padding, and pipes inside
/// code spans protected.
pub fn canonicalize_pipe_table_row(line: &str) -> (r: String)
    ensures
        r@ == canonical_row(line@),
{
    let chars = chars_of(line);
    let out = canonical_row_chars(chars.as_slice());
    string_from_chars(out.as_slice())
}

fn canonical_delimiter_cell_chars(cell: &[char]) -> (r: Vec<char>)
    ensures
        r@ == canonical_delimiter_cell(cell@),
{
    let t = trim_chars(cell);
    let left = t.len() > 0 && t[0] == ':';
    let right = t.len() > 0 && t[t.len() - 1] == ':';
    let dashes = count_char_in(t.as_slice(), '-');
    let n = if dashes < 3 {
        3
    } else {
        dashes
    };
    let mut r: Vec<char> = Vec::new();
    if left {
        r.push(':');
    }
    let run = repeat_char('-', n);
    extend_chars(&mut r, run.as_slice());
    if right {
        r.push(':');
    }
    assert(r@ =~= canonical_delimiter_cell(cell@));
    r
}

/// Internal form of [`canonicalize_pipe_table_delimiter`].
pub fn canonical_delimiter_chars(line: &[char]) -> (r: Vec<char>)
    ensures
        r@ == canonical_delimiter(line@),
{
    let cells = cells_or_empty_chars(line);
    let mut parts: Vec<Vec<char>> = Vec::new();
    let mut k: usize = 0;
    while k < cells.len()
        invariant
            k <= cells@.len(),
            vec_views(cells@) == cells_or_empty(line@),
            parts@.len() == k,
            forall|i: int| 0 <= i < k ==> #[trigger] parts@[i]@ == ({ let c = cells@[i]@; canonical_delimiter_cell(c) }),
        decreases cells@.len() - k,
    {
        parts.push(canonical_delimiter_cell_chars(cells[k].as_slice()));
        k += 1;
    }
    assert(vec_views(parts@) =~= vec_views(cells@).map_values(|c: Seq<char>| canonical_delimiter_cell(c)));
    frame_cells(&parts)
}

/// Rewrites a delimiter row with at least three dashes per cell, keeping alignment colons.
pub fn canonicalize_pipe_table_delimiter(line: &str) -> (r: String)
    ensures
        r@ == canonical_delimiter(line@),
{
    let chars = chars_of(line);
    let out = canonical_delimiter_chars(chars.as_slice());
    string_from_chars(out.as_slice())
}


/// The normalized header cells when line `start` can open a table: a nonblank row of at least
/// two cells that is not itself a delimiter row.
pub open spec fn header_cells_of(lines: Seq<Seq<char>>, start: int) -> Option<Seq<Seq<char>>> {
    if 0 <= start < lines.len() {
        let h = trimmed(lines[start]);
        if h.len() == 0 || is_table_delimiter(h) || !is_table_row(h) {
            None
        } else {
            let hc = normalized_cells(h);
            if hc.len() < 2 {
                None
            } else {
                Some(hc)
            }
        }
    } else {
        None
    }
}

/// Where the delimiter row of a table with header cells `hc` is, scanning from `i`: blank
/// lines and repeated copies of the header are passed over, and the first other line must be
/// a delimiter row.
pub open spec fn find_delimiter(lines: Seq<Seq<char>>, i: int, hc: Seq<Seq<char>>) -> Option<int>
    decreases lines.len() - i,
{
    if i < 0 || i >= lines.len() {
        None
    } else {
        let t = trimmed(lines[i]);
        if t.len() == 0 {
            find_delimiter(lines, i + 1, hc)
        } else if is_table_delimiter(t) {
            Some(i)
        } else if normalized_cells(t) == hc {
            find_delimiter(lines, i + 1, hc)
        } else {
            None
        }
    }
}

/// The body of a table from line `i`: the index just past it and its canonical rows. Blank
/// lines are dropped; the body ends before the next delimiter row or non-row line.
pub open spec fn body_rows(lines: Seq<Seq<char>>, i: int) -> (int, Seq<Seq<char>>)
    decreases lines.len() - i,
{
    if i < 0 || i >= lines.len() {
        (i, Seq::empty())
    } else {
        let t = trimmed(lines[i]);
        if t.len() == 0 {
            body_rows(lines, i + 1)
        } else if is_table_delimiter(t) {
            (i, Seq::empty())
        } else if is_table_row(t) {
            let rest = body_rows(lines, i + 1);
            (rest.0, seq![canonical_row(t)] + rest.1)
        } else {
            (i, Seq::empty())
        }
    }
}

/// The table that starts at line `start`, if any: the index of the first line after it and its
/// canonical lines (header, delimiter, then body rows).
pub open spec fn table_block(lines: Seq<Seq<char>>, start: int) -> Option<(int, Seq<Seq<char>>)> {
    match header_cells_of(lines, start) {
        None => None,
        Some(hc) => match find_delimiter(lines, start + 1, hc) {
            None => None,
            Some(d) => {
                let body = body_rows(lines, d + 1);
                Some(
                    (
                        body.0,
                        seq![
                            canonical_row(trimmed(lines[start])),
                            canonical_delimiter(trimmed(lines[d])),
                        ] + body.1,
                    ),
                )
            },
        },
    }
}

/// From line `i`, whether copies of the header (`saw` says whether one was already seen),
/// possibly with blank lines between them, lead up to a delimiter row.
pub open spec fn duplicate_header_run(
    lines: Seq<Seq<char>>,
    i: int,
    hc: Seq<Seq<char>>,
    saw: bool,
) -> bool
    decreases lines.len() - i,
{
    if i < 0 || i >= lines.len() {
        false
    } else {
        let t = trimmed(lines[i]);
        if t.len() == 0 {
            duplicate_header_run(lines, i + 1, hc, saw)
        } else if normalized_cells(t) == hc {
            duplicate_header_run(lines, i + 1, hc, true)
        } else {
            saw && is_table_delimiter(t)
        }
    }
}

/// Whether line `start` is a header row that is repeated before its delimiter row, so that
/// this copy can be dropped.
pub open spec fn duplicate_header_prefix(lines: Seq<Seq<char>>, start: int) -> bool {
    match header_cells_of(lines, start) {
        None => false,
        Some(hc) => duplicate_header_run(lines, start + 1, hc, false),
    }
}

pub proof fn lemma_find_delimiter(lines: Seq<Seq<char>>, i: int, hc: Seq<Seq<char>>)
    requires
        0 <= i,
    ensures
        find_delimiter(lines, i, hc) matches Some(d) ==> i <= d < lines.len(),
    decreases lines.len() - i,
{
    if i < lines.len() {
        lemma_find_delimiter(lines, i + 1, hc);
    }
}

pub proof fn lemma_body_rows(lines: Seq<Seq<char>>, i: int)
    requires
        0 <= i <= lines.len(),
    ensures
        i <= body_rows(lines, i).0 <= lines.len(),
    decreases lines.len() - i,
{
    if i < lines.len() {
        lemma_body_rows(lines, i + 1);
    }
}

/// A table found at `start` ends after `start`, within the lines.
pub proof fn lemma_table_block_advances(lines: Seq<Seq<char>>, start: int)
    requires
        0 <= start,
    ensures
        table_block(lines, start) matches Some(b) ==> start < b.0 <= lines.len(),
{
    if let Some(hc) = header_cells_of(lines, start) {
        lemma_find_delimiter(lines, start + 1, hc);
        if let Some(d) = find_delimiter(lines, start + 1, hc) {
            lemma_body_rows(lines, d + 1);
        }
    }
}

/// The lines from `idx` on after table normalization: each table is replaced by its canonical
/// lines, a header row repeated before its delimiter is dropped, other lines are kept.
pub open spec fn normalized_lines(lines: Seq<Seq<char>>, idx: int) -> Seq<Seq<char>>
    decreases lines.len() - idx,
{
    if idx < 0 || idx >= lines.len() {
        Seq::empty()
    } else {
        proof {
            lemma_table_block_advances(lines, idx);
        }
        match table_block(lines, idx) {
            Some(b) => b.1 + normalized_lines(lines, b.0),
            None => if duplicate_header_prefix(lines, idx) {
                normalized_lines(lines, idx + 1)
            } else {
                seq![lines[idx]] + normalized_lines(lines, idx + 1)
            },
        }
    }
}

/// The markdown text with every pipe table rewritten into canonical form.
pub open spec fn normalized_table_text(input: Seq<char>) -> Seq<char> {
    let body = join(normalized_lines(lines_of(input), 0), seq!['\n']);
    if input.len() > 0 && input.last() == '\n' {
        body.push('\n')
    } else {
        body
    }
}

/// Whether two lists of cells are equal.
fn cells_eq(a: &Vec<Vec<char>>, b: &Vec<Vec<char>>) -> (r: bool)
    ensures
        r == (vec_views(a@) == vec_views(b@)),
{
    if a.len() != b.len() {
        return false;
    }
    let mut k: usize = 0;
    while k < a.len()
        invariant
            a@.len() == b@.len(),
            k <= a@.len(),
            forall|i: int| 0 <= i < k ==> a@[i]@ == b@[i]@,
        decreases a@.len() - k,
    {
        if !chars_eq(a[k].as_slice(), b[k].as_slice()) {
            assert(vec_views(a@)[k as int] != vec_views(b@)[k as int]);
            return false;
        }
        k += 1;
    }
    assert(vec_views(a@) =~= vec_views(b@));
    true
}

/// The trimmed characters of line `i`.
fn trimmed_line(lines: &[&str], i: usize) -> (r: Vec<char>)
    requires
        i < lines@.len(),
    ensures
        r@ == trimmed(str_views(lines@)[i as int]),
{
    let chars = chars_of(lines[i]);
    trim_chars(chars.as_slice())
}

/// The normalized header cells of line `start`, if it can open a table.
fn header_cells_chars(lines: &[&str], start: usize) -> (r: Option<Vec<Vec<char>>>)
    ensures
        match r {
            Some(hc) => header_cells_of(str_views(lines@), start as int) == Some(vec_views(hc@))
                && start < lines@.len(),
            None => header_cells_of(str_views(lines@), start as int) is None,
        },
{
    if start >= lines.len() {
        return None;
    }
    let header = trimmed_line(lines, start);
    if header.len() == 0 || is_delimiter_chars(header.as_slice()) || split_cells_chars(
        header.as_slice(),
    ).is_none() {
        return None;
    }
    let hc = normalized_cells_chars(header.as_slice());
    if hc.len() < 2 {
        return None;
    }
    Some(hc)
}

/// Internal form of [`normalize_pipe_table_block`].
pub fn table_block_chars(lines: &[&str], start_idx: usize) -> (r: Option<(usize, Vec<Vec<char>>)>)
    ensures
        match r {
            Some(b) => table_block(str_views(lines@), start_idx as int) == Some(
                (b.0 as int, vec_views(b.1@)),
            ),
            None => table_block(str_views(lines@), start_idx as int) is None,
        },
{
    let ghost ls = str_views(lines@);
    let hc = match header_cells_chars(lines, start_idx) {
        None => return None,
        Some(hc) => hc,
    };
    let n = lines.len();
    let mut cursor = start_idx + 1;
    let mut delimiter: Option<usize> = None;
    while cursor < lines.len() && delimiter.is_none()
        invariant
            start_idx < cursor <= lines@.len(),
            ls == str_views(lines@),
            ls.len() == lines@.len(),
            header_cells_of(ls, start_idx as int) == Some(vec_views(hc@)),
            find_delimiter(ls, start_idx + 1, vec_views(hc@)) == find_delimiter(
                ls,
                cursor as int,
                vec_views(hc@),
            ),
            delimiter matches Some(dd) ==> dd == cursor && cursor < lines@.len() && find_delimiter(
                ls,
                cursor as int,
                vec_views(hc@),
            ) == Some(cursor as int),
        decreases lines@.len() - cursor, (if delimiter is None { 1int } else { 0int }),
    {
        let t = trimmed_line(lines, cursor);
        if t.len() == 0 {
            cursor += 1;
        } else if is_delimiter_chars(t.as_slice()) {
            delimiter = Some(cursor);
        } else {
            let cells = normalized_cells_chars(t.as_slice());
            if cells_eq(&cells, &hc) {
                cursor += 1;
            } else {
                return None;
            }
        }
    }
    let d = match delimiter {
        None => return None,
        Some(d) => d,
    };
    assert(find_delimiter(ls, start_idx + 1, vec_views(hc@)) == Some(d as int));
    let header = trimmed_line(lines, start_idx);
    let delim = trimmed_line(lines, d);
    let mut out: Vec<Vec<char>> = Vec::new();
    out.push(canonical_row_chars(header.as_slice()));
    out.push(canonical_delimiter_chars(delim.as_slice()));
    let ghost head = vec_views(out@);
    let ghost mut taken: Seq<Seq<char>> = Seq::empty();
    cursor = d + 1;
    proof {
        lemma_body_rows(ls, cursor as int);
    }
    let mut stop = false;
    while cursor < lines.len() && !stop
        invariant
            d < cursor <= lines@.len(),
            stop ==> body_rows(ls, cursor as int) == (cursor as int, Seq::<Seq<char>>::empty()),
            ls == str_views(lines@),
            ls.len() == lines@.len(),
            vec_views(out@) == head + taken,
            body_rows(ls, d + 1) == (
                body_rows(ls, cursor as int).0,
                taken + body_rows(ls, cursor as int).1,
            ),
        decreases lines@.len() - cursor, (if stop { 0int } else { 1int }),
    {
        let t = trimmed_line(lines, cursor);
        if t.len() == 0 {
            cursor += 1;
        } else if is_delimiter_chars(t.as_slice()) {
            stop = true;
        } else if split_cells_chars(t.as_slice()).is_some() {
            let row = canonical_row_chars(t.as_slice());
            let ghost before = vec_views(out@);
            let ghost rest = body_rows(ls, cursor + 1);
            assert(body_rows(ls, cursor as int) == (rest.0, seq![row@] + rest.1));
            out.push(row);
            proof {
                assert(vec_views(out@) == before.push(row@));
                assert(taken + (seq![row@] + rest.1) == taken.push(row@) + rest.1);
                taken = taken.push(row@);
            }
            cursor += 1;
        } else {
            stop = true;
        }
    }
    proof {
        assert(body_rows(ls, cursor as int).1 =~= Seq::<Seq<char>>::empty());
        assert(taken + Seq::<Seq<char>>::empty() =~= taken);
    }
    Some((cursor, out))
}

/// Finds the pipe table that starts at line `start_idx` and returns the index of the first
/// line after it together with its canonical lines, or `None` when no table starts there.
pub fn normalize_pipe_table_block(lines: &[&str], start_idx: usize) -> (r: Option<(usize, Vec<String>)>)
    ensures
        match r {
            Some(b) => table_block(str_views(lines@), start_idx as int) == Some(
                (b.0 as int, string_views(b.1@)),
            ),
            None => table_block(str_views(lines@), start_idx as int) is None,
        },
{
    match table_block_chars(lines, start_idx) {
        None => None,
        Some((next, rows)) => Some((next, strings_of(&rows))),
    }
}

/// Whether line `start_idx` is a header row that is repeated before its delimiter row.
pub fn has_duplicate_table_header_prefix(lines: &[&str], start_idx: usize) -> (r: bool)
    ensures
        r == duplicate_header_prefix(str_views(lines@), start_idx as int),
{
    let ghost ls = str_views(lines@);
    let hc = match header_cells_chars(lines, start_idx) {
        None => return false,
        Some(hc) => hc,
    };
    let n = lines.len();
    let mut cursor = start_idx + 1;
    let mut saw_duplicate_header = false;
    while cursor < lines.len()
        invariant
            start_idx < cursor <= lines@.len(),
            ls == str_views(lines@),
            ls.len() == lines@.len(),
            duplicate_header_prefix(ls, start_idx as int) == duplicate_header_run(
                ls,
                cursor as int,
                vec_views(hc@),
                saw_duplicate_header,
            ),
        decreases lines@.len() - cursor,
    {
        let t = trimmed_line(lines, cursor);
        if t.len() == 0 {
            cursor += 1;
        } else {
            let cells = normalized_cells_chars(t.as_slice());
            if cells_eq(&cells, &hc) {
                saw_duplicate_header = true;
                cursor += 1;
            } else {
                return saw_duplicate_header && is_delimiter_chars(t.as_slice());
            }
        }
    }
    false
}


/// Appends every vector of `src` to `dst`.
fn append_all(dst: &mut Vec<Vec<char>>, src: Vec<Vec<char>>)
    ensures
        vec_views(final(dst)@) == vec_views(old(dst)@) + vec_views(src@),
{
    let mut src = src;
    let ghost s0 = vec_views(src@);
    let ghost d0 = vec_views(dst@);
    dst.append(&mut src);
    assert(vec_views(dst@) =~= d0 + s0);
}

/// Rewrites every pipe table of a markdown text into canonical form (see [`normalized_lines`]):
/// tables become `| a | b |` rows under a `| --- |` delimiter, header rows repeated before the
/// delimiter are dropped, and all other lines are kept as they are.
pub fn normalize_pipe_table_spacing(input: &str) -> (r: String)
    ensures
        r@ == normalized_table_text(input@),
{
    let lines = split_lines(input);
    let ghost ls = str_views(lines@);
    let mut out: Vec<Vec<char>> = Vec::new();
    let mut idx: usize = 0;
    while idx < lines.len()
        invariant
            idx <= lines@.len(),
            ls == str_views(lines@),
            ls == lines_of(input@),
            normalized_lines(ls, 0) == vec_views(out@) + normalized_lines(ls, idx as int),
        decreases lines@.len() - idx,
    {
        proof {
            lemma_table_block_advances(ls, idx as int);
        }
        let ghost before = vec_views(out@);
        match table_block_chars(lines.as_slice(), idx) {
            Some((next, rows)) => {
                let ghost rv = vec_views(rows@);
                append_all(&mut out, rows);
                assert(normalized_lines(ls, idx as int) == rv + normalized_lines(ls, next as int));
                assert(before + (rv + normalized_lines(ls, next as int)) == (before + rv)
                    + normalized_lines(ls, next as int));
                idx = next;
            },
            None => {
                if has_duplicate_table_header_prefix(lines.as_slice(), idx) {
                    assert(normalized_lines(ls, idx as int) == normalized_lines(ls, idx + 1));
                    idx += 1;
                } else {
                    let line = chars_of(lines[idx]);
                    assert(normalized_lines(ls, idx as int) == seq![line@] + normalized_lines(
                        ls,
                        idx + 1,
                    ));
                    out.push(line);
                    assert(vec_views(out@) == before.push(line@));
                    assert(before + (seq![line@] + normalized_lines(ls, idx + 1)) == before.push(
                        line@,
                    ) + normalized_lines(ls, idx + 1));
                    idx += 1;
                }
            },
        }
    }
    assert(normalized_lines(ls, idx as int) =~= Seq::<Seq<char>>::empty());
    assert(vec_views(out@) + Seq::<Seq<char>>::empty() =~= vec_views(out@));
    let newline = vec!['\n'];
    let mut joined = join_chars(&out, newline.as_slice());
    assert(newline@ =~= seq!['\n']);
    let chars = chars_of(input);
    if chars.len() > 0 && chars[chars.len() - 1] == '\n' {
        joined.push('\n');
    }
    string_from_chars(joined.as_slice())
}

/// Whether `s` holds no `c`.
pub open spec fn lacks(s: Seq<char>, c: char) -> bool {
    forall|i: int| 0 <= i < s.len() ==> s[i] != c
}

pub proof fn lemma_join_cons(a: Seq<char>, rest: Seq<Seq<char>>, sep: Seq<char>)
    requires
        rest.len() > 0,
    ensures
        crate::text::join(seq![a] + rest, sep) == a + sep + crate::text::join(rest, sep),
    decreases rest.len(),
{
    let all = seq![a] + rest;
    if rest.len() == 1 {
        assert(all.drop_last() =~= seq![a]);
        assert(all.last() == rest[0]);
        assert(crate::text::join(seq![a], sep) == a);
        assert(crate::text::join(rest, sep) == rest[0]);
        assert(crate::text::join(all, sep) == crate::text::join(all.drop_last(), sep) + sep
            + all.last());
    } else {
        assert(all.drop_last() =~= seq![a] + rest.drop_last());
        lemma_join_cons(a, rest.drop_last(), sep);
        assert(crate::text::join(all, sep) == crate::text::join(all.drop_last(), sep) + sep
            + all.last());
        assert(crate::text::join(rest, sep) == crate::text::join(rest.drop_last(), sep) + sep
            + rest.last());
        assert(a + sep + crate::text::join(rest.drop_last(), sep) + sep + rest.last() =~= a + sep + (
        crate::text::join(rest.drop_last(), sep) + sep + rest.last()));
    }
}

/// Joining the lines of a text without carriage returns by newlines gives the text back,
/// less one final newline.
pub proof fn lemma_lines_join(s: Seq<char>, i: int)
    requires
        0 <= i <= s.len(),
        lacks(s, '\r'),
    ensures
        crate::text::join(crate::text::lines_from(s, i), seq!['\n']) == s.subrange(
            i,
            if i < s.len() && s.last() == '\n' {
                s.len() - 1
            } else {
                s.len() as int
            },
        ),
    decreases s.len() - i,
{
    if i < s.len() {
        let e = crate::text::next_newline(s, i);
        crate::text::lemma_next_newline(s, i);
        if e >= s.len() {
            assert(s[s.len() - 1] != '\n');
        } else {
            let line = s.subrange(i, e);
            assert(crate::text::strip_cr(line) == line) by {
                if line.len() > 0 {
                    assert(line.last() == s[e - 1]);
                }
            }
            lemma_lines_join(s, e + 1);
            let rest = crate::text::lines_from(s, e + 1);
            if e + 1 == s.len() {
                assert(seq![line] + rest =~= seq![line]);
            } else {
                lemma_join_cons(line, rest, seq!['\n']);
                assert(line + seq!['\n'] + s.subrange(
                    e + 1,
                    if s.last() == '\n' {
                        s.len() - 1
                    } else {
                        s.len() as int
                    },
                ) =~= s.subrange(
                    i,
                    if s.last() == '\n' {
                        s.len() - 1
                    } else {
                        s.len() as int
                    },
                ));
            }
        }
    }
}

/// The lines of a text that holds no `c` hold no `c` either.
pub proof fn lemma_lines_lack(s: Seq<char>, i: int, c: char)
    requires
        0 <= i,
        lacks(s, c),
    ensures
        forall|k: int|
            0 <= k < crate::text::lines_from(s, i).len() ==> lacks(
                #[trigger] crate::text::lines_from(s, i)[k],
                c,
            ),
    decreases s.len() - i,
{
    if i < s.len() {
        let e = crate::text::next_newline(s, i);
        crate::text::lemma_next_newline(s, i);
        let ls = crate::text::lines_from(s, i);
        if e >= s.len() {
            assert(lacks(ls[0], c)) by {
                assert forall|j: int| 0 <= j < ls[0].len() implies ls[0][j] != c by {
                    assert(ls[0][j] == s[i + j]);
                }
            }
        } else {
            lemma_lines_lack(s, e + 1, c);
            let line = s.subrange(i, e);
            assert forall|k: int| 0 <= k < ls.len() implies lacks(#[trigger] ls[k], c) by {
                if k == 0 {
                    assert forall|j: int| 0 <= j < ls[0].len() implies ls[0][j] != c by {
                        assert(ls[0][j] == line[j]);
                        assert(line[j] == s[i + j]);
                    }
                } else {
                    assert(ls[k] == crate::text::lines_from(s, e + 1)[k - 1]);
                }
            }
        }
    }
}

/// A line without a pipe starts no table and is no repeated header.
pub proof fn lemma_pipeless_line(lines: Seq<Seq<char>>, idx: int)
    requires
        0 <= idx < lines.len(),
        lacks(lines[idx], '|'),
    ensures
        table_block(lines, idx) is None,
        !duplicate_header_prefix(lines, idx),
{
    let l = lines[idx];
    let a = crate::text::skip_ws(l, 0);
    crate::text::lemma_skip_ws_bounds(l, 0);
    crate::text::lemma_skip_ws_back_bounds(l, l.len() as int, a);
    let t = trimmed(l);
    if t.contains('|') {
        let j = choose|j: int| 0 <= j < t.len() && t[j] == '|';
        assert(t[j] == l[a + j]);
    }
    assert(split_cells(l) is None);
    assert(!is_table_row(l));
    assert(split_cells(t) is None) by {
        let tt = trimmed(t);
        crate::text::lemma_skip_ws_bounds(t, 0);
        crate::text::lemma_skip_ws_back_bounds(t, t.len() as int, crate::text::skip_ws(t, 0));
        if tt.contains('|') {
            let j = choose|j: int| 0 <= j < tt.len() && tt[j] == '|';
            assert(tt[j] == t[crate::text::skip_ws(t, 0) + j]);
        }
    }
}

pub proof fn lemma_pipeless_lines_kept(lines: Seq<Seq<char>>, idx: int)
    requires
        0 <= idx <= lines.len(),
        forall|k: int| 0 <= k < lines.len() ==> lacks(#[trigger] lines[k], '|'),
    ensures
        normalized_lines(lines, idx) == lines.subrange(idx, lines.len() as int),
    decreases lines.len() - idx,
{
    if idx < lines.len() {
        lemma_pipeless_line(lines, idx);
        lemma_pipeless_lines_kept(lines, idx + 1);
        assert(seq![lines[idx]] + lines.subrange(idx + 1, lines.len() as int) =~= lines.subrange(
            idx,
            lines.len() as int,
        ));
    }
}

/// Text without any pipe (and without carriage returns, which line splitting would drop)
/// holds no table, and table normalization gives it back unchanged.
pub proof fn text_without_tables_is_unchanged(input: Seq<char>)
    requires
        lacks(input, '|'),
        lacks(input, '\r'),
    ensures
        normalized_table_text(input) == input,
{
    let lines = lines_of(input);
    lemma_lines_lack(input, 0, '|');
    lemma_pipeless_lines_kept(lines, 0);
    assert(lines.subrange(0, lines.len() as int) =~= lines);
    lemma_lines_join(input, 0);
    if input.len() > 0 && input.last() == '\n' {
        assert(input.subrange(0, input.len() - 1).push('\n') =~= input);
    } else {
        assert(input.subrange(0, input.len() as int) =~= input);
    }
}


/// The canonical forms of the non-blank lines from `i` up to (not including) `e`.
pub open spec fn canonical_nonblank_rows(lines: Seq<Seq<char>>, i: int, e: int) -> Seq<Seq<char>>
    decreases e - i,
{
    if i < 0 || i >= e || i >= lines.len() {
        Seq::empty()
    } else if trimmed(lines[i]).len() == 0 {
        canonical_nonblank_rows(lines, i + 1, e)
    } else {
        seq![canonical_row(trimmed(lines[i]))] + canonical_nonblank_rows(lines, i + 1, e)
    }
}

proof fn lemma_body_rows_are_canonical(lines: Seq<Seq<char>>, i: int)
    requires
        0 <= i,
    ensures
        body_rows(lines, i).0 >= i,
        body_rows(lines, i).1 == canonical_nonblank_rows(lines, i, body_rows(lines, i).0),
        forall|j: int|
            i <= j < body_rows(lines, i).0 ==> j < lines.len() && (trimmed(#[trigger] lines[j]).len()
                == 0 || is_table_row(trimmed(lines[j])) && !is_table_delimiter(trimmed(lines[j]))),
    decreases lines.len() - i,
{
    if i < lines.len() {
        let t = trimmed(lines[i]);
        if t.len() == 0 || (!is_table_delimiter(t) && is_table_row(t)) {
            lemma_body_rows_are_canonical(lines, i + 1);
            let e = body_rows(lines, i + 1).0;
            assert(i < e);
            lemma_body_rows(lines, i);
            if t.len() == 0 {
                assert(canonical_nonblank_rows(lines, i, e) == canonical_nonblank_rows(lines, i + 1, e));
            } else {
                assert(canonical_nonblank_rows(lines, i, e) == seq![canonical_row(t)]
                    + canonical_nonblank_rows(lines, i + 1, e));
            }
        }
    }
}

proof fn lemma_found_delimiter_is_one(lines: Seq<Seq<char>>, i: int, hc: Seq<Seq<char>>)
    requires
        0 <= i,
    ensures
        find_delimiter(lines, i, hc) matches Some(d) ==> i <= d < lines.len() && is_table_delimiter(
            trimmed(lines[d]),
        ),
    decreases lines.len() - i,
{
    if i < lines.len() {
        lemma_found_delimiter_is_one(lines, i + 1, hc);
    }
}

/// A table block is its header row and its delimiter row, both in canonical form, followed by
/// the canonical form of every non-blank line between the delimiter and the end of the block,
/// in order; every such line is a table row.
pub proof fn table_body_rows_are_canonical(lines: Seq<Seq<char>>, start: int)
    requires
        table_block(lines, start) is Some,
    ensures
        table_block(lines, start).unwrap().1.len() >= 2,
        table_block(lines, start).unwrap().1[0] == canonical_row(trimmed(lines[start])),
        exists|d: int|
            start < d < table_block(lines, start).unwrap().0 && #[trigger] canonical_delimiter(
                trimmed(lines[d]),
            ) == table_block(lines, start).unwrap().1[1] && table_block(lines, start).unwrap().1.subrange(
                2,
                table_block(lines, start).unwrap().1.len() as int,
            ) == canonical_nonblank_rows(lines, d + 1, table_block(lines, start).unwrap().0) && forall|
                j: int,
            |
                d < j < table_block(lines, start).unwrap().0 ==> trimmed(#[trigger] lines[j]).len() == 0
                    || is_table_row(trimmed(lines[j])),
{
    let hc = header_cells_of(lines, start)->0;
    lemma_found_delimiter_is_one(lines, start + 1, hc);
    let d = find_delimiter(lines, start + 1, hc)->0;
    lemma_body_rows_are_canonical(lines, d + 1);
    let out = table_block(lines, start).unwrap().1;
    let body = body_rows(lines, d + 1);
    assert(out.subrange(2, out.len() as int) =~= body.1);
    assert(canonical_delimiter(trimmed(lines[d])) == out[1]);
}


/// A delimiter cell in canonical form keeps its alignment: it starts with a colon exactly
/// when the trimmed cell does, and ends with one exactly when the trimmed cell does; between
/// them stand only dashes, at least three and never fewer than the cell had.
pub proof fn delimiter_cells_keep_their_alignment(cell: Seq<char>)
    ensures
        ({
            let t = trimmed(cell);
            let r = canonical_delimiter_cell(cell);
            let l: int = if t.len() > 0 && t[0] == ':' {
                1
            } else {
                0
            };
            let e: int = if t.len() > 0 && t.last() == ':' {
                1
            } else {
                0
            };
            &&& (r[0] == ':') == (l == 1)
            &&& (r.last() == ':') == (e == 1)
            &&& forall|j: int| l <= j < r.len() - e ==> #[trigger] r[j] == '-'
            &&& r.len() - l - e >= 3
            &&& r.len() - l - e >= count_char(t, '-')
        }),
{
}

} // verus!

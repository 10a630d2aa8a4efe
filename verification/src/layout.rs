//! Layout decisions of the markdown renderer: how table columns share the available width,
//! how list markers and indents are laid out, and how inline math is set apart.
use vstd::prelude::*;
use crate::text::{chars_of, push_char, string_from_chars, trim_chars, trimmed, is_ws, is_whitespace_char, skip_ws};

verus! {

/// Sum of a sequence of widths.
pub open spec fn total(w: Seq<nat>) -> nat
    decreases w.len(),
{
    if w.len() == 0 {
        0
    } else {
        total(w.drop_last()) + w.last()
    }
}

/// The widths as natural numbers.
pub open spec fn nats(v: Seq<usize>) -> Seq<nat> {
    v.map_values(|x: usize| x as nat)
}

/// The column that gives up one unit next, scanning from `i` with the best so far `best`: the
/// widest column still wider than its minimum, the last one among equals.
pub open spec fn widest_shrinkable(w: Seq<nat>, mins: Seq<nat>, i: int, best: Option<int>) -> Option<
    int,
>
    decreases w.len() - i,
{
    if i < 0 || i >= w.len() {
        best
    } else if w[i] > mins[i] && (best is None || w[i] >= w[best->0]) {
        widest_shrinkable(w, mins, i + 1, Some(i))
    } else {
        widest_shrinkable(w, mins, i + 1, best)
    }
}

pub proof fn lemma_widest_shrinkable(w: Seq<nat>, mins: Seq<nat>, i: int, best: Option<int>)
    requires
        0 <= i <= w.len(),
        mins.len() == w.len(),
        best matches Some(b) ==> 0 <= b < w.len() && w[b] > mins[b],
    ensures
        widest_shrinkable(w, mins, i, best) matches Some(b) ==> 0 <= b < w.len() && w[b] > mins[b],
        widest_shrinkable(w, mins, i, best) is None ==> best is None && forall|k: int|
            i <= k < w.len() ==> w[k] <= mins[k],
    decreases w.len() - i,
{
    if i < w.len() {
        if w[i] > mins[i] && (best is None || w[i] >= w[best->0]) {
            lemma_widest_shrinkable(w, mins, i + 1, Some(i));
        } else {
            lemma_widest_shrinkable(w, mins, i + 1, best);
        }
    }
}

pub proof fn lemma_total_update(w: Seq<nat>, i: int, v: nat)
    requires
        0 <= i < w.len(),
    ensures
        total(w.update(i, v)) == total(w) - w[i] + v,
    decreases w.len(),
{
    let u = w.update(i, v);
    if i == w.len() - 1 {
        assert(u.drop_last() =~= w.drop_last());
    } else {
        assert(u.drop_last() =~= w.drop_last().update(i, v));
        lemma_total_update(w.drop_last(), i, v);
    }
}

/// Narrows columns one unit at a time, always the widest one still above its minimum, until
/// the widths fit `budget` or no column can give up more.
pub open spec fn shrink(w: Seq<nat>, mins: Seq<nat>, budget: nat) -> Seq<nat>
    decreases total(w),
{
    if total(w) <= budget || mins.len() != w.len() {
        w
    } else {
        match widest_shrinkable(w, mins, 0, None) {
            None => w,
            Some(i) => {
                proof {
                    lemma_widest_shrinkable(w, mins, 0, None);
                    lemma_total_update(w, i, (w[i] - 1) as nat);
                }
                shrink(w.update(i, (w[i] - 1) as nat), mins, budget)
            },
        }
    }
}

/// The smallest width a column is narrowed to: its natural width, but at most 4 and at least 1.
pub open spec fn min_width(w: nat) -> nat {
    if w > 4 {
        4
    } else if w < 1 {
        1
    } else {
        w
    }
}

/// Column widths that fit a table into `max_width` terminal columns, given the widths the
/// columns need (`natural`). Each column costs three border columns plus one more for the
/// table. The table narrows its widest columns first, never below 4 (or the natural width,
/// when smaller) unless even those minimums do not fit, in which case the minimum is 1; when
/// nothing fits at all every column gets width 1.
pub open spec fn fitted_widths(natural: Seq<nat>, max_width: Option<nat>) -> Seq<nat> {
    match max_width {
        None => natural,
        Some(m) => if natural.len() == 0 {
            natural
        } else {
            let border = natural.len() * 3 + 1;
            let budget: nat = if m > border {
                (m - border) as nat
            } else {
                0
            };
            let ones = Seq::new(natural.len(), |_i: int| 1nat);
            if budget == 0 {
                ones
            } else {
                let natural_mins = natural.map_values(|w: nat| min_width(w));
                let mins = if total(natural_mins) > budget {
                    ones
                } else {
                    natural_mins
                };
                let w = shrink(natural, mins, budget);
                if total(w) <= budget {
                    w
                } else {
                    ones
                }
            }
        },
    }
}

/// Sum of the widths.
fn sum_widths(v: &Vec<usize>, limit: Ghost<nat>) -> (r: usize)
    requires
        total(nats(v@)) <= limit@ <= usize::MAX,
    ensures
        r == total(nats(v@)),
{
    let mut s: usize = 0;
    let mut i: usize = 0;
    while i < v.len()
        invariant
            i <= v@.len(),
            s == total(nats(v@.subrange(0, i as int))),
            total(nats(v@)) <= limit@ <= usize::MAX,
        decreases v@.len() - i,
    {
        proof {
            let cur = nats(v@.subrange(0, i + 1));
            assert(cur.drop_last() =~= nats(v@.subrange(0, i as int)));
            assert(cur.last() == v@[i as int] as nat);
            assert(total(cur) == total(cur.drop_last()) + cur.last());
            assert(cur =~= nats(v@).subrange(0, i + 1));
            lemma_total_prefix(nats(v@), i + 1);
        }
        s = s + v[i];
        i += 1;
    }
    assert(nats(v@.subrange(0, v@.len() as int)) =~= nats(v@));
    s
}

/// A prefix sums to no more than the whole.
pub proof fn lemma_total_prefix(w: Seq<nat>, k: int)
    requires
        0 <= k <= w.len(),
    ensures
        total(w.subrange(0, k)) <= total(w),
    decreases w.len() - k,
{
    if k < w.len() {
        lemma_total_prefix(w, k + 1);
        assert(w.subrange(0, k + 1).drop_last() =~= w.subrange(0, k));
    } else {
        assert(w.subrange(0, k) =~= w);
    }
}


pub proof fn lemma_total_pointwise(a: Seq<nat>, b: Seq<nat>)
    requires
        a.len() == b.len(),
        forall|k: int| 0 <= k < a.len() ==> a[k] <= b[k],
    ensures
        total(a) <= total(b),
    decreases a.len(),
{
    if a.len() > 0 {
        lemma_total_pointwise(a.drop_last(), b.drop_last());
    }
}

pub proof fn lemma_total_ones(n: nat)
    ensures
        total(Seq::new(n, |_i: int| 1nat)) == n,
    decreases n,
{
    if n > 0 {
        assert(Seq::new(n, |_i: int| 1nat).drop_last() =~= Seq::new((n - 1) as nat, |_i: int| 1nat));
        lemma_total_ones((n - 1) as nat);
    }
}

/// Shrinking keeps the number of columns, and stops either within the budget or with every
/// column at or below its minimum.
pub proof fn lemma_shrink(w: Seq<nat>, mins: Seq<nat>, budget: nat)
    requires
        mins.len() == w.len(),
    ensures
        shrink(w, mins, budget).len() == w.len(),
        total(shrink(w, mins, budget)) <= budget || forall|k: int|
            0 <= k < w.len() ==> shrink(w, mins, budget)[k] <= mins[k],
        total(shrink(w, mins, budget)) <= total(w),
    decreases total(w),
{
    if total(w) > budget {
        lemma_widest_shrinkable(w, mins, 0, None);
        match widest_shrinkable(w, mins, 0, None) {
            None => {},
            Some(i) => {
                lemma_total_update(w, i, (w[i] - 1) as nat);
                lemma_shrink(w.update(i, (w[i] - 1) as nat), mins, budget);
            },
        }
    }
}

/// The next column to narrow (see [`widest_shrinkable`]).
fn widest_shrinkable_index(w: &Vec<usize>, mins: &Vec<usize>) -> (r: Option<usize>)
    requires
        w@.len() == mins@.len(),
    ensures
        match r {
            Some(i) => widest_shrinkable(nats(w@), nats(mins@), 0, None) == Some(i as int),
            None => widest_shrinkable(nats(w@), nats(mins@), 0, None) is None,
        },
{
    let ghost ws = nats(w@);
    let ghost ms = nats(mins@);
    let mut best: Option<usize> = None;
    let mut i: usize = 0;
    while i < w.len()
        invariant
            i <= w@.len(),
            w@.len() == mins@.len(),
            ws == nats(w@),
            ms == nats(mins@),
            best matches Some(b) ==> b < i,
            widest_shrinkable(ws, ms, 0, None) == widest_shrinkable(
                ws,
                ms,
                i as int,
                match best {
                    Some(b) => Some(b as int),
                    None => None,
                },
            ),
        decreases w@.len() - i,
    {
        let take = match best {
            None => w[i] > mins[i],
            Some(b) => w[i] > mins[i] && w[i] >= w[b],
        };
        if take {
            best = Some(i);
        }
        i += 1;
    }
    best
}

/// Column widths that fit a table into `wrap_width` terminal columns (see [`fitted_widths`]);
/// without a width limit the natural widths are kept.
pub fn fit_table_widths(natural_widths: &[usize], wrap_width: Option<usize>) -> (r: Vec<usize>)
    requires
        wrap_width is Some ==> natural_widths@.len() * 3 + 1 <= usize::MAX,
        wrap_width is Some ==> total(nats(natural_widths@)) <= usize::MAX,
    ensures
        nats(r@) == fitted_widths(
            nats(natural_widths@),
            match wrap_width {
                Some(m) => Some(m as nat),
                None => None,
            },
        ),
{
    let ghost nat_w = nats(natural_widths@);
    let n = natural_widths.len();
    let mut natural: Vec<usize> = Vec::new();
    let mut i: usize = 0;
    while i < n
        invariant
            i <= n == natural_widths@.len(),
            natural@ == natural_widths@.subrange(0, i as int),
        decreases n - i,
    {
        natural.push(natural_widths[i]);
        i += 1;
    }
    assert(natural@ =~= natural_widths@);
    let max_width = match wrap_width {
        None => return natural,
        Some(m) => m,
    };
    if n == 0 {
        return natural;
    }
    let border_width = n * 3 + 1;
    let budget = max_width.saturating_sub(border_width);
    let ghost ones = Seq::new(n as nat, |_i: int| 1nat);
    if budget == 0 {
        let r = vec![1usize; n];
        assert(nats(r@) =~= ones);
        return r;
    }
    let mut mins: Vec<usize> = Vec::new();
    let mut j: usize = 0;
    while j < n
        invariant
            j <= n == natural@.len(),
            mins@.len() == j,
            forall|k: int| 0 <= k < j ==> #[trigger] mins@[k] as nat == min_width(natural@[k] as nat),
        decreases n - j,
    {
        let w = natural[j];
        mins.push(if w > 4 {
            4
        } else if w < 1 {
            1
        } else {
            w
        });
        j += 1;
    }
    let ghost natural_mins = nat_w.map_values(|w: nat| min_width(w));
    assert(nats(mins@) =~= natural_mins);
    if total_exceeds(&mins, budget) {
        mins = vec![1usize; n];
        assert(nats(mins@) =~= ones);
    }
    let ghost ms = nats(mins@);
    let mut widths = natural;
    let mut sum = sum_widths(&widths, Ghost(total(nat_w)));
    proof {
        lemma_shrink(nat_w, ms, budget as nat);
    }
    let mut stuck = false;
    while sum > budget && !stuck
        invariant
            stuck ==> widest_shrinkable(nats(widths@), ms, 0, None) is None,
            widths@.len() == n,
            mins@.len() == n,
            ms == nats(mins@),
            sum == total(nats(widths@)),
            total(nats(widths@)) <= total(nat_w),
            shrink(nat_w, ms, budget as nat) == shrink(nats(widths@), ms, budget as nat),
        decreases sum, (if stuck { 0int } else { 1int }),
    {
        let idx = match widest_shrinkable_index(&widths, &mins) {
            None => {
                stuck = true;
                continue;
            },
            Some(idx) => idx,
        };
        proof {
            lemma_widest_shrinkable(nats(widths@), ms, 0, None);
            lemma_total_update(nats(widths@), idx as int, (widths@[idx as int] - 1) as nat);
        }
        let ghost before = nats(widths@);
        let w = widths[idx];
        widths.set(idx, w - 1);
        assert(nats(widths@) =~= before.update(idx as int, (before[idx as int] - 1) as nat));
        sum = sum - 1;
    }
    proof {
        lemma_shrink(nats(widths@), ms, budget as nat);
        if sum > budget {
            assert(shrink(nats(widths@), ms, budget as nat) == nats(widths@));
        } else {
            assert(shrink(nats(widths@), ms, budget as nat) == nats(widths@));
        }
    }
    if sum <= budget {
        return widths;
    }
    // Every column is at its minimum and the table still does not fit: the minimums are all
    // 1, so there are more columns than budget and no width is left to hand out.
    proof {
        let shrunk = nats(widths@);
        lemma_shrink(nat_w, ms, budget as nat);
        if total(natural_mins) <= budget {
            lemma_total_pointwise(shrunk, natural_mins);
        } else {
            lemma_total_pointwise(shrunk, ones);
            lemma_total_ones(n as nat);
        }
    }
    let remaining = budget.saturating_sub(n);
    assert(remaining == 0);
    let r = vec![1usize; n];
    assert(nats(r@) =~= ones);
    r
}

/// Whether the widths add up to more than `budget`.
fn total_exceeds(v: &Vec<usize>, budget: usize) -> (r: bool)
    ensures
        r == (total(nats(v@)) > budget),
{
    let mut s: usize = 0;
    let mut i: usize = 0;
    while i < v.len()
        invariant
            i <= v@.len(),
            s == total(nats(v@.subrange(0, i as int))),
            s <= budget,
        decreases v@.len() - i,
    {
        proof {
            let cur = nats(v@.subrange(0, i + 1));
            assert(cur.drop_last() =~= nats(v@.subrange(0, i as int)));
            assert(cur.last() == v@[i as int] as nat);
            assert(total(cur) == total(cur.drop_last()) + cur.last());
            assert(cur =~= nats(v@).subrange(0, i + 1));
            lemma_total_prefix(nats(v@), i + 1);
        }
        if v[i] > budget - s {
            return true;
        }
        s = s + v[i];
        i += 1;
    }
    assert(nats(v@.subrange(0, v@.len() as int)) =~= nats(v@));
    false
}

/// The decimal digit character for `d < 10`.
pub open spec fn digit_char(d: nat) -> char {
    if d == 0 {
        '0'
    } else if d == 1 {
        '1'
    } else if d == 2 {
        '2'
    } else if d == 3 {
        '3'
    } else if d == 4 {
        '4'
    } else if d == 5 {
        '5'
    } else if d == 6 {
        '6'
    } else if d == 7 {
        '7'
    } else if d == 8 {
        '8'
    } else {
        '9'
    }
}

/// The decimal representation of `n`.
pub open spec fn decimal(n: nat) -> Seq<char>
    decreases n,
{
    if n < 10 {
        seq![digit_char(n)]
    } else {
        decimal(n / 10).push(digit_char(n % 10))
    }
}

fn digit_of(d: u64) -> (c: char)
    requires
        d < 10,
    ensures
        c == digit_char(d as nat),
{
    if d == 0 {
        '0'
    } else if d == 1 {
        '1'
    } else if d == 2 {
        '2'
    } else if d == 3 {
        '3'
    } else if d == 4 {
        '4'
    } else if d == 5 {
        '5'
    } else if d == 6 {
        '6'
    } else if d == 7 {
        '7'
    } else if d == 8 {
        '8'
    } else {
        '9'
    }
}

/// The decimal representation of `n`.
pub fn decimal_chars(n: u64) -> (r: Vec<char>)
    ensures
        r@ == decimal(n as nat),
{
    let mut q = n;
    let mut out: Vec<char> = Vec::new();
    while q >= 10
        invariant
            decimal(n as nat) == decimal(q as nat) + out@,
        decreases q,
    {
        let c = digit_of(q % 10);
        let ghost old_out = out@;
        out.insert(0, c);
        assert(decimal(q as nat) == decimal((q / 10) as nat).push(c));
        assert(decimal(q as nat) + old_out =~= decimal((q / 10) as nat) + out@);
        q = q / 10;
    }
    let mut r: Vec<char> = Vec::new();
    r.push(digit_of(q));
    crate::text::extend_chars(&mut r, out.as_slice());
    assert(r@ =~= decimal(n as nat));
    r
}

/// `n` spaces.
pub open spec fn spaces(n: nat) -> Seq<char> {
    Seq::new(n, |_i: int| ' ')
}

/// `s` right-aligned in a field of `width` characters.
pub open spec fn pad_left(s: Seq<char>, width: nat) -> Seq<char> {
    if s.len() < width {
        spaces((width - s.len()) as nat) + s
    } else {
        s
    }
}

/// How a list item is laid out: its marker, the indent of its continuation lines, and the
/// number of the next item of an ordered list.
pub struct ListItemLayout {
    pub marker: String,
    pub indent: usize,
    pub next_index: Option<u64>,
}

/// Width of the marker column of a list at nesting `depth` (1 for a top-level list).
pub open spec fn marker_width(depth: nat) -> int {
    depth * 4 - 3
}

/// Lays out an item of a list at nesting `depth`: a bulleted item gets `- ` after
/// `marker_width(depth) - 1` spaces; a numbered item `index` gets its number right-aligned in
/// `marker_width(depth)` columns and `. `. Continuation lines are indented past the marker.
pub fn list_item_layout(depth: usize, index: Option<u64>) -> (r: ListItemLayout)
    requires
        depth >= 1,
        depth * 4 <= usize::MAX,
        index matches Some(i) ==> i < u64::MAX,
    ensures
        ({
            let w = marker_width(depth as nat);
            match index {
                None => r.marker@ == spaces((w - 1) as nat) + seq!['-', ' '] && r.indent == w + 1
                    && r.next_index is None,
                Some(i) => r.marker@ == pad_left(decimal(i as nat), w as nat) + seq!['.', ' ']
                    && r.indent == w + 2 && r.next_index == Some((i + 1) as u64),
            }
        }),
{
    let width = depth * 4 - 3;
    match index {
        None => {
            let mut m = crate::text::repeat_char(' ', width - 1);
            m.push('-');
            m.push(' ');
            assert(m@ =~= spaces((width - 1) as nat) + seq!['-', ' ']);
            ListItemLayout {
                marker: string_from_chars(m.as_slice()),
                indent: width + 1,
                next_index: None,
            }
        },
        Some(i) => {
            let digits = decimal_chars(i);
            let mut m: Vec<char> = if digits.len() < width {
                crate::text::repeat_char(' ', width - digits.len())
            } else {
                Vec::new()
            };
            crate::text::extend_chars(&mut m, digits.as_slice());
            m.push('.');
            m.push(' ');
            assert(m@ =~= pad_left(decimal(i as nat), width as nat) + seq!['.', ' ']);
            ListItemLayout {
                marker: string_from_chars(m.as_slice()),
                indent: width + 2,
                next_index: Some(i + 1),
            }
        },
    }
}

/// The language token of a fenced code block's info string: the text before the first comma,
/// space or tab, when it is nonempty.
pub open spec fn info_language(info: Seq<char>) -> Option<Seq<char>> {
    let end = info_token_end(info, 0);
    if end == 0 {
        None
    } else {
        Some(info.subrange(0, end))
    }
}

/// Index of the first comma, space or tab at or after `i` (or the length).
pub open spec fn info_token_end(s: Seq<char>, i: int) -> int
    decreases s.len() - i,
{
    if 0 <= i < s.len() && s[i] != ',' && s[i] != ' ' && s[i] != '\t' {
        info_token_end(s, i + 1)
    } else {
        i
    }
}

/// The language of a fenced code block from its info string (`rust,no_run` and
/// `rust title="demo"` both give `rust`); `None` for an indented block or an empty token.
pub fn code_block_language(info: Option<&str>) -> (r: Option<String>)
    ensures
        match info {
            None => r is None,
            Some(i) => crate::links::opt_string(r) == info_language(i@),
        },
{
    let info = match info {
        None => return None,
        Some(i) => i,
    };
    let chars = chars_of(info);
    let mut end: usize = 0;
    while end < chars.len() && chars[end] != ',' && chars[end] != ' ' && chars[end] != '\t'
        invariant
            end <= chars@.len(),
            chars@ == info@,
            info_token_end(info@, end as int) == info_token_end(info@, 0),
        decreases chars@.len() - end,
    {
        end += 1;
    }
    if end == 0 {
        return None;
    }
    let token = crate::text::slice_range(chars.as_slice(), 0, end);
    Some(string_from_chars(token.as_slice()))
}


/// Index of the first `'$'` at or after `i`.
pub open spec fn find_dollar(s: Seq<char>, i: int) -> Option<int>
    decreases s.len() - i,
{
    if i < 0 || i >= s.len() {
        None
    } else if s[i] == '$' {
        Some(i)
    } else {
        find_dollar(s, i + 1)
    }
}

/// Index of the first `"$$"` starting at or after `i`.
pub open spec fn find_double_dollar(s: Seq<char>, i: int) -> Option<int>
    decreases s.len() - i,
{
    if i < 0 || i + 1 >= s.len() {
        None
    } else if s[i] == '$' && s[i + 1] == '$' {
        Some(i)
    } else {
        find_double_dollar(s, i + 1)
    }
}

pub proof fn lemma_find_dollar(s: Seq<char>, i: int)
    requires
        0 <= i,
    ensures
        find_dollar(s, i) matches Some(k) ==> i <= k < s.len() && s[k] == '$',
        find_dollar(s, i) is None ==> forall|k: int| i <= k < s.len() ==> s[k] != '$',
    decreases s.len() - i,
{
    if i < s.len() && s[i] != '$' {
        lemma_find_dollar(s, i + 1);
    }
}

pub proof fn lemma_find_double_dollar(s: Seq<char>, i: int)
    requires
        0 <= i,
    ensures
        find_double_dollar(s, i) matches Some(k) ==> i <= k && k + 1 < s.len() && s[k] == '$'
            && s[k + 1] == '$',
    decreases s.len() - i,
{
    if i + 1 < s.len() && !(s[i] == '$' && s[i + 1] == '$') {
        lemma_find_double_dollar(s, i + 1);
    }
}

/// Where the inline-math span opened at `start` ends (exclusive): `$...$` or `$$...$$`.
pub open spec fn math_span_end(s: Seq<char>, start: int) -> Option<int> {
    if start + 1 < s.len() && s[start + 1] == '$' {
        match find_double_dollar(s, start + 2) {
            Some(e) => Some(e + 2),
            None => None,
        }
    } else {
        match find_dollar(s, start + 1) {
            Some(e) => Some(e + 1),
            None => None,
        }
    }
}

pub proof fn lemma_math_span_end(s: Seq<char>, start: int)
    requires
        0 <= start < s.len(),
    ensures
        math_span_end(s, start) matches Some(e) ==> start < e <= s.len(),
{
    lemma_find_double_dollar(s, start + 2);
    lemma_find_dollar(s, start + 1);
}

/// The pieces of a line from `cursor` on, each marked as math or plain text: every `$...$`
/// or `$$...$$` span is math, text between spans is plain, and an opening `$` without a
/// closing one is plain text.
pub open spec fn math_pieces(s: Seq<char>, cursor: int) -> Seq<(Seq<char>, bool)>
    decreases s.len() - cursor,
{
    let tail: Seq<(Seq<char>, bool)> = if 0 <= cursor < s.len() {
        seq![(s.subrange(cursor, s.len() as int), false)]
    } else {
        Seq::empty()
    };
    if cursor < 0 || cursor > s.len() {
        Seq::empty()
    } else {
        match find_dollar(s, cursor) {
            None => tail,
            Some(start) => {
                proof {
                    lemma_find_dollar(s, cursor);
                    lemma_math_span_end(s, start);
                }
                match math_span_end(s, start) {
                    None => tail,
                    Some(end) => {
                        let before: Seq<(Seq<char>, bool)> = if start > cursor {
                            seq![(s.subrange(cursor, start), false)]
                        } else {
                            Seq::empty()
                        };
                        before + seq![(s.subrange(start, end), true)] + math_pieces(s, end)
                    },
                }
            },
        }
    }
}

/// The pieces of a rendered text line and whether a `$$` math block is open after it: a line
/// that is `$$` (up to whitespace) opens or closes a block and is math, a line inside a block
/// is math, and any other line is split by [`math_pieces`].
pub open spec fn math_line(line: Seq<char>, in_block: bool) -> (Seq<(Seq<char>, bool)>, bool) {
    if trimmed(line) == seq!['$', '$'] {
        (seq![(line, true)], !in_block)
    } else if in_block {
        (seq![(line, true)], true)
    } else {
        (math_pieces(line, 0), false)
    }
}

/// The views of the pieces.
pub open spec fn piece_views(v: Seq<(String, bool)>) -> Seq<(Seq<char>, bool)> {
    v.map_values(|p: (String, bool)| (p.0@, p.1))
}

fn find_dollar_from(s: &Vec<char>, i: usize) -> (r: Option<usize>)
    ensures
        match r {
            Some(k) => find_dollar(s@, i as int) == Some(k as int),
            None => find_dollar(s@, i as int) is None,
        },
{
    let mut k = i;
    while k < s.len()
        invariant
            i <= k,
            find_dollar(s@, i as int) == find_dollar(s@, k as int),
        decreases s@.len() - k,
    {
        if s[k] == '$' {
            return Some(k);
        }
        k += 1;
    }
    None
}

fn find_double_dollar_from(s: &Vec<char>, i: usize) -> (r: Option<usize>)
    ensures
        match r {
            Some(k) => find_double_dollar(s@, i as int) == Some(k as int),
            None => find_double_dollar(s@, i as int) is None,
        },
{
    let mut k = i;
    while k < s.len() && k + 1 < s.len()
        invariant
            i <= k,
            find_double_dollar(s@, i as int) == find_double_dollar(s@, k as int),
        decreases s@.len() - k,
    {
        if s[k] == '$' && s[k + 1] == '$' {
            return Some(k);
        }
        k += 1;
    }
    None
}

fn piece(s: &Vec<char>, lo: usize, hi: usize, math: bool) -> (r: (String, bool))
    requires
        lo <= hi <= s@.len(),
    ensures
        r.0@ == s@.subrange(lo as int, hi as int),
        r.1 == math,
{
    let v = crate::text::slice_range(s.as_slice(), lo, hi);
    (string_from_chars(v.as_slice()), math)
}

/// Splits a rendered text line into plain and math pieces and tells whether a `$$` math block
/// is open after it (see [`math_line`]).
pub fn math_highlight_pieces(line: &str, in_math_block: bool) -> (r: (Vec<(String, bool)>, bool))
    ensures
        (piece_views(r.0@), r.1) == math_line(line@, in_math_block),
{
    let s = chars_of(line);
    let t = trim_chars(s.as_slice());
    let dd = ['$', '$'];
    assert(dd@ =~= seq!['$', '$']);
    let whole = piece(&s, 0, s.len(), true);
    assert(s@.subrange(0, s@.len() as int) =~= s@);
    if crate::text::chars_eq(t.as_slice(), dd.as_slice()) {
        let v = vec![whole];
        assert(piece_views(v@) =~= seq![(line@, true)]);
        return (v, !in_math_block);
    }
    if in_math_block {
        let v = vec![whole];
        assert(piece_views(v@) =~= seq![(line@, true)]);
        return (v, true);
    }
    let mut out: Vec<(String, bool)> = Vec::new();
    let mut cursor: usize = 0;
    let mut done = false;
    while !done
        invariant
            cursor <= s@.len(),
            s@ == line@,
            done ==> math_pieces(s@, cursor as int) =~= Seq::<(Seq<char>, bool)>::empty(),
            math_pieces(s@, 0) == piece_views(out@) + math_pieces(s@, cursor as int),
        decreases s@.len() - cursor, (if done { 0int } else { 1int }),
    {
        let ghost before = piece_views(out@);
        proof {
            lemma_find_dollar(s@, cursor as int);
        }
        let start = match find_dollar_from(&s, cursor) {
            None => {
                if cursor < s.len() {
                    out.push(piece(&s, cursor, s.len(), false));
                }
                proof {
                    assert(piece_views(out@) =~= before + math_pieces(s@, cursor as int));
                }
                done = true;
                cursor = s.len();
                proof {
                    assert(math_pieces(s@, cursor as int) =~= Seq::<(Seq<char>, bool)>::empty());
                    assert(piece_views(out@) + Seq::<(Seq<char>, bool)>::empty() =~= piece_views(out@));
                }
                continue;
            },
            Some(k) => k,
        };
        proof {
            lemma_math_span_end(s@, start as int);
            lemma_find_double_dollar(s@, start + 2);
            lemma_find_dollar(s@, start + 1);
        }
        let end = if start + 1 < s.len() && s[start + 1] == '$' {
            match find_double_dollar_from(&s, start + 2) {
                Some(e) => Some(e + 2),
                None => None,
            }
        } else {
            match find_dollar_from(&s, start + 1) {
                Some(e) => Some(e + 1),
                None => None,
            }
        };
        match end {
            None => {
                if cursor < s.len() {
                    out.push(piece(&s, cursor, s.len(), false));
                }
                proof {
                    assert(piece_views(out@) =~= before + math_pieces(s@, cursor as int));
                }
                done = true;
                cursor = s.len();
                proof {
                    assert(math_pieces(s@, cursor as int) =~= Seq::<(Seq<char>, bool)>::empty());
                    assert(piece_views(out@) + Seq::<(Seq<char>, bool)>::empty() =~= piece_views(out@));
                }
            },
            Some(end) => {
                if start > cursor {
                    out.push(piece(&s, cursor, start, false));
                }
                out.push(piece(&s, start, end, true));
                proof {
                    let b: Seq<(Seq<char>, bool)> = if start > cursor {
                        seq![(s@.subrange(cursor as int, start as int), false)]
                    } else {
                        Seq::empty()
                    };
                    assert(piece_views(out@) =~= before + b + seq![(s@.subrange(start as int, end as int), true)]);
                    assert(math_pieces(s@, cursor as int) == b + seq![(s@.subrange(start as int, end as int), true)] + math_pieces(s@, end as int));
                    assert(before + (b + seq![(s@.subrange(start as int, end as int), true)] + math_pieces(s@, end as int)) =~= piece_views(out@) + math_pieces(s@, end as int));
                }
                cursor = end;
            },
        }
    }
    (out, false)
}


/// Number of bytes of `c` in UTF-8.
pub open spec fn utf8_len(c: char) -> nat {
    if (c as u32) < 0x80 {
        1
    } else if (c as u32) < 0x800 {
        2
    } else if (c as u32) < 0x10000 {
        3
    } else {
        4
    }
}

/// Number of bytes of `s` in UTF-8.
pub open spec fn byte_len(s: Seq<char>) -> nat
    decreases s.len(),
{
    if s.len() == 0 {
        0
    } else {
        byte_len(s.drop_last()) + utf8_len(s.last())
    }
}

/// Punctuation that marks text as a sentence rather than a short label.
pub open spec fn is_label_punct(c: char) -> bool {
    c == '\u{ff0c}' || c == ',' || c == '\u{3002}' || c == '.' || c == '\u{ff1f}' || c == '?' || c
        == '\u{ff01}' || c == '!' || c == '\u{ff1b}' || c == ';'
}

/// A colon, ASCII or full-width.
pub open spec fn is_colon(c: char) -> bool {
    c == ':' || c == '\u{ff1a}'
}

/// Index of the first colon of `s` at or after `i`.
pub open spec fn first_colon(s: Seq<char>, i: int) -> Option<int>
    decreases s.len() - i,
{
    if i < 0 || i >= s.len() {
        None
    } else if is_colon(s[i]) {
        Some(i)
    } else {
        first_colon(s, i + 1)
    }
}

/// Whether the text before a list item's colon reads as a short label: at most 12
/// characters, no sentence punctuation or whitespace, and not a link (`[`).
pub open spec fn is_lead_label(label: Seq<char>) -> bool {
    &&& label.len() <= 12
    &&& forall|j: int| 0 <= j < label.len() ==> !is_label_punct(#[trigger] label[j]) && !is_ws(
        label[j],
    )
    &&& !(label.len() > 0 && label[0] == '[')
}

/// How the first text line of a list item is split when it starts with a short label such
/// as `Note: ...`: the leading whitespace, the highlighted label with its colon, the rest, and
/// whether the lead is still to be looked for.
pub struct ListLead {
    pub leading: Option<String>,
    pub label: Option<String>,
    pub rest: Option<String>,
    pub pending: bool,
}

/// The split of a list item's first line (see [`ListLead`]), as
/// `(leading, label, rest, pending)`: only looked for while `pending`, for a nonblank line and
/// outside inline styles. The label must end at a colon within the first 20 bytes of the
/// line's text (after leading whitespace) and read as a label.
pub open spec fn list_lead(line: Seq<char>, pending: bool, styles_empty: bool) -> (
    Option<Seq<char>>,
    Option<Seq<char>>,
    Option<Seq<char>>,
    bool,
) {
    if !pending || trimmed(line).len() == 0 || !styles_empty {
        (None, None, None, pending)
    } else {
        let a = skip_ws(line, 0);
        let t = line.subrange(a, line.len() as int);
        let leading = if a > 0 {
            Some(line.subrange(0, a))
        } else {
            None
        };
        match first_colon(t, 0) {
            Some(k) => if k > 0 && byte_len(t.subrange(0, k)) <= 20 && is_lead_label(
                t.subrange(0, k),
            ) {
                let rest = if k + 1 < t.len() {
                    Some(t.subrange(k + 1, t.len() as int))
                } else {
                    None
                };
                (leading, Some(t.subrange(0, k + 1)), rest, false)
            } else {
                (leading, None, None, false)
            },
            None => (leading, None, None, false),
        }
    }
}

pub(crate) fn utf8_len_of(c: char) -> (n: usize)
    ensures
        n == utf8_len(c),
{
    if (c as u32) < 0x80 {
        1
    } else if (c as u32) < 0x800 {
        2
    } else if (c as u32) < 0x10000 {
        3
    } else {
        4
    }
}

/// Whether `s[lo..hi]` takes at most `limit` bytes in UTF-8.
pub(crate) fn byte_len_at_most(s: &Vec<char>, lo: usize, hi: usize, limit: usize) -> (r: bool)
    requires
        lo <= hi <= s@.len(),
        limit <= 1000,
    ensures
        r == (byte_len(s@.subrange(lo as int, hi as int)) <= limit),
{
    let mut n: usize = 0;
    let mut i = lo;
    while i < hi
        invariant
            lo <= i <= hi <= s@.len(),
            n == byte_len(s@.subrange(lo as int, i as int)),
            n <= limit <= 1000,
        decreases hi - i,
    {
        assert(s@.subrange(lo as int, i + 1).drop_last() =~= s@.subrange(lo as int, i as int));
        let c = utf8_len_of(s[i]);
        if c > limit - n {
            proof {
                lemma_byte_len_monotone(s@, lo as int, i + 1, hi as int);
            }
            return false;
        }
        n = n + c;
        i += 1;
    }
    true
}

pub proof fn lemma_byte_len_monotone(s: Seq<char>, lo: int, i: int, j: int)
    requires
        0 <= lo <= i <= j <= s.len(),
    ensures
        byte_len(s.subrange(lo, i)) <= byte_len(s.subrange(lo, j)),
    decreases j - i,
{
    if i < j {
        lemma_byte_len_monotone(s, lo, i, j - 1);
        assert(s.subrange(lo, j).drop_last() =~= s.subrange(lo, j - 1));
    }
}

fn is_label_char_ok(c: char) -> (r: bool)
    ensures
        r == (!is_label_punct(c) && !is_ws(c)),
{
    !(c == '\u{ff0c}' || c == ',' || c == '\u{3002}' || c == '.' || c == '\u{ff1f}' || c == '?'
        || c == '\u{ff01}' || c == '!' || c == '\u{ff1b}' || c == ';') && !is_whitespace_char(c)
}

fn opt_piece(s: &Vec<char>, lo: usize, hi: usize) -> (r: String)
    requires
        lo <= hi <= s@.len(),
    ensures
        r@ == s@.subrange(lo as int, hi as int),
{
    let v = crate::text::slice_range(s.as_slice(), lo, hi);
    string_from_chars(v.as_slice())
}

/// Splits the first line of a list item into leading whitespace, a highlighted short label
/// ending in a colon, and the rest (see [`list_lead`]).
pub fn try_render_list_lead(line: &str, pending: bool, inline_styles_empty: bool) -> (r: ListLead)
    ensures
        (
            crate::links::opt_string(r.leading),
            crate::links::opt_string(r.label),
            crate::links::opt_string(r.rest),
            r.pending,
        ) == list_lead(line@, pending, inline_styles_empty),
{
    let s = chars_of(line);
    let t_all = trim_chars(s.as_slice());
    if !pending || t_all.len() == 0 || !inline_styles_empty {
        return ListLead { leading: None, label: None, rest: None, pending };
    }
    let mut a: usize = 0;
    while a < s.len() && is_whitespace_char(s[a])
        invariant
            a <= s@.len(),
            skip_ws(s@, a as int) == skip_ws(s@, 0),
        decreases s@.len() - a,
    {
        a += 1;
    }
    let ghost t = s@.subrange(a as int, s@.len() as int);
    let leading = if a > 0 {
        Some(opt_piece(&s, 0, a))
    } else {
        None
    };
    let mut k = a;
    while k < s.len() && !(s[k] == ':' || s[k] == '\u{ff1a}')
        invariant
            a <= k <= s@.len(),
            t == s@.subrange(a as int, s@.len() as int),
            first_colon(t, 0) == first_colon(t, k - a),
        decreases s@.len() - k,
    {
        k += 1;
    }
    assert(skip_ws(s@, a as int) == a as int);
    if k >= s.len() {
        assert(first_colon(t, (k - a) as int) is None);
        return ListLead { leading, label: None, rest: None, pending: false };
    }
    assert(first_colon(t, 0) == Some(k - a));
    assert(t.subrange(0, k - a) =~= s@.subrange(a as int, k as int));
    if k == a || !byte_len_at_most(&s, a, k, 20) || !is_lead_label_chars(&s, a, k) {
        return ListLead { leading, label: None, rest: None, pending: false };
    }
    let head = opt_piece(&s, a, k + 1);
    assert(head@ =~= t.subrange(0, k - a + 1));
    let rest = if k + 1 < s.len() {
        let r = opt_piece(&s, k + 1, s.len());
        assert(r@ =~= t.subrange(k - a + 1, t.len() as int));
        Some(r)
    } else {
        None
    };
    ListLead { leading, label: Some(head), rest, pending: false }
}

/// Whether `s[a..k]` reads as a list-item label (see [`is_lead_label`]).
fn is_lead_label_chars(s: &Vec<char>, a: usize, k: usize) -> (r: bool)
    requires
        a <= k <= s@.len(),
    ensures
        r == is_lead_label(s@.subrange(a as int, k as int)),
{
    let ghost label = s@.subrange(a as int, k as int);
    if k - a > 12 {
        return false;
    }
    let mut j = a;
    while j < k
        invariant
            a <= j <= k <= s@.len(),
            label == s@.subrange(a as int, k as int),
            forall|m: int| 0 <= m < j - a ==> !is_label_punct(#[trigger] label[m]) && !is_ws(
                label[m],
            ),
        decreases k - j,
    {
        if !is_label_char_ok(s[j]) {
            assert(label[j - a] == s@[j as int]);
            return false;
        }
        j += 1;
    }
    if k > a && s[a] == '[' {
        assert(label[0] == s@[a as int]);
        return false;
    }
    true
}


/// The body of a table border from column `i` on: for each column a run of `─` two longer
/// than its width, then `mid` between columns or `right` after the last one.
pub open spec fn border_body(widths: Seq<nat>, mid: char, right: char, i: int) -> Seq<char>
    decreases widths.len() - i,
{
    if i < 0 || i >= widths.len() {
        Seq::empty()
    } else {
        Seq::new(widths[i] + 2, |_j: int| '\u{2500}') + seq![
            if i + 1 == widths.len() {
                right
            } else {
                mid
            },
        ] + border_body(widths, mid, right, i + 1)
    }
}

/// A horizontal table border: `left`, then the border body of every column.
pub open spec fn border_line(left: char, mid: char, right: char, widths: Seq<nat>) -> Seq<char> {
    seq![left] + border_body(widths, mid, right, 0)
}

/// The text of a horizontal table border with the given corner and junction characters.
pub fn render_table_border(left: char, mid: char, right: char, widths: &[usize]) -> (r: String)
    requires
        forall|i: int| 0 <= i < widths@.len() ==> widths@[i] + 2 <= usize::MAX,
    ensures
        r@ == border_line(left, mid, right, nats(widths@)),
{
    let ghost ws = nats(widths@);
    let mut out: Vec<char> = Vec::new();
    out.push(left);
    let n = widths.len();
    let mut i: usize = 0;
    while i < n
        invariant
            i <= n == widths@.len(),
            ws == nats(widths@),
            forall|k: int| 0 <= k < widths@.len() ==> widths@[k] + 2 <= usize::MAX,
            border_line(left, mid, right, ws) == out@ + border_body(ws, mid, right, i as int),
        decreases n - i,
    {
        let ghost before = out@;
        let run = crate::text::repeat_char('\u{2500}', widths[i] + 2);
        crate::text::extend_chars(&mut out, run.as_slice());
        out.push(if i + 1 == n {
            right
        } else {
            mid
        });
        proof {
            let piece = Seq::new(ws[i as int] + 2, |_j: int| '\u{2500}') + seq![
                if i + 1 == ws.len() {
                    right
                } else {
                    mid
                },
            ];
            assert(out@ =~= before + piece);
            assert(before + (piece + border_body(ws, mid, right, i + 1)) =~= out@ + border_body(
                ws,
                mid,
                right,
                i + 1,
            ));
        }
        i += 1;
    }
    assert(out@ + border_body(ws, mid, right, n as int) =~= out@);
    string_from_chars(out.as_slice())
}

/// The number of terminal columns `s` occupies, as `UnicodeWidthStr::width` measures it.
pub uninterp spec fn display_width(s: Seq<char>) -> nat;

/// `UnicodeWidthStr::width`: the terminal width of `s`, a function of its text alone.
#[verifier::external_body]
fn str_display_width(s: &str) -> (r: usize)
    ensures
        r == display_width(s@),
{
    unicode_width::UnicodeWidthStr::width(s)
}

/// The width a cell asks for: its display width, at least 2.
pub open spec fn cell_width(c: Seq<char>) -> nat {
    if display_width(c) < 2 {
        2
    } else {
        display_width(c)
    }
}

/// The natural width of column `j` over the first `upto` rows: the widest cell of that
/// column (0 when none of those rows reaches it).
pub open spec fn column_width(rows: Seq<Seq<Seq<char>>>, j: int, upto: int) -> nat
    decreases upto,
{
    if upto <= 0 {
        0
    } else {
        let prev = column_width(rows, j, upto - 1);
        let row = rows[upto - 1];
        if 0 <= j < row.len() && cell_width(row[j]) > prev {
            cell_width(row[j])
        } else {
            prev
        }
    }
}

/// The longest row length among the first `upto` rows.
pub open spec fn column_count(rows: Seq<Seq<Seq<char>>>, upto: int) -> nat
    decreases upto,
{
    if upto <= 0 {
        0
    } else {
        let prev = column_count(rows, upto - 1);
        if rows[upto - 1].len() > prev {
            rows[upto - 1].len()
        } else {
            prev
        }
    }
}

/// The cell texts of the rows.
pub open spec fn row_views(rows: Seq<Vec<String>>) -> Seq<Seq<Seq<char>>> {
    rows.map_values(|r: Vec<String>| crate::text::string_views(r@))
}

/// The natural column widths of a table: one per column of its longest row, each the widest
/// cell of that column by display width, at least 2.
pub fn table_column_widths(rows: &Vec<Vec<String>>) -> (r: Vec<usize>)
    ensures
        r@.len() == column_count(row_views(rows@), rows@.len() as int),
        forall|j: int|
            0 <= j < r@.len() ==> #[trigger] r@[j] == column_width(
                row_views(rows@),
                j,
                rows@.len() as int,
            ),
{
    let ghost rv = row_views(rows@);
    let mut count: usize = 0;
    let mut i: usize = 0;
    while i < rows.len()
        invariant
            i <= rows@.len(),
            rv == row_views(rows@),
            count == column_count(rv, i as int),
        decreases rows@.len() - i,
    {
        assert(rv[i as int].len() == rows@[i as int]@.len());
        if rows[i].len() > count {
            count = rows[i].len();
        }
        i += 1;
    }
    let mut widths: Vec<usize> = vec![0usize; count];
    i = 0;
    while i < rows.len()
        invariant
            i <= rows@.len(),
            rv == row_views(rows@),
            widths@.len() == count,
            count == column_count(rv, rows@.len() as int),
            forall|j: int| 0 <= j < count ==> #[trigger] widths@[j] == column_width(rv, j, i as int),
        decreases rows@.len() - i,
    {
        proof {
            lemma_column_count_bound(rv, rows@.len() as int, i as int);
        }
        let row = &rows[i];
        let ghost before = widths@;
        let mut c: usize = 0;
        while c < row.len()
            invariant
                i < rows@.len(),
                c <= row@.len(),
                row@ == rows@[i as int]@,
                rv == row_views(rows@),
                rv[i as int].len() == row@.len(),
                row@.len() <= count,
                widths@.len() == count,
                forall|j: int| 0 <= j < count ==> #[trigger] before[j] == column_width(rv, j, i as int),
                forall|j: int| 0 <= j < count ==> #[trigger] widths@[j] == if 0 <= j < c {
                    column_width(rv, j, i + 1) as int
                } else {
                    before[j] as int
                },
            decreases row@.len() - c,
        {
            assert(rv[i as int][c as int] == row@[c as int]@);
            let w = str_display_width(row[c].as_str());
            let cw = if w < 2 {
                2
            } else {
                w
            };
            if cw > widths[c] {
                widths.set(c, cw);
            }
            c += 1;
        }
        i += 1;
    }
    widths
}

pub proof fn lemma_column_count_bound(rows: Seq<Seq<Seq<char>>>, n: int, i: int)
    requires
        0 <= i < n <= rows.len(),
    ensures
        rows[i].len() <= column_count(rows, n),
    decreases n,
{
    if i < n - 1 {
        lemma_column_count_bound(rows, n - 1, i);
    }
}

/// A line of a table cell padded with spaces to the column width (no padding when the text
/// is already that wide).
pub fn pad_table_cell(cell_line: &str, width: usize) -> (r: String)
    ensures
        r@ == cell_line@ + spaces(if display_width(cell_line@) < width {
            (width - display_width(cell_line@)) as nat
        } else {
            0
        }),
{
    let w = str_display_width(cell_line);
    let padding = width.saturating_sub(w);
    let mut out = chars_of(cell_line);
    let pad = crate::text::repeat_char(' ', padding);
    crate::text::extend_chars(&mut out, pad.as_slice());
    assert(pad@ =~= spaces(padding as nat));
    string_from_chars(out.as_slice())
}

/// What the line prefix needs to know of one level of block nesting (a list item, a block
/// quote or a code block): whether it has a list marker still to be shown, and whether it
/// is a list item.
#[derive(PartialEq, Eq, Structural, Clone, Copy, Debug)]
pub struct IndentLevel {
    pub has_marker: bool,
    pub is_list: bool,
}

/// One piece of a line prefix: the marker of level `i`, or its indentation.
#[derive(PartialEq, Eq, Structural, Clone, Copy, Debug)]
pub enum PrefixPiece {
    Marker(usize),
    Indent(usize),
}

/// The last level below `n` that has a marker (`markers`) or is a list item (otherwise).
pub open spec fn last_level(levels: Seq<IndentLevel>, markers: bool, n: int) -> Option<int>
    decreases n,
{
    if n <= 0 {
        None
    } else if (if markers {
        levels[n - 1].has_marker
    } else {
        levels[n - 1].is_list
    }) {
        Some(n - 1)
    } else {
        last_level(levels, markers, n - 1)
    }
}

/// What level `i` contributes to the prefix of a line. On the first line of a list item
/// (`pending_marker`) the innermost level with a marker shows it, and list levels outside it
/// contribute nothing; on other lines only the innermost list level indents.
pub open spec fn prefix_piece(levels: Seq<IndentLevel>, pending_marker: bool, i: int) -> Option<
    PrefixPiece,
> {
    let n = levels.len() as int;
    if pending_marker {
        let last_marker = last_level(levels, true, n);
        if last_marker == Some(i) && levels[i].has_marker {
            Some(PrefixPiece::Marker(i as usize))
        } else if levels[i].is_list && (last_marker matches Some(m) && m > i) {
            None
        } else {
            Some(PrefixPiece::Indent(i as usize))
        }
    } else if levels[i].is_list && last_level(levels, false, n) != Some(i) {
        None
    } else {
        Some(PrefixPiece::Indent(i as usize))
    }
}

/// The prefix pieces of the first `k` levels, outermost first.
pub open spec fn prefix_pieces(levels: Seq<IndentLevel>, pending_marker: bool, k: int) -> Seq<
    PrefixPiece,
>
    decreases k,
{
    if k <= 0 {
        Seq::empty()
    } else {
        let prev = prefix_pieces(levels, pending_marker, k - 1);
        match prefix_piece(levels, pending_marker, k - 1) {
            Some(p) => prev.push(p),
            None => prev,
        }
    }
}

fn last_level_index(levels: &[IndentLevel], markers: bool) -> (r: Option<usize>)
    ensures
        match r {
            Some(i) => last_level(levels@, markers, levels@.len() as int) == Some(i as int),
            None => last_level(levels@, markers, levels@.len() as int) is None,
        },
        r matches Some(i) ==> i < levels@.len(),
{
    let mut n = levels.len();
    while n > 0
        invariant
            n <= levels@.len(),
            last_level(levels@, markers, levels@.len() as int) == last_level(levels@, markers, n as int),
        decreases n,
    {
        let hit = if markers {
            levels[n - 1].has_marker
        } else {
            levels[n - 1].is_list
        };
        if hit {
            return Some(n - 1);
        }
        n -= 1;
    }
    None
}

/// The pieces of a line's prefix, outermost level first (see [`prefix_piece`]).
pub fn prefix_plan(levels: &[IndentLevel], pending_marker_line: bool) -> (r: Vec<PrefixPiece>)
    ensures
        r@ == prefix_pieces(levels@, pending_marker_line, levels@.len() as int),
{
    let last_marker = if pending_marker_line {
        last_level_index(levels, true)
    } else {
        None
    };
    let last_list = last_level_index(levels, false);
    let mut out: Vec<PrefixPiece> = Vec::new();
    let mut i: usize = 0;
    while i < levels.len()
        invariant
            i <= levels@.len(),
            pending_marker_line ==> match last_marker {
                Some(m) => last_level(levels@, true, levels@.len() as int) == Some(m as int),
                None => last_level(levels@, true, levels@.len() as int) is None,
            },
            !pending_marker_line ==> last_marker is None,
            match last_list {
                Some(m) => last_level(levels@, false, levels@.len() as int) == Some(m as int),
                None => last_level(levels@, false, levels@.len() as int) is None,
            },
            last_marker matches Some(m) ==> m < levels@.len(),
            last_list matches Some(m) ==> m < levels@.len(),
            out@ == prefix_pieces(levels@, pending_marker_line, i as int),
        decreases levels@.len() - i,
    {
        let level = levels[i];
        let piece = if pending_marker_line {
            if last_marker == Some(i) && level.has_marker {
                Some(PrefixPiece::Marker(i))
            } else if level.is_list && match last_marker {
                Some(m) => m > i,
                None => false,
            } {
                None
            } else {
                Some(PrefixPiece::Indent(i))
            }
        } else if level.is_list && last_list != Some(i) {
            None
        } else {
            Some(PrefixPiece::Indent(i))
        };
        assert(piece == prefix_piece(levels@, pending_marker_line, i as int));
        if let Some(p) = piece {
            out.push(p);
        }
        i += 1;
    }
    out
}

/// Shrinking never takes a column below its minimum or above where it started.
pub proof fn lemma_shrink_bounds(w: Seq<nat>, mins: Seq<nat>, budget: nat)
    requires
        mins.len() == w.len(),
        forall|k: int| 0 <= k < w.len() ==> mins[k] <= w[k],
    ensures
        forall|k: int|
            0 <= k < w.len() ==> mins[k] <= #[trigger] shrink(w, mins, budget)[k] <= w[k],
    decreases total(w),
{
    lemma_shrink(w, mins, budget);
    if total(w) > budget {
        lemma_widest_shrinkable(w, mins, 0, None);
        match widest_shrinkable(w, mins, 0, None) {
            None => {},
            Some(i) => {
                let u = w.update(i, (w[i] - 1) as nat);
                lemma_total_update(w, i, (w[i] - 1) as nat);
                lemma_shrink_bounds(u, mins, budget);
                assert forall|k: int| 0 <= k < w.len() implies mins[k] <= #[trigger] shrink(
                    w,
                    mins,
                    budget,
                )[k] <= w[k] by {
                    assert(shrink(w, mins, budget) == shrink(u, mins, budget));
                    assert(u[k] <= w[k]);
                }
            },
        }
    }
}

/// Without a width limit, or when the table already fits its limit, every column keeps its
/// natural width.
pub proof fn fitted_widths_keep_fitting_tables(natural: Seq<nat>, max_width: Option<nat>)
    requires
        forall|k: int| 0 <= k < natural.len() ==> natural[k] >= 1,
        max_width matches Some(m) ==> total(natural) + natural.len() * 3 + 1 <= m,
    ensures
        fitted_widths(natural, max_width) == natural,
{
    if natural.len() > 0 {
        assert(natural[0] >= 1);
        assert(total(natural) >= 1) by {
            lemma_total_pointwise(Seq::new(natural.len(), |_i: int| 1nat), natural);
            lemma_total_ones(natural.len());
        }
    }
}

/// Fitted widths keep one width per column, each at least 1 and at most the column's
/// natural width; whenever the limit leaves room for one content column per column
/// (`4n + 1` for `n` columns), the table with its borders fits within the limit.
pub proof fn fitted_widths_fit(natural: Seq<nat>, max_width: Option<nat>)
    requires
        forall|k: int| 0 <= k < natural.len() ==> natural[k] >= 1,
    ensures
        fitted_widths(natural, max_width).len() == natural.len(),
        forall|k: int|
            0 <= k < natural.len() ==> 1 <= #[trigger] fitted_widths(natural, max_width)[k]
                <= natural[k],
        max_width matches Some(m) ==> (m >= natural.len() * 4 + 1 ==> total(
            fitted_widths(natural, max_width),
        ) + natural.len() * 3 + 1 <= m),
{
    let n = natural.len();
    let ones = Seq::new(n, |_i: int| 1nat);
    lemma_total_ones(n);
    match max_width {
        None => {},
        Some(m) => if n > 0 {
            let border = n * 3 + 1;
            let budget: nat = if m > border {
                (m - border) as nat
            } else {
                0
            };
            if budget > 0 {
                let natural_mins = natural.map_values(|w: nat| min_width(w));
                let mins = if total(natural_mins) > budget {
                    ones
                } else {
                    natural_mins
                };
                assert forall|k: int| 0 <= k < n implies mins[k] <= natural[k] && 1 <= mins[k] by {
                    assert(natural_mins[k] == min_width(natural[k]));
                }
                lemma_shrink(natural, mins, budget);
                lemma_shrink_bounds(natural, mins, budget);
                let w = shrink(natural, mins, budget);
                assert forall|k: int| 0 <= k < n implies 1 <= #[trigger] fitted_widths(
                    natural,
                    max_width,
                )[k] <= natural[k] by {
                    assert(mins[k] <= w[k]);
                }
            }
        },
    }
}

/// The texts of the pieces, one after another.
pub open spec fn joined_pieces(ps: Seq<(Seq<char>, bool)>) -> Seq<char>
    decreases ps.len(),
{
    if ps.len() == 0 {
        Seq::empty()
    } else {
        joined_pieces(ps.drop_last()) + ps.last().0
    }
}

pub proof fn lemma_joined_single(p: (Seq<char>, bool))
    ensures
        joined_pieces(seq![p]) == p.0,
{
    let ps = seq![p];
    assert(ps.drop_last() =~= Seq::<(Seq<char>, bool)>::empty());
    assert(joined_pieces(Seq::<(Seq<char>, bool)>::empty()) == Seq::<char>::empty());
    assert(Seq::<char>::empty() + p.0 =~= p.0);
}

pub proof fn lemma_joined_pieces_append(a: Seq<(Seq<char>, bool)>, b: Seq<(Seq<char>, bool)>)
    ensures
        joined_pieces(a + b) == joined_pieces(a) + joined_pieces(b),
    decreases b.len(),
{
    if b.len() == 0 {
        assert(a + b =~= a);
        assert(joined_pieces(a) + Seq::<char>::empty() =~= joined_pieces(a));
    } else {
        assert((a + b).drop_last() =~= a + b.drop_last());
        lemma_joined_pieces_append(a, b.drop_last());
        assert(joined_pieces(a) + joined_pieces(b.drop_last()) + b.last().0 =~= joined_pieces(a)
            + (joined_pieces(b.drop_last()) + b.last().0));
    }
}

pub proof fn lemma_math_pieces_cover(s: Seq<char>, cursor: int)
    requires
        0 <= cursor <= s.len(),
    ensures
        joined_pieces(math_pieces(s, cursor)) == s.subrange(cursor, s.len() as int),
    decreases s.len() - cursor,
{
    let tail: Seq<(Seq<char>, bool)> = if cursor < s.len() {
        seq![(s.subrange(cursor, s.len() as int), false)]
    } else {
        Seq::empty()
    };
    assert(joined_pieces(tail) =~= s.subrange(cursor, s.len() as int)) by {
        if cursor < s.len() {
            lemma_joined_single((s.subrange(cursor, s.len() as int), false));
        } else {
            assert(joined_pieces(tail) == Seq::<char>::empty());
        }
    }
    lemma_find_dollar(s, cursor);
    match find_dollar(s, cursor) {
        None => {},
        Some(start) => {
            lemma_math_span_end(s, start);
            match math_span_end(s, start) {
                None => {},
                Some(end) => {
                    let before: Seq<(Seq<char>, bool)> = if start > cursor {
                        seq![(s.subrange(cursor, start), false)]
                    } else {
                        Seq::empty()
                    };
                    let mid = seq![(s.subrange(start, end), true)];
                    lemma_math_pieces_cover(s, end);
                    lemma_joined_pieces_append(before + mid, math_pieces(s, end));
                    lemma_joined_pieces_append(before, mid);
                    assert(joined_pieces(before) =~= s.subrange(cursor, start)) by {
                        if start > cursor {
                            lemma_joined_single((s.subrange(cursor, start), false));
                        } else {
                            assert(joined_pieces(before) == Seq::<char>::empty());
                        }
                    }
                    lemma_joined_single((s.subrange(start, end), true));
                    assert(s.subrange(cursor, start) + s.subrange(start, end) + s.subrange(
                        end,
                        s.len() as int,
                    ) =~= s.subrange(cursor, s.len() as int));
                },
            }
        },
    }
}

/// Splitting a line into plain and math pieces loses and repeats nothing: the pieces, one
/// after another, are the line.
pub proof fn math_pieces_rebuild_line(line: Seq<char>, in_block: bool)
    ensures
        joined_pieces(math_line(line, in_block).0) == line,
{
    if trimmed(line) == seq!['$', '$'] || in_block {
        lemma_joined_single((line, true));
    } else {
        lemma_math_pieces_cover(line, 0);
        assert(line.subrange(0, line.len() as int) =~= line);
    }
}

} // verus!

//! The small charts of poll and scheduled times: which buckets are shown,
//! how tall each bar is, which eighth-of-a-cell symbol fills each cell, and
//! the list of percentiles.
use vstd::prelude::*;
use crate::styles::{span_views, Span, Style, Styles};
use crate::table::duration_cell;
use crate::text::{decimal, push_decimal, string_from};
use crate::time::Duration;
use crate::view::{bold, bold_style, line_views};
use crate::warnings::push_str;

verus! {

/// The largest count of `s`, or 0 if it is empty.
pub open spec fn seq_max(s: Seq<u64>) -> u64
    decreases s.len(),
{
    if s.len() == 0 {
        0
    } else {
        let m = seq_max(s.drop_last());
        if s.last() > m {
            s.last()
        } else {
            m
        }
    }
}

/// The index of the first bucket of `s` that is not empty (or `s.len()`).
pub open spec fn first_nonzero(s: Seq<u64>) -> int
    decreases s.len(),
{
    if s.len() == 0 {
        0
    } else if s[0] != 0 {
        0
    } else {
        1 + first_nonzero(s.drop_first())
    }
}

proof fn lemma_first_nonzero(s: Seq<u64>)
    ensures
        0 <= first_nonzero(s) <= s.len(),
        forall|i: int| 0 <= i < first_nonzero(s) ==> s[i] == 0,
        first_nonzero(s) < s.len() ==> s[first_nonzero(s)] != 0,
    decreases s.len(),
{
    if s.len() > 0 && s[0] == 0 {
        lemma_first_nonzero(s.drop_first());
        assert forall|i: int| 0 <= i < first_nonzero(s) implies s[i] == 0 by {
            if i > 0 {
                assert(s[i] == s.drop_first()[i - 1]);
            }
        }
    }
}

/// The buckets shown from the counts of a histogram's linear buckets: from
/// the first one that is not empty on (the histogram may report empty
/// buckets before its first value), with the largest count.
pub fn chart_buckets(counts: &[u64]) -> (r: (Vec<u64>, u64))
    ensures
        r.0@ == counts@.skip(first_nonzero(counts@)),
        r.1 == seq_max(r.0@),
{
    proof {
        lemma_first_nonzero(counts@);
    }
    let n = counts.len();
    let mut start: usize = 0;
    while start < n && counts[start] == 0
        invariant
            n == counts@.len(),
            start <= n,
            0 <= first_nonzero(counts@) <= n,
            forall|i: int| 0 <= i < first_nonzero(counts@) ==> counts@[i] == 0,
            first_nonzero(counts@) < n ==> counts@[first_nonzero(counts@)] != 0,
            forall|i: int| 0 <= i < start ==> counts@[i] == 0,
        decreases n - start,
    {
        start = start + 1;
    }
    assert(start == first_nonzero(counts@)) by {
        if start < first_nonzero(counts@) {
            assert(counts@[start as int] == 0);
        }
        if start > first_nonzero(counts@) {
            assert(counts@[first_nonzero(counts@)] == 0);
        }
    }
    let mut data: Vec<u64> = Vec::new();
    let mut max: u64 = 0;
    let mut i = start;
    while i < n
        invariant
            n == counts@.len(),
            start <= i <= n,
            data@ == counts@.subrange(start as int, i as int),
            max == seq_max(data@),
        decreases n - i,
    {
        let ghost prev = data@;
        data.push(counts[i]);
        proof {
            assert(data@.drop_last() =~= prev);
            assert(data@ =~= counts@.subrange(start as int, i + 1));
        }
        if counts[i] > max {
            max = counts[i];
        }
        i = i + 1;
    }
    assert(data@ =~= counts@.skip(start as int));
    (data, max)
}

/// The height, in eighths of a cell, of the bar of a bucket of `count` in
/// a chart `height` cells high whose tallest bar stands for `max`: in
/// proportion, rounded down, but at least one eighth for a bucket that is
/// not empty; nothing when `max` is 0.
pub open spec fn bar_eighths(count: u64, height: u16, max: u64) -> nat {
    if max == 0 {
        0
    } else {
        let r = (count * height * 8) as nat / (max as nat);
        if count > 0 && r == 0 {
            1
        } else {
            r
        }
    }
}

/// How many eighths of the cell `k` cells above the bottom a bar of
/// `eighths` eighths fills (8 for a full cell).
pub open spec fn cell_eighths(eighths: nat, k: nat) -> nat {
    if eighths <= 8 * k {
        0
    } else if eighths - 8 * k >= 8 {
        8
    } else {
        (eighths - 8 * k) as nat
    }
}

/// The count that the tallest bar stands for: `max` if given, else the
/// largest count, or 1 when there is none.
pub open spec fn chart_max(data: Seq<u64>, max: Option<u64>) -> u64 {
    match max {
        Some(m) => m,
        None => if data.len() == 0 {
            1
        } else {
            seq_max(data)
        },
    }
}

/// The bars of `data` in a chart `width` cells wide and `height` cells
/// high, row by row from the top: for each of the first `width` buckets,
/// how many eighths of its cell the bar fills.
pub open spec fn bar_cells_of(data: Seq<u64>, width: u16, height: u16, max: Option<u64>) -> Seq<Seq<nat>> {
    let m = chart_max(data, max);
    let cols = if width < data.len() {
        width as nat
    } else {
        data.len()
    };
    Seq::new(
        height as nat,
        |j: int|
            Seq::new(
                cols,
                |i: int| cell_eighths(bar_eighths(data[i], height, m), (height - 1 - j) as nat),
            ),
    )
}

/// The largest count of `data` (`max` of an iterator, or `None`).
fn max_of(data: &[u64]) -> (r: Option<u64>)
    ensures
        data@.len() == 0 ==> r is None,
        data@.len() > 0 ==> r == Some(seq_max(data@)),
{
    let n = data.len();
    if n == 0 {
        return None;
    }
    let mut m: u64 = 0;
    for i in 0..n
        invariant
            n == data@.len(),
            m == seq_max(data@.take(i as int)),
    {
        assert(data@.take(i + 1).drop_last() =~= data@.take(i as int));
        if data[i] > m {
            m = data[i];
        }
    }
    assert(data@.take(n as int) =~= data@);
    Some(m)
}

/// The bars of `data` in a chart `width` cells wide and `height` cells high
/// (the `MiniHistogram` widget), as eighths of each cell, row by row from
/// the top. The counts must be small enough that a count times eight times
/// the height is a `u64`.
pub fn bar_cells(data: &[u64], width: u16, height: u16, max: Option<u64>) -> (r: Vec<Vec<u8>>)
    requires
        forall|i: int| 0 <= i < data@.len() ==> #[trigger] data@[i] * height * 8 <= u64::MAX,
    ensures
        r@.len() == height,
        forall|j: int|
            0 <= j < height ==> (#[trigger] r@[j])@.map_values(|x: u8| x as nat) == bar_cells_of(
                data@,
                width,
                height,
                max,
            )[j],
{
    let m = match max {
        Some(v) => v,
        None => match max_of(data) {
            Some(v) => v,
            None => 1,
        },
    };
    let cols = if (width as usize) < data.len() {
        width as usize
    } else {
        data.len()
    };
    let mut eighths: Vec<u64> = Vec::new();
    for i in 0..cols
        invariant
            cols <= data@.len(),
            m == chart_max(data@, max),
            forall|k: int| 0 <= k < data@.len() ==> #[trigger] data@[k] * height * 8 <= u64::MAX,
            eighths@.len() == i,
            forall|k: int| 0 <= k < i ==> #[trigger] eighths@[k] == bar_eighths(data@[k], height, m),
    {
        let e = data[i];
        assert(data@[i as int] * height * 8 <= u64::MAX);
        let r = if m != 0 {
            let q = e * (height as u64) * 8 / m;
            if e > 0 && q == 0 {
                1
            } else {
                q
            }
        } else {
            0
        };
        eighths.push(r);
    }
    let mut rows: Vec<Vec<u8>> = Vec::new();
    for j in 0..height
        invariant
            cols <= data@.len(),
            cols == (if width < data@.len() { width as nat } else { data@.len() }),
            m == chart_max(data@, max),
            eighths@.len() == cols,
            forall|k: int| 0 <= k < cols ==> #[trigger] eighths@[k] == bar_eighths(data@[k], height, m),
            rows@.len() == j,
            forall|jj: int|
                0 <= jj < j ==> (#[trigger] rows@[jj])@.map_values(|x: u8| x as nat) == bar_cells_of(
                    data@,
                    width,
                    height,
                    max,
                )[jj],
    {
        let k: u64 = (height - 1 - j) as u64;
        let mut row: Vec<u8> = Vec::new();
        for i in 0..cols
            invariant
                eighths@.len() == cols,
                k == height - 1 - j,
                row@.len() == i,
                forall|c: int|
                    0 <= c < i ==> #[trigger] row@[c] as nat == cell_eighths(eighths@[c] as nat, k as nat),
        {
            let e = eighths[i];
            let cell: u8 = if e <= 8 * k {
                0
            } else if e - 8 * k >= 8 {
                8
            } else {
                (e - 8 * k) as u8
            };
            row.push(cell);
        }
        proof {
            let want = bar_cells_of(data@, width, height, max)[j as int];
            assert(want.len() == cols);
            assert(row@.map_values(|x: u8| x as nat) =~= want);
        }
        rows.push(row);
    }
    rows
}

/// The label of percentile `p` in the list of percentiles: `p`, right-
/// aligned in two characters, and `: `.
pub open spec fn percentile_label(p: nat) -> Seq<char> {
    seq!['p'] + (if p < 10 {
        seq![' ']
    } else {
        Seq::empty()
    }) + decimal(p) + ": "@
}

/// The lines of the list of percentiles: for each percentile and the value
/// at it (in nanoseconds), the label in bold and the duration.
pub open spec fn percentile_lines_of(pairs: Seq<(u64, u64)>, styles: Styles, prec: usize) -> Seq<
    Seq<(Seq<char>, Style)>,
> {
    pairs.map_values(
        |p: (u64, u64)|
            seq![(percentile_label(p.0 as nat), bold_style()), duration_cell(styles, p.1 as nat, prec, 0)],
    )
}

/// The lines of the list of percentiles for `pairs` of a percentile and the
/// value at it, in nanoseconds.
pub fn percentile_lines(pairs: &[(u64, u64)], styles: &Styles, prec: usize) -> (r: Vec<Vec<Span>>)
    requires
        prec <= u16::MAX,
    ensures
        line_views(r@) == percentile_lines_of(pairs@, *styles, prec),
{
    let mut lines: Vec<Vec<Span>> = Vec::new();
    let n = pairs.len();
    for i in 0..n
        invariant
            n == pairs@.len(),
            prec <= u16::MAX,
            line_views(lines@) == percentile_lines_of(pairs@, *styles, prec).take(i as int),
    {
        let (p, v) = pairs[i];
        let mut label: Vec<char> = Vec::new();
        label.push('p');
        if p < 10 {
            label.push(' ');
        }
        push_decimal(p as u128, &mut label);
        push_str(&mut label, ": ");
        proof {
            reveal_strlit(": ");
            assert(label@ =~= percentile_label(p as nat));
        }
        let label_text = string_from(label.as_slice());
        let first = bold(label_text.as_str());
        let second = styles.time_units(Duration::from_nanos(v), prec, None);
        let line = vec![first, second];
        proof {
            assert(span_views(line@) =~= seq![
                (percentile_label(p as nat), bold_style()),
                duration_cell(*styles, v as nat, prec, 0),
            ]);
            assert(pairs@[i as int] == (p, v));
        }
        let ghost prev = lines@;
        lines.push(line);
        proof {
            assert(line_views(lines@) =~= line_views(prev).push(span_views(line@)));
            assert(line_views(lines@) =~= percentile_lines_of(pairs@, *styles, prec).take(i + 1));
        }
    }
    proof {
        assert(percentile_lines_of(pairs@, *styles, prec).take(n as int) =~= percentile_lines_of(
            pairs@,
            *styles,
            prec,
        ));
    }
    lines
}

} // verus!

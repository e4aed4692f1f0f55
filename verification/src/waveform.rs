//! Pixel-buffer and column bookkeeping for waveform charts: widening an RGB
//! buffer to RGBA, and which samples each pixel column of a waveform covers.

use vstd::prelude::*;

verus! {

/// The RGBA buffer for an RGB buffer: each complete 3-byte pixel becomes the
/// same colour with alpha 255; trailing bytes that do not fill a pixel are
/// dropped.
pub open spec fn rgba_from_rgb(rgb: Seq<u8>) -> Seq<u8> {
    Seq::new(
        (rgb.len() / 3) * 4,
        |j: int|
            if j % 4 == 3 {
                255u8
            } else {
                rgb[(j / 4) * 3 + j % 4]
            },
    )
}

/// Convert a flat RGB buffer (3 bytes/pixel) to a flat RGBA buffer (4 bytes/pixel,
/// alpha = 255).
pub fn rgb_to_rgba(rgb: &[u8]) -> (rgba: Vec<u8>)
    ensures
        rgba@ == rgba_from_rgb(rgb@),
{
    let pixels: usize = rgb.len() / 3;
    let mut rgba: Vec<u8> = Vec::new();
    let mut p: usize = 0;
    while p < pixels
        invariant
            pixels == rgb@.len() / 3,
            3 * pixels <= rgb@.len(),
            p <= pixels,
            rgba@.len() == 4 * p,
            forall|j: int| 0 <= j < 4 * p ==> #[trigger] rgba@[j] == rgba_from_rgb(rgb@)[j],
        decreases pixels - p,
    {
        assert(rgb@.len() == rgb.len());
        assert(3 * p + 3 <= rgb@.len());
        let base: usize = 3 * p;
        rgba.push(rgb[base]);
        rgba.push(rgb[base + 1]);
        rgba.push(rgb[base + 2]);
        rgba.push(255u8);
        proof {
            assert forall|j: int| 4 * p <= j < 4 * p + 4 implies #[trigger] rgba@[j] == rgba_from_rgb(
                rgb@,
            )[j] by {
                assert(j / 4 == p);
                assert(j % 4 == j - 4 * p);
            }
        }
        p = p + 1;
    }
    assert(rgba@ =~= rgba_from_rgb(rgb@));
    rgba
}

/// Channel `k` of pixel `p` in a buffer of 3-byte pixels.
pub open spec fn rgb_channel(rgb: Seq<u8>, p: int, k: int) -> u8 {
    rgb[3 * p + k]
}

/// Channel `k` of pixel `p` in a buffer of 4-byte pixels.
pub open spec fn rgba_channel(rgba: Seq<u8>, p: int, k: int) -> u8 {
    rgba[4 * p + k]
}

/// Law: widening keeps every whole pixel, in order: the red, green and blue
/// bytes of each pixel are copied unchanged, its alpha byte is 255, and there
/// is nothing else in the result.
pub proof fn lemma_rgb_to_rgba_copies_colours(rgb: Seq<u8>)
    ensures
        rgba_from_rgb(rgb).len() == 4 * (rgb.len() / 3),
        forall|p: int, k: int|
            0 <= p < rgb.len() / 3 && 0 <= k < 3 ==> #[trigger] rgba_channel(rgba_from_rgb(rgb), p, k)
                == rgb_channel(rgb, p, k),
        forall|p: int|
            0 <= p < rgb.len() / 3 ==> #[trigger] rgba_channel(rgba_from_rgb(rgb), p, 3) == 255u8,
{
    assert forall|p: int, k: int|
        0 <= p < rgb.len() / 3 && 0 <= k < 3 implies #[trigger] rgba_channel(rgba_from_rgb(rgb), p, k)
        == rgb_channel(rgb, p, k) by {
        assert((4 * p + k) / 4 == p);
        assert((4 * p + k) % 4 == k);
    }
    assert forall|p: int| 0 <= p < rgb.len() / 3 implies #[trigger] rgba_channel(
        rgba_from_rgb(rgb),
        p,
        3,
    ) == 255u8 by {
        assert((4 * p + 3) % 4 == 3);
    }
}

/// Law: widening the RGB buffer of a `width` x `height` image gives the
/// `4 * width * height` bytes of the RGBA image, every pixel opaque.
pub proof fn lemma_rgba_image_size(rgb: Seq<u8>, width: nat, height: nat)
    requires
        rgb.len() == 3 * (width * height),
    ensures
        rgba_from_rgb(rgb).len() == 4 * (width * height),
        forall|p: int| 0 <= p < width * height ==> #[trigger] rgba_from_rgb(rgb)[4 * p + 3] == 255u8,
{
    assert forall|p: int| 0 <= p < width * height implies #[trigger] rgba_from_rgb(rgb)[4 * p + 3]
        == 255u8 by {
        assert((4 * p + 3) % 4 == 3);
    }
}

/// `a / b` rounded up.
pub open spec fn ceil_div(a: int, b: int) -> int {
    if (a / b) * b == a {
        a / b
    } else {
        a / b + 1
    }
}

/// First sample index of pixel column `column` when `samples` samples are
/// spread over `columns` columns: `column * samples / columns`, rounded down.
pub open spec fn column_start(column: int, samples: int, columns: int) -> int {
    (column * samples) / columns
}

/// One past the last sample index of pixel column `column`:
/// `(column + 1) * samples / columns`, rounded up.
pub open spec fn column_end(column: int, samples: int, columns: int) -> int {
    ceil_div((column + 1) * samples, columns)
}

/// The samples that pixel column `column` aggregates, as a half-open index
/// range, or `None` when the column gets no sample.
pub open spec fn column_range(column: int, samples: int, columns: int) -> Option<(int, int)> {
    let start = column_start(column, samples, columns);
    let end = column_end(column, samples, columns);
    if start >= samples || start >= end {
        None
    } else {
        Some((start, end))
    }
}

/// The sample range of one pixel column of a waveform chart with `columns`
/// columns over `sample_count` samples.
pub fn waveform_column_range(column: usize, sample_count: usize, columns: usize) -> (r: Option<
    (usize, usize),
>)
    requires
        column < columns,
        columns * sample_count <= usize::MAX,
    ensures
        match r {
            Some((start, end)) => column_range(column as int, sample_count as int, columns as int)
                == Some((start as int, end as int)),
            None => column_range(column as int, sample_count as int, columns as int) is None,
        },
{
    proof {
        lemma_mul_le(column as int + 1, columns as int, sample_count as int);
        lemma_mul_le(column as int, column as int + 1, sample_count as int);
    }
    let start: usize = column * sample_count / columns;
    let upper_bound: usize = (column + 1) * sample_count;
    let quotient: usize = upper_bound / columns;
    proof {
        lemma_div_bounds(upper_bound as int, columns as int);
    }
    let end: usize = if quotient * columns == upper_bound {
        quotient
    } else {
        proof {
            if columns == 1 {
                assert(quotient * columns == quotient);
                assert(upper_bound / 1 == upper_bound);
            } else {
                lemma_mul_le(2, columns as int, quotient as int);
                assert(columns * quotient == quotient * columns) by (nonlinear_arith);
                assert(quotient * columns <= upper_bound);
                assert(2 * quotient <= upper_bound);
            }
            assert(quotient < upper_bound);
        }
        quotient + 1
    };
    if start >= sample_count || start >= end {
        None
    } else {
        Some((start, end))
    }
}

/// The sample range of every pixel column of a waveform chart, left to right.
pub fn waveform_column_ranges(sample_count: usize, columns: usize) -> (ranges: Vec<
    Option<(usize, usize)>,
>)
    requires
        columns * sample_count <= usize::MAX,
    ensures
        ranges.len() == columns,
        forall|c: int|
            0 <= c < columns ==> match #[trigger] ranges[c] {
                Some((start, end)) => column_range(c, sample_count as int, columns as int) == Some(
                    (start as int, end as int),
                ),
                None => column_range(c, sample_count as int, columns as int) is None,
            },
{
    let mut ranges: Vec<Option<(usize, usize)>> = Vec::new();
    if columns == 0 {
        return ranges;
    }
    if sample_count == 0 {
        let mut c: usize = 0;
        while c < columns
            invariant
                c <= columns,
                sample_count == 0,
                ranges.len() == c,
                forall|k: int| 0 <= k < c ==> #[trigger] ranges[k] == None::<(usize, usize)>,
            decreases columns - c,
        {
            ranges.push(None);
            c = c + 1;
        }
        assert forall|k: int| 0 <= k < columns implies column_range(
            k,
            sample_count as int,
            columns as int,
        ) is None by {
            assert(k * 0 == 0);
        }
        return ranges;
    }
    let mut column: usize = 0;
    while column < columns
        invariant
            column <= columns,
            columns * sample_count <= usize::MAX,
            ranges.len() == column,
            forall|c: int|
                0 <= c < column ==> match #[trigger] ranges[c] {
                    Some((start, end)) => column_range(c, sample_count as int, columns as int)
                        == Some((start as int, end as int)),
                    None => column_range(c, sample_count as int, columns as int) is None,
                },
        decreases columns - column,
    {
        let range = waveform_column_range(column, sample_count, columns);
        let ghost before = ranges@;
        ranges.push(range);
        assert forall|c: int| 0 <= c <= column implies match #[trigger] ranges[c] {
            Some((start, end)) => column_range(c, sample_count as int, columns as int) == Some(
                (start as int, end as int),
            ),
            None => column_range(c, sample_count as int, columns as int) is None,
        } by {
            if c < column {
                assert(ranges[c] == before[c]);
            }
        }
        column = column + 1;
    }
    ranges
}

proof fn lemma_ceil_div_bounds(a: int, b: int)
    requires
        a >= 0,
        b > 0,
    ensures
        ceil_div(a, b) >= 0,
        ceil_div(a, b) * b >= a,
        ceil_div(a, b) * b < a + b,
{
    lemma_div_bounds(a, b);
    let q = a / b;
    if q * b != a {
        assert((q + 1) * b == q * b + b) by (nonlinear_arith);
    }
}

/// If `x * b < y * b` for a positive `b`, then `x < y`.
proof fn lemma_mul_lt_cancel(x: int, y: int, b: int)
    by (nonlinear_arith)
    requires
        b > 0,
        x * b < y * b,
    ensures
        x < y,
{
}

/// Law: when there is at least one sample, every column gets a non-empty
/// range of samples that lies inside the samples.
pub proof fn lemma_every_column_nonempty(column: int, samples: int, columns: int)
    requires
        0 <= column < columns,
        samples > 0,
    ensures
        0 <= column_start(column, samples, columns) < column_end(column, samples, columns) <= samples,
        column_range(column, samples, columns) == Some(
            (column_start(column, samples, columns), column_end(column, samples, columns)),
        ),
{
    let s = column_start(column, samples, columns);
    let e = column_end(column, samples, columns);
    let u = (column + 1) * samples;
    assert(column * samples >= 0) by (nonlinear_arith)
        requires
            column >= 0,
            samples > 0,
    ;
    assert(u == column * samples + samples) by (nonlinear_arith)
        requires
            u == (column + 1) * samples,
    ;
    assert(u <= columns * samples) by (nonlinear_arith)
        requires
            u == (column + 1) * samples,
            column + 1 <= columns,
            samples > 0,
    ;
    lemma_div_bounds(column * samples, columns);
    lemma_ceil_div_bounds(u, columns);
    // start < samples: s * columns <= column * samples < columns * samples
    assert(column * samples < samples * columns) by (nonlinear_arith)
        requires
            column < columns,
            samples > 0,
    ;
    lemma_mul_lt_cancel(s, samples, columns);
    // start < end: s * columns <= column * samples < u <= e * columns
    lemma_mul_lt_cancel(s, e, columns);
    // end <= samples: e * columns < u + columns <= (samples + 1) * columns
    assert((samples + 1) * columns == samples * columns + columns) by (nonlinear_arith);
    assert(columns * samples == samples * columns) by (nonlinear_arith);
    lemma_mul_lt_cancel(e, samples + 1, columns);
}

/// Law: the columns span all samples: the first column starts at the first
/// sample and the last column ends after the last sample.
pub proof fn lemma_columns_span_all_samples(samples: int, columns: int)
    requires
        samples > 0,
        columns > 0,
    ensures
        column_start(0, samples, columns) == 0,
        column_end(columns - 1, samples, columns) == samples,
{
    assert(0 * samples == 0);
    assert(0int / columns == 0);
    let u = (columns - 1 + 1) * samples;
    assert(u == samples * columns) by (nonlinear_arith)
        requires
            u == (columns - 1 + 1) * samples,
    ;
    assert((samples * columns) / columns == samples && ((samples * columns) / columns) * columns
        == samples * columns) by (nonlinear_arith)
        requires
            columns > 0,
    ;
}

/// Law: neighbouring columns leave no sample out and share at most one
/// sample: the next column starts no later than this one ends, and at most
/// one sample earlier.
pub proof fn lemma_adjacent_columns_meet(column: int, samples: int, columns: int)
    requires
        0 <= column,
        column + 1 < columns,
        samples >= 0,
    ensures
        column_start(column + 1, samples, columns) <= column_end(column, samples, columns),
        column_end(column, samples, columns) <= column_start(column + 1, samples, columns) + 1,
{
    let u = (column + 1) * samples;
    assert(u >= 0) by (nonlinear_arith)
        requires
            column >= 0,
            samples >= 0,
            u == (column + 1) * samples,
    ;
    lemma_div_bounds(u, columns);
    lemma_ceil_div_bounds(u, columns);
}

/// Law: every sample belongs to the range of some column.
pub proof fn lemma_every_sample_in_a_column(i: int, samples: int, columns: int)
    requires
        0 <= i < samples,
        columns > 0,
    ensures
        exists|c: int|
            0 <= c < columns && #[trigger] column_start(c, samples, columns) <= i < column_end(
                c,
                samples,
                columns,
            ),
{
    let c = (i * columns) / samples;
    assert(i * columns >= 0) by (nonlinear_arith)
        requires
            i >= 0,
            columns > 0,
    ;
    lemma_div_bounds(i * columns, samples);
    // c < columns: c * samples <= i * columns < samples * columns
    assert(i * columns < columns * samples) by (nonlinear_arith)
        requires
            i < samples,
            columns > 0,
    ;
    lemma_mul_lt_cancel(c, columns, samples);
    // start(c) <= i: c * samples <= i * columns, so c * samples / columns <= i
    let cs = c * samples;
    assert(cs >= 0) by (nonlinear_arith)
        requires
            c >= 0,
            samples > 0,
            cs == c * samples,
    ;
    lemma_div_bounds(cs, columns);
    assert((cs / columns) * columns <= cs);
    assert(cs <= i * columns);
    assert((cs / columns) < i + 1) by {
        assert((cs / columns) * columns < (i + 1) * columns) by (nonlinear_arith)
            requires
                (cs / columns) * columns <= cs,
                cs <= i * columns,
                columns > 0,
        ;
        lemma_mul_lt_cancel(cs / columns, i + 1, columns);
    }
    // i < end(c): i * columns < (c + 1) * samples <= end(c) * columns
    let u = (c + 1) * samples;
    assert(u == cs + samples) by (nonlinear_arith)
        requires
            u == (c + 1) * samples,
            cs == c * samples,
    ;
    lemma_ceil_div_bounds(u, columns);
    assert(i * columns < u);
    assert(i * columns < ceil_div(u, columns) * columns);
    assert(columns * i == i * columns && columns * ceil_div(u, columns) == ceil_div(u, columns)
        * columns) by (nonlinear_arith);
    lemma_mul_lt_cancel(i, ceil_div(u, columns), columns);
    assert(column_start(c, samples, columns) <= i < column_end(c, samples, columns));
}

proof fn lemma_div_bounds(a: int, b: int)
    by (nonlinear_arith)
    requires
        a >= 0,
        b > 0,
    ensures
        0 <= a / b,
        (a / b) * b <= a,
        a < (a / b) * b + b,
{
}

proof fn lemma_mul_le(a: int, b: int, c: int)
    by (nonlinear_arith)
    requires
        a <= b,
        c >= 0,
    ensures
        a * c <= b * c,
{
}

} // verus!

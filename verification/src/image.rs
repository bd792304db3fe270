//! Assembly of the field image: placement of each star's intensity tile at
//! its integer pixel offset, and block binning of the oversampled working
//! buffer down to the requested pixel scale.
//!
//! Both operations move photon counts between flat square buffers; the index
//! maps below say exactly which cell goes where, and the partition lemma
//! states why block binning conserves the total: distinct bins draw from
//! distinct cells, and when the block size divides the buffer side the bins
//! cover the buffer exactly.

use vstd::prelude::*;

use crate::zpdft::flat;

verus! {

/// Rows of trimmed margin left on each side of the buffer when its side is
/// not a multiple of the bin size.
pub open spec fn bin_margin(sampling: int, m: int) -> int {
    (sampling - (sampling / m) * m) / 2
}

/// Flat index of the working-buffer cell that feeds sub-cell `(ib, jb)` of
/// output bin `(i, j)`: block `(i, j)` of the centered trimmed region, read
/// transposed, as the accumulation buffer is laid out.
pub open spec fn bin_source(sampling: int, m: int, i: int, j: int, ib: int, jb: int) -> int {
    flat(
        j * m + jb + bin_margin(sampling, m),
        i * m + ib + bin_margin(sampling, m),
        sampling,
    )
}

/// An index in an `rows x cols` rectangle is bounded by the rectangle size.
proof fn lemma_rect_bounds(a: int, b: int, rows: int, cols: int)
    requires
        0 <= a < rows,
        0 <= b < cols,
    ensures
        0 <= a * cols + b < rows * cols,
{
    assert(0 <= a * cols + b < rows * cols) by (nonlinear_arith)
        requires
            0 <= a < rows,
            0 <= b < cols,
    ;
}

/// Row-major indices agree only on equal (row, column) pairs.
proof fn lemma_rect_injective(a: int, b: int, c: int, d: int, cols: int)
    requires
        0 <= b < cols,
        0 <= d < cols,
        0 <= a,
        0 <= c,
        a * cols + b == c * cols + d,
    ensures
        a == c,
        b == d,
{
    assert(a == c && b == d) by (nonlinear_arith)
        requires
            0 <= b < cols,
            0 <= d < cols,
            0 <= a,
            0 <= c,
            a * cols + b == c * cols + d,
    ;
}

/// The whole-bin region fits inside the buffer: `(sampling / m) * m`, plus
/// the margins, never exceeds the buffer side.
proof fn lemma_bin_region_fits(sampling: int, m: int)
    requires
        0 < m <= sampling,
    ensures
        0 <= (sampling / m) * m <= sampling,
        0 <= bin_margin(sampling, m),
        (sampling / m) * m + 2 * bin_margin(sampling, m) <= sampling,
{
    assert(0 <= (sampling / m) * m <= sampling) by (nonlinear_arith)
        requires
            0 < m <= sampling,
    ;
}

/// Destination cell, in the `n`-sided working buffer, for every cell of an
/// `n`-sided intensity tile placed at integer pixel offset `(i0, j0)`:
/// entry `flat(i, j, n)` holds the buffer index that tile cell `(i, j)`
/// accumulates into, or nothing where the offset tile leaves the buffer.
pub fn shift_and_add_map(n: usize, i0: i64, j0: i64) -> (r: Vec<Option<usize>>)
    requires
        n * n <= usize::MAX,
        n <= 0x7fff_ffff,
        -0x8000_0000 <= i0 <= 0x7fff_ffff,
        -0x8000_0000 <= j0 <= 0x7fff_ffff,
    ensures
        r@.len() == n * n,
        forall|i: int, j: int|
            0 <= i < n && 0 <= j < n ==> r@[flat(i, j, n as int)] == (
            if 0 <= i + i0 < n && 0 <= j + j0 < n {
                Some(flat(i + i0, j + j0, n as int) as usize)
            } else {
                None::<usize>
            }),
{
    let ghost n_i = n as int;
    let mut out: Vec<Option<usize>> = Vec::new();
    let mut i: usize = 0;
    while i < n
        invariant
            i <= n,
            n * n <= usize::MAX,
            n <= 0x7fff_ffff,
            -0x8000_0000 <= i0 <= 0x7fff_ffff,
            -0x8000_0000 <= j0 <= 0x7fff_ffff,
            n_i == n as int,
            out@.len() == i * n,
            forall|i2: int, j2: int|
                0 <= i2 < i && 0 <= j2 < n ==> out@[flat(i2, j2, n_i)] == (
                if 0 <= i2 + i0 < n && 0 <= j2 + j0 < n {
                    Some(flat(i2 + i0, j2 + j0, n_i) as usize)
                } else {
                    None::<usize>
                }),
        decreases n - i,
    {
        let ii = i as i64 + i0;
        let mut j: usize = 0;
        while j < n
            invariant
                i < n,
                j <= n,
                n * n <= usize::MAX,
                n <= 0x7fff_ffff,
                -0x8000_0000 <= i0 <= 0x7fff_ffff,
                -0x8000_0000 <= j0 <= 0x7fff_ffff,
                n_i == n as int,
                ii == i + i0,
                out@.len() == i * n + j,
                forall|i2: int, j2: int|
                    0 <= i2 < i && 0 <= j2 < n ==> out@[flat(i2, j2, n_i)] == (
                    if 0 <= i2 + i0 < n && 0 <= j2 + j0 < n {
                        Some(flat(i2 + i0, j2 + j0, n_i) as usize)
                    } else {
                        None::<usize>
                    }),
                forall|j2: int|
                    0 <= j2 < j ==> out@[flat(i as int, j2, n_i)] == (
                    if 0 <= i + i0 < n && 0 <= j2 + j0 < n {
                        Some(flat(i as int + i0, j2 + j0, n_i) as usize)
                    } else {
                        None::<usize>
                    }),
            decreases n - j,
        {
            let jj = j as i64 + j0;
            if ii >= 0 && ii < n as i64 && jj >= 0 && jj < n as i64 {
                proof {
                    lemma_rect_bounds(ii as int, jj as int, n_i, n_i);
                }
                let kk = (ii as usize) * n + (jj as usize);
                out.push(Some(kk));
            } else {
                out.push(None);
            }
            proof {
                lemma_rect_bounds(i as int, j as int, n_i, n_i);
                assert forall|i2: int, j2: int|
                    (0 <= i2 < i && 0 <= j2 < n) || (i2 == i && 0 <= j2 < j + 1) implies out@[flat(
                    i2,
                    j2,
                    n_i,
                )] == (if 0 <= i2 + i0 < n && 0 <= j2 + j0 < n {
                    Some(flat(i2 + i0, j2 + j0, n_i) as usize)
                } else {
                    None::<usize>
                }) by {
                    if i2 < i || j2 < j {
                        lemma_rect_bounds(i2, j2, n_i, n_i);
                        assert(flat(i2, j2, n_i) < i * n_i + j) by (nonlinear_arith)
                            requires
                                0 <= i2 <= i as int,
                                0 <= j2 < n_i,
                                j as int <= n_i,
                                i2 < i || j2 < j,
                        ;
                    }
                }
            }
            j = j + 1;
        }
        proof {
            assert(i * n_i + n_i == (i + 1) * n_i) by (nonlinear_arith);
        }
        i = i + 1;
    }
    out
}

/// The `m * m` working-buffer cells that feed output bin `(i, j)` when an
/// oversampled buffer of side `sampling` is binned down by blocks of `m`:
/// entry `flat(ib, jb, m)` is the flat buffer index of the block's cell
/// `(ib, jb)`.  Summing the buffer over each bin's cells is the whole of
/// binning; the total is conserved because the maps of distinct bins are
/// disjoint (see [`lemma_bin_sources_distinct`]).
pub fn bin_sources(sampling: usize, m: usize, i: usize, j: usize) -> (r: Vec<usize>)
    requires
        0 < m <= sampling,
        sampling * sampling <= usize::MAX,
        i < sampling / m,
        j < sampling / m,
    ensures
        r@.len() == m * m,
        forall|ib: int, jb: int|
            0 <= ib < m && 0 <= jb < m ==> r@[flat(ib, jb, m as int)] == bin_source(
                sampling as int,
                m as int,
                i as int,
                j as int,
                ib,
                jb,
            ),
        forall|k: int| 0 <= k < r@.len() ==> r@[k] < sampling * sampling,
{
    let ghost s_i = sampling as int;
    let ghost m_i = m as int;
    let n = sampling / m;
    proof {
        lemma_bin_region_fits(s_i, m_i);
    }
    let h = (sampling - n * m) / 2;
    let ghost h_i = h as int;
    proof {
        assert(h_i == bin_margin(s_i, m_i));
        lemma_rect_bounds(j as int, m_i - 1, n as int, m_i);
        lemma_rect_bounds(i as int, m_i - 1, n as int, m_i);
    }
    let row0 = j * m + h;
    let col0 = i * m + h;
    let mut out: Vec<usize> = Vec::new();
    let mut ib: usize = 0;
    while ib < m
        invariant
            ib <= m,
            0 < m <= sampling,
            sampling * sampling <= usize::MAX,
            s_i == sampling as int,
            m_i == m as int,
            h_i == h as int,
            h_i == bin_margin(s_i, m_i),
            row0 == j * m_i + h_i,
            col0 == i * m_i + h_i,
            row0 + m <= sampling,
            col0 + m <= sampling,
            out@.len() == ib * m,
            forall|ib2: int, jb2: int|
                0 <= ib2 < ib && 0 <= jb2 < m ==> out@[flat(ib2, jb2, m_i)] == bin_source(
                    s_i,
                    m_i,
                    i as int,
                    j as int,
                    ib2,
                    jb2,
                ),
            forall|k: int| 0 <= k < out@.len() ==> out@[k] < sampling * sampling,
        decreases m - ib,
    {
        let mut jb: usize = 0;
        while jb < m
            invariant
                ib < m,
                jb <= m,
                0 < m <= sampling,
                sampling * sampling <= usize::MAX,
                s_i == sampling as int,
                m_i == m as int,
                h_i == h as int,
                h_i == bin_margin(s_i, m_i),
                row0 == j * m_i + h_i,
                col0 == i * m_i + h_i,
                row0 + m <= sampling,
                col0 + m <= sampling,
                out@.len() == ib * m + jb,
                forall|ib2: int, jb2: int|
                    0 <= ib2 < ib && 0 <= jb2 < m ==> out@[flat(ib2, jb2, m_i)] == bin_source(
                        s_i,
                        m_i,
                        i as int,
                        j as int,
                        ib2,
                        jb2,
                    ),
                forall|jb2: int|
                    0 <= jb2 < jb ==> out@[flat(ib as int, jb2, m_i)] == bin_source(
                        s_i,
                        m_i,
                        i as int,
                        j as int,
                        ib as int,
                        jb2,
                    ),
                forall|k: int| 0 <= k < out@.len() ==> out@[k] < sampling * sampling,
            decreases m - jb,
        {
            proof {
                lemma_rect_bounds(row0 + jb, col0 + ib, s_i, s_i);
            }
            let kk = (row0 + jb) * sampling + (col0 + ib);
            out.push(kk);
            proof {
                lemma_rect_bounds(ib as int, jb as int, m_i, m_i);
                assert(kk == bin_source(s_i, m_i, i as int, j as int, ib as int, jb as int));
                assert forall|ib2: int, jb2: int|
                    (0 <= ib2 < ib && 0 <= jb2 < m) || (ib2 == ib && 0 <= jb2 < jb + 1) implies
                    out@[flat(ib2, jb2, m_i)] == bin_source(
                    s_i,
                    m_i,
                    i as int,
                    j as int,
                    ib2,
                    jb2,
                ) by {
                    if ib2 < ib || jb2 < jb {
                        lemma_rect_bounds(ib2, jb2, m_i, m_i);
                        assert(flat(ib2, jb2, m_i) < ib * m_i + jb) by (nonlinear_arith)
                            requires
                                0 <= ib2 <= ib as int,
                                0 <= jb2 < m_i,
                                jb as int <= m_i,
                                ib2 < ib || jb2 < jb,
                        ;
                    }
                }
            }
            jb = jb + 1;
        }
        proof {
            assert(ib * m_i + m_i == (ib + 1) * m_i) by (nonlinear_arith);
        }
        ib = ib + 1;
    }
    out
}

/// Binning draws each working-buffer cell into at most one output bin:
/// distinct (bin, sub-cell) pairs read distinct buffer cells.  With
/// [`lemma_bin_sources_cover`] this is why block binning conserves the
/// buffer total whenever the bin size divides the buffer side.
pub proof fn lemma_bin_sources_distinct(
    sampling: int,
    m: int,
    i1: int,
    j1: int,
    ib1: int,
    jb1: int,
    i2: int,
    j2: int,
    ib2: int,
    jb2: int,
)
    requires
        0 < m <= sampling,
        0 <= i1 < sampling / m,
        0 <= j1 < sampling / m,
        0 <= ib1 < m,
        0 <= jb1 < m,
        0 <= i2 < sampling / m,
        0 <= j2 < sampling / m,
        0 <= ib2 < m,
        0 <= jb2 < m,
        !(i1 == i2 && j1 == j2 && ib1 == ib2 && jb1 == jb2),
    ensures
        bin_source(sampling, m, i1, j1, ib1, jb1) != bin_source(sampling, m, i2, j2, ib2, jb2),
{
    let n = sampling / m;
    let h = bin_margin(sampling, m);
    lemma_bin_region_fits(sampling, m);
    lemma_rect_bounds(j1, jb1, n, m);
    lemma_rect_bounds(i1, ib1, n, m);
    lemma_rect_bounds(j2, jb2, n, m);
    lemma_rect_bounds(i2, ib2, n, m);
    if bin_source(sampling, m, i1, j1, ib1, jb1) == bin_source(sampling, m, i2, j2, ib2, jb2) {
        lemma_rect_injective(
            j1 * m + jb1 + h,
            i1 * m + ib1 + h,
            j2 * m + jb2 + h,
            i2 * m + ib2 + h,
            sampling,
        );
        lemma_rect_injective(j1, jb1, j2, jb2, m);
        lemma_rect_injective(i1, ib1, i2, ib2, m);
    }
}

/// When the bin size divides the buffer side, every working-buffer cell
/// feeds some output bin: binning loses nothing.
pub proof fn lemma_bin_sources_cover(sampling: int, m: int, k: int)
    requires
        0 < m <= sampling,
        sampling % m == 0,
        0 <= k < sampling * sampling,
    ensures
        exists|i: int, j: int, ib: int, jb: int|
            0 <= i < sampling / m && 0 <= j < sampling / m && 0 <= ib < m && 0 <= jb < m && k
                == bin_source(sampling, m, i, j, ib, jb),
{
    let n = sampling / m;
    vstd::arithmetic::div_mod::lemma_fundamental_div_mod(sampling, m);
    assert(n * m == sampling) by (nonlinear_arith)
        requires
            sampling == m * (sampling / m) + sampling % m,
            sampling % m == 0,
            n == sampling / m,
    ;
    assert(bin_margin(sampling, m) == 0);
    let row = k / sampling;
    let col = k % sampling;
    vstd::arithmetic::div_mod::lemma_fundamental_div_mod(k, sampling);
    assert(0 <= row < sampling && 0 <= col < sampling) by (nonlinear_arith)
        requires
            k == sampling * (k / sampling) + k % sampling,
            0 <= k < sampling * sampling,
            0 <= k % sampling < sampling,
            row == k / sampling,
            col == k % sampling,
            sampling > 0,
    ;
    let j = row / m;
    let jb = row % m;
    let i = col / m;
    let ib = col % m;
    vstd::arithmetic::div_mod::lemma_fundamental_div_mod(row, m);
    vstd::arithmetic::div_mod::lemma_fundamental_div_mod(col, m);
    assert(0 <= j < n && 0 <= i < n) by (nonlinear_arith)
        requires
            row == m * (row / m) + row % m,
            col == m * (col / m) + col % m,
            0 <= row % m < m,
            0 <= col % m < m,
            0 <= row < n * m,
            0 <= col < n * m,
            j == row / m,
            i == col / m,
            m > 0,
    ;
    assert(k == bin_source(sampling, m, i, j, ib, jb)) by (nonlinear_arith)
        requires
            k == sampling * row + col,
            row == m * j + jb,
            col == m * i + ib,
            bin_source(sampling, m, i, j, ib, jb) == (j * m + jb) * sampling + (i * m + ib),
    ;
}

} // verus!

//! Zero-padded DFT grid engine: the square complex buffer underlying the
//! two-dimensional discrete Fourier transform, generic in the sample type.
//!
//! The engine owns every index computation of the transform pipeline —
//! centered zero-padding with wraparound, the frequency shift that moves the
//! zero-frequency sample to the grid center, transposition between the two
//! separable 1D passes, and center-preserving cropping and resizing.  The 1D
//! spectral passes themselves act on floating-point samples and live with
//! the caller; every data movement around them is specified and proved here.

use vstd::prelude::*;

verus! {

/// Storage row (or column) that the `i`-th row of a centered `n`-sided input
/// occupies in a `len`-sided grid: the input's own center is placed at index
/// zero, with wraparound for the upper half.
pub open spec fn wrap_center(i: int, n: int, len: int) -> int {
    if i < n / 2 {
        i - n / 2 + len
    } else {
        i - n / 2
    }
}

/// Flat position of centered-input cell `(i, j)` in the `len`-sided grid.
pub open spec fn embed_pos(i: int, j: int, n: int, len: int) -> int {
    wrap_center(i, n, len) * len + wrap_center(j, n, len)
}

/// Whether flat position `k` receives a sample when an `n`-sided input is
/// embedded into a `len`-sided grid.
pub open spec fn embed_written(k: int, n: int, len: int) -> bool {
    exists|i: int, j: int|
        0 <= i < n && 0 <= j < n && k == embed_pos(i, j, n, len)
}

/// Flat row-major position of cell `(i, j)` in a `len`-sided grid.
pub open spec fn flat(i: int, j: int, len: int) -> int {
    i * len + j
}

/// Storage row that row `i` moves to under the frequency shift: zero
/// frequency, stored at index zero, moves to the grid center `len / 2`.
pub open spec fn shift_dest(i: int, len: int) -> int {
    if i < len - len / 2 {
        i + len / 2
    } else {
        i + len / 2 - len
    }
}

/// Storage row that the frequency shift reads destination row `a` from;
/// inverse of [`shift_dest`].
pub open spec fn shift_src(a: int, len: int) -> int {
    if a < len / 2 {
        a + (len - len / 2)
    } else {
        a - len / 2
    }
}

proof fn lemma_wrap_center_bounds(i: int, n: int, len: int)
    requires
        0 <= i < n,
        n <= len,
    ensures
        0 <= wrap_center(i, n, len) < len,
{
}

proof fn lemma_wrap_center_injective(i1: int, i2: int, n: int, len: int)
    requires
        0 <= i1 < n,
        0 <= i2 < n,
        n <= len,
        wrap_center(i1, n, len) == wrap_center(i2, n, len),
    ensures
        i1 == i2,
{
}

/// Two in-range (row, column) pairs with the same flat position coincide.
proof fn lemma_flat_injective(a: int, b: int, c: int, d: int, len: int)
    requires
        0 <= a < len,
        0 <= b < len,
        0 <= c < len,
        0 <= d < len,
        a * len + b == c * len + d,
    ensures
        a == c,
        b == d,
{
    assert(a == c && b == d) by (nonlinear_arith)
        requires
            0 <= a < len,
            0 <= b < len,
            0 <= c < len,
            0 <= d < len,
            a * len + b == c * len + d,
    ;
}

/// An in-range (row, column) pair has an in-range flat position.
proof fn lemma_flat_bounds(a: int, b: int, len: int)
    requires
        0 <= a < len,
        0 <= b < len,
    ensures
        0 <= a * len + b < len * len,
{
    assert(0 <= a * len + b < len * len) by (nonlinear_arith)
        requires
            0 <= a < len,
            0 <= b < len,
    ;
}

/// A flat position in a finished row, or earlier in the current row, lies
/// below the current write position.
proof fn lemma_flat_prefix(a2: int, b2: int, a: int, b: int, len: int)
    requires
        0 <= b2 < len,
        0 <= b <= len,
        0 <= a2 <= a,
        a2 < a || b2 < b,
    ensures
        0 <= a2 * len + b2 < a * len + b,
{
    assert(0 <= a2 * len + b2 < a * len + b) by (nonlinear_arith)
        requires
            0 <= b2 < len,
            0 <= b <= len,
            0 <= a2 <= a,
            a2 < a || b2 < b,
    ;
}

/// Square complex-sample grid of the zero-padded discrete Fourier
/// transform, with its data-movement operations.
pub struct ZpDft<T> {
    data: Vec<T>,
    len: usize,
}

impl<T> View for ZpDft<T> {
    type V = Seq<T>;

    closed spec fn view(&self) -> Seq<T> {
        self.data@
    }
}

impl<T: Copy> ZpDft<T> {
    /// Grid side length, as a specification value.
    pub closed spec fn side(&self) -> nat {
        self.len as nat
    }

    /// The buffer always holds exactly side-squared samples.
    pub open spec fn wf(&self) -> bool {
        self@.len() == self.side() * self.side()
    }

    /// Fresh grid of side `len`, filled with the given zero sample.
    pub fn new(len: usize, zero: T) -> (r: Self)
        requires
            len * len <= usize::MAX,
        ensures
            r.wf(),
            r.side() == len,
            forall|k: int| 0 <= k < r@.len() ==> r@[k] == zero,
    {
        let mut data: Vec<T> = Vec::new();
        let total = len * len;
        let mut k: usize = 0;
        while k < total
            invariant
                k <= total,
                data@.len() == k,
                forall|m: int| 0 <= m < k ==> data@[m] == zero,
            decreases total - k,
        {
            data.push(zero);
            k = k + 1;
        }
        ZpDft { data, len }
    }

    /// Side length of the grid.
    pub fn len(&self) -> (r: usize)
        ensures
            r == self.side(),
    {
        self.len
    }

    /// Clears every sample back to the given zero.
    pub fn reset(&mut self, zero: T)
        requires
            old(self).wf(),
        ensures
            final(self).wf(),
            final(self).side() == old(self).side(),
            forall|k: int| 0 <= k < final(self)@.len() ==> final(self)@[k] == zero,
    {
        let total = self.data.len();
        let mut data: Vec<T> = Vec::new();
        let mut k: usize = 0;
        while k < total
            invariant
                k <= total,
                data@.len() == k,
                forall|m: int| 0 <= m < k ==> data@[m] == zero,
            decreases total - k,
        {
            data.push(zero);
            k = k + 1;
        }
        self.data = data;
    }

    /// Copy of the sample buffer, row-major.
    pub fn buffer(&self) -> (r: Vec<T>)
        ensures
            r@ == self@,
    {
        let total = self.data.len();
        let mut out: Vec<T> = Vec::new();
        let mut k: usize = 0;
        while k < total
            invariant
                k <= total,
                total == self.data@.len(),
                out@.len() == k,
                forall|m: int| 0 <= m < k ==> out@[m] == self.data@[m],
            decreases total - k,
        {
            out.push(self.data[k]);
            k = k + 1;
        }
        proof {
            assert(out@ =~= self@);
        }
        out
    }

    /// The sample buffer itself, row-major.
    pub fn into_buffer(self) -> (r: Vec<T>)
        ensures
            r@ == self@,
    {
        self.data
    }

    /// Centers an `n`-sided square input into the grid, the input's own
    /// center landing at flat index zero with wraparound — the pre-transform
    /// layout a DFT expects.  When the input already fills the grid it is
    /// moved in whole; otherwise only the embedded cells are overwritten.
    pub fn zero_padding(&mut self, buffer: Vec<T>, n: usize)
        requires
            old(self).wf(),
            n * n == buffer@.len(),
            0 < n <= old(self).side(),
        ensures
            final(self).wf(),
            final(self).side() == old(self).side(),
            n == old(self).side() ==> final(self)@ == buffer@,
            n < old(self).side() ==> forall|i: int, j: int|
                0 <= i < n && 0 <= j < n ==> final(self)@[embed_pos(
                    i,
                    j,
                    n as int,
                    old(self).side() as int,
                )] == buffer@[i * n + j],
            n < old(self).side() ==> forall|k: int|
                0 <= k < final(self)@.len() && !embed_written(k, n as int, old(self).side() as int)
                    ==> final(self)@[k] == old(self)@[k],
    {
        if n == self.len {
            self.data = buffer;
        } else {
            let n_sq = buffer.len();
            let len = self.len;
            let len_sq = self.data.len();
            let ghost n_i = n as int;
            let ghost len_i = len as int;
            let mut i: usize = 0;
            while i < n
                invariant
                    i <= n,
                    0 < n < len,
                    n_sq == n * n,
                    len_sq == len * len,
                    n_i == n as int,
                    len_i == len as int,
                    self.len == len,
                    n * n == buffer@.len(),
                    self@.len() == len * len,
                    forall|i2: int, j2: int|
                        0 <= i2 < i && 0 <= j2 < n ==> self@[embed_pos(i2, j2, n_i, len_i)]
                            == buffer@[i2 * n_i + j2],
                    forall|k: int|
                        0 <= k < self@.len() && !embed_written(k, n_i, len_i) ==> self@[k]
                            == old(self)@[k],
                decreases n - i,
            {
                let ii = if i < n / 2 {
                    i + (len - n / 2)
                } else {
                    i - n / 2
                };
                proof {
                    lemma_wrap_center_bounds(i as int, n_i, len_i);
                    assert(ii == wrap_center(i as int, n_i, len_i));
                }
                let mut j: usize = 0;
                while j < n
                    invariant
                        i < n,
                        j <= n,
                        0 < n < len,
                        n_sq == n * n,
                        len_sq == len * len,
                        n_i == n as int,
                        len_i == len as int,
                        self.len == len,
                        n * n == buffer@.len(),
                        self@.len() == len * len,
                        ii == wrap_center(i as int, n_i, len_i),
                        0 <= ii < len,
                        forall|i2: int, j2: int|
                            0 <= i2 < i && 0 <= j2 < n ==> self@[embed_pos(i2, j2, n_i, len_i)]
                                == buffer@[i2 * n_i + j2],
                        forall|j2: int|
                            0 <= j2 < j ==> self@[embed_pos(i as int, j2, n_i, len_i)]
                                == buffer@[i as int * n_i + j2],
                        forall|k: int|
                            0 <= k < self@.len() && !embed_written(k, n_i, len_i) ==> self@[k]
                                == old(self)@[k],
                    decreases n - j,
                {
                    let jj = if j < n / 2 {
                        j + (len - n / 2)
                    } else {
                        j - n / 2
                    };
                    proof {
                        lemma_wrap_center_bounds(j as int, n_i, len_i);
                        assert(jj == wrap_center(j as int, n_i, len_i));
                        lemma_flat_bounds(ii as int, jj as int, len_i);
                        lemma_flat_bounds(i as int, j as int, n_i);
                    }
                    let k = i * n + j;
                    let kk = ii * len + jj;
                    self.data.set(kk, buffer[k]);
                    proof {
                        assert(kk == embed_pos(i as int, j as int, n_i, len_i));
                        assert(embed_written(kk as int, n_i, len_i));
                        assert forall|i2: int, j2: int|
                            (0 <= i2 < i && 0 <= j2 < n) || (i2 == i && 0 <= j2 < j + 1) implies
                            self@[embed_pos(i2, j2, n_i, len_i)] == buffer@[i2 * n_i + j2] by {
                            lemma_wrap_center_bounds(i2, n_i, len_i);
                            lemma_wrap_center_bounds(j2, n_i, len_i);
                            lemma_flat_bounds(
                                wrap_center(i2, n_i, len_i),
                                wrap_center(j2, n_i, len_i),
                                len_i,
                            );
                            if !(i2 == i && j2 == j) && embed_pos(i2, j2, n_i, len_i) == kk {
                                lemma_flat_injective(
                                    wrap_center(i2, n_i, len_i),
                                    wrap_center(j2, n_i, len_i),
                                    ii as int,
                                    jj as int,
                                    len_i,
                                );
                                lemma_wrap_center_injective(i2, i as int, n_i, len_i);
                                lemma_wrap_center_injective(j2, j as int, n_i, len_i);
                            }
                        }
                    }
                    j = j + 1;
                }
                i = i + 1;
            }
        }
    }

    /// Frequency shift: the sample stored at row `i` moves to row
    /// `shift_dest(i)`, in both dimensions, so that zero frequency (index
    /// zero) lands at the grid center.
    pub fn shift(&mut self)
        requires
            old(self).wf(),
        ensures
            final(self).wf(),
            final(self).side() == old(self).side(),
            forall|a: int, b: int|
                0 <= a < final(self).side() && 0 <= b < final(self).side() ==> final(self)@[flat(
                    a,
                    b,
                    final(self).side() as int,
                )] == old(self)@[flat(
                    shift_src(a, final(self).side() as int),
                    shift_src(b, final(self).side() as int),
                    final(self).side() as int,
                )],
            forall|i: int, j: int|
                0 <= i < final(self).side() && 0 <= j < final(self).side() ==> final(self)@[flat(
                    shift_dest(i, final(self).side() as int),
                    shift_dest(j, final(self).side() as int),
                    final(self).side() as int,
                )] == old(self)@[flat(i, j, final(self).side() as int)],
    {
        let len = self.len;
        let ghost len_i = len as int;
        let len_sq = self.data.len();
        let h = len / 2;
        let mut out: Vec<T> = Vec::new();
        let mut a: usize = 0;
        while a < len
            invariant
                a <= len,
                len_i == len as int,
                len_sq == len * len,
                self.len == len,
                h == len / 2,
                self@.len() == len * len,
                self@ == old(self)@,
                out@.len() == a * len,
                forall|a2: int, b2: int|
                    0 <= a2 < a && 0 <= b2 < len ==> out@[flat(a2, b2, len_i)] == self@[flat(
                        shift_src(a2, len_i),
                        shift_src(b2, len_i),
                        len_i,
                    )],
            decreases len - a,
        {
            let sa = if a < h {
                a + (len - h)
            } else {
                a - h
            };
            proof {
                assert(sa == shift_src(a as int, len_i));
                assert(0 <= sa < len);
            }
            let mut b: usize = 0;
            while b < len
                invariant
                    a < len,
                    b <= len,
                    len_i == len as int,
                    len_sq == len * len,
                    self.len == len,
                    h == len / 2,
                    self@.len() == len * len,
                    self@ == old(self)@,
                    sa == shift_src(a as int, len_i),
                    sa < len,
                    out@.len() == a * len + b,
                    forall|a2: int, b2: int|
                        0 <= a2 < a && 0 <= b2 < len ==> out@[flat(a2, b2, len_i)] == self@[flat(
                            shift_src(a2, len_i),
                            shift_src(b2, len_i),
                            len_i,
                        )],
                    forall|b2: int|
                        0 <= b2 < b ==> out@[flat(a as int, b2, len_i)] == self@[flat(
                            shift_src(a as int, len_i),
                            shift_src(b2, len_i),
                            len_i,
                        )],
                decreases len - b,
            {
                let sb = if b < h {
                    b + (len - h)
                } else {
                    b - h
                };
                proof {
                    assert(sb == shift_src(b as int, len_i));
                    lemma_flat_bounds(sa as int, sb as int, len_i);
                    lemma_flat_bounds(a as int, b as int, len_i);
                }
                out.push(self.data[sa * len + sb]);
                proof {
                    assert forall|a2: int, b2: int|
                        (0 <= a2 < a && 0 <= b2 < len) || (a2 == a && 0 <= b2 < b + 1) implies out@[
                        flat(a2, b2, len_i)] == self@[flat(
                        shift_src(a2, len_i),
                        shift_src(b2, len_i),
                        len_i,
                    )] by {
                        if a2 < a || b2 < b {
                            lemma_flat_prefix(a2, b2, a as int, b as int, len_i);
                        }
                        lemma_flat_bounds(shift_src(a2, len_i), shift_src(b2, len_i), len_i);
                    }
                }
                b = b + 1;
            }
            proof {
                assert(a * len_i + len_i == (a + 1) * len_i) by (nonlinear_arith);
            }
            a = a + 1;
        }
        self.data = out;
        proof {
            assert forall|i: int, j: int| 0 <= i < len && 0 <= j < len implies self@[flat(
                shift_dest(i, len_i),
                shift_dest(j, len_i),
                len_i,
            )] == old(self)@[flat(i, j, len_i)] by {
                let di = shift_dest(i, len_i);
                let dj = shift_dest(j, len_i);
                assert(0 <= di < len && 0 <= dj < len);
                assert(shift_src(di, len_i) == i);
                assert(shift_src(dj, len_i) == j);
                lemma_flat_bounds(di, dj, len_i);
                lemma_flat_bounds(i, j, len_i);
            }
        }
    }

    /// Transposition of the square grid: separable 2D transforms run the 1D
    /// pass along rows, transpose, and run it along rows again.
    pub fn transpose(&mut self)
        requires
            old(self).wf(),
        ensures
            final(self).wf(),
            final(self).side() == old(self).side(),
            forall|i: int, j: int|
                0 <= i < final(self).side() && 0 <= j < final(self).side() ==> final(self)@[flat(
                    j,
                    i,
                    final(self).side() as int,
                )] == old(self)@[flat(i, j, final(self).side() as int)],
    {
        let len = self.len;
        let ghost len_i = len as int;
        let len_sq = self.data.len();
        let mut out: Vec<T> = Vec::new();
        let mut a: usize = 0;
        while a < len
            invariant
                a <= len,
                len_i == len as int,
                len_sq == len * len,
                self.len == len,
                self@.len() == len * len,
                self@ == old(self)@,
                out@.len() == a * len,
                forall|a2: int, b2: int|
                    0 <= a2 < a && 0 <= b2 < len ==> out@[flat(a2, b2, len_i)] == self@[flat(
                        b2,
                        a2,
                        len_i,
                    )],
            decreases len - a,
        {
            let mut b: usize = 0;
            while b < len
                invariant
                    a < len,
                    b <= len,
                    len_i == len as int,
                    len_sq == len * len,
                    self.len == len,
                    self@.len() == len * len,
                    self@ == old(self)@,
                    out@.len() == a * len + b,
                    forall|a2: int, b2: int|
                        0 <= a2 < a && 0 <= b2 < len ==> out@[flat(a2, b2, len_i)] == self@[flat(
                            b2,
                            a2,
                            len_i,
                        )],
                    forall|b2: int|
                        0 <= b2 < b ==> out@[flat(a as int, b2, len_i)] == self@[flat(
                            b2,
                            a as int,
                            len_i,
                        )],
                decreases len - b,
            {
                proof {
                    lemma_flat_bounds(b as int, a as int, len_i);
                    lemma_flat_bounds(a as int, b as int, len_i);
                }
                out.push(self.data[b * len + a]);
                proof {
                    assert forall|a2: int, b2: int|
                        (0 <= a2 < a && 0 <= b2 < len) || (a2 == a && 0 <= b2 < b + 1) implies out@[
                        flat(a2, b2, len_i)] == self@[flat(b2, a2, len_i)] by {
                        if a2 < a || b2 < b {
                            lemma_flat_prefix(a2, b2, a as int, b as int, len_i);
                        }
                        lemma_flat_bounds(b2, a2, len_i);
                    }
                }
                b = b + 1;
            }
            proof {
                assert(a * len_i + len_i == (a + 1) * len_i) by (nonlinear_arith);
            }
            a = a + 1;
        }
        self.data = out;
    }

    /// Extracts the centered `new_len`-sided block of the grid.
    pub fn crop(&mut self, new_len: usize)
        requires
            old(self).wf(),
            0 < new_len <= old(self).side(),
        ensures
            final(self).wf(),
            final(self).side() == new_len,
            forall|i: int, j: int|
                0 <= i < new_len && 0 <= j < new_len ==> final(self)@[flat(i, j, new_len as int)]
                    == old(self)@[flat(
                    i + old(self).side() / 2 - new_len / 2,
                    j + old(self).side() / 2 - new_len / 2,
                    old(self).side() as int,
                )],
    {
        let len = self.len;
        let ghost len_i = len as int;
        let len_sq = self.data.len();
        let ij0 = len / 2 - new_len / 2;
        let mut out: Vec<T> = Vec::new();
        let mut i: usize = 0;
        while i < new_len
            invariant
                i <= new_len,
                0 < new_len <= len,
                len_i == len as int,
                len_sq == len * len,
                ij0 == len / 2 - new_len / 2,
                self.len == len,
                self@.len() == len * len,
                self@ == old(self)@,
                out@.len() == i * new_len,
                forall|i2: int, j2: int|
                    0 <= i2 < i && 0 <= j2 < new_len ==> out@[flat(i2, j2, new_len as int)]
                        == self@[flat(i2 + ij0, j2 + ij0, len_i)],
            decreases new_len - i,
        {
            let mut j: usize = 0;
            while j < new_len
                invariant
                    i < new_len,
                    j <= new_len,
                    0 < new_len <= len,
                    len_i == len as int,
                    len_sq == len * len,
                    ij0 == len / 2 - new_len / 2,
                    self.len == len,
                    self@.len() == len * len,
                    self@ == old(self)@,
                    out@.len() == i * new_len + j,
                    forall|i2: int, j2: int|
                        0 <= i2 < i && 0 <= j2 < new_len ==> out@[flat(i2, j2, new_len as int)]
                            == self@[flat(i2 + ij0, j2 + ij0, len_i)],
                    forall|j2: int|
                        0 <= j2 < j ==> out@[flat(i as int, j2, new_len as int)] == self@[flat(
                            i as int + ij0,
                            j2 + ij0,
                            len_i,
                        )],
                decreases new_len - j,
            {
                proof {
                    lemma_flat_bounds(i as int + ij0, j as int + ij0, len_i);
                    lemma_flat_bounds(i as int, j as int, new_len as int);
                }
                out.push(self.data[(i + ij0) * len + j + ij0]);
                proof {
                    assert forall|i2: int, j2: int|
                        (0 <= i2 < i && 0 <= j2 < new_len) || (i2 == i && 0 <= j2 < j + 1) implies
                        out@[flat(i2, j2, new_len as int)] == self@[flat(
                        i2 + ij0,
                        j2 + ij0,
                        len_i,
                    )] by {
                        if i2 < i || j2 < j {
                            lemma_flat_prefix(i2, j2, i as int, j as int, new_len as int);
                        }
                        lemma_flat_bounds(i2 + ij0, j2 + ij0, len_i);
                    }
                }
                j = j + 1;
            }
            proof {
                assert(i * new_len as int + new_len as int == (i + 1) * new_len as int)
                    by (nonlinear_arith);
            }
            i = i + 1;
        }
        self.data = out;
        self.len = new_len;
    }

    /// Re-centers the grid on a `new_len`-sided grid: cropping when it
    /// shrinks, centered zero-filled padding when it grows, the center kept
    /// either way.
    pub fn resize(&mut self, new_len: usize, zero: T)
        requires
            old(self).wf(),
            0 < new_len,
            new_len * new_len <= usize::MAX,
        ensures
            final(self).wf(),
            final(self).side() == new_len,
            old(self).side() > new_len ==> forall|i: int, j: int|
                0 <= i < new_len && 0 <= j < new_len ==> final(self)@[flat(i, j, new_len as int)]
                    == old(self)@[flat(
                    i + old(self).side() / 2 - new_len / 2,
                    j + old(self).side() / 2 - new_len / 2,
                    old(self).side() as int,
                )],
            old(self).side() <= new_len ==> forall|a: int, b: int|
                0 <= a < new_len && 0 <= b < new_len ==> final(self)@[flat(a, b, new_len as int)]
                    == (if (new_len - old(self).side()) / 2 <= a < (new_len - old(self).side()) / 2
                    + old(self).side() && (new_len - old(self).side()) / 2 <= b < (new_len - old(
                    self,
                ).side()) / 2 + old(self).side() {
                    old(self)@[flat(
                        a - (new_len - old(self).side()) / 2,
                        b - (new_len - old(self).side()) / 2,
                        old(self).side() as int,
                    )]
                } else {
                    zero
                }),
    {
        let len = self.len;
        let ghost len_i = len as int;
        if len > new_len {
            self.crop(new_len);
        } else {
            let len_sq = self.data.len();
            let ij0 = (new_len - len) / 2;
            let mut out: Vec<T> = Vec::new();
            let mut a: usize = 0;
            while a < new_len
                invariant
                    a <= new_len,
                    len <= new_len,
                    len_i == len as int,
                    len_sq == len * len,
                    new_len * new_len <= usize::MAX,
                    ij0 == (new_len - len) / 2,
                    ij0 + len <= new_len,
                    self.len == len,
                    self@.len() == len * len,
                    self@ == old(self)@,
                    out@.len() == a * new_len,
                    forall|a2: int, b2: int|
                        0 <= a2 < a && 0 <= b2 < new_len ==> out@[flat(a2, b2, new_len as int)]
                            == (if ij0 <= a2 < ij0 + len && ij0 <= b2 < ij0 + len {
                            self@[flat(a2 - ij0, b2 - ij0, len_i)]
                        } else {
                            zero
                        }),
                decreases new_len - a,
            {
                let mut b: usize = 0;
                while b < new_len
                    invariant
                        a < new_len,
                        b <= new_len,
                        len <= new_len,
                        len_i == len as int,
                        len_sq == len * len,
                        new_len * new_len <= usize::MAX,
                        ij0 == (new_len - len) / 2,
                        ij0 + len <= new_len,
                        self.len == len,
                        self@.len() == len * len,
                        self@ == old(self)@,
                        out@.len() == a * new_len + b,
                        forall|a2: int, b2: int|
                            0 <= a2 < a && 0 <= b2 < new_len ==> out@[flat(a2, b2, new_len as int)]
                                == (if ij0 <= a2 < ij0 + len && ij0 <= b2 < ij0 + len {
                                self@[flat(a2 - ij0, b2 - ij0, len_i)]
                            } else {
                                zero
                            }),
                        forall|b2: int|
                            0 <= b2 < b ==> out@[flat(a as int, b2, new_len as int)] == (
                            if ij0 <= (a as int) && a < ij0 + len && ij0 <= b2 < ij0 + len {
                                self@[flat(a as int - ij0, b2 - ij0, len_i)]
                            } else {
                                zero
                            }),
                    decreases new_len - b,
                {
                    proof {
                        lemma_flat_bounds(a as int, b as int, new_len as int);
                    }
                    if a >= ij0 && a < ij0 + len && b >= ij0 && b < ij0 + len {
                        proof {
                            lemma_flat_bounds(a as int - ij0, b as int - ij0, len_i);
                        }
                        out.push(self.data[(a - ij0) * len + (b - ij0)]);
                    } else {
                        out.push(zero);
                    }
                    proof {
                        assert forall|a2: int, b2: int|
                            (0 <= a2 < a && 0 <= b2 < new_len) || (a2 == a && 0 <= b2 < b + 1)
                            implies out@[flat(a2, b2, new_len as int)] == (if ij0 <= a2 < ij0 + len
                            && ij0 <= b2 < ij0 + len {
                            self@[flat(a2 - ij0, b2 - ij0, len_i)]
                        } else {
                            zero
                        }) by {
                            if a2 < a || b2 < b {
                                lemma_flat_prefix(a2, b2, a as int, b as int, new_len as int);
                            }
                            if ij0 <= a2 < ij0 + len && ij0 <= b2 < ij0 + len {
                                lemma_flat_bounds(a2 - ij0, b2 - ij0, len_i);
                            }
                        }
                    }
                    b = b + 1;
                }
                proof {
                    assert(a * new_len as int + new_len as int == (a + 1) * new_len as int)
                        by (nonlinear_arith);
                }
                a = a + 1;
            }
            self.data = out;
            self.len = new_len;
        }
    }
}


/// Growing a grid and cropping back to the original side restores every
/// sample, whenever the two sides agree in parity: the round trip through
/// centered zero-padding and centered extraction is the identity.  Sides of
/// disagreeing parity would come back displaced by half a cell — the
/// misregistration that the sampling plan's parity matching exists to
/// avoid.
pub proof fn lemma_grow_crop_round_trip<T>(
    small: Seq<T>,
    grown: Seq<T>,
    cropped: Seq<T>,
    side: int,
    big_side: int,
)
    requires
        0 < side <= big_side,
        side % 2 == big_side % 2,
        small.len() == side * side,
        cropped.len() == side * side,
        forall|a: int, b: int|
            (big_side - side) / 2 <= a < (big_side - side) / 2 + side && (big_side - side) / 2 <= b
                < (big_side - side) / 2 + side ==> grown[flat(a, b, big_side)] == small[flat(
                a - (big_side - side) / 2,
                b - (big_side - side) / 2,
                side,
            )],
        forall|i: int, j: int|
            0 <= i < side && 0 <= j < side ==> cropped[flat(i, j, side)] == grown[flat(
                i + big_side / 2 - side / 2,
                j + big_side / 2 - side / 2,
                big_side,
            )],
    ensures
        cropped =~= small,
{
    let off = (big_side - side) / 2;
    assert(off == big_side / 2 - side / 2);
    assert forall|k: int| 0 <= k < side * side implies cropped[k] == small[k] by {
        let i = k / side;
        let j = k % side;
        vstd::arithmetic::div_mod::lemma_fundamental_div_mod(k, side);
        assert(0 <= j < side) by (nonlinear_arith)
            requires
                k == side * (k / side) + k % side,
                side > 0,
                j == k % side,
        ;
        assert(0 <= i < side) by (nonlinear_arith)
            requires
                k == side * (k / side) + k % side,
                0 <= k < side * side,
                0 <= k % side < side,
                side > 0,
                i == k / side,
        ;
        assert(flat(i, j, side) == k) by (nonlinear_arith)
            requires
                k == side * (k / side) + k % side,
                i == k / side,
                j == k % side,
                flat(i, j, side) == i * side + j,
        ;
        assert(cropped[flat(i, j, side)] == grown[flat(i + off, j + off, big_side)]);
        assert(grown[flat(i + off, j + off, big_side)] == small[flat(i, j, side)]);
    }
}

} // verus!

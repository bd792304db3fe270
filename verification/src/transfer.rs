//! Index geometry of the optical-transfer-function grids: the signed
//! spatial-frequency offsets of the OTF grid, the size of the fine grid the
//! adaptive-optics transfer function is computed on, and the fold that
//! decimates the fine-grid covariance down to the OTF grid.

use vstd::prelude::*;

use crate::error::EyepieceError;
use crate::zpdft::{flat, wrap_center};

verus! {

/// Fine-grid row that decimated row `a` reads: rows in the lower half are
/// non-negative frequencies at stride `kappa`; rows in the upper half are
/// the matching negative frequencies, wrapped from the end of the grid.
pub open spec fn fold_row(a: int, n_otf: int, kappa: int, n: int) -> int {
    if a < (n_otf + 1) / 2 {
        a * kappa
    } else {
        n - (n_otf - a) * kappa
    }
}

/// Signed spatial offset and storage row of every row of an `n`-sided OTF
/// grid: entry `i` is `(i - n/2, wrap)`, the offset from grid center paired
/// with the row the sample is stored at, negative offsets wrapping to the
/// upper end of the grid.
pub fn frequency_offsets(n: usize) -> (r: Vec<(i64, usize)>)
    requires
        n <= 0x7fff_ffff,
    ensures
        r@.len() == n,
        forall|i: int|
            0 <= i < n ==> (#[trigger] r@[i]).0 == i - n / 2 && r@[i].1 == wrap_center(
                i,
                n as int,
                n as int,
            ),
{
    let mut out: Vec<(i64, usize)> = Vec::new();
    let h = n / 2;
    let mut i: usize = 0;
    while i < n
        invariant
            i <= n,
            n <= 0x7fff_ffff,
            h == n / 2,
            out@.len() == i,
            forall|i2: int|
                0 <= i2 < i ==> (#[trigger] out@[i2]).0 == i2 - n / 2 && out@[i2].1 == wrap_center(
                    i2,
                    n as int,
                    n as int,
                ),
        decreases n - i,
    {
        let q = i as i64 - h as i64;
        let ii = if i < h {
            i + (n - h)
        } else {
            i - h
        };
        out.push((q, ii));
        i = i + 1;
    }
    out
}

/// Side of the fine grid the adaptive-optics transfer function is sampled
/// on: `kappa` times the OTF grid, but never below 4096 samples.
pub fn transfer_grid_size(kappa: usize, n_otf: usize) -> (r: usize)
    requires
        kappa * n_otf <= usize::MAX,
    ensures
        r == if kappa * n_otf > 4096 { kappa * n_otf } else { 4096int },
        r >= kappa * n_otf,
        r >= 4096,
{
    let p = kappa * n_otf;
    if p > 4096 {
        p
    } else {
        4096
    }
}

/// Decimation stride from the fine transfer-function grid back to the OTF
/// grid: the pupil sampling step, in micrometers, over the 2.5 cm floor of
/// the fitting-error model, rounded up.  Sampling finer than the floor is
/// rejected: the model is not valid there.
pub fn transfer_sampling_stride(pupil_sampling_um: u64) -> (r: Result<u64, EyepieceError>)
    ensures
        r.is_ok() <==> pupil_sampling_um >= 25000,
        r matches Ok(k) ==> k == (pupil_sampling_um + 24999) / 25000,
        r is Err ==> r == Err::<u64, EyepieceError>(EyepieceError::PupilSamplingTooFine),
{
    if pupil_sampling_um < 25000 {
        Err(EyepieceError::PupilSamplingTooFine)
    } else {
        let q = pupil_sampling_um / 25000;
        let rem = pupil_sampling_um % 25000;
        let k = if rem == 0 {
            q
        } else {
            q + 1
        };
        proof {
            vstd::arithmetic::div_mod::lemma_fundamental_div_mod(pupil_sampling_um as int, 25000);
            vstd::arithmetic::div_mod::lemma_fundamental_div_mod(
                pupil_sampling_um as int + 24999,
                25000,
            );
            assert(k == (pupil_sampling_um + 24999) / 25000) by (nonlinear_arith)
                requires
                    pupil_sampling_um == 25000 * (pupil_sampling_um as int / 25000)
                        + pupil_sampling_um as int % 25000,
                    pupil_sampling_um + 24999 == 25000 * ((pupil_sampling_um + 24999) / 25000) + (
                    pupil_sampling_um + 24999) % 25000,
                    0 <= pupil_sampling_um as int % 25000 < 25000,
                    0 <= (pupil_sampling_um + 24999) % 25000 < 25000,
                    q == pupil_sampling_um as int / 25000,
                    rem == pupil_sampling_um as int % 25000,
                    k == if rem == 0 { q as int } else { q + 1int },
            ;
        }
        Ok(k)
    }
}

/// Flat fine-grid index feeding each cell of the decimated `n_otf`-sided
/// covariance grid: entry `flat(a, b, n_otf)` reads fine-grid cell
/// `(fold_row(a), fold_row(b))`, the four frequency quadrants folded onto
/// the corners of the fine grid.
pub fn covariance_decimation(n_otf: usize, kappa: usize, n: usize) -> (r: Vec<usize>)
    requires
        0 < kappa,
        0 < n_otf,
        n_otf * kappa <= n,
        n * n <= usize::MAX,
    ensures
        r@.len() == n_otf * n_otf,
        forall|a: int, b: int|
            0 <= a < n_otf && 0 <= b < n_otf ==> r@[flat(a, b, n_otf as int)] == flat(
                fold_row(a, n_otf as int, kappa as int, n as int),
                fold_row(b, n_otf as int, kappa as int, n as int),
                n as int,
            ),
        forall|k: int| 0 <= k < r@.len() ==> r@[k] < n * n,
{
    let ghost no_i = n_otf as int;
    let ghost ka_i = kappa as int;
    let ghost n_i = n as int;
    let half = n_otf / 2 + n_otf % 2;
    proof {
        assert(half == (n_otf + 1) / 2);
    }
    let mut out: Vec<usize> = Vec::new();
    let mut a: usize = 0;
    while a < n_otf
        invariant
            a <= n_otf,
            0 < kappa,
            0 < n_otf,
            n_otf * kappa <= n,
            n * n <= usize::MAX,
            no_i == n_otf as int,
            ka_i == kappa as int,
            n_i == n as int,
            half == (n_otf + 1) / 2,
            out@.len() == a * n_otf,
            forall|a2: int, b2: int|
                0 <= a2 < a && 0 <= b2 < n_otf ==> out@[flat(a2, b2, no_i)] == flat(
                    fold_row(a2, no_i, ka_i, n_i),
                    fold_row(b2, no_i, ka_i, n_i),
                    n_i,
                ),
            forall|k: int| 0 <= k < out@.len() ==> out@[k] < n * n,
        decreases n_otf - a,
    {
        let ra = if a < half {
            proof {
                lemma_fold_in_range(a as int, no_i, ka_i, n_i);
            }
            a * kappa
        } else {
            proof {
                lemma_fold_in_range(a as int, no_i, ka_i, n_i);
            }
            n - (n_otf - a) * kappa
        };
        let mut b: usize = 0;
        while b < n_otf
            invariant
                a < n_otf,
                b <= n_otf,
                0 < kappa,
                0 < n_otf,
                n_otf * kappa <= n,
                n * n <= usize::MAX,
                no_i == n_otf as int,
                ka_i == kappa as int,
                n_i == n as int,
                half == (n_otf + 1) / 2,
                ra == fold_row(a as int, no_i, ka_i, n_i),
                0 <= ra < n,
                out@.len() == a * n_otf + b,
                forall|a2: int, b2: int|
                    0 <= a2 < a && 0 <= b2 < n_otf ==> out@[flat(a2, b2, no_i)] == flat(
                        fold_row(a2, no_i, ka_i, n_i),
                        fold_row(b2, no_i, ka_i, n_i),
                        n_i,
                    ),
                forall|b2: int|
                    0 <= b2 < b ==> out@[flat(a as int, b2, no_i)] == flat(
                        fold_row(a as int, no_i, ka_i, n_i),
                        fold_row(b2, no_i, ka_i, n_i),
                        n_i,
                    ),
                forall|k: int| 0 <= k < out@.len() ==> out@[k] < n * n,
            decreases n_otf - b,
        {
            let rb = if b < half {
                proof {
                    lemma_fold_in_range(b as int, no_i, ka_i, n_i);
                }
                b * kappa
            } else {
                proof {
                    lemma_fold_in_range(b as int, no_i, ka_i, n_i);
                }
                n - (n_otf - b) * kappa
            };
            proof {
                lemma_fold_in_range(b as int, no_i, ka_i, n_i);
                assert(0 <= ra * n_i + rb < n_i * n_i) by (nonlinear_arith)
                    requires
                        0 <= ra < n_i,
                        0 <= rb < n_i,
                ;
            }
            out.push(ra * n + rb);
            proof {
                assert forall|a2: int, b2: int|
                    (0 <= a2 < a && 0 <= b2 < n_otf) || (a2 == a && 0 <= b2 < b + 1) implies out@[
                    flat(a2, b2, no_i)] == flat(
                    fold_row(a2, no_i, ka_i, n_i),
                    fold_row(b2, no_i, ka_i, n_i),
                    n_i,
                ) by {
                    if a2 < a || b2 < b {
                        assert(0 <= flat(a2, b2, no_i) < a * no_i + b) by (nonlinear_arith)
                            requires
                                0 <= a2 <= a as int,
                                0 <= b2 < no_i,
                                b as int <= no_i,
                                a2 < a || b2 < b,
                                flat(a2, b2, no_i) == a2 * no_i + b2,
                        ;
                    }
                }
            }
            b = b + 1;
        }
        proof {
            assert(a * no_i + no_i == (a + 1) * no_i) by (nonlinear_arith);
        }
        a = a + 1;
    }
    out
}

/// Every folded row index lands inside the fine grid.
proof fn lemma_fold_in_range(a: int, n_otf: int, kappa: int, n: int)
    requires
        0 <= a < n_otf,
        0 < kappa,
        n_otf * kappa <= n,
    ensures
        0 <= fold_row(a, n_otf, kappa, n) < n,
        a < (n_otf + 1) / 2 ==> fold_row(a, n_otf, kappa, n) == a * kappa,
        a >= (n_otf + 1) / 2 ==> fold_row(a, n_otf, kappa, n) == n - (n_otf - a) * kappa,
{
    if a < (n_otf + 1) / 2 {
        assert(0 <= a * kappa < n) by (nonlinear_arith)
            requires
                0 <= a < n_otf,
                0 < kappa,
                n_otf * kappa <= n,
        ;
    } else {
        assert(0 < (n_otf - a) * kappa <= n_otf * kappa) by (nonlinear_arith)
            requires
                0 < n_otf - a <= n_otf,
                0 < kappa,
        ;
    }
}

} // verus!

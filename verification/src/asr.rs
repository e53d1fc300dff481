//! Preparing captured audio for the recognition engine.
//!
//! The engine expects 16 kHz mono samples; a capture at any other rate is
//! resampled by linear interpolation with fractional indexing. The engine
//! call itself happens outside this crate; what is verified here is the
//! resampling and its length law.

use vstd::prelude::*;
use vstd::arithmetic::div_mod::lemma_fundamental_div_mod;
use vstd::arithmetic::div_mod::lemma_mod_bound;
use crate::audio::div_trunc;

verus! {

/// Length of the resampled buffer: `ceil(len * 16000 / rate)`, which on a
/// 16 kHz input (or an empty one) is the input length itself.
pub open spec fn resampled_len(len: nat, rate: nat) -> nat
    recommends
        rate >= 1,
{
    if rate == 16000 || len == 0 {
        len
    } else {
        (((len * 16000 + rate - 1) as int) / rate as int) as nat
    }
}

/// Value of output sample `i`: the input position `i * rate / 16000` as
/// an index and a fractional remainder, interpolated linearly between the
/// two adjacent input samples (rounded toward zero in fixed point).
pub open spec fn resample_at(s: Seq<i32>, rate: nat, i: int) -> int
    recommends
        rate >= 1,
{
    let pos = i * rate;
    let idx = pos / 16000;
    let rem = pos % 16000;
    if idx + 1 < s.len() {
        s[idx] + div_trunc((s[idx + 1] - s[idx]) * rem, 16000)
    } else if idx < s.len() {
        s[idx] as int
    } else {
        0
    }
}

/// Resample audio to 16000 Hz using linear interpolation. A 16 kHz input
/// comes back unchanged; otherwise the output has exactly
/// `ceil(len * 16000 / rate)` samples, each interpolated between the two
/// adjacent source samples.
pub fn resample_to_16k(samples: &Vec<i32>, source_rate: u32) -> (r: Vec<i32>)
    requires
        source_rate >= 1,
        source_rate != 16000 ==> resampled_len(samples@.len(), source_rate as nat) <= usize::MAX,
    ensures
        r@.len() == resampled_len(samples@.len(), source_rate as nat),
        samples@.len() > 0 ==> r@.len() > 0,
        source_rate == 16000 ==> r@ == samples@,
        source_rate != 16000 ==> forall|i: int|
            0 <= i < r@.len() ==> #[trigger] r@[i] as int == resample_at(
                samples@,
                source_rate as nat,
                i,
            ),
{
    let len = samples.len();
    if source_rate == 16000 || len == 0 {
        let mut out: Vec<i32> = Vec::new();
        let mut i: usize = 0;
        while i < len
            invariant
                i <= len,
                len == samples@.len(),
                out@ =~= samples@.take(i as int),
            decreases len - i,
        {
            out.push(samples[i]);
            i = i + 1;
        }
        proof {
            assert(out@ =~= samples@);
        }
        return out;
    }
    let rate = source_rate as u128;
    let num: u128 = (len as u128) * 16000 + (rate - 1);
    let out_len_128: u128 = num / rate;
    proof {
        lemma_fundamental_div_mod(num as int, rate as int);
        lemma_mod_bound(num as int, rate as int);
        assert(out_len_128 * rate <= num) by (nonlinear_arith)
            requires
                out_len_128 == num as int / rate as int,
                rate >= 1,
                num >= 0,
        ;
        assert(out_len_128 == resampled_len(samples@.len(), source_rate as nat));
        assert(num >= rate);
        assert(out_len_128 >= 1) by (nonlinear_arith)
            requires
                out_len_128 == num as int / rate as int,
                num >= rate,
                rate >= 1,
        ;
    }
    let out_len: usize = out_len_128 as usize;
    let mut out: Vec<i32> = Vec::new();
    let mut i: usize = 0;
    while i < out_len
        invariant
            i <= out_len,
            len == samples@.len(),
            len >= 1,
            rate == source_rate as u128,
            rate >= 1,
            rate != 16000,
            out_len == out_len_128,
            out_len_128 * rate <= num,
            num == (len as int) * 16000 + rate - 1,
            out@.len() == i,
            forall|k: int|
                0 <= k < i ==> #[trigger] out@[k] as int == resample_at(
                    samples@,
                    source_rate as nat,
                    k,
                ),
        decreases out_len - i,
    {
        proof {
            assert((i as int) * rate <= (out_len_128 - 1) * rate) by (nonlinear_arith)
                requires
                    i < out_len_128,
                    rate >= 1,
            ;
            assert((out_len_128 - 1) * rate == out_len_128 * rate - rate) by (nonlinear_arith);
        }
        let pos: u128 = (i as u128) * rate;
        let idx_128: u128 = pos / 16000;
        let rem: u128 = pos % 16000;
        proof {
            assert(pos < (len as int) * 16000);
            assert(idx_128 < len) by (nonlinear_arith)
                requires
                    idx_128 == pos as int / 16000,
                    pos < (len as int) * 16000,
                    pos >= 0,
            ;
        }
        let idx: usize = idx_128 as usize;
        let val: i64 = if idx + 1 < len {
            let a = samples[idx] as i64;
            let b = samples[idx + 1] as i64;
            let diff = b - a;
            proof {
                lemma_mod_bound(pos as int, 16000);
                let remi = rem as int;
                assert(-0x3e80_0000_0000 <= diff * remi && diff * remi <= 0x3e80_0000_0000)
                    by (nonlinear_arith)
                    requires
                        -0x1_0000_0000 <= diff <= 0x1_0000_0000,
                        0 <= remi < 16000,
                ;
            }
            let prod = diff * (rem as i64);
            let interp: i64 = if prod >= 0 {
                prod / 16000
            } else {
                -((-prod) / 16000)
            };
            proof {
                let remi = rem as int;
                if prod >= 0 {
                    assert(0 <= interp && interp <= (if diff >= 0 {
                        diff as int
                    } else {
                        0
                    })) by (nonlinear_arith)
                        requires
                            interp == prod as int / 16000,
                            prod == diff * remi,
                            0 <= remi < 16000,
                            0 <= prod,
                    ;
                } else {
                    assert((if diff >= 0 {
                        0
                    } else {
                        diff as int
                    }) <= interp && interp <= 0) by (nonlinear_arith)
                        requires
                            interp == -((-prod) as int / 16000),
                            prod == diff * remi,
                            0 <= remi < 16000,
                            prod < 0,
                    ;
                }
                assert(interp == div_trunc(diff * remi, 16000));
            }
            a + interp
        } else {
            samples[idx] as i64
        };
        proof {
            assert(val as int == resample_at(samples@, source_rate as nat, i as int));
            assert(i32::MIN <= val <= i32::MAX);
        }
        out.push(val as i32);
        i = i + 1;
    }
    out
}

} // verus!

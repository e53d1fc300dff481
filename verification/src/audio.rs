//! Audio capture processing: down-mixing to mono, level metering and its
//! throttle, and input-device resolution.
//!
//! Samples are fixed-point: an `i32` holds the sample value scaled by
//! [`SAMPLE_FULL_SCALE`], so a 16-bit signed device sample is used as it
//! comes, and a float sample in [-1, 1] maps to [-32768, 32768]. The
//! device callback hands frames in; the functions here never touch the
//! device itself.

use vstd::prelude::*;
use crate::text::str_eq;

verus! {

/// The fixed-point scale: this value stands for a full-scale (1.0) sample.
pub const SAMPLE_FULL_SCALE: i32 = 32768;

/// Quotient of `a / b` rounded toward zero, for `b > 0`.
pub open spec fn div_trunc(a: int, b: int) -> int
    recommends
        b > 0,
{
    if a >= 0 {
        a / b
    } else {
        -((-a) / b)
    }
}

/// Sum of a sample sequence.
pub open spec fn sum_samples(s: Seq<i32>) -> int
    decreases s.len(),
{
    if s.len() == 0 {
        0
    } else {
        sum_samples(s.drop_last()) + s.last()
    }
}

/// Arithmetic mean of one frame, rounded toward zero.
pub open spec fn mono_mean(frame: Seq<i32>) -> int
    recommends
        frame.len() > 0,
{
    div_trunc(sum_samples(frame), frame.len() as int)
}

/// The mono sequence: one arithmetic mean per `ch`-channel frame.
pub open spec fn frame_means(data: Seq<i32>, ch: nat) -> Seq<int>
    recommends
        ch > 0,
{
    Seq::new((data.len() as int / ch as int) as nat, |i: int| mono_mean(data.subrange(ch * i, ch * i + ch)))
}

/// Sum of the squares of a sequence, the RMS numerator: the RMS level of
/// `s` is `sqrt(sum_squares(s) / len)`.
pub open spec fn sum_squares(s: Seq<int>) -> int
    decreases s.len(),
{
    if s.len() == 0 {
        0
    } else {
        sum_squares(s.drop_last()) + s.last() * s.last()
    }
}

proof fn lemma_sum_bounds(s: Seq<i32>)
    ensures
        s.len() * (i32::MIN as int) <= sum_samples(s) <= s.len() * (i32::MAX as int),
    decreases s.len(),
{
    if s.len() > 0 {
        lemma_sum_bounds(s.drop_last());
        assert((s.len() - 1) * (i32::MIN as int) + i32::MIN == s.len() * (i32::MIN as int))
            by (nonlinear_arith);
        assert((s.len() - 1) * (i32::MAX as int) + i32::MAX == s.len() * (i32::MAX as int))
            by (nonlinear_arith);
    }
}

proof fn lemma_mean_in_range(frame: Seq<i32>)
    requires
        frame.len() > 0,
    ensures
        i32::MIN as int <= mono_mean(frame) <= i32::MAX as int,
{
    lemma_sum_bounds(frame);
    let n = frame.len() as int;
    let s = sum_samples(frame);
    if s >= 0 {
        assert(s / n <= i32::MAX as int) by (nonlinear_arith)
            requires
                n >= 1,
                0 <= s <= n * (i32::MAX as int),
        ;
        assert(s / n >= 0) by (nonlinear_arith)
            requires
                n >= 1,
                s >= 0,
        ;
    } else {
        assert((-s) / n <= -(i32::MIN as int)) by (nonlinear_arith)
            requires
                n >= 1,
                0 <= -s <= n * (-(i32::MIN as int)),
        ;
        assert((-s) / n >= 0) by (nonlinear_arith)
            requires
                n >= 1,
                -s >= 0,
        ;
    }
}

/// Down-mix interleaved `ch`-channel samples to mono by the arithmetic
/// mean of each frame.
pub fn downmix(data: &Vec<i32>, channels: u16) -> (r: Vec<i32>)
    requires
        channels >= 1,
        data@.len() as int % (channels as int) == 0,
    ensures
        r@.len() == data@.len() as int / (channels as int),
        forall|i: int|
            0 <= i < r@.len() ==> #[trigger] r@[i] as int == frame_means(
                data@,
                channels as nat,
            )[i],
{
    let ch = channels as usize;
    let n = data.len() / ch;
    proof {
        assert(data@.len() == n * ch) by (nonlinear_arith)
            requires
                ch >= 1,
                data@.len() as int % (ch as int) == 0,
                n == data@.len() as int / ch as int,
        ;
    }
    let mut out: Vec<i32> = Vec::new();
    let mut f: usize = 0;
    while f < n
        invariant
            f <= n,
            ch >= 1,
            ch <= 0xffff,
            data@.len() <= usize::MAX,
            data@.len() == n * ch,
            n == data@.len() as int / ch as int,
            out@.len() == f,
            forall|i: int|
                0 <= i < f ==> #[trigger] out@[i] as int == mono_mean(
                    data@.subrange(ch * i, ch * i + ch),
                ),
        decreases n - f,
    {
        proof {
            assert(f * ch + ch <= n * ch) by (nonlinear_arith)
                requires
                    f < n,
                    ch >= 1,
            ;
        }
        let base = f * ch;
        let mut acc: i64 = 0;
        let mut k: usize = 0;
        while k < ch
            invariant
                k <= ch,
                ch >= 1,
                ch <= 0xffff,
                base == f * ch,
                base + ch <= data@.len(),
                data@.len() <= usize::MAX,
                acc == sum_samples(data@.subrange(base as int, base + k)),
                -(k as int) * 0x8000_0000 <= acc <= (k as int) * 0x8000_0000,
            decreases ch - k,
        {
            proof {
                assert(data@.subrange(base as int, base + k + 1).drop_last() =~= data@.subrange(
                    base as int,
                    base + k,
                ));
            }
            acc = acc + data[base + k] as i64;
            k = k + 1;
        }
        let mean: i64 = if acc >= 0 {
            acc / (ch as i64)
        } else {
            -((-acc) / (ch as i64))
        };
        proof {
            let frame = data@.subrange(base as int, base + ch);
            assert(frame.len() == ch);
            lemma_mean_in_range(frame);
            assert(mean as int == div_trunc(acc as int, ch as int));
            assert(mean as int == mono_mean(frame));
        }
        out.push(mean as i32);
        proof {
            assert(ch * (f as int) == base) by (nonlinear_arith)
                requires
                    base == f * ch,
            ;
            assert(out@[f as int] as int == mono_mean(
                data@.subrange(ch * (f as int), ch * (f as int) + ch),
            ));
        }
        f = f + 1;
    }
    proof {
        assert(forall|i: int|
            0 <= i < n ==> frame_means(data@, ch as nat)[i] == mono_mean(
                #[trigger] data@.subrange(ch * i, ch * i + ch),
            ));
    }
    out
}

/// The mono samples a down-mix yields, as fixed-point values: each
/// frame's arithmetic mean (which a mean always fits).
pub open spec fn spec_downmix(data: Seq<i32>, ch: nat) -> Seq<i32>
    recommends
        ch > 0,
{
    Seq::new(
        (data.len() as int / ch as int) as nat,
        |i: int| mono_mean(data.subrange(ch * i, ch * i + ch)) as i32,
    )
}

proof fn lemma_sum_bounded(s: Seq<i32>, b: int)
    requires
        b >= 0,
        forall|k: int| 0 <= k < s.len() ==> -b <= #[trigger] s[k] <= b,
    ensures
        -(s.len() * b) <= sum_samples(s) <= s.len() * b,
    decreases s.len(),
{
    if s.len() > 0 {
        assert(forall|k: int| 0 <= k < s.drop_last().len() ==> -b <= #[trigger] s.drop_last()[k] <= b);
        lemma_sum_bounded(s.drop_last(), b);
        assert((s.len() - 1) * b + b == s.len() * b) by (nonlinear_arith);
    }
}

/// The mean of samples within a bound stays within the bound.
proof fn lemma_mean_bounded(frame: Seq<i32>, b: int)
    requires
        frame.len() > 0,
        b >= 0,
        forall|k: int| 0 <= k < frame.len() ==> -b <= #[trigger] frame[k] <= b,
    ensures
        -b <= mono_mean(frame) <= b,
{
    lemma_sum_bounded(frame, b);
    let n = frame.len() as int;
    let s = sum_samples(frame);
    if s >= 0 {
        assert(0 <= s / n <= b) by (nonlinear_arith)
            requires
                n >= 1,
                0 <= s <= n * b,
        ;
    } else {
        assert(0 <= (-s) / n <= b) by (nonlinear_arith)
            requires
                n >= 1,
                0 <= -s <= n * b,
        ;
    }
}

/// The down-mix of normalized samples is normalized, and each of its
/// values is exactly the frame mean.
pub proof fn lemma_downmix_values(data: Seq<i32>, ch: nat)
    requires
        ch >= 1,
        data.len() as int % (ch as int) == 0,
    ensures
        spec_downmix(data, ch).len() == data.len() as int / ch as int,
        forall|i: int|
            0 <= i < spec_downmix(data, ch).len() ==> #[trigger] spec_downmix(data, ch)[i] as int
                == frame_means(data, ch)[i],
        normalized(data) ==> normalized(spec_downmix(data, ch)),
{
    let n = data.len() as int / ch as int;
    assert forall|i: int| 0 <= i < n implies #[trigger] spec_downmix(data, ch)[i] as int
        == frame_means(data, ch)[i] && (normalized(data) ==> -32768 <= spec_downmix(data, ch)[i]
        <= 32768) by {
        assert(ch * i + ch <= n * ch) by (nonlinear_arith)
            requires
                0 <= i < n,
                ch >= 1,
        ;
        assert(n * ch == data.len()) by (nonlinear_arith)
            requires
                ch >= 1,
                data.len() as int % (ch as int) == 0,
                n == data.len() as int / ch as int,
        ;
        let frame = data.subrange(ch * i, ch * i + ch);
        lemma_mean_in_range(frame);
        if normalized(data) {
            assert(forall|k: int| 0 <= k < frame.len() ==> -32768 <= #[trigger] frame[k] <= 32768);
            lemma_mean_bounded(frame, 32768);
        }
    }
}

/// Down-mixing an N-channel frame and then computing its RMS equals
/// computing the RMS over the frame's arithmetic mean: the down-mix of a
/// single frame is exactly its one mean sample, so both sides are
/// `sqrt(mean * mean / 1)`. Stated over the RMS numerators, which each
/// range over one sample.
pub proof fn lemma_downmix_rms_single_frame(frame: Seq<i32>, ch: nat)
    requires
        ch >= 1,
        frame.len() == ch,
    ensures
        frame_means(frame, ch) =~= seq![mono_mean(frame)],
        sum_squares(frame_means(frame, ch)) == mono_mean(frame) * mono_mean(frame),
{
    assert(frame.len() as int / ch as int == 1) by (nonlinear_arith)
        requires
            ch >= 1,
            frame.len() == ch,
    ;
    let m = frame_means(frame, ch);
    assert(frame.subrange(ch as int * 0, ch as int * 0 + ch as int) =~= frame);
    assert(m[0] == mono_mean(frame));
    assert(m =~= seq![mono_mean(frame)]);
    assert(m.drop_last() =~= Seq::<int>::empty());
    assert(sum_squares(m) == sum_squares(m.drop_last()) + m.last() * m.last());
}

/// Samples normalized to [-1, 1] in fixed point: at most one unit of
/// full scale in magnitude.
pub open spec fn normalized(s: Seq<i32>) -> bool {
    forall|i: int| 0 <= i < s.len() ==> -32768 <= #[trigger] s[i] <= 32768
}

/// Sum of squares of a mono buffer, the numerator of its RMS level.
pub fn rms_numerator(mono: &Vec<i32>) -> (r: u64)
    requires
        normalized(mono@),
        mono@.len() <= 0x1_0000_0000,
    ensures
        r as int == sum_squares(mono@.map_values(|x: i32| x as int)),
{
    let ghost ints = mono@.map_values(|x: i32| x as int);
    let mut acc: u64 = 0;
    let mut i: usize = 0;
    let n = mono.len();
    while i < n
        invariant
            i <= n,
            n == mono@.len(),
            normalized(mono@),
            n <= 0x1_0000_0000,
            ints == mono@.map_values(|x: i32| x as int),
            acc as int == sum_squares(ints.take(i as int)),
            acc <= (i as int) * 0x4000_0000,
        decreases n - i,
    {
        proof {
            assert(ints.take(i + 1).drop_last() =~= ints.take(i as int));
            assert(ints.take(i + 1).last() == mono@[i as int] as int);
            let v = mono@[i as int] as int;
            assert(v * v <= 0x4000_0000) by (nonlinear_arith)
                requires
                    -32768 <= v <= 32768,
            ;
            assert(v * v >= 0) by (nonlinear_arith);
        }
        let v = mono[i] as i64;
        acc = acc + ((v * v) as u64);
        i = i + 1;
    }
    proof {
        assert(ints.take(n as int) =~= ints);
    }
    acc
}

/// A convertible device sample format: 32-bit float or 16-bit signed
/// integer. Anything else is rejected at initialization.
pub enum SampleFormat {
    FloatBits32,
    SignedBits16,
    Other,
}

/// Only 32-bit float and 16-bit signed integer streams are accepted.
pub fn format_supported(f: &SampleFormat) -> (r: bool)
    ensures
        r == (f is FloatBits32 || f is SignedBits16),
{
    match f {
        SampleFormat::FloatBits32 => true,
        SampleFormat::SignedBits16 => true,
        SampleFormat::Other => false,
    }
}

/// A 16-bit signed device sample, as a fixed-point sample: the scale of
/// [`SAMPLE_FULL_SCALE`] is chosen so this is the identity embedding
/// (the 16-bit full scale of 32768 becomes one unit).
pub fn normalize_i16(v: i16) -> (r: i32)
    ensures
        r as int == v as int,
        -32768 <= r <= 32768,
{
    v as i32
}

/// Throttle for level events: at most one every 16 milliseconds of wall
/// clock, so the visualization rate does not depend on the buffer size.
pub struct LevelMeter {
    pub last_emit_ms: u64,
}

impl LevelMeter {
    /// A meter that last reported at clock value `now_ms`.
    pub fn new(now_ms: u64) -> (r: Self)
        ensures
            r.last_emit_ms == now_ms,
    {
        LevelMeter { last_emit_ms: now_ms }
    }

    /// Should a level sample be published at clock value `now_ms`?
    /// True exactly when 16 ms have passed since the last publication,
    /// and then the meter remembers this publication.
    pub fn should_emit(&mut self, now_ms: u64) -> (r: bool)
        requires
            now_ms >= old(self).last_emit_ms,
        ensures
            r == (now_ms - old(self).last_emit_ms >= 16),
            r ==> final(self).last_emit_ms == now_ms,
            !r ==> final(self).last_emit_ms == old(self).last_emit_ms,
    {
        if now_ms - self.last_emit_ms >= 16 {
            self.last_emit_ms = now_ms;
            true
        } else {
            false
        }
    }
}

/// One capture device as enumeration reports it.
#[derive(Clone, PartialEq, Debug)]
pub struct AudioDevice {
    pub name: String,
    pub is_default: bool,
}

/// Index of the device a request names: the first device of that name,
/// or the first default device when the request is empty.
pub fn find_device(requested: &str, devices: &Vec<AudioDevice>) -> (r: Option<usize>)
    ensures
        match r {
            Some(i) => {
                &&& 0 <= i < devices@.len()
                &&& if requested@.len() == 0 {
                    devices@[i as int].is_default && forall|k: int|
                        0 <= k < i ==> !(#[trigger] devices@[k]).is_default
                } else {
                    devices@[i as int].name@ == requested@ && forall|k: int|
                        0 <= k < i ==> (#[trigger] devices@[k]).name@ != requested@
                }
            },
            None => {
                if requested@.len() == 0 {
                    forall|k: int| 0 <= k < devices@.len() ==> !(#[trigger] devices@[k]).is_default
                } else {
                    forall|k: int|
                        0 <= k < devices@.len() ==> (#[trigger] devices@[k]).name@ != requested@
                }
            },
        },
{
    let n = devices.len();
    let by_name = requested.unicode_len() > 0;
    let mut i: usize = 0;
    while i < n
        invariant
            i <= n,
            n == devices@.len(),
            by_name == (requested@.len() > 0),
            by_name ==> forall|k: int| 0 <= k < i ==> (#[trigger] devices@[k]).name@ != requested@,
            !by_name ==> forall|k: int| 0 <= k < i ==> !(#[trigger] devices@[k]).is_default,
        decreases n - i,
    {
        if by_name {
            if str_eq(devices[i].name.as_str(), requested) {
                return Some(i);
            }
        } else {
            if devices[i].is_default {
                return Some(i);
            }
        }
        i = i + 1;
    }
    None
}

/// Resolve the configured device name against the available devices:
/// a named device that cannot be found falls back to the default device,
/// and the second component reports that the fallback happened (the
/// stored configuration is then left untouched by the caller).
pub fn resolve_device(requested: &str, devices: &Vec<AudioDevice>) -> (r: (Option<usize>, bool))
    ensures
        r.1 == (requested@.len() > 0 && (forall|k: int|
            0 <= k < devices@.len() ==> (#[trigger] devices@[k]).name@ != requested@)),
        match r.0 {
            Some(i) => {
                &&& 0 <= i < devices@.len()
                &&& !r.1 ==> (requested@.len() == 0 || devices@[i as int].name@ == requested@)
                &&& !r.1 && requested@.len() == 0 ==> devices@[i as int].is_default
                &&& r.1 ==> devices@[i as int].is_default
            },
            None => {
                forall|k: int| 0 <= k < devices@.len() ==> !(#[trigger] devices@[k]).is_default
            },
        },
{
    proof {
        reveal_strlit("");
    }
    if requested.unicode_len() == 0 {
        return (find_device(requested, devices), false);
    }
    match find_device(requested, devices) {
        Some(i) => (Some(i), false),
        None => (find_device("", devices), true),
    }
}

} // verus!

//! Audio capture: frames of fixed-point samples, the peak meter, the mono
//! downmix and resampling that feed the recognizer, and the capture state
//! machine driven over a command channel.
//!
//! Samples are fixed-point integers: the host maps the hardware's unit-range
//! float samples onto `-SAMPLE_ONE..=SAMPLE_ONE`. Callbacks registered from
//! the realtime path are replaced by event subscriptions: the engine queues
//! events and the host drains them.

use vstd::prelude::*;

verus! {

/// The fixed-point value standing for a full-scale sample.
pub const SAMPLE_ONE: i32 = 1_000_000;

/// The largest supported sample rate, in frames per second.
pub const MAX_SAMPLE_RATE: u32 = 1_000_000;

/// The largest supported frame length, in samples.
pub const MAX_FRAME_SAMPLES: usize = 0x1000_0000;

/// Integer division rounded toward zero, as the sample arithmetic uses it.
pub open spec fn div_toward_zero(n: int, d: int) -> int {
    if n >= 0 {
        n / d
    } else {
        -((-n) / d)
    }
}

/// The average of two samples, rounded toward zero.
pub open spec fn avg_sample(a: int, b: int) -> int {
    div_toward_zero(a + b, 2)
}

/// Linear interpolation between two samples at fraction `f` of `d`,
/// rounded toward zero.
pub open spec fn lerp_sample(a: int, b: int, f: int, d: int) -> int {
    div_toward_zero(a * (d - f) + b * f, d)
}

fn div_toward_zero_i64(n: i64, d: u64) -> (r: i64)
    requires
        1 <= d <= 0x7FFF_FFFF_FFFF_FFFFu64,
        -0x7FFF_FFFF_FFFF_FFFFi64 <= n,
    ensures
        r as int == div_toward_zero(n as int, d as int),
{
    if n >= 0 {
        ((n as u64) / d) as i64
    } else {
        let m = (-n) as u64;
        -((m / d) as i64)
    }
}

/// The values of the samples, as mathematical integers.
pub open spec fn sample_values(s: Seq<i32>) -> Seq<int> {
    s.map_values(|x: i32| x as int)
}

/// The largest absolute sample value of the frame.
pub open spec fn peak_of(s: Seq<int>) -> int
    decreases s.len(),
{
    if s.len() == 0 {
        0
    } else {
        let rest = peak_of(s.drop_last());
        let a = if s.last() >= 0 {
            s.last()
        } else {
            -s.last()
        };
        if a > rest {
            a
        } else {
            rest
        }
    }
}

/// The stereo frame mixed down to mono by per-sample averaging; a frame with
/// any other channel count is taken as already mono.
pub open spec fn mono_of(s: Seq<int>, channels: u16) -> Seq<int> {
    if channels == 2 {
        Seq::new(s.len() / 2, |i: int| avg_sample(s[2 * i], s[2 * i + 1]))
    } else {
        s
    }
}

/// The mono samples resampled from `in_rate` to `out_rate` by linear
/// interpolation on a fixed-point time base; equal rates leave the samples
/// untouched. The output length is `len * out_rate / in_rate`, rounded down.
pub open spec fn resampled_of(m: Seq<int>, in_rate: int, out_rate: int) -> Seq<int> {
    if in_rate == out_rate {
        m
    } else {
        Seq::new(
            (m.len() * out_rate / in_rate) as nat,
            |i: int|
                {
                    let num = i * in_rate;
                    let idx = num / out_rate;
                    let idx1 = if idx + 1 < m.len() {
                        idx + 1
                    } else {
                        m.len() - 1
                    };
                    lerp_sample(m[idx], m[idx1], num % out_rate, out_rate)
                },
        )
    }
}

/// What the recognizer is fed: the frame mixed down to mono, then resampled
/// to the target rate.
pub open spec fn whisper_input_of(
    s: Seq<int>,
    channels: u16,
    in_rate: int,
    out_rate: int,
) -> Seq<int> {
    resampled_of(mono_of(s, channels), in_rate, out_rate)
}

/// One frame of captured audio, as produced by a hardware callback.
#[derive(Debug, Clone)]
pub struct AudioData {
    /// Fixed-point audio samples in `-SAMPLE_ONE..=SAMPLE_ONE`.
    samples: Vec<i32>,
    /// Sample rate in frames per second.
    sample_rate: u32,
    /// Number of channels.
    channels: u16,
}

impl AudioData {
    /// The samples of the frame.
    pub closed spec fn samples_view(&self) -> Seq<i32> {
        self.samples@
    }

    /// The sample rate of the frame.
    pub closed spec fn rate_of(&self) -> u32 {
        self.sample_rate
    }

    /// The channel count of the frame.
    pub closed spec fn channels_of(&self) -> u16 {
        self.channels
    }

    /// Samples bounded to full scale, and rate and length in supported range.
    pub closed spec fn wf(&self) -> bool {
        &&& forall|i: int|
            0 <= i < self.samples@.len() ==> -SAMPLE_ONE <= #[trigger] self.samples@[i]
                <= SAMPLE_ONE
        &&& 1 <= self.sample_rate <= MAX_SAMPLE_RATE
        &&& self.samples@.len() <= MAX_FRAME_SAMPLES
    }

    /// Creates a frame. The bounds are machine limits: samples at full scale
    /// and a supported rate keep all later arithmetic exact.
    pub fn new(samples: Vec<i32>, sample_rate: u32, channels: u16) -> (r: Self)
        requires
            forall|i: int|
                0 <= i < samples@.len() ==> -SAMPLE_ONE <= #[trigger] samples@[i] <= SAMPLE_ONE,
            1 <= sample_rate <= MAX_SAMPLE_RATE,
            samples@.len() <= MAX_FRAME_SAMPLES,
        ensures
            r.wf(),
            r.samples_view() == samples@,
            r.rate_of() == sample_rate,
            r.channels_of() == channels,
    {
        AudioData { samples, sample_rate, channels }
    }

    /// The audio samples.
    pub fn get_samples(&self) -> (r: &[i32])
        ensures
            r@ == self.samples_view(),
    {
        self.samples.as_slice()
    }

    /// The sample rate.
    pub fn sample_rate(&self) -> (r: u32)
        ensures
            r == self.rate_of(),
    {
        self.sample_rate
    }

    /// The number of channels.
    pub fn channels(&self) -> (r: u16)
        ensures
            r == self.channels_of(),
    {
        self.channels
    }

    /// Converts to mono and resamples to the target rate. The output-length
    /// bound is a machine limit: the resampled frame must fit the supported
    /// frame size.
    pub fn to_whisper_input(&self, target_sample_rate: u32) -> (r: Vec<i32>)
        requires
            self.wf(),
            1 <= target_sample_rate <= MAX_SAMPLE_RATE,
            (self.samples_view().len() as int) * (target_sample_rate as int)
                <= (MAX_FRAME_SAMPLES as int) * (self.rate_of() as int),
        ensures
            sample_values(r@) == whisper_input_of(
                sample_values(self.samples_view()),
                self.channels_of(),
                self.rate_of() as int,
                target_sample_rate as int,
            ),
    {
        broadcast use vstd::arithmetic::div_mod::lemma_fundamental_div_mod;
        broadcast use vstd::arithmetic::div_mod::lemma_mod_division_less_than_divisor;

        let ghost sv = sample_values(self.samples@);
        let mut result: Vec<i32> = Vec::new();
        if self.channels == 2 {
            let half = self.samples.len() / 2;
            proof {
                vstd::arithmetic::div_mod::lemma_fundamental_div_mod(
                    self.samples@.len() as int,
                    2,
                );
                vstd::arithmetic::div_mod::lemma_mod_division_less_than_divisor(
                    self.samples@.len() as int,
                    2,
                );
            }
            let mut i: usize = 0;
            while i < half
                invariant
                    i <= half,
                    half == self.samples@.len() / 2,
                    2 * half <= self.samples@.len(),
                    self.samples@.len() <= MAX_FRAME_SAMPLES,
                    forall|k: int|
                        0 <= k < self.samples@.len() ==> -SAMPLE_ONE <= #[trigger] self.samples@[k]
                            <= SAMPLE_ONE,
                    result@.len() == i,
                    forall|k: int|
                        0 <= k < i ==> #[trigger] result@[k] as int == avg_sample(
                            sv[2 * k],
                            sv[2 * k + 1],
                        ),
                    sv == sample_values(self.samples@),
                decreases half - i,
            {
                proof {
                    assert(2 * i + 1 < self.samples@.len());
                }
                let a = self.samples[2 * i];
                let b = self.samples[2 * i + 1];
                let s: i64 = a as i64 + b as i64;
                let avg = div_toward_zero_i64(s, 2);
                proof {
                    assert(avg_sample(sv[2 * i as int], sv[2 * i + 1]) == avg as int);
                    assert(-SAMPLE_ONE <= avg <= SAMPLE_ONE);
                }
                result.push(avg as i32);
                i = i + 1;
            }
            proof {
                assert(sample_values(result@) =~= mono_of(sv, self.channels));
            }
        } else {
            result = self.samples.clone();
            proof {
                assert(sample_values(result@) =~= mono_of(sv, self.channels));
            }
        }
        let ghost mono = mono_of(sv, self.channels);
        if self.sample_rate == target_sample_rate {
            return result;
        }
        let mlen = result.len();
        let in_rate = self.sample_rate as u64;
        let out_rate = target_sample_rate as u64;
        proof {
            assert(mlen <= self.samples@.len());
            assert((mlen as int) * (out_rate as int) <= (MAX_FRAME_SAMPLES as int) * (
            in_rate as int)) by (nonlinear_arith)
                requires
                    0 <= mlen <= self.samples@.len(),
                    (self.samples@.len() as int) * (out_rate as int) <= (MAX_FRAME_SAMPLES as int)
                        * (in_rate as int),
                    out_rate >= 1,
            ;
            assert((mlen as int) * (out_rate as int) <= 0x1000_0000 * 1_000_000) by (
            nonlinear_arith)
                requires
                    0 <= mlen <= 0x1000_0000,
                    1 <= out_rate <= 1_000_000,
            ;
        }
        let product: u64 = (mlen as u64) * out_rate;
        let target_len_64: u64 = product / in_rate;
        proof {
            assert((in_rate as int) * (MAX_FRAME_SAMPLES as int) == (MAX_FRAME_SAMPLES as int) * (
            in_rate as int)) by (nonlinear_arith);
            vstd::arithmetic::div_mod::lemma_multiply_divide_le(
                product as int,
                in_rate as int,
                MAX_FRAME_SAMPLES as int,
            );
            assert(target_len_64 <= MAX_FRAME_SAMPLES as u64);
        }
        let target_len: usize = target_len_64 as usize;
        let mut out: Vec<i32> = Vec::new();
        let mut i: usize = 0;
        while i < target_len
            invariant
                i <= target_len,
                target_len <= MAX_FRAME_SAMPLES,
                target_len == mono.len() * (out_rate as int) / (in_rate as int),
                mono == sample_values(result@),
                mlen == result@.len(),
                mlen == mono.len(),
                1 <= in_rate <= MAX_SAMPLE_RATE,
                1 <= out_rate <= MAX_SAMPLE_RATE,
                in_rate != out_rate,
                mlen <= MAX_FRAME_SAMPLES,
                forall|k: int|
                    0 <= k < mlen ==> -SAMPLE_ONE <= #[trigger] result@[k] <= SAMPLE_ONE,
                out@.len() == i,
                forall|k: int|
                    0 <= k < i ==> #[trigger] out@[k] as int == resampled_of(
                        mono,
                        in_rate as int,
                        out_rate as int,
                    )[k],
            decreases target_len - i,
        {
            broadcast use vstd::arithmetic::div_mod::lemma_fundamental_div_mod;
            broadcast use vstd::arithmetic::div_mod::lemma_mod_division_less_than_divisor;

            proof {
                assert((i as int) * (in_rate as int) <= 0x1000_0000 * 1_000_000) by (
                nonlinear_arith)
                    requires
                        0 <= i <= 0x1000_0000,
                        1 <= in_rate <= 1_000_000,
                ;
            }
            let num: u64 = (i as u64) * in_rate;
            proof {
                let tl = target_len as int;
                let il = in_rate as int;
                let ol = out_rate as int;
                let ml = mlen as int;
                assert(tl * il <= ml * ol) by {
                    vstd::arithmetic::div_mod::lemma_fundamental_div_mod(ml * ol, il);
                    vstd::arithmetic::div_mod::lemma_mod_division_less_than_divisor(ml * ol, il);
                    assert(ml * ol == il * (ml * ol / il) + (ml * ol) % il);
                    assert((ml * ol) % il >= 0) by {
                        assert(ml * ol >= 0) by (nonlinear_arith)
                            requires
                                ml >= 0,
                                ol >= 0,
                        ;
                        vstd::arithmetic::div_mod::lemma_mod_division_less_than_divisor(
                            ml * ol,
                            il,
                        );
                    }
                    assert(tl * il == il * tl) by (nonlinear_arith);
                }
                assert((i as int) * il < tl * il) by (nonlinear_arith)
                    requires
                        0 <= i < tl,
                        il >= 1,
                ;
                assert((num as int) < ml * ol);
                assert((num as int) < ol * ml) by (nonlinear_arith)
                    requires
                        (num as int) < ml * ol,
                ;
                vstd::arithmetic::div_mod::lemma_multiply_divide_lt(num as int, ol, ml);
            }
            let idx = (num / out_rate) as usize;
            proof {
                assert(idx < mlen);
            }
            let idx1 = if idx + 1 < mlen {
                idx + 1
            } else {
                idx
            };
            proof {
                assert(idx1 as int == (if idx + 1 < mlen {
                    idx + 1
                } else {
                    mlen - 1
                }));
            }
            let frac: u64 = num % out_rate;
            let a = result[idx];
            let b = result[idx1];
            proof {
                assert(frac < out_rate);
                assert(-1_000_000_000_000 <= (a as int) * ((out_rate - frac) as int)
                    <= 1_000_000_000_000) by (nonlinear_arith)
                    requires
                        -1_000_000 <= a <= 1_000_000,
                        0 <= out_rate - frac <= 1_000_000,
                ;
                assert(-1_000_000_000_000 <= (b as int) * (frac as int) <= 1_000_000_000_000) by (
                nonlinear_arith)
                    requires
                        -1_000_000 <= b <= 1_000_000,
                        0 <= frac <= 1_000_000,
                ;
            }
            let numerator: i64 = (a as i64) * ((out_rate - frac) as i64) + (b as i64) * (frac
                as i64);
            let v = div_toward_zero_i64(numerator, out_rate);
            proof {
                assert(v as int == lerp_sample(
                    mono[idx as int],
                    mono[idx1 as int],
                    frac as int,
                    out_rate as int,
                ));
                lemma_lerp_bounded(
                    mono[idx as int],
                    mono[idx1 as int],
                    frac as int,
                    out_rate as int,
                );
                assert(v as int == resampled_of(mono, in_rate as int, out_rate as int)[i as int]);
            }
            out.push(v as i32);
            i = i + 1;
        }
        proof {
            assert(sample_values(out@) =~= resampled_of(mono, in_rate as int, out_rate as int));
        }
        out
    }
}

/// A sample interpolated between two full-scale-bounded samples stays within
/// full scale.
proof fn lemma_lerp_bounded(a: int, b: int, f: int, d: int)
    requires
        -1_000_000 <= a <= 1_000_000,
        -1_000_000 <= b <= 1_000_000,
        0 <= f < d,
        1 <= d <= 1_000_000,
    ensures
        -1_000_000 <= lerp_sample(a, b, f, d) <= 1_000_000,
{
    let num = a * (d - f) + b * f;
    assert(-1_000_000 * d <= num <= 1_000_000 * d) by (nonlinear_arith)
        requires
            -1_000_000 <= a <= 1_000_000,
            -1_000_000 <= b <= 1_000_000,
            0 <= f < d,
            num == a * (d - f) + b * f,
    ;
    assert(1_000_000 * d == d * 1_000_000) by (nonlinear_arith);
    if num >= 0 {
        vstd::arithmetic::div_mod::lemma_multiply_divide_le(num, d, 1_000_000);
        vstd::arithmetic::div_mod::lemma_div_pos_is_pos(num, d);
    } else {
        vstd::arithmetic::div_mod::lemma_multiply_divide_le(-num, d, 1_000_000);
        assert(div_toward_zero(num, d) == -((-num) / d));
        assert((-num) / d >= 0) by {
            vstd::arithmetic::div_mod::lemma_div_pos_is_pos(-num, d);
        }
    }
}

/// Computes the peak absolute amplitude of a frame in one pass.
pub fn compute_peak(samples: &[i32]) -> (r: i32)
    requires
        forall|i: int|
            0 <= i < samples@.len() ==> -SAMPLE_ONE <= #[trigger] samples@[i] <= SAMPLE_ONE,
    ensures
        r as int == peak_of(sample_values(samples@)),
        0 <= r <= SAMPLE_ONE,
{
    let mut peak: i32 = 0;
    let mut i: usize = 0;
    let n = samples.len();
    while i < n
        invariant
            i <= n,
            n == samples@.len(),
            forall|k: int|
                0 <= k < samples@.len() ==> -SAMPLE_ONE <= #[trigger] samples@[k] <= SAMPLE_ONE,
            peak as int == peak_of(sample_values(samples@).take(i as int)),
            0 <= peak <= SAMPLE_ONE,
        decreases n - i,
    {
        let s = samples[i];
        let a = if s >= 0 {
            s
        } else {
            -s
        };
        if a > peak {
            peak = a;
        }
        proof {
            let sv = sample_values(samples@);
            assert(sv.take(i + 1).drop_last() =~= sv.take(i as int));
            assert(sv.take(i + 1).last() == s as int);
        }
        i = i + 1;
    }
    proof {
        assert(sample_values(samples@).take(n as int) =~= sample_values(samples@));
    }
    peak
}

} // verus!

verus! {

/// Audio configuration. The input volume is per-mille: 1000 is unity gain.
#[derive(Debug, Clone)]
pub struct AudioConfig {
    /// Input device name.
    pub input_device: Option<String>,
    /// Input volume level in per-mille (0..=1000).
    pub input_volume: u32,
    /// Sample rate.
    pub sample_rate: u32,
    /// Number of channels.
    pub channels: u16,
}

impl Default for AudioConfig {
    /// Default device, unity volume, 16 kHz mono.
    fn default() -> (r: Self)
        ensures
            r.input_device is None,
            r.input_volume == 1000,
            r.sample_rate == 16000,
            r.channels == 1,
    {
        AudioConfig { input_device: None, input_volume: 1000, sample_rate: 16000, channels: 1 }
    }
}

/// Audio event types emitted by the capture engine, oldest first; the host
/// drains and publishes them.
#[derive(Debug, Clone)]
pub enum AudioEvent {
    /// Audio level update (peak level, fixed point: `SAMPLE_ONE` is full scale).
    Level(i32),
    /// Audio data received.
    Data(AudioData),
    /// Error occurred.
    Error(String),
    /// Audio capture stopped.
    Stopped,
    /// Audio capture started.
    Started,
    /// Legacy name for level changes (for compatibility).
    LevelChanged(i32),
}

/// Commands understood by the capture engine's command loop. Level and data
/// subscriptions go through the event queue rather than registered
/// callbacks, so no callback-carrying variants exist.
#[derive(Debug, Clone)]
pub enum CaptureCommand {
    /// Start capturing.
    Start,
    /// Stop capturing.
    Stop,
    /// Use the device with the given name.
    SetDevice(String),
    /// Leave the command loop.
    Exit,
}

fn clone_samples(v: &[i32]) -> (r: Vec<i32>)
    ensures
        r@ == v@,
{
    let mut r: Vec<i32> = Vec::new();
    let mut i: usize = 0;
    while i < v.len()
        invariant
            i <= v@.len(),
            r@ == v@.take(i as int),
        decreases v@.len() - i,
    {
        r.push(v[i]);
        proof {
            assert(v@.take(i + 1) =~= v@.take(i as int).push(v@[i as int]));
        }
        i = i + 1;
    }
    proof {
        assert(v@.take(v@.len() as int) =~= v@);
    }
    r
}

/// True when the event is a level update with the given value.
pub open spec fn is_level_event(e: AudioEvent, level: int) -> bool {
    match e {
        AudioEvent::Level(v) => v as int == level,
        _ => false,
    }
}

/// True when the event carries a frame with the given content.
pub open spec fn is_data_event(e: AudioEvent, samples: Seq<i32>, rate: u32, channels: u16) -> bool {
    match e {
        AudioEvent::Data(f) => f.samples_view() == samples && f.rate_of() == rate
            && f.channels_of() == channels,
        _ => false,
    }
}

/// The index of the device the engine should open: the first device whose
/// name equals the configured one; the first device as a fallback when the
/// configured name is absent or none is configured; nothing when no device
/// exists.
pub open spec fn selected_device(configured: Option<Seq<char>>, names: Seq<Seq<char>>) -> Option<
    int,
> {
    if names.len() == 0 {
        None
    } else {
        match configured {
            Some(n) => match first_index_of(names, n, 0) {
                Some(i) => Some(i),
                None => Some(0),
            },
            None => Some(0),
        }
    }
}

/// The first position at or after `k` where `names` holds `n`, if any.
pub open spec fn first_index_of(names: Seq<Seq<char>>, n: Seq<char>, k: int) -> Option<int>
    decreases names.len() - k,
{
    if k < 0 || k >= names.len() {
        None
    } else if names[k] == n {
        Some(k)
    } else {
        first_index_of(names, n, k + 1)
    }
}

proof fn lemma_first_index_of(names: Seq<Seq<char>>, n: Seq<char>, m: int, k: int)
    requires
        0 <= m <= k <= names.len(),
        forall|j: int| m <= j < k ==> #[trigger] names[j] != n,
        k < names.len() ==> names[k] == n,
    ensures
        first_index_of(names, n, m) == if k < names.len() {
            Some(k)
        } else {
            None::<int>
        },
    decreases k - m,
{
    if m < k {
        lemma_first_index_of(names, n, m + 1, k);
    }
}

/// Picks the device to open from the available device names; fails exactly
/// when no device is available.
pub fn select_device(configured: &Option<String>, available: &Vec<String>) -> (r: Result<
    usize,
    String,
>)
    ensures
        match r {
            Ok(i) => selected_device(
                match configured {
                    Some(n) => Some(n@),
                    None => None,
                },
                crate::text::str_views(available@),
            ) == Some(i as int),
            Err(_) => available@.len() == 0,
        },
{
    let ghost names = crate::text::str_views(available@);
    if available.len() == 0 {
        return Err(String::from_str("no input device available"));
    }
    proof {
        assert(names.len() == available@.len());
    }
    let ghost conf: Option<Seq<char>> = match configured {
        Some(n) => Some(n@),
        None => None,
    };
    match configured {
        Some(n) => {
            let mut k: usize = 0;
            while k < available.len()
                invariant
                    k <= available@.len(),
                    names == crate::text::str_views(available@),
                    names.len() == available@.len(),
                    names.len() > 0,
                    conf == Some(n@),
                    *configured matches Some(nn) && nn@ == n@,
                    forall|j: int| 0 <= j < k ==> #[trigger] names[j] != n@,
                decreases available@.len() - k,
            {
                if crate::text::str_eq(available[k].as_str(), n.as_str()) {
                    proof {
                        assert(names[k as int] == available@[k as int]@);
                        lemma_first_index_of(names, n@, 0, k as int);
                        assert(selected_device(conf, names) == Some(k as int));
                    }
                    return Ok(k);
                }
                proof {
                    assert(names[k as int] == available@[k as int]@);
                }
                k = k + 1;
            }
            proof {
                lemma_first_index_of(names, n@, 0, names.len() as int);
                assert(selected_device(conf, names) == Some(0int));
            }
            Ok(0)
        },
        None => {
            proof {
                assert(selected_device(conf, names) == Some(0int));
            }
            Ok(0)
        },
    }
}

/// The audio capture engine's state machine. The live stream itself is owned
/// by the host on a dedicated execution context; this engine decides state
/// transitions and queues the events the stream callbacks produce.
pub struct CaptureManager {
    /// Audio configuration.
    config: AudioConfig,
    /// Peak audio level of the last frame (fixed point).
    peak_level: i32,
    /// Whether recording is active.
    is_recording: bool,
    /// Queued events, oldest first.
    events: Vec<AudioEvent>,
}

impl CaptureManager {
    /// Whether recording is active.
    pub closed spec fn recording(&self) -> bool {
        self.is_recording
    }

    /// The last peak level.
    pub closed spec fn peak(&self) -> int {
        self.peak_level as int
    }

    /// The queued events.
    pub closed spec fn events_view(&self) -> Seq<AudioEvent> {
        self.events@
    }

    /// The configured device name.
    pub closed spec fn device_view(&self) -> Option<Seq<char>> {
        match self.config.input_device {
            Some(n) => Some(n@),
            None => None,
        }
    }

    /// The configuration.
    pub closed spec fn config_view(&self) -> AudioConfig {
        self.config
    }

    /// Creates an idle engine with the default configuration.
    pub fn new() -> (r: Self)
        ensures
            !r.recording(),
            r.peak() == 0,
            r.events_view().len() == 0,
            r.device_view() is None,
            r.config_view().sample_rate == 16000,
            r.config_view().channels == 1,
    {
        CaptureManager {
            config: AudioConfig::default(),
            peak_level: 0,
            is_recording: false,
            events: Vec::new(),
        }
    }

    /// Starts capture: a repeated start is a no-op success with no further
    /// side effects; otherwise the engine records and reports `Started`.
    pub fn start(&mut self) -> (r: Result<(), String>)
        ensures
            r is Ok,
            old(self).recording() ==> *final(self) == *old(self),
            !old(self).recording() ==> final(self).recording() && final(self).events_view()
                == old(self).events_view().push(AudioEvent::Started) && final(self).peak() == old(self).peak() && final(self).config_view()
                == old(self).config_view(),
    {
        if self.is_recording {
            return Ok(());
        }
        self.is_recording = true;
        self.events.push(AudioEvent::Started);
        Ok(())
    }

    /// Stops capture: stopping an idle engine is a no-op success with no
    /// further side effects; otherwise the engine goes idle and reports
    /// `Stopped`.
    pub fn stop(&mut self) -> (r: Result<(), String>)
        ensures
            r is Ok,
            !old(self).recording() ==> *final(self) == *old(self),
            old(self).recording() ==> !final(self).recording() && final(self).events_view()
                == old(self).events_view().push(AudioEvent::Stopped) && final(self).peak() == old(self).peak() && final(self).config_view()
                == old(self).config_view(),
    {
        if !self.is_recording {
            return Ok(());
        }
        self.is_recording = false;
        self.events.push(AudioEvent::Stopped);
        Ok(())
    }

    /// Remembers the device to capture from.
    pub fn set_device(&mut self, name: &str)
        ensures
            final(self).device_view() == Some(name@),
            final(self).recording() == old(self).recording(),
            final(self).peak() == old(self).peak(),
            final(self).events_view() == old(self).events_view(),
            final(self).config_view().input_volume == old(self).config_view().input_volume,
            final(self).config_view().sample_rate == old(self).config_view().sample_rate,
            final(self).config_view().channels == old(self).config_view().channels,
    {
        self.config.input_device = Some(String::from_str(name));
    }

    /// Handles one frame from the hardware callback: computes the peak in
    /// one pass, then queues a level event and a data event carrying the
    /// frame. Never blocks: publishing is the host's job.
    pub fn on_frame(&mut self, frame: &AudioData)
        requires
            frame.wf(),
        ensures
            final(self).peak() == peak_of(sample_values(frame.samples_view())),
            final(self).events_view().len() == old(self).events_view().len() + 2,
            final(self).events_view().take(old(self).events_view().len() as int)
                == old(self).events_view(),
            is_level_event(
                final(self).events_view()[old(self).events_view().len() as int],
                peak_of(sample_values(frame.samples_view())),
            ),
            is_data_event(
                final(self).events_view().last(),
                frame.samples_view(),
                frame.rate_of(),
                frame.channels_of(),
            ),
            final(self).recording() == old(self).recording(),
            final(self).config_view() == old(self).config_view(),
    {
        let samples = frame.get_samples();
        let peak = compute_peak(samples);
        self.peak_level = peak;
        self.events.push(AudioEvent::Level(peak));
        let copy = AudioData::new(
            clone_samples(frame.get_samples()),
            frame.sample_rate(),
            frame.channels(),
        );
        self.events.push(AudioEvent::Data(copy));
        proof {
            assert(final(self).events_view().take(old(self).events_view().len() as int)
                =~= old(self).events_view());
        }
    }

    /// Queues a stream error; runtime faults never change the capture state.
    pub fn report_error(&mut self, message: &str)
        ensures
            final(self).recording() == old(self).recording(),
            final(self).peak() == old(self).peak(),
            final(self).config_view() == old(self).config_view(),
            final(self).events_view().len() == old(self).events_view().len() + 1,
            final(self).events_view().take(old(self).events_view().len() as int)
                == old(self).events_view(),
            final(self).events_view().last() matches AudioEvent::Error(m) && m@ == message@,
    {
        self.events.push(AudioEvent::Error(String::from_str(message)));
        proof {
            assert(final(self).events_view().take(old(self).events_view().len() as int)
                =~= old(self).events_view());
        }
    }

    /// One step of the engine's command loop; returns whether the loop goes
    /// on. `Exit` stops capture first, as dropping the engine does.
    pub fn handle_command(&mut self, command: CaptureCommand) -> (more: bool)
        ensures
            ({
                let before = *old(self);
                let after = *final(self);
                match command {
                    CaptureCommand::Start => more && (before.recording() ==> after == before) && (
                    !before.recording() ==> after.recording() && after.events_view()
                        == before.events_view().push(AudioEvent::Started)),
                    CaptureCommand::Stop => more && (!before.recording() ==> after == before) && (
                    before.recording() ==> !after.recording() && after.events_view()
                        == before.events_view().push(AudioEvent::Stopped)),
                    CaptureCommand::SetDevice(name) => more && after.device_view() == Some(name@)
                        && after.recording() == before.recording(),
                    CaptureCommand::Exit => !more && !after.recording(),
                }
            }),
    {
        match command {
            CaptureCommand::Start => {
                let _ = self.start();
                true
            },
            CaptureCommand::Stop => {
                let _ = self.stop();
                true
            },
            CaptureCommand::SetDevice(name) => {
                self.set_device(name.as_str());
                true
            },
            CaptureCommand::Exit => {
                let _ = self.stop();
                false
            },
        }
    }

    /// The current peak audio level.
    pub fn get_peak_level(&self) -> (r: i32)
        ensures
            r as int == self.peak(),
    {
        self.peak_level
    }

    /// The audio configuration.
    pub fn get_config(&self) -> (r: &AudioConfig)
        ensures
            *r == self.config_view(),
    {
        &self.config
    }

    /// Whether audio capture is active.
    pub fn is_active(&self) -> (r: bool)
        ensures
            r == self.recording(),
    {
        self.is_recording
    }

    /// Hands the queued events to the host and clears the queue.
    pub fn take_events(&mut self) -> (r: Vec<AudioEvent>)
        ensures
            r@ == old(self).events_view(),
            final(self).events_view().len() == 0,
            final(self).recording() == old(self).recording(),
            final(self).peak() == old(self).peak(),
            final(self).config_view() == old(self).config_view(),
    {
        let mut drained: Vec<AudioEvent> = Vec::new();
        core::mem::swap(&mut drained, &mut self.events);
        drained
    }
}

} // verus!

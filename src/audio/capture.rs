//! Capture buffers for one recording session, conversion of device audio to
//! 16 kHz mono, and the accumulator that feeds a block resampler.
//!
//! A sample is a signed 16-bit PCM value.

use vstd::prelude::*;
use vstd::slice::slice_to_vec;
use vstd::arithmetic::div_mod::{lemma_div_multiples_vanish_fancy, lemma_fundamental_div_mod};

verus! {

/// The rate that speech recognition expects.
pub const TARGET_RATE: u32 = 16000;

/// The fixed input block of the real-time resampler.
pub const RESAMPLER_CHUNK: usize = 1024;

/// A sample shifted into `0..=65535`.
pub open spec fn lifted(s: i16) -> int {
    s as int + 32768
}

/// Sum of the shifted samples.
pub open spec fn lifted_sum(s: Seq<i16>) -> int
    decreases s.len(),
{
    if s.len() == 0 {
        0
    } else {
        lifted_sum(s.drop_last()) + lifted(s.last())
    }
}

/// Arithmetic mean of a non-empty frame, rounded down.
pub open spec fn frame_mean(f: Seq<i16>) -> int {
    lifted_sum(f) / (f.len() as int) - 32768
}

/// The `k`-th frame of interleaved data; the last one may be short.
pub open spec fn frame_of(data: Seq<i16>, ch: nat, k: int) -> Seq<i16> {
    data.subrange(k * ch, vstd::math::min((k + 1) * ch, data.len() as int))
}

/// Number of frames, counting a short last one.
pub open spec fn frame_count(len: nat, ch: nat) -> nat {
    ((len + ch - 1) as int / (ch as int)) as nat
}

/// Interleaved data downmixed to mono: each frame becomes the mean of its
/// channels, in frame order.
pub open spec fn downmix(data: Seq<i16>, channels: nat) -> Seq<i16> {
    if channels <= 1 {
        data
    } else {
        Seq::new(
            frame_count(data.len(), channels),
            |k: int| frame_mean(frame_of(data, channels, k)) as i16,
        )
    }
}

/// Linear interpolation between `a` and `b` at `r / d` of the way, rounded down.
pub open spec fn lerp(a: i16, b: i16, r: int, d: int) -> int {
    (lifted(a) * (d - r) + lifted(b) * r) / d - 32768
}

/// Number of samples that linear resampling from `from` to `to` produces.
pub open spec fn linear_len(len: nat, from: nat, to: nat) -> nat {
    ((len * to) as int / (from as int)) as nat
}

/// Output sample `i` of linear resampling: source position `i * from / to`,
/// interpolated with its right neighbour when there is one.
pub open spec fn linear_at(s: Seq<i16>, i: int, from: nat, to: nat) -> i16 {
    let idx = i * from / (to as int);
    let r = i * from % (to as int);
    if idx + 1 < s.len() {
        lerp(s[idx], s[idx + 1], r, to as int) as i16
    } else {
        s[idx]
    }
}

/// Linear resampling of mono audio from `from` Hz to `to` Hz.
pub open spec fn resampled_linear(s: Seq<i16>, from: nat, to: nat) -> Seq<i16> {
    Seq::new(linear_len(s.len(), from, to), |i: int| linear_at(s, i, from, to))
}

proof fn lemma_lifted_sum_step(s: Seq<i16>, a: int, j: int)
    requires
        0 <= a <= j < s.len(),
    ensures
        lifted_sum(s.subrange(a, j + 1)) == lifted_sum(s.subrange(a, j)) + lifted(s[j]),
{
    assert(s.subrange(a, j + 1).drop_last() =~= s.subrange(a, j));
}

/// Mean of the frame `data[start..end]`.
fn mean_of(data: &[i16], start: usize, end: usize) -> (m: i16)
    requires
        start < end <= data@.len(),
    ensures
        m as int == frame_mean(data@.subrange(start as int, end as int)),
{
    let mut sum: u128 = 0;
    let mut j = start;
    assert(data@.subrange(start as int, start as int).len() == 0);
    while j < end
        invariant
            start <= j <= end <= data@.len(),
            sum as int == lifted_sum(data@.subrange(start as int, j as int)),
            sum <= 65535 * (j - start),
        decreases end - j,
    {
        proof {
            lemma_lifted_sum_step(data@, start as int, j as int);
        }
        assert(j - start < 0x1_0000_0000_0000_0000);
        sum = sum + (data[j] as i32 + 32768) as u128;
        j = j + 1;
    }
    let n = (end - start) as u128;
    let q = sum / n;
    assert(q <= 65535) by (nonlinear_arith)
        requires
            q == sum / n,
            sum <= 65535 * n,
            n > 0,
    ;
    (q as i32 - 32768) as i16
}

/// Convert interleaved multi-channel audio to mono by averaging the channels
/// of each frame. Mono input is returned unchanged.
pub fn to_mono(data: &[i16], channels: u16) -> (r: Vec<i16>)
    ensures
        r@ == downmix(data@, channels as nat),
{
    if channels <= 1 {
        return slice_to_vec(data);
    }
    let ch = channels as usize;
    let len = data.len();
    let mut out: Vec<i16> = Vec::new();
    let mut start: usize = 0;
    while start < len
        invariant
            len == data@.len(),
            ch == channels as nat,
            ch > 1,
            start <= len,
            start <= out@.len() * ch,
            start < len ==> start == out@.len() * ch,
            out@.len() > 0 ==> (out@.len() - 1) * ch < start,
            out@.len() == 0 ==> start == 0,
            forall|k: int|
                0 <= k < out@.len() ==> #[trigger] out@[k] == frame_mean(
                    frame_of(data@, ch as nat, k),
                ) as i16,
        decreases len - start,
    {
        let end = if len - start >= ch {
            start + ch
        } else {
            len
        };
        let m = mean_of(data, start, end);
        proof {
            let k = out@.len() as int;
            assert(k * ch == start);
            assert((k + 1) * ch == start + ch) by (nonlinear_arith)
                requires
                    k * ch == start,
            ;
            assert(frame_of(data@, ch as nat, k) =~= data@.subrange(start as int, end as int));
        }
        out.push(m);
        proof {
            let k = out@.len() as int;
            assert(k * ch == (k - 1) * ch + ch) by (nonlinear_arith);
        }
        start = end;
    }
    proof {
        let n = out@.len() as int;
        let c = ch as int;
        let l = len as int;
        if n > 0 {
            assert((l + c - 1) / c == n) by (nonlinear_arith)
                requires
                    (n - 1) * c < l,
                    l <= n * c,
                    c > 1,
            {
                let q = (l + c - 1) / c;
                assert(q * c <= l + c - 1 < q * c + c) by (nonlinear_arith)
                    requires
                        q == (l + c - 1) / c,
                        c > 1,
                ;
            }
        } else {
            assert((l + c - 1) / c == 0) by (nonlinear_arith)
                requires
                    l == 0,
                    c > 1,
            ;
        }
        assert(out@ =~= downmix(data@, channels as nat));
    }
    out
}

/// Fallback linear-interpolation resampler for mono audio.
pub fn resample_linear(samples: &[i16], from_rate: u32, to_rate: u32) -> (r: Vec<i16>)
    requires
        from_rate > 0,
        to_rate > 0,
        samples@.len() * to_rate / (from_rate as int) <= usize::MAX,
    ensures
        r@ == resampled_linear(samples@, from_rate as nat, to_rate as nat),
{
    let len = samples.len();
    let from = from_rate as u128;
    let to = to_rate as u128;
    assert(len as int <= 0xffff_ffff_ffff_ffff);
    assert((len as u128) * to <= 0xffff_ffff_ffff_ffff * 0xffff_ffff) by (nonlinear_arith)
        requires
            len as int <= 0xffff_ffff_ffff_ffff,
            to <= 0xffff_ffff,
    ;
    let new_len = ((len as u128) * to / from) as usize;
    let mut out: Vec<i16> = Vec::new();
    let mut i: usize = 0;
    while i < new_len
        invariant
            len == samples@.len(),
            from == from_rate,
            to == to_rate,
            from > 0,
            to > 0,
            new_len == linear_len(len as nat, from as nat, to as nat),
            i <= new_len,
            out@.len() == i,
            forall|k: int|
                0 <= k < i ==> #[trigger] out@[k] == linear_at(
                    samples@,
                    k,
                    from as nat,
                    to as nat,
                ),
        decreases new_len - i,
    {
        assert(i as int <= 0xffff_ffff_ffff_ffff);
        assert((i as u128) * from <= 0xffff_ffff_ffff_ffff * 0xffff_ffff) by (nonlinear_arith)
            requires
                i as int <= 0xffff_ffff_ffff_ffff,
                from <= 0xffff_ffff,
        ;
        let pos = (i as u128) * from;
        let idx128 = pos / to;
        let rem = pos % to;
        proof {
            let ii = i as int;
            let f = from as int;
            let t = to as int;
            let l = len as int;
            let nl = new_len as int;
            assert(ii * f / t < l) by (nonlinear_arith)
                requires
                    ii < nl,
                    nl == l * t / f,
                    f > 0,
                    t > 0,
                    ii >= 0,
                    l >= 0,
            {
                assert(nl * f <= l * t) by (nonlinear_arith)
                    requires
                        nl == l * t / f,
                        f > 0,
                        l * t >= 0,
                ;
                assert((ii + 1) * f <= nl * f) by (nonlinear_arith)
                    requires
                        ii + 1 <= nl,
                        f > 0,
                ;
                assert(ii * f < l * t) by (nonlinear_arith)
                    requires
                        (ii + 1) * f <= l * t,
                        f > 0,
                ;
                assert(ii * f / t < l) by (nonlinear_arith)
                    requires
                        ii * f < l * t,
                        t > 0,
                        ii * f >= 0,
                ;
            }
        }
        let idx = idx128 as usize;
        let v = if idx + 1 < len {
            let a = (samples[idx] as i32 + 32768) as u64;
            let b = (samples[idx + 1] as i32 + 32768) as u64;
            let t = to_rate as u64;
            let rr = rem as u64;
            assert(a * (t - rr) + b * rr <= 65535 * t) by (nonlinear_arith)
                requires
                    a <= 65535,
                    b <= 65535,
                    rr < t,
            ;
            let num = a * (t - rr) + b * rr;
            let q = num / t;
            assert(q <= 65535) by (nonlinear_arith)
                requires
                    q == num / t,
                    num <= 65535 * t,
                    t > 0,
            ;
            (q as i32 - 32768) as i16
        } else {
            samples[idx]
        };
        out.push(v);
        i = i + 1;
    }
    proof {
        assert(out@ =~= resampled_linear(samples@, from_rate as nat, to_rate as nat));
    }
    out
}


/// Errors of the capture engine.
pub enum AudioError {
    NoInputDevice,
    ConfigError(String),
    StreamError(String),
    PlayError(String),
    AlreadyRunning,
    NotRunning,
}

impl AudioError {
    /// A short description for the user.
    pub fn message(&self) -> String {
        match self {
            AudioError::NoInputDevice => "No input device available".to_string(),
            AudioError::ConfigError(_) => "Failed to get default input config".to_string(),
            AudioError::StreamError(_) => "Failed to build stream".to_string(),
            AudioError::PlayError(_) => "Stream error".to_string(),
            AudioError::AlreadyRunning => "Capture already running".to_string(),
            AudioError::NotRunning => "No capture running".to_string(),
        }
    }
}

/// What a finished capture session hands over.
pub struct AudioData {
    /// Interleaved samples at the device rate.
    pub samples: Vec<i16>,
    pub sample_rate: u32,
    pub channels: u16,
    /// 16 kHz mono samples produced while recording, or `None` when
    /// real-time conversion failed or produced nothing.
    pub whisper_samples: Option<Vec<i16>>,
}

/// Mono samples waiting to fill a block of the real-time resampler.
pub struct ResamplerState {
    pub mono_accumulator: Vec<i16>,
    pub chunk_size: usize,
    /// Set once the resampler failed; it stays set for the session.
    pub failed: bool,
    /// Every mono sample fed in so far.
    pub fed: Ghost<Seq<i16>>,
    /// Every mono sample handed out to the resampler so far.
    pub taken: Ghost<Seq<i16>>,
}

impl ResamplerState {
    /// Nothing fed is lost or repeated: what was handed out, followed by what
    /// waits, is exactly what was fed.
    pub open spec fn wf(&self) -> bool {
        &&& self.chunk_size > 0
        &&& self.taken@ + self.mono_accumulator@ == self.fed@
    }

    pub fn new(chunk_size: usize) -> (r: Self)
        requires
            chunk_size > 0,
        ensures
            r.wf(),
            r.chunk_size == chunk_size,
            !r.failed,
            r.fed@ == Seq::<i16>::empty(),
            r.mono_accumulator@ == Seq::<i16>::empty(),
    {
        let r = ResamplerState {
            mono_accumulator: Vec::new(),
            chunk_size,
            failed: false,
            fed: Ghost(Seq::empty()),
            taken: Ghost(Seq::empty()),
        };
        assert(r.taken@ + r.mono_accumulator@ =~= r.fed@);
        r
    }

    /// Append mono samples to the accumulator.
    pub fn accumulate(&mut self, mono: &[i16])
        requires
            old(self).wf(),
        ensures
            final(self).wf(),
            final(self).fed@ == old(self).fed@ + mono@,
            final(self).taken@ == old(self).taken@,
            final(self).mono_accumulator@ == old(self).mono_accumulator@ + mono@,
            final(self).chunk_size == old(self).chunk_size,
            final(self).failed == old(self).failed,
    {
        self.mono_accumulator.extend_from_slice(mono);
        assert(self.mono_accumulator@ =~= old(self).mono_accumulator@ + mono@);
        self.fed = Ghost(old(self).fed@ + mono@);
        assert(self.taken@ + self.mono_accumulator@ =~= self.fed@);
    }

    /// Take the first full block, if one is waiting.
    pub fn take_chunk(&mut self) -> (r: Option<Vec<i16>>)
        requires
            old(self).wf(),
        ensures
            final(self).wf(),
            final(self).fed@ == old(self).fed@,
            final(self).chunk_size == old(self).chunk_size,
            final(self).failed == old(self).failed,
            match r {
                Some(c) => {
                    &&& old(self).mono_accumulator@.len() >= old(self).chunk_size
                    &&& c@ == old(self).mono_accumulator@.subrange(0, old(self).chunk_size as int)
                    &&& final(self).taken@ == old(self).taken@ + c@
                    &&& final(self).mono_accumulator@ == old(self).mono_accumulator@.subrange(
                        old(self).chunk_size as int,
                        old(self).mono_accumulator@.len() as int,
                    )
                },
                None => {
                    &&& old(self).mono_accumulator@.len() < old(self).chunk_size
                    &&& final(self).taken@ == old(self).taken@
                    &&& final(self).mono_accumulator@ == old(self).mono_accumulator@
                },
            },
    {
        if self.mono_accumulator.len() < self.chunk_size {
            return None;
        }
        let mut head = self.mono_accumulator.split_off(self.chunk_size);
        std::mem::swap(&mut head, &mut self.mono_accumulator);
        self.taken = Ghost(old(self).taken@ + head@);
        assert(self.taken@ + self.mono_accumulator@ =~= self.fed@);
        Some(head)
    }

    /// Take everything that waits, for the end-of-session flush.
    pub fn take_remainder(&mut self) -> (r: Vec<i16>)
        requires
            old(self).wf(),
        ensures
            final(self).wf(),
            r@ == old(self).mono_accumulator@,
            final(self).mono_accumulator@ == Seq::<i16>::empty(),
            final(self).taken@ == old(self).fed@,
            final(self).fed@ == old(self).fed@,
            final(self).chunk_size == old(self).chunk_size,
            final(self).failed == old(self).failed,
    {
        let mut rest: Vec<i16> = Vec::new();
        std::mem::swap(&mut rest, &mut self.mono_accumulator);
        self.taken = Ghost(self.fed@);
        assert(self.taken@ + self.mono_accumulator@ =~= self.fed@);
        rest
    }
}


/// Integer square root, rounded down.
pub fn isqrt(n: u64) -> (r: u64)
    ensures
        r * r <= n,
        n < (r + 1) * (r + 1),
{
    let mut lo: u64 = 0;
    let mut hi: u64 = 0x1_0000_0000;
    assert(n < hi * hi);
    while hi - lo > 1
        invariant
            lo < hi <= 0x1_0000_0000,
            lo * lo <= n,
            n < hi * hi,
        decreases hi - lo,
    {
        let mid = lo + (hi - lo) / 2;
        assert(mid * mid <= 0xffff_ffff * 0xffff_ffff) by (nonlinear_arith)
            requires
                mid < 0x1_0000_0000,
        ;
        if mid * mid <= n {
            lo = mid;
        } else {
            hi = mid;
        }
    }
    lo
}

/// Sum of squares of the samples.
pub open spec fn sum_sq(s: Seq<i16>) -> int
    decreases s.len(),
{
    if s.len() == 0 {
        0
    } else {
        sum_sq(s.drop_last()) + s.last() * s.last()
    }
}

/// Sum of squares of `samples`, with its bound.
pub fn sum_of_squares(samples: &[i16]) -> (r: u128)
    ensures
        r == sum_sq(samples@),
        r <= 0x4000_0000 * samples@.len(),
{
    let mut acc: u128 = 0;
    let mut j: usize = 0;
    while j < samples.len()
        invariant
            j <= samples@.len(),
            acc == sum_sq(samples@.subrange(0, j as int)),
            acc <= 0x4000_0000 * j,
        decreases samples@.len() - j,
    {
        assert(samples@.subrange(0, j + 1).drop_last() =~= samples@.subrange(0, j as int));
        let v = samples[j] as i64;
        assert(0 <= v * v <= 0x4000_0000) by (nonlinear_arith)
            requires
                -32768 <= v <= 32767,
        ;
        assert(j < 0x1_0000_0000_0000_0000);
        assert(acc + 0x4000_0000 <= 0x4000_0000 * (j + 1)) by (nonlinear_arith)
            requires
                acc <= 0x4000_0000 * j,
        ;
        assert(0x4000_0000 * (j + 1) <= 0x4000_0000 * 0x1_0000_0000_0000_0000) by (nonlinear_arith)
            requires
                j < 0x1_0000_0000_0000_0000,
        ;
        let sq = v * v;
        acc = acc + sq as u128;
        j = j + 1;
    }
    assert(samples@.subrange(0, samples@.len() as int) =~= samples@);
    acc
}

/// Root-mean-square level of a chunk, rounded down; zero for no samples.
pub open spec fn rms_of(s: Seq<i16>, r: int) -> bool {
    if s.len() == 0 {
        r == 0
    } else {
        r * r <= sum_sq(s) / (s.len() as int) < (r + 1) * (r + 1)
    }
}

pub fn calculate_rms(samples: &[i16]) -> (r: u64)
    ensures
        rms_of(samples@, r as int),
        r <= 32768,
{
    if samples.len() == 0 {
        return 0;
    }
    let ss = sum_of_squares(samples);
    let n = samples.len() as u128;
    let ms = ss / n;
    assert(ms <= 0x4000_0000) by (nonlinear_arith)
        requires
            ms == ss / n,
            ss <= 0x4000_0000 * n,
            n > 0,
    ;
    let r = isqrt(ms as u64);
    assert(r <= 32768) by (nonlinear_arith)
        requires
            r * r <= ms,
            ms <= 0x4000_0000,
    ;
    r
}

/// Full scale of the level meter.
pub const LEVEL_SCALE: u64 = 1000;

/// Display level of a chunk's RMS: fifteen times the RMS relative to full
/// scale, capped at `LEVEL_SCALE`.
pub open spec fn chunk_level(rms: int) -> int {
    vstd::math::min(rms * 15 * 1000 / 32768, 1000)
}

/// Exponential smoothing of the meter: 15% of the old level, 85% of the new.
pub open spec fn smoothed_level(old_level: int, rms: int) -> int {
    (old_level * 15 + chunk_level(rms) * 85) / 100
}

/// Lifecycle of a capture session.
#[derive(PartialEq, Eq, Structural, Clone, Copy)]
pub enum CaptureStatus {
    Idle,
    Running,
    /// A stop is finalising; a new start must wait for it.
    Stopping,
}

/// Status after a start request, and whether the request was accepted.
pub open spec fn start_outcome(s: CaptureStatus) -> (CaptureStatus, bool) {
    match s {
        CaptureStatus::Idle => (CaptureStatus::Running, true),
        _ => (s, false),
    }
}

/// Status after a stop request, and whether a session was running.
pub open spec fn stop_outcome(s: CaptureStatus) -> (CaptureStatus, bool) {
    match s {
        CaptureStatus::Running => (CaptureStatus::Stopping, true),
        _ => (CaptureStatus::Idle, false),
    }
}

/// How the end-of-session flush of the resampler went.
pub enum FlushOutcome {
    /// Nothing was waiting to be flushed.
    Nothing,
    /// The remaining samples, resampled.
    Resampled(Vec<i16>),
    /// The resampler failed on the remainder.
    Failed,
}

/// The shared sample stores and flags of one capture session.
pub struct CaptureEngine {
    pub status: CaptureStatus,
    /// Interleaved samples at the device rate.
    pub raw: Vec<i16>,
    /// 16 kHz mono samples.
    pub normalized: Vec<i16>,
    pub sample_rate: u32,
    pub channels: u16,
    /// Smoothed display level, `0..=LEVEL_SCALE`.
    pub level: u64,
    pub resampler: Option<ResamplerState>,
    /// Every mono sample derived from the device audio of this session.
    pub mono_seen: Ghost<Seq<i16>>,
}

impl CaptureEngine {
    pub open spec fn wf(&self) -> bool {
        &&& self.level <= LEVEL_SCALE
        &&& match self.resampler {
            Some(rs) => rs.wf() && (!rs.failed ==> rs.fed@ == self.mono_seen@),
            None => true,
        }
    }

    /// Idle, with every store empty.
    pub open spec fn is_clean_idle(&self) -> bool {
        &&& self.status == CaptureStatus::Idle
        &&& self.raw@ == Seq::<i16>::empty()
        &&& self.normalized@ == Seq::<i16>::empty()
        &&& self.resampler is None
        &&& self.level == 0
    }

    /// Whether the callback converts without a resampler: the device already
    /// runs at the target rate.
    pub open spec fn direct_path(&self) -> bool {
        self.resampler is None && self.sample_rate == TARGET_RATE
    }

    pub fn new() -> (r: Self)
        ensures
            r.wf(),
            r.is_clean_idle(),
            r.sample_rate == TARGET_RATE,
            r.channels == 1,
    {
        CaptureEngine {
            status: CaptureStatus::Idle,
            raw: Vec::new(),
            normalized: Vec::new(),
            sample_rate: TARGET_RATE,
            channels: 1,
            level: 0,
            resampler: None,
            mono_seen: Ghost(Seq::empty()),
        }
    }

    /// Whether a session is capturing.
    pub fn is_capturing(&self) -> (r: bool)
        ensures
            r == (self.status == CaptureStatus::Running),
    {
        self.status == CaptureStatus::Running
    }

    /// The smoothed display level, for metering only.
    pub fn get_current_level(&self) -> (r: u64)
        ensures
            r == self.level,
    {
        self.level
    }

    /// Clear all session state, whatever it was: the recovery path for a
    /// stuck session.
    pub fn reset_state(&mut self)
        ensures
            final(self).wf(),
            final(self).is_clean_idle(),
            final(self).sample_rate == old(self).sample_rate,
            final(self).channels == old(self).channels,
    {
        self.status = CaptureStatus::Idle;
        self.level = 0;
        self.raw.clear();
        self.normalized.clear();
        self.resampler = None;
        self.mono_seen = Ghost(Seq::empty());
    }

    /// Begin a session. Refused while one runs or a stop is finalising;
    /// otherwise the stores are cleared.
    pub fn start_capture(&mut self) -> (r: Result<(), AudioError>)
        requires
            old(self).wf(),
        ensures
            final(self).wf(),
            final(self).status == start_outcome(old(self).status).0,
            r is Ok == start_outcome(old(self).status).1,
            r is Err ==> r == Err::<(), AudioError>(AudioError::AlreadyRunning) && *final(self)
                == *old(self),
            r is Ok ==> {
                &&& final(self).raw@ == Seq::<i16>::empty()
                &&& final(self).normalized@ == Seq::<i16>::empty()
                &&& final(self).resampler is None
                &&& final(self).mono_seen@ == Seq::<i16>::empty()
                &&& final(self).level == old(self).level
            },
    {
        if self.status != CaptureStatus::Idle {
            return Err(AudioError::AlreadyRunning);
        }
        self.raw.clear();
        self.normalized.clear();
        self.resampler = None;
        self.mono_seen = Ghost(Seq::empty());
        self.status = CaptureStatus::Running;
        Ok(())
    }

    /// Record the device format once the device is open. A block resampler
    /// is used when the rate differs from the target and one could be built.
    pub fn configure(&mut self, sample_rate: u32, channels: u16, resampler_built: bool)
        requires
            old(self).wf(),
        ensures
            final(self).wf(),
            final(self).sample_rate == sample_rate,
            final(self).channels == channels,
            final(self).status == old(self).status,
            final(self).raw == old(self).raw,
            final(self).normalized == old(self).normalized,
            final(self).level == old(self).level,
            final(self).mono_seen == old(self).mono_seen,
            match final(self).resampler {
                Some(rs) => {
                    &&& sample_rate != TARGET_RATE && resampler_built
                    &&& rs.chunk_size == RESAMPLER_CHUNK
                    &&& !rs.failed
                    &&& rs.mono_accumulator@ == Seq::<i16>::empty()
                },
                None => sample_rate == TARGET_RATE || !resampler_built,
            },
    {
        self.sample_rate = sample_rate;
        self.channels = channels;
        if sample_rate != TARGET_RATE && resampler_built {
            let mut rs = ResamplerState::new(RESAMPLER_CHUNK);
            rs.fed = Ghost(self.mono_seen@);
            rs.taken = Ghost(self.mono_seen@);
            assert(rs.taken@ + rs.mono_accumulator@ =~= rs.fed@);
            self.resampler = Some(rs);
        } else {
            self.resampler = None;
        }
    }

    /// The work of one device callback: append the raw samples, update the
    /// meter, and downmix; the mono samples go straight to the 16 kHz store
    /// at the target rate, or wait in the resampler's accumulator.
    pub fn on_audio(&mut self, data: &[i16])
        requires
            old(self).wf(),
        ensures
            final(self).wf(),
            final(self).raw@ == old(self).raw@ + data@,
            final(self).status == old(self).status,
            final(self).sample_rate == old(self).sample_rate,
            final(self).channels == old(self).channels,
            final(self).mono_seen@ == old(self).mono_seen@ + downmix(
                data@,
                old(self).channels as nat,
            ),
            final(self).level == (if data@.len() == 0 {
                old(self).level as int
            } else {
                final(self).level as int
            }),
            data@.len() > 0 ==> exists|rms: int|
                rms_of(data@, rms) && final(self).level == smoothed_level(old(self).level as int, rms),
            old(self).direct_path() ==> final(self).normalized@ == old(self).normalized@
                + downmix(data@, old(self).channels as nat),
            !old(self).direct_path() ==> final(self).normalized@ == old(self).normalized@,
            final(self).resampler is Some == old(self).resampler is Some,
            final(self).resampler is Some ==> {
                let o = old(self).resampler->Some_0;
                let f = final(self).resampler->Some_0;
                &&& f.failed == o.failed
                &&& f.chunk_size == o.chunk_size
                &&& f.taken@ == o.taken@
                &&& f.mono_accumulator@ == if o.failed {
                    o.mono_accumulator@
                } else {
                    o.mono_accumulator@ + downmix(data@, old(self).channels as nat)
                }
            },
    {
        self.raw.extend_from_slice(data);
        assert(self.raw@ =~= old(self).raw@ + data@);
        if data.len() > 0 {
            let rms = calculate_rms(data);
            let scaled = rms * 15 * 1000 / 32768;
            let norm = if scaled < 1000 {
                scaled
            } else {
                1000
            };
            self.level = (self.level * 15 + norm * 85) / 100;
        }
        let mono = to_mono(data, self.channels);
        self.mono_seen = Ghost(old(self).mono_seen@ + mono@);
        match self.resampler.as_mut() {
            Some(rs) => {
                if !rs.failed {
                    rs.accumulate(mono.as_slice());
                }
            },
            None => {
                if self.sample_rate == TARGET_RATE {
                    self.normalized.extend_from_slice(mono.as_slice());
                    assert(self.normalized@ =~= old(self).normalized@ + mono@);
                }
            },
        }
    }

    /// The next full block for the real-time resampler, unless it failed.
    pub fn next_resampler_chunk(&mut self) -> (r: Option<Vec<i16>>)
        requires
            old(self).wf(),
        ensures
            final(self).wf(),
            final(self).status == old(self).status,
            final(self).raw == old(self).raw,
            final(self).normalized == old(self).normalized,
            final(self).sample_rate == old(self).sample_rate,
            final(self).channels == old(self).channels,
            final(self).level == old(self).level,
            final(self).mono_seen == old(self).mono_seen,
            final(self).resampler is Some == old(self).resampler is Some,
            match old(self).resampler {
                None => r is None,
                Some(o) => {
                    let f = final(self).resampler->Some_0;
                    &&& f.failed == o.failed
                    &&& f.chunk_size == o.chunk_size
                    &&& f.fed@ == o.fed@
                    &&& if o.failed || o.mono_accumulator@.len() < o.chunk_size {
                        r is None && f.mono_accumulator@ == o.mono_accumulator@ && f.taken@
                            == o.taken@
                    } else {
                        &&& r is Some
                        &&& r->Some_0@ == o.mono_accumulator@.subrange(0, o.chunk_size as int)
                        &&& f.taken@ == o.taken@ + r->Some_0@
                        &&& f.mono_accumulator@ == o.mono_accumulator@.subrange(
                            o.chunk_size as int,
                            o.mono_accumulator@.len() as int,
                        )
                    }
                },
            },
    {
        match self.resampler.as_mut() {
            Some(rs) => {
                if rs.failed {
                    None
                } else {
                    rs.take_chunk()
                }
            },
            None => None,
        }
    }

    /// Append resampler output to the 16 kHz store.
    pub fn push_resampled(&mut self, out: &[i16])
        requires
            old(self).wf(),
        ensures
            final(self).wf(),
            final(self).normalized@ == old(self).normalized@ + out@,
            final(self).status == old(self).status,
            final(self).raw == old(self).raw,
            final(self).sample_rate == old(self).sample_rate,
            final(self).channels == old(self).channels,
            final(self).level == old(self).level,
            final(self).resampler == old(self).resampler,
            final(self).mono_seen == old(self).mono_seen,
    {
        self.normalized.extend_from_slice(out);
        assert(self.normalized@ =~= old(self).normalized@ + out@);
    }

    /// Record that the real-time resampler failed; it stays failed for the
    /// session and conversion falls back to post-stop processing.
    pub fn mark_resampler_failed(&mut self)
        requires
            old(self).wf(),
        ensures
            final(self).wf(),
            final(self).resampler is Some == old(self).resampler is Some,
            final(self).resampler is Some ==> final(self).resampler->Some_0.failed,
            final(self).status == old(self).status,
            final(self).raw == old(self).raw,
            final(self).normalized == old(self).normalized,
            final(self).sample_rate == old(self).sample_rate,
            final(self).channels == old(self).channels,
            final(self).level == old(self).level,
            final(self).mono_seen == old(self).mono_seen,
    {
        match self.resampler.as_mut() {
            Some(rs) => {
                rs.failed = true;
            },
            None => {},
        }
    }

    /// Request the end of the session. Without a running session the request
    /// fails with `NotRunning` and the engine is left idle.
    pub fn stop_capture(&mut self) -> (r: Result<(), AudioError>)
        requires
            old(self).wf(),
        ensures
            final(self).wf(),
            final(self).status == stop_outcome(old(self).status).0,
            r is Ok == stop_outcome(old(self).status).1,
            r is Err ==> r == Err::<(), AudioError>(AudioError::NotRunning),
            final(self).raw == old(self).raw,
            final(self).normalized == old(self).normalized,
            final(self).resampler == old(self).resampler,
            final(self).level == old(self).level,
            final(self).sample_rate == old(self).sample_rate,
            final(self).channels == old(self).channels,
            final(self).mono_seen == old(self).mono_seen,
    {
        if self.status != CaptureStatus::Running {
            self.status = CaptureStatus::Idle;
            return Err(AudioError::NotRunning);
        }
        self.status = CaptureStatus::Stopping;
        Ok(())
    }

    /// After the device stream has ended, the samples still waiting in the
    /// accumulator, for a final partial pass through the resampler.
    pub fn flush_remainder(&mut self) -> (r: Option<Vec<i16>>)
        requires
            old(self).wf(),
        ensures
            final(self).wf(),
            final(self).status == old(self).status,
            final(self).raw == old(self).raw,
            final(self).normalized == old(self).normalized,
            final(self).sample_rate == old(self).sample_rate,
            final(self).channels == old(self).channels,
            final(self).level == old(self).level,
            final(self).mono_seen == old(self).mono_seen,
            final(self).resampler is Some == old(self).resampler is Some,
            match old(self).resampler {
                None => r is None,
                Some(o) => {
                    let f = final(self).resampler->Some_0;
                    &&& f.failed == o.failed
                    &&& if o.failed || o.mono_accumulator@.len() == 0 {
                        r is None && f == o
                    } else {
                        &&& r is Some
                        &&& r->Some_0@ == o.mono_accumulator@
                        &&& f.mono_accumulator@ == Seq::<i16>::empty()
                        &&& f.taken@ == o.fed@
                        &&& f.fed@ == o.fed@
                    }
                },
            },
    {
        match self.resampler.as_mut() {
            Some(rs) => {
                if rs.failed || rs.mono_accumulator.len() == 0 {
                    None
                } else {
                    Some(rs.take_remainder())
                }
            },
            None => None,
        }
    }

    /// Close the session and hand over its audio. The 16 kHz samples are
    /// handed over only when real-time conversion did not fail and produced
    /// something; a failed flush discards them.
    pub fn finish_stop(&mut self, flush: FlushOutcome) -> (r: AudioData)
        requires
            old(self).wf(),
        ensures
            final(self).wf(),
            final(self).is_clean_idle(),
            r.samples@ == old(self).raw@,
            r.sample_rate == old(self).sample_rate,
            r.channels == old(self).channels,
            r.whisper_samples is Some ==> r.whisper_samples->Some_0@.len() > 0,
            match old(self).resampler {
                Some(rs) if rs.failed => r.whisper_samples is None,
                Some(rs) => match flush {
                    FlushOutcome::Failed => r.whisper_samples is None,
                    FlushOutcome::Resampled(v) => r.whisper_samples is Some
                        <==> old(self).normalized@.len() + v@.len() > 0,
                    FlushOutcome::Nothing => r.whisper_samples is Some
                        <==> old(self).normalized@.len() > 0,
                },
                None => r.whisper_samples is Some <==> old(self).normalized@.len() > 0,
            },
            r.whisper_samples is Some ==> match old(self).resampler {
                Some(rs) => match flush {
                    FlushOutcome::Resampled(v) => r.whisper_samples->Some_0@
                        == old(self).normalized@ + v@,
                    _ => r.whisper_samples->Some_0@ == old(self).normalized@,
                },
                None => r.whisper_samples->Some_0@ == old(self).normalized@,
            },
    {
        let mut wbuf: Vec<i16> = Vec::new();
        std::mem::swap(&mut wbuf, &mut self.normalized);
        let failed = match &self.resampler {
            Some(rs) => rs.failed,
            None => false,
        };
        let whisper_samples = if failed {
            None
        } else {
            if self.resampler.is_some() {
                match flush {
                    FlushOutcome::Resampled(v) => {
                        wbuf.extend_from_slice(v.as_slice());
                    },
                    FlushOutcome::Failed => {
                        wbuf.clear();
                    },
                    FlushOutcome::Nothing => {},
                }
            }
            if wbuf.len() == 0 {
                None
            } else {
                Some(wbuf)
            }
        };
        let mut samples: Vec<i16> = Vec::new();
        std::mem::swap(&mut samples, &mut self.raw);
        self.normalized.clear();
        self.resampler = None;
        self.level = 0;
        self.status = CaptureStatus::Idle;
        AudioData {
            samples,
            sample_rate: self.sample_rate,
            channels: self.channels,
            whisper_samples,
        }
    }

    /// The 16 kHz samples from position `from` on, with the store's length.
    pub fn snapshot_whisper_buffer(&self, from: usize) -> (r: (Vec<i16>, usize))
        ensures
            r.1 == self.normalized@.len(),
            r.0@ == if from < self.normalized@.len() {
                self.normalized@.subrange(from as int, self.normalized@.len() as int)
            } else {
                Seq::<i16>::empty()
            },
    {
        let len = self.normalized.len();
        if len > from {
            (slice_to_vec(vstd::slice::slice_subrange(self.normalized.as_slice(), from, len)), len)
        } else {
            (Vec::new(), len)
        }
    }
}


/// The 16 kHz mono audio to transcribe for a finished session, given what
/// block resampling of the downmixed audio gave (`None` when it failed).
pub open spec fn prepared(audio: AudioData, block_resampled: Option<Vec<i16>>) -> Seq<i16> {
    match audio.whisper_samples {
        Some(w) if w@.len() > 0 => w@,
        _ => if audio.samples@.len() == 0 {
            Seq::empty()
        } else if audio.sample_rate == TARGET_RATE {
            downmix(audio.samples@, audio.channels as nat)
        } else {
            match block_resampled {
                Some(v) => v@,
                None => resampled_linear(
                    downmix(audio.samples@, audio.channels as nat),
                    audio.sample_rate as nat,
                    TARGET_RATE as nat,
                ),
            }
        },
    }
}

/// Whether the fallback resampler's output for this audio fits in memory.
pub open spec fn fallback_fits(audio: AudioData) -> bool {
    downmix(audio.samples@, audio.channels as nat).len() * TARGET_RATE / (audio.sample_rate as int)
        <= usize::MAX
}

/// Audio for speech recognition: the samples converted during recording when
/// there are any; otherwise the raw audio downmixed and, off the target
/// rate, the block resampler's output, or the linear fallback when that
/// failed.
pub fn prepare_for_whisper(audio: AudioData, block_resampled: Option<Vec<i16>>) -> (r: Vec<i16>)
    requires
        audio.sample_rate > 0,
        fallback_fits(audio),
    ensures
        r@ == prepared(audio, block_resampled),
{
    let ghost a = audio;
    let AudioData { samples, sample_rate, channels, whisper_samples } = audio;
    match whisper_samples {
        Some(w) => {
            if w.len() > 0 {
                return w;
            }
        },
        None => {},
    }
    if samples.len() == 0 {
        return Vec::new();
    }
    let mono = to_mono(samples.as_slice(), channels);
    if sample_rate == TARGET_RATE {
        return mono;
    }
    match block_resampled {
        Some(v) => v,
        None => resample_linear(mono.as_slice(), sample_rate, TARGET_RATE),
    }
}


/// A stop request on an engine that is not capturing (idle, or with a stop
/// already finalising) leaves it idle and reports that nothing ran; asking
/// again changes nothing.
pub proof fn lemma_stop_when_idle(s: CaptureStatus)
    requires
        s != CaptureStatus::Running,
    ensures
        stop_outcome(s) == (CaptureStatus::Idle, false),
        stop_outcome(stop_outcome(s).0) == stop_outcome(s),
{
}

/// Of two start requests in a row, at most one is accepted: once a session
/// runs, or a stop finalises, every further start is refused.
pub proof fn lemma_no_double_start(s: CaptureStatus)
    ensures
        !(start_outcome(s).1 && start_outcome(start_outcome(s).0).1),
        start_outcome(s).1 ==> start_outcome(s).0 == CaptureStatus::Running,
        s != CaptureStatus::Idle ==> start_outcome(s) == (s, false),
{
}

/// Downmixing whole frames callback by callback gives the same mono audio as
/// downmixing the concatenated buffer: no frame is lost, repeated or
/// reordered at a callback boundary.
pub proof fn lemma_downmix_concat(a: Seq<i16>, b: Seq<i16>, channels: nat)
    requires
        channels > 0,
        (a.len() as int) % (channels as int) == 0,
    ensures
        downmix(a + b, channels) == downmix(a, channels) + downmix(b, channels),
{
    if channels > 1 {
        let c = channels as int;
        let m = (a.len() as int) / c;
        let lb = b.len() as int;
        lemma_fundamental_div_mod(a.len() as int, c);
        assert(a.len() == c * m);
        let y = lb + c - 1;
        lemma_fundamental_div_mod(y, c);
        lemma_div_multiples_vanish_fancy(m + y / c, y % c, c);
        assert(c * m + y == c * (m + y / c) + y % c) by (nonlinear_arith)
            requires
                y == c * (y / c) + y % c,
        ;
        assert(frame_count((a + b).len(), channels) == m + frame_count(b.len(), channels));
        assert(frame_count(a.len(), channels) == m) by {
            lemma_div_multiples_vanish_fancy(m, c - 1, c);
        }
        let l = downmix(a + b, channels);
        let r = downmix(a, channels) + downmix(b, channels);
        assert forall|k: int| 0 <= k < l.len() implies #[trigger] l[k] == r[k] by {
            if k < m {
                assert((k + 1) * c <= m * c) by (nonlinear_arith)
                    requires
                        k < m,
                        c > 0,
                ;
                assert(k * c >= 0) by (nonlinear_arith)
                    requires
                        k >= 0,
                        c > 0,
                ;
                assert((k + 1) * c == k * c + c) by (nonlinear_arith);
                assert(vstd::math::min((k + 1) * c, (a + b).len() as int) == (k + 1) * c);
                assert(vstd::math::min((k + 1) * c, a.len() as int) == (k + 1) * c);
                assert(frame_of(a + b, channels, k) =~= frame_of(a, channels, k));
            } else {
                let j = k - m;
                assert(k * c == j * c + m * c && (k + 1) * c == (j + 1) * c + m * c)
                    by (nonlinear_arith)
                    requires
                        j == k - m,
                ;
                assert(j * c >= 0) by (nonlinear_arith)
                    requires
                        j >= 0,
                        c > 0,
                ;
                assert((j + 1) * c == j * c + c) by (nonlinear_arith);
                assert(j < frame_count(b.len(), channels));
                assert(j * c < lb) by (nonlinear_arith)
                    requires
                        j < (lb + c - 1) / c,
                        c > 0,
                        j >= 0,
                {
                    let q = (lb + c - 1) / c;
                    assert(q * c <= lb + c - 1) by (nonlinear_arith)
                        requires
                            q == (lb + c - 1) / c,
                            c > 0,
                    ;
                    assert((j + 1) * c <= q * c) by (nonlinear_arith)
                        requires
                            j + 1 <= q,
                            c > 0,
                    ;
                }
                assert(vstd::math::min((k + 1) * c, (a + b).len() as int) == vstd::math::min(
                    (j + 1) * c,
                    lb,
                ) + m * c);
                assert(frame_of(a + b, channels, k) =~= frame_of(b, channels, j));
            }
        }
        assert(l =~= r);
    } else {
        assert(downmix(a + b, channels) =~= downmix(a, channels) + downmix(b, channels));
    }
}

/// Once the remainder is flushed from a working resampler, every mono sample
/// of the session has been handed to it exactly once, in order.
pub proof fn lemma_flush_conserves(rs: ResamplerState, flushed: Seq<i16>)
    requires
        rs.wf(),
        flushed == rs.mono_accumulator@,
    ensures
        rs.taken@ + flushed == rs.fed@,
{
}

} // verus!

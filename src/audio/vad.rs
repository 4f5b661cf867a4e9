//! Energy-based voice activity detection with hysteresis.

use vstd::prelude::*;
use crate::audio::capture::{sum_of_squares, sum_sq};
use vstd::arithmetic::div_mod::lemma_fundamental_div_mod;

verus! {

/// Whether a chunk's RMS exceeds `threshold`: the mean of the squared
/// samples is above `threshold` squared. An empty chunk has no energy.
pub open spec fn loud(s: Seq<i16>, threshold: u16) -> bool {
    s.len() > 0 && sum_sq(s) > threshold * threshold * s.len()
}

pub fn exceeds_threshold(samples: &[i16], threshold: u16) -> (r: bool)
    ensures
        r == loud(samples@, threshold),
{
    if samples.len() == 0 {
        return false;
    }
    let ss = sum_of_squares(samples);
    let t = threshold as u128;
    let n = samples.len() as u128;
    assert(t * t * n <= 0xffff_ffff * 0x1_0000_0000_0000_0000) by (nonlinear_arith)
        requires
            t <= 0xffff,
            n <= 0xffff_ffff_ffff_ffff,
    ;
    assert(t * t <= 0xffff * 0xffff) by (nonlinear_arith)
        requires
            t <= 0xffff,
    ;
    ss > t * t * n
}

/// Configuration of the energy gate.
pub struct VadConfig {
    /// RMS above which a chunk counts as speech, in sample units.
    pub energy_threshold: u16,
    /// Speech samples needed before speech is reported.
    pub min_speech_samples: usize,
    /// Silent samples that end a speech segment.
    pub silence_samples: usize,
}

impl Default for VadConfig {
    fn default() -> (r: Self)
        ensures
            r.energy_threshold == 328,
            r.min_speech_samples == 1600,
            r.silence_samples == 4800,
    {
        VadConfig { energy_threshold: 328, min_speech_samples: 1600, silence_samples: 4800 }
    }
}

/// Energy gate with separate counters for entering speech and silence.
pub struct VoiceActivityDetector {
    pub config: VadConfig,
    pub is_speaking: bool,
    pub silence_count: usize,
    pub speech_count: usize,
}

/// `a + b`, saturating at `usize::MAX`.
pub open spec fn sat_add(a: usize, b: nat) -> usize {
    if a + b > usize::MAX {
        usize::MAX
    } else {
        (a + b) as usize
    }
}

impl VoiceActivityDetector {
    pub fn new(config: VadConfig) -> (r: Self)
        ensures
            r.config == config,
            !r.is_speaking,
            r.silence_count == 0,
            r.speech_count == 0,
    {
        VoiceActivityDetector { config, is_speaking: false, silence_count: 0, speech_count: 0 }
    }

    /// Feed one chunk; returns whether speech is detected afterwards.
    pub fn process(&mut self, samples: &[i16]) -> (r: bool)
        ensures
            *final(self) == vad_step(*old(self), samples@),
            r == final(self).is_speaking,
    {
        let is_speech = exceeds_threshold(samples, self.config.energy_threshold);
        if is_speech {
            self.speech_count = self.speech_count.saturating_add(samples.len());
            self.silence_count = 0;
            if self.speech_count >= self.config.min_speech_samples {
                self.is_speaking = true;
            }
        } else {
            self.silence_count = self.silence_count.saturating_add(samples.len());
            if self.silence_count >= self.config.silence_samples {
                self.is_speaking = false;
                self.speech_count = 0;
            }
        }
        self.is_speaking
    }

    /// Back to the initial state.
    pub fn reset(&mut self)
        ensures
            final(self).config == old(self).config,
            !final(self).is_speaking,
            final(self).silence_count == 0,
            final(self).speech_count == 0,
    {
        self.is_speaking = false;
        self.silence_count = 0;
        self.speech_count = 0;
    }

    /// Whether speech is currently detected.
    pub fn is_speaking(&self) -> (r: bool)
        ensures
            r == self.is_speaking,
    {
        self.is_speaking
    }
}

/// A detector that is not in speech stays out of speech on a chunk whose
/// energy is at or below the threshold: silence never opens an utterance.
pub proof fn lemma_silence_keeps_quiet(d: VoiceActivityDetector, chunk: Seq<i16>)
    requires
        !d.is_speaking,
        !loud(chunk, d.config.energy_threshold),
    ensures
        !vad_step(d, chunk).is_speaking,
{
}

/// The detector after one chunk.
pub open spec fn vad_step(d: VoiceActivityDetector, chunk: Seq<i16>) -> VoiceActivityDetector {
    if loud(chunk, d.config.energy_threshold) {
        let sc = sat_add(d.speech_count, chunk.len());
        VoiceActivityDetector {
            config: d.config,
            is_speaking: d.is_speaking || sc >= d.config.min_speech_samples,
            silence_count: 0,
            speech_count: sc,
        }
    } else {
        let qc = sat_add(d.silence_count, chunk.len());
        if qc >= d.config.silence_samples {
            VoiceActivityDetector {
                config: d.config,
                is_speaking: false,
                silence_count: qc,
                speech_count: 0,
            }
        } else {
            VoiceActivityDetector {
                config: d.config,
                is_speaking: d.is_speaking,
                silence_count: qc,
                speech_count: d.speech_count,
            }
        }
    }
}

/// Number of `fs`-sample chunks of a buffer of `len` samples.
pub open spec fn n_chunks(len: nat, fs: nat) -> nat {
    ((len + fs - 1) as int / (fs as int)) as nat
}

/// The `i`-th chunk from the front; the last one may be short.
pub open spec fn chunk_at(s: Seq<i16>, fs: nat, i: int) -> Seq<i16> {
    s.subrange(i * fs, vstd::math::min((i + 1) * fs, s.len() as int))
}

/// The `i`-th chunk from the back; the first one may be short.
pub open spec fn rchunk_at(s: Seq<i16>, fs: nat, i: int) -> Seq<i16> {
    s.subrange(vstd::math::max(s.len() - (i + 1) * fs, 0), s.len() - i * fs)
}

/// Index of the first loud chunk from position `i` on, or -1.
pub open spec fn first_loud(s: Seq<i16>, thr: u16, fs: nat, i: int) -> int
    decreases n_chunks(s.len(), fs) - i,
{
    if fs == 0 || i < 0 || i >= n_chunks(s.len(), fs) {
        -1
    } else if loud(chunk_at(s, fs, i), thr) {
        i
    } else {
        first_loud(s, thr, fs, i + 1)
    }
}

/// Index of the first loud chunk from the back, from position `i` on, or -1.
pub open spec fn first_loud_back(s: Seq<i16>, thr: u16, fs: nat, i: int) -> int
    decreases n_chunks(s.len(), fs) - i,
{
    if fs == 0 || i < 0 || i >= n_chunks(s.len(), fs) {
        -1
    } else if loud(rchunk_at(s, fs, i), thr) {
        i
    } else {
        first_loud_back(s, thr, fs, i + 1)
    }
}

/// Start of the audio after leading silence.
pub open spec fn trim_start_at(s: Seq<i16>, thr: u16, fs: nat) -> int {
    let f = first_loud(s, thr, fs, 0);
    if f >= 0 {
        f * fs
    } else {
        0
    }
}

/// End of the audio before trailing silence.
pub open spec fn trim_end_at(s: Seq<i16>, thr: u16, fs: nat) -> int {
    let f = first_loud_back(s, thr, fs, 0);
    if f >= 0 {
        s.len() - f * fs
    } else {
        s.len() as int
    }
}

/// The audio between the first and the last loud chunk, or all of it when
/// that span is empty.
pub open spec fn trimmed(s: Seq<i16>, thr: u16, fs: nat) -> Seq<i16> {
    let a = trim_start_at(s, thr, fs);
    let b = trim_end_at(s, thr, fs);
    if a < b {
        s.subrange(a, b)
    } else {
        s
    }
}

proof fn lemma_chunk_bounds(len: nat, fs: nat, i: int)
    requires
        fs > 0,
        0 <= i < n_chunks(len, fs),
    ensures
        0 <= i * fs < len,
        i * fs + fs == (i + 1) * fs,
{
    let q = (len + fs - 1) as int / (fs as int);
    assert(q * fs <= len + fs - 1) by (nonlinear_arith)
        requires
            q == (len + fs - 1) as int / (fs as int),
            fs > 0,
    ;
    assert((i + 1) * fs <= q * fs) by (nonlinear_arith)
        requires
            i + 1 <= q,
            fs > 0,
    ;
    assert(i * fs + fs == (i + 1) * fs) by (nonlinear_arith);
    assert(0 <= i * fs) by (nonlinear_arith)
        requires
            i >= 0,
            fs > 0,
    ;
}

/// Trim silence from the beginning and end of audio, chunk by chunk.
pub fn trim_silence(samples: &[i16], threshold: u16, frame_size: usize) -> (r: &[i16])
    requires
        frame_size > 0,
    ensures
        r@ == trimmed(samples@, threshold, frame_size as nat),
{
    let len = samples.len();
    let ghost s = samples@;
    let ghost fs = frame_size as nat;
    proof {
        if len % frame_size != 0 {
            assert(frame_size > 1);
            assert(len / frame_size <= len / 2) by {
                vstd::arithmetic::div_mod::lemma_div_is_ordered_by_denominator(
                    len as int,
                    2,
                    frame_size as int,
                );
            }
        }
    }
    let nc = len / frame_size + if len % frame_size == 0 {
        0
    } else {
        1
    };
    proof {
        let l = len as int;
        let f = frame_size as int;
        assert(nc == n_chunks(len as nat, fs)) by (nonlinear_arith)
            requires
                nc == l / f + if l % f == 0 {
                    0int
                } else {
                    1int
                },
                f > 0,
                l >= 0,
                n_chunks(len as nat, fs) == (l + f - 1) / f,
        {
            lemma_fundamental_div_mod(l, f);
            lemma_fundamental_div_mod(l + f - 1, f);
        }
    }
    let mut start: usize = 0;
    let mut i: usize = 0;
    while i < nc
        invariant_except_break
            first_loud(s, threshold, fs, 0) == first_loud(s, threshold, fs, i as int),
            start == 0,
        invariant
            s == samples@,
            len == s.len(),
            fs == frame_size,
            frame_size > 0,
            nc == n_chunks(len as nat, fs),
            i <= nc,
        ensures
            start == trim_start_at(s, threshold, fs),
            start <= len,
        decreases nc - i,
    {
        proof {
            lemma_chunk_bounds(len as nat, fs, i as int);
        }
        let lo = i * frame_size;
        let hi = if len - lo > frame_size {
            lo + frame_size
        } else {
            len
        };
        let chunk = vstd::slice::slice_subrange(samples, lo, hi);
        assert(chunk@ =~= chunk_at(s, fs, i as int));
        if exceeds_threshold(chunk, threshold) {
            start = lo;
            break;
        }
        i = i + 1;
    }
    let mut end: usize = len;
    let mut k: usize = 0;
    while k < nc
        invariant_except_break
            first_loud_back(s, threshold, fs, 0) == first_loud_back(s, threshold, fs, k as int),
            end == len,
        invariant
            s == samples@,
            len == s.len(),
            fs == frame_size,
            frame_size > 0,
            nc == n_chunks(len as nat, fs),
            k <= nc,
        ensures
            end == trim_end_at(s, threshold, fs),
            end <= len,
        decreases nc - k,
    {
        proof {
            lemma_chunk_bounds(len as nat, fs, k as int);
        }
        let off = k * frame_size;
        let hi = len - off;
        let lo = if hi > frame_size {
            hi - frame_size
        } else {
            0
        };
        let chunk = vstd::slice::slice_subrange(samples, lo, hi);
        assert(chunk@ =~= rchunk_at(s, fs, k as int));
        if exceeds_threshold(chunk, threshold) {
            end = hi;
            break;
        }
        k = k + 1;
    }
    if start < end {
        vstd::slice::slice_subrange(samples, start, end)
    } else {
        samples
    }
}

} // verus!

//! Audio in memory as interleaved 16-bit samples, and what is decided about
//! audio files before they are read.

use vstd::prelude::*;
use vstd::arithmetic::div_mod::lemma_fundamental_div_mod;
use vstd::string::*;
use crate::error::SttError;
use crate::format::{AudioConfig, AudioFormat, format_of_lowercase};
use crate::path::{extension_of, path_exists, path_extension, path_is_file};
use crate::text::{decimal, decimal_string, lowercase_of};

verus! {

/// The full scale of a 16-bit sample.
pub const FULL_SCALE: i16 = 32767;

/// The format that the extension of a path names, if it has an extension
/// and the extension is known.
pub open spec fn format_of_path(path: Seq<char>) -> Option<AudioFormat> {
    match extension_of(path) {
        Some(ext) => format_of_lowercase(lowercase_of(ext)),
        None => None,
    }
}

/// Tells the format of a file from the extension of its path.
pub fn detect_audio_format(path: &str) -> (r: Option<AudioFormat>)
    ensures
        r == format_of_path(path@),
{
    match path_extension(path) {
        Some(ext) => AudioFormat::from_extension(ext.as_str()),
        None => None,
    }
}

/// The verdict on a path of which it is known whether it exists and whether
/// it is a file: a path that does not exist is not found, and one that is
/// no file is refused.
pub fn validation_of(path: &str, exists: bool, is_file: bool) -> (r: Result<(), SttError>)
    ensures
        match r {
            Ok(_) => exists && is_file,
            Err(SttError::FileNotFound(p)) => !exists && p@ == path@,
            Err(SttError::AudioFileError(message)) => exists && !is_file && message@
                == "路径不是文件: "@ + path@,
            Err(_) => false,
        },
{
    if !exists {
        return Err(SttError::file_not_found(path));
    }
    if !is_file {
        let mut message = String::from_str("路径不是文件: ");
        message.append(path);
        return Err(SttError::AudioFileError(message));
    }
    Ok(())
}

/// Checks that a path leads to a file. What is on disk decides; whatever it
/// is, the outcome is one of the three that `validation_of` has.
pub fn validate_audio_file(path: &str) -> (r: Result<(), SttError>)
    ensures
        match r {
            Ok(_) => true,
            Err(SttError::FileNotFound(p)) => p@ == path@,
            Err(SttError::AudioFileError(message)) => message@ == "路径不是文件: "@ + path@,
            Err(_) => false,
        },
{
    let exists = path_exists(path);
    let is_file = path_is_file(path);
    validation_of(path, exists, is_file)
}

/// How the samples of a WAV file are stored.
#[derive(Debug, Clone, Copy, PartialEq, Eq, Structural)]
pub enum WavSampleFormat {
    Float,
    Int,
}

/// How samples of `bit_depth` bits are written: as floating point at 32
/// bits, as integers otherwise.
pub fn wav_sample_format(bit_depth: u16) -> (r: WavSampleFormat)
    ensures
        r == if bit_depth == 32 {
            WavSampleFormat::Float
        } else {
            WavSampleFormat::Int
        },
{
    if bit_depth == 32 {
        WavSampleFormat::Float
    } else {
        WavSampleFormat::Int
    }
}

/// The largest value of an integer sample of `bits` bits, for 16, 24 and 32
/// bits.
pub open spec fn int_full_scale(bits: u16) -> Option<u32> {
    if bits == 16 {
        Some(32767u32)
    } else if bits == 24 {
        Some(8388607u32)
    } else if bits == 32 {
        Some(2147483647u32)
    } else {
        None
    }
}

/// The largest value of an integer sample of `bits` bits. Other depths than
/// 16, 24 and 32 bits are refused.
pub fn int_sample_scale(bits: u16) -> (r: Result<u32, SttError>)
    ensures
        match r {
            Ok(scale) => int_full_scale(bits) == Some(scale),
            Err(SttError::UnsupportedFormat(message)) => int_full_scale(bits) is None && message@
                == "不支持的位深度: "@ + decimal(bits as nat),
            Err(_) => false,
        },
{
    if bits == 16 {
        Ok(32767)
    } else if bits == 24 {
        Ok(8388607)
    } else if bits == 32 {
        Ok(2147483647)
    } else {
        let mut message = String::from_str("不支持的位深度: ");
        let digits = decimal_string(bits as u64);
        message.append(digits.as_str());
        Err(SttError::UnsupportedFormat(message))
    }
}

/// The absolute value of a sample.
pub open spec fn amplitude(x: i16) -> nat {
    if x < 0 {
        (-(x as int)) as nat
    } else {
        x as nat
    }
}

/// Whether `p` is the largest amplitude among the samples, and zero where
/// there are none.
pub open spec fn is_peak(samples: Seq<i16>, p: nat) -> bool {
    &&& forall|i: int| 0 <= i < samples.len() ==> amplitude(#[trigger] samples[i]) <= p
    &&& if samples.len() == 0 {
        p == 0
    } else {
        exists|i: int| 0 <= i < samples.len() && amplitude(#[trigger] samples[i]) == p
    }
}

/// The absolute value of a sample.
fn magnitude(x: i16) -> (r: u16)
    ensures
        r == amplitude(x),
{
    if x < 0 {
        (-(x as i32)) as u16
    } else {
        x as u16
    }
}

/// The largest amplitude among the samples, and zero where there are none.
pub fn calculate_peak(samples: &[i16]) -> (r: u16)
    ensures
        is_peak(samples@, r as nat),
{
    let mut peak: u16 = 0;
    let mut i: usize = 0;
    while i < samples.len()
        invariant
            0 <= i <= samples@.len(),
            is_peak(samples@.take(i as int), peak as nat),
        decreases samples@.len() - i,
    {
        let m = magnitude(samples[i]);
        let ghost before = samples@.take(i as int);
        let ghost after = samples@.take(i as int + 1);
        proof {
            assert(after == before.push(samples@[i as int]));
            assert forall|j: int| 0 <= j < after.len() implies amplitude(#[trigger] after[j]) <= (
            if m > peak {
                m
            } else {
                peak
            }) as nat by {
                if j < i {
                    assert(after[j] == before[j]);
                }
            }
            if m > peak || i == 0 {
                assert(amplitude(after[i as int]) == m);
            } else {
                let w = choose|w: int| 0 <= w < before.len() && amplitude(#[trigger] before[w]) == peak;
                assert(after[w] == before[w]);
            }
        }
        if m > peak {
            peak = m;
        }
        i += 1;
    }
    assert(samples@.take(samples@.len() as int) =~= samples@);
    peak
}

/// The quotient of `a` by `b` rounded towards zero.
pub open spec fn quotient(a: int, b: int) -> int
    recommends
        b > 0,
{
    if a >= 0 {
        a / b
    } else {
        -((-a) / b)
    }
}

/// The sum of `count` samples from position `from` on.
pub open spec fn sum_from(samples: Seq<i16>, from: int, count: nat) -> int
    decreases count,
{
    if count == 0 {
        0
    } else {
        sum_from(samples, from, (count - 1) as nat) + samples[from + count - 1]
    }
}

/// The samples mixed down to one channel: each frame of `channels` samples
/// becomes their mean, rounded towards zero. Samples after the last whole
/// frame are dropped.
pub open spec fn mixed_down(samples: Seq<i16>, channels: nat) -> Seq<i16>
    recommends
        channels > 0,
{
    Seq::new(
        samples.len() / channels,
        |f: int| quotient(sum_from(samples, f * channels, channels), channels as int) as i16,
    )
}

/// The samples scaled so that the largest amplitude `peak` becomes full
/// scale, each rounded towards zero.
pub open spec fn scaled_to_full(samples: Seq<i16>, peak: nat) -> Seq<i16>
    recommends
        peak > 0,
{
    Seq::new(samples.len(), |i: int| quotient(samples[i] * 32767, peak as int) as i16)
}

/// The sum of `count` samples lies within `count` times the range of one.
pub proof fn lemma_sum_bounds(samples: Seq<i16>, from: int, count: nat)
    requires
        0 <= from,
        from + count <= samples.len(),
    ensures
        -32768 * count <= sum_from(samples, from, count) <= 32767 * count,
    decreases count,
{
    if count > 0 {
        lemma_sum_bounds(samples, from, (count - 1) as nat);
    }
}

/// Interleaved samples with the parameters of their stream.
#[derive(Debug, Clone)]
pub struct AudioData {
    pub samples: Vec<i16>,
    pub config: AudioConfig,
}

impl AudioData {
    pub fn new(samples: Vec<i16>, config: AudioConfig) -> (r: AudioData)
        ensures
            r.samples@ == samples@,
            r.config == config,
    {
        AudioData { samples, config }
    }

    /// The number of whole frames.
    pub fn frame_count(&self) -> (r: usize)
        requires
            self.config.channels > 0,
        ensures
            r == self.samples@.len() / self.config.channels as nat,
    {
        self.samples.len() / (self.config.channels as usize)
    }

    /// The time that the audio takes, in whole nanoseconds, rounded down
    /// and capped at `u64::MAX`. Zero where the sample rate is zero.
    pub fn duration(&self) -> (r: u64)
        requires
            self.config.channels > 0,
        ensures
            r == crate::buffer::buffered_nanos(
                self.samples@.len() / self.config.channels as nat,
                self.config.sample_rate,
            ),
    {
        crate::buffer::span_nanos(self.frame_count(), self.config.sample_rate)
    }

    /// The audio mixed down to one channel.
    pub fn to_mono(&self) -> (r: AudioData)
        requires
            self.config.channels > 0,
        ensures
            r.config == (AudioConfig { channels: 1, ..self.config }),
            r.samples@ == if self.config.channels == 1 {
                self.samples@
            } else {
                mixed_down(self.samples@, self.config.channels as nat)
            },
    {
        if self.config.channels == 1 {
            return AudioData { samples: self.samples.clone(), config: self.config };
        }
        let channels = self.config.channels as usize;
        let frames = self.frame_count();
        let len = self.samples.len();
        let mut mono: Vec<i16> = Vec::new();
        let mut frame: usize = 0;
        while frame < frames
            invariant
                0 <= frame <= frames,
                len == self.samples@.len(),
                channels == self.config.channels,
                channels > 1,
                frames == self.samples@.len() / channels as nat,
                mono@ == mixed_down(self.samples@, channels as nat).take(frame as int),
            decreases frames - frame,
        {
            proof {
                lemma_frame_in_range(self.samples@.len(), channels as nat, frame as nat);
            }
            let base = frame * channels;
            let mut sum: i64 = 0;
            let mut c: usize = 0;
            while c < channels
                invariant
                    0 <= c <= channels,
                    base == frame * channels,
                    len == self.samples@.len(),
                    base + channels <= len,
                    channels <= 0xffff,
                    sum == sum_from(self.samples@, base as int, c as nat),
                decreases channels - c,
            {
                proof {
                    lemma_sum_bounds(self.samples@, base as int, c as nat);
                }
                sum = sum + self.samples[base + c] as i64;
                c += 1;
            }
            proof {
                lemma_sum_bounds(self.samples@, base as int, channels as nat);
                lemma_quotient_bounds(sum as int, channels as int);
            }
            let mean: i64 = sum / (channels as i64);
            mono.push(mean as i16);
            frame += 1;
            assert(mono@ =~= mixed_down(self.samples@, channels as nat).take(frame as int));
        }
        assert(mono@ =~= mixed_down(self.samples@, channels as nat));
        AudioData { samples: mono, config: AudioConfig { channels: 1, ..self.config } }
    }

    /// Scales the samples so that the largest amplitude becomes full scale.
    /// Silence, and audio that is at full scale already, is left as it is.
    pub fn normalize(&mut self)
        ensures
            final(self).config == old(self).config,
            exists|peak: nat| #[trigger]
                is_peak(old(self).samples@, peak) && final(self).samples@ == if peak > 0 && peak
                    != 32767 {
                    scaled_to_full(old(self).samples@, peak)
                } else {
                    old(self).samples@
                },
    {
        let peak = calculate_peak(self.samples.as_slice());
        if peak == 0 || peak == FULL_SCALE as u16 {
            return;
        }
        let len = self.samples.len();
        let p = peak as i64;
        let mut scaled: Vec<i16> = Vec::new();
        let mut i: usize = 0;
        while i < len
            invariant
                0 <= i <= len,
                len == self.samples@.len(),
                self.samples@ == old(self).samples@,
                p == peak,
                peak > 0,
                is_peak(self.samples@, peak as nat),
                scaled@ == scaled_to_full(self.samples@, peak as nat).take(i as int),
            decreases len - i,
        {
            let x = self.samples[i] as i64;
            proof {
                assert(amplitude(self.samples@[i as int]) <= peak);
                lemma_scaled_bounds(x as int, p as int);
            }
            let y: i64 = x * (FULL_SCALE as i64) / p;
            scaled.push(y as i16);
            i += 1;
            assert(scaled@ =~= scaled_to_full(self.samples@, peak as nat).take(i as int));
        }
        assert(scaled@ =~= scaled_to_full(self.samples@, peak as nat));
        self.samples = scaled;
    }

    pub fn is_whisper_compatible(&self) -> (r: bool)
        ensures
            r == self.config.whisper_compatible(),
    {
        self.config.is_whisper_compatible()
    }

    /// The samples that are given to the recogniser: those of the audio
    /// where it has one channel or none, and the audio mixed down to one
    /// channel where it has more.
    pub fn prepare_samples(&self) -> (r: Vec<i16>)
        ensures
            r@ == if self.config.channels > 1 {
                mixed_down(self.samples@, self.config.channels as nat)
            } else {
                self.samples@
            },
    {
        if self.config.channels > 1 {
            self.to_mono().samples
        } else {
            self.samples.clone()
        }
    }
}

/// A whole frame lies within the samples.
pub proof fn lemma_frame_in_range(len: nat, channels: nat, frame: nat)
    requires
        channels > 0,
        frame < len / channels,
    ensures
        frame * channels + channels <= len,
{
    let frames = len / channels;
    lemma_fundamental_div_mod(len as int, channels as int);
    assert((frame + 1) * channels <= frames * channels) by (nonlinear_arith)
        requires
            frame + 1 <= frames,
            channels > 0,
    ;
    assert((frame + 1) * channels == frame * channels + channels) by (nonlinear_arith);
    assert(channels * frames == frames * channels) by (nonlinear_arith);
}

/// The mean of a sum of `count` samples is a sample, and the division that
/// rounds towards zero is the one that the machine does.
pub proof fn lemma_quotient_bounds(sum: int, count: int)
    requires
        count > 0,
        -32768 * count <= sum <= 32767 * count,
    ensures
        -32768 <= quotient(sum, count) <= 32767,
{
    if sum >= 0 {
        assert(sum / count <= 32767) by (nonlinear_arith)
            requires
                0 <= sum <= 32767 * count,
                count > 0,
        ;
        assert(sum / count >= 0) by (nonlinear_arith)
            requires
                0 <= sum,
                count > 0,
        ;
    } else {
        assert(0 <= (-sum) / count <= 32768) by (nonlinear_arith)
            requires
                0 < -sum <= 32768 * count,
                count > 0,
        ;
    }
}

/// A sample scaled by full scale over a peak that bounds it is a sample.
pub proof fn lemma_scaled_bounds(x: int, peak: int)
    requires
        peak > 0,
        -peak <= x <= peak,
        peak <= 32768,
    ensures
        -32767 <= quotient(x * 32767, peak) <= 32767,
        -0x4000_0000 <= x * 32767 <= 0x4000_0000,
{
    assert(-32767 * peak <= x * 32767 <= 32767 * peak) by (nonlinear_arith)
        requires
            -peak <= x <= peak,
    ;
    if x >= 0 {
        assert(0 <= (x * 32767) / peak <= 32767) by (nonlinear_arith)
            requires
                0 <= x * 32767 <= 32767 * peak,
                peak > 0,
        ;
    } else {
        assert(0 <= (-(x * 32767)) / peak <= 32767) by (nonlinear_arith)
            requires
                0 <= -(x * 32767) <= 32767 * peak,
                peak > 0,
        ;
    }
}

/// The number of samples that a silence must last to count: those of
/// `min_duration_ms` milliseconds at `sample_rate`, rounded down.
pub open spec fn min_silence_samples(min_duration_ms: u32, sample_rate: u32) -> nat {
    (min_duration_ms as nat * sample_rate as nat) / 1000
}

/// What a scan for silence knows after some samples: the silences found,
/// and where the silence began that is still going on.
pub struct SilenceScan {
    pub found: Seq<(usize, usize)>,
    pub open: Option<usize>,
}

/// The silences found with the end of a silence at `at`: the silence that
/// was going on is added where it lasted `min_samples` at least.
pub open spec fn closed_at(scan: SilenceScan, at: usize, min_samples: nat) -> Seq<(usize, usize)> {
    match scan.open {
        Some(start) => if at - start >= min_samples {
            scan.found.push((start, at))
        } else {
            scan.found
        },
        None => scan.found,
    }
}

/// The scan after the first `k` samples. A sample is quiet where its
/// amplitude is below the threshold.
pub open spec fn silence_scan(samples: Seq<i16>, threshold: nat, min_samples: nat, k: nat) -> SilenceScan
    decreases k,
{
    if k == 0 {
        SilenceScan { found: Seq::empty(), open: None }
    } else {
        let before = silence_scan(samples, threshold, min_samples, (k - 1) as nat);
        let at = (k - 1) as usize;
        if amplitude(samples[k - 1]) < threshold {
            match before.open {
                Some(_) => before,
                None => SilenceScan { found: before.found, open: Some(at) },
            }
        } else {
            SilenceScan { found: closed_at(before, at, min_samples), open: None }
        }
    }
}

/// The stretches of silence among the samples that last `min_samples` at
/// least, as half-open ranges of positions in ascending order.
pub open spec fn silence_segments(samples: Seq<i16>, threshold: nat, min_samples: nat) -> Seq<
    (usize, usize),
> {
    closed_at(
        silence_scan(samples, threshold, min_samples, samples.len()),
        samples.len() as usize,
        min_samples,
    )
}

/// The range of positions that is left of `len` samples when the silence
/// at the start and the silence at the end are cut off: it begins where a
/// first silence that starts at 0 ends, and ends where a last silence that
/// reaches `len` begins.
pub open spec fn range_between(silences: Seq<(usize, usize)>, len: nat) -> (int, int) {
    if silences.len() == 0 {
        (0, len as int)
    } else {
        (
            if silences.first().0 == 0 {
                silences.first().1 as int
            } else {
                0
            },
            if silences.last().1 == len {
                silences.last().0 as int
            } else {
                len as int
            },
        )
    }
}

/// The range of positions that is left when the silence at the start and
/// the silence at the end are cut off.
pub open spec fn kept_range(samples: Seq<i16>, threshold: nat, min_samples: nat) -> (int, int) {
    range_between(silence_segments(samples, threshold, min_samples), samples.len())
}

/// The range that is left of `len` samples with these silences.
pub fn kept_bounds(silences: &Vec<(usize, usize)>, len: usize) -> (r: (usize, usize))
    ensures
        (r.0 as int, r.1 as int) == range_between(silences@, len as nat),
{
    if silences.len() == 0 {
        return (0, len);
    }
    let first = silences[0];
    let last = silences[silences.len() - 1];
    let start: usize = if first.0 == 0 {
        first.1
    } else {
        0
    };
    let end: usize = if last.1 == len {
        last.0
    } else {
        len
    };
    (start, end)
}

/// Finds the stretches of silence that last `min_duration_ms` milliseconds
/// at least.
pub fn detect_silence(samples: &[i16], threshold: u16, min_duration_ms: u32, sample_rate: u32) -> (r:
    Vec<(usize, usize)>)
    ensures
        r@ == silence_segments(
            samples@,
            threshold as nat,
            min_silence_samples(min_duration_ms, sample_rate),
        ),
{
    assert((min_duration_ms as int) * (sample_rate as int) <= 0xffff_ffff * 0xffff_ffff)
        by (nonlinear_arith)
        requires
            0 <= min_duration_ms <= 0xffff_ffff,
            0 <= sample_rate <= 0xffff_ffff,
    ;
    let min_samples: u64 = (min_duration_ms as u64) * (sample_rate as u64) / 1000;
    let len = samples.len();
    let mut found: Vec<(usize, usize)> = Vec::new();
    let mut open: Option<usize> = None;
    let mut i: usize = 0;
    while i < len
        invariant
            0 <= i <= len,
            len == samples@.len(),
            min_samples == min_silence_samples(min_duration_ms, sample_rate),
            silence_scan(samples@, threshold as nat, min_samples as nat, i as nat) == (SilenceScan {
                found: found@,
                open,
            }),
            open matches Some(start) ==> start <= i,
        decreases len - i,
    {
        if magnitude(samples[i]) < threshold {
            match open {
                Some(_) => {},
                None => {
                    open = Some(i);
                },
            }
        } else {
            match open {
                Some(start) => {
                    if (i - start) as u64 >= min_samples {
                        found.push((start, i));
                    }
                    open = None;
                },
                None => {},
            }
        }
        i += 1;
    }
    match open {
        Some(start) => {
            if (len - start) as u64 >= min_samples {
                found.push((start, len));
            }
        },
        None => {},
    }
    found
}

/// Cuts off the silence at the start and at the end of the audio. Audio
/// that is silent throughout becomes one frame of zeros.
pub fn trim_silence(audio: &AudioData, threshold: u16, min_duration_ms: u32) -> (r: AudioData)
    requires
        ({
            let min_samples = min_silence_samples(min_duration_ms, audio.config.sample_rate);
            let kept = kept_range(audio.samples@, threshold as nat, min_samples);
            silence_segments(audio.samples@, threshold as nat, min_samples).len() == 0 || kept.0
                >= kept.1 || kept.1 * audio.config.channels <= audio.samples@.len()
        }),
    ensures
        r.config == audio.config,
        ({
            let min_samples = min_silence_samples(min_duration_ms, audio.config.sample_rate);
            let kept = kept_range(audio.samples@, threshold as nat, min_samples);
            r.samples@ == if silence_segments(audio.samples@, threshold as nat, min_samples).len()
                == 0 {
                audio.samples@
            } else if kept.0 >= kept.1 {
                Seq::new(audio.config.channels as nat, |i: int| 0i16)
            } else {
                audio.samples@.subrange(
                    kept.0 * audio.config.channels,
                    kept.1 * audio.config.channels,
                )
            }
        }),
{
    let silences = detect_silence(
        audio.samples.as_slice(),
        threshold,
        min_duration_ms,
        audio.config.sample_rate,
    );
    if silences.len() == 0 {
        return AudioData { samples: audio.samples.clone(), config: audio.config };
    }
    let len = audio.samples.len();
    let channels = audio.config.channels as usize;
    let (start_trim, end_trim) = kept_bounds(&silences, len);
    let mut out: Vec<i16> = Vec::new();
    if start_trim >= end_trim {
        let mut c: usize = 0;
        while c < channels
            invariant
                0 <= c <= channels,
                out@ == Seq::new(c as nat, |i: int| 0i16),
            decreases channels - c,
        {
            out.push(0);
            c += 1;
            assert(out@ =~= Seq::new(c as nat, |i: int| 0i16));
        }
        return AudioData { samples: out, config: audio.config };
    }
    assert(start_trim * channels <= end_trim * channels) by (nonlinear_arith)
        requires
            start_trim < end_trim,
            channels >= 0,
    ;
    let from = start_trim * channels;
    let to = end_trim * channels;
    let mut i: usize = from;
    while i < to
        invariant
            from <= i <= to <= audio.samples@.len(),
            out@ == audio.samples@.subrange(from as int, i as int),
        decreases to - i,
    {
        out.push(audio.samples[i]);
        i += 1;
        assert(out@ =~= audio.samples@.subrange(from as int, i as int));
    }
    AudioData { samples: out, config: audio.config }
}

} // verus!

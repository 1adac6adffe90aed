//! An energy detector over 16-bit samples: a span counts as speech when its
//! root-mean-square amplitude is strictly above a threshold.

use vstd::prelude::*;
use vstd::string::*;
use crate::error::SttError;

verus! {

/// The largest amplitude of a 16-bit sample, and so the largest threshold
/// that a detector takes.
pub const MAX_THRESHOLD: u16 = 32768;

/// The square of a sample.
pub open spec fn square(x: i16) -> nat {
    (x as int * x as int) as nat
}

/// The sum of the squares of the samples.
pub open spec fn energy(samples: Seq<i16>) -> nat
    decreases samples.len(),
{
    if samples.len() == 0 {
        0
    } else {
        energy(samples.drop_last()) + square(samples.last())
    }
}

/// Whether the root-mean-square amplitude of the samples is strictly above
/// `threshold`. With `e` the energy and `n > 0` the number of samples this is
/// `sqrt(e / n) > threshold`, that is `e > threshold * threshold * n`.
/// No samples are no speech.
pub open spec fn is_speech(samples: Seq<i16>, threshold: nat) -> bool {
    samples.len() > 0 && energy(samples) > threshold * threshold * samples.len()
}

/// The root-mean-square amplitude of the samples, rounded down: the largest
/// `r` with `r * r * n <= e`. Zero for no samples.
pub open spec fn is_rms(samples: Seq<i16>, r: nat) -> bool {
    if samples.len() == 0 {
        r == 0
    } else {
        r * r * samples.len() <= energy(samples) < (r + 1) * (r + 1) * samples.len()
    }
}

/// The number of windows of `width` samples that `len` samples fill, the
/// last of them possibly in part.
pub open spec fn window_count(len: nat, width: nat) -> nat
    recommends
        width > 0,
{
    (len + width - 1) as nat / width
}

/// The samples of window number `k`.
pub open spec fn window(samples: Seq<i16>, width: nat, k: nat) -> Seq<i16>
    recommends
        width > 0,
        k < window_count(samples.len(), width),
{
    let from = (k * width) as int;
    let to = if from + width <= samples.len() {
        from + width
    } else {
        samples.len() as int
    };
    samples.subrange(from, to)
}

/// What a scan knows after some windows: the segments that are closed, and
/// where the segment that is still open began.
pub struct Scan {
    pub closed: Seq<(usize, usize)>,
    pub open: Option<usize>,
}

/// The scan after the first `k` windows. A window of speech after silence
/// opens a segment where it begins; a window of silence after speech closes
/// the open segment where it begins.
pub open spec fn scan(samples: Seq<i16>, width: nat, threshold: nat, k: nat) -> Scan
    recommends
        width > 0,
        k <= window_count(samples.len(), width),
    decreases k,
{
    if k == 0 {
        Scan { closed: Seq::empty(), open: None }
    } else {
        let before = scan(samples, width, threshold, (k - 1) as nat);
        let speech = is_speech(window(samples, width, (k - 1) as nat), threshold);
        let at = ((k - 1) * width) as usize;
        match before.open {
            None => if speech {
                Scan { closed: before.closed, open: Some(at) }
            } else {
                before
            },
            Some(start) => if speech {
                before
            } else {
                Scan { closed: before.closed.push((start, at)), open: None }
            },
        }
    }
}

/// The segments of speech in the samples, as half-open ranges of sample
/// positions in ascending order. A segment that is open at the end is closed
/// at the end of the samples. Where the window holds no sample there are no
/// windows to scan: the samples are judged as one span, which is one
/// segment where it is speech.
pub open spec fn speech_segments(samples: Seq<i16>, width: nat, threshold: nat) -> Seq<
    (usize, usize),
> {
    if width == 0 {
        if is_speech(samples, threshold) {
            seq![(0usize, samples.len() as usize)]
        } else {
            Seq::empty()
        }
    } else {
        let end = scan(samples, width, threshold, window_count(samples.len(), width));
        match end.open {
            None => end.closed,
            Some(start) => end.closed.push((start, samples.len() as usize)),
        }
    }
}

/// The energy of a span grows by the square of each sample appended, and is
/// at most `2^30` per sample.
pub proof fn lemma_energy_bound(samples: Seq<i16>)
    ensures
        energy(samples) <= samples.len() * 0x4000_0000,
    decreases samples.len(),
{
    if samples.len() > 0 {
        lemma_energy_bound(samples.drop_last());
        let x = samples.last();
        assert(square(x) <= 0x4000_0000) by (nonlinear_arith)
            requires
                -0x8000 <= x <= 0x7fff,
                square(x) == (x as int * x as int) as nat,
        ;
    }
}

/// Samples that are all zero have no energy.
pub proof fn lemma_silence_has_no_energy(samples: Seq<i16>)
    requires
        forall|i: int| 0 <= i < samples.len() ==> #[trigger] samples[i] == 0,
    ensures
        energy(samples) == 0,
    decreases samples.len(),
{
    if samples.len() > 0 {
        assert(samples.last() == 0);
        lemma_silence_has_no_energy(samples.drop_last());
    }
}

/// Samples of one amplitude `a`, of either sign, have the energy `n * a * a`.
pub proof fn lemma_constant_energy(samples: Seq<i16>, a: nat)
    requires
        forall|i: int| 0 <= i < samples.len() ==> #[trigger] square(samples[i]) == a * a,
    ensures
        energy(samples) == samples.len() * (a * a),
    decreases samples.len(),
{
    if samples.len() > 0 {
        assert(square(samples.last()) == a * a);
        lemma_constant_energy(samples.drop_last(), a);
        assert(energy(samples) == samples.len() * (a * a)) by (nonlinear_arith)
            requires
                energy(samples) == (samples.len() - 1) * (a * a) + a * a,
        ;
    }
}

/// Silence is never speech: samples that are all zero are not detected as speech,
/// however many they are and whatever the threshold.
pub proof fn lemma_silence_is_not_speech(samples: Seq<i16>, threshold: nat)
    requires
        forall|i: int| 0 <= i < samples.len() ==> #[trigger] samples[i] == 0,
    ensures
        !is_speech(samples, threshold),
{
    lemma_silence_has_no_energy(samples);
    assert(threshold * threshold * samples.len() >= 0) by (nonlinear_arith);
}

/// A signal of one amplitude strictly above the threshold is speech, however
/// long it is, provided that it is not empty.
pub proof fn lemma_loud_is_speech(samples: Seq<i16>, a: nat, threshold: nat)
    requires
        samples.len() > 0,
        a > threshold,
        forall|i: int| 0 <= i < samples.len() ==> #[trigger] square(samples[i]) == a * a,
    ensures
        is_speech(samples, threshold),
{
    lemma_constant_energy(samples, a);
    assert(samples.len() * (a * a) > threshold * threshold * samples.len()) by (nonlinear_arith)
        requires
            samples.len() > 0,
            a > threshold,
    ;
}

/// The windows cover the samples: each begins inside them and is not empty.
pub proof fn lemma_window_in_range(len: nat, width: nat, k: nat)
    requires
        width > 0,
        k < window_count(len, width),
    ensures
        k * width < len,
        (k + 1) * width == k * width + width,
{
    assert(k * width < len && (k + 1) * width == k * width + width) by (nonlinear_arith)
        requires
            width > 0,
            k < (len + width - 1) / (width as int),
    ;
}

/// In silence every window is silent.
pub proof fn lemma_silent_windows(samples: Seq<i16>, width: nat, threshold: nat, k: nat)
    requires
        width > 0,
        k < window_count(samples.len(), width),
        forall|i: int| 0 <= i < samples.len() ==> #[trigger] samples[i] == 0,
    ensures
        !is_speech(window(samples, width, k), threshold),
{
    lemma_window_in_range(samples.len(), width, k);
    lemma_silence_is_not_speech(window(samples, width, k), threshold);
}

/// In a signal of one amplitude strictly above the threshold every window is
/// speech.
pub proof fn lemma_loud_windows(samples: Seq<i16>, a: nat, width: nat, threshold: nat, k: nat)
    requires
        width > 0,
        k < window_count(samples.len(), width),
        a > threshold,
        forall|i: int| 0 <= i < samples.len() ==> #[trigger] square(samples[i]) == a * a,
    ensures
        is_speech(window(samples, width, k), threshold),
{
    lemma_window_in_range(samples.len(), width, k);
    let w = window(samples, width, k);
    assert forall|i: int| 0 <= i < w.len() implies #[trigger] square(w[i]) == a * a by {
        assert(w[i] == samples[k * width + i]);
    }
    lemma_loud_is_speech(w, a, threshold);
}

/// A scan of silence finds nothing, whatever the window.
pub proof fn lemma_silence_has_no_segments(samples: Seq<i16>, width: nat, threshold: nat)
    requires
        forall|i: int| 0 <= i < samples.len() ==> #[trigger] samples[i] == 0,
    ensures
        speech_segments(samples, width, threshold) == Seq::<(usize, usize)>::empty(),
{
    if width == 0 {
        lemma_silence_is_not_speech(samples, threshold);
    } else {
        lemma_silent_scan(samples, width, threshold, window_count(samples.len(), width));
    }
}

proof fn lemma_silent_scan(samples: Seq<i16>, width: nat, threshold: nat, k: nat)
    requires
        width > 0,
        k <= window_count(samples.len(), width),
        forall|i: int| 0 <= i < samples.len() ==> #[trigger] samples[i] == 0,
    ensures
        scan(samples, width, threshold, k) == (Scan { closed: Seq::empty(), open: None }),
    decreases k,
{
    if k > 0 {
        lemma_silent_scan(samples, width, threshold, (k - 1) as nat);
        lemma_silent_windows(samples, width, threshold, (k - 1) as nat);
    }
}

/// A scan of a signal of one amplitude strictly above the threshold finds one
/// segment, which is the whole signal, whatever the window.
pub proof fn lemma_loud_is_one_segment(samples: Seq<i16>, a: nat, width: nat, threshold: nat)
    requires
        samples.len() > 0,
        a > threshold,
        forall|i: int| 0 <= i < samples.len() ==> #[trigger] square(samples[i]) == a * a,
    ensures
        speech_segments(samples, width, threshold) == seq![(0usize, samples.len() as usize)],
{
    if width == 0 {
        lemma_loud_is_speech(samples, a, threshold);
        return ;
    }
    let count = window_count(samples.len(), width);
    assert(count >= 1) by (nonlinear_arith)
        requires
            width > 0,
            samples.len() > 0,
            count == (samples.len() + width - 1) / (width as int),
    ;
    lemma_loud_scan(samples, a, width, threshold, count);
    assert(Seq::<(usize, usize)>::empty().push((0usize, samples.len() as usize)) =~= seq![
        (0usize, samples.len() as usize),
    ]);
}

proof fn lemma_loud_scan(samples: Seq<i16>, a: nat, width: nat, threshold: nat, k: nat)
    requires
        width > 0,
        1 <= k <= window_count(samples.len(), width),
        a > threshold,
        forall|i: int| 0 <= i < samples.len() ==> #[trigger] square(samples[i]) == a * a,
    ensures
        scan(samples, width, threshold, k) == (Scan { closed: Seq::empty(), open: Some(0usize) }),
    decreases k,
{
    lemma_loud_windows(samples, a, width, threshold, (k - 1) as nat);
    if k > 1 {
        lemma_loud_scan(samples, a, width, threshold, (k - 1) as nat);
    } else {
        assert(scan(samples, width, threshold, 0) == (Scan { closed: Seq::empty(), open: None }));
        assert((k - 1) * width == 0) by (nonlinear_arith)
            requires
                k == 1,
        ;
    }
}

/// Whether position `p` lies in one of the segments.
pub open spec fn covered(segments: Seq<(usize, usize)>, p: nat) -> bool {
    exists|i: int| 0 <= i < segments.len() && in_segment(#[trigger] segments[i], p)
}

/// Whether position `p` lies in the segment.
pub open spec fn in_segment(segment: (usize, usize), p: nat) -> bool {
    segment.0 <= p < segment.1
}

/// Whether the segments are not empty, lie before `end`, and follow one
/// another with a gap between each two.
pub open spec fn apart(segments: Seq<(usize, usize)>, end: int) -> bool {
    &&& forall|i: int|
        0 <= i < segments.len() ==> (#[trigger] segments[i]).0 < segments[i].1 <= end
    &&& forall|i: int, j: int|
        0 <= i < j < segments.len() ==> (#[trigger] segments[i]).1 < (#[trigger] segments[j]).0
}

/// What holds of a scan after `k` windows: the closed segments lie apart
/// and end before the last window, an open segment began after them and
/// no later than the last window, and a window that was seen is speech
/// exactly where its first sample lies in a closed segment or after the
/// start of the open one.
pub open spec fn scan_is_sound(samples: Seq<i16>, width: nat, threshold: nat, k: nat) -> bool {
    let state = scan(samples, width, threshold, k);
    &&& apart(state.closed, k * width - width)
    &&& state.open matches Some(start) ==> {
        &&& start + width <= k * width
        &&& forall|i: int| 0 <= i < state.closed.len() ==> (#[trigger] state.closed[i]).1 < start
    }
    &&& forall|j: nat|
        j < k ==> (#[trigger] is_speech(window(samples, width, j), threshold) <==> (covered(
            state.closed,
            j * width,
        ) || (state.open matches Some(start) && start <= j * width)))
}

/// An earlier window begins a whole window before a later one.
pub proof fn lemma_windows_in_order(j: nat, k: nat, width: nat)
    requires
        j <= k,
    ensures
        j * width <= k * width,
        j < k ==> j * width + width <= k * width,
{
    assert(j * width <= k * width) by (nonlinear_arith)
        requires
            j <= k,
    ;
    if j < k {
        assert(j * width + width <= k * width) by (nonlinear_arith)
            requires
                j + 1 <= k,
        ;
    }
}

/// A scan is sound after every window.
pub proof fn lemma_scan_is_sound(samples: Seq<i16>, width: nat, threshold: nat, k: nat)
    requires
        width > 0,
        samples.len() <= usize::MAX,
        k <= window_count(samples.len(), width),
    ensures
        scan_is_sound(samples, width, threshold, k),
    decreases k,
{
    let state = scan(samples, width, threshold, k);
    if k == 0 {
        assert(0 * width == 0) by (nonlinear_arith);
    } else {
        let last = (k - 1) as nat;
        let before = scan(samples, width, threshold, last);
        lemma_scan_is_sound(samples, width, threshold, last);
        lemma_window_in_range(samples.len(), width, last);
        let at = last * width;
        assert(k * width == at + width) by (nonlinear_arith)
            requires
                at == (k - 1) * width,
        ;
        assert(at as usize == at);
        let speech = is_speech(window(samples, width, last), threshold);
        match before.open {
            None => {
                // The closed segments stay as they are.
                assert(state.closed == before.closed);
                assert forall|j: nat| j < k implies (#[trigger] is_speech(
                    window(samples, width, j),
                    threshold,
                ) <==> (covered(state.closed, j * width) || (state.open matches Some(start)
                    && start <= j * width))) by {
                    lemma_windows_in_order(j, last, width);
                    if j == last {
                        assert(!covered(before.closed, at)) by {
                            assert forall|i: int| 0 <= i < before.closed.len() implies !in_segment(
                                #[trigger] before.closed[i],
                                at,
                            ) by {}
                        }
                    }
                }
            },
            Some(start) => {
                if speech {
                    assert(state == before);
                } else {
                    let segment = (start, at as usize);
                    assert(state.closed == before.closed.push(segment));
                    assert forall|i: int| 0 <= i < state.closed.len() implies (
                    #[trigger] state.closed[i]).0 < state.closed[i].1 <= at by {
                        if i < before.closed.len() {
                            assert(state.closed[i] == before.closed[i]);
                        }
                    }
                    assert forall|i: int, j: int| 0 <= i < j < state.closed.len() implies (
                    #[trigger] state.closed[i]).1 < (#[trigger] state.closed[j]).0 by {
                        assert(state.closed[i] == before.closed[i]);
                        if j < before.closed.len() {
                            assert(state.closed[j] == before.closed[j]);
                        }
                    }
                    assert forall|j: nat| j < k implies (#[trigger] is_speech(
                        window(samples, width, j),
                        threshold,
                    ) <==> covered(state.closed, j * width)) by {
                        let p = j * width;
                        lemma_windows_in_order(j, last, width);
                        if covered(state.closed, p) {
                            let i = choose|i: int|
                                0 <= i < state.closed.len() && in_segment(
                                    #[trigger] state.closed[i],
                                    p,
                                );
                            if i < before.closed.len() {
                                assert(state.closed[i] == before.closed[i]);
                                assert(covered(before.closed, p));
                            } else {
                                assert(start <= p < at);
                            }
                        }
                        if j < last {
                            if covered(before.closed, p) {
                                let i = choose|i: int|
                                    0 <= i < before.closed.len() && in_segment(
                                        #[trigger] before.closed[i],
                                        p,
                                    );
                                assert(state.closed[i] == before.closed[i]);
                                assert(in_segment(state.closed[i], p));
                            } else if start <= p {
                                assert(in_segment(state.closed[before.closed.len() as int], p));
                            }
                        }
                    }
                }
            },
        }
    }
}

/// The segments that a scan finds lie within the samples, are not empty
/// and follow one another with silence between each two; and a window is
/// speech exactly where its first sample lies in one of them. So the
/// segments are the runs of windows of speech, each run as one segment.
pub proof fn lemma_segments_are_the_runs_of_speech(samples: Seq<i16>, width: nat, threshold: nat)
    requires
        width > 0,
        samples.len() <= usize::MAX,
    ensures
        apart(speech_segments(samples, width, threshold), samples.len() as int),
        forall|j: nat|
            j < window_count(samples.len(), width) ==> (#[trigger] is_speech(
                window(samples, width, j),
                threshold,
            ) <==> covered(speech_segments(samples, width, threshold), j * width)),
{
    let count = window_count(samples.len(), width);
    let state = scan(samples, width, threshold, count);
    let segments = speech_segments(samples, width, threshold);
    lemma_scan_is_sound(samples, width, threshold, count);
    if count > 0 {
        lemma_window_in_range(samples.len(), width, (count - 1) as nat);
        assert(count * width - width == (count - 1) * width) by (nonlinear_arith);
    } else {
        assert(0 * width == 0) by (nonlinear_arith);
    }
    match state.open {
        None => {},
        Some(start) => {
            let segment = (start, samples.len() as usize);
            assert(segments == state.closed.push(segment));
            assert forall|i: int| 0 <= i < segments.len() implies (#[trigger] segments[i]).0
                < segments[i].1 <= samples.len() by {
                if i < state.closed.len() {
                    assert(segments[i] == state.closed[i]);
                }
            }
            assert forall|i: int, j: int| 0 <= i < j < segments.len() implies (
            #[trigger] segments[i]).1 < (#[trigger] segments[j]).0 by {
                assert(segments[i] == state.closed[i]);
                if j < state.closed.len() {
                    assert(segments[j] == state.closed[j]);
                }
            }
            assert forall|j: nat| j < count implies (#[trigger] is_speech(
                window(samples, width, j),
                threshold,
            ) <==> covered(segments, j * width)) by {
                let p = j * width;
                lemma_window_in_range(samples.len(), width, j);
                if covered(segments, p) {
                    let i = choose|i: int|
                        0 <= i < segments.len() && in_segment(#[trigger] segments[i], p);
                    if i < state.closed.len() {
                        assert(segments[i] == state.closed[i]);
                        assert(covered(state.closed, p));
                    }
                }
                if covered(state.closed, p) {
                    let i = choose|i: int|
                        0 <= i < state.closed.len() && in_segment(#[trigger] state.closed[i], p);
                    assert(segments[i] == state.closed[i]);
                    assert(in_segment(segments[i], p));
                } else if start <= p {
                    assert(in_segment(segments[state.closed.len() as int], p));
                }
            }
        },
    }
}

/// The sum of the squares of the samples from `from` up to `to`.
fn energy_between(samples: &[i16], from: usize, to: usize) -> (e: u128)
    requires
        from <= to <= samples@.len(),
    ensures
        e == energy(samples@.subrange(from as int, to as int)),
{
    let mut e: u128 = 0;
    let mut i: usize = from;
    while i < to
        invariant
            from <= i <= to <= samples@.len(),
            e == energy(samples@.subrange(from as int, i as int)),
            e <= (i - from) * 0x4000_0000,
        decreases to - i,
    {
        let x: i64 = samples[i] as i64;
        proof {
            let next = samples@.subrange(from as int, i as int + 1);
            assert(next.drop_last() =~= samples@.subrange(from as int, i as int));
            assert(next.last() == samples@[i as int]);
            lemma_energy_bound(next);
            assert(0 <= x * x <= 0x4000_0000) by (nonlinear_arith)
                requires
                    -0x8000 <= x <= 0x7fff,
            ;
        }
        e = e + (x * x) as u128;
        i += 1;
    }
    e
}

/// Whether the samples from `from` up to `to` are speech.
fn speech_between(samples: &[i16], from: usize, to: usize, threshold: u16) -> (r: bool)
    requires
        from <= to <= samples@.len(),
    ensures
        r == is_speech(samples@.subrange(from as int, to as int), threshold as nat),
{
    if from == to {
        return false;
    }
    let e = energy_between(samples, from, to);
    let n: u128 = (to - from) as u128;
    let t: u128 = threshold as u128;
    assert(t * t <= 0xffff * 0xffff && t * t * n <= 0xffff * 0xffff * 0xffff_ffff_ffff_ffff)
        by (nonlinear_arith)
        requires
            0 <= t <= 0xffff,
            0 <= n <= 0xffff_ffff_ffff_ffff,
    ;
    e > t * t * n
}

/// The root-mean-square amplitude of the samples, rounded down.
pub fn calculate_rms(samples: &[i16]) -> (r: u16)
    ensures
        is_rms(samples@, r as nat),
{
    let n = samples.len();
    if n == 0 {
        return 0;
    }
    assert(samples@.subrange(0, n as int) =~= samples@);
    let e = energy_between(samples, 0, n);
    proof {
        lemma_energy_bound(samples@);
    }
    // The largest r with r * r * n <= e lies in [lo, hi).
    let mut lo: u32 = 0;
    let mut hi: u32 = 0x8001;
    assert(0 * 0 * n <= e);
    assert(e < 0x8001 * 0x8001 * n) by (nonlinear_arith)
        requires
            e <= n * 0x4000_0000,
            n > 0,
    ;
    while hi - lo > 1
        invariant
            0 <= lo < hi <= 0x8001,
            n == samples@.len(),
            n > 0,
            e == energy(samples@),
            lo * lo * n <= e < hi * hi * n,
        decreases hi - lo,
    {
        let mid: u32 = lo + (hi - lo) / 2;
        let m: u128 = mid as u128;
        assert(m * m <= 0x8001 * 0x8001 && m * m * (n as u128) <= 0x8001 * 0x8001
            * 0xffff_ffff_ffff_ffff) by (nonlinear_arith)
            requires
                0 <= m <= 0x8001,
                0 <= n <= 0xffff_ffff_ffff_ffff,
        ;
        if m * m * (n as u128) <= e {
            lo = mid;
        } else {
            hi = mid;
        }
    }
    lo as u16
}

/// An energy detector with a fixed threshold and a window of 20 milliseconds.
#[derive(Debug, Clone, Copy)]
pub struct SimpleVad {
    threshold: u16,
    window_size: usize,
    sample_rate: u32,
}

impl SimpleVad {
    /// The amplitude that the root mean square must exceed.
    pub closed spec fn threshold(self) -> nat {
        self.threshold as nat
    }

    /// The number of samples in a window.
    pub closed spec fn window_width(self) -> nat {
        self.window_size as nat
    }

    /// The sample rate that the window was sized for.
    pub closed spec fn rate(self) -> u32 {
        self.sample_rate
    }

    /// Whether this is the detector with `threshold` for a stream of
    /// `sample_rate` samples per second: its window holds the samples of 20
    /// milliseconds, rounded down.
    pub open spec fn is_for(self, threshold: u16, sample_rate: u32) -> bool {
        self.threshold() == threshold && self.rate() == sample_rate && self.window_width()
            == sample_rate as nat / 50
    }

    /// A detector for a stream of 16000 samples per second. A threshold
    /// above the largest amplitude is refused.
    pub fn new(threshold: u16) -> (r: Result<SimpleVad, SttError>)
        ensures
            match r {
                Ok(vad) => threshold <= 32768 && vad.is_for(threshold, 16000)
                    && vad.window_width() == 320,
                Err(SttError::ConfigError(message)) => threshold > 32768 && message@
                    == "VAD阈值必须在0.0-1.0之间"@,
                Err(_) => false,
            },
    {
        SimpleVad::new_with_sample_rate(threshold, 16000)
    }

    /// A detector for a stream of `sample_rate` samples per second. A sample
    /// rate of zero is refused first, then a threshold above the largest
    /// amplitude.
    pub fn new_with_sample_rate(threshold: u16, sample_rate: u32) -> (r: Result<SimpleVad, SttError>)
        ensures
            match r {
                Ok(vad) => sample_rate > 0 && threshold <= 32768 && vad.is_for(
                    threshold,
                    sample_rate,
                ),
                Err(SttError::ConfigError(message)) => if sample_rate == 0 {
                    message@ == "采样率不能为零"@
                } else {
                    threshold > 32768 && message@ == "VAD阈值必须在0.0-1.0之间"@
                },
                Err(_) => false,
            },
    {
        if sample_rate == 0 {
            return Err(SttError::ConfigError("采样率不能为零".to_owned()));
        }
        if threshold > MAX_THRESHOLD {
            return Err(SttError::ConfigError("VAD阈值必须在0.0-1.0之间".to_owned()));
        }
        Ok(SimpleVad { threshold, window_size: (sample_rate / 50) as usize, sample_rate })
    }

    /// The number of samples in a window.
    pub fn window_size(&self) -> (r: usize)
        ensures
            r == self.window_width(),
    {
        self.window_size
    }

    /// Whether the samples, taken as one span, are speech.
    pub fn detect_speech(&self, samples: &[i16]) -> (r: bool)
        ensures
            r == is_speech(samples@, self.threshold()),
    {
        assert(samples@.subrange(0, samples@.len() as int) =~= samples@);
        speech_between(samples, 0, samples.len(), self.threshold)
    }

    /// The root-mean-square amplitude of the samples, rounded down.
    pub fn calculate_rms(&self, samples: &[i16]) -> (r: u16)
        ensures
            is_rms(samples@, r as nat),
    {
        calculate_rms(samples)
    }

    /// The segments of speech in the samples: the samples are cut into
    /// windows, each window is classified, and windows of speech that
    /// follow one another make one segment. A detector whose window holds
    /// no sample judges the samples as one span.
    pub fn detect_speech_segments(&self, samples: &[i16]) -> (r: Vec<(usize, usize)>)
        ensures
            r@ == speech_segments(samples@, self.window_width(), self.threshold()),
    {
        let len = samples.len();
        let width = self.window_size;
        let mut segments: Vec<(usize, usize)> = Vec::new();
        if width == 0 {
            if self.detect_speech(samples) {
                segments.push((0, len));
            }
            assert(segments@ =~= speech_segments(samples@, 0, self.threshold()));
            return segments;
        }
        let mut open: Option<usize> = None;
        let mut at: usize = 0;
        let ghost mut k: nat = 0;
        proof {
            assert(0 * width == 0);
            assert(window_count(len as nat, width as nat) == 0 ==> len == 0) by (nonlinear_arith)
                requires
                    width > 0,
                    window_count(len as nat, width as nat) == (len + width - 1) / (width as int),
            ;
        }
        while at < len
            invariant
                width > 0,
                width == self.window_size,
                len == samples@.len(),
                k <= window_count(len as nat, width as nat),
                at == if k < window_count(len as nat, width as nat) {
                    k * width
                } else {
                    len as int
                },
                scan(samples@, width as nat, self.threshold as nat, k) == (Scan {
                    closed: segments@,
                    open,
                }),
            decreases len - at,
        {
            proof {
                lemma_window_in_range(len as nat, width as nat, k);
            }
            let to: usize = if len - at >= width {
                at + width
            } else {
                len
            };
            let speech = speech_between(samples, at, to, self.threshold);
            match open {
                None => {
                    if speech {
                        open = Some(at);
                    }
                },
                Some(start) => {
                    if !speech {
                        segments.push((start, at));
                        open = None;
                    }
                },
            }
            proof {
                lemma_next_window(len as nat, width as nat, k);
                k = k + 1;
            }
            at = to;
        }
        proof {
            lemma_scan_is_over(len as nat, width as nat, k);
        }
        match open {
            None => {},
            Some(start) => {
                segments.push((start, len));
            },
        }
        segments
    }
}

/// After window `k` comes window `k + 1`, or the end of the samples.
proof fn lemma_next_window(len: nat, width: nat, k: nat)
    requires
        width > 0,
        k < window_count(len, width),
    ensures
        k + 1 <= window_count(len, width),
        k + 1 < window_count(len, width) <==> k * width + width < len,
{
    assert(k + 1 <= (len + width - 1) / (width as int) && (k + 1 < (len + width - 1) / (
    width as int) <==> k * width + width < len)) by (nonlinear_arith)
        requires
            width > 0,
            k < (len + width - 1) / (width as int),
    ;
}

/// A window that is still to come begins inside the samples.
proof fn lemma_scan_is_over(len: nat, width: nat, k: nat)
    requires
        width > 0,
        k <= window_count(len, width),
    ensures
        k < window_count(len, width) ==> k * width < len,
{
    if k < window_count(len, width) {
        lemma_window_in_range(len, width, k);
    }
}

} // verus!

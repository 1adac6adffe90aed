//! A bounded first-in, first-out sample store that keeps the most recent
//! window of what was pushed into it.

use vstd::prelude::*;
use std::collections::VecDeque;
use crate::format::AudioConfig;

verus! {

/// The last `cap` items of `all`, or all of it where it is shorter.
pub open spec fn trailing_window<T>(all: Seq<T>, cap: nat) -> Seq<T> {
    if all.len() <= cap {
        all
    } else {
        all.subrange(all.len() - cap, all.len() as int)
    }
}

/// The content of a buffer of capacity `cap` after the chunks were pushed one
/// after another, starting from `content`.
pub open spec fn push_each<T>(content: Seq<T>, chunks: Seq<Seq<T>>, cap: nat) -> Seq<T>
    decreases chunks.len(),
{
    if chunks.len() == 0 {
        content
    } else {
        push_each(trailing_window(content + chunks[0], cap), chunks.drop_first(), cap)
    }
}

/// The chunks laid end to end.
pub open spec fn joined<T>(chunks: Seq<Seq<T>>) -> Seq<T>
    decreases chunks.len(),
{
    if chunks.len() == 0 {
        Seq::empty()
    } else {
        chunks[0] + joined(chunks.drop_first())
    }
}

/// The number of samples that `duration_ms` milliseconds hold at
/// `sample_rate` samples per second, rounded down.
pub open spec fn samples_in(sample_rate: u32, duration_ms: u64) -> nat {
    (sample_rate as nat * duration_ms as nat) / 1000
}

/// The time in whole nanoseconds that `samples` samples take at
/// `sample_rate` samples per second; zero where the rate is zero.
pub open spec fn nanos_of(samples: nat, sample_rate: u32) -> nat {
    if sample_rate == 0 {
        0
    } else {
        (samples * 1_000_000_000) / (sample_rate as nat)
    }
}

/// The time that `samples` samples take at `sample_rate`, in whole
/// nanoseconds and capped at `u64::MAX`.
pub open spec fn buffered_nanos(samples: nat, sample_rate: u32) -> nat {
    if nanos_of(samples, sample_rate) <= u64::MAX {
        nanos_of(samples, sample_rate)
    } else {
        u64::MAX as nat
    }
}

/// Computes `buffered_nanos`.
pub fn span_nanos(samples: usize, sample_rate: u32) -> (r: u64)
    ensures
        r == buffered_nanos(samples as nat, sample_rate),
{
    if sample_rate == 0 {
        return 0;
    }
    assert((samples as int) * 1_000_000_000 <= 0xffff_ffff_ffff_ffff * 1_000_000_000)
        by (nonlinear_arith)
        requires
            0 <= samples <= 0xffff_ffff_ffff_ffff,
    ;
    let wide: u128 = (samples as u128) * 1_000_000_000 / (sample_rate as u128);
    if wide <= u64::MAX as u128 {
        wide as u64
    } else {
        u64::MAX
    }
}

/// Computes `samples_in` without overflow.
fn count_samples(sample_rate: u32, duration_ms: u64) -> (r: u128)
    ensures
        r == samples_in(sample_rate, duration_ms),
{
    assert((sample_rate as int) * (duration_ms as int) <= 0xffff_ffff * 0xffff_ffff_ffff_ffff)
        by (nonlinear_arith)
        requires
            0 <= sample_rate <= 0xffff_ffff,
            0 <= duration_ms <= 0xffff_ffff_ffff_ffff,
    ;
    (sample_rate as u128) * (duration_ms as u128) / 1000
}

/// Cutting to the window before appending changes nothing about the window
/// taken afterwards.
pub proof fn lemma_window_absorbs<T>(a: Seq<T>, b: Seq<T>, cap: nat)
    ensures
        trailing_window(trailing_window(a, cap) + b, cap) == trailing_window(a + b, cap),
{
    let w = trailing_window(a, cap);
    assert(trailing_window(w + b, cap) =~= trailing_window(a + b, cap));
}

/// A window is never longer than its capacity, nor than what it was cut from.
pub proof fn lemma_window_len<T>(all: Seq<T>, cap: nat)
    ensures
        trailing_window(all, cap).len() <= cap,
        trailing_window(all, cap).len() <= all.len(),
        trailing_window(all, cap).len() == if all.len() <= cap { all.len() } else { cap },
{
}

/// Chunks laid end to end are all but the last laid end to end, followed
/// by the last.
pub proof fn lemma_joined_last<T>(chunks: Seq<Seq<T>>)
    requires
        chunks.len() > 0,
    ensures
        joined(chunks) == joined(chunks.drop_last()) + chunks.last(),
    decreases chunks.len(),
{
    if chunks.len() == 1 {
        assert(chunks.drop_first() =~= Seq::<Seq<T>>::empty());
        assert(chunks.drop_last() =~= Seq::<Seq<T>>::empty());
        assert(joined(chunks.drop_first()) =~= Seq::<T>::empty());
        assert(joined(chunks) =~= chunks[0]);
        assert(joined(chunks.drop_last()) + chunks.last() =~= chunks[0]);
    } else {
        let rest = chunks.drop_first();
        lemma_joined_last(rest);
        assert(rest.drop_last() =~= chunks.drop_last().drop_first());
        assert(rest.last() == chunks.last());
        assert(chunks.drop_last()[0] == chunks[0]);
        assert(joined(chunks) =~= chunks[0] + (joined(rest.drop_last()) + rest.last()));
        assert(joined(chunks.drop_last()) =~= chunks[0] + joined(rest.drop_last()));
        assert(joined(chunks) =~= joined(chunks.drop_last()) + chunks.last());
    }
}

/// However a stream is cut into chunks, pushing the chunks in order into an
/// empty buffer leaves the trailing window of the whole stream, which is never
/// longer than the capacity.
pub proof fn lemma_chunking_is_irrelevant<T>(chunks: Seq<Seq<T>>, cap: nat)
    ensures
        push_each(Seq::<T>::empty(), chunks, cap) == trailing_window(joined(chunks), cap),
        push_each(Seq::<T>::empty(), chunks, cap).len() <= cap,
{
    lemma_push_each_from(Seq::<T>::empty(), chunks, cap);
    assert(Seq::<T>::empty() + joined(chunks) =~= joined(chunks));
    lemma_window_len(joined(chunks), cap);
}

/// Pushing chunks onto a buffer that already holds a window of `before` leaves
/// the window of `before` followed by the chunks.
pub proof fn lemma_push_each_from<T>(before: Seq<T>, chunks: Seq<Seq<T>>, cap: nat)
    ensures
        push_each(trailing_window(before, cap), chunks, cap) == trailing_window(
            before + joined(chunks),
            cap,
        ),
    decreases chunks.len(),
{
    if chunks.len() == 0 {
        assert(before + joined(chunks) =~= before);
    } else {
        let first = chunks[0];
        let rest = chunks.drop_first();
        lemma_window_absorbs(before, first, cap);
        lemma_push_each_from(before + first, rest, cap);
        assert((before + first) + joined(rest) =~= before + joined(chunks));
    }
}

/// A sample store of bounded length. Pushing beyond the capacity drops the
/// oldest samples first.
pub struct AudioBuffer<T> {
    samples: VecDeque<T>,
    config: AudioConfig,
    max_samples: usize,
}

impl<T> View for AudioBuffer<T> {
    type V = Seq<T>;

    closed spec fn view(&self) -> Seq<T> {
        self.samples@
    }
}

impl<T> AudioBuffer<T> {
    /// The largest number of samples the buffer holds.
    pub closed spec fn capacity(self) -> nat {
        self.max_samples as nat
    }

    /// The stream parameters the buffer was made for.
    pub closed spec fn stream(self) -> AudioConfig {
        self.config
    }
}

impl<T: Copy> AudioBuffer<T> {
    /// An empty buffer that holds up to `max_duration_ms` milliseconds of the
    /// stream that `config` describes (as many samples as fit in `usize`).
    pub fn new(config: AudioConfig, max_duration_ms: u64) -> (r: Self)
        ensures
            r@ == Seq::<T>::empty(),
            r@.len() <= r.capacity(),
            r.stream() == config,
            r.capacity() == if samples_in(config.sample_rate, max_duration_ms) <= usize::MAX {
                samples_in(config.sample_rate, max_duration_ms)
            } else {
                usize::MAX as nat
            },
    {
        let wide: u128 = count_samples(config.sample_rate, max_duration_ms);
        let max_samples: usize = if wide <= usize::MAX as u128 {
            wide as usize
        } else {
            usize::MAX
        };
        AudioBuffer { samples: VecDeque::new(), config, max_samples }
    }

    /// Appends the samples, then drops from the front whatever exceeds the
    /// capacity. Afterwards the content is within the capacity, whatever it
    /// was before.
    pub fn push_samples(&mut self, new_samples: &[T])
        ensures
            final(self)@ == trailing_window(old(self)@ + new_samples@, old(self).capacity()),
            final(self)@.len() <= final(self).capacity(),
            final(self).capacity() == old(self).capacity(),
            final(self).stream() == old(self).stream(),
    {
        let n = new_samples.len();
        let len = self.samples.len();
        let cap = self.max_samples;
        let total: u128 = len as u128 + n as u128;
        let excess: u128 = if total > cap as u128 {
            total - cap as u128
        } else {
            0
        };
        // What leaves is taken from the old content first, then from the
        // front of the new samples.
        let drop_old: usize = if excess >= len as u128 {
            len
        } else {
            excess as usize
        };
        let skip_new: usize = (excess - drop_old as u128) as usize;
        let mut k: usize = 0;
        while k < drop_old
            invariant
                0 <= k <= drop_old <= len,
                len == old(self).samples@.len(),
                self.max_samples == old(self).max_samples,
                self.config == old(self).config,
                self.samples@ == old(self).samples@.subrange(k as int, len as int),
            decreases drop_old - k,
        {
            self.samples.pop_front();
            assert(self.samples@ =~= old(self).samples@.subrange(k as int + 1, len as int));
            k += 1;
        }
        let mut i: usize = skip_new;
        while i < n
            invariant
                skip_new <= i <= n,
                n == new_samples@.len(),
                drop_old <= len,
                len == old(self).samples@.len(),
                self.max_samples == old(self).max_samples,
                self.config == old(self).config,
                self.samples@ == old(self).samples@.subrange(drop_old as int, len as int)
                    + new_samples@.subrange(skip_new as int, i as int),
            decreases n - i,
        {
            self.samples.push_back(new_samples[i]);
            assert(self.samples@ =~= old(self).samples@.subrange(drop_old as int, len as int)
                + new_samples@.subrange(skip_new as int, i as int + 1));
            i += 1;
        }
        assert(self.samples@ =~= trailing_window(
            old(self).samples@ + new_samples@,
            cap as nat,
        ));
    }

    /// The most recent `duration_ms` milliseconds of the content, oldest
    /// sample first.
    pub fn get_samples(&self, duration_ms: u64) -> (r: Vec<T>)
        ensures
            r@ == trailing_window(self@, samples_in(self.stream().sample_rate, duration_ms)),
    {
        let wide: u128 = count_samples(self.config.sample_rate, duration_ms);
        let len = self.samples.len();
        let start: usize = if wide >= len as u128 {
            0
        } else {
            len - (wide as usize)
        };
        let mut out: Vec<T> = Vec::new();
        let mut i: usize = start;
        while i < len
            invariant
                start <= i <= len,
                len == self.samples@.len(),
                out@ == self.samples@.subrange(start as int, i as int),
            decreases len - i,
        {
            out.push(self.samples[i]);
            assert(out@ =~= self.samples@.subrange(start as int, i as int + 1));
            i += 1;
        }
        assert(out@ =~= trailing_window(
            self@,
            samples_in(self.stream().sample_rate, duration_ms),
        ));
        out
    }

    /// A copy of the whole content, oldest sample first.
    pub fn get_all_samples(&self) -> (r: Vec<T>)
        ensures
            r@ == self@,
    {
        let len = self.samples.len();
        let mut out: Vec<T> = Vec::new();
        let mut i: usize = 0;
        while i < len
            invariant
                0 <= i <= len,
                len == self.samples@.len(),
                out@ == self.samples@.subrange(0, i as int),
            decreases len - i,
        {
            out.push(self.samples[i]);
            assert(out@ =~= self.samples@.subrange(0, i as int + 1));
            i += 1;
        }
        assert(out@ =~= self.samples@);
        out
    }

    /// The number of samples held.
    pub fn len(&self) -> (r: usize)
        ensures
            r == self@.len(),
    {
        self.samples.len()
    }

    /// The time that the content spans, `len / sample_rate`, in whole
    /// nanoseconds, rounded down and capped at `u64::MAX`. Zero where the
    /// sample rate is zero.
    pub fn duration(&self) -> (r: u64)
        ensures
            r == buffered_nanos(self@.len(), self.stream().sample_rate),
    {
        span_nanos(self.samples.len(), self.config.sample_rate)
    }

    /// The time that the content spans, in nanoseconds as `duration` gives
    /// it, and the number of samples held.
    pub fn buffer_info(&self) -> (r: (u64, usize))
        ensures
            r.0 == buffered_nanos(self@.len(), self.stream().sample_rate),
            r.1 == self@.len(),
    {
        (self.duration(), self.samples.len())
    }

    pub fn is_empty(&self) -> (r: bool)
        ensures
            r == (self@.len() == 0),
    {
        self.samples.len() == 0
    }

    /// Drops the whole content.
    pub fn clear(&mut self)
        ensures
            final(self)@ == Seq::<T>::empty(),
            final(self)@.len() <= final(self).capacity(),
            final(self).capacity() == old(self).capacity(),
            final(self).stream() == old(self).stream(),
    {
        self.samples.clear();
    }
}

} // verus!

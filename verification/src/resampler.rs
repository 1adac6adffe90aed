//! The bookkeeping of resampling: which rates are accepted, when the input is
//! handed back as it came, how a stream of arbitrary pieces is cut into the
//! fixed chunks that a resampling engine takes, and how interleaved channels
//! are parted and joined. The engine itself works on the chunks elsewhere.

use vstd::prelude::*;
use vstd::arithmetic::div_mod::{
    lemma_add_mod_noop, lemma_fundamental_div_mod, lemma_mod_add_multiples_vanish,
    lemma_mod_multiples_vanish, lemma_small_mod,
};
use vstd::string::*;
use crate::error::{AudioError, SttError};
use crate::format::AudioConfig;

verus! {

/// The chunk size of a streaming resampler made by `StreamingResampler::new`.
pub const DEFAULT_CHUNK_SIZE: usize = 1024;

/// The lower bound named in the error for a rejected sample rate.
pub const MIN_SAMPLE_RATE: u32 = 1;

/// The upper bound named in the error for a rejected sample rate. Rates
/// above it are not refused.
pub const MAX_SAMPLE_RATE: u32 = 192000;

/// The error for a rate of zero: that of `from_rate` where it is zero, else
/// that of `to_rate`.
pub open spec fn rate_error(from_rate: u32, to_rate: u32) -> Option<AudioError> {
    if from_rate == 0 {
        Some(AudioError::InvalidSampleRate { rate: from_rate, min: 1, max: 192000 })
    } else if to_rate == 0 {
        Some(AudioError::InvalidSampleRate { rate: to_rate, min: 1, max: 192000 })
    } else {
        None
    }
}

/// Accepts a pair of rates unless one of them is zero.
pub fn check_rates(from_rate: u32, to_rate: u32) -> (r: Result<(), AudioError>)
    ensures
        match r {
            Ok(_) => rate_error(from_rate, to_rate) is None,
            Err(e) => rate_error(from_rate, to_rate) == Some(e),
        },
{
    if from_rate == 0 {
        Err(AudioError::InvalidSampleRate { rate: from_rate, min: MIN_SAMPLE_RATE, max: MAX_SAMPLE_RATE })
    } else if to_rate == 0 {
        Err(AudioError::InvalidSampleRate { rate: to_rate, min: MIN_SAMPLE_RATE, max: MAX_SAMPLE_RATE })
    } else {
        Ok(())
    }
}

/// What resampling a whole signal at once comes to.
#[derive(Debug, Clone, Copy, PartialEq, Eq, Structural)]
pub enum ResamplePlan {
    /// The signal is the result: it is empty, or the rates are equal.
    Unchanged,
    /// One pass of an engine made for the whole signal as a single chunk.
    OnePass { chunk_size: usize },
}

/// Decides how a signal of `sample_count` samples is resampled at once.
pub fn plan_resample(sample_count: usize, from_rate: u32, to_rate: u32) -> (r: Result<
    ResamplePlan,
    AudioError,
>)
    ensures
        match r {
            Ok(plan) => rate_error(from_rate, to_rate) is None && plan == if sample_count == 0
                || from_rate == to_rate {
                ResamplePlan::Unchanged
            } else {
                ResamplePlan::OnePass { chunk_size: sample_count }
            },
            Err(e) => rate_error(from_rate, to_rate) == Some(e),
        },
{
    match check_rates(from_rate, to_rate) {
        Err(e) => Err(e),
        Ok(_) => if sample_count == 0 || from_rate == to_rate {
            Ok(ResamplePlan::Unchanged)
        } else {
            Ok(ResamplePlan::OnePass { chunk_size: sample_count })
        },
    }
}

/// A resampled signal with its rate.
#[derive(Debug, Clone)]
pub struct Resampled<T> {
    pub samples: Vec<T>,
    pub sample_rate: u32,
}

/// What a streaming resampler holds.
pub struct ResamplerModel<T> {
    pub from_rate: u32,
    pub to_rate: u32,
    pub leftover: Seq<T>,
    pub chunk_size: nat,
}

impl<T> ResamplerModel<T> {
    /// Whether input is handed back as it came, without an engine.
    pub open spec fn passthrough(self) -> bool {
        self.from_rate == self.to_rate
    }

    /// Whether a full chunk is waiting.
    pub open spec fn chunk_ready(self) -> bool {
        self.chunk_size > 0 && self.leftover.len() >= self.chunk_size
    }

    /// The state after input has been fed.
    pub open spec fn fed(self, input: Seq<T>) -> Self {
        if self.passthrough() {
            self
        } else {
            ResamplerModel { leftover: self.leftover + input, ..self }
        }
    }

    /// The state after one chunk has been taken, where one was ready.
    pub open spec fn popped(self) -> Self {
        if self.chunk_ready() {
            ResamplerModel { leftover: self.leftover.skip(self.chunk_size as int), ..self }
        } else {
            self
        }
    }

    /// The state after every full chunk has been taken.
    pub open spec fn drained(self) -> Self
        decreases self.leftover.len(),
    {
        if self.chunk_ready() {
            self.popped().drained()
        } else {
            self
        }
    }

    /// The chunks that are taken on the way to `drained`, laid end to end.
    pub open spec fn drained_samples(self) -> Seq<T>
        decreases self.leftover.len(),
    {
        if self.chunk_ready() {
            self.leftover.take(self.chunk_size as int) + self.popped().drained_samples()
        } else {
            Seq::empty()
        }
    }

    /// The state after the pieces of a stream have been fed one after
    /// another, each followed by the taking of every full chunk.
    pub open spec fn after_pieces(self, pieces: Seq<Seq<T>>) -> Self
        decreases pieces.len(),
    {
        if pieces.len() == 0 {
            self
        } else {
            self.after_pieces(pieces.drop_last()).fed(pieces.last()).drained()
        }
    }

    /// The chunks that are taken while the pieces of a stream are fed, laid
    /// end to end: what the engine is given, in the order in which it is
    /// given it.
    pub open spec fn taken_from_pieces(self, pieces: Seq<Seq<T>>) -> Seq<T>
        decreases pieces.len(),
    {
        if pieces.len() == 0 {
            Seq::empty()
        } else {
            self.taken_from_pieces(pieces.drop_last()) + self.after_pieces(pieces.drop_last()).fed(
                pieces.last(),
            ).drained_samples()
        }
    }

    /// The leftover filled up to a whole chunk with `pad`.
    pub open spec fn padded_leftover(self, pad: T) -> Seq<T> {
        Seq::new(
            if self.leftover.len() <= self.chunk_size {
                self.chunk_size
            } else {
                self.leftover.len()
            },
            |i: int|
                if i < self.leftover.len() {
                    self.leftover[i]
                } else {
                    pad
                },
        )
    }

    /// What is left to hand out at the end of the stream.
    pub open spec fn tail(self, pad: T) -> TailModel<T> {
        if self.passthrough() {
            TailModel::Unchanged(self.leftover)
        } else if self.leftover.len() > 0 {
            TailModel::Padded(self.padded_leftover(pad))
        } else {
            TailModel::Empty
        }
    }
}

/// The view of a `Tail`.
pub enum TailModel<T> {
    Unchanged(Seq<T>),
    Padded(Seq<T>),
    Empty,
}

/// What is left at the end of a stream.
pub enum Tail<T> {
    /// Samples to hand out as they are: the resampler passes input through.
    Unchanged(Vec<T>),
    /// A last chunk, filled up with padding, for one more pass of the
    /// engine before the engine is drained.
    Padded(Vec<T>),
    /// Nothing is buffered; the engine is only drained.
    Empty,
}

impl<T> View for Tail<T> {
    type V = TailModel<T>;

    open spec fn view(&self) -> TailModel<T> {
        match self {
            Tail::Unchanged(v) => TailModel::Unchanged(v@),
            Tail::Padded(v) => TailModel::Padded(v@),
            Tail::Empty => TailModel::Empty,
        }
    }
}

/// Draining takes whole chunks only, loses nothing, and leaves less than a
/// chunk behind.
pub proof fn lemma_drained<T>(state: ResamplerModel<T>)
    requires
        state.chunk_size > 0,
    ensures
        state.drained().leftover.len() < state.chunk_size,
        state.drained().leftover.len() == state.leftover.len() % state.chunk_size,
        state.drained_samples() + state.drained().leftover == state.leftover,
        state.drained_samples().len() % state.chunk_size == 0,
        state.drained().chunk_size == state.chunk_size,
        state.drained().from_rate == state.from_rate,
        state.drained().to_rate == state.to_rate,
    decreases state.leftover.len(),
{
    let size = state.chunk_size;
    let len = state.leftover.len();
    if state.chunk_ready() {
        let next = state.popped();
        lemma_drained(next);
        let first = state.leftover.take(size as int);
        assert(next.drained_samples() + next.drained().leftover == state.leftover.skip(
            size as int,
        ));
        assert(state.drained_samples() + state.drained().leftover =~= first + (
        next.drained_samples() + next.drained().leftover));
        assert(first + state.leftover.skip(size as int) =~= state.leftover);
        let taken = next.drained_samples().len();
        let kept = next.leftover.len();
        lemma_mod_add_multiples_vanish(kept as int, size as int);
        lemma_mod_add_multiples_vanish(taken as int, size as int);
    } else {
        lemma_small_mod(len, size);
        assert(state.drained_samples() + state.drained().leftover =~= state.leftover);
    }
}

/// What the engine is given does not depend on how the stream is cut into
/// pieces: it is the stream up to its last whole chunk, and what is left
/// over is the rest of the stream, less than a chunk.
pub proof fn lemma_cutting_is_irrelevant<T>(state: ResamplerModel<T>, pieces: Seq<Seq<T>>)
    requires
        !state.passthrough(),
        state.chunk_size > 0,
        state.leftover.len() == 0,
    ensures
        ({
            let stream = crate::buffer::joined(pieces);
            let whole = stream.len() - stream.len() % state.chunk_size;
            &&& state.taken_from_pieces(pieces) == stream.take(whole)
            &&& state.after_pieces(pieces).leftover == stream.skip(whole)
            &&& state.after_pieces(pieces).leftover.len() < state.chunk_size
        }),
{
    lemma_pieces(state, pieces);
    let stream = crate::buffer::joined(pieces);
    let taken = state.taken_from_pieces(pieces);
    let rest = state.after_pieces(pieces).leftover;
    let size = state.chunk_size as int;
    assert(state.leftover + stream =~= stream);
    assert(taken.len() + rest.len() == stream.len());
    assert(stream.len() % state.chunk_size == rest.len()) by {
        let q = taken.len() as int / size;
        lemma_fundamental_div_mod(taken.len() as int, size);
        assert(taken.len() == size * q);
        lemma_mod_multiples_vanish(q, rest.len() as int, size);
        lemma_small_mod(rest.len(), state.chunk_size);
        assert(size * q + rest.len() == q * size + rest.len()) by (nonlinear_arith);
    }
    assert(taken =~= stream.take(taken.len() as int));
    assert(rest =~= stream.skip(taken.len() as int));
}

/// While pieces are fed and full chunks taken, nothing is lost, only whole
/// chunks are taken, and less than a chunk is left over.
pub proof fn lemma_pieces<T>(state: ResamplerModel<T>, pieces: Seq<Seq<T>>)
    requires
        !state.passthrough(),
        state.chunk_size > 0,
        state.leftover.len() < state.chunk_size,
    ensures
        state.taken_from_pieces(pieces) + state.after_pieces(pieces).leftover == state.leftover
            + crate::buffer::joined(pieces),
        state.taken_from_pieces(pieces).len() % state.chunk_size == 0,
        state.after_pieces(pieces).leftover.len() < state.chunk_size,
        state.after_pieces(pieces).chunk_size == state.chunk_size,
        state.after_pieces(pieces).from_rate == state.from_rate,
        state.after_pieces(pieces).to_rate == state.to_rate,
    decreases pieces.len(),
{
    if pieces.len() == 0 {
        assert(state.taken_from_pieces(pieces) + state.after_pieces(pieces).leftover
            =~= state.leftover + crate::buffer::joined(pieces));
        lemma_small_mod(0, state.chunk_size);
    } else {
        let earlier = pieces.drop_last();
        let before = state.after_pieces(earlier);
        let fed = before.fed(pieces.last());
        lemma_pieces(state, earlier);
        lemma_drained(fed);
        crate::buffer::lemma_joined_last(pieces);
        let taken_before = state.taken_from_pieces(earlier);
        assert(state.taken_from_pieces(pieces) + state.after_pieces(pieces).leftover =~= taken_before
            + (fed.drained_samples() + fed.drained().leftover));
        assert(taken_before + fed.leftover =~= (taken_before + before.leftover) + pieces.last());
        assert((state.leftover + crate::buffer::joined(earlier)) + pieces.last() =~= state.leftover
            + crate::buffer::joined(pieces));
        lemma_add_mod_noop(
            taken_before.len() as int,
            fed.drained_samples().len() as int,
            state.chunk_size as int,
        );
        lemma_small_mod(0, state.chunk_size);
        assert(state.taken_from_pieces(pieces).len() == taken_before.len()
            + fed.drained_samples().len());
    }
}

/// A resampler that passes input through hands every piece back as it came
/// and never holds anything: whatever is fed, nothing is left at the end.
pub proof fn lemma_passthrough_holds_nothing<T>(state: ResamplerModel<T>, input: Seq<T>, pad: T)
    requires
        state.passthrough(),
        state.leftover.len() == 0,
    ensures
        state.fed(input) == state,
        state.fed(input).tail(pad) == TailModel::Unchanged(Seq::<T>::empty()),
{
    assert(state.leftover =~= Seq::<T>::empty());
}

/// Cuts a stream that arrives in pieces of any size into chunks of one size
/// for a resampling engine, or passes the pieces through where the two rates
/// are equal.
pub struct StreamingResampler<T> {
    from_rate: u32,
    to_rate: u32,
    buffer: Vec<T>,
    chunk_size: usize,
}

impl<T> View for StreamingResampler<T> {
    type V = ResamplerModel<T>;

    closed spec fn view(&self) -> ResamplerModel<T> {
        ResamplerModel {
            from_rate: self.from_rate,
            to_rate: self.to_rate,
            leftover: self.buffer@,
            chunk_size: self.chunk_size as nat,
        }
    }
}

impl<T: Copy> StreamingResampler<T> {
    /// A resampler from `from_rate` to `to_rate` with chunks of 1024
    /// samples. A rate of zero is refused.
    pub fn new(from_rate: u32, to_rate: u32) -> (r: Result<Self, AudioError>)
        ensures
            match r {
                Ok(s) => rate_error(from_rate, to_rate) is None && s@ == (ResamplerModel {
                    from_rate,
                    to_rate,
                    leftover: Seq::<T>::empty(),
                    chunk_size: 1024,
                }),
                Err(e) => rate_error(from_rate, to_rate) == Some(e),
            },
    {
        match check_rates(from_rate, to_rate) {
            Err(e) => Err(e),
            Ok(_) => Ok(
                StreamingResampler {
                    from_rate,
                    to_rate,
                    buffer: Vec::new(),
                    chunk_size: DEFAULT_CHUNK_SIZE,
                },
            ),
        }
    }

    /// A resampler with chunks of `chunk_size` samples. A rate of zero is
    /// refused first, then a chunk size of zero.
    pub fn with_chunk_size(from_rate: u32, to_rate: u32, chunk_size: usize) -> (r: Result<
        Self,
        AudioError,
    >)
        ensures
            match r {
                Ok(s) => rate_error(from_rate, to_rate) is None && chunk_size > 0 && s@ == (
                ResamplerModel {
                    from_rate,
                    to_rate,
                    leftover: Seq::<T>::empty(),
                    chunk_size: chunk_size as nat,
                }),
                Err(e) => match rate_error(from_rate, to_rate) {
                    Some(rate) => e == rate,
                    None => chunk_size == 0 && e == (AudioError::InvalidBufferSize {
                        size: 0,
                        min: 0,
                    }),
                },
            },
    {
        match check_rates(from_rate, to_rate) {
            Err(e) => Err(e),
            Ok(_) => if chunk_size == 0 {
                Err(AudioError::InvalidBufferSize { size: 0, min: 0 })
            } else {
                Ok(StreamingResampler { from_rate, to_rate, buffer: Vec::new(), chunk_size })
            },
        }
    }

    /// Whether input is handed back as it came.
    pub fn is_passthrough(&self) -> (r: bool)
        ensures
            r == self@.passthrough(),
    {
        self.from_rate == self.to_rate
    }

    pub fn from_rate(&self) -> (r: u32)
        ensures
            r == self@.from_rate,
    {
        self.from_rate
    }

    pub fn to_rate(&self) -> (r: u32)
        ensures
            r == self@.to_rate,
    {
        self.to_rate
    }

    pub fn chunk_size(&self) -> (r: usize)
        ensures
            r == self@.chunk_size,
    {
        self.chunk_size
    }

    /// The number of samples that wait for a full chunk.
    pub fn buffered(&self) -> (r: usize)
        ensures
            r == self@.leftover.len(),
    {
        self.buffer.len()
    }

    /// Takes a piece of the stream in. Where the resampler passes input
    /// through, the piece comes back unchanged and nothing is kept;
    /// otherwise it joins the leftover, from which `next_chunk` takes the
    /// full chunks.
    pub fn feed(&mut self, input: &[T]) -> (echo: Option<Vec<T>>)
        ensures
            final(self)@ == old(self)@.fed(input@),
            match echo {
                Some(samples) => old(self)@.passthrough() && samples@ == input@,
                None => !old(self)@.passthrough(),
            },
    {
        if self.from_rate == self.to_rate {
            let mut out: Vec<T> = Vec::new();
            let mut i: usize = 0;
            while i < input.len()
                invariant
                    0 <= i <= input@.len(),
                    out@ == input@.take(i as int),
                decreases input@.len() - i,
            {
                out.push(input[i]);
                i += 1;
                assert(out@ =~= input@.take(i as int));
            }
            assert(out@ =~= input@);
            Some(out)
        } else {
            let mut i: usize = 0;
            while i < input.len()
                invariant
                    0 <= i <= input@.len(),
                    self.from_rate == old(self).from_rate,
                    self.to_rate == old(self).to_rate,
                    self.chunk_size == old(self).chunk_size,
                    self.buffer@ == old(self).buffer@ + input@.take(i as int),
                decreases input@.len() - i,
            {
                self.buffer.push(input[i]);
                i += 1;
                assert(self.buffer@ =~= old(self).buffer@ + input@.take(i as int));
            }
            assert(self.buffer@ =~= old(self).buffer@ + input@);
            None
        }
    }

    /// Takes the oldest full chunk out of the leftover, if there is one.
    pub fn next_chunk(&mut self) -> (chunk: Option<Vec<T>>)
        ensures
            final(self)@ == old(self)@.popped(),
            match chunk {
                Some(samples) => old(self)@.chunk_ready() && samples@ == old(self)@.leftover.take(
                    old(self)@.chunk_size as int,
                ),
                None => !old(self)@.chunk_ready(),
            },
    {
        let size = self.chunk_size;
        let len = self.buffer.len();
        if size == 0 || len < size {
            return None;
        }
        let mut chunk: Vec<T> = Vec::new();
        let mut rest: Vec<T> = Vec::new();
        let mut i: usize = 0;
        while i < len
            invariant
                0 <= i <= len,
                0 < size <= len,
                len == self.buffer@.len(),
                chunk@ == self.buffer@.take(if i <= size { i as int } else { size as int }),
                rest@ == if i <= size {
                    Seq::<T>::empty()
                } else {
                    self.buffer@.subrange(size as int, i as int)
                },
            decreases len - i,
        {
            if i < size {
                chunk.push(self.buffer[i]);
                assert(chunk@ =~= self.buffer@.take(i as int + 1));
            } else {
                rest.push(self.buffer[i]);
                assert(rest@ =~= self.buffer@.subrange(size as int, i as int + 1));
            }
            i += 1;
        }
        assert(rest@ =~= self.buffer@.skip(size as int));
        self.buffer = rest;
        Some(chunk)
    }

    /// What is left to hand out at the end of the stream. Nothing is taken
    /// out of the resampler: `discard_tail` does that.
    pub fn pending_tail(&self, pad: T) -> (tail: Tail<T>)
        ensures
            tail@ == self@.tail(pad),
    {
        let len = self.buffer.len();
        if self.from_rate == self.to_rate {
            let mut out: Vec<T> = Vec::new();
            let mut i: usize = 0;
            while i < len
                invariant
                    0 <= i <= len,
                    len == self.buffer@.len(),
                    out@ == self.buffer@.take(i as int),
                decreases len - i,
            {
                out.push(self.buffer[i]);
                i += 1;
                assert(out@ =~= self.buffer@.take(i as int));
            }
            assert(out@ =~= self.buffer@);
            Tail::Unchanged(out)
        } else if len > 0 {
            let total = if len <= self.chunk_size {
                self.chunk_size
            } else {
                len
            };
            let mut out: Vec<T> = Vec::new();
            let mut i: usize = 0;
            while i < total
                invariant
                    0 <= i <= total,
                    len == self.buffer@.len(),
                    len <= total,
                    out@ == self@.padded_leftover(pad).take(i as int),
                    total == self@.padded_leftover(pad).len(),
                decreases total - i,
            {
                if i < len {
                    out.push(self.buffer[i]);
                } else {
                    out.push(pad);
                }
                i += 1;
                assert(out@ =~= self@.padded_leftover(pad).take(i as int));
            }
            assert(out@ =~= self@.padded_leftover(pad));
            Tail::Padded(out)
        } else {
            Tail::Empty
        }
    }

    /// Drops the leftover, once the tail has been dealt with.
    pub fn discard_tail(&mut self)
        ensures
            final(self)@ == (ResamplerModel { leftover: Seq::<T>::empty(), ..old(self)@ }),
    {
        self.buffer = Vec::new();
    }
}

/// The number of samples of channel `c` among `len` interleaved samples of
/// `channels` channels.
pub open spec fn channel_len(len: nat, channels: nat, c: nat) -> nat
    recommends
        c < channels,
{
    ((len + channels - 1 - c) / (channels as int)) as nat
}

/// The samples of channel `c` among interleaved samples: those at the
/// positions `c`, `c + channels`, `c + 2 * channels` and so on.
pub open spec fn channel_of<T>(input: Seq<T>, channels: nat, c: nat) -> Seq<T>
    recommends
        c < channels,
{
    Seq::new(channel_len(input.len(), channels, c), |j: int| input[j * channels + c])
}

/// Frame number `frame` of the channels: one sample of each of the first
/// `width` channels, and `pad` where a channel is too short.
pub open spec fn frame_of<T>(channels: Seq<Seq<T>>, width: nat, frame: int, pad: T) -> Seq<T> {
    Seq::new(
        width,
        |c: int|
            if frame < channels[c].len() {
                channels[c][frame]
            } else {
                pad
            },
    )
}

/// The first `frames` frames of the channels, one after another.
pub open spec fn interleaved<T>(channels: Seq<Seq<T>>, width: nat, frames: nat, pad: T) -> Seq<T>
    decreases frames,
{
    if frames == 0 {
        Seq::empty()
    } else {
        interleaved(channels, width, (frames - 1) as nat, pad) + frame_of(
            channels,
            width,
            frames - 1,
            pad,
        )
    }
}

/// The number of frames that come out for `frames` frames that go in:
/// `frames * target / source`, rounded to the nearest whole number, half a
/// frame upwards.
pub open spec fn frames_after(frames: nat, source_rate: u32, target_rate: u32) -> nat
    recommends
        source_rate > 0,
{
    ((2 * frames * target_rate + source_rate) / (2 * source_rate)) as nat
}

/// The samples of a list of vectors.
pub open spec fn views_of<T>(channels: Seq<Vec<T>>) -> Seq<Seq<T>> {
    Seq::new(channels.len(), |i: int| channels[i]@)
}

/// Parts interleaved samples into their channels.
pub fn deinterleave<T: Copy>(input: &[T], channels: usize) -> (r: Vec<Vec<T>>)
    requires
        channels > 0,
    ensures
        r@.len() == channels,
        forall|c: int| 0 <= c < channels ==> (#[trigger] r@[c])@ == channel_of(
            input@,
            channels as nat,
            c as nat,
        ),
{
    let len = input.len();
    let mut out: Vec<Vec<T>> = Vec::new();
    let mut c: usize = 0;
    while c < channels
        invariant
            0 <= c <= channels,
            channels > 0,
            len == input@.len(),
            out@.len() == c,
            forall|d: int| 0 <= d < c ==> (#[trigger] out@[d])@ == channel_of(
                input@,
                channels as nat,
                d as nat,
            ),
        decreases channels - c,
    {
        let mut one: Vec<T> = Vec::new();
        let mut at: usize = c;
        assert(one@.len() * channels == 0) by (nonlinear_arith)
            requires
                one@.len() == 0,
        ;
        while at < len
            invariant
                c < channels,
                len == input@.len(),
                at == one@.len() * channels + c || (at == len && one@.len() * channels + c >= len),
                one@.len() <= channel_len(len as nat, channels as nat, c as nat),
                forall|j: int| 0 <= j < one@.len() ==> #[trigger] one@[j] == input@[j * channels + c],
            decreases len - at,
        {
            let ghost k = one@.len() as int;
            proof {
                lemma_channel_len(len as nat, channels as nat, c as nat, k as nat);
            }
            one.push(input[at]);
            assert((k + 1) * channels + c == k * channels + c + channels) by (nonlinear_arith);
            at = if len - at > channels {
                at + channels
            } else {
                len
            };
        }
        proof {
            lemma_channel_len(len as nat, channels as nat, c as nat, one@.len() as nat);
            assert(one@ =~= channel_of(input@, channels as nat, c as nat));
        }
        out.push(one);
        c += 1;
    }
    out
}

/// A channel holds sample number `k` exactly where `k * channels + c` is a
/// position of the input.
pub proof fn lemma_channel_len(len: nat, channels: nat, c: nat, k: nat)
    requires
        channels > 0,
        c < channels,
    ensures
        k < channel_len(len, channels, c) <==> k * channels + c < len,
{
    let total = (len + channels - 1 - c) as int;
    let q = total / (channels as int);
    let r = total % (channels as int);
    assert(total == q * channels + r && 0 <= r < channels) by (nonlinear_arith)
        requires
            channels > 0,
            q == total / (channels as int),
            r == total % (channels as int),
    ;
    assert(k < q <==> k * channels + c < len) by (nonlinear_arith)
        requires
            total == q * channels + r,
            0 <= r < channels,
            total == len + channels - 1 - c,
            0 <= c < channels,
            0 <= k,
    ;
}

/// Joins channels into interleaved samples, frame after frame, for `frames`
/// frames of the first `width` channels.
pub fn interleave<T: Copy>(channels: &Vec<Vec<T>>, width: usize, frames: usize, pad: T) -> (r: Vec<T>)
    requires
        width <= channels@.len(),
    ensures
        r@ == interleaved(views_of(channels@), width as nat, frames as nat, pad),
{
    let ghost all = views_of(channels@);
    let mut out: Vec<T> = Vec::new();
    let mut frame: usize = 0;
    while frame < frames
        invariant
            0 <= frame <= frames,
            width <= channels@.len(),
            all == views_of(channels@),
            out@ == interleaved(all, width as nat, frame as nat, pad),
        decreases frames - frame,
    {
        let ghost before = out@;
        let mut c: usize = 0;
        while c < width
            invariant
                0 <= c <= width <= channels@.len(),
                all == views_of(channels@),
                out@ == before + frame_of(all, width as nat, frame as int, pad).take(c as int),
            decreases width - c,
        {
            let channel = &channels[c];
            assert(all[c as int] == channel@);
            if frame < channel.len() {
                out.push(channel[frame]);
            } else {
                out.push(pad);
            }
            c += 1;
            assert(out@ =~= before + frame_of(all, width as nat, frame as int, pad).take(c as int));
        }
        assert(frame_of(all, width as nat, frame as int, pad).take(width as int) =~= frame_of(
            all,
            width as nat,
            frame as int,
            pad,
        ));
        frame += 1;
    }
    out
}

/// The parameters of a resampler for interleaved audio.
#[derive(Debug, Clone, Copy)]
pub struct AudioResampler {
    source_rate: u32,
    target_rate: u32,
    channels: usize,
}

impl AudioResampler {
    pub closed spec fn source(self) -> u32 {
        self.source_rate
    }

    pub closed spec fn target(self) -> u32 {
        self.target_rate
    }

    pub closed spec fn channel_count(self) -> nat {
        self.channels as nat
    }

    /// Whether the parameters are those of a resampler: no rate is zero and
    /// there is a channel.
    pub open spec fn wf(self) -> bool {
        self.source() > 0 && self.target() > 0 && self.channel_count() > 0
    }

    /// A resampler from `source_rate` to `target_rate` for `channels`
    /// interleaved channels. A rate of zero is refused first, then a channel
    /// count of zero.
    pub fn new(source_rate: u32, target_rate: u32, channels: usize) -> (r: Result<
        AudioResampler,
        SttError,
    >)
        ensures
            match r {
                Ok(s) => source_rate > 0 && target_rate > 0 && channels > 0 && s.wf() && s.source()
                    == source_rate && s.target() == target_rate && s.channel_count() == channels,
                Err(SttError::ConfigError(msg)) => if source_rate == 0 || target_rate == 0 {
                    msg@ == "采样率不能为零"@
                } else {
                    channels == 0 && msg@ == "声道数不能为零"@
                },
                Err(_) => false,
            },
    {
        if source_rate == 0 || target_rate == 0 {
            return Err(SttError::ConfigError("采样率不能为零".to_owned()));
        }
        if channels == 0 {
            return Err(SttError::ConfigError("声道数不能为零".to_owned()));
        }
        Ok(AudioResampler { source_rate, target_rate, channels })
    }

    /// A resampler from the rate of `source` to the rate of `target`, for
    /// the channels of `source`.
    pub fn from_configs(source: &AudioConfig, target: &AudioConfig) -> (r: Result<
        AudioResampler,
        SttError,
    >)
        ensures
            match r {
                Ok(s) => source.sample_rate > 0 && target.sample_rate > 0 && source.channels > 0
                    && s.wf() && s.source() == source.sample_rate && s.target()
                    == target.sample_rate && s.channel_count() == source.channels,
                Err(SttError::ConfigError(msg)) => if source.sample_rate == 0 || target.sample_rate
                    == 0 {
                    msg@ == "采样率不能为零"@
                } else {
                    source.channels == 0 && msg@ == "声道数不能为零"@
                },
                Err(_) => false,
            },
    {
        AudioResampler::new(source.sample_rate, target.sample_rate, source.channels as usize)
    }

    /// Whether the two rates differ.
    pub fn needs_resampling(&self) -> (r: bool)
        ensures
            r == (self.source() != self.target()),
    {
        self.source_rate != self.target_rate
    }

    pub fn source_rate(&self) -> (r: u32)
        ensures
            r == self.source(),
    {
        self.source_rate
    }

    pub fn target_rate(&self) -> (r: u32)
        ensures
            r == self.target(),
    {
        self.target_rate
    }

    pub fn channels(&self) -> (r: usize)
        ensures
            r == self.channel_count(),
    {
        self.channels
    }

    /// The chunks of a stream laid end to end: what streaming resampling
    /// returns where the two rates are equal.
    pub fn join_chunks<T: Copy>(chunks: &Vec<Vec<T>>) -> (r: Vec<T>)
        ensures
            r@ == crate::buffer::joined(views_of(chunks@)),
    {
        let ghost all = views_of(chunks@);
        let mut out: Vec<T> = Vec::new();
        let mut k: usize = 0;
        proof {
            assert(all.skip(0) =~= all);
            assert(out@ + crate::buffer::joined(all) =~= crate::buffer::joined(all));
        }
        while k < chunks.len()
            invariant
                0 <= k <= chunks@.len(),
                all == views_of(chunks@),
                out@ + crate::buffer::joined(all.skip(k as int)) == crate::buffer::joined(all),
            decreases chunks@.len() - k,
        {
            let chunk = &chunks[k];
            let ghost before = out@;
            let mut i: usize = 0;
            while i < chunk.len()
                invariant
                    0 <= i <= chunk@.len(),
                    out@ == before + chunk@.take(i as int),
                decreases chunk@.len() - i,
            {
                out.push(chunk[i]);
                i += 1;
                assert(out@ =~= before + chunk@.take(i as int));
            }
            proof {
                assert(chunk@.take(chunk@.len() as int) =~= chunk@);
                assert(all.skip(k as int)[0] == chunk@);
                assert(all.skip(k as int).drop_first() =~= all.skip(k as int + 1));
                assert(out@ + crate::buffer::joined(all.skip(k as int + 1)) =~= before + (chunk@
                    + crate::buffer::joined(all.skip(k as int + 1))));
            }
            k += 1;
        }
        proof {
            assert(all.skip(chunks@.len() as int) =~= Seq::<Seq<T>>::empty());
            assert(out@ + Seq::<T>::empty() =~= out@);
        }
        out
    }

    /// The number of frames that come out for `input_frames` frames, capped
    /// at `usize::MAX`.
    pub fn output_frames(&self, input_frames: usize) -> (r: usize)
        requires
            self.wf(),
        ensures
            r == if frames_after(input_frames as nat, self.source(), self.target()) <= usize::MAX {
                frames_after(input_frames as nat, self.source(), self.target())
            } else {
                usize::MAX as nat
            },
    {
        let frames = input_frames as u128;
        let target = self.target_rate as u128;
        let source = self.source_rate as u128;
        assert(2 * frames * target + source <= 2 * 0xffff_ffff_ffff_ffff * 0xffff_ffff
            + 0xffff_ffff) by (nonlinear_arith)
            requires
                0 <= frames <= 0xffff_ffff_ffff_ffff,
                0 <= target <= 0xffff_ffff,
                0 <= source <= 0xffff_ffff,
        ;
        let wide: u128 = (2 * frames * target + source) / (2 * source);
        if wide <= usize::MAX as u128 {
            wide as usize
        } else {
            usize::MAX
        }
    }
}

/// How much effort a resampling engine spends.
#[derive(Debug, Clone, Copy, PartialEq, Eq, Structural)]
pub enum ResampleQuality {
    Fast,
    Standard,
    High,
}

impl ResampleQuality {
    /// The length of the interpolation filter.
    pub fn sinc_len(&self) -> (r: usize)
        ensures
            r == match *self {
                ResampleQuality::Fast => 64usize,
                ResampleQuality::Standard => 256usize,
                ResampleQuality::High => 1024usize,
            },
    {
        match self {
            ResampleQuality::Fast => 64,
            ResampleQuality::Standard => 256,
            ResampleQuality::High => 1024,
        }
    }

    /// The oversampling factor of the interpolation filter.
    pub fn oversampling_factor(&self) -> (r: usize)
        ensures
            r == match *self {
                ResampleQuality::Fast => 64usize,
                ResampleQuality::Standard => 256usize,
                ResampleQuality::High => 512usize,
            },
    {
        match self {
            ResampleQuality::Fast => 64,
            ResampleQuality::Standard => 256,
            ResampleQuality::High => 512,
        }
    }
}

/// A resampler for interleaved audio with a chosen quality.
#[derive(Debug, Clone, Copy)]
pub struct AdvancedResampler {
    base: AudioResampler,
    quality: ResampleQuality,
}

impl AdvancedResampler {
    pub closed spec fn base_params(self) -> AudioResampler {
        self.base
    }

    pub closed spec fn quality_level(self) -> ResampleQuality {
        self.quality
    }

    /// As `AudioResampler::new`, with a quality.
    pub fn new(source_rate: u32, target_rate: u32, channels: usize, quality: ResampleQuality) -> (r:
        Result<AdvancedResampler, SttError>)
        ensures
            match r {
                Ok(s) => source_rate > 0 && target_rate > 0 && channels > 0
                    && s.base_params().wf() && s.base_params().source() == source_rate
                    && s.base_params().target() == target_rate && s.base_params().channel_count()
                    == channels && s.quality_level() == quality,
                Err(SttError::ConfigError(msg)) => if source_rate == 0 || target_rate == 0 {
                    msg@ == "采样率不能为零"@
                } else {
                    channels == 0 && msg@ == "声道数不能为零"@
                },
                Err(_) => false,
            },
    {
        match AudioResampler::new(source_rate, target_rate, channels) {
            Ok(base) => Ok(AdvancedResampler { base, quality }),
            Err(e) => Err(e),
        }
    }

    pub fn base(&self) -> (r: AudioResampler)
        ensures
            r == self.base_params(),
    {
        self.base
    }

    pub fn quality(&self) -> (r: ResampleQuality)
        ensures
            r == self.quality_level(),
    {
        self.quality
    }
}

} // verus!

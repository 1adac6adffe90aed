//! Consensus over successive transcripts: text is confirmed once the last
//! `n` hypotheses agree on it, and only what is newly confirmed is handed on.

use vstd::prelude::*;
use vstd::string::*;
use vstd::utf8::{
    decode_utf8, decode_utf8_encode_utf8, decode_utf8_split, encode_utf8,
    encode_utf8_decode_utf8, encode_utf8_valid_utf8, is_char_boundary, length_of_first_scalar,
    pop_first_scalar, valid_first_scalar, valid_utf8, valid_utf8_split,
};
use std::collections::VecDeque;
use crate::buffer::trailing_window;
use crate::text::{
    from_utf8_lossy, is_whitespace, lemma_trimmed_end, string_from_utf8, text_of, trim_end,
    trimmed_end,
};

verus! {

/// Whether every text has a byte at position `k` and all of these are equal.
pub open spec fn agree_at(texts: Seq<Seq<u8>>, k: int) -> bool {
    forall|i: int| 0 <= i < texts.len() ==> k < (#[trigger] texts[i]).len() && texts[i][k] == texts[0][k]
}

/// The first position from `k` on at which the texts do not all agree.
pub open spec fn agreement_end(texts: Seq<Seq<u8>>, k: nat) -> nat
    decreases texts[0].len() - k,
{
    if texts.len() > 0 && k < texts[0].len() && agree_at(texts, k as int) {
        agreement_end(texts, k + 1)
    } else {
        k
    }
}

/// The longest byte sequence that every text starts with; empty where
/// there is no text.
pub open spec fn common_prefix(texts: Seq<Seq<u8>>) -> Seq<u8> {
    if texts.len() == 0 {
        Seq::empty()
    } else {
        texts[0].take(agreement_end(texts, 0) as int)
    }
}

/// The text on which the hypotheses agree: their common prefix without
/// trailing whitespace, as bytes. Where the common prefix ends inside a
/// character, nothing is agreed.
pub open spec fn agreed_text(texts: Seq<Seq<u8>>) -> Seq<u8> {
    let prefix = common_prefix(texts);
    if valid_utf8(prefix) {
        encode_utf8(trimmed_end(decode_utf8(prefix)))
    } else {
        Seq::empty()
    }
}

/// The window after `latest` has entered it: the oldest text leaves where
/// the window would hold more than `n`.
pub open spec fn slid(window: Seq<Seq<u8>>, latest: Seq<u8>, n: nat) -> Seq<Seq<u8>> {
    let pushed = window.push(latest);
    if pushed.len() > n {
        pushed.drop_first()
    } else {
        pushed
    }
}

/// What an aggregator holds: the most recent hypotheses, oldest first, the
/// bytes confirmed so far, and the number of hypotheses that must agree.
pub struct AggregatorModel {
    pub window: Seq<Seq<u8>>,
    pub confirmed: Seq<u8>,
    pub n: nat,
}

impl AggregatorModel {
    /// An aggregator that has seen nothing. Fewer than two hypotheses are
    /// never asked for.
    pub open spec fn fresh(n: nat) -> AggregatorModel {
        AggregatorModel {
            window: Seq::empty(),
            confirmed: Seq::empty(),
            n: if n < 2 { 2 } else { n },
        }
    }

    /// Whether `latest` confirms new text: the window is full and the agreed
    /// text is longer than what was confirmed before.
    pub open spec fn confirms(self, latest: Seq<u8>) -> bool {
        let window = slid(self.window, latest, self.n);
        window.len() >= self.n && agreed_text(window).len() > self.confirmed.len()
    }

    /// The bytes that `latest` adds to the confirmed text.
    pub open spec fn delta(self, latest: Seq<u8>) -> Seq<u8> {
        agreed_text(slid(self.window, latest, self.n)).skip(self.confirmed.len() as int)
    }

    /// The state after `latest`.
    pub open spec fn push(self, latest: Seq<u8>) -> AggregatorModel {
        let window = slid(self.window, latest, self.n);
        AggregatorModel {
            window,
            confirmed: if self.confirms(latest) {
                agreed_text(window)
            } else {
                self.confirmed
            },
            n: self.n,
        }
    }

    /// The text handed on for `latest`: the newly confirmed bytes read as
    /// text, unless nothing is confirmed or that text is all whitespace.
    pub open spec fn emits(self, latest: Seq<u8>) -> Option<Seq<char>> {
        let text = text_of(self.delta(latest));
        if self.confirms(latest) && trimmed_end(text).len() > 0 {
            Some(text)
        } else {
            None
        }
    }
}

/// Whether the first `rows` texts hold, at each position before `end`, the
/// byte that `first` holds there.
pub open spec fn rows_agree(texts: Seq<Seq<u8>>, first: Seq<u8>, rows: int, end: int) -> bool {
    forall|i: int, c: int| 0 <= i < rows && 0 <= c < end ==> #[trigger] holds_at(texts[i], c, first)
}

/// Whether `text` has a byte at position `c`, the one that `first` has there.
pub open spec fn holds_at(text: Seq<u8>, c: int, first: Seq<u8>) -> bool {
    c < text.len() && text[c] == first[c]
}

/// The texts of a window as byte sequences.
pub open spec fn texts_of(window: Seq<Vec<u8>>) -> Seq<Seq<u8>> {
    Seq::new(window.len(), |i: int| window[i]@)
}

/// A position up to which all texts agree, and at which they do not, is
/// where the agreement ends.
pub proof fn lemma_agreement_end(texts: Seq<Seq<u8>>, k: nat, end: nat)
    requires
        texts.len() > 0,
        k <= end <= texts[0].len(),
        forall|c: int| k <= c < end ==> agree_at(texts, c),
        end == texts[0].len() || !agree_at(texts, end as int),
    ensures
        agreement_end(texts, k) == end,
    decreases end - k,
{
    if k < end {
        lemma_agreement_end(texts, k + 1, end);
    }
}

/// The agreement from `k` on ends within the first text, holds at every
/// position before its end and fails at the end.
pub proof fn lemma_agreement_end_bounds(texts: Seq<Seq<u8>>, k: nat)
    requires
        texts.len() > 0,
        k <= texts[0].len(),
    ensures
        k <= agreement_end(texts, k) <= texts[0].len(),
        forall|c: int| k <= c < agreement_end(texts, k) ==> agree_at(texts, c),
        agreement_end(texts, k) == texts[0].len() || !agree_at(
            texts,
            agreement_end(texts, k) as int,
        ),
    decreases texts[0].len() - k,
{
    if k < texts[0].len() && agree_at(texts, k as int) {
        lemma_agreement_end_bounds(texts, k + 1);
    }
}

/// The common prefix is a prefix of every text, and no common prefix is
/// longer.
pub proof fn lemma_common_prefix_is_longest(texts: Seq<Seq<u8>>, other: Seq<u8>)
    requires
        texts.len() > 0,
    ensures
        forall|i: int| 0 <= i < texts.len() ==> common_prefix(texts).is_prefix_of(#[trigger] texts[i]),
        (forall|i: int| 0 <= i < texts.len() ==> other.is_prefix_of(#[trigger] texts[i]))
            ==> other.is_prefix_of(common_prefix(texts)),
{
    lemma_agreement_end_bounds(texts, 0);
    let end = agreement_end(texts, 0);
    let p = common_prefix(texts);
    assert forall|i: int| 0 <= i < texts.len() implies p.is_prefix_of(#[trigger] texts[i]) by {
        assert forall|c: int| 0 <= c < end implies c < texts[i].len() && texts[i][c] == texts[0][c] by {
            assert(agree_at(texts, c));
        }
        if end > 0 {
            assert(agree_at(texts, end - 1));
        }
        assert(p =~= texts[i].subrange(0, p.len() as int));
    }
    if forall|i: int| 0 <= i < texts.len() ==> other.is_prefix_of(#[trigger] texts[i]) {
        assert(other.is_prefix_of(texts[0]));
        if other.len() > end {
            assert(end < texts[0].len());
            assert(agree_at(texts, end as int)) by {
                assert forall|i: int| 0 <= i < texts.len() implies end < (#[trigger] texts[i]).len()
                    && texts[i][end as int] == texts[0][end as int] by {
                    assert(other.is_prefix_of(texts[i]));
                    assert(texts[i][end as int] == other[end as int]);
                    assert(texts[0][end as int] == other[end as int]);
                }
            }
        }
        assert(other =~= p.subrange(0, other.len() as int));
    }
}


/// The state of an aggregator made for `n` hypotheses after it has taken in
/// `history`, oldest first.
pub open spec fn after_session(n: nat, history: Seq<Seq<u8>>) -> AggregatorModel
    decreases history.len(),
{
    if history.len() == 0 {
        AggregatorModel::fresh(n)
    } else {
        after_session(n, history.drop_last()).push(history.last())
    }
}

/// The bytes of all the texts that were handed on during a session, in the
/// order in which they were handed on.
pub open spec fn session_output(n: nat, history: Seq<Seq<u8>>) -> Seq<u8>
    decreases history.len(),
{
    if history.len() == 0 {
        Seq::empty()
    } else {
        let before = after_session(n, history.drop_last());
        session_output(n, history.drop_last()) + match before.emits(history.last()) {
            Some(text) => encode_utf8(text),
            None => Seq::empty(),
        }
    }
}

/// Whether, each time a session confirmed new text, the agreed text began
/// with what had been confirmed before.
pub open spec fn steady(n: nat, history: Seq<Seq<u8>>) -> bool
    decreases history.len(),
{
    history.len() == 0 || {
        let before = after_session(n, history.drop_last());
        &&& steady(n, history.drop_last())
        &&& before.confirms(history.last()) ==> before.confirmed.is_prefix_of(
            agreed_text(slid(before.window, history.last(), before.n)),
        )
    }
}

/// The text on which hypotheses agree is valid UTF-8 and, read as text, does
/// not end in whitespace.
pub proof fn lemma_agreed_text(texts: Seq<Seq<u8>>)
    ensures
        valid_utf8(agreed_text(texts)),
        trimmed_end(decode_utf8(agreed_text(texts))) == decode_utf8(agreed_text(texts)),
{
    let prefix = common_prefix(texts);
    if valid_utf8(prefix) {
        let text = trimmed_end(decode_utf8(prefix));
        encode_utf8_valid_utf8(text);
        encode_utf8_decode_utf8(text);
        lemma_trimmed_end(decode_utf8(prefix));
    } else {
        assert(valid_utf8(Seq::<u8>::empty()));
        assert(decode_utf8(Seq::<u8>::empty()) =~= Seq::<char>::empty());
    }
}

/// A prefix of valid UTF-8 that is valid UTF-8 itself ends between two
/// characters.
pub proof fn lemma_valid_prefix_boundary(bytes: Seq<u8>, k: int)
    requires
        valid_utf8(bytes),
        0 <= k <= bytes.len(),
        valid_utf8(bytes.take(k)),
    ensures
        is_char_boundary(bytes, k),
    decreases bytes.len(),
{
    if k != 0 {
        let head = bytes.take(k);
        let width = length_of_first_scalar(bytes);
        assert(head[0] == bytes[0]);
        assert(valid_first_scalar(head));
        assert(valid_first_scalar(bytes));
        assert(length_of_first_scalar(head) == width);
        assert(width <= k);
        let rest = pop_first_scalar(bytes);
        assert(pop_first_scalar(head) =~= rest.take(k - width));
        lemma_valid_prefix_boundary(rest, k - width);
    }
}

/// A push never shortens the confirmed text, and leaves it as it was unless
/// it confirms new text.
pub proof fn lemma_confirmed_only_grows(state: AggregatorModel, latest: Seq<u8>)
    ensures
        state.push(latest).confirmed.len() >= state.confirmed.len(),
        !state.confirms(latest) ==> state.push(latest).confirmed == state.confirmed,
        !state.confirms(latest) ==> state.emits(latest) is None,
        state.confirms(latest) ==> state.push(latest).confirmed.len() == state.confirmed.len()
            + state.delta(latest).len(),
{
}

/// Where the agreed text begins with what was confirmed before, the text
/// handed on is exactly what the agreed text adds to it.
pub proof fn lemma_extension_is_handed_on(state: AggregatorModel, latest: Seq<u8>)
    requires
        valid_utf8(state.confirmed),
        state.confirms(latest),
        state.confirmed.is_prefix_of(agreed_text(slid(state.window, latest, state.n))),
    ensures
        state.emits(latest) == Some(decode_utf8(state.delta(latest))),
        encode_utf8(decode_utf8(state.delta(latest))) == state.delta(latest),
        state.confirmed + state.delta(latest) == state.push(latest).confirmed,
{
    let agreed = agreed_text(slid(state.window, latest, state.n));
    let k = state.confirmed.len() as int;
    let delta = state.delta(latest);
    lemma_agreed_text(slid(state.window, latest, state.n));
    assert(agreed.take(k) =~= state.confirmed);
    lemma_valid_prefix_boundary(agreed, k);
    valid_utf8_split(agreed, k);
    decode_utf8_split(agreed, k);
    assert(delta =~= agreed.subrange(k, agreed.len() as int));
    assert(valid_utf8(delta));
    decode_utf8_encode_utf8(delta);
    assert(state.confirmed + delta =~= agreed);
    let text = decode_utf8(agreed);
    let added = decode_utf8(delta);
    assert(added.len() > 0) by {
        assert(delta.len() > 0);
    }
    assert(text =~= decode_utf8(agreed.subrange(0, k)) + added);
    assert(text.last() == added.last());
    assert(!is_whitespace(text.last())) by {
        lemma_trimmed_end(text);
    }
    assert(trimmed_end(added) == added);
}

/// What a session has confirmed is valid UTF-8.
pub proof fn lemma_confirmed_is_text(n: nat, history: Seq<Seq<u8>>)
    ensures
        valid_utf8(after_session(n, history).confirmed),
    decreases history.len(),
{
    if history.len() == 0 {
        assert(valid_utf8(Seq::<u8>::empty()));
    } else {
        let before = after_session(n, history.drop_last());
        lemma_confirmed_is_text(n, history.drop_last());
        lemma_agreed_text(slid(before.window, history.last(), before.n));
    }
}

/// Over a session in which each confirmation extends the one before, the
/// texts handed on, laid end to end, spell exactly the text that stands
/// confirmed at the end.
pub proof fn lemma_output_spells_confirmed(n: nat, history: Seq<Seq<u8>>)
    requires
        steady(n, history),
    ensures
        session_output(n, history) == after_session(n, history).confirmed,
    decreases history.len(),
{
    if history.len() > 0 {
        let before = after_session(n, history.drop_last());
        lemma_output_spells_confirmed(n, history.drop_last());
        lemma_confirmed_is_text(n, history.drop_last());
        if before.confirms(history.last()) {
            lemma_extension_is_handed_on(before, history.last());
        } else {
            assert(session_output(n, history) =~= session_output(n, history.drop_last()));
        }
    }
}

/// What stands confirmed in a session was agreed on at some point of it:
/// it is the common prefix, without trailing whitespace, of a full window
/// that the session went through.
pub proof fn lemma_confirmed_was_agreed(n: nat, history: Seq<Seq<u8>>)
    ensures
        after_session(n, history).confirmed.len() == 0 || exists|k: int|
            0 < k <= history.len() && was_agreed_at(n, history, k),
    decreases history.len(),
{
    if history.len() > 0 {
        let before = after_session(n, history.drop_last());
        lemma_session_keeps_n(n, history.drop_last());
        if before.confirms(history.last()) {
            assert(history.take(history.len() as int) =~= history);
            assert(was_agreed_at(n, history, history.len() as int));
        } else {
            lemma_confirmed_was_agreed(n, history.drop_last());
            if before.confirmed.len() > 0 {
                let k = choose|k: int|
                    0 < k <= history.drop_last().len() && was_agreed_at(n, history.drop_last(), k);
                assert(history.take(k) =~= history.drop_last().take(k));
                assert(was_agreed_at(n, history, k));
            }
        }
    }
}

/// Whether what stands confirmed at the end of a session is the text on
/// which the window was agreed, and the window was full, after the first
/// `k` hypotheses.
pub open spec fn was_agreed_at(n: nat, history: Seq<Seq<u8>>, k: int) -> bool {
    let then = after_session(n, history.take(k));
    then.window.len() >= then.n && after_session(n, history).confirmed == agreed_text(then.window)
}

/// A session asks for the agreement of as many hypotheses at its end as at
/// its start.
pub proof fn lemma_session_keeps_n(n: nat, history: Seq<Seq<u8>>)
    ensures
        after_session(n, history).n == AggregatorModel::fresh(n).n,
    decreases history.len(),
{
    if history.len() > 0 {
        lemma_session_keeps_n(n, history.drop_last());
    }
}

/// The window of a session holds the most recent hypotheses of its
/// history, as many as must agree, or all where there are fewer.
pub proof fn lemma_window_is_recent(n: nat, history: Seq<Seq<u8>>)
    ensures
        after_session(n, history).window == trailing_window(history, AggregatorModel::fresh(n).n),
        after_session(n, history).n == AggregatorModel::fresh(n).n,
    decreases history.len(),
{
    let size = AggregatorModel::fresh(n).n;
    if history.len() == 0 {
        assert(after_session(n, history).window =~= trailing_window(history, size));
    } else {
        let earlier = history.drop_last();
        lemma_window_is_recent(n, earlier);
        let before = after_session(n, earlier);
        assert(earlier.push(history.last()) =~= history);
        assert(slid(before.window, history.last(), size) =~= trailing_window(history, size));
    }
}

/// The common prefix of the whole history of a session is a prefix of the
/// common prefix of its window: what the window agrees on is never less
/// than what every hypothesis of the session agrees on.
pub proof fn lemma_history_agrees_on_less(n: nat, history: Seq<Seq<u8>>)
    requires
        history.len() > 0,
    ensures
        common_prefix(history).is_prefix_of(common_prefix(after_session(n, history).window)),
{
    let size = AggregatorModel::fresh(n).n;
    let window = after_session(n, history).window;
    let whole = common_prefix(history);
    lemma_window_is_recent(n, history);
    lemma_common_prefix_is_longest(history, whole);
    assert forall|i: int| 0 <= i < window.len() implies whole.is_prefix_of(#[trigger] window[i]) by {
        if history.len() <= size {
            assert(window[i] == history[i]);
        } else {
            assert(window[i] == history[history.len() - size + i]);
        }
    }
    lemma_common_prefix_is_longest(window, whole);
}

/// Over a session that takes in exactly as many hypotheses as must agree,
/// the texts handed on, laid end to end, are the text that stands
/// confirmed, and that is the common prefix of the whole history without
/// trailing whitespace.
pub proof fn lemma_first_agreement_is_on_the_history(n: nat, history: Seq<Seq<u8>>)
    requires
        history.len() == AggregatorModel::fresh(n).n,
    ensures
        session_output(n, history) == after_session(n, history).confirmed,
        after_session(n, history).confirmed == agreed_text(history),
{
    let size = AggregatorModel::fresh(n).n;
    lemma_window_fills(n, history);
    lemma_output_spells_confirmed(n, history);
    let earlier = history.drop_last();
    let before = after_session(n, earlier);
    lemma_window_fills(n, earlier);
    lemma_window_is_recent(n, history);
    assert(slid(before.window, history.last(), before.n) == after_session(n, history).window);
    assert(after_session(n, history).confirmed =~= agreed_text(history));
}

/// While a session has taken in no more hypotheses than must agree, each
/// confirmation extends the one before; and before it has taken in that
/// many, nothing is confirmed.
pub proof fn lemma_window_fills(n: nat, history: Seq<Seq<u8>>)
    requires
        history.len() <= AggregatorModel::fresh(n).n,
    ensures
        steady(n, history),
        history.len() < AggregatorModel::fresh(n).n ==> after_session(n, history).confirmed.len()
            == 0,
    decreases history.len(),
{
    if history.len() > 0 {
        let earlier = history.drop_last();
        lemma_window_fills(n, earlier);
        lemma_window_is_recent(n, earlier);
        lemma_window_is_recent(n, history);
        let before = after_session(n, earlier);
        assert(before.confirmed.len() == 0);
        assert(before.confirmed =~= Seq::<u8>::empty());
    }
}

/// Text that was handed on is never taken back: what a longer session hands
/// on begins with what the shorter one did.
pub proof fn lemma_output_is_kept(n: nat, history: Seq<Seq<u8>>, latest: Seq<u8>)
    ensures
        session_output(n, history).is_prefix_of(session_output(n, history.push(latest))),
        after_session(n, history.push(latest)).confirmed.len() >= after_session(
            n,
            history,
        ).confirmed.len(),
{
    assert(history.push(latest).drop_last() =~= history);
}

/// Confirms text on which the last `n` hypotheses agree.
pub struct StreamingAggregator {
    last_texts: VecDeque<Vec<u8>>,
    confirmed_prefix: Vec<u8>,
    n: usize,
}

impl View for StreamingAggregator {
    type V = AggregatorModel;

    closed spec fn view(&self) -> AggregatorModel {
        AggregatorModel {
            window: texts_of(self.last_texts@),
            confirmed: self.confirmed_prefix@,
            n: self.n as nat,
        }
    }
}

impl StreamingAggregator {
    /// An aggregator that asks for the agreement of `n` hypotheses, and of
    /// two where `n` is less.
    pub fn new(n: usize) -> (r: StreamingAggregator)
        ensures
            r@ == AggregatorModel::fresh(n as nat),
    {
        let n = if n < 2 { 2 } else { n };
        let r = StreamingAggregator {
            last_texts: VecDeque::new(),
            confirmed_prefix: Vec::new(),
            n,
        };
        assert(r@.window =~= Seq::<Seq<u8>>::empty());
        r
    }

    /// Takes the next hypothesis in and returns the text that it newly
    /// confirms, if any.
    pub fn push_and_confirm(&mut self, latest: &str) -> (r: Option<String>)
        ensures
            final(self)@ == old(self)@.push(latest.spec_bytes()),
            match r {
                Some(text) => old(self)@.emits(latest.spec_bytes()) == Some(text@),
                None => old(self)@.emits(latest.spec_bytes()) is None,
            },
    {
        let ghost before = self@;
        let ghost window = slid(before.window, latest.spec_bytes(), before.n);
        self.last_texts.push_back(latest.as_bytes_vec());
        assert(texts_of(self.last_texts@) =~= before.window.push(latest.spec_bytes()));
        if self.last_texts.len() > self.n {
            self.last_texts.pop_front();
        }
        assert(texts_of(self.last_texts@) =~= window);
        if self.last_texts.len() < self.n {
            return None;
        }
        let prefix = Self::longest_common_prefix(&self.last_texts);
        let text = match string_from_utf8(prefix) {
            Some(s) => s,
            None => String::new(),
        };
        let agreed = trim_end(text.as_str()).as_bytes();
        proof {
            if !valid_utf8(common_prefix(window)) {
                assert(trimmed_end(Seq::<char>::empty()) =~= Seq::<char>::empty());
                assert(encode_utf8(Seq::<char>::empty()) =~= Seq::<u8>::empty());
            }
            assert(agreed@ == agreed_text(window));
        }
        let confirmed_len = self.confirmed_prefix.len();
        if agreed.len() > confirmed_len {
            let mut tail: Vec<u8> = Vec::new();
            let mut rest: Vec<u8> = Vec::new();
            let mut i: usize = 0;
            while i < agreed.len()
                invariant
                    0 <= i <= agreed@.len(),
                    confirmed_len < agreed@.len(),
                    rest@ == agreed@.take(i as int),
                    tail@ == if i <= confirmed_len {
                        Seq::<u8>::empty()
                    } else {
                        agreed@.subrange(confirmed_len as int, i as int)
                    },
                decreases agreed@.len() - i,
            {
                rest.push(agreed[i]);
                if i >= confirmed_len {
                    tail.push(agreed[i]);
                }
                i += 1;
                assert(rest@ =~= agreed@.take(i as int));
                if i > confirmed_len {
                    assert(tail@ =~= agreed@.subrange(confirmed_len as int, i as int));
                }
            }
            assert(rest@ =~= agreed@);
            assert(tail@ =~= agreed@.skip(confirmed_len as int));
            let delta = from_utf8_lossy(tail.as_slice());
            self.confirmed_prefix = rest;
            if trim_end(delta.as_str()).is_empty() {
                None
            } else {
                Some(delta)
            }
        } else {
            None
        }
    }

    /// The longest byte sequence that every text of the window starts with.
    pub fn longest_common_prefix(texts: &VecDeque<Vec<u8>>) -> (r: Vec<u8>)
        ensures
            r@ == common_prefix(texts_of(texts@)),
    {
        let count = texts.len();
        if count == 0 {
            return Vec::new();
        }
        let ghost all = texts_of(texts@);
        let first = &texts[0];
        let mut end: usize = first.len();
        let mut row: usize = 1;
        assert(all[0] == first@);
        while row < count
            invariant
                1 <= row <= count,
                count == texts@.len(),
                all == texts_of(texts@),
                first@ == all[0],
                end <= first@.len(),
                rows_agree(all, first@, row as int, end as int),
                end == first@.len() || exists|i: int|
                    0 <= i < row && (end >= (#[trigger] all[i]).len() || all[i][end as int]
                        != first@[end as int]),
            decreases count - row,
        {
            let text = &texts[row];
            assert(all[row as int] == text@);
            let mut i: usize = 0;
            while i < end && i < text.len() && first[i] == text[i]
                invariant
                    0 <= i <= end <= first@.len(),
                    forall|c: int| 0 <= c < i ==> #[trigger] holds_at(text@, c, first@),
                decreases end - i,
            {
                i += 1;
            }
            if i < end {
                assert(i >= all[row as int].len() || all[row as int][i as int] != first@[i as int]);
            }
            assert(rows_agree(all, first@, row + 1, i as int)) by {
                assert forall|r: int, c: int| 0 <= r < row + 1 && 0 <= c < i implies #[trigger] holds_at(
                    all[r],
                    c,
                    first@,
                ) by {
                    if r == row {
                        assert(holds_at(text@, c, first@));
                    }
                }
            }
            end = i;
            row += 1;
        }
        proof {
            assert forall|c: int| 0 <= c < end implies agree_at(all, c) by {
                assert forall|i: int| 0 <= i < all.len() implies c < (#[trigger] all[i]).len()
                    && all[i][c] == all[0][c] by {
                    assert(holds_at(all[i], c, first@));
                }
            }
            lemma_agreement_end(all, 0, end as nat);
        }
        let mut out: Vec<u8> = Vec::new();
        let mut i: usize = 0;
        while i < end
            invariant
                0 <= i <= end <= first@.len(),
                out@ == first@.take(i as int),
            decreases end - i,
        {
            out.push(first[i]);
            i += 1;
            assert(out@ =~= first@.take(i as int));
        }
        out
    }

    /// The text confirmed so far.
    pub fn confirmed_prefix(&self) -> (r: String)
        ensures
            r@ == text_of(self@.confirmed),
    {
        from_utf8_lossy(self.confirmed_prefix.as_slice())
    }

    /// The number of hypotheses that must agree.
    pub fn window_size(&self) -> (r: usize)
        ensures
            r == self@.n,
    {
        self.n
    }
}

} // verus!

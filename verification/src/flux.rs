//! The transcript that a Flux stream on `/v2/listen` builds up.

use std::collections::BTreeMap;
use vstd::prelude::*;

use crate::text::{self, append_word, same_text};

#[allow(unused_imports)]
use vstd::std_specs::iter::IteratorSpec;

verus! {

/// Accumulates Flux turns into a transcript.
///
/// A Flux transcript is cumulative within a turn and starts afresh when that turn ends.
/// So the newest text for a turn supersedes the one before, and turns only accumulate.
/// Every closed turn is committed; the turn that is still open is the volatile tail.
pub struct FluxTranscript {
    turns: BTreeMap<u32, String>,
    open: Option<u32>,
}

/// What a [`FluxTranscript`] holds: the newest text of each turn by its index, and which
/// turn is open.
#[verifier::ext_equal]
pub struct FluxState {
    pub turns: Map<u32, Seq<char>>,
    pub open: Option<u32>,
}

impl View for FluxTranscript {
    type V = FluxState;

    closed spec fn view(&self) -> FluxState {
        FluxState { turns: self.turns@.map_values(|s: String| s@), open: self.open }
    }
}

/// The texts of the turns with an index below `n`, in ascending order of the index.
pub open spec fn texts_below(turns: Map<u32, Seq<char>>, n: nat) -> Seq<Seq<char>>
    decreases n,
{
    if n == 0 {
        Seq::empty()
    } else {
        let front = texts_below(turns, (n - 1) as nat);
        if turns.dom().contains((n - 1) as u32) {
            front.push(turns[(n - 1) as u32])
        } else {
            front
        }
    }
}

/// How many indices there are.
pub open spec fn index_count() -> nat {
    0x1_0000_0000
}

/// The texts of all turns, in ascending order of the index.
pub open spec fn texts_in_order(turns: Map<u32, Seq<char>>) -> Seq<Seq<char>> {
    texts_below(turns, index_count())
}

/// A frame as it comes off the stream.
pub struct FluxFrame {
    pub index: u32,
    pub transcript: Seq<char>,
    pub end_of_turn: bool,
}

/// The newest words that a run of frames has for a turn, if it has any.
pub open spec fn newest_words(frames: Seq<FluxFrame>, index: u32) -> Option<Seq<char>>
    decreases frames.len(),
{
    if frames.len() == 0 {
        None
    } else if frames.last().index == index && text::trimmed(frames.last().transcript).len() > 0 {
        Some(text::trimmed(frames.last().transcript))
    } else {
        newest_words(frames.drop_last(), index)
    }
}

impl FluxState {
    /// Nothing heard yet.
    pub open spec fn empty() -> FluxState {
        FluxState { turns: Map::empty(), open: None }
    }

    /// Every text has words in it and no white space at its ends.
    pub open spec fn wf(self) -> bool {
        forall|i: u32|
            self.turns.dom().contains(i) ==> #[trigger] self.turns[i].len() > 0
                && text::is_trimmed(self.turns[i])
    }

    /// The state after a frame for turn `index`, which ends it or leaves it open.
    pub open spec fn applied(
        self,
        index: u32,
        transcript: Seq<char>,
        end_of_turn: bool,
    ) -> FluxState {
        let words = text::trimmed(transcript);
        FluxState {
            turns: if words.len() > 0 {
                self.turns.insert(index, words)
            } else {
                self.turns
            },
            open: if end_of_turn {
                None
            } else {
                Some(index)
            },
        }
    }

    /// The state after a run of frames.
    pub open spec fn applied_all(self, frames: Seq<FluxFrame>) -> FluxState
        decreases frames.len(),
    {
        if frames.len() == 0 {
            self
        } else {
            self.applied_all(frames.drop_last()).applied(
                frames.last().index,
                frames.last().transcript,
                frames.last().end_of_turn,
            )
        }
    }

    /// The turns that are not open.
    pub open spec fn closed_turns(self) -> Map<u32, Seq<char>> {
        match self.open {
            Some(index) => self.turns.remove(index),
            None => self.turns,
        }
    }

    /// The closed turns as one text, by index.
    pub open spec fn committed_text(self) -> Seq<char> {
        text::joined(texts_in_order(self.closed_turns()))
    }

    /// The text of the open turn.
    pub open spec fn tentative_text(self) -> Seq<char> {
        match self.open {
            Some(index) => if self.turns.dom().contains(index) {
                self.turns[index]
            } else {
                Seq::empty()
            },
            None => Seq::empty(),
        }
    }

    /// All turns as one text, by index.
    pub open spec fn display_text(self) -> Seq<char> {
        text::trimmed(text::joined(texts_in_order(self.turns)))
    }
}

/// Indices between two neighbours add no text.
proof fn lemma_texts_below_gap(turns: Map<u32, Seq<char>>, low: nat, high: nat)
    requires
        low <= high <= index_count(),
        forall|i: u32| low <= i < high ==> !#[trigger] turns.dom().contains(i),
    ensures
        texts_below(turns, high) == texts_below(turns, low),
    decreases high - low,
{
    if low < high {
        lemma_texts_below_gap(turns, low, (high - 1) as nat);
    }
}

/// The texts below `n` depend only on the turns below `n`.
proof fn lemma_texts_below_agree(a: Map<u32, Seq<char>>, b: Map<u32, Seq<char>>, n: nat)
    requires
        n <= index_count(),
        forall|i: u32|
            i < n ==> (#[trigger] a.dom().contains(i) <==> b.dom().contains(i)) && (
            a.dom().contains(i) ==> a[i] == b[i]),
    ensures
        texts_below(a, n) == texts_below(b, n),
    decreases n,
{
    if n > 0 {
        lemma_texts_below_agree(a, b, (n - 1) as nat);
        let last = (n - 1) as u32;
        assert(a.dom().contains(last) <==> b.dom().contains(last));
    }
}

/// Each text below `n` is the text of some turn.
proof fn lemma_texts_below_are_turns(turns: Map<u32, Seq<char>>, n: nat, k: int)
    requires
        n <= index_count(),
        0 <= k < texts_below(turns, n).len(),
    ensures
        exists|i: u32| #[trigger] turns.dom().contains(i) && turns[i] == texts_below(turns, n)[k],
    decreases n,
{
    let front = texts_below(turns, (n - 1) as nat);
    if k < front.len() {
        lemma_texts_below_are_turns(turns, (n - 1) as nat, k);
    } else {
        assert(turns.dom().contains((n - 1) as u32));
    }
}

/// The order in which a map hands out its keys.
proof fn lemma_keys_increase(keys: Seq<u32>)
    requires
        vstd::std_specs::btree::increasing_seq(keys),
    ensures
        forall|i: int, j: int| 0 <= i < j < keys.len() ==> keys[i] < keys[j],
{
    assert forall|i: int, j: int| 0 <= i < j < keys.len() implies keys[i] < keys[j] by {
        assert(vstd::std_specs::cmp::OrdSpec::cmp_spec(&keys[i], &keys[j]) is Less);
    }
}

impl Default for FluxTranscript {
    fn default() -> (r: FluxTranscript)
        ensures
            r@ == FluxState::empty(),
            r@.wf(),
    {
        let r = FluxTranscript { turns: BTreeMap::new(), open: None };
        assert(r@ =~= FluxState::empty());
        r
    }
}

impl FluxTranscript {
    /// Takes in a frame. Returns whether anything changed, and the caller should show an
    /// update.
    pub fn apply(&mut self, index: u32, transcript: &str, end_of_turn: bool) -> (changed: bool)
        ensures
            final(self)@ == old(self)@.applied(index, transcript@, end_of_turn),
            changed == (final(self)@ != old(self)@),
            old(self)@.wf() ==> final(self)@.wf(),
    {
        let words = transcript.trim();
        let mut changed = false;
        proof {
            text::lemma_trimmed_is_trimmed(transcript@);
        }
        let ghost before = self@;

        // A frame without words (a turn that starts, or silence that ends one) must not
        // erase the text that is held for that turn.
        let known = match self.turns.get(&index) {
            Some(held) => same_text(held.as_str(), words),
            None => false,
        };
        assert(known ==> before.turns.insert(index, words@) =~= before.turns);
        if !words.is_empty() && !known {
            self.turns.insert(index, words.to_string());
            assert(self@.turns =~= before.turns.insert(index, words@));
            assert(self@.turns[index] == words@);
            assert(!(before.turns.dom().contains(index) && before.turns[index] == words@));
            assert(self@.turns.dom().contains(index));
            changed = true;
        }
        assert(changed ==> self@.turns != before.turns);

        let open = if end_of_turn {
            None
        } else {
            Some(index)
        };
        if self.open != open {
            self.open = open;
            changed = true;
        }
        assert(self@ =~= before.applied(index, transcript@, end_of_turn));
        changed
    }

    /// The closed turns so far, as one text.
    pub fn committed(&self) -> (r: String)
        ensures
            r@ == self@.committed_text(),
    {
        self.join_turns(self.open)
    }

    /// The text of the turn that is still open.
    pub fn tentative(&self) -> (r: String)
        ensures
            r@ == self@.tentative_text(),
    {
        match self.open {
            Some(index) => match self.turns.get(&index) {
                Some(held) => held.as_str().to_string(),
                None => String::new(),
            },
            None => String::new(),
        }
    }

    /// The whole transcript so far.
    pub fn display(&self) -> (r: String)
        ensures
            r@ == self@.display_text(),
    {
        self.join_turns(None).as_str().trim().to_string()
    }

    /// All turns but `skipped`, by index, as one text.
    fn join_turns(&self, skipped: Option<u32>) -> (r: String)
        ensures
            r@ == text::joined(
                texts_in_order(
                    match skipped {
                        Some(index) => self@.turns.remove(index),
                        None => self@.turns,
                    },
                ),
            ),
    {
        let ghost kept = match skipped {
            Some(index) => self@.turns.remove(index),
            None => self@.turns,
        };
        let mut out = String::new();
        let mut spaced = false;
        let ghost mut below: nat = 0;
        let iter = self.turns.iter();
        proof {
            let keys = iter.remaining().map_values(|entry: (&u32, &String)| *entry.0);
            lemma_keys_increase(keys);
            assert forall|i: int, j: int| 0 <= i < j < iter.remaining().len() implies *(
            #[trigger] iter.remaining()[i]).0 < *(#[trigger] iter.remaining()[j]).0 by {
                assert(keys[i] < keys[j]);
            }
        }
        for entry in entries: iter
            invariant
                below <= index_count(),
                out@ == text::joined(texts_below(kept, below)),
                spaced == (texts_below(kept, below).len() > 0),
                kept == (match skipped {
                    Some(index) => self@.turns.remove(index),
                    None => self@.turns,
                }),
                entries.index() == 0 ==> below == 0,
                entries.index() > 0 ==> below == *entries.seq()[entries.index() - 1].0 + 1,
                forall|i: int, j: int|
                    0 <= i < j < entries.seq().len() ==> *(#[trigger] entries.seq()[i]).0
                        < *(#[trigger] entries.seq()[j]).0,
                forall|i: int|
                    0 <= i < entries.seq().len() ==> self.turns@.contains_key(
                        *(#[trigger] entries.seq()[i]).0,
                    ) && self.turns@[*entries.seq()[i].0] == *entries.seq()[i].1,
                forall|k: u32| #[trigger]
                    self.turns@.contains_key(k) ==> exists|i: int|
                        0 <= i < entries.seq().len() && *(#[trigger] entries.seq()[i]).0 == k,
        {
            let (index, held) = entry;
            let keep = match skipped {
                Some(skip) => *index != skip,
                None => true,
            };
            if keep {
                append_word(&mut out, spaced, held.as_str());
                spaced = true;
            }
            proof {
                let at = entries.index();
                assert(entries.seq()[at].0 == index);
                lemma_texts_below_gap(kept, below, *index as nat);
                text::lemma_joined_push(texts_below(kept, below), held@);
                below = *index as nat + 1;
            }
        }
        proof {
            lemma_texts_below_gap(kept, below, index_count());
        }
        out
    }
}

/// Whatever frames come, the texts that are held stay well formed.
pub proof fn law_states_stay_well_formed(state: FluxState, frames: Seq<FluxFrame>)
    requires
        state.wf(),
    ensures
        state.applied_all(frames).wf(),
    decreases frames.len(),
{
    if frames.len() > 0 {
        law_states_stay_well_formed(state, frames.drop_last());
        text::lemma_trimmed_is_trimmed(frames.last().transcript);
    }
}

/// After a run of frames, each turn that the run has words for holds the newest of them,
/// and every other turn is as it was.
pub proof fn law_turns_hold_their_newest_words(
    state: FluxState,
    frames: Seq<FluxFrame>,
    index: u32,
)
    ensures
        match newest_words(frames, index) {
            Some(words) => {
                &&& state.applied_all(frames).turns.dom().contains(index)
                &&& state.applied_all(frames).turns[index] == words
            },
            None => {
                &&& state.applied_all(frames).turns.dom().contains(index)
                    == state.turns.dom().contains(index)
                &&& state.applied_all(frames).turns[index] == state.turns[index]
            },
        },
    decreases frames.len(),
{
    if frames.len() > 0 {
        law_turns_hold_their_newest_words(state, frames.drop_last(), index);
    }
}

/// Within a turn the newer text supersedes the older one.
pub proof fn law_newer_text_supersedes(
    state: FluxState,
    index: u32,
    older: Seq<char>,
    ended: bool,
    newer: Seq<char>,
    end_of_turn: bool,
)
    requires
        text::trimmed(newer).len() > 0,
    ensures
        state.applied(index, older, ended).applied(index, newer, end_of_turn) == state.applied(
            index,
            newer,
            end_of_turn,
        ),
{
    assert(state.applied(index, older, ended).applied(index, newer, end_of_turn)
        =~= state.applied(index, newer, end_of_turn));
}

/// A frame without words erases nothing.
pub proof fn law_empty_frames_erase_nothing(
    state: FluxState,
    index: u32,
    transcript: Seq<char>,
    end_of_turn: bool,
)
    requires
        text::trimmed(transcript).len() == 0,
    ensures
        state.applied(index, transcript, end_of_turn).turns == state.turns,
        state.applied(index, transcript, end_of_turn).display_text() == state.display_text(),
{
}

/// The same frame again changes nothing.
pub proof fn law_repeats_change_nothing(
    state: FluxState,
    index: u32,
    transcript: Seq<char>,
    end_of_turn: bool,
)
    ensures
        state.applied(index, transcript, end_of_turn).applied(index, transcript, end_of_turn)
            == state.applied(index, transcript, end_of_turn),
{
    assert(state.applied(index, transcript, end_of_turn).applied(index, transcript, end_of_turn)
        =~= state.applied(index, transcript, end_of_turn));
}

/// Turns are ordered by their index: in which order the frames of two turns arrive makes
/// no difference to what is shown.
pub proof fn law_arrival_order_is_irrelevant(
    state: FluxState,
    i: u32,
    first: Seq<char>,
    first_ends: bool,
    j: u32,
    second: Seq<char>,
    second_ends: bool,
)
    requires
        i != j,
    ensures
        state.applied(i, first, first_ends).applied(j, second, second_ends).turns
            == state.applied(j, second, second_ends).applied(i, first, first_ends).turns,
        state.applied(i, first, first_ends).applied(j, second, second_ends).display_text()
            == state.applied(j, second, second_ends).applied(i, first, first_ends).display_text(),
{
    assert(state.applied(i, first, first_ends).applied(j, second, second_ends).turns
        =~= state.applied(j, second, second_ends).applied(i, first, first_ends).turns);
}

/// Trimming what is shown cuts nothing off.
pub proof fn law_display_is_all_turns(state: FluxState)
    requires
        state.wf(),
    ensures
        state.display_text() == text::joined(texts_in_order(state.turns)),
{
    let parts = texts_in_order(state.turns);
    assert forall|k: int| 0 <= k < parts.len() implies #[trigger] parts[k].len() > 0
        && text::is_trimmed(parts[k]) by {
        lemma_texts_below_are_turns(state.turns, index_count(), k);
    }
    text::lemma_joined_is_trimmed(parts);
    text::lemma_trimmed_keeps_trimmed(text::joined(parts));
}

/// When a turn ends, everything is committed and there is no tail.
pub proof fn law_end_of_turn_commits(state: FluxState, index: u32, transcript: Seq<char>)
    requires
        state.wf(),
    ensures
        state.applied(index, transcript, true).committed_text() == state.applied(
            index,
            transcript,
            true,
        ).display_text(),
        state.applied(index, transcript, true).tentative_text() == Seq::<char>::empty(),
{
    let next = state.applied(index, transcript, true);
    text::lemma_trimmed_is_trimmed(transcript);
    assert(next.wf());
    law_display_is_all_turns(next);
}

/// While the newest turn is open, what is shown is the closed turns and then the open
/// one.
pub proof fn law_display_is_committed_then_tail(state: FluxState, index: u32)
    requires
        state.wf(),
        state.open == Some(index),
        forall|i: u32| #[trigger] state.turns.dom().contains(i) ==> i <= index,
    ensures
        state.display_text() == text::after_space(
            state.committed_text(),
            state.committed_text().len() > 0 && state.tentative_text().len() > 0,
            state.tentative_text(),
        ),
{
    let at = index as nat;
    let closed = state.closed_turns();
    law_display_is_all_turns(state);
    lemma_texts_below_agree(state.turns, closed, at);
    lemma_texts_below_gap(state.turns, at + 1, index_count());
    lemma_texts_below_gap(closed, at, index_count());
    let front = texts_in_order(closed);
    assert forall|k: int| 0 <= k < front.len() implies #[trigger] front[k].len() > 0
        && text::is_trimmed(front[k]) by {
        lemma_texts_below_are_turns(closed, index_count(), k);
        let i = choose|i: u32| #[trigger]
            closed.dom().contains(i) && closed[i] == front[k];
        assert(state.turns.dom().contains(i) && state.turns[i] == closed[i]);
    }
    text::lemma_joined_is_trimmed(front);
    if state.turns.dom().contains(index) {
        assert(state.turns[index].len() > 0);
        assert(texts_in_order(state.turns) == front.push(state.turns[index]));
        text::lemma_joined_push(front, state.turns[index]);
    } else {
        assert(texts_in_order(state.turns) == front);
        assert(state.committed_text() + state.tentative_text() =~= state.committed_text());
    }
}

/// Silence is an empty transcript.
pub proof fn law_silence_shows_nothing()
    ensures
        FluxState::empty().display_text() == Seq::<char>::empty(),
{
    law_display_is_all_turns(FluxState::empty());
    lemma_texts_below_gap(Map::empty(), 0, index_count());
}

/// A frame bears on the turn that it names and on no other: that turn holds the words of
/// the frame if it has any, and every other turn, and this one if there are none, is as it
/// was. The turn is open from then on unless the frame ends it.
pub proof fn law_frames_bear_on_their_own_turn(
    state: FluxState,
    index: u32,
    lead: Seq<char>,
    words: Seq<char>,
    tail: Seq<char>,
    end_of_turn: bool,
    other: u32,
)
    requires
        text::is_blank(lead),
        text::is_blank(tail),
        text::is_trimmed(words),
        other != index,
    ensures
        ({
            let next = state.applied(index, lead + words + tail, end_of_turn);
            &&& next.turns.dom().contains(other) == state.turns.dom().contains(other)
            &&& next.turns[other] == state.turns[other]
            &&& if words.len() > 0 {
                next.turns.dom().contains(index) && next.turns[index] == words
            } else {
                next.turns.dom().contains(index) == state.turns.dom().contains(index)
                    && next.turns[index] == state.turns[index]
            }
            &&& next.open == if end_of_turn {
                None
            } else {
                Some(index)
            }
        }),
{
    text::law_trimming_drops_padding(lead, words, tail);
}

/// The texts below `n` are those of the turns below `n`, by ascending index.
proof fn lemma_texts_below_indices(turns: Map<u32, Seq<char>>, n: nat) -> (indices: Seq<u32>)
    requires
        n <= index_count(),
    ensures
        texts_below(turns, n) == Seq::new(indices.len(), |k: int| turns[indices[k]]),
        forall|k: int, l: int| 0 <= k < l < indices.len() ==> indices[k] < indices[l],
        forall|i: u32| #[trigger] indices.contains(i) <==> i < n && turns.dom().contains(i),
    decreases n,
{
    if n == 0 {
        assert(texts_below(turns, n) =~= Seq::new(0, |k: int| turns[Seq::<u32>::empty()[k]]));
        Seq::empty()
    } else {
        let last = (n - 1) as u32;
        let before = lemma_texts_below_indices(turns, (n - 1) as nat);
        if turns.dom().contains(last) {
            let indices = before.push(last);
            assert(texts_below(turns, n) =~= Seq::new(indices.len(), |k: int| turns[indices[k]]));
            assert forall|k: int, l: int| 0 <= k < l < indices.len() implies indices[k]
                < indices[l] by {
                if l == before.len() {
                    assert(before.contains(before[k]));
                }
            }
            assert forall|i: u32| #[trigger] indices.contains(i) <==> i < n && turns.dom().contains(
                i,
            ) by {
                if indices.contains(i) {
                    let k = choose|k: int| 0 <= k < indices.len() && indices[k] == i;
                    if k < before.len() {
                        assert(before[k] == i);
                        assert(before.contains(i));
                    }
                }
                if i < n && turns.dom().contains(i) {
                    if i < last {
                        assert(before.contains(i));
                        let k = choose|k: int| 0 <= k < before.len() && before[k] == i;
                        assert(indices[k] == i);
                    } else {
                        assert(indices[before.len() as int] == i);
                    }
                }
            }
            indices
        } else {
            assert forall|i: u32| #[trigger] before.contains(i) <==> i < n && turns.dom().contains(
                i,
            ) by {}
            before
        }
    }
}

/// What is shown is the text of every turn, by ascending index, each once, with single
/// spaces between them.
pub proof fn law_every_turn_is_shown(state: FluxState) -> (indices: Seq<u32>)
    requires
        state.wf(),
    ensures
        forall|i: u32| #[trigger] indices.contains(i) <==> state.turns.dom().contains(i),
        forall|k: int, l: int| 0 <= k < l < indices.len() ==> indices[k] < indices[l],
        state.display_text() == text::joined(
            Seq::new(indices.len(), |k: int| state.turns[indices[k]]),
        ),
{
    law_display_is_all_turns(state);
    lemma_texts_below_indices(state.turns, index_count())
}

/// What is committed is the text of every turn but the open one, by ascending index, each
/// once, with single spaces between them; the tail is the text of the open turn.
pub proof fn law_all_but_the_open_turn_are_committed(state: FluxState) -> (indices: Seq<u32>)
    ensures
        forall|i: u32| #[trigger]
            indices.contains(i) <==> state.turns.dom().contains(i) && state.open != Some(i),
        forall|k: int, l: int| 0 <= k < l < indices.len() ==> indices[k] < indices[l],
        state.committed_text() == text::joined(
            Seq::new(indices.len(), |k: int| state.turns[indices[k]]),
        ),
        match state.open {
            Some(i) => state.tentative_text() == if state.turns.dom().contains(i) {
                state.turns[i]
            } else {
                Seq::empty()
            },
            None => state.tentative_text() == Seq::<char>::empty(),
        },
{
    let closed = state.closed_turns();
    let indices = lemma_texts_below_indices(closed, index_count());
    assert forall|i: u32| #[trigger] indices.contains(i) <==> state.turns.dom().contains(i)
        && state.open != Some(i) by {}
    assert forall|k: int| 0 <= k < indices.len() implies closed[#[trigger] indices[k]]
        == state.turns[indices[k]] by {
        assert(indices.contains(indices[k]));
    }
    assert(Seq::new(indices.len(), |k: int| closed[indices[k]]) =~= Seq::new(
        indices.len(),
        |k: int| state.turns[indices[k]],
    ));
    indices
}

/// At first there is no turn, and none is open.
pub proof fn law_no_turn_at_first(index: u32)
    ensures
        !FluxState::empty().turns.dom().contains(index),
        FluxState::empty().open is None,
{
}

} // verus!

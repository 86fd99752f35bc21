//! The transcript that the `/v1/listen` stream builds up.

use vstd::prelude::*;

use crate::text::{self, append_word, join_words, same_text};

verus! {

/// Accumulates Deepgram's interim and final results into a transcript.
///
/// The stream sends interim hypotheses for the utterance at hand and then one final
/// result that supersedes them all. So finals append to a committed prefix, and interims
/// only ever replace the volatile tail.
pub struct LiveTranscript {
    pub committed: Vec<String>,
    pub tentative: String,
}

/// What a [`LiveTranscript`] holds: the final results in order, and the tail.
#[verifier::ext_equal]
pub struct LiveState {
    pub committed: Seq<Seq<char>>,
    pub tentative: Seq<char>,
}

impl View for LiveTranscript {
    type V = LiveState;

    open spec fn view(&self) -> LiveState {
        LiveState { committed: text::texts(self.committed@), tentative: self.tentative@ }
    }
}

/// A result as it comes off the stream.
pub struct LiveResult {
    pub transcript: Seq<char>,
    pub is_final: bool,
}

impl LiveState {
    /// Nothing heard yet.
    pub open spec fn empty() -> LiveState {
        LiveState { committed: Seq::empty(), tentative: Seq::empty() }
    }

    /// Every committed text has words in it and no white space at its ends, and so has
    /// the tail, which may be empty.
    pub open spec fn wf(self) -> bool {
        &&& forall|i: int|
            0 <= i < self.committed.len() ==> #[trigger] self.committed[i].len() > 0
                && text::is_trimmed(self.committed[i])
        &&& text::is_trimmed(self.tentative)
    }

    /// The state after a result.
    pub open spec fn applied(self, transcript: Seq<char>, is_final: bool) -> LiveState {
        let words = text::trimmed(transcript);
        if !is_final {
            LiveState { committed: self.committed, tentative: words }
        } else if words.len() == 0 {
            LiveState { committed: self.committed, tentative: Seq::empty() }
        } else {
            LiveState { committed: self.committed.push(words), tentative: Seq::empty() }
        }
    }

    /// The state after a run of results.
    pub open spec fn applied_all(self, results: Seq<LiveResult>) -> LiveState
        decreases results.len(),
    {
        if results.len() == 0 {
            self
        } else {
            self.applied_all(results.drop_last()).applied(
                results.last().transcript,
                results.last().is_final,
            )
        }
    }

    /// The committed texts as one.
    pub open spec fn committed_text(self) -> Seq<char> {
        text::joined(self.committed)
    }

    /// The committed texts and the tail as one.
    pub open spec fn display_text(self) -> Seq<char> {
        let front = self.committed_text();
        text::trimmed(
            text::after_space(
                front,
                front.len() > 0 && self.tentative.len() > 0,
                self.tentative,
            ),
        )
    }
}

/// What the final results of a run say, in order, without those that say nothing.
pub open spec fn finals(results: Seq<LiveResult>) -> Seq<Seq<char>>
    decreases results.len(),
{
    if results.len() == 0 {
        Seq::empty()
    } else {
        let last = results.last();
        let words = text::trimmed(last.transcript);
        if last.is_final && words.len() > 0 {
            finals(results.drop_last()).push(words)
        } else {
            finals(results.drop_last())
        }
    }
}

impl Default for LiveTranscript {
    fn default() -> (r: LiveTranscript)
        ensures
            r@ == LiveState::empty(),
            r@.wf(),
    {
        let r = LiveTranscript { committed: Vec::new(), tentative: String::new() };
        assert(r@ =~= LiveState::empty());
        r
    }
}

impl LiveTranscript {
    /// Takes in a result. Returns whether anything changed, and the caller should show an
    /// update.
    pub fn apply(&mut self, transcript: &str, is_final: bool) -> (changed: bool)
        ensures
            final(self)@ == old(self)@.applied(transcript@, is_final),
            changed == (final(self)@ != old(self)@),
            old(self)@.wf() ==> final(self)@.wf(),
    {
        let words = transcript.trim();
        proof {
            text::lemma_trimmed_is_trimmed(transcript@);
        }
        let ghost before = self@;
        if is_final {
            // A final result without words is Deepgram closing out silence: it still
            // clears the tail.
            let had_tentative = !self.tentative.as_str().is_empty();
            self.tentative = String::new();
            assert(!had_tentative ==> before.tentative =~= Seq::empty());
            if words.is_empty() {
                return had_tentative;
            }
            self.committed.push(words.to_string());
            proof {
                assert(self@.committed =~= before.committed.push(words@));
                assert(self@.committed.len() != before.committed.len());
                assert(before.wf() ==> self@.wf());
            }
            true
        } else {
            if same_text(self.tentative.as_str(), words) {
                assert(self@ =~= before.applied(transcript@, is_final));
                return false;
            }
            self.tentative = words.to_string();
            true
        }
    }

    /// The final results so far, as one text.
    pub fn committed(&self) -> (r: String)
        ensures
            r@ == self@.committed_text(),
    {
        join_words(&self.committed)
    }

    /// The whole transcript so far: the final results, and the tail behind them.
    pub fn display(&self) -> (r: String)
        ensures
            r@ == self@.display_text(),
    {
        let mut out = self.committed();
        let spaced = !out.as_str().is_empty() && !self.tentative.as_str().is_empty();
        append_word(&mut out, spaced, self.tentative.as_str());
        out.as_str().trim().to_string()
    }
}

/// Whatever results come, the texts that are held stay well formed.
pub proof fn law_states_stay_well_formed(state: LiveState, results: Seq<LiveResult>)
    requires
        state.wf(),
    ensures
        state.applied_all(results).wf(),
    decreases results.len(),
{
    if results.len() > 0 {
        law_states_stay_well_formed(state, results.drop_last());
        text::lemma_trimmed_is_trimmed(results.last().transcript);
    }
}

/// The next result supersedes an interim one, whatever that one said.
pub proof fn law_interims_are_superseded(
    state: LiveState,
    interim: Seq<char>,
    transcript: Seq<char>,
    is_final: bool,
)
    ensures
        state.applied(interim, false).applied(transcript, is_final) == state.applied(
            transcript,
            is_final,
        ),
{
}

/// The committed texts are the final results with words in them, in order of arrival:
/// no interim leaves a trace there, and nothing committed is lost or changed.
pub proof fn law_committed_is_the_finals(state: LiveState, results: Seq<LiveResult>)
    ensures
        state.applied_all(results).committed == state.committed + finals(results),
    decreases results.len(),
{
    if results.len() == 0 {
        assert(state.committed + finals(results) =~= state.committed);
    } else {
        law_committed_is_the_finals(state, results.drop_last());
        assert(state.applied_all(results).committed =~= state.committed + finals(results));
    }
}

/// A final result always clears the tail, even one without words.
pub proof fn law_finals_clear_the_tail(state: LiveState, transcript: Seq<char>)
    ensures
        state.applied(transcript, true).tentative == Seq::<char>::empty(),
        text::trimmed(transcript).len() == 0 ==> state.applied(transcript, true).committed
            == state.committed,
{
}

/// Taking in the same interim again, or a second final result without words, changes
/// nothing.
pub proof fn law_repeats_change_nothing(state: LiveState, transcript: Seq<char>, is_final: bool)
    requires
        is_final ==> text::trimmed(transcript).len() == 0,
    ensures
        state.applied(transcript, is_final).applied(transcript, is_final) == state.applied(
            transcript,
            is_final,
        ),
{
}

/// What is shown is the committed texts and then the tail, with single spaces between
/// them and nothing cut off.
pub proof fn law_display_is_committed_then_tail(state: LiveState)
    requires
        state.wf(),
    ensures
        state.display_text() == text::joined(
            if state.tentative.len() > 0 {
                state.committed.push(state.tentative)
            } else {
                state.committed
            },
        ),
{
    let parts = if state.tentative.len() > 0 {
        state.committed.push(state.tentative)
    } else {
        state.committed
    };
    assert forall|i: int| 0 <= i < parts.len() implies #[trigger] parts[i].len() > 0
        && text::is_trimmed(parts[i]) by {
        if i < state.committed.len() {
            assert(parts[i] == state.committed[i]);
        }
    }
    text::lemma_joined_is_trimmed(parts);
    text::lemma_trimmed_keeps_trimmed(text::joined(parts));
    text::lemma_joined_is_trimmed(state.committed);
    if state.tentative.len() > 0 {
        text::lemma_joined_push(state.committed, state.tentative);
    } else {
        assert(text::joined(state.committed) + state.tentative =~= text::joined(state.committed));
    }
}

/// Silence is an empty transcript.
pub proof fn law_silence_shows_nothing()
    ensures
        LiveState::empty().display_text() == Seq::<char>::empty(),
{
    law_display_is_committed_then_tail(LiveState::empty());
}

/// A final result with words in it is put behind those that are committed, whatever it says
/// and however long it is, and clears the tail; one without words only clears the tail. An
/// interim becomes the tail and leaves what is committed alone. White space around either
/// counts for nothing.
pub proof fn law_results_are_taken_in(
    state: LiveState,
    lead: Seq<char>,
    words: Seq<char>,
    tail: Seq<char>,
)
    requires
        text::is_blank(lead),
        text::is_blank(tail),
        text::is_trimmed(words),
    ensures
        state.applied(lead + words + tail, true).committed == if words.len() > 0 {
            state.committed.push(words)
        } else {
            state.committed
        },
        state.applied(lead + words + tail, true).tentative == Seq::<char>::empty(),
        state.applied(lead + words + tail, false).committed == state.committed,
        state.applied(lead + words + tail, false).tentative == words,
{
    text::law_trimming_drops_padding(lead, words, tail);
}

/// The committed texts read as one are those texts with single spaces between them, and
/// what is shown has the tail behind that.
pub proof fn law_texts_are_read_in_order(state: LiveState)
    ensures
        state.committed_text() == text::joined(state.committed),
        state.committed_text().len() == 0 ==> state.display_text() == text::trimmed(
            state.tentative,
        ),
        state.tentative.len() == 0 ==> state.display_text() == text::trimmed(
            text::joined(state.committed),
        ),
        state.committed_text().len() > 0 && state.tentative.len() > 0 ==> state.display_text()
            == text::trimmed(text::joined(state.committed) + seq![' '] + state.tentative),
        LiveState::empty().committed.len() == 0,
        LiveState::empty().tentative.len() == 0,
{
    if state.committed_text().len() == 0 {
        assert(state.committed_text() + state.tentative =~= state.tentative);
    }
    if state.tentative.len() == 0 {
        assert(state.committed_text() + state.tentative =~= state.committed_text());
    }
}

/// What a transcript holds is read off its fields as they stand.
pub proof fn law_fields_are_read_as_they_stand(transcript: LiveTranscript, i: int)
    requires
        0 <= i < transcript.committed@.len(),
    ensures
        transcript@.committed.len() == transcript.committed@.len(),
        transcript@.committed[i] == transcript.committed@[i]@,
        transcript@.tentative == transcript.tentative@,
{
}

} // verus!

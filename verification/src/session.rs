//! Transcribing while the user speaks: what a live session does about each thing that
//! happens to it.
//!
//! The socket and the channels belong to the caller, who tells the session what happened
//! and does what the session asks for in return.

use vstd::prelude::*;

use crate::error::{ErrorOf, SttError};
use crate::flux::{self, FluxFrame, FluxState, FluxTranscript};
use crate::frames::{self, equals, or_nothing, DeepgramLiveMessage, FluxLiveMessage};
use crate::live::{self, LiveResult, LiveState, LiveTranscript};
use crate::stream::{self, FinalReport};
use crate::text;

verus! {

/// The frame that asks Deepgram to flush its results.
pub const CLOSE_FRAME: &'static str = "{\"type\":\"CloseStream\"}";

/// What the owner of a stream wants of it.
pub enum WsCmd {
    /// Send this audio.
    Audio(Vec<u8>),
    /// Ask Deepgram to flush.
    Close,
}

/// What can happen to a session.
pub enum WsEvent {
    /// A text frame came, on a Flux stream.
    Flux { payload: String, info: FluxLiveMessage },
    /// A text frame came, on a `/v1` stream.
    Live { payload: String, msg: DeepgramLiveMessage },
    /// A text frame came that could not be read.
    Unreadable,
    /// A frame came that is neither text nor the end.
    Other,
    /// The socket was closed.
    Closed,
    /// The socket failed.
    Failed(String),
    /// The owner wants something.
    Command(WsCmd),
    /// The owner is gone: the recording was cancelled.
    Cancelled,
    /// Audio was not sent.
    AudioNotSent(String),
    /// The request to flush was sent.
    CloseSent,
    /// The request to flush was not sent.
    CloseNotSent(String),
}

/// What to do next.
pub enum Next {
    /// Wait for the next event.
    Wait,
    /// Send this audio.
    SendAudio(Vec<u8>),
    /// Send this text, and then report whether it was sent.
    SendText(String),
    /// Close the socket: the session is over.
    Finish,
}

/// The transcript as it is to be shown: the finalized part, and the volatile tail.
pub struct Update {
    pub committed: String,
    pub tentative: String,
}

/// What a session asks for: to show the transcript if it changed, and then what comes
/// next.
pub struct Step {
    pub update: Option<Update>,
    pub next: Next,
}

/// What [`Next`] says.
pub enum NextView {
    Wait,
    SendAudio(Seq<u8>),
    SendText(Seq<char>),
    Finish,
}

/// What [`Step`] says, the two parts of an update as a pair.
pub struct StepView {
    pub update: Option<(Seq<char>, Seq<char>)>,
    pub next: NextView,
}

impl View for Next {
    type V = NextView;

    open spec fn view(&self) -> NextView {
        match *self {
            Next::Wait => NextView::Wait,
            Next::SendAudio(bytes) => NextView::SendAudio(bytes@),
            Next::SendText(text) => NextView::SendText(text@),
            Next::Finish => NextView::Finish,
        }
    }
}

impl View for Step {
    type V = StepView;

    open spec fn view(&self) -> StepView {
        StepView {
            update: match self.update {
                Some(update) => Some((update.committed@, update.tentative@)),
                None => None,
            },
            next: self.next@,
        }
    }
}

/// A live session.
pub struct WsSession {
    flux: bool,
    live: LiveTranscript,
    turns: FluxTranscript,
    closing: bool,
    pending_audio: bool,
    failure: Option<SttError>,
}

/// What a session knows.
pub struct SessionState {
    /// Whether the stream speaks Flux.
    pub flux: bool,
    /// The transcript of a `/v1` stream.
    pub live: LiveState,
    /// The transcript of a Flux stream.
    pub turns: FluxState,
    /// Whether the session was asked to flush: from then on it only drains replies.
    pub closing: bool,
    /// Whether audio was sent that no end of a turn has covered yet, so that there is
    /// still a tail for the server to transcribe.
    pub pending_audio: bool,
    /// The error that ended the session.
    pub failure: Option<ErrorOf<Seq<char>>>,
}

impl View for WsSession {
    type V = SessionState;

    closed spec fn view(&self) -> SessionState {
        SessionState {
            flux: self.flux,
            live: self.live@,
            turns: self.turns@,
            closing: self.closing,
            pending_audio: self.pending_audio,
            failure: match self.failure {
                Some(error) => Some(error@),
                None => None,
            },
        }
    }
}

/// Whether a frame is an `Error` frame.
pub open spec fn is_flux_error(info: FluxLiveMessage) -> bool {
    frames::is_text(info.msg_type, "Error"@)
}

/// What an `Error` frame of a Flux stream says: its description, or else its code, or else
/// the frame as it came.
pub open spec fn flux_error_text(payload: Seq<char>, info: FluxLiveMessage) -> Seq<char> {
    match (info.description, info.code) {
        (Some(description), _) => description@,
        (None, Some(code)) => code@,
        (None, None) => payload,
    }
}

/// Whether a frame tells of a turn.
pub open spec fn is_turn_info(info: FluxLiveMessage) -> bool {
    frames::is_text(info.msg_type, "TurnInfo"@)
}

/// Whether a frame ends its turn.
pub open spec fn ends_turn(info: FluxLiveMessage) -> bool {
    frames::is_text(info.event, "EndOfTurn"@)
}

/// What a frame says of its turn.
pub open spec fn turn_frame(info: FluxLiveMessage) -> FluxFrame {
    FluxFrame {
        index: match info.turn_index {
            Some(index) => index,
            None => 0,
        },
        transcript: frames::text_or_nothing(info.transcript),
        end_of_turn: ends_turn(info),
    }
}

/// Whether a frame is an `Error` frame.
pub open spec fn is_live_error(msg: DeepgramLiveMessage) -> bool {
    frames::is_text(msg.msg_type, "Error"@)
}

/// What an `Error` frame of a `/v1` stream says: its description, or else the frame as it
/// came.
pub open spec fn live_error_text(payload: Seq<char>, msg: DeepgramLiveMessage) -> Seq<char> {
    match msg.description {
        Some(description) => description@,
        None => payload,
    }
}

/// Whether a frame is the last one after a request to flush.
pub open spec fn is_metadata(msg: DeepgramLiveMessage) -> bool {
    frames::is_text(msg.msg_type, "Metadata"@)
}

/// What a frame has for the transcript.
pub open spec fn live_result(msg: DeepgramLiveMessage) -> LiveResult {
    LiveResult {
        transcript: match msg.channel {
            Some(channel) => frames::channel_text(channel),
            None => Seq::empty(),
        },
        is_final: msg.is_final,
    }
}

/// What to ask for where there is nothing to show.
pub open spec fn quiet(next: NextView) -> StepView {
    StepView { update: None, next }
}

/// The update to show where a `/v1` transcript changed.
pub open spec fn live_update(before: LiveState, after: LiveState) -> Option<
    (Seq<char>, Seq<char>),
> {
    if before != after {
        Some((after.committed_text(), after.tentative))
    } else {
        None
    }
}

/// The update to show where a Flux transcript changed.
pub open spec fn turns_update(before: FluxState, after: FluxState) -> Option<
    (Seq<char>, Seq<char>),
> {
    if before != after {
        Some((after.committed_text(), after.tentative_text()))
    } else {
        None
    }
}

impl SessionState {
    /// A session that has just connected.
    pub open spec fn connected(flux: bool) -> SessionState {
        SessionState {
            flux,
            live: LiveState::empty(),
            turns: FluxState::empty(),
            closing: false,
            pending_audio: false,
            failure: None,
        }
    }

    /// The texts that are held are well formed.
    pub open spec fn wf(self) -> bool {
        self.live.wf() && self.turns.wf()
    }

    /// The session once it has failed.
    pub open spec fn failed(self, error: ErrorOf<Seq<char>>) -> SessionState {
        SessionState { failure: Some(error), ..self }
    }

    /// What the session knows after an event.
    pub open spec fn after(self, event: WsEvent) -> SessionState {
        match event {
            WsEvent::Flux { payload, info } => if is_flux_error(info) {
                self.failed(ErrorOf::FluxError(flux_error_text(payload@, info)))
            } else if is_turn_info(info) {
                let frame = turn_frame(info);
                SessionState {
                    turns: self.turns.applied(frame.index, frame.transcript, frame.end_of_turn),
                    pending_audio: self.pending_audio && !frame.end_of_turn,
                    ..self
                }
            } else {
                self
            },
            WsEvent::Live { payload, msg } => if is_live_error(msg) {
                self.failed(ErrorOf::StreamError(live_error_text(payload@, msg)))
            } else if is_metadata(msg) {
                self
            } else {
                let result = live_result(msg);
                SessionState {
                    live: self.live.applied(result.transcript, result.is_final),
                    ..self
                }
            },
            WsEvent::Failed(error) => self.failed(ErrorOf::SocketError(error@)),
            WsEvent::Command(WsCmd::Audio(_)) => SessionState { pending_audio: true, ..self },
            WsEvent::Command(WsCmd::Close) => SessionState { closing: true, ..self },
            WsEvent::AudioNotSent(error) => self.failed(ErrorOf::AudioNotSent(error@)),
            WsEvent::CloseNotSent(error) => self.failed(ErrorOf::CloseNotSent(error@)),
            WsEvent::Unreadable => self,
            WsEvent::Other => self,
            WsEvent::Closed => self,
            WsEvent::Cancelled => self,
            WsEvent::CloseSent => self,
        }
    }

    /// What the session asks for on an event.
    pub open spec fn reply(self, event: WsEvent) -> StepView {
        match event {
            WsEvent::Flux { payload, info } => if is_flux_error(info) {
                quiet(NextView::Finish)
            } else if is_turn_info(info) {
                StepView {
                    update: turns_update(self.turns, self.after(event).turns),
                    next: if self.closing && ends_turn(info) {
                        NextView::Finish
                    } else {
                        NextView::Wait
                    },
                }
            } else {
                quiet(NextView::Wait)
            },
            WsEvent::Live { payload, msg } => if is_live_error(msg) || is_metadata(msg) {
                quiet(NextView::Finish)
            } else {
                StepView {
                    update: live_update(self.live, self.after(event).live),
                    next: NextView::Wait,
                }
            },
            WsEvent::Unreadable => quiet(NextView::Wait),
            WsEvent::Other => quiet(NextView::Wait),
            WsEvent::Closed => quiet(NextView::Finish),
            WsEvent::Failed(_) => quiet(NextView::Finish),
            WsEvent::Command(WsCmd::Audio(bytes)) => quiet(NextView::SendAudio(bytes@)),
            WsEvent::Command(WsCmd::Close) => quiet(NextView::SendText(CLOSE_FRAME@)),
            WsEvent::Cancelled => quiet(NextView::Finish),
            WsEvent::AudioNotSent(_) => quiet(NextView::Finish),
            WsEvent::CloseSent => quiet(
                if self.flux && !self.pending_audio {
                    NextView::Finish
                } else {
                    NextView::Wait
                },
            ),
            WsEvent::CloseNotSent(_) => quiet(NextView::Finish),
        }
    }

    /// What the session knows after a run of events.
    pub open spec fn after_all(self, events: Seq<WsEvent>) -> SessionState
        decreases events.len(),
    {
        if events.len() == 0 {
            self
        } else {
            self.after_all(events.drop_last()).after(events.last())
        }
    }

    /// The transcript that the session ends with.
    pub open spec fn transcript(self) -> Seq<char> {
        if self.flux {
            self.turns.display_text()
        } else {
            self.live.display_text()
        }
    }

    /// Whether a result is what comes of the session.
    pub open spec fn ends_with(self, result: Result<String, SttError>) -> bool {
        match self.failure {
            Some(error) => result is Err && result->Err_0@ == error,
            None => result is Ok && result->Ok_0@ == self.transcript(),
        }
    }

    /// Whether a report tells how the session ended.
    pub open spec fn ends_as(self, report: FinalReport) -> bool {
        report matches FinalReport::Ended { flushed, result } && flushed == self.closing
            && self.ends_with(result)
    }
}

impl Step {
    /// Nothing to show.
    fn quiet(next: Next) -> (r: Step)
        ensures
            r@ == quiet(next@),
    {
        Step { update: None, next }
    }
}

impl WsSession {
    /// A session on a stream that has just connected, and that speaks Flux or does not.
    pub fn new(flux: bool) -> (r: WsSession)
        ensures
            r@ == SessionState::connected(flux),
            r@.wf(),
    {
        WsSession {
            flux,
            live: LiveTranscript::default(),
            turns: FluxTranscript::default(),
            closing: false,
            pending_audio: false,
            failure: None,
        }
    }

    /// Whether text frames are those of Flux.
    pub fn is_flux(&self) -> (r: bool)
        ensures
            r == self@.flux,
    {
        self.flux
    }

    /// Whether the owner is still to be listened to: not once it has asked to flush.
    pub fn takes_commands(&self) -> (r: bool)
        ensures
            r == !self@.closing,
    {
        !self.closing
    }

    fn fail(&mut self, error: SttError) -> (r: Step)
        ensures
            final(self)@ == old(self)@.failed(error@),
            r@ == quiet(NextView::Finish),
    {
        self.failure = Some(error);
        Step::quiet(Next::Finish)
    }

    /// Takes in what happened, and says what to do about it. Once that was to finish, there
    /// is nothing more to take in.
    pub fn step(&mut self, event: WsEvent) -> (r: Step)
        ensures
            final(self)@ == old(self)@.after(event),
            r@ == old(self)@.reply(event),
            old(self)@.wf() ==> final(self)@.wf(),
    {
        match event {
            WsEvent::Flux { payload, info } => self.flux_frame(payload, info),
            WsEvent::Live { payload, msg } => self.live_frame(payload, msg),
            // Neither says anything of the transcript.
            WsEvent::Unreadable => Step::quiet(Next::Wait),
            WsEvent::Other => Step::quiet(Next::Wait),
            WsEvent::Closed => Step::quiet(Next::Finish),
            WsEvent::Failed(error) => self.fail(ErrorOf::SocketError(error)),
            WsEvent::Command(WsCmd::Audio(bytes)) => {
                self.pending_audio = true;
                Step::quiet(Next::SendAudio(bytes))
            },
            WsEvent::Command(WsCmd::Close) => {
                self.closing = true;
                Step::quiet(Next::SendText(CLOSE_FRAME.to_string()))
            },
            WsEvent::Cancelled => Step::quiet(Next::Finish),
            WsEvent::AudioNotSent(error) => self.fail(ErrorOf::AudioNotSent(error)),
            WsEvent::CloseSent => {
                // Where every byte that was sent is covered by the end of a turn, the
                // transcript is complete and no further frame is coming.
                if self.flux && !self.pending_audio {
                    Step::quiet(Next::Finish)
                } else {
                    Step::quiet(Next::Wait)
                }
            },
            WsEvent::CloseNotSent(error) => self.fail(ErrorOf::CloseNotSent(error)),
        }
    }

    fn flux_frame(&mut self, payload: String, info: FluxLiveMessage) -> (r: Step)
        ensures
            final(self)@ == old(self)@.after(WsEvent::Flux { payload, info }),
            r@ == old(self)@.reply(WsEvent::Flux { payload, info }),
            old(self)@.wf() ==> final(self)@.wf(),
    {
        if equals(&info.msg_type, "Error") {
            let text = match info.description {
                Some(description) => description,
                None => match info.code {
                    Some(code) => code,
                    None => payload,
                },
            };
            return self.fail(ErrorOf::FluxError(text));
        }
        if !equals(&info.msg_type, "TurnInfo") {
            // A greeting, or something to keep the connection alive.
            return Step::quiet(Next::Wait);
        }
        let index: u32 = match info.turn_index {
            Some(index) => index,
            None => 0,
        };
        let ended = equals(&info.event, "EndOfTurn");
        if ended {
            self.pending_audio = false;
        }
        let text = or_nothing(&info.transcript);
        let update = if self.turns.apply(index, text.as_str(), ended) {
            Some(Update { committed: self.turns.committed(), tentative: self.turns.tentative() })
        } else {
            None
        };
        // The end of a turn that comes after the request to flush covers the audio that
        // was still to be transcribed: that is when the transcript is complete.
        let next = if self.closing && ended {
            Next::Finish
        } else {
            Next::Wait
        };
        Step { update, next }
    }

    fn live_frame(&mut self, payload: String, msg: DeepgramLiveMessage) -> (r: Step)
        ensures
            final(self)@ == old(self)@.after(WsEvent::Live { payload, msg }),
            r@ == old(self)@.reply(WsEvent::Live { payload, msg }),
            old(self)@.wf() ==> final(self)@.wf(),
    {
        if equals(&msg.msg_type, "Error") {
            let text = match msg.description {
                Some(description) => description,
                None => payload,
            };
            return self.fail(ErrorOf::StreamError(text));
        }
        if equals(&msg.msg_type, "Metadata") {
            // The last frame after a request to flush.
            return Step::quiet(Next::Finish);
        }
        let text = match &msg.channel {
            Some(channel) => channel.transcript(),
            None => String::new(),
        };
        let update = if self.live.apply(text.as_str(), msg.is_final) {
            Some(
                Update {
                    committed: self.live.committed(),
                    tentative: self.live.tentative.as_str().to_string(),
                },
            )
        } else {
            None
        };
        Step { update, next: Next::Wait }
    }

    /// What comes of the session: the error that ended it, or the transcript so far. An
    /// empty transcript is what silence makes, not an error.
    pub fn finish(self) -> (r: Result<String, SttError>)
        ensures
            self@.ends_with(r),
    {
        match self.failure {
            Some(error) => Err(error),
            None => Ok(
                if self.flux {
                    self.turns.display()
                } else {
                    self.live.display()
                },
            ),
        }
    }

    /// What to report to the owner once the session is over: what comes of it, and whether
    /// it had been asked to flush.
    pub fn report(self) -> (r: FinalReport)
        ensures
            self@.ends_as(r),
    {
        let flushed = self.closing;
        FinalReport::Ended { flushed, result: self.finish() }
    }
}

/// What a run of events has for a `/v1` transcript.
pub open spec fn live_results(events: Seq<WsEvent>) -> Seq<LiveResult>
    decreases events.len(),
{
    if events.len() == 0 {
        Seq::empty()
    } else {
        let front = live_results(events.drop_last());
        match events.last() {
            WsEvent::Live { payload, msg } => if is_live_error(msg) || is_metadata(msg) {
                front
            } else {
                front.push(live_result(msg))
            },
            _ => front,
        }
    }
}

/// What a run of events has for a Flux transcript.
pub open spec fn turn_frames(events: Seq<WsEvent>) -> Seq<FluxFrame>
    decreases events.len(),
{
    if events.len() == 0 {
        Seq::empty()
    } else {
        let front = turn_frames(events.drop_last());
        match events.last() {
            WsEvent::Flux { payload, info } => if !is_flux_error(info) && is_turn_info(info) {
                front.push(turn_frame(info))
            } else {
                front
            },
            _ => front,
        }
    }
}

/// The transcript of a session is that of the frames that came, whatever else happened in
/// between.
pub proof fn law_transcript_is_what_was_heard(state: SessionState, events: Seq<WsEvent>)
    ensures
        state.after_all(events).live == state.live.applied_all(live_results(events)),
        state.after_all(events).turns == state.turns.applied_all(turn_frames(events)),
        state.after_all(events).flux == state.flux,
    decreases events.len(),
{
    if events.len() > 0 {
        let front = events.drop_last();
        law_transcript_is_what_was_heard(state, front);
        let results = live_results(front);
        let turns = turn_frames(front);
        match events.last() {
            WsEvent::Live { payload, msg } => {
                assert(results.push(live_result(msg)).drop_last() =~= results);
            },
            WsEvent::Flux { payload, info } => {
                assert(turns.push(turn_frame(info)).drop_last() =~= turns);
            },
            _ => {},
        }
    }
}

/// Whatever happens, the texts that are held stay well formed.
pub proof fn law_states_stay_well_formed(state: SessionState, events: Seq<WsEvent>)
    requires
        state.wf(),
    ensures
        state.after_all(events).wf(),
{
    law_transcript_is_what_was_heard(state, events);
    live::law_states_stay_well_formed(state.live, live_results(events));
    flux::law_states_stay_well_formed(state.turns, turn_frames(events));
}

/// The transcript of a `/v1` session is all final results that came, in order, and then
/// what was still tentative, with single spaces between them.
pub proof fn law_v1_transcript(events: Seq<WsEvent>)
    ensures
        ({
            let state = SessionState::connected(false).after_all(events);
            let heard = live::finals(live_results(events));
            state.transcript() == text::joined(
                if state.live.tentative.len() > 0 {
                    heard.push(state.live.tentative)
                } else {
                    heard
                },
            )
        }),
{
    let start = SessionState::connected(false);
    let results = live_results(events);
    law_transcript_is_what_was_heard(start, events);
    law_states_stay_well_formed(start, events);
    live::law_committed_is_the_finals(start.live, results);
    assert(start.live.committed + live::finals(results) =~= live::finals(results));
    live::law_display_is_committed_then_tail(start.after_all(events).live);
}

/// The transcript of a Flux session is the newest words of each turn, in the order of the
/// turns, with single spaces between them.
pub proof fn law_flux_transcript(events: Seq<WsEvent>, index: u32)
    ensures
        ({
            let state = SessionState::connected(true).after_all(events);
            &&& state.transcript() == text::joined(flux::texts_in_order(state.turns.turns))
            &&& match flux::newest_words(turn_frames(events), index) {
                Some(words) => state.turns.turns.dom().contains(index)
                    && state.turns.turns[index] == words,
                None => !state.turns.turns.dom().contains(index),
            }
        }),
{
    let start = SessionState::connected(true);
    law_transcript_is_what_was_heard(start, events);
    law_states_stay_well_formed(start, events);
    flux::law_turns_hold_their_newest_words(start.turns, turn_frames(events), index);
    flux::law_display_is_all_turns(start.after_all(events).turns);
}

/// Whether an event ends a turn of a Flux stream.
pub open spec fn ends_a_turn(event: WsEvent) -> bool {
    event matches WsEvent::Flux { payload, info } && !is_flux_error(info) && is_turn_info(info)
        && ends_turn(info)
}

/// Whether a run of events has audio that no later end of a turn covers.
pub open spec fn uncovered_audio(events: Seq<WsEvent>) -> bool {
    exists|i: int|
        0 <= i < events.len() && (#[trigger] events[i] matches WsEvent::Command(WsCmd::Audio(_)))
            && forall|j: int| i < j < events.len() ==> !ends_a_turn(#[trigger] events[j])
}

/// A session knows at any time whether audio was sent that no end of a turn has covered.
pub proof fn law_pending_audio_is_uncovered_audio(flux: bool, events: Seq<WsEvent>)
    ensures
        SessionState::connected(flux).after_all(events).pending_audio == uncovered_audio(events),
    decreases events.len(),
{
    if events.len() > 0 {
        let front = events.drop_last();
        let last = events.last();
        law_pending_audio_is_uncovered_audio(flux, front);
        if last matches WsEvent::Command(WsCmd::Audio(_)) {
            assert(events[events.len() - 1] == last);
            assert(uncovered_audio(events));
        } else if ends_a_turn(last) {
            assert(events[events.len() - 1] == last);
            assert(!uncovered_audio(events));
        } else {
            if uncovered_audio(front) {
                let i = choose|i: int|
                    0 <= i < front.len() && (#[trigger] front[i] matches WsEvent::Command(
                        WsCmd::Audio(_),
                    )) && forall|j: int| i < j < front.len() ==> !ends_a_turn(#[trigger] front[j]);
                assert(events[i] == front[i]);
                assert forall|j: int| i < j < events.len() implies !ends_a_turn(
                    #[trigger] events[j],
                ) by {
                    if j < front.len() {
                        assert(events[j] == front[j]);
                    }
                }
                assert(uncovered_audio(events));
            }
            if uncovered_audio(events) {
                let i = choose|i: int|
                    0 <= i < events.len() && (#[trigger] events[i] matches WsEvent::Command(
                        WsCmd::Audio(_),
                    )) && forall|j: int| i < j < events.len() ==> !ends_a_turn(
                        #[trigger] events[j],
                    );
                assert(events[events.len() - 1] == last);
                assert(front[i] == events[i]);
                assert forall|j: int| i < j < front.len() implies !ends_a_turn(
                    #[trigger] front[j],
                ) by {
                    assert(events[j] == front[j]);
                }
                assert(uncovered_audio(front));
            }
        }
    }
}

/// Flushing a Flux stream ends the session at once where all audio is covered, as no
/// further frame would come; otherwise the session waits.
pub proof fn law_flush_waits_for_uncovered_audio(events: Seq<WsEvent>)
    ensures
        ({
            let state = SessionState::connected(true).after_all(events);
            state.reply(WsEvent::CloseSent).next == if uncovered_audio(events) {
                NextView::Wait
            } else {
                NextView::Finish
            }
        }),
{
    law_transcript_is_what_was_heard(SessionState::connected(true), events);
    law_pending_audio_is_uncovered_audio(true, events);
}

/// A `/v1` stream that was flushed is over when its `Metadata` frame comes, and not before
/// on account of the flush itself.
pub proof fn law_v1_waits_for_metadata(
    state: SessionState,
    payload: String,
    msg: DeepgramLiveMessage,
)
    requires
        !state.flux,
    ensures
        state.reply(WsEvent::CloseSent) == quiet(NextView::Wait),
        is_metadata(msg) ==> state.reply(WsEvent::Live { payload, msg }) == quiet(
            NextView::Finish,
        ),
{
}

/// The end of a turn ends the session exactly where the session was asked to flush.
pub proof fn law_end_of_turn_completes_a_flush(state: SessionState, event: WsEvent)
    requires
        ends_a_turn(event),
    ensures
        state.reply(event).next == if state.closing {
            NextView::Finish
        } else {
            NextView::Wait
        },
{
}

/// Once asked to flush, a session stays so: the owner is not listened to again.
pub proof fn law_flush_is_final(state: SessionState, events: Seq<WsEvent>)
    requires
        state.closing,
    ensures
        state.after_all(events).closing,
    decreases events.len(),
{
    if events.len() > 0 {
        law_flush_is_final(state, events.drop_last());
    }
}

/// Whether an event is an error that ends the session.
pub open spec fn is_error(event: WsEvent) -> bool {
    match event {
        WsEvent::Flux { payload, info } => is_flux_error(info),
        WsEvent::Live { payload, msg } => is_live_error(msg),
        WsEvent::Failed(_) => true,
        WsEvent::AudioNotSent(_) => true,
        WsEvent::CloseNotSent(_) => true,
        _ => false,
    }
}

/// An error ends the session at once.
pub proof fn law_errors_end_the_session(state: SessionState, event: WsEvent)
    requires
        is_error(event),
    ensures
        state.reply(event) == quiet(NextView::Finish),
        state.after(event).failure is Some,
{
}

/// Only an error makes a session itself fail; silence, a closed socket or a cancelled
/// recording is none. Whether what was heard by then is a result depends on whether the
/// session had been asked to flush.
pub proof fn law_only_errors_fail(state: SessionState, events: Seq<WsEvent>)
    requires
        state.failure is None,
        forall|i: int| 0 <= i < events.len() ==> !is_error(#[trigger] events[i]),
    ensures
        state.after_all(events).failure is None,
    decreases events.len(),
{
    if events.len() > 0 {
        let front = events.drop_last();
        assert forall|i: int| 0 <= i < front.len() implies !is_error(#[trigger] front[i]) by {
            assert(front[i] == events[i]);
        }
        assert(!is_error(events[events.len() - 1]));
        law_only_errors_fail(state, front);
    }
}

/// Whether a run of events has the owner ask for a flush.
pub open spec fn asks_to_flush(events: Seq<WsEvent>) -> bool {
    exists|i: int|
        0 <= i < events.len() && (#[trigger] events[i] matches WsEvent::Command(WsCmd::Close))
}

/// A session knows at any time whether it was asked to flush.
pub proof fn law_closing_is_asked_for(flux: bool, events: Seq<WsEvent>)
    ensures
        SessionState::connected(flux).after_all(events).closing == asks_to_flush(events),
    decreases events.len(),
{
    if events.len() > 0 {
        let front = events.drop_last();
        law_closing_is_asked_for(flux, front);
        assert(events[events.len() - 1] == events.last());
        if asks_to_flush(front) {
            let i = choose|i: int|
                0 <= i < front.len() && (#[trigger] front[i] matches WsEvent::Command(
                    WsCmd::Close,
                ));
            assert(events[i] == front[i]);
        }
        if asks_to_flush(events) && !(events.last() matches WsEvent::Command(WsCmd::Close)) {
            let i = choose|i: int|
                0 <= i < events.len() && (#[trigger] events[i] matches WsEvent::Command(
                    WsCmd::Close,
                ));
            assert(front[i] == events[i]);
        }
    }
}

/// A dead socket is surfaced: whatever happened to a session that ended before it was asked
/// to flush, its owner gets an error and no transcript.
pub proof fn law_dead_sockets_are_surfaced(
    flux: bool,
    events: Seq<WsEvent>,
    report: FinalReport,
    r: Result<String, SttError>,
)
    requires
        !asks_to_flush(events),
        SessionState::connected(flux).after_all(events).ends_as(report),
        stream::calls_for(report, r),
    ensures
        r is Err,
        r->Err_0@ == match SessionState::connected(flux).after_all(events).failure {
            Some(error) => error,
            None => ErrorOf::NoTranscript,
        },
{
    law_closing_is_asked_for(flux, events);
}

/// A session that was asked to flush and met no error gives its owner all that it heard,
/// be it nothing, and also where it is the server that closes the socket in the end.
pub proof fn law_flushed_sessions_succeed(
    flux: bool,
    events: Seq<WsEvent>,
    report: FinalReport,
    r: Result<String, SttError>,
)
    requires
        asks_to_flush(events),
        forall|i: int| 0 <= i < events.len() ==> !is_error(#[trigger] events[i]),
        SessionState::connected(flux).after_all(events).ends_as(report),
        stream::calls_for(report, r),
    ensures
        r is Ok,
        r->Ok_0@ == SessionState::connected(flux).after_all(events).transcript(),
{
    law_closing_is_asked_for(flux, events);
    law_only_errors_fail(SessionState::connected(flux), events);
}

/// A session that hears nothing ends with an empty transcript.
pub proof fn law_silence_is_an_empty_transcript(flux: bool, events: Seq<WsEvent>)
    requires
        live_results(events).len() == 0,
        turn_frames(events).len() == 0,
    ensures
        SessionState::connected(flux).after_all(events).transcript() == Seq::<char>::empty(),
{
    law_transcript_is_what_was_heard(SessionState::connected(flux), events);
    live::law_silence_shows_nothing();
    flux::law_silence_shows_nothing();
}

/// An update is shown exactly where the transcript changed, and it is the new one.
pub proof fn law_updates_show_what_changed(state: SessionState, event: WsEvent)
    ensures
        state.reply(event).update is Some <==> state.after(event).live != state.live
            || state.after(event).turns != state.turns,
        state.after(event).live != state.live ==> state.reply(event).update == Some(
            (
                state.after(event).live.committed_text(),
                state.after(event).live.tentative,
            ),
        ),
        state.after(event).turns != state.turns ==> state.reply(event).update == Some(
            (
                state.after(event).turns.committed_text(),
                state.after(event).turns.tentative_text(),
            ),
        ),
{
}

/// A session starts out with nothing heard, nothing sent and nothing asked for.
pub proof fn law_sessions_start_afresh(flux: bool, index: u32)
    ensures
        ({
            let state = SessionState::connected(flux);
            &&& state.flux == flux
            &&& state.live.committed.len() == 0
            &&& state.live.tentative.len() == 0
            &&& !state.turns.turns.dom().contains(index)
            &&& state.turns.open is None
            &&& !state.closing
            &&& !state.pending_audio
            &&& state.failure is None
        }),
{
}

/// What a session asks for is read as it stands.
pub proof fn law_steps_are_read_as_they_stand(
    committed: String,
    tentative: String,
    bytes: Vec<u8>,
    words: String,
    next: Next,
)
    ensures
        Next::SendAudio(bytes)@ == NextView::SendAudio(bytes@),
        Next::SendText(words)@ == NextView::SendText(words@),
        Next::Wait@ == NextView::Wait,
        Next::Finish@ == NextView::Finish,
        (Step { update: None, next })@ == (StepView { update: None, next: next@ }),
        (Step { update: Some(Update { committed, tentative }), next })@ == (StepView {
            update: Some((committed@, tentative@)),
            next: next@,
        }),
{
}

/// Every frame of audio that the owner feeds is to be sent, as it is and at once, whatever
/// the session has heard or sent before; and a session has nothing else to send as audio.
pub proof fn law_audio_is_sent(state: SessionState, event: WsEvent)
    ensures
        match event {
            WsEvent::Command(WsCmd::Audio(bytes)) => {
                &&& state.reply(event).next == NextView::SendAudio(bytes@)
                &&& state.reply(event).update is None
                &&& state.after(event) == (SessionState { pending_audio: true, ..state })
            },
            _ => !(state.reply(event).next is SendAudio),
        },
{
}

/// The audio that the owner feeds over a run of events.
pub open spec fn audio_fed(events: Seq<WsEvent>) -> Seq<u8>
    decreases events.len(),
{
    if events.len() == 0 {
        Seq::empty()
    } else {
        let before = audio_fed(events.drop_last());
        match events.last() {
            WsEvent::Command(WsCmd::Audio(bytes)) => before + bytes@,
            _ => before,
        }
    }
}

/// The audio that a session asks to send over a run of events.
pub open spec fn audio_sent(state: SessionState, events: Seq<WsEvent>) -> Seq<u8>
    decreases events.len(),
{
    if events.len() == 0 {
        Seq::empty()
    } else {
        let before = audio_sent(state, events.drop_last());
        match state.after_all(events.drop_last()).reply(events.last()).next {
            NextView::SendAudio(bytes) => before + bytes,
            _ => before,
        }
    }
}

/// Over any run of events all audio that was fed is sent, in order, once.
pub proof fn law_all_audio_is_sent_in_order(state: SessionState, events: Seq<WsEvent>)
    ensures
        audio_sent(state, events) == audio_fed(events),
    decreases events.len(),
{
    if events.len() > 0 {
        law_all_audio_is_sent_in_order(state, events.drop_last());
        law_audio_is_sent(state.after_all(events.drop_last()), events.last());
    }
}

/// The owner's request to flush is passed on to Deepgram as a `CloseStream` frame, and only
/// that request is; nothing else makes a session one that was asked to flush.
pub proof fn law_flush_is_passed_on(state: SessionState, event: WsEvent)
    ensures
        match event {
            WsEvent::Command(WsCmd::Close) => {
                &&& state.reply(event).next == NextView::SendText("{\"type\":\"CloseStream\"}"@)
                &&& state.reply(event).update is None
                &&& state.after(event) == (SessionState { closing: true, ..state })
            },
            _ => {
                &&& !(state.reply(event).next is SendText)
                &&& state.after(event).closing == state.closing
            },
        },
{
}

/// A `TurnInfo` frame, read off its fields. It bears on the turn that it names, or on the
/// first where it names none, and on no other: that turn then has the words of the frame,
/// if there are any. The turn is open unless the frame says `EndOfTurn`; that also covers
/// the audio that was pending, and completes a flush. Where the transcript is another one
/// afterwards, it is shown.
pub proof fn law_turn_info(
    state: SessionState,
    payload: String,
    info: FluxLiveMessage,
    lead: Seq<char>,
    words: Seq<char>,
    tail: Seq<char>,
    other: u32,
)
    requires
        info.msg_type is Some,
        info.msg_type->0@ == "TurnInfo"@,
        text::is_blank(lead),
        text::is_blank(tail),
        text::is_trimmed(words),
        match info.transcript {
            Some(said) => said@ == lead + words + tail,
            None => words.len() == 0,
        },
    ensures
        ({
            let event = WsEvent::Flux { payload, info };
            let next = state.after(event);
            let ended = info.event is Some && info.event->0@ == "EndOfTurn"@;
            let index: u32 = if info.turn_index is Some {
                info.turn_index->0
            } else {
                0
            };
            &&& if other == index && words.len() > 0 {
                next.turns.turns.dom().contains(other) && next.turns.turns[other] == words
            } else {
                next.turns.turns.dom().contains(other) == state.turns.turns.dom().contains(other)
                    && next.turns.turns[other] == state.turns.turns[other]
            }
            &&& next.turns.open == if ended {
                None
            } else {
                Some(index)
            }
            &&& next == (SessionState {
                turns: next.turns,
                pending_audio: state.pending_audio && !ended,
                ..state
            })
            &&& state.reply(event).next == if state.closing && ended {
                NextView::Finish
            } else {
                NextView::Wait
            }
            &&& state.reply(event).update == if next.turns != state.turns {
                Some((next.turns.committed_text(), next.turns.tentative_text()))
            } else {
                None
            }
        }),
{
    reveal_strlit("TurnInfo");
    reveal_strlit("Error");
    assert("TurnInfo"@.len() == 8 && "Error"@.len() == 5);
    text::law_trimming_drops_padding(lead, words, tail);
    if info.transcript is None {
        text::law_trimming_drops_padding(Seq::empty(), Seq::empty(), Seq::empty());
        assert(Seq::<char>::empty() + Seq::<char>::empty() + Seq::<char>::empty() =~= Seq::empty());
    }
}

/// A frame of a Flux stream that is neither a `TurnInfo` nor an `Error` changes nothing and
/// asks for nothing.
pub proof fn law_other_flux_frames(state: SessionState, payload: String, info: FluxLiveMessage)
    requires
        info.msg_type is None || (info.msg_type->0@ != "TurnInfo"@ && info.msg_type->0@
            != "Error"@),
    ensures
        state.after(WsEvent::Flux { payload, info }) == state,
        state.reply(WsEvent::Flux { payload, info }) == (StepView {
            update: None,
            next: NextView::Wait,
        }),
{
}

/// An `Error` frame ends a session at once, with the error that it describes: on a Flux
/// stream in its description, or else its code, on a `/v1` stream in its description, and
/// where there is none, in the frame as a whole. The rest is as it was.
pub proof fn law_error_frames(
    state: SessionState,
    payload: String,
    info: FluxLiveMessage,
    msg: DeepgramLiveMessage,
)
    requires
        info.msg_type is Some && info.msg_type->0@ == "Error"@,
        msg.msg_type is Some && msg.msg_type->0@ == "Error"@,
    ensures
        state.after(WsEvent::Flux { payload, info }) == (SessionState {
            failure: Some(
                ErrorOf::FluxError(
                    if info.description is Some {
                        info.description->0@
                    } else if info.code is Some {
                        info.code->0@
                    } else {
                        payload@
                    },
                ),
            ),
            ..state
        }),
        state.reply(WsEvent::Flux { payload, info }) == (StepView {
            update: None,
            next: NextView::Finish,
        }),
        state.after(WsEvent::Live { payload, msg }) == (SessionState {
            failure: Some(
                ErrorOf::StreamError(
                    if msg.description is Some {
                        msg.description->0@
                    } else {
                        payload@
                    },
                ),
            ),
            ..state
        }),
        state.reply(WsEvent::Live { payload, msg }) == (StepView {
            update: None,
            next: NextView::Finish,
        }),
{
}

/// A frame of results of a `/v1` stream, read off its fields. What the first alternative
/// says is put behind the committed texts where the frame is final, whatever it says and
/// however long it is, and is the tail where the frame is not; a final frame clears the
/// tail. Where the transcript is another one afterwards, it is shown.
pub proof fn law_live_results(
    state: SessionState,
    payload: String,
    msg: DeepgramLiveMessage,
    lead: Seq<char>,
    words: Seq<char>,
    tail: Seq<char>,
)
    requires
        msg.msg_type is None || (msg.msg_type->0@ != "Metadata"@ && msg.msg_type->0@ != "Error"@),
        text::is_blank(lead),
        text::is_blank(tail),
        text::is_trimmed(words),
        if msg.channel is Some && msg.channel->0.alternatives@.len() > 0
            && msg.channel->0.alternatives@[0].transcript is Some {
            msg.channel->0.alternatives@[0].transcript->0@ == lead + words + tail
        } else {
            words.len() == 0
        },
    ensures
        ({
            let event = WsEvent::Live { payload, msg };
            let next = state.after(event);
            &&& next.live.committed == if msg.is_final && words.len() > 0 {
                state.live.committed.push(words)
            } else {
                state.live.committed
            }
            &&& next.live.tentative == if msg.is_final {
                Seq::empty()
            } else {
                words
            }
            &&& next == (SessionState { live: next.live, ..state })
            &&& state.reply(event).next == NextView::Wait
            &&& state.reply(event).update == if next.live != state.live {
                Some((next.live.committed_text(), next.live.tentative))
            } else {
                None
            }
        }),
{
    text::law_trimming_drops_padding(lead, words, tail);
    text::law_trimming_drops_padding(Seq::empty(), Seq::empty(), Seq::empty());
    assert(Seq::<char>::empty() + Seq::<char>::empty() + Seq::<char>::empty() =~= Seq::empty());
    if words.len() == 0 {
        assert(words =~= Seq::empty());
    }
}

/// A `Metadata` frame ends a session and leaves it as it was.
pub proof fn law_metadata_frames(state: SessionState, payload: String, msg: DeepgramLiveMessage)
    requires
        msg.msg_type is Some && msg.msg_type->0@ == "Metadata"@,
    ensures
        state.after(WsEvent::Live { payload, msg }) == state,
        state.reply(WsEvent::Live { payload, msg }) == (StepView {
            update: None,
            next: NextView::Finish,
        }),
{
    reveal_strlit("Metadata");
    reveal_strlit("Error");
    assert("Metadata"@.len() == 8 && "Error"@.len() == 5);
}

/// A socket that fails, and audio or a request to flush that is not sent, end a session at
/// once, each with its own error and the whole cause. The rest is as it was.
pub proof fn law_failures_of_the_socket(state: SessionState, cause: String)
    ensures
        state.after(WsEvent::Failed(cause)) == (SessionState {
            failure: Some(ErrorOf::SocketError(cause@)),
            ..state
        }),
        state.after(WsEvent::AudioNotSent(cause)) == (SessionState {
            failure: Some(ErrorOf::AudioNotSent(cause@)),
            ..state
        }),
        state.after(WsEvent::CloseNotSent(cause)) == (SessionState {
            failure: Some(ErrorOf::CloseNotSent(cause@)),
            ..state
        }),
        state.reply(WsEvent::Failed(cause)) == (StepView { update: None, next: NextView::Finish }),
        state.reply(WsEvent::AudioNotSent(cause)) == (StepView {
            update: None,
            next: NextView::Finish,
        }),
        state.reply(WsEvent::CloseNotSent(cause)) == (StepView {
            update: None,
            next: NextView::Finish,
        }),
{
}

/// A frame that cannot be read or is of another kind is passed over. A socket that closes
/// and an owner that is gone end a session. A request to flush that was sent ends a session
/// exactly where it speaks Flux and no audio is pending. None of these changes what the
/// session knows.
pub proof fn law_events_without_news(state: SessionState, event: WsEvent)
    requires
        event is Unreadable || event is Other || event is Closed || event is Cancelled
            || event is CloseSent,
    ensures
        state.after(event) == state,
        state.reply(event).update is None,
        event is Unreadable || event is Other ==> state.reply(event).next is Wait,
        event is Closed || event is Cancelled ==> state.reply(event).next is Finish,
        event is CloseSent ==> state.reply(event).next == if state.flux && !state.pending_audio {
            NextView::Finish
        } else {
            NextView::Wait
        },
{
}

/// A session gives back its failure where it has one, and otherwise all that it heard: the
/// texts of all turns on a Flux stream, and the final results and the tail on any other.
pub proof fn law_sessions_give_back_what_they_heard(
    state: SessionState,
    result: Result<String, SttError>,
    report: FinalReport,
)
    requires
        state.ends_with(result),
        state.ends_as(report),
    ensures
        state.failure is Some ==> result is Err && result->Err_0@ == state.failure->0,
        state.failure is None ==> result is Ok,
        state.failure is None && state.flux ==> result->Ok_0@ == state.turns.display_text(),
        state.failure is None && !state.flux ==> result->Ok_0@ == state.live.display_text(),
        report is Ended,
        report->flushed == state.closing,
        state.ends_with(report->result),
{
}

/// Nothing that was heard is lost: whatever happens, what is committed stays where it is,
/// and a turn that has a text keeps having one.
pub proof fn law_nothing_heard_is_lost(state: SessionState, events: Seq<WsEvent>, index: u32)
    ensures
        state.live.committed.is_prefix_of(state.after_all(events).live.committed),
        state.turns.turns.dom().contains(index) ==> state.after_all(
            events,
        ).turns.turns.dom().contains(index),
    decreases events.len(),
{
    if events.len() > 0 {
        law_nothing_heard_is_lost(state, events.drop_last(), index);
        let before = state.after_all(events.drop_last()).live.committed;
        let after = state.after_all(events).live.committed;
        assert(before.is_prefix_of(after));
        assert(state.live.committed.is_prefix_of(after));
    } else {
        assert(state.live.committed.is_prefix_of(state.live.committed));
    }
}

} // verus!

//! What Deepgram sends, as far as it is read.

use vstd::prelude::*;

verus! {

/// The answer to a batch request.
#[derive(Debug)]
pub struct DeepgramResponse {
    pub results: Option<DeepgramResults>,
}

#[derive(Debug)]
pub struct DeepgramResults {
    pub channels: Vec<DeepgramChannel>,
}

#[derive(Debug)]
pub struct DeepgramChannel {
    pub alternatives: Vec<DeepgramAlternative>,
}

#[derive(Debug)]
pub struct DeepgramAlternative {
    pub transcript: Option<String>,
}

/// A frame of the `/v1` stream.
#[derive(Debug)]
pub struct DeepgramLiveMessage {
    pub msg_type: Option<String>,
    pub channel: Option<DeepgramChannel>,
    pub is_final: bool,
    /// What an `Error` frame says.
    pub description: Option<String>,
}

/// A frame of a Flux stream.
#[derive(Debug)]
pub struct FluxLiveMessage {
    pub msg_type: Option<String>,
    /// `StartOfTurn`, `Update`, `EagerEndOfTurn`, `TurnResumed` or `EndOfTurn`.
    pub event: Option<String>,
    pub turn_index: Option<u32>,
    pub transcript: Option<String>,
    /// What an `Error` frame says.
    pub code: Option<String>,
    pub description: Option<String>,
}

/// A text that may be missing, which then says nothing.
pub open spec fn text_or_nothing(s: Option<String>) -> Seq<char> {
    match s {
        Some(t) => t@,
        None => Seq::empty(),
    }
}

/// Whether a text is there and is this one.
pub open spec fn is_text(s: Option<String>, text: Seq<char>) -> bool {
    s is Some && s->0@ == text
}

/// What the first alternative of a channel says.
pub open spec fn channel_text(channel: DeepgramChannel) -> Seq<char> {
    if channel.alternatives@.len() > 0 {
        text_or_nothing(channel.alternatives@[0].transcript)
    } else {
        Seq::empty()
    }
}

/// What the first channel of an answer says.
pub open spec fn response_text(response: DeepgramResponse) -> Seq<char> {
    match response.results {
        Some(results) => if results.channels@.len() > 0 {
            channel_text(results.channels@[0])
        } else {
            Seq::empty()
        },
        None => Seq::empty(),
    }
}

/// A copy of a text that may be missing, which then says nothing.
pub(crate) fn or_nothing(s: &Option<String>) -> (r: String)
    ensures
        r@ == text_or_nothing(*s),
{
    match s {
        Some(t) => t.as_str().to_string(),
        None => String::new(),
    }
}

/// Whether a text is there and is this one.
pub(crate) fn equals(s: &Option<String>, text: &str) -> (r: bool)
    ensures
        r == is_text(*s, text@),
{
    match s {
        Some(t) => crate::text::same_text(t.as_str(), text),
        None => false,
    }
}

impl DeepgramChannel {
    /// What the first alternative says; nothing, where there is none.
    pub fn transcript(&self) -> (r: String)
        ensures
            r@ == channel_text(*self),
    {
        if self.alternatives.len() > 0 {
            or_nothing(&self.alternatives[0].transcript)
        } else {
            String::new()
        }
    }
}

impl DeepgramResponse {
    /// What the first alternative of the first channel says; nothing, where there is none.
    pub fn transcript(&self) -> (r: String)
        ensures
            r@ == response_text(*self),
    {
        match &self.results {
            Some(results) => if results.channels.len() > 0 {
                results.channels[0].transcript()
            } else {
                String::new()
            },
            None => String::new(),
        }
    }
}

/// What a channel says is all that its first alternative says, and what an answer says is
/// all that the first alternative of its first channel says.
pub proof fn law_the_first_alternative_is_read_whole(
    channel: DeepgramChannel,
    response: DeepgramResponse,
    said: String,
)
    requires
        channel.alternatives@.len() > 0,
        channel.alternatives@[0].transcript == Some(said),
        response.results is Some,
        response.results->0.channels@.len() > 0,
        response.results->0.channels@[0] == channel,
    ensures
        channel_text(channel) == said@,
        response_text(response) == said@,
{
}

/// A channel without an alternative, or whose first one has no transcript, says nothing,
/// and neither does an answer without a channel.
pub proof fn law_what_is_missing_says_nothing(
    channel: DeepgramChannel,
    response: DeepgramResponse,
)
    requires
        channel.alternatives@.len() == 0 || channel.alternatives@[0].transcript is None,
        response.results is None || response.results->0.channels@.len() == 0
            || response.results->0.channels@[0] == channel,
    ensures
        channel_text(channel) == Seq::<char>::empty(),
        response_text(response) == Seq::<char>::empty(),
{
}

/// A text that may be missing says what it says, or nothing, and is another one exactly
/// where it is there and says that.
pub proof fn law_texts_that_may_be_missing(s: String, text: Seq<char>)
    ensures
        text_or_nothing(Some(s)) == s@,
        text_or_nothing(None) == Seq::<char>::empty(),
        is_text(Some(s), text) <==> s@ == text,
        !is_text(None, text),
{
}

} // verus!

//! What can go wrong with a transcription, and what the user is told about it.

use vstd::prelude::*;

use crate::text::{self, decimal_text};

verus! {

/// How many seconds a stream may take to connect.
pub const WS_CONNECT_TIMEOUT_SECS: u64 = 10;

/// How many seconds Deepgram may take to flush its final results once it was asked to
/// close. The measured round trip is about one and a half seconds.
pub const WS_FINALIZE_TIMEOUT_SECS: u64 = 12;

/// The errors of this crate, over the type of the texts that they carry.
#[derive(Debug, PartialEq, Eq)]
pub enum ErrorOf<T> {
    /// The request has no API key.
    MissingApiKey,
    /// The API key cannot stand in a header.
    InvalidApiKey,
    /// An error that is told in its own words.
    Other(T),
    /// The request did not get through.
    RequestFailed(T),
    /// The response broke off.
    ReadFailed(T),
    /// Deepgram answered with a status other than success.
    Rejected { status: T, body: T },
    /// The response is not what Deepgram documents.
    Unparseable { error: T, body: T },
    /// The runtime for a batch request did not start.
    HttpRuntime(T),
    /// The thread of a batch request ended without a result.
    RequestThreadPanicked,
    /// The runtime for a stream did not start.
    StreamRuntime(T),
    /// The thread for a stream did not start.
    StreamThread(T),
    /// The stream did not connect in time.
    ConnectTimeout,
    /// The address of the stream makes no request.
    InvalidStreamUrl(T),
    /// The stream did not connect.
    ConnectFailed(T),
    /// A Flux stream reported an error.
    FluxError(T),
    /// A `/v1` stream reported an error.
    StreamError(T),
    /// The socket failed.
    SocketError(T),
    /// A frame of audio was not sent.
    AudioNotSent(T),
    /// The request to close was not sent.
    CloseNotSent(T),
    /// The stream ended without a transcript, or before it was asked for one.
    NoTranscript,
    /// The final results did not come in time.
    FinalizeTimeout,
}

/// The errors of this crate.
pub type SttError = ErrorOf<String>;

impl View for ErrorOf<String> {
    type V = ErrorOf<Seq<char>>;

    open spec fn view(&self) -> ErrorOf<Seq<char>> {
        match *self {
            ErrorOf::MissingApiKey => ErrorOf::MissingApiKey,
            ErrorOf::InvalidApiKey => ErrorOf::InvalidApiKey,
            ErrorOf::Other(t) => ErrorOf::Other(t@),
            ErrorOf::RequestFailed(t) => ErrorOf::RequestFailed(t@),
            ErrorOf::ReadFailed(t) => ErrorOf::ReadFailed(t@),
            ErrorOf::Rejected { status, body } => ErrorOf::Rejected {
                status: status@,
                body: body@,
            },
            ErrorOf::Unparseable { error, body } => ErrorOf::Unparseable {
                error: error@,
                body: body@,
            },
            ErrorOf::HttpRuntime(t) => ErrorOf::HttpRuntime(t@),
            ErrorOf::RequestThreadPanicked => ErrorOf::RequestThreadPanicked,
            ErrorOf::StreamRuntime(t) => ErrorOf::StreamRuntime(t@),
            ErrorOf::StreamThread(t) => ErrorOf::StreamThread(t@),
            ErrorOf::ConnectTimeout => ErrorOf::ConnectTimeout,
            ErrorOf::InvalidStreamUrl(t) => ErrorOf::InvalidStreamUrl(t@),
            ErrorOf::ConnectFailed(t) => ErrorOf::ConnectFailed(t@),
            ErrorOf::FluxError(t) => ErrorOf::FluxError(t@),
            ErrorOf::StreamError(t) => ErrorOf::StreamError(t@),
            ErrorOf::SocketError(t) => ErrorOf::SocketError(t@),
            ErrorOf::AudioNotSent(t) => ErrorOf::AudioNotSent(t@),
            ErrorOf::CloseNotSent(t) => ErrorOf::CloseNotSent(t@),
            ErrorOf::NoTranscript => ErrorOf::NoTranscript,
            ErrorOf::FinalizeTimeout => ErrorOf::FinalizeTimeout,
        }
    }
}

/// What the user is told.
pub open spec fn error_text(error: ErrorOf<Seq<char>>) -> Seq<char> {
    match error {
        ErrorOf::MissingApiKey =>
            "Deepgram API key is not set. Add it in Settings → Transcription."@,
        ErrorOf::InvalidApiKey => "Deepgram API key contains invalid characters"@,
        ErrorOf::Other(t) => t,
        ErrorOf::RequestFailed(t) => "Deepgram request failed: "@ + t,
        ErrorOf::ReadFailed(t) => "Failed to read Deepgram response: "@ + t,
        ErrorOf::Rejected { status, body } => "Deepgram returned "@ + status + ": "@
            + text::trimmed(body),
        ErrorOf::Unparseable { error, body } => "Could not parse Deepgram response: "@ + error
            + " (body: "@ + body + ")"@,
        ErrorOf::HttpRuntime(t) => "Failed to start HTTP runtime: "@ + t,
        ErrorOf::RequestThreadPanicked => "Deepgram request thread panicked"@,
        ErrorOf::StreamRuntime(t) => "Failed to start WS runtime: "@ + t,
        ErrorOf::StreamThread(t) => "Failed to spawn Deepgram stream thread: "@ + t,
        ErrorOf::ConnectTimeout => "Timed out after "@ + text::decimal(
            WS_CONNECT_TIMEOUT_SECS as nat,
        ) + "s connecting to Deepgram"@,
        ErrorOf::InvalidStreamUrl(t) => "Invalid Deepgram URL: "@ + t,
        ErrorOf::ConnectFailed(t) => "Deepgram WebSocket connect failed: "@ + t,
        ErrorOf::FluxError(t) => "Deepgram Flux error: "@ + t,
        ErrorOf::StreamError(t) => "Deepgram stream error: "@ + t,
        ErrorOf::SocketError(t) => "Deepgram WebSocket error: "@ + t,
        ErrorOf::AudioNotSent(t) => "Failed to send audio to Deepgram: "@ + t,
        ErrorOf::CloseNotSent(t) => "Failed to close Deepgram stream: "@ + t,
        ErrorOf::NoTranscript => "Deepgram stream ended without a transcript"@,
        ErrorOf::FinalizeTimeout => "Timed out after "@ + text::decimal(
            WS_FINALIZE_TIMEOUT_SECS as nat,
        ) + "s waiting for Deepgram to finalize"@,
    }
}

/// `detail` behind `lead`.
fn told(lead: &str, detail: &str) -> (r: String)
    ensures
        r@ == lead@ + detail@,
{
    let mut r = lead.to_string();
    r.append(detail);
    r
}

impl ErrorOf<String> {
    /// What the user is told.
    pub fn message(&self) -> (r: String)
        ensures
            r@ == error_text(self@),
    {
        match self {
            ErrorOf::MissingApiKey =>
                "Deepgram API key is not set. Add it in Settings → Transcription.".to_string(),
            ErrorOf::InvalidApiKey => "Deepgram API key contains invalid characters".to_string(),
            ErrorOf::Other(t) => t.as_str().to_string(),
            ErrorOf::RequestFailed(t) => told("Deepgram request failed: ", t.as_str()),
            ErrorOf::ReadFailed(t) => told("Failed to read Deepgram response: ", t.as_str()),
            ErrorOf::Rejected { status, body } => {
                let mut r = told("Deepgram returned ", status.as_str());
                r.append(": ");
                // The key is never echoed back, so the body is safe to show: it carries
                // the reason (a bad model, a bad key, ...).
                r.append(body.as_str().trim());
                r
            },
            ErrorOf::Unparseable { error, body } => {
                let mut r = told("Could not parse Deepgram response: ", error.as_str());
                r.append(" (body: ");
                r.append(body.as_str());
                r.append(")");
                r
            },
            ErrorOf::HttpRuntime(t) => told("Failed to start HTTP runtime: ", t.as_str()),
            ErrorOf::RequestThreadPanicked => "Deepgram request thread panicked".to_string(),
            ErrorOf::StreamRuntime(t) => told("Failed to start WS runtime: ", t.as_str()),
            ErrorOf::StreamThread(t) =>
                told("Failed to spawn Deepgram stream thread: ", t.as_str()),
            ErrorOf::ConnectTimeout => {
                let mut r = told(
                    "Timed out after ",
                    decimal_text(WS_CONNECT_TIMEOUT_SECS).as_str(),
                );
                r.append("s connecting to Deepgram");
                r
            },
            ErrorOf::InvalidStreamUrl(t) => told("Invalid Deepgram URL: ", t.as_str()),
            ErrorOf::ConnectFailed(t) => told("Deepgram WebSocket connect failed: ", t.as_str()),
            ErrorOf::FluxError(t) => told("Deepgram Flux error: ", t.as_str()),
            ErrorOf::StreamError(t) => told("Deepgram stream error: ", t.as_str()),
            ErrorOf::SocketError(t) => told("Deepgram WebSocket error: ", t.as_str()),
            ErrorOf::AudioNotSent(t) => told("Failed to send audio to Deepgram: ", t.as_str()),
            ErrorOf::CloseNotSent(t) => told("Failed to close Deepgram stream: ", t.as_str()),
            ErrorOf::NoTranscript => "Deepgram stream ended without a transcript".to_string(),
            ErrorOf::FinalizeTimeout => {
                let mut r = told(
                    "Timed out after ",
                    decimal_text(WS_FINALIZE_TIMEOUT_SECS).as_str(),
                );
                r.append("s waiting for Deepgram to finalize");
                r
            },
        }
    }
}

/// What an error carries is what was put into it.
pub proof fn law_errors_carry_their_cause(t: String, other: String)
    ensures
        ErrorOf::Other(t)@ == ErrorOf::Other(t@),
        ErrorOf::RequestFailed(t)@ == ErrorOf::RequestFailed(t@),
        ErrorOf::ReadFailed(t)@ == ErrorOf::ReadFailed(t@),
        (ErrorOf::Rejected { status: t, body: other })@ == (ErrorOf::Rejected {
            status: t@,
            body: other@,
        }),
        (ErrorOf::Unparseable { error: t, body: other })@ == (ErrorOf::Unparseable {
            error: t@,
            body: other@,
        }),
        ErrorOf::HttpRuntime(t)@ == ErrorOf::HttpRuntime(t@),
        ErrorOf::StreamRuntime(t)@ == ErrorOf::StreamRuntime(t@),
        ErrorOf::StreamThread(t)@ == ErrorOf::StreamThread(t@),
        ErrorOf::InvalidStreamUrl(t)@ == ErrorOf::InvalidStreamUrl(t@),
        ErrorOf::ConnectFailed(t)@ == ErrorOf::ConnectFailed(t@),
        ErrorOf::FluxError(t)@ == ErrorOf::FluxError(t@),
        ErrorOf::StreamError(t)@ == ErrorOf::StreamError(t@),
        ErrorOf::SocketError(t)@ == ErrorOf::SocketError(t@),
        ErrorOf::AudioNotSent(t)@ == ErrorOf::AudioNotSent(t@),
        ErrorOf::CloseNotSent(t)@ == ErrorOf::CloseNotSent(t@),
        ErrorOf::<String>::MissingApiKey@ == ErrorOf::<Seq<char>>::MissingApiKey,
        ErrorOf::<String>::InvalidApiKey@ == ErrorOf::<Seq<char>>::InvalidApiKey,
        ErrorOf::<String>::RequestThreadPanicked@ == ErrorOf::<Seq<char>>::RequestThreadPanicked,
        ErrorOf::<String>::ConnectTimeout@ == ErrorOf::<Seq<char>>::ConnectTimeout,
        ErrorOf::<String>::NoTranscript@ == ErrorOf::<Seq<char>>::NoTranscript,
        ErrorOf::<String>::FinalizeTimeout@ == ErrorOf::<Seq<char>>::FinalizeTimeout,
{
}

/// The user is told the whole cause of an error: behind the words that tell the kind of
/// error, and with nothing behind it.
pub proof fn law_causes_are_told_in_full(t: Seq<char>)
    ensures
        error_text(ErrorOf::Other(t)) == t,
        error_text(ErrorOf::RequestFailed(t)) == "Deepgram request failed: "@ + t,
        error_text(ErrorOf::ReadFailed(t)) == "Failed to read Deepgram response: "@ + t,
        error_text(ErrorOf::HttpRuntime(t)) == "Failed to start HTTP runtime: "@ + t,
        error_text(ErrorOf::StreamRuntime(t)) == "Failed to start WS runtime: "@ + t,
        error_text(ErrorOf::StreamThread(t)) == "Failed to spawn Deepgram stream thread: "@ + t,
        error_text(ErrorOf::InvalidStreamUrl(t)) == "Invalid Deepgram URL: "@ + t,
        error_text(ErrorOf::ConnectFailed(t)) == "Deepgram WebSocket connect failed: "@ + t,
        error_text(ErrorOf::FluxError(t)) == "Deepgram Flux error: "@ + t,
        error_text(ErrorOf::StreamError(t)) == "Deepgram stream error: "@ + t,
        error_text(ErrorOf::SocketError(t)) == "Deepgram WebSocket error: "@ + t,
        error_text(ErrorOf::AudioNotSent(t)) == "Failed to send audio to Deepgram: "@ + t,
        error_text(ErrorOf::CloseNotSent(t)) == "Failed to close Deepgram stream: "@ + t,
{
}

/// An answer that was refused or could not be read is quoted: the status or the problem,
/// and the body, which a refusal quotes without the white space around it.
pub proof fn law_answers_are_quoted(
    first: Seq<char>,
    lead: Seq<char>,
    words: Seq<char>,
    tail: Seq<char>,
)
    requires
        text::is_blank(lead),
        text::is_blank(tail),
        text::is_trimmed(words),
    ensures
        error_text(ErrorOf::Rejected { status: first, body: lead + words + tail })
            == "Deepgram returned "@ + first + ": "@ + words,
        error_text(ErrorOf::Unparseable { error: first, body: lead + words + tail })
            == "Could not parse Deepgram response: "@ + first + " (body: "@ + (lead + words + tail)
            + ")"@,
{
    text::law_trimming_drops_padding(lead, words, tail);
}

} // verus!

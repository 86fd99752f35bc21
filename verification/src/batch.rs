//! Transcribing a recording that is over, in one request.

use vstd::prelude::*;

use crate::audio::{self, linear16};
use crate::error::{ErrorOf, SttError};
use crate::frames::{self, DeepgramResponse};
use crate::headers::{self, build_headers};
use crate::query::CloudSttRequest;
use crate::text;
use crate::url::{self, build_url};

use reqwest::header::HeaderMap;

verus! {

/// How many seconds a batch request may take.
pub const REQUEST_TIMEOUT_SECS: u64 = 60;

/// What is sent: a `POST` of the body, with the headers, to the address.
#[derive(Debug)]
pub struct BatchRequest {
    pub url: String,
    pub headers: HeaderMap,
    pub body: Vec<u8>,
}

/// Whether a key is there: more than white space.
pub open spec fn has_key(req: CloudSttRequest) -> bool {
    text::trimmed(req.api_key@).len() > 0
}

/// Fails where the request has no key.
pub fn require_key(req: &CloudSttRequest) -> (r: Result<(), SttError>)
    ensures
        match r {
            Ok(()) => has_key(*req),
            Err(error) => !has_key(*req) && error@ == ErrorOf::<Seq<char>>::MissingApiKey,
        },
{
    if req.api_key.as_str().trim().is_empty() {
        Err(ErrorOf::MissingApiKey)
    } else {
        Ok(())
    }
}

/// The request that transcribes a recording.
pub fn batch_request(req: &CloudSttRequest, samples: &[i16]) -> (r: Result<BatchRequest, SttError>)
    ensures
        match r {
            Ok(sent) => {
                &&& has_key(*req)
                &&& headers::is_header_text(headers::token(req.api_key@))
                &&& sent.url@ == url::batch_url(*req)
                &&& headers::header_entries(sent.headers) == headers::request_headers(
                    req.api_key@,
                )
                &&& sent.body@ == audio::linear16_bytes(samples@)
            },
            Err(error) => if !has_key(*req) {
                error@ == ErrorOf::<Seq<char>>::MissingApiKey
            } else {
                &&& !headers::is_header_text(headers::token(req.api_key@))
                &&& error@ == ErrorOf::<Seq<char>>::InvalidApiKey
            },
        },
{
    match require_key(req) {
        Ok(()) => {},
        Err(error) => return Err(error),
    }
    let url = match build_url(req) {
        Ok(url) => url,
        Err(error) => return Err(error),
    };
    let body = linear16(samples);
    let headers = match build_headers(req.api_key.as_str()) {
        Ok(headers) => headers,
        Err(error) => return Err(error),
    };
    Ok(BatchRequest { url, headers, body })
}

/// A status that says that the request succeeded.
pub open spec fn is_success(code: u16) -> bool {
    200 <= code < 300
}

/// The text of a status: its number and its name.
pub uninterp spec fn status_text(code: u16) -> Seq<char>;

/// `reqwest::StatusCode::from_u16`, then its text, which depends on the number alone: the
/// number itself, a space, and a name for it.
#[verifier::external_body]
fn status_line(code: u16) -> (r: String)
    requires
        100 <= code <= 999,
    ensures
        r@ == status_text(code),
        (text::decimal(code as nat) + seq![' ']).is_prefix_of(r@),
{
    match reqwest::StatusCode::from_u16(code) {
        Ok(status) => status.to_string(),
        Err(error) => error.to_string(),
    }
}

/// The error for an answer with a status other than success.
pub fn rejected(status: &str, body: &str) -> (r: SttError)
    ensures
        r@ == (ErrorOf::Rejected { status: status@, body: body@ }),
{
    ErrorOf::Rejected { status: status.to_string(), body: body.to_string() }
}

/// Fails on an answer with a status other than success.
pub fn check_status(code: u16, body: &str) -> (r: Result<(), SttError>)
    requires
        100 <= code <= 999,
    ensures
        match r {
            Ok(()) => is_success(code),
            Err(error) => !is_success(code) && error@ == (ErrorOf::Rejected {
                status: status_text(code),
                body: body@,
            }),
        },
{
    if 200 <= code && code < 300 {
        Ok(())
    } else {
        Err(rejected(status_line(code).as_str(), body))
    }
}

/// The transcript in an answer, or the error for a body that is no such answer, with what
/// was wrong with it.
///
/// An empty or silent recording makes an answer with an empty transcript, which is not an
/// error.
pub fn parse_transcript(parsed: Result<DeepgramResponse, String>, body: &str) -> (r: Result<
    String,
    SttError,
>)
    ensures
        match parsed {
            Ok(response) => r is Ok && r->Ok_0@ == text::trimmed(frames::response_text(response)),
            Err(problem) => r is Err && r->Err_0@ == (ErrorOf::Unparseable {
                error: problem@,
                body: body@,
            }),
        },
{
    match parsed {
        Ok(response) => Ok(response.transcript().as_str().trim().to_string()),
        Err(problem) => Err(ErrorOf::Unparseable { error: problem, body: body.to_string() }),
    }
}

/// What comes of a batch request that was answered: its status decides first, then its
/// body.
pub fn batch_outcome(code: u16, body: &str, parsed: Result<DeepgramResponse, String>) -> (r: Result<
    String,
    SttError,
>)
    requires
        100 <= code <= 999,
    ensures
        if !is_success(code) {
            r is Err && r->Err_0@ == (ErrorOf::Rejected { status: status_text(code), body: body@ })
        } else {
            match parsed {
                Ok(response) => r is Ok && r->Ok_0@ == text::trimmed(
                    frames::response_text(response),
                ),
                Err(problem) => r is Err && r->Err_0@ == (ErrorOf::Unparseable {
                    error: problem@,
                    body: body@,
                }),
            }
        },
{
    match check_status(code, body) {
        Ok(()) => parse_transcript(parsed, body),
        Err(error) => Err(error),
    }
}

/// The transcript in an answer is all that the first alternative of its first channel says,
/// but for the white space around it: every character from the first to the last that is
/// not white space, in order.
pub proof fn law_the_transcript_is_whole(
    response: DeepgramResponse,
    said: String,
    lead: Seq<char>,
    words: Seq<char>,
    tail: Seq<char>,
)
    requires
        response.results is Some,
        response.results->0.channels@.len() > 0,
        response.results->0.channels@[0].alternatives@.len() > 0,
        response.results->0.channels@[0].alternatives@[0].transcript == Some(said),
        said@ == lead + words + tail,
        text::is_blank(lead),
        text::is_blank(tail),
        text::is_trimmed(words),
    ensures
        text::trimmed(frames::response_text(response)) == words,
{
    text::law_trimming_drops_padding(lead, words, tail);
}

/// A status says success exactly where its first of three digits is a two.
pub proof fn law_success_is_told_by_the_first_digit(code: u16)
    ensures
        is_success(code) <==> code / 100 == 2,
{
}

/// A key is there exactly where it has a character that is not white space.
pub proof fn law_a_key_has_some_character(req: CloudSttRequest)
    ensures
        has_key(req) <==> exists|i: int|
            0 <= i < req.api_key@.len() && !text::is_white_space(#[trigger] req.api_key@[i]),
{
    text::law_words_survive_trimming(req.api_key@);
}

} // verus!

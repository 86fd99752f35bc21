//! Opening a stream, and what comes of it in the end.

use vstd::prelude::*;

use crate::batch::{self, require_key};
use crate::error::{ErrorOf, SttError};
use crate::model::{is_flux_model, requested_model};
use crate::query::CloudSttRequest;
use crate::url::{self, build_ws_url};

verus! {

/// Where to connect, and what is spoken there.
#[derive(Debug)]
pub struct StreamPlan {
    pub url: String,
    /// Whether the stream is one of Flux.
    pub flux: bool,
}

/// Where to connect for a request.
pub fn stream_plan(req: &CloudSttRequest) -> (r: Result<StreamPlan, SttError>)
    ensures
        match r {
            Ok(plan) => {
                &&& batch::has_key(*req)
                &&& plan.url@ == url::stream_url(*req)
                &&& plan.flux == req.streams_flux()
            },
            Err(error) => !batch::has_key(*req) && error@ == ErrorOf::<
                Seq<char>,
            >::MissingApiKey,
        },
{
    match require_key(req) {
        Ok(()) => {},
        Err(error) => return Err(error),
    }
    let url = match build_ws_url(req) {
        Ok(url) => url,
        Err(error) => return Err(error),
    };
    let flux = is_flux_model(requested_model(req.model.as_str()));
    Ok(StreamPlan { url, flux })
}

/// Whether a stream is ready, from what its task reported in time, if it did.
pub fn connect_outcome(report: Option<Result<(), SttError>>) -> (r: Result<(), SttError>)
    ensures
        match report {
            Some(reported) => r == reported,
            None => r is Err && r->Err_0@ == ErrorOf::<Seq<char>>::ConnectTimeout,
        },
{
    match report {
        Some(reported) => reported,
        None => Err(ErrorOf::ConnectTimeout),
    }
}

/// What came of waiting for the result of a stream.
pub enum FinalReport {
    /// The session ended with this result, and was asked to flush before that or was not.
    Ended { flushed: bool, result: Result<String, SttError> },
    /// The session's task is gone without a word.
    Gone,
    /// Nothing came in time.
    Late,
}

/// Whether a result is the one that a report calls for.
///
/// A session that was never asked to flush did not end for its owner's sake: the socket
/// was dead, and audio that was fed since is lost. The transcript so far is then no result.
pub open spec fn calls_for(report: FinalReport, r: Result<String, SttError>) -> bool {
    match report {
        FinalReport::Ended { flushed, result } => if result is Ok && !flushed {
            r is Err && r->Err_0@ == ErrorOf::<Seq<char>>::NoTranscript
        } else {
            r == result
        },
        FinalReport::Gone => r is Err && r->Err_0@ == ErrorOf::<Seq<char>>::NoTranscript,
        FinalReport::Late => r is Err && r->Err_0@ == ErrorOf::<Seq<char>>::FinalizeTimeout,
    }
}

/// The result of a stream. A socket that died before the flush is an error here.
pub fn finalize_outcome(report: FinalReport) -> (r: Result<String, SttError>)
    ensures
        calls_for(report, r),
{
    match report {
        FinalReport::Ended { flushed, result } => match result {
            Ok(transcript) => if flushed {
                Ok(transcript)
            } else {
                Err(ErrorOf::NoTranscript)
            },
            Err(error) => Err(error),
        },
        FinalReport::Gone => Err(ErrorOf::NoTranscript),
        FinalReport::Late => Err(ErrorOf::FinalizeTimeout),
    }
}

/// Where a flushed session has a transcript, that is the result, whole and unchanged; an
/// error that ended a session is the result whether it was flushed or not; and in every
/// other case the result is an error, which tells a session that is late from one that
/// has nothing to give.
pub proof fn law_reports_are_passed_on(report: FinalReport, r: Result<String, SttError>)
    requires
        calls_for(report, r),
    ensures
        report matches FinalReport::Ended { flushed, result: Ok(said) } ==> if flushed {
            r is Ok && r->Ok_0@ == said@
        } else {
            r is Err && r->Err_0@ is NoTranscript
        },
        report matches FinalReport::Ended { flushed, result: Err(error) } ==> r is Err && r->Err_0@
            == error@,
        report is Gone ==> r is Err && r->Err_0@ is NoTranscript,
        report is Late ==> r is Err && r->Err_0@ is FinalizeTimeout,
{
}

} // verus!

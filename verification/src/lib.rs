//! Cloud speech-to-text over Deepgram.
//!
//! A recording is transcribed in one of two ways. Once it is over, it can be sent whole
//! ([`batch`]). Or a stream is opened when it starts and fed while the user speaks
//! ([`stream`], [`session`]), so that by the time the user stops all but the last moment
//! has been transcribed. This crate holds what both ways decide and compute; the socket,
//! the threads and the channels belong to the caller.

pub mod audio;
pub mod batch;
pub mod error;
pub mod flux;
pub mod frames;
pub mod headers;
pub mod live;
pub mod model;
pub mod query;
pub mod session;
pub mod stream;
pub mod text;
pub mod url;

pub use batch::{batch_outcome, batch_request, parse_transcript, BatchRequest};
pub use error::SttError;
pub use flux::FluxTranscript;
pub use headers::build_headers;
pub use live::LiveTranscript;
pub use model::{
    batch_model, deepgram_language, is_flux_model, model_accepts_keyterms, DEEPGRAM_DEFAULT_MODEL,
    DEEPGRAM_FLUX_MODEL, DEEPGRAM_PROVIDER_ID,
};
pub use query::CloudSttRequest;
pub use session::{WsCmd, WsEvent, WsSession};
pub use stream::{stream_plan, StreamPlan};
pub use url::{build_flux_ws_url, build_url, build_ws_url};

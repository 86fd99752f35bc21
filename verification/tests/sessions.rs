use serde_json::Value;
use stt_cloud::batch::{check_status, rejected};
use stt_cloud::frames::{
    DeepgramAlternative, DeepgramChannel, DeepgramLiveMessage, DeepgramResponse, DeepgramResults,
    FluxLiveMessage,
};
use stt_cloud::session::Next;
use stt_cloud::stream::{connect_outcome, finalize_outcome, FinalReport};
use stt_cloud::{batch_outcome, parse_transcript, SttError, WsCmd, WsEvent, WsSession};

fn text(value: &Value, name: &str) -> Option<String> {
    value.get(name).and_then(Value::as_str).map(str::to_string)
}

fn channel(value: &Value) -> DeepgramChannel {
    let alternatives = value.get("alternatives").and_then(Value::as_array).unwrap();
    DeepgramChannel {
        alternatives: alternatives
            .iter()
            .map(|a| DeepgramAlternative { transcript: text(a, "transcript") })
            .collect(),
    }
}

fn response(body: &str) -> Result<DeepgramResponse, String> {
    let value: Value = serde_json::from_str(body).map_err(|e| e.to_string())?;
    Ok(DeepgramResponse {
        results: value.get("results").map(|results| DeepgramResults {
            channels: results
                .get("channels")
                .and_then(Value::as_array)
                .unwrap()
                .iter()
                .map(channel)
                .collect(),
        }),
    })
}

fn live(frame: &str) -> DeepgramLiveMessage {
    let value: Value = serde_json::from_str(frame).unwrap();
    DeepgramLiveMessage {
        msg_type: text(&value, "type"),
        channel: value.get("channel").map(channel),
        is_final: value.get("is_final").and_then(Value::as_bool).unwrap_or(false),
        description: text(&value, "description"),
    }
}

fn flux(frame: &str) -> FluxLiveMessage {
    let value: Value = serde_json::from_str(frame).unwrap();
    FluxLiveMessage {
        msg_type: text(&value, "type"),
        event: text(&value, "event"),
        turn_index: value.get("turn_index").and_then(Value::as_u64).map(|i| i as u32),
        transcript: text(&value, "transcript"),
        code: text(&value, "code"),
        description: text(&value, "description"),
    }
}

fn live_event(frame: &str) -> WsEvent {
    WsEvent::Live { payload: frame.to_string(), msg: live(frame) }
}

fn flux_event(frame: &str) -> WsEvent {
    WsEvent::Flux { payload: frame.to_string(), info: flux(frame) }
}

fn turn(index: u32, event: &str, transcript: &str) -> WsEvent {
    flux_event(&format!(
        "{{\"type\":\"TurnInfo\",\"event\":\"{event}\",\"turn_index\":{index},\"transcript\":\"{transcript}\"}}"
    ))
}

fn result(transcript: &str, is_final: bool) -> WsEvent {
    live_event(&format!(
        "{{\"type\":\"Results\",\"channel\":{{\"alternatives\":[{{\"transcript\":\"{transcript}\"}}]}},\"is_final\":{is_final}}}"
    ))
}

/// Whether the session goes on, and what it shows.
fn play(session: &mut WsSession, event: WsEvent) -> (bool, Option<(String, String)>) {
    let step = session.step(event);
    let goes_on = match step.next {
        Next::Wait => true,
        Next::Finish => false,
        Next::SendAudio(_) | Next::SendText(_) => panic!("nothing is to be sent"),
    };
    (goes_on, step.update.map(|u| (u.committed, u.tentative)))
}

fn shown(committed: &str, tentative: &str) -> Option<(String, String)> {
    Some((committed.to_string(), tentative.to_string()))
}

fn send_audio(session: &mut WsSession, bytes: &[u8]) {
    let step = session.step(WsEvent::Command(WsCmd::Audio(bytes.to_vec())));
    assert!(matches!(step.next, Next::SendAudio(sent) if sent == bytes));
    assert!(step.update.is_none());
}

fn ask_to_close(session: &mut WsSession) {
    assert!(session.takes_commands());
    let step = session.step(WsEvent::Command(WsCmd::Close));
    assert!(matches!(step.next, Next::SendText(text) if text == r#"{"type":"CloseStream"}"#));
    assert!(!session.takes_commands());
}

#[test]
fn flux_error_frame_parses() {
    let frame = r#"{"type":"Error","code":"INVALID_AUTH","description":"bad key"}"#;
    let msg = flux(frame);
    assert_eq!(msg.msg_type.as_deref(), Some("Error"));
    assert_eq!(msg.description.as_deref(), Some("bad key"));

    let mut s = WsSession::new(true);
    assert_eq!(play(&mut s, flux_event(frame)), (false, None));
    assert_eq!(s.finish().unwrap_err(), SttError::FluxError("bad key".into()));
}

#[test]
fn flux_turninfo_frame_parses() {
    let frame = r#"{"type":"TurnInfo","event":"EndOfTurn","turn_index":3,
                "transcript":"all done","end_of_turn_confidence":0.94,"words":[]}"#;
    let msg = flux(frame);
    assert_eq!(msg.event.as_deref(), Some("EndOfTurn"));
    assert_eq!(msg.turn_index, Some(3));
    assert_eq!(msg.transcript.as_deref(), Some("all done"));

    // The frame ends turn 3, so its text is committed, between turns 2 and 4.
    let mut s = WsSession::new(true);
    play(&mut s, turn(4, "EndOfTurn", "more"));
    assert_eq!(play(&mut s, turn(3, "Update", "all")), (true, shown("more", "all")));
    assert_eq!(play(&mut s, flux_event(frame)), (true, shown("all done more", "")));
    play(&mut s, turn(2, "EndOfTurn", "first"));
    assert_eq!(s.finish().unwrap(), "first all done more");
}

#[test]
fn parses_transcript_out_of_response() {
    let body = r#"{"results":{"channels":[{"alternatives":[{"transcript":" hello world "}]}]}}"#;
    assert_eq!(parse_transcript(response(body), body).unwrap(), "hello world");
}

#[test]
fn silent_audio_yields_empty_string_not_error() {
    let body = r#"{"results":{"channels":[{"alternatives":[{"transcript":""}]}]}}"#;
    assert_eq!(parse_transcript(response(body), body).unwrap(), "");
    let no_channels = r#"{"results":{"channels":[]}}"#;
    assert_eq!(parse_transcript(response(no_channels), no_channels).unwrap(), "");
}

#[test]
fn live_results_frame_parses() {
    let frame = r#"{"type":"Results","channel":{"alternatives":[{"transcript":"hello"}]},"is_final":true}"#;
    let msg = live(frame);
    assert_eq!(msg.msg_type.as_deref(), Some("Results"));
    assert!(msg.is_final);
    assert_eq!(
        msg.channel.unwrap().alternatives[0].transcript.as_deref(),
        Some("hello")
    );

    let mut s = WsSession::new(false);
    assert_eq!(play(&mut s, live_event(frame)), (true, shown("hello", "")));
    assert_eq!(s.finish().unwrap(), "hello");
}

#[test]
fn metadata_and_error_frames_parse_without_a_channel() {
    // Both are terminal frames; neither carries a transcript.
    let meta_frame = r#"{"type":"Metadata","duration":1.5}"#;
    let meta = live(meta_frame);
    assert_eq!(meta.msg_type.as_deref(), Some("Metadata"));
    assert!(meta.channel.is_none());
    assert!(!meta.is_final);

    let err_frame = r#"{"type":"Error","description":"bad key"}"#;
    let err = live(err_frame);
    assert_eq!(err.description.as_deref(), Some("bad key"));

    let mut s = WsSession::new(false);
    play(&mut s, result("hello", true));
    assert_eq!(play(&mut s, live_event(meta_frame)), (false, None));
    assert_eq!(s.finish().unwrap(), "hello");

    let mut s = WsSession::new(false);
    play(&mut s, result("hello", true));
    assert_eq!(play(&mut s, live_event(err_frame)), (false, None));
    assert_eq!(s.finish().unwrap_err(), SttError::StreamError("bad key".into()));
}

#[test]
fn malformed_body_is_an_error() {
    assert!(parse_transcript(response("not json"), "not json").is_err());
}

#[test]
fn a_response_without_results_is_silence() {
    for body in [
        "{}",
        r#"{"results":{"channels":[{"alternatives":[]}]}}"#,
        r#"{"results":{"channels":[{"alternatives":[{}]}]}}"#,
    ] {
        assert_eq!(parse_transcript(response(body), body).unwrap(), "");
    }
}

#[test]
fn only_the_first_channel_and_alternative_count() {
    let body = r#"{"results":{"channels":[
        {"alternatives":[{"transcript":"a"},{"transcript":"b"}]},
        {"alternatives":[{"transcript":"c"}]}]}}"#;
    assert_eq!(batch_outcome(200, body, response(body)).unwrap(), "a");
}

#[test]
fn an_unparseable_body_is_quoted() {
    let error = parse_transcript(Err("no good".into()), "<html>").unwrap_err();
    assert_eq!(
        error.message(),
        "Could not parse Deepgram response: no good (body: <html>)"
    );
}

#[test]
fn the_status_decides_before_the_body() {
    let error = batch_outcome(401, " bad key\n", response("not json")).unwrap_err();
    assert_eq!(error.message(), "Deepgram returned 401 Unauthorized: bad key");
    for code in [100, 199, 300, 404, 500, 999] {
        assert!(check_status(code, "").is_err());
    }
    for code in [200, 204, 299] {
        assert!(check_status(code, "").is_ok());
    }
    assert_eq!(
        check_status(599, "x").unwrap_err(),
        rejected("599 <unknown status code>", "x")
    );
}

#[test]
fn errors_tell_what_happened() {
    let because = || "why".to_string();
    let told = [
        (
            SttError::MissingApiKey,
            "Deepgram API key is not set. Add it in Settings → Transcription.",
        ),
        (SttError::InvalidApiKey, "Deepgram API key contains invalid characters"),
        (SttError::Other(because()), "why"),
        (SttError::RequestFailed(because()), "Deepgram request failed: why"),
        (SttError::ReadFailed(because()), "Failed to read Deepgram response: why"),
        (
            SttError::Rejected { status: "500 X".into(), body: " b ".into() },
            "Deepgram returned 500 X: b",
        ),
        (
            SttError::Unparseable { error: because(), body: " b ".into() },
            "Could not parse Deepgram response: why (body:  b )",
        ),
        (SttError::HttpRuntime(because()), "Failed to start HTTP runtime: why"),
        (SttError::RequestThreadPanicked, "Deepgram request thread panicked"),
        (SttError::StreamRuntime(because()), "Failed to start WS runtime: why"),
        (SttError::StreamThread(because()), "Failed to spawn Deepgram stream thread: why"),
        (SttError::ConnectTimeout, "Timed out after 10s connecting to Deepgram"),
        (SttError::InvalidStreamUrl(because()), "Invalid Deepgram URL: why"),
        (SttError::ConnectFailed(because()), "Deepgram WebSocket connect failed: why"),
        (SttError::FluxError(because()), "Deepgram Flux error: why"),
        (SttError::StreamError(because()), "Deepgram stream error: why"),
        (SttError::SocketError(because()), "Deepgram WebSocket error: why"),
        (SttError::AudioNotSent(because()), "Failed to send audio to Deepgram: why"),
        (SttError::CloseNotSent(because()), "Failed to close Deepgram stream: why"),
        (SttError::NoTranscript, "Deepgram stream ended without a transcript"),
        (
            SttError::FinalizeTimeout,
            "Timed out after 12s waiting for Deepgram to finalize",
        ),
    ];
    for (error, message) in told {
        assert_eq!(error.message(), message);
    }
}

#[test]
fn a_flux_session_ends_with_the_turn_that_covers_its_audio() {
    let mut s = WsSession::new(true);
    assert!(s.is_flux());
    assert_eq!(play(&mut s, flux_event(r#"{"type":"Connected"}"#)), (true, None));
    send_audio(&mut s, &[1, 2, 3]);
    assert_eq!(play(&mut s, turn(0, "StartOfTurn", "")), (true, shown("", "")));
    assert_eq!(play(&mut s, turn(0, "Update", "hello")), (true, shown("", "hello")));
    assert_eq!(play(&mut s, turn(0, "Update", " hello ")), (true, None));
    ask_to_close(&mut s);
    assert_eq!(play(&mut s, WsEvent::CloseSent), (true, None));
    assert_eq!(play(&mut s, turn(0, "Update", "hello you")), (true, shown("", "hello you")));
    assert_eq!(play(&mut s, turn(0, "EndOfTurn", "Hello you.")), (false, shown("Hello you.", "")));
    assert_eq!(s.finish().unwrap(), "Hello you.");
}

#[test]
fn a_flux_session_with_nothing_pending_ends_at_once() {
    let mut s = WsSession::new(true);
    send_audio(&mut s, &[1]);
    assert_eq!(play(&mut s, turn(0, "EndOfTurn", "one")), (true, shown("one", "")));
    assert_eq!(play(&mut s, turn(1, "StartOfTurn", "")), (true, shown("one", "")));
    ask_to_close(&mut s);
    assert_eq!(play(&mut s, WsEvent::CloseSent), (false, None));
    assert_eq!(s.finish().unwrap(), "one");
}

#[test]
fn audio_after_the_end_of_a_turn_is_pending_again() {
    let mut s = WsSession::new(true);
    send_audio(&mut s, &[1]);
    play(&mut s, turn(0, "EndOfTurn", "one"));
    send_audio(&mut s, &[2]);
    play(&mut s, turn(1, "EagerEndOfTurn", "two"));
    ask_to_close(&mut s);
    assert_eq!(play(&mut s, WsEvent::CloseSent), (true, None));
    assert_eq!(play(&mut s, turn(1, "EndOfTurn", "two")), (false, shown("one two", "")));
    assert_eq!(s.finish().unwrap(), "one two");
}

#[test]
fn a_v1_session_ends_with_metadata() {
    let mut s = WsSession::new(false);
    assert!(!s.is_flux());
    send_audio(&mut s, &[0, 0]);
    assert_eq!(play(&mut s, result("hel", false)), (true, shown("", "hel")));
    assert_eq!(play(&mut s, result("hel", false)), (true, None));
    assert_eq!(play(&mut s, result("hello", true)), (true, shown("hello", "")));
    ask_to_close(&mut s);
    assert_eq!(play(&mut s, WsEvent::CloseSent), (true, None));
    assert_eq!(play(&mut s, result("you", true)), (true, shown("hello you", "")));
    assert_eq!(play(&mut s, live_event(r#"{"type":"Metadata","duration":1.5}"#)), (false, None));
    assert_eq!(s.finish().unwrap(), "hello you");
}

#[test]
fn frames_without_a_transcript_are_read_as_silence() {
    let mut s = WsSession::new(false);
    play(&mut s, result("uh", false));
    assert_eq!(
        play(&mut s, live_event(r#"{"type":"Results","is_final":true}"#)),
        (true, shown("", ""))
    );
    assert_eq!(play(&mut s, live_event("{}")), (true, None));
    assert_eq!(play(&mut s, WsEvent::Unreadable), (true, None));
    assert_eq!(play(&mut s, WsEvent::Other), (true, None));
    ask_to_close(&mut s);
    assert_eq!(play(&mut s, WsEvent::CloseSent), (true, None));
    assert_eq!(play(&mut s, WsEvent::Closed), (false, None));
    assert_eq!(finalize_outcome(s.report()).unwrap(), "");
}

#[test]
fn a_socket_that_dies_before_the_flush_is_surfaced() {
    let metadata = || live_event(r#"{"type":"Metadata"}"#);
    for flux in [true, false] {
        // Never used: the server dropped an idle connection.
        let mut s = WsSession::new(flux);
        assert_eq!(play(&mut s, WsEvent::Closed), (false, None));
        assert_eq!(finalize_outcome(s.report()).unwrap_err(), SttError::NoTranscript);

        // Dropped in the middle of a recording.
        for last in [WsEvent::Closed, WsEvent::Cancelled, metadata()] {
            let mut s = WsSession::new(flux);
            send_audio(&mut s, &[1, 2]);
            play(&mut s, turn(0, "EndOfTurn", "half"));
            play(&mut s, result("half", true));
            assert_eq!(play(&mut s, last), (false, None));
            assert!(s.takes_commands());
            assert_eq!(finalize_outcome(s.report()).unwrap_err(), SttError::NoTranscript);
        }
    }
}

#[test]
fn a_socket_that_fails_before_the_flush_says_why() {
    let mut s = WsSession::new(false);
    play(&mut s, result("half", true));
    assert_eq!(play(&mut s, WsEvent::Failed("reset".into())), (false, None));
    assert_eq!(
        finalize_outcome(s.report()).unwrap_err(),
        SttError::SocketError("reset".into())
    );
}

#[test]
fn a_socket_that_closes_after_the_flush_gives_the_transcript() {
    for flux in [true, false] {
        let mut s = WsSession::new(flux);
        send_audio(&mut s, &[1, 2]);
        play(&mut s, turn(0, "Update", "all of it"));
        play(&mut s, result("all of it", false));
        ask_to_close(&mut s);
        assert_eq!(play(&mut s, WsEvent::CloseSent), (true, None));
        assert_eq!(play(&mut s, WsEvent::Closed), (false, None));
        assert_eq!(finalize_outcome(s.report()).unwrap(), "all of it");
    }
}

#[test]
fn an_error_after_the_flush_is_an_error() {
    let mut s = WsSession::new(false);
    ask_to_close(&mut s);
    assert_eq!(play(&mut s, WsEvent::CloseNotSent("gone".into())), (false, None));
    assert_eq!(
        finalize_outcome(s.report()).unwrap_err(),
        SttError::CloseNotSent("gone".into())
    );
}

#[test]
fn a_turn_without_an_index_is_the_first() {
    let mut s = WsSession::new(true);
    play(&mut s, turn(1, "EndOfTurn", "b"));
    play(&mut s, flux_event(r#"{"type":"TurnInfo","event":"EndOfTurn","transcript":"a"}"#));
    assert_eq!(play(&mut s, WsEvent::Cancelled), (false, None));
    assert_eq!(s.finish().unwrap(), "a b");
}

#[test]
fn errors_end_a_session() {
    let why = || "why".to_string();
    let bare = r#"{"type":"Error"}"#;
    let cases = [
        (flux_event(r#"{"type":"Error","code":"C","description":"d"}"#), SttError::FluxError("d".into())),
        (flux_event(r#"{"type":"Error","code":"C"}"#), SttError::FluxError("C".into())),
        (flux_event(bare), SttError::FluxError(bare.into())),
        (live_event(r#"{"type":"Error","description":"d"}"#), SttError::StreamError("d".into())),
        (live_event(bare), SttError::StreamError(bare.into())),
        (WsEvent::Failed(why()), SttError::SocketError(why())),
        (WsEvent::AudioNotSent(why()), SttError::AudioNotSent(why())),
        (WsEvent::CloseNotSent(why()), SttError::CloseNotSent(why())),
    ];
    for (event, error) in cases {
        let mut s = WsSession::new(true);
        play(&mut s, turn(0, "EndOfTurn", "lost"));
        assert_eq!(play(&mut s, event), (false, None));
        assert_eq!(s.finish().unwrap_err(), error);
    }
}

#[test]
fn waiting_comes_to_an_end() {
    assert!(connect_outcome(Some(Ok(()))).is_ok());
    assert_eq!(
        connect_outcome(Some(Err(SttError::InvalidApiKey))).unwrap_err(),
        SttError::InvalidApiKey
    );
    assert_eq!(connect_outcome(None).unwrap_err(), SttError::ConnectTimeout);
    let ended = |flushed, result| finalize_outcome(FinalReport::Ended { flushed, result });
    assert_eq!(ended(true, Ok("a".into())).unwrap(), "a");
    assert_eq!(ended(true, Ok("".into())).unwrap(), "");
    assert_eq!(ended(false, Ok("a".into())).unwrap_err(), SttError::NoTranscript);
    for flushed in [true, false] {
        assert_eq!(
            ended(flushed, Err(SttError::InvalidApiKey)).unwrap_err(),
            SttError::InvalidApiKey
        );
    }
    assert_eq!(finalize_outcome(FinalReport::Gone).unwrap_err(), SttError::NoTranscript);
    assert_eq!(finalize_outcome(FinalReport::Late).unwrap_err(), SttError::FinalizeTimeout);
}

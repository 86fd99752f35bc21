use stt_cloud::headers::authorization;
use stt_cloud::query::{batch_query, flux_query, live_query};
use stt_cloud::text::{decimal_text, join_words};
use stt_cloud::{
    batch_model, batch_request, build_headers, build_url, build_ws_url, deepgram_language,
    is_flux_model, model_accepts_keyterms, stream_plan, CloudSttRequest, SttError,
    DEEPGRAM_DEFAULT_MODEL, DEEPGRAM_FLUX_MODEL, DEEPGRAM_PROVIDER_ID,
};

fn req() -> CloudSttRequest {
    CloudSttRequest {
        api_key: "k".to_string(),
        model: "nova-3".to_string(),
        language: "auto".to_string(),
        keyterms: vec![],
    }
}

/// Pinned to the English variant on purpose: these assertions are about the `/v2` wire
/// format, not about which model happens to be the default.
fn flux_req() -> CloudSttRequest {
    CloudSttRequest {
        model: "flux-general-en".to_string(),
        ..req()
    }
}

#[test]
fn only_keyterm_capable_models_suppress_the_fuzzy_pass() {
    assert!(model_accepts_keyterms("flux-general-multi"));
    assert!(model_accepts_keyterms("flux-general-en"));
    assert!(model_accepts_keyterms("nova-3"));
    assert!(model_accepts_keyterms("nova-3-general"));
    assert!(!model_accepts_keyterms("nova-2"));
    assert!(!model_accepts_keyterms("whisper-large"));
}

#[test]
fn flux_still_counts_as_prompted_after_the_batch_fallback() {
    assert!(model_accepts_keyterms(batch_model("flux-general-multi")));
}

#[test]
fn flux_asks_for_numerals() {
    let url = build_ws_url(&flux_req()).unwrap();
    assert!(url.contains("numerals=true"), "url was {url}");
    assert!(!url.contains("smart_format"));
}

#[test]
fn the_default_flux_model_is_multilingual() {
    assert!(is_flux_model(DEEPGRAM_FLUX_MODEL));
    assert!(DEEPGRAM_FLUX_MODEL.contains("multi"));
}

#[test]
fn flux_models_are_detected_by_prefix() {
    assert!(is_flux_model("flux-general-en"));
    assert!(is_flux_model("flux-general-multi"));
    assert!(is_flux_model("  flux-general-en  "));
    assert!(!is_flux_model("nova-3"));
    assert!(!is_flux_model("nova-3-flux"));
}

#[test]
fn flux_uses_the_v2_endpoint_and_turn_thresholds() {
    let url = build_ws_url(&flux_req()).unwrap();
    assert!(url.starts_with("wss://api.deepgram.com/v2/listen"));
    assert!(url.contains("model=flux-general-en"));
    assert!(url.contains("encoding=linear16"));
    assert!(url.contains("sample_rate=16000"));
    // The user decides when the turn ends, not Deepgram.
    assert!(url.contains("eot_threshold=0.9"));
    assert!(url.contains("eot_timeout_ms=60000"));
    // Parameters of /v1 alone must not get onto /v2.
    assert!(!url.contains("interim_results"));
    assert!(!url.contains("smart_format"));
    assert!(!url.contains("punctuate"));
    // flux-general-en takes no language parameter at all.
    assert!(!url.contains("language"));
}

#[test]
fn nova_still_uses_the_v1_endpoint() {
    let url = build_ws_url(&req()).unwrap();
    assert!(url.starts_with("wss://api.deepgram.com/v1/listen"));
    assert!(url.contains("interim_results=true"));
}

#[test]
fn flux_multi_passes_a_language_hint_but_not_for_auto() {
    let hinted = build_ws_url(&CloudSttRequest {
        model: "flux-general-multi".to_string(),
        language: "fr".to_string(),
        ..req()
    })
    .unwrap();
    assert!(hinted.contains("language_hint=fr"));

    let auto = build_ws_url(&CloudSttRequest {
        model: "flux-general-multi".to_string(),
        ..req()
    })
    .unwrap();
    assert!(!auto.contains("language_hint"));
}

#[test]
fn flux_forwards_keyterms() {
    let url = build_ws_url(&CloudSttRequest {
        keyterms: vec!["Handy".into(), "  ".into(), "Deepgram".into()],
        ..flux_req()
    })
    .unwrap();
    assert!(url.contains("keyterm=Handy"));
    assert!(url.contains("keyterm=Deepgram"));
    // blank entries are dropped rather than sent as empty pairs
    assert_eq!(url.matches("keyterm=").count(), 2);
}

#[test]
fn batch_falls_back_off_flux() {
    assert_eq!(batch_model("flux-general-en"), DEEPGRAM_DEFAULT_MODEL);
    assert_eq!(batch_model("nova-3"), "nova-3");
    let url = build_url(&flux_req()).unwrap();
    assert!(url.contains("model=nova-3"));
}

#[test]
fn auto_language_maps_to_multi() {
    assert_eq!(deepgram_language("auto"), "multi");
    assert_eq!(deepgram_language(""), "multi");
    assert_eq!(deepgram_language("en"), "en");
}

#[test]
fn url_carries_pcm_params_and_keyterms() {
    let mut r = req();
    r.keyterms = vec!["Safzan".into(), "  ".into(), "cliproxy".into()];
    let url = build_url(&r).unwrap();
    assert!(url.contains("model=nova-3"));
    assert!(url.contains("encoding=linear16"));
    assert!(url.contains("sample_rate=16000"));
    assert!(url.contains("channels=1"));
    assert!(url.contains("language=multi"));
    assert!(url.contains("keyterm=Safzan"));
    assert!(url.contains("keyterm=cliproxy"));
    // Blank entries are dropped rather than sent as empty keyterms.
    assert_eq!(url.matches("keyterm=").count(), 2);
}

#[test]
fn keyterms_are_omitted_for_non_nova3_models() {
    let mut r = req();
    r.model = "base-general".into();
    r.keyterms = vec!["Safzan".into()];
    let url = build_url(&r).unwrap();
    assert!(!url.contains("keyterm"));
    assert!(url.contains("model=base-general"));
}

#[test]
fn empty_model_falls_back_to_default() {
    let mut r = req();
    r.model = "   ".into();
    assert!(build_url(&r).unwrap().contains("model=nova-3"));
}

#[test]
fn ws_url_is_wss_and_requests_interim_results() {
    let url = build_ws_url(&req()).unwrap();
    assert!(url.starts_with("wss://api.deepgram.com/v1/listen"));
    assert!(url.contains("interim_results=true"));
    assert!(url.contains("encoding=linear16"));
    assert!(url.contains("sample_rate=16000"));
    assert!(url.contains("language=multi"));
}

#[test]
fn provider_and_models_are_named() {
    assert_eq!(DEEPGRAM_PROVIDER_ID, "deepgram");
    assert_eq!(DEEPGRAM_DEFAULT_MODEL, "nova-3");
    assert_eq!(DEEPGRAM_FLUX_MODEL, "flux-general-multi");
}

#[test]
fn batch_address_is_exact() {
    let mut r = req();
    r.language = " fr ".into();
    r.keyterms = vec![" Jean-Luc & Co ".into(), "\t".into(), "naïve=100%".into()];
    assert_eq!(
        build_url(&r).unwrap(),
        "https://api.deepgram.com/v1/listen?model=nova-3&encoding=linear16&sample_rate=16000\
         &channels=1&language=fr&smart_format=true&punctuate=true\
         &keyterm=Jean-Luc+%26+Co&keyterm=na%C3%AFve%3D100%25"
    );
}

#[test]
fn stream_address_is_exact() {
    let mut r = req();
    r.keyterms = vec!["a_b*c.d".into()];
    assert_eq!(
        build_ws_url(&r).unwrap(),
        "wss://api.deepgram.com/v1/listen?model=nova-3&encoding=linear16&sample_rate=16000\
         &channels=1&language=multi&smart_format=true&punctuate=true&interim_results=true\
         &keyterm=a_b*c.d"
    );
}

#[test]
fn flux_address_is_exact() {
    let r = CloudSttRequest {
        model: "  flux-general-multi ".to_string(),
        language: "de".to_string(),
        keyterms: vec!["~/?#".into()],
        ..req()
    };
    assert_eq!(
        build_ws_url(&r).unwrap(),
        "wss://api.deepgram.com/v2/listen?model=flux-general-multi&encoding=linear16\
         &sample_rate=16000&eot_threshold=0.9&eot_timeout_ms=60000&numerals=true\
         &language_hint=de&keyterm=%7E%2F%3F%23"
    );
}

#[test]
fn every_byte_is_written_as_the_form_syntax_has_it() {
    let mut expected = String::new();
    let mut term = String::new();
    for b in 33u8..127 {
        let c = char::from(b);
        term.push(c);
        if c.is_ascii_alphanumeric() || "*-._".contains(c) {
            expected.push(c);
        } else {
            expected.push_str(&format!("%{:02X}", b));
        }
    }
    let r = CloudSttRequest {
        keyterms: vec![term],
        ..flux_req()
    };
    assert!(build_ws_url(&r).unwrap().ends_with(&format!("&keyterm={expected}")));
}

#[test]
fn what_a_reader_makes_of_the_address_is_the_parameters() {
    let r = CloudSttRequest {
        model: "nova-3&model=evil#x".to_string(),
        keyterms: vec!["a=b&keyterm=c".into(), "été ☃ 🎙".into()],
        ..req()
    };
    let url = reqwest::Url::parse(&build_url(&r).unwrap()).unwrap();
    let read: Vec<(String, String)> = url
        .query_pairs()
        .map(|(name, value)| (name.into_owned(), value.into_owned()))
        .collect();
    assert_eq!(read, batch_query(&r));
    assert_eq!(url.fragment(), None);
}

#[test]
fn a_hundred_keyterms_are_sent_and_no_more() {
    let mut r = req();
    r.keyterms = (0..250).map(|i| if i % 2 == 0 { " ".to_string() } else { format!(" w{i} ") }).collect();
    let terms: Vec<String> = batch_query(&r)
        .into_iter()
        .filter(|(name, _)| name == "keyterm")
        .map(|(_, value)| value)
        .collect();
    assert_eq!(terms.len(), 100);
    assert_eq!(terms[0], "w1");
    assert_eq!(terms[99], "w199");
    r.keyterms.truncate(40);
    assert_eq!(live_query(&r).iter().filter(|(name, _)| name == "keyterm").count(), 20);
    assert_eq!(flux_query(&r, "flux").iter().filter(|(name, _)| name == "keyterm").count(), 20);
}

#[test]
fn a_flux_model_keeps_its_keyterms_on_the_batch_endpoint() {
    let r = CloudSttRequest {
        keyterms: vec!["Safzan".into()],
        ..flux_req()
    };
    let url = build_url(&r).unwrap();
    assert!(url.contains("model=nova-3&"));
    assert!(url.contains("keyterm=Safzan"));
}

#[test]
fn a_stream_of_an_older_model_gets_no_keyterms() {
    let r = CloudSttRequest {
        model: "nova-2".into(),
        keyterms: vec!["Safzan".into()],
        ..req()
    };
    assert!(!build_ws_url(&r).unwrap().contains("keyterm"));
}

#[test]
fn names_are_compared_as_they_stand_but_for_flux() {
    assert!(!model_accepts_keyterms(" nova-3"));
    assert!(model_accepts_keyterms(" flux"));
    assert!(!is_flux_model("Flux"));
    assert_eq!(batch_model(" nova-2 "), " nova-2 ");
    assert_eq!(batch_model(batch_model(" flux ")), "nova-3");
    assert_eq!(deepgram_language(" auto\n"), "multi");
    assert_eq!(deepgram_language("Auto"), "Auto");
    assert_eq!(deepgram_language(" pt-BR "), "pt-BR");
}

#[test]
fn white_space_is_what_unicode_says() {
    let white = |c: char| {
        matches!(
            u32::from(c),
            0x9..=0xd | 0x20 | 0x85 | 0xa0 | 0x1680 | 0x2000..=0x200a | 0x2028 | 0x2029 | 0x202f
                | 0x205f | 0x3000
        )
    };
    for c in '\u{0}'..=char::MAX {
        let blank = deepgram_language(&c.to_string()) == "multi";
        assert_eq!(blank, white(c), "{:?}", c);
    }
}

#[test]
fn headers_carry_the_key_and_the_type() {
    let headers = build_headers("abc 123").unwrap();
    assert_eq!(headers.len(), 2);
    assert_eq!(headers.get("authorization").unwrap().as_bytes(), b"Token abc 123");
    assert_eq!(
        headers.get("content-type").unwrap().as_bytes(),
        b"application/octet-stream"
    );
    assert_eq!(authorization("abc 123").unwrap().as_bytes(), b"Token abc 123");
}

#[test]
fn keys_with_control_characters_are_refused() {
    for c in '\u{0}'..='\u{ff}' {
        let key = format!("a{c}b");
        let refused = (c < ' ' && c != '\t') || c == '\u{7f}';
        assert_eq!(build_headers(&key).is_err(), refused, "{:?}", c);
        assert_eq!(authorization(&key).is_err(), refused, "{:?}", c);
    }
    let error = build_headers("a\nb").unwrap_err();
    assert_eq!(error, SttError::InvalidApiKey);
    assert_eq!(error.message(), "Deepgram API key contains invalid characters");
    assert_eq!(authorization("é").unwrap().as_bytes(), "Token é".as_bytes());
}

#[test]
fn a_batch_request_is_made_up_of_its_parts() {
    let sent = batch_request(&flux_req(), &[0, 1, -1]).unwrap();
    assert_eq!(sent.url, build_url(&flux_req()).unwrap());
    assert_eq!(sent.headers.get("authorization").unwrap(), "Token k");
    assert_eq!(sent.body, vec![0, 0, 1, 0, 255, 255]);
}

#[test]
fn nothing_is_sent_without_a_usable_key() {
    for key in ["", "  ", "\t\n"] {
        let mut r = req();
        r.api_key = key.to_string();
        let error = batch_request(&r, &[0; 16]).unwrap_err();
        assert_eq!(error, SttError::MissingApiKey);
        assert!(error.message().contains("API key is not set"));
        assert_eq!(stream_plan(&r).unwrap_err(), SttError::MissingApiKey);
    }
    let mut r = req();
    r.api_key = "a\u{7f}".to_string();
    assert_eq!(batch_request(&r, &[]).unwrap_err(), SttError::InvalidApiKey);
}

#[test]
fn a_stream_speaks_what_its_model_speaks() {
    let plan = stream_plan(&flux_req()).unwrap();
    assert!(plan.flux);
    assert_eq!(plan.url, build_ws_url(&flux_req()).unwrap());
    let mut r = req();
    r.model = String::new();
    let plan = stream_plan(&r).unwrap();
    assert!(!plan.flux);
    assert!(plan.url.starts_with("wss://api.deepgram.com/v1/listen?model=nova-3&"));
}

#[test]
fn numbers_and_lists_are_written_out() {
    assert_eq!(decimal_text(0), "0");
    assert_eq!(decimal_text(16000), "16000");
    assert_eq!(decimal_text(1234567890), "1234567890");
    assert_eq!(decimal_text(u64::MAX), u64::MAX.to_string());
    assert_eq!(join_words(&vec![]), "");
    assert_eq!(join_words(&vec!["a".into()]), "a");
    assert_eq!(join_words(&vec!["a".into(), "".into(), "b c".into()]), "a  b c");
}

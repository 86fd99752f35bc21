use stt_cloud::audio::linear16;
use stt_cloud::{FluxTranscript, LiveTranscript};

#[test]
fn flux_transcript_supersedes_within_a_turn() {
    let mut t = FluxTranscript::default();
    // Cumulative: the newest text for a turn replaces the older one.
    assert!(t.apply(0, "hello", false));
    assert!(t.apply(0, "hello there", false));
    assert_eq!(t.tentative(), "hello there");
    assert_eq!(t.committed(), "");
    assert_eq!(t.display(), "hello there");
    // Identical repeat is not a change.
    assert!(!t.apply(0, "hello there", false));
}

#[test]
fn flux_transcript_commits_on_end_of_turn() {
    let mut t = FluxTranscript::default();
    t.apply(0, "first turn", false);
    assert!(t.apply(0, "first turn", true));
    assert_eq!(t.committed(), "first turn");
    assert_eq!(t.tentative(), "");

    t.apply(1, "second", false);
    assert_eq!(t.committed(), "first turn");
    assert_eq!(t.tentative(), "second");
    assert_eq!(t.display(), "first turn second");
}

#[test]
fn flux_transcript_ignores_empty_frames() {
    let mut t = FluxTranscript::default();
    t.apply(0, "kept", false);
    // A turn that starts, or silence, must not erase what is held.
    t.apply(0, "", false);
    assert_eq!(t.display(), "kept");
    t.apply(0, "   ", true);
    assert_eq!(t.committed(), "kept");
}

#[test]
fn flux_turns_are_ordered_by_index_not_arrival() {
    let mut t = FluxTranscript::default();
    t.apply(2, "third", true);
    t.apply(0, "first", true);
    t.apply(1, "second", true);
    assert_eq!(t.display(), "first second third");
}

#[test]
fn interims_replace_the_tail_and_finals_append() {
    let mut t = LiveTranscript::default();

    assert!(t.apply("hello", false));
    assert_eq!(t.display(), "hello");
    // An identical interim is not a change.
    assert!(!t.apply("hello", false));

    // The interim is a hypothesis for the current utterance, so a longer one replaces it
    // rather than appending.
    assert!(t.apply("hello wor", false));
    assert_eq!(t.display(), "hello wor");

    // The final supersedes every interim for that utterance.
    assert!(t.apply("hello world", true));
    assert_eq!(t.display(), "hello world");
    assert_eq!(t.committed(), "hello world");
    assert_eq!(t.tentative, "");

    // The next utterance appends after the committed prefix.
    assert!(t.apply("how are you", false));
    assert_eq!(t.display(), "hello world how are you");
    assert!(t.apply("how are you?", true));
    assert_eq!(t.display(), "hello world how are you?");
}

#[test]
fn empty_final_clears_a_stale_tentative_tail() {
    let mut t = LiveTranscript::default();
    t.apply("uh", false);
    assert!(t.apply("", true));
    assert_eq!(t.display(), "");
    // ...and a second empty final is not a change worth showing.
    assert!(!t.apply("", true));
}

#[test]
fn silent_stream_finalizes_to_empty_string() {
    assert_eq!(LiveTranscript::default().display(), "");
}

#[test]
fn linear16_is_little_endian_i16() {
    // What +1.0, -1.0 and 0.0 are scaled to.
    let samples: Vec<i16> = [0.0f32, 1.0, -1.0].iter().map(|s| (s * i16::MAX as f32) as i16).collect();
    let bytes = linear16(&samples);
    assert_eq!(bytes.len(), 6);
    assert_eq!(&bytes[0..2], &0i16.to_le_bytes());
    assert_eq!(&bytes[2..4], &i16::MAX.to_le_bytes());
    assert_eq!(&bytes[4..6], &(-i16::MAX).to_le_bytes());
}

#[test]
fn every_sample_is_its_little_endian_bytes() {
    let samples: Vec<i16> = (i16::MIN..=i16::MAX).collect();
    let expected: Vec<u8> = samples.iter().flat_map(|s| s.to_le_bytes()).collect();
    assert_eq!(linear16(&samples), expected);
    assert_eq!(linear16(&[]), Vec::<u8>::new());
}

#[test]
fn only_finals_are_committed() {
    let mut t = LiveTranscript::default();
    for (text, is_final) in [
        ("one", false),
        (" one. ", true),
        ("noise", false),
        ("  ", true),
        ("tw", false),
        ("two", true),
        ("\tthr\n", false),
    ] {
        t.apply(text, is_final);
    }
    assert_eq!(t.committed, vec!["one.".to_string(), "two".to_string()]);
    assert_eq!(t.committed(), "one. two");
    assert_eq!(t.tentative, "thr");
    assert_eq!(t.display(), "one. two thr");
}

#[test]
fn a_blank_interim_empties_the_tail() {
    let mut t = LiveTranscript::default();
    assert!(!t.apply("  ", false));
    assert!(t.apply("a", true));
    assert!(t.apply("b", false));
    assert!(t.apply(" ", false));
    assert_eq!(t.display(), "a");
}

#[test]
fn turns_may_arrive_in_any_order() {
    let frames = [(7u32, "seven"), (0, "zero"), (u32::MAX, "last"), (3, "three")];
    let orders = [[0, 1, 2, 3], [3, 2, 1, 0], [1, 3, 0, 2]];
    for order in orders {
        let mut t = FluxTranscript::default();
        for i in order {
            t.apply(frames[i].0, frames[i].1, true);
        }
        assert_eq!(t.display(), "zero three seven last");
        assert_eq!(t.committed(), "zero three seven last");
        assert_eq!(t.tentative(), "");
    }
}

#[test]
fn only_the_open_turn_is_tentative() {
    let mut t = FluxTranscript::default();
    t.apply(1, "b", true);
    t.apply(5, "d", false);
    t.apply(3, "c", false);
    t.apply(0, " a ", false);
    assert_eq!(t.committed(), "b c d");
    assert_eq!(t.tentative(), "a");
    assert_eq!(t.display(), "a b c d");
    // A turn that has opened without words yet.
    assert!(t.apply(9, "", false));
    assert_eq!(t.committed(), "a b c d");
    assert_eq!(t.tentative(), "");
    assert!(!t.apply(9, " ", false));
}

#[test]
fn a_turn_can_be_reworded_after_it_ended() {
    let mut t = FluxTranscript::default();
    assert!(t.apply(0, "helo", true));
    assert!(!t.apply(0, "helo ", true));
    assert!(t.apply(0, "hello", true));
    assert_eq!(t.display(), "hello");
    assert_eq!(FluxTranscript::default().display(), "");
}

use handy_meeting::meeting::{MeetingAudioSource, MeetingRecordingManager, MeetingTranscriptMergePolicy};
use handy_meeting::text::{char_is_whitespace, trim_str};
use handy_meeting::transcript::{
    merge_given_overlap, normalize_with_classes, trim_text, MeetingTranscriptSources,
    SegmentTranscriptMerger,
};

#[test]
fn prefers_system_when_transcripts_overlap() {
    let merged = MeetingRecordingManager::merge_segment_transcripts(
        MeetingTranscriptMergePolicy::SystemPriority,
        "Hey team we should ship tomorrow",
        "hey team we should ship tomorrow morning",
    );

    assert_eq!(merged, "Hey team we should ship tomorrow");
}

#[test]
fn keeps_both_when_transcripts_do_not_overlap() {
    let merged = MeetingRecordingManager::merge_segment_transcripts(
        MeetingTranscriptMergePolicy::SystemPriority,
        "System participant: can everyone hear me?",
        "Local note: I am muted on Zoom",
    );

    assert_eq!(
        merged,
        "System participant: can everyone hear me?\nLocal note: I am muted on Zoom"
    );
}

#[test]
fn keep_both_policy_keeps_overlap_sources() {
    let merged = MeetingRecordingManager::merge_segment_transcripts(
        MeetingTranscriptMergePolicy::KeepBoth,
        "yes we are shipping now",
        "yes we are shipping now",
    );

    assert_eq!(merged, "yes we are shipping now\nyes we are shipping now");
}

#[test]
fn falls_back_to_microphone_when_system_is_empty() {
    let merged = MeetingRecordingManager::merge_segment_transcripts(
        MeetingTranscriptMergePolicy::SystemPriority,
        "",
        "microphone only text",
    );

    assert_eq!(merged, "microphone only text");
}

#[test]
fn short_common_words_do_not_trigger_overlap() {
    assert!(!MeetingRecordingManager::transcripts_overlap(
        "okay yes",
        "yes okay"
    ));
}

#[test]
fn normalizes_for_comparison() {
    assert_eq!(
        MeetingRecordingManager::normalize_for_compare("  Hello,   WORLD!! it's\tme\n"),
        "hello world it s me"
    );
    assert_eq!(MeetingRecordingManager::normalize_for_compare("?!..."), "");
    assert_eq!(MeetingRecordingManager::normalize_for_compare(""), "");
    assert_eq!(MeetingRecordingManager::normalize_for_compare("Ünïcode Straße 42"), "Ünïcode straße 42");
}

#[test]
fn normalizing_twice_changes_nothing() {
    for t in ["  Hello,   WORLD!! it's\tme\n", "Ünïcode Straße 42", "?!...", "a-b_c  d"] {
        let once = MeetingRecordingManager::normalize_for_compare(t);
        assert_eq!(MeetingRecordingManager::normalize_for_compare(&once), once);
    }
    assert_eq!(
        MeetingRecordingManager::normalize_for_compare("Hey, TEAM!  ship-it"),
        "hey team ship it"
    );
}

#[test]
fn normalization_with_given_classes() {
    let text: Vec<char> = "Ab-c d".chars().collect();
    let classes = vec![true, true, false, true, false, true];
    let r: String = normalize_with_classes(&text, &classes).into_iter().collect();
    assert_eq!(r, "ab c d");
    let classes = vec![false; 6];
    let r: String = normalize_with_classes(&text, &classes).into_iter().collect();
    assert_eq!(r, "");
}

#[test]
fn overlap_cases() {
    // containment after normalization
    assert!(MeetingRecordingManager::transcripts_overlap("We ship, tomorrow!", "we ship tomorrow"));
    // empty after normalization
    assert!(!MeetingRecordingManager::transcripts_overlap("...", "anything at all"));
    // shared uncommon words: 3 of min 4 => coverage 0.75
    assert!(MeetingRecordingManager::transcripts_overlap(
        "budget report friday deadline",
        "deadline friday budget planning"
    ));
    // one shared word of five: no overlap
    assert!(!MeetingRecordingManager::transcripts_overlap(
        "alpha beta gamma delta epsilon",
        "alpha zeta eta theta iota"
    ));
    // coverage 2/5 and jaccard 2/8, but a shared pair of neighbouring words with 5 words each
    assert!(MeetingRecordingManager::transcripts_overlap(
        "alpha beta gamma delta epsilon",
        "zeta eta alpha beta theta"
    ));
    // the same with only four uncommon words on one side: no overlap
    // 2 shared of min 4 = 0.5 coverage, jaccard 2/7 < 0.35, and fewer than five words
    assert!(!MeetingRecordingManager::transcripts_overlap(
        "alpha beta gamma delta epsilon",
        "zeta alpha beta theta"
    ));
}

#[test]
fn overlap_is_symmetric_on_examples() {
    let samples = [
        "budget report friday deadline",
        "deadline friday budget planning",
        "alpha beta gamma delta epsilon",
        "zeta eta alpha beta theta",
        "okay yes",
        "",
        "We ship, tomorrow!",
    ];
    for a in samples {
        for b in samples {
            assert_eq!(
                MeetingRecordingManager::transcripts_overlap(a, b),
                MeetingRecordingManager::transcripts_overlap(b, a)
            );
        }
    }
}

#[test]
fn balanced_policy_keeps_longer_in_bytes() {
    let merged = MeetingRecordingManager::merge_segment_transcripts(
        MeetingTranscriptMergePolicy::Balanced,
        "we should ship tomorrow",
        "we should ship tomorrow morning",
    );
    assert_eq!(merged, "we should ship tomorrow morning");
    // on a tie the system transcript wins
    let merged = merge_given_overlap(
        MeetingTranscriptMergePolicy::Balanced,
        &"abc".chars().collect(),
        &"xyz".chars().collect(),
        true,
    );
    assert_eq!(merged.into_iter().collect::<String>(), "abc");
    // bytes, not characters: "ééé" is six bytes, "abcde" five
    let merged = merge_given_overlap(
        MeetingTranscriptMergePolicy::Balanced,
        &"abcde".chars().collect(),
        &"ééé".chars().collect(),
        true,
    );
    assert_eq!(merged.into_iter().collect::<String>(), "ééé");
    let merged = merge_given_overlap(
        MeetingTranscriptMergePolicy::SystemPriority,
        &"abc".chars().collect(),
        &"xyz".chars().collect(),
        false,
    );
    assert_eq!(merged.into_iter().collect::<String>(), "abc\nxyz");
}

#[test]
fn merge_trims_and_handles_blank_sides() {
    let merged = MeetingRecordingManager::merge_segment_transcripts(
        MeetingTranscriptMergePolicy::KeepBoth,
        "  system words \n",
        " \t ",
    );
    assert_eq!(merged, "system words");
    let merged = MeetingRecordingManager::merge_segment_transcripts(
        MeetingTranscriptMergePolicy::Balanced,
        "",
        "",
    );
    assert_eq!(merged, "");
}

#[test]
fn trimming_matches_std() {
    for s in ["", "  ", " a ", "\u{3000}x y\u{2029}", "\u{85}\u{a0}z", "abc", "\t\n a b \r"] {
        assert_eq!(trim_text(s), s.trim());
        assert_eq!(trim_str(s).into_iter().collect::<String>(), s.trim());
    }
}

#[test]
fn white_space_matches_std() {
    for u in 0u32..=0x10FFFF {
        if let Some(c) = char::from_u32(u) {
            assert_eq!(char_is_whitespace(c), c.is_whitespace(), "{:x}", u);
        }
    }
}

#[test]
fn segment_merger_drops_repeats_and_empties() {
    let mut m = SegmentTranscriptMerger::new(MeetingTranscriptMergePolicy::SystemPriority);
    m.add_segment("hello there".to_string(), "".to_string());
    m.add_segment("hello there".to_string(), "".to_string());
    m.add_segment("".to_string(), "".to_string());
    m.add_segment("".to_string(), "local words".to_string());
    let r = m.finish();
    assert_eq!(r.merged_text, "hello there\nlocal words");
    assert_eq!(r.system_text, "hello there\nhello there");
    assert_eq!(r.microphone_text, "local words");
    assert!(!r.needs_whole_transcription);
    let empty = SegmentTranscriptMerger::new(MeetingTranscriptMergePolicy::KeepBoth).finish();
    assert_eq!(empty.merged_text, "");
    assert_eq!(empty.system_text, "");
    assert!(empty.needs_whole_transcription);
}

#[test]
fn transcript_sources_attribute_text() {
    let s = MeetingTranscriptSources::for_segments(
        MeetingTranscriptMergePolicy::Balanced,
        3,
        "merged".to_string(),
        "".to_string(),
        "mic".to_string(),
    );
    assert_eq!(s.segment_count, 3);
    assert_eq!(s.merged_text, "merged");
    assert_eq!(s.system_text, None);
    assert_eq!(s.microphone_text, Some("mic".to_string()));

    let s = MeetingTranscriptSources::for_whole_recording(
        MeetingTranscriptMergePolicy::SystemPriority,
        MeetingAudioSource::SystemOnly,
        "text".to_string(),
    );
    assert_eq!(s.segment_count, 1);
    assert_eq!(s.system_text, Some("text".to_string()));
    assert_eq!(s.microphone_text, None);

    let s = MeetingTranscriptSources::for_whole_recording(
        MeetingTranscriptMergePolicy::SystemPriority,
        MeetingAudioSource::MicrophoneOnly,
        "".to_string(),
    );
    assert_eq!(s.system_text, None);
    assert_eq!(s.microphone_text, None);

    let s = MeetingTranscriptSources::for_whole_recording(
        MeetingTranscriptMergePolicy::KeepBoth,
        MeetingAudioSource::MicrophoneAndSystem,
        "mixed".to_string(),
    );
    assert_eq!(s.merged_text, "mixed");
    assert_eq!(s.system_text, None);
    assert_eq!(s.microphone_text, None);
}

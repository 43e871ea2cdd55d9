use voice_dictator::audio::{
    encode_frame_count, energy_frame_size, frame_position, leading_silence_cut, mono_len,
    resampled_len, source_position, trailing_silence_cut, AudioError, CaptureSession,
};
use voice_dictator::chunk::chunk_bounds;
use voice_dictator::enhance::{
    build_instructions, enhance_step, is_auto, validate_enhancement, EnhanceError, EnhanceStep,
    ValidationResult, SYSTEM_PROMPT_LANG_AFTER, SYSTEM_PROMPT_LANG_BEFORE,
};
use voice_dictator::retry::{
    backoff_secs, classify_status, key_check_result, rate_limit_wait, Failure, RetryState, StatusClass,
};
use voice_dictator::state::{
    hotkey_event, start_event, stop_event, transition, AppEvent, AppState, RecordingMode,
    StateCell,
};
use voice_dictator::stt::{
    deduplicate_overlap_texts, find_text_overlap, keep_chunk_text, word_overlap, language_field, transcribe_step,
    transcript_text, transcription_chunk_sec, SttError, TranscribeStep,
};
use voice_dictator::text::{count_words, decimal_string, join_from};
use voice_dictator::vad::{sanitize_threshold, SilenceGate, SilenceStatus};

fn quiet_keys(len: usize, window: usize, quiet_from: usize, quiet_to: usize) -> Vec<u32> {
    let step = window / 2;
    let mut keys = Vec::new();
    let mut start = 0;
    while start + window <= len {
        let quiet = start >= quiet_from && start + window <= quiet_to;
        keys.push(if quiet { 1 } else { 1000 });
        start += step;
    }
    keys
}

#[test]
fn mono_len_is_ceiling_of_frames() {
    assert_eq!(mono_len(10, 1), 10);
    assert_eq!(mono_len(10, 0), 10);
    assert_eq!(mono_len(1000, 2), 500);
    assert_eq!(mono_len(7, 2), 4);
    assert_eq!(mono_len(7, 3), 3);
    assert_eq!(mono_len(0, 4), 0);
}

#[test]
fn resampled_len_matches_ceiling_formula() {
    assert_eq!(resampled_len(44100, 44100, 16000), 16000);
    assert_eq!(resampled_len(3, 16000, 16000), 3);
    assert_eq!(resampled_len(0, 44100, 16000), 0);
    assert_eq!(resampled_len(10, 48000, 16000), 4);
    assert_eq!(resampled_len(5, 8000, 16000), 10);
}

#[test]
fn source_position_splits_index_and_fraction() {
    assert_eq!(source_position(0, 44100, 16000), (0, 0));
    assert_eq!(source_position(1, 44100, 16000), (2, 12100));
    assert_eq!(source_position(3, 8000, 16000), (1, 8000));
}

#[test]
fn energy_frame_is_twenty_ms() {
    assert_eq!(energy_frame_size(16000), 320);
    assert_eq!(energy_frame_size(44100), 882);
    assert_eq!(energy_frame_size(0), 0);
}

#[test]
fn leading_cut_removes_long_silence_only() {
    let loud = vec![false, false, false, true, true];
    assert_eq!(leading_silence_cut(&loud, 320, 1600, 3), 960);
    assert_eq!(leading_silence_cut(&loud, 320, 1600, 4), 0);
    let silent = vec![false; 5];
    assert_eq!(leading_silence_cut(&silent, 320, 1500, 3), 1500);
    assert_eq!(leading_silence_cut(&loud, 0, 1600, 3), 0);
}

#[test]
fn trailing_cut_removes_long_silence_only() {
    let loud = vec![true, true, false, false, false];
    assert_eq!(trailing_silence_cut(&loud, 320, 1500, 3), 640);
    assert_eq!(trailing_silence_cut(&loud, 320, 1500, 4), 1500);
    let silent = vec![false; 5];
    assert_eq!(trailing_silence_cut(&silent, 320, 1500, 2), 0);
    let tone = vec![true; 5];
    assert_eq!(trailing_silence_cut(&tone, 320, 1500, 25), 1500);
}

#[test]
fn silence_tone_silence_keeps_about_the_tone() {
    // 400 ms silence, 500 ms tone, 700 ms silence at 16 kHz, 20 ms frames.
    let mut loud = vec![false; 20];
    loud.extend(vec![true; 25]);
    loud.extend(vec![false; 35]);
    let len = 80 * 320;
    let start = leading_silence_cut(&loud, 320, len, 10);
    assert_eq!(start, 20 * 320);
    let rest = loud[20..].to_vec();
    let end = trailing_silence_cut(&rest, 320, len - start, 25);
    assert_eq!(end, 25 * 320);
}

#[test]
fn encode_frame_count_checks_rate_and_empty_input() {
    assert_eq!(encode_frame_count(0, 44100).unwrap(), 0);
    assert_eq!(encode_frame_count(320, 16000).unwrap(), 1);
    assert_eq!(encode_frame_count(321, 16000).unwrap(), 2);
    assert_eq!(encode_frame_count(8000, 16000).unwrap(), 25);
    match encode_frame_count(100, 44100) {
        Err(AudioError::EncodingFailed(m)) => assert_eq!(m, "expected 16000 Hz, got 44100 Hz"),
        other => panic!("unexpected {:?}", other),
    }
}

#[test]
fn frame_position_advances_granule_and_marks_last() {
    assert_eq!(frame_position(0, 3), (960, false));
    assert_eq!(frame_position(1, 3), (1920, false));
    assert_eq!(frame_position(2, 3), (2880, true));
}

#[test]
fn capture_session_rejects_double_start_and_stop() {
    let mut s = CaptureSession::new();
    assert!(matches!(s.stop(), Err(AudioError::NotRecording)));
    assert!(s.start().is_ok());
    assert!(matches!(s.start(), Err(AudioError::AlreadyRecording)));
    assert!(s.stop().is_ok());
    assert!(!s.active);
}

#[test]
fn audio_error_messages() {
    assert_eq!(AudioError::NoInputDevice.to_string(), "no audio input device found");
    assert_eq!(AudioError::AlreadyRecording.to_string(), "already recording");
    assert_eq!(AudioError::NotRecording.to_string(), "capture not started");
    assert_eq!(
        AudioError::NoInputConfig("x".to_string()).to_string(),
        "failed to get default input config: x"
    );
}

#[test]
fn chunk_bounds_single_chunk_for_short_audio() {
    let keys = quiet_keys(160_000, 320, 0, 0);
    assert_eq!(chunk_bounds(160_000, 16_000, 25, &keys), vec![(0, 160_000)]);
    assert_eq!(chunk_bounds(0, 16_000, 25, &Vec::new()), vec![(0, 0)]);
}

#[test]
fn chunk_bounds_invalid_params_give_whole_input() {
    assert_eq!(chunk_bounds(1_000_000, 0, 30, &Vec::new()), vec![(0, 1_000_000)]);
    assert_eq!(chunk_bounds(1_000_000, 16_000, 0, &Vec::new()), vec![(0, 1_000_000)]);
}

#[test]
fn chunk_bounds_cover_long_audio_without_gaps() {
    let rate = 16_000usize;
    let len = rate * 70;
    let keys = quiet_keys(len, 320, 0, 0);
    let chunks = chunk_bounds(len, 16_000, 30, &keys);
    assert!(chunks.len() >= 3);
    assert_eq!(chunks[0].0, 0);
    assert_eq!(chunks[chunks.len() - 1].1, len);
    for k in 0..chunks.len() - 1 {
        assert!(chunks[k].0 < chunks[k + 1].0);
        assert!(chunks[k + 1].0 <= chunks[k].1);
        assert!(chunks[k].1 - chunks[k].0 >= rate * 5);
    }
}

#[test]
fn chunk_bounds_cut_at_quiet_point_with_overlap() {
    let rate = 16_000usize;
    let len = rate * 45;
    // Quiet between 25 s and 26 s, inside the last 30% of the first window.
    let keys = quiet_keys(len, 320, rate * 25, rate * 26);
    let chunks = chunk_bounds(len, 16_000, 30, &keys);
    assert_eq!(chunks.len(), 2);
    let cut = chunks[0].1;
    assert!(cut >= rate * 25 && cut <= rate * 26, "cut at {}", cut);
    assert_eq!(chunks[1].0, cut - rate * 3 / 2);
    assert_eq!(chunks[1].1, len);
}

#[test]
fn chunk_bounds_merge_short_tail() {
    let rate = 16_000usize;
    // 33 s, quietest near 29.5 s: that cut would leave a tail under 5 s, so
    // the tail is merged into one chunk.
    let len = rate * 33;
    let keys = quiet_keys(len, 320, rate * 29, rate * 30);
    let chunks = chunk_bounds(len, 16_000, 30, &keys);
    assert_eq!(chunks.len(), 1);
    assert_eq!(chunks[0], (0, len));
}

#[test]
fn assembler_examples() {
    assert_eq!(deduplicate_overlap_texts(&[]), "");
    let texts = vec!["a b c d".to_string(), "c d e f".to_string()];
    assert_eq!(deduplicate_overlap_texts(&texts), "a b c d e f");
    let texts = vec!["A B C".to_string(), "b c".to_string()];
    assert_eq!(deduplicate_overlap_texts(&texts), "A B C");
    let texts = vec!["one two".to_string(), "three four".to_string()];
    assert_eq!(deduplicate_overlap_texts(&texts), "one two three four");
}

#[test]
fn join_from_and_count_words() {
    let ws = vec!["a".to_string(), "b".to_string(), "c".to_string()];
    assert_eq!(join_from(&ws, 0), "a b c");
    assert_eq!(join_from(&ws, 2), "c");
    assert_eq!(join_from(&ws, 3), "");
    assert_eq!(count_words("\u{3000}x\u{a0}y"), 2);
}

#[test]
fn decimal_string_writes_digits() {
    assert_eq!(decimal_string(0), "0");
    assert_eq!(decimal_string(7), "7");
    assert_eq!(decimal_string(1234567890), "1234567890");
    assert_eq!(decimal_string(u64::MAX), "18446744073709551615");
}

#[test]
fn validator_ratio_boundaries_are_inclusive() {
    let raw = "w w w w w w w w w w";
    // 3 of 10 words: ratio 0.3 exactly, accepted.
    assert_eq!(validate_enhancement(raw, "a b c"), ValidationResult::Accepted("a b c".to_string()));
    // 2 of 10 words: below 0.3.
    assert_eq!(validate_enhancement(raw, "a b"), ValidationResult::Fallback(raw.to_string()));
    // 15 of 10 words: ratio 1.5 exactly, accepted.
    let fifteen = "x ".repeat(15);
    assert_eq!(
        validate_enhancement(raw, &fifteen),
        ValidationResult::Accepted(fifteen.trim().to_string())
    );
    // 16 of 10 words: above 1.5.
    let sixteen = "x ".repeat(16);
    assert_eq!(validate_enhancement(raw, &sixteen), ValidationResult::Fallback(raw.to_string()));
}

#[test]
fn validator_short_raw_skips_ratio() {
    let long = "one two three four five six seven eight nine ten";
    assert_eq!(
        validate_enhancement("hi there", long),
        ValidationResult::Accepted(long.to_string())
    );
}

#[test]
fn validator_truncates_to_character_budget() {
    let raw = "a ".repeat(3000);
    let enhanced = "b ".repeat(3000);
    match validate_enhancement(&raw, &enhanced) {
        ValidationResult::Accepted(text) => {
            assert_eq!(text.chars().count(), 5000);
            assert_eq!(text, enhanced.trim()[..5000].to_string());
        }
        other => panic!("unexpected {:?}", other),
    }
}

#[test]
fn instructions_name_the_language() {
    assert!(is_auto("auto"));
    assert!(!is_auto("Auto"));
    let r = build_instructions(Some("ru"));
    assert_eq!(r, format!("{}ru{}", SYSTEM_PROMPT_LANG_BEFORE, SYSTEM_PROMPT_LANG_AFTER));
    assert_eq!(language_field(Some("auto")), None);
    assert_eq!(language_field(Some("en")), Some("en"));
    assert_eq!(language_field(None), None);
}

#[test]
fn failures_map_to_retry_discipline() {
    assert_eq!(SttError::RateLimited { retry_after_sec: 3 }.failure(), Failure::RateLimited(3));
    assert_eq!(SttError::Timeout.failure(), Failure::Transient);
    assert_eq!(SttError::ApiError { status: 404, message: String::new() }.failure(), Failure::Terminal);
    assert_eq!(EnhanceError::AuthFailed.failure(), Failure::Terminal);
    assert_eq!(EnhanceError::Network("x".into()).failure(), Failure::Transient);
}

#[test]
fn status_classes_and_waits() {
    assert_eq!(classify_status(200), StatusClass::Success);
    assert_eq!(classify_status(204), StatusClass::Success);
    assert_eq!(classify_status(401), StatusClass::Unauthorized);
    assert_eq!(classify_status(429), StatusClass::TooManyRequests);
    assert_eq!(classify_status(404), StatusClass::Failed);
    assert_eq!(classify_status(500), StatusClass::Failed);
    assert_eq!(rate_limit_wait(None), 5);
    assert_eq!(rate_limit_wait(Some(0)), 1);
    assert_eq!(rate_limit_wait(Some(30)), 30);
    assert_eq!(rate_limit_wait(Some(600)), 60);
}

#[test]
fn backoff_doubles_up_to_ceiling() {
    assert_eq!(backoff_secs(0), 1);
    assert_eq!(backoff_secs(1), 2);
    assert_eq!(backoff_secs(2), 4);
    assert_eq!(backoff_secs(3), 8);
    assert_eq!(backoff_secs(4), 16);
    assert_eq!(backoff_secs(40), 16);
}

#[test]
fn retry_budget_and_rate_limit_cap() {
    let mut s = RetryState::new(2);
    assert_eq!(s.on_failure(Failure::Transient), Some(1));
    assert_eq!(s.on_failure(Failure::Transient), Some(2));
    assert_eq!(s.on_failure(Failure::Transient), None);
    let mut s = RetryState::new(0);
    for _ in 0..5 {
        assert_eq!(s.on_failure(Failure::RateLimited(7)), Some(7));
    }
    assert_eq!(s.on_failure(Failure::RateLimited(7)), None);
    assert_eq!(s.on_failure(Failure::Terminal), None);
}

#[test]
fn enhance_step_falls_back_to_raw() {
    let mut s = RetryState::new(1);
    match enhance_step("raw text", Err(EnhanceError::AuthFailed), &mut s) {
        EnhanceStep::Done(t) => assert_eq!(t, "raw text"),
        other => panic!("unexpected {:?}", other),
    }
    assert_eq!(
        enhance_step("raw text", Err(EnhanceError::Timeout), &mut s),
        EnhanceStep::Retry(1)
    );
    assert_eq!(
        enhance_step("raw text", Err(EnhanceError::Timeout), &mut s),
        EnhanceStep::Done("raw text".to_string())
    );
    assert_eq!(
        enhance_step("raw text here", Ok("Raw text here.".to_string()), &mut s),
        EnhanceStep::Done("Raw text here.".to_string())
    );
    assert_eq!(
        enhance_step("raw text here", Ok("   ".to_string()), &mut s),
        EnhanceStep::Done("raw text here".to_string())
    );
}

#[test]
fn transcribe_step_propagates_terminal_errors() {
    let mut s = RetryState::new(1);
    assert!(matches!(
        transcribe_step(Err(SttError::AuthFailed), &mut s),
        TranscribeStep::Done(Err(SttError::AuthFailed))
    ));
    assert!(matches!(
        transcribe_step(Err(SttError::Network("x".into())), &mut s),
        TranscribeStep::Retry(1)
    ));
    assert!(matches!(
        transcribe_step(Err(SttError::Network("x".into())), &mut s),
        TranscribeStep::Done(Err(SttError::Network(_)))
    ));
    match transcribe_step(Ok("hello".to_string()), &mut s) {
        TranscribeStep::Done(Ok(t)) => assert_eq!(t, "hello"),
        other => panic!("unexpected {:?}", other),
    }
}

#[test]
fn transcript_text_rejects_blank() {
    assert_eq!(transcript_text("hi".to_string()).unwrap(), "hi");
    assert!(matches!(transcript_text(" \n".to_string()), Err(SttError::InvalidResponse(_))));
}

#[test]
fn chunk_sec_and_kept_texts() {
    assert!(matches!(transcription_chunk_sec(0, None), Err(SttError::EncodingFailed(_))));
    assert_eq!(transcription_chunk_sec(16000, None).unwrap(), 30);
    assert_eq!(transcription_chunk_sec(16000, Some(0)).unwrap(), 1);
    assert_eq!(transcription_chunk_sec(16000, Some(12)).unwrap(), 12);
    let mut texts = Vec::new();
    keep_chunk_text(&mut texts, "  first part ");
    keep_chunk_text(&mut texts, "   ");
    keep_chunk_text(&mut texts, "second");
    assert_eq!(texts, vec!["first part".to_string(), "second".to_string()]);
}

#[test]
fn silence_gate_tracks_and_times_out() {
    let mut g = SilenceGate::new(sanitize_threshold(Some(1000)));
    assert_eq!(g.process(false, 100), SilenceStatus::Silence(0));
    assert_eq!(g.process(false, 600), SilenceStatus::Silence(500));
    assert_eq!(g.process(false, 1100), SilenceStatus::SilenceTimeout);
    assert_eq!(g.process(true, 1200), SilenceStatus::Speech);
    assert_eq!(g.process(false, 1300), SilenceStatus::Silence(0));
    g.reset();
    assert_eq!(g.silence_start_ms, None);
    let mut z = SilenceGate::new(0);
    assert_eq!(z.process(false, 5), SilenceStatus::SilenceTimeout);
    assert_eq!(sanitize_threshold(None), 10_000);
}

#[test]
fn push_to_talk_cancels_on_release_during_processing() {
    let m = RecordingMode::PushToTalk;
    assert_eq!(transition(AppState::Transcribing, &AppEvent::HotkeyUp, &m), AppState::Idle);
    assert_eq!(transition(AppState::Enhancing, &AppEvent::HotkeyPressed, &m), AppState::Enhancing);
    assert_eq!(transition(AppState::Recording, &AppEvent::Cancel, &m), AppState::Recording);
    assert_eq!(
        transition(AppState::Error, &AppEvent::Failed("again".into()), &m),
        AppState::Error
    );
}

#[test]
fn hotkey_edges_map_to_events() {
    assert_eq!(hotkey_event(RecordingMode::Toggle, true), Some(AppEvent::HotkeyPressed));
    assert_eq!(hotkey_event(RecordingMode::Toggle, false), None);
    assert_eq!(hotkey_event(RecordingMode::PushToTalk, true), Some(AppEvent::HotkeyDown));
    assert_eq!(hotkey_event(RecordingMode::PushToTalk, false), Some(AppEvent::HotkeyUp));
    assert_eq!(start_event(RecordingMode::PushToTalk), AppEvent::HotkeyDown);
    assert_eq!(stop_event(RecordingMode::PushToTalk), AppEvent::HotkeyUp);
    assert_eq!(stop_event(RecordingMode::Toggle), AppEvent::HotkeyPressed);
}

#[test]
fn key_check_results() {
    assert_eq!(key_check_result(200), Ok(true));
    assert_eq!(key_check_result(401), Ok(false));
    assert_eq!(key_check_result(500), Err(500));
}

#[test]
fn word_overlap_on_lowered_words() {
    let w = |v: &[&str]| v.iter().map(|s| s.to_string()).collect::<Vec<String>>();
    // "Hello World" / "hello world again", once lowered.
    assert_eq!(word_overlap(&w(&["hello", "world"]), &w(&["hello", "world", "again"])), 2);
    assert_eq!(word_overlap(&w(&["Hello", "World"]), &w(&["hello", "world", "again"])), 0);
    assert_eq!(word_overlap(&w(&["x", "a", "b", "c"]), &w(&["a", "b", "c", "y"])), 3);
    assert_eq!(word_overlap(&w(&["a", "b"]), &w(&["b", "c"])), 0);
    assert_eq!(find_text_overlap("Hello World", "hello world again"), 2);
}

#[test]
fn transcribe_step_returns_received_error_when_giving_up() {
    let mut s = RetryState::new(0);
    match transcribe_step(Err(SttError::ApiError { status: 500, message: "boom".into() }), &mut s) {
        TranscribeStep::Done(Err(SttError::ApiError { status, message })) => {
            assert_eq!(status, 500);
            assert_eq!(message, "boom");
        }
        other => panic!("unexpected {:?}", other),
    }
    let mut s = RetryState::new(3);
    for _ in 0..5 {
        assert!(matches!(
            transcribe_step(Err(SttError::RateLimited { retry_after_sec: 9 }), &mut s),
            TranscribeStep::Retry(9)
        ));
    }
    assert!(matches!(
        transcribe_step(Err(SttError::RateLimited { retry_after_sec: 9 }), &mut s),
        TranscribeStep::Done(Err(SttError::RateLimited { retry_after_sec: 9 }))
    ));
}

#[test]
fn state_cell_dispatches_on_stored_state_and_mode() {
    let mut c = StateCell::new(RecordingMode::Toggle);
    assert_eq!(c.state, AppState::Idle);
    c.set_recording_mode(RecordingMode::PushToTalk);
    assert_eq!(c.dispatch_with_old(&AppEvent::HotkeyDown), (AppState::Idle, AppState::Recording));
    assert_eq!(c.dispatch_with_old(&AppEvent::HotkeyUp), (AppState::Recording, AppState::Transcribing));
    assert_eq!(c.mode, RecordingMode::PushToTalk);
}

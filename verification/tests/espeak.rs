use std::sync::Mutex;

use piper_rs::espeak::{check_language, check_line, duration_debug, set_voice_outcome, text_lines};

use piper_rs::espeak::{
    check_deadline, ensure_initialized, init_outcome, lock_outcome, phoneme_mode,
    strip_lang_switches, stuck_cursor, terminator_char, timeout_error, ClauseAccumulator,
    ESpeakError, TimeSpan,
    CLAUSE_INTONATION_COMMA, CLAUSE_INTONATION_EXCLAMATION, CLAUSE_INTONATION_FULL_STOP,
    CLAUSE_INTONATION_QUESTION, CLAUSE_TYPE_SENTENCE,
};

#[test]
fn is_timeout_true_only_for_the_timeout_variant() {
    assert!(ESpeakError::Timeout("timed out".to_string()).is_timeout());
    assert!(!ESpeakError::Failure("boom".to_string()).is_timeout());
}

#[test]
fn errs_when_elapsed_exceeds_timeout() {
    let result = check_deadline(TimeSpan::from_secs(6), TimeSpan::from_secs(5), "en-US");
    assert!(matches!(result, Err(ESpeakError::Timeout(_))));
}

#[test]
fn ok_when_elapsed_is_within_timeout() {
    let result = check_deadline(TimeSpan::from_secs(4), TimeSpan::from_secs(5), "en-US");
    assert!(result.is_ok());
}

#[test]
fn ok_when_elapsed_equals_timeout_exactly() {
    let result = check_deadline(TimeSpan::from_secs(5), TimeSpan::from_secs(5), "en-US");
    assert!(result.is_ok());
}

#[test]
fn the_timeout_message_names_the_language_and_the_limit() {
    let result = check_deadline(
        TimeSpan { secs: 5, nanos: 1 },
        TimeSpan::from_secs(5),
        "fr-FR",
    );
    assert_eq!(
        result,
        Err(ESpeakError::Timeout("Timed out phonemizing `fr-FR` text after 5s".to_string()))
    );
    let sub = check_deadline(TimeSpan { secs: 0, nanos: 2_000_000 }, TimeSpan { secs: 0, nanos: 1_500_000 }, "x");
    assert_eq!(
        sub,
        Err(ESpeakError::Timeout("Timed out phonemizing `x` text after 1.5ms".to_string()))
    );
}

#[test]
fn ok_when_the_lock_is_not_poisoned() {
    let lock = Mutex::new(0);
    assert!(lock_outcome(lock.lock().ok()).is_ok());
}

#[test]
fn a_poisoned_lock_is_a_failure_with_a_fixed_message() {
    let outcome: Result<u8, ESpeakError> = lock_outcome(None);
    assert_eq!(
        outcome,
        Err(ESpeakError::Failure(
            "espeak-ng lock poisoned by a prior panic; refusing to touch possibly-corrupted state"
                .to_string()
        ))
    );
    assert_eq!(lock_outcome(Some(3u8)), Ok(3u8));
}

#[test]
fn retries_after_a_previous_init_failure() {
    let mut initialized = false;

    let first = ensure_initialized(&mut initialized, || Err(ESpeakError::Failure("boom".to_string())));
    assert!(first.is_err());
    assert!(!initialized);

    let second = ensure_initialized(&mut initialized, || Ok(()));
    assert!(second.is_ok());
    assert!(initialized);
}

#[test]
fn does_not_reinitialize_once_successful() {
    let mut initialized = true;
    let mut calls = 0;

    let result = ensure_initialized(&mut initialized, || {
        calls += 1;
        Ok(())
    });

    assert!(result.is_ok());
    assert_eq!(calls, 0);
}

#[test]
fn init_outcome_accepts_a_positive_sample_rate() {
    assert_eq!(init_outcome(22050), Ok(()));
    assert_eq!(
        init_outcome(-1),
        Err(ESpeakError::Failure(
            "Failed to initialize eSpeak-ng (code -1). Try setting `PIPER_ESPEAKNG_DATA_DIRECTORY` to the directory containing `espeak-ng-data`."
                .to_string()
        ))
    );
    assert!(matches!(init_outcome(0), Err(ESpeakError::Failure(_))));
}

#[test]
fn terminators_render_as_their_punctuation() {
    assert_eq!(terminator_char(CLAUSE_INTONATION_FULL_STOP | CLAUSE_TYPE_SENTENCE), Some('.'));
    assert_eq!(terminator_char(CLAUSE_INTONATION_FULL_STOP), Some(':'));
    assert_eq!(terminator_char(CLAUSE_INTONATION_COMMA), Some(','));
    assert_eq!(terminator_char(CLAUSE_INTONATION_QUESTION | CLAUSE_TYPE_SENTENCE), Some('?'));
    assert_eq!(terminator_char(CLAUSE_INTONATION_EXCLAMATION), Some('!'));
    assert_eq!(terminator_char(0x4000), None);
}

#[test]
fn language_switch_markers_are_stripped() {
    assert_eq!(strip_lang_switches("(en)hɛloʊ(fr)"), "hɛloʊ");
    assert_eq!(strip_lang_switches("a(b(c)d)e"), "ae");
    assert_eq!(strip_lang_switches("x)y"), "xy");
    assert_eq!(strip_lang_switches("plain"), "plain");
}

#[test]
fn clauses_accumulate_into_sentences() {
    let mut acc = ClauseAccumulator::new();
    acc.push_clause("hɛloʊ", CLAUSE_INTONATION_COMMA);
    acc.push_clause("(en)wɜːld", CLAUSE_INTONATION_FULL_STOP | CLAUSE_TYPE_SENTENCE);
    acc.push_clause("baɪ", CLAUSE_INTONATION_QUESTION);
    acc.end_line();
    acc.end_line();
    assert_eq!(acc.into_sentences(), vec!["hɛloʊ,wɜːld.".to_string(), "baɪ?".to_string()]);
}

#[test]
fn an_empty_sentence_is_never_closed() {
    let mut acc = ClauseAccumulator::new();
    acc.push_clause("(en)", 0x4000 | CLAUSE_TYPE_SENTENCE);
    acc.end_line();
    assert!(acc.into_sentences().is_empty());
}

#[test]
fn phoneme_mode_carries_the_separator_above_the_low_byte() {
    assert_eq!(phoneme_mode(None), 0x02);
    assert_eq!(phoneme_mode(Some('_')), (('_' as i32) << 8) | 0x02);
}

#[test]
fn a_stuck_cursor_is_a_failure_naming_the_language() {
    assert_eq!(
        stuck_cursor("en-US", true),
        ESpeakError::Failure(
            "espeak_TextToPhonemes returned NULL without advancing past `en-US` text (stuck clause cursor)"
                .to_string()
        )
    );
    assert_eq!(
        stuck_cursor("en-US", false),
        ESpeakError::Failure(
            "espeak_TextToPhonemes did not advance past `en-US` text (stuck clause cursor)".to_string()
        )
    );
}

#[test]
fn errors_render_with_the_backend_prefix() {
    assert_eq!(ESpeakError::Timeout("t".to_string()).message(), "eSpeak-ng error: t");
    assert_eq!(ESpeakError::Failure("f".to_string()).message(), "eSpeak-ng error: f");
}

#[test]
fn a_timeout_error_names_the_language_and_the_rendered_limit() {
    assert_eq!(
        timeout_error("de-DE", "250ms"),
        ESpeakError::Timeout("Timed out phonemizing `de-DE` text after 250ms".to_string())
    );
}

#[test]
fn a_clause_loop_step_accumulates_and_detects_a_stuck_cursor() {
    let mut acc = ClauseAccumulator::new();
    assert_eq!(acc.on_clause(None, 0, true, "en-US"), None);
    assert_eq!(
        acc.on_clause(Some("a"), CLAUSE_INTONATION_FULL_STOP | CLAUSE_TYPE_SENTENCE, true, "en-US"),
        None
    );
    assert_eq!(
        acc.on_clause(Some("b"), CLAUSE_INTONATION_COMMA, false, "en-US"),
        Some(stuck_cursor("en-US", false))
    );
    assert_eq!(acc.on_clause(None, 0, false, "en-US"), Some(stuck_cursor("en-US", true)));
    acc.end_line();
    assert_eq!(acc.into_sentences(), vec!["a.".to_string(), "b,".to_string()]);
}

#[test]
fn text_is_split_into_lines_as_str_lines_does() {
    for text in ["", "a", "a\n", "a\nb", "a\r\nb\r\n", "\n\nx", "a\r", "a\rb\n\r\n", "é\u{0}x\n"] {
        let expected: Vec<String> = text.lines().map(|l| l.to_string()).collect();
        assert_eq!(text_lines(text), expected, "{text:?}");
    }
}

#[test]
fn nul_bytes_and_voice_failures_are_reported() {
    assert_eq!(check_language("en-US"), Ok(()));
    assert_eq!(
        check_language("en\u{0}US"),
        Err(ESpeakError::Failure("Language name contains a null byte".to_string()))
    );
    assert_eq!(check_line("hello"), Ok(()));
    assert_eq!(
        check_line("hel\u{0}lo"),
        Err(ESpeakError::Failure("Text contains a null byte".to_string()))
    );
    assert_eq!(set_voice_outcome(0, "en-US"), Ok(()));
    assert_eq!(
        set_voice_outcome(2, "xx"),
        Err(ESpeakError::Failure("Failed to set voice: `xx`".to_string()))
    );
}

#[test]
fn durations_render_as_std_debug_does() {
    let cases: [(u64, u32); 16] = [
        (0, 0), (0, 1), (0, 999), (0, 1_000), (0, 1_500), (0, 999_999), (0, 1_000_000),
        (0, 1_500_000), (0, 123_456_789), (1, 0), (5, 0), (5, 1), (5, 500_000_000),
        (7, 120_000_000), (u64::MAX, 999_999_999), (0, 100_010),
    ];
    for (secs, nanos) in cases {
        assert_eq!(
            duration_debug(secs, nanos),
            format!("{:?}", std::time::Duration::new(secs, nanos)),
            "{secs}s {nanos}ns"
        );
    }
}

use openbitfun_core::errors::OpenBitFunError;
use openbitfun_core::selectors::{
    parse_transcript_turn_selector, parse_transcript_turn_selectors, transcript_normalize_index,
    transcript_normalize_slice_bound, transcript_select_turn_indices, TranscriptTurnSelector,
};
use openbitfun_core::text::{
    decimal_text, parse_signed, parse_unsigned, rsplit_once, split, trim,
    white_space,
};
use openbitfun_core::transcript::{
    can_reuse_transcript, join_lines, materialized_session_reference, next_export_step,
    normalize_transcript_options,    select_reference_turns, select_transcript_turns, session_transcript_export, ExportEvent, ExportStep,
    RenderedTranscript,
    SessionTranscriptExportOptions, TranscriptLineRange,
};

fn texts(items: &[&str]) -> Vec<String> {
    items.iter().map(|item| item.to_string()).collect()
}

fn validation_text(error: OpenBitFunError) -> String {
    match error {
        OpenBitFunError::Validation(text) => text,
        other => panic!("unexpected error: {:?}", other),
    }
}

#[test]
fn transcript_turn_selectors_support_head_and_tail_ranges() {
    let selectors = parse_transcript_turn_selectors(&texts(&[":1", "-3:"]))
        .expect("selectors should parse");

    let selected = transcript_select_turn_indices(8, &selectors);

    assert_eq!(selected, vec![0, 5, 6, 7]);
}

#[test]
fn transcript_turn_selectors_deduplicate_and_sort_results() {
    let selectors = parse_transcript_turn_selectors(&texts(&["4", "2:5", "-1"]))
        .expect("selectors should parse");

    let selected = transcript_select_turn_indices(6, &selectors);

    assert_eq!(selected, vec![2, 3, 4, 5]);
}

#[test]
fn transcript_turn_selectors_reject_invalid_syntax() {
    let error = parse_transcript_turn_selectors(&texts(&["1:2:3"]))
        .expect_err("selector should be rejected");

    let text = validation_text(error);
    assert!(text.contains("Invalid turn selector"), "unexpected error: {}", text);
}

#[test]
fn selector_errors_say_what_is_wrong() {
    assert_eq!(
        validation_text(parse_transcript_turn_selectors(&Vec::new()).unwrap_err()),
        "turns cannot be an empty array"
    );
    assert_eq!(
        validation_text(parse_transcript_turn_selectors(&texts(&["1", "  "])).unwrap_err()),
        "turns cannot contain empty selectors"
    );
    assert_eq!(
        validation_text(parse_transcript_turn_selector(" 3:x ").unwrap_err()),
        "Invalid turn selector '3:x'. Use forms like ':20', '-20:', '10:30', or '15'."
    );
    assert_eq!(
        validation_text(parse_transcript_turn_selectors(&texts(&["a", ""])).unwrap_err()),
        "Invalid turn selector 'a'. Use forms like ':20', '-20:', '10:30', or '15'."
    );
}

#[test]
fn selectors_are_normalized_by_trimming() {
    let parsed = parse_transcript_turn_selector("\u{3000} 10:30\t").unwrap();
    assert_eq!(parsed.normalized, "10:30");
    assert_eq!(
        parsed.selector,
        TranscriptTurnSelector::Slice { start: Some(10), end: Some(30) }
    );
    let again = parse_transcript_turn_selector(&parsed.normalized).unwrap();
    assert_eq!(again.selector, parsed.selector);
    let open = parse_transcript_turn_selector(":").unwrap();
    assert_eq!(open.selector, TranscriptTurnSelector::Slice { start: None, end: None });
    let plus = parse_transcript_turn_selector("+4").unwrap();
    assert_eq!(plus.selector, TranscriptTurnSelector::Index(4));
}

#[test]
fn positions_count_from_either_end() {
    assert_eq!(transcript_normalize_index(5, -1), Some(4));
    assert_eq!(transcript_normalize_index(5, -6), None);
    assert_eq!(transcript_normalize_index(5, 5), None);
    assert_eq!(transcript_normalize_index(0, 0), None);
    assert_eq!(transcript_normalize_index(usize::MAX, 0), None);
    assert_eq!(transcript_normalize_slice_bound(usize::MAX, None, 7), 7);
    assert_eq!(transcript_normalize_slice_bound(5, None, 3), 3);
    assert_eq!(transcript_normalize_slice_bound(5, Some(-9), 3), 0);
    assert_eq!(transcript_normalize_slice_bound(5, Some(9), 3), 5);
    assert_eq!(transcript_normalize_slice_bound(5, Some(isize::MIN), 3), 0);
    let backwards = parse_transcript_turn_selectors(&texts(&["4:2"])).unwrap();
    assert_eq!(transcript_select_turn_indices(6, &backwards), Vec::<usize>::new());
}

#[test]
fn numerals_are_read_like_integers() {
    for text in ["0", "7", "+7", "007", "18446744073709551615", "", "+", "-1", "1_0", " 1", "x"] {
        assert_eq!(parse_unsigned(text), text.parse::<usize>().ok(), "{}", text);
    }
    for text in
        ["0", "-0", "+5", "-5", "9223372036854775807", "-9223372036854775808", "-", "--1", "1-"]
    {
        assert_eq!(parse_signed(text), text.parse::<isize>().ok(), "{}", text);
    }
    assert_eq!(parse_unsigned("18446744073709551616"), None);
    assert_eq!(parse_signed("9223372036854775808"), None);
    assert_eq!(parse_signed("-9223372036854775809"), None);
    assert_eq!(decimal_text(0), "0");
    assert_eq!(decimal_text(u64::MAX), u64::MAX.to_string());
}

#[test]
fn white_space_is_that_of_unicode() {
    for code in 0..=0x10ffffu32 {
        if let Some(c) = char::from_u32(code) {
            assert_eq!(white_space(c), c.is_whitespace(), "{:x}", code);
        }
    }
}

#[test]
fn trimming_and_splitting_follow_the_standard_library() {
    for text in ["", "  ", "a", " a ", "\u{85}a b\u{2003}", "\u{200b}a"] {
        assert_eq!(trim(text), text.trim());
    }
    for text in ["", ":", "a:b", "::", "a", "a::b:"] {
        assert_eq!(split(text, ':'), text.split(':').map(str::to_string).collect::<Vec<_>>());
        assert_eq!(
            rsplit_once(text, ':'),
            text.rsplit_once(':').map(|(a, b)| (a.to_string(), b.to_string()))
        );
    }
}

#[test]
fn export_options_hold_normalized_selectors() {
    let options = SessionTranscriptExportOptions {
        tools: true,
        tool_inputs: false,
        thinking: true,
        turns: Some(texts(&[" :2 ", "-1"])),
    };
    let normalized = normalize_transcript_options(&options).unwrap();
    assert_eq!(normalized.options.turns, Some(texts(&[":2", "-1"])));
    assert!(normalized.options.tools && !normalized.options.tool_inputs);
    assert!(normalized.options.thinking);
    assert_eq!(select_transcript_turns(5, &normalized.selectors), vec![0, 1, 4]);

    let everything = SessionTranscriptExportOptions {
        tools: false,
        tool_inputs: false,
        thinking: false,
        turns: None,
    };
    let normalized = normalize_transcript_options(&everything).unwrap();
    assert!(normalized.selectors.is_none());
    assert_eq!(select_transcript_turns(3, &normalized.selectors), vec![0, 1, 2]);

    let none = SessionTranscriptExportOptions {
        tools: false,
        tool_inputs: false,
        thinking: false,
        turns: Some(Vec::new()),
    };
    assert!(normalize_transcript_options(&none).is_err());
}

#[test]
fn stored_transcripts_are_reused_only_when_they_match() {
    let range = TranscriptLineRange { start_line: 3, end_line: 9 };
    let blank = TranscriptLineRange { start_line: 0, end_line: 9 };
    let stored = Some("abc".to_string());
    assert!(can_reuse_transcript(true, &stored, range, "abc"));
    assert!(!can_reuse_transcript(false, &stored, range, "abc"));
    assert!(!can_reuse_transcript(true, &stored, range, "abd"));
    assert!(!can_reuse_transcript(true, &stored, blank, "abc"));
    assert!(!can_reuse_transcript(true, &None, range, "abc"));
}

#[test]
fn exported_transcripts_are_recorded() {
    let rendered = RenderedTranscript {
        lines: texts(&["one", "two"]),
        index_range: TranscriptLineRange { start_line: 1, end_line: 1 },
        turn_ranges: vec![TranscriptLineRange { start_line: 2, end_line: 2 }],
    };
    assert_eq!(join_lines(&rendered.lines), "one\ntwo");
    assert_eq!(join_lines(&Vec::new()), "");
    let options = SessionTranscriptExportOptions {
        tools: true,
        tool_inputs: true,
        thinking: false,
        turns: None,
    };
    let export = session_transcript_export(
        "session",
        "/t.txt".to_string(),
        5,
        "fp".to_string(),
        options,
        &vec![4],
        rendered,
    );
    assert_eq!(export.line_count, 2);
    assert_eq!(export.turn_count, 1);
    assert_eq!(export.index.len(), 1);
    assert!(export.includes_tools && !export.includes_thinking);
}

#[test]
fn references_hold_the_newest_whole_turns() {
    assert_eq!(select_reference_turns(&Vec::new()), Vec::<usize>::new());
    assert_eq!(select_reference_turns(&vec![10, 20, 30]), vec![0, 1, 2]);
    assert_eq!(select_reference_turns(&vec![10, 70_000]), vec![1]);
    assert_eq!(select_reference_turns(&vec![5, 50_000, 20_000, 1]), vec![1, 2, 3]);
    assert_eq!(select_reference_turns(&vec![1, 60_000]), vec![1]);
    assert_eq!(select_reference_turns(&vec![1, 59_999]), vec![0, 1]);
    assert_eq!(select_reference_turns(&vec![usize::MAX, usize::MAX]), vec![1]);
    let rendered = RenderedTranscript {
        lines: texts(&["line"]),
        index_range: TranscriptLineRange { start_line: 1, end_line: 2 },
        turn_ranges: vec![
            TranscriptLineRange { start_line: 3, end_line: 4 },
            TranscriptLineRange { start_line: 5, end_line: 6 },
        ],
    };
    let reference = materialized_session_reference("stem", &vec![0, 1], "äb", &rendered);
    assert_eq!(
        reference.uri,
        "openbitfun://current-session/artifacts/session-references/stem.txt"
    );
    assert_eq!(reference.char_count, 2);
    assert_eq!(reference.turn_count, 2);
    assert_eq!(
        reference.latest_turn_range,
        Some(TranscriptLineRange { start_line: 5, end_line: 6 })
    );
    assert_eq!(reference.line_count, 1);
}

#[test]
fn exports_reuse_stored_transcripts_without_writing() {
    let mut step = ExportStep::LoadMetadata;
    for event in [
        ExportEvent::Metadata { found: true },
        ExportEvent::Done,
        ExportEvent::Done,
        ExportEvent::Done,
        ExportEvent::Done,
    ] {
        step = next_export_step(step, event);
    }
    assert_eq!(step, ExportStep::LookForStored);
    assert_eq!(
        next_export_step(step, ExportEvent::Stored { reusable: true }),
        ExportStep::ReturnStored
    );
    step = next_export_step(step, ExportEvent::Stored { reusable: false });
    for _ in 0..3 {
        step = next_export_step(step, ExportEvent::Done);
    }
    assert_eq!(step, ExportStep::ReturnNew);
    assert_eq!(
        next_export_step(ExportStep::LoadMetadata, ExportEvent::Metadata { found: false }),
        ExportStep::FailWithoutMetadata
    );
    assert_eq!(next_export_step(ExportStep::LoadTurns, ExportEvent::Failed), ExportStep::Fail);
}

use osu_collect::catalog::{classify_status, next_fetch_step, RetryDecision};
use osu_collect::download::{
    choice_recognized, content_length_outcome, determine_file_exists_action,
    existing_file_outcome, extract_filename, mirror_url_for, parse_content_disposition,
    status_outcome, stream_step, transport_outcome, DownloadResult, FileExistsAction, StreamStep,
    MAX_FILE_SIZE,
};
use osu_collect::error::{FetchError, TransportKind};
use osu_collect::scheduler::{aborted_batch, dispatch_gate, summarize};
use osu_collect::text::sanitize_filename;

#[test]
fn retry_budget_is_three_attempts() {
    let err = FetchError::Transport(TransportKind::Timeout);
    assert_eq!(next_fetch_step(1, &err), RetryDecision::Retry { delay_secs: 1 });
    assert_eq!(next_fetch_step(2, &err), RetryDecision::Retry { delay_secs: 2 });
    assert_eq!(next_fetch_step(3, &err), RetryDecision::GiveUp);
    assert_eq!(next_fetch_step(4, &err), RetryDecision::GiveUp);
}

#[test]
fn rate_limited_is_never_retried() {
    assert_eq!(classify_status(7, 429), Some(FetchError::RateLimited));
    assert_eq!(next_fetch_step(1, &FetchError::RateLimited), RetryDecision::GiveUp);
    assert_eq!(next_fetch_step(2, &FetchError::RateLimited), RetryDecision::GiveUp);
}

#[test]
fn fetch_status_classification() {
    assert_eq!(classify_status(5, 404), Some(FetchError::NotFound(5)));
    assert_eq!(classify_status(5, 500), Some(FetchError::HttpError(500)));
    assert_eq!(classify_status(5, 403), Some(FetchError::HttpError(403)));
    assert_eq!(classify_status(5, 200), None);
    assert_eq!(classify_status(5, 204), None);
}

#[test]
fn terminal_fetch_errors_are_not_retryable() {
    assert!(FetchError::Transport(TransportKind::Connect).is_retryable());
    assert!(FetchError::Transport(TransportKind::Other).is_retryable());
    assert!(!FetchError::NotFound(1).is_retryable());
    assert!(!FetchError::RateLimited.is_retryable());
    assert!(!FetchError::HttpError(500).is_retryable());
    assert!(!FetchError::MalformedResponse.is_retryable());
}

#[test]
fn mirror_status_classification() {
    assert_eq!(
        status_outcome(404),
        Some(DownloadResult::Failed("Not found (404)".to_string()))
    );
    assert_eq!(
        status_outcome(429),
        Some(DownloadResult::Failed("Rate limited (429)".to_string()))
    );
    assert_eq!(status_outcome(503), Some(DownloadResult::Failed("HTTP 503".to_string())));
    assert_eq!(status_outcome(200), None);
}

#[test]
fn mirror_transport_classification() {
    assert_eq!(
        transport_outcome(TransportKind::Timeout),
        Some(DownloadResult::Failed("Connection timeout".to_string()))
    );
    assert_eq!(
        transport_outcome(TransportKind::Connect),
        Some(DownloadResult::Failed("Connection failed".to_string()))
    );
    assert_eq!(transport_outcome(TransportKind::Other), None);
}

#[test]
fn oversized_declared_length_fails_before_any_write() {
    let r = content_length_outcome(Some(MAX_FILE_SIZE + 1));
    assert_eq!(
        r,
        Some(DownloadResult::Failed("File too large (100 MB, max 100 MB)".to_string()))
    );
    let r = content_length_outcome(Some(200 * 1024 * 1024));
    assert_eq!(
        r,
        Some(DownloadResult::Failed("File too large (200 MB, max 100 MB)".to_string()))
    );
}

#[test]
fn acceptable_declared_length_passes() {
    assert_eq!(content_length_outcome(Some(MAX_FILE_SIZE)), None);
    assert_eq!(content_length_outcome(Some(0)), None);
    assert_eq!(content_length_outcome(None), None);
}

#[test]
fn stream_over_cap_is_fatal() {
    match stream_step(MAX_FILE_SIZE, 1) {
        StreamStep::TooLarge(m) => assert_eq!(m, "File too large (100 MB, max 100 MB)"),
        other => panic!("expected TooLarge, got {:?}", other),
    }
    match stream_step(MAX_FILE_SIZE - 3, 1_048_580) {
        StreamStep::TooLarge(_) => {}
        other => panic!("expected TooLarge, got {:?}", other),
    }
}

#[test]
fn stream_under_cap_continues() {
    assert_eq!(stream_step(0, 5), StreamStep::Continue(5));
    assert_eq!(stream_step(100, 900), StreamStep::Continue(1000));
    assert_eq!(stream_step(MAX_FILE_SIZE - 1, 1), StreamStep::Continue(MAX_FILE_SIZE));
}

#[test]
fn skip_existing_always_skips() {
    assert_eq!(determine_file_exists_action(true, false, None), FileExistsAction::Skip);
    assert_eq!(determine_file_exists_action(true, true, None), FileExistsAction::Skip);
    assert_eq!(
        existing_file_outcome(false, true, false, None, "x.osz"),
        Some(DownloadResult::Skipped("x.osz".to_string()))
    );
}

#[test]
fn auto_overwrite_proceeds() {
    assert_eq!(determine_file_exists_action(false, true, None), FileExistsAction::Overwrite);
    assert_eq!(existing_file_outcome(false, false, true, None, "x.osz"), None);
}

#[test]
fn cancellation_wins_over_the_prompt() {
    assert_eq!(
        existing_file_outcome(true, false, false, None, "x.osz"),
        Some(DownloadResult::Aborted)
    );
    assert_eq!(
        existing_file_outcome(true, true, false, None, "x.osz"),
        Some(DownloadResult::Aborted)
    );
}

#[test]
fn prompt_replies_select_actions() {
    assert_eq!(determine_file_exists_action(false, false, Some("s")), FileExistsAction::Skip);
    assert_eq!(determine_file_exists_action(false, false, Some(" S ")), FileExistsAction::Skip);
    assert_eq!(
        determine_file_exists_action(false, false, Some("o")),
        FileExistsAction::Overwrite
    );
    assert_eq!(determine_file_exists_action(false, false, Some("A\n")), FileExistsAction::Abort);
    assert_eq!(determine_file_exists_action(false, false, Some("junk")), FileExistsAction::Skip);
    assert_eq!(determine_file_exists_action(false, false, Some("")), FileExistsAction::Skip);
    assert_eq!(determine_file_exists_action(false, false, None), FileExistsAction::Skip);
}

#[test]
fn unrecognized_replies_are_reported_as_such() {
    assert!(choice_recognized("s"));
    assert!(choice_recognized(" O\n"));
    assert!(choice_recognized("a"));
    assert!(!choice_recognized("junk"));
    assert!(!choice_recognized(""));
    assert!(!choice_recognized("x"));
}

#[test]
fn abort_reply_aborts() {
    assert_eq!(
        existing_file_outcome(false, false, false, Some("a"), "x.osz"),
        Some(DownloadResult::Aborted)
    );
}

#[test]
fn cancelled_batch_aborts_every_item() {
    let ids = vec![1u32, 2, 3];
    let out = aborted_batch(&ids);
    assert_eq!(out.len(), 3);
    for (k, (id, res)) in out.iter().enumerate() {
        assert_eq!(*id, ids[k]);
        assert_eq!(*res, DownloadResult::Aborted);
    }
}

#[test]
fn dispatch_gate_checks_the_flag() {
    assert_eq!(dispatch_gate(true, 7), Some((7, DownloadResult::Aborted)));
    assert_eq!(dispatch_gate(false, 7), None);
}

#[test]
fn mirror_url_substitutes_the_id() {
    assert_eq!(
        mirror_url_for("https://api.nerinyan.moe/d/{id}", 123),
        "https://api.nerinyan.moe/d/123"
    );
    assert_eq!(mirror_url_for("https://m.example/{id}/get/{id}", 7), "https://m.example/7/get/7");
    assert_eq!(mirror_url_for("https://m.example/plain", 7), "https://m.example/plain");
}

#[test]
fn content_disposition_plain_filename() {
    assert_eq!(
        parse_content_disposition("attachment; filename=\"x y.osz\""),
        Some("x y.osz".to_string())
    );
    assert_eq!(parse_content_disposition("attachment; filename=bare.osz"), Some("bare.osz".to_string()));
}

#[test]
fn content_disposition_utf8_filename() {
    assert_eq!(
        parse_content_disposition("attachment; filename*=UTF-8''na%20me.osz"),
        Some("na%20me.osz".to_string())
    );
}

#[test]
fn content_disposition_prefers_utf8_form() {
    // The UTF-8 parameter wins wherever it stands in the header.
    assert_eq!(
        parse_content_disposition("filename=plain.osz; filename*=UTF-8''utf8.osz"),
        Some("utf8.osz".to_string())
    );
    assert_eq!(
        parse_content_disposition("filename*=UTF-8''utf8.osz; filename=plain.osz"),
        Some("utf8.osz".to_string())
    );
}

#[test]
fn content_disposition_without_filename() {
    assert_eq!(parse_content_disposition("attachment"), None);
    assert_eq!(parse_content_disposition(""), None);
    assert_eq!(parse_content_disposition("inline; size=3"), None);
}

#[test]
fn missing_header_synthesizes_filename() {
    assert_eq!(extract_filename(None, 42), "42.osz");
    assert_eq!(extract_filename(Some("attachment"), 9), "9.osz");
    assert_eq!(
        extract_filename(Some("attachment; filename=c.osz"), 9),
        "c.osz"
    );
}

#[test]
fn sanitize_replaces_reserved_characters() {
    assert_eq!(sanitize_filename("a/b:c*d?.osz"), "a_b_c_d_.osz");
    assert_eq!(sanitize_filename("a\\b\"c<d>e|f"), "a_b_c_d_e_f");
    assert_eq!(sanitize_filename("  padded.osz  "), "padded.osz");
    assert_eq!(sanitize_filename("clean.osz"), "clean.osz");
}

#[test]
fn summary_counts_and_stops_at_abort() {
    let results = vec![
        (1u32, DownloadResult::Success("a.osz".to_string())),
        (2u32, DownloadResult::Failed("why".to_string())),
        (3u32, DownloadResult::Skipped("b.osz".to_string())),
        (4u32, DownloadResult::Aborted),
        (5u32, DownloadResult::Success("c.osz".to_string())),
    ];
    let s = summarize(&results);
    assert_eq!(s.downloaded, 1);
    assert_eq!(s.skipped, 1);
    assert_eq!(s.failed, 1);
    assert!(s.aborted);
    assert_eq!(s.failed_items, vec![(2u32, "why".to_string())]);
}

#[test]
fn index_written_unless_abort_preceded_all_completions() {
    let aborted_late = summarize(&vec![
        (1u32, DownloadResult::Success("a.osz".to_string())),
        (2u32, DownloadResult::Aborted),
    ]);
    assert!(aborted_late.should_write_index());

    let aborted_early = summarize(&vec![
        (1u32, DownloadResult::Aborted),
        (2u32, DownloadResult::Success("a.osz".to_string())),
    ]);
    assert!(!aborted_early.should_write_index());

    let finished = summarize(&vec![(1u32, DownloadResult::Failed("x".to_string()))]);
    assert!(finished.should_write_index());
}

#[test]
fn summary_without_abort() {
    let results = vec![
        (1u32, DownloadResult::Success("a.osz".to_string())),
        (2u32, DownloadResult::Success("b.osz".to_string())),
    ];
    let s = summarize(&results);
    assert_eq!(s.downloaded, 2);
    assert_eq!(s.skipped, 0);
    assert_eq!(s.failed, 0);
    assert!(!s.aborted);
    assert!(s.failed_items.is_empty());
}

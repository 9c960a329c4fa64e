use chunkdl::web::{
    chunk_attempt_verdict, interpret_probe, is_text_content_type, parse_u64, ChunkAttempt,
    ChunkVerdict, DlAction, DlEvent, DlPhase, DownloadOp, ResPost, ResponseBody, WebError,
    WebErrorCode,
};

#[test]
fn res_post_keeps_its_fields() {
    let r = ResPost::new(200, ResponseBody::Text("hi".to_string()));
    assert_eq!(r.status_code, 200);
    assert!(matches!(r.body, ResponseBody::Text(t) if t == "hi"));

    let r = ResPost::new(404, ResponseBody::Bytes(vec![1, 2, 3]));
    assert_eq!(r.status_code, 404);
    assert!(matches!(r.body, ResponseBody::Bytes(b) if b == vec![1, 2, 3]));
}

#[test]
fn content_type_classification() {
    assert!(is_text_content_type("text/html; charset=utf-8"));
    assert!(is_text_content_type("application/json"));
    assert!(!is_text_content_type("application/octet-stream"));
    assert!(!is_text_content_type(""));
}

#[test]
fn parse_u64_accepts_decimal() {
    assert_eq!(parse_u64("0"), Some(0));
    assert_eq!(parse_u64("26214400"), Some(26214400));
    assert_eq!(parse_u64("+123"), Some(123));
    assert_eq!(parse_u64("18446744073709551615"), Some(u64::MAX));
}

#[test]
fn parse_u64_rejects_everything_else() {
    assert_eq!(parse_u64(""), None);
    assert_eq!(parse_u64("+"), None);
    assert_eq!(parse_u64("-1"), None);
    assert_eq!(parse_u64("12a"), None);
    assert_eq!(parse_u64(" 12"), None);
    assert_eq!(parse_u64("18446744073709551616"), None);
}

#[test]
fn probe_reads_headers() {
    let caps = interpret_probe(
        &Some("bytes".to_string()),
        &Some("26214400".to_string()),
    )
    .unwrap();
    assert_eq!(caps.total_size, 26214400);
    assert!(caps.supports_ranges);

    // anything but the literal token means no range support
    let caps = interpret_probe(&Some("none".to_string()), &Some("5".to_string())).unwrap();
    assert!(!caps.supports_ranges);
    let caps = interpret_probe(&None, &Some("5".to_string())).unwrap();
    assert!(!caps.supports_ranges);
}

#[test]
fn probe_requires_a_length() {
    let r = interpret_probe(&Some("bytes".to_string()), &None);
    assert!(matches!(r, Err(WebError::MissingLength)));
    let r = interpret_probe(&None, &Some("not a number".to_string()));
    assert!(matches!(r, Err(WebError::MissingLength)));
}

#[test]
fn chunk_attempt_refuses_overrun() {
    let mut a = ChunkAttempt::begin(10);
    assert!(a.on_read(4));
    assert_eq!(a.copied, 4);
    // seven more bytes would overrun the exclusive region
    assert!(!a.on_read(7));
    assert_eq!(a.copied, 4);
    assert!(a.on_read(6));
    assert!(a.is_complete());
    assert!(!a.on_read(1));
}

#[test]
fn verdict_follows_retry_budget() {
    assert_eq!(chunk_attempt_verdict(10, 10, 0), ChunkVerdict::Done);
    assert_eq!(chunk_attempt_verdict(4, 10, 0), ChunkVerdict::Retry);
    assert_eq!(chunk_attempt_verdict(4, 10, 1), ChunkVerdict::Retry);
    assert_eq!(chunk_attempt_verdict(4, 10, 2), ChunkVerdict::Failed);
    assert_eq!(chunk_attempt_verdict(10, 10, 2), ChunkVerdict::Done);
}

#[test]
fn truncated_twice_succeeds_on_third_attempt() {
    // the server truncates the first two range responses, then sends it all
    let expected = 100u64;
    let served = [60u64, 0, 100];
    let mut verdict = ChunkVerdict::Retry;
    for attempt in 0..3u8 {
        let mut a = ChunkAttempt::begin(expected);
        assert!(a.on_read(served[attempt as usize]));
        verdict = chunk_attempt_verdict(a.copied, a.expected, attempt);
        if verdict == ChunkVerdict::Done {
            break;
        }
        assert_eq!(verdict, ChunkVerdict::Retry);
    }
    assert_eq!(verdict, ChunkVerdict::Done);
}

#[test]
fn truncated_four_times_fails_for_good() {
    let expected = 100u64;
    let mut verdicts = Vec::new();
    for attempt in 0..3u8 {
        let mut a = ChunkAttempt::begin(expected);
        assert!(a.on_read(60));
        verdicts.push(chunk_attempt_verdict(a.copied, a.expected, attempt));
    }
    // the budget is three attempts: a fourth is never made
    assert_eq!(
        verdicts,
        vec![ChunkVerdict::Retry, ChunkVerdict::Retry, ChunkVerdict::Failed]
    );
}

fn probe_event(accept_ranges: Option<&str>, content_length: &str) -> DlEvent {
    DlEvent::ProbeResponse {
        accept_ranges: accept_ranges.map(|s| s.to_string()),
        content_length: Some(content_length.to_string()),
    }
}

#[test]
fn parallel_download_follows_the_plan() {
    // 25 MiB, four threads requested, two CPUs: two workers, balanced halves
    let (mut op, act) = DownloadOp::start(
        "http://h/f.bin".to_string(),
        "/tmp/f.bin".to_string(),
        "f.bin".to_string(),
        4,
        false,
        2,
    );
    assert!(matches!(act, DlAction::Probe));

    let act = op.on_event(probe_event(Some("bytes"), "26214400"));
    assert!(matches!(act, DlAction::Allocate { size: 26214400 }));

    let act = op.on_event(DlEvent::Allocated);
    assert!(matches!(act, DlAction::FetchChunks));
    assert_eq!(op.threads_used, 2);
    assert_eq!(op.chunks, vec![(0, 13107199), (13107200, 26214399)]);

    let act = op.on_event(DlEvent::ChunksDone { any_failed: false });
    assert!(matches!(act, DlAction::FlushAndMeasure));

    let act = op.on_event(DlEvent::FlushedAndMeasured { size: 26214400 });
    assert!(matches!(act, DlAction::Rename));

    let act = op.on_event(DlEvent::Renamed);
    assert!(matches!(act, DlAction::Stop));
    assert_eq!(op.phase, DlPhase::Done);
    let result = op.result.unwrap();
    assert_eq!(result.threads_used, 2);
    assert_eq!(result.save_path, "/tmp/f.bin");
    assert_eq!(result.file_name, "f.bin");
}

#[test]
fn planned_regions_reassemble_the_source() {
    // copying each planned range from a source image into its own region
    // reproduces the source byte for byte
    let total: usize = 26214400;
    let source: Vec<u8> = (0..total).map(|i| (i % 251) as u8).collect();
    let chunks = chunkdl::plan::plan_chunks(total as u64, 4, 2);
    let mut dest = vec![0u8; total];
    for &(start, end) in &chunks {
        let (s, e) = (start as usize, end as usize);
        dest[s..=e].copy_from_slice(&source[s..=e]);
    }
    assert_eq!(dest.len(), total);
    assert!(dest == source);
}

#[test]
fn server_without_ranges_uses_one_stream() {
    let (mut op, _) = DownloadOp::start(
        "http://h/f.bin".to_string(),
        "/tmp/f.bin".to_string(),
        "f.bin".to_string(),
        8,
        false,
        8,
    );
    let act = op.on_event(probe_event(None, "1000"));
    assert!(matches!(act, DlAction::Allocate { size: 1000 }));
    let act = op.on_event(DlEvent::Allocated);
    assert!(matches!(act, DlAction::FetchWhole));
    assert_eq!(op.threads_used, 1);
    let act = op.on_event(DlEvent::SingleStreamDone);
    assert!(matches!(act, DlAction::FlushAndMeasure));
    let act = op.on_event(DlEvent::FlushedAndMeasured { size: 1000 });
    assert!(matches!(act, DlAction::Rename));
    let act = op.on_event(DlEvent::Renamed);
    assert!(matches!(act, DlAction::Stop));
    assert_eq!(op.result.unwrap().threads_used, 1);
}

#[test]
fn missing_length_aborts_before_any_file_work() {
    let (mut op, _) = DownloadOp::start(
        "http://h/f".to_string(),
        "/tmp/f".to_string(),
        "f.bin".to_string(),
        4,
        false,
        4,
    );
    let act = op.on_event(DlEvent::ProbeResponse { accept_ranges: Some("bytes".to_string()), content_length: None });
    assert!(matches!(act, DlAction::Stop));
    assert_eq!(op.phase, DlPhase::Failed);
    assert!(matches!(op.error, Some(WebError::MissingLength)));
    assert!(op.result.is_none());
}

#[test]
fn failed_chunk_leaves_destination_untouched() {
    // a chunk that exhausts its retries fails the operation; no rename is
    // ever requested, so the destination path never comes into being
    let (mut op, _) = DownloadOp::start(
        "http://h/f.bin".to_string(),
        "/tmp/f.bin".to_string(),
        "f.bin".to_string(),
        4,
        false,
        2,
    );
    op.on_event(probe_event(Some("bytes"), "26214400"));
    op.on_event(DlEvent::Allocated);
    let act = op.on_event(DlEvent::ChunksDone { any_failed: true });
    assert!(matches!(act, DlAction::Stop));
    assert_eq!(op.phase, DlPhase::Failed);
    assert!(matches!(op.error, Some(WebError::ChunkFailed)));
    assert!(op.result.is_none());
}

#[test]
fn size_mismatch_fails_validation() {
    let (mut op, _) = DownloadOp::start(
        "http://h/f.bin".to_string(),
        "/tmp/f.bin".to_string(),
        "f.bin".to_string(),
        2,
        false,
        2,
    );
    op.on_event(probe_event(Some("bytes"), "26214400"));
    op.on_event(DlEvent::Allocated);
    op.on_event(DlEvent::ChunksDone { any_failed: false });
    let act = op.on_event(DlEvent::FlushedAndMeasured { size: 26214399 });
    assert!(matches!(act, DlAction::Stop));
    assert_eq!(op.phase, DlPhase::Failed);
    assert!(matches!(op.error, Some(WebError::ValidationFailed)));
}

#[test]
fn forced_thread_count_is_respected() {
    let (mut op, _) = DownloadOp::start(
        "http://h/f.bin".to_string(),
        "/tmp/f.bin".to_string(),
        "f.bin".to_string(),
        9,
        true,
        2,
    );
    op.on_event(probe_event(Some("bytes"), "26214400"));
    op.on_event(DlEvent::Allocated);
    // the forced request is reported as-is; the plan itself stays bounded
    assert_eq!(op.threads_used, 9);
    assert!(op.chunks.len() <= 2);
}

#[test]
fn mismatched_event_fails_the_operation() {
    let (mut op, _) = DownloadOp::start(
        "http://h/f".to_string(),
        "/tmp/f".to_string(),
        "f.bin".to_string(),
        1,
        false,
        1,
    );
    let act = op.on_event(DlEvent::Renamed);
    assert!(matches!(act, DlAction::Stop));
    assert_eq!(op.phase, DlPhase::Failed);
    assert!(matches!(op.error, Some(WebError::InvalidInput(_))));
}

#[test]
fn error_codes_have_stable_values() {
    assert_eq!(WebErrorCode::Success.as_int(), 0);
    assert_eq!(WebErrorCode::InvalidUrl.as_int(), 1);
    assert_eq!(WebErrorCode::InvalidPath.as_int(), 2);
    assert_eq!(WebErrorCode::RequestFailed.as_int(), 3);
    assert_eq!(WebErrorCode::FileValidationFailed.as_int(), 4);
    assert_eq!(WebErrorCode::BufferPoolError.as_int(), 5);
    assert_eq!(WebErrorCode::MemoryAllocationFailed.as_int(), 6);
    assert_eq!(WebErrorCode::InvalidArgument.as_int(), 7);
}

#[test]
fn transport_failures_carry_their_kind() {
    let (mut op, _) = DownloadOp::start(
        "http://h/f".to_string(),
        "/tmp/f".to_string(),
        "f.bin".to_string(),
        2,
        false,
        2,
    );
    let act = op.on_event(DlEvent::ProbeFailed { message: "connection refused".to_string() });
    assert!(matches!(act, DlAction::Stop));
    assert!(matches!(op.error, Some(WebError::RequestFailed(_))));
}

#[test]
fn allocation_failures_are_io_errors() {
    let (mut op, _) = DownloadOp::start(
        "http://h/f".to_string(),
        "/tmp/f".to_string(),
        "f.bin".to_string(),
        2,
        false,
        2,
    );
    op.on_event(probe_event(Some("bytes"), "1048576"));
    let act = op.on_event(DlEvent::AllocationFailed { message: "disk full".to_string() });
    assert!(matches!(act, DlAction::Stop));
    assert!(matches!(op.error, Some(WebError::Io(_))));
}

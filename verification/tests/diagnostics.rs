use jira_gpui::diagnostics::persistence::{plan_append, AppendPlan, MAX_FILE_BYTES};
use jira_gpui::diagnostics::schema::{
    serialize_event, AttachmentDiagnosticAttempt, AttachmentDiagnosticBody,
    AttachmentDiagnosticMime, AttachmentDiagnosticStage, AttachmentDiagnosticTransport,
    DiagnosticEvent, DiagnosticFlow, ImagePreflight, ImageSignature, ImageSource,
    ImageStateReason, ResponseMime, MAX_CANDIDATE_ORDINAL, MAX_LINE_BYTES,
};
use jira_gpui::diagnostics::{LoadTokenCounter, SinkState, MAX_ONCE_EVENTS};

#[test]
fn load_tokens_are_local_monotonic_and_available_when_disabled() {
    let mut counter = LoadTokenCounter::new();
    let sink = SinkState::new(false);
    let first = counter.begin_image_load();
    let second = counter.begin_image_load();
    assert!(!sink.is_enabled());
    assert_eq!(first, 1);
    assert_eq!(second, 2);
}

#[test]
fn serialization_is_fixed_bounded_json_without_free_form_values() {
    let line = serialize_event(
        DiagnosticEvent::image_response(
            DiagnosticFlow::RemoteLookup,
            u64::MAX,
            usize::MAX,
            usize::MAX,
            ImageSource::FallbackCandidate,
            ResponseMime::Unsupported,
            ImageSignature::Unknown,
            usize::MAX,
            ImagePreflight::AggregateRejected,
        ),
        u64::MAX,
        u64::MAX,
    )
    .expect("bounded event");
    let line = String::from_utf8(line).expect("utf8");
    assert!(line.len() < MAX_LINE_BYTES);
    assert!(line.starts_with(r#"{"v":1,"seq":18446744073709551615"#));
    assert!(line.contains(r#""event":"image_response""#));
    assert!(line.contains(r#""candidate":32"#));
    assert!(line.contains(r#""bytes":67108864"#));
    assert!(!line.contains("http"));
    assert!(!line.contains("filename"));
}

#[test]
fn classifiers_emit_only_known_categories() {
    assert_eq!(ResponseMime::classify(" IMAGE/JPG "), ResponseMime::Jpeg);
    assert_eq!(
        ResponseMime::classify("text/plain"),
        ResponseMime::Unsupported
    );
    assert_eq!(ImageSignature::classify(b"GIF89a"), ImageSignature::Gif);
    assert_eq!(ImageSignature::classify(b"secret"), ImageSignature::Unknown);
}

#[test]
fn session_line_is_exact() {
    let line = serialize_event(DiagnosticEvent::SessionStarted, 7, 1_700_000_000_000)
        .expect("bounded event");
    assert_eq!(
        String::from_utf8(line).expect("utf8"),
        r#"{"v":1,"seq":7,"ts_unix_ms":1700000000000,"event":"session_started"}"#
    );
}

#[test]
fn enabled_sink_numbers_lines_and_disabled_sink_stays_silent() {
    let mut sink = SinkState::new(true);
    let first = sink.record(DiagnosticEvent::SessionStarted, 1).expect("line");
    let second = sink.record(DiagnosticEvent::SessionStarted, 2).expect("line");
    assert!(String::from_utf8(first).unwrap().contains(r#""seq":0"#));
    assert!(String::from_utf8(second).unwrap().contains(r#""seq":1"#));
    sink.disable();
    assert!(sink.record(DiagnosticEvent::SessionStarted, 3).is_none());
    assert!(!sink.is_enabled());
}

fn state_event(load_token: u64, index: usize) -> DiagnosticEvent {
    DiagnosticEvent::image_state(
        DiagnosticFlow::SelectedDetail,
        load_token,
        index % (MAX_CANDIDATE_ORDINAL + 1),
        index / (MAX_CANDIDATE_ORDINAL + 1),
        ImageSource::ResolvedAdf,
        ImageStateReason::Missing,
    )
}

#[test]
fn once_events_use_bounded_fifo_and_keep_later_loads_observable() {
    let mut sink = SinkState::new(true);
    let mut written = 0;
    for index in 0..MAX_ONCE_EVENTS {
        let event = state_event(1, index);
        if sink.record_once(event, 10).is_some() {
            sink.commit_once(event);
            written += 1;
        }
    }
    assert_eq!(written, MAX_ONCE_EVENTS);
    let later = state_event(2, 0);
    assert!(sink.record_once(later, 11).is_some());
    sink.commit_once(later);
    assert!(sink.record_once(later, 12).is_none());
    // The oldest event was forgotten to make room and may be written again.
    assert!(sink.record_once(state_event(1, 0), 13).is_some());
}

#[test]
fn append_plan_rotates_only_when_the_line_would_not_fit() {
    assert_eq!(
        plan_append(10, Some(100), None),
        Some(AppendPlan {
            truncate_backup: false,
            truncate_active: false,
            rotate: false
        })
    );
    assert_eq!(
        plan_append(10, Some(MAX_FILE_BYTES - 10), Some(5)),
        Some(AppendPlan {
            truncate_backup: false,
            truncate_active: false,
            rotate: true
        })
    );
    assert_eq!(
        plan_append(10, Some(MAX_FILE_BYTES - 11), None),
        Some(AppendPlan {
            truncate_backup: false,
            truncate_active: false,
            rotate: false
        })
    );
    assert_eq!(
        plan_append(10, Some(MAX_FILE_BYTES + 1), Some(MAX_FILE_BYTES + 1)),
        Some(AppendPlan {
            truncate_backup: true,
            truncate_active: true,
            rotate: false
        })
    );
    assert_eq!(
        plan_append(10, None, None),
        Some(AppendPlan {
            truncate_backup: false,
            truncate_active: false,
            rotate: false
        })
    );
    assert_eq!(plan_append(MAX_LINE_BYTES + 1, None, None), None);
}

#[test]
fn a_once_event_stays_remembered_for_the_capacity_of_the_memory() {
    let mut sink = SinkState::new(true);
    let first = state_event(3, 0);
    assert!(sink.record_once(first, 1).is_some());
    sink.commit_once(first);
    for index in 1..MAX_ONCE_EVENTS {
        let event = state_event(3, index);
        assert!(sink.record_once(event, 1).is_some());
        sink.commit_once(event);
        assert!(sink.record_once(first, 1).is_none());
    }
    let event = state_event(4, 0);
    assert!(sink.record_once(event, 1).is_some());
    sink.commit_once(event);
    assert!(sink.record_once(first, 1).is_some());
}

#[test]
fn sequence_numbers_count_every_record_call() {
    let mut sink = SinkState::new(true);
    for n in 0..5u64 {
        let line = String::from_utf8(sink.record(DiagnosticEvent::SessionStarted, 7).expect("line"))
            .unwrap();
        assert!(line.contains(&format!("\"seq\":{n},")));
    }
}

#[test]
fn the_longest_attachment_line_is_still_written() {
    let mut sink = SinkState::new(true);
    let event = DiagnosticEvent::attachment_read_diagnostic(
        DiagnosticFlow::SelectedDetail,
        u64::MAX,
        usize::MAX,
        usize::MAX,
        ImageSource::FallbackCandidate,
        AttachmentDiagnosticAttempt::ExplicitDownload,
        AttachmentDiagnosticStage::ContentType,
        Some(u16::MAX),
        Some(AttachmentDiagnosticMime::OctetStream),
        Some(AttachmentDiagnosticBody::ReadFailed),
        Some(AttachmentDiagnosticTransport::RequestFailed),
    );
    let line = sink.record(event, u64::MAX).expect("every event has a line");
    assert!(line.len() + 1 <= MAX_LINE_BYTES);
    let text = String::from_utf8(line).expect("utf8");
    assert!(text.starts_with(
        r#"{"v":1,"seq":0,"ts_unix_ms":18446744073709551615,"event":"attachment_read_diagnostic""#
    ));
    assert!(text.ends_with(r#""transport_class":"request_failed"}"#));
    assert!(text.contains(r#""status_code":65535"#));
}

use enteract::stream::{after_read, check_before_read, on_answer_line, LineAction, ReadOutcome, StreamNotice, StreamStop};
use enteract::stream::{take_line, CancelRegistry, ChunkResult, StreamConfig, StreamState, StreamTimeout};

#[test]
fn default_stream_config() {
    let c = StreamConfig::default();
    assert_eq!(c.max_total_duration_ms, 300_000);
    assert_eq!(c.max_chunk_gap_ms, 30_000);
    assert_eq!(c.chunk_timeout_ms, 10_000);
    assert_eq!(c.max_consecutive_repeats, 5);
    assert_eq!(c.max_consecutive_empty_chunks, 25);
}

#[test]
fn short_repeat_ends_on_fourth_repeat() {
    let mut st = StreamState::new(0);
    assert!(matches!(st.update_chunk("ok", 1), ChunkResult::Continue));
    for i in 0..3 {
        assert!(matches!(st.update_chunk("ok", 2 + i), ChunkResult::Continue));
    }
    match st.update_chunk("ok", 9) {
        ChunkResult::Exit(m) => assert_eq!(
            m,
            "Stream terminated: Detected repetitive short chunk 'ok' (4 times) - possible AI confusion"
        ),
        ChunkResult::Continue => panic!("expected exit"),
    }
    assert_eq!(st.chunk_count, 5);
    assert_eq!(st.repeat_count, 4);
}

#[test]
fn long_repeat_ends_on_ninth_repeat() {
    let long = "this chunk is longer than twenty bytes";
    let mut st = StreamState::new(0);
    st.update_chunk(long, 1);
    for _ in 0..8 {
        assert!(matches!(st.update_chunk(long, 1), ChunkResult::Continue));
    }
    match st.update_chunk(long, 1) {
        ChunkResult::Exit(m) => assert_eq!(
            m,
            "Stream terminated: Excessive repetition of content 'this chunk is longer than twen' (9 times)"
        ),
        ChunkResult::Continue => panic!("expected exit"),
    }
}

#[test]
fn blank_chunks_count_and_reset() {
    let mut st = StreamState::new(0);
    st.update_chunk("a", 1);
    st.update_chunk("  \n", 2);
    st.update_chunk("", 3);
    assert_eq!(st.consecutive_empty_count, 2);
    assert_eq!(st.total_empty_count, 2);
    assert_eq!(st.last_chunk_text, "a");
    st.update_chunk("b", 4);
    assert_eq!(st.consecutive_empty_count, 0);
    assert_eq!(st.total_empty_count, 2);
    assert_eq!(st.repeat_count, 0);
    assert_eq!(st.last_chunk_text, "b");
}

#[test]
fn timeouts() {
    let st = StreamState::new(1_000);
    assert_eq!(st.should_timeout(2_000, 300_000, 30_000), None);
    assert_eq!(st.should_timeout(40_000, 300_000, 30_000), Some(StreamTimeout::ChunkGap));
    assert_eq!(st.should_timeout(400_000, 300_000, 30_000), Some(StreamTimeout::Total));
    assert_eq!(st.should_timeout(500, 300_000, 30_000), None);
}

#[test]
fn pattern_termination() {
    let mut st = StreamState::new(0);
    assert_eq!(st.should_terminate_patterns(5, 25), None);
    st.repeat_count = 15;
    assert_eq!(st.should_terminate_patterns(5, 25).unwrap(), "Too many consecutive repeats: 15");
    st.repeat_count = 0;
    st.consecutive_empty_count = 26;
    st.total_empty_count = 30;
    assert_eq!(
        st.should_terminate_patterns(5, 25).unwrap(),
        "Too many consecutive empty chunks: 26 (total empty: 30)"
    );
}

#[test]
fn lines_come_out_one_by_one() {
    let mut buf = b"{\"a\":1}\n{\"b\"".to_vec();
    assert_eq!(take_line(&mut buf), Some(b"{\"a\":1}".to_vec()));
    assert_eq!(buf, b"{\"b\"".to_vec());
    assert_eq!(take_line(&mut buf), None);
    buf.extend_from_slice(b":2}\n\n");
    assert_eq!(take_line(&mut buf), Some(b"{\"b\":2}".to_vec()));
    assert_eq!(take_line(&mut buf), Some(Vec::new()));
    assert!(buf.is_empty());
}

#[test]
fn cancellation_registry() {
    let mut r = CancelRegistry::new();
    assert!(!r.is_session_cancelled("s1"));
    r.register("s1");
    assert!(!r.is_session_cancelled("s1"));
    r.cancel("s1");
    assert!(r.is_session_cancelled("s1"));
    assert!(!r.is_session_cancelled("s2"));
    r.cleanup_session("s1");
    assert!(!r.is_session_cancelled("s1"));
    r.cancel("s2");
    assert!(r.is_session_cancelled("s2"));
}

#[test]
fn checks_before_each_read() {
    let cfg = StreamConfig::default();
    let st = StreamState::new(1_000);
    assert!(matches!(check_before_read(&st, true, 1_000, &cfg), Some(StreamStop::Cancelled)));
    assert!(check_before_read(&st, false, 2_000, &cfg).is_none());
    assert!(matches!(
        check_before_read(&st, false, 1_000 + 30_001, &cfg),
        Some(StreamStop::TimedOut(StreamTimeout::ChunkGap))
    ));
    assert!(matches!(
        check_before_read(&st, false, 1_000 + 300_001, &cfg),
        Some(StreamStop::TimedOut(StreamTimeout::Total))
    ));
    let mut quiet = StreamState::new(0);
    for _ in 0..26 {
        quiet.update_chunk("  ", 10);
    }
    match check_before_read(&quiet, false, 10, &cfg) {
        Some(StreamStop::Pattern(m)) => assert_eq!(m, "Too many consecutive empty chunks: 26 (total empty: 26)"),
        other => panic!("unexpected {:?}", other),
    }
}

#[test]
fn reads_and_stops() {
    assert!(after_read(ReadOutcome::Data).is_none());
    assert!(matches!(after_read(ReadOutcome::End), Some(StreamStop::Ended)));
    assert!(matches!(after_read(ReadOutcome::TimedOut), Some(StreamStop::ReadTimedOut)));
    match after_read(ReadOutcome::Failed("reset".to_string())) {
        Some(StreamStop::ReadFailed(m)) => assert_eq!(m, "Stream error: reset"),
        other => panic!("unexpected {:?}", other),
    }
    assert_eq!(StreamStop::Cancelled.notices(), vec![StreamNotice::Cancelled]);
    assert!(!StreamStop::Cancelled.is_error());
    assert_eq!(StreamStop::ReadTimedOut.notices(), vec![StreamNotice::Timeout, StreamNotice::Complete]);
    assert!(StreamStop::ReadTimedOut.is_error());
    assert_eq!(StreamStop::ReadFailed("x".to_string()).notices(), vec![StreamNotice::Error]);
    assert_eq!(
        StreamStop::Terminated("x".to_string()).notices(),
        vec![StreamNotice::Terminated, StreamNotice::Complete]
    );
    assert!(!StreamStop::Terminated("x".to_string()).is_error());
    assert!(StreamStop::Pattern("x".to_string()).is_error());
    assert_eq!(StreamStop::Done.notices(), vec![StreamNotice::Complete]);
}

#[test]
fn lines_of_an_answer() {
    let mut st = StreamState::new(0);
    assert!(matches!(on_answer_line(&mut st, None, 5), LineAction::Skip));
    assert_eq!(st.chunk_count, 0);
    assert!(matches!(on_answer_line(&mut st, Some(("", false)), 6), LineAction::Skip));
    assert_eq!(st.chunk_count, 1);
    assert!(matches!(on_answer_line(&mut st, Some(("Hi", false)), 7), LineAction::Show));
    assert!(matches!(on_answer_line(&mut st, Some(("", true)), 8), LineAction::ShowAndFinish));
    let mut rep = StreamState::new(0);
    for _ in 0..4 {
        assert!(matches!(on_answer_line(&mut rep, Some(("ok", false)), 1), LineAction::Show));
    }
    match on_answer_line(&mut rep, Some(("ok", false)), 1) {
        LineAction::Terminate(m) => {
            assert_eq!(m, "Stream terminated: Detected repetitive short chunk 'ok' (4 times) - possible AI confusion")
        }
        other => panic!("unexpected {:?}", other),
    }
}

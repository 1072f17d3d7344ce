use puzzle::loading::{session_of, LoadCall, Loading};
use puzzle::summary::{
    fork_params, summary_turn_params, SummaryCall, SummaryFailure, SummaryHeard, SummaryRun,
};
use puzzle::window::{
    recent_turns_params, summary_schema, SummaryCache, SummaryCacheEntry, SummaryError, SummaryJob,
    SummaryPayload, Thread, ThreadStatus, Turn, TurnItem, TurnStatus, SUMMARY_PROMPT,
};

fn thread(preview: &str, at: i64) -> Thread {
    Thread {
        preview: preview.to_string(),
        status: ThreadStatus::Idle,
        recency_at: Some(at),
        updated_at: 0,
    }
}

fn turn(id: &str, status: TurnStatus) -> Turn {
    Turn { id: id.to_string(), status }
}

#[test]
fn windows_are_loaded_one_by_one() {
    let mut cache = SummaryCache::current();
    cache.entries.insert("t2".to_string(), SummaryCacheEntry {
        turn_id: "done".to_string(),
        summary: "Ready".to_string(),
        attention: false,
    });
    let sessions = vec![
        ("a".to_string(), "t1".to_string()),
        ("b".to_string(), "t2".to_string()),
    ];
    assert!(Loading::can_begin(&sessions, 5));
    assert!(!Loading::can_begin(&sessions, i64::MAX - 3));
    let (mut loading, call) = Loading::begin(sessions, 5);
    assert!(matches!(call, LoadCall::Read { slug, thread_id, request_id: 5 } if slug == "a" && thread_id == "t1"));
    let call = loading.on_thread(thread("first", 1));
    assert!(matches!(call, LoadCall::Turns { thread_id, request_id: 6, .. } if thread_id == "t1"));
    let call = loading.on_turns(&vec![], &cache);
    assert!(matches!(call, LoadCall::Read { thread_id, request_id: 7, .. } if thread_id == "t2"));
    let call = loading.on_thread(thread("second", 2));
    assert!(matches!(call, LoadCall::Turns { request_id: 8, .. }));
    let turns = vec![turn("now", TurnStatus::InProgress), turn("done", TurnStatus::Completed)];
    match loading.on_turns(&turns, &cache) {
        LoadCall::Loaded(windows) => {
            assert_eq!(windows.len(), 2);
            assert_eq!(windows[0].slug, "b");
            assert_eq!(windows[0].completed_turn_id.as_deref(), Some("done"));
            assert_eq!(windows[0].classification.as_ref().unwrap().summary, "Ready");
            assert_eq!(windows[1].slug, "a");
            assert_eq!(windows[1].preview, "first");
        }
        other => panic!("{:?}", other),
    }
    assert_eq!(loading.request_id, 9);
}

#[test]
fn no_sessions_are_no_windows() {
    let (_, call) = Loading::begin(Vec::new(), 1);
    assert!(matches!(call, LoadCall::Loaded(windows) if windows.is_empty()));
}

fn begin() -> SummaryRun {
    let job = SummaryJob { thread_id: "source".to_string(), turn_id: "turn".to_string() };
    let (run, call) = SummaryRun::begin(&job, 1);
    match call {
        SummaryCall::Fork { thread_id, last_turn_id, request_id } => {
            assert_eq!(thread_id, "source");
            assert_eq!(last_turn_id, "turn");
            assert_eq!(request_id, 1);
        }
        other => panic!("{:?}", other),
    }
    run
}

fn made(id: &str) -> SummaryHeard {
    SummaryHeard::Made(id.to_string())
}

fn completed(thread_id: &str, turn_id: &str, status: TurnStatus, text: &str) -> SummaryHeard {
    SummaryHeard::Completed {
        thread_id: thread_id.to_string(),
        turn_id: turn_id.to_string(),
        status,
        items: vec![TurnItem::AgentMessage { text: text.to_string() }, TurnItem::Other],
    }
}

fn left(call: SummaryCall) -> String {
    match call {
        SummaryCall::Unsubscribe { thread_id, .. } => thread_id,
        other => panic!("{:?}", other),
    }
}

fn failure(call: SummaryCall) -> SummaryFailure {
    match call {
        SummaryCall::Finish(Err(failure)) => failure,
        other => panic!("{:?}", other),
    }
}

fn waiting() -> SummaryRun {
    let mut run = begin();
    match run.next(made("fork")) {
        SummaryCall::Start { thread_id, request_id } => {
            assert_eq!(thread_id, "fork");
            assert_eq!(request_id, 2);
        }
        other => panic!("{:?}", other),
    }
    assert!(matches!(run.next(made("t")), SummaryCall::Listen));
    run
}

#[test]
fn a_summary_is_made_on_a_fork() {
    let mut run = waiting();
    assert!(matches!(run.next(SummaryHeard::Other), SummaryCall::Listen));
    let other = completed("source", "t", TurnStatus::Completed, "x");
    assert!(matches!(run.next(other), SummaryCall::Listen));
    match run.next(completed("fork", "t", TurnStatus::Completed, "text")) {
        SummaryCall::Decode(text) => assert_eq!(text, "text"),
        other => panic!("{:?}", other),
    }
    let decoded = SummaryPayload { summary: " All\n done ".to_string(), attention: true };
    assert_eq!(left(run.next(SummaryHeard::Decoded(Ok(decoded)))), "fork");
    match run.next(SummaryHeard::Left) {
        SummaryCall::Finish(Ok(payload)) => {
            assert_eq!(payload.summary, "All done");
            assert!(payload.attention);
        }
        other => panic!("{:?}", other),
    }
    assert_eq!(run.request_id, 4);
}

#[test]
fn a_fork_that_is_not_made_is_not_left() {
    let mut run = begin();
    let failed = failure(run.next(SummaryHeard::Failed("no".to_string())));
    assert_eq!(failed.message(), "fork source thread for summary: no");
    let mut run = begin();
    assert!(matches!(failure(run.next(SummaryHeard::TimedOut)), SummaryFailure::ForkTimedOut));
}

#[test]
fn every_failure_leaves_the_fork() {
    let cases: Vec<(SummaryHeard, &str)> = vec![
        (SummaryHeard::TimedOut, "summary turn timed out"),
        (SummaryHeard::Disconnected("gone".to_string()), "gone"),
        (SummaryHeard::Closed, "summary app-server connection closed"),
        (completed("fork", "t", TurnStatus::Failed, "x"), "summary turn ended with Failed"),
        (
            SummaryHeard::Completed {
                thread_id: "fork".to_string(),
                turn_id: "t".to_string(),
                status: TurnStatus::Completed,
                items: vec![],
            },
            "summary turn returned no assistant message",
        ),
    ];
    for (heard, message) in cases {
        let mut run = waiting();
        assert_eq!(left(run.next(heard)), "fork");
        assert_eq!(failure(run.next(SummaryHeard::Left)).message(), message);
    }
    let mut run = begin();
    run.next(made("fork"));
    assert_eq!(left(run.next(SummaryHeard::Failed("no".to_string()))), "fork");
    assert_eq!(failure(run.next(SummaryHeard::Left)).message(), "start summary turn: no");
}

#[test]
fn an_empty_summary_is_none() {
    let mut run = waiting();
    run.next(completed("fork", "t", TurnStatus::Completed, "x"));
    let empty = SummaryPayload { summary: "  ".to_string(), attention: false };
    left(run.next(SummaryHeard::Decoded(Ok(empty))));
    assert!(matches!(
        failure(run.next(SummaryHeard::Left)),
        SummaryFailure::Unreadable(SummaryError::Empty)
    ));
}

#[test]
fn sessions_are_named_in_files() {
    assert_eq!(session_of("a", "\"t1\"\n"), Some(("a".to_string(), "t1".to_string())));
    assert_eq!(session_of("a", "t1"), None);
    assert_eq!(session_of("a", "[\"t1\"]"), None);
}

#[test]
fn the_fork_is_ephemeral_and_is_asked_for_a_summary() {
    assert_eq!(
        fork_params("source", "turn").text(),
        r#"{"ephemeral":true,"excludeTurns":true,"lastTurnId":"turn","model":"gpt-5.6-terra","threadId":"source"}"#
    );
    let asked = summary_turn_params("fork");
    assert_eq!(asked.str_at("threadId"), Some("fork"));
    assert_eq!(asked.str_at("model"), Some("gpt-5.6-terra"));
    assert_eq!(asked.str_at("effort"), Some("low"));
    let input = asked.array_at("input").unwrap();
    assert_eq!(input.len(), 1);
    assert_eq!(input[0].str_at("type"), Some("text"));
    assert_eq!(input[0].str_at("text"), Some(SUMMARY_PROMPT));
    assert!(input[0].array_at("textElements").unwrap().is_empty());
    assert_eq!(asked.get("outputSchema").unwrap().text(), summary_schema().text());
    assert_eq!(
        recent_turns_params("t").text(),
        r#"{"itemsView":"notLoaded","limit":4,"sortDirection":"desc","threadId":"t"}"#
    );
}

#[test]
fn calls_are_requests_to_the_server() {
    let job = SummaryJob { thread_id: "source".to_string(), turn_id: "turn".to_string() };
    let (mut run, call) = SummaryRun::begin(&job, 1);
    let (method, params) = call.request().unwrap();
    assert_eq!(method, "thread/fork");
    assert_eq!(params.text(), fork_params("source", "turn").text());
    let made = SummaryHeard::Made("fork".to_string());
    assert!(run.can_take(&made));
    assert!(!run.can_take(&SummaryHeard::Left));
    let (method, params) = run.next(made).request().unwrap();
    assert_eq!(method, "turn/start");
    assert_eq!(params.str_at("threadId"), Some("fork"));
    let (method, params) = run.next(SummaryHeard::TimedOut).request().unwrap();
    assert_eq!(method, "thread/unsubscribe");
    assert_eq!(params.text(), r#"{"threadId":"fork"}"#);
    assert!(run.next(SummaryHeard::Left).request().is_none());

    let (mut loading, call) = Loading::begin(vec![("a".to_string(), "t".to_string())], 1);
    let (method, params) = call.request().unwrap();
    assert_eq!(method, "thread/read");
    assert_eq!(params.text(), r#"{"includeTurns":false,"threadId":"t"}"#);
    assert!(loading.can_take_thread());
    assert!(!loading.can_take_turns());
    let (method, params) = loading.on_thread(thread("x", 1)).request().unwrap();
    assert_eq!(method, "thread/turns/list");
    assert_eq!(params.text(), recent_turns_params("t").text());
    assert!(loading.can_take_turns());
    assert!(loading.on_turns(&vec![], &SummaryCache::current()).request().is_none());
}

use puzzle::cache::{load_summary_cache, summary_cache_text, CacheError};
use puzzle::json::Json;
use puzzle::look::Color;
use puzzle::screen::{draw, status, Row, ATTENTION_INDEX};
use puzzle::strmap::{PairSet, StringMap};
use puzzle::view::{
    is_part_of, keep_match_visible, keep_visible, matching_indices, visible_rows, ViewState,
};
use puzzle::window::{
    apply_completed_turn_result, apply_summary_result, cached_classification, completed_turn_id,
    displayed_description, is_active, is_idle, muster_state_root, next_request_id,
    normalize_summary, parse_summary, preview, same_windows, schedule_summaries, schedule_summary,
    socket_path, sort_windows, summary_cache_path, summary_from_items, summary_schema,
    CompletedTurnResult, SummaryCache, SummaryCacheEntry, SummaryError, SummaryJob, SummaryPayload,
    SummaryResult, Thread, ThreadStatus, Turn, TurnItem, TurnStatus, Window,
    SUMMARY_PROMPT_VERSION,
};

fn window(slug: &str, preview: &str, summary: Option<&str>) -> Window {
    Window {
        slug: slug.to_string(),
        thread_id: format!("{slug}-thread"),
        completed_turn_id: summary.map(|_| "turn-a".to_string()),
        preview: preview.to_string(),
        classification: summary.map(|summary| SummaryCacheEntry {
            turn_id: "turn-a".to_string(),
            summary: summary.to_string(),
            attention: false,
        }),
        status: ThreadStatus::Idle,
        recency_at: 0,
    }
}

fn decode(text: &str) -> Result<SummaryPayload, String> {
    let value = Json::parse(text).ok_or("not JSON")?;
    Ok(SummaryPayload {
        summary: value.str_at("summary").ok_or("no summary")?.to_string(),
        attention: value.get("attention").and_then(|v| v.as_bool()).ok_or("no attention")?,
    })
}

fn same_entry(a: &SummaryCacheEntry, b: &SummaryCacheEntry) -> bool {
    a.turn_id == b.turn_id && a.summary == b.summary && a.attention == b.attention
}

#[test]
fn matches_slug_and_exact_displayed_description_case_insensitively() {
    let windows = vec![
        window("Alpha", "needle preview", Some("Finished work")),
        window("Beta", "Needle\n  preview", None),
    ];

    assert_eq!(matching_indices(&windows, Some("ALP")), vec![0]);
    assert_eq!(matching_indices(&windows, Some("finished")), vec![0]);
    assert_eq!(matching_indices(&windows, Some("needle preview")), vec![1]);
}

#[test]
fn retains_selection_through_zero_matches_and_clears_it_if_removed() {
    let windows = vec![
        window("alpha", "first", None),
        window("beta", "second", None),
    ];
    let mut view = ViewState::new(&windows);

    view.query = Some("missing".to_string());
    view.reconcile(&windows, 10);
    assert!(view.matches.is_empty());
    assert_eq!(view.selected_slug.as_deref(), Some("alpha"));
    assert_eq!(view.effective_slug(&windows), None);

    view.query = Some("alpha".to_string());
    view.reconcile(&windows, 10);
    assert_eq!(view.effective_slug(&windows), Some("alpha"));

    view.query = Some("beta".to_string());
    view.reconcile(&windows, 10);
    assert_eq!(view.effective_slug(&windows), Some("beta"));

    view.query = Some("missing".to_string());
    let fewer = vec![window("alpha", "first", None)];
    view.reconcile(&fewer, 10);
    assert_eq!(view.selected_slug, None);
}

#[test]
fn keeps_offsets_in_match_coordinates() {
    assert_eq!(keep_match_visible(Some(4), 0, 3, 5), 2);
    assert_eq!(keep_match_visible(Some(0), 4, 3, 1), 0);
    assert_eq!(keep_match_visible(None, 2, 3, 0), 0);
    assert_eq!(keep_match_visible(Some(0), 2, 0, 5), 0);
}

#[test]
fn structured_classification_requires_attention_and_normalizes_summary() {
    for attention in [true, false] {
        let payload = parse_summary(decode(&format!(
            r#"{{"summary":"  Need\n  approval  ","attention":{attention}}}"#
        )))
        .unwrap();
        assert_eq!(payload.summary, "Need approval");
        assert_eq!(payload.attention, attention);
    }
    for invalid in [
        r#"{"summary":"Ready"}"#,
        r#"{"summary":"Ready","attention":"false"}"#,
        r#"{"summary":"Ready","attention":null}"#,
        r#"{"summary":"  ","attention":false}"#,
        "not json",
    ] {
        assert!(parse_summary(decode(invalid)).is_err(), "{invalid}");
    }
    let long = Json::object()
        .with("summary", Json::string(&"é".repeat(45)))
        .with("attention", Json::Bool(false))
        .text();
    let payload = parse_summary(decode(&long)).unwrap();
    assert_eq!(payload.summary, "é".repeat(40));
    let schema = summary_schema();
    assert_eq!(schema.get("required").unwrap().text(), r#"["summary","attention"]"#);
    assert_eq!(
        schema.get("properties").unwrap().get("attention").unwrap().str_at("type"),
        Some("boolean")
    );
}

#[test]
fn old_cache_invalidates_and_current_cache_requires_matching_turn() {
    let old = r#"{"version":1,"entries":{"alpha-thread":{"turn_id":"turn-a","summary":"Old"}}}"#;
    let mut cache = load_summary_cache(Some(old)).unwrap();
    assert_eq!(cache.version, SUMMARY_PROMPT_VERSION);
    assert!(cache.entries.entries().is_empty());
    let entry = SummaryCacheEntry {
        turn_id: "turn-a".into(),
        summary: "Need approval".into(),
        attention: true,
    };
    cache.entries.insert("alpha-thread".into(), SummaryCacheEntry {
        turn_id: "turn-a".into(),
        summary: "Need approval".into(),
        attention: true,
    });
    let loaded = load_summary_cache(Some(&summary_cache_text(&cache))).unwrap();
    let found = cached_classification(&loaded, "alpha-thread", Some("turn-a")).unwrap();
    assert!(same_entry(&found, &entry));
    assert!(cached_classification(&loaded, "alpha-thread", Some("turn-b")).is_none());
    assert!(cached_classification(&loaded, "alpha-thread", None).is_none());
}

fn classified_result(turn: &str, attention: bool) -> SummaryResult {
    SummaryResult {
        job: SummaryJob {
            thread_id: "alpha-thread".into(),
            turn_id: turn.into(),
        },
        summary: Ok(SummaryPayload {
            summary: "Decision needed".into(),
            attention,
        }),
    }
}

fn lookup(generation: u64, turn: Option<&str>) -> CompletedTurnResult {
    CompletedTurnResult {
        thread_id: "alpha-thread".into(),
        generation,
        completed_turn_id: Ok(turn.map(str::to_string)),
    }
}

fn generations_at(generation: u64) -> StringMap<u64> {
    let mut generations = StringMap::new();
    generations.insert("alpha-thread".into(), generation);
    generations
}

#[test]
fn classification_follows_completed_turn_across_active_successor_and_failures() {
    let mut windows = vec![window("alpha", "fallback", None)];
    windows[0].completed_turn_id = Some("turn-a".into());
    let mut cache = SummaryCache::default();
    // A finishes classifying while its successor is already running.
    windows[0].status = ThreadStatus::Active {
        active_flags: vec![],
    };
    assert!(apply_summary_result(
        &mut windows,
        &mut cache,
        classified_result("turn-a", true)
    ));
    assert!(windows[0].classification.as_ref().unwrap().attention);
    let generations = generations_at(2);
    assert_eq!(
        apply_completed_turn_result(&mut windows, &generations, lookup(2, Some("turn-b"))),
        None
    );
    assert!(windows[0].classification.as_ref().unwrap().attention);
    windows[0].status = ThreadStatus::Idle;
    assert_eq!(
        apply_completed_turn_result(&mut windows, &generations, lookup(1, Some("turn-b"))),
        None
    );
    let failed_lookup = CompletedTurnResult {
        completed_turn_id: Err("lookup unavailable".into()),
        ..lookup(2, None)
    };
    assert_eq!(
        apply_completed_turn_result(&mut windows, &generations, failed_lookup),
        None
    );
    assert_eq!(
        apply_completed_turn_result(&mut windows, &generations, lookup(2, Some("turn-a"))),
        Some(0)
    );
    assert!(windows[0].classification.as_ref().unwrap().attention);
    assert_eq!(
        apply_completed_turn_result(&mut windows, &generations, lookup(2, Some("turn-b"))),
        Some(0)
    );
    assert!(windows[0].classification.is_none());
    assert_eq!(displayed_description(&windows[0]), "fallback");
    assert!(!apply_summary_result(
        &mut windows,
        &mut cache,
        classified_result("turn-a", true)
    ));
    assert!(windows[0].classification.is_none());
    let failure = SummaryResult {
        summary: Err("timeout".into()),
        ..classified_result("turn-b", true)
    };
    assert!(apply_summary_result(&mut windows, &mut cache, failure));
    assert!(windows[0].classification.is_none());
    assert!(cache.entries.get("alpha-thread").is_none());
    assert!(apply_summary_result(
        &mut windows,
        &mut cache,
        classified_result("turn-b", false)
    ));
    assert!(!windows[0].classification.as_ref().unwrap().attention);
    let cached = SummaryCacheEntry {
        turn_id: "turn-b".into(),
        summary: "Decision needed".into(),
        attention: false,
    };
    assert!(same_entry(cache.entries.get("alpha-thread").unwrap(), &cached));
    assert!(!apply_summary_result(
        &mut windows,
        &mut cache,
        classified_result("turn-a", true)
    ));
    let stale_failure = SummaryResult {
        summary: Err("timeout".into()),
        ..classified_result("turn-a", false)
    };
    assert!(!apply_summary_result(
        &mut windows,
        &mut cache,
        stale_failure
    ));
    assert!(same_entry(cache.entries.get("alpha-thread").unwrap(), &cached));
    assert!(same_entry(windows[0].classification.as_ref().unwrap(), &cached));
    assert_eq!(
        apply_completed_turn_result(&mut windows, &generations, lookup(2, None)),
        Some(0)
    );
    assert!(windows[0].classification.is_none());
    assert!(!apply_summary_result(
        &mut Vec::new(),
        &mut cache,
        classified_result("turn-b", true)
    ));
}

#[test]
fn failed_classification_is_not_retried_in_same_run() {
    let mut windows = vec![window("alpha", "fallback", None)];
    windows[0].completed_turn_id = Some("turn-a".into());
    let mut attempted = PairSet::new();
    let mut jobs = Vec::new();
    schedule_summary(&windows[0], &mut attempted, &mut jobs);
    let job = jobs.pop().unwrap();
    apply_summary_result(
        &mut windows,
        &mut SummaryCache::default(),
        SummaryResult {
            job,
            summary: Err("timeout".into()),
        },
    );
    schedule_summary(&windows[0], &mut attempted, &mut jobs);
    assert!(jobs.pop().is_none());
}

/// The character in a column of a row and its color.
fn cell(row: &Row, column: usize) -> (char, Color) {
    let mut at = 0;
    for span in &row.spans {
        for c in span.text.chars() {
            if at == column {
                return (c, span.fg);
            }
            at += 1;
        }
    }
    panic!("the row ends before column {column}")
}

#[test]
fn attention_color_and_search_survive_active_and_pending_states() {
    let mut windows = vec![
        window("alpha", "fallback", Some("Decision needed")),
        window("beta", "fallback", Some("Done")),
        window("gamma", "fallback", None),
    ];
    windows[0].classification.as_mut().unwrap().attention = true;
    windows[0].status = ThreadStatus::Active {
        active_flags: vec![],
    };
    let all = vec![0, 1, 2];
    let screen = draw(&windows, &all, 0, None, None, 6);
    assert_eq!(cell(&screen.rows[0], 30), ('D', Color::Indexed(ATTENTION_INDEX)));
    assert_eq!(cell(&screen.rows[1], 30), ('D', Color::Reset));
    assert_eq!(cell(&screen.rows[2], 30), ('f', Color::Reset));
    let screen = draw(&windows, &all, 0, Some("alpha"), None, 6);
    assert_eq!(cell(&screen.rows[0], 30), ('D', Color::Indexed(ATTENTION_INDEX)));
    assert_eq!(screen.rows[0].bg, Color::DarkGray);
    assert_eq!(screen.rows[1].bg, Color::Reset);
    assert_eq!(screen.footer_fg, Color::DarkGray);
    assert_eq!(matching_indices(&windows, Some("decision")), vec![0]);
    windows[0].status = ThreadStatus::Idle;
    let generations = generations_at(1);
    apply_completed_turn_result(&mut windows, &generations, lookup(1, Some("turn-b")));
    let screen = draw(&windows, &all, 0, Some("alpha"), None, 6);
    assert_eq!(cell(&screen.rows[0], 30), ('f', Color::Reset));
}

#[test]
fn windows_are_ordered_by_recency() {
    let mut windows = vec![window("a", "", None), window("b", "", None), window("c", "", None)];
    windows[1].recency_at = 5;
    sort_windows(&mut windows);
    let order: Vec<&str> = windows.iter().map(|w| w.slug.as_str()).collect();
    assert_eq!(order, vec!["b", "a", "c"]);
    assert!(same_windows(&windows, &windows));
    let others = vec![window("a", "", None)];
    assert!(!same_windows(&windows, &others));
}

#[test]
fn previews_are_one_line() {
    assert_eq!(preview("  a\n\tb  c "), "a b c");
    assert_eq!(normalize_summary("  Need\n  approval  "), "Need approval");
    assert_eq!(normalize_summary(&"x".repeat(41)), "x".repeat(40));
    assert_eq!(displayed_description(&window("a", "b\nc", None)), "b c");
    assert_eq!(displayed_description(&window("a", "b", Some("Done"))), "Done");
}

#[test]
fn errors_of_summaries() {
    let none = summary_from_items(&vec![TurnItem::Other]);
    assert!(matches!(none, Err(SummaryError::NoMessage)));
    assert_eq!(
        summary_from_items(&vec![
            TurnItem::AgentMessage { text: "first".into() },
            TurnItem::AgentMessage { text: "last".into() },
            TurnItem::Other,
        ])
        .unwrap(),
        "last"
    );
    let broken = parse_summary(Err("no attention".to_string())).unwrap_err();
    assert!(matches!(broken, SummaryError::NotDecoded(_)));
    assert_eq!(broken.message(), "decode structured summary response: no attention");
    let empty = SummaryPayload { summary: " \n ".into(), attention: true };
    assert!(matches!(parse_summary(Ok(empty)), Err(SummaryError::Empty)));
    assert_eq!(
        SummaryError::NoMessage.message(),
        "summary turn returned no assistant message"
    );
    assert_eq!(SummaryError::Empty.message(), "summary response was empty");
}

#[test]
fn the_last_completed_turn_counts() {
    let turn = |id: &str, status: TurnStatus| Turn { id: id.into(), status };
    assert_eq!(completed_turn_id(&vec![]), None);
    assert_eq!(
        completed_turn_id(&vec![
            turn("d", TurnStatus::InProgress),
            turn("c", TurnStatus::Completed),
            turn("b", TurnStatus::Completed),
        ]),
        Some("c".to_string())
    );
    assert_eq!(
        completed_turn_id(&vec![turn("a", TurnStatus::Failed), turn("b", TurnStatus::Interrupted)]),
        None
    );
}

#[test]
fn each_turn_is_scheduled_once() {
    let mut windows = vec![window("a", "", None), window("b", "", Some("Done"))];
    windows[0].completed_turn_id = Some("turn-1".into());
    let mut attempted = PairSet::new();
    let mut jobs = Vec::new();
    schedule_summaries(&windows, &mut attempted, &mut jobs);
    schedule_summaries(&windows, &mut attempted, &mut jobs);
    assert_eq!(jobs.len(), 1);
    assert_eq!(jobs[0].thread_id, "a-thread");
    assert_eq!(jobs[0].turn_id, "turn-1");
}

#[test]
fn a_window_of_a_thread_takes_its_cached_summary() {
    let mut cache = SummaryCache::current();
    cache.entries.insert("t".into(), SummaryCacheEntry {
        turn_id: "turn-1".into(),
        summary: "Ready".into(),
        attention: true,
    });
    let thread = || Thread {
        preview: "hello".into(),
        status: ThreadStatus::Idle,
        recency_at: None,
        updated_at: 7,
    };
    let w = Window::of_thread("s".into(), "t".into(), thread(), Some("turn-1".into()), &cache);
    assert_eq!(w.recency_at, 7);
    assert_eq!(displayed_description(&w), "Ready");
    let w = Window::of_thread("s".into(), "t".into(), thread(), Some("turn-2".into()), &cache);
    assert_eq!(displayed_description(&w), "hello");
}

#[test]
fn places_of_the_state() {
    assert_eq!(muster_state_root(Some("/m"), Some("/s"), Some("/h")).unwrap(), "/m");
    assert_eq!(muster_state_root(None, Some("/s"), Some("/h")).unwrap(), "/s/muster");
    assert_eq!(muster_state_root(None, None, Some("/h")).unwrap(), "/h/.local/state/muster");
    assert!(muster_state_root(None, None, None).is_err());
    assert_eq!(socket_path(Some("/given.sock"), "/m"), "/given.sock");
    assert!(summary_cache_path(None, None).is_err());
    let mut id = 1;
    assert_eq!(next_request_id(&mut id), 1);
    assert_eq!(id, 2);
}

#[test]
fn selection_wraps_and_stays_visible() {
    let windows = vec![window("a", "", None), window("b", "", None), window("c", "", None)];
    let mut view = ViewState::new(&windows);
    view.select_relative(&windows, false);
    assert_eq!(view.effective_slug_owned(&windows), Some("c".to_string()));
    view.select_relative(&windows, true);
    assert_eq!(view.effective_slug(&windows), Some("a"));
    view.select_last(&windows);
    view.ensure_visible(&windows, 2);
    assert_eq!(view.offset, 1);
    assert_eq!(view.selected_match_position(&windows), Some(2));
    view.select_first(&windows);
    view.ensure_visible(&windows, 2);
    assert_eq!(view.offset, 0);
    assert_eq!(keep_visible(9, 0, 4), 6);
    assert_eq!(keep_visible(2, 5, 4), 2);
    assert_eq!(visible_rows(6), 4);
    assert_eq!(visible_rows(1), 0);
}

#[test]
fn matching_ignores_case_beyond_ascii() {
    let windows = vec![window("ÄPFEL", "", None), window("straße", "", None)];
    assert_eq!(matching_indices(&windows, Some("äpfel")), vec![0]);
    assert_eq!(matching_indices(&windows, Some("STRASSE")), Vec::<usize>::new());
    assert_eq!(matching_indices(&windows, None), vec![0, 1]);
}

#[test]
fn states_are_named_and_colored() {
    assert_eq!(status(&ThreadStatus::Active { active_flags: vec![] }), ("active", Color::Green));
    assert_eq!(status(&ThreadStatus::Idle), ("idle", Color::DarkGray));
    assert_eq!(status(&ThreadStatus::NotLoaded), ("unloaded", Color::DarkGray));
    assert_eq!(status(&ThreadStatus::SystemError), ("error", Color::Red));
    assert!(is_idle(&ThreadStatus::Idle));
    assert!(is_active(&ThreadStatus::Active { active_flags: vec!["x".into()] }));
}

#[test]
fn a_query_is_a_part_of_a_slug_or_a_description() {
    assert!(is_part_of("solver", "fix the parser", "olv"));
    assert!(is_part_of("solver", "fix the parser", "the p"));
    assert!(is_part_of("solver", "", ""));
    assert!(!is_part_of("solver", "fix the parser", "Solver"));
}

#[test]
fn typing_narrows_the_list() {
    let windows = vec![
        window("solver", "Fix the parser", None),
        window("parser", "first", None),
        window("other", "second", None),
    ];
    let all = matching_indices(&windows, None);
    assert_eq!(matching_indices(&windows, Some("")), all);
    let mut before = all;
    for query in ["p", "Pa", "PAR", "pars", "parsers"] {
        let now = matching_indices(&windows, Some(query));
        assert!(now.iter().all(|i| before.contains(i)));
        assert_eq!(now, matching_indices(&windows, Some(&query.to_ascii_uppercase())));
        before = now;
    }
    assert_eq!(matching_indices(&windows, Some("PARS")), vec![0, 1]);
    assert!(before.is_empty());
}

#[test]
fn summaries_are_saved_and_loaded_again() {
    let mut cache = SummaryCache::current();
    for (thread, attention) in [("b", true), ("a", false)] {
        cache.entries.insert(thread.to_string(), SummaryCacheEntry {
            turn_id: format!("{thread}-turn"),
            summary: "Done \u{e9}\n".to_string(),
            attention,
        });
    }
    let text = summary_cache_text(&cache);
    assert!(text.starts_with("{\n  \"entries\": {\n    \"a\": {\n      \"attention\": false,"));
    let loaded = load_summary_cache(Some(&text)).unwrap();
    assert_eq!(loaded.version, SUMMARY_PROMPT_VERSION);
    assert_eq!(loaded.entries.entries().len(), 2);
    let entry = loaded.entries.get("b").unwrap();
    assert_eq!((entry.turn_id.as_str(), entry.summary.as_str()), ("b-turn", "Done \u{e9}\n"));
    assert!(entry.attention);
    cache.version = 1;
    let loaded = load_summary_cache(Some(&summary_cache_text(&cache))).unwrap();
    assert_eq!(loaded.version, SUMMARY_PROMPT_VERSION);
    assert!(loaded.entries.entries().is_empty());
    assert!(load_summary_cache(None).unwrap().entries.entries().is_empty());
}

#[test]
fn files_that_hold_no_summaries_are_refused() {
    assert!(matches!(load_summary_cache(Some("")), Err(CacheError::NotJson(_))));
    for text in [
        "{}",
        r#"{"version":2}"#,
        r#"{"version":-1,"entries":{}}"#,
        r#"{"version":2,"entries":[]}"#,
        r#"{"version":2,"entries":{"t":{"turn_id":"a"}}}"#,
        r#"{"version":2,"entries":{"t":{"turn_id":"a","summary":"b","attention":null}}}"#,
    ] {
        assert!(matches!(load_summary_cache(Some(text)), Err(CacheError::NotSummaries)), "{text}");
    }
    let old = r#"[2,{"t":["a","b"],"u":{"turn_id":"c","summary":"d","more":1}}]"#;
    let loaded = load_summary_cache(Some(old)).unwrap();
    assert!(!loaded.entries.get("t").unwrap().attention);
    assert_eq!(loaded.entries.get("u").unwrap().summary, "d");
}

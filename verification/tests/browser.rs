use puzzle::browser::{is_primary, Browser, Effect};
use puzzle::keys::{Code, Key};
use puzzle::screen::draw;
use puzzle::window::{
    CompletedTurnResult, SummaryCache, SummaryJob, SummaryPayload, SummaryResult, ThreadStatus,
    Window,
};

fn window(slug: &str, recency_at: i64) -> Window {
    Window {
        slug: slug.to_string(),
        thread_id: format!("{slug}-thread"),
        completed_turn_id: None,
        preview: format!("{slug} preview"),
        classification: None,
        status: ThreadStatus::Idle,
        recency_at,
    }
}

fn browser() -> Browser {
    Browser::new(
        vec![window("a", 3), window("b", 2), window("c", 1)],
        SummaryCache::current(),
        10,
    )
}

fn slugs(b: &Browser) -> Vec<&str> {
    b.windows.iter().map(|w| w.slug.as_str()).collect()
}

fn shows(effects: &Vec<Effect>) -> Vec<String> {
    let mut all = Vec::new();
    for effect in effects {
        if let Effect::Show(slug) = effect {
            all.push(slug.clone());
        }
    }
    all
}

fn quits(effects: &Vec<Effect>) -> bool {
    effects.iter().any(|e| matches!(e, Effect::Quit))
}

#[test]
fn movement_shows_the_selected_window() {
    let mut b = browser();
    assert_eq!(shows(&b.on_key(Key::of(Code::Char('j')), 10)), vec!["b"]);
    assert_eq!(shows(&b.on_key(Key::of(Code::Down), 10)), vec!["c"]);
    assert_eq!(shows(&b.on_key(Key::of(Code::Char('j')), 10)), vec!["a"]);
    assert_eq!(shows(&b.on_key(Key::of(Code::Char('k')), 10)), vec!["c"]);
    assert!(shows(&b.on_key(Key::of(Code::Char('g')), 10)).is_empty());
    assert_eq!(b.view.effective_slug(&b.windows), Some("a"));
    assert!(shows(&b.on_key(Key::of(Code::Char('G')), 10)).is_empty());
    assert_eq!(b.view.effective_slug(&b.windows), Some("c"));
    assert_eq!(shows(&b.on_key(Key::of(Code::Enter), 10)), vec!["c"]);
    assert_eq!(slugs(&b), vec!["a", "b", "c"]);
}

#[test]
fn finding_narrows_the_list() {
    let mut b = browser();
    b.on_key(Key::of(Code::Char('/')), 10);
    assert_eq!(b.view.query.as_deref(), Some(""));
    b.on_key(Key::of(Code::Char('b')), 10);
    assert_eq!(b.view.query.as_deref(), Some("b"));
    assert_eq!(b.view.matches, vec![1]);
    assert!(!quits(&b.on_key(Key::of(Code::Char('q')), 10)));
    assert_eq!(b.view.query.as_deref(), Some("bq"));
    b.on_key(Key::of(Code::Backspace), 10);
    assert_eq!(b.view.query.as_deref(), Some("b"));
    assert!(!quits(&b.on_key(Key::of(Code::Esc), 10)));
    assert_eq!(b.view.query, None);
    assert_eq!(b.view.matches, vec![0, 1, 2]);
}

#[test]
fn keys_that_end_it() {
    assert!(quits(&browser().on_key(Key::of(Code::Char('q')), 10)));
    assert!(quits(&browser().on_key(Key::of(Code::Esc), 10)));
    let mut b = browser();
    b.on_key(Key::of(Code::Char('/')), 10);
    assert!(quits(&b.on_key(Key::with_ctrl(Code::Char('c')), 10)));
}

#[test]
fn enter_moves_the_focus() {
    let mut b = browser();
    let effects = b.on_key(Key::of(Code::Enter), 10);
    assert!(effects.iter().any(|e| matches!(e, Effect::Focus)));
}

#[test]
fn a_window_that_becomes_idle_is_looked_up() {
    let mut b = browser();
    assert!(b.can_take_status("c-thread", &ThreadStatus::Idle));
    assert!(b.can_reload());
    b.on_status("c-thread", ThreadStatus::Active { active_flags: vec![] }, 10);
    assert_eq!(slugs(&b), vec!["c", "a", "b"]);
    let effects = b.on_status("c-thread", ThreadStatus::Idle, 10);
    let mut found = None;
    for effect in &effects {
        if let Effect::Lookup { thread_id, generation, request_id } = effect {
            found = Some((thread_id.clone(), *generation, *request_id));
        }
    }
    let (thread_id, generation, request_id) = found.unwrap();
    assert_eq!(thread_id, "c-thread");
    assert_eq!(request_id, 10);
    let effects = b.on_lookup(
        CompletedTurnResult {
            thread_id: "c-thread".to_string(),
            generation,
            completed_turn_id: Ok(Some("turn-1".to_string())),
        },
        10,
    );
    assert!(effects.iter().any(|e| matches!(e, Effect::Summarize(_))));
    let effects = b.on_summary(
        SummaryResult {
            job: SummaryJob { thread_id: "c-thread".to_string(), turn_id: "turn-1".to_string() },
            summary: Ok(SummaryPayload { summary: "Done".to_string(), attention: false }),
        },
        10,
    );
    assert!(effects.iter().any(|e| matches!(e, Effect::SaveCache)));
    let at = b.windows.iter().position(|w| w.slug == "c").unwrap();
    assert_eq!(b.windows[at].classification.as_ref().unwrap().summary, "Done");
}

#[test]
fn a_late_answer_is_stale() {
    let mut b = browser();
    b.on_status("a-thread", ThreadStatus::Active { active_flags: vec![] }, 10);
    b.on_status("a-thread", ThreadStatus::Idle, 10);
    let effects = b.on_lookup(
        CompletedTurnResult {
            thread_id: "a-thread".to_string(),
            generation: 0,
            completed_turn_id: Ok(Some("turn-1".to_string())),
        },
        10,
    );
    assert!(effects.is_empty());
}

#[test]
fn only_new_threads_are_loaded() {
    let b = browser();
    assert!(!b.may_load("a-thread", true));
    let sessions = vec![("s".to_string(), "t".to_string())];
    assert!(is_primary(&sessions, "t"));
    assert!(!is_primary(&sessions, "u"));
}

#[test]
fn a_reload_keeps_the_selection() {
    let mut b = browser();
    b.on_key(Key::of(Code::Char('j')), 10);
    b.on_reload(vec![window("d", 9), window("b", 2)], 10);
    assert_eq!(slugs(&b), vec!["d", "b"]);
    assert_eq!(b.view.effective_slug(&b.windows), Some("b"));
    assert!(!b.on_resize(3).is_empty());
    b.schedule();
}

#[test]
fn the_screen_tells_where_it_stands() {
    let windows: Vec<Window> = (0..5).map(|i| window(&format!("w{i}"), i)).collect();
    let all = vec![0, 1, 2, 3, 4];
    let screen = draw(&windows, &all, 1, None, None, 4);
    assert_eq!(screen.title, "5 primary Codex windows");
    assert_eq!(screen.rows.len(), 2);
    assert_eq!(screen.rows[0].spans[1].text, "w1                  ");
    assert_eq!(screen.rows[0].spans[0].text, "idle      ");
    assert_eq!(
        screen.footer,
        "j/k select  g/G first/last  / find  Enter open  q quit  2-3 of 5"
    );
    let screen = draw(&windows, &vec![2], 0, None, Some("w2"), 10);
    assert_eq!(screen.footer, "find /w2  1 match  Up/Down select  Enter open  Esc clear");
    let screen = draw(&windows, &vec![], 0, None, Some("x"), 10);
    assert_eq!(screen.footer, "find /x  no matches  Esc clear");
    let screen = draw(&windows, &vec![1, 2], 0, None, Some("w"), 10);
    assert_eq!(screen.footer, "find /w  2 matches  Up/Down select  Enter open  Esc clear");
}

#[test]
fn numbers_count_only_where_they_are_needed() {
    let active = || ThreadStatus::Active { active_flags: vec![] };
    let mut b = browser();
    b.request_id = i64::MAX;
    b.windows[2].status = active();
    assert!(!b.can_take_status("c-thread", &ThreadStatus::Idle));
    assert!(b.can_take_status("c-thread", &active()));
    assert!(b.can_take_status("nobody", &ThreadStatus::Idle));
    let mut b = browser();
    b.windows[0].recency_at = i64::MAX;
    assert!(!b.can_take_status("c-thread", &active()));
    assert!(b.can_take_status("c-thread", &ThreadStatus::Idle));
    assert!(b.can_reload());
    b.generations.insert("c-thread".to_string(), u64::MAX);
    assert!(!b.can_reload());
    assert!(!b.can_take_status("c-thread", &ThreadStatus::Idle));
}

#[test]
fn the_version_of_the_cache_stays() {
    let mut cache = SummaryCache::current();
    cache.version = 77;
    let mut b = Browser::new(vec![window("a", 3)], cache, 10);
    b.on_key(Key::of(Code::Char('j')), 10);
    b.on_reload(vec![window("b", 1)], 10);
    b.on_resize(20);
    b.on_status("b-thread", ThreadStatus::Active { active_flags: vec![] }, 10);
    b.schedule();
    assert_eq!(b.cache.version, 77);
}

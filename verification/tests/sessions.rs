use puzzle::json::Json;
use puzzle::paths::join_path;
use puzzle::sessions::{
    all_sessions, latest_session, now_iso8601, session_line, sessions_path, slug_from_pane_dir,
    SessionEntry,
};

/// The files of a state directory, held in memory.
struct State {
    dir: String,
    files: Vec<(String, String)>,
    seconds: u64,
}

impl State {
    fn new() -> State {
        State { dir: "/state".to_string(), files: Vec::new(), seconds: 1700000000 }
    }

    fn read(&self, path: &str) -> Option<String> {
        self.files.iter().find(|f| f.0 == path).map(|f| f.1.clone())
    }

    fn write(&mut self, path: &str, text: &str) {
        self.files.retain(|f| f.0 != path);
        self.files.push((path.to_string(), text.to_string()));
    }

    fn record_session(&mut self, slug: &str, id: &str) {
        let path = sessions_path(&self.dir, slug);
        let text = self.read(&path).unwrap_or_default() + &session_line(id, self.seconds);
        self.seconds += 1;
        self.write(&path, &text);
    }

    fn latest(&self, slug: &str) -> Option<String> {
        latest_session(self.read(&sessions_path(&self.dir, slug)).as_deref())
    }

    fn all(&self, slug: &str) -> Vec<SessionEntry> {
        all_sessions(self.read(&sessions_path(&self.dir, slug)).as_deref())
    }
}

#[test]
fn record_and_read_latest() {
    let mut state = State::new();

    state.record_session("puzzle", "abc-123");
    state.record_session("puzzle", "def-456");

    let latest = state.latest("puzzle").unwrap();
    assert_eq!(latest, "def-456");
}

#[test]
fn latest_returns_none_for_missing_slug() {
    let state = State::new();
    assert_eq!(state.latest("nonexistent"), None);
}

#[test]
fn latest_returns_none_for_empty_file() {
    let mut state = State::new();
    let path = sessions_path(&state.dir, "puzzle");
    state.write(&path, "");

    assert_eq!(state.latest("puzzle"), None);
}

#[test]
fn all_sessions_returns_entries_in_order() {
    let mut state = State::new();

    state.record_session("puzzle", "first");
    state.record_session("puzzle", "second");
    state.record_session("puzzle", "third");

    let entries = state.all("puzzle");
    let ids: Vec<&str> = entries.iter().map(|e| e.session_id.as_str()).collect();
    assert_eq!(ids, vec!["first", "second", "third"]);
}

#[test]
fn separate_slugs_are_independent() {
    let mut state = State::new();

    state.record_session("puzzle", "puzzle-session");
    state.record_session("dotfiles", "dotfiles-session");

    assert_eq!(state.latest("puzzle").unwrap(), "puzzle-session");
    assert_eq!(state.latest("dotfiles").unwrap(), "dotfiles-session");
}

#[test]
fn creates_directory_structure() {
    let mut state = State::new();

    state.record_session("puzzle", "abc-123");

    let dir = join_path(&state.dir, "puzzle");
    assert!(state.files[0].0.starts_with(&dir));
    assert!(state.read(&join_path(&dir, "sessions.jsonl")).is_some());
}

#[test]
fn file_is_valid_jsonl() {
    let mut state = State::new();

    state.record_session("puzzle", "abc-123");
    state.record_session("puzzle", "def-456");

    let content = state.read(&sessions_path(&state.dir, "puzzle")).unwrap();
    let lines: Vec<&str> = content.lines().collect();
    assert_eq!(lines.len(), 2);

    for line in &lines {
        let entry = SessionEntry::from_line(line).unwrap();
        assert!(!entry.session_id.is_empty());
        assert!(!entry.timestamp.is_empty());
    }
}

#[test]
fn sessions_path_structure() {
    let path = sessions_path("/home/alan/.local/state/puzzle", "puzzle");
    assert_eq!(path, "/home/alan/.local/state/puzzle/puzzle/sessions.jsonl");
}

#[test]
fn slug_from_pane_dir_extracts_name() {
    let home = "/home/alan";
    let pane_dir = join_path(&join_path(home, "pane"), "puzzle");
    let slug = slug_from_pane_dir(Some(home), &pane_dir).unwrap();
    assert_eq!(slug, "puzzle");
}

#[test]
fn tolerates_malformed_lines() {
    let mut state = State::new();
    let path = sessions_path(&state.dir, "puzzle");
    state.write(
        &path,
        "{\"session_id\":\"good-one\",\"timestamp\":\"123\"}\ngarbage\n{\"session_id\":\"good-two\",\"timestamp\":\"456\"}\n",
    );

    let latest = state.latest("puzzle").unwrap();
    assert_eq!(latest, "good-two");

    let entries = state.all("puzzle");
    assert_eq!(entries.len(), 2);
}

#[test]
fn a_recorded_line_is_exact() {
    assert_eq!(
        session_line("abc-123", 1700000000),
        "{\"session_id\":\"abc-123\",\"timestamp\":\"1700000000\"}\n"
    );
    assert_eq!(now_iso8601(1700000000), "1700000000");
}

#[test]
fn a_broken_last_line_is_passed_over() {
    let mut state = State::new();
    let path = sessions_path(&state.dir, "puzzle");
    state.write(&path, "{\"session_id\":\"a\",\"timestamp\":\"1\"}\nbroken\n\n");
    assert_eq!(state.latest("puzzle"), Some("a".to_string()));
    assert_eq!(state.all("puzzle").len(), 1);
    state.write(&path, "broken\n");
    assert_eq!(state.latest("puzzle"), None);
}

#[test]
fn directories_outside_have_no_slug() {
    assert_eq!(slug_from_pane_dir(None, "/home/alan/pane/puzzle"), None);
    assert_eq!(slug_from_pane_dir(Some("/home/alan"), "/srv/puzzle"), None);
    assert_eq!(
        slug_from_pane_dir(Some("/home/alan"), "/home/alan/pane/a/b"),
        Some("a/b".to_string())
    );
}

#[test]
fn a_session_is_read_from_its_record() {
    let read = |text: &str| {
        SessionEntry::from_json(&Json::parse(text).unwrap()).map(|e| (e.session_id, e.timestamp))
    };
    let entry = Some(("a".to_string(), "1".to_string()));
    assert_eq!(read(r#"{"session_id":"a","timestamp":"1"}"#), entry);
    assert_eq!(read(r#"{"timestamp":"1","more":[2],"session_id":"a"}"#), entry);
    assert_eq!(read(r#"["a","1"]"#), entry);
    assert_eq!(read(r#"["a","1","2"]"#), None);
    assert_eq!(read(r#"["a"]"#), None);
    assert_eq!(read(r#"{"session_id":"a"}"#), None);
    assert_eq!(read(r#"{"session_id":"a","timestamp":1}"#), None);
    assert_eq!(read(r#""a""#), None);
    assert!(SessionEntry::from_line("{").is_none());
    assert!(SessionEntry::from_line(" {\"session_id\":\"a\",\"timestamp\":\"1\"} ").is_some());
    assert!(all_sessions(None).is_empty());
}

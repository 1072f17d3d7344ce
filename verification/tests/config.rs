use puzzle::config::{
    backup_name, backups_to_remove, can_trust, config_text, ensure_trust, has_trust, lock_path,
    read_config, ConfigEdit, ConfigError, FileText, Todo, Went, CONFIG_MODE, KEPT_BACKUPS,
};
use puzzle::json::Json;
use puzzle::paths::join_path;

/// A directory that is held in memory: the names of its files with their texts, and the names of
/// its directories.
struct Disk {
    files: Vec<(String, String, u32)>,
    dirs: Vec<String>,
    millis: u128,
    writes: usize,
}

const CONFIG: &str = ".agent.json";

impl Disk {
    fn new() -> Disk {
        Disk { files: Vec::new(), dirs: Vec::new(), millis: 2000, writes: 0 }
    }

    fn read(&self, name: &str) -> Option<String> {
        self.files.iter().find(|f| f.0 == name).map(|f| f.1.clone())
    }

    fn mode(&self, name: &str) -> Option<u32> {
        self.files.iter().find(|f| f.0 == name).map(|f| f.2)
    }

    fn write(&mut self, name: &str, text: &str, mode: u32) {
        self.files.retain(|f| f.0 != name);
        self.files.push((name.to_string(), text.to_string(), mode));
    }

    fn has_dir(&self, name: &str) -> bool {
        self.dirs.iter().any(|d| d == name)
    }

    fn backups(&self) -> Vec<String> {
        self.files.iter().map(|f| f.0.clone()).filter(
            |name| name.starts_with(".agent.json.backup."),
        ).collect()
    }

    fn perform(&mut self, todo: Todo, change: fn(&mut Json) -> bool) -> Result<Went, Result<(), ConfigError>> {
        match todo {
            Todo::Lock => {
                if self.has_dir(&lock_path(CONFIG)) {
                    Ok(Went::Locked)
                } else {
                    self.dirs.push(lock_path(CONFIG));
                    Ok(Went::Well)
                }
            }
            Todo::Read => Ok(Went::File(if self.has_dir(CONFIG) {
                FileText::Failed("is a directory".to_string())
            } else {
                match self.read(CONFIG) {
                    Some(text) => FileText::Text(text),
                    None => FileText::Missing,
                }
            })),
            Todo::Change(config) => {
                let mut config = config;
                let write = change(&mut config);
                Ok(Went::Changed { config, write })
            }
            Todo::BackUp => {
                if let Some(text) = self.read(CONFIG) {
                    let name = backup_name(CONFIG, self.millis);
                    self.write(&name, &text, 0o644);
                    let names: Vec<String> = self.files.iter().map(|f| f.0.clone()).collect();
                    for gone in backups_to_remove(&names, CONFIG) {
                        self.files.retain(|f| f.0 != gone);
                    }
                }
                Ok(Went::Well)
            }
            Todo::Write(text) => {
                self.writes += 1;
                self.write(CONFIG, &text, CONFIG_MODE);
                Ok(Went::Well)
            }
            Todo::Unlock => {
                self.dirs.retain(|d| d != &lock_path(CONFIG));
                Ok(Went::Well)
            }
            Todo::Finish(outcome) => Err(outcome),
        }
    }

    fn modify_config(&mut self, change: fn(&mut Json) -> bool) -> Result<(), ConfigError> {
        let (mut edit, mut todo) = ConfigEdit::begin();
        loop {
            match self.perform(todo, change) {
                Ok(went) => todo = edit.next(went),
                Err(outcome) => return outcome,
            }
        }
    }
}

fn trust_pane(config: &mut Json) -> bool {
    ensure_trust(config, "/Users/alan/pane")
}

fn parse(text: &str) -> Json {
    Json::parse(text).unwrap()
}

fn trusted(config: &Json, directory: &str) -> Option<bool> {
    config.get("projects")?.get(directory)?.get("hasTrustDialogAccepted")?.as_bool()
}

fn tools(config: &Json, directory: &str) -> usize {
    config.get("projects").unwrap().get(directory).unwrap().array_at("allowedTools").unwrap().len()
}

#[test]
fn ensure_trust_on_empty_config() {
    let mut config = Json::object();
    let modified = ensure_trust(&mut config, "/Users/alan/pane");

    assert!(modified);
    let accepted = config
        .get("projects")
        .unwrap()
        .get("/Users/alan/pane")
        .unwrap()
        .get("hasTrustDialogAccepted")
        .unwrap()
        .as_bool()
        .unwrap();
    assert!(accepted);
}

#[test]
fn ensure_trust_returns_false_when_already_set() {
    let mut config = parse(
        r#"{
                "projects": {
                    "/Users/alan/pane": {
                        "hasTrustDialogAccepted": true
                    }
                }
            }"#,
    );

    let modified = ensure_trust(&mut config, "/Users/alan/pane");
    assert!(!modified);
}

#[test]
fn has_trust_checks_correctly() {
    let config = parse(
        r#"{
                "projects": {
                    "/Users/alan/pane": {
                        "hasTrustDialogAccepted": true
                    },
                    "/Users/alan/code": {
                        "hasTrustDialogAccepted": false
                    }
                }
            }"#,
    );

    assert!(has_trust(&config, "/Users/alan/pane"));
    assert!(!has_trust(&config, "/Users/alan/code"));
    assert!(!has_trust(&config, "/Users/alan/other"));
}

#[test]
fn ensure_trust_preserves_existing_projects() {
    let mut config = parse(
        r#"{
                "numStartups": 42,
                "projects": {
                    "/Users/alan/code": {
                        "hasTrustDialogAccepted": true,
                        "allowedTools": ["Bash"]
                    }
                }
            }"#,
    );

    ensure_trust(&mut config, "/Users/alan/pane");

    assert_eq!(trusted(&config, "/Users/alan/code"), Some(true));
    assert!(tools(&config, "/Users/alan/code") == 1);
    assert_eq!(trusted(&config, "/Users/alan/pane"), Some(true));
    assert_eq!(config.i64_at("numStartups"), Some(42));
}

#[test]
fn ensure_trust_preserves_existing_project_fields() {
    let mut config = parse(
        r#"{
                "projects": {
                    "/Users/alan/pane": {
                        "allowedTools": ["Bash", "Read"],
                        "mcpServers": {},
                        "hasTrustDialogAccepted": false
                    }
                }
            }"#,
    );

    ensure_trust(&mut config, "/Users/alan/pane");

    assert_eq!(trusted(&config, "/Users/alan/pane"), Some(true));
    assert_eq!(tools(&config, "/Users/alan/pane"), 2);
}

#[test]
fn modify_config_creates_file_from_nothing() {
    let mut disk = Disk::new();

    disk.modify_config(trust_pane).unwrap();

    let parsed = parse(&disk.read(CONFIG).unwrap());
    assert_eq!(trusted(&parsed, "/Users/alan/pane"), Some(true));
    assert_eq!(disk.mode(CONFIG), Some(0o600));
}

#[test]
fn modify_config_preserves_existing_content() {
    let mut disk = Disk::new();
    disk.write(CONFIG, r#"{"numStartups": 812, "verbose": true, "projects": {}}"#, 0o600);

    disk.modify_config(trust_pane).unwrap();

    let parsed = parse(&disk.read(CONFIG).unwrap());
    assert_eq!(parsed.i64_at("numStartups"), Some(812));
    assert_eq!(parsed.get("verbose").unwrap().as_bool(), Some(true));
    assert_eq!(trusted(&parsed, "/Users/alan/pane"), Some(true));
}

#[test]
fn modify_config_creates_backup() {
    let mut disk = Disk::new();
    disk.write(CONFIG, r#"{"original": true}"#, 0o600);

    disk.modify_config(trust_pane).unwrap();

    let backups = disk.backups();
    assert_eq!(backups.len(), 1);
    let backup = parse(&disk.read(&backups[0]).unwrap());
    assert_eq!(backup.get("original").unwrap().as_bool(), Some(true));
}

#[test]
fn modify_config_prunes_old_backups() {
    let mut disk = Disk::new();
    for i in 0..6 {
        disk.write(&format!(".agent.json.backup.{}", 1000 + i), "{}", 0o644);
    }
    disk.write(CONFIG, r#"{"round": 7}"#, 0o600);

    disk.modify_config(trust_pane).unwrap();

    let backups = disk.backups();
    assert_eq!(backups.len(), 5);
    assert_eq!(backups.len(), KEPT_BACKUPS);
    assert!(backups.contains(&".agent.json.backup.2000".to_string()));
    assert!(!backups.contains(&".agent.json.backup.1000".to_string()));
    assert!(!backups.contains(&".agent.json.backup.1001".to_string()));
}

#[test]
fn lock_contention_returns_error() {
    let mut disk = Disk::new();
    disk.write(CONFIG, "{}", 0o600);
    disk.dirs.push(".agent.json.lock".to_string());

    let result = disk.modify_config(|_| false);
    assert!(matches!(result, Err(ConfigError::LockContention)));

    assert!(disk.has_dir(".agent.json.lock"));
}

#[test]
fn lock_released_after_success() {
    let mut disk = Disk::new();

    disk.modify_config(trust_pane).unwrap();

    assert!(!disk.has_dir(".agent.json.lock"));
}

#[test]
fn lock_released_after_write_error() {
    let mut disk = Disk::new();
    disk.dirs.push(CONFIG.to_string());

    let result = disk.modify_config(trust_pane);

    assert!(result.is_err());
    assert!(!disk.has_dir(".agent.json.lock"));
}

#[test]
fn skips_write_when_already_trusted() {
    let mut disk = Disk::new();
    let initial = r#"{"projects": {"/Users/alan/pane": {"hasTrustDialogAccepted": true}}}"#;
    disk.write(CONFIG, initial, 0o600);

    disk.modify_config(trust_pane).unwrap();

    assert_eq!(disk.writes, 0);
    assert_eq!(disk.read(CONFIG).unwrap(), initial);
    assert_eq!(disk.backups().len(), 0);
}

#[test]
fn full_round_trip_with_realistic_config() {
    let mut disk = Disk::new();
    let initial = r#"{
  "numStartups": 812,
  "installMethod": "native",
  "autoUpdates": false,
  "verbose": true,
  "editorMode": "vim",
  "autoCompactEnabled": false,
  "projects": {
    "/Users/alan": {
      "hasTrustDialogAccepted": true,
      "allowedTools": ["Bash", "Read", "Write", "Edit"]
    },
    "/Users/alan/code": {
      "hasTrustDialogAccepted": true
    }
  }
}"#;
    disk.write(CONFIG, initial, 0o600);

    disk.modify_config(trust_pane).unwrap();

    let parsed = parse(&disk.read(CONFIG).unwrap());
    assert_eq!(trusted(&parsed, "/Users/alan/pane"), Some(true));
    assert_eq!(trusted(&parsed, "/Users/alan"), Some(true));
    assert_eq!(tools(&parsed, "/Users/alan"), 4);
    assert_eq!(trusted(&parsed, "/Users/alan/code"), Some(true));
    assert_eq!(parsed.i64_at("numStartups"), Some(812));
    assert_eq!(parsed.str_at("editorMode"), Some("vim"));
    assert_eq!(parsed.get("autoCompactEnabled").unwrap().as_bool(), Some(false));
}

#[test]
fn trust_cannot_be_set_where_something_else_stands() {
    assert!(can_trust(&parse("{}"), "/a"));
    assert!(can_trust(&parse(r#"{"projects":{"/a":{}}}"#), "/a"));
    assert!(!can_trust(&parse("[]"), "/a"));
    assert!(!can_trust(&parse(r#"{"projects":[]}"#), "/a"));
    assert!(!can_trust(&parse(r#"{"projects":{"/a":1}}"#), "/a"));
}

#[test]
fn a_second_trust_changes_nothing() {
    let mut config = parse(r#"{"b":1,"projects":{"/x":{"c":2}}}"#);
    assert!(ensure_trust(&mut config, "/a"));
    let after = config.text();
    assert!(!ensure_trust(&mut config, "/a"));
    assert_eq!(config.text(), after);
    assert_eq!(config.get("projects").unwrap().get("/x").unwrap().i64_at("c"), Some(2));
}

#[test]
fn broken_files_are_reported() {
    match read_config(FileText::Text("{".to_string())) {
        Err(ConfigError::Json(e)) => {
            assert_eq!(
                ConfigError::Json(e).message(),
                "json error: EOF while parsing an object at line 1 column 1"
            );
        }
        other => panic!("{:?}", other),
    }
    match read_config(FileText::Failed("denied".to_string())) {
        Err(e) => assert_eq!(e.message(), "io error: denied"),
        other => panic!("{:?}", other),
    }
    match read_config(FileText::Missing) {
        Ok(config) => assert_eq!(config.text(), "{}"),
        other => panic!("{:?}", other),
    }
    assert_eq!(
        ConfigError::LockContention.message(),
        "lock contention: lock directory already exists"
    );
}

#[test]
fn broken_file_stays_and_its_lock_goes() {
    let mut disk = Disk::new();
    disk.write(CONFIG, "not json", 0o600);
    assert!(matches!(disk.modify_config(trust_pane), Err(ConfigError::Json(_))));
    assert_eq!(disk.read(CONFIG).unwrap(), "not json");
    assert!(!disk.has_dir(".agent.json.lock"));
}

#[test]
fn failures_on_the_way_release_the_lock() {
    let (mut edit, first) = ConfigEdit::begin();
    assert!(matches!(first, Todo::Lock));
    assert!(edit.can_take(&Went::Well));
    assert!(!edit.can_take(&Went::File(FileText::Missing)));
    assert!(matches!(edit.next(Went::Well), Todo::Read));
    assert!(matches!(edit.next(Went::File(FileText::Missing)), Todo::Change(_)));
    let config = parse(r#"{"a":1}"#);
    assert!(matches!(edit.next(Went::Changed { config, write: true }), Todo::BackUp));
    assert!(matches!(edit.next(Went::Wrong("full".to_string())), Todo::Unlock));
    match edit.next(Went::Well) {
        Todo::Finish(Err(ConfigError::Io(reason))) => assert_eq!(reason, "full"),
        other => panic!("{:?}", other),
    }
    let (mut edit, _) = ConfigEdit::begin();
    match edit.next(Went::Wrong("no room".to_string())) {
        Todo::Finish(Err(ConfigError::Io(reason))) => assert_eq!(reason, "no room"),
        other => panic!("{:?}", other),
    }
}

#[test]
fn texts_and_names_around_the_file() {
    assert_eq!(config_text(&parse(r#"{"b":[1],"a":"x"}"#)), "{\n  \"a\": \"x\",\n  \"b\": [\n    1\n  ]\n}");
    assert_eq!(backup_name(".agent.json", 1700000000123), ".agent.json.backup.1700000000123");
    assert_eq!(lock_path("/home/alan/.agent.json"), "/home/alan/.agent.json.lock");
    assert_eq!(join_path("/home/alan", ".agent.json"), "/home/alan/.agent.json");
}

/// The backups that go, by what stands behind the prefix.
fn gone(times: &[&str]) -> Vec<String> {
    let names = times.iter().map(|time| format!("c.json.backup.{time}")).collect();
    let mut gone: Vec<String> = backups_to_remove(&names, "c.json")
        .iter()
        .map(|name| name["c.json.backup.".len()..].to_string())
        .collect();
    gone.sort();
    gone
}

#[test]
fn the_latest_backups_stay_whatever_their_times_are() {
    assert_eq!(gone(&["2", "3", "4", "5", "6", "1700000000000"]), vec!["2"]);
    assert_eq!(gone(&["10", "9", "8", "7", "6", "100"]), vec!["6"]);
    assert_eq!(gone(&["0010", "9", "8", "7", "6", "5"]), vec!["5"]);
    let long = "9".repeat(60);
    assert_eq!(gone(&[&long, "1", "2", "3", "4", "5"]), vec!["1"]);
    assert!(gone(&["1", "2", "3", "4", "5"]).is_empty());
}

#[test]
fn backups_without_a_time_go_first() {
    assert_eq!(gone(&["old", "1", "2", "3", "4", "5"]), vec!["old"]);
    assert_eq!(gone(&["", "1x", "1", "2", "3", "4", "5"]), vec!["", "1x"]);
    assert_eq!(gone(&["a", "b", "c", "d", "e", "f"]), vec!["a"]);
}

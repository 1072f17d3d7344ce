use puzzle::claude::{SpawnTarget, WicketConnection};
use puzzle::claude::WicketEvent as ReaderEvent;
use puzzle::easement::{Body, EasementClient, EasementEvent, Inbound, Outbound};
use puzzle::exchange::ExchangeLog;
use puzzle::json::Json;
use puzzle::model::{ContentBlock, ConversationEntry, EntryKind, WireBlock, WireEntry};
use puzzle::outbox::{ChannelClosed, Outbox};
use puzzle::tailer::Tailer;
use puzzle::transcript::{transcript_line, Transcript};
use puzzle::wicket::{lifecycle_name, WicketClient, WicketEvent};

fn json(text: &str) -> Json {
    Json::parse(text).unwrap()
}

#[test]
fn a_closed_outbox_takes_nothing() {
    let mut outbox: Outbox<u8> = Outbox::new();
    assert!(outbox.send(1).is_ok());
    assert_eq!(outbox.drain(), vec![1]);
    assert!(outbox.drain().is_empty());
    outbox.close();
    assert!(outbox.send(2).is_err());
    assert!(outbox.drain().is_empty());
    assert_eq!(ChannelClosed.message(), "channel closed");
}

#[test]
fn envelopes_become_events() {
    let event = WicketEvent::decode(r#"{"stream":"entry","data":{"a":1},"replay_id":"r"}"#);
    match event {
        Some(WicketEvent::Entry { data, replay_id }) => {
            assert_eq!(data.text(), r#"{"a":1}"#);
            assert_eq!(replay_id.as_deref(), Some("r"));
        }
        other => panic!("{:?}", other),
    }
    match WicketEvent::decode(r#"{"stream":"user_message","data":{"text":"hi","notification":true}}"#) {
        Some(WicketEvent::UserMessage { text, notification }) => {
            assert_eq!(text, "hi");
            assert!(notification);
        }
        other => panic!("{:?}", other),
    }
    match WicketEvent::decode(r#"{"stream":"error","data":{}}"#) {
        Some(WicketEvent::Error(message)) => assert_eq!(message, "unknown error"),
        other => panic!("{:?}", other),
    }
    match WicketEvent::from_envelope(&json(r#"{"stream":"history_terminate","replay_id":"r"}"#)) {
        Some(WicketEvent::HistoryTerminate { replay_id }) => assert_eq!(replay_id, "r"),
        other => panic!("{:?}", other),
    }
    assert!(WicketEvent::decode(r#"{"stream":"history_terminate"}"#).is_none());
    assert!(WicketEvent::decode(r#"{"stream":"other"}"#).is_none());
    assert!(WicketEvent::decode("no json").is_none());
}

#[test]
fn lifecycles_have_names() {
    assert_eq!(lifecycle_name(&json("\"started\"")), "started");
    assert_eq!(lifecycle_name(&json(r#"{"failed":{"message":"x"}}"#)), "failed");
    assert_eq!(lifecycle_name(&json("{}")), "{}");
    assert_eq!(lifecycle_name(&json("[1]")), "[1]");
}

#[test]
fn what_the_client_sends_to_the_wicket() {
    let mut client = WicketClient::new();
    client.associate_slug("solver", "puzzle").unwrap();
    client.request_history("solver", "view", "r1").unwrap();
    client.send_approval(true, Some("ignored")).unwrap();
    client.send_approval(false, None).unwrap();
    client.send_raw("raw").unwrap();
    assert_eq!(
        client.outbound.drain(),
        vec![
            r#"{"protocol":"puzzle","slug":"solver"}"#.to_string(),
            r#"{"data":{"intent":"view","replay_id":"r1","slug":"solver"},"stream":"history_request"}"#
                .to_string(),
            r#"{"data":{"behavior":"allow"},"stream":"approval"}"#.to_string(),
            r#"{"data":{"behavior":"deny","message":"denied"},"stream":"approval"}"#.to_string(),
            "raw".to_string(),
        ]
    );
    client.outbound.close();
    assert!(client.send_envelope("turn", json("{}")).is_err());
}

#[test]
fn what_a_window_sends_to_the_wicket() {
    let mut window = WicketConnection::connect("solver", "agent");
    window.send("hi", &SpawnTarget::Local).unwrap();
    let remote = SpawnTarget::Remote { host: "far".to_string(), yolo: true };
    window.send("there", &remote).unwrap();
    window.approve(false, None).unwrap();
    window.log("info", "m", json(r#"{"a":1}"#));
    window.shutdown();
    assert!(window.send("late", &SpawnTarget::Local).is_err());
    assert_eq!(
        window.outbound.drain(),
        vec![
            r#"{"slug":"solver"}"#.to_string(),
            r#"{"data":{"message":"hi","remote":null,"yolo":false},"stream":"agent"}"#.to_string(),
            r#"{"data":{"message":"there","remote":"far","yolo":true},"stream":"agent"}"#
                .to_string(),
            r#"{"data":{"behavior":"deny","message":"User denied permission"},"stream":"approval"}"#
                .to_string(),
            r#"{"data":{"fields":{"a":1},"level":"info","message":"m"},"stream":"log"}"#.to_string(),
            r#"{"data":{},"stream":"exit"}"#.to_string(),
        ]
    );
}

fn wire_entry(kind: &str, blocks: Vec<WireBlock>) -> WireEntry {
    WireEntry {
        kind: kind.to_string(),
        blocks,
        uuid: Some("u".to_string()),
        seq: Some(3),
        timestamp: None,
        input_tokens: Some(5),
        output_tokens: None,
    }
}

fn sample_blocks() -> Vec<WireBlock> {
    vec![
        WireBlock::Text { text: "hi".to_string() },
        WireBlock::ToolResult { content: "out".to_string(), is_error: false },
    ]
}

#[test]
fn entries_are_made_for_the_screen() {
    let entry = ConversationEntry::from_value(wire_entry("assistant", sample_blocks())).unwrap();
    assert_eq!(entry.kind, EntryKind::Assistant);
    assert_eq!(entry.blocks.len(), 2);
    assert!(matches!(&entry.blocks[1], ContentBlock::ToolResult { collapsed: true, .. }));
    assert_eq!(entry.seq, Some(3));
    assert!(ConversationEntry::from_value(wire_entry("system", sample_blocks())).is_none());
    assert!(ConversationEntry::from_value(wire_entry("user", Vec::new())).is_none());
}

#[test]
fn a_window_gets_events() {
    let made = ReaderEvent::from_envelope("entry", json("{}"), Some(wire_entry("user", sample_blocks())));
    assert!(matches!(made, Some(ReaderEvent::Entry(_))));
    assert!(ReaderEvent::from_envelope("entry", json("{}"), None).is_none());
    match ReaderEvent::from_envelope("error", json(r#"{"message":"bad"}"#), None) {
        Some(ReaderEvent::Error(message)) => assert_eq!(message, "bad"),
        _ => panic!("no error"),
    }
    match ReaderEvent::from_envelope("lifecycle", json("\"idle\""), None) {
        Some(ReaderEvent::Lifecycle(name)) => assert_eq!(name, "idle"),
        _ => panic!("no lifecycle"),
    }
    assert!(ReaderEvent::from_envelope("usage", json("{}"), None).is_none());
}

fn inbound(slug: &str, transcript: &str, body: Body) -> Inbound {
    Inbound { slug: slug.to_string(), transcript: transcript.to_string(), body }
}

#[test]
fn only_what_is_meant_for_a_client_arrives() {
    let mut client = EasementClient::connect("solver");
    assert!(client.receive(inbound("other", "t1", Body::RoundStarted)).is_none());
    match client.receive(inbound("solver", "t1", Body::RoundFailed { message: "m".to_string() })) {
        Some(EasementEvent::Lifecycle(name)) => assert_eq!(name, "round_failed"),
        other => panic!("{:?}", other),
    }
    client.pin("t2");
    assert!(client.receive(inbound("solver", "t1", Body::RoundStarted)).is_none());
    let begin = Body::HistoryBegin { replay_id: "r".to_string(), last_uuid: None };
    match client.receive(inbound("solver", "t2", begin)) {
        Some(EasementEvent::HistoryBegin { replay_id, last_uuid, transcript }) => {
            assert_eq!(replay_id, "r");
            assert_eq!(last_uuid, None);
            assert_eq!(transcript, "t2");
        }
        other => panic!("{:?}", other),
    }
}

#[test]
fn what_a_client_sends_to_easement() {
    let mut client = EasementClient::connect("solver");
    client.request_history("solver", "t", "r").unwrap();
    client.send_turn("solver", "t", "go").unwrap();
    client.send_steer("solver", "t", "left", "turn-1").unwrap();
    client.send_shell("solver", "t", "ls").unwrap();
    client.send_raw("raw").unwrap();
    assert_eq!(
        client.outbound.drain(),
        vec![
            r#"{"what":"socket","why":"connect","who":"puzzle","where":"localhost","tools":[]}"#
                .to_string(),
            r#"{"what":"history","why":"replay","slug":"solver","transcript":"t","replay_id":"r"}"#
                .to_string(),
            r#"{"what":"turn","why":"start","slug":"solver","transcript":"t","message":"go"}"#
                .to_string(),
            r#"{"what":"turn","why":"steer","slug":"solver","transcript":"t","message":"left","expected_turn_id":"turn-1"}"#
                .to_string(),
            r#"{"what":"shell","why":"run","slug":"solver","transcript":"t","command":"ls"}"#
                .to_string(),
            "raw".to_string(),
        ]
    );
    let run = Outbound::Run {
        slug: "a\"b".to_string(),
        transcript: "t".to_string(),
        command: "\n".to_string(),
    };
    assert_eq!(
        run.text(),
        r#"{"what":"shell","why":"run","slug":"a\"b","transcript":"t","command":"\n"}"#
    );
}

#[test]
fn exchanges_are_logged_in_lines() {
    assert_eq!(
        ExchangeLog::line_at("2024-01-01T00:00:00.000Z", "tui>puzzle", &json(r#"{"a":1}"#)),
        "{\"data\":{\"a\":1},\"dir\":\"tui>puzzle\",\"ts\":\"2024-01-01T00:00:00.000Z\"}\n"
    );
    let log = ExchangeLog::new("/home/alan", "solver");
    assert_eq!(log.path, "/home/alan/.local/state/puzzle/solver/puzzle-exchange.jsonl");
    let line = log.log("tui>puzzle", &json("{}"));
    let ts = json(line.trim_end()).str_at("ts").unwrap().to_string();
    assert_eq!(ts.len(), "2024-01-01T00:00:00.000Z".len());
    assert!(ts.ends_with('Z'));
}

#[test]
fn a_tail_is_read_in_lines() {
    let mut tailer = Tailer::new();
    assert!(tailer.feed("{\"a\":").is_empty());
    let read = tailer.feed("1}\n\n  \nbroken\n{\"b\":2}\n[");
    assert_eq!(read.len(), 2);
    assert_eq!(read[0].text(), r#"{"a":1}"#);
    assert_eq!(read[1].text(), r#"{"b":2}"#);
    assert_eq!(tailer.feed("]\n")[0].text(), "[]");
    assert!(Tailer::has_more(5, 4));
    assert!(!Tailer::has_more(4, 4));
}

fn entry(kind: &str, uuid: &str) -> Json {
    Json::object().with("type", Json::string(kind)).with("uuid", Json::string(uuid))
}

fn uuids(entries: &Vec<Json>) -> Vec<String> {
    entries.iter().map(|e| e.str_at("uuid").unwrap().to_string()).collect()
}

#[test]
fn replayed_entries_are_not_taken_twice() {
    let mut transcript = Transcript::new("/w/transcript.jsonl");
    transcript.begin_spurt();
    assert_eq!(transcript.handle_envelope(entry("user", "1")).len(), 1);
    assert_eq!(transcript.handle_envelope(entry("assistant", "2")).len(), 1);
    transcript.begin_spurt();
    for (kind, uuid) in [("user", "1"), ("assistant", "2"), ("user", "3"), ("system", "4")] {
        assert!(transcript.handle_envelope(entry(kind, uuid)).is_empty());
    }
    assert!(transcript.set_boundary("5").is_empty());
    let added = transcript.handle_envelope(entry("assistant", "5"));
    assert_eq!(uuids(&added), vec!["3", "4", "5"]);
    assert_eq!(uuids(transcript.entries()), vec!["1", "2", "3", "4", "5"]);
    assert_eq!(transcript.handle_envelope(entry("user", "6")).len(), 1);
    assert_eq!(transcript.len(), 6);
}

#[test]
fn the_boundary_may_be_known_late() {
    let mut transcript = Transcript::new("/w/transcript.jsonl");
    transcript.load("{\"type\":\"user\",\"uuid\":\"1\"}\n");
    transcript.begin_spurt();
    for (kind, uuid) in [("user", "1"), ("user", "2"), ("assistant", "3"), ("user", "4")] {
        transcript.handle_envelope(entry(kind, uuid));
    }
    assert_eq!(uuids(&transcript.set_boundary("3")), vec!["2", "3", "4"]);
}

#[test]
fn a_saved_transcript_is_loaded_again() {
    let mut first = Transcript::new("/a/transcript.jsonl");
    first.begin_spurt();
    let mut file = String::new();
    for data in [entry("user", "1"), entry("assistant", "2\n")] {
        for added in first.handle_envelope(data) {
            file.push_str(&transcript_line(&added));
        }
    }
    let mut second = Transcript::new("/b/transcript.jsonl");
    let loaded = second.load(&format!("\nbroken\n  {file}"));
    assert_eq!(uuids(&loaded), vec!["1", "2\n"]);
    assert_eq!(uuids(second.entries()), uuids(first.entries()));
    assert_eq!(transcript_line(&entry("user", "1")), "{\"type\":\"user\",\"uuid\":\"1\"}\n");
}

#[test]
fn a_replay_is_taken_from_what_the_user_said() {
    let replay = [
        r#"{"type":"user","uuid":"1"}"#,
        r#"{"type":"assistant","uuid":"2"}"#,
        r#"{"type":"user","uuid":"3"}"#,
        r#"{"type":"assistant","uuid":"4"}"#,
        r#"{"type":"assistant","uuid":"5"}"#,
    ];
    for known in 0..=replay.len() {
        let mut transcript = Transcript::new("/w/transcript.jsonl");
        transcript.load("{}\n");
        transcript.begin_spurt();
        for (i, text) in replay.iter().enumerate() {
            if i == known {
                transcript.set_boundary("4");
            }
            transcript.handle_envelope(Json::parse(text).unwrap());
        }
        if known == replay.len() {
            transcript.set_boundary("4");
        }
        let uuids: Vec<_> = transcript.entries().iter().skip(1).map(|e| e.str_at("uuid")).collect();
        assert_eq!(uuids, vec![Some("3"), Some("4"), Some("5")]);
        assert!(transcript.buffer.is_empty());
    }
}

#[test]
fn the_log_says_when_in_utc() {
    let line = ExchangeLog::new("/home/alan", "solver").log("tui>puzzle", &json("1"));
    let entry = json(line.trim_end());
    let ts = entry.str_at("ts").unwrap();
    assert_eq!(ts.len(), 24);
    assert!(ts.ends_with('Z'));
    assert_eq!((&ts[4..5], &ts[10..11], &ts[19..20]), ("-", "T", "."));
}

use puzzle::bridge::{Bridge, Fresh, Model, RpcMessage};
use puzzle::frame::{can_total, Frame, Out};
use puzzle::history::{
    build_turns_from_entries, flush_turn, is_interrupt_marker, is_user_text_entry, turns_with_ids,
};
use puzzle::json::Json;
use puzzle::patch::parse_patch_to_changes;
use puzzle::wicket::WicketEvent;

fn json(text: &str) -> Json {
    Json::parse(text).unwrap()
}

fn fresh() -> Fresh {
    Fresh {
        first: "id-1".to_string(),
        second: "id-2".to_string(),
        ids: (0..20).map(|i| format!("past-{i}")).collect(),
        seconds: 1700000000,
        millis: 1700000000123,
    }
}

fn bridge_with(history: Vec<Json>, usage: Option<Json>) -> Bridge {
    let model = Model {
        id: "m-1".to_string(),
        display_name: "Model 1".to_string(),
        description: "The first model".to_string(),
    };
    Bridge::new("thread-1", "/home/alan", "solver", model, history, usage)
}

fn bridge() -> Bridge {
    bridge_with(Vec::new(), None)
}

/// What a client sends, read as a message.
fn ask(bridge: &mut Bridge, text: &str) -> Vec<Out> {
    let value = json(text);
    let rpc = RpcMessage {
        id: value.get("id").map(|v| v.copy()),
        method: value.str_at("method").map(|s| s.to_string()),
        params: value.get("params").map(|v| v.copy()),
        result: value.get("result").map(|v| v.copy()),
    };
    bridge.on_text_with(text, Some(rpc), &fresh())
}

fn tell(bridge: &mut Bridge, event: WicketEvent) -> Vec<Out> {
    assert!(bridge.can_take(&event));
    bridge.on_event_with(&event, &fresh())
}

/// The texts that go to the client.
fn frames(outs: &Vec<Out>) -> Vec<String> {
    let mut texts = Vec::new();
    for out in outs {
        if let Out::Frame { frame, .. } = out {
            texts.push(frame.text());
        }
    }
    texts
}

/// What goes to the wicket.
fn envelopes(outs: &Vec<Out>) -> Vec<(String, String)> {
    let mut all = Vec::new();
    for out in outs {
        if let Out::Envelope { stream, data } = out {
            all.push((stream.clone(), data.text()));
        }
    }
    all
}

fn start_turn(bridge: &mut Bridge) {
    tell(bridge, WicketEvent::Turn(json(r#"{"event":"started","turn_id":"turn-1"}"#)));
    assert_eq!(bridge.active_turn_id.as_deref(), Some("turn-1"));
}

#[test]
fn frames_are_written_in_order() {
    let response = Frame::Response { id: json("7"), result: json(r#"{"b":1,"a":2}"#) };
    assert_eq!(response.text(), r#"{"jsonrpc":"2.0","id":7,"result":{"a":2,"b":1}}"#);
    let failure = Frame::Failure { id: json("\"x\""), code: -32601, message: "no".to_string() };
    assert_eq!(
        failure.text(),
        r#"{"jsonrpc":"2.0","id":"x","error":{"code":-32601,"message":"no"}}"#
    );
    let notice = Frame::Notice { method: "turn/started".to_string(), params: json("{}") };
    assert_eq!(notice.text(), r#"{"jsonrpc":"2.0","method":"turn/started","params":{}}"#);
}

#[test]
fn initialize_is_answered() {
    let mut b = bridge();
    let outs = ask(&mut b, r#"{"jsonrpc":"2.0","id":1,"method":"initialize","params":{}}"#);
    assert_eq!(
        frames(&outs),
        vec![
            r#"{"jsonrpc":"2.0","id":1,"result":{"capabilities":{},"protocolVersion":"2.0","serverInfo":{"name":"puzzle","version":"0.1.0"}}}"#
                .to_string()
        ]
    );
    assert!(matches!(&outs[0], Out::Log { dir, .. } if dir == "tui>puzzle"));
}

#[test]
fn the_account_and_the_models_are_told() {
    let mut b = bridge();
    assert_eq!(
        frames(&ask(&mut b, r#"{"id":"a","method":"account/read"}"#)),
        vec![
            r#"{"jsonrpc":"2.0","id":"a","result":{"account":{"type":"apiKey"},"requiresOpenaiAuth":false}}"#
                .to_string()
        ]
    );
    let texts = frames(&ask(&mut b, r#"{"id":2,"method":"model/list"}"#));
    let model = json(&texts[0]);
    let data = model.get("result").unwrap().array_at("data").unwrap();
    assert_eq!(data.len(), 1);
    assert_eq!(data[0].str_at("id"), Some("m-1"));
    assert_eq!(data[0].str_at("displayName"), Some("Model 1"));
    assert_eq!(data[0].str_at("description"), Some("The first model"));
    assert_eq!(
        data[0].get("supportedReasoningEfforts").unwrap().text(),
        r#"[{"description":"High","reasoningEffort":"high"}]"#
    );
}

#[test]
fn lists_are_empty() {
    let mut b = bridge();
    for method in ["skills/list", "hooks/list", "plugin/list"] {
        let text = format!(r#"{{"id":3,"method":"{method}"}}"#);
        assert_eq!(
            frames(&ask(&mut b, &text)),
            vec![r#"{"jsonrpc":"2.0","id":3,"result":{"data":[]}}"#.to_string()]
        );
    }
    assert_eq!(
        frames(&ask(&mut b, r#"{"id":4,"method":"thread/unsubscribe"}"#)),
        vec![r#"{"jsonrpc":"2.0","id":4,"result":{}}"#.to_string()]
    );
}

#[test]
fn unknown_methods_are_refused() {
    let mut b = bridge();
    assert_eq!(
        frames(&ask(&mut b, r#"{"id":5,"method":"thread/fly"}"#)),
        vec![
            r#"{"jsonrpc":"2.0","id":5,"error":{"code":-32601,"message":"not implemented: thread/fly"}}"#
                .to_string()
        ]
    );
}

#[test]
fn notifications_and_noise_are_not_answered() {
    let mut b = bridge();
    assert!(frames(&ask(&mut b, r#"{"method":"initialized"}"#)).is_empty());
    let outs = b.on_text_with("no json", None, &fresh());
    assert!(outs.is_empty());
    let outs = b.on_text_with("[1]", None, &fresh());
    assert_eq!(outs.len(), 1);
    assert!(matches!(&outs[0], Out::Log { .. }));
}

#[test]
fn a_thread_holds_its_past() {
    let history = vec![
        json(r#"{"kind":"user","uuid":"u1","blocks":[{"type":"text","text":"hi"}]}"#),
        json(r#"{"kind":"assistant","uuid":"u2","blocks":[{"type":"text","text":"hello"}]}"#),
    ];
    let usage = json(r#"{"input_tokens":10,"cache_read_input_tokens":5,"output_tokens":2}"#);
    assert!(can_total(&usage));
    let mut b = bridge_with(history, Some(usage));
    let texts = frames(&ask(&mut b, r#"{"id":6,"method":"thread/start"}"#));
    assert_eq!(texts.len(), 2);
    let result = json(&texts[0]);
    let result = result.get("result").unwrap();
    let thread = result.get("thread").unwrap();
    assert_eq!(thread.str_at("id"), Some("thread-1"));
    assert_eq!(thread.str_at("sessionId"), Some("id-1"));
    assert_eq!(thread.str_at("cwd"), Some("/home/alan/pane/solver"));
    assert_eq!(result.str_at("model"), Some("m-1"));
    let turns = thread.array_at("turns").unwrap();
    assert_eq!(turns.len(), 1);
    assert_eq!(turns[0].array_at("items").unwrap().len(), 2);
    let used = json(&texts[1]);
    assert_eq!(used.str_at("method"), Some("thread/tokenUsage/updated"));
    let total = used.get("params").unwrap().get("tokenUsage").unwrap().get("total").unwrap();
    assert_eq!(total.i64_at("totalTokens"), Some(17));
    assert_eq!(total.i64_at("inputTokens"), Some(15));
}

#[test]
fn totals_that_do_not_fit_are_refused() {
    let usage = json(r#"{"input_tokens":9223372036854775807,"output_tokens":1}"#);
    assert!(!can_total(&usage));
    let b = bridge();
    assert!(!b.can_take(&WicketEvent::Usage(usage)) || b.active_turn_id.is_none());
}

#[test]
fn a_turn_is_answered_when_it_starts() {
    let mut b = bridge();
    let outs = ask(
        &mut b,
        r#"{"id":8,"method":"turn/start","params":{"input":[{"type":"image"},{"type":"text","text":"go"}]}}"#,
    );
    assert!(frames(&outs).is_empty());
    assert_eq!(envelopes(&outs), vec![("turn".to_string(), r#"{"message":"go"}"#.to_string())]);
    let outs = tell(&mut b, WicketEvent::Turn(json(r#"{"event":"started","turn_id":"turn-9"}"#)));
    let texts = frames(&outs);
    let answers: Vec<&String> = texts.iter().filter(|t| t.contains(r#""id":8,"#)).collect();
    assert_eq!(answers.len(), 1);
    assert!(answers[0].contains("turn-9"));
    assert!(texts.iter().any(|t| t.contains(r#""method":"turn/started""#)));
    assert!(b.pending_turn_start_response.is_none());
}

#[test]
fn steering_needs_the_right_turn() {
    let mut b = bridge();
    let steer = r#"{"id":9,"method":"turn/steer","params":{"expectedTurnId":"turn-1","input":[{"type":"text","text":"left"}]}}"#;
    assert_eq!(
        frames(&ask(&mut b, steer)),
        vec![
            r#"{"jsonrpc":"2.0","id":9,"error":{"code":-32000,"message":"no active turn to steer"}}"#
                .to_string()
        ]
    );
    start_turn(&mut b);
    let outs = ask(&mut b, steer);
    assert_eq!(envelopes(&outs), vec![("steer".to_string(), r#"{"message":"left"}"#.to_string())]);
    assert_eq!(
        frames(&outs),
        vec![r#"{"jsonrpc":"2.0","id":9,"result":{"turnId":"turn-1"}}"#.to_string()]
    );
    let other = r#"{"id":10,"method":"turn/steer","params":{"expectedTurnId":"turn-2"}}"#;
    assert_eq!(
        frames(&ask(&mut b, other)),
        vec![
            r#"{"jsonrpc":"2.0","id":10,"error":{"code":-32000,"message":"expected active turn id `turn-2` but found `turn-1`"}}"#
                .to_string()
        ]
    );
}

#[test]
fn an_interruption_reaches_the_wicket() {
    let mut b = bridge();
    start_turn(&mut b);
    let outs = ask(&mut b, r#"{"id":11,"method":"turn/interrupt"}"#);
    assert!(b.turn_interrupted);
    assert_eq!(envelopes(&outs), vec![("interrupt".to_string(), "{}".to_string())]);
    assert_eq!(frames(&outs), vec![r#"{"jsonrpc":"2.0","id":11,"result":{}}"#.to_string()]);
}

#[test]
fn a_shell_command_makes_a_turn_of_its_own() {
    let mut b = bridge();
    let outs = ask(
        &mut b,
        r#"{"id":12,"method":"thread/shellCommand","params":{"command":"ls"}}"#,
    );
    let texts = frames(&outs);
    assert_eq!(texts.len(), 3);
    assert_eq!(texts[0], r#"{"jsonrpc":"2.0","id":12,"result":{}}"#);
    assert_eq!(
        texts[1],
        r#"{"jsonrpc":"2.0","method":"turn/started","params":{"threadId":"thread-1","turn":{"completedAt":null,"durationMs":null,"error":null,"id":"id-1","items":[],"itemsView":"full","startedAt":1700000000,"status":"inProgress"}}}"#
    );
    assert!(texts[2].contains(r#""command":"ls""#));
    assert!(texts[2].contains(r#""startedAtMs":1700000000123"#));
    assert_eq!(
        envelopes(&outs),
        vec![(
            "shell".to_string(),
            r#"{"command":"ls","item_id":"id-2","turn_id":"id-1"}"#.to_string()
        )]
    );
    assert!(b.pending_shell.is_some());
}

#[test]
fn text_reaches_the_client_only_in_a_turn() {
    let mut b = bridge();
    let delta = || {
        WicketEvent::Delta(json(
            r#"{"type":"content_block_delta","delta":{"type":"text_delta","text":"hey"}}"#,
        ))
    };
    let outs = tell(&mut b, delta());
    assert!(frames(&outs).is_empty());
    assert_eq!(outs.len(), 1);
    start_turn(&mut b);
    b.active_item_id = Some("item-1".to_string());
    assert_eq!(
        frames(&tell(&mut b, delta())),
        vec![
            r#"{"jsonrpc":"2.0","method":"item/agentMessage/delta","params":{"delta":"hey","itemId":"item-1","threadId":"thread-1","turnId":"turn-1"}}"#
                .to_string()
        ]
    );
}

#[test]
fn thoughts_are_announced() {
    let mut b = bridge();
    start_turn(&mut b);
    let start = json(r#"{"type":"content_block_start","content_block":{"type":"thinking"}}"#);
    let texts = frames(&tell(&mut b, WicketEvent::Delta(start)));
    assert_eq!(texts.len(), 2);
    assert!(texts[0].contains("item/started"));
    assert!(texts[0].contains("reasoning"));
    assert!(texts[1].contains("**Thinking**"));
    assert!(b.in_thinking);
    assert_eq!(b.active_reasoning_item_id.as_deref(), Some("id-1"));
}

#[test]
fn an_approval_is_asked_and_answered_once() {
    let mut b = bridge();
    start_turn(&mut b);
    let outs = tell(
        &mut b,
        WicketEvent::Approval(json(r#"{"tool_name":"Bash","input":{"command":"rm x"}}"#)),
    );
    let texts = frames(&outs);
    assert!(texts.iter().any(|t| t.contains(r#""id":1000"#)));
    assert_eq!(b.pending_approval_request_id, Some(1000));
    let answer = r#"{"id":1000,"result":{"decision":"accept"}}"#;
    let outs = ask(&mut b, answer);
    assert_eq!(
        envelopes(&outs),
        vec![("approval".to_string(), r#"{"behavior":"allow"}"#.to_string())]
    );
    assert!(envelopes(&ask(&mut b, answer)).is_empty());
}

#[test]
fn a_refusal_says_why() {
    let mut b = bridge();
    start_turn(&mut b);
    tell(&mut b, WicketEvent::Approval(json(r#"{"tool_name":"Bash","input":{}}"#)));
    let outs = ask(&mut b, r#"{"id":1000,"result":{"decision":"decline"}}"#);
    assert_eq!(
        envelopes(&outs),
        vec![(
            "approval".to_string(),
            r#"{"behavior":"deny","message":"User denied"}"#.to_string()
        )]
    );
}

#[test]
fn drawn_identifiers_differ() {
    let mut b = bridge();
    let rpc = || {
        Some(RpcMessage {
            id: Some(json("1")),
            method: Some("thread/start".to_string()),
            params: None,
            result: None,
        })
    };
    let first = frames(&b.on_text("{}", rpc()));
    let second = frames(&b.on_text("{}", rpc()));
    let id = |text: &str| {
        json(text)
            .get("result")
            .unwrap()
            .get("thread")
            .unwrap()
            .str_at("sessionId")
            .unwrap()
            .to_string()
    };
    assert_eq!(id(&first[0]).len(), 36);
    assert_eq!(id(&first[0]).chars().nth(14), Some('4'));
    assert!(id(&first[0]) != id(&second[0]));
}

#[test]
fn times_are_drawn_from_the_clock() {
    let mut b = bridge();
    let rpc = RpcMessage {
        id: Some(json("1")),
        method: Some("thread/shellCommand".to_string()),
        params: Some(json(r#"{"command":"ls"}"#)),
        result: None,
    };
    let texts = frames(&b.on_text("{}", Some(rpc)));
    let started = json(&texts[1]);
    let seconds = started.get("params").unwrap().get("turn").unwrap().i64_at("startedAt").unwrap();
    assert!(seconds > 1600000000);
    let item = json(&texts[2]);
    let millis = item.get("params").unwrap().i64_at("startedAtMs").unwrap();
    assert!(millis / 1000 - seconds <= 1);
}

#[test]
fn entries_are_told_apart() {
    let interrupt = json(
        r#"{"kind":"user","blocks":[{"type":"text","text":"[Request interrupted by user]"}]}"#,
    );
    assert!(is_interrupt_marker(&interrupt));
    assert!(is_user_text_entry(&interrupt));
    let result = json(r#"{"kind":"user","blocks":[{"type":"tool_result","content":"x"}]}"#);
    assert!(!is_interrupt_marker(&result));
    assert!(!is_user_text_entry(&result));
    assert!(!is_user_text_entry(&json(r#"{"kind":"assistant","blocks":[{"type":"text"}]}"#)));
}

#[test]
fn turns_of_the_past() {
    let entries = vec![
        json(r#"{"kind":"user","uuid":"a","blocks":[{"type":"text","text":"one"}]}"#),
        json(r#"{"kind":"assistant","blocks":[{"type":"thinking","text":"hm"}]}"#),
        json(
            r#"{"kind":"assistant","uuid":"c","blocks":[{"type":"tool_use","name":"mcp__wicket__shell","input":{"command":"ls"}},{"type":"tool_use","name":"Read"}]}"#,
        ),
        json(r#"{"kind":"user","uuid":"d","blocks":[{"type":"tool_result","content":"file"}]}"#),
        json(r#"{"kind":"user","blocks":[{"type":"text","text":"[Request interrupted by user]"}]}"#),
        json(r#"{"kind":"user","uuid":"e","blocks":[{"type":"text","text":"two"}]}"#),
    ];
    let ids: Vec<String> = (0..13).map(|i| format!("n{i}")).collect();
    let turns = turns_with_ids(&entries, "/home/alan", &ids);
    assert_eq!(turns.len(), 2);
    assert_eq!(turns[0].str_at("status"), Some("interrupted"));
    assert_eq!(turns[1].str_at("status"), Some("completed"));
    let items = turns[0].array_at("items").unwrap();
    assert_eq!(items.len(), 3);
    assert_eq!(
        items[0].text(),
        r#"{"content":[{"text":"one","type":"text"}],"id":"a","type":"userMessage"}"#
    );
    assert_eq!(items[1].str_at("type"), Some("reasoning"));
    assert_eq!(items[1].get("summary").unwrap().text(), r#"["**Thinking**\n\nhm"]"#);
    assert_eq!(items[2].str_at("command"), Some("ls"));
    assert_eq!(items[2].str_at("cwd"), Some("/home/alan/pane/solver"));
    assert_eq!(items[2].str_at("aggregatedOutput"), Some("file"));
    assert_eq!(build_turns_from_entries(&entries, "/home/alan").len(), 2);
}

#[test]
fn empty_turns_are_not_kept() {
    let mut turns = Vec::new();
    let mut items = Vec::new();
    assert!(!flush_turn(&mut turns, &mut items, "completed", "t"));
    assert!(turns.is_empty());
    items.push(json("{}"));
    assert!(flush_turn(&mut turns, &mut items, "completed", "t"));
    assert!(items.is_empty());
    assert_eq!(
        turns[0].text(),
        r#"{"completedAt":0,"durationMs":null,"error":null,"id":"t","items":[{}],"itemsView":"full","startedAt":0,"status":"completed"}"#
    );
}

#[test]
fn patches_become_changes() {
    let patch = "*** Begin Patch\n*** Add File: a.txt\n+one\n+two\n*** Update File: b.txt \n@@ here\n old\n-gone\n+new\n*** Delete File: c.txt\n*** End Patch\n";
    let changes = parse_patch_to_changes(patch);
    assert_eq!(changes.len(), 3);
    assert_eq!(
        changes[0].text(),
        r#"{"diff":"+one\n+two","kind":{"type":"add"},"path":"a.txt"}"#
    );
    assert_eq!(
        changes[1].text(),
        r#"{"diff":"--- a/b.txt\n+++ b/b.txt\n@@ -1,2 +1,2 @@\n old\n-gone\n+new","kind":{"movePath":null,"type":"update"},"path":"b.txt"}"#
    );
    assert_eq!(changes[2].text(), r#"{"diff":"","kind":{"type":"delete"},"path":"c.txt"}"#);
    assert!(parse_patch_to_changes("nothing here").is_empty());
}

#[test]
fn a_tool_is_shown_by_its_input() {
    let mut bridge = bridge();
    bridge.in_tool_use = true;
    bridge.active_tool_item_id = Some("tool-1".to_string());
    bridge.active_tool_name = Some("Bash".to_string());
    bridge.tool_input_json = "raw".to_string();
    let input = Some(json(r#"{"command":"ls"}"#));
    let outs = bridge.on_block_stop_with("turn-1", &input, &fresh());
    assert_eq!(frames(&outs).len(), 1);
    assert!(frames(&outs)[0].contains(r#""command":"ls""#));
    assert!(!bridge.in_tool_use);
    assert_eq!(bridge.completed_tool_name, Some("Bash".to_string()));
    assert_eq!(bridge.completed_tool_path, None);
    assert!(bridge.on_block_stop_with("turn-1", &input, &fresh()).is_empty());

    bridge.in_tool_use = true;
    bridge.active_tool_name = Some("Bash".to_string());
    let outs = bridge.on_block_stop_with("turn-1", &None, &fresh());
    assert!(frames(&outs)[0].contains(r#""command":"raw""#));

    bridge.in_tool_use = true;
    bridge.active_tool_name = Some("view_image".to_string());
    let input = Some(json(r#"{"path":"/a.png"}"#));
    let outs = bridge.on_block_stop_with("turn-1", &input, &fresh());
    assert!(frames(&outs)[0].contains(r#""path":"/a.png""#));
    assert_eq!(bridge.completed_tool_path, Some("/a.png".to_string()));
}

#[test]
fn turns_get_identifiers_of_their_own() {
    let entries = vec![json(r#"{"kind":"user","blocks":[{"type":"text","text":"hi"}]}"#)];
    let turns = build_turns_from_entries(&entries, "/home/alan");
    assert_eq!(turns.len(), 1);
    let id = turns[0].str_at("id").unwrap();
    assert_eq!(id.len(), 36);
    assert_eq!(&id[14..15], "4");
    assert_ne!(id, build_turns_from_entries(&entries, "/home/alan")[0].str_at("id").unwrap());
}

//! The bridge between a client that speaks remote procedure calls and the wicket, which speaks
//! envelopes: what it does on each message from either side.

use vstd::prelude::*;

use crate::chars::{
    cat, contains, opt_copy, opt_str, opt_text, or_empty, same, text_contains, texts,
};
use crate::frame::{
    add_out, add_outs, bare_turn, bare_turn_json, changes_params, changes_params_json,
    delta_params, delta_params_json, failure, failure_out, image_item, image_item_json,
    item_params, item_params_json, notice, notice_out, nothing, outs_view, response, response_out,
    summary_params, summary_params_json, turn_params, turn_params_json, usage_fits, usage_params,
    usage_params_json, Frame, FrameV, Out, OutV,
};
use crate::fresh::{are_ids, new_id, new_ids, now_millis, now_seconds};
use crate::history::{
    agent_item, agent_item_json, command_item, command_item_json, file_item, file_item_json,
    has_type, input_at, past_turns, reasoning_item, reasoning_item_json, turns_with_ids,
    user_item, user_item_json, Command, CommandV,
};
use crate::json::{
    items_view, jint, jopt, jstr, lemma_items_push, lemma_items_view, opt_ref, opt_view, parsed,
    Json, JsonV,
};
use crate::patch::{parse_patch_to_changes, patch_changes};
use crate::wicket::{verdict, verdict_json, WicketEvent, WicketEventV};

verus! {

// ---------------------------------------------------------------------------
// State

/// A command that the client gave, whose result has not come.
#[derive(Debug)]
pub struct PendingShell {
    pub turn_id: String,
    pub item_id: String,
}

/// The model behind the wicket, as it is told to the client.
#[derive(Debug)]
pub struct Model {
    pub id: String,
    pub display_name: String,
    pub description: String,
}

pub struct ModelV {
    pub id: Seq<char>,
    pub display_name: Seq<char>,
    pub description: Seq<char>,
}

impl View for Model {
    type V = ModelV;

    open spec fn view(&self) -> ModelV {
        ModelV {
            id: self.id@,
            display_name: self.display_name@,
            description: self.description@,
        }
    }
}

#[derive(Debug)]
pub struct Bridge {
    pub thread_id: String,
    pub home: String,
    pub cwd: String,
    pub model: Model,
    /// The conversation before the client came.
    pub history: Vec<Json>,
    /// The tokens used before the client came.
    pub initial_usage: Option<Json>,
    pub active_turn_id: Option<String>,
    pub active_item_id: Option<String>,
    pub active_tool_item_id: Option<String>,
    pub active_tool_name: Option<String>,
    pub completed_tool_name: Option<String>,
    pub completed_tool_path: Option<String>,
    pub active_reasoning_item_id: Option<String>,
    pub in_tool_use: bool,
    pub turn_interrupted: bool,
    pub in_thinking: bool,
    pub tool_input_json: String,
    pub last_stop_reason: Option<String>,
    pub pending_shell: Option<PendingShell>,
    pub pending_approval_request_id: Option<i64>,
    /// The id of the request to start a turn, which is answered when the wicket starts it.
    pub pending_turn_start_response: Option<Json>,
    pub next_server_request_id: i64,
}

pub struct BridgeV {
    pub thread_id: Seq<char>,
    pub home: Seq<char>,
    pub cwd: Seq<char>,
    pub model: ModelV,
    pub history: Seq<JsonV>,
    pub initial_usage: Option<JsonV>,
    pub active_turn_id: Option<Seq<char>>,
    pub active_item_id: Option<Seq<char>>,
    pub active_tool_item_id: Option<Seq<char>>,
    pub active_tool_name: Option<Seq<char>>,
    pub completed_tool_name: Option<Seq<char>>,
    pub completed_tool_path: Option<Seq<char>>,
    pub active_reasoning_item_id: Option<Seq<char>>,
    pub in_tool_use: bool,
    pub turn_interrupted: bool,
    pub in_thinking: bool,
    pub tool_input_json: Seq<char>,
    pub last_stop_reason: Option<Seq<char>>,
    pub pending_shell: Option<(Seq<char>, Seq<char>)>,
    pub pending_approval_request_id: Option<i64>,
    pub pending_turn_start_response: Option<JsonV>,
    pub next_server_request_id: int,
}

impl View for Bridge {
    type V = BridgeV;

    open spec fn view(&self) -> BridgeV {
        BridgeV {
            thread_id: self.thread_id@,
            home: self.home@,
            cwd: self.cwd@,
            model: self.model@,
            history: items_view(self.history@),
            initial_usage: opt_view(self.initial_usage),
            active_turn_id: opt_text(self.active_turn_id),
            active_item_id: opt_text(self.active_item_id),
            active_tool_item_id: opt_text(self.active_tool_item_id),
            active_tool_name: opt_text(self.active_tool_name),
            completed_tool_name: opt_text(self.completed_tool_name),
            completed_tool_path: opt_text(self.completed_tool_path),
            active_reasoning_item_id: opt_text(self.active_reasoning_item_id),
            in_tool_use: self.in_tool_use,
            turn_interrupted: self.turn_interrupted,
            in_thinking: self.in_thinking,
            tool_input_json: self.tool_input_json@,
            last_stop_reason: opt_text(self.last_stop_reason),
            pending_shell: match self.pending_shell {
                Some(shell) => Some((shell.turn_id@, shell.item_id@)),
                None => None,
            },
            pending_approval_request_id: self.pending_approval_request_id,
            pending_turn_start_response: opt_view(self.pending_turn_start_response),
            next_server_request_id: self.next_server_request_id as int,
        }
    }
}

/// What is drawn afresh for a message: identifiers, and a reading of the clock that serves for
/// all that the message leads to.
#[derive(Debug)]
pub struct Fresh {
    pub first: String,
    pub second: String,
    /// Identifiers for the turns of the past.
    pub ids: Vec<String>,
    pub seconds: i64,
    pub millis: i64,
}

pub struct FreshV {
    pub first: Seq<char>,
    pub second: Seq<char>,
    pub ids: Seq<Seq<char>>,
    pub seconds: int,
    pub millis: int,
}

impl View for Fresh {
    type V = FreshV;

    open spec fn view(&self) -> FreshV {
        FreshV {
            first: self.first@,
            second: self.second@,
            ids: texts(self.ids@),
            seconds: self.seconds as int,
            millis: self.millis as int,
        }
    }
}

/// The bridge before anything has passed.
pub open spec fn begun(
    thread_id: Seq<char>,
    home: Seq<char>,
    slug: Seq<char>,
    model: ModelV,
    history: Seq<JsonV>,
    initial_usage: Option<JsonV>,
) -> BridgeV {
    BridgeV {
        thread_id,
        home,
        cwd: home + "/pane/"@ + slug,
        model,
        history,
        initial_usage,
        active_turn_id: None,
        active_item_id: None,
        active_tool_item_id: None,
        active_tool_name: None,
        completed_tool_name: None,
        completed_tool_path: None,
        active_reasoning_item_id: None,
        in_tool_use: false,
        turn_interrupted: false,
        in_thinking: false,
        tool_input_json: Seq::empty(),
        last_stop_reason: None,
        pending_shell: None,
        pending_approval_request_id: None,
        pending_turn_start_response: None,
        next_server_request_id: 1000,
    }
}

pub open spec fn or_null(v: Option<JsonV>) -> JsonV {
    match v {
        Some(v) => v,
        None => JsonV::Null,
    }
}

proof fn lemma_empty()
    ensures
        ""@ == Seq::<char>::empty(),
{
    reveal_strlit("");
    assert(""@ =~= Seq::<char>::empty());
}

fn text_or<'a>(s: &'a Option<String>) -> (out: &'a str)
    ensures
        out@ == or_empty(opt_text(*s)),
{
    proof {
        lemma_empty();
    }
    match s {
        Some(s) => s.as_str(),
        None => "",
    }
}

fn null_or(v: Option<&Json>) -> (out: Json)
    ensures
        out@ == or_null(opt_ref(v)),
{
    match v {
        Some(v) => v.copy(),
        None => Json::Null,
    }
}

fn holds(s: &Option<String>, part: &str) -> (out: bool)
    ensures
        out == (match *s {
            Some(s) => contains(s@, part@),
            None => false,
        }),
{
    match s {
        Some(s) => text_contains(s.as_str(), part),
        None => false,
    }
}

// ---------------------------------------------------------------------------
// Deltas of a turn

/// A line of the log for what the wicket sent.
pub open spec fn wicket_log(name: Seq<char>, data: JsonV) -> OutV {
    OutV::Log {
        dir: "wicket>puzzle"@,
        data: JsonV::Obj(map!["type"@ => jstr(name), "data"@ => data]),
    }
}

fn wicket_log_out(name: &str, data: &Json) -> (out: Out)
    ensures
        out@ == wicket_log(name@, data@),
{
    let line = Json::object().with("type", Json::string(name)).with("data", data.copy());
    assert(line@ == JsonV::Obj(map!["type"@ => jstr(name@), "data"@ => data@]));
    Out::Log { dir: "wicket>puzzle".to_owned(), data: line }
}

/// A tool's command as it is shown when it is over and nothing more is known of it.
pub open spec fn plain_done(cwd: Seq<char>) -> CommandV {
    CommandV {
        command: ""@,
        cwd,
        source: "agent"@,
        status: "completed"@,
        output: JsonV::Null,
        exit_code: jint(0),
    }
}

pub open spec fn tool_over(b: BridgeV, turn: Seq<char>, tool: Seq<char>, f: FreshV) -> OutV {
    notice(
        "item/completed"@,
        item_params(
            b.thread_id,
            turn,
            "completedAtMs"@,
            f.millis,
            command_item(tool, plain_done(b.cwd)),
        ),
        false,
        true,
    )
}

/// A block of the model's answer begins.
pub open spec fn block_started(b: BridgeV, turn: Seq<char>, delta: JsonV, f: FreshV) -> (
    BridgeV,
    Seq<OutV>,
) {
    let block = or_null(delta.get("content_block"@));
    let kind = block.str_or("type"@, ""@);
    if kind == "thinking"@ {
        (
            BridgeV { in_thinking: true, active_reasoning_item_id: Some(f.first), ..b },
            seq![
                notice(
                    "item/started"@,
                    item_params(
                        b.thread_id,
                        turn,
                        "startedAtMs"@,
                        f.millis,
                        reasoning_item(f.first, Seq::empty()),
                    ),
                    true,
                    true,
                ),
                notice(
                    "item/reasoning/summaryTextDelta"@,
                    summary_params(b.thread_id, turn, f.first, "**Thinking**\n\n"@),
                    true,
                    true,
                ),
            ],
        )
    } else if kind == "tool_use"@ {
        let name = block.str_or("name"@, ""@);
        (
            BridgeV {
                in_tool_use: true,
                tool_input_json: Seq::empty(),
                active_tool_name: Some(name),
                active_tool_item_id: if contains(name, "wicket"@) {
                    Some(f.first)
                } else {
                    b.active_tool_item_id
                },
                ..b
            },
            Seq::empty(),
        )
    } else if kind == "text"@ {
        let over = match b.active_tool_item_id {
            Some(tool) => seq![tool_over(b, turn, tool, f)],
            None => Seq::<OutV>::empty(),
        };
        (
            BridgeV { active_tool_item_id: None, ..b },
            match b.active_item_id {
                Some(item) => over.push(
                    notice(
                        "item/started"@,
                        item_params(
                            b.thread_id,
                            turn,
                            "startedAtMs"@,
                            f.millis,
                            agent_item(item, ""@),
                        ),
                        true,
                        true,
                    ),
                ),
                None => over,
            },
        )
    } else {
        (b, Seq::empty())
    }
}

/// More of a block has come.
pub open spec fn block_grown(b: BridgeV, turn: Seq<char>, delta: JsonV) -> (BridgeV, Seq<OutV>) {
    let inner = or_null(delta.get("delta"@));
    let kind = inner.str_or("type"@, ""@);
    if b.in_thinking && kind == "thinking_delta"@ {
        let text = inner.str_or("thinking"@, ""@);
        (
            b,
            match b.active_reasoning_item_id {
                Some(item) if text.len() > 0 => seq![
                    notice(
                        "item/reasoning/summaryTextDelta"@,
                        summary_params(b.thread_id, turn, item, text),
                        true,
                        true,
                    ),
                ],
                _ => Seq::empty(),
            },
        )
    } else if b.in_tool_use && kind == "input_json_delta"@ {
        (
            BridgeV {
                tool_input_json: b.tool_input_json + or_empty(inner.str_at("partial_json"@)),
                ..b
            },
            Seq::empty(),
        )
    } else if !b.in_tool_use && !b.in_thinking {
        let text = inner.str_or("text"@, ""@);
        (
            b,
            match b.active_item_id {
                Some(item) if text.len() > 0 => seq![
                    notice(
                        "item/agentMessage/delta"@,
                        delta_params(b.thread_id, turn, item, text),
                        false,
                        true,
                    ),
                ],
                _ => Seq::empty(),
            },
        )
    } else {
        (b, Seq::empty())
    }
}

/// The text in a field of a tool's input, as far as the input is JSON.
pub open spec fn input_field(input: Option<JsonV>, key: Seq<char>) -> Option<Seq<char>> {
    match input {
        Some(v) => v.str_at(key),
        None => None,
    }
}

/// What is shown of a tool whose input is complete, given the value of the input.
pub open spec fn tool_shown(
    b: BridgeV,
    turn: Seq<char>,
    tool: Seq<char>,
    input: Option<JsonV>,
    f: FreshV,
) -> Seq<OutV> {
    let name = or_empty(b.active_tool_name);
    if contains(name, "view_image"@) {
        seq![
            notice(
                "item/started"@,
                item_params(
                    b.thread_id,
                    turn,
                    "startedAtMs"@,
                    f.millis,
                    image_item(tool, or_empty(input_field(input, "path"@))),
                ),
                true,
                true,
            ),
        ]
    } else if contains(name, "apply_patch"@) {
        let patch = or_empty(input_field(input, "patch"@));
        seq![
            notice(
                "item/started"@,
                item_params(
                    b.thread_id,
                    turn,
                    "startedAtMs"@,
                    f.millis,
                    file_item(tool, patch, "inProgress"@),
                ),
                false,
                true,
            ),
            notice(
                "item/fileChange/patchUpdated"@,
                changes_params(b.thread_id, turn, tool, patch_changes(patch)),
                false,
                true,
            ),
        ]
    } else {
        let command = match input_field(input, "command"@) {
            Some(command) => command,
            None => b.tool_input_json,
        };
        seq![
            notice(
                "item/started"@,
                item_params(
                    b.thread_id,
                    turn,
                    "startedAtMs"@,
                    f.millis,
                    command_item(
                        tool,
                        CommandV {
                            command,
                            cwd: b.cwd,
                            source: "agent"@,
                            status: "inProgress"@,
                            output: JsonV::Null,
                            exit_code: JsonV::Null,
                        },
                    ),
                ),
                true,
                true,
            ),
        ]
    }
}

/// A block is over. Thinking ends before a tool's input does.
pub open spec fn block_stopped(b: BridgeV, turn: Seq<char>, f: FreshV) -> (BridgeV, Seq<OutV>) {
    block_stopped_with(b, turn, parsed(b.tool_input_json), f)
}

/// A block is over, and the tool's input has the given value.
pub open spec fn block_stopped_with(
    b: BridgeV,
    turn: Seq<char>,
    input: Option<JsonV>,
    f: FreshV,
) -> (BridgeV, Seq<OutV>) {
    if b.in_thinking {
        (
            BridgeV { in_thinking: false, active_reasoning_item_id: None, ..b },
            match b.active_reasoning_item_id {
                Some(item) => seq![
                    notice(
                        "item/completed"@,
                        item_params(
                            b.thread_id,
                            turn,
                            "completedAtMs"@,
                            f.millis,
                            reasoning_item(item, Seq::empty()),
                        ),
                        true,
                        true,
                    ),
                ],
                None => Seq::empty(),
            },
        )
    } else if b.in_tool_use {
        (
            BridgeV {
                in_tool_use: false,
                completed_tool_name: b.active_tool_name,
                active_tool_name: None,
                completed_tool_path: match b.active_tool_name {
                    Some(name) if contains(name, "view_image"@) => input_field(input, "path"@),
                    _ => None,
                },
                ..b
            },
            match b.active_tool_item_id {
                Some(tool) => tool_shown(b, turn, tool, input, f),
                None => Seq::empty(),
            },
        )
    } else {
        (b, Seq::empty())
    }
}

pub open spec fn agent_done(b: BridgeV, turn: Seq<char>, item: Seq<char>, f: FreshV) -> JsonV {
    item_params(b.thread_id, turn, "completedAtMs"@, f.millis, agent_item(item, ""@))
}

pub open spec fn turn_done(b: BridgeV, turn: Seq<char>, status: Seq<char>, f: FreshV) -> JsonV {
    turn_params(b.thread_id, bare_turn(turn, status, f.seconds, jint(f.seconds)))
}

/// The model's answer is over. Where it stopped to use a tool the turn goes on with a new item;
/// otherwise the turn is over too.
pub open spec fn message_stopped(b: BridgeV, turn: Seq<char>, f: FreshV) -> (BridgeV, Seq<OutV>) {
    if b.last_stop_reason == Some("tool_use"@) {
        (
            BridgeV { last_stop_reason: None, active_item_id: Some(f.first), ..b },
            match b.active_item_id {
                Some(item) => seq![
                    notice("item/completed"@, agent_done(b, turn, item, f), false, true),
                ],
                None => Seq::empty(),
            },
        )
    } else {
        let over = match b.active_tool_item_id {
            Some(tool) => seq![tool_over(b, turn, tool, f)],
            None => Seq::<OutV>::empty(),
        };
        let status = if b.turn_interrupted {
            "interrupted"@
        } else {
            "completed"@
        };
        (
            BridgeV {
                last_stop_reason: None,
                active_tool_item_id: None,
                active_turn_id: None,
                active_item_id: None,
                turn_interrupted: false,
                ..b
            },
            over.push(
                notice(
                    "item/completed"@,
                    agent_done(b, turn, or_empty(b.active_item_id), f),
                    true,
                    true,
                ),
            ).push(notice("turn/completed"@, turn_done(b, turn, status, f), true, true)),
        )
    }
}

/// A delta counts while a turn is on.
pub open spec fn delta_taken(b: BridgeV, delta: JsonV, f: FreshV) -> (BridgeV, Seq<OutV>) {
    match b.active_turn_id {
        None => (b, Seq::empty()),
        Some(turn) => {
            let kind = delta.str_or("type"@, ""@);
            if kind == "content_block_start"@ {
                block_started(b, turn, delta, f)
            } else if kind == "content_block_delta"@ {
                block_grown(b, turn, delta)
            } else if kind == "content_block_stop"@ {
                block_stopped(b, turn, f)
            } else if kind == "message_delta"@ {
                match or_null(delta.get("delta"@)).str_at("stop_reason"@) {
                    Some(reason) => (
                        BridgeV { last_stop_reason: Some(reason), ..b },
                        Seq::<OutV>::empty(),
                    ),
                    None => (b, Seq::empty()),
                }
            } else if kind == "message_stop"@ {
                message_stopped(b, turn, f)
            } else {
                (b, Seq::empty())
            }
        },
    }
}

fn tool_over_out(b: &Bridge, turn: &str, tool: &str, f: &Fresh) -> (out: Out)
    ensures
        out@ == tool_over(b@, turn@, tool@, f@),
{
    let item = command_item_json(
        tool,
        Command {
            command: "",
            cwd: b.cwd.as_str(),
            source: "agent",
            status: "completed",
            output: Json::Null,
            exit_code: Json::integer(0),
        },
    );
    notice_out(
        "item/completed",
        item_params_json(b.thread_id.as_str(), turn, "completedAtMs", f.millis, item),
        false,
        true,
    )
}

fn input_text(input: &Option<Json>, key: &str) -> (out: Option<String>)
    ensures
        opt_text(out) == input_field(opt_view(*input), key@),
{
    match input {
        Some(v) => match v.str_at(key) {
            Some(s) => Some(s.to_owned()),
            None => None,
        },
        None => None,
    }
}

impl Bridge {
    pub fn new(
        thread_id: &str,
        home: &str,
        slug: &str,
        model: Model,
        history: Vec<Json>,
        initial_usage: Option<Json>,
    ) -> (out: Self)
        ensures
            out@ == begun(
                thread_id@,
                home@,
                slug@,
                model@,
                items_view(history@),
                opt_view(initial_usage),
            ),
    {
        Bridge {
            thread_id: thread_id.to_owned(),
            home: home.to_owned(),
            cwd: cat(cat(home, "/pane/").as_str(), slug),
            model,
            history,
            initial_usage,
            active_turn_id: None,
            active_item_id: None,
            active_tool_item_id: None,
            active_tool_name: None,
            completed_tool_name: None,
            completed_tool_path: None,
            active_reasoning_item_id: None,
            in_tool_use: false,
            turn_interrupted: false,
            in_thinking: false,
            tool_input_json: String::new(),
            last_stop_reason: None,
            pending_shell: None,
            pending_approval_request_id: None,
            pending_turn_start_response: None,
            next_server_request_id: 1000,
        }
    }

    fn on_block_start(&mut self, turn: &str, delta: &Json, f: &Fresh) -> (outs: Vec<Out>)
        ensures
            (final(self)@, outs_view(outs@)) == block_started(old(self)@, turn@, delta@, f@),
    {
        let mut outs = nothing();
        let block = null_or(delta.get("content_block"));
        let kind = block.str_or("type", "");
        if same(kind, "thinking") {
            self.in_thinking = true;
            self.active_reasoning_item_id = Some(f.first.clone());
            let none: Vec<String> = Vec::new();
            assert(texts(none@) =~= Seq::<Seq<char>>::empty());
            let item = reasoning_item_json(f.first.as_str(), none);
            add_out(
                &mut outs,
                notice_out(
                    "item/started",
                    item_params_json(self.thread_id.as_str(), turn, "startedAtMs", f.millis, item),
                    true,
                    true,
                ),
            );
            add_out(
                &mut outs,
                notice_out(
                    "item/reasoning/summaryTextDelta",
                    summary_params_json(
                        self.thread_id.as_str(),
                        turn,
                        f.first.as_str(),
                        "**Thinking**\n\n",
                    ),
                    true,
                    true,
                ),
            );
        } else if same(kind, "tool_use") {
            let name = block.str_or("name", "");
            self.in_tool_use = true;
            self.tool_input_json = String::new();
            self.active_tool_name = Some(name.to_owned());
            if text_contains(name, "wicket") {
                self.active_tool_item_id = Some(f.first.clone());
            }
        } else if same(kind, "text") {
            let mut tool: Option<String> = None;
            std::mem::swap(&mut tool, &mut self.active_tool_item_id);
            if let Some(tool) = tool {
                add_out(&mut outs, tool_over_out(self, turn, tool.as_str(), f));
            }
            if let Some(item) = &self.active_item_id {
                add_out(
                    &mut outs,
                    notice_out(
                        "item/started",
                        item_params_json(
                            self.thread_id.as_str(),
                            turn,
                            "startedAtMs",
                            f.millis,
                            agent_item_json(item.as_str(), ""),
                        ),
                        true,
                        true,
                    ),
                );
            }
        }
        outs
    }

    fn on_block_delta(&mut self, turn: &str, delta: &Json) -> (outs: Vec<Out>)
        ensures
            (final(self)@, outs_view(outs@)) == block_grown(old(self)@, turn@, delta@),
    {
        let mut outs = nothing();
        let inner = null_or(delta.get("delta"));
        let kind = inner.str_or("type", "");
        if self.in_thinking && same(kind, "thinking_delta") {
            let text = inner.str_or("thinking", "");
            if !text.is_empty() {
                if let Some(item) = &self.active_reasoning_item_id {
                    add_out(
                        &mut outs,
                        notice_out(
                            "item/reasoning/summaryTextDelta",
                            summary_params_json(self.thread_id.as_str(), turn, item.as_str(), text),
                            true,
                            true,
                        ),
                    );
                }
            }
        } else if self.in_tool_use && same(kind, "input_json_delta") {
            let ghost before = self.tool_input_json@;
            match inner.str_at("partial_json") {
                Some(partial) => {
                    self.tool_input_json.append(partial);
                },
                None => {
                    assert(before + Seq::<char>::empty() =~= before);
                },
            }
        } else if !self.in_tool_use && !self.in_thinking {
            let text = inner.str_or("text", "");
            if !text.is_empty() {
                if let Some(item) = &self.active_item_id {
                    add_out(
                        &mut outs,
                        notice_out(
                            "item/agentMessage/delta",
                            delta_params_json(self.thread_id.as_str(), turn, item.as_str(), text),
                            false,
                            true,
                        ),
                    );
                }
            }
        }
        outs
    }

    fn show_tool(&self, turn: &str, tool: &str, input: &Option<Json>, f: &Fresh) -> (outs: Vec<Out>)
        ensures
            outs_view(outs@) == tool_shown(self@, turn@, tool@, opt_view(*input), f@),
    {
        let mut outs = nothing();
        let name = text_or(&self.active_tool_name);
        if text_contains(name, "view_image") {
            let path = input_text(input, "path");
            add_out(
                &mut outs,
                notice_out(
                    "item/started",
                    item_params_json(
                        self.thread_id.as_str(),
                        turn,
                        "startedAtMs",
                        f.millis,
                        image_item_json(tool, text_or(&path)),
                    ),
                    true,
                    true,
                ),
            );
        } else if text_contains(name, "apply_patch") {
            let field = input_text(input, "patch");
            let patch = text_or(&field);
            add_out(
                &mut outs,
                notice_out(
                    "item/started",
                    item_params_json(
                        self.thread_id.as_str(),
                        turn,
                        "startedAtMs",
                        f.millis,
                        file_item_json(tool, patch, "inProgress"),
                    ),
                    false,
                    true,
                ),
            );
            add_out(
                &mut outs,
                notice_out(
                    "item/fileChange/patchUpdated",
                    changes_params_json(
                        self.thread_id.as_str(),
                        turn,
                        tool,
                        parse_patch_to_changes(patch),
                    ),
                    false,
                    true,
                ),
            );
        } else {
            let field = input_text(input, "command");
            let command = match &field {
                Some(command) => command.as_str(),
                None => self.tool_input_json.as_str(),
            };
            let item = command_item_json(
                tool,
                Command {
                    command,
                    cwd: self.cwd.as_str(),
                    source: "agent",
                    status: "inProgress",
                    output: Json::Null,
                    exit_code: Json::Null,
                },
            );
            add_out(
                &mut outs,
                notice_out(
                    "item/started",
                    item_params_json(self.thread_id.as_str(), turn, "startedAtMs", f.millis, item),
                    true,
                    true,
                ),
            );
        }
        outs
    }

    fn on_block_stop(&mut self, turn: &str, f: &Fresh) -> (outs: Vec<Out>)
        ensures
            (final(self)@, outs_view(outs@)) == block_stopped(old(self)@, turn@, f@),
    {
        let input = Json::parse(self.tool_input_json.as_str());
        self.on_block_stop_with(turn, &input, f)
    }

    /// A block is over, and the tool's input has the given value.
    pub fn on_block_stop_with(&mut self, turn: &str, input: &Option<Json>, f: &Fresh) -> (outs: Vec<
        Out,
    >)
        ensures
            (final(self)@, outs_view(outs@)) == block_stopped_with(
                old(self)@,
                turn@,
                opt_view(*input),
                f@,
            ),
    {
        let mut outs = nothing();
        if self.in_thinking {
            let mut reasoning: Option<String> = None;
            std::mem::swap(&mut reasoning, &mut self.active_reasoning_item_id);
            if let Some(id) = reasoning {
                let none: Vec<String> = Vec::new();
                assert(texts(none@) =~= Seq::<Seq<char>>::empty());
                let item = reasoning_item_json(id.as_str(), none);
                add_out(
                    &mut outs,
                    notice_out(
                        "item/completed",
                        item_params_json(
                            self.thread_id.as_str(),
                            turn,
                            "completedAtMs",
                            f.millis,
                            item,
                        ),
                        true,
                        true,
                    ),
                );
            }
            self.in_thinking = false;
        } else if self.in_tool_use {
            if let Some(tool) = &self.active_tool_item_id {
                outs = self.show_tool(turn, tool.as_str(), input, f);
            }
            self.in_tool_use = false;
            let mut name: Option<String> = None;
            std::mem::swap(&mut name, &mut self.active_tool_name);
            self.completed_tool_path = if holds(&name, "view_image") {
                input_text(input, "path")
            } else {
                None
            };
            self.completed_tool_name = name;
        }
        outs
    }

    fn on_message_stop(&mut self, turn: &str, f: &Fresh) -> (outs: Vec<Out>)
        requires
            old(self)@.active_turn_id == Some(turn@),
        ensures
            (final(self)@, outs_view(outs@)) == message_stopped(old(self)@, turn@, f@),
    {
        let mut outs = nothing();
        let mut reason: Option<String> = None;
        std::mem::swap(&mut reason, &mut self.last_stop_reason);
        let for_tool = match &reason {
            Some(reason) => same(reason.as_str(), "tool_use"),
            None => false,
        };
        if for_tool {
            if let Some(item) = &self.active_item_id {
                add_out(
                    &mut outs,
                    notice_out(
                        "item/completed",
                        item_params_json(
                            self.thread_id.as_str(),
                            turn,
                            "completedAtMs",
                            f.millis,
                            agent_item_json(item.as_str(), ""),
                        ),
                        false,
                        true,
                    ),
                );
            }
            self.active_item_id = Some(f.first.clone());
        } else {
            let mut tool: Option<String> = None;
            std::mem::swap(&mut tool, &mut self.active_tool_item_id);
            if let Some(tool) = tool {
                add_out(&mut outs, tool_over_out(self, turn, tool.as_str(), f));
            }
            self.active_turn_id = None;
            let mut item: Option<String> = None;
            std::mem::swap(&mut item, &mut self.active_item_id);
            add_out(
                &mut outs,
                notice_out(
                    "item/completed",
                    item_params_json(
                        self.thread_id.as_str(),
                        turn,
                        "completedAtMs",
                        f.millis,
                        agent_item_json(text_or(&item), ""),
                    ),
                    true,
                    true,
                ),
            );
            let status = if self.turn_interrupted {
                "interrupted"
            } else {
                "completed"
            };
            self.turn_interrupted = false;
            add_out(
                &mut outs,
                notice_out(
                    "turn/completed",
                    turn_params_json(
                        self.thread_id.as_str(),
                        bare_turn_json(turn, status, f.seconds, Json::integer(f.seconds)),
                    ),
                    true,
                    true,
                ),
            );
        }
        outs
    }

    fn on_delta(&mut self, delta: &Json, f: &Fresh) -> (outs: Vec<Out>)
        ensures
            (final(self)@, outs_view(outs@)) == delta_taken(old(self)@, delta@, f@),
    {
        let active = opt_copy(&self.active_turn_id);
        match active {
            None => nothing(),
            Some(turn) => {
                let kind = delta.str_or("type", "");
                if same(kind, "content_block_start") {
                    self.on_block_start(turn.as_str(), delta, f)
                } else if same(kind, "content_block_delta") {
                    self.on_block_delta(turn.as_str(), delta)
                } else if same(kind, "content_block_stop") {
                    self.on_block_stop(turn.as_str(), f)
                } else if same(kind, "message_delta") {
                    let inner = null_or(delta.get("delta"));
                    if let Some(reason) = inner.str_at("stop_reason") {
                        self.last_stop_reason = Some(reason.to_owned());
                    }
                    nothing()
                } else if same(kind, "message_stop") {
                    self.on_message_stop(turn.as_str(), f)
                } else {
                    nothing()
                }
            },
        }
    }
}

// ---------------------------------------------------------------------------
// The other events of the wicket

pub open spec fn exit_json(code: Option<i64>) -> JsonV {
    match code {
        Some(code) => jint(code as int),
        None => JsonV::Null,
    }
}

pub open spec fn exit_status(code: Option<i64>) -> Seq<char> {
    if code == Some(0i64) {
        "completed"@
    } else {
        "failed"@
    }
}

/// A command that is over, with what it wrote and what it returned.
pub open spec fn done_command(source: Seq<char>, cwd: Seq<char>, data: JsonV) -> CommandV {
    let code = data.i64_at("exit_code"@);
    CommandV {
        command: ""@,
        cwd,
        source,
        status: exit_status(code),
        output: jstr(data.str_or("output"@, ""@)),
        exit_code: exit_json(code),
    }
}

/// A tool is done. An image is shown by its path, other tools by what they wrote.
pub open spec fn tool_done(b: BridgeV, data: JsonV, f: FreshV) -> (BridgeV, Seq<OutV>) {
    match b.active_tool_item_id {
        None => (b, Seq::empty()),
        Some(tool) => {
            let turn = or_empty(b.active_turn_id);
            let image = match b.completed_tool_name {
                Some(name) => contains(name, "view_image"@),
                None => false,
            };
            if image {
                (
                    BridgeV {
                        active_tool_item_id: None,
                        completed_tool_name: None,
                        completed_tool_path: None,
                        ..b
                    },
                    seq![
                        notice(
                            "item/completed"@,
                            item_params(
                                b.thread_id,
                                turn,
                                "completedAtMs"@,
                                f.millis,
                                image_item(tool, or_empty(b.completed_tool_path)),
                            ),
                            true,
                            true,
                        ),
                    ],
                )
            } else {
                (
                    BridgeV { active_tool_item_id: None, completed_tool_name: None, ..b },
                    seq![
                        notice(
                            "item/commandExecution/delta"@,
                            delta_params(
                                b.thread_id,
                                turn,
                                tool,
                                data.str_or("output"@, ""@),
                            ),
                            false,
                            true,
                        ),
                        notice(
                            "item/completed"@,
                            item_params(
                                b.thread_id,
                                turn,
                                "completedAtMs"@,
                                f.millis,
                                command_item(tool, done_command("agent"@, b.cwd, data)),
                            ),
                            true,
                            true,
                        ),
                    ],
                )
            }
        },
    }
}

/// The client's command is done, and with it the turn that was made for it.
pub open spec fn shell_done(b: BridgeV, data: JsonV, f: FreshV) -> (BridgeV, Seq<OutV>) {
    match b.pending_shell {
        None => (b, Seq::empty()),
        Some((turn, item)) => {
            let output = data.str_or("output"@, ""@);
            let status = exit_status(data.i64_at("exit_code"@));
            let written = if output.len() > 0 {
                seq![
                    notice(
                        "item/commandExecution/outputDelta"@,
                        delta_params(b.thread_id, turn, item, output),
                        false,
                        true,
                    ),
                ]
            } else {
                Seq::<OutV>::empty()
            };
            (
                BridgeV { pending_shell: None, ..b },
                written.push(
                    notice(
                        "item/completed"@,
                        item_params(
                            b.thread_id,
                            turn,
                            "completedAtMs"@,
                            f.millis,
                            command_item(item, done_command("userShell"@, b.cwd, data)),
                        ),
                        false,
                        true,
                    ),
                ).push(notice("turn/completed"@, turn_done(b, turn, status, f), false, true)),
            )
        },
    }
}

/// The turn that answers a request to start one: it holds what the user wrote.
pub open spec fn started_turn(turn: Seq<char>, message: Seq<char>, f: FreshV) -> JsonV {
    JsonV::Obj(
        map![
            "id"@ => jstr(turn),
            "items"@ => JsonV::Arr(seq![user_item(f.second, message)]),
            "itemsView"@ => jstr("full"@),
            "status"@ => jstr("inProgress"@),
            "startedAt"@ => jint(f.seconds),
            "completedAt"@ => JsonV::Null,
        ],
    )
}

/// The wicket starts a turn; while one is on this is passed over. Where the client asked for the
/// turn its request is answered, otherwise it is told what the user wrote.
pub open spec fn turn_begun(b: BridgeV, data: JsonV, f: FreshV) -> (BridgeV, Seq<OutV>) {
    if b.active_turn_id is Some {
        (b, Seq::empty())
    } else {
        let turn = data.str_or("turn_id"@, ""@);
        let message = data.str_or("message"@, ""@);
        let told = match b.pending_turn_start_response {
            Some(id) => response(
                id,
                JsonV::Obj(map!["turn"@ => started_turn(turn, message, f)]),
            ),
            None => notice(
                "item/completed"@,
                item_params(
                    b.thread_id,
                    turn,
                    "completedAtMs"@,
                    f.millis,
                    user_item(f.second, message),
                ),
                true,
                false,
            ),
        };
        (
            BridgeV {
                active_turn_id: Some(turn),
                active_item_id: Some(f.first),
                pending_turn_start_response: None,
                ..b
            },
            seq![
                told,
                notice(
                    "turn/started"@,
                    turn_params(
                        b.thread_id,
                        bare_turn(turn, "inProgress"@, f.seconds, JsonV::Null),
                    ),
                    true,
                    false,
                ),
                notice(
                    "item/started"@,
                    item_params(
                        b.thread_id,
                        turn,
                        "startedAtMs"@,
                        f.millis,
                        agent_item(f.first, ""@),
                    ),
                    false,
                    false,
                ),
            ],
        )
    }
}

/// The wicket has broken a turn off: nothing of it stays active.
pub open spec fn round_interrupted(b: BridgeV, f: FreshV) -> (BridgeV, Seq<OutV>) {
    match b.active_turn_id {
        None => (b, Seq::empty()),
        Some(turn) => (
            BridgeV {
                active_turn_id: None,
                active_item_id: None,
                active_tool_item_id: None,
                active_tool_name: None,
                active_reasoning_item_id: None,
                in_tool_use: false,
                in_thinking: false,
                turn_interrupted: false,
                ..b
            },
            seq![
                notice(
                    "item/completed"@,
                    agent_done(b, turn, or_empty(b.active_item_id), f),
                    false,
                    false,
                ),
                notice("turn/completed"@, turn_done(b, turn, "interrupted"@, f), true, false),
            ],
        ),
    }
}

/// What the client is asked to approve.
pub open spec fn approval_params(b: BridgeV, data: JsonV, f: FreshV) -> JsonV {
    let tool = data.str_or("tool_name"@, ""@);
    JsonV::Obj(
        map![
            "threadId"@ => jstr(b.thread_id),
            "turnId"@ => jstr(or_empty(b.active_turn_id)),
            "itemId"@ => jstr(
                match b.active_tool_item_id {
                    Some(tool) => tool,
                    None => or_empty(b.active_item_id),
                },
            ),
            "startedAtMs"@ => jint(f.millis),
            "command"@ => jstr(
                match input_at(data, "command"@) {
                    Some(command) => command,
                    None => tool,
                },
            ),
            "reason"@ => jopt(input_at(data, "reason"@)),
        ],
    )
}

/// The wicket asks for approval: the client is asked, under a number that no request had before.
pub open spec fn approval_asked(b: BridgeV, data: JsonV, f: FreshV) -> (BridgeV, Seq<OutV>) {
    (
        BridgeV {
            next_server_request_id: b.next_server_request_id + 1,
            pending_approval_request_id: Some(b.next_server_request_id as i64),
            ..b
        },
        seq![
            OutV::Frame {
                frame: FrameV::Request {
                    id: b.next_server_request_id,
                    method: "item/commandExecution/requestApproval"@,
                    params: approval_params(b, data, f),
                },
                logged: true,
                required: false,
            },
        ],
    )
}

/// What an event of the wicket leads to.
pub open spec fn event_taken(b: BridgeV, event: WicketEventV, f: FreshV) -> (BridgeV, Seq<OutV>) {
    match event {
        WicketEventV::Delta(data) => {
            let (after, outs) = delta_taken(b, data, f);
            (after, seq![wicket_log("delta"@, data)] + outs)
        },
        WicketEventV::Entry { data, .. } => (b, seq![wicket_log("entry"@, data)]),
        WicketEventV::ToolStart(data) => (b, seq![wicket_log("tool_start"@, data)]),
        WicketEventV::ToolDone(data) => {
            let (after, outs) = tool_done(b, data, f);
            (after, seq![wicket_log("tool_done"@, data)] + outs)
        },
        WicketEventV::ShellResult(data) => {
            let (after, outs) = shell_done(b, data, f);
            (after, seq![wicket_log("shell_result"@, data)] + outs)
        },
        WicketEventV::Usage(usage) => (
            b,
            seq![
                wicket_log("usage"@, usage),
                notice(
                    "thread/tokenUsage/updated"@,
                    usage_params(b.thread_id, or_empty(b.active_turn_id), usage),
                    false,
                    false,
                ),
            ],
        ),
        WicketEventV::Turn(data) => if data.str_or("event"@, ""@) == "started"@ {
            turn_begun(b, data, f)
        } else {
            (b, Seq::empty())
        },
        WicketEventV::Lifecycle(name) => if name == "round_interrupted"@ {
            round_interrupted(b, f)
        } else {
            (b, Seq::empty())
        },
        WicketEventV::Approval(data) => {
            let (after, outs) = approval_asked(b, data, f);
            (after, seq![wicket_log("approval"@, data)] + outs)
        },
        WicketEventV::UserMessage { .. } => (b, Seq::empty()),
        WicketEventV::HistoryTerminate { .. } => (b, Seq::empty()),
        WicketEventV::Meta(_) => (b, Seq::empty()),
        WicketEventV::Error(_) => (b, Seq::empty()),
    }
}

/// The numbers that an event leads to can be held.
pub open spec fn event_fits(b: BridgeV, event: WicketEventV) -> bool {
    match event {
        WicketEventV::Usage(usage) => usage_fits(usage),
        WicketEventV::Approval(_) => b.next_server_request_id < i64::MAX,
        _ => true,
    }
}

fn exit_code_json(code: Option<i64>) -> (out: Json)
    ensures
        out@ == exit_json(code),
{
    match code {
        Some(code) => Json::integer(code),
        None => Json::Null,
    }
}

fn status_of(code: Option<i64>) -> (out: &'static str)
    ensures
        out@ == exit_status(code),
{
    match code {
        Some(0) => "completed",
        _ => "failed",
    }
}

fn done_item(id: &str, source: &str, cwd: &str, data: &Json) -> (out: Json)
    ensures
        out@ == command_item(id@, done_command(source@, cwd@, data@)),
{
    let code = data.i64_at("exit_code");
    command_item_json(
        id,
        Command {
            command: "",
            cwd,
            source,
            status: status_of(code),
            output: Json::string(data.str_or("output", "")),
            exit_code: exit_code_json(code),
        },
    )
}

fn input_of<'a>(data: &'a Json, key: &str) -> (out: Option<&'a str>)
    ensures
        opt_str(out) == input_at(data@, key@),
{
    match data.get("input") {
        Some(input) => input.str_at(key),
        None => None,
    }
}

impl Bridge {
    fn on_tool_done(&mut self, data: &Json, f: &Fresh) -> (outs: Vec<Out>)
        ensures
            (final(self)@, outs_view(outs@)) == tool_done(old(self)@, data@, f@),
    {
        let mut outs = nothing();
        let mut active: Option<String> = None;
        std::mem::swap(&mut active, &mut self.active_tool_item_id);
        if let Some(tool) = active {
            let turn = text_or(&self.active_turn_id);
            if holds(&self.completed_tool_name, "view_image") {
                add_out(
                    &mut outs,
                    notice_out(
                        "item/completed",
                        item_params_json(
                            self.thread_id.as_str(),
                            turn,
                            "completedAtMs",
                            f.millis,
                            image_item_json(tool.as_str(), text_or(&self.completed_tool_path)),
                        ),
                        true,
                        true,
                    ),
                );
                self.completed_tool_path = None;
            } else {
                let output = data.str_or("output", "");
                add_out(
                    &mut outs,
                    notice_out(
                        "item/commandExecution/delta",
                        delta_params_json(self.thread_id.as_str(), turn, tool.as_str(), output),
                        false,
                        true,
                    ),
                );
                let item = done_item(tool.as_str(), "agent", self.cwd.as_str(), data);
                add_out(
                    &mut outs,
                    notice_out(
                        "item/completed",
                        item_params_json(
                            self.thread_id.as_str(),
                            turn,
                            "completedAtMs",
                            f.millis,
                            item,
                        ),
                        true,
                        true,
                    ),
                );
            }
            self.completed_tool_name = None;
        }
        outs
    }

    fn on_shell_result(&mut self, data: &Json, f: &Fresh) -> (outs: Vec<Out>)
        ensures
            (final(self)@, outs_view(outs@)) == shell_done(old(self)@, data@, f@),
    {
        let mut outs = nothing();
        let mut pending: Option<PendingShell> = None;
        std::mem::swap(&mut pending, &mut self.pending_shell);
        if let Some(shell) = pending {
            let output = data.str_or("output", "");
            let status = status_of(data.i64_at("exit_code"));
            let turn = shell.turn_id.as_str();
            let thread = self.thread_id.as_str();
            if !output.is_empty() {
                add_out(
                    &mut outs,
                    notice_out(
                        "item/commandExecution/outputDelta",
                        delta_params_json(thread, turn, shell.item_id.as_str(), output),
                        false,
                        true,
                    ),
                );
            }
            let item = done_item(shell.item_id.as_str(), "userShell", self.cwd.as_str(), data);
            add_out(
                &mut outs,
                notice_out(
                    "item/completed",
                    item_params_json(thread, turn, "completedAtMs", f.millis, item),
                    false,
                    true,
                ),
            );
            add_out(
                &mut outs,
                notice_out(
                    "turn/completed",
                    turn_params_json(
                        thread,
                        bare_turn_json(turn, status, f.seconds, Json::integer(f.seconds)),
                    ),
                    false,
                    true,
                ),
            );
        }
        outs
    }

    fn on_turn_started(&mut self, data: &Json, f: &Fresh) -> (outs: Vec<Out>)
        ensures
            (final(self)@, outs_view(outs@)) == turn_begun(old(self)@, data@, f@),
    {
        let mut outs = nothing();
        if self.active_turn_id.is_none() {
            let turn = data.str_or("turn_id", "");
            let message = data.str_or("message", "");
            self.active_turn_id = Some(turn.to_owned());
            self.active_item_id = Some(f.first.clone());
            let mut pending: Option<Json> = None;
            std::mem::swap(&mut pending, &mut self.pending_turn_start_response);
            let user = user_item_json(f.second.as_str(), message);
            let thread = self.thread_id.as_str();
            match pending {
                Some(id) => {
                    let started = Json::object().with("id", Json::string(turn)).with(
                        "items",
                        Json::list_of(user),
                    ).with("itemsView", Json::string("full")).with(
                        "status",
                        Json::string("inProgress"),
                    ).with("startedAt", Json::integer(f.seconds)).with("completedAt", Json::Null);
                    assert(started@ == started_turn(turn@, message@, f@));
                    add_out(&mut outs, response_out(id, Json::object().with("turn", started)));
                },
                None => {
                    add_out(
                        &mut outs,
                        notice_out(
                            "item/completed",
                            item_params_json(thread, turn, "completedAtMs", f.millis, user),
                            true,
                            false,
                        ),
                    );
                },
            }
            add_out(
                &mut outs,
                notice_out(
                    "turn/started",
                    turn_params_json(
                        thread,
                        bare_turn_json(turn, "inProgress", f.seconds, Json::Null),
                    ),
                    true,
                    false,
                ),
            );
            add_out(
                &mut outs,
                notice_out(
                    "item/started",
                    item_params_json(
                        thread,
                        turn,
                        "startedAtMs",
                        f.millis,
                        agent_item_json(f.first.as_str(), ""),
                    ),
                    false,
                    false,
                ),
            );
        }
        outs
    }

    fn on_round_interrupted(&mut self, f: &Fresh) -> (outs: Vec<Out>)
        ensures
            (final(self)@, outs_view(outs@)) == round_interrupted(old(self)@, f@),
    {
        let mut outs = nothing();
        let mut active: Option<String> = None;
        std::mem::swap(&mut active, &mut self.active_turn_id);
        if let Some(turn) = active {
            let mut item: Option<String> = None;
            std::mem::swap(&mut item, &mut self.active_item_id);
            self.active_tool_item_id = None;
            self.active_tool_name = None;
            self.active_reasoning_item_id = None;
            self.in_tool_use = false;
            self.in_thinking = false;
            self.turn_interrupted = false;
            let thread = self.thread_id.as_str();
            add_out(
                &mut outs,
                notice_out(
                    "item/completed",
                    item_params_json(
                        thread,
                        turn.as_str(),
                        "completedAtMs",
                        f.millis,
                        agent_item_json(text_or(&item), ""),
                    ),
                    false,
                    false,
                ),
            );
            add_out(
                &mut outs,
                notice_out(
                    "turn/completed",
                    turn_params_json(
                        thread,
                        bare_turn_json(
                            turn.as_str(),
                            "interrupted",
                            f.seconds,
                            Json::integer(f.seconds),
                        ),
                    ),
                    true,
                    false,
                ),
            );
        }
        outs
    }

    fn on_approval(&mut self, data: &Json, f: &Fresh) -> (outs: Vec<Out>)
        requires
            old(self).next_server_request_id < i64::MAX,
        ensures
            (final(self)@, outs_view(outs@)) == approval_asked(old(self)@, data@, f@),
    {
        let mut outs = nothing();
        let tool_name = data.str_or("tool_name", "");
        let command = match input_of(data, "command") {
            Some(command) => command,
            None => tool_name,
        };
        let id = self.next_server_request_id;
        self.next_server_request_id = id + 1;
        self.pending_approval_request_id = Some(id);
        let item = match &self.active_tool_item_id {
            Some(tool) => tool.as_str(),
            None => text_or(&self.active_item_id),
        };
        let params = Json::object().with("threadId", Json::string(self.thread_id.as_str())).with(
            "turnId",
            Json::string(text_or(&self.active_turn_id)),
        ).with("itemId", Json::string(item)).with("startedAtMs", Json::integer(f.millis)).with(
            "command",
            Json::string(command),
        ).with("reason", Json::opt(input_of(data, "reason")));
        assert(params@ == approval_params(old(self)@, data@, f@));
        add_out(
            &mut outs,
            Out::Frame {
                frame: Frame::Request {
                    id,
                    method: "item/commandExecution/requestApproval".to_owned(),
                    params,
                },
                logged: true,
                required: false,
            },
        );
        outs
    }

    /// Whether the numbers that an event leads to can be held.
    pub fn can_take(&self, event: &WicketEvent) -> (out: bool)
        ensures
            out == event_fits(self@, event@),
    {
        match event {
            WicketEvent::Usage(usage) => crate::frame::can_total(usage),
            WicketEvent::Approval(_) => self.next_server_request_id < i64::MAX,
            _ => true,
        }
    }

    /// Takes an event of the wicket.
    pub fn on_event_with(&mut self, event: &WicketEvent, f: &Fresh) -> (outs: Vec<Out>)
        requires
            event_fits(old(self)@, event@),
        ensures
            (final(self)@, outs_view(outs@)) == event_taken(old(self)@, event@, f@),
    {
        let mut outs = nothing();
        match event {
            WicketEvent::Delta(data) => {
                add_out(&mut outs, wicket_log_out("delta", data));
                let more = self.on_delta(data, f);
                add_outs(&mut outs, more);
            },
            WicketEvent::Entry { data, .. } => {
                add_out(&mut outs, wicket_log_out("entry", data));
            },
            WicketEvent::ToolStart(data) => {
                add_out(&mut outs, wicket_log_out("tool_start", data));
            },
            WicketEvent::ToolDone(data) => {
                add_out(&mut outs, wicket_log_out("tool_done", data));
                let more = self.on_tool_done(data, f);
                add_outs(&mut outs, more);
            },
            WicketEvent::ShellResult(data) => {
                add_out(&mut outs, wicket_log_out("shell_result", data));
                let more = self.on_shell_result(data, f);
                add_outs(&mut outs, more);
            },
            WicketEvent::Usage(usage) => {
                add_out(&mut outs, wicket_log_out("usage", usage));
                let params = usage_params_json(
                    self.thread_id.as_str(),
                    text_or(&self.active_turn_id),
                    usage,
                );
                add_out(&mut outs, notice_out("thread/tokenUsage/updated", params, false, false));
            },
            WicketEvent::Turn(data) => {
                if same(data.str_or("event", ""), "started") {
                    outs = self.on_turn_started(data, f);
                }
            },
            WicketEvent::Lifecycle(name) => {
                if same(name.as_str(), "round_interrupted") {
                    outs = self.on_round_interrupted(f);
                }
            },
            WicketEvent::Approval(data) => {
                add_out(&mut outs, wicket_log_out("approval", data));
                let more = self.on_approval(data, f);
                add_outs(&mut outs, more);
            },
            _ => {},
        }
        outs
    }
}

// ---------------------------------------------------------------------------
// Messages of the client

/// A message of the client: a request has a method and an id, a notice a method alone, and an
/// answer a result.
#[derive(Debug)]
pub struct RpcMessage {
    pub id: Option<Json>,
    pub method: Option<String>,
    pub params: Option<Json>,
    pub result: Option<Json>,
}

pub struct RpcMessageV {
    pub id: Option<JsonV>,
    pub method: Option<Seq<char>>,
    pub params: Option<JsonV>,
    pub result: Option<JsonV>,
}

impl View for RpcMessage {
    type V = RpcMessageV;

    open spec fn view(&self) -> RpcMessageV {
        RpcMessageV {
            id: opt_view(self.id),
            method: opt_text(self.method),
            params: opt_view(self.params),
            result: opt_view(self.result),
        }
    }
}

pub open spec fn opt_rpc(m: Option<RpcMessage>) -> Option<RpcMessageV> {
    match m {
        Some(m) => Some(m@),
        None => None,
    }
}

pub open spec fn accepts(decision: Seq<char>) -> bool {
    decision == "accept"@ || decision == "acceptForSession"@ || decision
        == "acceptWithExecpolicyAmendment"@
}

/// The client answers a question for approval. An answer to anything else is passed over.
pub open spec fn answered(b: BridgeV, id: Option<JsonV>, result: JsonV) -> (BridgeV, Seq<OutV>) {
    match b.pending_approval_request_id {
        Some(pending) if id == Some(jint(pending as int)) => {
            let allow = accepts(result.str_or("decision"@, "decline"@));
            (
                BridgeV { pending_approval_request_id: None, ..b },
                seq![
                    OutV::Envelope {
                        stream: "approval"@,
                        data: verdict(allow, Some("User denied"@), "denied"@),
                    },
                ],
            )
        },
        _ => (b, Seq::empty()),
    }
}

pub open spec fn initialize_result() -> JsonV {
    JsonV::Obj(
        map![
            "protocolVersion"@ => jstr("2.0"@),
            "serverInfo"@ => JsonV::Obj(
                map!["name"@ => jstr("puzzle"@), "version"@ => jstr("0.1.0"@)],
            ),
            "capabilities"@ => JsonV::Obj(Map::empty()),
        ],
    )
}

pub open spec fn account_result() -> JsonV {
    JsonV::Obj(
        map![
            "account"@ => JsonV::Obj(map!["type"@ => jstr("apiKey"@)]),
            "requiresOpenaiAuth"@ => JsonV::Bool(false),
        ],
    )
}

pub open spec fn model_json(model: ModelV) -> JsonV {
    JsonV::Obj(
        map![
            "id"@ => jstr(model.id),
            "model"@ => jstr(model.id),
            "displayName"@ => jstr(model.display_name),
            "description"@ => jstr(model.description),
            "hidden"@ => JsonV::Bool(false),
            "supportedReasoningEfforts"@ => JsonV::Arr(
                seq![
                    JsonV::Obj(
                        map![
                            "reasoningEffort"@ => jstr("high"@),
                            "description"@ => jstr("High"@),
                        ],
                    ),
                ],
            ),
            "defaultReasoningEffort"@ => jstr("high"@),
            "inputModalities"@ => JsonV::Arr(seq![jstr("text"@), jstr("image"@)]),
            "supportsPersonality"@ => JsonV::Bool(false),
            "serviceTiers"@ => JsonV::Arr(Seq::empty()),
            "isDefault"@ => JsonV::Bool(true),
        ],
    )
}

pub open spec fn models_result(model: ModelV) -> JsonV {
    JsonV::Obj(map!["data"@ => JsonV::Arr(seq![model_json(model)]), "nextCursor"@ => JsonV::Null])
}

pub open spec fn thread_json(b: BridgeV, f: FreshV) -> JsonV {
    JsonV::Obj(
        map![
            "id"@ => jstr(b.thread_id),
            "sessionId"@ => jstr(f.first),
            "preview"@ => jstr(""@),
            "ephemeral"@ => JsonV::Bool(false),
            "modelProvider"@ => jstr("anthropic"@),
            "createdAt"@ => jint(0),
            "updatedAt"@ => jint(0),
            "status"@ => JsonV::Obj(map!["type"@ => jstr("idle"@)]),
            "cwd"@ => jstr(b.cwd),
            "cliVersion"@ => jstr("0.1.0"@),
            "source"@ => jstr("cli"@),
            "turns"@ => JsonV::Arr(past_turns(b.history, b.home, f.ids)),
        ],
    )
}

/// The thread with its turns so far.
pub open spec fn thread_result(b: BridgeV, f: FreshV) -> JsonV {
    JsonV::Obj(
        map![
            "thread"@ => thread_json(b, f),
            "model"@ => jstr(b.model.id),
            "modelProvider"@ => jstr("anthropic"@),
            "cwd"@ => jstr(b.cwd),
            "approvalPolicy"@ => jstr("on-failure"@),
            "approvalsReviewer"@ => jstr("user"@),
            "sandbox"@ => JsonV::Obj(map!["type"@ => jstr("dangerFullAccess"@)]),
            "instructionSources"@ => JsonV::Arr(Seq::empty()),
        ],
    )
}

pub open spec fn empty_object() -> JsonV {
    JsonV::Obj(Map::empty())
}

/// What the user wrote: the first item of the input that is a text.
pub open spec fn first_text(items: Seq<JsonV>) -> Option<Seq<char>>
    decreases items.len(),
{
    if items.len() == 0 {
        None
    } else if has_type(items[0], "text"@) && items[0].str_at("text"@) is Some {
        items[0].str_at("text"@)
    } else {
        first_text(items.skip(1))
    }
}

pub open spec fn message_of(params: JsonV) -> Seq<char> {
    match params.arr_at("input"@) {
        Some(items) => or_empty(first_text(items)),
        None => Seq::empty(),
    }
}

pub open spec fn said(message: Seq<char>) -> JsonV {
    JsonV::Obj(map!["message"@ => jstr(message)])
}

pub open spec fn message_out(stream: Seq<char>, message: Seq<char>) -> Seq<OutV> {
    if message.len() > 0 {
        seq![OutV::Envelope { stream, data: said(message) }]
    } else {
        Seq::empty()
    }
}

/// The thread is asked for: it is sent, and the tokens that were used before.
pub open spec fn thread_asked(b: BridgeV, id: JsonV, f: FreshV) -> Seq<OutV> {
    let sent = seq![response(id, thread_result(b, f))];
    match b.initial_usage {
        Some(usage) => sent.push(
            notice(
                "thread/tokenUsage/updated"@,
                usage_params(b.thread_id, ""@, usage),
                false,
                false,
            ),
        ),
        None => sent,
    }
}

/// The client gives a command of its own: a turn is made for it and the wicket runs it.
pub open spec fn shell_asked(b: BridgeV, id: JsonV, params: JsonV, f: FreshV) -> (
    BridgeV,
    Seq<OutV>,
) {
    let command = params.str_or("command"@, ""@);
    (
        BridgeV { pending_shell: Some((f.first, f.second)), ..b },
        seq![
            response(id, empty_object()),
            notice(
                "turn/started"@,
                turn_params(
                    b.thread_id,
                    bare_turn(f.first, "inProgress"@, f.seconds, JsonV::Null),
                ),
                true,
                true,
            ),
            notice(
                "item/started"@,
                item_params(
                    b.thread_id,
                    f.first,
                    "startedAtMs"@,
                    f.millis,
                    command_item(
                        f.second,
                        CommandV {
                            command,
                            cwd: b.cwd,
                            source: "userShell"@,
                            status: "inProgress"@,
                            output: JsonV::Null,
                            exit_code: JsonV::Null,
                        },
                    ),
                ),
                true,
                true,
            ),
            OutV::Envelope {
                stream: "shell"@,
                data: JsonV::Obj(
                    map![
                        "command"@ => jstr(command),
                        "turn_id"@ => jstr(f.first),
                        "item_id"@ => jstr(f.second),
                    ],
                ),
            },
        ],
    )
}

/// The client adds to a turn. It has to be on, and the one that the client takes it to be.
pub open spec fn steered(b: BridgeV, id: JsonV, params: JsonV) -> Seq<OutV> {
    let expected = params.str_at("expectedTurnId"@);
    match b.active_turn_id {
        None => seq![failure(id, -32000, "no active turn to steer"@)],
        Some(turn) => if expected is Some && expected != Some(turn) {
            seq![
                failure(
                    id,
                    -32000,
                    "expected active turn id `"@ + expected->Some_0 + "` but found `"@ + turn
                        + "`"@,
                ),
            ]
        } else {
            message_out("steer"@, message_of(params)).push(
                response(id, JsonV::Obj(map!["turnId"@ => jstr(turn)])),
            )
        },
    }
}

/// What a request of the client leads to.
pub open spec fn request_taken(
    b: BridgeV,
    id: JsonV,
    method: Seq<char>,
    params: JsonV,
    f: FreshV,
) -> (BridgeV, Seq<OutV>) {
    if method == "initialize"@ {
        (b, seq![response(id, initialize_result())])
    } else if method == "account/read"@ {
        (b, seq![response(id, account_result())])
    } else if method == "model/list"@ {
        (b, seq![response(id, models_result(b.model))])
    } else if method == "thread/start"@ || method == "thread/resume"@ {
        (b, thread_asked(b, id, f))
    } else if method == "skills/list"@ || method == "hooks/list"@ || method == "plugin/list"@ {
        (b, seq![response(id, JsonV::Obj(map!["data"@ => JsonV::Arr(Seq::empty())]))])
    } else if method == "thread/unsubscribe"@ {
        (b, seq![response(id, empty_object())])
    } else if method == "turn/interrupt"@ {
        (
            BridgeV { turn_interrupted: true, ..b },
            seq![
                OutV::Envelope { stream: "interrupt"@, data: empty_object() },
                response(id, empty_object()),
            ],
        )
    } else if method == "thread/shellCommand"@ {
        shell_asked(b, id, params, f)
    } else if method == "turn/start"@ {
        (
            BridgeV { pending_turn_start_response: Some(id), ..b },
            message_out("turn"@, message_of(params)),
        )
    } else if method == "turn/steer"@ {
        (b, steered(b, id, params))
    } else {
        (b, seq![failure(id, -32601, "not implemented: "@ + method)])
    }
}

/// What a message of the client leads to: an answer, a notice, which is passed over, or a
/// request.
pub open spec fn message_taken(b: BridgeV, rpc: RpcMessageV, f: FreshV) -> (BridgeV, Seq<OutV>) {
    if rpc.method is None && rpc.result is Some {
        answered(b, rpc.id, rpc.result->Some_0)
    } else {
        match rpc.id {
            Some(id) => request_taken(b, id, or_empty(rpc.method), or_null(rpc.params), f),
            None => (b, Seq::empty()),
        }
    }
}

/// What a text from the client leads to. It is logged where it is JSON at all, and taken where it
/// is a message, which `rpc` then holds.
pub open spec fn text_taken(b: BridgeV, text: Seq<char>, rpc: Option<RpcMessageV>, f: FreshV) -> (
    BridgeV,
    Seq<OutV>,
) {
    let logged = match parsed(text) {
        Some(raw) => seq![OutV::Log { dir: "tui>puzzle"@, data: raw }],
        None => Seq::<OutV>::empty(),
    };
    match rpc {
        Some(rpc) => {
            let (after, outs) = message_taken(b, rpc, f);
            (after, logged + outs)
        },
        None => (b, logged),
    }
}

/// The sum over the tokens used before can be held.
pub open spec fn history_fits(b: BridgeV) -> bool {
    b.initial_usage matches Some(usage) ==> usage_fits(usage)
}

fn is_id(id: &Option<Json>, n: i64) -> (out: bool)
    ensures
        out == (opt_view(*id) == Some(jint(n as int))),
{
    match id {
        Some(id) => match id.as_i64() {
            Some(i) => i == n,
            None => false,
        },
        None => false,
    }
}

fn written(params: &Json) -> (out: String)
    ensures
        out@ == message_of(params@),
{
    match params.array_at("input") {
        Some(items) => {
            proof {
                lemma_items_view(items@);
            }
            let ghost all = items_view(items@);
            let mut i: usize = 0;
            assert(all.skip(0) =~= all);
            while i < items.len()
                invariant
                    i <= items.len(),
                    all.len() == items@.len(),
                    forall|j: int| 0 <= j < items.len() ==> #[trigger] all[j] == items@[j]@,
                    first_text(all) == first_text(all.skip(i as int)),
                    message_of(params@) == or_empty(first_text(all)),
                decreases items.len() - i,
            {
                assert(all.skip(i as int)[0] == items@[i as int]@);
                assert(all.skip(i as int).skip(1) =~= all.skip(i + 1));
                let is_text = match items[i].str_at("type") {
                    Some(t) => same(t, "text"),
                    None => false,
                };
                if is_text {
                    if let Some(text) = items[i].str_at("text") {
                        return text.to_owned();
                    }
                }
                i += 1;
            }
            assert(first_text(all.skip(i as int)) is None);
            String::new()
        },
        None => String::new(),
    }
}

fn model_value(model: &Model) -> (out: Json)
    ensures
        out@ == model_json(model@),
{
    let effort = Json::object().with("reasoningEffort", Json::string("high")).with(
        "description",
        Json::string("High"),
    );
    let ghost shown = JsonV::Obj(
        map!["reasoningEffort"@ => jstr("high"@), "description"@ => jstr("High"@)],
    );
    assert(effort@ == shown);
    let mut modes: Vec<Json> = Vec::new();
    let text = Json::string("text");
    let image = Json::string("image");
    proof {
        lemma_items_push(modes@, text);
        lemma_items_push(modes@.push(text), image);
    }
    modes.push(text);
    modes.push(image);
    assert(items_view(modes@) == seq![jstr("text"@), jstr("image"@)]);
    Json::object().with("id", Json::string(model.id.as_str())).with(
        "model",
        Json::string(model.id.as_str()),
    ).with("displayName", Json::string(model.display_name.as_str())).with(
        "description",
        Json::string(model.description.as_str()),
    ).with("hidden", Json::Bool(false)).with("supportedReasoningEfforts", Json::list_of(effort)).with(
        "defaultReasoningEffort",
        Json::string("high"),
    ).with("inputModalities", Json::Array(modes)).with("supportsPersonality", Json::Bool(false)).with(
        "serviceTiers",
        Json::empty_list(),
    ).with("isDefault", Json::Bool(true))
}

fn initialize_value() -> (out: Json)
    ensures
        out@ == initialize_result(),
{
    let server = Json::object().with("name", Json::string("puzzle")).with(
        "version",
        Json::string("0.1.0"),
    );
    assert(server@ == JsonV::Obj(map!["name"@ => jstr("puzzle"@), "version"@ => jstr("0.1.0"@)]));
    Json::object().with("protocolVersion", Json::string("2.0")).with("serverInfo", server).with(
        "capabilities",
        Json::object(),
    )
}

fn account_value() -> (out: Json)
    ensures
        out@ == account_result(),
{
    let account = Json::object().with("type", Json::string("apiKey"));
    assert(account@ == JsonV::Obj(map!["type"@ => jstr("apiKey"@)]));
    Json::object().with("account", account).with("requiresOpenaiAuth", Json::Bool(false))
}

impl Bridge {
    fn thread_value(&self, f: &Fresh) -> (out: Json)
        requires
            f.ids@.len() > 2 * self.history@.len(),
        ensures
            out@ == thread_result(self@, f@),
    {
        let idle = Json::object().with("type", Json::string("idle"));
        assert(idle@ == JsonV::Obj(map!["type"@ => jstr("idle"@)]));
        let sandbox = Json::object().with("type", Json::string("dangerFullAccess"));
        assert(sandbox@ == JsonV::Obj(map!["type"@ => jstr("dangerFullAccess"@)]));
        let turns = turns_with_ids(&self.history, self.home.as_str(), &f.ids);
        let thread = Json::object().with("id", Json::string(self.thread_id.as_str())).with(
            "sessionId",
            Json::string(f.first.as_str()),
        ).with("preview", Json::string("")).with("ephemeral", Json::Bool(false)).with(
            "modelProvider",
            Json::string("anthropic"),
        ).with("createdAt", Json::integer(0)).with("updatedAt", Json::integer(0)).with(
            "status",
            idle,
        ).with("cwd", Json::string(self.cwd.as_str())).with("cliVersion", Json::string("0.1.0")).with(
            "source",
            Json::string("cli"),
        ).with("turns", Json::Array(turns));
        assert(thread@ == thread_json(self@, f@));
        Json::object().with("thread", thread).with("model", Json::string(self.model.id.as_str())).with(
            "modelProvider",
            Json::string("anthropic"),
        ).with("cwd", Json::string(self.cwd.as_str())).with(
            "approvalPolicy",
            Json::string("on-failure"),
        ).with("approvalsReviewer", Json::string("user")).with("sandbox", sandbox).with(
            "instructionSources",
            Json::empty_list(),
        )
    }

    fn on_thread(&self, id: Json, f: &Fresh) -> (outs: Vec<Out>)
        requires
            f.ids@.len() > 2 * self.history@.len(),
            history_fits(self@),
        ensures
            outs_view(outs@) == thread_asked(self@, id@, f@),
    {
        let mut outs = nothing();
        add_out(&mut outs, response_out(id, self.thread_value(f)));
        if let Some(usage) = &self.initial_usage {
            let params = usage_params_json(self.thread_id.as_str(), "", usage);
            add_out(&mut outs, notice_out("thread/tokenUsage/updated", params, false, false));
        }
        outs
    }

    fn on_shell(&mut self, id: Json, params: &Json, f: &Fresh) -> (outs: Vec<Out>)
        ensures
            (final(self)@, outs_view(outs@)) == shell_asked(old(self)@, id@, params@, f@),
    {
        let mut outs = nothing();
        let command = params.str_or("command", "");
        let turn = f.first.as_str();
        let thread = self.thread_id.as_str();
        add_out(&mut outs, response_out(id, Json::object()));
        add_out(
            &mut outs,
            notice_out(
                "turn/started",
                turn_params_json(
                    thread,
                    bare_turn_json(turn, "inProgress", f.seconds, Json::Null),
                ),
                true,
                true,
            ),
        );
        let item = command_item_json(
            f.second.as_str(),
            Command {
                command,
                cwd: self.cwd.as_str(),
                source: "userShell",
                status: "inProgress",
                output: Json::Null,
                exit_code: Json::Null,
            },
        );
        add_out(
            &mut outs,
            notice_out(
                "item/started",
                item_params_json(thread, turn, "startedAtMs", f.millis, item),
                true,
                true,
            ),
        );
        let data = Json::object().with("command", Json::string(command)).with(
            "turn_id",
            Json::string(turn),
        ).with("item_id", Json::string(f.second.as_str()));
        assert(data@ == JsonV::Obj(
            map![
                "command"@ => jstr(command@),
                "turn_id"@ => jstr(turn@),
                "item_id"@ => jstr(f.second@),
            ],
        ));
        add_out(&mut outs, Out::Envelope { stream: "shell".to_owned(), data });
        self.pending_shell = Some(
            PendingShell { turn_id: f.first.clone(), item_id: f.second.clone() },
        );
        outs
    }

    fn on_steer(&self, id: Json, params: &Json) -> (outs: Vec<Out>)
        ensures
            outs_view(outs@) == steered(self@, id@, params@),
    {
        let mut outs = nothing();
        match &self.active_turn_id {
            None => {
                add_out(&mut outs, failure_out(id, -32000, "no active turn to steer".to_owned()));
            },
            Some(turn) => {
                if let Some(expected) = params.str_at("expectedTurnId") {
                    if !same(expected, turn.as_str()) {
                        let mut message = cat("expected active turn id `", expected);
                        message.append("` but found `");
                        message.append(turn.as_str());
                        message.append("`");
                        add_out(&mut outs, failure_out(id, -32000, message));
                        return outs;
                    }
                }
                outs = message_outs("steer", params);
                let result = Json::object().with("turnId", Json::string(turn.as_str()));
                add_out(&mut outs, response_out(id, result));
            },
        }
        outs
    }

    fn on_request(&mut self, id: Json, method: &str, params: &Json, f: &Fresh) -> (outs: Vec<Out>)
        requires
            f.ids@.len() > 2 * old(self).history@.len(),
            history_fits(old(self)@),
        ensures
            (final(self)@, outs_view(outs@)) == request_taken(
                old(self)@,
                id@,
                method@,
                params@,
                f@,
            ),
    {
        let mut outs = nothing();
        if same(method, "initialize") {
            add_out(&mut outs, response_out(id, initialize_value()));
        } else if same(method, "account/read") {
            add_out(&mut outs, response_out(id, account_value()));
        } else if same(method, "model/list") {
            let result = Json::object().with("data", Json::list_of(model_value(&self.model))).with(
                "nextCursor",
                Json::Null,
            );
            assert(result@ == models_result(self@.model));
            add_out(&mut outs, response_out(id, result));
        } else if same(method, "thread/start") || same(method, "thread/resume") {
            outs = self.on_thread(id, f);
        } else if same(method, "skills/list") || same(method, "hooks/list") || same(
            method,
            "plugin/list",
        ) {
            let result = Json::object().with("data", Json::empty_list());
            add_out(&mut outs, response_out(id, result));
        } else if same(method, "thread/unsubscribe") {
            add_out(&mut outs, response_out(id, Json::object()));
        } else if same(method, "turn/interrupt") {
            self.turn_interrupted = true;
            add_out(
                &mut outs,
                Out::Envelope { stream: "interrupt".to_owned(), data: Json::object() },
            );
            add_out(&mut outs, response_out(id, Json::object()));
        } else if same(method, "thread/shellCommand") {
            outs = self.on_shell(id, params, f);
        } else if same(method, "turn/start") {
            outs = message_outs("turn", params);
            self.pending_turn_start_response = Some(id);
        } else if same(method, "turn/steer") {
            outs = self.on_steer(id, params);
        } else {
            add_out(&mut outs, failure_out(id, -32601, cat("not implemented: ", method)));
        }
        outs
    }

    fn on_answer(&mut self, id: &Option<Json>, result: &Json) -> (outs: Vec<Out>)
        ensures
            (final(self)@, outs_view(outs@)) == answered(old(self)@, opt_view(*id), result@),
    {
        let mut outs = nothing();
        if let Some(pending) = self.pending_approval_request_id {
            if is_id(id, pending) {
                let decision = result.str_or("decision", "decline");
                let allow = same(decision, "accept") || same(decision, "acceptForSession") || same(
                    decision,
                    "acceptWithExecpolicyAmendment",
                );
                let data = verdict_json(allow, Some("User denied"), "denied");
                add_out(&mut outs, Out::Envelope { stream: "approval".to_owned(), data });
                self.pending_approval_request_id = None;
            }
        }
        outs
    }

    /// Takes a text from the client; `rpc` is the message that it holds, where it holds one.
    pub fn on_text_with(&mut self, text: &str, rpc: Option<RpcMessage>, f: &Fresh) -> (outs: Vec<
        Out,
    >)
        requires
            f.ids@.len() > 2 * old(self).history@.len(),
            history_fits(old(self)@),
        ensures
            (final(self)@, outs_view(outs@)) == text_taken(old(self)@, text@, opt_rpc(rpc), f@),
    {
        let mut outs = nothing();
        if let Some(raw) = Json::parse(text) {
            add_out(&mut outs, Out::Log { dir: "tui>puzzle".to_owned(), data: raw });
        }
        if let Some(rpc) = rpc {
            let RpcMessage { id, method, params, result } = rpc;
            let more = match (method, result) {
                (None, Some(result)) => self.on_answer(&id, &result),
                (method, _) => match id {
                    Some(id) => {
                        let params = match params {
                            Some(params) => params,
                            None => Json::Null,
                        };
                        self.on_request(id, text_or(&method), &params, f)
                    },
                    None => nothing(),
                },
            };
            add_outs(&mut outs, more);
            assert(outs_view(outs@) =~= text_taken(old(self)@, text@, Some(rpc@), f@).1);
        }
        outs
    }
}

fn message_outs(stream: &str, params: &Json) -> (outs: Vec<Out>)
    ensures
        outs_view(outs@) == message_out(stream@, message_of(params@)),
{
    let mut outs = nothing();
    let message = written(params);
    if !message.as_str().is_empty() {
        let data = Json::object().with("message", Json::string(message.as_str()));
        add_out(&mut outs, Out::Envelope { stream: stream.to_owned(), data });
    }
    outs
}

// ---------------------------------------------------------------------------
// With what is drawn afresh

/// What is drawn as identifiers are identifiers.
pub open spec fn well_drawn(f: FreshV) -> bool {
    crate::fresh::is_id(f.first) && crate::fresh::is_id(f.second) && are_ids(f.ids)
}

fn fresh(entries: usize) -> (out: Fresh)
    ensures
        out.ids@.len() > 2 * entries,
        well_drawn(out@),
{
    Fresh {
        first: new_id(),
        second: new_id(),
        ids: new_ids(entries),
        seconds: now_seconds(),
        millis: now_millis(),
    }
}

impl Bridge {
    /// Takes an event of the wicket, with random identifiers and the time of the day.
    pub fn on_event(&mut self, event: &WicketEvent) -> (outs: Vec<Out>)
        requires
            event_fits(old(self)@, event@),
        ensures
            exists|f: FreshV|
                well_drawn(f) && (final(self)@, outs_view(outs@)) == #[trigger] event_taken(
                    old(self)@,
                    event@,
                    f,
                ),
    {
        let f = fresh(0);
        self.on_event_with(event, &f)
    }

    /// Takes a text from the client, with random identifiers and the time of the day.
    pub fn on_text(&mut self, text: &str, rpc: Option<RpcMessage>) -> (outs: Vec<Out>)
        requires
            history_fits(old(self)@),
        ensures
            exists|f: FreshV|
                f.ids.len() > 2 * old(self).history@.len() && well_drawn(f) && (
                    final(self)@,
                    outs_view(outs@),
                ) == #[trigger] text_taken(old(self)@, text@, opt_rpc(rpc), f),
    {
        let f = fresh(self.history.len());
        assert(f@.ids.len() > 2 * self.history@.len());
        self.on_text_with(text, rpc, &f)
    }
}

// ---------------------------------------------------------------------------
// What holds of the bridge as a whole

/// An answer to the request with the given id.
pub open spec fn answers(out: OutV, id: JsonV) -> bool {
    match out {
        OutV::Frame { frame: FrameV::Response { id: of, .. }, .. } => of == id,
        OutV::Frame { frame: FrameV::Failure { id: of, .. }, .. } => of == id,
        _ => false,
    }
}

pub open spec fn is_answer(out: OutV) -> bool {
    match out {
        OutV::Frame { frame: FrameV::Response { .. }, .. } => true,
        OutV::Frame { frame: FrameV::Failure { .. }, .. } => true,
        _ => false,
    }
}

/// One of the outs answers the request, and none of the others is an answer.
pub open spec fn answered_once(outs: Seq<OutV>, id: JsonV) -> bool {
    exists|i: int|
        #![trigger outs[i]]
        0 <= i < outs.len() && answers(outs[i], id) && forall|j: int|
            0 <= j < outs.len() && j != i ==> !is_answer(#[trigger] outs[j])
}

/// Every request is answered at once, and once, but for a request to start a turn, which is not
/// answered until the turn starts.
pub proof fn request_is_answered_once(
    b: BridgeV,
    id: JsonV,
    method: Seq<char>,
    params: JsonV,
    f: FreshV,
)
    ensures
        method != "turn/start"@ ==> answered_once(request_taken(b, id, method, params, f).1, id),
        method == "turn/start"@ ==> {
            let (after, outs) = request_taken(b, id, method, params, f);
            &&& after.pending_turn_start_response == Some(id)
            &&& forall|j: int| 0 <= j < outs.len() ==> !is_answer(#[trigger] outs[j])
        },
{
    reveal_strlit("initialize");
    reveal_strlit("account/read");
    reveal_strlit("model/list");
    reveal_strlit("thread/start");
    reveal_strlit("thread/resume");
    reveal_strlit("skills/list");
    reveal_strlit("hooks/list");
    reveal_strlit("plugin/list");
    reveal_strlit("thread/unsubscribe");
    reveal_strlit("turn/interrupt");
    reveal_strlit("thread/shellCommand");
    reveal_strlit("turn/start");
    let outs = request_taken(b, id, method, params, f).1;
    if method == "turn/start"@ {
        assert(method.len() == 10);
        assert("initialize"@[0] == 'i');
        assert(method[0] == 't');
    } else if method == "turn/interrupt"@ {
        assert(method.len() == 14);
        assert(answers(outs[1], id));
    } else if method == "turn/steer"@ {
        reveal_strlit("turn/steer");
        assert(method.len() == 10);
        assert("initialize"@[0] == 'i');
        assert("model/list"@[0] == 'm');
        assert("hooks/list"@[0] == 'h');
        assert(method[0] == 't');
        assert(outs == steered(b, id, params));
        assert(answers(outs[outs.len() - 1], id));
    } else {
        assert(answers(outs[0], id));
    }
}

/// A request to start a turn is answered when the wicket starts one, and the wait is then over.
pub proof fn start_is_answered_with_the_turn(b: BridgeV, data: JsonV, f: FreshV)
    requires
        b.active_turn_id is None,
        b.pending_turn_start_response is Some,
    ensures
        answered_once(turn_begun(b, data, f).1, b.pending_turn_start_response->Some_0),
        turn_begun(b, data, f).0.pending_turn_start_response is None,
        turn_begun(b, data, f).0.active_turn_id == Some(data.str_or("turn_id"@, ""@)),
{
    let outs = turn_begun(b, data, f).1;
    assert(answers(outs[0], b.pending_turn_start_response->Some_0));
}

/// While no turn is on a delta is logged and changes nothing.
pub proof fn delta_without_turn_is_only_logged(b: BridgeV, delta: JsonV, f: FreshV)
    requires
        b.active_turn_id is None,
    ensures
        event_taken(b, WicketEventV::Delta(delta), f) == (b, seq![wicket_log("delta"@, delta)]),
{
    assert(seq![wicket_log("delta"@, delta)] + Seq::<OutV>::empty() =~= seq![
        wicket_log("delta"@, delta),
    ]);
}

/// What the bridge was made with never changes, and its own requests are numbered upwards.
pub open spec fn kept(b: BridgeV, after: BridgeV) -> bool {
    &&& after.thread_id == b.thread_id
    &&& after.home == b.home
    &&& after.cwd == b.cwd
    &&& after.history == b.history
    &&& after.initial_usage == b.initial_usage
    &&& after.next_server_request_id >= b.next_server_request_id
}

pub proof fn bridge_keeps_its_thread(
    b: BridgeV,
    event: WicketEventV,
    text: Seq<char>,
    rpc: Option<RpcMessageV>,
    f: FreshV,
)
    ensures
        kept(b, event_taken(b, event, f).0),
        kept(b, text_taken(b, text, rpc, f).0),
{
}

/// An answer to a question for approval counts once: given again, it is passed over.
pub proof fn approval_counts_once(b: BridgeV, id: Option<JsonV>, first: JsonV, second: JsonV)
    ensures
        answered(b, id, first).1.len() > 0 ==> answered(answered(b, id, first).0, id, second) == (
            answered(b, id, first).0,
            Seq::<OutV>::empty(),
        ),
{
}

/// Of two questions for approval only the later one can still be answered.
pub proof fn earlier_approval_is_void(
    b: BridgeV,
    data: JsonV,
    f: FreshV,
    result: JsonV,
    earlier: int,
)
    requires
        0 <= earlier < b.next_server_request_id <= i64::MAX,
    ensures
        ({
            let after = approval_asked(b, data, f).0;
            answered(after, Some(jint(earlier)), result) == (after, Seq::<OutV>::empty())
        }),
{
}

/// A turn that is broken off is reported as interrupted, and nothing of it stays active.
pub proof fn interruption_ends_the_turn(b: BridgeV, f: FreshV)
    requires
        b.active_turn_id is Some,
    ensures
        ({
            let (after, outs) = event_taken(
                b,
                WicketEventV::Lifecycle("round_interrupted"@),
                f,
            );
            &&& after.active_turn_id is None
            &&& after.active_item_id is None
            &&& after.active_tool_item_id is None
            &&& after.active_reasoning_item_id is None
            &&& !after.in_tool_use
            &&& !after.in_thinking
            &&& !after.turn_interrupted
            &&& outs.last() == notice(
                "turn/completed"@,
                turn_done(b, b.active_turn_id->Some_0, "interrupted"@, f),
                true,
                false,
            )
        }),
{
}

} // verus!

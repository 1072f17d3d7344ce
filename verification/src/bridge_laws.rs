//! What holds of the bridge as a whole, read off the messages that go in and out of it.

use vstd::prelude::*;

use crate::bridge::{
    agent_done, answered, approval_params, begun, delta_taken, done_command, event_taken,
    first_text, message_of, message_taken, model_json, plain_done, request_taken, steered,
    text_taken, thread_json, tool_over, turn_done, BridgeV, FreshV, ModelV, RpcMessageV,
};
use crate::chars::{contains, or_empty};
use crate::frame::{
    bare_turn, bare_turn_is_found, changes_are_found, delta_is_found, image_is_found, item_is_found,
    thought_is_found, turn_is_found, FrameV, OutV,
};
use crate::history::{
    agent_item, agent_text_is_found, command_is_found, command_item, file_item, files_are_found,
    past_turns, reasoning_item, thought_text_is_found, user_item, user_text_is_found, CommandV,
};
use crate::json::{jint, parsed, JsonV, NumV};
use crate::patch::patch_changes;
use crate::wicket::WicketEventV;

verus! {

// ---------------------------------------------------------------------------
// Reading what goes out

/// The parameters of a notice of the given method.
pub open spec fn told(out: OutV, method: Seq<char>) -> Option<JsonV> {
    match out {
        OutV::Frame { frame: FrameV::Notice { method: of, params }, .. } => if of == method {
            Some(params)
        } else {
            None
        },
        _ => None,
    }
}

/// Whether the message is put into the log, and whether it has to reach the client.
pub open spec fn goes(out: OutV, into_log: bool, must: bool) -> bool {
    out matches OutV::Frame { logged, required, .. } && logged == into_log && required == must
}

/// The result with which the request is answered.
pub open spec fn result_for(out: OutV, id: JsonV) -> Option<JsonV> {
    match out {
        OutV::Frame { frame: FrameV::Response { id: of, result }, .. } => if of == id {
            Some(result)
        } else {
            None
        },
        _ => None,
    }
}

/// What is put on a stream of the wicket.
pub open spec fn put_on(out: OutV, stream: Seq<char>) -> Option<JsonV> {
    match out {
        OutV::Envelope { stream: of, data } => if of == stream {
            Some(data)
        } else {
            None
        },
        _ => None,
    }
}

/// The parameters belong to the turn.
pub open spec fn belongs(params: JsonV, thread: Seq<char>, turn: Seq<char>) -> bool {
    &&& params.get("threadId"@) == Some(JsonV::Str(thread))
    &&& params.get("turnId"@) == Some(JsonV::Str(turn))
}

/// The notice tells of an item of a turn that has begun, of the given kind.
pub open spec fn tells_begun(
    out: OutV,
    b: BridgeV,
    turn: Seq<char>,
    f: FreshV,
    kind: Seq<char>,
    id: Seq<char>,
) -> bool {
    told(out, "item/started"@) matches Some(params) && belongs(params, b.thread_id, turn)
        && params.get("startedAtMs"@) == Some(JsonV::Num(NumV::Int(f.millis))) && params.within(
        "item"@,
        "type"@,
    ) == Some(JsonV::Str(kind)) && params.within("item"@, "id"@) == Some(JsonV::Str(id))
}

/// The notice tells of an item of a turn that is over, of the given kind.
pub open spec fn tells_over(
    out: OutV,
    b: BridgeV,
    turn: Seq<char>,
    f: FreshV,
    kind: Seq<char>,
    id: Seq<char>,
) -> bool {
    told(out, "item/completed"@) matches Some(params) && belongs(params, b.thread_id, turn)
        && params.get("completedAtMs"@) == Some(JsonV::Num(NumV::Int(f.millis))) && params.within(
        "item"@,
        "type"@,
    ) == Some(JsonV::Str(kind)) && params.within("item"@, "id"@) == Some(JsonV::Str(id))
}

/// A field of the item that the notice tells of.
pub open spec fn item_field(out: OutV, key: Seq<char>) -> Option<JsonV> {
    match out {
        OutV::Frame { frame: FrameV::Notice { params, .. }, .. } => params.within("item"@, key),
        _ => None,
    }
}

/// A field of the turn that the notice tells of.
pub open spec fn turn_field(out: OutV, key: Seq<char>) -> Option<JsonV> {
    match out {
        OutV::Frame { frame: FrameV::Notice { params, .. }, .. } => params.within("turn"@, key),
        _ => None,
    }
}

/// The notice brings more text for an item.
pub open spec fn tells_more(
    out: OutV,
    method: Seq<char>,
    b: BridgeV,
    turn: Seq<char>,
    item: Seq<char>,
    text: Seq<char>,
) -> bool {
    told(out, method) matches Some(params) && belongs(params, b.thread_id, turn) && params.get(
        "itemId"@,
    ) == Some(JsonV::Str(item)) && params.get("delta"@) == Some(JsonV::Str(text))
}

/// The notice tells how a turn of the thread stands.
pub open spec fn tells_turn(
    out: OutV,
    method: Seq<char>,
    b: BridgeV,
    turn: Seq<char>,
    status: Seq<char>,
) -> bool {
    told(out, method) matches Some(params) && params.get("threadId"@) == Some(
        JsonV::Str(b.thread_id),
    ) && params.within("turn"@, "id"@) == Some(JsonV::Str(turn)) && params.within(
        "turn"@,
        "status"@,
    ) == Some(JsonV::Str(status))
}

proof fn lemma_deltas()
    ensures
        "content_block_start"@ != "content_block_delta"@,
        "content_block_start"@ != "content_block_stop"@,
        "content_block_start"@ != "message_delta"@,
        "content_block_start"@ != "message_stop"@,
        "content_block_delta"@ != "content_block_stop"@,
        "content_block_delta"@ != "message_delta"@,
        "content_block_delta"@ != "message_stop"@,
        "content_block_stop"@ != "message_delta"@,
        "content_block_stop"@ != "message_stop"@,
        "message_delta"@ != "message_stop"@,
{
    reveal_strlit("content_block_start");
    reveal_strlit("content_block_delta");
    reveal_strlit("content_block_stop");
    reveal_strlit("message_delta");
    reveal_strlit("message_stop");
    assert("content_block_start"@.len() == 19);
    assert("content_block_delta"@.len() == 19);
    assert("content_block_stop"@.len() == 18);
    assert("message_delta"@.len() == 13);
    assert("message_stop"@.len() == 12);
    assert("content_block_delta"@[14] == 'd');
    assert("content_block_start"@[14] == 's');
}

proof fn lemma_blocks()
    ensures
        "thinking"@ != "tool_use"@,
        "thinking"@ != "text"@,
        "tool_use"@ != "text"@,
{
    reveal_strlit("thinking");
    reveal_strlit("tool_use");
    reveal_strlit("text");
    assert("thinking"@.len() == 8);
    assert("tool_use"@.len() == 8);
    assert("text"@.len() == 4);
    assert("thinking"@[1] == 'h');
    assert("tool_use"@[1] == 'o');
}

proof fn lemma_growths()
    ensures
        "thinking_delta"@ != "input_json_delta"@,
{
    reveal_strlit("thinking_delta");
    reveal_strlit("input_json_delta");
    assert("thinking_delta"@.len() == 14);
    assert("input_json_delta"@.len() == 16);
}

// ---------------------------------------------------------------------------
// The input of a tool

/// A piece of a tool's input comes.
pub open spec fn is_piece(delta: JsonV, piece: Seq<char>) -> bool {
    &&& delta.get("type"@) == Some(JsonV::Str("content_block_delta"@))
    &&& delta.within("delta"@, "type"@) == Some(JsonV::Str("input_json_delta"@))
    &&& delta.within("delta"@, "partial_json"@) == Some(JsonV::Str(piece))
}

/// A tool is about to be used.
pub open spec fn is_tool_start(delta: JsonV, name: Seq<char>) -> bool {
    &&& delta.get("type"@) == Some(JsonV::Str("content_block_start"@))
    &&& delta.within("content_block"@, "type"@) == Some(JsonV::Str("tool_use"@))
    &&& delta.within("content_block"@, "name"@) == Some(JsonV::Str(name))
}

/// A block is over.
pub open spec fn is_stop(delta: JsonV) -> bool {
    delta.get("type"@) == Some(JsonV::Str("content_block_stop"@))
}

/// The pieces, one behind the other.
pub open spec fn joined(pieces: Seq<Seq<char>>) -> Seq<char>
    decreases pieces.len(),
{
    if pieces.len() == 0 {
        Seq::empty()
    } else {
        joined(pieces.drop_last()) + pieces.last()
    }
}

/// The bridge after the deltas have come, one after the other.
pub open spec fn fed(b: BridgeV, deltas: Seq<JsonV>, fresh: Seq<FreshV>) -> BridgeV
    decreases deltas.len(),
{
    if deltas.len() == 0 {
        b
    } else {
        event_taken(
            fed(b, deltas.drop_last(), fresh.drop_last()),
            WicketEventV::Delta(deltas.last()),
            fresh.last(),
        ).0
    }
}

/// What the client is told while the deltas come; the log is not for it.
pub open spec fn shown(b: BridgeV, deltas: Seq<JsonV>, fresh: Seq<FreshV>) -> Seq<OutV>
    decreases deltas.len(),
{
    if deltas.len() == 0 {
        Seq::empty()
    } else {
        shown(b, deltas.drop_last(), fresh.drop_last()) + event_taken(
            fed(b, deltas.drop_last(), fresh.drop_last()),
            WicketEventV::Delta(deltas.last()),
            fresh.last(),
        ).1.skip(1)
    }
}

pub open spec fn are_pieces(deltas: Seq<JsonV>, fresh: Seq<FreshV>, pieces: Seq<Seq<char>>) -> bool {
    &&& deltas.len() == pieces.len()
    &&& fresh.len() == pieces.len()
    &&& forall|i: int| 0 <= i < deltas.len() ==> is_piece(#[trigger] deltas[i], pieces[i])
}

/// The line of the log names the stream and holds the data.
pub open spec fn logs(out: OutV, stream: Seq<char>, data: JsonV) -> bool {
    out matches OutV::Log { dir, data: line } && dir == "wicket>puzzle"@ && line.get("type"@)
        == Some(JsonV::Str(stream)) && line.get("data"@) == Some(data)
}

/// What comes from the wicket on these streams is logged before anything comes of it.
pub proof fn events_are_logged_first(
    b: BridgeV,
    data: JsonV,
    replay_id: Option<Seq<char>>,
    f: FreshV,
)
    ensures
        logs(event_taken(b, WicketEventV::Delta(data), f).1[0], "delta"@, data),
        logs(event_taken(b, WicketEventV::Entry { data, replay_id }, f).1[0], "entry"@, data),
        logs(event_taken(b, WicketEventV::ToolStart(data), f).1[0], "tool_start"@, data),
        logs(event_taken(b, WicketEventV::ToolDone(data), f).1[0], "tool_done"@, data),
        logs(event_taken(b, WicketEventV::ShellResult(data), f).1[0], "shell_result"@, data),
        logs(event_taken(b, WicketEventV::Usage(data), f).1[0], "usage"@, data),
        logs(event_taken(b, WicketEventV::Approval(data), f).1[0], "approval"@, data),
{
    reveal_strlit("type");
    reveal_strlit("data");
    assert("type"@.len() == 4);
    assert("data"@.len() == 4);
    assert("data"@[0] == 'd');
    assert("type"@[0] == 't');
}

/// Entries, the starts of tools, and what is of no concern to the client leave the bridge as it is.
pub proof fn unconcerning_events_pass(
    b: BridgeV,
    data: JsonV,
    text: Seq<char>,
    flag: bool,
    replay_id: Option<Seq<char>>,
    f: FreshV,
)
    ensures
        event_taken(b, WicketEventV::Entry { data, replay_id }, f).0 == b,
        event_taken(b, WicketEventV::Entry { data, replay_id }, f).1.len() == 1,
        event_taken(b, WicketEventV::ToolStart(data), f).0 == b,
        event_taken(b, WicketEventV::ToolStart(data), f).1.len() == 1,
        event_taken(b, WicketEventV::UserMessage { text, notification: flag }, f) == (
            b,
            Seq::<OutV>::empty(),
        ),
        event_taken(b, WicketEventV::HistoryTerminate { replay_id: text }, f) == (
            b,
            Seq::<OutV>::empty(),
        ),
        event_taken(b, WicketEventV::Meta(data), f) == (b, Seq::<OutV>::empty()),
        event_taken(b, WicketEventV::Error(text), f) == (b, Seq::<OutV>::empty()),
{
}

/// The bridge begins with nothing going on, in the directory of its window.
pub proof fn bridge_begins_at_rest(
    thread_id: Seq<char>,
    home: Seq<char>,
    slug: Seq<char>,
    model: ModelV,
    history: Seq<JsonV>,
    usage: Option<JsonV>,
)
    ensures
        ({
            let b = begun(thread_id, home, slug, model, history, usage);
            &&& b.thread_id == thread_id
            &&& b.home == home
            &&& b.cwd == home + "/pane/"@ + slug
            &&& b.model == model
            &&& b.history == history
            &&& b.initial_usage == usage
            &&& b.active_turn_id is None
            &&& b.active_item_id is None
            &&& b.active_tool_item_id is None
            &&& !b.in_tool_use
            &&& !b.in_thinking
            &&& !b.turn_interrupted
            &&& b.pending_shell is None
            &&& b.pending_approval_request_id is None
            &&& b.pending_turn_start_response is None
            &&& b.next_server_request_id == 1000
        }),
{
}

/// The first line for a delta is the one for the log, and it holds the delta.
pub proof fn delta_is_logged_first(b: BridgeV, delta: JsonV, f: FreshV)
    ensures
        ({
            let outs = event_taken(b, WicketEventV::Delta(delta), f).1;
            &&& outs.len() > 0
            &&& outs.skip(1) == delta_taken(b, delta, f).1
            &&& outs[0] matches OutV::Log { dir, data } && dir == "wicket>puzzle"@ && data.get(
                "type"@,
            ) == Some(JsonV::Str("delta"@)) && data.get("data"@) == Some(delta)
        }),
{
    reveal_strlit("type");
    reveal_strlit("data");
    assert("type"@.len() == 4);
    assert("data"@.len() == 4);
    assert("data"@[0] == 'd');
    assert("type"@[0] == 't');
    let outs = event_taken(b, WicketEventV::Delta(delta), f).1;
    assert(outs.skip(1) =~= delta_taken(b, delta, f).1);
}

/// Whatever pieces of a tool's input come, the bridge holds all of them in their order, and
/// nothing else of it changes. Nothing is shown of them.
pub proof fn pieces_are_joined(
    b: BridgeV,
    deltas: Seq<JsonV>,
    fresh: Seq<FreshV>,
    pieces: Seq<Seq<char>>,
)
    requires
        b.active_turn_id is Some,
        b.in_tool_use,
        !b.in_thinking,
        are_pieces(deltas, fresh, pieces),
    ensures
        fed(b, deltas, fresh).tool_input_json == b.tool_input_json + joined(pieces),
        fed(b, deltas, fresh) == (BridgeV {
            tool_input_json: b.tool_input_json + joined(pieces),
            ..b
        }),
        shown(b, deltas, fresh).len() == 0,
    decreases pieces.len(),
{
    if pieces.len() == 0 {
        assert(b.tool_input_json + Seq::<char>::empty() =~= b.tool_input_json);
    } else {
        let n = (pieces.len() - 1) as nat;
        assert forall|i: int| 0 <= i < n implies is_piece(
            #[trigger] deltas.drop_last()[i],
            pieces.drop_last()[i],
        ) by {
            assert(is_piece(deltas[i], pieces[i]));
        }
        pieces_are_joined(b, deltas.drop_last(), fresh.drop_last(), pieces.drop_last());
        assert(is_piece(deltas[n as int], pieces[n as int]));
        lemma_deltas();
        lemma_growths();
        let before = fed(b, deltas.drop_last(), fresh.drop_last());
        delta_is_logged_first(before, deltas.last(), fresh.last());
        assert(b.tool_input_json + (joined(pieces.drop_last()) + pieces.last()) =~= (
        b.tool_input_json + joined(pieces.drop_last())) + pieces.last());
    }
}

/// A tool begins with no input. It is shown, under a new id, only where it runs through the
/// wicket.
pub proof fn tool_begins_with_no_input(b: BridgeV, start: JsonV, name: Seq<char>, f: FreshV)
    requires
        b.active_turn_id is Some,
        is_tool_start(start, name),
    ensures
        ({
            let (after, outs) = event_taken(b, WicketEventV::Delta(start), f);
            &&& outs.len() == 1
            &&& after.in_tool_use
            &&& after.tool_input_json.len() == 0
            &&& after.active_tool_name == Some(name)
            &&& after.active_tool_item_id == if contains(name, "wicket"@) {
                Some(f.first)
            } else {
                b.active_tool_item_id
            }
            &&& after.active_turn_id == b.active_turn_id
            &&& after.active_item_id == b.active_item_id
            &&& after.in_thinking == b.in_thinking
            &&& after.thread_id == b.thread_id
            &&& after.cwd == b.cwd
        }),
{
    lemma_deltas();
    lemma_blocks();
    delta_is_logged_first(b, start, f);
}

/// The bridge when a tool has been named and all pieces of its input have come.
pub open spec fn called(
    b: BridgeV,
    start: JsonV,
    f: FreshV,
    deltas: Seq<JsonV>,
    fresh: Seq<FreshV>,
) -> BridgeV {
    fed(event_taken(b, WicketEventV::Delta(start), f).0, deltas, fresh)
}

/// When a tool's input is complete, the bridge holds the pieces joined and no more.
pub proof fn tool_input_is_the_pieces(
    b: BridgeV,
    start: JsonV,
    name: Seq<char>,
    f: FreshV,
    deltas: Seq<JsonV>,
    fresh: Seq<FreshV>,
    pieces: Seq<Seq<char>>,
)
    requires
        b.active_turn_id is Some,
        !b.in_thinking,
        is_tool_start(start, name),
        are_pieces(deltas, fresh, pieces),
    ensures
        ({
            let held = called(b, start, f, deltas, fresh);
            &&& held.tool_input_json == joined(pieces)
            &&& held.in_tool_use
            &&& held.active_tool_name == Some(name)
            &&& held.active_turn_id == b.active_turn_id
            &&& held.thread_id == b.thread_id
            &&& held.cwd == b.cwd
            &&& !held.in_thinking
            &&& contains(name, "wicket"@) ==> held.active_tool_item_id == Some(f.first)
        }),
{
    tool_begins_with_no_input(b, start, name, f);
    let after = event_taken(b, WicketEventV::Delta(start), f).0;
    pieces_are_joined(after, deltas, fresh, pieces);
    assert(after.tool_input_json + joined(pieces) =~= joined(pieces));
}

/// How the input of a tool is cut into pieces makes no difference to what comes of it.
pub proof fn cuts_make_no_difference(
    b: BridgeV,
    start: JsonV,
    name: Seq<char>,
    f: FreshV,
    deltas: Seq<JsonV>,
    fresh: Seq<FreshV>,
    pieces: Seq<Seq<char>>,
    other_deltas: Seq<JsonV>,
    other_fresh: Seq<FreshV>,
    other_pieces: Seq<Seq<char>>,
    stop: JsonV,
    last: FreshV,
)
    requires
        b.active_turn_id is Some,
        !b.in_thinking,
        is_tool_start(start, name),
        are_pieces(deltas, fresh, pieces),
        are_pieces(other_deltas, other_fresh, other_pieces),
        joined(pieces) == joined(other_pieces),
    ensures
        event_taken(called(b, start, f, deltas, fresh), WicketEventV::Delta(stop), last)
            == event_taken(
            called(b, start, f, other_deltas, other_fresh),
            WicketEventV::Delta(stop),
            last,
        ),
{
    tool_begins_with_no_input(b, start, name, f);
    let after = event_taken(b, WicketEventV::Delta(start), f).0;
    pieces_are_joined(after, deltas, fresh, pieces);
    pieces_are_joined(after, other_deltas, other_fresh, other_pieces);
}

/// The text of a field of what a text holds as JSON.
pub open spec fn field_in(text: Seq<char>, key: Seq<char>) -> Option<Seq<char>> {
    match parsed(text) {
        Some(v) => match v.get(key) {
            Some(JsonV::Str(s)) => Some(s),
            _ => None,
        },
        None => None,
    }
}

/// A command that the model gives is shown as it stands in the whole input, or as the whole input
/// where that names none; it runs, and the bridge waits for its end under the id that it was shown
/// with.
pub proof fn command_is_shown_whole(
    b: BridgeV,
    start: JsonV,
    name: Seq<char>,
    f: FreshV,
    deltas: Seq<JsonV>,
    fresh: Seq<FreshV>,
    pieces: Seq<Seq<char>>,
    stop: JsonV,
    last: FreshV,
)
    requires
        b.active_turn_id is Some,
        !b.in_thinking,
        is_tool_start(start, name),
        contains(name, "wicket"@),
        !contains(name, "view_image"@),
        !contains(name, "apply_patch"@),
        are_pieces(deltas, fresh, pieces),
        is_stop(stop),
    ensures
        ({
            let (after, outs) = event_taken(
                called(b, start, f, deltas, fresh),
                WicketEventV::Delta(stop),
                last,
            );
            let turn = b.active_turn_id->Some_0;
            &&& outs.len() == 2
            &&& tells_begun(outs[1], b, turn, last, "commandExecution"@, f.first)
            &&& goes(outs[1], true, true)
            &&& item_field(outs[1], "command"@) == Some(
                JsonV::Str(
                    match field_in(joined(pieces), "command"@) {
                        Some(command) => command,
                        None => joined(pieces),
                    },
                ),
            )
            &&& item_field(outs[1], "cwd"@) == Some(JsonV::Str(b.cwd))
            &&& item_field(outs[1], "source"@) == Some(JsonV::Str("agent"@))
            &&& item_field(outs[1], "status"@) == Some(JsonV::Str("inProgress"@))
            &&& item_field(outs[1], "aggregatedOutput"@) == Some(JsonV::Null)
            &&& item_field(outs[1], "exitCode"@) == Some(JsonV::Null)
            &&& !after.in_tool_use
            &&& after.active_tool_item_id == Some(f.first)
            &&& after.active_tool_name is None
            &&& after.completed_tool_name == Some(name)
            &&& after.completed_tool_path is None
            &&& after.active_turn_id == b.active_turn_id
        }),
{
    tool_input_is_the_pieces(b, start, name, f, deltas, fresh, pieces);
    let held = called(b, start, f, deltas, fresh);
    let turn = b.active_turn_id->Some_0;
    delta_is_logged_first(held, stop, last);
    lemma_deltas();
    let command = match field_in(joined(pieces), "command"@) {
        Some(command) => command,
        None => joined(pieces),
    };
    let c = CommandV {
        command,
        cwd: b.cwd,
        source: "agent"@,
        status: "inProgress"@,
        output: JsonV::Null,
        exit_code: JsonV::Null,
    };
    command_is_found(f.first, c);
    item_is_found(b.thread_id, turn, "startedAtMs"@, last.millis, command_item(f.first, c));
    let outs = event_taken(held, WicketEventV::Delta(stop), last).1;
    assert(outs[1] == outs.skip(1)[0]);
}

/// An image that the model looks at is shown by its path.
pub proof fn image_is_shown(
    b: BridgeV,
    start: JsonV,
    name: Seq<char>,
    f: FreshV,
    deltas: Seq<JsonV>,
    fresh: Seq<FreshV>,
    pieces: Seq<Seq<char>>,
    stop: JsonV,
    last: FreshV,
)
    requires
        b.active_turn_id is Some,
        !b.in_thinking,
        is_tool_start(start, name),
        contains(name, "wicket"@),
        contains(name, "view_image"@),
        are_pieces(deltas, fresh, pieces),
        is_stop(stop),
    ensures
        ({
            let (after, outs) = event_taken(
                called(b, start, f, deltas, fresh),
                WicketEventV::Delta(stop),
                last,
            );
            let turn = b.active_turn_id->Some_0;
            &&& outs.len() == 2
            &&& tells_begun(outs[1], b, turn, last, "imageView"@, f.first)
            &&& goes(outs[1], true, true)
            &&& item_field(outs[1], "path"@) == Some(
                JsonV::Str(or_empty(field_in(joined(pieces), "path"@))),
            )
            &&& !after.in_tool_use
            &&& after.active_tool_item_id == Some(f.first)
            &&& after.completed_tool_name == Some(name)
            &&& after.completed_tool_path == field_in(joined(pieces), "path"@)
        }),
{
    tool_input_is_the_pieces(b, start, name, f, deltas, fresh, pieces);
    let held = called(b, start, f, deltas, fresh);
    let turn = b.active_turn_id->Some_0;
    delta_is_logged_first(held, stop, last);
    lemma_deltas();
    let path = or_empty(field_in(joined(pieces), "path"@));
    image_is_found(f.first, path);
    item_is_found(
        b.thread_id,
        turn,
        "startedAtMs"@,
        last.millis,
        crate::frame::image_item(f.first, path),
    );
    let outs = event_taken(held, WicketEventV::Delta(stop), last).1;
    assert(outs[1] == outs.skip(1)[0]);
}

/// A patch that the model makes is shown by the files that it changes, twice: in its item and in
/// a notice of its own.
pub proof fn patch_is_shown(
    b: BridgeV,
    start: JsonV,
    name: Seq<char>,
    f: FreshV,
    deltas: Seq<JsonV>,
    fresh: Seq<FreshV>,
    pieces: Seq<Seq<char>>,
    stop: JsonV,
    last: FreshV,
)
    requires
        b.active_turn_id is Some,
        !b.in_thinking,
        is_tool_start(start, name),
        contains(name, "wicket"@),
        !contains(name, "view_image"@),
        contains(name, "apply_patch"@),
        are_pieces(deltas, fresh, pieces),
        is_stop(stop),
    ensures
        ({
            let outs = event_taken(
                called(b, start, f, deltas, fresh),
                WicketEventV::Delta(stop),
                last,
            ).1;
            let turn = b.active_turn_id->Some_0;
            let changes = JsonV::Arr(
                patch_changes(or_empty(field_in(joined(pieces), "patch"@))),
            );
            &&& outs.len() == 3
            &&& tells_begun(outs[1], b, turn, last, "fileChange"@, f.first)
            &&& goes(outs[1], false, true)
            &&& goes(outs[2], false, true)
            &&& item_field(outs[1], "changes"@) == Some(changes)
            &&& item_field(outs[1], "status"@) == Some(JsonV::Str("inProgress"@))
            &&& told(outs[2], "item/fileChange/patchUpdated"@) matches Some(params) && belongs(
                params,
                b.thread_id,
                turn,
            ) && params.get("itemId"@) == Some(JsonV::Str(f.first)) && params.get("changes"@)
                == Some(changes)
        }),
{
    tool_input_is_the_pieces(b, start, name, f, deltas, fresh, pieces);
    let held = called(b, start, f, deltas, fresh);
    let turn = b.active_turn_id->Some_0;
    delta_is_logged_first(held, stop, last);
    lemma_deltas();
    let patch = or_empty(field_in(joined(pieces), "patch"@));
    files_are_found(f.first, patch, "inProgress"@);
    item_is_found(
        b.thread_id,
        turn,
        "startedAtMs"@,
        last.millis,
        file_item(f.first, patch, "inProgress"@),
    );
    changes_are_found(b.thread_id, turn, f.first, patch_changes(patch));
    let outs = event_taken(held, WicketEventV::Delta(stop), last).1;
    assert(outs[1] == outs.skip(1)[0]);
    assert(outs[2] == outs.skip(1)[1]);
}

// ---------------------------------------------------------------------------
// What the model says and thinks

/// What the model says goes to the client as it comes, under the item of the turn.
pub proof fn text_is_passed_on(
    b: BridgeV,
    delta: JsonV,
    f: FreshV,
    turn: Seq<char>,
    item: Seq<char>,
    text: Seq<char>,
)
    requires
        b.active_turn_id == Some(turn),
        b.active_item_id == Some(item),
        !b.in_tool_use,
        !b.in_thinking,
        delta.get("type"@) == Some(JsonV::Str("content_block_delta"@)),
        delta.within("delta"@, "text"@) == Some(JsonV::Str(text)),
        text.len() > 0,
    ensures
        ({
            let (after, outs) = event_taken(b, WicketEventV::Delta(delta), f);
            &&& after == b
            &&& outs.len() == 2
            &&& tells_more(outs[1], "item/agentMessage/delta"@, b, turn, item, text)
            &&& goes(outs[1], false, true)
        }),
{
    lemma_deltas();
    delta_is_logged_first(b, delta, f);
    delta_is_found(b.thread_id, turn, item, text);
    let outs = event_taken(b, WicketEventV::Delta(delta), f).1;
    assert(outs[1] == outs.skip(1)[0]);
}

/// Text that comes while a tool or a thought is on is not taken for what the model says, nor is an
/// empty one.
pub proof fn stray_text_is_dropped(b: BridgeV, delta: JsonV, f: FreshV)
    requires
        b.active_turn_id is Some,
        delta.get("type"@) == Some(JsonV::Str("content_block_delta"@)),
        delta.within("delta"@, "type"@) == Some(JsonV::Str("text_delta"@)),
        b.in_tool_use || b.in_thinking || delta.within("delta"@, "text"@) == Some(
            JsonV::Str(Seq::<char>::empty()),
        ) || b.active_item_id is None,
    ensures
        event_taken(b, WicketEventV::Delta(delta), f).0 == b,
        event_taken(b, WicketEventV::Delta(delta), f).1.len() == 1,
{
    lemma_deltas();
    reveal_strlit("text_delta");
    reveal_strlit("thinking_delta");
    reveal_strlit("input_json_delta");
    assert("text_delta"@.len() == 10);
    assert("thinking_delta"@.len() == 14);
    assert("input_json_delta"@.len() == 16);
    delta_is_logged_first(b, delta, f);
}

/// The item of a tool of which nothing more is known: completed, without output.
pub open spec fn ends_plainly(out: OutV, b: BridgeV) -> bool {
    &&& item_field(out, "status"@) == Some(JsonV::Str("completed"@))
    &&& item_field(out, "command"@) == Some(JsonV::Str(""@))
    &&& item_field(out, "cwd"@) == Some(JsonV::Str(b.cwd))
    &&& item_field(out, "source"@) == Some(JsonV::Str("agent"@))
    &&& item_field(out, "aggregatedOutput"@) == Some(JsonV::Null)
    &&& item_field(out, "exitCode"@) == Some(JsonV::Num(NumV::Int(0)))
    &&& goes(out, false, true)
}

/// A text that begins is shown as an item, and a tool that was still shown as running is over.
pub proof fn text_begins(b: BridgeV, delta: JsonV, f: FreshV, turn: Seq<char>, item: Seq<char>)
    requires
        b.active_turn_id == Some(turn),
        b.active_item_id == Some(item),
        delta.get("type"@) == Some(JsonV::Str("content_block_start"@)),
        delta.within("content_block"@, "type"@) == Some(JsonV::Str("text"@)),
    ensures
        ({
            let (after, outs) = event_taken(b, WicketEventV::Delta(delta), f);
            &&& after.active_tool_item_id is None
            &&& after == (BridgeV { active_tool_item_id: None, ..b })
            &&& tells_begun(outs.last(), b, turn, f, "agentMessage"@, item)
            &&& item_field(outs.last(), "text"@) == Some(JsonV::Str(""@))
            &&& goes(outs.last(), true, true)
            &&& match b.active_tool_item_id {
                Some(tool) => outs.len() == 3 && tells_over(
                    outs[1],
                    b,
                    turn,
                    f,
                    "commandExecution"@,
                    tool,
                ) && ends_plainly(outs[1], b),
                None => outs.len() == 2,
            }
        }),
{
    lemma_deltas();
    lemma_blocks();
    delta_is_logged_first(b, delta, f);
    agent_text_is_found(item, ""@);
    item_is_found(b.thread_id, turn, "startedAtMs"@, f.millis, agent_item(item, ""@));
    let outs = event_taken(b, WicketEventV::Delta(delta), f).1;
    assert(outs.last() == outs.skip(1).last());
    if b.active_tool_item_id is Some {
        lemma_tool_over(b, turn, b.active_tool_item_id->Some_0, f);
        assert(outs[1] == outs.skip(1)[0]);
    }
}

proof fn lemma_tool_over(b: BridgeV, turn: Seq<char>, tool: Seq<char>, f: FreshV)
    ensures
        tells_over(tool_over(b, turn, tool, f), b, turn, f, "commandExecution"@, tool),
        ends_plainly(tool_over(b, turn, tool, f), b),
{
    command_is_found(tool, plain_done(b.cwd));
    item_is_found(
        b.thread_id,
        turn,
        "completedAtMs"@,
        f.millis,
        command_item(tool, plain_done(b.cwd)),
    );
}

/// Thinking begins as an item of its own, under a heading.
pub proof fn thinking_begins(b: BridgeV, delta: JsonV, f: FreshV, turn: Seq<char>)
    requires
        b.active_turn_id == Some(turn),
        delta.get("type"@) == Some(JsonV::Str("content_block_start"@)),
        delta.within("content_block"@, "type"@) == Some(JsonV::Str("thinking"@)),
    ensures
        ({
            let (after, outs) = event_taken(b, WicketEventV::Delta(delta), f);
            &&& after == (BridgeV {
                in_thinking: true,
                active_reasoning_item_id: Some(f.first),
                ..b
            })
            &&& outs.len() == 3
            &&& tells_begun(outs[1], b, turn, f, "reasoning"@, f.first)
            &&& goes(outs[1], true, true)
            &&& goes(outs[2], true, true)
            &&& tells_more(
                outs[2],
                "item/reasoning/summaryTextDelta"@,
                b,
                turn,
                f.first,
                "**Thinking**\n\n"@,
            )
        }),
{
    lemma_deltas();
    lemma_blocks();
    delta_is_logged_first(b, delta, f);
    thought_text_is_found(f.first, Seq::empty());
    item_is_found(
        b.thread_id,
        turn,
        "startedAtMs"@,
        f.millis,
        reasoning_item(f.first, Seq::empty()),
    );
    thought_is_found(b.thread_id, turn, f.first, "**Thinking**\n\n"@);
    let outs = event_taken(b, WicketEventV::Delta(delta), f).1;
    assert(outs[1] == outs.skip(1)[0]);
    assert(outs[2] == outs.skip(1)[1]);
}

/// What the model thinks goes to the client as it comes, under the item of the thinking.
pub proof fn thought_is_passed_on(
    b: BridgeV,
    delta: JsonV,
    f: FreshV,
    turn: Seq<char>,
    item: Seq<char>,
    text: Seq<char>,
)
    requires
        b.active_turn_id == Some(turn),
        b.active_reasoning_item_id == Some(item),
        b.in_thinking,
        delta.get("type"@) == Some(JsonV::Str("content_block_delta"@)),
        delta.within("delta"@, "type"@) == Some(JsonV::Str("thinking_delta"@)),
        delta.within("delta"@, "thinking"@) == Some(JsonV::Str(text)),
        text.len() > 0,
    ensures
        ({
            let (after, outs) = event_taken(b, WicketEventV::Delta(delta), f);
            &&& after == b
            &&& outs.len() == 2
            &&& tells_more(outs[1], "item/reasoning/summaryTextDelta"@, b, turn, item, text)
            &&& goes(outs[1], true, true)
        }),
{
    lemma_deltas();
    lemma_growths();
    delta_is_logged_first(b, delta, f);
    thought_is_found(b.thread_id, turn, item, text);
    let outs = event_taken(b, WicketEventV::Delta(delta), f).1;
    assert(outs[1] == outs.skip(1)[0]);
}

/// Thinking ends: its item is over, and a tool whose input was coming goes on.
pub proof fn thinking_ends(b: BridgeV, stop: JsonV, f: FreshV, turn: Seq<char>, item: Seq<char>)
    requires
        b.active_turn_id == Some(turn),
        b.active_reasoning_item_id == Some(item),
        b.in_thinking,
        is_stop(stop),
    ensures
        ({
            let (after, outs) = event_taken(b, WicketEventV::Delta(stop), f);
            &&& after == (BridgeV { in_thinking: false, active_reasoning_item_id: None, ..b })
            &&& outs.len() == 2
            &&& tells_over(outs[1], b, turn, f, "reasoning"@, item)
            &&& goes(outs[1], true, true)
        }),
{
    lemma_deltas();
    delta_is_logged_first(b, stop, f);
    thought_text_is_found(item, Seq::empty());
    item_is_found(
        b.thread_id,
        turn,
        "completedAtMs"@,
        f.millis,
        reasoning_item(item, Seq::empty()),
    );
    let outs = event_taken(b, WicketEventV::Delta(stop), f).1;
    assert(outs[1] == outs.skip(1)[0]);
}

/// Why the model stopped is held until its answer is over.
pub proof fn reason_is_held(b: BridgeV, delta: JsonV, f: FreshV, reason: Seq<char>)
    requires
        b.active_turn_id is Some,
        delta.get("type"@) == Some(JsonV::Str("message_delta"@)),
        delta.within("delta"@, "stop_reason"@) == Some(JsonV::Str(reason)),
    ensures
        event_taken(b, WicketEventV::Delta(delta), f).0 == (BridgeV {
            last_stop_reason: Some(reason),
            ..b
        }),
        event_taken(b, WicketEventV::Delta(delta), f).1.len() == 1,
{
    lemma_deltas();
    delta_is_logged_first(b, delta, f);
}

/// An answer that stopped for a tool leaves the turn on, with a new item for the next answer.
pub proof fn tool_use_keeps_the_turn(
    b: BridgeV,
    delta: JsonV,
    f: FreshV,
    turn: Seq<char>,
    item: Seq<char>,
)
    requires
        b.active_turn_id == Some(turn),
        b.active_item_id == Some(item),
        b.last_stop_reason == Some("tool_use"@),
        delta.get("type"@) == Some(JsonV::Str("message_stop"@)),
    ensures
        ({
            let (after, outs) = event_taken(b, WicketEventV::Delta(delta), f);
            &&& after == (BridgeV {
                last_stop_reason: None,
                active_item_id: Some(f.first),
                ..b
            })
            &&& outs.len() == 2
            &&& tells_over(outs[1], b, turn, f, "agentMessage"@, item)
            &&& goes(outs[1], false, true)
        }),
{
    lemma_deltas();
    delta_is_logged_first(b, delta, f);
    lemma_agent_done(b, turn, item, f);
    let outs = event_taken(b, WicketEventV::Delta(delta), f).1;
    assert(outs[1] == outs.skip(1)[0]);
}

proof fn lemma_agent_done(b: BridgeV, turn: Seq<char>, item: Seq<char>, f: FreshV)
    ensures
        ({
            let params = agent_done(b, turn, item, f);
            &&& belongs(params, b.thread_id, turn)
            &&& params.get("completedAtMs"@) == Some(JsonV::Num(NumV::Int(f.millis)))
            &&& params.within("item"@, "type"@) == Some(JsonV::Str("agentMessage"@))
            &&& params.within("item"@, "id"@) == Some(JsonV::Str(item))
            &&& params.within("item"@, "text"@) == Some(JsonV::Str(""@))
        }),
{
    agent_text_is_found(item, ""@);
    item_is_found(b.thread_id, turn, "completedAtMs"@, f.millis, agent_item(item, ""@));
}

proof fn lemma_turn_done(b: BridgeV, turn: Seq<char>, status: Seq<char>, f: FreshV)
    ensures
        ({
            let params = turn_done(b, turn, status, f);
            &&& params.get("threadId"@) == Some(JsonV::Str(b.thread_id))
            &&& params.within("turn"@, "id"@) == Some(JsonV::Str(turn))
            &&& params.within("turn"@, "status"@) == Some(JsonV::Str(status))
            &&& params.within("turn"@, "startedAt"@) == Some(JsonV::Num(NumV::Int(f.seconds)))
            &&& params.within("turn"@, "completedAt"@) == Some(JsonV::Num(NumV::Int(f.seconds)))
        }),
{
    bare_turn_is_found(turn, status, f.seconds, jint(f.seconds));
    turn_is_found(b.thread_id, bare_turn(turn, status, f.seconds, jint(f.seconds)));
}

/// Any other answer that is over ends the turn: its item is over, and it is completed, or
/// interrupted where the client asked for that. Nothing of the turn is left.
pub proof fn answer_ends_the_turn(
    b: BridgeV,
    delta: JsonV,
    f: FreshV,
    turn: Seq<char>,
    item: Seq<char>,
)
    requires
        b.active_turn_id == Some(turn),
        b.active_item_id == Some(item),
        b.last_stop_reason != Some("tool_use"@),
        delta.get("type"@) == Some(JsonV::Str("message_stop"@)),
    ensures
        ({
            let (after, outs) = event_taken(b, WicketEventV::Delta(delta), f);
            let n = outs.len() as int;
            &&& after.active_turn_id is None
            &&& after.active_item_id is None
            &&& after.active_tool_item_id is None
            &&& after.last_stop_reason is None
            &&& !after.turn_interrupted
            &&& n == if b.active_tool_item_id is Some {
                4int
            } else {
                3int
            }
            &&& tells_over(outs[n - 2], b, turn, f, "agentMessage"@, item)
            &&& tells_turn(
                outs[n - 1],
                "turn/completed"@,
                b,
                turn,
                if b.turn_interrupted {
                    "interrupted"@
                } else {
                    "completed"@
                },
            )
            &&& turn_field(outs[n - 1], "completedAt"@) == Some(JsonV::Num(NumV::Int(f.seconds)))
            &&& goes(outs[n - 2], true, true)
            &&& goes(outs[n - 1], true, true)
            &&& after == (BridgeV {
                last_stop_reason: None,
                active_tool_item_id: None,
                active_turn_id: None,
                active_item_id: None,
                turn_interrupted: false,
                ..b
            })
            &&& item_field(outs[n - 2], "text"@) == Some(JsonV::Str(""@))
            &&& b.active_tool_item_id is Some ==> tells_over(
                outs[1],
                b,
                turn,
                f,
                "commandExecution"@,
                b.active_tool_item_id->Some_0,
            ) && ends_plainly(outs[1], b)
        }),
{
    lemma_deltas();
    delta_is_logged_first(b, delta, f);
    lemma_agent_done(b, turn, item, f);
    lemma_turn_done(b, turn, "interrupted"@, f);
    lemma_turn_done(b, turn, "completed"@, f);
    let outs = event_taken(b, WicketEventV::Delta(delta), f).1;
    let n = outs.len() as int;
    assert(outs[n - 1] == outs.skip(1)[n - 2]);
    assert(outs[n - 2] == outs.skip(1)[n - 3]);
    if b.active_tool_item_id is Some {
        lemma_tool_over(b, turn, b.active_tool_item_id->Some_0, f);
        assert(outs[1] == outs.skip(1)[0]);
    }
}

// ---------------------------------------------------------------------------
// What a tool or a command gives back

/// The end of a command, as the wicket tells it.
pub open spec fn ends_with(data: JsonV, output: Seq<char>, code: i64) -> bool {
    &&& data.get("output"@) == Some(JsonV::Str(output))
    &&& data.i64_at("exit_code"@) == Some(code)
}

proof fn lemma_done_command(
    id: Seq<char>,
    source: Seq<char>,
    cwd: Seq<char>,
    data: JsonV,
    output: Seq<char>,
    code: i64,
)
    requires
        ends_with(data, output, code),
    ensures
        ({
            let item = command_item(id, done_command(source, cwd, data));
            &&& item.get("type"@) == Some(JsonV::Str("commandExecution"@))
            &&& item.get("id"@) == Some(JsonV::Str(id))
            &&& item.get("cwd"@) == Some(JsonV::Str(cwd))
            &&& item.get("source"@) == Some(JsonV::Str(source))
            &&& item.get("aggregatedOutput"@) == Some(JsonV::Str(output))
            &&& item.get("exitCode"@) == Some(JsonV::Num(NumV::Int(code as int)))
            &&& item.get("status"@) == Some(
                JsonV::Str(
                    if code == 0 {
                        "completed"@
                    } else {
                        "failed"@
                    },
                ),
            )
        }),
{
    command_is_found(id, done_command(source, cwd, data));
}

/// When a tool is over, what it wrote goes to the client and its item says how it ended.
pub proof fn tool_result_is_told(
    b: BridgeV,
    data: JsonV,
    f: FreshV,
    turn: Seq<char>,
    tool: Seq<char>,
    output: Seq<char>,
    code: i64,
)
    requires
        b.active_turn_id == Some(turn),
        b.active_tool_item_id == Some(tool),
        b.completed_tool_name matches Some(name) ==> !contains(name, "view_image"@),
        ends_with(data, output, code),
    ensures
        ({
            let (after, outs) = event_taken(b, WicketEventV::ToolDone(data), f);
            &&& after == (BridgeV { active_tool_item_id: None, completed_tool_name: None, ..b })
            &&& outs.len() == 3
            &&& goes(outs[1], false, true)
            &&& goes(outs[2], true, true)
            &&& tells_more(outs[1], "item/commandExecution/delta"@, b, turn, tool, output)
            &&& tells_over(outs[2], b, turn, f, "commandExecution"@, tool)
            &&& item_field(outs[2], "aggregatedOutput"@) == Some(JsonV::Str(output))
            &&& item_field(outs[2], "exitCode"@) == Some(JsonV::Num(NumV::Int(code as int)))
            &&& item_field(outs[2], "cwd"@) == Some(JsonV::Str(b.cwd))
            &&& item_field(outs[2], "source"@) == Some(JsonV::Str("agent"@))
            &&& item_field(outs[2], "status"@) == Some(
                JsonV::Str(
                    if code == 0 {
                        "completed"@
                    } else {
                        "failed"@
                    },
                ),
            )
        }),
{
    lemma_done_command(tool, "agent"@, b.cwd, data, output, code);
    item_is_found(
        b.thread_id,
        turn,
        "completedAtMs"@,
        f.millis,
        command_item(tool, done_command("agent"@, b.cwd, data)),
    );
    delta_is_found(b.thread_id, turn, tool, output);
}

/// When an image has been looked at, its item is over and names the path that it began with.
pub proof fn image_result_is_told(
    b: BridgeV,
    data: JsonV,
    f: FreshV,
    turn: Seq<char>,
    tool: Seq<char>,
    name: Seq<char>,
)
    requires
        b.active_turn_id == Some(turn),
        b.active_tool_item_id == Some(tool),
        b.completed_tool_name == Some(name),
        contains(name, "view_image"@),
    ensures
        ({
            let (after, outs) = event_taken(b, WicketEventV::ToolDone(data), f);
            &&& after == (BridgeV {
                active_tool_item_id: None,
                completed_tool_name: None,
                completed_tool_path: None,
                ..b
            })
            &&& outs.len() == 2
            &&& goes(outs[1], true, true)
            &&& tells_over(outs[1], b, turn, f, "imageView"@, tool)
            &&& item_field(outs[1], "path"@) == Some(JsonV::Str(or_empty(b.completed_tool_path)))
        }),
{
    image_is_found(tool, or_empty(b.completed_tool_path));
    item_is_found(
        b.thread_id,
        turn,
        "completedAtMs"@,
        f.millis,
        crate::frame::image_item(tool, or_empty(b.completed_tool_path)),
    );
}

/// A command of the client begins a turn of its own with one item, and the wicket gets the command
/// with the ids of both.
pub proof fn shell_command_begins(
    b: BridgeV,
    id: JsonV,
    params: JsonV,
    f: FreshV,
    command: Seq<char>,
)
    requires
        params.get("command"@) == Some(JsonV::Str(command)),
    ensures
        ({
            let (after, outs) = request_taken(b, id, "thread/shellCommand"@, params, f);
            &&& after == (BridgeV { pending_shell: Some((f.first, f.second)), ..b })
            &&& outs.len() == 4
            &&& result_for(outs[0], id) == Some(JsonV::Obj(Map::empty()))
            &&& goes(outs[0], true, true)
            &&& goes(outs[1], true, true)
            &&& goes(outs[2], true, true)
            &&& tells_turn(outs[1], "turn/started"@, b, f.first, "inProgress"@)
            &&& tells_begun(outs[2], b, f.first, f, "commandExecution"@, f.second)
            &&& item_field(outs[2], "command"@) == Some(JsonV::Str(command))
            &&& item_field(outs[2], "cwd"@) == Some(JsonV::Str(b.cwd))
            &&& item_field(outs[2], "source"@) == Some(JsonV::Str("userShell"@))
            &&& item_field(outs[2], "status"@) == Some(JsonV::Str("inProgress"@))
            &&& put_on(outs[3], "shell"@) matches Some(data) && data.get("command"@) == Some(
                JsonV::Str(command),
            ) && data.get("turn_id"@) == Some(JsonV::Str(f.first)) && data.get("item_id"@)
                == Some(JsonV::Str(f.second))
        }),
{
    lemma_methods();
    reveal_strlit("command");
    reveal_strlit("turn_id");
    reveal_strlit("item_id");
    assert("command"@.len() == 7);
    assert("turn_id"@.len() == 7);
    assert("item_id"@.len() == 7);
    assert("command"@[0] == 'c');
    assert("item_id"@[0] == 'i');
    assert("turn_id"@[0] == 't');
    bare_turn_is_found(f.first, "inProgress"@, f.seconds, JsonV::Null);
    turn_is_found(b.thread_id, bare_turn(f.first, "inProgress"@, f.seconds, JsonV::Null));
    let c = CommandV {
        command,
        cwd: b.cwd,
        source: "userShell"@,
        status: "inProgress"@,
        output: JsonV::Null,
        exit_code: JsonV::Null,
    };
    command_is_found(f.second, c);
    item_is_found(b.thread_id, f.first, "startedAtMs"@, f.millis, command_item(f.second, c));
}

/// The end of a command of the client is told under the ids that it began with: what it wrote, if
/// anything, how it ended, and that its turn is over, completed or failed as the command is.
pub proof fn shell_result_is_told(
    b: BridgeV,
    data: JsonV,
    f: FreshV,
    turn: Seq<char>,
    item: Seq<char>,
    output: Seq<char>,
    code: i64,
)
    requires
        b.pending_shell == Some((turn, item)),
        ends_with(data, output, code),
    ensures
        ({
            let (after, outs) = event_taken(b, WicketEventV::ShellResult(data), f);
            let n = outs.len() as int;
            let status = if code == 0 {
                "completed"@
            } else {
                "failed"@
            };
            &&& after == (BridgeV { pending_shell: None, ..b })
            &&& n == if output.len() > 0 {
                4int
            } else {
                3int
            }
            &&& output.len() > 0 ==> tells_more(
                outs[1],
                "item/commandExecution/outputDelta"@,
                b,
                turn,
                item,
                output,
            )
            &&& tells_over(outs[n - 2], b, turn, f, "commandExecution"@, item)
            &&& forall|k: int| 1 <= k < n ==> goes(#[trigger] outs[k], false, true)
            &&& item_field(outs[n - 2], "aggregatedOutput"@) == Some(JsonV::Str(output))
            &&& item_field(outs[n - 2], "exitCode"@) == Some(JsonV::Num(NumV::Int(code as int)))
            &&& item_field(outs[n - 2], "source"@) == Some(JsonV::Str("userShell"@))
            &&& item_field(outs[n - 2], "status"@) == Some(JsonV::Str(status))
            &&& tells_turn(outs[n - 1], "turn/completed"@, b, turn, status)
        }),
{
    lemma_done_command(item, "userShell"@, b.cwd, data, output, code);
    item_is_found(
        b.thread_id,
        turn,
        "completedAtMs"@,
        f.millis,
        command_item(item, done_command("userShell"@, b.cwd, data)),
    );
    delta_is_found(b.thread_id, turn, item, output);
    lemma_turn_done(b, turn, "completed"@, f);
    lemma_turn_done(b, turn, "failed"@, f);
}

/// A command that ends without a number has failed, and one that wrote nothing has no output.
pub proof fn end_without_a_number_is_a_failure(
    id: Seq<char>,
    source: Seq<char>,
    cwd: Seq<char>,
    data: JsonV,
)
    requires
        data.get("exit_code"@) is None,
    ensures
        ({
            let item = command_item(id, done_command(source, cwd, data));
            &&& item.get("exitCode"@) == Some(JsonV::Null)
            &&& item.get("status"@) == Some(JsonV::Str("failed"@))
            &&& data.get("output"@) is None ==> item.get("aggregatedOutput"@) == Some(
                JsonV::Str(""@),
            )
        }),
{
    command_is_found(id, done_command(source, cwd, data));
}

/// A result that nothing waits for is only logged.
pub proof fn stray_results_change_nothing(b: BridgeV, data: JsonV, f: FreshV)
    ensures
        b.pending_shell is None ==> event_taken(b, WicketEventV::ShellResult(data), f).0 == b
            && event_taken(b, WicketEventV::ShellResult(data), f).1.len() == 1,
        b.active_tool_item_id is None ==> event_taken(b, WicketEventV::ToolDone(data), f).0 == b
            && event_taken(b, WicketEventV::ToolDone(data), f).1.len() == 1,
{
}

// ---------------------------------------------------------------------------
// Turns

/// A turn that the wicket starts gets the id that it names; the model's answer gets a new one, and
/// the client is told of both.
pub proof fn turn_begins(
    b: BridgeV,
    data: JsonV,
    f: FreshV,
    turn: Seq<char>,
    message: Seq<char>,
)
    requires
        b.active_turn_id is None,
        data.get("event"@) == Some(JsonV::Str("started"@)),
        data.get("turn_id"@) == Some(JsonV::Str(turn)),
        data.get("message"@) == Some(JsonV::Str(message)),
    ensures
        ({
            let (after, outs) = event_taken(b, WicketEventV::Turn(data), f);
            &&& after == (BridgeV {
                active_turn_id: Some(turn),
                active_item_id: Some(f.first),
                pending_turn_start_response: None,
                ..b
            })
            &&& outs.len() == 3
            &&& tells_turn(outs[1], "turn/started"@, b, turn, "inProgress"@)
            &&& turn_field(outs[1], "startedAt"@) == Some(JsonV::Num(NumV::Int(f.seconds)))
            &&& turn_field(outs[1], "completedAt"@) == Some(JsonV::Null)
            &&& tells_begun(outs[2], b, turn, f, "agentMessage"@, f.first)
            &&& goes(outs[1], true, false)
            &&& goes(outs[2], false, false)
            &&& item_field(outs[2], "text"@) == Some(JsonV::Str(""@))
        }),
{
    bare_turn_is_found(turn, "inProgress"@, f.seconds, JsonV::Null);
    turn_is_found(b.thread_id, bare_turn(turn, "inProgress"@, f.seconds, JsonV::Null));
    agent_text_is_found(f.first, ""@);
    item_is_found(b.thread_id, turn, "startedAtMs"@, f.millis, agent_item(f.first, ""@));
}

/// The request to start a turn is answered with the turn that began, which holds what the user
/// wrote.
pub proof fn start_is_answered(
    b: BridgeV,
    data: JsonV,
    f: FreshV,
    id: JsonV,
    turn: Seq<char>,
    message: Seq<char>,
)
    requires
        b.active_turn_id is None,
        b.pending_turn_start_response == Some(id),
        data.get("event"@) == Some(JsonV::Str("started"@)),
        data.get("turn_id"@) == Some(JsonV::Str(turn)),
        data.get("message"@) == Some(JsonV::Str(message)),
    ensures
        ({
            let outs = event_taken(b, WicketEventV::Turn(data), f).1;
            &&& goes(outs[0], true, true)
            &&& result_for(outs[0], id) matches Some(result) && result.within("turn"@, "id"@) == Some(
                JsonV::Str(turn),
            ) && result.within("turn"@, "status"@) == Some(JsonV::Str("inProgress"@))
                && result.within("turn"@, "startedAt"@) == Some(JsonV::Num(NumV::Int(f.seconds)))
                && result.within("turn"@, "completedAt"@) == Some(JsonV::Null) && result.within(
                "turn"@,
                "items"@,
            ) == Some(JsonV::Arr(seq![user_item(f.second, message)]))
        }),
{
    reveal_strlit("id");
    reveal_strlit("items");
    reveal_strlit("itemsView");
    reveal_strlit("status");
    reveal_strlit("startedAt");
    reveal_strlit("completedAt");
    reveal_strlit("turn");
    assert("id"@.len() == 2);
    assert("items"@.len() == 5);
    assert("itemsView"@.len() == 9);
    assert("status"@.len() == 6);
    assert("startedAt"@.len() == 9);
    assert("completedAt"@.len() == 11);
    assert("turn"@.len() == 4);
    assert("itemsView"@[0] == 'i');
    assert("startedAt"@[0] == 's');
}

/// A turn that nobody asked for here is shown with what the user wrote elsewhere.
pub proof fn foreign_message_is_shown(
    b: BridgeV,
    data: JsonV,
    f: FreshV,
    turn: Seq<char>,
    message: Seq<char>,
)
    requires
        b.active_turn_id is None,
        b.pending_turn_start_response is None,
        data.get("event"@) == Some(JsonV::Str("started"@)),
        data.get("turn_id"@) == Some(JsonV::Str(turn)),
        data.get("message"@) == Some(JsonV::Str(message)),
    ensures
        ({
            let outs = event_taken(b, WicketEventV::Turn(data), f).1;
            &&& goes(outs[0], true, false)
            &&& tells_over(outs[0], b, turn, f, "userMessage"@, f.second)
            &&& item_field(outs[0], "content"@) matches Some(JsonV::Arr(parts)) && parts.len() == 1
                && parts[0].get("text"@) == Some(JsonV::Str(message))
        }),
{
    user_text_is_found(f.second, message);
    item_is_found(b.thread_id, turn, "completedAtMs"@, f.millis, user_item(f.second, message));
}

/// While a turn is on no other begins, and only a start begins one.
pub proof fn turns_do_not_overlap(b: BridgeV, data: JsonV, f: FreshV)
    requires
        b.active_turn_id is Some || data.get("event"@) != Some(JsonV::Str("started"@)),
    ensures
        event_taken(b, WicketEventV::Turn(data), f) == (b, Seq::<OutV>::empty()),
{
    reveal_strlit("started");
    reveal_strlit("");
    assert("started"@.len() == 7);
    assert(""@.len() == 0);
}

/// A round that was interrupted ends the turn as interrupted, with the item that was being
/// answered.
pub proof fn interrupted_round_is_told(b: BridgeV, f: FreshV, turn: Seq<char>, item: Seq<char>)
    requires
        b.active_turn_id == Some(turn),
        b.active_item_id == Some(item),
    ensures
        ({
            let (after, outs) = event_taken(
                b,
                WicketEventV::Lifecycle("round_interrupted"@),
                f,
            );
            &&& after == (BridgeV {
                active_turn_id: None,
                active_item_id: None,
                active_tool_item_id: None,
                active_tool_name: None,
                active_reasoning_item_id: None,
                in_tool_use: false,
                in_thinking: false,
                turn_interrupted: false,
                ..b
            })
            &&& outs.len() == 2
            &&& goes(outs[0], false, false)
            &&& goes(outs[1], true, false)
            &&& tells_over(outs[0], b, turn, f, "agentMessage"@, item)
            &&& tells_turn(outs[1], "turn/completed"@, b, turn, "interrupted"@)
        }),
{
    lemma_agent_done(b, turn, item, f);
    lemma_turn_done(b, turn, "interrupted"@, f);
}

/// Every other event of the wicket's life leaves the bridge as it is.
pub proof fn other_lifecycle_events_pass(b: BridgeV, f: FreshV, name: Seq<char>)
    requires
        name != "round_interrupted"@,
    ensures
        event_taken(b, WicketEventV::Lifecycle(name), f) == (b, Seq::<OutV>::empty()),
{
}

/// The tokens used are told for the turn that is on.
pub proof fn usage_is_told(
    b: BridgeV,
    usage: JsonV,
    f: FreshV,
    input: i64,
    cached: i64,
    output: i64,
)
    requires
        usage.i64_at("input_tokens"@) == Some(input),
        usage.i64_at("cache_read_input_tokens"@) == Some(cached),
        usage.i64_at("output_tokens"@) == Some(output),
    ensures
        ({
            let (after, outs) = event_taken(b, WicketEventV::Usage(usage), f);
            &&& after == b
            &&& outs.len() == 2
            &&& told(outs[1], "thread/tokenUsage/updated"@) == Some(
                crate::frame::usage_params(b.thread_id, or_empty(b.active_turn_id), usage),
            )
            &&& goes(outs[1], false, false)
        }),
{
}

// ---------------------------------------------------------------------------
// Approvals

/// A question of the wicket goes to the client under a new number, about the tool that is shown,
/// with the command that it wants to run and why; the bridge waits for the answer to it.
pub proof fn approval_is_asked(
    b: BridgeV,
    data: JsonV,
    f: FreshV,
    command: Seq<char>,
    reason: Seq<char>,
)
    requires
        data.within("input"@, "command"@) == Some(JsonV::Str(command)),
        data.within("input"@, "reason"@) == Some(JsonV::Str(reason)),
        i64::MIN <= b.next_server_request_id < i64::MAX,
    ensures
        ({
            let (after, outs) = event_taken(b, WicketEventV::Approval(data), f);
            &&& after == (BridgeV {
                next_server_request_id: b.next_server_request_id + 1,
                pending_approval_request_id: Some(b.next_server_request_id as i64),
                ..b
            })
            &&& goes(outs[1], true, false)
            &&& outs.len() == 2
            &&& outs[1] matches OutV::Frame {
                frame: FrameV::Request { id, method, params },
                ..
            } && id == b.next_server_request_id && method
                == "item/commandExecution/requestApproval"@ && belongs(
                params,
                b.thread_id,
                or_empty(b.active_turn_id),
            ) && params.get("itemId"@) == Some(
                JsonV::Str(
                    match b.active_tool_item_id {
                        Some(tool) => tool,
                        None => or_empty(b.active_item_id),
                    },
                ),
            ) && params.get("command"@) == Some(JsonV::Str(command)) && params.get("reason"@)
                == Some(JsonV::Str(reason)) && params.get("startedAtMs"@) == Some(
                JsonV::Num(NumV::Int(f.millis)),
            )
        }),
{
    reveal_strlit("threadId");
    reveal_strlit("turnId");
    reveal_strlit("itemId");
    reveal_strlit("startedAtMs");
    reveal_strlit("command");
    reveal_strlit("reason");
    assert("threadId"@.len() == 8);
    assert("turnId"@.len() == 6);
    assert("itemId"@.len() == 6);
    assert("startedAtMs"@.len() == 11);
    assert("command"@.len() == 7);
    assert("reason"@.len() == 6);
    assert("itemId"@[0] == 'i');
    assert("reason"@[0] == 'r');
    assert("turnId"@[0] == 't');
}

/// Where the question names no command, it is about the tool by its name.
pub proof fn approval_names_the_tool(b: BridgeV, data: JsonV, f: FreshV, tool: Seq<char>)
    requires
        data.get("input"@) is None,
        data.get("tool_name"@) == Some(JsonV::Str(tool)),
    ensures
        approval_params(b, data, f).get("command"@) == Some(JsonV::Str(tool)),
        approval_params(b, data, f).get("reason"@) == Some(JsonV::Null),
{
    reveal_strlit("threadId");
    reveal_strlit("turnId");
    reveal_strlit("itemId");
    reveal_strlit("startedAtMs");
    reveal_strlit("command");
    reveal_strlit("reason");
    assert("threadId"@.len() == 8);
    assert("turnId"@.len() == 6);
    assert("itemId"@.len() == 6);
    assert("startedAtMs"@.len() == 11);
    assert("command"@.len() == 7);
    assert("reason"@.len() == 6);
    assert("itemId"@[0] == 'i');
    assert("reason"@[0] == 'r');
    assert("turnId"@[0] == 't');
}

/// The answer goes to the wicket: each of the three ways to accept allows, anything else denies.
pub proof fn answer_goes_to_the_wicket(
    b: BridgeV,
    n: i64,
    result: JsonV,
    decision: Seq<char>,
)
    requires
        b.pending_approval_request_id == Some(n),
        result.get("decision"@) == Some(JsonV::Str(decision)),
    ensures
        ({
            let (after, outs) = answered(b, Some(JsonV::Num(NumV::Int(n as int))), result);
            let allowed = decision == "accept"@ || decision == "acceptForSession"@ || decision
                == "acceptWithExecpolicyAmendment"@;
            &&& after == (BridgeV { pending_approval_request_id: None, ..b })
            &&& outs.len() == 1
            &&& put_on(outs[0], "approval"@) matches Some(data) && data.get("behavior"@) == Some(
                JsonV::Str(
                    if allowed {
                        "allow"@
                    } else {
                        "deny"@
                    },
                ),
            ) && (if allowed {
                data.get("message"@) is None
            } else {
                data.get("message"@) == Some(JsonV::Str("User denied"@))
            })
        }),
{
    reveal_strlit("behavior");
    reveal_strlit("message");
    assert("behavior"@.len() == 8);
    assert("message"@.len() == 7);
}

/// An answer to anything else than the question that is open is passed over.
pub proof fn other_answers_are_passed_over(b: BridgeV, id: Option<JsonV>, result: JsonV)
    requires
        b.pending_approval_request_id matches Some(n) ==> id != Some(
            JsonV::Num(NumV::Int(n as int)),
        ),
    ensures
        answered(b, id, result) == (b, Seq::<OutV>::empty()),
{
}

/// An answer that does not say what was decided denies.
pub proof fn silence_denies(b: BridgeV, n: i64, result: JsonV)
    requires
        b.pending_approval_request_id == Some(n),
        result.get("decision"@) is None,
    ensures
        ({
            let outs = answered(b, Some(JsonV::Num(NumV::Int(n as int))), result).1;
            &&& outs.len() == 1
            &&& put_on(outs[0], "approval"@) matches Some(data) && data.get("behavior"@) == Some(
                JsonV::Str("deny"@),
            )
        }),
{
    reveal_strlit("behavior");
    reveal_strlit("message");
    reveal_strlit("decline");
    reveal_strlit("accept");
    reveal_strlit("acceptForSession");
    reveal_strlit("acceptWithExecpolicyAmendment");
    assert("behavior"@.len() == 8);
    assert("message"@.len() == 7);
    assert("decline"@.len() == 7);
    assert("accept"@.len() == 6);
    assert("acceptForSession"@.len() == 16);
    assert("acceptWithExecpolicyAmendment"@.len() == 29);
    assert("decline"@[0] == 'd');
    assert("message"@[0] == 'm');
}

// ---------------------------------------------------------------------------
// Requests

proof fn lemma_methods()
    ensures
        "initialize"@ != "account/read"@,
        "initialize"@ != "model/list"@,
        "initialize"@ != "thread/start"@,
        "initialize"@ != "thread/resume"@,
        "initialize"@ != "skills/list"@,
        "initialize"@ != "hooks/list"@,
        "initialize"@ != "plugin/list"@,
        "initialize"@ != "thread/unsubscribe"@,
        "initialize"@ != "turn/interrupt"@,
        "initialize"@ != "thread/shellCommand"@,
        "initialize"@ != "turn/start"@,
        "initialize"@ != "turn/steer"@,
        "account/read"@ != "model/list"@,
        "account/read"@ != "thread/start"@,
        "account/read"@ != "thread/resume"@,
        "account/read"@ != "skills/list"@,
        "account/read"@ != "hooks/list"@,
        "account/read"@ != "plugin/list"@,
        "account/read"@ != "thread/unsubscribe"@,
        "account/read"@ != "turn/interrupt"@,
        "account/read"@ != "thread/shellCommand"@,
        "account/read"@ != "turn/start"@,
        "account/read"@ != "turn/steer"@,
        "model/list"@ != "thread/start"@,
        "model/list"@ != "thread/resume"@,
        "model/list"@ != "skills/list"@,
        "model/list"@ != "hooks/list"@,
        "model/list"@ != "plugin/list"@,
        "model/list"@ != "thread/unsubscribe"@,
        "model/list"@ != "turn/interrupt"@,
        "model/list"@ != "thread/shellCommand"@,
        "model/list"@ != "turn/start"@,
        "model/list"@ != "turn/steer"@,
        "thread/start"@ != "thread/resume"@,
        "thread/start"@ != "skills/list"@,
        "thread/start"@ != "hooks/list"@,
        "thread/start"@ != "plugin/list"@,
        "thread/start"@ != "thread/unsubscribe"@,
        "thread/start"@ != "turn/interrupt"@,
        "thread/start"@ != "thread/shellCommand"@,
        "thread/start"@ != "turn/start"@,
        "thread/start"@ != "turn/steer"@,
        "thread/resume"@ != "skills/list"@,
        "thread/resume"@ != "hooks/list"@,
        "thread/resume"@ != "plugin/list"@,
        "thread/resume"@ != "thread/unsubscribe"@,
        "thread/resume"@ != "turn/interrupt"@,
        "thread/resume"@ != "thread/shellCommand"@,
        "thread/resume"@ != "turn/start"@,
        "thread/resume"@ != "turn/steer"@,
        "skills/list"@ != "hooks/list"@,
        "skills/list"@ != "plugin/list"@,
        "skills/list"@ != "thread/unsubscribe"@,
        "skills/list"@ != "turn/interrupt"@,
        "skills/list"@ != "thread/shellCommand"@,
        "skills/list"@ != "turn/start"@,
        "skills/list"@ != "turn/steer"@,
        "hooks/list"@ != "plugin/list"@,
        "hooks/list"@ != "thread/unsubscribe"@,
        "hooks/list"@ != "turn/interrupt"@,
        "hooks/list"@ != "thread/shellCommand"@,
        "hooks/list"@ != "turn/start"@,
        "hooks/list"@ != "turn/steer"@,
        "plugin/list"@ != "thread/unsubscribe"@,
        "plugin/list"@ != "turn/interrupt"@,
        "plugin/list"@ != "thread/shellCommand"@,
        "plugin/list"@ != "turn/start"@,
        "plugin/list"@ != "turn/steer"@,
        "thread/unsubscribe"@ != "turn/interrupt"@,
        "thread/unsubscribe"@ != "thread/shellCommand"@,
        "thread/unsubscribe"@ != "turn/start"@,
        "thread/unsubscribe"@ != "turn/steer"@,
        "turn/interrupt"@ != "thread/shellCommand"@,
        "turn/interrupt"@ != "turn/start"@,
        "turn/interrupt"@ != "turn/steer"@,
        "thread/shellCommand"@ != "turn/start"@,
        "thread/shellCommand"@ != "turn/steer"@,
        "turn/start"@ != "turn/steer"@,
{
    reveal_strlit("initialize");
    reveal_strlit("account/read");
    reveal_strlit("model/list");
    reveal_strlit("thread/start");
    reveal_strlit("thread/resume");
    reveal_strlit("skills/list");
    reveal_strlit("hooks/list");
    reveal_strlit("plugin/list");
    reveal_strlit("thread/unsubscribe");
    reveal_strlit("turn/interrupt");
    reveal_strlit("thread/shellCommand");
    reveal_strlit("turn/start");
    reveal_strlit("turn/steer");
    assert("initialize"@.len() == 10);
    assert("account/read"@.len() == 12);
    assert("model/list"@.len() == 10);
    assert("thread/start"@.len() == 12);
    assert("thread/resume"@.len() == 13);
    assert("skills/list"@.len() == 11);
    assert("hooks/list"@.len() == 10);
    assert("plugin/list"@.len() == 11);
    assert("thread/unsubscribe"@.len() == 18);
    assert("turn/interrupt"@.len() == 14);
    assert("thread/shellCommand"@.len() == 19);
    assert("turn/start"@.len() == 10);
    assert("turn/steer"@.len() == 10);
    assert("account/read"@[0] == 'a');
    assert("hooks/list"@[0] == 'h');
    assert("initialize"@[0] == 'i');
    assert("model/list"@[0] == 'm');
    assert("plugin/list"@[0] == 'p');
    assert("skills/list"@[0] == 's');
    assert("thread/start"@[0] == 't');
    assert("turn/start"@[0] == 't');
    assert("turn/start"@[7] == 'a');
    assert("turn/steer"@[0] == 't');
    assert("turn/steer"@[7] == 'e');
}

/// The message of a request is the first text of its input.
pub proof fn first_text_is_the_message(params: JsonV, items: Seq<JsonV>, at: int, text: Seq<char>)
    requires
        params.get("input"@) == Some(JsonV::Arr(items)),
        0 <= at < items.len(),
        items[at].get("type"@) == Some(JsonV::Str("text"@)),
        items[at].get("text"@) == Some(JsonV::Str(text)),
        forall|i: int|
            0 <= i < at ==> (#[trigger] items[i]).get("type"@) != Some(JsonV::Str("text"@)),
    ensures
        message_of(params) == text,
{
    lemma_first_text(items, at, text);
}

proof fn lemma_first_text(items: Seq<JsonV>, at: int, text: Seq<char>)
    requires
        0 <= at < items.len(),
        items[at].get("type"@) == Some(JsonV::Str("text"@)),
        items[at].get("text"@) == Some(JsonV::Str(text)),
        forall|i: int|
            0 <= i < at ==> (#[trigger] items[i]).get("type"@) != Some(JsonV::Str("text"@)),
    ensures
        first_text(items) == Some(text),
    decreases at,
{
    if at > 0 {
        assert(items[0].get("type"@) != Some(JsonV::Str("text"@)));
        assert forall|i: int| 0 <= i < at - 1 implies (#[trigger] items.skip(1)[i]).get("type"@)
            != Some(JsonV::Str("text"@)) by {
            assert(items.skip(1)[i] == items[i + 1]);
        }
        assert(items.skip(1)[at - 1] == items[at]);
        lemma_first_text(items.skip(1), at - 1, text);
    }
}

/// What the user writes goes to the wicket unchanged, and the request waits for the turn.
pub proof fn message_goes_to_the_wicket(b: BridgeV, id: JsonV, params: JsonV, f: FreshV)
    requires
        message_of(params).len() > 0,
    ensures
        ({
            let (after, outs) = request_taken(b, id, "turn/start"@, params, f);
            &&& after == (BridgeV { pending_turn_start_response: Some(id), ..b })
            &&& outs.len() == 1
            &&& put_on(outs[0], "turn"@) matches Some(data) && data.get("message"@) == Some(
                JsonV::Str(message_of(params)),
            )
        }),
{
    lemma_methods();
}

/// What the user adds to the turn that is on goes to the wicket unchanged, and the client is told
/// which turn it was.
pub proof fn steering_goes_to_the_wicket(
    b: BridgeV,
    id: JsonV,
    params: JsonV,
    f: FreshV,
    turn: Seq<char>,
)
    requires
        b.active_turn_id == Some(turn),
        params.get("expectedTurnId"@) == Some(JsonV::Str(turn)) || params.get("expectedTurnId"@)
            is None,
        message_of(params).len() > 0,
    ensures
        ({
            let (after, outs) = request_taken(b, id, "turn/steer"@, params, f);
            &&& after == b
            &&& outs.len() == 2
            &&& put_on(outs[0], "steer"@) matches Some(data) && data.get("message"@) == Some(
                JsonV::Str(message_of(params)),
            )
            &&& result_for(outs[1], id) matches Some(result) && result.get("turnId"@) == Some(
                JsonV::Str(turn),
            )
        }),
{
    lemma_methods();
}

/// Without a text there is nothing to send: the turn is not asked for, and steering is answered
/// only.
pub proof fn empty_message_is_not_sent(
    b: BridgeV,
    id: JsonV,
    params: JsonV,
    f: FreshV,
    turn: Seq<char>,
)
    requires
        message_of(params).len() == 0,
        b.active_turn_id == Some(turn),
        params.get("expectedTurnId"@) is None,
    ensures
        request_taken(b, id, "turn/start"@, params, f).1.len() == 0,
        request_taken(b, id, "turn/steer"@, params, f).1.len() == 1,
        result_for(request_taken(b, id, "turn/steer"@, params, f).1[0], id) is Some,
{
    lemma_methods();
}

/// Where the client sends no input there is no message.
pub proof fn no_input_is_no_message(params: JsonV)
    requires
        params.get("input"@) is None,
    ensures
        message_of(params).len() == 0,
{
}

/// Nothing is steered where no turn is on, or another than the client expects: the request fails
/// and nothing goes to the wicket.
pub proof fn wrong_steering_fails(
    b: BridgeV,
    id: JsonV,
    params: JsonV,
    f: FreshV,
    expected: Seq<char>,
)
    requires
        params.get("expectedTurnId"@) == Some(JsonV::Str(expected)),
        b.active_turn_id != Some(expected),
    ensures
        ({
            let (after, outs) = request_taken(b, id, "turn/steer"@, params, f);
            &&& after == b
            &&& outs.len() == 1
            &&& outs[0] matches OutV::Frame { frame: FrameV::Failure { id: of, code, message }, .. }
                && of == id && code == -32000 && message == match b.active_turn_id {
                None => "no active turn to steer"@,
                Some(turn) => "expected active turn id `"@ + expected + "` but found `"@ + turn
                    + "`"@,
            }
        }),
{
    lemma_methods();
}

/// An interruption is passed on at once; the turn is interrupted when its answer is over.
pub proof fn interruption_is_passed_on(b: BridgeV, id: JsonV, params: JsonV, f: FreshV)
    ensures
        ({
            let (after, outs) = request_taken(b, id, "turn/interrupt"@, params, f);
            &&& after == (BridgeV { turn_interrupted: true, ..b })
            &&& outs.len() == 2
            &&& put_on(outs[0], "interrupt"@) == Some(JsonV::Obj(Map::empty()))
            &&& result_for(outs[1], id) == Some(JsonV::Obj(Map::empty()))
        }),
{
    lemma_methods();
}

/// A thread that is started or resumed is this one, with the turns of the past and the model that
/// it runs with.
pub proof fn thread_is_told(b: BridgeV, id: JsonV, method: Seq<char>, params: JsonV, f: FreshV)
    requires
        method == "thread/start"@ || method == "thread/resume"@,
    ensures
        ({
            let (after, outs) = request_taken(b, id, method, params, f);
            &&& after == b
            &&& outs.len() == if b.initial_usage is Some {
                2int
            } else {
                1int
            }
            &&& result_for(outs[0], id) matches Some(result) && result.within("thread"@, "id"@)
                == Some(JsonV::Str(b.thread_id)) && result.within("thread"@, "cwd"@) == Some(
                JsonV::Str(b.cwd),
            ) && result.within("thread"@, "turns"@) == Some(
                JsonV::Arr(past_turns(b.history, b.home, f.ids)),
            ) && result.within("thread"@, "sessionId"@) == Some(JsonV::Str(f.first))
                && result.get("model"@) == Some(JsonV::Str(b.model.id)) && result.get("cwd"@)
                == Some(JsonV::Str(b.cwd)) && result.get("modelProvider"@) == Some(
                JsonV::Str("anthropic"@),
            ) && result.get("approvalPolicy"@) == Some(JsonV::Str("on-failure"@)) && result.get(
                "approvalsReviewer"@,
            ) == Some(JsonV::Str("user"@)) && result.within("sandbox"@, "type"@) == Some(
                JsonV::Str("dangerFullAccess"@),
            )
            &&& b.initial_usage matches Some(usage) ==> told(outs[1], "thread/tokenUsage/updated"@)
                == Some(crate::frame::usage_params(b.thread_id, ""@, usage))
        }),
{
    lemma_methods();
    lemma_thread(b, f);
    reveal_strlit("thread");
    reveal_strlit("model");
    reveal_strlit("modelProvider");
    reveal_strlit("cwd");
    reveal_strlit("approvalPolicy");
    reveal_strlit("approvalsReviewer");
    reveal_strlit("sandbox");
    reveal_strlit("instructionSources");
    assert("thread"@.len() == 6);
    assert("model"@.len() == 5);
    assert("modelProvider"@.len() == 13);
    assert("cwd"@.len() == 3);
    assert("approvalPolicy"@.len() == 14);
    assert("approvalsReviewer"@.len() == 17);
    assert("sandbox"@.len() == 7);
    assert("instructionSources"@.len() == 18);
}

proof fn lemma_thread(b: BridgeV, f: FreshV)
    ensures
        ({
            let thread = thread_json(b, f);
            &&& thread.get("id"@) == Some(JsonV::Str(b.thread_id))
            &&& thread.get("sessionId"@) == Some(JsonV::Str(f.first))
            &&& thread.get("cwd"@) == Some(JsonV::Str(b.cwd))
            &&& thread.get("turns"@) == Some(JsonV::Arr(past_turns(b.history, b.home, f.ids)))
            &&& thread.get("preview"@) == Some(JsonV::Str(""@))
            &&& thread.get("ephemeral"@) == Some(JsonV::Bool(false))
            &&& thread.get("modelProvider"@) == Some(JsonV::Str("anthropic"@))
            &&& thread.get("source"@) == Some(JsonV::Str("cli"@))
            &&& thread.within("status"@, "type"@) == Some(JsonV::Str("idle"@))
        }),
{
    reveal_strlit("id");
    reveal_strlit("sessionId");
    reveal_strlit("preview");
    reveal_strlit("ephemeral");
    reveal_strlit("modelProvider");
    reveal_strlit("createdAt");
    reveal_strlit("updatedAt");
    reveal_strlit("status");
    reveal_strlit("cwd");
    reveal_strlit("cliVersion");
    reveal_strlit("source");
    reveal_strlit("turns");
    assert("id"@.len() == 2);
    assert("sessionId"@.len() == 9);
    assert("preview"@.len() == 7);
    assert("ephemeral"@.len() == 9);
    assert("modelProvider"@.len() == 13);
    assert("createdAt"@.len() == 9);
    assert("updatedAt"@.len() == 9);
    assert("status"@.len() == 6);
    assert("cwd"@.len() == 3);
    assert("cliVersion"@.len() == 10);
    assert("source"@.len() == 6);
    assert("turns"@.len() == 5);
    assert("createdAt"@[0] == 'c');
    assert("ephemeral"@[0] == 'e');
    assert("sessionId"@[0] == 's');
    assert("source"@[1] == 'o');
    assert("status"@[1] == 't');
    assert("updatedAt"@[0] == 'u');
}

/// The one model that the client is told of is the one that the bridge was given.
pub proof fn model_is_told(b: BridgeV, id: JsonV, params: JsonV, f: FreshV)
    ensures
        ({
            let (after, outs) = request_taken(b, id, "model/list"@, params, f);
            &&& after == b
            &&& outs.len() == 1
            &&& result_for(outs[0], id) matches Some(result) && (result.get("data"@) matches Some(
                JsonV::Arr(models),
            ) && models.len() == 1 && models[0].get("id"@) == Some(JsonV::Str(b.model.id))
                && models[0].get("model"@) == Some(JsonV::Str(b.model.id)) && models[0].get(
                "displayName"@,
            ) == Some(JsonV::Str(b.model.display_name)) && models[0].get("description"@) == Some(
                JsonV::Str(b.model.description),
            ) && models[0].get("isDefault"@) == Some(JsonV::Bool(true)))
        }),
{
    lemma_methods();
    lemma_model(b.model);
    reveal_strlit("data");
    reveal_strlit("nextCursor");
    assert("data"@.len() == 4);
    assert("nextCursor"@.len() == 10);
}

proof fn lemma_model(model: ModelV)
    ensures
        model_json(model).get("id"@) == Some(JsonV::Str(model.id)),
        model_json(model).get("model"@) == Some(JsonV::Str(model.id)),
        model_json(model).get("displayName"@) == Some(JsonV::Str(model.display_name)),
        model_json(model).get("description"@) == Some(JsonV::Str(model.description)),
        model_json(model).get("isDefault"@) == Some(JsonV::Bool(true)),
{
    reveal_strlit("id");
    reveal_strlit("model");
    reveal_strlit("displayName");
    reveal_strlit("description");
    reveal_strlit("hidden");
    reveal_strlit("supportedReasoningEfforts");
    reveal_strlit("defaultReasoningEffort");
    reveal_strlit("inputModalities");
    reveal_strlit("supportsPersonality");
    reveal_strlit("serviceTiers");
    reveal_strlit("isDefault");
    assert("id"@.len() == 2);
    assert("model"@.len() == 5);
    assert("displayName"@.len() == 11);
    assert("description"@.len() == 11);
    assert("hidden"@.len() == 6);
    assert("supportedReasoningEfforts"@.len() == 25);
    assert("defaultReasoningEffort"@.len() == 22);
    assert("inputModalities"@.len() == 15);
    assert("supportsPersonality"@.len() == 19);
    assert("serviceTiers"@.len() == 12);
    assert("isDefault"@.len() == 9);
    assert("description"@[1] == 'e');
    assert("displayName"@[1] == 'i');
}

/// What the client asks for its own sake is answered: who is there, who pays, and that there are no
/// skills, hooks or plugins.
pub proof fn small_requests_are_answered(b: BridgeV, id: JsonV, params: JsonV, f: FreshV)
    ensures
        ({
            let outs = request_taken(b, id, "initialize"@, params, f).1;
            &&& outs.len() == 1
            &&& result_for(outs[0], id) matches Some(result) && result.get("protocolVersion"@)
                == Some(JsonV::Str("2.0"@)) && result.within("serverInfo"@, "name"@) == Some(
                JsonV::Str("puzzle"@),
            ) && result.within("serverInfo"@, "version"@) == Some(JsonV::Str("0.1.0"@))
                && result.get("capabilities"@) == Some(JsonV::Obj(Map::empty()))
        }),
        ({
            let outs = request_taken(b, id, "account/read"@, params, f).1;
            &&& outs.len() == 1
            &&& result_for(outs[0], id) matches Some(result) && result.within("account"@, "type"@)
                == Some(JsonV::Str("apiKey"@)) && result.get("requiresOpenaiAuth"@) == Some(
                JsonV::Bool(false),
            )
        }),
        result_for(request_taken(b, id, "skills/list"@, params, f).1[0], id) matches Some(result)
            && result.get("data"@) == Some(JsonV::Arr(Seq::empty())),
        result_for(request_taken(b, id, "hooks/list"@, params, f).1[0], id) matches Some(result)
            && result.get("data"@) == Some(JsonV::Arr(Seq::empty())),
        result_for(request_taken(b, id, "plugin/list"@, params, f).1[0], id) matches Some(result)
            && result.get("data"@) == Some(JsonV::Arr(Seq::empty())),
        result_for(request_taken(b, id, "thread/unsubscribe"@, params, f).1[0], id) == Some(
            JsonV::Obj(Map::empty()),
        ),
{
    lemma_methods();
    reveal_strlit("protocolVersion");
    reveal_strlit("serverInfo");
    reveal_strlit("capabilities");
    reveal_strlit("name");
    reveal_strlit("version");
    assert("protocolVersion"@.len() == 15);
    assert("serverInfo"@.len() == 10);
    assert("capabilities"@.len() == 12);
    assert("name"@.len() == 4);
    assert("version"@.len() == 7);
    reveal_strlit("account");
    reveal_strlit("requiresOpenaiAuth");
    assert("account"@.len() == 7);
    assert("requiresOpenaiAuth"@.len() == 18);
}

/// What is asked leaves the bridge as it is, but for a turn, a command or an interruption.
pub proof fn questions_change_nothing(
    b: BridgeV,
    id: JsonV,
    method: Seq<char>,
    params: JsonV,
    f: FreshV,
)
    requires
        method != "turn/start"@,
        method != "turn/interrupt"@,
        method != "thread/shellCommand"@,
    ensures
        request_taken(b, id, method, params, f).0 == b,
{
}

/// A request that the bridge does not know fails, and says which it was.
pub proof fn unknown_request_fails(
    b: BridgeV,
    id: JsonV,
    method: Seq<char>,
    params: JsonV,
    f: FreshV,
)
    requires
        method != "initialize"@,
        method != "account/read"@,
        method != "model/list"@,
        method != "thread/start"@,
        method != "thread/resume"@,
        method != "skills/list"@,
        method != "hooks/list"@,
        method != "plugin/list"@,
        method != "thread/unsubscribe"@,
        method != "turn/interrupt"@,
        method != "thread/shellCommand"@,
        method != "turn/start"@,
        method != "turn/steer"@,
    ensures
        ({
            let (after, outs) = request_taken(b, id, method, params, f);
            &&& after == b
            &&& outs.len() == 1
            &&& outs[0] matches OutV::Frame { frame: FrameV::Failure { id: of, code, message }, .. }
                && of == id && code == -32601 && message == "not implemented: "@ + method
        }),
{
}

/// A message with an id is taken as a request with its method and parameters; one without an id
/// asks for nothing.
pub proof fn messages_are_told_apart(b: BridgeV, rpc: RpcMessageV, f: FreshV)
    ensures
        rpc.method matches Some(method) ==> (rpc.id matches Some(id) ==> (rpc.params matches Some(
            params,
        ) ==> message_taken(b, rpc, f) == request_taken(b, id, method, params, f))),
        rpc.method is Some && rpc.id is None ==> message_taken(b, rpc, f) == (
            b,
            Seq::<OutV>::empty(),
        ),
        rpc.method is None ==> (rpc.result matches Some(result) ==> message_taken(b, rpc, f)
            == answered(b, rpc.id, result)),
{
}

/// A text that is JSON is logged as it came, before anything comes of it.
pub proof fn text_is_logged_first(
    b: BridgeV,
    text: Seq<char>,
    value: JsonV,
    rpc: Option<RpcMessageV>,
    f: FreshV,
)
    requires
        parsed(text) == Some(value),
    ensures
        ({
            let (after, outs) = text_taken(b, text, rpc, f);
            &&& outs.len() > 0
            &&& outs[0] == (OutV::Log { dir: "tui>puzzle"@, data: value })
            &&& rpc is None ==> after == b && outs.len() == 1
            &&& rpc matches Some(rpc) ==> after == message_taken(b, rpc, f).0 && outs.skip(1)
                == message_taken(b, rpc, f).1
        }),
{
    let outs = text_taken(b, text, rpc, f).1;
    if rpc is Some {
        assert(outs.skip(1) =~= message_taken(b, rpc->Some_0, f).1);
    }
}

/// A text that is no JSON is not logged, and nothing comes of it.
pub proof fn noise_is_passed_over(b: BridgeV, text: Seq<char>, f: FreshV)
    requires
        parsed(text) is None,
    ensures
        text_taken(b, text, None, f) == (b, Seq::<OutV>::empty()),
{
}

} // verus!

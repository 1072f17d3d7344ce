//! What holds of the messages that come and go, read off their fields.

use vstd::prelude::*;

use crate::chars::{opt_text, split, trim};
use crate::claude::{brings, hello, log_record, prompt, SpawnTarget, WicketEvent};
use crate::easement::{outbound_text, tells, Body, EasementClient, EasementEvent, Inbound, Outbound};
use crate::exchange::{exchange_entry, window_dir};
use crate::frame::{frame_json, frame_text, FrameV};
use crate::json::{compact_text, first_key_of, parsed, JsonV, NumV};
use crate::model::{
    is_shown, shown_block, shown_blocks, BlockV, ConversationEntry, EntryKind, WireBlock, WireEntry,
};
use crate::outbox::ChannelClosed;
use crate::paths::joined;
use crate::sessions::{session_in, session_json, sessions_file, SessionV};
use crate::summary::{
    can_hear, failure_text, follows, fork_request, request_of, summary_turn_request, SummaryCall,
    SummaryFailure, SummaryHeard, SummaryRun, SummaryStage,
};
use crate::tailer::{complete, partial, values};
use crate::text_laws::{joining_undoes_splitting, parts_are_split_at_separators};
use crate::wicket::{
    association, envelope, event_in, event_of, history_request, verdict, WicketClient, WicketEventV,
};
use crate::window::{
    last_message, normalized, SUMMARY_MODEL, SUMMARY_PROMPT, SummaryError, SummaryPayload, TurnItem,
    TurnStatus,
};

verus! {

// ---------------------------------------------------------------------------
// Envelopes

proof fn lemma_streams()
    ensures
        "delta"@ != "entry"@,
        "delta"@ != "history_terminate"@,
        "delta"@ != "usage"@,
        "delta"@ != "tool_start"@,
        "delta"@ != "tool_done"@,
        "delta"@ != "shell_result"@,
        "delta"@ != "user_message"@,
        "delta"@ != "turn"@,
        "delta"@ != "lifecycle"@,
        "delta"@ != "approval"@,
        "delta"@ != "meta"@,
        "delta"@ != "error"@,
        "entry"@ != "history_terminate"@,
        "entry"@ != "usage"@,
        "entry"@ != "tool_start"@,
        "entry"@ != "tool_done"@,
        "entry"@ != "shell_result"@,
        "entry"@ != "user_message"@,
        "entry"@ != "turn"@,
        "entry"@ != "lifecycle"@,
        "entry"@ != "approval"@,
        "entry"@ != "meta"@,
        "entry"@ != "error"@,
        "history_terminate"@ != "usage"@,
        "history_terminate"@ != "tool_start"@,
        "history_terminate"@ != "tool_done"@,
        "history_terminate"@ != "shell_result"@,
        "history_terminate"@ != "user_message"@,
        "history_terminate"@ != "turn"@,
        "history_terminate"@ != "lifecycle"@,
        "history_terminate"@ != "approval"@,
        "history_terminate"@ != "meta"@,
        "history_terminate"@ != "error"@,
        "usage"@ != "tool_start"@,
        "usage"@ != "tool_done"@,
        "usage"@ != "shell_result"@,
        "usage"@ != "user_message"@,
        "usage"@ != "turn"@,
        "usage"@ != "lifecycle"@,
        "usage"@ != "approval"@,
        "usage"@ != "meta"@,
        "usage"@ != "error"@,
        "tool_start"@ != "tool_done"@,
        "tool_start"@ != "shell_result"@,
        "tool_start"@ != "user_message"@,
        "tool_start"@ != "turn"@,
        "tool_start"@ != "lifecycle"@,
        "tool_start"@ != "approval"@,
        "tool_start"@ != "meta"@,
        "tool_start"@ != "error"@,
        "tool_done"@ != "shell_result"@,
        "tool_done"@ != "user_message"@,
        "tool_done"@ != "turn"@,
        "tool_done"@ != "lifecycle"@,
        "tool_done"@ != "approval"@,
        "tool_done"@ != "meta"@,
        "tool_done"@ != "error"@,
        "shell_result"@ != "user_message"@,
        "shell_result"@ != "turn"@,
        "shell_result"@ != "lifecycle"@,
        "shell_result"@ != "approval"@,
        "shell_result"@ != "meta"@,
        "shell_result"@ != "error"@,
        "user_message"@ != "turn"@,
        "user_message"@ != "lifecycle"@,
        "user_message"@ != "approval"@,
        "user_message"@ != "meta"@,
        "user_message"@ != "error"@,
        "turn"@ != "lifecycle"@,
        "turn"@ != "approval"@,
        "turn"@ != "meta"@,
        "turn"@ != "error"@,
        "lifecycle"@ != "approval"@,
        "lifecycle"@ != "meta"@,
        "lifecycle"@ != "error"@,
        "approval"@ != "meta"@,
        "approval"@ != "error"@,
        "meta"@ != "error"@,
{
    reveal_strlit("delta");
    reveal_strlit("entry");
    reveal_strlit("history_terminate");
    reveal_strlit("usage");
    reveal_strlit("tool_start");
    reveal_strlit("tool_done");
    reveal_strlit("shell_result");
    reveal_strlit("user_message");
    reveal_strlit("turn");
    reveal_strlit("lifecycle");
    reveal_strlit("approval");
    reveal_strlit("meta");
    reveal_strlit("error");
    assert("delta"@.len() == 5);
    assert("entry"@.len() == 5);
    assert("history_terminate"@.len() == 17);
    assert("usage"@.len() == 5);
    assert("tool_start"@.len() == 10);
    assert("tool_done"@.len() == 9);
    assert("shell_result"@.len() == 12);
    assert("user_message"@.len() == 12);
    assert("turn"@.len() == 4);
    assert("lifecycle"@.len() == 9);
    assert("approval"@.len() == 8);
    assert("meta"@.len() == 4);
    assert("error"@.len() == 5);
    assert("delta"@[0] == 'd');
    assert("entry"@[0] == 'e');
    assert("entry"@[1] == 'n');
    assert("error"@[0] == 'e');
    assert("error"@[1] == 'r');
    assert("lifecycle"@[0] == 'l');
    assert("meta"@[0] == 'm');
    assert("shell_result"@[0] == 's');
    assert("tool_done"@[0] == 't');
    assert("turn"@[0] == 't');
    assert("usage"@[0] == 'u');
    assert("user_message"@[0] == 'u');
}

/// An envelope says on which stream its data is.
pub proof fn envelope_is_found(stream: Seq<char>, data: JsonV)
    ensures
        envelope(stream, data).get("stream"@) == Some(JsonV::Str(stream)),
        envelope(stream, data).get("data"@) == Some(data),
{
    reveal_strlit("stream");
    reveal_strlit("data");
    assert("stream"@.len() == 6);
    assert("data"@.len() == 4);
}

/// The message comes on the stream with the data.
pub open spec fn comes_on(msg: JsonV, stream: Seq<char>, data: JsonV) -> bool {
    &&& msg.get("stream"@) == Some(JsonV::Str(stream))
    &&& msg.get("data"@) == Some(data)
}

/// Each stream brings events of its kind, with the data as it came.
pub proof fn streams_bring_their_events(msg: JsonV, data: JsonV)
    ensures
        comes_on(msg, "delta"@, data) ==> event_of(msg) == Some(WicketEventV::Delta(data)),
        comes_on(msg, "entry"@, data) ==> event_of(msg) == Some(
            WicketEventV::Entry {
                data,
                replay_id: match msg.get("replay_id"@) {
                    Some(JsonV::Str(id)) => Some(id),
                    _ => None,
                },
            },
        ),
        comes_on(msg, "usage"@, data) ==> event_of(msg) == Some(WicketEventV::Usage(data)),
        comes_on(msg, "tool_start"@, data) ==> event_of(msg) == Some(WicketEventV::ToolStart(data)),
        comes_on(msg, "tool_done"@, data) ==> event_of(msg) == Some(WicketEventV::ToolDone(data)),
        comes_on(msg, "shell_result"@, data) ==> event_of(msg) == Some(
            WicketEventV::ShellResult(data),
        ),
        comes_on(msg, "turn"@, data) ==> event_of(msg) == Some(WicketEventV::Turn(data)),
        comes_on(msg, "approval"@, data) ==> event_of(msg) == Some(WicketEventV::Approval(data)),
        comes_on(msg, "meta"@, data) ==> event_of(msg) == Some(WicketEventV::Meta(data)),
{
    lemma_streams();
}

/// A message of the user brings its text, and whether it is a notification.
pub proof fn user_message_brings_its_text(msg: JsonV, data: JsonV, text: Seq<char>)
    requires
        comes_on(msg, "user_message"@, data),
        data.get("text"@) == Some(JsonV::Str(text)),
    ensures
        event_of(msg) == Some(
            WicketEventV::UserMessage {
                text,
                notification: data.get("notification"@) == Some(JsonV::Bool(true)),
            },
        ),
{
    lemma_streams();
}

/// An error brings its message, or says that it has none.
pub proof fn error_brings_its_message(msg: JsonV, data: JsonV, message: Seq<char>)
    requires
        comes_on(msg, "error"@, data),
    ensures
        data.get("message"@) == Some(JsonV::Str(message)) ==> event_of(msg) == Some(
            WicketEventV::Error(message),
        ),
        data.get("message"@) is None ==> event_of(msg) == Some(
            WicketEventV::Error("unknown error"@),
        ),
{
    lemma_streams();
}

/// The end of a replay names the replay; without a name it is none.
pub proof fn replay_ends_by_name(msg: JsonV, data: JsonV, id: Seq<char>)
    requires
        comes_on(msg, "history_terminate"@, data),
    ensures
        msg.get("replay_id"@) == Some(JsonV::Str(id)) ==> event_of(msg) == Some(
            WicketEventV::HistoryTerminate { replay_id: id },
        ),
        msg.get("replay_id"@) is None ==> event_of(msg) is None,
{
    lemma_streams();
}

/// An event of the wicket's life is named by a text, or by the key of an object.
pub proof fn life_is_named(msg: JsonV, data: JsonV, name: Seq<char>)
    requires
        comes_on(msg, "lifecycle"@, data),
    ensures
        data == JsonV::Str(name) ==> event_of(msg) == Some(WicketEventV::Lifecycle(name)),
        data is Obj && first_key_of(data) == Some(name) ==> event_of(msg) == Some(
            WicketEventV::Lifecycle(name),
        ),
{
    lemma_streams();
}

/// Any other stream brings nothing.
pub proof fn other_streams_bring_nothing(msg: JsonV, stream: Seq<char>)
    requires
        msg.get("stream"@) == Some(JsonV::Str(stream)),
        stream != "delta"@,
        stream != "entry"@,
        stream != "history_terminate"@,
        stream != "usage"@,
        stream != "tool_start"@,
        stream != "tool_done"@,
        stream != "shell_result"@,
        stream != "user_message"@,
        stream != "turn"@,
        stream != "lifecycle"@,
        stream != "approval"@,
        stream != "meta"@,
        stream != "error"@,
    ensures
        event_of(msg) is None,
{
}

/// The first word to the wicket names the window and the protocol.
pub proof fn association_is_found(slug: Seq<char>, protocol: Seq<char>)
    ensures
        association(slug, protocol).get("slug"@) == Some(JsonV::Str(slug)),
        association(slug, protocol).get("protocol"@) == Some(JsonV::Str(protocol)),
{
    reveal_strlit("slug");
    reveal_strlit("protocol");
    assert("slug"@.len() == 4);
    assert("protocol"@.len() == 8);
}

/// A replay is asked for by the window, the purpose and the name of the replay.
pub proof fn history_request_is_found(slug: Seq<char>, intent: Seq<char>, replay_id: Seq<char>)
    ensures
        history_request(slug, intent, replay_id).get("slug"@) == Some(JsonV::Str(slug)),
        history_request(slug, intent, replay_id).get("intent"@) == Some(JsonV::Str(intent)),
        history_request(slug, intent, replay_id).get("replay_id"@) == Some(JsonV::Str(replay_id)),
{
    reveal_strlit("slug");
    reveal_strlit("intent");
    reveal_strlit("replay_id");
    assert("slug"@.len() == 4);
    assert("intent"@.len() == 6);
    assert("replay_id"@.len() == 9);
}

/// A verdict allows without a word, or denies with the reason that is given, or else with the one
/// that stands for none.
pub proof fn verdict_is_found(message: Seq<char>, unsaid: Seq<char>, any: Option<Seq<char>>)
    ensures
        verdict(true, any, unsaid).get("behavior"@) == Some(JsonV::Str("allow"@)),
        verdict(true, any, unsaid).get("message"@) is None,
        verdict(false, any, unsaid).get("behavior"@) == Some(JsonV::Str("deny"@)),
        verdict(false, Some(message), unsaid).get("message"@) == Some(JsonV::Str(message)),
        verdict(false, None, unsaid).get("message"@) == Some(JsonV::Str(unsaid)),
{
    reveal_strlit("behavior");
    reveal_strlit("message");
    assert("behavior"@.len() == 8);
    assert("message"@.len() == 7);
}

/// A text from the wicket brings what the value in it brings, and nothing where it is no JSON.
pub proof fn texts_bring_their_events(text: Seq<char>, msg: JsonV)
    ensures
        parsed(text) == Some(msg) ==> event_in(text) == event_of(msg),
        parsed(text) is None ==> event_in(text) is None,
{
}

/// What is sent waits behind all that waits, while the connection is open; on a closed one nothing
/// is sent, and the sender is told.
pub proof fn messages_wait_in_order(
    before: WicketClient,
    after: WicketClient,
    out: Result<(), ChannelClosed>,
    text: Seq<char>,
)
    requires
        WicketClient::sent(before, after, out, text),
    ensures
        before.is_open() ==> after.waiting() == before.waiting() + seq![text] && out is Ok,
        !before.is_open() ==> after.waiting() == before.waiting() && out is Err,
        after.is_open() == before.is_open(),
{
    assert(before.waiting().push(text) =~= before.waiting() + seq![text]);
}

/// A frame goes to the client as one object, with the version of the protocol first.
pub proof fn frames_are_written(
    id: JsonV,
    result: JsonV,
    code: int,
    message: Seq<char>,
    method: Seq<char>,
    params: JsonV,
)
    ensures
        frame_text(FrameV::Response { id, result }) == "{\"jsonrpc\":\"2.0\",\"id\":"@
            + compact_text(id) + ",\"result\":"@ + compact_text(result) + "}"@,
        frame_text(FrameV::Failure { id, code, message })
            == "{\"jsonrpc\":\"2.0\",\"id\":"@ + compact_text(id)
            + ",\"error\":{\"code\":"@ + compact_text(JsonV::Num(NumV::Int(code)))
            + ",\"message\":"@ + compact_text(JsonV::Str(message)) + "}}"@,
        frame_text(FrameV::Notice { method, params }) == compact_text(
            frame_json(FrameV::Notice { method, params }),
        ),
{
}

// ---------------------------------------------------------------------------
// The connection of a reader

/// The first word of a reader names the window.
pub proof fn hello_is_found(slug: Seq<char>)
    ensures
        hello(slug).get("slug"@) == Some(JsonV::Str(slug)),
{
    reveal_strlit("slug");
    assert("slug"@.len() == 4);
}

/// What is sent is the text, with where it is to run: here, or on the host that is named, and there
/// without questions where that is wanted.
pub proof fn prompt_is_found(content: Seq<char>, target: SpawnTarget)
    ensures
        prompt(content, target).get("message"@) == Some(JsonV::Str(content)),
        target is Local ==> prompt(content, target).get("remote"@) == Some(JsonV::Null) && prompt(
            content,
            target,
        ).get("yolo"@) == Some(JsonV::Bool(false)),
        target matches SpawnTarget::Remote { host, yolo } ==> prompt(content, target).get(
            "remote"@,
        ) == Some(JsonV::Str(host@)) && prompt(content, target).get("yolo"@) == Some(
            JsonV::Bool(yolo),
        ),
{
    reveal_strlit("message");
    reveal_strlit("remote");
    reveal_strlit("yolo");
    assert("message"@.len() == 7);
    assert("remote"@.len() == 6);
    assert("yolo"@.len() == 4);
}

/// A line for the log has its level, its message and its fields.
pub proof fn log_record_is_found(level: Seq<char>, message: Seq<char>, fields: JsonV)
    ensures
        log_record(level, message, fields).get("level"@) == Some(JsonV::Str(level)),
        log_record(level, message, fields).get("message"@) == Some(JsonV::Str(message)),
        log_record(level, message, fields).get("fields"@) == Some(fields),
{
    reveal_strlit("level");
    reveal_strlit("message");
    reveal_strlit("fields");
    assert("level"@.len() == 5);
    assert("message"@.len() == 7);
    assert("fields"@.len() == 6);
}

/// An entry of a conversation is shown whole: who speaks, every block in its order with its text,
/// and what else is known of it.
pub proof fn entry_is_shown_whole(entry: ConversationEntry, wire: WireEntry, i: int)
    requires
        entry.shows(wire),
        0 <= i < wire.blocks@.len(),
    ensures
        wire.kind@ == "user"@ ==> entry.kind == EntryKind::User,
        wire.kind@ == "assistant"@ ==> entry.kind == EntryKind::Assistant,
        entry.blocks@.len() == wire.blocks@.len(),
        wire.blocks@[i] matches WireBlock::Text { text } ==> entry.blocks@[i]@ == (BlockV::Text {
            text: text@,
        }),
        wire.blocks@[i] matches WireBlock::Thinking { text } ==> entry.blocks@[i]@ == (
        BlockV::Thinking { text: text@ }),
        wire.blocks@[i] matches WireBlock::ToolUse { name, input_summary, .. }
            ==> entry.blocks@[i]@ == (BlockV::ToolUse {
            name: name@,
            input_summary: input_summary@,
        }),
        wire.blocks@[i] matches WireBlock::ToolResult { content, is_error } ==> entry.blocks@[i]@
            == (BlockV::ToolResult { content: content@, is_error, collapsed: true }),
        opt_text(entry.uuid) == opt_text(wire.uuid),
        entry.seq == wire.seq,
        opt_text(entry.timestamp) == opt_text(wire.timestamp),
        entry.input_tokens == wire.input_tokens,
        entry.output_tokens == wire.output_tokens,
{
    reveal_strlit("user");
    reveal_strlit("assistant");
    assert("user"@.len() == 4);
    assert("assistant"@.len() == 9);
    let shown = crate::model::blocks_view(entry.blocks@);
    assert(shown == shown_blocks(wire.blocks@));
    assert(shown.len() == wire.blocks@.len());
    assert(shown[i] == shown_block(wire.blocks@[i]));
}

/// Only what the user and the assistant say is shown, and only where they say anything.
pub proof fn only_speech_is_shown(wire: WireEntry)
    ensures
        is_shown(wire) <==> (wire.kind@ == "user"@ || wire.kind@ == "assistant"@)
            && wire.blocks@.len() > 0,
{
}

/// Each stream brings a reader its own events, with the data as it came.
pub proof fn streams_bring_a_reader_their_events(
    data: JsonV,
    wire: Option<WireEntry>,
    event: Option<WicketEvent>,
    message: Seq<char>,
)
    ensures
        brings("approval"@, data, wire, event) ==> (event matches Some(WicketEvent::Approval(d))
            && d@ == data),
        brings("delta"@, data, wire, event) ==> (event matches Some(WicketEvent::Delta(d)) && d@
            == data),
        brings("meta"@, data, wire, event) ==> (event matches Some(WicketEvent::Meta(d)) && d@
            == data),
        brings("lifecycle"@, data, wire, event) && data == JsonV::Str(message) ==> (
        event matches Some(WicketEvent::Lifecycle(name)) && name@ == message),
        brings("error"@, data, wire, event) && data.get("message"@) == Some(JsonV::Str(message))
            ==> (event matches Some(WicketEvent::Error(m)) && m@ == message),
        brings("entry"@, data, wire, event) && (wire matches Some(w) && is_shown(w)) ==> (
        event matches Some(WicketEvent::Entry(entry)) && entry.shows(wire->Some_0)),
        brings("entry"@, data, wire, event) && wire is None ==> event is None,
        brings("usage"@, data, wire, event) ==> event is None,
{
    lemma_streams();
}

// ---------------------------------------------------------------------------
// The easement

/// What comes over the easement is told as it came.
pub proof fn easement_tells_what_came(msg: Inbound, event: EasementEvent)
    requires
        tells(msg, event),
    ensures
        msg.body matches Body::Delta { event: e } ==> event == EasementEvent::Delta(e),
        msg.body matches Body::Usage { usage } ==> event == EasementEvent::Usage(usage),
        msg.body matches Body::TurnStarted { turn_id } ==> event == (EasementEvent::TurnStarted {
            turn_id,
        }),
        msg.body matches Body::TurnCompleted { turn_id, status } ==> event == (
        EasementEvent::TurnCompleted { turn_id, status }),
        msg.body matches Body::UserMessage { text } ==> event == (EasementEvent::UserMessage {
            text,
        }),
        msg.body matches Body::HistoryEntry { replay_id, entry } ==> event == (
        EasementEvent::HistoryEntry { replay_id, entry }),
        msg.body matches Body::HistoryBegin { replay_id, last_uuid } ==> event == (
        EasementEvent::HistoryBegin { replay_id, last_uuid, transcript: msg.transcript }),
        msg.body is RoundStarted ==> (event matches EasementEvent::Lifecycle(name) && name@
            == "round_started"@),
        msg.body is RoundCompleted ==> (event matches EasementEvent::Lifecycle(name) && name@
            == "round_completed"@),
        msg.body is RoundInterrupted ==> (event matches EasementEvent::Lifecycle(name) && name@
            == "round_interrupted"@),
        msg.body is RoundFailed ==> (event matches EasementEvent::Lifecycle(name) && name@
            == "round_failed"@),
{
}

/// What a client sends over the easement says what it is about, for which window and which
/// transcript, and what is wanted.
pub proof fn easement_sends_what_is_wanted(
    slug: String,
    transcript: String,
    text: String,
    turn: String,
)
    ensures
        ({
            let to = ",\"slug\":"@ + compact_text(JsonV::Str(slug@)) + ",\"transcript\":"@
                + compact_text(JsonV::Str(transcript@));
            let said = compact_text(JsonV::Str(text@));
            &&& outbound_text(Outbound::Start { slug, transcript, message: text })
                == "{\"what\":\"turn\",\"why\":\"start\""@ + to + ",\"message\":"@
                + said + "}"@
            &&& outbound_text(
                Outbound::Steer { slug, transcript, message: text, expected_turn_id: turn },
            ) == "{\"what\":\"turn\",\"why\":\"steer\""@ + to + ",\"message\":"@
                + said + ",\"expected_turn_id\":"@ + compact_text(JsonV::Str(turn@)) + "}"@
            &&& outbound_text(Outbound::Run { slug, transcript, command: text })
                == "{\"what\":\"shell\",\"why\":\"run\""@ + to + ",\"command\":"@
                + said + "}"@
            &&& outbound_text(Outbound::Replay { slug, transcript, replay_id: text })
                == "{\"what\":\"history\",\"why\":\"replay\""@ + to
                + ",\"replay_id\":"@ + said + "}"@
        }),
{
}

/// A client hears what is for its window, and once it keeps to a transcript only what is in that.
pub proof fn easement_hears_its_own(client: EasementClient, msg: Inbound)
    ensures
        msg.slug@ != client.slug@ ==> !client.concerned_by(msg),
        msg.slug@ == client.slug@ && client.pinned_transcript@.len() == 0 ==> client.concerned_by(
            msg,
        ),
        msg.slug@ == client.slug@ && client.pinned_transcript@.len() > 0 ==> (client.concerned_by(
            msg,
        ) <==> msg.transcript@ == client.pinned_transcript@),
{
}

// ---------------------------------------------------------------------------
// What is kept in files

/// A file that is followed line by line gives the value of each line that holds one; a line that is
/// not ended yet waits.
pub proof fn lines_are_followed(line: Seq<char>, rest: Seq<char>)
    requires
        forall|i: int| 0 <= i < line.len() ==> #[trigger] line[i] != '\n',
    ensures
        complete(line + seq!['\n'] + rest) == seq![line] + complete(rest),
        partial(line + seq!['\n'] + rest) == partial(rest),
        complete(line) == Seq::<Seq<char>>::empty(),
        partial(line) == line,
{
    parts_are_split_at_separators(line, '\n', rest);
    joining_undoes_splitting(rest, '\n');
    let more = split(rest, '\n');
    assert((seq![line] + more).drop_last() =~= seq![line] + more.drop_last());
    assert((seq![line] + more).last() == more.last());
}

/// The values of lines come in their order; blank and broken lines are passed over.
pub proof fn values_of_lines(line: Seq<char>, rest: Seq<Seq<char>>)
    ensures
        trim(line).len() > 0 && parsed(trim(line)) is Some ==> values(seq![line] + rest) == seq![
            parsed(trim(line))->Some_0,
        ] + values(rest),
        trim(line).len() == 0 || parsed(trim(line)) is None ==> values(seq![line] + rest) == values(
            rest,
        ),
        values(Seq::empty()) == Seq::<JsonV>::empty(),
{
    let all = seq![line] + rest;
    assert(all.skip(1) =~= rest);
}

/// A session is read by its fields.
pub proof fn session_is_read_by_its_fields(v: JsonV, session_id: Seq<char>, timestamp: Seq<char>)
    requires
        v.get("session_id"@) == Some(JsonV::Str(session_id)),
        v.get("timestamp"@) == Some(JsonV::Str(timestamp)),
    ensures
        session_in(v) == Some(SessionV { session_id, timestamp }),
{
}

/// A line of the log of messages says when it was, which way it went, and what it was.
pub proof fn exchange_is_found(ts: Seq<char>, dir: Seq<char>, data: JsonV)
    ensures
        exchange_entry(ts, dir, data).get("ts"@) == Some(JsonV::Str(ts)),
        exchange_entry(ts, dir, data).get("dir"@) == Some(JsonV::Str(dir)),
        exchange_entry(ts, dir, data).get("data"@) == Some(data),
{
    reveal_strlit("ts");
    reveal_strlit("dir");
    reveal_strlit("data");
    assert("ts"@.len() == 2);
    assert("dir"@.len() == 3);
    assert("data"@.len() == 4);
}

/// A line about a session says which one it is and when it was.
pub proof fn session_is_found(session_id: Seq<char>, timestamp: Seq<char>)
    ensures
        session_json(session_id, timestamp).get("session_id"@) == Some(JsonV::Str(session_id)),
        session_json(session_id, timestamp).get("timestamp"@) == Some(JsonV::Str(timestamp)),
{
    reveal_strlit("session_id");
    reveal_strlit("timestamp");
    assert("session_id"@.len() == 10);
    assert("timestamp"@.len() == 9);
}

/// The log of messages of a window is in a directory of its own below the home directory, and the
/// sessions of a window are in one below the directory for settings.
pub proof fn files_are_below_the_home(home: Seq<char>, slug: Seq<char>)
    requires
        home.len() > 0,
        home.last() != '/',
        slug.len() > 0,
        slug[0] != '/',
        slug.last() != '/',
    ensures
        window_dir(home, slug) == home + "/.local/state/puzzle/"@ + slug,
        joined(window_dir(home, slug), "puzzle-exchange.jsonl"@) == home
            + "/.local/state/puzzle/"@ + slug + "/puzzle-exchange.jsonl"@,
        sessions_file(home, slug) == home + "/"@ + slug + "/sessions.jsonl"@,
{
    reveal_strlit(".local/state/puzzle");
    reveal_strlit("/.local/state/puzzle/");
    reveal_strlit("puzzle-exchange.jsonl");
    reveal_strlit("/puzzle-exchange.jsonl");
    reveal_strlit("/");
    reveal_strlit("sessions.jsonl");
    reveal_strlit("/sessions.jsonl");
    let state = joined(home, ".local/state/puzzle"@);
    assert(state =~= home + seq!['/'] + ".local/state/puzzle"@);
    assert(state.last() == ".local/state/puzzle"@.last());
    assert(window_dir(home, slug) =~= home + "/.local/state/puzzle/"@ + slug);
    assert(window_dir(home, slug).last() == slug.last());
    assert(joined(window_dir(home, slug), "puzzle-exchange.jsonl"@) =~= home
        + "/.local/state/puzzle/"@ + slug + "/puzzle-exchange.jsonl"@);
    assert(joined(home, slug) =~= home + "/"@ + slug);
    assert(joined(home, slug).last() == slug.last());
    assert(sessions_file(home, slug) =~= home + "/"@ + slug + "/sessions.jsonl"@);
}

// ---------------------------------------------------------------------------
// Summaries

/// The thread is forked behind the turn that is to be summarized, without its turns and for this
/// use alone.
pub proof fn fork_is_found(thread_id: Seq<char>, last_turn_id: Seq<char>)
    ensures
        fork_request(thread_id, last_turn_id).get("threadId"@) == Some(JsonV::Str(thread_id)),
        fork_request(thread_id, last_turn_id).get("lastTurnId"@) == Some(JsonV::Str(last_turn_id)),
        fork_request(thread_id, last_turn_id).get("model"@) == Some(JsonV::Str(SUMMARY_MODEL@)),
        fork_request(thread_id, last_turn_id).get("ephemeral"@) == Some(JsonV::Bool(true)),
        fork_request(thread_id, last_turn_id).get("excludeTurns"@) == Some(JsonV::Bool(true)),
{
    reveal_strlit("threadId");
    reveal_strlit("lastTurnId");
    reveal_strlit("model");
    reveal_strlit("ephemeral");
    reveal_strlit("excludeTurns");
    assert("threadId"@.len() == 8);
    assert("lastTurnId"@.len() == 10);
    assert("model"@.len() == 5);
    assert("ephemeral"@.len() == 9);
    assert("excludeTurns"@.len() == 12);
}

/// The summary is asked of the fork with the one prompt there is, in the one form there is.
pub proof fn summary_turn_is_found(thread_id: Seq<char>)
    ensures
        ({
            let request = summary_turn_request(thread_id);
            &&& request.get("threadId"@) == Some(JsonV::Str(thread_id))
            &&& request.get("model"@) == Some(JsonV::Str(SUMMARY_MODEL@))
            &&& request.get("effort"@) == Some(JsonV::Str("low"@))
            &&& request.get("outputSchema"@) == Some(crate::window::schema())
            &&& request.get("input"@) matches Some(JsonV::Arr(parts)) && parts.len() == 1
                && parts[0].get("type"@) == Some(JsonV::Str("text"@)) && parts[0].get("text"@)
                == Some(JsonV::Str(SUMMARY_PROMPT@))
        }),
{
    reveal_strlit("threadId");
    reveal_strlit("input");
    reveal_strlit("model");
    reveal_strlit("effort");
    reveal_strlit("outputSchema");
    assert("threadId"@.len() == 8);
    assert("input"@.len() == 5);
    assert("model"@.len() == 5);
    assert("effort"@.len() == 6);
    assert("outputSchema"@.len() == 12);
    assert("input"@[0] == 'i');
    assert("model"@[0] == 'm');
    reveal_strlit("type");
    reveal_strlit("text");
    reveal_strlit("textElements");
    assert("type"@.len() == 4);
    assert("text"@.len() == 4);
    assert("textElements"@.len() == 12);
    assert("text"@[1] == 'e');
    assert("type"@[1] == 'y');
}

/// Each call of a summary is the request of its name, for its thread.
pub proof fn summary_calls_are_requests(thread_id: String, turn_id: String, request_id: i64)
    ensures
        request_of(SummaryCall::Fork { thread_id, last_turn_id: turn_id, request_id }) == Some(
            ("thread/fork"@, fork_request(thread_id@, turn_id@)),
        ),
        request_of(SummaryCall::Start { thread_id, request_id }) == Some(
            ("turn/start"@, summary_turn_request(thread_id@)),
        ),
        request_of(SummaryCall::Unsubscribe { thread_id, request_id }) matches Some(
            (method, params),
        ) && method == "thread/unsubscribe"@ && params.get("threadId"@) == Some(
            JsonV::Str(thread_id@),
        ),
{
}

/// A summary that goes well: the fork is asked, what its last message holds is decoded, the fork is
/// left, and what was decoded comes out, on one line and short.
pub proof fn summary_comes_out(
    r0: SummaryRun,
    r1: SummaryRun,
    r2: SummaryRun,
    r3: SummaryRun,
    r4: SummaryRun,
    r5: SummaryRun,
    fork: String,
    turn: String,
    items: Vec<TurnItem>,
    payload: SummaryPayload,
    start: SummaryCall,
    listen: SummaryCall,
    decode: SummaryCall,
    leave: SummaryCall,
    end: SummaryCall,
)
    requires
        r0.stage is Forking,
        follows(r0, SummaryHeard::Made(fork), r1, start),
        follows(r1, SummaryHeard::Made(turn), r2, listen),
        follows(
            r2,
            SummaryHeard::Completed {
                thread_id: fork,
                turn_id: turn,
                status: TurnStatus::Completed,
                items,
            },
            r3,
            decode,
        ),
        last_message(items@) is Some,
        follows(r3, SummaryHeard::Decoded(Ok(payload)), r4, leave),
        follows(r4, SummaryHeard::Left, r5, end),
    ensures
        start == (SummaryCall::Start { thread_id: fork, request_id: r0.request_id }),
        listen is Listen,
        decode matches SummaryCall::Decode(text) && Some(text@) == last_message(items@),
        leave matches SummaryCall::Unsubscribe { thread_id, .. } && thread_id == fork,
        normalized(payload.summary@).len() > 0 ==> (end matches SummaryCall::Finish(Ok(kept))
            && kept.summary@ == normalized(payload.summary@) && kept.attention
            == payload.attention),
        normalized(payload.summary@).len() == 0 ==> end == SummaryCall::Finish(
            Err(SummaryFailure::Unreadable(SummaryError::Empty)),
        ),
        r1.request_id == r0.request_id + 1,
        r4.request_id == r0.request_id + 2,
        r5.request_id == r4.request_id,
{
}

/// Where the fork could not be made there is nothing to leave, and the reason is told.
pub proof fn failed_fork_is_told(
    r: SummaryRun,
    heard: SummaryHeard,
    after: SummaryRun,
    call: SummaryCall,
)
    requires
        r.stage is Forking,
        can_hear(r.stage, heard),
        follows(r, heard, after, call),
    ensures
        heard matches SummaryHeard::Failed(reason) ==> call == SummaryCall::Finish(
            Err(SummaryFailure::ForkFailed(reason)),
        ),
        heard is TimedOut ==> call == SummaryCall::Finish(Err(SummaryFailure::ForkTimedOut)),
{
}

/// Whatever goes wrong once the fork is there, the fork is left first and then the reason is told.
pub proof fn failure_is_told_after_leaving(
    r: SummaryRun,
    heard: SummaryHeard,
    left: SummaryRun,
    call: SummaryCall,
    after: SummaryRun,
    end: SummaryCall,
    fork: String,
    turn: String,
)
    requires
        r.stage == (SummaryStage::Waiting { fork, turn }),
        can_hear(r.stage, heard),
        follows(r, heard, left, call),
        left.stage is Leaving,
        follows(left, SummaryHeard::Left, after, end),
    ensures
        call == (SummaryCall::Unsubscribe { thread_id: fork, request_id: r.request_id }),
        heard is TimedOut ==> end == SummaryCall::Finish(Err(SummaryFailure::TurnTimedOut)),
        heard is Closed ==> end == SummaryCall::Finish(Err(SummaryFailure::Closed)),
        heard matches SummaryHeard::Disconnected(reason) ==> end == SummaryCall::Finish(
            Err(SummaryFailure::Disconnected(reason)),
        ),
        heard matches SummaryHeard::Completed { status, .. } ==> status != TurnStatus::Completed
            ==> end == SummaryCall::Finish(Err(SummaryFailure::Ended(status))),
        heard matches SummaryHeard::Completed { status, .. } ==> status == TurnStatus::Completed
            ==> end == SummaryCall::Finish(
            Err(SummaryFailure::Unreadable(SummaryError::NoMessage)),
        ),
{
}

/// A turn that could not be started ends the summary in the same way.
pub proof fn failed_start_is_told_after_leaving(
    r: SummaryRun,
    heard: SummaryHeard,
    left: SummaryRun,
    call: SummaryCall,
    after: SummaryRun,
    end: SummaryCall,
    fork: String,
)
    requires
        r.stage == (SummaryStage::Starting { fork }),
        heard is Failed || heard is TimedOut,
        follows(r, heard, left, call),
        follows(left, SummaryHeard::Left, after, end),
    ensures
        call == (SummaryCall::Unsubscribe { thread_id: fork, request_id: r.request_id }),
        heard matches SummaryHeard::Failed(reason) ==> end == SummaryCall::Finish(
            Err(SummaryFailure::StartFailed(reason)),
        ),
        heard is TimedOut ==> end == SummaryCall::Finish(Err(SummaryFailure::TurnTimedOut)),
{
}

/// What is told of a failure holds the reason that was given.
pub proof fn failures_tell_their_reason(reason: String)
    ensures
        failure_text(SummaryFailure::ForkFailed(reason)) == "fork source thread for summary: "@
            + reason@,
        failure_text(SummaryFailure::StartFailed(reason)) == "start summary turn: "@ + reason@,
        failure_text(SummaryFailure::Disconnected(reason)) == reason@,
        failure_text(SummaryFailure::Unreadable(SummaryError::NotDecoded(reason)))
            == "decode structured summary response: "@ + reason@,
        failure_text(SummaryFailure::Ended(TurnStatus::Failed)) == "summary turn ended with "@
            + "Failed"@,
        failure_text(SummaryFailure::Ended(TurnStatus::Interrupted)) == "summary turn ended with "@
            + "Interrupted"@,
{
}

} // verus!

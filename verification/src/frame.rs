//! The messages that a bridge sends to its client, and the log of what passes.

use vstd::prelude::*;

use crate::json::{compact_text, jint, jstr, Json, JsonV, NumV};

verus! {

// ---------------------------------------------------------------------------
// Messages of the remote procedure call protocol

#[derive(Debug)]
pub enum Frame {
    Response { id: Json, result: Json },
    Failure { id: Json, code: i32, message: String },
    Notice { method: String, params: Json },
    Request { id: i64, method: String, params: Json },
}

pub enum FrameV {
    Response { id: JsonV, result: JsonV },
    Failure { id: JsonV, code: int, message: Seq<char> },
    Notice { method: Seq<char>, params: JsonV },
    Request { id: int, method: Seq<char>, params: JsonV },
}

impl View for Frame {
    type V = FrameV;

    open spec fn view(&self) -> FrameV {
        match self {
            Frame::Response { id, result } => FrameV::Response { id: id@, result: result@ },
            Frame::Failure { id, code, message } => FrameV::Failure {
                id: id@,
                code: *code as int,
                message: message@,
            },
            Frame::Notice { method, params } => FrameV::Notice {
                method: method@,
                params: params@,
            },
            Frame::Request { id, method, params } => FrameV::Request {
                id: *id as int,
                method: method@,
                params: params@,
            },
        }
    }
}

pub open spec fn error_json(code: int, message: Seq<char>) -> JsonV {
    JsonV::Obj(map!["code"@ => jint(code), "message"@ => jstr(message)])
}

/// A message as JSON.
pub open spec fn frame_json(frame: FrameV) -> JsonV {
    match frame {
        FrameV::Response { id, result } => JsonV::Obj(
            map!["jsonrpc"@ => jstr("2.0"@), "id"@ => id, "result"@ => result],
        ),
        FrameV::Failure { id, code, message } => JsonV::Obj(
            map!["jsonrpc"@ => jstr("2.0"@), "id"@ => id, "error"@ => error_json(code, message)],
        ),
        FrameV::Notice { method, params } => JsonV::Obj(
            map!["jsonrpc"@ => jstr("2.0"@), "method"@ => jstr(method), "params"@ => params],
        ),
        FrameV::Request { id, method, params } => JsonV::Obj(
            map![
                "jsonrpc"@ => jstr("2.0"@),
                "id"@ => jint(id),
                "method"@ => jstr(method),
                "params"@ => params,
            ],
        ),
    }
}

/// A message as it is written: the version, the id and what is answered follow in this order.
pub open spec fn frame_text(frame: FrameV) -> Seq<char> {
    match frame {
        FrameV::Response { id, result } => "{\"jsonrpc\":\"2.0\",\"id\":"@ + compact_text(id)
            + ",\"result\":"@ + compact_text(result) + "}"@,
        FrameV::Failure { id, code, message } => "{\"jsonrpc\":\"2.0\",\"id\":"@ + compact_text(id)
            + ",\"error\":{\"code\":"@ + compact_text(jint(code)) + ",\"message\":"@
            + compact_text(jstr(message)) + "}}"@,
        _ => compact_text(frame_json(frame)),
    }
}

impl Frame {
    pub fn to_json(&self) -> (out: Json)
        ensures
            out@ == frame_json(self@),
    {
        let version = Json::object().with("jsonrpc", Json::string("2.0"));
        match self {
            Frame::Response { id, result } => version.with("id", id.copy()).with(
                "result",
                result.copy(),
            ),
            Frame::Failure { id, code, message } => {
                let error = Json::object().with("code", Json::integer(*code as i64)).with(
                    "message",
                    Json::string(message.as_str()),
                );
                assert(error@ == error_json(*code as int, message@));
                version.with("id", id.copy()).with("error", error)
            },
            Frame::Notice { method, params } => version.with(
                "method",
                Json::string(method.as_str()),
            ).with("params", params.copy()),
            Frame::Request { id, method, params } => version.with("id", Json::integer(*id)).with(
                "method",
                Json::string(method.as_str()),
            ).with("params", params.copy()),
        }
    }

    pub fn text(&self) -> (out: String)
        ensures
            out@ == frame_text(self@),
    {
        match self {
            Frame::Response { id, result } => {
                let mut out = "{\"jsonrpc\":\"2.0\",\"id\":".to_owned();
                out.append(id.text().as_str());
                out.append(",\"result\":");
                out.append(result.text().as_str());
                out.append("}");
                out
            },
            Frame::Failure { id, code, message } => {
                let mut out = "{\"jsonrpc\":\"2.0\",\"id\":".to_owned();
                out.append(id.text().as_str());
                out.append(",\"error\":{\"code\":");
                out.append(Json::integer(*code as i64).text().as_str());
                out.append(",\"message\":");
                out.append(Json::string(message.as_str()).text().as_str());
                out.append("}}");
                out
            },
            _ => self.to_json().text(),
        }
    }
}

// ---------------------------------------------------------------------------
// What a bridge does

#[derive(Debug)]
pub enum Out {
    /// A line for the log.
    Log { dir: String, data: Json },
    /// A message to the client; `logged` where it is logged before it is sent, `required` where
    /// the bridge ends when it cannot be sent.
    Frame { frame: Frame, logged: bool, required: bool },
    /// An envelope to the wicket; the bridge ends when it cannot be sent.
    Envelope { stream: String, data: Json },
}

pub enum OutV {
    Log { dir: Seq<char>, data: JsonV },
    Frame { frame: FrameV, logged: bool, required: bool },
    Envelope { stream: Seq<char>, data: JsonV },
}

impl View for Out {
    type V = OutV;

    open spec fn view(&self) -> OutV {
        match self {
            Out::Log { dir, data } => OutV::Log { dir: dir@, data: data@ },
            Out::Frame { frame, logged, required } => OutV::Frame {
                frame: frame@,
                logged: *logged,
                required: *required,
            },
            Out::Envelope { stream, data } => OutV::Envelope { stream: stream@, data: data@ },
        }
    }
}

pub open spec fn outs_view(outs: Seq<Out>) -> Seq<OutV> {
    Seq::new(outs.len(), |i: int| outs[i]@)
}

pub(crate) fn nothing() -> (out: Vec<Out>)
    ensures
        outs_view(out@) == Seq::<OutV>::empty(),
{
    let out: Vec<Out> = Vec::new();
    assert(outs_view(out@) =~= Seq::<OutV>::empty());
    out
}

pub(crate) fn add_out(outs: &mut Vec<Out>, out: Out)
    ensures
        outs_view(final(outs)@) == outs_view(old(outs)@).push(out@),
{
    assert(outs_view(outs@.push(out)) =~= outs_view(outs@).push(out@));
    outs.push(out);
}

pub(crate) fn add_outs(outs: &mut Vec<Out>, more: Vec<Out>)
    ensures
        outs_view(final(outs)@) == outs_view(old(outs)@) + outs_view(more@),
{
    let mut more = more;
    assert(outs_view(outs@ + more@) =~= outs_view(outs@) + outs_view(more@));
    outs.append(&mut more);
}

/// A response to a request, which is logged and has to be sent.
pub open spec fn response(id: JsonV, result: JsonV) -> OutV {
    OutV::Frame { frame: FrameV::Response { id, result }, logged: true, required: true }
}

pub open spec fn failure(id: JsonV, code: int, message: Seq<char>) -> OutV {
    OutV::Frame { frame: FrameV::Failure { id, code, message }, logged: true, required: true }
}

pub open spec fn notice(method: Seq<char>, params: JsonV, logged: bool, required: bool) -> OutV {
    OutV::Frame { frame: FrameV::Notice { method, params }, logged, required }
}

pub(crate) fn response_out(id: Json, result: Json) -> (out: Out)
    ensures
        out@ == response(id@, result@),
{
    Out::Frame { frame: Frame::Response { id, result }, logged: true, required: true }
}

pub(crate) fn failure_out(id: Json, code: i32, message: String) -> (out: Out)
    ensures
        out@ == failure(id@, code as int, message@),
{
    Out::Frame { frame: Frame::Failure { id, code, message }, logged: true, required: true }
}

pub(crate) fn notice_out(method: &str, params: Json, logged: bool, required: bool) -> (out: Out)
    ensures
        out@ == notice(method@, params@, logged, required),
{
    Out::Frame { frame: Frame::Notice { method: method.to_owned(), params }, logged, required }
}

// ---------------------------------------------------------------------------
// What notices carry

/// A turn whose items are sent apart from it.
pub open spec fn bare_turn(id: Seq<char>, status: Seq<char>, started: int, completed: JsonV) -> JsonV {
    JsonV::Obj(
        map![
            "id"@ => jstr(id),
            "items"@ => JsonV::Arr(Seq::empty()),
            "itemsView"@ => jstr("full"@),
            "status"@ => jstr(status),
            "error"@ => JsonV::Null,
            "startedAt"@ => jint(started),
            "completedAt"@ => completed,
            "durationMs"@ => JsonV::Null,
        ],
    )
}

pub open spec fn turn_params(thread: Seq<char>, turn: JsonV) -> JsonV {
    JsonV::Obj(map!["threadId"@ => jstr(thread), "turn"@ => turn])
}

/// An item of a turn with the time at which it was started or completed, whichever `when` says.
pub open spec fn item_params(
    thread: Seq<char>,
    turn: Seq<char>,
    when: Seq<char>,
    millis: int,
    item: JsonV,
) -> JsonV {
    JsonV::Obj(
        map![
            "threadId"@ => jstr(thread),
            "turnId"@ => jstr(turn),
            when => jint(millis),
            "item"@ => item,
        ],
    )
}

pub open spec fn delta_params(
    thread: Seq<char>,
    turn: Seq<char>,
    item: Seq<char>,
    delta: Seq<char>,
) -> JsonV {
    JsonV::Obj(
        map![
            "threadId"@ => jstr(thread),
            "turnId"@ => jstr(turn),
            "itemId"@ => jstr(item),
            "delta"@ => jstr(delta),
        ],
    )
}

pub open spec fn summary_params(
    thread: Seq<char>,
    turn: Seq<char>,
    item: Seq<char>,
    delta: Seq<char>,
) -> JsonV {
    delta_params(thread, turn, item, delta).put("summaryIndex"@, jint(0))
}

pub open spec fn changes_params(
    thread: Seq<char>,
    turn: Seq<char>,
    item: Seq<char>,
    changes: Seq<JsonV>,
) -> JsonV {
    JsonV::Obj(
        map![
            "threadId"@ => jstr(thread),
            "turnId"@ => jstr(turn),
            "itemId"@ => jstr(item),
            "changes"@ => JsonV::Arr(changes),
        ],
    )
}

pub open spec fn image_item(id: Seq<char>, path: Seq<char>) -> JsonV {
    JsonV::Obj(map!["type"@ => jstr("imageView"@), "id"@ => jstr(id), "path"@ => jstr(path)])
}

pub(crate) fn bare_turn_json(id: &str, status: &str, started: i64, completed: Json) -> (out: Json)
    ensures
        out@ == bare_turn(id@, status@, started as int, completed@),
{
    Json::object().with("id", Json::string(id)).with("items", Json::empty_list()).with(
        "itemsView",
        Json::string("full"),
    ).with("status", Json::string(status)).with("error", Json::Null).with(
        "startedAt",
        Json::integer(started),
    ).with("completedAt", completed).with("durationMs", Json::Null)
}

pub(crate) fn turn_params_json(thread: &str, turn: Json) -> (out: Json)
    ensures
        out@ == turn_params(thread@, turn@),
{
    Json::object().with("threadId", Json::string(thread)).with("turn", turn)
}

pub(crate) fn item_params_json(
    thread: &str,
    turn: &str,
    when: &str,
    millis: i64,
    item: Json,
) -> (out: Json)
    ensures
        out@ == item_params(thread@, turn@, when@, millis as int, item@),
{
    Json::object().with("threadId", Json::string(thread)).with("turnId", Json::string(turn)).with(
        when,
        Json::integer(millis),
    ).with("item", item)
}

pub(crate) fn delta_params_json(thread: &str, turn: &str, item: &str, delta: &str) -> (out: Json)
    ensures
        out@ == delta_params(thread@, turn@, item@, delta@),
{
    Json::object().with("threadId", Json::string(thread)).with("turnId", Json::string(turn)).with(
        "itemId",
        Json::string(item),
    ).with("delta", Json::string(delta))
}

pub(crate) fn summary_params_json(thread: &str, turn: &str, item: &str, delta: &str) -> (out: Json)
    ensures
        out@ == summary_params(thread@, turn@, item@, delta@),
{
    delta_params_json(thread, turn, item, delta).with("summaryIndex", Json::integer(0))
}

pub(crate) fn changes_params_json(
    thread: &str,
    turn: &str,
    item: &str,
    changes: Vec<Json>,
) -> (out: Json)
    ensures
        out@ == changes_params(thread@, turn@, item@, crate::json::items_view(changes@)),
{
    Json::object().with("threadId", Json::string(thread)).with("turnId", Json::string(turn)).with(
        "itemId",
        Json::string(item),
    ).with("changes", Json::Array(changes))
}

pub(crate) fn image_item_json(id: &str, path: &str) -> (out: Json)
    ensures
        out@ == image_item(id@, path@),
{
    Json::object().with("type", Json::string("imageView")).with("id", Json::string(id)).with(
        "path",
        Json::string(path),
    )
}

// ---------------------------------------------------------------------------
// Token usage

/// The number of tokens in a field; none counted where the field holds no integer.
pub open spec fn tokens_at(usage: JsonV, key: Seq<char>) -> int {
    match usage.i64_at(key) {
        Some(n) => n as int,
        None => 0,
    }
}

/// The sums over a usage can be held.
pub open spec fn usage_fits(usage: JsonV) -> bool {
    let input = tokens_at(usage, "input_tokens"@);
    let cached = tokens_at(usage, "cache_read_input_tokens"@);
    let output = tokens_at(usage, "output_tokens"@);
    i64::MIN <= input + cached <= i64::MAX && i64::MIN <= input + cached + output <= i64::MAX
}

pub open spec fn breakdown(usage: JsonV) -> JsonV {
    let input = tokens_at(usage, "input_tokens"@);
    let cached = tokens_at(usage, "cache_read_input_tokens"@);
    let output = tokens_at(usage, "output_tokens"@);
    JsonV::Obj(
        map![
            "totalTokens"@ => jint(input + cached + output),
            "inputTokens"@ => jint(input + cached),
            "cachedInputTokens"@ => jint(cached),
            "outputTokens"@ => jint(output),
            "reasoningOutputTokens"@ => jint(0),
        ],
    )
}

pub open spec fn usage_json(usage: JsonV) -> JsonV {
    JsonV::Obj(
        map![
            "total"@ => breakdown(usage),
            "last"@ => breakdown(usage),
            "modelContextWindow"@ => jint(1000000),
        ],
    )
}

pub open spec fn usage_params(thread: Seq<char>, turn: Seq<char>, usage: JsonV) -> JsonV {
    JsonV::Obj(
        map![
            "threadId"@ => jstr(thread),
            "turnId"@ => jstr(turn),
            "tokenUsage"@ => usage_json(usage),
        ],
    )
}

fn count_at(usage: &Json, key: &str) -> (out: i64)
    ensures
        out == tokens_at(usage@, key@),
{
    match usage.i64_at(key) {
        Some(n) => n,
        None => 0,
    }
}

pub fn can_total(usage: &Json) -> (out: bool)
    ensures
        out == usage_fits(usage@),
{
    let input = count_at(usage, "input_tokens");
    let cached = count_at(usage, "cache_read_input_tokens");
    let output = count_at(usage, "output_tokens");
    match input.checked_add(cached) {
        Some(both) => both.checked_add(output).is_some(),
        None => false,
    }
}

fn breakdown_json(usage: &Json) -> (out: Json)
    requires
        usage_fits(usage@),
    ensures
        out@ == breakdown(usage@),
{
    let input = count_at(usage, "input_tokens");
    let cached = count_at(usage, "cache_read_input_tokens");
    let output = count_at(usage, "output_tokens");
    Json::object().with("totalTokens", Json::integer(input + cached + output)).with(
        "inputTokens",
        Json::integer(input + cached),
    ).with("cachedInputTokens", Json::integer(cached)).with(
        "outputTokens",
        Json::integer(output),
    ).with("reasoningOutputTokens", Json::integer(0))
}

pub(crate) fn usage_params_json(thread: &str, turn: &str, usage: &Json) -> (out: Json)
    requires
        usage_fits(usage@),
    ensures
        out@ == usage_params(thread@, turn@, usage@),
{
    let total = Json::object().with("total", breakdown_json(usage)).with(
        "last",
        breakdown_json(usage),
    ).with("modelContextWindow", Json::integer(1000000));
    assert(total@ == usage_json(usage@));
    Json::object().with("threadId", Json::string(thread)).with("turnId", Json::string(turn)).with(
        "tokenUsage",
        total,
    )
}

// ---------------------------------------------------------------------------
// What is found in what is sent

/// A response names the request that it answers and holds the result.
pub proof fn response_is_found(id: JsonV, result: JsonV)
    ensures
        frame_json(FrameV::Response { id, result }).get("jsonrpc"@) == Some(JsonV::Str("2.0"@)),
        frame_json(FrameV::Response { id, result }).get("id"@) == Some(id),
        frame_json(FrameV::Response { id, result }).get("result"@) == Some(result),
{
    reveal_strlit("jsonrpc");
    reveal_strlit("id");
    reveal_strlit("result");
    assert("jsonrpc"@.len() == 7);
    assert("id"@.len() == 2);
    assert("result"@.len() == 6);
}

/// A failure names the request and says what went wrong, under a code.
pub proof fn failure_is_found(id: JsonV, code: int, message: Seq<char>)
    ensures
        ({
            let frame = frame_json(FrameV::Failure { id, code, message });
            &&& frame.get("id"@) == Some(id)
            &&& frame.get("result"@) is None
            &&& frame.within("error"@, "code"@) == Some(JsonV::Num(NumV::Int(code)))
            &&& frame.within("error"@, "message"@) == Some(JsonV::Str(message))
        }),
{
    reveal_strlit("jsonrpc");
    reveal_strlit("id");
    reveal_strlit("error");
    reveal_strlit("result");
    reveal_strlit("code");
    reveal_strlit("message");
    assert("jsonrpc"@.len() == 7);
    assert("id"@.len() == 2);
    assert("error"@.len() == 5);
    assert("result"@.len() == 6);
    assert("code"@.len() == 4);
    assert("message"@.len() == 7);
    assert("jsonrpc"@[0] == 'j');
    assert("message"@[0] == 'm');
}

/// A notice says what happened and has no id.
pub proof fn notice_is_found(method: Seq<char>, params: JsonV)
    ensures
        frame_json(FrameV::Notice { method, params }).get("jsonrpc"@) == Some(JsonV::Str("2.0"@)),
        frame_json(FrameV::Notice { method, params }).get("method"@) == Some(JsonV::Str(method)),
        frame_json(FrameV::Notice { method, params }).get("params"@) == Some(params),
        frame_json(FrameV::Notice { method, params }).get("id"@) is None,
{
    reveal_strlit("id");
    assert("id"@.len() == 2);
    reveal_strlit("jsonrpc");
    reveal_strlit("method");
    reveal_strlit("params");
    assert("jsonrpc"@.len() == 7);
    assert("method"@.len() == 6);
    assert("params"@.len() == 6);
    assert("method"@[0] == 'm');
    assert("params"@[0] == 'p');
}

/// A request of the bridge has a number, a method and parameters.
pub proof fn request_is_found(id: int, method: Seq<char>, params: JsonV)
    ensures
        frame_json(FrameV::Request { id, method, params }).get("jsonrpc"@) == Some(JsonV::Str("2.0"@)),
        frame_json(FrameV::Request { id, method, params }).get("id"@) == Some(JsonV::Num(NumV::Int(id))),
        frame_json(FrameV::Request { id, method, params }).get("method"@) == Some(JsonV::Str(method)),
        frame_json(FrameV::Request { id, method, params }).get("params"@) == Some(params),
{
    reveal_strlit("jsonrpc");
    reveal_strlit("id");
    reveal_strlit("method");
    reveal_strlit("params");
    assert("jsonrpc"@.len() == 7);
    assert("id"@.len() == 2);
    assert("method"@.len() == 6);
    assert("params"@.len() == 6);
    assert("method"@[0] == 'm');
    assert("params"@[0] == 'p');
}

/// A turn that is sent without its items says which one it is, how it stands and when it was.
pub proof fn bare_turn_is_found(id: Seq<char>, status: Seq<char>, started: int, completed: JsonV)
    ensures
        bare_turn(id, status, started, completed).get("id"@) == Some(JsonV::Str(id)),
        bare_turn(id, status, started, completed).get("items"@) == Some(JsonV::Arr(Seq::empty())),
        bare_turn(id, status, started, completed).get("itemsView"@) == Some(JsonV::Str("full"@)),
        bare_turn(id, status, started, completed).get("status"@) == Some(JsonV::Str(status)),
        bare_turn(id, status, started, completed).get("error"@) == Some(JsonV::Null),
        bare_turn(id, status, started, completed).get("startedAt"@) == Some(JsonV::Num(NumV::Int(started))),
        bare_turn(id, status, started, completed).get("completedAt"@) == Some(completed),
        bare_turn(id, status, started, completed).get("durationMs"@) == Some(JsonV::Null),
{
    reveal_strlit("id");
    reveal_strlit("items");
    reveal_strlit("itemsView");
    reveal_strlit("status");
    reveal_strlit("error");
    reveal_strlit("startedAt");
    reveal_strlit("completedAt");
    reveal_strlit("durationMs");
    assert("id"@.len() == 2);
    assert("items"@.len() == 5);
    assert("itemsView"@.len() == 9);
    assert("status"@.len() == 6);
    assert("error"@.len() == 5);
    assert("startedAt"@.len() == 9);
    assert("completedAt"@.len() == 11);
    assert("durationMs"@.len() == 10);
    assert("error"@[0] == 'e');
    assert("items"@[0] == 'i');
    assert("itemsView"@[0] == 'i');
    assert("startedAt"@[0] == 's');
}

/// A notice about a turn names the thread.
pub proof fn turn_is_found(thread: Seq<char>, turn: JsonV)
    ensures
        turn_params(thread, turn).get("threadId"@) == Some(JsonV::Str(thread)),
        turn_params(thread, turn).get("turn"@) == Some(turn),
{
    reveal_strlit("threadId");
    reveal_strlit("turn");
    assert("threadId"@.len() == 8);
    assert("turn"@.len() == 4);
}

/// A notice about an item names the thread and the turn, and says when it was.
pub proof fn item_is_found(
    thread: Seq<char>,
    turn: Seq<char>,
    when: Seq<char>,
    millis: int,
    item: JsonV,
)
    requires
        "startedAtMs"@ == when || "completedAtMs"@ == when,
    ensures
        item_params(thread, turn, when, millis, item).get("threadId"@) == Some(JsonV::Str(thread)),
        item_params(thread, turn, when, millis, item).get("turnId"@) == Some(JsonV::Str(turn)),
        item_params(thread, turn, when, millis, item).get(when) == Some(JsonV::Num(NumV::Int(millis))),
        item_params(thread, turn, when, millis, item).get("item"@) == Some(item),
{
    reveal_strlit("threadId");
    reveal_strlit("turnId");
    reveal_strlit("item");
    reveal_strlit("startedAtMs");
    reveal_strlit("completedAtMs");
    assert("threadId"@.len() == 8);
    assert("turnId"@.len() == 6);
    assert("item"@.len() == 4);
    assert("startedAtMs"@.len() == 11);
    assert("completedAtMs"@.len() == 13);
}

/// A piece of a text names the thread, the turn and the item that it belongs to.
pub proof fn delta_is_found(thread: Seq<char>, turn: Seq<char>, item: Seq<char>, delta: Seq<char>)
    ensures
        delta_params(thread, turn, item, delta).get("threadId"@) == Some(JsonV::Str(thread)),
        delta_params(thread, turn, item, delta).get("turnId"@) == Some(JsonV::Str(turn)),
        delta_params(thread, turn, item, delta).get("itemId"@) == Some(JsonV::Str(item)),
        delta_params(thread, turn, item, delta).get("delta"@) == Some(JsonV::Str(delta)),
{
    reveal_strlit("threadId");
    reveal_strlit("turnId");
    reveal_strlit("itemId");
    reveal_strlit("delta");
    assert("threadId"@.len() == 8);
    assert("turnId"@.len() == 6);
    assert("itemId"@.len() == 6);
    assert("delta"@.len() == 5);
    assert("itemId"@[0] == 'i');
    assert("turnId"@[0] == 't');
}

/// A piece of what the model thinks is one of the only part of its summary.
pub proof fn thought_is_found(thread: Seq<char>, turn: Seq<char>, item: Seq<char>, delta: Seq<char>)
    ensures
        summary_params(thread, turn, item, delta).get("threadId"@) == Some(JsonV::Str(thread)),
        summary_params(thread, turn, item, delta).get("turnId"@) == Some(JsonV::Str(turn)),
        summary_params(thread, turn, item, delta).get("itemId"@) == Some(JsonV::Str(item)),
        summary_params(thread, turn, item, delta).get("delta"@) == Some(JsonV::Str(delta)),
        summary_params(thread, turn, item, delta).get("summaryIndex"@) == Some(JsonV::Num(NumV::Int(0))),
{
    reveal_strlit("threadId");
    reveal_strlit("turnId");
    reveal_strlit("itemId");
    reveal_strlit("delta");
    reveal_strlit("summaryIndex");
    assert("threadId"@.len() == 8);
    assert("turnId"@.len() == 6);
    assert("itemId"@.len() == 6);
    assert("delta"@.len() == 5);
    assert("summaryIndex"@.len() == 12);
    assert("itemId"@[0] == 'i');
    assert("turnId"@[0] == 't');
}

/// Changes of files name the thread, the turn and the item that they belong to.
pub proof fn changes_are_found(
    thread: Seq<char>,
    turn: Seq<char>,
    item: Seq<char>,
    changes: Seq<JsonV>,
)
    ensures
        changes_params(thread, turn, item, changes).get("threadId"@) == Some(JsonV::Str(thread)),
        changes_params(thread, turn, item, changes).get("turnId"@) == Some(JsonV::Str(turn)),
        changes_params(thread, turn, item, changes).get("itemId"@) == Some(JsonV::Str(item)),
        changes_params(thread, turn, item, changes).get("changes"@) == Some(JsonV::Arr(changes)),
{
    reveal_strlit("threadId");
    reveal_strlit("turnId");
    reveal_strlit("itemId");
    reveal_strlit("changes");
    assert("threadId"@.len() == 8);
    assert("turnId"@.len() == 6);
    assert("itemId"@.len() == 6);
    assert("changes"@.len() == 7);
    assert("itemId"@[0] == 'i');
    assert("turnId"@[0] == 't');
}

/// An image is shown by its path.
pub proof fn image_is_found(id: Seq<char>, path: Seq<char>)
    ensures
        image_item(id, path).get("type"@) == Some(JsonV::Str("imageView"@)),
        image_item(id, path).get("id"@) == Some(JsonV::Str(id)),
        image_item(id, path).get("path"@) == Some(JsonV::Str(path)),
{
    reveal_strlit("type");
    reveal_strlit("id");
    reveal_strlit("path");
    assert("type"@.len() == 4);
    assert("id"@.len() == 2);
    assert("path"@.len() == 4);
    assert("path"@[0] == 'p');
    assert("type"@[0] == 't');
}

/// Of the tokens that are reported, those read from the cache count as input, and the total is all
/// of the input and the output.
pub proof fn tokens_add_up(
    thread: Seq<char>,
    turn: Seq<char>,
    usage: JsonV,
    input: i64,
    cached: i64,
    output: i64,
)
    requires
        usage.i64_at("input_tokens"@) == Some(input),
        usage.i64_at("cache_read_input_tokens"@) == Some(cached),
        usage.i64_at("output_tokens"@) == Some(output),
    ensures
        ({
            let params = usage_params(thread, turn, usage);
            let all = params.get("tokenUsage"@)->Some_0;
            &&& params.get("threadId"@) == Some(JsonV::Str(thread))
            &&& params.get("turnId"@) == Some(JsonV::Str(turn))
            &&& params.get("tokenUsage"@) is Some
            &&& all.get("total"@) == all.get("last"@)
            &&& all.get("modelContextWindow"@) == Some(JsonV::Num(NumV::Int(1000000)))
            &&& all.within("total"@, "totalTokens"@) == Some(
                JsonV::Num(NumV::Int(input + cached + output)),
            )
            &&& all.within("total"@, "inputTokens"@) == Some(JsonV::Num(NumV::Int(input + cached)))
            &&& all.within("total"@, "cachedInputTokens"@) == Some(
                JsonV::Num(NumV::Int(cached as int)),
            )
            &&& all.within("total"@, "outputTokens"@) == Some(JsonV::Num(NumV::Int(output as int)))
            &&& all.within("total"@, "reasoningOutputTokens"@) == Some(JsonV::Num(NumV::Int(0)))
        }),
{
    reveal_strlit("threadId");
    reveal_strlit("turnId");
    reveal_strlit("tokenUsage");
    reveal_strlit("total");
    reveal_strlit("last");
    reveal_strlit("modelContextWindow");
    reveal_strlit("totalTokens");
    reveal_strlit("inputTokens");
    reveal_strlit("cachedInputTokens");
    reveal_strlit("outputTokens");
    reveal_strlit("reasoningOutputTokens");
    assert("threadId"@.len() == 8);
    assert("turnId"@.len() == 6);
    assert("tokenUsage"@.len() == 10);
    assert("total"@.len() == 5);
    assert("last"@.len() == 4);
    assert("modelContextWindow"@.len() == 18);
    assert("totalTokens"@.len() == 11);
    assert("inputTokens"@.len() == 11);
    assert("cachedInputTokens"@.len() == 17);
    assert("outputTokens"@.len() == 12);
    assert("reasoningOutputTokens"@.len() == 21);
    assert("inputTokens"@[0] == 'i');
    assert("totalTokens"@[0] == 't');
}

/// Tokens that are not reported count as none.
pub proof fn unreported_tokens_are_none(usage: JsonV, key: Seq<char>)
    requires
        usage.get(key) is None,
    ensures
        tokens_at(usage, key) == 0,
{
}

} // verus!

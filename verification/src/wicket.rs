//! The wicket's side of the bridge: the envelopes that come from it as events, and the envelopes
//! that go to it.

use vstd::prelude::*;

use crate::chars::{opt_text, same, texts};
use crate::json::{compact_text, first_key_of, jstr, parsed, Json, JsonV};
use crate::outbox::{ChannelClosed, Outbox};

verus! {

// ---------------------------------------------------------------------------
// What comes in

#[derive(Debug)]
pub enum WicketEvent {
    Delta(Json),
    Entry { data: Json, replay_id: Option<String> },
    Usage(Json),
    ToolStart(Json),
    ToolDone(Json),
    ShellResult(Json),
    UserMessage { text: String, notification: bool },
    Lifecycle(String),
    Turn(Json),
    Approval(Json),
    HistoryTerminate { replay_id: String },
    Meta(Json),
    Error(String),
}

pub enum WicketEventV {
    Delta(JsonV),
    Entry { data: JsonV, replay_id: Option<Seq<char>> },
    Usage(JsonV),
    ToolStart(JsonV),
    ToolDone(JsonV),
    ShellResult(JsonV),
    UserMessage { text: Seq<char>, notification: bool },
    Lifecycle(Seq<char>),
    Turn(JsonV),
    Approval(JsonV),
    HistoryTerminate { replay_id: Seq<char> },
    Meta(JsonV),
    Error(Seq<char>),
}

impl View for WicketEvent {
    type V = WicketEventV;

    open spec fn view(&self) -> WicketEventV {
        match self {
            WicketEvent::Delta(d) => WicketEventV::Delta(d@),
            WicketEvent::Entry { data, replay_id } => WicketEventV::Entry {
                data: data@,
                replay_id: opt_text(*replay_id),
            },
            WicketEvent::Usage(d) => WicketEventV::Usage(d@),
            WicketEvent::ToolStart(d) => WicketEventV::ToolStart(d@),
            WicketEvent::ToolDone(d) => WicketEventV::ToolDone(d@),
            WicketEvent::ShellResult(d) => WicketEventV::ShellResult(d@),
            WicketEvent::UserMessage { text, notification } => WicketEventV::UserMessage {
                text: text@,
                notification: *notification,
            },
            WicketEvent::Lifecycle(name) => WicketEventV::Lifecycle(name@),
            WicketEvent::Turn(d) => WicketEventV::Turn(d@),
            WicketEvent::Approval(d) => WicketEventV::Approval(d@),
            WicketEvent::HistoryTerminate { replay_id } => WicketEventV::HistoryTerminate {
                replay_id: replay_id@,
            },
            WicketEvent::Meta(d) => WicketEventV::Meta(d@),
            WicketEvent::Error(message) => WicketEventV::Error(message@),
        }
    }
}

pub open spec fn opt_event(e: Option<WicketEvent>) -> Option<WicketEventV> {
    match e {
        Some(e) => Some(e@),
        None => None,
    }
}

/// The name of a lifecycle event: the text that stands for it, the least key of the object that
/// does, or else the value as it is written.
pub open spec fn lifecycle_of(data: JsonV) -> Seq<char> {
    match data.as_str() {
        Some(name) => name,
        None => match first_key_of(data) {
            Some(key) => key,
            None => compact_text(data),
        },
    }
}

pub open spec fn flag_at(data: JsonV, key: Seq<char>) -> bool {
    match data.get(key) {
        Some(v) => v.as_bool() == Some(true),
        None => false,
    }
}

/// The data of an envelope; null where it has none.
pub open spec fn envelope_data(msg: JsonV) -> JsonV {
    match msg.get("data"@) {
        Some(data) => data,
        None => JsonV::Null,
    }
}

/// The event that an envelope brings, where its stream is one that is listened to.
pub open spec fn event_of(msg: JsonV) -> Option<WicketEventV> {
    let stream = msg.str_or("stream"@, ""@);
    let data = envelope_data(msg);
    let replay_id = msg.str_at("replay_id"@);
    if stream == "delta"@ {
        Some(WicketEventV::Delta(data))
    } else if stream == "entry"@ {
        Some(WicketEventV::Entry { data, replay_id })
    } else if stream == "history_terminate"@ {
        match replay_id {
            Some(replay_id) => Some(WicketEventV::HistoryTerminate { replay_id }),
            None => None,
        }
    } else if stream == "usage"@ {
        Some(WicketEventV::Usage(data))
    } else if stream == "tool_start"@ {
        Some(WicketEventV::ToolStart(data))
    } else if stream == "tool_done"@ {
        Some(WicketEventV::ToolDone(data))
    } else if stream == "shell_result"@ {
        Some(WicketEventV::ShellResult(data))
    } else if stream == "user_message"@ {
        Some(
            WicketEventV::UserMessage {
                text: data.str_or("text"@, ""@),
                notification: flag_at(data, "notification"@),
            },
        )
    } else if stream == "turn"@ {
        Some(WicketEventV::Turn(data))
    } else if stream == "lifecycle"@ {
        Some(WicketEventV::Lifecycle(lifecycle_of(data)))
    } else if stream == "approval"@ {
        Some(WicketEventV::Approval(data))
    } else if stream == "meta"@ {
        Some(WicketEventV::Meta(data))
    } else if stream == "error"@ {
        Some(WicketEventV::Error(data.str_or("message"@, "unknown error"@)))
    } else {
        None
    }
}

/// The event that a text brings: none where it is not JSON.
pub open spec fn event_in(text: Seq<char>) -> Option<WicketEventV> {
    match parsed(text) {
        Some(msg) => event_of(msg),
        None => None,
    }
}

pub fn lifecycle_name(data: &Json) -> (out: String)
    ensures
        out@ == lifecycle_of(data@),
{
    match data.as_str() {
        Some(name) => name.to_owned(),
        None => match data.first_key() {
            Some(key) => key.to_owned(),
            None => data.text(),
        },
    }
}

fn own(s: Option<&str>) -> (out: Option<String>)
    ensures
        opt_text(out) == crate::chars::opt_str(s),
{
    match s {
        Some(s) => Some(s.to_owned()),
        None => None,
    }
}

impl WicketEvent {
    /// Reads an envelope.
    pub fn from_envelope(msg: &Json) -> (out: Option<WicketEvent>)
        ensures
            opt_event(out) == event_of(msg@),
    {
        let stream = msg.str_or("stream", "");
        let data = match msg.get("data") {
            Some(data) => data.copy(),
            None => Json::Null,
        };
        let replay_id = own(msg.str_at("replay_id"));
        if same(stream, "delta") {
            Some(WicketEvent::Delta(data))
        } else if same(stream, "entry") {
            Some(WicketEvent::Entry { data, replay_id })
        } else if same(stream, "history_terminate") {
            match replay_id {
                Some(replay_id) => Some(WicketEvent::HistoryTerminate { replay_id }),
                None => None,
            }
        } else if same(stream, "usage") {
            Some(WicketEvent::Usage(data))
        } else if same(stream, "tool_start") {
            Some(WicketEvent::ToolStart(data))
        } else if same(stream, "tool_done") {
            Some(WicketEvent::ToolDone(data))
        } else if same(stream, "shell_result") {
            Some(WicketEvent::ShellResult(data))
        } else if same(stream, "user_message") {
            let text = data.str_or("text", "").to_owned();
            let notification = match data.get("notification") {
                Some(v) => match v.as_bool() {
                    Some(b) => b,
                    None => false,
                },
                None => false,
            };
            Some(WicketEvent::UserMessage { text, notification })
        } else if same(stream, "turn") {
            Some(WicketEvent::Turn(data))
        } else if same(stream, "lifecycle") {
            Some(WicketEvent::Lifecycle(lifecycle_name(&data)))
        } else if same(stream, "approval") {
            Some(WicketEvent::Approval(data))
        } else if same(stream, "meta") {
            Some(WicketEvent::Meta(data))
        } else if same(stream, "error") {
            Some(WicketEvent::Error(data.str_or("message", "unknown error").to_owned()))
        } else {
            None
        }
    }

    /// Reads a text that came over the connection.
    pub fn decode(text: &str) -> (out: Option<WicketEvent>)
        ensures
            opt_event(out) == event_in(text@),
    {
        match Json::parse(text) {
            Some(msg) => WicketEvent::from_envelope(&msg),
            None => None,
        }
    }
}

// ---------------------------------------------------------------------------
// What goes out

pub open spec fn envelope(stream: Seq<char>, data: JsonV) -> JsonV {
    JsonV::Obj(map!["stream"@ => jstr(stream), "data"@ => data])
}

pub open spec fn association(slug: Seq<char>, protocol: Seq<char>) -> JsonV {
    JsonV::Obj(map!["slug"@ => jstr(slug), "protocol"@ => jstr(protocol)])
}

pub open spec fn history_request(
    slug: Seq<char>,
    intent: Seq<char>,
    replay_id: Seq<char>,
) -> JsonV {
    JsonV::Obj(
        map!["slug"@ => jstr(slug), "intent"@ => jstr(intent), "replay_id"@ => jstr(replay_id)],
    )
}

/// An answer to a question for approval; where it is denied and no reason is given, `unsaid`
/// stands for it.
pub open spec fn verdict(allow: bool, message: Option<Seq<char>>, unsaid: Seq<char>) -> JsonV {
    if allow {
        JsonV::Obj(map!["behavior"@ => jstr("allow"@)])
    } else {
        JsonV::Obj(
            map![
                "behavior"@ => jstr("deny"@),
                "message"@ => jstr(
                    match message {
                        Some(m) => m,
                        None => unsaid,
                    },
                ),
            ],
        )
    }
}

pub fn envelope_json(stream: &str, data: Json) -> (out: Json)
    ensures
        out@ == envelope(stream@, data@),
{
    Json::object().with("stream", Json::string(stream)).with("data", data)
}

pub fn verdict_json(allow: bool, message: Option<&str>, unsaid: &str) -> (out: Json)
    ensures
        out@ == verdict(allow, crate::chars::opt_str(message), unsaid@),
{
    if allow {
        Json::object().with("behavior", Json::string("allow"))
    } else {
        let said = match message {
            Some(m) => m,
            None => unsaid,
        };
        Json::object().with("behavior", Json::string("deny")).with("message", Json::string(said))
    }
}

/// The texts that wait to be written to the wicket.
#[derive(Debug)]
pub struct WicketClient {
    pub outbound: Outbox<String>,
}

impl WicketClient {
    /// The texts that wait.
    pub open spec fn waiting(&self) -> Seq<Seq<char>> {
        texts(self.outbound.queue@)
    }

    pub open spec fn is_open(&self) -> bool {
        self.outbound.open
    }

    /// One more text waits where the connection is open; a closed one is left as it was, and the
    /// sender is told.
    pub open spec fn sent(
        before: WicketClient,
        after: WicketClient,
        out: Result<(), ChannelClosed>,
        text: Seq<char>,
    ) -> bool {
        &&& after.is_open() == before.is_open()
        &&& out is Ok == before.is_open()
        &&& after.waiting() == if before.is_open() {
            before.waiting().push(text)
        } else {
            before.waiting()
        }
    }

    pub fn new() -> (out: Self)
        ensures
            out.is_open(),
            out.waiting() == Seq::<Seq<char>>::empty(),
    {
        let out = WicketClient { outbound: Outbox::new() };
        assert(out.waiting() =~= Seq::<Seq<char>>::empty());
        out
    }

    pub fn send_raw(&mut self, msg: &str) -> (out: Result<(), ChannelClosed>)
        ensures
            Self::sent(*old(self), *final(self), out, msg@),
    {
        let text = msg.to_owned();
        proof {
            crate::chars::lemma_texts_push(self.outbound.queue@, text);
        }
        self.outbound.send(text)
    }

    pub fn send_envelope(&mut self, stream: &str, data: Json) -> (out: Result<(), ChannelClosed>)
        ensures
            Self::sent(*old(self), *final(self), out, compact_text(envelope(stream@, data@))),
    {
        self.send_raw(envelope_json(stream, data).text().as_str())
    }

    pub fn associate_slug(&mut self, slug: &str, protocol: &str) -> (out: Result<(), ChannelClosed>)
        ensures
            Self::sent(*old(self), *final(self), out, compact_text(association(slug@, protocol@))),
    {
        let msg = Json::object().with("slug", Json::string(slug)).with(
            "protocol",
            Json::string(protocol),
        );
        assert(msg@ == association(slug@, protocol@));
        self.send_raw(msg.text().as_str())
    }

    pub fn request_history(&mut self, slug: &str, intent: &str, replay_id: &str) -> (out: Result<
        (),
        ChannelClosed,
    >)
        ensures
            Self::sent(
                *old(self),
                *final(self),
                out,
                compact_text(
                    envelope("history_request"@, history_request(slug@, intent@, replay_id@)),
                ),
            ),
    {
        let data = Json::object().with("slug", Json::string(slug)).with(
            "intent",
            Json::string(intent),
        ).with("replay_id", Json::string(replay_id));
        assert(data@ == history_request(slug@, intent@, replay_id@));
        self.send_envelope("history_request", data)
    }

    pub fn send_approval(&mut self, allow: bool, message: Option<&str>) -> (out: Result<
        (),
        ChannelClosed,
    >)
        ensures
            Self::sent(
                *old(self),
                *final(self),
                out,
                compact_text(
                    envelope(
                        "approval"@,
                        verdict(allow, crate::chars::opt_str(message), "denied"@),
                    ),
                ),
            ),
    {
        self.send_envelope("approval", verdict_json(allow, message, "denied"))
    }
}

} // verus!

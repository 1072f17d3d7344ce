//! The connection of a window to the wicket, which shows normalized entries: what its envelopes
//! bring, and what is sent to it.

use vstd::prelude::*;

use crate::chars::{lemma_texts_push, opt_str, same, texts};
use crate::json::{compact_text, jopt, jstr, Json, JsonV};
use crate::model::{is_shown, ConversationEntry, WireEntry};
use crate::outbox::{ChannelClosed, Outbox};
use crate::wicket::{
    envelope, envelope_json, lifecycle_name, lifecycle_of, verdict, verdict_json,
};

verus! {

/// Where a round runs.
#[derive(Clone, Debug, PartialEq)]
pub enum SpawnTarget {
    Local,
    Remote { host: String, yolo: bool },
}

#[derive(Debug)]
pub enum WicketEvent {
    Entry(ConversationEntry),
    Delta(Json),
    Lifecycle(String),
    Approval(Json),
    Meta(Json),
    Error(String),
}

/// The event is the one that an envelope with the given stream and data brings. An entry counts
/// where it can be read, into `wire`, and shown.
pub open spec fn brings(
    stream: Seq<char>,
    data: JsonV,
    wire: Option<WireEntry>,
    event: Option<WicketEvent>,
) -> bool {
    if stream == "entry"@ {
        match (wire, event) {
            (Some(w), Some(WicketEvent::Entry(entry))) => is_shown(w) && entry.shows(w),
            (Some(w), None) => !is_shown(w),
            (None, e) => e is None,
            _ => false,
        }
    } else if stream == "lifecycle"@ {
        event matches Some(WicketEvent::Lifecycle(name)) && name@ == lifecycle_of(data)
    } else if stream == "approval"@ {
        event matches Some(WicketEvent::Approval(d)) && d@ == data
    } else if stream == "delta"@ {
        event matches Some(WicketEvent::Delta(d)) && d@ == data
    } else if stream == "meta"@ {
        event matches Some(WicketEvent::Meta(d)) && d@ == data
    } else if stream == "error"@ {
        event matches Some(WicketEvent::Error(m)) && m@ == data.str_or(
            "message"@,
            "unknown error"@,
        )
    } else {
        event is None
    }
}

impl WicketEvent {
    /// Reads an envelope; `wire` is its data as an entry, where it is one.
    pub fn from_envelope(stream: &str, data: Json, wire: Option<WireEntry>) -> (out: Option<
        WicketEvent,
    >)
        ensures
            brings(stream@, data@, wire, out),
    {
        proof {
            reveal_strlit("entry");
            reveal_strlit("lifecycle");
            reveal_strlit("approval");
            reveal_strlit("delta");
            reveal_strlit("meta");
            reveal_strlit("error");
        }
        if same(stream, "entry") {
            match wire {
                Some(wire) => match ConversationEntry::from_value(wire) {
                    Some(entry) => Some(WicketEvent::Entry(entry)),
                    None => None,
                },
                None => None,
            }
        } else if same(stream, "lifecycle") {
            Some(WicketEvent::Lifecycle(lifecycle_name(&data)))
        } else if same(stream, "approval") {
            Some(WicketEvent::Approval(data))
        } else if same(stream, "delta") {
            Some(WicketEvent::Delta(data))
        } else if same(stream, "meta") {
            Some(WicketEvent::Meta(data))
        } else if same(stream, "error") {
            Some(WicketEvent::Error(data.str_or("message", "unknown error").to_owned()))
        } else {
            None
        }
    }
}

/// The first message over a connection.
pub open spec fn hello(slug: Seq<char>) -> JsonV {
    JsonV::Obj(map!["slug"@ => jstr(slug)])
}

pub open spec fn target_host(target: SpawnTarget) -> Option<Seq<char>> {
    match target {
        SpawnTarget::Local => None,
        SpawnTarget::Remote { host, .. } => Some(host@),
    }
}

pub open spec fn target_yolo(target: SpawnTarget) -> bool {
    match target {
        SpawnTarget::Local => false,
        SpawnTarget::Remote { yolo, .. } => yolo,
    }
}

/// What the user says, with where the round is to run.
pub open spec fn prompt(content: Seq<char>, target: SpawnTarget) -> JsonV {
    JsonV::Obj(
        map![
            "message"@ => jstr(content),
            "remote"@ => jopt(target_host(target)),
            "yolo"@ => JsonV::Bool(target_yolo(target)),
        ],
    )
}

pub open spec fn log_record(level: Seq<char>, message: Seq<char>, fields: JsonV) -> JsonV {
    JsonV::Obj(map!["level"@ => jstr(level), "message"@ => jstr(message), "fields"@ => fields])
}

/// The texts that wait to be written to the wicket, and the stream that carries what the user says.
#[derive(Debug)]
pub struct WicketConnection {
    pub stream: String,
    pub outbound: Outbox<String>,
}

impl WicketConnection {
    pub open spec fn waiting(&self) -> Seq<Seq<char>> {
        texts(self.outbound.queue@)
    }

    pub open spec fn is_open(&self) -> bool {
        self.outbound.open
    }

    /// One more text waits where the connection is open.
    pub open spec fn holds(&self, before: WicketConnection, text: Seq<char>) -> bool {
        &&& self.stream == before.stream
        &&& self.is_open() == before.is_open()
        &&& self.waiting() == if before.is_open() {
            before.waiting().push(text)
        } else {
            before.waiting()
        }
    }

    /// A new connection, with the message that tells whose window it is.
    pub fn connect(slug: &str, stream: &str) -> (out: Self)
        ensures
            out.is_open(),
            out.stream@ == stream@,
            out.waiting() == seq![compact_text(hello(slug@))],
    {
        let mut out = WicketConnection { stream: stream.to_owned(), outbound: Outbox::new() };
        assert(out.waiting() =~= Seq::<Seq<char>>::empty());
        let payload = Json::object().with("slug", Json::string(slug));
        let _ = out.give(payload);
        out
    }

    fn give(&mut self, message: Json) -> (out: Result<(), ChannelClosed>)
        ensures
            final(self).holds(*old(self), compact_text(message@)),
            out is Ok == old(self).is_open(),
    {
        let text = message.text();
        proof {
            lemma_texts_push(self.outbound.queue@, text);
        }
        self.outbound.send(text)
    }

    /// Sends what the user says, to start a round or into one.
    pub fn send(&mut self, content: &str, target: &SpawnTarget) -> (out: Result<(), ChannelClosed>)
        ensures
            final(self).holds(
                *old(self),
                compact_text(envelope(old(self).stream@, prompt(content@, *target))),
            ),
            out is Ok == old(self).is_open(),
    {
        let (remote, yolo) = match target {
            SpawnTarget::Local => (None, false),
            SpawnTarget::Remote { host, yolo } => (Some(host.as_str()), *yolo),
        };
        let data = Json::object().with("message", Json::string(content)).with(
            "remote",
            Json::opt(remote),
        ).with("yolo", Json::Bool(yolo));
        assert(data@ == prompt(content@, *target));
        let message = envelope_json(self.stream.as_str(), data);
        self.give(message)
    }

    /// Sends the answer to a question for approval.
    pub fn approve(&mut self, allow: bool, message: Option<&str>) -> (out: Result<
        (),
        ChannelClosed,
    >)
        ensures
            final(self).holds(
                *old(self),
                compact_text(
                    envelope(
                        "approval"@,
                        verdict(allow, opt_str(message), "User denied permission"@),
                    ),
                ),
            ),
            out is Ok == old(self).is_open(),
    {
        self.give(
            envelope_json("approval", verdict_json(allow, message, "User denied permission")),
        )
    }

    /// Sends a record for the log. Where the connection is closed it is lost.
    pub fn log(&mut self, level: &str, message: &str, fields: Json)
        ensures
            final(self).holds(
                *old(self),
                compact_text(envelope("log"@, log_record(level@, message@, fields@))),
            ),
    {
        let data = Json::object().with("level", Json::string(level)).with(
            "message",
            Json::string(message),
        ).with("fields", fields);
        assert(data@ == log_record(level@, message@, fields@));
        let _ = self.give(envelope_json("log", data));
    }

    /// Says that the window goes, and takes no more.
    pub fn shutdown(&mut self)
        ensures
            !final(self).is_open(),
            final(self).stream == old(self).stream,
            final(self).waiting() == if old(self).is_open() {
                old(self).waiting().push(
                    compact_text(envelope("exit"@, JsonV::Obj(Map::empty()))),
                )
            } else {
                old(self).waiting()
            },
    {
        let _ = self.give(envelope_json("exit", Json::object()));
        self.outbound.close();
    }
}

} // verus!

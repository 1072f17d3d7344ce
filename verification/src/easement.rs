//! The connection to the easement: the broadcasts that concern a window, and the packets that are
//! sent.

use vstd::prelude::*;

use crate::chars::{lemma_texts_push, same, texts};
use crate::json::{compact_text, jstr, Json, JsonV};
use crate::outbox::{ChannelClosed, Outbox};

verus! {

// ---------------------------------------------------------------------------
// What comes in

/// A broadcast, with the window and the transcript that it is about.
#[derive(Debug)]
pub struct Inbound {
    pub slug: String,
    pub transcript: String,
    pub body: Body,
}

#[derive(Debug)]
pub enum Body {
    HistoryBegin { replay_id: String, last_uuid: Option<String> },
    HistoryEntry { replay_id: String, entry: Json },
    Delta { event: Json },
    Usage { usage: Json },
    TurnStarted { turn_id: String },
    TurnCompleted { turn_id: String, status: String },
    RoundStarted,
    RoundCompleted,
    RoundInterrupted,
    RoundFailed { message: String },
    UserMessage { text: String },
}

#[derive(Debug)]
pub enum EasementEvent {
    HistoryBegin { replay_id: String, last_uuid: Option<String>, transcript: String },
    HistoryEntry { replay_id: String, entry: Json },
    Delta(Json),
    Usage(Json),
    TurnStarted { turn_id: String },
    TurnCompleted { turn_id: String, status: String },
    Lifecycle(String),
    UserMessage { text: String },
}

/// The name under which a round's fate is known; none where the broadcast is about another thing.
pub open spec fn round_name(body: Body) -> Option<Seq<char>> {
    match body {
        Body::RoundStarted => Some("round_started"@),
        Body::RoundCompleted => Some("round_completed"@),
        Body::RoundInterrupted => Some("round_interrupted"@),
        Body::RoundFailed { .. } => Some("round_failed"@),
        _ => None,
    }
}

/// The event says what the broadcast says.
pub open spec fn tells(msg: Inbound, event: EasementEvent) -> bool {
    match msg.body {
        Body::HistoryBegin { replay_id, last_uuid } => event == (EasementEvent::HistoryBegin {
            replay_id,
            last_uuid,
            transcript: msg.transcript,
        }),
        Body::HistoryEntry { replay_id, entry } => event == (EasementEvent::HistoryEntry {
            replay_id,
            entry,
        }),
        Body::Delta { event: e } => event == EasementEvent::Delta(e),
        Body::Usage { usage } => event == EasementEvent::Usage(usage),
        Body::TurnStarted { turn_id } => event == (EasementEvent::TurnStarted { turn_id }),
        Body::TurnCompleted { turn_id, status } => event == (EasementEvent::TurnCompleted {
            turn_id,
            status,
        }),
        Body::UserMessage { text } => event == (EasementEvent::UserMessage { text }),
        body => event matches EasementEvent::Lifecycle(name) && Some(name@) == round_name(body),
    }
}

// ---------------------------------------------------------------------------
// What goes out

#[derive(Debug)]
pub enum Outbound {
    Connect { who: String, place: String, tools: Vec<Json> },
    Replay { slug: String, transcript: String, replay_id: String },
    Start { slug: String, transcript: String, message: String },
    Steer { slug: String, transcript: String, message: String, expected_turn_id: String },
    Run { slug: String, transcript: String, command: String },
}

/// A text as JSON.
pub open spec fn quoted(s: Seq<char>) -> Seq<char> {
    compact_text(jstr(s))
}

/// The fields that name a window and its transcript.
pub open spec fn addressed(slug: Seq<char>, transcript: Seq<char>) -> Seq<char> {
    ",\"slug\":"@ + quoted(slug) + ",\"transcript\":"@ + quoted(transcript)
}

/// A packet as it is written: what it is about and why come first.
pub open spec fn outbound_text(msg: Outbound) -> Seq<char> {
    match msg {
        Outbound::Connect { who, place, tools } => "{\"what\":\"socket\",\"why\":\"connect\""@
            + ",\"who\":"@ + quoted(who@) + ",\"where\":"@ + quoted(place@) + ",\"tools\":"@
            + compact_text(JsonV::Arr(crate::json::items_view(tools@))) + "}"@,
        Outbound::Replay { slug, transcript, replay_id } =>
            "{\"what\":\"history\",\"why\":\"replay\""@ + addressed(slug@, transcript@)
            + ",\"replay_id\":"@ + quoted(replay_id@) + "}"@,
        Outbound::Start { slug, transcript, message } => "{\"what\":\"turn\",\"why\":\"start\""@
            + addressed(slug@, transcript@) + ",\"message\":"@ + quoted(message@) + "}"@,
        Outbound::Steer { slug, transcript, message, expected_turn_id } =>
            "{\"what\":\"turn\",\"why\":\"steer\""@ + addressed(slug@, transcript@)
            + ",\"message\":"@ + quoted(message@) + ",\"expected_turn_id\":"@ + quoted(
            expected_turn_id@,
        ) + "}"@,
        Outbound::Run { slug, transcript, command } => "{\"what\":\"shell\",\"why\":\"run\""@
            + addressed(slug@, transcript@) + ",\"command\":"@ + quoted(command@) + "}"@,
    }
}

fn quote(s: &str) -> (out: String)
    ensures
        out@ == quoted(s@),
{
    Json::string(s).text()
}

fn address(slug: &str, transcript: &str) -> (out: String)
    ensures
        out@ == addressed(slug@, transcript@),
{
    let mut out = ",\"slug\":".to_owned();
    out.append(quote(slug).as_str());
    out.append(",\"transcript\":");
    out.append(quote(transcript).as_str());
    out
}

impl Outbound {
    pub fn text(self) -> (out: String)
        ensures
            out@ == outbound_text(self),
    {
        match self {
            Outbound::Connect { who, place, tools } => {
                let mut out = "{\"what\":\"socket\",\"why\":\"connect\"".to_owned();
                out.append(",\"who\":");
                out.append(quote(who.as_str()).as_str());
                out.append(",\"where\":");
                out.append(quote(place.as_str()).as_str());
                out.append(",\"tools\":");
                out.append(Json::Array(tools).text().as_str());
                out.append("}");
                out
            },
            Outbound::Replay { slug, transcript, replay_id } => {
                let mut out = "{\"what\":\"history\",\"why\":\"replay\"".to_owned();
                out.append(address(slug.as_str(), transcript.as_str()).as_str());
                out.append(",\"replay_id\":");
                out.append(quote(replay_id.as_str()).as_str());
                out.append("}");
                out
            },
            Outbound::Start { slug, transcript, message } => {
                let mut out = "{\"what\":\"turn\",\"why\":\"start\"".to_owned();
                out.append(address(slug.as_str(), transcript.as_str()).as_str());
                out.append(",\"message\":");
                out.append(quote(message.as_str()).as_str());
                out.append("}");
                out
            },
            Outbound::Steer { slug, transcript, message, expected_turn_id } => {
                let mut out = "{\"what\":\"turn\",\"why\":\"steer\"".to_owned();
                out.append(address(slug.as_str(), transcript.as_str()).as_str());
                out.append(",\"message\":");
                out.append(quote(message.as_str()).as_str());
                out.append(",\"expected_turn_id\":");
                out.append(quote(expected_turn_id.as_str()).as_str());
                out.append("}");
                out
            },
            Outbound::Run { slug, transcript, command } => {
                let mut out = "{\"what\":\"shell\",\"why\":\"run\"".to_owned();
                out.append(address(slug.as_str(), transcript.as_str()).as_str());
                out.append(",\"command\":");
                out.append(quote(command.as_str()).as_str());
                out.append("}");
                out
            },
        }
    }
}

/// A connection for one window. Once a transcript is pinned, broadcasts about another one are
/// passed over.
#[derive(Debug)]
pub struct EasementClient {
    pub slug: String,
    pub pinned_transcript: String,
    pub outbound: Outbox<String>,
}

impl EasementClient {
    pub open spec fn waiting(&self) -> Seq<Seq<char>> {
        texts(self.outbound.queue@)
    }

    pub open spec fn is_open(&self) -> bool {
        self.outbound.open
    }

    /// A broadcast is about this window, and about the transcript that is pinned.
    pub open spec fn concerned_by(&self, msg: Inbound) -> bool {
        &&& msg.slug@ == self.slug@
        &&& self.pinned_transcript@.len() == 0 || msg.transcript@ == self.pinned_transcript@
    }

    /// The same window, with one more text that waits where the connection is open.
    pub open spec fn holds(&self, before: EasementClient, text: Seq<char>) -> bool {
        &&& self.slug == before.slug
        &&& self.pinned_transcript == before.pinned_transcript
        &&& self.is_open() == before.is_open()
        &&& self.waiting() == if before.is_open() {
            before.waiting().push(text)
        } else {
            before.waiting()
        }
    }

    /// A new connection, with the packet that introduces it.
    pub fn connect(slug: &str) -> (out: Self)
        ensures
            out.slug@ == slug@,
            out.pinned_transcript@ == Seq::<char>::empty(),
            out.is_open(),
            out.waiting() == seq![
                "{\"what\":\"socket\",\"why\":\"connect\""@ + ",\"who\":"@ + quoted("puzzle"@)
                    + ",\"where\":"@ + quoted("localhost"@) + ",\"tools\":"@ + compact_text(
                    JsonV::Arr(Seq::empty()),
                ) + "}"@,
            ],
    {
        let mut out = EasementClient {
            slug: slug.to_owned(),
            pinned_transcript: String::new(),
            outbound: Outbox::new(),
        };
        assert(out.waiting() =~= Seq::<Seq<char>>::empty());
        let tools: Vec<Json> = Vec::new();
        assert(crate::json::items_view(tools@) == Seq::<JsonV>::empty());
        out.give(
            Outbound::Connect { who: "puzzle".to_owned(), place: "localhost".to_owned(), tools },
        );
        out
    }

    /// The event that a broadcast brings, where it concerns this window.
    pub fn receive(&self, msg: Inbound) -> (out: Option<EasementEvent>)
        ensures
            out is Some == self.concerned_by(msg),
            out matches Some(event) ==> tells(msg, event),
    {
        if !same(msg.slug.as_str(), self.slug.as_str()) {
            return None;
        }
        if !self.pinned_transcript.as_str().is_empty() && !same(
            msg.transcript.as_str(),
            self.pinned_transcript.as_str(),
        ) {
            return None;
        }
        let Inbound { slug: _, transcript, body } = msg;
        Some(
            match body {
                Body::HistoryBegin { replay_id, last_uuid } => EasementEvent::HistoryBegin {
                    replay_id,
                    last_uuid,
                    transcript,
                },
                Body::HistoryEntry { replay_id, entry } => EasementEvent::HistoryEntry {
                    replay_id,
                    entry,
                },
                Body::Delta { event } => EasementEvent::Delta(event),
                Body::Usage { usage } => EasementEvent::Usage(usage),
                Body::TurnStarted { turn_id } => EasementEvent::TurnStarted { turn_id },
                Body::TurnCompleted { turn_id, status } => EasementEvent::TurnCompleted {
                    turn_id,
                    status,
                },
                Body::RoundStarted => EasementEvent::Lifecycle("round_started".to_owned()),
                Body::RoundCompleted => EasementEvent::Lifecycle("round_completed".to_owned()),
                Body::RoundInterrupted => EasementEvent::Lifecycle("round_interrupted".to_owned()),
                Body::RoundFailed { .. } => EasementEvent::Lifecycle("round_failed".to_owned()),
                Body::UserMessage { text } => EasementEvent::UserMessage { text },
            },
        )
    }

    /// Pins a transcript; an empty name unpins it.
    pub fn pin(&mut self, transcript: &str)
        ensures
            final(self).pinned_transcript@ == transcript@,
            final(self).slug == old(self).slug,
            final(self).outbound == old(self).outbound,
    {
        self.pinned_transcript = transcript.to_owned();
    }

    fn give(&mut self, msg: Outbound)
        ensures
            final(self).holds(*old(self), outbound_text(msg)),
    {
        let text = msg.text();
        proof {
            lemma_texts_push(self.outbound.queue@, text);
        }
        let _ = self.outbound.send(text);
    }

    pub fn send_raw(&mut self, msg: &str) -> (out: Result<(), ChannelClosed>)
        ensures
            final(self).holds(*old(self), msg@),
            out is Ok == old(self).is_open(),
    {
        let text = msg.to_owned();
        proof {
            lemma_texts_push(self.outbound.queue@, text);
        }
        self.outbound.send(text)
    }

    pub fn request_history(&mut self, slug: &str, transcript: &str, replay_id: &str) -> (out: Result<
        (),
        ChannelClosed,
    >)
        ensures
            out is Ok,
            final(self).holds(
                *old(self),
                "{\"what\":\"history\",\"why\":\"replay\""@ + addressed(slug@, transcript@)
                    + ",\"replay_id\":"@ + quoted(replay_id@) + "}"@,
            ),
    {
        self.give(
            Outbound::Replay {
                slug: slug.to_owned(),
                transcript: transcript.to_owned(),
                replay_id: replay_id.to_owned(),
            },
        );
        Ok(())
    }

    pub fn send_turn(&mut self, slug: &str, transcript: &str, message: &str) -> (out: Result<
        (),
        ChannelClosed,
    >)
        ensures
            out is Ok,
            final(self).holds(
                *old(self),
                "{\"what\":\"turn\",\"why\":\"start\""@ + addressed(slug@, transcript@)
                    + ",\"message\":"@ + quoted(message@) + "}"@,
            ),
    {
        self.give(
            Outbound::Start {
                slug: slug.to_owned(),
                transcript: transcript.to_owned(),
                message: message.to_owned(),
            },
        );
        Ok(())
    }

    pub fn send_steer(
        &mut self,
        slug: &str,
        transcript: &str,
        message: &str,
        expected_turn_id: &str,
    ) -> (out: Result<(), ChannelClosed>)
        ensures
            out is Ok,
            final(self).holds(
                *old(self),
                "{\"what\":\"turn\",\"why\":\"steer\""@ + addressed(slug@, transcript@)
                    + ",\"message\":"@ + quoted(message@) + ",\"expected_turn_id\":"@ + quoted(
                    expected_turn_id@,
                ) + "}"@,
            ),
    {
        self.give(
            Outbound::Steer {
                slug: slug.to_owned(),
                transcript: transcript.to_owned(),
                message: message.to_owned(),
                expected_turn_id: expected_turn_id.to_owned(),
            },
        );
        Ok(())
    }

    pub fn send_shell(&mut self, slug: &str, transcript: &str, command: &str) -> (out: Result<
        (),
        ChannelClosed,
    >)
        ensures
            out is Ok,
            final(self).holds(
                *old(self),
                "{\"what\":\"shell\",\"why\":\"run\""@ + addressed(slug@, transcript@)
                    + ",\"command\":"@ + quoted(command@) + "}"@,
            ),
    {
        self.give(
            Outbound::Run {
                slug: slug.to_owned(),
                transcript: transcript.to_owned(),
                command: command.to_owned(),
            },
        );
        Ok(())
    }
}

/// Pinning a transcript never lets more through: what still concerns the window did before.
pub proof fn pinning_only_narrows(before: EasementClient, after: EasementClient, msg: Inbound)
    requires
        before.slug@ == after.slug@,
        before.pinned_transcript@.len() == 0,
        after.concerned_by(msg),
    ensures
        before.concerned_by(msg),
{
}

} // verus!

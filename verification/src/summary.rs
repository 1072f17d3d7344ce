//! How a summary is made: the thread is forked behind the turn, the fork is asked for a summary in
//! a turn of its own, and it is left again.

use vstd::prelude::*;

use crate::chars::{cat, same};
use crate::json::{jstr, Json, JsonV};
use crate::window::{
    last_message, next_request_id, normalized, parse_summary, schema, summary_from_items,
    summary_schema, SummaryError, SummaryJob, SummaryPayload, TurnItem, TurnStatus, SUMMARY_LENGTH,
    SUMMARY_MODEL, SUMMARY_PROMPT,
};

verus! {

/// Why no summary was made.
#[derive(Debug)]
pub enum SummaryFailure {
    ForkTimedOut,
    ForkFailed(String),
    StartFailed(String),
    TurnTimedOut,
    /// The turn ended in another way than by being completed.
    Ended(TurnStatus),
    Disconnected(String),
    Closed,
    Unreadable(SummaryError),
}

pub open spec fn status_name(status: TurnStatus) -> Seq<char> {
    match status {
        TurnStatus::Completed => "Completed"@,
        TurnStatus::Interrupted => "Interrupted"@,
        TurnStatus::Failed => "Failed"@,
        TurnStatus::InProgress => "InProgress"@,
    }
}

pub open spec fn failure_text(failure: SummaryFailure) -> Seq<char> {
    match failure {
        SummaryFailure::ForkTimedOut => "summary fork timed out: deadline has elapsed"@,
        SummaryFailure::ForkFailed(reason) => "fork source thread for summary: "@ + reason@,
        SummaryFailure::StartFailed(reason) => "start summary turn: "@ + reason@,
        SummaryFailure::TurnTimedOut => "summary turn timed out"@,
        SummaryFailure::Ended(status) => "summary turn ended with "@ + status_name(status),
        SummaryFailure::Disconnected(reason) => reason@,
        SummaryFailure::Closed => "summary app-server connection closed"@,
        SummaryFailure::Unreadable(SummaryError::NoMessage) => {
            "summary turn returned no assistant message"@
        },
        SummaryFailure::Unreadable(SummaryError::NotDecoded(reason)) => {
            "decode structured summary response: "@ + reason@
        },
        SummaryFailure::Unreadable(SummaryError::Empty) => "summary response was empty"@,
    }
}

impl SummaryFailure {
    pub fn message(&self) -> (out: String)
        ensures
            out@ == failure_text(*self),
    {
        match self {
            SummaryFailure::ForkTimedOut => "summary fork timed out: deadline has elapsed".to_string(),
            SummaryFailure::ForkFailed(reason) => {
                cat("fork source thread for summary: ", reason.as_str())
            },
            SummaryFailure::StartFailed(reason) => cat("start summary turn: ", reason.as_str()),
            SummaryFailure::TurnTimedOut => "summary turn timed out".to_string(),
            SummaryFailure::Ended(status) => {
                let name = match status {
                    TurnStatus::Completed => "Completed",
                    TurnStatus::Interrupted => "Interrupted",
                    TurnStatus::Failed => "Failed",
                    TurnStatus::InProgress => "InProgress",
                };
                cat("summary turn ended with ", name)
            },
            SummaryFailure::Disconnected(reason) => reason.clone(),
            SummaryFailure::Closed => "summary app-server connection closed".to_string(),
            SummaryFailure::Unreadable(error) => error.message(),
        }
    }
}

/// How far a summary has come.
#[derive(Debug)]
pub enum SummaryStage {
    Forking,
    Starting { fork: String },
    Waiting { fork: String, turn: String },
    Decoding { fork: String },
    Leaving { outcome: Result<SummaryPayload, SummaryFailure> },
    Over,
}

/// What is to be done next.
#[derive(Debug)]
pub enum SummaryCall {
    /// Fork a thread behind a turn, for this use alone.
    Fork { thread_id: String, last_turn_id: String, request_id: i64 },
    /// Start the turn that asks for a summary.
    Start { thread_id: String, request_id: i64 },
    /// Wait for what the server tells.
    Listen,
    /// Decode the text of a summary.
    Decode(String),
    /// Tell the server that nothing more is wanted of a thread.
    Unsubscribe { thread_id: String, request_id: i64 },
    Finish(Result<SummaryPayload, SummaryFailure>),
}

/// What came of it.
#[derive(Debug)]
pub enum SummaryHeard {
    /// The server answered with the thread or the turn that it made.
    Made(String),
    Failed(String),
    TimedOut,
    /// A turn ended somewhere.
    Completed { thread_id: String, turn_id: String, status: TurnStatus, items: Vec<TurnItem> },
    /// Something else happened.
    Other,
    Disconnected(String),
    Closed,
    Decoded(Result<SummaryPayload, String>),
    /// The server answered, or did not.
    Left,
}

/// What can have come at a stage.
pub open spec fn can_hear(stage: SummaryStage, heard: SummaryHeard) -> bool {
    match stage {
        SummaryStage::Forking => heard is Made || heard is Failed || heard is TimedOut,
        SummaryStage::Starting { .. } => heard is Made || heard is Failed || heard is TimedOut,
        SummaryStage::Waiting { .. } => heard is Completed || heard is Other || heard is TimedOut
            || heard is Disconnected || heard is Closed,
        SummaryStage::Decoding { .. } => heard is Decoded,
        SummaryStage::Leaving { .. } => heard is Left,
        SummaryStage::Over => false,
    }
}

/// How many requests may still be made.
pub open spec fn ids_to_come(stage: SummaryStage) -> int {
    match stage {
        SummaryStage::Forking => 2,
        SummaryStage::Starting { .. } => 1,
        SummaryStage::Waiting { .. } => 1,
        SummaryStage::Decoding { .. } => 1,
        SummaryStage::Leaving { .. } => 0,
        SummaryStage::Over => 0,
    }
}

/// The making of one summary.
#[derive(Debug)]
pub struct SummaryRun {
    pub stage: SummaryStage,
    pub request_id: i64,
}

/// The fork is left, and the outcome is told afterwards.
pub open spec fn leaves(
    before: SummaryRun,
    after: SummaryRun,
    call: SummaryCall,
    fork: String,
    outcome: Result<SummaryPayload, SummaryFailure>,
) -> bool {
    &&& after.stage == (SummaryStage::Leaving { outcome })
    &&& after.request_id == before.request_id + 1
    &&& call == (SummaryCall::Unsubscribe { thread_id: fork, request_id: before.request_id })
}

/// It is over, with this outcome.
pub open spec fn ends(
    before: SummaryRun,
    after: SummaryRun,
    call: SummaryCall,
    outcome: Result<SummaryPayload, SummaryFailure>,
) -> bool {
    &&& after.stage is Over
    &&& after.request_id == before.request_id
    &&& call == SummaryCall::Finish(outcome)
}

/// The outcome of a response that was decoded, or could not be.
pub open spec fn comes_of(
    decoded: Result<SummaryPayload, String>,
    outcome: Result<SummaryPayload, SummaryFailure>,
) -> bool {
    match decoded {
        Err(reason) => outcome == Err::<SummaryPayload, _>(
            SummaryFailure::Unreadable(SummaryError::NotDecoded(reason)),
        ),
        Ok(payload) => if normalized(payload.summary@).len() == 0 {
            outcome == Err::<SummaryPayload, _>(SummaryFailure::Unreadable(SummaryError::Empty))
        } else {
            outcome matches Ok(kept) && kept.summary@ == normalized(payload.summary@)
                && kept.attention == payload.attention
        },
    }
}

/// It goes on listening.
pub open spec fn listens(before: SummaryRun, after: SummaryRun, call: SummaryCall) -> bool {
    after == before && call is Listen
}

/// What follows at a stage.
pub open spec fn follows(
    before: SummaryRun,
    heard: SummaryHeard,
    after: SummaryRun,
    call: SummaryCall,
) -> bool {
    match (before.stage, heard) {
        (SummaryStage::Forking, SummaryHeard::Made(fork)) => {
            &&& after.stage == (SummaryStage::Starting { fork })
            &&& after.request_id == before.request_id + 1
            &&& call == (SummaryCall::Start { thread_id: fork, request_id: before.request_id })
        },
        (SummaryStage::Forking, SummaryHeard::Failed(reason)) => ends(
            before,
            after,
            call,
            Err(SummaryFailure::ForkFailed(reason)),
        ),
        (SummaryStage::Forking, SummaryHeard::TimedOut) => ends(
            before,
            after,
            call,
            Err(SummaryFailure::ForkTimedOut),
        ),
        (SummaryStage::Starting { fork }, SummaryHeard::Made(turn)) => {
            &&& after.stage == (SummaryStage::Waiting { fork, turn })
            &&& after.request_id == before.request_id
            &&& call is Listen
        },
        (SummaryStage::Starting { fork }, SummaryHeard::Failed(reason)) => leaves(
            before,
            after,
            call,
            fork,
            Err(SummaryFailure::StartFailed(reason)),
        ),
        (SummaryStage::Starting { fork }, SummaryHeard::TimedOut) => leaves(
            before,
            after,
            call,
            fork,
            Err(SummaryFailure::TurnTimedOut),
        ),
        (
            SummaryStage::Waiting { fork, turn },
            SummaryHeard::Completed { thread_id, turn_id, status, items },
        ) => if thread_id@ != fork@ || turn_id@ != turn@ {
            listens(before, after, call)
        } else if status != TurnStatus::Completed {
            leaves(before, after, call, fork, Err(SummaryFailure::Ended(status)))
        } else {
            match last_message(items@) {
                Some(message) => {
                    &&& after.stage == (SummaryStage::Decoding { fork })
                    &&& after.request_id == before.request_id
                    &&& call matches SummaryCall::Decode(text) && text@ == message
                },
                None => leaves(
                    before,
                    after,
                    call,
                    fork,
                    Err(SummaryFailure::Unreadable(SummaryError::NoMessage)),
                ),
            }
        },
        (SummaryStage::Waiting { .. }, SummaryHeard::Other) => listens(before, after, call),
        (SummaryStage::Waiting { fork, .. }, SummaryHeard::TimedOut) => leaves(
            before,
            after,
            call,
            fork,
            Err(SummaryFailure::TurnTimedOut),
        ),
        (SummaryStage::Waiting { fork, .. }, SummaryHeard::Disconnected(reason)) => leaves(
            before,
            after,
            call,
            fork,
            Err(SummaryFailure::Disconnected(reason)),
        ),
        (SummaryStage::Waiting { fork, .. }, SummaryHeard::Closed) => leaves(
            before,
            after,
            call,
            fork,
            Err(SummaryFailure::Closed),
        ),
        (SummaryStage::Decoding { fork }, SummaryHeard::Decoded(decoded)) => {
            &&& after.stage matches SummaryStage::Leaving { outcome } && comes_of(decoded, outcome)
                && leaves(before, after, call, fork, outcome)
        },
        (SummaryStage::Leaving { outcome }, _) => ends(before, after, call, outcome),
        _ => false,
    }
}

impl SummaryRun {
    /// Begins with the summary that is wanted.
    pub fn begin(job: &SummaryJob, request_id: i64) -> (out: (SummaryRun, SummaryCall))
        requires
            request_id < i64::MAX - 2,
        ensures
            out.0.stage is Forking,
            out.0.request_id == request_id + 1,
            out.1 == (SummaryCall::Fork {
                thread_id: job.thread_id,
                last_turn_id: job.turn_id,
                request_id,
            }),
    {
        let mut run = SummaryRun { stage: SummaryStage::Forking, request_id };
        let id = next_request_id(&mut run.request_id);
        let call = SummaryCall::Fork {
            thread_id: job.thread_id.clone(),
            last_turn_id: job.turn_id.clone(),
            request_id: id,
        };
        (run, call)
    }

    fn leave(
        &mut self,
        fork: String,
        outcome: Result<SummaryPayload, SummaryFailure>,
    ) -> (call: SummaryCall)
        requires
            old(self).request_id < i64::MAX,
        ensures
            leaves(*old(self), *final(self), call, fork, outcome),
    {
        self.stage = SummaryStage::Leaving { outcome };
        let request_id = next_request_id(&mut self.request_id);
        SummaryCall::Unsubscribe { thread_id: fork, request_id }
    }

    /// Whether this can have come of the last call, and there is a number for each request.
    pub fn can_take(&self, heard: &SummaryHeard) -> (out: bool)
        ensures
            out == (can_hear(self.stage, *heard) && self.request_id + ids_to_come(self.stage)
                <= i64::MAX),
    {
        let (fits, more): (bool, i64) = match (&self.stage, heard) {
            (
                SummaryStage::Forking,
                SummaryHeard::Made(_) | SummaryHeard::Failed(_) | SummaryHeard::TimedOut,
            ) => (true, 2),
            (
                SummaryStage::Starting { .. },
                SummaryHeard::Made(_) | SummaryHeard::Failed(_) | SummaryHeard::TimedOut,
            ) => (true, 1),
            (
                SummaryStage::Waiting { .. },
                SummaryHeard::Completed { .. } | SummaryHeard::Other | SummaryHeard::TimedOut
                | SummaryHeard::Disconnected(_) | SummaryHeard::Closed,
            ) => (true, 1),
            (SummaryStage::Decoding { .. }, SummaryHeard::Decoded(_)) => (true, 1),
            (SummaryStage::Leaving { .. }, SummaryHeard::Left) => (true, 0),
            _ => (false, 0),
        };
        fits && self.request_id <= i64::MAX - more
    }

    /// Goes on with what came of the last call.
    pub fn next(&mut self, heard: SummaryHeard) -> (call: SummaryCall)
        requires
            can_hear(old(self).stage, heard),
            old(self).request_id + ids_to_come(old(self).stage) <= i64::MAX,
        ensures
            follows(*old(self), heard, *final(self), call),
    {
        let mut stage = SummaryStage::Over;
        std::mem::swap(&mut stage, &mut self.stage);
        match (stage, heard) {
            (SummaryStage::Forking, SummaryHeard::Made(fork)) => {
                let request_id = next_request_id(&mut self.request_id);
                let thread_id = fork.clone();
                self.stage = SummaryStage::Starting { fork };
                SummaryCall::Start { thread_id, request_id }
            },
            (SummaryStage::Forking, SummaryHeard::Failed(reason)) => {
                SummaryCall::Finish(Err(SummaryFailure::ForkFailed(reason)))
            },
            (SummaryStage::Forking, SummaryHeard::TimedOut) => {
                SummaryCall::Finish(Err(SummaryFailure::ForkTimedOut))
            },
            (SummaryStage::Starting { fork }, SummaryHeard::Made(turn)) => {
                self.stage = SummaryStage::Waiting { fork, turn };
                SummaryCall::Listen
            },
            (SummaryStage::Starting { fork }, SummaryHeard::Failed(reason)) => {
                self.leave(fork, Err(SummaryFailure::StartFailed(reason)))
            },
            (SummaryStage::Starting { fork }, SummaryHeard::TimedOut) => {
                self.leave(fork, Err(SummaryFailure::TurnTimedOut))
            },
            (
                SummaryStage::Waiting { fork, turn },
                SummaryHeard::Completed { thread_id, turn_id, status, items },
            ) => {
                if !same(thread_id.as_str(), fork.as_str()) || !same(
                    turn_id.as_str(),
                    turn.as_str(),
                ) {
                    self.stage = SummaryStage::Waiting { fork, turn };
                    SummaryCall::Listen
                } else if status != TurnStatus::Completed {
                    self.leave(fork, Err(SummaryFailure::Ended(status)))
                } else {
                    match summary_from_items(&items) {
                        Ok(text) => {
                            self.stage = SummaryStage::Decoding { fork };
                            SummaryCall::Decode(text)
                        },
                        Err(error) => self.leave(fork, Err(SummaryFailure::Unreadable(error))),
                    }
                }
            },
            (SummaryStage::Waiting { fork, turn }, SummaryHeard::Other) => {
                self.stage = SummaryStage::Waiting { fork, turn };
                SummaryCall::Listen
            },
            (SummaryStage::Waiting { fork, turn: _ }, SummaryHeard::TimedOut) => {
                self.leave(fork, Err(SummaryFailure::TurnTimedOut))
            },
            (SummaryStage::Waiting { fork, turn: _ }, SummaryHeard::Disconnected(reason)) => {
                self.leave(fork, Err(SummaryFailure::Disconnected(reason)))
            },
            (SummaryStage::Waiting { fork, turn: _ }, SummaryHeard::Closed) => {
                self.leave(fork, Err(SummaryFailure::Closed))
            },
            (SummaryStage::Decoding { fork }, SummaryHeard::Decoded(decoded)) => {
                let outcome = match parse_summary(decoded) {
                    Ok(payload) => Ok(payload),
                    Err(error) => Err(SummaryFailure::Unreadable(error)),
                };
                self.leave(fork, outcome)
            },
            (SummaryStage::Leaving { outcome }, _) => SummaryCall::Finish(outcome),
            _ => SummaryCall::Listen,
        }
    }
}

// ---------------------------------------------------------------------------
// What is sent to the server

/// A fork behind a turn that is for this use alone: the server keeps no record of it and does not
/// send its turns along.
pub open spec fn fork_request(thread_id: Seq<char>, last_turn_id: Seq<char>) -> JsonV {
    JsonV::Obj(
        map![
            "threadId"@ => jstr(thread_id),
            "lastTurnId"@ => jstr(last_turn_id),
            "model"@ => jstr(SUMMARY_MODEL@),
            "ephemeral"@ => JsonV::Bool(true),
            "excludeTurns"@ => JsonV::Bool(true),
        ],
    )
}

pub fn fork_params(thread_id: &str, last_turn_id: &str) -> (out: Json)
    ensures
        out@ == fork_request(thread_id@, last_turn_id@),
{
    let out = Json::object().with("threadId", Json::string(thread_id)).with(
        "lastTurnId",
        Json::string(last_turn_id),
    ).with("model", Json::string(SUMMARY_MODEL)).with("ephemeral", Json::Bool(true)).with(
        "excludeTurns",
        Json::Bool(true),
    );
    assert(out@ == fork_request(thread_id@, last_turn_id@));
    out
}

pub open spec fn summary_input() -> JsonV {
    JsonV::Obj(
        map![
            "type"@ => jstr("text"@),
            "text"@ => jstr(SUMMARY_PROMPT@),
            "textElements"@ => JsonV::Arr(Seq::empty()),
        ],
    )
}

/// A turn that asks for a summary in its form, with little effort.
pub open spec fn summary_turn_request(thread_id: Seq<char>) -> JsonV {
    JsonV::Obj(
        map![
            "threadId"@ => jstr(thread_id),
            "input"@ => JsonV::Arr(seq![summary_input()]),
            "model"@ => jstr(SUMMARY_MODEL@),
            "effort"@ => jstr("low"@),
            "outputSchema"@ => schema(),
        ],
    )
}

pub fn summary_turn_params(thread_id: &str) -> (out: Json)
    ensures
        out@ == summary_turn_request(thread_id@),
{
    let input = Json::object().with("type", Json::string("text")).with(
        "text",
        Json::string(SUMMARY_PROMPT),
    ).with("textElements", Json::empty_list());
    assert(input@ == summary_input());
    let out = Json::object().with("threadId", Json::string(thread_id)).with(
        "input",
        Json::list_of(input),
    ).with("model", Json::string(SUMMARY_MODEL)).with("effort", Json::string("low")).with(
        "outputSchema",
        summary_schema(),
    );
    assert(out@ == summary_turn_request(thread_id@));
    out
}

pub open spec fn unsubscribe_request(thread_id: Seq<char>) -> JsonV {
    JsonV::Obj(map!["threadId"@ => jstr(thread_id)])
}

/// The method and the parameters of what is asked of the server; none where nothing is.
pub open spec fn request_of(call: SummaryCall) -> Option<(Seq<char>, JsonV)> {
    match call {
        SummaryCall::Fork { thread_id, last_turn_id, .. } => Some(
            ("thread/fork"@, fork_request(thread_id@, last_turn_id@)),
        ),
        SummaryCall::Start { thread_id, .. } => Some(
            ("turn/start"@, summary_turn_request(thread_id@)),
        ),
        SummaryCall::Unsubscribe { thread_id, .. } => Some(
            ("thread/unsubscribe"@, unsubscribe_request(thread_id@)),
        ),
        _ => None,
    }
}

impl SummaryCall {
    /// The method and the parameters of what is asked of the server.
    pub fn request(&self) -> (out: Option<(&'static str, Json)>)
        ensures
            match out {
                Some((method, params)) => request_of(*self) == Some((method@, params@)),
                None => request_of(*self) is None,
            },
    {
        match self {
            SummaryCall::Fork { thread_id, last_turn_id, .. } => Some(
                ("thread/fork", fork_params(thread_id.as_str(), last_turn_id.as_str())),
            ),
            SummaryCall::Start { thread_id, .. } => Some(
                ("turn/start", summary_turn_params(thread_id.as_str())),
            ),
            SummaryCall::Unsubscribe { thread_id, .. } => {
                let params = Json::object().with("threadId", Json::string(thread_id.as_str()));
                assert(params@ == unsubscribe_request(thread_id@));
                Some(("thread/unsubscribe", params))
            },
            _ => None,
        }
    }
}

// ---------------------------------------------------------------------------
// What holds of a summary

/// The only thread that is forked is the one whose summary is wanted, behind the turn, and the
/// fork is ephemeral.
pub proof fn forks_are_ephemeral(job: SummaryJob, request_id: i64, call: SummaryCall)
    requires
        call == (SummaryCall::Fork {
            thread_id: job.thread_id,
            last_turn_id: job.turn_id,
            request_id,
        }),
    ensures
        request_of(call) matches Some((method, params)) && method == "thread/fork"@
            && params.str_at("threadId"@) == Some(job.thread_id@) && params.str_at("lastTurnId"@)
            == Some(job.turn_id@) && params.get("ephemeral"@) == Some(JsonV::Bool(true)),
{
    lemma_fork_keys();
}

proof fn lemma_fork_keys()
    ensures
        "threadId"@ != "lastTurnId"@,
        "threadId"@ != "model"@,
        "threadId"@ != "ephemeral"@,
        "threadId"@ != "excludeTurns"@,
        "lastTurnId"@ != "model"@,
        "lastTurnId"@ != "ephemeral"@,
        "lastTurnId"@ != "excludeTurns"@,
        "ephemeral"@ != "excludeTurns"@,
{
    reveal_strlit("threadId");
    reveal_strlit("lastTurnId");
    reveal_strlit("model");
    reveal_strlit("ephemeral");
    reveal_strlit("excludeTurns");
    assert("threadId"@.len() == 8);
    assert("lastTurnId"@.len() == 10);
    assert("model"@.len() == 5);
    assert("ephemeral"@.len() == 9);
    assert("excludeTurns"@.len() == 12);
}

/// Where there was a number for each request at first, there is one for each that is made.
pub proof fn numbers_do_not_run_out(
    before: SummaryRun,
    heard: SummaryHeard,
    after: SummaryRun,
    call: SummaryCall,
)
    requires
        can_hear(before.stage, heard),
        follows(before, heard, after, call),
        before.request_id + ids_to_come(before.stage) <= i64::MAX,
    ensures
        after.request_id + ids_to_come(after.stage) <= i64::MAX,
{
}

/// The turn that asks for a summary is never started in the thread itself: it is started in the
/// thread that the server has just made.
pub proof fn summary_is_asked_of_the_fork(
    before: SummaryRun,
    heard: SummaryHeard,
    after: SummaryRun,
    call: SummaryCall,
)
    requires
        can_hear(before.stage, heard),
        follows(before, heard, after, call),
    ensures
        !(call is Fork),
        call matches SummaryCall::Start { thread_id, .. } ==> before.stage is Forking && heard
            == SummaryHeard::Made(thread_id),
{
}

/// The fork that a stage holds.
pub open spec fn fork_of(stage: SummaryStage) -> Option<String> {
    match stage {
        SummaryStage::Starting { fork } => Some(fork),
        SummaryStage::Waiting { fork, .. } => Some(fork),
        SummaryStage::Decoding { fork } => Some(fork),
        _ => None,
    }
}

/// A fork that was made is always left, whatever happens.
pub proof fn forks_are_left(
    before: SummaryRun,
    heard: SummaryHeard,
    after: SummaryRun,
    call: SummaryCall,
)
    requires
        can_hear(before.stage, heard),
        follows(before, heard, after, call),
        fork_of(before.stage) is Some,
    ensures
        fork_of(after.stage) == fork_of(before.stage) || (after.stage is Leaving && call == (
        SummaryCall::Unsubscribe {
            thread_id: fork_of(before.stage)->Some_0,
            request_id: before.request_id,
        })),
{
}

/// What came of the turn is told once the fork is left, whether the server answered or not.
pub proof fn outcome_is_told(
    before: SummaryRun,
    heard: SummaryHeard,
    after: SummaryRun,
    call: SummaryCall,
)
    requires
        can_hear(before.stage, heard),
        follows(before, heard, after, call),
    ensures
        before.stage matches SummaryStage::Leaving { outcome } ==> call == SummaryCall::Finish(
            outcome,
        ) && after.stage is Over,
{
}

/// A summary that is about to be told is short, and not empty.
pub open spec fn tells_little(stage: SummaryStage) -> bool {
    stage matches SummaryStage::Leaving { outcome: Ok(payload) } ==> 0 < payload.summary@.len()
        <= SUMMARY_LENGTH
}

/// A summary has no more characters than it may, and is not empty.
pub proof fn summaries_are_short(
    before: SummaryRun,
    heard: SummaryHeard,
    after: SummaryRun,
    call: SummaryCall,
)
    requires
        can_hear(before.stage, heard),
        follows(before, heard, after, call),
        tells_little(before.stage),
    ensures
        tells_little(after.stage),
        call matches SummaryCall::Finish(Ok(payload)) ==> 0 < payload.summary@.len()
            <= SUMMARY_LENGTH,
{
}

/// The end of another turn, or of a turn in another thread, changes nothing.
pub proof fn other_turns_are_passed_over(
    before: SummaryRun,
    heard: SummaryHeard,
    after: SummaryRun,
    call: SummaryCall,
)
    requires
        follows(before, heard, after, call),
        before.stage matches SummaryStage::Waiting { fork, turn } && heard
            matches SummaryHeard::Completed { thread_id, turn_id, .. } && (thread_id@ != fork@
            || turn_id@ != turn@),
    ensures
        after == before,
        call is Listen,
{
}

} // verus!

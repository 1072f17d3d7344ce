//! How the windows are loaded: each session's thread is read from the server, and then the turns
//! that it had last.

use vstd::prelude::*;

use crate::json::{jstr, parsed, Json, JsonV};
use crate::window::{
    completed_turn_id, first_completed, next_request_id, recent_turns_params,
    recent_turns_request, sort_windows, sorted, window_of, windows_view, EntryV, SummaryCache,
    Thread, Turn, Window, WindowV,
};

verus! {

/// The session of a window, out of the file that names its thread: a text in JSON. None where the
/// file holds anything else.
pub fn session_of(slug: &str, sid: &str) -> (out: Option<(String, String)>)
    ensures
        match out {
            Some(session) => session.0@ == slug@ && parsed(sid@) == Some(jstr(session.1@)),
            None => !(parsed(sid@) matches Some(JsonV::Str(_))),
        },
{
    match Json::parse(sid) {
        Some(value) => match value.as_str() {
            Some(thread_id) => Some((slug.to_owned(), thread_id.to_owned())),
            None => None,
        },
        None => None,
    }
}

/// The windows that are loaded so far, and the thread of the next one where it has been read.
#[derive(Debug)]
pub struct Loading {
    /// The slug of each window, and the thread that belongs to it.
    pub sessions: Vec<(String, String)>,
    pub windows: Vec<Window>,
    pub thread: Option<Thread>,
    pub request_id: i64,
}

pub struct LoadingV {
    pub sessions: Seq<(Seq<char>, Seq<char>)>,
    pub windows: Seq<WindowV>,
    pub thread: Option<Thread>,
    pub request_id: int,
}

pub open spec fn sessions_view(sessions: Seq<(String, String)>) -> Seq<(Seq<char>, Seq<char>)> {
    Seq::new(sessions.len(), |i: int| (sessions[i].0@, sessions[i].1@))
}

impl View for Loading {
    type V = LoadingV;

    open spec fn view(&self) -> LoadingV {
        LoadingV {
            sessions: sessions_view(self.sessions@),
            windows: windows_view(self.windows@),
            thread: self.thread,
            request_id: self.request_id as int,
        }
    }
}

/// What is to be asked of the server.
#[derive(Debug)]
pub enum LoadCall {
    /// Read a thread.
    Read { slug: String, thread_id: String, request_id: i64 },
    /// List the last turns of a thread.
    Turns { slug: String, thread_id: String, request_id: i64 },
    Loaded(Vec<Window>),
}

pub enum LoadCallV {
    Read { slug: Seq<char>, thread_id: Seq<char>, request_id: int },
    Turns { slug: Seq<char>, thread_id: Seq<char>, request_id: int },
    Loaded(Seq<WindowV>),
}

impl View for LoadCall {
    type V = LoadCallV;

    open spec fn view(&self) -> LoadCallV {
        match self {
            LoadCall::Read { slug, thread_id, request_id } => LoadCallV::Read {
                slug: slug@,
                thread_id: thread_id@,
                request_id: *request_id as int,
            },
            LoadCall::Turns { slug, thread_id, request_id } => LoadCallV::Turns {
                slug: slug@,
                thread_id: thread_id@,
                request_id: *request_id as int,
            },
            LoadCall::Loaded(windows) => LoadCallV::Loaded(windows_view(windows@)),
        }
    }
}

/// A thread, without its turns.
pub open spec fn read_request(thread_id: Seq<char>) -> JsonV {
    JsonV::Obj(map!["threadId"@ => jstr(thread_id), "includeTurns"@ => JsonV::Bool(false)])
}

/// The method and the parameters of what is asked of the server; none where nothing is.
pub open spec fn load_request(call: LoadCallV) -> Option<(Seq<char>, JsonV)> {
    match call {
        LoadCallV::Read { thread_id, .. } => Some(("thread/read"@, read_request(thread_id))),
        LoadCallV::Turns { thread_id, .. } => Some(
            ("thread/turns/list"@, recent_turns_request(thread_id)),
        ),
        LoadCallV::Loaded(_) => None,
    }
}

impl LoadCall {
    /// The method and the parameters of what is asked of the server.
    pub fn request(&self) -> (out: Option<(&'static str, Json)>)
        ensures
            match out {
                Some((method, params)) => load_request(self@) == Some((method@, params@)),
                None => load_request(self@) is None,
            },
    {
        match self {
            LoadCall::Read { thread_id, .. } => {
                let params = Json::object().with(
                    "threadId",
                    Json::string(thread_id.as_str()),
                ).with("includeTurns", Json::Bool(false));
                assert(params@ == read_request(thread_id@));
                Some(("thread/read", params))
            },
            LoadCall::Turns { thread_id, .. } => Some(
                ("thread/turns/list", recent_turns_params(thread_id.as_str())),
            ),
            LoadCall::Loaded(_) => None,
        }
    }
}

/// The number of requests that are still to be made.
pub open spec fn to_come(l: LoadingV) -> int {
    2 * (l.sessions.len() - l.windows.len()) - if l.thread is Some {
        1int
    } else {
        0
    }
}

/// There is a session for each window and for the thread that was read, and a number for each
/// request.
pub open spec fn sound(l: LoadingV) -> bool {
    &&& l.windows.len() <= l.sessions.len()
    &&& l.thread is Some ==> l.windows.len() < l.sessions.len()
    &&& l.request_id + to_come(l) <= i64::MAX
}

/// The thread of the next session is asked for, or the windows are handed over in their order.
pub open spec fn next_asked(l: LoadingV) -> (LoadingV, LoadCallV) {
    let at = l.windows.len() as int;
    if at < l.sessions.len() {
        (
            LoadingV { request_id: l.request_id + 1, ..l },
            LoadCallV::Read {
                slug: l.sessions[at].0,
                thread_id: l.sessions[at].1,
                request_id: l.request_id,
            },
        )
    } else {
        (
            LoadingV { sessions: Seq::empty(), windows: Seq::empty(), ..l },
            LoadCallV::Loaded(sorted(l.windows)),
        )
    }
}

/// Nothing is loaded yet.
pub open spec fn unloaded(sessions: Seq<(Seq<char>, Seq<char>)>, request_id: int) -> LoadingV {
    LoadingV { sessions, windows: Seq::empty(), thread: None, request_id }
}

/// The server is waited for with the thread of the next session.
pub open spec fn reads(l: LoadingV) -> bool {
    l.thread is None && l.windows.len() < l.sessions.len() && l.request_id + to_come(l) - 1
        <= i64::MAX
}

/// A thread was read: the turns that it had last are asked for.
pub open spec fn thread_read(l: LoadingV, thread: Thread) -> (LoadingV, LoadCallV) {
    let at = l.windows.len() as int;
    (
        LoadingV { thread: Some(thread), request_id: l.request_id + 1, ..l },
        LoadCallV::Turns {
            slug: l.sessions[at].0,
            thread_id: l.sessions[at].1,
            request_id: l.request_id,
        },
    )
}

/// The server is waited for with the turns of a thread.
pub open spec fn lists(l: LoadingV) -> bool {
    l.thread is Some && l.windows.len() < l.sessions.len() && l.request_id + to_come(l) - 1
        <= i64::MAX
}

/// The turns were listed: the window is complete, and the next one follows.
pub open spec fn turns_listed(
    l: LoadingV,
    turn: Option<Seq<char>>,
    held: Map<Seq<char>, EntryV>,
) -> (LoadingV, LoadCallV) {
    let at = l.windows.len() as int;
    next_asked(
        LoadingV {
            windows: l.windows.push(
                window_of(l.sessions[at].0, l.sessions[at].1, l.thread->Some_0, turn, held),
            ),
            thread: None,
            ..l
        },
    )
}

impl Loading {
    fn ask_next(&mut self) -> (call: LoadCall)
        requires
            sound(old(self)@),
            old(self).thread is None,
        ensures
            (final(self)@, call@) == next_asked(old(self)@),
    {
        let at: usize = self.windows.len();
        assert(self@.windows.len() == self.windows@.len());
        assert(self@.sessions.len() == self.sessions@.len());
        if at < self.sessions.len() {
            let slug = self.sessions[at].0.clone();
            let thread_id = self.sessions[at].1.clone();
            let request_id = next_request_id(&mut self.request_id);
            LoadCall::Read { slug, thread_id, request_id }
        } else {
            let mut windows: Vec<Window> = Vec::new();
            std::mem::swap(&mut windows, &mut self.windows);
            self.sessions = Vec::new();
            sort_windows(&mut windows);
            assert(self@.windows =~= Seq::empty());
            assert(self@.sessions =~= Seq::empty());
            LoadCall::Loaded(windows)
        }
    }

    /// Whether there is a number for each request that the sessions take.
    pub fn can_begin(sessions: &Vec<(String, String)>, request_id: i64) -> (out: bool)
        ensures
            out == (request_id + 2 * sessions@.len() <= i64::MAX),
    {
        let left: i128 = (i64::MAX as i128) - (request_id as i128);
        2 * (sessions.len() as i128) <= left
    }

    /// Begins to load the windows of the sessions.
    pub fn begin(sessions: Vec<(String, String)>, request_id: i64) -> (out: (Loading, LoadCall))
        requires
            request_id + 2 * sessions@.len() <= i64::MAX,
        ensures
            (out.0@, out.1@) == next_asked(
                unloaded(sessions_view(sessions@), request_id as int),
            ),
    {
        let mut loading = Loading { sessions, windows: Vec::new(), thread: None, request_id };
        assert(loading@.windows =~= Seq::empty());
        let call = loading.ask_next();
        (loading, call)
    }

    fn counts(&self) -> (out: bool)
        ensures
            out == (self@.windows.len() < self@.sessions.len() && self@.request_id + to_come(self@)
                - 1 <= i64::MAX),
    {
        assert(self@.windows.len() == self.windows@.len());
        assert(self@.sessions.len() == self.sessions@.len());
        if self.windows.len() >= self.sessions.len() {
            return false;
        }
        let open: i128 = (self.sessions.len() - self.windows.len()) as i128;
        let more: i128 = if self.thread.is_some() {
            2 * open - 2
        } else {
            2 * open - 1
        };
        (self.request_id as i128) + more <= i64::MAX as i128
    }

    /// Whether the thread of the next session is waited for.
    pub fn can_take_thread(&self) -> (out: bool)
        ensures
            out == reads(self@),
    {
        self.thread.is_none() && self.counts()
    }

    /// Whether the turns of a thread are waited for.
    pub fn can_take_turns(&self) -> (out: bool)
        ensures
            out == lists(self@),
    {
        self.thread.is_some() && self.counts()
    }

    /// Goes on with the thread of the next session.
    pub fn on_thread(&mut self, thread: Thread) -> (call: LoadCall)
        requires
            reads(old(self)@),
        ensures
            (final(self)@, call@) == thread_read(old(self)@, thread),
    {
        let at: usize = self.windows.len();
        assert(self@.windows.len() == self.windows@.len());
        assert(self@.sessions.len() == self.sessions@.len());
        let slug = self.sessions[at].0.clone();
        let thread_id = self.sessions[at].1.clone();
        let request_id = next_request_id(&mut self.request_id);
        self.thread = Some(thread);
        LoadCall::Turns { slug, thread_id, request_id }
    }

    /// Goes on with the turns that the thread had last, the latest first.
    pub fn on_turns(&mut self, turns: &Vec<Turn>, cache: &SummaryCache) -> (call: LoadCall)
        requires
            lists(old(self)@),
        ensures
            (final(self)@, call@) == turns_listed(
                old(self)@,
                first_completed(turns@),
                cache.held(),
            ),
    {
        let ghost before = self@;
        let at: usize = self.windows.len();
        assert(self@.windows.len() == self.windows@.len());
        assert(self@.sessions.len() == self.sessions@.len());
        let slug = self.sessions[at].0.clone();
        let thread_id = self.sessions[at].1.clone();
        let turn = completed_turn_id(turns);
        let mut thread: Option<Thread> = None;
        std::mem::swap(&mut thread, &mut self.thread);
        if let Some(thread) = thread {
            let window = Window::of_thread(slug, thread_id, thread, turn, cache);
            let ghost made = window@;
            self.windows.push(window);
            assert(self@.windows =~= before.windows.push(made));
        }
        self.ask_next()
    }
}

// ---------------------------------------------------------------------------
// What holds of loading

/// Each step leaves room for the next one: what is asked for can be taken when it comes.
pub proof fn every_answer_can_be_taken(
    sessions: Seq<(Seq<char>, Seq<char>)>,
    request_id: int,
    l: LoadingV,
    thread: Thread,
    turn: Option<Seq<char>>,
    held: Map<Seq<char>, EntryV>,
)
    requires
        request_id + 2 * sessions.len() <= i64::MAX,
    ensures
        next_asked(unloaded(sessions, request_id)).1 is Read ==> reads(
            next_asked(unloaded(sessions, request_id)).0,
        ),
        reads(l) ==> lists(thread_read(l, thread).0),
        lists(l) && turns_listed(l, turn, held).1 is Read ==> reads(turns_listed(l, turn, held).0),
{
}

/// What is loaded in the end, where nothing goes wrong: the state after `n` sessions whose threads
/// and turns the server told.
pub open spec fn loaded_up_to(
    sessions: Seq<(Seq<char>, Seq<char>)>,
    request_id: int,
    threads: Seq<Thread>,
    turns: Seq<Option<Seq<char>>>,
    held: Map<Seq<char>, EntryV>,
    n: nat,
) -> (LoadingV, LoadCallV)
    decreases n,
{
    if n == 0 {
        next_asked(unloaded(sessions, request_id))
    } else {
        let before = loaded_up_to(
            sessions,
            request_id,
            threads,
            turns,
            held,
            (n - 1) as nat,
        ).0;
        turns_listed(thread_read(before, threads[n - 1]).0, turns[n - 1], held)
    }
}

/// The windows of the first sessions, in the order of the sessions.
pub open spec fn windows_up_to(
    sessions: Seq<(Seq<char>, Seq<char>)>,
    threads: Seq<Thread>,
    turns: Seq<Option<Seq<char>>>,
    held: Map<Seq<char>, EntryV>,
    n: nat,
) -> Seq<WindowV> {
    Seq::new(
        n,
        |i: int| window_of(sessions[i].0, sessions[i].1, threads[i], turns[i], held),
    )
}

proof fn lemma_loaded(
    sessions: Seq<(Seq<char>, Seq<char>)>,
    request_id: int,
    threads: Seq<Thread>,
    turns: Seq<Option<Seq<char>>>,
    held: Map<Seq<char>, EntryV>,
    n: nat,
)
    requires
        n < sessions.len(),
    ensures
        ({
            let (l, call) = loaded_up_to(sessions, request_id, threads, turns, held, n);
            &&& l.sessions == sessions
            &&& l.windows == windows_up_to(sessions, threads, turns, held, n)
            &&& l.thread is None
            &&& l.request_id == request_id + 2 * n + 1
            &&& call == (LoadCallV::Read {
                slug: sessions[n as int].0,
                thread_id: sessions[n as int].1,
                request_id: request_id + 2 * n,
            })
        }),
    decreases n,
{
    if n == 0 {
        assert(windows_up_to(sessions, threads, turns, held, 0) =~= Seq::empty());
    } else {
        let m = (n - 1) as nat;
        lemma_loaded(sessions, request_id, threads, turns, held, m);
        assert(windows_up_to(sessions, threads, turns, held, n) =~= windows_up_to(
            sessions,
            threads,
            turns,
            held,
            m,
        ).push(
            window_of(
                sessions[m as int].0,
                sessions[m as int].1,
                threads[m as int],
                turns[m as int],
                held,
            ),
        ));
    }
}

/// Each session gets one window, with the latest activity first.
pub proof fn every_session_gets_its_window(
    sessions: Seq<(Seq<char>, Seq<char>)>,
    request_id: int,
    threads: Seq<Thread>,
    turns: Seq<Option<Seq<char>>>,
    held: Map<Seq<char>, EntryV>,
)
    ensures
        loaded_up_to(sessions, request_id, threads, turns, held, sessions.len()).1
            == LoadCallV::Loaded(
            sorted(windows_up_to(sessions, threads, turns, held, sessions.len())),
        ),
{
    let n = sessions.len();
    let all = windows_up_to(sessions, threads, turns, held, n);
    if n == 0 {
        assert(all =~= Seq::empty());
    } else {
        let m = (n - 1) as nat;
        lemma_loaded(sessions, request_id, threads, turns, held, m);
        assert(all =~= windows_up_to(sessions, threads, turns, held, m).push(
            window_of(
                sessions[m as int].0,
                sessions[m as int].1,
                threads[m as int],
                turns[m as int],
                held,
            ),
        ));
    }
}

/// The sessions are asked for in their order, each first for its thread and then for its turns, and
/// the requests are numbered on.
pub proof fn sessions_are_asked_for_in_order(
    sessions: Seq<(Seq<char>, Seq<char>)>,
    request_id: int,
    threads: Seq<Thread>,
    turns: Seq<Option<Seq<char>>>,
    held: Map<Seq<char>, EntryV>,
    n: nat,
    thread: Thread,
)
    requires
        n < sessions.len(),
    ensures
        ({
            let (l, call) = loaded_up_to(sessions, request_id, threads, turns, held, n);
            let (slug, thread_id) = sessions[n as int];
            &&& call == (LoadCallV::Read { slug, thread_id, request_id: request_id + 2 * n })
            &&& thread_read(l, thread).1 == (LoadCallV::Turns {
                slug,
                thread_id,
                request_id: request_id + 2 * n + 1,
            })
        }),
{
    lemma_loaded(sessions, request_id, threads, turns, held, n);
}

} // verus!

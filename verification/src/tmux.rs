//! The viewport beside the list: which commands bring the client of a window into it.

use vstd::prelude::*;

use crate::chars::{
    cat, cut, decimal, decimal_text, first_from, first_hit, lemma_texts_push, lines, opt_str,
    opt_text, same, split, split_at_each, split_lines, text_trim, texts, to_chars, to_text, trim,
    wide_text, Pick,
};

verus! {

/// The session that holds the clients that are not shown.
pub const PARKING_SESSION: &'static str = "puzzle-parking";

/// The option of a window that names its viewport.
pub const VIEWPORT_OPTION: &'static str = "@puzzle-viewport-pane";

/// The option of a pane that names the window whose client it holds.
pub const SLUG_OPTION: &'static str = "@puzzle-slug";

/// How often a new client's pane is looked for.
pub const POLLS: u8 = 40;

/// How long to wait before it is looked for again, in milliseconds.
pub const POLL_PAUSE: u64 = 50;

// ---------------------------------------------------------------------------
// Slugs

pub open spec fn is_slug_char(c: char) -> bool {
    'a' <= c <= 'z' || '0' <= c <= '9'
}

pub open spec fn is_slug_part(s: Seq<char>) -> bool {
    s.len() > 0 && forall|i: int| 0 <= i < s.len() ==> is_slug_char(#[trigger] s[i])
}

/// A slug is made of parts with underscores between them, each of small letters and digits.
pub open spec fn is_slug(s: Seq<char>) -> bool {
    s.len() > 0 && forall|i: int|
        0 <= i < split(s, '_').len() ==> is_slug_part(#[trigger] split(s, '_')[i])
}

fn valid_part(s: &str) -> (out: bool)
    ensures
        out == is_slug_part(s@),
{
    let v = to_chars(s);
    if v.len() == 0 {
        return false;
    }
    let mut i: usize = 0;
    while i < v.len()
        invariant
            i <= v.len(),
            v@ == s@,
            forall|j: int| 0 <= j < i ==> is_slug_char(#[trigger] v@[j]),
        decreases v.len() - i,
    {
        let c = v[i];
        if !(('a' <= c && c <= 'z') || ('0' <= c && c <= '9')) {
            assert(!is_slug_char(s@[i as int]));
            return false;
        }
        i += 1;
    }
    true
}

pub fn valid_window_slug(slug: &str) -> (out: bool)
    ensures
        out == is_slug(slug@),
{
    if slug.is_empty() {
        return false;
    }
    let parts = split_at_each(slug, '_');
    let ghost all = texts(parts@);
    let mut i: usize = 0;
    while i < parts.len()
        invariant
            i <= parts.len(),
            all == texts(parts@),
            forall|j: int| 0 <= j < i ==> is_slug_part(#[trigger] all[j]),
            all == split(slug@, '_'),
        decreases parts.len() - i,
    {
        if !valid_part(parts[i].as_str()) {
            assert(!is_slug_part(all[i as int]));
            return false;
        }
        i += 1;
    }
    true
}

// ---------------------------------------------------------------------------
// What tmux says

/// The program does not run inside tmux.
#[derive(Clone, Copy, Debug, PartialEq, Eq, Structural)]
pub enum TmuxError {
    NotInside,
    NoSocket,
}

impl TmuxError {
    pub fn message(&self) -> (out: &'static str)
        ensures
            out@ == (match *self {
                TmuxError::NotInside => "Puzzle must run inside tmux"@,
                TmuxError::NoSocket => "TMUX does not name a server socket"@,
            }),
    {
        match self {
            TmuxError::NotInside => "Puzzle must run inside tmux",
            TmuxError::NoSocket => "TMUX does not name a server socket",
        }
    }
}

/// The socket of the server, which comes first in the variable that tmux sets.
pub fn tmux_socket(tmux: Option<&str>) -> (out: Result<String, TmuxError>)
    ensures
        match (opt_str(tmux), out) {
            (None, Err(e)) => e == TmuxError::NotInside,
            (Some(value), Err(e)) => e == TmuxError::NoSocket && first_hit(value, Pick::Is(','))
                == 0,
            (Some(value), Ok(socket)) => {
                &&& socket@ == value.take(first_hit(value, Pick::Is(',')) as int)
                &&& socket@.len() > 0
            },
            (None, Ok(_)) => false,
        },
{
    match tmux {
        Some(value) => {
            let v = to_chars(value);
            let n = first_from(&v, 0, Pick::Is(','));
            assert(v@.skip(0) =~= v@);
            if n == 0 {
                Err(TmuxError::NoSocket)
            } else {
                let socket = cut(&v, 0, n);
                assert(socket@ =~= v@.take(n as int));
                Ok(to_text(&socket))
            }
        },
        None => Err(TmuxError::NotInside),
    }
}

/// What is said of a command that failed, by what it wrote about it.
pub fn tmux_error(stderr: &str) -> (out: String)
    ensures
        out@ == (if trim(stderr@).len() == 0 {
            "tmux command failed"@
        } else {
            "tmux: "@ + trim(stderr@)
        }),
{
    let message = text_trim(stderr);
    if message.as_str().is_empty() {
        "tmux command failed".to_owned()
    } else {
        cat("tmux: ", message.as_str())
    }
}

/// The pane is one of those in a list of panes, one on a line.
pub open spec fn is_listed(panes: Seq<char>, pane: Seq<char>) -> bool {
    exists|i: int| 0 <= i < lines(panes).len() && #[trigger] lines(panes)[i] == pane
}

pub fn pane_is_listed(panes: &str, pane: &str) -> (out: bool)
    ensures
        out == is_listed(panes@, pane@),
{
    let all = split_lines(panes);
    let ghost ls = texts(all@);
    let mut i: usize = 0;
    while i < all.len()
        invariant
            i <= all.len(),
            ls == texts(all@),
            ls == lines(panes@),
            forall|j: int| 0 <= j < i ==> #[trigger] ls[j] != pane@,
        decreases all.len() - i,
    {
        assert(ls[i as int] == all@[i as int]@);
        if same(all[i].as_str(), pane) {
            return true;
        }
        i += 1;
    }
    false
}

/// The pane of a line that names a pane and, behind a tab, the slug.
pub open spec fn pane_for(line: Seq<char>, slug: Seq<char>) -> Option<Seq<char>> {
    let n = first_hit(line, Pick::Is('\t')) as int;
    if n < line.len() && line.skip(n + 1) == slug {
        Some(line.take(n))
    } else {
        None
    }
}

/// The pane of the first line that names the slug.
pub open spec fn tagged(lines: Seq<Seq<char>>, slug: Seq<char>) -> Option<Seq<char>>
    decreases lines.len(),
{
    if lines.len() == 0 {
        None
    } else {
        match pane_for(lines[0], slug) {
            Some(pane) => Some(pane),
            None => tagged(lines.skip(1), slug),
        }
    }
}

/// The pane that holds the client of a window, in a list of panes with their slugs.
pub fn tagged_pane(panes: &str, slug: &str) -> (out: Option<String>)
    ensures
        opt_text(out) == tagged(lines(panes@), slug@),
{
    let all = split_lines(panes);
    let ghost ls = texts(all@);
    let mut i: usize = 0;
    assert(ls.skip(0) =~= ls);
    while i < all.len()
        invariant
            i <= all.len(),
            ls == texts(all@),
            ls == lines(panes@),
            tagged(ls, slug@) == tagged(ls.skip(i as int), slug@),
        decreases all.len() - i,
    {
        assert(ls.skip(i as int)[0] == all@[i as int]@);
        assert(ls.skip(i as int).skip(1) =~= ls.skip(i + 1));
        let v = to_chars(all[i].as_str());
        let n = first_from(&v, 0, Pick::Is('\t'));
        assert(v@.skip(0) =~= v@);
        if n < v.len() {
            let candidate = cut(&v, n + 1, v.len());
            assert(candidate@ =~= v@.skip(n + 1));
            if same(to_text(&candidate).as_str(), slug) {
                let pane = cut(&v, 0, n);
                assert(pane@ =~= v@.take(n as int));
                return Some(to_text(&pane));
            }
        }
        i += 1;
    }
    None
}

/// The name of the tmux window for a new client: the process that starts it, and when.
pub fn client_window_name(process: u32, nonce: u128) -> (out: String)
    ensures
        out@ == "client-"@ + decimal(process as nat) + "-"@ + decimal(nonce as nat),
{
    let mut out = cat("client-", decimal_text(process as u64).as_str());
    out.append("-");
    out.append(wide_text(nonce).as_str());
    out
}

// ---------------------------------------------------------------------------
// Commands

/// What is to be done with tmux.
#[derive(Debug)]
pub enum Ask {
    /// Run a command and hand over what it printed, without white space around it. Where it fails
    /// everything ends, for the reason that is given in `context`.
    Output { args: Vec<String>, context: String },
    /// Run a command. Where it fails everything ends.
    Status { args: Vec<String>, context: String },
    /// Run a command and say whether it succeeded.
    Success { args: Vec<String> },
    /// Run a command and hand over what it printed; nothing where it fails.
    Try { args: Vec<String> },
    /// Wait a while.
    Pause,
    Done,
    Fail(String),
}

pub enum AskV {
    Output(Seq<Seq<char>>, Seq<char>),
    Status(Seq<Seq<char>>, Seq<char>),
    Success(Seq<Seq<char>>),
    Try(Seq<Seq<char>>),
    Pause,
    Done,
    Fail(Seq<char>),
}

impl View for Ask {
    type V = AskV;

    open spec fn view(&self) -> AskV {
        match self {
            Ask::Output { args, context } => AskV::Output(texts(args@), context@),
            Ask::Status { args, context } => AskV::Status(texts(args@), context@),
            Ask::Success { args } => AskV::Success(texts(args@)),
            Ask::Try { args } => AskV::Try(texts(args@)),
            Ask::Pause => AskV::Pause,
            Ask::Done => AskV::Done,
            Ask::Fail(reason) => AskV::Fail(reason@),
        }
    }
}

/// How it went.
#[derive(Debug)]
pub enum Answer {
    Text(String),
    /// A command was run, or the wait is over.
    Done,
    Succeeded(bool),
    /// Nothing was printed.
    Nothing,
}

pub enum AnswerV {
    Text(Seq<char>),
    Done,
    Succeeded(bool),
    Nothing,
}

impl View for Answer {
    type V = AnswerV;

    open spec fn view(&self) -> AnswerV {
        match self {
            Answer::Text(text) => AnswerV::Text(text@),
            Answer::Done => AnswerV::Done,
            Answer::Succeeded(b) => AnswerV::Succeeded(*b),
            Answer::Nothing => AnswerV::Nothing,
        }
    }
}

fn arg(first: &str) -> (out: Vec<String>)
    ensures
        texts(out@) == seq![first@],
{
    let mut out: Vec<String> = Vec::new();
    assert(texts(out@) =~= Seq::<Seq<char>>::empty());
    more(&mut out, first);
    out
}

fn more(args: &mut Vec<String>, next: &str)
    ensures
        texts(final(args)@) == texts(old(args)@).push(next@),
{
    let s = next.to_owned();
    proof {
        lemma_texts_push(args@, s);
    }
    args.push(s);
}

/// List the panes of a window.
pub open spec fn list_panes(window: Seq<char>) -> Seq<Seq<char>> {
    seq!["list-panes"@, "-t"@, window, "-F"@, "#{pane_id}"@]
}

/// List all panes with their slugs.
pub open spec fn list_tagged() -> Seq<Seq<char>> {
    seq!["list-panes"@, "-a"@, "-F"@, "#{pane_id}\t#{@puzzle-slug}"@]
}

/// Make a pane beside the list.
pub open spec fn split_window(pane: Seq<char>) -> Seq<Seq<char>> {
    seq!["split-window"@, "-hdP"@, "-p"@, "65"@, "-F"@, "#{pane_id}"@, "-t"@, pane]
}

/// Record which pane is the viewport of a window.
pub open spec fn set_viewport(window: Seq<char>, pane: Seq<char>) -> Seq<Seq<char>> {
    seq!["set-option"@, "-w"@, "-t"@, window, VIEWPORT_OPTION@, pane]
}

pub open spec fn has_parking() -> Seq<Seq<char>> {
    seq!["has-session"@, "-t"@, PARKING_SESSION@]
}

pub open spec fn new_parking() -> Seq<Seq<char>> {
    seq!["new-session"@, "-d"@, "-s"@, PARKING_SESSION@, "-n"@, "reserve"@]
}

/// Start the client of a window in a tmux window of the given name.
pub open spec fn start_client(name: Seq<char>, slug: Seq<char>) -> Seq<Seq<char>> {
    seq![
        "run-shell"@,
        "-b"@,
        "tmux new-window -ad -t "@ + PARKING_SESSION@ + ":reserve -n "@ + name
            + " 'exec muster codex tui --slug "@ + slug + "'"@,
    ]
}

pub open spec fn client_target(name: Seq<char>) -> Seq<char> {
    PARKING_SESSION@ + ":"@ + name
}

pub open spec fn tag_pane(pane: Seq<char>, slug: Seq<char>) -> Seq<Seq<char>> {
    seq!["set-option"@, "-p"@, "-t"@, pane, SLUG_OPTION@, slug]
}

pub open spec fn rename_window(pane: Seq<char>, slug: Seq<char>) -> Seq<Seq<char>> {
    seq!["rename-window"@, "-t"@, pane, slug]
}

pub open spec fn swap_panes(pane: Seq<char>, viewport: Seq<char>) -> Seq<Seq<char>> {
    seq!["swap-pane"@, "-d"@, "-s"@, pane, "-t"@, viewport]
}

fn list_panes_args(window: &str) -> (out: Vec<String>)
    ensures
        texts(out@) == list_panes(window@),
{
    let mut a = arg("list-panes");
    more(&mut a, "-t");
    more(&mut a, window);
    more(&mut a, "-F");
    more(&mut a, "#{pane_id}");
    a
}

fn list_tagged_args() -> (out: Vec<String>)
    ensures
        texts(out@) == list_tagged(),
{
    let mut a = arg("list-panes");
    more(&mut a, "-a");
    more(&mut a, "-F");
    more(&mut a, "#{pane_id}\t#{@puzzle-slug}");
    a
}

fn split_window_args(pane: &str) -> (out: Vec<String>)
    ensures
        texts(out@) == split_window(pane@),
{
    let mut a = arg("split-window");
    more(&mut a, "-hdP");
    more(&mut a, "-p");
    more(&mut a, "65");
    more(&mut a, "-F");
    more(&mut a, "#{pane_id}");
    more(&mut a, "-t");
    more(&mut a, pane);
    a
}

fn set_viewport_args(window: &str, pane: &str) -> (out: Vec<String>)
    ensures
        texts(out@) == set_viewport(window@, pane@),
{
    let mut a = arg("set-option");
    more(&mut a, "-w");
    more(&mut a, "-t");
    more(&mut a, window);
    more(&mut a, VIEWPORT_OPTION);
    more(&mut a, pane);
    a
}

fn has_parking_args() -> (out: Vec<String>)
    ensures
        texts(out@) == has_parking(),
{
    let mut a = arg("has-session");
    more(&mut a, "-t");
    more(&mut a, PARKING_SESSION);
    a
}

fn new_parking_args() -> (out: Vec<String>)
    ensures
        texts(out@) == new_parking(),
{
    let mut a = arg("new-session");
    more(&mut a, "-d");
    more(&mut a, "-s");
    more(&mut a, PARKING_SESSION);
    more(&mut a, "-n");
    more(&mut a, "reserve");
    a
}

fn start_client_args(name: &str, slug: &str) -> (out: Vec<String>)
    ensures
        texts(out@) == start_client(name@, slug@),
{
    let mut command = cat("tmux new-window -ad -t ", PARKING_SESSION);
    command.append(":reserve -n ");
    command.append(name);
    command.append(" 'exec muster codex tui --slug ");
    command.append(slug);
    command.append("'");
    let mut a = arg("run-shell");
    more(&mut a, "-b");
    more(&mut a, command.as_str());
    a
}

fn tag_pane_args(pane: &str, slug: &str) -> (out: Vec<String>)
    ensures
        texts(out@) == tag_pane(pane@, slug@),
{
    let mut a = arg("set-option");
    more(&mut a, "-p");
    more(&mut a, "-t");
    more(&mut a, pane);
    more(&mut a, SLUG_OPTION);
    more(&mut a, slug);
    a
}

fn rename_window_args(pane: &str, slug: &str) -> (out: Vec<String>)
    ensures
        texts(out@) == rename_window(pane@, slug@),
{
    let mut a = arg("rename-window");
    more(&mut a, "-t");
    more(&mut a, pane);
    more(&mut a, slug);
    a
}

fn swap_panes_args(pane: &str, viewport: &str) -> (out: Vec<String>)
    ensures
        texts(out@) == swap_panes(pane@, viewport@),
{
    let mut a = arg("swap-pane");
    more(&mut a, "-d");
    more(&mut a, "-s");
    more(&mut a, pane);
    more(&mut a, "-t");
    more(&mut a, viewport);
    a
}

/// Move the focus into the viewport.
pub open spec fn select_pane(pane: Seq<char>) -> Seq<Seq<char>> {
    seq!["select-pane"@, "-t"@, pane]
}

// ---------------------------------------------------------------------------
// Showing a window

/// The pane of the list, its tmux window, and the pane beside it.
#[derive(Debug)]
pub struct Teleporter {
    pub puzzle_pane: String,
    pub window_id: String,
    pub viewport_pane: String,
}

pub struct TeleporterV {
    pub puzzle_pane: Seq<char>,
    pub window_id: Seq<char>,
    pub viewport_pane: Seq<char>,
}

impl View for Teleporter {
    type V = TeleporterV;

    open spec fn view(&self) -> TeleporterV {
        TeleporterV {
            puzzle_pane: self.puzzle_pane@,
            window_id: self.window_id@,
            viewport_pane: self.viewport_pane@,
        }
    }
}

/// How far it has come to show a window.
#[derive(Debug)]
pub enum Stage {
    CheckViewport,
    MakeViewport,
    RecordViewport { pane: String },
    FindPane,
    CheckParking,
    MakeParking,
    StartClient,
    Poll { left: u8 },
    Pause { left: u8 },
    TagPane { pane: String },
    RenameWindow { pane: String },
    Swap { pane: String },
    RecordSwap,
    Over,
}

pub enum StageV {
    CheckViewport,
    MakeViewport,
    RecordViewport(Seq<char>),
    FindPane,
    CheckParking,
    MakeParking,
    StartClient,
    Poll(u8),
    Pause(u8),
    TagPane(Seq<char>),
    RenameWindow(Seq<char>),
    Swap(Seq<char>),
    RecordSwap,
    Over,
}

impl View for Stage {
    type V = StageV;

    open spec fn view(&self) -> StageV {
        match self {
            Stage::CheckViewport => StageV::CheckViewport,
            Stage::MakeViewport => StageV::MakeViewport,
            Stage::RecordViewport { pane } => StageV::RecordViewport(pane@),
            Stage::FindPane => StageV::FindPane,
            Stage::CheckParking => StageV::CheckParking,
            Stage::MakeParking => StageV::MakeParking,
            Stage::StartClient => StageV::StartClient,
            Stage::Poll { left } => StageV::Poll(*left),
            Stage::Pause { left } => StageV::Pause(*left),
            Stage::TagPane { pane } => StageV::TagPane(pane@),
            Stage::RenameWindow { pane } => StageV::RenameWindow(pane@),
            Stage::Swap { pane } => StageV::Swap(pane@),
            Stage::RecordSwap => StageV::RecordSwap,
            Stage::Over => StageV::Over,
        }
    }
}

/// A window that is being shown.
#[derive(Debug)]
pub struct Show {
    pub slug: String,
    /// The name of the tmux window for its client, where it has none yet.
    pub name: String,
    pub stage: Stage,
}

pub struct ShowV {
    pub slug: Seq<char>,
    pub name: Seq<char>,
    pub stage: StageV,
}

impl View for Show {
    type V = ShowV;

    open spec fn view(&self) -> ShowV {
        ShowV { slug: self.slug@, name: self.name@, stage: self.stage@ }
    }
}

/// The answer is one to what was asked at the stage.
pub open spec fn answers(stage: StageV, answer: AnswerV) -> bool {
    match stage {
        StageV::CheckViewport => answer is Text,
        StageV::MakeViewport => answer is Text,
        StageV::FindPane => answer is Text,
        StageV::CheckParking => answer is Succeeded,
        StageV::Poll(_) => answer is Text || answer is Nothing,
        StageV::Over => false,
        _ => answer is Done,
    }
}

/// The pane of the client is known: it is brought into the viewport, where it is not there.
pub open spec fn placed(t: TeleporterV, s: ShowV, pane: Seq<char>) -> (ShowV, AskV) {
    if pane == t.viewport_pane {
        (ShowV { stage: StageV::Over, ..s }, AskV::Done)
    } else {
        (
            ShowV { stage: StageV::Swap(pane), ..s },
            AskV::Status(
                swap_panes(pane, t.viewport_pane),
                "swap Codex client into Puzzle viewport"@,
            ),
        )
    }
}

/// The pane of the client is looked for.
pub open spec fn searched(s: ShowV) -> (ShowV, AskV) {
    (ShowV { stage: StageV::FindPane, ..s }, AskV::Output(list_tagged(), ""@))
}

pub open spec fn polled(s: ShowV, left: u8) -> (ShowV, AskV) {
    if left == 0 {
        (
            ShowV { stage: StageV::Over, ..s },
            AskV::Fail("tmux did not create a client pane for "@ + s.slug),
        )
    } else {
        (
            ShowV { stage: StageV::Poll(left), ..s },
            AskV::Try(list_panes(client_target(s.name))),
        )
    }
}

pub open spec fn viewport_made(t: TeleporterV, s: ShowV) -> (ShowV, AskV) {
    (
        ShowV { stage: StageV::MakeViewport, ..s },
        AskV::Output(split_window(t.puzzle_pane), "create Puzzle viewport pane"@),
    )
}

/// The first thing to be done to show a window.
pub open spec fn show_begun(t: TeleporterV, slug: Seq<char>, name: Seq<char>) -> (ShowV, AskV) {
    let s = ShowV { slug, name, stage: StageV::CheckViewport };
    if t.viewport_pane.len() == 0 {
        viewport_made(t, s)
    } else {
        (s, AskV::Output(list_panes(t.window_id), ""@))
    }
}

/// What is to be done next to show a window, with the viewport as it then is.
pub open spec fn show_goes_on(t: TeleporterV, s: ShowV, answer: AnswerV) -> (
    TeleporterV,
    ShowV,
    AskV,
) {
    match (s.stage, answer) {
        (StageV::CheckViewport, AnswerV::Text(panes)) => {
            let (s2, ask) = if is_listed(panes, t.viewport_pane) {
                searched(s)
            } else {
                viewport_made(t, s)
            };
            (t, s2, ask)
        },
        (StageV::MakeViewport, AnswerV::Text(pane)) => (
            t,
            ShowV { stage: StageV::RecordViewport(pane), ..s },
            AskV::Status(set_viewport(t.window_id, pane), "record Puzzle viewport pane"@),
        ),
        (StageV::RecordViewport(pane), _) => {
            let (s2, ask) = searched(s);
            (TeleporterV { viewport_pane: pane, ..t }, s2, ask)
        },
        (StageV::FindPane, AnswerV::Text(panes)) => match tagged(lines(panes), s.slug) {
            Some(pane) => {
                let (s2, ask) = placed(t, s, pane);
                (t, s2, ask)
            },
            None => if is_slug(s.slug) {
                (t, ShowV { stage: StageV::CheckParking, ..s }, AskV::Success(has_parking()))
            } else {
                (
                    t,
                    ShowV { stage: StageV::Over, ..s },
                    AskV::Fail("invalid window slug: "@ + s.slug),
                )
            },
        },
        (StageV::CheckParking, AnswerV::Succeeded(there)) => if there {
            (
                t,
                ShowV { stage: StageV::StartClient, ..s },
                AskV::Status(start_client(s.name, s.slug), ""@),
            )
        } else {
            (t, ShowV { stage: StageV::MakeParking, ..s }, AskV::Status(new_parking(), ""@))
        },
        (StageV::MakeParking, _) => (
            t,
            ShowV { stage: StageV::StartClient, ..s },
            AskV::Status(start_client(s.name, s.slug), ""@),
        ),
        (StageV::StartClient, _) => {
            let (s2, ask) = polled(s, POLLS);
            (t, s2, ask)
        },
        (StageV::Poll(left), AnswerV::Text(pane)) => if pane.len() > 0 {
            (
                t,
                ShowV { stage: StageV::TagPane(pane), ..s },
                AskV::Status(tag_pane(pane, s.slug), ""@),
            )
        } else {
            (t, ShowV { stage: StageV::Pause(left), ..s }, AskV::Pause)
        },
        (StageV::Poll(left), _) => (t, ShowV { stage: StageV::Pause(left), ..s }, AskV::Pause),
        (StageV::Pause(left), _) => {
            let (s2, ask) = polled(s, (left - 1) as u8);
            (t, s2, ask)
        },
        (StageV::TagPane(pane), _) => (
            t,
            ShowV { stage: StageV::RenameWindow(pane), ..s },
            AskV::Status(rename_window(pane, s.slug), ""@),
        ),
        (StageV::RenameWindow(pane), _) => {
            let (s2, ask) = placed(t, s, pane);
            (t, s2, ask)
        },
        (StageV::Swap(pane), _) => (
            TeleporterV { viewport_pane: pane, ..t },
            ShowV { stage: StageV::RecordSwap, ..s },
            AskV::Status(
                set_viewport(t.window_id, pane),
                "record current Puzzle viewport pane"@,
            ),
        ),
        (StageV::RecordSwap, _) => (t, ShowV { stage: StageV::Over, ..s }, AskV::Done),
        _ => (t, s, AskV::Done),
    }
}

/// A client is started only for a slug, and no more is waited for it than is allowed.
pub open spec fn sound(s: ShowV) -> bool {
    match s.stage {
        StageV::CheckParking | StageV::MakeParking | StageV::StartClient => is_slug(s.slug),
        StageV::TagPane(_) | StageV::RenameWindow(_) => is_slug(s.slug),
        StageV::Poll(left) => is_slug(s.slug) && 0 < left <= POLLS,
        StageV::Pause(left) => is_slug(s.slug) && 0 < left <= POLLS,
        _ => true,
    }
}

impl Teleporter {
    fn output(args: Vec<String>, context: &str) -> (ask: Ask)
        ensures
            ask@ == AskV::Output(texts(args@), context@),
    {
        Ask::Output { args, context: context.to_owned() }
    }

    fn status(args: Vec<String>, context: &str) -> (ask: Ask)
        ensures
            ask@ == AskV::Status(texts(args@), context@),
    {
        Ask::Status { args, context: context.to_owned() }
    }

    /// Begins to show a window. Returns the first thing to be done.
    pub fn show(&self, slug: &str, name: &str) -> (out: (Show, Ask))
        ensures
            (out.0@, out.1@) == show_begun(self@, slug@, name@),
            sound(out.0@),
    {
        let mut s = Show {
            slug: slug.to_owned(),
            name: name.to_owned(),
            stage: Stage::CheckViewport,
        };
        if self.viewport_pane.as_str().is_empty() {
            s.stage = Stage::MakeViewport;
            let ask = Teleporter::output(
                split_window_args(self.puzzle_pane.as_str()),
                "create Puzzle viewport pane",
            );
            (s, ask)
        } else {
            let ask = Teleporter::output(list_panes_args(self.window_id.as_str()), "");
            (s, ask)
        }
    }

    fn place(&self, s: &mut Show, pane: String) -> (ask: Ask)
        ensures
            (final(s)@, ask@) == placed(self@, old(s)@, pane@),
    {
        if same(pane.as_str(), self.viewport_pane.as_str()) {
            s.stage = Stage::Over;
            Ask::Done
        } else {
            let args = swap_panes_args(pane.as_str(), self.viewport_pane.as_str());
            s.stage = Stage::Swap { pane };
            Teleporter::status(args, "swap Codex client into Puzzle viewport")
        }
    }

    fn search(s: &mut Show) -> (ask: Ask)
        ensures
            (final(s)@, ask@) == searched(old(s)@),
    {
        s.stage = Stage::FindPane;
        Teleporter::output(list_tagged_args(), "")
    }

    fn poll(s: &mut Show, left: u8) -> (ask: Ask)
        ensures
            (final(s)@, ask@) == polled(old(s)@, left),
    {
        if left == 0 {
            s.stage = Stage::Over;
            Ask::Fail(cat("tmux did not create a client pane for ", s.slug.as_str()))
        } else {
            s.stage = Stage::Poll { left };
            let mut target = cat(PARKING_SESSION, ":");
            target.append(s.name.as_str());
            Ask::Try { args: list_panes_args(target.as_str()) }
        }
    }

    /// Takes how the last thing went. Returns what is to be done next to show the window.
    pub fn go_on(&mut self, s: &mut Show, answer: Answer) -> (ask: Ask)
        requires
            sound(old(s)@),
            answers(old(s)@.stage, answer@),
        ensures
            (final(self)@, final(s)@, ask@) == show_goes_on(old(self)@, old(s)@, answer@),
            sound(final(s)@),
    {
        let mut stage = Stage::Over;
        std::mem::swap(&mut stage, &mut s.stage);
        match (stage, answer) {
            (Stage::CheckViewport, Answer::Text(panes)) => {
                if pane_is_listed(panes.as_str(), self.viewport_pane.as_str()) {
                    Teleporter::search(s)
                } else {
                    s.stage = Stage::MakeViewport;
                    Teleporter::output(
                        split_window_args(self.puzzle_pane.as_str()),
                        "create Puzzle viewport pane",
                    )
                }
            },
            (Stage::MakeViewport, Answer::Text(pane)) => {
                let args = set_viewport_args(self.window_id.as_str(), pane.as_str());
                s.stage = Stage::RecordViewport { pane };
                Teleporter::status(args, "record Puzzle viewport pane")
            },
            (Stage::RecordViewport { pane }, _) => {
                self.viewport_pane = pane;
                Teleporter::search(s)
            },
            (Stage::FindPane, Answer::Text(panes)) => {
                match tagged_pane(panes.as_str(), s.slug.as_str()) {
                    Some(pane) => self.place(s, pane),
                    None => {
                        if valid_window_slug(s.slug.as_str()) {
                            s.stage = Stage::CheckParking;
                            Ask::Success { args: has_parking_args() }
                        } else {
                            Ask::Fail(cat("invalid window slug: ", s.slug.as_str()))
                        }
                    },
                }
            },
            (Stage::CheckParking, Answer::Succeeded(there)) => {
                if there {
                    s.stage = Stage::StartClient;
                    Teleporter::status(start_client_args(s.name.as_str(), s.slug.as_str()), "")
                } else {
                    s.stage = Stage::MakeParking;
                    Teleporter::status(new_parking_args(), "")
                }
            },
            (Stage::MakeParking, _) => {
                s.stage = Stage::StartClient;
                Teleporter::status(start_client_args(s.name.as_str(), s.slug.as_str()), "")
            },
            (Stage::StartClient, _) => Teleporter::poll(s, POLLS),
            (Stage::Poll { left }, Answer::Text(pane)) => {
                if pane.as_str().is_empty() {
                    s.stage = Stage::Pause { left };
                    Ask::Pause
                } else {
                    let args = tag_pane_args(pane.as_str(), s.slug.as_str());
                    s.stage = Stage::TagPane { pane };
                    Teleporter::status(args, "")
                }
            },
            (Stage::Poll { left }, _) => {
                s.stage = Stage::Pause { left };
                Ask::Pause
            },
            (Stage::Pause { left }, _) => Teleporter::poll(s, left - 1),
            (Stage::TagPane { pane }, _) => {
                let args = rename_window_args(pane.as_str(), s.slug.as_str());
                s.stage = Stage::RenameWindow { pane };
                Teleporter::status(args, "")
            },
            (Stage::RenameWindow { pane }, _) => self.place(s, pane),
            (Stage::Swap { pane }, _) => {
                let args = set_viewport_args(self.window_id.as_str(), pane.as_str());
                self.viewport_pane = pane;
                s.stage = Stage::RecordSwap;
                Teleporter::status(args, "record current Puzzle viewport pane")
            },
            (Stage::RecordSwap, _) => Ask::Done,
            _ => Ask::Done,
        }
    }

    /// The command that moves the focus into the viewport.
    pub fn focus(&self) -> (ask: Ask)
        ensures
            ask@ == AskV::Status(select_pane(self@.viewport_pane), "focus Puzzle viewport pane"@),
    {
        let mut a = arg("select-pane");
        more(&mut a, "-t");
        more(&mut a, self.viewport_pane.as_str());
        assert(texts(a@) =~= select_pane(self@.viewport_pane));
        Teleporter::status(a, "focus Puzzle viewport pane")
    }
}

// ---------------------------------------------------------------------------
// Finding the viewport at the start

/// Ask in which tmux window the list is.
pub fn ask_window(puzzle_pane: &str) -> (ask: Ask)
    ensures
        ask@ == AskV::Output(
            seq!["display-message"@, "-p"@, "-t"@, puzzle_pane@, "#{window_id}"@],
            ""@,
        ),
{
    let mut a = arg("display-message");
    more(&mut a, "-p");
    more(&mut a, "-t");
    more(&mut a, puzzle_pane);
    more(&mut a, "#{window_id}");
    assert(texts(a@) =~= seq!["display-message"@, "-p"@, "-t"@, puzzle_pane@, "#{window_id}"@]);
    Teleporter::output(a, "")
}

/// Ask which pane was recorded as its viewport.
pub fn ask_viewport(window_id: &str) -> (ask: Ask)
    ensures
        ask@ == AskV::Output(
            seq!["show-option"@, "-wqv"@, "-t"@, window_id@, VIEWPORT_OPTION@],
            ""@,
        ),
{
    let mut a = arg("show-option");
    more(&mut a, "-wqv");
    more(&mut a, "-t");
    more(&mut a, window_id);
    more(&mut a, VIEWPORT_OPTION);
    assert(texts(a@) =~= seq!["show-option"@, "-wqv"@, "-t"@, window_id@, VIEWPORT_OPTION@]);
    Teleporter::output(a, "")
}

/// Ask which panes the window has, to see whether the recorded one is among them; nothing is asked
/// where none is recorded.
pub fn ask_panes(window_id: &str, viewport_pane: &str) -> (ask: Option<Ask>)
    ensures
        ask is None == (viewport_pane@.len() == 0),
        ask matches Some(a) ==> a@ == AskV::Output(list_panes(window_id@), ""@),
{
    if viewport_pane.is_empty() {
        None
    } else {
        Some(Teleporter::output(list_panes_args(window_id), ""))
    }
}

/// Make a viewport.
pub fn ask_new_viewport(puzzle_pane: &str) -> (ask: Ask)
    ensures
        ask@ == AskV::Output(split_window(puzzle_pane@), "create Puzzle viewport pane"@),
{
    Teleporter::output(split_window_args(puzzle_pane), "create Puzzle viewport pane")
}

/// Record a viewport.
pub fn ask_record(window_id: &str, pane: &str) -> (ask: Ask)
    ensures
        ask@ == AskV::Status(set_viewport(window_id@, pane@), "record Puzzle viewport pane"@),
{
    Teleporter::status(set_viewport_args(window_id, pane), "record Puzzle viewport pane")
}

/// How far the search for the viewport has come.
#[derive(Debug)]
pub enum SetupStage {
    FindWindow,
    FindOption { window_id: String },
    CheckPane { window_id: String, pane: String },
    MakePane { window_id: String },
    RecordPane { window_id: String, pane: String },
    Over,
}

/// The search for the viewport at the start.
#[derive(Debug)]
pub struct Setup {
    pub puzzle_pane: String,
    pub stage: SetupStage,
}

pub enum SetupStageV {
    FindWindow,
    FindOption(Seq<char>),
    CheckPane(Seq<char>, Seq<char>),
    MakePane(Seq<char>),
    RecordPane(Seq<char>, Seq<char>),
    Over,
}

pub struct SetupV {
    pub puzzle_pane: Seq<char>,
    pub stage: SetupStageV,
}

impl View for Setup {
    type V = SetupV;

    open spec fn view(&self) -> SetupV {
        SetupV {
            puzzle_pane: self.puzzle_pane@,
            stage: match self.stage {
                SetupStage::FindWindow => SetupStageV::FindWindow,
                SetupStage::FindOption { window_id } => SetupStageV::FindOption(window_id@),
                SetupStage::CheckPane { window_id, pane } => SetupStageV::CheckPane(
                    window_id@,
                    pane@,
                ),
                SetupStage::MakePane { window_id } => SetupStageV::MakePane(window_id@),
                SetupStage::RecordPane { window_id, pane } => SetupStageV::RecordPane(
                    window_id@,
                    pane@,
                ),
                SetupStage::Over => SetupStageV::Over,
            },
        }
    }
}

/// What follows in the search.
#[derive(Debug)]
pub enum SetupStep {
    Ask(Ask),
    Ready(Teleporter),
}

pub enum SetupStepV {
    Ask(AskV),
    Ready(TeleporterV),
}

impl View for SetupStep {
    type V = SetupStepV;

    open spec fn view(&self) -> SetupStepV {
        match self {
            SetupStep::Ask(ask) => SetupStepV::Ask(ask@),
            SetupStep::Ready(teleporter) => SetupStepV::Ready(teleporter@),
        }
    }
}

/// What can be answered at a stage of the search.
pub open spec fn sets_up(stage: SetupStageV, answer: AnswerV) -> bool {
    match stage {
        SetupStageV::RecordPane(_, _) => answer is Done,
        SetupStageV::Over => false,
        _ => answer is Text,
    }
}

/// A viewport is made beside the list.
pub open spec fn making(s: SetupV, window_id: Seq<char>) -> (SetupV, SetupStepV) {
    (
        SetupV { stage: SetupStageV::MakePane(window_id), ..s },
        SetupStepV::Ask(
            AskV::Output(split_window(s.puzzle_pane), "create Puzzle viewport pane"@),
        ),
    )
}

/// The viewport is found.
pub open spec fn found(s: SetupV, window_id: Seq<char>, pane: Seq<char>) -> (SetupV, SetupStepV) {
    (
        SetupV { stage: SetupStageV::Over, ..s },
        SetupStepV::Ready(
            TeleporterV { puzzle_pane: s.puzzle_pane, window_id, viewport_pane: pane },
        ),
    )
}

/// The pane that is recorded is the viewport if it is still in the window. Otherwise another one is
/// made and recorded.
pub open spec fn setup_goes_on(s: SetupV, answer: AnswerV) -> (SetupV, SetupStepV) {
    match (s.stage, answer) {
        (SetupStageV::FindWindow, AnswerV::Text(window_id)) => (
            SetupV { stage: SetupStageV::FindOption(window_id), ..s },
            SetupStepV::Ask(
                AskV::Output(
                    seq!["show-option"@, "-wqv"@, "-t"@, window_id, VIEWPORT_OPTION@],
                    ""@,
                ),
            ),
        ),
        (SetupStageV::FindOption(window_id), AnswerV::Text(pane)) => if pane.len() == 0 {
            making(s, window_id)
        } else {
            (
                SetupV { stage: SetupStageV::CheckPane(window_id, pane), ..s },
                SetupStepV::Ask(AskV::Output(list_panes(window_id), ""@)),
            )
        },
        (SetupStageV::CheckPane(window_id, pane), AnswerV::Text(panes)) => if is_listed(
            panes,
            pane,
        ) {
            found(s, window_id, pane)
        } else {
            making(s, window_id)
        },
        (SetupStageV::MakePane(window_id), AnswerV::Text(pane)) => (
            SetupV { stage: SetupStageV::RecordPane(window_id, pane), ..s },
            SetupStepV::Ask(
                AskV::Status(set_viewport(window_id, pane), "record Puzzle viewport pane"@),
            ),
        ),
        (SetupStageV::RecordPane(window_id, pane), _) => found(s, window_id, pane),
        _ => (s, SetupStepV::Ask(AskV::Done)),
    }
}

impl Setup {
    /// Begins to look for the viewport of the list in the given pane.
    pub fn begin(puzzle_pane: &str) -> (out: (Setup, Ask))
        ensures
            out.0@ == (SetupV { puzzle_pane: puzzle_pane@, stage: SetupStageV::FindWindow }),
            out.1@ == AskV::Output(
                seq!["display-message"@, "-p"@, "-t"@, puzzle_pane@, "#{window_id}"@],
                ""@,
            ),
    {
        let setup = Setup { puzzle_pane: puzzle_pane.to_owned(), stage: SetupStage::FindWindow };
        (setup, ask_window(puzzle_pane))
    }

    fn ready(&self, window_id: String, pane: String) -> (step: SetupStep)
        ensures
            step@ == found(self@, window_id@, pane@).1,
    {
        SetupStep::Ready(
            Teleporter { puzzle_pane: self.puzzle_pane.clone(), window_id, viewport_pane: pane },
        )
    }

    fn make(&mut self, window_id: String) -> (step: SetupStep)
        ensures
            (final(self)@, step@) == making(old(self)@, window_id@),
    {
        self.stage = SetupStage::MakePane { window_id };
        SetupStep::Ask(ask_new_viewport(self.puzzle_pane.as_str()))
    }

    /// Takes what tmux answered. Returns what is to be asked next, or the viewport.
    pub fn go_on(&mut self, answer: Answer) -> (step: SetupStep)
        requires
            sets_up(old(self)@.stage, answer@),
        ensures
            (final(self)@, step@) == setup_goes_on(old(self)@, answer@),
    {
        let mut stage = SetupStage::Over;
        std::mem::swap(&mut stage, &mut self.stage);
        match (stage, answer) {
            (SetupStage::FindWindow, Answer::Text(window_id)) => {
                let ask = ask_viewport(window_id.as_str());
                self.stage = SetupStage::FindOption { window_id };
                SetupStep::Ask(ask)
            },
            (SetupStage::FindOption { window_id }, Answer::Text(pane)) => {
                match ask_panes(window_id.as_str(), pane.as_str()) {
                    Some(ask) => {
                        self.stage = SetupStage::CheckPane { window_id, pane };
                        SetupStep::Ask(ask)
                    },
                    None => self.make(window_id),
                }
            },
            (SetupStage::CheckPane { window_id, pane }, Answer::Text(panes)) => {
                if pane_is_listed(panes.as_str(), pane.as_str()) {
                    self.ready(window_id, pane)
                } else {
                    self.make(window_id)
                }
            },
            (SetupStage::MakePane { window_id }, Answer::Text(pane)) => {
                let ask = ask_record(window_id.as_str(), pane.as_str());
                self.stage = SetupStage::RecordPane { window_id, pane };
                SetupStep::Ask(ask)
            },
            (SetupStage::RecordPane { window_id, pane }, _) => self.ready(window_id, pane),
            _ => SetupStep::Ask(Ask::Done),
        }
    }
}

/// A pane that is recorded and still in the window is used again, and nothing is made.
pub proof fn recorded_viewport_is_used_again(
    s: SetupV,
    window_id: Seq<char>,
    pane: Seq<char>,
    panes: Seq<char>,
)
    requires
        s.stage == SetupStageV::CheckPane(window_id, pane),
        is_listed(panes, pane),
    ensures
        setup_goes_on(s, AnswerV::Text(panes)).1 == SetupStepV::Ready(
            TeleporterV { puzzle_pane: s.puzzle_pane, window_id, viewport_pane: pane },
        ),
{
}

// ---------------------------------------------------------------------------
// What holds of it

/// A client is started for nothing but a valid slug.
pub proof fn clients_are_started_for_slugs_only(t: TeleporterV, s: ShowV, answer: AnswerV)
    requires
        sound(s),
        answers(s.stage, answer),
    ensures
        ({
            let (_, after, ask) = show_goes_on(t, s, answer);
            &&& sound(after)
            &&& after.slug == s.slug
            &&& ask == AskV::Status(start_client(s.name, s.slug), ""@) && after.stage
                == StageV::StartClient ==> is_slug(s.slug)
        }),
{
}

/// How many steps there can be until a window is shown.
pub open spec fn steps_left(stage: StageV) -> int {
    match stage {
        StageV::CheckViewport => 200,
        StageV::MakeViewport => 199,
        StageV::RecordViewport(_) => 198,
        StageV::FindPane => 197,
        StageV::CheckParking => 196,
        StageV::MakeParking => 195,
        StageV::StartClient => 194,
        StageV::Poll(left) => 2 * left + 10,
        StageV::Pause(left) => 2 * left + 9,
        StageV::TagPane(_) => 4,
        StageV::RenameWindow(_) => 3,
        StageV::Swap(_) => 2,
        StageV::RecordSwap => 1,
        StageV::Over => 0,
    }
}

/// Showing a window comes to its end, whatever tmux answers.
pub proof fn showing_ends(t: TeleporterV, s: ShowV, answer: AnswerV)
    requires
        sound(s),
        answers(s.stage, answer),
    ensures
        0 <= steps_left(show_goes_on(t, s, answer).1.stage) < steps_left(s.stage),
{
}

/// The client of a window that was visited before is swapped into the viewport at once: none is
/// started.
pub proof fn existing_client_is_swapped_in(
    t: TeleporterV,
    s: ShowV,
    panes: Seq<char>,
    pane: Seq<char>,
)
    requires
        s.stage == StageV::FindPane,
        tagged(lines(panes), s.slug) == Some(pane),
        pane != t.viewport_pane,
    ensures
        ({
            let (same, swap, ask) = show_goes_on(t, s, AnswerV::Text(panes));
            let (after, record, _) = show_goes_on(same, swap, AnswerV::Done);
            &&& ask == AskV::Status(
                swap_panes(pane, t.viewport_pane),
                "swap Codex client into Puzzle viewport"@,
            )
            &&& after.viewport_pane == pane
            &&& record.stage == StageV::RecordSwap
        }),
{
}

/// A window whose client is in the viewport already is shown without a change.
pub proof fn shown_client_stays(t: TeleporterV, s: ShowV, panes: Seq<char>)
    requires
        s.stage == StageV::FindPane,
        tagged(lines(panes), s.slug) == Some(t.viewport_pane),
    ensures
        show_goes_on(t, s, AnswerV::Text(panes)) == (
            t,
            ShowV { stage: StageV::Over, ..s },
            AskV::Done,
        ),
{
}

} // verus!

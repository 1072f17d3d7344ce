//! The sessions of a window: a file of lines, the last of which is the current session. Lines that
//! cannot be read are passed over.

use vstd::prelude::*;

use crate::chars::{
    decimal, decimal_text, lines, opt_str, opt_text, or_empty, split_lines, texts,
};
use crate::json::{compact_text, jstr, one_line, parsed, plain, Json, JsonV};
use crate::paths::{below, join_path, joined, strip_base};

verus! {

#[derive(Debug, PartialEq)]
pub struct SessionEntry {
    pub session_id: String,
    pub timestamp: String,
}

pub struct SessionV {
    pub session_id: Seq<char>,
    pub timestamp: Seq<char>,
}

impl View for SessionEntry {
    type V = SessionV;

    open spec fn view(&self) -> SessionV {
        SessionV { session_id: self.session_id@, timestamp: self.timestamp@ }
    }
}

pub open spec fn opt_session(entry: Option<SessionEntry>) -> Option<SessionV> {
    match entry {
        Some(entry) => Some(entry@),
        None => None,
    }
}

/// The file that holds the sessions of a window.
pub open spec fn sessions_file(config_dir: Seq<char>, slug: Seq<char>) -> Seq<char> {
    joined(joined(config_dir, slug), "sessions.jsonl"@)
}

pub fn sessions_path(config_dir: &str, slug: &str) -> (out: String)
    ensures
        out@ == sessions_file(config_dir@, slug@),
{
    join_path(join_path(config_dir, slug).as_str(), "sessions.jsonl")
}

/// The slug of a window: its directory below the `pane` directory of the home directory. None
/// where there is no home directory or the window is not below it.
pub fn slug_from_pane_dir(home: Option<&str>, pane_dir: &str) -> (out: Option<String>)
    ensures
        opt_text(out) == (match opt_str(home) {
            Some(home) => below(pane_dir@, joined(home, "pane"@)),
            None => None,
        }),
{
    match home {
        Some(home) => strip_base(pane_dir, join_path(home, "pane").as_str()),
        None => None,
    }
}

pub open spec fn session_json(session_id: Seq<char>, timestamp: Seq<char>) -> JsonV {
    JsonV::Obj(map!["session_id"@ => jstr(session_id), "timestamp"@ => jstr(timestamp)])
}

/// A point in time, as the number of seconds since the start of 1970.
pub fn now_iso8601(seconds: u64) -> (out: String)
    ensures
        out@ == decimal(seconds as nat),
{
    decimal_text(seconds)
}

/// The line that records a session, to be added to the file.
pub fn session_line(session_id: &str, seconds: u64) -> (out: String)
    ensures
        out@ == compact_text(session_json(session_id@, decimal(seconds as nat))) + seq!['\n'],
        one_line(out@.drop_last()),
        parsed(out@.drop_last()) == Some(session_json(session_id@, decimal(seconds as nat))),
{
    let stamp = now_iso8601(seconds);
    let entry = Json::object().with("session_id", Json::string(session_id)).with(
        "timestamp",
        Json::string(stamp.as_str()),
    );
    assert(entry@ == session_json(session_id@, stamp@));
    assert(plain(entry@, 127)) by {
        reveal_with_fuel(plain, 2);
    }
    let mut out = entry.text();
    let ghost text = out@;
    out.push('\n');
    assert(out@ =~= text + seq!['\n']);
    assert(out@.drop_last() =~= text);
    out
}

/// The session in a record: an object with its two fields, or a list of them. Of two fields with
/// one key the later one counts. None where a field is missing or holds no text.
pub open spec fn session_in(v: JsonV) -> Option<SessionV> {
    match (v.str_part("session_id"@, 0), v.str_part("timestamp"@, 1)) {
        (Some(session_id), Some(timestamp)) if v.is_within(2) => Some(
            SessionV { session_id, timestamp },
        ),
        _ => None,
    }
}

/// The session in a line; none where the line cannot be read.
pub open spec fn session_on(line: Seq<char>) -> Option<SessionV> {
    match parsed(line) {
        Some(v) => session_in(v),
        None => None,
    }
}

/// The sessions on the lines, in their order; lines that cannot be read are passed over.
pub open spec fn sessions_on(ls: Seq<Seq<char>>) -> Seq<SessionV>
    decreases ls.len(),
{
    if ls.len() == 0 {
        Seq::empty()
    } else {
        match session_on(ls.last()) {
            Some(session) => sessions_on(ls.drop_last()).push(session),
            None => sessions_on(ls.drop_last()),
        }
    }
}

/// The sessions in a file; none where there is no file.
pub open spec fn sessions_in(content: Option<Seq<char>>) -> Seq<SessionV> {
    match content {
        Some(text) => sessions_on(lines(text)),
        None => Seq::empty(),
    }
}

/// The current session is the last one in the file.
pub open spec fn latest_in(content: Option<Seq<char>>) -> Option<Seq<char>> {
    let all = sessions_in(content);
    if all.len() == 0 {
        None
    } else {
        Some(all.last().session_id)
    }
}

pub open spec fn entries_view(entries: Seq<SessionEntry>) -> Seq<SessionV> {
    Seq::new(entries.len(), |i: int| entries[i]@)
}

impl SessionEntry {
    /// The session in a record.
    pub fn from_json(v: &Json) -> (out: Option<SessionEntry>)
        ensures
            opt_session(out) == session_in(v@),
    {
        match (v.str_part("session_id", 0), v.str_part("timestamp", 1)) {
            (Some(session_id), Some(timestamp)) => if v.is_within(2) {
                Some(
                    SessionEntry {
                        session_id: session_id.to_owned(),
                        timestamp: timestamp.to_owned(),
                    },
                )
            } else {
                None
            },
            _ => None,
        }
    }

    /// The session in a line of the file.
    pub fn from_line(line: &str) -> (out: Option<SessionEntry>)
        ensures
            opt_session(out) == session_on(line@),
    {
        match Json::parse(line) {
            Some(v) => SessionEntry::from_json(&v),
            None => None,
        }
    }
}

/// All sessions of a window, the latest last; `content` is the text of its file, where there is
/// one.
pub fn all_sessions(content: Option<&str>) -> (out: Vec<SessionEntry>)
    ensures
        entries_view(out@) == sessions_in(opt_str(content)),
{
    let mut out: Vec<SessionEntry> = Vec::new();
    assert(entries_view(out@) =~= Seq::<SessionV>::empty());
    let text = match content {
        Some(text) => text,
        None => {
            return out;
        },
    };
    let all = split_lines(text);
    let ghost ls = texts(all@);
    assert(ls.take(0) =~= Seq::<Seq<char>>::empty());
    for i in 0..all.len()
        invariant
            ls == texts(all@),
            entries_view(out@) == sessions_on(ls.take(i as int)),
    {
        assert(ls.take(i + 1).drop_last() =~= ls.take(i as int));
        assert(ls.take(i + 1).last() == all@[i as int]@);
        if let Some(entry) = SessionEntry::from_line(all[i].as_str()) {
            let ghost had = out@;
            let ghost more = entry@;
            out.push(entry);
            assert(entries_view(out@) =~= entries_view(had).push(more));
        }
    }
    assert(ls.take(all@.len() as int) =~= ls);
    out
}

/// The current session of a window; `content` is the text of its file, where there is one.
pub fn latest_session(content: Option<&str>) -> (out: Option<String>)
    ensures
        opt_text(out) == latest_in(opt_str(content)),
{
    let text = match content {
        Some(text) => text,
        None => {
            return None;
        },
    };
    let all = split_lines(text);
    let ghost ls = texts(all@);
    let mut i: usize = all.len();
    assert(ls.take(i as int) =~= ls);
    while i > 0
        invariant
            i <= all.len(),
            ls == texts(all@),
            ls == lines(text@),
            opt_str(content) == Some(text@),
            sessions_on(ls) == sessions_on(ls.take(i as int)),
        decreases i,
    {
        assert(ls.take(i as int).drop_last() =~= ls.take(i - 1));
        assert(ls.take(i as int).last() == all@[i - 1]@);
        i -= 1;
        if let Some(entry) = SessionEntry::from_line(all[i].as_str()) {
            return Some(entry.session_id);
        }
    }
    None
}

// ---------------------------------------------------------------------------
// What holds of the file

/// There is no file, or all of its lines are complete.
pub open spec fn is_complete(content: Option<Seq<char>>) -> bool {
    content matches Some(text) ==> text.len() == 0 || text.last() == '\n'
}

/// The text of the file after a line was added.
pub open spec fn with_line(content: Option<Seq<char>>, line: Seq<char>) -> Seq<char> {
    or_empty(content) + line + seq!['\n']
}

/// A session that was recorded is the current one, and behind all that were there before.
pub proof fn recorded_session_is_latest(
    content: Option<Seq<char>>,
    session_id: Seq<char>,
    timestamp: Seq<char>,
    line: Seq<char>,
)
    requires
        is_complete(content),
        one_line(line),
        parsed(line) == Some(session_json(session_id, timestamp)),
    ensures
        latest_in(Some(with_line(content, line))) == Some(session_id),
        sessions_in(Some(with_line(content, line))) == sessions_in(content).push(
            SessionV { session_id, timestamp },
        ),
        is_complete(Some(with_line(content, line))),
{
    lemma_session_keys();
    let before = or_empty(content);
    recording_adds_a_line(before, line);
    let ls = lines(before);
    assert(ls.push(line).drop_last() =~= ls);
    if content is None {
        assert(sessions_on(lines(before)) == Seq::<SessionV>::empty());
    }
}

/// A line that cannot be read changes nothing.
pub proof fn broken_line_is_passed_over(content: Option<Seq<char>>, line: Seq<char>)
    requires
        is_complete(content),
        one_line(line),
        session_on(line) is None,
    ensures
        sessions_in(Some(with_line(content, line))) == sessions_in(content),
        latest_in(Some(with_line(content, line))) == latest_in(content),
{
    let before = or_empty(content);
    recording_adds_a_line(before, line);
    let ls = lines(before);
    assert(ls.push(line).drop_last() =~= ls);
    if content is None {
        assert(sessions_on(lines(before)) == Seq::<SessionV>::empty());
    }
}

proof fn lemma_session_keys()
    ensures
        "session_id"@ != "timestamp"@,
{
    reveal_strlit("session_id");
    reveal_strlit("timestamp");
    assert("session_id"@.len() == 10);
    assert("timestamp"@.len() == 9);
}

/// A slug of one component: not empty, and without a slash.
pub open spec fn is_component(slug: Seq<char>) -> bool {
    slug.len() > 0 && !slug.contains('/')
}

/// Windows with different slugs have different files, so what is recorded for one changes nothing
/// for the other.
pub proof fn slugs_have_files_of_their_own(
    config_dir: Seq<char>,
    slug: Seq<char>,
    other: Seq<char>,
)
    requires
        is_component(slug),
        is_component(other),
        slug != other,
    ensures
        sessions_file(config_dir, slug) != sessions_file(config_dir, other),
{
    reveal_strlit("sessions.jsonl");
    let base = if config_dir.len() == 0 || config_dir.last() == '/' {
        config_dir
    } else {
        config_dir + seq!['/']
    };
    let tail = seq!['/'] + "sessions.jsonl"@;
    assert(slug.contains(slug[0]));
    assert(slug.contains(slug.last()));
    assert(other.contains(other[0]));
    assert(other.contains(other.last()));
    assert(joined(config_dir, slug) =~= base + slug);
    assert(joined(config_dir, other) =~= base + other);
    assert((base + slug).last() == slug.last());
    assert((base + other).last() == other.last());
    assert("sessions.jsonl"@[0] == 's');
    let a = base + slug + tail;
    let b = base + other + tail;
    assert(sessions_file(config_dir, slug) =~= a);
    assert(sessions_file(config_dir, other) =~= b);
    if a == b {
        assert(a.len() == b.len());
        assert(a.subrange(base.len() as int, (base.len() + slug.len()) as int) =~= slug);
        assert(b.subrange(base.len() as int, (base.len() + other.len()) as int) =~= other);
        assert(false);
    }
}

/// A line that is added to a text of complete lines is the last one, and changes none of them.
pub proof fn recording_adds_a_line(content: Seq<char>, line: Seq<char>)
    requires
        one_line(line),
        content.len() == 0 || content.last() == '\n',
    ensures
        lines(content + line + seq!['\n']) == lines(content).push(line),
    decreases content.len(),
{
    let all = content + line + seq!['\n'];
    let nl = crate::chars::Pick::Is('\n');
    if content.len() == 0 {
        assert(all =~= line + seq!['\n']);
        let n = line.len() as int;
        assert forall|j: int| 0 <= j < n implies !crate::chars::picks(nl, #[trigger] all[j]) by {
            assert(all[j] == line[j]);
        }
        crate::chars::lemma_first_hit(all, nl, n);
        assert(all.take(n) =~= line);
        assert(all.skip(n + 1) =~= Seq::<char>::empty());
        assert(lines(all.skip(n + 1)) == Seq::<Seq<char>>::empty());
        assert(seq![line] + Seq::<Seq<char>>::empty() =~= Seq::<Seq<char>>::empty().push(line));
    } else {
        crate::chars::lemma_first_hit_bounds(content, nl);
        let n = crate::chars::first_hit(content, nl) as int;
        if n >= content.len() {
            assert(!crate::chars::picks(nl, content[content.len() - 1]));
        }
        assert forall|j: int| 0 <= j < n implies !crate::chars::picks(nl, #[trigger] all[j]) by {
            assert(all[j] == content[j]);
        }
        crate::chars::lemma_first_hit(all, nl, n);
        let rest = content.skip(n + 1);
        assert(all.take(n) =~= content.take(n));
        assert(all.skip(n + 1) =~= rest + line + seq!['\n']);
        recording_adds_a_line(rest, line);
        let front = crate::chars::strip_cr(content.take(n));
        assert(seq![front] + lines(rest).push(line) =~= (seq![front] + lines(rest)).push(line));
    }
}

} // verus!

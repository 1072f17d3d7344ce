//! The log of a window: every message in both directions, one JSON object on a line.

use vstd::prelude::*;

use crate::fresh::{is_stamp, now_rfc3339};
use crate::json::{compact_text, jstr, one_line, Json, JsonV};
use crate::paths::{join_path, joined};

verus! {

#[derive(Debug)]
pub struct ExchangeLog {
    pub dir: String,
    pub path: String,
}

/// The directory that holds the state of a window.
pub open spec fn window_dir(home: Seq<char>, slug: Seq<char>) -> Seq<char> {
    joined(joined(home, ".local/state/puzzle"@), slug)
}

/// A line of the log: when the message passed, which way, and what it was.
pub open spec fn exchange_entry(ts: Seq<char>, dir: Seq<char>, data: JsonV) -> JsonV {
    JsonV::Obj(map!["ts"@ => jstr(ts), "dir"@ => jstr(dir), "data"@ => data])
}

pub open spec fn exchange_line(ts: Seq<char>, dir: Seq<char>, data: JsonV) -> Seq<char> {
    compact_text(exchange_entry(ts, dir, data)) + seq!['\n']
}

impl ExchangeLog {
    /// The log of a window; its directory is yet to be made.
    pub fn new(home: &str, slug: &str) -> (out: Self)
        ensures
            out.dir@ == window_dir(home@, slug@),
            out.path@ == joined(window_dir(home@, slug@), "puzzle-exchange.jsonl"@),
    {
        let dir = join_path(join_path(home, ".local/state/puzzle").as_str(), slug);
        let path = join_path(dir.as_str(), "puzzle-exchange.jsonl");
        ExchangeLog { dir, path }
    }

    /// The line for a message that passed at the given time.
    pub fn line_at(ts: &str, dir: &str, data: &Json) -> (out: String)
        ensures
            out@ == exchange_line(ts@, dir@, data@),
            one_line(out@.drop_last()),
    {
        let entry = Json::object().with("ts", Json::string(ts)).with("dir", Json::string(dir)).with(
            "data",
            data.copy(),
        );
        assert(entry@ == exchange_entry(ts@, dir@, data@));
        let mut out = entry.text();
        let ghost text = out@;
        out.push('\n');
        assert(out@ =~= text + seq!['\n']);
        assert(out@.drop_last() =~= text);
        out
    }

    /// The line for a message that passes now.
    pub fn log(&self, dir: &str, data: &Json) -> (out: String)
        ensures
            exists|ts: Seq<char>|
                is_stamp(ts) && out@ == #[trigger] exchange_line(ts, dir@, data@),
    {
        let ts = now_rfc3339();
        ExchangeLog::line_at(ts.as_str(), dir, data)
    }
}

} // verus!

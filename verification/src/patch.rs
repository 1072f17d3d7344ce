//! Patches in the form `*** Begin Patch` ... `*** End Patch`, read into the list of file changes
//! that a client shows.

use vstd::prelude::*;

use crate::chars::{
    cat, cut, decimal, decimal_text, found_at, lines, same, split_lines, starts_with,
    text_starts_with, text_trim, text_trim_end, texts, to_chars, to_text, trim, trim_end,
};
use crate::json::{items_view, jstr, lemma_items_push, Json, JsonV};

verus! {

#[derive(Clone, Copy, Debug, PartialEq, Eq, Structural)]
pub enum ChangeKind {
    Add,
    Delete,
    Update,
}

/// One file of a patch.
#[derive(Debug)]
pub struct Change {
    pub path: String,
    pub kind: ChangeKind,
    pub diff: String,
}

pub struct ChangeV {
    pub path: Seq<char>,
    pub kind: ChangeKind,
    pub diff: Seq<char>,
}

impl View for Change {
    type V = ChangeV;

    open spec fn view(&self) -> ChangeV {
        ChangeV { path: self.path@, kind: self.kind, diff: self.diff@ }
    }
}

pub open spec fn changes_view(v: Seq<Change>) -> Seq<ChangeV> {
    Seq::new(v.len(), |i: int| v[i]@)
}

// ---------------------------------------------------------------------------
// Cutting the patch into files

/// The file that a header line names, behind its prefix and without white space around it.
pub open spec fn header(line: Seq<char>) -> Option<(ChangeKind, Seq<char>)> {
    let add = "*** Add File: "@;
    let delete = "*** Delete File: "@;
    let update = "*** Update File: "@;
    if starts_with(line, add) {
        Some((ChangeKind::Add, trim(line.skip(add.len() as int))))
    } else if starts_with(line, delete) {
        Some((ChangeKind::Delete, trim(line.skip(delete.len() as int))))
    } else if starts_with(line, update) {
        Some((ChangeKind::Update, trim(line.skip(update.len() as int))))
    } else {
        None
    }
}

pub open spec fn is_marker(line: Seq<char>) -> bool {
    line == "*** Begin Patch"@ || line == "*** End Patch"@
}

/// The files read so far, and the one whose lines are being read.
pub struct ReadingV {
    pub done: Seq<ChangeV>,
    pub current: Option<(ChangeKind, Seq<char>)>,
    pub diff: Seq<char>,
}

/// Closes the file that is being read.
pub open spec fn closed(r: ReadingV) -> ReadingV {
    match r.current {
        Some((kind, path)) => ReadingV {
            done: r.done.push(ChangeV { path, kind, diff: trim_end(r.diff) }),
            current: None,
            diff: Seq::empty(),
        },
        None => r,
    }
}

pub open spec fn read_line(r: ReadingV, line: Seq<char>) -> ReadingV {
    match header(line) {
        Some(file) => ReadingV { current: Some(file), ..closed(r) },
        None => if is_marker(line) || r.current is None {
            r
        } else {
            ReadingV { diff: r.diff + line + seq!['\n'], ..r }
        },
    }
}

pub open spec fn read_lines(lines: Seq<Seq<char>>) -> ReadingV
    decreases lines.len(),
{
    if lines.len() == 0 {
        ReadingV { done: Seq::empty(), current: None, diff: Seq::empty() }
    } else {
        read_line(read_lines(lines.drop_last()), lines.last())
    }
}

/// The files of a patch, each with its lines as they stand.
pub open spec fn files(patch: Seq<char>) -> Seq<ChangeV> {
    closed(read_lines(lines(patch))).done
}

fn strip(line: &Vec<char>, prefix: &str) -> (out: Option<String>)
    ensures
        match out {
            Some(rest) => starts_with(line@, prefix@) && rest@ == trim(
                line@.skip(prefix@.len() as int),
            ),
            None => !starts_with(line@, prefix@),
        },
{
    let p = to_chars(prefix);
    if found_at(line, &p, 0) {
        let rest = cut(line, p.len(), line.len());
        assert(rest@ =~= line@.skip(prefix@.len() as int));
        Some(text_trim(to_text(&rest).as_str()))
    } else {
        None
    }
}

fn read_header(line: &str) -> (out: Option<(ChangeKind, String)>)
    ensures
        match out {
            Some((kind, path)) => header(line@) == Some((kind, path@)),
            None => header(line@) is None,
        },
{
    let v = to_chars(line);
    if let Some(path) = strip(&v, "*** Add File: ") {
        Some((ChangeKind::Add, path))
    } else if let Some(path) = strip(&v, "*** Delete File: ") {
        Some((ChangeKind::Delete, path))
    } else if let Some(path) = strip(&v, "*** Update File: ") {
        Some((ChangeKind::Update, path))
    } else {
        None
    }
}

fn close(done: &mut Vec<Change>, current: Option<(ChangeKind, String)>, diff: &mut String)
    ensures
        closed(reading(old(done)@, current, old(diff)@)) == reading(
            final(done)@,
            None,
            final(diff)@,
        ),
{
    if let Some((kind, path)) = current {
        let change = Change { path, kind, diff: text_trim_end(diff.as_str()) };
        assert(changes_view(done@.push(change)) =~= changes_view(done@).push(change@));
        done.push(change);
        *diff = String::new();
    }
}

spec fn reading(
    done: Seq<Change>,
    current: Option<(ChangeKind, String)>,
    diff: Seq<char>,
) -> ReadingV {
    ReadingV {
        done: changes_view(done),
        current: match current {
            Some((kind, path)) => Some((kind, path@)),
            None => None,
        },
        diff,
    }
}

fn read_files(patch: &str) -> (done: Vec<Change>)
    ensures
        changes_view(done@) == files(patch@),
{
    let all = split_lines(patch);
    let mut done: Vec<Change> = Vec::new();
    let mut current: Option<(ChangeKind, String)> = None;
    let mut diff = String::new();
    let mut i: usize = 0;
    assert(changes_view(done@) =~= Seq::<ChangeV>::empty());
    while i < all.len()
        invariant
            i <= all.len(),
            read_lines(texts(all@).take(i as int)) == reading(done@, current, diff@),
        decreases all.len() - i,
    {
        let line = all[i].as_str();
        assert(texts(all@).take(i + 1).drop_last() =~= texts(all@).take(i as int));
        assert(texts(all@).take(i + 1).last() == line@);
        if let Some(file) = read_header(line) {
            close(&mut done, current, &mut diff);
            current = Some(file);
        } else if same(line, "*** Begin Patch") || same(line, "*** End Patch") {
        } else if current.is_some() {
            let ghost before = diff@;
            diff.append(line);
            diff.push('\n');
            assert(diff@ =~= before + line@ + seq!['\n']);
        }
        i += 1;
    }
    assert(texts(all@).take(i as int) =~= texts(all@));
    close(&mut done, current, &mut diff);
    done
}

// ---------------------------------------------------------------------------
// The unified form of an update

/// What a line of an update counts as.
#[derive(Clone, Copy)]
pub enum Mark {
    /// A hunk header: left out.
    Hunk,
    Old,
    New,
    Both,
    /// An empty line: kept, not counted.
    Neither,
}

pub open spec fn mark(line: Seq<char>) -> Mark {
    if starts_with(line, "@@"@) {
        Mark::Hunk
    } else if starts_with(line, seq!['-']) {
        Mark::Old
    } else if starts_with(line, seq!['+']) {
        Mark::New
    } else if line.len() > 0 {
        Mark::Both
    } else {
        Mark::Neither
    }
}

pub open spec fn old_count(lines: Seq<Seq<char>>) -> nat
    decreases lines.len(),
{
    if lines.len() == 0 {
        0
    } else {
        old_count(lines.drop_last()) + (match mark(lines.last()) {
            Mark::Old | Mark::Both => 1nat,
            _ => 0nat,
        })
    }
}

pub open spec fn new_count(lines: Seq<Seq<char>>) -> nat
    decreases lines.len(),
{
    if lines.len() == 0 {
        0
    } else {
        new_count(lines.drop_last()) + (match mark(lines.last()) {
            Mark::New | Mark::Both => 1nat,
            _ => 0nat,
        })
    }
}

/// The lines but for the hunk headers, each with a line feed behind it.
pub open spec fn kept(lines: Seq<Seq<char>>) -> Seq<char>
    decreases lines.len(),
{
    if lines.len() == 0 {
        Seq::empty()
    } else if mark(lines.last()) is Hunk {
        kept(lines.drop_last())
    } else {
        kept(lines.drop_last()) + lines.last() + seq!['\n']
    }
}

/// An update as a unified diff of one hunk.
pub open spec fn unified(path: Seq<char>, raw: Seq<char>) -> Seq<char> {
    let ls = lines(raw);
    "--- a/"@ + path + "\n+++ b/"@ + path + "\n@@ -1,"@ + decimal(old_count(ls)) + " +1,"@
        + decimal(new_count(ls)) + " @@\n"@ + trim_end(kept(ls))
}

fn mark_of(line: &str) -> (out: Mark)
    ensures
        out == mark(line@),
{
    let v = to_chars(line);
    if text_starts_with(line, "@@") {
        return Mark::Hunk;
    }
    proof {
        if v@.len() > 0 {
            assert(v@.subrange(0, 1) =~= seq![v@[0]]);
            assert(seq!['-'][0] == '-');
            assert(seq!['+'][0] == '+');
            assert(seq![v@[0]][0] == v@[0]);
        }
    }
    if v.len() == 0 {
        Mark::Neither
    } else if v[0] == '-' {
        Mark::Old
    } else if v[0] == '+' {
        Mark::New
    } else {
        Mark::Both
    }
}

fn unify(path: &str, raw: &str) -> (out: String)
    ensures
        out@ == unified(path@, raw@),
{
    let all = split_lines(raw);
    let mut old_lines: u64 = 0;
    let mut new_lines: u64 = 0;
    let mut text = String::new();
    let mut i: usize = 0;
    while i < all.len()
        invariant
            i <= all.len(),
            old_lines <= i,
            new_lines <= i,
            old_lines == old_count(texts(all@).take(i as int)),
            new_lines == new_count(texts(all@).take(i as int)),
            text@ == kept(texts(all@).take(i as int)),
        decreases all.len() - i,
    {
        let line = all[i].as_str();
        assert(texts(all@).take(i + 1).drop_last() =~= texts(all@).take(i as int));
        assert(texts(all@).take(i + 1).last() == line@);
        match mark_of(line) {
            Mark::Hunk => {},
            m => {
                match m {
                    Mark::Old => {
                        old_lines += 1;
                    },
                    Mark::New => {
                        new_lines += 1;
                    },
                    Mark::Both => {
                        old_lines += 1;
                        new_lines += 1;
                    },
                    _ => {},
                }
                text.append(line);
                text.push('\n');
                assert(text@ =~= kept(texts(all@).take(i + 1)));
            },
        }
        i += 1;
    }
    assert(texts(all@).take(i as int) =~= texts(all@));
    let mut out = cat("--- a/", path);
    out.append("\n+++ b/");
    out.append(path);
    out.append("\n@@ -1,");
    out.append(decimal_text(old_lines).as_str());
    out.append(" +1,");
    out.append(decimal_text(new_lines).as_str());
    out.append(" @@\n");
    out.append(text_trim_end(text.as_str()).as_str());
    out
}

// ---------------------------------------------------------------------------
// What the client is shown

pub open spec fn kind_json(kind: ChangeKind) -> JsonV {
    match kind {
        ChangeKind::Add => JsonV::Obj(map!["type"@ => jstr("add"@)]),
        ChangeKind::Delete => JsonV::Obj(map!["type"@ => jstr("delete"@)]),
        ChangeKind::Update => JsonV::Obj(
            map!["type"@ => jstr("update"@), "movePath"@ => JsonV::Null],
        ),
    }
}

/// The lines of a file as they are shown: an update with any lines is a unified diff.
pub open spec fn shown_diff(c: ChangeV) -> Seq<char> {
    if c.diff.len() > 0 && c.kind == ChangeKind::Update {
        unified(c.path, c.diff)
    } else {
        c.diff
    }
}

pub open spec fn change_json(c: ChangeV) -> JsonV {
    JsonV::Obj(
        map![
            "path"@ => jstr(c.path),
            "kind"@ => kind_json(c.kind),
            "diff"@ => jstr(shown_diff(c)),
        ],
    )
}

pub open spec fn patch_changes(patch: Seq<char>) -> Seq<JsonV> {
    Seq::new(files(patch).len(), |i: int| change_json(files(patch)[i]))
}

fn kind_to_json(kind: ChangeKind) -> (out: Json)
    ensures
        out@ == kind_json(kind),
{
    match kind {
        ChangeKind::Add => Json::object().with("type", Json::string("add")),
        ChangeKind::Delete => Json::object().with("type", Json::string("delete")),
        ChangeKind::Update => Json::object().with("type", Json::string("update")).with(
            "movePath",
            Json::Null,
        ),
    }
}

/// Reads a patch into its file changes, in the order of the patch.
pub fn parse_patch_to_changes(patch: &str) -> (out: Vec<Json>)
    ensures
        items_view(out@) == patch_changes(patch@),
{
    let changes = read_files(patch);
    let mut out: Vec<Json> = Vec::new();
    let mut i: usize = 0;
    while i < changes.len()
        invariant
            i <= changes.len(),
            changes_view(changes@) == files(patch@),
            items_view(out@) == patch_changes(patch@).take(i as int),
        decreases changes.len() - i,
    {
        let c = &changes[i];
        assert(changes_view(changes@)[i as int] == c@);
        let diff = if c.diff.as_str().is_empty() || c.kind != ChangeKind::Update {
            c.diff.clone()
        } else {
            unify(c.path.as_str(), c.diff.as_str())
        };
        let item = Json::object().with("path", Json::string(c.path.as_str())).with(
            "kind",
            kind_to_json(c.kind),
        ).with("diff", Json::Str(diff));
        proof {
            lemma_items_push(out@, item);
            assert(item@ == change_json(c@));
        }
        out.push(item);
        i += 1;
    }
    assert(patch_changes(patch@).take(i as int) =~= patch_changes(patch@));
    out
}

} // verus!

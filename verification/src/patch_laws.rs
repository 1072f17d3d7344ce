//! What holds of patches as a whole: what one reads out of them is what was written into them.

use vstd::prelude::*;

use crate::chars::{decimal, lines, starts_with, trim, trim_end};
use crate::json::JsonV;
use crate::patch::{
    closed, files, header, kept, new_count, old_count, patch_changes, read_lines, unified,
    ChangeKind, ChangeV, ReadingV,
};

verus! {

/// What a patch does to one file: the line that names the file, and the lines behind it.
pub struct Section {
    pub kind: ChangeKind,
    pub path: Seq<char>,
    pub body: Seq<Seq<char>>,
}

/// What stands before the path in the line that names a file.
pub open spec fn heading(kind: ChangeKind) -> Seq<char> {
    match kind {
        ChangeKind::Add => "*** Add File: "@,
        ChangeKind::Delete => "*** Delete File: "@,
        ChangeKind::Update => "*** Update File: "@,
    }
}

/// The line names no file, and neither begins nor ends a patch.
pub open spec fn is_body(line: Seq<char>) -> bool {
    &&& !starts_with(line, "*** Add File: "@)
    &&& !starts_with(line, "*** Delete File: "@)
    &&& !starts_with(line, "*** Update File: "@)
    &&& line != "*** Begin Patch"@
    &&& line != "*** End Patch"@
}

/// The sections as lines.
pub open spec fn written(sections: Seq<Section>) -> Seq<Seq<char>>
    decreases sections.len(),
{
    if sections.len() == 0 {
        Seq::empty()
    } else {
        let last = sections.last();
        written(sections.drop_last()) + (seq![heading(last.kind) + last.path] + last.body)
    }
}

/// The lines of a body as a text.
pub open spec fn text_of(body: Seq<Seq<char>>) -> Seq<char>
    decreases body.len(),
{
    if body.len() == 0 {
        Seq::empty()
    } else {
        text_of(body.drop_last()) + body.last() + seq!['\n']
    }
}

/// What is read of a section.
pub open spec fn change_of(s: Section) -> ChangeV {
    ChangeV { path: trim(s.path), kind: s.kind, diff: trim_end(text_of(s.body)) }
}

pub open spec fn are_bodies(sections: Seq<Section>) -> bool {
    forall|i: int, k: int|
        0 <= i < sections.len() && 0 <= k < sections[i].body.len() ==> is_body(
            #[trigger] sections[i].body[k],
        )
}

proof fn lemma_heading(kind: ChangeKind, path: Seq<char>)
    ensures
        header(heading(kind) + path) == Some((kind, trim(path))),
{
    reveal_strlit("*** Add File: ");
    reveal_strlit("*** Delete File: ");
    reveal_strlit("*** Update File: ");
    let line = heading(kind) + path;
    assert(line.skip(heading(kind).len() as int) =~= path);
    assert(line.take(heading(kind).len() as int) =~= heading(kind));
    assert(heading(kind)[4] == line[4]);
    assert("*** Add File: "@[4] == 'A');
    assert("*** Delete File: "@[4] == 'D');
    assert("*** Update File: "@[4] == 'U');
    assert(starts_with(line, "*** Add File: "@) ==> line.take(14)[4] == 'A');
    assert(starts_with(line, "*** Delete File: "@) ==> line.take(17)[4] == 'D');
}

proof fn lemma_body(before: Seq<Seq<char>>, r: ReadingV, body: Seq<Seq<char>>)
    requires
        read_lines(before) == r,
        r.current is Some,
        r.diff.len() == 0,
        forall|k: int| 0 <= k < body.len() ==> is_body(#[trigger] body[k]),
    ensures
        read_lines(before + body) == (ReadingV { diff: text_of(body), ..r }),
    decreases body.len(),
{
    if body.len() == 0 {
        assert(before + body =~= before);
        assert(r.diff =~= Seq::<char>::empty());
    } else {
        lemma_body(before, r, body.drop_last());
        assert((before + body).drop_last() =~= before + body.drop_last());
        assert((before + body).last() == body.last());
        assert(is_body(body[body.len() - 1]));
    }
}

proof fn lemma_sections(sections: Seq<Section>)
    requires
        are_bodies(sections),
    ensures
        closed(read_lines(seq!["*** Begin Patch"@] + written(sections))) == (ReadingV {
            done: sections.map_values(|s: Section| change_of(s)),
            current: None,
            diff: Seq::empty(),
        }),
        sections.len() == 0 ==> read_lines(seq!["*** Begin Patch"@] + written(sections)).current
            is None,
    decreases sections.len(),
{
    let begin = seq!["*** Begin Patch"@];
    if sections.len() == 0 {
        lemma_begin();
        assert(begin + written(sections) =~= begin);
        assert(begin.drop_last() =~= Seq::<Seq<char>>::empty());
        assert(sections.map_values(|s: Section| change_of(s)) =~= Seq::<ChangeV>::empty());
        reveal_with_fuel(read_lines, 2);
    } else {
        let init = sections.drop_last();
        let last = sections.last();
        assert(are_bodies(init)) by {
            assert forall|i: int, k: int|
                0 <= i < init.len() && 0 <= k < init[i].body.len() implies is_body(
                #[trigger] init[i].body[k],
            ) by {
                assert(is_body(sections[i].body[k]));
            }
        }
        lemma_sections(init);
        let before = begin + written(init);
        let named = before.push(heading(last.kind) + last.path);
        lemma_heading(last.kind, last.path);
        assert(named.drop_last() =~= before);
        let r = read_lines(named);
        assert forall|k: int| 0 <= k < last.body.len() implies is_body(#[trigger] last.body[k]) by {
            assert(is_body(sections[sections.len() - 1].body[k]));
        }
        lemma_body(named, r, last.body);
        assert(named + last.body =~= begin + written(sections));
        assert(sections.map_values(|s: Section| change_of(s)) =~= init.map_values(
            |s: Section| change_of(s),
        ).push(change_of(last)));
    }
}

proof fn lemma_begin()
    ensures
        header("*** Begin Patch"@) is None,
        header("*** End Patch"@) is None,
{
    reveal_strlit("*** Begin Patch");
    reveal_strlit("*** End Patch");
    reveal_strlit("*** Add File: ");
    reveal_strlit("*** Delete File: ");
    reveal_strlit("*** Update File: ");
    let b = "*** Begin Patch"@;
    let e = "*** End Patch"@;
    assert(b[4] == 'B');
    assert(e[4] == 'E');
    assert("*** Add File: "@[4] == 'A');
    assert("*** Delete File: "@[4] == 'D');
    assert("*** Update File: "@[4] == 'U');
    assert(starts_with(b, "*** Add File: "@) ==> b.take(14)[4] == 'A');
    assert(starts_with(e, "*** Add File: "@) ==> e.take(14)[4] == 'A');
}

/// The files of a patch are read as they were written: each once and in its order, by its path,
/// with what is done to it and all lines behind the one that names it.
pub proof fn patch_is_read_as_written(patch: Seq<char>, sections: Seq<Section>)
    requires
        are_bodies(sections),
        lines(patch) == seq!["*** Begin Patch"@] + written(sections) + seq!["*** End Patch"@],
    ensures
        files(patch) == sections.map_values(|s: Section| change_of(s)),
{
    lemma_sections(sections);
    lemma_begin();
    let before = seq!["*** Begin Patch"@] + written(sections);
    assert(lines(patch).drop_last() =~= before);
    assert(lines(patch).last() == "*** End Patch"@);
}

/// What is told of each file of a patch: its path, what is done to it, and the text of the change.
pub proof fn changes_tell_of_the_files(patch: Seq<char>, i: int)
    requires
        0 <= i < files(patch).len(),
    ensures
        ({
            let change = patch_changes(patch)[i];
            let file = files(patch)[i];
            &&& patch_changes(patch).len() == files(patch).len()
            &&& change.get("path"@) == Some(JsonV::Str(file.path))
            &&& change.within("kind"@, "type"@) == Some(
                JsonV::Str(
                    match file.kind {
                        ChangeKind::Add => "add"@,
                        ChangeKind::Delete => "delete"@,
                        ChangeKind::Update => "update"@,
                    },
                ),
            )
            &&& file.kind == ChangeKind::Update ==> change.within("kind"@, "movePath"@) == Some(
                JsonV::Null,
            )
            &&& file.kind != ChangeKind::Update || file.diff.len() == 0 ==> change.get("diff"@)
                == Some(JsonV::Str(file.diff))
            &&& file.kind == ChangeKind::Update && file.diff.len() > 0 ==> change.get("diff"@)
                == Some(JsonV::Str(unified(file.path, file.diff)))
        }),
{
    reveal_strlit("path");
    reveal_strlit("kind");
    reveal_strlit("diff");
    reveal_strlit("type");
    reveal_strlit("movePath");
    assert("path"@.len() == 4);
    assert("kind"@.len() == 4);
    assert("diff"@.len() == 4);
    assert("type"@.len() == 4);
    assert("movePath"@.len() == 8);
    assert("diff"@[0] == 'd');
    assert("kind"@[0] == 'k');
    assert("path"@[0] == 'p');
    assert("type"@[0] == 't');
}

/// A change to a file is shown under the path of the file, before and behind it, with how many
/// lines it had there and has now, and with its lines.
pub proof fn unified_change_has_a_head(path: Seq<char>, raw: Seq<char>)
    ensures
        unified(path, raw) == "--- a/"@ + path + "\n+++ b/"@ + path + "\n@@ -1,"@ + decimal(
            old_count(lines(raw)),
        ) + " +1,"@ + decimal(new_count(lines(raw))) + " @@\n"@ + trim_end(kept(lines(raw))),
{
}

/// How a line counts and is kept: a line that goes counts before, a line that comes counts behind,
/// any other that is not empty counts on both sides; the heads of hunks are left out, and empty
/// lines are kept.
pub proof fn lines_count_where_they_stand(before: Seq<Seq<char>>, line: Seq<char>)
    ensures
        ({
            let all = before.push(line);
            let hunk = line.len() >= 2 && line[0] == '@' && line[1] == '@';
            let gone = !hunk && line.len() > 0 && line[0] == '-';
            let come = !hunk && line.len() > 0 && line[0] == '+';
            let both = !hunk && line.len() > 0 && !gone && !come;
            &&& old_count(all) == old_count(before) + if gone || both {
                1nat
            } else {
                0nat
            }
            &&& new_count(all) == new_count(before) + if come || both {
                1nat
            } else {
                0nat
            }
            &&& kept(all) == if hunk {
                kept(before)
            } else {
                kept(before) + line + seq!['\n']
            }
        }),
{
    let all = before.push(line);
    assert(all.drop_last() =~= before);
    reveal_strlit("@@");
    assert("@@"@ =~= seq!['@', '@']);
    if line.len() >= 2 {
        assert(line.take(2)[0] == line[0]);
        assert(line.take(2)[1] == line[1]);
        assert(line[0] == '@' && line[1] == '@' ==> line.take(2) =~= seq!['@', '@']);
    }
    if line.len() >= 1 {
        assert(line.take(1)[0] == line[0]);
        assert(line[0] == '-' ==> line.take(1) =~= seq!['-']);
        assert(line[0] == '+' ==> line.take(1) =~= seq!['+']);
    }
    assert(starts_with(line, "@@"@) ==> line.take(2)[0] == '@');
    assert(starts_with(line, seq!['-']) ==> line.take(1)[0] == '-');
    assert(starts_with(line, seq!['+']) ==> line.take(1)[0] == '+');
}

} // verus!

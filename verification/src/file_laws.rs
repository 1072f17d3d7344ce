//! What holds of the files that are changed and read back, step by step.

use vstd::prelude::*;

use crate::cache::{cache_json, entry_in, entry_json, no_summaries, still_good, CacheV};
use crate::config::{
    backup_prefix, can_hold_trust, follows, is_earlier, orders, trusts, with_prefix, with_trust,
    ConfigError, FileText, Stage, Todo, Went,
};
use crate::json::{parsed, pretty_text, JsonV, NumV};
use crate::transcript::{envelope_taken, from_user, spurt_begun, TranscriptV};
use crate::window::EntryV;

verus! {

// ---------------------------------------------------------------------------
// The configuration

/// A directory is trusted where the configuration says so in its place, and nowhere else.
pub proof fn trust_stands_in_its_place(config: JsonV, directory: Seq<char>, project: JsonV)
    requires
        config.within("projects"@, directory) == Some(project),
    ensures
        trusts(config, directory) <==> project.get("hasTrustDialogAccepted"@) == Some(
            JsonV::Bool(true),
        ),
{
}

/// A directory that the configuration does not name is not trusted.
pub proof fn unknown_directory_is_not_trusted(config: JsonV, directory: Seq<char>)
    requires
        config.within("projects"@, directory) is None,
    ensures
        !trusts(config, directory),
{
}

/// Trust is put in the place of the directory.
pub proof fn trust_is_put_in_its_place(config: JsonV, directory: Seq<char>)
    requires
        can_hold_trust(config, directory),
    ensures
        with_trust(config, directory).within("projects"@, directory) matches Some(project)
            && project.get("hasTrustDialogAccepted"@) == Some(JsonV::Bool(true)),
{
}

/// A change that goes well: the file is read, what it holds is changed, the old file is kept, the
/// new text is written, and the lock is given back.
pub proof fn change_is_written(
    s1: Stage,
    s2: Stage,
    s3: Stage,
    s4: Stage,
    s5: Stage,
    s6: Stage,
    t1: Todo,
    t2: Todo,
    t3: Todo,
    t4: Todo,
    t5: Todo,
    t6: Todo,
    text: String,
    held: JsonV,
    config: crate::json::Json,
)
    requires
        follows(Stage::Locking, Went::Well, s1, t1),
        follows(s1, Went::File(FileText::Text(text)), s2, t2),
        parsed(text@) == Some(held),
        follows(s2, Went::Changed { config, write: true }, s3, t3),
        follows(s3, Went::Well, s4, t4),
        follows(s4, Went::Well, s5, t5),
        follows(s5, Went::Well, s6, t6),
    ensures
        t1 is Read,
        t2 matches Todo::Change(given) && given@ == held,
        t3 is BackUp,
        t4 matches Todo::Write(out) && out@ == pretty_text(config@),
        t5 is Unlock,
        t6 matches Todo::Finish(outcome) && outcome is Ok,
        s6 is Over,
{
}

/// What is not to be written is not: the lock is given back, and all is well.
pub proof fn nothing_is_written_for_nothing(
    s1: Stage,
    s2: Stage,
    t1: Todo,
    t2: Todo,
    config: crate::json::Json,
)
    requires
        follows(Stage::Changing, Went::Changed { config, write: false }, s1, t1),
        follows(s1, Went::Well, s2, t2),
    ensures
        t1 is Unlock,
        t2 matches Todo::Finish(outcome) && outcome is Ok,
{
}

/// A file that is not there is an empty configuration; one that is no JSON, or cannot be read, ends
/// the change after the lock is given back.
pub proof fn file_is_read_or_told_of(
    s1: Stage,
    s2: Stage,
    t1: Todo,
    t2: Todo,
    file: FileText,
)
    requires
        follows(Stage::Reading, Went::File(file), s1, t1),
        s1 is Unlocking ==> follows(s1, Went::Well, s2, t2),
    ensures
        file is Missing ==> (t1 matches Todo::Change(given) && given@ == JsonV::Obj(Map::empty())),
        file matches FileText::Text(text) ==> parsed(text@) is None ==> t1 is Unlock && (
        t2 matches Todo::Finish(Err(e)) && e is Json),
        file matches FileText::Failed(reason) ==> t1 is Unlock && (t2 matches Todo::Finish(
            Err(ConfigError::Io(r)),
        ) && r == reason),
{
}

/// A lock that somebody else holds ends the change at once, and is left alone.
pub proof fn foreign_lock_is_left_alone(s: Stage, t: Todo)
    requires
        follows(Stage::Locking, Went::Locked, s, t),
    ensures
        t matches Todo::Finish(Err(e)) && e is LockContention,
{
}

/// What goes wrong while the file is kept or written is told after the lock is given back.
pub proof fn failed_write_is_told(
    before: Stage,
    s1: Stage,
    s2: Stage,
    t1: Todo,
    t2: Todo,
    reason: String,
    went: Went,
)
    requires
        before is BackingUp || before is Writing,
        follows(before, Went::Wrong(reason), s1, t1),
        follows(s1, went, s2, t2),
    ensures
        t1 is Unlock,
        t2 matches Todo::Finish(Err(ConfigError::Io(r))) && r == reason,
{
}

/// Of the backups the five latest stay, and the others go.
pub proof fn five_backups_stay(
    sorted: Seq<Seq<char>>,
    names: Seq<Seq<char>>,
    basename: Seq<char>,
    gone: Seq<Seq<char>>,
    i: int,
    j: int,
)
    requires
        orders(sorted, names, backup_prefix(basename)),
        gone == if sorted.len() <= crate::config::KEPT_BACKUPS {
            Seq::empty()
        } else {
            sorted.skip(crate::config::KEPT_BACKUPS as int)
        },
    ensures
        with_prefix(names, backup_prefix(basename)).len() <= 5 ==> gone.len() == 0,
        with_prefix(names, backup_prefix(basename)).len() > 5 ==> gone.len() == with_prefix(
            names,
            backup_prefix(basename),
        ).len() - 5,
        0 <= i < 5 && 0 <= j < gone.len() ==> !is_earlier(
            sorted[i],
            gone[j],
            backup_prefix(basename),
        ),
        backup_prefix(basename) == basename + ".backup."@,
{
    sorted.to_multiset_ensures();
    with_prefix(names, backup_prefix(basename)).to_multiset_ensures();
    if 0 <= i < 5 && 0 <= j < gone.len() {
        assert(gone[j] == sorted[j + 5]);
    }
}

// ---------------------------------------------------------------------------
// Summaries that are kept

/// An entry is kept by its fields.
pub proof fn kept_entry_is_found(e: EntryV)
    ensures
        entry_json(e).get("turn_id"@) == Some(JsonV::Str(e.turn_id)),
        entry_json(e).get("summary"@) == Some(JsonV::Str(e.summary)),
        entry_json(e).get("attention"@) == Some(JsonV::Bool(e.attention)),
{
    reveal_strlit("turn_id");
    reveal_strlit("summary");
    reveal_strlit("attention");
    assert("turn_id"@.len() == 7);
    assert("summary"@.len() == 7);
    assert("attention"@.len() == 9);
    assert("summary"@[0] == 's');
    assert("turn_id"@[0] == 't');
}

/// The entries are kept by their threads, with the version of the prompt that they came from.
pub proof fn kept_entries_are_found(cache: CacheV, thread_id: Seq<char>)
    requires
        cache.held.contains_key(thread_id),
    ensures
        cache_json(cache).get("version"@) == Some(JsonV::Num(NumV::Int(cache.version as int))),
        cache_json(cache).within("entries"@, thread_id) matches Some(kept) && kept.get("summary"@)
            == Some(JsonV::Str(cache.held[thread_id].summary)) && kept.get("turn_id"@) == Some(
            JsonV::Str(cache.held[thread_id].turn_id),
        ),
{
    reveal_strlit("version");
    reveal_strlit("entries");
    assert("version"@.len() == 7);
    assert("entries"@.len() == 7);
    assert("entries"@[0] == 'e');
    assert("version"@[0] == 'v');
    kept_entry_is_found(cache.held[thread_id]);
}

/// An entry is read by its fields; one that does not say whether somebody has to attend to it is
/// taken to say no.
pub proof fn entry_is_read_by_its_fields(
    v: JsonV,
    turn_id: Seq<char>,
    summary: Seq<char>,
    attention: bool,
)
    requires
        v.get("turn_id"@) == Some(JsonV::Str(turn_id)),
        v.get("summary"@) == Some(JsonV::Str(summary)),
    ensures
        v.get("attention"@) == Some(JsonV::Bool(attention)) ==> entry_in(v) == Some(
            EntryV { turn_id, summary, attention },
        ),
        v.get("attention"@) is None ==> entry_in(v) == Some(
            EntryV { turn_id, summary, attention: false },
        ),
{
}

/// Summaries of another prompt than the present one, the second, are not used.
pub proof fn old_summaries_are_not_used(read: CacheV)
    ensures
        read.version == 2 ==> still_good(read) == read,
        read.version != 2 ==> still_good(read).held == Map::<Seq<char>, EntryV>::empty()
            && still_good(read).version == 2,
        no_summaries().version == 2,
{
}

// ---------------------------------------------------------------------------
// Transcripts

/// An entry comes from the user where its type says so.
pub proof fn user_is_told_by_the_type(data: JsonV)
    ensures
        from_user(data) <==> data.get("type"@) == Some(JsonV::Str("user"@)),
{
}

/// Once the boundary is found, what comes is added at once and shown.
pub proof fn live_entry_is_added(t: TranscriptV, data: JsonV)
    requires
        t.found,
    ensures
        envelope_taken(t, data).0.entries == t.entries.push(data),
        envelope_taken(t, data).1 == seq![data],
        envelope_taken(t, data).0.found,
{
}

/// A new spurt forgets the boundary and what waited for it, and keeps the entries.
pub proof fn spurt_keeps_the_entries(t: TranscriptV)
    ensures
        spurt_begun(t).entries == t.entries,
        spurt_begun(t).boundary is None,
        spurt_begun(t).buffer.len() == 0,
        spurt_begun(t).found <==> t.entries.len() == 0,
{
}

} // verus!

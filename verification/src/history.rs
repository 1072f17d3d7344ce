//! The turns that a client is shown of a conversation so far.

use vstd::prelude::*;

use crate::chars::{cat, contains, same, starts_with, text_contains, text_starts_with, texts};
use crate::fresh::{are_ids, new_ids};
use crate::json::{
    content, from_value, items_view, jint, jstr, lemma_items_push, lemma_items_view, Json, JsonV,
    NumV,
};
use crate::patch::{parse_patch_to_changes, patch_changes};

verus! {

// ---------------------------------------------------------------------------
// Items

pub open spec fn jstrs(parts: Seq<Seq<char>>) -> JsonV {
    JsonV::Arr(Seq::new(parts.len(), |i: int| jstr(parts[i])))
}

/// `[{ "type": "text", "text": .. }]`
pub open spec fn text_content(text: Seq<char>) -> JsonV {
    JsonV::Arr(seq![JsonV::Obj(map!["type"@ => jstr("text"@), "text"@ => jstr(text)])])
}

pub open spec fn user_item(id: Seq<char>, text: Seq<char>) -> JsonV {
    JsonV::Obj(
        map!["type"@ => jstr("userMessage"@), "id"@ => jstr(id), "content"@ => text_content(text)],
    )
}

pub open spec fn agent_item(id: Seq<char>, text: Seq<char>) -> JsonV {
    JsonV::Obj(map!["type"@ => jstr("agentMessage"@), "id"@ => jstr(id), "text"@ => jstr(text)])
}

pub open spec fn reasoning_item(id: Seq<char>, summary: Seq<Seq<char>>) -> JsonV {
    JsonV::Obj(
        map![
            "type"@ => jstr("reasoning"@),
            "id"@ => jstr(id),
            "summary"@ => jstrs(summary),
            "content"@ => JsonV::Arr(Seq::empty()),
        ],
    )
}

pub open spec fn file_item(id: Seq<char>, patch: Seq<char>, status: Seq<char>) -> JsonV {
    JsonV::Obj(
        map![
            "type"@ => jstr("fileChange"@),
            "id"@ => jstr(id),
            "changes"@ => JsonV::Arr(patch_changes(patch)),
            "status"@ => jstr(status),
        ],
    )
}

/// A command: who gave it, how far it has come, what it wrote and what it returned.
pub struct CommandV {
    pub command: Seq<char>,
    pub cwd: Seq<char>,
    pub source: Seq<char>,
    pub status: Seq<char>,
    pub output: JsonV,
    pub exit_code: JsonV,
}

pub open spec fn command_item(id: Seq<char>, c: CommandV) -> JsonV {
    JsonV::Obj(
        map![
            "type"@ => jstr("commandExecution"@),
            "id"@ => jstr(id),
            "command"@ => jstr(c.command),
            "cwd"@ => jstr(c.cwd),
            "source"@ => jstr(c.source),
            "status"@ => jstr(c.status),
            "commandActions"@ => JsonV::Arr(Seq::empty()),
            "aggregatedOutput"@ => c.output,
            "exitCode"@ => c.exit_code,
            "durationMs"@ => JsonV::Null,
        ],
    )
}

pub(crate) fn text_content_json(text: &str) -> (out: Json)
    ensures
        out@ == text_content(text@),
{
    let item = Json::object().with("type", Json::string("text")).with("text", Json::string(text));
    assert(item@ == JsonV::Obj(map!["type"@ => jstr("text"@), "text"@ => jstr(text@)]));
    Json::list_of(item)
}

pub(crate) fn user_item_json(id: &str, text: &str) -> (out: Json)
    ensures
        out@ == user_item(id@, text@),
{
    Json::object().with("type", Json::string("userMessage")).with("id", Json::string(id)).with(
        "content",
        text_content_json(text),
    )
}

pub(crate) fn agent_item_json(id: &str, text: &str) -> (out: Json)
    ensures
        out@ == agent_item(id@, text@),
{
    Json::object().with("type", Json::string("agentMessage")).with("id", Json::string(id)).with(
        "text",
        Json::string(text),
    )
}

/// `serde_json::to_value` of `codex_app_server_protocol::ThreadItem::Reasoning` with no content.
/// Its derived `Serialize` tags the variant by a field `type` and writes the fields in camel
/// case, which does not fail.
#[verifier::external_body]
fn reasoning_value(id: String, summary: Vec<String>) -> (out: Result<
    serde_json::Value,
    serde_json::Error,
>)
    ensures
        out is Ok,
        content(out->Ok_0) == reasoning_item(id@, texts(summary@)),
{
    let content = Vec::new();
    serde_json::to_value(
        &codex_app_server_protocol::ThreadItem::Reasoning { id, summary, content },
    )
}

pub(crate) fn reasoning_item_json(id: &str, summary: Vec<String>) -> (out: Json)
    ensures
        out@ == reasoning_item(id@, texts(summary@)),
{
    match reasoning_value(id.to_owned(), summary) {
        Ok(v) => from_value(v),
        Err(_) => Json::Null,
    }
}

pub(crate) fn file_item_json(id: &str, patch: &str, status: &str) -> (out: Json)
    ensures
        out@ == file_item(id@, patch@, status@),
{
    Json::object().with("type", Json::string("fileChange")).with("id", Json::string(id)).with(
        "changes",
        Json::Array(parse_patch_to_changes(patch)),
    ).with("status", Json::string(status))
}

/// The fields of a command item, apart from its id.
pub(crate) struct Command<'a> {
    pub command: &'a str,
    pub cwd: &'a str,
    pub source: &'a str,
    pub status: &'a str,
    pub output: Json,
    pub exit_code: Json,
}

pub(crate) fn command_item_json(id: &str, c: Command<'_>) -> (out: Json)
    ensures
        out@ == command_item(
            id@,
            CommandV {
                command: c.command@,
                cwd: c.cwd@,
                source: c.source@,
                status: c.status@,
                output: c.output@,
                exit_code: c.exit_code@,
            },
        ),
{
    Json::object().with("type", Json::string("commandExecution")).with("id", Json::string(id)).with(
        "command",
        Json::string(c.command),
    ).with("cwd", Json::string(c.cwd)).with("source", Json::string(c.source)).with(
        "status",
        Json::string(c.status),
    ).with("commandActions", Json::empty_list()).with("aggregatedOutput", c.output).with(
        "exitCode",
        c.exit_code,
    ).with("durationMs", Json::Null)
}

// ---------------------------------------------------------------------------
// Entries

pub open spec fn kind_of(entry: JsonV) -> Seq<char> {
    entry.str_or("kind"@, ""@)
}

pub open spec fn has_type(block: JsonV, name: Seq<char>) -> bool {
    block.str_at("type"@) == Some(name)
}

/// The user broke the turn off: the first block of the entry says so.
pub open spec fn interrupts(entry: JsonV) -> bool {
    &&& kind_of(entry) == "user"@
    &&& match entry.arr_at("blocks"@) {
        Some(blocks) => blocks.len() > 0 && match blocks[0].str_at("text"@) {
            Some(text) => starts_with(text, "[Request interrupted by user"@),
            None => false,
        },
        None => false,
    }
}

/// The user wrote something.
pub open spec fn is_user_text(entry: JsonV) -> bool {
    &&& kind_of(entry) == "user"@
    &&& match entry.arr_at("blocks"@) {
        Some(blocks) => exists|i: int|
            0 <= i < blocks.len() && has_type(#[trigger] blocks[i], "text"@),
        None => false,
    }
}

pub fn is_interrupt_marker(entry: &Json) -> (out: bool)
    ensures
        out == interrupts(entry@),
{
    if !same(entry.str_or("kind", ""), "user") {
        return false;
    }
    match entry.array_at("blocks") {
        Some(blocks) => {
            proof {
                lemma_items_view(blocks@);
            }
            if blocks.len() == 0 {
                return false;
            }
            assert(items_view(blocks@)[0] == blocks@[0]@);
            match blocks[0].str_at("text") {
                Some(text) => text_starts_with(text, "[Request interrupted by user"),
                None => false,
            }
        },
        None => false,
    }
}

fn typed(block: &Json, name: &str) -> (out: bool)
    ensures
        out == has_type(block@, name@),
{
    match block.str_at("type") {
        Some(t) => same(t, name),
        None => false,
    }
}

pub fn is_user_text_entry(entry: &Json) -> (out: bool)
    ensures
        out == is_user_text(entry@),
{
    if !same(entry.str_or("kind", ""), "user") {
        return false;
    }
    match entry.array_at("blocks") {
        Some(blocks) => {
            proof {
                lemma_items_view(blocks@);
            }
            let mut i: usize = 0;
            while i < blocks.len()
                invariant
                    i <= blocks.len(),
                    items_view(blocks@).len() == blocks@.len(),
                    forall|j: int|
                        0 <= j < blocks.len() ==> #[trigger] items_view(blocks@)[j] == blocks@[j]@,
                    forall|j: int| 0 <= j < i ==> !has_type(#[trigger] items_view(blocks@)[j], "text"@),
                    entry@.arr_at("blocks"@) == Some(items_view(blocks@)),
                    kind_of(entry@) == "user"@,
                decreases blocks.len() - i,
            {
                assert(items_view(blocks@)[i as int] == blocks@[i as int]@);
                if typed(&blocks[i], "text") {
                    proof {
                        let all = entry@.arr_at("blocks"@)->Some_0;
                        assert(has_type(all[i as int], "text"@));
                    }
                    return true;
                }
                i += 1;
            }
            false
        },
        None => false,
    }
}

/// What the last tool result among the blocks holds; empty where there is none.
pub open spec fn last_result(blocks: Seq<JsonV>) -> Seq<char>
    decreases blocks.len(),
{
    if blocks.len() == 0 {
        Seq::empty()
    } else if has_type(blocks.last(), "tool_result"@) {
        blocks.last().str_or("content"@, Seq::empty())
    } else {
        last_result(blocks.drop_last())
    }
}

/// What a tool gave back: the result in the entry behind the one that called it.
pub open spec fn tool_output(entries: Seq<JsonV>, i: int) -> Seq<char> {
    if i + 1 < entries.len() && entries[i + 1].str_at("kind"@) == Some("user"@) {
        match entries[i + 1].arr_at("blocks"@) {
            Some(blocks) => last_result(blocks),
            None => Seq::empty(),
        }
    } else {
        Seq::empty()
    }
}

/// The text in a field of a tool's input.
pub open spec fn input_at(block: JsonV, key: Seq<char>) -> Option<Seq<char>> {
    match block.get("input"@) {
        Some(input) => input.str_at(key),
        None => None,
    }
}

/// The item for a call of one of the tools that run through the wicket; other calls have none.
pub open spec fn tool_item(block: JsonV, output: Seq<char>, id: Seq<char>, cwd: Seq<char>) -> Option<
    JsonV,
> {
    let name = block.str_or("name"@, "unknown"@);
    if !contains(name, "wicket"@) {
        None
    } else if contains(name, "apply_patch"@) {
        Some(
            file_item(
                id,
                match input_at(block, "patch"@) {
                    Some(patch) => patch,
                    None => Seq::empty(),
                },
                "completed"@,
            ),
        )
    } else {
        Some(
            command_item(
                id,
                CommandV {
                    command: match input_at(block, "command"@) {
                        Some(command) => command,
                        None => name,
                    },
                    cwd,
                    source: "agent"@,
                    status: "completed"@,
                    output: if output.len() == 0 {
                        JsonV::Null
                    } else {
                        jstr(output)
                    },
                    exit_code: jint(0),
                },
            ),
        )
    }
}

/// The item for a block of an entry of the given kind, where it has one.
pub open spec fn block_item(
    kind: Seq<char>,
    block: JsonV,
    output: Seq<char>,
    id: Seq<char>,
    cwd: Seq<char>,
) -> Option<JsonV> {
    let name = block.str_or("type"@, ""@);
    let text = block.str_or("text"@, ""@);
    if kind == "user"@ {
        if name == "text"@ {
            Some(user_item(id, text))
        } else {
            None
        }
    } else if kind == "assistant"@ {
        if name == "text"@ {
            Some(agent_item(id, text))
        } else if name == "thinking"@ {
            Some(reasoning_item(id, seq!["**Thinking**\n\n"@ + text]))
        } else if name == "tool_use"@ {
            tool_item(block, output, id, cwd)
        } else {
            None
        }
    } else {
        None
    }
}

pub open spec fn block_items(
    kind: Seq<char>,
    blocks: Seq<JsonV>,
    output: Seq<char>,
    id: Seq<char>,
    cwd: Seq<char>,
) -> Seq<JsonV>
    decreases blocks.len(),
{
    if blocks.len() == 0 {
        Seq::empty()
    } else {
        let before = block_items(kind, blocks.drop_last(), output, id, cwd);
        match block_item(kind, blocks.last(), output, id, cwd) {
            Some(item) => before.push(item),
            None => before,
        }
    }
}

pub open spec fn entry_items(entries: Seq<JsonV>, i: int, id: Seq<char>, cwd: Seq<char>) -> Seq<
    JsonV,
> {
    match entries[i].arr_at("blocks"@) {
        Some(blocks) => block_items(kind_of(entries[i]), blocks, tool_output(entries, i), id, cwd),
        None => Seq::empty(),
    }
}

// ---------------------------------------------------------------------------
// Turns

pub open spec fn past_turn(id: Seq<char>, items: Seq<JsonV>, status: Seq<char>) -> JsonV {
    JsonV::Obj(
        map![
            "id"@ => jstr(id),
            "items"@ => JsonV::Arr(items),
            "itemsView"@ => jstr("full"@),
            "status"@ => jstr(status),
            "error"@ => JsonV::Null,
            "startedAt"@ => jint(0),
            "completedAt"@ => jint(0),
            "durationMs"@ => JsonV::Null,
        ],
    )
}

/// The turns so far, the items of the turn that is being read, and how many of the fresh
/// identifiers are used up.
pub struct TurnsV {
    pub turns: Seq<JsonV>,
    pub items: Seq<JsonV>,
    pub used: nat,
}

/// Ends the turn that is being read, where it has any items.
pub open spec fn flushed(t: TurnsV, status: Seq<char>, ids: Seq<Seq<char>>) -> TurnsV {
    if t.items.len() == 0 {
        t
    } else {
        TurnsV {
            turns: t.turns.push(past_turn(ids[t.used as int], t.items, status)),
            items: Seq::empty(),
            used: t.used + 1,
        }
    }
}

/// Reads one entry. An interruption ends the turn as interrupted; what the user writes begins a
/// new one.
pub open spec fn entry_read(
    t: TurnsV,
    entries: Seq<JsonV>,
    i: int,
    cwd: Seq<char>,
    ids: Seq<Seq<char>>,
) -> TurnsV {
    let entry = entries[i];
    if interrupts(entry) {
        flushed(t, "interrupted"@, ids)
    } else {
        let (id, t1) = match entry.str_at("uuid"@) {
            Some(uuid) => (uuid, t),
            None => (ids[t.used as int], TurnsV { used: t.used + 1, ..t }),
        };
        let t2 = if is_user_text(entry) {
            flushed(t1, "completed"@, ids)
        } else {
            t1
        };
        TurnsV { items: t2.items + entry_items(entries, i, id, cwd), ..t2 }
    }
}

pub open spec fn entries_read(
    entries: Seq<JsonV>,
    n: nat,
    cwd: Seq<char>,
    ids: Seq<Seq<char>>,
) -> TurnsV
    decreases n,
{
    if n == 0 {
        TurnsV { turns: Seq::empty(), items: Seq::empty(), used: 0 }
    } else {
        entry_read(entries_read(entries, (n - 1) as nat, cwd, ids), entries, n - 1, cwd, ids)
    }
}

/// The directory that commands of the past are shown to have run in.
pub open spec fn history_dir(home: Seq<char>) -> Seq<char> {
    home + "/pane/solver"@
}

/// The turns of a conversation, with the identifiers given to what has none.
pub open spec fn past_turns(entries: Seq<JsonV>, home: Seq<char>, ids: Seq<Seq<char>>) -> Seq<
    JsonV,
> {
    flushed(
        entries_read(entries, entries.len(), history_dir(home), ids),
        "completed"@,
        ids,
    ).turns
}

/// Ends the turn whose items are given, where there are any: it gets the identifier `id`.
/// Returns whether there were any.
pub fn flush_turn(turns: &mut Vec<Json>, items: &mut Vec<Json>, status: &str, id: &str) -> (out:
    bool)
    ensures
        out == (old(items)@.len() > 0),
        out ==> items_view(final(turns)@) == items_view(old(turns)@).push(
            past_turn(id@, items_view(old(items)@), status@),
        ) && final(items)@.len() == 0,
        !out ==> *final(turns) == *old(turns) && *final(items) == *old(items),
{
    if items.len() == 0 {
        return false;
    }
    let mut taken: Vec<Json> = Vec::new();
    std::mem::swap(items, &mut taken);
    let turn = Json::object().with("id", Json::string(id)).with("items", Json::Array(taken)).with(
        "itemsView",
        Json::string("full"),
    ).with("status", Json::string(status)).with("error", Json::Null).with(
        "startedAt",
        Json::integer(0),
    ).with("completedAt", Json::integer(0)).with("durationMs", Json::Null);
    proof {
        assert(turn@ == past_turn(id@, items_view(old(items)@), status@));
        lemma_items_push(turns@, turn);
    }
    turns.push(turn);
    true
}

fn read_output(entries: &Vec<Json>, i: usize) -> (out: String)
    requires
        i < entries.len(),
    ensures
        out@ == tool_output(items_view(entries@), i as int),
{
    proof {
        lemma_items_view(entries@);
    }
    let mut out = String::new();
    if i + 1 < entries.len() {
        let next = &entries[i + 1];
        assert(items_view(entries@)[i + 1] == next@);
        let from_user = match next.str_at("kind") {
            Some(kind) => same(kind, "user"),
            None => false,
        };
        if from_user {
            if let Some(blocks) = next.array_at("blocks") {
                let mut k: usize = 0;
                proof {
                    lemma_items_view(blocks@);
                }
                while k < blocks.len()
                    invariant
                        k <= blocks.len(),
                        items_view(blocks@).len() == blocks@.len(),
                        forall|j: int|
                            0 <= j < blocks.len() ==> #[trigger] items_view(blocks@)[j]
                                == blocks@[j]@,
                        out@ == last_result(items_view(blocks@).take(k as int)),
                    decreases blocks.len() - k,
                {
                    let ghost seen = items_view(blocks@).take(k + 1);
                    assert(seen.drop_last() =~= items_view(blocks@).take(k as int));
                    assert(seen.last() == blocks@[k as int]@);
                    if typed(&blocks[k], "tool_result") {
                        let text = blocks[k].str_or("content", "");
                        proof {
                            reveal_strlit("");
                            assert(""@ =~= Seq::<char>::empty());
                        }
                        out = text.to_owned();
                    }
                    k += 1;
                }
                assert(items_view(blocks@).take(k as int) =~= items_view(blocks@));
            }
        }
    }
    out
}

fn input_text<'a>(block: &'a Json, key: &str) -> (out: Option<&'a str>)
    ensures
        crate::chars::opt_str(out) == input_at(block@, key@),
{
    match block.get("input") {
        Some(input) => input.str_at(key),
        None => None,
    }
}

fn read_tool(block: &Json, output: &str, id: &str, cwd: &str) -> (out: Option<Json>)
    ensures
        crate::json::opt_view(out) == tool_item(block@, output@, id@, cwd@),
{
    let name = block.str_or("name", "unknown");
    if !text_contains(name, "wicket") {
        return None;
    }
    if text_contains(name, "apply_patch") {
        let patch = match input_text(block, "patch") {
            Some(patch) => patch,
            None => "",
        };
        proof {
            reveal_strlit("");
            assert(""@ =~= Seq::<char>::empty());
        }
        Some(file_item_json(id, patch, "completed"))
    } else {
        let command = match input_text(block, "command") {
            Some(command) => command,
            None => name,
        };
        let shown = if output.is_empty() {
            Json::Null
        } else {
            Json::string(output)
        };
        Some(
            command_item_json(
                id,
                Command {
                    command,
                    cwd,
                    source: "agent",
                    status: "completed",
                    output: shown,
                    exit_code: Json::integer(0),
                },
            ),
        )
    }
}

fn read_block(kind: &str, block: &Json, output: &str, id: &str, cwd: &str) -> (out: Option<Json>)
    ensures
        crate::json::opt_view(out) == block_item(kind@, block@, output@, id@, cwd@),
{
    let name = block.str_or("type", "");
    let text = block.str_or("text", "");
    if same(kind, "user") {
        if same(name, "text") {
            Some(user_item_json(id, text))
        } else {
            None
        }
    } else if same(kind, "assistant") {
        if same(name, "text") {
            Some(agent_item_json(id, text))
        } else if same(name, "thinking") {
            let mut summary: Vec<String> = Vec::new();
            summary.push(cat("**Thinking**\n\n", text));
            assert(texts(summary@) =~= seq!["**Thinking**\n\n"@ + text@]);
            Some(reasoning_item_json(id, summary))
        } else if same(name, "tool_use") {
            read_tool(block, output, id, cwd)
        } else {
            None
        }
    } else {
        None
    }
}

fn read_entry(entries: &Vec<Json>, i: usize, id: &str, cwd: &str, items: &mut Vec<Json>)
    requires
        i < entries.len(),
    ensures
        items_view(final(items)@) == items_view(old(items)@) + entry_items(
            items_view(entries@),
            i as int,
            id@,
            cwd@,
        ),
{
    proof {
        lemma_items_view(entries@);
    }
    let entry = &entries[i];
    assert(items_view(entries@)[i as int] == entry@);
    let kind = entry.str_or("kind", "");
    let ghost before = items_view(items@);
    assert(before + Seq::<JsonV>::empty() =~= before);
    if let Some(blocks) = entry.array_at("blocks") {
        let output = read_output(entries, i);
        let mut k: usize = 0;
        proof {
            lemma_items_view(blocks@);
        }
        let ghost all = items_view(blocks@);
        while k < blocks.len()
            invariant
                k <= blocks.len(),
                all.len() == blocks@.len(),
                forall|j: int| 0 <= j < blocks.len() ==> #[trigger] all[j] == blocks@[j]@,
                items_view(items@) == before + block_items(
                    kind@,
                    all.take(k as int),
                    output@,
                    id@,
                    cwd@,
                ),
            decreases blocks.len() - k,
        {
            let ghost seen = all.take(k + 1);
            assert(seen.drop_last() =~= all.take(k as int));
            assert(seen.last() == blocks@[k as int]@);
            if let Some(item) = read_block(kind, &blocks[k], output.as_str(), id, cwd) {
                proof {
                    lemma_items_push(items@, item);
                    let had = block_items(kind@, all.take(k as int), output@, id@, cwd@);
                    assert((before + had).push(item@) =~= before + had.push(item@));
                }
                items.push(item);
            }
            k += 1;
        }
        assert(all.take(k as int) =~= all);
    }
}

proof fn lemma_used(entries: Seq<JsonV>, n: nat, cwd: Seq<char>, ids: Seq<Seq<char>>)
    ensures
        entries_read(entries, n, cwd, ids).used <= 2 * n,
    decreases n,
{
    if n > 0 {
        lemma_used(entries, (n - 1) as nat, cwd, ids);
    }
}

/// The turns of a conversation, where `ids` are the identifiers for what has none: two for each
/// entry and one more are enough.
pub fn turns_with_ids(entries: &Vec<Json>, home: &str, ids: &Vec<String>) -> (turns: Vec<Json>)
    requires
        ids@.len() > 2 * entries@.len(),
    ensures
        items_view(turns@) == past_turns(items_view(entries@), home@, texts(ids@)),
{
    let cwd = cat(home, "/pane/solver");
    let mut turns: Vec<Json> = Vec::new();
    let mut items: Vec<Json> = Vec::new();
    let mut used: usize = 0;
    let mut i: usize = 0;
    let total: usize = ids.len();
    let ghost all = items_view(entries@);
    proof {
        lemma_items_view(entries@);
    }
    while i < entries.len()
        invariant
            i <= entries.len(),
            total == ids@.len(),
            total > 2 * entries@.len(),
            all == items_view(entries@),
            all.len() == entries@.len(),
            forall|j: int| 0 <= j < entries.len() ==> #[trigger] all[j] == entries@[j]@,
            entries_read(all, i as nat, cwd@, texts(ids@)) == (TurnsV {
                turns: items_view(turns@),
                items: items_view(items@),
                used: used as nat,
            }),
        decreases entries.len() - i,
    {
        proof {
            lemma_used(all, i as nat, cwd@, texts(ids@));
            lemma_items_view(items@);
        }
        let entry = &entries[i];
        assert(all[i as int] == entry@);
        if is_interrupt_marker(entry) {
            if flush_turn(&mut turns, &mut items, "interrupted", ids[used].as_str()) {
                used += 1;
            }
        } else {
            let id: &str = match entry.str_at("uuid") {
                Some(uuid) => uuid,
                None => {
                    let fresh = ids[used].as_str();
                    used += 1;
                    fresh
                },
            };
            if is_user_text_entry(entry) {
                if flush_turn(&mut turns, &mut items, "completed", ids[used].as_str()) {
                    used += 1;
                }
            }
            read_entry(entries, i, id, cwd.as_str(), &mut items);
        }
        i += 1;
    }
    proof {
        lemma_used(all, i as nat, cwd@, texts(ids@));
        lemma_items_view(items@);
    }
    flush_turn(&mut turns, &mut items, "completed", ids[used].as_str());
    turns
}

/// The turns of a conversation. What has no identifier gets a random one.
pub fn build_turns_from_entries(entries: &Vec<Json>, home: &str) -> (turns: Vec<Json>)
    ensures
        exists|ids: Seq<Seq<char>>|
            ids.len() > 2 * entries@.len() && are_ids(ids) && items_view(turns@)
                == #[trigger] past_turns(items_view(entries@), home@, ids),
{
    let ids = new_ids(entries.len());
    assert(texts(ids@).len() > 2 * entries@.len());
    turns_with_ids(entries, home, &ids)
}

// ---------------------------------------------------------------------------
// What is found in the turns

/// What the user wrote is found in the content of its item.
pub proof fn user_text_is_found(id: Seq<char>, text: Seq<char>)
    ensures
        ({
            let item = user_item(id, text);
            &&& item.str_at("type"@) == Some("userMessage"@)
            &&& item.str_at("id"@) == Some(id)
            &&& item.arr_at("content"@) matches Some(parts) && parts.len() == 1
                && parts[0].str_at("type"@) == Some("text"@) && parts[0].str_at("text"@) == Some(text)
        }),
{
    reveal_strlit("type");
    reveal_strlit("id");
    reveal_strlit("content");
    reveal_strlit("text");
    assert("type"@.len() == 4);
    assert("id"@.len() == 2);
    assert("content"@.len() == 7);
    assert("text"@.len() == 4);
    assert("text"@[1] == 'e');
    assert("type"@[1] == 'y');
}

/// What the assistant wrote is found in its item.
pub proof fn agent_text_is_found(id: Seq<char>, text: Seq<char>)
    ensures
        agent_item(id, text).get("type"@) == Some(JsonV::Str("agentMessage"@)),
        agent_item(id, text).get("id"@) == Some(JsonV::Str(id)),
        agent_item(id, text).get("text"@) == Some(JsonV::Str(text)),
{
    reveal_strlit("type");
    reveal_strlit("id");
    reveal_strlit("text");
    assert("type"@.len() == 4);
    assert("id"@.len() == 2);
    assert("text"@.len() == 4);
    assert("text"@[1] == 'e');
    assert("type"@[1] == 'y');
}

/// What the assistant thought is found in its item.
pub proof fn thought_text_is_found(id: Seq<char>, summary: Seq<Seq<char>>)
    ensures
        ({
            let item = reasoning_item(id, summary);
            &&& item.str_at("type"@) == Some("reasoning"@)
            &&& item.str_at("id"@) == Some(id)
            &&& item.arr_at("summary"@) matches Some(parts) && parts.len() == summary.len()
                && forall|i: int|
                0 <= i < parts.len() ==> #[trigger] parts[i] == JsonV::Str(summary[i])
        }),
{
    reveal_strlit("type");
    reveal_strlit("id");
    reveal_strlit("summary");
    reveal_strlit("content");
    assert("type"@.len() == 4);
    assert("id"@.len() == 2);
    assert("summary"@.len() == 7);
    assert("content"@.len() == 7);
    assert("content"@[0] == 'c');
    assert("summary"@[0] == 's');
}

/// The files that a patch changes are found in its item.
pub proof fn files_are_found(id: Seq<char>, patch: Seq<char>, status: Seq<char>)
    ensures
        file_item(id, patch, status).get("type"@) == Some(JsonV::Str("fileChange"@)),
        file_item(id, patch, status).get("id"@) == Some(JsonV::Str(id)),
        file_item(id, patch, status).get("changes"@) == Some(JsonV::Arr(patch_changes(patch))),
        file_item(id, patch, status).get("status"@) == Some(JsonV::Str(status)),
{
    reveal_strlit("type");
    reveal_strlit("id");
    reveal_strlit("changes");
    reveal_strlit("status");
    assert("type"@.len() == 4);
    assert("id"@.len() == 2);
    assert("changes"@.len() == 7);
    assert("status"@.len() == 6);
}

/// A command is found in its item: where it ran, who gave it, how it stands, what it wrote and what
/// it returned.
pub proof fn command_is_found(id: Seq<char>, c: CommandV)
    ensures
        command_item(id, c).get("type"@) == Some(JsonV::Str("commandExecution"@)),
        command_item(id, c).get("id"@) == Some(JsonV::Str(id)),
        command_item(id, c).get("command"@) == Some(JsonV::Str(c.command)),
        command_item(id, c).get("cwd"@) == Some(JsonV::Str(c.cwd)),
        command_item(id, c).get("source"@) == Some(JsonV::Str(c.source)),
        command_item(id, c).get("status"@) == Some(JsonV::Str(c.status)),
        command_item(id, c).get("commandActions"@) == Some(JsonV::Arr(Seq::empty())),
        command_item(id, c).get("aggregatedOutput"@) == Some(c.output),
        command_item(id, c).get("exitCode"@) == Some(c.exit_code),
        command_item(id, c).get("durationMs"@) == Some(JsonV::Null),
{
    reveal_strlit("type");
    reveal_strlit("id");
    reveal_strlit("command");
    reveal_strlit("cwd");
    reveal_strlit("source");
    reveal_strlit("status");
    reveal_strlit("commandActions");
    reveal_strlit("aggregatedOutput");
    reveal_strlit("exitCode");
    reveal_strlit("durationMs");
    assert("type"@.len() == 4);
    assert("id"@.len() == 2);
    assert("command"@.len() == 7);
    assert("cwd"@.len() == 3);
    assert("source"@.len() == 6);
    assert("status"@.len() == 6);
    assert("commandActions"@.len() == 14);
    assert("aggregatedOutput"@.len() == 16);
    assert("exitCode"@.len() == 8);
    assert("durationMs"@.len() == 10);
    assert("source"@[1] == 'o');
    assert("status"@[1] == 't');
}

/// A turn of the past says which one it is and how it ended, and holds its items.
pub proof fn past_turn_is_found(id: Seq<char>, items: Seq<JsonV>, status: Seq<char>)
    ensures
        past_turn(id, items, status).get("id"@) == Some(JsonV::Str(id)),
        past_turn(id, items, status).get("items"@) == Some(JsonV::Arr(items)),
        past_turn(id, items, status).get("itemsView"@) == Some(JsonV::Str("full"@)),
        past_turn(id, items, status).get("status"@) == Some(JsonV::Str(status)),
        past_turn(id, items, status).get("error"@) == Some(JsonV::Null),
        past_turn(id, items, status).get("startedAt"@) == Some(JsonV::Num(NumV::Int(0))),
        past_turn(id, items, status).get("completedAt"@) == Some(JsonV::Num(NumV::Int(0))),
        past_turn(id, items, status).get("durationMs"@) == Some(JsonV::Null),
{
    reveal_strlit("id");
    reveal_strlit("items");
    reveal_strlit("itemsView");
    reveal_strlit("status");
    reveal_strlit("error");
    reveal_strlit("startedAt");
    reveal_strlit("completedAt");
    reveal_strlit("durationMs");
    assert("id"@.len() == 2);
    assert("items"@.len() == 5);
    assert("itemsView"@.len() == 9);
    assert("status"@.len() == 6);
    assert("error"@.len() == 5);
    assert("startedAt"@.len() == 9);
    assert("completedAt"@.len() == 11);
    assert("durationMs"@.len() == 10);
    assert("error"@[0] == 'e');
    assert("items"@[0] == 'i');
    assert("itemsView"@[0] == 'i');
    assert("startedAt"@[0] == 's');
}

/// What one can read in an item of a turn.
pub enum Mark {
    User(Seq<char>),
    Agent(Seq<char>),
    Thought(Seq<char>),
    Command { command: Seq<char>, output: JsonV, cwd: Seq<char> },
    Files(Seq<JsonV>),
    Nothing,
}

/// What can be read in an item, by its fields alone, and under which id.
pub open spec fn reads(item: JsonV, id: Seq<char>, mark: Mark) -> bool {
    &&& item.str_at("id"@) == Some(id)
    &&& match mark {
        Mark::User(text) => item.str_at("type"@) == Some("userMessage"@) && (item.arr_at(
            "content"@,
        ) matches Some(parts) && parts.len() == 1 && parts[0].str_at("text"@) == Some(text)),
        Mark::Agent(text) => item.str_at("type"@) == Some("agentMessage"@) && item.str_at("text"@)
            == Some(text),
        Mark::Thought(text) => item.str_at("type"@) == Some("reasoning"@) && (item.arr_at(
            "summary"@,
        ) matches Some(parts) && parts.len() == 1 && parts[0] == JsonV::Str(
            "**Thinking**\n\n"@ + text,
        )),
        Mark::Command { command, output, cwd } => item.str_at("type"@) == Some(
            "commandExecution"@,
        ) && item.str_at("command"@) == Some(command) && item.get("aggregatedOutput"@) == Some(
            output,
        ) && item.str_at("cwd"@) == Some(cwd) && item.str_at("status"@) == Some("completed"@)
            && item.str_at("source"@) == Some("agent"@) && item.get("exitCode"@) == Some(
            JsonV::Num(NumV::Int(0)),
        ),
        Mark::Files(changes) => item.str_at("type"@) == Some("fileChange"@) && item.get(
            "changes"@,
        ) == Some(JsonV::Arr(changes)) && item.str_at("status"@) == Some("completed"@),
        Mark::Nothing => false,
    }
}

/// A text that may be missing.
pub open spec fn said_in(v: JsonV, key: Seq<char>) -> Seq<char> {
    match v.get(key) {
        Some(JsonV::Str(s)) => s,
        _ => Seq::empty(),
    }
}

/// What a block of an entry says. The calls of tools that do not run through the wicket are not
/// shown, nor are the results by themselves.
pub open spec fn mark_of(kind: Seq<char>, block: JsonV, output: Seq<char>, cwd: Seq<char>) -> Mark {
    let name = match block.get("name"@) {
        Some(JsonV::Str(name)) => name,
        _ => "unknown"@,
    };
    let input = match block.get("input"@) {
        Some(input) => input,
        None => JsonV::Null,
    };
    if block.get("type"@) == Some(JsonV::Str("text"@)) && kind == "user"@ {
        Mark::User(said_in(block, "text"@))
    } else if block.get("type"@) == Some(JsonV::Str("text"@)) && kind == "assistant"@ {
        Mark::Agent(said_in(block, "text"@))
    } else if block.get("type"@) == Some(JsonV::Str("thinking"@)) && kind == "assistant"@ {
        Mark::Thought(said_in(block, "text"@))
    } else if block.get("type"@) == Some(JsonV::Str("tool_use"@)) && kind == "assistant"@
        && contains(name, "wicket"@) {
        if contains(name, "apply_patch"@) {
            Mark::Files(patch_changes(said_in(input, "patch"@)))
        } else {
            Mark::Command {
                command: match input.get("command"@) {
                    Some(JsonV::Str(command)) => command,
                    _ => name,
                },
                output: if output.len() == 0 {
                    JsonV::Null
                } else {
                    JsonV::Str(output)
                },
                cwd,
            }
        }
    } else {
        Mark::Nothing
    }
}

/// What the blocks say, in their order.
pub open spec fn marks_of(
    kind: Seq<char>,
    blocks: Seq<JsonV>,
    output: Seq<char>,
    cwd: Seq<char>,
) -> Seq<Mark>
    decreases blocks.len(),
{
    if blocks.len() == 0 {
        Seq::empty()
    } else {
        let before = marks_of(kind, blocks.drop_last(), output, cwd);
        match mark_of(kind, blocks.last(), output, cwd) {
            Mark::Nothing => before,
            mark => before.push(mark),
        }
    }
}

proof fn lemma_mark(
    kind: Seq<char>,
    block: JsonV,
    output: Seq<char>,
    id: Seq<char>,
    cwd: Seq<char>,
)
    ensures
        match mark_of(kind, block, output, cwd) {
            Mark::Nothing => block_item(kind, block, output, id, cwd) is None,
            mark => block_item(kind, block, output, id, cwd) matches Some(item) && reads(
                item,
                id,
                mark,
            ),
        },
{
    reveal_strlit("user");
    reveal_strlit("assistant");
    reveal_strlit("text");
    reveal_strlit("thinking");
    reveal_strlit("tool_use");
    reveal_strlit("");
    assert("user"@.len() == 4);
    assert("assistant"@.len() == 9);
    assert("text"@.len() == 4);
    assert("thinking"@.len() == 8);
    assert("tool_use"@.len() == 8);
    assert(""@.len() == 0);
    assert("text"@[0] == 't');
    assert("thinking"@[1] == 'h');
    assert("tool_use"@[1] == 'o');
    assert("user"@[0] == 'u');
    assert(""@ =~= Seq::<char>::empty());
    match mark_of(kind, block, output, cwd) {
        Mark::User(text) => {
            user_text_is_found(id, text);
        },
        Mark::Agent(text) => {
            agent_text_is_found(id, text);
        },
        Mark::Thought(text) => {
            thought_text_is_found(id, seq!["**Thinking**\n\n"@ + text]);
        },
        Mark::Files(_) => {
            files_are_found(
                id,
                match input_at(block, "patch"@) {
                    Some(patch) => patch,
                    None => Seq::empty(),
                },
                "completed"@,
            );
        },
        Mark::Command { command, output: shown, cwd } => {
            command_is_found(
                id,
                CommandV {
                    command,
                    cwd,
                    source: "agent"@,
                    status: "completed"@,
                    output: shown,
                    exit_code: jint(0),
                },
            );
        },
        Mark::Nothing => {},
    }
}

/// Nothing of an entry is lost or changed: its items say what its blocks say, in their order, and
/// have the id of the entry.
pub proof fn blocks_are_read_in_order(
    kind: Seq<char>,
    blocks: Seq<JsonV>,
    output: Seq<char>,
    id: Seq<char>,
    cwd: Seq<char>,
)
    ensures
        block_items(kind, blocks, output, id, cwd).len() == marks_of(
            kind,
            blocks,
            output,
            cwd,
        ).len(),
        forall|i: int|
            0 <= i < marks_of(kind, blocks, output, cwd).len() ==> reads(
                #[trigger] block_items(kind, blocks, output, id, cwd)[i],
                id,
                marks_of(kind, blocks, output, cwd)[i],
            ),
    decreases blocks.len(),
{
    if blocks.len() > 0 {
        blocks_are_read_in_order(kind, blocks.drop_last(), output, id, cwd);
        lemma_mark(kind, blocks.last(), output, id, cwd);
    }
}

/// What a tool gave back is the content of the last result in the entry of the user that follows.
pub proof fn output_is_in_the_next_entry(entries: Seq<JsonV>, i: int, at: int)
    requires
        0 <= i < entries.len() - 1,
        entries[i + 1].get("kind"@) == Some(JsonV::Str("user"@)),
        entries[i + 1].get("blocks"@) matches Some(JsonV::Arr(blocks)) && 0 <= at < blocks.len()
            && blocks[at].get("type"@) == Some(JsonV::Str("tool_result"@)) && forall|k: int|
            at < k < blocks.len() ==> (#[trigger] blocks[k]).get("type"@) != Some(
                JsonV::Str("tool_result"@),
            ),
    ensures
        tool_output(entries, i) == said_in(entries[i + 1].arr_at("blocks"@)->Some_0[at], "content"@),
{
    let blocks = entries[i + 1].arr_at("blocks"@)->Some_0;
    lemma_last_result(blocks, at);
}

proof fn lemma_last_result(blocks: Seq<JsonV>, at: int)
    requires
        0 <= at < blocks.len(),
        has_type(blocks[at], "tool_result"@),
        forall|k: int| at < k < blocks.len() ==> !has_type(#[trigger] blocks[k], "tool_result"@),
    ensures
        last_result(blocks) == said_in(blocks[at], "content"@),
    decreases blocks.len(),
{
    if at < blocks.len() - 1 {
        assert(!has_type(blocks[blocks.len() - 1], "tool_result"@));
        assert forall|k: int| at < k < blocks.drop_last().len() implies !has_type(
            #[trigger] blocks.drop_last()[k],
            "tool_result"@,
        ) by {
            assert(blocks.drop_last()[k] == blocks[k]);
        }
        lemma_last_result(blocks.drop_last(), at);
    }
}

/// A tool that is not followed by an entry of the user gave nothing back.
pub proof fn output_needs_a_next_entry(entries: Seq<JsonV>, i: int)
    requires
        i + 1 >= entries.len() || entries[i + 1].get("kind"@) != Some(JsonV::Str("user"@)),
    ensures
        tool_output(entries, i).len() == 0,
{
}

/// The items of the turns, one behind the other.
pub open spec fn items_in(turns: Seq<JsonV>) -> Seq<JsonV>
    decreases turns.len(),
{
    if turns.len() == 0 {
        Seq::empty()
    } else {
        items_in(turns.drop_last()) + (match turns.last().get("items"@) {
            Some(JsonV::Arr(items)) => items,
            _ => Seq::empty(),
        })
    }
}

/// A marker of an interruption: an entry of the user whose first block says so.
pub open spec fn is_marker(entry: JsonV) -> bool {
    &&& entry.get("kind"@) == Some(JsonV::Str("user"@))
    &&& entry.get("blocks"@) matches Some(JsonV::Arr(blocks)) && blocks.len() > 0
        && (blocks[0].get("text"@) matches Some(JsonV::Str(text)) && starts_with(
        text,
        "[Request interrupted by user"@,
    ))
}

/// What a conversation says, apart from the markers of interruptions.
pub open spec fn conversation(entries: Seq<JsonV>, n: nat, cwd: Seq<char>) -> Seq<Mark>
    decreases n,
{
    if n == 0 {
        Seq::empty()
    } else {
        let entry = entries[n - 1];
        let before = conversation(entries, (n - 1) as nat, cwd);
        match entry.get("blocks"@) {
            Some(JsonV::Arr(blocks)) if !is_marker(entry) => before + marks_of(
                said_in(entry, "kind"@),
                blocks,
                tool_output(entries, n - 1),
                cwd,
            ),
            _ => before,
        }
    }
}

/// Each item says what the conversation says at its place.
pub open spec fn tells(items: Seq<JsonV>, marks: Seq<Mark>) -> bool {
    &&& items.len() == marks.len()
    &&& forall|i: int|
        0 <= i < items.len() ==> told(#[trigger] items[i], marks[i])
}

/// The item says what the mark says, under some id.
pub open spec fn told(item: JsonV, mark: Mark) -> bool {
    exists|id: Seq<char>| reads(item, id, mark)
}

proof fn lemma_flushed_items(t: TurnsV, status: Seq<char>, ids: Seq<Seq<char>>)
    ensures
        items_in(flushed(t, status, ids).turns) + flushed(t, status, ids).items == items_in(t.turns)
            + t.items,
{
    if t.items.len() > 0 {
        let turn = past_turn(ids[t.used as int], t.items, status);
        past_turn_is_found(ids[t.used as int], t.items, status);
        assert(t.turns.push(turn).drop_last() =~= t.turns);
        assert(items_in(t.turns) + t.items + Seq::<JsonV>::empty() =~= items_in(t.turns) + t.items);
    }
}

proof fn lemma_read_items(entries: Seq<JsonV>, n: nat, cwd: Seq<char>, ids: Seq<Seq<char>>)
    requires
        n <= entries.len(),
    ensures
        ({
            let t = entries_read(entries, n, cwd, ids);
            tells(items_in(t.turns) + t.items, conversation(entries, n, cwd))
        }),
    decreases n,
{
    if n == 0 {
        assert(items_in(Seq::empty()) + Seq::<JsonV>::empty() =~= Seq::<JsonV>::empty());
    } else {
        let t = entries_read(entries, (n - 1) as nat, cwd, ids);
        lemma_read_items(entries, (n - 1) as nat, cwd, ids);
        let entry = entries[n - 1];
        reveal_strlit("");
        assert(""@ =~= Seq::<char>::empty());
        assert(said_in(entry, "kind"@) == kind_of(entry));
        reveal_strlit("user");
        assert("user"@.len() == 4);
        assert(is_marker(entry) == interrupts(entry));
        let before = items_in(t.turns) + t.items;
        let marks = conversation(entries, (n - 1) as nat, cwd);
        if interrupts(entry) {
            lemma_flushed_items(t, "interrupted"@, ids);
            assert(conversation(entries, n, cwd) == marks);
        } else {
            let (id, t1) = match entry.str_at("uuid"@) {
                Some(uuid) => (uuid, t),
                None => (ids[t.used as int], TurnsV { used: t.used + 1, ..t }),
            };
            lemma_flushed_items(t1, "completed"@, ids);
            let t2 = if is_user_text(entry) {
                flushed(t1, "completed"@, ids)
            } else {
                t1
            };
            let more = entry_items(entries, n - 1, id, cwd);
            let after = entry_read(t, entries, n - 1, cwd, ids);
            assert(items_in(after.turns) + after.items =~= before + more);
            match entry.arr_at("blocks"@) {
                Some(blocks) => {
                    let output = tool_output(entries, n - 1);
                    let said = marks_of(kind_of(entry), blocks, output, cwd);
                    blocks_are_read_in_order(kind_of(entry), blocks, output, id, cwd);
                    assert forall|i: int| 0 <= i < (before + more).len() implies told(
                        #[trigger] (before + more)[i],
                        (marks + said)[i],
                    ) by {
                        if i < before.len() {
                            assert(told(before[i], marks[i]));
                        } else {
                            assert(reads(more[i - before.len()], id, said[i - before.len()]));
                        }
                    }
                    assert(conversation(entries, n, cwd) == marks + said);
                    assert(tells(before + more, marks + said));
                },
                None => {
                    assert(before + more =~= before);
                    assert(conversation(entries, n, cwd) == marks);
                },
            }
        }
    }
}

/// A conversation is shown whole and in its order: the items of its turns, one behind the other,
/// say what its entries say, text for text.
pub proof fn conversation_is_kept(entries: Seq<JsonV>, home: Seq<char>, ids: Seq<Seq<char>>)
    ensures
        tells(
            items_in(past_turns(entries, home, ids)),
            conversation(entries, entries.len(), home + "/pane/solver"@),
        ),
{
    let t = entries_read(entries, entries.len(), history_dir(home), ids);
    lemma_read_items(entries, entries.len(), history_dir(home), ids);
    lemma_flushed_items(t, "completed"@, ids);
    let done = flushed(t, "completed"@, ids);
    assert(done.items.len() == 0);
    assert(items_in(done.turns) + done.items =~= items_in(done.turns));
}

/// What the user writes begins a turn: what came before it is in a turn that is completed, and the
/// new turn holds nothing but this entry.
pub proof fn user_text_begins_a_turn(
    t: TurnsV,
    entries: Seq<JsonV>,
    i: int,
    cwd: Seq<char>,
    ids: Seq<Seq<char>>,
)
    requires
        0 <= i < entries.len(),
        !is_marker(entries[i]),
        entries[i].get("kind"@) == Some(JsonV::Str("user"@)),
        entries[i].get("blocks"@) matches Some(JsonV::Arr(blocks)) && exists|k: int|
            0 <= k < blocks.len() && (#[trigger] blocks[k]).get("type"@) == Some(
                JsonV::Str("text"@),
            ),
        t.items.len() > 0,
    ensures
        ({
            let after = entry_read(t, entries, i, cwd, ids);
            &&& after.turns.len() == t.turns.len() + 1
            &&& after.turns.drop_last() == t.turns
            &&& after.turns.last().get("status"@) == Some(JsonV::Str("completed"@))
            &&& after.turns.last().get("items"@) == Some(JsonV::Arr(t.items))
            &&& entries[i].str_at("uuid"@) is Some ==> after.turns.last().get("id"@) == Some(
                JsonV::Str(ids[t.used as int]),
            ) && after.used == t.used + 1
            &&& forall|k: int|
                0 <= k < after.items.len() ==> (#[trigger] after.items[k]).str_at("type"@) == Some(
                    "userMessage"@,
                )
            &&& entries[i].str_at("uuid"@) matches Some(uuid) ==> forall|k: int|
                0 <= k < after.items.len() ==> (#[trigger] after.items[k]).str_at("id"@) == Some(
                    uuid,
                )
        }),
{
    let entry = entries[i];
    let blocks = entry.arr_at("blocks"@)->Some_0;
    assert(is_user_text(entry)) by {
        let k = choose|k: int|
            0 <= k < blocks.len() && (#[trigger] blocks[k]).get("type"@) == Some(
                JsonV::Str("text"@),
            );
        assert(has_type(blocks[k], "text"@));
    }
    assert(is_marker(entry) == interrupts(entry));
    let (id, t1) = match entry.str_at("uuid"@) {
        Some(uuid) => (uuid, t),
        None => (ids[t.used as int], TurnsV { used: t.used + 1, ..t }),
    };
    past_turn_is_found(ids[t1.used as int], t.items, "completed"@);
    let after = entry_read(t, entries, i, cwd, ids);
    assert(after.turns.drop_last() =~= t.turns);
    let output = tool_output(entries, i);
    assert(after.items =~= block_items(kind_of(entry), blocks, output, id, cwd));
    lemma_user_items(blocks, output, id, cwd);
}

proof fn lemma_user_items(blocks: Seq<JsonV>, output: Seq<char>, id: Seq<char>, cwd: Seq<char>)
    ensures
        forall|k: int|
            0 <= k < block_items("user"@, blocks, output, id, cwd).len() ==> {
                let item = #[trigger] block_items("user"@, blocks, output, id, cwd)[k];
                item.str_at("type"@) == Some("userMessage"@) && item.str_at("id"@) == Some(id)
            },
    decreases blocks.len(),
{
    if blocks.len() > 0 {
        lemma_user_items(blocks.drop_last(), output, id, cwd);
        user_text_is_found(id, blocks.last().str_or("text"@, ""@));
    }
}

/// An interruption ends the turn as interrupted, and shows nothing of itself.
pub proof fn marker_ends_the_turn(
    t: TurnsV,
    entries: Seq<JsonV>,
    i: int,
    cwd: Seq<char>,
    ids: Seq<Seq<char>>,
)
    requires
        0 <= i < entries.len(),
        is_marker(entries[i]),
    ensures
        ({
            let after = entry_read(t, entries, i, cwd, ids);
            &&& after.items.len() == 0
            &&& t.items.len() == 0 ==> after.turns == t.turns
            &&& t.items.len() > 0 ==> {
                &&& after.turns.len() == t.turns.len() + 1
                &&& after.turns.drop_last() == t.turns
                &&& after.turns.last().get("status"@) == Some(JsonV::Str("interrupted"@))
                &&& after.turns.last().get("items"@) == Some(JsonV::Arr(t.items))
                &&& after.turns.last().get("id"@) == Some(JsonV::Str(ids[t.used as int]))
                &&& after.used == t.used + 1
            }
        }),
{
    reveal_strlit("user");
    reveal_strlit("");
    assert("user"@.len() == 4);
    assert(is_marker(entries[i]) == interrupts(entries[i]));
    past_turn_is_found(ids[t.used as int], t.items, "interrupted"@);
    let after = entry_read(t, entries, i, cwd, ids);
    if t.items.len() > 0 {
        assert(after.turns.drop_last() =~= t.turns);
    }
}

/// Any other entry goes on with the turn.
pub proof fn answers_go_on_with_the_turn(
    t: TurnsV,
    entries: Seq<JsonV>,
    i: int,
    cwd: Seq<char>,
    ids: Seq<Seq<char>>,
)
    requires
        0 <= i < entries.len(),
        entries[i].get("kind"@) == Some(JsonV::Str("assistant"@)),
    ensures
        ({
            let after = entry_read(t, entries, i, cwd, ids);
            &&& after.turns == t.turns
            &&& after.items.len() >= t.items.len()
            &&& after.items.take(t.items.len() as int) == t.items
            &&& entries[i].str_at("uuid"@) matches Some(uuid) ==> after.used == t.used && forall|
                k: int,
            |
                t.items.len() <= k < after.items.len() ==> (#[trigger] after.items[k]).str_at(
                    "id"@,
                ) == Some(uuid)
            &&& entries[i].str_at("uuid"@) is None ==> after.used == t.used + 1 && forall|k: int|
                t.items.len() <= k < after.items.len() ==> (#[trigger] after.items[k]).str_at(
                    "id"@,
                ) == Some(ids[t.used as int])
        }),
{
    reveal_strlit("user");
    reveal_strlit("assistant");
    reveal_strlit("");
    assert("user"@.len() == 4);
    assert("assistant"@.len() == 9);
    assert(""@.len() == 0);
    let after = entry_read(t, entries, i, cwd, ids);
    assert(after.items.take(t.items.len() as int) =~= t.items);
    let entry = entries[i];
    let id = match entry.str_at("uuid"@) {
        Some(uuid) => uuid,
        None => ids[t.used as int],
    };
    match entry.arr_at("blocks"@) {
        Some(blocks) => {
            let output = tool_output(entries, i);
            let more = block_items(kind_of(entry), blocks, output, id, cwd);
            blocks_are_read_in_order(kind_of(entry), blocks, output, id, cwd);
            assert forall|k: int| t.items.len() <= k < after.items.len() implies (
            #[trigger] after.items[k]).str_at("id"@) == Some(id) by {
                let j = k - t.items.len();
                assert(after.items[k] == more[j]);
                assert(reads(more[j], id, marks_of(kind_of(entry), blocks, output, cwd)[j]));
            }
        },
        None => {},
    }
}

/// Results of tools, which come in the name of the user, go on with the turn too, and show nothing.
pub proof fn results_go_on_with_the_turn(
    t: TurnsV,
    entries: Seq<JsonV>,
    i: int,
    cwd: Seq<char>,
    ids: Seq<Seq<char>>,
)
    requires
        0 <= i < entries.len(),
        entries[i].get("kind"@) == Some(JsonV::Str("user"@)),
        !is_marker(entries[i]),
        entries[i].get("blocks"@) matches Some(JsonV::Arr(blocks)) && forall|k: int|
            0 <= k < blocks.len() ==> (#[trigger] blocks[k]).get("type"@) == Some(
                JsonV::Str("tool_result"@),
            ),
    ensures
        entry_read(t, entries, i, cwd, ids).turns == t.turns,
        entry_read(t, entries, i, cwd, ids).items == t.items,
{
    reveal_strlit("user");
    reveal_strlit("text");
    reveal_strlit("tool_result");
    reveal_strlit("");
    assert("user"@.len() == 4);
    assert("text"@.len() == 4);
    assert("tool_result"@.len() == 11);
    assert(""@.len() == 0);
    assert("text"@[0] == 't');
    assert("user"@[0] == 'u');
    let entry = entries[i];
    let blocks = entry.arr_at("blocks"@)->Some_0;
    assert forall|k: int| 0 <= k < blocks.len() implies !has_type(#[trigger] blocks[k], "text"@) by {
        assert(blocks[k].get("type"@) == Some(JsonV::Str("tool_result"@)));
    }
    assert(!is_user_text(entry));
    assert(is_marker(entry) == interrupts(entry));
    let id = match entry.str_at("uuid"@) {
        Some(uuid) => uuid,
        None => ids[t.used as int],
    };
    lemma_no_items(blocks, tool_output(entries, i), id, cwd);
    assert(entry_read(t, entries, i, cwd, ids).items =~= t.items);
}

proof fn lemma_no_items(blocks: Seq<JsonV>, output: Seq<char>, id: Seq<char>, cwd: Seq<char>)
    requires
        forall|k: int|
            0 <= k < blocks.len() ==> (#[trigger] blocks[k]).get("type"@) == Some(
                JsonV::Str("tool_result"@),
            ),
    ensures
        block_items("user"@, blocks, output, id, cwd).len() == 0,
    decreases blocks.len(),
{
    if blocks.len() > 0 {
        reveal_strlit("text");
        reveal_strlit("tool_result");
        assert("text"@.len() == 4);
        assert("tool_result"@.len() == 11);
        assert(blocks[blocks.len() - 1].get("type"@) == Some(JsonV::Str("tool_result"@)));
        let init = blocks.drop_last();
        assert forall|k: int| 0 <= k < init.len() implies (#[trigger] init[k]).get("type"@) == Some(
            JsonV::Str("tool_result"@),
        ) by {
            assert(init[k] == blocks[k]);
        }
        lemma_no_items(init, output, id, cwd);
    }
}

/// The last turn ends as completed where nothing else has ended it, and no turn is empty.
pub proof fn last_turn_is_completed(entries: Seq<JsonV>, home: Seq<char>, ids: Seq<Seq<char>>)
    ensures
        ({
            let t = entries_read(entries, entries.len(), home + "/pane/solver"@, ids);
            let turns = past_turns(entries, home, ids);
            &&& t.items.len() == 0 ==> turns == t.turns
            &&& t.items.len() > 0 ==> turns.len() == t.turns.len() + 1 && turns.last().get("id"@)
                == Some(JsonV::Str(ids[t.used as int])) && turns.last().get(
                "status"@,
            ) == Some(JsonV::Str("completed"@)) && turns.last().get("items"@) == Some(
                JsonV::Arr(t.items),
            )
        }),
{
    let t = entries_read(entries, entries.len(), home + "/pane/solver"@, ids);
    past_turn_is_found(ids[t.used as int], t.items, "completed"@);
}

} // verus!

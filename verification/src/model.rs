//! Conversation entries as they are shown, made from those of the wire.

use vstd::prelude::*;

use crate::chars::{opt_text, same};
use crate::json::Json;

verus! {

// ---------------------------------------------------------------------------
// On the wire

#[derive(Debug)]
pub struct WireEntry {
    pub kind: String,
    pub blocks: Vec<WireBlock>,
    pub uuid: Option<String>,
    pub seq: Option<u64>,
    pub timestamp: Option<String>,
    pub input_tokens: Option<u64>,
    pub output_tokens: Option<u64>,
}

#[derive(Debug)]
pub enum WireBlock {
    Thinking { text: String },
    Text { text: String },
    ToolUse { name: String, input_summary: String, input: Option<Json> },
    ToolResult { content: String, is_error: bool },
}

// ---------------------------------------------------------------------------
// As shown

#[derive(Debug)]
pub enum ContentBlock {
    Thinking { text: String },
    Text { text: String },
    ToolUse { name: String, input_summary: String },
    ToolResult { content: String, is_error: bool, collapsed: bool },
}

pub enum BlockV {
    Thinking { text: Seq<char> },
    Text { text: Seq<char> },
    ToolUse { name: Seq<char>, input_summary: Seq<char> },
    ToolResult { content: Seq<char>, is_error: bool, collapsed: bool },
}

impl View for ContentBlock {
    type V = BlockV;

    open spec fn view(&self) -> BlockV {
        match self {
            ContentBlock::Thinking { text } => BlockV::Thinking { text: text@ },
            ContentBlock::Text { text } => BlockV::Text { text: text@ },
            ContentBlock::ToolUse { name, input_summary } => BlockV::ToolUse {
                name: name@,
                input_summary: input_summary@,
            },
            ContentBlock::ToolResult { content, is_error, collapsed } => BlockV::ToolResult {
                content: content@,
                is_error: *is_error,
                collapsed: *collapsed,
            },
        }
    }
}

pub open spec fn blocks_view(blocks: Seq<ContentBlock>) -> Seq<BlockV> {
    Seq::new(blocks.len(), |i: int| blocks[i]@)
}

#[derive(Clone, Copy, Debug, PartialEq, Eq, Structural)]
pub enum EntryKind {
    User,
    Assistant,
}

#[derive(Debug)]
pub struct ConversationEntry {
    pub kind: EntryKind,
    pub blocks: Vec<ContentBlock>,
    pub uuid: Option<String>,
    pub seq: Option<u64>,
    pub timestamp: Option<String>,
    pub input_tokens: Option<u64>,
    pub output_tokens: Option<u64>,
}

/// A block as it is shown at first: a tool's result is folded up.
pub open spec fn shown_block(block: WireBlock) -> BlockV {
    match block {
        WireBlock::Thinking { text } => BlockV::Thinking { text: text@ },
        WireBlock::Text { text } => BlockV::Text { text: text@ },
        WireBlock::ToolUse { name, input_summary, .. } => BlockV::ToolUse {
            name: name@,
            input_summary: input_summary@,
        },
        WireBlock::ToolResult { content, is_error } => BlockV::ToolResult {
            content: content@,
            is_error,
            collapsed: true,
        },
    }
}

pub open spec fn shown_blocks(blocks: Seq<WireBlock>) -> Seq<BlockV> {
    Seq::new(blocks.len(), |i: int| shown_block(blocks[i]))
}

pub open spec fn entry_kind(kind: Seq<char>) -> Option<EntryKind> {
    if kind == "user"@ {
        Some(EntryKind::User)
    } else if kind == "assistant"@ {
        Some(EntryKind::Assistant)
    } else {
        None
    }
}

/// An entry is shown where it comes from the user or the assistant and has any blocks.
pub open spec fn is_shown(wire: WireEntry) -> bool {
    entry_kind(wire.kind@) is Some && wire.blocks@.len() > 0
}

impl ConversationEntry {
    pub open spec fn shows(&self, wire: WireEntry) -> bool {
        &&& Some(self.kind) == entry_kind(wire.kind@)
        &&& blocks_view(self.blocks@) == shown_blocks(wire.blocks@)
        &&& opt_text(self.uuid) == opt_text(wire.uuid)
        &&& self.seq == wire.seq
        &&& opt_text(self.timestamp) == opt_text(wire.timestamp)
        &&& self.input_tokens == wire.input_tokens
        &&& self.output_tokens == wire.output_tokens
    }

    /// Makes an entry to show out of one of the wire.
    pub fn from_value(wire: WireEntry) -> (out: Option<Self>)
        ensures
            out is Some == is_shown(wire),
            out matches Some(entry) ==> entry.shows(wire),
    {
        let kind = if same(wire.kind.as_str(), "user") {
            EntryKind::User
        } else if same(wire.kind.as_str(), "assistant") {
            EntryKind::Assistant
        } else {
            return None;
        };
        let ghost all = wire.blocks@;
        let mut blocks: Vec<ContentBlock> = Vec::new();
        assert(blocks_view(blocks@) =~= shown_blocks(all).take(0));
        for block in it: wire.blocks
            invariant
                it.seq() == all,
                blocks_view(blocks@) == shown_blocks(all).take(it.index() as int),
        {
            let ghost k = it.index() as int;
            let shown = match block {
                WireBlock::Thinking { text } => ContentBlock::Thinking { text },
                WireBlock::Text { text } => ContentBlock::Text { text },
                WireBlock::ToolUse { name, input_summary, .. } => ContentBlock::ToolUse {
                    name,
                    input_summary,
                },
                WireBlock::ToolResult { content, is_error } => ContentBlock::ToolResult {
                    content,
                    is_error,
                    collapsed: true,
                },
            };
            let ghost before = blocks@;
            blocks.push(shown);
            proof {
                assert(shown@ == shown_block(all[k]));
                assert(blocks_view(blocks@) =~= blocks_view(before).push(shown@));
                assert(shown_blocks(all).take(k + 1) =~= shown_blocks(all).take(k).push(
                    shown_block(all[k]),
                ));
            }
        }
        assert(shown_blocks(all).take(all.len() as int) =~= shown_blocks(all));
        assert(blocks_view(blocks@).len() == all.len());
        if blocks.len() == 0 {
            return None;
        }
        Some(
            ConversationEntry {
                kind,
                blocks,
                uuid: wire.uuid,
                seq: wire.seq,
                timestamp: wire.timestamp,
                input_tokens: wire.input_tokens,
                output_tokens: wire.output_tokens,
            },
        )
    }
}

} // verus!

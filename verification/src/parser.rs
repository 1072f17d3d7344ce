//! The entries of a session's own transcript, as they stand in its lines.

use vstd::prelude::*;

use crate::json::Json;

verus! {

#[derive(Debug)]
pub enum Entry {
    User(UserEntry),
    Assistant(AssistantEntry),
    System(SystemEntry),
    Progress(ProgressEntry),
    Summary(SummaryEntry),
    FileHistorySnapshot(FileHistorySnapshotEntry),
    QueueOperation(QueueOperationEntry),
    CustomTitle(CustomTitleEntry),
    Unknown,
}

#[derive(Debug)]
pub struct UserEntry {
    pub message: UserMessage,
    pub uuid: Option<String>,
    pub timestamp: Option<String>,
    pub parent_uuid: Option<String>,
    pub is_sidechain: bool,
    pub session_id: Option<String>,
}

#[derive(Debug)]
pub struct UserMessage {
    pub role: String,
    pub content: UserContent,
}

#[derive(Debug)]
pub enum UserContent {
    Text(String),
    Blocks(Vec<UserContentBlock>),
}

#[derive(Debug)]
pub enum UserContentBlock {
    ToolResult(ToolResultBlock),
    Text(TextBlock),
    Unknown,
}

#[derive(Debug)]
pub struct ToolResultBlock {
    pub tool_use_id: Option<String>,
    pub content: Option<ToolResultContent>,
    pub is_error: bool,
}

#[derive(Debug)]
pub enum ToolResultContent {
    Text(String),
    Blocks(Vec<Json>),
}

#[derive(Debug)]
pub struct AssistantEntry {
    pub message: AssistantMessage,
    pub uuid: Option<String>,
    pub timestamp: Option<String>,
    pub parent_uuid: Option<String>,
    pub is_sidechain: bool,
    pub session_id: Option<String>,
}

#[derive(Debug)]
pub struct AssistantMessage {
    pub role: Option<String>,
    pub content: Vec<AssistantContentBlock>,
    pub model: Option<String>,
    pub stop_reason: Option<String>,
    pub usage: Option<Usage>,
}

#[derive(Debug)]
pub struct Usage {
    pub input_tokens: Option<u64>,
    pub output_tokens: Option<u64>,
    pub cache_read_input_tokens: Option<u64>,
    pub cache_creation_input_tokens: Option<u64>,
}

#[derive(Debug)]
pub enum AssistantContentBlock {
    Thinking(ThinkingBlock),
    Text(TextBlock),
    ToolUse(ToolUseBlock),
    Unknown,
}

#[derive(Debug)]
pub struct ThinkingBlock {
    pub thinking: String,
    pub signature: Option<String>,
}

#[derive(Debug)]
pub struct TextBlock {
    pub text: String,
}

#[derive(Debug)]
pub struct ToolUseBlock {
    pub id: Option<String>,
    pub name: String,
    pub input: Json,
}

#[derive(Debug)]
pub struct SystemEntry {
    pub subtype: Option<String>,
    pub extra: Json,
}

#[derive(Debug)]
pub struct ProgressEntry {
    pub extra: Json,
}

#[derive(Debug)]
pub struct SummaryEntry {
    pub summary: Option<String>,
    pub leaf_uuid: Option<String>,
}

#[derive(Debug)]
pub struct FileHistorySnapshotEntry {
    pub extra: Json,
}

#[derive(Debug)]
pub struct QueueOperationEntry {
    pub extra: Json,
}

#[derive(Debug)]
pub struct CustomTitleEntry {
    pub custom_title: Option<String>,
    pub session_id: Option<String>,
}

} // verus!

//! The conversation-state record whose shape is tracked, and the records it
//! is made of.
//!
//! These types mirror the record of the application that owns it and are kept
//! in step with it by hand. Instants are held as [`Timestamp`]s and free-form
//! JSON as [`JsonValue`]s.

use std::collections::{HashMap, VecDeque};
use vstd::prelude::*;
use crate::json::JsonValue;
use crate::timestamp::Timestamp;

verus! {

/// The state of one conversation.
#[derive(Debug, Clone)]
pub struct ConversationState {
    /// Unique identifier for this conversation
    pub conversation_id: String,
    /// Next message to be processed (if any)
    pub next_message: Option<UserMessage>,
    /// History of conversation turns
    pub history: VecDeque<HistoryEntry>,
    /// Valid range for history indexing
    pub valid_history_range: [usize; 2],
    /// Full conversation transcript
    pub transcript: Vec<TranscriptEntry>,
    /// Available tools organized by origin
    pub tools: HashMap<ToolOrigin, Vec<Tool>>,
    /// Context manager for file/resource context
    pub context_manager: Option<ContextManager>,
    /// Length of context messages
    pub context_message_length: Option<usize>,
    /// Latest conversation summary with metadata
    pub latest_summary: Option<(String, RequestMetadata)>,
    /// Model configuration
    pub model: Option<String>,
    /// Detailed model information
    pub model_info: Option<ModelInfo>,
    /// File line tracking for modifications
    pub file_line_tracker: HashMap<String, FileLineTracker>,
}

/// One turn of a conversation: what the user said and what was answered.
#[derive(Debug, Clone)]
pub struct HistoryEntry {
    pub user: UserMessage,
    pub assistant: AssistantMessage,
    pub request_metadata: Option<RequestMetadata>,
}

/// A message of the user, with the surroundings it was written in.
#[derive(Debug, Clone)]
pub struct UserMessage {
    pub additional_context: String,
    pub env_context: UserEnvContext,
    pub timestamp: Option<Timestamp>,
    pub images: Option<Vec<ImageBlock>>,
}

/// An answer, as a list of blocks.
#[derive(Debug, Clone)]
pub struct AssistantMessage {
    pub message_id: String,
    pub content: Vec<ContentBlock>,
}

/// Where the user was working when a message was written.
#[derive(Debug, Clone)]
pub struct UserEnvContext {
    pub operating_system: String,
    pub architecture: String,
    pub current_directory: String,
    pub env_state: Option<EnvState>,
}

/// One block of an answer: text, the use of a tool, or a tool's result.
#[derive(Debug, Clone)]
pub struct ContentBlock {
    pub content_type: String,
    pub text: Option<String>,
    pub tool_use: Option<ToolUse>,
    pub tool_result: Option<ToolResult>,
}

/// A call of a tool, with its input as free-form JSON.
#[derive(Debug, Clone)]
pub struct ToolUse {
    pub tool_use_id: String,
    pub name: String,
    pub input: JsonValue,
}

/// What a tool gave back.
#[derive(Debug, Clone)]
pub struct ToolResult {
    pub tool_use_id: String,
    pub content: String,
    pub status: ToolResultStatus,
}

/// How a call of a tool ended.
#[derive(Debug, Clone)]
pub enum ToolResultStatus {
    Success,
    Error,
}

/// One line of the transcript.
#[derive(Debug, Clone)]
pub struct TranscriptEntry {
    pub role: String,
    pub content: String,
    pub timestamp: Timestamp,
}

/// Where a tool comes from.
#[derive(Debug, Clone, PartialEq, Eq, Hash)]
pub enum ToolOrigin {
    Native,
    McpServer(String),
}

/// A tool that the conversation can call, with the schema of its input.
#[derive(Debug, Clone)]
pub struct Tool {
    pub name: String,
    pub description: String,
    pub input_schema: JsonValue,
    pub tool_origin: ToolOrigin,
}

/// The files and resources that give a conversation its context.
#[derive(Debug, Clone)]
pub struct ContextManager {
    pub current_profile: String,
    pub paths: Vec<String>,
}

/// What is recorded of one request.
#[derive(Debug, Clone)]
pub struct RequestMetadata {
    pub request_id: Option<String>,
    pub message_id: String,
    pub conversation_id: String,
    pub response_size: usize,
    pub chat_conversation_type: Option<ChatConversationType>,
    pub tool_use_ids_and_names: Vec<(String, String)>,
    pub model_id: Option<String>,
    pub message_meta_tags: Vec<MessageMetaTag>,
}

/// The model that answers.
#[derive(Debug, Clone)]
pub struct ModelInfo {
    pub model_id: String,
    pub model_name: String,
}

/// Line counts of one file, by who added the lines.
#[derive(Debug, Clone)]
pub struct FileLineTracker {
    pub last_line_count: usize,
    pub user_lines_added: usize,
    pub agent_lines_added: usize,
}

/// An image that came with a message.
#[derive(Debug, Clone)]
pub struct ImageBlock {
    pub image_type: String,
    pub data: String,
}

/// The environment variables at the time of a message.
#[derive(Debug, Clone)]
pub struct EnvState {
    pub variables: HashMap<String, String>,
}

/// Whether a turn used a tool.
#[derive(Debug, Copy, Clone)]
pub enum ChatConversationType {
    NotToolUse,
    ToolUse,
}

/// A tag on a message.
#[derive(Debug, Copy, Clone)]
pub enum MessageMetaTag {
    Compact,
}

/// The conversation state that serves as the example for structural analysis:
/// a named conversation with nothing in it yet.
pub fn create_test_conversation_state() -> (state: ConversationState)
    ensures
        state.conversation_id@ == "schema_analysis_test"@,
        state.next_message is None,
        state.history@ == Seq::<HistoryEntry>::empty(),
        state.valid_history_range@ == seq![0usize, 0usize],
        state.transcript@ == Seq::<TranscriptEntry>::empty(),
        state.tools@ == Map::<ToolOrigin, Vec<Tool>>::empty(),
        state.context_manager is None,
        state.context_message_length is None,
        state.latest_summary is None,
        state.model is None,
        state.model_info is None,
        state.file_line_tracker@ == Map::<String, FileLineTracker>::empty(),
{
    ConversationState {
        conversation_id: String::from_str("schema_analysis_test"),
        next_message: None,
        history: VecDeque::new(),
        valid_history_range: [0, 0],
        transcript: Vec::new(),
        tools: HashMap::new(),
        context_manager: None,
        context_message_length: None,
        latest_summary: None,
        model: None,
        model_info: None,
        file_line_tracker: HashMap::new(),
    }
}

} // verus!

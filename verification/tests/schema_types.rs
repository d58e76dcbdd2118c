use schema_tracker::error::SchemaError;
use schema_tracker::schema_types::{
    create_test_conversation_state, ChatConversationType, MessageMetaTag, ToolOrigin,
    ToolResultStatus,
};

#[test]
fn example_state_is_named_and_empty() {
    let state = create_test_conversation_state();
    assert_eq!(state.conversation_id, "schema_analysis_test");
    assert!(state.next_message.is_none());
    assert!(state.history.is_empty());
    assert_eq!(state.valid_history_range, [0, 0]);
    assert!(state.transcript.is_empty());
    assert!(state.tools.is_empty());
    assert!(state.context_manager.is_none());
    assert_eq!(state.context_message_length, None);
    assert!(state.latest_summary.is_none());
    assert_eq!(state.model, None);
    assert!(state.model_info.is_none());
    assert!(state.file_line_tracker.is_empty());
}

#[test]
fn tool_origins_can_key_a_map() {
    let mut state = create_test_conversation_state();
    state.tools.insert(ToolOrigin::Native, Vec::new());
    state.tools.insert(ToolOrigin::McpServer("files".to_string()), Vec::new());
    state.tools.insert(ToolOrigin::McpServer("files".to_string()), Vec::new());
    assert_eq!(state.tools.len(), 2);
    assert!(state.tools.contains_key(&ToolOrigin::Native));
    assert_ne!(ToolOrigin::Native, ToolOrigin::McpServer(String::new()));
}

#[test]
fn plain_variants_copy_and_print() {
    let kind = ChatConversationType::ToolUse;
    let copy = kind;
    assert_eq!(format!("{:?}", kind), "ToolUse");
    assert_eq!(format!("{:?}", copy), "ToolUse");
    assert_eq!(format!("{:?}", MessageMetaTag::Compact), "Compact");
    assert_eq!(format!("{:?}", ToolResultStatus::Success.clone()), "Success");
}

#[test]
fn errors_have_messages() {
    assert_eq!(SchemaError::RootNotObject.message(), "Expected object at root level");
    assert_eq!(SchemaError::InvalidTimestamp.message(), "Capture time is out of range");
    assert_eq!(SchemaError::Serialization.message(), "Failed to serialize the schema document");
}

use weave::chat::sending::build_weave_action_result;
use weave::chat::types::ControlSend;
use weave::client::{
    WeaveActionResult, WeaveAgent, WeaveMessageKind, WeaveMessageMetadata, WeaveTool,
};
use weave::envelope::{action_result_request, action_submit_request, reply_payload_with_ids};
use weave::incoming::build_incoming_messages;

fn metadata() -> WeaveMessageMetadata {
    WeaveMessageMetadata {
        conversation_id: " ctx ".to_string(),
        conversation_owner: "owner".to_string(),
        parent_message_id: Some("parent".to_string()),
        task_id: Some("task".to_string()),
    }
}

#[test]
fn a_reply_arrives() {
    let payload = reply_payload_with_ids(
        "g",
        "x",
        "b1",
        " done ",
        Some(&metadata()),
        Some(" action-1 "),
    );
    let request = action_submit_request("s1", "a1", 1, payload);
    let messages = build_incoming_messages(&request, "b1", "Bob");
    assert_eq!(messages.len(), 1);
    let message = &messages[0];
    assert_eq!(message.text, " done ");
    assert_eq!(message.kind, WeaveMessageKind::Reply);
    assert_eq!(message.src, "a1");
    assert_eq!(message.conversation_id, "ctx");
    assert_eq!(message.conversation_owner, "owner");
    assert_eq!(message.parent_message_id.as_deref(), Some("parent"));
    assert_eq!(message.task_id.as_deref(), Some("task"));
    assert_eq!(message.action_group_id.as_deref(), Some("g"));
    assert_eq!(message.action_id.as_deref(), Some("x"));
    assert_eq!(message.action_index, Some(0));
    assert_eq!(message.reply_to_action_id.as_deref(), Some("action-1"));
    assert!(message.has_conversation_metadata);
    assert!(build_incoming_messages(&request, "c1", "Cy").is_empty());
}

#[test]
fn a_command_arrives() {
    let send = ControlSend {
        agent: WeaveAgent {
            id: "b1".to_string(),
            name: None,
        },
        tool: WeaveTool::Review {
            instructions: Some(" the tests ".to_string()),
        },
        metadata: Some(metadata()),
    };
    let request = action_submit_request("s1", "a1", 1, send.payload_with_ids("g", "x"));
    let messages = build_incoming_messages(&request, "b1", "Bob");
    assert_eq!(messages.len(), 1);
    assert_eq!(
        messages[0].tool,
        Some(WeaveTool::Review {
            instructions: Some("the tests".to_string())
        })
    );
    assert_eq!(messages[0].action_id.as_deref(), Some("x"));
    assert_eq!(messages[0].conversation_id, "ctx");
    assert_eq!(messages[0].reply_to_action_id, None);
}

#[test]
fn a_result_arrives() {
    let result = build_weave_action_result(
        " g ",
        "x",
        2,
        "rejected",
        Some(" busy "),
        Some("ctx"),
        Some(" "),
    );
    let request = action_result_request("s1", "a1", 1, "b1", &result);
    let messages = build_incoming_messages(&request, "b1", "Bob");
    assert_eq!(messages.len(), 1);
    assert_eq!(
        messages[0].action_result,
        Some(WeaveActionResult {
            group_id: "g".to_string(),
            action_id: "x".to_string(),
            action_index: 2,
            status: "rejected".to_string(),
            detail: Some("busy".to_string()),
            new_context_id: Some("ctx".to_string()),
            new_task_id: None,
        })
    );
}

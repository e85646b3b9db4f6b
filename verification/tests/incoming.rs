use weave::client::{WeaveIncomingMessage, WeaveMessageKind, WeaveTool};
use weave::envelope::{WeaveAck, WeaveEnvelope};
use weave::incoming::{build_incoming_messages, build_message_ack_request};
use weave::json::{Json, JsonNumber};

fn base_envelope() -> WeaveEnvelope {
    WeaveEnvelope {
        v: 1,
        message_type: "message.send".to_string(),
        id: "msg-1".to_string(),
        ts: "2024-01-01T00:00:00Z".to_string(),
        src: "src-1".to_string(),
        dst: None,
        topic: None,
        session: Some("session-1".to_string()),
        seq: None,
        idempotency_key: None,
        corr: None,
        payload: None,
        payload_ref: None,
        content_type: None,
        size: None,
        meta: None,
        status: None,
        error: None,
        ack: None,
    }
}

fn text(value: &str) -> Json {
    Json::Text(value.to_string())
}

fn number(value: u64) -> Json {
    Json::Number(JsonNumber::Natural(value))
}

fn object(fields: Vec<(&str, Json)>) -> Json {
    Json::Object(
        fields
            .into_iter()
            .map(|(key, value)| (key.to_string(), value))
            .collect(),
    )
}

fn coordinator() -> Option<Json> {
    Some(object(vec![(
        "weave",
        object(vec![("origin_src_name", text("coordinator"))]),
    )]))
}

fn action_message() -> WeaveIncomingMessage {
    WeaveIncomingMessage {
        session_id: "session-1".to_string(),
        message_id: "msg-1".to_string(),
        src: "router".to_string(),
        src_name: Some("coordinator".to_string()),
        meta: coordinator(),
        text: String::new(),
        kind: WeaveMessageKind::User,
        conversation_id: "ctx-1".to_string(),
        conversation_owner: "owner-1".to_string(),
        parent_message_id: Some("parent-1".to_string()),
        task_id: Some("task-1".to_string()),
        tool: None,
        action_group_id: Some("group-1".to_string()),
        action_id: None,
        action_index: None,
        reply_to_action_id: None,
        action_result: None,
        task_update: None,
        task_done: None,
        defer_until_ready: false,
        has_conversation_metadata: true,
    }
}

#[test]
fn message_ack_requires_auto_inbox() {
    let mut envelope = base_envelope();
    envelope.src = "agent-2".to_string();
    envelope.topic = Some("agent.agent-1.inbox".to_string());
    envelope.ack = Some(WeaveAck {
        mode: Some("auto".to_string()),
        timeout_ms: None,
    });

    let ack = build_message_ack_request(&envelope, "agent-1", "agent-name", "session-1")
        .expect("expected ack request");
    assert_eq!(ack.message_type, "message.ack");
    assert_eq!(ack.src, "agent-1");
    assert_eq!(ack.session.as_deref(), Some("session-1"));
    assert_eq!(ack.corr.as_deref(), Some("msg-1"));

    envelope.ack = Some(WeaveAck {
        mode: Some("manual".to_string()),
        timeout_ms: None,
    });
    assert!(build_message_ack_request(&envelope, "agent-1", "agent-name", "session-1").is_none());
}

#[test]
fn action_submit_defers_messages_after_new_session() {
    let mut envelope = base_envelope();
    envelope.message_type = "action.submit".to_string();
    envelope.src = "router".to_string();
    envelope.meta = coordinator();
    envelope.payload = Some(object(vec![
        ("group_id", text("group-1")),
        ("task_id", text("task-1")),
        (
            "context",
            object(vec![
                ("context_id", text("ctx-1")),
                ("owner_id", text("owner-1")),
                ("parent_message_id", text("parent-1")),
            ]),
        ),
        (
            "actions",
            Json::Array(vec![
                object(vec![
                    ("type", text("message")),
                    ("dst", text("agent-1")),
                    ("text", text("before")),
                    ("action_id", text("action-1")),
                    ("action_index", number(0)),
                ]),
                object(vec![
                    ("type", text("control")),
                    ("dst", text("agent-1")),
                    ("command", text("new")),
                    ("action_id", text("action-2")),
                    ("action_index", number(1)),
                ]),
                object(vec![
                    ("type", text("message")),
                    ("dst", text("agent-1")),
                    ("text", text("after")),
                    ("action_id", text("action-3")),
                    ("action_index", number(2)),
                ]),
            ]),
        ),
    ]));

    let messages = build_incoming_messages(&envelope, "agent-1", "agent-name");
    let expected = vec![
        WeaveIncomingMessage {
            text: "before".to_string(),
            action_id: Some("action-1".to_string()),
            action_index: Some(0),
            ..action_message()
        },
        WeaveIncomingMessage {
            kind: WeaveMessageKind::Control,
            tool: Some(WeaveTool::NewSession),
            action_id: Some("action-2".to_string()),
            action_index: Some(1),
            ..action_message()
        },
        WeaveIncomingMessage {
            text: "after".to_string(),
            action_id: Some("action-3".to_string()),
            action_index: Some(2),
            defer_until_ready: true,
            ..action_message()
        },
    ];

    assert_eq!(messages, expected);
}

#[test]
fn message_payload_ref_does_not_override_empty_text() {
    let mut envelope = base_envelope();
    envelope.src = "agent-2".to_string();
    envelope.dst = Some("agent-1".to_string());
    envelope.payload_ref = Some("blob-1".to_string());
    envelope.payload = Some(object(vec![("text", text(""))]));

    let messages = build_incoming_messages(&envelope, "agent-1", "agent-name");
    let expected = vec![WeaveIncomingMessage {
        session_id: "session-1".to_string(),
        message_id: "msg-1".to_string(),
        src: "agent-2".to_string(),
        src_name: None,
        meta: None,
        text: String::new(),
        kind: WeaveMessageKind::User,
        conversation_id: "msg-1".to_string(),
        conversation_owner: "agent-2".to_string(),
        parent_message_id: None,
        task_id: None,
        tool: None,
        action_group_id: None,
        action_id: None,
        action_index: None,
        reply_to_action_id: None,
        action_result: None,
        task_update: None,
        task_done: None,
        defer_until_ready: false,
        has_conversation_metadata: false,
    }];

    assert_eq!(messages, expected);
}

#[test]
fn own_messages_bring_nothing() {
    let mut envelope = base_envelope();
    envelope.src = "agent-1".to_string();
    envelope.dst = Some("agent-1".to_string());
    envelope.payload = Some(object(vec![("text", text("hello"))]));
    assert!(build_incoming_messages(&envelope, "agent-1", "agent-name").is_empty());
}

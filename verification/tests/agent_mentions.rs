use weave::agent_mentions::{
    build_agent_mention_instructions, ContentItem, ResponseItem, ThreadId, UserInput,
};

fn thread(id: &str) -> ThreadId {
    ThreadId {
        text: id.to_string(),
    }
}

#[test]
fn builds_instructions_for_mentions() {
    let first = "00000000-0000-0000-0000-000000000001";
    let second = "00000000-0000-0000-0000-000000000002";
    let inputs = vec![
        UserInput::Text {
            text: "hello".to_string(),
        },
        UserInput::AgentMention {
            alias: "Writer".to_string(),
            thread_id: thread(first),
        },
        UserInput::AgentMention {
            alias: "Writer".to_string(),
            thread_id: thread(first),
        },
        UserInput::AgentMention {
            alias: "Critic".to_string(),
            thread_id: thread(second),
        },
    ];

    let item = build_agent_mention_instructions(&inputs).expect("instructions");
    let ResponseItem::Message { role, content, .. } = item;
    assert_eq!(role, "developer");
    let [ContentItem::InputText { text }] = content.as_slice() else {
        panic!("expected single InputText content item");
    };
    let expected = "\
<agent_mentions>
Use send_input as needed to satisfy the user's instructions for the following agent thread IDs:
- 00000000-0000-0000-0000-000000000001 (alias: Writer)
- 00000000-0000-0000-0000-000000000002 (alias: Critic)
You may send multiple messages to the same ID if the prompt requires it. Do not spawn agents to satisfy these mentions. If send_input fails, report the error.
</agent_mentions>";
    assert_eq!(text, expected);
}

#[test]
fn skips_when_no_mentions() {
    let inputs = vec![UserInput::Text {
        text: "hello".to_string(),
    }];
    assert!(build_agent_mention_instructions(&inputs).is_none());
}

use weave::client::{WeaveAgent, WeaveMessageKind, WeaveTool};
use weave::mentions::{
    find_skill_mentions, find_weave_mentions, normalize_weave_relay_target,
    parse_weave_control_actions, resolve_weave_relay_targets, weave_mention_token,
    weave_mention_tokens, MentionLookup, Skill,
};
use weave::prompts::{
    build_weave_relay_prompt, extract_weave_relay_control_tokens, format_batched_weave_replies,
    format_weave_prompt, should_request_weave_plan, weave_agent_label, weave_target_labels,
    WeavePromptContext,
};

fn agent(id: &str, name: &str) -> WeaveAgent {
    WeaveAgent {
        id: id.to_string(),
        name: Some(name.to_string()),
    }
}

fn team() -> Vec<WeaveAgent> {
    vec![agent("a1", "Ann"), agent("b1", "Bob"), agent("c1", "Cy Lee")]
}

fn ids(agents: &[WeaveAgent]) -> Vec<&str> {
    agents.iter().map(|agent| agent.id.as_str()).collect()
}

#[test]
fn agents_of_one_name_go_by_their_ids() {
    let agents = vec![agent("a1", "Ann"), agent("a2", "Ann"), agent("b1", "Bob")];
    assert_eq!(weave_mention_token(&agents, &agents[0]), "a1");
    assert_eq!(weave_mention_token(&agents, &agents[2]), "Bob");
    assert_eq!(weave_mention_tokens(&agents), vec!["a1", "a2", "Bob"]);
    let lookup = MentionLookup::new(&agents);
    assert_eq!(lookup.get("Bob").map(|agent| agent.id.as_str()), Some("b1"));
    assert!(lookup.get("Ann").is_none());
}

#[test]
fn mentions_are_words_with_a_mark() {
    let agents = team();
    assert_eq!(
        ids(&find_weave_mentions("hi #Bob and #Ann #Bob #Ann,", &agents, Some("me"))),
        vec!["b1", "a1"]
    );
    assert!(find_weave_mentions("hi Bob x#Bob", &agents, None).is_empty());
}

#[test]
fn an_agent_can_be_mentioned_by_its_id() {
    let alex = vec![agent("a1", "alex")];
    assert_eq!(ids(&find_weave_mentions("#a1 please help", &alex, None)), vec!["a1"]);
    let agents = team();
    assert_eq!(
        ids(&find_weave_mentions("#c1 #b1 #Bob #a1", &agents, Some("a1"))),
        vec!["c1", "b1"]
    );
    let (actions, left) = parse_weave_control_actions("#b1 /compact", &agents, Some("a1"));
    assert_eq!(ids(&actions[0].targets), vec!["b1"]);
    assert_eq!(left, "");
}

#[test]
fn a_name_goes_before_an_id() {
    let agents = vec![agent("b1", "Bob"), agent("c1", "b1")];
    assert_eq!(ids(&find_weave_mentions("#b1", &agents, None)), vec!["c1"]);
}

#[test]
fn mentions_stand_in_the_order_of_the_first_ones() {
    let agents = team();
    assert_eq!(
        ids(&find_weave_mentions("#c1 #Ann #Bob #c1 #Ann", &agents, None)),
        vec!["c1", "a1", "b1"]
    );
}

#[test]
fn nobody_mentions_itself() {
    let agents = team();
    assert_eq!(
        ids(&find_weave_mentions("#Ann #Bob", &agents, Some("a1"))),
        vec!["b1"]
    );
}

#[test]
fn lines_of_commands_go_to_those_they_name() {
    let agents = team();
    let (actions, left) = parse_weave_control_actions("#Bob /new", &agents, Some("a1"));
    assert_eq!(actions.len(), 1);
    assert_eq!(actions[0].tool, WeaveTool::NewSession);
    assert_eq!(ids(&actions[0].targets), vec!["b1"]);
    assert_eq!(left, "");
}

#[test]
fn prose_commands_nothing() {
    let agents = team();
    let text = "#Bob please look at /new things";
    let (actions, left) = parse_weave_control_actions(text, &agents, Some("a1"));
    assert!(actions.is_empty());
    assert_eq!(left, text);
}

#[test]
fn labels_are_made_plain() {
    assert_eq!(normalize_weave_relay_target(" #B ob (b1) "), "Bob");
    assert_eq!(
        ids(&resolve_weave_relay_targets(
            &team(),
            &vec!["# Bob".to_string(), "nobody".to_string()]
        )),
        vec!["b1"]
    );
}

#[test]
fn skills_are_found_by_their_names() {
    let skills = vec![
        Skill {
            name: "lint".to_string(),
            path: "/s/lint".to_string(),
        },
        Skill {
            name: "test".to_string(),
            path: "/s/test".to_string(),
        },
        Skill {
            name: "lint".to_string(),
            path: "/other".to_string(),
        },
    ];
    let found = find_skill_mentions("run $lint now", &skills);
    assert_eq!(found.len(), 1);
    assert_eq!(found[0].path, "/s/lint");
}

#[test]
fn an_agent_is_shown_with_its_id() {
    assert_eq!(weave_agent_label(&agent("a1", "Ann")), "Ann (a1)");
    assert_eq!(weave_agent_label(&agent("a1", "a1")), "a1");
    assert_eq!(weave_agent_label(&agent("a1", " ")), "a1");
}

#[test]
fn targets_stand_in_the_order_of_their_ids() {
    let agents = Some(team());
    assert_eq!(
        weave_target_labels(&vec!["b1".to_string(), "a1".to_string()], &agents),
        "#Ann, #Bob"
    );
}

#[test]
fn replies_come_as_one_text() {
    let replies = vec![
        ("Bob".to_string(), "one\ntwo\n".to_string()),
        ("Cy".to_string(), "".to_string()),
    ];
    let text = format_batched_weave_replies(&replies);
    assert!(text.contains("#Bob: one\n  two"));
    assert!(text.contains("#Cy: <empty>"));
}

#[test]
fn a_plan_is_asked_for_by_words_and_lines() {
    assert!(should_request_weave_plan("try again, until it works"));
    assert!(should_request_weave_plan("(again)!"));
    assert!(!should_request_weave_plan("against"));
    assert!(!should_request_weave_plan("say hello"));
    assert!(!should_request_weave_plan("  "));
}

#[test]
fn lines_that_are_commands_are_taken_out() {
    let (tools, rest) = extract_weave_relay_control_tokens("/new\nhello\n/compact");
    assert_eq!(tools, vec![WeaveTool::NewSession, WeaveTool::Compact]);
    assert_eq!(rest, "hello");
    let (tools, rest) = extract_weave_relay_control_tokens("a\r\r\n /new \n\nb\n/review\r\n");
    assert_eq!(tools.len(), 2);
    assert!(extract_weave_relay_control_tokens(&rest).0.is_empty());
}

#[test]
fn the_relay_prompt_names_the_agents() {
    let prompt = build_weave_relay_prompt(&team(), true);
    assert!(prompt.contains("Bob"));
    assert!(prompt.contains("relay_actions"));
    assert_ne!(prompt, build_weave_relay_prompt(&team(), false));
}

#[test]
fn the_prompt_holds_the_message_and_who_sent_it() {
    let agents = team();
    let prompt = format_weave_prompt(&WeavePromptContext {
        self_name: "Ann",
        sender_name: "Bob",
        agents: Some(&agents),
        message: "please look",
        is_owner: false,
        task_targets: None,
        pending_replies: None,
        conversation_id: "ctx-1",
        conversation_owner: "b1",
        task_id: Some("task-1"),
        kind: WeaveMessageKind::User,
    });
    assert!(prompt.contains("please look"));
    assert!(prompt.contains("Bob"));
    assert!(prompt.contains("ctx-1"));
}

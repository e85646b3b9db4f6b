use weave::client::{WeaveAgent, WeaveMessageKind, WeaveMessageMetadata, WeaveSession, WeaveTool};
use weave::connection::{AgentConnectionState, ConnectionAction, ConnectionEvent};
use weave::envelope::{
    action_message_payload, action_result_payload, action_submit_request, agent_update_request,
    created_session, listed_agents, listed_sessions, next_seq, reply_payload,
    reply_payload_with_ids, response_error, session_list_request, WeaveEnvelope, WeaveErrorDetail,
};
use weave::json::{Json, JsonNumber};
use weave::limits::{get_limits_duration, LimitUse, RateLimitWarningState};
use weave::paths::{
    expand_home, missing_socket_message, resolve_home_dir, resolve_weave_home, socket_for_session,
    HomePath,
};
use weave::relay::{
    relay_object_text, strip_weave_json_fence, FunctionCallError, SessionOrigin,
    WeaveRelayDoneRequest, WeaveRelayHandler, WeaveRelayToolResult,
};
use weave::sender::{AppEventSender, EventKind};

fn session(id: &str, name: Option<&str>) -> WeaveSession {
    WeaveSession {
        id: id.to_string(),
        name: name.map(str::to_string),
    }
}

fn agent(id: &str, name: Option<&str>) -> WeaveAgent {
    WeaveAgent {
        id: id.to_string(),
        name: name.map(str::to_string),
    }
}

fn answer(status: &str, corr: Option<&str>) -> WeaveEnvelope {
    let mut envelope = session_list_request();
    envelope.status = Some(status.to_string());
    envelope.corr = corr.map(str::to_string);
    envelope
}

fn field<'a>(value: &'a Json, name: &str) -> Option<&'a Json> {
    value.get(name)
}

#[test]
fn a_request_carries_a_random_id_and_the_time() {
    let first = session_list_request();
    let second = session_list_request();
    assert_eq!(first.message_type, "session.list");
    assert_eq!(first.id.len(), 36);
    assert_eq!(first.id.as_bytes()[14], b'4');
    assert_ne!(first.id, second.id);
    assert!(first.ts.ends_with('Z'));
    assert_eq!(first.ts.as_bytes()[10], b'T');
    assert!(first.ts.len() == 20 || (22..=30).contains(&first.ts.len()));
    for (i, c) in first.ts[..first.ts.len() - 1].char_indices() {
        match i {
            4 | 7 => assert_eq!(c, '-'),
            10 => assert_eq!(c, 'T'),
            13 | 16 => assert_eq!(c, ':'),
            19 => assert_eq!(c, '.'),
            _ => assert!(c.is_ascii_digit()),
        }
    }
    assert!(first.ts.as_str() > "2024-01-01T00:00:00Z");
}

#[test]
fn a_name_is_shown_if_it_is_not_blank() {
    assert_eq!(session("s1", Some("Team")).display_name(), "Team");
    assert_eq!(session("s1", Some("  ")).display_name(), "s1");
    assert_eq!(session("s1", None).display_name(), "s1");
    assert_eq!(agent("a1", Some("Ann Lee")).display_name(), "Ann Lee");
}

#[test]
fn a_mention_has_no_white_space() {
    assert_eq!(agent("a1", Some("Ann")).mention_text(), "Ann");
    assert_eq!(agent("a1", Some("Ann Lee")).mention_text(), "a1");
    assert_eq!(agent("a1", None).mention_text(), "a1");
}

#[test]
fn commands_are_read() {
    assert_eq!(WeaveTool::from_command("new", None), Some(WeaveTool::NewSession));
    assert_eq!(WeaveTool::from_command("compact", None), Some(WeaveTool::Compact));
    assert_eq!(WeaveTool::from_command("interrupt", None), Some(WeaveTool::Interrupt));
    assert_eq!(
        WeaveTool::from_command("review", Some(" look here ")),
        Some(WeaveTool::Review {
            instructions: Some("look here".to_string())
        })
    );
    assert_eq!(WeaveTool::from_command("dance", None), None);
}

#[test]
fn the_home_of_the_coordinator_is_found() {
    assert_eq!(expand_home("~"), HomePath::Home);
    assert_eq!(expand_home("~/x"), HomePath::UnderHome("x".to_string()));
    assert_eq!(expand_home("/x"), HomePath::Plain("/x".to_string()));
    assert_eq!(
        resolve_weave_home(None),
        Ok(HomePath::UnderHome(".weave".to_string()))
    );
    assert_eq!(
        resolve_weave_home(Some("  ")),
        Err("WEAVE_HOME is set but empty".to_string())
    );
    assert_eq!(
        resolve_weave_home(Some(" ~/w ")),
        Ok(HomePath::UnderHome("w".to_string()))
    );
    assert_eq!(
        resolve_home_dir(None, Some("/u".to_string())),
        Ok("/u".to_string())
    );
    assert!(resolve_home_dir::<String>(None, None).is_err());
}

#[test]
fn a_session_has_a_socket_of_its_own() {
    assert_eq!(
        socket_for_session("s1", true),
        vec!["sessions".to_string(), "s1".to_string(), "coord.sock".to_string()]
    );
    assert_eq!(socket_for_session("s1", false), vec!["coord.sock".to_string()]);
    assert_eq!(
        missing_socket_message("/w/coord.sock"),
        "Weave coordinator socket not found at /w/coord.sock. Start it with `weave-service start`."
    );
}

#[test]
fn an_answer_that_is_not_ok_is_an_error() {
    assert_eq!(response_error(&answer("ok", None)), None);
    let mut refused = answer("error", None);
    assert!(response_error(&refused).is_some());
    refused.error = Some(WeaveErrorDetail {
        code: "bad".to_string(),
        message: "no such session".to_string(),
        detail: None,
    });
    assert!(response_error(&refused)
        .expect("error")
        .contains("no such session"));
}

#[test]
fn a_created_session_is_known_by_its_id() {
    let mut created = answer("ok", None);
    created.session = None;
    assert_eq!(
        created_session(created, None),
        Err("Weave session.create response missing session id".to_string())
    );
    let mut created = answer("ok", None);
    created.session = Some("s1".to_string());
    assert_eq!(
        created_session(created, Some("Team".to_string())),
        Ok(session("s1", Some("Team")))
    );
}

#[test]
fn lists_hold_what_was_answered() {
    let sessions = listed_sessions(vec![("s1".to_string(), "Team".to_string())]);
    assert_eq!(sessions.len(), 1);
    assert_eq!(sessions[0].id, "s1");
    let agents = listed_agents(vec![
        ("a1".to_string(), Some("  Ann ".to_string())),
        ("a2".to_string(), Some("  ".to_string())),
    ]);
    assert_eq!(agents, vec![agent("a1", Some("Ann")), agent("a2", None)]);
}

#[test]
fn an_empty_name_is_refused() {
    assert_eq!(
        agent_update_request("s1", "a1", " ").err(),
        Some("Weave agent name is empty".to_string())
    );
    let request = agent_update_request("s1", "a1", " Ann ").expect("request");
    assert_eq!(request.message_type, "agent.update");
    assert_eq!(request.src, "a1");
}

#[test]
fn requests_are_numbered() {
    assert_eq!(next_seq(0), 1);
    assert_eq!(next_seq(u64::MAX), u64::MAX);
}

#[test]
fn the_group_keeps_a_request_from_being_acted_on_twice() {
    let payload = Json::Object(vec![(
        "group_id".to_string(),
        Json::Text("group-1".to_string()),
    )]);
    let request = action_submit_request("s1", "a1", 7, payload);
    assert_eq!(request.idempotency_key.as_deref(), Some("group-1"));
    assert_eq!(request.seq, Some(7));
    assert_eq!(request.session.as_deref(), Some("s1"));
}

#[test]
fn a_message_names_where_it_stands() {
    let payload = action_message_payload(
        "a2",
        "hello",
        "action-1",
        3,
        None,
        Some(WeaveMessageKind::Reply),
        Some("none"),
    );
    assert_eq!(payload.get_text("dst"), Some("a2"));
    assert_eq!(payload.get_text("text"), Some("hello"));
    assert_eq!(payload.get_natural("action_index"), Some(3));
    assert_eq!(payload.get_text("kind"), Some("reply"));
    assert_eq!(payload.get_text("reply_policy"), Some("none"));
}

#[test]
fn a_reply_goes_into_its_conversation() {
    let metadata = WeaveMessageMetadata {
        conversation_id: "ctx".to_string(),
        conversation_owner: "owner".to_string(),
        parent_message_id: None,
        task_id: Some("task".to_string()),
    };
    let payload =
        reply_payload_with_ids("g", "x", "a2", "done", Some(&metadata), Some("action-1"));
    assert_eq!(payload.get_text("group_id"), Some("g"));
    assert_eq!(payload.get_text("task_id"), Some("task"));
    let context = field(&payload, "context").expect("context");
    assert_eq!(context.get_text("context_id"), Some("ctx"));
    assert_eq!(context.get_text("owner_id"), Some("owner"));
    let actions = payload.get_array("actions").expect("actions");
    assert_eq!(actions.len(), 1);
    assert_eq!(actions[0].get_text("action_id"), Some("x"));
    assert_eq!(actions[0].get_text("reply_to_action_id"), Some("action-1"));
}

#[test]
fn a_reply_draws_its_ids() {
    let first = reply_payload("a2", "done", None, None);
    let second = reply_payload("a2", "done", None, None);
    assert_ne!(first.get_text("group_id"), second.get_text("group_id"));
}

#[test]
fn a_result_says_how_an_action_ended() {
    let result = weave::chat::sending::build_weave_action_result(
        "g", "x", 2, "rejected", Some("busy"), None, None,
    );
    let payload = action_result_payload(&result);
    assert_eq!(payload.get_text("group_id"), Some("g"));
    assert_eq!(payload.get_text("status"), Some("rejected"));
    assert_eq!(payload.get_text("detail"), Some("busy"));
    assert_eq!(payload.get_natural("action_index"), Some(2));
}

#[test]
fn the_first_field_of_a_name_counts() {
    let value = Json::Object(vec![
        ("n".to_string(), Json::Number(JsonNumber::Natural(1))),
        ("n".to_string(), Json::Number(JsonNumber::Natural(2))),
    ]);
    assert_eq!(value.get_natural("n"), Some(1));
    assert_eq!(value.get_natural("m"), None);
    assert_eq!(Json::Number(JsonNumber::Negative(-1)).as_natural(), None);
}

#[test]
fn an_answer_goes_to_the_one_who_waits() {
    let mut state = AgentConnectionState::new("s1".to_string(), "a1".to_string());
    state.step(ConnectionEvent::Request {
        id: "req-1".to_string(),
    });
    let actions = state.step(ConnectionEvent::Received {
        envelope: answer("ok", Some("req-1")),
        agent_name: "Ann".to_string(),
    });
    assert!(matches!(
        actions.as_slice(),
        [ConnectionAction::Answer { id, .. }] if id == "req-1"
    ));
    let actions = state.step(ConnectionEvent::Received {
        envelope: answer("ok", Some("req-1")),
        agent_name: "Ann".to_string(),
    });
    assert!(!actions
        .iter()
        .any(|action| matches!(action, ConnectionAction::Answer { .. })));
}

#[test]
fn a_connection_stops_when_it_is_closed() {
    let mut state = AgentConnectionState::new("s1".to_string(), "a1".to_string());
    let actions = state.step(ConnectionEvent::Closed);
    assert!(matches!(actions.last(), Some(ConnectionAction::Stop)));
    let mut state = AgentConnectionState::new("s1".to_string(), "a1".to_string());
    assert!(state.step(ConnectionEvent::Garbage).is_empty());
}

#[test]
fn a_fence_around_an_answer_is_taken_off() {
    assert_eq!(strip_weave_json_fence("```json\n{\"a\":1}\n```"), "{\"a\":1}");
    assert_eq!(strip_weave_json_fence(" {\"a\":1} "), "{\"a\":1}");
    assert_eq!(
        relay_object_text("```\n{\"a\":1}\n```"),
        Some("{\"a\":1}")
    );
    assert_eq!(relay_object_text("nothing"), None);
}

#[test]
fn fences_and_space_around_an_object_make_no_difference() {
    for answer in [
        "{\"a\":1}",
        " \n{\"a\":1}\t",
        "```{\"a\":1}```",
        " ```json {\"a\":1} \n``` ",
        "```JSON\n{\"a\":1}```\n",
    ] {
        assert_eq!(relay_object_text(answer), Some("{\"a\":1}"));
    }
}

#[test]
fn only_false_goes_on() {
    assert!(!WeaveRelayDoneRequest::Flag(false).is_requested());
    assert!(WeaveRelayDoneRequest::Flag(true).is_requested());
    let done = WeaveRelayDoneRequest::Summary {
        summary: Some(" all done ".to_string()),
    };
    assert!(done.is_requested());
    assert_eq!(done.summary(), Some("all done"));
}

#[test]
fn the_relay_tool_turns_some_calls_down() {
    let handler = WeaveRelayHandler;
    assert_eq!(
        handler.accept(None, SessionOrigin::Other, "cli"),
        Err(FunctionCallError::RespondToModel(
            "weave_relay_actions handler received unsupported payload".to_string()
        ))
    );
    assert_eq!(
        handler.accept(Some("{}".to_string()), SessionOrigin::Exec, "exec"),
        Err(FunctionCallError::RespondToModel(
            "weave_relay_actions is unsupported in exec sessions".to_string()
        ))
    );
    assert_eq!(
        handler.accept(Some("{}".to_string()), SessionOrigin::Other, "cli"),
        Ok("{}".to_string())
    );
    assert_eq!(
        handler.answered(None).err(),
        Some(FunctionCallError::RespondToModel(
            "weave relay was cancelled before receiving a response".to_string()
        ))
    );
}

#[test]
fn a_relay_succeeds_if_its_status_is_ok() {
    let handler = WeaveRelayHandler;
    let result = WeaveRelayToolResult {
        status: "ok".to_string(),
        detail: None,
    };
    let output = handler
        .output(&result, Ok("{}".to_string()))
        .expect("output");
    assert!(output.success);
    assert_eq!(
        handler.output(&result, Err("bad".to_string())).err(),
        Some(FunctionCallError::Fatal(
            "failed to serialize weave relay response: bad".to_string()
        ))
    );
}

#[test]
fn windows_have_names() {
    assert_eq!(get_limits_duration(300), "5h");
    assert_eq!(get_limits_duration(1), "1h");
    assert_eq!(get_limits_duration(-5), "1h");
    assert_eq!(get_limits_duration(1443), "24h");
    assert_eq!(get_limits_duration(10080), "weekly");
    assert_eq!(get_limits_duration(43200), "monthly");
    assert_eq!(get_limits_duration(525600), "annual");
}

fn used(passed: usize, capped: bool) -> Option<LimitUse> {
    Some(LimitUse {
        passed,
        capped,
        window_minutes: Some(300),
    })
}

#[test]
fn each_threshold_is_warned_of_once() {
    let mut state = RateLimitWarningState::new();
    let first = state.take_warnings(None, used(1, false));
    assert_eq!(first.len(), 1);
    assert!(first[0].contains("5h"));
    assert!(state.take_warnings(None, used(1, false)).is_empty());
    assert_eq!(state.take_warnings(None, used(3, false)).len(), 1);
    assert!(state.take_warnings(None, used(3, true)).is_empty());
}

#[test]
fn entries_carry_their_thread() {
    let mut sender = AppEventSender::new();
    assert_eq!(sender.send(EventKind::Entry).thread_id, Some(None));
    sender.set_thread_id("thread".to_string());
    assert_eq!(
        sender.send(EventKind::Entry).thread_id,
        Some(Some("thread".to_string()))
    );
    assert_eq!(sender.send(EventKind::Other).thread_id, None);
    assert!(!sender.send(EventKind::Operation).logged);
    assert_eq!(sender.scoped().send(EventKind::Entry).thread_id, Some(None));
}

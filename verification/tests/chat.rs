use weave::chat::keys::{diff_text, KeyCode, KeyInput, KeyOutcome, PaneState, QuitSettings};
use weave::chat::state::{pick_placeholder, ChatWidget};
use weave::chat::status::{extract_first_bold, skills_for_cwd, SkillsEntry};
use weave::chat::types::{
    ChatWidgetInit, CommandFacts, CreditsSnapshot, Effect, Elevation, ExecBegin, HistoryItem,
    InputItem, InterruptEvent, LimitsReport, Notification, NotificationSettings, OutboundLog,
    PaneRequest, QuitKey, RelayBody, RelayReply, RelayStep, RelayedAction, RelayedTarget,
    ReviewOutput, SessionConfigured, SlashCommand, TokenInfo,
    TurnAbortReason, TurnEvent, WeaveRelayAccepted,
};
use weave::client::{
    WeaveAgent, WeaveIncomingMessage, WeaveMessageKind, WeaveSession, WeaveTool,
};
use weave::json::Json;
use weave::limits::LimitUse;
use weave::mentions::Skill;
use weave::relay::WeaveRelayCommand;

fn init() -> ChatWidgetInit {
    ChatWidgetInit {
        model: Some("gpt-5".to_string()),
        initial_prompt: None,
        initial_images: vec![],
        is_first_run: false,
        collaboration_modes: false,
        hide_rate_limit_nudge: false,
        feedback_enabled: true,
        notifications: NotificationSettings::Enabled(true),
    }
}

fn configured() -> SessionConfigured {
    SessionConfigured {
        history_log_id: 1,
        history_entry_count: 0,
        session_id: "thread-1".to_string(),
        forked_from_id: None,
        rollout_path: "/r/log".to_string(),
        model: "gpt-5".to_string(),
        info: 9,
    }
}

fn configure(chat: &mut ChatWidget) {
    chat.on_session_configured(&configured());
    chat.on_session_replayed();
}

fn ready() -> ChatWidget {
    let mut chat = ChatWidget::new(init());
    configure(&mut chat);
    chat.take_outbox();
    chat
}

fn turns(effects: &[Effect]) -> Vec<String> {
    effects
        .iter()
        .filter_map(|effect| match effect {
            Effect::UserTurn { items, .. } => Some(
                items
                    .iter()
                    .filter_map(|item| match item {
                        InputItem::Text(text) => Some(text.as_str()),
                        _ => None,
                    })
                    .collect::<Vec<&str>>()
                    .join("|"),
            ),
            _ => None,
        })
        .collect()
}

fn errors(effects: &[Effect]) -> Vec<String> {
    effects
        .iter()
        .filter_map(|effect| match effect {
            Effect::History(HistoryItem::Error(message)) => Some(message.clone()),
            _ => None,
        })
        .collect()
}

fn agent(id: &str, name: &str) -> WeaveAgent {
    WeaveAgent {
        id: id.to_string(),
        name: Some(name.to_string()),
    }
}

fn team() -> WeaveSession {
    WeaveSession {
        id: "s1".to_string(),
        name: Some("Team".to_string()),
    }
}

fn in_session() -> (ChatWidget, String) {
    let mut chat = ChatWidget::new(init());
    let id = chat
        .take_outbox()
        .into_iter()
        .find_map(|effect| match effect {
            Effect::WeaveIdentity(id) => Some(id),
            _ => None,
        })
        .expect("identity");
    configure(&mut chat);
    chat.set_weave_session_selection(Some(team()));
    chat.on_weave_agent_connected("s1");
    let me = WeaveAgent {
        id: id.clone(),
        name: Some("Me".to_string()),
    };
    chat.apply_weave_agent_list("s1", vec![me, agent("b1", "Bob"), agent("c1", "Cy")]);
    chat.take_outbox();
    (chat, id)
}

fn message(src: &str, text: &str) -> WeaveIncomingMessage {
    WeaveIncomingMessage {
        session_id: "s1".to_string(),
        message_id: "m1".to_string(),
        src: src.to_string(),
        src_name: None,
        meta: None,
        text: text.to_string(),
        kind: WeaveMessageKind::User,
        conversation_id: "ctx-1".to_string(),
        conversation_owner: src.to_string(),
        parent_message_id: None,
        task_id: Some("task-1".to_string()),
        tool: None,
        action_group_id: Some("g1".to_string()),
        action_id: Some("x1".to_string()),
        action_index: Some(0),
        reply_to_action_id: None,
        action_result: None,
        task_update: None,
        task_done: None,
        defer_until_ready: false,
        has_conversation_metadata: true,
    }
}

fn press(code: KeyCode, control: bool, alt: bool) -> KeyInput {
    KeyInput {
        code,
        control,
        alt,
        others: false,
        pressed: true,
    }
}

const IDLE: PaneState = PaneState {
    composer_empty: true,
    popup_active: false,
    cancel_handled: false,
};

const TWICE: QuitSettings = QuitSettings {
    double_press: true,
    timeout_ms: 1000,
};

fn facts(name: &str, available: bool) -> CommandFacts {
    CommandFacts {
        name: name.to_string(),
        available_during_task: available,
        doc_name: "AGENTS.md".to_string(),
        doc_exists: true,
        init_prompt: "Write it".to_string(),
        has_tool_servers: false,
        elevation: Elevation::Unavailable,
        mode_known: false,
    }
}

#[test]
fn what_the_user_says_starts_a_turn() {
    let mut chat = ready();
    chat.on_submitted("hello".to_string(), vec!["/a.png".to_string()]);
    let effects = chat.take_outbox();
    assert_eq!(turns(&effects), vec!["hello"]);
    assert!(effects.iter().any(|effect| matches!(
        effect,
        Effect::UserTurn { items, .. } if items[0] == InputItem::Image("/a.png".to_string())
    )));
    assert!(effects.contains(&Effect::Remember("hello".to_string())));
    assert!(effects.contains(&Effect::History(HistoryItem::UserPrompt(
        "hello".to_string()
    ))));
    assert!(effects.contains(&Effect::SetStatus {
        header: "Working".to_string(),
        details: None
    }));
}

#[test]
fn a_line_for_the_shell_runs_there() {
    let mut chat = ready();
    chat.on_submitted("!ls -l".to_string(), vec![]);
    let effects = chat.take_outbox();
    assert!(effects.contains(&Effect::RunShell("ls -l".to_string())));
    assert!(turns(&effects).is_empty());
}

#[test]
fn the_first_prompt_waits_for_the_session() {
    let mut chat = ChatWidget::new(ChatWidgetInit {
        initial_prompt: Some("start".to_string()),
        ..init()
    });
    assert!(turns(&chat.take_outbox()).is_empty());
    configure(&mut chat);
    assert_eq!(turns(&chat.take_outbox()), vec!["start"]);
}

#[test]
fn what_waits_is_said_in_order() {
    let mut chat = ready();
    chat.handle_codex_event(TurnEvent::TurnStarted);
    chat.on_queued("one".to_string(), vec![]);
    chat.on_queued("two".to_string(), vec![]);
    let effects = chat.take_outbox();
    assert!(effects.contains(&Effect::QueuedMessages(vec![
        "one".to_string(),
        "two".to_string()
    ])));
    assert!(turns(&effects).is_empty());
    chat.handle_codex_event(TurnEvent::TurnComplete {
        last_message: None,
        reply: None,
    });
    assert_eq!(turns(&chat.take_outbox()), vec!["one"]);
}

#[test]
fn the_last_text_that_waits_can_be_edited() {
    let mut chat = ready();
    chat.handle_codex_event(TurnEvent::TurnStarted);
    chat.on_queued("one".to_string(), vec![]);
    chat.on_queued("two".to_string(), vec![]);
    chat.take_outbox();
    let outcome = chat.handle_key_event(press(KeyCode::Up, false, true), IDLE, TWICE, 0);
    assert_eq!(outcome, KeyOutcome::Done);
    let effects = chat.take_outbox();
    assert!(effects.contains(&Effect::ComposerText("two".to_string())));
    assert!(effects.contains(&Effect::QueuedMessages(vec!["one".to_string()])));
}

#[test]
fn the_pane_shows_that_a_turn_runs() {
    let mut chat = ready();
    assert!(!chat.is_task_running());
    chat.handle_codex_event(TurnEvent::TurnStarted);
    assert!(chat.is_task_running());
    chat.handle_codex_event(TurnEvent::TurnComplete {
        last_message: None,
        reply: None,
    });
    assert!(!chat.is_task_running());
}

#[test]
fn quitting_takes_two_presses_in_time() {
    let ctrl_c = press(KeyCode::Char('C'), true, false);
    let mut chat = ready();
    chat.handle_key_event(ctrl_c, IDLE, TWICE, 10);
    assert_eq!(
        chat.take_outbox(),
        vec![Effect::QuitHint(Some(QuitKey::CtrlC))]
    );
    chat.handle_key_event(ctrl_c, IDLE, TWICE, 1009);
    assert_eq!(
        chat.take_outbox(),
        vec![Effect::Exit {
            shutdown_first: true
        }]
    );
    chat.handle_key_event(ctrl_c, IDLE, TWICE, 2000);
    chat.take_outbox();
    chat.handle_key_event(ctrl_c, IDLE, TWICE, 3000);
    assert_eq!(
        chat.take_outbox(),
        vec![Effect::QuitHint(Some(QuitKey::CtrlC))]
    );
}

#[test]
fn another_key_forgets_the_first_press() {
    let ctrl_d = press(KeyCode::Char('d'), true, false);
    let mut chat = ready();
    chat.handle_key_event(ctrl_d, IDLE, TWICE, 0);
    let outcome = chat.handle_key_event(press(KeyCode::Char('x'), false, false), IDLE, TWICE, 1);
    assert_eq!(outcome, KeyOutcome::GiveToPane);
    chat.take_outbox();
    chat.handle_key_event(ctrl_d, IDLE, TWICE, 2);
    assert_eq!(
        chat.take_outbox(),
        vec![Effect::QuitHint(Some(QuitKey::CtrlD))]
    );
}

#[test]
fn what_is_open_gets_the_key() {
    let ctrl_d = press(KeyCode::Char('d'), true, false);
    let writing = PaneState {
        composer_empty: false,
        ..IDLE
    };
    let choosing = PaneState {
        popup_active: true,
        ..IDLE
    };
    for pane in [writing, choosing] {
        let mut chat = ready();
        chat.handle_key_event(ctrl_d, IDLE, TWICE, 0);
        chat.take_outbox();
        assert_eq!(
            chat.handle_key_event(ctrl_d, pane, TWICE, 1),
            KeyOutcome::GiveToPane
        );
        assert_eq!(chat.take_outbox(), vec![Effect::QuitHint(None)]);
    }
    let mut chat = ready();
    chat.handle_key_event(ctrl_d, IDLE, TWICE, 0);
    chat.take_outbox();
    assert_eq!(chat.handle_key_event(ctrl_d, IDLE, TWICE, 1), KeyOutcome::Done);
    assert_eq!(
        chat.take_outbox(),
        vec![Effect::Exit {
            shutdown_first: true
        }]
    );
}

#[test]
fn a_key_that_pastes_is_handed_back() {
    let mut chat = ready();
    let paste = press(KeyCode::Char('v'), false, true);
    assert_eq!(
        chat.handle_key_event(paste, IDLE, TWICE, 0),
        KeyOutcome::PasteImage
    );
    chat.on_image_pasted(Err("no image".to_string()));
    assert_eq!(
        errors(&chat.take_outbox()),
        vec!["Failed to paste image: no image"]
    );
    chat.on_image_pasted(Ok("/t.png".to_string()));
    assert_eq!(
        chat.take_outbox(),
        vec![Effect::AttachImage("/t.png".to_string()), Effect::Redraw]
    );
}

#[test]
fn a_press_stops_the_work() {
    let mut chat = ready();
    chat.handle_codex_event(TurnEvent::TurnStarted);
    chat.take_outbox();
    chat.handle_key_event(press(KeyCode::Char('c'), true, false), IDLE, TWICE, 0);
    assert_eq!(
        chat.take_outbox(),
        vec![Effect::QuitHint(Some(QuitKey::CtrlC)), Effect::Interrupt]
    );
}

#[test]
fn commands_wait_for_the_task() {
    let mut chat = ready();
    chat.handle_codex_event(TurnEvent::TurnStarted);
    chat.take_outbox();
    chat.dispatch_command(SlashCommand::New, &facts("new", false));
    assert_eq!(
        errors(&chat.take_outbox()),
        vec!["'/new' is disabled while a task is in progress."]
    );
    chat.dispatch_command(SlashCommand::Quit, &facts("quit", true));
    assert_eq!(
        chat.take_outbox(),
        vec![Effect::Exit {
            shutdown_first: true
        }]
    );
}

#[test]
fn commands_do_what_they_say() {
    let mut chat = ready();
    chat.dispatch_command(SlashCommand::New, &facts("new", false));
    assert_eq!(chat.take_outbox(), vec![Effect::NewSession]);
    chat.dispatch_command(SlashCommand::Mention, &facts("mention", true));
    assert_eq!(chat.take_outbox(), vec![Effect::InsertText("@".to_string())]);
    chat.dispatch_command(SlashCommand::Model, &facts("model", false));
    assert_eq!(chat.take_outbox(), vec![Effect::Pane(PaneRequest::Models)]);
    chat.dispatch_command(SlashCommand::Rollout, &facts("rollout", true));
    assert!(chat
        .take_outbox()
        .contains(&Effect::History(HistoryItem::Info {
            message: "Current rollout path: /r/log".to_string(),
            hint: None
        })));
    chat.dispatch_command(SlashCommand::Init, &facts("init", false));
    assert!(turns(&chat.take_outbox()).is_empty());
    let missing = CommandFacts {
        doc_exists: false,
        ..facts("init", false)
    };
    chat.dispatch_command(SlashCommand::Init, &missing);
    assert_eq!(turns(&chat.take_outbox()), vec!["Write it"]);
}

#[test]
fn models_are_chosen_once_the_session_is_there() {
    let mut chat = ChatWidget::new(init());
    chat.take_outbox();
    chat.open_model_popup();
    assert!(chat
        .take_outbox()
        .contains(&Effect::History(HistoryItem::Info {
            message: "Model selection is disabled until startup completes.".to_string(),
            hint: None
        })));
    assert_eq!(chat.model_display_name(), "gpt-5");
    chat.set_model("gpt-6");
    assert_eq!(chat.model_display_name(), "gpt-6");
    assert_eq!(chat.conversation_id(), None);
}

#[test]
fn a_review_takes_instructions() {
    let mut chat = ready();
    chat.dispatch_command_with_args(SlashCommand::Review, " look here ", &facts("review", false));
    assert_eq!(
        chat.take_outbox(),
        vec![Effect::Review {
            instructions: Some("look here".to_string())
        }]
    );
    let mut modes = ChatWidget::new(ChatWidgetInit {
        collaboration_modes: true,
        ..init()
    });
    modes.take_outbox();
    modes.dispatch_command_with_args(SlashCommand::Collab, "dance", &facts("collab", true));
    assert_eq!(
        errors(&modes.take_outbox()),
        vec!["Unknown collaboration mode 'dance'. Try: plan, pair, execute."]
    );
}

#[test]
fn a_session_is_joined_once() {
    let mut chat = ready();
    chat.set_weave_session_selection(Some(team()));
    let effects = chat.take_outbox();
    assert!(effects
        .iter()
        .any(|effect| matches!(effect, Effect::Connect { session_id, .. } if session_id == "s1")));
    chat.set_weave_session_selection(Some(team()));
    assert!(chat.take_outbox().is_empty());
    chat.on_weave_agent_connected("other");
    assert_eq!(chat.take_outbox(), vec![Effect::RefuseConnection]);
}

#[test]
fn other_sessions_are_ignored() {
    let (mut chat, _) = in_session();
    let stray = WeaveIncomingMessage {
        session_id: "s2".to_string(),
        ..message("b1", "hello")
    };
    chat.on_weave_message_received(stray, &None);
    assert!(chat.take_outbox().is_empty());
}

#[test]
fn a_message_of_another_agent_is_said_to_the_model() {
    let (mut chat, _) = in_session();
    chat.on_weave_message_received(message("b1", "please look"), &None);
    let said = turns(&chat.take_outbox());
    assert_eq!(said.len(), 1);
    assert!(said[0].contains("please look"));
    assert!(said[0].contains("Bob"));
    chat.handle_codex_event(TurnEvent::TurnStarted);
    chat.handle_codex_event(TurnEvent::AgentMessage {
        message: "all fine".to_string(),
        reply: None,
    });
    chat.handle_codex_event(TurnEvent::TurnComplete {
        last_message: Some("all fine".to_string()),
        reply: None,
    });
    assert!(chat.take_outbox().iter().any(|effect| matches!(
        effect,
        Effect::SendReply { target, message }
            if target.agent_id == "b1" && message == "all fine"
    )));
}

#[test]
fn nobody_commands_itself() {
    let (mut chat, me) = in_session();
    let own = WeaveIncomingMessage {
        tool: Some(WeaveTool::Interrupt),
        kind: WeaveMessageKind::Control,
        ..message(&me, "")
    };
    chat.on_weave_message_received(own, &None);
    let effects = chat.take_outbox();
    assert_eq!(
        errors(&effects),
        vec!["Ignored Weave control from local agent: /interrupt."]
    );
    assert!(effects.iter().any(|effect| matches!(
        effect,
        Effect::SendActionResult { result, .. } if result.status == "rejected"
    )));
    assert!(!effects.contains(&Effect::Interrupt));
}

#[test]
fn another_agent_starts_a_new_session() {
    let (mut chat, _) = in_session();
    let fresh = WeaveIncomingMessage {
        tool: Some(WeaveTool::NewSession),
        kind: WeaveMessageKind::Control,
        ..message("b1", "")
    };
    chat.on_weave_message_received(fresh, &None);
    assert!(chat.take_outbox().contains(&Effect::NewSession));
    let later = WeaveIncomingMessage {
        action_id: Some("x2".to_string()),
        action_index: Some(1),
        defer_until_ready: true,
        ..message("b1", "go on")
    };
    chat.on_weave_message_received(later, &None);
    assert!(turns(&chat.take_outbox()).is_empty());
    let state = chat.take_weave_state();
    assert!(state.connected);
    assert_eq!(state.pending_action_messages.len(), 1);
    let mut next = ChatWidget::new(init());
    next.restore_weave_state(state);
    configure(&mut next);
    let effects = next.take_outbox();
    assert!(effects.iter().any(|effect| matches!(
        effect,
        Effect::SendActionResult { dst, result }
            if dst == "b1" && result.status == "completed" && result.new_context_id.is_some()
    )));
    assert!(turns(&effects).iter().any(|said| said.contains("go on")));
    assert!(!chat.take_weave_state().connected);
}

fn step(dst: &str, text: &str) -> RelayStep {
    RelayStep {
        dst: dst.to_string(),
        step_id: "step_1".to_string(),
        body: RelayBody::Message {
            text: text.to_string(),
            plan: None,
            reply_policy: "sender".to_string(),
        },
    }
}

fn answer(chat: &mut ChatWidget, steps: Vec<RelayStep>) -> Vec<Effect> {
    chat.handle_codex_event(TurnEvent::TurnStarted);
    chat.handle_codex_event(TurnEvent::AgentMessage {
        message: "{}".to_string(),
        reply: Some(RelayReply::Actions { actions: steps }),
    });
    chat.take_outbox()
}

#[test]
fn steps_are_relayed_to_those_who_take_part() {
    let (mut chat, _) = in_session();
    chat.on_submitted("#Bob write a haiku".to_string(), vec![]);
    let said = turns(&chat.take_outbox());
    assert_eq!(said.len(), 1);
    assert!(said[0].contains("relay_actions"));
    let effects = answer(&mut chat, vec![step("Bob", "write a haiku")]);
    let payload = effects
        .iter()
        .find_map(|effect| match effect {
            Effect::SubmitRelay { payload, .. } => Some(payload),
            _ => None,
        })
        .expect("a relay");
    let actions = payload.get_array("actions").expect("actions");
    assert_eq!(actions.len(), 1);
    assert_eq!(actions[0].get_text("dst"), Some("b1"));
    assert_eq!(actions[0].get_text("text"), Some("write a haiku"));
    assert_eq!(actions[0].get("step_id"), Some(&Json::Text("step_1".to_string())));
}

#[test]
fn steps_to_outsiders_are_not_sent() {
    let (mut chat, _) = in_session();
    chat.on_submitted("#Bob write a haiku".to_string(), vec![]);
    chat.take_outbox();
    let effects = answer(&mut chat, vec![step("Cy", "write a haiku")]);
    assert!(errors(&effects)
        .contains(&"Weave relay target is outside the active task.".to_string()));
    assert!(!effects
        .iter()
        .any(|effect| matches!(effect, Effect::SubmitRelay { .. })));
}

#[test]
fn steps_say_what_is_wrong_with_them() {
    let (mut chat, _) = in_session();
    chat.on_submitted("#Bob write a haiku".to_string(), vec![]);
    chat.take_outbox();
    let nobody = RelayStep {
        dst: " ".to_string(),
        step_id: "step_1".to_string(),
        body: RelayBody::Control {
            command: WeaveRelayCommand::Compact,
        },
    };
    assert_eq!(
        errors(&answer(&mut chat, vec![nobody])),
        vec!["Weave relay target is empty."]
    );
}

#[test]
fn commands_go_to_the_agents_they_name() {
    let (mut chat, _) = in_session();
    chat.on_submitted("#Bob /compact".to_string(), vec![]);
    let effects = chat.take_outbox();
    assert!(effects.iter().any(|effect| matches!(
        effect,
        Effect::SendControls(sends) if sends.len() == 1 && sends[0].agent.id == "b1"
            && sends[0].tool == WeaveTool::Compact
    )));
    assert!(turns(&effects).is_empty());
}

#[test]
fn a_closed_session_is_left() {
    let (mut chat, _) = in_session();
    chat.on_weave_agent_disconnected("s1");
    assert_eq!(
        errors(&chat.take_outbox()),
        vec!["Weave session closed: Team"]
    );
    chat.on_weave_message_received(message("b1", "hello"), &None);
    assert!(chat.take_outbox().is_empty());
}

#[test]
fn an_approval_names_the_command_as_a_shell_reads_it() {
    let mut chat = ready();
    chat.handle_codex_event(TurnEvent::Waiting(InterruptEvent::ExecApproval {
        request: 4,
        command: vec!["echo".to_string(), "a b".to_string()],
    }));
    assert!(chat.take_outbox().contains(&Effect::AskApproval(4)));
    assert_eq!(
        chat.take_notification(),
        Some(Notification::ExecApprovalRequested {
            command: "echo 'a b'".to_string()
        })
    );
    assert_eq!(chat.take_notification(), None);
}

#[test]
fn events_wait_while_an_answer_is_shown() {
    let mut chat = ready();
    chat.handle_codex_event(TurnEvent::TurnStarted);
    chat.handle_codex_event(TurnEvent::AgentMessageDelta("Hel".to_string()));
    chat.take_outbox();
    chat.handle_codex_event(TurnEvent::Waiting(InterruptEvent::ToolBegin { event: 7 }));
    chat.handle_codex_event(TurnEvent::AgentMessage {
        message: "Hello".to_string(),
        reply: None,
    });
    let effects = chat.take_outbox();
    let shown = effects
        .iter()
        .position(|effect| *effect == Effect::FinishStream)
        .expect("the end of the answer");
    let begun: Vec<usize> = effects
        .iter()
        .enumerate()
        .filter(|(_, effect)| **effect == Effect::ToolBegin(7))
        .map(|(i, _)| i)
        .collect();
    assert_eq!(begun.len(), 1);
    assert!(shown < begun[0]);
}

#[test]
fn the_diff_is_told() {
    assert_eq!(diff_text(Ok((true, "+a".to_string()))), "+a");
    assert_eq!(
        diff_text(Ok((false, String::new()))),
        "`/diff` — _not inside a git repository_"
    );
    assert_eq!(
        diff_text(Err("gone".to_string())),
        "Failed to compute diff: gone"
    );
}

#[test]
fn blocked_steps_are_not_shown() {
    let log = |targets| OutboundLog {
        text: "hi".to_string(),
        targets,
    };
    let logs = vec![log(vec![("Bob".to_string(), false)]), log(vec![])];
    let accepted = |status: &str| WeaveRelayAccepted {
        status: Some(status.to_string()),
        retry_after_ms: None,
        failures: vec![],
        targets: vec![],
    };
    assert_eq!(accepted("ok").shown_logs(&logs).len(), 1);
    assert!(accepted("blocked").shown_logs(&logs).is_empty());
}

#[test]
fn notifications_can_be_picked() {
    let done = Notification::AgentTurnComplete {
        response: "ok".to_string(),
    };
    assert_eq!(done.kind_name(), "agent-turn-complete");
    assert!(done.allowed_for(&NotificationSettings::Custom(vec![
        "agent-turn-complete".to_string()
    ])));
    assert!(!done.allowed_for(&NotificationSettings::Custom(vec![
        "approval-requested".to_string()
    ])));
    assert!(!done.allowed_for(&NotificationSettings::Enabled(false)));
}

#[test]
fn a_turn_that_was_cut_gives_the_texts_back() {
    let mut chat = ready();
    chat.handle_codex_event(TurnEvent::TurnStarted);
    chat.on_queued("one".to_string(), vec![]);
    chat.take_outbox();
    chat.handle_codex_event(TurnEvent::TurnAborted {
        reason: TurnAbortReason::Interrupted,
        composer: "draft".to_string(),
    });
    let effects = chat.take_outbox();
    assert!(effects.contains(&Effect::ComposerText("one\ndraft".to_string())));
    assert!(turns(&effects).is_empty());
    assert!(!chat.is_task_running());
}

#[test]
fn limits_are_warned_of() {
    let mut chat = ready();
    chat.on_rate_limit_snapshot(Some(LimitsReport {
        secondary: None,
        primary: Some(LimitUse {
            passed: 2,
            capped: false,
            window_minutes: Some(300),
        }),
        credits: None,
        plan_type: None,
        captured_at: 0,
    }));
    assert!(chat.take_outbox().iter().any(|effect| matches!(
        effect,
        Effect::History(HistoryItem::Warning(text)) if text.contains("5h")
    )));
}

#[test]
fn a_review_that_says_nothing_has_failed() {
    let mut chat = ready();
    chat.handle_codex_event(TurnEvent::ReviewEntered {
        hint: "changes".to_string(),
    });
    chat.take_outbox();
    chat.handle_codex_event(TurnEvent::ReviewExited {
        output: Some(ReviewOutput {
            has_findings: false,
            explanation: " ".to_string(),
        }),
    });
    assert_eq!(errors(&chat.take_outbox()).len(), 1);
}

#[test]
fn the_header_is_the_first_bold_text() {
    assert_eq!(extract_first_bold("x **Look** y **z**"), Some("Look".to_string()));
    assert_eq!(extract_first_bold("**open"), None);
    assert_eq!(extract_first_bold("****"), None);
}

#[test]
fn skills_are_those_of_the_folder() {
    let skill = |name: &str| Skill {
        name: name.to_string(),
        path: String::new(),
    };
    let entries = vec![
        SkillsEntry {
            is_cwd: false,
            skills: vec![skill("other")],
        },
        SkillsEntry {
            is_cwd: true,
            skills: vec![skill("here")],
        },
    ];
    assert_eq!(skills_for_cwd(&entries), vec![skill("here")]);
    assert!(skills_for_cwd(&vec![]).is_empty());
}

#[test]
fn a_hint_is_shown_in_an_empty_composer() {
    assert!(!pick_placeholder().is_empty());
}

#[test]
fn a_busy_agent_refuses() {
    for (tool, label) in [
        (WeaveTool::Compact, "/compact"),
        (WeaveTool::Review { instructions: None }, "/review"),
    ] {
        let (mut chat, _) = in_session();
        chat.handle_codex_event(TurnEvent::TurnStarted);
        chat.take_outbox();
        let command = WeaveIncomingMessage {
            tool: Some(tool),
            kind: WeaveMessageKind::Control,
            ..message("b1", "")
        };
        chat.on_weave_message_received(command, &None);
        let effects = chat.take_outbox();
        assert_eq!(
            errors(&effects),
            vec![format!("'{label}' is disabled while a task is in progress.")]
        );
        assert!(effects.iter().any(|effect| matches!(
            effect,
            Effect::SendActionResult { dst, result }
                if dst == "b1"
                    && result.group_id == "g1"
                    && result.action_id == "x1"
                    && result.status == "rejected"
                    && result.detail.as_deref() == Some("blocked: task in progress")
        )));
        assert!(chat.is_task_running());
    }
}

#[test]
fn an_answer_is_shown_line_by_line() {
    let mut chat = ready();
    chat.on_commit_tick(Some(3), true);
    assert!(chat.take_outbox().is_empty());
    chat.handle_codex_event(TurnEvent::TurnStarted);
    chat.handle_codex_event(TurnEvent::AgentMessageDelta("Hel".to_string()));
    chat.take_outbox();
    chat.on_commit_tick(None, false);
    assert!(chat.take_outbox().is_empty());
    chat.on_commit_tick(Some(3), true);
    let effects = chat.take_outbox();
    assert_eq!(effects[0], Effect::HideStatus);
    assert!(effects.contains(&Effect::History(HistoryItem::Prepared(3))));
    assert_eq!(effects.last(), Some(&Effect::StopAnimation));
}

#[test]
fn nothing_is_written_while_the_sandbox_is_set_up() {
    let mut chat = ready();
    chat.show_windows_sandbox_setup_status();
    assert_eq!(
        chat.take_outbox()[0],
        Effect::ComposerInput {
            enabled: false,
            placeholder: Some("Input disabled until setup completes.".to_string()),
        }
    );
    chat.clear_windows_sandbox_setup_status();
    assert_eq!(
        chat.take_outbox(),
        vec![
            Effect::ComposerInput {
                enabled: true,
                placeholder: None,
            },
            Effect::HideStatus,
            Effect::Redraw,
        ]
    );
}

#[test]
fn a_chat_goes_on_with_the_model_of_the_session() {
    let chat = ChatWidget::new_from_existing(init(), "o9".to_string());
    assert_eq!(chat.model_display_name(), "gpt-5");
    let unnamed = ChatWidgetInit {
        model: None,
        ..init()
    };
    let chat = ChatWidget::new_from_existing(unnamed, "o9".to_string());
    assert_eq!(chat.model_display_name(), "o9");
}

#[test]
fn a_new_name_is_told_to_the_session() {
    let (mut chat, _) = in_session();
    chat.set_weave_agent_name("  ");
    assert!(chat.take_outbox().is_empty());
    chat.set_weave_agent_name(" Ann ");
    assert!(chat
        .take_outbox()
        .contains(&Effect::RenameAgent("Ann".to_string())));
    chat.set_weave_agent_name("Ann");
    assert!(chat.take_outbox().is_empty());
}

fn nearly_spent() -> Option<LimitsReport> {
    Some(LimitsReport {
        secondary: None,
        primary: Some(LimitUse {
            passed: 3,
            capped: false,
            window_minutes: Some(300),
        }),
        credits: None,
        plan_type: None,
        captured_at: 0,
    })
}

fn credits_report(
    balance: Option<&str>,
    plan_type: Option<&str>,
    captured_at: u64,
) -> Option<LimitsReport> {
    Some(LimitsReport {
        secondary: None,
        primary: None,
        credits: balance.map(|balance| CreditsSnapshot {
            has_credits: true,
            unlimited: false,
            balance: Some(balance.to_string()),
        }),
        plan_type: plan_type.map(str::to_string),
        captured_at,
    })
}

fn shown_balance(chat: &ChatWidget) -> Option<String> {
    chat.rate_limit_snapshot()
        .as_ref()
        .and_then(|shown| shown.credits.as_ref())
        .and_then(|credits| credits.balance.clone())
}

fn shown_plan(chat: &ChatWidget) -> Option<String> {
    chat.plan_type().clone()
}

#[test]
fn what_a_report_leaves_out_is_as_it_was() {
    let mut chat = ready();
    assert!(chat.rate_limit_snapshot().is_none());
    chat.on_rate_limit_snapshot(credits_report(Some("12"), Some("plus"), 1));
    assert_eq!(shown_balance(&chat), Some("12".to_string()));
    chat.on_rate_limit_snapshot(credits_report(None, None, 2));
    assert_eq!(shown_balance(&chat), Some("12".to_string()));
    assert_eq!(shown_plan(&chat), Some("plus".to_string()));
    assert_eq!(
        chat.rate_limit_snapshot().as_ref().map(|shown| shown.captured_at),
        Some(2)
    );
    chat.on_rate_limit_snapshot(credits_report(Some("7"), Some("pro"), 3));
    assert_eq!(shown_balance(&chat), Some("7".to_string()));
    assert_eq!(shown_plan(&chat), Some("pro".to_string()));
}

#[test]
fn without_a_report_nothing_is_known_but_the_plan() {
    let mut chat = ready();
    chat.on_rate_limit_snapshot(credits_report(Some("12"), Some("plus"), 1));
    chat.handle_codex_event(TurnEvent::TokenCount {
        info: None,
        limits: None,
    });
    assert!(chat.rate_limit_snapshot().is_none());
    assert_eq!(shown_plan(&chat), Some("plus".to_string()));
    chat.on_rate_limit_snapshot(credits_report(None, None, 2));
    assert_eq!(shown_balance(&chat), None);
    assert_eq!(shown_plan(&chat), Some("plus".to_string()));
}

fn end_turn(chat: &mut ChatWidget) {
    chat.handle_codex_event(TurnEvent::TurnStarted);
    chat.handle_codex_event(TurnEvent::TurnComplete {
        last_message: None,
        reply: None,
    });
}

#[test]
fn a_cheaper_model_is_offered_when_limits_are_near() {
    let mut chat = ready();
    chat.on_rate_limit_snapshot(nearly_spent());
    end_turn(&mut chat);
    assert!(chat.take_outbox().contains(&Effect::ShowRateLimitPrompt));
    chat.on_rate_limit_snapshot(nearly_spent());
    end_turn(&mut chat);
    assert!(!chat.take_outbox().contains(&Effect::ShowRateLimitPrompt));
    chat.on_rate_limit_prompt_unavailable();
    chat.on_rate_limit_snapshot(nearly_spent());
    end_turn(&mut chat);
    assert!(chat.take_outbox().contains(&Effect::ShowRateLimitPrompt));
    chat.set_rate_limit_switch_prompt_hidden(true);
    chat.on_rate_limit_snapshot(nearly_spent());
    end_turn(&mut chat);
    assert!(!chat.take_outbox().contains(&Effect::ShowRateLimitPrompt));
}

#[test]
fn what_is_left_of_the_context_is_shown() {
    let mut chat = ready();
    for (info, percent, used) in [
        (None, None, None),
        (Some((Some(40), 1000)), Some(40), None),
        (Some((None, 1000)), None, Some(1000)),
    ] {
        chat.set_token_info(info.map(|(remaining_percent, used_tokens)| TokenInfo {
            remaining_percent,
            used_tokens,
        }));
        assert_eq!(chat.take_outbox(), vec![Effect::ContextWindow { percent, used }]);
    }
}

#[test]
fn no_frame_is_drawn_during_a_paste() {
    let mut chat = ready();
    assert!(chat.handle_paste_burst_tick(true, true));
    assert_eq!(chat.take_outbox(), vec![Effect::Redraw]);
    assert!(chat.handle_paste_burst_tick(false, true));
    assert_eq!(chat.take_outbox(), vec![Effect::FlushPasteLater]);
    assert!(!chat.handle_paste_burst_tick(false, false));
    assert!(chat.take_outbox().is_empty());
}

fn say(chat: &mut ChatWidget, text: &str) -> Vec<Effect> {
    chat.handle_codex_event(TurnEvent::TurnStarted);
    chat.handle_codex_event(TurnEvent::AgentMessage {
        message: text.to_string(),
        reply: None,
    });
    chat.handle_codex_event(TurnEvent::TurnComplete {
        last_message: Some(text.to_string()),
        reply: None,
    });
    chat.take_outbox()
}

#[test]
fn a_reply_is_not_answered() {
    let (mut chat, _) = in_session();
    let reply = WeaveIncomingMessage {
        kind: WeaveMessageKind::Reply,
        ..message("b1", "all fine")
    };
    chat.on_weave_message_received(reply, &None);
    assert_eq!(turns(&chat.take_outbox()).len(), 1);
    assert!(!say(&mut chat, "good")
        .iter()
        .any(|effect| matches!(effect, Effect::SendReply { .. })));
}

#[test]
fn only_the_owner_gives_steps() {
    let (mut chat, _) = in_session();
    chat.on_weave_message_received(message("b1", "please look"), &None);
    let said = turns(&chat.take_outbox());
    assert_eq!(said.len(), 1);
    assert!(!said[0].contains("relay_actions"));
    assert!(!answer(&mut chat, vec![step("Bob", "look yourself")])
        .iter()
        .any(|effect| matches!(effect, Effect::SubmitRelay { .. })));
}

#[test]
fn prose_ends_the_task() {
    let (mut chat, _) = in_session();
    chat.on_submitted("#Bob write a haiku".to_string(), vec![]);
    chat.take_outbox();
    let effects = say(&mut chat, "Sure, I will do that myself.");
    assert!(errors(&effects).is_empty());
    assert!(effects.contains(&Effect::StreamDelta(
        "Sure, I will do that myself.".to_string()
    )));
    assert!(!effects.iter().any(|effect| matches!(
        effect,
        Effect::SubmitRelay { .. } | Effect::FinishRelay { .. }
    )));
    assert!(!answer(&mut chat, vec![step("Bob", "write a haiku")])
        .iter()
        .any(|effect| matches!(effect, Effect::SubmitRelay { .. })));
}

#[test]
fn collected_prose_is_shown_when_the_turn_ends() {
    let (mut chat, _) = in_session();
    chat.on_submitted("#Bob write a haiku".to_string(), vec![]);
    chat.handle_codex_event(TurnEvent::TurnStarted);
    chat.handle_codex_event(TurnEvent::AgentMessageDelta("Not now.".to_string()));
    chat.take_outbox();
    chat.handle_codex_event(TurnEvent::TurnComplete {
        last_message: None,
        reply: None,
    });
    assert!(chat
        .take_outbox()
        .contains(&Effect::StreamDelta("Not now.".to_string())));
}

#[test]
fn mentions_need_a_session() {
    let mut chat = ready();
    chat.on_submitted("#Bob /compact".to_string(), vec![]);
    let effects = chat.take_outbox();
    assert_eq!(turns(&effects), vec!["#Bob /compact"]);
    assert!(!effects
        .iter()
        .any(|effect| matches!(effect, Effect::SendControls(_))));
}

#[test]
fn a_task_ends_when_nobody_owes_a_reply() {
    let (mut chat, _) = in_session();
    chat.on_submitted("#Bob write a haiku".to_string(), vec![]);
    chat.take_outbox();
    chat.handle_codex_event(TurnEvent::TurnStarted);
    chat.handle_codex_event(TurnEvent::AgentMessage {
        message: "{}".to_string(),
        reply: Some(RelayReply::TaskDone {
            summary: Some(" done ".to_string()),
        }),
    });
    assert!(chat.take_outbox().iter().any(|effect| matches!(
        effect,
        Effect::FinishRelay { payload, .. }
            if payload.get("done").and_then(|done| done.get_text("summary")) == Some("done")
    )));
}

fn done(chat: &mut ChatWidget) -> Vec<Effect> {
    chat.handle_codex_event(TurnEvent::TurnStarted);
    chat.handle_codex_event(TurnEvent::AgentMessage {
        message: "{}".to_string(),
        reply: Some(RelayReply::TaskDone { summary: None }),
    });
    chat.handle_codex_event(TurnEvent::TurnComplete {
        last_message: None,
        reply: None,
    });
    chat.take_outbox()
}

fn ends_task(effects: &[Effect]) -> bool {
    effects
        .iter()
        .any(|effect| matches!(effect, Effect::FinishRelay { .. }))
}

#[test]
fn an_action_is_over_once_it_is_answered() {
    let (mut chat, _) = in_session();
    chat.on_submitted("#Bob #Bob write a haiku".to_string(), vec![]);
    chat.take_outbox();
    let relay_id = answer(&mut chat, vec![step("Bob", "write a haiku")])
        .into_iter()
        .find_map(|effect| match effect {
            Effect::SubmitRelay { relay_id, .. } => Some(relay_id),
            _ => None,
        })
        .expect("a relay");
    chat.on_weave_relay_accepted(
        &relay_id,
        &WeaveRelayAccepted {
            status: None,
            retry_after_ms: None,
            failures: vec![],
            targets: vec![RelayedTarget {
                target_id: "b1".to_string(),
                context_id: None,
                task_id: None,
                group_id: Some("g9".to_string()),
                actions: vec![RelayedAction {
                    action_id: "y1".to_string(),
                    action_type: "message".to_string(),
                    step_id: "step_1".to_string(),
                    reply_policy: Some("sender".to_string()),
                    command: None,
                }],
            }],
        },
    );
    assert!(!ends_task(&done(&mut chat)));
    chat.on_weave_message_received(
        WeaveIncomingMessage {
            kind: WeaveMessageKind::Reply,
            action_id: None,
            reply_to_action_id: Some("y1".to_string()),
            ..message("b1", "a haiku")
        },
        &None,
    );
    chat.take_outbox();
    assert!(ends_task(&done(&mut chat)));
}

fn begin(event: u64, call_id: &str, interaction: bool) -> TurnEvent {
    TurnEvent::Waiting(InterruptEvent::ExecBegin(ExecBegin {
        event,
        call_id: call_id.to_string(),
        command: vec!["make".to_string()],
        interaction,
        input: None,
    }))
}

fn end(event: u64, call_id: &str) -> TurnEvent {
    TurnEvent::Waiting(InterruptEvent::ExecEnd {
        event,
        call_id: call_id.to_string(),
        interaction: false,
    })
}

fn started(chat: &mut ChatWidget, event: TurnEvent) -> Vec<Option<u64>> {
    chat.handle_codex_event(event);
    chat.take_outbox()
        .iter()
        .filter_map(|effect| match effect {
            Effect::ExecEnd { started, .. } => Some(*started),
            _ => None,
        })
        .collect()
}

#[test]
fn a_command_that_ended_does_not_run() {
    let mut chat = ready();
    chat.handle_codex_event(begin(1, "c1", false));
    chat.handle_codex_event(begin(2, "c2", false));
    chat.handle_codex_event(begin(3, "c1", false));
    chat.take_outbox();
    assert_eq!(started(&mut chat, end(4, "c1")), vec![Some(3)]);
    assert_eq!(started(&mut chat, end(5, "c1")), vec![None]);
    assert_eq!(started(&mut chat, end(6, "c2")), vec![Some(2)]);
}

#[test]
fn a_wait_is_left_out_once() {
    let mut chat = ready();
    chat.handle_codex_event(begin(1, "c1", true));
    chat.take_outbox();
    chat.handle_codex_event(begin(2, "c2", true));
    assert!(!chat.take_outbox().contains(&Effect::ExecBegin(2)));
    assert_eq!(started(&mut chat, end(3, "c2")), vec![]);
    assert_eq!(started(&mut chat, end(4, "c2")), vec![None]);
    assert_eq!(started(&mut chat, end(5, "c1")), vec![Some(1)]);
}

//! What the chat remembers, and the list of what it has others do.

use vstd::prelude::*;

use crate::chat::types::{
    ChatInitView, ChatWidgetInit, Effect, EffectView, HistoryItem, HistoryView, InterruptEvent,
    InterruptView, LimitsDisplay, McpStartupStatus, Notification, NotificationSettings, NotificationSettingsView,
    NotificationView, PlanView, QuitKey, RateLimitSwitchPromptState, RelayTargetsView,
    RunningCommand, SourceView, TargetStateView, TokenInfo, UserMessage, UserMessageSource,
    UserMessageView, WeaveControlContext, WeavePendingActionResult, WeavePendingNewSessionContext,
    WeavePlanState, WeaveRelayTargetState, WeaveRelayTargets, WeaveReplyTarget,
};
use crate::client::{WeaveAgent, WeaveIncomingMessage};
use crate::json::JsonView;
use crate::limits::RateLimitWarningState;
use crate::mentions::Skill;
use crate::outside;
use crate::table::Table;
use crate::text;

verus! {

/// The state of the chat. Each event changes what is remembered and puts into
/// the outbox what is to be done outside.
pub struct ChatWidget {
    /// What is to be done outside, in this order.
    outbox: Vec<Effect>,
    /// The model that answers.
    model: Option<String>,
    /// The model that the settings name.
    config_model: Option<String>,
    collaboration_modes: bool,
    hide_rate_limit_nudge: bool,
    feedback_enabled: bool,
    notifications: NotificationSettings,
    rate_limit_warnings: RateLimitWarningState,
    rate_limit_snapshot: Option<LimitsDisplay>,
    plan_type: Option<String>,
    rate_limit_switch_prompt: RateLimitSwitchPromptState,
    /// What to say first.
    initial_user_message: Option<UserMessage>,
    /// How full the context is.
    token_info: Option<TokenInfo>,
    pre_review_token_info: Option<Option<TokenInfo>>,
    /// Whether an answer is being shown.
    streaming: bool,
    /// The commands that run, by call.
    running_commands: Table<RunningCommand>,
    suppressed_exec_calls: Vec<String>,
    last_unified_wait: Option<String>,
    task_complete_pending: bool,
    /// Whether the model is at work.
    agent_turn_running: bool,
    /// The servers that start, while they do.
    mcp_startup_status: Option<Table<McpStartupStatus>>,
    /// Whether the pane shows that something runs.
    task_running: bool,
    /// Events that wait until the answer is shown.
    interrupts: Vec<InterruptEvent>,
    reasoning_buffer: String,
    full_reasoning_buffer: String,
    current_status_header: String,
    retry_status_header: Option<String>,
    /// The session, once it is set up.
    conversation_id: Option<String>,
    forked_from: Option<String>,
    selected_weave_session_id: Option<String>,
    selected_weave_session_name: Option<String>,
    /// Who this agent is to others.
    weave_agent_id: String,
    weave_agent_name: String,
    /// Whether there is a connection to the coordinator.
    weave_connected: bool,
    /// The agents of the session, while one is selected.
    weave_agents: Option<Vec<WeaveAgent>>,
    /// The task whose next steps the model is to name.
    pending_weave_relay: Option<WeaveRelayTargets>,
    /// The task that other agents take part in.
    active_weave_relay: Option<WeaveRelayTargets>,
    active_weave_plan: Option<WeavePlanState>,
    /// Whether the model is to bring a plan.
    pending_weave_plan: bool,
    /// The answer of the model, while it names steps.
    weave_relay_buffer: String,
    relay_output_consumed: bool,
    weave_inbound_task_ids: Table<String>,
    /// The conversations with other agents, by agent.
    weave_target_states: Table<WeaveRelayTargetState>,
    /// Messages that wait for the new session.
    pending_weave_action_messages: Vec<WeaveIncomingMessage>,
    pending_weave_new_session_result: Option<WeavePendingActionResult>,
    pending_weave_new_session_context: Option<WeavePendingNewSessionContext>,
    /// Whether a new session is to start when the turn ends.
    pending_weave_new_session: bool,
    show_welcome_banner: bool,
    suppress_session_configured_redraw: bool,
    /// What is to be said when the turn ends.
    queued_user_messages: Vec<UserMessage>,
    /// Where the answer is to go.
    active_weave_reply_target: Option<WeaveReplyTarget>,
    /// Who asked for what runs now.
    active_weave_control_context: Option<WeaveControlContext>,
    suppress_weave_interrupt: bool,
    pending_notification: Option<Notification>,
    /// When the first press of a quit key is forgotten.
    quit_shortcut_expires_at: Option<u64>,
    quit_shortcut_key: Option<QuitKey>,
    is_review_mode: bool,
    current_rollout_path: Option<String>,
    skills: Option<Vec<Skill>>,
    /// The identifiers that were drawn, in their order.
    ids: Ghost<Seq<Seq<char>>>,
}

/// The mathematical value of a `ChatWidget`. Its methods say what the events do.
pub struct ChatView {
    /// What is to be done outside, in this order.
    pub outbox: Seq<EffectView>,
    /// The model that answers.
    pub model: Option<Seq<char>>,
    /// The model that the settings name.
    pub config_model: Option<Seq<char>>,
    pub collaboration_modes: bool,
    pub hide_rate_limit_nudge: bool,
    pub feedback_enabled: bool,
    pub notifications: NotificationSettingsView,
    pub rate_limit_warnings: RateLimitWarningState,
    pub rate_limit_snapshot: Option<LimitsDisplay<Seq<char>>>,
    pub plan_type: Option<Seq<char>>,
    pub rate_limit_switch_prompt: RateLimitSwitchPromptState,
    /// What to say first.
    pub initial_user_message: Option<UserMessageView>,
    /// How full the context is.
    pub token_info: Option<TokenInfo>,
    pub pre_review_token_info: Option<Option<TokenInfo>>,
    /// Whether an answer is being shown.
    pub streaming: bool,
    /// The commands that run, by call.
    pub running_commands: Seq<(Seq<char>, RunningCommand)>,
    pub suppressed_exec_calls: Seq<Seq<char>>,
    pub last_unified_wait: Option<Seq<char>>,
    pub task_complete_pending: bool,
    /// Whether the model is at work.
    pub agent_turn_running: bool,
    /// The servers that start, while they do.
    pub mcp_startup_status: Option<Seq<(Seq<char>, McpStartupStatus<Seq<char>>)>>,
    /// Whether the pane shows that something runs.
    pub task_running: bool,
    /// Events that wait until the answer is shown.
    pub interrupts: Seq<InterruptView>,
    pub reasoning_buffer: Seq<char>,
    pub full_reasoning_buffer: Seq<char>,
    pub current_status_header: Seq<char>,
    pub retry_status_header: Option<Seq<char>>,
    /// The session, once it is set up.
    pub conversation_id: Option<Seq<char>>,
    pub forked_from: Option<Seq<char>>,
    pub selected_weave_session_id: Option<Seq<char>>,
    pub selected_weave_session_name: Option<Seq<char>>,
    /// Who this agent is to others.
    pub weave_agent_id: Seq<char>,
    pub weave_agent_name: Seq<char>,
    /// Whether there is a connection to the coordinator.
    pub weave_connected: bool,
    /// The agents of the session, while one is selected.
    pub weave_agents: Option<Seq<WeaveAgent<Seq<char>>>>,
    /// The task whose next steps the model is to name.
    pub pending_weave_relay: Option<RelayTargetsView>,
    /// The task that other agents take part in.
    pub active_weave_relay: Option<RelayTargetsView>,
    pub active_weave_plan: Option<PlanView>,
    /// Whether the model is to bring a plan.
    pub pending_weave_plan: bool,
    /// The answer of the model, while it names steps.
    pub weave_relay_buffer: Seq<char>,
    pub relay_output_consumed: bool,
    pub weave_inbound_task_ids: Seq<(Seq<char>, Seq<char>)>,
    /// The conversations with other agents, by agent.
    pub weave_target_states: Seq<(Seq<char>, TargetStateView)>,
    /// Messages that wait for the new session.
    pub pending_weave_action_messages: Seq<WeaveIncomingMessage<Seq<char>, JsonView>>,
    pub pending_weave_new_session_result: Option<WeavePendingActionResult<Seq<char>>>,
    pub pending_weave_new_session_context: Option<WeavePendingNewSessionContext<Seq<char>>>,
    /// Whether a new session is to start when the turn ends.
    pub pending_weave_new_session: bool,
    pub show_welcome_banner: bool,
    pub suppress_session_configured_redraw: bool,
    /// What is to be said when the turn ends.
    pub queued_user_messages: Seq<UserMessageView>,
    /// Where the answer is to go.
    pub active_weave_reply_target: Option<WeaveReplyTarget<Seq<char>>>,
    /// Who asked for what runs now.
    pub active_weave_control_context: Option<WeaveControlContext<Seq<char>>>,
    pub suppress_weave_interrupt: bool,
    pub pending_notification: Option<NotificationView>,
    /// When the first press of a quit key is forgotten.
    pub quit_shortcut_expires_at: Option<u64>,
    pub quit_shortcut_key: Option<QuitKey>,
    pub is_review_mode: bool,
    pub current_rollout_path: Option<Seq<char>>,
    pub skills: Option<Seq<Skill<Seq<char>>>>,
    /// The identifiers that were drawn, in their order.
    pub ids: Seq<Seq<char>>,
}

impl View for ChatWidget {
    type V = ChatView;

    closed spec fn view(&self) -> ChatView {
        ChatView {
            outbox: self.outbox.deep_view(),
            model: self.model.deep_view(),
            config_model: self.config_model.deep_view(),
            collaboration_modes: self.collaboration_modes,
            hide_rate_limit_nudge: self.hide_rate_limit_nudge,
            feedback_enabled: self.feedback_enabled,
            notifications: self.notifications.deep_view(),
            rate_limit_warnings: self.rate_limit_warnings,
            rate_limit_snapshot: self.rate_limit_snapshot.deep_view(),
            plan_type: self.plan_type.deep_view(),
            rate_limit_switch_prompt: self.rate_limit_switch_prompt,
            initial_user_message: self.initial_user_message.deep_view(),
            token_info: self.token_info,
            pre_review_token_info: self.pre_review_token_info,
            streaming: self.streaming,
            running_commands: self.running_commands.deep_view(),
            suppressed_exec_calls: text::views(self.suppressed_exec_calls@),
            last_unified_wait: self.last_unified_wait.deep_view(),
            task_complete_pending: self.task_complete_pending,
            agent_turn_running: self.agent_turn_running,
            mcp_startup_status: self.mcp_startup_status.deep_view(),
            task_running: self.task_running,
            interrupts: self.interrupts.deep_view(),
            reasoning_buffer: self.reasoning_buffer@,
            full_reasoning_buffer: self.full_reasoning_buffer@,
            current_status_header: self.current_status_header@,
            retry_status_header: self.retry_status_header.deep_view(),
            conversation_id: self.conversation_id.deep_view(),
            forked_from: self.forked_from.deep_view(),
            selected_weave_session_id: self.selected_weave_session_id.deep_view(),
            selected_weave_session_name: self.selected_weave_session_name.deep_view(),
            weave_agent_id: self.weave_agent_id@,
            weave_agent_name: self.weave_agent_name@,
            weave_connected: self.weave_connected,
            weave_agents: self.weave_agents.deep_view(),
            pending_weave_relay: self.pending_weave_relay.deep_view(),
            active_weave_relay: self.active_weave_relay.deep_view(),
            active_weave_plan: self.active_weave_plan.deep_view(),
            pending_weave_plan: self.pending_weave_plan,
            weave_relay_buffer: self.weave_relay_buffer@,
            relay_output_consumed: self.relay_output_consumed,
            weave_inbound_task_ids: self.weave_inbound_task_ids.deep_view(),
            weave_target_states: self.weave_target_states.deep_view(),
            pending_weave_action_messages: self.pending_weave_action_messages.deep_view(),
            pending_weave_new_session_result: self.pending_weave_new_session_result.deep_view(),
            pending_weave_new_session_context: self.pending_weave_new_session_context.deep_view(),
            pending_weave_new_session: self.pending_weave_new_session,
            show_welcome_banner: self.show_welcome_banner,
            suppress_session_configured_redraw: self.suppress_session_configured_redraw,
            queued_user_messages: self.queued_user_messages.deep_view(),
            active_weave_reply_target: self.active_weave_reply_target.deep_view(),
            active_weave_control_context: self.active_weave_control_context.deep_view(),
            suppress_weave_interrupt: self.suppress_weave_interrupt,
            pending_notification: self.pending_notification.deep_view(),
            quit_shortcut_expires_at: self.quit_shortcut_expires_at,
            quit_shortcut_key: self.quit_shortcut_key,
            is_review_mode: self.is_review_mode,
            current_rollout_path: self.current_rollout_path.deep_view(),
            skills: self.skills.deep_view(),
            ids: self.ids@,
        }
    }
}

/// Identifiers in the order in which they are drawn.
pub type Tape = Seq<Seq<char>>;

/// Whether the identifiers in `ids` are the first ones of `tape`.
pub open spec fn extends(tape: Tape, ids: Seq<Seq<char>>) -> bool {
    &&& ids.len() <= tape.len()
    &&& forall|i: int| 0 <= i < ids.len() ==> #[trigger] tape[i] == ids[i]
}

impl ChatView {
    /// The identifier that is drawn next.
    pub open spec fn next_id(self, tape: Tape) -> Seq<char> {
        tape[self.ids.len() as int]
    }

    /// After the next identifier was drawn.
    #[verifier::opaque]
    pub open spec fn drew(self, tape: Tape) -> ChatView {
        ChatView { ids: self.ids.push(self.next_id(tape)), ..self }
    }

    /// With something to be done outside.
    #[verifier::opaque]
    pub open spec fn emit(self, effect: EffectView) -> ChatView {
        ChatView { outbox: self.outbox.push(effect), ..self }
    }

    /// With an entry for the transcript.
    pub open spec fn history(self, item: HistoryView) -> ChatView {
        self.emit(EffectView::History(item))
    }

    pub open spec fn error(self, message: Seq<char>) -> ChatView {
        self.history(HistoryView::Error(message))
    }

    pub open spec fn info(self, message: Seq<char>) -> ChatView {
        self.history(HistoryView::Info { message, hint: None })
    }

    pub open spec fn redraw(self) -> ChatView {
        self.emit(EffectView::Redraw)
    }
}

impl ChatWidget {
    /// Draws an identifier.
    pub(super) fn draw_id(&mut self) -> (id: String)
        ensures
            outside::is_random_id(id@),
            final(self)@.ids == old(self)@.ids.push(id@),
            forall|tape: Tape| #[trigger]
                old(self)@.drew(tape) == final(self)@ <== tape[old(self)@.ids.len() as int] == id@,
    {
        let id = outside::random_id();
        self.ids = Ghost(self.ids@.push(id@));
        proof {
            reveal(ChatView::drew);
        }
        id
    }

    /// Has something done outside.
    pub(super) fn emit(&mut self, effect: Effect)
        ensures
            final(self)@ == old(self)@.emit(effect.deep_view()),
    {
        let ghost view = effect.deep_view();
        self.outbox.push(effect);
        proof {
            reveal(ChatView::emit);
            assert(self.outbox.deep_view() =~= old(self).outbox.deep_view().push(view));
        }
    }

    pub(super) fn add_to_history(&mut self, item: HistoryItem)
        ensures
            final(self)@ == old(self)@.history(item.deep_view()),
    {
        self.emit(Effect::History(item));
    }

    pub(super) fn add_error(&mut self, message: &str)
        ensures
            final(self)@ == old(self)@.error(message@),
    {
        self.add_to_history(HistoryItem::Error(message.to_owned()));
    }

    pub(super) fn add_info(&mut self, message: &str)
        ensures
            final(self)@ == old(self)@.info(message@),
    {
        self.add_to_history(HistoryItem::Info { message: message.to_owned(), hint: None });
    }

    pub(super) fn request_redraw(&mut self)
        ensures
            final(self)@ == old(self)@.redraw(),
    {
        self.emit(Effect::Redraw);
    }
}

// ---------------------------------------------------------------------------
// How a chat starts
// ---------------------------------------------------------------------------

/// The name under which an agent goes at first: the part of its id before the
/// first hyphen, behind `codex-`.
pub open spec fn default_name(agent_id: Seq<char>) -> Seq<char> {
    "codex-"@ + match text::split_at_first(agent_id, '-') {
        Some((short, _)) => short,
        None => agent_id,
    }
}

/// What the user says first, if anything.
pub open spec fn first_message(
    prompt: Option<Seq<char>>,
    images: Seq<Seq<char>>,
) -> Option<UserMessageView> {
    let prompt = match prompt {
        Some(prompt) => prompt,
        None => seq![],
    };
    if prompt.len() == 0 && images.len() == 0 {
        None
    } else {
        Some(UserMessageView { text: prompt, image_paths: images, source: SourceView::Local })
    }
}

/// A model that is named: not blank.
pub open spec fn named_model(model: Option<Seq<char>>) -> Option<Seq<char>> {
    match model {
        Some(model) => if text::is_blank(model) {
            None
        } else {
            Some(model)
        },
        None => None,
    }
}

/// A chat in which nothing has happened.
pub open spec fn new_chat(
    init: ChatInitView,
    model: Option<Seq<char>>,
    config_model: Option<Seq<char>>,
    welcome: bool,
    quiet: bool,
    agent_id: Seq<char>,
) -> ChatView {
    ChatView {
        outbox: seq![],
        model: model,
        config_model: config_model,
        collaboration_modes: init.collaboration_modes,
        hide_rate_limit_nudge: init.hide_rate_limit_nudge,
        feedback_enabled: init.feedback_enabled,
        notifications: init.notifications,
        rate_limit_warnings: RateLimitWarningState { secondary_index: 0, primary_index: 0 },
        rate_limit_snapshot: None,
        plan_type: None,
        rate_limit_switch_prompt: RateLimitSwitchPromptState::Idle,
        initial_user_message: first_message(init.initial_prompt, init.initial_images),
        token_info: None,
        pre_review_token_info: None,
        streaming: false,
        running_commands: seq![],
        suppressed_exec_calls: seq![],
        last_unified_wait: None,
        task_complete_pending: false,
        agent_turn_running: false,
        mcp_startup_status: None,
        task_running: false,
        interrupts: seq![],
        reasoning_buffer: seq![],
        full_reasoning_buffer: seq![],
        current_status_header: "Working"@,
        retry_status_header: None,
        conversation_id: None,
        forked_from: None,
        selected_weave_session_id: None,
        selected_weave_session_name: None,
        weave_agent_id: agent_id,
        weave_agent_name: default_name(agent_id),
        weave_connected: false,
        weave_agents: None,
        pending_weave_relay: None,
        active_weave_relay: None,
        active_weave_plan: None,
        pending_weave_plan: false,
        weave_relay_buffer: seq![],
        relay_output_consumed: false,
        weave_inbound_task_ids: seq![],
        weave_target_states: seq![],
        pending_weave_action_messages: seq![],
        pending_weave_new_session_result: None,
        pending_weave_new_session_context: None,
        pending_weave_new_session: false,
        show_welcome_banner: welcome,
        suppress_session_configured_redraw: quiet,
        queued_user_messages: seq![],
        active_weave_reply_target: None,
        active_weave_control_context: None,
        suppress_weave_interrupt: false,
        pending_notification: None,
        quit_shortcut_expires_at: None,
        quit_shortcut_key: None,
        is_review_mode: false,
        current_rollout_path: None,
        skills: None,
        ids: seq![],
    }
}

/// The name under which an agent goes at first.
pub fn default_weave_agent_name(agent_id: &str) -> (r: String)
    ensures
        r@ == default_name(agent_id@),
{
    let short = match text::split_once(agent_id, '-') {
        Some((short, _)) => short,
        None => agent_id,
    };
    text::concat2("codex-", short)
}

fn initial_message(prompt: Option<String>, images: Vec<String>) -> (r: Option<UserMessage>)
    ensures
        r.deep_view() == first_message(prompt.deep_view(), text::views(images@)),
{
    let prompt = match prompt {
        Some(prompt) => prompt,
        None => {
            let none = String::new();
            proof {
                assert(none@ =~= seq![]);
            }
            none
        },
    };
    proof {
        assert(text::views(images@).len() == images@.len());
    }
    if prompt.as_str().is_empty() && images.len() == 0 {
        None
    } else {
        Some(UserMessage { text: prompt, image_paths: images, source: UserMessageSource::Local })
    }
}

fn name_model(model: &Option<String>) -> (r: Option<String>)
    ensures
        r.deep_view() == named_model(model.deep_view()),
{
    match model {
        Some(model) => if text::blank(model.as_str()) {
            None
        } else {
            Some(model.clone())
        },
        None => None,
    }
}

fn start_chat(
    init: ChatWidgetInit,
    model: Option<String>,
    config_model: Option<String>,
    welcome: bool,
    quiet: bool,
    agent_id: String,
) -> (r: ChatWidget)
    ensures
        r@ == new_chat(
            init.deep_view(),
            model.deep_view(),
            config_model.deep_view(),
            welcome,
            quiet,
            agent_id@,
        ),
{
    let agent_name = default_weave_agent_name(agent_id.as_str());
    let r = ChatWidget {
        outbox: Vec::new(),
        model: model,
        config_model: config_model,
        collaboration_modes: init.collaboration_modes,
        hide_rate_limit_nudge: init.hide_rate_limit_nudge,
        feedback_enabled: init.feedback_enabled,
        notifications: init.notifications,
        rate_limit_warnings: RateLimitWarningState::new(),
        rate_limit_snapshot: None,
        plan_type: None,
        rate_limit_switch_prompt: RateLimitSwitchPromptState::Idle,
        initial_user_message: initial_message(init.initial_prompt, init.initial_images),
        token_info: None,
        pre_review_token_info: None,
        streaming: false,
        running_commands: Table::new(),
        suppressed_exec_calls: Vec::new(),
        last_unified_wait: None,
        task_complete_pending: false,
        agent_turn_running: false,
        mcp_startup_status: None,
        task_running: false,
        interrupts: Vec::new(),
        reasoning_buffer: String::new(),
        full_reasoning_buffer: String::new(),
        current_status_header: "Working".to_owned(),
        retry_status_header: None,
        conversation_id: None,
        forked_from: None,
        selected_weave_session_id: None,
        selected_weave_session_name: None,
        weave_agent_id: agent_id,
        weave_agent_name: agent_name,
        weave_connected: false,
        weave_agents: None,
        pending_weave_relay: None,
        active_weave_relay: None,
        active_weave_plan: None,
        pending_weave_plan: false,
        weave_relay_buffer: String::new(),
        relay_output_consumed: false,
        weave_inbound_task_ids: Table::new(),
        weave_target_states: Table::new(),
        pending_weave_action_messages: Vec::new(),
        pending_weave_new_session_result: None,
        pending_weave_new_session_context: None,
        pending_weave_new_session: false,
        show_welcome_banner: welcome,
        suppress_session_configured_redraw: quiet,
        queued_user_messages: Vec::new(),
        active_weave_reply_target: None,
        active_weave_control_context: None,
        suppress_weave_interrupt: false,
        pending_notification: None,
        quit_shortcut_expires_at: None,
        quit_shortcut_key: None,
        is_review_mode: false,
        current_rollout_path: None,
        skills: None,
        ids: Ghost(Seq::empty()),
    };
    proof {
        assert(r.outbox.deep_view() =~= seq![]);
        assert(text::views(r.suppressed_exec_calls@) =~= seq![]);
        assert(r.interrupts.deep_view() =~= seq![]);
        assert(r.reasoning_buffer@ =~= seq![]);
        assert(r.full_reasoning_buffer@ =~= seq![]);
        assert(r.weave_relay_buffer@ =~= seq![]);
        assert(r.pending_weave_action_messages.deep_view() =~= seq![]);
        assert(r.queued_user_messages.deep_view() =~= seq![]);
    }
    r
}

/// The hints that an empty composer shows.
pub const PLACEHOLDERS: [&'static str; 8] = [
    "Explain this codebase",
    "Summarize recent commits",
    "Implement {feature}",
    "Find and fix a bug in @filename",
    "Write tests for @filename",
    "Improve documentation in @filename",
    "Run /review on my current changes",
    "Use /skills to list available skills",
];

/// One of the hints that an empty composer shows.
pub fn pick_placeholder() -> (r: &'static str)
    ensures
        exists|i: int| 0 <= i < 8 && r@ == (#[trigger] PLACEHOLDERS@[i])@,
{
    let i = outside::random_below(8);
    PLACEHOLDERS[i]
}

impl ChatWidget {
    /// A chat with a new session.
    pub fn new(init: ChatWidgetInit) -> (r: ChatWidget)
        ensures
            outside::is_random_id(r@.weave_agent_id),
            r@ == new_chat(
                init.deep_view(),
                named_model(init.model.deep_view()),
                named_model(init.model.deep_view()),
                init.is_first_run,
                false,
                r@.weave_agent_id,
            ).emit(EffectView::WeaveIdentity(r@.weave_agent_id)),
    {
        let model = name_model(&init.model);
        let config_model = name_model(&init.model);
        let welcome = init.is_first_run;
        let agent_id = outside::random_id();
        let mut r = start_chat(init, model, config_model, welcome, false, agent_id.clone());
        proof {
            reveal(ChatView::emit);
        }
        r.emit(Effect::WeaveIdentity(agent_id));
        r
    }

    /// A chat that goes on with a session that is there; `session_model` is the
    /// model of that session.
    pub fn new_from_existing(init: ChatWidgetInit, session_model: String) -> (r: ChatWidget)
        ensures
            outside::is_random_id(r@.weave_agent_id),
            r@ == new_chat(
                init.deep_view(),
                match named_model(init.model.deep_view()) {
                    Some(model) => Some(model),
                    None => Some(session_model@),
                },
                named_model(init.model.deep_view()),
                false,
                true,
                r@.weave_agent_id,
            ).emit(EffectView::WeaveIdentity(r@.weave_agent_id)),
    {
        let config_model = name_model(&init.model);
        let model = match name_model(&init.model) {
            Some(model) => Some(model),
            None => Some(session_model),
        };
        let agent_id = outside::random_id();
        let mut r = start_chat(init, model, config_model, false, true, agent_id.clone());
        proof {
            reveal(ChatView::emit);
        }
        r.emit(Effect::WeaveIdentity(agent_id));
        r
    }

    /// What is to be done outside, in this order. It is handed out once.
    pub fn take_outbox(&mut self) -> (r: Vec<Effect>)
        ensures
            r.deep_view() == old(self)@.outbox,
            final(self)@ == (ChatView { outbox: seq![], ..old(self)@ }),
    {
        let mut value: Vec<Effect> = Vec::new();
        proof {
            assert(value.deep_view() =~= seq![]);
        }
        std::mem::swap(&mut value, &mut self.outbox);
        value
    }
}

impl ChatWidget {
    pub(super) fn get_model(&self) -> (r: &Option<String>)
        ensures
            r.deep_view() == self@.model,
    {
        &self.model
    }

    pub(super) fn put_model(&mut self, value: Option<String>)
        ensures
            final(self)@ == (ChatView { model: value.deep_view(), ..old(self)@ }),
    {
        self.model = value;
    }

    pub(super) fn get_config_model(&self) -> (r: &Option<String>)
        ensures
            r.deep_view() == self@.config_model,
    {
        &self.config_model
    }

    pub(super) fn get_collaboration_modes(&self) -> (r: bool)
        ensures
            r == self@.collaboration_modes,
    {
        self.collaboration_modes
    }

    pub(super) fn put_collaboration_modes(&mut self, value: bool)
        ensures
            final(self)@ == (ChatView { collaboration_modes: value, ..old(self)@ }),
    {
        self.collaboration_modes = value;
    }

    pub(super) fn get_hide_rate_limit_nudge(&self) -> (r: bool)
        ensures
            r == self@.hide_rate_limit_nudge,
    {
        self.hide_rate_limit_nudge
    }

    pub(super) fn put_hide_rate_limit_nudge(&mut self, value: bool)
        ensures
            final(self)@ == (ChatView { hide_rate_limit_nudge: value, ..old(self)@ }),
    {
        self.hide_rate_limit_nudge = value;
    }

    pub(super) fn get_feedback_enabled(&self) -> (r: bool)
        ensures
            r == self@.feedback_enabled,
    {
        self.feedback_enabled
    }

    pub(super) fn get_notifications(&self) -> (r: &NotificationSettings)
        ensures
            r.deep_view() == self@.notifications,
    {
        &self.notifications
    }

    /// What can be shown of the limits, where that is known.
    pub fn rate_limit_snapshot(&self) -> (r: &Option<LimitsDisplay>)
        ensures
            r.deep_view() == self@.rate_limit_snapshot,
    {
        &self.rate_limit_snapshot
    }

    pub(super) fn put_rate_limit_snapshot(&mut self, value: Option<LimitsDisplay>)
        ensures
            final(self)@ == (ChatView { rate_limit_snapshot: value.deep_view(), ..old(self)@ }),
    {
        self.rate_limit_snapshot = value;
    }

    pub(super) fn take_rate_limit_snapshot(&mut self) -> (r: Option<LimitsDisplay>)
        ensures
            r.deep_view() == old(self)@.rate_limit_snapshot,
            final(self)@ == (ChatView { rate_limit_snapshot: None, ..old(self)@ }),
    {
        self.rate_limit_snapshot.take()
    }

    /// The name of what the user subscribes to, where that is known.
    pub fn plan_type(&self) -> (r: &Option<String>)
        ensures
            r.deep_view() == self@.plan_type,
    {
        &self.plan_type
    }

    pub(super) fn put_plan_type(&mut self, value: Option<String>)
        ensures
            final(self)@ == (ChatView { plan_type: value.deep_view(), ..old(self)@ }),
    {
        self.plan_type = value;
    }

    pub(super) fn take_plan_type(&mut self) -> (r: Option<String>)
        ensures
            r.deep_view() == old(self)@.plan_type,
            final(self)@ == (ChatView { plan_type: None, ..old(self)@ }),
    {
        self.plan_type.take()
    }

    pub(super) fn get_rate_limit_warnings(&self) -> (r: RateLimitWarningState)
        ensures
            r == self@.rate_limit_warnings,
    {
        self.rate_limit_warnings
    }

    pub(super) fn put_rate_limit_warnings(&mut self, value: RateLimitWarningState)
        ensures
            final(self)@ == (ChatView { rate_limit_warnings: value, ..old(self)@ }),
    {
        self.rate_limit_warnings = value;
    }

    pub(super) fn get_rate_limit_switch_prompt(&self) -> (r: RateLimitSwitchPromptState)
        ensures
            r == self@.rate_limit_switch_prompt,
    {
        self.rate_limit_switch_prompt
    }

    pub(super) fn put_rate_limit_switch_prompt(&mut self, value: RateLimitSwitchPromptState)
        ensures
            final(self)@ == (ChatView { rate_limit_switch_prompt: value, ..old(self)@ }),
    {
        self.rate_limit_switch_prompt = value;
    }

    pub(super) fn take_initial_user_message(&mut self) -> (r: Option<UserMessage>)
        ensures
            r.deep_view() == old(self)@.initial_user_message,
            final(self)@ == (ChatView { initial_user_message: None, ..old(self)@ }),
    {
        let mut value: Option<UserMessage> = None;
        std::mem::swap(&mut value, &mut self.initial_user_message);
        value
    }

    pub(super) fn get_token_info(&self) -> (r: Option<TokenInfo>)
        ensures
            r == self@.token_info,
    {
        self.token_info
    }

    pub(super) fn put_token_info(&mut self, value: Option<TokenInfo>)
        ensures
            final(self)@ == (ChatView { token_info: value, ..old(self)@ }),
    {
        self.token_info = value;
    }

    pub(super) fn get_pre_review_token_info(&self) -> (r: Option<Option<TokenInfo>>)
        ensures
            r == self@.pre_review_token_info,
    {
        self.pre_review_token_info
    }

    pub(super) fn put_pre_review_token_info(&mut self, value: Option<Option<TokenInfo>>)
        ensures
            final(self)@ == (ChatView { pre_review_token_info: value, ..old(self)@ }),
    {
        self.pre_review_token_info = value;
    }

    pub(super) fn get_streaming(&self) -> (r: bool)
        ensures
            r == self@.streaming,
    {
        self.streaming
    }

    pub(super) fn put_streaming(&mut self, value: bool)
        ensures
            final(self)@ == (ChatView { streaming: value, ..old(self)@ }),
    {
        self.streaming = value;
    }

    pub(super) fn put_running_commands(&mut self, value: Table<RunningCommand>)
        ensures
            final(self)@ == (ChatView { running_commands: value.deep_view(), ..old(self)@ }),
    {
        self.running_commands = value;
    }

    pub(super) fn take_running_commands(&mut self) -> (r: Table<RunningCommand>)
        ensures
            r.deep_view() == old(self)@.running_commands,
            final(self)@ == (ChatView { running_commands: seq![], ..old(self)@ }),
    {
        let mut value: Table<RunningCommand> = Table::new();
        std::mem::swap(&mut value, &mut self.running_commands);
        value
    }

    pub(super) fn get_suppressed_exec_calls(&self) -> (r: &Vec<String>)
        ensures
            text::views(r@) == self@.suppressed_exec_calls,
    {
        &self.suppressed_exec_calls
    }

    pub(super) fn put_suppressed_exec_calls(&mut self, value: Vec<String>)
        ensures
            final(self)@ == (ChatView { suppressed_exec_calls: text::views(value@), ..old(self)@ }),
    {
        self.suppressed_exec_calls = value;
    }

    pub(super) fn take_suppressed_exec_calls(&mut self) -> (r: Vec<String>)
        ensures
            text::views(r@) == old(self)@.suppressed_exec_calls,
            final(self)@ == (ChatView { suppressed_exec_calls: seq![], ..old(self)@ }),
    {
        let mut value: Vec<String> = Vec::new();
        proof {
            assert(text::views(value@) =~= seq![]);
        }
        std::mem::swap(&mut value, &mut self.suppressed_exec_calls);
        value
    }

    pub(super) fn get_last_unified_wait(&self) -> (r: &Option<String>)
        ensures
            r.deep_view() == self@.last_unified_wait,
    {
        &self.last_unified_wait
    }

    pub(super) fn put_last_unified_wait(&mut self, value: Option<String>)
        ensures
            final(self)@ == (ChatView { last_unified_wait: value.deep_view(), ..old(self)@ }),
    {
        self.last_unified_wait = value;
    }

    pub(super) fn get_task_complete_pending(&self) -> (r: bool)
        ensures
            r == self@.task_complete_pending,
    {
        self.task_complete_pending
    }

    pub(super) fn put_task_complete_pending(&mut self, value: bool)
        ensures
            final(self)@ == (ChatView { task_complete_pending: value, ..old(self)@ }),
    {
        self.task_complete_pending = value;
    }

    pub(super) fn get_agent_turn_running(&self) -> (r: bool)
        ensures
            r == self@.agent_turn_running,
    {
        self.agent_turn_running
    }

    pub(super) fn put_agent_turn_running(&mut self, value: bool)
        ensures
            final(self)@ == (ChatView { agent_turn_running: value, ..old(self)@ }),
    {
        self.agent_turn_running = value;
    }

    pub(super) fn get_mcp_startup_status(&self) -> (r: &Option<Table<McpStartupStatus>>)
        ensures
            r.deep_view() == self@.mcp_startup_status,
    {
        &self.mcp_startup_status
    }

    pub(super) fn put_mcp_startup_status(&mut self, value: Option<Table<McpStartupStatus>>)
        ensures
            final(self)@ == (ChatView { mcp_startup_status: value.deep_view(), ..old(self)@ }),
    {
        self.mcp_startup_status = value;
    }

    pub(super) fn get_task_running(&self) -> (r: bool)
        ensures
            r == self@.task_running,
    {
        self.task_running
    }

    pub(super) fn put_task_running(&mut self, value: bool)
        ensures
            final(self)@ == (ChatView { task_running: value, ..old(self)@ }),
    {
        self.task_running = value;
    }

    pub(super) fn get_interrupts(&self) -> (r: &Vec<InterruptEvent>)
        ensures
            r.deep_view() == self@.interrupts,
    {
        &self.interrupts
    }

    pub(super) fn put_interrupts(&mut self, value: Vec<InterruptEvent>)
        ensures
            final(self)@ == (ChatView { interrupts: value.deep_view(), ..old(self)@ }),
    {
        self.interrupts = value;
    }

    pub(super) fn take_interrupts(&mut self) -> (r: Vec<InterruptEvent>)
        ensures
            r.deep_view() == old(self)@.interrupts,
            final(self)@ == (ChatView { interrupts: seq![], ..old(self)@ }),
    {
        let mut value: Vec<InterruptEvent> = Vec::new();
        proof {
            assert(value.deep_view() =~= seq![]);
        }
        std::mem::swap(&mut value, &mut self.interrupts);
        value
    }

    pub(super) fn get_reasoning_buffer(&self) -> (r: &str)
        ensures
            r@ == self@.reasoning_buffer,
    {
        self.reasoning_buffer.as_str()
    }

    pub(super) fn put_reasoning_buffer(&mut self, value: String)
        ensures
            final(self)@ == (ChatView { reasoning_buffer: value@, ..old(self)@ }),
    {
        self.reasoning_buffer = value;
    }

    pub(super) fn take_reasoning_buffer(&mut self) -> (r: String)
        ensures
            r@ == old(self)@.reasoning_buffer,
            final(self)@ == (ChatView { reasoning_buffer: seq![], ..old(self)@ }),
    {
        let mut value: String = String::new();
        proof {
            assert(value@ =~= seq![]);
        }
        std::mem::swap(&mut value, &mut self.reasoning_buffer);
        value
    }

    pub(super) fn get_full_reasoning_buffer(&self) -> (r: &str)
        ensures
            r@ == self@.full_reasoning_buffer,
    {
        self.full_reasoning_buffer.as_str()
    }

    pub(super) fn put_full_reasoning_buffer(&mut self, value: String)
        ensures
            final(self)@ == (ChatView { full_reasoning_buffer: value@, ..old(self)@ }),
    {
        self.full_reasoning_buffer = value;
    }

    pub(super) fn take_full_reasoning_buffer(&mut self) -> (r: String)
        ensures
            r@ == old(self)@.full_reasoning_buffer,
            final(self)@ == (ChatView { full_reasoning_buffer: seq![], ..old(self)@ }),
    {
        let mut value: String = String::new();
        proof {
            assert(value@ =~= seq![]);
        }
        std::mem::swap(&mut value, &mut self.full_reasoning_buffer);
        value
    }

    pub(super) fn get_current_status_header(&self) -> (r: &str)
        ensures
            r@ == self@.current_status_header,
    {
        self.current_status_header.as_str()
    }

    pub(super) fn put_current_status_header(&mut self, value: String)
        ensures
            final(self)@ == (ChatView { current_status_header: value@, ..old(self)@ }),
    {
        self.current_status_header = value;
    }

    pub(super) fn get_retry_status_header(&self) -> (r: &Option<String>)
        ensures
            r.deep_view() == self@.retry_status_header,
    {
        &self.retry_status_header
    }

    pub(super) fn put_retry_status_header(&mut self, value: Option<String>)
        ensures
            final(self)@ == (ChatView { retry_status_header: value.deep_view(), ..old(self)@ }),
    {
        self.retry_status_header = value;
    }

    pub(super) fn get_conversation_id(&self) -> (r: &Option<String>)
        ensures
            r.deep_view() == self@.conversation_id,
    {
        &self.conversation_id
    }

    pub(super) fn put_conversation_id(&mut self, value: Option<String>)
        ensures
            final(self)@ == (ChatView { conversation_id: value.deep_view(), ..old(self)@ }),
    {
        self.conversation_id = value;
    }

    pub(super) fn put_forked_from(&mut self, value: Option<String>)
        ensures
            final(self)@ == (ChatView { forked_from: value.deep_view(), ..old(self)@ }),
    {
        self.forked_from = value;
    }

    pub(super) fn get_selected_weave_session_id(&self) -> (r: &Option<String>)
        ensures
            r.deep_view() == self@.selected_weave_session_id,
    {
        &self.selected_weave_session_id
    }

    pub(super) fn put_selected_weave_session_id(&mut self, value: Option<String>)
        ensures
            final(self)@ == (ChatView { selected_weave_session_id: value.deep_view(), ..old(self)@ }),
    {
        self.selected_weave_session_id = value;
    }

    pub(super) fn get_selected_weave_session_name(&self) -> (r: &Option<String>)
        ensures
            r.deep_view() == self@.selected_weave_session_name,
    {
        &self.selected_weave_session_name
    }

    pub(super) fn put_selected_weave_session_name(&mut self, value: Option<String>)
        ensures
            final(self)@ == (ChatView { selected_weave_session_name: value.deep_view(), ..old(self)@ }),
    {
        self.selected_weave_session_name = value;
    }

    pub(super) fn get_weave_agent_id(&self) -> (r: &str)
        ensures
            r@ == self@.weave_agent_id,
    {
        self.weave_agent_id.as_str()
    }

    pub(super) fn put_weave_agent_id(&mut self, value: String)
        ensures
            final(self)@ == (ChatView { weave_agent_id: value@, ..old(self)@ }),
    {
        self.weave_agent_id = value;
    }

    pub(super) fn get_weave_agent_name(&self) -> (r: &str)
        ensures
            r@ == self@.weave_agent_name,
    {
        self.weave_agent_name.as_str()
    }

    pub(super) fn put_weave_agent_name(&mut self, value: String)
        ensures
            final(self)@ == (ChatView { weave_agent_name: value@, ..old(self)@ }),
    {
        self.weave_agent_name = value;
    }

    pub(super) fn get_weave_connected(&self) -> (r: bool)
        ensures
            r == self@.weave_connected,
    {
        self.weave_connected
    }

    pub(super) fn put_weave_connected(&mut self, value: bool)
        ensures
            final(self)@ == (ChatView { weave_connected: value, ..old(self)@ }),
    {
        self.weave_connected = value;
    }

    pub(super) fn get_weave_agents(&self) -> (r: &Option<Vec<WeaveAgent>>)
        ensures
            r.deep_view() == self@.weave_agents,
    {
        &self.weave_agents
    }

    pub(super) fn put_weave_agents(&mut self, value: Option<Vec<WeaveAgent>>)
        ensures
            final(self)@ == (ChatView { weave_agents: value.deep_view(), ..old(self)@ }),
    {
        self.weave_agents = value;
    }

    pub(super) fn get_pending_weave_relay(&self) -> (r: &Option<WeaveRelayTargets>)
        ensures
            r.deep_view() == self@.pending_weave_relay,
    {
        &self.pending_weave_relay
    }

    pub(super) fn put_pending_weave_relay(&mut self, value: Option<WeaveRelayTargets>)
        ensures
            final(self)@ == (ChatView { pending_weave_relay: value.deep_view(), ..old(self)@ }),
    {
        self.pending_weave_relay = value;
    }

    pub(super) fn get_active_weave_relay(&self) -> (r: &Option<WeaveRelayTargets>)
        ensures
            r.deep_view() == self@.active_weave_relay,
    {
        &self.active_weave_relay
    }

    pub(super) fn put_active_weave_relay(&mut self, value: Option<WeaveRelayTargets>)
        ensures
            final(self)@ == (ChatView { active_weave_relay: value.deep_view(), ..old(self)@ }),
    {
        self.active_weave_relay = value;
    }

    pub(super) fn get_active_weave_plan(&self) -> (r: &Option<WeavePlanState>)
        ensures
            r.deep_view() == self@.active_weave_plan,
    {
        &self.active_weave_plan
    }

    pub(super) fn put_active_weave_plan(&mut self, value: Option<WeavePlanState>)
        ensures
            final(self)@ == (ChatView { active_weave_plan: value.deep_view(), ..old(self)@ }),
    {
        self.active_weave_plan = value;
    }

    pub(super) fn get_pending_weave_plan(&self) -> (r: bool)
        ensures
            r == self@.pending_weave_plan,
    {
        self.pending_weave_plan
    }

    pub(super) fn put_pending_weave_plan(&mut self, value: bool)
        ensures
            final(self)@ == (ChatView { pending_weave_plan: value, ..old(self)@ }),
    {
        self.pending_weave_plan = value;
    }

    pub(super) fn get_weave_relay_buffer(&self) -> (r: &str)
        ensures
            r@ == self@.weave_relay_buffer,
    {
        self.weave_relay_buffer.as_str()
    }

    pub(super) fn put_weave_relay_buffer(&mut self, value: String)
        ensures
            final(self)@ == (ChatView { weave_relay_buffer: value@, ..old(self)@ }),
    {
        self.weave_relay_buffer = value;
    }

    pub(super) fn take_weave_relay_buffer(&mut self) -> (r: String)
        ensures
            r@ == old(self)@.weave_relay_buffer,
            final(self)@ == (ChatView { weave_relay_buffer: seq![], ..old(self)@ }),
    {
        let mut value: String = String::new();
        proof {
            assert(value@ =~= seq![]);
        }
        std::mem::swap(&mut value, &mut self.weave_relay_buffer);
        value
    }

    pub(super) fn get_relay_output_consumed(&self) -> (r: bool)
        ensures
            r == self@.relay_output_consumed,
    {
        self.relay_output_consumed
    }

    pub(super) fn put_relay_output_consumed(&mut self, value: bool)
        ensures
            final(self)@ == (ChatView { relay_output_consumed: value, ..old(self)@ }),
    {
        self.relay_output_consumed = value;
    }

    pub(super) fn get_weave_inbound_task_ids(&self) -> (r: &Table<String>)
        ensures
            r.deep_view() == self@.weave_inbound_task_ids,
    {
        &self.weave_inbound_task_ids
    }

    pub(super) fn put_weave_inbound_task_ids(&mut self, value: Table<String>)
        ensures
            final(self)@ == (ChatView { weave_inbound_task_ids: value.deep_view(), ..old(self)@ }),
    {
        self.weave_inbound_task_ids = value;
    }

    pub(super) fn take_weave_inbound_task_ids(&mut self) -> (r: Table<String>)
        ensures
            r.deep_view() == old(self)@.weave_inbound_task_ids,
            final(self)@ == (ChatView { weave_inbound_task_ids: seq![], ..old(self)@ }),
    {
        let mut value: Table<String> = Table::new();
        std::mem::swap(&mut value, &mut self.weave_inbound_task_ids);
        value
    }

    pub(super) fn get_weave_target_states(&self) -> (r: &Table<WeaveRelayTargetState>)
        ensures
            r.deep_view() == self@.weave_target_states,
    {
        &self.weave_target_states
    }

    pub(super) fn put_weave_target_states(&mut self, value: Table<WeaveRelayTargetState>)
        ensures
            final(self)@ == (ChatView { weave_target_states: value.deep_view(), ..old(self)@ }),
    {
        self.weave_target_states = value;
    }

    pub(super) fn take_weave_target_states(&mut self) -> (r: Table<WeaveRelayTargetState>)
        ensures
            r.deep_view() == old(self)@.weave_target_states,
            final(self)@ == (ChatView { weave_target_states: seq![], ..old(self)@ }),
    {
        let mut value: Table<WeaveRelayTargetState> = Table::new();
        std::mem::swap(&mut value, &mut self.weave_target_states);
        value
    }

    pub(super) fn get_pending_weave_action_messages(&self) -> (r: &Vec<WeaveIncomingMessage>)
        ensures
            r.deep_view() == self@.pending_weave_action_messages,
    {
        &self.pending_weave_action_messages
    }

    pub(super) fn put_pending_weave_action_messages(&mut self, value: Vec<WeaveIncomingMessage>)
        ensures
            final(self)@ == (ChatView { pending_weave_action_messages: value.deep_view(), ..old(self)@ }),
    {
        self.pending_weave_action_messages = value;
    }

    pub(super) fn take_pending_weave_action_messages(&mut self) -> (r: Vec<WeaveIncomingMessage>)
        ensures
            r.deep_view() == old(self)@.pending_weave_action_messages,
            final(self)@ == (ChatView { pending_weave_action_messages: seq![], ..old(self)@ }),
    {
        let mut value: Vec<WeaveIncomingMessage> = Vec::new();
        proof {
            assert(value.deep_view() =~= seq![]);
        }
        std::mem::swap(&mut value, &mut self.pending_weave_action_messages);
        value
    }

    pub(super) fn get_pending_weave_new_session_result(&self) -> (r: &Option<WeavePendingActionResult>)
        ensures
            r.deep_view() == self@.pending_weave_new_session_result,
    {
        &self.pending_weave_new_session_result
    }

    pub(super) fn put_pending_weave_new_session_result(&mut self, value: Option<WeavePendingActionResult>)
        ensures
            final(self)@ == (ChatView { pending_weave_new_session_result: value.deep_view(), ..old(self)@ }),
    {
        self.pending_weave_new_session_result = value;
    }

    pub(super) fn take_pending_weave_new_session_result(&mut self) -> (r: Option<WeavePendingActionResult>)
        ensures
            r.deep_view() == old(self)@.pending_weave_new_session_result,
            final(self)@ == (ChatView { pending_weave_new_session_result: None, ..old(self)@ }),
    {
        let mut value: Option<WeavePendingActionResult> = None;
        std::mem::swap(&mut value, &mut self.pending_weave_new_session_result);
        value
    }

    pub(super) fn get_pending_weave_new_session_context(&self) -> (r: &Option<WeavePendingNewSessionContext>)
        ensures
            r.deep_view() == self@.pending_weave_new_session_context,
    {
        &self.pending_weave_new_session_context
    }

    pub(super) fn put_pending_weave_new_session_context(&mut self, value: Option<WeavePendingNewSessionContext>)
        ensures
            final(self)@ == (ChatView { pending_weave_new_session_context: value.deep_view(), ..old(self)@ }),
    {
        self.pending_weave_new_session_context = value;
    }

    pub(super) fn get_pending_weave_new_session(&self) -> (r: bool)
        ensures
            r == self@.pending_weave_new_session,
    {
        self.pending_weave_new_session
    }

    pub(super) fn put_pending_weave_new_session(&mut self, value: bool)
        ensures
            final(self)@ == (ChatView { pending_weave_new_session: value, ..old(self)@ }),
    {
        self.pending_weave_new_session = value;
    }

    pub(super) fn get_suppress_session_configured_redraw(&self) -> (r: bool)
        ensures
            r == self@.suppress_session_configured_redraw,
    {
        self.suppress_session_configured_redraw
    }

    pub(super) fn get_queued_user_messages(&self) -> (r: &Vec<UserMessage>)
        ensures
            r.deep_view() == self@.queued_user_messages,
    {
        &self.queued_user_messages
    }

    pub(super) fn put_queued_user_messages(&mut self, value: Vec<UserMessage>)
        ensures
            final(self)@ == (ChatView { queued_user_messages: value.deep_view(), ..old(self)@ }),
    {
        self.queued_user_messages = value;
    }

    pub(super) fn take_queued_user_messages(&mut self) -> (r: Vec<UserMessage>)
        ensures
            r.deep_view() == old(self)@.queued_user_messages,
            final(self)@ == (ChatView { queued_user_messages: seq![], ..old(self)@ }),
    {
        let mut value: Vec<UserMessage> = Vec::new();
        proof {
            assert(value.deep_view() =~= seq![]);
        }
        std::mem::swap(&mut value, &mut self.queued_user_messages);
        value
    }

    pub(super) fn get_active_weave_reply_target(&self) -> (r: &Option<WeaveReplyTarget>)
        ensures
            r.deep_view() == self@.active_weave_reply_target,
    {
        &self.active_weave_reply_target
    }

    pub(super) fn put_active_weave_reply_target(&mut self, value: Option<WeaveReplyTarget>)
        ensures
            final(self)@ == (ChatView { active_weave_reply_target: value.deep_view(), ..old(self)@ }),
    {
        self.active_weave_reply_target = value;
    }

    pub(super) fn get_active_weave_control_context(&self) -> (r: &Option<WeaveControlContext>)
        ensures
            r.deep_view() == self@.active_weave_control_context,
    {
        &self.active_weave_control_context
    }

    pub(super) fn put_active_weave_control_context(&mut self, value: Option<WeaveControlContext>)
        ensures
            final(self)@ == (ChatView { active_weave_control_context: value.deep_view(), ..old(self)@ }),
    {
        self.active_weave_control_context = value;
    }

    pub(super) fn get_suppress_weave_interrupt(&self) -> (r: bool)
        ensures
            r == self@.suppress_weave_interrupt,
    {
        self.suppress_weave_interrupt
    }

    pub(super) fn put_suppress_weave_interrupt(&mut self, value: bool)
        ensures
            final(self)@ == (ChatView { suppress_weave_interrupt: value, ..old(self)@ }),
    {
        self.suppress_weave_interrupt = value;
    }

    pub(super) fn put_pending_notification(&mut self, value: Option<Notification>)
        ensures
            final(self)@ == (ChatView { pending_notification: value.deep_view(), ..old(self)@ }),
    {
        self.pending_notification = value;
    }

    pub(super) fn take_pending_notification(&mut self) -> (r: Option<Notification>)
        ensures
            r.deep_view() == old(self)@.pending_notification,
            final(self)@ == (ChatView { pending_notification: None, ..old(self)@ }),
    {
        let mut value: Option<Notification> = None;
        std::mem::swap(&mut value, &mut self.pending_notification);
        value
    }

    pub(super) fn get_quit_shortcut_expires_at(&self) -> (r: Option<u64>)
        ensures
            r == self@.quit_shortcut_expires_at,
    {
        self.quit_shortcut_expires_at
    }

    pub(super) fn put_quit_shortcut_expires_at(&mut self, value: Option<u64>)
        ensures
            final(self)@ == (ChatView { quit_shortcut_expires_at: value, ..old(self)@ }),
    {
        self.quit_shortcut_expires_at = value;
    }

    pub(super) fn get_quit_shortcut_key(&self) -> (r: Option<QuitKey>)
        ensures
            r == self@.quit_shortcut_key,
    {
        self.quit_shortcut_key
    }

    pub(super) fn put_quit_shortcut_key(&mut self, value: Option<QuitKey>)
        ensures
            final(self)@ == (ChatView { quit_shortcut_key: value, ..old(self)@ }),
    {
        self.quit_shortcut_key = value;
    }

    pub(super) fn get_is_review_mode(&self) -> (r: bool)
        ensures
            r == self@.is_review_mode,
    {
        self.is_review_mode
    }

    pub(super) fn put_is_review_mode(&mut self, value: bool)
        ensures
            final(self)@ == (ChatView { is_review_mode: value, ..old(self)@ }),
    {
        self.is_review_mode = value;
    }

    pub(super) fn get_current_rollout_path(&self) -> (r: &Option<String>)
        ensures
            r.deep_view() == self@.current_rollout_path,
    {
        &self.current_rollout_path
    }

    pub(super) fn put_current_rollout_path(&mut self, value: Option<String>)
        ensures
            final(self)@ == (ChatView { current_rollout_path: value.deep_view(), ..old(self)@ }),
    {
        self.current_rollout_path = value;
    }

    pub(super) fn get_skills(&self) -> (r: &Option<Vec<Skill>>)
        ensures
            r.deep_view() == self@.skills,
    {
        &self.skills
    }

    pub(super) fn put_skills(&mut self, value: Option<Vec<Skill>>)
        ensures
            final(self)@ == (ChatView { skills: value.deep_view(), ..old(self)@ }),
    {
        self.skills = value;
    }
}

/// What the user said on starting is said first, with its images; where nothing was said,
/// nothing is.
pub proof fn law_what_was_given_is_said_first(prompt: Option<Seq<char>>, images: Seq<Seq<char>>)
    ensures
        first_message(prompt, images) is None <==> images.len() == 0 && (prompt is None
            || prompt->0.len() == 0),
        first_message(prompt, images) is Some ==> first_message(prompt, images)->0.image_paths
            == images && first_message(prompt, images)->0.source is Local,
        first_message(prompt, images) is Some && prompt is Some ==> first_message(
            prompt,
            images,
        )->0.text == prompt->0,
{
}

/// An agent is called after its identifier, up to the first dash.
pub proof fn law_an_agent_has_a_name_of_its_own(short: Seq<char>, rest: Seq<char>)
    requires
        !short.contains('-'),
    ensures
        default_name(short + seq!['-'] + rest) == "codex-"@ + short,
        default_name(short) == "codex-"@ + short,
{
    let long = short + seq!['-'] + rest;
    assert forall|i: int| 0 <= i < short.len() implies #[trigger] long[i] != '-' by {
        assert(short.contains(short[i]));
    }
    assert forall|i: int| 0 <= i < short.len() implies #[trigger] short[i] != '-' by {
        assert(short.contains(short[i]));
    }
    text::lemma_first_index_at(long, '-', short.len() as int);
    text::lemma_first_index_at(short, '-', short.len() as int);
    assert(long.take(short.len() as int) =~= short);
}

} // verus!

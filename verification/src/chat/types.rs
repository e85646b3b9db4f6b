//! What the chat remembers about other agents, and what it is asked to say.

use vstd::prelude::*;

use crate::client::{
    WeaveActionResult, WeaveAgent, WeaveIncomingMessage, WeaveMessageKind, WeaveMessageMetadata,
    WeaveTool,
};
use crate::json::{Json, JsonView};
use crate::limits::LimitUse;
use crate::mentions::Skill;
use crate::relay::WeaveRelayCommand;
use crate::table::Table;
use crate::text;

verus! {

// ---------------------------------------------------------------------------
// Conversations with other agents
// ---------------------------------------------------------------------------

/// Where the answer of the model is to go.
#[derive(Debug, PartialEq, Eq)]
#[verifier::ext_equal]
pub struct WeaveReplyTarget<S = String> {
    pub session_id: S,
    pub agent_id: S,
    pub display_name: S,
    pub conversation_id: S,
    pub conversation_owner: S,
    pub parent_message_id: Option<S>,
    pub task_id: Option<S>,
    pub action_group_id: Option<S>,
    pub action_id: Option<S>,
    pub action_index: Option<usize>,
}

impl DeepView for WeaveReplyTarget {
    type V = WeaveReplyTarget<Seq<char>>;

    open spec fn deep_view(&self) -> WeaveReplyTarget<Seq<char>> {
        WeaveReplyTarget {
            session_id: self.session_id@,
            agent_id: self.agent_id@,
            display_name: self.display_name@,
            conversation_id: self.conversation_id@,
            conversation_owner: self.conversation_owner@,
            parent_message_id: self.parent_message_id.deep_view(),
            task_id: self.task_id.deep_view(),
            action_group_id: self.action_group_id.deep_view(),
            action_id: self.action_id.deep_view(),
            action_index: self.action_index,
        }
    }
}

impl Clone for WeaveReplyTarget {
    fn clone(&self) -> (r: WeaveReplyTarget)
        ensures
            r == *self,
    {
        WeaveReplyTarget {
            session_id: self.session_id.clone(),
            agent_id: self.agent_id.clone(),
            display_name: self.display_name.clone(),
            conversation_id: self.conversation_id.clone(),
            conversation_owner: self.conversation_owner.clone(),
            parent_message_id: text::copy_option(&self.parent_message_id),
            task_id: text::copy_option(&self.task_id),
            action_group_id: text::copy_option(&self.action_group_id),
            action_id: text::copy_option(&self.action_id),
            action_index: self.action_index,
        }
    }
}

/// An action that somebody asked for, as far as its sender named it.
#[derive(Debug, PartialEq, Eq)]
#[verifier::ext_equal]
pub struct ActionRef<S = String> {
    pub group_id: Option<S>,
    pub action_id: Option<S>,
    pub action_index: Option<usize>,
}

impl DeepView for ActionRef {
    type V = ActionRef<Seq<char>>;

    open spec fn deep_view(&self) -> ActionRef<Seq<char>> {
        ActionRef {
            group_id: self.group_id.deep_view(),
            action_id: self.action_id.deep_view(),
            action_index: self.action_index,
        }
    }
}

impl Clone for ActionRef {
    fn clone(&self) -> (r: ActionRef)
        ensures
            r == *self,
    {
        ActionRef {
            group_id: text::copy_option(&self.group_id),
            action_id: text::copy_option(&self.action_id),
            action_index: self.action_index,
        }
    }
}

/// Who asked for the task that runs now.
#[derive(Debug, PartialEq, Eq)]
#[verifier::ext_equal]
pub struct WeaveControlContext<S = String> {
    pub sender_id: S,
}

impl DeepView for WeaveControlContext {
    type V = WeaveControlContext<Seq<char>>;

    open spec fn deep_view(&self) -> WeaveControlContext<Seq<char>> {
        WeaveControlContext {
            sender_id: self.sender_id@,
        }
    }
}

impl Clone for WeaveControlContext {
    fn clone(&self) -> (r: WeaveControlContext)
        ensures
            r == *self,
    {
        WeaveControlContext {
            sender_id: self.sender_id.clone(),
        }
    }
}

/// Who wants a command to be carried out, and in which conversation.
#[derive(Debug, PartialEq, Eq)]
#[verifier::ext_equal]
pub struct WeaveToolContext<S = String> {
    /// The name to show.
    pub sender: S,
    pub sender_id: S,
    pub text: S,
    pub conversation_id: S,
    pub conversation_owner: S,
    pub has_conversation_metadata: bool,
    pub action: ActionRef<S>,
}

impl DeepView for WeaveToolContext {
    type V = WeaveToolContext<Seq<char>>;

    open spec fn deep_view(&self) -> WeaveToolContext<Seq<char>> {
        WeaveToolContext {
            sender: self.sender@,
            sender_id: self.sender_id@,
            text: self.text@,
            conversation_id: self.conversation_id@,
            conversation_owner: self.conversation_owner@,
            has_conversation_metadata: self.has_conversation_metadata,
            action: self.action.deep_view(),
        }
    }
}

impl Clone for WeaveToolContext {
    fn clone(&self) -> (r: WeaveToolContext)
        ensures
            r == *self,
    {
        WeaveToolContext {
            sender: self.sender.clone(),
            sender_id: self.sender_id.clone(),
            text: self.text.clone(),
            conversation_id: self.conversation_id.clone(),
            conversation_owner: self.conversation_owner.clone(),
            has_conversation_metadata: self.has_conversation_metadata,
            action: self.action.clone(),
        }
    }
}

/// The agents that take part in a task.
#[derive(Debug, PartialEq, Eq)]
pub struct WeaveRelayTargets {
    pub owner_id: String,
    pub relay_id: String,
    pub target_ids: Vec<String>,
}

/// The mathematical value of a `WeaveRelayTargets`.
#[verifier::ext_equal]
pub struct RelayTargetsView {
    pub owner_id: Seq<char>,
    pub relay_id: Seq<char>,
    pub target_ids: Seq<Seq<char>>,
}

impl DeepView for WeaveRelayTargets {
    type V = RelayTargetsView;

    open spec fn deep_view(&self) -> RelayTargetsView {
        RelayTargetsView {
            owner_id: self.owner_id@,
            relay_id: self.relay_id@,
            target_ids: text::views(self.target_ids@),
        }
    }
}

impl Clone for WeaveRelayTargets {
    fn clone(&self) -> (r: WeaveRelayTargets)
        ensures
            r.deep_view() == self.deep_view(),
    {
        WeaveRelayTargets {
            owner_id: self.owner_id.clone(),
            relay_id: self.relay_id.clone(),
            target_ids: text::copy_list(&self.target_ids),
        }
    }
}

/// An action that another agent has not finished.
#[derive(Debug, PartialEq, Eq)]
#[verifier::ext_equal]
pub struct WeavePendingAction<S = String> {
    pub group_id: S,
    pub expects_reply: bool,
    pub step_id: Option<S>,
}

impl DeepView for WeavePendingAction {
    type V = WeavePendingAction<Seq<char>>;

    open spec fn deep_view(&self) -> WeavePendingAction<Seq<char>> {
        WeavePendingAction {
            group_id: self.group_id@,
            expects_reply: self.expects_reply,
            step_id: self.step_id.deep_view(),
        }
    }
}

impl Clone for WeavePendingAction {
    fn clone(&self) -> (r: WeavePendingAction)
        ensures
            r == *self,
    {
        WeavePendingAction {
            group_id: self.group_id.clone(),
            expects_reply: self.expects_reply,
            step_id: text::copy_option(&self.step_id),
        }
    }
}

/// What is known of a conversation with another agent.
#[derive(Debug, PartialEq, Eq)]
pub struct WeaveRelayTargetState {
    pub context_id: String,
    pub task_id: String,
    pub pending_actions: Table<WeavePendingAction>,
    pub last_action_id: Option<String>,
    /// The action that has the agent start a new session.
    pub pending_new_action_id: Option<String>,
}

/// The mathematical value of a `WeaveRelayTargetState`.
#[verifier::ext_equal]
pub struct TargetStateView {
    pub context_id: Seq<char>,
    pub task_id: Seq<char>,
    pub pending_actions: Seq<(Seq<char>, WeavePendingAction<Seq<char>>)>,
    pub last_action_id: Option<Seq<char>>,
    pub pending_new_action_id: Option<Seq<char>>,
}

impl DeepView for WeaveRelayTargetState {
    type V = TargetStateView;

    open spec fn deep_view(&self) -> TargetStateView {
        TargetStateView {
            context_id: self.context_id@,
            task_id: self.task_id@,
            pending_actions: self.pending_actions.deep_view(),
            last_action_id: self.last_action_id.deep_view(),
            pending_new_action_id: self.pending_new_action_id.deep_view(),
        }
    }
}

/// How far a step of a plan is.
#[derive(Debug, Clone, Copy, PartialEq, Eq, Structural)]
pub enum StepStatus {
    Pending,
    InProgress,
    Completed,
}

/// A step of a plan.
#[derive(Debug, PartialEq, Eq)]
#[verifier::ext_equal]
pub struct WeavePlanStepState<S = String> {
    pub id: S,
    pub text: S,
    pub status: StepStatus,
    pub assigned_actions: usize,
    pub pending_actions: usize,
}

impl DeepView for WeavePlanStepState {
    type V = WeavePlanStepState<Seq<char>>;

    open spec fn deep_view(&self) -> WeavePlanStepState<Seq<char>> {
        WeavePlanStepState {
            id: self.id@,
            text: self.text@,
            status: self.status,
            assigned_actions: self.assigned_actions,
            pending_actions: self.pending_actions,
        }
    }
}

impl Clone for WeavePlanStepState {
    fn clone(&self) -> (r: WeavePlanStepState)
        ensures
            r == *self,
    {
        WeavePlanStepState {
            id: self.id.clone(),
            text: self.text.clone(),
            status: self.status,
            assigned_actions: self.assigned_actions,
            pending_actions: self.pending_actions,
        }
    }
}

/// The plan of a task.
#[derive(Debug, PartialEq, Eq)]
pub struct WeavePlanState {
    pub steps: Vec<WeavePlanStepState>,
    pub note: Option<String>,
}

/// The mathematical value of a `WeavePlanState`.
#[verifier::ext_equal]
pub struct PlanView {
    pub steps: Seq<WeavePlanStepState<Seq<char>>>,
    pub note: Option<Seq<char>>,
}

impl DeepView for WeavePlanState {
    type V = PlanView;

    open spec fn deep_view(&self) -> PlanView {
        PlanView {
            steps: self.steps.deep_view(),
            note: self.note.deep_view(),
        }
    }
}

/// Whom to tell that the new session is there.
#[derive(Debug, PartialEq, Eq)]
#[verifier::ext_equal]
pub struct WeavePendingActionResult<S = String> {
    pub sender_id: S,
    pub group_id: S,
    pub action_id: S,
    pub action_index: usize,
}

impl DeepView for WeavePendingActionResult {
    type V = WeavePendingActionResult<Seq<char>>;

    open spec fn deep_view(&self) -> WeavePendingActionResult<Seq<char>> {
        WeavePendingActionResult {
            sender_id: self.sender_id@,
            group_id: self.group_id@,
            action_id: self.action_id@,
            action_index: self.action_index,
        }
    }
}

impl Clone for WeavePendingActionResult {
    fn clone(&self) -> (r: WeavePendingActionResult)
        ensures
            r == *self,
    {
        WeavePendingActionResult {
            sender_id: self.sender_id.clone(),
            group_id: self.group_id.clone(),
            action_id: self.action_id.clone(),
            action_index: self.action_index,
        }
    }
}

/// The conversation that goes on in the new session.
#[derive(Debug, PartialEq, Eq)]
#[verifier::ext_equal]
pub struct WeavePendingNewSessionContext<S = String> {
    pub group_id: S,
    pub previous_conversation_id: S,
    pub action_index: Option<usize>,
    pub conversation_id: S,
    pub conversation_owner: S,
    pub task_id: S,
}

impl DeepView for WeavePendingNewSessionContext {
    type V = WeavePendingNewSessionContext<Seq<char>>;

    open spec fn deep_view(&self) -> WeavePendingNewSessionContext<Seq<char>> {
        WeavePendingNewSessionContext {
            group_id: self.group_id@,
            previous_conversation_id: self.previous_conversation_id@,
            action_index: self.action_index,
            conversation_id: self.conversation_id@,
            conversation_owner: self.conversation_owner@,
            task_id: self.task_id@,
        }
    }
}

impl Clone for WeavePendingNewSessionContext {
    fn clone(&self) -> (r: WeavePendingNewSessionContext)
        ensures
            r == *self,
    {
        WeavePendingNewSessionContext {
            group_id: self.group_id.clone(),
            previous_conversation_id: self.previous_conversation_id.clone(),
            action_index: self.action_index,
            conversation_id: self.conversation_id.clone(),
            conversation_owner: self.conversation_owner.clone(),
            task_id: self.task_id.clone(),
        }
    }
}

/// What is known of a message from another agent.
#[derive(Debug, PartialEq, Eq)]
pub struct WeaveUserMessage {
    pub reply_target: WeaveReplyTarget,
    pub auto_reply: bool,
    pub relay_targets: Option<WeaveRelayTargets>,
    pub conversation_id: String,
    pub conversation_owner: String,
    pub task_id: Option<String>,
    pub kind: WeaveMessageKind,
}

/// The mathematical value of a `WeaveUserMessage`.
#[verifier::ext_equal]
pub struct WeaveUserView {
    pub reply_target: WeaveReplyTarget<Seq<char>>,
    pub auto_reply: bool,
    pub relay_targets: Option<RelayTargetsView>,
    pub conversation_id: Seq<char>,
    pub conversation_owner: Seq<char>,
    pub task_id: Option<Seq<char>>,
    pub kind: WeaveMessageKind,
}

impl DeepView for WeaveUserMessage {
    type V = WeaveUserView;

    open spec fn deep_view(&self) -> WeaveUserView {
        WeaveUserView {
            reply_target: self.reply_target.deep_view(),
            auto_reply: self.auto_reply,
            relay_targets: self.relay_targets.deep_view(),
            conversation_id: self.conversation_id@,
            conversation_owner: self.conversation_owner@,
            task_id: self.task_id.deep_view(),
            kind: self.kind,
        }
    }
}

/// Who a message is from.
#[derive(Debug, PartialEq, Eq)]
pub enum UserMessageSource {
    Local,
    Weave(WeaveUserMessage),
}

/// The mathematical value of a `UserMessageSource`.
#[verifier::ext_equal]
pub enum SourceView {
    Local,
    Weave(WeaveUserView),
}

impl DeepView for UserMessageSource {
    type V = SourceView;

    open spec fn deep_view(&self) -> SourceView {
        match *self {
            UserMessageSource::Local => SourceView::Local,
            UserMessageSource::Weave(a0) => SourceView::Weave(a0.deep_view()),
        }
    }
}

/// A message to the model.
#[derive(Debug, PartialEq, Eq)]
pub struct UserMessage {
    pub text: String,
    pub image_paths: Vec<String>,
    pub source: UserMessageSource,
}

/// The mathematical value of a `UserMessage`.
#[verifier::ext_equal]
pub struct UserMessageView {
    pub text: Seq<char>,
    pub image_paths: Seq<Seq<char>>,
    pub source: SourceView,
}

impl DeepView for UserMessage {
    type V = UserMessageView;

    open spec fn deep_view(&self) -> UserMessageView {
        UserMessageView {
            text: self.text@,
            image_paths: text::views(self.image_paths@),
            source: self.source.deep_view(),
        }
    }
}

impl Clone for WeaveUserMessage {
    fn clone(&self) -> (r: WeaveUserMessage)
        ensures
            r.deep_view() == self.deep_view(),
    {
        WeaveUserMessage {
            reply_target: self.reply_target.clone(),
            auto_reply: self.auto_reply,
            relay_targets: match &self.relay_targets {
                Some(targets) => Some(targets.clone()),
                None => None,
            },
            conversation_id: self.conversation_id.clone(),
            conversation_owner: self.conversation_owner.clone(),
            task_id: text::copy_option(&self.task_id),
            kind: self.kind,
        }
    }
}

impl Clone for UserMessageSource {
    fn clone(&self) -> (r: UserMessageSource)
        ensures
            r.deep_view() == self.deep_view(),
    {
        match self {
            UserMessageSource::Local => UserMessageSource::Local,
            UserMessageSource::Weave(weave) => UserMessageSource::Weave(weave.clone()),
        }
    }
}

impl Clone for UserMessage {
    fn clone(&self) -> (r: UserMessage)
        ensures
            r.deep_view() == self.deep_view(),
    {
        UserMessage {
            text: self.text.clone(),
            image_paths: text::copy_list(&self.image_paths),
            source: self.source.clone(),
        }
    }
}

// ---------------------------------------------------------------------------
// What the model answers when it relays
// ---------------------------------------------------------------------------

/// The plan that an answer brings.
#[derive(Debug, PartialEq, Eq)]
pub struct RelayPlan {
    pub steps: Vec<String>,
    pub note: Option<String>,
}

/// The mathematical value of a `RelayPlan`.
#[verifier::ext_equal]
pub struct RelayPlanView {
    pub steps: Seq<Seq<char>>,
    pub note: Option<Seq<char>>,
}

impl DeepView for RelayPlan {
    type V = RelayPlanView;

    open spec fn deep_view(&self) -> RelayPlanView {
        RelayPlanView {
            steps: text::views(self.steps@),
            note: self.note.deep_view(),
        }
    }
}

/// What a step of a relay does.
#[derive(Debug, PartialEq, Eq)]
pub enum RelayBody {
    Message { text: String, plan: Option<RelayPlan>, reply_policy: String },
    Control { command: WeaveRelayCommand },
}

/// The mathematical value of a `RelayBody`.
#[verifier::ext_equal]
pub enum RelayBodyView {
    Message { text: Seq<char>, plan: Option<RelayPlanView>, reply_policy: Seq<char> },
    Control { command: WeaveRelayCommand },
}

impl DeepView for RelayBody {
    type V = RelayBodyView;

    open spec fn deep_view(&self) -> RelayBodyView {
        match *self {
            RelayBody::Message { text, plan, reply_policy } => RelayBodyView::Message { text: text@, plan: plan.deep_view(), reply_policy: reply_policy@ },
            RelayBody::Control { command } => RelayBodyView::Control { command: command },
        }
    }
}

/// A step of a relay.
#[derive(Debug, PartialEq, Eq)]
pub struct RelayStep {
    pub dst: String,
    pub step_id: String,
    pub body: RelayBody,
}

/// The mathematical value of a `RelayStep`.
#[verifier::ext_equal]
pub struct RelayStepView {
    pub dst: Seq<char>,
    pub step_id: Seq<char>,
    pub body: RelayBodyView,
}

impl DeepView for RelayStep {
    type V = RelayStepView;

    open spec fn deep_view(&self) -> RelayStepView {
        RelayStepView {
            dst: self.dst@,
            step_id: self.step_id@,
            body: self.body.deep_view(),
        }
    }
}

/// An answer: steps to take, or that the task is done.
#[derive(Debug, PartialEq, Eq)]
pub enum RelayReply {
    TaskDone { summary: Option<String> },
    Actions { actions: Vec<RelayStep> },
}

/// The mathematical value of a `RelayReply`.
#[verifier::ext_equal]
pub enum RelayReplyView {
    TaskDone { summary: Option<Seq<char>> },
    Actions { actions: Seq<RelayStepView> },
}

impl DeepView for RelayReply {
    type V = RelayReplyView;

    open spec fn deep_view(&self) -> RelayReplyView {
        match *self {
            RelayReply::TaskDone { summary } => RelayReplyView::TaskDone { summary: summary.deep_view() },
            RelayReply::Actions { actions } => RelayReplyView::Actions { actions: actions.deep_view() },
        }
    }
}

/// An action that the coordinator has passed on.
#[derive(Debug, PartialEq, Eq)]
#[verifier::ext_equal]
pub struct RelayedAction<S = String> {
    pub action_id: S,
    pub action_type: S,
    pub step_id: S,
    pub reply_policy: Option<S>,
    pub command: Option<S>,
}

impl DeepView for RelayedAction {
    type V = RelayedAction<Seq<char>>;

    open spec fn deep_view(&self) -> RelayedAction<Seq<char>> {
        RelayedAction {
            action_id: self.action_id@,
            action_type: self.action_type@,
            step_id: self.step_id@,
            reply_policy: self.reply_policy.deep_view(),
            command: self.command.deep_view(),
        }
    }
}

impl Clone for RelayedAction {
    fn clone(&self) -> (r: RelayedAction)
        ensures
            r == *self,
    {
        RelayedAction {
            action_id: self.action_id.clone(),
            action_type: self.action_type.clone(),
            step_id: self.step_id.clone(),
            reply_policy: text::copy_option(&self.reply_policy),
            command: text::copy_option(&self.command),
        }
    }
}

/// What the coordinator has passed on to one agent.
#[derive(Debug, PartialEq, Eq)]
pub struct RelayedTarget {
    pub target_id: String,
    pub context_id: Option<String>,
    pub task_id: Option<String>,
    pub group_id: Option<String>,
    pub actions: Vec<RelayedAction>,
}

/// The mathematical value of a `RelayedTarget`.
#[verifier::ext_equal]
pub struct RelayedTargetView {
    pub target_id: Seq<char>,
    pub context_id: Option<Seq<char>>,
    pub task_id: Option<Seq<char>>,
    pub group_id: Option<Seq<char>>,
    pub actions: Seq<RelayedAction<Seq<char>>>,
}

impl DeepView for RelayedTarget {
    type V = RelayedTargetView;

    open spec fn deep_view(&self) -> RelayedTargetView {
        RelayedTargetView {
            target_id: self.target_id@,
            context_id: self.context_id.deep_view(),
            task_id: self.task_id.deep_view(),
            group_id: self.group_id.deep_view(),
            actions: self.actions.deep_view(),
        }
    }
}

/// A target that the coordinator has refused.
#[derive(Debug, PartialEq, Eq)]
#[verifier::ext_equal]
pub struct RelayFailure<S = String> {
    pub dst: S,
    pub code: Option<S>,
    pub message: Option<S>,
}

impl DeepView for RelayFailure {
    type V = RelayFailure<Seq<char>>;

    open spec fn deep_view(&self) -> RelayFailure<Seq<char>> {
        RelayFailure {
            dst: self.dst@,
            code: self.code.deep_view(),
            message: self.message.deep_view(),
        }
    }
}

impl Clone for RelayFailure {
    fn clone(&self) -> (r: RelayFailure)
        ensures
            r == *self,
    {
        RelayFailure {
            dst: self.dst.clone(),
            code: text::copy_option(&self.code),
            message: text::copy_option(&self.message),
        }
    }
}

/// What the coordinator made of a relay.
#[derive(Debug, PartialEq, Eq)]
pub struct WeaveRelayAccepted {
    pub status: Option<String>,
    pub retry_after_ms: Option<u64>,
    pub failures: Vec<RelayFailure>,
    pub targets: Vec<RelayedTarget>,
}

/// The mathematical value of a `WeaveRelayAccepted`.
#[verifier::ext_equal]
pub struct RelayAcceptedView {
    pub status: Option<Seq<char>>,
    pub retry_after_ms: Option<u64>,
    pub failures: Seq<RelayFailure<Seq<char>>>,
    pub targets: Seq<RelayedTargetView>,
}

impl DeepView for WeaveRelayAccepted {
    type V = RelayAcceptedView;

    open spec fn deep_view(&self) -> RelayAcceptedView {
        RelayAcceptedView {
            status: self.status.deep_view(),
            retry_after_ms: self.retry_after_ms,
            failures: self.failures.deep_view(),
            targets: self.targets.deep_view(),
        }
    }
}

/// The end of a relay.
#[derive(Debug, PartialEq, Eq)]
#[verifier::ext_equal]
pub struct WeaveRelayDone<S = String> {
    pub relay_id: S,
    pub summary: Option<S>,
}

impl DeepView for WeaveRelayDone {
    type V = WeaveRelayDone<Seq<char>>;

    open spec fn deep_view(&self) -> WeaveRelayDone<Seq<char>> {
        WeaveRelayDone {
            relay_id: self.relay_id@,
            summary: self.summary.deep_view(),
        }
    }
}

impl Clone for WeaveRelayDone {
    fn clone(&self) -> (r: WeaveRelayDone)
        ensures
            r == *self,
    {
        WeaveRelayDone {
            relay_id: self.relay_id.clone(),
            summary: text::copy_option(&self.summary),
        }
    }
}

// ---------------------------------------------------------------------------
// What the chat has others do
// ---------------------------------------------------------------------------

/// A line of a plan that is shown.
#[derive(Debug, PartialEq, Eq)]
#[verifier::ext_equal]
pub struct PlanItem<S = String> {
    pub step: S,
    pub status: StepStatus,
}

impl DeepView for PlanItem {
    type V = PlanItem<Seq<char>>;

    open spec fn deep_view(&self) -> PlanItem<Seq<char>> {
        PlanItem {
            step: self.step@,
            status: self.status,
        }
    }
}

impl Clone for PlanItem {
    fn clone(&self) -> (r: PlanItem)
        ensures
            r == *self,
    {
        PlanItem {
            step: self.step.clone(),
            status: self.status,
        }
    }
}

/// An entry of the transcript.
#[derive(Debug, PartialEq, Eq)]
pub enum HistoryItem {
    Error(String),
    Info { message: String, hint: Option<String> },
    Warning(String),
    UserPrompt(String),
    AgentMessage { text: String, first: bool },
    PlanUpdate { note: Option<String>, plan: Vec<PlanItem> },
    WeaveInbound { sender: String, receiver: String, text: String, sender_is_owner: bool, receiver_is_owner: bool },
    ReviewStatus(String),
    Reasoning(String),
    Deprecation { summary: String, details: Option<String> },
    WebSearch(String),
    PatchFailure(String),
    /// An entry that was made elsewhere, by its number.
    Prepared(u64),
}

/// The mathematical value of a `HistoryItem`.
#[verifier::ext_equal]
pub enum HistoryView {
    Error(Seq<char>),
    Info { message: Seq<char>, hint: Option<Seq<char>> },
    Warning(Seq<char>),
    UserPrompt(Seq<char>),
    AgentMessage { text: Seq<char>, first: bool },
    PlanUpdate { note: Option<Seq<char>>, plan: Seq<PlanItem<Seq<char>>> },
    WeaveInbound { sender: Seq<char>, receiver: Seq<char>, text: Seq<char>, sender_is_owner: bool, receiver_is_owner: bool },
    ReviewStatus(Seq<char>),
    Reasoning(Seq<char>),
    Deprecation { summary: Seq<char>, details: Option<Seq<char>> },
    WebSearch(Seq<char>),
    PatchFailure(Seq<char>),
    Prepared(u64),
}

impl DeepView for HistoryItem {
    type V = HistoryView;

    open spec fn deep_view(&self) -> HistoryView {
        match *self {
            HistoryItem::Error(a0) => HistoryView::Error(a0@),
            HistoryItem::Info { message, hint } => HistoryView::Info { message: message@, hint: hint.deep_view() },
            HistoryItem::Warning(a0) => HistoryView::Warning(a0@),
            HistoryItem::UserPrompt(a0) => HistoryView::UserPrompt(a0@),
            HistoryItem::AgentMessage { text, first } => HistoryView::AgentMessage { text: text@, first: first },
            HistoryItem::PlanUpdate { note, plan } => HistoryView::PlanUpdate { note: note.deep_view(), plan: plan.deep_view() },
            HistoryItem::WeaveInbound { sender, receiver, text, sender_is_owner, receiver_is_owner } => HistoryView::WeaveInbound { sender: sender@, receiver: receiver@, text: text@, sender_is_owner: sender_is_owner, receiver_is_owner: receiver_is_owner },
            HistoryItem::ReviewStatus(a0) => HistoryView::ReviewStatus(a0@),
            HistoryItem::Reasoning(a0) => HistoryView::Reasoning(a0@),
            HistoryItem::Deprecation { summary, details } => HistoryView::Deprecation { summary: summary@, details: details.deep_view() },
            HistoryItem::WebSearch(a0) => HistoryView::WebSearch(a0@),
            HistoryItem::PatchFailure(a0) => HistoryView::PatchFailure(a0@),
            HistoryItem::Prepared(a0) => HistoryView::Prepared(a0),
        }
    }
}

/// A part of what goes to the model.
#[derive(Debug, PartialEq, Eq)]
pub enum InputItem {
    Image(String),
    Text(String),
    Skill { name: String, path: String },
}

/// The mathematical value of a `InputItem`.
#[verifier::ext_equal]
pub enum InputItemView {
    Image(Seq<char>),
    Text(Seq<char>),
    Skill { name: Seq<char>, path: Seq<char> },
}

impl DeepView for InputItem {
    type V = InputItemView;

    open spec fn deep_view(&self) -> InputItemView {
        match *self {
            InputItem::Image(a0) => InputItemView::Image(a0@),
            InputItem::Text(a0) => InputItemView::Text(a0@),
            InputItem::Skill { name, path } => InputItemView::Skill { name: name@, path: path@ },
        }
    }
}

/// A command on its way to an agent.
#[derive(Debug, PartialEq, Eq)]
#[verifier::ext_equal]
pub struct ControlSend<S = String> {
    pub agent: WeaveAgent<S>,
    pub tool: WeaveTool<S>,
    pub metadata: Option<WeaveMessageMetadata<S>>,
}

impl DeepView for ControlSend {
    type V = ControlSend<Seq<char>>;

    open spec fn deep_view(&self) -> ControlSend<Seq<char>> {
        ControlSend {
            agent: self.agent.deep_view(),
            tool: self.tool.deep_view(),
            metadata: self.metadata.deep_view(),
        }
    }
}

impl Clone for ControlSend {
    fn clone(&self) -> (r: ControlSend)
        ensures
            r == *self,
    {
        ControlSend {
            agent: self.agent.clone(),
            tool: self.tool.clone(),
            metadata: match &self.metadata { Some(v) => Some(v.clone()), None => None },
        }
    }
}

/// A message on its way, and to whom: the names of the agents, and whether each owns the conversation.
#[derive(Debug, PartialEq, Eq)]
pub struct OutboundLog {
    pub text: String,
    pub targets: Vec<(String, bool)>,
}

/// The mathematical value of a `OutboundLog`.
#[verifier::ext_equal]
pub struct OutboundLogView {
    pub text: Seq<char>,
    pub targets: Seq<(Seq<char>, bool)>,
}

impl DeepView for OutboundLog {
    type V = OutboundLogView;

    open spec fn deep_view(&self) -> OutboundLogView {
        OutboundLogView {
            text: self.text@,
            targets: self.targets.deep_view(),
        }
    }
}

/// A key that quits when it is pressed twice.
#[derive(Debug, Clone, Copy, PartialEq, Eq, Structural)]
pub enum QuitKey {
    CtrlC,
    CtrlD,
}

/// A command that runs: the event that it began with, and whether it speaks to a
/// command that runs already.
#[derive(Debug, Clone, Copy, PartialEq, Eq, Structural)]
pub struct RunningCommand {
    pub event: u64,
    pub interaction: bool,
}

impl DeepView for RunningCommand {
    type V = RunningCommand;

    open spec fn deep_view(&self) -> RunningCommand {
        *self
    }
}

/// How far the start of a server is.
#[derive(Debug, PartialEq, Eq)]
#[verifier::ext_equal]
pub enum McpStartupStatus<S = String> {
    Starting,
    Ready,
    Failed { error: S },
    Cancelled,
}

impl DeepView for McpStartupStatus {
    type V = McpStartupStatus<Seq<char>>;

    open spec fn deep_view(&self) -> McpStartupStatus<Seq<char>> {
        match *self {
            McpStartupStatus::Starting => McpStartupStatus::Starting,
            McpStartupStatus::Ready => McpStartupStatus::Ready,
            McpStartupStatus::Failed { error } => McpStartupStatus::Failed { error: error@ },
            McpStartupStatus::Cancelled => McpStartupStatus::Cancelled,
        }
    }
}

impl Clone for McpStartupStatus {
    fn clone(&self) -> (r: McpStartupStatus)
        ensures
            r == *self,
    {
        match self {
            McpStartupStatus::Starting => McpStartupStatus::Starting,
            McpStartupStatus::Ready => McpStartupStatus::Ready,
            McpStartupStatus::Failed { error } => McpStartupStatus::Failed { error: error.clone() },
            McpStartupStatus::Cancelled => McpStartupStatus::Cancelled,
        }
    }
}

/// What the user is told who looks elsewhere.
#[derive(Debug, PartialEq, Eq)]
pub enum Notification {
    AgentTurnComplete { response: String },
    ExecApprovalRequested { command: String },
    EditApprovalRequested { cwd: String, changes: Vec<String> },
    ElicitationRequested { server_name: String },
}

/// The mathematical value of a `Notification`.
#[verifier::ext_equal]
pub enum NotificationView {
    AgentTurnComplete { response: Seq<char> },
    ExecApprovalRequested { command: Seq<char> },
    EditApprovalRequested { cwd: Seq<char>, changes: Seq<Seq<char>> },
    ElicitationRequested { server_name: Seq<char> },
}

impl DeepView for Notification {
    type V = NotificationView;

    open spec fn deep_view(&self) -> NotificationView {
        match *self {
            Notification::AgentTurnComplete { response } => NotificationView::AgentTurnComplete { response: response@ },
            Notification::ExecApprovalRequested { command } => NotificationView::ExecApprovalRequested { command: command@ },
            Notification::EditApprovalRequested { cwd, changes } => NotificationView::EditApprovalRequested { cwd: cwd@, changes: text::views(changes@) },
            Notification::ElicitationRequested { server_name } => NotificationView::ElicitationRequested { server_name: server_name@ },
        }
    }
}

/// Which notifications the user wants.
#[derive(Debug, PartialEq, Eq)]
pub enum NotificationSettings {
    Enabled(bool),
    /// Only those of these types.
    Custom(Vec<String>),
}

/// The mathematical value of a `NotificationSettings`.
#[verifier::ext_equal]
pub enum NotificationSettingsView {
    Enabled(bool),
    Custom(Seq<Seq<char>>),
}

impl DeepView for NotificationSettings {
    type V = NotificationSettingsView;

    open spec fn deep_view(&self) -> NotificationSettingsView {
        match *self {
            NotificationSettings::Enabled(a0) => NotificationSettingsView::Enabled(a0),
            NotificationSettings::Custom(a0) => NotificationSettingsView::Custom(text::views(a0@)),
        }
    }
}

/// Whether the user is to be asked to switch to a cheaper model.
#[derive(Debug, Clone, Copy, PartialEq, Eq, Structural)]
pub enum RateLimitSwitchPromptState {
    Idle,
    Pending,
    Shown,
}

/// What others are to show or to do.
#[derive(Debug, Clone, Copy, PartialEq, Eq, Structural)]
pub enum PaneRequest {
    Feedback,
    FeedbackDisabled,
    Review,
    Models,
    Approvals,
    WeaveSessions,
    ElevatedSandbox,
    StatusOutput,
    NoTools,
    NextMode,
    Logout,
    Diff,
    TestApproval,
}

/// A command began.
#[derive(Debug, PartialEq, Eq)]
pub struct ExecBegin {
    pub event: u64,
    pub call_id: String,
    pub command: Vec<String>,
    pub interaction: bool,
    pub input: Option<String>,
}

/// The mathematical value of a `ExecBegin`.
#[verifier::ext_equal]
pub struct ExecBeginView {
    pub event: u64,
    pub call_id: Seq<char>,
    pub command: Seq<Seq<char>>,
    pub interaction: bool,
    pub input: Option<Seq<char>>,
}

impl DeepView for ExecBegin {
    type V = ExecBeginView;

    open spec fn deep_view(&self) -> ExecBeginView {
        ExecBeginView {
            event: self.event,
            call_id: self.call_id@,
            command: text::views(self.command@),
            interaction: self.interaction,
            input: self.input.deep_view(),
        }
    }
}

/// An event that can wait until an answer is shown.
#[derive(Debug, PartialEq, Eq)]
pub enum InterruptEvent {
    ExecApproval { request: u64, command: Vec<String> },
    PatchApproval { request: u64, cwd: String, changes: Vec<String> },
    Elicitation { request: u64, server_name: String },
    ExecBegin(ExecBegin),
    ExecEnd { event: u64, call_id: String, interaction: bool },
    ToolBegin { event: u64 },
    ToolEnd { event: u64 },
    PatchEnd { success: bool, stderr: String },
}

/// The mathematical value of a `InterruptEvent`.
#[verifier::ext_equal]
pub enum InterruptView {
    ExecApproval { request: u64, command: Seq<Seq<char>> },
    PatchApproval { request: u64, cwd: Seq<char>, changes: Seq<Seq<char>> },
    Elicitation { request: u64, server_name: Seq<char> },
    ExecBegin(ExecBeginView),
    ExecEnd { event: u64, call_id: Seq<char>, interaction: bool },
    ToolBegin { event: u64 },
    ToolEnd { event: u64 },
    PatchEnd { success: bool, stderr: Seq<char> },
}

impl DeepView for InterruptEvent {
    type V = InterruptView;

    open spec fn deep_view(&self) -> InterruptView {
        match *self {
            InterruptEvent::ExecApproval { request, command } => InterruptView::ExecApproval { request: request, command: text::views(command@) },
            InterruptEvent::PatchApproval { request, cwd, changes } => InterruptView::PatchApproval { request: request, cwd: cwd@, changes: text::views(changes@) },
            InterruptEvent::Elicitation { request, server_name } => InterruptView::Elicitation { request: request, server_name: server_name@ },
            InterruptEvent::ExecBegin(a0) => InterruptView::ExecBegin(a0.deep_view()),
            InterruptEvent::ExecEnd { event, call_id, interaction } => InterruptView::ExecEnd { event: event, call_id: call_id@, interaction: interaction },
            InterruptEvent::ToolBegin { event } => InterruptView::ToolBegin { event: event },
            InterruptEvent::ToolEnd { event } => InterruptView::ToolEnd { event: event },
            InterruptEvent::PatchEnd { success, stderr } => InterruptView::PatchEnd { success: success, stderr: stderr@ },
        }
    }
}

/// Something that is to be done outside.
#[derive(Debug, PartialEq, Eq)]
pub enum Effect {
    /// Add an entry to the transcript.
    History(HistoryItem),
    /// Add an entry to the transcript behind whatever is being shown.
    InsertHistory(HistoryItem),
    Redraw,
    /// Show more of an answer.
    StreamDelta(String),
    /// Close the answer that is being shown.
    FinishStream,
    /// Forget the answer that is being shown.
    DropStream,
    FlushActiveCell,
    FailActiveCell,
    HideStatus,
    EnsureStatus,
    InterruptHint(bool),
    SetStatus { header: String, details: Option<String> },
    QuitHint(Option<QuitKey>),
    TaskRunning(bool),
    ComposerText(String),
    InsertText(String),
    AttachImage(String),
    QueuedMessages(Vec<String>),
    WeaveAgents(Option<Vec<WeaveAgent>>),
    WeaveLabel(Option<String>),
    WeaveIdentity(String),
    Skills(Option<Vec<Skill>>),
    /// Show how full the context is: how much of it is left, or how many tokens are in it.
    ContextWindow { percent: Option<i64>, used: Option<i64> },
    HistoryMetadata { log_id: u64, entries: u64 },
    HeaderModel(String),
    SessionInfo(u64),
    ScrollToBottom,
    NewSession,
    OpenResumePicker,
    ForkSession,
    Exit { shutdown_first: bool },
    /// Have the model shorten its context.
    Compact,
    /// Have the model stop.
    Interrupt,
    /// Have the model review: as told, or what is not committed.
    Review { instructions: Option<String> },
    RunShell(String),
    /// Start a turn.
    UserTurn { items: Vec<InputItem>, model: String, with_mode: bool },
    /// Keep a text for later sessions.
    Remember(String),
    ListPrompts,
    ListSkills,
    ListTools,
    SendReply { target: WeaveReplyTarget, message: String },
    SendInterrupt(WeaveReplyTarget),
    SendActionResult { dst: String, result: WeaveActionResult },
    SendControls(Vec<ControlSend>),
    SubmitRelay { relay_id: String, payload: Json, logs: Vec<OutboundLog>, sender_name: String, sender_is_owner: bool },
    FinishRelay { relay_id: String, payload: Json },
    Connect { session_id: String, agent_id: String, agent_name: String },
    Disconnect,
    RefuseConnection,
    WatchIncoming { session_id: String },
    ListAgents { session_id: String, src: String },
    RenameAgent(String),
    /// Ask the user about the request with this number.
    AskApproval(u64),
    /// Show that the command of the event with this number runs.
    ExecBegin(u64),
    /// Show that the command of the event with this number ended; `started` is the event that it began with.
    ExecEnd { event: u64, started: Option<u64>, keep_output: bool },
    /// Show more of what a command prints.
    ExecOutput(u64),
    ToolBegin(u64),
    ToolEnd(u64),
    /// The turn has done something.
    MarkWork,
    /// No line is due before the next answer.
    ResetSeparator,
    /// Hand over an entry of the history of prompts.
    HistoryEntry(u64),
    PromptsListed(u64),
    ShowRateLimitPrompt,
    /// Nothing more of the answer is left to show.
    StopAnimation,
    /// Let the user write, or not.
    ComposerInput { enabled: bool, placeholder: Option<String> },
    /// Show something, or do it, that others know how to.
    Pane(PaneRequest),
    /// Look once more, after a while, whether a paste has ended.
    FlushPasteLater,
    /// Work in the mode of this name from now on.
    SetMode(String),
}

/// The mathematical value of a `Effect`.
#[verifier::ext_equal]
pub enum EffectView {
    History(HistoryView),
    InsertHistory(HistoryView),
    Redraw,
    StreamDelta(Seq<char>),
    FinishStream,
    DropStream,
    FlushActiveCell,
    FailActiveCell,
    HideStatus,
    EnsureStatus,
    InterruptHint(bool),
    SetStatus { header: Seq<char>, details: Option<Seq<char>> },
    QuitHint(Option<QuitKey>),
    TaskRunning(bool),
    ComposerText(Seq<char>),
    InsertText(Seq<char>),
    AttachImage(Seq<char>),
    QueuedMessages(Seq<Seq<char>>),
    WeaveAgents(Option<Seq<WeaveAgent<Seq<char>>>>),
    WeaveLabel(Option<Seq<char>>),
    WeaveIdentity(Seq<char>),
    Skills(Option<Seq<Skill<Seq<char>>>>),
    ContextWindow { percent: Option<i64>, used: Option<i64> },
    HistoryMetadata { log_id: u64, entries: u64 },
    HeaderModel(Seq<char>),
    SessionInfo(u64),
    ScrollToBottom,
    NewSession,
    OpenResumePicker,
    ForkSession,
    Exit { shutdown_first: bool },
    Compact,
    Interrupt,
    Review { instructions: Option<Seq<char>> },
    RunShell(Seq<char>),
    UserTurn { items: Seq<InputItemView>, model: Seq<char>, with_mode: bool },
    Remember(Seq<char>),
    ListPrompts,
    ListSkills,
    ListTools,
    SendReply { target: WeaveReplyTarget<Seq<char>>, message: Seq<char> },
    SendInterrupt(WeaveReplyTarget<Seq<char>>),
    SendActionResult { dst: Seq<char>, result: WeaveActionResult<Seq<char>> },
    SendControls(Seq<ControlSend<Seq<char>>>),
    SubmitRelay { relay_id: Seq<char>, payload: JsonView, logs: Seq<OutboundLogView>, sender_name: Seq<char>, sender_is_owner: bool },
    FinishRelay { relay_id: Seq<char>, payload: JsonView },
    Connect { session_id: Seq<char>, agent_id: Seq<char>, agent_name: Seq<char> },
    Disconnect,
    RefuseConnection,
    WatchIncoming { session_id: Seq<char> },
    ListAgents { session_id: Seq<char>, src: Seq<char> },
    RenameAgent(Seq<char>),
    AskApproval(u64),
    ExecBegin(u64),
    ExecEnd { event: u64, started: Option<u64>, keep_output: bool },
    ExecOutput(u64),
    ToolBegin(u64),
    ToolEnd(u64),
    MarkWork,
    ResetSeparator,
    HistoryEntry(u64),
    PromptsListed(u64),
    ShowRateLimitPrompt,
    StopAnimation,
    ComposerInput { enabled: bool, placeholder: Option<Seq<char>> },
    Pane(PaneRequest),
    FlushPasteLater,
    SetMode(Seq<char>),
}

impl DeepView for Effect {
    type V = EffectView;

    open spec fn deep_view(&self) -> EffectView {
        match *self {
            Effect::History(a0) => EffectView::History(a0.deep_view()),
            Effect::InsertHistory(a0) => EffectView::InsertHistory(a0.deep_view()),
            Effect::Redraw => EffectView::Redraw,
            Effect::StreamDelta(a0) => EffectView::StreamDelta(a0@),
            Effect::FinishStream => EffectView::FinishStream,
            Effect::DropStream => EffectView::DropStream,
            Effect::FlushActiveCell => EffectView::FlushActiveCell,
            Effect::FailActiveCell => EffectView::FailActiveCell,
            Effect::HideStatus => EffectView::HideStatus,
            Effect::EnsureStatus => EffectView::EnsureStatus,
            Effect::InterruptHint(a0) => EffectView::InterruptHint(a0),
            Effect::SetStatus { header, details } => EffectView::SetStatus { header: header@, details: details.deep_view() },
            Effect::QuitHint(a0) => EffectView::QuitHint(a0),
            Effect::TaskRunning(a0) => EffectView::TaskRunning(a0),
            Effect::ComposerText(a0) => EffectView::ComposerText(a0@),
            Effect::InsertText(a0) => EffectView::InsertText(a0@),
            Effect::AttachImage(a0) => EffectView::AttachImage(a0@),
            Effect::QueuedMessages(a0) => EffectView::QueuedMessages(text::views(a0@)),
            Effect::WeaveAgents(a0) => EffectView::WeaveAgents(a0.deep_view()),
            Effect::WeaveLabel(a0) => EffectView::WeaveLabel(a0.deep_view()),
            Effect::WeaveIdentity(a0) => EffectView::WeaveIdentity(a0@),
            Effect::Skills(a0) => EffectView::Skills(a0.deep_view()),
            Effect::ContextWindow { percent, used } => EffectView::ContextWindow { percent: percent, used: used },
            Effect::HistoryMetadata { log_id, entries } => EffectView::HistoryMetadata { log_id: log_id, entries: entries },
            Effect::HeaderModel(a0) => EffectView::HeaderModel(a0@),
            Effect::SessionInfo(a0) => EffectView::SessionInfo(a0),
            Effect::ScrollToBottom => EffectView::ScrollToBottom,
            Effect::NewSession => EffectView::NewSession,
            Effect::OpenResumePicker => EffectView::OpenResumePicker,
            Effect::ForkSession => EffectView::ForkSession,
            Effect::Exit { shutdown_first } => EffectView::Exit { shutdown_first: shutdown_first },
            Effect::Compact => EffectView::Compact,
            Effect::Interrupt => EffectView::Interrupt,
            Effect::Review { instructions } => EffectView::Review { instructions: instructions.deep_view() },
            Effect::RunShell(a0) => EffectView::RunShell(a0@),
            Effect::UserTurn { items, model, with_mode } => EffectView::UserTurn { items: items.deep_view(), model: model@, with_mode: with_mode },
            Effect::Remember(a0) => EffectView::Remember(a0@),
            Effect::ListPrompts => EffectView::ListPrompts,
            Effect::ListSkills => EffectView::ListSkills,
            Effect::ListTools => EffectView::ListTools,
            Effect::SendReply { target, message } => EffectView::SendReply { target: target.deep_view(), message: message@ },
            Effect::SendInterrupt(a0) => EffectView::SendInterrupt(a0.deep_view()),
            Effect::SendActionResult { dst, result } => EffectView::SendActionResult { dst: dst@, result: result.deep_view() },
            Effect::SendControls(a0) => EffectView::SendControls(a0.deep_view()),
            Effect::SubmitRelay { relay_id, payload, logs, sender_name, sender_is_owner } => EffectView::SubmitRelay { relay_id: relay_id@, payload: payload.deep_view(), logs: logs.deep_view(), sender_name: sender_name@, sender_is_owner: sender_is_owner },
            Effect::FinishRelay { relay_id, payload } => EffectView::FinishRelay { relay_id: relay_id@, payload: payload.deep_view() },
            Effect::Connect { session_id, agent_id, agent_name } => EffectView::Connect { session_id: session_id@, agent_id: agent_id@, agent_name: agent_name@ },
            Effect::Disconnect => EffectView::Disconnect,
            Effect::RefuseConnection => EffectView::RefuseConnection,
            Effect::WatchIncoming { session_id } => EffectView::WatchIncoming { session_id: session_id@ },
            Effect::ListAgents { session_id, src } => EffectView::ListAgents { session_id: session_id@, src: src@ },
            Effect::RenameAgent(a0) => EffectView::RenameAgent(a0@),
            Effect::AskApproval(a0) => EffectView::AskApproval(a0),
            Effect::ExecBegin(a0) => EffectView::ExecBegin(a0),
            Effect::ExecEnd { event, started, keep_output } => EffectView::ExecEnd { event: event, started: started, keep_output: keep_output },
            Effect::ExecOutput(a0) => EffectView::ExecOutput(a0),
            Effect::ToolBegin(a0) => EffectView::ToolBegin(a0),
            Effect::ToolEnd(a0) => EffectView::ToolEnd(a0),
            Effect::MarkWork => EffectView::MarkWork,
            Effect::ResetSeparator => EffectView::ResetSeparator,
            Effect::HistoryEntry(a0) => EffectView::HistoryEntry(a0),
            Effect::PromptsListed(a0) => EffectView::PromptsListed(a0),
            Effect::ShowRateLimitPrompt => EffectView::ShowRateLimitPrompt,
            Effect::StopAnimation => EffectView::StopAnimation,
            Effect::ComposerInput { enabled, placeholder } => EffectView::ComposerInput { enabled: enabled, placeholder: placeholder.deep_view() },
            Effect::Pane(a0) => EffectView::Pane(a0),
            Effect::FlushPasteLater => EffectView::FlushPasteLater,
            Effect::SetMode(a0) => EffectView::SetMode(a0@),
        }
    }
}

/// Why a turn was cut short.
#[derive(Debug, Clone, Copy, PartialEq, Eq, Structural)]
pub enum TurnAbortReason {
    Interrupted,
    Replaced,
    ReviewEnded,
}

/// How full the context is.
#[derive(Debug, Clone, Copy, PartialEq, Eq, Structural)]
pub struct TokenInfo {
    /// How much of the context is left, in percent, if its size is known.
    pub remaining_percent: Option<i64>,
    /// How many tokens are in the context.
    pub used_tokens: i64,
}

/// What is left to spend.
#[derive(Debug, PartialEq, Eq)]
#[verifier::ext_equal]
pub struct CreditsSnapshot<S = String> {
    pub has_credits: bool,
    pub unlimited: bool,
    pub balance: Option<S>,
}

impl DeepView for CreditsSnapshot {
    type V = CreditsSnapshot<Seq<char>>;

    open spec fn deep_view(&self) -> CreditsSnapshot<Seq<char>> {
        CreditsSnapshot {
            has_credits: self.has_credits,
            unlimited: self.unlimited,
            balance: self.balance.deep_view(),
        }
    }
}

/// A report of how much of the limits is used.
#[derive(Debug, PartialEq, Eq)]
#[verifier::ext_equal]
pub struct LimitsReport<S = String> {
    pub secondary: Option<LimitUse>,
    pub primary: Option<LimitUse>,
    pub credits: Option<CreditsSnapshot<S>>,
    /// The name of what the user subscribes to.
    pub plan_type: Option<S>,
    /// When the report came in.
    pub captured_at: u64,
}

impl DeepView for LimitsReport {
    type V = LimitsReport<Seq<char>>;

    open spec fn deep_view(&self) -> LimitsReport<Seq<char>> {
        LimitsReport {
            secondary: self.secondary,
            primary: self.primary,
            credits: self.credits.deep_view(),
            plan_type: self.plan_type.deep_view(),
            captured_at: self.captured_at,
        }
    }
}

/// What can be shown of the limits.
#[derive(Debug, PartialEq, Eq)]
#[verifier::ext_equal]
pub struct LimitsDisplay<S = String> {
    pub secondary: Option<LimitUse>,
    pub primary: Option<LimitUse>,
    /// The credits that were reported last.
    pub credits: Option<CreditsSnapshot<S>>,
    pub captured_at: u64,
}

impl DeepView for LimitsDisplay {
    type V = LimitsDisplay<Seq<char>>;

    open spec fn deep_view(&self) -> LimitsDisplay<Seq<char>> {
        LimitsDisplay {
            secondary: self.secondary,
            primary: self.primary,
            credits: self.credits.deep_view(),
            captured_at: self.captured_at,
        }
    }
}

/// What a review came to.
#[derive(Debug, PartialEq, Eq)]
#[verifier::ext_equal]
pub struct ReviewOutput<S = String> {
    pub has_findings: bool,
    pub explanation: S,
}

impl DeepView for ReviewOutput {
    type V = ReviewOutput<Seq<char>>;

    open spec fn deep_view(&self) -> ReviewOutput<Seq<char>> {
        ReviewOutput {
            has_findings: self.has_findings,
            explanation: self.explanation@,
        }
    }
}

impl Clone for ReviewOutput {
    fn clone(&self) -> (r: ReviewOutput)
        ensures
            r == *self,
    {
        ReviewOutput {
            has_findings: self.has_findings,
            explanation: self.explanation.clone(),
        }
    }
}

/// A session was set up.
#[derive(Debug, PartialEq, Eq)]
pub struct SessionConfigured {
    pub history_log_id: u64,
    pub history_entry_count: u64,
    pub session_id: String,
    pub forked_from_id: Option<String>,
    pub rollout_path: String,
    pub model: String,
    /// What the transcript says of the session, by its number.
    pub info: u64,
}

/// The mathematical value of a `SessionConfigured`.
#[verifier::ext_equal]
pub struct SessionConfiguredView {
    pub history_log_id: u64,
    pub history_entry_count: u64,
    pub session_id: Seq<char>,
    pub forked_from_id: Option<Seq<char>>,
    pub rollout_path: Seq<char>,
    pub model: Seq<char>,
    pub info: u64,
}

impl DeepView for SessionConfigured {
    type V = SessionConfiguredView;

    open spec fn deep_view(&self) -> SessionConfiguredView {
        SessionConfiguredView {
            history_log_id: self.history_log_id,
            history_entry_count: self.history_entry_count,
            session_id: self.session_id@,
            forked_from_id: self.forked_from_id.deep_view(),
            rollout_path: self.rollout_path@,
            model: self.model@,
            info: self.info,
        }
    }
}

/// Something that happened in a session. What others have to show goes by its number; `reply` is what the model says to other agents, where that can be read.
#[derive(Debug, PartialEq, Eq)]
pub enum TurnEvent {
    AgentMessage { message: String, reply: Option<RelayReply> },
    AgentMessageDelta(String),
    ReasoningDelta(String),
    ReasoningFinal,
    RawReasoning(String),
    ReasoningBreak,
    TurnStarted,
    TurnComplete { last_message: Option<String>, reply: Option<RelayReply> },
    TokenCount { info: Option<TokenInfo>, limits: Option<LimitsReport> },
    Warning(String),
    Error(String),
    McpStartupUpdate { server: String, status: McpStartupStatus },
    McpStartupComplete { failed: Vec<String>, cancelled: Vec<String> },
    /// `composer` is what the user is writing.
    TurnAborted { reason: TurnAbortReason, composer: String },
    PlanUpdate(u64),
    /// An event that can wait until an answer is shown.
    Waiting(InterruptEvent),
    ExecOutput(u64),
    PatchBegin(u64),
    ViewImage(u64),
    WebSearchBegin,
    WebSearchEnd(String),
    Collaboration(u64),
    HistoryEntry(u64),
    ToolsListed(u64),
    PromptsListed(u64),
    SkillsListed(Vec<Skill>),
    SkillsChanged,
    ShutdownComplete,
    Deprecation { summary: String, details: Option<String> },
    Background(String),
    UndoStarted { message: Option<String> },
    UndoCompleted { success: bool, message: Option<String> },
    StreamError { message: String, details: Option<String> },
    UserMessage(String),
    ReviewEntered { hint: String },
    ReviewExited { output: Option<ReviewOutput> },
    ContextCompacted { reply: Option<RelayReply> },
    /// Anything else, which the chat does not show.
    Other,
}

/// The mathematical value of a `TurnEvent`.
#[verifier::ext_equal]
pub enum TurnEventView {
    AgentMessage { message: Seq<char>, reply: Option<RelayReplyView> },
    AgentMessageDelta(Seq<char>),
    ReasoningDelta(Seq<char>),
    ReasoningFinal,
    RawReasoning(Seq<char>),
    ReasoningBreak,
    TurnStarted,
    TurnComplete { last_message: Option<Seq<char>>, reply: Option<RelayReplyView> },
    TokenCount { info: Option<TokenInfo>, limits: Option<LimitsReport<Seq<char>>> },
    Warning(Seq<char>),
    Error(Seq<char>),
    McpStartupUpdate { server: Seq<char>, status: McpStartupStatus<Seq<char>> },
    McpStartupComplete { failed: Seq<Seq<char>>, cancelled: Seq<Seq<char>> },
    TurnAborted { reason: TurnAbortReason, composer: Seq<char> },
    PlanUpdate(u64),
    Waiting(InterruptView),
    ExecOutput(u64),
    PatchBegin(u64),
    ViewImage(u64),
    WebSearchBegin,
    WebSearchEnd(Seq<char>),
    Collaboration(u64),
    HistoryEntry(u64),
    ToolsListed(u64),
    PromptsListed(u64),
    SkillsListed(Seq<Skill<Seq<char>>>),
    SkillsChanged,
    ShutdownComplete,
    Deprecation { summary: Seq<char>, details: Option<Seq<char>> },
    Background(Seq<char>),
    UndoStarted { message: Option<Seq<char>> },
    UndoCompleted { success: bool, message: Option<Seq<char>> },
    StreamError { message: Seq<char>, details: Option<Seq<char>> },
    UserMessage(Seq<char>),
    ReviewEntered { hint: Seq<char> },
    ReviewExited { output: Option<ReviewOutput<Seq<char>>> },
    ContextCompacted { reply: Option<RelayReplyView> },
    Other,
}

impl DeepView for TurnEvent {
    type V = TurnEventView;

    open spec fn deep_view(&self) -> TurnEventView {
        match *self {
            TurnEvent::AgentMessage { message, reply } => TurnEventView::AgentMessage { message: message@, reply: reply.deep_view() },
            TurnEvent::AgentMessageDelta(a0) => TurnEventView::AgentMessageDelta(a0@),
            TurnEvent::ReasoningDelta(a0) => TurnEventView::ReasoningDelta(a0@),
            TurnEvent::ReasoningFinal => TurnEventView::ReasoningFinal,
            TurnEvent::RawReasoning(a0) => TurnEventView::RawReasoning(a0@),
            TurnEvent::ReasoningBreak => TurnEventView::ReasoningBreak,
            TurnEvent::TurnStarted => TurnEventView::TurnStarted,
            TurnEvent::TurnComplete { last_message, reply } => TurnEventView::TurnComplete { last_message: last_message.deep_view(), reply: reply.deep_view() },
            TurnEvent::TokenCount { info, limits } => TurnEventView::TokenCount { info: info, limits: limits.deep_view() },
            TurnEvent::Warning(a0) => TurnEventView::Warning(a0@),
            TurnEvent::Error(a0) => TurnEventView::Error(a0@),
            TurnEvent::McpStartupUpdate { server, status } => TurnEventView::McpStartupUpdate { server: server@, status: status.deep_view() },
            TurnEvent::McpStartupComplete { failed, cancelled } => TurnEventView::McpStartupComplete { failed: text::views(failed@), cancelled: text::views(cancelled@) },
            TurnEvent::TurnAborted { reason, composer } => TurnEventView::TurnAborted { reason: reason, composer: composer@ },
            TurnEvent::PlanUpdate(a0) => TurnEventView::PlanUpdate(a0),
            TurnEvent::Waiting(a0) => TurnEventView::Waiting(a0.deep_view()),
            TurnEvent::ExecOutput(a0) => TurnEventView::ExecOutput(a0),
            TurnEvent::PatchBegin(a0) => TurnEventView::PatchBegin(a0),
            TurnEvent::ViewImage(a0) => TurnEventView::ViewImage(a0),
            TurnEvent::WebSearchBegin => TurnEventView::WebSearchBegin,
            TurnEvent::WebSearchEnd(a0) => TurnEventView::WebSearchEnd(a0@),
            TurnEvent::Collaboration(a0) => TurnEventView::Collaboration(a0),
            TurnEvent::HistoryEntry(a0) => TurnEventView::HistoryEntry(a0),
            TurnEvent::ToolsListed(a0) => TurnEventView::ToolsListed(a0),
            TurnEvent::PromptsListed(a0) => TurnEventView::PromptsListed(a0),
            TurnEvent::SkillsListed(a0) => TurnEventView::SkillsListed(a0.deep_view()),
            TurnEvent::SkillsChanged => TurnEventView::SkillsChanged,
            TurnEvent::ShutdownComplete => TurnEventView::ShutdownComplete,
            TurnEvent::Deprecation { summary, details } => TurnEventView::Deprecation { summary: summary@, details: details.deep_view() },
            TurnEvent::Background(a0) => TurnEventView::Background(a0@),
            TurnEvent::UndoStarted { message } => TurnEventView::UndoStarted { message: message.deep_view() },
            TurnEvent::UndoCompleted { success, message } => TurnEventView::UndoCompleted { success: success, message: message.deep_view() },
            TurnEvent::StreamError { message, details } => TurnEventView::StreamError { message: message@, details: details.deep_view() },
            TurnEvent::UserMessage(a0) => TurnEventView::UserMessage(a0@),
            TurnEvent::ReviewEntered { hint } => TurnEventView::ReviewEntered { hint: hint@ },
            TurnEvent::ReviewExited { output } => TurnEventView::ReviewExited { output: output.deep_view() },
            TurnEvent::ContextCompacted { reply } => TurnEventView::ContextCompacted { reply: reply.deep_view() },
            TurnEvent::Other => TurnEventView::Other,
        }
    }
}

/// A command that the user can give.
#[derive(Debug, Clone, Copy, PartialEq, Eq, Structural)]
pub enum SlashCommand {
    Feedback,
    New,
    Resume,
    Fork,
    Weave,
    Init,
    Compact,
    Review,
    Model,
    Collab,
    Approvals,
    ElevateSandbox,
    Quit,
    Exit,
    Logout,
    Diff,
    Mention,
    Skills,
    Status,
    Mcp,
    Rollout,
    TestApproval,
}

/// Whether the sandbox can be elevated.
#[derive(Debug, PartialEq, Eq)]
#[verifier::ext_equal]
pub enum Elevation<S = String> {
    Unavailable,
    NoPreset,
    Refused { reason: S },
    Ready,
}

impl DeepView for Elevation {
    type V = Elevation<Seq<char>>;

    open spec fn deep_view(&self) -> Elevation<Seq<char>> {
        match *self {
            Elevation::Unavailable => Elevation::Unavailable,
            Elevation::NoPreset => Elevation::NoPreset,
            Elevation::Refused { reason } => Elevation::Refused { reason: reason@ },
            Elevation::Ready => Elevation::Ready,
        }
    }
}

impl Clone for Elevation {
    fn clone(&self) -> (r: Elevation)
        ensures
            r == *self,
    {
        match self {
            Elevation::Unavailable => Elevation::Unavailable,
            Elevation::NoPreset => Elevation::NoPreset,
            Elevation::Refused { reason } => Elevation::Refused { reason: reason.clone() },
            Elevation::Ready => Elevation::Ready,
        }
    }
}

/// What is known when a command is given.
#[derive(Debug, PartialEq, Eq)]
pub struct CommandFacts {
    /// The name of the command.
    pub name: String,
    pub available_during_task: bool,
    /// The name of the file that tells agents about the project.
    pub doc_name: String,
    pub doc_exists: bool,
    /// What has the model write that file.
    pub init_prompt: String,
    pub has_tool_servers: bool,
    pub elevation: Elevation,
    /// Whether the argument names a mode.
    pub mode_known: bool,
}

/// The mathematical value of a `CommandFacts`.
#[verifier::ext_equal]
pub struct CommandFactsView {
    pub name: Seq<char>,
    pub available_during_task: bool,
    pub doc_name: Seq<char>,
    pub doc_exists: bool,
    pub init_prompt: Seq<char>,
    pub has_tool_servers: bool,
    pub elevation: Elevation<Seq<char>>,
    pub mode_known: bool,
}

impl DeepView for CommandFacts {
    type V = CommandFactsView;

    open spec fn deep_view(&self) -> CommandFactsView {
        CommandFactsView {
            name: self.name@,
            available_during_task: self.available_during_task,
            doc_name: self.doc_name@,
            doc_exists: self.doc_exists,
            init_prompt: self.init_prompt@,
            has_tool_servers: self.has_tool_servers,
            elevation: self.elevation.deep_view(),
            mode_known: self.mode_known,
        }
    }
}

/// What a chat starts with.
#[derive(Debug, PartialEq, Eq)]
pub struct ChatWidgetInit {
    pub model: Option<String>,
    pub initial_prompt: Option<String>,
    pub initial_images: Vec<String>,
    pub is_first_run: bool,
    pub collaboration_modes: bool,
    pub hide_rate_limit_nudge: bool,
    pub feedback_enabled: bool,
    pub notifications: NotificationSettings,
}

/// The mathematical value of a `ChatWidgetInit`.
#[verifier::ext_equal]
pub struct ChatInitView {
    pub model: Option<Seq<char>>,
    pub initial_prompt: Option<Seq<char>>,
    pub initial_images: Seq<Seq<char>>,
    pub is_first_run: bool,
    pub collaboration_modes: bool,
    pub hide_rate_limit_nudge: bool,
    pub feedback_enabled: bool,
    pub notifications: NotificationSettingsView,
}

impl DeepView for ChatWidgetInit {
    type V = ChatInitView;

    open spec fn deep_view(&self) -> ChatInitView {
        ChatInitView {
            model: self.model.deep_view(),
            initial_prompt: self.initial_prompt.deep_view(),
            initial_images: text::views(self.initial_images@),
            is_first_run: self.is_first_run,
            collaboration_modes: self.collaboration_modes,
            hide_rate_limit_nudge: self.hide_rate_limit_nudge,
            feedback_enabled: self.feedback_enabled,
            notifications: self.notifications.deep_view(),
        }
    }
}

/// What a new chat takes over from the one before.
#[derive(Debug, PartialEq, Eq)]
pub struct WeaveStateSnapshot {
    pub session_id: Option<String>,
    pub session_name: Option<String>,
    pub agent_id: String,
    pub agent_name: String,
    /// Whether the connection is handed over.
    pub connected: bool,
    pub pending_new_session_result: Option<WeavePendingActionResult>,
    pub pending_new_session_context: Option<WeavePendingNewSessionContext>,
    pub pending_action_messages: Vec<WeaveIncomingMessage>,
}

/// The mathematical value of a `WeaveStateSnapshot`.
#[verifier::ext_equal]
pub struct WeaveSnapshotView {
    pub session_id: Option<Seq<char>>,
    pub session_name: Option<Seq<char>>,
    pub agent_id: Seq<char>,
    pub agent_name: Seq<char>,
    pub connected: bool,
    pub pending_new_session_result: Option<WeavePendingActionResult<Seq<char>>>,
    pub pending_new_session_context: Option<WeavePendingNewSessionContext<Seq<char>>>,
    pub pending_action_messages: Seq<WeaveIncomingMessage<Seq<char>, JsonView>>,
}

impl DeepView for WeaveStateSnapshot {
    type V = WeaveSnapshotView;

    open spec fn deep_view(&self) -> WeaveSnapshotView {
        WeaveSnapshotView {
            session_id: self.session_id.deep_view(),
            session_name: self.session_name.deep_view(),
            agent_id: self.agent_id@,
            agent_name: self.agent_name@,
            connected: self.connected,
            pending_new_session_result: self.pending_new_session_result.deep_view(),
            pending_new_session_context: self.pending_new_session_context.deep_view(),
            pending_action_messages: self.pending_action_messages.deep_view(),
        }
    }
}

} // verus!

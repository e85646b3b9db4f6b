//! The steps that the model names for a task, and how they reach the agents.

use vstd::prelude::*;

use crate::chat::state::{ChatView, ChatWidget};
use crate::chat::types::{
    Effect, EffectView, OutboundLog, OutboundLogView, RelayBody, RelayBodyView, RelayPlanView,
    RelayStep, RelayStepView, RelayTargetsView, WeaveRelayTargets,
};
use crate::client;
use crate::client::{WeaveAgent, WeaveTool};
use crate::envelope;
use crate::json::{Fields, Json, JsonView};
use crate::mentions;
use crate::prompts;
use crate::relay::WeaveRelayCommand;
use crate::text;

verus! {

// ---------------------------------------------------------------------------
// Commands
// ---------------------------------------------------------------------------

/// The tool for a command that the model names.
pub open spec fn command_tool(command: WeaveRelayCommand) -> WeaveTool<Seq<char>> {
    match command {
        WeaveRelayCommand::New => WeaveTool::NewSession,
        WeaveRelayCommand::Compact => WeaveTool::Compact,
        WeaveRelayCommand::Interrupt => WeaveTool::Interrupt,
        WeaveRelayCommand::Review => WeaveTool::Review { instructions: None },
    }
}

/// What a tool is called on the wire.
pub open spec fn tool_name(tool: WeaveTool<Seq<char>>) -> Seq<char> {
    match tool {
        WeaveTool::NewSession => "new"@,
        WeaveTool::Compact => "compact"@,
        WeaveTool::Interrupt => "interrupt"@,
        WeaveTool::Review { instructions } => "review"@,
    }
}

/// What a tool is called before the user.
pub open spec fn tool_label(tool: WeaveTool<Seq<char>>) -> Seq<char> {
    match tool {
        WeaveTool::NewSession => "/new"@,
        WeaveTool::Compact => "/compact"@,
        WeaveTool::Interrupt => "/interrupt"@,
        WeaveTool::Review { instructions } => "/review"@,
    }
}

/// The tool for a command that the model names.
pub fn weave_tool_from_relay_command(command: WeaveRelayCommand) -> (r: WeaveTool)
    ensures
        r.deep_view() == command_tool(command),
{
    match command {
        WeaveRelayCommand::New => WeaveTool::NewSession,
        WeaveRelayCommand::Compact => WeaveTool::Compact,
        WeaveRelayCommand::Interrupt => WeaveTool::Interrupt,
        WeaveRelayCommand::Review => WeaveTool::Review { instructions: None },
    }
}

/// What a tool is called: on the wire, and before the user.
pub fn weave_control_action_parts(tool: &WeaveTool) -> (r: (&'static str, &'static str))
    ensures
        r.0@ == tool_name(tool.deep_view()),
        r.1@ == tool_label(tool.deep_view()),
{
    match tool {
        WeaveTool::NewSession => ("new", "/new"),
        WeaveTool::Compact => ("compact", "/compact"),
        WeaveTool::Interrupt => ("interrupt", "/interrupt"),
        WeaveTool::Review { instructions: _ } => ("review", "/review"),
    }
}

// ---------------------------------------------------------------------------
// Which steps are in order
// ---------------------------------------------------------------------------

/// Those of the agents that take part.
pub open spec fn taking_part(
    agents: Seq<WeaveAgent<Seq<char>>>,
    targets: RelayTargetsView,
) -> Seq<WeaveAgent<Seq<char>>>
    decreases agents.len(),
{
    if agents.len() == 0 {
        seq![]
    } else if targets.allows(agents.last().id) {
        taking_part(agents.drop_last(), targets).push(agents.last())
    } else {
        taking_part(agents.drop_last(), targets)
    }
}

/// Whether one of the agents takes no part.
pub open spec fn has_outsider(
    agents: Seq<WeaveAgent<Seq<char>>>,
    targets: RelayTargetsView,
) -> bool {
    exists|i: int| 0 <= i < agents.len() && !targets.allows((#[trigger] agents[i]).id)
}

/// Whom a destination names.
pub open spec fn named(
    agents: Seq<WeaveAgent<Seq<char>>>,
    dst: Seq<char>,
) -> Seq<WeaveAgent<Seq<char>>> {
    mentions::resolved_targets(agents, seq![dst])
}

/// What is wrong with the reply policy of a step.
pub open spec fn policy_error(body: RelayBodyView) -> Option<Seq<char>> {
    match body {
        RelayBodyView::Message { text: _, plan: _, reply_policy } => {
            let policy = text::trimmed(reply_policy);
            if policy.len() == 0 {
                Some("Weave relay message requires reply_policy (sender|none)."@)
            } else if policy != "sender"@ && policy != "none"@ {
                Some("Weave relay reply_policy must be sender or none."@)
            } else {
                None
            }
        },
        RelayBodyView::Control { command: _ } => None,
    }
}

/// What is wrong with a step.
pub open spec fn step_error(
    step: RelayStepView,
    agents: Seq<WeaveAgent<Seq<char>>>,
    targets: RelayTargetsView,
) -> Option<Seq<char>> {
    let dst = text::trimmed(step.dst);
    if dst.len() == 0 {
        Some("Weave relay target is empty."@)
    } else if text::is_blank(step.step_id) {
        Some("Weave relay action requires step_id."@)
    } else if policy_error(step.body) is Some {
        policy_error(step.body)
    } else if named(agents, dst).len() == 0 {
        Some("Weave relay did not match any targets."@)
    } else if has_outsider(named(agents, dst), targets) {
        Some("Weave relay target is outside the active task."@)
    } else {
        None
    }
}

/// What is wrong with the first step with which something is.
pub open spec fn steps_error(
    steps: Seq<RelayStepView>,
    agents: Seq<WeaveAgent<Seq<char>>>,
    targets: RelayTargetsView,
) -> Option<Seq<char>>
    decreases steps.len(),
{
    if steps.len() == 0 {
        None
    } else {
        match step_error(steps[0], agents, targets) {
            Some(error) => Some(error),
            None => steps_error(steps.subrange(1, steps.len() as int), agents, targets),
        }
    }
}

impl ChatView {
    /// What is wrong with the steps.
    pub open spec fn scope_error(
        self,
        steps: Seq<RelayStepView>,
        targets: RelayTargetsView,
    ) -> Option<Seq<char>> {
        match self.weave_agents {
            Some(agents) => steps_error(steps, agents, targets),
            None => Some("Weave agents unavailable for relay."@),
        }
    }
}

fn names_outsider(agents: &Vec<WeaveAgent>, targets: &WeaveRelayTargets) -> (r: bool)
    ensures
        r == has_outsider(agents.deep_view(), targets.deep_view()),
{
    let ghost all = agents.deep_view();
    for i in 0..agents.len()
        invariant
            all == agents.deep_view(),
            forall|j: int| 0 <= j < i ==> targets.deep_view().allows((#[trigger] all[j]).id),
    {
        proof {
            assert(all[i as int] == agents@[i as int].deep_view());
        }
        if !targets.allows(&agents[i]) {
            return true;
        }
    }
    false
}

fn resolve_one(agents: &Vec<WeaveAgent>, dst: &str) -> (r: Vec<WeaveAgent>)
    ensures
        r.deep_view() == named(agents.deep_view(), dst@),
{
    let mut list: Vec<String> = Vec::new();
    list.push(dst.to_owned());
    proof {
        assert(text::views(list@) =~= seq![dst@]);
    }
    mentions::resolve_weave_relay_targets(agents, &list)
}

pub(super) fn keep_allowed(agents: &Vec<WeaveAgent>, targets: &WeaveRelayTargets) -> (r: Vec<WeaveAgent>)
    ensures
        r.deep_view() == taking_part(agents.deep_view(), targets.deep_view()),
{
    let mut r: Vec<WeaveAgent> = Vec::new();
    let ghost all = agents.deep_view();
    proof {
        assert(r.deep_view() =~= seq![]);
        assert(all.take(0) =~= Seq::<WeaveAgent<Seq<char>>>::empty());
    }
    for i in 0..agents.len()
        invariant
            all == agents.deep_view(),
            r.deep_view() == taking_part(all.take(i as int), targets.deep_view()),
    {
        let ghost before = r.deep_view();
        proof {
            assert(all.take(i + 1).drop_last() =~= all.take(i as int));
            assert(all.take(i + 1).last() == agents@[i as int].deep_view());
        }
        if targets.allows(&agents[i]) {
            r.push(agents[i].clone());
            proof {
                assert(r.deep_view() =~= before.push(all[i as int]));
            }
        }
    }
    proof {
        assert(all.take(all.len() as int) =~= all);
    }
    r
}

fn check_policy(body: &RelayBody) -> (r: Option<&'static str>)
    ensures
        r.deep_view() == policy_error(body.deep_view()),
{
    match body {
        RelayBody::Message { text: _, plan: _, reply_policy } => {
            let policy = text::trim(reply_policy.as_str());
            if policy.is_empty() {
                Some("Weave relay message requires reply_policy (sender|none).")
            } else if !text::same(policy, "sender") && !text::same(policy, "none") {
                Some("Weave relay reply_policy must be sender or none.")
            } else {
                None
            }
        },
        RelayBody::Control { command: _ } => None,
    }
}

fn check_step(
    step: &RelayStep,
    agents: &Vec<WeaveAgent>,
    targets: &WeaveRelayTargets,
) -> (r: Option<&'static str>)
    ensures
        r.deep_view() == step_error(step.deep_view(), agents.deep_view(), targets.deep_view()),
{
    let dst = text::trim(step.dst.as_str());
    if dst.is_empty() {
        return Some("Weave relay target is empty.");
    }
    if text::blank(step.step_id.as_str()) {
        return Some("Weave relay action requires step_id.");
    }
    match check_policy(&step.body) {
        Some(error) => return Some(error),
        None => {},
    }
    let resolved = resolve_one(agents, dst);
    if resolved.len() == 0 {
        return Some("Weave relay did not match any targets.");
    }
    if names_outsider(&resolved, targets) {
        return Some("Weave relay target is outside the active task.");
    }
    None
}

impl ChatWidget {
    pub(super) fn validate_relay_actions_scope(
        &self,
        steps: &Vec<RelayStep>,
        targets: &WeaveRelayTargets,
    ) -> (r: Result<(), &'static str>)
        ensures
            match self@.scope_error(steps.deep_view(), targets.deep_view()) {
                Some(error) => r matches Err(e) && e@ == error,
                None => r is Ok,
            },
    {
        let agents = match self.get_weave_agents() {
            Some(agents) => agents,
            None => return Err("Weave agents unavailable for relay."),
        };
        let ghost all = steps.deep_view();
        let ghost list = agents.deep_view();
        let ghost part = targets.deep_view();
        let mut i: usize = 0;
        proof {
            assert(all.skip(0) =~= all);
        }
        while i < steps.len()
            invariant
                self@.weave_agents == Some(list),
                list == agents.deep_view(),
                all == steps.deep_view(),
                part == targets.deep_view(),
                i <= steps@.len(),
                steps_error(all, list, part) == steps_error(all.skip(i as int), list, part),
            decreases steps@.len() - i,
        {
            proof {
                let rest = all.skip(i as int);
                assert(rest[0] == steps@[i as int].deep_view());
                assert(rest.subrange(1, rest.len() as int) =~= all.skip(i + 1));
            }
            match check_step(&steps[i], agents, targets) {
                Some(error) => return Err(error),
                None => {},
            }
            i = i + 1;
        }
        Ok(())
    }
}

// ---------------------------------------------------------------------------
// What goes to the coordinator
// ---------------------------------------------------------------------------

/// What is to be sent so far: the actions, and what the transcript will say.
#[verifier::ext_equal]
pub struct DraftView {
    pub actions: Seq<JsonView>,
    pub logs: Seq<OutboundLogView>,
}

/// A command to an agent, for a step.
pub open spec fn control_action(
    agent: WeaveAgent<Seq<char>>,
    step_id: Seq<char>,
    tool: WeaveTool<Seq<char>>,
) -> JsonView {
    JsonView::Object(
        seq![
            ("type"@, JsonView::Text("control"@)),
            ("dst"@, JsonView::Text(agent.id)),
            ("step_id"@, JsonView::Text(step_id)),
            ("command"@, JsonView::Text(tool_name(tool))),
        ],
    )
}

/// What the transcript will say of a message to agents.
pub open spec fn outbound_log(
    message: Seq<char>,
    agents: Seq<WeaveAgent<Seq<char>>>,
    owner_id: Seq<char>,
) -> OutboundLogView {
    OutboundLogView {
        text: message,
        targets: Seq::new(
            agents.len(),
            |i: int| (client::shown_name(agents[i].id, agents[i].name), owner_id == agents[i].id),
        ),
    }
}

impl DraftView {
    /// With a command to each of the agents.
    pub open spec fn with_control(
        self,
        agents: Seq<WeaveAgent<Seq<char>>>,
        step_id: Seq<char>,
        tool: WeaveTool<Seq<char>>,
        owner_id: Seq<char>,
    ) -> DraftView {
        DraftView {
            actions: self.actions + Seq::new(
                agents.len(),
                |i: int| control_action(agents[i], step_id, tool),
            ),
            logs: self.logs.push(outbound_log(tool_label(tool), agents, owner_id)),
        }
    }

    /// With each of the commands to each of the agents.
    pub open spec fn with_controls(
        self,
        agents: Seq<WeaveAgent<Seq<char>>>,
        step_id: Seq<char>,
        tools: Seq<WeaveTool<Seq<char>>>,
        owner_id: Seq<char>,
    ) -> DraftView
        decreases tools.len(),
    {
        if tools.len() == 0 {
            self
        } else {
            self.with_controls(agents, step_id, tools.drop_last(), owner_id).with_control(
                agents,
                step_id,
                tools.last(),
                owner_id,
            )
        }
    }
}

impl ChatView {
    /// The action of an agent that a message answers, which expects no reply
    /// itself: the last one, while the agent owes a reply.
    pub open spec fn answered_action(self, id: Seq<char>, policy: Seq<char>) -> Option<Seq<char>> {
        if policy == "none"@ && self.owes_reply(id) {
            self.target(id)->0.last_action_id
        } else {
            None
        }
    }

    /// A message to an agent, for a step.
    pub open spec fn step_message(
        self,
        agent: WeaveAgent<Seq<char>>,
        step_id: Seq<char>,
        message: Seq<char>,
        policy: Seq<char>,
    ) -> JsonView {
        let fields = seq![
            ("type"@, JsonView::Text("message"@)),
            ("dst"@, JsonView::Text(agent.id)),
            ("step_id"@, JsonView::Text(step_id)),
            ("text"@, JsonView::Text(message)),
            ("reply_policy"@, JsonView::Text(policy)),
        ];
        JsonView::Object(
            match self.answered_action(agent.id, policy) {
                Some(action_id) => fields.push(
                    ("reply_to_action_id"@, JsonView::Text(action_id)),
                ).push(("kind"@, JsonView::Text("reply"@))),
                None => fields,
            },
        )
    }

    /// The draft with a message to each of the agents: lines that are commands
    /// are sent as such, and the rest, if any, as a message.
    pub open spec fn draft_message(
        self,
        draft: DraftView,
        agents: Seq<WeaveAgent<Seq<char>>>,
        step_id: Seq<char>,
        message: Seq<char>,
        policy: Seq<char>,
        owner_id: Seq<char>,
    ) -> DraftView {
        let lines = text::lines(message);
        let draft = draft.with_controls(
            agents,
            step_id,
            prompts::control_tokens(lines),
            owner_id,
        );
        let rest = text::trimmed(text::joined(prompts::other_lines(lines), "\n"@));
        if rest.len() == 0 {
            draft
        } else {
            DraftView {
                actions: draft.actions + Seq::new(
                    agents.len(),
                    |i: int| self.step_message(agents[i], step_id, rest, policy),
                ),
                logs: draft.logs.push(outbound_log(rest, agents, owner_id)),
            }
        }
    }

    /// With the plan of a step, if it has one.
    pub open spec fn step_plan(self, body: RelayBodyView) -> ChatView {
        match body {
            RelayBodyView::Message { text: _, plan: Some(plan), reply_policy: _ } => self.apply_plan(
                plan,
            ),
            _ => self,
        }
    }

    /// The chat and the draft after a step.
    #[verifier::opaque]
    pub open spec fn draft_step(
        self,
        draft: DraftView,
        step: RelayStepView,
        agents: Seq<WeaveAgent<Seq<char>>>,
        targets: RelayTargetsView,
    ) -> (ChatView, DraftView) {
        let chat = self.step_plan(step.body);
        let step_id = text::trimmed(step.step_id);
        let dst = text::trimmed(step.dst);
        let resolved = taking_part(named(agents, dst), targets);
        if dst.len() == 0 {
            (chat.error("Weave relay target is empty."@), draft)
        } else if resolved.len() == 0 {
            (chat.error("Weave relay did not match any targets."@), draft)
        } else {
            match step.body {
                RelayBodyView::Control { command } => (
                    chat,
                    draft.with_control(
                        resolved,
                        step_id,
                        command_tool(command),
                        targets.owner_id,
                    ),
                ),
                RelayBodyView::Message { text: message, plan: _, reply_policy } => {
                    if text::is_blank(message) {
                        (chat.error("Weave relay message is empty."@), draft)
                    } else {
                        (
                            chat,
                            chat.draft_message(
                                draft,
                                resolved,
                                step_id,
                                text::trimmed(message),
                                text::trimmed(reply_policy),
                                targets.owner_id,
                            ),
                        )
                    }
                },
            }
        }
    }

    /// The chat and the draft after the steps.
    pub open spec fn draft_steps(
        self,
        steps: Seq<RelayStepView>,
        agents: Seq<WeaveAgent<Seq<char>>>,
        targets: RelayTargetsView,
    ) -> (ChatView, DraftView)
        decreases steps.len(),
    {
        if steps.len() == 0 {
            (self, DraftView { actions: seq![], logs: seq![] })
        } else {
            let (chat, draft) = self.draft_steps(steps.drop_last(), agents, targets);
            chat.draft_step(draft, steps.last(), agents, targets)
        }
    }
}

/// The first plan that a step brings.
pub open spec fn first_plan(steps: Seq<RelayStepView>) -> Option<RelayPlanView>
    decreases steps.len(),
{
    if steps.len() == 0 {
        None
    } else {
        match steps[0].body {
            RelayBodyView::Message { text: _, plan: Some(plan), reply_policy: _ } => Some(plan),
            _ => first_plan(steps.subrange(1, steps.len() as int)),
        }
    }
}

/// What goes to the coordinator.
pub open spec fn relay_payload(relay_id: Seq<char>, actions: Seq<JsonView>) -> JsonView {
    JsonView::Object(
        seq![("relay_id"@, JsonView::Text(relay_id)), ("actions"@, JsonView::Array(actions))],
    )
}

impl ChatView {
    /// After the model has named steps. They are sent if every one of them is in
    /// order and the chat is connected.
    #[verifier::opaque]
    pub open spec fn apply_steps(
        self,
        targets: RelayTargetsView,
        steps: Seq<RelayStepView>,
    ) -> ChatView {
        match self.scope_error(steps, targets) {
            Some(error) => self.error(error),
            None => {
                let planned = match first_plan(steps) {
                    Some(plan) => self.apply_plan(plan),
                    None => self,
                };
                let (chat, draft) = planned.draft_steps(steps, self.weave_agents->0, targets);
                if draft.actions.len() == 0 {
                    chat
                } else if !chat.weave_connected {
                    chat.error("Weave session isn't connected."@)
                } else {
                    chat.emit(EffectView::ScrollToBottom).emit(
                        EffectView::SubmitRelay {
                            relay_id: targets.relay_id,
                            payload: relay_payload(targets.relay_id, draft.actions),
                            logs: draft.logs,
                            sender_name: chat.weave_agent_name,
                            sender_is_owner: targets.owner_id == chat.weave_agent_id,
                        },
                    )
                }
            },
        }
    }

    /// Whether steps count as handled: all but an empty list.
    pub open spec fn handles_steps(
        self,
        targets: RelayTargetsView,
        steps: Seq<RelayStepView>,
    ) -> bool {
        self.scope_error(steps, targets) is Some || steps.len() > 0
    }
}

struct Draft {
    actions: Vec<Json>,
    logs: Vec<OutboundLog>,
}

impl Draft {
    spec fn draft_view(self) -> DraftView {
        DraftView { actions: self.actions.deep_view(), logs: self.logs.deep_view() }
    }
}

fn log_for(message: &str, agents: &Vec<WeaveAgent>, owner_id: &str) -> (r: OutboundLog)
    ensures
        r.deep_view() == outbound_log(message@, agents.deep_view(), owner_id@),
{
    let mut targets: Vec<(String, bool)> = Vec::new();
    for i in 0..agents.len()
        invariant
            targets@.len() == i,
            forall|j: int|
                0 <= j < i ==> (#[trigger] targets@[j]).0@ == client::shown_name(
                    agents@[j].id@,
                    agents@[j].name.deep_view(),
                ) && targets@[j].1 == (owner_id@ == agents@[j].id@),
    {
        let owns = text::same(owner_id, agents[i].id.as_str());
        targets.push((agents[i].display_name(), owns));
    }
    proof {
        assert(targets.deep_view() =~= outbound_log(
            message@,
            agents.deep_view(),
            owner_id@,
        ).targets);
    }
    OutboundLog { text: message.to_owned(), targets }
}

fn control_payload(agent: &WeaveAgent, step_id: &str, tool: &WeaveTool) -> (r: Json)
    ensures
        r.deep_view() == control_action(agent.deep_view(), step_id@, tool.deep_view()),
{
    let (command, _) = weave_control_action_parts(tool);
    let mut fields = Fields::new();
    fields.put_text("type", "control");
    fields.put_text("dst", agent.id.as_str());
    fields.put_text("step_id", step_id);
    fields.put_text("command", command);
    proof {
        assert(fields@ =~= control_action(
            agent.deep_view(),
            step_id@,
            tool.deep_view(),
        )->Object_0);
    }
    fields.object()
}

fn draft_control(
    draft: &mut Draft,
    agents: &Vec<WeaveAgent>,
    step_id: &str,
    tool: &WeaveTool,
    owner_id: &str,
)
    ensures
        final(draft).draft_view() == old(draft).draft_view().with_control(
            agents.deep_view(),
            step_id@,
            tool.deep_view(),
            owner_id@,
        ),
{
    let ghost before = draft.draft_view();
    let ghost list = agents.deep_view();
    let ghost added = Seq::new(
        list.len(),
        |i: int| control_action(list[i], step_id@, tool.deep_view()),
    );
    let mut actions: Vec<Json> = Vec::new();
    for i in 0..agents.len()
        invariant
            list == agents.deep_view(),
            added == Seq::new(
                list.len(),
                |i: int| control_action(list[i], step_id@, tool.deep_view()),
            ),
            actions@.len() == i,
            forall|j: int| 0 <= j < i ==> #[trigger] actions@[j].deep_view() == added[j],
    {
        proof {
            assert(list[i as int] == agents@[i as int].deep_view());
        }
        actions.push(control_payload(&agents[i], step_id, tool));
    }
    let (_, label) = weave_control_action_parts(tool);
    let log = log_for(label, agents, owner_id);
    let ghost log_view = log.deep_view();
    draft.actions.append(&mut actions);
    draft.logs.push(log);
    proof {
        assert(draft.actions.deep_view() =~= before.actions + added);
        assert(draft.logs.deep_view() =~= before.logs.push(log_view));
    }
}

impl ChatWidget {
    fn answered_action(&self, id: &str, policy: &str) -> (r: Option<String>)
        ensures
            r.deep_view() == self@.answered_action(id@, policy@),
    {
        if !text::same(policy, "none") {
            return None;
        }
        match self.find_target(id) {
            Some(state) => if state.has_pending_reply() {
                text::copy_option(&state.last_action_id)
            } else {
                None
            },
            None => None,
        }
    }

    fn message_payload(
        &self,
        agent: &WeaveAgent,
        step_id: &str,
        message: &str,
        policy: &str,
    ) -> (r: Json)
        ensures
            r.deep_view() == self@.step_message(
                agent.deep_view(),
                step_id@,
                message@,
                policy@,
            ),
    {
        let mut fields = Fields::new();
        fields.put_text("type", "message");
        fields.put_text("dst", agent.id.as_str());
        fields.put_text("step_id", step_id);
        fields.put_text("text", message);
        fields.put_text("reply_policy", policy);
        proof {
            assert(fields@ =~= seq![
                ("type"@, JsonView::Text("message"@)),
                ("dst"@, JsonView::Text(agent.id@)),
                ("step_id"@, JsonView::Text(step_id@)),
                ("text"@, JsonView::Text(message@)),
                ("reply_policy"@, JsonView::Text(policy@)),
            ]);
        }
        match self.answered_action(agent.id.as_str(), policy) {
            Some(action_id) => {
                fields.put_text("reply_to_action_id", action_id.as_str());
                fields.put_text("kind", "reply");
            },
            None => {},
        }
        fields.object()
    }

    fn draft_message(
        &self,
        draft: &mut Draft,
        agents: &Vec<WeaveAgent>,
        step_id: &str,
        message: &str,
        policy: &str,
        owner_id: &str,
    )
        ensures
            final(draft).draft_view() == self@.draft_message(
                old(draft).draft_view(),
                agents.deep_view(),
                step_id@,
                message@,
                policy@,
                owner_id@,
            ),
    {
        let (tools, rest) = prompts::extract_weave_relay_control_tokens(message);
        let ghost all = tools.deep_view();
        let ghost start = draft.draft_view();
        let ghost list = agents.deep_view();
        proof {
            assert(all.take(0) =~= Seq::<WeaveTool<Seq<char>>>::empty());
        }
        for i in 0..tools.len()
            invariant
                all == tools.deep_view(),
                list == agents.deep_view(),
                draft.draft_view() == start.with_controls(
                    list,
                    step_id@,
                    all.take(i as int),
                    owner_id@,
                ),
        {
            proof {
                assert(all.take(i + 1).drop_last() =~= all.take(i as int));
                assert(all.take(i + 1).last() == tools@[i as int].deep_view());
            }
            draft_control(draft, agents, step_id, &tools[i], owner_id);
        }
        proof {
            assert(all.take(all.len() as int) =~= all);
        }
        let rest = text::trim(rest.as_str());
        if rest.is_empty() {
            return;
        }
        let ghost before = draft.draft_view();
        let ghost added = Seq::new(
            list.len(),
            |i: int| self@.step_message(list[i], step_id@, rest@, policy@),
        );
        let mut actions: Vec<Json> = Vec::new();
        for i in 0..agents.len()
            invariant
                list == agents.deep_view(),
                added == Seq::new(
                    list.len(),
                    |i: int| self@.step_message(list[i], step_id@, rest@, policy@),
                ),
                actions@.len() == i,
                forall|j: int| 0 <= j < i ==> #[trigger] actions@[j].deep_view() == added[j],
        {
            proof {
                assert(list[i as int] == agents@[i as int].deep_view());
            }
            actions.push(self.message_payload(&agents[i], step_id, rest, policy));
        }
        let log = log_for(rest, agents, owner_id);
        let ghost log_view = log.deep_view();
        draft.actions.append(&mut actions);
        draft.logs.push(log);
        proof {
            assert(draft.actions.deep_view() =~= before.actions + added);
            assert(draft.logs.deep_view() =~= before.logs.push(log_view));
        }
    }

    fn draft_step(
        &mut self,
        draft: &mut Draft,
        step: &RelayStep,
        agents: &Vec<WeaveAgent>,
        targets: &WeaveRelayTargets,
    )
        ensures
            (final(self)@, final(draft).draft_view()) == old(self)@.draft_step(
                old(draft).draft_view(),
                step.deep_view(),
                agents.deep_view(),
                targets.deep_view(),
            ),
    {
        proof {
            reveal(ChatView::draft_step);
        }
        match &step.body {
            RelayBody::Message { text: _, plan: Some(plan), reply_policy: _ } => {
                self.apply_weave_plan(plan);
            },
            _ => {},
        }
        let step_id = text::trim(step.step_id.as_str());
        let dst = text::trim(step.dst.as_str());
        if dst.is_empty() {
            self.add_error("Weave relay target is empty.");
            return;
        }
        let resolved = keep_allowed(&resolve_one(agents, dst), targets);
        if resolved.len() == 0 {
            self.add_error("Weave relay did not match any targets.");
            return;
        }
        let owner_id = targets.owner_id.as_str();
        match &step.body {
            RelayBody::Control { command } => {
                let tool = weave_tool_from_relay_command(*command);
                draft_control(draft, &resolved, step_id, &tool, owner_id);
            },
            RelayBody::Message { text: message, plan: _, reply_policy } => {
                let message = text::trim(message.as_str());
                if message.is_empty() {
                    self.add_error("Weave relay message is empty.");
                    return;
                }
                let policy = text::trim(reply_policy.as_str());
                self.draft_message(draft, &resolved, step_id, message, policy, owner_id);
            },
        }
    }

    fn apply_first_plan(&mut self, steps: &Vec<RelayStep>)
        ensures
            final(self)@ == (match first_plan(steps.deep_view()) {
                Some(plan) => old(self)@.apply_plan(plan),
                None => old(self)@,
            }),
    {
        let ghost all = steps.deep_view();
        let mut i: usize = 0;
        proof {
            assert(all.skip(0) =~= all);
        }
        while i < steps.len()
            invariant
                self@ == old(self)@,
                all == steps.deep_view(),
                i <= steps@.len(),
                first_plan(all) == first_plan(all.skip(i as int)),
            decreases steps@.len() - i,
        {
            proof {
                let rest = all.skip(i as int);
                assert(rest[0] == steps@[i as int].deep_view());
                assert(rest.subrange(1, rest.len() as int) =~= all.skip(i + 1));
            }
            match &steps[i].body {
                RelayBody::Message { text: _, plan: Some(plan), reply_policy: _ } => {
                    self.apply_weave_plan(plan);
                    return;
                },
                _ => {},
            }
            i = i + 1;
        }
    }

    pub(super) fn apply_weave_relay_actions(
        &mut self,
        targets: &WeaveRelayTargets,
        steps: &Vec<RelayStep>,
    ) -> (handled: bool)
        ensures
            final(self)@ == old(self)@.apply_steps(targets.deep_view(), steps.deep_view()),
            handled == old(self)@.handles_steps(targets.deep_view(), steps.deep_view()),
    {
        proof {
            reveal(ChatView::apply_steps);
        }
        match self.validate_relay_actions_scope(steps, targets) {
            Err(message) => {
                self.add_error(message);
                return true;
            },
            Ok(()) => {},
        }
        let agents = match self.get_weave_agents() {
            Some(agents) => copy_agents(agents),
            None => return true,
        };
        self.apply_first_plan(steps);
        let ghost planned = self@;
        let ghost all = steps.deep_view();
        let mut draft = Draft { actions: Vec::new(), logs: Vec::new() };
        proof {
            assert(all.take(0) =~= Seq::<RelayStepView>::empty());
            assert(draft.draft_view() =~= DraftView { actions: seq![], logs: seq![] });
        }
        for i in 0..steps.len()
            invariant
                all == steps.deep_view(),
                (self@, draft.draft_view()) == planned.draft_steps(
                    all.take(i as int),
                    agents.deep_view(),
                    targets.deep_view(),
                ),
        {
            proof {
                assert(all.take(i + 1).drop_last() =~= all.take(i as int));
                assert(all.take(i + 1).last() == steps@[i as int].deep_view());
            }
            self.draft_step(&mut draft, &steps[i], &agents, targets);
        }
        proof {
            assert(all.take(all.len() as int) =~= all);
        }
        if draft.actions.len() == 0 {
            return steps.len() > 0;
        }
        if !self.get_weave_connected() {
            self.add_error("Weave session isn't connected.");
            return true;
        }
        let sender_name = self.get_weave_agent_name().to_owned();
        let sender_is_owner = text::same(targets.owner_id.as_str(), self.get_weave_agent_id());
        self.emit(Effect::ScrollToBottom);
        let mut fields = Fields::new();
        fields.put_text("relay_id", targets.relay_id.as_str());
        let ghost actions = draft.actions.deep_view();
        fields.put("actions", envelope::json_array(draft.actions));
        proof {
            assert(fields@ =~= relay_payload(targets.relay_id@, actions)->Object_0);
        }
        self.emit(
            Effect::SubmitRelay {
                relay_id: targets.relay_id.clone(),
                payload: fields.object(),
                logs: draft.logs,
                sender_name,
                sender_is_owner,
            },
        );
        true
    }
}

/// A copy of a list of agents.
pub(super) fn copy_agents(agents: &Vec<WeaveAgent>) -> (r: Vec<WeaveAgent>)
    ensures
        r@ == agents@,
{
    let mut r: Vec<WeaveAgent> = Vec::new();
    for i in 0..agents.len()
        invariant
            r@ == agents@.take(i as int),
    {
        r.push(agents[i].clone());
        proof {
            assert(agents@.take(i + 1) =~= agents@.take(i as int).push(agents@[i as int]));
        }
    }
    proof {
        assert(agents@.take(agents@.len() as int) =~= agents@);
    }
    r
}

} // verus!

//! What the model is told about messages between agents.

use vstd::prelude::*;

use crate::client;
use crate::client::{WeaveAgent, WeaveMessageKind, WeaveTool};
use crate::mentions;
use crate::outside;
use crate::text;

verus! {

// ---------------------------------------------------------------------------
// Lines
// ---------------------------------------------------------------------------

/// Lines of a text that is being written.
pub struct Lines {
    lines: Vec<String>,
}

impl View for Lines {
    type V = Seq<Seq<char>>;

    closed spec fn view(&self) -> Seq<Seq<char>> {
        text::views(self.lines@)
    }
}

impl Lines {
    /// No lines.
    pub fn new() -> (r: Lines)
        ensures
            r@ == Seq::<Seq<char>>::empty(),
    {
        let r = Lines { lines: Vec::new() };
        proof {
            assert(r@ =~= Seq::<Seq<char>>::empty());
        }
        r
    }

    /// Adds a line.
    pub fn put(&mut self, line: String)
        ensures
            final(self)@ == old(self)@.push(line@),
    {
        self.lines.push(line);
        proof {
            assert(self@ =~= old(self)@.push(line@));
        }
    }

    /// Adds a line with the characters of `line`.
    pub fn say(&mut self, line: &str)
        ensures
            final(self)@ == old(self)@.push(line@),
    {
        self.put(line.to_owned());
    }

    /// Adds a line of two parts.
    pub fn say2(&mut self, a: &str, b: &str)
        ensures
            final(self)@ == old(self)@.push(a@ + b@),
    {
        self.put(text::concat2(a, b));
    }

    /// Adds the lines of `more`.
    pub fn append(&mut self, more: Lines)
        ensures
            final(self)@ == old(self)@ + more@,
    {
        let mut more_lines = more.lines;
        let ghost added = more_lines@;
        self.lines.append(&mut more_lines);
        proof {
            assert(self@ =~= old(self)@ + text::views(added));
        }
    }

    /// The lines with `sep` between each two of them.
    pub fn joined(&self, sep: &str) -> (r: String)
        ensures
            r@ == text::joined(self@, sep@),
    {
        text::join(&self.lines, sep)
    }

    /// The lines as a list of texts.
    pub fn into_texts(self) -> (r: Vec<String>)
        ensures
            text::views(r@) == self@,
    {
        self.lines
    }

    /// Whether there are no lines.
    pub fn is_empty(&self) -> (r: bool)
        ensures
            r == (self@.len() == 0),
    {
        self.lines.len() == 0
    }
}

// ---------------------------------------------------------------------------
// A message from another agent
// ---------------------------------------------------------------------------

/// How to go on with a task that other agents take part in.
pub open spec fn task_guidance() -> Seq<Seq<char>> {
    seq![
        "When coordinating multiple agents, wait for all replies before sending follow-ups; do not ping unless the user explicitly asks."@,
        "Continue coordinating with the target agent(s) until the task is complete."@,
        "While the task is in progress, respond ONLY with a single-line JSON object."@,
        "Use type \"relay_actions\" with an `actions` array to send messages or control commands."@,
        "If you need multiple actions, include them in a single `actions` array in one relay_actions response."@,
        "For each message action, include reply_policy: \"sender\" if you need a reply, \"none\" for acknowledgements or info."@,
        "/new resets the target's context but keeps them in the relay."@,
        "If you need a follow-up after /new, place that message after the /new control in the same actions array; it will be sent after /new completes."@,
        "Do not split a message and a control across separate turns; send task_done only after all relay_actions are sent."@,
        "Order actions for the same target to guarantee control happens before its next message."@,
        "Cross-target ordering is not guaranteed."@,
        "Action types: \"message\", \"control\"."@,
        "When the task is complete, respond with type \"task_done\" and a brief summary for the local user."@,
        "If you already provided a plan for the task, do not repeat it."@,
    ]
}

fn write_task_guidance() -> (lines: Lines)
    ensures
        lines@ == task_guidance(),
{
    let mut lines = Lines::new();
    lines.say("When coordinating multiple agents, wait for all replies before sending follow-ups; do not ping unless the user explicitly asks.");
    lines.say("Continue coordinating with the target agent(s) until the task is complete.");
    lines.say("While the task is in progress, respond ONLY with a single-line JSON object.");
    lines.say("Use type \"relay_actions\" with an `actions` array to send messages or control commands.");
    lines.say("If you need multiple actions, include them in a single `actions` array in one relay_actions response.");
    lines.say("For each message action, include reply_policy: \"sender\" if you need a reply, \"none\" for acknowledgements or info.");
    lines.say("/new resets the target's context but keeps them in the relay.");
    lines.say("If you need a follow-up after /new, place that message after the /new control in the same actions array; it will be sent after /new completes.");
    lines.say("Do not split a message and a control across separate turns; send task_done only after all relay_actions are sent.");
    lines.say("Order actions for the same target to guarantee control happens before its next message.");
    lines.say("Cross-target ordering is not guaranteed.");
    lines.say("Action types: \"message\", \"control\".");
    lines.say("When the task is complete, respond with type \"task_done\" and a brief summary for the local user.");
    lines.say("If you already provided a plan for the task, do not repeat it.");
    lines
}

/// How to take a reply.
pub open spec fn reply_guidance() -> Seq<Seq<char>> {
    seq![
        "This is a reply from another agent. Do not respond unless the local user asks."@,
    ]
}

fn write_reply_guidance() -> (lines: Lines)
    ensures
        lines@ == reply_guidance(),
{
    let mut lines = Lines::new();
    lines.say("This is a reply from another agent. Do not respond unless the local user asks.");
    lines
}

/// How to take a request.
pub open spec fn request_guidance() -> Seq<Seq<char>> {
    seq![
        "Treat it as a direct request for you."@,
        "Reply to the sender with the answer. Do not ask them to reply."@,
    ]
}

fn write_request_guidance() -> (lines: Lines)
    ensures
        lines@ == request_guidance(),
{
    let mut lines = Lines::new();
    lines.say("Treat it as a direct request for you.");
    lines.say("Reply to the sender with the answer. Do not ask them to reply.");
    lines
}

/// An agent as a list shows it: its name with the id in brackets, or whichever
/// of the two there is.
pub open spec fn agent_label(agent: WeaveAgent<Seq<char>>) -> Seq<char> {
    match text::present(agent.name) {
        Some(name) => if name != agent.id {
            name + " ("@ + agent.id + ")"@
        } else {
            name
        },
        None => agent.id,
    }
}

/// An agent as a list shows it.
pub fn weave_agent_label(agent: &WeaveAgent) -> (r: String)
    ensures
        r@ == agent_label(agent.deep_view()),
{
    match text::trim_present(&agent.name) {
        Some(name) => if !text::same(name, agent.id.as_str()) {
            let mut r = text::concat3(name, " (", agent.id.as_str());
            r.append(")");
            r
        } else {
            name.to_owned()
        },
        None => agent.id.clone(),
    }
}

/// The labels of `agents`, each behind `mark`.
pub open spec fn agent_labels(
    agents: Seq<WeaveAgent<Seq<char>>>,
    mark: Seq<char>,
) -> Seq<Seq<char>> {
    Seq::new(agents.len(), |i: int| mark + agent_label(agents[i]))
}

fn list_agents(agents: &Vec<WeaveAgent>, mark: &str) -> (r: String)
    ensures
        r@ == text::joined(agent_labels(agents.deep_view(), mark@), ", "@),
{
    let mut labels = Lines::new();
    let ghost all = agent_labels(agents.deep_view(), mark@);
    for i in 0..agents.len()
        invariant
            all == agent_labels(agents.deep_view(), mark@),
            labels@ == all.take(i as int),
    {
        labels.say2(mark, weave_agent_label(&agents[i]).as_str());
        proof {
            assert(all.take(i + 1) =~= all.take(i as int).push(all[i as int]));
        }
    }
    proof {
        assert(all.take(all.len() as int) =~= all);
    }
    labels.joined(", ")
}

/// What is known about a message from another agent.
pub struct WeavePromptContext<'a> {
    pub self_name: &'a str,
    pub sender_name: &'a str,
    pub agents: Option<&'a Vec<WeaveAgent>>,
    pub message: &'a str,
    pub is_owner: bool,
    pub task_targets: Option<&'a str>,
    pub pending_replies: Option<&'a str>,
    pub conversation_id: &'a str,
    pub conversation_owner: &'a str,
    pub task_id: Option<&'a str>,
    pub kind: WeaveMessageKind,
}

/// The mathematical value of a `WeavePromptContext`.
pub struct PromptView {
    pub self_name: Seq<char>,
    pub sender_name: Seq<char>,
    pub agents: Option<Seq<WeaveAgent<Seq<char>>>>,
    pub message: Seq<char>,
    pub is_owner: bool,
    pub task_targets: Option<Seq<char>>,
    pub pending_replies: Option<Seq<char>>,
    pub conversation_id: Seq<char>,
    pub conversation_owner: Seq<char>,
    pub task_id: Option<Seq<char>>,
    pub kind: WeaveMessageKind,
}

impl<'a> View for WeavePromptContext<'a> {
    type V = PromptView;

    open spec fn view(&self) -> PromptView {
        PromptView {
            self_name: self.self_name@,
            sender_name: self.sender_name@,
            agents: self.agents.deep_view(),
            message: self.message@,
            is_owner: self.is_owner,
            task_targets: self.task_targets.deep_view(),
            pending_replies: self.pending_replies.deep_view(),
            conversation_id: self.conversation_id@,
            conversation_owner: self.conversation_owner@,
            task_id: self.task_id.deep_view(),
            kind: self.kind,
        }
    }
}

/// Who sent a message, in which conversation, and who else is there.
pub open spec fn prompt_head(ctx: PromptView) -> Seq<Seq<char>> {
    let head = seq![
        "Weave context:"@,
        "agent: "@ + ctx.self_name,
        "sender: "@ + ctx.sender_name,
        "conversation: "@ + ctx.conversation_id,
        "conversation owner: "@ + ctx.conversation_owner,
    ];
    let head = match ctx.task_id {
        Some(task_id) => head.push("task: "@ + task_id),
        None => head,
    };
    let head = match ctx.agents {
        Some(agents) => {
            let list = text::joined(agent_labels(agents, seq![]), ", "@);
            if list.len() > 0 {
                head.push("agents: "@ + list)
            } else {
                head
            }
        },
        None => head,
    };
    head.push("This message came from another agent."@)
}

/// Where the task stands that this agent coordinates.
pub open spec fn task_status(
    targets: Seq<char>,
    pending: Option<Seq<char>>,
) -> Seq<Seq<char>> {
    let status = seq!["Weave task: active."@, "Weave task targets: "@ + targets];
    match pending {
        Some(pending) => status.push("Weave task pending replies: "@ + pending).push(
            if pending == "none"@ {
                "If the task is complete, respond with type \"task_done\"."@
            } else {
                "Wait for pending replies unless you need clarification."@
            },
        ),
        None => status,
    }
}

/// What to do about a message: go on with the task that this agent coordinates,
/// take note of a reply, or answer a request.
pub open spec fn prompt_guidance(ctx: PromptView) -> Seq<Seq<char>> {
    let plain = if ctx.kind == WeaveMessageKind::Reply {
        reply_guidance()
    } else {
        request_guidance()
    };
    if ctx.is_owner {
        let owner = seq!["You are the conversation owner."@];
        match ctx.task_targets {
            Some(targets) => owner + task_status(targets, ctx.pending_replies) + task_guidance(),
            None => owner + plain,
        }
    } else {
        plain
    }
}

/// What the model is told about a message from another agent.
pub open spec fn weave_prompt(ctx: PromptView) -> Seq<char> {
    text::joined(
        prompt_head(ctx) + prompt_guidance(ctx) + seq!["--- INPUT ---"@, ctx.message],
        "\n"@,
    )
}

fn write_prompt_head(ctx: &WeavePromptContext<'_>) -> (lines: Lines)
    ensures
        lines@ == prompt_head(ctx@),
{
    let mut lines = Lines::new();
    lines.say("Weave context:");
    lines.say2("agent: ", ctx.self_name);
    lines.say2("sender: ", ctx.sender_name);
    lines.say2("conversation: ", ctx.conversation_id);
    lines.say2("conversation owner: ", ctx.conversation_owner);
    match ctx.task_id {
        Some(task_id) => lines.say2("task: ", task_id),
        None => {},
    }
    match ctx.agents {
        Some(agents) => {
            proof {
                reveal_strlit("");
                assert(""@ =~= Seq::<char>::empty());
            }
            let list = list_agents(agents, "");
            if !list.as_str().is_empty() {
                lines.say2("agents: ", list.as_str());
            }
        },
        None => {},
    }
    lines.say("This message came from another agent.");
    lines
}

fn write_task_status(targets: &str, pending: Option<&str>) -> (lines: Lines)
    ensures
        lines@ == task_status(targets@, pending.deep_view()),
{
    let mut lines = Lines::new();
    lines.say("Weave task: active.");
    lines.say2("Weave task targets: ", targets);
    match pending {
        Some(pending) => {
            lines.say2("Weave task pending replies: ", pending);
            if text::same(pending, "none") {
                lines.say("If the task is complete, respond with type \"task_done\".");
            } else {
                lines.say("Wait for pending replies unless you need clarification.");
            }
        },
        None => {},
    }
    lines
}

fn write_prompt_guidance(ctx: &WeavePromptContext<'_>) -> (lines: Lines)
    ensures
        lines@ == prompt_guidance(ctx@),
{
    let mut lines = Lines::new();
    if ctx.is_owner {
        lines.say("You are the conversation owner.");
        match ctx.task_targets {
            Some(targets) => {
                lines.append(write_task_status(targets, ctx.pending_replies));
                lines.append(write_task_guidance());
                return lines;
            },
            None => {},
        }
    }
    let ghost owner = lines@;
    if ctx.kind == WeaveMessageKind::Reply {
        lines.append(write_reply_guidance());
        proof {
            assert(Seq::<Seq<char>>::empty() + reply_guidance() =~= reply_guidance());
        }
    } else {
        lines.append(write_request_guidance());
        proof {
            assert(Seq::<Seq<char>>::empty() + request_guidance() =~= request_guidance());
        }
    }
    lines
}

/// What the model is told about a message from another agent.
pub fn format_weave_prompt(ctx: &WeavePromptContext<'_>) -> (r: String)
    ensures
        r@ == weave_prompt(ctx@),
{
    let mut lines = write_prompt_head(ctx);
    lines.append(write_prompt_guidance(ctx));
    let ghost before = lines@;
    lines.say("--- INPUT ---");
    lines.say(ctx.message);
    proof {
        assert(lines@ =~= before + seq!["--- INPUT ---"@, ctx.message@]);
    }
    lines.joined("\n")
}

// ---------------------------------------------------------------------------
// Replies that came in together
// ---------------------------------------------------------------------------

/// The lines behind the first, indented.
pub open spec fn indented(lines: Seq<Seq<char>>) -> Seq<Seq<char>> {
    Seq::new(lines.len(), |i: int| "  "@ + lines[i])
}

/// One reply: its sender and its lines.
pub open spec fn reply_lines(sender: Seq<char>, reply: Seq<char>) -> Seq<Seq<char>> {
    let lines = text::lines(text::trimmed_end(reply));
    if lines.len() == 0 {
        seq!["#"@ + sender + ": <empty>"@]
    } else {
        seq!["#"@ + sender + ": "@ + lines[0]] + indented(lines.skip(1))
    }
}

/// The first `n` replies, with an empty line between each two of all of them.
pub open spec fn batch_lines(
    replies: Seq<(Seq<char>, Seq<char>)>,
    n: nat,
) -> Seq<Seq<char>>
    decreases n,
{
    if n == 0 {
        seq!["Weave replies:"@]
    } else {
        let (sender, reply) = replies[n - 1];
        let lines = batch_lines(replies, (n - 1) as nat) + reply_lines(sender, reply);
        if n < replies.len() {
            lines.push(seq![])
        } else {
            lines
        }
    }
}

/// Replies that came in together, as one text.
pub open spec fn batched_replies(replies: Seq<(Seq<char>, Seq<char>)>) -> Seq<char> {
    text::joined(batch_lines(replies, replies.len()), "\n"@)
}

fn write_reply(sender: &str, reply: &str) -> (lines: Lines)
    ensures
        lines@ == reply_lines(sender@, reply@),
{
    let parts = text::split_lines(text::trim_end(reply));
    let ghost views = text::views(parts@);
    let mut lines = Lines::new();
    if parts.len() == 0 {
        lines.put(text::concat3("#", sender, ": <empty>"));
    } else {
        let mut first = text::concat3("#", sender, ": ");
        first.append(parts[0].as_str());
        lines.put(first);
        let ghost rest = indented(views.skip(1));
        let ghost head = lines@;
        proof {
            assert(head + rest.take(0) =~= head);
        }
        for i in 1..parts.len()
            invariant
                views == text::views(parts@),
                rest == indented(views.skip(1)),
                parts@.len() > 0,
                lines@ == head + rest.take(i - 1),
        {
            lines.say2("  ", parts[i].as_str());
            proof {
                assert(rest[i - 1] == "  "@ + parts@[i as int]@);
                assert(head + rest.take(i as int) =~= (head + rest.take(i - 1)).push(rest[i - 1]));
            }
        }
        proof {
            assert(rest.take(rest.len() as int) =~= rest);
        }
    }
    lines
}

/// Replies that came in together, as one text.
pub fn format_batched_weave_replies(replies: &Vec<(String, String)>) -> (r: String)
    ensures
        r@ == batched_replies(replies.deep_view()),
{
    let mut lines = Lines::new();
    lines.say("Weave replies:");
    let total: usize = replies.len();
    let ghost all = replies.deep_view();
    for i in 0..total
        invariant
            total == replies@.len(),
            all == replies.deep_view(),
            lines@ == batch_lines(all, i as nat),
    {
        proof {
            assert(all[i as int] == (replies@[i as int].0@, replies@[i as int].1@));
        }
        lines.append(write_reply(replies[i].0.as_str(), replies[i].1.as_str()));
        if i + 1 < total {
            let empty = String::new();
            proof {
                assert(empty@ =~= Seq::<char>::empty());
            }
            lines.put(empty);
        }
    }
    lines.joined("\n")
}

// ---------------------------------------------------------------------------
// A task for other agents
// ---------------------------------------------------------------------------

/// How to plan a task.
pub open spec fn plan_guidance() -> Seq<Seq<char>> {
    seq![
        "For a new task, include a short plan in the FIRST JSON reply using a `plan.steps` array."@,
        "Do not send a standalone plan response; include the plan alongside the first message action."@,
    ]
}

fn write_plan_guidance() -> (lines: Lines)
    ensures
        lines@ == plan_guidance(),
{
    let mut lines = Lines::new();
    lines.say("For a new task, include a short plan in the FIRST JSON reply using a `plan.steps` array.");
    lines.say("Do not send a standalone plan response; include the plan alongside the first message action.");
    lines
}

/// How to relay a task.
pub open spec fn relay_guidance() -> Seq<Seq<char>> {
    seq![
        "Continue coordinating with the target(s) until the task is complete."@,
        "While the task is in progress, respond ONLY with a single-line JSON object."@,
        "Use type \"relay_actions\" with an `actions` array to send messages or control commands."@,
        "Never send `relay_actions` with an empty `actions` array; use `task_done` instead."@,
        "Action types: \"message\", \"control\"."@,
        "Provide a `command` for control actions."@,
        "For message actions, include reply_policy: \"sender\" when a reply is required, \"none\" otherwise."@,
        "Every action must include a step_id. If you include a plan, use step_1, step_2, ... matching plan.steps order."@,
        "If asked to call /new, /interrupt, /compact, or /review, send a control action instead of describing it."@,
        "Sending /interrupt removes that target from the current relay; to continue with that target, start a new task with a fresh #mention."@,
        "/new resets the target's context but keeps them in the relay."@,
        "If you need a follow-up after /new, place that message after the /new control in the same actions array; it will be sent after /new completes."@,
        "After sending actions to multiple targets, wait for replies before sending more messages unless the user requests otherwise."@,
        "Order actions for the same target to guarantee control happens before its next message."@,
        "Cross-target ordering is not guaranteed."@,
        "When the task is complete, respond with type \"task_done\" and a brief summary for the local user."@,
        "Do not forward the original prompt verbatim."@,
        "Honor any instructions like \"do not share\" or secrets withheld from the target."@,
        "Respond ONLY with a single-line JSON object. No extra text, no code fences."@,
    ]
}

fn write_relay_guidance() -> (lines: Lines)
    ensures
        lines@ == relay_guidance(),
{
    let mut lines = Lines::new();
    lines.say("Continue coordinating with the target(s) until the task is complete.");
    lines.say("While the task is in progress, respond ONLY with a single-line JSON object.");
    lines.say("Use type \"relay_actions\" with an `actions` array to send messages or control commands.");
    lines.say("Never send `relay_actions` with an empty `actions` array; use `task_done` instead.");
    lines.say("Action types: \"message\", \"control\".");
    lines.say("Provide a `command` for control actions.");
    lines.say("For message actions, include reply_policy: \"sender\" when a reply is required, \"none\" otherwise.");
    lines.say("Every action must include a step_id. If you include a plan, use step_1, step_2, ... matching plan.steps order.");
    lines.say("If asked to call /new, /interrupt, /compact, or /review, send a control action instead of describing it.");
    lines.say("Sending /interrupt removes that target from the current relay; to continue with that target, start a new task with a fresh #mention.");
    lines.say("/new resets the target's context but keeps them in the relay.");
    lines.say("If you need a follow-up after /new, place that message after the /new control in the same actions array; it will be sent after /new completes.");
    lines.say("After sending actions to multiple targets, wait for replies before sending more messages unless the user requests otherwise.");
    lines.say("Order actions for the same target to guarantee control happens before its next message.");
    lines.say("Cross-target ordering is not guaranteed.");
    lines.say("When the task is complete, respond with type \"task_done\" and a brief summary for the local user.");
    lines.say("Do not forward the original prompt verbatim.");
    lines.say("Honor any instructions like \"do not share\" or secrets withheld from the target.");
    lines.say("Respond ONLY with a single-line JSON object. No extra text, no code fences.");
    lines
}

/// A first action with a plan.
pub open spec fn planned_example() -> Seq<Seq<char>> {
    seq![
        "{\"type\":\"relay_actions\",\"actions\":[{\"type\":\"message\",\"dst\":\"<agent_id_or_name>\",\"step_id\":\"step_1\",\"text\":\"...\",\"reply_policy\":\"sender\",\"plan\":{\"steps\":[\"...\"]}}]}"@,
    ]
}

fn write_planned_example() -> (lines: Lines)
    ensures
        lines@ == planned_example(),
{
    let mut lines = Lines::new();
    lines.say("{\"type\":\"relay_actions\",\"actions\":[{\"type\":\"message\",\"dst\":\"<agent_id_or_name>\",\"step_id\":\"step_1\",\"text\":\"...\",\"reply_policy\":\"sender\",\"plan\":{\"steps\":[\"...\"]}}]}");
    lines
}

/// A first action without a plan.
pub open spec fn plain_example() -> Seq<Seq<char>> {
    seq![
        "{\"type\":\"relay_actions\",\"actions\":[{\"type\":\"message\",\"dst\":\"<agent_id_or_name>\",\"step_id\":\"step_1\",\"text\":\"...\",\"reply_policy\":\"sender\"}]}"@,
    ]
}

fn write_plain_example() -> (lines: Lines)
    ensures
        lines@ == plain_example(),
{
    let mut lines = Lines::new();
    lines.say("{\"type\":\"relay_actions\",\"actions\":[{\"type\":\"message\",\"dst\":\"<agent_id_or_name>\",\"step_id\":\"step_1\",\"text\":\"...\",\"reply_policy\":\"sender\"}]}");
    lines
}

/// Further actions.
pub open spec fn relay_examples() -> Seq<Seq<char>> {
    seq![
        "{\"type\":\"relay_actions\",\"actions\":[{\"type\":\"message\",\"dst\":\"<agent_a>\",\"step_id\":\"step_1\",\"text\":\"...\",\"reply_policy\":\"sender\"},{\"type\":\"message\",\"dst\":\"<agent_b>\",\"step_id\":\"step_2\",\"text\":\"...\",\"reply_policy\":\"sender\"}]}"@,
        "{\"type\":\"relay_actions\",\"actions\":[{\"type\":\"control\",\"dst\":\"<agent_id_or_name>\",\"step_id\":\"step_1\",\"command\":\"new\"}]}"@,
        "{\"type\":\"task_done\",\"summary\":\"...\"}"@,
    ]
}

fn write_relay_examples() -> (lines: Lines)
    ensures
        lines@ == relay_examples(),
{
    let mut lines = Lines::new();
    lines.say("{\"type\":\"relay_actions\",\"actions\":[{\"type\":\"message\",\"dst\":\"<agent_a>\",\"step_id\":\"step_1\",\"text\":\"...\",\"reply_policy\":\"sender\"},{\"type\":\"message\",\"dst\":\"<agent_b>\",\"step_id\":\"step_2\",\"text\":\"...\",\"reply_policy\":\"sender\"}]}");
    lines.say("{\"type\":\"relay_actions\",\"actions\":[{\"type\":\"control\",\"dst\":\"<agent_id_or_name>\",\"step_id\":\"step_1\",\"command\":\"new\"}]}");
    lines.say("{\"type\":\"task_done\",\"summary\":\"...\"}");
    lines
}

/// What the model is told when a message of the user names other agents.
pub open spec fn relay_prompt(
    targets: Seq<WeaveAgent<Seq<char>>>,
    wants_plan: bool,
) -> Seq<char> {
    let head = seq![
        "Weave relay:"@,
        "Targets: "@ + text::joined(agent_labels(targets, "#"@), ", "@),
        "Messages with #mentions indicate a weave task."@,
    ];
    text::joined(
        if wants_plan {
            head + plan_guidance() + relay_guidance() + planned_example() + relay_examples()
        } else {
            head + relay_guidance() + plain_example() + relay_examples()
        },
        "\n"@,
    )
}

/// What the model is told when a message of the user names other agents.
pub fn build_weave_relay_prompt(targets: &Vec<WeaveAgent>, wants_plan: bool) -> (r: String)
    ensures
        r@ == relay_prompt(targets.deep_view(), wants_plan),
{
    let list = list_agents(targets, "#");
    let mut lines = Lines::new();
    lines.say("Weave relay:");
    lines.say2("Targets: ", list.as_str());
    lines.say("Messages with #mentions indicate a weave task.");
    if wants_plan {
        lines.append(write_plan_guidance());
    }
    lines.append(write_relay_guidance());
    if wants_plan {
        lines.append(write_planned_example());
    } else {
        lines.append(write_plain_example());
    }
    lines.append(write_relay_examples());
    proof {
        let head = seq![
            "Weave relay:"@,
            "Targets: "@ + text::joined(agent_labels(targets.deep_view(), "#"@), ", "@),
            "Messages with #mentions indicate a weave task."@,
        ];
        if wants_plan {
            assert(lines@ == head + plan_guidance() + relay_guidance() + planned_example()
                + relay_examples());
        } else {
            assert(lines@ == head + relay_guidance() + plain_example() + relay_examples());
        }
    }
    lines.joined("\n")
}

/// `s` without the characters at either end that are neither letters nor
/// numbers.
pub open spec fn bare_end(s: Seq<char>) -> Seq<char>
    decreases s.len(),
{
    if s.len() > 0 && !outside::is_letter_or_number(s.last()) {
        bare_end(s.drop_last())
    } else {
        s
    }
}

pub open spec fn bare_start(s: Seq<char>) -> Seq<char>
    decreases s.len(),
{
    if s.len() > 0 && !outside::is_letter_or_number(s[0]) {
        bare_start(s.subrange(1, s.len() as int))
    } else {
        s
    }
}

/// Whether a word speaks of a condition or of doing something over.
pub open spec fn is_plan_word(word: Seq<char>) -> bool {
    let word = text::ascii_lower(bare_end(bare_start(word)));
    ||| word == "if"@
    ||| word == "then"@
    ||| word == "until"@
    ||| word == "again"@
    ||| word == "repeat"@
    ||| word == "retry"@
    ||| word == "loop"@
    ||| word == "unless"@
}

/// How many lines are not blank.
pub open spec fn filled_lines(lines: Seq<Seq<char>>) -> nat
    decreases lines.len(),
{
    if lines.len() == 0 {
        0
    } else if text::is_blank(lines.last()) {
        filled_lines(lines.drop_last())
    } else {
        filled_lines(lines.drop_last()) + 1
    }
}

/// Whether a task calls for a plan: it has more than one line, or speaks of a
/// condition or of doing something over.
pub open spec fn wants_plan(message: Seq<char>) -> bool {
    let message = text::trimmed(message);
    ||| filled_lines(text::lines(message)) > 1
    ||| has_plan_word(text::words(message))
}

/// Whether one of the words calls for a plan.
pub open spec fn has_plan_word(words: Seq<Seq<char>>) -> bool {
    exists|i: int| 0 <= i < words.len() && is_plan_word(#[trigger] words[i])
}

proof fn lemma_bare_start_at(s: Seq<char>, n: int)
    requires
        0 <= n <= s.len(),
        forall|i: int| 0 <= i < n ==> !outside::is_letter_or_number(#[trigger] s[i]),
        n < s.len() ==> outside::is_letter_or_number(s[n]),
    ensures
        bare_start(s) == s.skip(n),
    decreases s.len(),
{
    if n > 0 {
        let t = s.subrange(1, s.len() as int);
        assert forall|i: int| 0 <= i < n - 1 implies !outside::is_letter_or_number(
            #[trigger] t[i],
        ) by {
            assert(t[i] == s[i + 1]);
        }
        lemma_bare_start_at(t, n - 1);
        assert(t.skip(n - 1) =~= s.skip(n));
        assert(!outside::is_letter_or_number(s[0]));
    } else {
        assert(s.skip(0) =~= s);
    }
}

proof fn lemma_bare_end_at(s: Seq<char>, n: int)
    requires
        0 <= n <= s.len(),
        forall|i: int| n <= i < s.len() ==> !outside::is_letter_or_number(#[trigger] s[i]),
        n > 0 ==> outside::is_letter_or_number(s[n - 1]),
    ensures
        bare_end(s) == s.take(n),
    decreases s.len(),
{
    if n < s.len() {
        lemma_bare_end_at(s.drop_last(), n);
        assert(s.drop_last().take(n) =~= s.take(n));
        assert(!outside::is_letter_or_number(s.last()));
    } else {
        assert(s.take(n) =~= s);
    }
}

fn bare(s: &str) -> (r: &str)
    ensures
        r@ == bare_end(bare_start(s@)),
{
    let chars = text::chars_of(s);
    let mut from: usize = 0;
    while from < chars.len() && !chars[from].is_alphanumeric()
        invariant
            from <= chars@.len(),
            forall|i: int| 0 <= i < from ==> !outside::is_letter_or_number(#[trigger] chars@[i]),
        decreases chars@.len() - from,
    {
        from = from + 1;
    }
    let mut to: usize = chars.len();
    while to > from && !chars[to - 1].is_alphanumeric()
        invariant
            from <= to <= chars@.len(),
            forall|i: int|
                to <= i < chars@.len() ==> !outside::is_letter_or_number(#[trigger] chars@[i]),
        decreases to,
    {
        to = to - 1;
    }
    proof {
        lemma_bare_start_at(s@, from as int);
        let t = s@.skip(from as int);
        assert forall|i: int| to - from <= i < t.len() implies !outside::is_letter_or_number(
            #[trigger] t[i],
        ) by {
            assert(t[i] == s@[i + from]);
        }
        lemma_bare_end_at(t, to - from);
        assert(t.take(to - from) =~= s@.subrange(from as int, to as int));
    }
    s.substring_char(from, to)
}

fn calls_for_plan(word: &str) -> (r: bool)
    ensures
        r == is_plan_word(word@),
{
    let word = text::to_ascii_lower(bare(word));
    let word = word.as_str();
    text::same(word, "if") || text::same(word, "then") || text::same(word, "until") || text::same(
        word,
        "again",
    ) || text::same(word, "repeat") || text::same(word, "retry") || text::same(word, "loop")
        || text::same(word, "unless")
}

/// Whether a task calls for a plan.
pub fn should_request_weave_plan(message: &str) -> (r: bool)
    ensures
        r == wants_plan(message@),
{
    let trimmed = text::trim(message);
    let lines = text::split_lines(trimmed);
    let ghost views = text::views(lines@);
    let mut filled: usize = 0;
    proof {
        assert(views.take(0) =~= Seq::<Seq<char>>::empty());
    }
    for i in 0..lines.len()
        invariant
            views == text::views(lines@),
            filled <= i,
            filled == filled_lines(views.take(i as int)),
    {
        proof {
            assert(views.take(i + 1).drop_last() =~= views.take(i as int));
            assert(views.take(i + 1).last() == lines@[i as int]@);
        }
        if !text::blank(lines[i].as_str()) {
            filled = filled + 1;
        }
    }
    proof {
        assert(views.take(views.len() as int) =~= views);
    }
    if filled > 1 {
        return true;
    }
    let words = text::split_words(trimmed);
    let ghost all = text::views(words@);
    for i in 0..words.len()
        invariant
            all == text::views(words@),
            all == text::words(text::trimmed(message@)),
            forall|j: int| 0 <= j < i ==> !is_plan_word(#[trigger] all[j]),
    {
        proof {
            assert(all[i as int] == words@[i as int]@);
        }
        if calls_for_plan(words[i].as_str()) {
            return true;
        }
    }
    false
}

/// The command that a line of a reply is, once trimmed.
pub open spec fn control_token(line: Seq<char>) -> Option<WeaveTool<Seq<char>>> {
    let line = text::trimmed(line);
    if line == "/review"@ {
        Some(WeaveTool::Review { instructions: None })
    } else {
        mentions::plain_command(line)
    }
}

/// The commands among the lines.
pub open spec fn control_tokens(lines: Seq<Seq<char>>) -> Seq<WeaveTool<Seq<char>>>
    decreases lines.len(),
{
    if lines.len() == 0 {
        seq![]
    } else {
        match control_token(lines.last()) {
            Some(tool) => control_tokens(lines.drop_last()).push(tool),
            None => control_tokens(lines.drop_last()),
        }
    }
}

/// The lines that are no commands.
pub open spec fn other_lines(lines: Seq<Seq<char>>) -> Seq<Seq<char>>
    decreases lines.len(),
{
    if lines.len() == 0 {
        seq![]
    } else {
        match control_token(lines.last()) {
            Some(_) => other_lines(lines.drop_last()),
            None => other_lines(lines.drop_last()).push(lines.last()),
        }
    }
}

fn read_control_token(line: &str) -> (r: Option<WeaveTool>)
    ensures
        r.deep_view() == control_token(line@),
{
    let line = text::trim(line);
    if text::same(line, "/review") {
        Some(WeaveTool::Review { instructions: None })
    } else if text::same(line, "/new") {
        Some(WeaveTool::NewSession)
    } else if text::same(line, "/compact") {
        Some(WeaveTool::Compact)
    } else if text::same(line, "/interrupt") {
        Some(WeaveTool::Interrupt)
    } else {
        None
    }
}

/// The lines of a message that are commands, and the rest of the message.
pub fn extract_weave_relay_control_tokens(message: &str) -> (r: (Vec<WeaveTool>, String))
    ensures
        r.0.deep_view() == control_tokens(text::lines(message@)),
        r.1@ == text::joined(other_lines(text::lines(message@)), "\n"@),
{
    let lines = text::split_lines(message);
    let ghost all = text::views(lines@);
    let mut tools: Vec<WeaveTool> = Vec::new();
    let mut rest = Lines::new();
    proof {
        assert(all.take(0) =~= Seq::<Seq<char>>::empty());
        assert(tools.deep_view() =~= seq![]);
    }
    for i in 0..lines.len()
        invariant
            all == text::views(lines@),
            tools.deep_view() == control_tokens(all.take(i as int)),
            rest@ == other_lines(all.take(i as int)),
    {
        let ghost before = tools.deep_view();
        proof {
            assert(all.take(i + 1).drop_last() =~= all.take(i as int));
            assert(all.take(i + 1).last() == lines@[i as int]@);
        }
        match read_control_token(lines[i].as_str()) {
            Some(tool) => {
                let ghost view = tool.deep_view();
                tools.push(tool);
                proof {
                    assert(tools.deep_view() =~= before.push(view));
                }
            },
            None => rest.say(lines[i].as_str()),
        }
    }
    proof {
        assert(all.take(all.len() as int) =~= all);
    }
    (tools, rest.joined("\n"))
}

/// The mark of an agent with this id: its name where the list knows it, else
/// the id.
pub open spec fn target_label(
    id: Seq<char>,
    agents: Seq<WeaveAgent<Seq<char>>>,
) -> Seq<char> {
    "#"@ + (match agent_with_id(agents, id) {
        Some(agent) => client::shown_name(agent.id, agent.name),
        None => id,
    })
}

/// The first agent with this id.
pub open spec fn agent_with_id(
    agents: Seq<WeaveAgent<Seq<char>>>,
    id: Seq<char>,
) -> Option<WeaveAgent<Seq<char>>>
    decreases agents.len(),
{
    if agents.len() == 0 {
        None
    } else if agents[0].id == id {
        Some(agents[0])
    } else {
        agent_with_id(agents.subrange(1, agents.len() as int), id)
    }
}

/// The marks of agents in the order of their ids.
pub open spec fn target_labels(
    ids: Seq<Seq<char>>,
    agents: Seq<WeaveAgent<Seq<char>>>,
) -> Seq<char> {
    let ids = text::sorted(ids);
    text::joined(Seq::new(ids.len(), |i: int| target_label(ids[i], agents)), ", "@)
}

/// The agents of an optional list.
pub open spec fn listed(
    agents: Option<Seq<WeaveAgent<Seq<char>>>>,
) -> Seq<WeaveAgent<Seq<char>>> {
    match agents {
        Some(agents) => agents,
        None => seq![],
    }
}

proof fn lemma_agent_with_id_at(agents: Seq<WeaveAgent<Seq<char>>>, id: Seq<char>, n: int)
    requires
        0 <= n <= agents.len(),
        forall|i: int| 0 <= i < n ==> (#[trigger] agents[i]).id != id,
        n < agents.len() ==> agents[n].id == id,
    ensures
        agent_with_id(agents, id) == (if n < agents.len() { Some(agents[n]) } else { None }),
    decreases agents.len(),
{
    if n > 0 {
        let rest = agents.subrange(1, agents.len() as int);
        assert forall|i: int| 0 <= i < n - 1 implies (#[trigger] rest[i]).id != id by {
            assert(rest[i] == agents[i + 1]);
        }
        lemma_agent_with_id_at(rest, id, n - 1);
        assert(agents[0].id != id);
    }
}

/// The first agent with this id.
pub fn find_listed_agent<'a>(agents: &'a Vec<WeaveAgent>, id: &str) -> (r: Option<&'a WeaveAgent>)
    ensures
        r.deep_view() == agent_with_id(agents.deep_view(), id@),
{
    let ghost all = agents.deep_view();
    for i in 0..agents.len()
        invariant
            all == agents.deep_view(),
            forall|j: int| 0 <= j < i ==> (#[trigger] all[j]).id != id@,
    {
        proof {
            assert(all[i as int] == agents@[i as int].deep_view());
        }
        if text::same(agents[i].id.as_str(), id) {
            proof {
                lemma_agent_with_id_at(all, id@, i as int);
            }
            return Some(&agents[i]);
        }
    }
    proof {
        lemma_agent_with_id_at(all, id@, all.len() as int);
    }
    None
}

/// The first agent with this id.
pub fn find_agent<'a>(agents: &'a Option<Vec<WeaveAgent>>, id: &str) -> (r: Option<&'a WeaveAgent>)
    ensures
        r.deep_view() == agent_with_id(listed(agents.deep_view()), id@),
{
    match agents {
        Some(list) => find_listed_agent(list, id),
        None => None,
    }
}

/// The marks of agents in the order of their ids.
pub fn weave_target_labels(ids: &Vec<String>, agents: &Option<Vec<WeaveAgent>>) -> (r: String)
    ensures
        r@ == target_labels(text::views(ids@), listed(agents.deep_view())),
{
    let ids = text::sort(ids);
    let ghost list = listed(agents.deep_view());
    let ghost all = Seq::new(ids@.len(), |i: int| target_label(text::views(ids@)[i], list));
    let mut labels = Lines::new();
    for i in 0..ids.len()
        invariant
            list == listed(agents.deep_view()),
            all == Seq::new(ids@.len(), |i: int| target_label(text::views(ids@)[i], list)),
            labels@ == all.take(i as int),
    {
        let name = match find_agent(agents, ids[i].as_str()) {
            Some(agent) => agent.display_name(),
            None => ids[i].clone(),
        };
        labels.say2("#", name.as_str());
        proof {
            assert(all[i as int] == target_label(ids@[i as int]@, list));
            assert(all.take(i + 1) =~= all.take(i as int).push(all[i as int]));
        }
    }
    proof {
        assert(all.take(all.len() as int) =~= all);
    }
    labels.joined(", ")
}

// ---------------------------------------------------------------------------
// Laws
// ---------------------------------------------------------------------------

/// A blank message never calls for a plan.
pub proof fn law_blank_needs_no_plan(message: Seq<char>)
    requires
        text::is_blank(message),
    ensures
        !wants_plan(message),
{
    let t = text::trimmed(message);
    assert(t =~= Seq::<char>::empty());
    reveal_with_fuel(text::pieces, 2);
    reveal_with_fuel(text::filled, 2);
    reveal_with_fuel(filled_lines, 2);
    assert(text::pieces(t, text::Cut::Space) =~= seq![Seq::<char>::empty()]);
    assert(text::pieces(t, text::Cut::At('\n')) =~= seq![Seq::<char>::empty()]);
    assert(text::lines(t) =~= Seq::<Seq<char>>::empty());
    assert(text::words(t) =~= Seq::<Seq<char>>::empty());
}

proof fn lemma_other_lines(lines: Seq<Seq<char>>)
    ensures
        forall|i: int|
            0 <= i < other_lines(lines).len() ==> control_token(#[trigger] other_lines(lines)[i])
                is None && lines.contains(other_lines(lines)[i]),
    decreases lines.len(),
{
    if lines.len() > 0 {
        lemma_other_lines(lines.drop_last());
        let before = other_lines(lines.drop_last());
        let all = other_lines(lines);
        assert forall|i: int| 0 <= i < all.len() implies control_token(#[trigger] all[i]) is None
            && lines.contains(all[i]) by {
            if i < before.len() {
                assert(all[i] == before[i]);
                let k = choose|k: int|
                    0 <= k < lines.drop_last().len() && lines.drop_last()[k] == before[i];
                assert(lines[k] == all[i]);
            } else {
                assert(lines[lines.len() - 1] == all[i]);
            }
        }
    }
}

proof fn lemma_no_control_tokens(lines: Seq<Seq<char>>)
    requires
        forall|i: int| 0 <= i < lines.len() ==> control_token(#[trigger] lines[i]) is None,
    ensures
        control_tokens(lines).len() == 0,
    decreases lines.len(),
{
    if lines.len() > 0 {
        let before = lines.drop_last();
        assert forall|i: int| 0 <= i < before.len() implies control_token(#[trigger] before[i])
            is None by {
            assert(before[i] == lines[i]);
        }
        lemma_no_control_tokens(before);
        assert(lines.last() == lines[lines.len() - 1]);
    }
}

proof fn lemma_lines_hold_no_feed(message: Seq<char>)
    ensures
        forall|i: int, j: int|
            0 <= i < text::lines(message).len() && 0 <= j < text::lines(message)[i].len()
                ==> #[trigger] text::lines(message)[i][j] != '\n',
{
    text::lemma_pieces_are_whole(message, text::Cut::At('\n'));
    let parts = text::pieces(message, text::Cut::At('\n'));
    let lines = text::lines(message);
    assert forall|i: int, j: int|
        0 <= i < lines.len() && 0 <= j < lines[i].len() implies #[trigger] lines[i][j] != '\n' by {
        assert(lines[i][j] == parts[i][j]);
        assert(!text::Cut::At('\n').cuts(parts[i][j]));
    }
}

/// Once the commands are taken out of a message, none is left in it.
pub proof fn law_no_command_is_left(message: Seq<char>)
    ensures
        control_tokens(
            text::lines(text::joined(other_lines(text::lines(message)), "\n"@)),
        ).len() == 0,
{
    reveal_strlit("\n");
    assert("\n"@ =~= seq!['\n']);
    let kept = other_lines(text::lines(message));
    let left = text::joined(kept, seq!['\n']);
    let lines = text::lines(left);
    lemma_other_lines(text::lines(message));
    lemma_lines_hold_no_feed(message);
    assert forall|i: int, j: int|
        0 <= i < kept.len() && 0 <= j < kept[i].len() implies #[trigger] kept[i][j] != '\n' by {
        let all = text::lines(message);
        let k = choose|k: int| 0 <= k < all.len() && all[k] == kept[i];
        assert(all[k][j] != '\n');
    }
    if kept.len() == 0 {
        assert(left =~= Seq::<char>::empty());
        assert(text::pieces(left, text::Cut::At('\n')) =~= seq![Seq::<char>::empty()]);
        assert(lines.len() == 0);
    } else {
        text::law_cutting_undoes_joining(kept, '\n');
        assert forall|i: int| 0 <= i < lines.len() implies control_token(#[trigger] lines[i])
            is None by {
            text::lemma_trimmed_without_return(kept[i]);
            assert(control_token(kept[i]) is None);
        }
        lemma_no_control_tokens(lines);
    }
}

/// No line of a reply is lost: its entry has as many lines as the reply has without
/// white space at its end. The first names the sender, the others are indented. A reply
/// without a line is called empty.
pub proof fn law_no_line_of_a_reply_is_lost(sender: Seq<char>, reply: Seq<char>)
    ensures
        ({
            let lines = text::lines(text::trimmed_end(reply));
            let entry = reply_lines(sender, reply);
            if lines.len() == 0 {
                entry == seq!["#"@ + sender + ": <empty>"@]
            } else {
                &&& entry.len() == lines.len()
                &&& entry[0] == "#"@ + sender + ": "@ + lines[0]
                &&& forall|i: int|
                    1 <= i < lines.len() ==> #[trigger] entry[i] == "  "@ + lines[i]
            }
        }),
{
}

proof fn lemma_batch_lines(
    replies: Seq<(Seq<char>, Seq<char>)>,
    last: (Seq<char>, Seq<char>),
    n: nat,
)
    requires
        n <= replies.len(),
    ensures
        batch_lines(replies.push(last), n) == (if n == replies.len() && n > 0 {
            batch_lines(replies, n).push(seq![])
        } else {
            batch_lines(replies, n)
        }),
        batch_lines(replies, n).len() > 0,
    decreases n,
{
    if n > 0 {
        lemma_batch_lines(replies, last, (n - 1) as nat);
        assert(replies.push(last)[n - 1] == replies[n - 1]);
    }
}

/// Each reply is passed on: what is told of several replies is what is told of those
/// before the last, and below it, with an empty line between, the entry of the last.
pub proof fn law_each_reply_is_passed_on(
    replies: Seq<(Seq<char>, Seq<char>)>,
    sender: Seq<char>,
    reply: Seq<char>,
)
    ensures
        batched_replies(replies.push((sender, reply))) == (if replies.len() == 0 {
            "Weave replies:"@
        } else {
            batched_replies(replies) + "\n"@
        }) + "\n"@ + text::joined(reply_lines(sender, reply), "\n"@),
{
    let n = replies.len();
    let all = replies.push((sender, reply));
    let before = batch_lines(replies, n);
    let entry = reply_lines(sender, reply);
    lemma_batch_lines(replies, (sender, reply), n);
    assert(all[n as int] == (sender, reply));
    if n == 0 {
        text::law_rows_are_joined(before, entry, "\n"@);
        assert(before =~= seq!["Weave replies:"@]);
    } else {
        let gap: Seq<Seq<char>> = seq![seq![]];
        text::law_rows_are_joined(before.push(seq![]), entry, "\n"@);
        text::law_rows_are_joined(before, gap, "\n"@);
        assert(before.push(seq![]) =~= before + gap);
        assert(text::joined(before + gap, "\n"@) =~= text::joined(before, "\n"@) + "\n"@);
    }
}

/// Whether a line is a command and nothing else.
pub open spec fn is_command_line(line: Seq<char>) -> bool {
    let word = text::trimmed(line);
    word == "/new"@ || word == "/compact"@ || word == "/interrupt"@ || word == "/review"@
}

/// Where no line is a command, there are no commands, and all lines are left.
pub proof fn lemma_no_command_lines(lines: Seq<Seq<char>>)
    requires
        forall|i: int| 0 <= i < lines.len() ==> !is_command_line(#[trigger] lines[i]),
    ensures
        control_tokens(lines) == Seq::<WeaveTool<Seq<char>>>::empty(),
        other_lines(lines) == lines,
    decreases lines.len(),
{
    if lines.len() > 0 {
        let front = lines.drop_last();
        assert forall|i: int| 0 <= i < front.len() implies !is_command_line(
            #[trigger] front[i],
        ) by {
            assert(front[i] == lines[i]);
        }
        lemma_no_command_lines(front);
        assert(!is_command_line(lines[lines.len() - 1]));
        assert(front.push(lines.last()) =~= lines);
    } else {
        assert(other_lines(lines) =~= lines);
    }
}

/// Each line of a message is either a command, which is taken out, or it is left as it
/// is; nothing is taken out twice, and the order stays.
pub proof fn law_commands_are_taken_out_of_a_message(lines: Seq<Seq<char>>, line: Seq<char>)
    ensures
        text::trimmed(line) == "/new"@ ==> control_tokens(lines.push(line)) == control_tokens(
            lines,
        ).push(WeaveTool::NewSession),
        text::trimmed(line) == "/compact"@ ==> control_tokens(lines.push(line)) == control_tokens(
            lines,
        ).push(WeaveTool::Compact),
        text::trimmed(line) == "/interrupt"@ ==> control_tokens(lines.push(line))
            == control_tokens(lines).push(WeaveTool::Interrupt),
        text::trimmed(line) == "/review"@ ==> control_tokens(lines.push(line)) == control_tokens(
            lines,
        ).push(WeaveTool::Review { instructions: None }),
        is_command_line(line) ==> other_lines(lines.push(line)) == other_lines(lines),
        !is_command_line(line) ==> control_tokens(lines.push(line)) == control_tokens(lines)
            && other_lines(lines.push(line)) == other_lines(lines).push(line),
        control_tokens(Seq::<Seq<char>>::empty()).len() == 0,
        other_lines(Seq::<Seq<char>>::empty()).len() == 0,
{
    reveal_strlit("/new");
    reveal_strlit("/compact");
    reveal_strlit("/interrupt");
    reveal_strlit("/review");
    assert("/new"@.len() == 4 && "/compact"@.len() == 8 && "/interrupt"@.len() == 10
        && "/review"@.len() == 7);
    assert(lines.push(line).drop_last() =~= lines);
}

/// An agent is found by its identifier, at its first place, and not found only where nobody
/// has it.
pub proof fn law_an_agent_is_found_by_its_id(agents: Seq<WeaveAgent<Seq<char>>>, id: Seq<char>)
    ensures
        agent_with_id(agents, id) is None <==> forall|i: int|
            0 <= i < agents.len() ==> (#[trigger] agents[i]).id != id,
        agent_with_id(agents, id) is Some ==> agent_with_id(agents, id)->0.id == id
            && agents.contains(agent_with_id(agents, id)->0),
    decreases agents.len(),
{
    if agents.len() > 0 && agents[0].id != id {
        let rest = agents.subrange(1, agents.len() as int);
        law_an_agent_is_found_by_its_id(rest, id);
        if agent_with_id(rest, id) is Some {
            let k = choose|k: int| 0 <= k < rest.len() && rest[k] == agent_with_id(rest, id)->0;
            assert(agents[k + 1] == rest[k]);
        } else {
            assert forall|i: int| 0 <= i < agents.len() implies (#[trigger] agents[i]).id != id by {
                if i > 0 {
                    assert(rest[i - 1] == agents[i]);
                }
            }
        }
    } else if agents.len() > 0 {
        assert(agents.contains(agents[0]));
    }
}

/// What another agent wrote stands at the end of what the model gets, as it is, behind a
/// line of its own.
pub proof fn law_the_message_stands_in_the_prompt(ctx: PromptView)
    ensures
        exists|before: Seq<char>| #[trigger]
            (before + "\n"@ + "--- INPUT ---"@ + "\n"@ + ctx.message) == weave_prompt(ctx),
        exists|after: Seq<char>| #[trigger]
            ("Weave context:\nagent: "@ + ctx.self_name + "\nsender: "@ + ctx.sender_name + after)
                == weave_prompt(ctx),
{
    let head = prompt_head(ctx);
    let top = head + prompt_guidance(ctx);
    let all = top + seq!["--- INPUT ---"@, ctx.message];
    let sep = "\n"@;
    assert(all.drop_last() =~= top.push("--- INPUT ---"@));
    assert(top.push("--- INPUT ---"@).drop_last() =~= top);
    let before = text::joined(top, sep);
    assert(head.len() >= 6);
    assert(text::joined(top.push("--- INPUT ---"@), sep) == before + sep + "--- INPUT ---"@);
    assert(all.last() == ctx.message);
    assert(text::joined(all, sep) == before + sep + "--- INPUT ---"@ + sep + ctx.message);
    assert(before + sep + "--- INPUT ---"@ + sep + ctx.message == weave_prompt(ctx));
    let first = seq!["Weave context:"@, "agent: "@ + ctx.self_name, "sender: "@ + ctx.sender_name];
    let rest = all.skip(3);
    assert(first + rest =~= all);
    text::law_rows_are_joined(first, rest, sep);
    assert(first.drop_last() =~= seq!["Weave context:"@, "agent: "@ + ctx.self_name]);
    assert(first.drop_last().drop_last() =~= seq!["Weave context:"@]);
    assert(text::joined(seq!["Weave context:"@], sep) == "Weave context:"@);
    assert(text::joined(first.drop_last(), sep) == "Weave context:"@ + sep + ("agent: "@
        + ctx.self_name));
    assert(text::joined(first, sep) == "Weave context:"@ + sep + ("agent: "@ + ctx.self_name) + sep
        + ("sender: "@ + ctx.sender_name));
    reveal_strlit("Weave context:\nagent: ");
    reveal_strlit("Weave context:");
    reveal_strlit("agent: ");
    reveal_strlit("\nsender: ");
    reveal_strlit("sender: ");
    reveal_strlit("\n");
    assert("Weave context:\nagent: "@ =~= "Weave context:"@ + "\n"@ + "agent: "@);
    assert("\nsender: "@ =~= "\n"@ + "sender: "@);
    let after = sep + text::joined(rest, sep);
    assert("Weave context:\nagent: "@ + ctx.self_name + "\nsender: "@ + ctx.sender_name + after
        =~= weave_prompt(ctx));
}

} // verus!

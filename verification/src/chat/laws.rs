//! What holds of the chat as a whole.

use vstd::prelude::*;

use crate::chat::frames;
use crate::chat::inbound;
use crate::chat::inbound::{MessageView, SessionContextView};
use crate::chat::plan;
use crate::chat::relay;
use crate::chat::sending;
use crate::chat::state::{ChatView, Tape};
use crate::chat::steps;
use crate::chat::steps::DraftView;
use crate::chat::targets;
use crate::chat::tools;
use crate::chat::tools::ContextView;
use crate::chat::types::{
    EffectView, HistoryView, PlanView, RelayBodyView, RelayReplyView, RelayStepView,
    RelayTargetsView, SourceView, TargetStateView, UserMessageView, WeaveRelayDone, WeaveReplyTarget,
};
use crate::client::{WeaveAgent, WeaveMessageKind, WeaveTool};
use crate::json;
use crate::json::JsonView;
use crate::mentions;
use crate::mentions::ControlActionView;
use crate::prompts;
use crate::relay::WeaveRelayCommand;
use crate::table;
use crate::text;

verus! {

// ---------------------------------------------------------------------------
// Steps reach only those who take part
// ---------------------------------------------------------------------------

/// Whether an action goes to an agent.
pub open spec fn goes_to(action: JsonView, id: Seq<char>) -> bool {
    action matches JsonView::Object(fields) && fields.len() > 1 && fields[1] == (
        "dst"@,
        JsonView::Text(id),
    )
}

/// Whether an action goes to an agent that takes part.
pub open spec fn stays_inside(action: JsonView, targets: RelayTargetsView) -> bool {
    exists|id: Seq<char>| targets.allows(id) && #[trigger] goes_to(action, id)
}

/// Whether all actions go to agents that take part.
pub open spec fn all_inside(actions: Seq<JsonView>, targets: RelayTargetsView) -> bool {
    forall|i: int| 0 <= i < actions.len() ==> stays_inside(#[trigger] actions[i], targets)
}

proof fn lemma_taking_part(agents: Seq<WeaveAgent<Seq<char>>>, targets: RelayTargetsView)
    ensures
        forall|i: int|
            0 <= i < steps::taking_part(agents, targets).len() ==> targets.allows(
                (#[trigger] steps::taking_part(agents, targets)[i]).id,
            ),
    decreases agents.len(),
{
    if agents.len() > 0 {
        lemma_taking_part(agents.drop_last(), targets);
    }
}

proof fn lemma_control_inside(
    draft: DraftView,
    agents: Seq<WeaveAgent<Seq<char>>>,
    step_id: Seq<char>,
    tool: WeaveTool<Seq<char>>,
    owner_id: Seq<char>,
    targets: RelayTargetsView,
)
    requires
        all_inside(draft.actions, targets),
        forall|i: int| 0 <= i < agents.len() ==> targets.allows((#[trigger] agents[i]).id),
    ensures
        all_inside(draft.with_control(agents, step_id, tool, owner_id).actions, targets),
{
    let actions = draft.with_control(agents, step_id, tool, owner_id).actions;
    assert forall|i: int| 0 <= i < actions.len() implies stays_inside(
        #[trigger] actions[i],
        targets,
    ) by {
        let n = draft.actions.len() as int;
        if i < n {
            assert(actions[i] == draft.actions[i]);
        } else {
            let agent = agents[i - n];
            assert(actions[i] == steps::control_action(agent, step_id, tool));
            assert(goes_to(actions[i], agent.id));
        }
    }
}

proof fn lemma_controls_inside(
    draft: DraftView,
    agents: Seq<WeaveAgent<Seq<char>>>,
    step_id: Seq<char>,
    tools: Seq<WeaveTool<Seq<char>>>,
    owner_id: Seq<char>,
    targets: RelayTargetsView,
)
    requires
        all_inside(draft.actions, targets),
        forall|i: int| 0 <= i < agents.len() ==> targets.allows((#[trigger] agents[i]).id),
    ensures
        all_inside(draft.with_controls(agents, step_id, tools, owner_id).actions, targets),
    decreases tools.len(),
{
    if tools.len() > 0 {
        lemma_controls_inside(draft, agents, step_id, tools.drop_last(), owner_id, targets);
        lemma_control_inside(
            draft.with_controls(agents, step_id, tools.drop_last(), owner_id),
            agents,
            step_id,
            tools.last(),
            owner_id,
            targets,
        );
    }
}

proof fn lemma_message_inside(
    chat: ChatView,
    draft: DraftView,
    agents: Seq<WeaveAgent<Seq<char>>>,
    step_id: Seq<char>,
    message: Seq<char>,
    policy: Seq<char>,
    owner_id: Seq<char>,
    targets: RelayTargetsView,
)
    requires
        all_inside(draft.actions, targets),
        forall|i: int| 0 <= i < agents.len() ==> targets.allows((#[trigger] agents[i]).id),
    ensures
        all_inside(
            chat.draft_message(draft, agents, step_id, message, policy, owner_id).actions,
            targets,
        ),
{
    let lines = text::lines(message);
    let tools = prompts::control_tokens(lines);
    lemma_controls_inside(draft, agents, step_id, tools, owner_id, targets);
    let before = draft.with_controls(agents, step_id, tools, owner_id).actions;
    let rest = text::trimmed(text::joined(prompts::other_lines(lines), "\n"@));
    let actions = chat.draft_message(draft, agents, step_id, message, policy, owner_id).actions;
    if rest.len() > 0 {
        assert forall|i: int| 0 <= i < actions.len() implies stays_inside(
            #[trigger] actions[i],
            targets,
        ) by {
            let n = before.len() as int;
            if i < n {
                assert(actions[i] == before[i]);
            } else {
                let agent = agents[i - n];
                assert(actions[i] == chat.step_message(agent, step_id, rest, policy));
                assert(goes_to(actions[i], agent.id));
            }
        }
    }
}

proof fn lemma_step_inside(
    chat: ChatView,
    draft: DraftView,
    step: RelayStepView,
    agents: Seq<WeaveAgent<Seq<char>>>,
    targets: RelayTargetsView,
)
    requires
        all_inside(draft.actions, targets),
    ensures
        all_inside(chat.draft_step(draft, step, agents, targets).1.actions, targets),
{
    reveal(ChatView::draft_step);
    let planned = chat.step_plan(step.body);
    let named = steps::named(agents, text::trimmed(step.dst));
    let resolved = steps::taking_part(named, targets);
    let step_id = text::trimmed(step.step_id);
    lemma_taking_part(named, targets);
    match step.body {
        RelayBodyView::Control { command } => {
            lemma_control_inside(
                draft,
                resolved,
                step_id,
                steps::command_tool(command),
                targets.owner_id,
                targets,
            );
        },
        RelayBodyView::Message { text: message, plan: _, reply_policy } => {
            lemma_message_inside(
                planned,
                draft,
                resolved,
                step_id,
                text::trimmed(message),
                text::trimmed(reply_policy),
                targets.owner_id,
                targets,
            );
        },
    }
}

/// Whatever steps the model names, what is sent goes only to agents that take
/// part in the task.
pub proof fn law_steps_stay_in_the_task(
    chat: ChatView,
    named: Seq<RelayStepView>,
    agents: Seq<WeaveAgent<Seq<char>>>,
    targets: RelayTargetsView,
)
    ensures
        all_inside(chat.draft_steps(named, agents, targets).1.actions, targets),
    decreases named.len(),
{
    if named.len() > 0 {
        law_steps_stay_in_the_task(chat, named.drop_last(), agents, targets);
        let (before, draft) = chat.draft_steps(named.drop_last(), agents, targets);
        lemma_step_inside(before, draft, named.last(), agents, targets);
    }
}

proof fn lemma_control_fields(
    agent: WeaveAgent<Seq<char>>,
    step_id: Seq<char>,
    tool: WeaveTool<Seq<char>>,
)
    ensures
        ({
            let action = steps::control_action(agent, step_id, tool);
            &&& action.text_field("type"@) == Some("control"@)
            &&& action.text_field("dst"@) == Some(agent.id)
            &&& action.text_field("step_id"@) == Some(step_id)
            &&& action.text_field("command"@) == Some(steps::tool_name(tool))
        }),
{
    reveal_strlit("type");
    reveal_strlit("dst");
    reveal_strlit("step_id");
    reveal_strlit("command");
    let fields = steps::control_action(agent, step_id, tool)->Object_0;
    assert("type"@[0] == 't' && "dst"@[0] == 'd' && "step_id"@[0] == 's' && "command"@[0] == 'c');
    json::lemma_field_among_at(fields, "type"@, 0);
    json::lemma_field_among_at(fields, "dst"@, 1);
    json::lemma_field_among_at(fields, "step_id"@, 2);
    json::lemma_field_among_at(fields, "command"@, 3);
}

/// The word for a command, on the wire.
pub open spec fn is_word_of(word: Seq<char>, command: WeaveRelayCommand) -> bool {
    &&& command == WeaveRelayCommand::New ==> word == "new"@
    &&& command == WeaveRelayCommand::Compact ==> word == "compact"@
    &&& command == WeaveRelayCommand::Interrupt ==> word == "interrupt"@
    &&& command == WeaveRelayCommand::Review ==> word == "review"@
}

/// A command that the model names for a step is sent as that very command, to each of
/// the agents that the step names and that take part, for that step; and the transcript
/// says so.
pub proof fn law_a_command_is_sent_as_it_is_named(
    chat: ChatView,
    draft: DraftView,
    step: RelayStepView,
    command: WeaveRelayCommand,
    agents: Seq<WeaveAgent<Seq<char>>>,
    targets: RelayTargetsView,
)
    requires
        step.body == (RelayBodyView::Control { command }),
        text::trimmed(step.dst).len() > 0,
        steps::taking_part(steps::named(agents, text::trimmed(step.dst)), targets).len() > 0,
    ensures
        ({
            let to = steps::taking_part(steps::named(agents, text::trimmed(step.dst)), targets);
            let after = chat.draft_step(draft, step, agents, targets).1;
            let n = draft.actions.len() as int;
            &&& after.actions.len() == n + to.len()
            &&& after.actions.take(n) == draft.actions
            &&& forall|i: int|
                0 <= i < to.len() ==> {
                    let action = #[trigger] after.actions[n + i];
                    &&& action.text_field("type"@) == Some("control"@)
                    &&& action.text_field("dst"@) == Some(to[i].id)
                    &&& action.text_field("step_id"@) == Some(text::trimmed(step.step_id))
                    &&& action.text_field("command"@) matches Some(word) && is_word_of(
                        word,
                        command,
                    )
                }
            &&& after.logs.len() == draft.logs.len() + 1
            &&& after.logs.last().targets.len() == to.len()
            &&& command == WeaveRelayCommand::New ==> after.logs.last().text == "/new"@
            &&& command == WeaveRelayCommand::Compact ==> after.logs.last().text == "/compact"@
            &&& command == WeaveRelayCommand::Interrupt ==> after.logs.last().text
                == "/interrupt"@
            &&& command == WeaveRelayCommand::Review ==> after.logs.last().text == "/review"@
        }),
{
    reveal(ChatView::draft_step);
    let to = steps::taking_part(steps::named(agents, text::trimmed(step.dst)), targets);
    let after = chat.draft_step(draft, step, agents, targets).1;
    let n = draft.actions.len() as int;
    let tool = steps::command_tool(command);
    let step_id = text::trimmed(step.step_id);
    assert(after.actions.take(n) =~= draft.actions);
    assert forall|i: int| 0 <= i < to.len() implies {
        let action = #[trigger] after.actions[n + i];
        &&& action.text_field("type"@) == Some("control"@)
        &&& action.text_field("dst"@) == Some(to[i].id)
        &&& action.text_field("step_id"@) == Some(step_id)
        &&& action.text_field("command"@) matches Some(word) && is_word_of(word, command)
    } by {
        lemma_control_fields(to[i], step_id, tool);
        assert(after.actions[n + i] == steps::control_action(to[i], step_id, tool));
    }
}

/// Different commands have different words.
pub proof fn law_commands_are_told_apart(
    a: WeaveRelayCommand,
    b: WeaveRelayCommand,
    word: Seq<char>,
)
    requires
        is_word_of(word, a),
        is_word_of(word, b),
    ensures
        a == b,
        steps::tool_name(steps::command_tool(a)) == word,
{
    reveal_strlit("new");
    reveal_strlit("compact");
    reveal_strlit("interrupt");
    reveal_strlit("review");
    assert("new"@.len() == 3 && "compact"@.len() == 7 && "interrupt"@.len() == 9
        && "review"@.len() == 6);
}

/// Every agent that a destination names and that takes part gets the step, in the order
/// of the names, and nobody else does.
pub proof fn law_those_who_take_part_get_the_step(
    agents: Seq<WeaveAgent<Seq<char>>>,
    targets: RelayTargetsView,
)
    ensures
        steps::taking_part(agents, targets) == agents.filter(
            |agent: WeaveAgent<Seq<char>>| relay::holds_id(targets.target_ids, agent.id),
        ),
    decreases agents.len(),
{
    let takes_part = |agent: WeaveAgent<Seq<char>>| relay::holds_id(targets.target_ids, agent.id);
    reveal(Seq::filter);
    if agents.len() > 0 {
        law_those_who_take_part_get_the_step(agents.drop_last(), targets);
    } else {
        assert(agents.filter(takes_part) =~= seq![]);
    }
}

proof fn lemma_message_fields(
    chat: ChatView,
    agent: WeaveAgent<Seq<char>>,
    step_id: Seq<char>,
    message: Seq<char>,
    policy: Seq<char>,
)
    ensures
        ({
            let action = chat.step_message(agent, step_id, message, policy);
            &&& action.text_field("type"@) == Some("message"@)
            &&& action.text_field("dst"@) == Some(agent.id)
            &&& action.text_field("step_id"@) == Some(step_id)
            &&& action.text_field("text"@) == Some(message)
            &&& action.text_field("reply_policy"@) == Some(policy)
            &&& action.text_field("reply_to_action_id"@) == chat.answered_action(agent.id, policy)
        }),
{
    reveal_strlit("type");
    reveal_strlit("dst");
    reveal_strlit("step_id");
    reveal_strlit("text");
    reveal_strlit("reply_policy");
    reveal_strlit("reply_to_action_id");
    reveal_strlit("kind");
    let fields = chat.step_message(agent, step_id, message, policy)->Object_0;
    assert("type"@[1] == 'y' && "dst"@[1] == 's' && "step_id"@[1] == 't' && "text"@[1] == 'e'
        && "reply_policy"@[1] == 'e' && "reply_to_action_id"@[1] == 'e');
    assert("text"@.len() == 4 && "reply_policy"@.len() == 12 && "reply_to_action_id"@.len() == 18
        && "type"@.len() == 4 && "dst"@.len() == 3 && "step_id"@.len() == 7);
    json::lemma_field_among_at(fields, "type"@, 0);
    json::lemma_field_among_at(fields, "dst"@, 1);
    json::lemma_field_among_at(fields, "step_id"@, 2);
    json::lemma_field_among_at(fields, "text"@, 3);
    json::lemma_field_among_at(fields, "reply_policy"@, 4);
    json::lemma_field_among_at(fields, "reply_to_action_id"@, 5);
}

/// A message none of whose lines is a command is sent with all its lines to each of the
/// agents that the step names and that take part.
pub proof fn law_a_message_is_sent_as_it_stands(
    chat: ChatView,
    draft: DraftView,
    step: RelayStepView,
    message: Seq<char>,
    policy: Seq<char>,
    agents: Seq<WeaveAgent<Seq<char>>>,
    targets: RelayTargetsView,
)
    requires
        step.body == (RelayBodyView::Message { text: message, plan: None, reply_policy: policy }),
        text::trimmed(step.dst).len() > 0,
        steps::taking_part(steps::named(agents, text::trimmed(step.dst)), targets).len() > 0,
        text::trimmed(message).len() > 0,
        text::trimmed(text::joined(text::lines(text::trimmed(message)), "\n"@)).len() > 0,
        forall|i: int|
            0 <= i < text::lines(text::trimmed(message)).len() ==> !prompts::is_command_line(
                #[trigger] text::lines(text::trimmed(message))[i],
            ),
    ensures
        ({
            let to = steps::taking_part(steps::named(agents, text::trimmed(step.dst)), targets);
            let after = chat.draft_step(draft, step, agents, targets).1;
            let n = draft.actions.len() as int;
            &&& after.actions.len() == n + to.len()
            &&& after.actions.take(n) == draft.actions
            &&& forall|i: int|
                0 <= i < to.len() ==> {
                    let action = #[trigger] after.actions[n + i];
                    &&& action.text_field("type"@) == Some("message"@)
                    &&& action.text_field("dst"@) == Some(to[i].id)
                    &&& action.text_field("step_id"@) == Some(text::trimmed(step.step_id))
                    &&& action.text_field("text"@) == Some(
                        text::trimmed(text::joined(text::lines(text::trimmed(message)), "\n"@)),
                    )
                    &&& action.text_field("reply_policy"@) == Some(text::trimmed(policy))
                }
            &&& after.logs.len() == draft.logs.len() + 1
            &&& after.logs.last().text == text::trimmed(
                text::joined(text::lines(text::trimmed(message)), "\n"@),
            )
            &&& after.logs.last().targets.len() == to.len()
        }),
{
    reveal(ChatView::draft_step);
    let to = steps::taking_part(steps::named(agents, text::trimmed(step.dst)), targets);
    let after = chat.draft_step(draft, step, agents, targets).1;
    let n = draft.actions.len() as int;
    let lines = text::lines(text::trimmed(message));
    let said = text::trimmed(text::joined(lines, "\n"@));
    let step_id = text::trimmed(step.step_id);
    prompts::lemma_no_command_lines(lines);
    assert forall|i: int| 0 <= i < to.len() implies {
        let action = #[trigger] after.actions[n + i];
        &&& action.text_field("type"@) == Some("message"@)
        &&& action.text_field("dst"@) == Some(to[i].id)
        &&& action.text_field("step_id"@) == Some(step_id)
        &&& action.text_field("text"@) == Some(said)
        &&& action.text_field("reply_policy"@) == Some(text::trimmed(policy))
    } by {
        lemma_message_fields(chat, to[i], step_id, said, text::trimmed(policy));
        assert(after.actions[n + i] == chat.step_message(
            to[i],
            step_id,
            said,
            text::trimmed(policy),
        ));
    }
    assert(after.actions.take(n) =~= draft.actions);
}

/// What goes to the coordinator is what the steps came to, under the id of the task.
pub proof fn law_what_the_steps_came_to_is_sent(
    chat: ChatView,
    targets: RelayTargetsView,
    named: Seq<RelayStepView>,
)
    requires
        chat.scope_error(named, targets) is None,
        chat.weave_connected,
    ensures
        ({
            let planned = match steps::first_plan(named) {
                Some(plan) => chat.apply_plan(plan),
                None => chat,
            };
            let draft = planned.draft_steps(named, chat.weave_agents->0, targets).1;
            let after = chat.apply_steps(targets, named);
            draft.actions.len() > 0 ==> {
                &&& after.outbox.len() > 0
                &&& after.outbox.last() matches EffectView::SubmitRelay {
                    relay_id,
                    payload,
                    logs,
                    sender_name,
                    sender_is_owner,
                }
                &&& relay_id == targets.relay_id
                &&& payload.text_field("relay_id"@) == Some(targets.relay_id)
                &&& payload.array_field("actions"@) == Some(draft.actions)
                &&& logs == draft.logs
                &&& sender_name == chat.weave_agent_name
                &&& sender_is_owner == (targets.owner_id == chat.weave_agent_id)
            }
        }),
{
    reveal(ChatView::apply_steps);
    reveal(ChatView::emit);
    reveal_strlit("relay_id");
    reveal_strlit("actions");
    let planned = match steps::first_plan(named) {
        Some(plan) => chat.apply_plan(plan),
        None => chat,
    };
    let (done, draft) = planned.draft_steps(named, chat.weave_agents->0, targets);
    let payload = steps::relay_payload(targets.relay_id, draft.actions);
    assert("relay_id"@[0] == 'r' && "actions"@[0] == 'a');
    json::lemma_field_among_at(payload->Object_0, "relay_id"@, 0);
    json::lemma_field_among_at(payload->Object_0, "actions"@, 1);
    frames::lemma_steps_keep_who_sends(chat, named, chat.weave_agents->0, targets);
}

/// Steps with which something is wrong are not sent at all: the user hears what
/// is wrong, and nothing else changes.
pub proof fn law_wrong_steps_are_not_sent(
    chat: ChatView,
    targets: RelayTargetsView,
    named: Seq<RelayStepView>,
)
    requires
        chat.scope_error(named, targets) is Some,
    ensures
        chat.apply_steps(targets, named) == chat.error(chat.scope_error(named, targets)->0),
{
    reveal(ChatView::apply_steps);
}

// ---------------------------------------------------------------------------
// Messages
// ---------------------------------------------------------------------------

/// A message of a session that is not selected changes nothing.
pub proof fn law_other_sessions_are_ignored(
    chat: ChatView,
    message: MessageView,
    relay_done: Option<WeaveRelayDone<Seq<char>>>,
    tape: Tape,
)
    requires
        chat.selected_weave_session_id != Some(message.session_id),
    ensures
        chat.receive(message, relay_done, tape) == chat,
{
    reveal(ChatView::receive);
}

/// A message that is to wait for the new session is kept, behind those that are
/// kept already, and nothing else changes.
pub proof fn law_messages_wait_for_the_new_session(
    chat: ChatView,
    message: MessageView,
    tape: Tape,
)
    requires
        chat.selected_weave_session_id == Some(message.session_id),
        message.action_result is None,
        message.task_update is None,
        message.task_done is None,
        message.defer_until_ready,
        chat.defers_messages_of(message.src),
    ensures
        ({
            let after = chat.receive(message, None, tape);
            let settled = chat.settled_message(message);
            &&& after == (ChatView {
                pending_weave_action_messages: chat.pending_weave_action_messages.push(settled),
                ..chat
            })
            &&& settled.src == message.src
            &&& settled.text == message.text
            &&& settled.tool == message.tool
        }),
{
    reveal(ChatView::receive);
    reveal(ChatView::take_or_keep);
    reveal(ChatView::keep_for_session);
}

/// The messages that were kept are taken in the order in which they came.
pub proof fn law_kept_messages_are_taken_in_order(
    chat: ChatView,
    first: Seq<MessageView>,
    second: Seq<MessageView>,
    context: Option<SessionContextView>,
    tape: Tape,
)
    ensures
        chat.redeliver(first + second, context, tape) == chat.redeliver(
            first,
            context,
            tape,
        ).redeliver(second, context, tape),
    decreases second.len(),
{
    if second.len() == 0 {
        assert(first + second =~= first);
    } else {
        law_kept_messages_are_taken_in_order(chat, first, second.drop_last(), context, tape);
        assert((first + second).drop_last() =~= first + second.drop_last());
        assert((first + second).last() == second.last());
    }
}

/// What is taken out of those that were kept does not wait any more.
pub proof fn law_kept_messages_do_not_wait_again(
    context: Option<SessionContextView>,
    message: MessageView,
)
    ensures
        !inbound::ready_message(context, message).defer_until_ready,
        inbound::ready_message(context, message).src == message.src,
        inbound::ready_message(context, message).text == message.text,
{
}

/// Whether nothing has changed but what is to be done outside.
#[verifier::opaque]
pub open spec fn only_speaks(before: ChatView, after: ChatView) -> bool {
    after == (ChatView { outbox: after.outbox, ..before })
}

proof fn lemma_speaks_not(chat: ChatView)
    ensures
        only_speaks(chat, chat),
{
    reveal(only_speaks);
}

proof fn lemma_speaks(before: ChatView, chat: ChatView, effect: EffectView)
    requires
        only_speaks(before, chat),
    ensures
        only_speaks(before, chat.emit(effect)),
{
    reveal(only_speaks);
    reveal(ChatView::emit);
}

proof fn lemma_refusal_speaks(
    chat: ChatView,
    ctx: ContextView,
    message: Seq<char>,
    detail: Seq<char>,
)
    ensures
        only_speaks(chat, chat.refuse_tool(ctx, message, detail)),
{
    reveal(ChatView::refuse_tool);
    reveal(ChatView::send_result);
    lemma_speaks_not(chat);
    lemma_speaks(chat, chat, EffectView::History(HistoryView::Error(message)));
    let told = chat.error(message);
    match sending::result_for(ctx.action, "rejected"@, Some(detail), None, None) {
        Some(result) => {
            lemma_speaks(
                chat,
                told,
                EffectView::SendActionResult { dst: ctx.sender_id, result },
            );
        },
        None => {},
    }
    lemma_speaks(
        chat,
        told.answer_action(ctx.sender_id, ctx.action, "rejected"@, Some(detail)),
        EffectView::Redraw,
    );
}

/// A command that comes from this agent itself is refused, and changes nothing
/// but what is to be said about it.
pub proof fn law_nobody_commands_itself(
    chat: ChatView,
    tool: WeaveTool<Seq<char>>,
    ctx: ContextView,
    tape: Tape,
)
    requires
        ctx.sender_id == chat.weave_agent_id,
    ensures
        only_speaks(chat, chat.apply_tool(tool, ctx, tape)),
{
    reveal(ChatView::apply_tool);
    lemma_refusal_speaks(
        chat,
        ctx,
        "Ignored Weave control from local agent: "@ + steps::tool_label(tool) + "."@,
        "Ignored self-targeted control."@,
    );
}

/// An agent whose command is refused is told so: it gets a result that says
/// `rejected`, with the reason, for the action that it named.
pub proof fn law_a_refused_agent_is_told(
    chat: ChatView,
    ctx: ContextView,
    message: Seq<char>,
    detail: Seq<char>,
)
    requires
        chat.weave_connected,
        ctx.action.group_id is Some,
        ctx.action.action_id is Some,
        ctx.action.action_index is Some,
    ensures
        only_speaks(chat, chat.refuse_tool(ctx, message, detail)),
        chat.refuse_tool(ctx, message, detail).outbox == chat.outbox + seq![
            EffectView::History(HistoryView::Error(message)),
            EffectView::SendActionResult {
                dst: ctx.sender_id,
                result: sending::action_result(
                    ctx.action.group_id->0,
                    ctx.action.action_id->0,
                    ctx.action.action_index->0,
                    "rejected"@,
                    Some(detail),
                    None,
                    None,
                ),
            },
            EffectView::Redraw,
        ],
{
    lemma_refusal_speaks(chat, ctx, message, detail);
    reveal(ChatView::refuse_tool);
    reveal(ChatView::send_result);
    reveal(ChatView::emit);
}

/// While the model works, another agent can neither have the context shortened nor
/// a review begun: it is refused, and nothing changes but what is to be said about
/// it.
pub proof fn law_a_busy_agent_refuses(
    chat: ChatView,
    tool: WeaveTool<Seq<char>>,
    ctx: ContextView,
    tape: Tape,
)
    requires
        chat.task_running,
        ctx.sender_id != chat.weave_agent_id,
        tool is Compact || tool is Review,
    ensures
        chat.apply_tool(tool, ctx, tape) == chat.refuse_busy(ctx, steps::tool_label(tool)),
        only_speaks(chat, chat.apply_tool(tool, ctx, tape)),
{
    reveal(ChatView::apply_tool);
    reveal(ChatView::tool_compact);
    reveal(ChatView::tool_review);
    lemma_refusal_speaks(
        chat,
        ctx,
        tools::busy_line(steps::tool_label(tool)),
        "blocked: task in progress"@,
    );
}

/// While the model works, another agent that may not wait for the turn gets no new
/// session: its command changes nothing but what is to be said about it.
pub proof fn law_a_turn_is_not_cut_by_a_new_session(
    chat: ChatView,
    ctx: ContextView,
    tape: Tape,
)
    requires
        chat.task_running,
        !chat.can_wait_for_turn(ctx),
    ensures
        only_speaks(chat, chat.apply_tool(WeaveTool::NewSession, ctx, tape)),
{
    reveal(ChatView::apply_tool);
    reveal(ChatView::tool_new);
    lemma_refusal_speaks(
        chat,
        ctx,
        "Ignored Weave control from local agent: "@ + steps::tool_label(WeaveTool::NewSession)
            + "."@,
        "Ignored self-targeted control."@,
    );
    lemma_refusal_speaks(chat, ctx, tools::busy_line("/new"@), "blocked: task in progress"@);
}

// ---------------------------------------------------------------------------
// What waits
// ---------------------------------------------------------------------------

/// What waits is said in the order in which it came: what comes last stands
/// behind all others, and a text of the user that stands first is said next, by
/// itself.
pub proof fn law_what_waits_is_said_in_order(chat: ChatView, message: UserMessageView)
    ensures
        chat.enqueue(message).queued_user_messages == chat.queued_user_messages.push(message),
        chat.queued_user_messages.len() > 0 && chat.queued_user_messages[0].source
            == SourceView::Local ==> chat.next_message() == chat.queued_user_messages[0]
            && chat.without_next().queued_user_messages == chat.queued_user_messages.skip(1),
{
    reveal(ChatView::enqueue);
    reveal(ChatView::refresh_queue);
    reveal(ChatView::emit);
}

/// The pane shows that something runs if and only if the model is at work or a
/// server starts.
pub proof fn law_the_pane_shows_what_runs(chat: ChatView)
    ensures
        chat.sync_running().task_running == (chat.agent_turn_running
            || chat.mcp_startup_status is Some),
        chat.sync_running().agent_turn_running == chat.agent_turn_running,
        chat.sync_running().mcp_startup_status == chat.mcp_startup_status,
{
    reveal(ChatView::sync_running);
    reveal(ChatView::emit);
}

/// A turn that begins is shown at once.
pub proof fn law_a_turn_is_shown(chat: ChatView, running: bool)
    ensures
        chat.with_turn(running).task_running == (running || chat.mcp_startup_status is Some),
{
    reveal(ChatView::with_turn);
    law_the_pane_shows_what_runs(ChatView { agent_turn_running: running, ..chat });
}

// ---------------------------------------------------------------------------
// Who is answered, and who gives steps
// ---------------------------------------------------------------------------

proof fn lemma_turn_keeps_task(
    chat: ChatView,
    model: Seq<char>,
    input: Seq<char>,
    message: Seq<char>,
    images: Seq<Seq<char>>,
    target: Option<WeaveReplyTarget<Seq<char>>>,
)
    ensures
        ({
            let after = chat.start_turn(model, input, message, images, false, target);
            &&& after.active_weave_reply_target == target
            &&& after.pending_weave_relay == chat.pending_weave_relay
        }),
{
    reveal(ChatView::start_turn);
    reveal(ChatView::begin_turn);
    reveal(ChatView::sync_running);
    reveal(ChatView::emit);
}

/// A request of another agent is answered: while the model works on it, the answer
/// goes to that agent.
pub proof fn law_a_request_is_answered(
    chat: ChatView,
    message: MessageView,
    sender: Seq<char>,
    images: Seq<Seq<char>>,
    model: Seq<char>,
)
    requires
        message.kind == WeaveMessageKind::User,
        message.text.len() > 0,
        chat.described(message, sender).relay_targets is None,
    ensures
        ({
            let weave = chat.described(message, sender);
            let after = chat.submit_weave(weave, message.text, images, model);
            after.active_weave_reply_target == Some(weave.reply_target)
                && weave.reply_target.agent_id == message.src
        }),
{
    reveal(ChatView::submit_weave);
    let weave = chat.described(message, sender);
    lemma_turn_keeps_task(
        ChatView { pending_weave_relay: weave.relay_targets, ..chat.end_prompt() },
        model,
        chat.weave_input(weave, message.text),
        message.text,
        images,
        Some(weave.reply_target),
    );
}

/// A reply of another agent is not answered: agents do not send each other answers
/// to answers.
pub proof fn law_a_reply_is_not_answered(
    chat: ChatView,
    message: MessageView,
    sender: Seq<char>,
    images: Seq<Seq<char>>,
    model: Seq<char>,
)
    requires
        message.kind != WeaveMessageKind::User,
    ensures
        ({
            let weave = chat.described(message, sender);
            let after = chat.submit_weave(weave, message.text, images, model);
            &&& after.active_weave_reply_target is None
            &&& forall|answer: Option<Seq<char>>| #[trigger] after.pass_on(answer) == after
        }),
{
    reveal(ChatView::submit_weave);
    reveal(ChatView::pass_on);
    let weave = chat.described(message, sender);
    lemma_turn_keeps_task(
        ChatView { pending_weave_relay: weave.relay_targets, ..chat.end_prompt() },
        model,
        chat.weave_input(weave, message.text),
        message.text,
        images,
        None,
    );
}

/// Only the owner of a conversation gives steps in it: the model of another agent
/// is not asked for any.
pub proof fn law_only_the_owner_gives_steps(
    chat: ChatView,
    message: MessageView,
    sender: Seq<char>,
    images: Seq<Seq<char>>,
    model: Seq<char>,
)
    requires
        message.conversation_owner != chat.weave_agent_id,
        message.text.len() > 0,
    ensures
        chat.submit_weave(
            chat.described(message, sender),
            message.text,
            images,
            model,
        ).pending_weave_relay is None,
{
    reveal(ChatView::submit_weave);
    let weave = chat.described(message, sender);
    lemma_turn_keeps_task(
        ChatView { pending_weave_relay: weave.relay_targets, ..chat.end_prompt() },
        model,
        chat.weave_input(weave, message.text),
        message.text,
        images,
        if weave.auto_reply {
            Some(weave.reply_target)
        } else {
            None
        },
    );
}

proof fn lemma_new_conversations_keep_task(chat: ChatView, ids: Seq<Seq<char>>, tape: Tape)
    ensures
        ({
            let after = chat.reset_conversations(ids, tape);
            &&& after.active_weave_relay == chat.active_weave_relay
            &&& after.pending_weave_relay == chat.pending_weave_relay
        }),
    decreases ids.len(),
{
    if ids.len() > 0 {
        lemma_new_conversations_keep_task(chat, ids.drop_last(), tape);
        reveal(ChatView::reset_conversation);
        reveal(ChatView::with_target);
        reveal(ChatView::drew);
    }
}

/// A message of the user is a task for the agents that it mentions: this agent
/// owns it, they take part in it, each once, and the model is asked for steps.
pub proof fn law_a_task_is_for_those_it_mentions(
    chat: ChatView,
    agents: Seq<WeaveAgent<Seq<char>>>,
    message: Seq<char>,
    tape: Tape,
)
    requires
        chat.weave_agents == Some(agents),
        mentions::mentioned_agents(
            text::words(message),
            agents,
            Some(chat.weave_agent_id),
        ).len() > 0,
    ensures
        ({
            let members = mentions::mentioned_agents(
                text::words(message),
                agents,
                Some(chat.weave_agent_id),
            );
            let task = RelayTargetsView {
                owner_id: chat.weave_agent_id,
                relay_id: chat.next_id(tape),
                target_ids: relay::agent_ids(members),
            };
            let after = chat.begin_task(message, tape).0;
            &&& after.active_weave_relay == Some(task)
            &&& after.pending_weave_relay == Some(task)
            &&& relay::ids_differ(task.target_ids)
            &&& !task.allows(chat.weave_agent_id)
        }),
{
    reveal(ChatView::begin_task);
    reveal(ChatView::open_task);
    reveal(ChatView::refresh_label);
    reveal(ChatView::drew);
    reveal(ChatView::emit);
    let members = mentions::mentioned_agents(
        text::words(message),
        agents,
        Some(chat.weave_agent_id),
    );
    let task = RelayTargetsView {
        owner_id: chat.weave_agent_id,
        relay_id: chat.next_id(tape),
        target_ids: relay::agent_ids(members),
    };
    mentions::law_mentions_are_other_agents(
        text::words(message),
        agents,
        Some(chat.weave_agent_id),
    );
    lemma_new_conversations_keep_task(
        ChatView {
            pending_weave_relay: Some(task),
            active_weave_relay: Some(task),
            active_weave_plan: None,
            pending_weave_plan: prompts::wants_plan(message),
            ..chat.drew(tape)
        },
        task.target_ids,
        tape,
    );
}

/// Outside of a session, what the user says goes to the model as it stands:
/// nobody is mentioned, and nobody is commanded.
pub proof fn law_mentions_need_a_session(chat: ChatView, message: Seq<char>, tape: Tape)
    requires
        chat.weave_agents is None,
    ensures
        chat.begin_task(message, tape) == (chat, message),
        chat.commands_in(message) == (Seq::<ControlActionView>::empty(), message),
{
    reveal(ChatView::begin_task);
}

proof fn lemma_step_ends_quietly(chat: ChatView, step: Seq<char>)
    requires
        chat.active_weave_plan is None,
    ensures
        chat.plan_completed(step) == (chat, false),
{
    reveal(ChatView::plan_completed);
    assert(plan::plan_with_end(chat.active_weave_plan, step) == (None::<PlanView>, false));
}

proof fn lemma_steps_end_quietly(chat: ChatView, steps: Seq<Seq<char>>)
    requires
        chat.active_weave_plan is None,
    ensures
        chat.steps_ended(steps) == (chat, false),
    decreases steps.len(),
{
    if steps.len() > 0 {
        lemma_steps_end_quietly(chat, steps.drop_last());
        lemma_step_ends_quietly(chat, steps.last());
    }
}

/// What stays as it is while nothing is left for agents to finish and there is no
/// plan.
spec fn only_targets(a: ChatView, b: ChatView) -> bool {
    &&& b.outbox == a.outbox
    &&& b.active_weave_relay == a.active_weave_relay
    &&& b.pending_weave_relay == a.pending_weave_relay
    &&& b.active_weave_plan == a.active_weave_plan
    &&& b.pending_weave_plan == a.pending_weave_plan
    &&& b.weave_relay_buffer == a.weave_relay_buffer
    &&& forall|id: Seq<char>| b.owes_reply(id) ==> #[trigger] a.owes_reply(id)
}

proof fn lemma_actions_are_forgotten(chat: ChatView, id: Seq<char>)
    requires
        chat.active_weave_plan is None,
    ensures
        only_targets(chat, chat.forget_actions(id).0),
        !chat.forget_actions(id).1,
        !chat.forget_actions(id).0.owes_reply(id),
{
    match chat.target(id) {
        Some(state) => {
            let quiet = TargetStateView {
                pending_actions: seq![],
                pending_new_action_id: None,
                ..state
            };
            let after = chat.with_target(id, quiet);
            reveal(ChatView::with_target);
            lemma_steps_end_quietly(after, targets::steps_of(state.pending_actions));
            assert forall|other: Seq<char>| after.owes_reply(other) implies #[trigger] chat.owes_reply(
                other,
            ) by {
                table::law_with(chat.weave_target_states, id, quiet, other);
            }
            table::law_with(chat.weave_target_states, id, quiet, id);
        },
        None => {},
    }
}

proof fn lemma_all_actions_are_forgotten(chat: ChatView, ids: Seq<Seq<char>>)
    requires
        chat.active_weave_plan is None,
    ensures
        only_targets(chat, chat.forget_all_actions(ids).0),
        !chat.forget_all_actions(ids).1,
        forall|i: int|
            0 <= i < ids.len() ==> !chat.forget_all_actions(ids).0.owes_reply(#[trigger] ids[i]),
    decreases ids.len(),
{
    if ids.len() > 0 {
        lemma_all_actions_are_forgotten(chat, ids.drop_last());
        let before = chat.forget_all_actions(ids.drop_last()).0;
        lemma_actions_are_forgotten(before, ids.last());
        let after = before.forget_actions(ids.last()).0;
        assert forall|i: int| 0 <= i < ids.len() implies !after.owes_reply(#[trigger] ids[i]) by {
            if i < ids.len() - 1 {
                assert(ids.drop_last()[i] == ids[i]);
                assert(!before.owes_reply(ids[i]));
            }
        }
    }
}

/// Where steps are asked for, an answer that names none is for the user, and the
/// task is over: no more steps are asked for, none is sent, and nobody that took
/// part owes a reply.
pub proof fn law_prose_ends_the_task(
    chat: ChatView,
    targets: RelayTargetsView,
    output: Seq<char>,
)
    requires
        chat.pending_weave_relay == Some(targets),
    ensures
        ({
            let (after, handled) = chat.relay_answer(output, None);
            &&& !handled
            &&& after.pending_weave_relay is None
            &&& after.active_weave_relay is None
            &&& after.active_weave_plan is None
            &&& !after.pending_weave_plan
            &&& after.weave_relay_buffer.len() == 0
            &&& after.outbox == chat.outbox.push(EffectView::WeaveLabel(chat.session_label()))
            &&& forall|i: int|
                0 <= i < targets.target_ids.len() ==> !after.owes_reply(
                    #[trigger] targets.target_ids[i],
                )
        }),
{
    reveal(ChatView::relay_answer);
    reveal(ChatView::end_relay);
    reveal(ChatView::end_prompt);
    reveal(ChatView::without_plan);
    reveal(ChatView::leave_task);
    reveal(ChatView::clear_targets);
    reveal(ChatView::refresh_label);
    reveal(ChatView::emit);
    let quiet = chat.end_prompt().without_plan();
    let left = quiet.leave_task();
    match quiet.active_weave_relay {
        Some(relay) => {
            let without = ChatView { active_weave_relay: None, ..quiet };
            lemma_all_actions_are_forgotten(without, relay.target_ids);
        },
        None => {},
    }
    lemma_all_actions_are_forgotten(left, targets.target_ids);
    frames::law_an_answer_keeps_the_rest(chat, output, None);
    reveal(ChatView::same_but_task);
}

/// A task goes on while agents owe a reply: that it is done is not passed on.
pub proof fn law_a_task_waits_for_replies(
    chat: ChatView,
    targets: RelayTargetsView,
    summary: Option<Seq<char>>,
)
    requires
        chat.owe_replies(targets.target_ids),
    ensures
        chat.take_up(targets, RelayReplyView::TaskDone { summary }) == (
            ChatView { pending_weave_relay: None, weave_relay_buffer: seq![], ..chat },
            true,
        ),
{
    reveal(ChatView::take_up);
    reveal(ChatView::end_prompt);
}

proof fn lemma_steps_keep_targets(chat: ChatView, steps: Seq<Seq<char>>)
    ensures
        chat.steps_ended(steps).0.weave_target_states == chat.weave_target_states,
    decreases steps.len(),
{
    if steps.len() > 0 {
        lemma_steps_keep_targets(chat, steps.drop_last());
        reveal(ChatView::plan_completed);
    }
}

/// An action that an agent has finished is not open any more, and its other actions
/// are as they were.
pub proof fn law_a_finished_action_is_gone(
    chat: ChatView,
    id: Seq<char>,
    action_id: Seq<char>,
    other: Seq<char>,
)
    requires
        chat.target(id) matches Some(state) && table::keys_differ(state.pending_actions),
    ensures
        ({
            let before = chat.target(id)->0;
            let (after, cleared) = chat.clear_action(id, action_id);
            &&& cleared == table::has(before.pending_actions, action_id)
            &&& after.target(id) matches Some(state) && {
                &&& table::keys_differ(state.pending_actions)
                &&& table::value_at(state.pending_actions, action_id) is None
                &&& other != action_id ==> table::value_at(state.pending_actions, other)
                    == table::value_at(before.pending_actions, other)
            }
        }),
{
    reveal(ChatView::clear_action);
    reveal(ChatView::end_steps);
    reveal(ChatView::show_plan);
    reveal(ChatView::with_target);
    reveal(ChatView::emit);
    let state = chat.target(id)->0;
    table::law_without(state.pending_actions, action_id, other);
    table::law_without_keeps_keys_different(state.pending_actions, action_id);
    match table::value_at(state.pending_actions, action_id) {
        Some(pending) => {
            let quiet = TargetStateView {
                pending_actions: table::without(state.pending_actions, action_id),
                pending_new_action_id: if state.pending_new_action_id == Some(action_id) {
                    None
                } else {
                    state.pending_new_action_id
                },
                ..state
            };
            let cleared = chat.with_target(id, quiet);
            table::law_with(chat.weave_target_states, id, quiet, id);
            match pending.step_id {
                Some(step) => lemma_steps_keep_targets(cleared, seq![step]),
                None => {},
            }
        },
        None => {},
    }
}

// ---------------------------------------------------------------------------
// A new chat
// ---------------------------------------------------------------------------

/// A new chat goes on where the one before it stopped: it is the same agent, in
/// the same session, on the same connection, with the same messages that wait.
pub proof fn law_a_new_chat_goes_on(before: ChatView, new: ChatView)
    requires
        before.weave_connected,
    ensures
        ({
            let after = new.restore(before.snapshot());
            &&& after.weave_connected
            &&& after.weave_agent_id == before.weave_agent_id
            &&& after.weave_agent_name == before.weave_agent_name
            &&& after.selected_weave_session_id == before.selected_weave_session_id
            &&& after.pending_weave_action_messages == before.pending_weave_action_messages
        }),
{
    reveal(ChatView::restore);
    reveal(ChatView::take_over);
    reveal(ChatView::take_connection);
    reveal(ChatView::with_agents);
    reveal(ChatView::refresh_label);
    reveal(ChatView::list_agents);
    reveal(ChatView::report_new_session);
    reveal(ChatView::tell_new_session);
    reveal(ChatView::with_target);
    reveal(ChatView::send_result);
    reveal(ChatView::emit);
}

/// What was handed over is handed over once.
pub proof fn law_nothing_is_handed_over_twice(before: ChatView)
    ensures
        !before.handed_over().snapshot().connected,
        before.handed_over().snapshot().pending_new_session_result is None,
        before.handed_over().snapshot().pending_new_session_context is None,
        before.handed_over().snapshot().pending_action_messages.len() == 0,
{
    reveal(ChatView::handed_over);
}

/// A task is the same as itself, and the order of its agents does not count.
pub proof fn law_tasks_are_told_apart(a: RelayTargetsView, b: RelayTargetsView)
    ensures
        a.same_task(a),
        a.same_task(b) == b.same_task(a),
        a.same_task(b) ==> forall|id: Seq<char>| #[trigger] a.allows(id) == b.allows(id),
{
    assert forall|i: int| 0 <= i < a.target_ids.len() implies relay::holds_id(
        a.target_ids,
        #[trigger] a.target_ids[i],
    ) by {
    }
    if a.same_task(b) {
        assert forall|id: Seq<char>| #[trigger] a.allows(id) == b.allows(id) by {
            if a.allows(id) {
                let i = choose|i: int| 0 <= i < a.target_ids.len() && a.target_ids[i] == id;
                assert(relay::holds_id(b.target_ids, a.target_ids[i]));
            }
            if b.allows(id) {
                let i = choose|i: int| 0 <= i < b.target_ids.len() && b.target_ids[i] == id;
                assert(relay::holds_id(a.target_ids, b.target_ids[i]));
            }
        }
    }
}

} // verus!

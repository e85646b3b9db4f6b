//! What an event comes to, seen from outside: what is asked for, and what is remembered.

use vstd::prelude::*;

use crate::chat::inbound;
use crate::chat::results;
use crate::chat::sending;
use crate::chat::state::{ChatView, Tape};
use crate::chat::targets;
use crate::chat::tools;
use crate::chat::tools::ContextView;
use crate::chat::turns;
use crate::chat::types::{
    EffectView, HistoryView, InputItemView, OutboundLogView, RelayedAction, RelayedTargetView,
    TargetStateView,
};
use crate::client;
use crate::client::{
    WeaveActionResult, WeaveAgent, WeaveSession, WeaveTaskDone, WeaveTaskUpdate, WeaveTool,
};
use crate::mentions::Skill;
use crate::table;
use crate::text;

verus! {

// ---------------------------------------------------------------------------
// Accepted actions
// ---------------------------------------------------------------------------

/// Whether every action that is open here is open there, too.
#[verifier::opaque]
pub open spec fn keeps_open(before: ChatView, after: ChatView) -> bool {
    forall|id: Seq<char>, action_id: Seq<char>| #[trigger]
        before.is_open(id, action_id) ==> after.is_open(id, action_id)
}

proof fn lemma_keeps_chain(a: ChatView, b: ChatView, c: ChatView)
    requires
        keeps_open(a, b),
        keeps_open(b, c),
    ensures
        keeps_open(a, c),
{
    reveal(keeps_open);
    assert forall|id: Seq<char>, action_id: Seq<char>| #[trigger]
        a.is_open(id, action_id) implies c.is_open(id, action_id) by {
        assert(b.is_open(id, action_id));
    }
}

proof fn lemma_keeps_same(a: ChatView, b: ChatView)
    requires
        a.weave_target_states == b.weave_target_states,
    ensures
        keeps_open(a, b),
{
    reveal(keeps_open);
    assert forall|id: Seq<char>, action_id: Seq<char>| #[trigger]
        a.is_open(id, action_id) implies b.is_open(id, action_id) by {}
}

proof fn lemma_keeps_target(a: ChatView, id: Seq<char>, state: TargetStateView)
    requires
        a.target(id) matches Some(before) ==> forall|action_id: Seq<char>| #[trigger]
            table::value_at(before.pending_actions, action_id) is Some ==> table::value_at(
                state.pending_actions,
                action_id,
            ) is Some,
    ensures
        keeps_open(a, a.with_target(id, state)),
        a.with_target(id, state).target(id) == Some(state),
{
    reveal(keeps_open);
    reveal(ChatView::with_target);
    let b = a.with_target(id, state);
    table::law_with(a.weave_target_states, id, state, id);
    assert forall|other: Seq<char>, action_id: Seq<char>| #[trigger]
        a.is_open(other, action_id) implies b.is_open(other, action_id) by {
        table::law_with(a.weave_target_states, id, state, other);
    }
}

proof fn lemma_keeps_conversation(a: ChatView, id: Seq<char>, tape: Tape)
    ensures
        keeps_open(a, a.with_conversation(id, tape)),
        a.with_conversation(id, tape).target(id) is Some,
        a.target(id) is Some ==> a.with_conversation(id, tape) == a,
{
    reveal(ChatView::with_conversation);
    reveal(ChatView::drew);
    lemma_keeps_same(a, a);
    if !table::has(a.weave_target_states, id) {
        let b = a.drew(tape);
        let c = b.drew(tape);
        let state = targets::new_state(a.next_id(tape), b.next_id(tape));
        lemma_keeps_same(a, c);
        lemma_keeps_target(c, id, state);
        lemma_keeps_chain(a, c, c.with_target(id, state));
    }
}

/// An action that the coordinator has accepted is open for its agent from then on, in its
/// group and for its step; a reply is due for it if it is a message that asks its sender
/// for one. Nothing that was open before is closed by it.
pub proof fn law_an_accepted_action_is_open(
    chat: ChatView,
    id: Seq<char>,
    group_id: Seq<char>,
    action: RelayedAction<Seq<char>>,
    tape: Tape,
)
    ensures
        ({
            let after = chat.accept_action(id, group_id, action, tape).0;
            &&& after.is_open(id, action.action_id)
            &&& keeps_open(chat, after)
            &&& after.target(id) matches Some(state) && {
                &&& table::value_at(state.pending_actions, action.action_id) matches Some(
                    pending,
                ) && pending.group_id == group_id && pending.step_id == Some(action.step_id)
                    && pending.expects_reply == (action.action_type == "message"@
                    && action.reply_policy == Some("sender"@))
                &&& action.action_type == "control"@ && action.command == Some("new"@)
                    ==> state.pending_new_action_id == Some(action.action_id)
            }
        }),
{
    reveal(ChatView::accept_action);
    reveal(ChatView::register_action);
    reveal(ChatView::plan_started);
    let a = chat.start_step(action.step_id).0;
    lemma_keeps_same(chat, a);
    let b = a.with_conversation(id, tape);
    lemma_keeps_conversation(a, id, tape);
    lemma_keeps_chain(chat, a, b);
    let state = b.target(id)->0;
    let pending = results::pending_of(action, group_id);
    let with = TargetStateView {
        pending_actions: table::with(state.pending_actions, action.action_id, pending),
        ..state
    };
    assert forall|other: Seq<char>| #[trigger]
        table::value_at(state.pending_actions, other) is Some implies table::value_at(
        with.pending_actions,
        other,
    ) is Some by {
        table::law_with(state.pending_actions, action.action_id, pending, other);
    }
    table::law_with(state.pending_actions, action.action_id, pending, action.action_id);
    let c = b.with_target(id, with);
    lemma_keeps_target(b, id, with);
    lemma_keeps_chain(chat, b, c);
    reveal(ChatView::await_new_session);
    let waiting = TargetStateView { pending_new_action_id: Some(action.action_id), ..with };
    lemma_keeps_target(c, id, waiting);
    lemma_keeps_chain(chat, c, c.with_target(id, waiting));
}

/// Every action that the coordinator has accepted for an agent is open.
pub proof fn law_all_accepted_actions_are_open(
    chat: ChatView,
    id: Seq<char>,
    group_id: Seq<char>,
    actions: Seq<RelayedAction<Seq<char>>>,
    tape: Tape,
)
    ensures
        ({
            let after = chat.accept_actions(id, group_id, actions, tape).0;
            &&& keeps_open(chat, after)
            &&& forall|i: int|
                0 <= i < actions.len() ==> after.is_open(id, (#[trigger] actions[i]).action_id)
        }),
    decreases actions.len(),
{
    lemma_keeps_same(chat, chat);
    if actions.len() > 0 {
        let front = actions.drop_last();
        let before = chat.accept_actions(id, group_id, front, tape).0;
        let after = before.accept_action(id, group_id, actions.last(), tape).0;
        law_all_accepted_actions_are_open(chat, id, group_id, front, tape);
        law_an_accepted_action_is_open(before, id, group_id, actions.last(), tape);
        lemma_keeps_chain(chat, before, after);
        assert forall|i: int| 0 <= i < actions.len() implies after.is_open(
            id,
            (#[trigger] actions[i]).action_id,
        ) by {
            reveal(keeps_open);
            if i < front.len() {
                assert(front[i] == actions[i]);
                assert(before.is_open(id, front[i].action_id));
            }
        }
    }
}

proof fn lemma_accept_target(chat: ChatView, target: RelayedTargetView, tape: Tape)
    ensures
        ({
            let after = chat.accept_target(target, tape).0;
            &&& keeps_open(chat, after)
            &&& target.group_id is Some ==> forall|i: int|
                0 <= i < target.actions.len() ==> after.is_open(
                    target.target_id,
                    (#[trigger] target.actions[i]).action_id,
                )
        }),
{
    reveal(ChatView::accept_target);
    reveal(ChatView::settle_target);
    let with = chat.with_conversation(target.target_id, tape);
    let moved = results::moved_state(
        with.target(target.target_id)->0,
        target.context_id,
        target.task_id,
    );
    let settled = with.with_target(target.target_id, moved);
    lemma_keeps_conversation(chat, target.target_id, tape);
    lemma_keeps_target(with, target.target_id, moved);
    lemma_keeps_chain(chat, with, settled);
    match target.group_id {
        Some(group_id) => {
            law_all_accepted_actions_are_open(
                settled,
                target.target_id,
                group_id,
                target.actions,
                tape,
            );
            lemma_keeps_chain(
                chat,
                settled,
                settled.accept_actions(target.target_id, group_id, target.actions, tape).0,
            );
        },
        None => {},
    }
}

/// Every action that the coordinator has accepted is open for the agent that it went to.
pub proof fn law_every_agent_has_its_accepted_actions(
    chat: ChatView,
    targets: Seq<RelayedTargetView>,
    tape: Tape,
)
    ensures
        ({
            let after = chat.accept_targets(targets, tape).0;
            &&& keeps_open(chat, after)
            &&& forall|k: int, i: int|
                0 <= k < targets.len() && targets[k].group_id is Some && 0 <= i
                    < targets[k].actions.len() ==> after.is_open(
                    targets[k].target_id,
                    (#[trigger] targets[k].actions[i]).action_id,
                )
        }),
    decreases targets.len(),
{
    lemma_keeps_same(chat, chat);
    if targets.len() > 0 {
        let front = targets.drop_last();
        let before = chat.accept_targets(front, tape).0;
        let after = before.accept_target(targets.last(), tape).0;
        law_every_agent_has_its_accepted_actions(chat, front, tape);
        lemma_accept_target(before, targets.last(), tape);
        lemma_keeps_chain(chat, before, after);
        assert forall|k: int, i: int|
            0 <= k < targets.len() && targets[k].group_id is Some && 0 <= i
                < targets[k].actions.len() implies after.is_open(
            targets[k].target_id,
            (#[trigger] targets[k].actions[i]).action_id,
        ) by {
            reveal(keeps_open);
            if k < front.len() {
                assert(front[k] == targets[k]);
                assert(before.is_open(front[k].target_id, front[k].actions[i].action_id));
            }
        }
    }
}

/// What the coordinator says of a task that is not at hand changes nothing.
pub proof fn law_other_tasks_change_nothing(
    chat: ChatView,
    relay_id: Seq<char>,
    accepted: crate::chat::types::RelayAcceptedView,
    message: Seq<char>,
    summary: Option<Seq<char>>,
    tape: Tape,
)
    requires
        chat.active_weave_relay matches Some(relay) ==> relay.relay_id != relay_id,
    ensures
        chat.relay_accepted(relay_id, accepted, tape) == chat,
        chat.relay_failed(relay_id, message) == chat,
        chat.relay_finished(crate::chat::types::WeaveRelayDone { relay_id, summary }) == chat,
{
    reveal(ChatView::relay_accepted);
    reveal(ChatView::relay_finished);
}

/// The user hears of each agent that refused, in the order of the refusals, and of
/// nothing else.
pub proof fn law_each_refusal_is_told(
    chat: ChatView,
    failures: Seq<crate::chat::types::RelayFailure<Seq<char>>>,
    last: crate::chat::types::RelayFailure<Seq<char>>,
    code: Seq<char>,
    message: Seq<char>,
)
    requires
        last.code == Some(code),
        last.message == Some(message),
        text::trimmed(last.dst).len() > 0,
        text::trimmed(code).len() > 0,
        text::trimmed(message).len() > 0,
    ensures
        chat.tell_refusals(seq![]) == chat,
        chat.tell_refusals(failures.push(last)) == chat.tell_refusals(failures).error(
            "Weave relay target "@ + text::trimmed(last.dst) + " rejected: "@ + (text::trimmed(code)
                + ": "@ + text::trimmed(message)),
        ),
{
    assert(failures.push(last).drop_last() =~= failures);
}

/// What was sent to somebody is logged, and what was sent to nobody is not.
pub proof fn law_what_was_sent_is_logged(logs: Seq<OutboundLogView>)
    ensures
        results::sent_logs(logs) == logs.filter(|log: OutboundLogView| log.targets.len() > 0),
    decreases logs.len(),
{
    reveal(Seq::filter);
    if logs.len() > 0 {
        law_what_was_sent_is_logged(logs.drop_last());
    } else {
        assert(logs.filter(|log: OutboundLogView| log.targets.len() > 0) =~= seq![]);
    }
}

/// A conversation goes on where the other side says, and stays where it says nothing.
pub proof fn law_a_conversation_moves(
    state: TargetStateView,
    context_id: Seq<char>,
    task_id: Seq<char>,
)
    ensures
        results::moved_state(state, Some(context_id), Some(task_id)) == (TargetStateView {
            context_id,
            task_id,
            ..state
        }),
        results::moved_state(state, Some(context_id), None) == (TargetStateView {
            context_id,
            ..state
        }),
        results::moved_state(state, None, Some(task_id)) == (TargetStateView { task_id, ..state }),
        results::moved_state(state, None, None) == state,
{
}

// ---------------------------------------------------------------------------
// Tasks that other agents finish
// ---------------------------------------------------------------------------

/// News of a task that is not its end is told, and nothing else changes; the same goes for
/// the end of a task that the agent was not given.
pub proof fn law_news_of_a_task_is_told(
    chat: ChatView,
    sender_id: Seq<char>,
    update: WeaveTaskUpdate<Seq<char>>,
    tape: Tape,
)
    ensures
        ({
            let status = text::trimmed(update.status);
            let after = chat.task_updated(sender_id, update, tape);
            &&& status.len() == 0 ==> after == chat
            &&& status.len() > 0 && status != "done"@ ==> after == chat.info(
                "Weave task update from "@ + chat.name_of(sender_id) + ": "@ + status + "."@,
            )
            &&& status == "done"@ ==> after == chat.task_finished(
                sender_id,
                WeaveTaskDone { task_id: update.task_id, summary: None },
                tape,
            )
        }),
        chat.target(sender_id) is None || (chat.target(sender_id)->0).task_id != update.task_id
            ==> chat.task_finished(
            sender_id,
            WeaveTaskDone { task_id: update.task_id, summary: None },
            tape,
        ) == chat.info("Weave task done from "@ + chat.name_of(sender_id) + "."@),
{
    reveal(ChatView::task_updated);
    reveal(ChatView::task_finished);
    reveal(ChatView::clear_task);
    reveal(ChatView::emit);
    reveal_strlit("done");
    assert("done"@.len() == 4);
}

// ---------------------------------------------------------------------------
// Commands of other agents
// ---------------------------------------------------------------------------

/// Whether something was asked for since.
pub open spec fn asked_since(before: ChatView, after: ChatView, effect: EffectView) -> bool {
    exists|k: int| before.outbox.len() <= k < after.outbox.len() && #[trigger] after.outbox[k] == effect
}

/// What a command of another agent does while nothing runs: `/compact` has the
/// conversation compacted, and `/review` has a review made. The other agent is told that
/// it was done.
pub proof fn law_a_command_is_carried_out(
    chat: ChatView,
    ctx: ContextView,
    instructions: Option<Seq<char>>,
    tape: Tape,
)
    requires
        !chat.task_running,
        ctx.sender_id != chat.weave_agent_id,
    ensures
        ({
            let compacted = chat.apply_tool(WeaveTool::Compact, ctx, tape);
            let reviewed = chat.apply_tool(WeaveTool::Review { instructions }, ctx, tape);
            &&& asked_since(chat, compacted, EffectView::Compact)
            &&& !asked_since(chat, compacted, EffectView::NewSession)
            &&& !asked_since(chat, compacted, EffectView::Interrupt)
            &&& compacted.token_info is None
            &&& instructions matches Some(text) ==> asked_since(
                chat,
                reviewed,
                EffectView::Review { instructions: Some(text) },
            )
            &&& !asked_since(chat, reviewed, EffectView::NewSession)
            &&& !asked_since(chat, reviewed, EffectView::Compact)
            &&& chat.weave_connected ==> (ctx.action.group_id matches Some(group_id)
                ==> ctx.action.action_id matches Some(action_id)
                ==> ctx.action.action_index matches Some(action_index) ==> {
                let done = EffectView::SendActionResult {
                    dst: ctx.sender_id,
                    result: WeaveActionResult {
                        group_id,
                        action_id,
                        action_index,
                        status: "completed"@,
                        detail: None,
                        new_context_id: None,
                        new_task_id: None,
                    },
                };
                asked_since(chat, compacted, done) && asked_since(chat, reviewed, done)
            })
        }),
{
    reveal(ChatView::apply_tool);
    reveal(ChatView::tool_compact);
    reveal(ChatView::tool_review);
    reveal(ChatView::tool_done);
    reveal(ChatView::work_for);
    reveal(ChatView::answer_reviewer);
    reveal(ChatView::send_result);
    reveal(ChatView::emit);
    let n = chat.outbox.len() as int;
    let compacted = chat.apply_tool(WeaveTool::Compact, ctx, tape);
    let reviewed = chat.apply_tool(WeaveTool::Review { instructions }, ctx, tape);
    assert(compacted.outbox[n + 1] == EffectView::Compact);
    assert(reviewed.outbox[n + 1] == (EffectView::Review {
        instructions: tools::review_instructions(instructions, ctx.text),
    }));
    assert(compacted.outbox[n + 2] == compacted.outbox[n + 2]);
    assert(reviewed.outbox[n + 2] == reviewed.outbox[n + 2]);
}

/// Without instructions of its own, a review goes by the text that came with it, unless
/// that is nothing but the command.
pub proof fn law_a_review_goes_by_the_text(message: Seq<char>, instructions: Seq<char>)
    ensures
        tools::review_instructions(Some(instructions), message) == Some(instructions),
        text::trimmed(message).len() == 0 ==> tools::review_instructions(None, message) is None,
        text::ascii_lower(text::trimmed(message)) == "/review"@ ==> tools::review_instructions(
            None,
            message,
        ) is None,
        text::trimmed(message).len() > 0 && text::ascii_lower(text::trimmed(message)) != "/review"@
            ==> tools::review_instructions(None, message) == Some(text::trimmed(message)),
{
}

/// A new session that another agent asks for while nothing runs is started at once: what
/// was going on with other agents is forgotten, and nothing waits to be said.
pub proof fn law_a_new_session_is_started(chat: ChatView, ctx: ContextView, tape: Tape)
    requires
        !chat.task_running,
        ctx.sender_id != chat.weave_agent_id,
        chat.pending_weave_new_session_context is None,
        chat.pending_weave_new_session_result is None,
    ensures
        ({
            let after = chat.apply_tool(WeaveTool::NewSession, ctx, tape);
            &&& asked_since(chat, after, EffectView::NewSession)
            &&& !asked_since(chat, after, EffectView::Compact)
            &&& after.weave_target_states.len() == 0
            &&& after.queued_user_messages.len() == 0
            &&& after.active_weave_relay is None
            &&& after.active_weave_plan is None
            &&& !after.pending_weave_new_session
            &&& ctx.action.group_id matches Some(group_id)
                ==> ctx.action.action_id matches Some(action_id)
                ==> ctx.action.action_index matches Some(action_index) ==> {
                &&& after.pending_weave_new_session_result matches Some(due) && due.sender_id
                    == ctx.sender_id && due.group_id == group_id && due.action_id == action_id
                    && due.action_index == action_index
                &&& after.pending_weave_new_session_context matches Some(context)
                    && context.conversation_owner == ctx.sender_id && context.group_id == group_id
                    && context.previous_conversation_id == ctx.conversation_id
            }
        }),
{
    reveal(ChatView::apply_tool);
    reveal(ChatView::tool_new);
    reveal(ChatView::note_new_session);
    reveal(ChatView::start_new_session);
    reveal(ChatView::forget_conversations);
    reveal(ChatView::empty_queue);
    reveal(ChatView::refresh_queue);
    reveal(ChatView::drew);
    reveal(ChatView::emit);
    let n = chat.outbox.len() as int;
    let after = chat.apply_tool(WeaveTool::NewSession, ctx, tape);
    let last = after.outbox.len() as int;
    assert(after.outbox[last - 2] == EffectView::NewSession);
    assert forall|k: int| n <= k < last implies #[trigger] after.outbox[k]
        != EffectView::Compact by {
        if k < last - 2 {
            assert(k == n || k == n + 1);
        }
    }
}

/// Once the new session is there, the agent that asked for it is told so, and where the
/// conversation goes on.
pub proof fn law_a_new_session_is_reported(
    chat: ChatView,
    context: crate::chat::types::WeavePendingNewSessionContext<Seq<char>>,
    due: crate::chat::types::WeavePendingActionResult<Seq<char>>,
)
    requires
        chat.pending_weave_new_session_context == Some(context),
        chat.pending_weave_new_session_result == Some(due),
        chat.conversation_id is Some,
        chat.weave_connected,
    ensures
        ({
            let after = chat.report_new_session();
            &&& after.pending_weave_new_session_result is None
            &&& after.outbox.len() == chat.outbox.len() + 1
            &&& after.outbox.last() matches EffectView::SendActionResult { dst, result } && {
                &&& dst == due.sender_id
                &&& result.status == "completed"@
                &&& result.group_id == due.group_id
                &&& result.action_id == due.action_id
                &&& result.action_index == due.action_index
                &&& text::trimmed(context.conversation_id).len() > 0 ==> result.new_context_id
                    == Some(text::trimmed(context.conversation_id))
                &&& text::trimmed(context.task_id).len() > 0 ==> result.new_task_id == Some(
                    text::trimmed(context.task_id),
                )
            }
            &&& after.target(due.sender_id) matches Some(state) && state.context_id
                == context.conversation_id && state.task_id == context.task_id
                && state.pending_actions.len() == 0
        }),
{
    reveal(ChatView::report_new_session);
    reveal(ChatView::tell_new_session);
    reveal(ChatView::with_target);
    reveal(ChatView::send_result);
    reveal(ChatView::emit);
    table::law_with(
        chat.weave_target_states,
        due.sender_id,
        targets::new_state(context.conversation_id, context.task_id),
        due.sender_id,
    );
}

// ---------------------------------------------------------------------------
// Who is known
// ---------------------------------------------------------------------------

proof fn lemma_agent_place(agents: Seq<WeaveAgent<Seq<char>>>, id: Seq<char>)
    ensures
        ({
            let n = inbound::agent_place(agents, id);
            &&& 0 <= n <= agents.len()
            &&& n < agents.len() ==> agents[n].id == id
            &&& forall|i: int| 0 <= i < n ==> (#[trigger] agents[i]).id != id
        }),
    decreases agents.len(),
{
    if agents.len() > 0 && agents[0].id != id {
        let rest = agents.subrange(1, agents.len() as int);
        lemma_agent_place(rest, id);
        let n = inbound::agent_place(rest, id);
        assert forall|i: int| 0 <= i < n + 1 implies (#[trigger] agents[i]).id != id by {
            if i > 0 {
                assert(rest[i - 1] == agents[i]);
            }
        }
    }
}

/// Whoever sends a message is known from then on, by the name that it gives, and by its
/// former one if it gives none; all others stay as they are.
pub proof fn law_a_sender_is_known(
    agents: Seq<WeaveAgent<Seq<char>>>,
    id: Seq<char>,
    name: Option<Seq<char>>,
)
    ensures
        ({
            let after = inbound::with_sender(agents, id, name);
            &&& exists|i: int| 0 <= i < after.len() && (#[trigger] after[i]).id == id
            &&& agents.len() <= after.len() <= agents.len() + 1
            &&& forall|i: int| 0 <= i < agents.len() ==> (#[trigger] after[i]).id == agents[i].id
            &&& forall|i: int|
                0 <= i < agents.len() && agents[i].id != id ==> #[trigger] after[i] == agents[i]
            &&& name is None ==> forall|i: int|
                0 <= i < agents.len() ==> #[trigger] after[i] == agents[i]
            &&& (forall|i: int| 0 <= i < agents.len() ==> (#[trigger] agents[i]).id != id)
                ==> after == agents.push(WeaveAgent { id, name })
            &&& name is Some ==> exists|i: int|
                0 <= i < after.len() && #[trigger] after[i] == (WeaveAgent { id, name })
        }),
{
    let after = inbound::with_sender(agents, id, name);
    lemma_agent_place(agents, id);
    let n = inbound::agent_place(agents, id);
    if n < agents.len() {
        assert(after[n].id == id);
        if name is Some {
            assert(after[n] == (WeaveAgent { id, name }));
        }
    } else {
        assert(after[agents.len() as int] == (WeaveAgent { id, name }));
    }
}

// ---------------------------------------------------------------------------
// Sessions
// ---------------------------------------------------------------------------

/// To select a session hangs up, forgets the agents of the one before, and connects to it
/// under the own name.
pub proof fn law_selecting_a_session_connects(chat: ChatView, session: WeaveSession<Seq<char>>)
    requires
        chat.selected_weave_session_id != Some(session.id),
    ensures
        ({
            let after = chat.select_session(Some(session));
            &&& after.selected_weave_session_id == Some(session.id)
            &&& after.selected_weave_session_name == Some(
                client::shown_name(session.id, session.name),
            )
            &&& !after.weave_connected
            &&& after.weave_agents == Some(Seq::<WeaveAgent<Seq<char>>>::empty())
            &&& after.weave_target_states.len() == 0
            &&& after.active_weave_relay is None
            &&& chat.weave_connected ==> asked_since(chat, after, EffectView::Disconnect)
            &&& after.outbox.len() > chat.outbox.len()
            &&& after.outbox.last() == (EffectView::Connect {
                session_id: session.id,
                agent_id: chat.weave_agent_id,
                agent_name: chat.weave_agent_name,
            })
        }),
{
    reveal(ChatView::select_session);
    reveal(ChatView::disconnect);
    reveal(ChatView::hang_up);
    reveal(ChatView::forget_agents);
    reveal(ChatView::with_session);
    reveal(ChatView::with_agents);
    reveal(ChatView::connect);
    reveal(ChatView::refresh_label);
    reveal(ChatView::emit);
    let after = chat.select_session(Some(session));
    if chat.weave_connected {
        assert(after.outbox[chat.outbox.len() as int] == EffectView::Disconnect);
    }
}

/// A connection to the selected session is used: messages are watched for and the agents
/// are asked for. One to another session is refused, and nothing else changes.
pub proof fn law_a_connection_is_used_or_refused(chat: ChatView, session_id: Seq<char>)
    ensures
        ({
            let after = chat.connected(session_id);
            if chat.selected_weave_session_id == Some(session_id) {
                &&& after.weave_connected
                &&& asked_since(chat, after, EffectView::WatchIncoming { session_id })
                &&& asked_since(
                    chat,
                    after,
                    EffectView::ListAgents { session_id, src: chat.weave_agent_id },
                )
                &&& !asked_since(chat, after, EffectView::RefuseConnection)
            } else {
                after == chat.emit(EffectView::RefuseConnection)
            }
        }),
{
    reveal(ChatView::connected);
    reveal(ChatView::list_agents);
    reveal(ChatView::report_new_session);
    reveal(ChatView::tell_new_session);
    reveal(ChatView::with_target);
    reveal(ChatView::send_result);
    reveal(ChatView::emit);
    let n = chat.outbox.len() as int;
    let after = chat.connected(session_id);
    if chat.selected_weave_session_id == Some(session_id) {
        assert(after.outbox[n] == (EffectView::WatchIncoming { session_id }));
        assert(after.outbox[n + 1] == (EffectView::ListAgents {
            session_id,
            src: chat.weave_agent_id,
        }));
    }
}

/// The agents of the selected session are known as they were listed; a list of another
/// session changes nothing.
pub proof fn law_a_list_of_agents_is_taken(
    chat: ChatView,
    session_id: Seq<char>,
    agents: Seq<WeaveAgent<Seq<char>>>,
)
    ensures
        ({
            let after = chat.agents_listed(session_id, agents);
            if chat.selected_weave_session_id == Some(session_id) {
                after.weave_agents == Some(agents) && asked_since(
                    chat,
                    after,
                    EffectView::WeaveAgents(Some(agents)),
                )
            } else {
                after == chat
            }
        }),
{
    reveal(ChatView::agents_listed);
    reveal(ChatView::with_agents);
    reveal(ChatView::emit);
    let after = chat.agents_listed(session_id, agents);
    if chat.selected_weave_session_id == Some(session_id) {
        assert(after.outbox[chat.outbox.len() as int] == EffectView::WeaveAgents(Some(agents)));
    }
}

/// A new name is taken and told to the session; a blank one, or the one that it has
/// already, changes nothing.
pub proof fn law_a_new_name_is_taken(chat: ChatView, name: Seq<char>)
    ensures
        ({
            let after = chat.rename(name);
            let new = text::trimmed(name);
            if new.len() == 0 || new == chat.weave_agent_name {
                after == chat
            } else {
                &&& after.weave_agent_name == new
                &&& chat.weave_connected ==> after.outbox.len() > chat.outbox.len()
                    && after.outbox.last() == EffectView::RenameAgent(new)
            }
        }),
{
    reveal(ChatView::rename);
    reveal(ChatView::refresh_label);
    reveal(ChatView::emit);
}

// ---------------------------------------------------------------------------
// What reaches the model
// ---------------------------------------------------------------------------

/// What the model gets: all images, the text unless it is empty, and all skills, in this
/// order.
pub proof fn law_the_model_gets_it_all(
    images: Seq<Seq<char>>,
    input: Seq<char>,
    skills: Seq<Skill<Seq<char>>>,
)
    ensures
        ({
            let items = turns::turn_items(images, input, skills);
            let n = images.len() as int;
            let m = if input.len() > 0 {
                n + 1
            } else {
                n
            };
            &&& items.len() == m + skills.len()
            &&& forall|i: int| 0 <= i < n ==> #[trigger] items[i] == InputItemView::Image(images[i])
            &&& input.len() > 0 ==> items[n] == InputItemView::Text(input)
            &&& forall|i: int|
                0 <= i < skills.len() ==> #[trigger] items[m + i] == (InputItemView::Skill {
                    name: skills[i].name,
                    path: skills[i].path,
                })
        }),
{
}

/// A text of the user that begins with an exclamation mark runs in the shell, without the
/// mark; any other goes to the model with its images, and is remembered and shown.
pub proof fn law_a_text_goes_where_it_belongs(
    chat: ChatView,
    message: Seq<char>,
    images: Seq<Seq<char>>,
    model: Seq<char>,
    tape: Tape,
)
    requires
        message.len() > 0,
        chat.weave_agents is None,
    ensures
        ({
            let after = chat.submit_text(message, images, model, tape);
            if message[0] == '!' {
                text::trimmed(message.skip(1)).len() > 0 ==> asked_since(
                    chat,
                    after,
                    EffectView::RunShell(text::trimmed(message.skip(1))),
                )
            } else {
                &&& asked_since(
                    chat,
                    after,
                    EffectView::UserTurn {
                        items: turns::turn_items(images, message, chat.skills_in(message)),
                        model,
                        with_mode: chat.collaboration_modes,
                    },
                )
                &&& asked_since(chat, after, EffectView::Remember(message))
                &&& asked_since(
                    chat,
                    after,
                    EffectView::History(HistoryView::UserPrompt(message)),
                )
                &&& after.agent_turn_running
            }
        }),
{
    reveal(ChatView::submit_text);
    reveal(ChatView::end_prompt);
    reveal(ChatView::begin_task);
    reveal(ChatView::run_shell);
    reveal(ChatView::start_turn);
    reveal(ChatView::begin_turn);
    reveal(ChatView::sync_running);
    reveal(ChatView::keep_prompt);
    reveal(ChatView::emit);
    reveal_strlit("!");
    assert("!"@ =~= seq!['!']);
    let n = chat.outbox.len() as int;
    let after = chat.submit_text(message, images, model, tape);
    let last = after.outbox.len() as int;
    if message[0] == '!' {
        assert(message.subrange(0, 1) =~= "!"@);
        assert("!"@.is_prefix_of(message));
        assert(after.outbox[n] == after.outbox[n]);
    } else {
        if "!"@.is_prefix_of(message) {
            assert(message.subrange(0, 1)[0] == '!');
        }
        assert(after.outbox[last - 4] == (EffectView::UserTurn {
            items: turns::turn_items(images, message, chat.skills_in(message)),
            model,
            with_mode: chat.collaboration_modes,
        }));
        assert(after.outbox[last - 3] == EffectView::Remember(message));
        assert(after.outbox[last - 2] == EffectView::History(HistoryView::UserPrompt(message)));
    }
}

/// A reply goes to whom it is for as long as the connection is to the session that it
/// belongs to; else the user hears why it was not sent. A blank one is not sent.
pub proof fn law_a_reply_is_sent_or_the_user_hears_why(
    chat: ChatView,
    target: crate::chat::types::WeaveReplyTarget<Seq<char>>,
    message: Seq<char>,
)
    ensures
        ({
            let after = chat.send_reply(target, message);
            if forall|i: int| 0 <= i < message.len() ==> text::is_space(#[trigger] message[i]) {
                after == chat
            } else if !chat.weave_connected {
                after == chat.error(
                    "Failed to send Weave reply to "@ + target.display_name
                        + ": session not connected."@,
                )
            } else if chat.selected_weave_session_id != Some(target.session_id) {
                after == chat.error(
                    "Failed to send Weave reply to "@ + target.display_name + ": session changed."@,
                )
            } else {
                after == chat.emit(EffectView::SendReply { target, message })
            }
        }),
{
    text::law_white_space_counts_as_nothing(message);
    reveal(ChatView::send_reply);
    reveal_strlit("Failed to send Weave ");
    reveal_strlit("Failed to send Weave reply to ");
    reveal_strlit("reply");
    reveal_strlit(" to ");
    reveal_strlit(": ");
    reveal_strlit("session not connected.");
    reveal_strlit(": session not connected.");
    reveal_strlit("session changed.");
    reveal_strlit(": session changed.");
    let name = target.display_name;
    assert(sending::not_sent("reply"@, name, "session not connected."@)
        =~= "Failed to send Weave reply to "@ + name + ": session not connected."@);
    assert(sending::not_sent("reply"@, name, "session changed."@)
        =~= "Failed to send Weave reply to "@ + name + ": session changed."@);
}

} // verus!

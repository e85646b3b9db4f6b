//! Which steps, commands and messages go through, and what is left of them.

use vstd::prelude::*;

use crate::chat::controls;
use crate::chat::events::asks_for;
use crate::chat::inbound;
use crate::chat::inbound::{MessageView, SessionContextView};
use crate::chat::sending;
use crate::chat::state::{ChatView, Tape};
use crate::chat::steps;
use crate::chat::targets;
use crate::chat::targets::PendingTable;
use crate::chat::tools;
use crate::chat::tools::ContextView;
use crate::chat::turns;
use crate::chat::types::{
    EffectView, HistoryView, RelayBodyView, RelayStepView, RelayTargetsView, SourceView,
    TargetStateView, UserMessageView, WeavePendingAction, WeaveUserView,
};
use crate::client::{WeaveAgent, WeaveMessageKind, WeaveTool};
use crate::mentions;
use crate::mentions::ControlActionView;
use crate::table;
use crate::text;

verus! {

// ---------------------------------------------------------------------------
// Steps
// ---------------------------------------------------------------------------

/// Whether a step names somebody, all whom it names take part, it says which step it is,
/// and a message says who is to answer.
pub open spec fn is_right_step(
    step: RelayStepView,
    agents: Seq<WeaveAgent<Seq<char>>>,
    targets: RelayTargetsView,
) -> bool {
    let named = mentions::resolved_targets(agents, seq![text::trimmed(step.dst)]);
    &&& !text::is_blank(step.dst)
    &&& !text::is_blank(step.step_id)
    &&& named.len() > 0
    &&& forall|i: int|
        0 <= i < named.len() ==> targets.target_ids.contains((#[trigger] named[i]).id)
    &&& step.body matches RelayBodyView::Message { text: _, plan: _, reply_policy }
        ==> text::trimmed(reply_policy) == "sender"@ || text::trimmed(reply_policy) == "none"@
}

proof fn lemma_allows(targets: RelayTargetsView, id: Seq<char>)
    ensures
        targets.allows(id) <==> targets.target_ids.contains(id),
{
    if targets.target_ids.contains(id) {
        let i = choose|i: int| 0 <= i < targets.target_ids.len() && targets.target_ids[i] == id;
        assert(targets.target_ids[i] == id);
    }
}

proof fn lemma_right_step(
    step: RelayStepView,
    agents: Seq<WeaveAgent<Seq<char>>>,
    targets: RelayTargetsView,
)
    ensures
        steps::step_error(step, agents, targets) is None <==> is_right_step(step, agents, targets),
{
    let named = mentions::resolved_targets(agents, seq![text::trimmed(step.dst)]);
    assert forall|i: int| 0 <= i < named.len() implies (targets.allows((#[trigger] named[i]).id)
        <==> targets.target_ids.contains(named[i].id)) by {
        lemma_allows(targets, named[i].id);
    }
    text::law_white_space_counts_as_nothing(step.dst);
    reveal_strlit("sender");
    reveal_strlit("none");
    assert("sender"@.len() == 6 && "none"@.len() == 4);
}

/// Steps are taken if each of them is right; else the user hears of the first that is not.
pub proof fn law_right_steps_are_taken(
    named: Seq<RelayStepView>,
    agents: Seq<WeaveAgent<Seq<char>>>,
    targets: RelayTargetsView,
)
    ensures
        steps::steps_error(named, agents, targets) is None <==> forall|i: int|
            0 <= i < named.len() ==> is_right_step(#[trigger] named[i], agents, targets),
        steps::steps_error(named, agents, targets) is Some ==> exists|i: int|
            0 <= i < named.len() && !is_right_step(#[trigger] named[i], agents, targets)
                && steps::step_error(named[i], agents, targets) == steps::steps_error(
                named,
                agents,
                targets,
            ) && forall|j: int|
                0 <= j < i ==> is_right_step(#[trigger] named[j], agents, targets),
    decreases named.len(),
{
    if named.len() > 0 {
        let rest = named.subrange(1, named.len() as int);
        lemma_right_step(named[0], agents, targets);
        if steps::step_error(named[0], agents, targets) is None {
            law_right_steps_are_taken(rest, agents, targets);
            if steps::steps_error(rest, agents, targets) is None {
                assert forall|i: int| 0 <= i < named.len() implies is_right_step(
                    #[trigger] named[i],
                    agents,
                    targets,
                ) by {
                    if i > 0 {
                        assert(rest[i - 1] == named[i]);
                    }
                }
            } else {
                let k = choose|k: int|
                    0 <= k < rest.len() && !is_right_step(#[trigger] rest[k], agents, targets)
                        && steps::step_error(rest[k], agents, targets) == steps::steps_error(
                        rest,
                        agents,
                        targets,
                    ) && forall|j: int|
                        0 <= j < k ==> is_right_step(#[trigger] rest[j], agents, targets);
                assert(named[k + 1] == rest[k]);
                assert forall|j: int| 0 <= j < k + 1 implies is_right_step(
                    #[trigger] named[j],
                    agents,
                    targets,
                ) by {
                    if j > 0 {
                        assert(rest[j - 1] == named[j]);
                    }
                }
            }
        } else {
            assert(!is_right_step(named[0], agents, targets));
        }
    }
}

/// A message of the owner that wants no answer is itself the answer to the last action of
/// an agent that waits for one; no other message is.
pub proof fn law_an_answer_names_what_it_answers(
    chat: ChatView,
    id: Seq<char>,
    policy: Seq<char>,
    state: TargetStateView,
    i: int,
)
    requires
        table::value_at(chat.weave_target_states, id) == Some(state),
    ensures
        policy == "none"@ && 0 <= i < state.pending_actions.len()
            && state.pending_actions[i].1.expects_reply ==> chat.answered_action(id, policy)
            == state.last_action_id,
        policy == "sender"@ ==> chat.answered_action(id, policy) is None,
        (forall|k: int|
            0 <= k < state.pending_actions.len() ==> !(
            #[trigger] state.pending_actions[k]).1.expects_reply) ==> chat.answered_action(
            id,
            policy,
        ) is None,
{
    reveal_strlit("sender");
    reveal_strlit("none");
    assert("sender"@.len() == 6 && "none"@.len() == 4);
}

// ---------------------------------------------------------------------------
// What agents have still to do
// ---------------------------------------------------------------------------

/// Every open action either asks for a reply or does not: dividing them by that, or by
/// their group, loses none.
pub proof fn law_open_actions_are_divided(
    pending: PendingTable,
    next: (Seq<char>, WeavePendingAction<Seq<char>>),
    reply: bool,
    group_id: Seq<char>,
    same: bool,
)
    ensures
        targets::replying(seq![], reply).len() == 0,
        targets::replying(pending.push(next), reply) == (if next.1.expects_reply == reply {
            targets::replying(pending, reply).push(next)
        } else {
            targets::replying(pending, reply)
        }),
        targets::of_group(seq![], group_id, same).len() == 0,
        targets::of_group(pending.push(next), group_id, same) == (if (next.1.group_id == group_id)
            == same {
            targets::of_group(pending, group_id, same).push(next)
        } else {
            targets::of_group(pending, group_id, same)
        }),
        targets::steps_of(seq![]).len() == 0,
        next.1.step_id is Some ==> targets::steps_of(pending.push(next)) == targets::steps_of(
            pending,
        ).push(next.1.step_id->0),
        next.1.step_id is None ==> targets::steps_of(pending.push(next)) == targets::steps_of(
            pending,
        ),
{
    assert(pending.push(next).drop_last() =~= pending);
}

/// The agents that owe a reply are those that have an open action that asks for one.
pub proof fn law_who_owes_a_reply(
    states: Seq<(Seq<char>, TargetStateView)>,
    next: (Seq<char>, TargetStateView),
)
    ensures
        turns::owing(seq![]).len() == 0,
        (exists|i: int|
            0 <= i < next.1.pending_actions.len() && (
            #[trigger] next.1.pending_actions[i]).1.expects_reply) ==> turns::owing(
            states.push(next),
        ) == turns::owing(states).push(next.0),
        (forall|i: int|
            0 <= i < next.1.pending_actions.len() ==> !(
            #[trigger] next.1.pending_actions[i]).1.expects_reply) ==> turns::owing(
            states.push(next),
        ) == turns::owing(states),
{
    assert(states.push(next).drop_last() =~= states);
}

proof fn lemma_steps_ended(a: ChatView, steps: Seq<Seq<char>>)
    ensures
        a.steps_ended(steps).0.weave_target_states == a.weave_target_states,
    decreases steps.len(),
{
    if steps.len() > 0 {
        lemma_steps_ended(a, steps.drop_last());
        reveal(ChatView::plan_completed);
    }
}

proof fn lemma_end_steps(a: ChatView, steps: Seq<Seq<char>>)
    ensures
        a.end_steps(steps).weave_target_states == a.weave_target_states,
{
    lemma_steps_ended(a, steps);
    reveal(ChatView::end_steps);
    reveal(ChatView::show_plan);
    reveal(ChatView::emit);
}

proof fn lemma_no_reply(pending: PendingTable)
    ensures
        !targets::awaits_reply(targets::replying(pending, false)),
    decreases pending.len(),
{
    if pending.len() > 0 {
        let front = targets::replying(pending.drop_last(), false);
        lemma_no_reply(pending.drop_last());
        let kept = targets::replying(pending, false);
        assert forall|i: int| 0 <= i < kept.len() implies !(
        #[trigger] kept[i]).1.expects_reply by {
            if i < front.len() {
                assert(!front[i].1.expects_reply);
            }
        }
    }
}

/// An agent of which nothing is expected any more owes no reply; what is expected of others
/// stays as it is.
pub proof fn law_nothing_is_expected_any_more(chat: ChatView, id: Seq<char>, other: Seq<char>)
    requires
        other != id,
    ensures
        !chat.clear_expectations(id).0.owes_reply(id),
        chat.clear_expectations(id).0.target(other) == chat.target(other),
        chat.clear_expectations(id).0.owes_reply(other) == chat.owes_reply(other),
{
    reveal(ChatView::clear_expectations);
    reveal(ChatView::with_target);
    match chat.target(id) {
        Some(state) => {
            let kept = targets::replying(state.pending_actions, false);
            let quiet = TargetStateView {
                pending_actions: kept,
                pending_new_action_id: targets::still_pending(state.pending_new_action_id, kept),
                ..state
            };
            lemma_no_reply(state.pending_actions);
            lemma_end_steps(
                chat.with_target(id, quiet),
                targets::steps_of(targets::replying(state.pending_actions, true)),
            );
            table::law_with(chat.weave_target_states, id, quiet, other);
        },
        None => {},
    }
}

/// When the task of an agent ends, nothing of it is open any more; the end of another task
/// leaves everything open.
pub proof fn law_a_task_that_ends_leaves_nothing_open(
    chat: ChatView,
    id: Seq<char>,
    task_id: Seq<char>,
    state: TargetStateView,
)
    requires
        chat.target(id) == Some(state),
    ensures
        state.task_id == task_id ==> (chat.clear_task(id, task_id).0.target(id) matches Some(after)
            && after.pending_actions.len() == 0),
        state.task_id == task_id ==> chat.clear_task(id, task_id).1 == (
        state.pending_actions.len() > 0),
        state.task_id != task_id ==> chat.clear_task(id, task_id) == (chat, false),
{
    reveal(ChatView::clear_task);
    reveal(ChatView::with_target);
    reveal(ChatView::show_plan);
    reveal(ChatView::emit);
    let quiet = TargetStateView { pending_actions: seq![], pending_new_action_id: None, ..state };
    lemma_steps_ended(
        chat.with_target(id, quiet),
        targets::steps_of(state.pending_actions),
    );
    table::law_with(chat.weave_target_states, id, quiet, id);
}

// ---------------------------------------------------------------------------
// Commands
// ---------------------------------------------------------------------------

/// Those of a task that a command of the user interrupts: all agents of the task that an
/// interruption names.
pub proof fn law_who_is_interrupted(
    agents: Seq<WeaveAgent<Seq<char>>>,
    next: WeaveAgent<Seq<char>>,
    actions: Seq<ControlActionView>,
    action: ControlActionView,
    task: RelayTargetsView,
)
    ensures
        controls::members_among(seq![], task).len() == 0,
        task.target_ids.contains(next.id) ==> controls::members_among(agents.push(next), task)
            == controls::members_among(agents, task).push(next.id),
        !task.target_ids.contains(next.id) ==> controls::members_among(agents.push(next), task)
            == controls::members_among(agents, task),
        controls::interrupted_members(seq![], task).len() == 0,
        action.tool is Interrupt ==> controls::interrupted_members(actions.push(action), task)
            == controls::interrupted_members(actions, task) + controls::members_among(
            action.targets,
            task,
        ),
        action.tool !is Interrupt ==> controls::interrupted_members(actions.push(action), task)
            == controls::interrupted_members(actions, task),
{
    lemma_allows(task, next.id);
    assert(agents.push(next).drop_last() =~= agents);
    assert(actions.push(action).drop_last() =~= actions);
}

proof fn lemma_prepared(
    chat: ChatView,
    agents: Seq<WeaveAgent<Seq<char>>>,
    tool: WeaveTool<Seq<char>>,
    tape: Tape,
)
    ensures
        chat.prepare(agents, tool, tape).1.len() == agents.len(),
        forall|i: int|
            0 <= i < agents.len() ==> (#[trigger] chat.prepare(agents, tool, tape).1[i]).agent
                == agents[i] && chat.prepare(agents, tool, tape).1[i].tool == tool,
    decreases agents.len(),
{
    if agents.len() > 0 {
        lemma_prepared(chat, agents.drop_last(), tool, tape);
    }
}

/// A command goes to each agent that it names, as it was given; commands go out in the
/// order in which they were given.
pub proof fn law_a_command_goes_to_each_agent(
    chat: ChatView,
    actions: Seq<ControlActionView>,
    action: ControlActionView,
    tape: Tape,
)
    ensures
        ({
            let before = chat.prepare_all(actions, tape).1;
            let after = chat.prepare_all(actions.push(action), tape).1;
            &&& chat.prepare_all(seq![], tape).1.len() == 0
            &&& after.len() == before.len() + action.targets.len()
            &&& after.take(before.len() as int) == before
            &&& forall|i: int|
                0 <= i < action.targets.len() ==> (#[trigger] after[before.len() + i]).agent
                    == action.targets[i] && after[before.len() + i].tool == action.tool
        }),
{
    assert(actions.push(action).drop_last() =~= actions);
    let (start, before, _) = chat.prepare_all(actions, tape);
    let quiet = if action.tool is Interrupt {
        start.clear_all_expectations(action.targets).0
    } else {
        start
    };
    lemma_prepared(quiet, action.targets, action.tool, tape);
    let more = quiet.prepare(action.targets, action.tool, tape).1;
    let after = chat.prepare_all(actions.push(action), tape).1;
    assert(after == before + more);
    assert(after.take(before.len() as int) =~= before);
    assert forall|i: int| 0 <= i < action.targets.len() implies (#[trigger] after[before.len()
        + i]).agent == action.targets[i] && after[before.len() + i].tool == action.tool by {
        assert(after[before.len() + i] == more[i]);
    }
}

/// A command is sent in the conversation with the agent: in the one in which it waits for
/// an answer if it is interrupted, else in the own one.
pub proof fn law_a_command_stays_in_its_conversation(
    chat: ChatView,
    id: Seq<char>,
    tool: WeaveTool<Seq<char>>,
    state: TargetStateView,
    tape: Tape,
)
    requires
        chat.target(id) == Some(state),
    ensures
        chat.for_command(id, tool, tape).0 == chat,
        chat.for_command(id, tool, tape).1 is Some,
        ({
            let sent = chat.for_command(id, tool, tape).1->0;
            &&& sent.parent_message_id is None
            &&& tool is Interrupt && chat.active_weave_reply_target is Some
                && chat.active_weave_reply_target->0.agent_id == id ==> sent.conversation_id
                == chat.active_weave_reply_target->0.conversation_id && sent.conversation_owner
                == chat.active_weave_reply_target->0.conversation_owner && sent.task_id
                == chat.active_weave_reply_target->0.task_id
            &&& tool !is Interrupt || chat.active_weave_reply_target is None
                || chat.active_weave_reply_target->0.agent_id != id ==> sent.conversation_id
                == state.context_id && sent.conversation_owner == chat.weave_agent_id
                && sent.task_id == Some(state.task_id)
        }),
{
    reveal(ChatView::for_command);
    reveal(ChatView::with_conversation);
}

/// An agent hears what became of its action if it said which one it is; it hears nothing
/// otherwise, and while there is no connection.
pub proof fn law_an_action_is_answered(
    chat: ChatView,
    ctx: ContextView,
    status: Seq<char>,
    detail: Seq<char>,
)
    ensures
        ({
            let after = chat.answer_action(ctx.sender_id, ctx.action, status, Some(detail));
            if chat.weave_connected && ctx.action.group_id is Some && ctx.action.action_id is Some
                && ctx.action.action_index is Some {
                &&& after.outbox.len() == chat.outbox.len() + 1
                &&& after.outbox.drop_last() == chat.outbox
                &&& after.outbox.last() matches EffectView::SendActionResult { dst, result }
                    && dst == ctx.sender_id && result.group_id == ctx.action.group_id->0
                    && result.action_id == ctx.action.action_id->0 && result.action_index
                    == ctx.action.action_index->0 && result.status == status && (
                !text::is_blank(detail) ==> result.detail == Some(text::trimmed(detail)))
                    && result.new_context_id is None && result.new_task_id is None
            } else {
                after == chat
            }
        }),
{
    reveal(ChatView::send_result);
    reveal(ChatView::emit);
    text::law_white_space_counts_as_nothing(detail);
    match sending::result_for(ctx.action, status, Some(detail), None, None) {
        Some(result) => {
            assert(chat.outbox.push(
                EffectView::SendActionResult { dst: ctx.sender_id, result },
            ).drop_last() =~= chat.outbox);
        },
        None => {},
    }
}

// ---------------------------------------------------------------------------
// Messages
// ---------------------------------------------------------------------------

/// A message that was kept for a new session says what it said; it moves to that session if
/// it comes from who asked for it, behind the request, and stays where it was otherwise.
pub proof fn law_a_kept_message_moves(
    context: SessionContextView,
    message: MessageView,
)
    ensures
        ({
            let ready = inbound::ready_message(Some(context), message);
            let moved = ready.conversation_id == context.conversation_id
                && ready.conversation_owner == context.conversation_owner && ready.task_id == Some(
                context.task_id,
            ) && ready.has_conversation_metadata;
            let stays = ready.conversation_id == message.conversation_id
                && ready.conversation_owner == message.conversation_owner && ready.task_id
                == message.task_id && ready.has_conversation_metadata
                == message.has_conversation_metadata;
            &&& ready.text == message.text
            &&& ready.src == message.src
            &&& ready.src_name == message.src_name
            &&& ready.session_id == message.session_id
            &&& ready.message_id == message.message_id
            &&& ready.kind == message.kind
            &&& ready.tool == message.tool
            &&& ready.action_group_id == message.action_group_id
            &&& ready.action_id == message.action_id
            &&& ready.action_index == message.action_index
            &&& ready.reply_to_action_id == message.reply_to_action_id
            &&& moved || stays
            &&& message.src != context.conversation_owner ==> stays
            &&& message.action_group_id != Some(context.group_id) ==> stays
            &&& message.src == context.conversation_owner && message.action_group_id == Some(
                context.group_id,
            ) && context.action_index is Some && message.action_index is Some ==> (if (
            message.action_index->0) > (context.action_index->0) {
                moved
            } else {
                stays
            })
        }),
{
}

/// The task in which an agent writes is remembered, and kept where a message names none;
/// the tasks of all others stay as they are.
pub proof fn law_the_task_of_a_sender_is_remembered(
    chat: ChatView,
    sender_id: Seq<char>,
    task_id: Seq<char>,
    other: Seq<char>,
)
    requires
        other != sender_id,
    ensures
        !text::is_blank(task_id) ==> table::value_at(
            chat.note_task(sender_id, Some(task_id)).weave_inbound_task_ids,
            sender_id,
        ) == Some(text::trimmed(task_id)),
        table::value_at(
            chat.note_task(sender_id, Some(task_id)).weave_inbound_task_ids,
            other,
        ) == table::value_at(chat.weave_inbound_task_ids, other),
        text::is_blank(task_id) ==> chat.note_task(sender_id, Some(task_id)) == chat,
        chat.note_task(sender_id, None) == chat,
{
    reveal(ChatView::note_task);
    reveal(ChatView::keep_task);
    text::law_white_space_counts_as_nothing(task_id);
    table::law_with(chat.weave_inbound_task_ids, sender_id, text::trimmed(task_id), other);
}

/// A text of the user waits behind all others while a turn runs, a review is made or there
/// is no conversation yet; nothing else happens to it then.
pub proof fn law_a_text_waits_for_its_turn(chat: ChatView, message: UserMessageView, tape: Tape)
    requires
        message.source is Local,
        chat.conversation_id is None || chat.task_running || chat.is_review_mode,
    ensures
        chat.queue_message(message, tape).queued_user_messages == chat.queued_user_messages.push(
            message,
        ),
{
    reveal(ChatView::queue_message);
    reveal(ChatView::enqueue);
    reveal(ChatView::refresh_queue);
    reveal(ChatView::emit);
}

/// Nothing of what waits is said while a turn runs.
pub proof fn law_nothing_is_said_while_a_turn_runs(chat: ChatView, tape: Tape)
    requires
        chat.task_running,
    ensures
        chat.send_next(tape) == chat,
{
    reveal(ChatView::submit);
    reveal(ChatView::spawn_controls);
    reveal(ChatView::send_next);
}

/// Without a model nothing is said: the message stands first among those that wait.
pub proof fn law_a_text_waits_for_the_model(chat: ChatView, message: UserMessageView, tape: Tape)
    requires
        chat.model is None,
        chat.config_model is None,
    ensures
        chat.submit(message, tape).queued_user_messages == seq![message]
            + chat.queued_user_messages,
{
    reveal(ChatView::submit);
    reveal(ChatView::spawn_controls);
    reveal(ChatView::send_next);
    reveal(ChatView::enqueue_first);
    reveal(ChatView::refresh_queue);
    reveal(ChatView::emit);
}

/// A text that runs in the shell begins no task, and so does one that says nothing.
pub proof fn law_what_is_no_task(chat: ChatView, message: Seq<char>)
    requires
        text::is_blank(message) || text::trimmed(message)[0] == '!' || chat.weave_agents is None,
    ensures
        !chat.is_task_message(message),
{
    text::law_white_space_counts_as_nothing(message);
}

// ---------------------------------------------------------------------------
// The task at hand
// ---------------------------------------------------------------------------

proof fn lemma_clear_targets(a: ChatView, ids: Seq<Seq<char>>)
    ensures
        a.clear_targets(ids).active_weave_relay == a.active_weave_relay,
        a.clear_targets(ids).pending_weave_relay == a.pending_weave_relay,
        a.clear_targets(ids).pending_weave_plan == a.pending_weave_plan,
        a.active_weave_plan is None ==> a.clear_targets(ids).active_weave_plan is None,
{
    lemma_forget_all(a, ids);
    reveal(ChatView::clear_targets);
    reveal(ChatView::show_plan);
    reveal(ChatView::emit);
}

proof fn lemma_forget_all(a: ChatView, ids: Seq<Seq<char>>)
    ensures
        a.forget_all_actions(ids).0.active_weave_relay == a.active_weave_relay,
        a.forget_all_actions(ids).0.pending_weave_relay == a.pending_weave_relay,
        a.forget_all_actions(ids).0.pending_weave_plan == a.pending_weave_plan,
        a.active_weave_plan is None ==> a.forget_all_actions(ids).0.active_weave_plan is None,
    decreases ids.len(),
{
    if ids.len() > 0 {
        lemma_forget_all(a, ids.drop_last());
        let before = a.forget_all_actions(ids.drop_last()).0;
        reveal(ChatView::with_target);
        match before.target(ids.last()) {
            Some(state) => {
                lemma_ended(
                    before.with_target(
                        ids.last(),
                        TargetStateView {
                            pending_actions: seq![],
                            pending_new_action_id: None,
                            ..state
                        },
                    ),
                    targets::steps_of(state.pending_actions),
                );
            },
            None => {},
        }
    }
}

proof fn lemma_ended(a: ChatView, steps: Seq<Seq<char>>)
    ensures
        a.steps_ended(steps).0.active_weave_relay == a.active_weave_relay,
        a.steps_ended(steps).0.pending_weave_relay == a.pending_weave_relay,
        a.steps_ended(steps).0.pending_weave_plan == a.pending_weave_plan,
        a.active_weave_plan is None ==> a.steps_ended(steps).0.active_weave_plan is None,
    decreases steps.len(),
{
    if steps.len() > 0 {
        lemma_ended(a, steps.drop_last());
        reveal(ChatView::plan_completed);
    }
}

/// An agent of the task that speaks in its own conversation interrupts the task: there is
/// none from then on, nor a plan. Who has nothing to do with the task does not interrupt it.
pub proof fn law_a_member_interrupts_the_task(
    chat: ChatView,
    task: RelayTargetsView,
    conversation_id: Seq<char>,
    conversation_owner: Seq<char>,
    sender_id: Seq<char>,
)
    requires
        chat.active_weave_relay == Some(task),
    ensures
        ({
            let after = chat.interrupt_task(conversation_id, conversation_owner, sender_id);
            &&& conversation_owner == sender_id && task.target_ids.contains(sender_id)
                ==> after.active_weave_relay is None && after.active_weave_plan is None
                && after.pending_weave_relay is None && !after.pending_weave_plan
            &&& !task.target_ids.contains(sender_id) && conversation_owner != task.owner_id
                ==> after == chat
        }),
{
    lemma_allows(task, sender_id);
    reveal(ChatView::interrupt_task);
    reveal(ChatView::refresh_label);
    reveal(ChatView::emit);
    lemma_clear_targets(chat.without_task(), task.target_ids);
}

/// A text of the user that mentions nobody ends the task at hand, and goes to the model as
/// it is.
pub proof fn law_a_text_without_mentions_ends_the_task(
    chat: ChatView,
    agents: Seq<WeaveAgent<Seq<char>>>,
    message: Seq<char>,
    tape: Tape,
)
    requires
        chat.weave_agents == Some(agents),
        mentions::mentioned_agents(
            text::words(message),
            agents,
            Some(chat.weave_agent_id),
        ).len() == 0,
    ensures
        chat.begin_task(message, tape).0.active_weave_relay is None,
        chat.begin_task(message, tape).0.active_weave_plan is None,
        !chat.begin_task(message, tape).0.pending_weave_plan,
        chat.begin_task(message, tape).1 == message,
{
    reveal(ChatView::begin_task);
    reveal(ChatView::leave_task);
    reveal(ChatView::without_plan);
    reveal(ChatView::refresh_label);
    reveal(ChatView::emit);
    match chat.active_weave_relay {
        Some(task) => {
            lemma_clear_targets(ChatView { active_weave_relay: None, ..chat }, task.target_ids);
        },
        None => {},
    }
}

/// When the session is closed by others, the user hears which one it was, and no session is
/// selected; of another session nothing is heard.
pub proof fn law_a_lost_session_is_told(
    chat: ChatView,
    session_id: Seq<char>,
    name: Seq<char>,
    other: Seq<char>,
)
    requires
        chat.selected_weave_session_id == Some(session_id),
        chat.selected_weave_session_name == Some(name),
        other != session_id,
    ensures
        asks_for(
            chat.lose_session(session_id),
            EffectView::History(HistoryView::Error("Weave session closed: "@ + name)),
        ),
        chat.lose_session(session_id).selected_weave_session_id is None,
        chat.lose_session(session_id).weave_agents is None,
        !chat.lose_session(session_id).weave_connected,
        chat.lose_session(other) == chat,
        chat.leave_session(other) == chat,
        chat.leave_session(session_id).selected_weave_session_id is None,
{
    reveal(ChatView::lose_session);
    reveal(ChatView::select_session);
    reveal(ChatView::hang_up);
    reveal(ChatView::forget_agents);
    reveal(ChatView::with_session);
    reveal(ChatView::with_agents);
    reveal(ChatView::refresh_label);
    reveal(ChatView::emit);
    let after = chat.lose_session(session_id);
    assert(after.outbox[after.outbox.len() - 1] == EffectView::History(
        HistoryView::Error("Weave session closed: "@ + name),
    ));
}

/// Who a session is known to: the own name and the name of the session are shown as long as
/// one is selected.
pub proof fn law_the_session_is_shown(chat: ChatView, name: Seq<char>)
    ensures
        chat.selected_weave_session_name == Some(name) ==> chat.refresh_label().outbox.last()
            == EffectView::WeaveLabel(
            Some("name: "@ + chat.weave_agent_name + " • session: "@ + name),
        ),
        chat.selected_weave_session_name is None ==> chat.refresh_label().outbox.last()
            == EffectView::WeaveLabel(None),
{
    reveal(ChatView::refresh_label);
    reveal(ChatView::emit);
}

// ---------------------------------------------------------------------------
// Stopping and starting
// ---------------------------------------------------------------------------

proof fn lemma_told(chat: ChatView, line: Seq<char>, ctx: ContextView, status: Seq<char>)
    requires
        chat.weave_connected,
        ctx.action.group_id is Some,
        ctx.action.action_id is Some,
        ctx.action.action_index is Some,
    ensures
        ({
            let n = chat.outbox.len() as int;
            let told = chat.info(line).tool_done(ctx, status);
            &&& told.outbox.len() == n + 3
            &&& told.outbox[n] is History
            &&& (told.outbox[n + 1] matches EffectView::SendActionResult { dst, result } && dst
                == ctx.sender_id && result.status == status)
            &&& n > 0 ==> told.outbox[n - 1] == chat.outbox[n - 1]
            &&& told.suppress_weave_interrupt == chat.suppress_weave_interrupt
        }),
{
    reveal(ChatView::tool_done);
    reveal(ChatView::send_result);
    reveal(ChatView::emit);
}

proof fn lemma_dropped(chat: ChatView, ctx: ContextView)
    ensures
        chat.drop_replies(ctx).weave_connected == chat.weave_connected,
        chat.drop_replies(ctx).suppress_weave_interrupt == chat.suppress_weave_interrupt,
        chat.active_weave_reply_target is None && chat.queued_user_messages.len() == 0
            ==> chat.drop_replies(ctx).outbox == chat.outbox && !chat.speaks_to(ctx.sender_id),
{
    reveal(ChatView::drop_conversation);
    reveal(ChatView::drop_sender);
    reveal(ChatView::refresh_queue);
    reveal(ChatView::emit);
}

/// What runs for an agent stops when that agent wants it, and the agent is told so. When
/// nothing of this agent's runs, waits or is to be answered, nothing is stopped, and the
/// agent is told that, too.
pub proof fn law_an_agent_stops_its_own_work(chat: ChatView, ctx: ContextView, tape: Tape)
    requires
        ctx.sender_id != chat.weave_agent_id,
        chat.active_weave_relay is None,
        chat.weave_connected,
        ctx.action.group_id is Some,
        ctx.action.action_id is Some,
        ctx.action.action_index is Some,
    ensures
        ({
            let after = chat.apply_tool(WeaveTool::Interrupt, ctx, tape);
            let answer = after.outbox[after.outbox.len() - 2];
            let works = chat.active_weave_control_context is Some
                && chat.active_weave_control_context->0.sender_id == ctx.sender_id;
            let answers = chat.active_weave_reply_target is Some
                && chat.active_weave_reply_target->0.agent_id == ctx.sender_id;
            let idle = chat.active_weave_control_context is None
                && chat.active_weave_reply_target is None && chat.queued_user_messages.len() == 0;
            &&& works || answers && chat.task_running ==> after.suppress_weave_interrupt
                && asks_for(after, EffectView::Interrupt)
                && (answer matches EffectView::SendActionResult { dst, result } && dst
                == ctx.sender_id && result.status == "completed"@)
            &&& idle ==> after.outbox.len() == chat.outbox.len() + 3
                && after.suppress_weave_interrupt == chat.suppress_weave_interrupt
                && after.outbox[chat.outbox.len() as int] is History
                && (answer matches EffectView::SendActionResult { dst, result } && dst
                == ctx.sender_id && result.status == "rejected"@)
        }),
{
    reveal(ChatView::apply_tool);
    reveal(ChatView::tool_interrupt);
    reveal(ChatView::interrupt_task);
    lemma_dropped(chat, ctx);
    let after = chat.apply_tool(WeaveTool::Interrupt, ctx, tape);
    let quiet = chat.drop_replies(ctx);
    let line = tools::request_line("/interrupt"@, ctx.sender);
    if chat.tool_stops(ctx) {
        let stopped = quiet.stop_for_agent();
        assert(stopped.outbox.last() == EffectView::Interrupt && stopped.outbox.len() > 0
            && stopped.weave_connected && stopped.suppress_weave_interrupt) by {
            reveal(ChatView::stop_for_agent);
            reveal(ChatView::emit);
        }
        lemma_told(stopped, line, ctx, "completed"@);
        assert(after.outbox[after.outbox.len() - 4] == EffectView::Interrupt);
    } else {
        lemma_told(
            quiet,
            "Weave control: /interrupt from "@ + ctx.sender + " (no active task)."@,
            ctx,
            "rejected"@,
        );
    }
}

/// A new session that is asked for by the agent for which a turn runs waits for the end of
/// the turn: until then nothing is forgotten, and then it is started.
pub proof fn law_a_new_session_waits_for_the_turn(chat: ChatView, ctx: ContextView, tape: Tape)
    requires
        ctx.sender_id != chat.weave_agent_id,
        chat.task_running,
        chat.active_weave_control_context is Some,
        chat.active_weave_control_context->0.sender_id == ctx.sender_id,
        chat.pending_weave_new_session_context is None,
        chat.pending_weave_new_session_result is None,
    ensures
        ({
            let after = chat.apply_tool(WeaveTool::NewSession, ctx, tape);
            let started = after.start_pending_session();
            &&& after.pending_weave_new_session
            &&& after.weave_target_states == chat.weave_target_states
            &&& after.active_weave_relay == chat.active_weave_relay
            &&& after.queued_user_messages == chat.queued_user_messages
            &&& after.outbox.len() == chat.outbox.len() + 2
            &&& after.outbox[chat.outbox.len() as int] is History
            &&& after.outbox.last() == EffectView::Redraw
            &&& !started.pending_weave_new_session
            &&& asks_for(started, EffectView::NewSession)
            &&& started.start_pending_session() == started
        }),
{
    reveal(ChatView::apply_tool);
    reveal(ChatView::tool_new);
    reveal(ChatView::note_new_session);
    reveal(ChatView::forget_conversations);
    reveal(ChatView::empty_queue);
    reveal(ChatView::refresh_queue);
    reveal(ChatView::drew);
    reveal(ChatView::emit);
    let started = chat.apply_tool(WeaveTool::NewSession, ctx, tape).start_pending_session();
    assert(started.outbox[started.outbox.len() - 2] == EffectView::NewSession);
}

/// Only one new session is prepared at a time: while one is awaited, another is refused.
pub proof fn law_one_new_session_at_a_time(chat: ChatView, ctx: ContextView, tape: Tape)
    requires
        ctx.sender_id != chat.weave_agent_id,
        !chat.task_running,
        chat.pending_weave_new_session_context is Some || chat.pending_weave_new_session_result
            is Some,
    ensures
        ({
            let after = chat.apply_tool(WeaveTool::NewSession, ctx, tape);
            &&& after.pending_weave_new_session_context == chat.pending_weave_new_session_context
            &&& after.pending_weave_new_session_result == chat.pending_weave_new_session_result
            &&& after.weave_target_states == chat.weave_target_states
            &&& after.outbox[chat.outbox.len() as int] == EffectView::History(
                HistoryView::Error("Another /new is already pending."@),
            )
            &&& after.outbox.last() == EffectView::Redraw
            &&& after.outbox.len() <= chat.outbox.len() + 3
        }),
{
    reveal(ChatView::apply_tool);
    reveal(ChatView::tool_new);
    reveal(ChatView::refuse_tool);
    reveal(ChatView::send_result);
    reveal(ChatView::emit);
}

// ---------------------------------------------------------------------------
// What is said together
// ---------------------------------------------------------------------------

proof fn lemma_batch_end(chat: ChatView, first: WeaveUserView, i: int)
    requires
        0 <= i <= chat.queued_user_messages.len(),
    ensures
        i <= chat.batch_end(first, i) <= chat.queued_user_messages.len(),
        chat.batch_end(first, i) < chat.queued_user_messages.len() ==> !chat.batches(
            chat.queued_user_messages[chat.batch_end(first, i)],
            first,
        ),
        i < chat.queued_user_messages.len() && chat.batches(chat.queued_user_messages[i], first)
            ==> chat.batch_end(first, i) > i,
    decreases chat.queued_user_messages.len() - i,
{
    if i < chat.queued_user_messages.len() && chat.batches(chat.queued_user_messages[i], first) {
        lemma_batch_end(chat, first, i + 1);
    }
}

/// Replies of one task that wait behind each other are said together, all of them; a reply
/// that is alone is said alone.
pub proof fn law_replies_are_said_together(chat: ChatView, first: WeaveUserView)
    requires
        chat.queued_user_messages.len() >= 2,
        chat.queued_user_messages[0].source == SourceView::Weave(first),
    ensures
        1 <= chat.batch_len() <= chat.queued_user_messages.len(),
        chat.batches(chat.queued_user_messages[0], first) && chat.batches(
            chat.queued_user_messages[1],
            first,
        ) ==> chat.batch_len() >= 2 && (chat.batch_len() < chat.queued_user_messages.len()
            ==> !chat.batches(chat.queued_user_messages[chat.batch_len()], first)),
        !chat.batches(chat.queued_user_messages[1], first) ==> chat.batch_len() == 1
            && chat.next_message() == chat.queued_user_messages[0],
        chat.without_next().queued_user_messages.len() == chat.queued_user_messages.len()
            - chat.batch_len(),
{
    lemma_batch_end(chat, first, 0);
    lemma_batch_end(chat, first, 1);
}

/// While a task is at hand, what belongs to it is heard at once, and what comes from
/// elsewhere waits for its end. Without a task nothing waits for one.
pub proof fn law_other_conversations_wait_for_the_task(
    chat: ChatView,
    message: UserMessageView,
    weave: WeaveUserView,
    task: RelayTargetsView,
    state: TargetStateView,
)
    requires
        message.source == SourceView::Weave(weave),
    ensures
        chat.active_weave_relay is None ==> !chat.waits_for_task(message),
        chat.active_weave_relay == Some(task) && weave.conversation_owner == chat.weave_agent_id
            && task.target_ids.contains(weave.reply_target.agent_id) && chat.target(
            weave.reply_target.agent_id,
        ) == Some(state) && state.context_id == weave.conversation_id && (weave.task_id is None
            || weave.task_id == Some(state.task_id)) ==> !chat.waits_for_task(message),
        chat.active_weave_relay == Some(task) && task.target_ids.len() > 0
            && weave.conversation_owner != chat.weave_agent_id ==> chat.waits_for_task(message),
        chat.active_weave_relay == Some(task) && task.target_ids.len() > 0
            && !task.target_ids.contains(weave.reply_target.agent_id) ==> chat.waits_for_task(
            message,
        ),
{
    lemma_allows(task, weave.reply_target.agent_id);
}

/// What another agent asks in a task in which it still owes a reply waits behind all
/// others; nothing else happens to it.
pub proof fn law_who_owes_a_reply_waits(
    chat: ChatView,
    message: UserMessageView,
    weave: WeaveUserView,
    tape: Tape,
)
    requires
        message.source == SourceView::Weave(weave),
        weave.relay_targets is Some,
        weave.conversation_owner == chat.weave_agent_id,
        weave.kind == WeaveMessageKind::User,
        chat.owes_reply(weave.reply_target.agent_id),
    ensures
        chat.queue_message(message, tape).queued_user_messages == chat.queued_user_messages.push(
            message,
        ),
        chat.queue_message(message, tape).agent_turn_running == chat.agent_turn_running,
{
    reveal(ChatView::queue_message);
    reveal(ChatView::enqueue);
    reveal(ChatView::refresh_queue);
    reveal(ChatView::emit);
}

/// The last action that an agent asked for is remembered; what is open stays open.
pub proof fn law_the_last_action_is_remembered(
    chat: ChatView,
    id: Seq<char>,
    action_id: Seq<char>,
    state: TargetStateView,
    other: Seq<char>,
    tape: Tape,
)
    requires
        chat.target(id) == Some(state),
        other != id,
    ensures
        chat.note_last_action(id, action_id, tape).target(id) == Some(
            TargetStateView { last_action_id: Some(action_id), ..state },
        ),
        chat.note_last_action(id, action_id, tape).target(other) == chat.target(other),
{
    reveal(ChatView::note_last_action);
    reveal(ChatView::with_conversation);
    reveal(ChatView::with_target);
    table::law_with(
        chat.weave_target_states,
        id,
        TargetStateView { last_action_id: Some(action_id), ..state },
        other,
    );
}

proof fn lemma_fresh(chat: ChatView, ids: Seq<Seq<char>>, id: Seq<char>, tape: Tape)
    ensures
        ids.contains(id) ==> (chat.reset_conversations(ids, tape).target(id) matches Some(state)
            && state.pending_actions.len() == 0 && state.last_action_id is None),
        !ids.contains(id) ==> chat.reset_conversations(ids, tape).target(id) == chat.target(id),
        chat.reset_conversations(ids, tape).active_weave_relay == chat.active_weave_relay,
        chat.reset_conversations(ids, tape).pending_weave_relay == chat.pending_weave_relay,
    decreases ids.len(),
{
    if ids.len() > 0 {
        let front = ids.drop_last();
        lemma_fresh(chat, front, id, tape);
        let before = chat.reset_conversations(front, tape);
        reveal(ChatView::reset_conversation);
        reveal(ChatView::with_target);
        reveal(ChatView::drew);
        let state = targets::new_state(before.next_id(tape), before.drew(tape).next_id(tape));
        table::law_with(before.weave_target_states, ids.last(), state, id);
        assert(ids =~= front.push(ids.last()));
        assert(ids.contains(id) <==> front.contains(id) || ids.last() == id) by {
            if front.contains(id) {
                let k = choose|k: int| 0 <= k < front.len() && front[k] == id;
                assert(ids[k] == id);
            }
            if ids.contains(id) && ids.last() != id {
                let k = choose|k: int| 0 <= k < ids.len() && ids[k] == id;
                assert(front[k] == id);
            }
            if ids.last() == id {
                assert(ids[ids.len() - 1] == id);
            }
        }
    }
}

/// A task begins with a new conversation with each agent that takes part, in which nothing
/// is open; the conversations with all others go on.
pub proof fn law_a_task_begins_anew(
    chat: ChatView,
    task: RelayTargetsView,
    wants_plan: bool,
    id: Seq<char>,
    tape: Tape,
)
    ensures
        ({
            let after = chat.open_task(task, wants_plan, tape);
            &&& after.active_weave_relay == Some(task)
            &&& after.pending_weave_relay == Some(task)
            &&& task.target_ids.contains(id) ==> (after.target(id) matches Some(state)
                && state.pending_actions.len() == 0 && state.last_action_id is None)
            &&& !task.target_ids.contains(id) ==> after.target(id) == chat.target(id)
        }),
{
    reveal(ChatView::open_task);
    reveal(ChatView::refresh_label);
    reveal(ChatView::emit);
    let begun = ChatView {
        pending_weave_relay: Some(task),
        active_weave_relay: Some(task),
        active_weave_plan: None,
        pending_weave_plan: wants_plan,
        ..chat
    };
    lemma_fresh(begun, task.target_ids, id, tape);
}

} // verus!

//! What the end of a task, or of a part of it, leaves alone.

use vstd::prelude::*;

use crate::chat::answers;
use crate::chat::plan;
use crate::chat::replies;
use crate::chat::state::ChatView;
use crate::chat::steps;
use crate::chat::steps::DraftView;
use crate::chat::targets;
use crate::chat::types::{
    EffectView, HistoryView, PlanView, RelayBodyView, RelayPlanView, RelayReplyView, RelayStepView,
    RelayTargetsView, TargetStateView,
};
use crate::client::WeaveAgent;

verus! {

impl ChatView {
    /// Whether `other` differs at most in what is remembered of the task at hand,
    /// and in what is to be done outside.
    #[verifier::opaque]
    pub open spec fn same_but_task(self, other: ChatView) -> bool {
        other == ChatView {
            outbox: other.outbox,
            active_weave_relay: other.active_weave_relay,
            active_weave_plan: other.active_weave_plan,
            pending_weave_plan: other.pending_weave_plan,
            pending_weave_relay: other.pending_weave_relay,
            weave_relay_buffer: other.weave_relay_buffer,
            weave_target_states: other.weave_target_states,
            ..self
        }
    }
}

proof fn lemma_itself(a: ChatView)
    ensures
        a.same_but_task(a),
{
    reveal(ChatView::same_but_task);
}

/// Among what is left alone are the messages that wait and the identifiers that
/// were drawn.
pub proof fn lemma_same_but_task(a: ChatView, b: ChatView)
    requires
        a.same_but_task(b),
    ensures
        a.queued_user_messages == b.queued_user_messages,
        a.ids == b.ids,
        a.weave_connected == b.weave_connected,
{
    reveal(ChatView::same_but_task);
}

proof fn lemma_chain(a: ChatView, b: ChatView, c: ChatView)
    requires
        a.same_but_task(b),
        b.same_but_task(c),
    ensures
        a.same_but_task(c),
{
    reveal(ChatView::same_but_task);
}

proof fn lemma_with_relay(a: ChatView, relay: Option<RelayTargetsView>)
    ensures
        a.same_but_task(ChatView { active_weave_relay: relay, ..a }),
{
    reveal(ChatView::same_but_task);
}

proof fn lemma_with_plan(a: ChatView, plan: Option<PlanView>)
    ensures
        a.same_but_task(ChatView { active_weave_plan: plan, ..a }),
{
    reveal(ChatView::same_but_task);
}

proof fn lemma_without_pending_plan(a: ChatView)
    ensures
        a.same_but_task(ChatView { pending_weave_plan: false, ..a }),
{
    reveal(ChatView::same_but_task);
}

pub proof fn lemma_emit(a: ChatView, effect: EffectView)
    ensures
        a.same_but_task(a.emit(effect)),
{
    reveal(ChatView::same_but_task);
    reveal(ChatView::emit);
}

pub proof fn lemma_info(a: ChatView, message: Seq<char>)
    ensures
        a.same_but_task(a.info(message)),
{
    lemma_emit(a, EffectView::History(HistoryView::Info { message, hint: None }));
}

pub proof fn lemma_error(a: ChatView, message: Seq<char>)
    ensures
        a.same_but_task(a.error(message)),
{
    lemma_emit(a, EffectView::History(HistoryView::Error(message)));
}

pub proof fn lemma_with_target(a: ChatView, id: Seq<char>, state: TargetStateView)
    ensures
        a.same_but_task(a.with_target(id, state)),
{
    reveal(ChatView::same_but_task);
    reveal(ChatView::with_target);
}

pub proof fn lemma_refresh_label(a: ChatView)
    ensures
        a.same_but_task(a.refresh_label()),
{
    reveal(ChatView::refresh_label);
    lemma_emit(a, EffectView::WeaveLabel(a.session_label()));
}

pub proof fn lemma_refresh_queue(a: ChatView)
    ensures
        a.same_but_task(a.refresh_queue()),
{
    reveal(ChatView::refresh_queue);
    lemma_emit(
        a,
        EffectView::QueuedMessages(crate::chat::relay::texts_of(a.queued_user_messages)),
    );
}

pub proof fn lemma_end_prompt(a: ChatView)
    ensures
        a.same_but_task(a.end_prompt()),
{
    reveal(ChatView::same_but_task);
    reveal(ChatView::end_prompt);
}

pub proof fn lemma_show_plan(a: ChatView)
    ensures
        a.same_but_task(a.show_plan()),
{
    reveal(ChatView::show_plan);
    lemma_itself(a);
    match a.active_weave_plan {
        Some(plan) => lemma_emit(a, EffectView::History(plan::plan_entry(plan))),
        None => {},
    }
}

proof fn lemma_finish_plan(a: ChatView)
    ensures
        a.same_but_task(a.finish_plan()),
{
    reveal(ChatView::finish_plan);
    lemma_itself(a);
    match a.active_weave_plan {
        Some(plan) => {
            let b = ChatView { active_weave_plan: None, ..a };
            let done = PlanView { steps: plan::all_done(plan.steps), ..plan };
            let effect = EffectView::History(plan::plan_entry(done));
            lemma_with_plan(a, None);
            lemma_emit(b, effect);
            lemma_chain(a, b, b.emit(effect));
        },
        None => {},
    }
}

proof fn lemma_plan_completed(a: ChatView, id: Seq<char>)
    ensures
        a.same_but_task(a.plan_completed(id).0),
{
    reveal(ChatView::plan_completed);
    lemma_with_plan(a, plan::plan_with_end(a.active_weave_plan, id).0);
}

proof fn lemma_steps_ended(a: ChatView, steps: Seq<Seq<char>>)
    ensures
        a.same_but_task(a.steps_ended(steps).0),
    decreases steps.len(),
{
    if steps.len() > 0 {
        let before = a.steps_ended(steps.drop_last()).0;
        lemma_steps_ended(a, steps.drop_last());
        lemma_plan_completed(before, steps.last());
        lemma_chain(a, before, before.plan_completed(steps.last()).0);
    } else {
        lemma_itself(a);
    }
}

proof fn lemma_end_steps(a: ChatView, steps: Seq<Seq<char>>)
    ensures
        a.same_but_task(a.end_steps(steps)),
{
    reveal(ChatView::end_steps);
    let ended = a.steps_ended(steps).0;
    lemma_steps_ended(a, steps);
    lemma_show_plan(ended);
    lemma_chain(a, ended, ended.show_plan());
}

proof fn lemma_forget_actions(a: ChatView, id: Seq<char>)
    ensures
        a.same_but_task(a.forget_actions(id).0),
{
    match a.target(id) {
        Some(state) => {
            let quiet = TargetStateView {
                pending_actions: seq![],
                pending_new_action_id: None,
                ..state
            };
            let b = a.with_target(id, quiet);
            let steps = targets::steps_of(state.pending_actions);
            lemma_with_target(a, id, quiet);
            lemma_steps_ended(b, steps);
            lemma_chain(a, b, b.steps_ended(steps).0);
        },
        None => lemma_itself(a),
    }
}

proof fn lemma_forget_all_actions(a: ChatView, ids: Seq<Seq<char>>)
    ensures
        a.same_but_task(a.forget_all_actions(ids).0),
    decreases ids.len(),
{
    if ids.len() > 0 {
        let before = a.forget_all_actions(ids.drop_last()).0;
        lemma_forget_all_actions(a, ids.drop_last());
        lemma_forget_actions(before, ids.last());
        lemma_chain(a, before, before.forget_actions(ids.last()).0);
    } else {
        lemma_itself(a);
    }
}

/// That agents have nothing more to finish concerns the task at hand only.
pub proof fn law_clearing_targets_keeps_the_rest(a: ChatView, ids: Seq<Seq<char>>)
    ensures
        a.same_but_task(a.clear_targets(ids)),
{
    reveal(ChatView::clear_targets);
    let cleared = a.forget_all_actions(ids).0;
    lemma_forget_all_actions(a, ids);
    lemma_show_plan(cleared);
    lemma_chain(a, cleared, cleared.show_plan());
}

/// That no reply is due from an agent concerns the task at hand only.
pub proof fn law_clearing_expectations_keeps_the_rest(a: ChatView, id: Seq<char>)
    ensures
        a.same_but_task(a.clear_expectations(id).0),
{
    reveal(ChatView::clear_expectations);
    match a.target(id) {
        Some(state) => {
            let kept = targets::replying(state.pending_actions, false);
            let quiet = TargetStateView {
                pending_actions: kept,
                pending_new_action_id: targets::still_pending(state.pending_new_action_id, kept),
                ..state
            };
            let b = a.with_target(id, quiet);
            let steps = targets::steps_of(targets::replying(state.pending_actions, true));
            lemma_with_target(a, id, quiet);
            lemma_end_steps(b, steps);
            lemma_chain(a, b, b.end_steps(steps));
        },
        None => lemma_itself(a),
    }
}

proof fn lemma_without_relay(a: ChatView, ids: Seq<Seq<char>>)
    ensures
        a.same_but_task(
            (ChatView { active_weave_relay: None, ..a.finish_plan() }).refresh_label().clear_targets(
                ids,
            ),
        ),
{
    let b = a.finish_plan();
    let c = ChatView { active_weave_relay: None, ..b };
    let d = c.refresh_label();
    lemma_finish_plan(a);
    lemma_with_relay(b, None);
    lemma_chain(a, b, c);
    lemma_refresh_label(c);
    lemma_chain(a, c, d);
    law_clearing_targets_keeps_the_rest(d, ids);
    lemma_chain(a, d, d.clear_targets(ids));
}

proof fn lemma_summary(a: ChatView, summary: Seq<char>)
    ensures
        a.same_but_task(a.agent_message(summary)),
{
    lemma_itself(a);
    lemma_emit(
        a,
        EffectView::History(
            HistoryView::AgentMessage { text: crate::text::trimmed(summary), first: true },
        ),
    );
}

/// That an agent has finished an action concerns the task at hand only.
pub proof fn law_clearing_an_action_keeps_the_rest(
    a: ChatView,
    id: Seq<char>,
    action_id: Seq<char>,
)
    ensures
        a.same_but_task(a.clear_action(id, action_id).0),
{
    reveal(ChatView::clear_action);
    lemma_itself(a);
    match a.target(id) {
        Some(state) => match crate::table::value_at(state.pending_actions, action_id) {
            Some(pending) => {
                let left = TargetStateView {
                    pending_actions: crate::table::without(state.pending_actions, action_id),
                    pending_new_action_id: if state.pending_new_action_id == Some(action_id) {
                        None
                    } else {
                        state.pending_new_action_id
                    },
                    ..state
                };
                let b = a.with_target(id, left);
                lemma_with_target(a, id, left);
                match pending.step_id {
                    Some(step) => {
                        lemma_end_steps(b, seq![step]);
                        lemma_chain(a, b, b.end_steps(seq![step]));
                    },
                    None => {},
                }
            },
            None => {},
        },
        None => {},
    }
}

/// That an agent has finished a task concerns the task at hand only.
pub proof fn law_clearing_a_task_keeps_the_rest(a: ChatView, id: Seq<char>, task_id: Seq<char>)
    ensures
        a.same_but_task(a.clear_task(id, task_id).0),
{
    reveal(ChatView::clear_task);
    lemma_itself(a);
    let after = a.forget_actions(id).0;
    lemma_forget_actions(a, id);
    lemma_show_plan(after);
    lemma_chain(a, after, after.show_plan());
}

/// That only the actions of one group are left concerns the task at hand only.
pub proof fn law_clearing_other_groups_keeps_the_rest(
    a: ChatView,
    id: Seq<char>,
    group_id: Seq<char>,
)
    ensures
        a.same_but_task(a.clear_other_groups(id, group_id)),
{
    reveal(ChatView::clear_other_groups);
    match a.target(id) {
        Some(state) => {
            let kept = targets::of_group(state.pending_actions, group_id, true);
            let left = TargetStateView {
                pending_actions: kept,
                pending_new_action_id: targets::still_pending(state.pending_new_action_id, kept),
                ..state
            };
            let b = a.with_target(id, left);
            let steps = targets::steps_of(targets::of_group(state.pending_actions, group_id, false));
            lemma_with_target(a, id, left);
            lemma_end_steps(b, steps);
            lemma_chain(a, b, b.end_steps(steps));
        },
        None => lemma_itself(a),
    }
}

/// That a task has ended concerns that task only.
pub proof fn law_finishing_a_task_keeps_the_rest(
    a: ChatView,
    targets: RelayTargetsView,
    summary: Option<Seq<char>>,
)
    ensures
        a.same_but_task(a.finish_task(targets, summary)),
{
    reveal(ChatView::finish_task);
    lemma_without_relay(a, targets.target_ids);
    lemma_itself(a);
    let ended = if a.is_active(targets) {
        (ChatView { active_weave_relay: None, ..a.finish_plan() }).refresh_label().clear_targets(
            targets.target_ids,
        )
    } else {
        a
    };
    let plain = ChatView { pending_weave_plan: false, ..ended };
    lemma_without_pending_plan(ended);
    lemma_chain(a, ended, plain);
    match summary {
        Some(summary) => {
            lemma_summary(plain, summary);
            lemma_chain(a, plain, plain.agent_message(summary));
        },
        None => {},
    }
}

/// That an idle task ends concerns that task only.
pub proof fn law_idle_task_keeps_the_rest(a: ChatView)
    ensures
        a.same_but_task(a.finish_if_idle()),
{
    reveal(ChatView::finish_if_idle);
    lemma_itself(a);
    match a.active_weave_relay {
        Some(relay) => law_finishing_a_task_keeps_the_rest(a, relay, None),
        None => {},
    }
}

proof fn lemma_quiet_all(a: ChatView, ids: Seq<Seq<char>>)
    ensures
        a.same_but_task(a.quiet_all(ids)),
    decreases ids.len(),
{
    lemma_itself(a);
    if ids.len() > 0 {
        let before = a.quiet_all(ids.drop_last());
        lemma_quiet_all(a, ids.drop_last());
        reveal(ChatView::quiet);
        match before.target(ids.last()) {
            Some(state) => {
                let quiet = TargetStateView {
                    pending_actions: seq![],
                    pending_new_action_id: None,
                    ..state
                };
                lemma_with_target(before, ids.last(), quiet);
                lemma_chain(a, before, before.with_target(ids.last(), quiet));
            },
            None => {},
        }
    }
}

/// That agents leave the task at hand concerns that task only.
pub proof fn law_leaving_a_task_keeps_the_rest(a: ChatView, ids: Seq<Seq<char>>)
    ensures
        a.same_but_task(a.drop_targets(ids).0),
{
    reveal(ChatView::drop_targets);
    lemma_itself(a);
    match a.active_weave_relay {
        Some(relay) => {
            let (left, gone) = replies::removed_from(relay.target_ids, ids);
            let smaller = RelayTargetsView { target_ids: left, ..relay };
            let b = ChatView { active_weave_relay: Some(smaller), ..a };
            let c = b.quiet_all(gone);
            let d = c.refresh_label();
            let e = d.end_prompt();
            let f = e.finish_task(smaller, None);
            lemma_with_relay(a, Some(smaller));
            lemma_quiet_all(b, gone);
            lemma_chain(a, b, c);
            lemma_refresh_label(c);
            lemma_chain(a, c, d);
            lemma_end_prompt(d);
            lemma_chain(a, d, e);
            law_finishing_a_task_keeps_the_rest(e, smaller, None);
            lemma_chain(a, e, f);
        },
        None => {},
    }
}

proof fn lemma_apply_plan(a: ChatView, plan: RelayPlanView)
    ensures
        a.same_but_task(a.apply_plan(plan)),
{
    reveal(ChatView::apply_plan);
    reveal(ChatView::start_plan);
    lemma_itself(a);
    let steps = plan::filled_steps(plan.steps);
    let new = PlanView {
        steps: plan::new_steps(steps),
        note: crate::text::present(plan.note),
    };
    let b = ChatView { active_weave_plan: Some(new), ..a };
    let c = b.show_plan();
    lemma_with_plan(a, Some(new));
    lemma_show_plan(b);
    lemma_chain(a, b, c);
    lemma_without_pending_plan(c);
    lemma_chain(a, c, ChatView { pending_weave_plan: false, ..c });
}

proof fn lemma_draft_step(
    a: ChatView,
    draft: DraftView,
    step: RelayStepView,
    agents: Seq<WeaveAgent<Seq<char>>>,
    targets: RelayTargetsView,
)
    ensures
        a.same_but_task(a.draft_step(draft, step, agents, targets).0),
{
    reveal(ChatView::draft_step);
    lemma_itself(a);
    let b = a.step_plan(step.body);
    match step.body {
        RelayBodyView::Message { text: _, plan: Some(plan), reply_policy: _ } => lemma_apply_plan(
            a,
            plan,
        ),
        _ => {},
    }
    assert(a.same_but_task(b));
    lemma_itself(b);
    lemma_error(b, "Weave relay target is empty."@);
    lemma_chain(a, b, b.error("Weave relay target is empty."@));
    lemma_error(b, "Weave relay did not match any targets."@);
    lemma_chain(a, b, b.error("Weave relay did not match any targets."@));
    lemma_error(b, "Weave relay message is empty."@);
    lemma_chain(a, b, b.error("Weave relay message is empty."@));
}

proof fn lemma_draft_steps(
    a: ChatView,
    steps: Seq<RelayStepView>,
    agents: Seq<WeaveAgent<Seq<char>>>,
    targets: RelayTargetsView,
)
    ensures
        a.same_but_task(a.draft_steps(steps, agents, targets).0),
    decreases steps.len(),
{
    if steps.len() > 0 {
        let (before, draft) = a.draft_steps(steps.drop_last(), agents, targets);
        lemma_draft_steps(a, steps.drop_last(), agents, targets);
        lemma_draft_step(before, draft, steps.last(), agents, targets);
        lemma_chain(a, before, before.draft_step(draft, steps.last(), agents, targets).0);
    } else {
        lemma_itself(a);
    }
}

/// Whatever the steps are, it is the same agent that sends them, on the same connection.
pub proof fn lemma_steps_keep_who_sends(
    a: ChatView,
    steps: Seq<RelayStepView>,
    agents: Seq<WeaveAgent<Seq<char>>>,
    targets: RelayTargetsView,
)
    ensures
        ({
            let planned = match steps::first_plan(steps) {
                Some(plan) => a.apply_plan(plan),
                None => a,
            };
            let done = planned.draft_steps(steps, agents, targets).0;
            &&& done.weave_connected == a.weave_connected
            &&& done.weave_agent_name == a.weave_agent_name
            &&& done.weave_agent_id == a.weave_agent_id
        }),
{
    let b = match steps::first_plan(steps) {
        Some(plan) => {
            lemma_apply_plan(a, plan);
            a.apply_plan(plan)
        },
        None => {
            lemma_itself(a);
            a
        },
    };
    lemma_draft_steps(b, steps, agents, targets);
    reveal(ChatView::same_but_task);
}

proof fn lemma_apply_steps(a: ChatView, targets: RelayTargetsView, steps: Seq<RelayStepView>)
    ensures
        a.same_but_task(a.apply_steps(targets, steps)),
{
    reveal(ChatView::apply_steps);
    match a.scope_error(steps, targets) {
        Some(error) => lemma_error(a, error),
        None => {
            let b = match steps::first_plan(steps) {
                Some(plan) => {
                    lemma_apply_plan(a, plan);
                    a.apply_plan(plan)
                },
                None => {
                    lemma_itself(a);
                    a
                },
            };
            let (c, draft) = b.draft_steps(steps, a.weave_agents->0, targets);
            lemma_draft_steps(b, steps, a.weave_agents->0, targets);
            lemma_chain(a, b, c);
            let d = c.emit(EffectView::ScrollToBottom);
            let effect = EffectView::SubmitRelay {
                relay_id: targets.relay_id,
                payload: steps::relay_payload(targets.relay_id, draft.actions),
                logs: draft.logs,
                sender_name: c.weave_agent_name,
                sender_is_owner: targets.owner_id == c.weave_agent_id,
            };
            lemma_emit(c, EffectView::ScrollToBottom);
            lemma_chain(a, c, d);
            lemma_emit(d, effect);
            lemma_chain(a, d, d.emit(effect));
            lemma_error(c, "Weave session isn't connected."@);
            lemma_chain(a, c, c.error("Weave session isn't connected."@));
        },
    }
}

proof fn lemma_drop_task(a: ChatView, targets: RelayTargetsView)
    ensures
        a.same_but_task(a.drop_task(targets)),
{
    reveal(ChatView::drop_task);
    lemma_itself(a);
    let b = ChatView {
        active_weave_relay: None,
        active_weave_plan: None,
        pending_weave_plan: false,
        ..a
    };
    assert(a.same_but_task(b)) by {
        reveal(ChatView::same_but_task);
    }
    let c = b.refresh_label();
    lemma_refresh_label(b);
    lemma_chain(a, b, c);
    law_clearing_targets_keeps_the_rest(c, targets.target_ids);
    lemma_chain(a, c, c.clear_targets(targets.target_ids));
}

proof fn lemma_send_done(a: ChatView, relay_id: Seq<char>, summary: Option<Seq<char>>)
    ensures
        a.same_but_task(a.send_done(relay_id, summary)),
{
    reveal(ChatView::send_done);
    lemma_emit(
        a,
        EffectView::FinishRelay { relay_id, payload: answers::done_payload(relay_id, summary) },
    );
    lemma_error(a, "Weave session isn't connected."@);
}

proof fn lemma_take_up(a: ChatView, targets: RelayTargetsView, reply: RelayReplyView)
    ensures
        a.same_but_task(a.take_up(targets, reply).0),
{
    reveal(ChatView::take_up);
    let b = a.end_prompt();
    lemma_end_prompt(a);
    match reply {
        RelayReplyView::TaskDone { summary } => {
            let summary = crate::text::present(summary);
            let c = b.send_done(targets.relay_id, summary);
            lemma_send_done(b, targets.relay_id, summary);
            lemma_chain(a, b, c);
            law_finishing_a_task_keeps_the_rest(c, targets, summary);
            lemma_chain(a, c, c.finish_task(targets, summary));
        },
        RelayReplyView::Actions { actions } => {
            let line =
                "Weave relay returned no actions; respond with relay_actions or task_done."@;
            let c = b.error(line);
            lemma_error(b, line);
            lemma_chain(a, b, c);
            lemma_drop_task(c, targets);
            lemma_chain(a, c, c.drop_task(targets));
            lemma_apply_steps(b, targets, actions);
            lemma_chain(a, b, b.apply_steps(targets, actions));
        },
    }
}

proof fn lemma_leave_task(a: ChatView)
    ensures
        a.same_but_task(a.leave_task()),
{
    reveal(ChatView::leave_task);
    lemma_itself(a);
    match a.active_weave_relay {
        Some(relay) => {
            let b = ChatView { active_weave_relay: None, ..a };
            lemma_with_relay(a, None);
            law_clearing_targets_keeps_the_rest(b, relay.target_ids);
            lemma_chain(a, b, b.clear_targets(relay.target_ids));
        },
        None => {},
    }
}

proof fn lemma_end_relay(a: ChatView, targets: RelayTargetsView)
    ensures
        a.same_but_task(a.end_relay(targets)),
{
    reveal(ChatView::end_relay);
    let b = a.end_prompt();
    lemma_end_prompt(a);
    let c = b.without_plan();
    assert(b.same_but_task(c)) by {
        reveal(ChatView::same_but_task);
        reveal(ChatView::without_plan);
    }
    lemma_chain(a, b, c);
    let d = c.leave_task();
    lemma_leave_task(c);
    lemma_chain(a, c, d);
    let e = d.clear_targets(targets.target_ids);
    law_clearing_targets_keeps_the_rest(d, targets.target_ids);
    lemma_chain(a, d, e);
    lemma_refresh_label(e);
    lemma_chain(a, e, e.refresh_label());
}

/// That an answer of the model is for other agents concerns the task at hand
/// only.
pub proof fn law_an_answer_keeps_the_rest(
    a: ChatView,
    output: Seq<char>,
    reply: Option<RelayReplyView>,
)
    ensures
        a.same_but_task(a.relay_answer(output, reply).0),
{
    reveal(ChatView::relay_answer);
    lemma_itself(a);
    match (reply, a.pending_weave_relay, a.active_weave_relay) {
        (None, Some(targets), _) => lemma_end_relay(a, targets),
        (Some(reply), Some(targets), _) => lemma_take_up(a, targets, reply),
        (Some(reply), None, Some(targets)) => {
            lemma_take_up(a, targets, reply);
            match reply {
                RelayReplyView::Actions { actions } => match a.scope_error(actions, targets) {
                    Some(error) => lemma_error(a, error),
                    None => {},
                },
                RelayReplyView::TaskDone { summary: _ } => {},
            }
        },
        _ => {},
    }
}

} // verus!

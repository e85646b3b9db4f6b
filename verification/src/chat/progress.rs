//! What the chat has asked for stays asked for, and an action that is over stays over,
//! whatever is said next.

use vstd::prelude::*;

use crate::chat::frames;
use crate::chat::plan;
use crate::chat::results::ResultView;
use crate::chat::state::{ChatView, Tape};
use crate::chat::targets;
use crate::chat::targets::PendingTable;
use crate::chat::types::{
    EffectView, HistoryView, PlanItem, RelayTargetsView, SourceView, StepStatus, TargetStateView,
    UserMessageView,
};
use crate::client::{WeaveAgent, WeaveTool};
use crate::mentions::ControlActionView;
use crate::table;
use crate::text;

verus! {

impl ChatView {
    /// Whether an agent has yet to finish an action.
    pub open spec fn is_open(self, id: Seq<char>, action_id: Seq<char>) -> bool {
        table::value_at(self.weave_target_states, id) matches Some(state) && table::value_at(
            state.pending_actions,
            action_id,
        ) is Some
    }

    /// Whether `later` asks for all that is asked for, in the same order, and no agent has
    /// an action to finish there that it does not have here.
    #[verifier::opaque]
    pub open spec fn leads_to(self, later: ChatView) -> bool {
        &&& self.outbox.is_prefix_of(later.outbox)
        &&& forall|id: Seq<char>, action_id: Seq<char>| #[trigger]
            later.is_open(id, action_id) ==> self.is_open(id, action_id)
    }
}

proof fn lemma_chain(a: ChatView, b: ChatView, c: ChatView)
    requires
        a.leads_to(b),
        b.leads_to(c),
    ensures
        a.leads_to(c),
{
    reveal(ChatView::leads_to);
    assert(c.outbox.take(a.outbox.len() as int) =~= b.outbox.take(a.outbox.len() as int)) by {
        assert forall|i: int| 0 <= i < a.outbox.len() implies c.outbox[i] == b.outbox[i] by {
            assert(c.outbox.subrange(0, b.outbox.len() as int)[i] == c.outbox[i]);
        }
    }
    assert(c.outbox.subrange(0, a.outbox.len() as int) =~= c.outbox.take(a.outbox.len() as int));
    assert(b.outbox.subrange(0, a.outbox.len() as int) =~= b.outbox.take(a.outbox.len() as int));
}

/// What concerns neither the outbox nor the actions.
proof fn lemma_same(a: ChatView, b: ChatView)
    requires
        a.outbox == b.outbox,
        a.weave_target_states == b.weave_target_states,
    ensures
        a.leads_to(b),
{
    reveal(ChatView::leads_to);
    assert(b.outbox.subrange(0, a.outbox.len() as int) =~= a.outbox);
    assert forall|id: Seq<char>, action_id: Seq<char>| #[trigger]
        b.is_open(id, action_id) implies a.is_open(id, action_id) by {}
}

proof fn lemma_emit(a: ChatView, effect: EffectView)
    ensures
        a.leads_to(a.emit(effect)),
{
    reveal(ChatView::leads_to);
    reveal(ChatView::emit);
    let b = a.emit(effect);
    assert(b.outbox.subrange(0, a.outbox.len() as int) =~= a.outbox);
    assert forall|id: Seq<char>, action_id: Seq<char>| #[trigger]
        b.is_open(id, action_id) implies a.is_open(id, action_id) by {}
}

/// Whether every action of `less` is one of `more`.
pub open spec fn no_more(less: PendingTable, more: PendingTable) -> bool {
    forall|action_id: Seq<char>| #[trigger]
        table::value_at(less, action_id) is Some ==> table::value_at(more, action_id) is Some
}

proof fn lemma_with_target(a: ChatView, id: Seq<char>, state: TargetStateView)
    requires
        a.target(id) matches Some(before) && no_more(
            state.pending_actions,
            before.pending_actions,
        ) || state.pending_actions.len() == 0,
    ensures
        a.leads_to(a.with_target(id, state)),
{
    reveal(ChatView::leads_to);
    reveal(ChatView::with_target);
    let b = a.with_target(id, state);
    assert(b.outbox.subrange(0, a.outbox.len() as int) =~= a.outbox);
    assert forall|other: Seq<char>, action_id: Seq<char>| #[trigger]
        b.is_open(other, action_id) implies a.is_open(other, action_id) by {
        table::law_with(a.weave_target_states, id, state, other);
        if other == id && state.pending_actions.len() == 0 {
            assert(table::value_at(state.pending_actions, action_id) is None);
        }
    }
}

proof fn lemma_entry(pending: PendingTable, action_id: Seq<char>)
    ensures
        table::value_at(pending, action_id) is Some <==> exists|i: int|
            0 <= i < pending.len() && (#[trigger] pending[i]).0 == action_id,
{
    table::lemma_place(pending, action_id);
    if table::value_at(pending, action_id) is Some {
        assert(pending[table::place_of(pending, action_id)].0 == action_id);
    }
}

proof fn lemma_replying(pending: PendingTable, reply: bool)
    ensures
        no_more(targets::replying(pending, reply), pending),
    decreases pending.len(),
{
    let kept = targets::replying(pending, reply);
    lemma_replying_entries(pending, reply);
    assert forall|action_id: Seq<char>| #[trigger]
        table::value_at(kept, action_id) is Some implies table::value_at(
        pending,
        action_id,
    ) is Some by {
        lemma_entry(kept, action_id);
        lemma_entry(pending, action_id);
        let i = choose|i: int| 0 <= i < kept.len() && (#[trigger] kept[i]).0 == action_id;
        assert(pending.contains(kept[i]));
        let k = choose|k: int| 0 <= k < pending.len() && pending[k] == kept[i];
        assert(pending[k].0 == action_id);
    }
}

proof fn lemma_replying_entries(pending: PendingTable, reply: bool)
    ensures
        forall|i: int|
            0 <= i < targets::replying(pending, reply).len() ==> pending.contains(
                #[trigger] targets::replying(pending, reply)[i],
            ),
    decreases pending.len(),
{
    if pending.len() > 0 {
        let front = pending.drop_last();
        lemma_replying_entries(front, reply);
        let kept = targets::replying(pending, reply);
        let before = targets::replying(front, reply);
        assert forall|i: int| 0 <= i < kept.len() implies pending.contains(
            #[trigger] kept[i],
        ) by {
            if i < before.len() {
                assert(kept[i] == before[i]);
                let k = choose|k: int| 0 <= k < front.len() && front[k] == before[i];
                assert(pending[k] == kept[i]);
            } else {
                assert(pending[pending.len() - 1] == kept[i]);
            }
        }
    }
}

proof fn lemma_group_entries(pending: PendingTable, group_id: Seq<char>, same: bool)
    ensures
        forall|i: int|
            0 <= i < targets::of_group(pending, group_id, same).len() ==> pending.contains(
                #[trigger] targets::of_group(pending, group_id, same)[i],
            ),
    decreases pending.len(),
{
    if pending.len() > 0 {
        let front = pending.drop_last();
        lemma_group_entries(front, group_id, same);
        let kept = targets::of_group(pending, group_id, same);
        let before = targets::of_group(front, group_id, same);
        assert forall|i: int| 0 <= i < kept.len() implies pending.contains(
            #[trigger] kept[i],
        ) by {
            if i < before.len() {
                assert(kept[i] == before[i]);
                let k = choose|k: int| 0 <= k < front.len() && front[k] == before[i];
                assert(pending[k] == kept[i]);
            } else {
                assert(pending[pending.len() - 1] == kept[i]);
            }
        }
    }
}

proof fn lemma_of_group(pending: PendingTable, group_id: Seq<char>, same: bool)
    ensures
        no_more(targets::of_group(pending, group_id, same), pending),
{
    let kept = targets::of_group(pending, group_id, same);
    lemma_group_entries(pending, group_id, same);
    assert forall|action_id: Seq<char>| #[trigger]
        table::value_at(kept, action_id) is Some implies table::value_at(
        pending,
        action_id,
    ) is Some by {
        lemma_entry(kept, action_id);
        lemma_entry(pending, action_id);
        let i = choose|i: int| 0 <= i < kept.len() && (#[trigger] kept[i]).0 == action_id;
        assert(pending.contains(kept[i]));
        let k = choose|k: int| 0 <= k < pending.len() && pending[k] == kept[i];
        assert(pending[k].0 == action_id);
    }
}

// ---------------------------------------------------------------------------
// Plans and tasks
// ---------------------------------------------------------------------------

proof fn lemma_show_plan(a: ChatView)
    ensures
        a.leads_to(a.show_plan()),
{
    reveal(ChatView::show_plan);
    match a.active_weave_plan {
        Some(plan) => lemma_emit(a, EffectView::History(plan::plan_entry(plan))),
        None => lemma_same(a, a),
    }
}

proof fn lemma_steps_ended(a: ChatView, steps: Seq<Seq<char>>)
    ensures
        a.leads_to(a.steps_ended(steps).0),
    decreases steps.len(),
{
    if steps.len() > 0 {
        let before = a.steps_ended(steps.drop_last()).0;
        lemma_steps_ended(a, steps.drop_last());
        reveal(ChatView::plan_completed);
        lemma_same(before, before.plan_completed(steps.last()).0);
        lemma_chain(a, before, before.plan_completed(steps.last()).0);
    } else {
        lemma_same(a, a);
    }
}

proof fn lemma_end_steps(a: ChatView, steps: Seq<Seq<char>>)
    ensures
        a.leads_to(a.end_steps(steps)),
{
    reveal(ChatView::end_steps);
    let b = a.steps_ended(steps).0;
    lemma_steps_ended(a, steps);
    lemma_show_plan(b);
    lemma_chain(a, b, b.show_plan());
}

proof fn lemma_forget_actions(a: ChatView, id: Seq<char>)
    ensures
        a.leads_to(a.forget_actions(id).0),
{
    match a.target(id) {
        Some(state) => {
            let quiet = TargetStateView {
                pending_actions: seq![],
                pending_new_action_id: None,
                ..state
            };
            let b = a.with_target(id, quiet);
            let steps = targets::steps_of(state.pending_actions);
            lemma_with_target(a, id, quiet);
            lemma_steps_ended(b, steps);
            lemma_chain(a, b, b.steps_ended(steps).0);
        },
        None => lemma_same(a, a),
    }
}

proof fn lemma_forget_all_actions(a: ChatView, ids: Seq<Seq<char>>)
    ensures
        a.leads_to(a.forget_all_actions(ids).0),
    decreases ids.len(),
{
    if ids.len() > 0 {
        let before = a.forget_all_actions(ids.drop_last()).0;
        lemma_forget_all_actions(a, ids.drop_last());
        lemma_forget_actions(before, ids.last());
        lemma_chain(a, before, before.forget_actions(ids.last()).0);
    } else {
        lemma_same(a, a);
    }
}

proof fn lemma_clear_targets(a: ChatView, ids: Seq<Seq<char>>)
    ensures
        a.leads_to(a.clear_targets(ids)),
{
    reveal(ChatView::clear_targets);
    let b = a.forget_all_actions(ids).0;
    lemma_forget_all_actions(a, ids);
    lemma_show_plan(b);
    lemma_chain(a, b, b.show_plan());
}

proof fn lemma_refresh_label(a: ChatView)
    ensures
        a.leads_to(a.refresh_label()),
{
    reveal(ChatView::refresh_label);
    lemma_emit(a, EffectView::WeaveLabel(a.session_label()));
}

proof fn lemma_refresh_queue(a: ChatView)
    ensures
        a.leads_to(a.refresh_queue()),
{
    reveal(ChatView::refresh_queue);
    lemma_emit(
        a,
        EffectView::QueuedMessages(crate::chat::relay::texts_of(a.queued_user_messages)),
    );
}

proof fn lemma_finish_plan(a: ChatView)
    ensures
        a.leads_to(a.finish_plan()),
{
    reveal(ChatView::finish_plan);
    lemma_same(a, a);
    match a.active_weave_plan {
        Some(plan) => {
            let b = ChatView { active_weave_plan: None, ..a };
            let effect = EffectView::History(
                plan::plan_entry(
                    crate::chat::types::PlanView { steps: plan::all_done(plan.steps), ..plan },
                ),
            );
            lemma_same(a, b);
            lemma_emit(b, effect);
            lemma_chain(a, b, b.emit(effect));
        },
        None => {},
    }
}

proof fn lemma_finish_task(
    a: ChatView,
    targets: RelayTargetsView,
    summary: Option<Seq<char>>,
)
    ensures
        a.leads_to(a.finish_task(targets, summary)),
{
    reveal(ChatView::finish_task);
    lemma_same(a, a);
    let b = a.finish_plan();
    let c = ChatView { active_weave_relay: None, ..b };
    let d = c.refresh_label();
    let e = d.clear_targets(targets.target_ids);
    lemma_finish_plan(a);
    lemma_same(b, c);
    lemma_chain(a, b, c);
    lemma_refresh_label(c);
    lemma_chain(a, c, d);
    lemma_clear_targets(d, targets.target_ids);
    lemma_chain(a, d, e);
    let ended = if a.is_active(targets) {
        e
    } else {
        a
    };
    let plain = ChatView { pending_weave_plan: false, ..ended };
    lemma_same(ended, plain);
    lemma_chain(a, ended, plain);
    match summary {
        Some(summary) => {
            let effect = EffectView::History(
                HistoryView::AgentMessage { text: text::trimmed(summary), first: true },
            );
            lemma_same(plain, plain);
            lemma_emit(plain, effect);
            lemma_chain(a, plain, plain.agent_message(summary));
        },
        None => {},
    }
}

proof fn lemma_finish_if_idle(a: ChatView)
    ensures
        a.leads_to(a.finish_if_idle()),
{
    reveal(ChatView::finish_if_idle);
    lemma_same(a, a);
    match a.active_weave_relay {
        Some(relay) => lemma_finish_task(a, relay, None),
        None => {},
    }
}

proof fn lemma_end_prompt(a: ChatView)
    ensures
        a.leads_to(a.end_prompt()),
{
    reveal(ChatView::end_prompt);
    lemma_same(a, a.end_prompt());
}

proof fn lemma_quiet_all(a: ChatView, ids: Seq<Seq<char>>)
    ensures
        a.leads_to(a.quiet_all(ids)),
    decreases ids.len(),
{
    lemma_same(a, a);
    if ids.len() > 0 {
        let before = a.quiet_all(ids.drop_last());
        lemma_quiet_all(a, ids.drop_last());
        reveal(ChatView::quiet);
        match before.target(ids.last()) {
            Some(state) => {
                let quiet = TargetStateView {
                    pending_actions: seq![],
                    pending_new_action_id: None,
                    ..state
                };
                lemma_with_target(before, ids.last(), quiet);
                lemma_chain(a, before, before.with_target(ids.last(), quiet));
            },
            None => {},
        }
    }
}

proof fn lemma_drop_targets(a: ChatView, ids: Seq<Seq<char>>)
    ensures
        a.leads_to(a.drop_targets(ids).0),
{
    reveal(ChatView::drop_targets);
    lemma_same(a, a);
    match a.active_weave_relay {
        Some(relay) => {
            let (left, gone) = crate::chat::replies::removed_from(relay.target_ids, ids);
            let smaller = RelayTargetsView { target_ids: left, ..relay };
            let b = ChatView { active_weave_relay: Some(smaller), ..a };
            let c = b.quiet_all(gone);
            let d = c.refresh_label();
            let e = d.end_prompt();
            let f = e.finish_task(smaller, None);
            lemma_same(a, b);
            lemma_quiet_all(b, gone);
            lemma_chain(a, b, c);
            lemma_refresh_label(c);
            lemma_chain(a, c, d);
            lemma_end_prompt(d);
            lemma_chain(a, d, e);
            lemma_finish_task(e, smaller, None);
            lemma_chain(a, e, f);
        },
        None => {},
    }
}

// ---------------------------------------------------------------------------
// Commands of the user
// ---------------------------------------------------------------------------

proof fn lemma_clear_expectations(a: ChatView, id: Seq<char>)
    ensures
        a.leads_to(a.clear_expectations(id).0),
{
    reveal(ChatView::clear_expectations);
    match a.target(id) {
        Some(state) => {
            let kept = targets::replying(state.pending_actions, false);
            let quiet = TargetStateView {
                pending_actions: kept,
                pending_new_action_id: targets::still_pending(state.pending_new_action_id, kept),
                ..state
            };
            let b = a.with_target(id, quiet);
            let steps = targets::steps_of(targets::replying(state.pending_actions, true));
            lemma_replying(state.pending_actions, false);
            lemma_with_target(a, id, quiet);
            lemma_end_steps(b, steps);
            lemma_chain(a, b, b.end_steps(steps));
        },
        None => lemma_same(a, a),
    }
}

proof fn lemma_clear_all_expectations(a: ChatView, agents: Seq<WeaveAgent<Seq<char>>>)
    ensures
        a.leads_to(a.clear_all_expectations(agents).0),
    decreases agents.len(),
{
    if agents.len() > 0 {
        let before = a.clear_all_expectations(agents.drop_last()).0;
        lemma_clear_all_expectations(a, agents.drop_last());
        lemma_clear_expectations(before, agents.last().id);
        lemma_chain(a, before, before.clear_expectations(agents.last().id).0);
    } else {
        lemma_same(a, a);
    }
}

proof fn lemma_drew(a: ChatView, tape: Tape)
    ensures
        a.leads_to(a.drew(tape)),
{
    reveal(ChatView::drew);
    lemma_same(a, a.drew(tape));
}

proof fn lemma_reset_conversation(a: ChatView, id: Seq<char>, tape: Tape)
    ensures
        a.leads_to(a.reset_conversation(id, tape)),
{
    reveal(ChatView::reset_conversation);
    let b = a.drew(tape);
    let c = b.drew(tape);
    let state = targets::new_state(a.next_id(tape), b.next_id(tape));
    lemma_drew(a, tape);
    lemma_drew(b, tape);
    lemma_chain(a, b, c);
    lemma_with_target(c, id, state);
    lemma_chain(a, c, c.with_target(id, state));
}

proof fn lemma_reset_conversations(a: ChatView, ids: Seq<Seq<char>>, tape: Tape)
    ensures
        a.leads_to(a.reset_conversations(ids, tape)),
    decreases ids.len(),
{
    if ids.len() > 0 {
        let before = a.reset_conversations(ids.drop_last(), tape);
        lemma_reset_conversations(a, ids.drop_last(), tape);
        lemma_reset_conversation(before, ids.last(), tape);
        lemma_chain(a, before, before.reset_conversation(ids.last(), tape));
    } else {
        lemma_same(a, a);
    }
}

proof fn lemma_with_conversation(a: ChatView, id: Seq<char>, tape: Tape)
    ensures
        a.leads_to(a.with_conversation(id, tape)),
{
    reveal(ChatView::with_conversation);
    reveal(ChatView::reset_conversation);
    lemma_same(a, a);
    lemma_reset_conversation(a, id, tape);
}

proof fn lemma_prepare(
    a: ChatView,
    agents: Seq<WeaveAgent<Seq<char>>>,
    tool: WeaveTool<Seq<char>>,
    tape: Tape,
)
    ensures
        a.leads_to(a.prepare(agents, tool, tape).0),
    decreases agents.len(),
{
    lemma_same(a, a);
    if agents.len() > 0 {
        let before = a.prepare(agents.drop_last(), tool, tape).0;
        lemma_prepare(a, agents.drop_last(), tool, tape);
        reveal(ChatView::for_command);
        lemma_same(before, before);
        lemma_with_conversation(before, agents.last().id, tape);
        lemma_chain(a, before, before.for_command(agents.last().id, tool, tape).0);
    }
}

proof fn lemma_prepare_all(a: ChatView, actions: Seq<ControlActionView>, tape: Tape)
    ensures
        a.leads_to(a.prepare_all(actions, tape).0),
    decreases actions.len(),
{
    lemma_same(a, a);
    if actions.len() > 0 {
        let before = a.prepare_all(actions.drop_last(), tape).0;
        let action = actions.last();
        lemma_prepare_all(a, actions.drop_last(), tape);
        let quiet = if action.tool is Interrupt {
            before.clear_all_expectations(action.targets).0
        } else {
            before
        };
        lemma_same(before, before);
        lemma_clear_all_expectations(before, action.targets);
        lemma_chain(a, before, quiet);
        lemma_prepare(quiet, action.targets, action.tool, tape);
        lemma_chain(a, quiet, quiet.prepare(action.targets, action.tool, tape).0);
    }
}

proof fn lemma_send_controls(a: ChatView, actions: Seq<ControlActionView>, tape: Tape)
    ensures
        a.leads_to(a.send_controls(actions, tape)),
{
    reveal(ChatView::send_controls);
    let b = a.emit(EffectView::ScrollToBottom);
    let (c, sends, cleared) = b.prepare_all(actions, tape);
    lemma_emit(a, EffectView::ScrollToBottom);
    lemma_prepare_all(b, actions, tape);
    lemma_chain(a, b, c);
    let d = if cleared {
        c.finish_if_idle()
    } else {
        c
    };
    lemma_same(c, c);
    lemma_finish_if_idle(c);
    lemma_chain(a, c, d);
    lemma_emit(d, EffectView::SendControls(sends));
    lemma_chain(a, d, d.emit(EffectView::SendControls(sends)));
    lemma_emit(a, EffectView::History(HistoryView::Error("Weave session isn't connected."@)));
}

// ---------------------------------------------------------------------------
// What is said next
// ---------------------------------------------------------------------------

proof fn lemma_start_turn(
    a: ChatView,
    model: Seq<char>,
    input: Seq<char>,
    message: Seq<char>,
    images: Seq<Seq<char>>,
    local: bool,
    reply_target: Option<crate::chat::types::WeaveReplyTarget<Seq<char>>>,
)
    ensures
        a.leads_to(a.start_turn(model, input, message, images, local, reply_target)),
{
    reveal(ChatView::start_turn);
    reveal(ChatView::begin_turn);
    reveal(ChatView::sync_running);
    reveal(ChatView::keep_prompt);
    reveal(ChatView::emit);
    reveal(ChatView::leads_to);
    let b = a.start_turn(model, input, message, images, local, reply_target);
    assert(b.outbox.subrange(0, a.outbox.len() as int) =~= a.outbox);
    assert forall|id: Seq<char>, action_id: Seq<char>| #[trigger]
        b.is_open(id, action_id) implies a.is_open(id, action_id) by {}
}

proof fn lemma_run_shell(a: ChatView, command: Seq<char>)
    ensures
        a.leads_to(a.run_shell(command)),
{
    reveal(ChatView::run_shell);
    reveal(ChatView::emit);
    reveal(ChatView::leads_to);
    let b = a.run_shell(command);
    assert(b.outbox.subrange(0, a.outbox.len() as int) =~= a.outbox);
    assert forall|id: Seq<char>, action_id: Seq<char>| #[trigger]
        b.is_open(id, action_id) implies a.is_open(id, action_id) by {}
}

proof fn lemma_open_task(a: ChatView, relay: RelayTargetsView, wants_plan: bool, tape: Tape)
    ensures
        a.leads_to(a.open_task(relay, wants_plan, tape)),
{
    reveal(ChatView::open_task);
    let b = ChatView {
        pending_weave_relay: Some(relay),
        active_weave_relay: Some(relay),
        active_weave_plan: None,
        pending_weave_plan: wants_plan,
        ..a
    };
    let c = b.reset_conversations(relay.target_ids, tape);
    lemma_same(a, b);
    lemma_reset_conversations(b, relay.target_ids, tape);
    lemma_chain(a, b, c);
    lemma_refresh_label(c);
    lemma_chain(a, c, c.refresh_label());
}

proof fn lemma_close_task(a: ChatView)
    ensures
        a.leads_to(a.close_task()),
{
    reveal(ChatView::leave_task);
    reveal(ChatView::without_plan);
    lemma_same(a, a);
    let b = a.leave_task();
    match a.active_weave_relay {
        Some(relay) => {
            let quiet = ChatView { active_weave_relay: None, ..a };
            lemma_same(a, quiet);
            lemma_clear_targets(quiet, relay.target_ids);
            lemma_chain(a, quiet, b);
        },
        None => {},
    }
    let c = b.without_plan();
    lemma_same(b, c);
    lemma_chain(a, b, c);
    lemma_refresh_label(c);
    lemma_chain(a, c, c.refresh_label());
}

proof fn lemma_begin_task(a: ChatView, message: Seq<char>, tape: Tape)
    ensures
        a.leads_to(a.begin_task(message, tape).0),
{
    reveal(ChatView::begin_task);
    lemma_same(a, a);
    lemma_close_task(a);
    match a.weave_agents {
        Some(agents) => {
            let members = crate::mentions::mentioned_agents(
                text::words(message),
                agents,
                Some(a.weave_agent_id),
            );
            let relay = RelayTargetsView {
                owner_id: a.weave_agent_id,
                relay_id: a.next_id(tape),
                target_ids: crate::chat::relay::agent_ids(members),
            };
            let wants_plan = crate::prompts::wants_plan(message);
            let b = a.drew(tape);
            lemma_drew(a, tape);
            lemma_open_task(b, relay, wants_plan, tape);
            lemma_chain(a, b, b.open_task(relay, wants_plan, tape));
        },
        None => {},
    }
}

proof fn lemma_submit_text(
    a: ChatView,
    message: Seq<char>,
    images: Seq<Seq<char>>,
    model: Seq<char>,
    tape: Tape,
)
    ensures
        a.leads_to(a.submit_text(message, images, model, tape)),
{
    reveal(ChatView::submit_text);
    lemma_same(a, ChatView { active_weave_reply_target: None, ..a });
    let b = a.end_prompt();
    let (c, input) = b.begin_task(message, tape);
    lemma_end_prompt(a);
    lemma_begin_task(b, message, tape);
    lemma_chain(a, b, c);
    match text::after_prefix(message, "!"@) {
        Some(command) => {
            lemma_run_shell(c, text::trimmed(command));
            lemma_chain(a, c, c.run_shell(text::trimmed(command)));
        },
        None => {
            lemma_start_turn(c, model, input, message, images, true, None);
            lemma_chain(a, c, c.start_turn(model, input, message, images, true, None));
        },
    }
}

proof fn lemma_submit_weave(
    a: ChatView,
    weave: crate::chat::types::WeaveUserView,
    message: Seq<char>,
    images: Seq<Seq<char>>,
    model: Seq<char>,
)
    ensures
        a.leads_to(a.submit_weave(weave, message, images, model)),
{
    reveal(ChatView::submit_weave);
    lemma_same(a, ChatView { active_weave_reply_target: None, ..a });
    let b = a.end_prompt();
    let c = ChatView { pending_weave_relay: weave.relay_targets, ..b };
    let reply = if weave.auto_reply && weave.relay_targets is None {
        Some(weave.reply_target)
    } else {
        None
    };
    let input = a.weave_input(weave, message);
    lemma_end_prompt(a);
    lemma_same(b, c);
    lemma_chain(a, b, c);
    lemma_start_turn(c, model, input, message, images, false, reply);
    lemma_chain(a, c, c.start_turn(model, input, message, images, false, reply));
}

proof fn lemma_submit(a: ChatView, message: UserMessageView, tape: Tape)
    ensures
        a.leads_to(a.submit(message, tape)),
    decreases a.queued_user_messages.len(), 2int,
{
    reveal(ChatView::submit);
    reveal(ChatView::spawn_controls);
    reveal(ChatView::send_next);
    match a.known_model() {
        Some(model) => match message.source {
            SourceView::Weave(weave) => lemma_submit_weave(
                a,
                weave,
                message.text,
                message.image_paths,
                model,
            ),
            SourceView::Local => {
                let (actions, left) = a.commands_in(message.text);
                let b = a.spawn_controls(actions, tape);
                lemma_spawn_controls(a, actions, tape);
                lemma_submit_text(b, left, message.image_paths, model, tape);
                lemma_chain(a, b, b.submit_text(left, message.image_paths, model, tape));
            },
        },
        None => {
            reveal(ChatView::enqueue_first);
            let b = ChatView {
                queued_user_messages: seq![message] + a.queued_user_messages,
                ..a
            };
            lemma_same(a, b);
            lemma_refresh_queue(b);
            lemma_chain(a, b, b.refresh_queue());
        },
    }
}

proof fn lemma_spawn_controls(a: ChatView, actions: Seq<ControlActionView>, tape: Tape)
    ensures
        a.leads_to(a.spawn_controls(actions, tape)),
    decreases a.queued_user_messages.len(), 1int,
{
    reveal(ChatView::submit);
    reveal(ChatView::spawn_controls);
    reveal(ChatView::send_next);
    lemma_same(a, a);
    if actions.len() > 0 {
        let (b, dropped) = a.drop_targets(a.interrupted(actions));
        frames::law_leaving_a_task_keeps_the_rest(a, a.interrupted(actions));
        frames::lemma_same_but_task(a, b);
        lemma_drop_targets(a, a.interrupted(actions));
        let c = b.send_next(tape);
        let d = c.finish_if_idle();
        lemma_send_next(b, tape);
        lemma_chain(a, b, c);
        lemma_finish_if_idle(c);
        lemma_chain(a, c, d);
        let ready = if dropped {
            d
        } else {
            b
        };
        lemma_send_controls(ready, actions, tape);
        lemma_chain(a, ready, ready.send_controls(actions, tape));
    }
}

/// Whatever is said next, an action that is over stays over.
proof fn lemma_send_next(a: ChatView, tape: Tape)
    ensures
        a.leads_to(a.send_next(tape)),
    decreases a.queued_user_messages.len(), 0int,
{
    reveal(ChatView::submit);
    reveal(ChatView::spawn_controls);
    reveal(ChatView::send_next);
    lemma_same(a, a);
    lemma_refresh_queue(a);
    if !(a.task_running || a.holds_back()) && a.queued_user_messages.len() > 0 {
        crate::chat::submit::lemma_batch_len(a);
        let b = a.without_next();
        let c = b.submit(a.next_message(), tape);
        lemma_same(a, b);
        lemma_submit(b, a.next_message(), tape);
        lemma_chain(a, b, c);
        lemma_refresh_queue(c);
        lemma_chain(a, c, c.refresh_queue());
    }
}

// ---------------------------------------------------------------------------
// Results
// ---------------------------------------------------------------------------

proof fn lemma_move_reply(a: ChatView, sender_id: Seq<char>, result: ResultView)
    ensures
        a.leads_to(a.move_reply(sender_id, result)),
        a.move_reply(sender_id, result).leads_to(a),
{
    reveal(ChatView::move_reply);
    lemma_same(a, a.move_reply(sender_id, result));
    lemma_same(a.move_reply(sender_id, result), a);
}

proof fn lemma_move_conversation(a: ChatView, sender_id: Seq<char>, result: ResultView)
    ensures
        a.leads_to(a.move_conversation(sender_id, result)),
        a.move_conversation(sender_id, result).leads_to(a),
{
    reveal(ChatView::move_conversation);
    lemma_same(a, a);
    match (a.target(sender_id), result.new_context_id, result.new_task_id) {
        (Some(_), None, None) => {},
        (Some(state), context_id, task_id) => {
            let moved = crate::chat::results::moved_state(state, context_id, task_id);
            let b = a.with_target(sender_id, moved);
            let c = b.move_reply(sender_id, result);
            lemma_with_target(a, sender_id, moved);
            lemma_move_reply(b, sender_id, result);
            lemma_chain(a, b, c);
            lemma_moved(a, sender_id, moved);
            lemma_chain(c, b, a);
        },
        (None, Some(context_id), Some(task_id)) => {
            let state = targets::new_state(context_id, task_id);
            let b = a.with_target(sender_id, state);
            let c = b.move_reply(sender_id, result);
            lemma_with_target(a, sender_id, state);
            lemma_move_reply(b, sender_id, result);
            lemma_chain(a, b, c);
            lemma_moved(a, sender_id, state);
            lemma_chain(c, b, a);
        },
        (None, _, _) => {},
    }
}

proof fn lemma_moved(a: ChatView, id: Seq<char>, state: TargetStateView)
    requires
        a.target(id) matches Some(before) ==> before.pending_actions == state.pending_actions,
    ensures
        a.with_target(id, state).leads_to(a),
{
    reveal(ChatView::leads_to);
    reveal(ChatView::with_target);
    let b = a.with_target(id, state);
    assert(a.outbox.subrange(0, b.outbox.len() as int) =~= b.outbox);
    assert forall|other: Seq<char>, action_id: Seq<char>| #[trigger]
        a.is_open(other, action_id) implies b.is_open(other, action_id) by {
        table::law_with(a.weave_target_states, id, state, other);
    }
}

proof fn lemma_clear_other_groups(a: ChatView, id: Seq<char>, group_id: Seq<char>)
    ensures
        a.leads_to(a.clear_other_groups(id, group_id)),
{
    reveal(ChatView::clear_other_groups);
    match a.target(id) {
        Some(state) => {
            let kept = targets::of_group(state.pending_actions, group_id, true);
            let left = TargetStateView {
                pending_actions: kept,
                pending_new_action_id: targets::still_pending(state.pending_new_action_id, kept),
                ..state
            };
            let b = a.with_target(id, left);
            let steps = targets::steps_of(targets::of_group(state.pending_actions, group_id, false));
            lemma_of_group(state.pending_actions, group_id, true);
            lemma_with_target(a, id, left);
            lemma_end_steps(b, steps);
            lemma_chain(a, b, b.end_steps(steps));
        },
        None => lemma_same(a, a),
    }
}

/// Whether this status says that an action is over.
pub open spec fn says_over(status: Seq<char>) -> bool {
    let status = text::trimmed(status);
    status == "completed"@ || status == "rejected"@ || status == "error"@
}

/// What follows the end of an action, when its result came in.
proof fn lemma_answered(
    chat: ChatView,
    sender_id: Seq<char>,
    sender_name: Option<Seq<char>>,
    result: ResultView,
    tape: Tape,
)
    requires
        says_over(result.status),
    ensures
        chat.clear_action(sender_id, result.action_id).0.leads_to(
            chat.action_answered(sender_id, sender_name, result, tape),
        ),
{
    reveal(ChatView::action_answered);
    reveal(ChatView::end_action);
    let a = chat.clear_action(sender_id, result.action_id).0;
    let b = a.send_next(tape);
    let c = b.finish_if_idle();
    let d = c.move_conversation(sender_id, result);
    let e = d.clear_other_groups(sender_id, result.group_id);
    lemma_send_next(a, tape);
    lemma_finish_if_idle(b);
    lemma_chain(a, b, c);
    lemma_move_conversation(c, sender_id, result);
    lemma_chain(a, c, d);
    lemma_clear_other_groups(d, sender_id, result.group_id);
    lemma_chain(a, d, e);
    let settled = if chat.is_new_action(sender_id, result.action_id) && (
    result.new_context_id is Some || result.new_task_id is Some) {
        e
    } else {
        d
    };
    let line = crate::chat::results::failure_line(
        settled.sender_name(sender_id, sender_name),
        text::trimmed(result.status),
        text::present(result.detail),
    );
    lemma_same(settled, settled);
    lemma_emit(settled, EffectView::History(HistoryView::Error(line)));
    lemma_chain(a, settled, settled.error(line));
}

/// A result that says that an action was completed or rejected, or that it failed, ends
/// that action. After any other result every action that was open still is, and no other
/// one.
pub proof fn law_a_result_ends_its_action(
    chat: ChatView,
    sender_id: Seq<char>,
    sender_name: Option<Seq<char>>,
    result: ResultView,
    tape: Tape,
)
    requires
        chat.target(sender_id) matches Some(state) ==> table::keys_differ(state.pending_actions),
    ensures
        ({
            let after = chat.action_answered(sender_id, sender_name, result, tape);
            let status = text::trimmed(result.status);
            if status == "completed"@ || status == "rejected"@ || status == "error"@ {
                !after.is_open(sender_id, result.action_id)
            } else {
                forall|id: Seq<char>, action_id: Seq<char>| #[trigger]
                    after.is_open(id, action_id) == chat.is_open(id, action_id)
            }
        }),
{
    let after = chat.action_answered(sender_id, sender_name, result, tape);
    if says_over(result.status) {
        lemma_answered(chat, sender_id, sender_name, result, tape);
        let a = chat.clear_action(sender_id, result.action_id).0;
        assert(!a.is_open(sender_id, result.action_id)) by {
            match chat.target(sender_id) {
                Some(_) => crate::chat::laws::law_a_finished_action_is_gone(
                    chat,
                    sender_id,
                    result.action_id,
                    result.action_id,
                ),
                None => {
                    reveal(ChatView::clear_action);
                },
            }
        }
        reveal(ChatView::leads_to);
    } else {
        reveal(ChatView::action_answered);
        lemma_move_conversation(chat, sender_id, result);
        reveal(ChatView::leads_to);
        assert forall|id: Seq<char>, action_id: Seq<char>| #[trigger]
            after.is_open(id, action_id) == chat.is_open(id, action_id) by {
            if chat.is_open(id, action_id) {
                assert(after.is_open(id, action_id));
            }
        }
    }
}

/// What was asked for stays asked for, whatever result comes in.
pub proof fn law_a_result_takes_nothing_back(
    chat: ChatView,
    sender_id: Seq<char>,
    sender_name: Option<Seq<char>>,
    result: ResultView,
    tape: Tape,
)
    ensures
        chat.outbox.is_prefix_of(
            chat.action_answered(sender_id, sender_name, result, tape).outbox,
        ),
{
    let after = chat.action_answered(sender_id, sender_name, result, tape);
    if says_over(result.status) {
        lemma_answered(chat, sender_id, sender_name, result, tape);
        lemma_clear_action(chat, sender_id, result.action_id);
        lemma_chain(chat, chat.clear_action(sender_id, result.action_id).0, after);
    } else {
        reveal(ChatView::action_answered);
        lemma_move_conversation(chat, sender_id, result);
    }
    reveal(ChatView::leads_to);
}

proof fn lemma_without(pending: PendingTable, action_id: Seq<char>)
    ensures
        no_more(table::without(pending, action_id), pending),
{
    let kept = table::without(pending, action_id);
    table::lemma_place(pending, action_id);
    assert forall|other: Seq<char>| #[trigger]
        table::value_at(kept, other) is Some implies table::value_at(pending, other) is Some by {
        lemma_entry(kept, other);
        lemma_entry(pending, other);
        let i = choose|i: int| 0 <= i < kept.len() && (#[trigger] kept[i]).0 == other;
        let n = table::place_of(pending, action_id);
        if i < n || n >= pending.len() {
            assert(pending[i].0 == other);
        } else {
            assert(pending[i + 1].0 == other);
        }
    }
}

proof fn lemma_clear_action(a: ChatView, id: Seq<char>, action_id: Seq<char>)
    ensures
        a.leads_to(a.clear_action(id, action_id).0),
{
    reveal(ChatView::clear_action);
    lemma_same(a, a);
    match a.target(id) {
        Some(state) => match table::value_at(state.pending_actions, action_id) {
            Some(pending) => {
                let left = TargetStateView {
                    pending_actions: table::without(state.pending_actions, action_id),
                    pending_new_action_id: if state.pending_new_action_id == Some(action_id) {
                        None
                    } else {
                        state.pending_new_action_id
                    },
                    ..state
                };
                let b = a.with_target(id, left);
                lemma_without(state.pending_actions, action_id);
                lemma_with_target(a, id, left);
                match pending.step_id {
                    Some(step) => {
                        lemma_end_steps(b, seq![step]);
                        lemma_chain(a, b, b.end_steps(seq![step]));
                    },
                    None => {},
                }
            },
            None => {},
        },
        None => {},
    }
}

/// The plan as it is shown once the step at `i` is done: the first step that waits is at
/// work, and all others are as they were.
pub open spec fn shows_done(
    items: Seq<PlanItem<Seq<char>>>,
    steps: Seq<plan::StepView>,
    i: int,
) -> bool {
    &&& items.len() == steps.len()
    &&& items[i].status == StepStatus::Completed
    &&& forall|j: int| 0 <= j < steps.len() ==> (#[trigger] items[j]).step == steps[j].text
    &&& forall|j: int|
        0 <= j < steps.len() && j != i ==> (#[trigger] items[j]).status == (if steps[j].status
            == StepStatus::Pending && forall|k: int|
            0 <= k < j ==> (#[trigger] steps[k]).status != StepStatus::Pending {
            StepStatus::InProgress
        } else {
            steps[j].status
        })
}

/// With the last action of a step at work that step is done: the next one that waits is
/// at work, and the transcript shows it.
pub proof fn law_the_last_action_completes_its_step(
    chat: ChatView,
    sender_id: Seq<char>,
    sender_name: Option<Seq<char>>,
    result: ResultView,
    step: Seq<char>,
    i: int,
    tape: Tape,
)
    requires
        says_over(result.status),
        chat.target(sender_id) matches Some(state) && table::value_at(
            state.pending_actions,
            result.action_id,
        ) matches Some(pending) && pending.step_id == Some(step),
        chat.active_weave_plan matches Some(plan) && {
            &&& 0 <= i < plan.steps.len()
            &&& plan.steps[i].id == step
            &&& forall|j: int| 0 <= j < i ==> (#[trigger] plan.steps[j]).id != step
            &&& plan.steps[i].status == StepStatus::InProgress
            &&& plan.steps[i].pending_actions == 1
            &&& plan.steps[i].assigned_actions > 0
        },
    ensures
        ({
            let after = chat.action_answered(sender_id, sender_name, result, tape);
            let steps = (chat.active_weave_plan->0).steps;
            &&& after.outbox.len() > chat.outbox.len()
            &&& after.outbox[chat.outbox.len() as int] matches EffectView::History(item)
            &&& item matches HistoryView::PlanUpdate { note, plan }
            &&& note == (chat.active_weave_plan->0).note
            &&& shows_done(plan, steps, i)
        }),
{
    let old_plan = chat.active_weave_plan->0;
    let steps = old_plan.steps;
    let a = chat.clear_action(sender_id, result.action_id).0;
    let after = chat.action_answered(sender_id, sender_name, result, tape);
    lemma_answered(chat, sender_id, sender_name, result, tape);
    plan::law_a_step_is_done_with_its_last_action(steps, step, i);
    let (new, changed) = plan::steps_completed(steps, step);
    let shown = EffectView::History(
        HistoryView::PlanUpdate { note: old_plan.note, plan: plan::plan_items(new) },
    );
    assert(a.outbox == chat.outbox.push(shown)) by {
        reveal(ChatView::clear_action);
        reveal(ChatView::end_steps);
        reveal(ChatView::plan_completed);
        reveal(ChatView::show_plan);
        reveal(ChatView::with_target);
        reveal(ChatView::emit);
        let one = seq![step];
        assert(one.drop_last() =~= Seq::<Seq<char>>::empty());
        assert(one.last() == step);
        reveal_with_fuel(ChatView::steps_ended, 2);
    }
    reveal(ChatView::leads_to);
    assert(after.outbox.subrange(0, a.outbox.len() as int)[chat.outbox.len() as int] == shown);
}

} // verus!

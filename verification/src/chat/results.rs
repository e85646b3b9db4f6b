//! What other agents and the coordinator say of what they were asked to do.

use vstd::prelude::*;

use crate::chat::frames;
use crate::chat::state;
use crate::chat::state::{ChatView, ChatWidget, Tape};
use crate::chat::targets;
use crate::chat::types::{
    OutboundLog, OutboundLogView, RelayAcceptedView, RelayFailure, RelayedAction, RelayedTarget,
    RelayedTargetView, TargetStateView, WeavePendingAction, WeaveRelayAccepted, WeaveRelayDone,
    WeaveReplyTarget,
};
use crate::client::{WeaveActionResult, WeaveTaskDone, WeaveTaskUpdate};
use crate::text;

verus! {

/// The result of an action.
pub type ResultView = WeaveActionResult<Seq<char>>;

/// One text, or else another.
pub open spec fn or_else(first: Option<Seq<char>>, second: Seq<char>) -> Seq<char> {
    match first {
        Some(first) => first,
        None => second,
    }
}

fn either(first: &Option<String>, second: &str) -> (r: String)
    ensures
        r@ == or_else(first.deep_view(), second@),
{
    match first {
        Some(first) => first.clone(),
        None => second.to_owned(),
    }
}

// ---------------------------------------------------------------------------
// Results of actions
// ---------------------------------------------------------------------------

/// Whether an action with this status has ended.
pub open spec fn is_final(status: Seq<char>) -> bool {
    status == "completed"@ || status == "rejected"@ || status == "error"@
}

/// What the user is told of an action that failed.
pub open spec fn failure_line(
    sender: Seq<char>,
    status: Seq<char>,
    detail: Option<Seq<char>>,
) -> Seq<char> {
    match detail {
        Some(detail) => "Weave action result from "@ + sender + " reported "@ + status + ": "@
            + detail,
        None => "Weave action result from "@ + sender + " reported "@ + status + "."@,
    }
}

/// A conversation that goes on elsewhere.
pub open spec fn moved_state(
    state: TargetStateView,
    context_id: Option<Seq<char>>,
    task_id: Option<Seq<char>>,
) -> TargetStateView {
    TargetStateView {
        context_id: or_else(context_id, state.context_id),
        task_id: or_else(task_id, state.task_id),
        ..state
    }
}

impl ChatView {
    /// The name to show for who sent something.
    pub open spec fn sender_name(self, sender_id: Seq<char>, name: Option<Seq<char>>) -> Seq<char> {
        or_else(name, self.name_of(sender_id))
    }

    /// With the answer that is due going to where the conversation goes on.
    #[verifier::opaque]
    pub open spec fn move_reply(self, sender_id: Seq<char>, result: ResultView) -> ChatView {
        match self.active_weave_reply_target {
            Some(target) => if target.agent_id == sender_id {
                ChatView {
                    active_weave_reply_target: Some(
                        WeaveReplyTarget {
                            conversation_id: or_else(
                                result.new_context_id,
                                target.conversation_id,
                            ),
                            conversation_owner: self.weave_agent_id,
                            task_id: match result.new_task_id {
                                Some(task_id) => Some(task_id),
                                None => target.task_id,
                            },
                            ..target
                        },
                    ),
                    ..self
                }
            } else {
                self
            },
            None => self,
        }
    }

    /// With the conversation with an agent going on where the result says.
    #[verifier::opaque]
    pub open spec fn move_conversation(self, sender_id: Seq<char>, result: ResultView) -> ChatView {
        match (self.target(sender_id), result.new_context_id, result.new_task_id) {
            (Some(_), None, None) => self,
            (Some(state), context_id, task_id) => self.with_target(
                sender_id,
                moved_state(state, context_id, task_id),
            ).move_reply(sender_id, result),
            (None, Some(context_id), Some(task_id)) => self.with_target(
                sender_id,
                targets::new_state(context_id, task_id),
            ).move_reply(sender_id, result),
            (None, _, _) => self,
        }
    }

    /// Whether the action is the one that has an agent start a new session.
    pub open spec fn is_new_action(self, sender_id: Seq<char>, action_id: Seq<char>) -> bool {
        self.target(sender_id) matches Some(state) && state.pending_new_action_id == Some(action_id)
    }

    /// After an action has ended: what waited for it may be said, and the task may
    /// be over.
    #[verifier::opaque]
    pub open spec fn end_action(
        self,
        sender_id: Seq<char>,
        action_id: Seq<char>,
        tape: Tape,
    ) -> ChatView {
        self.clear_action(sender_id, action_id).0.send_next(tape).finish_if_idle()
    }

    /// After the result of an action came in.
    #[verifier::opaque]
    pub open spec fn action_answered(
        self,
        sender_id: Seq<char>,
        sender_name: Option<Seq<char>>,
        result: ResultView,
        tape: Tape,
    ) -> ChatView {
        let status = text::trimmed(result.status);
        let ended = if is_final(status) {
            self.end_action(sender_id, result.action_id, tape)
        } else {
            self
        };
        let moved = ended.move_conversation(sender_id, result);
        let settled = if is_final(status) && self.is_new_action(sender_id, result.action_id) && (
        result.new_context_id is Some || result.new_task_id is Some) {
            moved.clear_other_groups(sender_id, result.group_id)
        } else {
            moved
        };
        if status == "error"@ || status == "rejected"@ {
            settled.error(
                failure_line(
                    settled.sender_name(sender_id, sender_name),
                    status,
                    text::present(result.detail),
                ),
            )
        } else {
            settled
        }
    }
}

impl ChatWidget {
    pub(super) fn shown_sender(&self, sender_id: &str, name: &Option<String>) -> (r: String)
        ensures
            r@ == self@.sender_name(sender_id@, name.deep_view()),
    {
        match name {
            Some(name) => name.clone(),
            None => self.agent_display_name(sender_id),
        }
    }

    fn move_reply(&mut self, sender_id: &str, result: &WeaveActionResult)
        ensures
            final(self)@ == old(self)@.move_reply(sender_id@, result.deep_view()),
            final(self)@.ids == old(self)@.ids,
    {
        proof {
            reveal(ChatView::move_reply);
        }
        let own = self.get_weave_agent_id().to_owned();
        let target = match self.get_active_weave_reply_target() {
            Some(target) => {
                if !text::same(target.agent_id.as_str(), sender_id) {
                    return;
                }
                WeaveReplyTarget {
                    session_id: target.session_id.clone(),
                    agent_id: target.agent_id.clone(),
                    display_name: target.display_name.clone(),
                    conversation_id: either(
                        &result.new_context_id,
                        target.conversation_id.as_str(),
                    ),
                    conversation_owner: own,
                    parent_message_id: text::copy_option(&target.parent_message_id),
                    task_id: match &result.new_task_id {
                        Some(task_id) => Some(task_id.clone()),
                        None => text::copy_option(&target.task_id),
                    },
                    action_group_id: text::copy_option(&target.action_group_id),
                    action_id: text::copy_option(&target.action_id),
                    action_index: target.action_index,
                }
            },
            None => return,
        };
        self.put_active_weave_reply_target(Some(target));
    }

    fn move_conversation(&mut self, sender_id: &str, result: &WeaveActionResult)
        ensures
            final(self)@ == old(self)@.move_conversation(sender_id@, result.deep_view()),
            final(self)@.ids == old(self)@.ids,
    {
        proof {
            reveal(ChatView::move_conversation);
        }
        let state = match self.find_target(sender_id) {
            Some(state) => {
                if result.new_context_id.is_none() && result.new_task_id.is_none() {
                    return;
                }
                state.with_ids(
                    either(&result.new_context_id, state.context_id.as_str()),
                    either(&result.new_task_id, state.task_id.as_str()),
                )
            },
            None => match (&result.new_context_id, &result.new_task_id) {
                (Some(context_id), Some(task_id)) => targets::fresh_state(
                    context_id.clone(),
                    task_id.clone(),
                ),
                _ => return,
            },
        };
        let ghost before = self@;
        self.put_target(sender_id, state);
        proof {
            frames::lemma_with_target(before, sender_id@, state.deep_view());
            frames::lemma_same_but_task(before, self@);
        }
        self.move_reply(sender_id, result);
    }

    fn end_action(&mut self, sender_id: &str, action_id: &str)
        ensures
            state::extends(final(self)@.ids, old(self)@.ids),
            forall|tape: Tape|
                state::extends(tape, final(self)@.ids) ==> #[trigger] old(self)@.end_action(
                    sender_id@,
                    action_id@,
                    tape,
                ) == final(self)@,
    {
        proof {
            reveal(ChatView::end_action);
        }
        let ghost start = self@;
        let _ = self.clear_pending_weave_action(sender_id, action_id);
        proof {
            frames::law_clearing_an_action_keeps_the_rest(start, sender_id@, action_id@);
            frames::lemma_same_but_task(start, self@);
        }
        self.send_next_and_finish();
    }

    fn send_next_and_finish(&mut self)
        ensures
            state::extends(final(self)@.ids, old(self)@.ids),
            forall|tape: Tape|
                state::extends(tape, final(self)@.ids) ==> #[trigger] old(self)@.send_next(
                    tape,
                ).finish_if_idle() == final(self)@,
    {
        self.maybe_send_next_queued_input();
        let ghost sent = self@;
        self.maybe_finish_active_weave_relay();
        proof {
            frames::law_idle_task_keeps_the_rest(sent);
            frames::lemma_same_but_task(sent, self@);
        }
    }

    fn waits_for_new_session(&self, sender_id: &str, action_id: &str) -> (r: bool)
        ensures
            r == self@.is_new_action(sender_id@, action_id@),
    {
        match self.find_target(sender_id) {
            Some(state) => match &state.pending_new_action_id {
                Some(pending) => text::same(pending.as_str(), action_id),
                None => false,
            },
            None => false,
        }
    }

    pub(super) fn handle_weave_action_result(
        &mut self,
        sender_id: &str,
        sender_name: &Option<String>,
        result: &WeaveActionResult,
    )
        ensures
            state::extends(final(self)@.ids, old(self)@.ids),
            forall|tape: Tape|
                state::extends(tape, final(self)@.ids) ==> #[trigger] old(self)@.action_answered(
                    sender_id@,
                    sender_name.deep_view(),
                    result.deep_view(),
                    tape,
                ) == final(self)@,
    {
        proof {
            reveal(ChatView::action_answered);
        }
        let status = text::trim(result.status.as_str());
        let terminal = text::same(status, "completed") || text::same(status, "rejected")
            || text::same(status, "error");
        let was_new = self.waits_for_new_session(sender_id, result.action_id.as_str());
        if terminal {
            self.end_action(sender_id, result.action_id.as_str());
        }
        self.move_conversation(sender_id, result);
        if terminal && was_new && (result.new_context_id.is_some()
            || result.new_task_id.is_some()) {
            let ghost moved = self@;
            self.clear_pending_weave_actions_except_group(sender_id, result.group_id.as_str());
            proof {
                frames::law_clearing_other_groups_keeps_the_rest(
                    moved,
                    sender_id@,
                    result.group_id@,
                );
                frames::lemma_same_but_task(moved, self@);
            }
        }
        if !text::same(status, "error") && !text::same(status, "rejected") {
            return;
        }
        let sender = self.shown_sender(sender_id, sender_name);
        let mut line = text::concat3("Weave action result from ", sender.as_str(), " reported ");
        line.append(status);
        match text::trim_present(&result.detail) {
            Some(detail) => {
                line.append(": ");
                line.append(detail);
            },
            None => line.append("."),
        }
        let ghost settled = self@;
        self.add_error(line.as_str());
        proof {
            frames::lemma_error(settled, line@);
            frames::lemma_same_but_task(settled, self@);
        }
    }
}

// ---------------------------------------------------------------------------
// Tasks
// ---------------------------------------------------------------------------

impl ChatView {
    /// After an agent has said that a task is done.
    #[verifier::opaque]
    pub open spec fn task_finished(
        self,
        sender_id: Seq<char>,
        done: WeaveTaskDone<Seq<char>>,
        tape: Tape,
    ) -> ChatView {
        let told = self.info(
            match text::present(done.summary) {
                Some(summary) => "Weave task done from "@ + self.name_of(sender_id) + ": "@
                    + summary,
                None => "Weave task done from "@ + self.name_of(sender_id) + "."@,
            },
        );
        let (cleared, was_open) = told.clear_task(sender_id, done.task_id);
        if was_open {
            cleared.send_next(tape).finish_if_idle()
        } else {
            cleared
        }
    }

    /// After an agent has said how far a task is.
    #[verifier::opaque]
    pub open spec fn task_updated(
        self,
        sender_id: Seq<char>,
        update: WeaveTaskUpdate<Seq<char>>,
        tape: Tape,
    ) -> ChatView {
        let status = text::trimmed(update.status);
        if status.len() == 0 {
            self
        } else if status == "done"@ {
            self.task_finished(
                sender_id,
                WeaveTaskDone { task_id: update.task_id, summary: None },
                tape,
            )
        } else {
            self.info(
                "Weave task update from "@ + self.name_of(sender_id) + ": "@ + status + "."@,
            )
        }
    }

    /// After the coordinator has said that a task is over.
    #[verifier::opaque]
    pub open spec fn relay_finished(self, done: WeaveRelayDone<Seq<char>>) -> ChatView {
        match self.active_weave_relay {
            Some(relay) => if relay.relay_id == done.relay_id {
                self.finish_task(relay, text::present(done.summary))
            } else {
                self
            },
            None => self,
        }
    }

    /// Whether this is the id of the task at hand.
    pub open spec fn has_relay(self, relay_id: Seq<char>) -> bool {
        self.active_weave_relay matches Some(relay) && relay.relay_id == relay_id
    }

    /// After the steps of a task could not be sent.
    pub open spec fn relay_failed(self, relay_id: Seq<char>, message: Seq<char>) -> ChatView {
        if self.has_relay(relay_id) {
            self.error("Failed to send Weave relay actions: "@ + message)
        } else {
            self
        }
    }
}

impl ChatWidget {
    pub(super) fn handle_weave_task_done(&mut self, sender_id: &str, done: &WeaveTaskDone)
        ensures
            state::extends(final(self)@.ids, old(self)@.ids),
            forall|tape: Tape|
                state::extends(tape, final(self)@.ids) ==> #[trigger] old(self)@.task_finished(
                    sender_id@,
                    done.deep_view(),
                    tape,
                ) == final(self)@,
    {
        proof {
            reveal(ChatView::task_finished);
        }
        let name = self.agent_display_name(sender_id);
        let mut line = text::concat2("Weave task done from ", name.as_str());
        match text::trim_present(&done.summary) {
            Some(summary) => {
                line.append(": ");
                line.append(summary);
            },
            None => line.append("."),
        }
        let ghost start = self@;
        self.add_info(line.as_str());
        let ghost told = self@;
        let was_open = self.clear_pending_weave_actions_for_task(sender_id, done.task_id.as_str());
        proof {
            frames::lemma_info(start, line@);
            frames::lemma_same_but_task(start, told);
            frames::law_clearing_a_task_keeps_the_rest(told, sender_id@, done.task_id@);
            frames::lemma_same_but_task(told, self@);
        }
        if was_open {
            self.send_next_and_finish();
        }
    }

    pub(super) fn handle_weave_task_update(&mut self, sender_id: &str, update: &WeaveTaskUpdate)
        ensures
            state::extends(final(self)@.ids, old(self)@.ids),
            forall|tape: Tape|
                state::extends(tape, final(self)@.ids) ==> #[trigger] old(self)@.task_updated(
                    sender_id@,
                    update.deep_view(),
                    tape,
                ) == final(self)@,
    {
        proof {
            reveal(ChatView::task_updated);
        }
        let status = text::trim(update.status.as_str());
        if status.is_empty() {
            return;
        }
        if text::same(status, "done") {
            let done = WeaveTaskDone { task_id: update.task_id.clone(), summary: None };
            self.handle_weave_task_done(sender_id, &done);
            return;
        }
        let name = self.agent_display_name(sender_id);
        let mut line = text::concat3("Weave task update from ", name.as_str(), ": ");
        line.append(status);
        line.append(".");
        let ghost start = self@;
        self.add_info(line.as_str());
        proof {
            frames::lemma_info(start, line@);
            frames::lemma_same_but_task(start, self@);
        }
    }

    pub(super) fn handle_weave_relay_done(&mut self, done: &WeaveRelayDone)
        ensures
            final(self)@ == old(self)@.relay_finished(done.deep_view()),
            final(self)@.ids == old(self)@.ids,
    {
        proof {
            reveal(ChatView::relay_finished);
        }
        let relay = match self.get_active_weave_relay() {
            Some(relay) => {
                if !text::same(relay.relay_id.as_str(), done.relay_id.as_str()) {
                    return;
                }
                relay.clone()
            },
            None => return,
        };
        let summary = text::trim_present(&done.summary);
        let ghost start = self@;
        self.finish_weave_task(&relay, summary);
        proof {
            frames::law_finishing_a_task_keeps_the_rest(
                start,
                relay.deep_view(),
                summary.deep_view(),
            );
            frames::lemma_same_but_task(start, self@);
        }
    }

    fn has_relay(&self, relay_id: &str) -> (r: bool)
        ensures
            r == self@.has_relay(relay_id@),
    {
        match self.get_active_weave_relay() {
            Some(relay) => text::same(relay.relay_id.as_str(), relay_id),
            None => false,
        }
    }

    /// Takes in that the steps of a task could not be sent.
    pub fn on_weave_relay_submit_failed(&mut self, relay_id: &str, message: &str)
        ensures
            final(self)@ == old(self)@.relay_failed(relay_id@, message@),
    {
        if !self.has_relay(relay_id) {
            return;
        }
        let line = text::concat2("Failed to send Weave relay actions: ", message);
        self.add_error(line.as_str());
    }
}

// ---------------------------------------------------------------------------
// What the coordinator made of steps
// ---------------------------------------------------------------------------

/// What is said when the coordinator wants to be asked later.
pub open spec fn blocked_line(retry_after_ms: Option<u64>) -> Seq<char> {
    match retry_after_ms {
        Some(delay) => "Weave relay blocked; retry after "@ + text::decimal(delay as nat) + "ms."@,
        None => "Weave relay blocked."@,
    }
}

/// An optional text, trimmed; empty if there is none.
pub open spec fn trimmed_or_empty(s: Option<Seq<char>>) -> Seq<char> {
    match s {
        Some(s) => text::trimmed(s),
        None => seq![],
    }
}

/// What is said of a target that the coordinator has refused.
pub open spec fn refusal_line(failure: RelayFailure<Seq<char>>) -> Seq<char> {
    let dst = text::trimmed(failure.dst);
    let code = trimmed_or_empty(failure.code);
    let message = trimmed_or_empty(failure.message);
    let detail = if code.len() > 0 && message.len() > 0 {
        code + ": "@ + message
    } else if code.len() > 0 {
        code
    } else if message.len() > 0 {
        message
    } else {
        "relay target rejected"@
    };
    if dst.len() == 0 {
        detail
    } else {
        "Weave relay target "@ + dst + " rejected: "@ + detail
    }
}

/// Whether an action is this command.
pub open spec fn is_control(action: RelayedAction<Seq<char>>, command: Seq<char>) -> bool {
    action.action_type == "control"@ && action.command == Some(command)
}

/// What is remembered of an action that was passed on.
pub open spec fn pending_of(
    action: RelayedAction<Seq<char>>,
    group_id: Seq<char>,
) -> WeavePendingAction<Seq<char>> {
    WeavePendingAction {
        group_id,
        expects_reply: action.action_type == "message"@ && action.reply_policy == Some("sender"@),
        step_id: Some(action.step_id),
    }
}

impl ChatView {
    /// With the targets told that were refused.
    pub open spec fn tell_refusals(self, failures: Seq<RelayFailure<Seq<char>>>) -> ChatView
        decreases failures.len(),
    {
        if failures.len() == 0 {
            self
        } else {
            self.tell_refusals(failures.drop_last()).error(refusal_line(failures.last()))
        }
    }

    /// With the plan showing that an action was given to a step.
    pub open spec fn start_step(self, step_id: Seq<char>) -> (ChatView, bool) {
        let step = text::trimmed(step_id);
        if step.len() > 0 {
            self.plan_started(step)
        } else {
            (self, false)
        }
    }

    /// With the action that has an agent start a new session.
    #[verifier::opaque]
    pub open spec fn await_new_session(self, id: Seq<char>, action_id: Seq<char>) -> ChatView {
        match self.target(id) {
            Some(state) => self.with_target(
                id,
                TargetStateView { pending_new_action_id: Some(action_id), ..state },
            ),
            None => self,
        }
    }

    /// With an action that was passed on to an agent, and whether the plan looks
    /// different.
    #[verifier::opaque]
    pub open spec fn accept_action(
        self,
        id: Seq<char>,
        group_id: Seq<char>,
        action: RelayedAction<Seq<char>>,
        tape: Tape,
    ) -> (ChatView, bool) {
        let (started, changed) = self.start_step(action.step_id);
        let registered = started.register_action(
            id,
            action.action_id,
            pending_of(action, group_id),
            tape,
        );
        (
            if is_control(action, "new"@) {
                registered.await_new_session(id, action.action_id)
            } else {
                registered
            },
            changed,
        )
    }

    /// With the actions that were passed on to an agent.
    pub open spec fn accept_actions(
        self,
        id: Seq<char>,
        group_id: Seq<char>,
        actions: Seq<RelayedAction<Seq<char>>>,
        tape: Tape,
    ) -> (ChatView, bool)
        decreases actions.len(),
    {
        if actions.len() == 0 {
            (self, false)
        } else {
            let (before, changed) = self.accept_actions(id, group_id, actions.drop_last(), tape);
            let (after, changes) = before.accept_action(id, group_id, actions.last(), tape);
            (after, changed || changes)
        }
    }

    /// With the conversation with an agent as the coordinator has it.
    #[verifier::opaque]
    pub open spec fn settle_target(self, target: RelayedTargetView, tape: Tape) -> ChatView {
        let with = self.with_conversation(target.target_id, tape);
        with.with_target(
            target.target_id,
            moved_state(with.target(target.target_id)->0, target.context_id, target.task_id),
        )
    }

    /// With what was passed on to an agent.
    #[verifier::opaque]
    pub open spec fn accept_target(self, target: RelayedTargetView, tape: Tape) -> (
        ChatView,
        bool,
    ) {
        let settled = self.settle_target(target, tape);
        match target.group_id {
            Some(group_id) => settled.accept_actions(
                target.target_id,
                group_id,
                target.actions,
                tape,
            ),
            None => (settled, false),
        }
    }

    /// With what was passed on to agents.
    pub open spec fn accept_targets(self, targets: Seq<RelayedTargetView>, tape: Tape) -> (
        ChatView,
        bool,
    )
        decreases targets.len(),
    {
        if targets.len() == 0 {
            (self, false)
        } else {
            let (before, changed) = self.accept_targets(targets.drop_last(), tape);
            let (after, changes) = before.accept_target(targets.last(), tape);
            (after, changed || changes)
        }
    }

    /// Without the agents that were interrupted; what waited for them may be
    /// said.
    #[verifier::opaque]
    pub open spec fn drop_interrupted(self, ids: Seq<Seq<char>>, tape: Tape) -> ChatView {
        let (left, dropped) = self.drop_targets(ids);
        if dropped {
            left.send_next(tape)
        } else {
            left
        }
    }

    /// After the coordinator has taken steps of the task at hand.
    #[verifier::opaque]
    pub open spec fn relay_accepted(
        self,
        relay_id: Seq<char>,
        accepted: RelayAcceptedView,
        tape: Tape,
    ) -> ChatView {
        if self.has_relay(relay_id) {
            let told = if accepted.status == Some("blocked"@) {
                self.error(blocked_line(accepted.retry_after_ms))
            } else {
                self
            };
            let (passed, changed) = told.tell_refusals(accepted.failures).accept_targets(
                accepted.targets,
                tape,
            );
            let left = passed.drop_interrupted(interrupted_targets(accepted.targets), tape);
            if changed {
                left.show_plan().finish_if_idle()
            } else {
                left.finish_if_idle()
            }
        } else {
            self
        }
    }
}

/// How often an interrupt was among the actions.
pub open spec fn interrupts_among(
    id: Seq<char>,
    actions: Seq<RelayedAction<Seq<char>>>,
) -> Seq<Seq<char>>
    decreases actions.len(),
{
    if actions.len() == 0 {
        seq![]
    } else if is_control(actions.last(), "interrupt"@) {
        interrupts_among(id, actions.drop_last()).push(id)
    } else {
        interrupts_among(id, actions.drop_last())
    }
}

/// The agents that an interrupt was passed on to.
pub open spec fn interrupted_targets(targets: Seq<RelayedTargetView>) -> Seq<Seq<char>>
    decreases targets.len(),
{
    if targets.len() == 0 {
        seq![]
    } else {
        let before = interrupted_targets(targets.drop_last());
        if targets.last().group_id is Some {
            before + interrupts_among(targets.last().target_id, targets.last().actions)
        } else {
            before
        }
    }
}

fn trim_or_empty(s: &Option<String>) -> (r: &str)
    ensures
        r@ == trimmed_or_empty(s.deep_view()),
{
    match s {
        Some(s) => text::trim(s.as_str()),
        None => {
            proof {
                reveal_strlit("");
                assert(""@ =~= seq![]);
            }
            ""
        },
    }
}

fn describe_refusal(failure: &RelayFailure) -> (r: String)
    ensures
        r@ == refusal_line(failure.deep_view()),
{
    let dst = text::trim(failure.dst.as_str());
    let code = trim_or_empty(&failure.code);
    let message = trim_or_empty(&failure.message);
    let detail = if !code.is_empty() && !message.is_empty() {
        text::concat3(code, ": ", message)
    } else if !code.is_empty() {
        code.to_owned()
    } else if !message.is_empty() {
        message.to_owned()
    } else {
        "relay target rejected".to_owned()
    };
    if dst.is_empty() {
        detail
    } else {
        let mut r = text::concat3("Weave relay target ", dst, " rejected: ");
        r.append(detail.as_str());
        r
    }
}

fn is_command(action: &RelayedAction, command: &str) -> (r: bool)
    ensures
        r == is_control(action.deep_view(), command@),
{
    text::same(action.action_type.as_str(), "control") && (match &action.command {
        Some(given) => text::same(given.as_str(), command),
        None => false,
    })
}

fn find_interrupted(accepted: &Vec<RelayedTarget>) -> (r: Vec<String>)
    ensures
        text::views(r@) == interrupted_targets(accepted.deep_view()),
{
    let mut r: Vec<String> = Vec::new();
    let ghost all = accepted.deep_view();
    proof {
        assert(text::views(r@) =~= Seq::<Seq<char>>::empty());
        assert(all.take(0) =~= Seq::<RelayedTargetView>::empty());
    }
    for i in 0..accepted.len()
        invariant
            all == accepted.deep_view(),
            text::views(r@) == interrupted_targets(all.take(i as int)),
    {
        proof {
            assert(all.take(i + 1).drop_last() =~= all.take(i as int));
            assert(all.take(i + 1).last() == accepted@[i as int].deep_view());
        }
        if accepted[i].group_id.is_some() {
            push_interrupts(&mut r, &accepted[i]);
        }
    }
    proof {
        assert(all.take(all.len() as int) =~= all);
    }
    r
}

fn push_interrupts(ids: &mut Vec<String>, target: &RelayedTarget)
    ensures
        text::views(final(ids)@) == text::views(old(ids)@) + interrupts_among(
            target.target_id@,
            target.actions.deep_view(),
        ),
{
    let ghost start = text::views(ids@);
    let ghost all = target.actions.deep_view();
    proof {
        assert(all.take(0) =~= Seq::<RelayedAction<Seq<char>>>::empty());
        assert(start + Seq::<Seq<char>>::empty() =~= start);
    }
    for i in 0..target.actions.len()
        invariant
            all == target.actions.deep_view(),
            text::views(ids@) == start + interrupts_among(target.target_id@, all.take(i as int)),
    {
        let ghost before = text::views(ids@);
        proof {
            assert(all.take(i + 1).drop_last() =~= all.take(i as int));
            assert(all.take(i + 1).last() == target.actions@[i as int].deep_view());
        }
        if is_command(&target.actions[i], "interrupt") {
            ids.push(target.target_id.clone());
            proof {
                assert(text::views(ids@) =~= before.push(target.target_id@));
                assert(text::views(ids@) =~= start + interrupts_among(
                    target.target_id@,
                    all.take(i + 1),
                ));
            }
        }
    }
    proof {
        assert(all.take(all.len() as int) =~= all);
    }
}

impl ChatWidget {
    fn tell_refusals(&mut self, failures: &Vec<RelayFailure>)
        ensures
            final(self)@ == old(self)@.tell_refusals(failures.deep_view()),
            final(self)@.ids == old(self)@.ids,
    {
        let ghost all = failures.deep_view();
        let ghost start = self@;
        proof {
            assert(all.take(0) =~= Seq::<RelayFailure<Seq<char>>>::empty());
        }
        for i in 0..failures.len()
            invariant
                all == failures.deep_view(),
                self@ == start.tell_refusals(all.take(i as int)),
                self@.ids == start.ids,
        {
            proof {
                assert(all.take(i + 1).drop_last() =~= all.take(i as int));
                assert(all.take(i + 1).last() == failures@[i as int].deep_view());
            }
            let line = describe_refusal(&failures[i]);
            let ghost before = self@;
            self.add_error(line.as_str());
            proof {
                frames::lemma_error(before, line@);
                frames::lemma_same_but_task(before, self@);
            }
        }
        proof {
            assert(all.take(all.len() as int) =~= all);
        }
    }

    fn start_step(&mut self, step_id: &str) -> (changed: bool)
        ensures
            (final(self)@, changed) == old(self)@.start_step(step_id@),
            final(self)@.ids == old(self)@.ids,
    {
        let step = text::trim(step_id);
        if step.is_empty() {
            return false;
        }
        proof {
            reveal(ChatView::plan_started);
        }
        self.mark_weave_plan_action_started(step)
    }

    fn await_new_session(&mut self, id: &str, action_id: &str)
        ensures
            final(self)@ == old(self)@.await_new_session(id@, action_id@),
            final(self)@.ids == old(self)@.ids,
    {
        proof {
            reveal(ChatView::await_new_session);
        }
        let state = match self.find_target(id) {
            Some(state) => state.with_new_action(action_id),
            None => return,
        };
        let ghost before = self@;
        self.put_target(id, state);
        proof {
            frames::lemma_with_target(before, id@, state.deep_view());
            frames::lemma_same_but_task(before, self@);
        }
    }

    fn accept_action(&mut self, id: &str, group_id: &str, action: &RelayedAction) -> (changed: bool)
        ensures
            state::extends(final(self)@.ids, old(self)@.ids),
            forall|tape: Tape|
                state::extends(tape, final(self)@.ids) ==> #[trigger] old(self)@.accept_action(
                    id@,
                    group_id@,
                    action.deep_view(),
                    tape,
                ) == (final(self)@, changed),
    {
        proof {
            reveal(ChatView::accept_action);
        }
        let changed = self.start_step(action.step_id.as_str());
        let asks = match &action.reply_policy {
            Some(policy) => text::same(policy.as_str(), "sender"),
            None => false,
        };
        let pending = WeavePendingAction {
            group_id: group_id.to_owned(),
            expects_reply: text::same(action.action_type.as_str(), "message") && asks,
            step_id: Some(action.step_id.clone()),
        };
        self.register_pending_weave_action(id, action.action_id.as_str(), pending);
        if is_command(action, "new") {
            self.await_new_session(id, action.action_id.as_str());
        }
        changed
    }

    fn accept_actions(&mut self, id: &str, group_id: &str, actions: &Vec<RelayedAction>) -> (changed:
        bool)
        ensures
            state::extends(final(self)@.ids, old(self)@.ids),
            forall|tape: Tape|
                state::extends(tape, final(self)@.ids) ==> #[trigger] old(self)@.accept_actions(
                    id@,
                    group_id@,
                    actions.deep_view(),
                    tape,
                ) == (final(self)@, changed),
    {
        let ghost all = actions.deep_view();
        let ghost start = self@;
        let mut changed = false;
        proof {
            assert(all.take(0) =~= Seq::<RelayedAction<Seq<char>>>::empty());
        }
        let mut i: usize = 0;
        let ghost mut done = all.take(0);
        while i < actions.len()
            invariant
                all == actions.deep_view(),
                i <= actions@.len(),
                done == all.take(i as int),
                state::extends(self@.ids, start.ids),
                forall|tape: Tape|
                    state::extends(tape, self@.ids) ==> #[trigger] start.accept_actions(
                        id@,
                        group_id@,
                        done,
                        tape,
                    ) == (self@, changed),
            decreases actions@.len() - i,
        {
            let ghost before = self@;
            let ghost was = changed;
            if self.accept_action(id, group_id, &actions[i]) {
                changed = true;
            }
            proof {
                let more = all.take(i + 1);
                assert(more.drop_last() =~= done);
                assert(more.last() == actions@[i as int].deep_view());
                assert forall|tape: Tape| state::extends(
                    tape,
                    self@.ids,
                ) implies #[trigger] start.accept_actions(id@, group_id@, more, tape) == (
                    self@,
                    changed,
                ) by {
                    assert(start.accept_actions(id@, group_id@, done, tape) == (before, was));
                    assert(before.accept_action(id@, group_id@, more.last(), tape).0 == self@);
                }
                done = more;
            }
            i = i + 1;
        }
        proof {
            assert(all.take(all.len() as int) =~= all);
        }
        changed
    }

    fn settle_target(&mut self, target: &RelayedTarget)
        ensures
            state::extends(final(self)@.ids, old(self)@.ids),
            forall|tape: Tape|
                state::extends(tape, final(self)@.ids) ==> #[trigger] old(self)@.settle_target(
                    target.deep_view(),
                    tape,
                ) == final(self)@,
    {
        proof {
            reveal(ChatView::settle_target);
        }
        let id = target.target_id.as_str();
        self.ensure_target(id);
        let state = match self.find_target(id) {
            Some(state) => state.with_ids(
                either(&target.context_id, state.context_id.as_str()),
                either(&target.task_id, state.task_id.as_str()),
            ),
            None => return,
        };
        let ghost before = self@;
        self.put_target(id, state);
        proof {
            frames::lemma_with_target(before, id@, state.deep_view());
            frames::lemma_same_but_task(before, self@);
        }
    }

    fn accept_target(&mut self, target: &RelayedTarget) -> (changed: bool)
        ensures
            state::extends(final(self)@.ids, old(self)@.ids),
            forall|tape: Tape|
                state::extends(tape, final(self)@.ids) ==> #[trigger] old(self)@.accept_target(
                    target.deep_view(),
                    tape,
                ) == (final(self)@, changed),
    {
        proof {
            reveal(ChatView::accept_target);
        }
        self.settle_target(target);
        match &target.group_id {
            Some(group_id) => self.accept_actions(
                target.target_id.as_str(),
                group_id.as_str(),
                &target.actions,
            ),
            None => false,
        }
    }

    fn accept_targets(&mut self, accepted: &Vec<RelayedTarget>) -> (changed: bool)
        ensures
            state::extends(final(self)@.ids, old(self)@.ids),
            forall|tape: Tape|
                state::extends(tape, final(self)@.ids) ==> #[trigger] old(self)@.accept_targets(
                    accepted.deep_view(),
                    tape,
                ) == (final(self)@, changed),
    {
        let ghost all = accepted.deep_view();
        let ghost start = self@;
        let mut changed = false;
        proof {
            assert(all.take(0) =~= Seq::<RelayedTargetView>::empty());
        }
        let mut i: usize = 0;
        let ghost mut done = all.take(0);
        while i < accepted.len()
            invariant
                all == accepted.deep_view(),
                i <= accepted@.len(),
                done == all.take(i as int),
                state::extends(self@.ids, start.ids),
                forall|tape: Tape|
                    state::extends(tape, self@.ids) ==> #[trigger] start.accept_targets(done, tape)
                        == (self@, changed),
            decreases accepted@.len() - i,
        {
            let ghost before = self@;
            let ghost was = changed;
            if self.accept_target(&accepted[i]) {
                changed = true;
            }
            proof {
                let more = all.take(i + 1);
                assert(more.drop_last() =~= done);
                assert(more.last() == accepted@[i as int].deep_view());
                assert forall|tape: Tape| state::extends(
                    tape,
                    self@.ids,
                ) implies #[trigger] start.accept_targets(more, tape) == (self@, changed) by {
                    assert(start.accept_targets(done, tape) == (before, was));
                    assert(before.accept_target(more.last(), tape).0 == self@);
                }
                done = more;
            }
            i = i + 1;
        }
        proof {
            assert(all.take(all.len() as int) =~= all);
        }
        changed
    }

    fn drop_interrupted(&mut self, ids: &Vec<String>)
        ensures
            state::extends(final(self)@.ids, old(self)@.ids),
            forall|tape: Tape|
                state::extends(tape, final(self)@.ids) ==> #[trigger] old(self)@.drop_interrupted(
                    text::views(ids@),
                    tape,
                ) == final(self)@,
    {
        proof {
            reveal(ChatView::drop_interrupted);
        }
        let ghost start = self@;
        let dropped = self.drop_weave_relay_targets(ids);
        proof {
            frames::law_leaving_a_task_keeps_the_rest(start, text::views(ids@));
            frames::lemma_same_but_task(start, self@);
        }
        if dropped {
            self.maybe_send_next_queued_input();
        }
    }

    fn tell_blocked(&mut self, accepted: &WeaveRelayAccepted)
        ensures
            final(self)@ == (if accepted.status.deep_view() == Some("blocked"@) {
                old(self)@.error(blocked_line(accepted.retry_after_ms))
            } else {
                old(self)@
            }),
            final(self)@.ids == old(self)@.ids,
    {
        let blocked = match &accepted.status {
            Some(status) => text::same(status.as_str(), "blocked"),
            None => false,
        };
        if blocked {
            let line = match accepted.retry_after_ms {
                Some(delay) => {
                    let number = text::to_decimal(delay);
                    text::concat3("Weave relay blocked; retry after ", number.as_str(), "ms.")
                },
                None => "Weave relay blocked.".to_owned(),
            };
            let ghost start = self@;
            self.add_error(line.as_str());
            proof {
                frames::lemma_error(start, line@);
                frames::lemma_same_but_task(start, self@);
            }
        }
    }

    /// Takes in that the coordinator has taken steps of the task at hand.
    pub fn on_weave_relay_accepted(&mut self, relay_id: &str, accepted: &WeaveRelayAccepted)
        ensures
            state::extends(final(self)@.ids, old(self)@.ids),
            forall|tape: Tape|
                state::extends(tape, final(self)@.ids) ==> #[trigger] old(self)@.relay_accepted(
                    relay_id@,
                    accepted.deep_view(),
                    tape,
                ) == final(self)@,
    {
        proof {
            reveal(ChatView::relay_accepted);
        }
        if !self.has_relay(relay_id) {
            return;
        }
        self.tell_blocked(accepted);
        self.tell_refusals(&accepted.failures);
        let changed = self.accept_targets(&accepted.targets);
        let interrupted = find_interrupted(&accepted.targets);
        self.drop_interrupted(&interrupted);
        if changed {
            let ghost left = self@;
            self.emit_weave_plan_update();
            proof {
                frames::lemma_show_plan(left);
                frames::lemma_same_but_task(left, self@);
            }
        }
        let ghost shown = self@;
        self.maybe_finish_active_weave_relay();
        proof {
            frames::law_idle_task_keeps_the_rest(shown);
            frames::lemma_same_but_task(shown, self@);
        }
    }
}

/// Those of the texts that went to somebody.
pub open spec fn sent_logs(logs: Seq<OutboundLogView>) -> Seq<OutboundLogView>
    decreases logs.len(),
{
    if logs.len() == 0 {
        seq![]
    } else if logs.last().targets.len() == 0 {
        sent_logs(logs.drop_last())
    } else {
        sent_logs(logs.drop_last()).push(logs.last())
    }
}

fn copy_log(log: &OutboundLog) -> (r: OutboundLog)
    ensures
        r.deep_view() == log.deep_view(),
{
    let ghost all = log.targets.deep_view();
    let mut targets: Vec<(String, bool)> = Vec::new();
    proof {
        assert(targets.deep_view() =~= all.take(0));
    }
    for i in 0..log.targets.len()
        invariant
            all == log.targets.deep_view(),
            targets.deep_view() == all.take(i as int),
    {
        let ghost before = targets.deep_view();
        let target = (log.targets[i].0.clone(), log.targets[i].1);
        let ghost view = target.deep_view();
        targets.push(target);
        proof {
            assert(view == all[i as int]);
            assert(targets.deep_view() =~= before.push(view));
            assert(all.take(i + 1) =~= all.take(i as int).push(all[i as int]));
        }
    }
    proof {
        assert(all.take(all.len() as int) =~= all);
    }
    OutboundLog { text: log.text.clone(), targets }
}

impl WeaveRelayAccepted {
    /// What the transcript says of steps that were taken up: nothing while they
    /// are blocked.
    pub fn shown_logs(&self, logs: &Vec<OutboundLog>) -> (r: Vec<OutboundLog>)
        ensures
            r.deep_view() == (if self.status.deep_view() == Some("blocked"@) {
                seq![]
            } else {
                sent_logs(logs.deep_view())
            }),
    {
        let ghost all = logs.deep_view();
        let mut r: Vec<OutboundLog> = Vec::new();
        proof {
            assert(r.deep_view() =~= seq![]);
            assert(all.take(0) =~= Seq::<OutboundLogView>::empty());
        }
        let blocked = match &self.status {
            Some(status) => text::same(status.as_str(), "blocked"),
            None => false,
        };
        if blocked {
            return r;
        }
        for i in 0..logs.len()
            invariant
                all == logs.deep_view(),
                r.deep_view() == sent_logs(all.take(i as int)),
        {
            proof {
                assert(all.take(i + 1).drop_last() =~= all.take(i as int));
                assert(all.take(i + 1).last() == logs@[i as int].deep_view());
                assert(all.take(i + 1).last().targets.len() == logs@[i as int].targets@.len());
            }
            if logs[i].targets.len() > 0 {
                let log = copy_log(&logs[i]);
                let ghost before = r.deep_view();
                let ghost view = log.deep_view();
                r.push(log);
                proof {
                    assert(r.deep_view() =~= before.push(view));
                }
            }
        }
        proof {
            assert(all.take(all.len() as int) =~= all);
        }
        r
    }
}

/// Those that are interrupted by what was sent are the agents that were sent such a
/// command, and to which something was sent at all.
pub proof fn law_who_was_sent_an_interruption(
    id: Seq<char>,
    actions: Seq<RelayedAction<Seq<char>>>,
    action: RelayedAction<Seq<char>>,
    targets: Seq<RelayedTargetView>,
    target: RelayedTargetView,
)
    ensures
        interrupts_among(id, seq![]).len() == 0,
        interrupted_targets(seq![]).len() == 0,
        action.action_type == "control"@ && action.command == Some("interrupt"@)
            ==> interrupts_among(id, actions.push(action)) == interrupts_among(id, actions).push(
            id,
        ),
        action.action_type != "control"@ || action.command != Some("interrupt"@)
            ==> interrupts_among(id, actions.push(action)) == interrupts_among(id, actions),
        target.group_id is Some ==> interrupted_targets(targets.push(target))
            == interrupted_targets(targets) + interrupts_among(target.target_id, target.actions),
        target.group_id is None ==> interrupted_targets(targets.push(target))
            == interrupted_targets(targets),
{
    assert(actions.push(action).drop_last() =~= actions);
    assert(targets.push(target).drop_last() =~= targets);
}

/// The answer that is being written goes where the conversation with that agent has moved,
/// and nowhere else; what goes to another agent stays as it is.
pub proof fn law_an_answer_moves_with_its_conversation(
    chat: ChatView,
    sender_id: Seq<char>,
    result: ResultView,
    target: WeaveReplyTarget<Seq<char>>,
)
    requires
        chat.active_weave_reply_target == Some(target),
    ensures
        target.agent_id != sender_id ==> chat.move_reply(sender_id, result) == chat,
        target.agent_id == sender_id ==> ({
            let after = chat.move_reply(sender_id, result).active_weave_reply_target->0;
            &&& chat.move_reply(sender_id, result).active_weave_reply_target is Some
            &&& after.agent_id == sender_id
            &&& after.session_id == target.session_id
            &&& after.display_name == target.display_name
            &&& after.action_id == target.action_id
            &&& result.new_context_id is Some ==> after.conversation_id
                == result.new_context_id->0
            &&& result.new_context_id is None ==> after.conversation_id == target.conversation_id
            &&& result.new_task_id is Some ==> after.task_id == result.new_task_id
            &&& result.new_task_id is None ==> after.task_id == target.task_id
        }),
{
    reveal(ChatView::move_reply);
}

/// Who refused what is told: the agent, and all that it said about it.
pub proof fn law_a_refusal_says_why(
    failure: RelayFailure<Seq<char>>,
    code: Seq<char>,
    message: Seq<char>,
)
    requires
        !text::is_blank(failure.dst),
    ensures
        failure.code == Some(code) && failure.message == Some(message) && !text::is_blank(code)
            && !text::is_blank(message) ==> refusal_line(failure) == "Weave relay target "@
            + text::trimmed(failure.dst) + " rejected: "@ + (text::trimmed(code) + ": "@
            + text::trimmed(message)),
        failure.code is None && failure.message == Some(message) && !text::is_blank(message)
            ==> refusal_line(failure) == "Weave relay target "@ + text::trimmed(failure.dst)
            + " rejected: "@ + text::trimmed(message),
        failure.code == Some(code) && failure.message is None && !text::is_blank(code)
            ==> refusal_line(failure) == "Weave relay target "@ + text::trimmed(failure.dst)
            + " rejected: "@ + text::trimmed(code),
{
    text::law_white_space_counts_as_nothing(failure.dst);
    text::law_white_space_counts_as_nothing(code);
    text::law_white_space_counts_as_nothing(message);
}

} // verus!

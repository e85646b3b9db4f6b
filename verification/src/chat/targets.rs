//! What is known of the conversations with other agents: which actions they
//! have not finished, and which of them owe a reply.

use vstd::prelude::*;

use crate::chat::state;
use crate::chat::state::{ChatView, ChatWidget, Tape};
use crate::chat::types::{
    TargetStateView, WeavePendingAction, WeaveRelayTargetState, WeaveRelayTargets,
};
use crate::table;
use crate::table::Table;
use crate::text;

verus! {

/// The actions that an agent has not finished, by id.
pub type PendingTable = Seq<(Seq<char>, WeavePendingAction<Seq<char>>)>;

/// A conversation in which nothing was asked yet.
pub open spec fn new_state(context_id: Seq<char>, task_id: Seq<char>) -> TargetStateView {
    TargetStateView {
        context_id,
        task_id,
        pending_actions: seq![],
        last_action_id: None,
        pending_new_action_id: None,
    }
}

/// Whether one of the actions expects a reply.
pub open spec fn awaits_reply(pending: PendingTable) -> bool {
    exists|i: int| 0 <= i < pending.len() && (#[trigger] pending[i]).1.expects_reply
}

/// The steps of the plan that the actions belong to, one for each action that
/// belongs to one.
pub open spec fn steps_of(pending: PendingTable) -> Seq<Seq<char>>
    decreases pending.len(),
{
    if pending.len() == 0 {
        seq![]
    } else {
        match pending.last().1.step_id {
            Some(step) => steps_of(pending.drop_last()).push(step),
            None => steps_of(pending.drop_last()),
        }
    }
}

/// The actions that expect no reply, or those that do.
pub open spec fn replying(pending: PendingTable, reply: bool) -> PendingTable
    decreases pending.len(),
{
    if pending.len() == 0 {
        seq![]
    } else if pending.last().1.expects_reply == reply {
        replying(pending.drop_last(), reply).push(pending.last())
    } else {
        replying(pending.drop_last(), reply)
    }
}

/// The actions of a group, or those of all others.
pub open spec fn of_group(pending: PendingTable, group_id: Seq<char>, same: bool) -> PendingTable
    decreases pending.len(),
{
    if pending.len() == 0 {
        seq![]
    } else if (pending.last().1.group_id == group_id) == same {
        of_group(pending.drop_last(), group_id, same).push(pending.last())
    } else {
        of_group(pending.drop_last(), group_id, same)
    }
}

/// The action for a new session, if it is still among those not finished.
pub open spec fn still_pending(id: Option<Seq<char>>, pending: PendingTable) -> Option<Seq<char>> {
    match id {
        Some(id) => if table::has(pending, id) { Some(id) } else { None },
        None => None,
    }
}

impl ChatView {
    /// What is known of the conversation with an agent.
    pub open spec fn target(self, id: Seq<char>) -> Option<TargetStateView> {
        table::value_at(self.weave_target_states, id)
    }

    /// With this known of the conversation with an agent.
    #[verifier::opaque]
    pub open spec fn with_target(self, id: Seq<char>, state: TargetStateView) -> ChatView {
        ChatView {
            weave_target_states: table::with(self.weave_target_states, id, state),
            ..self
        }
    }

    /// Whether an agent owes a reply.
    pub open spec fn owes_reply(self, id: Seq<char>) -> bool {
        self.target(id) matches Some(state) && awaits_reply(state.pending_actions)
    }

    /// Whether one of these agents owes a reply.
    pub open spec fn owe_replies(self, ids: Seq<Seq<char>>) -> bool {
        exists|i: int| 0 <= i < ids.len() && self.owes_reply(#[trigger] ids[i])
    }

    /// With a conversation with an agent, a new one if there was none.
    #[verifier::opaque]
    pub open spec fn with_conversation(self, id: Seq<char>, tape: Tape) -> ChatView {
        if table::has(self.weave_target_states, id) {
            self
        } else {
            let first = self.drew(tape);
            let second = first.drew(tape);
            second.with_target(id, new_state(self.next_id(tape), first.next_id(tape)))
        }
    }

    /// With a new conversation with an agent.
    #[verifier::opaque]
    pub open spec fn reset_conversation(self, id: Seq<char>, tape: Tape) -> ChatView {
        let first = self.drew(tape);
        let second = first.drew(tape);
        second.with_target(id, new_state(self.next_id(tape), first.next_id(tape)))
    }

    /// With a new conversation with each of these agents.
    pub open spec fn reset_conversations(self, ids: Seq<Seq<char>>, tape: Tape) -> ChatView
        decreases ids.len(),
    {
        if ids.len() == 0 {
            self
        } else {
            self.reset_conversations(ids.drop_last(), tape).reset_conversation(ids.last(), tape)
        }
    }

    /// With the last action that an agent asked for.
    #[verifier::opaque]
    pub open spec fn note_last_action(
        self,
        id: Seq<char>,
        action_id: Seq<char>,
        tape: Tape,
    ) -> ChatView {
        let with = self.with_conversation(id, tape);
        with.with_target(
            id,
            TargetStateView { last_action_id: Some(action_id), ..with.target(id)->0 },
        )
    }

    /// With an action that an agent is to finish.
    #[verifier::opaque]
    pub open spec fn register_action(
        self,
        id: Seq<char>,
        action_id: Seq<char>,
        pending: WeavePendingAction<Seq<char>>,
        tape: Tape,
    ) -> ChatView {
        let with = self.with_conversation(id, tape);
        let state = with.target(id)->0;
        with.with_target(
            id,
            TargetStateView {
                pending_actions: table::with(state.pending_actions, action_id, pending),
                ..state
            },
        )
    }

    /// After an action of each of these steps has ended, and whether the plan
    /// looks different.
    pub open spec fn steps_ended(self, steps: Seq<Seq<char>>) -> (ChatView, bool)
        decreases steps.len(),
    {
        if steps.len() == 0 {
            (self, false)
        } else {
            let (before, changed) = self.steps_ended(steps.drop_last());
            let (after, changes) = before.plan_completed(steps.last());
            (after, changed || changes)
        }
    }

    /// After an action of each of these steps has ended; the plan is shown if it
    /// looks different.
    #[verifier::opaque]
    pub open spec fn end_steps(self, steps: Seq<Seq<char>>) -> ChatView {
        let (after, changed) = self.steps_ended(steps);
        if changed {
            after.show_plan()
        } else {
            after
        }
    }

    /// After an agent has finished an action, and whether that was open.
    #[verifier::opaque]
    pub open spec fn clear_action(self, id: Seq<char>, action_id: Seq<char>) -> (ChatView, bool) {
        match self.target(id) {
            Some(state) => match table::value_at(state.pending_actions, action_id) {
                Some(pending) => {
                    let state = TargetStateView {
                        pending_actions: table::without(state.pending_actions, action_id),
                        pending_new_action_id: if state.pending_new_action_id == Some(action_id) {
                            None
                        } else {
                            state.pending_new_action_id
                        },
                        ..state
                    };
                    let cleared = self.with_target(id, state);
                    (
                        match pending.step_id {
                            Some(step) => cleared.end_steps(seq![step]),
                            None => cleared,
                        },
                        true,
                    )
                },
                None => (self, false),
            },
            None => (self, false),
        }
    }

    /// With nothing left for an agent to finish; the plan is not shown yet.
    pub open spec fn forget_actions(self, id: Seq<char>) -> (ChatView, bool) {
        match self.target(id) {
            Some(state) => self.with_target(
                id,
                TargetStateView {
                    pending_actions: seq![],
                    pending_new_action_id: None,
                    ..state
                },
            ).steps_ended(steps_of(state.pending_actions)),
            None => (self, false),
        }
    }

    /// After an agent has finished a task, and whether something was open.
    #[verifier::opaque]
    pub open spec fn clear_task(self, id: Seq<char>, task_id: Seq<char>) -> (ChatView, bool) {
        match self.target(id) {
            Some(state) => if state.task_id == task_id && state.pending_actions.len() > 0 {
                let (after, changed) = self.forget_actions(id);
                (
                    if changed {
                        after.show_plan()
                    } else {
                        after
                    },
                    true,
                )
            } else {
                (self, false)
            },
            None => (self, false),
        }
    }

    /// With nothing left for these agents to finish; the plan is not shown yet.
    pub open spec fn forget_all_actions(self, ids: Seq<Seq<char>>) -> (ChatView, bool)
        decreases ids.len(),
    {
        if ids.len() == 0 {
            (self, false)
        } else {
            let (before, changed) = self.forget_all_actions(ids.drop_last());
            let (after, changes) = before.forget_actions(ids.last());
            (after, changed || changes)
        }
    }

    /// With nothing left for these agents to finish.
    #[verifier::opaque]
    pub open spec fn clear_targets(self, ids: Seq<Seq<char>>) -> ChatView {
        let (after, changed) = self.forget_all_actions(ids);
        if changed {
            after.show_plan()
        } else {
            after
        }
    }

    /// With only the actions of one group left for an agent to finish.
    #[verifier::opaque]
    pub open spec fn clear_other_groups(self, id: Seq<char>, group_id: Seq<char>) -> ChatView {
        match self.target(id) {
            Some(state) => {
                let kept = of_group(state.pending_actions, group_id, true);
                self.with_target(
                    id,
                    TargetStateView {
                        pending_actions: kept,
                        pending_new_action_id: still_pending(state.pending_new_action_id, kept),
                        ..state
                    },
                ).end_steps(steps_of(of_group(state.pending_actions, group_id, false)))
            },
            None => self,
        }
    }

    /// With no reply due from an agent, and whether one was.
    #[verifier::opaque]
    pub open spec fn clear_expectations(self, id: Seq<char>) -> (ChatView, bool) {
        match self.target(id) {
            Some(state) => {
                let kept = replying(state.pending_actions, false);
                (
                    self.with_target(
                        id,
                        TargetStateView {
                            pending_actions: kept,
                            pending_new_action_id: still_pending(
                                state.pending_new_action_id,
                                kept,
                            ),
                            ..state
                        },
                    ).end_steps(steps_of(replying(state.pending_actions, true))),
                    kept.len() != state.pending_actions.len(),
                )
            },
            None => (self, false),
        }
    }
}

// ---------------------------------------------------------------------------
// States
// ---------------------------------------------------------------------------

/// A conversation in which nothing was asked yet.
pub(super) fn fresh_state(context_id: String, task_id: String) -> (r: WeaveRelayTargetState)
    ensures
        r.deep_view() == new_state(context_id@, task_id@),
{
    let r = WeaveRelayTargetState {
        context_id,
        task_id,
        pending_actions: Table::new(),
        last_action_id: None,
        pending_new_action_id: None,
    };
    r
}

fn copy_pending(pending: &Table<WeavePendingAction>) -> (r: Table<WeavePendingAction>)
    ensures
        r.deep_view() == pending.deep_view(),
{
    let mut r: Table<WeavePendingAction> = Table::new();
    let ghost all = pending.deep_view();
    proof {
        assert(all.take(0) =~= r.deep_view());
    }
    let n: usize = pending.len();
    for i in 0..n
        invariant
            n == all.len(),
            all == pending.deep_view(),
            table::keys_differ(all),
            r.deep_view() == all.take(i as int),
    {
        proof {
            assert(all.take(i + 1) =~= all.take(i as int).push(all[i as int]));
        }
        r.add(pending.key(i).as_str(), pending.value(i).clone());
    }
    proof {
        assert(all.take(all.len() as int) =~= all);
    }
    r
}

impl WeaveRelayTargetState {
    /// Whether a reply is due.
    pub fn has_pending_reply(&self) -> (r: bool)
        ensures
            r == awaits_reply(self.deep_view().pending_actions),
    {
        let ghost all = self.pending_actions.deep_view();
        let n: usize = self.pending_actions.len();
        for i in 0..n
            invariant
                n == all.len(),
                all == self.pending_actions.deep_view(),
                forall|j: int| 0 <= j < i ==> !(#[trigger] all[j]).1.expects_reply,
        {
            if self.pending_actions.value(i).expects_reply {
                return true;
            }
        }
        false
    }

    /// A copy with other actions to finish, and another one for a new session.
    fn with_pending(
        &self,
        pending_actions: Table<WeavePendingAction>,
        pending_new_action_id: Option<String>,
    ) -> (r: WeaveRelayTargetState)
        ensures
            r.deep_view() == (TargetStateView {
                pending_actions: pending_actions.deep_view(),
                pending_new_action_id: pending_new_action_id.deep_view(),
                ..self.deep_view()
            }),
    {
        WeaveRelayTargetState {
            context_id: self.context_id.clone(),
            task_id: self.task_id.clone(),
            pending_actions,
            last_action_id: text::copy_option(&self.last_action_id),
            pending_new_action_id,
        }
    }

    /// A copy in another conversation.
    pub(super) fn with_ids(&self, context_id: String, task_id: String) -> (r:
        WeaveRelayTargetState)
        ensures
            r.deep_view() == (TargetStateView {
                context_id: context_id@,
                task_id: task_id@,
                ..self.deep_view()
            }),
    {
        WeaveRelayTargetState {
            context_id,
            task_id,
            pending_actions: copy_pending(&self.pending_actions),
            last_action_id: text::copy_option(&self.last_action_id),
            pending_new_action_id: text::copy_option(&self.pending_new_action_id),
        }
    }

    /// A copy with nothing to finish.
    pub(super) fn without_actions(&self) -> (r: WeaveRelayTargetState)
        ensures
            r.deep_view() == (TargetStateView {
                pending_actions: seq![],
                pending_new_action_id: None,
                ..self.deep_view()
            }),
    {
        self.with_pending(Table::new(), None)
    }

    /// A copy that waits for a new session.
    pub(super) fn with_new_action(&self, action_id: &str) -> (r: WeaveRelayTargetState)
        ensures
            r.deep_view() == (TargetStateView {
                pending_new_action_id: Some(action_id@),
                ..self.deep_view()
            }),
    {
        self.with_pending(copy_pending(&self.pending_actions), Some(action_id.to_owned()))
    }

    fn with_last_action(&self, action_id: &str) -> (r: WeaveRelayTargetState)
        ensures
            r.deep_view() == (TargetStateView {
                last_action_id: Some(action_id@),
                ..self.deep_view()
            }),
    {
        WeaveRelayTargetState {
            context_id: self.context_id.clone(),
            task_id: self.task_id.clone(),
            pending_actions: copy_pending(&self.pending_actions),
            last_action_id: Some(action_id.to_owned()),
            pending_new_action_id: text::copy_option(&self.pending_new_action_id),
        }
    }
}

fn step_ids(pending: &Table<WeavePendingAction>) -> (r: Vec<String>)
    ensures
        text::views(r@) == steps_of(pending.deep_view()),
{
    let mut r: Vec<String> = Vec::new();
    let ghost all = pending.deep_view();
    proof {
        assert(text::views(r@) =~= Seq::<Seq<char>>::empty());
        assert(all.take(0) =~= Seq::<(Seq<char>, WeavePendingAction<Seq<char>>)>::empty());
    }
    let n: usize = pending.len();
    for i in 0..n
        invariant
            n == all.len(),
            all == pending.deep_view(),
            text::views(r@) == steps_of(all.take(i as int)),
    {
        let ghost before = text::views(r@);
        proof {
            assert(all.take(i + 1).drop_last() =~= all.take(i as int));
            assert(all.take(i + 1).last() == all[i as int]);
        }
        match &pending.value(i).step_id {
            Some(step) => {
                r.push(step.clone());
                proof {
                    assert(text::views(r@) =~= before.push(step@));
                }
            },
            None => {},
        }
    }
    proof {
        assert(all.take(all.len() as int) =~= all);
    }
    r
}

fn split_by_reply(pending: &Table<WeavePendingAction>, reply: bool) -> (r: Table<
    WeavePendingAction,
>)
    ensures
        r.deep_view() == replying(pending.deep_view(), reply),
{
    let mut r: Table<WeavePendingAction> = Table::new();
    let ghost all = pending.deep_view();
    proof {
        assert(all.take(0) =~= Seq::<(Seq<char>, WeavePendingAction<Seq<char>>)>::empty());
    }
    let n: usize = pending.len();
    for i in 0..n
        invariant
            n == all.len(),
            all == pending.deep_view(),
            table::keys_differ(all),
            r.deep_view() == replying(all.take(i as int), reply),
            forall|j: int, k: int|
                0 <= j < r.deep_view().len() && i <= k < all.len() ==> (
                #[trigger] r.deep_view()[j]).0 != (#[trigger] all[k]).0,
    {
        proof {
            assert(all.take(i + 1).drop_last() =~= all.take(i as int));
            assert(all.take(i + 1).last() == all[i as int]);
        }
        if pending.value(i).expects_reply == reply {
            r.add(pending.key(i).as_str(), pending.value(i).clone());
        }
    }
    proof {
        assert(all.take(all.len() as int) =~= all);
    }
    r
}

fn split_by_group(
    pending: &Table<WeavePendingAction>,
    group_id: &str,
    same: bool,
) -> (r: Table<WeavePendingAction>)
    ensures
        r.deep_view() == of_group(pending.deep_view(), group_id@, same),
{
    let mut r: Table<WeavePendingAction> = Table::new();
    let ghost all = pending.deep_view();
    proof {
        assert(all.take(0) =~= Seq::<(Seq<char>, WeavePendingAction<Seq<char>>)>::empty());
    }
    let n: usize = pending.len();
    for i in 0..n
        invariant
            n == all.len(),
            all == pending.deep_view(),
            table::keys_differ(all),
            r.deep_view() == of_group(all.take(i as int), group_id@, same),
            forall|j: int, k: int|
                0 <= j < r.deep_view().len() && i <= k < all.len() ==> (
                #[trigger] r.deep_view()[j]).0 != (#[trigger] all[k]).0,
    {
        proof {
            assert(all.take(i + 1).drop_last() =~= all.take(i as int));
            assert(all.take(i + 1).last() == all[i as int]);
        }
        if text::same(pending.value(i).group_id.as_str(), group_id) == same {
            r.add(pending.key(i).as_str(), pending.value(i).clone());
        }
    }
    proof {
        assert(all.take(all.len() as int) =~= all);
    }
    r
}

fn keep_if_pending(
    id: &Option<String>,
    pending: &Table<WeavePendingAction>,
) -> (r: Option<String>)
    ensures
        r.deep_view() == still_pending(id.deep_view(), pending.deep_view()),
{
    match id {
        Some(id) => if pending.contains(id.as_str()) {
            Some(id.clone())
        } else {
            None
        },
        None => None,
    }
}

// ---------------------------------------------------------------------------
// The chat
// ---------------------------------------------------------------------------

impl ChatWidget {
    pub(super) fn put_target(&mut self, id: &str, state: WeaveRelayTargetState)
        ensures
            final(self)@ == old(self)@.with_target(id@, state.deep_view()),
    {
        let mut states = self.take_weave_target_states();
        states.put(id, state);
        self.put_weave_target_states(states);
        proof {
            reveal(ChatView::with_target);
        }
    }

    pub(super) fn find_target(&self, id: &str) -> (r: Option<&WeaveRelayTargetState>)
        ensures
            r.deep_view() == self@.target(id@),
    {
        self.get_weave_target_states().get(id)
    }

    pub(super) fn target_owes_reply(&self, id: &str) -> (r: bool)
        ensures
            r == self@.owes_reply(id@),
    {
        match self.find_target(id) {
            Some(state) => state.has_pending_reply(),
            None => false,
        }
    }

    pub(super) fn relay_has_pending_replies(&self, targets: &WeaveRelayTargets) -> (r: bool)
        ensures
            r == self@.owe_replies(targets.deep_view().target_ids),
    {
        let ghost ids = targets.deep_view().target_ids;
        for i in 0..targets.target_ids.len()
            invariant
                ids == text::views(targets.target_ids@),
                forall|j: int| 0 <= j < i ==> !self@.owes_reply(#[trigger] ids[j]),
        {
            proof {
                assert(ids[i as int] == targets.target_ids@[i as int]@);
            }
            if self.target_owes_reply(targets.target_ids[i].as_str()) {
                return true;
            }
        }
        false
    }

    pub(super) fn ensure_target(&mut self, id: &str)
        ensures
            state::extends(final(self)@.ids, old(self)@.ids),
            forall|tape: Tape|
                state::extends(tape, final(self)@.ids) ==> #[trigger] old(self)@.with_conversation(
                    id@,
                    tape,
                ) == final(self)@,
            table::has(final(self)@.weave_target_states, id@),
    {
        proof {
            reveal(ChatView::with_conversation);
        }
        if self.get_weave_target_states().contains(id) {
            return;
        }
        let context_id = self.draw_id();
        let task_id = self.draw_id();
        let ghost before = self@;
        self.put_target(id, fresh_state(context_id, task_id));
        proof {
            reveal(ChatView::with_target);
            table::law_with(before.weave_target_states, id@, new_state(context_id@, task_id@), id@);
        }
    }

    pub(super) fn reset_weave_relay_target(&mut self, id: &str)
        ensures
            state::extends(final(self)@.ids, old(self)@.ids),
            forall|tape: Tape|
                state::extends(tape, final(self)@.ids) ==> #[trigger] old(
                    self,
                )@.reset_conversation(id@, tape) == final(self)@,
    {
        proof {
            reveal(ChatView::reset_conversation);
        }
        let context_id = self.draw_id();
        let task_id = self.draw_id();
        self.put_target(id, fresh_state(context_id, task_id));
        proof {
            reveal(ChatView::with_target);
        }
    }

    pub(super) fn reset_weave_relay_targets(&mut self, ids: &Vec<String>)
        ensures
            state::extends(final(self)@.ids, old(self)@.ids),
            forall|tape: Tape|
                state::extends(tape, final(self)@.ids) ==> #[trigger] old(
                    self,
                )@.reset_conversations(text::views(ids@), tape) == final(self)@,
    {
        let ghost all = text::views(ids@);
        let ghost start = self@;
        proof {
            assert(all.take(0) =~= Seq::<Seq<char>>::empty());
        }
        let mut i: usize = 0;
        let ghost mut done = all.take(0);
        while i < ids.len()
            invariant
                all == text::views(ids@),
                i <= ids@.len(),
                done == all.take(i as int),
                state::extends(self@.ids, start.ids),
                forall|tape: Tape|
                    state::extends(tape, self@.ids) ==> #[trigger] start.reset_conversations(
                        done,
                        tape,
                    ) == self@,
            decreases ids@.len() - i,
        {
            let ghost before = self@;
            self.reset_weave_relay_target(ids[i].as_str());
            proof {
                let more = all.take(i + 1);
                assert(more.drop_last() =~= done);
                assert(more.last() == ids@[i as int]@);
                assert forall|tape: Tape| state::extends(
                    tape,
                    self@.ids,
                ) implies #[trigger] start.reset_conversations(more, tape) == self@ by {
                    assert(start.reset_conversations(done, tape) == before);
                    assert(before.reset_conversation(ids@[i as int]@, tape) == self@);
                }
                done = more;
            }
            i = i + 1;
        }
        proof {
            assert(all.take(all.len() as int) =~= all);
        }
    }

    pub(super) fn update_weave_target_last_action_id(&mut self, id: &str, action_id: &str)
        ensures
            state::extends(final(self)@.ids, old(self)@.ids),
            forall|tape: Tape|
                state::extends(tape, final(self)@.ids) ==> #[trigger] old(self)@.note_last_action(
                    id@,
                    action_id@,
                    tape,
                ) == final(self)@,
    {
        proof {
            reveal(ChatView::note_last_action);
        }
        self.ensure_target(id);
        let state = match self.find_target(id) {
            Some(state) => state.with_last_action(action_id),
            None => return,
        };
        self.put_target(id, state);
        proof {
            reveal(ChatView::with_target);
        }
    }

    pub(super) fn register_pending_weave_action(
        &mut self,
        id: &str,
        action_id: &str,
        pending: WeavePendingAction,
    )
        ensures
            state::extends(final(self)@.ids, old(self)@.ids),
            forall|tape: Tape|
                state::extends(tape, final(self)@.ids) ==> #[trigger] old(self)@.register_action(
                    id@,
                    action_id@,
                    pending.deep_view(),
                    tape,
                ) == final(self)@,
    {
        proof {
            reveal(ChatView::register_action);
        }
        self.ensure_target(id);
        let state = match self.find_target(id) {
            Some(state) => {
                let mut actions = copy_pending(&state.pending_actions);
                actions.put(action_id, pending);
                state.with_pending(actions, text::copy_option(&state.pending_new_action_id))
            },
            None => return,
        };
        self.put_target(id, state);
        proof {
            reveal(ChatView::with_target);
        }
    }

    fn mark_steps_ended(&mut self, steps: &Vec<String>) -> (changed: bool)
        ensures
            (final(self)@, changed) == old(self)@.steps_ended(text::views(steps@)),
    {
        let ghost all = text::views(steps@);
        let ghost start = self@;
        let mut changed = false;
        proof {
            assert(all.take(0) =~= Seq::<Seq<char>>::empty());
        }
        for i in 0..steps.len()
            invariant
                all == text::views(steps@),
                (self@, changed) == start.steps_ended(all.take(i as int)),
        {
            proof {
                assert(all.take(i + 1).drop_last() =~= all.take(i as int));
                assert(all.take(i + 1).last() == steps@[i as int]@);
            }
            if self.mark_weave_plan_action_completed(steps[i].as_str()) {
                changed = true;
            }
        }
        proof {
            assert(all.take(all.len() as int) =~= all);
        }
        changed
    }

    fn end_plan_steps(&mut self, steps: &Vec<String>)
        ensures
            final(self)@ == old(self)@.end_steps(text::views(steps@)),
    {
        proof {
            reveal(ChatView::end_steps);
        }
        if self.mark_steps_ended(steps) {
            self.emit_weave_plan_update();
        }
    }

    pub(super) fn clear_pending_weave_action(&mut self, id: &str, action_id: &str) -> (cleared:
        bool)
        ensures
            (final(self)@, cleared) == old(self)@.clear_action(id@, action_id@),
    {
        proof {
            reveal(ChatView::clear_action);
        }
        let mut steps: Vec<String> = Vec::new();
        let state = match self.find_target(id) {
            Some(state) => {
                match state.pending_actions.get(action_id) {
                    Some(pending) => match &pending.step_id {
                        Some(step) => steps.push(step.clone()),
                        None => {},
                    },
                    None => return false,
                }
                let mut actions = copy_pending(&state.pending_actions);
                let _ = actions.take(action_id);
                let new_action = match &state.pending_new_action_id {
                    Some(pending) => if text::same(pending.as_str(), action_id) {
                        None
                    } else {
                        Some(pending.clone())
                    },
                    None => None,
                };
                state.with_pending(actions, new_action)
            },
            None => return false,
        };
        self.put_target(id, state);
        if steps.len() > 0 {
            proof {
                assert(text::views(steps@) =~= seq![steps@[0]@]);
            }
            self.end_plan_steps(&steps);
        }
        true
    }

    fn forget_pending_weave_actions(&mut self, id: &str) -> (changed: bool)
        ensures
            (final(self)@, changed) == old(self)@.forget_actions(id@),
    {
        let (steps, state) = match self.find_target(id) {
            Some(state) => (step_ids(&state.pending_actions), state.without_actions()),
            None => return false,
        };
        self.put_target(id, state);
        self.mark_steps_ended(&steps)
    }

    pub(super) fn clear_pending_weave_actions_for_task(
        &mut self,
        id: &str,
        task_id: &str,
    ) -> (cleared: bool)
        ensures
            (final(self)@, cleared) == old(self)@.clear_task(id@, task_id@),
    {
        proof {
            reveal(ChatView::clear_task);
        }
        match self.find_target(id) {
            Some(state) => {
                if !text::same(state.task_id.as_str(), task_id) || state.pending_actions.len() == 0 {
                    return false;
                }
            },
            None => return false,
        }
        if self.forget_pending_weave_actions(id) {
            self.emit_weave_plan_update();
        }
        true
    }

    pub(super) fn clear_pending_weave_actions_for_targets(&mut self, ids: &Vec<String>)
        ensures
            final(self)@ == old(self)@.clear_targets(text::views(ids@)),
    {
        proof {
            reveal(ChatView::clear_targets);
        }
        let ghost all = text::views(ids@);
        let ghost start = self@;
        let mut changed = false;
        proof {
            assert(all.take(0) =~= Seq::<Seq<char>>::empty());
        }
        for i in 0..ids.len()
            invariant
                all == text::views(ids@),
                (self@, changed) == start.forget_all_actions(all.take(i as int)),
        {
            proof {
                assert(all.take(i + 1).drop_last() =~= all.take(i as int));
                assert(all.take(i + 1).last() == ids@[i as int]@);
            }
            if self.forget_pending_weave_actions(ids[i].as_str()) {
                changed = true;
            }
        }
        proof {
            assert(all.take(all.len() as int) =~= all);
        }
        if changed {
            self.emit_weave_plan_update();
        }
    }

    pub(super) fn clear_pending_weave_actions_except_group(&mut self, id: &str, group_id: &str)
        ensures
            final(self)@ == old(self)@.clear_other_groups(id@, group_id@),
    {
        proof {
            reveal(ChatView::clear_other_groups);
        }
        let (steps, state) = match self.find_target(id) {
            Some(state) => {
                let kept = split_by_group(&state.pending_actions, group_id, true);
                let gone = split_by_group(&state.pending_actions, group_id, false);
                let new_action = keep_if_pending(&state.pending_new_action_id, &kept);
                (step_ids(&gone), state.with_pending(kept, new_action))
            },
            None => return,
        };
        self.put_target(id, state);
        self.end_plan_steps(&steps);
    }

    pub(super) fn clear_pending_weave_reply_expectations_for_agent(&mut self, id: &str) -> (changed:
        bool)
        ensures
            (final(self)@, changed) == old(self)@.clear_expectations(id@),
    {
        proof {
            reveal(ChatView::clear_expectations);
        }
        let (steps, state, changed) = match self.find_target(id) {
            Some(state) => {
                let kept = split_by_reply(&state.pending_actions, false);
                let gone = split_by_reply(&state.pending_actions, true);
                let new_action = keep_if_pending(&state.pending_new_action_id, &kept);
                let changed = kept.len() != state.pending_actions.len();
                (step_ids(&gone), state.with_pending(kept, new_action), changed)
            },
            None => return false,
        };
        self.put_target(id, state);
        self.end_plan_steps(&steps);
        changed
    }
}

} // verus!

//! What happens to replies that are due when a conversation or a task is given
//! up.

use vstd::prelude::*;

use crate::chat::frames;
use crate::chat::relay;
use crate::chat::state::{ChatView, ChatWidget};
use crate::chat::steps;
use crate::chat::types::{
    EffectView, RelayTargetsView, SourceView, TargetStateView, UserMessage, UserMessageSource,
    UserMessageView, WeaveRelayTargets, WeaveReplyTarget,
};
use crate::client;
use crate::client::WeaveAgent;
use crate::text;

verus! {

// ---------------------------------------------------------------------------
// Conversations and senders that are given up
// ---------------------------------------------------------------------------

/// Whether a message is of this conversation.
pub open spec fn is_of_conversation(
    message: UserMessageView,
    conversation_id: Seq<char>,
    conversation_owner: Seq<char>,
) -> bool {
    message.source matches SourceView::Weave(weave) && weave.conversation_id == conversation_id
        && weave.conversation_owner == conversation_owner
}

/// The messages that are not of this conversation.
pub open spec fn of_other_conversations(
    queue: Seq<UserMessageView>,
    conversation_id: Seq<char>,
    conversation_owner: Seq<char>,
) -> Seq<UserMessageView>
    decreases queue.len(),
{
    if queue.len() == 0 {
        seq![]
    } else {
        let before = of_other_conversations(
            queue.drop_last(),
            conversation_id,
            conversation_owner,
        );
        if is_of_conversation(queue.last(), conversation_id, conversation_owner) {
            before
        } else {
            before.push(queue.last())
        }
    }
}

/// Whether a message is from this agent, or of a conversation that it owns.
pub open spec fn is_of_sender(message: UserMessageView, sender_id: Seq<char>) -> bool {
    message.source matches SourceView::Weave(weave) && (weave.conversation_owner == sender_id
        || weave.reply_target.agent_id == sender_id)
}

/// The messages that are not of this agent.
pub open spec fn of_other_senders(
    queue: Seq<UserMessageView>,
    sender_id: Seq<char>,
) -> Seq<UserMessageView>
    decreases queue.len(),
{
    if queue.len() == 0 {
        seq![]
    } else {
        let before = of_other_senders(queue.drop_last(), sender_id);
        if is_of_sender(queue.last(), sender_id) {
            before
        } else {
            before.push(queue.last())
        }
    }
}

/// Whether a reply is for this conversation.
pub open spec fn answers_conversation(
    target: Option<WeaveReplyTarget<Seq<char>>>,
    conversation_id: Seq<char>,
    conversation_owner: Seq<char>,
) -> bool {
    target matches Some(target) && target.conversation_id == conversation_id
        && target.conversation_owner == conversation_owner
}

/// Whether a reply is for this agent, or for a conversation that it owns.
pub open spec fn answers_sender(
    target: Option<WeaveReplyTarget<Seq<char>>>,
    sender_id: Seq<char>,
) -> bool {
    target matches Some(target) && (target.conversation_owner == sender_id || target.agent_id
        == sender_id)
}

impl ChatView {
    /// With this in the queue, which is shown if it looks different.
    pub open spec fn with_queue(self, queue: Seq<UserMessageView>, shown: bool) -> ChatView {
        let with = ChatView { queued_user_messages: queue, ..self };
        if shown {
            with.refresh_queue()
        } else {
            with
        }
    }

    /// With nothing to say in this conversation.
    #[verifier::opaque]
    pub open spec fn drop_conversation(
        self,
        conversation_id: Seq<char>,
        conversation_owner: Seq<char>,
    ) -> ChatView {
        let kept = of_other_conversations(
            self.queued_user_messages,
            conversation_id,
            conversation_owner,
        );
        let without = if answers_conversation(
            self.active_weave_reply_target,
            conversation_id,
            conversation_owner,
        ) {
            ChatView { active_weave_reply_target: None, ..self }
        } else {
            self
        };
        without.with_queue(kept, kept.len() != self.queued_user_messages.len())
    }

    /// Whether something is to be said to this agent.
    pub open spec fn speaks_to(self, sender_id: Seq<char>) -> bool {
        answers_sender(self.active_weave_reply_target, sender_id) || of_other_senders(
            self.queued_user_messages,
            sender_id,
        ).len() != self.queued_user_messages.len()
    }

    /// With nothing to say to this agent.
    #[verifier::opaque]
    pub open spec fn drop_sender(self, sender_id: Seq<char>) -> ChatView {
        let without = if answers_sender(self.active_weave_reply_target, sender_id) {
            ChatView { active_weave_reply_target: None, ..self }
        } else {
            self
        };
        without.with_queue(
            of_other_senders(self.queued_user_messages, sender_id),
            self.speaks_to(sender_id),
        )
    }

    /// Whether the model works for this agent.
    pub open spec fn works_for(self, sender_id: Seq<char>) -> bool {
        self.active_weave_control_context matches Some(context) && context.sender_id == sender_id
    }

    /// Whether an interrupt of an agent stops the model.
    pub open spec fn stops_work(
        self,
        conversation_id: Seq<char>,
        conversation_owner: Seq<char>,
        sender_id: Seq<char>,
    ) -> bool {
        conversation_owner == sender_id && (self.works_for(sender_id) || (self.task_running
            || self.is_review_mode) && answers_conversation(
            self.active_weave_reply_target,
            conversation_id,
            conversation_owner,
        ))
    }

    /// Whether an agent that wants no more of the model stops it.
    pub open spec fn stops_work_for(self, sender_id: Seq<char>) -> bool {
        self.works_for(sender_id) || (self.task_running || self.is_review_mode) && answers_sender(
            self.active_weave_reply_target,
            sender_id,
        )
    }
}

fn keep_other_conversations(
    queue: &Vec<UserMessage>,
    conversation_id: &str,
    conversation_owner: &str,
) -> (r: Vec<UserMessage>)
    ensures
        r.deep_view() == of_other_conversations(
            queue.deep_view(),
            conversation_id@,
            conversation_owner@,
        ),
{
    let mut r: Vec<UserMessage> = Vec::new();
    let ghost all = queue.deep_view();
    proof {
        assert(r.deep_view() =~= seq![]);
        assert(all.take(0) =~= Seq::<UserMessageView>::empty());
    }
    for i in 0..queue.len()
        invariant
            all == queue.deep_view(),
            r.deep_view() == of_other_conversations(
                all.take(i as int),
                conversation_id@,
                conversation_owner@,
            ),
    {
        let ghost before = r.deep_view();
        proof {
            assert(all.take(i + 1).drop_last() =~= all.take(i as int));
            assert(all.take(i + 1).last() == queue@[i as int].deep_view());
        }
        let goes = match &queue[i].source {
            UserMessageSource::Weave(weave) => text::same(
                weave.conversation_id.as_str(),
                conversation_id,
            ) && text::same(weave.conversation_owner.as_str(), conversation_owner),
            UserMessageSource::Local => false,
        };
        if !goes {
            r.push(queue[i].clone());
            proof {
                assert(r.deep_view() =~= before.push(all[i as int]));
            }
        }
    }
    proof {
        assert(all.take(all.len() as int) =~= all);
    }
    r
}

fn keep_other_senders(queue: &Vec<UserMessage>, sender_id: &str) -> (r: Vec<UserMessage>)
    ensures
        r.deep_view() == of_other_senders(queue.deep_view(), sender_id@),
{
    let mut r: Vec<UserMessage> = Vec::new();
    let ghost all = queue.deep_view();
    proof {
        assert(r.deep_view() =~= seq![]);
        assert(all.take(0) =~= Seq::<UserMessageView>::empty());
    }
    for i in 0..queue.len()
        invariant
            all == queue.deep_view(),
            r.deep_view() == of_other_senders(all.take(i as int), sender_id@),
    {
        let ghost before = r.deep_view();
        proof {
            assert(all.take(i + 1).drop_last() =~= all.take(i as int));
            assert(all.take(i + 1).last() == queue@[i as int].deep_view());
        }
        let goes = match &queue[i].source {
            UserMessageSource::Weave(weave) => text::same(
                weave.conversation_owner.as_str(),
                sender_id,
            ) || text::same(weave.reply_target.agent_id.as_str(), sender_id),
            UserMessageSource::Local => false,
        };
        if !goes {
            r.push(queue[i].clone());
            proof {
                assert(r.deep_view() =~= before.push(all[i as int]));
            }
        }
    }
    proof {
        assert(all.take(all.len() as int) =~= all);
    }
    r
}

impl ChatWidget {
    fn replies_to_conversation(&self, conversation_id: &str, conversation_owner: &str) -> (r: bool)
        ensures
            r == answers_conversation(
                self@.active_weave_reply_target,
                conversation_id@,
                conversation_owner@,
            ),
    {
        match self.get_active_weave_reply_target() {
            Some(target) => text::same(target.conversation_id.as_str(), conversation_id)
                && text::same(target.conversation_owner.as_str(), conversation_owner),
            None => false,
        }
    }

    fn replies_to_sender(&self, sender_id: &str) -> (r: bool)
        ensures
            r == answers_sender(self@.active_weave_reply_target, sender_id@),
    {
        match self.get_active_weave_reply_target() {
            Some(target) => text::same(target.conversation_owner.as_str(), sender_id)
                || text::same(target.agent_id.as_str(), sender_id),
            None => false,
        }
    }

    fn set_queue(&mut self, queue: Vec<UserMessage>, shown: bool)
        ensures
            final(self)@ == old(self)@.with_queue(queue.deep_view(), shown),
            final(self)@.ids == old(self)@.ids,
    {
        self.put_queued_user_messages(queue);
        if shown {
            let ghost before = self@;
            self.refresh_queued_user_messages();
            proof {
                frames::lemma_refresh_queue(before);
                frames::lemma_same_but_task(before, self@);
            }
        }
    }

    pub(super) fn clear_weave_reply_state(
        &mut self,
        conversation_id: &str,
        conversation_owner: &str,
    )
        ensures
            final(self)@ == old(self)@.drop_conversation(conversation_id@, conversation_owner@),
            final(self)@.ids == old(self)@.ids,
    {
        proof {
            reveal(ChatView::drop_conversation);
        }
        let kept = keep_other_conversations(
            self.get_queued_user_messages(),
            conversation_id,
            conversation_owner,
        );
        let changed = kept.len() != self.get_queued_user_messages().len();
        if self.replies_to_conversation(conversation_id, conversation_owner) {
            self.put_active_weave_reply_target(None);
        }
        self.set_queue(kept, changed);
    }

    pub(super) fn clear_weave_reply_state_for_sender(&mut self, sender_id: &str) -> (changed: bool)
        ensures
            final(self)@ == old(self)@.drop_sender(sender_id@),
            final(self)@.ids == old(self)@.ids,
            changed == old(self)@.speaks_to(sender_id@),
    {
        proof {
            reveal(ChatView::drop_sender);
        }
        let kept = keep_other_senders(self.get_queued_user_messages(), sender_id);
        let mut changed = kept.len() != self.get_queued_user_messages().len();
        if self.replies_to_sender(sender_id) {
            self.put_active_weave_reply_target(None);
            changed = true;
        }
        self.set_queue(kept, changed);
        changed
    }

    pub(super) fn works_for_sender(&self, sender_id: &str) -> (r: bool)
        ensures
            r == self@.works_for(sender_id@),
    {
        match self.get_active_weave_control_context() {
            Some(context) => text::same(context.sender_id.as_str(), sender_id),
            None => false,
        }
    }

    pub(super) fn should_interrupt_on_interrupt(
        &self,
        conversation_id: &str,
        conversation_owner: &str,
        sender_id: &str,
    ) -> (r: bool)
        ensures
            r == self@.stops_work(conversation_id@, conversation_owner@, sender_id@),
    {
        if !text::same(conversation_owner, sender_id) {
            return false;
        }
        if self.works_for_sender(sender_id) {
            return true;
        }
        (self.get_task_running() || self.get_is_review_mode()) && self.replies_to_conversation(
            conversation_id,
            conversation_owner,
        )
    }

    pub(super) fn should_interrupt_for_sender_interrupt(&self, sender_id: &str) -> (r: bool)
        ensures
            r == self@.stops_work_for(sender_id@),
    {
        if self.works_for_sender(sender_id) {
            return true;
        }
        (self.get_task_running() || self.get_is_review_mode()) && self.replies_to_sender(sender_id)
    }
}

// ---------------------------------------------------------------------------
// Agents that leave the task
// ---------------------------------------------------------------------------

/// The ids but for one.
pub open spec fn without_id(ids: Seq<Seq<char>>, id: Seq<char>) -> Seq<Seq<char>>
    decreases ids.len(),
{
    if ids.len() == 0 {
        seq![]
    } else if ids.last() == id {
        without_id(ids.drop_last(), id)
    } else {
        without_id(ids.drop_last(), id).push(ids.last())
    }
}

/// What is left of the ids without those in `drop`, and which of those were
/// there.
pub open spec fn removed_from(ids: Seq<Seq<char>>, drop: Seq<Seq<char>>) -> (
    Seq<Seq<char>>,
    Seq<Seq<char>>,
)
    decreases drop.len(),
{
    if drop.len() == 0 {
        (ids, seq![])
    } else {
        let (left, gone) = removed_from(ids, drop.drop_last());
        if relay::holds_id(left, drop.last()) {
            (without_id(left, drop.last()), gone.push(drop.last()))
        } else {
            (left, gone)
        }
    }
}

/// The contexts in which one speaks with these agents.
pub open spec fn contexts_of(
    states: Seq<(Seq<char>, TargetStateView)>,
    ids: Seq<Seq<char>>,
) -> Seq<Seq<char>>
    decreases ids.len(),
{
    if ids.len() == 0 {
        seq![]
    } else {
        let before = contexts_of(states, ids.drop_last());
        match crate::table::value_at(states, ids.last()) {
            Some(state) => before.push(state.context_id),
            None => before,
        }
    }
}

impl ChatView {
    /// With nothing left for an agent to do; the plan stays as it is.
    #[verifier::opaque]
    pub open spec fn quiet(self, id: Seq<char>) -> ChatView {
        match self.target(id) {
            Some(state) => self.with_target(
                id,
                TargetStateView { pending_actions: seq![], pending_new_action_id: None, ..state },
            ),
            None => self,
        }
    }

    /// With nothing left for these agents to do; the plan stays as it is.
    pub open spec fn quiet_all(self, ids: Seq<Seq<char>>) -> ChatView
        decreases ids.len(),
    {
        if ids.len() == 0 {
            self
        } else {
            self.quiet_all(ids.drop_last()).quiet(ids.last())
        }
    }

    /// Without these agents in the task at hand, and whether one of them was in
    /// it. The task ends with the last one.
    #[verifier::opaque]
    pub open spec fn drop_targets(self, ids: Seq<Seq<char>>) -> (ChatView, bool) {
        match self.active_weave_relay {
            Some(relay) => {
                let (left, gone) = removed_from(relay.target_ids, ids);
                if gone.len() == 0 {
                    (self, false)
                } else {
                    let smaller = RelayTargetsView { target_ids: left, ..relay };
                    let quiet = (ChatView {
                        active_weave_relay: Some(smaller),
                        ..self
                    }).quiet_all(gone).refresh_label();
                    (
                        if left.len() == 0 {
                            quiet.end_prompt().finish_task(smaller, None)
                        } else {
                            quiet
                        },
                        true,
                    )
                }
            },
            None => (self, false),
        }
    }

    /// With nothing to say in these conversations.
    pub open spec fn drop_conversations(
        self,
        contexts: Seq<Seq<char>>,
        conversation_owner: Seq<char>,
    ) -> ChatView
        decreases contexts.len(),
    {
        if contexts.len() == 0 {
            self
        } else {
            self.drop_conversations(contexts.drop_last(), conversation_owner).drop_conversation(
                contexts.last(),
                conversation_owner,
            )
        }
    }

    /// With an interrupt on its way to each of these agents that was spoken to.
    pub open spec fn interrupt_agents(
        self,
        agents: Seq<WeaveAgent<Seq<char>>>,
        session_id: Seq<char>,
        conversation_owner: Seq<char>,
    ) -> ChatView
        decreases agents.len(),
    {
        if agents.len() == 0 {
            self
        } else {
            self.interrupt_agents(
                agents.drop_last(),
                session_id,
                conversation_owner,
            ).interrupt_agent(agents.last(), session_id, conversation_owner)
        }
    }

    /// With an interrupt on its way to an agent, if it was spoken to.
    #[verifier::opaque]
    pub open spec fn interrupt_agent(
        self,
        agent: WeaveAgent<Seq<char>>,
        session_id: Seq<char>,
        conversation_owner: Seq<char>,
    ) -> ChatView {
        match self.target(agent.id) {
            Some(state) => self.send_interrupt(
                WeaveReplyTarget {
                    session_id,
                    agent_id: agent.id,
                    display_name: client::shown_name(agent.id, agent.name),
                    conversation_id: state.context_id,
                    conversation_owner,
                    parent_message_id: None,
                    task_id: Some(state.task_id),
                    action_group_id: None,
                    action_id: None,
                    action_index: None,
                },
            ),
            None => self,
        }
    }

    /// After the user has stopped a task: nothing of it is left, and the agents
    /// that take part are interrupted.
    #[verifier::opaque]
    pub open spec fn cancel_task(self, targets: RelayTargetsView) -> ChatView {
        let without = self.without_task().clear_targets(targets.target_ids).refresh_label();
        let quiet = without.drop_conversations(
            contexts_of(without.weave_target_states, targets.target_ids),
            targets.owner_id,
        );
        match (quiet.selected_weave_session_id, quiet.weave_agents) {
            (Some(session_id), Some(agents)) => quiet.interrupt_agents(
                steps::taking_part(agents, targets),
                session_id,
                targets.owner_id,
            ),
            _ => quiet,
        }
    }
}

pub(super) fn drop_id(ids: &Vec<String>, id: &str) -> (r: Vec<String>)
    ensures
        text::views(r@) == without_id(text::views(ids@), id@),
{
    let mut r: Vec<String> = Vec::new();
    let ghost all = text::views(ids@);
    proof {
        assert(text::views(r@) =~= Seq::<Seq<char>>::empty());
        assert(all.take(0) =~= Seq::<Seq<char>>::empty());
    }
    for i in 0..ids.len()
        invariant
            all == text::views(ids@),
            text::views(r@) == without_id(all.take(i as int), id@),
    {
        let ghost before = text::views(r@);
        proof {
            assert(all.take(i + 1).drop_last() =~= all.take(i as int));
            assert(all.take(i + 1).last() == ids@[i as int]@);
        }
        if !text::same(ids[i].as_str(), id) {
            r.push(ids[i].clone());
            proof {
                assert(text::views(r@) =~= before.push(ids@[i as int]@));
            }
        }
    }
    proof {
        assert(all.take(all.len() as int) =~= all);
    }
    r
}

fn remove_ids(ids: &Vec<String>, drop: &Vec<String>) -> (r: (Vec<String>, Vec<String>))
    ensures
        (text::views(r.0@), text::views(r.1@)) == removed_from(
            text::views(ids@),
            text::views(drop@),
        ),
{
    let mut left = text::copy_list(ids);
    let mut gone: Vec<String> = Vec::new();
    let ghost all = text::views(drop@);
    let ghost from = text::views(ids@);
    proof {
        assert(text::views(gone@) =~= Seq::<Seq<char>>::empty());
        assert(all.take(0) =~= Seq::<Seq<char>>::empty());
    }
    for i in 0..drop.len()
        invariant
            all == text::views(drop@),
            (text::views(left@), text::views(gone@)) == removed_from(from, all.take(i as int)),
    {
        let ghost before = text::views(gone@);
        proof {
            assert(all.take(i + 1).drop_last() =~= all.take(i as int));
            assert(all.take(i + 1).last() == drop@[i as int]@);
        }
        if relay::contains_id(&left, drop[i].as_str()) {
            left = drop_id(&left, drop[i].as_str());
            gone.push(drop[i].clone());
            proof {
                assert(text::views(gone@) =~= before.push(drop@[i as int]@));
            }
        }
    }
    proof {
        assert(all.take(all.len() as int) =~= all);
    }
    (left, gone)
}

impl ChatWidget {
    fn quiet_target(&mut self, id: &str)
        ensures
            final(self)@ == old(self)@.quiet(id@),
    {
        proof {
            reveal(ChatView::quiet);
        }
        let state = match self.find_target(id) {
            Some(state) => state.without_actions(),
            None => return,
        };
        self.put_target(id, state);
    }

    fn quiet_targets(&mut self, ids: &Vec<String>)
        ensures
            final(self)@ == old(self)@.quiet_all(text::views(ids@)),
    {
        let ghost all = text::views(ids@);
        let ghost start = self@;
        proof {
            assert(all.take(0) =~= Seq::<Seq<char>>::empty());
        }
        for i in 0..ids.len()
            invariant
                all == text::views(ids@),
                self@ == start.quiet_all(all.take(i as int)),
        {
            proof {
                assert(all.take(i + 1).drop_last() =~= all.take(i as int));
                assert(all.take(i + 1).last() == ids@[i as int]@);
            }
            self.quiet_target(ids[i].as_str());
        }
        proof {
            assert(all.take(all.len() as int) =~= all);
        }
    }

    pub(super) fn drop_weave_relay_targets(&mut self, ids: &Vec<String>) -> (dropped: bool)
        ensures
            (final(self)@, dropped) == old(self)@.drop_targets(text::views(ids@)),
    {
        proof {
            reveal(ChatView::drop_targets);
        }
        let (smaller, gone) = match self.get_active_weave_relay() {
            Some(relay) => {
                let (left, gone) = remove_ids(&relay.target_ids, ids);
                proof {
                    assert(text::views(gone@).len() == gone@.len());
                }
                if gone.len() == 0 {
                    return false;
                }
                let smaller = WeaveRelayTargets {
                    owner_id: relay.owner_id.clone(),
                    relay_id: relay.relay_id.clone(),
                    target_ids: left,
                };
                (smaller, gone)
            },
            None => return false,
        };
        self.put_active_weave_relay(Some(smaller.clone()));
        self.quiet_targets(&gone);
        self.refresh_weave_session_label();
        proof {
            assert(text::views(smaller.target_ids@).len() == smaller.target_ids@.len());
        }
        if smaller.target_ids.len() == 0 {
            self.end_weave_relay_prompt();
            self.finish_weave_task(&smaller, None);
        }
        true
    }

    fn contexts_with(&self, ids: &Vec<String>) -> (r: Vec<String>)
        ensures
            text::views(r@) == contexts_of(self@.weave_target_states, text::views(ids@)),
    {
        let mut r: Vec<String> = Vec::new();
        let ghost all = text::views(ids@);
        proof {
            assert(text::views(r@) =~= Seq::<Seq<char>>::empty());
            assert(all.take(0) =~= Seq::<Seq<char>>::empty());
        }
        for i in 0..ids.len()
            invariant
                all == text::views(ids@),
                text::views(r@) == contexts_of(self@.weave_target_states, all.take(i as int)),
        {
            let ghost before = text::views(r@);
            proof {
                assert(all.take(i + 1).drop_last() =~= all.take(i as int));
                assert(all.take(i + 1).last() == ids@[i as int]@);
            }
            match self.find_target(ids[i].as_str()) {
                Some(state) => {
                    r.push(state.context_id.clone());
                    proof {
                        assert(text::views(r@) =~= before.push(state.context_id@));
                    }
                },
                None => {},
            }
        }
        proof {
            assert(all.take(all.len() as int) =~= all);
        }
        r
    }

    fn clear_conversations(&mut self, contexts: &Vec<String>, conversation_owner: &str)
        ensures
            final(self)@ == old(self)@.drop_conversations(
                text::views(contexts@),
                conversation_owner@,
            ),
            final(self)@.ids == old(self)@.ids,
    {
        let ghost all = text::views(contexts@);
        let ghost start = self@;
        proof {
            assert(all.take(0) =~= Seq::<Seq<char>>::empty());
        }
        for i in 0..contexts.len()
            invariant
                all == text::views(contexts@),
                self@ == start.drop_conversations(all.take(i as int), conversation_owner@),
                self@.ids == start.ids,
        {
            proof {
                assert(all.take(i + 1).drop_last() =~= all.take(i as int));
                assert(all.take(i + 1).last() == contexts@[i as int]@);
            }
            self.clear_weave_reply_state(contexts[i].as_str(), conversation_owner);
        }
        proof {
            assert(all.take(all.len() as int) =~= all);
        }
    }

    fn interrupt_weave_agent(
        &mut self,
        agent: &WeaveAgent,
        session_id: &str,
        conversation_owner: &str,
    )
        ensures
            final(self)@ == old(self)@.interrupt_agent(
                agent.deep_view(),
                session_id@,
                conversation_owner@,
            ),
            final(self)@.ids == old(self)@.ids,
    {
        proof {
            reveal(ChatView::interrupt_agent);
        }
        let target = match self.find_target(agent.id.as_str()) {
            Some(state) => WeaveReplyTarget {
                session_id: session_id.to_owned(),
                agent_id: agent.id.clone(),
                display_name: agent.display_name(),
                conversation_id: state.context_id.clone(),
                conversation_owner: conversation_owner.to_owned(),
                parent_message_id: None,
                task_id: Some(state.task_id.clone()),
                action_group_id: None,
                action_id: None,
                action_index: None,
            },
            None => return,
        };
        self.send_weave_interrupt(target);
    }

    fn interrupt_weave_agents(
        &mut self,
        agents: &Vec<WeaveAgent>,
        session_id: &str,
        conversation_owner: &str,
    )
        ensures
            final(self)@ == old(self)@.interrupt_agents(
                agents.deep_view(),
                session_id@,
                conversation_owner@,
            ),
            final(self)@.ids == old(self)@.ids,
    {
        let ghost all = agents.deep_view();
        let ghost start = self@;
        proof {
            assert(all.take(0) =~= Seq::<WeaveAgent<Seq<char>>>::empty());
        }
        for i in 0..agents.len()
            invariant
                all == agents.deep_view(),
                self@ == start.interrupt_agents(
                    all.take(i as int),
                    session_id@,
                    conversation_owner@,
                ),
                self@.ids == start.ids,
        {
            proof {
                assert(all.take(i + 1).drop_last() =~= all.take(i as int));
                assert(all.take(i + 1).last() == agents@[i as int].deep_view());
            }
            self.interrupt_weave_agent(&agents[i], session_id, conversation_owner);
        }
        proof {
            assert(all.take(all.len() as int) =~= all);
        }
    }

    pub(super) fn cancel_active_weave_task_on_interrupt(&mut self, targets: &WeaveRelayTargets)
        ensures
            final(self)@ == old(self)@.cancel_task(targets.deep_view()),
            final(self)@.ids == old(self)@.ids,
    {
        proof {
            reveal(ChatView::cancel_task);
        }
        self.forget_weave_task();
        let ghost forgotten = self@;
        self.clear_pending_weave_actions_for_targets(&targets.target_ids);
        let ghost cleared = self@;
        self.refresh_weave_session_label();
        proof {
            frames::law_clearing_targets_keeps_the_rest(forgotten, targets.deep_view().target_ids);
            frames::lemma_same_but_task(forgotten, cleared);
            frames::lemma_refresh_label(cleared);
            frames::lemma_same_but_task(cleared, self@);
        }
        let contexts = self.contexts_with(&targets.target_ids);
        self.clear_conversations(&contexts, targets.owner_id.as_str());
        let session_id = match self.get_selected_weave_session_id() {
            Some(session_id) => session_id.clone(),
            None => return,
        };
        let agents = match self.get_weave_agents() {
            Some(agents) => steps::keep_allowed(agents, targets),
            None => return,
        };
        self.interrupt_weave_agents(&agents, session_id.as_str(), targets.owner_id.as_str());
    }
}

/// What was taken out of a list of ids is gone, and the others are as they were.
pub proof fn law_an_id_can_be_taken_out(ids: Seq<Seq<char>>, id: Seq<char>)
    ensures
        !relay::holds_id(without_id(ids, id), id),
        forall|other: Seq<char>|
            other != id ==> #[trigger] relay::holds_id(without_id(ids, id), other)
                == relay::holds_id(ids, other),
        relay::ids_differ(ids) ==> relay::ids_differ(without_id(ids, id)),
    decreases ids.len(),
{
    if ids.len() > 0 {
        let front = ids.drop_last();
        let before = without_id(front, id);
        let after = without_id(ids, id);
        law_an_id_can_be_taken_out(front, id);
        assert forall|other: Seq<char>| other != id implies #[trigger] relay::holds_id(after, other)
            == relay::holds_id(ids, other) by {
            if relay::holds_id(ids, other) {
                let k = choose|k: int| 0 <= k < ids.len() && #[trigger] ids[k] == other;
                if k < front.len() {
                    assert(front[k] == other);
                    assert(relay::holds_id(before, other));
                    let m = choose|m: int| 0 <= m < before.len() && #[trigger] before[m] == other;
                    assert(after[m] == other);
                } else {
                    assert(after[after.len() - 1] == other);
                }
            }
            if relay::holds_id(after, other) {
                let k = choose|k: int| 0 <= k < after.len() && #[trigger] after[k] == other;
                if k < before.len() {
                    assert(before[k] == other);
                    assert(relay::holds_id(before, other));
                    let m = choose|m: int| 0 <= m < front.len() && #[trigger] front[m] == other;
                    assert(ids[m] == other);
                } else {
                    assert(ids[ids.len() - 1] == other);
                }
            }
        }
        if relay::holds_id(after, id) {
            let k = choose|k: int| 0 <= k < after.len() && #[trigger] after[k] == id;
            assert(before[k] == id);
        }
        if relay::ids_differ(ids) {
            assert(relay::ids_differ(front)) by {
                assert forall|i: int, j: int| 0 <= i < j < front.len() implies #[trigger] front[i]
                    != #[trigger] front[j] by {
                    assert(front[i] == ids[i] && front[j] == ids[j]);
                }
            }
            if ids.last() != id {
                assert(!relay::holds_id(before, ids.last())) by {
                    if relay::holds_id(front, ids.last()) {
                        let m = choose|m: int|
                            0 <= m < front.len() && #[trigger] front[m] == ids.last();
                        assert(ids[m] == ids[ids.len() - 1]);
                    }
                }
                assert forall|i: int, j: int| 0 <= i < j < after.len() implies #[trigger] after[i]
                    != #[trigger] after[j] by {
                    assert(after[i] == before[i]);
                    if j < before.len() {
                        assert(after[j] == before[j]);
                    }
                }
            }
        }
    }
}

/// Nobody takes part in a task twice, whoever leaves it; and whoever left it does
/// not take part in it any more.
pub proof fn law_whoever_leaves_is_gone(ids: Seq<Seq<char>>, leaving: Seq<Seq<char>>)
    ensures
        relay::ids_differ(ids) ==> relay::ids_differ(removed_from(ids, leaving).0),
        forall|i: int|
            0 <= i < leaving.len() ==> !relay::holds_id(
                removed_from(ids, leaving).0,
                #[trigger] leaving[i],
            ),
    decreases leaving.len(),
{
    if leaving.len() > 0 {
        let front = leaving.drop_last();
        let before = removed_from(ids, front).0;
        let after = removed_from(ids, leaving).0;
        law_whoever_leaves_is_gone(ids, front);
        law_an_id_can_be_taken_out(before, leaving.last());
        assert forall|i: int| 0 <= i < leaving.len() implies !relay::holds_id(
            after,
            #[trigger] leaving[i],
        ) by {
            if i < front.len() {
                assert(front[i] == leaving[i]);
            }
        }
    }
}

/// What waits to be said in a conversation is dropped with it, and so is the answer that
/// is due there; everything else waits on, in its order.
pub proof fn law_a_conversation_is_dropped(
    chat: ChatView,
    conversation_id: Seq<char>,
    conversation_owner: Seq<char>,
)
    ensures
        ({
            let after = chat.drop_conversation(conversation_id, conversation_owner);
            &&& after.queued_user_messages == chat.queued_user_messages.filter(
                |message: UserMessageView|
                    !(message.source is Weave && message.source->Weave_0.conversation_id
                        == conversation_id && message.source->Weave_0.conversation_owner
                        == conversation_owner),
            )
            &&& after.active_weave_reply_target == (if chat.active_weave_reply_target is Some
                && chat.active_weave_reply_target->0.conversation_id == conversation_id
                && chat.active_weave_reply_target->0.conversation_owner == conversation_owner {
                None
            } else {
                chat.active_weave_reply_target
            })
        }),
{
    reveal(ChatView::drop_conversation);
    reveal(ChatView::with_queue);
    reveal(ChatView::refresh_queue);
    reveal(ChatView::emit);
    lemma_other_conversations(chat.queued_user_messages, conversation_id, conversation_owner);
}

proof fn lemma_other_conversations(
    queue: Seq<UserMessageView>,
    conversation_id: Seq<char>,
    conversation_owner: Seq<char>,
)
    ensures
        of_other_conversations(queue, conversation_id, conversation_owner) == queue.filter(
            |message: UserMessageView|
                !(message.source is Weave && message.source->Weave_0.conversation_id
                    == conversation_id && message.source->Weave_0.conversation_owner
                    == conversation_owner),
        ),
    decreases queue.len(),
{
    reveal(Seq::filter);
    let other = |message: UserMessageView|
        !(message.source is Weave && message.source->Weave_0.conversation_id == conversation_id
            && message.source->Weave_0.conversation_owner == conversation_owner);
    if queue.len() > 0 {
        lemma_other_conversations(queue.drop_last(), conversation_id, conversation_owner);
    } else {
        assert(queue.filter(other) =~= seq![]);
    }
}

/// What waits to be said to an agent is dropped with it, and so is the answer that is due
/// to it; everything else waits on, in its order.
pub proof fn law_a_sender_is_dropped(chat: ChatView, sender_id: Seq<char>)
    ensures
        ({
            let after = chat.drop_sender(sender_id);
            &&& after.queued_user_messages == chat.queued_user_messages.filter(
                |message: UserMessageView|
                    !(message.source is Weave && (message.source->Weave_0.conversation_owner
                        == sender_id || message.source->Weave_0.reply_target.agent_id
                        == sender_id)),
            )
            &&& after.active_weave_reply_target == (if chat.active_weave_reply_target is Some && (
            chat.active_weave_reply_target->0.conversation_owner == sender_id
                || chat.active_weave_reply_target->0.agent_id == sender_id) {
                None
            } else {
                chat.active_weave_reply_target
            })
        }),
{
    reveal(ChatView::drop_sender);
    reveal(ChatView::with_queue);
    reveal(ChatView::refresh_queue);
    reveal(ChatView::emit);
    lemma_other_senders(chat.queued_user_messages, sender_id);
}

proof fn lemma_other_senders(queue: Seq<UserMessageView>, sender_id: Seq<char>)
    ensures
        of_other_senders(queue, sender_id) == queue.filter(
            |message: UserMessageView|
                !(message.source is Weave && (message.source->Weave_0.conversation_owner
                    == sender_id || message.source->Weave_0.reply_target.agent_id == sender_id)),
        ),
    decreases queue.len(),
{
    reveal(Seq::filter);
    let other = |message: UserMessageView|
        !(message.source is Weave && (message.source->Weave_0.conversation_owner == sender_id
            || message.source->Weave_0.reply_target.agent_id == sender_id));
    if queue.len() > 0 {
        lemma_other_senders(queue.drop_last(), sender_id);
    } else {
        assert(queue.filter(other) =~= seq![]);
    }
}

/// Whoever is not told to leave a task stays in it.
pub proof fn law_all_others_stay(ids: Seq<Seq<char>>, leaving: Seq<Seq<char>>, id: Seq<char>)
    requires
        forall|i: int| 0 <= i < leaving.len() ==> #[trigger] leaving[i] != id,
    ensures
        relay::holds_id(removed_from(ids, leaving).0, id) == relay::holds_id(ids, id),
    decreases leaving.len(),
{
    if leaving.len() > 0 {
        let front = leaving.drop_last();
        assert forall|i: int| 0 <= i < front.len() implies #[trigger] front[i] != id by {
            assert(front[i] == leaving[i]);
        }
        law_all_others_stay(ids, front, id);
        assert(leaving[leaving.len() - 1] != id);
        law_an_id_can_be_taken_out(removed_from(ids, front).0, leaving.last());
    }
}

/// Each agent with which there is a conversation is interrupted there, when a task is
/// called off.
pub proof fn law_each_agent_is_interrupted(
    chat: ChatView,
    agents: Seq<WeaveAgent<Seq<char>>>,
    agent: WeaveAgent<Seq<char>>,
    session_id: Seq<char>,
    owner: Seq<char>,
)
    ensures
        chat.interrupt_agents(seq![], session_id, owner) == chat,
        ({
            let before = chat.interrupt_agents(agents, session_id, owner);
            let after = chat.interrupt_agents(agents.push(agent), session_id, owner);
            &&& before.target(agent.id) is None ==> after == before
            &&& before.target(agent.id) matches Some(state) ==> before.weave_connected
                && before.selected_weave_session_id == Some(session_id) ==> {
                &&& after.outbox.len() == before.outbox.len() + 1
                &&& after.outbox.last() matches EffectView::SendInterrupt(target) && target.agent_id
                    == agent.id && target.conversation_id == state.context_id && target.task_id
                    == Some(state.task_id) && target.conversation_owner == owner
                    && target.session_id == session_id
            }
        }),
{
    assert(agents.push(agent).drop_last() =~= agents);
    reveal(ChatView::interrupt_agent);
    reveal(ChatView::send_interrupt);
    reveal(ChatView::emit);
}

} // verus!

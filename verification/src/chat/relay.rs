//! Tasks that other agents take part in: what the model has them do, and when
//! the task ends.

use vstd::prelude::*;

use crate::chat::frames;
use crate::chat::state::{ChatView, ChatWidget};
use crate::chat::types::{
    Effect, EffectView, HistoryItem, HistoryView, RelayTargetsView, SourceView, UserMessage,
    UserMessageSource, UserMessageView, WeaveRelayTargets,
};
use crate::client;
use crate::client::WeaveAgent;
use crate::mentions;
use crate::prompts;
use crate::text;

verus! {

// ---------------------------------------------------------------------------
// Who takes part
// ---------------------------------------------------------------------------

/// Whether `ids` holds `id`.
pub open spec fn holds_id(ids: Seq<Seq<char>>, id: Seq<char>) -> bool {
    exists|i: int| 0 <= i < ids.len() && #[trigger] ids[i] == id
}

/// Whether no id occurs twice.
pub open spec fn ids_differ(ids: Seq<Seq<char>>) -> bool {
    forall|i: int, j: int| 0 <= i < j < ids.len() ==> #[trigger] ids[i] != #[trigger] ids[j]
}

/// Whether two lists hold the same ids.
pub open spec fn same_ids(a: Seq<Seq<char>>, b: Seq<Seq<char>>) -> bool {
    &&& forall|i: int| 0 <= i < a.len() ==> holds_id(b, #[trigger] a[i])
    &&& forall|i: int| 0 <= i < b.len() ==> holds_id(a, #[trigger] b[i])
}

impl RelayTargetsView {
    /// Whether an agent takes part.
    pub open spec fn allows(self, id: Seq<char>) -> bool {
        holds_id(self.target_ids, id)
    }

    /// Whether this is the same task.
    pub open spec fn same_task(self, other: RelayTargetsView) -> bool {
        &&& self.owner_id == other.owner_id
        &&& self.relay_id == other.relay_id
        &&& same_ids(self.target_ids, other.target_ids)
    }
}

/// The ids of agents.
pub open spec fn agent_ids(agents: Seq<WeaveAgent<Seq<char>>>) -> Seq<Seq<char>> {
    Seq::new(agents.len(), |i: int| agents[i].id)
}

pub(super) fn contains_id(ids: &Vec<String>, id: &str) -> (r: bool)
    ensures
        r == holds_id(text::views(ids@), id@),
{
    let ghost all = text::views(ids@);
    for i in 0..ids.len()
        invariant
            all == text::views(ids@),
            forall|j: int| 0 <= j < i ==> #[trigger] all[j] != id@,
    {
        proof {
            assert(all[i as int] == ids@[i as int]@);
        }
        if text::same(ids[i].as_str(), id) {
            return true;
        }
    }
    false
}

fn all_contained(a: &Vec<String>, b: &Vec<String>) -> (r: bool)
    ensures
        r == (forall|i: int|
            0 <= i < a@.len() ==> holds_id(text::views(b@), #[trigger] text::views(a@)[i])),
{
    let ghost all = text::views(a@);
    for i in 0..a.len()
        invariant
            all == text::views(a@),
            forall|j: int| 0 <= j < i ==> holds_id(text::views(b@), #[trigger] all[j]),
    {
        proof {
            assert(all[i as int] == a@[i as int]@);
        }
        if !contains_id(b, a[i].as_str()) {
            return false;
        }
    }
    true
}

impl WeaveRelayTargets {
    /// A task with these agents.
    pub fn new(owner_id: String, relay_id: String, agents: &Vec<WeaveAgent>) -> (r:
        WeaveRelayTargets)
        ensures
            r.deep_view() == (RelayTargetsView {
                owner_id: owner_id@,
                relay_id: relay_id@,
                target_ids: agent_ids(agents.deep_view()),
            }),
    {
        let mut target_ids: Vec<String> = Vec::new();
        for i in 0..agents.len()
            invariant
                target_ids@.len() == i,
                forall|j: int| 0 <= j < i ==> #[trigger] target_ids@[j]@ == agents@[j].id@,
        {
            target_ids.push(agents[i].id.clone());
        }
        proof {
            assert(text::views(target_ids@) =~= agent_ids(agents.deep_view()));
        }
        WeaveRelayTargets { owner_id, relay_id, target_ids }
    }

    /// Whether an agent takes part.
    pub fn allows(&self, agent: &WeaveAgent) -> (r: bool)
        ensures
            r == self.deep_view().allows(agent.deep_view().id),
    {
        contains_id(&self.target_ids, agent.id.as_str())
    }

    /// Whether the agent with this id takes part.
    pub fn allows_id(&self, agent_id: &str) -> (r: bool)
        ensures
            r == self.deep_view().allows(agent_id@),
    {
        contains_id(&self.target_ids, agent_id)
    }

    /// Whether this is the same task.
    pub fn matches(&self, other: &WeaveRelayTargets) -> (r: bool)
        ensures
            r == self.deep_view().same_task(other.deep_view()),
    {
        text::same(self.owner_id.as_str(), other.owner_id.as_str()) && text::same(
            self.relay_id.as_str(),
            other.relay_id.as_str(),
        ) && all_contained(&self.target_ids, &other.target_ids) && all_contained(
            &other.target_ids,
            &self.target_ids,
        )
    }
}

// ---------------------------------------------------------------------------
// Labels
// ---------------------------------------------------------------------------

/// The texts of messages.
pub open spec fn texts_of(messages: Seq<UserMessageView>) -> Seq<Seq<char>> {
    Seq::new(messages.len(), |i: int| messages[i].text)
}

impl ChatView {
    /// What the footer says of the session with other agents.
    pub open spec fn session_label(self) -> Option<Seq<char>> {
        match self.selected_weave_session_name {
            Some(session) => Some(
                "name: "@ + self.weave_agent_name + " • session: "@ + session,
            ),
            None => None,
        }
    }

    /// With the footer up to date.
    #[verifier::opaque]
    pub open spec fn refresh_label(self) -> ChatView {
        self.emit(EffectView::WeaveLabel(self.session_label()))
    }

    /// With the list of what waits to be said up to date.
    #[verifier::opaque]
    pub open spec fn refresh_queue(self) -> ChatView {
        self.emit(EffectView::QueuedMessages(texts_of(self.queued_user_messages)))
    }

    /// The name to show for an agent.
    pub open spec fn name_of(self, id: Seq<char>) -> Seq<char> {
        match prompts::agent_with_id(prompts::listed(self.weave_agents), id) {
            Some(agent) => client::shown_name(agent.id, agent.name),
            None => id,
        }
    }
}

impl ChatWidget {
    pub(super) fn refresh_weave_session_label(&mut self)
        ensures
            final(self)@ == old(self)@.refresh_label(),
    {
        proof {
            reveal(ChatView::refresh_label);
        }
        let label = match self.get_selected_weave_session_name() {
            Some(session) => {
                let mut label = text::concat3(
                    "name: ",
                    self.get_weave_agent_name(),
                    " • session: ",
                );
                label.append(session.as_str());
                Some(label)
            },
            None => None,
        };
        self.emit(Effect::WeaveLabel(label));
    }

    pub(super) fn refresh_queued_user_messages(&mut self)
        ensures
            final(self)@ == old(self)@.refresh_queue(),
    {
        proof {
            reveal(ChatView::refresh_queue);
        }
        let texts = self.queued_texts();
        self.emit(Effect::QueuedMessages(texts));
    }

    pub(super) fn queued_texts(&self) -> (texts: Vec<String>)
        ensures
            text::views(texts@) == texts_of(self@.queued_user_messages),
    {
        let queue = self.get_queued_user_messages();
        let mut texts: Vec<String> = Vec::new();
        for i in 0..queue.len()
            invariant
                texts@.len() == i,
                forall|j: int| 0 <= j < i ==> #[trigger] texts@[j]@ == queue@[j].text@,
        {
            texts.push(queue[i].text.clone());
        }
        proof {
            assert(text::views(texts@) =~= texts_of(queue.deep_view()));
        }
        texts
    }

    pub(super) fn agent_display_name(&self, id: &str) -> (r: String)
        ensures
            r@ == self@.name_of(id@),
    {
        match prompts::find_agent(self.get_weave_agents(), id) {
            Some(agent) => agent.display_name(),
            None => id.to_owned(),
        }
    }
}

// ---------------------------------------------------------------------------
// Which messages belong to the task
// ---------------------------------------------------------------------------

impl ChatView {
    /// Whether a message of the user gives other agents a task.
    pub open spec fn is_task_message(self, message: Seq<char>) -> bool {
        let trimmed = text::trimmed(message);
        &&& trimmed.len() > 0
        &&& trimmed[0] != '!'
        &&& self.weave_agents matches Some(agents) && mentions::mentioned_agents(
            text::words(
                mentions::control_actions(message, agents, Some(self.weave_agent_id)).1,
            ),
            agents,
            Some(self.weave_agent_id),
        ).len() > 0
    }

    /// Whether a message from an agent belongs to the task at hand.
    pub open spec fn is_of_task(
        self,
        agent_id: Seq<char>,
        conversation_id: Seq<char>,
        task_id: Option<Seq<char>>,
    ) -> bool {
        &&& self.active_weave_relay matches Some(relay) && relay.allows(agent_id)
        &&& self.target(agent_id) matches Some(state) && state.context_id == conversation_id && (
        task_id matches Some(task_id) ==> state.task_id == task_id)
    }

    /// Whether a message has to wait until the task at hand ends.
    pub open spec fn waits_for_task(self, message: UserMessageView) -> bool {
        &&& self.active_weave_relay matches Some(relay) && relay.target_ids.len() > 0
        &&& match message.source {
            SourceView::Local => self.is_task_message(message.text),
            SourceView::Weave(weave) => !(weave.conversation_owner == self.weave_agent_id
                && self.is_of_task(
                weave.reply_target.agent_id,
                weave.conversation_id,
                weave.task_id,
            )),
        }
    }
}

impl ChatWidget {
    pub(super) fn is_weave_task_message(&self, message: &str) -> (r: bool)
        ensures
            r == self@.is_task_message(message@),
    {
        let trimmed = text::trim(message);
        if trimmed.is_empty() || trimmed.get_char(0) == '!' {
            return false;
        }
        match self.get_weave_agents() {
            Some(agents) => {
                let own = Some(self.get_weave_agent_id());
                let (_, left) = mentions::parse_weave_control_actions(message, agents, own);
                mentions::find_weave_mentions(left.as_str(), agents, own).len() > 0
            },
            None => false,
        }
    }

    pub(super) fn matches_active_weave_relay(
        &self,
        agent_id: &str,
        conversation_id: &str,
        task_id: &Option<String>,
    ) -> (r: bool)
        ensures
            r == self@.is_of_task(agent_id@, conversation_id@, task_id.deep_view()),
    {
        match self.get_active_weave_relay() {
            Some(relay) => {
                if !relay.allows_id(agent_id) {
                    return false;
                }
            },
            None => return false,
        }
        match self.find_target(agent_id) {
            Some(state) => text::same(state.context_id.as_str(), conversation_id) && (match task_id {
                Some(task_id) => text::same(state.task_id.as_str(), task_id.as_str()),
                None => true,
            }),
            None => false,
        }
    }

    pub(super) fn should_queue_weave_task(&self, message: &UserMessage) -> (r: bool)
        ensures
            r == self@.waits_for_task(message.deep_view()),
    {
        match self.get_active_weave_relay() {
            Some(relay) => {
                proof {
                    assert(text::views(relay.target_ids@).len() == relay.target_ids@.len());
                }
                if relay.target_ids.len() == 0 {
                    return false;
                }
            },
            None => return false,
        }
        match &message.source {
            UserMessageSource::Local => self.is_weave_task_message(message.text.as_str()),
            UserMessageSource::Weave(weave) => !(text::same(
                weave.conversation_owner.as_str(),
                self.get_weave_agent_id(),
            ) && self.matches_active_weave_relay(
                weave.reply_target.agent_id.as_str(),
                weave.conversation_id.as_str(),
                &weave.task_id,
            )),
        }
    }
}

// ---------------------------------------------------------------------------
// The end of a task
// ---------------------------------------------------------------------------

impl ChatView {
    /// With a message of the model in the transcript, unless it is blank.
    pub open spec fn agent_message(self, message: Seq<char>) -> ChatView {
        if text::is_blank(message) {
            self
        } else {
            self.history(HistoryView::AgentMessage { text: text::trimmed(message), first: true })
        }
    }

    /// Whether this is the task at hand.
    pub open spec fn is_active(self, targets: RelayTargetsView) -> bool {
        self.active_weave_relay matches Some(relay) && relay.same_task(targets)
    }

    /// After a task has ended: its plan is done, and nobody owes anything.
    #[verifier::opaque]
    pub open spec fn finish_task(
        self,
        targets: RelayTargetsView,
        summary: Option<Seq<char>>,
    ) -> ChatView {
        let ended = if self.is_active(targets) {
            (ChatView { active_weave_relay: None, ..self.finish_plan() }).refresh_label().clear_targets(
                targets.target_ids,
            )
        } else {
            self
        };
        let ended = ChatView { pending_weave_plan: false, ..ended };
        match summary {
            Some(summary) => ended.agent_message(summary),
            None => ended,
        }
    }

    /// After the task at hand has ended, if no step is to be named and no reply
    /// is due.
    #[verifier::opaque]
    pub open spec fn finish_if_idle(self) -> ChatView {
        match self.active_weave_relay {
            Some(relay) => if self.pending_weave_relay is None && !self.owe_replies(
                relay.target_ids,
            ) {
                self.finish_task(relay, None)
            } else {
                self
            },
            None => self,
        }
    }

    /// After a task was given up.
    #[verifier::opaque]
    pub open spec fn drop_task(self, targets: RelayTargetsView) -> ChatView {
        if self.is_active(targets) {
            (ChatView {
                active_weave_relay: None,
                active_weave_plan: None,
                pending_weave_plan: false,
                ..self
            }).refresh_label().clear_targets(targets.target_ids)
        } else {
            self
        }
    }

    /// Whether one of the agents is in this conversation.
    pub open spec fn in_conversation(
        self,
        ids: Seq<Seq<char>>,
        conversation_id: Seq<char>,
    ) -> bool {
        exists|i: int|
            0 <= i < ids.len() && (self.target(#[trigger] ids[i]) matches Some(state)
                && state.context_id == conversation_id)
    }

    /// Whether an interrupt concerns the task at hand: it is from an agent that
    /// takes part and owns the conversation, or for a conversation of the task.
    pub open spec fn interrupts_task(
        self,
        conversation_id: Seq<char>,
        conversation_owner: Seq<char>,
        sender_id: Seq<char>,
    ) -> bool {
        match self.active_weave_relay {
            Some(relay) => {
                ||| conversation_owner == sender_id && relay.allows(sender_id)
                ||| conversation_owner == relay.owner_id && self.in_conversation(
                    relay.target_ids,
                    conversation_id,
                )
            },
            None => false,
        }
    }

    /// Without the task at hand, and without steps to name.
    pub open spec fn without_task(self) -> ChatView {
        ChatView {
            active_weave_relay: None,
            active_weave_plan: None,
            pending_weave_plan: false,
            pending_weave_relay: None,
            weave_relay_buffer: seq![],
            ..self
        }
    }

    /// After an interrupt from another agent: the task at hand ends, if it is
    /// concerned.
    #[verifier::opaque]
    pub open spec fn interrupt_task(
        self,
        conversation_id: Seq<char>,
        conversation_owner: Seq<char>,
        sender_id: Seq<char>,
    ) -> ChatView {
        if self.interrupts_task(conversation_id, conversation_owner, sender_id) {
            self.without_task().clear_targets(
                self.active_weave_relay->0.target_ids,
            ).refresh_label()
        } else {
            self
        }
    }
}

impl ChatWidget {
    pub(super) fn add_agent_message(&mut self, message: &str)
        ensures
            final(self)@ == old(self)@.agent_message(message@),
    {
        let message = text::trim(message);
        if message.is_empty() {
            return;
        }
        self.add_to_history(
            HistoryItem::AgentMessage { text: message.to_owned(), first: true },
        );
    }

    fn is_active_task(&self, targets: &WeaveRelayTargets) -> (r: bool)
        ensures
            r == self@.is_active(targets.deep_view()),
    {
        match self.get_active_weave_relay() {
            Some(relay) => relay.matches(targets),
            None => false,
        }
    }

    pub(super) fn finish_weave_task(
        &mut self,
        targets: &WeaveRelayTargets,
        summary: Option<&str>,
    )
        ensures
            final(self)@ == old(self)@.finish_task(targets.deep_view(), summary.deep_view()),
    {
        proof {
            reveal(ChatView::finish_task);
        }
        if self.is_active_task(targets) {
            self.complete_weave_plan();
            self.put_active_weave_relay(None);
            self.refresh_weave_session_label();
            self.clear_pending_weave_actions_for_targets(&targets.target_ids);
        }
        self.put_pending_weave_plan(false);
        match summary {
            Some(summary) => self.add_agent_message(summary),
            None => {},
        }
    }

    pub(super) fn maybe_finish_active_weave_relay(&mut self)
        ensures
            final(self)@ == old(self)@.finish_if_idle(),
    {
        proof {
            reveal(ChatView::finish_if_idle);
        }
        if self.get_pending_weave_relay().is_some() {
            return;
        }
        let relay = match self.get_active_weave_relay() {
            Some(relay) => relay.clone(),
            None => return,
        };
        if self.relay_has_pending_replies(&relay) {
            return;
        }
        self.finish_weave_task(&relay, None);
    }

    pub(super) fn clear_weave_task_state(&mut self, targets: &WeaveRelayTargets)
        ensures
            final(self)@ == old(self)@.drop_task(targets.deep_view()),
    {
        proof {
            reveal(ChatView::drop_task);
        }
        if self.is_active_task(targets) {
            self.put_active_weave_relay(None);
            self.put_active_weave_plan(None);
            self.put_pending_weave_plan(false);
            self.refresh_weave_session_label();
            self.clear_pending_weave_actions_for_targets(&targets.target_ids);
        }
    }

    fn any_in_conversation(&self, ids: &Vec<String>, conversation_id: &str) -> (r: bool)
        ensures
            r == self@.in_conversation(text::views(ids@), conversation_id@),
    {
        let ghost all = text::views(ids@);
        for i in 0..ids.len()
            invariant
                all == text::views(ids@),
                forall|j: int|
                    0 <= j < i ==> !(self@.target(#[trigger] all[j]) matches Some(state)
                        && state.context_id == conversation_id@),
        {
            proof {
                assert(all[i as int] == ids@[i as int]@);
            }
            match self.find_target(ids[i].as_str()) {
                Some(state) => {
                    if text::same(state.context_id.as_str(), conversation_id) {
                        return true;
                    }
                },
                None => {},
            }
        }
        false
    }

    pub(super) fn forget_weave_task(&mut self)
        ensures
            final(self)@ == old(self)@.without_task(),
    {
        self.put_active_weave_relay(None);
        self.put_active_weave_plan(None);
        self.put_pending_weave_plan(false);
        self.put_pending_weave_relay(None);
        let _ = self.take_weave_relay_buffer();
    }

    pub(super) fn interrupt_weave_task(
        &mut self,
        conversation_id: &str,
        conversation_owner: &str,
        sender_id: &str,
    ) -> (r: bool)
        ensures
            final(self)@ == old(self)@.interrupt_task(
                conversation_id@,
                conversation_owner@,
                sender_id@,
            ),
            r == old(self)@.interrupts_task(conversation_id@, conversation_owner@, sender_id@),
            final(self)@.ids == old(self)@.ids,
    {
        proof {
            reveal(ChatView::interrupt_task);
        }
        let relay = match self.get_active_weave_relay() {
            Some(relay) => relay.clone(),
            None => return false,
        };
        let matches_sender = text::same(conversation_owner, sender_id) && relay.allows_id(
            sender_id,
        );
        let matches_task = text::same(conversation_owner, relay.owner_id.as_str())
            && self.any_in_conversation(&relay.target_ids, conversation_id);
        if !matches_task && !matches_sender {
            return false;
        }
        self.forget_weave_task();
        let ghost forgotten = self@;
        self.clear_pending_weave_actions_for_targets(&relay.target_ids);
        let ghost cleared = self@;
        self.refresh_weave_session_label();
        proof {
            frames::law_clearing_targets_keeps_the_rest(forgotten, relay.deep_view().target_ids);
            frames::lemma_same_but_task(forgotten, cleared);
            frames::lemma_refresh_label(cleared);
            frames::lemma_same_but_task(cleared, self@);
        }
        true
    }
}

} // verus!

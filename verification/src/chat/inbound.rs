//! Messages of other agents.

use vstd::prelude::*;

use crate::chat::frames;
use crate::chat::state;
use crate::chat::state::{ChatView, ChatWidget, Tape};
use crate::chat::steps;
use crate::chat::submit;
use crate::chat::tools::ContextView;
use crate::chat::types::{
    ActionRef, Effect, EffectView, HistoryItem, HistoryView, UserMessage,
    WeavePendingNewSessionContext, WeaveRelayDone, WeaveReplyTarget, WeaveToolContext,
    WeaveUserMessage, WeaveUserView,
};
use crate::client::{WeaveAgent, WeaveIncomingMessage, WeaveMessageKind};
use crate::json::JsonView;
use crate::table;
use crate::table::Table;
use crate::text;

verus! {

/// A message for this agent.
pub type MessageView = WeaveIncomingMessage<Seq<char>, JsonView>;

/// The conversation that goes on in a new session.
pub type SessionContextView = WeavePendingNewSessionContext<Seq<char>>;

// ---------------------------------------------------------------------------
// Messages around a new session
// ---------------------------------------------------------------------------

/// Whether a message is for the conversation that goes on in the new session: it
/// is from the one who asked for the session, and stands behind that action in
/// its group, or waits for the session in the old conversation.
pub open spec fn goes_on(context: SessionContextView, message: MessageView) -> bool {
    message.src == context.conversation_owner && (if message.action_group_id == Some(
        context.group_id,
    ) {
        match (context.action_index, message.action_index) {
            (Some(first), Some(second)) => second > first,
            _ => false,
        }
    } else {
        message.defer_until_ready && context.previous_conversation_id.len() > 0
            && message.conversation_id == context.previous_conversation_id
    })
}

/// A message in the conversation of the new session.
pub open spec fn moved_message(context: SessionContextView, message: MessageView) -> MessageView {
    WeaveIncomingMessage {
        conversation_id: context.conversation_id,
        conversation_owner: context.conversation_owner,
        task_id: Some(context.task_id),
        has_conversation_metadata: true,
        ..message
    }
}

/// A message that waited for the new session.
pub open spec fn ready_message(
    context: Option<SessionContextView>,
    message: MessageView,
) -> MessageView {
    let ready = WeaveIncomingMessage { defer_until_ready: false, ..message };
    match context {
        Some(context) => if goes_on(context, ready) {
            moved_message(context, ready)
        } else {
            ready
        },
        None => ready,
    }
}

impl ChatView {
    /// Whether messages of an agent have to wait for the new session.
    pub open spec fn defers_messages_of(self, sender_id: Seq<char>) -> bool {
        ||| self.conversation_id is None
        ||| self.pending_weave_new_session_result matches Some(pending) && pending.sender_id
            == sender_id
        ||| self.pending_weave_new_session_context matches Some(context)
            && context.conversation_owner == sender_id
    }

    /// A message as it is to be taken: in the conversation of the new session, or
    /// to wait for that session.
    pub open spec fn settled_message(self, message: MessageView) -> MessageView {
        match self.pending_weave_new_session_context {
            Some(context) => if !goes_on(context, message) || (message.has_conversation_metadata
                && message.conversation_id == context.conversation_id) {
                message
            } else if self.defers_messages_of(message.src) {
                WeaveIncomingMessage { defer_until_ready: true, ..message }
            } else {
                moved_message(context, message)
            },
            None => message,
        }
    }

    /// With one more message that waits for the new session.
    #[verifier::opaque]
    pub open spec fn keep_for_session(self, message: MessageView) -> ChatView {
        ChatView {
            pending_weave_action_messages: self.pending_weave_action_messages.push(message),
            ..self
        }
    }
}

fn should_remap_pending_weave_message(
    context: &WeavePendingNewSessionContext,
    message: &WeaveIncomingMessage,
) -> (r: bool)
    ensures
        r == goes_on(context.deep_view(), message.deep_view()),
{
    if !text::same(message.src.as_str(), context.conversation_owner.as_str()) {
        return false;
    }
    let same_group = match &message.action_group_id {
        Some(group_id) => text::same(group_id.as_str(), context.group_id.as_str()),
        None => false,
    };
    if same_group {
        return match (context.action_index, message.action_index) {
            (Some(first), Some(second)) => second > first,
            _ => false,
        };
    }
    message.defer_until_ready && !context.previous_conversation_id.as_str().is_empty()
        && text::same(
        message.conversation_id.as_str(),
        context.previous_conversation_id.as_str(),
    )
}

fn move_message(context: &WeavePendingNewSessionContext, message: WeaveIncomingMessage) -> (r:
    WeaveIncomingMessage)
    ensures
        r.deep_view() == moved_message(context.deep_view(), message.deep_view()),
{
    let mut message = message;
    message.conversation_id = context.conversation_id.clone();
    message.conversation_owner = context.conversation_owner.clone();
    message.task_id = Some(context.task_id.clone());
    message.has_conversation_metadata = true;
    message
}

fn make_ready(
    context: &Option<WeavePendingNewSessionContext>,
    message: &WeaveIncomingMessage,
) -> (r: WeaveIncomingMessage)
    ensures
        r.deep_view() == ready_message(context.deep_view(), message.deep_view()),
{
    let mut ready = message.clone();
    ready.defer_until_ready = false;
    match context {
        Some(context) => if should_remap_pending_weave_message(context, &ready) {
            move_message(context, ready)
        } else {
            ready
        },
        None => ready,
    }
}

impl ChatWidget {
    fn should_defer_weave_action_message(&self, sender_id: &str) -> (r: bool)
        ensures
            r == self@.defers_messages_of(sender_id@),
    {
        if self.get_conversation_id().is_none() {
            return true;
        }
        match self.get_pending_weave_new_session_result() {
            Some(pending) => {
                if text::same(pending.sender_id.as_str(), sender_id) {
                    return true;
                }
            },
            None => {},
        }
        match self.get_pending_weave_new_session_context() {
            Some(context) => text::same(context.conversation_owner.as_str(), sender_id),
            None => false,
        }
    }

    fn settle_message(&self, message: WeaveIncomingMessage) -> (r: WeaveIncomingMessage)
        ensures
            r.deep_view() == self@.settled_message(message.deep_view()),
    {
        match self.get_pending_weave_new_session_context() {
            Some(context) => {
                if !should_remap_pending_weave_message(context, &message) || (
                message.has_conversation_metadata && text::same(
                    message.conversation_id.as_str(),
                    context.conversation_id.as_str(),
                )) {
                    return message;
                }
                if self.should_defer_weave_action_message(message.src.as_str()) {
                    let mut message = message;
                    message.defer_until_ready = true;
                    message
                } else {
                    move_message(context, message)
                }
            },
            None => message,
        }
    }

    fn keep_for_session(&mut self, message: WeaveIncomingMessage)
        ensures
            final(self)@ == old(self)@.keep_for_session(message.deep_view()),
            final(self)@.ids == old(self)@.ids,
    {
        proof {
            reveal(ChatView::keep_for_session);
        }
        let mut messages = self.take_pending_weave_action_messages();
        let ghost before = messages.deep_view();
        let ghost view = message.deep_view();
        messages.push(message);
        proof {
            assert(messages.deep_view() =~= before.push(view));
        }
        self.put_pending_weave_action_messages(messages);
    }
}

// ---------------------------------------------------------------------------
// Who sent a message
// ---------------------------------------------------------------------------

/// Where the agent with this id stands, or the number of agents.
pub open spec fn agent_place(agents: Seq<WeaveAgent<Seq<char>>>, id: Seq<char>) -> int
    decreases agents.len(),
{
    if agents.len() == 0 || agents[0].id == id {
        0
    } else {
        1 + agent_place(agents.subrange(1, agents.len() as int), id)
    }
}

proof fn lemma_agent_place(agents: Seq<WeaveAgent<Seq<char>>>, id: Seq<char>, n: int)
    requires
        0 <= n <= agents.len(),
        forall|i: int| 0 <= i < n ==> (#[trigger] agents[i]).id != id,
        n < agents.len() ==> agents[n].id == id,
    ensures
        agent_place(agents, id) == n,
    decreases agents.len(),
{
    if n > 0 {
        let rest = agents.subrange(1, agents.len() as int);
        assert forall|i: int| 0 <= i < n - 1 implies (#[trigger] rest[i]).id != id by {
            assert(rest[i] == agents[i + 1]);
        }
        lemma_agent_place(rest, id, n - 1);
    }
}

/// The agents, with the one that was heard of, and its name where it is known.
pub open spec fn with_sender(
    agents: Seq<WeaveAgent<Seq<char>>>,
    id: Seq<char>,
    name: Option<Seq<char>>,
) -> Seq<WeaveAgent<Seq<char>>> {
    let place = agent_place(agents, id);
    if place < agents.len() {
        match name {
            Some(_) => agents.update(place, WeaveAgent { name, ..agents[place] }),
            None => agents,
        }
    } else {
        agents.push(WeaveAgent { id, name })
    }
}

impl ChatView {
    /// With the one who sent something among the agents.
    #[verifier::opaque]
    pub open spec fn note_sender(self, id: Seq<char>, name: Option<Seq<char>>) -> ChatView {
        match self.weave_agents {
            Some(agents) => {
                let agents = with_sender(agents, id, name);
                (ChatView { weave_agents: Some(agents), ..self }).emit(
                    EffectView::WeaveAgents(Some(agents)),
                )
            },
            None => self,
        }
    }

    /// With another task that an agent is at.
    #[verifier::opaque]
    pub open spec fn keep_task(self, sender_id: Seq<char>, task_id: Seq<char>) -> ChatView {
        ChatView {
            weave_inbound_task_ids: table::with(self.weave_inbound_task_ids, sender_id, task_id),
            ..self
        }
    }

    /// With the task that an agent is at.
    #[verifier::opaque]
    pub open spec fn note_task(self, sender_id: Seq<char>, task_id: Option<Seq<char>>) -> ChatView {
        match text::present(task_id) {
            Some(task_id) => if table::value_at(self.weave_inbound_task_ids, sender_id) == Some(
                task_id,
            ) {
                self
            } else {
                self.keep_task(sender_id, task_id)
            },
            None => self,
        }
    }
}

fn with_task(tasks: Table<String>, sender_id: &str, task_id: &str) -> (r: Table<String>)
    ensures
        r.deep_view() == table::with(tasks.deep_view(), sender_id@, task_id@),
{
    let mut tasks = tasks;
    tasks.put(sender_id, task_id.to_owned());
    tasks
}

fn find_place(agents: &Vec<WeaveAgent>, id: &str) -> (n: usize)
    ensures
        n == agent_place(agents.deep_view(), id@),
        n <= agents@.len(),
{
    let ghost all = agents.deep_view();
    let mut n: usize = 0;
    while n < agents.len() && !text::same(agents[n].id.as_str(), id)
        invariant
            all == agents.deep_view(),
            n <= agents@.len(),
            forall|i: int| 0 <= i < n ==> (#[trigger] all[i]).id != id@,
        decreases agents@.len() - n,
    {
        proof {
            assert(all[n as int] == agents@[n as int].deep_view());
        }
        n = n + 1;
    }
    proof {
        if n < agents@.len() {
            assert(all[n as int] == agents@[n as int].deep_view());
        }
        lemma_agent_place(all, id@, n as int);
    }
    n
}

fn add_sender(agents: &Vec<WeaveAgent>, id: &str, name: &Option<String>) -> (r: Vec<WeaveAgent>)
    ensures
        r.deep_view() == with_sender(agents.deep_view(), id@, name.deep_view()),
{
    let ghost all = agents.deep_view();
    let place = find_place(agents, id);
    let mut r = steps::copy_agents(agents);
    if place < agents.len() {
        match name {
            Some(name) => {
                let agent = WeaveAgent { id: agents[place].id.clone(), name: Some(name.clone()) };
                let ghost view = agent.deep_view();
                r[place] = agent;
                proof {
                    assert(view == (WeaveAgent { name: Some(name@), ..all[place as int] }));
                    assert(r.deep_view() =~= all.update(place as int, view));
                }
            },
            None => {},
        }
    } else {
        let agent = WeaveAgent { id: id.to_owned(), name: text::copy_option(name) };
        let ghost view = agent.deep_view();
        r.push(agent);
        proof {
            assert(r.deep_view() =~= all.push(view));
        }
    }
    r
}

impl ChatWidget {
    fn note_sender(&mut self, id: &str, name: &Option<String>)
        ensures
            final(self)@ == old(self)@.note_sender(id@, name.deep_view()),
            final(self)@.ids == old(self)@.ids,
    {
        proof {
            reveal(ChatView::note_sender);
            reveal(ChatView::emit);
        }
        let agents = match self.get_weave_agents() {
            Some(agents) => add_sender(agents, id, name),
            None => return,
        };
        let shown = steps::copy_agents(&agents);
        self.put_weave_agents(Some(agents));
        self.emit(Effect::WeaveAgents(Some(shown)));
    }

    fn keep_task(&mut self, sender_id: &str, task_id: &str)
        ensures
            final(self)@ == old(self)@.keep_task(sender_id@, task_id@),
            final(self)@.ids == old(self)@.ids,
    {
        proof {
            reveal(ChatView::keep_task);
        }
        let tasks = self.take_weave_inbound_task_ids();
        let tasks = with_task(tasks, sender_id, task_id);
        self.put_weave_inbound_task_ids(tasks);
    }

    fn is_at_task(&self, sender_id: &str, task_id: &str) -> (r: bool)
        ensures
            r == (table::value_at(self@.weave_inbound_task_ids, sender_id@) == Some(task_id@)),
    {
        match self.get_weave_inbound_task_ids().get(sender_id) {
            Some(active) => text::same(active.as_str(), task_id),
            None => false,
        }
    }

    fn note_task(&mut self, sender_id: &str, task_id: &Option<String>)
        ensures
            final(self)@ == old(self)@.note_task(sender_id@, task_id.deep_view()),
            final(self)@.ids == old(self)@.ids,
    {
        proof {
            reveal(ChatView::note_task);
        }
        let task_id = match text::trim_present(task_id) {
            Some(task_id) => task_id,
            None => return,
        };
        if !self.is_at_task(sender_id, task_id) {
            self.keep_task(sender_id, task_id);
        }
    }
}

// ---------------------------------------------------------------------------
// Taking a message in
// ---------------------------------------------------------------------------

/// Who wants a command to be carried out, by the message that brings it.
pub open spec fn tool_context(message: MessageView, sender: Seq<char>) -> ContextView {
    WeaveToolContext {
        sender,
        sender_id: message.src,
        text: message.text,
        conversation_id: message.conversation_id,
        conversation_owner: message.conversation_owner,
        has_conversation_metadata: message.has_conversation_metadata,
        action: ActionRef {
            group_id: message.action_group_id,
            action_id: message.action_id,
            action_index: message.action_index,
        },
    }
}

impl ChatView {
    /// What is known of a message: where an answer goes, and whether it is for
    /// the task at hand.
    pub open spec fn described(self, message: MessageView, sender: Seq<char>) -> WeaveUserView {
        WeaveUserView {
            reply_target: WeaveReplyTarget {
                session_id: message.session_id,
                agent_id: message.src,
                display_name: sender,
                conversation_id: message.conversation_id,
                conversation_owner: message.conversation_owner,
                parent_message_id: Some(message.message_id),
                task_id: message.task_id,
                action_group_id: message.action_group_id,
                action_id: message.action_id,
                action_index: message.action_index,
            },
            auto_reply: message.kind == WeaveMessageKind::User,
            relay_targets: if message.conversation_owner == self.weave_agent_id && self.is_of_task(
                message.src,
                message.conversation_id,
                message.task_id,
            ) {
                self.active_weave_relay
            } else {
                None
            },
            conversation_id: message.conversation_id,
            conversation_owner: message.conversation_owner,
            task_id: message.task_id,
            kind: message.kind,
        }
    }

    /// After a text of another agent was shown and said to the model, or queued.
    #[verifier::opaque]
    pub open spec fn take_text(
        self,
        message: MessageView,
        sender: Seq<char>,
        tape: Tape,
    ) -> ChatView {
        self.history(
            HistoryView::WeaveInbound {
                sender,
                receiver: self.weave_agent_name,
                text: message.text,
                sender_is_owner: message.conversation_owner == message.src,
                receiver_is_owner: message.conversation_owner == self.weave_agent_id,
            },
        ).queue_message(
            submit::from_weave(message.text, self.described(message, sender)),
            tape,
        ).redraw()
    }

    /// After a reply has ended the action that it answers; what waited for it may
    /// be said.
    #[verifier::opaque]
    pub open spec fn take_reply(
        self,
        sender_id: Seq<char>,
        answered: Option<Seq<char>>,
        tape: Tape,
    ) -> ChatView {
        match answered {
            Some(action_id) => {
                let (cleared, was_open) = self.clear_action(sender_id, action_id);
                if was_open {
                    cleared.send_next(tape)
                } else {
                    cleared
                }
            },
            None => self,
        }
    }

    /// With the action that a message is.
    pub open spec fn note_action(
        self,
        sender_id: Seq<char>,
        action_id: Option<Seq<char>>,
        tape: Tape,
    ) -> ChatView {
        match action_id {
            Some(action_id) => self.note_last_action(sender_id, action_id, tape),
            None => self,
        }
    }

    /// After a message was taken: what it answers has ended, its command is
    /// carried out, or its text is said to the model.
    #[verifier::opaque]
    pub open spec fn take_message(self, message: MessageView, tape: Tape) -> ChatView {
        let known = self.note_sender(message.src, message.src_name);
        let sender = known.sender_name(message.src, message.src_name);
        let noted = known.take_reply(message.src, message.reply_to_action_id, tape).note_action(
            message.src,
            message.action_id,
            tape,
        ).note_task(message.src, message.task_id);
        match message.tool {
            Some(tool) => noted.apply_tool(tool, tool_context(message, sender), tape),
            None => if text::is_blank(message.text) {
                noted
            } else {
                noted.take_text(message, sender, tape)
            },
        }
    }

    /// After a message that brings no news of tasks was taken, or kept until the
    /// new session is there.
    #[verifier::opaque]
    pub open spec fn take_or_keep(self, message: MessageView, tape: Tape) -> ChatView {
        let message = self.settled_message(message);
        if message.defer_until_ready && self.defers_messages_of(message.src) {
            self.keep_for_session(message)
        } else {
            self.take_message(message, tape)
        }
    }

    /// After a message came in. One of another session is ignored.
    #[verifier::opaque]
    pub open spec fn receive(
        self,
        message: MessageView,
        relay_done: Option<WeaveRelayDone<Seq<char>>>,
        tape: Tape,
    ) -> ChatView {
        if self.selected_weave_session_id != Some(message.session_id) {
            self
        } else if message.action_result is Some {
            self.action_answered(
                message.src,
                message.src_name,
                message.action_result->0,
                tape,
            )
        } else if message.task_update is Some {
            self.task_updated(message.src, message.task_update->0, tape)
        } else if message.task_done is Some {
            self.task_finished(message.src, message.task_done->0, tape)
        } else {
            match relay_done {
                Some(done) => self.relay_finished(done),
                None => self.take_or_keep(message, tape),
            }
        }
    }

    /// After messages that waited for the new session came in again.
    pub open spec fn redeliver(
        self,
        messages: Seq<MessageView>,
        context: Option<SessionContextView>,
        tape: Tape,
    ) -> ChatView
        decreases messages.len(),
    {
        if messages.len() == 0 {
            self
        } else {
            self.redeliver(messages.drop_last(), context, tape).receive(
                ready_message(context, messages.last()),
                None,
                tape,
            )
        }
    }

    /// Without the conversation that went on in the new session, once nothing
    /// waits for it.
    #[verifier::opaque]
    pub open spec fn end_handover(self) -> ChatView {
        if self.pending_weave_action_messages.len() == 0 {
            ChatView { pending_weave_new_session_context: None, ..self }
        } else {
            self
        }
    }

    /// With no message that waits for the new session.
    #[verifier::opaque]
    pub open spec fn without_kept(self) -> ChatView {
        ChatView { pending_weave_action_messages: seq![], ..self }
    }

    /// After the messages that waited for the new session were taken.
    #[verifier::opaque]
    pub open spec fn flush_kept(self, tape: Tape) -> ChatView {
        if self.pending_weave_action_messages.len() == 0 {
            self
        } else {
            let context = self.pending_weave_new_session_context;
            let after = self.without_kept().redeliver(
                self.pending_weave_action_messages,
                context,
                tape,
            );
            if context is Some {
                after.end_handover()
            } else {
                after
            }
        }
    }
}

impl ChatWidget {
    fn describe(&self, message: &WeaveIncomingMessage, sender: &str) -> (r: WeaveUserMessage)
        ensures
            r.deep_view() == self@.described(message.deep_view(), sender@),
    {
        let own = text::same(message.conversation_owner.as_str(), self.get_weave_agent_id());
        let relay_targets = if own && self.matches_active_weave_relay(
            message.src.as_str(),
            message.conversation_id.as_str(),
            &message.task_id,
        ) {
            match self.get_active_weave_relay() {
                Some(relay) => Some(relay.clone()),
                None => None,
            }
        } else {
            None
        };
        WeaveUserMessage {
            reply_target: WeaveReplyTarget {
                session_id: message.session_id.clone(),
                agent_id: message.src.clone(),
                display_name: sender.to_owned(),
                conversation_id: message.conversation_id.clone(),
                conversation_owner: message.conversation_owner.clone(),
                parent_message_id: Some(message.message_id.clone()),
                task_id: text::copy_option(&message.task_id),
                action_group_id: text::copy_option(&message.action_group_id),
                action_id: text::copy_option(&message.action_id),
                action_index: message.action_index,
            },
            auto_reply: matches!(message.kind, WeaveMessageKind::User),
            relay_targets,
            conversation_id: message.conversation_id.clone(),
            conversation_owner: message.conversation_owner.clone(),
            task_id: text::copy_option(&message.task_id),
            kind: message.kind,
        }
    }

    fn take_text(&mut self, message: &WeaveIncomingMessage, sender: &str)
        ensures
            state::extends(final(self)@.ids, old(self)@.ids),
            forall|tape: Tape|
                state::extends(tape, final(self)@.ids) ==> #[trigger] old(self)@.take_text(
                    message.deep_view(),
                    sender@,
                    tape,
                ) == final(self)@,
    {
        proof {
            reveal(ChatView::take_text);
        }
        let weave = self.describe(message, sender);
        let owner = message.conversation_owner.as_str();
        let item = HistoryItem::WeaveInbound {
            sender: sender.to_owned(),
            receiver: self.get_weave_agent_name().to_owned(),
            text: message.text.clone(),
            sender_is_owner: text::same(owner, message.src.as_str()),
            receiver_is_owner: text::same(owner, self.get_weave_agent_id()),
        };
        let ghost start = self@;
        self.add_to_history(item);
        proof {
            frames::lemma_emit(start, EffectView::History(item.deep_view()));
            frames::lemma_same_but_task(start, self@);
        }
        self.queue_user_message(UserMessage::from_weave(message.text.clone(), weave));
        let ghost queued = self@;
        self.request_redraw();
        proof {
            frames::lemma_emit(queued, EffectView::Redraw);
            frames::lemma_same_but_task(queued, self@);
        }
    }

    fn take_reply(&mut self, sender_id: &str, answered: &Option<String>)
        ensures
            state::extends(final(self)@.ids, old(self)@.ids),
            forall|tape: Tape|
                state::extends(tape, final(self)@.ids) ==> #[trigger] old(self)@.take_reply(
                    sender_id@,
                    answered.deep_view(),
                    tape,
                ) == final(self)@,
    {
        proof {
            reveal(ChatView::take_reply);
        }
        let action_id = match answered {
            Some(action_id) => action_id,
            None => return,
        };
        let ghost start = self@;
        let was_open = self.clear_pending_weave_action(sender_id, action_id.as_str());
        proof {
            frames::law_clearing_an_action_keeps_the_rest(start, sender_id@, action_id@);
            frames::lemma_same_but_task(start, self@);
        }
        if was_open {
            self.maybe_send_next_queued_input();
        }
    }

    fn note_action(&mut self, sender_id: &str, action_id: &Option<String>)
        ensures
            state::extends(final(self)@.ids, old(self)@.ids),
            forall|tape: Tape|
                state::extends(tape, final(self)@.ids) ==> #[trigger] old(self)@.note_action(
                    sender_id@,
                    action_id.deep_view(),
                    tape,
                ) == final(self)@,
    {
        match action_id {
            Some(action_id) => self.update_weave_target_last_action_id(
                sender_id,
                action_id.as_str(),
            ),
            None => {},
        }
    }

    fn take_message(&mut self, message: &WeaveIncomingMessage)
        ensures
            state::extends(final(self)@.ids, old(self)@.ids),
            forall|tape: Tape|
                state::extends(tape, final(self)@.ids) ==> #[trigger] old(self)@.take_message(
                    message.deep_view(),
                    tape,
                ) == final(self)@,
    {
        proof {
            reveal(ChatView::take_message);
        }
        let src = message.src.as_str();
        self.note_sender(src, &message.src_name);
        let sender = self.shown_sender(src, &message.src_name);
        self.take_reply(src, &message.reply_to_action_id);
        self.note_action(src, &message.action_id);
        self.note_task(src, &message.task_id);
        match &message.tool {
            Some(tool) => {
                let ctx = WeaveToolContext {
                    sender,
                    sender_id: message.src.clone(),
                    text: message.text.clone(),
                    conversation_id: message.conversation_id.clone(),
                    conversation_owner: message.conversation_owner.clone(),
                    has_conversation_metadata: message.has_conversation_metadata,
                    action: ActionRef {
                        group_id: text::copy_option(&message.action_group_id),
                        action_id: text::copy_option(&message.action_id),
                        action_index: message.action_index,
                    },
                };
                self.apply_weave_tool(tool, &ctx);
            },
            None => {
                if !text::blank(message.text.as_str()) {
                    self.take_text(message, sender.as_str());
                }
            },
        }
    }

    fn take_or_keep(&mut self, message: WeaveIncomingMessage)
        ensures
            state::extends(final(self)@.ids, old(self)@.ids),
            forall|tape: Tape|
                state::extends(tape, final(self)@.ids) ==> #[trigger] old(self)@.take_or_keep(
                    message.deep_view(),
                    tape,
                ) == final(self)@,
    {
        proof {
            reveal(ChatView::take_or_keep);
        }
        let settled = self.settle_message(message);
        if settled.defer_until_ready && self.should_defer_weave_action_message(
            settled.src.as_str(),
        ) {
            self.keep_for_session(settled);
            return;
        }
        self.take_message(&settled);
    }

    /// Takes in a message of another agent; `relay_done` says that a task is
    /// over, where the message does.
    pub fn on_weave_message_received(
        &mut self,
        message: WeaveIncomingMessage,
        relay_done: &Option<WeaveRelayDone>,
    )
        ensures
            state::extends(final(self)@.ids, old(self)@.ids),
            forall|tape: Tape|
                state::extends(tape, final(self)@.ids) ==> #[trigger] old(self)@.receive(
                    message.deep_view(),
                    relay_done.deep_view(),
                    tape,
                ) == final(self)@,
    {
        proof {
            reveal(ChatView::receive);
        }
        if !self.selects(message.session_id.as_str()) {
            return;
        }
        match &message.action_result {
            Some(result) => {
                self.handle_weave_action_result(message.src.as_str(), &message.src_name, result);
                return;
            },
            None => {},
        }
        match &message.task_update {
            Some(update) => {
                self.handle_weave_task_update(message.src.as_str(), update);
                return;
            },
            None => {},
        }
        match &message.task_done {
            Some(done) => {
                self.handle_weave_task_done(message.src.as_str(), done);
                return;
            },
            None => {},
        }
        match relay_done {
            Some(done) => self.handle_weave_relay_done(done),
            None => self.take_or_keep(message),
        }
    }

    fn redeliver(
        &mut self,
        messages: &Vec<WeaveIncomingMessage>,
        context: &Option<WeavePendingNewSessionContext>,
    )
        ensures
            state::extends(final(self)@.ids, old(self)@.ids),
            forall|tape: Tape|
                state::extends(tape, final(self)@.ids) ==> #[trigger] old(self)@.redeliver(
                    messages.deep_view(),
                    context.deep_view(),
                    tape,
                ) == final(self)@,
    {
        let ghost all = messages.deep_view();
        let ghost session = context.deep_view();
        let ghost start = self@;
        proof {
            assert(all.take(0) =~= Seq::<MessageView>::empty());
        }
        let mut i: usize = 0;
        let ghost mut done = all.take(0);
        while i < messages.len()
            invariant
                all == messages.deep_view(),
                session == context.deep_view(),
                i <= messages@.len(),
                done == all.take(i as int),
                state::extends(self@.ids, start.ids),
                forall|tape: Tape|
                    state::extends(tape, self@.ids) ==> #[trigger] start.redeliver(
                        done,
                        session,
                        tape,
                    ) == self@,
            decreases messages@.len() - i,
        {
            let ghost before = self@;
            let ready = make_ready(context, &messages[i]);
            let ghost view = ready.deep_view();
            let none: Option<WeaveRelayDone> = None;
            self.on_weave_message_received(ready, &none);
            proof {
                let more = all.take(i + 1);
                assert(more.drop_last() =~= done);
                assert(more.last() == messages@[i as int].deep_view());
                assert forall|tape: Tape| state::extends(
                    tape,
                    self@.ids,
                ) implies #[trigger] start.redeliver(more, session, tape) == self@ by {
                    assert(start.redeliver(done, session, tape) == before);
                    assert(before.receive(view, none.deep_view(), tape) == self@);
                }
                done = more;
            }
            i = i + 1;
        }
        proof {
            assert(all.take(all.len() as int) =~= all);
        }
    }

    fn take_kept(&mut self) -> (r: Vec<WeaveIncomingMessage>)
        ensures
            r.deep_view() == old(self)@.pending_weave_action_messages,
            final(self)@ == old(self)@.without_kept(),
            final(self)@.ids == old(self)@.ids,
    {
        proof {
            reveal(ChatView::without_kept);
        }
        self.take_pending_weave_action_messages()
    }

    fn end_handover(&mut self)
        ensures
            final(self)@ == old(self)@.end_handover(),
            final(self)@.ids == old(self)@.ids,
    {
        proof {
            reveal(ChatView::end_handover);
        }
        if self.get_pending_weave_action_messages().len() == 0 {
            self.put_pending_weave_new_session_context(None);
        }
    }

    pub(super) fn flush_pending_weave_action_messages(&mut self)
        ensures
            state::extends(final(self)@.ids, old(self)@.ids),
            forall|tape: Tape|
                state::extends(tape, final(self)@.ids) ==> #[trigger] old(self)@.flush_kept(tape)
                    == final(self)@,
    {
        proof {
            reveal(ChatView::flush_kept);
        }
        if self.get_pending_weave_action_messages().len() == 0 {
            return;
        }
        let context = match self.get_pending_weave_new_session_context() {
            Some(context) => Some(context.clone()),
            None => None,
        };
        let messages = self.take_kept();
        self.redeliver(&messages, &context);
        if context.is_some() {
            self.end_handover();
        }
    }
}

} // verus!

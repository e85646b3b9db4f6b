//! What is said to the model, and what waits to be said.

use vstd::prelude::*;

use crate::chat::frames;
use crate::chat::state;
use crate::chat::state::{ChatView, ChatWidget, Tape};
use crate::chat::types::{
    SourceView, UserMessage, UserMessageSource, UserMessageView, WeaveReplyTarget,
    WeaveUserMessage, WeaveUserView,
};
use crate::client::WeaveMessageKind;
use crate::mentions;
use crate::mentions::{ControlActionView, WeaveControlAction};
use crate::prompts;
use crate::text;

verus! {

// ---------------------------------------------------------------------------
// Messages that wait
// ---------------------------------------------------------------------------

/// A message of another agent.
pub open spec fn from_weave(message: Seq<char>, weave: WeaveUserView) -> UserMessageView {
    UserMessageView { text: message, image_paths: seq![], source: SourceView::Weave(weave) }
}

/// The names and the texts of messages of other agents.
pub open spec fn replies_of(messages: Seq<UserMessageView>) -> Seq<(Seq<char>, Seq<char>)> {
    Seq::new(
        messages.len(),
        |i: int| (messages[i].source->Weave_0.reply_target.display_name, messages[i].text),
    )
}

/// Replies in one message, in the conversation of the first one.
pub open spec fn batch_of(messages: Seq<UserMessageView>) -> UserMessageView {
    let first = messages[0].source->Weave_0;
    from_weave(
        prompts::batched_replies(replies_of(messages)),
        WeaveUserView {
            reply_target: WeaveReplyTarget {
                session_id: first.reply_target.session_id,
                agent_id: first.reply_target.agent_id,
                display_name: "multiple agents"@,
                conversation_id: first.conversation_id,
                conversation_owner: first.conversation_owner,
                parent_message_id: None,
                task_id: first.task_id,
                action_group_id: None,
                action_id: None,
                action_index: None,
            },
            auto_reply: false,
            ..first
        },
    )
}

impl ChatView {
    /// Whether a message of another agent has to wait until that agent has
    /// replied.
    pub open spec fn defers(self, message: UserMessageView) -> bool {
        message.source matches SourceView::Weave(weave) && weave.relay_targets is Some
            && weave.conversation_owner == self.weave_agent_id && weave.kind
            == WeaveMessageKind::User && self.owes_reply(weave.reply_target.agent_id)
    }

    /// Whether a message is one more reply for the task that `first` is for.
    pub open spec fn batches(self, message: UserMessageView, first: WeaveUserView) -> bool {
        message.source matches SourceView::Weave(weave) && weave.relay_targets is Some
            && weave.conversation_owner == self.weave_agent_id && weave.conversation_id
            == first.conversation_id && weave.conversation_owner == first.conversation_owner
            && weave.task_id == first.task_id
    }

    /// Where the replies that go with `first` end, from `i` on.
    pub open spec fn batch_end(self, first: WeaveUserView, i: int) -> int
        decreases self.queued_user_messages.len() - i,
    {
        if 0 <= i < self.queued_user_messages.len() && self.batches(
            self.queued_user_messages[i],
            first,
        ) {
            self.batch_end(first, i + 1)
        } else {
            i
        }
    }

    /// How many of the messages that wait go to the model at once: replies for
    /// one task, if there are two or more.
    pub open spec fn batch_len(self) -> int {
        let queue = self.queued_user_messages;
        match queue[0].source {
            SourceView::Weave(first) => if queue.len() >= 2 && self.batches(queue[0], first)
                && self.batches(queue[1], first) {
                self.batch_end(first, 0)
            } else {
                1
            },
            SourceView::Local => 1,
        }
    }

    /// What goes to the model next.
    pub open spec fn next_message(self) -> UserMessageView {
        if self.batch_len() > 1 {
            batch_of(self.queued_user_messages.take(self.batch_len()))
        } else {
            self.queued_user_messages[0]
        }
    }

    /// Without the messages that go to the model next.
    pub open spec fn without_next(self) -> ChatView {
        self.without_first(self.batch_len())
    }

    /// Without the first messages that wait.
    pub open spec fn without_first(self, n: int) -> ChatView {
        ChatView { queued_user_messages: self.queued_user_messages.skip(n), ..self }
    }

    /// With one more message that waits.
    #[verifier::opaque]
    pub open spec fn enqueue(self, message: UserMessageView) -> ChatView {
        (ChatView {
            queued_user_messages: self.queued_user_messages.push(message),
            ..self
        }).refresh_queue()
    }

    /// With a message that waits before all others.
    #[verifier::opaque]
    pub open spec fn enqueue_first(self, message: UserMessageView) -> ChatView {
        (ChatView {
            queued_user_messages: seq![message] + self.queued_user_messages,
            ..self
        }).refresh_queue()
    }
}

/// A batch holds at least its first message.
proof fn lemma_batch_end(a: ChatView, first: WeaveUserView, i: int)
    requires
        0 <= i <= a.queued_user_messages.len(),
    ensures
        i <= a.batch_end(first, i) <= a.queued_user_messages.len(),
        forall|j: int|
            i <= j < a.batch_end(first, i) ==> a.batches(
                #[trigger] a.queued_user_messages[j],
                first,
            ),
    decreases a.queued_user_messages.len() - i,
{
    if i < a.queued_user_messages.len() && a.batches(a.queued_user_messages[i], first) {
        lemma_batch_end(a, first, i + 1);
    }
}

pub proof fn lemma_batch_len(a: ChatView)
    requires
        a.queued_user_messages.len() > 0,
    ensures
        1 <= a.batch_len() <= a.queued_user_messages.len(),
{
    match a.queued_user_messages[0].source {
        SourceView::Weave(first) => {
            if a.queued_user_messages.len() >= 2 && a.batches(a.queued_user_messages[0], first) {
                lemma_batch_end(a, first, 1);
            }
        },
        SourceView::Local => {},
    }
}

/// Replies that go to the model at once are all for the task at hand of this
/// agent, and of one conversation.
pub proof fn law_a_batch_is_of_one_conversation(a: ChatView, i: int)
    requires
        a.queued_user_messages.len() > 0,
        a.batch_len() > 1,
        0 <= i < a.batch_len(),
    ensures
        a.queued_user_messages[0].source is Weave,
        a.batches(a.queued_user_messages[i], a.queued_user_messages[0].source->Weave_0),
{
    let first = a.queued_user_messages[0].source->Weave_0;
    lemma_batch_end(a, first, 0);
}

impl UserMessage {
    /// A message of another agent.
    pub fn from_weave(text: String, weave: WeaveUserMessage) -> (r: UserMessage)
        ensures
            r.deep_view() == from_weave(text@, weave.deep_view()),
    {
        let image_paths: Vec<String> = Vec::new();
        proof {
            assert(text::views(image_paths@) =~= seq![]);
        }
        UserMessage { text, image_paths, source: UserMessageSource::Weave(weave) }
    }

    /// A message of the user.
    pub fn local(text: String, image_paths: Vec<String>) -> (r: UserMessage)
        ensures
            r.deep_view() == (UserMessageView {
                text: text@,
                image_paths: text::views(image_paths@),
                source: SourceView::Local,
            }),
    {
        UserMessage { text, image_paths, source: UserMessageSource::Local }
    }
}

fn batch_replies(queue: &Vec<UserMessage>, n: usize) -> (r: UserMessage)
    requires
        0 < n <= queue@.len(),
        forall|i: int| 0 <= i < n ==> (#[trigger] queue@[i]).source is Weave,
    ensures
        r.deep_view() == batch_of(queue.deep_view().take(n as int)),
{
    let ghost all = queue.deep_view().take(n as int);
    proof {
        assert(all[0] == queue@[0].deep_view());
    }
    let mut replies: Vec<(String, String)> = Vec::new();
    for i in 0..n
        invariant
            n <= queue@.len(),
            forall|i: int| 0 <= i < n ==> (#[trigger] queue@[i]).source is Weave,
            replies@.len() == i,
            forall|j: int|
                0 <= j < i ==> (#[trigger] replies@[j]).0@
                    == queue@[j].source->Weave_0.reply_target.display_name@ && replies@[j].1@
                    == queue@[j].text@,
    {
        match &queue[i].source {
            UserMessageSource::Weave(weave) => replies.push(
                (weave.reply_target.display_name.clone(), queue[i].text.clone()),
            ),
            UserMessageSource::Local => {},
        }
    }
    proof {
        let views = replies.deep_view();
        assert forall|i: int| 0 <= i < n implies #[trigger] views[i] == replies_of(all)[i] by {
            assert(views[i] == (replies@[i].0@, replies@[i].1@));
            assert(all[i] == queue@[i].deep_view());
        }
        assert(views =~= replies_of(all));
    }
    let text = prompts::format_batched_weave_replies(&replies);
    let first = match &queue[0].source {
        UserMessageSource::Weave(weave) => weave,
        UserMessageSource::Local => return queue[0].clone(),
    };
    let reply_target = WeaveReplyTarget {
        session_id: first.reply_target.session_id.clone(),
        agent_id: first.reply_target.agent_id.clone(),
        display_name: "multiple agents".to_owned(),
        conversation_id: first.conversation_id.clone(),
        conversation_owner: first.conversation_owner.clone(),
        parent_message_id: None,
        task_id: text::copy_option(&first.task_id),
        action_group_id: None,
        action_id: None,
        action_index: None,
    };
    let weave = WeaveUserMessage {
        reply_target,
        auto_reply: false,
        relay_targets: match &first.relay_targets {
            Some(targets) => Some(targets.clone()),
            None => None,
        },
        conversation_id: first.conversation_id.clone(),
        conversation_owner: first.conversation_owner.clone(),
        task_id: text::copy_option(&first.task_id),
        kind: first.kind,
    };
    UserMessage::from_weave(text, weave)
}

fn first_message(queue: &Vec<UserMessage>, n: usize) -> (r: UserMessage)
    requires
        0 < n <= queue@.len(),
        n > 1 ==> forall|i: int|
            0 <= i < n ==> (#[trigger] queue.deep_view()[i]).source is Weave,
    ensures
        r.deep_view() == (if n > 1 {
            batch_of(queue.deep_view().take(n as int))
        } else {
            queue.deep_view()[0]
        }),
{
    let ghost all = queue.deep_view();
    if n > 1 {
        proof {
            assert forall|i: int| 0 <= i < n implies (#[trigger] queue@[i]).source is Weave by {
                assert(all[i] == queue@[i].deep_view());
                assert(all[i].source is Weave);
            }
        }
        batch_replies(queue, n)
    } else {
        queue[0].clone()
    }
}

fn drop_messages(queue: Vec<UserMessage>, n: usize) -> (r: Vec<UserMessage>)
    requires
        n <= queue@.len(),
    ensures
        r.deep_view() == queue.deep_view().skip(n as int),
{
    let ghost all = queue.deep_view();
    let mut queue = queue;
    let r = queue.split_off(n);
    proof {
        assert(r.deep_view() =~= all.skip(n as int));
    }
    r
}

impl ChatWidget {
    pub(super) fn should_defer_weave_reply(&self, message: &UserMessage) -> (r: bool)
        ensures
            r == self@.defers(message.deep_view()),
    {
        match &message.source {
            UserMessageSource::Weave(weave) => weave.relay_targets.is_some() && text::same(
                weave.conversation_owner.as_str(),
                self.get_weave_agent_id(),
            ) && matches!(weave.kind, WeaveMessageKind::User) && self.target_owes_reply(
                weave.reply_target.agent_id.as_str(),
            ),
            UserMessageSource::Local => false,
        }
    }

    fn should_batch_weave_reply_item(&self, message: &UserMessage, first: &WeaveUserMessage) -> (r:
        bool)
        ensures
            r == self@.batches(message.deep_view(), first.deep_view()),
    {
        match &message.source {
            UserMessageSource::Weave(weave) => weave.relay_targets.is_some() && text::same(
                weave.conversation_owner.as_str(),
                self.get_weave_agent_id(),
            ) && text::same(weave.conversation_id.as_str(), first.conversation_id.as_str())
                && text::same(
                weave.conversation_owner.as_str(),
                first.conversation_owner.as_str(),
            ) && text::same_option(&weave.task_id, &first.task_id),
            UserMessageSource::Local => false,
        }
    }

    fn count_batch(&self) -> (n: usize)
        requires
            self@.queued_user_messages.len() > 0,
        ensures
            n == self@.batch_len(),
            1 <= n <= self@.queued_user_messages.len(),
            n > 1 ==> forall|i: int|
                0 <= i < n ==> (#[trigger] self@.queued_user_messages[i]).source is Weave,
    {
        proof {
            lemma_batch_len(self@);
        }
        let queue = self.get_queued_user_messages();
        let ghost all = queue.deep_view();
        proof {
            assert(all[0] == queue@[0].deep_view());
        }
        let first = match &queue[0].source {
            UserMessageSource::Weave(weave) => weave,
            UserMessageSource::Local => return 1,
        };
        if queue.len() < 2 {
            return 1;
        }
        proof {
            assert(all[1] == queue@[1].deep_view());
        }
        if !self.should_batch_weave_reply_item(&queue[0], first)
            || !self.should_batch_weave_reply_item(&queue[1], first) {
            return 1;
        }
        let ghost start = first.deep_view();
        proof {
            lemma_batch_end(self@, start, 0);
        }
        let mut n: usize = 0;
        while n < queue.len() && self.should_batch_weave_reply_item(&queue[n], first)
            invariant
                all == queue.deep_view(),
                all == self@.queued_user_messages,
                start == first.deep_view(),
                n <= queue@.len(),
                self@.batch_end(start, 0) == self@.batch_end(start, n as int),
            decreases queue@.len() - n,
        {
            proof {
                assert(all[n as int] == queue@[n as int].deep_view());
            }
            n = n + 1;
        }
        proof {
            if n < queue@.len() {
                assert(all[n as int] == queue@[n as int].deep_view());
            }
        }
        n
    }

    fn drop_first(&mut self, n: usize)
        requires
            n <= old(self)@.queued_user_messages.len(),
        ensures
            final(self)@ == old(self)@.without_first(n as int),
    {
        let queue = self.take_queued_user_messages();
        let rest = drop_messages(queue, n);
        self.put_queued_user_messages(rest);
    }

    fn pop_next(&mut self) -> (message: UserMessage)
        requires
            old(self)@.queued_user_messages.len() > 0,
        ensures
            message.deep_view() == old(self)@.next_message(),
            final(self)@ == old(self)@.without_next(),
            final(self)@.queued_user_messages.len() < old(self)@.queued_user_messages.len(),
            final(self)@.ids == old(self)@.ids,
    {
        let n = self.count_batch();
        let message = first_message(self.get_queued_user_messages(), n);
        self.drop_first(n);
        message
    }

    pub(super) fn enqueue_message(&mut self, message: UserMessage)
        ensures
            final(self)@ == old(self)@.enqueue(message.deep_view()),
            final(self)@.ids == old(self)@.ids,
    {
        proof {
            reveal(ChatView::enqueue);
            reveal(ChatView::refresh_queue);
            reveal(ChatView::emit);
        }
        let mut queue = self.take_queued_user_messages();
        let ghost before = queue.deep_view();
        let ghost view = message.deep_view();
        queue.push(message);
        proof {
            assert(queue.deep_view() =~= before.push(view));
        }
        self.put_queued_user_messages(queue);
        self.refresh_queued_user_messages();
    }

    fn enqueue_message_first(&mut self, message: UserMessage)
        ensures
            final(self)@ == old(self)@.enqueue_first(message.deep_view()),
            final(self)@.ids == old(self)@.ids,
    {
        proof {
            reveal(ChatView::enqueue_first);
            reveal(ChatView::refresh_queue);
            reveal(ChatView::emit);
        }
        let mut queue = self.take_queued_user_messages();
        let ghost before = queue.deep_view();
        let ghost view = message.deep_view();
        queue.insert(0, message);
        proof {
            assert(queue.deep_view() =~= seq![view] + before);
        }
        self.put_queued_user_messages(queue);
        self.refresh_queued_user_messages();
    }
}

// ---------------------------------------------------------------------------
// Saying it
// ---------------------------------------------------------------------------

impl ChatView {
    /// After a message of another agent went to the model.
    #[verifier::opaque]
    pub open spec fn submit_weave(
        self,
        weave: WeaveUserView,
        message: Seq<char>,
        images: Seq<Seq<char>>,
        model: Seq<char>,
    ) -> ChatView {
        if message.len() == 0 && images.len() == 0 {
            ChatView { active_weave_reply_target: None, ..self }
        } else {
            (ChatView { pending_weave_relay: weave.relay_targets, ..self.end_prompt() }).start_turn(
                model,
                self.weave_input(weave, message),
                message,
                images,
                false,
                if weave.auto_reply && weave.relay_targets is None {
                    Some(weave.reply_target)
                } else {
                    None
                },
            )
        }
    }

    /// After a text of the user, without commands to agents, went where it goes:
    /// to the shell or to the model.
    #[verifier::opaque]
    pub open spec fn submit_text(
        self,
        message: Seq<char>,
        images: Seq<Seq<char>>,
        model: Seq<char>,
        tape: Tape,
    ) -> ChatView {
        if message.len() == 0 && images.len() == 0 {
            ChatView { active_weave_reply_target: None, ..self }
        } else {
            let (begun, input) = self.end_prompt().begin_task(message, tape);
            match text::after_prefix(message, "!"@) {
                Some(command) => begun.run_shell(text::trimmed(command)),
                None => begun.start_turn(model, input, message, images, true, None),
            }
        }
    }

    /// The commands to agents in a text of the user, and what else it says.
    pub open spec fn commands_in(self, message: Seq<char>) -> (Seq<ControlActionView>, Seq<char>) {
        match self.weave_agents {
            Some(agents) => {
                let (actions, left) = mentions::control_actions(
                    message,
                    agents,
                    Some(self.weave_agent_id),
                );
                if actions.len() > 0 {
                    (actions, left)
                } else {
                    (actions, message)
                }
            },
            None => (seq![], message),
        }
    }

    /// After a message went where it goes. It waits before all others if no model
    /// is known yet.
    #[verifier::opaque]
    pub open spec fn submit(self, message: UserMessageView, tape: Tape) -> ChatView
        decreases self.queued_user_messages.len(), 2int,
    {
        match self.known_model() {
            Some(model) => match message.source {
                SourceView::Weave(weave) => self.submit_weave(
                    weave,
                    message.text,
                    message.image_paths,
                    model,
                ),
                SourceView::Local => {
                    let (actions, left) = self.commands_in(message.text);
                    self.spawn_controls(actions, tape).submit_text(
                        left,
                        message.image_paths,
                        model,
                        tape,
                    )
                },
            },
            None => self.enqueue_first(message),
        }
    }

    /// After commands of the user were sent. Agents that are interrupted leave
    /// the task at hand, and what waited for them may be said.
    #[verifier::opaque]
    pub open spec fn spawn_controls(self, actions: Seq<ControlActionView>, tape: Tape) -> ChatView
        decreases self.queued_user_messages.len(), 1int,
    {
        if actions.len() == 0 {
            self
        } else {
            let (left, dropped) = self.drop_targets(self.interrupted(actions));
            proof {
                frames::law_leaving_a_task_keeps_the_rest(self, self.interrupted(actions));
                frames::lemma_same_but_task(self, left);
            }
            let ready = if dropped {
                left.send_next(tape).finish_if_idle()
            } else {
                left
            };
            ready.send_controls(actions, tape)
        }
    }

    /// Whether the first message that waits has to wait on.
    pub open spec fn holds_back(self) -> bool {
        let queue = self.queued_user_messages;
        queue.len() > 0 && (self.waits_for_task(queue[0]) || self.defers(queue[0]))
    }

    /// After what waits first was said, if nothing runs and nothing holds it
    /// back.
    #[verifier::opaque]
    pub open spec fn send_next(self, tape: Tape) -> ChatView
        decreases self.queued_user_messages.len(), 0int,
    {
        if self.task_running || self.holds_back() {
            self
        } else if self.queued_user_messages.len() > 0 {
            proof {
                lemma_batch_len(self);
            }
            self.without_next().submit(self.next_message(), tape).refresh_queue()
        } else {
            self.refresh_queue()
        }
    }

    /// After a message came in: it is said now, or it waits.
    #[verifier::opaque]
    pub open spec fn queue_message(self, message: UserMessageView, tape: Tape) -> ChatView {
        if self.waits_for_task(message) {
            self.enqueue(message)
        } else if message.source is Weave {
            if self.defers(message) {
                self.enqueue(message)
            } else {
                self.enqueue(message).send_next(tape)
            }
        } else if self.conversation_id is None || self.task_running || self.is_review_mode {
            self.enqueue(message)
        } else {
            self.submit(message, tape)
        }
    }
}

impl ChatWidget {
    fn submit_weave_message(
        &mut self,
        weave: &WeaveUserMessage,
        message: &str,
        images: &Vec<String>,
        model: String,
    )
        ensures
            final(self)@ == old(self)@.submit_weave(
                weave.deep_view(),
                message@,
                text::views(images@),
                model@,
            ),
            final(self)@.ids == old(self)@.ids,
    {
        proof {
            reveal(ChatView::submit_weave);
            assert(text::views(images@).len() == images@.len());
        }
        if message.is_empty() && images.len() == 0 {
            self.put_active_weave_reply_target(None);
            return;
        }
        let input = self.weave_input(weave, message);
        let ghost before = self@;
        self.end_weave_relay_prompt();
        proof {
            frames::lemma_end_prompt(before);
            frames::lemma_same_but_task(before, self@);
        }
        let targets = match &weave.relay_targets {
            Some(targets) => Some(targets.clone()),
            None => None,
        };
        self.put_pending_weave_relay(targets);
        let reply_target = if weave.auto_reply && weave.relay_targets.is_none() {
            Some(weave.reply_target.clone())
        } else {
            None
        };
        self.start_turn(model, input.as_str(), message, images, false, reply_target);
    }

    fn submit_local_text(&mut self, message: &str, images: &Vec<String>, model: String)
        ensures
            state::extends(final(self)@.ids, old(self)@.ids),
            forall|tape: Tape|
                state::extends(tape, final(self)@.ids) ==> #[trigger] old(self)@.submit_text(
                    message@,
                    text::views(images@),
                    model@,
                    tape,
                ) == final(self)@,
    {
        proof {
            reveal(ChatView::submit_text);
            assert(text::views(images@).len() == images@.len());
        }
        if message.is_empty() && images.len() == 0 {
            self.put_active_weave_reply_target(None);
            return;
        }
        let ghost before = self@;
        self.end_weave_relay_prompt();
        proof {
            frames::lemma_end_prompt(before);
            frames::lemma_same_but_task(before, self@);
        }
        let input = self.begin_weave_task(message);
        match text::strip_prefix(message, "!") {
            Some(command) => self.run_shell(text::trim(command)),
            None => self.start_turn(model, input.as_str(), message, images, true, None),
        }
    }

    fn find_commands(&self, message: &str) -> (r: (Vec<WeaveControlAction>, String))
        ensures
            (r.0.deep_view(), r.1@) == self@.commands_in(message@),
    {
        match self.get_weave_agents() {
            Some(agents) => {
                let (actions, left) = mentions::parse_weave_control_actions(
                    message,
                    agents,
                    Some(self.get_weave_agent_id()),
                );
                if actions.len() > 0 {
                    (actions, left)
                } else {
                    (actions, message.to_owned())
                }
            },
            None => {
                let none: Vec<WeaveControlAction> = Vec::new();
                proof {
                    assert(none.deep_view() =~= seq![]);
                }
                (none, message.to_owned())
            },
        }
    }

    /// Says a message: commands go to other agents, the rest to the shell or to
    /// the model. It waits before all others if no model is known yet.
    pub fn submit_user_message(&mut self, message: UserMessage)
        ensures
            state::extends(final(self)@.ids, old(self)@.ids),
            forall|tape: Tape|
                state::extends(tape, final(self)@.ids) ==> #[trigger] old(self)@.submit(
                    message.deep_view(),
                    tape,
                ) == final(self)@,
        decreases old(self)@.queued_user_messages.len(), 2int,
    {
        proof {
            reveal(ChatView::submit);
            reveal(ChatView::spawn_controls);
            reveal(ChatView::send_next);
        }
        let model = match self.current_model() {
            Some(model) => model.to_owned(),
            None => {
                self.enqueue_message_first(message);
                return;
            },
        };
        let ghost start = self@;
        let ghost view = message.deep_view();
        match &message.source {
            UserMessageSource::Weave(weave) => self.submit_weave_message(
                weave,
                message.text.as_str(),
                &message.image_paths,
                model,
            ),
            UserMessageSource::Local => {
                let (actions, left) = self.find_commands(message.text.as_str());
                self.spawn_weave_control_actions(&actions);
                let ghost spawned = self@;
                self.submit_local_text(left.as_str(), &message.image_paths, model);
                proof {
                    assert forall|tape: Tape| state::extends(
                        tape,
                        self@.ids,
                    ) implies #[trigger] start.submit(view, tape) == self@ by {
                        assert(start.spawn_controls(actions.deep_view(), tape) == spawned);
                        assert(spawned.submit_text(left@, view.image_paths, model@, tape) == self@);
                    }
                }
            },
        }
    }

    fn spawn_weave_control_actions(&mut self, actions: &Vec<WeaveControlAction>)
        ensures
            state::extends(final(self)@.ids, old(self)@.ids),
            forall|tape: Tape|
                state::extends(tape, final(self)@.ids) ==> #[trigger] old(self)@.spawn_controls(
                    actions.deep_view(),
                    tape,
                ) == final(self)@,
        decreases old(self)@.queued_user_messages.len(), 1int,
    {
        proof {
            reveal(ChatView::submit);
            reveal(ChatView::spawn_controls);
            reveal(ChatView::send_next);
        }
        if actions.len() == 0 {
            return;
        }
        let ghost start = self@;
        let ids = self.interrupted_targets(actions);
        let dropped = self.drop_weave_relay_targets(&ids);
        proof {
            frames::law_leaving_a_task_keeps_the_rest(start, start.interrupted(actions.deep_view()));
            frames::lemma_same_but_task(start, self@);
        }
        let ghost left = self@;
        let ghost mut sent = self@;
        if dropped {
            self.maybe_send_next_queued_input();
            proof {
                sent = self@;
            }
            self.maybe_finish_active_weave_relay();
            proof {
                frames::law_idle_task_keeps_the_rest(sent);
                frames::lemma_same_but_task(sent, self@);
            }
        }
        let ghost ready = self@;
        self.send_weave_controls(actions);
        proof {
            let views = actions.deep_view();
            assert forall|tape: Tape| state::extends(
                tape,
                self@.ids,
            ) implies #[trigger] start.spawn_controls(views, tape) == self@ by {
                if dropped {
                    assert(left.send_next(tape) == sent);
                }
                assert(ready.send_controls(views, tape) == self@);
            }
        }
    }

    /// Says what waits first, if nothing runs and nothing holds it back.
    pub fn maybe_send_next_queued_input(&mut self)
        ensures
            state::extends(final(self)@.ids, old(self)@.ids),
            forall|tape: Tape|
                state::extends(tape, final(self)@.ids) ==> #[trigger] old(self)@.send_next(tape)
                    == final(self)@,
        decreases old(self)@.queued_user_messages.len(), 0int,
    {
        proof {
            reveal(ChatView::submit);
            reveal(ChatView::spawn_controls);
            reveal(ChatView::send_next);
        }
        if self.get_task_running() {
            return;
        }
        let ghost start = self@;
        let ghost mut left = self@;
        let queue = self.get_queued_user_messages();
        if queue.len() > 0 {
            proof {
                assert(queue.deep_view()[0] == queue@[0].deep_view());
            }
            if self.should_queue_weave_task(&queue[0]) || self.should_defer_weave_reply(&queue[0]) {
                return;
            }
            let message = self.pop_next();
            proof {
                left = self@;
            }
            self.submit_user_message(message);
        }
        let ghost said = self@;
        self.refresh_queued_user_messages();
        proof {
            frames::lemma_refresh_queue(said);
            frames::lemma_same_but_task(said, self@);
            assert forall|tape: Tape| state::extends(
                tape,
                self@.ids,
            ) implies #[trigger] start.send_next(tape) == self@ by {
                if start.queued_user_messages.len() > 0 {
                    assert(left.submit(start.next_message(), tape) == said);
                }
            }
        }
    }

    /// Takes in a message: it is said now, or it waits.
    pub fn queue_user_message(&mut self, message: UserMessage)
        ensures
            state::extends(final(self)@.ids, old(self)@.ids),
            forall|tape: Tape|
                state::extends(tape, final(self)@.ids) ==> #[trigger] old(self)@.queue_message(
                    message.deep_view(),
                    tape,
                ) == final(self)@,
    {
        proof {
            reveal(ChatView::queue_message);
        }
        if self.should_queue_weave_task(&message) {
            self.enqueue_message(message);
            return;
        }
        if matches!(&message.source, UserMessageSource::Weave(_)) {
            if self.should_defer_weave_reply(&message) {
                self.enqueue_message(message);
                return;
            }
            self.enqueue_message(message);
            self.maybe_send_next_queued_input();
            return;
        }
        if self.get_conversation_id().is_none() || self.get_task_running()
            || self.get_is_review_mode() {
            self.enqueue_message(message);
        } else {
            self.submit_user_message(message);
        }
    }
}

} // verus!

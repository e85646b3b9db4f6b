//! Turns of the model: when one runs, and what it starts with.

use vstd::prelude::*;

use crate::chat::frames;
use crate::chat::relay;
use crate::chat::state;
use crate::chat::state::{ChatView, ChatWidget, Tape};
use crate::chat::targets;
use crate::chat::types::{
    Effect, EffectView, HistoryItem, HistoryView, InputItem, InputItemView, RelayTargetsView,
    TargetStateView, WeaveRelayTargetState, WeaveRelayTargets, WeaveReplyTarget, WeaveUserMessage,
    WeaveUserView,
};
use crate::mentions;
use crate::mentions::Skill;
use crate::prompts;
use crate::prompts::{PromptView, WeavePromptContext};
use crate::table::Table;
use crate::text;

verus! {

// ---------------------------------------------------------------------------
// Whether something runs
// ---------------------------------------------------------------------------

impl ChatView {
    /// The model that answers: the one that was set, or that of the settings.
    pub open spec fn known_model(self) -> Option<Seq<char>> {
        match self.model {
            Some(model) => Some(model),
            None => self.config_model,
        }
    }

    /// With the pane showing whether something runs: the model, or a server
    /// that starts.
    #[verifier::opaque]
    pub open spec fn sync_running(self) -> ChatView {
        let running = self.agent_turn_running || self.mcp_startup_status is Some;
        (ChatView { task_running: running, ..self }).emit(EffectView::TaskRunning(running))
    }

    /// With the model at work.
    #[verifier::opaque]
    pub open spec fn begin_turn(self) -> ChatView {
        if self.agent_turn_running {
            self
        } else {
            (ChatView { agent_turn_running: true, ..self }).sync_running()
        }
    }
}

impl ChatWidget {
    pub(super) fn current_model(&self) -> (r: Option<&str>)
        ensures
            r.deep_view() == self@.known_model(),
    {
        match self.get_model() {
            Some(model) => Some(model.as_str()),
            None => match self.get_config_model() {
                Some(model) => Some(model.as_str()),
                None => None,
            },
        }
    }

    pub(super) fn update_task_running_state(&mut self)
        ensures
            final(self)@ == old(self)@.sync_running(),
            final(self)@.ids == old(self)@.ids,
    {
        proof {
            reveal(ChatView::sync_running);
            reveal(ChatView::emit);
        }
        let running = self.get_agent_turn_running() || self.get_mcp_startup_status().is_some();
        self.put_task_running(running);
        self.emit(Effect::TaskRunning(running));
    }

    fn begin_turn(&mut self)
        ensures
            final(self)@ == old(self)@.begin_turn(),
            final(self)@.ids == old(self)@.ids,
    {
        proof {
            reveal(ChatView::begin_turn);
        }
        if !self.get_agent_turn_running() {
            self.put_agent_turn_running(true);
            self.update_task_running_state();
        }
    }
}

// ---------------------------------------------------------------------------
// What the model is told
// ---------------------------------------------------------------------------

/// The agents that owe a reply.
pub open spec fn owing(states: Seq<(Seq<char>, TargetStateView)>) -> Seq<Seq<char>>
    decreases states.len(),
{
    if states.len() == 0 {
        seq![]
    } else if targets::awaits_reply(states.last().1.pending_actions) {
        owing(states.drop_last()).push(states.last().0)
    } else {
        owing(states.drop_last())
    }
}

/// What goes to the model: images, the text unless it is empty, and skills.
pub open spec fn turn_items(
    images: Seq<Seq<char>>,
    input: Seq<char>,
    skills: Seq<Skill<Seq<char>>>,
) -> Seq<InputItemView> {
    let items = Seq::new(images.len(), |i: int| InputItemView::Image(images[i]));
    let items = if input.len() > 0 {
        items.push(InputItemView::Text(input))
    } else {
        items
    };
    items + Seq::new(
        skills.len(),
        |i: int| InputItemView::Skill { name: skills[i].name, path: skills[i].path },
    )
}

impl ChatView {
    /// Those that owe a reply, as the model is told.
    pub open spec fn owing_label(self) -> Seq<char> {
        let ids = owing(self.weave_target_states);
        if ids.len() == 0 {
            "none"@
        } else {
            prompts::target_labels(ids, prompts::listed(self.weave_agents))
        }
    }

    /// What the model is told of a message from another agent.
    pub open spec fn weave_input(self, weave: WeaveUserView, message: Seq<char>) -> Seq<char> {
        prompts::weave_prompt(
            PromptView {
                self_name: self.weave_agent_name,
                sender_name: weave.reply_target.display_name,
                agents: self.weave_agents,
                message,
                is_owner: weave.conversation_owner == self.weave_agent_id,
                task_targets: match weave.relay_targets {
                    Some(targets) => Some(
                        prompts::target_labels(
                            targets.target_ids,
                            prompts::listed(self.weave_agents),
                        ),
                    ),
                    None => None,
                },
                pending_replies: match weave.relay_targets {
                    Some(_) => Some(self.owing_label()),
                    None => None,
                },
                conversation_id: weave.conversation_id,
                conversation_owner: weave.conversation_owner,
                task_id: weave.task_id,
                kind: weave.kind,
            },
        )
    }

    /// The skills that a message names.
    pub open spec fn skills_in(self, message: Seq<char>) -> Seq<Skill<Seq<char>>> {
        match self.skills {
            Some(skills) => mentions::mentioned_skills(message, skills),
            None => seq![],
        }
    }

    /// With a text kept and shown, unless it is empty.
    #[verifier::opaque]
    pub open spec fn keep_prompt(self, prompt: Seq<char>) -> ChatView {
        if prompt.len() > 0 {
            self.emit(EffectView::Remember(prompt)).history(HistoryView::UserPrompt(prompt))
        } else {
            self
        }
    }

    /// After a turn was started. What the user says is kept and shown.
    #[verifier::opaque]
    pub open spec fn start_turn(
        self,
        model: Seq<char>,
        input: Seq<char>,
        message: Seq<char>,
        images: Seq<Seq<char>>,
        local: bool,
        reply_target: Option<WeaveReplyTarget<Seq<char>>>,
    ) -> ChatView {
        let begun = (ChatView { active_weave_reply_target: reply_target, ..self }).begin_turn();
        let sent = begun.emit(
            EffectView::UserTurn {
                items: turn_items(images, input, self.skills_in(message)),
                model,
                with_mode: self.collaboration_modes,
            },
        );
        let kept = if local {
            sent.keep_prompt(message)
        } else {
            sent
        };
        kept.emit(EffectView::ResetSeparator)
    }

    /// After a command of the user was started.
    #[verifier::opaque]
    pub open spec fn run_shell(self, command: Seq<char>) -> ChatView {
        let done = if command.len() == 0 {
            self.emit(
                EffectView::InsertHistory(
                    HistoryView::Info {
                        message: "Prefix a command with ! to run it locally"@,
                        hint: Some("Example: !ls"@),
                    },
                ),
            )
        } else {
            self.emit(EffectView::RunShell(command))
        };
        ChatView { active_weave_reply_target: None, ..done }
    }
}

fn owing_ids(states: &Table<WeaveRelayTargetState>) -> (r: Vec<String>)
    ensures
        text::views(r@) == owing(states.deep_view()),
{
    let mut r: Vec<String> = Vec::new();
    let ghost all = states.deep_view();
    proof {
        assert(text::views(r@) =~= Seq::<Seq<char>>::empty());
        assert(all.take(0) =~= Seq::<(Seq<char>, TargetStateView)>::empty());
    }
    let n: usize = states.len();
    for i in 0..n
        invariant
            n == all.len(),
            all == states.deep_view(),
            text::views(r@) == owing(all.take(i as int)),
    {
        let ghost before = text::views(r@);
        proof {
            assert(all.take(i + 1).drop_last() =~= all.take(i as int));
            assert(all.take(i + 1).last() == all[i as int]);
        }
        if states.value(i).has_pending_reply() {
            r.push(states.key(i).clone());
            proof {
                assert(text::views(r@) =~= before.push(all[i as int].0));
            }
        }
    }
    proof {
        assert(all.take(all.len() as int) =~= all);
    }
    r
}

fn collect_items(images: &Vec<String>, input: &str, skills: &Vec<Skill>) -> (r: Vec<InputItem>)
    ensures
        r.deep_view() == turn_items(text::views(images@), input@, skills.deep_view()),
{
    let mut items: Vec<InputItem> = Vec::new();
    for i in 0..images.len()
        invariant
            items@.len() == i,
            forall|j: int|
                0 <= j < i ==> (#[trigger] items@[j]).deep_view() == InputItemView::Image(
                    images@[j]@,
                ),
    {
        items.push(InputItem::Image(images[i].clone()));
    }
    let ghost shown = Seq::new(
        images@.len(),
        |i: int| InputItemView::Image(text::views(images@)[i]),
    );
    proof {
        assert(items.deep_view() =~= shown);
    }
    if !input.is_empty() {
        items.push(InputItem::Text(input.to_owned()));
        proof {
            assert(items.deep_view() =~= shown.push(InputItemView::Text(input@)));
        }
    }
    let ghost first = items.deep_view();
    let ghost all = Seq::new(
        skills@.len(),
        |i: int|
            InputItemView::Skill {
                name: skills.deep_view()[i].name,
                path: skills.deep_view()[i].path,
            },
    );
    proof {
        assert(first + all.take(0) =~= first);
    }
    for i in 0..skills.len()
        invariant
            all == Seq::new(
                skills@.len(),
                |i: int|
                    InputItemView::Skill {
                        name: skills.deep_view()[i].name,
                        path: skills.deep_view()[i].path,
                    },
            ),
            items.deep_view() == first + all.take(i as int),
    {
        let ghost before = items.deep_view();
        let item = InputItem::Skill { name: skills[i].name.clone(), path: skills[i].path.clone() };
        let ghost view = item.deep_view();
        items.push(item);
        proof {
            assert(items.deep_view() =~= before.push(view));
            assert(view == all[i as int]);
            assert(first + all.take(i + 1) =~= (first + all.take(i as int)).push(all[i as int]));
        }
    }
    proof {
        assert(all.take(all.len() as int) =~= all);
    }
    items
}

impl ChatWidget {
    fn weave_pending_reply_labels(&self) -> (r: String)
        ensures
            r@ == self@.owing_label(),
    {
        let ids = owing_ids(self.get_weave_target_states());
        proof {
            assert(text::views(ids@).len() == ids@.len());
        }
        if ids.len() == 0 {
            return "none".to_owned();
        }
        prompts::weave_target_labels(&ids, self.get_weave_agents())
    }

    pub(super) fn weave_input(&self, weave: &WeaveUserMessage, message: &str) -> (r: String)
        ensures
            r@ == self@.weave_input(weave.deep_view(), message@),
    {
        let (task_targets, pending_replies) = match &weave.relay_targets {
            Some(targets) => (
                Some(prompts::weave_target_labels(&targets.target_ids, self.get_weave_agents())),
                Some(self.weave_pending_reply_labels()),
            ),
            None => (None, None),
        };
        let context = WeavePromptContext {
            self_name: self.get_weave_agent_name(),
            sender_name: weave.reply_target.display_name.as_str(),
            agents: self.get_weave_agents().as_ref(),
            message,
            is_owner: text::same(weave.conversation_owner.as_str(), self.get_weave_agent_id()),
            task_targets: match &task_targets {
                Some(label) => Some(label.as_str()),
                None => None,
            },
            pending_replies: match &pending_replies {
                Some(label) => Some(label.as_str()),
                None => None,
            },
            conversation_id: weave.conversation_id.as_str(),
            conversation_owner: weave.conversation_owner.as_str(),
            task_id: match &weave.task_id {
                Some(task_id) => Some(task_id.as_str()),
                None => None,
            },
            kind: weave.kind,
        };
        prompts::format_weave_prompt(&context)
    }

    fn find_skills(&self, message: &str) -> (r: Vec<Skill>)
        ensures
            r.deep_view() == self@.skills_in(message@),
    {
        match self.get_skills() {
            Some(skills) => mentions::find_skill_mentions(message, skills),
            None => {
                let none: Vec<Skill> = Vec::new();
                proof {
                    assert(none.deep_view() =~= seq![]);
                }
                none
            },
        }
    }

    fn keep_prompt(&mut self, prompt: &str)
        ensures
            final(self)@ == old(self)@.keep_prompt(prompt@),
            final(self)@.ids == old(self)@.ids,
    {
        proof {
            reveal(ChatView::keep_prompt);
            reveal(ChatView::emit);
        }
        if !prompt.is_empty() {
            self.emit(Effect::Remember(prompt.to_owned()));
            self.add_to_history(HistoryItem::UserPrompt(prompt.to_owned()));
        }
    }

    pub(super) fn start_turn(
        &mut self,
        model: String,
        input: &str,
        message: &str,
        images: &Vec<String>,
        local: bool,
        reply_target: Option<WeaveReplyTarget>,
    )
        ensures
            final(self)@ == old(self)@.start_turn(
                model@,
                input@,
                message@,
                text::views(images@),
                local,
                reply_target.deep_view(),
            ),
            final(self)@.ids == old(self)@.ids,
    {
        proof {
            reveal(ChatView::start_turn);
        }
        let skills = self.find_skills(message);
        let items = collect_items(images, input, &skills);
        let with_mode = self.get_collaboration_modes();
        self.put_active_weave_reply_target(reply_target);
        self.begin_turn();
        let ghost begun = self@;
        self.emit(Effect::UserTurn { items, model, with_mode });
        proof {
            frames::lemma_emit(
                begun,
                EffectView::UserTurn { items: items.deep_view(), model: model@, with_mode },
            );
            frames::lemma_same_but_task(begun, self@);
        }
        if local {
            self.keep_prompt(message);
        }
        let ghost kept = self@;
        self.emit(Effect::ResetSeparator);
        proof {
            frames::lemma_emit(kept, EffectView::ResetSeparator);
            frames::lemma_same_but_task(kept, self@);
        }
    }

    pub(super) fn run_shell(&mut self, command: &str)
        ensures
            final(self)@ == old(self)@.run_shell(command@),
            final(self)@.ids == old(self)@.ids,
    {
        proof {
            reveal(ChatView::run_shell);
            reveal(ChatView::emit);
        }
        if command.is_empty() {
            self.emit(
                Effect::InsertHistory(
                    HistoryItem::Info {
                        message: "Prefix a command with ! to run it locally".to_owned(),
                        hint: Some("Example: !ls".to_owned()),
                    },
                ),
            );
        } else {
            self.emit(Effect::RunShell(command.to_owned()));
        }
        self.put_active_weave_reply_target(None);
    }
}

// ---------------------------------------------------------------------------
// Tasks that the user gives
// ---------------------------------------------------------------------------

impl ChatView {
    /// With the task at hand, and new conversations with those that take part.
    #[verifier::opaque]
    pub open spec fn open_task(
        self,
        relay: RelayTargetsView,
        wants_plan: bool,
        tape: Tape,
    ) -> ChatView {
        (ChatView {
            pending_weave_relay: Some(relay),
            active_weave_relay: Some(relay),
            active_weave_plan: None,
            pending_weave_plan: wants_plan,
            ..self
        }).reset_conversations(relay.target_ids, tape).refresh_label()
    }

    /// With nothing left to do for the task at hand, which is given up.
    #[verifier::opaque]
    pub open spec fn leave_task(self) -> ChatView {
        match self.active_weave_relay {
            Some(relay) => (ChatView { active_weave_relay: None, ..self }).clear_targets(
                relay.target_ids,
            ),
            None => self,
        }
    }

    /// Without a plan, and without the wish for one.
    #[verifier::opaque]
    pub open spec fn without_plan(self) -> ChatView {
        ChatView { active_weave_plan: None, pending_weave_plan: false, ..self }
    }

    /// With no task at hand.
    pub open spec fn close_task(self) -> ChatView {
        self.leave_task().without_plan().refresh_label()
    }

    /// With the task that a message gives to the agents that it names, or with
    /// none if it names none; and what the model is told.
    #[verifier::opaque]
    pub open spec fn begin_task(self, message: Seq<char>, tape: Tape) -> (ChatView, Seq<char>) {
        match self.weave_agents {
            Some(agents) => {
                let members = mentions::mentioned_agents(
                    text::words(message),
                    agents,
                    Some(self.weave_agent_id),
                );
                if members.len() > 0 {
                    let wants_plan = prompts::wants_plan(message);
                    let relay = RelayTargetsView {
                        owner_id: self.weave_agent_id,
                        relay_id: self.next_id(tape),
                        target_ids: relay::agent_ids(members),
                    };
                    (
                        self.drew(tape).open_task(relay, wants_plan, tape),
                        message + "\n\n"@ + prompts::relay_prompt(members, wants_plan),
                    )
                } else {
                    (self.close_task(), message)
                }
            },
            None => (self, message),
        }
    }
}

impl ChatWidget {
    fn set_weave_task(&mut self, relay: &WeaveRelayTargets, wants_plan: bool)
        ensures
            final(self)@ == (ChatView {
                pending_weave_relay: Some(relay.deep_view()),
                active_weave_relay: Some(relay.deep_view()),
                active_weave_plan: None,
                pending_weave_plan: wants_plan,
                ..old(self)@
            }),
    {
        self.put_pending_weave_relay(Some(relay.clone()));
        self.put_active_weave_relay(Some(relay.clone()));
        self.put_active_weave_plan(None);
        self.put_pending_weave_plan(wants_plan);
    }

    fn open_weave_task(&mut self, relay: &WeaveRelayTargets, wants_plan: bool)
        ensures
            state::extends(final(self)@.ids, old(self)@.ids),
            forall|tape: Tape|
                state::extends(tape, final(self)@.ids) ==> #[trigger] old(self)@.open_task(
                    relay.deep_view(),
                    wants_plan,
                    tape,
                ) == final(self)@,
    {
        proof {
            reveal(ChatView::open_task);
        }
        self.set_weave_task(relay, wants_plan);
        self.reset_weave_relay_targets(&relay.target_ids);
        let ghost reset = self@;
        self.refresh_weave_session_label();
        proof {
            frames::lemma_refresh_label(reset);
            frames::lemma_same_but_task(reset, self@);
        }
    }

    pub(super) fn leave_weave_task(&mut self)
        ensures
            final(self)@ == old(self)@.leave_task(),
            final(self)@.ids == old(self)@.ids,
    {
        proof {
            reveal(ChatView::leave_task);
        }
        let relay = match self.get_active_weave_relay() {
            Some(relay) => relay.clone(),
            None => return,
        };
        self.put_active_weave_relay(None);
        let ghost before = self@;
        self.clear_pending_weave_actions_for_targets(&relay.target_ids);
        proof {
            frames::law_clearing_targets_keeps_the_rest(before, relay.deep_view().target_ids);
            frames::lemma_same_but_task(before, self@);
        }
    }

    pub(super) fn forget_weave_plan(&mut self)
        ensures
            final(self)@ == old(self)@.without_plan(),
            final(self)@.ids == old(self)@.ids,
    {
        proof {
            reveal(ChatView::without_plan);
        }
        self.put_active_weave_plan(None);
        self.put_pending_weave_plan(false);
    }

    fn close_weave_task(&mut self)
        ensures
            final(self)@ == old(self)@.close_task(),
            final(self)@.ids == old(self)@.ids,
    {
        self.leave_weave_task();
        self.forget_weave_plan();
        let ghost before = self@;
        self.refresh_weave_session_label();
        proof {
            frames::lemma_refresh_label(before);
            frames::lemma_same_but_task(before, self@);
        }
    }

    pub(super) fn begin_weave_task(&mut self, message: &str) -> (input: String)
        ensures
            state::extends(final(self)@.ids, old(self)@.ids),
            forall|tape: Tape|
                state::extends(tape, final(self)@.ids) ==> #[trigger] old(self)@.begin_task(
                    message@,
                    tape,
                ) == (final(self)@, input@),
    {
        proof {
            reveal(ChatView::begin_task);
        }
        let own = self.get_weave_agent_id().to_owned();
        let members = match self.get_weave_agents() {
            Some(agents) => mentions::find_weave_mentions(message, agents, Some(own.as_str())),
            None => return message.to_owned(),
        };
        if members.len() == 0 {
            self.close_weave_task();
            return message.to_owned();
        }
        let wants_plan = prompts::should_request_weave_plan(message);
        let relay_id = self.draw_id();
        let relay = WeaveRelayTargets::new(own, relay_id, &members);
        self.open_weave_task(&relay, wants_plan);
        let prompt = prompts::build_weave_relay_prompt(&members, wants_plan);
        text::concat3(message, "\n\n", prompt.as_str())
    }
}

} // verus!

//! Commands to other agents.

use vstd::prelude::*;

use crate::chat::frames;
use crate::chat::state;
use crate::chat::state::{ChatView, ChatWidget, Tape};
use crate::chat::types::{
    ControlSend, Effect, EffectView, RelayTargetsView, WeaveRelayTargets,
};
use crate::client::{WeaveAgent, WeaveMessageMetadata, WeaveTool};
use crate::mentions::{ControlActionView, WeaveControlAction};
use crate::text;

verus! {

/// A command on its way.
pub type SendView = ControlSend<Seq<char>>;

/// The ids of the agents that take part in the task.
pub open spec fn members_among(
    agents: Seq<WeaveAgent<Seq<char>>>,
    relay: RelayTargetsView,
) -> Seq<Seq<char>>
    decreases agents.len(),
{
    if agents.len() == 0 {
        seq![]
    } else if relay.allows(agents.last().id) {
        members_among(agents.drop_last(), relay).push(agents.last().id)
    } else {
        members_among(agents.drop_last(), relay)
    }
}

/// The ids of those that take part in the task and are interrupted.
pub open spec fn interrupted_members(
    actions: Seq<ControlActionView>,
    relay: RelayTargetsView,
) -> Seq<Seq<char>>
    decreases actions.len(),
{
    if actions.len() == 0 {
        seq![]
    } else {
        let before = interrupted_members(actions.drop_last(), relay);
        if actions.last().tool is Interrupt {
            before + members_among(actions.last().targets, relay)
        } else {
            before
        }
    }
}

impl ChatView {
    /// The ids of those that take part in the task at hand and are interrupted.
    pub open spec fn interrupted(self, actions: Seq<ControlActionView>) -> Seq<Seq<char>> {
        match self.active_weave_relay {
            Some(relay) => interrupted_members(actions, relay),
            None => seq![],
        }
    }

    /// The conversation that an interrupt is for, if there is one.
    pub open spec fn interrupt_metadata(self, id: Seq<char>) -> Option<
        WeaveMessageMetadata<Seq<char>>,
    > {
        match self.active_weave_reply_target {
            Some(target) if target.agent_id == id => Some(
                WeaveMessageMetadata {
                    conversation_id: target.conversation_id,
                    conversation_owner: target.conversation_owner,
                    parent_message_id: None,
                    task_id: target.task_id,
                },
            ),
            _ => match self.target(id) {
                Some(state) => Some(self.own_metadata(state.context_id, state.task_id)),
                None => None,
            },
        }
    }

    /// A conversation of this agent.
    pub open spec fn own_metadata(
        self,
        context_id: Seq<char>,
        task_id: Seq<char>,
    ) -> WeaveMessageMetadata<Seq<char>> {
        WeaveMessageMetadata {
            conversation_id: context_id,
            conversation_owner: self.weave_agent_id,
            parent_message_id: None,
            task_id: Some(task_id),
        }
    }

    /// With a conversation for a command to an agent.
    #[verifier::opaque]
    pub open spec fn for_command(self, id: Seq<char>, tool: WeaveTool<Seq<char>>, tape: Tape) -> (
        ChatView,
        Option<WeaveMessageMetadata<Seq<char>>>,
    ) {
        if tool is Interrupt {
            (self, self.interrupt_metadata(id))
        } else {
            let with = self.with_conversation(id, tape);
            let state = with.target(id)->0;
            (with, Some(self.own_metadata(state.context_id, state.task_id)))
        }
    }

    /// With a command ready for each of these agents.
    pub open spec fn prepare(
        self,
        agents: Seq<WeaveAgent<Seq<char>>>,
        tool: WeaveTool<Seq<char>>,
        tape: Tape,
    ) -> (ChatView, Seq<SendView>)
        decreases agents.len(),
    {
        if agents.len() == 0 {
            (self, seq![])
        } else {
            let (before, sends) = self.prepare(agents.drop_last(), tool, tape);
            let (after, metadata) = before.for_command(agents.last().id, tool, tape);
            (after, sends.push(ControlSend { agent: agents.last(), tool, metadata }))
        }
    }

    /// With no reply due from these agents, and whether one was.
    pub open spec fn clear_all_expectations(self, agents: Seq<WeaveAgent<Seq<char>>>) -> (
        ChatView,
        bool,
    )
        decreases agents.len(),
    {
        if agents.len() == 0 {
            (self, false)
        } else {
            let (before, changed) = self.clear_all_expectations(agents.drop_last());
            let (after, changes) = before.clear_expectations(agents.last().id);
            (after, changed || changes)
        }
    }

    /// With the commands ready, and whether a reply is no longer due: from those
    /// that are interrupted none is.
    pub open spec fn prepare_all(self, actions: Seq<ControlActionView>, tape: Tape) -> (
        ChatView,
        Seq<SendView>,
        bool,
    )
        decreases actions.len(),
    {
        if actions.len() == 0 {
            (self, seq![], false)
        } else {
            let (before, sends, cleared) = self.prepare_all(actions.drop_last(), tape);
            let action = actions.last();
            let (quiet, changed) = if action.tool is Interrupt {
                before.clear_all_expectations(action.targets)
            } else {
                (before, false)
            };
            let (after, more) = quiet.prepare(action.targets, action.tool, tape);
            (after, sends + more, cleared || changed)
        }
    }

    /// With the commands on their way.
    #[verifier::opaque]
    pub open spec fn send_controls(self, actions: Seq<ControlActionView>, tape: Tape) -> ChatView {
        if self.weave_connected {
            let (ready, sends, cleared) = self.emit(EffectView::ScrollToBottom).prepare_all(
                actions,
                tape,
            );
            let ready = if cleared {
                ready.finish_if_idle()
            } else {
                ready
            };
            ready.emit(EffectView::SendControls(sends))
        } else {
            self.error("Weave session isn't connected."@)
        }
    }
}

fn push_members(ids: &mut Vec<String>, agents: &Vec<WeaveAgent>, relay: &WeaveRelayTargets)
    ensures
        text::views(final(ids)@) == text::views(old(ids)@) + members_among(
            agents.deep_view(),
            relay.deep_view(),
        ),
{
    let ghost all = agents.deep_view();
    let ghost start = text::views(ids@);
    proof {
        assert(all.take(0) =~= Seq::<WeaveAgent<Seq<char>>>::empty());
        assert(start + Seq::<Seq<char>>::empty() =~= start);
    }
    for i in 0..agents.len()
        invariant
            all == agents.deep_view(),
            text::views(ids@) == start + members_among(all.take(i as int), relay.deep_view()),
    {
        let ghost before = text::views(ids@);
        proof {
            assert(all.take(i + 1).drop_last() =~= all.take(i as int));
            assert(all.take(i + 1).last() == agents@[i as int].deep_view());
        }
        if relay.allows(&agents[i]) {
            ids.push(agents[i].id.clone());
            proof {
                assert(text::views(ids@) =~= before.push(agents@[i as int].id@));
                assert(text::views(ids@) =~= start + members_among(
                    all.take(i + 1),
                    relay.deep_view(),
                ));
            }
        }
    }
    proof {
        assert(all.take(all.len() as int) =~= all);
    }
}

impl ChatWidget {
    pub(super) fn interrupted_targets(&self, actions: &Vec<WeaveControlAction>) -> (r: Vec<String>)
        ensures
            text::views(r@) == self@.interrupted(actions.deep_view()),
    {
        let mut r: Vec<String> = Vec::new();
        let ghost all = actions.deep_view();
        proof {
            assert(text::views(r@) =~= Seq::<Seq<char>>::empty());
            assert(all.take(0) =~= Seq::<ControlActionView>::empty());
        }
        match self.get_active_weave_relay() {
            Some(relay) => {
                for i in 0..actions.len()
                    invariant
                        all == actions.deep_view(),
                        text::views(r@) == interrupted_members(
                            all.take(i as int),
                            relay.deep_view(),
                        ),
                {
                    proof {
                        assert(all.take(i + 1).drop_last() =~= all.take(i as int));
                        assert(all.take(i + 1).last() == actions@[i as int].deep_view());
                    }
                    if matches!(actions[i].tool, WeaveTool::Interrupt) {
                        push_members(&mut r, &actions[i].targets, relay);
                    }
                }
            },
            None => {},
        }
        proof {
            assert(all.take(all.len() as int) =~= all);
        }
        r
    }

    fn resolve_weave_interrupt_metadata(&self, id: &str) -> (r: Option<WeaveMessageMetadata>)
        ensures
            r.deep_view() == self@.interrupt_metadata(id@),
    {
        match self.get_active_weave_reply_target() {
            Some(target) => {
                if text::same(target.agent_id.as_str(), id) {
                    return Some(
                        WeaveMessageMetadata {
                            conversation_id: target.conversation_id.clone(),
                            conversation_owner: target.conversation_owner.clone(),
                            parent_message_id: None,
                            task_id: text::copy_option(&target.task_id),
                        },
                    );
                }
            },
            None => {},
        }
        match self.find_target(id) {
            Some(state) => Some(
                WeaveMessageMetadata {
                    conversation_id: state.context_id.clone(),
                    conversation_owner: self.get_weave_agent_id().to_owned(),
                    parent_message_id: None,
                    task_id: Some(state.task_id.clone()),
                },
            ),
            None => None,
        }
    }

    fn resolve_weave_control_metadata(&mut self, id: &str, tool: &WeaveTool) -> (r: Option<
        WeaveMessageMetadata,
    >)
        ensures
            state::extends(final(self)@.ids, old(self)@.ids),
            forall|tape: Tape|
                state::extends(tape, final(self)@.ids) ==> #[trigger] old(self)@.for_command(
                    id@,
                    tool.deep_view(),
                    tape,
                ) == (final(self)@, r.deep_view()),
    {
        proof {
            reveal(ChatView::for_command);
        }
        if matches!(tool, WeaveTool::Interrupt) {
            return self.resolve_weave_interrupt_metadata(id);
        }
        let owner = self.get_weave_agent_id().to_owned();
        self.ensure_target(id);
        match self.find_target(id) {
            Some(state) => Some(
                WeaveMessageMetadata {
                    conversation_id: state.context_id.clone(),
                    conversation_owner: owner,
                    parent_message_id: None,
                    task_id: Some(state.task_id.clone()),
                },
            ),
            None => None,
        }
    }

    fn clear_reply_expectations(&mut self, agents: &Vec<WeaveAgent>) -> (changed: bool)
        ensures
            (final(self)@, changed) == old(self)@.clear_all_expectations(agents.deep_view()),
            final(self)@.ids == old(self)@.ids,
    {
        let ghost all = agents.deep_view();
        let ghost start = self@;
        let mut changed = false;
        proof {
            assert(all.take(0) =~= Seq::<WeaveAgent<Seq<char>>>::empty());
        }
        for i in 0..agents.len()
            invariant
                all == agents.deep_view(),
                (self@, changed) == start.clear_all_expectations(all.take(i as int)),
                self@.ids == start.ids,
        {
            proof {
                assert(all.take(i + 1).drop_last() =~= all.take(i as int));
                assert(all.take(i + 1).last() == agents@[i as int].deep_view());
                frames::law_clearing_expectations_keeps_the_rest(self@, agents@[i as int].id@);
                frames::lemma_same_but_task(
                    self@,
                    self@.clear_expectations(agents@[i as int].id@).0,
                );
            }
            if self.clear_pending_weave_reply_expectations_for_agent(agents[i].id.as_str()) {
                changed = true;
            }
        }
        proof {
            assert(all.take(all.len() as int) =~= all);
        }
        changed
    }

    fn prepare_controls(
        &mut self,
        agents: &Vec<WeaveAgent>,
        tool: &WeaveTool,
        sends: &mut Vec<ControlSend>,
    )
        ensures
            state::extends(final(self)@.ids, old(self)@.ids),
            forall|tape: Tape|
                state::extends(tape, final(self)@.ids) ==> {
                    let prepared = #[trigger] old(self)@.prepare(
                        agents.deep_view(),
                        tool.deep_view(),
                        tape,
                    );
                    &&& prepared.0 == final(self)@
                    &&& final(sends).deep_view() == old(sends).deep_view() + prepared.1
                },
    {
        let ghost all = agents.deep_view();
        let ghost start = self@;
        let ghost first = sends.deep_view();
        let ghost kind = tool.deep_view();
        proof {
            assert(all.take(0) =~= Seq::<WeaveAgent<Seq<char>>>::empty());
            assert(first + Seq::<SendView>::empty() =~= first);
        }
        let mut i: usize = 0;
        let ghost mut done = all.take(0);
        while i < agents.len()
            invariant
                all == agents.deep_view(),
                kind == tool.deep_view(),
                i <= agents@.len(),
                done == all.take(i as int),
                state::extends(self@.ids, start.ids),
                forall|tape: Tape|
                    state::extends(tape, self@.ids) ==> {
                        let prepared = #[trigger] start.prepare(done, kind, tape);
                        &&& prepared.0 == self@
                        &&& sends.deep_view() == first + prepared.1
                    },
            decreases agents@.len() - i,
        {
            let ghost before = self@;
            let ghost sent = sends.deep_view();
            let metadata = self.resolve_weave_control_metadata(agents[i].id.as_str(), tool);
            let send = ControlSend { agent: agents[i].clone(), tool: tool.clone(), metadata };
            let ghost view = send.deep_view();
            sends.push(send);
            proof {
                let more = all.take(i + 1);
                assert(more.drop_last() =~= done);
                assert(more.last() == agents@[i as int].deep_view());
                assert(sends.deep_view() =~= sent.push(view));
                assert forall|tape: Tape| state::extends(tape, self@.ids) implies {
                    let prepared = #[trigger] start.prepare(more, kind, tape);
                    &&& prepared.0 == self@
                    &&& sends.deep_view() == first + prepared.1
                } by {
                    assert(start.prepare(done, kind, tape).0 == before);
                    assert(before.for_command(more.last().id, kind, tape).0 == self@);
                    assert(sends.deep_view() =~= first + start.prepare(more, kind, tape).1);
                }
                done = more;
            }
            i = i + 1;
        }
        proof {
            assert(all.take(all.len() as int) =~= all);
        }
    }

    fn prepare_all_controls(&mut self, actions: &Vec<WeaveControlAction>) -> (r: (
        Vec<ControlSend>,
        bool,
    ))
        ensures
            state::extends(final(self)@.ids, old(self)@.ids),
            forall|tape: Tape|
                state::extends(tape, final(self)@.ids) ==> #[trigger] old(self)@.prepare_all(
                    actions.deep_view(),
                    tape,
                ) == (final(self)@, r.0.deep_view(), r.1),
    {
        let ghost all = actions.deep_view();
        let ghost start = self@;
        let mut sends: Vec<ControlSend> = Vec::new();
        let mut cleared = false;
        proof {
            assert(all.take(0) =~= Seq::<ControlActionView>::empty());
            assert(sends.deep_view() =~= seq![]);
        }
        let mut i: usize = 0;
        let ghost mut done = all.take(0);
        while i < actions.len()
            invariant
                all == actions.deep_view(),
                i <= actions@.len(),
                done == all.take(i as int),
                state::extends(self@.ids, start.ids),
                forall|tape: Tape|
                    state::extends(tape, self@.ids) ==> #[trigger] start.prepare_all(done, tape)
                        == (self@, sends.deep_view(), cleared),
            decreases actions@.len() - i,
        {
            let ghost before = self@;
            let ghost sent = sends.deep_view();
            let ghost was = cleared;
            let ghost mut changed = false;
            if matches!(actions[i].tool, WeaveTool::Interrupt) {
                if self.clear_reply_expectations(&actions[i].targets) {
                    cleared = true;
                    proof {
                        changed = true;
                    }
                }
            }
            let ghost quiet = self@;
            self.prepare_controls(&actions[i].targets, &actions[i].tool, &mut sends);
            proof {
                let more = all.take(i + 1);
                assert(more.drop_last() =~= done);
                assert(more.last() == actions@[i as int].deep_view());
                assert forall|tape: Tape| state::extends(
                    tape,
                    self@.ids,
                ) implies #[trigger] start.prepare_all(more, tape) == (
                    self@,
                    sends.deep_view(),
                    cleared,
                ) by {
                    assert(start.prepare_all(done, tape) == (before, sent, was));
                    assert(quiet.prepare(more.last().targets, more.last().tool, tape).0 == self@);
                }
                done = more;
            }
            i = i + 1;
        }
        proof {
            assert(all.take(all.len() as int) =~= all);
        }
        (sends, cleared)
    }

    pub(super) fn send_weave_controls(&mut self, actions: &Vec<WeaveControlAction>)
        ensures
            state::extends(final(self)@.ids, old(self)@.ids),
            forall|tape: Tape|
                state::extends(tape, final(self)@.ids) ==> #[trigger] old(self)@.send_controls(
                    actions.deep_view(),
                    tape,
                ) == final(self)@,
    {
        proof {
            reveal(ChatView::send_controls);
        }
        if !self.get_weave_connected() {
            proof {
                reveal(ChatView::emit);
            }
            self.add_error("Weave session isn't connected.");
            return;
        }
        let ghost start = self@;
        self.emit(Effect::ScrollToBottom);
        proof {
            frames::lemma_emit(start, EffectView::ScrollToBottom);
            frames::lemma_same_but_task(start, self@);
        }
        let (sends, cleared) = self.prepare_all_controls(actions);
        let ghost ready = self@;
        if cleared {
            self.maybe_finish_active_weave_relay();
            proof {
                frames::law_idle_task_keeps_the_rest(ready);
                frames::lemma_same_but_task(ready, self@);
            }
        }
        let ghost done = self@;
        self.emit(Effect::SendControls(sends));
        proof {
            frames::lemma_emit(done, EffectView::SendControls(sends.deep_view()));
            frames::lemma_same_but_task(done, self@);
        }
    }
}

} // verus!

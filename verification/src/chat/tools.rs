//! Commands of other agents.

use vstd::prelude::*;

use crate::chat::frames;
use crate::chat::sending;
use crate::chat::state;
use crate::chat::state::{ChatView, ChatWidget, Tape};
use crate::chat::steps;
use crate::chat::targets;
use crate::chat::types::{
    Effect, EffectView, WeaveControlContext, WeavePendingActionResult,
    WeavePendingNewSessionContext, WeaveReplyTarget, WeaveToolContext,
};
use crate::client::WeaveTool;
use crate::text;

verus! {

/// Who wants a command to be carried out, and in which conversation.
pub type ContextView = WeaveToolContext<Seq<char>>;

// ---------------------------------------------------------------------------
// New sessions
// ---------------------------------------------------------------------------

impl ChatView {
    /// With nothing known of conversations with other agents.
    #[verifier::opaque]
    pub open spec fn forget_conversations(self) -> ChatView {
        ChatView {
            active_weave_reply_target: None,
            active_weave_control_context: None,
            pending_weave_relay: None,
            active_weave_relay: None,
            active_weave_plan: None,
            pending_weave_plan: false,
            weave_target_states: seq![],
            weave_relay_buffer: seq![],
            ..self
        }
    }

    /// With nothing that waits to be said.
    #[verifier::opaque]
    pub open spec fn empty_queue(self) -> ChatView {
        if self.queued_user_messages.len() > 0 {
            (ChatView { queued_user_messages: seq![], ..self }).refresh_queue()
        } else {
            self
        }
    }

    /// After a new session was asked for.
    pub open spec fn start_new_session(self) -> ChatView {
        self.forget_conversations().empty_queue().emit(EffectView::NewSession).redraw()
    }

    /// After the new session that waited for the end of the turn was asked for.
    pub open spec fn start_pending_session(self) -> ChatView {
        if self.pending_weave_new_session {
            (ChatView { pending_weave_new_session: false, ..self }).start_new_session()
        } else {
            self
        }
    }

    /// Whether a new session can wait until the turn ends: the turn is for the
    /// one who asks.
    pub open spec fn can_wait_for_turn(self, ctx: ContextView) -> bool {
        (self.active_weave_reply_target matches Some(target) && target.agent_id == ctx.sender_id
            && target.conversation_id == ctx.conversation_id && target.conversation_owner
            == ctx.conversation_owner) || self.works_for(ctx.sender_id)
    }

    /// Whether a new session was asked for and is not there yet.
    pub open spec fn awaits_session(self) -> bool {
        self.pending_weave_new_session_context is Some
            || self.pending_weave_new_session_result is Some
    }

    /// With it noted who asked for the new session, and the conversation that
    /// goes on in it.
    #[verifier::opaque]
    pub open spec fn note_new_session(self, ctx: ContextView, tape: Tape) -> ChatView {
        match (ctx.action.group_id, ctx.action.action_id, ctx.action.action_index) {
            (Some(group_id), Some(action_id), Some(action_index)) => {
                let first = self.drew(tape);
                let second = first.drew(tape);
                ChatView {
                    pending_weave_new_session_result: Some(
                        WeavePendingActionResult {
                            sender_id: ctx.sender_id,
                            group_id,
                            action_id,
                            action_index,
                        },
                    ),
                    pending_weave_new_session_context: Some(
                        WeavePendingNewSessionContext {
                            group_id,
                            previous_conversation_id: ctx.conversation_id,
                            action_index: Some(action_index),
                            conversation_id: self.next_id(tape),
                            conversation_owner: ctx.sender_id,
                            task_id: first.next_id(tape),
                        },
                    ),
                    ..second
                }
            },
            _ => self,
        }
    }

    /// With the conversation that goes on in the new session, and the one who
    /// asked for it told.
    #[verifier::opaque]
    pub open spec fn tell_new_session(
        self,
        context: WeavePendingNewSessionContext<Seq<char>>,
    ) -> ChatView {
        let state = targets::new_state(context.conversation_id, context.task_id);
        match self.pending_weave_new_session_result {
            Some(pending) => (ChatView {
                pending_weave_new_session_result: None,
                ..self
            }).with_target(pending.sender_id, state).send_result(
                pending.sender_id,
                sending::action_result(
                    pending.group_id,
                    pending.action_id,
                    pending.action_index,
                    "completed"@,
                    None,
                    Some(context.conversation_id),
                    Some(context.task_id),
                ),
            ),
            None => self.with_target(context.conversation_owner, state),
        }
    }

    /// After the one who asked was told that the new session is there, if it is.
    #[verifier::opaque]
    pub open spec fn report_new_session(self) -> ChatView {
        match self.pending_weave_new_session_context {
            Some(context) => if self.conversation_id is Some && self.weave_connected {
                let told = self.tell_new_session(context);
                if self.pending_weave_action_messages.len() == 0 {
                    ChatView { pending_weave_new_session_context: None, ..told }
                } else {
                    told
                }
            } else {
                self
            },
            None => self,
        }
    }
}

impl ChatWidget {
    fn forget_weave_conversations(&mut self)
        ensures
            final(self)@ == old(self)@.forget_conversations(),
            final(self)@.ids == old(self)@.ids,
            final(self)@.queued_user_messages == old(self)@.queued_user_messages,
    {
        proof {
            reveal(ChatView::forget_conversations);
        }
        self.put_active_weave_reply_target(None);
        self.put_active_weave_control_context(None);
        self.put_pending_weave_relay(None);
        self.put_active_weave_relay(None);
        self.put_active_weave_plan(None);
        self.put_pending_weave_plan(false);
        let _ = self.take_weave_target_states();
        let _ = self.take_weave_relay_buffer();
    }

    pub(super) fn empty_queue(&mut self)
        ensures
            final(self)@ == old(self)@.empty_queue(),
            final(self)@.ids == old(self)@.ids,
    {
        proof {
            reveal(ChatView::empty_queue);
        }
        if self.get_queued_user_messages().len() > 0 {
            let _ = self.take_queued_user_messages();
            let ghost before = self@;
            self.refresh_queued_user_messages();
            proof {
                frames::lemma_refresh_queue(before);
                frames::lemma_same_but_task(before, self@);
            }
        }
    }

    pub(super) fn start_weave_new_session(&mut self)
        ensures
            final(self)@ == old(self)@.start_new_session(),
            final(self)@.ids == old(self)@.ids,
    {
        self.forget_weave_conversations();
        self.empty_queue();
        let ghost before = self@;
        self.emit(Effect::NewSession);
        let ghost between = self@;
        self.request_redraw();
        proof {
            frames::lemma_emit(before, EffectView::NewSession);
            frames::lemma_same_but_task(before, between);
            frames::lemma_emit(between, EffectView::Redraw);
            frames::lemma_same_but_task(between, self@);
        }
    }

    pub(super) fn maybe_start_pending_weave_new_session(&mut self) -> (started: bool)
        ensures
            final(self)@ == old(self)@.start_pending_session(),
            started == old(self)@.pending_weave_new_session,
            final(self)@.ids == old(self)@.ids,
    {
        if !self.get_pending_weave_new_session() {
            return false;
        }
        self.put_pending_weave_new_session(false);
        self.start_weave_new_session();
        true
    }

    fn should_defer_weave_new_session(&self, ctx: &WeaveToolContext) -> (r: bool)
        ensures
            r == self@.can_wait_for_turn(ctx.deep_view()),
    {
        let answers = match self.get_active_weave_reply_target() {
            Some(target) => text::same(target.agent_id.as_str(), ctx.sender_id.as_str())
                && text::same(
                target.conversation_id.as_str(),
                ctx.conversation_id.as_str(),
            ) && text::same(
                target.conversation_owner.as_str(),
                ctx.conversation_owner.as_str(),
            ),
            None => false,
        };
        answers || self.works_for_sender(ctx.sender_id.as_str())
    }

    fn note_new_session(&mut self, ctx: &WeaveToolContext)
        ensures
            state::extends(final(self)@.ids, old(self)@.ids),
            forall|tape: Tape|
                state::extends(tape, final(self)@.ids) ==> #[trigger] old(self)@.note_new_session(
                    ctx.deep_view(),
                    tape,
                ) == final(self)@,
    {
        proof {
            reveal(ChatView::note_new_session);
        }
        match (&ctx.action.group_id, &ctx.action.action_id, ctx.action.action_index) {
            (Some(group_id), Some(action_id), Some(action_index)) => {
                let conversation_id = self.draw_id();
                let task_id = self.draw_id();
                let result = WeavePendingActionResult {
                    sender_id: ctx.sender_id.clone(),
                    group_id: group_id.clone(),
                    action_id: action_id.clone(),
                    action_index,
                };
                let context = WeavePendingNewSessionContext {
                    group_id: group_id.clone(),
                    previous_conversation_id: ctx.conversation_id.clone(),
                    action_index: Some(action_index),
                    conversation_id,
                    conversation_owner: ctx.sender_id.clone(),
                    task_id,
                };
                self.put_pending_weave_new_session_result(Some(result));
                self.put_pending_weave_new_session_context(Some(context));
            },
            _ => {},
        }
    }

    fn tell_new_session(&mut self, context: &WeavePendingNewSessionContext)
        ensures
            final(self)@ == old(self)@.tell_new_session(context.deep_view()),
            final(self)@.ids == old(self)@.ids,
    {
        proof {
            reveal(ChatView::tell_new_session);
        }
        let fresh = targets::fresh_state(context.conversation_id.clone(), context.task_id.clone());
        let pending = self.take_pending_weave_new_session_result();
        match pending {
            Some(pending) => {
                let ghost before = self@;
                self.put_target(pending.sender_id.as_str(), fresh);
                proof {
                    frames::lemma_with_target(before, pending.sender_id@, fresh.deep_view());
                    frames::lemma_same_but_task(before, self@);
                }
                let result = sending::build_weave_action_result(
                    pending.group_id.as_str(),
                    pending.action_id.as_str(),
                    pending.action_index,
                    "completed",
                    None,
                    Some(context.conversation_id.as_str()),
                    Some(context.task_id.as_str()),
                );
                self.send_weave_action_result(pending.sender_id.as_str(), result);
            },
            None => {
                let ghost before = self@;
                self.put_target(context.conversation_owner.as_str(), fresh);
                proof {
                    frames::lemma_with_target(
                        before,
                        context.conversation_owner@,
                        fresh.deep_view(),
                    );
                    frames::lemma_same_but_task(before, self@);
                }
            },
        }
    }

    pub(super) fn maybe_send_pending_weave_new_session_result(&mut self)
        ensures
            final(self)@ == old(self)@.report_new_session(),
            final(self)@.ids == old(self)@.ids,
    {
        proof {
            reveal(ChatView::report_new_session);
        }
        let context = match self.get_pending_weave_new_session_context() {
            Some(context) => context.clone(),
            None => return,
        };
        if self.get_conversation_id().is_none() || !self.get_weave_connected() {
            return;
        }
        let nothing_waits = self.get_pending_weave_action_messages().len() == 0;
        self.tell_new_session(&context);
        if nothing_waits {
            self.put_pending_weave_new_session_context(None);
        }
    }
}

// ---------------------------------------------------------------------------
// Commands
// ---------------------------------------------------------------------------

/// What a review is to look for: what the command says, or else the text, unless
/// that is the bare command.
pub open spec fn review_instructions(
    instructions: Option<Seq<char>>,
    message: Seq<char>,
) -> Option<Seq<char>> {
    let message = text::trimmed(message);
    match instructions {
        Some(instructions) => Some(instructions),
        None => if message.len() == 0 || text::ascii_lower(message) == "/review"@ {
            None
        } else {
            Some(message)
        },
    }
}

/// That somebody wants a command to be carried out.
pub open spec fn request_line(command: Seq<char>, sender: Seq<char>) -> Seq<char> {
    "Weave control: "@ + command + " requested by "@ + sender + "."@
}

/// That a command cannot be carried out while the model works.
pub open spec fn busy_line(command: Seq<char>) -> Seq<char> {
    "'"@ + command + "' is disabled while a task is in progress."@
}

impl ChatView {
    /// After a command was refused.
    #[verifier::opaque]
    pub open spec fn refuse_tool(
        self,
        ctx: ContextView,
        message: Seq<char>,
        detail: Seq<char>,
    ) -> ChatView {
        self.error(message).answer_action(
            ctx.sender_id,
            ctx.action,
            "rejected"@,
            Some(detail),
        ).redraw()
    }

    /// After a command was refused because the model works.
    pub open spec fn refuse_busy(self, ctx: ContextView, command: Seq<char>) -> ChatView {
        self.refuse_tool(ctx, busy_line(command), "blocked: task in progress"@)
    }

    /// After a new session was asked for by another agent.
    #[verifier::opaque]
    pub open spec fn tool_new(self, ctx: ContextView, tape: Tape) -> ChatView {
        if self.task_running && !self.can_wait_for_turn(ctx) {
            self.refuse_busy(ctx, "/new"@)
        } else if self.awaits_session() {
            self.refuse_tool(ctx, "Another /new is already pending."@, "new already pending"@)
        } else {
            let noted = self.info(request_line("/new"@, ctx.sender)).note_new_session(ctx, tape);
            if self.task_running {
                (ChatView { pending_weave_new_session: true, ..noted }).redraw()
            } else {
                (ChatView { pending_weave_new_session: false, ..noted }).start_new_session()
            }
        }
    }

    /// With the model at work for another agent.
    pub open spec fn work_for(self, sender_id: Seq<char>) -> ChatView {
        ChatView { active_weave_control_context: Some(WeaveControlContext { sender_id }), ..self }
    }

    /// With the one who asked told that the command was carried out.
    #[verifier::opaque]
    pub open spec fn tool_done(self, ctx: ContextView, status: Seq<char>) -> ChatView {
        self.answer_action(ctx.sender_id, ctx.action, status, None).redraw()
    }

    /// After another agent wanted the context to be shortened.
    #[verifier::opaque]
    pub open spec fn tool_compact(self, ctx: ContextView) -> ChatView {
        if self.task_running {
            self.refuse_busy(ctx, "/compact"@)
        } else {
            (ChatView {
                token_info: None,
                ..self.work_for(ctx.sender_id).info(request_line("/compact"@, ctx.sender))
            }).emit(EffectView::Compact).tool_done(ctx, "completed"@)
        }
    }

    /// Whether an interrupt of another agent stops the model.
    pub open spec fn tool_stops(self, ctx: ContextView) -> bool {
        ctx.has_conversation_metadata && self.stops_work(
            ctx.conversation_id,
            ctx.conversation_owner,
            ctx.sender_id,
        ) || self.stops_work_for(ctx.sender_id)
    }

    /// With nothing to say to the one who interrupts: in that conversation, or at
    /// all if none is named.
    pub open spec fn drop_replies(self, ctx: ContextView) -> ChatView {
        if ctx.has_conversation_metadata {
            self.drop_conversation(ctx.conversation_id, ctx.conversation_owner)
        } else {
            self.drop_sender(ctx.sender_id)
        }
    }

    /// With the model told to stop for another agent.
    #[verifier::opaque]
    pub open spec fn stop_for_agent(self) -> ChatView {
        (ChatView { suppress_weave_interrupt: true, ..self }).emit(EffectView::Interrupt)
    }

    /// After an interrupt of another agent.
    #[verifier::opaque]
    pub open spec fn tool_interrupt(self, ctx: ContextView) -> ChatView {
        let cut = self.interrupt_task(ctx.conversation_id, ctx.conversation_owner, ctx.sender_id);
        let stops = cut.tool_stops(ctx);
        let concerns = stops || self.interrupts_task(
            ctx.conversation_id,
            ctx.conversation_owner,
            ctx.sender_id,
        ) || (!ctx.has_conversation_metadata && cut.speaks_to(ctx.sender_id));
        let quiet = cut.drop_replies(ctx);
        let stopped = if stops {
            quiet.stop_for_agent()
        } else {
            quiet
        };
        if concerns {
            stopped.info(request_line("/interrupt"@, ctx.sender)).tool_done(ctx, "completed"@)
        } else {
            stopped.info(
                "Weave control: /interrupt from "@ + ctx.sender + " (no active task)."@,
            ).tool_done(ctx, "rejected"@)
        }
    }

    /// With the answer of the model going to the one who asked for a review.
    #[verifier::opaque]
    pub open spec fn answer_reviewer(self, ctx: ContextView) -> ChatView {
        match self.selected_weave_session_id {
            Some(session_id) => ChatView {
                active_weave_reply_target: Some(
                    WeaveReplyTarget {
                        session_id,
                        agent_id: ctx.sender_id,
                        display_name: ctx.sender,
                        conversation_id: ctx.conversation_id,
                        conversation_owner: ctx.conversation_owner,
                        parent_message_id: None,
                        task_id: None,
                        action_group_id: None,
                        action_id: ctx.action.action_id,
                        action_index: None,
                    },
                ),
                ..self
            },
            None => self,
        }
    }

    /// After another agent wanted a review.
    #[verifier::opaque]
    pub open spec fn tool_review(
        self,
        ctx: ContextView,
        instructions: Option<Seq<char>>,
    ) -> ChatView {
        if self.task_running {
            self.refuse_busy(ctx, "/review"@)
        } else {
            self.work_for(ctx.sender_id).answer_reviewer(ctx).info(
                request_line("/review"@, ctx.sender),
            ).emit(
                EffectView::Review { instructions: review_instructions(instructions, ctx.text) },
            ).tool_done(ctx, "completed"@)
        }
    }

    /// After a command of an agent. Nobody commands itself.
    #[verifier::opaque]
    pub open spec fn apply_tool(
        self,
        tool: WeaveTool<Seq<char>>,
        ctx: ContextView,
        tape: Tape,
    ) -> ChatView {
        if ctx.sender_id == self.weave_agent_id {
            self.refuse_tool(
                ctx,
                "Ignored Weave control from local agent: "@ + steps::tool_label(tool) + "."@,
                "Ignored self-targeted control."@,
            )
        } else {
            match tool {
                WeaveTool::NewSession => self.tool_new(ctx, tape),
                WeaveTool::Compact => self.tool_compact(ctx),
                WeaveTool::Interrupt => self.tool_interrupt(ctx),
                WeaveTool::Review { instructions } => self.tool_review(ctx, instructions),
            }
        }
    }
}

fn requested(command: &str, sender: &str) -> (r: String)
    ensures
        r@ == request_line(command@, sender@),
{
    let mut r = text::concat3("Weave control: ", command, " requested by ");
    r.append(sender);
    r.append(".");
    r
}

impl ChatWidget {
    fn refuse_tool(&mut self, ctx: &WeaveToolContext, message: &str, detail: &str)
        ensures
            final(self)@ == old(self)@.refuse_tool(ctx.deep_view(), message@, detail@),
            final(self)@.ids == old(self)@.ids,
    {
        proof {
            reveal(ChatView::refuse_tool);
            reveal(ChatView::send_result);
            reveal(ChatView::emit);
        }
        self.add_error(message);
        self.report_weave_action(ctx.sender_id.as_str(), &ctx.action, "rejected", Some(detail));
        self.request_redraw();
    }

    fn refuse_busy(&mut self, ctx: &WeaveToolContext, command: &str)
        ensures
            final(self)@ == old(self)@.refuse_busy(ctx.deep_view(), command@),
            final(self)@.ids == old(self)@.ids,
    {
        let message = text::concat3(
            "'",
            command,
            "' is disabled while a task is in progress.",
        );
        self.refuse_tool(ctx, message.as_str(), "blocked: task in progress");
    }

    fn tool_done(&mut self, ctx: &WeaveToolContext, status: &str)
        ensures
            final(self)@ == old(self)@.tool_done(ctx.deep_view(), status@),
            final(self)@.ids == old(self)@.ids,
    {
        proof {
            reveal(ChatView::tool_done);
            reveal(ChatView::send_result);
            reveal(ChatView::emit);
        }
        self.report_weave_action(ctx.sender_id.as_str(), &ctx.action, status, None);
        self.request_redraw();
    }

    fn tool_new(&mut self, ctx: &WeaveToolContext)
        ensures
            state::extends(final(self)@.ids, old(self)@.ids),
            forall|tape: Tape|
                state::extends(tape, final(self)@.ids) ==> #[trigger] old(self)@.tool_new(
                    ctx.deep_view(),
                    tape,
                ) == final(self)@,
    {
        proof {
            reveal(ChatView::tool_new);
        }
        let running = self.get_task_running();
        if running && !self.should_defer_weave_new_session(ctx) {
            self.refuse_busy(ctx, "/new");
            return;
        }
        if self.get_pending_weave_new_session_context().is_some()
            || self.get_pending_weave_new_session_result().is_some() {
            self.refuse_tool(ctx, "Another /new is already pending.", "new already pending");
            return;
        }
        let message = requested("/new", ctx.sender.as_str());
        let ghost start = self@;
        self.add_info(message.as_str());
        proof {
            frames::lemma_info(start, message@);
            frames::lemma_same_but_task(start, self@);
        }
        self.note_new_session(ctx);
        if running {
            self.put_pending_weave_new_session(true);
            let ghost before = self@;
            self.request_redraw();
            proof {
                frames::lemma_emit(before, EffectView::Redraw);
                frames::lemma_same_but_task(before, self@);
            }
        } else {
            self.put_pending_weave_new_session(false);
            self.start_weave_new_session();
        }
    }

    fn work_for(&mut self, sender_id: &str)
        ensures
            final(self)@ == old(self)@.work_for(sender_id@),
    {
        self.put_active_weave_control_context(
            Some(WeaveControlContext { sender_id: sender_id.to_owned() }),
        );
    }

    fn tool_compact(&mut self, ctx: &WeaveToolContext)
        ensures
            final(self)@ == old(self)@.tool_compact(ctx.deep_view()),
            final(self)@.ids == old(self)@.ids,
    {
        proof {
            reveal(ChatView::tool_compact);
        }
        if self.get_task_running() {
            self.refuse_busy(ctx, "/compact");
            return;
        }
        self.work_for(ctx.sender_id.as_str());
        let message = requested("/compact", ctx.sender.as_str());
        let ghost start = self@;
        self.add_info(message.as_str());
        proof {
            frames::lemma_info(start, message@);
            frames::lemma_same_but_task(start, self@);
        }
        self.put_token_info(None);
        let ghost before = self@;
        self.emit(Effect::Compact);
        proof {
            frames::lemma_emit(before, EffectView::Compact);
            frames::lemma_same_but_task(before, self@);
        }
        self.tool_done(ctx, "completed");
    }

    fn tool_stops(&self, ctx: &WeaveToolContext) -> (r: bool)
        ensures
            r == self@.tool_stops(ctx.deep_view()),
    {
        (ctx.has_conversation_metadata && self.should_interrupt_on_interrupt(
            ctx.conversation_id.as_str(),
            ctx.conversation_owner.as_str(),
            ctx.sender_id.as_str(),
        )) || self.should_interrupt_for_sender_interrupt(ctx.sender_id.as_str())
    }

    fn stop_for_agent(&mut self)
        ensures
            final(self)@ == old(self)@.stop_for_agent(),
            final(self)@.ids == old(self)@.ids,
    {
        proof {
            reveal(ChatView::stop_for_agent);
            reveal(ChatView::emit);
        }
        self.put_suppress_weave_interrupt(true);
        self.emit(Effect::Interrupt);
    }

    fn tool_interrupt(&mut self, ctx: &WeaveToolContext)
        ensures
            final(self)@ == old(self)@.tool_interrupt(ctx.deep_view()),
            final(self)@.ids == old(self)@.ids,
    {
        proof {
            reveal(ChatView::tool_interrupt);
        }
        let canceled = self.interrupt_weave_task(
            ctx.conversation_id.as_str(),
            ctx.conversation_owner.as_str(),
            ctx.sender_id.as_str(),
        );
        let stops = self.tool_stops(ctx);
        let spoke = if ctx.has_conversation_metadata {
            self.clear_weave_reply_state(
                ctx.conversation_id.as_str(),
                ctx.conversation_owner.as_str(),
            );
            false
        } else {
            self.clear_weave_reply_state_for_sender(ctx.sender_id.as_str())
        };
        if stops {
            self.stop_for_agent();
        }
        if canceled || stops || spoke {
            let message = requested("/interrupt", ctx.sender.as_str());
            let ghost before = self@;
            self.add_info(message.as_str());
            proof {
                frames::lemma_info(before, message@);
                frames::lemma_same_but_task(before, self@);
            }
            self.tool_done(ctx, "completed");
        } else {
            let message = text::concat3(
                "Weave control: /interrupt from ",
                ctx.sender.as_str(),
                " (no active task).",
            );
            let ghost before = self@;
            self.add_info(message.as_str());
            proof {
                frames::lemma_info(before, message@);
                frames::lemma_same_but_task(before, self@);
            }
            self.tool_done(ctx, "rejected");
        }
    }

    fn answer_reviewer(&mut self, ctx: &WeaveToolContext)
        ensures
            final(self)@ == old(self)@.answer_reviewer(ctx.deep_view()),
            final(self)@.ids == old(self)@.ids,
    {
        proof {
            reveal(ChatView::answer_reviewer);
        }
        let session_id = match self.get_selected_weave_session_id() {
            Some(session_id) => session_id.clone(),
            None => return,
        };
        self.put_active_weave_reply_target(
            Some(
                WeaveReplyTarget {
                    session_id,
                    agent_id: ctx.sender_id.clone(),
                    display_name: ctx.sender.clone(),
                    conversation_id: ctx.conversation_id.clone(),
                    conversation_owner: ctx.conversation_owner.clone(),
                    parent_message_id: None,
                    task_id: None,
                    action_group_id: None,
                    action_id: text::copy_option(&ctx.action.action_id),
                    action_index: None,
                },
            ),
        );
    }

    fn tool_review(&mut self, ctx: &WeaveToolContext, instructions: &Option<String>)
        ensures
            final(self)@ == old(self)@.tool_review(ctx.deep_view(), instructions.deep_view()),
            final(self)@.ids == old(self)@.ids,
    {
        proof {
            reveal(ChatView::tool_review);
        }
        if self.get_task_running() {
            self.refuse_busy(ctx, "/review");
            return;
        }
        let message = text::trim(ctx.text.as_str());
        let instructions = match instructions {
            Some(instructions) => Some(instructions.clone()),
            None => if message.is_empty() || text::same(
                text::to_ascii_lower(message).as_str(),
                "/review",
            ) {
                None
            } else {
                Some(message.to_owned())
            },
        };
        self.work_for(ctx.sender_id.as_str());
        self.answer_reviewer(ctx);
        let line = requested("/review", ctx.sender.as_str());
        let ghost start = self@;
        self.add_info(line.as_str());
        let ghost before = self@;
        self.emit(Effect::Review { instructions });
        proof {
            frames::lemma_info(start, line@);
            frames::lemma_same_but_task(start, before);
            frames::lemma_emit(
                before,
                EffectView::Review { instructions: instructions.deep_view() },
            );
            frames::lemma_same_but_task(before, self@);
        }
        self.tool_done(ctx, "completed");
    }

    pub(super) fn apply_weave_tool(&mut self, tool: &WeaveTool, ctx: &WeaveToolContext)
        ensures
            state::extends(final(self)@.ids, old(self)@.ids),
            forall|tape: Tape|
                state::extends(tape, final(self)@.ids) ==> #[trigger] old(self)@.apply_tool(
                    tool.deep_view(),
                    ctx.deep_view(),
                    tape,
                ) == final(self)@,
    {
        proof {
            reveal(ChatView::apply_tool);
        }
        if text::same(ctx.sender_id.as_str(), self.get_weave_agent_id()) {
            let (_, label) = steps::weave_control_action_parts(tool);
            let message = text::concat3(
                "Ignored Weave control from local agent: ",
                label,
                ".",
            );
            self.refuse_tool(ctx, message.as_str(), "Ignored self-targeted control.");
            return;
        }
        match tool {
            WeaveTool::NewSession => self.tool_new(ctx),
            WeaveTool::Compact => self.tool_compact(ctx),
            WeaveTool::Interrupt => self.tool_interrupt(ctx),
            WeaveTool::Review { instructions } => self.tool_review(ctx, instructions),
        }
    }
}

} // verus!

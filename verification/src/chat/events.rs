//! What happens in a session: answers, turns and their ends.

use vstd::prelude::*;

use crate::chat::relay;
use crate::chat::state;
use crate::chat::state::{ChatView, ChatWidget, Tape};
use crate::chat::types::{
    Effect, EffectView, HistoryItem, HistoryView, InterruptEvent, InterruptView, Notification,
    NotificationView, RelayReply, RelayReplyView, RelayTargetsView, SessionConfigured,
    SessionConfiguredView, TurnAbortReason, TurnEvent, TurnEventView, WeaveRelayTargets,
    WeaveReplyTarget,
};
use crate::text;

verus! {

// ---------------------------------------------------------------------------
// Answers
// ---------------------------------------------------------------------------

impl ChatView {
    /// After an answer turned out to be for other agents.
    #[verifier::opaque]
    pub open spec fn consume_answer(self) -> ChatView {
        (ChatView { relay_output_consumed: true, ..self }).stream_finished().redraw()
    }

    /// After the answer of the model went to the one who waits for it.
    #[verifier::opaque]
    pub open spec fn pass_on(self, message: Option<Seq<char>>) -> ChatView {
        match self.active_weave_reply_target {
            Some(target) => {
                let without = ChatView { active_weave_reply_target: None, ..self };
                match message {
                    Some(message) => without.send_reply(target, message),
                    None => without,
                }
            },
            None => self,
        }
    }

    /// After an answer was shown and passed on.
    #[verifier::opaque]
    pub open spec fn show_answer(self, message: Seq<char>) -> ChatView {
        let shown = if self.streaming {
            self
        } else {
            self.stream(message)
        };
        shown.finish_stream().stream_finished().pass_on(Some(message)).redraw()
    }

    /// After the model has answered: steps for other agents are carried out, any
    /// other answer is shown.
    #[verifier::opaque]
    pub open spec fn answer(self, message: Seq<char>, reply: Option<RelayReplyView>) -> ChatView {
        let output = match self.relay_text(message) {
            Some(output) => output,
            None => message,
        };
        let (taken, handled) = self.take_relay_text().relay_answer(output, reply);
        if handled {
            taken.consume_answer()
        } else {
            taken.show_answer(output)
        }
    }

    /// After more of an answer came in. It is collected while steps are to be
    /// named.
    #[verifier::opaque]
    pub open spec fn answer_delta(self, delta: Seq<char>) -> ChatView {
        if self.pending_weave_relay is Some {
            ChatView { weave_relay_buffer: self.weave_relay_buffer + delta, ..self }
        } else {
            self.stream(delta)
        }
    }
}

impl ChatWidget {
    fn consume_answer(&mut self)
        ensures
            final(self)@ == old(self)@.consume_answer(),
            final(self)@.ids == old(self)@.ids,
    {
        proof {
            reveal(ChatView::consume_answer);
        }
        self.put_relay_output_consumed(true);
        self.handle_stream_finished();
        self.emit_one(Effect::Redraw);
    }

    fn pass_on(&mut self, message: Option<String>)
        ensures
            final(self)@ == old(self)@.pass_on(message.deep_view()),
            final(self)@.ids == old(self)@.ids,
    {
        proof {
            reveal(ChatView::pass_on);
        }
        let target = match self.get_active_weave_reply_target() {
            Some(target) => target.clone(),
            None => return,
        };
        self.put_active_weave_reply_target(None);
        match message {
            Some(message) => self.send_weave_reply(target, message),
            None => {},
        }
    }

    fn show_answer(&mut self, message: &str)
        ensures
            final(self)@ == old(self)@.show_answer(message@),
            final(self)@.ids == old(self)@.ids,
    {
        proof {
            reveal(ChatView::show_answer);
        }
        if !self.get_streaming() {
            self.handle_streaming_delta(message);
        }
        self.flush_answer_stream_with_separator();
        self.handle_stream_finished();
        self.pass_on(Some(message.to_owned()));
        self.emit_one(Effect::Redraw);
    }

    fn on_agent_message(&mut self, message: &str, reply: &Option<RelayReply>)
        ensures
            final(self)@ == old(self)@.answer(message@, reply.deep_view()),
            final(self)@.ids == old(self)@.ids,
    {
        proof {
            reveal(ChatView::answer);
        }
        let output = match self.take_weave_relay_output(message) {
            Some(output) => output,
            None => message.to_owned(),
        };
        if self.handle_weave_relay_output(output.as_str(), reply) {
            self.consume_answer();
        } else {
            self.show_answer(output.as_str());
        }
    }

    fn on_agent_message_delta(&mut self, delta: &str)
        ensures
            final(self)@ == old(self)@.answer_delta(delta@),
            final(self)@.ids == old(self)@.ids,
    {
        proof {
            reveal(ChatView::answer_delta);
        }
        if self.get_pending_weave_relay().is_some() {
            let buffer = text::concat2(self.get_weave_relay_buffer(), delta);
            self.put_weave_relay_buffer(buffer);
        } else {
            self.handle_streaming_delta(delta);
        }
    }
}

// ---------------------------------------------------------------------------
// Turns
// ---------------------------------------------------------------------------

impl ChatView {
    /// With the first press of a quit key forgotten.
    #[verifier::opaque]
    pub open spec fn forget_quit_key(self) -> ChatView {
        (ChatView { quit_shortcut_expires_at: None, quit_shortcut_key: None, ..self }).emit(
            EffectView::QuitHint(None),
        )
    }

    /// With nothing left of the turn before.
    #[verifier::opaque]
    pub open spec fn clean_for_turn(self) -> ChatView {
        (ChatView { retry_status_header: None, relay_output_consumed: false, ..self }).clear_reasoning()
    }

    /// With the model at work or not, and the pane showing that.
    #[verifier::opaque]
    pub open spec fn with_turn(self, running: bool) -> ChatView {
        (ChatView { agent_turn_running: running, ..self }).sync_running()
    }

    /// After a turn has started.
    #[verifier::opaque]
    pub open spec fn turn_started(self) -> ChatView {
        self.forget_quit_key().with_turn(true).clean_for_turn().emit(
            EffectView::InterruptHint(true),
        ).set_status("Working"@, None).redraw()
    }

    /// With no command that runs.
    #[verifier::opaque]
    pub open spec fn without_commands(self) -> ChatView {
        ChatView {
            running_commands: seq![],
            suppressed_exec_calls: seq![],
            last_unified_wait: None,
            ..self
        }
    }

    /// Whether the last answer of a turn may be for other agents: steps are to be
    /// named and there is a text, or no answer of the turn was.
    pub open spec fn may_be_relayed(self, message: Option<Seq<char>>) -> bool {
        let said = message matches Some(message) && !text::is_blank(message);
        if self.pending_weave_relay is Some && (said || !text::is_blank(self.weave_relay_buffer)) {
            true
        } else {
            said && !self.relay_output_consumed
        }
    }

    /// The last answer of a turn, taken for other agents where it is; and what of
    /// it is left. What was collected while steps were to be named, and turns out
    /// to be for the user, is shown.
    #[verifier::opaque]
    pub open spec fn last_answer(
        self,
        message: Option<Seq<char>>,
        reply: Option<RelayReplyView>,
    ) -> (ChatView, Option<Seq<char>>) {
        if self.may_be_relayed(message) {
            let fallback = match message {
                Some(message) => message,
                None => seq![],
            };
            let output = match self.relay_text(fallback) {
                Some(output) => output,
                None => fallback,
            };
            let (taken, handled) = self.take_relay_text().relay_answer(output, reply);
            if handled {
                (taken, None)
            } else if self.pending_weave_relay is Some && !taken.streaming {
                (taken.stream(output), message)
            } else {
                (taken, message)
            }
        } else {
            (self, message)
        }
    }

    /// With nobody whom the model works for.
    #[verifier::opaque]
    pub open spec fn works_for_nobody(self) -> ChatView {
        ChatView { active_weave_control_context: None, ..self }
    }

    /// With the next answer not taken yet.
    #[verifier::opaque]
    pub open spec fn expect_answer(self) -> ChatView {
        ChatView { relay_output_consumed: false, ..self }
    }

    /// After a turn has ended: a new session that waited starts, or else what
    /// waits to be said is said.
    #[verifier::opaque]
    pub open spec fn go_on(self, tape: Tape) -> ChatView {
        if self.pending_weave_new_session {
            self.start_pending_session()
        } else {
            self.send_next(tape)
        }
    }

    /// After a turn is complete.
    #[verifier::opaque]
    pub open spec fn turn_completed(
        self,
        message: Option<Seq<char>>,
        reply: Option<RelayReplyView>,
        tape: Tape,
    ) -> ChatView {
        let (answered, message) = self.last_answer(message, reply);
        answered.expect_answer().finish_stream().pass_on(
            match message {
                Some(message) => if text::is_blank(message) {
                    None
                } else {
                    Some(message)
                },
                None => None,
            },
        ).works_for_nobody().with_turn(false).without_commands().redraw().go_on(tape).notify(
            NotificationView::AgentTurnComplete {
                response: match message {
                    Some(message) => message,
                    None => seq![],
                },
            },
        ).ask_to_switch()
    }

    /// With the answer that is being shown forgotten, and nobody to answer.
    #[verifier::opaque]
    pub open spec fn drop_answer(self) -> ChatView {
        (ChatView { active_weave_reply_target: None, streaming: false, ..self }).emit(
            EffectView::DropStream,
        )
    }

    /// After a turn was cut short. Servers that start go on.
    #[verifier::opaque]
    pub open spec fn turn_failed(self) -> ChatView {
        self.emit(EffectView::FailActiveCell).with_turn(
            false,
        ).without_commands().drop_answer().ask_to_switch()
    }

    /// After an error has ended the turn.
    #[verifier::opaque]
    pub open spec fn fail(self, message: Seq<char>, tape: Tape) -> ChatView {
        self.turn_failed().error(message).redraw().send_next(tape)
    }

    /// With what waits to be said given back to the user, before what is being
    /// written.
    #[verifier::opaque]
    pub open spec fn give_back_queue(self, composer: Seq<char>) -> ChatView {
        if self.queued_user_messages.len() > 0 {
            let queued = text::joined(relay::texts_of(self.queued_user_messages), "\n"@);
            self.emit(
                EffectView::ComposerText(
                    if composer.len() == 0 {
                        queued
                    } else if queued.len() == 0 {
                        composer
                    } else {
                        queued + "\n"@ + composer
                    },
                ),
            ).empty_queue()
        } else {
            self
        }
    }

    /// With the one who waits for an answer interrupted, unless that agent has
    /// asked for the interrupt.
    #[verifier::opaque]
    pub open spec fn interrupt_reply(
        self,
        target: Option<WeaveReplyTarget<Seq<char>>>,
    ) -> ChatView {
        if self.suppress_weave_interrupt {
            ChatView { suppress_weave_interrupt: false, ..self }
        } else {
            match target {
                Some(target) => self.send_interrupt(target),
                None => self,
            }
        }
    }

    /// After the other agents of a task were stopped, or the one who waits for an
    /// answer.
    #[verifier::opaque]
    pub open spec fn stop_others(
        self,
        task: Option<RelayTargetsView>,
        target: Option<WeaveReplyTarget<Seq<char>>>,
    ) -> ChatView {
        match task {
            Some(task) => self.cancel_task(task).interrupt_reply(None),
            None => self.interrupt_reply(target),
        }
    }

    /// After a turn was stopped.
    #[verifier::opaque]
    pub open spec fn turn_stopped(self, reason: TurnAbortReason, composer: Seq<char>) -> ChatView {
        let stopped = reason == TurnAbortReason::Interrupted;
        let failed = self.turn_failed().works_for_nobody();
        let told = if reason == TurnAbortReason::ReviewEnded {
            failed
        } else {
            failed.error(
                "Conversation interrupted - tell the model what to do differently. Something went wrong? Hit `/feedback` to report the issue."@,
            )
        };
        told.give_back_queue(composer).stop_others(
            if stopped {
                self.active_weave_relay
            } else {
                None
            },
            if stopped {
                self.active_weave_reply_target
            } else {
                None
            },
        ).start_pending_session().redraw()
    }
}

impl ChatWidget {
    pub(super) fn forget_quit_key(&mut self)
        ensures
            final(self)@ == old(self)@.forget_quit_key(),
            final(self)@.ids == old(self)@.ids,
    {
        proof {
            reveal(ChatView::forget_quit_key);
        }
        self.put_quit_shortcut_expires_at(None);
        self.put_quit_shortcut_key(None);
        self.emit_one(Effect::QuitHint(None));
    }

    fn clean_for_turn(&mut self)
        ensures
            final(self)@ == old(self)@.clean_for_turn(),
            final(self)@.ids == old(self)@.ids,
    {
        proof {
            reveal(ChatView::clean_for_turn);
        }
        self.put_retry_status_header(None);
        self.put_relay_output_consumed(false);
        self.clear_reasoning();
    }

    fn set_turn(&mut self, running: bool)
        ensures
            final(self)@ == old(self)@.with_turn(running),
            final(self)@.ids == old(self)@.ids,
    {
        proof {
            reveal(ChatView::with_turn);
        }
        self.put_agent_turn_running(running);
        self.update_task_running_state();
    }

    fn on_task_started(&mut self)
        ensures
            final(self)@ == old(self)@.turn_started(),
            final(self)@.ids == old(self)@.ids,
    {
        proof {
            reveal(ChatView::turn_started);
        }
        self.forget_quit_key();
        self.set_turn(true);
        self.clean_for_turn();
        self.emit_one(Effect::InterruptHint(true));
        self.set_status_header("Working");
        self.emit_one(Effect::Redraw);
    }

    fn clear_commands(&mut self)
        ensures
            final(self)@ == old(self)@.without_commands(),
            final(self)@.ids == old(self)@.ids,
    {
        proof {
            reveal(ChatView::without_commands);
        }
        let _ = self.take_running_commands();
        let _ = self.take_suppressed_exec_calls();
        self.put_last_unified_wait(None);
    }

    fn may_be_relayed(&self, message: &Option<String>) -> (r: bool)
        ensures
            r == self@.may_be_relayed(message.deep_view()),
    {
        let said = match message {
            Some(message) => !text::blank(message.as_str()),
            None => false,
        };
        if self.get_pending_weave_relay().is_some() && (said || !text::blank(
            self.get_weave_relay_buffer(),
        )) {
            true
        } else {
            said && !self.get_relay_output_consumed()
        }
    }

    /// The text that may be for other agents when a turn ends with this message:
    /// the one to read before the end of the turn is handed in.
    pub fn last_relay_text(&self, message: &Option<String>) -> (r: Option<String>)
        ensures
            r.deep_view() == (if self@.may_be_relayed(message.deep_view()) {
                let fallback = match message.deep_view() {
                    Some(message) => message,
                    None => seq![],
                };
                Some(
                    match self@.relay_text(fallback) {
                        Some(output) => output,
                        None => fallback,
                    },
                )
            } else {
                None
            }),
    {
        if !self.may_be_relayed(message) {
            return None;
        }
        let fallback = owned_or_empty(message);
        match self.pending_relay_text(fallback.as_str()) {
            Some(output) => Some(output),
            None => Some(fallback),
        }
    }

    fn last_answer(&mut self, message: Option<String>, reply: &Option<RelayReply>) -> (left: Option<
        String,
    >)
        ensures
            (final(self)@, left.deep_view()) == old(self)@.last_answer(
                message.deep_view(),
                reply.deep_view(),
            ),
            final(self)@.ids == old(self)@.ids,
    {
        proof {
            reveal(ChatView::last_answer);
        }
        if !self.may_be_relayed(&message) {
            return message;
        }
        let asked = self.get_pending_weave_relay().is_some();
        let fallback = owned_or_empty(&message);
        let output = match self.take_weave_relay_output(fallback.as_str()) {
            Some(output) => output,
            None => fallback,
        };
        if self.handle_weave_relay_output(output.as_str(), reply) {
            None
        } else {
            if asked && !self.get_streaming() {
                self.handle_streaming_delta(output.as_str());
            }
            message
        }
    }

    fn work_for_nobody(&mut self)
        ensures
            final(self)@ == old(self)@.works_for_nobody(),
            final(self)@.ids == old(self)@.ids,
    {
        proof {
            reveal(ChatView::works_for_nobody);
        }
        self.put_active_weave_control_context(None);
    }

    fn expect_answer(&mut self)
        ensures
            final(self)@ == old(self)@.expect_answer(),
            final(self)@.ids == old(self)@.ids,
    {
        proof {
            reveal(ChatView::expect_answer);
        }
        self.put_relay_output_consumed(false);
    }

    fn go_on(&mut self)
        ensures
            state::extends(final(self)@.ids, old(self)@.ids),
            forall|tape: Tape|
                state::extends(tape, final(self)@.ids) ==> #[trigger] old(self)@.go_on(tape)
                    == final(self)@,
    {
        proof {
            reveal(ChatView::go_on);
        }
        if !self.maybe_start_pending_weave_new_session() {
            self.maybe_send_next_queued_input();
        }
    }

    fn on_task_complete(&mut self, message: Option<String>, reply: &Option<RelayReply>)
        ensures
            state::extends(final(self)@.ids, old(self)@.ids),
            forall|tape: Tape|
                state::extends(tape, final(self)@.ids) ==> #[trigger] old(self)@.turn_completed(
                    message.deep_view(),
                    reply.deep_view(),
                    tape,
                ) == final(self)@,
    {
        proof {
            reveal(ChatView::turn_completed);
        }
        let message = self.last_answer(message, reply);
        self.expect_answer();
        self.flush_answer_stream_with_separator();
        let said = match &message {
            Some(message) => if text::blank(message.as_str()) {
                None
            } else {
                Some(message.clone())
            },
            None => None,
        };
        self.pass_on(said);
        self.work_for_nobody();
        self.set_turn(false);
        self.clear_commands();
        self.emit_one(Effect::Redraw);
        self.go_on();
        self.notify(Notification::AgentTurnComplete { response: owned_or_empty(&message) });
        self.maybe_show_pending_rate_limit_prompt();
    }

    fn drop_answer(&mut self)
        ensures
            final(self)@ == old(self)@.drop_answer(),
            final(self)@.ids == old(self)@.ids,
    {
        proof {
            reveal(ChatView::drop_answer);
        }
        self.put_active_weave_reply_target(None);
        self.put_streaming(false);
        self.emit_one(Effect::DropStream);
    }

    fn finalize_turn(&mut self)
        ensures
            final(self)@ == old(self)@.turn_failed(),
            final(self)@.ids == old(self)@.ids,
    {
        proof {
            reveal(ChatView::turn_failed);
        }
        self.emit_one(Effect::FailActiveCell);
        self.set_turn(false);
        self.clear_commands();
        self.drop_answer();
        self.maybe_show_pending_rate_limit_prompt();
    }

    fn on_error(&mut self, message: &str)
        ensures
            state::extends(final(self)@.ids, old(self)@.ids),
            forall|tape: Tape|
                state::extends(tape, final(self)@.ids) ==> #[trigger] old(self)@.fail(
                    message@,
                    tape,
                ) == final(self)@,
    {
        proof {
            reveal(ChatView::fail);
        }
        self.finalize_turn();
        self.emit_two(Effect::History(HistoryItem::Error(message.to_owned())), Effect::Redraw);
        self.maybe_send_next_queued_input();
    }

    fn give_back_queue(&mut self, composer: &str)
        ensures
            final(self)@ == old(self)@.give_back_queue(composer@),
            final(self)@.ids == old(self)@.ids,
    {
        proof {
            reveal(ChatView::give_back_queue);
        }
        if self.get_queued_user_messages().len() == 0 {
            return;
        }
        let texts = self.queued_texts();
        let queued = text::join(&texts, "\n");
        let combined = if composer.is_empty() {
            queued
        } else if queued.as_str().is_empty() {
            composer.to_owned()
        } else {
            text::concat3(queued.as_str(), "\n", composer)
        };
        self.emit_one(Effect::ComposerText(combined));
        self.empty_queue();
    }

    fn interrupt_reply(&mut self, target: Option<WeaveReplyTarget>)
        ensures
            final(self)@ == old(self)@.interrupt_reply(target.deep_view()),
            final(self)@.ids == old(self)@.ids,
    {
        proof {
            reveal(ChatView::interrupt_reply);
        }
        if self.get_suppress_weave_interrupt() {
            self.put_suppress_weave_interrupt(false);
            return;
        }
        match target {
            Some(target) => self.send_weave_interrupt(target),
            None => {},
        }
    }

    fn stop_others(&mut self, task: Option<WeaveRelayTargets>, target: Option<WeaveReplyTarget>)
        ensures
            final(self)@ == old(self)@.stop_others(task.deep_view(), target.deep_view()),
            final(self)@.ids == old(self)@.ids,
    {
        proof {
            reveal(ChatView::stop_others);
        }
        match task {
            Some(task) => {
                self.cancel_active_weave_task_on_interrupt(&task);
                self.interrupt_reply(None);
            },
            None => self.interrupt_reply(target),
        }
    }

    fn on_interrupted_turn(&mut self, reason: TurnAbortReason, composer: &str)
        ensures
            final(self)@ == old(self)@.turn_stopped(reason, composer@),
            final(self)@.ids == old(self)@.ids,
    {
        proof {
            reveal(ChatView::turn_stopped);
        }
        let stopped = reason == TurnAbortReason::Interrupted;
        let task = match self.get_active_weave_relay() {
            Some(task) => if stopped {
                Some(task.clone())
            } else {
                None
            },
            None => None,
        };
        let target = match self.get_active_weave_reply_target() {
            Some(target) => if stopped {
                Some(target.clone())
            } else {
                None
            },
            None => None,
        };
        self.finalize_turn();
        self.work_for_nobody();
        if reason != TurnAbortReason::ReviewEnded {
            self.emit_one(
                Effect::History(
                    HistoryItem::Error(
                        "Conversation interrupted - tell the model what to do differently. Something went wrong? Hit `/feedback` to report the issue.".to_owned(),
                    ),
                ),
            );
        }
        self.give_back_queue(composer);
        self.stop_others(task, target);
        let _ = self.maybe_start_pending_weave_new_session();
        self.emit_one(Effect::Redraw);
    }
}

fn owned_or_empty(s: &Option<String>) -> (r: String)
    ensures
        r@ == (match s.deep_view() {
            Some(s) => s,
            None => seq![],
        }),
{
    match s {
        Some(s) => s.clone(),
        None => {
            let none = String::new();
            proof {
                assert(none@ =~= seq![]);
            }
            none
        },
    }
}

// ---------------------------------------------------------------------------
// A session that is set up
// ---------------------------------------------------------------------------

impl ChatView {
    /// With this session.
    #[verifier::opaque]
    pub open spec fn in_session(self, event: SessionConfiguredView) -> ChatView {
        ChatView {
            conversation_id: Some(event.session_id),
            forked_from: event.forked_from_id,
            current_rollout_path: Some(event.rollout_path),
            model: Some(event.model),
            ..self
        }
    }

    /// After a session was set up: what waited for it is taken.
    #[verifier::opaque]
    pub open spec fn session_configured(self, event: SessionConfiguredView, tape: Tape) -> ChatView {
        self.restore_status().emit(
            EffectView::HistoryMetadata {
                log_id: event.history_log_id,
                entries: event.history_entry_count,
            },
        ).with_skills(None).in_session(event).emit(EffectView::HeaderModel(event.model)).emit(
            EffectView::SessionInfo(event.info),
        ).report_new_session().flush_kept(tape)
    }

    /// After what the user says first was said.
    #[verifier::opaque]
    pub open spec fn say_first(self, tape: Tape) -> ChatView {
        match self.initial_user_message {
            Some(message) => (ChatView { initial_user_message: None, ..self }).submit(
                message,
                tape,
            ),
            None => self,
        }
    }

    /// After what happened in the session before was shown.
    #[verifier::opaque]
    pub open spec fn session_replayed(self, tape: Tape) -> ChatView {
        let said = self.emit(EffectView::ListPrompts).emit(EffectView::ListSkills).say_first(tape);
        if said.suppress_session_configured_redraw {
            said
        } else {
            said.redraw()
        }
    }
}

impl ChatWidget {
    fn set_conversation(&mut self, event: &SessionConfigured)
        ensures
            final(self)@ == old(self)@.in_session(event.deep_view()),
            final(self)@.ids == old(self)@.ids,
    {
        proof {
            reveal(ChatView::in_session);
        }
        self.put_conversation_id(Some(event.session_id.clone()));
        self.put_forked_from(text::copy_option(&event.forked_from_id));
        self.put_current_rollout_path(Some(event.rollout_path.clone()));
        self.put_model(Some(event.model.clone()));
    }

    /// Takes in that a session was set up. What happened in it before follows,
    /// and after that `on_session_replayed`.
    pub fn on_session_configured(&mut self, event: &SessionConfigured)
        ensures
            state::extends(final(self)@.ids, old(self)@.ids),
            forall|tape: Tape|
                state::extends(tape, final(self)@.ids) ==> #[trigger] old(
                    self,
                )@.session_configured(event.deep_view(), tape) == final(self)@,
    {
        proof {
            reveal(ChatView::session_configured);
        }
        self.restore_retry_status_header_if_present();
        self.emit_one(
            Effect::HistoryMetadata {
                log_id: event.history_log_id,
                entries: event.history_entry_count,
            },
        );
        self.set_skills(None);
        self.set_conversation(event);
        self.emit_two(Effect::HeaderModel(event.model.clone()), Effect::SessionInfo(event.info));
        self.maybe_send_pending_weave_new_session_result();
        self.flush_pending_weave_action_messages();
    }

    fn say_first(&mut self)
        ensures
            state::extends(final(self)@.ids, old(self)@.ids),
            forall|tape: Tape|
                state::extends(tape, final(self)@.ids) ==> #[trigger] old(self)@.say_first(tape)
                    == final(self)@,
    {
        proof {
            reveal(ChatView::say_first);
        }
        let message = self.take_initial_user_message();
        match message {
            Some(message) => self.submit_user_message(message),
            None => {},
        }
    }

    /// Takes in that what happened in the session before was shown.
    pub fn on_session_replayed(&mut self)
        ensures
            state::extends(final(self)@.ids, old(self)@.ids),
            forall|tape: Tape|
                state::extends(tape, final(self)@.ids) ==> #[trigger] old(self)@.session_replayed(
                    tape,
                ) == final(self)@,
    {
        proof {
            reveal(ChatView::session_replayed);
        }
        self.emit_two(Effect::ListPrompts, Effect::ListSkills);
        self.say_first();
        if !self.get_suppress_session_configured_redraw() {
            self.emit_one(Effect::Redraw);
        }
    }
}

// ---------------------------------------------------------------------------
// Events
// ---------------------------------------------------------------------------

impl ChatView {
    /// After an event that can wait came in.
    pub open spec fn take_waiting_event(self, event: InterruptView) -> ChatView {
        if event is ExecBegin {
            self.finish_stream().defer_or_handle(event)
        } else {
            self.defer_or_handle(event)
        }
    }

    /// With what the user said before in the transcript.
    #[verifier::opaque]
    pub open spec fn show_old_prompt(self, message: Seq<char>) -> ChatView {
        let message = text::trimmed(message);
        let shown = if message.len() > 0 {
            self.history(HistoryView::UserPrompt(message))
        } else {
            self
        };
        shown.emit(EffectView::ResetSeparator)
    }

    /// With an entry of the transcript behind the answer.
    pub open spec fn show_behind(self, item: HistoryView) -> ChatView {
        self.finish_stream().history(item)
    }

    /// After servers have started, or not.
    #[verifier::opaque]
    pub open spec fn servers_started(
        self,
        failed: Seq<Seq<char>>,
        cancelled: Seq<Seq<char>>,
        tape: Tape,
    ) -> ChatView {
        self.tell_servers(failed, cancelled).with_servers(None).send_next(tape).redraw()
    }

    /// After something that changes the status or the review happened.
    #[verifier::opaque]
    pub open spec fn take_status(self, event: TurnEventView, from_replay: bool) -> ChatView {
        match event {
            TurnEventView::Background(message) => self.show_work(message, true),
            TurnEventView::UndoStarted { message } => self.show_work(
                match message {
                    Some(message) => message,
                    None => "Undo in progress..."@,
                },
                false,
            ),
            TurnEventView::UndoCompleted { success, message } => self.undo_completed(
                success,
                message,
            ),
            TurnEventView::StreamError { message, details } => self.stream_failed(
                message,
                details,
            ),
            TurnEventView::UserMessage(message) => if from_replay {
                self.show_old_prompt(message)
            } else {
                self
            },
            TurnEventView::ReviewEntered { hint } => self.enter_review(hint),
            TurnEventView::ReviewExited { output } => self.exit_review(output),
            _ => self,
        }
    }

    /// After something to be shown happened.
    #[verifier::opaque]
    pub open spec fn take_item(self, event: TurnEventView, from_replay: bool) -> ChatView {
        match event {
            TurnEventView::PlanUpdate(item) => self.history(HistoryView::Prepared(item)),
            TurnEventView::Waiting(event) => self.take_waiting_event(event),
            TurnEventView::ExecOutput(event) => self.emit(EffectView::ExecOutput(event)),
            TurnEventView::PatchBegin(item) => self.history(HistoryView::Prepared(item)),
            TurnEventView::ViewImage(item) => self.show_behind(
                HistoryView::Prepared(item),
            ).redraw(),
            TurnEventView::WebSearchBegin => self.finish_stream(),
            TurnEventView::WebSearchEnd(query) => self.show_behind(HistoryView::WebSearch(query)),
            TurnEventView::Collaboration(item) => self.show_behind(
                HistoryView::Prepared(item),
            ).redraw(),
            TurnEventView::HistoryEntry(entry) => self.emit(EffectView::HistoryEntry(entry)),
            TurnEventView::ToolsListed(item) => self.history(HistoryView::Prepared(item)),
            TurnEventView::PromptsListed(prompts) => self.emit(EffectView::PromptsListed(prompts)),
            TurnEventView::SkillsListed(skills) => self.with_skills(Some(skills)),
            TurnEventView::SkillsChanged => self.emit(EffectView::ListSkills),
            TurnEventView::ShutdownComplete => self.emit(
                EffectView::Exit { shutdown_first: false },
            ),
            TurnEventView::Deprecation { summary, details } => self.history(
                HistoryView::Deprecation { summary, details },
            ).redraw(),
            _ => self.take_status(event, from_replay),
        }
    }

    /// After something happened in the session.
    #[verifier::opaque]
    pub open spec fn take_event(self, event: TurnEventView, from_replay: bool, tape: Tape) -> ChatView {
        match event {
            TurnEventView::AgentMessage { message, reply } => self.answer(message, reply),
            TurnEventView::AgentMessageDelta(delta) => self.answer_delta(delta),
            TurnEventView::ReasoningDelta(delta) => self.reason(delta),
            TurnEventView::ReasoningFinal => self.end_reasoning(),
            TurnEventView::RawReasoning(reasoning) => self.reason(reasoning).end_reasoning(),
            TurnEventView::ReasoningBreak => self.break_reasoning(),
            TurnEventView::TurnStarted => self.turn_started(),
            TurnEventView::TurnComplete { last_message, reply } => self.turn_completed(
                last_message,
                reply,
                tape,
            ),
            TurnEventView::TokenCount { info, limits } => self.with_tokens(info).limits_reported(
                limits,
            ),
            TurnEventView::Warning(message) => self.warn(message),
            TurnEventView::Error(message) => self.fail(message, tape),
            TurnEventView::McpStartupUpdate { server, status } => self.server_updated(
                server,
                status,
            ),
            TurnEventView::McpStartupComplete { failed, cancelled } => self.servers_started(
                failed,
                cancelled,
                tape,
            ),
            TurnEventView::TurnAborted { reason, composer } => if reason
                == TurnAbortReason::Replaced {
                self.fail("Turn aborted: replaced by a new task"@, tape)
            } else {
                self.turn_stopped(reason, composer)
            },
            TurnEventView::ContextCompacted { reply } => self.works_for_nobody().answer(
                "Context compacted"@,
                reply,
            ),
            _ => self.take_item(event, from_replay),
        }
    }

    /// After something happened in the session: the status line is as it was
    /// before a connection failed, unless one fails again.
    pub open spec fn dispatch(self, event: TurnEventView, from_replay: bool, tape: Tape) -> ChatView {
        if event is StreamError {
            self.take_event(event, from_replay, tape)
        } else {
            self.restore_status().take_event(event, from_replay, tape)
        }
    }
}

impl ChatWidget {
    fn take_waiting_event(&mut self, event: InterruptEvent)
        ensures
            final(self)@ == old(self)@.take_waiting_event(event.deep_view()),
            final(self)@.ids == old(self)@.ids,
    {
        if matches!(&event, InterruptEvent::ExecBegin(_)) {
            self.flush_answer_stream_with_separator();
        }
        self.defer_or_handle(event);
    }

    fn on_user_message_event(&mut self, message: &str)
        ensures
            final(self)@ == old(self)@.show_old_prompt(message@),
            final(self)@.ids == old(self)@.ids,
    {
        proof {
            reveal(ChatView::show_old_prompt);
        }
        let message = text::trim(message);
        if !message.is_empty() {
            self.emit_one(Effect::History(HistoryItem::UserPrompt(message.to_owned())));
        }
        self.emit_one(Effect::ResetSeparator);
    }

    fn show_behind(&mut self, item: HistoryItem)
        ensures
            final(self)@ == old(self)@.show_behind(item.deep_view()),
            final(self)@.ids == old(self)@.ids,
    {
        self.flush_answer_stream_with_separator();
        self.emit_one(Effect::History(item));
    }

    fn on_mcp_startup_complete(&mut self, failed: &Vec<String>, cancelled: &Vec<String>)
        ensures
            state::extends(final(self)@.ids, old(self)@.ids),
            forall|tape: Tape|
                state::extends(tape, final(self)@.ids) ==> #[trigger] old(self)@.servers_started(
                    text::views(failed@),
                    text::views(cancelled@),
                    tape,
                ) == final(self)@,
    {
        proof {
            reveal(ChatView::servers_started);
        }
        self.tell_servers(failed, cancelled);
        self.set_servers(None);
        self.maybe_send_next_queued_input();
        self.emit_one(Effect::Redraw);
    }

    fn take_status(&mut self, event: TurnEvent, from_replay: bool)
        ensures
            final(self)@ == old(self)@.take_status(event.deep_view(), from_replay),
            final(self)@.ids == old(self)@.ids,
    {
        proof {
            reveal(ChatView::take_status);
        }
        match event {
            TurnEvent::Background(message) => self.show_work(message.as_str(), true),
            TurnEvent::UndoStarted { message } => match &message {
                Some(message) => self.show_work(message.as_str(), false),
                None => self.show_work("Undo in progress...", false),
            },
            TurnEvent::UndoCompleted { success, message } => self.on_undo_completed(
                success,
                &message,
            ),
            TurnEvent::StreamError { message, details } => self.on_stream_error(
                message.as_str(),
                &details,
            ),
            TurnEvent::UserMessage(message) => {
                if from_replay {
                    self.on_user_message_event(message.as_str());
                }
            },
            TurnEvent::ReviewEntered { hint } => self.on_entered_review_mode(hint.as_str()),
            TurnEvent::ReviewExited { output } => self.on_exited_review_mode(&output),
            _ => {},
        }
    }

    fn take_item(&mut self, event: TurnEvent, from_replay: bool)
        ensures
            final(self)@ == old(self)@.take_item(event.deep_view(), from_replay),
            final(self)@.ids == old(self)@.ids,
    {
        proof {
            reveal(ChatView::take_item);
        }
        match event {
            TurnEvent::PlanUpdate(item) => self.emit_one(
                Effect::History(HistoryItem::Prepared(item)),
            ),
            TurnEvent::Waiting(event) => self.take_waiting_event(event),
            TurnEvent::ExecOutput(event) => self.emit_one(Effect::ExecOutput(event)),
            TurnEvent::PatchBegin(item) => self.emit_one(
                Effect::History(HistoryItem::Prepared(item)),
            ),
            TurnEvent::ViewImage(item) => {
                self.show_behind(HistoryItem::Prepared(item));
                self.emit_one(Effect::Redraw);
            },
            TurnEvent::WebSearchBegin => self.flush_answer_stream_with_separator(),
            TurnEvent::WebSearchEnd(query) => self.show_behind(HistoryItem::WebSearch(query)),
            TurnEvent::Collaboration(item) => {
                self.show_behind(HistoryItem::Prepared(item));
                self.emit_one(Effect::Redraw);
            },
            TurnEvent::HistoryEntry(entry) => self.emit_one(Effect::HistoryEntry(entry)),
            TurnEvent::ToolsListed(item) => self.emit_one(
                Effect::History(HistoryItem::Prepared(item)),
            ),
            TurnEvent::PromptsListed(prompts) => self.emit_one(Effect::PromptsListed(prompts)),
            TurnEvent::SkillsListed(skills) => self.on_list_skills(&skills),
            TurnEvent::SkillsChanged => self.emit_one(Effect::ListSkills),
            TurnEvent::ShutdownComplete => self.emit_one(Effect::Exit { shutdown_first: false }),
            TurnEvent::Deprecation { summary, details } => self.emit_two(
                Effect::History(HistoryItem::Deprecation { summary, details }),
                Effect::Redraw,
            ),
            other => self.take_status(other, from_replay),
        }
    }

    fn take_event(&mut self, event: TurnEvent, from_replay: bool)
        ensures
            state::extends(final(self)@.ids, old(self)@.ids),
            forall|tape: Tape|
                state::extends(tape, final(self)@.ids) ==> #[trigger] old(self)@.take_event(
                    event.deep_view(),
                    from_replay,
                    tape,
                ) == final(self)@,
    {
        proof {
            reveal(ChatView::take_event);
        }
        match event {
            TurnEvent::AgentMessage { message, reply } => self.on_agent_message(
                message.as_str(),
                &reply,
            ),
            TurnEvent::AgentMessageDelta(delta) => self.on_agent_message_delta(delta.as_str()),
            TurnEvent::ReasoningDelta(delta) => self.on_agent_reasoning_delta(delta.as_str()),
            TurnEvent::ReasoningFinal => self.on_agent_reasoning_final(),
            TurnEvent::RawReasoning(reasoning) => {
                self.on_agent_reasoning_delta(reasoning.as_str());
                self.on_agent_reasoning_final();
            },
            TurnEvent::ReasoningBreak => self.on_reasoning_section_break(),
            TurnEvent::TurnStarted => self.on_task_started(),
            TurnEvent::TurnComplete { last_message, reply } => self.on_task_complete(
                last_message,
                &reply,
            ),
            TurnEvent::TokenCount { info, limits } => {
                self.set_token_info(info);
                self.on_rate_limit_snapshot(limits);
            },
            TurnEvent::Warning(message) => self.on_warning(message.as_str()),
            TurnEvent::Error(message) => self.on_error(message.as_str()),
            TurnEvent::McpStartupUpdate { server, status } => self.on_mcp_startup_update(
                server.as_str(),
                &status,
            ),
            TurnEvent::McpStartupComplete { failed, cancelled } => self.on_mcp_startup_complete(
                &failed,
                &cancelled,
            ),
            TurnEvent::TurnAborted { reason, composer } => {
                if reason == TurnAbortReason::Replaced {
                    self.on_error("Turn aborted: replaced by a new task");
                } else {
                    self.on_interrupted_turn(reason, composer.as_str());
                }
            },
            TurnEvent::ContextCompacted { reply } => {
                self.work_for_nobody();
                self.on_agent_message("Context compacted", &reply);
            },
            other => self.take_item(other, from_replay),
        }
    }

    /// Takes in that something happened in the session; `from_replay` tells what
    /// happened before this chat from what happens now.
    pub fn dispatch_event_msg(&mut self, event: TurnEvent, from_replay: bool)
        ensures
            state::extends(final(self)@.ids, old(self)@.ids),
            forall|tape: Tape|
                state::extends(tape, final(self)@.ids) ==> #[trigger] old(self)@.dispatch(
                    event.deep_view(),
                    from_replay,
                    tape,
                ) == final(self)@,
    {
        if !matches!(&event, TurnEvent::StreamError { .. }) {
            self.restore_retry_status_header_if_present();
        }
        self.take_event(event, from_replay);
    }

    /// Takes in what happens in the session now.
    pub fn handle_codex_event(&mut self, event: TurnEvent)
        ensures
            state::extends(final(self)@.ids, old(self)@.ids),
            forall|tape: Tape|
                state::extends(tape, final(self)@.ids) ==> #[trigger] old(self)@.dispatch(
                    event.deep_view(),
                    false,
                    tape,
                ) == final(self)@,
    {
        self.dispatch_event_msg(event, false);
    }
}

/// Whether something was asked for.
pub open spec fn asks_for(chat: ChatView, effect: EffectView) -> bool {
    exists|k: int| 0 <= k < chat.outbox.len() && #[trigger] chat.outbox[k] == effect
}

/// An answer that is not for other agents is shown to the user, and it goes back to the
/// agent whose message it answers; after that nobody waits for an answer.
pub proof fn law_an_answer_is_shown_and_passed_on(
    chat: ChatView,
    message: Seq<char>,
    target: WeaveReplyTarget<Seq<char>>,
)
    requires
        chat.pending_weave_relay is None,
        chat.active_weave_relay is Some,
        !chat.streaming,
        chat.interrupts.len() == 0,
        chat.active_weave_reply_target == Some(target),
        chat.weave_connected,
        chat.selected_weave_session_id == Some(target.session_id),
        text::trimmed(message).len() > 0,
    ensures
        ({
            let after = chat.answer(message, None);
            &&& asks_for(after, EffectView::StreamDelta(message))
            &&& asks_for(after, EffectView::SendReply { target, message })
            &&& after.active_weave_reply_target is None
            &&& !after.streaming
        }),
{
    reveal(ChatView::answer);
    reveal(ChatView::take_relay_text);
    reveal(ChatView::relay_answer);
    reveal(ChatView::show_answer);
    let after = chat.answer(message, None);
    assert(after == chat.show_answer(message));
    let n = chat.outbox.len() as int;
    let shown = chat.stream(message).finish_stream();
    assert(shown.outbox[n] == EffectView::StreamDelta(message) && shown.outbox.len() == n + 2
        && !shown.streaming && shown.interrupts == chat.interrupts
        && shown.active_weave_reply_target == Some(target) && shown.weave_connected
        && shown.selected_weave_session_id == Some(target.session_id)) by {
        reveal(ChatView::stream);
        reveal(ChatView::finish_stream);
        reveal(ChatView::emit);
    }
    let flushed = shown.stream_finished();
    assert(flushed.outbox[n] == EffectView::StreamDelta(message) && flushed.outbox.len() > n
        && !flushed.streaming && flushed.active_weave_reply_target == Some(target)
        && flushed.weave_connected && flushed.selected_weave_session_id == Some(
        target.session_id,
    )) by {
        reveal(ChatView::stream_finished);
        reveal(ChatView::hide_status_if_done);
        reveal(ChatView::without_waiting);
        reveal(ChatView::emit);
        assert(chat.interrupts =~= Seq::<InterruptView>::empty());
    }
    reveal(ChatView::pass_on);
    reveal(ChatView::send_reply);
    reveal(ChatView::emit);
    let m = flushed.outbox.len() as int;
    assert(after.outbox[n] == EffectView::StreamDelta(message));
    assert(after.outbox[m] == (EffectView::SendReply { target, message }));
}

/// Pieces of an answer are kept together while it may name steps, and shown at once where
/// it may not.
pub proof fn law_pieces_are_kept_or_shown(chat: ChatView, first: Seq<char>, second: Seq<char>)
    ensures
        chat.pending_weave_relay is Some ==> chat.answer_delta(first).answer_delta(
            second,
        ).weave_relay_buffer == chat.weave_relay_buffer + first + second && chat.answer_delta(
            first,
        ).outbox == chat.outbox,
        chat.pending_weave_relay is None ==> chat.answer_delta(first).answer_delta(second).outbox
            == chat.outbox + seq![
            EffectView::StreamDelta(first),
            EffectView::StreamDelta(second),
        ],
{
    reveal(ChatView::answer_delta);
    reveal(ChatView::stream);
    reveal(ChatView::emit);
}

/// A turn that starts is shown as running.
pub proof fn law_a_turn_that_starts_runs(chat: ChatView)
    ensures
        chat.turn_started().agent_turn_running,
        chat.turn_started().task_running,
        chat.turn_started().current_status_header == "Working"@,
{
    reveal(ChatView::turn_started);
    reveal(ChatView::forget_quit_key);
    reveal(ChatView::with_turn);
    reveal(ChatView::sync_running);
    reveal(ChatView::clean_for_turn);
    reveal(ChatView::clear_reasoning);
    reveal(ChatView::set_status);
    reveal(ChatView::emit);
}

/// A turn that has ended runs no more: nothing it ran is left, nobody is worked for, and
/// nobody waits for an answer.
pub proof fn law_a_turn_that_ended_runs_no_more(
    chat: ChatView,
    message: Seq<char>,
    tape: Tape,
)
    requires
        chat.pending_weave_relay is None,
        chat.active_weave_relay is Some,
        chat.queued_user_messages.len() == 0,
        !chat.pending_weave_new_session,
        chat.mcp_startup_status is None,
        text::trimmed(message).len() > 0,
    ensures
        ({
            let after = chat.turn_completed(Some(message), None, tape);
            &&& !after.agent_turn_running
            &&& !after.task_running
            &&& !after.streaming
            &&& after.running_commands.len() == 0
            &&& after.suppressed_exec_calls.len() == 0
            &&& after.active_weave_control_context is None
            &&& after.active_weave_reply_target is None
        }),
{
    let answered = chat.last_answer(Some(message), None);
    assert(answered.0 == chat && answered.1 == Some(message)) by {
        reveal(ChatView::last_answer);
        reveal(ChatView::take_relay_text);
        reveal(ChatView::relay_answer);
    }
    let passed = chat.expect_answer().finish_stream().pass_on(Some(message));
    assert(!passed.streaming && passed.active_weave_reply_target is None
        && passed.queued_user_messages.len() == 0 && !passed.pending_weave_new_session
        && passed.mcp_startup_status is None) by {
        reveal(ChatView::expect_answer);
        reveal(ChatView::finish_stream);
        reveal(ChatView::pass_on);
        reveal(ChatView::send_reply);
        reveal(ChatView::emit);
    }
    let quiet = passed.works_for_nobody().with_turn(false).without_commands().redraw();
    assert(!quiet.streaming && quiet.active_weave_reply_target is None
        && quiet.queued_user_messages.len() == 0 && !quiet.pending_weave_new_session
        && !quiet.agent_turn_running && !quiet.task_running && quiet.running_commands.len() == 0
        && quiet.suppressed_exec_calls.len() == 0 && quiet.active_weave_control_context
        is None) by {
        reveal(ChatView::works_for_nobody);
        reveal(ChatView::with_turn);
        reveal(ChatView::sync_running);
        reveal(ChatView::without_commands);
        reveal(ChatView::emit);
    }
    let gone = quiet.go_on(tape);
    assert(gone == quiet.refresh_queue()) by {
        reveal(ChatView::go_on);
        reveal(ChatView::send_next);
    }
    reveal(ChatView::turn_completed);
    reveal(ChatView::refresh_queue);
    reveal(ChatView::notify);
    reveal(ChatView::ask_to_switch);
    reveal(ChatView::emit);
}

/// What waited to be said comes back into the composer when a turn is cut, before what the
/// user is writing, and waits no more.
pub proof fn law_what_waited_comes_back(chat: ChatView, composer: Seq<char>)
    ensures
        ({
            let after = chat.give_back_queue(composer);
            let texts = relay::texts_of(chat.queued_user_messages);
            let queued = text::joined(texts, "\n"@);
            &&& texts.len() == chat.queued_user_messages.len()
            &&& forall|i: int|
                0 <= i < texts.len() ==> #[trigger] texts[i] == chat.queued_user_messages[i].text
            &&& chat.queued_user_messages.len() == 0 ==> after == chat
            &&& chat.queued_user_messages.len() > 0 ==> after.queued_user_messages.len() == 0
                && after.outbox.len() > chat.outbox.len()
            &&& chat.queued_user_messages.len() > 0 && composer.len() == 0
                ==> after.outbox[chat.outbox.len() as int] == EffectView::ComposerText(queued)
            &&& chat.queued_user_messages.len() > 0 && composer.len() > 0 && queued.len() > 0
                ==> after.outbox[chat.outbox.len() as int] == EffectView::ComposerText(
                queued + "\n"@ + composer,
            )
        }),
{
    reveal(ChatView::give_back_queue);
    reveal(ChatView::empty_queue);
    reveal(ChatView::refresh_queue);
    reveal(ChatView::emit);
}

/// A failure is told, and the turn is over.
pub proof fn law_a_failure_is_told(chat: ChatView, message: Seq<char>, tape: Tape)
    requires
        chat.queued_user_messages.len() == 0,
        chat.mcp_startup_status is None,
    ensures
        ({
            let after = chat.fail(message, tape);
            &&& asks_for(after, EffectView::History(HistoryView::Error(message)))
            &&& asks_for(after, EffectView::FailActiveCell)
            &&& !after.agent_turn_running
            &&& !after.task_running
            &&& !after.streaming
            &&& after.running_commands.len() == 0
            &&& after.active_weave_reply_target is None
        }),
{
    reveal(ChatView::fail);
    reveal(ChatView::turn_failed);
    reveal(ChatView::with_turn);
    reveal(ChatView::sync_running);
    reveal(ChatView::without_commands);
    reveal(ChatView::drop_answer);
    reveal(ChatView::ask_to_switch);
    reveal(ChatView::send_next);
    reveal(ChatView::refresh_queue);
    reveal(ChatView::emit);
    let after = chat.fail(message, tape);
    let m = after.outbox.len() as int;
    assert(after.outbox[m - 3] == EffectView::History(HistoryView::Error(message)));
    assert(after.outbox[chat.outbox.len() as int] == EffectView::FailActiveCell);
}

/// What a session is known by once it is there.
pub proof fn law_a_session_is_known(chat: ChatView, event: SessionConfiguredView)
    ensures
        ({
            let after = chat.in_session(event);
            &&& after.conversation_id == Some(event.session_id)
            &&& after.model == Some(event.model)
            &&& after.current_rollout_path == Some(event.rollout_path)
            &&& after.forked_from == event.forked_from_id
            &&& after.outbox == chat.outbox
        }),
{
    reveal(ChatView::in_session);
}

/// What is shown of each event that only brings something prepared.
pub proof fn law_what_is_prepared_is_shown(
    chat: ChatView,
    n: u64,
    replayed: bool,
    tape: Tape,
)
    requires
        chat.retry_status_header is None,
    ensures
        chat.dispatch(TurnEventView::PlanUpdate(n), replayed, tape) == chat.emit(
            EffectView::History(HistoryView::Prepared(n)),
        ),
        chat.dispatch(TurnEventView::PatchBegin(n), replayed, tape) == chat.emit(
            EffectView::History(HistoryView::Prepared(n)),
        ),
        chat.dispatch(TurnEventView::ToolsListed(n), replayed, tape) == chat.emit(
            EffectView::History(HistoryView::Prepared(n)),
        ),
        chat.dispatch(TurnEventView::ExecOutput(n), replayed, tape) == chat.emit(
            EffectView::ExecOutput(n),
        ),
        chat.dispatch(TurnEventView::HistoryEntry(n), replayed, tape) == chat.emit(
            EffectView::HistoryEntry(n),
        ),
        chat.dispatch(TurnEventView::PromptsListed(n), replayed, tape) == chat.emit(
            EffectView::PromptsListed(n),
        ),
        chat.dispatch(TurnEventView::SkillsChanged, replayed, tape) == chat.emit(
            EffectView::ListSkills,
        ),
        chat.dispatch(TurnEventView::ShutdownComplete, replayed, tape) == chat.emit(
            EffectView::Exit { shutdown_first: false },
        ),
        chat.dispatch(TurnEventView::Other, replayed, tape) == chat,
{
    reveal(ChatView::dispatch);
    reveal(ChatView::restore_status);
    reveal(ChatView::take_event);
    reveal(ChatView::take_item);
    reveal(ChatView::take_status);
}

/// Warnings are shown; what the user said is shown when a session is replayed, and else
/// not again.
pub proof fn law_what_is_said_is_shown(
    chat: ChatView,
    said: Seq<char>,
    details: Option<Seq<char>>,
    tape: Tape,
)
    requires
        chat.retry_status_header is None,
    ensures
        chat.dispatch(TurnEventView::Warning(said), false, tape) == chat.emit(
            EffectView::History(HistoryView::Warning(said)),
        ).emit(EffectView::Redraw),
        chat.dispatch(TurnEventView::Deprecation { summary: said, details }, false, tape)
            == chat.emit(
            EffectView::History(HistoryView::Deprecation { summary: said, details }),
        ).emit(EffectView::Redraw),
        chat.dispatch(TurnEventView::UserMessage(said), false, tape) == chat,
        text::trimmed(said).len() > 0 ==> chat.dispatch(
            TurnEventView::UserMessage(said),
            true,
            tape,
        ) == chat.emit(
            EffectView::History(HistoryView::UserPrompt(text::trimmed(said))),
        ).emit(EffectView::ResetSeparator),
{
    reveal(ChatView::dispatch);
    reveal(ChatView::restore_status);
    reveal(ChatView::take_event);
    reveal(ChatView::take_item);
    reveal(ChatView::take_status);
    reveal(ChatView::warn);
    reveal(ChatView::show_old_prompt);
}

/// When the user stops a turn that answers another agent, that agent is told to stop, too,
/// unless it was that agent who wanted it.
pub proof fn law_who_is_answered_is_stopped(
    chat: ChatView,
    target: WeaveReplyTarget<Seq<char>>,
)
    requires
        chat.weave_connected,
        chat.selected_weave_session_id == Some(target.session_id),
    ensures
        !chat.suppress_weave_interrupt ==> chat.stop_others(None, Some(target)).outbox
            == chat.outbox.push(EffectView::SendInterrupt(target)),
        chat.suppress_weave_interrupt ==> chat.stop_others(None, Some(target)).outbox
            == chat.outbox && !chat.stop_others(None, Some(target)).suppress_weave_interrupt,
        !chat.suppress_weave_interrupt ==> chat.stop_others(None, None) == chat,
{
    reveal(ChatView::stop_others);
    reveal(ChatView::interrupt_reply);
    reveal(ChatView::send_interrupt);
    reveal(ChatView::emit);
}

} // verus!

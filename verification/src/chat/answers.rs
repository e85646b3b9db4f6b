//! What the model answers while a task runs: steps to take, or that the task is
//! done.

use vstd::prelude::*;

use crate::chat::frames;
use crate::chat::state::{ChatView, ChatWidget};
use crate::chat::types::{
    Effect, EffectView, RelayReply, RelayReplyView, RelayTargetsView, WeaveRelayTargets,
};
use crate::json;
use crate::json::{Fields, JsonView};
use crate::text;

verus! {

/// Whether a text looks like an answer that names steps: an object or a fence
/// that speaks of a type and of steps or of the end.
pub open spec fn looks_like_steps(output: Seq<char>) -> bool {
    let output = text::trimmed(output);
    &&& text::holds(output, "\"type\""@)
    &&& text::holds(output, "relay_actions"@) || text::holds(output, "task_done"@)
    &&& "{"@.is_prefix_of(output) || "```"@.is_prefix_of(output)
}

/// What tells the coordinator that a task is done.
pub open spec fn done_payload(relay_id: Seq<char>, summary: Option<Seq<char>>) -> JsonView {
    JsonView::Object(
        seq![
            ("relay_id"@, JsonView::Text(relay_id)),
            (
                "done"@,
                JsonView::Object(
                    json::with_option(
                        seq![("relay_id"@, JsonView::Text(relay_id))],
                        "summary"@,
                        summary,
                    ),
                ),
            ),
        ],
    )
}

impl ChatView {
    /// The text that may name steps: what was collected, or else `fallback`.
    pub open spec fn relay_text(self, fallback: Seq<char>) -> Option<Seq<char>> {
        if self.pending_weave_relay is None {
            None
        } else if text::is_blank(self.weave_relay_buffer) {
            Some(fallback)
        } else {
            Some(self.weave_relay_buffer)
        }
    }

    /// After the text that may name steps was taken.
    pub open spec fn take_relay_text(self) -> ChatView {
        if self.pending_weave_relay is None || text::is_blank(self.weave_relay_buffer) {
            self
        } else {
            ChatView { weave_relay_buffer: seq![], ..self }
        }
    }

    /// After the coordinator was told that a task is done.
    #[verifier::opaque]
    pub open spec fn send_done(self, relay_id: Seq<char>, summary: Option<Seq<char>>) -> ChatView {
        if self.weave_connected {
            self.emit(
                EffectView::FinishRelay { relay_id, payload: done_payload(relay_id, summary) },
            )
        } else {
            self.error("Weave session isn't connected."@)
        }
    }

    /// With no steps to name.
    #[verifier::opaque]
    pub open spec fn end_prompt(self) -> ChatView {
        ChatView { weave_relay_buffer: seq![], pending_weave_relay: None, ..self }
    }

    /// After the model has answered the user in place of naming steps: the task at
    /// hand and the one that steps were asked for are over.
    #[verifier::opaque]
    pub open spec fn end_relay(self, targets: RelayTargetsView) -> ChatView {
        self.end_prompt().without_plan().leave_task().clear_targets(
            targets.target_ids,
        ).refresh_label()
    }

    /// After an answer about the task was taken up.
    #[verifier::opaque]
    pub open spec fn take_up(
        self,
        targets: RelayTargetsView,
        reply: RelayReplyView,
    ) -> (ChatView, bool) {
        let taken = self.end_prompt();
        match reply {
            RelayReplyView::TaskDone { summary } => if taken.owe_replies(targets.target_ids) {
                (taken, true)
            } else {
                (
                    taken.send_done(targets.relay_id, text::present(summary)).finish_task(
                        targets,
                        text::present(summary),
                    ),
                    true,
                )
            },
            RelayReplyView::Actions { actions } => if actions.len() == 0 {
                (
                    taken.error(
                        "Weave relay returned no actions; respond with relay_actions or task_done."@,
                    ).drop_task(targets),
                    true,
                )
            } else {
                (taken.apply_steps(targets, actions), taken.handles_steps(targets, actions))
            },
        }
    }

    /// After an answer, and whether it was for other agents: `reply` is what it
    /// says, if it can be read. An answer that names no steps where some are asked
    /// for is for the user, and ends the task.
    #[verifier::opaque]
    pub open spec fn relay_answer(
        self,
        output: Seq<char>,
        reply: Option<RelayReplyView>,
    ) -> (ChatView, bool) {
        match (reply, self.pending_weave_relay, self.active_weave_relay) {
            (None, Some(targets), _) => (self.end_relay(targets), false),
            (None, None, Some(_)) => (self, false),
            (None, None, None) => (self, looks_like_steps(output)),
            (Some(reply), Some(targets), _) => self.take_up(targets, reply),
            (Some(reply), None, Some(targets)) => match reply {
                RelayReplyView::Actions { actions } => match self.scope_error(actions, targets) {
                    Some(error) => (self.error(error), true),
                    None => self.take_up(targets, reply),
                },
                RelayReplyView::TaskDone { summary: _ } => self.take_up(targets, reply),
            },
            (Some(_), None, None) => (self, true),
        }
    }
}

fn looks_like_weave_relay_output(output: &str) -> (r: bool)
    ensures
        r == looks_like_steps(output@),
{
    let output = text::trim(output);
    text::contains(output, "\"type\"") && (text::contains(output, "relay_actions")
        || text::contains(output, "task_done")) && (text::starts_with(output, "{")
        || text::starts_with(output, "```"))
}

impl ChatWidget {
    /// The text that may name steps, where the model is to name some: the one
    /// to read before an answer is handed in.
    pub fn pending_relay_text(&self, fallback: &str) -> (r: Option<String>)
        ensures
            r.deep_view() == self@.relay_text(fallback@),
    {
        if self.get_pending_weave_relay().is_none() {
            return None;
        }
        if text::blank(self.get_weave_relay_buffer()) {
            Some(fallback.to_owned())
        } else {
            Some(self.get_weave_relay_buffer().to_owned())
        }
    }

    pub(super) fn take_weave_relay_output(&mut self, fallback: &str) -> (r: Option<String>)
        ensures
            r.deep_view() == old(self)@.relay_text(fallback@),
            final(self)@ == old(self)@.take_relay_text(),
    {
        if self.get_pending_weave_relay().is_none() {
            return None;
        }
        if text::blank(self.get_weave_relay_buffer()) {
            Some(fallback.to_owned())
        } else {
            Some(self.take_weave_relay_buffer())
        }
    }

    fn send_weave_relay_done(&mut self, relay_id: &str, summary: Option<&str>)
        ensures
            final(self)@ == old(self)@.send_done(relay_id@, summary.deep_view()),
    {
        proof {
            reveal(ChatView::send_done);
        }
        if !self.get_weave_connected() {
            self.add_error("Weave session isn't connected.");
            return;
        }
        let mut done = Fields::new();
        done.put_text("relay_id", relay_id);
        proof {
            assert(done@ =~= seq![("relay_id"@, JsonView::Text(relay_id@))]);
        }
        done.put_option("summary", summary);
        let mut fields = Fields::new();
        fields.put_text("relay_id", relay_id);
        fields.put("done", done.object());
        proof {
            assert(fields@ =~= done_payload(relay_id@, summary.deep_view())->Object_0);
        }
        self.emit(
            Effect::FinishRelay { relay_id: relay_id.to_owned(), payload: fields.object() },
        );
    }

    pub(super) fn end_weave_relay_prompt(&mut self)
        ensures
            final(self)@ == old(self)@.end_prompt(),
    {
        proof {
            reveal(ChatView::end_prompt);
        }
        let _ = self.take_weave_relay_buffer();
        self.put_pending_weave_relay(None);
    }

    fn end_weave_relay(&mut self, targets: &WeaveRelayTargets)
        ensures
            final(self)@ == old(self)@.end_relay(targets.deep_view()),
    {
        proof {
            reveal(ChatView::end_relay);
        }
        self.end_weave_relay_prompt();
        self.forget_weave_plan();
        self.leave_weave_task();
        self.clear_pending_weave_actions_for_targets(&targets.target_ids);
        self.refresh_weave_session_label();
    }

    fn take_up(&mut self, targets: &WeaveRelayTargets, reply: &RelayReply) -> (handled: bool)
        ensures
            (final(self)@, handled) == old(self)@.take_up(targets.deep_view(), reply.deep_view()),
    {
        proof {
            reveal(ChatView::take_up);
        }
        self.end_weave_relay_prompt();
        match reply {
            RelayReply::TaskDone { summary } => {
                if self.relay_has_pending_replies(targets) {
                    return true;
                }
                let summary = text::trim_present(summary);
                self.send_weave_relay_done(targets.relay_id.as_str(), summary);
                self.finish_weave_task(targets, summary);
                true
            },
            RelayReply::Actions { actions } => {
                if actions.len() == 0 {
                    self.add_error(
                        "Weave relay returned no actions; respond with relay_actions or task_done.",
                    );
                    self.clear_weave_task_state(targets);
                    true
                } else {
                    self.apply_weave_relay_actions(targets, actions)
                }
            },
        }
    }

    pub(super) fn handle_weave_relay_output(
        &mut self,
        output: &str,
        reply: &Option<RelayReply>,
    ) -> (handled: bool)
        ensures
            (final(self)@, handled) == old(self)@.relay_answer(output@, reply.deep_view()),
            final(self)@.ids == old(self)@.ids,
    {
        proof {
            frames::law_an_answer_keeps_the_rest(self@, output@, reply.deep_view());
            frames::lemma_same_but_task(
                self@,
                self@.relay_answer(output@, reply.deep_view()).0,
            );
            reveal(ChatView::relay_answer);
        }
        let pending = match self.get_pending_weave_relay() {
            Some(targets) => Some(targets.clone()),
            None => None,
        };
        let reply = match reply {
            Some(reply) => reply,
            None => {
                if let Some(targets) = pending {
                    self.end_weave_relay(&targets);
                    return false;
                }
                return self.get_active_weave_relay().is_none()
                    && looks_like_weave_relay_output(output);
            },
        };
        match pending {
            Some(targets) => self.take_up(&targets, reply),
            None => {
                let targets = match self.get_active_weave_relay() {
                    Some(targets) => targets.clone(),
                    None => return true,
                };
                match reply {
                    RelayReply::Actions { actions } => {
                        match self.validate_relay_actions_scope(actions, &targets) {
                            Err(message) => {
                                self.add_error(message);
                                return true;
                            },
                            Ok(()) => {},
                        }
                    },
                    RelayReply::TaskDone { summary: _ } => {},
                }
                self.take_up(&targets, reply)
            },
        }
    }
}

/// The end of a task goes to the coordinator under the id of the task, with the summary if
/// there is one.
pub proof fn law_the_end_of_a_task_is_sent(
    chat: ChatView,
    relay_id: Seq<char>,
    summary: Option<Seq<char>>,
)
    requires
        chat.weave_connected,
    ensures
        ({
            let after = chat.send_done(relay_id, summary);
            &&& after.outbox.len() == chat.outbox.len() + 1
            &&& after.outbox.last() matches EffectView::FinishRelay { relay_id: id, payload }
            &&& id == relay_id
            &&& payload.text_field("relay_id"@) == Some(relay_id)
            &&& payload.object_field("done"@) matches Some(done)
            &&& done.text_field("relay_id"@) == Some(relay_id)
            &&& done.text_field("summary"@) == summary
        }),
{
    reveal(ChatView::send_done);
    reveal(ChatView::emit);
    reveal_strlit("relay_id");
    reveal_strlit("done");
    reveal_strlit("summary");
    assert("relay_id"@[0] == 'r' && "done"@[0] == 'd' && "summary"@[0] == 's');
    let payload = done_payload(relay_id, summary);
    let fields = payload->Object_0;
    json::lemma_field_among_at(fields, "relay_id"@, 0);
    json::lemma_field_among_at(fields, "done"@, 1);
    let inner = fields[1].1->Object_0;
    json::lemma_field_among_at(inner, "relay_id"@, 0);
    json::lemma_field_among_at(inner, "summary"@, 1);
}

/// What neither begins with a brace nor with a fence is never taken for steps, and neither
/// is what names no steps.
pub proof fn law_prose_is_not_taken_for_steps(output: Seq<char>)
    ensures
        text::trimmed(output).len() > 0 && text::trimmed(output)[0] != '{' && text::trimmed(
            output,
        )[0] != '`' ==> !looks_like_steps(output),
        text::trimmed(output).len() == 0 ==> !looks_like_steps(output),
        !text::holds(text::trimmed(output), "relay_actions"@) && !text::holds(
            text::trimmed(output),
            "task_done"@,
        ) ==> !looks_like_steps(output),
        text::trimmed(output).len() > 0 && text::trimmed(output)[0] == '{' && text::holds(
            text::trimmed(output),
            "\"type\""@,
        ) && text::holds(text::trimmed(output), "relay_actions"@) ==> looks_like_steps(output),
        text::trimmed(output).len() > 0 && text::trimmed(output)[0] == '{' && text::holds(
            text::trimmed(output),
            "\"type\""@,
        ) && text::holds(text::trimmed(output), "task_done"@) ==> looks_like_steps(output),
{
    reveal_strlit("{");
    reveal_strlit("```");
    let s = text::trimmed(output);
    assert("{"@[0] == '{' && "```"@[0] == '`' && "{"@.len() == 1 && "```"@.len() == 3);
    if "{"@.is_prefix_of(s) {
        assert(s.subrange(0, 1)[0] == s[0]);
    }
    if "```"@.is_prefix_of(s) {
        assert(s.subrange(0, 3)[0] == s[0]);
    }
    if s.len() > 0 && s[0] == '{' {
        assert(s.subrange(0, 1) =~= "{"@);
    }
}

} // verus!

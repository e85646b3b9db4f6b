//! What goes to other agents: replies, interrupts, commands and the results of
//! actions.

use vstd::prelude::*;

use crate::chat::state::{ChatView, ChatWidget};
use crate::chat::steps;
use crate::chat::types::{ActionRef, ControlSend, Effect, EffectView, WeaveReplyTarget};
use crate::client;
use crate::client::{WeaveActionResult, WeaveMessageMetadata, WeaveTool};
use crate::envelope;
use crate::json;
use crate::json::{Fields, Json, JsonView};
use crate::outside;
use crate::text;

verus! {

// ---------------------------------------------------------------------------
// Results of actions
// ---------------------------------------------------------------------------

/// The result of an action; what is blank is left out.
pub open spec fn action_result(
    group_id: Seq<char>,
    action_id: Seq<char>,
    action_index: usize,
    status: Seq<char>,
    detail: Option<Seq<char>>,
    new_context_id: Option<Seq<char>>,
    new_task_id: Option<Seq<char>>,
) -> WeaveActionResult<Seq<char>> {
    WeaveActionResult {
        group_id,
        action_id,
        action_index,
        status,
        detail: text::present(detail),
        new_context_id: text::present(new_context_id),
        new_task_id: text::present(new_task_id),
    }
}

/// The result of an action; what is blank is left out.
pub fn build_weave_action_result(
    group_id: &str,
    action_id: &str,
    action_index: usize,
    status: &str,
    detail: Option<&str>,
    new_context_id: Option<&str>,
    new_task_id: Option<&str>,
) -> (r: WeaveActionResult)
    ensures
        r.deep_view() == action_result(
            group_id@,
            action_id@,
            action_index,
            status@,
            detail.deep_view(),
            new_context_id.deep_view(),
            new_task_id.deep_view(),
        ),
{
    WeaveActionResult {
        group_id: group_id.to_owned(),
        action_id: action_id.to_owned(),
        action_index,
        status: status.to_owned(),
        detail: client::owned(envelope::trim_str(detail)),
        new_context_id: client::owned(envelope::trim_str(new_context_id)),
        new_task_id: client::owned(envelope::trim_str(new_task_id)),
    }
}

/// The result of an action that is fully named.
pub open spec fn result_for(
    action: ActionRef<Seq<char>>,
    status: Seq<char>,
    detail: Option<Seq<char>>,
    new_context_id: Option<Seq<char>>,
    new_task_id: Option<Seq<char>>,
) -> Option<WeaveActionResult<Seq<char>>> {
    match (action.group_id, action.action_id, action.action_index) {
        (Some(group_id), Some(action_id), Some(action_index)) => Some(
            action_result(
                group_id,
                action_id,
                action_index,
                status,
                detail,
                new_context_id,
                new_task_id,
            ),
        ),
        _ => None,
    }
}

impl ChatView {
    /// With a result on its way, if there is a connection.
    #[verifier::opaque]
    pub open spec fn send_result(
        self,
        dst: Seq<char>,
        result: WeaveActionResult<Seq<char>>,
    ) -> ChatView {
        if self.weave_connected {
            self.emit(EffectView::SendActionResult { dst, result })
        } else {
            self
        }
    }

    /// With the result of an action on its way, if the action is fully named.
    pub open spec fn answer_action_with(
        self,
        sender_id: Seq<char>,
        action: ActionRef<Seq<char>>,
        status: Seq<char>,
        detail: Option<Seq<char>>,
        new_context_id: Option<Seq<char>>,
        new_task_id: Option<Seq<char>>,
    ) -> ChatView {
        match result_for(action, status, detail, new_context_id, new_task_id) {
            Some(result) => self.send_result(sender_id, result),
            None => self,
        }
    }

    /// With the result of an action on its way, if the action is fully named.
    pub open spec fn answer_action(
        self,
        sender_id: Seq<char>,
        action: ActionRef<Seq<char>>,
        status: Seq<char>,
        detail: Option<Seq<char>>,
    ) -> ChatView {
        self.answer_action_with(sender_id, action, status, detail, None, None)
    }
}

impl ChatWidget {
    pub(super) fn send_weave_action_result(&mut self, dst: &str, result: WeaveActionResult)
        ensures
            final(self)@ == old(self)@.send_result(dst@, result.deep_view()),
            final(self)@.ids == old(self)@.ids,
    {
        proof {
            reveal(ChatView::send_result);
            reveal(ChatView::emit);
        }
        if self.get_weave_connected() {
            self.emit(Effect::SendActionResult { dst: dst.to_owned(), result });
        }
    }

    pub(super) fn send_weave_action_result_for_context(
        &mut self,
        sender_id: &str,
        action: &ActionRef,
        status: &str,
        detail: Option<&str>,
        new_context_id: Option<&str>,
        new_task_id: Option<&str>,
    )
        ensures
            final(self)@ == old(self)@.answer_action_with(
                sender_id@,
                action.deep_view(),
                status@,
                detail.deep_view(),
                new_context_id.deep_view(),
                new_task_id.deep_view(),
            ),
    {
        match (&action.group_id, &action.action_id, action.action_index) {
            (Some(group_id), Some(action_id), Some(action_index)) => {
                let result = build_weave_action_result(
                    group_id.as_str(),
                    action_id.as_str(),
                    action_index,
                    status,
                    detail,
                    new_context_id,
                    new_task_id,
                );
                self.send_weave_action_result(sender_id, result);
            },
            _ => {},
        }
    }

    pub(super) fn report_weave_action(
        &mut self,
        sender_id: &str,
        action: &ActionRef,
        status: &str,
        detail: Option<&str>,
    )
        ensures
            final(self)@ == old(self)@.answer_action(
                sender_id@,
                action.deep_view(),
                status@,
                detail.deep_view(),
            ),
    {
        self.send_weave_action_result_for_context(sender_id, action, status, detail, None, None);
    }
}

// ---------------------------------------------------------------------------
// Replies and interrupts
// ---------------------------------------------------------------------------

/// The conversation that a reply belongs to.
pub open spec fn reply_metadata(target: WeaveReplyTarget<Seq<char>>) -> WeaveMessageMetadata<
    Seq<char>,
> {
    WeaveMessageMetadata {
        conversation_id: target.conversation_id,
        conversation_owner: target.conversation_owner,
        parent_message_id: target.parent_message_id,
        task_id: target.task_id,
    }
}

/// What is said when `what` did not reach somebody.
pub open spec fn not_sent(what: Seq<char>, name: Seq<char>, why: Seq<char>) -> Seq<char> {
    "Failed to send Weave "@ + what + " to "@ + name + ": "@ + why
}

impl ChatView {
    /// Why nothing can be sent to somebody of this session.
    pub open spec fn send_problem(self, session_id: Seq<char>) -> Option<Seq<char>> {
        if !self.weave_connected {
            Some("session not connected."@)
        } else if self.selected_weave_session_id != Some(session_id) {
            Some("session changed."@)
        } else {
            None
        }
    }

    /// With a reply on its way, unless it is blank.
    #[verifier::opaque]
    pub open spec fn send_reply(
        self,
        target: WeaveReplyTarget<Seq<char>>,
        message: Seq<char>,
    ) -> ChatView {
        if text::is_blank(message) {
            self
        } else {
            match self.send_problem(target.session_id) {
                Some(why) => self.error(not_sent("reply"@, target.display_name, why)),
                None => self.emit(EffectView::SendReply { target, message }),
            }
        }
    }

    /// With an interrupt on its way.
    #[verifier::opaque]
    pub open spec fn send_interrupt(self, target: WeaveReplyTarget<Seq<char>>) -> ChatView {
        match self.send_problem(target.session_id) {
            Some(why) => self.error(not_sent("interrupt"@, target.display_name, why)),
            None => self.emit(EffectView::SendInterrupt(target)),
        }
    }
}

fn send_failure(what: &str, name: &str, why: &str) -> (r: String)
    ensures
        r@ == not_sent(what@, name@, why@),
{
    let mut r = text::concat3("Failed to send Weave ", what, " to ");
    r.append(name);
    r.append(": ");
    r.append(why);
    r
}

impl ChatWidget {
    fn find_send_problem(&self, session_id: &str) -> (r: Option<&'static str>)
        ensures
            r.deep_view() == self@.send_problem(session_id@),
    {
        if !self.get_weave_connected() {
            return Some("session not connected.");
        }
        match self.get_selected_weave_session_id() {
            Some(selected) => if text::same(selected.as_str(), session_id) {
                None
            } else {
                Some("session changed.")
            },
            None => Some("session changed."),
        }
    }

    pub(super) fn send_weave_reply(&mut self, target: WeaveReplyTarget, message: String)
        ensures
            final(self)@ == old(self)@.send_reply(target.deep_view(), message@),
            final(self)@.ids == old(self)@.ids,
    {
        proof {
            reveal(ChatView::send_reply);
            reveal(ChatView::emit);
        }
        if text::blank(message.as_str()) {
            return;
        }
        match self.find_send_problem(target.session_id.as_str()) {
            Some(why) => {
                let message = send_failure("reply", target.display_name.as_str(), why);
                self.add_error(message.as_str());
            },
            None => self.emit(Effect::SendReply { target, message }),
        }
    }

    pub(super) fn send_weave_interrupt(&mut self, target: WeaveReplyTarget)
        ensures
            final(self)@ == old(self)@.send_interrupt(target.deep_view()),
            final(self)@.ids == old(self)@.ids,
    {
        proof {
            reveal(ChatView::send_interrupt);
            reveal(ChatView::emit);
        }
        match self.find_send_problem(target.session_id.as_str()) {
            Some(why) => {
                let message = send_failure("interrupt", target.display_name.as_str(), why);
                self.add_error(message.as_str());
            },
            None => self.emit(Effect::SendInterrupt(target)),
        }
    }
}

impl WeaveReplyTarget {
    /// The conversation that a reply belongs to.
    pub fn metadata(&self) -> (r: WeaveMessageMetadata)
        ensures
            r.deep_view() == reply_metadata(self.deep_view()),
    {
        WeaveMessageMetadata {
            conversation_id: self.conversation_id.clone(),
            conversation_owner: self.conversation_owner.clone(),
            parent_message_id: text::copy_option(&self.parent_message_id),
            task_id: text::copy_option(&self.task_id),
        }
    }

    /// After a reply could not be sent: the result for the action that asked for
    /// it, and what to tell the user.
    pub fn reply_failed(&self, error: &str) -> (r: (Option<WeaveActionResult>, String))
        ensures
            r.0.deep_view() == result_for(
                (ActionRef {
                    group_id: self.action_group_id.deep_view(),
                    action_id: self.action_id.deep_view(),
                    action_index: self.action_index,
                }),
                "error"@,
                Some(error@),
                None,
                None,
            ),
            r.1@ == not_sent("reply"@, self.display_name@, error@),
    {
        let result = match (&self.action_group_id, &self.action_id, self.action_index) {
            (Some(group_id), Some(action_id), Some(action_index)) => Some(
                build_weave_action_result(
                    group_id.as_str(),
                    action_id.as_str(),
                    action_index,
                    "error",
                    Some(error),
                    None,
                    None,
                ),
            ),
            _ => None,
        };
        (result, send_failure("reply", self.display_name.as_str(), error))
    }

    /// What to tell the user when an interrupt could not be sent.
    pub fn interrupt_failed(&self, error: &str) -> (r: String)
        ensures
            r@ == not_sent("interrupt"@, self.display_name@, error@),
    {
        send_failure("interrupt", self.display_name.as_str(), error)
    }

    /// The interrupt for this conversation, under these identifiers.
    pub fn interrupt_payload_with_ids(&self, group_id: &str, action_id: &str) -> (r: Json)
        ensures
            r.deep_view() == control_submit(
                self.agent_id@,
                WeaveTool::Interrupt,
                Some(reply_metadata(self.deep_view())),
                group_id@,
                action_id@,
            ),
    {
        let metadata = self.metadata();
        control_submit_payload(
            self.agent_id.as_str(),
            &WeaveTool::Interrupt,
            Some(&metadata),
            group_id,
            action_id,
        )
    }

    /// The interrupt for this conversation, under new identifiers.
    pub fn interrupt_payload(&self) -> (r: Json)
        ensures
            exists|group_id: Seq<char>, action_id: Seq<char>|
                outside::is_random_id(group_id) && outside::is_random_id(action_id)
                    && r.deep_view() == #[trigger] control_submit(
                    self.agent_id@,
                    WeaveTool::Interrupt,
                    Some(reply_metadata(self.deep_view())),
                    group_id,
                    action_id,
                ),
    {
        let group_id = outside::random_id();
        let action_id = outside::random_id();
        self.interrupt_payload_with_ids(group_id.as_str(), action_id.as_str())
    }
}

// ---------------------------------------------------------------------------
// Commands
// ---------------------------------------------------------------------------

/// The instructions of a review, where there are some.
pub open spec fn review_args(tool: WeaveTool<Seq<char>>) -> Option<Seq<char>> {
    match tool {
        WeaveTool::Review { instructions } => text::present(instructions),
        _ => None,
    }
}

/// A command among the actions of an `action.submit`.
pub open spec fn control_fields(
    dst: Seq<char>,
    tool: WeaveTool<Seq<char>>,
    action_id: Seq<char>,
    action_index: nat,
) -> JsonView {
    JsonView::Object(
        json::with_option(
            seq![
                ("type"@, JsonView::Text("control"@)),
                ("dst"@, JsonView::Text(dst)),
                ("command"@, JsonView::Text(steps::tool_name(tool))),
            ],
            "args"@,
            review_args(tool),
        ).push(("action_id"@, JsonView::Text(action_id))).push(
            ("action_index"@, envelope::natural(action_index)),
        ),
    )
}

/// An `action.submit` with one command.
pub open spec fn control_submit(
    dst: Seq<char>,
    tool: WeaveTool<Seq<char>>,
    metadata: Option<WeaveMessageMetadata<Seq<char>>>,
    group_id: Seq<char>,
    action_id: Seq<char>,
) -> JsonView {
    envelope::submit_fields(group_id, seq![control_fields(dst, tool, action_id, 0)], metadata)
}

/// A command among the actions of an `action.submit`.
pub fn weave_action_control_payload(
    dst: &str,
    tool: &WeaveTool,
    action_id: &str,
    action_index: usize,
) -> (r: Json)
    ensures
        r.deep_view() == control_fields(dst@, tool.deep_view(), action_id@, action_index as nat),
{
    let (command, _) = steps::weave_control_action_parts(tool);
    let mut fields = Fields::new();
    fields.put_text("type", "control");
    fields.put_text("dst", dst);
    fields.put_text("command", command);
    proof {
        assert(fields@ =~= seq![
            ("type"@, JsonView::Text("control"@)),
            ("dst"@, JsonView::Text(dst@)),
            ("command"@, JsonView::Text(steps::tool_name(tool.deep_view()))),
        ]);
    }
    let args = match tool {
        WeaveTool::Review { instructions } => text::trim_present(instructions),
        _ => None,
    };
    fields.put_option("args", args);
    fields.put_text("action_id", action_id);
    fields.put("action_index", envelope::json_natural(action_index));
    fields.object()
}

fn control_submit_payload(
    dst: &str,
    tool: &WeaveTool,
    metadata: Option<&WeaveMessageMetadata>,
    group_id: &str,
    action_id: &str,
) -> (r: Json)
    ensures
        r.deep_view() == control_submit(
            dst@,
            tool.deep_view(),
            metadata.deep_view(),
            group_id@,
            action_id@,
        ),
{
    let mut actions: Vec<Json> = Vec::new();
    actions.push(weave_action_control_payload(dst, tool, action_id, 0));
    proof {
        assert(actions.deep_view() =~= seq![control_fields(dst@, tool.deep_view(), action_id@, 0)]);
    }
    envelope::action_submit_payload(group_id, actions, metadata)
}

impl ControlSend {
    /// The command, under these identifiers.
    pub fn payload_with_ids(&self, group_id: &str, action_id: &str) -> (r: Json)
        ensures
            r.deep_view() == control_submit(
                self.agent.id@,
                self.tool.deep_view(),
                self.metadata.deep_view(),
                group_id@,
                action_id@,
            ),
    {
        control_submit_payload(
            self.agent.id.as_str(),
            &self.tool,
            self.metadata.as_ref(),
            group_id,
            action_id,
        )
    }

    /// The command, under new identifiers.
    pub fn payload(&self) -> (r: Json)
        ensures
            exists|group_id: Seq<char>, action_id: Seq<char>|
                outside::is_random_id(group_id) && outside::is_random_id(action_id)
                    && r.deep_view() == #[trigger] control_submit(
                    self.agent.id@,
                    self.tool.deep_view(),
                    self.metadata.deep_view(),
                    group_id,
                    action_id,
                ),
    {
        let group_id = outside::random_id();
        let action_id = outside::random_id();
        self.payload_with_ids(group_id.as_str(), action_id.as_str())
    }

    /// What to tell the user once the command is sent.
    pub fn sent(&self) -> (r: String)
        ensures
            r@ == "Weave control: sent "@ + steps::tool_label(self.tool.deep_view()) + " to "@
                + client::shown_name(self.agent.id@, self.agent.name.deep_view()) + "."@,
    {
        let (_, label) = steps::weave_control_action_parts(&self.tool);
        let name = self.agent.display_name();
        let mut r = text::concat3("Weave control: sent ", label, " to ");
        r.append(name.as_str());
        r.append(".");
        r
    }

    /// What to tell the user when the command could not be sent.
    pub fn failed(&self, error: &str) -> (r: String)
        ensures
            r@ == not_sent(
                "control"@,
                client::shown_name(self.agent.id@, self.agent.name.deep_view()),
                error@,
            ),
    {
        let name = self.agent.display_name();
        send_failure("control", name.as_str(), error)
    }
}

} // verus!

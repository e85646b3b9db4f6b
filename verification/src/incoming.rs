//! What an envelope brings to this agent.

use vstd::prelude::*;

use crate::client;
use crate::client::{
    WeaveActionResult, WeaveIncomingMessage, WeaveMessageKind, WeaveTaskDone, WeaveTaskUpdate,
    WeaveTool,
};
use crate::envelope;
use crate::envelope::{WeaveAck, WeaveEnvelope};
use crate::json;
use crate::json::{Json, JsonView};
use crate::text;

verus! {

/// What the messages of one envelope have in common.
#[derive(Debug, PartialEq, Eq)]
#[verifier::ext_equal]
pub struct IncomingMessageContext<S = String, J = Json> {
    pub session_id: S,
    pub message_id: S,
    pub src: S,
    pub src_name: Option<S>,
    pub meta: Option<J>,
}

impl DeepView for IncomingMessageContext {
    type V = IncomingMessageContext<Seq<char>, JsonView>;

    open spec fn deep_view(&self) -> IncomingMessageContext<Seq<char>, JsonView> {
        IncomingMessageContext {
            session_id: self.session_id@,
            message_id: self.message_id@,
            src: self.src@,
            src_name: self.src_name.deep_view(),
            meta: self.meta.deep_view(),
        }
    }
}

impl Clone for IncomingMessageContext {
    fn clone(&self) -> (r: IncomingMessageContext)
        ensures
            r.deep_view() == self.deep_view(),
    {
        IncomingMessageContext {
            session_id: self.session_id.clone(),
            message_id: self.message_id.clone(),
            src: self.src.clone(),
            src_name: text::copy_option(&self.src_name),
            meta: json::copy_option(&self.meta),
        }
    }
}

/// What the actions of one `action.submit` have in common.
#[derive(Debug, PartialEq, Eq)]
#[verifier::ext_equal]
pub struct ActionContext<S = String> {
    pub group_id: S,
    pub conversation_id: S,
    pub conversation_owner: S,
    pub parent_message_id: Option<S>,
    pub task_id: Option<S>,
    pub has_conversation_metadata: bool,
}

impl DeepView for ActionContext {
    type V = ActionContext<Seq<char>>;

    open spec fn deep_view(&self) -> ActionContext<Seq<char>> {
        ActionContext {
            group_id: self.group_id@,
            conversation_id: self.conversation_id@,
            conversation_owner: self.conversation_owner@,
            parent_message_id: self.parent_message_id.deep_view(),
            task_id: self.task_id.deep_view(),
            has_conversation_metadata: self.has_conversation_metadata,
        }
    }
}

impl Clone for ActionContext {
    fn clone(&self) -> (r: ActionContext)
        ensures
            r == *self,
    {
        ActionContext {
            group_id: self.group_id.clone(),
            conversation_id: self.conversation_id.clone(),
            conversation_owner: self.conversation_owner.clone(),
            parent_message_id: text::copy_option(&self.parent_message_id),
            task_id: text::copy_option(&self.task_id),
            has_conversation_metadata: self.has_conversation_metadata,
        }
    }
}

// ---------------------------------------------------------------------------
// Whom an envelope is for
// ---------------------------------------------------------------------------

/// Whether `s` is the id or the name of the agent.
pub open spec fn names(s: Seq<char>, agent_id: Seq<char>, agent_name: Seq<char>) -> bool {
    s == agent_id || s == agent_name
}

/// The agent whose inbox a topic is: `agent.<agent>.inbox`.
pub open spec fn inbox_owner(topic: Seq<char>) -> Option<Seq<char>> {
    let parts = text::pieces(topic, text::Cut::At('.'));
    if parts.len() == 3 && parts[0] == "agent"@ && parts[2] == "inbox"@ {
        Some(parts[1])
    } else {
        None
    }
}

/// Whether an envelope is meant for the agent's inbox: its destination names
/// the agent, or it has none and its topic is the agent's inbox.
pub open spec fn is_for_inbox(
    envelope: WeaveEnvelope<Seq<char>, JsonView>,
    agent_id: Seq<char>,
    agent_name: Seq<char>,
) -> bool {
    match envelope.dst {
        Some(dst) => names(dst, agent_id, agent_name),
        None => match envelope.topic {
            Some(topic) => match inbox_owner(topic) {
                Some(owner) => names(owner, agent_id, agent_name),
                None => false,
            },
            None => false,
        },
    }
}

/// Whether an envelope is meant for the agent: for its inbox, or for everyone,
/// with neither a destination nor a topic.
pub open spec fn is_for_agent(
    envelope: WeaveEnvelope<Seq<char>, JsonView>,
    agent_id: Seq<char>,
    agent_name: Seq<char>,
) -> bool {
    ||| envelope.dst is None && envelope.topic is None
    ||| is_for_inbox(envelope, agent_id, agent_name)
}

/// Whether the agent owes an acknowledgement: for a message from another agent
/// to its inbox that asks for an automatic one.
pub open spec fn owes_ack(
    envelope: WeaveEnvelope<Seq<char>, JsonView>,
    agent_id: Seq<char>,
    agent_name: Seq<char>,
) -> bool {
    &&& envelope.message_type == "message.send"@
    &&& !names(envelope.src, agent_id, agent_name)
    &&& envelope.ack matches Some(ack) && ack.mode == Some("auto"@)
    &&& is_for_inbox(envelope, agent_id, agent_name)
}

fn is_named(s: &str, agent_id: &str, agent_name: &str) -> (r: bool)
    ensures
        r == names(s@, agent_id@, agent_name@),
{
    text::same(s, agent_id) || text::same(s, agent_name)
}

/// The agent whose inbox a topic is.
pub fn agent_inbox_target(topic: &str) -> (r: Option<String>)
    ensures
        r.deep_view() == inbox_owner(topic@),
{
    let parts = text::split(topic, text::Cut::At('.'));
    proof {
        assert(text::views(parts@).len() == parts@.len());
        assert forall|i: int| 0 <= i < parts@.len() implies #[trigger] text::views(parts@)[i]
            == parts@[i]@ by {}
    }
    if parts.len() == 3 && text::same(parts[0].as_str(), "agent") && text::same(
        parts[2].as_str(),
        "inbox",
    ) {
        Some(parts[1].clone())
    } else {
        None
    }
}

/// Whether an envelope is meant for the agent's inbox.
pub fn is_direct_inbox_for_agent(
    envelope: &WeaveEnvelope,
    agent_id: &str,
    agent_name: &str,
) -> (r: bool)
    ensures
        r == is_for_inbox(envelope.deep_view(), agent_id@, agent_name@),
{
    match &envelope.dst {
        Some(dst) => is_named(dst.as_str(), agent_id, agent_name),
        None => match &envelope.topic {
            Some(topic) => match agent_inbox_target(topic.as_str()) {
                Some(owner) => is_named(owner.as_str(), agent_id, agent_name),
                None => false,
            },
            None => false,
        },
    }
}

/// Whether an envelope is meant for the agent.
pub fn is_direct_message_for_agent(
    envelope: &WeaveEnvelope,
    agent_id: &str,
    agent_name: &str,
) -> (r: bool)
    ensures
        r == is_for_agent(envelope.deep_view(), agent_id@, agent_name@),
{
    (envelope.dst.is_none() && envelope.topic.is_none()) || is_direct_inbox_for_agent(
        envelope,
        agent_id,
        agent_name,
    )
}

/// Whether the sender wants an automatic acknowledgement.
pub fn ack_requests_auto(ack: &Option<WeaveAck>) -> (r: bool)
    ensures
        r == (ack.deep_view() matches Some(ack) && ack.mode == Some("auto"@)),
{
    match ack {
        Some(ack) => envelope::option_is(&ack.mode, "auto"),
        None => false,
    }
}

/// Whether the agent owes an acknowledgement.
pub fn should_ack_message(envelope: &WeaveEnvelope, agent_id: &str, agent_name: &str) -> (r: bool)
    ensures
        r == owes_ack(envelope.deep_view(), agent_id@, agent_name@),
{
    text::same(envelope.message_type.as_str(), "message.send") && !is_named(
        envelope.src.as_str(),
        agent_id,
        agent_name,
    ) && ack_requests_auto(&envelope.ack) && is_direct_inbox_for_agent(
        envelope,
        agent_id,
        agent_name,
    )
}

/// What an acknowledgement refers to: the request that the message answered, or
/// else the message.
pub open spec fn ack_corr(envelope: WeaveEnvelope<Seq<char>, JsonView>) -> Seq<char> {
    match envelope.corr {
        Some(corr) => corr,
        None => envelope.id,
    }
}

/// The acknowledgement that the agent owes, if it owes one.
pub fn build_message_ack_request(
    envelope: &WeaveEnvelope,
    agent_id: &str,
    agent_name: &str,
    session_id: &str,
) -> (r: Option<WeaveEnvelope>)
    ensures
        match r {
            Some(ack) => owes_ack(envelope.deep_view(), agent_id@, agent_name@) && ack.deep_view()
                == (WeaveEnvelope {
                corr: Some(ack_corr(envelope.deep_view())),
                ..envelope::envelope_of(
                    "message.ack"@,
                    agent_id@,
                    Some(session_id@),
                    None,
                    ack.id@,
                    ack.ts@,
                )
            }) && envelope::is_fresh(ack.deep_view()),
            None => !owes_ack(envelope.deep_view(), agent_id@, agent_name@),
        },
{
    if !should_ack_message(envelope, agent_id, agent_name) {
        return None;
    }
    let corr = match &envelope.corr {
        Some(corr) => corr.clone(),
        None => envelope.id.clone(),
    };
    let mut request = envelope::new_envelope_with_src(
        "message.ack",
        agent_id,
        Some(session_id.to_owned()),
        None,
    );
    request.corr = Some(corr);
    Some(request)
}

// ---------------------------------------------------------------------------
// What a payload holds
// ---------------------------------------------------------------------------

/// `value`, or `other` where there is none.
pub open spec fn or_else<T>(value: Option<T>, other: T) -> T {
    match value {
        Some(value) => value,
        None => other,
    }
}

/// The trimmed text in a field of an optional payload, if it is not blank.
pub open spec fn payload_present(payload: Option<JsonView>, key: Seq<char>) -> Option<Seq<char>> {
    match payload {
        Some(payload) => payload.present_field(key),
        None => None,
    }
}

/// The text of a payload: the payload itself where it is a text, else its field
/// `text`.
pub open spec fn text_in(payload: Option<JsonView>) -> Option<Seq<char>> {
    match payload {
        Some(JsonView::Text(s)) => Some(s),
        Some(payload) => payload.text_field("text"@),
        None => None,
    }
}

/// The kind of message that a word on the wire names.
pub open spec fn kind_named(kind: Seq<char>) -> WeaveMessageKind {
    if kind == "reply"@ {
        WeaveMessageKind::Reply
    } else if kind == "control"@ {
        WeaveMessageKind::Control
    } else {
        WeaveMessageKind::User
    }
}

/// The kind of message that a payload says it is.
pub open spec fn kind_in(payload: Option<JsonView>) -> WeaveMessageKind {
    match payload {
        Some(payload) => match payload.text_field("kind"@) {
            Some(kind) => kind_named(kind),
            None => WeaveMessageKind::User,
        },
        None => WeaveMessageKind::User,
    }
}

/// The name that a relayed message says its sender has.
pub open spec fn origin_name(meta: Option<JsonView>) -> Option<Seq<char>> {
    match meta {
        Some(meta) => match meta.field("weave"@) {
            Some(weave) => weave.present_field("origin_src_name"@),
            None => None,
        },
        None => None,
    }
}

/// The text of a payload.
pub fn payload_text(payload: &Option<Json>) -> (r: Option<String>)
    ensures
        r.deep_view() == text_in(payload.deep_view()),
{
    match payload {
        Some(payload) => match payload.as_text() {
            Some(s) => Some(s.to_owned()),
            None => client::owned(payload.get_text("text")),
        },
        None => None,
    }
}

fn kind_of(kind: &str) -> (r: WeaveMessageKind)
    ensures
        r == kind_named(kind@),
{
    if text::same(kind, "reply") {
        WeaveMessageKind::Reply
    } else if text::same(kind, "control") {
        WeaveMessageKind::Control
    } else {
        WeaveMessageKind::User
    }
}

/// The kind of message that a payload says it is.
pub fn payload_kind(payload: &Option<Json>) -> (r: WeaveMessageKind)
    ensures
        r == kind_in(payload.deep_view()),
{
    match payload {
        Some(payload) => match payload.get_text("kind") {
            Some(kind) => kind_of(kind),
            None => WeaveMessageKind::User,
        },
        None => WeaveMessageKind::User,
    }
}

/// The name that a relayed message says its sender has.
pub fn meta_origin_src_name(meta: &Option<Json>) -> (r: Option<String>)
    ensures
        r.deep_view() == origin_name(meta.deep_view()),
{
    match meta {
        Some(meta) => match meta.get("weave") {
            Some(weave) => client::owned(weave.get_present("origin_src_name")),
            None => None,
        },
        None => None,
    }
}

fn present_in(payload: &Option<Json>, key: &str) -> (r: Option<String>)
    ensures
        r.deep_view() == payload_present(payload.deep_view(), key@),
{
    match payload {
        Some(payload) => client::owned(payload.get_present(key)),
        None => None,
    }
}

fn string_or(value: Option<String>, other: &String) -> (r: String)
    ensures
        r@ == or_else(value.deep_view(), other@),
{
    match value {
        Some(value) => value,
        None => other.clone(),
    }
}

/// The text of a message: that of its payload, else a note of where the payload
/// is kept.
pub open spec fn message_text(envelope: WeaveEnvelope<Seq<char>, JsonView>) -> Option<Seq<char>> {
    match text_in(envelope.payload) {
        Some(s) => Some(s),
        None => match envelope.payload_ref {
            Some(payload_ref) => Some("[payload_ref: "@ + payload_ref + "]"@),
            None => None,
        },
    }
}

/// The text of a message.
pub fn message_payload_text(envelope: &WeaveEnvelope) -> (r: Option<String>)
    ensures
        r.deep_view() == message_text(envelope.deep_view()),
{
    match payload_text(&envelope.payload) {
        Some(s) => Some(s),
        None => match &envelope.payload_ref {
            Some(payload_ref) => Some(text::concat3("[payload_ref: ", payload_ref.as_str(), "]")),
            None => None,
        },
    }
}

// ---------------------------------------------------------------------------
// The messages of an envelope
// ---------------------------------------------------------------------------

/// A control message without content, of a conversation of its own.
pub open spec fn plain_message(
    ctx: IncomingMessageContext<Seq<char>, JsonView>,
) -> WeaveIncomingMessage<Seq<char>, JsonView> {
    WeaveIncomingMessage {
        session_id: ctx.session_id,
        message_id: ctx.message_id,
        src: ctx.src,
        src_name: ctx.src_name,
        meta: ctx.meta,
        text: seq![],
        kind: WeaveMessageKind::Control,
        conversation_id: ctx.message_id,
        conversation_owner: ctx.src,
        parent_message_id: None,
        task_id: None,
        tool: None,
        action_group_id: None,
        action_id: None,
        action_index: None,
        reply_to_action_id: None,
        action_result: None,
        task_update: None,
        task_done: None,
        defer_until_ready: false,
        has_conversation_metadata: false,
    }
}

fn new_message(ctx: &IncomingMessageContext) -> (r: WeaveIncomingMessage)
    ensures
        r.deep_view() == plain_message(ctx.deep_view()),
{
    WeaveIncomingMessage {
        session_id: ctx.session_id.clone(),
        message_id: ctx.message_id.clone(),
        src: ctx.src.clone(),
        src_name: text::copy_option(&ctx.src_name),
        meta: json::copy_option(&ctx.meta),
        text: String::new(),
        kind: WeaveMessageKind::Control,
        conversation_id: ctx.message_id.clone(),
        conversation_owner: ctx.src.clone(),
        parent_message_id: None,
        task_id: None,
        tool: None,
        action_group_id: None,
        action_id: None,
        action_index: None,
        reply_to_action_id: None,
        action_result: None,
        task_update: None,
        task_done: None,
        defer_until_ready: false,
        has_conversation_metadata: false,
    }
}

/// The message that a `message.send` or `message.created` brings.
pub open spec fn sent_message(
    envelope: WeaveEnvelope<Seq<char>, JsonView>,
    ctx: IncomingMessageContext<Seq<char>, JsonView>,
) -> Option<WeaveIncomingMessage<Seq<char>, JsonView>> {
    let payload = envelope.payload;
    let conversation_id = payload_present(payload, "context_id"@);
    let conversation_owner = payload_present(payload, "owner_id"@);
    let parent_message_id = payload_present(payload, "parent_message_id"@);
    let task_id = payload_present(payload, "task_id"@);
    match message_text(envelope) {
        Some(message) => Some(
            WeaveIncomingMessage {
                text: message,
                kind: kind_in(payload),
                conversation_id: or_else(conversation_id, ctx.message_id),
                conversation_owner: or_else(conversation_owner, ctx.src),
                parent_message_id,
                task_id,
                reply_to_action_id: payload_present(payload, "reply_to_action_id"@),
                has_conversation_metadata: conversation_id is Some || conversation_owner is Some
                    || parent_message_id is Some || task_id is Some,
                ..plain_message(ctx)
            },
        ),
        None => None,
    }
}

/// The message that a `message.send` or `message.created` brings.
pub fn build_message_payload_message(
    envelope: &WeaveEnvelope,
    ctx: &IncomingMessageContext,
) -> (r: Option<WeaveIncomingMessage>)
    ensures
        r.deep_view() == sent_message(envelope.deep_view(), ctx.deep_view()),
{
    let payload = &envelope.payload;
    let message = match message_payload_text(envelope) {
        Some(message) => message,
        None => return None,
    };
    let conversation_id = present_in(payload, "context_id");
    let conversation_owner = present_in(payload, "owner_id");
    let parent_message_id = present_in(payload, "parent_message_id");
    let task_id = present_in(payload, "task_id");
    let mut r = new_message(ctx);
    r.text = message;
    r.kind = payload_kind(payload);
    r.has_conversation_metadata = conversation_id.is_some() || conversation_owner.is_some()
        || parent_message_id.is_some() || task_id.is_some();
    r.conversation_id = string_or(conversation_id, &ctx.message_id);
    r.conversation_owner = string_or(conversation_owner, &ctx.src);
    r.parent_message_id = parent_message_id;
    r.task_id = task_id;
    r.reply_to_action_id = present_in(payload, "reply_to_action_id");
    Some(r)
}

/// What the actions in an `action.submit` have in common. A group or a
/// conversation without an id takes that of the envelope.
pub open spec fn action_context(
    payload: JsonView,
    ctx: IncomingMessageContext<Seq<char>, JsonView>,
) -> ActionContext<Seq<char>> {
    let context = payload.object_field("context"@);
    let parent_message_id = payload_present(context, "parent_message_id"@);
    let task_id = payload.present_field("task_id"@);
    ActionContext {
        group_id: or_else(payload.present_field("group_id"@), ctx.message_id),
        conversation_id: or_else(payload_present(context, "context_id"@), ctx.message_id),
        conversation_owner: or_else(payload_present(context, "owner_id"@), ctx.src),
        parent_message_id,
        task_id,
        has_conversation_metadata: context is Some || parent_message_id is Some || task_id is Some,
    }
}

/// Whether an action is for the agent.
pub open spec fn is_action_for(
    action: JsonView,
    agent_id: Seq<char>,
    agent_name: Seq<char>,
) -> bool {
    action.present_field("dst"@) matches Some(dst) && names(dst, agent_id, agent_name)
}

/// The type of an action.
pub open spec fn action_type(action: JsonView) -> Seq<char> {
    match action.text_field("type"@) {
        Some(name) => text::trimmed(name),
        None => seq![],
    }
}

/// The tool that a control action names.
pub open spec fn action_tool(action: JsonView) -> Option<WeaveTool<Seq<char>>> {
    client::tool_named(
        or_else(action.present_field("command"@), seq![]),
        action.present_field("args"@),
    )
}

/// Whether an action has the agent start a new session.
pub open spec fn starts_session(
    action: JsonView,
    agent_id: Seq<char>,
    agent_name: Seq<char>,
) -> bool {
    &&& is_action_for(action, agent_id, agent_name)
    &&& action_type(action) == "control"@
    &&& action_tool(action) == Some(WeaveTool::<Seq<char>>::NewSession)
}

/// Whether one of the first `n` actions has the agent start a new session.
pub open spec fn session_started(
    actions: Seq<JsonView>,
    n: int,
    agent_id: Seq<char>,
    agent_name: Seq<char>,
) -> bool {
    exists|k: int| 0 <= k < n && starts_session(#[trigger] actions[k], agent_id, agent_name)
}

/// The message that the action at `index` brings to the agent it is for.
/// A message waits where an action before it starts a new session.
pub open spec fn action_message(
    action: JsonView,
    index: nat,
    ctx: IncomingMessageContext<Seq<char>, JsonView>,
    shared: ActionContext<Seq<char>>,
    defer: bool,
) -> Option<WeaveIncomingMessage<Seq<char>, JsonView>> {
    let common = WeaveIncomingMessage {
        conversation_id: shared.conversation_id,
        conversation_owner: shared.conversation_owner,
        parent_message_id: shared.parent_message_id,
        task_id: shared.task_id,
        action_group_id: Some(shared.group_id),
        action_id: action.present_field("action_id"@),
        action_index: Some(
            match action.natural_field("action_index"@) {
                Some(n) => n as usize,
                None => index as usize,
            },
        ),
        reply_to_action_id: action.present_field("reply_to_action_id"@),
        has_conversation_metadata: shared.has_conversation_metadata,
        ..plain_message(ctx)
    };
    if action_type(action) == "message"@ {
        match action.text_field("text"@) {
            Some(message) => Some(
                WeaveIncomingMessage {
                    text: message,
                    kind: match action.present_field("kind"@) {
                        Some(kind) => kind_named(kind),
                        None => WeaveMessageKind::User,
                    },
                    defer_until_ready: defer,
                    ..common
                },
            ),
            None => None,
        }
    } else if action_type(action) == "control"@ {
        match action_tool(action) {
            Some(tool) => Some(WeaveIncomingMessage { tool: Some(tool), ..common }),
            None => None,
        }
    } else {
        None
    }
}

/// The messages that the first `n` actions bring to the agent, in their order.
pub open spec fn action_messages(
    actions: Seq<JsonView>,
    n: nat,
    ctx: IncomingMessageContext<Seq<char>, JsonView>,
    shared: ActionContext<Seq<char>>,
    agent_id: Seq<char>,
    agent_name: Seq<char>,
) -> Seq<WeaveIncomingMessage<Seq<char>, JsonView>>
    decreases n,
{
    if n == 0 {
        seq![]
    } else {
        let k = (n - 1) as nat;
        let before = action_messages(actions, k, ctx, shared, agent_id, agent_name);
        let defer = session_started(actions, k as int, agent_id, agent_name);
        if is_action_for(actions[k as int], agent_id, agent_name) {
            match action_message(actions[k as int], k, ctx, shared, defer) {
                Some(message) => before.push(message),
                None => before,
            }
        } else {
            before
        }
    }
}

/// The messages that an `action.submit` brings to the agent.
pub open spec fn dispatched(
    payload: JsonView,
    ctx: IncomingMessageContext<Seq<char>, JsonView>,
    agent_id: Seq<char>,
    agent_name: Seq<char>,
) -> Seq<WeaveIncomingMessage<Seq<char>, JsonView>> {
    match payload.array_field("actions"@) {
        Some(actions) => action_messages(
            actions,
            actions.len(),
            ctx,
            action_context(payload, ctx),
            agent_id,
            agent_name,
        ),
        None => seq![],
    }
}

fn read_action_context(payload: &Json, ctx: &IncomingMessageContext) -> (r: ActionContext)
    ensures
        r.deep_view() == action_context(payload.deep_view(), ctx.deep_view()),
{
    let task_id = client::owned(payload.get_present("task_id"));
    let group_id = string_or(client::owned(payload.get_present("group_id")), &ctx.message_id);
    match payload.get_object("context") {
        Some(context) => {
            let conversation_id = client::owned(context.get_present("context_id"));
            let conversation_owner = client::owned(context.get_present("owner_id"));
            ActionContext {
                group_id,
                conversation_id: string_or(conversation_id, &ctx.message_id),
                conversation_owner: string_or(conversation_owner, &ctx.src),
                parent_message_id: client::owned(context.get_present("parent_message_id")),
                task_id,
                has_conversation_metadata: true,
            }
        },
        None => ActionContext {
            group_id,
            conversation_id: ctx.message_id.clone(),
            conversation_owner: ctx.src.clone(),
            parent_message_id: None,
            has_conversation_metadata: task_id.is_some(),
            task_id,
        },
    }
}

fn is_action_for_agent(action: &Json, agent_id: &str, agent_name: &str) -> (r: bool)
    ensures
        r == is_action_for(action.deep_view(), agent_id@, agent_name@),
{
    match action.get_present("dst") {
        Some(dst) => is_named(dst, agent_id, agent_name),
        None => false,
    }
}

fn read_action_type(action: &Json) -> (r: &str)
    ensures
        r@ == action_type(action.deep_view()),
{
    match action.get_text("type") {
        Some(name) => text::trim(name),
        None => {
            proof {
                reveal_strlit("");
                assert(""@ =~= Seq::<char>::empty());
            }
            ""
        },
    }
}

fn read_action_tool(action: &Json) -> (r: Option<WeaveTool>)
    ensures
        r.deep_view() == action_tool(action.deep_view()),
{
    let command = match action.get_present("command") {
        Some(command) => command,
        None => {
            proof {
                reveal_strlit("");
                assert(""@ =~= Seq::<char>::empty());
            }
            ""
        },
    };
    WeaveTool::from_command(command, action.get_present("args"))
}

fn read_action(
    action: &Json,
    index: usize,
    ctx: &IncomingMessageContext,
    shared: &ActionContext,
    defer: bool,
) -> (r: Option<WeaveIncomingMessage>)
    ensures
        r.deep_view() == action_message(
            action.deep_view(),
            index as nat,
            ctx.deep_view(),
            shared.deep_view(),
            defer,
        ),
{
    let mut r = new_message(ctx);
    r.conversation_id = shared.conversation_id.clone();
    r.conversation_owner = shared.conversation_owner.clone();
    r.parent_message_id = text::copy_option(&shared.parent_message_id);
    r.task_id = text::copy_option(&shared.task_id);
    r.action_group_id = Some(shared.group_id.clone());
    r.action_id = client::owned(action.get_present("action_id"));
    r.action_index = Some(
        match action.get_natural("action_index") {
            Some(n) => n as usize,
            None => index,
        },
    );
    r.reply_to_action_id = client::owned(action.get_present("reply_to_action_id"));
    r.has_conversation_metadata = shared.has_conversation_metadata;
    let name = read_action_type(action);
    if text::same(name, "message") {
        match action.get_text("text") {
            Some(message) => {
                r.text = message.to_owned();
                r.kind = match action.get_present("kind") {
                    Some(kind) => kind_of(kind),
                    None => WeaveMessageKind::User,
                };
                r.defer_until_ready = defer;
                Some(r)
            },
            None => None,
        }
    } else if text::same(name, "control") {
        match read_action_tool(action) {
            Some(tool) => {
                r.tool = Some(tool);
                Some(r)
            },
            None => None,
        }
    } else {
        None
    }
}

/// The messages that an `action.submit` brings to the agent.
pub fn build_action_dispatch_messages(
    payload: &Json,
    ctx: &IncomingMessageContext,
    agent_id: &str,
    agent_name: &str,
) -> (r: Vec<WeaveIncomingMessage>)
    ensures
        r.deep_view() == dispatched(payload.deep_view(), ctx.deep_view(), agent_id@, agent_name@),
{
    let mut messages: Vec<WeaveIncomingMessage> = Vec::new();
    proof {
        assert(messages.deep_view() =~= seq![]);
    }
    let actions = match payload.get_array("actions") {
        Some(actions) => actions,
        None => return messages,
    };
    let shared = read_action_context(payload, ctx);
    let mut defer = false;
    for i in 0..actions.len()
        invariant
            messages.deep_view() == action_messages(
                actions.deep_view(),
                i as nat,
                ctx.deep_view(),
                shared.deep_view(),
                agent_id@,
                agent_name@,
            ),
            defer == session_started(actions.deep_view(), i as int, agent_id@, agent_name@),
    {
        let action = &actions[i];
        let ghost before = messages.deep_view();
        let ghost defer0 = defer;
        let ghost all = actions.deep_view();
        proof {
            assert(all[i as int] == action.deep_view());
            reveal_strlit("message");
            reveal_strlit("control");
            assert("message"@[0] != "control"@[0]);
        }
        if is_action_for_agent(action, agent_id, agent_name) {
            match read_action(action, i, ctx, &shared, defer) {
                Some(message) => {
                    let starts = match &message.tool {
                        Some(WeaveTool::NewSession) => true,
                        _ => false,
                    };
                    if starts {
                        defer = true;
                    }
                    proof {
                        assert(starts == starts_session(all[i as int], agent_id@, agent_name@));
                    }
                    let ghost view = message.deep_view();
                    messages.push(message);
                    proof {
                        assert(messages.deep_view() =~= before.push(view));
                    }
                },
                None => {
                    proof {
                        assert(!starts_session(all[i as int], agent_id@, agent_name@));
                    }
                },
            }
        }
        proof {
            let starts = starts_session(all[i as int], agent_id@, agent_name@);
            assert(defer == (defer0 || starts));
            assert(session_started(all, i + 1, agent_id@, agent_name@) == (defer0 || starts)) by {
                if defer0 {
                    let k = choose|k: int|
                        0 <= k < i && starts_session(#[trigger] all[k], agent_id@, agent_name@);
                    assert(starts_session(all[k], agent_id@, agent_name@));
                }
            }
        }
    }
    messages
}

/// The message that an `action.result` brings.
pub open spec fn result_message(
    payload: JsonView,
    ctx: IncomingMessageContext<Seq<char>, JsonView>,
) -> Option<WeaveIncomingMessage<Seq<char>, JsonView>> {
    let data = payload.object_field("data"@);
    match (
        payload.present_field("group_id"@),
        payload.present_field("action_id"@),
        payload.present_field("status"@),
        payload.natural_field("action_index"@),
    ) {
        (Some(group_id), Some(action_id), Some(status), Some(index)) => Some(
            WeaveIncomingMessage {
                action_group_id: Some(group_id),
                action_id: Some(action_id),
                action_index: Some(index as usize),
                action_result: Some(
                    WeaveActionResult {
                        group_id,
                        action_id,
                        action_index: index as usize,
                        status,
                        detail: payload.present_field("detail"@),
                        new_context_id: payload_present(data, "new_context_id"@),
                        new_task_id: payload_present(data, "new_task_id"@),
                    },
                ),
                ..plain_message(ctx)
            },
        ),
        _ => None,
    }
}

fn present_in_object(object: Option<&Json>, key: &str) -> (r: Option<String>)
    ensures
        r.deep_view() == payload_present(object.deep_view(), key@),
{
    match object {
        Some(object) => client::owned(object.get_present(key)),
        None => None,
    }
}

/// The message that an `action.result` brings.
pub fn build_action_result_message(
    payload: &Json,
    ctx: &IncomingMessageContext,
) -> (r: Option<WeaveIncomingMessage>)
    ensures
        r.deep_view() == result_message(payload.deep_view(), ctx.deep_view()),
{
    let data = payload.get_object("data");
    match (
        payload.get_present("group_id"),
        payload.get_present("action_id"),
        payload.get_present("status"),
        payload.get_natural("action_index"),
    ) {
        (Some(group_id), Some(action_id), Some(status), Some(index)) => {
            let mut r = new_message(ctx);
            r.action_group_id = Some(group_id.to_owned());
            r.action_id = Some(action_id.to_owned());
            r.action_index = Some(index as usize);
            r.action_result = Some(
                WeaveActionResult {
                    group_id: group_id.to_owned(),
                    action_id: action_id.to_owned(),
                    action_index: index as usize,
                    status: status.to_owned(),
                    detail: client::owned(payload.get_present("detail")),
                    new_context_id: present_in_object(data, "new_context_id"),
                    new_task_id: present_in_object(data, "new_task_id"),
                },
            );
            Some(r)
        },
        _ => None,
    }
}

/// A message about a task, before what it says of the task.
pub open spec fn task_message(
    payload: JsonView,
    ctx: IncomingMessageContext<Seq<char>, JsonView>,
    task_id: Seq<char>,
) -> WeaveIncomingMessage<Seq<char>, JsonView> {
    let conversation_id = payload.present_field("context_id"@);
    let conversation_owner = payload.present_field("owner_id"@);
    let parent_message_id = payload.present_field("parent_message_id"@);
    WeaveIncomingMessage {
        src_name: None,
        conversation_id: or_else(conversation_id, ctx.message_id),
        conversation_owner: or_else(conversation_owner, ctx.src),
        parent_message_id,
        task_id: Some(task_id),
        has_conversation_metadata: conversation_id is Some || conversation_owner is Some
            || parent_message_id is Some,
        ..plain_message(ctx)
    }
}

fn new_task_message(
    payload: &Json,
    ctx: &IncomingMessageContext,
    task_id: &str,
) -> (r: WeaveIncomingMessage)
    ensures
        r.deep_view() == task_message(payload.deep_view(), ctx.deep_view(), task_id@),
{
    let conversation_id = client::owned(payload.get_present("context_id"));
    let conversation_owner = client::owned(payload.get_present("owner_id"));
    let parent_message_id = client::owned(payload.get_present("parent_message_id"));
    let mut r = new_message(ctx);
    r.src_name = None;
    r.has_conversation_metadata = conversation_id.is_some() || conversation_owner.is_some()
        || parent_message_id.is_some();
    r.conversation_id = string_or(conversation_id, &ctx.message_id);
    r.conversation_owner = string_or(conversation_owner, &ctx.src);
    r.parent_message_id = parent_message_id;
    r.task_id = Some(task_id.to_owned());
    r
}

/// The message that a `task.updated` brings.
pub open spec fn update_message(
    payload: JsonView,
    ctx: IncomingMessageContext<Seq<char>, JsonView>,
) -> Option<WeaveIncomingMessage<Seq<char>, JsonView>> {
    match (payload.present_field("task_id"@), payload.present_field("status"@)) {
        (Some(task_id), Some(status)) => Some(
            WeaveIncomingMessage {
                task_update: Some(WeaveTaskUpdate { task_id, status }),
                ..task_message(payload, ctx, task_id)
            },
        ),
        _ => None,
    }
}

/// The message that a `task.updated` brings.
pub fn build_task_update_message(
    payload: &Json,
    ctx: &IncomingMessageContext,
) -> (r: Option<WeaveIncomingMessage>)
    ensures
        r.deep_view() == update_message(payload.deep_view(), ctx.deep_view()),
{
    match (payload.get_present("task_id"), payload.get_present("status")) {
        (Some(task_id), Some(status)) => {
            let mut r = new_task_message(payload, ctx, task_id);
            r.task_update = Some(
                WeaveTaskUpdate { task_id: task_id.to_owned(), status: status.to_owned() },
            );
            Some(r)
        },
        _ => None,
    }
}

/// The message that a `task.done` brings.
pub open spec fn done_message(
    payload: JsonView,
    ctx: IncomingMessageContext<Seq<char>, JsonView>,
) -> Option<WeaveIncomingMessage<Seq<char>, JsonView>> {
    match payload.present_field("task_id"@) {
        Some(task_id) => Some(
            WeaveIncomingMessage {
                task_done: Some(
                    WeaveTaskDone { task_id, summary: payload.present_field("summary"@) },
                ),
                ..task_message(payload, ctx, task_id)
            },
        ),
        None => None,
    }
}

/// The message that a `task.done` brings.
pub fn build_task_done_message(
    payload: &Json,
    ctx: &IncomingMessageContext,
) -> (r: Option<WeaveIncomingMessage>)
    ensures
        r.deep_view() == done_message(payload.deep_view(), ctx.deep_view()),
{
    match payload.get_present("task_id") {
        Some(task_id) => {
            let mut r = new_task_message(payload, ctx, task_id);
            r.task_done = Some(
                WeaveTaskDone {
                    task_id: task_id.to_owned(),
                    summary: client::owned(payload.get_present("summary")),
                },
            );
            Some(r)
        },
        None => None,
    }
}

/// What the messages of an envelope have in common.
pub open spec fn context_of(
    envelope: WeaveEnvelope<Seq<char>, JsonView>,
    session_id: Seq<char>,
) -> IncomingMessageContext<Seq<char>, JsonView> {
    IncomingMessageContext {
        session_id,
        message_id: envelope.id,
        src: envelope.src,
        src_name: origin_name(envelope.meta),
        meta: envelope.meta,
    }
}

/// One message, or none.
pub open spec fn as_list<T>(message: Option<T>) -> Seq<T> {
    match message {
        Some(message) => seq![message],
        None => seq![],
    }
}

/// The messages that an envelope brings to the agent. What the agent sent
/// itself, and what belongs to no session, brings none.
pub open spec fn incoming(
    envelope: WeaveEnvelope<Seq<char>, JsonView>,
    agent_id: Seq<char>,
    agent_name: Seq<char>,
) -> Seq<WeaveIncomingMessage<Seq<char>, JsonView>> {
    if names(envelope.src, agent_id, agent_name) {
        seq![]
    } else {
        match envelope.session {
            None => seq![],
            Some(session_id) => {
                let ctx = context_of(envelope, session_id);
                if envelope.message_type == "action.submit"@ {
                    match envelope.payload {
                        Some(payload) => dispatched(payload, ctx, agent_id, agent_name),
                        None => seq![],
                    }
                } else if !is_for_agent(envelope, agent_id, agent_name) {
                    seq![]
                } else if envelope.message_type == "message.created"@ || envelope.message_type
                    == "message.send"@ {
                    as_list(sent_message(envelope, ctx))
                } else {
                    match envelope.payload {
                        Some(payload) => if envelope.message_type == "action.result"@ {
                            as_list(result_message(payload, ctx))
                        } else if envelope.message_type == "task.updated"@ {
                            as_list(update_message(payload, ctx))
                        } else if envelope.message_type == "task.done"@ {
                            as_list(done_message(payload, ctx))
                        } else {
                            seq![]
                        },
                        None => seq![],
                    }
                }
            },
        }
    }
}

fn one_or_none(message: Option<WeaveIncomingMessage>) -> (r: Vec<WeaveIncomingMessage>)
    ensures
        r.deep_view() == as_list(message.deep_view()),
{
    let mut r: Vec<WeaveIncomingMessage> = Vec::new();
    let ghost view = message.deep_view();
    match message {
        Some(message) => r.push(message),
        None => {},
    }
    proof {
        assert(r.deep_view() =~= as_list(view));
    }
    r
}

/// The messages that an envelope brings to the agent.
pub fn build_incoming_messages(
    envelope: &WeaveEnvelope,
    agent_id: &str,
    agent_name: &str,
) -> (r: Vec<WeaveIncomingMessage>)
    ensures
        r.deep_view() == incoming(envelope.deep_view(), agent_id@, agent_name@),
{
    let none: Option<WeaveIncomingMessage> = None;
    if is_named(envelope.src.as_str(), agent_id, agent_name) {
        return one_or_none(none);
    }
    let session_id = match &envelope.session {
        Some(session_id) => session_id.clone(),
        None => return one_or_none(none),
    };
    let ctx = IncomingMessageContext {
        session_id,
        message_id: envelope.id.clone(),
        src: envelope.src.clone(),
        src_name: meta_origin_src_name(&envelope.meta),
        meta: json::copy_option(&envelope.meta),
    };
    let name = envelope.message_type.as_str();
    if text::same(name, "action.submit") {
        return match &envelope.payload {
            Some(payload) => build_action_dispatch_messages(payload, &ctx, agent_id, agent_name),
            None => one_or_none(none),
        };
    }
    if !is_direct_message_for_agent(envelope, agent_id, agent_name) {
        return one_or_none(none);
    }
    if text::same(name, "message.created") || text::same(name, "message.send") {
        return one_or_none(build_message_payload_message(envelope, &ctx));
    }
    match &envelope.payload {
        Some(payload) => if text::same(name, "action.result") {
            one_or_none(build_action_result_message(payload, &ctx))
        } else if text::same(name, "task.updated") {
            one_or_none(build_task_update_message(payload, &ctx))
        } else if text::same(name, "task.done") {
            one_or_none(build_task_done_message(payload, &ctx))
        } else {
            one_or_none(none)
        },
        None => one_or_none(none),
    }
}

// ---------------------------------------------------------------------------
// Laws
// ---------------------------------------------------------------------------

/// What an agent sent under its id or its name brings it nothing, and it owes
/// itself no acknowledgement.
pub proof fn law_own_messages_are_ignored(
    envelope: WeaveEnvelope<Seq<char>, JsonView>,
    agent_id: Seq<char>,
    agent_name: Seq<char>,
)
    requires
        envelope.src == agent_id || envelope.src == agent_name,
    ensures
        incoming(envelope, agent_id, agent_name) == Seq::<
            WeaveIncomingMessage<Seq<char>, JsonView>,
        >::empty(),
        !owes_ack(envelope, agent_id, agent_name),
{
}

/// Whether `message` carries the ids, the sender and the notes of `ctx`.
pub open spec fn stems_from(
    message: WeaveIncomingMessage<Seq<char>, JsonView>,
    ctx: IncomingMessageContext<Seq<char>, JsonView>,
) -> bool {
    &&& message.session_id == ctx.session_id
    &&& message.message_id == ctx.message_id
    &&& message.src == ctx.src
    &&& message.meta == ctx.meta
}

proof fn lemma_actions_stem(
    actions: Seq<JsonView>,
    n: nat,
    ctx: IncomingMessageContext<Seq<char>, JsonView>,
    shared: ActionContext<Seq<char>>,
    agent_id: Seq<char>,
    agent_name: Seq<char>,
)
    ensures
        forall|i: int|
            0 <= i < action_messages(actions, n, ctx, shared, agent_id, agent_name).len()
                ==> stems_from(
                #[trigger] action_messages(actions, n, ctx, shared, agent_id, agent_name)[i],
                ctx,
            ),
    decreases n,
{
    if n > 0 {
        let k = (n - 1) as nat;
        lemma_actions_stem(actions, k, ctx, shared, agent_id, agent_name);
        let before = action_messages(actions, k, ctx, shared, agent_id, agent_name);
        let all = action_messages(actions, n, ctx, shared, agent_id, agent_name);
        assert forall|i: int| 0 <= i < all.len() implies stems_from(#[trigger] all[i], ctx) by {
            if i < before.len() {
                assert(all[i] == before[i]);
            }
        }
    }
}

/// Every message that an envelope brings carries the envelope's session, id,
/// sender and notes, and the sender is another agent.
pub proof fn law_messages_stem_from_their_envelope(
    envelope: WeaveEnvelope<Seq<char>, JsonView>,
    agent_id: Seq<char>,
    agent_name: Seq<char>,
    i: int,
)
    requires
        0 <= i < incoming(envelope, agent_id, agent_name).len(),
    ensures
        ({
            let message = incoming(envelope, agent_id, agent_name)[i];
            &&& envelope.session == Some(message.session_id)
            &&& message.message_id == envelope.id
            &&& message.src == envelope.src
            &&& message.meta == envelope.meta
            &&& !names(message.src, agent_id, agent_name)
        }),
{
    let ctx = context_of(envelope, envelope.session->0);
    if envelope.message_type == "action.submit"@ {
        let payload = envelope.payload->0;
        let actions = payload.array_field("actions"@)->0;
        lemma_actions_stem(
            actions,
            actions.len(),
            ctx,
            action_context(payload, ctx),
            agent_id,
            agent_name,
        );
    }
}

/// A message behind an action that starts a new session waits for it: of what
/// the later actions bring, each is a control action or is put off.
pub proof fn law_messages_wait_for_a_new_session(
    actions: Seq<JsonView>,
    k: nat,
    n: nat,
    ctx: IncomingMessageContext<Seq<char>, JsonView>,
    shared: ActionContext<Seq<char>>,
    agent_id: Seq<char>,
    agent_name: Seq<char>,
)
    requires
        k < n <= actions.len(),
        starts_session(actions[k as int], agent_id, agent_name),
    ensures
        ({
            let early = action_messages(actions, k + 1, ctx, shared, agent_id, agent_name);
            let all = action_messages(actions, n, ctx, shared, agent_id, agent_name);
            &&& early.is_prefix_of(all)
            &&& forall|i: int|
                early.len() <= i < all.len() ==> (#[trigger] all[i]).tool is Some
                    || all[i].defer_until_ready
        }),
    decreases n,
{
    if k + 1 < n {
        law_messages_wait_for_a_new_session(
            actions,
            k,
            (n - 1) as nat,
            ctx,
            shared,
            agent_id,
            agent_name,
        );
        assert(session_started(actions, n - 1, agent_id, agent_name));
        let early = action_messages(actions, k + 1, ctx, shared, agent_id, agent_name);
        let most = action_messages(actions, (n - 1) as nat, ctx, shared, agent_id, agent_name);
        let all = action_messages(actions, n, ctx, shared, agent_id, agent_name);
        assert(all.take(early.len() as int) =~= most.take(early.len() as int));
        assert(most.take(early.len() as int) =~= early);
    }
}

/// No message is put off where no action starts a new session.
pub proof fn law_nothing_waits_without_a_new_session(
    actions: Seq<JsonView>,
    n: nat,
    ctx: IncomingMessageContext<Seq<char>, JsonView>,
    shared: ActionContext<Seq<char>>,
    agent_id: Seq<char>,
    agent_name: Seq<char>,
)
    requires
        n <= actions.len(),
        forall|k: int|
            0 <= k < n ==> !starts_session(#[trigger] actions[k], agent_id, agent_name),
    ensures
        forall|i: int|
            0 <= i < action_messages(actions, n, ctx, shared, agent_id, agent_name).len()
                ==> !(#[trigger] action_messages(
                actions,
                n,
                ctx,
                shared,
                agent_id,
                agent_name,
            )[i]).defer_until_ready,
    decreases n,
{
    if n > 0 {
        law_nothing_waits_without_a_new_session(
            actions,
            (n - 1) as nat,
            ctx,
            shared,
            agent_id,
            agent_name,
        );
    }
}

/// The inbox of an agent is named after it.
pub proof fn law_an_inbox_is_named_after_its_owner(owner: Seq<char>)
    requires
        forall|i: int| 0 <= i < owner.len() ==> #[trigger] owner[i] != '.',
    ensures
        inbox_owner("agent."@ + owner + ".inbox"@) == Some(owner),
{
    reveal_strlit("agent.");
    reveal_strlit(".inbox");
    reveal_strlit("agent");
    reveal_strlit("inbox");
    let parts = seq!["agent"@, owner, "inbox"@];
    let topic = "agent."@ + owner + ".inbox"@;
    assert("agent"@[0] == 'a' && "agent"@[1] == 'g' && "agent"@[2] == 'e' && "agent"@[3] == 'n'
        && "agent"@[4] == 't');
    assert("inbox"@[0] == 'i' && "inbox"@[1] == 'n' && "inbox"@[2] == 'b' && "inbox"@[3] == 'o'
        && "inbox"@[4] == 'x');
    assert forall|i: int, j: int| 0 <= i < parts.len() && 0 <= j < parts[i].len() implies
        #[trigger] parts[i][j] != '.' by {
        if i == 1 {
            assert(owner[j] != '.');
        }
    }
    text::law_cutting_undoes_joining(parts, '.');
    assert(parts.drop_last() =~= seq!["agent"@, owner]);
    assert(parts.drop_last().drop_last() =~= seq!["agent"@]);
    assert(text::joined(seq!["agent"@], seq!['.']) == "agent"@);
    assert(text::joined(seq!["agent"@, owner], seq!['.']) =~= "agent"@ + seq!['.'] + owner);
    assert("agent."@ =~= "agent"@ + seq!['.']);
    assert(".inbox"@ =~= seq!['.'] + "inbox"@);
    assert(text::joined(parts, seq!['.']) =~= topic);
}

/// An envelope is for the agent that it names, for the one whose inbox it goes to, or for
/// all where it names nobody.
pub proof fn law_an_envelope_is_for_whom_it_names(
    envelope: WeaveEnvelope<Seq<char>, JsonView>,
    agent_id: Seq<char>,
    agent_name: Seq<char>,
)
    ensures
        envelope.dst == Some(agent_id) || envelope.dst == Some(agent_name) ==> is_for_agent(
            envelope,
            agent_id,
            agent_name,
        ),
        envelope.dst matches Some(dst) ==> dst != agent_id && dst != agent_name ==> !is_for_agent(
            envelope,
            agent_id,
            agent_name,
        ),
        envelope.dst is None && envelope.topic is None ==> is_for_agent(
            envelope,
            agent_id,
            agent_name,
        ),
        envelope.dst is None && envelope.topic == Some("agent."@ + agent_id + ".inbox"@) && (forall|
            i: int,
        | 0 <= i < agent_id.len() ==> #[trigger] agent_id[i] != '.') ==> is_for_agent(
            envelope,
            agent_id,
            agent_name,
        ),
{
    if forall|i: int| 0 <= i < agent_id.len() ==> #[trigger] agent_id[i] != '.' {
        law_an_inbox_is_named_after_its_owner(agent_id);
    }
}

/// A message that was sent to this agent arrives once, with its text and from its sender.
pub proof fn law_a_sent_message_arrives(
    envelope: WeaveEnvelope<Seq<char>, JsonView>,
    payload: JsonView,
    message: Seq<char>,
    agent_id: Seq<char>,
    agent_name: Seq<char>,
)
    requires
        envelope.message_type == "message.send"@ || envelope.message_type == "message.created"@,
        envelope.session is Some,
        envelope.src != agent_id,
        envelope.src != agent_name,
        envelope.dst == Some(agent_id),
        envelope.payload == Some(payload),
        payload == JsonView::Text(message) || payload.text_field("text"@) == Some(message),
    ensures
        ({
            let messages = incoming(envelope, agent_id, agent_name);
            &&& messages.len() == 1
            &&& messages[0].text == message
            &&& messages[0].src == envelope.src
            &&& Some(messages[0].session_id) == envelope.session
            &&& messages[0].message_id == envelope.id
            &&& messages[0].tool is None
            &&& messages[0].action_result is None
            &&& payload.text_field("kind"@) == Some("reply"@) ==> messages[0].kind
                == WeaveMessageKind::Reply
            &&& payload.text_field("kind"@) is None ==> messages[0].kind == WeaveMessageKind::User
            &&& messages[0].task_id == text::present(payload.text_field("task_id"@))
            &&& messages[0].reply_to_action_id == text::present(
                payload.text_field("reply_to_action_id"@),
            )
            &&& messages[0].conversation_id == (match text::present(
                payload.text_field("context_id"@),
            ) {
                Some(id) => id,
                None => envelope.id,
            })
            &&& messages[0].conversation_owner == (match text::present(
                payload.text_field("owner_id"@),
            ) {
                Some(id) => id,
                None => envelope.src,
            })
        }),
{
    reveal_strlit("message.send");
    reveal_strlit("message.created");
    reveal_strlit("action.submit");
    assert("message.send"@.len() == 12 && "message.created"@.len() == 15
        && "action.submit"@.len() == 13);
}

/// A message that arrives is acknowledged where its sender asks for that, and only if it
/// was sent to this agent by another one.
pub proof fn law_a_message_is_acknowledged_where_asked(
    envelope: WeaveEnvelope<Seq<char>, JsonView>,
    agent_id: Seq<char>,
    agent_name: Seq<char>,
)
    ensures
        envelope.src == agent_id || envelope.src == agent_name ==> !owes_ack(
            envelope,
            agent_id,
            agent_name,
        ),
        envelope.ack is None ==> !owes_ack(envelope, agent_id, agent_name),
        envelope.message_type != "message.send"@ ==> !owes_ack(envelope, agent_id, agent_name),
        envelope.message_type == "message.send"@ && envelope.src != agent_id && envelope.src
            != agent_name && envelope.dst == Some(agent_id) && envelope.ack is Some
            && envelope.ack->0.mode == Some("auto"@) ==> owes_ack(envelope, agent_id, agent_name),
        envelope.corr matches Some(corr) ==> ack_corr(envelope) == corr,
        envelope.corr is None ==> ack_corr(envelope) == envelope.id,
{
}

proof fn lemma_actions_before(
    actions: Seq<JsonView>,
    next: JsonView,
    n: nat,
    ctx: IncomingMessageContext<Seq<char>, JsonView>,
    shared: ActionContext<Seq<char>>,
    agent_id: Seq<char>,
    agent_name: Seq<char>,
)
    requires
        n <= actions.len(),
    ensures
        action_messages(actions.push(next), n, ctx, shared, agent_id, agent_name)
            == action_messages(actions, n, ctx, shared, agent_id, agent_name),
        session_started(actions.push(next), n as int, agent_id, agent_name) == session_started(
            actions,
            n as int,
            agent_id,
            agent_name,
        ),
    decreases n,
{
    let all = actions.push(next);
    assert forall|m: int| 0 <= m <= n implies session_started(all, m, agent_id, agent_name)
        == session_started(actions, m, agent_id, agent_name) by {
        if session_started(all, m, agent_id, agent_name) {
            let k = choose|k: int|
                0 <= k < m && starts_session(#[trigger] all[k], agent_id, agent_name);
            assert(actions[k] == all[k]);
        }
        if session_started(actions, m, agent_id, agent_name) {
            let k = choose|k: int|
                0 <= k < m && starts_session(#[trigger] actions[k], agent_id, agent_name);
            assert(all[k] == actions[k]);
        }
    }
    if n > 0 {
        lemma_actions_before(actions, next, (n - 1) as nat, ctx, shared, agent_id, agent_name);
        assert(all[n - 1] == actions[n - 1]);
    }
}

/// Each action for this agent arrives, behind those before it: a message with its text, a
/// command with its tool, each with its own id and in its group. An action for somebody
/// else does not.
pub proof fn law_each_action_for_this_agent_arrives(
    actions: Seq<JsonView>,
    next: JsonView,
    ctx: IncomingMessageContext<Seq<char>, JsonView>,
    shared: ActionContext<Seq<char>>,
    agent_id: Seq<char>,
    agent_name: Seq<char>,
)
    requires
        actions.len() < usize::MAX,
    ensures
        ({
            let before = action_messages(
                actions,
                actions.len(),
                ctx,
                shared,
                agent_id,
                agent_name,
            );
            let after = action_messages(
                actions.push(next),
                actions.len() + 1,
                ctx,
                shared,
                agent_id,
                agent_name,
            );
            let dst = text::present(next.text_field("dst"@));
            let mine = dst == Some(agent_id) || dst == Some(agent_name);
            &&& !mine ==> after == before
            &&& mine && next.text_field("type"@) == Some("message"@) && next.text_field(
                "text"@,
            ) is Some ==> {
                &&& after.len() == before.len() + 1
                &&& after.drop_last() == before
                &&& Some(after.last().text) == next.text_field("text"@)
                &&& after.last().tool is None
                &&& after.last().src == ctx.src
                &&& after.last().action_id == text::present(next.text_field("action_id"@))
                &&& after.last().action_group_id == Some(shared.group_id)
                &&& after.last().conversation_id == shared.conversation_id
                &&& after.last().reply_to_action_id == text::present(
                    next.text_field("reply_to_action_id"@),
                )
            }
            &&& mine && next.text_field("type"@) == Some("control"@) && next.text_field(
                "command"@,
            ) == Some("compact"@) ==> after.len() == before.len() + 1 && after.drop_last()
                == before && after.last().tool == Some(WeaveTool::<Seq<char>>::Compact)
                && after.last().action_id == text::present(next.text_field("action_id"@))
            &&& mine && next.text_field("type"@) == Some("control"@) && next.text_field(
                "command"@,
            ) == Some("interrupt"@) ==> after.len() == before.len() + 1 && after.drop_last()
                == before && after.last().tool == Some(WeaveTool::<Seq<char>>::Interrupt)
            &&& mine && next.text_field("type"@) == Some("control"@) && next.text_field(
                "command"@,
            ) == Some("new"@) ==> after.len() == before.len() + 1 && after.drop_last() == before
                && after.last().tool == Some(WeaveTool::<Seq<char>>::NewSession)
        }),
{
    lemma_actions_before(
        actions,
        next,
        actions.len(),
        ctx,
        shared,
        agent_id,
        agent_name,
    );
    assert(actions.push(next)[actions.len() as int] == next);
    lemma_plain_words();
    let before = action_messages(actions, actions.len(), ctx, shared, agent_id, agent_name);
    let after = action_messages(
        actions.push(next),
        actions.len() + 1,
        ctx,
        shared,
        agent_id,
        agent_name,
    );
    if after.len() == before.len() + 1 {
        assert(after.drop_last() =~= before);
    }
}

proof fn lemma_plain_words()
    ensures
        text::trimmed("message"@) == "message"@,
        text::trimmed("control"@) == "control"@,
        "message"@ != "control"@,
        text::present(Some("compact"@)) == Some("compact"@),
        text::present(Some("interrupt"@)) == Some("interrupt"@),
        text::present(Some("new"@)) == Some("new"@),
        client::tool_named("compact"@, None) == Some(WeaveTool::<Seq<char>>::Compact),
        client::tool_named("interrupt"@, None) == Some(WeaveTool::<Seq<char>>::Interrupt),
        client::tool_named("new"@, None) == Some(WeaveTool::<Seq<char>>::NewSession),
        forall|args: Option<Seq<char>>| #[trigger]
            client::tool_named("compact"@, args) == Some(WeaveTool::<Seq<char>>::Compact),
        forall|args: Option<Seq<char>>| #[trigger]
            client::tool_named("interrupt"@, args) == Some(WeaveTool::<Seq<char>>::Interrupt),
        forall|args: Option<Seq<char>>| #[trigger]
            client::tool_named("new"@, args) == Some(WeaveTool::<Seq<char>>::NewSession),
{
    reveal_strlit("message");
    reveal_strlit("control");
    reveal_strlit("compact");
    reveal_strlit("interrupt");
    reveal_strlit("new");
    reveal_strlit("new_session");
    reveal_strlit("review");
    text::lemma_tight("message"@);
    text::lemma_tight("control"@);
    text::lemma_tight("compact"@);
    text::lemma_tight("interrupt"@);
    text::lemma_tight("new"@);
    assert("message"@[0] == 'm' && "control"@[0] == 'c');
    assert("new"@.len() == 3 && "new_session"@.len() == 11 && "compact"@.len() == 7
        && "interrupt"@.len() == 9 && "review"@.len() == 6);
    assert(text::ascii_lower("compact"@) =~= "compact"@);
    assert(text::ascii_lower("interrupt"@) =~= "interrupt"@);
    assert(text::ascii_lower("new"@) =~= "new"@);
}

/// News of a task and its end are read with the id of the task; without one they are not
/// read at all.
pub proof fn law_news_of_a_task_is_read(
    payload: JsonView,
    ctx: IncomingMessageContext<Seq<char>, JsonView>,
)
    ensures
        ({
            let task_id = text::present(payload.text_field("task_id"@));
            let status = text::present(payload.text_field("status"@));
            let summary = text::present(payload.text_field("summary"@));
            &&& task_id is None ==> update_message(payload, ctx) is None && done_message(
                payload,
                ctx,
            ) is None
            &&& status is None ==> update_message(payload, ctx) is None
            &&& task_id matches Some(id) ==> {
                &&& done_message(payload, ctx) matches Some(message)
                &&& message.task_done == Some(WeaveTaskDone { task_id: id, summary })
                &&& message.src == ctx.src
                &&& message.task_update is None
            }
            &&& task_id is Some && status is Some ==> {
                &&& update_message(payload, ctx) matches Some(message)
                &&& message.task_update == Some(
                    WeaveTaskUpdate { task_id: task_id->0, status: status->0 },
                )
                &&& message.src == ctx.src
                &&& message.task_done is None
            }
        }),
{
}

/// The kind of a message is the one that it names, and what names none is of the user.
pub proof fn law_a_message_is_of_the_kind_it_names(kind: Seq<char>)
    ensures
        kind_named(kind) == WeaveMessageKind::Reply <==> kind == "reply"@,
        kind_named(kind) == WeaveMessageKind::Control <==> kind == "control"@,
        kind_in(None) == WeaveMessageKind::User,
{
    reveal_strlit("reply");
    reveal_strlit("control");
    assert("reply"@.len() == 5 && "control"@.len() == 7);
}

/// The text of a message is its payload, or the text in it; one that came without is known
/// by where it is kept.
pub proof fn law_the_text_of_a_message_is_found(
    envelope: WeaveEnvelope<Seq<char>, JsonView>,
    said: Seq<char>,
    place: Seq<char>,
)
    ensures
        envelope.payload == Some(JsonView::Text(said)) ==> message_text(envelope) == Some(said),
        envelope.payload is Some && envelope.payload->0 is Object
            && envelope.payload->0.text_field("text"@) == Some(said) ==> message_text(envelope)
            == Some(said),
        envelope.payload is None && envelope.payload_ref == Some(place) ==> message_text(envelope)
            == Some("[payload_ref: "@ + place + "]"@),
        envelope.payload is None && envelope.payload_ref is None ==> message_text(envelope) is None,
{
}

} // verus!

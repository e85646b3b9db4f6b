//! What one agent writes, another one reads.

use vstd::prelude::*;

use crate::chat::sending;
use crate::chat::steps;
use crate::client;
use crate::client::{
    WeaveActionResult, WeaveIncomingMessage, WeaveMessageKind, WeaveMessageMetadata, WeaveTool,
};
use crate::envelope;
use crate::envelope::WeaveEnvelope;
use crate::incoming;
use crate::json;
use crate::json::JsonView;
use crate::text;

verus! {

// ---------------------------------------------------------------------------
// Texts
// ---------------------------------------------------------------------------

proof fn lemma_present_twice(s: Option<Seq<char>>)
    ensures
        text::present(text::present(s)) == text::present(s),
{
    if let Some(s) = s {
        text::law_trimming_twice_is_trimming_once(s);
    }
}

// ---------------------------------------------------------------------------
// Fields
// ---------------------------------------------------------------------------

proof fn lemma_field_pushed(
    fields: Seq<(Seq<char>, JsonView)>,
    key: Seq<char>,
    value: JsonView,
    wanted: Seq<char>,
)
    ensures
        json::field_among(fields.push((key, value)), wanted) == (match json::field_among(
            fields,
            wanted,
        ) {
            Some(found) => Some(found),
            None => if key == wanted {
                Some(value)
            } else {
                None
            },
        }),
    decreases fields.len(),
{
    let all = fields.push((key, value));
    if fields.len() == 0 {
        let none: Seq<(Seq<char>, JsonView)> = seq![];
        assert(all.subrange(1, all.len() as int) =~= none);
        assert(json::field_among(none, wanted) is None);
        assert(all[0] == (key, value));
    } else {
        let rest = fields.subrange(1, fields.len() as int);
        assert(all.subrange(1, all.len() as int) =~= rest.push((key, value)));
        assert(all[0] == fields[0]);
        lemma_field_pushed(rest, key, value, wanted);
    }
}

proof fn lemma_field_optional(
    fields: Seq<(Seq<char>, JsonView)>,
    key: Seq<char>,
    value: Option<Seq<char>>,
    wanted: Seq<char>,
)
    ensures
        json::field_among(json::with_option(fields, key, value), wanted) == (
        match json::field_among(fields, wanted) {
            Some(found) => Some(found),
            None => match value {
                Some(value) => if key == wanted {
                    Some(JsonView::Text(value))
                } else {
                    None
                },
                None => None,
            },
        }),
{
    if let Some(value) = value {
        lemma_field_pushed(fields, key, JsonView::Text(value), wanted);
    }
}

proof fn lemma_two_fields(
    first: (Seq<char>, JsonView),
    second: (Seq<char>, JsonView),
    wanted: Seq<char>,
)
    ensures
        json::field_among(seq![first, second], wanted) == (if first.0 == wanted {
            Some(first.1)
        } else if second.0 == wanted {
            Some(second.1)
        } else {
            None
        }),
{
    let none: Seq<(Seq<char>, JsonView)> = seq![];
    lemma_field_pushed(none, first.0, first.1, wanted);
    lemma_field_pushed(none.push(first), second.0, second.1, wanted);
    assert(seq![first, second] =~= none.push(first).push(second));
}

// ---------------------------------------------------------------------------
// A message
// ---------------------------------------------------------------------------

proof fn lemma_message_field(
    dst: Seq<char>,
    message: Seq<char>,
    action_id: Seq<char>,
    action_index: nat,
    reply_to: Option<Seq<char>>,
    kind: WeaveMessageKind,
    policy: Option<Seq<char>>,
    wanted: Seq<char>,
)
    ensures
        envelope::message_action(
            dst,
            message,
            action_id,
            action_index,
            reply_to,
            Some(kind),
            policy,
        ).field(wanted) == (if wanted == "type"@ {
            Some(JsonView::Text("message"@))
        } else if wanted == "dst"@ {
            Some(JsonView::Text(dst))
        } else if wanted == "reply_to_action_id"@ && text::present(reply_to) is Some {
            Some(JsonView::Text(text::present(reply_to)->0))
        } else if wanted == "kind"@ {
            Some(JsonView::Text(envelope::kind_name(kind)))
        } else if wanted == "reply_policy"@ && text::present(policy) is Some {
            Some(JsonView::Text(text::present(policy)->0))
        } else if wanted == "text"@ {
            Some(JsonView::Text(message))
        } else if wanted == "action_id"@ {
            Some(JsonView::Text(action_id))
        } else if wanted == "action_index"@ {
            Some(envelope::natural(action_index))
        } else {
            None
        }),
{
    let head = seq![("type"@, JsonView::Text("message"@)), ("dst"@, JsonView::Text(dst))];
    lemma_two_fields(head[0], head[1], wanted);
    let second = json::with_option(head, "reply_to_action_id"@, text::present(reply_to));
    lemma_field_optional(head, "reply_to_action_id"@, text::present(reply_to), wanted);
    let name = JsonView::Text(envelope::kind_name(kind));
    let third = second.push(("kind"@, name));
    lemma_field_pushed(second, "kind"@, name, wanted);
    let fourth = json::with_option(third, "reply_policy"@, text::present(policy));
    lemma_field_optional(third, "reply_policy"@, text::present(policy), wanted);
    let fifth = fourth.push(("text"@, JsonView::Text(message)));
    lemma_field_pushed(fourth, "text"@, JsonView::Text(message), wanted);
    let sixth = fifth.push(("action_id"@, JsonView::Text(action_id)));
    lemma_field_pushed(fifth, "action_id"@, JsonView::Text(action_id), wanted);
    lemma_field_pushed(sixth, "action_index"@, envelope::natural(action_index), wanted);
}

proof fn lemma_names_of_message_fields()
    ensures
        "type"@ != "dst"@,
        "reply_to_action_id"@ != "type"@,
        "reply_to_action_id"@ != "dst"@,
        "reply_to_action_id"@ != "kind"@,
        "reply_to_action_id"@ != "reply_policy"@,
        "reply_to_action_id"@ != "text"@,
        "reply_to_action_id"@ != "action_id"@,
        "reply_to_action_id"@ != "action_index"@,
        "kind"@ != "type"@,
        "kind"@ != "dst"@,
        "text"@ != "type"@,
        "text"@ != "dst"@,
        "text"@ != "kind"@,
        "text"@ != "reply_policy"@,
        "action_id"@ != "type"@,
        "action_id"@ != "dst"@,
        "action_id"@ != "kind"@,
        "action_id"@ != "reply_policy"@,
        "action_id"@ != "text"@,
        "action_index"@ != "type"@,
        "action_index"@ != "dst"@,
        "action_index"@ != "kind"@,
        "action_index"@ != "reply_policy"@,
        "action_index"@ != "text"@,
        "action_index"@ != "action_id"@,
        "message"@ != "control"@,
        text::trimmed("message"@) == "message"@,
        text::present(Some("reply"@)) == Some("reply"@),
{
    reveal_strlit("type");
    reveal_strlit("dst");
    reveal_strlit("reply_to_action_id");
    reveal_strlit("kind");
    reveal_strlit("reply_policy");
    reveal_strlit("text");
    reveal_strlit("action_id");
    reveal_strlit("action_index");
    reveal_strlit("message");
    reveal_strlit("control");
    reveal_strlit("reply");
    assert("type"@.len() != "dst"@.len());
    assert("reply_to_action_id"@.len() != "type"@.len());
    assert("reply_to_action_id"@.len() != "dst"@.len());
    assert("reply_to_action_id"@.len() != "kind"@.len());
    assert("reply_to_action_id"@.len() != "reply_policy"@.len());
    assert("reply_to_action_id"@.len() != "text"@.len());
    assert("reply_to_action_id"@.len() != "action_id"@.len());
    assert("reply_to_action_id"@.len() != "action_index"@.len());
    assert("kind"@[0] != "type"@[0]);
    assert("kind"@.len() != "dst"@.len());
    assert("text"@[1] != "type"@[1]);
    assert("text"@.len() != "dst"@.len());
    assert("text"@[0] != "kind"@[0]);
    assert("text"@.len() != "reply_policy"@.len());
    assert("action_id"@.len() != "type"@.len());
    assert("action_id"@.len() != "dst"@.len());
    assert("action_id"@.len() != "kind"@.len());
    assert("action_id"@.len() != "reply_policy"@.len());
    assert("action_id"@.len() != "text"@.len());
    assert("action_index"@.len() != "type"@.len());
    assert("action_index"@.len() != "dst"@.len());
    assert("action_index"@.len() != "kind"@.len());
    assert("action_index"@[0] != "reply_policy"@[0]);
    assert("action_index"@.len() != "text"@.len());
    assert("action_index"@.len() != "action_id"@.len());
    assert("message"@[0] != "control"@[0]);
    text::lemma_tight("message"@);
    text::lemma_tight("reply"@);
}

/// What is read of one message among the actions.
proof fn lemma_message_is_read(
    dst: Seq<char>,
    message: Seq<char>,
    action_id: Seq<char>,
    reply_to: Option<Seq<char>>,
    ctx: incoming::IncomingMessageContext<Seq<char>, JsonView>,
    shared: incoming::ActionContext<Seq<char>>,
)
    ensures
        ({
            let action = envelope::message_action(
                dst,
                message,
                action_id,
                0,
                reply_to,
                Some(WeaveMessageKind::Reply),
                Some("none"@),
            );
            &&& action.present_field("dst"@) == text::present(Some(dst))
            &&& incoming::action_message(action, 0, ctx, shared, false) == Some(
                WeaveIncomingMessage {
                    text: message,
                    kind: WeaveMessageKind::Reply,
                    conversation_id: shared.conversation_id,
                    conversation_owner: shared.conversation_owner,
                    parent_message_id: shared.parent_message_id,
                    task_id: shared.task_id,
                    action_group_id: Some(shared.group_id),
                    action_id: text::present(Some(action_id)),
                    action_index: Some(0),
                    reply_to_action_id: text::present(reply_to),
                    has_conversation_metadata: shared.has_conversation_metadata,
                    ..incoming::plain_message(ctx)
                },
            )
        }),
{
    lemma_names_of_message_fields();
    lemma_present_twice(reply_to);
    let kind = WeaveMessageKind::Reply;
    let none = Some("none"@);
    lemma_message_field(dst, message, action_id, 0, reply_to, kind, none, "dst"@);
    lemma_message_field(dst, message, action_id, 0, reply_to, kind, none, "type"@);
    lemma_message_field(dst, message, action_id, 0, reply_to, kind, none, "text"@);
    lemma_message_field(dst, message, action_id, 0, reply_to, kind, none, "kind"@);
    lemma_message_field(dst, message, action_id, 0, reply_to, kind, none, "action_id"@);
    lemma_message_field(dst, message, action_id, 0, reply_to, kind, none, "action_index"@);
    lemma_message_field(dst, message, action_id, 0, reply_to, kind, none, "reply_to_action_id"@);
}

// ---------------------------------------------------------------------------
// The conversation
// ---------------------------------------------------------------------------

proof fn lemma_names_of_context_fields()
    ensures
        "group_id"@ != "actions"@,
        "group_id"@ != "context"@,
        "group_id"@ != "task_id"@,
        "actions"@ != "context"@,
        "actions"@ != "task_id"@,
        "context"@ != "task_id"@,
        "context_id"@ != "owner_id"@,
        "context_id"@ != "parent_message_id"@,
        "owner_id"@ != "parent_message_id"@,
{
    reveal_strlit("group_id");
    reveal_strlit("actions");
    reveal_strlit("context");
    reveal_strlit("task_id");
    reveal_strlit("context_id");
    reveal_strlit("owner_id");
    reveal_strlit("parent_message_id");
    assert("group_id"@.len() != "actions"@.len());
    assert("group_id"@.len() != "context"@.len());
    assert("group_id"@.len() != "task_id"@.len());
    assert("actions"@[0] != "context"@[0]);
    assert("actions"@[0] != "task_id"@[0]);
    assert("context"@[0] != "task_id"@[0]);
    assert("context_id"@.len() != "owner_id"@.len());
    assert("context_id"@.len() != "parent_message_id"@.len());
    assert("owner_id"@.len() != "parent_message_id"@.len());
}

proof fn lemma_context_field(metadata: WeaveMessageMetadata<Seq<char>>, wanted: Seq<char>)
    ensures
        json::field_among(envelope::context_fields(metadata), wanted) == (if wanted
            == "context_id"@ && text::present(Some(metadata.conversation_id)) is Some {
            Some(JsonView::Text(text::present(Some(metadata.conversation_id))->0))
        } else if wanted == "owner_id"@ && text::present(
            Some(metadata.conversation_owner),
        ) is Some {
            Some(JsonView::Text(text::present(Some(metadata.conversation_owner))->0))
        } else if wanted == "parent_message_id"@ && text::present(
            metadata.parent_message_id,
        ) is Some {
            Some(JsonView::Text(text::present(metadata.parent_message_id)->0))
        } else {
            None
        }),
{
    lemma_names_of_context_fields();
    let none: Seq<(Seq<char>, JsonView)> = seq![];
    let id = text::present(Some(metadata.conversation_id));
    let owner = text::present(Some(metadata.conversation_owner));
    let first = json::with_option(none, "context_id"@, id);
    lemma_field_optional(none, "context_id"@, id, wanted);
    let second = json::with_option(first, "owner_id"@, owner);
    lemma_field_optional(first, "owner_id"@, owner, wanted);
    lemma_field_optional(
        second,
        "parent_message_id"@,
        text::present(metadata.parent_message_id),
        wanted,
    );
}

proof fn lemma_submit_field(
    group_id: Seq<char>,
    actions: Seq<JsonView>,
    metadata: WeaveMessageMetadata<Seq<char>>,
    wanted: Seq<char>,
)
    ensures
        envelope::submit_fields(group_id, actions, Some(metadata)).field(wanted) == (if wanted
            == "group_id"@ {
            Some(JsonView::Text(group_id))
        } else if wanted == "actions"@ {
            Some(JsonView::Array(actions))
        } else if wanted == "context"@ && envelope::context_fields(metadata).len() > 0 {
            Some(JsonView::Object(envelope::context_fields(metadata)))
        } else if wanted == "task_id"@ && text::present(metadata.task_id) is Some {
            Some(JsonView::Text(text::present(metadata.task_id)->0))
        } else {
            None
        }),
{
    lemma_names_of_context_fields();
    let head = seq![
        ("group_id"@, JsonView::Text(group_id)),
        ("actions"@, JsonView::Array(actions)),
    ];
    lemma_two_fields(head[0], head[1], wanted);
    let context = JsonView::Object(envelope::context_fields(metadata));
    let second = if envelope::context_fields(metadata).len() > 0 {
        head.push(("context"@, context))
    } else {
        head
    };
    lemma_field_pushed(head, "context"@, context, wanted);
    lemma_field_optional(second, "task_id"@, text::present(metadata.task_id), wanted);
}

/// The conversation that is read is the one that was written.
proof fn lemma_conversation_is_read(
    group_id: Seq<char>,
    actions: Seq<JsonView>,
    metadata: WeaveMessageMetadata<Seq<char>>,
    ctx: incoming::IncomingMessageContext<Seq<char>, JsonView>,
)
    ensures
        ({
            let payload = envelope::submit_fields(group_id, actions, Some(metadata));
            let parent = text::present(metadata.parent_message_id);
            let task_id = text::present(metadata.task_id);
            &&& payload.array_field("actions"@) == Some(actions)
            &&& incoming::action_context(payload, ctx) == (incoming::ActionContext {
                group_id: incoming::or_else(text::present(Some(group_id)), ctx.message_id),
                conversation_id: incoming::or_else(
                    text::present(Some(metadata.conversation_id)),
                    ctx.message_id,
                ),
                conversation_owner: incoming::or_else(
                    text::present(Some(metadata.conversation_owner)),
                    ctx.src,
                ),
                parent_message_id: parent,
                task_id,
                has_conversation_metadata: envelope::context_fields(metadata).len() > 0
                    || task_id is Some,
            })
        }),
{
    lemma_names_of_context_fields();
    lemma_submit_field(group_id, actions, metadata, "group_id"@);
    lemma_submit_field(group_id, actions, metadata, "actions"@);
    lemma_submit_field(group_id, actions, metadata, "context"@);
    lemma_submit_field(group_id, actions, metadata, "task_id"@);
    lemma_context_field(metadata, "context_id"@);
    lemma_context_field(metadata, "owner_id"@);
    lemma_context_field(metadata, "parent_message_id"@);
    lemma_present_twice(Some(metadata.conversation_id));
    lemma_present_twice(Some(metadata.conversation_owner));
    lemma_present_twice(metadata.parent_message_id);
    lemma_present_twice(metadata.task_id);
    let none: Seq<(Seq<char>, JsonView)> = seq![];
    assert(json::field_among(none, "context_id"@) is None);
}

/// A reply arrives as it was written: the agent that it is for gets one message,
/// with the text, in the conversation and the task, and as the answer to the
/// action that the sender named.
pub proof fn law_a_reply_arrives(
    envelope: WeaveEnvelope<Seq<char>, JsonView>,
    agent_id: Seq<char>,
    agent_name: Seq<char>,
    group_id: Seq<char>,
    action_id: Seq<char>,
    dst: Seq<char>,
    message: Seq<char>,
    metadata: WeaveMessageMetadata<Seq<char>>,
    reply_to: Option<Seq<char>>,
)
    requires
        envelope.message_type == "action.submit"@,
        envelope.session is Some,
        envelope.payload == Some(
            envelope::reply_fields(
                group_id,
                action_id,
                dst,
                message,
                Some(metadata),
                reply_to,
            ),
        ),
        !incoming::names(envelope.src, agent_id, agent_name),
        text::present(Some(dst)) matches Some(dst) && incoming::names(dst, agent_id, agent_name),
    ensures
        incoming::incoming(envelope, agent_id, agent_name) == seq![
            WeaveIncomingMessage {
                text: message,
                kind: WeaveMessageKind::Reply,
                conversation_id: incoming::or_else(
                    text::present(Some(metadata.conversation_id)),
                    envelope.id,
                ),
                conversation_owner: incoming::or_else(
                    text::present(Some(metadata.conversation_owner)),
                    envelope.src,
                ),
                parent_message_id: text::present(metadata.parent_message_id),
                task_id: text::present(metadata.task_id),
                action_group_id: Some(
                    incoming::or_else(text::present(Some(group_id)), envelope.id),
                ),
                action_id: text::present(Some(action_id)),
                action_index: Some(0),
                reply_to_action_id: text::present(reply_to),
                has_conversation_metadata: envelope::context_fields(metadata).len() > 0
                    || text::present(metadata.task_id) is Some,
                ..incoming::plain_message(
                    incoming::context_of(envelope, envelope.session->0),
                )
            },
        ],
{
    let ctx = incoming::context_of(envelope, envelope.session->0);
    let action = envelope::message_action(
        dst,
        message,
        action_id,
        0,
        reply_to,
        Some(WeaveMessageKind::Reply),
        Some("none"@),
    );
    let actions = seq![action];
    lemma_conversation_is_read(group_id, actions, metadata, ctx);
    let payload = envelope::submit_fields(group_id, actions, Some(metadata));
    let shared = incoming::action_context(payload, ctx);
    lemma_message_is_read(dst, message, action_id, reply_to, ctx, shared);
    assert(!incoming::session_started(actions, 0, agent_id, agent_name));
    let none = incoming::action_messages(actions, 0, ctx, shared, agent_id, agent_name);
    assert(none =~= seq![]);
    assert(incoming::action_messages(actions, 1, ctx, shared, agent_id, agent_name)
        =~= seq![incoming::action_message(action, 0, ctx, shared, false)->0]);
}

// ---------------------------------------------------------------------------
// A command
// ---------------------------------------------------------------------------

/// A tool as the agent that it is for gets it: white space around the
/// instructions of a review is left out.
pub open spec fn received(tool: WeaveTool<Seq<char>>) -> WeaveTool<Seq<char>> {
    match tool {
        WeaveTool::Review { instructions } => WeaveTool::Review {
            instructions: text::present(instructions),
        },
        _ => tool,
    }
}

proof fn lemma_names_of_control_fields()
    ensures
        "type"@ != "dst"@,
        "command"@ != "type"@,
        "command"@ != "dst"@,
        "args"@ != "type"@,
        "args"@ != "dst"@,
        "args"@ != "command"@,
        "args"@ != "action_id"@,
        "args"@ != "action_index"@,
        "action_id"@ != "type"@,
        "action_id"@ != "dst"@,
        "action_id"@ != "command"@,
        "action_index"@ != "type"@,
        "action_index"@ != "dst"@,
        "action_index"@ != "command"@,
        "action_index"@ != "action_id"@,
        "reply_to_action_id"@ != "type"@,
        "reply_to_action_id"@ != "dst"@,
        "reply_to_action_id"@ != "command"@,
        "reply_to_action_id"@ != "args"@,
        "reply_to_action_id"@ != "action_id"@,
        "reply_to_action_id"@ != "action_index"@,
        "control"@ != "message"@,
        text::trimmed("control"@) == "control"@,
{
    reveal_strlit("type");
    reveal_strlit("dst");
    reveal_strlit("command");
    reveal_strlit("args");
    reveal_strlit("action_id");
    reveal_strlit("action_index");
    reveal_strlit("reply_to_action_id");
    reveal_strlit("control");
    reveal_strlit("message");
    assert("type"@.len() != "dst"@.len());
    assert("command"@.len() != "type"@.len());
    assert("command"@.len() != "dst"@.len());
    assert("args"@[0] != "type"@[0]);
    assert("args"@.len() != "dst"@.len());
    assert("args"@.len() != "command"@.len());
    assert("args"@.len() != "action_id"@.len());
    assert("args"@.len() != "action_index"@.len());
    assert("action_id"@.len() != "type"@.len());
    assert("action_id"@.len() != "dst"@.len());
    assert("action_id"@.len() != "command"@.len());
    assert("action_index"@.len() != "type"@.len());
    assert("action_index"@.len() != "dst"@.len());
    assert("action_index"@.len() != "command"@.len());
    assert("action_index"@.len() != "action_id"@.len());
    assert("reply_to_action_id"@.len() != "type"@.len());
    assert("reply_to_action_id"@.len() != "dst"@.len());
    assert("reply_to_action_id"@.len() != "command"@.len());
    assert("reply_to_action_id"@.len() != "args"@.len());
    assert("reply_to_action_id"@.len() != "action_id"@.len());
    assert("reply_to_action_id"@.len() != "action_index"@.len());
    assert("control"@[0] != "message"@[0]);
    text::lemma_tight("control"@);
}

/// A tool is known by the name that it has on the wire.
proof fn lemma_tool_is_known(tool: WeaveTool<Seq<char>>)
    ensures
        text::present(Some(steps::tool_name(tool))) == Some(steps::tool_name(tool)),
        client::tool_named(steps::tool_name(tool), sending::review_args(tool)) == Some(
            received(tool),
        ),
{
    reveal_strlit("new");
    reveal_strlit("new_session");
    reveal_strlit("compact");
    reveal_strlit("interrupt");
    reveal_strlit("review");
    let name = steps::tool_name(tool);
    text::lemma_tight(name);
    assert(text::ascii_lower(name) =~= name);
    assert("compact"@.len() != "new"@.len());
    assert("compact"@.len() != "new_session"@.len());
    assert("interrupt"@.len() != "new"@.len());
    assert("interrupt"@.len() != "new_session"@.len());
    assert("interrupt"@.len() != "compact"@.len());
    assert("review"@.len() != "new"@.len());
    assert("review"@.len() != "new_session"@.len());
    assert("review"@.len() != "compact"@.len());
    assert("review"@.len() != "interrupt"@.len());
    if let WeaveTool::Review { instructions } = tool {
        lemma_present_twice(instructions);
    }
}

proof fn lemma_control_field(
    dst: Seq<char>,
    tool: WeaveTool<Seq<char>>,
    action_id: Seq<char>,
    wanted: Seq<char>,
)
    ensures
        sending::control_fields(dst, tool, action_id, 0).field(wanted) == (if wanted == "type"@ {
            Some(JsonView::Text("control"@))
        } else if wanted == "dst"@ {
            Some(JsonView::Text(dst))
        } else if wanted == "command"@ {
            Some(JsonView::Text(steps::tool_name(tool)))
        } else if wanted == "args"@ && sending::review_args(tool) is Some {
            Some(JsonView::Text(sending::review_args(tool)->0))
        } else if wanted == "action_id"@ {
            Some(JsonView::Text(action_id))
        } else if wanted == "action_index"@ {
            Some(envelope::natural(0))
        } else {
            None
        }),
{
    let kind = ("type"@, JsonView::Text("control"@));
    let to = ("dst"@, JsonView::Text(dst));
    let command = ("command"@, JsonView::Text(steps::tool_name(tool)));
    lemma_two_fields(kind, to, wanted);
    lemma_field_pushed(seq![kind, to], command.0, command.1, wanted);
    let head = seq![kind, to, command];
    assert(head =~= seq![kind, to].push(command));
    let second = json::with_option(head, "args"@, sending::review_args(tool));
    lemma_field_optional(head, "args"@, sending::review_args(tool), wanted);
    let third = second.push(("action_id"@, JsonView::Text(action_id)));
    lemma_field_pushed(second, "action_id"@, JsonView::Text(action_id), wanted);
    lemma_field_pushed(third, "action_index"@, envelope::natural(0), wanted);
}

/// What is read of one command among the actions.
proof fn lemma_command_is_read(
    dst: Seq<char>,
    tool: WeaveTool<Seq<char>>,
    action_id: Seq<char>,
    ctx: incoming::IncomingMessageContext<Seq<char>, JsonView>,
    shared: incoming::ActionContext<Seq<char>>,
    defer: bool,
)
    ensures
        ({
            let action = sending::control_fields(dst, tool, action_id, 0);
            &&& action.present_field("dst"@) == text::present(Some(dst))
            &&& incoming::action_message(action, 0, ctx, shared, defer) == Some(
                WeaveIncomingMessage {
                    tool: Some(received(tool)),
                    conversation_id: shared.conversation_id,
                    conversation_owner: shared.conversation_owner,
                    parent_message_id: shared.parent_message_id,
                    task_id: shared.task_id,
                    action_group_id: Some(shared.group_id),
                    action_id: text::present(Some(action_id)),
                    action_index: Some(0),
                    reply_to_action_id: None,
                    has_conversation_metadata: shared.has_conversation_metadata,
                    ..incoming::plain_message(ctx)
                },
            )
        }),
{
    lemma_names_of_control_fields();
    lemma_tool_is_known(tool);
    lemma_present_twice(sending::review_args(tool));
    if let WeaveTool::Review { instructions } = tool {
        lemma_present_twice(instructions);
    }
    lemma_control_field(dst, tool, action_id, "type"@);
    lemma_control_field(dst, tool, action_id, "dst"@);
    lemma_control_field(dst, tool, action_id, "command"@);
    lemma_control_field(dst, tool, action_id, "args"@);
    lemma_control_field(dst, tool, action_id, "action_id"@);
    lemma_control_field(dst, tool, action_id, "action_index"@);
    lemma_control_field(dst, tool, action_id, "reply_to_action_id"@);
}

/// A command arrives as it was given: the agent that it is for gets one message,
/// with the tool, in the conversation and the task that the sender named.
pub proof fn law_a_command_arrives(
    envelope: WeaveEnvelope<Seq<char>, JsonView>,
    agent_id: Seq<char>,
    agent_name: Seq<char>,
    group_id: Seq<char>,
    action_id: Seq<char>,
    dst: Seq<char>,
    tool: WeaveTool<Seq<char>>,
    metadata: WeaveMessageMetadata<Seq<char>>,
)
    requires
        envelope.message_type == "action.submit"@,
        envelope.session is Some,
        envelope.payload == Some(
            sending::control_submit(dst, tool, Some(metadata), group_id, action_id),
        ),
        !incoming::names(envelope.src, agent_id, agent_name),
        text::present(Some(dst)) matches Some(dst) && incoming::names(dst, agent_id, agent_name),
    ensures
        incoming::incoming(envelope, agent_id, agent_name) == seq![
            WeaveIncomingMessage {
                tool: Some(received(tool)),
                conversation_id: incoming::or_else(
                    text::present(Some(metadata.conversation_id)),
                    envelope.id,
                ),
                conversation_owner: incoming::or_else(
                    text::present(Some(metadata.conversation_owner)),
                    envelope.src,
                ),
                parent_message_id: text::present(metadata.parent_message_id),
                task_id: text::present(metadata.task_id),
                action_group_id: Some(
                    incoming::or_else(text::present(Some(group_id)), envelope.id),
                ),
                action_id: text::present(Some(action_id)),
                action_index: Some(0),
                reply_to_action_id: None,
                has_conversation_metadata: envelope::context_fields(metadata).len() > 0
                    || text::present(metadata.task_id) is Some,
                ..incoming::plain_message(
                    incoming::context_of(envelope, envelope.session->0),
                )
            },
        ],
{
    let ctx = incoming::context_of(envelope, envelope.session->0);
    let action = sending::control_fields(dst, tool, action_id, 0);
    let actions = seq![action];
    lemma_conversation_is_read(group_id, actions, metadata, ctx);
    let payload = envelope::submit_fields(group_id, actions, Some(metadata));
    let shared = incoming::action_context(payload, ctx);
    lemma_command_is_read(dst, tool, action_id, ctx, shared, false);
    assert(!incoming::session_started(actions, 0, agent_id, agent_name));
    let none = incoming::action_messages(actions, 0, ctx, shared, agent_id, agent_name);
    assert(none =~= seq![]);
    assert(incoming::action_messages(actions, 1, ctx, shared, agent_id, agent_name)
        =~= seq![incoming::action_message(action, 0, ctx, shared, false)->0]);
}

// ---------------------------------------------------------------------------
// A result
// ---------------------------------------------------------------------------

proof fn lemma_names_of_result_fields()
    ensures
        "group_id"@ != "action_id"@,
        "group_id"@ != "action_index"@,
        "group_id"@ != "status"@,
        "group_id"@ != "detail"@,
        "group_id"@ != "data"@,
        "action_id"@ != "action_index"@,
        "action_id"@ != "status"@,
        "action_id"@ != "detail"@,
        "action_id"@ != "data"@,
        "action_index"@ != "status"@,
        "action_index"@ != "detail"@,
        "action_index"@ != "data"@,
        "status"@ != "detail"@,
        "status"@ != "data"@,
        "detail"@ != "data"@,
        "new_context_id"@ != "new_task_id"@,
        "action.result"@ != "action.submit"@,
        "action.result"@ != "message.created"@,
        "action.result"@ != "message.send"@,
{
    reveal_strlit("group_id");
    reveal_strlit("action_id");
    reveal_strlit("action_index");
    reveal_strlit("status");
    reveal_strlit("detail");
    reveal_strlit("data");
    reveal_strlit("new_context_id");
    reveal_strlit("new_task_id");
    reveal_strlit("action.result");
    reveal_strlit("action.submit");
    reveal_strlit("message.created");
    reveal_strlit("message.send");
    assert("group_id"@.len() != "action_id"@.len());
    assert("group_id"@.len() != "action_index"@.len());
    assert("group_id"@.len() != "status"@.len());
    assert("group_id"@.len() != "detail"@.len());
    assert("group_id"@.len() != "data"@.len());
    assert("action_id"@.len() != "action_index"@.len());
    assert("action_id"@.len() != "status"@.len());
    assert("action_id"@.len() != "detail"@.len());
    assert("action_id"@.len() != "data"@.len());
    assert("action_index"@.len() != "status"@.len());
    assert("action_index"@.len() != "detail"@.len());
    assert("action_index"@.len() != "data"@.len());
    assert("status"@[0] != "detail"@[0]);
    assert("status"@.len() != "data"@.len());
    assert("detail"@.len() != "data"@.len());
    assert("new_context_id"@.len() != "new_task_id"@.len());
    assert("action.result"@[7] != "action.submit"@[7]);
    assert("action.result"@.len() != "message.created"@.len());
    assert("action.result"@.len() != "message.send"@.len());
}

proof fn lemma_data_field(result: WeaveActionResult<Seq<char>>, wanted: Seq<char>)
    ensures
        json::field_among(
            json::with_option(
                json::with_option(seq![], "new_context_id"@, text::present(result.new_context_id)),
                "new_task_id"@,
                text::present(result.new_task_id),
            ),
            wanted,
        ) == (if wanted == "new_context_id"@ && text::present(result.new_context_id) is Some {
            Some(JsonView::Text(text::present(result.new_context_id)->0))
        } else if wanted == "new_task_id"@ && text::present(result.new_task_id) is Some {
            Some(JsonView::Text(text::present(result.new_task_id)->0))
        } else {
            None
        }),
{
    lemma_names_of_result_fields();
    let none: Seq<(Seq<char>, JsonView)> = seq![];
    let first = json::with_option(none, "new_context_id"@, text::present(result.new_context_id));
    lemma_field_optional(none, "new_context_id"@, text::present(result.new_context_id), wanted);
    lemma_field_optional(first, "new_task_id"@, text::present(result.new_task_id), wanted);
}

proof fn lemma_result_field(result: WeaveActionResult<Seq<char>>, wanted: Seq<char>)
    ensures
        ({
            let data = json::with_option(
                json::with_option(seq![], "new_context_id"@, text::present(result.new_context_id)),
                "new_task_id"@,
                text::present(result.new_task_id),
            );
            envelope::result_fields(result).field(wanted) == (if wanted == "group_id"@ {
                Some(JsonView::Text(result.group_id))
            } else if wanted == "action_id"@ {
                Some(JsonView::Text(result.action_id))
            } else if wanted == "action_index"@ {
                Some(envelope::natural(result.action_index as nat))
            } else if wanted == "status"@ {
                Some(JsonView::Text(result.status))
            } else if wanted == "detail"@ && text::present(result.detail) is Some {
                Some(JsonView::Text(text::present(result.detail)->0))
            } else if wanted == "data"@ && data.len() > 0 {
                Some(JsonView::Object(data))
            } else {
                None
            })
        }),
{
    lemma_names_of_result_fields();
    let group_id = ("group_id"@, JsonView::Text(result.group_id));
    let action_id = ("action_id"@, JsonView::Text(result.action_id));
    let index = ("action_index"@, envelope::natural(result.action_index as nat));
    let status = ("status"@, JsonView::Text(result.status));
    lemma_two_fields(group_id, action_id, wanted);
    let two = seq![group_id, action_id];
    lemma_field_pushed(two, index.0, index.1, wanted);
    lemma_field_pushed(two.push(index), status.0, status.1, wanted);
    let head = seq![group_id, action_id, index, status];
    assert(head =~= two.push(index).push(status));
    let detail = text::present(result.detail);
    lemma_field_optional(head, "detail"@, detail, wanted);
    let data = json::with_option(
        json::with_option(seq![], "new_context_id"@, text::present(result.new_context_id)),
        "new_task_id"@,
        text::present(result.new_task_id),
    );
    lemma_field_pushed(
        json::with_option(head, "detail"@, detail),
        "data"@,
        JsonView::Object(data),
        wanted,
    );
}

/// The result of an action arrives as it was written, but for white space
/// around its texts.
pub proof fn law_a_result_arrives(
    envelope: WeaveEnvelope<Seq<char>, JsonView>,
    agent_id: Seq<char>,
    agent_name: Seq<char>,
    result: WeaveActionResult<Seq<char>>,
)
    requires
        envelope.message_type == "action.result"@,
        envelope.session is Some,
        envelope.payload == Some(envelope::result_fields(result)),
        incoming::is_for_agent(envelope, agent_id, agent_name),
        !incoming::names(envelope.src, agent_id, agent_name),
        !text::is_blank(result.group_id),
        !text::is_blank(result.action_id),
        !text::is_blank(result.status),
    ensures
        ({
            let messages = incoming::incoming(envelope, agent_id, agent_name);
            &&& messages.len() == 1
            &&& messages[0].action_result == Some(
                WeaveActionResult {
                    group_id: text::trimmed(result.group_id),
                    action_id: text::trimmed(result.action_id),
                    action_index: result.action_index,
                    status: text::trimmed(result.status),
                    detail: text::present(result.detail),
                    new_context_id: text::present(result.new_context_id),
                    new_task_id: text::present(result.new_task_id),
                },
            )
        }),
{
    lemma_names_of_result_fields();
    lemma_result_field(result, "group_id"@);
    lemma_result_field(result, "action_id"@);
    lemma_result_field(result, "action_index"@);
    lemma_result_field(result, "status"@);
    lemma_result_field(result, "detail"@);
    lemma_result_field(result, "data"@);
    lemma_data_field(result, "new_context_id"@);
    lemma_data_field(result, "new_task_id"@);
    lemma_present_twice(result.detail);
    lemma_present_twice(result.new_context_id);
    lemma_present_twice(result.new_task_id);
    let none: Seq<(Seq<char>, JsonView)> = seq![];
    assert(json::field_among(none, "new_context_id"@) is None);
}

} // verus!

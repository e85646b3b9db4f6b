//! The envelope that requests and messages travel in, and what this agent puts
//! into one.

use vstd::prelude::*;

use crate::client;
use crate::client::{
    WeaveActionResult, WeaveAgent, WeaveMessageKind, WeaveMessageMetadata, WeaveSession,
};
use crate::json;
use crate::json::{Fields, Json, JsonNumber, JsonView};
use crate::outside;
use crate::text;

verus! {

/// The version of the envelope.
pub const WEAVE_VERSION: u8 = 1;

/// Why a request failed.
#[derive(Debug, PartialEq, Eq)]
#[verifier::ext_equal]
pub struct WeaveErrorDetail<S = String, J = Json> {
    pub code: S,
    pub message: S,
    pub detail: Option<J>,
}

impl DeepView for WeaveErrorDetail {
    type V = WeaveErrorDetail<Seq<char>, JsonView>;

    open spec fn deep_view(&self) -> WeaveErrorDetail<Seq<char>, JsonView> {
        WeaveErrorDetail {
            code: self.code@,
            message: self.message@,
            detail: self.detail.deep_view(),
        }
    }
}

impl Clone for WeaveErrorDetail {
    fn clone(&self) -> (r: WeaveErrorDetail)
        ensures
            r.deep_view() == self.deep_view(),
    {
        WeaveErrorDetail {
            code: self.code.clone(),
            message: self.message.clone(),
            detail: json::copy_option(&self.detail),
        }
    }
}

/// How the sender wants a message acknowledged.
#[derive(Debug, PartialEq, Eq)]
#[verifier::ext_equal]
pub struct WeaveAck<S = String> {
    pub mode: Option<S>,
    pub timeout_ms: Option<u64>,
}

impl DeepView for WeaveAck {
    type V = WeaveAck<Seq<char>>;

    open spec fn deep_view(&self) -> WeaveAck<Seq<char>> {
        WeaveAck {
            mode: self.mode.deep_view(),
            timeout_ms: self.timeout_ms,
        }
    }
}

impl Clone for WeaveAck {
    fn clone(&self) -> (r: WeaveAck)
        ensures
            r == *self,
    {
        WeaveAck {
            mode: text::copy_option(&self.mode),
            timeout_ms: self.timeout_ms,
        }
    }
}

/// A request, a response or a message on its way.
#[derive(Debug, PartialEq, Eq)]
#[verifier::ext_equal]
pub struct WeaveEnvelope<S = String, J = Json> {
    pub v: u8,
    /// What this is: `session.list`, `message.send` and the like.
    pub message_type: S,
    pub id: S,
    pub ts: S,
    pub src: S,
    pub dst: Option<S>,
    pub topic: Option<S>,
    pub session: Option<S>,
    pub seq: Option<u64>,
    pub idempotency_key: Option<S>,
    /// The id of the request that this answers.
    pub corr: Option<S>,
    pub payload: Option<J>,
    pub payload_ref: Option<S>,
    pub content_type: Option<S>,
    pub size: Option<u64>,
    pub meta: Option<J>,
    pub status: Option<S>,
    pub error: Option<WeaveErrorDetail<S, J>>,
    pub ack: Option<WeaveAck<S>>,
}

impl DeepView for WeaveEnvelope {
    type V = WeaveEnvelope<Seq<char>, JsonView>;

    open spec fn deep_view(&self) -> WeaveEnvelope<Seq<char>, JsonView> {
        WeaveEnvelope {
            v: self.v,
            message_type: self.message_type@,
            id: self.id@,
            ts: self.ts@,
            src: self.src@,
            dst: self.dst.deep_view(),
            topic: self.topic.deep_view(),
            session: self.session.deep_view(),
            seq: self.seq,
            idempotency_key: self.idempotency_key.deep_view(),
            corr: self.corr.deep_view(),
            payload: self.payload.deep_view(),
            payload_ref: self.payload_ref.deep_view(),
            content_type: self.content_type.deep_view(),
            size: self.size,
            meta: self.meta.deep_view(),
            status: self.status.deep_view(),
            error: self.error.deep_view(),
            ack: self.ack.deep_view(),
        }
    }
}

impl Clone for WeaveEnvelope {
    fn clone(&self) -> (r: WeaveEnvelope)
        ensures
            r.deep_view() == self.deep_view(),
    {
        WeaveEnvelope {
            v: self.v,
            message_type: self.message_type.clone(),
            id: self.id.clone(),
            ts: self.ts.clone(),
            src: self.src.clone(),
            dst: text::copy_option(&self.dst),
            topic: text::copy_option(&self.topic),
            session: text::copy_option(&self.session),
            seq: self.seq,
            idempotency_key: text::copy_option(&self.idempotency_key),
            corr: text::copy_option(&self.corr),
            payload: json::copy_option(&self.payload),
            payload_ref: text::copy_option(&self.payload_ref),
            content_type: text::copy_option(&self.content_type),
            size: self.size,
            meta: json::copy_option(&self.meta),
            status: text::copy_option(&self.status),
            error: match &self.error { Some(v) => Some(v.clone()), None => None },
            ack: match &self.ack { Some(v) => Some(v.clone()), None => None },
        }
    }
}

/// A fresh envelope with this id and this time.
pub open spec fn envelope_of(
    message_type: Seq<char>,
    src: Seq<char>,
    session: Option<Seq<char>>,
    payload: Option<JsonView>,
    id: Seq<char>,
    ts: Seq<char>,
) -> WeaveEnvelope<Seq<char>, JsonView> {
    WeaveEnvelope {
        v: WEAVE_VERSION,
        message_type,
        id,
        ts,
        src,
        dst: None,
        topic: None,
        session,
        seq: None,
        idempotency_key: None,
        corr: None,
        payload,
        payload_ref: None,
        content_type: None,
        size: None,
        meta: None,
        status: None,
        error: None,
        ack: None,
    }
}

/// Whether the id and the time of an envelope were drawn for it.
pub open spec fn is_fresh(envelope: WeaveEnvelope<Seq<char>, JsonView>) -> bool {
    outside::is_random_id(envelope.id) && outside::is_utc_moment(envelope.ts)
}

/// An envelope from `src` with an id and a time of its own.
pub fn new_envelope_with_src(
    message_type: &str,
    src: &str,
    session: Option<String>,
    payload: Option<Json>,
) -> (r: WeaveEnvelope)
    ensures
        r.deep_view() == envelope_of(
            message_type@,
            src@,
            session.deep_view(),
            payload.deep_view(),
            r.id@,
            r.ts@,
        ),
        is_fresh(r.deep_view()),
{
    WeaveEnvelope {
        v: WEAVE_VERSION,
        message_type: message_type.to_owned(),
        id: outside::random_id(),
        ts: outside::now_timestamp(),
        src: src.to_owned(),
        dst: None,
        topic: None,
        session,
        seq: None,
        idempotency_key: None,
        corr: None,
        payload,
        payload_ref: None,
        content_type: None,
        size: None,
        meta: None,
        status: None,
        error: None,
        ack: None,
    }
}

/// An envelope from the command line client, which speaks for no agent.
pub fn new_envelope(
    message_type: &str,
    session: Option<String>,
    payload: Option<Json>,
) -> (r: WeaveEnvelope)
    ensures
        r.deep_view() == envelope_of(
            message_type@,
            "codex-cli"@,
            session.deep_view(),
            payload.deep_view(),
            r.id@,
            r.ts@,
        ),
        is_fresh(r.deep_view()),
{
    new_envelope_with_src(message_type, "codex-cli", session, payload)
}

// ---------------------------------------------------------------------------
// Responses
// ---------------------------------------------------------------------------

/// What went wrong, according to a response: nothing unless its status is
/// `error`.
pub open spec fn error_of(response: WeaveEnvelope<Seq<char>, JsonView>) -> Option<Seq<char>> {
    if response.status != Some("error"@) {
        None
    } else {
        match response.error {
            None => Some("Weave request failed"@),
            Some(detail) => {
                let code = text::trimmed(detail.code);
                let message = text::trimmed(detail.message);
                if code.len() > 0 && message.len() > 0 {
                    Some(code + ": "@ + message)
                } else if code.len() > 0 {
                    Some(code)
                } else if message.len() > 0 {
                    Some(message)
                } else {
                    Some("Weave request failed"@)
                }
            },
        }
    }
}

/// Whether an optional text is there and equal to `expected`.
pub fn option_is(value: &Option<String>, expected: &str) -> (r: bool)
    ensures
        r == (value.deep_view() == Some(expected@)),
{
    match value {
        Some(value) => text::same(value.as_str(), expected),
        None => false,
    }
}

/// What went wrong, according to a response.
pub fn response_error(response: &WeaveEnvelope) -> (r: Option<String>)
    ensures
        r.deep_view() == error_of(response.deep_view()),
{
    if !option_is(&response.status, "error") {
        return None;
    }
    match &response.error {
        None => Some("Weave request failed".to_owned()),
        Some(detail) => {
            let code = text::trim(detail.code.as_str());
            let message = text::trim(detail.message.as_str());
            if !code.is_empty() && !message.is_empty() {
                Some(text::concat3(code, ": ", message))
            } else if !code.is_empty() {
                Some(code.to_owned())
            } else if !message.is_empty() {
                Some(message.to_owned())
            } else {
                Some("Weave request failed".to_owned())
            }
        },
    }
}

/// Whether `response` answers the request with this id.
pub fn answers(response: &WeaveEnvelope, request_id: &str) -> (r: bool)
    ensures
        r == (response.deep_view().corr == Some(request_id@)),
{
    option_is(&response.corr, request_id)
}

/// A response to a request that hands nothing back.
pub fn acknowledged(response: &WeaveEnvelope) -> (r: Result<(), String>)
    ensures
        match error_of(response.deep_view()) {
            Some(message) => r matches Err(e) && e@ == message,
            None => r is Ok,
        },
{
    match response_error(response) {
        Some(message) => Err(message),
        None => Ok(()),
    }
}

/// The payload of a response, or what went wrong; `missing` where there is no
/// payload.
pub open spec fn payload_result(
    response: WeaveEnvelope<Seq<char>, JsonView>,
    missing: Seq<char>,
) -> Result<JsonView, Seq<char>> {
    match error_of(response) {
        Some(message) => Err(message),
        None => match response.payload {
            Some(payload) => Ok(payload),
            None => Err(missing),
        },
    }
}

/// The view of a result with a JSON value or a text.
pub open spec fn json_result(r: Result<Json, String>) -> Result<JsonView, Seq<char>> {
    match r {
        Ok(value) => Ok(value.deep_view()),
        Err(message) => Err(message@),
    }
}

fn payload_or(response: WeaveEnvelope, missing: &str) -> (r: Result<Json, String>)
    ensures
        json_result(r) == payload_result(response.deep_view(), missing@),
{
    match response_error(&response) {
        Some(message) => Err(message),
        None => match response.payload {
            Some(payload) => Ok(payload),
            None => Err(missing.to_owned()),
        },
    }
}

/// The payload of an answer to `session.list`.
pub fn session_list_payload(response: WeaveEnvelope) -> (r: Result<Json, String>)
    ensures
        json_result(r) == payload_result(
            response.deep_view(),
            "Weave session list response missing payload"@,
        ),
{
    payload_or(response, "Weave session list response missing payload")
}

/// The payload of an answer to `agent.list`.
pub fn agent_list_payload(response: WeaveEnvelope) -> (r: Result<Json, String>)
    ensures
        json_result(r) == payload_result(
            response.deep_view(),
            "Weave agent list response missing payload"@,
        ),
{
    payload_or(response, "Weave agent list response missing payload")
}

/// The sessions in a list of ids and names: a blank name is no name.
pub open spec fn sessions_of(
    entries: Seq<(Seq<char>, Seq<char>)>,
) -> Seq<WeaveSession<Seq<char>>> {
    Seq::new(
        entries.len(),
        |i: int| WeaveSession { id: entries[i].0, name: text::present(Some(entries[i].1)) },
    )
}

/// The sessions in a list of ids and names.
pub fn listed_sessions(entries: Vec<(String, String)>) -> (r: Vec<WeaveSession>)
    ensures
        r.deep_view() == sessions_of(entries.deep_view()),
{
    let mut r: Vec<WeaveSession> = Vec::new();
    for i in 0..entries.len()
        invariant
            r@.len() == i,
            forall|j: int|
                0 <= j < i ==> #[trigger] r@[j].deep_view() == sessions_of(entries.deep_view())[j],
    {
        let name = text::trim(entries[i].1.as_str());
        let name = if name.is_empty() { None } else { Some(name.to_owned()) };
        r.push(WeaveSession { id: entries[i].0.clone(), name });
    }
    proof {
        assert(r.deep_view() =~= sessions_of(entries.deep_view()));
    }
    r
}

/// The agents in a list of ids and optional names: a blank name is no name.
pub open spec fn agents_of(
    entries: Seq<(Seq<char>, Option<Seq<char>>)>,
) -> Seq<WeaveAgent<Seq<char>>> {
    Seq::new(
        entries.len(),
        |i: int| WeaveAgent { id: entries[i].0, name: text::present(entries[i].1) },
    )
}

/// The agents in a list of ids and optional names.
pub fn listed_agents(entries: Vec<(String, Option<String>)>) -> (r: Vec<WeaveAgent>)
    ensures
        r.deep_view() == agents_of(entries.deep_view()),
{
    let mut r: Vec<WeaveAgent> = Vec::new();
    for i in 0..entries.len()
        invariant
            r@.len() == i,
            forall|j: int|
                0 <= j < i ==> #[trigger] r@[j].deep_view() == agents_of(entries.deep_view())[j],
    {
        let name = client::owned(text::trim_present(&entries[i].1));
        r.push(WeaveAgent { id: entries[i].0.clone(), name });
    }
    proof {
        assert(r.deep_view() =~= agents_of(entries.deep_view()));
    }
    r
}

/// The session that an answer to `session.create` tells of.
pub fn created_session(response: WeaveEnvelope, name: Option<String>) -> (r: Result<
    WeaveSession,
    String,
>)
    ensures
        match error_of(response.deep_view()) {
            Some(message) => r matches Err(e) && e@ == message,
            None => match response.deep_view().session {
                Some(id) => r matches Ok(s) && s.deep_view() == (WeaveSession {
                    id,
                    name: name.deep_view(),
                }),
                None => r matches Err(e) && e@
                    == "Weave session.create response missing session id"@,
            },
        },
{
    match response_error(&response) {
        Some(message) => Err(message),
        None => match response.session {
            Some(id) => Ok(WeaveSession { id, name }),
            None => Err("Weave session.create response missing session id".to_owned()),
        },
    }
}

// ---------------------------------------------------------------------------
// Payloads
// ---------------------------------------------------------------------------

/// A natural number as JSON.
pub open spec fn natural(n: nat) -> JsonView {
    JsonView::Number(JsonNumber::Natural(n as u64))
}

/// A natural number as JSON.
pub fn json_natural(n: usize) -> (r: Json)
    ensures
        r.deep_view() == natural(n as nat),
{
    Json::Number(JsonNumber::Natural(n as u64))
}

/// The payload of `agent.add`: the id, and the name where it is not blank.
pub open spec fn agent_add_fields(
    agent_id: Seq<char>,
    name: Option<Seq<char>>,
) -> JsonView {
    JsonView::Object(
        json::with_option(
            seq![("id"@, JsonView::Text(agent_id))],
            "name"@,
            text::present(name),
        ),
    )
}

/// The payload of `agent.add`.
pub fn agent_add_payload(agent_id: &str, name: &Option<String>) -> (r: Json)
    ensures
        r.deep_view() == agent_add_fields(agent_id@, name.deep_view()),
{
    let mut fields = Fields::new();
    fields.put_text("id", agent_id);
    proof {
        assert(fields@ =~= seq![("id"@, JsonView::Text(agent_id@))]);
    }
    fields.put_option("name", text::trim_present(name));
    fields.object()
}

/// The payload of `agent.update`.
pub open spec fn agent_update_fields(agent_id: Seq<char>, name: Seq<char>) -> JsonView {
    JsonView::Object(seq![("id"@, JsonView::Text(agent_id)), ("name"@, JsonView::Text(name))])
}

/// The payload of `agent.update`.
pub fn agent_update_payload(agent_id: &str, name: &str) -> (r: Json)
    ensures
        r.deep_view() == agent_update_fields(agent_id@, name@),
{
    let mut fields = Fields::new();
    fields.put_text("id", agent_id);
    fields.put_text("name", name);
    proof {
        assert(fields@ =~= seq![
            ("id"@, JsonView::Text(agent_id@)),
            ("name"@, JsonView::Text(name@)),
        ]);
    }
    fields.object()
}

/// What a kind of message is called on the wire.
pub open spec fn kind_name(kind: WeaveMessageKind) -> Seq<char> {
    match kind {
        WeaveMessageKind::User => "user"@,
        WeaveMessageKind::Reply => "reply"@,
        WeaveMessageKind::Control => "control"@,
    }
}

/// What a kind of message is called on the wire.
pub fn kind_label(kind: WeaveMessageKind) -> (r: &'static str)
    ensures
        r@ == kind_name(kind),
{
    match kind {
        WeaveMessageKind::User => "user",
        WeaveMessageKind::Reply => "reply",
        WeaveMessageKind::Control => "control",
    }
}

/// The trimmed text, if there is one and it is not blank.
pub fn trim_str(s: Option<&str>) -> (r: Option<&str>)
    ensures
        r.deep_view() == text::present(s.deep_view()),
{
    match s {
        Some(s) => {
            let t = text::trim(s);
            if t.is_empty() {
                None
            } else {
                Some(t)
            }
        },
        None => None,
    }
}

/// A message among the actions of `action.submit`.
pub open spec fn message_action(
    dst: Seq<char>,
    message: Seq<char>,
    action_id: Seq<char>,
    action_index: nat,
    reply_to_action_id: Option<Seq<char>>,
    kind: Option<WeaveMessageKind>,
    reply_policy: Option<Seq<char>>,
) -> JsonView {
    let fields = seq![("type"@, JsonView::Text("message"@)), ("dst"@, JsonView::Text(dst))];
    let fields = json::with_option(
        fields,
        "reply_to_action_id"@,
        text::present(reply_to_action_id),
    );
    let fields = match kind {
        Some(kind) => fields.push(("kind"@, JsonView::Text(kind_name(kind)))),
        None => fields,
    };
    let fields = json::with_option(fields, "reply_policy"@, text::present(reply_policy));
    JsonView::Object(
        fields.push(("text"@, JsonView::Text(message))).push(
            ("action_id"@, JsonView::Text(action_id)),
        ).push(("action_index"@, natural(action_index))),
    )
}

/// A message among the actions of `action.submit`.
pub fn action_message_payload(
    dst: &str,
    message: &str,
    action_id: &str,
    action_index: usize,
    reply_to_action_id: Option<&str>,
    kind: Option<WeaveMessageKind>,
    reply_policy: Option<&str>,
) -> (r: Json)
    ensures
        r.deep_view() == message_action(
            dst@,
            message@,
            action_id@,
            action_index as nat,
            reply_to_action_id.deep_view(),
            kind,
            reply_policy.deep_view(),
        ),
{
    let mut fields = Fields::new();
    fields.put_text("type", "message");
    fields.put_text("dst", dst);
    proof {
        assert(fields@ =~= seq![
            ("type"@, JsonView::Text("message"@)),
            ("dst"@, JsonView::Text(dst@)),
        ]);
    }
    fields.put_option("reply_to_action_id", trim_str(reply_to_action_id));
    match kind {
        Some(kind) => fields.put_text("kind", kind_label(kind)),
        None => {},
    }
    fields.put_option("reply_policy", trim_str(reply_policy));
    fields.put_text("text", message);
    fields.put_text("action_id", action_id);
    fields.put("action_index", json_natural(action_index));
    fields.object()
}

/// The context of an `action.submit`: what of the conversation is not blank.
pub open spec fn context_fields(
    metadata: WeaveMessageMetadata<Seq<char>>,
) -> Seq<(Seq<char>, JsonView)> {
    let fields = json::with_option(
        seq![],
        "context_id"@,
        text::present(Some(metadata.conversation_id)),
    );
    let fields = json::with_option(
        fields,
        "owner_id"@,
        text::present(Some(metadata.conversation_owner)),
    );
    json::with_option(fields, "parent_message_id"@, text::present(metadata.parent_message_id))
}

/// `fields`, and behind them the context and the task of `metadata`, as far as
/// they are there.
pub open spec fn with_metadata(
    fields: Seq<(Seq<char>, JsonView)>,
    metadata: Option<WeaveMessageMetadata<Seq<char>>>,
) -> Seq<(Seq<char>, JsonView)> {
    match metadata {
        Some(metadata) => {
            let context = context_fields(metadata);
            let fields = if context.len() > 0 {
                fields.push(("context"@, JsonView::Object(context)))
            } else {
                fields
            };
            json::with_option(fields, "task_id"@, text::present(metadata.task_id))
        },
        None => fields,
    }
}

/// The payload of `action.submit`.
pub open spec fn submit_fields(
    group_id: Seq<char>,
    actions: Seq<JsonView>,
    metadata: Option<WeaveMessageMetadata<Seq<char>>>,
) -> JsonView {
    JsonView::Object(
        with_metadata(
            seq![("group_id"@, JsonView::Text(group_id)), ("actions"@, JsonView::Array(actions))],
            metadata,
        ),
    )
}

/// Adds the context and the task of `metadata`, as far as they are there.
pub fn put_metadata(fields: &mut Fields, metadata: Option<&WeaveMessageMetadata>)
    ensures
        final(fields)@ == with_metadata(old(fields)@, metadata.deep_view()),
{
    match metadata {
        Some(metadata) => {
            let mut context = Fields::new();
            context.put_option(
                "context_id",
                trim_str(Some(metadata.conversation_id.as_str())),
            );
            context.put_option(
                "owner_id",
                trim_str(Some(metadata.conversation_owner.as_str())),
            );
            context.put_option(
                "parent_message_id",
                text::trim_present(&metadata.parent_message_id),
            );
            if !context.is_empty() {
                fields.put("context", context.object());
            }
            fields.put_option("task_id", text::trim_present(&metadata.task_id));
        },
        None => {},
    }
}

/// An array of these values.
pub fn json_array(items: Vec<Json>) -> (r: Json)
    ensures
        r.deep_view() == JsonView::Array(items.deep_view()),
{
    let r = Json::Array(items);
    proof {
        assert(r.deep_view()->Array_0 =~= items.deep_view());
    }
    r
}

/// The payload of `action.submit`.
pub fn action_submit_payload(
    group_id: &str,
    actions: Vec<Json>,
    metadata: Option<&WeaveMessageMetadata>,
) -> (r: Json)
    ensures
        r.deep_view() == submit_fields(group_id@, actions.deep_view(), metadata.deep_view()),
{
    let mut fields = Fields::new();
    fields.put_text("group_id", group_id);
    fields.put("actions", json_array(actions));
    proof {
        assert(fields@ =~= seq![
            ("group_id"@, JsonView::Text(group_id@)),
            ("actions"@, JsonView::Array(actions.deep_view())),
        ]);
    }
    put_metadata(&mut fields, metadata);
    fields.object()
}

/// The payload of `action.result`.
pub open spec fn result_fields(result: WeaveActionResult<Seq<char>>) -> JsonView {
    let fields = seq![
        ("group_id"@, JsonView::Text(result.group_id)),
        ("action_id"@, JsonView::Text(result.action_id)),
        ("action_index"@, natural(result.action_index as nat)),
        ("status"@, JsonView::Text(result.status)),
    ];
    let fields = json::with_option(fields, "detail"@, text::present(result.detail));
    let data = json::with_option(
        json::with_option(seq![], "new_context_id"@, text::present(result.new_context_id)),
        "new_task_id"@,
        text::present(result.new_task_id),
    );
    JsonView::Object(
        if data.len() > 0 {
            fields.push(("data"@, JsonView::Object(data)))
        } else {
            fields
        },
    )
}

/// The payload of `action.result`.
pub fn action_result_payload(result: &WeaveActionResult) -> (r: Json)
    ensures
        r.deep_view() == result_fields(result.deep_view()),
{
    let mut fields = Fields::new();
    fields.put_text("group_id", result.group_id.as_str());
    fields.put_text("action_id", result.action_id.as_str());
    fields.put("action_index", json_natural(result.action_index));
    fields.put_text("status", result.status.as_str());
    proof {
        assert(fields@ =~= seq![
            ("group_id"@, JsonView::Text(result.group_id@)),
            ("action_id"@, JsonView::Text(result.action_id@)),
            ("action_index"@, natural(result.action_index as nat)),
            ("status"@, JsonView::Text(result.status@)),
        ]);
    }
    fields.put_option("detail", text::trim_present(&result.detail));
    let mut data = Fields::new();
    data.put_option("new_context_id", text::trim_present(&result.new_context_id));
    data.put_option("new_task_id", text::trim_present(&result.new_task_id));
    if !data.is_empty() {
        fields.put("data", data.object());
    }
    fields.object()
}

// ---------------------------------------------------------------------------
// Requests
// ---------------------------------------------------------------------------

/// A request for the list of sessions.
pub fn session_list_request() -> (r: WeaveEnvelope)
    ensures
        r.deep_view() == envelope_of("session.list"@, "codex-cli"@, None, None, r.id@, r.ts@),
        is_fresh(r.deep_view()),
{
    new_envelope("session.list", None, None)
}

/// A request for a new session.
pub fn session_create_request(name: &Option<String>) -> (r: WeaveEnvelope)
    ensures
        r.deep_view() == envelope_of(
            "session.create"@,
            "codex-cli"@,
            None,
            match name.deep_view() {
                Some(name) => Some(JsonView::Object(seq![("name"@, JsonView::Text(name))])),
                None => None,
            },
            r.id@,
            r.ts@,
        ),
        is_fresh(r.deep_view()),
{
    let payload = match name {
        Some(name) => {
            let mut fields = Fields::new();
            fields.put_text("name", name.as_str());
            proof {
                assert(fields@ =~= seq![("name"@, JsonView::Text(name@))]);
            }
            Some(fields.object())
        },
        None => None,
    };
    new_envelope("session.create", None, payload)
}

/// A request to close a session.
pub fn session_close_request(session_id: &str) -> (r: WeaveEnvelope)
    ensures
        r.deep_view() == envelope_of(
            "session.close"@,
            "codex-cli"@,
            Some(session_id@),
            None,
            r.id@,
            r.ts@,
        ),
        is_fresh(r.deep_view()),
{
    new_envelope("session.close", Some(session_id.to_owned()), None)
}

/// A request for the list of agents in a session.
pub fn agent_list_request(session_id: &str, src: &str) -> (r: WeaveEnvelope)
    ensures
        r.deep_view() == envelope_of(
            "agent.list"@,
            src@,
            Some(session_id@),
            None,
            r.id@,
            r.ts@,
        ),
        is_fresh(r.deep_view()),
{
    new_envelope_with_src("agent.list", src, Some(session_id.to_owned()), None)
}

/// A request to join a session.
pub fn agent_add_request(
    session_id: &str,
    agent_id: &str,
    name: &Option<String>,
) -> (r: WeaveEnvelope)
    ensures
        r.deep_view() == envelope_of(
            "agent.add"@,
            agent_id@,
            Some(session_id@),
            Some(agent_add_fields(agent_id@, name.deep_view())),
            r.id@,
            r.ts@,
        ),
        is_fresh(r.deep_view()),
{
    let payload = agent_add_payload(agent_id, name);
    new_envelope_with_src("agent.add", agent_id, Some(session_id.to_owned()), Some(payload))
}

/// The name that a connection goes by at first.
pub fn connection_name(agent_id: &String, name: &Option<String>) -> (r: String)
    ensures
        r@ == client::shown_name(agent_id@, name.deep_view()),
{
    match text::trim_present(name) {
        Some(name) => name.to_owned(),
        None => agent_id.clone(),
    }
}

/// The name that a connection goes by after it was told a new one: a blank
/// name changes nothing.
pub fn renamed(current: String, name: &str) -> (r: String)
    ensures
        r@ == (if text::is_blank(name@) { current@ } else { text::trimmed(name@) }),
{
    let name = text::trim(name);
    if name.is_empty() {
        current
    } else {
        name.to_owned()
    }
}

/// A request to leave a session.
pub fn agent_remove_request(session_id: &str, agent_id: &str) -> (r: WeaveEnvelope)
    ensures
        r.deep_view() == envelope_of(
            "agent.remove"@,
            agent_id@,
            Some(session_id@),
            Some(JsonView::Object(seq![("id"@, JsonView::Text(agent_id@))])),
            r.id@,
            r.ts@,
        ),
        is_fresh(r.deep_view()),
{
    let mut fields = Fields::new();
    fields.put_text("id", agent_id);
    proof {
        assert(fields@ =~= seq![("id"@, JsonView::Text(agent_id@))]);
    }
    new_envelope_with_src(
        "agent.remove",
        agent_id,
        Some(session_id.to_owned()),
        Some(fields.object()),
    )
}

/// A request to take a new name. A blank name is refused.
pub fn agent_update_request(session_id: &str, agent_id: &str, name: &str) -> (r: Result<
    WeaveEnvelope,
    String,
>)
    ensures
        match r {
            Ok(request) => !text::is_blank(name@) && request.deep_view() == envelope_of(
                "agent.update"@,
                agent_id@,
                Some(session_id@),
                Some(agent_update_fields(agent_id@, text::trimmed(name@))),
                request.id@,
                request.ts@,
            ) && is_fresh(request.deep_view()),
            Err(message) => text::is_blank(name@) && message@ == "Weave agent name is empty"@,
        },
{
    let name = text::trim(name);
    if name.is_empty() {
        return Err("Weave agent name is empty".to_owned());
    }
    let payload = agent_update_payload(agent_id, name);
    Ok(
        new_envelope_with_src(
            "agent.update",
            agent_id,
            Some(session_id.to_owned()),
            Some(payload),
        ),
    )
}

/// The number for the next request, after `previous` of them.
pub fn next_seq(previous: u64) -> (r: u64)
    ensures
        r == (if previous < u64::MAX { previous + 1 } else { u64::MAX as int }),
{
    previous.saturating_add(1)
}

/// A request that other agents act. The group id among the payload's fields
/// keeps it from being acted on twice.
pub fn action_submit_request(
    session_id: &str,
    agent_id: &str,
    seq: u64,
    payload: Json,
) -> (r: WeaveEnvelope)
    ensures
        r.deep_view() == (WeaveEnvelope {
            seq: Some(seq),
            idempotency_key: payload.deep_view().text_field("group_id"@),
            ..envelope_of(
                "action.submit"@,
                agent_id@,
                Some(session_id@),
                Some(payload.deep_view()),
                r.id@,
                r.ts@,
            )
        }),
        is_fresh(r.deep_view()),
{
    let key = client::owned(payload.get_text("group_id"));
    let mut request = new_envelope_with_src(
        "action.submit",
        agent_id,
        Some(session_id.to_owned()),
        Some(payload),
    );
    request.seq = Some(seq);
    request.idempotency_key = key;
    request
}

/// The payload of a reply: one message, to which no reply is due.
pub open spec fn reply_fields(
    group_id: Seq<char>,
    action_id: Seq<char>,
    dst: Seq<char>,
    message: Seq<char>,
    metadata: Option<WeaveMessageMetadata<Seq<char>>>,
    reply_to_action_id: Option<Seq<char>>,
) -> JsonView {
    submit_fields(
        group_id,
        seq![
            message_action(
                dst,
                message,
                action_id,
                0,
                reply_to_action_id,
                Some(WeaveMessageKind::Reply),
                Some("none"@),
            ),
        ],
        metadata,
    )
}

/// The payload of a reply with these ids.
pub fn reply_payload_with_ids(
    group_id: &str,
    action_id: &str,
    dst: &str,
    message: &str,
    metadata: Option<&WeaveMessageMetadata>,
    reply_to_action_id: Option<&str>,
) -> (r: Json)
    ensures
        r.deep_view() == reply_fields(
            group_id@,
            action_id@,
            dst@,
            message@,
            metadata.deep_view(),
            reply_to_action_id.deep_view(),
        ),
{
    let action = action_message_payload(
        dst,
        message,
        action_id,
        0,
        reply_to_action_id,
        Some(WeaveMessageKind::Reply),
        Some("none"),
    );
    let ghost view = action.deep_view();
    let mut actions: Vec<Json> = Vec::new();
    actions.push(action);
    proof {
        assert(actions.deep_view() =~= seq![view]);
    }
    action_submit_payload(group_id, actions, metadata)
}

/// The payload of a reply, with ids of its own.
pub fn reply_payload(
    dst: &str,
    message: &str,
    metadata: Option<&WeaveMessageMetadata>,
    reply_to_action_id: Option<&str>,
) -> (r: Json)
    ensures
        exists|group_id: Seq<char>, action_id: Seq<char>|
            outside::is_random_id(group_id) && outside::is_random_id(action_id) && r.deep_view()
                == #[trigger] reply_fields(
                group_id,
                action_id,
                dst@,
                message@,
                metadata.deep_view(),
                reply_to_action_id.deep_view(),
            ),
{
    let group_id = outside::random_id();
    let action_id = outside::random_id();
    reply_payload_with_ids(
        group_id.as_str(),
        action_id.as_str(),
        dst,
        message,
        metadata,
        reply_to_action_id,
    )
}

/// A report to `dst` of how an action ended.
pub fn action_result_request(
    session_id: &str,
    agent_id: &str,
    seq: u64,
    dst: &str,
    result: &WeaveActionResult,
) -> (r: WeaveEnvelope)
    ensures
        r.deep_view() == (WeaveEnvelope {
            dst: Some(dst@),
            seq: Some(seq),
            ..envelope_of(
                "action.result"@,
                agent_id@,
                Some(session_id@),
                Some(result_fields(result.deep_view())),
                r.id@,
                r.ts@,
            )
        }),
        is_fresh(r.deep_view()),
{
    let payload = action_result_payload(result);
    let mut request = new_envelope_with_src(
        "action.result",
        agent_id,
        Some(session_id.to_owned()),
        Some(payload),
    );
    request.dst = Some(dst.to_owned());
    request.seq = Some(seq);
    request
}

/// A response that reports an error is one, whatever else it holds; any other is read by
/// its payload.
pub proof fn law_an_error_is_reported(
    response: WeaveEnvelope<Seq<char>, JsonView>,
    missing: Seq<char>,
)
    ensures
        response.status == Some("error"@) ==> payload_result(response, missing) is Err,
        response.status != Some("error"@) && response.payload is Some ==> payload_result(
            response,
            missing,
        ) == Ok::<JsonView, Seq<char>>(response.payload->0),
        response.status != Some("error"@) && response.payload is None ==> payload_result(
            response,
            missing,
        ) == Err::<JsonView, Seq<char>>(missing),
        response.status == Some("error"@) && response.error is Some ==> {
            let code = text::trimmed(response.error->0.code);
            let message = text::trimmed(response.error->0.message);
            &&& code.len() > 0 && message.len() > 0 ==> payload_result(response, missing) == Err::<
                JsonView,
                Seq<char>,
            >(code + ": "@ + message)
            &&& code.len() > 0 && message.len() == 0 ==> payload_result(response, missing) == Err::<
                JsonView,
                Seq<char>,
            >(code)
            &&& code.len() == 0 && message.len() > 0 ==> payload_result(response, missing) == Err::<
                JsonView,
                Seq<char>,
            >(message)
        },
        response.status == Some("error"@) && response.error is None ==> payload_result(
            response,
            missing,
        ) == Err::<JsonView, Seq<char>>("Weave request failed"@),
{
}

/// The kinds of messages have different names.
pub proof fn law_kinds_are_told_apart(a: WeaveMessageKind, b: WeaveMessageKind)
    requires
        kind_name(a) == kind_name(b),
    ensures
        a == b,
        a == WeaveMessageKind::Reply ==> kind_name(a) == "reply"@,
        a == WeaveMessageKind::User ==> kind_name(a) == "user"@,
        a == WeaveMessageKind::Control ==> kind_name(a) == "control"@,
{
    reveal_strlit("user");
    reveal_strlit("reply");
    reveal_strlit("control");
    assert("user"@.len() == 4 && "reply"@.len() == 5 && "control"@.len() == 7);
}

/// Every entry is listed, in its order, under its id and its name, if that is not blank.
pub proof fn law_every_entry_is_listed(
    sessions: Seq<(Seq<char>, Seq<char>)>,
    agents: Seq<(Seq<char>, Option<Seq<char>>)>,
)
    ensures
        sessions_of(sessions).len() == sessions.len(),
        forall|i: int|
            0 <= i < sessions.len() ==> (#[trigger] sessions_of(sessions)[i]).id == sessions[i].0
                && sessions_of(sessions)[i].name == text::present(Some(sessions[i].1)),
        agents_of(agents).len() == agents.len(),
        forall|i: int|
            0 <= i < agents.len() ==> (#[trigger] agents_of(agents)[i]).id == agents[i].0
                && agents_of(agents)[i].name == text::present(agents[i].1),
{
}

/// Who joins is known by its identifier, and by its name if it has one.
pub proof fn law_who_joins_is_named(agent_id: Seq<char>, name: Seq<char>)
    ensures
        agent_add_fields(agent_id, None).text_field("id"@) == Some(agent_id),
        agent_add_fields(agent_id, Some(name)).text_field("id"@) == Some(agent_id),
        agent_add_fields(agent_id, None).text_field("name"@) is None,
        !text::is_blank(name) ==> agent_add_fields(agent_id, Some(name)).text_field("name"@)
            == Some(text::trimmed(name)),
        agent_update_fields(agent_id, name).text_field("id"@) == Some(agent_id),
        agent_update_fields(agent_id, name).text_field("name"@) == Some(name),
{
    reveal_strlit("id");
    reveal_strlit("name");
    assert("id"@.len() == 2 && "name"@.len() == 4);
    let id = seq![("id"@, JsonView::Text(agent_id))];
    text::law_white_space_counts_as_nothing(name);
    json::law_an_option_is_found_again(id, "name"@, None);
    json::law_an_option_is_found_again(id, "name"@, text::present(Some(name)));
    json::lemma_field_among_at(json::with_option(id, "name"@, None), "id"@, 0);
    json::lemma_field_among_at(
        json::with_option(id, "name"@, text::present(Some(name))),
        "id"@,
        0,
    );
    let both = seq![("id"@, JsonView::Text(agent_id)), ("name"@, JsonView::Text(name))];
    json::lemma_field_among_at(both, "id"@, 0);
    json::lemma_field_among_at(both, "name"@, 1);
}

} // verus!

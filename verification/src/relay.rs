//! What a model answers when it relays a task to other agents.

use vstd::prelude::*;

use crate::text;

verus! {

/// The whole answer.
#[derive(Debug, Clone, PartialEq, Eq)]
pub enum WeaveRelayOutput {
    RelayActions { actions: Vec<WeaveRelayAction>, done: Option<WeaveRelayDoneRequest> },
}

/// What the relay tool is called with.
#[derive(Debug, Clone, PartialEq, Eq)]
pub struct WeaveRelayToolArgs {
    pub relay_id: String,
    pub actions: Vec<WeaveRelayAction>,
    pub done: Option<WeaveRelayDoneRequest>,
}

/// What the relay tool answers.
#[derive(Debug, Clone, PartialEq, Eq)]
pub struct WeaveRelayToolResult {
    pub status: String,
    pub detail: Option<String>,
}

/// A call of the relay tool on its way to whoever relays.
#[derive(Debug, Clone, PartialEq, Eq)]
pub struct WeaveRelayRequestEvent {
    /// The call of the tool, if it is known.
    pub call_id: String,
    /// The turn that the request belongs to; empty where it is not known.
    pub turn_id: String,
    pub relay_id: String,
    pub actions: Vec<WeaveRelayAction>,
    pub done: Option<WeaveRelayDoneRequest>,
}

/// Whether a task is done: yes or no, or yes with a summary.
#[derive(Debug, Clone, PartialEq, Eq)]
pub enum WeaveRelayDoneRequest {
    Flag(bool),
    Summary { summary: Option<String> },
}

/// One step of a relay.
#[derive(Debug, Clone, PartialEq, Eq)]
pub enum WeaveRelayAction {
    Message {
        dst: String,
        text: String,
        expects_reply: Option<bool>,
        plan_step_id: String,
        plan: Option<WeaveRelayPlan>,
    },
    Control {
        dst: String,
        plan_step_id: String,
        command: WeaveRelayCommand,
        args: Option<String>,
    },
    Wait { targets: Vec<String>, plan_step_id: String },
}

/// A command to another agent.
#[derive(Debug, Clone, Copy, PartialEq, Eq, Structural)]
pub enum WeaveRelayCommand {
    New,
    Compact,
    Interrupt,
    Review,
}

/// The steps of a task.
#[derive(Debug, Clone, PartialEq, Eq)]
pub struct WeaveRelayPlan {
    pub steps: Vec<String>,
    pub note: Option<String>,
}

impl WeaveRelayDoneRequest {
    /// Whether the task is to end. A summary says so by itself.
    pub open spec fn asks_for_end(self) -> bool {
        match self {
            WeaveRelayDoneRequest::Flag(value) => value,
            WeaveRelayDoneRequest::Summary { summary } => true,
        }
    }

    /// The trimmed summary, if it is not blank.
    pub open spec fn summary_text(self) -> Option<Seq<char>> {
        match self {
            WeaveRelayDoneRequest::Flag(_) => None,
            WeaveRelayDoneRequest::Summary { summary } => text::present(summary.deep_view()),
        }
    }

    /// Whether the task is to end.
    pub fn is_requested(&self) -> (r: bool)
        ensures
            r == self.asks_for_end(),
    {
        match self {
            WeaveRelayDoneRequest::Flag(value) => *value,
            WeaveRelayDoneRequest::Summary { summary: _ } => true,
        }
    }

    /// The trimmed summary, if it is not blank.
    pub fn summary(&self) -> (r: Option<&str>)
        ensures
            r.deep_view() == self.summary_text(),
    {
        match self {
            WeaveRelayDoneRequest::Flag(_) => None,
            WeaveRelayDoneRequest::Summary { summary } => text::trim_present(summary),
        }
    }
}

// ---------------------------------------------------------------------------
// The text of an answer
// ---------------------------------------------------------------------------

/// Whether `s` ends with a fence.
pub open spec fn ends_fenced(s: Seq<char>) -> bool {
    s.len() >= 3 && s.skip(s.len() - 3) == seq!['`', '`', '`']
}

/// Whether `s` begins with a fence.
pub open spec fn starts_fenced(s: Seq<char>) -> bool {
    s.len() >= 3 && s.take(3) == seq!['`', '`', '`']
}

/// `s` without the fences at its start.
pub open spec fn unfenced_start(s: Seq<char>) -> Seq<char>
    decreases s.len(),
{
    if starts_fenced(s) {
        unfenced_start(s.skip(3))
    } else {
        s
    }
}

/// `s` without the fences at its end.
pub open spec fn unfenced_end(s: Seq<char>) -> Seq<char>
    decreases s.len(),
{
    if ends_fenced(s) {
        unfenced_end(s.take(s.len() - 3))
    } else {
        s
    }
}

/// `s` without the name of the language.
pub open spec fn without_language(s: Seq<char>) -> Seq<char> {
    match text::after_prefix(s, "json"@) {
        Some(rest) => rest,
        None => match text::after_prefix(s, "JSON"@) {
            Some(rest) => rest,
            None => s,
        },
    }
}

/// What stands between the fences of an answer, if it has them.
pub open spec fn unfenced(answer: Seq<char>) -> Seq<char> {
    let answer = text::trimmed(answer);
    if starts_fenced(answer) {
        text::trimmed(
            unfenced_end(text::trimmed_start(without_language(unfenced_start(answer)))),
        )
    } else {
        answer
    }
}

/// What of an answer may be a JSON object: the text between its fences, if that
/// stands in braces.
pub open spec fn object_text(answer: Seq<char>) -> Option<Seq<char>> {
    let candidate = text::trimmed(unfenced(answer));
    if candidate.len() > 0 && candidate[0] == '{' && candidate.last() == '}' {
        Some(candidate)
    } else {
        None
    }
}

proof fn lemma_unfenced_start_at(s: Seq<char>, n: nat)
    requires
        3 * n <= s.len(),
        forall|i: int| 0 <= i < 3 * n ==> #[trigger] s[i] == '`',
        !starts_fenced(s.skip(3 * n as int)),
    ensures
        unfenced_start(s) == s.skip(3 * n as int),
    decreases n,
{
    if n > 0 {
        let t = s.skip(3);
        assert(s.take(3) =~= seq!['`', '`', '`']);
        assert forall|i: int| 0 <= i < 3 * (n - 1) implies #[trigger] t[i] == '`' by {
            assert(t[i] == s[i + 3]);
        }
        assert(t.skip(3 * (n - 1)) =~= s.skip(3 * n as int));
        lemma_unfenced_start_at(t, (n - 1) as nat);
    } else {
        assert(s.skip(0) =~= s);
    }
}

proof fn lemma_unfenced_end_at(s: Seq<char>, n: nat)
    requires
        3 * n <= s.len(),
        forall|i: int| s.len() - 3 * n <= i < s.len() ==> #[trigger] s[i] == '`',
        !ends_fenced(s.take(s.len() - 3 * n)),
    ensures
        unfenced_end(s) == s.take(s.len() - 3 * n),
    decreases n,
{
    if n > 0 {
        let t = s.take(s.len() - 3);
        assert(s.skip(s.len() - 3) =~= seq!['`', '`', '`']);
        assert(t.take(t.len() - 3 * (n - 1)) =~= s.take(s.len() - 3 * n));
        lemma_unfenced_end_at(t, (n - 1) as nat);
    } else {
        assert(s.take(s.len() as int) =~= s);
    }
}

fn strip_fences_start(s: &str) -> (r: &str)
    ensures
        r@ == unfenced_start(s@),
{
    let chars = text::chars_of(s);
    let mut from: usize = 0;
    let ghost mut n: nat = 0;
    while chars.len() - from >= 3 && chars[from] == '`' && chars[from + 1] == '`' && chars[from
        + 2] == '`'
        invariant
            chars@ == s@,
            from == 3 * n,
            from <= chars@.len(),
            forall|i: int| 0 <= i < from ==> #[trigger] s@[i] == '`',
        decreases chars@.len() - from,
    {
        from = from + 3;
        proof {
            n = n + 1;
        }
    }
    proof {
        let t = s@.skip(from as int);
        if starts_fenced(t) {
            assert(t.take(3)[0] == t[0] && t.take(3)[1] == t[1] && t.take(3)[2] == t[2]);
            assert(t[0] == s@[from as int] && t[1] == s@[from + 1] && t[2] == s@[from + 2]);
        }
        lemma_unfenced_start_at(s@, n);
        assert(s@.subrange(from as int, s@.len() as int) =~= t);
    }
    s.substring_char(from, chars.len())
}

fn strip_fences_end(s: &str) -> (r: &str)
    ensures
        r@ == unfenced_end(s@),
{
    let chars = text::chars_of(s);
    let mut to: usize = chars.len();
    let ghost mut n: nat = 0;
    while to >= 3 && chars[to - 1] == '`' && chars[to - 2] == '`' && chars[to - 3] == '`'
        invariant
            chars@ == s@,
            to <= chars@.len(),
            to == s@.len() - 3 * n,
            forall|i: int| to <= i < s@.len() ==> #[trigger] s@[i] == '`',
        decreases to,
    {
        to = to - 3;
        proof {
            n = n + 1;
        }
    }
    proof {
        let t = s@.take(to as int);
        if ends_fenced(t) {
            let e = t.skip(t.len() - 3);
            assert(e[0] == t[t.len() - 3] && e[1] == t[t.len() - 2] && e[2] == t[t.len() - 1]);
        }
        lemma_unfenced_end_at(s@, n);
        assert(s@.subrange(0, to as int) =~= t);
    }
    s.substring_char(0, to)
}

fn has_fence(s: &str) -> (r: bool)
    ensures
        r == starts_fenced(s@),
{
    let chars = text::chars_of(s);
    if chars.len() >= 3 && chars[0] == '`' && chars[1] == '`' && chars[2] == '`' {
        proof {
            assert(s@.take(3) =~= seq!['`', '`', '`']);
        }
        true
    } else {
        proof {
            if starts_fenced(s@) {
                let t = s@.take(3);
                assert(t[0] == s@[0] && t[1] == s@[1] && t[2] == s@[2]);
            }
        }
        false
    }
}

/// What stands between the fences of an answer, if it has them.
pub fn strip_weave_json_fence(answer: &str) -> (r: &str)
    ensures
        r@ == unfenced(answer@),
{
    let answer = text::trim(answer);
    if !has_fence(answer) {
        return answer;
    }
    let inner = strip_fences_start(answer);
    let inner = match text::strip_prefix(inner, "json") {
        Some(rest) => rest,
        None => match text::strip_prefix(inner, "JSON") {
            Some(rest) => rest,
            None => inner,
        },
    };
    text::trim(strip_fences_end(text::trim_start(inner)))
}

/// What of an answer may be a JSON object.
pub fn relay_object_text(answer: &str) -> (r: Option<&str>)
    ensures
        r.deep_view() == object_text(answer@),
{
    let candidate = text::trim(strip_weave_json_fence(answer));
    let n: usize = candidate.unicode_len();
    if n > 0 && candidate.get_char(0) == '{' && candidate.get_char(n - 1) == '}' {
        Some(candidate)
    } else {
        None
    }
}

// ---------------------------------------------------------------------------
// The relay tool
// ---------------------------------------------------------------------------

/// Where a session was started from.
#[derive(Debug, Clone, Copy, PartialEq, Eq, Structural)]
pub enum SessionOrigin {
    Exec,
    Mcp,
    Other,
}

/// Why a call of a tool failed.
#[derive(Debug, Clone, PartialEq, Eq)]
pub enum FunctionCallError {
    /// The model is told.
    RespondToModel(String),
    /// The turn ends.
    Fatal(String),
}

/// What a tool hands back: its content, and whether it succeeded.
#[derive(Debug, Clone, PartialEq, Eq)]
pub struct RelayToolOutput {
    pub content: String,
    pub success: bool,
}

/// The tool through which a model relays.
pub struct WeaveRelayHandler;

impl WeaveRelayHandler {
    /// The arguments of a call that the tool takes: a function call from a
    /// session in which someone can relay. `origin_name` is how the origin is
    /// written.
    pub fn accept(
        &self,
        arguments: Option<String>,
        origin: SessionOrigin,
        origin_name: &str,
    ) -> (r: Result<String, FunctionCallError>)
        ensures
            match arguments {
                None => r matches Err(FunctionCallError::RespondToModel(message)) && message@
                    == "weave_relay_actions handler received unsupported payload"@,
                Some(arguments) => if origin == SessionOrigin::Other {
                    r matches Ok(given) && given@ == arguments@
                } else {
                    r matches Err(FunctionCallError::RespondToModel(message)) && message@
                        == "weave_relay_actions is unsupported in "@ + origin_name@ + " sessions"@
                },
            },
    {
        match arguments {
            None => Err(
                FunctionCallError::RespondToModel(
                    "weave_relay_actions handler received unsupported payload".to_owned(),
                ),
            ),
            Some(arguments) => if origin == SessionOrigin::Other {
                Ok(arguments)
            } else {
                Err(
                    FunctionCallError::RespondToModel(
                        text::concat3(
                            "weave_relay_actions is unsupported in ",
                            origin_name,
                            " sessions",
                        ),
                    ),
                )
            },
        }
    }

    /// The result of a relay; there is none where it was cancelled.
    pub fn answered(&self, result: Option<WeaveRelayToolResult>) -> (r: Result<
        WeaveRelayToolResult,
        FunctionCallError,
    >)
        ensures
            match result {
                Some(result) => r == Ok::<WeaveRelayToolResult, FunctionCallError>(result),
                None => r matches Err(FunctionCallError::RespondToModel(message)) && message@
                    == "weave relay was cancelled before receiving a response"@,
            },
    {
        match result {
            Some(result) => Ok(result),
            None => Err(
                FunctionCallError::RespondToModel(
                    "weave relay was cancelled before receiving a response".to_owned(),
                ),
            ),
        }
    }

    /// What the tool hands back for a result that was written as `content`; it
    /// succeeded if the status is `ok`. Where the result could not be written,
    /// the turn ends.
    pub fn output(
        &self,
        result: &WeaveRelayToolResult,
        content: Result<String, String>,
    ) -> (r: Result<RelayToolOutput, FunctionCallError>)
        ensures
            match content {
                Ok(content) => r matches Ok(output) && output.content@ == content@
                    && output.success == (result.status@ == "ok"@),
                Err(error) => r matches Err(FunctionCallError::Fatal(message)) && message@
                    == "failed to serialize weave relay response: "@ + error@,
            },
    {
        match content {
            Ok(content) => Ok(
                RelayToolOutput { content, success: text::same(result.status.as_str(), "ok") },
            ),
            Err(error) => Err(
                FunctionCallError::Fatal(
                    text::concat2("failed to serialize weave relay response: ", error.as_str()),
                ),
            ),
        }
    }
}

// ---------------------------------------------------------------------------
// Laws
// ---------------------------------------------------------------------------

/// Asking for a summary ends the task; only a plain `false` does not.
pub proof fn law_only_false_goes_on(done: WeaveRelayDoneRequest)
    ensures
        !done.asks_for_end() <==> done == WeaveRelayDoneRequest::Flag(false),
        done.summary_text() is Some ==> done.asks_for_end(),
{
}

/// What may be an object begins and ends with a brace and with no white space.
pub proof fn law_object_text_stands_in_braces(answer: Seq<char>)
    requires
        object_text(answer) is Some,
    ensures
        ({
            let s = object_text(answer)->0;
            s.len() > 0 && s[0] == '{' && s.last() == '}'
        }),
{
}

/// Whether a text is white space throughout.
pub open spec fn all_space(s: Seq<char>) -> bool {
    forall|i: int| 0 <= i < s.len() ==> text::is_space(#[trigger] s[i])
}

/// Whether a text stands in braces.
pub open spec fn in_braces(s: Seq<char>) -> bool {
    s.len() > 0 && s[0] == '{' && s.last() == '}'
}

proof fn lemma_trimmed_around(before: Seq<char>, s: Seq<char>, after: Seq<char>)
    requires
        all_space(before),
        all_space(after),
        s.len() > 0,
        !text::is_space(s[0]),
        !text::is_space(s.last()),
    ensures
        text::trimmed(before + s + after) == s,
        text::trimmed_start(before + s + after) == s + after,
{
    let all = before + s + after;
    let from = before.len() as int;
    let to = from + s.len();
    assert(all[from] == s[0]);
    assert(all[to - 1] == s.last());
    assert forall|i: int| 0 <= i < from implies text::is_space(#[trigger] all[i]) by {
        assert(all[i] == before[i]);
    }
    assert forall|i: int| to <= i < all.len() implies text::is_space(#[trigger] all[i]) by {
        assert(all[i] == after[i - to]);
    }
    text::lemma_trimmed_between(all, from, to);
    assert(all.subrange(from, to) =~= s);
    assert(all.skip(from) =~= s + after);
}

/// White space around an object makes no difference.
pub proof fn law_space_around_an_object_makes_no_difference(
    before: Seq<char>,
    object: Seq<char>,
    after: Seq<char>,
)
    requires
        in_braces(object),
        all_space(before),
        all_space(after),
    ensures
        object_text(before + object + after) == Some(object),
{
    lemma_trimmed_around(before, object, after);
    text::lemma_tight(object);
    if starts_fenced(object) {
        assert(object.take(3)[0] == object[0]);
    }
}

/// A fence.
pub open spec fn fence() -> Seq<char> {
    seq!['`', '`', '`']
}

/// Fences around an object, with or without the name of the language, and white
/// space inside and outside of them make no difference.
pub proof fn law_fences_around_an_object_make_no_difference(
    before: Seq<char>,
    language: Seq<char>,
    inner: Seq<char>,
    object: Seq<char>,
    trailing: Seq<char>,
    after: Seq<char>,
)
    requires
        in_braces(object),
        language.len() == 0 || language == "json"@ || language == "JSON"@,
        all_space(before),
        all_space(inner),
        all_space(trailing),
        all_space(after),
    ensures
        object_text(
            before + (fence() + language + inner + object + trailing + fence()) + after,
        ) == Some(object),
{
    reveal_strlit("json");
    reveal_strlit("JSON");
    let fenced = fence() + language + inner + object + trailing + fence();
    lemma_trimmed_around(before, fenced, after);
    assert(fenced.take(3) =~= fence());
    let named = language + inner + object + trailing + fence();
    assert(fenced.skip(3) =~= named);
    let plain = inner + object + trailing + fence();
    if inner.len() > 0 {
        assert(plain[0] == inner[0]);
    } else {
        assert(plain[0] == object[0]);
    }
    if language.len() > 0 {
        assert(named[0] == language[0]);
    } else {
        assert(named =~= plain);
    }
    if starts_fenced(named) {
        assert(named.take(3)[0] == named[0]);
    }
    assert(unfenced_start(fenced.skip(3)) == named);
    assert(unfenced_start(fenced) == named);
    lemma_language(language, plain);
    assert(named =~= language + plain);
    assert(without_language(named) == plain);
    let closed = object + trailing + fence();
    assert(plain =~= inner + closed + Seq::<char>::empty());
    assert(closed.last() == '`');
    lemma_trimmed_around(inner, closed, Seq::<char>::empty());
    assert(closed + Seq::<char>::empty() =~= closed);
    assert(closed.skip(closed.len() - 3) =~= fence());
    let opened = object + trailing;
    assert(closed.take(closed.len() - 3) =~= opened);
    if ends_fenced(opened) {
        assert(opened.skip(opened.len() - 3)[2] == opened.last());
        if trailing.len() > 0 {
            assert(opened.last() == trailing.last());
        } else {
            assert(opened.last() == object.last());
        }
    }
    assert(unfenced_end(opened) == opened);
    assert(unfenced_end(closed) == opened);
    assert(opened =~= Seq::<char>::empty() + object + trailing);
    lemma_trimmed_around(Seq::<char>::empty(), object, trailing);
    text::lemma_tight(object);
}

proof fn lemma_language(language: Seq<char>, rest: Seq<char>)
    requires
        language.len() == 0 || language == "json"@ || language == "JSON"@,
        rest.len() > 0,
        text::is_space(rest[0]) || rest[0] == '{',
    ensures
        without_language(language + rest) == rest,
{
    reveal_strlit("json");
    reveal_strlit("JSON");
    let all = language + rest;
    if language.len() == 0 {
        assert(all =~= rest);
        if "json"@.is_prefix_of(all) {
            assert(all.subrange(0, 4)[0] == all[0]);
        }
        if "JSON"@.is_prefix_of(all) {
            assert(all.subrange(0, 4)[0] == all[0]);
        }
    } else {
        assert(all.subrange(0, 4) =~= language);
        assert(all.skip(4) =~= rest);
        if language == "JSON"@ && "json"@.is_prefix_of(all) {
            assert("json"@[0] == "JSON"@[0]);
        }
    }
}

} // verus!

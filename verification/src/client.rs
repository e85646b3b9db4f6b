//! Sessions, agents, and what they say to each other.

use vstd::prelude::*;

use crate::json;
use crate::json::{Json, JsonView};
use crate::text;

verus! {

/// A session that agents join.
#[derive(Debug, PartialEq, Eq)]
#[verifier::ext_equal]
pub struct WeaveSession<S = String> {
    pub id: S,
    pub name: Option<S>,
}

impl DeepView for WeaveSession {
    type V = WeaveSession<Seq<char>>;

    open spec fn deep_view(&self) -> WeaveSession<Seq<char>> {
        WeaveSession {
            id: self.id@,
            name: self.name.deep_view(),
        }
    }
}

impl Clone for WeaveSession {
    fn clone(&self) -> (r: WeaveSession)
        ensures
            r == *self,
    {
        WeaveSession {
            id: self.id.clone(),
            name: text::copy_option(&self.name),
        }
    }
}

/// What kind of message an agent sends.
#[derive(Debug, Clone, Copy, PartialEq, Eq, Structural)]
pub enum WeaveMessageKind {
    User,
    Reply,
    Control,
}

/// An agent in a session.
#[derive(Debug, PartialEq, Eq)]
#[verifier::ext_equal]
pub struct WeaveAgent<S = String> {
    pub id: S,
    pub name: Option<S>,
}

impl DeepView for WeaveAgent {
    type V = WeaveAgent<Seq<char>>;

    open spec fn deep_view(&self) -> WeaveAgent<Seq<char>> {
        WeaveAgent {
            id: self.id@,
            name: self.name.deep_view(),
        }
    }
}

impl Clone for WeaveAgent {
    fn clone(&self) -> (r: WeaveAgent)
        ensures
            r == *self,
    {
        WeaveAgent {
            id: self.id.clone(),
            name: text::copy_option(&self.name),
        }
    }
}

/// What one agent can ask another to do beside reading a message.
#[derive(Debug, PartialEq, Eq)]
#[verifier::ext_equal]
pub enum WeaveTool<S = String> {
    NewSession,
    Compact,
    Interrupt,
    Review { instructions: Option<S> },
}

impl DeepView for WeaveTool {
    type V = WeaveTool<Seq<char>>;

    open spec fn deep_view(&self) -> WeaveTool<Seq<char>> {
        match *self {
            WeaveTool::NewSession => WeaveTool::NewSession,
            WeaveTool::Compact => WeaveTool::Compact,
            WeaveTool::Interrupt => WeaveTool::Interrupt,
            WeaveTool::Review { instructions } => WeaveTool::Review { instructions: instructions.deep_view() },
        }
    }
}

impl Clone for WeaveTool {
    fn clone(&self) -> (r: WeaveTool)
        ensures
            r == *self,
    {
        match self {
            WeaveTool::NewSession => WeaveTool::NewSession,
            WeaveTool::Compact => WeaveTool::Compact,
            WeaveTool::Interrupt => WeaveTool::Interrupt,
            WeaveTool::Review { instructions } => WeaveTool::Review { instructions: text::copy_option(instructions) },
        }
    }
}

/// How an action that one agent asked of another ended.
#[derive(Debug, PartialEq, Eq)]
#[verifier::ext_equal]
pub struct WeaveActionResult<S = String> {
    pub group_id: S,
    pub action_id: S,
    pub action_index: usize,
    pub status: S,
    pub detail: Option<S>,
    pub new_context_id: Option<S>,
    pub new_task_id: Option<S>,
}

impl DeepView for WeaveActionResult {
    type V = WeaveActionResult<Seq<char>>;

    open spec fn deep_view(&self) -> WeaveActionResult<Seq<char>> {
        WeaveActionResult {
            group_id: self.group_id@,
            action_id: self.action_id@,
            action_index: self.action_index,
            status: self.status@,
            detail: self.detail.deep_view(),
            new_context_id: self.new_context_id.deep_view(),
            new_task_id: self.new_task_id.deep_view(),
        }
    }
}

impl Clone for WeaveActionResult {
    fn clone(&self) -> (r: WeaveActionResult)
        ensures
            r == *self,
    {
        WeaveActionResult {
            group_id: self.group_id.clone(),
            action_id: self.action_id.clone(),
            action_index: self.action_index,
            status: self.status.clone(),
            detail: text::copy_option(&self.detail),
            new_context_id: text::copy_option(&self.new_context_id),
            new_task_id: text::copy_option(&self.new_task_id),
        }
    }
}

/// The new status of a task.
#[derive(Debug, PartialEq, Eq)]
#[verifier::ext_equal]
pub struct WeaveTaskUpdate<S = String> {
    pub task_id: S,
    pub status: S,
}

impl DeepView for WeaveTaskUpdate {
    type V = WeaveTaskUpdate<Seq<char>>;

    open spec fn deep_view(&self) -> WeaveTaskUpdate<Seq<char>> {
        WeaveTaskUpdate {
            task_id: self.task_id@,
            status: self.status@,
        }
    }
}

impl Clone for WeaveTaskUpdate {
    fn clone(&self) -> (r: WeaveTaskUpdate)
        ensures
            r == *self,
    {
        WeaveTaskUpdate {
            task_id: self.task_id.clone(),
            status: self.status.clone(),
        }
    }
}

/// The end of a task.
#[derive(Debug, PartialEq, Eq)]
#[verifier::ext_equal]
pub struct WeaveTaskDone<S = String> {
    pub task_id: S,
    pub summary: Option<S>,
}

impl DeepView for WeaveTaskDone {
    type V = WeaveTaskDone<Seq<char>>;

    open spec fn deep_view(&self) -> WeaveTaskDone<Seq<char>> {
        WeaveTaskDone {
            task_id: self.task_id@,
            summary: self.summary.deep_view(),
        }
    }
}

impl Clone for WeaveTaskDone {
    fn clone(&self) -> (r: WeaveTaskDone)
        ensures
            r == *self,
    {
        WeaveTaskDone {
            task_id: self.task_id.clone(),
            summary: text::copy_option(&self.summary),
        }
    }
}

/// The conversation that a message belongs to.
#[derive(Debug, PartialEq, Eq)]
#[verifier::ext_equal]
pub struct WeaveMessageMetadata<S = String> {
    pub conversation_id: S,
    pub conversation_owner: S,
    pub parent_message_id: Option<S>,
    pub task_id: Option<S>,
}

impl DeepView for WeaveMessageMetadata {
    type V = WeaveMessageMetadata<Seq<char>>;

    open spec fn deep_view(&self) -> WeaveMessageMetadata<Seq<char>> {
        WeaveMessageMetadata {
            conversation_id: self.conversation_id@,
            conversation_owner: self.conversation_owner@,
            parent_message_id: self.parent_message_id.deep_view(),
            task_id: self.task_id.deep_view(),
        }
    }
}

impl Clone for WeaveMessageMetadata {
    fn clone(&self) -> (r: WeaveMessageMetadata)
        ensures
            r == *self,
    {
        WeaveMessageMetadata {
            conversation_id: self.conversation_id.clone(),
            conversation_owner: self.conversation_owner.clone(),
            parent_message_id: text::copy_option(&self.parent_message_id),
            task_id: text::copy_option(&self.task_id),
        }
    }
}

/// A message for this agent.
#[derive(Debug, PartialEq, Eq)]
#[verifier::ext_equal]
pub struct WeaveIncomingMessage<S = String, J = Json> {
    pub session_id: S,
    pub message_id: S,
    pub src: S,
    pub src_name: Option<S>,
    pub meta: Option<J>,
    pub text: S,
    pub kind: WeaveMessageKind,
    pub conversation_id: S,
    pub conversation_owner: S,
    pub parent_message_id: Option<S>,
    pub task_id: Option<S>,
    pub tool: Option<WeaveTool<S>>,
    pub action_group_id: Option<S>,
    pub action_id: Option<S>,
    pub action_index: Option<usize>,
    pub reply_to_action_id: Option<S>,
    pub action_result: Option<WeaveActionResult<S>>,
    pub task_update: Option<WeaveTaskUpdate<S>>,
    pub task_done: Option<WeaveTaskDone<S>>,
    pub defer_until_ready: bool,
    pub has_conversation_metadata: bool,
}

impl DeepView for WeaveIncomingMessage {
    type V = WeaveIncomingMessage<Seq<char>, JsonView>;

    open spec fn deep_view(&self) -> WeaveIncomingMessage<Seq<char>, JsonView> {
        WeaveIncomingMessage {
            session_id: self.session_id@,
            message_id: self.message_id@,
            src: self.src@,
            src_name: self.src_name.deep_view(),
            meta: self.meta.deep_view(),
            text: self.text@,
            kind: self.kind,
            conversation_id: self.conversation_id@,
            conversation_owner: self.conversation_owner@,
            parent_message_id: self.parent_message_id.deep_view(),
            task_id: self.task_id.deep_view(),
            tool: self.tool.deep_view(),
            action_group_id: self.action_group_id.deep_view(),
            action_id: self.action_id.deep_view(),
            action_index: self.action_index,
            reply_to_action_id: self.reply_to_action_id.deep_view(),
            action_result: self.action_result.deep_view(),
            task_update: self.task_update.deep_view(),
            task_done: self.task_done.deep_view(),
            defer_until_ready: self.defer_until_ready,
            has_conversation_metadata: self.has_conversation_metadata,
        }
    }
}

impl Clone for WeaveIncomingMessage {
    fn clone(&self) -> (r: WeaveIncomingMessage)
        ensures
            r.deep_view() == self.deep_view(),
    {
        WeaveIncomingMessage {
            session_id: self.session_id.clone(),
            message_id: self.message_id.clone(),
            src: self.src.clone(),
            src_name: text::copy_option(&self.src_name),
            meta: json::copy_option(&self.meta),
            text: self.text.clone(),
            kind: self.kind,
            conversation_id: self.conversation_id.clone(),
            conversation_owner: self.conversation_owner.clone(),
            parent_message_id: text::copy_option(&self.parent_message_id),
            task_id: text::copy_option(&self.task_id),
            tool: match &self.tool { Some(v) => Some(v.clone()), None => None },
            action_group_id: text::copy_option(&self.action_group_id),
            action_id: text::copy_option(&self.action_id),
            action_index: self.action_index,
            reply_to_action_id: text::copy_option(&self.reply_to_action_id),
            action_result: match &self.action_result { Some(v) => Some(v.clone()), None => None },
            task_update: match &self.task_update { Some(v) => Some(v.clone()), None => None },
            task_done: match &self.task_done { Some(v) => Some(v.clone()), None => None },
            defer_until_ready: self.defer_until_ready,
            has_conversation_metadata: self.has_conversation_metadata,
        }
    }
}

/// The name to show for something with this id and this optional name.
pub open spec fn shown_name(id: Seq<char>, name: Option<Seq<char>>) -> Seq<char> {
    match text::present(name) {
        Some(name) => name,
        None => id,
    }
}

/// Whether `s` holds white space.
pub open spec fn has_space(s: Seq<char>) -> bool {
    exists|i: int| 0 <= i < s.len() && text::is_space(#[trigger] s[i])
}

/// The text that names an agent in a message: its name, if that is one word,
/// else its id.
pub open spec fn mention_of(agent: WeaveAgent<Seq<char>>) -> Seq<char> {
    match text::present(agent.name) {
        Some(name) => if has_space(name) { agent.id } else { name },
        None => agent.id,
    }
}

/// The tool that `command` names, in letters of either case.
pub open spec fn tool_named(
    command: Seq<char>,
    args: Option<Seq<char>>,
) -> Option<WeaveTool<Seq<char>>> {
    let name = text::ascii_lower(text::trimmed(command));
    if name == "new"@ || name == "new_session"@ {
        Some(WeaveTool::NewSession)
    } else if name == "compact"@ {
        Some(WeaveTool::Compact)
    } else if name == "interrupt"@ {
        Some(WeaveTool::Interrupt)
    } else if name == "review"@ {
        Some(WeaveTool::Review { instructions: text::present(args) })
    } else {
        None
    }
}

/// The name to show for an id and an optional name.
fn name_or_id(id: &String, name: &Option<String>) -> (r: String)
    ensures
        r@ == shown_name(id@, name.deep_view()),
{
    match text::trim_present(name) {
        Some(name) => name.to_owned(),
        None => id.clone(),
    }
}

/// Whether `s` holds white space.
fn holds_space(s: &str) -> (r: bool)
    ensures
        r == has_space(s@),
{
    let chars = text::chars_of(s);
    for i in 0..chars.len()
        invariant
            chars@ == s@,
            forall|j: int| 0 <= j < i ==> !text::is_space(#[trigger] chars@[j]),
    {
        if text::is_white(chars[i]) {
            proof {
                assert(text::is_space(s@[i as int]));
            }
            return true;
        }
    }
    false
}

/// An optional text as an owned text.
pub fn owned(s: Option<&str>) -> (r: Option<String>)
    ensures
        r.deep_view() == s.deep_view(),
{
    match s {
        Some(s) => Some(s.to_owned()),
        None => None,
    }
}

impl WeaveTool {
    /// The tool that `command` names, if it names one. Only a review takes
    /// arguments.
    pub fn from_command(command: &str, args: Option<&str>) -> (r: Option<WeaveTool>)
        ensures
            r.deep_view() == tool_named(command@, args.deep_view()),
    {
        let name = text::to_ascii_lower(text::trim(command));
        let name = name.as_str();
        if text::same(name, "new") || text::same(name, "new_session") {
            Some(WeaveTool::NewSession)
        } else if text::same(name, "compact") {
            Some(WeaveTool::Compact)
        } else if text::same(name, "interrupt") {
            Some(WeaveTool::Interrupt)
        } else if text::same(name, "review") {
            let instructions = match args {
                Some(args) => {
                    let args = text::trim(args);
                    if args.is_empty() {
                        None
                    } else {
                        Some(args.to_owned())
                    }
                },
                None => None,
            };
            Some(WeaveTool::Review { instructions })
        } else {
            None
        }
    }
}

impl WeaveSession {
    /// The trimmed name, or the id where there is no name.
    pub fn display_name(&self) -> (r: String)
        ensures
            r@ == shown_name(self.id@, self.name.deep_view()),
    {
        name_or_id(&self.id, &self.name)
    }
}

impl WeaveAgent {
    /// The trimmed name, or the id where there is no name.
    pub fn display_name(&self) -> (r: String)
        ensures
            r@ == shown_name(self.id@, self.name.deep_view()),
    {
        name_or_id(&self.id, &self.name)
    }

    /// The text that names this agent in a message.
    pub fn mention_text(&self) -> (r: String)
        ensures
            r@ == mention_of(self.deep_view()),
    {
        match text::trim_present(&self.name) {
            Some(name) => if holds_space(name) {
                self.id.clone()
            } else {
                name.to_owned()
            },
            None => self.id.clone(),
        }
    }
}

/// Each command has its tool, whatever the case of its letters and the white space around
/// it, and nothing else names a tool.
pub proof fn law_each_command_names_its_tool(command: Seq<char>, args: Option<Seq<char>>)
    ensures
        ({
            let word = text::ascii_lower(text::trimmed(command));
            &&& word == "new"@ || word == "new_session"@ ==> tool_named(command, args) == Some(
                WeaveTool::<Seq<char>>::NewSession,
            )
            &&& word == "compact"@ ==> tool_named(command, args) == Some(
                WeaveTool::<Seq<char>>::Compact,
            )
            &&& word == "interrupt"@ ==> tool_named(command, args) == Some(
                WeaveTool::<Seq<char>>::Interrupt,
            )
            &&& word == "review"@ ==> tool_named(command, args) == Some(
                WeaveTool::Review { instructions: text::present(args) },
            )
            &&& tool_named(command, args) is None <==> word != "new"@ && word != "new_session"@
                && word != "compact"@ && word != "interrupt"@ && word != "review"@
        }),
{
    reveal_strlit("new");
    reveal_strlit("new_session");
    reveal_strlit("compact");
    reveal_strlit("interrupt");
    reveal_strlit("review");
    assert("new"@.len() == 3 && "new_session"@.len() == 11 && "compact"@.len() == 7
        && "interrupt"@.len() == 9 && "review"@.len() == 6);
}

/// An agent is shown by its name, trimmed, and by its id where it has none; and it is
/// mentioned by a word: its name, or its id where the name is no single word.
pub proof fn law_an_agent_is_shown_by_its_name(agent: WeaveAgent<Seq<char>>)
    ensures
        agent.name matches Some(name) ==> text::trimmed(name).len() > 0 ==> {
            &&& shown_name(agent.id, agent.name) == text::trimmed(name)
            &&& (forall|i: int|
                0 <= i < text::trimmed(name).len() ==> !text::is_space(
                    #[trigger] text::trimmed(name)[i],
                )) ==> mention_of(agent) == text::trimmed(name)
            &&& (exists|i: int|
                0 <= i < text::trimmed(name).len() && text::is_space(
                    #[trigger] text::trimmed(name)[i],
                )) ==> mention_of(agent) == agent.id
        },
        agent.name is None || text::trimmed(agent.name->0).len() == 0 ==> shown_name(
            agent.id,
            agent.name,
        ) == agent.id && mention_of(agent) == agent.id,
{
}

} // verus!

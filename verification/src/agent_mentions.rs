//! What the model is told about threads of other agents that the user names.

use vstd::prelude::*;

use crate::text;

verus! {

/// A thread of an agent, by the text of its id.
#[derive(Debug, PartialEq, Eq)]
#[verifier::ext_equal]
pub struct ThreadId<S = String> {
    pub text: S,
}

impl DeepView for ThreadId {
    type V = ThreadId<Seq<char>>;

    open spec fn deep_view(&self) -> ThreadId<Seq<char>> {
        ThreadId {
            text: self.text@,
        }
    }
}

impl Clone for ThreadId {
    fn clone(&self) -> (r: ThreadId)
        ensures
            r == *self,
    {
        ThreadId {
            text: self.text.clone(),
        }
    }
}

/// A part of what the user hands in.
#[derive(Debug, PartialEq, Eq)]
#[verifier::ext_equal]
pub enum UserInput<S = String> {
    Text { text: S },
    AgentMention { alias: S, thread_id: ThreadId<S> },
    /// An image, a file, a skill.
    Other,
}

impl DeepView for UserInput {
    type V = UserInput<Seq<char>>;

    open spec fn deep_view(&self) -> UserInput<Seq<char>> {
        match *self {
            UserInput::Text { text } => UserInput::Text { text: text@ },
            UserInput::AgentMention { alias, thread_id } => UserInput::AgentMention { alias: alias@, thread_id: thread_id.deep_view() },
            UserInput::Other => UserInput::Other,
        }
    }
}

impl Clone for UserInput {
    fn clone(&self) -> (r: UserInput)
        ensures
            r == *self,
    {
        match self {
            UserInput::Text { text } => UserInput::Text { text: text.clone() },
            UserInput::AgentMention { alias, thread_id } => UserInput::AgentMention { alias: alias.clone(), thread_id: thread_id.clone() },
            UserInput::Other => UserInput::Other,
        }
    }
}

/// A part of a message to the model.
#[derive(Debug, PartialEq, Eq)]
pub enum ContentItem {
    InputText { text: String },
}

/// What goes to the model.
#[derive(Debug, PartialEq, Eq)]
pub enum ResponseItem {
    Message { role: String, content: Vec<ContentItem> },
}

/// Whether one of the mentions is of this thread.
pub open spec fn has_thread(
    mentions: Seq<(Seq<char>, Seq<char>)>,
    thread: Seq<char>,
) -> bool {
    exists|i: int| 0 <= i < mentions.len() && (#[trigger] mentions[i]).1 == thread
}

/// The threads that the inputs mention, each once, with the first alias.
pub open spec fn mentioned_threads(
    inputs: Seq<UserInput<Seq<char>>>,
) -> Seq<(Seq<char>, Seq<char>)>
    decreases inputs.len(),
{
    if inputs.len() == 0 {
        seq![]
    } else {
        let before = mentioned_threads(inputs.drop_last());
        match inputs.last() {
            UserInput::AgentMention { alias, thread_id } => if has_thread(
                before,
                thread_id.text,
            ) {
                before
            } else {
                before.push((alias, thread_id.text))
            },
            _ => before,
        }
    }
}

/// A line for each mention.
pub open spec fn mention_lines(mentions: Seq<(Seq<char>, Seq<char>)>) -> Seq<char>
    decreases mentions.len(),
{
    if mentions.len() == 0 {
        seq![]
    } else {
        let (alias, thread) = mentions.last();
        mention_lines(mentions.drop_last()) + ("- "@ + thread + " (alias: "@ + alias + ")\n"@)
    }
}

/// What the model is told about the threads.
pub open spec fn mention_instructions(mentions: Seq<(Seq<char>, Seq<char>)>) -> Seq<char> {
    "<agent_mentions>\n"@
        + "Use send_input as needed to satisfy the user's instructions for the following agent thread IDs:\n"@
        + mention_lines(mentions)
        + "You may send multiple messages to the same ID if the prompt requires it. Do not spawn agents to satisfy these mentions. If send_input fails, report the error.\n"@
        + "</agent_mentions>"@
}

fn contains_thread(mentions: &Vec<(String, String)>, thread: &str) -> (r: bool)
    ensures
        r == has_thread(mentions.deep_view(), thread@),
{
    for i in 0..mentions.len()
        invariant
            forall|j: int| 0 <= j < i ==> (#[trigger] mentions.deep_view()[j]).1 != thread@,
    {
        if text::same(mentions[i].1.as_str(), thread) {
            proof {
                assert(mentions.deep_view()[i as int].1 == thread@);
            }
            return true;
        }
    }
    false
}

fn collect_threads(inputs: &Vec<UserInput>) -> (r: Vec<(String, String)>)
    ensures
        r.deep_view() == mentioned_threads(inputs.deep_view()),
{
    let mut mentions: Vec<(String, String)> = Vec::new();
    let ghost all = inputs.deep_view();
    proof {
        assert(mentions.deep_view() =~= seq![]);
        assert(all.take(0) =~= Seq::<UserInput<Seq<char>>>::empty());
    }
    for i in 0..inputs.len()
        invariant
            all == inputs.deep_view(),
            mentions.deep_view() == mentioned_threads(all.take(i as int)),
    {
        let ghost before = mentions.deep_view();
        proof {
            assert(all.take(i + 1).drop_last() =~= all.take(i as int));
            assert(all.take(i + 1).last() == inputs@[i as int].deep_view());
        }
        match &inputs[i] {
            UserInput::AgentMention { alias, thread_id } => {
                if !contains_thread(&mentions, thread_id.text.as_str()) {
                    mentions.push((alias.clone(), thread_id.text.clone()));
                    proof {
                        assert(mentions.deep_view() =~= before.push((alias@, thread_id.text@)));
                    }
                }
            },
            _ => {},
        }
    }
    proof {
        assert(all.take(all.len() as int) =~= all);
    }
    mentions
}

/// Whether an item is one message of the developer with one text.
pub open spec fn is_developer_text(item: ResponseItem, message: Seq<char>) -> bool {
    match item {
        ResponseItem::Message { role, content } => role@ == "developer"@ && content@.len() == 1
            && content@[0]->text@ == message,
    }
}

/// What the model is told about the threads that the inputs mention, if they
/// mention any.
pub fn build_agent_mention_instructions(inputs: &Vec<UserInput>) -> (r: Option<ResponseItem>)
    ensures
        ({
            let mentions = mentioned_threads(inputs.deep_view());
            match r {
                Some(item) => mentions.len() > 0 && is_developer_text(
                    item,
                    mention_instructions(mentions),
                ),
                None => mentions.len() == 0,
            }
        }),
{
    let mentions = collect_threads(inputs);
    if mentions.len() == 0 {
        return None;
    }
    let ghost all = mentions.deep_view();
    let mut list = String::new();
    proof {
        assert(all.take(0) =~= Seq::<(Seq<char>, Seq<char>)>::empty());
        assert(list@ =~= Seq::<char>::empty());
    }
    for i in 0..mentions.len()
        invariant
            all == mentions.deep_view(),
            list@ == mention_lines(all.take(i as int)),
    {
        proof {
            assert(all.take(i + 1).drop_last() =~= all.take(i as int));
            assert(all.take(i + 1).last() == (mentions@[i as int].0@, mentions@[i as int].1@));
        }
        let mut line = text::concat3("- ", mentions[i].1.as_str(), " (alias: ");
        line.append(mentions[i].0.as_str());
        line.append(")\n");
        list.append(line.as_str());
    }
    proof {
        assert(all.take(all.len() as int) =~= all);
    }
    let mut message = text::concat3(
        "<agent_mentions>\n",
        "Use send_input as needed to satisfy the user's instructions for the following agent thread IDs:\n",
        list.as_str(),
    );
    message.append(
        "You may send multiple messages to the same ID if the prompt requires it. Do not spawn agents to satisfy these mentions. If send_input fails, report the error.\n",
    );
    message.append("</agent_mentions>");
    let mut content: Vec<ContentItem> = Vec::new();
    content.push(ContentItem::InputText { text: message });
    Some(ResponseItem::Message { role: "developer".to_owned(), content })
}

/// No thread is listed twice.
pub proof fn law_each_thread_is_listed_once(inputs: Seq<UserInput<Seq<char>>>)
    ensures
        ({
            let mentions = mentioned_threads(inputs);
            forall|i: int, j: int|
                0 <= i < j < mentions.len() ==> (#[trigger] mentions[i]).1 != (
                #[trigger] mentions[j]).1
        }),
    decreases inputs.len(),
{
    if inputs.len() > 0 {
        law_each_thread_is_listed_once(inputs.drop_last());
        let before = mentioned_threads(inputs.drop_last());
        let mentions = mentioned_threads(inputs);
        assert forall|i: int, j: int| 0 <= i < j < mentions.len() implies (
        #[trigger] mentions[i]).1 != (#[trigger] mentions[j]).1 by {
            assert(mentions[i] == before[i]);
            if j < before.len() {
                assert(mentions[j] == before[j]);
            }
        }
    }
}

/// Each mention of a thread that was not named before is listed, behind those before it;
/// nothing else is.
pub proof fn law_each_mention_is_listed(
    inputs: Seq<UserInput<Seq<char>>>,
    alias: Seq<char>,
    thread: Seq<char>,
    said: Seq<char>,
)
    ensures
        mentioned_threads(seq![]).len() == 0,
        mentioned_threads(inputs.push(UserInput::Text { text: said })) == mentioned_threads(inputs),
        mentioned_threads(inputs.push(UserInput::Other)) == mentioned_threads(inputs),
        ({
            let more = inputs.push(
                UserInput::AgentMention { alias, thread_id: ThreadId { text: thread } },
            );
            if exists|i: int|
                0 <= i < mentioned_threads(inputs).len() && (#[trigger] mentioned_threads(
                    inputs,
                )[i]).1 == thread {
                mentioned_threads(more) == mentioned_threads(inputs)
            } else {
                mentioned_threads(more) == mentioned_threads(inputs).push((alias, thread))
            }
        }),
{
    assert(inputs.push(UserInput::Text { text: said }).drop_last() =~= inputs);
    assert(inputs.push(UserInput::Other).drop_last() =~= inputs);
    assert(inputs.push(
        UserInput::AgentMention { alias, thread_id: ThreadId { text: thread } },
    ).drop_last() =~= inputs);
}

/// The model is told of every mention on a line of its own.
pub proof fn law_the_model_is_told_of_each_mention(
    mentions: Seq<(Seq<char>, Seq<char>)>,
    alias: Seq<char>,
    thread: Seq<char>,
)
    ensures
        mention_lines(seq![]).len() == 0,
        mention_lines(mentions.push((alias, thread))) == mention_lines(mentions) + "- "@ + thread
            + " (alias: "@ + alias + ")\n"@,
{
    assert(mentions.push((alias, thread)).drop_last() =~= mentions);
    assert(mention_lines(mentions) + ("- "@ + thread + " (alias: "@ + alias + ")\n"@)
        =~= mention_lines(mentions) + "- "@ + thread + " (alias: "@ + alias + ")\n"@);
}

} // verus!

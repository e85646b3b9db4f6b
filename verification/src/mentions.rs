//! Agents that a text names, and commands to them.

use vstd::prelude::*;

use crate::client;
use crate::client::{WeaveAgent, WeaveTool};
use crate::outside;
use crate::prompts;
use crate::text;

verus! {

// ---------------------------------------------------------------------------
// How an agent is named
// ---------------------------------------------------------------------------

/// How many agents the text `mention` would name.
pub open spec fn mention_count(agents: Seq<WeaveAgent<Seq<char>>>, mention: Seq<char>) -> nat
    decreases agents.len(),
{
    if agents.len() == 0 {
        0
    } else if client::mention_of(agents.last()) == mention {
        mention_count(agents.drop_last(), mention) + 1
    } else {
        mention_count(agents.drop_last(), mention)
    }
}

/// The text that names `agent` among `agents`: its mention, unless another
/// agent has the same one, else its id.
pub open spec fn mention_token(
    agents: Seq<WeaveAgent<Seq<char>>>,
    agent: WeaveAgent<Seq<char>>,
) -> Seq<char> {
    if mention_count(agents, client::mention_of(agent)) > 1 {
        agent.id
    } else {
        client::mention_of(agent)
    }
}

/// The agent that `mention` names among the first `n`: the last one with that
/// token.
pub open spec fn mentioned_among(
    agents: Seq<WeaveAgent<Seq<char>>>,
    n: nat,
    mention: Seq<char>,
) -> Option<WeaveAgent<Seq<char>>>
    decreases n,
{
    if n == 0 {
        None
    } else if mention_token(agents, agents[n - 1]) == mention {
        Some(agents[n - 1])
    } else {
        mentioned_among(agents, (n - 1) as nat, mention)
    }
}

/// The agent that `mention` names: by its token, or else by its id.
pub open spec fn mentioned(
    agents: Seq<WeaveAgent<Seq<char>>>,
    mention: Seq<char>,
) -> Option<WeaveAgent<Seq<char>>> {
    match mentioned_among(agents, agents.len(), mention) {
        Some(agent) => Some(agent),
        None => prompts::agent_with_id(agents, mention),
    }
}

/// How many agents the text `mention` would name.
fn weave_mention_count(agents: &Vec<WeaveAgent>, mention: &str) -> (r: usize)
    ensures
        r == mention_count(agents.deep_view(), mention@),
{
    let ghost all = agents.deep_view();
    let mut count: usize = 0;
    proof {
        assert(all.take(0) =~= Seq::<WeaveAgent<Seq<char>>>::empty());
    }
    for i in 0..agents.len()
        invariant
            all == agents.deep_view(),
            count <= i,
            count == mention_count(all.take(i as int), mention@),
    {
        proof {
            assert(all.take(i + 1).drop_last() =~= all.take(i as int));
            assert(all.take(i + 1).last() == agents@[i as int].deep_view());
        }
        if text::same(agents[i].mention_text().as_str(), mention) {
            count = count + 1;
        }
    }
    proof {
        assert(all.take(all.len() as int) =~= all);
    }
    count
}

/// The text that names `agent` among `agents`.
pub fn weave_mention_token(agents: &Vec<WeaveAgent>, agent: &WeaveAgent) -> (r: String)
    ensures
        r@ == mention_token(agents.deep_view(), agent.deep_view()),
{
    let mention = agent.mention_text();
    if weave_mention_count(agents, mention.as_str()) > 1 {
        agent.id.clone()
    } else {
        mention
    }
}

/// The tokens of all agents, in their order.
pub open spec fn mention_tokens(agents: Seq<WeaveAgent<Seq<char>>>) -> Seq<Seq<char>> {
    Seq::new(agents.len(), |i: int| mention_token(agents, agents[i]))
}

/// The tokens of all agents, in their order.
pub fn weave_mention_tokens(agents: &Vec<WeaveAgent>) -> (r: Vec<String>)
    ensures
        text::views(r@) == mention_tokens(agents.deep_view()),
{
    let mut r: Vec<String> = Vec::new();
    for i in 0..agents.len()
        invariant
            r@.len() == i,
            forall|j: int|
                0 <= j < i ==> #[trigger] r@[j]@ == mention_tokens(agents.deep_view())[j],
    {
        r.push(weave_mention_token(agents, &agents[i]));
    }
    proof {
        assert(text::views(r@) =~= mention_tokens(agents.deep_view()));
    }
    r
}

/// The agents, and beside each the token that names it.
pub struct MentionLookup<'a> {
    agents: &'a Vec<WeaveAgent>,
    tokens: Vec<String>,
}

impl<'a> View for MentionLookup<'a> {
    type V = Seq<WeaveAgent<Seq<char>>>;

    closed spec fn view(&self) -> Seq<WeaveAgent<Seq<char>>> {
        self.agents.deep_view()
    }
}

impl<'a> MentionLookup<'a> {
    /// The tokens are those of the agents.
    pub closed spec fn well_formed(&self) -> bool {
        text::views(self.tokens@) == mention_tokens(self@)
    }

    /// A lookup among `agents`.
    pub fn new(agents: &'a Vec<WeaveAgent>) -> (r: MentionLookup<'a>)
        ensures
            r.well_formed(),
            r@ == agents.deep_view(),
    {
        MentionLookup { agents, tokens: weave_mention_tokens(agents) }
    }

    /// The agent that `mention` names.
    pub fn get(&self, mention: &str) -> (r: Option<&'a WeaveAgent>)
        requires
            self.well_formed(),
        ensures
            r.deep_view() == mentioned(self@, mention@),
    {
        let ghost all = self@;
        proof {
            assert(text::views(self.tokens@).len() == all.len());
        }
        let mut n: usize = self.agents.len();
        while n > 0
            invariant
                self.well_formed(),
                all == self@,
                all == self.agents.deep_view(),
                text::views(self.tokens@) == mention_tokens(all),
                self.tokens@.len() == all.len(),
                n <= all.len(),
                mentioned_among(all, all.len(), mention@) == mentioned_among(
                    all,
                    n as nat,
                    mention@,
                ),
            decreases n,
        {
            n = n - 1;
            proof {
                assert(text::views(self.tokens@)[n as int] == self.tokens@[n as int]@);
                assert(mention_tokens(all)[n as int] == mention_token(all, all[n as int]));
            }
            if text::same(self.tokens[n].as_str(), mention) {
                return Some(&self.agents[n]);
            }
        }
        prompts::find_listed_agent(self.agents, mention)
    }
}

// ---------------------------------------------------------------------------
// Who is named
// ---------------------------------------------------------------------------

/// The word behind the `#` of a mention: at least one character.
pub open spec fn mention_in(token: Seq<char>) -> Option<Seq<char>> {
    if token.len() > 1 && token[0] == '#' {
        Some(token.skip(1))
    } else {
        None
    }
}

/// Whether `targets` holds the agent with this id.
pub open spec fn has_agent(targets: Seq<WeaveAgent<Seq<char>>>, id: Seq<char>) -> bool {
    exists|i: int| 0 <= i < targets.len() && (#[trigger] targets[i]).id == id
}

/// `targets` with the agent that `token` mentions, unless it mentions none, this
/// agent itself, or one that is there.
pub open spec fn with_mention(
    targets: Seq<WeaveAgent<Seq<char>>>,
    token: Seq<char>,
    agents: Seq<WeaveAgent<Seq<char>>>,
    own_id: Option<Seq<char>>,
) -> Seq<WeaveAgent<Seq<char>>> {
    match mention_in(token) {
        Some(mention) => match mentioned(agents, mention) {
            Some(agent) => if own_id == Some(agent.id) || has_agent(targets, agent.id) {
                targets
            } else {
                targets.push(agent)
            },
            None => targets,
        },
        None => targets,
    }
}

/// The agents that the words mention, each once, in the order of their first
/// mention.
pub open spec fn mentioned_agents(
    tokens: Seq<Seq<char>>,
    agents: Seq<WeaveAgent<Seq<char>>>,
    own_id: Option<Seq<char>>,
) -> Seq<WeaveAgent<Seq<char>>>
    decreases tokens.len(),
{
    if tokens.len() == 0 {
        seq![]
    } else {
        with_mention(
            mentioned_agents(tokens.drop_last(), agents, own_id),
            tokens.last(),
            agents,
            own_id,
        )
    }
}

fn read_mention(token: &str) -> (r: Option<&str>)
    ensures
        r.deep_view() == mention_in(token@),
{
    let n: usize = token.unicode_len();
    if n > 1 && token.get_char(0) == '#' {
        proof {
            assert(token@.subrange(1, n as int) =~= token@.skip(1));
        }
        Some(token.substring_char(1, n))
    } else {
        None
    }
}

/// Whether `agents` holds the agent with this id.
pub fn contains_agent(agents: &Vec<WeaveAgent>, id: &str) -> (r: bool)
    ensures
        r == has_agent(agents.deep_view(), id@),
{
    for i in 0..agents.len()
        invariant
            forall|j: int| 0 <= j < i ==> (#[trigger] agents.deep_view()[j]).id != id@,
    {
        if text::same(agents[i].id.as_str(), id) {
            proof {
                assert(agents.deep_view()[i as int].id == id@);
            }
            return true;
        }
    }
    false
}

fn is_own(own_id: Option<&str>, id: &str) -> (r: bool)
    ensures
        r == (own_id.deep_view() == Some(id@)),
{
    match own_id {
        Some(own_id) => text::same(own_id, id),
        None => false,
    }
}

fn add_mention(
    targets: &mut Vec<WeaveAgent>,
    token: &str,
    lookup: &MentionLookup<'_>,
    own_id: Option<&str>,
)
    requires
        lookup.well_formed(),
    ensures
        final(targets).deep_view() == with_mention(
            old(targets).deep_view(),
            token@,
            lookup@,
            own_id.deep_view(),
        ),
{
    let mention = match read_mention(token) {
        Some(mention) => mention,
        None => return,
    };
    let agent = match lookup.get(mention) {
        Some(agent) => agent,
        None => return,
    };
    if is_own(own_id, agent.id.as_str()) || contains_agent(targets, agent.id.as_str()) {
        return;
    }
    targets.push(agent.clone());
    proof {
        assert(targets.deep_view() =~= old(targets).deep_view().push(agent.deep_view()));
    }
}

fn collect_mentions(
    tokens: &Vec<String>,
    upto: usize,
    lookup: &MentionLookup<'_>,
    own_id: Option<&str>,
) -> (r: Vec<WeaveAgent>)
    requires
        lookup.well_formed(),
        upto <= tokens@.len(),
    ensures
        r.deep_view() == mentioned_agents(
            text::views(tokens@).take(upto as int),
            lookup@,
            own_id.deep_view(),
        ),
{
    let mut targets: Vec<WeaveAgent> = Vec::new();
    let ghost words = text::views(tokens@);
    proof {
        assert(targets.deep_view() =~= seq![]);
        assert(words.take(0) =~= Seq::<Seq<char>>::empty());
    }
    for i in 0..upto
        invariant
            lookup.well_formed(),
            upto <= tokens@.len(),
            words == text::views(tokens@),
            targets.deep_view() == mentioned_agents(
                words.take(i as int),
                lookup@,
                own_id.deep_view(),
            ),
    {
        proof {
            assert(words.take(i + 1).drop_last() =~= words.take(i as int));
            assert(words.take(i + 1).last() == tokens@[i as int]@);
        }
        add_mention(&mut targets, tokens[i].as_str(), lookup, own_id);
    }
    targets
}

/// The agents other than this one that the words of `message` mention.
pub fn find_weave_mentions(
    message: &str,
    agents: &Vec<WeaveAgent>,
    own_id: Option<&str>,
) -> (r: Vec<WeaveAgent>)
    ensures
        r.deep_view() == mentioned_agents(
            text::words(message@),
            agents.deep_view(),
            own_id.deep_view(),
        ),
{
    let tokens = text::split_words(message);
    let lookup = MentionLookup::new(agents);
    proof {
        assert(text::views(tokens@).take(tokens@.len() as int) =~= text::views(tokens@));
    }
    collect_mentions(&tokens, tokens.len(), &lookup, own_id)
}

// ---------------------------------------------------------------------------
// Commands to agents
// ---------------------------------------------------------------------------

/// A command, and the agents it goes to.
#[derive(Debug, PartialEq, Eq)]
pub struct WeaveControlAction {
    pub targets: Vec<WeaveAgent>,
    pub tool: WeaveTool,
}

/// The mathematical value of a `WeaveControlAction`.
#[verifier::ext_equal]
pub struct ControlActionView {
    pub targets: Seq<WeaveAgent<Seq<char>>>,
    pub tool: WeaveTool<Seq<char>>,
}

impl DeepView for WeaveControlAction {
    type V = ControlActionView;

    open spec fn deep_view(&self) -> ControlActionView {
        ControlActionView { targets: self.targets.deep_view(), tool: self.tool.deep_view() }
    }
}

/// What a line of a message is.
#[verifier::ext_equal]
pub enum LineView {
    /// White space.
    Blank,
    /// Commands, each behind the agents it goes to.
    Commands(Seq<ControlActionView>),
    /// Anything else.
    Prose,
}

/// The command that a word is, other than a review.
pub open spec fn plain_command(token: Seq<char>) -> Option<WeaveTool<Seq<char>>> {
    if token == "/new"@ {
        Some(WeaveTool::NewSession)
    } else if token == "/compact"@ {
        Some(WeaveTool::Compact)
    } else if token == "/interrupt"@ {
        Some(WeaveTool::Interrupt)
    } else {
        None
    }
}

/// Whether a word is a command.
pub open spec fn is_command(token: Seq<char>) -> bool {
    plain_command(token) is Some || token == "/review"@
}

/// Whether one of the words is a command.
pub open spec fn has_command(tokens: Seq<Seq<char>>) -> bool {
    exists|i: int| 0 <= i < tokens.len() && is_command(#[trigger] tokens[i])
}

/// The place of the first `/review` among the words, or their number.
pub open spec fn review_at(tokens: Seq<Seq<char>>) -> int
    decreases tokens.len(),
{
    if tokens.len() == 0 {
        0
    } else if tokens[0] == "/review"@ {
        0
    } else {
        1 + review_at(tokens.subrange(1, tokens.len() as int))
    }
}

/// Whether every word is a mention.
pub open spec fn all_mentions(tokens: Seq<Seq<char>>) -> bool {
    forall|i: int| 0 <= i < tokens.len() ==> mention_in(#[trigger] tokens[i]) is Some
}

/// Whether a word begins with `#`.
pub open spec fn is_marked(token: Seq<char>) -> bool {
    token.len() > 0 && token[0] == '#'
}

/// Whether one of the words begins with `#`.
pub open spec fn has_mark(tokens: Seq<Seq<char>>) -> bool {
    exists|i: int| 0 <= i < tokens.len() && is_marked(#[trigger] tokens[i])
}

/// A line with `/review` at `at`: mentions of at least one agent before it, and
/// instructions without a mention behind it.
pub open spec fn review_line(
    tokens: Seq<Seq<char>>,
    at: int,
    agents: Seq<WeaveAgent<Seq<char>>>,
    own_id: Option<Seq<char>>,
) -> LineView {
    let targets = mentioned_agents(tokens.take(at), agents, own_id);
    let rest = tokens.skip(at + 1);
    if all_mentions(tokens.take(at)) && targets.len() > 0 && !has_mark(rest) {
        LineView::Commands(
            seq![
                ControlActionView {
                    targets,
                    tool: WeaveTool::Review {
                        instructions: text::present(Some(text::joined(rest, " "@))),
                    },
                },
            ],
        )
    } else {
        LineView::Prose
    }
}

/// What the words say so far, as long as each is a mention or a command behind
/// at least one agent: the agents that wait for a command, and the commands.
pub open spec fn read_commands(
    tokens: Seq<Seq<char>>,
    agents: Seq<WeaveAgent<Seq<char>>>,
    own_id: Option<Seq<char>>,
) -> Option<(Seq<WeaveAgent<Seq<char>>>, Seq<ControlActionView>)>
    decreases tokens.len(),
{
    if tokens.len() == 0 {
        Some((seq![], seq![]))
    } else {
        match read_commands(tokens.drop_last(), agents, own_id) {
            Some((waiting, actions)) => {
                let token = tokens.last();
                if is_marked(token) {
                    if mention_in(token) is Some {
                        Some((with_mention(waiting, token, agents, own_id), actions))
                    } else {
                        None
                    }
                } else {
                    match plain_command(token) {
                        Some(tool) => if waiting.len() > 0 {
                            Some((seq![], actions.push(ControlActionView { targets: waiting, tool })))
                        } else {
                            None
                        },
                        None => None,
                    }
                }
            },
            None => None,
        }
    }
}

/// What a line with these words is.
pub open spec fn line_of(
    tokens: Seq<Seq<char>>,
    agents: Seq<WeaveAgent<Seq<char>>>,
    own_id: Option<Seq<char>>,
) -> LineView {
    let at = review_at(tokens);
    if tokens.len() == 0 {
        LineView::Blank
    } else if !has_command(tokens) {
        LineView::Prose
    } else if at < tokens.len() {
        if has_command(tokens.take(at)) {
            LineView::Prose
        } else {
            review_line(tokens, at, agents, own_id)
        }
    } else {
        match read_commands(tokens, agents, own_id) {
            Some((waiting, actions)) => if waiting.len() == 0 && actions.len() > 0 {
                LineView::Commands(actions)
            } else {
                LineView::Prose
            },
            None => LineView::Prose,
        }
    }
}

/// The commands of the lines, or nothing where a line is neither blank nor
/// commands.
pub open spec fn commands_in(
    lines: Seq<Seq<char>>,
    agents: Seq<WeaveAgent<Seq<char>>>,
    own_id: Option<Seq<char>>,
) -> Option<Seq<ControlActionView>>
    decreases lines.len(),
{
    if lines.len() == 0 {
        Some(seq![])
    } else {
        match (
            commands_in(lines.drop_last(), agents, own_id),
            line_of(text::words(lines.last()), agents, own_id),
        ) {
            (Some(actions), LineView::Blank) => Some(actions),
            (Some(actions), LineView::Commands(more)) => Some(actions + more),
            _ => None,
        }
    }
}

/// The commands of a message and what is left of its text: a message of nothing
/// but commands leaves no text, any other stays as it is.
pub open spec fn control_actions(
    message: Seq<char>,
    agents: Seq<WeaveAgent<Seq<char>>>,
    own_id: Option<Seq<char>>,
) -> (Seq<ControlActionView>, Seq<char>) {
    match commands_in(text::lines(message), agents, own_id) {
        Some(actions) => (actions, seq![]),
        None => (seq![], message),
    }
}

fn read_plain_command(token: &str) -> (r: Option<WeaveTool>)
    ensures
        r.deep_view() == plain_command(token@),
{
    if text::same(token, "/new") {
        Some(WeaveTool::NewSession)
    } else if text::same(token, "/compact") {
        Some(WeaveTool::Compact)
    } else if text::same(token, "/interrupt") {
        Some(WeaveTool::Interrupt)
    } else {
        None
    }
}

fn is_command_token(token: &str) -> (r: bool)
    ensures
        r == is_command(token@),
{
    read_plain_command(token).is_some() || text::same(token, "/review")
}

fn any_command(tokens: &Vec<String>, upto: usize) -> (r: bool)
    requires
        upto <= tokens@.len(),
    ensures
        r == has_command(text::views(tokens@).take(upto as int)),
{
    let ghost words = text::views(tokens@).take(upto as int);
    for i in 0..upto
        invariant
            upto <= tokens@.len(),
            words == text::views(tokens@).take(upto as int),
            forall|j: int| 0 <= j < i ==> !is_command(#[trigger] words[j]),
    {
        proof {
            assert(words[i as int] == tokens@[i as int]@);
        }
        if is_command_token(tokens[i].as_str()) {
            return true;
        }
    }
    false
}

proof fn lemma_review_at(tokens: Seq<Seq<char>>, n: int)
    requires
        0 <= n <= tokens.len(),
        forall|i: int| 0 <= i < n ==> #[trigger] tokens[i] != "/review"@,
        n < tokens.len() ==> tokens[n] == "/review"@,
    ensures
        review_at(tokens) == n,
    decreases tokens.len(),
{
    if n > 0 {
        let rest = tokens.subrange(1, tokens.len() as int);
        assert forall|i: int| 0 <= i < n - 1 implies #[trigger] rest[i] != "/review"@ by {
            assert(rest[i] == tokens[i + 1]);
        }
        lemma_review_at(rest, n - 1);
        assert(tokens[0] != "/review"@);
    }
}

fn find_review(tokens: &Vec<String>) -> (n: usize)
    ensures
        n <= tokens@.len(),
        n == review_at(text::views(tokens@)),
{
    let ghost words = text::views(tokens@);
    let mut n: usize = 0;
    while n < tokens.len() && !text::same(tokens[n].as_str(), "/review")
        invariant
            n <= tokens@.len(),
            words == text::views(tokens@),
            forall|i: int| 0 <= i < n ==> #[trigger] words[i] != "/review"@,
        decreases tokens@.len() - n,
    {
        proof {
            assert(words[n as int] == tokens@[n as int]@);
        }
        n = n + 1;
    }
    proof {
        if n < tokens@.len() {
            assert(words[n as int] == tokens@[n as int]@);
        }
        lemma_review_at(words, n as int);
    }
    n
}

fn are_mentions(tokens: &Vec<String>, upto: usize) -> (r: bool)
    requires
        upto <= tokens@.len(),
    ensures
        r == all_mentions(text::views(tokens@).take(upto as int)),
{
    let ghost words = text::views(tokens@).take(upto as int);
    for i in 0..upto
        invariant
            upto <= tokens@.len(),
            words == text::views(tokens@).take(upto as int),
            forall|j: int| 0 <= j < i ==> mention_in(#[trigger] words[j]) is Some,
    {
        proof {
            assert(words[i as int] == tokens@[i as int]@);
        }
        if read_mention(tokens[i].as_str()).is_none() {
            proof {
                assert(mention_in(words[i as int]) is None);
            }
            return false;
        }
    }
    true
}

fn has_hash(token: &str) -> (r: bool)
    ensures
        r == is_marked(token@),
{
    token.unicode_len() > 0 && token.get_char(0) == '#'
}

/// The words from `from` on.
fn words_from(tokens: &Vec<String>, from: usize) -> (r: Vec<String>)
    requires
        from <= tokens@.len(),
    ensures
        text::views(r@) == text::views(tokens@).skip(from as int),
{
    let mut r: Vec<String> = Vec::new();
    for i in from..tokens.len()
        invariant
            from <= i <= tokens@.len(),
            r@ == tokens@.subrange(from as int, i as int),
    {
        r.push(tokens[i].clone());
        proof {
            assert(tokens@.subrange(from as int, i + 1) =~= tokens@.subrange(
                from as int,
                i as int,
            ).push(tokens@[i as int]));
        }
    }
    proof {
        assert(text::views(r@) =~= text::views(tokens@).skip(from as int));
    }
    r
}

fn any_mark(tokens: &Vec<String>) -> (r: bool)
    ensures
        r == has_mark(text::views(tokens@)),
{
    let ghost words = text::views(tokens@);
    for i in 0..tokens.len()
        invariant
            words == text::views(tokens@),
            forall|j: int| 0 <= j < i ==> !is_marked(#[trigger] words[j]),
    {
        proof {
            assert(words[i as int] == tokens@[i as int]@);
        }
        if has_hash(tokens[i].as_str()) {
            return true;
        }
    }
    false
}

/// A line of a message, read.
enum Line {
    Blank,
    Commands(Vec<WeaveControlAction>),
    Prose,
}

impl Line {
    spec fn line_view(self) -> LineView {
        match self {
            Line::Blank => LineView::Blank,
            Line::Commands(actions) => LineView::Commands(actions.deep_view()),
            Line::Prose => LineView::Prose,
        }
    }
}

fn read_review_line(
    tokens: &Vec<String>,
    at: usize,
    lookup: &MentionLookup<'_>,
    own_id: Option<&str>,
) -> (r: Line)
    requires
        lookup.well_formed(),
        at < tokens@.len(),
    ensures
        r.line_view() == review_line(
            text::views(tokens@),
            at as int,
            lookup@,
            own_id.deep_view(),
        ),
{
    let targets = collect_mentions(tokens, at, lookup, own_id);
    let len: usize = tokens.len();
    assert(at + 1 <= len);
    let rest = words_from(tokens, at + 1);
    if are_mentions(tokens, at) && targets.len() > 0 && !any_mark(&rest) {
        let args = text::join(&rest, " ");
        let instructions = text::trim(args.as_str());
        let instructions = if instructions.is_empty() {
            None
        } else {
            Some(instructions.to_owned())
        };
        let mut actions: Vec<WeaveControlAction> = Vec::new();
        let action = WeaveControlAction { targets, tool: WeaveTool::Review { instructions } };
        let ghost view = action.deep_view();
        actions.push(action);
        proof {
            assert(actions.deep_view() =~= seq![view]);
        }
        Line::Commands(actions)
    } else {
        Line::Prose
    }
}

proof fn lemma_commands_stop(
    tokens: Seq<Seq<char>>,
    n: int,
    agents: Seq<WeaveAgent<Seq<char>>>,
    own_id: Option<Seq<char>>,
)
    requires
        0 <= n <= tokens.len(),
        read_commands(tokens.take(n), agents, own_id) is None,
    ensures
        read_commands(tokens, agents, own_id) is None,
    decreases tokens.len() - n,
{
    if n < tokens.len() {
        assert(tokens.take(n + 1).drop_last() =~= tokens.take(n));
        lemma_commands_stop(tokens, n + 1, agents, own_id);
    } else {
        assert(tokens.take(n) =~= tokens);
    }
}

fn read_command_line(
    tokens: &Vec<String>,
    lookup: &MentionLookup<'_>,
    own_id: Option<&str>,
) -> (r: Line)
    requires
        lookup.well_formed(),
    ensures
        r.line_view() == (match read_commands(
            text::views(tokens@),
            lookup@,
            own_id.deep_view(),
        ) {
            Some((waiting, actions)) => if waiting.len() == 0 && actions.len() > 0 {
                LineView::Commands(actions)
            } else {
                LineView::Prose
            },
            None => LineView::Prose,
        }),
{
    let ghost words = text::views(tokens@);
    let ghost own = own_id.deep_view();
    let mut waiting: Vec<WeaveAgent> = Vec::new();
    let mut actions: Vec<WeaveControlAction> = Vec::new();
    proof {
        assert(waiting.deep_view() =~= seq![]);
        assert(actions.deep_view() =~= seq![]);
        assert(words.take(0) =~= Seq::<Seq<char>>::empty());
    }
    for i in 0..tokens.len()
        invariant
            lookup.well_formed(),
            words == text::views(tokens@),
            own == own_id.deep_view(),
            read_commands(words.take(i as int), lookup@, own) == Some(
                (waiting.deep_view(), actions.deep_view()),
            ),
    {
        let token = tokens[i].as_str();
        let ghost waiting0 = waiting.deep_view();
        let ghost actions0 = actions.deep_view();
        proof {
            assert(words.take(i + 1).drop_last() =~= words.take(i as int));
            assert(words.take(i + 1).last() == token@);
        }
        if has_hash(token) {
            if read_mention(token).is_none() {
                proof {
                    lemma_commands_stop(words, i + 1, lookup@, own);
                }
                return Line::Prose;
            }
            add_mention(&mut waiting, token, lookup, own_id);
        } else {
            match read_plain_command(token) {
                Some(tool) => {
                    if waiting.len() == 0 {
                        proof {
                            lemma_commands_stop(words, i + 1, lookup@, own);
                        }
                        return Line::Prose;
                    }
                    let action = WeaveControlAction { targets: waiting, tool };
                    let ghost view = action.deep_view();
                    actions.push(action);
                    waiting = Vec::new();
                    proof {
                        assert(actions.deep_view() =~= actions0.push(view));
                        assert(waiting.deep_view() =~= seq![]);
                    }
                },
                None => {
                    proof {
                        lemma_commands_stop(words, i + 1, lookup@, own);
                    }
                    return Line::Prose;
                },
            }
        }
    }
    proof {
        assert(words.take(words.len() as int) =~= words);
    }
    if waiting.len() == 0 && actions.len() > 0 {
        Line::Commands(actions)
    } else {
        Line::Prose
    }
}

fn read_line(line: &str, lookup: &MentionLookup<'_>, own_id: Option<&str>) -> (r: Line)
    requires
        lookup.well_formed(),
    ensures
        r.line_view() == line_of(text::words(line@), lookup@, own_id.deep_view()),
{
    let tokens = text::split_words(line);
    proof {
        assert(text::views(tokens@).take(tokens@.len() as int) =~= text::views(tokens@));
    }
    if tokens.len() == 0 {
        return Line::Blank;
    }
    if !any_command(&tokens, tokens.len()) {
        return Line::Prose;
    }
    let at: usize = find_review(&tokens);
    if at < tokens.len() {
        if any_command(&tokens, at) {
            Line::Prose
        } else {
            read_review_line(&tokens, at, lookup, own_id)
        }
    } else {
        read_command_line(&tokens, lookup, own_id)
    }
}

proof fn lemma_prose_stops(
    lines: Seq<Seq<char>>,
    n: int,
    agents: Seq<WeaveAgent<Seq<char>>>,
    own_id: Option<Seq<char>>,
)
    requires
        0 <= n <= lines.len(),
        commands_in(lines.take(n), agents, own_id) is None,
    ensures
        commands_in(lines, agents, own_id) is None,
    decreases lines.len() - n,
{
    if n < lines.len() {
        assert(lines.take(n + 1).drop_last() =~= lines.take(n));
        lemma_prose_stops(lines, n + 1, agents, own_id);
    } else {
        assert(lines.take(n) =~= lines);
    }
}

/// The commands of a message to other agents, and what is left of its text.
pub fn parse_weave_control_actions(
    message: &str,
    agents: &Vec<WeaveAgent>,
    own_id: Option<&str>,
) -> (r: (Vec<WeaveControlAction>, String))
    ensures
        (r.0.deep_view(), r.1@) == control_actions(
            message@,
            agents.deep_view(),
            own_id.deep_view(),
        ),
{
    let lines = text::split_lines(message);
    let lookup = MentionLookup::new(agents);
    let ghost all = text::views(lines@);
    let ghost own = own_id.deep_view();
    let mut actions: Vec<WeaveControlAction> = Vec::new();
    proof {
        assert(actions.deep_view() =~= seq![]);
        assert(all.take(0) =~= Seq::<Seq<char>>::empty());
    }
    for i in 0..lines.len()
        invariant
            lookup.well_formed(),
            lookup@ == agents.deep_view(),
            all == text::views(lines@),
            all == text::lines(message@),
            own == own_id.deep_view(),
            commands_in(all.take(i as int), lookup@, own) == Some(actions.deep_view()),
    {
        proof {
            assert(all.take(i + 1).drop_last() =~= all.take(i as int));
            assert(all.take(i + 1).last() == lines@[i as int]@);
        }
        let ghost before = actions.deep_view();
        match read_line(lines[i].as_str(), &lookup, own_id) {
            Line::Blank => {},
            Line::Commands(more) => {
                let ghost views = more.deep_view();
                let mut more = more;
                actions.append(&mut more);
                proof {
                    assert(actions.deep_view() =~= before + views);
                }
            },
            Line::Prose => {
                proof {
                    lemma_prose_stops(all, i + 1, lookup@, own);
                }
                let none: Vec<WeaveControlAction> = Vec::new();
                proof {
                    assert(none.deep_view() =~= seq![]);
                }
                return (none, message.to_owned());
            },
        }
    }
    proof {
        assert(all.take(all.len() as int) =~= all);
    }
    (actions, String::new())
}

// ---------------------------------------------------------------------------
// Agents that a model names
// ---------------------------------------------------------------------------

/// `s` without the `#`s at its start.
pub open spec fn without_marks(s: Seq<char>) -> Seq<char>
    decreases s.len(),
{
    if s.len() > 0 && s[0] == '#' {
        without_marks(s.subrange(1, s.len() as int))
    } else {
        s
    }
}

/// The characters of `s` other than white space.
pub open spec fn solid(s: Seq<char>) -> Seq<char>
    decreases s.len(),
{
    if s.len() == 0 {
        seq![]
    } else if text::is_space(s.last()) {
        solid(s.drop_last())
    } else {
        solid(s.drop_last()).push(s.last())
    }
}

/// What a label says of an agent: no `#` before it, no bracket behind it, and no
/// white space in it.
pub open spec fn plain_label(label: Seq<char>) -> Seq<char> {
    let label = without_marks(text::trimmed(label));
    solid(
        match text::split_at_first(label, '(') {
            Some((head, _)) => head,
            None => label,
        },
    )
}

/// `found`, and the agent behind them unless it is there.
pub open spec fn with_agent(
    found: Seq<WeaveAgent<Seq<char>>>,
    agent: WeaveAgent<Seq<char>>,
) -> Seq<WeaveAgent<Seq<char>>> {
    if has_agent(found, agent.id) {
        found
    } else {
        found.push(agent)
    }
}

/// Whether the name of `agent` is `label`, in letters of either case.
pub open spec fn goes_by(agent: WeaveAgent<Seq<char>>, label: Seq<char>) -> bool {
    match text::present(agent.name) {
        Some(name) => plain_label(name).len() > 0 && outside::lower_case(plain_label(name))
            == outside::lower_case(label),
        None => false,
    }
}

/// `found`, and those of the agents that go by `label`.
pub open spec fn with_name(
    found: Seq<WeaveAgent<Seq<char>>>,
    agents: Seq<WeaveAgent<Seq<char>>>,
    label: Seq<char>,
) -> Seq<WeaveAgent<Seq<char>>>
    decreases agents.len(),
{
    if agents.len() == 0 {
        found
    } else {
        let before = with_name(found, agents.drop_last(), label);
        if goes_by(agents.last(), label) {
            with_agent(before, agents.last())
        } else {
            before
        }
    }
}

/// The first agent whose id is `label`.
pub open spec fn agent_labelled(
    agents: Seq<WeaveAgent<Seq<char>>>,
    label: Seq<char>,
) -> Option<WeaveAgent<Seq<char>>>
    decreases agents.len(),
{
    if agents.len() == 0 {
        None
    } else if plain_label(agents[0].id) == label {
        Some(agents[0])
    } else {
        agent_labelled(agents.subrange(1, agents.len() as int), label)
    }
}

/// `found`, and whom `target` names: the agent with that id, else all agents of
/// that name.
pub open spec fn with_target(
    found: Seq<WeaveAgent<Seq<char>>>,
    agents: Seq<WeaveAgent<Seq<char>>>,
    target: Seq<char>,
) -> Seq<WeaveAgent<Seq<char>>> {
    let label = plain_label(target);
    if label.len() == 0 {
        found
    } else {
        match agent_labelled(agents, label) {
            Some(agent) => with_agent(found, agent),
            None => with_name(found, agents, label),
        }
    }
}

/// The agents that `targets` name, each once.
pub open spec fn resolved_targets(
    agents: Seq<WeaveAgent<Seq<char>>>,
    targets: Seq<Seq<char>>,
) -> Seq<WeaveAgent<Seq<char>>>
    decreases targets.len(),
{
    if targets.len() == 0 {
        seq![]
    } else {
        with_target(resolved_targets(agents, targets.drop_last()), agents, targets.last())
    }
}

proof fn lemma_without_marks_at(s: Seq<char>, n: int)
    requires
        0 <= n <= s.len(),
        forall|i: int| 0 <= i < n ==> #[trigger] s[i] == '#',
        n < s.len() ==> s[n] != '#',
    ensures
        without_marks(s) == s.skip(n),
    decreases s.len(),
{
    if n > 0 {
        let t = s.subrange(1, s.len() as int);
        assert forall|i: int| 0 <= i < n - 1 implies #[trigger] t[i] == '#' by {
            assert(t[i] == s[i + 1]);
        }
        lemma_without_marks_at(t, n - 1);
        assert(t.skip(n - 1) =~= s.skip(n));
        assert(s[0] == '#');
    } else {
        assert(s.skip(0) =~= s);
    }
}

fn strip_marks(s: &str) -> (r: &str)
    ensures
        r@ == without_marks(s@),
{
    let chars = text::chars_of(s);
    let mut n: usize = 0;
    while n < chars.len() && chars[n] == '#'
        invariant
            n <= chars@.len(),
            forall|i: int| 0 <= i < n ==> #[trigger] chars@[i] == '#',
        decreases chars@.len() - n,
    {
        n = n + 1;
    }
    proof {
        lemma_without_marks_at(s@, n as int);
        assert(s@.subrange(n as int, s@.len() as int) =~= s@.skip(n as int));
    }
    s.substring_char(n, chars.len())
}

/// What a label says of an agent.
pub fn normalize_weave_relay_target(label: &str) -> (r: String)
    ensures
        r@ == plain_label(label@),
{
    let label = strip_marks(text::trim(label));
    let head = match text::split_once(label, '(') {
        Some((head, _)) => head,
        None => label,
    };
    let mut r = String::new();
    proof {
        assert(head@.take(0) =~= Seq::<char>::empty());
        assert(r@ =~= Seq::<char>::empty());
    }
    for c in it: head.chars()
        invariant
            it.seq() == head@,
            r@ == solid(head@.take(it.index() as int)),
    {
        proof {
            assert(head@.take(it.index() + 1).drop_last() =~= head@.take(it.index() as int));
            assert(head@.take(it.index() + 1).last() == c);
        }
        if !text::is_white(c) {
            r.push(c);
        }
    }
    proof {
        assert(head@.take(head@.len() as int) =~= head@);
    }
    r
}

fn add_agent(found: &mut Vec<WeaveAgent>, agent: &WeaveAgent)
    ensures
        final(found).deep_view() == with_agent(old(found).deep_view(), agent.deep_view()),
{
    if !contains_agent(found, agent.id.as_str()) {
        found.push(agent.clone());
        proof {
            assert(found.deep_view() =~= old(found).deep_view().push(agent.deep_view()));
        }
    }
}

fn has_name(agent: &WeaveAgent, label: &str) -> (r: bool)
    ensures
        r == goes_by(agent.deep_view(), label@),
{
    match text::trim_present(&agent.name) {
        Some(name) => {
            let name = normalize_weave_relay_target(name);
            !name.as_str().is_empty() && text::same(
                name.as_str().to_lowercase().as_str(),
                label.to_lowercase().as_str(),
            )
        },
        None => false,
    }
}

proof fn lemma_agent_labelled_at(agents: Seq<WeaveAgent<Seq<char>>>, label: Seq<char>, n: int)
    requires
        0 <= n <= agents.len(),
        forall|i: int| 0 <= i < n ==> plain_label((#[trigger] agents[i]).id) != label,
        n < agents.len() ==> plain_label(agents[n].id) == label,
    ensures
        agent_labelled(agents, label) == (if n < agents.len() {
            Some(agents[n])
        } else {
            None
        }),
    decreases agents.len(),
{
    if n > 0 {
        let rest = agents.subrange(1, agents.len() as int);
        assert forall|i: int| 0 <= i < n - 1 implies plain_label((#[trigger] rest[i]).id)
            != label by {
            assert(rest[i] == agents[i + 1]);
        }
        lemma_agent_labelled_at(rest, label, n - 1);
        assert(plain_label(agents[0].id) != label);
    }
}

fn find_labelled<'a>(agents: &'a Vec<WeaveAgent>, label: &str) -> (r: Option<&'a WeaveAgent>)
    ensures
        r.deep_view() == agent_labelled(agents.deep_view(), label@),
{
    let ghost all = agents.deep_view();
    for i in 0..agents.len()
        invariant
            all == agents.deep_view(),
            forall|j: int| 0 <= j < i ==> plain_label((#[trigger] all[j]).id) != label@,
    {
        proof {
            assert(all[i as int] == agents@[i as int].deep_view());
        }
        if text::same(normalize_weave_relay_target(agents[i].id.as_str()).as_str(), label) {
            proof {
                lemma_agent_labelled_at(all, label@, i as int);
            }
            return Some(&agents[i]);
        }
    }
    proof {
        lemma_agent_labelled_at(all, label@, all.len() as int);
    }
    None
}

fn add_named(found: &mut Vec<WeaveAgent>, agents: &Vec<WeaveAgent>, label: &str)
    ensures
        final(found).deep_view() == with_name(
            old(found).deep_view(),
            agents.deep_view(),
            label@,
        ),
{
    let ghost all = agents.deep_view();
    let ghost before = found.deep_view();
    proof {
        assert(all.take(0) =~= Seq::<WeaveAgent<Seq<char>>>::empty());
    }
    for i in 0..agents.len()
        invariant
            all == agents.deep_view(),
            found.deep_view() == with_name(before, all.take(i as int), label@),
    {
        proof {
            assert(all.take(i + 1).drop_last() =~= all.take(i as int));
            assert(all.take(i + 1).last() == agents@[i as int].deep_view());
        }
        if has_name(&agents[i], label) {
            add_agent(found, &agents[i]);
        }
    }
    proof {
        assert(all.take(all.len() as int) =~= all);
    }
}

/// The agents that `targets` name, each once.
pub fn resolve_weave_relay_targets(agents: &Vec<WeaveAgent>, targets: &Vec<String>) -> (r: Vec<
    WeaveAgent,
>)
    ensures
        r.deep_view() == resolved_targets(agents.deep_view(), text::views(targets@)),
{
    let mut found: Vec<WeaveAgent> = Vec::new();
    let ghost all = text::views(targets@);
    proof {
        assert(found.deep_view() =~= seq![]);
        assert(all.take(0) =~= Seq::<Seq<char>>::empty());
    }
    for i in 0..targets.len()
        invariant
            all == text::views(targets@),
            found.deep_view() == resolved_targets(agents.deep_view(), all.take(i as int)),
    {
        proof {
            assert(all.take(i + 1).drop_last() =~= all.take(i as int));
            assert(all.take(i + 1).last() == targets@[i as int]@);
        }
        let label = normalize_weave_relay_target(targets[i].as_str());
        if !label.as_str().is_empty() {
            match find_labelled(agents, label.as_str()) {
                Some(agent) => add_agent(&mut found, agent),
                None => add_named(&mut found, agents, label.as_str()),
            }
        }
    }
    proof {
        assert(all.take(all.len() as int) =~= all);
    }
    found
}

// ---------------------------------------------------------------------------
// Skills that a text names
// ---------------------------------------------------------------------------

/// A skill that a message can name.
#[derive(Debug, PartialEq, Eq)]
#[verifier::ext_equal]
pub struct Skill<S = String> {
    pub name: S,
    pub path: S,
}

impl DeepView for Skill {
    type V = Skill<Seq<char>>;

    open spec fn deep_view(&self) -> Skill<Seq<char>> {
        Skill {
            name: self.name@,
            path: self.path@,
        }
    }
}

impl Clone for Skill {
    fn clone(&self) -> (r: Skill)
        ensures
            r == *self,
    {
        Skill {
            name: self.name.clone(),
            path: self.path.clone(),
        }
    }
}

/// Whether one of `found` has this name.
pub open spec fn has_skill(found: Seq<Skill<Seq<char>>>, name: Seq<char>) -> bool {
    exists|i: int| 0 <= i < found.len() && (#[trigger] found[i]).name == name
}

/// The skills that `message` names with a `$`, the first of each name.
pub open spec fn mentioned_skills(
    message: Seq<char>,
    skills: Seq<Skill<Seq<char>>>,
) -> Seq<Skill<Seq<char>>>
    decreases skills.len(),
{
    if skills.len() == 0 {
        seq![]
    } else {
        let found = mentioned_skills(message, skills.drop_last());
        let skill = skills.last();
        if !has_skill(found, skill.name) && text::holds(message, "$"@ + skill.name) {
            found.push(skill)
        } else {
            found
        }
    }
}

fn contains_skill(found: &Vec<Skill>, name: &str) -> (r: bool)
    ensures
        r == has_skill(found.deep_view(), name@),
{
    for i in 0..found.len()
        invariant
            forall|j: int| 0 <= j < i ==> (#[trigger] found.deep_view()[j]).name != name@,
    {
        if text::same(found[i].name.as_str(), name) {
            proof {
                assert(found.deep_view()[i as int].name == name@);
            }
            return true;
        }
    }
    false
}

/// The skills that `message` names with a `$`, the first of each name.
pub fn find_skill_mentions(message: &str, skills: &Vec<Skill>) -> (r: Vec<Skill>)
    ensures
        r.deep_view() == mentioned_skills(message@, skills.deep_view()),
{
    let mut found: Vec<Skill> = Vec::new();
    let ghost all = skills.deep_view();
    proof {
        assert(found.deep_view() =~= seq![]);
        assert(all.take(0) =~= Seq::<Skill<Seq<char>>>::empty());
    }
    for i in 0..skills.len()
        invariant
            all == skills.deep_view(),
            found.deep_view() == mentioned_skills(message@, all.take(i as int)),
    {
        let ghost before = found.deep_view();
        proof {
            assert(all.take(i + 1).drop_last() =~= all.take(i as int));
            assert(all.take(i + 1).last() == skills@[i as int].deep_view());
        }
        let needle = text::concat2("$", skills[i].name.as_str());
        if !contains_skill(&found, skills[i].name.as_str()) && text::contains(
            message,
            needle.as_str(),
        ) {
            found.push(skills[i].clone());
            proof {
                assert(found.deep_view() =~= before.push(skills@[i as int].deep_view()));
            }
        }
    }
    proof {
        assert(all.take(all.len() as int) =~= all);
    }
    found
}

// ---------------------------------------------------------------------------
// Laws
// ---------------------------------------------------------------------------

/// Whether `targets` are agents of the list other than the one with `own_id`,
/// each once.
pub open spec fn are_others(
    targets: Seq<WeaveAgent<Seq<char>>>,
    agents: Seq<WeaveAgent<Seq<char>>>,
    own_id: Option<Seq<char>>,
) -> bool {
    &&& forall|i: int|
        0 <= i < targets.len() ==> agents.contains(#[trigger] targets[i]) && own_id != Some(
            targets[i].id,
        )
    &&& forall|i: int, j: int|
        0 <= i < j < targets.len() ==> (#[trigger] targets[i]).id != (#[trigger] targets[j]).id
}

proof fn lemma_mentioned_is_listed(
    agents: Seq<WeaveAgent<Seq<char>>>,
    n: nat,
    mention: Seq<char>,
)
    requires
        n <= agents.len(),
        mentioned_among(agents, n, mention) is Some,
    ensures
        agents.contains(mentioned_among(agents, n, mention)->0),
    decreases n,
{
    if mention_token(agents, agents[n - 1]) == mention {
        assert(agents.contains(agents[n - 1]));
    } else {
        lemma_mentioned_is_listed(agents, (n - 1) as nat, mention);
    }
}

proof fn lemma_agent_with_id(agents: Seq<WeaveAgent<Seq<char>>>, id: Seq<char>)
    ensures
        match prompts::agent_with_id(agents, id) {
            Some(agent) => agent.id == id && agents.contains(agent),
            None => forall|i: int| 0 <= i < agents.len() ==> (#[trigger] agents[i]).id != id,
        },
    decreases agents.len(),
{
    if agents.len() > 0 {
        assert(agents.contains(agents[0]));
        if agents[0].id != id {
            let rest = agents.subrange(1, agents.len() as int);
            lemma_agent_with_id(rest, id);
            match prompts::agent_with_id(rest, id) {
                Some(agent) => {
                    let k = choose|k: int| 0 <= k < rest.len() && rest[k] == agent;
                    assert(agents[k + 1] == agent);
                },
                None => {
                    assert forall|i: int| 0 <= i < agents.len() implies (#[trigger] agents[i]).id
                        != id by {
                        if i > 0 {
                            assert(rest[i - 1] == agents[i]);
                        }
                    }
                },
            }
        }
    }
}

proof fn lemma_mention_keeps_others(
    targets: Seq<WeaveAgent<Seq<char>>>,
    token: Seq<char>,
    agents: Seq<WeaveAgent<Seq<char>>>,
    own_id: Option<Seq<char>>,
)
    requires
        are_others(targets, agents, own_id),
    ensures
        are_others(with_mention(targets, token, agents, own_id), agents, own_id),
{
    if mention_in(token) is Some {
        let mention = mention_in(token)->0;
        if mentioned_among(agents, agents.len(), mention) is Some {
            lemma_mentioned_is_listed(agents, agents.len(), mention);
        }
        lemma_agent_with_id(agents, mention);
    }
}

/// Whoever a text mentions is an agent of the list, is not the author, and is
/// found once.
pub proof fn law_mentions_are_other_agents(
    tokens: Seq<Seq<char>>,
    agents: Seq<WeaveAgent<Seq<char>>>,
    own_id: Option<Seq<char>>,
)
    ensures
        are_others(mentioned_agents(tokens, agents, own_id), agents, own_id),
    decreases tokens.len(),
{
    if tokens.len() > 0 {
        law_mentions_are_other_agents(tokens.drop_last(), agents, own_id);
        lemma_mention_keeps_others(
            mentioned_agents(tokens.drop_last(), agents, own_id),
            tokens.last(),
            agents,
            own_id,
        );
    }
}

/// A word is a mention only as a whole: it is the token or the id of an agent
/// behind `#`. `#alex` behind another character, or with one behind it, mentions
/// nobody of that name.
pub proof fn law_a_mention_is_a_whole_word(
    targets: Seq<WeaveAgent<Seq<char>>>,
    token: Seq<char>,
    agents: Seq<WeaveAgent<Seq<char>>>,
    own_id: Option<Seq<char>>,
)
    requires
        with_mention(targets, token, agents, own_id) != targets,
    ensures
        ({
            let agent = with_mention(targets, token, agents, own_id).last();
            token == seq!['#'] + mention_token(agents, agent) || token == seq!['#'] + agent.id
        }),
{
    let mention = mention_in(token)->0;
    if mentioned_among(agents, agents.len(), mention) is Some {
        lemma_mentioned_has_token(agents, agents.len(), mention);
    }
    lemma_agent_with_id(agents, mention);
    assert(token =~= seq!['#'] + mention);
}

proof fn lemma_mentioned_has_token(
    agents: Seq<WeaveAgent<Seq<char>>>,
    n: nat,
    mention: Seq<char>,
)
    requires
        n <= agents.len(),
        mentioned_among(agents, n, mention) is Some,
    ensures
        mention_token(agents, mentioned_among(agents, n, mention)->0) == mention,
    decreases n,
{
    if mention_token(agents, agents[n - 1]) != mention {
        lemma_mentioned_has_token(agents, (n - 1) as nat, mention);
    }
}

/// The text that names an agent is one word, if the ids are: a name with white
/// space in it gives way to the id.
pub proof fn law_a_mention_is_one_word(
    agents: Seq<WeaveAgent<Seq<char>>>,
    agent: WeaveAgent<Seq<char>>,
)
    requires
        !client::has_space(agent.id),
    ensures
        !client::has_space(mention_token(agents, agent)),
{
}

proof fn lemma_token_is_found(agents: Seq<WeaveAgent<Seq<char>>>, n: nat, i: int)
    requires
        0 <= i < n <= agents.len(),
        forall|j: int|
            i < j < n && mention_token(agents, #[trigger] agents[j]) == mention_token(
                agents,
                agents[i],
            ) ==> agents[j].id == agents[i].id,
    ensures
        mentioned_among(agents, n, mention_token(agents, agents[i])) matches Some(agent)
            && agent.id == agents[i].id,
    decreases n,
{
    if i < n - 1 {
        let last = agents[n - 1];
        if mention_token(agents, last) != mention_token(agents, agents[i]) {
            lemma_token_is_found(agents, (n - 1) as nat, i);
        }
    }
}

proof fn lemma_mentions_are_kept(
    tokens: Seq<Seq<char>>,
    k: int,
    agents: Seq<WeaveAgent<Seq<char>>>,
    own_id: Option<Seq<char>>,
)
    requires
        0 <= k <= tokens.len(),
    ensures
        mentioned_agents(tokens.take(k), agents, own_id).is_prefix_of(
            mentioned_agents(tokens, agents, own_id),
        ),
    decreases tokens.len(),
{
    if k < tokens.len() {
        assert(tokens.drop_last().take(k) =~= tokens.take(k));
        lemma_mentions_are_kept(tokens.drop_last(), k, agents, own_id);
    } else {
        assert(tokens.take(k) =~= tokens);
    }
}

/// An agent is found by the text that names it, wherever that stands in a
/// message: unless a later agent of the list has the same one.
pub proof fn law_an_agent_is_found_by_its_mention(
    tokens: Seq<Seq<char>>,
    k: int,
    agents: Seq<WeaveAgent<Seq<char>>>,
    i: int,
    own_id: Option<Seq<char>>,
)
    requires
        0 <= k < tokens.len(),
        0 <= i < agents.len(),
        mention_token(agents, agents[i]).len() > 0,
        tokens[k] == seq!['#'] + mention_token(agents, agents[i]),
        own_id != Some(agents[i].id),
        forall|j: int|
            i < j < agents.len() && mention_token(agents, #[trigger] agents[j]) == mention_token(
                agents,
                agents[i],
            ) ==> agents[j].id == agents[i].id,
    ensures
        has_agent(mentioned_agents(tokens, agents, own_id), agents[i].id),
{
    let mention = mention_token(agents, agents[i]);
    lemma_token_is_found(agents, agents.len(), i);
    assert(tokens[k].skip(1) =~= mention);
    let early = tokens.take(k + 1);
    assert(early.drop_last() =~= tokens.take(k));
    assert(early.last() == tokens[k]);
    let before = mentioned_agents(tokens.take(k), agents, own_id);
    let after = mentioned_agents(early, agents, own_id);
    if !has_agent(before, agents[i].id) {
        assert(after.last().id == agents[i].id);
    }
    let at = choose|at: int| 0 <= at < after.len() && (#[trigger] after[at]).id == agents[i].id;
    lemma_mentions_are_kept(tokens, k + 1, agents, own_id);
    assert(mentioned_agents(tokens, agents, own_id)[at] == after[at]);
}

/// An agent is found by its id, wherever that stands in a message: unless the id is
/// the text that names another agent.
pub proof fn law_an_agent_is_found_by_its_id(
    tokens: Seq<Seq<char>>,
    k: int,
    agents: Seq<WeaveAgent<Seq<char>>>,
    i: int,
    own_id: Option<Seq<char>>,
)
    requires
        0 <= k < tokens.len(),
        0 <= i < agents.len(),
        agents[i].id.len() > 0,
        tokens[k] == seq!['#'] + agents[i].id,
        own_id != Some(agents[i].id),
        forall|j: int|
            0 <= j < agents.len() && mention_token(agents, #[trigger] agents[j]) == agents[i].id
                ==> agents[j].id == agents[i].id,
    ensures
        has_agent(mentioned_agents(tokens, agents, own_id), agents[i].id),
{
    let id = agents[i].id;
    assert(tokens[k].skip(1) =~= id);
    if mentioned_among(agents, agents.len(), id) is Some {
        lemma_mentioned_has_token(agents, agents.len(), id);
        lemma_mentioned_is_listed(agents, agents.len(), id);
    }
    lemma_agent_with_id(agents, id);
    assert(mentions_agent(tokens[k], agents, id));
    law_those_mentioned_are_found(tokens, agents, id, own_id);
}

/// Whether a word mentions the agent with this id.
pub open spec fn mentions_agent(
    token: Seq<char>,
    agents: Seq<WeaveAgent<Seq<char>>>,
    id: Seq<char>,
) -> bool {
    mention_in(token) matches Some(mention) && mentioned(agents, mention) matches Some(agent)
        && agent.id == id
}

/// Whether the word at `k` is the first that mentions the agent with this id.
pub open spec fn is_first_mention(
    tokens: Seq<Seq<char>>,
    agents: Seq<WeaveAgent<Seq<char>>>,
    id: Seq<char>,
    k: int,
) -> bool {
    &&& 0 <= k < tokens.len()
    &&& mentions_agent(tokens[k], agents, id)
    &&& forall|m: int| 0 <= m < k ==> !mentions_agent(#[trigger] tokens[m], agents, id)
}

/// An agent is found if and only if some word mentions it and it is not the
/// author.
pub proof fn law_those_mentioned_are_found(
    tokens: Seq<Seq<char>>,
    agents: Seq<WeaveAgent<Seq<char>>>,
    id: Seq<char>,
    own_id: Option<Seq<char>>,
)
    ensures
        has_agent(mentioned_agents(tokens, agents, own_id), id) <==> own_id != Some(id) && exists|
            k: int,
        |
            0 <= k < tokens.len() && mentions_agent(#[trigger] tokens[k], agents, id),
    decreases tokens.len(),
{
    if tokens.len() > 0 {
        let early = tokens.drop_last();
        law_those_mentioned_are_found(early, agents, id, own_id);
        let before = mentioned_agents(early, agents, own_id);
        let after = mentioned_agents(tokens, agents, own_id);
        if has_agent(before, id) {
            let at = choose|at: int| 0 <= at < before.len() && (#[trigger] before[at]).id == id;
            assert(after[at].id == id);
            let k = choose|k: int|
                0 <= k < early.len() && mentions_agent(#[trigger] early[k], agents, id);
            assert(mentions_agent(tokens[k], agents, id));
        } else if mentions_agent(tokens.last(), agents, id) {
            if own_id != Some(id) {
                assert(after.last().id == id);
            }
            assert(mentions_agent(tokens[tokens.len() - 1], agents, id));
        }
        if has_agent(after, id) && !has_agent(before, id) {
            let at = choose|at: int| 0 <= at < after.len() && (#[trigger] after[at]).id == id;
            if at < before.len() {
                assert(before[at].id == id);
            }
            assert(mentions_agent(tokens[tokens.len() - 1], agents, id));
        }
        if own_id != Some(id) && exists|k: int|
            0 <= k < tokens.len() && mentions_agent(#[trigger] tokens[k], agents, id) {
            let k = choose|k: int|
                0 <= k < tokens.len() && mentions_agent(#[trigger] tokens[k], agents, id);
            if k < early.len() {
                assert(mentions_agent(early[k], agents, id));
            }
        }
    }
}

/// Those who are mentioned stand in the order of their first mentions.
pub proof fn law_mentions_stand_in_their_order(
    tokens: Seq<Seq<char>>,
    agents: Seq<WeaveAgent<Seq<char>>>,
    own_id: Option<Seq<char>>,
    i: int,
    j: int,
    first: int,
    second: int,
)
    requires
        0 <= i < j < mentioned_agents(tokens, agents, own_id).len(),
        is_first_mention(tokens, agents, mentioned_agents(tokens, agents, own_id)[i].id, first),
        is_first_mention(tokens, agents, mentioned_agents(tokens, agents, own_id)[j].id, second),
    ensures
        first < second,
{
    let all = mentioned_agents(tokens, agents, own_id);
    law_mentions_are_other_agents(tokens, agents, own_id);
    if second <= first {
        let early = tokens.take(second + 1);
        let found = mentioned_agents(early, agents, own_id);
        lemma_mentions_are_kept(tokens, second + 1, agents, own_id);
        law_those_mentioned_are_found(early, agents, all[j].id, own_id);
        assert(early[second] == tokens[second]);
        law_those_mentioned_are_found(tokens, agents, all[j].id, own_id);
        assert(has_agent(all, all[j].id));
        assert(has_agent(found, all[j].id));
        let at = choose|at: int| 0 <= at < found.len() && (#[trigger] found[at]).id == all[j].id;
        assert(all[at] == found[at]);
        assert(at == j);
        assert(found[i] == all[i]);
        assert(has_agent(found, all[i].id));
        law_those_mentioned_are_found(early, agents, all[i].id, own_id);
        let k = choose|k: int|
            0 <= k < early.len() && mentions_agent(#[trigger] early[k], agents, all[i].id);
        assert(early[k] == tokens[k]);
        assert(k == second);
    }
}

/// Whoever is found is the agent that its first mention names.
pub proof fn law_the_first_mention_counts(
    tokens: Seq<Seq<char>>,
    agents: Seq<WeaveAgent<Seq<char>>>,
    own_id: Option<Seq<char>>,
    i: int,
    first: int,
)
    requires
        0 <= i < mentioned_agents(tokens, agents, own_id).len(),
        is_first_mention(tokens, agents, mentioned_agents(tokens, agents, own_id)[i].id, first),
    ensures
        mention_in(tokens[first]) matches Some(mention) && mentioned(agents, mention) == Some(
            mentioned_agents(tokens, agents, own_id)[i],
        ),
{
    let all = mentioned_agents(tokens, agents, own_id);
    let id = all[i].id;
    law_mentions_are_other_agents(tokens, agents, own_id);
    let early = tokens.take(first + 1);
    assert(early.drop_last() =~= tokens.take(first));
    assert(early.last() == tokens[first]);
    let before = mentioned_agents(tokens.take(first), agents, own_id);
    let found = mentioned_agents(early, agents, own_id);
    law_those_mentioned_are_found(tokens.take(first), agents, id, own_id);
    assert forall|k: int| 0 <= k < first implies !mentions_agent(
        #[trigger] tokens.take(first)[k],
        agents,
        id,
    ) by {
        assert(tokens.take(first)[k] == tokens[k]);
    }
    lemma_mentions_are_kept(tokens, first + 1, agents, own_id);
    assert(found == before.push(mentioned(agents, mention_in(tokens[first])->0)->0));
    assert(all[before.len() as int] == found[before.len() as int]);
}

/// Whether every command goes to at least one agent, and only to agents of the
/// list other than the author.
pub open spec fn are_sound(
    actions: Seq<ControlActionView>,
    agents: Seq<WeaveAgent<Seq<char>>>,
    own_id: Option<Seq<char>>,
) -> bool {
    forall|i: int|
        0 <= i < actions.len() ==> (#[trigger] actions[i]).targets.len() > 0 && are_others(
            actions[i].targets,
            agents,
            own_id,
        )
}

proof fn lemma_read_commands_sound(
    tokens: Seq<Seq<char>>,
    agents: Seq<WeaveAgent<Seq<char>>>,
    own_id: Option<Seq<char>>,
)
    ensures
        read_commands(tokens, agents, own_id) matches Some((waiting, actions)) ==> are_others(
            waiting,
            agents,
            own_id,
        ) && are_sound(actions, agents, own_id),
    decreases tokens.len(),
{
    if tokens.len() > 0 {
        lemma_read_commands_sound(tokens.drop_last(), agents, own_id);
        if read_commands(tokens.drop_last(), agents, own_id) is Some {
            let (waiting, actions) = read_commands(tokens.drop_last(), agents, own_id)->0;
            lemma_mention_keeps_others(waiting, tokens.last(), agents, own_id);
        }
    }
}

proof fn lemma_commands_in_sound(
    lines: Seq<Seq<char>>,
    agents: Seq<WeaveAgent<Seq<char>>>,
    own_id: Option<Seq<char>>,
)
    ensures
        commands_in(lines, agents, own_id) matches Some(actions) ==> are_sound(
            actions,
            agents,
            own_id,
        ),
    decreases lines.len(),
{
    if lines.len() > 0 {
        lemma_commands_in_sound(lines.drop_last(), agents, own_id);
        let tokens = text::words(lines.last());
        lemma_read_commands_sound(tokens, agents, own_id);
        law_mentions_are_other_agents(tokens.take(review_at(tokens)), agents, own_id);
    }
}

/// No command goes to nobody, to a stranger, or to the author.
pub proof fn law_commands_go_to_other_agents(
    message: Seq<char>,
    agents: Seq<WeaveAgent<Seq<char>>>,
    own_id: Option<Seq<char>>,
)
    ensures
        are_sound(control_actions(message, agents, own_id).0, agents, own_id),
{
    lemma_commands_in_sound(text::lines(message), agents, own_id);
}

/// A message is either all commands, and then nothing of it is said, or it is
/// said as it stands, and then it commands nothing.
pub proof fn law_commands_and_prose_do_not_mix(
    message: Seq<char>,
    agents: Seq<WeaveAgent<Seq<char>>>,
    own_id: Option<Seq<char>>,
)
    ensures
        ({
            let (actions, left) = control_actions(message, agents, own_id);
            ||| left.len() == 0
            ||| actions.len() == 0 && left == message
        }),
{
}

proof fn lemma_commands_of_both(
    a: Seq<Seq<char>>,
    b: Seq<Seq<char>>,
    agents: Seq<WeaveAgent<Seq<char>>>,
    own_id: Option<Seq<char>>,
)
    ensures
        commands_in(a + b, agents, own_id) == (match (
            commands_in(a, agents, own_id),
            commands_in(b, agents, own_id),
        ) {
            (Some(first), Some(second)) => Some(first + second),
            _ => None,
        }),
    decreases b.len(),
{
    if b.len() == 0 {
        assert(a + b =~= a);
        match commands_in(a, agents, own_id) {
            Some(first) => {
                assert(first + Seq::<ControlActionView>::empty() =~= first);
            },
            None => {},
        }
    } else {
        let front = b.drop_last();
        lemma_commands_of_both(a, front, agents, own_id);
        assert((a + b).drop_last() =~= a + front);
        assert((a + b).last() == b.last());
        match (
            commands_in(a, agents, own_id),
            commands_in(front, agents, own_id),
            line_of(text::words(b.last()), agents, own_id),
        ) {
            (Some(first), Some(second), LineView::Commands(more)) => {
                assert((first + second) + more =~= first + (second + more));
            },
            _ => {},
        }
    }
}

proof fn lemma_words_without_return(line: Seq<char>)
    ensures
        text::words(text::without_return(line)) == text::words(line),
{
    if text::without_return(line) != line {
        let parts = text::pieces(line.drop_last(), text::Cut::Space);
        assert(text::pieces(line, text::Cut::Space) == parts.push(Seq::<char>::empty()));
        assert(parts.push(Seq::<char>::empty()).drop_last() =~= parts);
    }
}

proof fn lemma_same_words(
    a: Seq<Seq<char>>,
    b: Seq<Seq<char>>,
    agents: Seq<WeaveAgent<Seq<char>>>,
    own_id: Option<Seq<char>>,
)
    requires
        a.len() == b.len(),
        forall|i: int| 0 <= i < a.len() ==> text::words(#[trigger] a[i]) == text::words(b[i]),
    ensures
        commands_in(a, agents, own_id) == commands_in(b, agents, own_id),
    decreases a.len(),
{
    if a.len() > 0 {
        assert forall|i: int| 0 <= i < a.len() - 1 implies text::words(#[trigger] a.drop_last()[i])
            == text::words(b.drop_last()[i]) by {
            assert(text::words(a[i]) == text::words(b[i]));
        }
        lemma_same_words(a.drop_last(), b.drop_last(), agents, own_id);
        assert(text::words(a[a.len() - 1]) == text::words(b[b.len() - 1]));
    }
}

/// That the last line is ended makes no difference.
proof fn lemma_ended_lines(
    s: Seq<char>,
    agents: Seq<WeaveAgent<Seq<char>>>,
    own_id: Option<Seq<char>>,
)
    ensures
        ({
            let parts = text::pieces(s, text::Cut::At('\n'));
            commands_in(
                Seq::new(parts.len(), |i: int| text::without_return(parts[i])),
                agents,
                own_id,
            ) == commands_in(text::lines(s), agents, own_id)
        }),
{
    let parts = text::pieces(s, text::Cut::At('\n'));
    let ended = Seq::new(parts.len(), |i: int| text::without_return(parts[i]));
    text::lemma_pieces_not_empty(s, text::Cut::At('\n'));
    lemma_words_without_return(parts.last());
    if parts.last().len() == 0 {
        assert(parts.last() =~= Seq::<char>::empty());
        assert(ended.drop_last() =~= text::lines(s));
        assert(text::pieces(ended.last(), text::Cut::Space) == seq![Seq::<char>::empty()]);
        assert(text::filled(seq![Seq::<char>::empty()].drop_last()) =~= seq![]);
        assert(text::words(ended.last()) =~= seq![]);
    } else {
        assert forall|i: int| 0 <= i < ended.len() implies text::words(#[trigger] ended[i])
            == text::words(text::lines(s)[i]) by {
            if i == parts.len() - 1 {
                assert(text::lines(s)[i] == parts.last());
            }
        }
        lemma_same_words(ended, text::lines(s), agents, own_id);
    }
}

/// Lines are read one by one: a message of two parts, one below the other, is all
/// commands if each part is, and its commands are those of the first part and behind
/// them those of the second. If a part is not, the whole is said as it stands.
pub proof fn law_the_commands_of_all_lines_are_read(
    first: Seq<char>,
    second: Seq<char>,
    agents: Seq<WeaveAgent<Seq<char>>>,
    own_id: Option<Seq<char>>,
)
    ensures
        ({
            let whole = control_actions(first + seq!['\n'] + second, agents, own_id);
            let one = control_actions(first, agents, own_id);
            let two = control_actions(second, agents, own_id);
            if one.1.len() == 0 && two.1.len() == 0 {
                whole == (one.0 + two.0, Seq::<char>::empty())
            } else {
                whole == (Seq::<ControlActionView>::empty(), first + seq!['\n'] + second)
            }
        }),
{
    let all = first + seq!['\n'] + second;
    let parts = text::pieces(first, text::Cut::At('\n'));
    let ended = Seq::new(parts.len(), |i: int| text::without_return(parts[i]));
    text::law_lines_stand_one_below_the_other(first, second);
    lemma_commands_of_both(ended, text::lines(second), agents, own_id);
    lemma_ended_lines(first, agents, own_id);
    lemma_no_text_no_lines(first);
    lemma_no_text_no_lines(second);
    assert(all.len() > 0);
}

proof fn lemma_no_text_no_lines(s: Seq<char>)
    ensures
        s.len() == 0 ==> text::lines(s).len() == 0,
{
    if s.len() == 0 {
        assert(text::pieces(s, text::Cut::At('\n')) == seq![Seq::<char>::empty()]);
        assert(text::pieces(s, text::Cut::At('\n')).last().len() == 0);
    }
}

/// Whether a text is one line.
pub open spec fn is_one_line(s: Seq<char>) -> bool {
    forall|i: int| 0 <= i < s.len() ==> #[trigger] s[i] != '\n'
}

proof fn lemma_one_line(
    s: Seq<char>,
    agents: Seq<WeaveAgent<Seq<char>>>,
    own_id: Option<Seq<char>>,
)
    requires
        is_one_line(s),
        text::words(s).len() > 0,
    ensures
        control_actions(s, agents, own_id) == (match line_of(
            text::words(s),
            agents,
            own_id,
        ) {
            LineView::Commands(actions) => (actions, Seq::<char>::empty()),
            _ => (Seq::<ControlActionView>::empty(), s),
        }),
{
    text::lemma_pieces_alone(s, '\n');
    if s.len() == 0 {
        assert(text::pieces(s, text::Cut::Space) == seq![Seq::<char>::empty()]);
        assert(text::filled(seq![Seq::<char>::empty()].drop_last()) =~= seq![]);
        assert(false);
    }
    let all = text::lines(s);
    assert(all =~= seq![s]);
    assert(all.drop_last() =~= Seq::<Seq<char>>::empty());
    assert(commands_in(all.drop_last(), agents, own_id) == Some(
        Seq::<ControlActionView>::empty(),
    ));
    assert(all.last() == s);
    match line_of(text::words(s), agents, own_id) {
        LineView::Commands(actions) => {
            assert(Seq::<ControlActionView>::empty() + actions =~= actions);
        },
        _ => {},
    }
}

/// The tool of a command word.
proof fn lemma_command_words()
    ensures
        plain_command("/new"@) == Some(WeaveTool::<Seq<char>>::NewSession),
        plain_command("/compact"@) == Some(WeaveTool::<Seq<char>>::Compact),
        plain_command("/interrupt"@) == Some(WeaveTool::<Seq<char>>::Interrupt),
        plain_command("/review"@) is None,
        !is_marked("/new"@),
        !is_marked("/compact"@),
        !is_marked("/interrupt"@),
        !is_marked("/review"@),
        "/new"@ != "/review"@,
        "/compact"@ != "/review"@,
        "/interrupt"@ != "/review"@,
{
    reveal_strlit("/new");
    reveal_strlit("/compact");
    reveal_strlit("/interrupt");
    reveal_strlit("/review");
    assert("/new"@.len() == 4 && "/compact"@.len() == 8 && "/interrupt"@.len() == 10
        && "/review"@.len() == 7);
    assert("/new"@[0] == '/' && "/compact"@[0] == '/' && "/interrupt"@[0] == '/'
        && "/review"@[0] == '/');
}

proof fn lemma_mention_is_no_command(token: Seq<char>)
    requires
        is_marked(token),
    ensures
        !is_command(token),
        token != "/review"@,
{
    lemma_command_words();
}

proof fn lemma_no_review(tokens: Seq<Seq<char>>)
    requires
        forall|i: int| 0 <= i < tokens.len() ==> #[trigger] tokens[i] != "/review"@,
    ensures
        review_at(tokens) == tokens.len(),
{
    lemma_review_at(tokens, tokens.len() as int);
}

proof fn lemma_read_mentions(
    tokens: Seq<Seq<char>>,
    agents: Seq<WeaveAgent<Seq<char>>>,
    own_id: Option<Seq<char>>,
)
    requires
        forall|i: int|
            0 <= i < tokens.len() ==> is_marked(#[trigger] tokens[i]) && mention_in(
                tokens[i],
            ) is Some,
    ensures
        read_commands(tokens, agents, own_id) == Some(
            (mentioned_agents(tokens, agents, own_id), Seq::<ControlActionView>::empty()),
        ),
    decreases tokens.len(),
{
    if tokens.len() > 0 {
        assert forall|i: int| 0 <= i < tokens.len() - 1 implies is_marked(
            #[trigger] tokens.drop_last()[i],
        ) && mention_in(tokens.drop_last()[i]) is Some by {
            assert(tokens.drop_last()[i] == tokens[i]);
        }
        lemma_read_mentions(tokens.drop_last(), agents, own_id);
        assert(is_marked(tokens[tokens.len() - 1]));
    }
}

/// A line that mentions agents and ends with a command has that very command go to
/// them: `/new`, `/compact` and `/interrupt` each to its own tool.
pub proof fn law_a_command_goes_to_those_before_it(
    message: Seq<char>,
    before: Seq<Seq<char>>,
    command: Seq<char>,
    agents: Seq<WeaveAgent<Seq<char>>>,
    own_id: Option<Seq<char>>,
)
    requires
        is_one_line(message),
        text::words(message) == before.push(command),
        forall|i: int|
            0 <= i < before.len() ==> (#[trigger] before[i]).len() > 1 && before[i][0] == '#',
        mentioned_agents(before, agents, own_id).len() > 0,
    ensures
        command == "/new"@ ==> control_actions(message, agents, own_id) == (
            seq![
                ControlActionView {
                    targets: mentioned_agents(before, agents, own_id),
                    tool: WeaveTool::NewSession,
                },
            ],
            Seq::<char>::empty(),
        ),
        command == "/compact"@ ==> control_actions(message, agents, own_id) == (
            seq![
                ControlActionView {
                    targets: mentioned_agents(before, agents, own_id),
                    tool: WeaveTool::Compact,
                },
            ],
            Seq::<char>::empty(),
        ),
        command == "/interrupt"@ ==> control_actions(message, agents, own_id) == (
            seq![
                ControlActionView {
                    targets: mentioned_agents(before, agents, own_id),
                    tool: WeaveTool::Interrupt,
                },
            ],
            Seq::<char>::empty(),
        ),
{
    let tokens = before.push(command);
    lemma_command_words();
    lemma_one_line(message, agents, own_id);
    lemma_read_mentions(before, agents, own_id);
    assert(tokens.drop_last() =~= before);
    if command == "/new"@ || command == "/compact"@ || command == "/interrupt"@ {
        assert forall|i: int| 0 <= i < tokens.len() implies #[trigger] tokens[i]
            != "/review"@ by {
            if i < before.len() {
                assert(tokens[i] == before[i]);
            }
        }
        lemma_no_review(tokens);
        assert(is_command(tokens[before.len() as int]));
        assert(has_command(tokens));
        let action = ControlActionView {
            targets: mentioned_agents(before, agents, own_id),
            tool: plain_command(command)->0,
        };
        assert(Seq::<ControlActionView>::empty().push(action) =~= seq![action]);
    }
}

/// A line that mentions agents and goes on with `/review` has them review, with all
/// words behind it as instructions.
pub proof fn law_a_review_takes_the_words_behind_it(
    message: Seq<char>,
    before: Seq<Seq<char>>,
    behind: Seq<Seq<char>>,
    agents: Seq<WeaveAgent<Seq<char>>>,
    own_id: Option<Seq<char>>,
)
    requires
        is_one_line(message),
        text::words(message) == before.push("/review"@) + behind,
        forall|i: int|
            0 <= i < before.len() ==> (#[trigger] before[i]).len() > 1 && before[i][0] == '#',
        mentioned_agents(before, agents, own_id).len() > 0,
        forall|i: int|
            0 <= i < behind.len() ==> (#[trigger] behind[i]).len() > 0 && behind[i][0] != '#',
    ensures
        control_actions(message, agents, own_id) == (
            seq![
                ControlActionView {
                    targets: mentioned_agents(before, agents, own_id),
                    tool: WeaveTool::Review {
                        instructions: text::present(Some(text::joined(behind, " "@))),
                    },
                },
            ],
            Seq::<char>::empty(),
        ),
{
    let tokens = before.push("/review"@) + behind;
    let at = before.len() as int;
    lemma_command_words();
    lemma_one_line(message, agents, own_id);
    assert forall|i: int| 0 <= i < at implies #[trigger] tokens[i] != "/review"@ by {
        assert(tokens[i] == before[i]);
    }
    assert(tokens[at] == "/review"@);
    lemma_review_at(tokens, at);
    assert(tokens.take(at) =~= before);
    assert(tokens.skip(at + 1) =~= behind);
    assert(is_command(tokens[at]));
    assert(has_command(tokens));
    assert(!has_command(tokens.take(at))) by {
        if has_command(before) {
            let i = choose|i: int| 0 <= i < before.len() && is_command(#[trigger] before[i]);
            lemma_mention_is_no_command(before[i]);
        }
    }
}

proof fn lemma_read_both(
    a: Seq<Seq<char>>,
    b: Seq<Seq<char>>,
    agents: Seq<WeaveAgent<Seq<char>>>,
    own_id: Option<Seq<char>>,
)
    requires
        read_commands(a, agents, own_id) matches Some((waiting, _)) && waiting.len() == 0,
    ensures
        read_commands(a + b, agents, own_id) == (match read_commands(b, agents, own_id) {
            Some((waiting, actions)) => Some(
                (waiting, (read_commands(a, agents, own_id)->0).1 + actions),
            ),
            None => None,
        }),
    decreases b.len(),
{
    let first = (read_commands(a, agents, own_id)->0).1;
    if b.len() == 0 {
        assert(a + b =~= a);
        assert(first + Seq::<ControlActionView>::empty() =~= first);
        assert((read_commands(a, agents, own_id)->0).0 =~= seq![]);
    } else {
        lemma_read_both(a, b.drop_last(), agents, own_id);
        assert((a + b).drop_last() =~= a + b.drop_last());
        assert((a + b).last() == b.last());
        match read_commands(b.drop_last(), agents, own_id) {
            Some((waiting, actions)) => match plain_command(b.last()) {
                Some(tool) => {
                    let action = ControlActionView { targets: waiting, tool };
                    assert((first + actions).push(action) =~= first + actions.push(action));
                },
                None => {},
            },
            None => {},
        }
    }
}

/// Commands that follow each other on one line are all read, in their order.
pub proof fn law_the_commands_of_a_line_are_read(
    whole: Seq<char>,
    first: Seq<char>,
    second: Seq<char>,
    agents: Seq<WeaveAgent<Seq<char>>>,
    own_id: Option<Seq<char>>,
)
    requires
        is_one_line(whole),
        is_one_line(first),
        is_one_line(second),
        text::words(whole) == text::words(first) + text::words(second),
        forall|i: int|
            0 <= i < text::words(whole).len() ==> #[trigger] text::words(whole)[i] != "/review"@,
        control_actions(first, agents, own_id).0.len() > 0,
        control_actions(second, agents, own_id).0.len() > 0,
    ensures
        control_actions(whole, agents, own_id) == (
            control_actions(first, agents, own_id).0 + control_actions(second, agents, own_id).0,
            Seq::<char>::empty(),
        ),
{
    let all = text::words(whole);
    let one = text::words(first);
    let two = text::words(second);
    lemma_blank_line(first, agents, own_id);
    lemma_blank_line(second, agents, own_id);
    lemma_one_line(first, agents, own_id);
    lemma_one_line(second, agents, own_id);
    lemma_one_line(whole, agents, own_id);
    assert forall|i: int| 0 <= i < one.len() implies #[trigger] one[i] != "/review"@ by {
        assert(all[i] == one[i]);
    }
    assert forall|i: int| 0 <= i < two.len() implies #[trigger] two[i] != "/review"@ by {
        assert(all[i + one.len()] == two[i]);
    }
    lemma_no_review(one);
    lemma_no_review(two);
    lemma_no_review(all);
    lemma_read_both(one, two, agents, own_id);
    let i = choose|i: int| 0 <= i < one.len() && is_command(#[trigger] one[i]);
    assert(is_command(all[i]));
}

proof fn lemma_blank_line(
    s: Seq<char>,
    agents: Seq<WeaveAgent<Seq<char>>>,
    own_id: Option<Seq<char>>,
)
    requires
        is_one_line(s),
        control_actions(s, agents, own_id).0.len() > 0,
    ensures
        text::words(s).len() > 0,
{
    if text::words(s).len() == 0 {
        text::lemma_pieces_alone(s, '\n');
        lemma_no_text_no_lines(s);
        if s.len() > 0 {
            let all = text::lines(s);
            assert(all =~= seq![s]);
            assert(all.drop_last() =~= Seq::<Seq<char>>::empty());
            assert(commands_in(all.drop_last(), agents, own_id) == Some(
                Seq::<ControlActionView>::empty(),
            ));
            assert(all.last() == s);
        }
    }
}

/// How many of the words are commands.
pub open spec fn command_count(tokens: Seq<Seq<char>>) -> nat
    decreases tokens.len(),
{
    if tokens.len() == 0 {
        0
    } else {
        let word = tokens.last();
        command_count(tokens.drop_last()) + if word == "/new"@ || word == "/compact"@ || word
            == "/interrupt"@ {
            1nat
        } else {
            0nat
        }
    }
}

proof fn lemma_read_count(
    tokens: Seq<Seq<char>>,
    agents: Seq<WeaveAgent<Seq<char>>>,
    own_id: Option<Seq<char>>,
)
    ensures
        read_commands(tokens, agents, own_id) matches Some((_, actions)) ==> actions.len()
            == command_count(tokens),
    decreases tokens.len(),
{
    if tokens.len() > 0 {
        lemma_command_words();
        lemma_read_count(tokens.drop_last(), agents, own_id);
    }
}

/// A line of commands without a review has as many commands as it has words that are
/// commands.
pub proof fn law_each_command_word_is_a_command(
    message: Seq<char>,
    agents: Seq<WeaveAgent<Seq<char>>>,
    own_id: Option<Seq<char>>,
)
    requires
        is_one_line(message),
        forall|i: int|
            0 <= i < text::words(message).len() ==> #[trigger] text::words(message)[i]
                != "/review"@,
        control_actions(message, agents, own_id).1.len() == 0,
    ensures
        control_actions(message, agents, own_id).0.len() == command_count(text::words(message)),
{
    let tokens = text::words(message);
    if tokens.len() == 0 {
        if control_actions(message, agents, own_id).0.len() > 0 {
            lemma_blank_line(message, agents, own_id);
        }
    } else {
        lemma_one_line(message, agents, own_id);
        lemma_no_review(tokens);
        lemma_read_count(tokens, agents, own_id);
        if message.len() == 0 {
            assert(text::pieces(message, text::Cut::Space) == seq![Seq::<char>::empty()]);
            assert(text::filled(seq![Seq::<char>::empty()].drop_last()) =~= seq![]);
        }
    }
}

proof fn lemma_other_word(
    tokens: Seq<Seq<char>>,
    n: int,
    agents: Seq<WeaveAgent<Seq<char>>>,
    own_id: Option<Seq<char>>,
)
    requires
        0 <= n < tokens.len(),
        !is_marked(tokens[n]),
        plain_command(tokens[n]) is None,
    ensures
        read_commands(tokens, agents, own_id) is None,
    decreases tokens.len(),
{
    if n < tokens.len() - 1 {
        assert(tokens.drop_last()[n] == tokens[n]);
        lemma_other_word(tokens.drop_last(), n, agents, own_id);
    }
}

/// A line with a word that is neither a mention nor a command, and without a review,
/// commands nothing: it is said as it stands.
pub proof fn law_other_words_are_said(
    message: Seq<char>,
    n: int,
    agents: Seq<WeaveAgent<Seq<char>>>,
    own_id: Option<Seq<char>>,
)
    requires
        is_one_line(message),
        0 <= n < text::words(message).len(),
        text::words(message)[n].len() == 0 || text::words(message)[n][0] != '#',
        text::words(message)[n] != "/new"@,
        text::words(message)[n] != "/compact"@,
        text::words(message)[n] != "/interrupt"@,
        forall|i: int|
            0 <= i < text::words(message).len() ==> #[trigger] text::words(message)[i]
                != "/review"@,
    ensures
        control_actions(message, agents, own_id) == (Seq::<ControlActionView>::empty(), message),
{
    lemma_one_line(message, agents, own_id);
    lemma_no_review(text::words(message));
    lemma_other_word(text::words(message), n, agents, own_id);
}

// ---------------------------------------------------------------------------
// Destinations
// ---------------------------------------------------------------------------

/// Whether a text names an agent as it stands: it has no white space, no bracket, and no
/// mark before it.
pub open spec fn is_plain_name(s: Seq<char>) -> bool {
    &&& s.len() > 0
    &&& s[0] != '#'
    &&& forall|i: int| 0 <= i < s.len() ==> !text::is_space(#[trigger] s[i]) && s[i] != '('
}

proof fn lemma_solid(s: Seq<char>)
    requires
        forall|i: int| 0 <= i < s.len() ==> !text::is_space(#[trigger] s[i]),
    ensures
        solid(s) == s,
    decreases s.len(),
{
    if s.len() > 0 {
        lemma_solid(s.drop_last());
        assert(s.drop_last().push(s.last()) =~= s);
    } else {
        assert(solid(s) =~= s);
    }
}

/// A plain name stands for itself, with a mark before it or without.
proof fn lemma_plain_label(s: Seq<char>)
    requires
        is_plain_name(s),
    ensures
        plain_label(s) == s,
        plain_label(seq!['#'] + s) == s,
{
    let marked = seq!['#'] + s;
    text::lemma_tight(s);
    assert(marked[0] == '#' && marked.last() == s.last());
    text::lemma_tight(marked);
    assert(without_marks(s) == s);
    assert(marked.subrange(1, marked.len() as int) =~= s);
    assert(without_marks(marked) == s);
    text::lemma_first_index_at(s, '(', s.len() as int);
    lemma_solid(s);
}

proof fn lemma_with_name_listed(
    found: Seq<WeaveAgent<Seq<char>>>,
    all: Seq<WeaveAgent<Seq<char>>>,
    agents: Seq<WeaveAgent<Seq<char>>>,
    label: Seq<char>,
)
    requires
        are_others(found, all, None),
        forall|i: int| 0 <= i < agents.len() ==> all.contains(#[trigger] agents[i]),
    ensures
        are_others(with_name(found, agents, label), all, None),
        found.is_prefix_of(with_name(found, agents, label)),
    decreases agents.len(),
{
    if agents.len() > 0 {
        let front = agents.drop_last();
        assert forall|i: int| 0 <= i < front.len() implies all.contains(#[trigger] front[i]) by {
            assert(front[i] == agents[i]);
        }
        lemma_with_name_listed(found, all, front, label);
        let before = with_name(found, front, label);
        assert(all.contains(agents[agents.len() - 1]));
        lemma_with_agent_listed(before, all, agents.last());
        let after = with_agent(before, agents.last());
        assert(after.subrange(0, found.len() as int) =~= before.subrange(0, found.len() as int));
    } else {
        assert(found.subrange(0, found.len() as int) =~= found);
    }
}

proof fn lemma_with_agent_listed(
    found: Seq<WeaveAgent<Seq<char>>>,
    all: Seq<WeaveAgent<Seq<char>>>,
    agent: WeaveAgent<Seq<char>>,
)
    requires
        are_others(found, all, None),
        all.contains(agent),
    ensures
        are_others(with_agent(found, agent), all, None),
        found.is_prefix_of(with_agent(found, agent)),
        has_agent(with_agent(found, agent), agent.id),
{
    let after = with_agent(found, agent);
    assert(after.subrange(0, found.len() as int) =~= found);
    if !has_agent(found, agent.id) {
        assert(after[found.len() as int] == agent);
        assert forall|i: int, j: int| 0 <= i < j < after.len() implies (#[trigger] after[i]).id != (
        #[trigger] after[j]).id by {
            assert(after[i] == found[i]);
            if j < found.len() {
                assert(after[j] == found[j]);
            }
        }
        assert forall|i: int| 0 <= i < after.len() implies all.contains(#[trigger] after[i]) by {
            if i < found.len() {
                assert(after[i] == found[i]);
            }
        }
    }
}

proof fn lemma_labelled_is_listed(agents: Seq<WeaveAgent<Seq<char>>>, label: Seq<char>)
    ensures
        agent_labelled(agents, label) matches Some(agent) ==> agents.contains(agent) && plain_label(
            agent.id,
        ) == label,
        agent_labelled(agents, label) is None ==> forall|i: int|
            0 <= i < agents.len() ==> plain_label((#[trigger] agents[i]).id) != label,
    decreases agents.len(),
{
    if agents.len() > 0 {
        if plain_label(agents[0].id) == label {
            assert(agents.contains(agents[0]));
        } else {
            let rest = agents.subrange(1, agents.len() as int);
            lemma_labelled_is_listed(rest, label);
            match agent_labelled(rest, label) {
                Some(agent) => {
                    let i = choose|i: int| 0 <= i < rest.len() && rest[i] == agent;
                    assert(agents[i + 1] == agent);
                },
                None => {
                    assert forall|i: int| 0 <= i < agents.len() implies plain_label(
                        (#[trigger] agents[i]).id,
                    ) != label by {
                        if i > 0 {
                            assert(rest[i - 1] == agents[i]);
                        }
                    }
                },
            }
        }
    }
}

/// Destinations lead to agents of the list, and to each of them once; further ones come
/// behind those that were named before.
pub proof fn law_destinations_are_agents_of_the_list(
    agents: Seq<WeaveAgent<Seq<char>>>,
    targets: Seq<Seq<char>>,
    next: Seq<char>,
)
    ensures
        are_others(resolved_targets(agents, targets), agents, None),
        are_others(resolved_targets(agents, targets.push(next)), agents, None),
        resolved_targets(agents, targets).is_prefix_of(
            resolved_targets(agents, targets.push(next)),
        ),
    decreases targets.len(),
{
    if targets.len() > 0 {
        assert(targets.drop_last().push(targets.last()) =~= targets);
        law_destinations_are_agents_of_the_list(agents, targets.drop_last(), targets.last());
    }
    assert(targets.push(next).drop_last() =~= targets);
    let found = resolved_targets(agents, targets);
    let label = plain_label(next);
    assert(found.subrange(0, found.len() as int) =~= found);
    lemma_labelled_is_listed(agents, label);
    match agent_labelled(agents, label) {
        Some(agent) => lemma_with_agent_listed(found, agents, agent),
        None => lemma_with_name_listed(found, agents, agents, label),
    }
}

/// An agent is reached by its id, marked or not, and nobody else is.
pub proof fn law_a_destination_is_found_by_its_id(agents: Seq<WeaveAgent<Seq<char>>>, i: int)
    requires
        0 <= i < agents.len(),
        is_plain_name(agents[i].id),
        forall|j: int|
            0 <= j < agents.len() && j != i ==> plain_label((#[trigger] agents[j]).id)
                != agents[i].id,
    ensures
        resolved_targets(agents, seq![agents[i].id]) == seq![agents[i]],
        resolved_targets(agents, seq![seq!['#'] + agents[i].id]) == seq![agents[i]],
{
    let id = agents[i].id;
    let none: Seq<WeaveAgent<Seq<char>>> = seq![];
    lemma_plain_label(id);
    lemma_agent_labelled_at(agents, id, i);
    assert(seq![id].drop_last() =~= Seq::<Seq<char>>::empty());
    assert(seq![seq!['#'] + id].drop_last() =~= Seq::<Seq<char>>::empty());
    assert(resolved_targets(agents, Seq::<Seq<char>>::empty()) =~= none);
    assert(none.push(agents[i]) =~= seq![agents[i]]);
}

proof fn lemma_with_name_has(
    found: Seq<WeaveAgent<Seq<char>>>,
    agents: Seq<WeaveAgent<Seq<char>>>,
    label: Seq<char>,
    i: int,
)
    requires
        0 <= i < agents.len(),
        goes_by(agents[i], label),
    ensures
        has_agent(with_name(found, agents, label), agents[i].id),
    decreases agents.len(),
{
    let front = agents.drop_last();
    let before = with_name(found, front, label);
    let after = with_name(found, agents, label);
    if i < front.len() {
        assert(front[i] == agents[i]);
        lemma_with_name_has(found, front, label, i);
        let k = choose|k: int| 0 <= k < before.len() && (#[trigger] before[k]).id == agents[i].id;
        assert(after[k] == before[k]);
    } else if !has_agent(before, agents[i].id) {
        assert(after[before.len() as int] == agents[i]);
    }
}

proof fn lemma_with_name_only(
    agents: Seq<WeaveAgent<Seq<char>>>,
    label: Seq<char>,
)
    ensures
        forall|i: int|
            0 <= i < with_name(seq![], agents, label).len() ==> goes_by(
                #[trigger] with_name(seq![], agents, label)[i],
                label,
            ),
    decreases agents.len(),
{
    if agents.len() > 0 {
        lemma_with_name_only(agents.drop_last(), label);
        let before = with_name(seq![], agents.drop_last(), label);
        let after = with_name(seq![], agents, label);
        assert forall|i: int| 0 <= i < after.len() implies goes_by(#[trigger] after[i], label) by {
            if i < before.len() {
                assert(after[i] == before[i]);
            }
        }
    }
}

/// Where no agent has a text as its id, it leads to every agent that has it as its name,
/// in letters of either case, and to no other.
pub proof fn law_a_destination_is_found_by_its_name(
    agents: Seq<WeaveAgent<Seq<char>>>,
    i: int,
    name: Seq<char>,
)
    requires
        0 <= i < agents.len(),
        is_plain_name(name),
        agents[i].name == Some(name),
        forall|j: int| 0 <= j < agents.len() ==> plain_label((#[trigger] agents[j]).id) != name,
    ensures
        has_agent(resolved_targets(agents, seq![name]), agents[i].id),
        has_agent(resolved_targets(agents, seq![seq!['#'] + name]), agents[i].id),
        forall|k: int|
            0 <= k < resolved_targets(agents, seq![name]).len() ==> (#[trigger] resolved_targets(
                agents,
                seq![name],
            )[k]).name is Some,
{
    let none: Seq<WeaveAgent<Seq<char>>> = seq![];
    lemma_plain_label(name);
    text::lemma_tight(name);
    lemma_labelled_is_listed(agents, name);
    assert(goes_by(agents[i], name));
    lemma_with_name_has(none, agents, name, i);
    lemma_with_name_only(agents, name);
    assert(seq![name].drop_last() =~= Seq::<Seq<char>>::empty());
    assert(seq![seq!['#'] + name].drop_last() =~= Seq::<Seq<char>>::empty());
    assert(resolved_targets(agents, Seq::<Seq<char>>::empty()) =~= none);
    assert forall|k: int| 0 <= k < resolved_targets(agents, seq![name]).len() implies (
    #[trigger] resolved_targets(agents, seq![name])[k]).name is Some by {
        assert(goes_by(with_name(none, agents, name)[k], name));
    }
}

/// A destination of nothing but marks and white space leads to nobody.
pub proof fn law_no_name_no_destination(
    agents: Seq<WeaveAgent<Seq<char>>>,
    targets: Seq<Seq<char>>,
    next: Seq<char>,
)
    requires
        forall|i: int| 0 <= i < next.len() ==> text::is_space(#[trigger] next[i]),
    ensures
        resolved_targets(agents, targets.push(next)) == resolved_targets(agents, targets),
{
    text::law_white_space_counts_as_nothing(next);
    let bare = text::trimmed(next);
    assert(bare.len() == 0);
    assert(targets.push(next).drop_last() =~= targets);
    text::lemma_first_index_at(bare, '(', 0);
    assert(plain_label(next).len() == 0);
}

/// The skills that a message names are those of the list whose name stands behind a
/// dollar sign in it: each name once, in the order of the list.
pub proof fn law_the_skills_that_are_named_are_found(
    message: Seq<char>,
    skills: Seq<Skill<Seq<char>>>,
    next: Skill<Seq<char>>,
)
    ensures
        mentioned_skills(message, seq![]).len() == 0,
        ({
            let before = mentioned_skills(message, skills);
            let named = exists|i: int|
                0 <= i <= message.len() - (1 + next.name.len()) && #[trigger] message.subrange(
                    i,
                    i + 1 + next.name.len(),
                ) == seq!['$'] + next.name;
            let known = exists|i: int| 0 <= i < before.len() && (#[trigger] before[i]).name == next.name;
            mentioned_skills(message, skills.push(next)) == (if named && !known {
                before.push(next)
            } else {
                before
            })
        }),
{
    reveal_strlit("$");
    assert("$"@ =~= seq!['$']);
    assert(skills.push(next).drop_last() =~= skills);
    let part = seq!['$'] + next.name;
    if text::holds(message, part) {
        let i = choose|i: int| 0 <= i && #[trigger] text::holds_at(message, part, i);
        assert(part.len() == 1 + next.name.len());
        assert(message.subrange(i, i + 1 + next.name.len()) == part);
    }
    if exists|i: int|
        0 <= i <= message.len() - (1 + next.name.len()) && #[trigger] message.subrange(
            i,
            i + 1 + next.name.len(),
        ) == seq!['$'] + next.name {
        let i = choose|i: int|
            0 <= i <= message.len() - (1 + next.name.len()) && #[trigger] message.subrange(
                i,
                i + 1 + next.name.len(),
            ) == seq!['$'] + next.name;
        assert(part.len() == 1 + next.name.len());
        assert(message.subrange(i, i + part.len()) == part);
        assert(text::holds_at(message, part, i));
    }
}

} // verus!

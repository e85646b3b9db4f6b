//! Menus: what the user can choose, and what each choice does.

use vstd::prelude::*;

use crate::client;
use crate::client::WeaveSession;
use crate::text;

verus! {

/// How much the model thinks before it answers.
#[derive(Debug, Clone, Copy, PartialEq, Eq, Structural)]
pub enum ReasoningEffort {
    NoReasoning,
    Minimal,
    Low,
    Medium,
    High,
    XHigh,
}

/// An effort that a model supports.
#[derive(Debug, PartialEq, Eq)]
#[verifier::ext_equal]
pub struct EffortOption<S = String> {
    pub effort: ReasoningEffort,
    pub description: S,
}

impl DeepView for EffortOption {
    type V = EffortOption<Seq<char>>;

    open spec fn deep_view(&self) -> EffortOption<Seq<char>> {
        EffortOption {
            effort: self.effort,
            description: self.description@,
        }
    }
}

impl Clone for EffortOption {
    fn clone(&self) -> (r: EffortOption)
        ensures
            r == *self,
    {
        EffortOption {
            effort: self.effort,
            description: self.description.clone(),
        }
    }
}

/// A model that can be chosen.
#[derive(Debug, PartialEq, Eq)]
pub struct ModelPreset {
    pub model: String,
    pub display_name: String,
    pub description: String,
    pub default_effort: ReasoningEffort,
    pub efforts: Vec<EffortOption>,
    pub is_default: bool,
    pub show_in_picker: bool,
}

/// The mathematical value of a `ModelPreset`.
#[verifier::ext_equal]
pub struct PresetView {
    pub model: Seq<char>,
    pub display_name: Seq<char>,
    pub description: Seq<char>,
    pub default_effort: ReasoningEffort,
    pub efforts: Seq<EffortOption<Seq<char>>>,
    pub is_default: bool,
    pub show_in_picker: bool,
}

impl DeepView for ModelPreset {
    type V = PresetView;

    open spec fn deep_view(&self) -> PresetView {
        PresetView {
            model: self.model@,
            display_name: self.display_name@,
            description: self.description@,
            default_effort: self.default_effort,
            efforts: self.efforts.deep_view(),
            is_default: self.is_default,
            show_in_picker: self.show_in_picker,
        }
    }
}

/// When the user is asked before something is done.
#[derive(Debug, Clone, Copy, PartialEq, Eq, Structural)]
pub enum ApprovalKind {
    UnlessTrusted,
    OnFailure,
    OnRequest,
    Never,
}

/// What commands may touch.
#[derive(Debug, Clone, Copy, PartialEq, Eq, Structural)]
pub enum SandboxKind {
    ReadOnly,
    WorkspaceWrite,
    FullAccess,
    Outside,
}

/// A choice of what needs an approval.
#[derive(Debug, PartialEq, Eq)]
#[verifier::ext_equal]
pub struct ApprovalPreset<S = String> {
    pub id: S,
    pub label: S,
    pub description: S,
    pub approval: ApprovalKind,
    pub sandbox: SandboxKind,
}

impl DeepView for ApprovalPreset {
    type V = ApprovalPreset<Seq<char>>;

    open spec fn deep_view(&self) -> ApprovalPreset<Seq<char>> {
        ApprovalPreset {
            id: self.id@,
            label: self.label@,
            description: self.description@,
            approval: self.approval,
            sandbox: self.sandbox,
        }
    }
}

impl Clone for ApprovalPreset {
    fn clone(&self) -> (r: ApprovalPreset)
        ensures
            r == *self,
    {
        ApprovalPreset {
            id: self.id.clone(),
            label: self.label.clone(),
            description: self.description.clone(),
            approval: self.approval,
            sandbox: self.sandbox,
        }
    }
}

/// What a choice does.
#[derive(Debug, PartialEq, Eq)]
pub enum MenuAction {
    OpenAgentNamePrompt,
    OpenSessionCreatePrompt,
    OpenCloseMenu,
    OpenSessionMenu,
    SelectSession { session: Option<WeaveSession> },
    CloseSession { session: WeaveSession },
    /// Answer with this model from now on, also in later sessions.
    UseModel { model: String, effort: Option<ReasoningEffort> },
    /// Answer with this model in this session.
    SwitchModel { model: String, effort: Option<ReasoningEffort> },
    OpenAllModels,
    /// Ask for the effort of the model that stands here among those that were given.
    OpenEfforts { preset: usize },
    HideSwitchPrompt,
    OpenBranches,
    OpenCommits,
    OpenInstructions,
    ReviewChanges,
    ReviewBranch { branch: String },
    ReviewCommit { sha: String, title: String },
    /// Apply the preset that stands here among those that were given.
    UseApproval { preset: usize },
    ConfirmFullAccess { preset: usize },
    AcknowledgeFullAccess { remember: bool },
    OpenApprovals,
    /// Set up the elevated sandbox, and apply the preset.
    SetUpSandbox { preset: usize },
    /// Use the sandbox, and apply the preset.
    EnableSandbox { preset: usize, elevated: bool },
    AskForSandbox { preset: usize },
    WarnOfFolders { preset: usize },
    /// Do not look for open folders when the preset is applied.
    SkipNextScan,
    /// Do not warn of open folders any more.
    AcknowledgeFolders,
}

/// The mathematical value of a `MenuAction`.
#[verifier::ext_equal]
pub enum MenuActionView {
    OpenAgentNamePrompt,
    OpenSessionCreatePrompt,
    OpenCloseMenu,
    OpenSessionMenu,
    SelectSession { session: Option<WeaveSession<Seq<char>>> },
    CloseSession { session: WeaveSession<Seq<char>> },
    UseModel { model: Seq<char>, effort: Option<ReasoningEffort> },
    SwitchModel { model: Seq<char>, effort: Option<ReasoningEffort> },
    OpenAllModels,
    OpenEfforts { preset: usize },
    HideSwitchPrompt,
    OpenBranches,
    OpenCommits,
    OpenInstructions,
    ReviewChanges,
    ReviewBranch { branch: Seq<char> },
    ReviewCommit { sha: Seq<char>, title: Seq<char> },
    UseApproval { preset: usize },
    ConfirmFullAccess { preset: usize },
    AcknowledgeFullAccess { remember: bool },
    OpenApprovals,
    SetUpSandbox { preset: usize },
    EnableSandbox { preset: usize, elevated: bool },
    AskForSandbox { preset: usize },
    WarnOfFolders { preset: usize },
    SkipNextScan,
    AcknowledgeFolders,
}

impl DeepView for MenuAction {
    type V = MenuActionView;

    open spec fn deep_view(&self) -> MenuActionView {
        match *self {
            MenuAction::OpenAgentNamePrompt => MenuActionView::OpenAgentNamePrompt,
            MenuAction::OpenSessionCreatePrompt => MenuActionView::OpenSessionCreatePrompt,
            MenuAction::OpenCloseMenu => MenuActionView::OpenCloseMenu,
            MenuAction::OpenSessionMenu => MenuActionView::OpenSessionMenu,
            MenuAction::SelectSession { session } => MenuActionView::SelectSession { session: session.deep_view() },
            MenuAction::CloseSession { session } => MenuActionView::CloseSession { session: session.deep_view() },
            MenuAction::UseModel { model, effort } => MenuActionView::UseModel { model: model@, effort: effort },
            MenuAction::SwitchModel { model, effort } => MenuActionView::SwitchModel { model: model@, effort: effort },
            MenuAction::OpenAllModels => MenuActionView::OpenAllModels,
            MenuAction::OpenEfforts { preset } => MenuActionView::OpenEfforts { preset: preset },
            MenuAction::HideSwitchPrompt => MenuActionView::HideSwitchPrompt,
            MenuAction::OpenBranches => MenuActionView::OpenBranches,
            MenuAction::OpenCommits => MenuActionView::OpenCommits,
            MenuAction::OpenInstructions => MenuActionView::OpenInstructions,
            MenuAction::ReviewChanges => MenuActionView::ReviewChanges,
            MenuAction::ReviewBranch { branch } => MenuActionView::ReviewBranch { branch: branch@ },
            MenuAction::ReviewCommit { sha, title } => MenuActionView::ReviewCommit { sha: sha@, title: title@ },
            MenuAction::UseApproval { preset } => MenuActionView::UseApproval { preset: preset },
            MenuAction::ConfirmFullAccess { preset } => MenuActionView::ConfirmFullAccess { preset: preset },
            MenuAction::AcknowledgeFullAccess { remember } => MenuActionView::AcknowledgeFullAccess { remember: remember },
            MenuAction::OpenApprovals => MenuActionView::OpenApprovals,
            MenuAction::SetUpSandbox { preset } => MenuActionView::SetUpSandbox { preset: preset },
            MenuAction::EnableSandbox { preset, elevated } => MenuActionView::EnableSandbox { preset: preset, elevated: elevated },
            MenuAction::AskForSandbox { preset } => MenuActionView::AskForSandbox { preset: preset },
            MenuAction::WarnOfFolders { preset } => MenuActionView::WarnOfFolders { preset: preset },
            MenuAction::SkipNextScan => MenuActionView::SkipNextScan,
            MenuAction::AcknowledgeFolders => MenuActionView::AcknowledgeFolders,
        }
    }
}

/// A line of a menu.
#[derive(Debug, PartialEq, Eq)]
pub struct MenuItem {
    pub name: String,
    pub description: Option<String>,
    pub selected_description: Option<String>,
    pub is_current: bool,
    pub is_default: bool,
    pub is_search_row: bool,
    pub dismiss_on_select: bool,
    pub search_value: Option<String>,
    pub actions: Vec<MenuAction>,
}

/// The mathematical value of a `MenuItem`.
#[verifier::ext_equal]
pub struct ItemView {
    pub name: Seq<char>,
    pub description: Option<Seq<char>>,
    pub selected_description: Option<Seq<char>>,
    pub is_current: bool,
    pub is_default: bool,
    pub is_search_row: bool,
    pub dismiss_on_select: bool,
    pub search_value: Option<Seq<char>>,
    pub actions: Seq<MenuActionView>,
}

impl DeepView for MenuItem {
    type V = ItemView;

    open spec fn deep_view(&self) -> ItemView {
        ItemView {
            name: self.name@,
            description: self.description.deep_view(),
            selected_description: self.selected_description.deep_view(),
            is_current: self.is_current,
            is_default: self.is_default,
            is_search_row: self.is_search_row,
            dismiss_on_select: self.dismiss_on_select,
            search_value: self.search_value.deep_view(),
            actions: self.actions.deep_view(),
        }
    }
}

/// A menu.
#[derive(Debug, PartialEq, Eq)]
pub struct Menu {
    /// The lines above the menu.
    pub header: Vec<String>,
    pub title: Option<String>,
    pub subtitle: Option<String>,
    pub items: Vec<MenuItem>,
    pub is_searchable: bool,
    pub search_placeholder: Option<String>,
    pub initial_selected_idx: Option<usize>,
    pub on_cancel: Vec<MenuAction>,
    pub footer_note: Option<String>,
    /// What to press, where that is not as usual.
    pub footer_hint: Option<String>,
}

/// The mathematical value of a `Menu`.
#[verifier::ext_equal]
pub struct MenuView {
    pub header: Seq<Seq<char>>,
    pub title: Option<Seq<char>>,
    pub subtitle: Option<Seq<char>>,
    pub items: Seq<ItemView>,
    pub is_searchable: bool,
    pub search_placeholder: Option<Seq<char>>,
    pub initial_selected_idx: Option<usize>,
    pub on_cancel: Seq<MenuActionView>,
    pub footer_note: Option<Seq<char>>,
    pub footer_hint: Option<Seq<char>>,
}

impl DeepView for Menu {
    type V = MenuView;

    open spec fn deep_view(&self) -> MenuView {
        MenuView {
            header: text::views(self.header@),
            title: self.title.deep_view(),
            subtitle: self.subtitle.deep_view(),
            items: self.items.deep_view(),
            is_searchable: self.is_searchable,
            search_placeholder: self.search_placeholder.deep_view(),
            initial_selected_idx: self.initial_selected_idx,
            on_cancel: self.on_cancel.deep_view(),
            footer_note: self.footer_note.deep_view(),
            footer_hint: self.footer_hint.deep_view(),
        }
    }
}

// ---------------------------------------------------------------------------
// Lines
// ---------------------------------------------------------------------------

/// A line that says nothing and does nothing.
pub open spec fn blank_item() -> ItemView {
    ItemView {
        name: seq![],
        description: None,
        selected_description: None,
        is_current: false,
        is_default: false,
        is_search_row: false,
        dismiss_on_select: false,
        search_value: None,
        actions: seq![],
    }
}

/// A line that does one thing.
pub open spec fn item(
    name: Seq<char>,
    description: Option<Seq<char>>,
    action: MenuActionView,
) -> ItemView {
    ItemView { name, description, dismiss_on_select: true, actions: seq![action], ..blank_item() }
}

pub(crate) fn empty_item() -> (r: MenuItem)
    ensures
        r.deep_view() == blank_item(),
{
    let r = MenuItem {
        name: String::new(),
        description: None,
        selected_description: None,
        is_current: false,
        is_default: false,
        is_search_row: false,
        dismiss_on_select: false,
        search_value: None,
        actions: Vec::new(),
    };
    proof {
        assert(r.name@ =~= seq![]);
        assert(r.actions.deep_view() =~= seq![]);
    }
    r
}

pub(crate) fn new_item(name: String, description: Option<String>, action: MenuAction) -> (r: MenuItem)
    ensures
        r.deep_view() == item(name@, description.deep_view(), action.deep_view()),
{
    let mut actions: Vec<MenuAction> = Vec::new();
    let ghost view = action.deep_view();
    actions.push(action);
    proof {
        assert(actions.deep_view() =~= seq![view]);
    }
    let mut r = empty_item();
    r.name = name;
    r.description = description;
    r.dismiss_on_select = true;
    r.actions = actions;
    r
}

pub(crate) fn push_item(items: &mut Vec<MenuItem>, item: MenuItem)
    ensures
        final(items).deep_view() == old(items).deep_view().push(item.deep_view()),
{
    let ghost before = items.deep_view();
    let ghost view = item.deep_view();
    items.push(item);
    proof {
        assert(items.deep_view() =~= before.push(view));
    }
}

pub(crate) fn no_items() -> (r: Vec<MenuItem>)
    ensures
        r.deep_view() == Seq::<ItemView>::empty(),
{
    let r: Vec<MenuItem> = Vec::new();
    proof {
        assert(r.deep_view() =~= Seq::<ItemView>::empty());
    }
    r
}

pub(crate) fn no_actions() -> (r: Vec<MenuAction>)
    ensures
        r.deep_view() == Seq::<MenuActionView>::empty(),
{
    let r: Vec<MenuAction> = Vec::new();
    proof {
        assert(r.deep_view() =~= Seq::<MenuActionView>::empty());
    }
    r
}

/// A menu with these lines.
pub open spec fn menu(title: Seq<char>, subtitle: Option<Seq<char>>, items: Seq<ItemView>) -> MenuView {
    MenuView { title: Some(title), subtitle, ..headed_menu(seq![], items) }
}

/// A menu with these lines, and others above it.
pub open spec fn headed_menu(header: Seq<Seq<char>>, items: Seq<ItemView>) -> MenuView {
    MenuView {
        header,
        title: None,
        subtitle: None,
        items,
        is_searchable: false,
        search_placeholder: None,
        initial_selected_idx: None,
        on_cancel: seq![],
        footer_note: None,
        footer_hint: None,
    }
}

pub(crate) fn new_headed_menu(header: Vec<String>, items: Vec<MenuItem>) -> (r: Menu)
    ensures
        r.deep_view() == headed_menu(text::views(header@), items.deep_view()),
{
    Menu {
        header,
        title: None,
        subtitle: None,
        items,
        is_searchable: false,
        search_placeholder: None,
        initial_selected_idx: None,
        on_cancel: no_actions(),
        footer_note: None,
        footer_hint: None,
    }
}

pub(crate) fn new_menu(title: &str, subtitle: Option<String>, items: Vec<MenuItem>) -> (r: Menu)
    ensures
        r.deep_view() == menu(title@, subtitle.deep_view(), items.deep_view()),
{
    let header: Vec<String> = Vec::new();
    proof {
        assert(text::views(header@) =~= seq![]);
    }
    let mut r = new_headed_menu(header, items);
    r.title = Some(title.to_owned());
    r.subtitle = subtitle;
    r
}

// ---------------------------------------------------------------------------
// Sessions with other agents
// ---------------------------------------------------------------------------

/// A session.
pub type SessionView = WeaveSession<Seq<char>>;

/// The name to show for a session.
pub open spec fn session_label(session: SessionView) -> Seq<char> {
    client::shown_name(session.id, session.name)
}

/// Whether a session stands before another one: by its name, and then by its id.
pub open spec fn session_before(a: SessionView, b: SessionView) -> bool {
    text::less(session_label(a), session_label(b)) || (session_label(a) == session_label(b)
        && text::less(a.id, b.id))
}

/// The sessions with one more, behind all that do not stand after it.
pub open spec fn session_inserted(list: Seq<SessionView>, session: SessionView) -> Seq<SessionView>
    decreases list.len(),
{
    if list.len() > 0 && session_before(session, list.last()) {
        session_inserted(list.drop_last(), session).push(list.last())
    } else {
        list.push(session)
    }
}

/// The sessions in the order of their names.
pub open spec fn sessions_sorted(list: Seq<SessionView>) -> Seq<SessionView>
    decreases list.len(),
{
    if list.len() == 0 {
        list
    } else {
        session_inserted(sessions_sorted(list.drop_last()), list.last())
    }
}

fn stands_before(a: &WeaveSession, b: &WeaveSession) -> (r: bool)
    ensures
        r == session_before(a.deep_view(), b.deep_view()),
{
    let left = a.display_name();
    let right = b.display_name();
    text::is_less(left.as_str(), right.as_str()) || (text::same(left.as_str(), right.as_str())
        && text::is_less(a.id.as_str(), b.id.as_str()))
}

proof fn lemma_inserted_at(list: Seq<SessionView>, session: SessionView, n: int)
    requires
        0 <= n <= list.len(),
        forall|i: int| n <= i < list.len() ==> session_before(session, #[trigger] list[i]),
        n > 0 ==> !session_before(session, list[n - 1]),
    ensures
        session_inserted(list, session) == list.insert(n, session),
    decreases list.len(),
{
    if n < list.len() {
        let rest = list.drop_last();
        assert forall|i: int| n <= i < rest.len() implies session_before(
            session,
            #[trigger] rest[i],
        ) by {
            assert(rest[i] == list[i]);
        }
        if n > 0 {
            assert(rest[n - 1] == list[n - 1]);
        }
        lemma_inserted_at(rest, session, n);
        assert(list.last() == list[list.len() - 1]);
        assert(rest.insert(n, session).push(list.last()) =~= list.insert(n, session));
    } else {
        if list.len() > 0 {
            assert(list.last() == list[n - 1]);
        }
        assert(list.push(session) =~= list.insert(n, session));
    }
}

fn insert_session(list: &mut Vec<WeaveSession>, session: WeaveSession)
    ensures
        final(list).deep_view() == session_inserted(old(list).deep_view(), session.deep_view()),
{
    let ghost all = list.deep_view();
    let ghost view = session.deep_view();
    let mut n: usize = list.len();
    proof {
        assert(all.len() == list@.len());
    }
    while n > 0 && stands_before(&session, &list[n - 1])
        invariant
            all == list.deep_view(),
            all.len() == list@.len(),
            view == session.deep_view(),
            n <= list@.len(),
            forall|i: int| n <= i < all.len() ==> session_before(view, #[trigger] all[i]),
        decreases n,
    {
        proof {
            assert(all[n - 1] == list@[n - 1].deep_view());
        }
        n = n - 1;
    }
    proof {
        if n > 0 {
            assert(all[n - 1] == list@[n - 1].deep_view());
        }
        lemma_inserted_at(all, view, n as int);
    }
    list.insert(n, session);
    proof {
        assert(list.deep_view() =~= all.insert(n as int, view));
    }
}

fn sort_sessions(sessions: Vec<WeaveSession>) -> (r: Vec<WeaveSession>)
    ensures
        r.deep_view() == sessions_sorted(sessions.deep_view()),
{
    let ghost all = sessions.deep_view();
    let mut r: Vec<WeaveSession> = Vec::new();
    proof {
        assert(all.take(0) =~= Seq::<SessionView>::empty());
        assert(r.deep_view() =~= Seq::<SessionView>::empty());
    }
    for i in 0..sessions.len()
        invariant
            all == sessions.deep_view(),
            r.deep_view() == sessions_sorted(all.take(i as int)),
    {
        proof {
            assert(all.take(i + 1).drop_last() =~= all.take(i as int));
            assert(all.take(i + 1).last() == sessions@[i as int].deep_view());
        }
        insert_session(&mut r, sessions[i].clone());
    }
    proof {
        assert(all.take(all.len() as int) =~= all);
    }
    r
}

/// A session in a menu: marked if it is the one that is selected.
pub open spec fn session_item(
    session: SessionView,
    selected: bool,
    hint: Seq<char>,
    action: MenuActionView,
) -> ItemView {
    let label = session_label(session);
    ItemView {
        selected_description: Some(hint),
        search_value: Some(label + " "@ + session.id),
        ..item(
            if selected {
                "✓ "@ + label
            } else {
                label
            },
            Some("id: "@ + session.id),
            action,
        )
    }
}

/// Where the session with this id stands last, from `from` on.
pub open spec fn selected_place(
    sessions: Seq<SessionView>,
    selected: Option<Seq<char>>,
    from: int,
) -> Option<usize>
    decreases sessions.len(),
{
    if sessions.len() == 0 {
        None
    } else if selected == Some(sessions.last().id) {
        Some((from + sessions.len() - 1) as usize)
    } else {
        selected_place(sessions.drop_last(), selected, from)
    }
}

/// A session in the menu of sessions: a choice joins it, or leaves it if it is
/// the one that is selected.
pub open spec fn join_item(session: SessionView, selected: Option<Seq<char>>) -> ItemView {
    if selected == Some(session.id) {
        session_item(
            session,
            true,
            "Press Enter to leave this session."@,
            MenuActionView::SelectSession { session: None },
        )
    } else {
        session_item(
            session,
            false,
            "Press Enter to join this session."@,
            MenuActionView::SelectSession { session: Some(session) },
        )
    }
}

/// A session in the menu of sessions to close.
pub open spec fn close_item(session: SessionView, selected: Option<Seq<char>>) -> ItemView {
    session_item(
        session,
        selected == Some(session.id),
        "Press Enter to close this session."@,
        MenuActionView::CloseSession { session },
    )
}

/// The lines of the menu of sessions before the sessions themselves.
pub open spec fn session_menu_head(agent_name: Seq<char>, count: nat) -> Seq<ItemView> {
    let head = seq![
        ItemView {
            selected_description: Some("Press Enter to rename this agent."@),
            ..item(
                "Set agent name"@,
                Some("Current: "@ + agent_name),
                MenuActionView::OpenAgentNamePrompt,
            )
        },
        blank_item(),
        ItemView {
            selected_description: Some("Press Enter to create a new session."@),
            ..item(
                "Create new session"@,
                Some("Create a new Weave session."@),
                MenuActionView::OpenSessionCreatePrompt,
            )
        },
        ItemView {
            selected_description: Some(
                if count == 0 {
                    "No sessions to close."@
                } else {
                    "Press Enter to manage session close."@
                },
            ),
            ..item(
                "Close session"@,
                Some("Close or manage existing Weave sessions."@),
                MenuActionView::OpenCloseMenu,
            )
        },
    ];
    if count > 0 {
        head.push(blank_item()).push(ItemView { is_search_row: true, ..blank_item() })
    } else {
        head
    }
}

/// The menu of sessions. The selected session is highlighted, or else the first
/// one, or else the line that makes a new one.
pub open spec fn session_menu(
    sessions: Seq<SessionView>,
    selected: Option<Seq<char>>,
    agent_name: Seq<char>,
) -> MenuView {
    let sorted = sessions_sorted(sessions);
    let head = session_menu_head(agent_name, sessions.len());
    MenuView {
        is_searchable: sessions.len() > 0,
        search_placeholder: if sessions.len() > 0 {
            Some("Type to filter sessions"@)
        } else {
            None
        },
        initial_selected_idx: match selected_place(sorted, selected, head.len() as int) {
            Some(place) => Some(place),
            None => if sessions.len() > 0 {
                Some(head.len() as usize)
            } else {
                Some(2)
            },
        },
        ..menu(
            "Weave"@,
            Some(
                if sessions.len() == 0 {
                    "No sessions found. Create one to get started."@
                } else {
                    "Select a session to join or leave, or manage sessions."@
                },
            ),
            head + Seq::new(sorted.len(), |i: int| join_item(sorted[i], selected)),
        )
    }
}

/// The menu of sessions to close.
pub open spec fn close_menu(sessions: Seq<SessionView>, selected: Option<Seq<char>>) -> MenuView {
    let sorted = sessions_sorted(sessions);
    MenuView {
        is_searchable: true,
        search_placeholder: Some("Type to filter sessions"@),
        initial_selected_idx: match selected_place(sorted, selected, 0) {
            Some(place) => Some(place),
            None => Some(0),
        },
        on_cancel: seq![MenuActionView::OpenSessionMenu],
        ..menu(
            "Close Weave session"@,
            Some(
                if sessions.len() == 0 {
                    "No sessions available to close."@
                } else {
                    "Select a session to close."@
                },
            ),
            Seq::new(sorted.len(), |i: int| close_item(sorted[i], selected)),
        )
    }
}

proof fn lemma_session_inserted_len(list: Seq<SessionView>, session: SessionView)
    ensures
        session_inserted(list, session).len() == list.len() + 1,
    decreases list.len(),
{
    if list.len() > 0 {
        lemma_session_inserted_len(list.drop_last(), session);
    }
}

/// The menu has a line for each session.
pub proof fn lemma_sessions_sorted_len(list: Seq<SessionView>)
    ensures
        sessions_sorted(list).len() == list.len(),
    decreases list.len(),
{
    if list.len() > 0 {
        lemma_sessions_sorted_len(list.drop_last());
        lemma_session_inserted_len(sessions_sorted(list.drop_last()), list.last());
    }
}

pub(crate) fn is_selected(selected: Option<&str>, id: &str) -> (r: bool)
    ensures
        r == (selected.deep_view() == Some(id@)),
{
    match selected {
        Some(selected) => text::same(selected, id),
        None => false,
    }
}

fn new_session_item(session: &WeaveSession, selected: bool, hint: &str, action: MenuAction) -> (r:
    MenuItem)
    ensures
        r.deep_view() == session_item(session.deep_view(), selected, hint@, action.deep_view()),
{
    let label = session.display_name();
    let search = text::concat3(label.as_str(), " ", session.id.as_str());
    let name = if selected {
        text::concat2("✓ ", label.as_str())
    } else {
        label
    };
    let mut r = new_item(name, Some(text::concat2("id: ", session.id.as_str())), action);
    r.selected_description = Some(hint.to_owned());
    r.search_value = Some(search);
    r
}

fn new_join_item(session: &WeaveSession, selected: Option<&str>) -> (r: MenuItem)
    ensures
        r.deep_view() == join_item(session.deep_view(), selected.deep_view()),
{
    if is_selected(selected, session.id.as_str()) {
        new_session_item(
            session,
            true,
            "Press Enter to leave this session.",
            MenuAction::SelectSession { session: None },
        )
    } else {
        new_session_item(
            session,
            false,
            "Press Enter to join this session.",
            MenuAction::SelectSession { session: Some(session.clone()) },
        )
    }
}

fn new_close_item(session: &WeaveSession, selected: Option<&str>) -> (r: MenuItem)
    ensures
        r.deep_view() == close_item(session.deep_view(), selected.deep_view()),
{
    new_session_item(
        session,
        is_selected(selected, session.id.as_str()),
        "Press Enter to close this session.",
        MenuAction::CloseSession { session: session.clone() },
    )
}

fn hinted(item: MenuItem, hint: &str) -> (r: MenuItem)
    ensures
        r.deep_view() == (ItemView { selected_description: Some(hint@), ..item.deep_view() }),
{
    let mut item = item;
    item.selected_description = Some(hint.to_owned());
    item
}

fn new_session_menu_head(agent_name: &str, count: usize) -> (r: Vec<MenuItem>)
    ensures
        r.deep_view() == session_menu_head(agent_name@, count as nat),
{
    let mut items = no_items();
    push_item(
        &mut items,
        hinted(
            new_item(
                "Set agent name".to_owned(),
                Some(text::concat2("Current: ", agent_name)),
                MenuAction::OpenAgentNamePrompt,
            ),
            "Press Enter to rename this agent.",
        ),
    );
    push_item(&mut items, empty_item());
    push_item(
        &mut items,
        hinted(
            new_item(
                "Create new session".to_owned(),
                Some("Create a new Weave session.".to_owned()),
                MenuAction::OpenSessionCreatePrompt,
            ),
            "Press Enter to create a new session.",
        ),
    );
    push_item(
        &mut items,
        hinted(
            new_item(
                "Close session".to_owned(),
                Some("Close or manage existing Weave sessions.".to_owned()),
                MenuAction::OpenCloseMenu,
            ),
            if count == 0 {
                "No sessions to close."
            } else {
                "Press Enter to manage session close."
            },
        ),
    );
    let ghost head = items.deep_view();
    if count > 0 {
        push_item(&mut items, empty_item());
        let mut row = empty_item();
        row.is_search_row = true;
        push_item(&mut items, row);
    }
    proof {
        assert(items.deep_view() =~= session_menu_head(agent_name@, count as nat));
    }
    items
}

/// The menu of sessions.
pub fn open_weave_session_menu(
    sessions: Vec<WeaveSession>,
    selected: Option<&str>,
    agent_name: &str,
) -> (r: Menu)
    ensures
        r.deep_view() == session_menu(
            sessions.deep_view(),
            selected.deep_view(),
            agent_name@,
        ),
{
    let ghost listed = sessions.deep_view();
    proof {
        lemma_sessions_sorted_len(listed);
        assert(listed.len() == sessions@.len());
    }
    let count = sessions.len();
    let sorted = sort_sessions(sessions);
    let ghost all = sorted.deep_view();
    let ghost picked = selected.deep_view();
    let mut items = new_session_menu_head(agent_name, count);
    let ghost head = items.deep_view();
    let start = items.len();
    let mut place: Option<usize> = None;
    proof {
        assert(head.len() == items@.len());
        assert(all.len() == sorted@.len());
        assert(all.take(0) =~= Seq::<SessionView>::empty());
        assert(head + Seq::new(0, |i: int| join_item(all[i], picked)) =~= head);
    }
    for i in 0..sorted.len()
        invariant
            all == sorted.deep_view(),
            all.len() == sorted@.len(),
            picked == selected.deep_view(),
            start <= 6,
            start == head.len(),
            items.deep_view() == head + Seq::new(i as nat, |i: int| join_item(all[i], picked)),
            items@.len() == start + i,
            place == selected_place(all.take(i as int), picked, start as int),
    {
        proof {
            assert(all.take(i + 1).drop_last() =~= all.take(i as int));
            assert(all.take(i + 1).last() == sorted@[i as int].deep_view());
        }
        if is_selected(selected, sorted[i].id.as_str()) {
            place = Some(items.len());
        }
        let ghost before = items.deep_view();
        push_item(&mut items, new_join_item(&sorted[i], selected));
        proof {
            assert(items.deep_view().len() == items@.len());
            assert(items.deep_view() =~= head + Seq::new(
                (i + 1) as nat,
                |i: int| join_item(all[i], picked),
            ));
        }
    }
    proof {
        assert(all.take(all.len() as int) =~= all);
    }
    let subtitle = if count == 0 {
        "No sessions found. Create one to get started."
    } else {
        "Select a session to join or leave, or manage sessions."
    };
    let mut r = new_menu("Weave", Some(subtitle.to_owned()), items);
    r.is_searchable = count > 0;
    r.search_placeholder = if count > 0 {
        Some("Type to filter sessions".to_owned())
    } else {
        None
    };
    r.initial_selected_idx = match place {
        Some(place) => Some(place),
        None => if count > 0 {
            Some(start)
        } else {
            Some(2)
        },
    };
    r
}

/// The menu of sessions to close.
pub fn open_weave_session_close_menu(sessions: Vec<WeaveSession>, selected: Option<&str>) -> (r: Menu)
    ensures
        r.deep_view() == close_menu(sessions.deep_view(), selected.deep_view()),
{
    let ghost listed = sessions.deep_view();
    proof {
        lemma_sessions_sorted_len(listed);
        assert(listed.len() == sessions@.len());
    }
    let count = sessions.len();
    let sorted = sort_sessions(sessions);
    let ghost all = sorted.deep_view();
    let ghost picked = selected.deep_view();
    let mut items = no_items();
    let mut place: Option<usize> = None;
    proof {
        assert(all.len() == sorted@.len());
        assert(all.take(0) =~= Seq::<SessionView>::empty());
        assert(Seq::new(0, |i: int| close_item(all[i], picked)) =~= Seq::<ItemView>::empty());
    }
    for i in 0..sorted.len()
        invariant
            all == sorted.deep_view(),
            all.len() == sorted@.len(),
            picked == selected.deep_view(),
            items.deep_view() == Seq::new(i as nat, |i: int| close_item(all[i], picked)),
            items@.len() == i,
            place == selected_place(all.take(i as int), picked, 0),
    {
        proof {
            assert(all.take(i + 1).drop_last() =~= all.take(i as int));
            assert(all.take(i + 1).last() == sorted@[i as int].deep_view());
        }
        if is_selected(selected, sorted[i].id.as_str()) {
            place = Some(items.len());
        }
        push_item(&mut items, new_close_item(&sorted[i], selected));
        proof {
            assert(items.deep_view().len() == items@.len());
            assert(items.deep_view() =~= Seq::new(
                (i + 1) as nat,
                |i: int| close_item(all[i], picked),
            ));
        }
    }
    proof {
        assert(all.take(all.len() as int) =~= all);
        assert(items.deep_view() =~= Seq::new(all.len(), |i: int| close_item(all[i], picked)));
    }
    let subtitle = if count == 0 {
        "No sessions available to close."
    } else {
        "Select a session to close."
    };
    let mut r = new_menu("Close Weave session", Some(subtitle.to_owned()), items);
    let mut cancel: Vec<MenuAction> = Vec::new();
    cancel.push(MenuAction::OpenSessionMenu);
    proof {
        assert(cancel.deep_view() =~= seq![MenuActionView::OpenSessionMenu]);
    }
    r.is_searchable = true;
    r.search_placeholder = Some("Type to filter sessions".to_owned());
    r.initial_selected_idx = match place {
        Some(place) => Some(place),
        None => Some(0),
    };
    r.on_cancel = cancel;
    r
}

// ---------------------------------------------------------------------------
// Efforts
// ---------------------------------------------------------------------------

/// Whether an effort is supported.
pub open spec fn supports(efforts: Seq<EffortOption<Seq<char>>>, effort: ReasoningEffort) -> bool {
    exists|i: int| 0 <= i < efforts.len() && (#[trigger] efforts[i]).effort == effort
}

/// What is said of an effort: what its first entry says.
pub open spec fn effort_description(
    efforts: Seq<EffortOption<Seq<char>>>,
    effort: ReasoningEffort,
) -> Option<Seq<char>>
    decreases efforts.len(),
{
    if efforts.len() == 0 {
        None
    } else if efforts[0].effort == effort {
        if efforts[0].description.len() == 0 {
            None
        } else {
            Some(efforts[0].description)
        }
    } else {
        effort_description(efforts.subrange(1, efforts.len() as int), effort)
    }
}

/// The efforts of `among` that are supported, in their order.
pub open spec fn supported_of(
    efforts: Seq<EffortOption<Seq<char>>>,
    among: Seq<ReasoningEffort>,
) -> Seq<ReasoningEffort>
    decreases among.len(),
{
    if among.len() == 0 {
        seq![]
    } else if supports(efforts, among.last()) {
        supported_of(efforts, among.drop_last()).push(among.last())
    } else {
        supported_of(efforts, among.drop_last())
    }
}

/// All efforts, the smallest first.
pub open spec fn all_efforts() -> Seq<ReasoningEffort> {
    seq![
        ReasoningEffort::NoReasoning,
        ReasoningEffort::Minimal,
        ReasoningEffort::Low,
        ReasoningEffort::Medium,
        ReasoningEffort::High,
        ReasoningEffort::XHigh,
    ]
}

/// The efforts to choose from: those that the model supports, or its default.
pub open spec fn effort_choices(preset: PresetView) -> Seq<ReasoningEffort> {
    let supported = supported_of(preset.efforts, all_efforts());
    if supported.len() == 0 {
        seq![preset.default_effort]
    } else {
        supported
    }
}

/// Where an effort stands first among the choices.
pub open spec fn effort_place(
    choices: Seq<ReasoningEffort>,
    effort: ReasoningEffort,
) -> Option<usize>
    decreases choices.len(),
{
    if choices.len() == 0 {
        None
    } else {
        match effort_place(choices.drop_last(), effort) {
            Some(place) => Some(place),
            None => if choices.last() == effort {
                Some((choices.len() - 1) as usize)
            } else {
                None
            },
        }
    }
}

/// The choice that counts as the default: that of the model, if it can be
/// chosen, or else the first one.
pub open spec fn default_choice(preset: PresetView) -> ReasoningEffort {
    let choices = effort_choices(preset);
    if choices.contains(preset.default_effort) {
        preset.default_effort
    } else {
        choices[0]
    }
}

/// The name of an effort.
pub open spec fn effort_label(effort: ReasoningEffort) -> Seq<char> {
    match effort {
        ReasoningEffort::NoReasoning => "None"@,
        ReasoningEffort::Minimal => "Minimal"@,
        ReasoningEffort::Low => "Low"@,
        ReasoningEffort::Medium => "Medium"@,
        ReasoningEffort::High => "High"@,
        ReasoningEffort::XHigh => "Extra high"@,
    }
}

/// The effort that the user is warned of: the highest, from high on.
pub open spec fn warned_effort(efforts: Seq<EffortOption<Seq<char>>>) -> Option<ReasoningEffort> {
    if supports(efforts, ReasoningEffort::XHigh) {
        Some(ReasoningEffort::XHigh)
    } else if supports(efforts, ReasoningEffort::High) {
        Some(ReasoningEffort::High)
    } else {
        None
    }
}

/// Whether the user is warned of high efforts of a model.
pub open spec fn warns_for(model: Seq<char>) -> bool {
    "gpt-5.1-codex"@.is_prefix_of(model) || "gpt-5.2"@.is_prefix_of(model)
}

/// The warning about an effort.
pub open spec fn effort_warning(effort: ReasoningEffort) -> Seq<char> {
    "⚠ "@ + effort_label(effort)
        + " reasoning effort can quickly consume Plus plan rate limits."@
}

/// A line of the menu of efforts; `highlight` is the effort in use, where this is
/// the model in use.
pub open spec fn effort_item(
    preset: PresetView,
    effort: ReasoningEffort,
    is_current_model: bool,
    highlight: Option<ReasoningEffort>,
) -> ItemView {
    let description = effort_description(preset.efforts, effort);
    ItemView {
        selected_description: if warns_for(preset.model) && warned_effort(preset.efforts) == Some(
            effort,
        ) {
            Some(
                match description {
                    Some(description) => description + "\n"@ + effort_warning(effort),
                    None => effort_warning(effort),
                },
            )
        } else {
            None
        },
        is_current: is_current_model && highlight == Some(effort),
        ..item(
            if effort == default_choice(preset) {
                effort_label(effort) + " (default)"@
            } else {
                effort_label(effort)
            },
            description,
            MenuActionView::UseModel { model: preset.model, effort: Some(effort) },
        )
    }
}

/// The effort that is highlighted: the one in use, where this is the model in
/// use, or else the default.
pub open spec fn highlighted(
    preset: PresetView,
    is_current_model: bool,
    current: Option<ReasoningEffort>,
) -> Option<ReasoningEffort> {
    if is_current_model {
        current
    } else {
        Some(default_choice(preset))
    }
}

/// The menu of efforts of a model.
pub open spec fn effort_menu(
    preset: PresetView,
    is_current_model: bool,
    current: Option<ReasoningEffort>,
) -> MenuView {
    let choices = effort_choices(preset);
    let highlight = highlighted(preset, is_current_model, current);
    MenuView {
        initial_selected_idx: effort_place(
            choices,
            match highlight {
                Some(effort) => effort,
                None => default_choice(preset),
            },
        ),
        ..headed_menu(
            seq!["Select Reasoning Level for "@ + preset.model],
            Seq::new(
                choices.len(),
                |i: int| effort_item(preset, choices[i], is_current_model, highlight),
            ),
        )
    }
}

/// What comes of a model that was chosen.
pub enum EffortOutcome {
    /// There is one effort only: use the model with it.
    Use(ReasoningEffort),
    /// Ask for the effort.
    Ask(Menu),
}

fn is_supported(efforts: &Vec<EffortOption>, effort: ReasoningEffort) -> (r: bool)
    ensures
        r == supports(efforts.deep_view(), effort),
{
    let ghost all = efforts.deep_view();
    for i in 0..efforts.len()
        invariant
            all == efforts.deep_view(),
            forall|j: int| 0 <= j < i ==> (#[trigger] all[j]).effort != effort,
    {
        proof {
            assert(all[i as int] == efforts@[i as int].deep_view());
        }
        if efforts[i].effort == effort {
            return true;
        }
    }
    false
}

proof fn lemma_description_at(
    efforts: Seq<EffortOption<Seq<char>>>,
    effort: ReasoningEffort,
    n: int,
)
    requires
        0 <= n <= efforts.len(),
        forall|i: int| 0 <= i < n ==> (#[trigger] efforts[i]).effort != effort,
        n < efforts.len() ==> efforts[n].effort == effort,
    ensures
        effort_description(efforts, effort) == (if n < efforts.len()
            && efforts[n].description.len() > 0 {
            Some(efforts[n].description)
        } else {
            None
        }),
    decreases efforts.len(),
{
    if n > 0 {
        let rest = efforts.subrange(1, efforts.len() as int);
        assert forall|i: int| 0 <= i < n - 1 implies (#[trigger] rest[i]).effort != effort by {
            assert(rest[i] == efforts[i + 1]);
        }
        lemma_description_at(rest, effort, n - 1);
    }
}

fn find_description(efforts: &Vec<EffortOption>, effort: ReasoningEffort) -> (r: Option<String>)
    ensures
        r.deep_view() == effort_description(efforts.deep_view(), effort),
{
    let ghost all = efforts.deep_view();
    for i in 0..efforts.len()
        invariant
            all == efforts.deep_view(),
            forall|j: int| 0 <= j < i ==> (#[trigger] all[j]).effort != effort,
    {
        proof {
            assert(all[i as int] == efforts@[i as int].deep_view());
        }
        if efforts[i].effort == effort {
            proof {
                lemma_description_at(all, effort, i as int);
            }
            return if efforts[i].description.as_str().is_empty() {
                None
            } else {
                Some(efforts[i].description.clone())
            };
        }
    }
    proof {
        lemma_description_at(all, effort, all.len() as int);
    }
    None
}

fn list_efforts() -> (r: Vec<ReasoningEffort>)
    ensures
        r@ == all_efforts(),
{
    let mut r: Vec<ReasoningEffort> = Vec::new();
    r.push(ReasoningEffort::NoReasoning);
    r.push(ReasoningEffort::Minimal);
    r.push(ReasoningEffort::Low);
    r.push(ReasoningEffort::Medium);
    r.push(ReasoningEffort::High);
    r.push(ReasoningEffort::XHigh);
    proof {
        assert(r@ =~= all_efforts());
    }
    r
}

fn list_choices(preset: &ModelPreset) -> (r: Vec<ReasoningEffort>)
    ensures
        r@ == effort_choices(preset.deep_view()),
        r@.len() > 0,
{
    let among = list_efforts();
    let mut r: Vec<ReasoningEffort> = Vec::new();
    let ghost efforts = preset.deep_view().efforts;
    proof {
        assert(among@.take(0) =~= Seq::<ReasoningEffort>::empty());
    }
    for i in 0..among.len()
        invariant
            efforts == preset.efforts.deep_view(),
            r@ == supported_of(efforts, among@.take(i as int)),
    {
        proof {
            assert(among@.take(i + 1).drop_last() =~= among@.take(i as int));
            assert(among@.take(i + 1).last() == among@[i as int]);
        }
        if is_supported(&preset.efforts, among[i]) {
            r.push(among[i]);
        }
    }
    proof {
        assert(among@.take(among@.len() as int) =~= among@);
    }
    if r.len() == 0 {
        r.push(preset.default_effort);
        proof {
            assert(r@ =~= seq![preset.default_effort]);
        }
    }
    r
}

fn find_effort(choices: &Vec<ReasoningEffort>, effort: ReasoningEffort) -> (r: Option<usize>)
    ensures
        r == effort_place(choices@, effort),
        (r is Some) == choices@.contains(effort),
{
    proof {
        assert(choices@.take(0) =~= Seq::<ReasoningEffort>::empty());
    }
    let mut r: Option<usize> = None;
    for i in 0..choices.len()
        invariant
            r == effort_place(choices@.take(i as int), effort),
            (r is Some) == choices@.take(i as int).contains(effort),
    {
        proof {
            let more = choices@.take(i + 1);
            assert(more.drop_last() =~= choices@.take(i as int));
            assert(more.last() == choices@[i as int]);
            assert(more =~= choices@.take(i as int).push(choices@[i as int]));
            if choices@.take(i as int).contains(effort) {
                let j = choose|j: int|
                    0 <= j < i && choices@.take(i as int)[j] == effort;
                assert(more[j] == effort);
            }
            if more.contains(effort) && choices@[i as int] != effort {
                let j = choose|j: int| 0 <= j < more.len() && more[j] == effort;
                assert(choices@.take(i as int)[j] == effort);
            }
            if choices@[i as int] == effort {
                assert(more[i as int] == effort);
            }
        }
        if r.is_none() && choices[i] == effort {
            r = Some(i);
        }
    }
    proof {
        assert(choices@.take(choices@.len() as int) =~= choices@);
    }
    r
}

/// The name of an effort.
pub fn reasoning_effort_label(effort: ReasoningEffort) -> (r: &'static str)
    ensures
        r@ == effort_label(effort),
{
    match effort {
        ReasoningEffort::NoReasoning => "None",
        ReasoningEffort::Minimal => "Minimal",
        ReasoningEffort::Low => "Low",
        ReasoningEffort::Medium => "Medium",
        ReasoningEffort::High => "High",
        ReasoningEffort::XHigh => "Extra high",
    }
}

fn find_warned(efforts: &Vec<EffortOption>) -> (r: Option<ReasoningEffort>)
    ensures
        r == warned_effort(efforts.deep_view()),
{
    if is_supported(efforts, ReasoningEffort::XHigh) {
        Some(ReasoningEffort::XHigh)
    } else if is_supported(efforts, ReasoningEffort::High) {
        Some(ReasoningEffort::High)
    } else {
        None
    }
}

fn new_effort_item(
    preset: &ModelPreset,
    effort: ReasoningEffort,
    is_default: bool,
    is_current: bool,
) -> (r: MenuItem)
    requires
        is_default == (effort == default_choice(preset.deep_view())),
    ensures
        r.deep_view() == (ItemView {
            is_current,
            ..effort_item(preset.deep_view(), effort, false, None)
        }),
{
    let description = find_description(&preset.efforts, effort);
    let warns = text::starts_with(preset.model.as_str(), "gpt-5.1-codex") || text::starts_with(
        preset.model.as_str(),
        "gpt-5.2",
    );
    let selected = if warns && find_warned(&preset.efforts) == Some(effort) {
        let warning = text::concat3(
            "⚠ ",
            reasoning_effort_label(effort),
            " reasoning effort can quickly consume Plus plan rate limits.",
        );
        Some(
            match &description {
                Some(description) => text::concat3(description.as_str(), "\n", warning.as_str()),
                None => warning,
            },
        )
    } else {
        None
    };
    let name = if is_default {
        text::concat2(reasoning_effort_label(effort), " (default)")
    } else {
        reasoning_effort_label(effort).to_owned()
    };
    let mut r = new_item(
        name,
        description,
        MenuAction::UseModel { model: preset.model.clone(), effort: Some(effort) },
    );
    r.selected_description = selected;
    r.is_current = is_current;
    r
}

/// What comes of a model that was chosen: it is used at once if there is one
/// effort only, or else the user is asked for the effort. `current_model` and
/// `current_effort` are those in use.
pub fn open_reasoning_popup(
    preset: &ModelPreset,
    current_model: Option<&str>,
    current_effort: Option<ReasoningEffort>,
) -> (r: EffortOutcome)
    ensures
        match r {
            EffortOutcome::Use(effort) => effort_choices(preset.deep_view()) == seq![effort],
            EffortOutcome::Ask(menu) => effort_choices(preset.deep_view()).len() > 1
                && menu.deep_view() == effort_menu(
                preset.deep_view(),
                current_model.deep_view() == Some(preset.model@),
                current_effort,
            ),
        },
{
    let choices = list_choices(preset);
    let ghost view = preset.deep_view();
    if choices.len() == 1 {
        proof {
            assert(choices@ =~= seq![choices@[0]]);
        }
        return EffortOutcome::Use(choices[0]);
    }
    let is_current = is_selected(current_model, preset.model.as_str());
    let default = if find_effort(&choices, preset.default_effort).is_some() {
        preset.default_effort
    } else {
        choices[0]
    };
    let highlight = if is_current {
        current_effort
    } else {
        Some(default)
    };
    let mut items = no_items();
    proof {
        assert(Seq::new(0, |i: int| effort_item(view, choices@[i], is_current, highlight))
            =~= Seq::<ItemView>::empty());
    }
    for i in 0..choices.len()
        invariant
            view == preset.deep_view(),
            default == default_choice(view),
            items.deep_view() == Seq::new(
                i as nat,
                |i: int| effort_item(view, choices@[i], is_current, highlight),
            ),
    {
        let line = new_effort_item(
            preset,
            choices[i],
            choices[i] == default,
            is_current && highlight == Some(choices[i]),
        );
        push_item(&mut items, line);
        proof {
            assert(items.deep_view() =~= Seq::new(
                (i + 1) as nat,
                |i: int| effort_item(view, choices@[i], is_current, highlight),
            ));
        }
    }
    let title = text::concat2("Select Reasoning Level for ", preset.model.as_str());
    let ghost heading = title@;
    let mut header: Vec<String> = Vec::new();
    header.push(title);
    proof {
        assert(text::views(header@) =~= seq![heading]);
    }
    let mut r = new_headed_menu(header, items);
    r.initial_selected_idx = find_effort(
        &choices,
        match highlight {
            Some(effort) => effort,
            None => default,
        },
    );
    proof {
        assert(r.deep_view().items =~= effort_menu(view, is_current, current_effort).items);
    }
    EffortOutcome::Ask(r)
}

/// The effort that is highlighted at first is one of those that can be chosen,
/// unless the one in use cannot be.
pub proof fn law_the_default_can_be_chosen(preset: PresetView)
    ensures
        effort_choices(preset).len() > 0,
        effort_choices(preset).contains(default_choice(preset)),
{
    let choices = effort_choices(preset);
    if !choices.contains(preset.default_effort) {
        assert(choices[0] == default_choice(preset));
    }
}

proof fn lemma_session_before(a: SessionView, b: SessionView, c: SessionView)
    ensures
        session_before(a, b) ==> !session_before(b, a),
        !session_before(b, a) && !session_before(c, b) ==> !session_before(c, a),
{
    let x = session_label(a);
    let y = session_label(b);
    let z = session_label(c);
    text::law_less_is_an_order(x, y);
    text::law_less_is_an_order(y, z);
    text::law_less_is_an_order(x, z);
    text::law_less_is_an_order(a.id, b.id);
    text::law_less_is_an_order(b.id, c.id);
    text::law_less_is_an_order(a.id, c.id);
    if text::less(x, y) && text::less(y, z) {
        text::lemma_less_transitive(x, y, z);
    }
    if text::less(a.id, b.id) && text::less(b.id, c.id) {
        text::lemma_less_transitive(a.id, b.id, c.id);
    }
    if text::less(z, x) && text::less(x, y) {
        text::lemma_less_transitive(z, x, y);
    }
    if text::less(y, z) && text::less(z, x) {
        text::lemma_less_transitive(y, z, x);
    }
    if text::less(c.id, a.id) && text::less(a.id, b.id) {
        text::lemma_less_transitive(c.id, a.id, b.id);
    }
    if text::less(b.id, c.id) && text::less(c.id, a.id) {
        text::lemma_less_transitive(b.id, c.id, a.id);
    }
}

/// Whether no session stands before an earlier one.
pub open spec fn sessions_in_order(list: Seq<SessionView>) -> bool {
    forall|i: int, j: int|
        0 <= i < j < list.len() ==> !session_before(#[trigger] list[j], #[trigger] list[i])
}

proof fn lemma_session_inserted(list: Seq<SessionView>, session: SessionView)
    requires
        sessions_in_order(list),
    ensures
        sessions_in_order(session_inserted(list, session)),
        session_inserted(list, session).to_multiset() == list.to_multiset().insert(session),
        session_inserted(list, session).len() == list.len() + 1,
        forall|x: SessionView| #[trigger]
            session_inserted(list, session).contains(x) ==> x == session || list.contains(x),
    decreases list.len(),
{
    broadcast use vstd::seq_lib::group_to_multiset_ensures;

    if list.len() > 0 && session_before(session, list.last()) {
        let head = list.drop_last();
        lemma_session_inserted(head, session);
        let front = session_inserted(head, session);
        let all = session_inserted(list, session);
        assert forall|i: int| 0 <= i < front.len() implies !session_before(
            list.last(),
            #[trigger] front[i],
        ) by {
            assert(front.contains(front[i]));
            if front[i] == session {
                lemma_session_before(session, list.last(), session);
            } else {
                let k = choose|k: int| 0 <= k < head.len() && head[k] == front[i];
                assert(list[k] == front[i]);
            }
        }
        assert(list =~= head.push(list.last()));
        assert(all.to_multiset() =~= list.to_multiset().insert(session));
        assert forall|x: SessionView| #[trigger] all.contains(x) implies x == session
            || list.contains(x) by {
            let k = choose|k: int| 0 <= k < all.len() && all[k] == x;
            if k < front.len() {
                assert(front.contains(x));
                if x != session {
                    let m = choose|m: int| 0 <= m < head.len() && head[m] == x;
                    assert(list[m] == x);
                }
            } else {
                assert(list[list.len() - 1] == x);
            }
        }
    } else {
        let all = list.push(session);
        assert forall|i: int| 0 <= i < list.len() implies !session_before(
            session,
            #[trigger] list[i],
        ) by {
            if i < list.len() - 1 {
                lemma_session_before(list[i], list.last(), session);
            }
        }
        assert forall|x: SessionView| #[trigger] all.contains(x) implies x == session
            || list.contains(x) by {
            let k = choose|k: int| 0 <= k < all.len() && all[k] == x;
            if k < list.len() {
                assert(list[k] == x);
            }
        }
    }
}

/// Sessions are shown by their names, and by their ids where the names are the same; none
/// is left out, and none is shown twice.
pub proof fn law_sessions_are_shown_in_order(list: Seq<SessionView>)
    ensures
        sessions_in_order(sessions_sorted(list)),
        sessions_sorted(list).to_multiset() == list.to_multiset(),
        sessions_sorted(list).len() == list.len(),
    decreases list.len(),
{
    broadcast use vstd::seq_lib::group_to_multiset_ensures;

    if list.len() > 0 {
        law_sessions_are_shown_in_order(list.drop_last());
        lemma_session_inserted(sessions_sorted(list.drop_last()), list.last());
        assert(list =~= list.drop_last().push(list.last()));
    }
}

/// Each session has a line of its own, behind what the menu begins with: it joins that
/// session, or leaves it where it is the selected one.
pub proof fn law_each_session_can_be_joined_or_left(
    sessions: Seq<SessionView>,
    selected: Option<Seq<char>>,
    agent_name: Seq<char>,
)
    ensures
        ({
            let items = session_menu(sessions, selected, agent_name).items;
            let sorted = sessions_sorted(sessions);
            let n = if sessions.len() > 0 {
                6int
            } else {
                4int
            };
            &&& items.len() == n + sessions.len()
            &&& items[0].actions == seq![MenuActionView::OpenAgentNamePrompt]
            &&& items[2].actions == seq![MenuActionView::OpenSessionCreatePrompt]
            &&& items[3].actions == seq![MenuActionView::OpenCloseMenu]
            &&& forall|i: int|
                0 <= i < sessions.len() ==> (#[trigger] items[n + i]).actions == (if selected
                    == Some(sorted[i].id) {
                    seq![MenuActionView::SelectSession { session: None }]
                } else {
                    seq![MenuActionView::SelectSession { session: Some(sorted[i]) }]
                })
        }),
{
    law_sessions_are_shown_in_order(sessions);
}

/// Each session has a line that closes it.
pub proof fn law_each_session_can_be_closed(
    sessions: Seq<SessionView>,
    selected: Option<Seq<char>>,
)
    ensures
        ({
            let items = close_menu(sessions, selected).items;
            let sorted = sessions_sorted(sessions);
            &&& items.len() == sessions.len()
            &&& forall|i: int|
                0 <= i < sessions.len() ==> (#[trigger] items[i]).actions == seq![
                    MenuActionView::CloseSession { session: sorted[i] },
                ]
        }),
{
    law_sessions_are_shown_in_order(sessions);
}

/// The line of the selected session is the one that is marked at first.
pub proof fn law_the_selected_session_is_marked(
    sessions: Seq<SessionView>,
    selected: Option<Seq<char>>,
    from: int,
)
    requires
        0 <= from,
        from + sessions.len() <= usize::MAX,
    ensures
        selected_place(sessions, selected, from) matches Some(place) ==> from <= place < from
            + sessions.len() && selected == Some(sessions[place - from].id),
        selected_place(sessions, selected, from) is None ==> forall|i: int|
            0 <= i < sessions.len() ==> selected != Some((#[trigger] sessions[i]).id),
    decreases sessions.len(),
{
    if sessions.len() > 0 && selected != Some(sessions.last().id) {
        law_the_selected_session_is_marked(sessions.drop_last(), selected, from);
        if selected_place(sessions, selected, from) is None {
            assert forall|i: int| 0 <= i < sessions.len() implies selected != Some(
                (#[trigger] sessions[i]).id,
            ) by {
                if i < sessions.len() - 1 {
                    assert(sessions.drop_last()[i] == sessions[i]);
                }
            }
        }
    }
}

proof fn lemma_supported(efforts: Seq<EffortOption<Seq<char>>>, among: Seq<ReasoningEffort>)
    ensures
        forall|effort: ReasoningEffort| #[trigger]
            supported_of(efforts, among).contains(effort) <==> among.contains(effort) && supports(
                efforts,
                effort,
            ),
    decreases among.len(),
{
    let all = supported_of(efforts, among);
    if among.len() > 0 {
        let front = among.drop_last();
        let before = supported_of(efforts, front);
        lemma_supported(efforts, front);
        assert forall|effort: ReasoningEffort| #[trigger] all.contains(effort)
            <==> among.contains(effort) && supports(efforts, effort) by {
            if all.contains(effort) {
                let k = choose|k: int| 0 <= k < all.len() && all[k] == effort;
                if k < before.len() {
                    assert(before[k] == effort);
                    assert(before.contains(effort));
                    let m = choose|m: int| 0 <= m < front.len() && front[m] == effort;
                    assert(among[m] == effort);
                } else {
                    assert(among[among.len() - 1] == effort);
                }
            }
            if among.contains(effort) && supports(efforts, effort) {
                let k = choose|k: int| 0 <= k < among.len() && among[k] == effort;
                if k < front.len() {
                    assert(front[k] == effort);
                    assert(before.contains(effort));
                    let m = choose|m: int| 0 <= m < before.len() && before[m] == effort;
                    assert(all[m] == effort);
                } else {
                    assert(all[all.len() - 1] == effort);
                }
            }
        }
    }
}

/// The efforts to choose from are those that the model supports, and its default where it
/// names none; each line takes the model with its own effort.
pub proof fn law_each_effort_can_be_chosen(
    preset: PresetView,
    effort: ReasoningEffort,
    is_current_model: bool,
    current: Option<ReasoningEffort>,
)
    ensures
        preset.efforts.len() > 0 ==> (effort_choices(preset).contains(effort) <==> exists|i: int|
            0 <= i < preset.efforts.len() && (#[trigger] preset.efforts[i]).effort == effort),
        preset.efforts.len() == 0 ==> effort_choices(preset) == seq![preset.default_effort],
        ({
            let items = effort_menu(preset, is_current_model, current).items;
            let choices = effort_choices(preset);
            &&& items.len() == choices.len()
            &&& forall|i: int|
                0 <= i < items.len() ==> (#[trigger] items[i]).actions == seq![
                    MenuActionView::UseModel { model: preset.model, effort: Some(choices[i]) },
                ]
        }),
{
    let all = all_efforts();
    lemma_supported(preset.efforts, all);
    let supported = supported_of(preset.efforts, all);
    assert forall|any: ReasoningEffort| #[trigger] all.contains(any) by {
        assert(all[0] == ReasoningEffort::NoReasoning);
        assert(all[1] == ReasoningEffort::Minimal);
        assert(all[2] == ReasoningEffort::Low);
        assert(all[3] == ReasoningEffort::Medium);
        assert(all[4] == ReasoningEffort::High);
        assert(all[5] == ReasoningEffort::XHigh);
    }
    if preset.efforts.len() > 0 {
        let first = preset.efforts[0].effort;
        assert(supports(preset.efforts, first));
        assert(all.contains(first));
        assert(supported.contains(first));
        assert(all.contains(effort));
    } else if supported.len() > 0 {
        assert(supported.contains(supported[0]));
        assert(supports(preset.efforts, supported[0]));
    }
}

/// Each effort has a name of its own.
pub proof fn law_efforts_are_told_apart(a: ReasoningEffort, b: ReasoningEffort)
    requires
        effort_label(a) == effort_label(b),
    ensures
        a == b,
{
    reveal_strlit("None");
    reveal_strlit("Minimal");
    reveal_strlit("Low");
    reveal_strlit("Medium");
    reveal_strlit("High");
    reveal_strlit("Extra high");
    assert("None"@.len() == 4 && "Minimal"@.len() == 7 && "Low"@.len() == 3 && "Medium"@.len() == 6
        && "High"@.len() == 4 && "Extra high"@.len() == 10);
    assert("None"@[0] == 'N' && "High"@[0] == 'H');
}

/// It is the highest effort that is warned of, and only from high on.
pub proof fn law_the_highest_effort_is_warned_of(efforts: Seq<EffortOption<Seq<char>>>, i: int)
    ensures
        0 <= i < efforts.len() && efforts[i].effort == ReasoningEffort::XHigh ==> warned_effort(
            efforts,
        ) == Some(ReasoningEffort::XHigh),
        0 <= i < efforts.len() && efforts[i].effort == ReasoningEffort::High ==> warned_effort(
            efforts,
        ) is Some,
        warned_effort(efforts) == Some(ReasoningEffort::High) ==> forall|j: int|
            0 <= j < efforts.len() ==> (#[trigger] efforts[j]).effort != ReasoningEffort::XHigh,
        (forall|j: int|
            0 <= j < efforts.len() ==> (#[trigger] efforts[j]).effort != ReasoningEffort::XHigh
                && efforts[j].effort != ReasoningEffort::High) ==> warned_effort(efforts) is None,
{
}

/// An effort stands at its first place among the choices, and has none only where it is not
/// among them.
pub proof fn law_an_effort_has_its_place(choices: Seq<ReasoningEffort>, effort: ReasoningEffort)
    requires
        choices.len() <= usize::MAX,
    ensures
        effort_place(choices, effort) matches Some(place) ==> place < choices.len()
            && choices[place as int] == effort,
        effort_place(choices, effort) is None ==> !choices.contains(effort),
    decreases choices.len(),
{
    if choices.len() > 0 {
        let front = choices.drop_last();
        law_an_effort_has_its_place(front, effort);
        if effort_place(choices, effort) is None {
            assert forall|i: int| 0 <= i < choices.len() implies choices[i] != effort by {
                if i < front.len() {
                    assert(front[i] == choices[i]);
                }
            }
        }
    }
}

} // verus!

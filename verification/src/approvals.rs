//! Menus of what needs an approval, and of the sandbox that keeps commands in.

use vstd::prelude::*;

use crate::menus;
use crate::menus::{
    ApprovalKind, ApprovalPreset, ItemView, Menu, MenuAction, MenuActionView, MenuItem, MenuView,
    SandboxKind,
};
use crate::text;

verus! {

/// A preset.
pub type ApprovalView = ApprovalPreset<Seq<char>>;

/// What has to happen before the agent may work by itself.
#[derive(Debug, Clone, Copy, PartialEq, Eq, Structural)]
pub enum AutoStep {
    /// Nothing.
    Apply,
    /// The elevated sandbox, which is set up, has to be used.
    EnableElevated,
    /// The user has to choose a sandbox.
    AskForSandbox,
    /// The user has to hear of folders that anyone can write to.
    WarnOfFolders,
}

/// What is known of the sandbox.
#[derive(Debug, Clone, Copy, PartialEq, Eq, Structural)]
pub struct SandboxFacts {
    /// Whether it is in use, but not elevated.
    pub degraded: bool,
    /// Whether it can be elevated at all.
    pub can_elevate: bool,
    pub auto: AutoStep,
}

/// Whether a preset is what is in use. What a write may touch in detail does not
/// count; a sandbox from outside is no preset.
pub open spec fn matches_current(
    approval: ApprovalKind,
    sandbox: SandboxKind,
    preset: ApprovalPreset<Seq<char>>,
) -> bool {
    preset.approval == approval && preset.sandbox == sandbox && sandbox != SandboxKind::Outside
}

/// What the choice of a preset does: full access is confirmed first, unless the
/// warning is hidden.
pub open spec fn approval_action(
    id: Seq<char>,
    place: usize,
    warning_hidden: bool,
    facts: SandboxFacts,
) -> MenuActionView {
    if id == "full-access"@ && !warning_hidden {
        MenuActionView::ConfirmFullAccess { preset: place }
    } else if id == "auto"@ {
        match facts.auto {
            AutoStep::Apply => MenuActionView::UseApproval { preset: place },
            AutoStep::EnableElevated => MenuActionView::EnableSandbox {
                preset: place,
                elevated: true,
            },
            AutoStep::AskForSandbox => MenuActionView::AskForSandbox { preset: place },
            AutoStep::WarnOfFolders => MenuActionView::WarnOfFolders { preset: place },
        }
    } else {
        MenuActionView::UseApproval { preset: place }
    }
}

/// The line of a preset.
pub open spec fn approval_item(
    preset: ApprovalView,
    place: usize,
    approval: ApprovalKind,
    sandbox: SandboxKind,
    warning_hidden: bool,
    facts: SandboxFacts,
) -> ItemView {
    ItemView {
        is_current: matches_current(approval, sandbox, preset),
        ..menus::item(
            if preset.id == "auto"@ && facts.degraded {
                "Agent (non-elevated sandbox)"@
            } else {
                preset.label
            },
            Some(preset.description),
            approval_action(preset.id, place, warning_hidden, facts),
        )
    }
}

/// The place of the first preset with this id.
pub open spec fn place_of(presets: Seq<ApprovalView>, id: Seq<char>) -> Option<usize>
    decreases presets.len(),
{
    if presets.len() == 0 {
        None
    } else {
        match place_of(presets.drop_last(), id) {
            Some(place) => Some(place),
            None => if presets.last().id == id {
                Some((presets.len() - 1) as usize)
            } else {
                None
            },
        }
    }
}

/// The menu of what needs an approval.
pub open spec fn approvals_menu(
    presets: Seq<ApprovalView>,
    approval: ApprovalKind,
    sandbox: SandboxKind,
    warning_hidden: bool,
    facts: SandboxFacts,
) -> MenuView {
    MenuView {
        footer_note: if facts.can_elevate && facts.degraded && place_of(
            presets,
            "auto"@,
        ) is Some {
            Some(
                "The non-elevated sandbox protects your files and prevents network access under most circumstances. However, it carries greater risk if prompt injected. To upgrade to the elevated sandbox, run /setup-elevated-sandbox."@,
            )
        } else {
            None
        },
        ..menus::menu(
            "Select Approval Mode"@,
            None,
            Seq::new(
                presets.len(),
                |i: int|
                    approval_item(
                        presets[i],
                        i as usize,
                        approval,
                        sandbox,
                        warning_hidden,
                        facts,
                    ),
            ),
        )
    }
}

/// The menu that confirms full access.
pub open spec fn full_access_menu(place: usize) -> MenuView {
    let accept = |name: Seq<char>, description: Seq<char>, remember: bool|
        ItemView {
            actions: seq![
                MenuActionView::UseApproval { preset: place },
                MenuActionView::AcknowledgeFullAccess { remember },
            ],
            ..menus::item(name, Some(description), MenuActionView::UseApproval { preset: place })
        };
    menus::headed_menu(
        seq![
            "Enable full access?"@,
            "When Codex runs with full access, it can edit any file on your computer and run commands with network, without your approval. Exercise caution when enabling full access. This significantly increases the risk of data loss, leaks, or unexpected behavior."@,
        ],
        seq![
            accept("Yes, continue anyway"@, "Apply full access for this session"@, false),
            accept(
                "Yes, and don't ask again"@,
                "Enable full access and remember this choice"@,
                true,
            ),
            menus::item(
                "Cancel"@,
                Some("Go back without enabling full access"@),
                MenuActionView::OpenApprovals,
            ),
        ],
    )
}

/// Whether a preset is what is in use.
pub fn preset_matches_current(
    approval: ApprovalKind,
    sandbox: SandboxKind,
    preset: &ApprovalPreset,
) -> (r: bool)
    ensures
        r == matches_current(approval, sandbox, preset.deep_view()),
{
    preset.approval == approval && preset.sandbox == sandbox && sandbox != SandboxKind::Outside
}

fn find_preset(presets: &Vec<ApprovalPreset>, id: &str) -> (r: Option<usize>)
    ensures
        r == place_of(presets.deep_view(), id@),
        r matches Some(place) ==> place < presets@.len(),
{
    let ghost all = presets.deep_view();
    proof {
        assert(all.take(0) =~= Seq::<ApprovalView>::empty());
    }
    let mut r: Option<usize> = None;
    for i in 0..presets.len()
        invariant
            all == presets.deep_view(),
            r == place_of(all.take(i as int), id@),
            r matches Some(place) ==> place < i,
    {
        proof {
            assert(all.take(i + 1).drop_last() =~= all.take(i as int));
            assert(all.take(i + 1).last() == presets@[i as int].deep_view());
        }
        if r.is_none() && text::same(presets[i].id.as_str(), id) {
            r = Some(i);
        }
    }
    proof {
        assert(all.take(all.len() as int) =~= all);
    }
    r
}

fn new_approval_action(
    id: &str,
    place: usize,
    warning_hidden: bool,
    facts: SandboxFacts,
) -> (r: MenuAction)
    ensures
        r.deep_view() == approval_action(id@, place, warning_hidden, facts),
{
    if text::same(id, "full-access") && !warning_hidden {
        MenuAction::ConfirmFullAccess { preset: place }
    } else if text::same(id, "auto") {
        match facts.auto {
            AutoStep::Apply => MenuAction::UseApproval { preset: place },
            AutoStep::EnableElevated => MenuAction::EnableSandbox {
                preset: place,
                elevated: true,
            },
            AutoStep::AskForSandbox => MenuAction::AskForSandbox { preset: place },
            AutoStep::WarnOfFolders => MenuAction::WarnOfFolders { preset: place },
        }
    } else {
        MenuAction::UseApproval { preset: place }
    }
}

fn new_approval_item(
    preset: &ApprovalPreset,
    place: usize,
    approval: ApprovalKind,
    sandbox: SandboxKind,
    warning_hidden: bool,
    facts: SandboxFacts,
) -> (r: MenuItem)
    ensures
        r.deep_view() == approval_item(
            preset.deep_view(),
            place,
            approval,
            sandbox,
            warning_hidden,
            facts,
        ),
{
    let name = if text::same(preset.id.as_str(), "auto") && facts.degraded {
        "Agent (non-elevated sandbox)".to_owned()
    } else {
        preset.label.clone()
    };
    let mut r = menus::new_item(
        name,
        Some(preset.description.clone()),
        new_approval_action(preset.id.as_str(), place, warning_hidden, facts),
    );
    r.is_current = preset_matches_current(approval, sandbox, preset);
    r
}

/// The menu of what needs an approval, when `approval` and `sandbox` are in use.
pub fn open_approvals_popup(
    presets: &Vec<ApprovalPreset>,
    approval: ApprovalKind,
    sandbox: SandboxKind,
    warning_hidden: bool,
    facts: SandboxFacts,
) -> (r: Menu)
    ensures
        r.deep_view() == approvals_menu(
            presets.deep_view(),
            approval,
            sandbox,
            warning_hidden,
            facts,
        ),
{
    let ghost all = presets.deep_view();
    let ghost lines = approvals_menu(all, approval, sandbox, warning_hidden, facts).items;
    let mut items = menus::no_items();
    proof {
        assert(lines.take(0) =~= Seq::<ItemView>::empty());
    }
    for i in 0..presets.len()
        invariant
            all == presets.deep_view(),
            lines == approvals_menu(all, approval, sandbox, warning_hidden, facts).items,
            items.deep_view() == lines.take(i as int),
    {
        let item = new_approval_item(
            &presets[i],
            i,
            approval,
            sandbox,
            warning_hidden,
            facts,
        );
        proof {
            assert(all[i as int] == presets@[i as int].deep_view());
            assert(item.deep_view() == lines[i as int]);
            assert(lines.take(i + 1) =~= lines.take(i as int).push(lines[i as int]));
        }
        menus::push_item(&mut items, item);
    }
    proof {
        assert(lines.take(lines.len() as int) =~= lines);
    }
    let mut r = menus::new_menu("Select Approval Mode", None, items);
    if facts.can_elevate && facts.degraded && find_preset(presets, "auto").is_some() {
        r.footer_note = Some(
            "The non-elevated sandbox protects your files and prevents network access under most circumstances. However, it carries greater risk if prompt injected. To upgrade to the elevated sandbox, run /setup-elevated-sandbox.".to_owned(),
        );
    }
    r
}

fn two_lines(first: &str, second: &str) -> (r: Vec<String>)
    ensures
        text::views(r@) == seq![first@, second@],
{
    let mut r: Vec<String> = Vec::new();
    r.push(first.to_owned());
    r.push(second.to_owned());
    proof {
        assert(text::views(r@) =~= seq![first@, second@]);
    }
    r
}

fn new_accept_item(name: &str, description: &str, place: usize, remember: bool) -> (r: MenuItem)
    ensures
        r.deep_view() == (ItemView {
            actions: seq![
                MenuActionView::UseApproval { preset: place },
                MenuActionView::AcknowledgeFullAccess { remember },
            ],
            ..menus::item(
                name@,
                Some(description@),
                MenuActionView::UseApproval { preset: place },
            )
        }),
{
    let mut r = menus::new_item(
        name.to_owned(),
        Some(description.to_owned()),
        MenuAction::UseApproval { preset: place },
    );
    let mut actions: Vec<MenuAction> = Vec::new();
    actions.push(MenuAction::UseApproval { preset: place });
    actions.push(MenuAction::AcknowledgeFullAccess { remember });
    proof {
        assert(actions.deep_view() =~= seq![
            MenuActionView::UseApproval { preset: place },
            MenuActionView::AcknowledgeFullAccess { remember },
        ]);
    }
    r.actions = actions;
    r
}

/// The menu that confirms full access by the preset at this place.
pub fn open_full_access_confirmation(place: usize) -> (r: Menu)
    ensures
        r.deep_view() == full_access_menu(place),
{
    let mut items = menus::no_items();
    menus::push_item(
        &mut items,
        new_accept_item(
            "Yes, continue anyway",
            "Apply full access for this session",
            place,
            false,
        ),
    );
    menus::push_item(
        &mut items,
        new_accept_item(
            "Yes, and don't ask again",
            "Enable full access and remember this choice",
            place,
            true,
        ),
    );
    menus::push_item(
        &mut items,
        menus::new_item(
            "Cancel".to_owned(),
            Some("Go back without enabling full access".to_owned()),
            MenuAction::OpenApprovals,
        ),
    );
    let header = two_lines(
        "Enable full access?",
        "When Codex runs with full access, it can edit any file on your computer and run commands with network, without your approval. Exercise caution when enabling full access. This significantly increases the risk of data loss, leaks, or unexpected behavior.",
    );
    let r = menus::new_headed_menu(header, items);
    proof {
        assert(r.deep_view().items =~= full_access_menu(place).items);
    }
    r
}

/// Unless the warning is hidden, no single choice of a menu gives full access.
pub proof fn law_full_access_is_confirmed(
    presets: Seq<ApprovalView>,
    approval: ApprovalKind,
    sandbox: SandboxKind,
    facts: SandboxFacts,
    i: int,
)
    requires
        0 <= i < presets.len() <= usize::MAX,
        presets[i].id == "full-access"@,
    ensures
        approvals_menu(presets, approval, sandbox, false, facts).items[i].actions == seq![
            MenuActionView::ConfirmFullAccess { preset: i as usize },
        ],
{
}

// ---------------------------------------------------------------------------
// The sandbox
// ---------------------------------------------------------------------------

/// Whether the user has full access.
pub open spec fn has_full_access(
    presets: Seq<ApprovalView>,
    approval: ApprovalKind,
    sandbox: SandboxKind,
) -> bool {
    match place_of(presets, "full-access"@) {
        Some(place) => matches_current(approval, sandbox, presets[place as int]),
        None => false,
    }
}

/// The line that leaves everything as it is: with full access, or else with the
/// right to read only.
pub open spec fn stay_item(
    presets: Seq<ApprovalView>,
    approval: ApprovalKind,
    sandbox: SandboxKind,
) -> ItemView {
    let full_access = has_full_access(presets, approval, sandbox);
    ItemView {
        name: if full_access {
            "Stay in Agent Full Access"@
        } else {
            "Stay in Read-Only"@
        },
        dismiss_on_select: true,
        actions: if full_access {
            seq![]
        } else {
            match place_of(presets, "read-only"@) {
                Some(place) => seq![MenuActionView::UseApproval { preset: place }],
                None => seq![],
            }
        },
        ..menus::blank_item()
    }
}

/// The menu that asks for a sandbox before the preset at `place` is applied.
pub open spec fn sandbox_menu(
    presets: Seq<ApprovalView>,
    place: usize,
    approval: ApprovalKind,
    sandbox: SandboxKind,
    can_elevate: bool,
) -> MenuView {
    if !can_elevate {
        menus::headed_menu(
            seq![
                "Agent mode on Windows uses an experimental sandbox to limit network and filesystem access."@,
                "Learn more: https://developers.openai.com/codex/windows"@,
            ],
            seq![
                menus::item(
                    "Enable experimental sandbox"@,
                    None,
                    MenuActionView::EnableSandbox { preset: place, elevated: false },
                ),
                menus::item("Go back"@, None, MenuActionView::OpenApprovals),
            ],
        )
    } else {
        menus::headed_menu(
            seq![
                "Set Up Agent Sandbox"@,
                ""@,
                "Agent mode uses an experimental Windows sandbox that protects your files and prevents network access by default."@,
                "Learn more: https://developers.openai.com/codex/windows"@,
            ],
            seq![
                menus::item(
                    "Set up agent sandbox (requires elevation)"@,
                    None,
                    MenuActionView::SetUpSandbox { preset: place },
                ),
                stay_item(presets, approval, sandbox),
            ],
        )
    }
}

/// The menu that follows when the sandbox could not be elevated.
pub open spec fn fallback_menu(
    presets: Seq<ApprovalView>,
    place: usize,
    approval: ApprovalKind,
    sandbox: SandboxKind,
) -> MenuView {
    menus::headed_menu(
        seq![
            "Use Non-Elevated Sandbox?"@,
            ""@,
            "Elevation failed. You can also use a non-elevated sandbox, which protects your files and prevents network access under most circumstances. However, it carries greater risk if prompt injected."@,
            "Learn more: https://developers.openai.com/codex/windows"@,
        ],
        seq![
            menus::item(
                "Try elevated agent sandbox setup again"@,
                None,
                MenuActionView::SetUpSandbox { preset: place },
            ),
            menus::item(
                "Use non-elevated agent sandbox"@,
                None,
                MenuActionView::EnableSandbox { preset: place, elevated: false },
            ),
            stay_item(presets, approval, sandbox),
        ],
    )
}

/// What to call the way the agent works.
pub open spec fn mode_label(sandbox: SandboxKind) -> Seq<char> {
    match sandbox {
        SandboxKind::ReadOnly => "Read-Only mode"@,
        _ => "Agent mode"@,
    }
}

/// The lines that name some folders, and how many more there are.
pub open spec fn folder_lines(paths: Seq<Seq<char>>, extra_count: nat) -> Seq<Seq<char>> {
    if paths.len() == 0 {
        seq![]
    } else {
        let lines = seq![""@] + Seq::new(paths.len(), |i: int| "  - "@ + paths[i]);
        if extra_count > 0 {
            lines.push("and "@ + text::decimal(extra_count) + " more"@)
        } else {
            lines
        }
    }
}

/// The menu that warns of folders that anyone can write to.
pub open spec fn folders_menu(
    preset: Option<usize>,
    mode: SandboxKind,
    paths: Seq<Seq<char>>,
    extra_count: nat,
    failed_scan: bool,
) -> MenuView {
    let label = mode_label(mode);
    let apply = match preset {
        Some(place) => seq![MenuActionView::UseApproval { preset: place }],
        None => seq![],
    };
    menus::headed_menu(
        seq![
            if failed_scan {
                "We couldn't complete the world-writable scan, so protections cannot be verified. The Windows sandbox cannot guarantee protection in "@
                    + label + "."@
            } else {
                "The Windows sandbox cannot protect writes to folders that are writable by Everyone. Consider removing write access for Everyone from the following folders:"@
            },
        ] + folder_lines(paths, extra_count),
        seq![
            ItemView {
                name: "Continue"@,
                description: Some("Apply "@ + label + " for this session"@),
                dismiss_on_select: true,
                actions: if preset is Some {
                    seq![MenuActionView::SkipNextScan] + apply
                } else {
                    seq![]
                },
                ..menus::blank_item()
            },
            ItemView {
                name: "Continue and don't warn again"@,
                description: Some("Enable "@ + label + " and remember this choice"@),
                dismiss_on_select: true,
                actions: seq![MenuActionView::AcknowledgeFolders] + apply,
                ..menus::blank_item()
            },
        ],
    )
}

fn new_stay_item(
    presets: &Vec<ApprovalPreset>,
    approval: ApprovalKind,
    sandbox: SandboxKind,
) -> (r: MenuItem)
    ensures
        r.deep_view() == stay_item(presets.deep_view(), approval, sandbox),
{
    let full_access = match find_preset(presets, "full-access") {
        Some(place) => {
            proof {
                assert(presets.deep_view()[place as int] == presets@[place as int].deep_view());
            }
            preset_matches_current(approval, sandbox, &presets[place])
        },
        None => false,
    };
    let mut actions = menus::no_actions();
    if !full_access {
        if let Some(place) = find_preset(presets, "read-only") {
            actions.push(MenuAction::UseApproval { preset: place });
            proof {
                assert(actions.deep_view() =~= seq![MenuActionView::UseApproval { preset: place }]);
            }
        }
    }
    let mut r = menus::empty_item();
    r.name = if full_access {
        "Stay in Agent Full Access".to_owned()
    } else {
        "Stay in Read-Only".to_owned()
    };
    r.dismiss_on_select = true;
    r.actions = actions;
    r
}

fn four_lines(first: &str, third: &str, fourth: &str) -> (r: Vec<String>)
    ensures
        text::views(r@) == seq![first@, ""@, third@, fourth@],
{
    let mut r: Vec<String> = Vec::new();
    r.push(first.to_owned());
    r.push("".to_owned());
    r.push(third.to_owned());
    r.push(fourth.to_owned());
    proof {
        assert(text::views(r@) =~= seq![first@, ""@, third@, fourth@]);
    }
    r
}

/// The menu that asks for a sandbox before the preset at `place` is applied;
/// `approval` and `sandbox` are in use.
pub fn open_windows_sandbox_enable_prompt(
    presets: &Vec<ApprovalPreset>,
    place: usize,
    approval: ApprovalKind,
    sandbox: SandboxKind,
    can_elevate: bool,
) -> (r: Menu)
    ensures
        r.deep_view() == sandbox_menu(
            presets.deep_view(),
            place,
            approval,
            sandbox,
            can_elevate,
        ),
{
    let mut items = menus::no_items();
    let header: Vec<String>;
    if !can_elevate {
        menus::push_item(
            &mut items,
            menus::new_item(
                "Enable experimental sandbox".to_owned(),
                None,
                MenuAction::EnableSandbox { preset: place, elevated: false },
            ),
        );
        menus::push_item(
            &mut items,
            menus::new_item("Go back".to_owned(), None, MenuAction::OpenApprovals),
        );
        header = two_lines(
            "Agent mode on Windows uses an experimental sandbox to limit network and filesystem access.",
            "Learn more: https://developers.openai.com/codex/windows",
        );
    } else {
        menus::push_item(
            &mut items,
            menus::new_item(
                "Set up agent sandbox (requires elevation)".to_owned(),
                None,
                MenuAction::SetUpSandbox { preset: place },
            ),
        );
        menus::push_item(&mut items, new_stay_item(presets, approval, sandbox));
        header = four_lines(
            "Set Up Agent Sandbox",
            "Agent mode uses an experimental Windows sandbox that protects your files and prevents network access by default.",
            "Learn more: https://developers.openai.com/codex/windows",
        );
    }
    let r = menus::new_headed_menu(header, items);
    proof {
        assert(r.deep_view().items =~= sandbox_menu(
            presets.deep_view(),
            place,
            approval,
            sandbox,
            can_elevate,
        ).items);
    }
    r
}

/// The menu that follows when the sandbox could not be elevated.
pub fn open_windows_sandbox_fallback_prompt(
    presets: &Vec<ApprovalPreset>,
    place: usize,
    approval: ApprovalKind,
    sandbox: SandboxKind,
) -> (r: Menu)
    ensures
        r.deep_view() == fallback_menu(presets.deep_view(), place, approval, sandbox),
{
    let mut items = menus::no_items();
    menus::push_item(
        &mut items,
        menus::new_item(
            "Try elevated agent sandbox setup again".to_owned(),
            None,
            MenuAction::SetUpSandbox { preset: place },
        ),
    );
    menus::push_item(
        &mut items,
        menus::new_item(
            "Use non-elevated agent sandbox".to_owned(),
            None,
            MenuAction::EnableSandbox { preset: place, elevated: false },
        ),
    );
    menus::push_item(&mut items, new_stay_item(presets, approval, sandbox));
    let header = four_lines(
        "Use Non-Elevated Sandbox?",
        "Elevation failed. You can also use a non-elevated sandbox, which protects your files and prevents network access under most circumstances. However, it carries greater risk if prompt injected.",
        "Learn more: https://developers.openai.com/codex/windows",
    );
    let r = menus::new_headed_menu(header, items);
    proof {
        assert(r.deep_view().items =~= fallback_menu(
            presets.deep_view(),
            place,
            approval,
            sandbox,
        ).items);
    }
    r
}

/// The preset before which a sandbox is asked for at the start, by its place:
/// that of the agent, where it was taken back for want of a sandbox.
pub fn maybe_prompt_windows_sandbox_enable(
    presets: &Vec<ApprovalPreset>,
    downgraded: bool,
    has_sandbox: bool,
) -> (r: Option<usize>)
    ensures
        r == (if downgraded && !has_sandbox {
            place_of(presets.deep_view(), "auto"@)
        } else {
            None
        }),
{
    if downgraded && !has_sandbox {
        find_preset(presets, "auto")
    } else {
        None
    }
}

fn describe_policy(sandbox: SandboxKind) -> (r: &'static str)
    ensures
        r@ == mode_label(sandbox),
{
    match sandbox {
        SandboxKind::ReadOnly => "Read-Only mode",
        _ => "Agent mode",
    }
}

fn list_folders(header: &mut Vec<String>, paths: &Vec<String>, extra_count: u64)
    ensures
        text::views(final(header)@) == text::views(old(header)@) + folder_lines(
            text::views(paths@),
            extra_count as nat,
        ),
{
    let ghost before = text::views(header@);
    let ghost all = text::views(paths@);
    if paths.len() == 0 {
        proof {
            assert(before + Seq::<Seq<char>>::empty() =~= before);
        }
        return;
    }
    header.push("".to_owned());
    proof {
        assert(text::views(header@) =~= before + (seq![""@] + Seq::new(
            0,
            |i: int| "  - "@ + all[i],
        )));
    }
    for i in 0..paths.len()
        invariant
            all == text::views(paths@),
            text::views(header@) == before + (seq![""@] + Seq::new(
                i as nat,
                |i: int| "  - "@ + all[i],
            )),
    {
        let ghost done = text::views(header@);
        let line = text::concat2("  - ", paths[i].as_str());
        let ghost view = line@;
        header.push(line);
        proof {
            assert(view == "  - "@ + all[i as int]);
            assert(text::views(header@) =~= done.push(view));
            assert(text::views(header@) =~= before + (seq![""@] + Seq::new(
                (i + 1) as nat,
                |i: int| "  - "@ + all[i],
            )));
        }
    }
    if extra_count > 0 {
        let ghost done = text::views(header@);
        let line = text::concat3("and ", text::to_decimal(extra_count).as_str(), " more");
        let ghost view = line@;
        header.push(line);
        proof {
            assert(text::views(header@) =~= done.push(view));
        }
    }
    proof {
        assert(text::views(header@) =~= before + folder_lines(all, extra_count as nat));
    }
}

fn new_folders_item(
    name: &str,
    description: String,
    first: Option<MenuAction>,
    preset: Option<usize>,
) -> (r: MenuItem)
    ensures
        r.deep_view() == (ItemView {
            name: name@,
            description: Some(description@),
            dismiss_on_select: true,
            actions: (match first {
                Some(first) => seq![first.deep_view()],
                None => seq![],
            }) + (match preset {
                Some(place) => seq![MenuActionView::UseApproval { preset: place }],
                None => seq![],
            }),
            ..menus::blank_item()
        }),
{
    let mut actions: Vec<MenuAction> = Vec::new();
    let ghost mut views: Seq<MenuActionView> = seq![];
    if let Some(first) = first {
        proof {
            views = views.push(first.deep_view());
        }
        actions.push(first);
    }
    if let Some(place) = preset {
        actions.push(MenuAction::UseApproval { preset: place });
        proof {
            views = views.push(MenuActionView::UseApproval { preset: place });
        }
    }
    proof {
        assert(actions.deep_view() =~= views);
    }
    let mut r = menus::empty_item();
    r.name = name.to_owned();
    r.description = Some(description);
    r.dismiss_on_select = true;
    r.actions = actions;
    proof {
        assert(r.deep_view().actions =~= (match first {
            Some(first) => seq![first.deep_view()],
            None => seq![],
        }) + (match preset {
            Some(place) => seq![MenuActionView::UseApproval { preset: place }],
            None => seq![],
        }));
    }
    r
}

/// The menu that warns of folders that anyone can write to, before the preset at
/// a place is applied, if one is; `mode` is how the agent works.
pub fn open_world_writable_warning_confirmation(
    preset: Option<usize>,
    mode: SandboxKind,
    sample_paths: &Vec<String>,
    extra_count: u64,
    failed_scan: bool,
) -> (r: Menu)
    ensures
        r.deep_view() == folders_menu(
            preset,
            mode,
            text::views(sample_paths@),
            extra_count as nat,
            failed_scan,
        ),
{
    let label = describe_policy(mode);
    let info = if failed_scan {
        text::concat3(
            "We couldn't complete the world-writable scan, so protections cannot be verified. The Windows sandbox cannot guarantee protection in ",
            label,
            ".",
        )
    } else {
        "The Windows sandbox cannot protect writes to folders that are writable by Everyone. Consider removing write access for Everyone from the following folders:".to_owned()
    };
    let ghost info_view = info@;
    let mut header: Vec<String> = Vec::new();
    header.push(info);
    proof {
        assert(text::views(header@) =~= seq![info_view]);
    }
    list_folders(&mut header, sample_paths, extra_count);
    let mut items = menus::no_items();
    let skip = if preset.is_some() {
        Some(MenuAction::SkipNextScan)
    } else {
        None
    };
    menus::push_item(
        &mut items,
        new_folders_item(
            "Continue",
            text::concat3("Apply ", label, " for this session"),
            skip,
            preset,
        ),
    );
    menus::push_item(
        &mut items,
        new_folders_item(
            "Continue and don't warn again",
            text::concat3("Enable ", label, " and remember this choice"),
            Some(MenuAction::AcknowledgeFolders),
            preset,
        ),
    );
    let r = menus::new_headed_menu(header, items);
    proof {
        let wanted = folders_menu(
            preset,
            mode,
            text::views(sample_paths@),
            extra_count as nat,
            failed_scan,
        );
        assert(r.deep_view().items[0] =~= wanted.items[0]);
        assert(r.deep_view().items =~= wanted.items);
        assert(r.deep_view().header =~= wanted.header);
    }
    r
}

/// A preset is found at its first place, and not found only where it is not listed.
pub proof fn law_a_preset_is_found_by_its_id(presets: Seq<ApprovalView>, id: Seq<char>)
    requires
        presets.len() <= usize::MAX,
    ensures
        place_of(presets, id) matches Some(place) ==> place < presets.len()
            && presets[place as int].id == id && forall|i: int|
            0 <= i < place ==> (#[trigger] presets[i]).id != id,
        place_of(presets, id) is None ==> forall|i: int|
            0 <= i < presets.len() ==> (#[trigger] presets[i]).id != id,
    decreases presets.len(),
{
    if presets.len() > 0 {
        let front = presets.drop_last();
        law_a_preset_is_found_by_its_id(front, id);
        match place_of(front, id) {
            Some(place) => {
                assert(front[place as int] == presets[place as int]);
                assert forall|i: int| 0 <= i < place implies (#[trigger] presets[i]).id != id by {
                    assert(front[i] == presets[i]);
                }
            },
            None => {
                assert forall|i: int| 0 <= i < front.len() implies (#[trigger] presets[i]).id
                    != id by {
                    assert(front[i] == presets[i]);
                }
            },
        }
    }
}

/// Each preset has a line of its own, marked where it is in force. It takes that preset;
/// full access is confirmed first unless the user does not want that, and the agent preset
/// takes what the sandbox asks for first.
pub proof fn law_each_preset_can_be_chosen(
    presets: Seq<ApprovalView>,
    approval: ApprovalKind,
    sandbox: SandboxKind,
    warning_hidden: bool,
    facts: SandboxFacts,
)
    requires
        presets.len() <= usize::MAX,
    ensures
        ({
            let items = approvals_menu(presets, approval, sandbox, warning_hidden, facts).items;
            &&& items.len() == presets.len()
            &&& forall|i: int|
                0 <= i < presets.len() ==> {
                    let line = #[trigger] items[i];
                    let id = presets[i].id;
                    let place = i as usize;
                    &&& line.actions.len() == 1
                    &&& line.is_current == (presets[i].approval == approval && presets[i].sandbox
                        == sandbox && sandbox != SandboxKind::Outside)
                    &&& id != "full-access"@ && id != "auto"@ ==> line.actions[0]
                        == (MenuActionView::UseApproval { preset: place })
                    &&& id == "full-access"@ && !warning_hidden ==> line.actions[0]
                        == (MenuActionView::ConfirmFullAccess { preset: place })
                    &&& id == "full-access"@ && warning_hidden ==> line.actions[0]
                        == (MenuActionView::UseApproval { preset: place })
                    &&& id == "auto"@ && facts.auto == AutoStep::Apply ==> line.actions[0]
                        == (MenuActionView::UseApproval { preset: place })
                    &&& id == "auto"@ && facts.auto == AutoStep::EnableElevated ==> line.actions[0]
                        == (MenuActionView::EnableSandbox { preset: place, elevated: true })
                    &&& id == "auto"@ && facts.auto == AutoStep::AskForSandbox ==> line.actions[0]
                        == (MenuActionView::AskForSandbox { preset: place })
                    &&& id == "auto"@ && facts.auto == AutoStep::WarnOfFolders ==> line.actions[0]
                        == (MenuActionView::WarnOfFolders { preset: place })
                }
        }),
{
    reveal_strlit("full-access");
    reveal_strlit("auto");
    assert("full-access"@.len() == 11 && "auto"@.len() == 4);
}

/// Full access is given with or without a reminder next time, or not at all.
pub proof fn law_full_access_is_given_or_not(place: usize)
    ensures
        ({
            let items = full_access_menu(place).items;
            &&& items.len() == 3
            &&& items[0].actions == seq![
                MenuActionView::UseApproval { preset: place },
                MenuActionView::AcknowledgeFullAccess { remember: false },
            ]
            &&& items[1].actions == seq![
                MenuActionView::UseApproval { preset: place },
                MenuActionView::AcknowledgeFullAccess { remember: true },
            ]
            &&& items[2].actions == seq![MenuActionView::OpenApprovals]
        }),
{
}

/// Every folder is named, and how many more there are.
pub proof fn law_every_folder_is_named(paths: Seq<Seq<char>>, extra_count: nat)
    ensures
        ({
            let lines = folder_lines(paths, extra_count);
            &&& paths.len() == 0 ==> lines.len() == 0
            &&& paths.len() > 0 && extra_count == 0 ==> lines.len() == paths.len() + 1
            &&& paths.len() > 0 && extra_count > 0 ==> lines.len() == paths.len() + 2
                && lines.last() == "and "@ + text::decimal(extra_count) + " more"@
            &&& forall|i: int|
                0 <= i < paths.len() ==> #[trigger] lines[i + 1] == "  - "@ + paths[i]
        }),
{
}

/// Whoever does not want the sandbox stays where they are: with full access nothing
/// changes, else only reading is allowed.
pub proof fn law_whoever_refuses_stays(
    presets: Seq<ApprovalView>,
    approval: ApprovalKind,
    sandbox: SandboxKind,
    place: usize,
)
    ensures
        ({
            let full = has_full_access(presets, approval, sandbox);
            let again = fallback_menu(presets, place, approval, sandbox).items;
            let first = sandbox_menu(presets, place, approval, sandbox, true).items;
            &&& again.len() == 3 && first.len() == 2
            &&& first[0].actions == seq![MenuActionView::SetUpSandbox { preset: place }]
            &&& again[0].actions == seq![MenuActionView::SetUpSandbox { preset: place }]
            &&& again[1].actions == seq![
                MenuActionView::EnableSandbox { preset: place, elevated: false },
            ]
            &&& full ==> again[2].actions.len() == 0 && first[1].actions.len() == 0
            &&& !full ==> (place_of(presets, "read-only"@) matches Some(reading)
                ==> again[2].actions == seq![MenuActionView::UseApproval { preset: reading }]
                && first[1].actions == seq![MenuActionView::UseApproval { preset: reading }])
        }),
{
}

/// After the warning of the folders the preset is taken, and the warning is left out next
/// time only where the user says so.
pub proof fn law_folders_are_passed_over(
    place: usize,
    mode: SandboxKind,
    paths: Seq<Seq<char>>,
    extra_count: nat,
    failed_scan: bool,
)
    ensures
        ({
            let items = folders_menu(Some(place), mode, paths, extra_count, failed_scan).items;
            let bare = folders_menu(None, mode, paths, extra_count, failed_scan).items;
            &&& items.len() == 2 && bare.len() == 2
            &&& items[0].actions == seq![
                MenuActionView::SkipNextScan,
                MenuActionView::UseApproval { preset: place },
            ]
            &&& items[1].actions == seq![
                MenuActionView::AcknowledgeFolders,
                MenuActionView::UseApproval { preset: place },
            ]
            &&& bare[0].actions.len() == 0
            &&& bare[1].actions == seq![MenuActionView::AcknowledgeFolders]
        }),
{
}

} // verus!

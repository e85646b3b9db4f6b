use weave::approvals::{
    maybe_prompt_windows_sandbox_enable, open_approvals_popup, open_full_access_confirmation, open_windows_sandbox_enable_prompt,
    open_windows_sandbox_fallback_prompt, open_world_writable_warning_confirmation,
    preset_matches_current, AutoStep, SandboxFacts,
};
use weave::client::WeaveSession;
use weave::menus::{
    open_reasoning_popup, open_weave_session_close_menu, open_weave_session_menu,
    reasoning_effort_label, ApprovalKind, ApprovalPreset, EffortOption, EffortOutcome, Menu,
    MenuAction, ModelPreset, ReasoningEffort, SandboxKind,
};
use weave::pickers::{
    lower_cost_preset, open_all_models_popup, open_model_popup_with_presets, open_rate_limit_switch_prompt,
    open_review_popup, review_instructions, show_review_branch_picker, show_review_commit_picker,
    CommitEntry, ModelOutcome,
};

fn session(id: &str, name: &str) -> WeaveSession {
    WeaveSession {
        id: id.to_string(),
        name: Some(name.to_string()),
    }
}

fn option(effort: ReasoningEffort, description: &str) -> EffortOption {
    EffortOption {
        effort,
        description: description.to_string(),
    }
}

fn preset(model: &str, efforts: Vec<EffortOption>) -> ModelPreset {
    ModelPreset {
        model: model.to_string(),
        display_name: model.to_uppercase(),
        description: String::new(),
        default_effort: ReasoningEffort::Medium,
        efforts,
        is_default: false,
        show_in_picker: true,
    }
}

fn names(menu: &Menu) -> Vec<&str> {
    menu.items.iter().map(|item| item.name.as_str()).collect()
}

#[test]
fn sessions_are_sorted_by_their_names() {
    let sessions = vec![session("2", "Beta"), session("1", "Alpha")];
    let menu = open_weave_session_menu(sessions, Some("2"), "Ann");
    let names = names(&menu);
    let alpha = names.iter().position(|name| *name == "Alpha").expect("Alpha");
    let beta = names.iter().position(|name| *name == "✓ Beta").expect("Beta");
    assert!(alpha < beta);
    assert_eq!(menu.initial_selected_idx, Some(beta));
    assert_eq!(names[0], "Set agent name");
    assert_eq!(menu.items[0].description.as_deref(), Some("Current: Ann"));
    assert_eq!(
        menu.items[beta].actions,
        vec![MenuAction::SelectSession { session: None }]
    );
    assert_eq!(menu.items[beta].search_value.as_deref(), Some("Beta 2"));
}

#[test]
fn every_session_can_be_closed() {
    let menu = open_weave_session_close_menu(vec![session("1", "Alpha")], None);
    assert!(menu.items.iter().any(|item| item.actions
        == vec![MenuAction::CloseSession {
            session: session("1", "Alpha")
        }]));
}

#[test]
fn one_effort_is_used_at_once() {
    let model = preset("m", vec![option(ReasoningEffort::Low, "")]);
    let EffortOutcome::Use(effort) = open_reasoning_popup(&model, None, None) else {
        panic!("expected no menu");
    };
    assert_eq!(effort, ReasoningEffort::Low);
    let bare = preset("m", vec![]);
    assert!(matches!(
        open_reasoning_popup(&bare, None, None),
        EffortOutcome::Use(ReasoningEffort::Medium)
    ));
}

#[test]
fn efforts_stand_in_their_order_with_a_warning() {
    let model = preset(
        "gpt-5.1-codex-max",
        vec![
            option(ReasoningEffort::High, "Thinks long"),
            option(ReasoningEffort::Medium, ""),
            option(ReasoningEffort::Low, "Quick"),
        ],
    );
    let EffortOutcome::Ask(menu) = open_reasoning_popup(&model, None, None) else {
        panic!("expected a menu");
    };
    assert_eq!(names(&menu), vec!["Low", "Medium (default)", "High"]);
    assert_eq!(menu.initial_selected_idx, Some(1));
    assert_eq!(menu.items[0].description.as_deref(), Some("Quick"));
    assert_eq!(
        menu.items[2].selected_description.as_deref(),
        Some("Thinks long\n⚠ High reasoning effort can quickly consume Plus plan rate limits.")
    );
    assert_eq!(
        menu.header,
        vec!["Select Reasoning Level for gpt-5.1-codex-max".to_string()]
    );
}

#[test]
fn the_effort_in_use_is_highlighted() {
    let model = preset(
        "m",
        vec![
            option(ReasoningEffort::Medium, ""),
            option(ReasoningEffort::XHigh, ""),
        ],
    );
    let EffortOutcome::Ask(menu) =
        open_reasoning_popup(&model, Some("m"), Some(ReasoningEffort::XHigh))
    else {
        panic!("expected a menu");
    };
    assert_eq!(menu.initial_selected_idx, Some(1));
    assert!(menu.items[1].is_current);
    assert!(!menu.items[0].is_current);
    assert_eq!(reasoning_effort_label(ReasoningEffort::XHigh), "Extra high");
}

#[test]
fn quick_models_come_first() {
    let presets = vec![
        preset("gpt-5", vec![]),
        preset("codex-auto-thorough", vec![]),
        preset("codex-auto-fast", vec![]),
        ModelPreset {
            show_in_picker: false,
            ..preset("hidden", vec![])
        },
    ];
    let ModelOutcome::Quick(menu, others) = open_model_popup_with_presets(&presets, Some("gpt-5"))
    else {
        panic!("expected the quick menu");
    };
    assert_eq!(
        names(&menu),
        vec!["CODEX-AUTO-FAST", "CODEX-AUTO-THOROUGH", "All models"]
    );
    assert_eq!(
        menu.items[2].description.as_deref(),
        Some("Choose a specific model and reasoning level (current: GPT-5)")
    );
    assert!(menu.items[2].is_current);
    assert_eq!(others.len(), 1);
    assert_eq!(others[0].model, "gpt-5");
}

#[test]
fn without_quick_models_all_are_shown() {
    let presets = vec![preset("a", vec![option(ReasoningEffort::Low, "")])];
    let ModelOutcome::All(others) = open_model_popup_with_presets(&presets, None) else {
        panic!("expected all models");
    };
    let menu = open_all_models_popup(&others, Some("a")).expect("menu");
    assert!(menu.items[0].is_current);
    assert!(menu.items[0].dismiss_on_select);
    assert_eq!(menu.items[0].actions, vec![MenuAction::OpenEfforts { preset: 0 }]);
    assert!(open_all_models_popup(&vec![], None).is_none());
}

#[test]
fn a_cheaper_model_is_offered() {
    let menu = open_rate_limit_switch_prompt(&preset("mini", vec![]));
    assert_eq!(menu.title.as_deref(), Some("Approaching rate limits"));
    assert_eq!(
        menu.subtitle.as_deref(),
        Some("Switch to MINI for lower credit usage?")
    );
    assert_eq!(
        menu.items[0].description.as_deref(),
        Some("Uses fewer credits for upcoming turns.")
    );
    assert!(menu.items[1].actions.is_empty());
    assert_eq!(menu.items[2].actions, vec![MenuAction::HideSwitchPrompt]);
}

#[test]
fn reviews_can_be_chosen() {
    assert_eq!(
        names(&open_review_popup()),
        vec![
            "Review against a base branch",
            "Review uncommitted changes",
            "Review a commit",
            "Custom review instructions"
        ]
    );
    let branches = show_review_branch_picker(None, &vec!["main".to_string()]);
    assert_eq!(names(&branches), vec!["(detached HEAD) -> main"]);
    assert!(branches.is_searchable);
    let commits = show_review_commit_picker(&vec![CommitEntry {
        sha: "abc".to_string(),
        subject: "Fix it".to_string(),
    }]);
    assert_eq!(
        commits.items[0].search_value.as_deref(),
        Some("Fix it abc")
    );
    assert_eq!(review_instructions("  "), None);
    assert_eq!(review_instructions(" look "), Some("look".to_string()));
}

fn approvals() -> Vec<ApprovalPreset> {
    let make = |id: &str, label: &str, approval, sandbox| ApprovalPreset {
        id: id.to_string(),
        label: label.to_string(),
        description: String::new(),
        approval,
        sandbox,
    };
    vec![
        make("read-only", "Read Only", ApprovalKind::OnRequest, SandboxKind::ReadOnly),
        make("auto", "Agent", ApprovalKind::OnRequest, SandboxKind::WorkspaceWrite),
        make("full-access", "Full Access", ApprovalKind::Never, SandboxKind::FullAccess),
    ]
}

const PLAIN: SandboxFacts = SandboxFacts {
    degraded: false,
    can_elevate: false,
    auto: AutoStep::Apply,
};

#[test]
fn full_access_is_confirmed() {
    let menu = open_approvals_popup(
        &approvals(),
        ApprovalKind::OnRequest,
        SandboxKind::WorkspaceWrite,
        false,
        PLAIN,
    );
    assert!(menu.items[1].is_current);
    assert_eq!(
        menu.items[2].actions,
        vec![MenuAction::ConfirmFullAccess { preset: 2 }]
    );
    let bold = open_approvals_popup(
        &approvals(),
        ApprovalKind::OnRequest,
        SandboxKind::WorkspaceWrite,
        true,
        PLAIN,
    );
    assert_eq!(bold.items[2].actions, vec![MenuAction::UseApproval { preset: 2 }]);
    let confirm = open_full_access_confirmation(2);
    assert_eq!(confirm.header[0], "Enable full access?");
    assert_eq!(
        confirm.items[1].actions,
        vec![
            MenuAction::UseApproval { preset: 2 },
            MenuAction::AcknowledgeFullAccess { remember: true }
        ]
    );
}

#[test]
fn a_sandbox_from_outside_is_no_preset() {
    let outside = ApprovalPreset {
        sandbox: SandboxKind::Outside,
        ..approvals().remove(0)
    };
    assert!(!preset_matches_current(
        ApprovalKind::OnRequest,
        SandboxKind::Outside,
        &outside
    ));
}

#[test]
fn a_degraded_sandbox_has_another_name() {
    let facts = SandboxFacts {
        degraded: true,
        can_elevate: true,
        auto: AutoStep::WarnOfFolders,
    };
    let menu = open_approvals_popup(
        &approvals(),
        ApprovalKind::Never,
        SandboxKind::ReadOnly,
        false,
        facts,
    );
    assert_eq!(menu.items[1].name, "Agent (non-elevated sandbox)");
    assert_eq!(menu.items[1].actions, vec![MenuAction::WarnOfFolders { preset: 1 }]);
    assert!(menu.footer_note.is_some());
}

#[test]
fn a_sandbox_is_asked_for() {
    let menu = open_windows_sandbox_enable_prompt(
        &approvals(),
        1,
        ApprovalKind::Never,
        SandboxKind::FullAccess,
        true,
    );
    assert_eq!(menu.items[1].name, "Stay in Agent Full Access");
    assert!(menu.items[1].actions.is_empty());
    let legacy = open_windows_sandbox_enable_prompt(
        &approvals(),
        1,
        ApprovalKind::Never,
        SandboxKind::FullAccess,
        false,
    );
    assert_eq!(names(&legacy), vec!["Enable experimental sandbox", "Go back"]);
    let fallback = open_windows_sandbox_fallback_prompt(
        &approvals(),
        1,
        ApprovalKind::OnRequest,
        SandboxKind::ReadOnly,
    );
    assert_eq!(fallback.items[2].name, "Stay in Read-Only");
    assert_eq!(
        fallback.items[2].actions,
        vec![MenuAction::UseApproval { preset: 0 }]
    );
}

#[test]
fn open_folders_are_named() {
    let menu = open_world_writable_warning_confirmation(
        Some(1),
        SandboxKind::WorkspaceWrite,
        &vec!["/a".to_string(), "/b".to_string()],
        12,
        false,
    );
    assert_eq!(menu.header[1..], ["", "  - /a", "  - /b", "and 12 more"]);
    assert_eq!(
        menu.items[0].actions,
        vec![MenuAction::SkipNextScan, MenuAction::UseApproval { preset: 1 }]
    );
    assert_eq!(
        menu.items[0].description.as_deref(),
        Some("Apply Agent mode for this session")
    );
    let failed = open_world_writable_warning_confirmation(
        None,
        SandboxKind::ReadOnly,
        &vec![],
        3,
        true,
    );
    assert_eq!(failed.header.len(), 1);
    assert!(failed.header[0].ends_with("protection in Read-Only mode."));
    assert!(failed.items[0].actions.is_empty());
    assert_eq!(failed.items[1].actions, vec![MenuAction::AcknowledgeFolders]);
}

#[test]
fn the_cheaper_model_is_found_among_those_that_are_shown() {
    let mini = "gpt-5.1-codex-mini";
    let hidden = ModelPreset {
        show_in_picker: false,
        ..preset(mini, vec![])
    };
    assert_eq!(lower_cost_preset(&vec![preset("o9", vec![])]), None);
    assert_eq!(
        lower_cost_preset(&vec![hidden, preset("o9", vec![]), preset(mini, vec![])]),
        Some(2)
    );
}

#[test]
fn the_user_is_asked_for_a_sandbox_once_one_is_missing() {
    assert_eq!(maybe_prompt_windows_sandbox_enable(&approvals(), true, false), Some(1));
    assert_eq!(maybe_prompt_windows_sandbox_enable(&approvals(), true, true), None);
    assert_eq!(maybe_prompt_windows_sandbox_enable(&approvals(), false, false), None);
    assert_eq!(maybe_prompt_windows_sandbox_enable(&vec![], true, false), None);
}

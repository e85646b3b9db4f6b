//! Menus of models, and of what to review.

use vstd::prelude::*;

use crate::menus;
use crate::menus::{
    EffortOption, ItemView, Menu, MenuAction, MenuActionView, MenuItem, MenuView, ModelPreset,
    PresetView,
};
use crate::text;

verus! {

// ---------------------------------------------------------------------------
// Models
// ---------------------------------------------------------------------------

/// Whether a model is one that picks the effort by itself.
pub open spec fn is_auto(model: Seq<char>) -> bool {
    "codex-auto-"@.is_prefix_of(model)
}

/// Where a model that picks the effort by itself stands among its like.
pub open spec fn auto_order(model: Seq<char>) -> u8 {
    if model == "codex-auto-fast"@ {
        0
    } else if model == "codex-auto-balanced"@ {
        1
    } else if model == "codex-auto-thorough"@ {
        2
    } else {
        3
    }
}

/// What is said of something, if anything is.
pub open spec fn said(description: Seq<char>) -> Option<Seq<char>> {
    if description.len() == 0 {
        None
    } else {
        Some(description)
    }
}

/// The line of a model that picks the effort by itself.
pub open spec fn auto_item(preset: PresetView, current: Option<Seq<char>>) -> ItemView {
    ItemView {
        is_current: current == Some(preset.model),
        is_default: preset.is_default,
        ..menus::item(
            preset.display_name,
            said(preset.description),
            MenuActionView::UseModel { model: preset.model, effort: Some(preset.default_effort) },
        )
    }
}

/// The lines of the models that pick the effort by themselves and stand at a
/// place among their like.
pub open spec fn auto_items(
    presets: Seq<PresetView>,
    order: u8,
    current: Option<Seq<char>>,
) -> Seq<ItemView>
    decreases presets.len(),
{
    if presets.len() == 0 {
        seq![]
    } else {
        let before = auto_items(presets.drop_last(), order, current);
        let last = presets.last();
        if last.show_in_picker && is_auto(last.model) && auto_order(last.model) == order {
            before.push(auto_item(last, current))
        } else {
            before
        }
    }
}

/// The lines of all models that pick the effort by themselves, in their order.
pub open spec fn all_auto_items(
    presets: Seq<PresetView>,
    current: Option<Seq<char>>,
) -> Seq<ItemView> {
    auto_items(presets, 0, current) + auto_items(presets, 1, current) + auto_items(
        presets,
        2,
        current,
    ) + auto_items(presets, 3, current)
}

/// The other models that are shown.
pub open spec fn other_models(presets: Seq<PresetView>) -> Seq<PresetView>
    decreases presets.len(),
{
    if presets.len() == 0 {
        seq![]
    } else {
        let before = other_models(presets.drop_last());
        let last = presets.last();
        if last.show_in_picker && !is_auto(last.model) {
            before.push(last)
        } else {
            before
        }
    }
}

/// What to call the model in use: as the first one shown of that name is called,
/// or else by its name.
pub open spec fn current_label(presets: Seq<PresetView>, current: Option<Seq<char>>) -> Seq<char>
    decreases presets.len(),
{
    if presets.len() == 0 {
        match current {
            Some(model) => model,
            None => "loading"@,
        }
    } else if presets[0].show_in_picker && current == Some(presets[0].model) {
        presets[0].display_name
    } else {
        current_label(presets.subrange(1, presets.len() as int), current)
    }
}

/// Whether one of these lines is what is in use.
pub open spec fn has_current(items: Seq<ItemView>) -> bool {
    exists|i: int| 0 <= i < items.len() && (#[trigger] items[i]).is_current
}

/// The line that leads to the other models.
pub open spec fn all_models_item(
    presets: Seq<PresetView>,
    current: Option<Seq<char>>,
) -> ItemView {
    ItemView {
        is_current: !has_current(all_auto_items(presets, current)),
        ..menus::item(
            "All models"@,
            Some(
                "Choose a specific model and reasoning level (current: "@ + current_label(
                    presets,
                    current,
                ) + ")"@,
            ),
            MenuActionView::OpenAllModels,
        )
    }
}

/// The menu of the models that pick the effort by themselves.
pub open spec fn quick_menu(presets: Seq<PresetView>, current: Option<Seq<char>>) -> MenuView {
    let auto = all_auto_items(presets, current);
    menus::menu(
        "Select Model"@,
        Some("Pick a quick auto mode or browse all models."@),
        if other_models(presets).len() == 0 {
            auto
        } else {
            auto.push(all_models_item(presets, current))
        },
    )
}

/// The line of a model whose effort is to be chosen.
pub open spec fn model_item(
    preset: PresetView,
    place: usize,
    current: Option<Seq<char>>,
) -> ItemView {
    ItemView {
        is_current: current == Some(preset.model),
        is_default: preset.is_default,
        dismiss_on_select: preset.efforts.len() == 1,
        ..menus::item(
            preset.display_name,
            said(preset.description),
            MenuActionView::OpenEfforts { preset: place },
        )
    }
}

/// The menu of these models.
pub open spec fn models_menu(presets: Seq<PresetView>, current: Option<Seq<char>>) -> MenuView {
    MenuView {
        footer_hint: Some("Press enter to select reasoning effort, or esc to dismiss."@),
        ..menus::menu(
            "Select Model and Effort"@,
            Some("Access legacy models by running codex -m <model_name> or in your config.toml"@),
            Seq::new(presets.len(), |i: int| model_item(presets[i], i as usize, current)),
        )
    }
}

/// What comes of the wish to choose a model.
pub enum ModelOutcome {
    /// Show this menu; the second value is the list of the other models.
    Quick(Menu, Vec<ModelPreset>),
    /// No model picks the effort by itself: choose from the other models.
    All(Vec<ModelPreset>),
}

fn description_of(description: &String) -> (r: Option<String>)
    ensures
        r.deep_view() == said(description@),
{
    if description.as_str().is_empty() {
        None
    } else {
        Some(description.clone())
    }
}

fn is_auto_model(model: &str) -> (r: bool)
    ensures
        r == is_auto(model@),
{
    text::starts_with(model, "codex-auto-")
}

fn auto_model_order(model: &str) -> (r: u8)
    ensures
        r == auto_order(model@),
{
    if text::same(model, "codex-auto-fast") {
        0
    } else if text::same(model, "codex-auto-balanced") {
        1
    } else if text::same(model, "codex-auto-thorough") {
        2
    } else {
        3
    }
}

fn new_auto_item(preset: &ModelPreset, current: Option<&str>) -> (r: MenuItem)
    ensures
        r.deep_view() == auto_item(preset.deep_view(), current.deep_view()),
{
    let mut r = menus::new_item(
        preset.display_name.clone(),
        description_of(&preset.description),
        MenuAction::UseModel { model: preset.model.clone(), effort: Some(preset.default_effort) },
    );
    r.is_current = menus::is_selected(current, preset.model.as_str());
    r.is_default = preset.is_default;
    r
}

fn push_auto_items(
    items: &mut Vec<MenuItem>,
    presets: &Vec<ModelPreset>,
    order: u8,
    current: Option<&str>,
)
    ensures
        final(items).deep_view() == old(items).deep_view() + auto_items(
            presets.deep_view(),
            order,
            current.deep_view(),
        ),
{
    let ghost all = presets.deep_view();
    let ghost before = items.deep_view();
    proof {
        assert(all.take(0) =~= Seq::<PresetView>::empty());
        assert(before + Seq::<ItemView>::empty() =~= before);
    }
    for i in 0..presets.len()
        invariant
            all == presets.deep_view(),
            items.deep_view() == before + auto_items(
                all.take(i as int),
                order,
                current.deep_view(),
            ),
    {
        let preset = &presets[i];
        let ghost done = auto_items(all.take(i as int), order, current.deep_view());
        proof {
            assert(all.take(i + 1).drop_last() =~= all.take(i as int));
            assert(all.take(i + 1).last() == preset.deep_view());
        }
        if preset.show_in_picker && is_auto_model(preset.model.as_str()) && auto_model_order(
            preset.model.as_str(),
        ) == order {
            let item = new_auto_item(preset, current);
            let ghost view = item.deep_view();
            menus::push_item(items, item);
            proof {
                assert((before + done).push(view) =~= before + done.push(view));
            }
        }
    }
    proof {
        assert(all.take(all.len() as int) =~= all);
    }
}

fn any_current(items: &Vec<MenuItem>) -> (r: bool)
    ensures
        r == has_current(items.deep_view()),
{
    let ghost all = items.deep_view();
    for i in 0..items.len()
        invariant
            all == items.deep_view(),
            forall|j: int| 0 <= j < i ==> !(#[trigger] all[j]).is_current,
    {
        proof {
            assert(all[i as int] == items@[i as int].deep_view());
        }
        if items[i].is_current {
            return true;
        }
    }
    false
}

proof fn lemma_label_at(presets: Seq<PresetView>, current: Option<Seq<char>>, n: int)
    requires
        0 <= n <= presets.len(),
        forall|i: int|
            0 <= i < n ==> !((#[trigger] presets[i]).show_in_picker && current == Some(
                presets[i].model,
            )),
        n < presets.len() ==> presets[n].show_in_picker && current == Some(presets[n].model),
    ensures
        current_label(presets, current) == (if n < presets.len() {
            presets[n].display_name
        } else {
            match current {
                Some(model) => model,
                None => "loading"@,
            }
        }),
    decreases presets.len(),
{
    if n > 0 {
        let rest = presets.subrange(1, presets.len() as int);
        assert forall|i: int| 0 <= i < n - 1 implies !((#[trigger] rest[i]).show_in_picker
            && current == Some(rest[i].model)) by {
            assert(rest[i] == presets[i + 1]);
        }
        lemma_label_at(rest, current, n - 1);
    }
}

fn find_label(presets: &Vec<ModelPreset>, current: Option<&str>) -> (r: String)
    ensures
        r@ == current_label(presets.deep_view(), current.deep_view()),
{
    let ghost all = presets.deep_view();
    let ghost view = current.deep_view();
    for i in 0..presets.len()
        invariant
            all == presets.deep_view(),
            view == current.deep_view(),
            forall|j: int|
                0 <= j < i ==> !((#[trigger] all[j]).show_in_picker && view == Some(
                    all[j].model,
                )),
    {
        proof {
            assert(all[i as int] == presets@[i as int].deep_view());
        }
        if presets[i].show_in_picker && menus::is_selected(current, presets[i].model.as_str()) {
            proof {
                lemma_label_at(all, view, i as int);
            }
            return presets[i].display_name.clone();
        }
    }
    proof {
        lemma_label_at(all, view, all.len() as int);
    }
    match current {
        Some(model) => model.to_owned(),
        None => "loading".to_owned(),
    }
}

fn clone_efforts(efforts: &Vec<EffortOption>) -> (r: Vec<EffortOption>)
    ensures
        r.deep_view() == efforts.deep_view(),
{
    let ghost all = efforts.deep_view();
    let mut r: Vec<EffortOption> = Vec::new();
    proof {
        assert(r.deep_view() =~= all.take(0));
    }
    for i in 0..efforts.len()
        invariant
            all == efforts.deep_view(),
            r.deep_view() == all.take(i as int),
    {
        let effort = efforts[i].clone();
        let ghost before = r.deep_view();
        let ghost view = effort.deep_view();
        r.push(effort);
        proof {
            assert(view == all[i as int]);
            assert(r.deep_view() =~= before.push(view));
            assert(all.take(i + 1) =~= all.take(i as int).push(all[i as int]));
        }
    }
    proof {
        assert(all.take(all.len() as int) =~= all);
    }
    r
}

impl Clone for ModelPreset {
    fn clone(&self) -> (r: ModelPreset)
        ensures
            r.deep_view() == self.deep_view(),
    {
        ModelPreset {
            model: self.model.clone(),
            display_name: self.display_name.clone(),
            description: self.description.clone(),
            default_effort: self.default_effort,
            efforts: clone_efforts(&self.efforts),
            is_default: self.is_default,
            show_in_picker: self.show_in_picker,
        }
    }
}

fn list_other_models(presets: &Vec<ModelPreset>) -> (r: Vec<ModelPreset>)
    ensures
        r.deep_view() == other_models(presets.deep_view()),
{
    let ghost all = presets.deep_view();
    let mut r: Vec<ModelPreset> = Vec::new();
    proof {
        assert(all.take(0) =~= Seq::<PresetView>::empty());
        assert(r.deep_view() =~= Seq::<PresetView>::empty());
    }
    for i in 0..presets.len()
        invariant
            all == presets.deep_view(),
            r.deep_view() == other_models(all.take(i as int)),
    {
        proof {
            assert(all.take(i + 1).drop_last() =~= all.take(i as int));
            assert(all.take(i + 1).last() == presets@[i as int].deep_view());
        }
        if presets[i].show_in_picker && !is_auto_model(presets[i].model.as_str()) {
            let preset = presets[i].clone();
            let ghost before = r.deep_view();
            let ghost view = preset.deep_view();
            r.push(preset);
            proof {
                assert(r.deep_view() =~= before.push(view));
            }
        }
    }
    proof {
        assert(all.take(all.len() as int) =~= all);
    }
    r
}

/// What comes of the wish to choose a model: the models that pick the effort by
/// themselves are offered first, if there are any. `current` is the model in
/// use.
pub fn open_model_popup_with_presets(presets: &Vec<ModelPreset>, current: Option<&str>) -> (r: ModelOutcome)
    ensures
        match r {
            ModelOutcome::All(others) => all_auto_items(
                presets.deep_view(),
                current.deep_view(),
            ).len() == 0 && others.deep_view() == other_models(presets.deep_view()),
            ModelOutcome::Quick(menu, others) => all_auto_items(
                presets.deep_view(),
                current.deep_view(),
            ).len() > 0 && others.deep_view() == other_models(presets.deep_view())
                && menu.deep_view() == quick_menu(presets.deep_view(), current.deep_view()),
        },
{
    let others = list_other_models(presets);
    let mut items = menus::no_items();
    push_auto_items(&mut items, presets, 0, current);
    push_auto_items(&mut items, presets, 1, current);
    push_auto_items(&mut items, presets, 2, current);
    push_auto_items(&mut items, presets, 3, current);
    proof {
        assert(items.deep_view() =~= all_auto_items(presets.deep_view(), current.deep_view()));
    }
    if items.len() == 0 {
        return ModelOutcome::All(others);
    }
    if others.len() > 0 {
        let label = find_label(presets, current);
        let mut item = menus::new_item(
            "All models".to_owned(),
            Some(
                text::concat3(
                    "Choose a specific model and reasoning level (current: ",
                    label.as_str(),
                    ")",
                ),
            ),
            MenuAction::OpenAllModels,
        );
        item.is_current = !any_current(&items);
        menus::push_item(&mut items, item);
    }
    let menu = menus::new_menu(
        "Select Model",
        Some("Pick a quick auto mode or browse all models.".to_owned()),
        items,
    );
    ModelOutcome::Quick(menu, others)
}

/// The menu of these models; without any there is none.
pub fn open_all_models_popup(presets: &Vec<ModelPreset>, current: Option<&str>) -> (r: Option<Menu>)
    ensures
        (r is None) == (presets@.len() == 0),
        r matches Some(menu) ==> menu.deep_view() == models_menu(
            presets.deep_view(),
            current.deep_view(),
        ),
{
    if presets.len() == 0 {
        return None;
    }
    let ghost all = presets.deep_view();
    let ghost view = current.deep_view();
    let mut items = menus::no_items();
    proof {
        assert(Seq::new(0, |i: int| model_item(all[i], i as usize, view))
            =~= Seq::<ItemView>::empty());
    }
    for i in 0..presets.len()
        invariant
            all == presets.deep_view(),
            view == current.deep_view(),
            items.deep_view() == Seq::new(
                i as nat,
                |i: int| model_item(all[i], i as usize, view),
            ),
    {
        let preset = &presets[i];
        let mut item = menus::new_item(
            preset.display_name.clone(),
            description_of(&preset.description),
            MenuAction::OpenEfforts { preset: i },
        );
        item.is_current = menus::is_selected(current, preset.model.as_str());
        item.is_default = preset.is_default;
        item.dismiss_on_select = preset.efforts.len() == 1;
        proof {
            assert(all[i as int] == preset.deep_view());
            assert(item.deep_view() == model_item(all[i as int], i, view));
        }
        menus::push_item(&mut items, item);
        proof {
            assert(items.deep_view() =~= Seq::new(
                (i + 1) as nat,
                |i: int| model_item(all[i], i as usize, view),
            ));
        }
    }
    proof {
        assert(items.deep_view() =~= models_menu(all, view).items);
    }
    let mut r = menus::new_menu(
        "Select Model and Effort",
        Some(
            "Access legacy models by running codex -m <model_name> or in your config.toml".to_owned(),
        ),
        items,
    );
    r.footer_hint = Some(
        "Press enter to select reasoning effort, or esc to dismiss.".to_owned(),
    );
    Some(r)
}

// ---------------------------------------------------------------------------
// Fewer credits
// ---------------------------------------------------------------------------

/// The model that uses fewer credits, by its place: the first one shown of its
/// name.
pub open spec fn cheap_place(presets: Seq<PresetView>) -> Option<usize>
    decreases presets.len(),
{
    if presets.len() == 0 {
        None
    } else {
        match cheap_place(presets.drop_last()) {
            Some(place) => Some(place),
            None => if presets.last().show_in_picker && presets.last().model
                == "gpt-5.1-codex-mini"@ {
                Some((presets.len() - 1) as usize)
            } else {
                None
            },
        }
    }
}

/// The model that uses fewer credits, if it can be had.
pub fn lower_cost_preset(presets: &Vec<ModelPreset>) -> (r: Option<usize>)
    ensures
        r == cheap_place(presets.deep_view()),
{
    let ghost all = presets.deep_view();
    proof {
        assert(all.take(0) =~= Seq::<PresetView>::empty());
    }
    let mut r: Option<usize> = None;
    for i in 0..presets.len()
        invariant
            all == presets.deep_view(),
            r == cheap_place(all.take(i as int)),
    {
        proof {
            assert(all.take(i + 1).drop_last() =~= all.take(i as int));
            assert(all.take(i + 1).last() == presets@[i as int].deep_view());
        }
        if r.is_none() && presets[i].show_in_picker && text::same(
            presets[i].model.as_str(),
            "gpt-5.1-codex-mini",
        ) {
            r = Some(i);
        }
    }
    proof {
        assert(all.take(all.len() as int) =~= all);
    }
    r
}

/// The menu that offers a model which uses fewer credits.
pub open spec fn switch_menu(preset: PresetView) -> MenuView {
    menus::menu(
        "Approaching rate limits"@,
        Some("Switch to "@ + preset.display_name + " for lower credit usage?"@),
        seq![
            menus::item(
                "Switch to "@ + preset.display_name,
                Some(
                    if preset.description.len() == 0 {
                        "Uses fewer credits for upcoming turns."@
                    } else {
                        preset.description
                    },
                ),
                MenuActionView::SwitchModel {
                    model: preset.model,
                    effort: Some(preset.default_effort),
                },
            ),
            ItemView {
                name: "Keep current model"@,
                dismiss_on_select: true,
                ..menus::blank_item()
            },
            menus::item(
                "Keep current model (never show again)"@,
                Some("Hide future rate limit reminders about switching models."@),
                MenuActionView::HideSwitchPrompt,
            ),
        ],
    )
}

/// The menu that offers a model which uses fewer credits.
pub fn open_rate_limit_switch_prompt(preset: &ModelPreset) -> (r: Menu)
    ensures
        r.deep_view() == switch_menu(preset.deep_view()),
{
    let name = preset.display_name.as_str();
    let description = if preset.description.as_str().is_empty() {
        "Uses fewer credits for upcoming turns.".to_owned()
    } else {
        preset.description.clone()
    };
    let mut items = menus::no_items();
    menus::push_item(
        &mut items,
        menus::new_item(
            text::concat2("Switch to ", name),
            Some(description),
            MenuAction::SwitchModel {
                model: preset.model.clone(),
                effort: Some(preset.default_effort),
            },
        ),
    );
    let mut keep = menus::empty_item();
    keep.name = "Keep current model".to_owned();
    keep.dismiss_on_select = true;
    menus::push_item(&mut items, keep);
    menus::push_item(
        &mut items,
        menus::new_item(
            "Keep current model (never show again)".to_owned(),
            Some("Hide future rate limit reminders about switching models.".to_owned()),
            MenuAction::HideSwitchPrompt,
        ),
    );
    let r = menus::new_menu(
        "Approaching rate limits",
        Some(text::concat3("Switch to ", name, " for lower credit usage?")),
        items,
    );
    proof {
        assert(r.deep_view().items =~= switch_menu(preset.deep_view()).items);
    }
    r
}

// ---------------------------------------------------------------------------
// Reviews
// ---------------------------------------------------------------------------

/// A commit that can be reviewed.
#[derive(Debug, PartialEq, Eq)]
#[verifier::ext_equal]
pub struct CommitEntry<S = String> {
    pub sha: S,
    pub subject: S,
}

impl DeepView for CommitEntry {
    type V = CommitEntry<Seq<char>>;

    open spec fn deep_view(&self) -> CommitEntry<Seq<char>> {
        CommitEntry { sha: self.sha@, subject: self.subject@ }
    }
}

/// A line that keeps the menu open.
pub open spec fn open_item(
    name: Seq<char>,
    description: Option<Seq<char>>,
    action: MenuActionView,
) -> ItemView {
    ItemView { dismiss_on_select: false, ..menus::item(name, description, action) }
}

/// The menu of what to review.
pub open spec fn review_menu() -> MenuView {
    menus::menu(
        "Select a review preset"@,
        None,
        seq![
            open_item(
                "Review against a base branch"@,
                Some("(PR Style)"@),
                MenuActionView::OpenBranches,
            ),
            menus::item("Review uncommitted changes"@, None, MenuActionView::ReviewChanges),
            open_item("Review a commit"@, None, MenuActionView::OpenCommits),
            open_item("Custom review instructions"@, None, MenuActionView::OpenInstructions),
        ],
    )
}

/// The line of a branch.
pub open spec fn branch_item(current: Seq<char>, branch: Seq<char>) -> ItemView {
    ItemView {
        search_value: Some(branch),
        ..menus::item(current + " -> "@ + branch, None, MenuActionView::ReviewBranch { branch })
    }
}

/// The menu of the branches to review against.
pub open spec fn branch_menu(current: Option<Seq<char>>, branches: Seq<Seq<char>>) -> MenuView {
    let current = match current {
        Some(current) => current,
        None => "(detached HEAD)"@,
    };
    MenuView {
        is_searchable: true,
        search_placeholder: Some("Type to search branches"@),
        ..menus::menu(
            "Select a base branch"@,
            None,
            Seq::new(branches.len(), |i: int| branch_item(current, branches[i])),
        )
    }
}

/// The line of a commit.
pub open spec fn commit_item(entry: CommitEntry<Seq<char>>) -> ItemView {
    ItemView {
        search_value: Some(entry.subject + " "@ + entry.sha),
        ..menus::item(
            entry.subject,
            None,
            MenuActionView::ReviewCommit { sha: entry.sha, title: entry.subject },
        )
    }
}

/// The menu of the commits to review.
pub open spec fn commit_menu(commits: Seq<CommitEntry<Seq<char>>>) -> MenuView {
    MenuView {
        is_searchable: true,
        search_placeholder: Some("Type to search commits"@),
        ..menus::menu(
            "Select a commit to review"@,
            None,
            Seq::new(commits.len(), |i: int| commit_item(commits[i])),
        )
    }
}

fn new_open_item(name: &str, description: Option<String>, action: MenuAction) -> (r: MenuItem)
    ensures
        r.deep_view() == open_item(name@, description.deep_view(), action.deep_view()),
{
    let mut r = menus::new_item(name.to_owned(), description, action);
    r.dismiss_on_select = false;
    r
}

/// The menu of what to review.
pub fn open_review_popup() -> (r: Menu)
    ensures
        r.deep_view() == review_menu(),
{
    let mut items = menus::no_items();
    menus::push_item(
        &mut items,
        new_open_item(
            "Review against a base branch",
            Some("(PR Style)".to_owned()),
            MenuAction::OpenBranches,
        ),
    );
    menus::push_item(
        &mut items,
        menus::new_item(
            "Review uncommitted changes".to_owned(),
            None,
            MenuAction::ReviewChanges,
        ),
    );
    menus::push_item(&mut items, new_open_item("Review a commit", None, MenuAction::OpenCommits));
    menus::push_item(
        &mut items,
        new_open_item("Custom review instructions", None, MenuAction::OpenInstructions),
    );
    let r = menus::new_menu("Select a review preset", None, items);
    proof {
        assert(r.deep_view().items =~= review_menu().items);
    }
    r
}

/// The menu of the branches to review against, when `current` is checked out.
pub fn show_review_branch_picker(current: Option<&str>, branches: &Vec<String>) -> (r: Menu)
    ensures
        r.deep_view() == branch_menu(current.deep_view(), text::views(branches@)),
{
    let current = match current {
        Some(current) => current,
        None => "(detached HEAD)",
    };
    let ghost all = text::views(branches@);
    let mut items = menus::no_items();
    proof {
        assert(Seq::new(0, |i: int| branch_item(current@, all[i])) =~= Seq::<ItemView>::empty());
    }
    for i in 0..branches.len()
        invariant
            all == text::views(branches@),
            items.deep_view() == Seq::new(i as nat, |i: int| branch_item(current@, all[i])),
    {
        let branch = branches[i].as_str();
        let mut item = menus::new_item(
            text::concat3(current, " -> ", branch),
            None,
            MenuAction::ReviewBranch { branch: branch.to_owned() },
        );
        item.search_value = Some(branch.to_owned());
        proof {
            assert(all[i as int] == branch@);
        }
        menus::push_item(&mut items, item);
        proof {
            assert(items.deep_view() =~= Seq::new(
                (i + 1) as nat,
                |i: int| branch_item(current@, all[i]),
            ));
        }
    }
    let mut r = menus::new_menu("Select a base branch", None, items);
    r.is_searchable = true;
    r.search_placeholder = Some("Type to search branches".to_owned());
    proof {
        assert(r.deep_view().items =~= branch_menu(Some(current@), all).items);
    }
    r
}

/// The menu of the commits to review.
pub fn show_review_commit_picker(commits: &Vec<CommitEntry>) -> (r: Menu)
    ensures
        r.deep_view() == commit_menu(commits.deep_view()),
{
    let ghost all = commits.deep_view();
    let mut items = menus::no_items();
    proof {
        assert(Seq::new(0, |i: int| commit_item(all[i])) =~= Seq::<ItemView>::empty());
    }
    for i in 0..commits.len()
        invariant
            all == commits.deep_view(),
            items.deep_view() == Seq::new(i as nat, |i: int| commit_item(all[i])),
    {
        let entry = &commits[i];
        let mut item = menus::new_item(
            entry.subject.clone(),
            None,
            MenuAction::ReviewCommit { sha: entry.sha.clone(), title: entry.subject.clone() },
        );
        item.search_value = Some(
            text::concat3(entry.subject.as_str(), " ", entry.sha.as_str()),
        );
        proof {
            assert(all[i as int] == entry.deep_view());
        }
        menus::push_item(&mut items, item);
        proof {
            assert(items.deep_view() =~= Seq::new((i + 1) as nat, |i: int| commit_item(all[i])));
        }
    }
    let mut r = menus::new_menu("Select a commit to review", None, items);
    r.is_searchable = true;
    r.search_placeholder = Some("Type to search commits".to_owned());
    proof {
        assert(r.deep_view().items =~= commit_menu(all).items);
    }
    r
}

/// What is to be reviewed by these instructions: nothing, if they are blank.
pub fn review_instructions(prompt: &str) -> (r: Option<String>)
    ensures
        r.deep_view() == (if text::is_blank(prompt@) {
            None
        } else {
            Some(text::trimmed(prompt@))
        }),
{
    if text::blank(prompt) {
        None
    } else {
        Some(text::trim(prompt).to_owned())
    }
}

/// Each model that is shown and not chosen automatically is listed, in its order, and no
/// other one.
pub proof fn law_each_model_is_listed(presets: Seq<PresetView>, next: PresetView)
    ensures
        other_models(seq![]).len() == 0,
        next.show_in_picker && !"codex-auto-"@.is_prefix_of(next.model) ==> other_models(
            presets.push(next),
        ) == other_models(presets).push(next),
        !next.show_in_picker || "codex-auto-"@.is_prefix_of(next.model) ==> other_models(
            presets.push(next),
        ) == other_models(presets),
{
    assert(presets.push(next).drop_last() =~= presets);
}

/// Each line of the models leads to the efforts of its own model.
pub proof fn law_each_model_can_be_chosen(presets: Seq<PresetView>, current: Option<Seq<char>>)
    requires
        presets.len() <= usize::MAX,
    ensures
        ({
            let items = models_menu(presets, current).items;
            &&& items.len() == presets.len()
            &&& forall|i: int|
                0 <= i < presets.len() ==> {
                    &&& (#[trigger] items[i]).actions == seq![
                        MenuActionView::OpenEfforts { preset: i as usize },
                    ]
                    &&& items[i].name == presets[i].display_name
                    &&& items[i].is_current == (current == Some(presets[i].model))
                    &&& items[i].is_default == presets[i].is_default
                }
        }),
{
}

/// The quick choices stand from the fast to the thorough one, each once, and take their
/// own model with its default effort.
pub proof fn law_quick_choices_take_their_model(
    presets: Seq<PresetView>,
    next: PresetView,
    order: u8,
    current: Option<Seq<char>>,
)
    ensures
        auto_order("codex-auto-fast"@) == 0,
        auto_order("codex-auto-balanced"@) == 1,
        auto_order("codex-auto-thorough"@) == 2,
        auto_items(seq![], order, current).len() == 0,
        ({
            let before = auto_items(presets, order, current);
            let after = auto_items(presets.push(next), order, current);
            if next.show_in_picker && "codex-auto-"@.is_prefix_of(next.model) && auto_order(
                next.model,
            ) == order {
                &&& after.len() == before.len() + 1
                &&& after.drop_last() == before
                &&& after.last().name == next.display_name
                &&& after.last().is_current == (current == Some(next.model))
                &&& after.last().actions == seq![
                    MenuActionView::UseModel {
                        model: next.model,
                        effort: Some(next.default_effort),
                    },
                ]
            } else {
                after == before
            }
        }),
{
    reveal_strlit("codex-auto-fast");
    reveal_strlit("codex-auto-balanced");
    reveal_strlit("codex-auto-thorough");
    assert("codex-auto-fast"@.len() == 15 && "codex-auto-balanced"@.len() == 19
        && "codex-auto-thorough"@.len() == 19);
    assert("codex-auto-balanced"@[11] == 'b' && "codex-auto-thorough"@[11] == 't');
    assert(presets.push(next).drop_last() =~= presets);
    let before = auto_items(presets, order, current);
    assert(before.push(auto_item(next, current)).drop_last() =~= before);
}

/// The cheaper model is found where it is listed and shown, and only there.
pub proof fn law_the_cheaper_model_is_found(presets: Seq<PresetView>)
    requires
        presets.len() <= usize::MAX,
    ensures
        cheap_place(presets) matches Some(place) ==> place < presets.len()
            && presets[place as int].show_in_picker && presets[place as int].model
            == "gpt-5.1-codex-mini"@,
        cheap_place(presets) is None ==> forall|i: int|
            0 <= i < presets.len() ==> !((#[trigger] presets[i]).show_in_picker && presets[i].model
                == "gpt-5.1-codex-mini"@),
    decreases presets.len(),
{
    if presets.len() > 0 {
        let front = presets.drop_last();
        law_the_cheaper_model_is_found(front);
        if cheap_place(presets) is None {
            assert forall|i: int| 0 <= i < presets.len() implies !((
            #[trigger] presets[i]).show_in_picker && presets[i].model == "gpt-5.1-codex-mini"@) by {
                if i < front.len() {
                    assert(front[i] == presets[i]);
                }
            }
        }
    }
}

/// The user can take the cheaper model, keep the present one, or not be asked again.
pub proof fn law_the_user_can_switch_or_stay(preset: PresetView)
    ensures
        ({
            let items = switch_menu(preset).items;
            &&& items.len() == 3
            &&& items[0].actions == seq![
                MenuActionView::SwitchModel {
                    model: preset.model,
                    effort: Some(preset.default_effort),
                },
            ]
            &&& items[1].actions.len() == 0
            &&& items[2].actions == seq![MenuActionView::HideSwitchPrompt]
        }),
{
}

/// Each branch and each commit has a line that has it reviewed.
pub proof fn law_each_branch_and_commit_can_be_reviewed(
    current: Option<Seq<char>>,
    branches: Seq<Seq<char>>,
    commits: Seq<CommitEntry<Seq<char>>>,
)
    ensures
        branch_menu(current, branches).items.len() == branches.len(),
        forall|i: int|
            0 <= i < branches.len() ==> (#[trigger] branch_menu(current, branches).items[i]).actions
                == seq![MenuActionView::ReviewBranch { branch: branches[i] }],
        commit_menu(commits).items.len() == commits.len(),
        forall|i: int|
            0 <= i < commits.len() ==> (#[trigger] commit_menu(commits).items[i]).actions == seq![
                MenuActionView::ReviewCommit { sha: commits[i].sha, title: commits[i].subject },
            ],
        review_menu().items.len() == 4,
        review_menu().items[0].actions == seq![MenuActionView::OpenBranches],
        review_menu().items[1].actions == seq![MenuActionView::ReviewChanges],
        review_menu().items[2].actions == seq![MenuActionView::OpenCommits],
        review_menu().items[3].actions == seq![MenuActionView::OpenInstructions],
{
}

/// All quick choices are offered, and all other models behind them if there are any; that
/// line is marked where no quick choice is in force.
pub proof fn law_other_models_can_be_reached(presets: Seq<PresetView>, current: Option<Seq<char>>)
    ensures
        ({
            let auto = auto_items(presets, 0, current) + auto_items(presets, 1, current)
                + auto_items(presets, 2, current) + auto_items(presets, 3, current);
            let items = quick_menu(presets, current).items;
            if other_models(presets).len() == 0 {
                items == auto
            } else {
                &&& items.len() == auto.len() + 1
                &&& items.drop_last() == auto
                &&& items.last().actions == seq![MenuActionView::OpenAllModels]
                &&& items.last().is_current <==> forall|i: int|
                    0 <= i < auto.len() ==> !(#[trigger] auto[i]).is_current
            }
        }),
{
    let auto = all_auto_items(presets, current);
    assert(auto.push(all_models_item(presets, current)).drop_last() =~= auto);
}

} // verus!

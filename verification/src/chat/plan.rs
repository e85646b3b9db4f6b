//! The plan of a task: which step is at work, and when it is done.

use vstd::prelude::*;

use crate::chat::types::{
    HistoryItem, HistoryView, PlanItem, PlanView, RelayPlan, RelayPlanView, StepStatus,
    WeavePlanState, WeavePlanStepState,
};
use crate::chat::state::{ChatView, ChatWidget};
use crate::text;

verus! {

/// A step of a plan, in mathematics.
pub type StepView = WeavePlanStepState<Seq<char>>;

/// The place of the first step with this id, or the number of steps.
pub open spec fn step_place(steps: Seq<StepView>, id: Seq<char>) -> int
    decreases steps.len(),
{
    if steps.len() == 0 {
        0
    } else if steps[0].id == id {
        0
    } else {
        1 + step_place(steps.subrange(1, steps.len() as int), id)
    }
}

/// The place of the first step that waits, or the number of steps.
pub open spec fn waiting_place(steps: Seq<StepView>) -> int
    decreases steps.len(),
{
    if steps.len() == 0 {
        0
    } else if steps[0].status == StepStatus::Pending {
        0
    } else {
        1 + waiting_place(steps.subrange(1, steps.len() as int))
    }
}

/// `n` and one more, as far as numbers go.
pub open spec fn one_more(n: usize) -> usize {
    if n < usize::MAX {
        (n + 1) as usize
    } else {
        usize::MAX
    }
}

/// A step to which an action was given: it is at work.
pub open spec fn step_started(step: StepView) -> StepView {
    WeavePlanStepState {
        assigned_actions: one_more(step.assigned_actions),
        pending_actions: one_more(step.pending_actions),
        status: if step.status == StepStatus::Pending {
            StepStatus::InProgress
        } else {
            step.status
        },
        ..step
    }
}

/// The steps after an action was given to the step with this id, and whether
/// that step was waiting.
pub open spec fn steps_started(steps: Seq<StepView>, id: Seq<char>) -> (Seq<StepView>, bool) {
    let i = step_place(steps, id);
    if i < steps.len() {
        (steps.update(i, step_started(steps[i])), steps[i].status == StepStatus::Pending)
    } else {
        (steps, false)
    }
}

/// The steps with the first one that waits at work.
pub open spec fn next_started(steps: Seq<StepView>) -> Seq<StepView> {
    let i = waiting_place(steps);
    if i < steps.len() {
        steps.update(i, WeavePlanStepState { status: StepStatus::InProgress, ..steps[i] })
    } else {
        steps
    }
}

/// The steps after an action of the step with this id has ended, and whether
/// that was the step's last one. The next step that waits is then at work.
pub open spec fn steps_completed(steps: Seq<StepView>, id: Seq<char>) -> (Seq<StepView>, bool) {
    let i = step_place(steps, id);
    if i < steps.len() && steps[i].pending_actions > 0 {
        let step = WeavePlanStepState {
            pending_actions: (steps[i].pending_actions - 1) as usize,
            ..steps[i]
        };
        if step.pending_actions == 0 && step.assigned_actions > 0 && step.status
            == StepStatus::InProgress {
            (
                next_started(
                    steps.update(i, WeavePlanStepState { status: StepStatus::Completed, ..step }),
                ),
                true,
            )
        } else {
            (steps.update(i, step), false)
        }
    } else {
        (steps, false)
    }
}

/// What a plan looks like when it is shown.
pub open spec fn plan_items(steps: Seq<StepView>) -> Seq<PlanItem<Seq<char>>> {
    Seq::new(steps.len(), |i: int| PlanItem { step: steps[i].text, status: steps[i].status })
}

/// A plan, as the transcript shows it.
pub open spec fn plan_entry(plan: PlanView) -> HistoryView {
    HistoryView::PlanUpdate { note: plan.note, plan: plan_items(plan.steps) }
}

/// The texts of `steps` that are not blank, trimmed.
pub open spec fn filled_steps(steps: Seq<Seq<char>>) -> Seq<Seq<char>>
    decreases steps.len(),
{
    if steps.len() == 0 {
        seq![]
    } else if text::is_blank(steps.last()) {
        filled_steps(steps.drop_last())
    } else {
        filled_steps(steps.drop_last()).push(text::trimmed(steps.last()))
    }
}

/// A new plan: the first step is at work, the others wait. The steps are
/// numbered from one.
pub open spec fn new_steps(steps: Seq<Seq<char>>) -> Seq<StepView> {
    Seq::new(
        steps.len(),
        |i: int|
            WeavePlanStepState {
                id: "step_"@ + text::decimal((i + 1) as nat),
                text: steps[i],
                status: if i == 0 { StepStatus::InProgress } else { StepStatus::Pending },
                assigned_actions: 0,
                pending_actions: 0,
            },
    )
}

/// All steps done.
pub open spec fn all_done(steps: Seq<StepView>) -> Seq<StepView> {
    Seq::new(
        steps.len(),
        |i: int| WeavePlanStepState { status: StepStatus::Completed, ..steps[i] },
    )
}

impl ChatView {
    /// With the plan in the transcript, if there is one.
    #[verifier::opaque]
    pub open spec fn show_plan(self) -> ChatView {
        match self.active_weave_plan {
            Some(plan) => self.history(plan_entry(plan)),
            None => self,
        }
    }

    /// After an action was given to a step, and whether the plan looks
    /// different.
    #[verifier::opaque]
    pub open spec fn plan_started(self, id: Seq<char>) -> (ChatView, bool) {
        let (plan, changed) = plan_with_start(self.active_weave_plan, id);
        (ChatView { active_weave_plan: plan, ..self }, changed)
    }

    /// After an action of a step has ended, and whether the plan looks
    /// different.
    #[verifier::opaque]
    pub open spec fn plan_completed(self, id: Seq<char>) -> (ChatView, bool) {
        let (plan, changed) = plan_with_end(self.active_weave_plan, id);
        (ChatView { active_weave_plan: plan, ..self }, changed)
    }

    /// With a plan that is followed from now on.
    #[verifier::opaque]
    pub open spec fn start_plan(self, plan: PlanView) -> ChatView {
        ChatView {
            pending_weave_plan: false,
            ..(ChatView { active_weave_plan: Some(plan), ..self }).show_plan()
        }
    }

    /// After the model brought a plan: it counts where one is wanted and it has
    /// steps.
    #[verifier::opaque]
    pub open spec fn apply_plan(self, plan: RelayPlanView) -> ChatView {
        let steps = filled_steps(plan.steps);
        if self.pending_weave_plan && steps.len() > 0 {
            self.start_plan(
                PlanView { steps: new_steps(steps), note: text::present(plan.note) },
            )
        } else {
            self
        }
    }
}

proof fn lemma_step_place_at(steps: Seq<StepView>, id: Seq<char>, n: int)
    requires
        0 <= n <= steps.len(),
        forall|i: int| 0 <= i < n ==> (#[trigger] steps[i]).id != id,
        n < steps.len() ==> steps[n].id == id,
    ensures
        step_place(steps, id) == n,
    decreases steps.len(),
{
    if n > 0 {
        let rest = steps.subrange(1, steps.len() as int);
        assert forall|i: int| 0 <= i < n - 1 implies (#[trigger] rest[i]).id != id by {
            assert(rest[i] == steps[i + 1]);
        }
        lemma_step_place_at(rest, id, n - 1);
        assert(steps[0].id != id);
    }
}

proof fn lemma_waiting_place_at(steps: Seq<StepView>, n: int)
    requires
        0 <= n <= steps.len(),
        forall|i: int| 0 <= i < n ==> (#[trigger] steps[i]).status != StepStatus::Pending,
        n < steps.len() ==> steps[n].status == StepStatus::Pending,
    ensures
        waiting_place(steps) == n,
    decreases steps.len(),
{
    if n > 0 {
        let rest = steps.subrange(1, steps.len() as int);
        assert forall|i: int| 0 <= i < n - 1 implies (#[trigger] rest[i]).status
            != StepStatus::Pending by {
            assert(rest[i] == steps[i + 1]);
        }
        lemma_waiting_place_at(rest, n - 1);
        assert(steps[0].status != StepStatus::Pending);
    }
}

fn find_step(steps: &Vec<WeavePlanStepState>, id: &str) -> (n: usize)
    ensures
        n <= steps@.len(),
        n == step_place(steps.deep_view(), id@),
{
    let ghost all = steps.deep_view();
    let mut n: usize = 0;
    while n < steps.len() && !text::same(steps[n].id.as_str(), id)
        invariant
            n <= steps@.len(),
            all == steps.deep_view(),
            forall|i: int| 0 <= i < n ==> (#[trigger] all[i]).id != id@,
        decreases steps@.len() - n,
    {
        proof {
            assert(all[n as int] == steps@[n as int].deep_view());
        }
        n = n + 1;
    }
    proof {
        if n < steps@.len() {
            assert(all[n as int] == steps@[n as int].deep_view());
        }
        lemma_step_place_at(all, id@, n as int);
    }
    n
}

fn find_waiting(steps: &Vec<WeavePlanStepState>) -> (n: usize)
    ensures
        n <= steps@.len(),
        n == waiting_place(steps.deep_view()),
{
    let ghost all = steps.deep_view();
    let mut n: usize = 0;
    while n < steps.len() && steps[n].status != StepStatus::Pending
        invariant
            n <= steps@.len(),
            all == steps.deep_view(),
            forall|i: int| 0 <= i < n ==> (#[trigger] all[i]).status != StepStatus::Pending,
        decreases steps@.len() - n,
    {
        proof {
            assert(all[n as int] == steps@[n as int].deep_view());
        }
        n = n + 1;
    }
    proof {
        if n < steps@.len() {
            assert(all[n as int] == steps@[n as int].deep_view());
        }
        lemma_waiting_place_at(all, n as int);
    }
    n
}

fn start_step(steps: &mut Vec<WeavePlanStepState>, id: &str) -> (changed: bool)
    ensures
        (final(steps).deep_view(), changed) == steps_started(old(steps).deep_view(), id@),
{
    let ghost before = steps.deep_view();
    let i: usize = find_step(steps, id);
    if i >= steps.len() {
        return false;
    }
    proof {
        assert(before[i as int] == steps@[i as int].deep_view());
    }
    let changed = steps[i].status == StepStatus::Pending;
    let step = WeavePlanStepState {
        id: steps[i].id.clone(),
        text: steps[i].text.clone(),
        status: if changed {
            StepStatus::InProgress
        } else {
            steps[i].status
        },
        assigned_actions: steps[i].assigned_actions.saturating_add(1),
        pending_actions: steps[i].pending_actions.saturating_add(1),
    };
    let ghost view = step.deep_view();
    steps.set(i, step);
    proof {
        assert(steps.deep_view() =~= before.update(i as int, view));
    }
    changed
}

fn set_status(steps: &mut Vec<WeavePlanStepState>, i: usize, status: StepStatus, pending: usize)
    requires
        i < old(steps)@.len(),
    ensures
        final(steps)@.len() == old(steps)@.len(),
        final(steps).deep_view() == old(steps).deep_view().update(
            i as int,
            WeavePlanStepState {
                status,
                pending_actions: pending,
                ..old(steps).deep_view()[i as int]
            },
        ),
{
    let ghost before = steps.deep_view();
    proof {
        assert(before[i as int] == steps@[i as int].deep_view());
    }
    let step = WeavePlanStepState {
        id: steps[i].id.clone(),
        text: steps[i].text.clone(),
        status,
        assigned_actions: steps[i].assigned_actions,
        pending_actions: pending,
    };
    let ghost view = step.deep_view();
    steps.set(i, step);
    proof {
        assert(steps.deep_view() =~= before.update(i as int, view));
    }
}

fn complete_step(steps: &mut Vec<WeavePlanStepState>, id: &str) -> (changed: bool)
    ensures
        (final(steps).deep_view(), changed) == steps_completed(old(steps).deep_view(), id@),
{
    let ghost before = steps.deep_view();
    let i: usize = find_step(steps, id);
    if i >= steps.len() {
        return false;
    }
    proof {
        assert(before[i as int] == steps@[i as int].deep_view());
    }
    let pending: usize = steps[i].pending_actions;
    let status = steps[i].status;
    if pending == 0 {
        return false;
    }
    if pending > 1 || steps[i].assigned_actions == 0 || status != StepStatus::InProgress {
        set_status(steps, i, status, pending - 1);
        return false;
    }
    set_status(steps, i, StepStatus::Completed, 0);
    let next: usize = find_waiting(steps);
    if next < steps.len() {
        proof {
            assert(steps.deep_view()[next as int] == steps@[next as int].deep_view());
        }
        let pending: usize = steps[next].pending_actions;
        set_status(steps, next, StepStatus::InProgress, pending);
    }
    true
}

fn items_of(steps: &Vec<WeavePlanStepState>) -> (r: Vec<PlanItem>)
    ensures
        r.deep_view() == plan_items(steps.deep_view()),
{
    let mut r: Vec<PlanItem> = Vec::new();
    for i in 0..steps.len()
        invariant
            r@.len() == i,
            forall|j: int|
                0 <= j < i ==> #[trigger] r@[j].deep_view() == plan_items(steps.deep_view())[j],
    {
        r.push(PlanItem { step: steps[i].text.clone(), status: steps[i].status });
    }
    proof {
        assert(r.deep_view() =~= plan_items(steps.deep_view()));
    }
    r
}

/// A plan, as the transcript shows it.
fn weave_plan_update(plan: &WeavePlanState) -> (r: HistoryItem)
    ensures
        r.deep_view() == plan_entry(plan.deep_view()),
{
    HistoryItem::PlanUpdate { note: text::copy_option(&plan.note), plan: items_of(&plan.steps) }
}

fn keep_filled(steps: &Vec<String>) -> (r: Vec<String>)
    ensures
        text::views(r@) == filled_steps(text::views(steps@)),
{
    let mut r: Vec<String> = Vec::new();
    let ghost all = text::views(steps@);
    proof {
        assert(text::views(r@) =~= Seq::<Seq<char>>::empty());
        assert(all.take(0) =~= Seq::<Seq<char>>::empty());
    }
    for i in 0..steps.len()
        invariant
            all == text::views(steps@),
            text::views(r@) == filled_steps(all.take(i as int)),
    {
        let ghost before = text::views(r@);
        proof {
            assert(all.take(i + 1).drop_last() =~= all.take(i as int));
            assert(all.take(i + 1).last() == steps@[i as int]@);
        }
        let step = text::trim(steps[i].as_str());
        if !step.is_empty() {
            r.push(step.to_owned());
            proof {
                assert(text::views(r@) =~= before.push(step@));
            }
        }
    }
    proof {
        assert(all.take(all.len() as int) =~= all);
    }
    r
}

fn make_steps(texts: &Vec<String>) -> (r: Vec<WeavePlanStepState>)
    ensures
        r.deep_view() == new_steps(text::views(texts@)),
{
    let mut r: Vec<WeavePlanStepState> = Vec::new();
    for i in 0..texts.len()
        invariant
            r@.len() == i,
            forall|j: int|
                0 <= j < i ==> #[trigger] r@[j].deep_view() == new_steps(text::views(texts@))[j],
    {
        let number: u64 = i as u64 + 1;
        r.push(
            WeavePlanStepState {
                id: text::concat2("step_", text::to_decimal(number).as_str()),
                text: texts[i].clone(),
                status: if i == 0 { StepStatus::InProgress } else { StepStatus::Pending },
                assigned_actions: 0,
                pending_actions: 0,
            },
        );
    }
    proof {
        assert(r.deep_view() =~= new_steps(text::views(texts@)));
    }
    r
}

fn complete_all(steps: &Vec<WeavePlanStepState>) -> (r: Vec<WeavePlanStepState>)
    ensures
        r.deep_view() == all_done(steps.deep_view()),
{
    let mut r: Vec<WeavePlanStepState> = Vec::new();
    for i in 0..steps.len()
        invariant
            r@.len() == i,
            forall|j: int|
                0 <= j < i ==> #[trigger] r@[j].deep_view() == all_done(steps.deep_view())[j],
    {
        proof {
            assert(steps.deep_view()[i as int] == steps@[i as int].deep_view());
        }
        r.push(
            WeavePlanStepState {
                id: steps[i].id.clone(),
                text: steps[i].text.clone(),
                status: StepStatus::Completed,
                assigned_actions: steps[i].assigned_actions,
                pending_actions: steps[i].pending_actions,
            },
        );
    }
    proof {
        assert(r.deep_view() =~= all_done(steps.deep_view()));
    }
    r
}

/// A plan after an action was given to a step.
pub open spec fn plan_with_start(plan: Option<PlanView>, id: Seq<char>) -> (
    Option<PlanView>,
    bool,
) {
    match plan {
        Some(plan) => {
            let (steps, changed) = steps_started(plan.steps, id);
            (Some(PlanView { steps, ..plan }), changed)
        },
        None => (None, false),
    }
}

/// A plan after an action of a step has ended.
pub open spec fn plan_with_end(plan: Option<PlanView>, id: Seq<char>) -> (
    Option<PlanView>,
    bool,
) {
    match plan {
        Some(plan) => {
            let (steps, changed) = steps_completed(plan.steps, id);
            (Some(PlanView { steps, ..plan }), changed)
        },
        None => (None, false),
    }
}

fn copy_steps(steps: &Vec<WeavePlanStepState>) -> (r: Vec<WeavePlanStepState>)
    ensures
        r@ == steps@,
{
    let mut r: Vec<WeavePlanStepState> = Vec::new();
    for i in 0..steps.len()
        invariant
            r@ == steps@.take(i as int),
    {
        r.push(steps[i].clone());
        proof {
            assert(steps@.take(i + 1) =~= steps@.take(i as int).push(steps@[i as int]));
        }
    }
    proof {
        assert(steps@.take(steps@.len() as int) =~= steps@);
    }
    r
}

/// A plan, all done, as the transcript shows it.
fn done_entry(plan: &WeavePlanState) -> (r: HistoryItem)
    ensures
        r.deep_view() == plan_entry(
            PlanView { steps: all_done(plan.deep_view().steps), ..plan.deep_view() },
        ),
{
    let plan = WeavePlanState {
        steps: complete_all(&plan.steps),
        note: text::copy_option(&plan.note),
    };
    weave_plan_update(&plan)
}

fn start_in_plan(plan: &Option<WeavePlanState>, id: &str) -> (r: (Option<WeavePlanState>, bool))
    ensures
        (r.0.deep_view(), r.1) == plan_with_start(plan.deep_view(), id@),
{
    match plan {
        Some(plan) => {
            let mut steps = copy_steps(&plan.steps);
            let changed = start_step(&mut steps, id);
            (Some(WeavePlanState { steps, note: text::copy_option(&plan.note) }), changed)
        },
        None => (None, false),
    }
}

fn complete_in_plan(plan: &Option<WeavePlanState>, id: &str) -> (r: (Option<WeavePlanState>, bool))
    ensures
        (r.0.deep_view(), r.1) == plan_with_end(plan.deep_view(), id@),
{
    match plan {
        Some(plan) => {
            let mut steps = copy_steps(&plan.steps);
            let changed = complete_step(&mut steps, id);
            (Some(WeavePlanState { steps, note: text::copy_option(&plan.note) }), changed)
        },
        None => (None, false),
    }
}

impl ChatWidget {
    pub(super) fn emit_weave_plan_update(&mut self)
        ensures
            final(self)@ == old(self)@.show_plan(),
    {
        proof {
            reveal(ChatView::show_plan);
        }
        let item = match self.get_active_weave_plan() {
            Some(plan) => weave_plan_update(plan),
            None => return,
        };
        self.add_to_history(item);
    }

    pub(super) fn mark_weave_plan_action_started(&mut self, step_id: &str) -> (changed: bool)
        ensures
            (final(self)@, changed) == old(self)@.plan_started(step_id@),
    {
        proof {
            reveal(ChatView::plan_started);
        }
        let (plan, changed) = start_in_plan(self.get_active_weave_plan(), step_id);
        self.put_active_weave_plan(plan);
        changed
    }

    pub(super) fn mark_weave_plan_action_completed(&mut self, step_id: &str) -> (changed: bool)
        ensures
            (final(self)@, changed) == old(self)@.plan_completed(step_id@),
    {
        proof {
            reveal(ChatView::plan_completed);
        }
        let (plan, changed) = complete_in_plan(self.get_active_weave_plan(), step_id);
        self.put_active_weave_plan(plan);
        changed
    }

    fn start_plan(&mut self, plan: WeavePlanState)
        ensures
            final(self)@ == old(self)@.start_plan(plan.deep_view()),
    {
        proof {
            reveal(ChatView::start_plan);
        }
        self.put_active_weave_plan(Some(plan));
        self.emit_weave_plan_update();
        self.put_pending_weave_plan(false);
    }

    pub(super) fn apply_weave_plan(&mut self, plan: &RelayPlan)
        ensures
            final(self)@ == old(self)@.apply_plan(plan.deep_view()),
    {
        proof {
            reveal(ChatView::apply_plan);
        }
        if !self.get_pending_weave_plan() {
            return;
        }
        let steps = keep_filled(&plan.steps);
        if steps.len() == 0 {
            return;
        }
        let note = match text::trim_present(&plan.note) {
            Some(note) => Some(note.to_owned()),
            None => None,
        };
        self.start_plan(WeavePlanState { steps: make_steps(&steps), note });
    }

    /// With every step of the plan done and shown, and the plan forgotten.
    pub(super) fn complete_weave_plan(&mut self)
        ensures
            final(self)@ == old(self)@.finish_plan(),
    {
        proof {
            reveal(ChatView::finish_plan);
        }
        let item = match self.get_active_weave_plan() {
            Some(plan) => done_entry(plan),
            None => return,
        };
        self.put_active_weave_plan(None);
        self.add_to_history(item);
    }
}

impl ChatView {
    /// With every step of the plan done and shown, and the plan forgotten.
    #[verifier::opaque]
    pub open spec fn finish_plan(self) -> ChatView {
        match self.active_weave_plan {
            Some(plan) => (ChatView { active_weave_plan: None, ..self }).history(
                plan_entry(PlanView { steps: all_done(plan.steps), ..plan }),
            ),
            None => self,
        }
    }
}

// ---------------------------------------------------------------------------
// Laws
// ---------------------------------------------------------------------------

/// With its last action a step at work is done. The first step that waits is at work
/// after that, and every other step is as it was.
pub proof fn law_a_step_is_done_with_its_last_action(steps: Seq<StepView>, id: Seq<char>, i: int)
    requires
        0 <= i < steps.len(),
        steps[i].id == id,
        forall|j: int| 0 <= j < i ==> (#[trigger] steps[j]).id != id,
        steps[i].status == StepStatus::InProgress,
        steps[i].pending_actions == 1,
        steps[i].assigned_actions > 0,
    ensures
        ({
            let (after, changed) = steps_completed(steps, id);
            &&& changed
            &&& after.len() == steps.len()
            &&& after[i].status == StepStatus::Completed
            &&& after[i].pending_actions == 0
            &&& forall|j: int|
                0 <= j < steps.len() ==> (#[trigger] after[j]).id == steps[j].id && after[j].text
                    == steps[j].text
            &&& forall|j: int|
                0 <= j < steps.len() && j != i ==> (#[trigger] after[j]).status == (
                if steps[j].status == StepStatus::Pending && forall|k: int|
                    0 <= k < j ==> (#[trigger] steps[k]).status != StepStatus::Pending {
                    StepStatus::InProgress
                } else {
                    steps[j].status
                })
        }),
{
    lemma_step_place_at(steps, id, i);
    let done = steps.update(
        i,
        WeavePlanStepState {
            status: StepStatus::Completed,
            pending_actions: 0,
            ..steps[i]
        },
    );
    lemma_waiting_place(done);
    let n = waiting_place(done);
    let after = steps_completed(steps, id).0;
    assert(after == next_started(done));
    assert forall|j: int| 0 <= j < steps.len() && j != i implies (#[trigger] after[j]).status == (
    if steps[j].status == StepStatus::Pending && forall|k: int|
        0 <= k < j ==> (#[trigger] steps[k]).status != StepStatus::Pending {
        StepStatus::InProgress
    } else {
        steps[j].status
    }) by {
        assert(done[j] == steps[j]);
        if j == n {
            assert forall|k: int| 0 <= k < j implies (#[trigger] steps[k]).status
                != StepStatus::Pending by {
                if k != i {
                    assert(done[k] == steps[k]);
                }
            }
        } else if steps[j].status == StepStatus::Pending {
            if forall|k: int| 0 <= k < j ==> (#[trigger] steps[k]).status != StepStatus::Pending {
                assert(n <= j);
                assert(n < j);
                assert(done[n].status == StepStatus::Pending);
                assert(steps[n].status != StepStatus::Pending);
                assert(false);
            }
        }
    }
}

proof fn lemma_waiting_place(steps: Seq<StepView>)
    ensures
        ({
            let n = waiting_place(steps);
            &&& 0 <= n <= steps.len()
            &&& n < steps.len() ==> steps[n].status == StepStatus::Pending
            &&& forall|i: int| 0 <= i < n ==> (#[trigger] steps[i]).status != StepStatus::Pending
        }),
    decreases steps.len(),
{
    if steps.len() > 0 && steps[0].status != StepStatus::Pending {
        let rest = steps.subrange(1, steps.len() as int);
        lemma_waiting_place(rest);
        let n = waiting_place(rest);
        assert forall|i: int| 0 <= i < n + 1 implies (#[trigger] steps[i]).status
            != StepStatus::Pending by {
            if i > 0 {
                assert(rest[i - 1] == steps[i]);
            }
        }
        if n < rest.len() {
            assert(rest[n] == steps[n + 1]);
        }
    }
}

/// While a step has more actions to go, its status stays as it is, and so do all others.
pub proof fn law_a_step_waits_for_its_actions(steps: Seq<StepView>, id: Seq<char>, i: int)
    requires
        0 <= i < steps.len(),
        steps[i].id == id,
        forall|j: int| 0 <= j < i ==> (#[trigger] steps[j]).id != id,
        steps[i].pending_actions > 1,
    ensures
        ({
            let (after, changed) = steps_completed(steps, id);
            &&& !changed
            &&& after.len() == steps.len()
            &&& after[i].pending_actions == steps[i].pending_actions - 1
            &&& forall|j: int|
                0 <= j < steps.len() ==> (#[trigger] after[j]).status == steps[j].status
            &&& forall|j: int| 0 <= j < steps.len() && j != i ==> #[trigger] after[j] == steps[j]
        }),
{
    lemma_step_place_at(steps, id, i);
}

/// To give an action to a step puts it to work, if it waited, and the action is one more
/// to go for that step and for no other.
pub proof fn law_an_action_puts_its_step_to_work(steps: Seq<StepView>, id: Seq<char>, i: int)
    requires
        0 <= i < steps.len(),
        steps[i].id == id,
        forall|j: int| 0 <= j < i ==> (#[trigger] steps[j]).id != id,
        steps[i].pending_actions < usize::MAX,
        steps[i].assigned_actions < usize::MAX,
    ensures
        ({
            let (after, changed) = steps_started(steps, id);
            &&& after.len() == steps.len()
            &&& changed == (steps[i].status == StepStatus::Pending)
            &&& after[i].status != StepStatus::Pending
            &&& steps[i].status != StepStatus::Pending ==> after[i].status == steps[i].status
            &&& steps[i].status == StepStatus::Pending ==> after[i].status
                == StepStatus::InProgress
            &&& after[i].pending_actions == steps[i].pending_actions + 1
            &&& after[i].assigned_actions == steps[i].assigned_actions + 1
            &&& after[i].id == steps[i].id && after[i].text == steps[i].text
            &&& forall|j: int| 0 <= j < steps.len() && j != i ==> #[trigger] after[j] == steps[j]
        }),
{
    lemma_step_place_at(steps, id, i);
}

/// What belongs to no step of a plan leaves it as it is.
pub proof fn law_other_actions_leave_the_plan(steps: Seq<StepView>, id: Seq<char>)
    requires
        forall|j: int| 0 <= j < steps.len() ==> (#[trigger] steps[j]).id != id,
    ensures
        steps_started(steps, id) == (steps, false),
        steps_completed(steps, id) == (steps, false),
{
    lemma_step_place_at(steps, id, steps.len() as int);
}

/// A new plan has every step of the model that is not blank, in its order, and the first
/// one is at work.
pub proof fn law_a_new_plan_has_all_steps(steps: Seq<Seq<char>>, next: Seq<char>)
    ensures
        filled_steps(seq![]).len() == 0,
        filled_steps(steps.push(next)) == (if text::trimmed(next).len() > 0 {
            filled_steps(steps).push(text::trimmed(next))
        } else {
            filled_steps(steps)
        }),
        new_steps(steps).len() == steps.len(),
        forall|i: int|
            0 <= i < steps.len() ==> {
                let step = #[trigger] new_steps(steps)[i];
                &&& step.text == steps[i]
                &&& step.id == "step_"@ + text::decimal((i + 1) as nat)
                &&& step.status == (if i == 0 {
                    StepStatus::InProgress
                } else {
                    StepStatus::Pending
                })
                &&& step.assigned_actions == 0
                &&& step.pending_actions == 0
            },
{
    assert(steps.push(next).drop_last() =~= steps);
}

} // verus!

//! The end of the transcript: the entry that still changes, and when a line is
//! drawn before an answer. Entries go by their numbers; how they look is known
//! elsewhere.

use vstd::prelude::*;

verus! {

/// What an entry that still changes shows.
#[derive(Debug, Clone, Copy, PartialEq, Eq, Structural)]
pub enum CellKind {
    /// The header that stands in until the session is set up.
    Header,
    /// Commands that run.
    Exec,
    /// A call of a tool.
    Tool,
    Other,
}

/// The entry that still changes.
#[derive(Debug, Clone, Copy, PartialEq, Eq, Structural)]
pub struct ActiveCell {
    pub kind: CellKind,
    pub cell: u64,
}

/// What is to be done about the transcript.
#[derive(Debug, Clone, Copy, PartialEq, Eq, Structural)]
pub enum TranscriptAction {
    /// Add an entry, which does not change any more.
    Insert(u64),
    /// Add the line that stands before an answer.
    InsertSeparator,
    /// Show that what the entry shows has failed.
    MarkFailed(u64),
    Redraw,
}

/// An entry that is to be added.
#[derive(Debug, Clone, Copy, PartialEq, Eq, Structural)]
pub struct NewCell {
    pub cell: u64,
    /// Whether it shows any line.
    pub visible: bool,
}

/// The end of the transcript.
#[derive(Debug, Clone, Copy, PartialEq, Eq, Structural)]
pub struct Transcript {
    pub active: Option<ActiveCell>,
    /// Changes whenever the active entry does.
    pub revision: u64,
    /// Whether an entry was added since the last answer.
    pub separator_due: bool,
    /// Whether something was done since the last line.
    pub worked: bool,
}

/// What is to be done, in this order.
pub type Actions = Seq<TranscriptAction>;

impl Transcript {
    /// Whether the active entry is of a kind.
    pub open spec fn shows(self, kind: CellKind) -> bool {
        match self.active {
            Some(active) => active.kind == kind,
            None => false,
        }
    }

    /// What closes the active entry.
    pub open spec fn closing(self) -> Actions {
        match self.active {
            Some(active) => seq![TranscriptAction::Insert(active.cell)],
            None => seq![],
        }
    }

    /// With no active entry.
    pub open spec fn closed(self) -> Transcript {
        Transcript {
            active: None,
            separator_due: self.separator_due || self.active is Some,
            ..self
        }
    }

    /// With an active entry that has changed.
    pub open spec fn changed(self, active: ActiveCell) -> Transcript {
        Transcript {
            active: Some(active),
            revision: self.revision.wrapping_add(1),
            ..self
        }
    }

    /// Whether the header stays where it is until the session is set up.
    pub open spec fn keeps_header(self, configured: bool) -> bool {
        !configured && self.shows(CellKind::Header)
    }

    /// After an entry was added.
    pub open spec fn with_cell(self, new: NewCell, configured: bool) -> Transcript {
        if self.keeps_header(configured) || !new.visible {
            self
        } else {
            Transcript { separator_due: true, ..self.closed() }
        }
    }

    /// What adds an entry.
    pub open spec fn adding(self, new: NewCell, configured: bool) -> Actions {
        (if self.keeps_header(configured) || !new.visible {
            seq![]
        } else {
            self.closing()
        }).push(TranscriptAction::Insert(new.cell))
    }

    /// Whether a line stands before the answer that starts.
    pub open spec fn draws_line(self, streaming: bool) -> bool {
        !streaming && self.closed().separator_due && self.worked
    }

    /// After more of an answer.
    pub open spec fn with_answer(self, streaming: bool) -> Transcript {
        if streaming {
            self.closed()
        } else {
            Transcript {
                separator_due: false,
                worked: self.worked && !self.draws_line(streaming),
                ..self.closed()
            }
        }
    }

    /// What stands before more of an answer.
    pub open spec fn before_answer(self, streaming: bool) -> Actions {
        let lines = if self.draws_line(streaming) {
            self.closing().push(TranscriptAction::InsertSeparator)
        } else {
            self.closing()
        };
        if self.active is Some || self.draws_line(streaming) {
            lines.push(TranscriptAction::Redraw)
        } else {
            lines
        }
    }

    /// After a command began; `joins` tells whether it can be shown with those
    /// that are shown.
    pub open spec fn exec_begun(self, cell: u64, joins: bool) -> Transcript {
        let active = ActiveCell { kind: CellKind::Exec, cell };
        if self.shows(CellKind::Exec) && joins {
            self.changed(active)
        } else {
            self.closed().changed(active)
        }
    }

    /// What shows that a command began.
    pub open spec fn beginning_exec(self, joins: bool) -> Actions {
        (if self.shows(CellKind::Exec) && joins {
            seq![]
        } else {
            self.closing()
        }).push(TranscriptAction::Redraw)
    }

    /// With an entry that shows commands: a new one, if there is none.
    pub open spec fn with_exec(self, cell: u64) -> Transcript {
        if self.shows(CellKind::Exec) {
            self
        } else {
            Transcript {
                active: Some(ActiveCell { kind: CellKind::Exec, cell }),
                ..self.closed()
            }
        }
    }

    /// What makes room for an entry that shows commands.
    pub open spec fn opening_exec(self) -> Actions {
        if self.shows(CellKind::Exec) {
            seq![]
        } else {
            self.closing()
        }
    }

    /// After a command ended; `complete` tells whether all that are shown did.
    pub open spec fn exec_ended(self, complete: bool) -> Transcript {
        match self.active {
            Some(active) if active.kind == CellKind::Exec => if complete {
                Transcript { worked: true, ..self.closed() }
            } else {
                Transcript { worked: true, ..self.changed(active) }
            },
            _ => Transcript { worked: true, ..self },
        }
    }

    /// What shows that a command ended.
    pub open spec fn ending_exec(self, complete: bool) -> Actions {
        if !self.shows(CellKind::Exec) {
            seq![]
        } else if complete {
            self.closing()
        } else {
            seq![TranscriptAction::Redraw]
        }
    }

    /// After a call of a tool began.
    pub open spec fn tool_begun(self, cell: u64) -> Transcript {
        self.closed().changed(ActiveCell { kind: CellKind::Tool, cell })
    }

    /// The active entry when a call of a tool ends: that of the call, or a new
    /// one.
    pub open spec fn with_tool(self, cell: u64, same_call: bool) -> Transcript {
        if self.shows(CellKind::Tool) && same_call {
            self
        } else {
            Transcript {
                active: Some(ActiveCell { kind: CellKind::Tool, cell }),
                ..self.closed()
            }
        }
    }

    /// What shows that a call of a tool ended, up to what else it gave.
    pub open spec fn ending_tool(self, cell: u64, same_call: bool) -> Actions {
        (if self.shows(CellKind::Tool) && same_call {
            seq![]
        } else {
            self.closing()
        }) + self.with_tool(cell, same_call).closing()
    }

    /// After a call of a tool ended, which may have given something else to show.
    pub open spec fn tool_ended(
        self,
        cell: u64,
        same_call: bool,
        extra: Option<NewCell>,
        configured: bool,
    ) -> Transcript {
        let closed = self.with_tool(cell, same_call).closed();
        Transcript {
            worked: true,
            ..match extra {
                Some(extra) => closed.with_cell(extra, configured),
                None => closed,
            }
        }
    }

    /// After what is shown has failed.
    pub open spec fn failed(self, visible: bool, configured: bool) -> Transcript {
        match self.active {
            Some(active) => (Transcript { active: None, ..self }).with_cell(
                NewCell { cell: active.cell, visible },
                configured,
            ),
            None => self,
        }
    }

    /// What shows that what is shown has failed.
    pub open spec fn failing(self) -> Actions {
        match self.active {
            Some(active) => (if active.kind == CellKind::Exec || active.kind == CellKind::Tool {
                seq![TranscriptAction::MarkFailed(active.cell)]
            } else {
                seq![]
            }).push(TranscriptAction::Insert(active.cell)),
            None => seq![],
        }
    }

    /// After the session was set up: what is known of it takes the place of the
    /// header.
    pub open spec fn with_session(self, new: NewCell, configured: bool) -> Transcript {
        if self.shows(CellKind::Header) {
            Transcript { separator_due: true, active: None, ..self }
        } else {
            self.closed().with_cell(new, configured)
        }
    }

    /// What shows that the session was set up.
    pub open spec fn showing_session(self, new: NewCell, configured: bool) -> Actions {
        if self.shows(CellKind::Header) {
            seq![TranscriptAction::Insert(new.cell)]
        } else {
            self.closing() + self.closed().adding(new, configured)
        }
    }
}

fn append_actions(actions: &mut Vec<TranscriptAction>, more: &Vec<TranscriptAction>)
    ensures
        final(actions)@ == old(actions)@ + more@,
{
    let ghost before = actions@;
    proof {
        assert(before + more@.take(0) =~= before);
    }
    for i in 0..more.len()
        invariant
            actions@ == before + more@.take(i as int),
    {
        actions.push(more[i]);
        proof {
            assert((before + more@.take(i as int)).push(more@[i as int]) =~= before + more@.take(
                i + 1,
            ));
        }
    }
    proof {
        assert(more@.take(more@.len() as int) =~= more@);
    }
}

impl Transcript {
    /// A transcript; the header stands in until the model is known.
    pub fn new(header: Option<u64>) -> (r: Transcript)
        ensures
            r == (Transcript {
                active: match header {
                    Some(cell) => Some(ActiveCell { kind: CellKind::Header, cell }),
                    None => None,
                },
                revision: 0,
                separator_due: false,
                worked: false,
            }),
    {
        let active = match header {
            Some(cell) => Some(ActiveCell { kind: CellKind::Header, cell }),
            None => None,
        };
        Transcript { active, revision: 0, separator_due: false, worked: false }
    }

    fn is_showing(&self, kind: CellKind) -> (r: bool)
        ensures
            r == self.shows(kind),
    {
        match self.active {
            Some(active) => active.kind == kind,
            None => false,
        }
    }

    /// Closes the active entry.
    pub fn flush_active_cell(&mut self) -> (actions: Vec<TranscriptAction>)
        ensures
            *final(self) == old(self).closed(),
            actions@ == old(self).closing(),
    {
        let mut actions: Vec<TranscriptAction> = Vec::new();
        if let Some(active) = self.active {
            self.active = None;
            self.separator_due = true;
            actions.push(TranscriptAction::Insert(active.cell));
        }
        proof {
            assert(actions@ =~= old(self).closing());
        }
        actions
    }

    fn set_active(&mut self, active: ActiveCell)
        ensures
            *final(self) == old(self).changed(active),
    {
        self.active = Some(active);
        self.revision = self.revision.wrapping_add(1);
    }

    /// Adds an entry; `configured` tells whether the session is set up.
    pub fn add_boxed_history(&mut self, new: NewCell, configured: bool) -> (actions: Vec<
        TranscriptAction,
    >)
        ensures
            *final(self) == old(self).with_cell(new, configured),
            actions@ == old(self).adding(new, configured),
    {
        let keeps_header = !configured && self.is_showing(CellKind::Header);
        let mut actions: Vec<TranscriptAction> = Vec::new();
        if !keeps_header && new.visible {
            actions = self.flush_active_cell();
            self.separator_due = true;
        }
        actions.push(TranscriptAction::Insert(new.cell));
        proof {
            assert(actions@ =~= old(self).adding(new, configured));
        }
        actions
    }

    /// Makes room for more of an answer; `streaming` tells whether some of it is
    /// shown already.
    pub fn handle_streaming_delta(&mut self, streaming: bool) -> (actions: Vec<TranscriptAction>)
        ensures
            *final(self) == old(self).with_answer(streaming),
            actions@ == old(self).before_answer(streaming),
    {
        let mut needs_redraw = self.active.is_some();
        let mut actions = self.flush_active_cell();
        if !streaming {
            if self.separator_due && self.worked {
                actions.push(TranscriptAction::InsertSeparator);
                self.worked = false;
                needs_redraw = true;
            }
            self.separator_due = false;
        }
        if needs_redraw {
            actions.push(TranscriptAction::Redraw);
        }
        proof {
            assert(actions@ =~= old(self).before_answer(streaming));
        }
        actions
    }

    /// Shows that a command began.
    pub fn handle_exec_begin(&mut self, cell: u64, joins: bool) -> (actions: Vec<TranscriptAction>)
        ensures
            *final(self) == old(self).exec_begun(cell, joins),
            actions@ == old(self).beginning_exec(joins),
    {
        let mut actions: Vec<TranscriptAction> = Vec::new();
        if !(self.is_showing(CellKind::Exec) && joins) {
            actions = self.flush_active_cell();
        }
        self.set_active(ActiveCell { kind: CellKind::Exec, cell });
        actions.push(TranscriptAction::Redraw);
        proof {
            assert(actions@ =~= old(self).beginning_exec(joins));
        }
        actions
    }

    /// Has an entry that shows commands, before one of them ends.
    pub fn open_exec(&mut self, cell: u64) -> (actions: Vec<TranscriptAction>)
        ensures
            *final(self) == old(self).with_exec(cell),
            actions@ == old(self).opening_exec(),
    {
        let mut actions: Vec<TranscriptAction> = Vec::new();
        if !self.is_showing(CellKind::Exec) {
            actions = self.flush_active_cell();
            self.active = Some(ActiveCell { kind: CellKind::Exec, cell });
        }
        proof {
            assert(actions@ =~= old(self).opening_exec());
        }
        actions
    }

    /// Shows that a command ended.
    pub fn handle_exec_end(&mut self, complete: bool) -> (actions: Vec<TranscriptAction>)
        ensures
            *final(self) == old(self).exec_ended(complete),
            actions@ == old(self).ending_exec(complete),
    {
        let mut actions: Vec<TranscriptAction> = Vec::new();
        if let Some(active) = self.active {
            if active.kind == CellKind::Exec {
                if complete {
                    actions = self.flush_active_cell();
                } else {
                    self.set_active(active);
                    actions.push(TranscriptAction::Redraw);
                }
            }
        }
        self.worked = true;
        proof {
            assert(actions@ =~= old(self).ending_exec(complete));
        }
        actions
    }

    /// Shows more of what a command prints; `changes` tells whether there is
    /// anything to show.
    pub fn on_exec_command_output_delta(&mut self, changes: bool) -> (actions: Vec<
        TranscriptAction,
    >)
        ensures
            *final(self) == (if old(self).shows(CellKind::Exec) && changes {
                old(self).changed(old(self).active->0)
            } else {
                *old(self)
            }),
            actions@ == (if old(self).shows(CellKind::Exec) && changes {
                seq![TranscriptAction::Redraw]
            } else {
                seq![]
            }),
    {
        let mut actions: Vec<TranscriptAction> = Vec::new();
        if let Some(active) = self.active {
            if active.kind == CellKind::Exec && changes {
                self.set_active(active);
                actions.push(TranscriptAction::Redraw);
                proof {
                    assert(actions@ =~= seq![TranscriptAction::Redraw]);
                }
                return actions;
            }
        }
        proof {
            assert(actions@ =~= seq![]);
        }
        actions
    }

    /// Shows that a call of a tool began.
    pub fn handle_mcp_begin(&mut self, cell: u64) -> (actions: Vec<TranscriptAction>)
        ensures
            *final(self) == old(self).tool_begun(cell),
            actions@ == old(self).closing().push(TranscriptAction::Redraw),
    {
        let mut actions = self.flush_active_cell();
        self.set_active(ActiveCell { kind: CellKind::Tool, cell });
        actions.push(TranscriptAction::Redraw);
        actions
    }

    /// Shows that a call of a tool ended; `same_call` tells whether the active
    /// entry is that of the call.
    pub fn handle_mcp_end(
        &mut self,
        cell: u64,
        same_call: bool,
        extra: Option<NewCell>,
        configured: bool,
    ) -> (actions: Vec<TranscriptAction>)
        ensures
            *final(self) == old(self).tool_ended(cell, same_call, extra, configured),
            actions@ == old(self).ending_tool(cell, same_call) + (match extra {
                Some(extra) => old(self).with_tool(cell, same_call).closed().adding(
                    extra,
                    configured,
                ),
                None => seq![],
            }),
    {
        let mut actions: Vec<TranscriptAction> = Vec::new();
        if !(self.is_showing(CellKind::Tool) && same_call) {
            actions = self.flush_active_cell();
            self.active = Some(ActiveCell { kind: CellKind::Tool, cell });
        }
        let closing = self.flush_active_cell();
        append_actions(&mut actions, &closing);
        proof {
            assert(actions@ =~= old(self).ending_tool(cell, same_call));
        }
        let ghost before = actions@;
        if let Some(extra) = extra {
            let adding = self.add_boxed_history(extra, configured);
            append_actions(&mut actions, &adding);
        } else {
            proof {
                assert(before + Seq::<TranscriptAction>::empty() =~= before);
            }
        }
        self.worked = true;
        actions
    }

    /// Shows that what is shown has failed; `visible` tells whether it shows any
    /// line.
    pub fn finalize_active_cell_as_failed(
        &mut self,
        visible: bool,
        configured: bool,
    ) -> (actions: Vec<TranscriptAction>)
        ensures
            *final(self) == old(self).failed(visible, configured),
            actions@ == old(self).failing(),
    {
        let mut actions: Vec<TranscriptAction> = Vec::new();
        if let Some(active) = self.active {
            self.active = None;
            if active.kind == CellKind::Exec || active.kind == CellKind::Tool {
                actions.push(TranscriptAction::MarkFailed(active.cell));
            }
            let adding = self.add_boxed_history(
                NewCell { cell: active.cell, visible },
                configured,
            );
            append_actions(&mut actions, &adding);
        }
        proof {
            assert(actions@ =~= old(self).failing());
        }
        actions
    }

    /// Shows that the session was set up.
    pub fn apply_session_info_cell(&mut self, new: NewCell, configured: bool) -> (actions: Vec<
        TranscriptAction,
    >)
        ensures
            *final(self) == old(self).with_session(new, configured),
            actions@ == old(self).showing_session(new, configured),
    {
        if self.is_showing(CellKind::Header) {
            self.active = Some(ActiveCell { kind: CellKind::Other, cell: new.cell });
            self.flush_active_cell()
        } else {
            let mut actions = self.flush_active_cell();
            let adding = self.add_boxed_history(new, configured);
            append_actions(&mut actions, &adding);
            actions
        }
    }

    /// Something was done.
    pub fn mark_work(&mut self)
        ensures
            *final(self) == (Transcript { worked: true, ..*old(self) }),
    {
        self.worked = true;
    }

    /// No line is due before the next answer.
    pub fn reset_separator(&mut self)
        ensures
            *final(self) == (Transcript { separator_due: false, ..*old(self) }),
    {
        self.separator_due = false;
    }

    /// What tells whether the active entry has changed, if there is one.
    pub fn active_cell_transcript_key(&self) -> (r: Option<u64>)
        ensures
            r == (if self.active is Some {
                Some(self.revision)
            } else {
                None
            }),
    {
        if self.active.is_some() {
            Some(self.revision)
        } else {
            None
        }
    }
}

// ---------------------------------------------------------------------------
// Laws
// ---------------------------------------------------------------------------

/// Before an answer starts, nothing is left that still changes, and a line is
/// drawn if and only if something was done and shown since the last one.
pub proof fn law_a_line_is_drawn_after_work(transcript: Transcript)
    ensures
        transcript.with_answer(false).active is None,
        !transcript.with_answer(false).separator_due,
        transcript.before_answer(false).contains(TranscriptAction::InsertSeparator) <==> (
        transcript.worked && (transcript.separator_due || transcript.active is Some)),
{
    let lines = transcript.closing();
    let with_line = lines.push(TranscriptAction::InsertSeparator);
    if transcript.draws_line(false) {
        assert(with_line[lines.len() as int] == TranscriptAction::InsertSeparator);
        assert(transcript.before_answer(false)[lines.len() as int]
            == TranscriptAction::InsertSeparator);
    }
}

/// One piece of work draws one line: an answer that follows the next time without
/// work has none before it.
pub proof fn law_a_line_is_drawn_once(transcript: Transcript, new: NewCell, configured: bool)
    requires
        transcript.draws_line(false),
    ensures
        !transcript.with_answer(false).with_cell(new, configured).draws_line(false),
{
}

/// Nothing that is shown gets lost: when an entry is added in front of which the
/// active one has to go, the active one goes into the transcript first.
pub proof fn law_the_active_entry_is_kept(transcript: Transcript, new: NewCell, configured: bool)
    requires
        transcript.active is Some,
    ensures
        ({
            let after = transcript.with_cell(new, configured);
            let actions = transcript.adding(new, configured);
            ||| after.active == transcript.active && actions == seq![
                TranscriptAction::Insert(new.cell),
            ]
            ||| after.active is None && actions == seq![
                TranscriptAction::Insert(transcript.active->0.cell),
                TranscriptAction::Insert(new.cell),
            ]
        }),
{
    let actions = transcript.adding(new, configured);
    if transcript.keeps_header(configured) || !new.visible {
        assert(actions =~= seq![TranscriptAction::Insert(new.cell)]);
    } else {
        assert(actions =~= seq![
            TranscriptAction::Insert(transcript.active->0.cell),
            TranscriptAction::Insert(new.cell),
        ]);
    }
}

/// The header is never shown twice: what is known of the session takes its place.
pub proof fn law_the_header_is_replaced(transcript: Transcript, new: NewCell, configured: bool)
    requires
        transcript.shows(CellKind::Header),
    ensures
        transcript.showing_session(new, configured) == seq![TranscriptAction::Insert(new.cell)],
        transcript.with_session(new, configured).active is None,
{
}

/// What still changes goes into the transcript before something else takes its place:
/// before an answer, before another command and before a tool.
pub proof fn law_what_changes_is_kept(transcript: Transcript, cell: u64, joins: bool)
    requires
        transcript.active is Some,
    ensures
        ({
            let kept = TranscriptAction::Insert(transcript.active->0.cell);
            &&& transcript.before_answer(true)[0] == kept
            &&& transcript.before_answer(false)[0] == kept
            &&& !(transcript.active->0.kind == CellKind::Exec && joins)
                ==> transcript.beginning_exec(joins)[0] == kept
            &&& transcript.active->0.kind != CellKind::Exec ==> transcript.opening_exec()[0]
                == kept
            &&& transcript.ending_tool(cell, false)[0] == kept
            &&& transcript.failing().last() == kept
            &&& transcript.failed(true, true).active is None
        }),
{
}

/// A command that begins is what changes now; where it joins the one that is shown, that
/// one stays, and nothing goes into the transcript.
pub proof fn law_a_command_is_shown(transcript: Transcript, cell: u64, joins: bool)
    ensures
        transcript.exec_begun(cell, joins).active == Some(
            ActiveCell { kind: CellKind::Exec, cell },
        ),
        transcript.tool_begun(cell).active == Some(ActiveCell { kind: CellKind::Tool, cell }),
        joins && transcript.active is Some && transcript.active->0.kind == CellKind::Exec
            ==> transcript.beginning_exec(joins) == seq![TranscriptAction::Redraw],
        transcript.beginning_exec(joins).last() == TranscriptAction::Redraw,
        transcript.exec_begun(cell, joins).revision == transcript.revision.wrapping_add(1),
        transcript.exec_begun(cell, joins).worked == transcript.worked,
{
    assert(transcript.beginning_exec(joins).len() > 0);
}

/// A command that has ended counts as work. Once all it was joined with has ended, it goes
/// into the transcript; until then it stays what changes.
pub proof fn law_a_command_that_ended_is_work(transcript: Transcript, complete: bool)
    ensures
        transcript.exec_ended(complete).worked,
        transcript.active matches Some(active) ==> active.kind == CellKind::Exec ==> {
            &&& complete ==> transcript.exec_ended(complete).active is None
                && transcript.ending_exec(complete) == seq![TranscriptAction::Insert(active.cell)]
            &&& !complete ==> transcript.exec_ended(complete).active == transcript.active
                && transcript.ending_exec(complete) == seq![TranscriptAction::Redraw]
        },
        transcript.active is None || transcript.active->0.kind != CellKind::Exec
            ==> transcript.exec_ended(complete).active == transcript.active
            && transcript.ending_exec(complete).len() == 0,
{
}

/// A tool that has ended counts as work, goes into the transcript, and leaves nothing that
/// still changes.
pub proof fn law_a_tool_that_ended_is_work(
    transcript: Transcript,
    cell: u64,
    same_call: bool,
    configured: bool,
)
    ensures
        ({
            let after = transcript.tool_ended(cell, same_call, None, configured);
            &&& after.worked
            &&& after.active is None
            &&& after.separator_due
            &&& !(same_call && transcript.active is Some && transcript.active->0.kind
                == CellKind::Tool) ==> transcript.ending_tool(cell, same_call).last()
                == TranscriptAction::Insert(cell)
            &&& same_call && transcript.active is Some && transcript.active->0.kind
                == CellKind::Tool ==> transcript.ending_tool(cell, same_call) == seq![
                TranscriptAction::Insert(transcript.active->0.cell),
            ]
        }),
{
    let after = transcript.with_tool(cell, same_call);
    assert(after.closing().len() == 1);
    if same_call && transcript.shows(CellKind::Tool) {
        let none: Actions = seq![];
        assert(none + after.closing() =~= after.closing());
    }
}

} // verus!

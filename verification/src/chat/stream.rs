//! The answer that is being shown, and the events that wait until it is.

use vstd::prelude::*;

use crate::chat::relay;
use crate::chat::replies;
use crate::chat::state::{ChatView, ChatWidget};
use crate::chat::types::{
    Effect, EffectView, ExecBegin, ExecBeginView, HistoryItem, HistoryView, InterruptEvent,
    InterruptView, Notification, NotificationSettings, NotificationSettingsView, NotificationView,
    RunningCommand,
};
use crate::outside;
use crate::table;
use crate::text;

verus! {

// ---------------------------------------------------------------------------
// Notifications
// ---------------------------------------------------------------------------

impl NotificationView {
    /// The type under which the user can want a notification.
    pub open spec fn type_label(self) -> Seq<char> {
        match self {
            NotificationView::AgentTurnComplete { response: _ } => "agent-turn-complete"@,
            _ => "approval-requested"@,
        }
    }

    /// Whether the user wants this notification.
    pub open spec fn is_allowed(self, settings: NotificationSettingsView) -> bool {
        match settings {
            NotificationSettingsView::Enabled(enabled) => enabled,
            NotificationSettingsView::Custom(allowed) => relay::holds_id(
                allowed,
                self.type_label(),
            ),
        }
    }

    /// The part of a notification that is shortened, and to how many characters
    /// as the user sees them.
    pub open spec fn long_part(self) -> Option<(Seq<char>, usize)> {
        match self {
            NotificationView::AgentTurnComplete { response } => {
                let preview = text::joined(text::words(response), " "@);
                if preview.len() == 0 {
                    None
                } else {
                    Some((preview, 200))
                }
            },
            NotificationView::ExecApprovalRequested { command } => Some((command, 30)),
            _ => None,
        }
    }

    /// What a notification says; `short` is its long part, shortened, or the path
    /// of the only file that is to be changed.
    pub open spec fn shown(self, short: Seq<char>) -> Seq<char> {
        match self {
            NotificationView::AgentTurnComplete { response: _ } => if self.long_part() is Some {
                short
            } else {
                "Agent turn complete"@
            },
            NotificationView::ExecApprovalRequested { command: _ } => "Approval requested: "@
                + short,
            NotificationView::EditApprovalRequested { cwd: _, changes } => if changes.len() == 1 {
                "Codex wants to edit "@ + short
            } else {
                "Codex wants to edit "@ + text::decimal(changes.len()) + " files"@
            },
            NotificationView::ElicitationRequested { server_name } => "Approval requested by "@
                + server_name,
        }
    }
}

impl Notification {
    /// The type under which the user can want a notification.
    pub fn kind_name(&self) -> (r: &'static str)
        ensures
            r@ == self.deep_view().type_label(),
    {
        match self {
            Notification::AgentTurnComplete { response: _ } => "agent-turn-complete",
            _ => "approval-requested",
        }
    }

    /// Whether the user wants this notification.
    pub fn allowed_for(&self, settings: &NotificationSettings) -> (r: bool)
        ensures
            r == self.deep_view().is_allowed(settings.deep_view()),
    {
        match settings {
            NotificationSettings::Enabled(enabled) => *enabled,
            NotificationSettings::Custom(allowed) => relay::contains_id(
                allowed,
                self.kind_name(),
            ),
        }
    }

    /// The part of the notification that is to be shortened, and to how many
    /// characters as the user sees them.
    pub fn long_part(&self) -> (r: Option<(String, usize)>)
        ensures
            match (r, self.deep_view().long_part()) {
                (Some(a), Some(b)) => a.0@ == b.0 && a.1 == b.1,
                (None, None) => true,
                _ => false,
            },
    {
        match self {
            Notification::AgentTurnComplete { response } => {
                let words = text::split_words(response.as_str());
                let preview = text::join(&words, " ");
                if preview.as_str().is_empty() {
                    None
                } else {
                    Some((preview, 200))
                }
            },
            Notification::ExecApprovalRequested { command } => Some((command.clone(), 30)),
            _ => None,
        }
    }

    /// What the notification says; `short` is its long part, shortened, or the
    /// path of the only file that is to be changed.
    pub fn display(&self, short: &str) -> (r: String)
        ensures
            r@ == self.deep_view().shown(short@),
    {
        match self {
            Notification::AgentTurnComplete { response: _ } => if self.long_part().is_some() {
                short.to_owned()
            } else {
                "Agent turn complete".to_owned()
            },
            Notification::ExecApprovalRequested { command: _ } => text::concat2(
                "Approval requested: ",
                short,
            ),
            Notification::EditApprovalRequested { cwd: _, changes } => {
                proof {
                    assert(text::views(changes@).len() == changes@.len());
                }
                if changes.len() == 1 {
                    text::concat2("Codex wants to edit ", short)
                } else {
                    let number = text::to_decimal(changes.len() as u64);
                    text::concat3("Codex wants to edit ", number.as_str(), " files")
                }
            },
            Notification::ElicitationRequested { server_name } => text::concat2(
                "Approval requested by ",
                server_name.as_str(),
            ),
        }
    }
}

impl ChatView {
    /// With a notification due, if the user wants it.
    #[verifier::opaque]
    pub open spec fn notify(self, notification: NotificationView) -> ChatView {
        if notification.is_allowed(self.notifications) {
            (ChatView { pending_notification: Some(notification), ..self }).redraw()
        } else {
            self
        }
    }
}

impl ChatWidget {
    pub(super) fn notify(&mut self, notification: Notification)
        ensures
            final(self)@ == old(self)@.notify(notification.deep_view()),
            final(self)@.ids == old(self)@.ids,
    {
        proof {
            reveal(ChatView::notify);
            reveal(ChatView::emit);
        }
        if notification.allowed_for(self.get_notifications()) {
            self.put_pending_notification(Some(notification));
            self.request_redraw();
        }
    }

    /// The notification that is due, which is handed out once.
    pub fn take_notification(&mut self) -> (r: Option<Notification>)
        ensures
            r.deep_view() == old(self)@.pending_notification,
            final(self)@ == (ChatView { pending_notification: None, ..old(self)@ }),
    {
        self.take_pending_notification()
    }
}

// ---------------------------------------------------------------------------
// The answer
// ---------------------------------------------------------------------------

impl ChatView {
    /// With more of an answer shown.
    #[verifier::opaque]
    pub open spec fn stream(self, delta: Seq<char>) -> ChatView {
        (ChatView { streaming: true, ..self }).emit(EffectView::StreamDelta(delta))
    }

    /// With the answer closed that is being shown.
    #[verifier::opaque]
    pub open spec fn finish_stream(self) -> ChatView {
        if self.streaming {
            (ChatView { streaming: false, ..self }).emit(EffectView::FinishStream)
        } else {
            self
        }
    }
}

impl ChatWidget {
    pub(super) fn handle_streaming_delta(&mut self, delta: &str)
        ensures
            final(self)@ == old(self)@.stream(delta@),
            final(self)@.ids == old(self)@.ids,
    {
        proof {
            reveal(ChatView::stream);
            reveal(ChatView::emit);
        }
        self.put_streaming(true);
        self.emit(Effect::StreamDelta(delta.to_owned()));
    }

    pub(super) fn flush_answer_stream_with_separator(&mut self)
        ensures
            final(self)@ == old(self)@.finish_stream(),
            final(self)@.ids == old(self)@.ids,
    {
        proof {
            reveal(ChatView::finish_stream);
            reveal(ChatView::emit);
        }
        if self.get_streaming() {
            self.put_streaming(false);
            self.emit(Effect::FinishStream);
        }
    }
}

// ---------------------------------------------------------------------------
// Commands that run
// ---------------------------------------------------------------------------

/// The ids, with one more.
pub open spec fn with_id(ids: Seq<Seq<char>>, id: Seq<char>) -> Seq<Seq<char>> {
    if relay::holds_id(ids, id) {
        ids
    } else {
        ids.push(id)
    }
}

/// Whether a command only waits for one that runs already.
pub open spec fn only_waits(begin: ExecBeginView) -> bool {
    begin.interaction && (begin.input matches Some(input) ==> input.len() == 0)
}

impl ChatView {
    /// With a command that runs.
    #[verifier::opaque]
    pub open spec fn with_command(self, call_id: Seq<char>, command: RunningCommand) -> ChatView {
        ChatView {
            running_commands: table::with(self.running_commands, call_id, command),
            ..self
        }
    }

    /// Without a command that ran.
    #[verifier::opaque]
    pub open spec fn without_command(self, call_id: Seq<char>) -> ChatView {
        ChatView { running_commands: table::without(self.running_commands, call_id), ..self }
    }

    /// With the command that is waited for.
    #[verifier::opaque]
    pub open spec fn with_wait(self, command: Option<Seq<char>>) -> ChatView {
        ChatView { last_unified_wait: command, ..self }
    }

    /// With a call that is not shown.
    #[verifier::opaque]
    pub open spec fn suppress(self, call_id: Seq<char>) -> ChatView {
        ChatView { suppressed_exec_calls: with_id(self.suppressed_exec_calls, call_id), ..self }
    }

    /// Without a call that was not shown.
    #[verifier::opaque]
    pub open spec fn forget_suppressed(self, call_id: Seq<char>) -> ChatView {
        ChatView {
            suppressed_exec_calls: replies::without_id(self.suppressed_exec_calls, call_id),
            ..self
        }
    }

    /// After a command began. To wait again for the same command is not shown.
    #[verifier::opaque]
    pub open spec fn begin_command(self, begin: ExecBeginView) -> ChatView {
        let command = text::joined(begin.command, " "@);
        let running = self.with_command(
            begin.call_id,
            RunningCommand { event: begin.event, interaction: begin.interaction },
        );
        let noted = running.with_wait(
            if only_waits(begin) {
                Some(command)
            } else {
                None
            },
        );
        if only_waits(begin) && self.last_unified_wait == Some(command) {
            noted.suppress(begin.call_id)
        } else {
            noted.emit(EffectView::ExecBegin(begin.event)).redraw()
        }
    }

    /// After a command has ended. Of one that speaks to another command the
    /// output is not shown.
    #[verifier::opaque]
    pub open spec fn end_command(
        self,
        event: u64,
        call_id: Seq<char>,
        interaction: bool,
    ) -> ChatView {
        let running = table::value_at(self.running_commands, call_id);
        let ended = self.without_command(call_id);
        if relay::holds_id(self.suppressed_exec_calls, call_id) {
            ended.forget_suppressed(call_id)
        } else {
            ended.emit(
                EffectView::ExecEnd {
                    event,
                    started: match running {
                        Some(running) => Some(running.event),
                        None => None,
                    },
                    keep_output: match running {
                        Some(running) => !running.interaction,
                        None => !interaction,
                    },
                },
            ).emit(EffectView::MarkWork)
        }
    }
}

impl ChatWidget {
    fn add_command(&mut self, call_id: &str, command: RunningCommand)
        ensures
            final(self)@ == old(self)@.with_command(call_id@, command),
            final(self)@.ids == old(self)@.ids,
    {
        proof {
            reveal(ChatView::with_command);
        }
        let mut running = self.take_running_commands();
        running.put(call_id, command);
        self.put_running_commands(running);
    }

    fn remove_command(&mut self, call_id: &str) -> (r: Option<RunningCommand>)
        ensures
            r == table::value_at(old(self)@.running_commands, call_id@),
            final(self)@ == old(self)@.without_command(call_id@),
            final(self)@.ids == old(self)@.ids,
    {
        proof {
            reveal(ChatView::without_command);
        }
        let mut running = self.take_running_commands();
        let r = running.take(call_id);
        self.put_running_commands(running);
        r
    }

    fn set_wait(&mut self, command: Option<String>)
        ensures
            final(self)@ == old(self)@.with_wait(command.deep_view()),
            final(self)@.ids == old(self)@.ids,
    {
        proof {
            reveal(ChatView::with_wait);
        }
        self.put_last_unified_wait(command);
    }

    fn suppress(&mut self, call_id: &str)
        ensures
            final(self)@ == old(self)@.suppress(call_id@),
            final(self)@.ids == old(self)@.ids,
    {
        proof {
            reveal(ChatView::suppress);
        }
        let mut calls = self.take_suppressed_exec_calls();
        let ghost before = text::views(calls@);
        if !relay::contains_id(&calls, call_id) {
            calls.push(call_id.to_owned());
            proof {
                assert(text::views(calls@) =~= before.push(call_id@));
            }
        }
        self.put_suppressed_exec_calls(calls);
    }

    fn forget_suppressed(&mut self, call_id: &str)
        ensures
            final(self)@ == old(self)@.forget_suppressed(call_id@),
            final(self)@.ids == old(self)@.ids,
    {
        proof {
            reveal(ChatView::forget_suppressed);
        }
        let calls = replies::drop_id(self.get_suppressed_exec_calls(), call_id);
        self.put_suppressed_exec_calls(calls);
    }

    fn handle_exec_begin_now(&mut self, begin: &ExecBegin)
        ensures
            final(self)@ == old(self)@.begin_command(begin.deep_view()),
            final(self)@.ids == old(self)@.ids,
    {
        proof {
            reveal(ChatView::begin_command);
        }
        let silent = match &begin.input {
            Some(input) => input.as_str().is_empty(),
            None => true,
        };
        let waits = begin.interaction && silent;
        let command = text::join(&begin.command, " ");
        let again = waits && (match self.get_last_unified_wait() {
            Some(last) => text::same(last.as_str(), command.as_str()),
            None => false,
        });
        self.add_command(
            begin.call_id.as_str(),
            RunningCommand { event: begin.event, interaction: begin.interaction },
        );
        self.set_wait(
            if waits {
                Some(command)
            } else {
                None
            },
        );
        if again {
            self.suppress(begin.call_id.as_str());
        } else {
            self.emit_two(Effect::ExecBegin(begin.event), Effect::Redraw);
        }
    }

    fn handle_exec_end_now(&mut self, event: u64, call_id: &str, interaction: bool)
        ensures
            final(self)@ == old(self)@.end_command(event, call_id@, interaction),
            final(self)@.ids == old(self)@.ids,
    {
        proof {
            reveal(ChatView::end_command);
        }
        let suppressed = relay::contains_id(self.get_suppressed_exec_calls(), call_id);
        let running = self.remove_command(call_id);
        if suppressed {
            self.forget_suppressed(call_id);
            return;
        }
        let (started, keep_output) = match running {
            Some(running) => (Some(running.event), !running.interaction),
            None => (None, !interaction),
        };
        self.emit_two(Effect::ExecEnd { event, started, keep_output }, Effect::MarkWork);
    }
}

// ---------------------------------------------------------------------------
// Events that wait
// ---------------------------------------------------------------------------

/// A command as one line that a shell splits into its words again.
pub open spec fn command_line(words: Seq<Seq<char>>) -> Seq<char> {
    match outside::shell_line(words) {
        Some(line) => line,
        None => text::joined(words, " "@),
    }
}

impl ChatView {
    /// After the user was asked about a request.
    #[verifier::opaque]
    pub open spec fn ask(self, request: u64) -> ChatView {
        self.emit(EffectView::AskApproval(request)).redraw()
    }

    /// After an event that can wait was taken.
    #[verifier::opaque]
    pub open spec fn handle_event(self, event: InterruptView) -> ChatView {
        match event {
            InterruptView::ExecApproval { request, command } => self.finish_stream().notify(
                NotificationView::ExecApprovalRequested { command: command_line(command) },
            ).ask(request),
            InterruptView::PatchApproval { request, cwd, changes } => self.finish_stream().ask(
                request,
            ).notify(NotificationView::EditApprovalRequested { cwd, changes }),
            InterruptView::Elicitation { request, server_name } => self.finish_stream().notify(
                NotificationView::ElicitationRequested { server_name },
            ).ask(request),
            InterruptView::ExecBegin(begin) => self.begin_command(begin),
            InterruptView::ExecEnd { event, call_id, interaction } => self.end_command(
                event,
                call_id,
                interaction,
            ),
            InterruptView::ToolBegin { event } => self.finish_stream().emit(
                EffectView::ToolBegin(event),
            ).redraw(),
            InterruptView::ToolEnd { event } => self.finish_stream().emit(
                EffectView::ToolEnd(event),
            ).emit(EffectView::MarkWork),
            InterruptView::PatchEnd { success, stderr } => if success {
                self.emit(EffectView::MarkWork)
            } else {
                self.history(HistoryView::PatchFailure(stderr)).emit(EffectView::MarkWork)
            },
        }
    }

    /// After events that waited were taken, in their order.
    pub open spec fn handle_events(self, events: Seq<InterruptView>) -> ChatView
        decreases events.len(),
    {
        if events.len() == 0 {
            self
        } else {
            self.handle_events(events.drop_last()).handle_event(events.last())
        }
    }

    /// With no event that waits.
    #[verifier::opaque]
    pub open spec fn without_waiting(self) -> ChatView {
        ChatView { interrupts: seq![], ..self }
    }

    /// After all events that wait were taken.
    pub open spec fn flush_events(self) -> ChatView {
        self.without_waiting().handle_events(self.interrupts)
    }

    /// With one more event that waits.
    #[verifier::opaque]
    pub open spec fn defer(self, event: InterruptView) -> ChatView {
        ChatView { interrupts: self.interrupts.push(event), ..self }
    }

    /// After an event that can wait came in: it is taken now, unless an answer is
    /// being shown or others wait before it.
    pub open spec fn defer_or_handle(self, event: InterruptView) -> ChatView {
        if self.streaming || self.interrupts.len() > 0 {
            self.defer(event)
        } else {
            self.handle_event(event)
        }
    }

    /// With the status hidden if the turn has ended.
    #[verifier::opaque]
    pub open spec fn hide_status_if_done(self) -> ChatView {
        if self.task_complete_pending {
            (ChatView { task_complete_pending: false, ..self }).emit(EffectView::HideStatus)
        } else {
            self
        }
    }

    /// After an answer was shown: what waited for it is taken.
    pub open spec fn stream_finished(self) -> ChatView {
        self.hide_status_if_done().flush_events()
    }
}

impl ChatWidget {
    fn ask(&mut self, request: u64)
        ensures
            final(self)@ == old(self)@.ask(request),
            final(self)@.ids == old(self)@.ids,
    {
        proof {
            reveal(ChatView::ask);
            reveal(ChatView::emit);
        }
        self.emit(Effect::AskApproval(request));
        self.request_redraw();
    }

    pub(super) fn emit_two(&mut self, first: Effect, second: Effect)
        ensures
            final(self)@ == old(self)@.emit(first.deep_view()).emit(second.deep_view()),
            final(self)@.ids == old(self)@.ids,
    {
        proof {
            reveal(ChatView::emit);
        }
        self.emit(first);
        self.emit(second);
    }

    fn handle_event(&mut self, event: &InterruptEvent)
        ensures
            final(self)@ == old(self)@.handle_event(event.deep_view()),
            final(self)@.ids == old(self)@.ids,
    {
        proof {
            reveal(ChatView::handle_event);
        }
        match event {
            InterruptEvent::ExecApproval { request, command } => {
                self.flush_answer_stream_with_separator();
                let line = match outside::shell_join(command) {
                    Some(line) => line,
                    None => text::join(command, " "),
                };
                self.notify(Notification::ExecApprovalRequested { command: line });
                self.ask(*request);
            },
            InterruptEvent::PatchApproval { request, cwd, changes } => {
                self.flush_answer_stream_with_separator();
                self.ask(*request);
                self.notify(
                    Notification::EditApprovalRequested {
                        cwd: cwd.clone(),
                        changes: text::copy_list(changes),
                    },
                );
            },
            InterruptEvent::Elicitation { request, server_name } => {
                self.flush_answer_stream_with_separator();
                self.notify(
                    Notification::ElicitationRequested { server_name: server_name.clone() },
                );
                self.ask(*request);
            },
            InterruptEvent::ExecBegin(begin) => self.handle_exec_begin_now(begin),
            InterruptEvent::ExecEnd { event, call_id, interaction } => self.handle_exec_end_now(
                *event,
                call_id.as_str(),
                *interaction,
            ),
            InterruptEvent::ToolBegin { event } => {
                self.flush_answer_stream_with_separator();
                self.emit_two(Effect::ToolBegin(*event), Effect::Redraw);
            },
            InterruptEvent::ToolEnd { event } => {
                self.flush_answer_stream_with_separator();
                self.emit_two(Effect::ToolEnd(*event), Effect::MarkWork);
            },
            InterruptEvent::PatchEnd { success, stderr } => {
                if *success {
                    proof {
                        reveal(ChatView::emit);
                    }
                    self.emit(Effect::MarkWork);
                } else {
                    self.emit_two(
                        Effect::History(HistoryItem::PatchFailure(stderr.clone())),
                        Effect::MarkWork,
                    );
                }
            },
        }
    }

    fn handle_events(&mut self, events: &Vec<InterruptEvent>)
        ensures
            final(self)@ == old(self)@.handle_events(events.deep_view()),
            final(self)@.ids == old(self)@.ids,
    {
        let ghost all = events.deep_view();
        let ghost start = self@;
        proof {
            assert(all.take(0) =~= Seq::<InterruptView>::empty());
        }
        for i in 0..events.len()
            invariant
                all == events.deep_view(),
                self@ == start.handle_events(all.take(i as int)),
                self@.ids == start.ids,
        {
            proof {
                assert(all.take(i + 1).drop_last() =~= all.take(i as int));
                assert(all.take(i + 1).last() == events@[i as int].deep_view());
            }
            self.handle_event(&events[i]);
        }
        proof {
            assert(all.take(all.len() as int) =~= all);
        }
    }

    fn take_waiting(&mut self) -> (r: Vec<InterruptEvent>)
        ensures
            r.deep_view() == old(self)@.interrupts,
            final(self)@ == old(self)@.without_waiting(),
            final(self)@.ids == old(self)@.ids,
    {
        proof {
            reveal(ChatView::without_waiting);
        }
        self.take_interrupts()
    }

    pub(super) fn flush_interrupt_queue(&mut self)
        ensures
            final(self)@ == old(self)@.flush_events(),
            final(self)@.ids == old(self)@.ids,
    {
        let events = self.take_waiting();
        self.handle_events(&events);
    }

    pub(super) fn defer_or_handle(&mut self, event: InterruptEvent)
        ensures
            final(self)@ == old(self)@.defer_or_handle(event.deep_view()),
            final(self)@.ids == old(self)@.ids,
    {
        if self.get_streaming() || self.get_interrupts().len() > 0 {
            proof {
                reveal(ChatView::defer);
            }
            let mut events = self.take_interrupts();
            let ghost before = events.deep_view();
            let ghost view = event.deep_view();
            events.push(event);
            proof {
                assert(events.deep_view() =~= before.push(view));
            }
            self.put_interrupts(events);
        } else {
            self.handle_event(&event);
        }
    }

    fn hide_status_if_done(&mut self)
        ensures
            final(self)@ == old(self)@.hide_status_if_done(),
            final(self)@.ids == old(self)@.ids,
    {
        proof {
            reveal(ChatView::hide_status_if_done);
            reveal(ChatView::emit);
        }
        if self.get_task_complete_pending() {
            self.put_task_complete_pending(false);
            self.emit(Effect::HideStatus);
        }
    }

    pub(super) fn handle_stream_finished(&mut self)
        ensures
            final(self)@ == old(self)@.stream_finished(),
            final(self)@.ids == old(self)@.ids,
    {
        self.hide_status_if_done();
        self.flush_interrupt_queue();
    }
}

// ---------------------------------------------------------------------------
// Laws
impl ChatView {
    /// After a moment in which more of the answer could be shown: `cell` is what
    /// was ready, and `idle` tells whether nothing is left.
    #[verifier::opaque]
    pub open spec fn tick(self, cell: Option<u64>, idle: bool) -> ChatView {
        if !self.streaming {
            self
        } else {
            let shown = match cell {
                Some(cell) => self.emit(EffectView::HideStatus).history(
                    HistoryView::Prepared(cell),
                ).redraw(),
                None => self,
            };
            if idle {
                shown.emit(EffectView::StopAnimation)
            } else {
                shown
            }
        }
    }
}

impl ChatWidget {
    /// Takes in that more of the answer could be shown.
    pub fn on_commit_tick(&mut self, cell: Option<u64>, idle: bool)
        ensures
            final(self)@ == old(self)@.tick(cell, idle),
    {
        proof {
            reveal(ChatView::tick);
        }
        if !self.get_streaming() {
            return;
        }
        if let Some(cell) = cell {
            self.emit(Effect::HideStatus);
            self.add_to_history(HistoryItem::Prepared(cell));
            self.request_redraw();
        }
        if idle {
            self.emit(Effect::StopAnimation);
        }
    }
}

// ---------------------------------------------------------------------------

/// Events that wait are taken in the order in which they came in: those of
/// `first`, and then those of `second`.
pub proof fn law_events_are_taken_in_their_order(
    a: ChatView,
    first: Seq<InterruptView>,
    second: Seq<InterruptView>,
)
    ensures
        a.handle_events(first + second) == a.handle_events(first).handle_events(second),
    decreases second.len(),
{
    if second.len() == 0 {
        assert(first + second =~= first);
    } else {
        assert((first + second).drop_last() =~= first + second.drop_last());
        law_events_are_taken_in_their_order(a, first, second.drop_last());
    }
}

/// While others wait, an event waits behind them.
pub proof fn law_nothing_overtakes_what_waits(a: ChatView, event: InterruptView)
    requires
        a.interrupts.len() > 0 || a.streaming,
    ensures
        a.defer_or_handle(event).interrupts == a.interrupts.push(event),
        a.defer_or_handle(event).outbox == a.outbox,
{
    reveal(ChatView::defer);
}

/// A command that ended does not run any more, and the others do as before. No call
/// is there twice, whichever begin and end.
pub proof fn law_a_command_that_ended_does_not_run(
    a: ChatView,
    call_id: Seq<char>,
    command: RunningCommand,
    other: Seq<char>,
)
    requires
        table::keys_differ(a.running_commands),
    ensures
        table::value_at(a.without_command(call_id).running_commands, call_id) is None,
        other != call_id ==> table::value_at(a.without_command(call_id).running_commands, other)
            == table::value_at(a.running_commands, other),
        table::keys_differ(a.without_command(call_id).running_commands),
        table::keys_differ(a.with_command(call_id, command).running_commands),
{
    reveal(ChatView::without_command);
    reveal(ChatView::with_command);
    table::law_without(a.running_commands, call_id, other);
    table::law_without_keeps_keys_different(a.running_commands, call_id);
    table::law_with_keeps_keys_different(a.running_commands, call_id, command);
}

/// A call that is not shown is kept once, until it is forgotten.
pub proof fn law_a_call_is_left_out_once(a: ChatView, call_id: Seq<char>)
    requires
        relay::ids_differ(a.suppressed_exec_calls),
    ensures
        relay::ids_differ(a.suppress(call_id).suppressed_exec_calls),
        relay::holds_id(a.suppress(call_id).suppressed_exec_calls, call_id),
        relay::ids_differ(a.forget_suppressed(call_id).suppressed_exec_calls),
        !relay::holds_id(a.forget_suppressed(call_id).suppressed_exec_calls, call_id),
{
    reveal(ChatView::suppress);
    reveal(ChatView::forget_suppressed);
    let ids = a.suppressed_exec_calls;
    replies::law_an_id_can_be_taken_out(ids, call_id);
    if !relay::holds_id(ids, call_id) {
        assert(with_id(ids, call_id)[ids.len() as int] == call_id);
    }
}

/// A notification is shown if the settings are for all of them, or name its kind: one kind
/// for the end of a turn, one for everything that waits for the user.
pub proof fn law_notifications_go_by_their_kind(
    chat: ChatView,
    notification: NotificationView,
    kinds: Seq<Seq<char>>,
    i: int,
)
    ensures
        notification.is_allowed(NotificationSettingsView::Enabled(true)),
        !notification.is_allowed(NotificationSettingsView::Enabled(false)),
        notification is AgentTurnComplete && 0 <= i < kinds.len() && kinds[i]
            == "agent-turn-complete"@ ==> notification.is_allowed(
            NotificationSettingsView::Custom(kinds),
        ),
        !(notification is AgentTurnComplete) && 0 <= i < kinds.len() && kinds[i]
            == "approval-requested"@ ==> notification.is_allowed(
            NotificationSettingsView::Custom(kinds),
        ),
        notification is AgentTurnComplete && (forall|j: int|
            0 <= j < kinds.len() ==> #[trigger] kinds[j] != "agent-turn-complete"@)
            ==> !notification.is_allowed(NotificationSettingsView::Custom(kinds)),
        !(notification is AgentTurnComplete) && (forall|j: int|
            0 <= j < kinds.len() ==> #[trigger] kinds[j] != "approval-requested"@)
            ==> !notification.is_allowed(NotificationSettingsView::Custom(kinds)),
        notification.is_allowed(chat.notifications) ==> chat.notify(
            notification,
        ).pending_notification == Some(notification),
        !notification.is_allowed(chat.notifications) ==> chat.notify(notification) == chat,
{
    reveal(ChatView::notify);
    reveal(ChatView::emit);
    if 0 <= i < kinds.len() {
        assert(relay::holds_id(kinds, kinds[i]));
    }
}

/// The end of a command is shown with its beginning, and counts as work; its output is
/// kept unless it only spoke to another command.
pub proof fn law_an_end_finds_its_beginning(
    chat: ChatView,
    begin: ExecBeginView,
    event: u64,
    interaction: bool,
)
    requires
        !begin.interaction,
        !relay::holds_id(chat.suppressed_exec_calls, begin.call_id),
    ensures
        ({
            let begun = chat.begin_command(begin);
            let ended = begun.end_command(event, begin.call_id, interaction);
            &&& begun.outbox.len() > chat.outbox.len()
            &&& begun.outbox[chat.outbox.len() as int] == EffectView::ExecBegin(begin.event)
            &&& begun.last_unified_wait is None
            &&& ended.outbox == begun.outbox + seq![
                EffectView::ExecEnd { event, started: Some(begin.event), keep_output: true },
                EffectView::MarkWork,
            ]
        }),
{
    reveal(ChatView::begin_command);
    reveal(ChatView::end_command);
    reveal(ChatView::with_command);
    reveal(ChatView::without_command);
    reveal(ChatView::with_wait);
    reveal(ChatView::suppress);
    reveal(ChatView::emit);
    table::law_with(
        chat.running_commands,
        begin.call_id,
        RunningCommand { event: begin.event, interaction: begin.interaction },
        begin.call_id,
    );
}

/// To wait for the same command again is not shown, neither its beginning nor its end.
pub proof fn law_a_repeated_wait_is_not_shown(
    chat: ChatView,
    begin: ExecBeginView,
    event: u64,
)
    requires
        begin.interaction,
        begin.input is None,
        chat.last_unified_wait == Some(text::joined(begin.command, " "@)),
    ensures
        chat.begin_command(begin).outbox == chat.outbox,
        chat.begin_command(begin).end_command(event, begin.call_id, true).outbox == chat.outbox,
{
    reveal(ChatView::begin_command);
    reveal(ChatView::end_command);
    reveal(ChatView::with_command);
    reveal(ChatView::without_command);
    reveal(ChatView::with_wait);
    reveal(ChatView::suppress);
    reveal(ChatView::forget_suppressed);
    reveal(ChatView::emit);
    let ids = chat.suppressed_exec_calls;
    if !relay::holds_id(ids, begin.call_id) {
        assert(with_id(ids, begin.call_id)[ids.len() as int] == begin.call_id);
    }
}

/// The user is asked for every approval, and what was being said is finished first.
pub proof fn law_every_approval_is_asked_for(
    chat: ChatView,
    request: u64,
    command: Seq<Seq<char>>,
    name: Seq<char>,
    changes: Seq<Seq<char>>,
)
    ensures
        ({
            let exec = chat.handle_event(InterruptView::ExecApproval { request, command });
            let patch = chat.handle_event(
                InterruptView::PatchApproval { request, cwd: name, changes },
            );
            let other = chat.handle_event(
                InterruptView::Elicitation { request, server_name: name },
            );
            &&& !exec.streaming && !patch.streaming && !other.streaming
            &&& exec.outbox.contains(EffectView::AskApproval(request))
            &&& patch.outbox.contains(EffectView::AskApproval(request))
            &&& other.outbox.contains(EffectView::AskApproval(request))
            &&& chat.streaming ==> exec.outbox[chat.outbox.len() as int]
                == EffectView::FinishStream && patch.outbox[chat.outbox.len() as int]
                == EffectView::FinishStream && other.outbox[chat.outbox.len() as int]
                == EffectView::FinishStream
        }),
{
    reveal(ChatView::handle_event);
    reveal(ChatView::finish_stream);
    reveal(ChatView::notify);
    reveal(ChatView::ask);
    reveal(ChatView::emit);
    let exec = chat.handle_event(InterruptView::ExecApproval { request, command });
    let patch = chat.handle_event(InterruptView::PatchApproval { request, cwd: name, changes });
    let other = chat.handle_event(InterruptView::Elicitation { request, server_name: name });
    let n = chat.outbox.len() as int;
    let m = if chat.streaming {
        n + 1
    } else {
        n
    };
    assert(patch.outbox[m] == EffectView::AskApproval(request));
    let k = exec.outbox.len() as int;
    assert(exec.outbox[k - 2] == EffectView::AskApproval(request));
    let k = other.outbox.len() as int;
    assert(other.outbox[k - 2] == EffectView::AskApproval(request));
}

/// What the model says is shown piece by piece, and finished once.
pub proof fn law_an_answer_is_streamed(chat: ChatView, delta: Seq<char>)
    ensures
        chat.stream(delta).streaming,
        chat.stream(delta).outbox == chat.outbox.push(EffectView::StreamDelta(delta)),
        chat.stream(delta).finish_stream().outbox == chat.stream(delta).outbox.push(
            EffectView::FinishStream,
        ),
        !chat.stream(delta).finish_stream().streaming,
        chat.stream(delta).finish_stream().finish_stream() == chat.stream(delta).finish_stream(),
{
    reveal(ChatView::stream);
    reveal(ChatView::finish_stream);
    reveal(ChatView::emit);
}

/// While an answer is streamed, each piece that is ready is shown; the animation stops once
/// nothing is left. Otherwise nothing happens.
pub proof fn law_ready_pieces_are_shown(chat: ChatView, cell: u64, idle: bool)
    ensures
        !chat.streaming ==> chat.tick(Some(cell), idle) == chat && chat.tick(None, idle) == chat,
        chat.streaming ==> chat.tick(None, false) == chat,
        chat.streaming ==> chat.tick(None, true).outbox == chat.outbox.push(
            EffectView::StopAnimation,
        ),
        chat.streaming ==> chat.tick(Some(cell), idle).outbox[chat.outbox.len() as int + 1]
            == EffectView::History(HistoryView::Prepared(cell)),
        chat.streaming ==> (chat.tick(Some(cell), idle).outbox.last() == EffectView::StopAnimation
            <==> idle),
{
    reveal(ChatView::tick);
    reveal(ChatView::emit);
}

} // verus!

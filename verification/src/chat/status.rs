//! The status line, the reasoning of the model, servers that start, and reviews.

use vstd::prelude::*;

use crate::chat::state::{ChatView, ChatWidget};
use crate::chat::types::{
    Effect, EffectView, HistoryItem, HistoryView, LimitsDisplay, LimitsReport, McpStartupStatus,
    RateLimitSwitchPromptState, ReviewOutput, TokenInfo,
};
use crate::limits;
use crate::limits::LimitUse;
use crate::mentions::Skill;
use crate::table;
use crate::table::Table;
use crate::text;

verus! {

// ---------------------------------------------------------------------------
// The status line
// ---------------------------------------------------------------------------

impl ChatView {
    /// With this in the status line.
    #[verifier::opaque]
    pub open spec fn set_status(self, header: Seq<char>, details: Option<Seq<char>>) -> ChatView {
        (ChatView { current_status_header: header, ..self }).emit(
            EffectView::SetStatus { header, details },
        )
    }

    /// With the status line as it was before a connection failed.
    #[verifier::opaque]
    pub open spec fn restore_status(self) -> ChatView {
        match self.retry_status_header {
            Some(header) => (ChatView { retry_status_header: None, ..self }).set_status(
                header,
                None,
            ),
            None => self,
        }
    }

    /// After a connection failed; the status line is kept for later.
    #[verifier::opaque]
    pub open spec fn stream_failed(self, message: Seq<char>, details: Option<Seq<char>>) -> ChatView {
        let kept = match self.retry_status_header {
            Some(_) => self,
            None => ChatView { retry_status_header: Some(self.current_status_header), ..self },
        };
        kept.set_status(message, details)
    }

    /// With something at work in the background.
    #[verifier::opaque]
    pub open spec fn show_work(self, header: Seq<char>, can_interrupt: bool) -> ChatView {
        self.emit(EffectView::EnsureStatus).emit(
            EffectView::InterruptHint(can_interrupt),
        ).set_status(header, None)
    }

    /// After an undo has ended.
    #[verifier::opaque]
    pub open spec fn undo_completed(self, success: bool, message: Option<Seq<char>>) -> ChatView {
        let hidden = self.emit(EffectView::HideStatus);
        let message = match message {
            Some(message) => message,
            None => if success {
                "Undo completed successfully."@
            } else {
                "Undo failed."@
            },
        };
        if success {
            hidden.info(message).redraw()
        } else {
            hidden.error(message).redraw()
        }
    }

    /// With a warning in the transcript.
    #[verifier::opaque]
    pub open spec fn warn(self, message: Seq<char>) -> ChatView {
        self.history(HistoryView::Warning(message)).redraw()
    }
}

impl ChatWidget {
    pub(super) fn set_status(&mut self, header: &str, details: Option<String>)
        ensures
            final(self)@ == old(self)@.set_status(header@, details.deep_view()),
            final(self)@.ids == old(self)@.ids,
    {
        proof {
            reveal(ChatView::set_status);
            reveal(ChatView::emit);
        }
        self.put_current_status_header(header.to_owned());
        self.emit(Effect::SetStatus { header: header.to_owned(), details });
    }

    pub(super) fn set_status_header(&mut self, header: &str)
        ensures
            final(self)@ == old(self)@.set_status(header@, None),
            final(self)@.ids == old(self)@.ids,
    {
        self.set_status(header, None);
    }

    pub(super) fn restore_retry_status_header_if_present(&mut self)
        ensures
            final(self)@ == old(self)@.restore_status(),
            final(self)@.ids == old(self)@.ids,
    {
        proof {
            reveal(ChatView::restore_status);
        }
        let header = match self.get_retry_status_header() {
            Some(header) => header.clone(),
            None => return,
        };
        self.put_retry_status_header(None);
        self.set_status_header(header.as_str());
    }

    pub(super) fn on_stream_error(&mut self, message: &str, details: &Option<String>)
        ensures
            final(self)@ == old(self)@.stream_failed(message@, details.deep_view()),
            final(self)@.ids == old(self)@.ids,
    {
        proof {
            reveal(ChatView::stream_failed);
        }
        if self.get_retry_status_header().is_none() {
            let header = self.get_current_status_header().to_owned();
            self.put_retry_status_header(Some(header));
        }
        self.set_status(message, text::copy_option(details));
    }

    pub(super) fn show_work(&mut self, header: &str, can_interrupt: bool)
        ensures
            final(self)@ == old(self)@.show_work(header@, can_interrupt),
            final(self)@.ids == old(self)@.ids,
    {
        proof {
            reveal(ChatView::show_work);
        }
        self.emit_two(Effect::EnsureStatus, Effect::InterruptHint(can_interrupt));
        self.set_status_header(header);
    }

    pub(super) fn on_undo_completed(&mut self, success: bool, message: &Option<String>)
        ensures
            final(self)@ == old(self)@.undo_completed(success, message.deep_view()),
            final(self)@.ids == old(self)@.ids,
    {
        proof {
            reveal(ChatView::undo_completed);
            reveal(ChatView::emit);
        }
        let message = match message {
            Some(message) => message.as_str(),
            None => if success {
                "Undo completed successfully."
            } else {
                "Undo failed."
            },
        };
        self.emit(Effect::HideStatus);
        if success {
            self.add_info(message);
        } else {
            self.add_error(message);
        }
        self.request_redraw();
    }

    pub(super) fn on_warning(&mut self, message: &str)
        ensures
            final(self)@ == old(self)@.warn(message@),
            final(self)@.ids == old(self)@.ids,
    {
        proof {
            reveal(ChatView::warn);
        }
        self.emit_two(
            Effect::History(HistoryItem::Warning(message.to_owned())),
            Effect::Redraw,
        );
    }
}

// ---------------------------------------------------------------------------
// Reasoning
// ---------------------------------------------------------------------------

/// Where two stars stand in a row, from `i` on; the length if nowhere.
pub open spec fn next_stars(s: Seq<char>, i: int) -> int
    decreases s.len() - i,
{
    if 0 <= i && i + 1 < s.len() {
        if s[i] == '*' && s[i + 1] == '*' {
            i
        } else {
            next_stars(s, i + 1)
        }
    } else {
        s.len() as int
    }
}

/// The first text between two pairs of stars, trimmed, unless it is blank.
pub open spec fn first_bold(s: Seq<char>) -> Option<Seq<char>> {
    let open = next_stars(s, 0);
    let close = next_stars(s, open + 2);
    if open < s.len() && close < s.len() {
        let inner = text::trimmed(s.subrange(open + 2, close));
        if inner.len() == 0 {
            None
        } else {
            Some(inner)
        }
    } else {
        None
    }
}

proof fn lemma_next_stars(s: Seq<char>, i: int)
    requires
        0 <= i <= s.len(),
    ensures
        i <= next_stars(s, i) <= s.len(),
        next_stars(s, i) < s.len() ==> next_stars(s, i) + 2 <= s.len(),
    decreases s.len() - i,
{
    if i + 1 < s.len() && !(s[i] == '*' && s[i + 1] == '*') {
        lemma_next_stars(s, i + 1);
    }
}

fn find_stars(chars: &Vec<char>, from: usize) -> (n: usize)
    requires
        from <= chars@.len(),
    ensures
        n == next_stars(chars@, from as int),
{
    let mut i: usize = from;
    while i < chars.len() && chars.len() - i > 1 && !(chars[i] == '*' && chars[i + 1] == '*')
        invariant
            from <= i <= chars@.len(),
            next_stars(chars@, from as int) == next_stars(chars@, i as int),
        decreases chars@.len() - i,
    {
        i = i + 1;
    }
    if i < chars.len() && chars.len() - i > 1 {
        i
    } else {
        chars.len()
    }
}

/// The first text between two pairs of stars, trimmed, unless it is blank.
pub fn extract_first_bold(s: &str) -> (r: Option<String>)
    ensures
        r.deep_view() == first_bold(s@),
{
    let chars = text::chars_of(s);
    let open = find_stars(&chars, 0);
    proof {
        lemma_next_stars(chars@, 0);
    }
    if open >= chars.len() {
        return None;
    }
    let close = find_stars(&chars, open + 2);
    proof {
        lemma_next_stars(chars@, open + 2);
    }
    if close >= chars.len() {
        return None;
    }
    let inner = text::text_between(&chars, open + 2, close);
    let trimmed = text::trim(inner.as_str());
    if trimmed.is_empty() {
        None
    } else {
        Some(trimmed.to_owned())
    }
}

impl ChatView {
    /// After more of the reasoning came in: its first bold text is shown as the
    /// status.
    #[verifier::opaque]
    pub open spec fn reason(self, delta: Seq<char>) -> ChatView {
        let longer = ChatView { reasoning_buffer: self.reasoning_buffer + delta, ..self };
        match first_bold(self.reasoning_buffer + delta) {
            Some(header) => longer.set_status(header, None).redraw(),
            None => longer.redraw(),
        }
    }

    /// With no reasoning kept.
    #[verifier::opaque]
    pub open spec fn clear_reasoning(self) -> ChatView {
        ChatView { reasoning_buffer: seq![], full_reasoning_buffer: seq![], ..self }
    }

    /// After the reasoning has ended: all of it goes into the transcript.
    #[verifier::opaque]
    pub open spec fn end_reasoning(self) -> ChatView {
        let all = self.full_reasoning_buffer + self.reasoning_buffer;
        let shown = if all.len() > 0 {
            self.history(HistoryView::Reasoning(all))
        } else {
            self
        };
        shown.clear_reasoning().redraw()
    }

    /// After a part of the reasoning has ended.
    #[verifier::opaque]
    pub open spec fn break_reasoning(self) -> ChatView {
        ChatView {
            full_reasoning_buffer: self.full_reasoning_buffer + self.reasoning_buffer + "\n\n"@,
            reasoning_buffer: seq![],
            ..self
        }
    }
}

impl ChatWidget {
    pub(super) fn on_agent_reasoning_delta(&mut self, delta: &str)
        ensures
            final(self)@ == old(self)@.reason(delta@),
            final(self)@.ids == old(self)@.ids,
    {
        proof {
            reveal(ChatView::reason);
            reveal(ChatView::emit);
        }
        let buffer = text::concat2(self.get_reasoning_buffer(), delta);
        let header = extract_first_bold(buffer.as_str());
        self.put_reasoning_buffer(buffer);
        match header {
            Some(header) => self.set_status_header(header.as_str()),
            None => {},
        }
        self.request_redraw();
    }

    pub(super) fn clear_reasoning(&mut self)
        ensures
            final(self)@ == old(self)@.clear_reasoning(),
            final(self)@.ids == old(self)@.ids,
    {
        proof {
            reveal(ChatView::clear_reasoning);
        }
        let _ = self.take_reasoning_buffer();
        let _ = self.take_full_reasoning_buffer();
    }

    pub(super) fn on_agent_reasoning_final(&mut self)
        ensures
            final(self)@ == old(self)@.end_reasoning(),
            final(self)@.ids == old(self)@.ids,
    {
        proof {
            reveal(ChatView::end_reasoning);
            reveal(ChatView::emit);
        }
        let all = text::concat2(self.get_full_reasoning_buffer(), self.get_reasoning_buffer());
        if !all.as_str().is_empty() {
            self.add_to_history(HistoryItem::Reasoning(all));
        }
        self.clear_reasoning();
        self.request_redraw();
    }

    pub(super) fn on_reasoning_section_break(&mut self)
        ensures
            final(self)@ == old(self)@.break_reasoning(),
            final(self)@.ids == old(self)@.ids,
    {
        proof {
            reveal(ChatView::break_reasoning);
        }
        let all = text::concat3(
            self.get_full_reasoning_buffer(),
            self.get_reasoning_buffer(),
            "\n\n",
        );
        self.put_full_reasoning_buffer(all);
        let _ = self.take_reasoning_buffer();
    }
}

// ---------------------------------------------------------------------------
// Servers that start
// ---------------------------------------------------------------------------

/// Servers, and how far the start of each is.
pub type ServersView = Seq<(Seq<char>, McpStartupStatus<Seq<char>>)>;

/// The servers that have not started yet.
pub open spec fn starting(servers: ServersView) -> Seq<Seq<char>>
    decreases servers.len(),
{
    if servers.len() == 0 {
        seq![]
    } else if servers.last().1 is Starting {
        starting(servers.drop_last()).push(servers.last().0)
    } else {
        starting(servers.drop_last())
    }
}

/// What the status line says while servers start: the first three of those that
/// have not started, in the order of their names.
pub open spec fn startup_header(servers: ServersView) -> Option<Seq<char>> {
    let names = text::sorted(starting(servers));
    if names.len() == 0 {
        None
    } else if servers.len() > 1 {
        Some(
            "Starting MCP servers ("@ + text::decimal((servers.len() - names.len()) as nat) + "/"@
                + text::decimal(servers.len()) + "): "@ + text::joined(
                if names.len() > 3 {
                    names.take(3).push("…"@)
                } else {
                    names
                },
                ", "@,
            ),
        )
    } else {
        Some("Booting MCP server: "@ + names[0])
    }
}

impl ChatView {
    /// The servers that start, or have.
    pub open spec fn servers(self) -> ServersView {
        match self.mcp_startup_status {
            Some(servers) => servers,
            None => seq![],
        }
    }

    /// With this known of the start of servers.
    #[verifier::opaque]
    pub open spec fn with_servers(self, servers: Option<ServersView>) -> ChatView {
        (ChatView { mcp_startup_status: servers, ..self }).sync_running()
    }

    /// After the start of a server went on.
    #[verifier::opaque]
    pub open spec fn server_updated(
        self,
        server: Seq<char>,
        status: McpStartupStatus<Seq<char>>,
    ) -> ChatView {
        let warned = match status {
            McpStartupStatus::Failed { error } => self.warn(error),
            _ => self,
        };
        let servers = table::with(self.servers(), server, status);
        let noted = warned.with_servers(Some(servers));
        match startup_header(servers) {
            Some(header) => noted.set_status(header, None).redraw(),
            None => noted.redraw(),
        }
    }

    /// With the user told which servers did not start.
    #[verifier::opaque]
    pub open spec fn tell_servers(
        self,
        failed: Seq<Seq<char>>,
        cancelled: Seq<Seq<char>>,
    ) -> ChatView {
        let first = if cancelled.len() > 0 {
            self.warn(
                "MCP startup interrupted. The following servers were not initialized: "@
                    + text::joined(cancelled, ", "@),
            )
        } else {
            self
        };
        if failed.len() > 0 {
            first.warn("MCP startup incomplete (failed: "@ + text::joined(failed, ", "@) + ")"@)
        } else {
            first
        }
    }
}

proof fn lemma_starting_len(servers: ServersView)
    ensures
        starting(servers).len() <= servers.len(),
    decreases servers.len(),
{
    if servers.len() > 0 {
        lemma_starting_len(servers.drop_last());
    }
}

fn find_starting(servers: &Table<McpStartupStatus>) -> (r: Vec<String>)
    ensures
        text::views(r@) == starting(servers.deep_view()),
{
    let mut r: Vec<String> = Vec::new();
    let ghost all = servers.deep_view();
    proof {
        assert(text::views(r@) =~= Seq::<Seq<char>>::empty());
        assert(all.take(0) =~= Seq::<(Seq<char>, McpStartupStatus<Seq<char>>)>::empty());
    }
    let n: usize = servers.len();
    for i in 0..n
        invariant
            n == all.len(),
            all == servers.deep_view(),
            text::views(r@) == starting(all.take(i as int)),
    {
        let ghost before = text::views(r@);
        proof {
            assert(all.take(i + 1).drop_last() =~= all.take(i as int));
            assert(all.take(i + 1).last() == all[i as int]);
        }
        if matches!(servers.value(i), McpStartupStatus::Starting) {
            r.push(servers.key(i).clone());
            proof {
                assert(text::views(r@) =~= before.push(all[i as int].0));
            }
        }
    }
    proof {
        assert(all.take(all.len() as int) =~= all);
    }
    r
}

fn describe_startup(servers: &Table<McpStartupStatus>) -> (r: Option<String>)
    ensures
        r.deep_view() == startup_header(servers.deep_view()),
{
    let waiting = find_starting(servers);
    let names = text::sort(&waiting);
    let ghost all = text::views(names@);
    proof {
        lemma_starting_len(servers.deep_view());
        text::lemma_sorted_len(text::views(waiting@));
        assert(all.len() == names@.len());
        assert(text::views(waiting@).len() == waiting@.len());
    }
    if names.len() == 0 {
        return None;
    }
    proof {
        assert(all[0] == names@[0]@);
    }
    if servers.len() <= 1 {
        return Some(text::concat2("Booting MCP server: ", names[0].as_str()));
    }
    let list = if names.len() > 3 {
        let mut first: Vec<String> = Vec::new();
        first.push(names[0].clone());
        first.push(names[1].clone());
        first.push(names[2].clone());
        first.push("…".to_owned());
        proof {
            assert(text::views(first@) =~= all.take(3).push("…"@));
        }
        text::join(&first, ", ")
    } else {
        text::join(&names, ", ")
    };
    let done = text::to_decimal((servers.len() - names.len()) as u64);
    let total = text::to_decimal(servers.len() as u64);
    let mut header = text::concat3("Starting MCP servers (", done.as_str(), "/");
    header.append(total.as_str());
    header.append("): ");
    header.append(list.as_str());
    Some(header)
}

impl ChatWidget {
    pub(super) fn set_servers(&mut self, servers: Option<Table<McpStartupStatus>>)
        ensures
            final(self)@ == old(self)@.with_servers(servers.deep_view()),
            final(self)@.ids == old(self)@.ids,
    {
        proof {
            reveal(ChatView::with_servers);
        }
        self.put_mcp_startup_status(servers);
        self.update_task_running_state();
    }

    fn known_servers(&self) -> (r: Table<McpStartupStatus>)
        ensures
            r.deep_view() == self@.servers(),
    {
        let mut r: Table<McpStartupStatus> = Table::new();
        match self.get_mcp_startup_status() {
            Some(servers) => {
                let ghost all = servers.deep_view();
                proof {
                    assert(all.take(0) =~= r.deep_view());
                }
                let n: usize = servers.len();
                for i in 0..n
                    invariant
                        n == all.len(),
                        all == servers.deep_view(),
                        table::keys_differ(all),
                        r.deep_view() == all.take(i as int),
                {
                    proof {
                        assert(all.take(i + 1) =~= all.take(i as int).push(all[i as int]));
                    }
                    r.add(servers.key(i).as_str(), servers.value(i).clone());
                }
                proof {
                    assert(all.take(all.len() as int) =~= all);
                }
            },
            None => {},
        }
        r
    }

    pub(super) fn on_mcp_startup_update(&mut self, server: &str, status: &McpStartupStatus)
        ensures
            final(self)@ == old(self)@.server_updated(server@, status.deep_view()),
            final(self)@.ids == old(self)@.ids,
    {
        proof {
            reveal(ChatView::server_updated);
        }
        let mut servers = self.known_servers();
        match status {
            McpStartupStatus::Failed { error } => self.on_warning(error.as_str()),
            _ => {},
        }
        servers.put(server, status.clone());
        let header = describe_startup(&servers);
        self.set_servers(Some(servers));
        match header {
            Some(header) => self.set_status_header(header.as_str()),
            None => {},
        }
        self.emit_one(Effect::Redraw);
    }

    pub(super) fn tell_servers(&mut self, failed: &Vec<String>, cancelled: &Vec<String>)
        ensures
            final(self)@ == old(self)@.tell_servers(text::views(failed@), text::views(cancelled@)),
            final(self)@.ids == old(self)@.ids,
    {
        proof {
            reveal(ChatView::tell_servers);
            assert(text::views(failed@).len() == failed@.len());
            assert(text::views(cancelled@).len() == cancelled@.len());
        }
        if cancelled.len() > 0 {
            let list = text::join(cancelled, ", ");
            let line = text::concat2(
                "MCP startup interrupted. The following servers were not initialized: ",
                list.as_str(),
            );
            self.on_warning(line.as_str());
        }
        if failed.len() > 0 {
            let list = text::join(failed, ", ");
            let line = text::concat3("MCP startup incomplete (failed: ", list.as_str(), ")");
            self.on_warning(line.as_str());
        }
    }
}

// ---------------------------------------------------------------------------
// The context, the limits and the skills
// ---------------------------------------------------------------------------

/// The model that is cheaper.
pub open spec fn nudge_model() -> Seq<char> {
    "gpt-5.1-codex-mini"@
}

/// Whether much of a limit is used.
pub open spec fn much_used(used: Option<LimitUse>) -> bool {
    used matches Some(used) && used.is_high()
}

/// What can be shown of the limits after a report: the credits are those that were
/// known before, where it says nothing of them.
pub open spec fn display_of(
    report: LimitsReport<Seq<char>>,
    before: Option<LimitsDisplay<Seq<char>>>,
) -> LimitsDisplay<Seq<char>> {
    LimitsDisplay {
        secondary: report.secondary,
        primary: report.primary,
        credits: limits::latest(
            match before {
                Some(before) => before.credits,
                None => None,
            },
            report.credits,
        ),
        captured_at: report.captured_at,
    }
}

/// What is shown of how full the context is: what is left of it, or else what is
/// in it.
pub open spec fn context_window(info: Option<TokenInfo>) -> EffectView {
    match info {
        Some(info) => EffectView::ContextWindow {
            percent: info.remaining_percent,
            used: if info.remaining_percent is Some {
                None
            } else {
                Some(info.used_tokens)
            },
        },
        None => EffectView::ContextWindow { percent: None, used: None },
    }
}

impl ChatView {
    /// With this known of how full the context is.
    #[verifier::opaque]
    pub open spec fn with_tokens(self, info: Option<TokenInfo>) -> ChatView {
        (ChatView { token_info: info, ..self }).emit(context_window(info))
    }

    /// Whether the user is to be asked to switch to the cheaper model.
    pub open spec fn suggests_switch(self, report: LimitsReport<Seq<char>>) -> bool {
        (much_used(report.secondary) || much_used(report.primary)) && !self.hide_rate_limit_nudge
            && self.model != Some(nudge_model()) && self.rate_limit_switch_prompt
            != RateLimitSwitchPromptState::Shown
    }

    /// With warnings in the transcript.
    pub open spec fn tell_warnings(self, warnings: Seq<Seq<char>>) -> ChatView
        decreases warnings.len(),
    {
        if warnings.len() == 0 {
            self
        } else {
            self.tell_warnings(warnings.drop_last()).history(HistoryView::Warning(warnings.last()))
        }
    }

    /// With this known of the limits, and the wish to ask the user to switch. What a
    /// report does not say of the credits and the plan is as it was.
    #[verifier::opaque]
    pub open spec fn with_limits(self, report: LimitsReport<Seq<char>>) -> ChatView {
        ChatView {
            rate_limit_snapshot: Some(display_of(report, self.rate_limit_snapshot)),
            plan_type: limits::latest(self.plan_type, report.plan_type),
            rate_limit_warnings: self.rate_limit_warnings.after(report.secondary, report.primary),
            rate_limit_switch_prompt: if self.suggests_switch(report) {
                RateLimitSwitchPromptState::Pending
            } else {
                self.rate_limit_switch_prompt
            },
            ..self
        }
    }

    /// After a report of how much of the limits is used.
    #[verifier::opaque]
    pub open spec fn limits_known(self, report: LimitsReport<Seq<char>>) -> ChatView {
        let warnings = self.rate_limit_warnings.warnings(report.secondary, report.primary);
        let told = self.with_limits(report).tell_warnings(warnings);
        if warnings.len() > 0 {
            told.redraw()
        } else {
            told
        }
    }

    /// After it was reported how much of the limits is used, or that this is not
    /// known.
    #[verifier::opaque]
    pub open spec fn limits_reported(self, report: Option<LimitsReport<Seq<char>>>) -> ChatView {
        match report {
            Some(report) => self.limits_known(report),
            None => ChatView { rate_limit_snapshot: None, ..self },
        }
    }

    /// With the user asked to switch to the cheaper model, if that is due.
    #[verifier::opaque]
    pub open spec fn ask_to_switch(self) -> ChatView {
        if self.hide_rate_limit_nudge {
            ChatView { rate_limit_switch_prompt: RateLimitSwitchPromptState::Idle, ..self }
        } else if self.rate_limit_switch_prompt == RateLimitSwitchPromptState::Pending {
            (ChatView {
                rate_limit_switch_prompt: RateLimitSwitchPromptState::Shown,
                ..self
            }).emit(EffectView::ShowRateLimitPrompt)
        } else {
            self
        }
    }

    /// After the user has said whether to be asked to switch.
    pub open spec fn hide_switch_prompt(self, hidden: bool) -> ChatView {
        ChatView {
            hide_rate_limit_nudge: hidden,
            rate_limit_switch_prompt: if hidden {
                RateLimitSwitchPromptState::Idle
            } else {
                self.rate_limit_switch_prompt
            },
            ..self
        }
    }

    /// With these skills known and shown.
    #[verifier::opaque]
    pub open spec fn with_skills(self, skills: Option<Seq<Skill<Seq<char>>>>) -> ChatView {
        (ChatView { skills, ..self }).emit(EffectView::Skills(skills))
    }
}

fn is_much_used(used: Option<LimitUse>) -> (r: bool)
    ensures
        r == much_used(used),
{
    match used {
        Some(used) => used.passed >= 2,
        None => false,
    }
}

/// The skills of a folder.
pub struct SkillsEntry {
    /// Whether it is the folder that the chat works in.
    pub is_cwd: bool,
    pub skills: Vec<Skill>,
}

/// The skills of the first folder that the chat works in.
pub open spec fn skills_here(entries: Seq<SkillsEntry>) -> Seq<Skill<Seq<char>>>
    decreases entries.len(),
{
    if entries.len() == 0 {
        seq![]
    } else if entries[0].is_cwd {
        entries[0].skills.deep_view()
    } else {
        skills_here(entries.subrange(1, entries.len() as int))
    }
}

proof fn lemma_skills_at(entries: Seq<SkillsEntry>, n: int)
    requires
        0 <= n <= entries.len(),
        forall|i: int| 0 <= i < n ==> !(#[trigger] entries[i]).is_cwd,
        n < entries.len() ==> entries[n].is_cwd,
    ensures
        skills_here(entries) == (if n < entries.len() {
            entries[n].skills.deep_view()
        } else {
            seq![]
        }),
    decreases entries.len(),
{
    if n > 0 {
        let rest = entries.subrange(1, entries.len() as int);
        assert forall|i: int| 0 <= i < n - 1 implies !(#[trigger] rest[i]).is_cwd by {
            assert(rest[i] == entries[i + 1]);
        }
        lemma_skills_at(rest, n - 1);
    }
}

/// The skills of the folder that the chat works in.
pub fn skills_for_cwd(entries: &Vec<SkillsEntry>) -> (r: Vec<Skill>)
    ensures
        r.deep_view() == skills_here(entries@),
{
    for i in 0..entries.len()
        invariant
            forall|j: int| 0 <= j < i ==> !(#[trigger] entries@[j]).is_cwd,
    {
        if entries[i].is_cwd {
            proof {
                lemma_skills_at(entries@, i as int);
            }
            return copy_skills(&entries[i].skills);
        }
    }
    proof {
        lemma_skills_at(entries@, entries@.len() as int);
    }
    let r: Vec<Skill> = Vec::new();
    proof {
        assert(r.deep_view() =~= seq![]);
    }
    r
}

fn copy_skills(skills: &Vec<Skill>) -> (r: Vec<Skill>)
    ensures
        r@ == skills@,
{
    let mut r: Vec<Skill> = Vec::new();
    for i in 0..skills.len()
        invariant
            r@ == skills@.take(i as int),
    {
        r.push(skills[i].clone());
        proof {
            assert(skills@.take(i + 1) =~= skills@.take(i as int).push(skills@[i as int]));
        }
    }
    proof {
        assert(skills@.take(skills@.len() as int) =~= skills@);
    }
    r
}

fn show_tokens(info: Option<TokenInfo>) -> (r: Effect)
    ensures
        r.deep_view() == context_window(info),
{
    match info {
        Some(info) => match info.remaining_percent {
            Some(percent) => Effect::ContextWindow { percent: Some(percent), used: None },
            None => Effect::ContextWindow { percent: None, used: Some(info.used_tokens) },
        },
        None => Effect::ContextWindow { percent: None, used: None },
    }
}

impl ChatWidget {
    pub(super) fn emit_one(&mut self, effect: Effect)
        ensures
            final(self)@ == old(self)@.emit(effect.deep_view()),
            final(self)@.ids == old(self)@.ids,
    {
        proof {
            reveal(ChatView::emit);
        }
        self.emit(effect);
    }

    /// Shows that the sandbox is being set up; the user cannot write meanwhile.
    pub fn show_windows_sandbox_setup_status(&mut self)
        ensures
            final(self)@ == old(self)@.emit(
                EffectView::ComposerInput {
                    enabled: false,
                    placeholder: Some("Input disabled until setup completes."@),
                },
            ).emit(EffectView::EnsureStatus).emit(EffectView::InterruptHint(false)).set_status(
                "Setting up agent sandbox. This can take a minute."@,
                None,
            ).redraw(),
    {
        self.emit(
            Effect::ComposerInput {
                enabled: false,
                placeholder: Some("Input disabled until setup completes.".to_owned()),
            },
        );
        self.emit(Effect::EnsureStatus);
        self.emit(Effect::InterruptHint(false));
        self.set_status_header("Setting up agent sandbox. This can take a minute.");
        self.request_redraw();
    }

    /// Shows that the sandbox is set up.
    pub fn clear_windows_sandbox_setup_status(&mut self)
        ensures
            final(self)@ == old(self)@.emit(
                EffectView::ComposerInput { enabled: true, placeholder: None },
            ).emit(EffectView::HideStatus).redraw(),
    {
        self.emit(Effect::ComposerInput { enabled: true, placeholder: None });
        self.emit(Effect::HideStatus);
        self.request_redraw();
    }

    /// Takes in how full the context is.
    pub fn set_token_info(&mut self, info: Option<TokenInfo>)
        ensures
            final(self)@ == old(self)@.with_tokens(info),
            final(self)@.ids == old(self)@.ids,
    {
        proof {
            reveal(ChatView::with_tokens);
        }
        self.put_token_info(info);
        self.emit_one(show_tokens(info));
    }

    fn should_suggest_switch(&self, report: &LimitsReport) -> (r: bool)
        ensures
            r == self@.suggests_switch(report.deep_view()),
    {
        let cheap = match self.get_model() {
            Some(model) => text::same(model.as_str(), "gpt-5.1-codex-mini"),
            None => false,
        };
        (is_much_used(report.secondary) || is_much_used(report.primary))
            && !self.get_hide_rate_limit_nudge() && !cheap && self.get_rate_limit_switch_prompt()
            != RateLimitSwitchPromptState::Shown
    }

    fn note_plan(&mut self, reported: Option<String>)
        ensures
            final(self)@ == (ChatView {
                plan_type: limits::latest(old(self)@.plan_type, reported.deep_view()),
                ..old(self)@
            }),
    {
        let before = self.take_plan_type();
        self.put_plan_type(limits::keep_latest(before, reported));
    }

    fn note_display(&mut self, report: LimitsReport)
        ensures
            final(self)@ == (ChatView {
                rate_limit_snapshot: Some(
                    display_of(report.deep_view(), old(self)@.rate_limit_snapshot),
                ),
                plan_type: limits::latest(old(self)@.plan_type, report.deep_view().plan_type),
                ..old(self)@
            }),
    {
        self.note_plan(report.plan_type);
        let before = match self.take_rate_limit_snapshot() {
            Some(before) => before.credits,
            None => None,
        };
        let display = LimitsDisplay {
            secondary: report.secondary,
            primary: report.primary,
            credits: limits::keep_latest(before, report.credits),
            captured_at: report.captured_at,
        };
        self.put_rate_limit_snapshot(Some(display));
    }

    fn note_limits(&mut self, report: LimitsReport) -> (r: Vec<String>)
        ensures
            final(self)@ == old(self)@.with_limits(report.deep_view()),
            final(self)@.ids == old(self)@.ids,
            text::views(r@) == old(self)@.rate_limit_warnings.warnings(
                report.secondary,
                report.primary,
            ),
    {
        proof {
            reveal(ChatView::with_limits);
        }
        let mut state = self.get_rate_limit_warnings();
        let r = state.take_warnings(report.secondary, report.primary);
        if self.should_suggest_switch(&report) {
            self.put_rate_limit_switch_prompt(RateLimitSwitchPromptState::Pending);
        }
        self.put_rate_limit_warnings(state);
        self.note_display(report);
        r
    }

    fn tell_warnings(&mut self, warnings: &Vec<String>)
        ensures
            final(self)@ == old(self)@.tell_warnings(text::views(warnings@)),
            final(self)@.ids == old(self)@.ids,
    {
        let ghost all = text::views(warnings@);
        let ghost start = self@;
        proof {
            assert(all.take(0) =~= Seq::<Seq<char>>::empty());
        }
        for i in 0..warnings.len()
            invariant
                all == text::views(warnings@),
                self@ == start.tell_warnings(all.take(i as int)),
                self@.ids == start.ids,
        {
            proof {
                assert(all.take(i + 1).drop_last() =~= all.take(i as int));
                assert(all.take(i + 1).last() == warnings@[i as int]@);
            }
            self.emit_one(Effect::History(HistoryItem::Warning(warnings[i].clone())));
        }
        proof {
            assert(all.take(all.len() as int) =~= all);
        }
    }

    /// Takes in how much of the limits is used, or that this is not known.
    pub fn on_rate_limit_snapshot(&mut self, report: Option<LimitsReport>)
        ensures
            final(self)@ == old(self)@.limits_reported(report.deep_view()),
            final(self)@.ids == old(self)@.ids,
    {
        proof {
            reveal(ChatView::limits_reported);
            reveal(ChatView::limits_known);
        }
        let report = match report {
            Some(report) => report,
            None => {
                self.put_rate_limit_snapshot(None);
                return;
            },
        };
        let warnings = self.note_limits(report);
        proof {
            assert(text::views(warnings@).len() == warnings@.len());
        }
        self.tell_warnings(&warnings);
        if warnings.len() > 0 {
            self.emit_one(Effect::Redraw);
        }
    }

    pub(super) fn maybe_show_pending_rate_limit_prompt(&mut self)
        ensures
            final(self)@ == old(self)@.ask_to_switch(),
            final(self)@.ids == old(self)@.ids,
    {
        proof {
            reveal(ChatView::ask_to_switch);
        }
        if self.get_hide_rate_limit_nudge() {
            self.put_rate_limit_switch_prompt(RateLimitSwitchPromptState::Idle);
            return;
        }
        if self.get_rate_limit_switch_prompt() == RateLimitSwitchPromptState::Pending {
            self.put_rate_limit_switch_prompt(RateLimitSwitchPromptState::Shown);
            self.emit_one(Effect::ShowRateLimitPrompt);
        }
    }

    /// Takes in that there is no cheaper model to switch to.
    pub fn on_rate_limit_prompt_unavailable(&mut self)
        ensures
            final(self)@ == (ChatView {
                rate_limit_switch_prompt: RateLimitSwitchPromptState::Idle,
                ..old(self)@
            }),
    {
        self.put_rate_limit_switch_prompt(RateLimitSwitchPromptState::Idle);
    }

    /// Takes in whether the user is to be asked to switch to a cheaper model.
    pub fn set_rate_limit_switch_prompt_hidden(&mut self, hidden: bool)
        ensures
            final(self)@ == old(self)@.hide_switch_prompt(hidden),
    {
        self.put_hide_rate_limit_nudge(hidden);
        if hidden {
            self.put_rate_limit_switch_prompt(RateLimitSwitchPromptState::Idle);
        }
    }

    pub(super) fn set_skills(&mut self, skills: Option<Vec<Skill>>)
        ensures
            final(self)@ == old(self)@.with_skills(skills.deep_view()),
            final(self)@.ids == old(self)@.ids,
    {
        proof {
            reveal(ChatView::with_skills);
        }
        let shown = match &skills {
            Some(skills) => Some(copy_skills(skills)),
            None => None,
        };
        self.put_skills(skills);
        self.emit_one(Effect::Skills(shown));
    }

    pub(super) fn on_list_skills(&mut self, skills: &Vec<Skill>)
        ensures
            final(self)@ == old(self)@.with_skills(Some(skills.deep_view())),
            final(self)@.ids == old(self)@.ids,
    {
        self.set_skills(Some(copy_skills(skills)));
    }
}

// ---------------------------------------------------------------------------
// Reviews
// ---------------------------------------------------------------------------

impl ChatView {
    /// With the context as it was before the review.
    #[verifier::opaque]
    pub open spec fn restore_tokens(self) -> ChatView {
        match self.pre_review_token_info {
            Some(saved) => (ChatView { pre_review_token_info: None, ..self }).with_tokens(saved),
            None => self,
        }
    }

    /// With a review that runs.
    #[verifier::opaque]
    pub open spec fn in_review(self) -> ChatView {
        ChatView {
            pre_review_token_info: match self.pre_review_token_info {
                Some(saved) => Some(saved),
                None => Some(self.token_info),
            },
            is_review_mode: true,
            ..self
        }
    }

    /// After a review was begun.
    #[verifier::opaque]
    pub open spec fn enter_review(self, hint: Seq<char>) -> ChatView {
        self.in_review().history(
            HistoryView::ReviewStatus(">> Code review started: "@ + hint + " <<"@),
        ).redraw()
    }

    /// With what a review came to shown, unless it found something.
    #[verifier::opaque]
    pub open spec fn show_review(self, output: ReviewOutput<Seq<char>>) -> ChatView {
        let shown = self.finish_stream().flush_events().emit(EffectView::FlushActiveCell);
        let explanation = text::trimmed(output.explanation);
        if output.has_findings {
            shown
        } else if explanation.len() == 0 {
            shown.error("Review failed to output a response."@)
        } else {
            shown.emit(
                EffectView::InsertHistory(
                    HistoryView::AgentMessage { text: explanation, first: false },
                ),
            )
        }
    }

    /// With no review that runs, and the model at work for nobody.
    #[verifier::opaque]
    pub open spec fn out_of_review(self) -> ChatView {
        ChatView {
            active_weave_control_context: None,
            ..(ChatView { is_review_mode: false, ..self }).restore_tokens()
        }
    }

    /// After a review has ended.
    #[verifier::opaque]
    pub open spec fn exit_review(self, output: Option<ReviewOutput<Seq<char>>>) -> ChatView {
        let shown = match output {
            Some(output) => self.show_review(output),
            None => self,
        };
        shown.out_of_review().history(
            HistoryView::ReviewStatus("<< Code review finished >>"@),
        ).redraw()
    }
}

impl ChatWidget {
    fn restore_pre_review_token_info(&mut self)
        ensures
            final(self)@ == old(self)@.restore_tokens(),
            final(self)@.ids == old(self)@.ids,
    {
        proof {
            reveal(ChatView::restore_tokens);
        }
        let saved = match self.get_pre_review_token_info() {
            Some(saved) => saved,
            None => return,
        };
        self.put_pre_review_token_info(None);
        self.set_token_info(saved);
    }

    fn set_in_review(&mut self)
        ensures
            final(self)@ == old(self)@.in_review(),
            final(self)@.ids == old(self)@.ids,
    {
        proof {
            reveal(ChatView::in_review);
        }
        if self.get_pre_review_token_info().is_none() {
            let info = self.get_token_info();
            self.put_pre_review_token_info(Some(info));
        }
        self.put_is_review_mode(true);
    }

    pub(super) fn on_entered_review_mode(&mut self, hint: &str)
        ensures
            final(self)@ == old(self)@.enter_review(hint@),
            final(self)@.ids == old(self)@.ids,
    {
        proof {
            reveal(ChatView::enter_review);
        }
        self.set_in_review();
        let banner = text::concat3(">> Code review started: ", hint, " <<");
        self.emit_two(Effect::History(HistoryItem::ReviewStatus(banner)), Effect::Redraw);
    }

    fn show_review(&mut self, output: &ReviewOutput)
        ensures
            final(self)@ == old(self)@.show_review(output.deep_view()),
            final(self)@.ids == old(self)@.ids,
    {
        proof {
            reveal(ChatView::show_review);
        }
        self.flush_answer_stream_with_separator();
        self.flush_interrupt_queue();
        self.emit_one(Effect::FlushActiveCell);
        if output.has_findings {
            return;
        }
        let explanation = text::trim(output.explanation.as_str());
        if explanation.is_empty() {
            self.emit_one(
                Effect::History(
                    HistoryItem::Error("Review failed to output a response.".to_owned()),
                ),
            );
        } else {
            self.emit_one(
                Effect::InsertHistory(
                    HistoryItem::AgentMessage { text: explanation.to_owned(), first: false },
                ),
            );
        }
    }

    fn set_out_of_review(&mut self)
        ensures
            final(self)@ == old(self)@.out_of_review(),
            final(self)@.ids == old(self)@.ids,
    {
        proof {
            reveal(ChatView::out_of_review);
        }
        self.put_is_review_mode(false);
        self.restore_pre_review_token_info();
        self.put_active_weave_control_context(None);
    }

    pub(super) fn on_exited_review_mode(&mut self, output: &Option<ReviewOutput>)
        ensures
            final(self)@ == old(self)@.exit_review(output.deep_view()),
            final(self)@.ids == old(self)@.ids,
    {
        proof {
            reveal(ChatView::exit_review);
        }
        match output {
            Some(output) => self.show_review(output),
            None => {},
        }
        self.set_out_of_review();
        self.emit_two(
            Effect::History(HistoryItem::ReviewStatus("<< Code review finished >>".to_owned())),
            Effect::Redraw,
        );
    }
}

proof fn lemma_warnings_keep_limits(chat: ChatView, warnings: Seq<Seq<char>>)
    ensures
        ({
            let after = chat.tell_warnings(warnings);
            &&& after.rate_limit_snapshot == chat.rate_limit_snapshot
            &&& after.plan_type == chat.plan_type
        }),
    decreases warnings.len(),
{
    if warnings.len() > 0 {
        lemma_warnings_keep_limits(chat, warnings.drop_last());
        reveal(ChatView::emit);
    }
}

/// What a report does not say of the credits and of the plan is as it was; what it
/// says takes the place of that. Without a report nothing is shown of the limits, and
/// the plan is as it was.
pub proof fn law_what_is_not_reported_is_kept(
    chat: ChatView,
    report: LimitsReport<Seq<char>>,
)
    ensures
        ({
            let after = chat.limits_reported(Some(report));
            &&& after.rate_limit_snapshot matches Some(shown) && shown.credits == (
            if report.credits is Some {
                report.credits
            } else if chat.rate_limit_snapshot is Some {
                chat.rate_limit_snapshot->0.credits
            } else {
                None
            })
            &&& after.plan_type == (if report.plan_type is Some {
                report.plan_type
            } else {
                chat.plan_type
            })
        }),
        chat.limits_reported(None).rate_limit_snapshot is None,
        chat.limits_reported(None).plan_type == chat.plan_type,
{
    reveal(ChatView::limits_reported);
    reveal(ChatView::limits_known);
    reveal(ChatView::with_limits);
    reveal(ChatView::emit);
    let warnings = chat.rate_limit_warnings.warnings(report.secondary, report.primary);
    lemma_warnings_keep_limits(chat.with_limits(report), warnings);
}

proof fn lemma_no_stars(s: Seq<char>, from: int, to: int)
    requires
        0 <= from <= to <= s.len(),
        forall|i: int| from <= i < to ==> #[trigger] s[i] != '*',
        to + 1 < s.len() ==> s[to] == '*' && s[to + 1] == '*',
        to + 1 >= s.len() ==> to == s.len(),
    ensures
        next_stars(s, from) == to,
    decreases to - from,
{
    if from < to {
        assert(s[from] != '*');
        if from + 1 < s.len() {
            lemma_no_stars(s, from + 1, to);
        } else {
            assert(from + 1 == to);
            assert(next_stars(s, from) == s.len());
        }
    }
}

/// The header is what stands between the first two pairs of stars, trimmed; where there is
/// no star, there is no header.
pub proof fn law_the_first_bold_text_is_the_header(
    before: Seq<char>,
    bold: Seq<char>,
    behind: Seq<char>,
)
    requires
        forall|i: int| 0 <= i < before.len() ==> #[trigger] before[i] != '*',
        forall|i: int| 0 <= i < bold.len() ==> #[trigger] bold[i] != '*',
    ensures
        first_bold(before + seq!['*', '*'] + bold + seq!['*', '*'] + behind) == (if text::trimmed(
            bold,
        ).len() > 0 {
            Some(text::trimmed(bold))
        } else {
            None
        }),
        first_bold(before) is None,
        first_bold(before + seq!['*', '*'] + bold) is None,
{
    let s = before + seq!['*', '*'] + bold + seq!['*', '*'] + behind;
    let n = before.len() as int;
    let m = n + 2 + bold.len();
    assert forall|i: int| 0 <= i < n implies #[trigger] s[i] != '*' by {
        assert(s[i] == before[i]);
    }
    assert(s[n] == '*' && s[n + 1] == '*');
    lemma_no_stars(s, 0, n);
    assert forall|i: int| n + 2 <= i < m implies #[trigger] s[i] != '*' by {
        assert(s[i] == bold[i - n - 2]);
    }
    assert(s[m] == '*' && s[m + 1] == '*');
    lemma_no_stars(s, n + 2, m);
    assert(s.subrange(n + 2, m) =~= bold);
    lemma_no_stars(before, 0, n);
    let t = before + seq!['*', '*'] + bold;
    assert forall|i: int| 0 <= i < n implies #[trigger] t[i] != '*' by {
        assert(t[i] == before[i]);
    }
    assert(t[n] == '*' && t[n + 1] == '*');
    lemma_no_stars(t, 0, n);
    assert forall|i: int| n + 2 <= i < t.len() implies #[trigger] t[i] != '*' by {
        assert(t[i] == bold[i - n - 2]);
    }
    lemma_no_stars(t, n + 2, t.len() as int);
}

/// Nothing of what the model thinks is lost: all pieces since the last end are shown
/// together, with an empty line at each break.
pub proof fn law_all_reasoning_is_shown(chat: ChatView, first: Seq<char>, second: Seq<char>)
    requires
        chat.reasoning_buffer.len() == 0,
        chat.full_reasoning_buffer.len() == 0,
        first.len() > 0,
    ensures
        ({
            let item = EffectView::History(HistoryView::Reasoning(first + second));
            let after = chat.reason(first).reason(second).end_reasoning();
            let broken = EffectView::History(
                HistoryView::Reasoning(first + "\n\n"@ + second),
            );
            let after_break = chat.reason(first).break_reasoning().reason(second).end_reasoning();
            &&& after.outbox.len() >= 2 && after.outbox[after.outbox.len() - 2] == item
            &&& after_break.outbox.len() >= 2 && after_break.outbox[after_break.outbox.len() - 2]
                == broken
            &&& after.reasoning_buffer.len() == 0 && after.full_reasoning_buffer.len() == 0
            &&& after_break.reasoning_buffer.len() == 0 && after_break.full_reasoning_buffer.len()
                == 0
        }),
{
    reveal(ChatView::reason);
    reveal(ChatView::break_reasoning);
    reveal(ChatView::end_reasoning);
    reveal(ChatView::clear_reasoning);
    reveal(ChatView::set_status);
    reveal(ChatView::emit);
    assert(chat.reasoning_buffer =~= Seq::<char>::empty());
    assert(chat.full_reasoning_buffer =~= Seq::<char>::empty());
    assert(chat.reasoning_buffer + first =~= first);
    assert(Seq::<char>::empty() + (first + second) =~= first + second);
    assert(Seq::<char>::empty() + first + "\n\n"@ =~= first + "\n\n"@);
    assert(Seq::<char>::empty() + second =~= second);
}

/// A failing stream shows why, and once it goes on the header from before is shown again,
/// however often it failed.
pub proof fn law_the_header_comes_back(
    chat: ChatView,
    first: Seq<char>,
    second: Seq<char>,
    details: Option<Seq<char>>,
)
    requires
        chat.retry_status_header is None,
    ensures
        chat.stream_failed(first, details).current_status_header == first,
        chat.stream_failed(first, details).restore_status().current_status_header
            == chat.current_status_header,
        chat.stream_failed(first, details).stream_failed(
            second,
            details,
        ).restore_status().current_status_header == chat.current_status_header,
        chat.stream_failed(first, details).restore_status().retry_status_header is None,
        chat.restore_status() == chat,
{
    reveal(ChatView::stream_failed);
    reveal(ChatView::restore_status);
    reveal(ChatView::set_status);
    reveal(ChatView::emit);
}

/// A review leaves what is known of the context as it was before it.
pub proof fn law_a_review_gives_the_context_back(
    chat: ChatView,
    hint: Seq<char>,
    meanwhile: Option<TokenInfo>,
)
    requires
        chat.pre_review_token_info is None,
    ensures
        chat.enter_review(hint).is_review_mode,
        ({
            let after = chat.enter_review(hint).with_tokens(meanwhile).exit_review(None);
            &&& !after.is_review_mode
            &&& after.token_info == chat.token_info
            &&& after.pre_review_token_info is None
        }),
{
    reveal(ChatView::enter_review);
    reveal(ChatView::in_review);
    reveal(ChatView::with_tokens);
    reveal(ChatView::exit_review);
    reveal(ChatView::out_of_review);
    reveal(ChatView::restore_tokens);
    reveal(ChatView::emit);
}

/// What is left of the context is shown where it is known, else what is in it.
pub proof fn law_the_context_is_shown(chat: ChatView, info: TokenInfo)
    ensures
        chat.with_tokens(Some(info)).token_info == Some(info),
        info.remaining_percent is Some ==> chat.with_tokens(Some(info)).outbox == chat.outbox.push(
            EffectView::ContextWindow { percent: info.remaining_percent, used: None },
        ),
        info.remaining_percent is None ==> chat.with_tokens(Some(info)).outbox == chat.outbox.push(
            EffectView::ContextWindow { percent: None, used: Some(info.used_tokens) },
        ),
        chat.with_tokens(None).outbox == chat.outbox.push(
            EffectView::ContextWindow { percent: None, used: None },
        ),
{
    reveal(ChatView::with_tokens);
    reveal(ChatView::emit);
}

/// The cheaper model is offered after a turn once a limit is used to nine tenths: unless
/// the user does not want to hear of it, has that model already, or was asked before.
pub proof fn law_the_cheaper_model_is_offered(
    chat: ChatView,
    report: LimitsReport<Seq<char>>,
    used: LimitUse,
)
    requires
        report.primary == Some(used),
        report.secondary is None,
        chat.rate_limit_switch_prompt == RateLimitSwitchPromptState::Idle,
    ensures
        ({
            let after = chat.limits_reported(Some(report));
            let wanted = used.passed >= 2 && !chat.hide_rate_limit_nudge && chat.model != Some(
                "gpt-5.1-codex-mini"@,
            );
            &&& after.rate_limit_switch_prompt == (if wanted {
                RateLimitSwitchPromptState::Pending
            } else {
                RateLimitSwitchPromptState::Idle
            })
            &&& wanted ==> {
                let asked = after.ask_to_switch();
                &&& asked.outbox == after.outbox.push(EffectView::ShowRateLimitPrompt)
                &&& asked.rate_limit_switch_prompt == RateLimitSwitchPromptState::Shown
                &&& asked.ask_to_switch() == asked
            }
            &&& !wanted ==> after.ask_to_switch().outbox == after.outbox
        }),
{
    reveal(ChatView::limits_reported);
    reveal(ChatView::limits_known);
    reveal(ChatView::with_limits);
    reveal(ChatView::ask_to_switch);
    reveal(ChatView::emit);
    let warnings = chat.rate_limit_warnings.warnings(report.secondary, report.primary);
    lemma_warnings_keep_prompt(chat.with_limits(report), warnings);
}

proof fn lemma_warnings_keep_prompt(chat: ChatView, warnings: Seq<Seq<char>>)
    ensures
        ({
            let after = chat.tell_warnings(warnings);
            &&& after.rate_limit_switch_prompt == chat.rate_limit_switch_prompt
            &&& after.hide_rate_limit_nudge == chat.hide_rate_limit_nudge
        }),
    decreases warnings.len(),
{
    if warnings.len() > 0 {
        lemma_warnings_keep_prompt(chat, warnings.drop_last());
        reveal(ChatView::emit);
    }
}

/// Every warning is told, in its order.
pub proof fn law_every_warning_is_told(
    chat: ChatView,
    warnings: Seq<Seq<char>>,
    last: Seq<char>,
)
    ensures
        chat.tell_warnings(seq![]) == chat,
        chat.tell_warnings(warnings.push(last)) == chat.tell_warnings(warnings).emit(
            EffectView::History(HistoryView::Warning(last)),
        ),
{
    assert(warnings.push(last).drop_last() =~= warnings);
}

/// Those servers are starting whose last news is that they start; the others are not.
pub proof fn law_those_that_start_are_named(
    servers: ServersView,
    name: Seq<char>,
    error: Seq<char>,
)
    ensures
        starting(seq![]).len() == 0,
        starting(servers.push((name, McpStartupStatus::Starting))) == starting(servers).push(name),
        starting(servers.push((name, McpStartupStatus::Ready))) == starting(servers),
        starting(servers.push((name, McpStartupStatus::Cancelled))) == starting(servers),
        starting(servers.push((name, McpStartupStatus::Failed { error }))) == starting(servers),
        starting(servers).len() == 0 ==> startup_header(servers) is None,
        startup_header(seq![(name, McpStartupStatus::Starting)]) == Some(
            "Booting MCP server: "@ + name,
        ),
{
    assert(servers.push((name, McpStartupStatus::Starting)).drop_last() =~= servers);
    assert(servers.push((name, McpStartupStatus::Ready)).drop_last() =~= servers);
    assert(servers.push((name, McpStartupStatus::Cancelled)).drop_last() =~= servers);
    assert(servers.push((name, McpStartupStatus::Failed { error })).drop_last() =~= servers);
    text::lemma_sorted_len(starting(servers));
    let one: ServersView = seq![(name, McpStartupStatus::Starting)];
    let none: ServersView = seq![];
    assert(one.drop_last() =~= none);
    assert(starting(none) =~= seq![]);
    assert(starting(one) =~= seq![name]);
    let names = seq![name];
    assert(names.drop_last() =~= Seq::<Seq<char>>::empty());
    assert(text::sorted(Seq::<Seq<char>>::empty()) =~= seq![]);
    assert(text::sorted(names) =~= seq![name]);
}

/// News of a server replaces what was known of it, and the user hears of a failure.
pub proof fn law_news_of_a_server_is_taken(
    chat: ChatView,
    server: Seq<char>,
    error: Seq<char>,
    status: McpStartupStatus<Seq<char>>,
    other: Seq<char>,
)
    ensures
        ({
            let after = chat.server_updated(server, status);
            &&& after.mcp_startup_status is Some
            &&& table::value_at(after.mcp_startup_status->0, server) == Some(status)
            &&& other != server ==> table::value_at(after.mcp_startup_status->0, other)
                == table::value_at(chat.servers(), other)
            &&& after.task_running
            &&& status == (McpStartupStatus::Failed { error }) ==> after.outbox.len()
                > chat.outbox.len() && after.outbox[chat.outbox.len() as int]
                == EffectView::History(HistoryView::Warning(error))
        }),
{
    reveal(ChatView::server_updated);
    reveal(ChatView::with_servers);
    reveal(ChatView::sync_running);
    reveal(ChatView::set_status);
    reveal(ChatView::warn);
    reveal(ChatView::emit);
    table::law_with(chat.servers(), server, status, other);
    table::law_with(chat.servers(), server, status, server);
}

/// The user hears which servers failed and which were cut off; where all are there,
/// nothing is told.
pub proof fn law_missing_servers_are_told(
    chat: ChatView,
    failed: Seq<Seq<char>>,
    cancelled: Seq<Seq<char>>,
)
    ensures
        chat.tell_servers(seq![], seq![]) == chat,
        failed.len() > 0 ==> chat.tell_servers(failed, seq![]) == chat.emit(
            EffectView::History(
                HistoryView::Warning(
                    "MCP startup incomplete (failed: "@ + text::joined(failed, ", "@) + ")"@,
                ),
            ),
        ).emit(EffectView::Redraw),
        cancelled.len() > 0 ==> chat.tell_servers(seq![], cancelled) == chat.emit(
            EffectView::History(
                HistoryView::Warning(
                    "MCP startup interrupted. The following servers were not initialized: "@
                        + text::joined(cancelled, ", "@),
                ),
            ),
        ).emit(EffectView::Redraw),
        failed.len() > 0 && cancelled.len() > 0 ==> chat.tell_servers(failed, cancelled)
            == chat.tell_servers(seq![], cancelled).tell_servers(failed, seq![]),
{
    reveal(ChatView::tell_servers);
    reveal(ChatView::warn);
}

/// The skills are those of the first entry for the folder, and there are none where it has
/// no entry.
pub proof fn law_the_skills_are_those_of_the_folder(entries: Seq<SkillsEntry>, i: int)
    requires
        0 <= i <= entries.len(),
        forall|j: int| 0 <= j < i ==> !(#[trigger] entries[j]).is_cwd,
        i < entries.len() ==> entries[i].is_cwd,
    ensures
        skills_here(entries) == (if i < entries.len() {
            entries[i].skills.deep_view()
        } else {
            seq![]
        }),
    decreases i,
{
    if i > 0 {
        let rest = entries.subrange(1, entries.len() as int);
        assert(!entries[0].is_cwd);
        assert forall|j: int| 0 <= j < i - 1 implies !(#[trigger] rest[j]).is_cwd by {
            assert(rest[j] == entries[j + 1]);
        }
        law_the_skills_are_those_of_the_folder(rest, i - 1);
    }
}

/// What became of an undo is told in its own words, or in plain ones where it has none: as
/// news if it succeeded, as an error if not.
pub proof fn law_the_end_of_an_undo_is_told(chat: ChatView, success: bool, message: Seq<char>)
    ensures
        chat.undo_completed(success, Some(message)).outbox == chat.outbox.push(
            EffectView::HideStatus,
        ).push(
            EffectView::History(
                if success {
                    HistoryView::Info { message, hint: None }
                } else {
                    HistoryView::Error(message)
                },
            ),
        ).push(EffectView::Redraw),
        chat.undo_completed(true, None).outbox.len() == chat.outbox.len() + 3,
        chat.undo_completed(true, None).outbox[chat.outbox.len() as int + 1] == EffectView::History(
            HistoryView::Info { message: "Undo completed successfully."@, hint: None },
        ),
        chat.undo_completed(false, None).outbox[chat.outbox.len() as int + 1]
            == EffectView::History(HistoryView::Error("Undo failed."@)),
{
    reveal(ChatView::undo_completed);
    reveal(ChatView::emit);
}

/// Whoever does not want to hear of the cheaper model is not asked again.
pub proof fn law_a_hidden_offer_is_not_made(
    chat: ChatView,
    report: LimitsReport<Seq<char>>,
)
    ensures
        ({
            let after = chat.hide_switch_prompt(true).with_limits(report);
            after.rate_limit_switch_prompt == RateLimitSwitchPromptState::Idle
                && after.hide_rate_limit_nudge
        }),
        chat.hide_switch_prompt(false).rate_limit_switch_prompt == chat.rate_limit_switch_prompt,
        !chat.hide_switch_prompt(false).hide_rate_limit_nudge,
{
    reveal(ChatView::with_limits);
}

} // verus!

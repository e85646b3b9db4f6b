//! Keys that the user presses, and commands that the user gives.

use vstd::prelude::*;

use crate::chat::state;
use crate::chat::state::{ChatView, ChatWidget, Tape};
use crate::chat::types::{
    CommandFacts, CommandFactsView, Effect, EffectView, Elevation, HistoryView, PaneRequest,
    QuitKey, SlashCommand, SourceView, UserMessage, UserMessageView,
};
use crate::text;

verus! {

// ---------------------------------------------------------------------------
// Keys
// ---------------------------------------------------------------------------

/// A key of the keyboard.
#[derive(Debug, Clone, Copy, PartialEq, Eq, Structural)]
pub enum KeyCode {
    Char(char),
    BackTab,
    Up,
    Other,
}

/// A key that was pressed or let go.
#[derive(Debug, Clone, Copy, PartialEq, Eq, Structural)]
pub struct KeyInput {
    pub code: KeyCode,
    pub control: bool,
    pub alt: bool,
    /// Whether any other modifier is held.
    pub others: bool,
    pub pressed: bool,
}

/// What a key stands for.
#[derive(Debug, Clone, Copy, PartialEq, Eq, Structural)]
pub enum KeyClass {
    CtrlC,
    CtrlD,
    PasteImage,
    BackTab,
    AltUp,
    Press,
    NoPress,
}

/// What the pane below the transcript shows.
#[derive(Debug, Clone, Copy, PartialEq, Eq, Structural)]
pub struct PaneState {
    pub composer_empty: bool,
    pub popup_active: bool,
    /// Whether the pane itself had something to cancel.
    pub cancel_handled: bool,
}

/// How the user quits.
#[derive(Debug, Clone, Copy, PartialEq, Eq, Structural)]
pub struct QuitSettings {
    /// Whether a quit key is to be pressed twice.
    pub double_press: bool,
    /// How long the first press counts.
    pub timeout_ms: u64,
}

/// What is left to do about a key.
#[derive(Debug, Clone, Copy, PartialEq, Eq, Structural)]
pub enum KeyOutcome {
    Done,
    PasteImage,
    GiveToPane,
}

/// Whether two letters are the same but for their case.
pub open spec fn is_letter(c: char, lower: char, upper: char) -> bool {
    c == lower || c == upper
}

/// What a key stands for.
pub open spec fn class_of(key: KeyInput) -> KeyClass {
    if !key.pressed {
        KeyClass::NoPress
    } else {
        match key.code {
            KeyCode::Char(c) => if key.control && is_letter(c, 'c', 'C') {
                KeyClass::CtrlC
            } else if key.control && is_letter(c, 'd', 'D') {
                KeyClass::CtrlD
            } else if (key.control || key.alt) && is_letter(c, 'v', 'V') {
                KeyClass::PasteImage
            } else {
                KeyClass::Press
            },
            KeyCode::BackTab => KeyClass::BackTab,
            KeyCode::Up => if key.alt && !key.control && !key.others {
                KeyClass::AltUp
            } else {
                KeyClass::Press
            },
            KeyCode::Other => KeyClass::Press,
        }
    }
}

impl ChatView {
    /// Whether a quit key was pressed before, and the press still counts.
    pub open spec fn quit_armed(self, key: QuitKey, now: u64) -> bool {
        self.quit_shortcut_key == Some(key) && match self.quit_shortcut_expires_at {
            Some(expires_at) => now < expires_at,
            None => false,
        }
    }

    /// After the first press of a quit key.
    #[verifier::opaque]
    pub open spec fn arm_quit(self, key: QuitKey, quit: QuitSettings, now: u64) -> ChatView {
        (ChatView {
            quit_shortcut_expires_at: Some(
                if now + quit.timeout_ms > u64::MAX {
                    now
                } else {
                    (now + quit.timeout_ms) as u64
                },
            ),
            quit_shortcut_key: Some(key),
            ..self
        }).emit(EffectView::QuitHint(Some(key)))
    }

    /// After the wish to quit.
    pub open spec fn quit(self) -> ChatView {
        self.emit(EffectView::Exit { shutdown_first: true })
    }

    /// After the second press of a quit key.
    #[verifier::opaque]
    pub open spec fn quit_by_key(self) -> ChatView {
        (ChatView { quit_shortcut_expires_at: None, quit_shortcut_key: None, ..self }).quit()
    }

    /// Whether there is something to stop.
    pub open spec fn cancellable(self) -> bool {
        self.task_running || self.is_review_mode
    }

    /// After Control and C.
    #[verifier::opaque]
    pub open spec fn ctrl_c(self, pane: PaneState, quit: QuitSettings, now: u64) -> ChatView {
        if pane.cancel_handled {
            if !quit.double_press {
                self
            } else if pane.popup_active {
                self.forget_quit_key()
            } else {
                self.arm_quit(QuitKey::CtrlC, quit, now)
            }
        } else if !quit.double_press {
            if self.cancellable() {
                self.emit(EffectView::Interrupt)
            } else {
                self.quit()
            }
        } else if self.quit_armed(QuitKey::CtrlC, now) {
            self.quit_by_key()
        } else if self.cancellable() {
            self.arm_quit(QuitKey::CtrlC, quit, now).emit(EffectView::Interrupt)
        } else {
            self.arm_quit(QuitKey::CtrlC, quit, now)
        }
    }

    /// After Control and D, and whether that was all about it. The key is one to
    /// quit with only where the composer is empty and nothing is open.
    #[verifier::opaque]
    pub open spec fn ctrl_d(
        self,
        pane: PaneState,
        quit: QuitSettings,
        now: u64,
    ) -> (ChatView, bool) {
        let idle = pane.composer_empty && !pane.popup_active;
        if !idle {
            (self, false)
        } else if quit.double_press && self.quit_armed(QuitKey::CtrlD, now) {
            (self.quit_by_key(), true)
        } else if quit.double_press {
            (self.arm_quit(QuitKey::CtrlD, quit, now), true)
        } else {
            (self.quit(), true)
        }
    }

    /// With the last text that waits back in the composer.
    #[verifier::opaque]
    pub open spec fn edit_queued(self) -> ChatView {
        (ChatView { queued_user_messages: self.queued_user_messages.drop_last(), ..self }).emit(
            EffectView::ComposerText(self.queued_user_messages.last().text),
        ).refresh_queue().redraw()
    }

    /// After a key, and what is left to do about it.
    #[verifier::opaque]
    pub open spec fn press(
        self,
        key: KeyClass,
        pane: PaneState,
        quit: QuitSettings,
        now: u64,
    ) -> (ChatView, KeyOutcome) {
        match key {
            KeyClass::CtrlC => (self.ctrl_c(pane, quit, now), KeyOutcome::Done),
            KeyClass::CtrlD => match self.ctrl_d(pane, quit, now) {
                (chat, true) => (chat, KeyOutcome::Done),
                (chat, false) => (chat.forget_quit_key(), KeyOutcome::GiveToPane),
            },
            KeyClass::PasteImage => (self, KeyOutcome::PasteImage),
            KeyClass::BackTab => if self.collaboration_modes && !self.task_running
                && !pane.popup_active {
                (
                    self.forget_quit_key().emit(EffectView::Pane(PaneRequest::NextMode)),
                    KeyOutcome::Done,
                )
            } else {
                (self.forget_quit_key(), KeyOutcome::GiveToPane)
            },
            KeyClass::AltUp => if self.queued_user_messages.len() > 0 {
                (self.forget_quit_key().edit_queued(), KeyOutcome::Done)
            } else {
                (self.forget_quit_key(), KeyOutcome::GiveToPane)
            },
            KeyClass::Press => (self.forget_quit_key(), KeyOutcome::GiveToPane),
            KeyClass::NoPress => (self, KeyOutcome::GiveToPane),
        }
    }

    /// After an image was pasted into the composer, or could not be.
    pub open spec fn pasted(self, image: Result<Seq<char>, Seq<char>>) -> ChatView {
        match image {
            Ok(path) => self.emit(EffectView::AttachImage(path)).redraw(),
            Err(error) => self.error("Failed to paste image: "@ + error),
        }
    }

    /// After the user said something.
    #[verifier::opaque]
    pub open spec fn said(
        self,
        message: Seq<char>,
        images: Seq<Seq<char>>,
        tape: Tape,
    ) -> ChatView {
        let chat = self.clear_reasoning().set_status("Working"@, None);
        let message = local_message(message, images);
        if chat.conversation_id is None {
            chat.queue_message(message, tape)
        } else {
            chat.submit(message, tape)
        }
    }
}

/// What the user said.
pub open spec fn local_message(message: Seq<char>, images: Seq<Seq<char>>) -> UserMessageView {
    UserMessageView { text: message, image_paths: images, source: SourceView::Local }
}

fn same_letter(c: char, lower: char, upper: char) -> (r: bool)
    ensures
        r == is_letter(c, lower, upper),
{
    c == lower || c == upper
}

/// What a key stands for.
pub fn classify(key: KeyInput) -> (r: KeyClass)
    ensures
        r == class_of(key),
{
    if !key.pressed {
        return KeyClass::NoPress;
    }
    match key.code {
        KeyCode::Char(c) => {
            if key.control && same_letter(c, 'c', 'C') {
                KeyClass::CtrlC
            } else if key.control && same_letter(c, 'd', 'D') {
                KeyClass::CtrlD
            } else if (key.control || key.alt) && same_letter(c, 'v', 'V') {
                KeyClass::PasteImage
            } else {
                KeyClass::Press
            }
        },
        KeyCode::BackTab => KeyClass::BackTab,
        KeyCode::Up => {
            if key.alt && !key.control && !key.others {
                KeyClass::AltUp
            } else {
                KeyClass::Press
            }
        },
        KeyCode::Other => KeyClass::Press,
    }
}

impl ChatWidget {
    fn quit_shortcut_active_for(&self, key: QuitKey, now: u64) -> (r: bool)
        ensures
            r == self@.quit_armed(key, now),
    {
        self.get_quit_shortcut_key() == Some(key) && match self.get_quit_shortcut_expires_at() {
            Some(expires_at) => now < expires_at,
            None => false,
        }
    }

    fn arm_quit_shortcut(&mut self, key: QuitKey, quit: QuitSettings, now: u64)
        ensures
            final(self)@ == old(self)@.arm_quit(key, quit, now),
    {
        proof {
            reveal(ChatView::arm_quit);
        }
        let expires_at: u64 = match now.checked_add(quit.timeout_ms) {
            Some(expires_at) => expires_at,
            None => now,
        };
        self.put_quit_shortcut_expires_at(Some(expires_at));
        self.put_quit_shortcut_key(Some(key));
        self.emit(Effect::QuitHint(Some(key)));
    }

    fn request_quit_without_confirmation(&mut self)
        ensures
            final(self)@ == old(self)@.quit(),
            final(self)@.ids == old(self)@.ids,
    {
        self.emit_one(Effect::Exit { shutdown_first: true });
    }

    fn quit_by_key(&mut self)
        ensures
            final(self)@ == old(self)@.quit_by_key(),
    {
        proof {
            reveal(ChatView::quit_by_key);
        }
        self.put_quit_shortcut_expires_at(None);
        self.put_quit_shortcut_key(None);
        self.request_quit_without_confirmation();
    }

    fn is_cancellable_work_active(&self) -> (r: bool)
        ensures
            r == self@.cancellable(),
    {
        self.get_task_running() || self.get_is_review_mode()
    }

    fn on_ctrl_c(&mut self, pane: PaneState, quit: QuitSettings, now: u64)
        ensures
            final(self)@ == old(self)@.ctrl_c(pane, quit, now),
    {
        proof {
            reveal(ChatView::ctrl_c);
        }
        if pane.cancel_handled {
            if quit.double_press {
                if pane.popup_active {
                    self.forget_quit_key();
                } else {
                    self.arm_quit_shortcut(QuitKey::CtrlC, quit, now);
                }
            }
            return;
        }
        let cancellable = self.is_cancellable_work_active();
        if !quit.double_press {
            if cancellable {
                self.emit(Effect::Interrupt);
            } else {
                self.request_quit_without_confirmation();
            }
            return;
        }
        if self.quit_shortcut_active_for(QuitKey::CtrlC, now) {
            self.quit_by_key();
            return;
        }
        self.arm_quit_shortcut(QuitKey::CtrlC, quit, now);
        if cancellable {
            self.emit(Effect::Interrupt);
        }
    }

    fn on_ctrl_d(&mut self, pane: PaneState, quit: QuitSettings, now: u64) -> (done: bool)
        ensures
            (final(self)@, done) == old(self)@.ctrl_d(pane, quit, now),
    {
        proof {
            reveal(ChatView::ctrl_d);
        }
        if !pane.composer_empty || pane.popup_active {
            return false;
        }
        if quit.double_press && self.quit_shortcut_active_for(QuitKey::CtrlD, now) {
            self.quit_by_key();
            return true;
        }
        if quit.double_press {
            self.arm_quit_shortcut(QuitKey::CtrlD, quit, now);
        } else {
            self.request_quit_without_confirmation();
        }
        true
    }

    fn edit_queued(&mut self)
        requires
            old(self)@.queued_user_messages.len() > 0,
        ensures
            final(self)@ == old(self)@.edit_queued(),
    {
        proof {
            reveal(ChatView::edit_queued);
        }
        let ghost all = self@.queued_user_messages;
        let mut queue = self.take_queued_user_messages();
        proof {
            assert(queue@.len() == all.len());
        }
        let last = queue.pop();
        proof {
            assert(last is Some);
            assert(last->0.deep_view() == all.last());
            assert(queue.deep_view() =~= all.drop_last());
        }
        self.put_queued_user_messages(queue);
        if let Some(message) = last {
            self.emit(Effect::ComposerText(message.text));
        }
        self.refresh_queued_user_messages();
        self.request_redraw();
    }

    /// Takes in a key at the time `now`, and says what is left to do about it.
    pub fn handle_key_event(
        &mut self,
        key: KeyInput,
        pane: PaneState,
        quit: QuitSettings,
        now: u64,
    ) -> (outcome: KeyOutcome)
        ensures
            (final(self)@, outcome) == old(self)@.press(class_of(key), pane, quit, now),
    {
        proof {
            reveal(ChatView::press);
            reveal(ChatView::forget_quit_key);
            reveal(ChatView::emit);
        }
        match classify(key) {
            KeyClass::CtrlC => {
                self.on_ctrl_c(pane, quit, now);
                KeyOutcome::Done
            },
            KeyClass::CtrlD => {
                if self.on_ctrl_d(pane, quit, now) {
                    KeyOutcome::Done
                } else {
                    self.forget_quit_key();
                    KeyOutcome::GiveToPane
                }
            },
            KeyClass::PasteImage => KeyOutcome::PasteImage,
            KeyClass::BackTab => {
                let cycles = self.get_collaboration_modes() && !self.get_task_running()
                    && !pane.popup_active;
                self.forget_quit_key();
                if cycles {
                    self.emit(Effect::Pane(PaneRequest::NextMode));
                    KeyOutcome::Done
                } else {
                    KeyOutcome::GiveToPane
                }
            },
            KeyClass::AltUp => {
                let waiting = self.get_queued_user_messages().len() > 0;
                proof {
                    assert(waiting == (self@.queued_user_messages.len() > 0));
                }
                self.forget_quit_key();
                if waiting {
                    self.edit_queued();
                    KeyOutcome::Done
                } else {
                    KeyOutcome::GiveToPane
                }
            },
            KeyClass::Press => {
                self.forget_quit_key();
                KeyOutcome::GiveToPane
            },
            KeyClass::NoPress => KeyOutcome::GiveToPane,
        }
    }

    /// Takes in an image that was pasted, or why it could not be.
    pub fn on_image_pasted(&mut self, image: Result<String, String>)
        ensures
            final(self)@ == old(self)@.pasted(
                match image {
                    Ok(path) => Ok(path@),
                    Err(error) => Err(error@),
                },
            ),
    {
        match image {
            Ok(path) => self.attach_image(path),
            Err(error) => {
                let message = text::concat2("Failed to paste image: ", error.as_str());
                self.add_error(message.as_str());
            },
        }
    }

    /// Puts an image into the composer.
    pub fn attach_image(&mut self, path: String)
        ensures
            final(self)@ == old(self)@.emit(EffectView::AttachImage(path@)).redraw(),
    {
        self.emit(Effect::AttachImage(path));
        self.request_redraw();
    }

    /// Takes in what the user said.
    pub fn on_submitted(&mut self, message: String, images: Vec<String>)
        ensures
            state::extends(final(self)@.ids, old(self)@.ids),
            forall|tape: Tape|
                state::extends(tape, final(self)@.ids) ==> #[trigger] old(self)@.said(
                    message@,
                    text::views(images@),
                    tape,
                ) == final(self)@,
    {
        proof {
            reveal(ChatView::said);
        }
        self.clear_reasoning();
        self.set_status_header("Working");
        let message = UserMessage::local(message, images);
        if self.get_conversation_id().is_none() {
            self.queue_user_message(message);
        } else {
            self.submit_user_message(message);
        }
    }

    /// Takes in what the user wants to say when the turn ends.
    pub fn on_queued(&mut self, message: String, images: Vec<String>)
        ensures
            state::extends(final(self)@.ids, old(self)@.ids),
            forall|tape: Tape|
                state::extends(tape, final(self)@.ids) ==> #[trigger] old(self)@.queue_message(
                    local_message(message@, text::views(images@)),
                    tape,
                ) == final(self)@,
    {
        self.queue_user_message(UserMessage::local(message, images));
    }
}

// ---------------------------------------------------------------------------
// Commands
// ---------------------------------------------------------------------------

impl ChatView {
    /// With something to show or to do that others know how to.
    pub open spec fn pane(self, request: PaneRequest) -> ChatView {
        self.emit(EffectView::Pane(request))
    }

    /// After the wish to choose a model.
    #[verifier::opaque]
    pub open spec fn open_models(self) -> ChatView {
        if self.conversation_id is None {
            self.info("Model selection is disabled until startup completes."@).redraw()
        } else {
            self.pane(PaneRequest::Models)
        }
    }

    /// After the wish to see where the session is kept.
    #[verifier::opaque]
    pub open spec fn show_rollout(self) -> ChatView {
        match self.current_rollout_path {
            Some(path) => self.info("Current rollout path: "@ + path).redraw(),
            None => self.info("Rollout path is not available yet."@).redraw(),
        }
    }

    /// After the wish to elevate the sandbox.
    #[verifier::opaque]
    pub open spec fn elevate(self, elevation: Elevation<Seq<char>>) -> ChatView {
        match elevation {
            Elevation::Unavailable => self,
            Elevation::NoPreset => self.error(
                "Internal error: missing the 'auto' approval preset."@,
            ).redraw(),
            Elevation::Refused { reason } => self.error(reason).redraw(),
            Elevation::Ready => self.pane(PaneRequest::ElevatedSandbox),
        }
    }

    /// After the wish to tell what could be better.
    #[verifier::opaque]
    pub open spec fn open_feedback(self) -> ChatView {
        self.pane(
            if self.feedback_enabled {
                PaneRequest::Feedback
            } else {
                PaneRequest::FeedbackDisabled
            },
        ).redraw()
    }

    /// After the wish for a file that is already there.
    #[verifier::opaque]
    pub open spec fn keep_doc(self, doc_name: Seq<char>) -> ChatView {
        self.info(
            doc_name + " already exists here. Skipping /init to avoid overwriting it."@,
        ).redraw()
    }

    /// After the wish for a shorter context.
    #[verifier::opaque]
    pub open spec fn shorten(self) -> ChatView {
        (ChatView { token_info: None, ..self }).emit(EffectView::Compact)
    }

    /// After a command that depends on what is known.
    #[verifier::opaque]
    pub open spec fn run_command(self, command: SlashCommand, facts: CommandFactsView) -> ChatView {
        match command {
            SlashCommand::Feedback => self.open_feedback(),
            SlashCommand::Init => self.keep_doc(facts.doc_name),
            SlashCommand::Compact => self.shorten(),
            SlashCommand::Model => self.open_models(),
            SlashCommand::Collab => if self.collaboration_modes {
                self.pane(PaneRequest::NextMode)
            } else {
                self
            },
            SlashCommand::ElevateSandbox => self.elevate(facts.elevation),
            SlashCommand::Mcp => if facts.has_tool_servers {
                self.emit(EffectView::ListTools)
            } else {
                self.pane(PaneRequest::NoTools)
            },
            SlashCommand::Rollout => self.show_rollout(),
            _ => self.run_plain(command),
        }
    }

    /// After one of the other commands.
    #[verifier::opaque]
    pub open spec fn run_plain(self, command: SlashCommand) -> ChatView {
        match command {
            SlashCommand::New => self.emit(EffectView::NewSession),
            SlashCommand::Resume => self.emit(EffectView::OpenResumePicker),
            SlashCommand::Fork => self.emit(EffectView::ForkSession),
            SlashCommand::Weave => self.pane(PaneRequest::WeaveSessions),
            SlashCommand::Review => self.pane(PaneRequest::Review),
            SlashCommand::Approvals => self.pane(PaneRequest::Approvals),
            SlashCommand::Quit => self.quit(),
            SlashCommand::Exit => self.quit(),
            SlashCommand::Logout => self.pane(PaneRequest::Logout).quit(),
            SlashCommand::Diff => self.redraw().pane(PaneRequest::Diff),
            SlashCommand::Mention => self.emit(EffectView::InsertText("@"@)),
            SlashCommand::Skills => self.emit(EffectView::InsertText("$"@)),
            SlashCommand::Status => self.pane(PaneRequest::StatusOutput),
            SlashCommand::TestApproval => self.pane(PaneRequest::TestApproval),
            _ => self,
        }
    }

    /// Whether a command has to wait until nothing runs.
    pub open spec fn command_blocked(self, facts: CommandFactsView) -> bool {
        !facts.available_during_task && self.task_running
    }

    /// After a command was turned down.
    #[verifier::opaque]
    pub open spec fn turn_down(self, facts: CommandFactsView) -> ChatView {
        self.error("'/"@ + facts.name + "' is disabled while a task is in progress."@).redraw()
    }

    /// After a command.
    #[verifier::opaque]
    pub open spec fn command(
        self,
        command: SlashCommand,
        facts: CommandFactsView,
        tape: Tape,
    ) -> ChatView {
        if self.command_blocked(facts) {
            self.turn_down(facts)
        } else if command == SlashCommand::Init && !facts.doc_exists {
            self.submit(local_message(facts.init_prompt, seq![]), tape)
        } else {
            self.run_command(command, facts)
        }
    }

    /// After a command with an argument.
    #[verifier::opaque]
    pub open spec fn command_with(
        self,
        command: SlashCommand,
        argument: Seq<char>,
        facts: CommandFactsView,
        tape: Tape,
    ) -> ChatView {
        let argument = text::trimmed(argument);
        if self.command_blocked(facts) {
            self.turn_down(facts)
        } else if command == SlashCommand::Review && argument.len() > 0 {
            self.emit(EffectView::Review { instructions: Some(argument) })
        } else if command == SlashCommand::Collab {
            if !self.collaboration_modes {
                self
            } else if facts.mode_known {
                self.emit(EffectView::SetMode(argument))
            } else if argument.len() > 0 {
                self.error(
                    "Unknown collaboration mode '"@ + argument + "'. Try: plan, pair, execute."@,
                ).redraw()
            } else {
                self
            }
        } else {
            self.command(command, facts, tape)
        }
    }
}

impl ChatWidget {
    /// Puts a note into the transcript.
    pub fn add_info_message(&mut self, message: &str)
        ensures
            final(self)@ == old(self)@.info(message@).redraw(),
            final(self)@.ids == old(self)@.ids,
    {
        proof {
            reveal(ChatView::emit);
        }
        self.add_info(message);
        self.request_redraw();
    }

    /// Puts an error into the transcript.
    pub fn add_error_message(&mut self, message: &str)
        ensures
            final(self)@ == old(self)@.error(message@).redraw(),
            final(self)@.ids == old(self)@.ids,
    {
        proof {
            reveal(ChatView::emit);
        }
        self.add_error(message);
        self.request_redraw();
    }

    fn ask_pane(&mut self, request: PaneRequest)
        ensures
            final(self)@ == old(self)@.pane(request),
            final(self)@.ids == old(self)@.ids,
    {
        self.emit_one(Effect::Pane(request));
    }

    /// Has a model chosen.
    pub fn open_model_popup(&mut self)
        ensures
            final(self)@ == old(self)@.open_models(),
            final(self)@.ids == old(self)@.ids,
    {
        proof {
            reveal(ChatView::open_models);
        }
        if self.get_conversation_id().is_none() {
            self.add_info_message("Model selection is disabled until startup completes.");
        } else {
            self.ask_pane(PaneRequest::Models);
        }
    }

    fn show_rollout(&mut self)
        ensures
            final(self)@ == old(self)@.show_rollout(),
            final(self)@.ids == old(self)@.ids,
    {
        proof {
            reveal(ChatView::show_rollout);
        }
        let message = match self.get_current_rollout_path() {
            Some(path) => text::concat2("Current rollout path: ", path.as_str()),
            None => "Rollout path is not available yet.".to_owned(),
        };
        self.add_info_message(message.as_str());
    }

    fn elevate(&mut self, elevation: &Elevation)
        ensures
            final(self)@ == old(self)@.elevate(elevation.deep_view()),
            final(self)@.ids == old(self)@.ids,
    {
        proof {
            reveal(ChatView::elevate);
        }
        match elevation {
            Elevation::Unavailable => {},
            Elevation::NoPreset => {
                self.add_error_message("Internal error: missing the 'auto' approval preset.");
            },
            Elevation::Refused { reason } => self.add_error_message(reason.as_str()),
            Elevation::Ready => self.ask_pane(PaneRequest::ElevatedSandbox),
        }
    }

    fn run_plain(&mut self, command: SlashCommand)
        ensures
            final(self)@ == old(self)@.run_plain(command),
            final(self)@.ids == old(self)@.ids,
    {
        proof {
            reveal(ChatView::run_plain);
        }
        let effect = match command {
            SlashCommand::New => Effect::NewSession,
            SlashCommand::Resume => Effect::OpenResumePicker,
            SlashCommand::Fork => Effect::ForkSession,
            SlashCommand::Weave => Effect::Pane(PaneRequest::WeaveSessions),
            SlashCommand::Review => Effect::Pane(PaneRequest::Review),
            SlashCommand::Approvals => Effect::Pane(PaneRequest::Approvals),
            SlashCommand::Quit => Effect::Exit { shutdown_first: true },
            SlashCommand::Exit => Effect::Exit { shutdown_first: true },
            SlashCommand::Logout => {
                self.ask_pane(PaneRequest::Logout);
                Effect::Exit { shutdown_first: true }
            },
            SlashCommand::Diff => {
                self.emit_one(Effect::Redraw);
                Effect::Pane(PaneRequest::Diff)
            },
            SlashCommand::Mention => Effect::InsertText("@".to_owned()),
            SlashCommand::Skills => Effect::InsertText("$".to_owned()),
            SlashCommand::Status => Effect::Pane(PaneRequest::StatusOutput),
            SlashCommand::TestApproval => Effect::Pane(PaneRequest::TestApproval),
            _ => return,
        };
        self.emit_one(effect);
    }

    fn open_feedback(&mut self)
        ensures
            final(self)@ == old(self)@.open_feedback(),
            final(self)@.ids == old(self)@.ids,
    {
        proof {
            reveal(ChatView::open_feedback);
        }
        let request = if self.get_feedback_enabled() {
            PaneRequest::Feedback
        } else {
            PaneRequest::FeedbackDisabled
        };
        self.emit_two(Effect::Pane(request), Effect::Redraw);
    }

    fn keep_doc(&mut self, doc_name: &str)
        ensures
            final(self)@ == old(self)@.keep_doc(doc_name@),
            final(self)@.ids == old(self)@.ids,
    {
        proof {
            reveal(ChatView::keep_doc);
        }
        let message = text::concat2(
            doc_name,
            " already exists here. Skipping /init to avoid overwriting it.",
        );
        self.add_info_message(message.as_str());
    }

    fn shorten(&mut self)
        ensures
            final(self)@ == old(self)@.shorten(),
            final(self)@.ids == old(self)@.ids,
    {
        proof {
            reveal(ChatView::shorten);
        }
        self.clear_token_usage();
        self.emit_one(Effect::Compact);
    }

    fn run_command(&mut self, command: SlashCommand, facts: &CommandFacts)
        ensures
            final(self)@ == old(self)@.run_command(command, facts.deep_view()),
            final(self)@.ids == old(self)@.ids,
    {
        proof {
            reveal(ChatView::run_command);
        }
        match command {
            SlashCommand::Feedback => self.open_feedback(),
            SlashCommand::Init => self.keep_doc(facts.doc_name.as_str()),
            SlashCommand::Compact => self.shorten(),
            SlashCommand::Model => self.open_model_popup(),
            SlashCommand::Collab => {
                if self.get_collaboration_modes() {
                    self.ask_pane(PaneRequest::NextMode);
                }
            },
            SlashCommand::ElevateSandbox => self.elevate(&facts.elevation),
            SlashCommand::Mcp => {
                if facts.has_tool_servers {
                    self.emit_one(Effect::ListTools);
                } else {
                    self.ask_pane(PaneRequest::NoTools);
                }
            },
            SlashCommand::Rollout => self.show_rollout(),
            _ => self.run_plain(command),
        }
    }

    fn turn_down(&mut self, facts: &CommandFacts)
        ensures
            final(self)@ == old(self)@.turn_down(facts.deep_view()),
            final(self)@.ids == old(self)@.ids,
    {
        proof {
            reveal(ChatView::turn_down);
        }
        let message = text::concat3(
            "'/",
            facts.name.as_str(),
            "' is disabled while a task is in progress.",
        );
        self.add_error_message(message.as_str());
    }

    /// Carries out a command.
    pub fn dispatch_command(&mut self, command: SlashCommand, facts: &CommandFacts)
        ensures
            state::extends(final(self)@.ids, old(self)@.ids),
            forall|tape: Tape|
                state::extends(tape, final(self)@.ids) ==> #[trigger] old(self)@.command(
                    command,
                    facts.deep_view(),
                    tape,
                ) == final(self)@,
    {
        proof {
            reveal(ChatView::command);
        }
        if !facts.available_during_task && self.get_task_running() {
            self.turn_down(facts);
            return;
        }
        if command == SlashCommand::Init && !facts.doc_exists {
            let images: Vec<String> = Vec::new();
            proof {
                assert(text::views(images@) =~= seq![]);
            }
            self.submit_user_message(UserMessage::local(facts.init_prompt.clone(), images));
        } else {
            self.run_command(command, facts);
        }
    }

    /// Carries out a command with an argument.
    pub fn dispatch_command_with_args(
        &mut self,
        command: SlashCommand,
        argument: &str,
        facts: &CommandFacts,
    )
        ensures
            state::extends(final(self)@.ids, old(self)@.ids),
            forall|tape: Tape|
                state::extends(tape, final(self)@.ids) ==> #[trigger] old(self)@.command_with(
                    command,
                    argument@,
                    facts.deep_view(),
                    tape,
                ) == final(self)@,
    {
        proof {
            reveal(ChatView::command_with);
        }
        if !facts.available_during_task && self.get_task_running() {
            self.turn_down(facts);
            return;
        }
        let argument = text::trim(argument);
        if command == SlashCommand::Review && !argument.is_empty() {
            self.emit_one(Effect::Review { instructions: Some(argument.to_owned()) });
        } else if command == SlashCommand::Collab {
            if !self.get_collaboration_modes() {
                return;
            }
            if facts.mode_known {
                self.emit_one(Effect::SetMode(argument.to_owned()));
            } else if !argument.is_empty() {
                let message = text::concat3(
                    "Unknown collaboration mode '",
                    argument,
                    "'. Try: plan, pair, execute.",
                );
                self.add_error_message(message.as_str());
            }
        } else {
            self.dispatch_command(command, facts);
        }
    }
}

/// What is shown of the changes in a folder: the changes, that there is no
/// repository, or why they could not be told.
pub fn diff_text(diff: Result<(bool, String), String>) -> (r: String)
    ensures
        r@ == match diff {
            Ok((is_git_repo, changes)) => if is_git_repo {
                changes@
            } else {
                "`/diff` — _not inside a git repository_"@
            },
            Err(error) => "Failed to compute diff: "@ + error@,
        },
{
    match diff {
        Ok((is_git_repo, changes)) => if is_git_repo {
            changes
        } else {
            "`/diff` — _not inside a git repository_".to_owned()
        },
        Err(error) => text::concat2("Failed to compute diff: ", error.as_str()),
    }
}

// ---------------------------------------------------------------------------
// What others ask
// ---------------------------------------------------------------------------

impl ChatWidget {
    /// Answers with this model from now on.
    pub fn set_model(&mut self, model: &str)
        ensures
            final(self)@ == (ChatView { model: Some(model@), ..old(self)@ }).emit(
                EffectView::HeaderModel(model@),
            ),
    {
        self.put_model(Some(model.to_owned()));
        self.emit(Effect::HeaderModel(model.to_owned()));
    }

    /// Before a frame is drawn: whether it is left out because of a paste, which
    /// was just `flushed` or is still `in_burst`.
    pub fn handle_paste_burst_tick(&mut self, flushed: bool, in_burst: bool) -> (r: bool)
        ensures
            r == (flushed || in_burst),
            final(self)@ == (if flushed {
                old(self)@.redraw()
            } else if in_burst {
                old(self)@.emit(EffectView::FlushPasteLater)
            } else {
                old(self)@
            }),
    {
        if flushed {
            self.request_redraw();
            true
        } else if in_burst {
            self.emit(Effect::FlushPasteLater);
            true
        } else {
            false
        }
    }

    /// Takes in whether there are modes of collaboration.
    pub fn set_collaboration_modes_enabled(&mut self, enabled: bool)
        ensures
            final(self)@ == (ChatView { collaboration_modes: enabled, ..old(self)@ }),
    {
        self.put_collaboration_modes(enabled);
    }

    /// What to call the model that answers.
    pub fn model_display_name(&self) -> (r: &str)
        ensures
            r@ == match self@.model {
                Some(model) => model,
                None => "loading"@,
            },
    {
        match self.get_model() {
            Some(model) => model.as_str(),
            None => "loading",
        }
    }

    /// Whether something runs.
    pub fn is_task_running(&self) -> (r: bool)
        ensures
            r == self@.task_running,
    {
        self.get_task_running()
    }

    /// The session, once it is set up.
    pub fn conversation_id(&self) -> (r: Option<&str>)
        ensures
            r.deep_view() == self@.conversation_id,
    {
        match self.get_conversation_id() {
            Some(id) => Some(id.as_str()),
            None => None,
        }
    }

    /// Where the session is kept, once that is known.
    pub fn rollout_path(&self) -> (r: Option<&str>)
        ensures
            r.deep_view() == self@.current_rollout_path,
    {
        match self.get_current_rollout_path() {
            Some(path) => Some(path.as_str()),
            None => None,
        }
    }

    /// Forgets how full the context is.
    pub fn clear_token_usage(&mut self)
        ensures
            final(self)@ == (ChatView { token_info: None, ..old(self)@ }),
    {
        self.put_token_info(None);
    }
}

// ---------------------------------------------------------------------------
// Laws
// ---------------------------------------------------------------------------

/// Where a quit key is to be pressed twice, a press of Control and C quits only
/// if it follows another press of the same key in time, and the pane has nothing
/// to cancel.
pub proof fn law_quitting_takes_two_presses(
    chat: ChatView,
    pane: PaneState,
    quit: QuitSettings,
    now: u64,
)
    requires
        quit.double_press,
        chat.ctrl_c(pane, quit, now).outbox.last() == (EffectView::Exit { shutdown_first: true }),
        chat.ctrl_c(pane, quit, now).outbox.len() > chat.outbox.len(),
    ensures
        !pane.cancel_handled,
        chat.quit_armed(QuitKey::CtrlC, now),
{
    reveal(ChatView::ctrl_c);
    reveal(ChatView::arm_quit);
    reveal(ChatView::forget_quit_key);
    reveal(ChatView::emit);
}

/// The second press of Control and C in time quits, whatever runs; a later one
/// starts anew.
pub proof fn law_the_second_press_quits(
    chat: ChatView,
    pane: PaneState,
    quit: QuitSettings,
    first: u64,
    second: u64,
)
    requires
        quit.double_press,
        !pane.cancel_handled,
        !chat.quit_armed(QuitKey::CtrlC, first),
        first <= second,
        first + quit.timeout_ms <= u64::MAX,
    ensures
        ({
            let armed = chat.ctrl_c(pane, quit, first);
            if second < first + quit.timeout_ms {
                armed.ctrl_c(pane, quit, second) == armed.quit_by_key()
            } else {
                armed.ctrl_c(pane, quit, second).quit_shortcut_expires_at
                    == armed.arm_quit(QuitKey::CtrlC, quit, second).quit_shortcut_expires_at
            }
        }),
{
    reveal(ChatView::ctrl_c);
    reveal(ChatView::arm_quit);
    reveal(ChatView::emit);
}

/// While something is in the composer or open, Control and D is for that: it does
/// not quit, whatever was pressed before.
pub proof fn law_what_is_open_gets_the_key(
    chat: ChatView,
    pane: PaneState,
    quit: QuitSettings,
    now: u64,
)
    requires
        !pane.composer_empty || pane.popup_active,
    ensures
        chat.ctrl_d(pane, quit, now) == (chat, false),
        chat.press(KeyClass::CtrlD, pane, quit, now) == (
            chat.forget_quit_key(),
            KeyOutcome::GiveToPane,
        ),
{
    reveal(ChatView::ctrl_d);
    reveal(ChatView::press);
}

/// Where a quit key is to be pressed twice, Control and D quits only if it follows
/// another press of the same key in time.
pub proof fn law_quitting_by_d_takes_two_presses(
    chat: ChatView,
    pane: PaneState,
    quit: QuitSettings,
    now: u64,
)
    requires
        quit.double_press,
        pane.composer_empty,
        !pane.popup_active,
    ensures
        chat.ctrl_d(pane, quit, now) == (
            if chat.quit_armed(QuitKey::CtrlD, now) {
                chat.quit_by_key()
            } else {
                chat.arm_quit(QuitKey::CtrlD, quit, now)
            },
            true,
        ),
{
    reveal(ChatView::ctrl_d);
}

/// Any other key that is pressed in between forgets the first press.
pub proof fn law_another_key_forgets_the_first_press(
    chat: ChatView,
    key: KeyClass,
    pane: PaneState,
    quit: QuitSettings,
    now: u64,
    quit_key: QuitKey,
    later: u64,
)
    requires
        key == KeyClass::Press || key == KeyClass::BackTab || key == KeyClass::AltUp,
    ensures
        !chat.press(key, pane, quit, now).0.quit_armed(quit_key, later),
{
    reveal(ChatView::press);
    reveal(ChatView::forget_quit_key);
    reveal(ChatView::edit_queued);
    reveal(ChatView::refresh_queue);
    reveal(ChatView::emit);
}

/// While something runs, a command that has to wait does nothing but say so.
pub proof fn law_commands_wait_for_the_task(
    chat: ChatView,
    command: SlashCommand,
    argument: Seq<char>,
    facts: CommandFactsView,
    tape: Tape,
)
    requires
        chat.task_running,
        !facts.available_during_task,
    ensures
        chat.command(command, facts, tape) == chat.turn_down(facts),
        chat.command_with(command, argument, facts, tape) == chat.turn_down(facts),
{
    reveal(ChatView::command);
    reveal(ChatView::command_with);
}

/// Keys are told apart by what is pressed: with control, `c` and `d` of either case are
/// the two keys to quit with; with control or alt, `v` pastes an image.
pub proof fn law_keys_are_told_apart(key: KeyInput, c: char)
    ensures
        !key.pressed ==> class_of(key) == KeyClass::NoPress,
        key.pressed && key.code == KeyCode::Char(c) && key.control && (c == 'c' || c == 'C')
            ==> class_of(key) == KeyClass::CtrlC,
        key.pressed && key.code == KeyCode::Char(c) && key.control && (c == 'd' || c == 'D')
            ==> class_of(key) == KeyClass::CtrlD,
        key.pressed && key.code == KeyCode::Char(c) && (key.control || key.alt) && (c == 'v' || c
            == 'V') ==> class_of(key) == KeyClass::PasteImage,
        key.pressed && key.code == KeyCode::Char(c) && !key.control && !key.alt ==> class_of(key)
            == KeyClass::Press,
        key.pressed && key.code == KeyCode::BackTab ==> class_of(key) == KeyClass::BackTab,
        key.pressed && key.code == KeyCode::Up ==> (class_of(key) == KeyClass::AltUp <==> key.alt
            && !key.control && !key.others),
        class_of(key) == KeyClass::CtrlC ==> key.pressed && key.control,
        class_of(key) == KeyClass::CtrlD ==> key.pressed && key.control,
{
}

/// What each command without an argument asks for, where it may run.
pub proof fn law_each_command_asks_for_its_own(chat: ChatView, facts: CommandFactsView, tape: Tape)
    requires
        facts.available_during_task || !chat.task_running,
    ensures
        chat.command(SlashCommand::New, facts, tape) == chat.emit(EffectView::NewSession),
        chat.command(SlashCommand::Resume, facts, tape) == chat.emit(EffectView::OpenResumePicker),
        chat.command(SlashCommand::Fork, facts, tape) == chat.emit(EffectView::ForkSession),
        chat.command(SlashCommand::Compact, facts, tape) == (ChatView {
            token_info: None,
            ..chat
        }).emit(EffectView::Compact),
        chat.command(SlashCommand::Review, facts, tape) == chat.emit(
            EffectView::Pane(PaneRequest::Review),
        ),
        chat.command(SlashCommand::Approvals, facts, tape) == chat.emit(
            EffectView::Pane(PaneRequest::Approvals),
        ),
        chat.command(SlashCommand::Weave, facts, tape) == chat.emit(
            EffectView::Pane(PaneRequest::WeaveSessions),
        ),
        chat.command(SlashCommand::Quit, facts, tape) == chat.emit(
            EffectView::Exit { shutdown_first: true },
        ),
        chat.command(SlashCommand::Exit, facts, tape) == chat.emit(
            EffectView::Exit { shutdown_first: true },
        ),
        chat.command(SlashCommand::Logout, facts, tape) == chat.emit(
            EffectView::Pane(PaneRequest::Logout),
        ).emit(EffectView::Exit { shutdown_first: true }),
        chat.command(SlashCommand::Diff, facts, tape) == chat.emit(EffectView::Redraw).emit(
            EffectView::Pane(PaneRequest::Diff),
        ),
        chat.command(SlashCommand::Mention, facts, tape) == chat.emit(
            EffectView::InsertText("@"@),
        ),
        chat.command(SlashCommand::Skills, facts, tape) == chat.emit(EffectView::InsertText("$"@)),
        chat.command(SlashCommand::Status, facts, tape) == chat.emit(
            EffectView::Pane(PaneRequest::StatusOutput),
        ),
        facts.has_tool_servers ==> chat.command(SlashCommand::Mcp, facts, tape) == chat.emit(
            EffectView::ListTools,
        ),
        !facts.has_tool_servers ==> chat.command(SlashCommand::Mcp, facts, tape) == chat.emit(
            EffectView::Pane(PaneRequest::NoTools),
        ),
        chat.conversation_id is Some ==> chat.command(SlashCommand::Model, facts, tape)
            == chat.emit(EffectView::Pane(PaneRequest::Models)),
        chat.feedback_enabled ==> chat.command(SlashCommand::Feedback, facts, tape) == chat.emit(
            EffectView::Pane(PaneRequest::Feedback),
        ).emit(EffectView::Redraw),
        !chat.feedback_enabled ==> chat.command(SlashCommand::Feedback, facts, tape) == chat.emit(
            EffectView::Pane(PaneRequest::FeedbackDisabled),
        ).emit(EffectView::Redraw),
        facts.doc_exists ==> chat.command(SlashCommand::Init, facts, tape) == chat.emit(
            EffectView::History(
                HistoryView::Info {
                    message: facts.doc_name
                        + " already exists here. Skipping /init to avoid overwriting it."@,
                    hint: None,
                },
            ),
        ).emit(EffectView::Redraw),
        !facts.doc_exists ==> chat.command(SlashCommand::Init, facts, tape) == chat.submit(
            UserMessageView {
                text: facts.init_prompt,
                image_paths: seq![],
                source: SourceView::Local,
            },
            tape,
        ),
        chat.current_rollout_path matches Some(path) ==> chat.command(
            SlashCommand::Rollout,
            facts,
            tape,
        ) == chat.emit(
            EffectView::History(
                HistoryView::Info { message: "Current rollout path: "@ + path, hint: None },
            ),
        ).emit(EffectView::Redraw),
{
    reveal(ChatView::command);
    reveal(ChatView::run_command);
    reveal(ChatView::run_plain);
    reveal(ChatView::pane);
    reveal(ChatView::quit);
    reveal(ChatView::shorten);
    reveal(ChatView::open_models);
    reveal(ChatView::open_feedback);
    reveal(ChatView::keep_doc);
    reveal(ChatView::show_rollout);
}

/// With an argument, a review goes by it, and a mode that is known is set; every other
/// command takes no argument.
pub proof fn law_arguments_are_taken(
    chat: ChatView,
    command: SlashCommand,
    argument: Seq<char>,
    facts: CommandFactsView,
    tape: Tape,
)
    requires
        facts.available_during_task || !chat.task_running,
    ensures
        text::trimmed(argument).len() > 0 ==> chat.command_with(
            SlashCommand::Review,
            argument,
            facts,
            tape,
        ) == chat.emit(EffectView::Review { instructions: Some(text::trimmed(argument)) }),
        text::trimmed(argument).len() == 0 ==> chat.command_with(
            SlashCommand::Review,
            argument,
            facts,
            tape,
        ) == chat.command(SlashCommand::Review, facts, tape),
        chat.collaboration_modes && facts.mode_known ==> chat.command_with(
            SlashCommand::Collab,
            argument,
            facts,
            tape,
        ) == chat.emit(EffectView::SetMode(text::trimmed(argument))),
        command != SlashCommand::Review && command != SlashCommand::Collab ==> chat.command_with(
            command,
            argument,
            facts,
            tape,
        ) == chat.command(command, facts, tape),
{
    reveal(ChatView::command_with);
}

/// The text that waits last can be taken back: it goes into the composer and waits no
/// more, and all others wait on.
pub proof fn law_the_last_text_is_taken_back(
    chat: ChatView,
    pane: PaneState,
    quit: QuitSettings,
    now: u64,
)
    requires
        chat.queued_user_messages.len() > 0,
    ensures
        ({
            let (after, outcome) = chat.press(KeyClass::AltUp, pane, quit, now);
            let text = EffectView::ComposerText(chat.queued_user_messages.last().text);
            &&& outcome == KeyOutcome::Done
            &&& after.queued_user_messages == chat.queued_user_messages.drop_last()
            &&& exists|k: int|
                chat.outbox.len() <= k < after.outbox.len() && #[trigger] after.outbox[k] == text
        }),
{
    reveal(ChatView::press);
    reveal(ChatView::edit_queued);
    reveal(ChatView::forget_quit_key);
    reveal(ChatView::refresh_queue);
    reveal(ChatView::emit);
    let after = chat.press(KeyClass::AltUp, pane, quit, now).0;
    assert(after.outbox[chat.outbox.len() as int + 1] == EffectView::ComposerText(
        chat.queued_user_messages.last().text,
    ));
}

/// While something runs, control and `c` stops it, whether a second press is needed to
/// quit or not.
pub proof fn law_a_press_stops_what_runs(
    chat: ChatView,
    pane: PaneState,
    quit: QuitSettings,
    now: u64,
)
    requires
        chat.task_running || chat.is_review_mode,
        !pane.cancel_handled,
        chat.quit_shortcut_key is None,
    ensures
        ({
            let after = chat.press(KeyClass::CtrlC, pane, quit, now).0;
            after.outbox.len() > chat.outbox.len() && after.outbox.last() == EffectView::Interrupt
        }),
{
    reveal(ChatView::press);
    reveal(ChatView::ctrl_c);
    reveal(ChatView::arm_quit);
    reveal(ChatView::emit);
}

/// An image that was pasted is attached; the user hears why one was not.
pub proof fn law_a_pasted_image_is_attached(chat: ChatView, said: Seq<char>)
    ensures
        chat.pasted(Ok(said)) == chat.emit(EffectView::AttachImage(said)).emit(EffectView::Redraw),
        chat.pasted(Err(said)) == chat.emit(
            EffectView::History(HistoryView::Error("Failed to paste image: "@ + said)),
        ),
{
    reveal(ChatView::pasted);
}

} // verus!

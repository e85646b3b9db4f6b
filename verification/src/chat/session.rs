//! Sessions with other agents: which one is selected, and what a new chat takes
//! over.

use vstd::prelude::*;

use crate::chat::state::{ChatView, ChatWidget};
use crate::chat::steps;
use crate::chat::types::{Effect, EffectView, WeaveSnapshotView, WeaveStateSnapshot};
use crate::client;
use crate::client::{WeaveAgent, WeaveIncomingMessage, WeaveSession};
use crate::menus;
use crate::menus::Menu;
use crate::text;

verus! {

// ---------------------------------------------------------------------------
// The selected session
// ---------------------------------------------------------------------------

/// The id and the name to show of a session.
pub open spec fn session_names(session: Option<WeaveSession<Seq<char>>>) -> (
    Option<Seq<char>>,
    Option<Seq<char>>,
) {
    match session {
        Some(session) => (
            Some(session.id),
            Some(client::shown_name(session.id, session.name)),
        ),
        None => (None, None),
    }
}

impl ChatView {
    /// With nothing known of other agents.
    #[verifier::opaque]
    pub open spec fn forget_agents(self) -> ChatView {
        ChatView {
            weave_agents: None,
            pending_weave_relay: None,
            active_weave_relay: None,
            active_weave_plan: None,
            pending_weave_plan: false,
            weave_relay_buffer: seq![],
            weave_inbound_task_ids: seq![],
            weave_target_states: seq![],
            pending_weave_action_messages: seq![],
            pending_weave_new_session_result: None,
            pending_weave_new_session_context: None,
            pending_weave_new_session: false,
            active_weave_control_context: None,
            ..self
        }
    }

    /// Without a connection.
    #[verifier::opaque]
    pub open spec fn hang_up(self) -> ChatView {
        if self.weave_connected {
            (ChatView { weave_connected: false, ..self }).emit(EffectView::Disconnect)
        } else {
            self
        }
    }

    /// After the session was left.
    pub open spec fn disconnect(self) -> ChatView {
        self.hang_up().forget_agents().emit(EffectView::WeaveAgents(None)).refresh_label()
    }

    /// With these agents known and shown.
    #[verifier::opaque]
    pub open spec fn with_agents(self, agents: Option<Seq<WeaveAgent<Seq<char>>>>) -> ChatView {
        (ChatView { weave_agents: agents, ..self }).emit(EffectView::WeaveAgents(agents))
    }

    /// With this session selected.
    #[verifier::opaque]
    pub open spec fn with_session(self, id: Option<Seq<char>>, name: Option<Seq<char>>) -> ChatView {
        (ChatView {
            selected_weave_session_id: id,
            selected_weave_session_name: name,
            ..self
        }).refresh_label()
    }

    /// With the coordinator asked for a connection.
    #[verifier::opaque]
    pub open spec fn connect(self, session_id: Seq<char>) -> ChatView {
        self.emit(
            EffectView::Connect {
                session_id,
                agent_id: self.weave_agent_id,
                agent_name: self.weave_agent_name,
            },
        )
    }

    /// After a session was selected, or none.
    #[verifier::opaque]
    pub open spec fn select_session(self, session: Option<WeaveSession<Seq<char>>>) -> ChatView {
        let (id, name) = session_names(session);
        if self.selected_weave_session_id == id && self.selected_weave_session_name == name {
            self
        } else {
            let selected = self.disconnect().with_session(id, name);
            match id {
                Some(id) => selected.with_agents(Some(seq![])).connect(id),
                None => selected.with_agents(None),
            }
        }
    }

    /// After a session was closed, or no connection to it could be had.
    pub open spec fn leave_session(self, session_id: Seq<char>) -> ChatView {
        if self.selected_weave_session_id == Some(session_id) {
            self.select_session(None)
        } else {
            self
        }
    }

    /// After the connection to a session was lost.
    #[verifier::opaque]
    pub open spec fn lose_session(self, session_id: Seq<char>) -> ChatView {
        if self.selected_weave_session_id == Some(session_id) {
            let label = match self.selected_weave_session_name {
                Some(name) => name,
                None => session_id,
            };
            self.select_session(None).error("Weave session closed: "@ + label)
        } else {
            self
        }
    }

    /// With the coordinator asked for the agents of the session.
    #[verifier::opaque]
    pub open spec fn list_agents(self) -> ChatView {
        match self.selected_weave_session_id {
            Some(session_id) => self.emit(
                EffectView::ListAgents { session_id, src: self.weave_agent_id },
            ),
            None => self,
        }
    }

    /// After a connection was made. One for a session that is no longer selected
    /// is refused.
    #[verifier::opaque]
    pub open spec fn connected(self, session_id: Seq<char>) -> ChatView {
        if self.selected_weave_session_id == Some(session_id) {
            (ChatView {
                weave_connected: true,
                ..self.emit(EffectView::WatchIncoming { session_id })
            }).list_agents().report_new_session()
        } else {
            self.emit(EffectView::RefuseConnection)
        }
    }

    /// After the agents of a session were listed.
    #[verifier::opaque]
    pub open spec fn agents_listed(
        self,
        session_id: Seq<char>,
        agents: Seq<WeaveAgent<Seq<char>>>,
    ) -> ChatView {
        if self.selected_weave_session_id == Some(session_id) {
            self.with_agents(Some(agents)).redraw()
        } else {
            self
        }
    }

    /// After the user has named this agent.
    #[verifier::opaque]
    pub open spec fn rename(self, name: Seq<char>) -> ChatView {
        let name = text::trimmed(name);
        if name.len() == 0 || self.weave_agent_name == name {
            self
        } else {
            let named = ChatView { weave_agent_name: name, ..self };
            let shown = if self.selected_weave_session_id is Some {
                named.refresh_label()
            } else {
                named
            };
            if self.weave_connected {
                shown.emit(EffectView::RenameAgent(name))
            } else {
                shown
            }
        }
    }
}

impl ChatWidget {
    fn forget_weave_agents(&mut self)
        ensures
            final(self)@ == old(self)@.forget_agents(),
    {
        proof {
            reveal(ChatView::forget_agents);
        }
        self.put_weave_agents(None);
        self.put_pending_weave_relay(None);
        self.put_active_weave_relay(None);
        self.put_active_weave_plan(None);
        self.put_pending_weave_plan(false);
        let _ = self.take_weave_relay_buffer();
        let _ = self.take_weave_inbound_task_ids();
        let _ = self.take_weave_target_states();
        let _ = self.take_pending_weave_action_messages();
        self.put_pending_weave_new_session_result(None);
        self.put_pending_weave_new_session_context(None);
        self.put_pending_weave_new_session(false);
        self.put_active_weave_control_context(None);
    }

    fn hang_up(&mut self)
        ensures
            final(self)@ == old(self)@.hang_up(),
    {
        proof {
            reveal(ChatView::hang_up);
        }
        if self.get_weave_connected() {
            self.put_weave_connected(false);
            self.emit(Effect::Disconnect);
        }
    }

    /// Leaves the session with other agents, as when the chat goes away.
    pub fn disconnect_weave_agent(&mut self)
        ensures
            final(self)@ == old(self)@.disconnect(),
    {
        self.hang_up();
        self.forget_weave_agents();
        self.emit(Effect::WeaveAgents(None));
        self.refresh_weave_session_label();
    }

    fn show_weave_agents(&mut self, agents: Option<Vec<WeaveAgent>>)
        ensures
            final(self)@ == old(self)@.with_agents(agents.deep_view()),
    {
        proof {
            reveal(ChatView::with_agents);
        }
        let shown = match &agents {
            Some(agents) => Some(steps::copy_agents(agents)),
            None => None,
        };
        self.put_weave_agents(agents);
        self.emit(Effect::WeaveAgents(shown));
    }

    fn set_session(&mut self, id: Option<String>, name: Option<String>)
        ensures
            final(self)@ == old(self)@.with_session(id.deep_view(), name.deep_view()),
    {
        proof {
            reveal(ChatView::with_session);
        }
        self.put_selected_weave_session_id(id);
        self.put_selected_weave_session_name(name);
        self.refresh_weave_session_label();
    }

    fn connect_weave_agent(&mut self, session_id: String)
        ensures
            final(self)@ == old(self)@.connect(session_id@),
    {
        proof {
            reveal(ChatView::connect);
        }
        let agent_id = self.get_weave_agent_id().to_owned();
        let agent_name = self.get_weave_agent_name().to_owned();
        self.emit(Effect::Connect { session_id, agent_id, agent_name });
    }

    /// Selects a session, or none. The one before is left.
    pub fn set_weave_session_selection(&mut self, session: Option<WeaveSession>)
        ensures
            final(self)@ == old(self)@.select_session(session.deep_view()),
    {
        proof {
            reveal(ChatView::select_session);
        }
        let (id, name) = match &session {
            Some(session) => (Some(session.id.clone()), Some(session.display_name())),
            None => (None, None),
        };
        if text::same_option(self.get_selected_weave_session_id(), &id) && text::same_option(
            self.get_selected_weave_session_name(),
            &name,
        ) {
            return;
        }
        let session_id = text::copy_option(&id);
        self.disconnect_weave_agent();
        self.set_session(id, name);
        match session_id {
            Some(session_id) => {
                let none: Vec<WeaveAgent> = Vec::new();
                proof {
                    assert(none.deep_view() =~= seq![]);
                }
                self.show_weave_agents(Some(none));
                self.connect_weave_agent(session_id);
            },
            None => self.show_weave_agents(None),
        }
    }

    pub(super) fn selects(&self, session_id: &str) -> (r: bool)
        ensures
            r == (self@.selected_weave_session_id == Some(session_id@)),
    {
        match self.get_selected_weave_session_id() {
            Some(selected) => text::same(selected.as_str(), session_id),
            None => false,
        }
    }

    /// Takes in that a session was closed.
    pub fn on_weave_session_closed(&mut self, session_id: &str)
        ensures
            final(self)@ == old(self)@.leave_session(session_id@),
    {
        if self.selects(session_id) {
            self.set_weave_session_selection(None);
        }
    }

    /// Takes in that no connection to a session could be had.
    pub fn on_weave_agent_connect_failed(&mut self, session_id: &str)
        ensures
            final(self)@ == old(self)@.leave_session(session_id@),
    {
        if self.selects(session_id) {
            self.set_weave_session_selection(None);
        }
    }

    /// Takes in that the connection to a session was lost.
    pub fn on_weave_agent_disconnected(&mut self, session_id: &str)
        ensures
            final(self)@ == old(self)@.lose_session(session_id@),
    {
        proof {
            reveal(ChatView::lose_session);
        }
        if !self.selects(session_id) {
            return;
        }
        let label = match self.get_selected_weave_session_name() {
            Some(name) => name.clone(),
            None => session_id.to_owned(),
        };
        self.set_weave_session_selection(None);
        let line = text::concat2("Weave session closed: ", label.as_str());
        self.add_error(line.as_str());
    }

    /// Asks for the agents of the session.
    pub fn request_weave_agent_list(&mut self)
        ensures
            final(self)@ == old(self)@.list_agents(),
    {
        proof {
            reveal(ChatView::list_agents);
        }
        let session_id = match self.get_selected_weave_session_id() {
            Some(session_id) => session_id.clone(),
            None => return,
        };
        let src = self.get_weave_agent_id().to_owned();
        self.emit(Effect::ListAgents { session_id, src });
    }

    /// Takes in that a connection was made.
    pub fn on_weave_agent_connected(&mut self, session_id: &str)
        ensures
            final(self)@ == old(self)@.connected(session_id@),
    {
        proof {
            reveal(ChatView::connected);
        }
        if !self.selects(session_id) {
            self.emit(Effect::RefuseConnection);
            return;
        }
        self.emit(Effect::WatchIncoming { session_id: session_id.to_owned() });
        self.put_weave_connected(true);
        self.request_weave_agent_list();
        self.maybe_send_pending_weave_new_session_result();
    }

    /// Takes in the agents of a session.
    pub fn apply_weave_agent_list(&mut self, session_id: &str, agents: Vec<WeaveAgent>)
        ensures
            final(self)@ == old(self)@.agents_listed(session_id@, agents.deep_view()),
    {
        proof {
            reveal(ChatView::agents_listed);
        }
        if !self.selects(session_id) {
            return;
        }
        self.show_weave_agents(Some(agents));
        self.request_redraw();
    }

    /// Names this agent.
    pub fn set_weave_agent_name(&mut self, name: &str)
        ensures
            final(self)@ == old(self)@.rename(name@),
    {
        proof {
            reveal(ChatView::rename);
        }
        let name = text::trim(name);
        if name.is_empty() || text::same(self.get_weave_agent_name(), name) {
            return;
        }
        let connected = self.get_weave_connected();
        let selected = self.get_selected_weave_session_id().is_some();
        self.put_weave_agent_name(name.to_owned());
        if selected {
            self.refresh_weave_session_label();
        }
        if connected {
            self.emit(Effect::RenameAgent(name.to_owned()));
        }
    }
}

// ---------------------------------------------------------------------------
// What a new chat takes over
// ---------------------------------------------------------------------------

impl ChatView {
    /// What a new chat takes over.
    pub open spec fn snapshot(self) -> WeaveSnapshotView {
        WeaveSnapshotView {
            session_id: self.selected_weave_session_id,
            session_name: if self.selected_weave_session_id is Some
                && self.selected_weave_session_name == self.selected_weave_session_id {
                None
            } else if self.selected_weave_session_id is None {
                None
            } else {
                self.selected_weave_session_name
            },
            agent_id: self.weave_agent_id,
            agent_name: self.weave_agent_name,
            connected: self.weave_connected,
            pending_new_session_result: self.pending_weave_new_session_result,
            pending_new_session_context: self.pending_weave_new_session_context,
            pending_action_messages: self.pending_weave_action_messages,
        }
    }

    /// Without what a new chat takes over.
    #[verifier::opaque]
    pub open spec fn handed_over(self) -> ChatView {
        ChatView {
            weave_connected: false,
            pending_weave_new_session_result: None,
            pending_weave_new_session_context: None,
            pending_weave_action_messages: seq![],
            ..self
        }
    }

    /// With the identity and the open ends of the chat before.
    #[verifier::opaque]
    pub open spec fn take_over(self, snapshot: WeaveSnapshotView) -> ChatView {
        (ChatView {
            weave_agent_id: snapshot.agent_id,
            weave_agent_name: snapshot.agent_name,
            pending_weave_new_session_result: snapshot.pending_new_session_result,
            pending_weave_new_session_context: snapshot.pending_new_session_context,
            pending_weave_action_messages: snapshot.pending_action_messages,
            ..self
        }).emit(EffectView::WeaveIdentity(snapshot.agent_id))
    }

    /// With the connection of the chat before.
    #[verifier::opaque]
    pub open spec fn take_connection(self, id: Option<Seq<char>>, name: Option<Seq<char>>) -> ChatView {
        (ChatView {
            weave_connected: true,
            selected_weave_session_id: id,
            selected_weave_session_name: name,
            ..self
        }).with_agents(None).refresh_label()
    }

    /// After a new chat has taken over from the one before.
    #[verifier::opaque]
    pub open spec fn restore(self, snapshot: WeaveSnapshotView) -> ChatView {
        let taken = self.take_over(snapshot);
        if snapshot.connected {
            taken.take_connection(
                snapshot.session_id,
                snapshot.session_name,
            ).list_agents().report_new_session()
        } else {
            taken.select_session(
                match snapshot.session_id {
                    Some(id) => Some(WeaveSession { id, name: snapshot.session_name }),
                    None => None,
                },
            )
        }
    }
}

impl ChatWidget {
    fn take_open_ends(&mut self) -> (r: Vec<WeaveIncomingMessage>)
        ensures
            r.deep_view() == old(self)@.pending_weave_action_messages,
            final(self)@ == old(self)@.handed_over(),
    {
        proof {
            reveal(ChatView::handed_over);
        }
        self.put_weave_connected(false);
        self.put_pending_weave_new_session_result(None);
        self.put_pending_weave_new_session_context(None);
        self.take_pending_weave_action_messages()
    }

    /// What a new chat takes over. This chat no longer has it.
    pub fn take_weave_state(&mut self) -> (r: WeaveStateSnapshot)
        ensures
            r.deep_view() == old(self)@.snapshot(),
            final(self)@ == old(self)@.handed_over(),
    {
        let session_name = match (
            self.get_selected_weave_session_id(),
            self.get_selected_weave_session_name(),
        ) {
            (Some(id), Some(name)) => if text::same(name.as_str(), id.as_str()) {
                None
            } else {
                Some(name.clone())
            },
            _ => None,
        };
        let session_id = text::copy_option(self.get_selected_weave_session_id());
        let agent_id = self.get_weave_agent_id().to_owned();
        let agent_name = self.get_weave_agent_name().to_owned();
        let connected = self.get_weave_connected();
        let result = match self.get_pending_weave_new_session_result() {
            Some(result) => Some(result.clone()),
            None => None,
        };
        let context = match self.get_pending_weave_new_session_context() {
            Some(context) => Some(context.clone()),
            None => None,
        };
        let messages = self.take_open_ends();
        WeaveStateSnapshot {
            session_id,
            session_name,
            agent_id,
            agent_name,
            connected,
            pending_new_session_result: result,
            pending_new_session_context: context,
            pending_action_messages: messages,
        }
    }

    fn take_over(&mut self, snapshot: WeaveStateSnapshot)
        ensures
            final(self)@ == old(self)@.take_over(snapshot.deep_view()),
    {
        proof {
            reveal(ChatView::take_over);
        }
        let shown = snapshot.agent_id.clone();
        self.put_weave_agent_id(snapshot.agent_id);
        self.put_weave_agent_name(snapshot.agent_name);
        self.put_pending_weave_new_session_result(snapshot.pending_new_session_result);
        self.put_pending_weave_new_session_context(snapshot.pending_new_session_context);
        self.put_pending_weave_action_messages(snapshot.pending_action_messages);
        self.emit(Effect::WeaveIdentity(shown));
    }

    fn take_connection(&mut self, id: Option<String>, name: Option<String>)
        ensures
            final(self)@ == old(self)@.take_connection(id.deep_view(), name.deep_view()),
    {
        proof {
            reveal(ChatView::take_connection);
        }
        self.put_weave_connected(true);
        self.put_selected_weave_session_id(id);
        self.put_selected_weave_session_name(name);
        self.show_weave_agents(None);
        self.refresh_weave_session_label();
    }

    /// Takes over from the chat before.
    pub fn restore_weave_state(&mut self, snapshot: WeaveStateSnapshot)
        ensures
            final(self)@ == old(self)@.restore(snapshot.deep_view()),
    {
        proof {
            reveal(ChatView::restore);
        }
        let connected = snapshot.connected;
        let session_id = text::copy_option(&snapshot.session_id);
        let session_name = text::copy_option(&snapshot.session_name);
        self.take_over(snapshot);
        if connected {
            self.take_connection(session_id, session_name);
            self.request_weave_agent_list();
            self.maybe_send_pending_weave_new_session_result();
        } else {
            let session = match session_id {
                Some(id) => Some(WeaveSession { id, name: session_name }),
                None => None,
            };
            self.set_weave_session_selection(session);
        }
    }
}

// ---------------------------------------------------------------------------
// What the user is told
// ---------------------------------------------------------------------------

impl ChatWidget {
    fn selected_session(&self) -> (r: Option<&str>)
        ensures
            r.deep_view() == self@.selected_weave_session_id,
    {
        match self.get_selected_weave_session_id() {
            Some(id) => Some(id.as_str()),
            None => None,
        }
    }

    /// The menu of these sessions.
    pub fn open_weave_session_menu(&self, sessions: Vec<WeaveSession>) -> (r: Menu)
        ensures
            r.deep_view() == menus::session_menu(
                sessions.deep_view(),
                self@.selected_weave_session_id,
                self@.weave_agent_name,
            ),
    {
        menus::open_weave_session_menu(
            sessions,
            self.selected_session(),
            self.get_weave_agent_name(),
        )
    }

    /// The menu of these sessions, to close one of them.
    pub fn open_weave_session_close_menu(&self, sessions: Vec<WeaveSession>) -> (r: Menu)
        ensures
            r.deep_view() == menus::close_menu(
                sessions.deep_view(),
                self@.selected_weave_session_id,
            ),
    {
        menus::open_weave_session_close_menu(sessions, self.selected_session())
    }
}

/// What happened to a session, by its name, and by its id where that differs.
pub open spec fn session_line(what: Seq<char>, session: WeaveSession<Seq<char>>) -> Seq<char> {
    let label = client::shown_name(session.id, session.name);
    if label == session.id {
        what + " Weave session "@ + label
    } else {
        what + " Weave session "@ + label + " ("@ + session.id + ")"@
    }
}

fn tell_session(what: &str, session: &WeaveSession) -> (r: String)
    ensures
        r@ == session_line(what@, session.deep_view()),
{
    let label = session.display_name();
    let mut r = text::concat3(what, " Weave session ", label.as_str());
    if !text::same(label.as_str(), session.id.as_str()) {
        r.append(" (");
        r.append(session.id.as_str());
        r.append(")");
    }
    r
}

/// What the user is told of a new session.
pub fn session_created(session: &WeaveSession) -> (r: String)
    ensures
        r@ == session_line("Created"@, session.deep_view()),
{
    tell_session("Created", session)
}

/// What the user is told of a session that was closed.
pub fn session_closed(session: &WeaveSession) -> (r: String)
    ensures
        r@ == session_line("Closed"@, session.deep_view()),
{
    tell_session("Closed", session)
}

// ---------------------------------------------------------------------------
// Laws
// ---------------------------------------------------------------------------

/// Without a session nothing of other agents is left: no agents, no task, no
/// message that waits.
pub proof fn law_leaving_forgets_other_agents(a: ChatView, session_id: Seq<char>)
    requires
        a.selected_weave_session_id == Some(session_id),
    ensures
        a.leave_session(session_id).selected_weave_session_id is None,
        !a.leave_session(session_id).weave_connected,
        a.leave_session(session_id).weave_agents is None,
        a.leave_session(session_id).active_weave_relay is None,
        a.leave_session(session_id).pending_weave_relay is None,
        a.leave_session(session_id).weave_target_states.len() == 0,
        a.leave_session(session_id).pending_weave_action_messages.len() == 0,
        !a.leave_session(session_id).awaits_session(),
{
    reveal(ChatView::select_session);
    reveal(ChatView::hang_up);
    reveal(ChatView::forget_agents);
    reveal(ChatView::refresh_label);
    reveal(ChatView::with_session);
    reveal(ChatView::with_agents);
    reveal(ChatView::emit);
}

/// To select the session that is selected already changes nothing.
pub proof fn law_selecting_again_changes_nothing(a: ChatView, session: WeaveSession<Seq<char>>)
    ensures
        a.select_session(Some(session)).select_session(Some(session)) == a.select_session(
            Some(session),
        ),
{
    reveal(ChatView::select_session);
    reveal(ChatView::with_session);
    reveal(ChatView::refresh_label);
    reveal(ChatView::with_agents);
    reveal(ChatView::connect);
    reveal(ChatView::emit);
}

} // verus!

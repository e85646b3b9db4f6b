//! The life of a connection to the coordinator: which requests wait for an
//! answer, and what to do with each envelope that comes in.

use vstd::prelude::*;

use crate::client::WeaveIncomingMessage;
use crate::envelope;
use crate::envelope::WeaveEnvelope;
use crate::incoming;
use crate::json::JsonView;
use crate::text;

verus! {

/// A connection of an agent to its session.
pub struct AgentConnectionState {
    session_id: String,
    agent_id: String,
    pending: Vec<String>,
}

/// The mathematical value of an `AgentConnectionState`.
#[verifier::ext_equal]
pub struct ConnectionView {
    pub session_id: Seq<char>,
    pub agent_id: Seq<char>,
    /// The requests that wait for an answer, by id.
    pub pending: Set<Seq<char>>,
}

/// What happens on a connection.
pub enum ConnectionEvent {
    /// The connection is to end.
    Shutdown,
    /// A request goes out.
    Request { id: String },
    /// The request could not be sent.
    SendFailed { id: String },
    /// Nobody can make requests any more.
    RequestsClosed,
    /// An envelope came in, while the agent goes by this name.
    Received { envelope: WeaveEnvelope, agent_name: String },
    /// A line came in that is no envelope.
    Garbage,
    /// The coordinator closed the connection, or reading failed.
    Closed,
}

/// What is to be done on a connection.
pub enum ConnectionAction {
    /// Send this, and wait for the answer.
    SendAndWait(WeaveEnvelope),
    /// Send this.
    Send(WeaveEnvelope),
    /// Hand the envelope to whoever waits for the answer to this request.
    Answer { id: String, envelope: WeaveEnvelope },
    /// Tell whoever waits for the answer to this request that it was not sent.
    Fail { id: String },
    /// Hand the message to the agent.
    Deliver(WeaveIncomingMessage),
    /// Tell all who wait that the connection is closed, and stop.
    Stop,
}

impl ConnectionAction {
    /// Whether this delivers `message`.
    pub open spec fn delivers(
        self,
        message: WeaveIncomingMessage<Seq<char>, JsonView>,
    ) -> bool {
        self matches ConnectionAction::Deliver(m) && m.deep_view() == message
    }

    /// Whether this sends the acknowledgement of `envelope`.
    pub open spec fn acknowledges(
        self,
        envelope: WeaveEnvelope<Seq<char>, JsonView>,
        agent_id: Seq<char>,
        session_id: Seq<char>,
    ) -> bool {
        self matches ConnectionAction::Send(ack) && ack.deep_view() == (WeaveEnvelope {
            corr: Some(incoming::ack_corr(envelope)),
            ..envelope::envelope_of(
                "message.ack"@,
                agent_id,
                Some(session_id),
                None,
                ack.id@,
                ack.ts@,
            )
        }) && envelope::is_fresh(ack.deep_view())
    }
}

/// How many acknowledgements are owed: one or none.
pub open spec fn ack_count(
    envelope: WeaveEnvelope<Seq<char>, JsonView>,
    agent_id: Seq<char>,
    agent_name: Seq<char>,
) -> int {
    if incoming::owes_ack(envelope, agent_id, agent_name) {
        1
    } else {
        0
    }
}

/// What to do with an envelope that came in: hand it to whoever waits for it,
/// or else acknowledge it if that is owed and deliver what it brings.
pub open spec fn handles(
    actions: Seq<ConnectionAction>,
    state: ConnectionView,
    envelope: WeaveEnvelope<Seq<char>, JsonView>,
    agent_name: Seq<char>,
) -> bool {
    if envelope.corr matches Some(corr) && state.pending.contains(corr) {
        &&& actions.len() == 1
        &&& actions[0] matches ConnectionAction::Answer { id, envelope: answer } && Some(id@)
            == envelope.corr && answer.deep_view() == envelope
    } else {
        let messages = incoming::incoming(envelope, state.agent_id, agent_name);
        let acks = ack_count(envelope, state.agent_id, agent_name);
        &&& actions.len() == acks + messages.len()
        &&& acks == 1 ==> actions[0].acknowledges(envelope, state.agent_id, state.session_id)
        &&& forall|i: int|
            0 <= i < messages.len() ==> (#[trigger] actions[acks + i]).delivers(messages[i])
    }
}

impl View for AgentConnectionState {
    type V = ConnectionView;

    closed spec fn view(&self) -> ConnectionView {
        ConnectionView {
            session_id: self.session_id@,
            agent_id: self.agent_id@,
            pending: text::views(self.pending@).to_set(),
        }
    }
}

impl AgentConnectionState {
    /// A connection on which nothing was asked yet.
    pub fn new(session_id: String, agent_id: String) -> (r: AgentConnectionState)
        ensures
            r@ == (ConnectionView {
                session_id: session_id@,
                agent_id: agent_id@,
                pending: Set::empty(),
            }),
    {
        let r = AgentConnectionState { session_id, agent_id, pending: Vec::new() };
        proof {
            assert(text::views(r.pending@) =~= Seq::<Seq<char>>::empty());
            assert(r@.pending =~= Set::empty());
        }
        r
    }

    fn waits_for(&self, id: &str) -> (r: bool)
        ensures
            r == self@.pending.contains(id@),
    {
        let ghost ids = text::views(self.pending@);
        for i in 0..self.pending.len()
            invariant
                ids == text::views(self.pending@),
                forall|j: int| 0 <= j < i ==> #[trigger] ids[j] != id@,
        {
            proof {
                assert(ids[i as int] == self.pending@[i as int]@);
            }
            if text::same(self.pending[i].as_str(), id) {
                return true;
            }
        }
        false
    }

    fn forget(&mut self, id: &str)
        ensures
            final(self)@ == (ConnectionView {
                pending: old(self)@.pending.remove(id@),
                ..old(self)@
            }),
    {
        let mut rest: Vec<String> = Vec::new();
        let ghost ids = text::views(self.pending@);
        proof {
            assert(text::views(rest@) =~= Seq::<Seq<char>>::empty());
            assert(ids.take(0) =~= Seq::<Seq<char>>::empty());
        }
        for i in 0..self.pending.len()
            invariant
                ids == text::views(self.pending@),
                text::views(rest@).to_set() =~= ids.take(i as int).to_set().remove(id@),
        {
            let ghost before = text::views(rest@);
            proof {
                assert(ids[i as int] == self.pending@[i as int]@);
                assert(ids.take(i + 1) =~= ids.take(i as int).push(ids[i as int]));
                lemma_push_to_set(ids.take(i as int), ids[i as int]);
            }
            if !text::same(self.pending[i].as_str(), id) {
                rest.push(self.pending[i].clone());
                proof {
                    assert(text::views(rest@) =~= before.push(ids[i as int]));
                    lemma_push_to_set(before, ids[i as int]);
                }
            }
        }
        proof {
            assert(ids.take(ids.len() as int) =~= ids);
        }
        self.pending = rest;
    }

    /// What is to be done about an event.
    pub fn step(&mut self, event: ConnectionEvent) -> (actions: Vec<ConnectionAction>)
        ensures
            match event {
                ConnectionEvent::Shutdown => {
                    &&& final(self)@ == old(self)@
                    &&& actions@.len() == 2
                    &&& actions@[0] matches ConnectionAction::SendAndWait(request)
                        && request.deep_view() == envelope::envelope_of(
                        "agent.remove"@,
                        old(self)@.agent_id,
                        Some(old(self)@.session_id),
                        Some(
                            JsonView::Object(
                                seq![("id"@, JsonView::Text(old(self)@.agent_id))],
                            ),
                        ),
                        request.id@,
                        request.ts@,
                    ) && envelope::is_fresh(request.deep_view())
                    &&& actions@[1] is Stop
                },
                ConnectionEvent::Request { id } => {
                    &&& final(self)@ == (ConnectionView {
                        pending: old(self)@.pending.insert(id@),
                        ..old(self)@
                    })
                    &&& actions@.len() == 0
                },
                ConnectionEvent::SendFailed { id } => {
                    &&& final(self)@ == (ConnectionView {
                        pending: old(self)@.pending.remove(id@),
                        ..old(self)@
                    })
                    &&& if old(self)@.pending.contains(id@) {
                        actions@.len() == 1 && (actions@[0] matches ConnectionAction::Fail {
                            id: failed,
                        } && failed@ == id@)
                    } else {
                        actions@.len() == 0
                    }
                },
                ConnectionEvent::Received { envelope, agent_name } => {
                    &&& handles(actions@, old(self)@, envelope.deep_view(), agent_name@)
                    &&& final(self)@ == (ConnectionView {
                        pending: match envelope.deep_view().corr {
                            Some(corr) => old(self)@.pending.remove(corr),
                            None => old(self)@.pending,
                        },
                        ..old(self)@
                    })
                },
                ConnectionEvent::Garbage => final(self)@ == old(self)@ && actions@.len() == 0,
                ConnectionEvent::RequestsClosed | ConnectionEvent::Closed => final(self)@ == old(
                    self,
                )@ && actions@.len() == 1 && actions@[0] is Stop,
            },
    {
        let mut actions: Vec<ConnectionAction> = Vec::new();
        match event {
            ConnectionEvent::Shutdown => {
                let request = envelope::agent_remove_request(
                    self.session_id.as_str(),
                    self.agent_id.as_str(),
                );
                actions.push(ConnectionAction::SendAndWait(request));
                actions.push(ConnectionAction::Stop);
            },
            ConnectionEvent::Request { id } => {
                let ghost ids = text::views(self.pending@);
                let ghost view = id@;
                self.pending.push(id);
                proof {
                    assert(text::views(self.pending@) =~= ids.push(view));
                    lemma_push_to_set(ids, view);
                    assert(self@.pending =~= old(self)@.pending.insert(view));
                }
            },
            ConnectionEvent::SendFailed { id } => {
                if self.waits_for(id.as_str()) {
                    self.forget(id.as_str());
                    actions.push(ConnectionAction::Fail { id });
                } else {
                    proof {
                        assert(self@.pending.remove(id@) =~= self@.pending);
                    }
                }
            },
            ConnectionEvent::Received { envelope, agent_name } => {
                match &envelope.corr {
                    Some(corr) => {
                        if self.waits_for(corr.as_str()) {
                            let id = corr.clone();
                            self.forget(id.as_str());
                            actions.push(ConnectionAction::Answer { id, envelope });
                            return actions;
                        }
                        proof {
                            assert(self@.pending.remove(corr@) =~= self@.pending);
                        }
                    },
                    None => {},
                }
                self.receive(&envelope, agent_name.as_str(), &mut actions);
            },
            ConnectionEvent::Garbage => {},
            ConnectionEvent::RequestsClosed => actions.push(ConnectionAction::Stop),
            ConnectionEvent::Closed => actions.push(ConnectionAction::Stop),
        }
        actions
    }

    fn receive(
        &self,
        envelope: &WeaveEnvelope,
        agent_name: &str,
        actions: &mut Vec<ConnectionAction>,
    )
        requires
            old(actions)@.len() == 0,
            envelope.deep_view().corr matches Some(corr) ==> !self@.pending.contains(corr),
        ensures
            handles(final(actions)@, self@, envelope.deep_view(), agent_name@),
    {
        let agent_id = self.agent_id.as_str();
        let session_id = self.session_id.as_str();
        match incoming::build_message_ack_request(envelope, agent_id, agent_name, session_id) {
            Some(ack) => actions.push(ConnectionAction::Send(ack)),
            None => {},
        }
        let ghost acks = actions@;
        let mut messages = incoming::build_incoming_messages(envelope, agent_id, agent_name);
        let ghost all = messages.deep_view();
        let n: usize = messages.len();
        let mut i: usize = 0;
        while i < n
            invariant
                n == all.len(),
                i <= n,
                messages@.len() == n - i,
                forall|j: int| 0 <= j < n - i ==> #[trigger] messages@[j].deep_view() == all[j + i],
                actions@.len() == acks.len() + i,
                forall|j: int| 0 <= j < acks.len() ==> #[trigger] actions@[j] == acks[j],
                forall|j: int|
                    0 <= j < i ==> (#[trigger] actions@[acks.len() + j]).delivers(all[j]),
            decreases n - i,
        {
            let message = messages.remove(0);
            proof {
                assert(message.deep_view() == all[i as int]);
            }
            actions.push(ConnectionAction::Deliver(message));
            i = i + 1;
        }
    }
}

proof fn lemma_push_to_set(s: Seq<Seq<char>>, x: Seq<char>)
    ensures
        s.push(x).to_set() == s.to_set().insert(x),
{
    assert forall|y: Seq<char>| #[trigger] s.push(x).to_set().contains(y) == s.to_set().insert(
        x,
    ).contains(y) by {
        if s.push(x).contains(y) {
            let i = choose|i: int| 0 <= i < s.push(x).len() && s.push(x)[i] == y;
            if i < s.len() {
                assert(s[i] == y);
            }
        }
        if s.contains(y) {
            let i = choose|i: int| 0 <= i < s.len() && s[i] == y;
            assert(s.push(x)[i] == y);
        }
        if x == y {
            assert(s.push(x)[s.len() as int] == y);
        }
    }
    assert(s.push(x).to_set() =~= s.to_set().insert(x));
}

// ---------------------------------------------------------------------------
// Laws
// ---------------------------------------------------------------------------

/// An answer that someone waits for goes to them alone: nothing of it is
/// delivered or acknowledged.
pub proof fn law_answers_are_not_delivered(
    actions: Seq<ConnectionAction>,
    state: ConnectionView,
    envelope: WeaveEnvelope<Seq<char>, JsonView>,
    agent_name: Seq<char>,
)
    requires
        handles(actions, state, envelope, agent_name),
        envelope.corr matches Some(corr) && state.pending.contains(corr),
    ensures
        actions.len() == 1 && actions[0] is Answer,
{
}

/// What nobody here waits for is acknowledged once where that is owed, to the agent that
/// sent it, and each of its messages is delivered in its order.
pub proof fn law_all_messages_are_delivered(
    actions: Seq<ConnectionAction>,
    state: ConnectionView,
    envelope: WeaveEnvelope<Seq<char>, JsonView>,
    agent_name: Seq<char>,
)
    requires
        handles(actions, state, envelope, agent_name),
        envelope.corr is None || !state.pending.contains(envelope.corr->0),
    ensures
        ({
            let messages = incoming::incoming(envelope, state.agent_id, agent_name);
            let owes = incoming::owes_ack(envelope, state.agent_id, agent_name);
            let first: int = actions.len() - messages.len();
            &&& first == (if owes {
                1int
            } else {
                0int
            })
            &&& owes ==> (actions[0] matches ConnectionAction::Send(ack)
                && ack.deep_view().message_type == "message.ack"@ && ack.deep_view().src
                == state.agent_id && ack.deep_view().session == Some(state.session_id)
                && ack.deep_view().corr == Some(
                if envelope.corr is Some {
                    envelope.corr->0
                } else {
                    envelope.id
                },
            ))
            &&& forall|i: int|
                0 <= i < messages.len() ==> (#[trigger] actions[first
                    + i] matches ConnectionAction::Deliver(m) && m.deep_view() == messages[i])
        }),
{
    let messages = incoming::incoming(envelope, state.agent_id, agent_name);
    let acks = ack_count(envelope, state.agent_id, agent_name);
    assert forall|i: int| 0 <= i < messages.len() implies (#[trigger] actions[acks
        + i] matches ConnectionAction::Deliver(m) && m.deep_view() == messages[i]) by {
        assert(actions[acks + i].delivers(messages[i]));
    }
}

} // verus!

//! Where an event goes: entries of a transcript carry the thread that they belong
//! to.

use vstd::prelude::*;

use crate::text;

verus! {

/// What an event is about.
#[derive(Debug, Clone, Copy, PartialEq, Eq, Structural)]
pub enum EventKind {
    /// An entry for a transcript.
    Entry,
    /// Something that the model is to do.
    Operation,
    Other,
}

/// How an event is handed on.
#[derive(Debug, PartialEq, Eq)]
pub struct Route {
    /// The thread that it carries, for those that carry one, if it is known.
    pub thread_id: Option<Option<String>>,
    /// Whether it goes into the log of what came in.
    pub logged: bool,
}

/// Hands events on, for one thread once that is known.
pub struct AppEventSender {
    thread_id: Option<String>,
}

impl View for AppEventSender {
    type V = Option<Seq<char>>;

    closed spec fn view(&self) -> Option<Seq<char>> {
        self.thread_id.deep_view()
    }
}

impl AppEventSender {
    /// A sender that does not know its thread yet.
    pub fn new() -> (r: AppEventSender)
        ensures
            r@ is None,
    {
        AppEventSender { thread_id: None }
    }

    /// A sender for another thread, which it does not know yet.
    pub fn scoped(&self) -> (r: AppEventSender)
        ensures
            r@ is None,
    {
        AppEventSender::new()
    }

    /// Tells the sender its thread.
    pub fn set_thread_id(&mut self, thread_id: String)
        ensures
            final(self)@ == Some(thread_id@),
    {
        self.thread_id = Some(thread_id);
    }

    /// How an event is handed on. Operations are logged where they are carried
    /// out.
    pub fn send(&self, kind: EventKind) -> (r: Route)
        ensures
            (r.thread_id is Some) == (kind == EventKind::Entry),
            r.thread_id matches Some(thread_id) ==> thread_id.deep_view() == self@,
            r.logged == (kind != EventKind::Operation),
    {
        match kind {
            EventKind::Entry => Route {
                thread_id: Some(text::copy_option(&self.thread_id)),
                logged: true,
            },
            EventKind::Operation => Route { thread_id: None, logged: false },
            EventKind::Other => Route { thread_id: None, logged: true },
        }
    }
}

} // verus!

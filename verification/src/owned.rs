use vstd::prelude::*;

use crate::ids::{BridgeError, CallbackId, CommandBatch, EventMessage, ListenerId, NodeId, SessionId, Status};
use crate::session::{destroyed_message, wrong_thread_message, Session};

verus! {

/// A session bound to the thread that created it: every call names the
/// calling thread's token, and only the owner's calls reach the session.
pub struct OwnedSession {
    session: Session,
    owner: u64,
}

/// How a call from `caller` is refused before it reaches the session: a
/// destroyed session first, then a thread other than the owner.
pub open spec fn caller_refusal(session: Session, owner: u64, caller: u64) -> Option<(Status, Seq<char>)> {
    if session@.destroyed {
        Some((Status::InvalidSession, destroyed_message(session@.id)))
    } else if owner != caller {
        Some((Status::WrongThread, wrong_thread_message(session@.id)))
    } else {
        None
    }
}

/// `r` is the refusal `refusal` names.
pub open spec fn refused_with<T>(r: Result<T, BridgeError>, refusal: (Status, Seq<char>)) -> bool {
    r matches Err(e) && e.status == refusal.0 && e.message@ == refusal.1
}

impl OwnedSession {
    pub closed spec fn session(&self) -> Session {
        self.session
    }

    pub closed spec fn owner(&self) -> u64 {
        self.owner
    }

    pub closed spec fn wf(&self) -> bool {
        self.session.wf()
    }

    /// A new session owned by the thread with token `owner`.
    pub fn create(id: SessionId, root: NodeId, owner: u64) -> (r: Result<OwnedSession, BridgeError>)
        ensures
            r matches Ok(s) && s.wf() && s.owner() == owner && s.session()@.id == id@
                && s.session()@.root == root@ && !s.session()@.destroyed,
    {
        match Session::create(id, root) {
            Ok(session) => Ok(OwnedSession { session, owner }),
            Err(e) => Err(e),
        }
    }

    /// Creates an element for the owner; any other thread is refused first.
    pub fn create_element(&mut self, caller: u64, tag: &str) -> (r: Result<NodeId, BridgeError>)
        requires
            old(self).wf(),
        ensures
            final(self).wf(),
            final(self).owner() == old(self).owner(),
            caller_refusal(old(self).session(), old(self).owner(), caller) matches Some(refusal)
                ==> refused_with(r, refusal) && *final(self) == *old(self),
            caller_refusal(old(self).session(), old(self).owner(), caller) is None ==> exists|
                s: &mut Session,
            | #[trigger] call_ensures(Session::create_element, (s, tag), r) && mut_ref_current(s)
                == old(self).session() && mut_ref_future(s) == final(self).session(),
    {
        match self.session.ensure_owner(self.owner, caller) {
            Ok(()) => {},
            Err(e) => return Err(e),
        }
        self.session.create_element(tag)
    }
    /// Creates a raw-text node for the owner. Any other thread is refused first.
    pub fn create_text(&mut self, caller: u64, text: &str) -> (r: Result<NodeId, BridgeError>)
        requires
            old(self).wf(),
        ensures
            final(self).wf(),
            final(self).owner() == old(self).owner(),
            caller_refusal(old(self).session(), old(self).owner(), caller) matches Some(refusal)
                ==> refused_with(r, refusal) && *final(self) == *old(self),
            caller_refusal(old(self).session(), old(self).owner(), caller) is None ==> exists|
                s: &mut Session,
            | #[trigger] call_ensures(Session::create_text, (s, text), r) && mut_ref_current(s)
                == old(self).session() && mut_ref_future(s) == final(self).session(),
    {
        match self.session.ensure_owner(self.owner, caller) {
            Ok(()) => {},
            Err(e) => return Err(e),
        }
        self.session.create_text(text)
    }

    /// Attaches `child` below `parent` for the owner. Any other thread is refused first.
    pub fn insert_before(&mut self, caller: u64, parent: NodeId, child: NodeId, reference: Option<NodeId>) -> (r: Result<(), BridgeError>)
        requires
            old(self).wf(),
        ensures
            final(self).wf(),
            final(self).owner() == old(self).owner(),
            caller_refusal(old(self).session(), old(self).owner(), caller) matches Some(refusal)
                ==> refused_with(r, refusal) && *final(self) == *old(self),
            caller_refusal(old(self).session(), old(self).owner(), caller) is None ==> exists|
                s: &mut Session,
            | #[trigger] call_ensures(Session::insert_before, (s, parent, child, reference), r) && mut_ref_current(s)
                == old(self).session() && mut_ref_future(s) == final(self).session(),
    {
        match self.session.ensure_owner(self.owner, caller) {
            Ok(()) => {},
            Err(e) => return Err(e),
        }
        self.session.insert_before(parent, child, reference)
    }

    /// Detaches `child` from `parent` for the owner. Any other thread is refused first.
    pub fn remove(&mut self, caller: u64, parent: NodeId, child: NodeId) -> (r: Result<(), BridgeError>)
        requires
            old(self).wf(),
        ensures
            final(self).wf(),
            final(self).owner() == old(self).owner(),
            caller_refusal(old(self).session(), old(self).owner(), caller) matches Some(refusal)
                ==> refused_with(r, refusal) && *final(self) == *old(self),
            caller_refusal(old(self).session(), old(self).owner(), caller) is None ==> exists|
                s: &mut Session,
            | #[trigger] call_ensures(Session::remove, (s, parent, child), r) && mut_ref_current(s)
                == old(self).session() && mut_ref_future(s) == final(self).session(),
    {
        match self.session.ensure_owner(self.owner, caller) {
            Ok(()) => {},
            Err(e) => return Err(e),
        }
        self.session.remove(parent, child)
    }

    /// Destroys a detached node for the owner. Any other thread is refused first.
    pub fn destroy_node(&mut self, caller: u64, node: NodeId) -> (r: Result<(), BridgeError>)
        requires
            old(self).wf(),
        ensures
            final(self).wf(),
            final(self).owner() == old(self).owner(),
            caller_refusal(old(self).session(), old(self).owner(), caller) matches Some(refusal)
                ==> refused_with(r, refusal) && *final(self) == *old(self),
            caller_refusal(old(self).session(), old(self).owner(), caller) is None ==> exists|
                s: &mut Session,
            | #[trigger] call_ensures(Session::destroy_node, (s, node), r) && mut_ref_current(s)
                == old(self).session() && mut_ref_future(s) == final(self).session(),
    {
        match self.session.ensure_owner(self.owner, caller) {
            Ok(()) => {},
            Err(e) => return Err(e),
        }
        self.session.destroy_node(node)
    }

    /// Sets or clears an attribute for the owner. Any other thread is refused first.
    pub fn set_attribute(&mut self, caller: u64, node: NodeId, name: &str, value: Option<&str>) -> (r: Result<(), BridgeError>)
        requires
            old(self).wf(),
        ensures
            final(self).wf(),
            final(self).owner() == old(self).owner(),
            caller_refusal(old(self).session(), old(self).owner(), caller) matches Some(refusal)
                ==> refused_with(r, refusal) && *final(self) == *old(self),
            caller_refusal(old(self).session(), old(self).owner(), caller) is None ==> exists|
                s: &mut Session,
            | #[trigger] call_ensures(Session::set_attribute, (s, node, name, value), r) && mut_ref_current(s)
                == old(self).session() && mut_ref_future(s) == final(self).session(),
    {
        match self.session.ensure_owner(self.owner, caller) {
            Ok(()) => {},
            Err(e) => return Err(e),
        }
        self.session.set_attribute(node, name, value)
    }

    /// Registers a listener for the owner. Any other thread is refused first.
    pub fn add_event_listener(&mut self, caller: u64, node: NodeId, name: &str, callback: CallbackId) -> (r: Result<ListenerId, BridgeError>)
        requires
            old(self).wf(),
        ensures
            final(self).wf(),
            final(self).owner() == old(self).owner(),
            caller_refusal(old(self).session(), old(self).owner(), caller) matches Some(refusal)
                ==> refused_with(r, refusal) && *final(self) == *old(self),
            caller_refusal(old(self).session(), old(self).owner(), caller) is None ==> exists|
                s: &mut Session,
            | #[trigger] call_ensures(Session::add_event_listener, (s, node, name, callback), r) && mut_ref_current(s)
                == old(self).session() && mut_ref_future(s) == final(self).session(),
    {
        match self.session.ensure_owner(self.owner, caller) {
            Ok(()) => {},
            Err(e) => return Err(e),
        }
        self.session.add_event_listener(node, name, callback)
    }

    /// Removes a listener for the owner. Any other thread is refused first.
    pub fn remove_event_listener(&mut self, caller: u64, node: NodeId, listener: ListenerId) -> (r: Result<(), BridgeError>)
        requires
            old(self).wf(),
        ensures
            final(self).wf(),
            final(self).owner() == old(self).owner(),
            caller_refusal(old(self).session(), old(self).owner(), caller) matches Some(refusal)
                ==> refused_with(r, refusal) && *final(self) == *old(self),
            caller_refusal(old(self).session(), old(self).owner(), caller) is None ==> exists|
                s: &mut Session,
            | #[trigger] call_ensures(Session::remove_event_listener, (s, node, listener), r) && mut_ref_current(s)
                == old(self).session() && mut_ref_future(s) == final(self).session(),
    {
        match self.session.ensure_owner(self.owner, caller) {
            Ok(()) => {},
            Err(e) => return Err(e),
        }
        self.session.remove_event_listener(node, listener)
    }

    /// Hands the owner the commands recorded since the last batch. Any other thread is refused first.
    pub fn take_batch(&mut self, caller: u64) -> (r: Result<CommandBatch, BridgeError>)
        requires
            old(self).wf(),
        ensures
            final(self).wf(),
            final(self).owner() == old(self).owner(),
            caller_refusal(old(self).session(), old(self).owner(), caller) matches Some(refusal)
                ==> refused_with(r, refusal) && *final(self) == *old(self),
            caller_refusal(old(self).session(), old(self).owner(), caller) is None ==> exists|
                s: &mut Session,
            | #[trigger] call_ensures(Session::take_batch, (s,), r) && mut_ref_current(s)
                == old(self).session() && mut_ref_future(s) == final(self).session(),
    {
        match self.session.ensure_owner(self.owner, caller) {
            Ok(()) => {},
            Err(e) => return Err(e),
        }
        self.session.take_batch()
    }

    /// Drops the pending commands for the owner. Any other thread is refused first.
    pub fn discard_pending(&mut self, caller: u64) -> (r: Result<(), BridgeError>)
        requires
            old(self).wf(),
        ensures
            final(self).wf(),
            final(self).owner() == old(self).owner(),
            caller_refusal(old(self).session(), old(self).owner(), caller) matches Some(refusal)
                ==> refused_with(r, refusal) && *final(self) == *old(self),
            caller_refusal(old(self).session(), old(self).owner(), caller) is None ==> exists|
                s: &mut Session,
            | #[trigger] call_ensures(Session::discard_pending, (s,), r) && mut_ref_current(s)
                == old(self).session() && mut_ref_future(s) == final(self).session(),
    {
        match self.session.ensure_owner(self.owner, caller) {
            Ok(()) => {},
            Err(e) => return Err(e),
        }
        self.session.discard_pending()
    }

    /// Tears the session down for the owner. Any other thread is refused first.
    pub fn destroy(&mut self, caller: u64) -> (r: Result<CommandBatch, BridgeError>)
        requires
            old(self).wf(),
        ensures
            final(self).wf(),
            final(self).owner() == old(self).owner(),
            caller_refusal(old(self).session(), old(self).owner(), caller) matches Some(refusal)
                ==> refused_with(r, refusal) && *final(self) == *old(self),
            caller_refusal(old(self).session(), old(self).owner(), caller) is None ==> exists|
                s: &mut Session,
            | #[trigger] call_ensures(Session::destroy, (s,), r) && mut_ref_current(s)
                == old(self).session() && mut_ref_future(s) == final(self).session(),
    {
        match self.session.ensure_owner(self.owner, caller) {
            Ok(()) => {},
            Err(e) => return Err(e),
        }
        self.session.destroy()
    }

    /// Builds the event message of a listener for the owner; any other
    /// thread is refused before the listener is looked up.
    pub fn event(&self, caller: u64, listener: ListenerId, content_type: &str, payload: Vec<u8>) -> (r:
        Result<EventMessage, BridgeError>)
        requires
            self.wf(),
        ensures
            caller_refusal(self.session(), self.owner(), caller) matches Some(refusal) ==> refused_with(
                r,
                refusal,
            ),
            caller_refusal(self.session(), self.owner(), caller) is None ==> call_ensures(
                Session::event,
                (&self.session(), listener, content_type, payload),
                r,
            ),
    {
        match self.session.ensure_owner(self.owner, caller) {
            Ok(()) => {},
            Err(e) => return Err(e),
        }
        self.session.event(listener, content_type, payload)
    }

    pub fn id(&self) -> (r: SessionId)
        ensures
            r@ == self.session()@.id,
    {
        self.session.id()
    }

    pub fn root(&self) -> (r: NodeId)
        ensures
            r@ == self.session()@.root,
    {
        self.session.root()
    }
}

} // verus!

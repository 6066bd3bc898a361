use std::collections::HashMap;
use vstd::prelude::*;

use crate::ids::Status;
use crate::text::{decimal_spec, message_with, owned};
use crate::wamr::BackendError;

verus! {

broadcast use vstd::std_specs::hash::group_hash_axioms;

/// The bridge node that every native session mounts under.
pub const NATIVE_BRIDGE_ROOT_ID: u32 = 1;

/// Hands out native session IDs: 1, 2, ... up to `u32::MAX`, after which the
/// ID space is exhausted for good.
pub struct SessionIdAllocator {
    next: u32,
}

/// The allocator state after one successful allocation from `next`
/// (0 stands for an exhausted ID space).
pub open spec fn after_allocation(next: u32) -> u32 {
    if next == u32::MAX {
        0
    } else {
        (next + 1) as u32
    }
}

/// The allocator state after `k` allocations from `next`.
pub open spec fn advanced(next: u32, k: nat) -> u32
    decreases k,
{
    if k == 0 || next == 0 {
        next
    } else {
        advanced(after_allocation(next), (k - 1) as nat)
    }
}

impl SessionIdAllocator {
    /// The ID the next allocation hands out; 0 once the space is exhausted.
    pub closed spec fn next_id(&self) -> u32 {
        self.next
    }

    pub fn new() -> (r: SessionIdAllocator)
        ensures
            r.next_id() == 1,
    {
        SessionIdAllocator { next: 1 }
    }

    /// The next unused session ID, or `ResourceExhausted` once every nonzero
    /// `u32` has been handed out.
    pub fn allocate(&mut self) -> (r: Result<u32, BackendError>)
        ensures
            old(self).next_id() == 0 ==> final(self).next_id() == 0 && (r matches Err(e)
                && e.status == Status::ResourceExhausted && e.message@ == "session ID space is exhausted"@
                && e.poison_session),
            old(self).next_id() != 0 ==> r == Ok::<u32, BackendError>(old(self).next_id())
                && final(self).next_id() == after_allocation(old(self).next_id()),
    {
        let current = self.next;
        if current == 0 {
            return Err(
                BackendError::fatal(Status::ResourceExhausted, owned("session ID space is exhausted")),
            );
        }
        self.next = if current == u32::MAX {
            0
        } else {
            current + 1
        };
        Ok(current)
    }
}

/// An allocator never hands out the same session ID twice: every later
/// allocation that succeeds returns a strictly larger ID.
pub proof fn lemma_allocations_increase(next: u32, k: nat)
    requires
        next != 0,
        k > 0,
        advanced(next, k) != 0,
    ensures
        advanced(next, k) > next,
    decreases k,
{
    let n1 = after_allocation(next);
    assert(advanced(next, k) == advanced(n1, (k - 1) as nat));
    if k > 1 {
        if n1 != 0 {
            lemma_allocations_increase(n1, (k - 1) as nat);
        } else {
            lemma_exhausted_stays((k - 1) as nat);
        }
    }
}

/// Once exhausted, the allocator stays exhausted.
pub proof fn lemma_exhausted_stays(k: nat)
    ensures
        advanced(0, k) == 0,
    decreases k,
{
}

/// Which thread owns each native session, by an opaque owner token.
pub struct SessionOwners {
    owners: HashMap<u32, u64>,
}

impl View for SessionOwners {
    type V = Map<u32, u64>;

    closed spec fn view(&self) -> Map<u32, u64> {
        self.owners@
    }
}

/// The message of a session ID that names no live session.
pub open spec fn invalid_session_message(session: u32) -> Seq<char> {
    "invalid or stale session ID "@ + decimal_spec(session as nat)
}

/// The message of a session that is already running a callback.
pub open spec fn busy_session_message(session: u32) -> Seq<char> {
    "session "@ + decimal_spec(session as nat) + " is already executing a callback"@
}

/// The error for a session ID that names no live session.
pub fn invalid_session(session: u32) -> (r: BackendError)
    ensures
        r.status == Status::InvalidSession,
        r.message@ == invalid_session_message(session),
        !r.poison_session,
{
    let m = message_with("invalid or stale session ID ", session as u64, "");
    proof {
        reveal_strlit("");
        assert(m@ =~= invalid_session_message(session));
    }
    BackendError::recoverable(Status::InvalidSession, m)
}

/// The error for a session that is already running a callback.
pub fn busy_session(session: u32) -> (r: BackendError)
    ensures
        r.status == Status::HostError,
        r.message@ == busy_session_message(session),
        !r.poison_session,
{
    BackendError::recoverable(
        Status::HostError,
        message_with("session ", session as u64, " is already executing a callback"),
    )
}

/// The message that `validate` refuses with, where `owner_refusal` names a
/// status.
pub open spec fn owner_refusal_message(owners: Map<u32, u64>, session: u32) -> Seq<char> {
    if session == 0 || !owners.contains_key(session) {
        invalid_session_message(session)
    } else {
        "session "@ + decimal_spec(session as nat) + " was called from a non-owner thread"@
    }
}

/// What checking `caller` against the owner of `session` yields: the status
/// of the refusal, or `None` when the caller may proceed.
pub open spec fn owner_refusal(owners: Map<u32, u64>, session: u32, caller: u64) -> Option<Status> {
    if session == 0 || !owners.contains_key(session) {
        Some(Status::InvalidSession)
    } else if owners[session] != caller {
        Some(Status::WrongThread)
    } else {
        None
    }
}

impl SessionOwners {
    pub fn new() -> (r: SessionOwners)
        ensures
            r@ == Map::<u32, u64>::empty(),
    {
        SessionOwners { owners: HashMap::new() }
    }

    /// Records `owner` as the owner of `session`.
    pub fn reserve(&mut self, session: u32, owner: u64)
        ensures
            final(self)@ == old(self)@.insert(session, owner),
    {
        self.owners.insert(session, owner);
    }

    /// Forgets the owner of `session`.
    pub fn release(&mut self, session: u32)
        ensures
            final(self)@ == old(self)@.remove(session),
    {
        self.owners.remove(&session);
    }

    /// Whether `caller` may operate on `session`: the ID must be nonzero and
    /// live, and the caller must be its owner.  Refusals are recoverable.
    pub fn validate(&self, session: u32, caller: u64) -> (r: Result<(), BackendError>)
        ensures
            match owner_refusal(self@, session, caller) {
                None => r is Ok,
                Some(s) => r matches Err(e) && e.status == s && e.message@ == owner_refusal_message(
                    self@,
                    session,
                ) && !e.poison_session,
            },
    {
        if session == 0 {
            return Err(invalid_session(session));
        }
        match self.owners.get(&session) {
            None => Err(invalid_session(session)),
            Some(owner) => {
                if *owner != caller {
                    Err(
                        BackendError::recoverable(
                            Status::WrongThread,
                            message_with("session ", session as u64, " was called from a non-owner thread"),
                        ),
                    )
                } else {
                    Ok(())
                }
            },
        }
    }
}

/// A registered session: idle and ready, or lent out to a running callback.
pub enum SessionSlot<S> {
    Ready(S),
    Busy,
}

/// The native sessions of one thread.  A session is taken out (and its
/// slot marked busy) for the length of a callback, so that a reentrant
/// call finds it busy instead of touching it twice.
pub struct SessionRegistry<S> {
    slots: HashMap<u32, SessionSlot<S>>,
}

impl<S> View for SessionRegistry<S> {
    type V = Map<u32, SessionSlot<S>>;

    closed spec fn view(&self) -> Map<u32, SessionSlot<S>> {
        self.slots@
    }
}

/// The registry after `session` was lent out.
pub open spec fn lent<S>(m: Map<u32, SessionSlot<S>>, session: u32) -> Map<u32, SessionSlot<S>> {
    m.insert(session, SessionSlot::Busy)
}

/// The registry after `value` was given back for `session`.
pub open spec fn given_back<S>(m: Map<u32, SessionSlot<S>>, session: u32, value: S) -> Map<
    u32,
    SessionSlot<S>,
> {
    m.insert(session, SessionSlot::Ready(value))
}

impl<S> SessionRegistry<S> {
    pub fn new() -> (r: SessionRegistry<S>)
        ensures
            r@ == Map::<u32, SessionSlot<S>>::empty(),
    {
        SessionRegistry { slots: HashMap::new() }
    }

    pub fn contains(&self, session: u32) -> (r: bool)
        ensures
            r == self@.contains_key(session),
    {
        self.slots.contains_key(&session)
    }

    /// The IDs of all registered sessions, in no particular order.
    pub fn session_ids(&self) -> (r: Vec<u32>)
        ensures
            r@.to_set() == self@.dom(),
    {
        let mut ids: Vec<u32> = Vec::new();
        let keys = self.slots.keys();
        let ghost walked: Seq<u32> = vstd::std_specs::iter::IteratorSpec::remaining(
            &vstd::std_specs::hash::spec_keys_iter(&self.slots),
        ).unref();
        proof {
            vstd::std_specs::hash::axiom_spec_keys_iter(&self.slots);
        }
        for k in it: keys
            invariant
                ids@ == it.seq().unref().take(it.index()),
                walked == it.seq().unref(),
        {
            ids.push(*k);
            proof {
                assert(ids@ =~= it.seq().unref().take(it.index() + 1));
            }
        }
        proof {
            assert(ids@ =~= walked);
        }
        ids
    }

    /// Registers a freshly mounted session as ready; an ID that is already
    /// registered is a fatal `InternalError` and changes nothing.
    pub fn register(&mut self, session: u32, value: S) -> (r: Result<(), BackendError>)
        ensures
            old(self)@.contains_key(session) ==> final(self)@ == old(self)@ && (r matches Err(e)
                && e.status == Status::InternalError && e.message@ == "duplicate session ID "@
                + decimal_spec(session as nat) && e.poison_session),
            !old(self)@.contains_key(session) ==> r is Ok && final(self)@ == old(self)@.insert(
                session,
                SessionSlot::Ready(value),
            ),
    {
        if self.slots.contains_key(&session) {
            let m = message_with("duplicate session ID ", session as u64, "");
            proof {
                reveal_strlit("");
                assert(m@ =~= "duplicate session ID "@ + decimal_spec(session as nat));
            }
            return Err(BackendError::fatal(Status::InternalError, m));
        }
        self.slots.insert(session, SessionSlot::Ready(value));
        Ok(())
    }

    /// Lends out a ready session and marks its slot busy.  An unknown ID is
    /// `InvalidSession`, a busy one `HostError`; both are recoverable and
    /// change nothing.
    pub fn take_ready(&mut self, session: u32) -> (r: Result<S, BackendError>)
        ensures
            !old(self)@.contains_key(session) ==> final(self)@ == old(self)@ && (r matches Err(e)
                && e.status == Status::InvalidSession && e.message@ == invalid_session_message(session)
                && !e.poison_session),
            old(self)@.contains_key(session) && old(self)@[session] is Busy ==> final(self)@
                == old(self)@ && (r matches Err(e) && e.status == Status::HostError && e.message@
                == busy_session_message(session) && !e.poison_session),
            old(self)@.contains_key(session) ==> (old(self)@[session] matches SessionSlot::Ready(v)
                ==> r == Ok::<S, BackendError>(v) && final(self)@ == lent(old(self)@, session)),
    {
        match self.slots.remove(&session) {
            None => Err(invalid_session(session)),
            Some(SessionSlot::Busy) => {
                self.slots.insert(session, SessionSlot::Busy);
                proof {
                    assert(self@ =~= old(self)@);
                }
                Err(busy_session(session))
            },
            Some(SessionSlot::Ready(value)) => {
                self.slots.insert(session, SessionSlot::Busy);
                proof {
                    assert(self@ =~= lent(old(self)@, session));
                }
                Ok(value)
            },
        }
    }

    /// Gives a lent session back.  An unknown ID is a recoverable
    /// `InvalidSession`; a slot that is not busy is a fatal `InternalError`;
    /// either way nothing changes.
    pub fn restore(&mut self, session: u32, value: S) -> (r: Result<(), BackendError>)
        ensures
            !old(self)@.contains_key(session) ==> final(self)@ == old(self)@ && (r matches Err(e)
                && e.status == Status::InvalidSession && e.message@ == invalid_session_message(session)
                && !e.poison_session),
            old(self)@.contains_key(session) && old(self)@[session] is Ready ==> final(self)@
                == old(self)@ && (r matches Err(e) && e.status == Status::InternalError && e.message@
                == "session "@ + decimal_spec(session as nat) + " lost its busy state"@
                && e.poison_session),
            old(self)@.contains_key(session) && old(self)@[session] is Busy ==> r is Ok
                && final(self)@ == given_back(old(self)@, session, value),
    {
        match self.slots.get(&session) {
            None => Err(invalid_session(session)),
            Some(SessionSlot::Ready(_)) => Err(
                BackendError::fatal(
                    Status::InternalError,
                    message_with("session ", session as u64, " lost its busy state"),
                ),
            ),
            Some(SessionSlot::Busy) => {
                self.slots.insert(session, SessionSlot::Ready(value));
                Ok(())
            },
        }
    }

    /// Unregisters a ready session and hands it over.  An unknown ID is
    /// `InvalidSession`, a busy one `HostError`; both are recoverable and
    /// change nothing.
    pub fn remove_ready(&mut self, session: u32) -> (r: Result<S, BackendError>)
        ensures
            !old(self)@.contains_key(session) ==> final(self)@ == old(self)@ && (r matches Err(e)
                && e.status == Status::InvalidSession && e.message@ == invalid_session_message(session)
                && !e.poison_session),
            old(self)@.contains_key(session) && old(self)@[session] is Busy ==> final(self)@
                == old(self)@ && (r matches Err(e) && e.status == Status::HostError && e.message@
                == busy_session_message(session) && !e.poison_session),
            old(self)@.contains_key(session) ==> (old(self)@[session] matches SessionSlot::Ready(v)
                ==> r == Ok::<S, BackendError>(v) && final(self)@ == old(self)@.remove(session)),
    {
        match self.slots.remove(&session) {
            None => Err(invalid_session(session)),
            Some(SessionSlot::Busy) => {
                self.slots.insert(session, SessionSlot::Busy);
                proof {
                    assert(self@ =~= old(self)@);
                }
                Err(busy_session(session))
            },
            Some(SessionSlot::Ready(value)) => Ok(value),
        }
    }
}

/// A lent session is busy until it is given back, so a reentrant call that
/// tries to take it again is refused.
pub proof fn lemma_lent_session_is_busy<S>(m: Map<u32, SessionSlot<S>>, session: u32)
    ensures
        lent(m, session).contains_key(session),
        lent(m, session)[session] is Busy,
{
}

/// Lending a ready session out and giving it back unchanged restores the
/// registry exactly.
pub proof fn lemma_lend_and_give_back<S>(m: Map<u32, SessionSlot<S>>, session: u32, value: S)
    requires
        m.contains_key(session),
        m[session] == SessionSlot::Ready(value),
    ensures
        given_back(lent(m, session), session, value) == m,
{
    assert(given_back(lent(m, session), session, value) =~= m);
}

/// The session a native callback context names: a nonzero value that fits a
/// session ID, else a recoverable `InvalidSession`.
pub fn callback_session(context: usize) -> (r: Result<u32, BackendError>)
    ensures
        context == 0 || context > u32::MAX ==> (r matches Err(e) && e.status
            == Status::InvalidSession && e.message@
            == "native callback context does not identify a session"@ && !e.poison_session),
        context != 0 && context <= u32::MAX ==> r == Ok::<u32, BackendError>(context as u32),
{
    if context == 0 || context > 0xffff_ffffusize {
        return Err(
            BackendError::recoverable(
                Status::InvalidSession,
                owned("native callback context does not identify a session"),
            ),
        );
    }
    Ok(context as u32)
}

/// Whether a borrowed native span may be copied: an empty span always may
/// (`Ok(false)`: nothing to read); otherwise the data must be non-null and
/// the length at most `isize::MAX` (`Ok(true)`), else `InvalidArgument`.
pub fn check_native_span(data_is_null: bool, len: usize) -> (r: Result<bool, BackendError>)
    ensures
        len == 0 ==> r == Ok::<bool, BackendError>(false),
        len != 0 && (data_is_null || len > isize::MAX) ==> (r matches Err(e) && e.status
            == Status::InvalidArgument && e.message@ == "native callback span is invalid"@
            && !e.poison_session),
        len != 0 && !data_is_null && len <= isize::MAX ==> r == Ok::<bool, BackendError>(true),
{
    if len == 0 {
        return Ok(false);
    }
    if data_is_null || len > isize::MAX as usize {
        return Err(
            BackendError::recoverable(Status::InvalidArgument, owned("native callback span is invalid")),
        );
    }
    Ok(true)
}

} // verus!

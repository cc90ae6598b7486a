//! The requests that wait for a report of the user interface.
//!
//! Each request that was handed to the user interface is pending under its
//! identifier until one of three things happens: a report for it arrives, its
//! time runs out, or the task could not be emitted. A pending request holds
//! the sending half of a one-shot channel; the dispatcher waits on the
//! receiving half.

use vstd::prelude::*;
use tokio::sync::oneshot::{Receiver, Sender};
use crate::proxy::FrontendResponsePayload;

verus! {

/// `tokio::sync::oneshot::Sender`: the half of a one-shot channel that
/// completes it.
#[verifier::external_type_specification]
#[verifier::external_body]
#[verifier::reject_recursive_types(T)]
pub struct ExSender<T>(Sender<T>);

/// `tokio::sync::oneshot::Receiver`: the half of a one-shot channel that
/// waits for the value.
#[verifier::external_type_specification]
#[verifier::external_body]
#[verifier::reject_recursive_types(T)]
pub struct ExReceiver<T>(Receiver<T>);

/// `tokio::sync::oneshot::error::RecvError`: what a receiver yields when its
/// sender was dropped without sending. Nothing here names it; it is
/// declared because `Receiver` cannot be named without it: the receiver is
/// a future whose output holds this error.
#[verifier::external_type_specification]
#[verifier::external_body]
pub struct ExRecvError(tokio::sync::oneshot::error::RecvError);

/// `tokio::sync::oneshot::channel`: a new channel. Nothing is claimed of it.
pub assume_specification<T>[ tokio::sync::oneshot::channel::<T> ]() -> (r: (
    Sender<T>,
    Receiver<T>,
));

/// `tokio::sync::oneshot::Sender::send`: whether the value was handed over
/// depends on the receiver. Where it was not, the value comes back.
pub assume_specification<T>[ Sender::<T>::send ](sender: Sender<T>, value: T) -> (r: Result<(), T>)
    ensures
        r matches Err(back) ==> back == value,
;

/// Why the registry refused.
#[derive(Clone, Copy, Debug, PartialEq, Eq, Structural)]
pub enum RegistryError {
    /// A request is pending under this identifier already.
    AlreadyPending,
    /// No request waits under this identifier: it was never registered, it
    /// was resolved or cancelled before, or whoever waited for it has given
    /// up.
    UnknownRequest,
}

/// One pending request.
struct PendingEntry {
    id: String,
    waiter: Sender<FrontendResponsePayload>,
}

/// The pending requests, each under its own identifier.
pub struct PendingRegistry {
    entries: Vec<PendingEntry>,
}

/// The registry after a registration.
pub open spec fn registered(pending: Set<Seq<char>>, id: Seq<char>) -> Set<Seq<char>> {
    pending.insert(id)
}

/// The registry after a report or a cancellation: the request is no longer
/// pending, whether it was before or not.
pub open spec fn removed(pending: Set<Seq<char>>, id: Seq<char>) -> Set<Seq<char>> {
    pending.remove(id)
}

/// Whether a report or a cancellation for `id` finds its request.
pub open spec fn finds(pending: Set<Seq<char>>, id: Seq<char>) -> bool {
    pending.contains(id)
}

/// Cancellation is terminal: once a request was registered and cancelled,
/// a report for it finds nothing, so `resolve` answers `UnknownRequest`.
pub proof fn lemma_cancellation_is_terminal(pending: Set<Seq<char>>, id: Seq<char>)
    ensures
        !finds(removed(registered(pending, id), id), id),
{
}

/// Of a report and a cancellation for one pending request exactly one wins,
/// in either order: the one that comes first finds the request, the other
/// finds nothing, and the second changes nothing any more. `resolve` and
/// `cancel` both find by `finds` and both leave `removed` behind.
pub proof fn lemma_exactly_one_winner(pending: Set<Seq<char>>, id: Seq<char>)
    requires
        finds(pending, id),
    ensures
        !finds(removed(pending, id), id),
        removed(removed(pending, id), id) == removed(pending, id),
{
    assert(removed(removed(pending, id), id) =~= removed(pending, id));
}

/// A report or a cancellation for one request leaves every other request
/// as it was.
pub proof fn lemma_other_requests_stay(pending: Set<Seq<char>>, id: Seq<char>, other: Seq<char>)
    requires
        other != id,
    ensures
        finds(removed(pending, id), other) == finds(pending, other),
        finds(registered(pending, id), other) == finds(pending, other),
{
}

/// A report or a cancellation for one request leaves the sender of every
/// other request where it was, and it is the same sender: `resolve`,
/// `claim` and `cancel` leave the waiters behind without the one
/// identifier.
pub proof fn lemma_other_waiters_stay(
    waiters: Map<Seq<char>, Sender<FrontendResponsePayload>>,
    id: Seq<char>,
    other: Seq<char>,
)
    requires
        other != id,
    ensures
        waiters.remove(id).contains_key(other) == waiters.contains_key(other),
        waiters.contains_key(other) ==> waiters.remove(id)[other] == waiters[other],
        !waiters.remove(id).contains_key(id),
{
}

/// The identifiers of a list of entries, in order.
spec fn ids_of(entries: Seq<PendingEntry>) -> Seq<Seq<char>> {
    Seq::new(entries.len(), |i: int| entries[i].id@)
}

/// A place at which `id` stands among the entries, where it stands at one.
spec fn place_of(entries: Seq<PendingEntry>, id: Seq<char>) -> int {
    choose|i: int| 0 <= i < entries.len() && entries[i].id@ == id
}

/// The senders of a list of entries, each under its identifier.
spec fn waiters_of(entries: Seq<PendingEntry>) -> Map<Seq<char>, Sender<FrontendResponsePayload>> {
    Map::new(
        |id: Seq<char>| ids_of(entries).contains(id),
        |id: Seq<char>| entries[place_of(entries, id)].waiter,
    )
}

/// Where no identifier stands twice, each entry's sender is the one under
/// its identifier.
proof fn lemma_waiter_at(entries: Seq<PendingEntry>, at: int)
    requires
        ids_of(entries).no_duplicates(),
        0 <= at < entries.len(),
    ensures
        waiters_of(entries).contains_key(entries[at].id@),
        waiters_of(entries)[entries[at].id@] == entries[at].waiter,
{
    let id = entries[at].id@;
    assert(ids_of(entries)[at] == id);
    let found = place_of(entries, id);
    assert(0 <= found < entries.len() && entries[found].id@ == id);
    assert(ids_of(entries)[found] == ids_of(entries)[at]);
}

/// One more entry under a new identifier adds its sender under that
/// identifier and leaves the others as they were.
proof fn lemma_waiters_push(entries: Seq<PendingEntry>, entry: PendingEntry)
    requires
        ids_of(entries).no_duplicates(),
        !ids_of(entries).contains(entry.id@),
    ensures
        ids_of(entries.push(entry)).no_duplicates(),
        waiters_of(entries.push(entry)) == waiters_of(entries).insert(entry.id@, entry.waiter),
{
    let more = entries.push(entry);
    assert(ids_of(more) =~= ids_of(entries).push(entry.id@));
    assert(ids_of(more).no_duplicates());
    let last = entries.len() as int;
    assert(more[last] == entry);
    lemma_waiter_at(more, last);
    assert forall|id: Seq<char>| #[trigger]
        waiters_of(more).contains_key(id) <==> (waiters_of(entries).contains_key(id) || id
            == entry.id@) by {
        if ids_of(entries).contains(id) {
            let k = choose|k: int| 0 <= k < entries.len() && ids_of(entries)[k] == id;
            assert(ids_of(more)[k] == id);
        }
        if ids_of(more).contains(id) && id != entry.id@ {
            let k = choose|k: int| 0 <= k < more.len() && ids_of(more)[k] == id;
            assert(ids_of(entries)[k] == id);
        }
    }
    assert forall|id: Seq<char>| waiters_of(entries).contains_key(id) implies #[trigger]
        waiters_of(more)[id] == waiters_of(entries)[id] by {
        let k = choose|k: int| 0 <= k < entries.len() && ids_of(entries)[k] == id;
        assert(more[k] == entries[k]);
        lemma_waiter_at(more, k);
        lemma_waiter_at(entries, k);
    }
    assert(waiters_of(more) =~= waiters_of(entries).insert(entry.id@, entry.waiter));
}

/// Without one entry its identifier holds no sender any more, and the
/// others hold what they held.
proof fn lemma_waiters_remove(entries: Seq<PendingEntry>, at: int)
    requires
        ids_of(entries).no_duplicates(),
        0 <= at < entries.len(),
    ensures
        ids_of(entries.remove(at)).no_duplicates(),
        waiters_of(entries.remove(at)) == waiters_of(entries).remove(entries[at].id@),
{
    let fewer = entries.remove(at);
    let gone = entries[at].id@;
    assert forall|k: int| 0 <= k < fewer.len() implies #[trigger] fewer[k] == entries[if k < at {
        k
    } else {
        k + 1
    }] by {}
    assert forall|a: int, b: int| 0 <= a < fewer.len() && 0 <= b < fewer.len() && a
        != b implies ids_of(fewer)[a] != ids_of(fewer)[b] by {
        let a0 = if a < at { a } else { a + 1 };
        let b0 = if b < at { b } else { b + 1 };
        assert(ids_of(entries)[a0] != ids_of(entries)[b0]);
    }
    assert(ids_of(fewer).no_duplicates());
    assert forall|id: Seq<char>| #[trigger]
        waiters_of(fewer).contains_key(id) <==> (waiters_of(entries).contains_key(id) && id
            != gone) by {
        if ids_of(fewer).contains(id) {
            let k = choose|k: int| 0 <= k < fewer.len() && ids_of(fewer)[k] == id;
            let k0 = if k < at { k } else { k + 1 };
            assert(ids_of(entries)[k0] == id);
            assert(ids_of(entries)[at] == gone);
        }
        if ids_of(entries).contains(id) && id != gone {
            let k = choose|k: int| 0 <= k < entries.len() && ids_of(entries)[k] == id;
            let k1 = if k < at { k } else { k - 1 };
            assert(ids_of(fewer)[k1] == id);
        }
    }
    assert forall|id: Seq<char>| waiters_of(fewer).contains_key(id) implies #[trigger]
        waiters_of(fewer)[id] == waiters_of(entries)[id] by {
        let k = choose|k: int| 0 <= k < fewer.len() && ids_of(fewer)[k] == id;
        let k0 = if k < at { k } else { k + 1 };
        assert(fewer[k] == entries[k0]);
        lemma_waiter_at(fewer, k);
        lemma_waiter_at(entries, k0);
    }
    assert(waiters_of(fewer) =~= waiters_of(entries).remove(gone));
}

impl PendingRegistry {
    /// The identifiers in the order of their registration.
    pub closed spec fn ids(&self) -> Seq<Seq<char>> {
        ids_of(self.entries@)
    }

    /// No identifier is pending twice.
    #[verifier::type_invariant]
    pub closed spec fn distinct(&self) -> bool {
        self.ids().no_duplicates()
    }

    /// The sending half of the channel of each pending request, under the
    /// identifier of the request.
    pub closed spec fn waiters(&self) -> Map<Seq<char>, Sender<FrontendResponsePayload>> {
        waiters_of(self.entries@)
    }

    /// The identifiers of the pending requests.
    pub open spec fn pending(&self) -> Set<Seq<char>> {
        self.waiters().dom()
    }

    /// A registry without pending requests.
    pub fn new() -> (r: PendingRegistry)
        ensures
            r.waiters() == Map::<Seq<char>, Sender<FrontendResponsePayload>>::empty(),
            r.pending() == Set::<Seq<char>>::empty(),
    {
        let r = PendingRegistry { entries: Vec::new() };
        assert(r.waiters() =~= Map::<Seq<char>, Sender<FrontendResponsePayload>>::empty());
        assert(r.pending() =~= Set::<Seq<char>>::empty());
        r
    }

    /// Where the request `id` stands among the entries.
    fn position(&self, id: &String) -> (r: Option<usize>)
        ensures
            match r {
                Some(i) => i < self.ids().len() && self.ids()[i as int] == id@,
                None => !self.ids().contains(id@),
            },
            r is Some == self.waiters().contains_key(id@),
    {
        let mut i: usize = 0;
        while i < self.entries.len()
            invariant
                i <= self.entries@.len(),
                forall|k: int| 0 <= k < i ==> self.ids()[k] != id@,
            decreases self.entries@.len() - i,
        {
            if self.entries[i].id == *id {
                assert(self.ids()[i as int] == id@);
                return Some(i);
            }
            i += 1;
        }
        assert(!self.ids().contains(id@));
        None
    }

    /// Tells whether a request is pending under `id`.
    pub fn is_pending(&self, id: &str) -> (r: bool)
        ensures
            r == finds(self.pending(), id@),
    {
        let key = id.to_owned();
        self.position(&key).is_some()
    }

    /// Makes the request `id` pending and returns the half of its channel on
    /// which its report will arrive.
    ///
    /// Fails with `AlreadyPending`, and changes nothing, exactly when a
    /// request is pending under `id` already. Otherwise the sending half of
    /// a new channel stands under `id`, and every other request keeps its
    /// own.
    pub fn register(&mut self, id: String) -> (r: Result<
        Receiver<FrontendResponsePayload>,
        RegistryError,
    >)
        ensures
            r is Ok == !finds(old(self).pending(), id@),
            r matches Err(e) ==> e == RegistryError::AlreadyPending && final(self).waiters() == old(
                self,
            ).waiters(),
            r is Ok ==> exists|waiter: Sender<FrontendResponsePayload>|
                final(self).waiters() == old(self).waiters().insert(id@, waiter),
            final(self).pending() == registered(old(self).pending(), id@),
    {
        proof {
            use_type_invariant(&*self);
        }
        if self.position(&id).is_some() {
            assert(self.pending() =~= registered(self.pending(), id@));
            return Err(RegistryError::AlreadyPending);
        }
        let (waiter, receiver) = tokio::sync::oneshot::channel::<FrontendResponsePayload>();
        let ghost before = self.entries@;
        let entry = PendingEntry { id, waiter };
        proof {
            lemma_waiters_push(before, entry);
        }
        let mut entries: Vec<PendingEntry> = Vec::new();
        core::mem::swap(&mut self.entries, &mut entries);
        entries.push(entry);
        core::mem::swap(&mut self.entries, &mut entries);
        proof {
            assert(self.waiters() == old(self).waiters().insert(id@, entry.waiter));
            assert(self.pending() =~= registered(old(self).pending(), id@));
        }
        Ok(receiver)
    }

    /// Takes the request `id` out of the registry, if it is pending, and
    /// hands out the sender that stood under it. Every other request keeps
    /// its own.
    fn take(&mut self, id: &String) -> (r: Option<Sender<FrontendResponsePayload>>)
        ensures
            r is Some == old(self).waiters().contains_key(id@),
            r matches Some(waiter) ==> waiter == old(self).waiters()[id@],
            final(self).waiters() == old(self).waiters().remove(id@),
            final(self).pending() == removed(old(self).pending(), id@),
    {
        proof {
            use_type_invariant(&*self);
        }
        match self.position(id) {
            None => {
                assert(self.waiters() =~= self.waiters().remove(id@));
                assert(self.pending() =~= removed(self.pending(), id@));
                None
            },
            Some(i) => {
                let ghost before = self.entries@;
                proof {
                    lemma_waiters_remove(before, i as int);
                    lemma_waiter_at(before, i as int);
                }
                let mut entries: Vec<PendingEntry> = Vec::new();
                core::mem::swap(&mut self.entries, &mut entries);
                let entry = entries.remove(i);
                core::mem::swap(&mut self.entries, &mut entries);
                proof {
                    assert(self.pending() =~= removed(old(self).pending(), id@));
                }
                Some(entry.waiter)
            },
        }
    }

    /// Takes the request that a report names out of the registry and hands
    /// out what completes it: the sender that stood under the identifier of
    /// the report, and the report as it came.
    ///
    /// Fails with `UnknownRequest` exactly when no request is pending under
    /// that identifier. Every other request keeps its sender.
    pub fn claim(&mut self, result: FrontendResponsePayload) -> (r: Result<
        (Sender<FrontendResponsePayload>, FrontendResponsePayload),
        RegistryError,
    >)
        ensures
            r is Ok == old(self).waiters().contains_key(result.request_id@),
            r matches Ok(claimed) ==> claimed.0 == old(self).waiters()[result.request_id@]
                && claimed.1 == result,
            r matches Err(e) ==> e == RegistryError::UnknownRequest,
            final(self).waiters() == old(self).waiters().remove(result.request_id@),
            final(self).pending() == removed(old(self).pending(), result.request_id@),
    {
        match self.take(&result.request_id) {
            None => Err(RegistryError::UnknownRequest),
            Some(waiter) => Ok((waiter, result)),
        }
    }

    /// Completes the request `result.request_id` with `result`: claims its
    /// sender as `claim` does and sends the report on it.
    ///
    /// The only failure is `UnknownRequest`. It is the answer wherever no
    /// request is pending under that identifier, and also where the request
    /// is pending but whoever waited for it has given up, so that the
    /// report came back. Either way no request is pending under the
    /// identifier afterwards, and every other request keeps its sender.
    pub fn resolve(&mut self, result: FrontendResponsePayload) -> (r: Result<(), RegistryError>)
        ensures
            r is Ok || r == Err::<(), RegistryError>(RegistryError::UnknownRequest),
            !finds(old(self).pending(), result.request_id@) ==> r == Err::<(), RegistryError>(
                RegistryError::UnknownRequest,
            ),
            final(self).waiters() == old(self).waiters().remove(result.request_id@),
            final(self).pending() == removed(old(self).pending(), result.request_id@),
    {
        match self.claim(result) {
            Err(e) => Err(e),
            Ok(claimed) => delivery(claimed.0.send(claimed.1)),
        }
    }

    /// Takes the request `id` out of the registry without completing it, and
    /// tells whether it was pending. Whoever waits for it learns that no
    /// report will come. Every other request keeps its sender.
    pub fn cancel(&mut self, id: &str) -> (r: bool)
        ensures
            r == finds(old(self).pending(), id@),
            final(self).waiters() == old(self).waiters().remove(id@),
            final(self).pending() == removed(old(self).pending(), id@),
    {
        let key = id.to_owned();
        self.take(&key).is_some()
    }
}

/// What handing over a report amounts to: success, or `UnknownRequest`
/// where the report came back because nobody waited for it any more.
pub fn delivery(sent: Result<(), FrontendResponsePayload>) -> (r: Result<(), RegistryError>)
    ensures
        r == match sent {
            Ok(_) => Ok::<(), RegistryError>(()),
            Err(_) => Err(RegistryError::UnknownRequest),
        },
{
    match sent {
        Ok(_) => Ok(()),
        Err(_) => Err(RegistryError::UnknownRequest),
    }
}

} // verus!

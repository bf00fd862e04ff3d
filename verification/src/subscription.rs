//! Bounded, revisioned, idempotently-cancellable subscriptions: the
//! bookkeeping of who is subscribed to what and the revision each
//! notification carries, and each subscription's bounded mailbox. Sharing
//! them between threads belongs to the platform shell.

use vstd::prelude::*;
use crate::event::{Event, EventKind, SubscriptionKind};

verus! {

pub type SubscriptionId = u64;

/// Subscription ids in `s` are pairwise distinct.
pub open spec fn ids_unique(s: Seq<(SubscriptionId, SubscriptionKind)>) -> bool {
    forall|i: int, j: int| 0 <= i < j < s.len() ==> #[trigger] s[i].0 != #[trigger] s[j].0
}

/// The map a sequence of `(id, kind)` pairs with distinct ids denotes.
pub open spec fn subscriber_map(s: Seq<(SubscriptionId, SubscriptionKind)>) -> Map<
    SubscriptionId,
    SubscriptionKind,
> {
    Map::new(
        |id: SubscriptionId| exists|i: int| 0 <= i < s.len() && #[trigger] s[i].0 == id,
        |id: SubscriptionId| s[choose|i: int| 0 <= i < s.len() && #[trigger] s[i].0 == id].1,
    )
}

/// The subscriptions that an event of `kind` reaches.
pub open spec fn recipients_of(subs: Map<SubscriptionId, SubscriptionKind>, kind: SubscriptionKind) -> Set<
    SubscriptionId,
> {
    Set::new(|id: SubscriptionId| subs.contains_key(id) && subs[id] == kind)
}

proof fn lemma_subscriber_at(s: Seq<(SubscriptionId, SubscriptionKind)>, i: int)
    requires
        ids_unique(s),
        0 <= i < s.len(),
    ensures
        subscriber_map(s).contains_key(s[i].0),
        subscriber_map(s)[s[i].0] == s[i].1,
{
    let j = choose|j: int| 0 <= j < s.len() && #[trigger] s[j].0 == s[i].0;
    if j < i {
        assert(s[j].0 != s[i].0);
    } else if j > i {
        assert(s[i].0 != s[j].0);
    }
}

/// What a registry holds, as mathematical values.
pub struct RegistryState {
    pub next_id: SubscriptionId,
    pub subscribers: Map<SubscriptionId, SubscriptionKind>,
    pub revision: u64,
}

/// Who is subscribed to which kind of event, and the last revision sent.
pub struct SubscriptionRegistry {
    next_id: SubscriptionId,
    subscribers: Vec<(SubscriptionId, SubscriptionKind)>,
    revision: u64,
}

impl View for SubscriptionRegistry {
    type V = RegistryState;

    closed spec fn view(&self) -> RegistryState {
        RegistryState {
            next_id: self.next_id,
            subscribers: subscriber_map(self.subscribers@),
            revision: self.revision,
        }
    }
}

impl SubscriptionRegistry {
    #[verifier::type_invariant]
    spec fn inv(self) -> bool {
        ids_unique(self.subscribers@)
    }

    pub fn new() -> (r: Self)
        ensures
            r@.next_id == 1,
            r@.subscribers == Map::<SubscriptionId, SubscriptionKind>::empty(),
            r@.revision == 0,
    {
        let r = SubscriptionRegistry { next_id: 1, subscribers: Vec::new(), revision: 0 };
        assert(r@.subscribers =~= Map::<SubscriptionId, SubscriptionKind>::empty());
        r
    }

    /// The revision of the last event issued.
    pub fn revision(&self) -> (r: u64)
        ensures
            r == self@.revision,
    {
        self.revision
    }

    /// The position of `id`, if it is subscribed.
    fn find(&self, id: SubscriptionId) -> (p: Option<usize>)
        ensures
            p matches Some(i) ==> i < self.subscribers@.len() && self.subscribers@[i as int].0 == id,
            p is None ==> forall|i: int|
                0 <= i < self.subscribers@.len() ==> #[trigger] self.subscribers@[i].0 != id,
    {
        let mut i: usize = 0;
        while i < self.subscribers.len()
            invariant
                i <= self.subscribers@.len(),
                forall|j: int| 0 <= j < i ==> #[trigger] self.subscribers@[j].0 != id,
            decreases self.subscribers@.len() - i,
        {
            if self.subscribers[i].0 == id {
                return Some(i);
            }
            i = i + 1;
        }
        None
    }

    /// Register a subscriber for `kind`; it gets the next id, and ids wrap
    /// after `u64::MAX`.
    pub fn subscribe(&mut self, kind: SubscriptionKind) -> (id: SubscriptionId)
        ensures
            id == old(self)@.next_id,
            final(self)@.next_id == if old(self)@.next_id == u64::MAX {
                0
            } else {
                (old(self)@.next_id + 1) as u64
            },
            final(self)@.subscribers == old(self)@.subscribers.insert(id, kind),
            final(self)@.revision == old(self)@.revision,
    {
        proof {
            use_type_invariant(&*self);
        }
        let id = self.next_id;
        let ghost s = self.subscribers@;
        let mut subs = Vec::new();
        std::mem::swap(&mut subs, &mut self.subscribers);
        match self.find_in(&subs, id) {
            Some(i) => {
                subs.set(i, (id, kind));
            },
            None => {
                subs.push((id, kind));
            },
        }
        proof {
            let t = subs@;
            assert forall|i: int, j: int| 0 <= i < j < t.len() implies #[trigger] t[i].0
                != #[trigger] t[j].0 by {
                if j == s.len() {
                    assert(t[i] == s[i]);
                } else {
                    assert(t[i].0 == s[i].0 && t[j].0 == s[j].0);
                }
            }
            let want = subscriber_map(s).insert(id, kind);
            assert forall|q: SubscriptionId| subscriber_map(t).contains_key(q) <==> want.contains_key(q) by {
                if subscriber_map(t).contains_key(q) && q != id {
                    let i = choose|i: int| 0 <= i < t.len() && #[trigger] t[i].0 == q;
                    assert(s[i].0 == q);
                }
                if want.contains_key(q) && q != id {
                    let i = choose|i: int| 0 <= i < s.len() && #[trigger] s[i].0 == q;
                    assert(t[i].0 == q);
                }
                if q == id {
                    let k = if t.len() > s.len() { s.len() as int } else { choose|i: int| 0 <= i < s.len() && s[i].0 == id };
                    assert(t[k].0 == id);
                }
            }
            assert forall|q: SubscriptionId| subscriber_map(t).contains_key(q) implies subscriber_map(t)[q] == want[q] by {
                let i = choose|i: int| 0 <= i < t.len() && #[trigger] t[i].0 == q;
                lemma_subscriber_at(t, i);
                if q != id {
                    lemma_subscriber_at(s, i);
                }
            }
            assert(subscriber_map(t) =~= want);
        }
        self.subscribers = subs;
        self.next_id = self.next_id.wrapping_add(1);
        id
    }

    fn find_in(&self, subs: &Vec<(SubscriptionId, SubscriptionKind)>, id: SubscriptionId) -> (p: Option<usize>)
        ensures
            p matches Some(i) ==> i < subs@.len() && subs@[i as int].0 == id,
            p is None ==> forall|i: int| 0 <= i < subs@.len() ==> #[trigger] subs@[i].0 != id,
    {
        let mut i: usize = 0;
        while i < subs.len()
            invariant
                i <= subs@.len(),
                forall|j: int| 0 <= j < i ==> #[trigger] subs@[j].0 != id,
            decreases subs@.len() - i,
        {
            if subs[i].0 == id {
                return Some(i);
            }
            i = i + 1;
        }
        None
    }

    /// Cancel a subscription. Cancelling twice is the same as cancelling once.
    pub fn unsubscribe(&mut self, id: SubscriptionId)
        ensures
            final(self)@.subscribers == old(self)@.subscribers.remove(id),
            final(self)@.next_id == old(self)@.next_id,
            final(self)@.revision == old(self)@.revision,
    {
        proof {
            use_type_invariant(&*self);
        }
        let ghost s = self.subscribers@;
        match self.find(id) {
            Some(i) => {
                let mut subs = Vec::new();
                std::mem::swap(&mut subs, &mut self.subscribers);
                subs.remove(i);
                proof {
                    let t = subs@;
                    assert forall|a: int, b: int| 0 <= a < b < t.len() implies #[trigger] t[a].0
                        != #[trigger] t[b].0 by {
                        if b < i {
                            assert(t[a] == s[a] && t[b] == s[b]);
                        } else if a < i {
                            assert(t[a] == s[a] && t[b] == s[b + 1]);
                        } else {
                            assert(t[a] == s[a + 1] && t[b] == s[b + 1]);
                        }
                    }
                    let want = subscriber_map(s).remove(id);
                    assert forall|q: SubscriptionId| subscriber_map(t).contains_key(q) <==> want.contains_key(q) by {
                        if subscriber_map(t).contains_key(q) {
                            let k = choose|k: int| 0 <= k < t.len() && #[trigger] t[k].0 == q;
                            if k < i {
                                assert(s[k].0 == q);
                                assert(s[k].0 != s[i as int].0);
                            } else {
                                assert(s[k + 1].0 == q);
                                assert(s[i as int].0 != s[k + 1].0);
                            }
                        }
                        if want.contains_key(q) {
                            let k = choose|k: int| 0 <= k < s.len() && #[trigger] s[k].0 == q;
                            if k < i {
                                assert(t[k].0 == q);
                            } else {
                                assert(k != i);
                                assert(t[k - 1].0 == q);
                            }
                        }
                    }
                    assert forall|q: SubscriptionId| subscriber_map(t).contains_key(q) implies subscriber_map(t)[q] == want[q] by {
                        let k = choose|k: int| 0 <= k < t.len() && #[trigger] t[k].0 == q;
                        lemma_subscriber_at(t, k);
                        if k < i {
                            lemma_subscriber_at(s, k);
                        } else {
                            lemma_subscriber_at(s, k + 1);
                        }
                    }
                    assert(subscriber_map(t) =~= want);
                }
                self.subscribers = subs;
            },
            None => {
                proof {
                    assert(subscriber_map(s) =~= subscriber_map(s).remove(id));
                }
            },
        }
    }

    /// Issue the next revision as an event of `event_kind`, and list the
    /// subscriptions of `kind` it is to be delivered to.
    pub fn notify(&mut self, kind: SubscriptionKind, event_kind: EventKind) -> (r: (
        Event,
        Vec<SubscriptionId>,
    ))
        requires
            old(self)@.revision < u64::MAX,
        ensures
            final(self)@.revision == old(self)@.revision + 1,
            final(self)@.subscribers == old(self)@.subscribers,
            final(self)@.next_id == old(self)@.next_id,
            r.0 == (Event { revision: final(self)@.revision, kind: event_kind }),
            r.1@.no_duplicates(),
            r.1@.to_set() == recipients_of(old(self)@.subscribers, kind),
    {
        proof {
            use_type_invariant(&*self);
        }
        self.revision = self.revision + 1;
        let event = Event { revision: self.revision, kind: event_kind };
        let ghost s = self.subscribers@;
        let mut out: Vec<SubscriptionId> = Vec::new();
        let mut i: usize = 0;
        while i < self.subscribers.len()
            invariant
                self.subscribers@ == s,
                ids_unique(s),
                i <= s.len(),
                out@.no_duplicates(),
                forall|id: SubscriptionId|
                    out@.contains(id) <==> exists|j: int|
                        0 <= j < i && #[trigger] s[j].0 == id && s[j].1 == kind,
            decreases s.len() - i,
        {
            let (id, k) = self.subscribers[i];
            let ghost prev = out@;
            if k == kind {
                proof {
                    assert forall|j: int| 0 <= j < out@.len() implies out@[j] != id by {
                        assert(out@.contains(out@[j]));
                        let jj = choose|jj: int| 0 <= jj < i && #[trigger] s[jj].0 == out@[j] && s[jj].1 == kind;
                        assert(s[jj].0 != s[i as int].0);
                    }
                }
                out.push(id);
            }
            proof {
                assert(s[i as int].0 == id && s[i as int].1 == k);
                assert forall|q: SubscriptionId|
                    out@.contains(q) <==> exists|j: int|
                        0 <= j < i + 1 && #[trigger] s[j].0 == q && s[j].1 == kind by {
                    if out@.contains(q) {
                        if k == kind && q == id {
                            assert(s[i as int].0 == q);
                        } else {
                            let x = choose|x: int| 0 <= x < out@.len() && out@[x] == q;
                            assert(prev[x] == q);
                            assert(prev.contains(q));
                        }
                    }
                    if exists|j: int| 0 <= j < i + 1 && #[trigger] s[j].0 == q && s[j].1 == kind {
                        let j = choose|j: int| 0 <= j < i + 1 && #[trigger] s[j].0 == q && s[j].1 == kind;
                        if j < i {
                            assert(prev.contains(q));
                            let x = choose|x: int| 0 <= x < prev.len() && prev[x] == q;
                            assert(out@[x] == q);
                        } else {
                            assert(out@[out@.len() - 1] == q);
                        }
                    }
                }
            }
            i = i + 1;
        }
        proof {
            assert forall|id: SubscriptionId| out@.to_set().contains(id) <==> recipients_of(
                subscriber_map(s),
                kind,
            ).contains(id) by {
                if out@.contains(id) {
                    let j = choose|j: int| 0 <= j < s.len() && #[trigger] s[j].0 == id && s[j].1 == kind;
                    lemma_subscriber_at(s, j);
                }
                if recipients_of(subscriber_map(s), kind).contains(id) {
                    let j = choose|j: int| 0 <= j < s.len() && #[trigger] s[j].0 == id;
                    lemma_subscriber_at(s, j);
                }
            }
            assert(out@.to_set() =~= recipients_of(subscriber_map(s), kind));
        }
        (event, out)
    }
}

/// How many undelivered events a subscription holds before later ones are
/// dropped.
pub const CHANNEL_BOUND: usize = 16;

/// Why `try_recv` returned no event.
#[derive(Clone, Copy, Debug, PartialEq, Eq, Structural)]
pub enum TryRecvError {
    /// Nothing is waiting, and events may still arrive.
    Empty,
    /// Nothing is waiting, and the subscription was cancelled.
    Disconnected,
}

/// `recv` found the subscription cancelled and nothing left to take.
#[derive(Clone, Copy, Debug, PartialEq, Eq, Structural)]
pub struct RecvError;

/// What a subscription's mailbox holds, as mathematical values.
pub struct MailboxState {
    pub id: SubscriptionId,
    pub pending: Seq<Event>,
    pub connected: bool,
}

/// The receiving end of a subscription: a bounded first-in first-out
/// mailbox. A slow consumer's overflow is dropped; the monotonic revision of
/// the events it does receive lets it detect the gap.
pub struct Subscription {
    id: SubscriptionId,
    pending: Vec<Event>,
    connected: bool,
}

impl View for Subscription {
    type V = MailboxState;

    closed spec fn view(&self) -> MailboxState {
        MailboxState { id: self.id, pending: self.pending@, connected: self.connected }
    }
}

impl Subscription {
    #[verifier::type_invariant]
    spec fn inv(self) -> bool {
        self.pending@.len() <= CHANNEL_BOUND
    }

    /// An empty, connected mailbox for subscription `id`.
    pub fn new(id: SubscriptionId) -> (r: Self)
        ensures
            r@.id == id,
            r@.pending == Seq::<Event>::empty(),
            r@.connected,
    {
        Subscription { id, pending: Vec::new(), connected: true }
    }

    pub fn id(&self) -> (r: SubscriptionId)
        ensures
            r == self@.id,
    {
        self.id
    }

    /// Offer an event without blocking. It is queued when the subscription
    /// is connected and holds fewer than `CHANNEL_BOUND` events; otherwise it
    /// is dropped. Returns whether it was queued.
    pub fn deliver(&mut self, event: Event) -> (queued: bool)
        ensures
            queued == (old(self)@.connected && old(self)@.pending.len() < CHANNEL_BOUND),
            final(self)@.pending == if queued {
                old(self)@.pending.push(event)
            } else {
                old(self)@.pending
            },
            final(self)@.id == old(self)@.id,
            final(self)@.connected == old(self)@.connected,
    {
        proof {
            use_type_invariant(&*self);
        }
        if self.connected && self.pending.len() < CHANNEL_BOUND {
            let mut q = Vec::new();
            std::mem::swap(&mut q, &mut self.pending);
            q.push(event);
            self.pending = q;
            true
        } else {
            false
        }
    }

    /// Take the oldest waiting event without blocking. Events queued before
    /// a cancellation are still handed out; after them comes `Disconnected`.
    pub fn try_recv(&mut self) -> (r: Result<Event, TryRecvError>)
        ensures
            old(self)@.pending.len() > 0 ==> r == Ok::<Event, TryRecvError>(old(self)@.pending[0])
                && final(self)@.pending == old(self)@.pending.drop_first(),
            old(self)@.pending.len() == 0 ==> final(self)@.pending == old(self)@.pending && r
                == Err::<Event, TryRecvError>(
                if old(self)@.connected {
                    TryRecvError::Empty
                } else {
                    TryRecvError::Disconnected
                },
            ),
            final(self)@.id == old(self)@.id,
            final(self)@.connected == old(self)@.connected,
    {
        proof {
            use_type_invariant(&*self);
        }
        if self.pending.len() > 0 {
            let mut q = Vec::new();
            std::mem::swap(&mut q, &mut self.pending);
            let e = q.remove(0);
            proof {
                assert(q@ =~= old(self)@.pending.drop_first());
            }
            self.pending = q;
            Ok(e)
        } else if self.connected {
            Err(TryRecvError::Empty)
        } else {
            Err(TryRecvError::Disconnected)
        }
    }

    /// Whether `recv` returns at once: an event is waiting, or the
    /// subscription is cancelled.
    pub open spec fn ready(self) -> bool {
        self@.pending.len() > 0 || !self@.connected
    }

    /// Whether an event is waiting or the subscription is cancelled.
    pub fn is_ready(&self) -> (r: bool)
        ensures
            r == self.ready(),
    {
        self.pending.len() > 0 || !self.connected
    }

    /// Take the oldest waiting event, or learn that the subscription is
    /// cancelled and drained. The mailbox is owned by its reader, so nothing
    /// can arrive while it waits: it is called once the mailbox is ready
    /// (the caller waits for that, outside the mailbox).
    pub fn recv(&mut self) -> (r: Result<Event, RecvError>)
        requires
            old(self).ready(),
        ensures
            old(self)@.pending.len() > 0 ==> r == Ok::<Event, RecvError>(old(self)@.pending[0])
                && final(self)@.pending == old(self)@.pending.drop_first(),
            old(self)@.pending.len() == 0 ==> r == Err::<Event, RecvError>(RecvError)
                && final(self)@.pending == old(self)@.pending,
            final(self)@.id == old(self)@.id,
            final(self)@.connected == old(self)@.connected,
    {
        match self.try_recv() {
            Ok(e) => Ok(e),
            Err(_) => Err(RecvError),
        }
    }

    /// Cancel the subscription: nothing more is queued, and once the events
    /// already queued are taken, `try_recv` reports the disconnection.
    /// Idempotent. The registry forgets the subscription by `unsubscribe`.
    pub fn cancel(&mut self)
        ensures
            final(self)@ == cancelled(old(self)@),
    {
        proof {
            use_type_invariant(&*self);
        }
        self.connected = false;
    }
}

/// The mailbox once cancelled: it keeps what it holds and takes nothing more.
pub open spec fn cancelled(m: MailboxState) -> MailboxState {
    MailboxState { connected: false, ..m }
}

/// The mailbox after the next event is taken from it, and what taking it
/// gives.
pub open spec fn taken(m: MailboxState) -> (MailboxState, Result<Event, TryRecvError>) {
    if m.pending.len() > 0 {
        (MailboxState { pending: m.pending.drop_first(), ..m }, Ok(m.pending[0]))
    } else {
        (
            m,
            Err(
                if m.connected {
                    TryRecvError::Empty
                } else {
                    TryRecvError::Disconnected
                },
            ),
        )
    }
}

/// The mailbox after `event` is offered to the subscriptions in `to`.
pub open spec fn offered(m: MailboxState, event: Event, to: Set<SubscriptionId>) -> MailboxState {
    if to.contains(m.id) && m.connected && m.pending.len() < CHANNEL_BOUND {
        MailboxState { pending: m.pending.push(event), ..m }
    } else {
        m
    }
}

/// The revisions of `events` strictly increase.
pub open spec fn revisions_increase(events: Seq<Event>) -> bool {
    forall|i: int, j: int| 0 <= i < j < events.len() ==> #[trigger] events[i].revision < #[trigger] events[j].revision
}

/// Some mailbox of `ms` belongs to subscription `id`.
pub open spec fn has_mailbox(ms: Seq<MailboxState>, id: SubscriptionId) -> bool {
    exists|j: int| 0 <= j < ms.len() && #[trigger] ms[j].id == id
}

/// The position of the first mailbox of subscription `id`.
pub open spec fn first_mailbox(ms: Seq<MailboxState>, id: SubscriptionId) -> int {
    choose|j: int|
        0 <= j < ms.len() && ms[j].id == id && forall|k: int| 0 <= k < j ==> #[trigger] ms[k].id != id
}

/// Every mailbox of the hub holds events of strictly increasing revision,
/// none newer than the last revision issued.
pub open spec fn hub_ordered(h: HubState) -> bool {
    forall|i: int|
        0 <= i < h.mailboxes.len() ==> {
            let p = (#[trigger] h.mailboxes[i]).pending;
            &&& revisions_increase(p)
            &&& forall|k: int| 0 <= k < p.len() ==> #[trigger] p[k].revision <= h.registry.revision
        }
}

/// What a hub holds, as mathematical values.
pub struct HubState {
    pub registry: RegistryState,
    pub mailboxes: Seq<MailboxState>,
}

/// The registry together with the mailbox of every subscription it issued:
/// notifying puts the new revision in the mailbox of each recipient.
pub struct SubscriptionHub {
    registry: SubscriptionRegistry,
    mailboxes: Vec<Subscription>,
}

impl View for SubscriptionHub {
    type V = HubState;

    closed spec fn view(&self) -> HubState {
        HubState { registry: self.registry@, mailboxes: self.mailboxes@.map_values(|m: Subscription| m@) }
    }
}

proof fn lemma_view_ordered(ms: Seq<Subscription>, reg: RegistryState)
    requires
        forall|i: int|
            0 <= i < ms.len() ==> {
                let p = (#[trigger] ms[i])@.pending;
                &&& revisions_increase(p)
                &&& forall|k: int| 0 <= k < p.len() ==> #[trigger] p[k].revision <= reg.revision
            },
    ensures
        hub_ordered(HubState { registry: reg, mailboxes: ms.map_values(|m: Subscription| m@) }),
{
    let h = HubState { registry: reg, mailboxes: ms.map_values(|m: Subscription| m@) };
    assert forall|i: int| 0 <= i < h.mailboxes.len() implies {
        let p = (#[trigger] h.mailboxes[i]).pending;
        &&& revisions_increase(p)
        &&& forall|k: int| 0 <= k < p.len() ==> #[trigger] p[k].revision <= h.registry.revision
    } by {
        assert(h.mailboxes[i] == ms[i]@);
    }
}

/// Whether some entry of `v` is `id`.
fn lists_id(v: &Vec<SubscriptionId>, id: SubscriptionId) -> (r: bool)
    ensures
        r == v@.contains(id),
{
    let mut i: usize = 0;
    while i < v.len()
        invariant
            i <= v@.len(),
            forall|k: int| 0 <= k < i ==> v@[k] != id,
        decreases v@.len() - i,
    {
        if v[i] == id {
            return true;
        }
        i = i + 1;
    }
    false
}

impl SubscriptionHub {
    /// Every mailbox holds events of increasing revision, none newer than
    /// the last revision issued.
    #[verifier::type_invariant]
    spec fn inv(self) -> bool {
        forall|i: int|
            0 <= i < self.mailboxes@.len() ==> {
                let p = (#[trigger] self.mailboxes@[i])@.pending;
                &&& revisions_increase(p)
                &&& forall|k: int| 0 <= k < p.len() ==> #[trigger] p[k].revision <= self.registry@.revision
            }
    }

    pub fn new() -> (h: Self)
        ensures
            hub_ordered(h@),
            h@.registry.next_id == 1,
            h@.registry.subscribers == Map::<SubscriptionId, SubscriptionKind>::empty(),
            h@.registry.revision == 0,
            h@.mailboxes == Seq::<MailboxState>::empty(),
    {
        let h = SubscriptionHub { registry: SubscriptionRegistry::new(), mailboxes: Vec::new() };
        assert(h@.mailboxes =~= Seq::<MailboxState>::empty());
        proof {
            lemma_view_ordered(h.mailboxes@, h.registry@);
        }
        h
    }

    /// The revision of the last event issued.
    pub fn revision(&self) -> (r: u64)
        ensures
            r == self@.registry.revision,
    {
        self.registry.revision()
    }

    /// Subscribe to events of `kind`; the new subscription's mailbox is
    /// empty.
    pub fn subscribe(&mut self, kind: SubscriptionKind) -> (id: SubscriptionId)
        ensures
            hub_ordered(final(self)@),
            id == old(self)@.registry.next_id,
            final(self)@.registry.next_id == if old(self)@.registry.next_id == u64::MAX {
                0
            } else {
                (old(self)@.registry.next_id + 1) as u64
            },
            final(self)@.registry.subscribers == old(self)@.registry.subscribers.insert(id, kind),
            final(self)@.registry.revision == old(self)@.registry.revision,
            final(self)@.mailboxes == old(self)@.mailboxes.push(
                MailboxState { id, pending: Seq::empty(), connected: true },
            ),
    {
        proof {
            use_type_invariant(&*self);
        }
        let mut ms = Vec::new();
        std::mem::swap(&mut ms, &mut self.mailboxes);
        let mut reg = SubscriptionRegistry::new();
        std::mem::swap(&mut reg, &mut self.registry);
        let id = reg.subscribe(kind);
        self.registry = reg;
        let ghost before = ms@;
        ms.push(Subscription::new(id));
        proof {
            assert forall|i: int| 0 <= i < ms@.len() implies {
                let p = (#[trigger] ms@[i])@.pending;
                &&& revisions_increase(p)
                &&& forall|k: int| 0 <= k < p.len() ==> #[trigger] p[k].revision <= self.registry@.revision
            } by {
                if i < before.len() {
                    assert(ms@[i] == before[i]);
                    assert(old(self).mailboxes@[i] == before[i]);
                }
            }
        }
        self.mailboxes = ms;
        proof {
            assert(self@.mailboxes =~= old(self)@.mailboxes.push(
                MailboxState { id, pending: Seq::empty(), connected: true },
            ));
        }
        proof {
            use_type_invariant(&*self);
            lemma_view_ordered(self.mailboxes@, self.registry@);
        }
        id
    }

    /// Cancel subscription `id`: the registry forgets it and its mailbox
    /// takes nothing more. Idempotent.
    pub fn cancel(&mut self, id: SubscriptionId)
        ensures
            hub_ordered(final(self)@),
            final(self)@.registry.subscribers == old(self)@.registry.subscribers.remove(id),
            final(self)@.registry.next_id == old(self)@.registry.next_id,
            final(self)@.registry.revision == old(self)@.registry.revision,
            final(self)@.mailboxes.len() == old(self)@.mailboxes.len(),
            forall|i: int|
                0 <= i < old(self)@.mailboxes.len() ==> #[trigger] final(self)@.mailboxes[i] == if old(
                    self,
                )@.mailboxes[i].id == id {
                    MailboxState { connected: false, ..old(self)@.mailboxes[i] }
                } else {
                    old(self)@.mailboxes[i]
                },
    {
        proof {
            use_type_invariant(&*self);
        }
        let mut olds = Vec::new();
        std::mem::swap(&mut olds, &mut self.mailboxes);
        let mut reg = SubscriptionRegistry::new();
        std::mem::swap(&mut reg, &mut self.registry);
        reg.unsubscribe(id);
        self.registry = reg;
        let ghost orig = olds@;
        let ghost rev = self.registry@.revision;
        let n = olds.len();
        let mut out: Vec<Subscription> = Vec::new();
        let mut i: usize = 0;
        while i < n
            invariant
                n == orig.len(),
                i <= n,
                olds@ == orig.skip(i as int),
                out@.len() == i,
                forall|j: int|
                    0 <= j < i ==> (#[trigger] out@[j])@ == if orig[j]@.id == id {
                        MailboxState { connected: false, ..orig[j]@ }
                    } else {
                        orig[j]@
                    },
                forall|j: int|
                    0 <= j < n ==> {
                        let p = (#[trigger] orig[j])@.pending;
                        &&& revisions_increase(p)
                        &&& forall|k: int| 0 <= k < p.len() ==> #[trigger] p[k].revision <= rev
                    },
            decreases n - i,
        {
            let mut m = olds.remove(0);
            proof {
                assert(m == orig[i as int]);
                assert(olds@ =~= orig.skip(i + 1));
            }
            if m.id() == id {
                m.cancel();
            }
            out.push(m);
            i = i + 1;
        }
        proof {
            assert forall|j: int| 0 <= j < out@.len() implies {
                let p = (#[trigger] out@[j])@.pending;
                &&& revisions_increase(p)
                &&& forall|k: int| 0 <= k < p.len() ==> #[trigger] p[k].revision <= self.registry@.revision
            } by {
                assert(out@[j]@.pending == orig[j]@.pending);
            }
        }
        self.mailboxes = out;
        proof {
            assert forall|j: int| 0 <= j < old(self)@.mailboxes.len() implies #[trigger] self@.mailboxes[j]
                == if old(self)@.mailboxes[j].id == id {
                MailboxState { connected: false, ..old(self)@.mailboxes[j] }
            } else {
                old(self)@.mailboxes[j]
            } by {
                assert(old(self)@.mailboxes[j] == orig[j]@);
            }
        }
        proof {
            use_type_invariant(&*self);
            lemma_view_ordered(self.mailboxes@, self.registry@);
        }
    }

    /// Issue the next revision as an event of `event_kind` and offer it to
    /// every subscriber of `kind`: each one's mailbox keeps it unless full
    /// (the gap then shows in the revisions it receives).
    pub fn notify(&mut self, kind: SubscriptionKind, event_kind: EventKind) -> (e: Event)
        requires
            old(self)@.registry.revision < u64::MAX,
        ensures
            hub_ordered(final(self)@),
            final(self)@.registry.revision == old(self)@.registry.revision + 1,
            final(self)@.registry.subscribers == old(self)@.registry.subscribers,
            final(self)@.registry.next_id == old(self)@.registry.next_id,
            e == (Event { revision: final(self)@.registry.revision, kind: event_kind }),
            final(self)@.mailboxes.len() == old(self)@.mailboxes.len(),
            forall|i: int|
                0 <= i < old(self)@.mailboxes.len() ==> #[trigger] final(self)@.mailboxes[i] == offered(
                    old(self)@.mailboxes[i],
                    e,
                    recipients_of(old(self)@.registry.subscribers, kind),
                ),
    {
        proof {
            use_type_invariant(&*self);
        }
        let ghost to = recipients_of(self.registry@.subscribers, kind);
        let mut olds = Vec::new();
        std::mem::swap(&mut olds, &mut self.mailboxes);
        let mut reg = SubscriptionRegistry::new();
        std::mem::swap(&mut reg, &mut self.registry);
        let (event, recipients) = reg.notify(kind, event_kind);
        self.registry = reg;
        let ghost orig = olds@;
        let ghost rev = self.registry@.revision;
        let n = olds.len();
        let mut out: Vec<Subscription> = Vec::new();
        let mut i: usize = 0;
        while i < n
            invariant
                n == orig.len(),
                i <= n,
                olds@ == orig.skip(i as int),
                out@.len() == i,
                recipients@.to_set() == to,
                event.revision == rev,
                forall|j: int| 0 <= j < i ==> (#[trigger] out@[j])@ == offered(orig[j]@, event, to),
                forall|j: int|
                    0 <= j < n ==> {
                        let p = (#[trigger] orig[j])@.pending;
                        &&& revisions_increase(p)
                        &&& forall|k: int| 0 <= k < p.len() ==> #[trigger] p[k].revision < rev
                    },
            decreases n - i,
        {
            let mut m = olds.remove(0);
            proof {
                assert(m == orig[i as int]);
                assert(olds@ =~= orig.skip(i + 1));
            }
            if lists_id(&recipients, m.id()) {
                proof {
                    assert(recipients@.to_set().contains(m@.id));
                }
                let _ = m.deliver(event);
            } else {
                proof {
                    assert(!recipients@.to_set().contains(m@.id));
                }
            }
            out.push(m);
            i = i + 1;
        }
        proof {
            assert forall|j: int| 0 <= j < out@.len() implies {
                let p = (#[trigger] out@[j])@.pending;
                &&& revisions_increase(p)
                &&& forall|k: int| 0 <= k < p.len() ==> #[trigger] p[k].revision <= self.registry@.revision
            } by {
                let q = orig[j]@.pending;
                let p = out@[j]@.pending;
                assert forall|k: int| 0 <= k < q.len() implies #[trigger] q[k].revision < rev by {}
                if p != q {
                    assert(p == q.push(event));
                    assert forall|a: int, b: int| 0 <= a < b < p.len() implies #[trigger] p[a].revision
                        < #[trigger] p[b].revision by {
                        if b == q.len() {
                            assert(p[a] == q[a]);
                        } else {
                            assert(p[a] == q[a] && p[b] == q[b]);
                        }
                    }
                    assert forall|k: int| 0 <= k < p.len() implies #[trigger] p[k].revision
                        <= self.registry@.revision by {
                        if k < q.len() {
                            assert(p[k] == q[k]);
                        }
                    }
                }
            }
        }
        self.mailboxes = out;
        proof {
            assert forall|j: int| 0 <= j < old(self)@.mailboxes.len() implies #[trigger] self@.mailboxes[j]
                == offered(old(self)@.mailboxes[j], event, to) by {
                assert(old(self)@.mailboxes[j] == orig[j]@);
            }
        }
        proof {
            use_type_invariant(&*self);
            lemma_view_ordered(self.mailboxes@, self.registry@);
        }
        event
    }

    /// The position of the first mailbox of subscription `id`.
    fn find_mailbox(&self, id: SubscriptionId) -> (p: Option<usize>)
        ensures
            p is None <==> !has_mailbox(self@.mailboxes, id),
            p matches Some(j) ==> j == first_mailbox(self@.mailboxes, id) && j < self@.mailboxes.len(),
    {
        let ghost ms = self@.mailboxes;
        let mut i: usize = 0;
        while i < self.mailboxes.len()
            invariant
                ms == self@.mailboxes,
                i <= ms.len(),
                forall|k: int| 0 <= k < i ==> #[trigger] ms[k].id != id,
            decreases ms.len() - i,
        {
            if self.mailboxes[i].id() == id {
                proof {
                    assert(ms[i as int].id == id);
                    let f = first_mailbox(ms, id);
                    assert(0 <= i < ms.len() && ms[i as int].id == id && forall|k: int|
                        0 <= k < i ==> #[trigger] ms[k].id != id);
                    if f != i {
                        if f < i {
                            assert(ms[f].id != id);
                        } else {
                            assert(ms[i as int].id != id);
                        }
                    }
                }
                return Some(i);
            }
            i = i + 1;
        }
        None
    }

    /// Whether `recv` for subscription `id` returns at once: it has no
    /// mailbox, or its mailbox holds an event or is cancelled.
    pub open spec fn ready_for(self, id: SubscriptionId) -> bool {
        !has_mailbox(self@.mailboxes, id) || {
            let m = self@.mailboxes[first_mailbox(self@.mailboxes, id)];
            m.pending.len() > 0 || !m.connected
        }
    }

    pub fn is_ready(&self, id: SubscriptionId) -> (r: bool)
        ensures
            r == self.ready_for(id),
    {
        match self.find_mailbox(id) {
            None => true,
            Some(j) => self.mailboxes[j].is_ready(),
        }
    }

    /// Take the oldest event waiting for subscription `id`, or learn that it
    /// is cancelled and drained (or unknown). Called once `ready_for(id)`
    /// holds; the caller waits for that.
    pub fn recv(&mut self, id: SubscriptionId) -> (r: Result<Event, RecvError>)
        requires
            old(self).ready_for(id),
        ensures
            hub_ordered(final(self)@),
            final(self)@.registry == old(self)@.registry,
            !has_mailbox(old(self)@.mailboxes, id) ==> r == Err::<Event, RecvError>(RecvError)
                && final(self)@.mailboxes == old(self)@.mailboxes,
            has_mailbox(old(self)@.mailboxes, id) ==> {
                let j = first_mailbox(old(self)@.mailboxes, id);
                let (m, t) = taken(old(self)@.mailboxes[j]);
                &&& final(self)@.mailboxes == old(self)@.mailboxes.update(j, m)
                &&& r == match t {
                    Ok(e) => Ok::<Event, RecvError>(e),
                    Err(_) => Err::<Event, RecvError>(RecvError),
                }
            },
    {
        let r = self.try_recv(id);
        match r {
            Ok(e) => Ok(e),
            Err(_) => Err(RecvError),
        }
    }

    /// Take the oldest event waiting for subscription `id` without waiting;
    /// a subscription without a mailbox is disconnected. Every event still
    /// waiting after the one taken has a higher revision, so a reader sees
    /// revisions increase and can tell when some were dropped.
    pub fn try_recv(&mut self, id: SubscriptionId) -> (r: Result<Event, TryRecvError>)
        ensures
            hub_ordered(final(self)@),
            final(self)@.registry == old(self)@.registry,
            !has_mailbox(old(self)@.mailboxes, id) ==> r == Err::<Event, TryRecvError>(
                TryRecvError::Disconnected,
            ) && final(self)@.mailboxes == old(self)@.mailboxes,
            has_mailbox(old(self)@.mailboxes, id) ==> {
                let j = first_mailbox(old(self)@.mailboxes, id);
                &&& (final(self)@.mailboxes[j], r) == taken(old(self)@.mailboxes[j])
                &&& final(self)@.mailboxes == old(self)@.mailboxes.update(j, final(self)@.mailboxes[j])
            },
            r matches Ok(e) ==> forall|j: int, k: int|
                0 <= j < final(self)@.mailboxes.len() && final(self)@.mailboxes[j].id == id && 0 <= k
                    < final(self)@.mailboxes[j].pending.len() ==> e.revision
                    < #[trigger] final(self)@.mailboxes[j].pending[k].revision || j != first_mailbox(
                    old(self)@.mailboxes,
                    id,
                ),
    {
        proof {
            use_type_invariant(&*self);
        }
        match self.find_mailbox(id) {
            None => {
                proof {
                    use_type_invariant(&*self);
                    lemma_view_ordered(self.mailboxes@, self.registry@);
                }
                Err(TryRecvError::Disconnected)
            },
            Some(j) => {
                let mut ms = Vec::new();
                std::mem::swap(&mut ms, &mut self.mailboxes);
                let ghost orig = ms@;
                let mut m = ms.remove(j);
                proof {
                    assert(m == orig[j as int]);
                }
                let r = m.try_recv();
                let ghost after = m;
                proof {
                    let p = orig[j as int]@.pending;
                    assert(revisions_increase(p));
                }
                ms.insert(j, m);
                proof {
                    assert(ms@ =~= orig.update(j as int, after));
                    assert forall|i: int| 0 <= i < ms@.len() implies {
                        let p = (#[trigger] ms@[i])@.pending;
                        &&& revisions_increase(p)
                        &&& forall|k: int| 0 <= k < p.len() ==> #[trigger] p[k].revision <= self.registry@.revision
                    } by {
                        if i == j {
                            let q = orig[i]@.pending;
                            let p = ms@[i]@.pending;
                            if q.len() > 0 {
                                assert(p =~= q.drop_first());
                                assert forall|a: int, b: int| 0 <= a < b < p.len() implies #[trigger] p[a].revision
                                    < #[trigger] p[b].revision by {
                                    assert(p[a] == q[a + 1] && p[b] == q[b + 1]);
                                }
                                assert forall|k: int| 0 <= k < p.len() implies #[trigger] p[k].revision
                                    <= self.registry@.revision by {
                                    assert(p[k] == q[k + 1]);
                                }
                            }
                        } else {
                            assert(ms@[i] == orig[i]);
                        }
                    }
                }
                self.mailboxes = ms;
                proof {
                    assert(self@.mailboxes =~= old(self)@.mailboxes.update(j as int, after@));
                    if r is Ok {
                        let q = orig[j as int]@.pending;
                        let p = after@.pending;
                        assert forall|k: int| 0 <= k < p.len() implies r->Ok_0.revision < #[trigger] p[k].revision by {
                            assert(p[k] == q[k + 1]);
                            assert(q[0].revision < q[k + 1].revision);
                        }
                    }
                }
                proof {
                    use_type_invariant(&*self);
                    lemma_view_ordered(self.mailboxes@, self.registry@);
                }
                r
            },
        }
    }
}

/// A cancelled mailbox takes no event offered to it, whoever the event is
/// for.
pub proof fn lemma_cancelled_mailbox_takes_nothing(m: MailboxState, e: Event, to: Set<SubscriptionId>)
    requires
        !m.connected,
    ensures
        offered(m, e, to) == m,
{
}

/// A cancelled subscription is not among the recipients of any later event.
pub proof fn lemma_cancelled_not_notified(
    subs: Map<SubscriptionId, SubscriptionKind>,
    id: SubscriptionId,
    kind: SubscriptionKind,
)
    ensures
        !recipients_of(subs.remove(id), kind).contains(id),
{
}

/// Cancelling twice leaves the same subscribers as cancelling once.
pub proof fn lemma_cancel_idempotent(subs: Map<SubscriptionId, SubscriptionKind>, id: SubscriptionId)
    ensures
        subs.remove(id).remove(id) == subs.remove(id),
{
    assert(subs.remove(id).remove(id) =~= subs.remove(id));
}

/// One thing that can happen to a mailbox: an event offered to the
/// subscriptions in a set, a take, or a cancel.
pub enum MailboxStep {
    Offer(Event, Set<SubscriptionId>),
    Take,
    Cancel,
}

/// The mailbox after one step.
pub open spec fn stepped(m: MailboxState, step: MailboxStep) -> MailboxState {
    match step {
        MailboxStep::Offer(e, to) => offered(m, e, to),
        MailboxStep::Take => taken(m).0,
        MailboxStep::Cancel => cancelled(m),
    }
}

/// The mailbox after the steps, in order.
pub open spec fn run(m: MailboxState, steps: Seq<MailboxStep>) -> MailboxState
    decreases steps.len(),
{
    if steps.len() == 0 {
        m
    } else {
        stepped(run(m, steps.drop_last()), steps.last())
    }
}

/// The events the takes among the steps hand out, in order.
pub open spec fn received(m: MailboxState, steps: Seq<MailboxStep>) -> Seq<Event>
    decreases steps.len(),
{
    if steps.len() == 0 {
        Seq::empty()
    } else {
        let prev = received(m, steps.drop_last());
        match (steps.last(), taken(run(m, steps.drop_last())).1) {
            (MailboxStep::Take, Ok(e)) => prev.push(e),
            _ => prev,
        }
    }
}

/// Each event offered by the steps is newer than every event `m` holds
/// and every event offered before it, as the hub's notifications are.
pub open spec fn offers_fresh(m: MailboxState, steps: Seq<MailboxStep>) -> bool {
    &&& forall|i: int, k: int|
        0 <= i < steps.len() && 0 <= k < m.pending.len() && #[trigger] steps[i] is Offer
            ==> #[trigger] m.pending[k].revision < steps[i]->Offer_0.revision
    &&& forall|i: int, j: int|
        0 <= i < j < steps.len() && #[trigger] steps[i] is Offer && #[trigger] steps[j] is Offer
            ==> steps[i]->Offer_0.revision < steps[j]->Offer_0.revision
}

/// Once a subscription is cancelled, whatever offers, takes and further
/// cancels follow: cancelling again changes nothing, it stays cancelled, no
/// offered event is queued, the takes hand out the events queued before the
/// cancel in order, and once those are drained a take reports
/// `Disconnected`.
pub proof fn lemma_cancelled_subscription_drains_then_disconnects(
    m: MailboxState,
    steps: Seq<MailboxStep>,
)
    ensures
        cancelled(cancelled(m)) == cancelled(m),
        !run(cancelled(m), steps).connected,
        exists|k: int|
            0 <= k <= m.pending.len() && run(cancelled(m), steps).pending == m.pending.skip(k)
                && received(cancelled(m), steps) == m.pending.take(k),
        taken(run(cancelled(m), steps)).1 == if run(cancelled(m), steps).pending.len() > 0 {
            Ok::<Event, TryRecvError>(run(cancelled(m), steps).pending[0])
        } else {
            Err::<Event, TryRecvError>(TryRecvError::Disconnected)
        },
    decreases steps.len(),
{
    let c = cancelled(m);
    if steps.len() == 0 {
        assert(m.pending.skip(0) =~= m.pending);
        assert(m.pending.take(0) =~= Seq::<Event>::empty());
    } else {
        lemma_cancelled_subscription_drains_then_disconnects(m, steps.drop_last());
        let prev = run(c, steps.drop_last());
        let k = choose|k: int|
            0 <= k <= m.pending.len() && run(c, steps.drop_last()).pending == m.pending.skip(k)
                && received(c, steps.drop_last()) == m.pending.take(k);
        match steps.last() {
            MailboxStep::Take => {
                if prev.pending.len() > 0 {
                    assert(m.pending.skip(k).drop_first() =~= m.pending.skip(k + 1));
                    assert(m.pending.take(k).push(m.pending.skip(k)[0]) =~= m.pending.take(k + 1));
                    assert(run(c, steps).pending == m.pending.skip(k + 1));
                    assert(received(c, steps) == m.pending.take(k + 1));
                } else {
                    assert(run(c, steps).pending == m.pending.skip(k));
                }
            },
            _ => {
                assert(run(c, steps).pending == m.pending.skip(k));
            },
        }
    }
}

/// What holds after the first `n` steps of a run whose offers are fresh:
/// the mailbox's events ascend, what was handed out ascends, and it is
/// older than every event still held and every event offered later.
proof fn lemma_received_prefix(m: MailboxState, steps: Seq<MailboxStep>, n: int)
    requires
        revisions_increase(m.pending),
        offers_fresh(m, steps),
        0 <= n <= steps.len(),
    ensures
        revisions_increase(run(m, steps.take(n)).pending),
        revisions_increase(received(m, steps.take(n))),
        forall|a: int, b: int|
            0 <= a < received(m, steps.take(n)).len() && 0 <= b < run(m, steps.take(n)).pending.len()
                ==> #[trigger] received(m, steps.take(n))[a].revision
                < #[trigger] run(m, steps.take(n)).pending[b].revision,
        forall|a: int, j: int|
            0 <= a < received(m, steps.take(n)).len() && n <= j < steps.len() && #[trigger] steps[j] is Offer
                ==> #[trigger] received(m, steps.take(n))[a].revision < steps[j]->Offer_0.revision,
        forall|b: int, j: int|
            0 <= b < run(m, steps.take(n)).pending.len() && n <= j < steps.len() && #[trigger] steps[j] is Offer
                ==> #[trigger] run(m, steps.take(n)).pending[b].revision < steps[j]->Offer_0.revision,
    decreases n,
{
    if n == 0 {
        assert(steps.take(0) =~= Seq::<MailboxStep>::empty());
    } else {
        lemma_received_prefix(m, steps, n - 1);
        let pre = steps.take(n - 1);
        let cur = steps.take(n);
        assert(cur.drop_last() =~= pre);
        assert(cur.last() == steps[n - 1]);
        let s0 = run(m, pre);
        let r0 = received(m, pre);
        let s1 = run(m, cur);
        let r1 = received(m, cur);
        match steps[n - 1] {
            MailboxStep::Offer(e, to) => {
                assert(r1 == r0);
                if s1 != s0 {
                    assert(s1.pending == s0.pending.push(e));
                    assert forall|a: int, b: int| 0 <= a < b < s1.pending.len() implies
                        #[trigger] s1.pending[a].revision < #[trigger] s1.pending[b].revision by {
                        if b == s0.pending.len() {
                            assert(s1.pending[a] == s0.pending[a]);
                        } else {
                            assert(s1.pending[a] == s0.pending[a] && s1.pending[b] == s0.pending[b]);
                        }
                    }
                    assert forall|a: int, b: int|
                        0 <= a < r1.len() && 0 <= b < s1.pending.len() implies #[trigger] r1[a].revision
                        < #[trigger] s1.pending[b].revision by {
                        if b < s0.pending.len() {
                            assert(s1.pending[b] == s0.pending[b]);
                        }
                    }
                    assert forall|b: int, j: int|
                        0 <= b < s1.pending.len() && n <= j < steps.len() && #[trigger] steps[j] is Offer
                        implies #[trigger] s1.pending[b].revision < steps[j]->Offer_0.revision by {
                        if b < s0.pending.len() {
                            assert(s1.pending[b] == s0.pending[b]);
                        } else {
                            assert(steps[n - 1] is Offer);
                        }
                    }
                }
            },
            MailboxStep::Take => {
                if s0.pending.len() > 0 {
                    let e = s0.pending[0];
                    assert(s1.pending == s0.pending.drop_first());
                    assert(r1 == r0.push(e));
                    assert forall|a: int, b: int| 0 <= a < b < s1.pending.len() implies
                        #[trigger] s1.pending[a].revision < #[trigger] s1.pending[b].revision by {
                        assert(s1.pending[a] == s0.pending[a + 1] && s1.pending[b] == s0.pending[b + 1]);
                    }
                    assert forall|a: int, b: int| 0 <= a < b < r1.len() implies
                        #[trigger] r1[a].revision < #[trigger] r1[b].revision by {
                        if b == r0.len() {
                            assert(r1[a] == r0[a]);
                        } else {
                            assert(r1[a] == r0[a] && r1[b] == r0[b]);
                        }
                    }
                    assert forall|a: int, b: int|
                        0 <= a < r1.len() && 0 <= b < s1.pending.len() implies #[trigger] r1[a].revision
                        < #[trigger] s1.pending[b].revision by {
                        assert(s1.pending[b] == s0.pending[b + 1]);
                        if a < r0.len() {
                            assert(r1[a] == r0[a]);
                        } else {
                            assert(s0.pending[0].revision < s0.pending[b + 1].revision);
                        }
                    }
                    assert forall|a: int, j: int|
                        0 <= a < r1.len() && n <= j < steps.len() && #[trigger] steps[j] is Offer
                        implies #[trigger] r1[a].revision < steps[j]->Offer_0.revision by {
                        if a < r0.len() {
                            assert(r1[a] == r0[a]);
                        } else {
                            assert(s0.pending[0] == e);
                        }
                    }
                    assert forall|b: int, j: int|
                        0 <= b < s1.pending.len() && n <= j < steps.len() && #[trigger] steps[j] is Offer
                        implies #[trigger] s1.pending[b].revision < steps[j]->Offer_0.revision by {
                        assert(s1.pending[b] == s0.pending[b + 1]);
                    }
                } else {
                    assert(r1 == r0);
                    assert(s1 == s0);
                }
            },
            MailboxStep::Cancel => {
                assert(r1 == r0);
                assert(s1.pending == s0.pending);
            },
        }
    }
}

/// Revisions strictly increase per subscription: in any run of offers,
/// takes and cancels on a mailbox whose events ascend, where each offered
/// event is newer than all before it (as every notification of the hub
/// is), each event taken is newer than the one taken before it.
pub proof fn lemma_received_revisions_increase(m: MailboxState, steps: Seq<MailboxStep>)
    requires
        revisions_increase(m.pending),
        offers_fresh(m, steps),
    ensures
        revisions_increase(received(m, steps)),
{
    lemma_received_prefix(m, steps, steps.len() as int);
    assert(steps.take(steps.len() as int) =~= steps);
}

} // verus!

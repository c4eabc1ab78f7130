//! The call registry: a table from call identifier to call state, with the
//! subscribers that wait on each pending call.
//!
//! Subscribers are named by tokens that the caller chooses. `subscribe` and
//! `publish` return what must be delivered to which token, so that whoever
//! owns the completion channels can hand each waiter its one delivery.
use vstd::prelude::*;

use crate::bytes::{bytes_equal, copy_bytes};

verus! {

/// The outcome of a call, as the registry stores and delivers it.
pub enum Outcome {
    /// The call produced this output.
    Output(Vec<u8>),
    /// The call failed with this description.
    Failure(String),
}

/// An outcome in mathematical form.
pub enum OutcomeModel {
    Output(Seq<u8>),
    Failure(Seq<char>),
}

impl Outcome {
    pub open spec fn view(&self) -> OutcomeModel {
        match self {
            Outcome::Output(o) => OutcomeModel::Output(o@),
            Outcome::Failure(d) => OutcomeModel::Failure(d@),
        }
    }

    /// A copy of this outcome.
    pub fn duplicate(&self) -> (r: Outcome)
        ensures
            r@ == self@,
    {
        match self {
            Outcome::Output(o) => Outcome::Output(copy_bytes(o)),
            Outcome::Failure(d) => Outcome::Failure(d.clone()),
        }
    }
}

/// The state of one call record.
pub enum Phase {
    /// Not yet resolved; these subscribers wait, in order of arrival.
    Pending(Vec<u64>),
    /// Resolved once and for all.
    Done(Outcome),
    /// Resolved, then evicted: its outcome is no longer held.
    Expired,
}

/// A phase in mathematical form.
pub enum PhaseModel {
    Pending(Seq<u64>),
    Done(OutcomeModel),
    Expired,
}

impl Phase {
    pub open spec fn view(&self) -> PhaseModel {
        match self {
            Phase::Pending(w) => PhaseModel::Pending(w@),
            Phase::Done(o) => PhaseModel::Done(o@),
            Phase::Expired => PhaseModel::Expired,
        }
    }
}

/// What a subscriber gets back at once from `subscribe`.
pub enum Subscription {
    /// The call is pending: the subscriber will get one delivery on publish.
    Waiting(u64),
    /// The call was already resolved with this outcome.
    Ready(Outcome),
    /// The call was resolved and its record evicted.
    Expired,
}

/// A subscription in mathematical form.
pub enum SubscriptionModel {
    Waiting(u64),
    Ready(OutcomeModel),
    Expired,
}

impl Subscription {
    pub open spec fn view(&self) -> SubscriptionModel {
        match self {
            Subscription::Waiting(t) => SubscriptionModel::Waiting(*t),
            Subscription::Ready(o) => SubscriptionModel::Ready(o@),
            Subscription::Expired => SubscriptionModel::Expired,
        }
    }
}

/// One delivery owed to a subscriber.
pub struct Delivery {
    pub subscriber: u64,
    pub outcome: Outcome,
}

impl Delivery {
    pub open spec fn view(&self) -> (u64, OutcomeModel) {
        (self.subscriber, self.outcome@)
    }
}

/// The contents of a registry: for each known identifier, its phase.
pub type RegistryModel = Map<Seq<u8>, PhaseModel>;

/// Whether `id` has no terminal record: unseen, or still pending.
pub open spec fn is_open(m: RegistryModel, id: Seq<u8>) -> bool {
    !m.contains_key(id) || m[id] is Pending
}

/// Whether no subscriber waits twice on one id.
pub open spec fn waiters_distinct(m: RegistryModel) -> bool {
    forall|k: Seq<u8>|
        #[trigger] m.contains_key(k) && m[k] is Pending ==> m[k]->Pending_0.no_duplicates()
}

/// The registry after a subscriber `token` subscribes to `id`; a subscriber
/// already waiting on `id` is not added a second time.
pub open spec fn after_subscribe(m: RegistryModel, id: Seq<u8>, token: u64) -> RegistryModel {
    if !m.contains_key(id) {
        m.insert(id, PhaseModel::Pending(seq![token]))
    } else {
        match m[id] {
            PhaseModel::Pending(w) => if w.contains(token) {
                m
            } else {
                m.insert(id, PhaseModel::Pending(w.push(token)))
            },
            _ => m,
        }
    }
}

/// What `subscribe` answers to a subscriber `token` on `id`.
pub open spec fn subscription_of(m: RegistryModel, id: Seq<u8>, token: u64) -> SubscriptionModel {
    if !m.contains_key(id) {
        SubscriptionModel::Waiting(token)
    } else {
        match m[id] {
            PhaseModel::Pending(_) => SubscriptionModel::Waiting(token),
            PhaseModel::Done(o) => SubscriptionModel::Ready(o),
            PhaseModel::Expired => SubscriptionModel::Expired,
        }
    }
}

/// The registry after `outcome` is published for `id`: the first publish wins.
pub open spec fn after_publish(m: RegistryModel, id: Seq<u8>, outcome: OutcomeModel) -> RegistryModel {
    if is_open(m, id) {
        m.insert(id, PhaseModel::Done(outcome))
    } else {
        m
    }
}

/// The deliveries that publishing `outcome` for `id` makes: one to each
/// waiting subscriber, in order of arrival.
pub open spec fn deliveries_of(m: RegistryModel, id: Seq<u8>, outcome: OutcomeModel) -> Seq<(u64, OutcomeModel)> {
    if m.contains_key(id) && m[id] is Pending {
        m[id]->Pending_0.map_values(|t: u64| (t, outcome))
    } else {
        Seq::empty()
    }
}

/// The registry after the record of `id` is evicted; only a resolved record is.
pub open spec fn after_evict(m: RegistryModel, id: Seq<u8>) -> RegistryModel {
    if m.contains_key(id) && m[id] is Done {
        m.insert(id, PhaseModel::Expired)
    } else {
        m
    }
}

/// Subscribers that arrive while `id` has no terminal record all wait, and
/// the publish that then resolves `id` delivers its outcome to each of them.
pub proof fn lemma_waiters_all_receive(
    m: RegistryModel,
    id: Seq<u8>,
    a: u64,
    b: u64,
    outcome: OutcomeModel,
)
    requires
        is_open(m, id),
    ensures
        subscription_of(m, id, a) == SubscriptionModel::Waiting(a),
        subscription_of(after_subscribe(m, id, a), id, b) == SubscriptionModel::Waiting(b),
        deliveries_of(after_subscribe(after_subscribe(m, id, a), id, b), id, outcome).contains(
            (a, outcome),
        ),
        deliveries_of(after_subscribe(after_subscribe(m, id, a), id, b), id, outcome).contains(
            (b, outcome),
        ),
        forall|d: (u64, OutcomeModel)|
            #[trigger] deliveries_of(
                after_subscribe(after_subscribe(m, id, a), id, b),
                id,
                outcome,
            ).contains(d) ==> d.1 == outcome,
{
    let m1 = after_subscribe(m, id, a);
    let m2 = after_subscribe(m1, id, b);
    let w1 = m1[id]->Pending_0;
    let w = m2[id]->Pending_0;
    let ds = deliveries_of(m2, id, outcome);
    assert(w1.contains(a)) by {
        if !m.contains_key(id) {
            assert(w1[0] == a);
        } else if !m[id]->Pending_0.contains(a) {
            assert(w1[w1.len() - 1] == a);
        }
    }
    assert(w.contains(b)) by {
        if !w1.contains(b) {
            assert(w[w.len() - 1] == b);
        }
    }
    assert(w.contains(a)) by {
        let i = choose|i: int| 0 <= i < w1.len() && w1[i] == a;
        assert(w[i] == a);
    }
    let ia = choose|i: int| 0 <= i < w.len() && w[i] == a;
    let ib = choose|i: int| 0 <= i < w.len() && w[i] == b;
    assert(ds[ia] == (a, outcome));
    assert(ds[ib] == (b, outcome));
}

/// In a registry where no subscriber waits twice on one id, a publish makes
/// exactly one delivery to each waiting subscriber.
pub proof fn lemma_one_delivery_each(m: RegistryModel, id: Seq<u8>, outcome: OutcomeModel)
    requires
        waiters_distinct(m),
        m.contains_key(id),
        m[id] is Pending,
    ensures
        deliveries_of(m, id, outcome).len() == m[id]->Pending_0.len(),
        forall|t: u64|
            #[trigger] m[id]->Pending_0.contains(t) ==> deliveries_of(m, id, outcome).contains(
                (t, outcome),
            ),
        forall|i: int, j: int|
            0 <= i < j < deliveries_of(m, id, outcome).len() ==> #[trigger] deliveries_of(
                m,
                id,
                outcome,
            )[i].0 != #[trigger] deliveries_of(m, id, outcome)[j].0,
{
    let w = m[id]->Pending_0;
    let ds = deliveries_of(m, id, outcome);
    assert forall|t: u64| #[trigger] w.contains(t) implies ds.contains((t, outcome)) by {
        let i = choose|i: int| 0 <= i < w.len() && w[i] == t;
        assert(ds[i] == (t, outcome));
    }
    assert forall|i: int, j: int| 0 <= i < j < ds.len() implies #[trigger] ds[i].0 != #[trigger] ds[j].0 by {
        assert(ds[i].0 == w[i] && ds[j].0 == w[j]);
    }
}

/// Once `outcome` is published for an id with no terminal record, a second
/// publish changes nothing and delivers nothing, and every subscriber, before
/// or after the second publish, observes the first outcome.
pub proof fn lemma_first_publish_wins(
    m: RegistryModel,
    id: Seq<u8>,
    first: OutcomeModel,
    second: OutcomeModel,
    token: u64,
)
    requires
        is_open(m, id),
    ensures
        after_publish(after_publish(m, id, first), id, second) == after_publish(m, id, first),
        deliveries_of(after_publish(m, id, first), id, second) == Seq::<(u64, OutcomeModel)>::empty(),
        forall|d: (u64, OutcomeModel)|
            #[trigger] deliveries_of(m, id, first).contains(d) ==> d.1 == first,
        subscription_of(after_publish(m, id, first), id, token) == SubscriptionModel::Ready(first),
        subscription_of(after_publish(after_publish(m, id, first), id, second), id, token)
            == SubscriptionModel::Ready(first),
{
}

/// A resolved record keeps its outcome: neither a subscribe nor a publish
/// on its id changes it, whatever the token or outcome.
pub proof fn lemma_resolved_is_final(
    m: RegistryModel,
    id: Seq<u8>,
    token: u64,
    outcome: OutcomeModel,
)
    requires
        m.contains_key(id),
        m[id] is Done,
    ensures
        after_subscribe(m, id, token) == m,
        after_publish(m, id, outcome) == m,
        deliveries_of(m, id, outcome) == Seq::<(u64, OutcomeModel)>::empty(),
        subscription_of(m, id, token) == SubscriptionModel::Ready(m[id]->Done_0),
{
}

/// One record of the registry.
pub struct CallRecord {
    pub id: Vec<u8>,
    pub phase: Phase,
}

/// The table of call records.
pub struct CallRegistry {
    records: Vec<CallRecord>,
    contents: Ghost<RegistryModel>,
}

impl CallRegistry {
    pub closed spec fn view(&self) -> RegistryModel {
        self.contents@
    }

    /// The records hold each identifier once, and agree with the contents.
    pub closed spec fn wf(&self) -> bool {
        &&& forall|i: int, j: int|
            0 <= i < j < self.records@.len() ==> self.records@[i].id@ != self.records@[j].id@
        &&& forall|i: int|
            0 <= i < self.records@.len() ==> #[trigger] self.contents@.contains_key(
                self.records@[i].id@,
            ) && self.contents@[self.records@[i].id@] == self.records@[i].phase@
        &&& forall|k: Seq<u8>|
            #[trigger] self.contents@.contains_key(k) ==> exists|i: int|
                0 <= i < self.records@.len() && self.records@[i].id@ == k
        &&& waiters_distinct(self.contents@)
    }

    /// A well-formed registry never holds a subscriber twice on one id.
    pub proof fn lemma_waiters_distinct(&self)
        requires
            self.wf(),
        ensures
            waiters_distinct(self@),
    {
    }

    /// An empty registry.
    pub fn new() -> (r: CallRegistry)
        ensures
            r.wf(),
            r@ == Map::<Seq<u8>, PhaseModel>::empty(),
    {
        CallRegistry { records: Vec::new(), contents: Ghost(Map::empty()) }
    }

    /// The number of records held.
    pub fn len(&self) -> (r: usize)
        requires
            self.wf(),
        ensures
            r == self@.dom().len(),
    {
        proof {
            self.lemma_len();
        }
        self.records.len()
    }

    /// Whether a record for `id` is held.
    pub fn contains(&self, id: &Vec<u8>) -> (r: bool)
        requires
            self.wf(),
        ensures
            r == self@.contains_key(id@),
    {
        self.find(id).is_some()
    }

    /// Registers subscriber `token` for `id`. An unseen id gets a pending
    /// record; a pending one gets the subscriber appended, unless it already
    /// waits there; a resolved one answers at once with its outcome and
    /// registers nothing.
    pub fn subscribe(&mut self, id: &Vec<u8>, token: u64) -> (r: Subscription)
        requires
            old(self).wf(),
        ensures
            final(self).wf(),
            final(self)@ == after_subscribe(old(self)@, id@, token),
            r@ == subscription_of(old(self)@, id@, token),
    {
        match self.find(id) {
            None => {
                let mut w: Vec<u64> = Vec::new();
                w.push(token);
                assert(w@ =~= seq![token]);
                self.add_record(id, Phase::Pending(w));
                Subscription::Waiting(token)
            },
            Some(i) => {
                assert(self.contents@.contains_key(self.records@[i as int].id@));
                let next = match &self.records[i].phase {
                    Phase::Pending(w) => {
                        if contains_token(w, token) {
                            return Subscription::Waiting(token);
                        }
                        let nw = with_waiter(w, token);
                        proof {
                            assert forall|x: int, y: int|
                                0 <= x < nw@.len() && 0 <= y < nw@.len() && x != y implies nw@[x]
                                != nw@[y] by {
                                if x < w@.len() && y < w@.len() {
                                    assert(self.contents@.contains_key(self.records@[i as int].id@));
                                } else if x < w@.len() {
                                    assert(w@.contains(nw@[x]));
                                } else {
                                    assert(w@.contains(nw@[y]));
                                }
                            }
                        }
                        Phase::Pending(nw)
                    },
                    Phase::Done(o) => {
                        return Subscription::Ready(o.duplicate());
                    },
                    Phase::Expired => {
                        return Subscription::Expired;
                    },
                };
                self.set_phase(i, next);
                Subscription::Waiting(token)
            },
        }
    }

    /// Resolves `id` with `outcome` if it has no terminal record yet, and
    /// returns one delivery for each subscriber that was waiting. A later
    /// publish for the same id changes nothing and delivers nothing.
    pub fn publish(&mut self, id: &Vec<u8>, outcome: Outcome) -> (r: Vec<Delivery>)
        requires
            old(self).wf(),
        ensures
            final(self).wf(),
            final(self)@ == after_publish(old(self)@, id@, outcome@),
            r@.map_values(|d: Delivery| d@) == deliveries_of(old(self)@, id@, outcome@),
    {
        match self.find(id) {
            None => {
                self.add_record(id, Phase::Done(outcome));
                assert(Seq::<Delivery>::empty().map_values(|d: Delivery| d@) =~= Seq::empty());
                Vec::new()
            },
            Some(i) => {
                assert(self.contents@.contains_key(self.records@[i as int].id@));
                let r = match &self.records[i].phase {
                    Phase::Pending(w) => deliveries_for(w, &outcome),
                    _ => {
                        assert(Seq::<Delivery>::empty().map_values(|d: Delivery| d@) =~= Seq::empty());
                        return Vec::new();
                    },
                };
                self.set_phase(i, Phase::Done(outcome));
                r
            },
        }
    }

    /// Drops the outcome held for a resolved `id`, leaving a marker so that
    /// later subscribers learn that it expired. Returns whether it did so.
    pub fn evict(&mut self, id: &Vec<u8>) -> (r: bool)
        requires
            old(self).wf(),
        ensures
            final(self).wf(),
            final(self)@ == after_evict(old(self)@, id@),
            r == (old(self)@.contains_key(id@) && old(self)@[id@] is Done),
    {
        match self.find(id) {
            None => false,
            Some(i) => {
                assert(self.contents@.contains_key(self.records@[i as int].id@));
                let done = match &self.records[i].phase {
                    Phase::Done(_) => true,
                    _ => false,
                };
                if done {
                    self.set_phase(i, Phase::Expired);
                }
                done
            },
        }
    }

    proof fn lemma_len(&self)
        requires
            self.wf(),
        ensures
            self.contents@.dom().len() == self.records@.len(),
            self.contents@.dom().finite(),
        decreases self.records@.len(),
    {
        let ids = Seq::new(self.records@.len(), |i: int| self.records@[i].id@);
        assert(ids.no_duplicates());
        ids.unique_seq_to_set();
        assert(self.contents@.dom() =~= ids.to_set()) by {
            assert forall|k: Seq<u8>| self.contents@.dom().contains(k) implies ids.to_set().contains(k) by {
                let i = choose|i: int| 0 <= i < self.records@.len() && self.records@[i].id@ == k;
                assert(ids[i] == k);
            }
            assert forall|k: Seq<u8>| ids.to_set().contains(k) implies self.contents@.dom().contains(k) by {
                let i = choose|i: int| 0 <= i < ids.len() && ids[i] == k;
                assert(self.contents@.contains_key(self.records@[i].id@));
            }
        }
        vstd::seq_lib::seq_to_set_is_finite(ids);
    }

    /// The index of the record for `id`, if any.
    fn find(&self, id: &Vec<u8>) -> (r: Option<usize>)
        requires
            self.wf(),
        ensures
            match r {
                Some(i) => i < self.records@.len() && self.records@[i as int].id@ == id@,
                None => !self@.contains_key(id@),
            },
    {
        let mut i: usize = 0;
        while i < self.records.len()
            invariant
                self.wf(),
                i <= self.records@.len(),
                forall|j: int| 0 <= j < i ==> self.records@[j].id@ != id@,
            decreases self.records@.len() - i,
        {
            if bytes_equal(&self.records[i].id, id) {
                return Some(i);
            }
            i = i + 1;
        }
        None
    }

    /// Replaces the phase of the record at `i`.
    fn set_phase(&mut self, i: usize, phase: Phase)
        requires
            old(self).wf(),
            i < old(self).records@.len(),
            phase@ is Pending ==> phase@->Pending_0.no_duplicates(),
        ensures
            final(self).wf(),
            final(self)@ == old(self)@.insert(old(self).records@[i as int].id@, phase@),
    {
        let ghost key = self.records@[i as int].id@;
        let ghost pv = phase@;
        let id = copy_bytes(&self.records[i].id);
        self.records.set(i, CallRecord { id, phase });
        self.contents = Ghost(self.contents@.insert(key, pv));
        assert forall|k: Seq<u8>| #[trigger] self.contents@.contains_key(k) implies exists|j: int|
            0 <= j < self.records@.len() && self.records@[j].id@ == k by {
            if k != key {
                assert(old(self).contents@.contains_key(k));
                let j = choose|j: int| 0 <= j < old(self).records@.len() && old(self).records@[j].id@ == k;
                assert(self.records@[j].id@ == k);
            } else {
                assert(self.records@[i as int].id@ == k);
            }
        }
    }

    /// Adds a record for an identifier that has none.
    fn add_record(&mut self, id: &Vec<u8>, phase: Phase)
        requires
            old(self).wf(),
            !old(self)@.contains_key(id@),
            phase@ is Pending ==> phase@->Pending_0.no_duplicates(),
        ensures
            final(self).wf(),
            final(self)@ == old(self)@.insert(id@, phase@),
    {
        let ghost key = id@;
        let ghost pv = phase@;
        let ghost n = self.records@.len();
        assert forall|j: int| 0 <= j < n implies self.records@[j].id@ != key by {
            assert(self.contents@.contains_key(self.records@[j].id@));
        }
        self.records.push(CallRecord { id: copy_bytes(id), phase });
        self.contents = Ghost(self.contents@.insert(key, pv));
        assert forall|k: Seq<u8>| #[trigger] self.contents@.contains_key(k) implies exists|j: int|
            0 <= j < self.records@.len() && self.records@[j].id@ == k by {
            if k != key {
                assert(old(self).contents@.contains_key(k));
                let j = choose|j: int| 0 <= j < old(self).records@.len() && old(self).records@[j].id@ == k;
                assert(self.records@[j].id@ == k);
            } else {
                assert(self.records@[n as int].id@ == k);
            }
        }
    }
}

/// A delivery of `outcome` to each of `waiters`, in order.
fn deliveries_for(waiters: &Vec<u64>, outcome: &Outcome) -> (r: Vec<Delivery>)
    ensures
        r@.map_values(|d: Delivery| d@) == waiters@.map_values(|t: u64| (t, outcome@)),
{
    let mut r: Vec<Delivery> = Vec::new();
    let mut i: usize = 0;
    while i < waiters.len()
        invariant
            i <= waiters@.len(),
            r@.len() == i,
            forall|j: int| 0 <= j < i ==> #[trigger] r@[j]@ == (waiters@[j], outcome@),
        decreases waiters@.len() - i,
    {
        r.push(Delivery { subscriber: waiters[i], outcome: outcome.duplicate() });
        i = i + 1;
    }
    assert(r@.map_values(|d: Delivery| d@) =~= waiters@.map_values(|t: u64| (t, outcome@)));
    r
}

/// Whether `token` is among `waiters`.
fn contains_token(waiters: &Vec<u64>, token: u64) -> (r: bool)
    ensures
        r == waiters@.contains(token),
{
    let mut i: usize = 0;
    while i < waiters.len()
        invariant
            i <= waiters@.len(),
            forall|j: int| 0 <= j < i ==> waiters@[j] != token,
        decreases waiters@.len() - i,
    {
        if waiters[i] == token {
            return true;
        }
        i = i + 1;
    }
    false
}

/// A copy of `waiters` with `token` added at the end.
fn with_waiter(waiters: &Vec<u64>, token: u64) -> (r: Vec<u64>)
    ensures
        r@ == waiters@.push(token),
{
    let mut r: Vec<u64> = Vec::new();
    let mut i: usize = 0;
    while i < waiters.len()
        invariant
            i <= waiters@.len(),
            r@ == waiters@.subrange(0, i as int),
        decreases waiters@.len() - i,
    {
        r.push(waiters[i]);
        i = i + 1;
        assert(r@ =~= waiters@.subrange(0, i as int));
    }
    assert(waiters@.subrange(0, i as int) =~= waiters@);
    r.push(token);
    r
}

} // verus!

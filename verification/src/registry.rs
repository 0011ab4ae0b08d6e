//! The client registry: who is connected, in the order in which they came.
//!
//! A connection stands in the registry under a number that the registry
//! hands out when the connection is accepted and never hands out again. The
//! caller keeps the socket that belongs to each number.

use vstd::prelude::*;

verus! {

/// The number under which a connection stands in the registry.
pub type ClientId = u64;

/// What writing one frame to one client came to.
#[derive(Clone, Copy, Debug, PartialEq, Eq, Structural)]
pub enum WriteOutcome {
    /// The whole frame has been written.
    Delivered,
    /// The write failed: the connection is gone.
    Closed,
}

/// Whether `outcomes` reports a failed write for the client at position
/// `i`. A position without an outcome has not failed.
pub open spec fn failed_at(outcomes: Seq<WriteOutcome>, i: int) -> bool {
    0 <= i < outcomes.len() && outcomes[i] is Closed
}

/// Whether each member of `clients` is smaller than all behind it.
pub open spec fn ascending(clients: Seq<ClientId>) -> bool {
    forall|i: int, j: int| 0 <= i < j < clients.len() ==> clients[i] < clients[j]
}

/// Those of `clients` whose write did not fail, in their old order, where
/// `outcomes` holds at each position the outcome for the client at that
/// position.
pub open spec fn survivors(clients: Seq<ClientId>, outcomes: Seq<WriteOutcome>) -> Seq<ClientId>
    decreases clients.len(),
{
    if clients.len() == 0 {
        Seq::empty()
    } else if failed_at(outcomes, clients.len() - 1) {
        survivors(clients.drop_last(), outcomes)
    } else {
        survivors(clients.drop_last(), outcomes).push(clients.last())
    }
}

/// Those of `clients` whose write failed, in their old order.
pub open spec fn casualties(clients: Seq<ClientId>, outcomes: Seq<WriteOutcome>) -> Seq<ClientId>
    decreases clients.len(),
{
    if clients.len() == 0 {
        Seq::empty()
    } else if failed_at(outcomes, clients.len() - 1) {
        casualties(clients.drop_last(), outcomes).push(clients.last())
    } else {
        casualties(clients.drop_last(), outcomes)
    }
}

/// The state of a registry: the clients, oldest first, and the number that
/// the next one will get.
pub struct RegistryView {
    pub clients: Seq<ClientId>,
    pub next_id: ClientId,
}

impl RegistryView {
    /// What holds of every registry: the clients stand in ascending order of
    /// their numbers, so none stands there twice, and every number is below
    /// the next one to be handed out.
    pub open spec fn wf(self) -> bool {
        &&& ascending(self.clients)
        &&& forall|i: int| 0 <= i < self.clients.len() ==> self.clients[i] < self.next_id
    }

    /// A registry without clients.
    pub open spec fn empty() -> RegistryView {
        RegistryView { clients: Seq::empty(), next_id: 0 }
    }

    /// The number that the next client gets, unless the numbers have run
    /// out.
    pub open spec fn fresh_id(self) -> Option<ClientId> {
        if self.next_id == u64::MAX {
            None
        } else {
            Some(self.next_id)
        }
    }

    /// The registry after one more client has been accepted: with that
    /// client at the end, unless the numbers have run out.
    pub open spec fn register(self) -> RegistryView {
        match self.fresh_id() {
            Some(id) => RegistryView {
                clients: self.clients.push(id),
                next_id: (id + 1) as ClientId,
            },
            None => self,
        }
    }

    /// The registry after a fan-out with these outcomes: without the
    /// clients whose write failed.
    pub open spec fn prune(self, outcomes: Seq<WriteOutcome>) -> RegistryView {
        RegistryView { clients: survivors(self.clients, outcomes), next_id: self.next_id }
    }

    /// Whether `id` was handed out once and is no longer connected.
    pub open spec fn has_retired(self, id: ClientId) -> bool {
        id < self.next_id && !self.clients.contains(id)
    }
}

/// Every survivor was a client before.
pub proof fn lemma_survivors_were_clients(clients: Seq<ClientId>, outcomes: Seq<WriteOutcome>)
    ensures
        forall|k: int|
            0 <= k < survivors(clients, outcomes).len() ==> clients.contains(
                #[trigger] survivors(clients, outcomes)[k],
            ),
    decreases clients.len(),
{
    if clients.len() > 0 {
        let front = clients.drop_last();
        lemma_survivors_were_clients(front, outcomes);
        assert forall|k: int| 0 <= k < survivors(clients, outcomes).len() implies clients.contains(
            #[trigger] survivors(clients, outcomes)[k],
        ) by {
            if k < survivors(front, outcomes).len() {
                let c = survivors(front, outcomes)[k];
                assert(front.contains(c));
                let i = choose|i: int| 0 <= i < front.len() && front[i] == c;
                assert(clients[i] == c);
            } else {
                assert(clients[clients.len() - 1] == clients.last());
            }
        }
    }
}

/// A client whose write did not fail is among the survivors.
pub proof fn lemma_delivered_survives(
    clients: Seq<ClientId>,
    outcomes: Seq<WriteOutcome>,
    i: int,
)
    requires
        0 <= i < clients.len(),
        !failed_at(outcomes, i),
    ensures
        survivors(clients, outcomes).contains(clients[i]),
    decreases clients.len(),
{
    let front = clients.drop_last();
    let last = clients.len() - 1;
    if i < last {
        lemma_delivered_survives(front, outcomes, i);
        let k = choose|k: int|
            0 <= k < survivors(front, outcomes).len() && survivors(front, outcomes)[k]
                == front[i];
        assert(survivors(clients, outcomes)[k] == clients[i]);
    } else {
        let k = survivors(front, outcomes).len() as int;
        assert(survivors(clients, outcomes)[k] == clients[i]);
    }
}

/// Pruning keeps the order: survivors of an ascending registry are
/// ascending.
pub proof fn lemma_survivors_ascending(clients: Seq<ClientId>, outcomes: Seq<WriteOutcome>)
    requires
        ascending(clients),
    ensures
        ascending(survivors(clients, outcomes)),
    decreases clients.len(),
{
    if clients.len() > 0 {
        let front = clients.drop_last();
        lemma_survivors_ascending(front, outcomes);
        lemma_survivors_were_clients(front, outcomes);
        let kept = survivors(clients, outcomes);
        assert forall|i: int, j: int| 0 <= i < j < kept.len() implies kept[i] < kept[j] by {
            if j == survivors(front, outcomes).len() {
                let c = survivors(front, outcomes)[i];
                assert(front.contains(c));
                let k = choose|k: int| 0 <= k < front.len() && front[k] == c;
                assert(clients[k] < clients[clients.len() - 1]);
            }
        }
    }
}

/// Pruning: a client whose write failed is not among the survivors.
pub proof fn lemma_failed_is_pruned(clients: Seq<ClientId>, outcomes: Seq<WriteOutcome>, i: int)
    requires
        ascending(clients),
        0 <= i < clients.len(),
        failed_at(outcomes, i),
    ensures
        !survivors(clients, outcomes).contains(clients[i]),
{
    let kept = survivors(clients, outcomes);
    if kept.contains(clients[i]) {
        lemma_survivor_has_delivered_index(clients, outcomes, clients[i]);
        let j = choose|j: int|
            0 <= j < clients.len() && clients[j] == clients[i] && !failed_at(outcomes, j);
        assert(i != j);
        assert(i < j ==> clients[i] < clients[j]);
        assert(j < i ==> clients[j] < clients[i]);
    }
}

/// A survivor stands at some position whose write did not fail.
pub proof fn lemma_survivor_has_delivered_index(
    clients: Seq<ClientId>,
    outcomes: Seq<WriteOutcome>,
    c: ClientId,
)
    requires
        survivors(clients, outcomes).contains(c),
    ensures
        exists|j: int| 0 <= j < clients.len() && clients[j] == c && !failed_at(outcomes, j),
    decreases clients.len(),
{
    let front = clients.drop_last();
    let last = clients.len() - 1;
    let kept = survivors(clients, outcomes);
    let k = choose|k: int| 0 <= k < kept.len() && kept[k] == c;
    if clients.len() > 0 {
        if k < survivors(front, outcomes).len() {
            assert(survivors(front, outcomes)[k] == c);
            lemma_survivor_has_delivered_index(front, outcomes, c);
            let j = choose|j: int|
                0 <= j < front.len() && front[j] == c && !failed_at(outcomes, j);
            assert(clients[j] == c);
        } else {
            assert(clients[last] == c && !failed_at(outcomes, last));
        }
    }
}

/// Where no write failed, everybody survives.
pub proof fn lemma_all_delivered(clients: Seq<ClientId>, outcomes: Seq<WriteOutcome>)
    requires
        forall|i: int| 0 <= i < clients.len() ==> !failed_at(outcomes, i),
    ensures
        survivors(clients, outcomes) == clients,
        casualties(clients, outcomes) == Seq::<ClientId>::empty(),
    decreases clients.len(),
{
    if clients.len() > 0 {
        let front = clients.drop_last();
        assert forall|i: int| 0 <= i < front.len() implies !failed_at(outcomes, i) by {
            assert(!failed_at(outcomes, i));
        }
        lemma_all_delivered(front, outcomes);
        assert(front.push(clients.last()) =~= clients);
    }
}

/// What holds of every registry goes on holding when a client is accepted
/// and when clients are pruned.
pub proof fn lemma_wf_is_kept(registry: RegistryView, outcomes: Seq<WriteOutcome>)
    requires
        registry.wf(),
    ensures
        registry.register().wf(),
        registry.prune(outcomes).wf(),
{
    lemma_survivors_ascending(registry.clients, outcomes);
    lemma_survivors_were_clients(registry.clients, outcomes);
}

/// A client that has left does not come back: neither an accepted client nor
/// a pruning brings its number into the registry again.
pub proof fn lemma_retired_stays_retired(
    registry: RegistryView,
    id: ClientId,
    outcomes: Seq<WriteOutcome>,
)
    requires
        registry.wf(),
        registry.has_retired(id),
    ensures
        registry.register().has_retired(id),
        registry.prune(outcomes).has_retired(id),
{
    let kept = survivors(registry.clients, outcomes);
    lemma_survivors_were_clients(registry.clients, outcomes);
    if kept.contains(id) {
        let k = choose|k: int| 0 <= k < kept.len() && kept[k] == id;
        assert(registry.clients.contains(kept[k]));
    }
    let grown = registry.register().clients;
    if grown.contains(id) {
        let k = choose|k: int| 0 <= k < grown.len() && grown[k] == id;
        if k < registry.clients.len() {
            assert(registry.clients[k] == id);
        }
    }
}

/// A client whose write failed has left: the pruning that follows takes it
/// out of the registry for good.
pub proof fn lemma_failed_retires(registry: RegistryView, outcomes: Seq<WriteOutcome>, i: int)
    requires
        registry.wf(),
        0 <= i < registry.clients.len(),
        failed_at(outcomes, i),
    ensures
        registry.prune(outcomes).has_retired(registry.clients[i]),
{
    lemma_failed_is_pruned(registry.clients, outcomes, i);
}

/// The ordered collection of the clients that are connected.
pub struct ClientRegistry {
    ids: Vec<ClientId>,
    next_id: ClientId,
}

impl View for ClientRegistry {
    type V = RegistryView;

    closed spec fn view(&self) -> RegistryView {
        RegistryView { clients: self.ids@, next_id: self.next_id }
    }
}

impl ClientRegistry {
    #[verifier::type_invariant]
    spec fn inv(&self) -> bool {
        self@.wf()
    }

    /// A registry without clients.
    pub fn new() -> (registry: ClientRegistry)
        ensures
            registry@ == RegistryView::empty(),
            registry@.wf(),
    {
        ClientRegistry { ids: Vec::new(), next_id: 0 }
    }

    /// Takes one more client in, at the end, and answers its number.
    ///
    /// Answers `None`, and changes nothing, only where all numbers have
    /// been handed out.
    pub fn register(&mut self) -> (id: Option<ClientId>)
        ensures
            final(self)@ == old(self)@.register(),
            id == old(self)@.fresh_id(),
            final(self)@.wf(),
    {
        proof {
            use_type_invariant(&*self);
        }
        if self.next_id == u64::MAX {
            return None;
        }
        let id = self.next_id;
        let mut ids: Vec<ClientId> = Vec::new();
        core::mem::swap(&mut ids, &mut self.ids);
        ids.push(id);
        self.next_id = id + 1;
        self.ids = ids;
        Some(id)
    }

    /// Takes out every client whose write failed, and answers their
    /// numbers.
    ///
    /// `outcomes` holds, at each position, the outcome of the write to the
    /// client at that position in the registry. Clients behind the last
    /// outcome stay.
    pub fn prune(&mut self, outcomes: &Vec<WriteOutcome>) -> (removed: Vec<ClientId>)
        ensures
            final(self)@ == old(self)@.prune(outcomes@),
            removed@ == casualties(old(self)@.clients, outcomes@),
            final(self)@.wf(),
    {
        proof {
            use_type_invariant(&*self);
        }
        let mut kept: Vec<ClientId> = Vec::new();
        let mut removed: Vec<ClientId> = Vec::new();
        let mut i: usize = 0;
        while i < self.ids.len()
            invariant
                i <= self.ids@.len(),
                self.ids@ == old(self).ids@,
                self.next_id == old(self).next_id,
                kept@ == survivors(self.ids@.take(i as int), outcomes@),
                removed@ == casualties(self.ids@.take(i as int), outcomes@),
            decreases self.ids@.len() - i,
        {
            let id = self.ids[i];
            let failed = i < outcomes.len() && match outcomes[i] {
                WriteOutcome::Closed => true,
                WriteOutcome::Delivered => false,
            };
            assert(self.ids@.take(i + 1).drop_last() =~= self.ids@.take(i as int));
            if failed {
                removed.push(id);
            } else {
                kept.push(id);
            }
            i += 1;
        }
        proof {
            assert(self.ids@.take(i as int) =~= self.ids@);
            lemma_survivors_ascending(self.ids@, outcomes@);
            lemma_survivors_were_clients(self.ids@, outcomes@);
        }
        self.ids = kept;
        removed
    }

    /// The clients, oldest first.
    pub fn snapshot(&self) -> (clients: Vec<ClientId>)
        ensures
            clients@ == self@.clients,
            self@.wf(),
    {
        proof {
            use_type_invariant(self);
        }
        self.ids.clone()
    }

    /// How many clients are connected.
    pub fn len(&self) -> (n: usize)
        ensures
            n == self@.clients.len(),
            self@.wf(),
    {
        proof {
            use_type_invariant(self);
        }
        self.ids.len()
    }

    /// Whether `id` is connected.
    pub fn contains(&self, id: ClientId) -> (found: bool)
        ensures
            found == self@.clients.contains(id),
    {
        let mut i: usize = 0;
        while i < self.ids.len()
            invariant
                i <= self.ids@.len(),
                forall|k: int| 0 <= k < i ==> self.ids@[k] != id,
            decreases self.ids@.len() - i,
        {
            if self.ids[i] == id {
                return true;
            }
            i += 1;
        }
        false
    }
}

} // verus!

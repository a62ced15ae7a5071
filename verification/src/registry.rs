//! The set of connected subscribers, each with its bounded queue of frames
//! that wait to be written.

use vstd::prelude::*;
use crate::client::is_random_uuid;
use crate::client::Client;
use crate::codec::push_bytes;
use crate::error::SseError;

verus! {

/// The state of a subscription.
#[derive(Clone, Copy, Debug, PartialEq, Eq, Structural)]
pub enum Health {
    /// Frames are queued for it.
    Active,
    /// It takes no more frames and is about to be closed.
    Draining,
    /// It has left the registry; its connection is to be released.
    Closed,
}

/// What the registry knows of a connection: the number under which its
/// owner keeps the transport, and whether the transport is open.
#[derive(Clone, Copy, Debug, PartialEq, Eq, Structural)]
pub struct Connection {
    pub token: u64,
    pub open: bool,
}

/// A subscription as plain values.
pub struct SubscriptionView {
    pub id: u128,
    pub connection: Connection,
    pub queue: Seq<Seq<u8>>,
    pub health: Health,
}

/// The frames of a queue, each as its bytes.
pub open spec fn frames_view(queue: Seq<Vec<u8>>) -> Seq<Seq<u8>> {
    Seq::new(queue.len(), |i: int| queue[i]@)
}

/// The binding of a client to an open stream.
#[derive(Debug)]
pub struct Subscription {
    client: Client,
    connection: Connection,
    queue: Vec<Vec<u8>>,
    health: Health,
}

impl View for Subscription {
    type V = SubscriptionView;

    closed spec fn view(&self) -> SubscriptionView {
        SubscriptionView {
            id: self.client.spec_id(),
            connection: self.connection,
            queue: frames_view(self.queue@),
            health: self.health,
        }
    }
}

impl Subscription {
    /// The identifier of the subscribed client.
    pub fn id(&self) -> (id: u128)
        ensures
            id == self@.id,
    {
        self.client.id()
    }

    /// The connection that the subscription writes to.
    pub fn connection(&self) -> (connection: Connection)
        ensures
            connection == self@.connection,
    {
        self.connection
    }

    /// The state of the subscription.
    pub fn health(&self) -> (health: Health)
        ensures
            health == self@.health,
    {
        self.health
    }

    /// The number of frames that wait to be written.
    pub fn pending(&self) -> (n: usize)
        ensures
            n == self@.queue.len(),
    {
        self.queue.len()
    }
}

/// Whether a client with this identifier is among the members.
pub open spec fn has_member(members: Seq<SubscriptionView>, id: u128) -> bool {
    exists|i: int| 0 <= i < members.len() && #[trigger] members[i].id == id
}

/// Where the member with this identifier stands, if there is one.
pub open spec fn position(members: Seq<SubscriptionView>, id: u128) -> int {
    choose|i: int| 0 <= i < members.len() && #[trigger] members[i].id == id
}

/// Whether some member has an identifier that a random draw can give.
pub open spec fn holds_random_uuid(members: Seq<SubscriptionView>) -> bool {
    exists|taken: u128| #[trigger] is_random_uuid(taken) && has_member(members, taken)
}

/// No identifier occurs twice.
pub open spec fn distinct_ids(members: Seq<SubscriptionView>) -> bool {
    forall|i: int, j: int|
        0 <= i < j < members.len() ==> #[trigger] members[i].id != #[trigger] members[j].id
}

/// The invariant of a registry's members: no identifier occurs twice, no
/// queue is longer than the capacity, and every member is active.
pub open spec fn well_formed(members: Seq<SubscriptionView>, capacity: nat) -> bool {
    &&& distinct_ids(members)
    &&& forall|i: int| 0 <= i < members.len() ==> (#[trigger] members[i]).queue.len() <= capacity
    &&& forall|i: int| 0 <= i < members.len() ==> (#[trigger] members[i]).health == Health::Active
}

/// The identifiers of the members, in their order.
pub open spec fn ids(members: Seq<SubscriptionView>) -> Seq<u128> {
    Seq::new(members.len(), |i: int| members[i].id)
}

/// A new member as it enters: active, with nothing queued.
pub open spec fn entrant(id: u128, connection: Connection) -> SubscriptionView {
    SubscriptionView { id, connection, queue: Seq::empty(), health: Health::Active }
}

/// The members after a client was registered: the new one comes last.
pub open spec fn enrolled(
    members: Seq<SubscriptionView>,
    id: u128,
    connection: Connection,
) -> Seq<SubscriptionView> {
    members.push(entrant(id, connection))
}

/// The members after a client was deregistered: the others, in their order.
pub open spec fn without(members: Seq<SubscriptionView>, id: u128) -> Seq<SubscriptionView> {
    if has_member(members, id) {
        members.remove(position(members, id))
    } else {
        members
    }
}

/// Whether a member's queue can take one more frame.
pub open spec fn has_room(member: SubscriptionView, capacity: nat) -> bool {
    member.queue.len() < capacity
}

/// A member with one more frame at the end of its queue.
pub open spec fn with_frame(member: SubscriptionView, frame: Seq<u8>) -> SubscriptionView {
    SubscriptionView { queue: member.queue.push(frame), ..member }
}

/// A member as it is handed back when it leaves the registry.
pub open spec fn closed(member: SubscriptionView) -> SubscriptionView {
    SubscriptionView { health: Health::Closed, ..member }
}

/// The members after one frame was offered to one of them: it is queued
/// where there is room, and the member leaves where its queue is full.
pub open spec fn offered(
    members: Seq<SubscriptionView>,
    id: u128,
    frame: Seq<u8>,
    capacity: nat,
) -> Seq<SubscriptionView> {
    if !has_member(members, id) {
        members
    } else if has_room(members[position(members, id)], capacity) {
        members.update(
            position(members, id),
            with_frame(members[position(members, id)], frame),
        )
    } else {
        members.remove(position(members, id))
    }
}

/// The members after the writer of one of them took the frame at the front
/// of its queue.
pub open spec fn taken(members: Seq<SubscriptionView>, id: u128) -> Seq<SubscriptionView> {
    if has_member(members, id) && members[position(members, id)].queue.len() > 0 {
        members.update(
            position(members, id),
            SubscriptionView {
                queue: members[position(members, id)].queue.drop_first(),
                ..members[position(members, id)]
            },
        )
    } else {
        members
    }
}

/// The test for room in a queue of a given capacity.
pub open spec fn room_for(capacity: nat) -> spec_fn(SubscriptionView) -> bool {
    |member: SubscriptionView| has_room(member, capacity)
}

/// The test for a full queue of a given capacity.
pub open spec fn full_for(capacity: nat) -> spec_fn(SubscriptionView) -> bool {
    |member: SubscriptionView| !has_room(member, capacity)
}

/// The members after one frame went out to all of them: those with room
/// have it at the end of their queue, the others have left.
pub open spec fn fanout(members: Seq<SubscriptionView>, frame: Seq<u8>, capacity: nat) -> Seq<
    SubscriptionView,
> {
    members.filter(room_for(capacity)).map_values(
        |member: SubscriptionView| with_frame(member, frame),
    )
}

/// The members that a fan-out makes leave, as they are handed back.
pub open spec fn dropped(members: Seq<SubscriptionView>, capacity: nat) -> Seq<SubscriptionView> {
    members.filter(full_for(capacity)).map_values(|member: SubscriptionView| closed(member))
}

/// Subscriptions as plain values.
pub open spec fn subscriptions_view(subscriptions: Seq<Subscription>) -> Seq<SubscriptionView> {
    Seq::new(subscriptions.len(), |i: int| subscriptions[i]@)
}

/// A fan-out to members of which one comes last: the fan-out to the others,
/// then the last one by itself.
pub proof fn fanout_push(
    members: Seq<SubscriptionView>,
    last: SubscriptionView,
    frame: Seq<u8>,
    capacity: nat,
)
    ensures
        fanout(members.push(last), frame, capacity) == if has_room(last, capacity) {
            fanout(members, frame, capacity).push(with_frame(last, frame))
        } else {
            fanout(members, frame, capacity)
        },
        dropped(members.push(last), capacity) == if has_room(last, capacity) {
            dropped(members, capacity)
        } else {
            dropped(members, capacity).push(closed(last))
        },
{
    reveal(Seq::filter);
    let all = members.push(last);
    assert(all.drop_last() =~= members);
    assert(all.last() == last);
    if has_room(last, capacity) {
        assert(all.filter(room_for(capacity)) == members.filter(room_for(capacity)).push(last));
        assert(all.filter(full_for(capacity)) == members.filter(full_for(capacity)));
        assert(fanout(all, frame, capacity) =~= fanout(members, frame, capacity).push(
            with_frame(last, frame),
        ));
    } else {
        assert(all.filter(room_for(capacity)) == members.filter(room_for(capacity)));
        assert(all.filter(full_for(capacity)) == members.filter(full_for(capacity)).push(last));
        assert(dropped(all, capacity) =~= dropped(members, capacity).push(closed(last)));
    }
}

/// In a fan-out that has reached the first `k` members, the next offer goes
/// to the member that stands behind those that stayed, and brings the
/// fan-out to the first `k + 1`.
pub proof fn fanout_step(
    before: Seq<SubscriptionView>,
    now: Seq<SubscriptionView>,
    k: int,
    frame: Seq<u8>,
    capacity: nat,
)
    requires
        0 <= k < before.len(),
        distinct_ids(now),
        now == fanout(before.take(k), frame, capacity) + before.skip(k),
    ensures
        has_member(now, before[k].id),
        now[position(now, before[k].id)] == before[k],
        offered(now, before[k].id, frame, capacity) == fanout(
            before.take(k + 1),
            frame,
            capacity,
        ) + before.skip(k + 1),
        dropped(before.take(k + 1), capacity) == if has_room(before[k], capacity) {
            dropped(before.take(k), capacity)
        } else {
            dropped(before.take(k), capacity).push(closed(before[k]))
        },
{
    let reached = fanout(before.take(k), frame, capacity);
    let p = reached.len() as int;
    assert(now[p] == before.skip(k)[0]);
    position_of_member(now, p);
    assert(before.take(k + 1) =~= before.take(k).push(before[k]));
    fanout_push(before.take(k), before[k], frame, capacity);
    if has_room(before[k], capacity) {
        assert(now.update(p, with_frame(before[k], frame)) =~= reached.push(
            with_frame(before[k], frame),
        ) + before.skip(k + 1));
    } else {
        assert(now.remove(p) =~= reached + before.skip(k + 1));
    }
}

/// Where identifiers are distinct, a member stands at the position of its
/// identifier.
pub proof fn position_of_member(members: Seq<SubscriptionView>, j: int)
    requires
        distinct_ids(members),
        0 <= j < members.len(),
    ensures
        has_member(members, members[j].id),
        position(members, members[j].id) == j,
{
    let id = members[j].id;
    let p = position(members, id);
    assert(0 <= p < members.len() && members[p].id == id);
    if p < j {
        assert(members[p].id != members[j].id);
    } else if j < p {
        assert(members[j].id != members[p].id);
    }
}

/// What an offer of a frame to a subscriber came to.
#[derive(Debug)]
pub enum Offer {
    /// The frame is at the end of the subscriber's queue.
    Queued,
    /// The queue was full: the subscriber has left the registry and is
    /// handed back, closed.
    Dropped(Subscription),
    /// No such subscriber.
    Absent,
}

/// The subscribers that are connected now.
#[derive(Debug)]
pub struct Registry {
    members: Vec<Subscription>,
    capacity: usize,
}

impl Registry {
    /// The members in the order in which they were registered.
    pub closed spec fn members(&self) -> Seq<SubscriptionView> {
        Seq::new(self.members@.len(), |i: int| self.members@[i]@)
    }

    /// The number of frames that a member's queue can hold.
    pub closed spec fn limit(&self) -> nat {
        self.capacity as nat
    }

    /// The invariant of the registry.
    pub open spec fn wf(&self) -> bool {
        well_formed(self.members(), self.limit())
    }

    /// An empty registry whose queues hold up to `capacity` frames.
    pub fn new(capacity: usize) -> (registry: Registry)
        ensures
            registry.wf(),
            registry.members() == Seq::<SubscriptionView>::empty(),
            registry.limit() == capacity,
    {
        let registry = Registry { members: Vec::new(), capacity };
        proof {
            assert(registry.members() =~= Seq::<SubscriptionView>::empty());
        }
        registry
    }

    /// The number of frames that a member's queue can hold.
    pub fn capacity(&self) -> (capacity: usize)
        ensures
            capacity == self.limit(),
    {
        self.capacity
    }

    /// The number of members.
    pub fn count(&self) -> (n: usize)
        ensures
            n == self.members().len(),
    {
        self.members.len()
    }

    fn find(&self, id: u128) -> (found: Option<usize>)
        ensures
            match found {
                Some(j) => j < self.members().len() && self.members()[j as int].id == id,
                None => !has_member(self.members(), id),
            },
    {
        let n = self.members.len();
        let mut i: usize = 0;
        while i < n
            invariant
                i <= n,
                n == self.members@.len(),
                forall|k: int| 0 <= k < i ==> (#[trigger] self.members()[k]).id != id,
            decreases n - i,
        {
            if self.members[i].client.id() == id {
                return Some(i);
            }
            i += 1;
        }
        None
    }

    /// Whether a client with this identifier is a member.
    pub fn contains(&self, id: u128) -> (found: bool)
        ensures
            found == has_member(self.members(), id),
    {
        self.find(id).is_some()
    }

    /// The number of frames that wait in a member's queue.
    pub fn pending(&self, id: u128) -> (n: Option<usize>)
        requires
            self.wf(),
        ensures
            match n {
                Some(n) => has_member(self.members(), id) && n == self.members()[position(
                    self.members(),
                    id,
                )].queue.len(),
                None => !has_member(self.members(), id),
            },
    {
        match self.find(id) {
            Some(j) => {
                proof {
                    position_of_member(self.members(), j as int);
                }
                Some(self.members[j].queue.len())
            },
            None => None,
        }
    }

    /// Makes `client` a member that writes to `connection`, with an empty
    /// queue.
    ///
    /// Fails with `ConnectionError` when the connection is closed already,
    /// and with `InternalError` when the client's identifier is that of a
    /// member; the registry is then as it was.
    pub fn enroll(&mut self, client: Client, connection: Connection) -> (r: Result<u128, SseError>)
        requires
            old(self).wf(),
        ensures
            final(self).wf(),
            final(self).limit() == old(self).limit(),
            match r {
                Ok(id) => {
                    &&& connection.open
                    &&& !has_member(old(self).members(), client.spec_id())
                    &&& id == client.spec_id()
                    &&& final(self).members() == enrolled(old(self).members(), id, connection)
                },
                Err(error) => {
                    &&& final(self).members() == old(self).members()
                    &&& if !connection.open {
                        error is ConnectionError
                    } else {
                        has_member(old(self).members(), client.spec_id()) && error is InternalError
                    }
                },
            },
    {
        if !connection.open {
            return Err(SseError::ConnectionError);
        }
        let id = client.id();
        if self.find(id).is_some() {
            return Err(SseError::InternalError);
        }
        let subscription = Subscription {
            client,
            connection,
            queue: Vec::new(),
            health: Health::Active,
        };
        proof {
            assert(subscription@.queue =~= Seq::<Seq<u8>>::empty());
        }
        self.members.push(subscription);
        proof {
            assert(self.members() =~= enrolled(old(self).members(), id, connection));
        }
        Ok(id)
    }

    /// Registers a new client for `connection` and returns its identifier.
    ///
    /// Fails with `ConnectionError` when the connection is closed already.
    /// The identifier is drawn at random; should it be that of a member, the
    /// call fails with `InternalError`, and on an open connection it fails
    /// for no other reason. A failed call leaves the registry as it was.
    pub fn register(&mut self, connection: Connection) -> (r: Result<u128, SseError>)
        requires
            old(self).wf(),
        ensures
            final(self).wf(),
            final(self).limit() == old(self).limit(),
            match r {
                Ok(id) => {
                    &&& connection.open
                    &&& is_random_uuid(id)
                    &&& !has_member(old(self).members(), id)
                    &&& final(self).members() == enrolled(old(self).members(), id, connection)
                },
                Err(error) => {
                    &&& final(self).members() == old(self).members()
                    &&& if !connection.open {
                        error is ConnectionError
                    } else {
                        error is InternalError && holds_random_uuid(old(self).members())
                    }
                },
            },
    {
        if !connection.open {
            return Err(SseError::ConnectionError);
        }
        let client = Client::new();
        proof {
            assert(is_random_uuid(client.spec_id()));
        }
        self.enroll(client, connection)
    }

    /// Removes the member with this identifier, if there is one, and hands
    /// it back, closed, for its connection to be released.
    pub fn deregister(&mut self, id: u128) -> (released: Option<Subscription>)
        requires
            old(self).wf(),
        ensures
            final(self).wf(),
            final(self).limit() == old(self).limit(),
            final(self).members() == without(old(self).members(), id),
            !has_member(final(self).members(), id),
            match released {
                Some(subscription) => has_member(old(self).members(), id) && subscription@
                    == closed(old(self).members()[position(old(self).members(), id)]),
                None => !has_member(old(self).members(), id),
            },
    {
        match self.find(id) {
            Some(j) => {
                proof {
                    position_of_member(self.members(), j as int);
                }
                let mut subscription = self.members.remove(j);
                subscription.health = Health::Draining;
                subscription.health = Health::Closed;
                proof {
                    assert(self.members() =~= old(self).members().remove(j as int));
                    member_leaves(old(self).members(), j as int, old(self).limit());
                }
                Some(subscription)
            },
            None => None,
        }
    }

    /// The identifiers of the members at this moment, in the order in which
    /// they were registered.
    pub fn snapshot(&self) -> (handles: Vec<u128>)
        ensures
            handles@ == ids(self.members()),
    {
        let n = self.members.len();
        let mut handles: Vec<u128> = Vec::new();
        let mut i: usize = 0;
        while i < n
            invariant
                i <= n,
                n == self.members@.len(),
                handles@ == ids(self.members()).take(i as int),
            decreases n - i,
        {
            handles.push(self.members[i].client.id());
            i += 1;
            proof {
                assert(handles@ =~= ids(self.members()).take(i as int));
            }
        }
        proof {
            assert(handles@ =~= ids(self.members()));
        }
        handles
    }

    /// Offers a frame to the member with this identifier: the frame goes to
    /// the end of its queue, or, where the queue is full, the member is
    /// removed and handed back, closed.
    pub fn offer(&mut self, id: u128, frame: &[u8]) -> (offer: Offer)
        requires
            old(self).wf(),
        ensures
            final(self).wf(),
            final(self).limit() == old(self).limit(),
            final(self).members() == offered(old(self).members(), id, frame@, old(self).limit()),
            match offer {
                Offer::Queued => has_member(old(self).members(), id) && has_room(
                    old(self).members()[position(old(self).members(), id)],
                    old(self).limit(),
                ),
                Offer::Dropped(subscription) => {
                    &&& has_member(old(self).members(), id)
                    &&& !has_room(
                        old(self).members()[position(old(self).members(), id)],
                        old(self).limit(),
                    )
                    &&& subscription@ == closed(
                        old(self).members()[position(old(self).members(), id)],
                    )
                },
                Offer::Absent => !has_member(old(self).members(), id),
            },
    {
        match self.find(id) {
            Some(j) => {
                proof {
                    position_of_member(self.members(), j as int);
                }
                if self.members[j].queue.len() < self.capacity {
                    let mut copy: Vec<u8> = Vec::new();
                    push_bytes(&mut copy, frame);
                    self.members[j].queue.push(copy);
                    proof {
                        let before = old(self).members();
                        assert(copy@ =~= frame@);
                        assert(self.members@[j as int]@.queue =~= before[j as int].queue.push(
                            frame@,
                        ));
                        assert(self.members() =~= before.update(
                            j as int,
                            with_frame(before[j as int], frame@),
                        ));
                    }
                    Offer::Queued
                } else {
                    let mut subscription = self.members.remove(j);
                    subscription.health = Health::Draining;
                    subscription.health = Health::Closed;
                    proof {
                        assert(self.members() =~= old(self).members().remove(j as int));
                        member_leaves(old(self).members(), j as int, old(self).limit());
                    }
                    Offer::Dropped(subscription)
                }
            },
            None => Offer::Absent,
        }
    }

    /// Takes the frame at the front of a member's queue, for its writer to
    /// send. `None` where the queue is empty or there is no such member.
    pub fn next_frame(&mut self, id: u128) -> (frame: Option<Vec<u8>>)
        requires
            old(self).wf(),
        ensures
            final(self).wf(),
            final(self).limit() == old(self).limit(),
            final(self).members() == taken(old(self).members(), id),
            match frame {
                Some(bytes) => {
                    &&& has_member(old(self).members(), id)
                    &&& old(self).members()[position(old(self).members(), id)].queue.len() > 0
                    &&& bytes@ == old(self).members()[position(old(self).members(), id)].queue[0]
                },
                None => !has_member(old(self).members(), id) || old(self).members()[position(
                    old(self).members(),
                    id,
                )].queue.len() == 0,
            },
    {
        match self.find(id) {
            Some(j) => {
                proof {
                    position_of_member(self.members(), j as int);
                }
                if self.members[j].queue.len() > 0 {
                    let bytes = self.members[j].queue.remove(0);
                    proof {
                        let before = old(self).members();
                        assert(self.members@[j as int]@.queue =~= before[j as int].queue.drop_first());
                        assert(self.members() =~= taken(before, id));
                    }
                    Some(bytes)
                } else {
                    None
                }
            },
            None => None,
        }
    }
}

/// Well-formed members stay well-formed when one of them leaves, and the
/// one that left is no member any more.
pub proof fn member_leaves(members: Seq<SubscriptionView>, j: int, capacity: nat)
    requires
        well_formed(members, capacity),
        0 <= j < members.len(),
    ensures
        well_formed(members.remove(j), capacity),
        !has_member(members.remove(j), members[j].id),
{
    let rest = members.remove(j);
    assert forall|a: int, b: int| 0 <= a < b < rest.len() implies #[trigger] rest[a].id
        != #[trigger] rest[b].id by {
        let a0 = if a < j { a } else { a + 1 };
        let b0 = if b < j { b } else { b + 1 };
        assert(rest[a] == members[a0]);
        assert(rest[b] == members[b0]);
    }
    assert forall|i: int| 0 <= i < rest.len() implies (#[trigger] rest[i]).queue.len()
        <= capacity && rest[i].health == Health::Active by {
        let i0 = if i < j { i } else { i + 1 };
        assert(rest[i] == members[i0]);
    }
    assert forall|i: int| 0 <= i < rest.len() implies (#[trigger] rest[i]).id != members[j].id by {
        let i0 = if i < j { i } else { i + 1 };
        assert(rest[i] == members[i0]);
        if i0 < j {
            assert(members[i0].id != members[j].id);
        } else {
            assert(members[j].id != members[i0].id);
        }
    }
}

/// A client that is registered and deregistered at once leaves the members
/// as they were, and a fan-out after that does not reach it.
pub proof fn register_then_deregister(
    members: Seq<SubscriptionView>,
    id: u128,
    connection: Connection,
    frame: Seq<u8>,
    capacity: nat,
)
    requires
        distinct_ids(members),
        !has_member(members, id),
    ensures
        without(enrolled(members, id, connection), id) == members,
        members.len() == 0 ==> without(enrolled(members, id, connection), id).len() == 0,
        !has_member(fanout(without(enrolled(members, id, connection), id), frame, capacity), id),
{
    let grown = enrolled(members, id, connection);
    let last = members.len() as int;
    assert(grown[last].id == id);
    assert forall|i: int, j: int| 0 <= i < j < grown.len() implies #[trigger] grown[i].id
        != #[trigger] grown[j].id by {
        if j == last {
            assert(grown[i] == members[i]);
        } else {
            assert(grown[i] == members[i]);
            assert(grown[j] == members[j]);
        }
    }
    position_of_member(grown, last);
    assert(grown.remove(last) =~= members);
    fanout_reaches_members(members, frame, capacity);
    let reached = fanout(members, frame, capacity);
    if has_member(reached, id) {
        let j = position(reached, id);
        assert(has_member(members, reached[j].id));
    }
}

/// To deregister a client twice is to deregister it once.
pub proof fn deregister_is_idempotent(members: Seq<SubscriptionView>, id: u128, capacity: nat)
    requires
        well_formed(members, capacity),
    ensures
        !has_member(without(members, id), id),
        without(without(members, id), id) == without(members, id),
{
    if has_member(members, id) {
        let j = position(members, id);
        member_leaves(members, j, capacity);
    }
}

/// What a fan-out does to each member. A member with room is still a member
/// and has the frame at the end of its queue, after what was queued before:
/// it gets the frame exactly once. A member whose queue is full is no member
/// any more. Nobody else becomes a member, and no identifier occurs twice.
pub proof fn fanout_reaches_members(members: Seq<SubscriptionView>, frame: Seq<u8>, capacity: nat)
    requires
        distinct_ids(members),
    ensures
        distinct_ids(fanout(members, frame, capacity)),
        forall|i: int|
            0 <= i < members.len() && has_room(#[trigger] members[i], capacity) ==> has_member(
                fanout(members, frame, capacity),
                members[i].id,
            ) && fanout(members, frame, capacity)[position(
                fanout(members, frame, capacity),
                members[i].id,
            )] == with_frame(members[i], frame),
        forall|i: int|
            0 <= i < members.len() && !has_room(#[trigger] members[i], capacity) ==> !has_member(
                fanout(members, frame, capacity),
                members[i].id,
            ),
        forall|j: int|
            0 <= j < fanout(members, frame, capacity).len() ==> has_member(
                members,
                (#[trigger] fanout(members, frame, capacity)[j]).id,
            ),
    decreases members.len(),
{
    let reached = fanout(members, frame, capacity);
    if members.len() == 0 {
        reveal(Seq::filter);
        assert(reached =~= Seq::<SubscriptionView>::empty());
    } else {
        let init = members.drop_last();
        let last = members.last();
        let n = init.len() as int;
        assert(members =~= init.push(last));
        assert forall|i: int, j: int| 0 <= i < j < init.len() implies #[trigger] init[i].id
            != #[trigger] init[j].id by {
            assert(init[i] == members[i]);
            assert(init[j] == members[j]);
        }
        fanout_reaches_members(init, frame, capacity);
        fanout_push(init, last, frame, capacity);
        let inner = fanout(init, frame, capacity);
        let m = inner.len() as int;
        // Whoever is reached among the first ones has another identifier
        // than the last member.
        assert forall|j: int| 0 <= j < m implies (#[trigger] inner[j]).id != last.id by {
            assert(has_member(init, inner[j].id));
            let i = position(init, inner[j].id);
            assert(init[i] == members[i]);
            assert(members[i].id != members[n].id);
        }
        assert forall|j: int| 0 <= j < reached.len() implies has_member(
            members,
            (#[trigger] reached[j]).id,
        ) by {
            if j < m {
                assert(reached[j] == inner[j]);
                assert(has_member(init, inner[j].id));
                let i = position(init, inner[j].id);
                assert(members[i].id == reached[j].id);
            } else {
                assert(members[n].id == reached[j].id);
            }
        }
        assert forall|a: int, b: int| 0 <= a < b < reached.len() implies #[trigger] reached[a].id
            != #[trigger] reached[b].id by {
            if b < m {
                assert(reached[a] == inner[a]);
                assert(reached[b] == inner[b]);
            } else {
                assert(reached[a] == inner[a]);
                assert(inner[a].id != last.id);
            }
        }
        assert forall|i: int|
            0 <= i < members.len() && has_room(#[trigger] members[i], capacity) implies has_member(
            reached,
            members[i].id,
        ) && reached[position(reached, members[i].id)] == with_frame(members[i], frame) by {
            if i < n {
                assert(members[i] == init[i]);
                assert(has_room(init[i], capacity));
                let q = position(inner, init[i].id);
                assert(0 <= q < m && inner[q].id == init[i].id);
                assert(reached[q] == inner[q]);
                position_of_member(reached, q);
            } else {
                assert(members[i] == last);
                assert(reached[m] == with_frame(last, frame));
                position_of_member(reached, m);
            }
        }
        assert forall|i: int|
            0 <= i < members.len() && !has_room(
                #[trigger] members[i],
                capacity,
            ) implies !has_member(reached, members[i].id) by {
            if i < n {
                assert(members[i] == init[i]);
                assert(!has_room(init[i], capacity));
                assert(!has_member(inner, init[i].id));
                assert(members[i].id != members[n].id);
                assert forall|j: int| 0 <= j < reached.len() implies (#[trigger] reached[j]).id
                    != members[i].id by {
                    if j < m {
                        assert(reached[j] == inner[j]);
                    }
                }
            } else {
                assert(members[i] == last);
                assert(reached == inner);
            }
        }
    }
}

/// Two frames that go out one after the other stand in that order at the
/// end of the queue of every member that had room for both.
pub proof fn frames_arrive_in_publish_order(
    members: Seq<SubscriptionView>,
    first: Seq<u8>,
    second: Seq<u8>,
    capacity: nat,
    i: int,
)
    requires
        distinct_ids(members),
        0 <= i < members.len(),
        members[i].queue.len() + 2 <= capacity,
    ensures
        has_member(fanout(fanout(members, first, capacity), second, capacity), members[i].id),
        fanout(fanout(members, first, capacity), second, capacity)[position(
            fanout(fanout(members, first, capacity), second, capacity),
            members[i].id,
        )].queue == members[i].queue.push(first).push(second),
{
    let once = fanout(members, first, capacity);
    fanout_reaches_members(members, first, capacity);
    assert(has_room(members[i], capacity));
    let q = position(once, members[i].id);
    assert(0 <= q < once.len() && once[q].id == members[i].id);
    assert(once[q] == with_frame(members[i], first));
    fanout_reaches_members(once, second, capacity);
    assert(has_room(once[q], capacity));
}

/// A registration on an open connection gives an identifier and one more
/// member wherever no member has an identifier that a draw can give: on an
/// empty registry above all.
pub proof fn register_succeeds_without_collision(
    members: Seq<SubscriptionView>,
    connection: Connection,
    r: Result<u128, SseError>,
    after: Seq<SubscriptionView>,
)
    requires
        connection.open,
        !holds_random_uuid(members),
        match r {
            Ok(id) => is_random_uuid(id) && after == enrolled(members, id, connection),
            Err(error) => error is InternalError && holds_random_uuid(members),
        },
    ensures
        r is Ok,
        after.len() == members.len() + 1,
        after.last() == entrant(r->Ok_0, connection),
{
}

/// No draw can give an identifier of an empty registry.
pub proof fn empty_registry_holds_no_identifier(members: Seq<SubscriptionView>)
    requires
        members.len() == 0,
    ensures
        !holds_random_uuid(members),
{
}

} // verus!

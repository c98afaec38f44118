use vstd::prelude::*;

verus! {

/// Capacity of each subscriber's outbox: large enough for about 10 s of
/// buffering before a slow consumer starts losing chunks.
pub const MAX_CHUNKS: usize = 1000;

/// One downstream consumer attached to a broadcaster.
pub struct Subscriber {
    /// Caller-chosen identity; equality with this id defines unsubscription.
    /// Callers are responsible for choosing unique ids; duplicates degrade to
    /// two independent subscriptions and are not an error.
    pub id: u64,
    /// Internal handle tying this subscription to its stream, unique within
    /// the broadcaster for its whole lifetime.
    pub key: u64,
    /// Bounded FIFO of chunks accepted for this subscriber and not yet
    /// consumed; capacity `MAX_CHUNKS`.
    pub outbox: Vec<Vec<u8>>,
    /// The broadcaster still fans out to this subscriber. Cleared by
    /// `unsubscribe` and by any stop; the stream then drains what is queued
    /// and terminates.
    pub sender_open: bool,
    /// The subscriber's stream has not been dropped. A subscriber whose
    /// stream is gone stays in the list, idle, until an explicit unsubscribe.
    pub receiver_open: bool,
}

/// Mathematical model of one subscription.
#[verifier::ext_equal]
pub struct SubModel {
    pub id: u64,
    pub key: u64,
    pub outbox: Seq<Seq<u8>>,
    pub sender_open: bool,
    pub receiver_open: bool,
}

impl View for Subscriber {
    type V = SubModel;

    open spec fn view(&self) -> SubModel {
        SubModel {
            id: self.id,
            key: self.key,
            outbox: self.outbox@.map_values(|c: Vec<u8>| c@),
            sender_open: self.sender_open,
            receiver_open: self.receiver_open,
        }
    }
}

/// Per-tuner-session fan-out engine: delivers every chunk of one byte stream
/// to every currently subscribed consumer, with per-subscriber bounded
/// buffering, a lossy slow-consumer policy, and an inactivity watchdog.
pub struct Broadcaster {
    /// Identifier of the owning tuner session; used for equality only.
    pub id: u64,
    /// Subscriptions in insertion order.
    pub subscribers: Vec<Subscriber>,
    /// Inactivity limit in milliseconds; the watchdog stops the broadcaster
    /// when no chunk arrives for longer than this.
    pub time_limit: u64,
    /// Time of the latest completed fan-out (milliseconds of a monotonic
    /// clock); never decreases.
    pub last_received: u64,
    /// Next internal subscription handle to assign.
    pub next_key: u64,
    /// Still accepting and fanning out chunks; cleared on end of stream, on a
    /// stream error, or when the watchdog fires.
    pub running: bool,
}

/// Mathematical model of a broadcaster.
#[verifier::ext_equal]
pub struct BroadcasterModel {
    pub id: u64,
    pub subs: Seq<SubModel>,
    pub time_limit: u64,
    pub last_received: u64,
    pub next_key: u64,
    pub running: bool,
}

impl View for Broadcaster {
    type V = BroadcasterModel;

    open spec fn view(&self) -> BroadcasterModel {
        BroadcasterModel {
            id: self.id,
            subs: self.subscribers@.map_values(|s: Subscriber| s@),
            time_limit: self.time_limit,
            last_received: self.last_received,
            next_key: self.next_key,
            running: self.running,
        }
    }
}

impl BroadcasterModel {
    /// Internal handles are unique and below the allocation counter.
    pub open spec fn wf(self) -> bool {
        &&& forall|i: int| 0 <= i < self.subs.len() ==> (#[trigger] self.subs[i]).key < self.next_key
        &&& forall|i: int, j: int|
            0 <= i < j < self.subs.len() ==> self.subs[i].key != self.subs[j].key
    }
}

/// A subscriber accepts a chunk iff both ends of its outbox are alive and the
/// outbox has free capacity.
pub open spec fn sub_accepts(s: SubModel) -> bool {
    s.sender_open && s.receiver_open && s.outbox.len() < MAX_CHUNKS
}

/// One fan-out step as seen by a single subscriber: an accepted chunk is
/// appended behind every earlier accepted chunk; otherwise the outbox is
/// untouched (a full outbox drops exactly the offered chunk; a closed one is
/// skipped).
pub open spec fn spec_deliver(s: SubModel, c: Seq<u8>) -> SubModel {
    if sub_accepts(s) {
        SubModel { outbox: s.outbox.push(c), ..s }
    } else {
        s
    }
}

/// Fan one chunk out to every subscriber in insertion order, then record the
/// delivery time. A stopped broadcaster ignores the chunk.
pub open spec fn spec_broadcast(v: BroadcasterModel, c: Seq<u8>, now: u64) -> BroadcasterModel {
    if v.running {
        BroadcasterModel {
            subs: v.subs.map_values(|s: SubModel| spec_deliver(s, c)),
            last_received: now,
            ..v
        }
    } else {
        v
    }
}

/// The subscription that `subscribe` appends: an empty outbox, open on both
/// ends while the broadcaster runs.
pub open spec fn spec_new_sub(v: BroadcasterModel, id: u64) -> SubModel {
    SubModel {
        id,
        key: v.next_key,
        outbox: Seq::empty(),
        sender_open: v.running,
        receiver_open: true,
    }
}

pub open spec fn spec_subscribe(v: BroadcasterModel, id: u64) -> BroadcasterModel {
    BroadcasterModel {
        subs: v.subs.push(spec_new_sub(v, id)),
        next_key: (v.next_key + 1) as u64,
        ..v
    }
}

/// Unsubscribing closes the sender end of every subscription with a matching
/// id; an unknown id is a no-op. The outboxes stay drainable.
pub open spec fn spec_unsubscribe(v: BroadcasterModel, id: u64) -> BroadcasterModel {
    BroadcasterModel {
        subs: v.subs.map_values(
            |s: SubModel|
                if s.id == id {
                    SubModel { sender_open: false, ..s }
                } else {
                    s
                },
        ),
        ..v
    }
}

/// Stopping closes every subscription's sender end; queued chunks stay intact
/// and every stream terminates cleanly once drained.
pub open spec fn spec_stop(v: BroadcasterModel) -> BroadcasterModel {
    BroadcasterModel {
        subs: v.subs.map_values(|s: SubModel| SubModel { sender_open: false, ..s }),
        running: false,
        ..v
    }
}

/// The watchdog: stop iff nothing has been received for more than the limit.
pub open spec fn spec_check_timeout(v: BroadcasterModel, now: u64) -> BroadcasterModel {
    if now - v.last_received > v.time_limit {
        spec_stop(v)
    } else {
        v
    }
}

pub open spec fn has_key(subs: Seq<SubModel>, key: u64) -> bool {
    exists|i: int| 0 <= i < subs.len() && subs[i].key == key
}

pub open spec fn index_of_key(subs: Seq<SubModel>, key: u64) -> int {
    choose|i: int| 0 <= i < subs.len() && subs[i].key == key
}

/// What one poll of a subscriber's stream returns.
pub enum StreamPoll {
    /// The next chunk, front of the FIFO.
    Ready(Vec<u8>),
    /// Nothing queued yet, but the broadcaster may still deliver.
    Pending,
    /// End of the sequence: the subscription is gone or was closed and fully
    /// drained. The stream never yields an error of its own.
    End,
}

fn clone_chunk(c: &Vec<u8>) -> (r: Vec<u8>)
    ensures
        r@ == c@,
{
    let mut r: Vec<u8> = Vec::new();
    let mut i: usize = 0;
    while i < c.len()
        invariant
            i <= c.len(),
            r@ == c@.take(i as int),
        decreases c.len() - i,
    {
        r.push(c[i]);
        proof {
            assert(r@ =~= c@.take(i + 1));
        }
        i += 1;
    }
    proof {
        assert(c@.take(c@.len() as int) =~= c@);
    }
    r
}

fn empty_subscriber() -> (r: Subscriber)
    ensures
        r@ == (SubModel {
            id: 0,
            key: 0,
            outbox: Seq::<Seq<u8>>::empty(),
            sender_open: false,
            receiver_open: false,
        }),
{
    let r = Subscriber {
        id: 0,
        key: 0,
        outbox: Vec::new(),
        sender_open: false,
        receiver_open: false,
    };
    proof {
        assert(r@.outbox =~= Seq::<Seq<u8>>::empty());
        assert(r@ =~~= (SubModel {
            id: 0,
            key: 0,
            outbox: Seq::<Seq<u8>>::empty(),
            sender_open: false,
            receiver_open: false,
        }));
    }
    r
}

impl Broadcaster {
    /// A fresh broadcaster for one tuner session: no subscribers, running,
    /// with `last_received` set to the construction time.
    pub fn new(id: u64, time_limit: u64, now: u64) -> (r: Self)
        ensures
            r@.wf(),
            r@.id == id,
            r@.subs == Seq::<SubModel>::empty(),
            r@.time_limit == time_limit,
            r@.last_received == now,
            r@.next_key == 0,
            r@.running,
    {
        let r = Broadcaster {
            id,
            subscribers: Vec::new(),
            time_limit,
            last_received: now,
            next_key: 0,
            running: true,
        };
        proof {
            assert(r@.subs =~= Seq::<SubModel>::empty());
        }
        r
    }

    /// Append a subscription with a fresh outbox and hand back its stream.
    /// Ids are not deduplicated.
    pub fn subscribe(&mut self, id: u64) -> (r: BroadcasterStream)
        requires
            old(self)@.wf(),
            old(self)@.next_key < u64::MAX,
        ensures
            final(self)@.wf(),
            final(self)@ == spec_subscribe(old(self)@, id),
            r.key == old(self)@.next_key,
            has_key(final(self)@.subs, r.key),
    {
        broadcast use Seq::lemma_push_map_commute;

        let key = self.next_key;
        let sub = Subscriber {
            id,
            key,
            outbox: Vec::new(),
            sender_open: self.running,
            receiver_open: true,
        };
        proof {
            assert(sub@.outbox =~= Seq::<Seq<u8>>::empty());
            assert(sub@ =~~= spec_new_sub(self@, id));
        }
        self.subscribers.push(sub);
        self.next_key = self.next_key + 1;
        proof {
            assert(self@ =~~= spec_subscribe(old(self)@, id));
            let subs = self@.subs;
            let n = subs.len() - 1;
            assert(subs[n].key == old(self)@.next_key);
            assert forall|i: int| 0 <= i < subs.len() implies (#[trigger] subs[i]).key
                < self@.next_key by {}
        }
        BroadcasterStream { key }
    }

    /// Close the sender end of every subscription whose id matches; their
    /// streams terminate once drained. An unknown id changes nothing.
    pub fn unsubscribe(&mut self, id: u64)
        requires
            old(self)@.wf(),
        ensures
            final(self)@.wf(),
            final(self)@ == spec_unsubscribe(old(self)@, id),
    {
        let n = self.subscribers.len();
        let mut i: usize = 0;
        while i < n
            invariant
                i <= n,
                n == self.subscribers.len(),
                n == old(self)@.subs.len(),
                self.id == old(self).id,
                self.time_limit == old(self).time_limit,
                self.last_received == old(self).last_received,
                self.next_key == old(self).next_key,
                self.running == old(self).running,
                forall|j: int|
                    0 <= j < i ==> self.subscribers@[j]@ == spec_unsubscribe(old(self)@, id).subs[j],
                forall|j: int| i <= j < n ==> self.subscribers@[j]@ == old(self)@.subs[j],
            decreases n - i,
        {
            if self.subscribers[i].id == id {
                let mut sub = empty_subscriber();
                self.subscribers.set_and_swap(i, &mut sub);
                sub.sender_open = false;
                self.subscribers.set_and_swap(i, &mut sub);
            }
            proof {
                assert(self.subscribers@[i as int]@ =~~= spec_unsubscribe(old(self)@, id).subs[i as int]);
            }
            i += 1;
        }
        proof {
            assert(self@ =~~= spec_unsubscribe(old(self)@, id));
        }
    }

    /// Fan one chunk out: every open subscription with free capacity gets a
    /// byte-identical copy appended behind everything accepted earlier; a full
    /// outbox drops exactly this chunk; a closed one is skipped. Afterwards
    /// `last_received` is the delivery time. The producer is never blocked.
    pub fn broadcast(&mut self, chunk: &Vec<u8>, now: u64)
        requires
            old(self)@.wf(),
            old(self)@.last_received <= now,
        ensures
            final(self)@.wf(),
            final(self)@ == spec_broadcast(old(self)@, chunk@, now),
            final(self)@.last_received >= old(self)@.last_received,
    {
        broadcast use Seq::lemma_push_map_commute;

        if !self.running {
            return ;
        }
        let n = self.subscribers.len();
        let mut i: usize = 0;
        while i < n
            invariant
                i <= n,
                n == self.subscribers.len(),
                n == old(self)@.subs.len(),
                self.id == old(self).id,
                self.time_limit == old(self).time_limit,
                self.last_received == old(self).last_received,
                self.next_key == old(self).next_key,
                self.running == old(self).running,
                forall|j: int|
                    0 <= j < i ==> self.subscribers@[j]@ == spec_deliver(old(self)@.subs[j], chunk@),
                forall|j: int| i <= j < n ==> self.subscribers@[j]@ == old(self)@.subs[j],
            decreases n - i,
        {
            let accepts = self.subscribers[i].sender_open && self.subscribers[i].receiver_open
                && self.subscribers[i].outbox.len() < MAX_CHUNKS;
            if accepts {
                let copy = clone_chunk(chunk);
                let mut sub = empty_subscriber();
                self.subscribers.set_and_swap(i, &mut sub);
                sub.outbox.push(copy);
                self.subscribers.set_and_swap(i, &mut sub);
            }
            proof {
                assert(self.subscribers@[i as int]@ =~~= spec_deliver(old(self)@.subs[i as int], chunk@));
            }
            i += 1;
        }
        self.last_received = now;
        proof {
            assert(self@ =~~= spec_broadcast(old(self)@, chunk@, now));
        }
    }

    /// Close every subscription's sender end and stop accepting chunks.
    /// Queued chunks are left intact, so subscribers observe a clean end of
    /// sequence with no partial or corrupted final chunk.
    pub fn stop(&mut self)
        requires
            old(self)@.wf(),
        ensures
            final(self)@.wf(),
            final(self)@ == spec_stop(old(self)@),
    {
        self.running = false;
        let n = self.subscribers.len();
        let mut i: usize = 0;
        while i < n
            invariant
                i <= n,
                n == self.subscribers.len(),
                n == old(self)@.subs.len(),
                self.id == old(self).id,
                self.time_limit == old(self).time_limit,
                self.last_received == old(self).last_received,
                self.next_key == old(self).next_key,
                !self.running,
                forall|j: int| 0 <= j < i ==> self.subscribers@[j]@ == spec_stop(old(self)@).subs[j],
                forall|j: int| i <= j < n ==> self.subscribers@[j]@ == old(self)@.subs[j],
            decreases n - i,
        {
            let mut sub = empty_subscriber();
            self.subscribers.set_and_swap(i, &mut sub);
            sub.sender_open = false;
            self.subscribers.set_and_swap(i, &mut sub);
            proof {
                assert(self.subscribers@[i as int]@ =~~= spec_stop(old(self)@).subs[i as int]);
            }
            i += 1;
        }
        proof {
            assert(self@ =~~= spec_stop(old(self)@));
        }
    }

    /// The watchdog tick: stop iff more than `time_limit` milliseconds have
    /// passed since the last completed fan-out. Returns whether it stopped.
    pub fn check_timeout(&mut self, now: u64) -> (stopped: bool)
        requires
            old(self)@.wf(),
            old(self)@.last_received <= now,
        ensures
            final(self)@.wf(),
            final(self)@ == spec_check_timeout(old(self)@, now),
            stopped == (now - old(self)@.last_received > old(self)@.time_limit),
    {
        let elapsed = now - self.last_received;
        if elapsed > self.time_limit {
            self.stop();
            true
        } else {
            false
        }
    }

    /// One poll of the stream with handle `key`: the front of its outbox if
    /// one is queued; end of sequence if the subscription is gone, or closed
    /// and drained; otherwise pending.
    pub fn poll_next(&mut self, key: u64) -> (r: StreamPoll)
        requires
            old(self)@.wf(),
        ensures
            final(self)@.wf(),
            !has_key(old(self)@.subs, key) ==> r is End && final(self)@ == old(self)@,
            has_key(old(self)@.subs, key) ==> ({
                let i = index_of_key(old(self)@.subs, key);
                let sub = old(self)@.subs[i];
                if sub.outbox.len() > 0 {
                    match r {
                        StreamPoll::Ready(c) => {
                            &&& c@ == sub.outbox[0]
                            &&& final(self)@ == (BroadcasterModel {
                                subs: old(self)@.subs.update(
                                    i,
                                    SubModel { outbox: sub.outbox.drop_first(), ..sub },
                                ),
                                ..old(self)@
                            })
                        },
                        _ => false,
                    }
                } else if !sub.sender_open {
                    r is End && final(self)@ == old(self)@
                } else {
                    r is Pending && final(self)@ == old(self)@
                }
            }),
    {
        let n = self.subscribers.len();
        let mut i: usize = 0;
        while i < n
            invariant
                i <= n,
                n == self.subscribers.len(),
                n == old(self)@.subs.len(),
                self@ == old(self)@,
                old(self)@.wf(),
                forall|j: int| 0 <= j < i ==> old(self)@.subs[j].key != key,
            decreases n - i,
        {
            if self.subscribers[i].key == key {
                proof {
                    assert(old(self)@.subs[i as int].key == key);
                    assert(has_key(old(self)@.subs, key));
                    let w = index_of_key(old(self)@.subs, key);
                    assert(0 <= w < old(self)@.subs.len() && old(self)@.subs[w].key == key);
                    assert(w == i as int);
                }
                if self.subscribers[i].outbox.len() > 0 {
                    let mut sub = empty_subscriber();
                    self.subscribers.set_and_swap(i, &mut sub);
                    let chunk = sub.outbox.remove(0);
                    self.subscribers.set_and_swap(i, &mut sub);
                    proof {
                        let ghost target = SubModel {
                            outbox: old(self)@.subs[i as int].outbox.drop_first(),
                            ..old(self)@.subs[i as int]
                        };
                        assert(self.subscribers@[i as int]@.outbox =~= target.outbox);
                        assert(self.subscribers@[i as int]@ =~~= target);
                        assert(self@ =~~= (BroadcasterModel {
                            subs: old(self)@.subs.update(i as int, target),
                            ..old(self)@
                        }));
                        assert(chunk@ == old(self)@.subs[i as int].outbox[0]);
                    }
                    return StreamPoll::Ready(chunk);
                } else if !self.subscribers[i].sender_open {
                    return StreamPoll::End;
                } else {
                    return StreamPoll::Pending;
                }
            }
            i += 1;
        }
        proof {
            assert(!has_key(old(self)@.subs, key)) by {
                if has_key(old(self)@.subs, key) {
                    let w = index_of_key(old(self)@.subs, key);
                    assert(0 <= w < old(self)@.subs.len() && old(self)@.subs[w].key == key);
                }
            }
        }
        StreamPoll::End
    }

    /// The stream with handle `key` was dropped by its holder: mark the
    /// receiver end closed. The subscription stays in the list, idle, until
    /// an explicit unsubscribe; fan-out skips it from the next chunk on.
    pub fn drop_stream(&mut self, key: u64)
        requires
            old(self)@.wf(),
        ensures
            final(self)@.wf(),
            !has_key(old(self)@.subs, key) ==> final(self)@ == old(self)@,
            has_key(old(self)@.subs, key) ==> ({
                let i = index_of_key(old(self)@.subs, key);
                let sub = old(self)@.subs[i];
                final(self)@ == (BroadcasterModel {
                    subs: old(self)@.subs.update(i, SubModel { receiver_open: false, ..sub }),
                    ..old(self)@
                })
            }),
    {
        let n = self.subscribers.len();
        let mut i: usize = 0;
        while i < n
            invariant
                i <= n,
                n == self.subscribers.len(),
                n == old(self)@.subs.len(),
                self@ == old(self)@,
                old(self)@.wf(),
                forall|j: int| 0 <= j < i ==> old(self)@.subs[j].key != key,
            decreases n - i,
        {
            if self.subscribers[i].key == key {
                proof {
                    assert(old(self)@.subs[i as int].key == key);
                    assert(has_key(old(self)@.subs, key));
                    let w = index_of_key(old(self)@.subs, key);
                    assert(0 <= w < old(self)@.subs.len() && old(self)@.subs[w].key == key);
                    assert(w == i as int);
                }
                let mut sub = empty_subscriber();
                self.subscribers.set_and_swap(i, &mut sub);
                sub.receiver_open = false;
                self.subscribers.set_and_swap(i, &mut sub);
                proof {
                    let ghost target = SubModel { receiver_open: false, ..old(self)@.subs[i as int] };
                    assert(self.subscribers@[i as int]@ =~~= target);
                    assert(self@ =~~= (BroadcasterModel {
                        subs: old(self)@.subs.update(i as int, target),
                        ..old(self)@
                    }));
                }
                return ;
            }
            i += 1;
        }
        proof {
            assert(!has_key(old(self)@.subs, key)) by {
                if has_key(old(self)@.subs, key) {
                    let w = index_of_key(old(self)@.subs, key);
                    assert(0 <= w < old(self)@.subs.len() && old(self)@.subs[w].key == key);
                }
            }
        }
    }
}

/// Request to attach a new subscriber.
pub struct SubscribeMessage {
    pub id: u64,
}

/// Request to detach every subscriber with the given id.
pub struct UnsubscribeMessage {
    pub id: u64,
}

/// An item of the upstream chunk sequence as the broadcaster's inbox sees it.
pub enum StreamItem {
    /// A chunk read from the tuner.
    Data(Vec<u8>),
    /// A read error; fatal for the whole broadcaster.
    Error,
    /// End of the upstream byte stream; fatal for the whole broadcaster.
    Eos,
}

impl Broadcaster {
    /// Inbox handling of a subscribe request.
    pub fn handle_subscribe(&mut self, msg: &SubscribeMessage) -> (r: BroadcasterStream)
        requires
            old(self)@.wf(),
            old(self)@.next_key < u64::MAX,
        ensures
            final(self)@.wf(),
            final(self)@ == spec_subscribe(old(self)@, msg.id),
            r.key == old(self)@.next_key,
            has_key(final(self)@.subs, r.key),
    {
        self.subscribe(msg.id)
    }

    /// Inbox handling of an unsubscribe request.
    pub fn handle_unsubscribe(&mut self, msg: &UnsubscribeMessage)
        requires
            old(self)@.wf(),
        ensures
            final(self)@.wf(),
            final(self)@ == spec_unsubscribe(old(self)@, msg.id),
    {
        self.unsubscribe(msg.id)
    }

    /// Inbox handling of one item of the upstream chunk sequence: a chunk is
    /// fanned out; an error or end of stream stops the broadcaster.
    pub fn handle_stream_item(&mut self, item: &StreamItem, now: u64)
        requires
            old(self)@.wf(),
            old(self)@.last_received <= now,
        ensures
            final(self)@.wf(),
            match item {
                StreamItem::Data(chunk) => final(self)@ == spec_broadcast(old(self)@, chunk@, now),
                StreamItem::Error => final(self)@ == spec_stop(old(self)@),
                StreamItem::Eos => final(self)@ == spec_stop(old(self)@),
            },
    {
        match item {
            StreamItem::Data(chunk) => self.broadcast(chunk, now),
            StreamItem::Error => self.stop(),
            StreamItem::Eos => self.stop(),
        }
    }
}

/// The per-subscriber handle: a lazy sequence of chunks. It terminates
/// exactly when the matching outbox's sender end was closed (unsubscribe or
/// broadcaster stop) and the queue is drained.
pub struct BroadcasterStream {
    /// The handle of the subscription this stream drains.
    pub key: u64,
}

impl BroadcasterStream {
    /// A broadcaster with a single subscription, for driving the stream in
    /// tests without a tuner: chunks fed by `broadcast` come out of the
    /// returned stream.
    pub fn new_for_test() -> (r: (Broadcaster, BroadcasterStream))
        ensures
            r.0@.wf(),
            r.0@ == spec_subscribe(spec_new_broadcaster_for_test(), 1),
            r.1.key == 0,
    {
        let mut b = Broadcaster::new(0, 1000, 0);
        proof {
            assert(b@ =~~= spec_new_broadcaster_for_test());
        }
        let s = b.subscribe(1);
        (b, s)
    }

    /// One poll against the owning broadcaster; see `Broadcaster::poll_next`.
    pub fn poll_next(&self, b: &mut Broadcaster) -> (r: StreamPoll)
        requires
            old(b)@.wf(),
        ensures
            final(b)@.wf(),
            !has_key(old(b)@.subs, self.key) ==> r is End && final(b)@ == old(b)@,
            has_key(old(b)@.subs, self.key) ==> ({
                let i = index_of_key(old(b)@.subs, self.key);
                let sub = old(b)@.subs[i];
                if sub.outbox.len() > 0 {
                    match r {
                        StreamPoll::Ready(c) => {
                            &&& c@ == sub.outbox[0]
                            &&& final(b)@ == (BroadcasterModel {
                                subs: old(b)@.subs.update(
                                    i,
                                    SubModel { outbox: sub.outbox.drop_first(), ..sub },
                                ),
                                ..old(b)@
                            })
                        },
                        _ => false,
                    }
                } else if !sub.sender_open {
                    r is End && final(b)@ == old(b)@
                } else {
                    r is Pending && final(b)@ == old(b)@
                }
            }),
    {
        b.poll_next(self.key)
    }
}

/// The broadcaster that `new_for_test` starts from: session id 0, a one
/// second time limit, constructed at time zero.
pub open spec fn spec_new_broadcaster_for_test() -> BroadcasterModel {
    BroadcasterModel {
        id: 0,
        subs: Seq::empty(),
        time_limit: 1000,
        last_received: 0,
        next_key: 0,
        running: true,
    }
}

/// Law: a subscriber with an open, non-full outbox at fan-out time gets the
/// accepted chunk appended byte-identical behind every chunk accepted
/// earlier; polls return the outbox front first, so the subscriber later
/// observes it in source order.
pub proof fn lemma_accepted_chunk_appended(
    v: BroadcasterModel,
    c: Seq<u8>,
    now: u64,
    i: int,
)
    requires
        v.running,
        0 <= i < v.subs.len(),
        sub_accepts(v.subs[i]),
    ensures
        spec_broadcast(v, c, now).subs[i].outbox == v.subs[i].outbox.push(c),
{
}

/// Law: for two chunks both accepted by the same subscriber, their order in
/// its outbox equals their source order.
pub proof fn lemma_fanout_preserves_order(
    v: BroadcasterModel,
    c1: Seq<u8>,
    c2: Seq<u8>,
    now1: u64,
    now2: u64,
    i: int,
)
    requires
        v.running,
        0 <= i < v.subs.len(),
        sub_accepts(v.subs[i]),
        sub_accepts(spec_broadcast(v, c1, now1).subs[i]),
    ensures
        spec_broadcast(spec_broadcast(v, c1, now1), c2, now2).subs[i].outbox == v.subs[i].outbox
            + seq![c1, c2],
{
    let v1 = spec_broadcast(v, c1, now1);
    let v2 = spec_broadcast(v1, c2, now2);
    assert(v1.subs[i].outbox == v.subs[i].outbox.push(c1));
    assert(v2.subs[i].outbox == v.subs[i].outbox.push(c1).push(c2));
    assert(v.subs[i].outbox.push(c1).push(c2) =~= v.subs[i].outbox + seq![c1, c2]);
}

/// Law: a subscriber whose outbox is full loses exactly the offered chunk;
/// the chunks already accepted, and their order, are untouched.
pub proof fn lemma_full_outbox_drops_only_offered(
    v: BroadcasterModel,
    c: Seq<u8>,
    now: u64,
    i: int,
)
    requires
        v.running,
        0 <= i < v.subs.len(),
        !sub_accepts(v.subs[i]),
    ensures
        spec_broadcast(v, c, now).subs[i] == v.subs[i],
{
}

/// Law: `last_received` never decreases — fan-out moves it forward to the
/// delivery time, and no other transition touches it.
pub proof fn lemma_last_received_monotonic(v: BroadcasterModel, c: Seq<u8>, now: u64, id: u64)
    requires
        v.last_received <= now,
    ensures
        spec_broadcast(v, c, now).last_received >= v.last_received,
        v.running ==> spec_broadcast(v, c, now).last_received == now,
        spec_subscribe(v, id).last_received == v.last_received,
        spec_unsubscribe(v, id).last_received == v.last_received,
        spec_stop(v).last_received == v.last_received,
        spec_check_timeout(v, now).last_received == v.last_received,
{
}

/// Law: when the watchdog finds that more than `time_limit` has passed since
/// the last delivery, the broadcaster stops and every subscription's sender
/// end closes, so every outstanding stream terminates once drained — with all
/// queued chunks intact.
pub proof fn lemma_timeout_stops(v: BroadcasterModel, now: u64)
    requires
        v.last_received <= now,
        now - v.last_received > v.time_limit,
    ensures
        !spec_check_timeout(v, now).running,
        forall|i: int|
            0 <= i < v.subs.len() ==> !(#[trigger] spec_check_timeout(v, now).subs[i]).sender_open,
        forall|i: int|
            0 <= i < v.subs.len() ==> (#[trigger] spec_check_timeout(v, now).subs[i]).outbox
                == v.subs[i].outbox,
{
}

} // verus!

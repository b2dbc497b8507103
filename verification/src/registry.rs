//! The shared registry of local durable queues.
//!
//! The registry maps a topic name to the topic's local write handle
//! ("producer"). A handle is created lazily, on the first [`Queue::init_topic`]
//! or [`Queue::push_back`] for its topic, and exactly one handle exists per
//! topic. All mutation of the map goes through the registry; callers
//! serialize the three operations behind one lock.
//!
//! The durable queue engine itself is an external collaborator: the registry
//! reaches it through `lmdb_queue` and promises nothing of what is on disk.
//! What it does track, per topic, is the sequence of payloads it has
//! successfully handed to the engine, in order — [`Queue::log_of`] — and
//! every contract below speaks of that sequence.

use vstd::prelude::*;
use lmdb_queue::Env;
use lmdb_queue::topic::{Producer, Topic};

verus! {

/// Declares lmdb_queue's environment type, the open durable store, so that
/// references to it can appear in signatures; its values are opaque here.
#[verifier::external_type_specification]
#[verifier::external_body]
pub struct ExEnv(Env);

/// Declares lmdb_queue's per-topic write handle so that the registry can own
/// one per topic; its values are opaque here.
#[verifier::external_type_specification]
#[verifier::external_body]
pub struct ExProducer<'env>(Producer<'env>);

/// Relies on lmdb_queue's Env::producer: opens the durable queue's write
/// handle for the named topic, creating the topic's on-disk state when it is
/// absent. Whether it succeeds depends on the store on disk, so nothing is
/// promised of the outcome.
#[verifier::external_body]
fn open_producer<'env>(env: &'env Env, name: &str) -> (r: Result<Producer<'env>, ()>) {
    match env.producer(name, None) {
        Ok(p) => Ok(p),
        Err(_) => Err(()),
    }
}

/// Relies on lmdb_queue's Producer::push_back: appends one payload at the
/// tail of the producer's topic in the durable queue. Whether it succeeds
/// depends on the store on disk, so nothing is promised of the outcome.
#[verifier::external_body]
fn producer_append<'env>(producer: &mut Producer<'env>, payload: &[u8]) -> (r: Result<(), ()>) {
    match producer.push_back(payload) {
        Ok(()) => Ok(()),
        Err(_) => Err(()),
    }
}

/// Relies on lmdb_queue's Topic::lag, implemented by Producer: reads the
/// topic's backlog from the durable store, the count of appended payloads not
/// yet consumed. The value depends on the store and on concurrent consumers,
/// so nothing is promised of it.
#[verifier::external_body]
fn producer_lag<'env>(producer: &Producer<'env>) -> (r: Result<u64, ()>) {
    match producer.lag() {
        Ok(n) => Ok(n),
        Err(_) => Err(()),
    }
}

/// An error of the write path.
#[derive(Clone, Copy, Debug, PartialEq, Eq, Structural)]
pub enum QueueError {
    /// The durable queue's write handle for the topic could not be opened.
    OpenFailed,
    /// The durable append of a payload failed; the payload was not recorded.
    AppendFailed,
}

/// One topic's backlog figure, as reported to the coordinator: the number of
/// messages durably appended but not yet consumed. Never negative.
#[derive(Clone, Debug)]
pub struct QueueLag {
    /// The topic the figure belongs to.
    pub queue_id: String,
    /// The backlog count; 0 stands in for a failed backlog query.
    pub lag: u64,
}

/// One known topic: its name, its durable write handle, and the payloads
/// successfully handed to the engine through that handle, in order.
struct TopicEntry<'env> {
    name: String,
    producer: Producer<'env>,
    log: Ghost<Seq<Seq<u8>>>,
}

/// The registry: the single owner of every topic's write handle.
pub struct Queue<'env> {
    env: &'env Env,
    entries: Vec<TopicEntry<'env>>,
}

impl<'env> Queue<'env> {
    /// The topic names the registry knows, in creation order.
    pub closed spec fn names(&self) -> Seq<Seq<char>> {
        Seq::new(self.entries@.len(), |i: int| self.entries@[i].name@)
    }

    /// Whether the registry already holds a write handle for the topic.
    pub closed spec fn knows(&self, t: Seq<char>) -> bool {
        exists|i: int| 0 <= i < self.entries@.len() && self.entries@[i].name@ == t
    }

    /// The payloads successfully handed to the durable engine for topic `t`,
    /// in order; empty while the topic is unknown.
    pub closed spec fn log_of(&self, t: Seq<char>) -> Seq<Seq<u8>> {
        if self.knows(t) {
            let i = choose|i: int|
                0 <= i < self.entries@.len() && self.entries@[i].name@ == t;
            self.entries@[i].log@
        } else {
            Seq::empty()
        }
    }

    /// Well-formed: topic names are unique, so at most one handle exists per
    /// topic.
    pub closed spec fn wf(&self) -> bool {
        forall|i: int, j: int|
            0 <= i < j < self.entries@.len() ==> self.entries@[i].name@ != self.entries@[
                j
            ].name@
    }
}

/// A topic is known exactly when its name stands among the registry's names.
pub proof fn lemma_knows_iff_named<'env>(q: Queue<'env>, t: Seq<char>)
    ensures
        q.knows(t) <==> q.names().contains(t),
{
    if q.knows(t) {
        let i = choose|i: int| 0 <= i < q.entries@.len() && q.entries@[i].name@ == t;
        assert(q.names()[i] == t);
    }
    if q.names().contains(t) {
        let i = choose|i: int| 0 <= i < q.names().len() && q.names()[i] == t;
        assert(q.entries@[i].name@ == t);
    }
}

/// How one successful `init_topic` call relates the registry before and
/// after: the topic is known afterwards, its name was added exactly when it
/// was absent, and no topic's payload log changed.
pub open spec fn init_ok<'env>(pre: Queue<'env>, post: Queue<'env>, t: Seq<char>) -> bool {
    &&& post.names() == if pre.knows(t) {
        pre.names()
    } else {
        pre.names().push(t)
    }
    &&& post.knows(t)
    &&& forall|u: Seq<char>| post.log_of(u) == pre.log_of(u)
}

/// How one successful `push_back` call relates the registry before and
/// after: the payload stands appended at the tail of its topic's log, the
/// topic's name was added exactly when it was absent, and every other
/// topic's log is untouched.
pub open spec fn push_ok<'env>(
    pre: Queue<'env>,
    post: Queue<'env>,
    t: Seq<char>,
    m: Seq<u8>,
) -> bool {
    &&& post.names() == if pre.knows(t) {
        pre.names()
    } else {
        pre.names().push(t)
    }
    &&& post.knows(t)
    &&& post.log_of(t) == pre.log_of(t).push(m)
    &&& forall|u: Seq<char>| u != t ==> post.log_of(u) == pre.log_of(u)
}

impl<'env> Queue<'env> {
    /// A fresh registry over an open durable store: it knows no topic yet.
    pub fn new(env: &'env Env) -> (r: Queue<'env>)
        ensures
            r.wf(),
            r.names() == Seq::<Seq<char>>::empty(),
            forall|u: Seq<char>| r.log_of(u) == Seq::<Seq<u8>>::empty(),
    {
        let r = Queue { env, entries: Vec::new() };
        proof {
            assert(r.names() =~= Seq::<Seq<char>>::empty());
        }
        r
    }

    /// The log the registry associates with the name at an index is that
    /// entry's own log.
    proof fn lemma_log_at_index(q: Queue<'env>, i: int)
        requires
            q.wf(),
            0 <= i < q.entries@.len(),
        ensures
            q.knows(q.entries@[i].name@),
            q.log_of(q.entries@[i].name@) == q.entries@[i].log@,
    {
        let t = q.entries@[i].name@;
        assert(q.knows(t));
        let k = choose|k: int| 0 <= k < q.entries@.len() && q.entries@[k].name@ == t;
        if k < i {
            assert(q.entries@[k].name@ != q.entries@[i].name@);
        } else if i < k {
            assert(q.entries@[i].name@ != q.entries@[k].name@);
        }
    }

    /// Replacing one entry by another with the same name keeps the registry
    /// well formed, keeps the names, and touches no other topic's log.
    proof fn lemma_update_entry(pre: Queue<'env>, post: Queue<'env>, i: int)
        requires
            pre.wf(),
            0 <= i < pre.entries@.len(),
            post.entries@.len() == pre.entries@.len(),
            forall|j: int|
                0 <= j < post.entries@.len() && j != i ==> post.entries@[j] == pre.entries@[j],
            post.entries@[i].name@ == pre.entries@[i].name@,
        ensures
            post.wf(),
            post.names() == pre.names(),
            post.knows(pre.entries@[i].name@),
            post.log_of(pre.entries@[i].name@) == post.entries@[i].log@,
            forall|u: Seq<char>|
                u != pre.entries@[i].name@ ==> post.log_of(u) == pre.log_of(u),
    {
        let t = pre.entries@[i].name@;
        assert(post.names() =~= pre.names());
        assert(post.knows(t));
        let k = choose|k: int| 0 <= k < post.entries@.len() && post.entries@[k].name@ == t;
        assert(k == i);
        assert forall|u: Seq<char>| u != t implies post.log_of(u) == pre.log_of(u) by {
            if post.knows(u) {
                let kp = choose|k: int|
                    0 <= k < post.entries@.len() && post.entries@[k].name@ == u;
                assert(kp != i);
                assert(pre.knows(u));
                let ko = choose|k: int|
                    0 <= k < pre.entries@.len() && pre.entries@[k].name@ == u;
                assert(ko != i);
                if ko < kp {
                    assert(pre.entries@[ko].name@ != pre.entries@[kp].name@);
                } else if kp < ko {
                    assert(pre.entries@[kp].name@ != pre.entries@[ko].name@);
                }
                assert(ko == kp);
            } else {
                assert(!pre.knows(u));
            }
        }
    }

    /// Appending an entry with a fresh name keeps the registry well formed,
    /// adds exactly that name, and touches no other topic's log.
    proof fn lemma_append_entry(pre: Queue<'env>, post: Queue<'env>)
        requires
            pre.wf(),
            pre.entries@.len() < post.entries@.len(),
            post.entries@ == pre.entries@.push(post.entries@.last()),
            !pre.knows(post.entries@.last().name@),
        ensures
            post.wf(),
            post.names() == pre.names().push(post.entries@.last().name@),
            post.knows(post.entries@.last().name@),
            post.log_of(post.entries@.last().name@) == post.entries@.last().log@,
            forall|u: Seq<char>|
                u != post.entries@.last().name@ ==> post.log_of(u) == pre.log_of(u),
    {
        let t = post.entries@.last().name@;
        let n = pre.entries@.len() as int;
        assert(post.names() =~= pre.names().push(t));
        assert(post.entries@[n].name@ == t);
        assert(post.knows(t));
        assert forall|i: int, j: int|
            0 <= i < j < post.entries@.len() implies post.entries@[i].name@ != post.entries@[
            j
        ].name@ by {
            if j < n {
                assert(pre.entries@[i].name@ != pre.entries@[j].name@);
            } else {
                assert(post.entries@[i] == pre.entries@[i]);
            }
        }
        let k = choose|k: int| 0 <= k < post.entries@.len() && post.entries@[k].name@ == t;
        assert(k == n);
        assert forall|u: Seq<char>| u != t implies post.log_of(u) == pre.log_of(u) by {
            if post.knows(u) {
                let kp = choose|k: int|
                    0 <= k < post.entries@.len() && post.entries@[k].name@ == u;
                assert(kp != n);
                assert(pre.entries@[kp].name@ == u);
                assert(pre.knows(u));
                let ko = choose|k: int|
                    0 <= k < pre.entries@.len() && pre.entries@[k].name@ == u;
                if ko < kp {
                    assert(pre.entries@[ko].name@ != pre.entries@[kp].name@);
                } else if kp < ko {
                    assert(pre.entries@[kp].name@ != pre.entries@[ko].name@);
                }
                assert(ko == kp);
            } else {
                if pre.knows(u) {
                    let ko = choose|k: int|
                        0 <= k < pre.entries@.len() && pre.entries@[k].name@ == u;
                    assert(post.entries@[ko].name@ == u);
                }
            }
        }
    }

    /// The index of the topic's entry, if the registry knows the topic.
    fn find_topic(&self, key: &String) -> (r: Option<usize>)
        requires
            self.wf(),
        ensures
            match r {
                Some(i) => 0 <= i < self.entries@.len() && self.entries@[i as int].name@ == key@,
                None => !self.knows(key@),
            },
    {
        let mut i: usize = 0;
        while i < self.entries.len()
            invariant
                0 <= i <= self.entries@.len(),
                forall|j: int| 0 <= j < i ==> self.entries@[j].name@ != key@,
            decreases self.entries@.len() - i,
        {
            if self.entries[i].name == *key {
                return Some(i);
            }
            i += 1;
        }
        None
    }

    /// Create the topic's write handle if it is absent; otherwise do nothing.
    /// Used to pre-warm topics at startup. Idempotent: the topic is known
    /// afterwards and no payload log changes either way. Fails only when the
    /// topic was unknown and the durable engine refused to open its handle,
    /// and then changes nothing.
    pub fn init_topic(&mut self, topic_name: &str) -> (r: Result<(), QueueError>)
        requires
            old(self).wf(),
        ensures
            final(self).wf(),
            r is Ok ==> init_ok(*old(self), *final(self), topic_name@),
            r is Err ==> r == Err::<(), QueueError>(QueueError::OpenFailed) && *final(self)
                == *old(self) && !old(self).knows(topic_name@),
    {
        let key: String = topic_name.to_owned();
        match self.find_topic(&key) {
            Some(i) => {
                proof {
                    assert(self.knows(key@));
                }
                Ok(())
            },
            None => {
                match open_producer(self.env, topic_name) {
                    Ok(producer) => {
                        let ghost pre = *self;
                        let entry = TopicEntry { name: key, producer, log: Ghost(Seq::empty()) };
                        self.entries.push(entry);
                        proof {
                            Self::lemma_append_entry(pre, *self);
                        }
                        Ok(())
                    },
                    Err(_) => Err(QueueError::OpenFailed),
                }
            },
        }
    }

    /// Append one payload to the topic's durable queue, creating the topic's
    /// write handle first if it is absent. On success the payload stands at
    /// the tail of the topic's log and no other topic is touched. On
    /// `OpenFailed` the topic was unknown, its handle could not be opened,
    /// and nothing changed; on `AppendFailed` the handle exists (it may just
    /// have been created) but the payload was not recorded, and no log
    /// changed.
    pub fn push_back(&mut self, topic_name: &str, msg: &[u8]) -> (r: Result<(), QueueError>)
        requires
            old(self).wf(),
        ensures
            final(self).wf(),
            r is Ok ==> push_ok(*old(self), *final(self), topic_name@, msg@),
            r == Err::<(), QueueError>(QueueError::OpenFailed) ==> *final(self) == *old(self)
                && !old(self).knows(topic_name@),
            r == Err::<(), QueueError>(QueueError::AppendFailed) ==> init_ok(
                *old(self),
                *final(self),
                topic_name@,
            ),
    {
        let ghost pre = *self;
        let key: String = topic_name.to_owned();
        match self.find_topic(&key) {
            Some(i) => {
                let mut entry = self.entries.remove(i);
                let appended = producer_append(&mut entry.producer, msg);
                match appended {
                    Ok(()) => {
                        entry.log = Ghost(entry.log@.push(msg@));
                        self.entries.insert(i, entry);
                        proof {
                            assert(self.entries@.len() == pre.entries@.len());
                            assert forall|j: int|
                                0 <= j < self.entries@.len() && j != i implies self.entries@[j]
                                == pre.entries@[j] by {
                                if j < i {
                                    assert(self.entries@[j] == pre.entries@.remove(i as int)[j]);
                                } else {
                                    assert(self.entries@[j] == pre.entries@.remove(i as int)[j
                                        - 1]);
                                }
                            }
                            Self::lemma_update_entry(pre, *self, i as int);
                            Self::lemma_log_at_index(pre, i as int);
                        }
                        Ok(())
                    },
                    Err(_) => {
                        self.entries.insert(i, entry);
                        proof {
                            assert(self.entries@.len() == pre.entries@.len());
                            assert forall|j: int|
                                0 <= j < self.entries@.len() && j != i implies self.entries@[j]
                                == pre.entries@[j] by {
                                if j < i {
                                    assert(self.entries@[j] == pre.entries@.remove(i as int)[j]);
                                } else {
                                    assert(self.entries@[j] == pre.entries@.remove(i as int)[j
                                        - 1]);
                                }
                            }
                            Self::lemma_update_entry(pre, *self, i as int);
                            Self::lemma_log_at_index(pre, i as int);
                        }
                        Err(QueueError::AppendFailed)
                    },
                }
            },
            None => {
                match open_producer(self.env, topic_name) {
                    Ok(producer) => {
                        let mut entry = TopicEntry { name: key, producer, log: Ghost(Seq::empty()) };
                        let appended = producer_append(&mut entry.producer, msg);
                        match appended {
                            Ok(()) => {
                                entry.log = Ghost(entry.log@.push(msg@));
                                self.entries.push(entry);
                                proof {
                                    Self::lemma_append_entry(pre, *self);
                                    assert(self.log_of(topic_name@) =~= pre.log_of(
                                        topic_name@,
                                    ).push(msg@));
                                }
                                Ok(())
                            },
                            Err(_) => {
                                self.entries.push(entry);
                                proof {
                                    Self::lemma_append_entry(pre, *self);
                                }
                                Err(QueueError::AppendFailed)
                            },
                        }
                    },
                    Err(_) => Err(QueueError::OpenFailed),
                }
            },
        }
    }

    /// Snapshot every known topic's backlog, in creation order: one figure
    /// per known topic, carrying the topic's name. A failed backlog query
    /// yields 0 for its topic and leaves the other figures untouched, so one
    /// degraded topic never suppresses the report of the rest.
    pub fn lags(&self) -> (r: Vec<QueueLag>)
        ensures
            r@.len() == self.names().len(),
            forall|i: int| 0 <= i < r@.len() ==> r@[i].queue_id@ == self.names()[i],
    {
        let mut out: Vec<QueueLag> = Vec::new();
        let mut i: usize = 0;
        while i < self.entries.len()
            invariant
                0 <= i <= self.entries@.len(),
                out@.len() == i,
                forall|j: int| 0 <= j < i ==> out@[j].queue_id@ == self.entries@[j].name@,
            decreases self.entries@.len() - i,
        {
            let queue_id = self.entries[i].name.clone();
            let lag = match producer_lag(&self.entries[i].producer) {
                Ok(n) => n,
                Err(_) => 0,
            };
            out.push(QueueLag { queue_id, lag });
            i += 1;
        }
        out
    }
}

/// Idempotent init: once a topic is known, a further successful `init_topic`
/// for it changes nothing — the names stay as they are and every payload log
/// is untouched, so no duplicate handle or other creation side effect exists.
pub proof fn lemma_init_idempotent<'env>(
    q0: Queue<'env>,
    q1: Queue<'env>,
    q2: Queue<'env>,
    t: Seq<char>,
)
    requires
        init_ok(q0, q1, t),
        init_ok(q1, q2, t),
    ensures
        q2.names() == q1.names(),
        forall|u: Seq<char>| q2.log_of(u) == q1.log_of(u),
{
}

/// At most one write handle exists per topic: in a well-formed registry a
/// topic name stands at no more than one position.
pub proof fn lemma_one_handle_per_topic<'env>(q: Queue<'env>, i: int, j: int)
    requires
        q.wf(),
        0 <= i < q.names().len(),
        0 <= j < q.names().len(),
        q.names()[i] == q.names()[j],
    ensures
        i == j,
{
    if i < j {
        assert(q.entries@[i].name@ != q.entries@[j].name@);
    } else if j < i {
        assert(q.entries@[j].name@ != q.entries@[i].name@);
    }
}

/// Order preservation per topic: three successful pushes of `m1`, `m2`, `m3`
/// to one topic leave that topic's log extended by exactly `[m1, m2, m3]`,
/// in the order pushed.
pub proof fn lemma_push_order_preserved<'env>(
    q0: Queue<'env>,
    q1: Queue<'env>,
    q2: Queue<'env>,
    q3: Queue<'env>,
    t: Seq<char>,
    m1: Seq<u8>,
    m2: Seq<u8>,
    m3: Seq<u8>,
)
    requires
        push_ok(q0, q1, t, m1),
        push_ok(q1, q2, t, m2),
        push_ok(q2, q3, t, m3),
    ensures
        q3.log_of(t) == q0.log_of(t) + seq![m1, m2, m3],
{
    assert(q3.log_of(t) =~= q0.log_of(t) + seq![m1, m2, m3]);
}

/// Cross-topic non-interference: successful pushes to two different topics
/// lose a message on neither, in whichever order the registry's lock
/// serialized them (swap the two topics to read the other interleaving), and
/// every remaining topic's log is untouched.
pub proof fn lemma_push_cross_topic<'env>(
    q0: Queue<'env>,
    q1: Queue<'env>,
    q2: Queue<'env>,
    a: Seq<char>,
    ma: Seq<u8>,
    b: Seq<char>,
    mb: Seq<u8>,
)
    requires
        a != b,
        push_ok(q0, q1, a, ma),
        push_ok(q1, q2, b, mb),
    ensures
        q2.log_of(a) == q0.log_of(a).push(ma),
        q2.log_of(b) == q0.log_of(b).push(mb),
        forall|u: Seq<char>| u != a && u != b ==> q2.log_of(u) == q0.log_of(u),
{
}

/// Lag monotonicity under push-only load: a successful push grows its
/// topic's log by exactly one payload and shrinks no log. So under pushes
/// alone the count of recorded payloads never decreases and, starting from a
/// fresh topic, equals the number of successful pushes so far.
pub proof fn lemma_push_only_lag<'env>(q0: Queue<'env>, q1: Queue<'env>, t: Seq<char>, m: Seq<u8>)
    requires
        push_ok(q0, q1, t, m),
    ensures
        q1.log_of(t).len() == q0.log_of(t).len() + 1,
        forall|u: Seq<char>| q1.log_of(u).len() >= q0.log_of(u).len(),
{
    assert forall|u: Seq<char>| q1.log_of(u).len() >= q0.log_of(u).len() by {
        if u != t {
            assert(q1.log_of(u) == q0.log_of(u));
        }
    }
}

/// A chain of registry states, each arising from its predecessor by one
/// successful push of the matching payload to topic `t`.
pub open spec fn push_chain<'env>(qs: Seq<Queue<'env>>, t: Seq<char>, ms: Seq<Seq<u8>>) -> bool {
    &&& qs.len() == ms.len() + 1
    &&& forall|k: int| 0 <= k < ms.len() ==> push_ok(qs[k], qs[k + 1], t, ms[k])
}

/// Under a push-only load the topic's log ends as the starting log followed
/// by every pushed payload, in order: after any number of successful pushes
/// its length equals the starting length plus the count of pushes so far.
pub proof fn lemma_push_chain_counts<'env>(qs: Seq<Queue<'env>>, t: Seq<char>, ms: Seq<Seq<u8>>)
    requires
        push_chain(qs, t, ms),
    ensures
        qs.last().log_of(t) == qs.first().log_of(t) + ms,
        qs.last().log_of(t).len() == qs.first().log_of(t).len() + ms.len(),
    decreases ms.len(),
{
    if ms.len() == 0 {
        assert(qs.last().log_of(t) =~= qs.first().log_of(t) + ms);
    } else {
        let qs0 = qs.drop_last();
        let ms0 = ms.drop_last();
        assert(push_chain(qs0, t, ms0)) by {
            assert(forall|k: int| 0 <= k < ms0.len() ==> push_ok(qs0[k], qs0[k + 1], t, ms0[k]))
                by {
                assert(forall|k: int|
                    0 <= k < ms0.len() ==> qs0[k] == qs[k] && qs0[k + 1] == qs[k + 1] && ms0[k]
                        == ms[k]);
            }
        }
        lemma_push_chain_counts(qs0, t, ms0);
        let n = ms.len() as int;
        assert(push_ok(qs[n - 1], qs[n], t, ms[n - 1]));
        assert(qs0.last() == qs[n - 1]);
        assert(qs.last().log_of(t) =~= qs.first().log_of(t) + ms);
    }
}

} // verus!

//! The subscription registry: a many-to-many index between routing tags and
//! live subscribers, each with a bounded queue of pending envelopes, and the
//! delivery rules that fan an envelope out over it.
//!
//! The registry is not built on the `tagged-channels` crate: its delivery
//! methods are `async` and wait for room in each subscriber's queue, and it
//! offers no way to resolve a tag or to unregister on request. Delivery here
//! must never wait, a full queue drops the new envelope for that subscriber
//! only, and unregistering is an explicit, idempotent operation.
use vstd::prelude::*;

use crate::events::{ChannelTag, EventMessage, TagModel};

verus! {

/// Queue bound used by [`Registry::new`].
pub const QUEUE_CAPACITY: usize = 64;

/// One live subscriber: its handle, the tags it listens on, and its queue.
struct Subscriber {
    id: u64,
    tags: Vec<ChannelTag>,
    queue: Vec<EventMessage>,
}

/// The subscribers registered under one tag.
struct TagMembers {
    tag: ChannelTag,
    members: Vec<u64>,
}

/// The set of tags that a list of tags holds.
pub open spec fn tag_set(v: Seq<ChannelTag>) -> Set<TagModel> {
    Set::new(|t: TagModel| exists|i: int| 0 <= i < v.len() && #[trigger] v[i]@ == t)
}

/// Subscribers under `t` when every subscriber's tags are given by `subs`.
pub open spec fn listeners_of(subs: Map<u64, Set<TagModel>>, t: TagModel) -> Set<u64> {
    Set::new(|id: u64| subs.contains_key(id) && subs[id].contains(t))
}

/// Who an envelope addressed to `t` reaches: everyone for `Broadcast`,
/// else exactly the subscribers registered under `t`.
pub open spec fn audience_of(subs: Map<u64, Set<TagModel>>, t: TagModel) -> Set<u64> {
    if t is Broadcast {
        subs.dom()
    } else {
        listeners_of(subs, t)
    }
}

/// Queues after offering `m` to the subscribers in `to`: each one gets it at the
/// back unless its queue already holds `cap` envelopes, in which case `m` is dropped
/// for that subscriber only.
pub open spec fn offered(
    queues: Map<u64, Seq<EventMessage>>,
    to: Set<u64>,
    cap: nat,
    m: EventMessage,
) -> Map<u64, Seq<EventMessage>> {
    Map::new(
        |id: u64| queues.contains_key(id),
        |id: u64|
            if to.contains(id) && queues[id].len() < cap {
                queues[id].push(m)
            } else {
                queues[id]
            },
    )
}

/// Index entries agree with the subscriber-to-tags map `subs`: one entry per
/// tag, never empty, listing exactly the subscribers whose tags include it.
spec fn index_agrees(index: Seq<TagMembers>, subs: Map<u64, Set<TagModel>>) -> bool {
    &&& forall|j: int, k: int|
        0 <= j < index.len() && 0 <= k < index.len() && j != k ==> #[trigger] index[j].tag@
            != #[trigger] index[k].tag@
    &&& forall|j: int| 0 <= j < index.len() ==> #[trigger] index[j].members@.no_duplicates()
    &&& forall|j: int| 0 <= j < index.len() ==> #[trigger] index[j].members@.len() > 0
    &&& forall|j: int, id: u64|
        0 <= j < index.len() ==> (#[trigger] index[j].members@.contains(id) <==> (
        subs.contains_key(id) && subs[id].contains(index[j].tag@)))
    &&& forall|id: u64, t: TagModel|
        subs.contains_key(id) && #[trigger] subs[id].contains(t) ==> exists|j: int|
            0 <= j < index.len() && #[trigger] index[j].tag@ == t
}

fn find_tag(index: &Vec<TagMembers>, tag: &ChannelTag) -> (r: Option<usize>)
    ensures
        match r {
            Some(j) => j < index@.len() && index@[j as int].tag@ == tag@,
            None => forall|j: int| 0 <= j < index@.len() ==> index@[j].tag@ != tag@,
        },
{
    let mut j: usize = 0;
    while j < index.len()
        invariant
            j <= index@.len(),
            forall|k: int| 0 <= k < j ==> index@[k].tag@ != tag@,
        decreases index@.len() - j,
    {
        if index[j].tag == *tag {
            return Some(j);
        }
        j = j + 1;
    }
    None
}

fn contains_id(v: &Vec<u64>, id: u64) -> (r: bool)
    ensures
        r == v@.contains(id),
{
    let mut k: usize = 0;
    while k < v.len()
        invariant
            k <= v@.len(),
            forall|i: int| 0 <= i < k ==> v@[i] != id,
        decreases v@.len() - k,
    {
        if v[k] == id {
            return true;
        }
        k = k + 1;
    }
    false
}

proof fn lemma_tag_set_step(v: Seq<ChannelTag>, k: int)
    requires
        0 <= k < v.len(),
    ensures
        tag_set(v.take(k + 1)) == tag_set(v.take(k)).insert(v[k]@),
{
    let a = v.take(k + 1);
    let b = v.take(k);
    assert forall|t: TagModel| tag_set(a).contains(t) <==> tag_set(b).insert(v[k]@).contains(t) by {
        if tag_set(a).contains(t) {
            let i = choose|i: int| 0 <= i < a.len() && #[trigger] a[i]@ == t;
            if i < k {
                assert(b[i]@ == t);
            }
        }
        if tag_set(b).contains(t) {
            let i = choose|i: int| 0 <= i < b.len() && #[trigger] b[i]@ == t;
            assert(a[i]@ == t);
        }
        if t == v[k]@ {
            assert(a[k]@ == t);
        }
    }
    assert(tag_set(a) =~= tag_set(b).insert(v[k]@));
}

/// Adds `id` under `tag`, creating the tag's entry when it has none.
fn add_member(
    index: &mut Vec<TagMembers>,
    tag: &ChannelTag,
    id: u64,
    Ghost(subs): Ghost<Map<u64, Set<TagModel>>>,
)
    requires
        index_agrees(old(index)@, subs),
        subs.contains_key(id),
    ensures
        index_agrees(final(index)@, subs.insert(id, subs[id].insert(tag@))),
{
    let ghost after = subs.insert(id, subs[id].insert(tag@));
    let ghost before = index@;
    match find_tag(index, tag) {
        Some(j) => {
            let present = contains_id(&index[j].members, id);
            if !present {
                index[j].members.push(id);
            }
            proof {
                let now = index@;
                assert(now.len() == before.len());
                assert forall|k: int| 0 <= k < now.len() && k != j implies now[k] == before[k] by {}
                assert(now[j as int].tag == before[j as int].tag);
                if !present {
                    let m = now[j as int].members@;
                    assert(m[m.len() - 1] == id);
                }
                assert(now[j as int].members@.contains(id));
                assert forall|x: u64| #[trigger] now[j as int].members@.contains(x) <==> (
                    before[j as int].members@.contains(x) || x == id) by {
                    if now[j as int].members@ != before[j as int].members@ {
                        assert(now[j as int].members@ == before[j as int].members@.push(id));
                        if now[j as int].members@.contains(x) {
                            let i = choose|i: int| 0 <= i < now[j as int].members@.len()
                                && now[j as int].members@[i] == x;
                            if i < before[j as int].members@.len() {
                                assert(before[j as int].members@[i] == x);
                            }
                        }
                        if before[j as int].members@.contains(x) {
                            let i = choose|i: int| 0 <= i < before[j as int].members@.len()
                                && before[j as int].members@[i] == x;
                            assert(now[j as int].members@[i] == x);
                        }
                    }
                }
                assert forall|k: int| 0 <= k < now.len() implies #[trigger] now[k].members@.no_duplicates() by {
                    if k == j && !present {
                        let m = before[k].members@;
                        assert(m.no_duplicates());
                        assert(now[k].members@ == m.push(id));
                        assert forall|a: int, b: int| 0 <= a < b < m.push(id).len()
                            implies m.push(id)[a] != m.push(id)[b] by {
                            if b == m.len() {
                                assert(m.contains(m[a]));
                            }
                        }
                    }
                }
                assert forall|k: int, x: u64| 0 <= k < now.len() implies (
                    #[trigger] now[k].members@.contains(x) <==> (after.contains_key(x)
                    && after[x].contains(now[k].tag@))) by {
                    if k != j {
                        assert(before[k].tag@ != before[j as int].tag@);
                    }
                }
                assert forall|x: u64, t: TagModel|
                    after.contains_key(x) && #[trigger] after[x].contains(t) implies exists|k: int|
                    0 <= k < now.len() && #[trigger] now[k].tag@ == t by {
                    if x == id && t == tag@ {
                        assert(now[j as int].tag@ == t);
                    } else {
                        assert(subs[x].contains(t));
                        let k = choose|k: int| 0 <= k < before.len() && #[trigger] before[k].tag@ == t;
                        assert(now[k].tag@ == t);
                    }
                }
            }
        },
        None => {
            let mut members: Vec<u64> = Vec::new();
            members.push(id);
            index.push(TagMembers { tag: tag.clone(), members });
            proof {
                let now = index@;
                let n = before.len() as int;
                assert(now[n].members@ =~= seq![id]);
                assert forall|k: int, x: u64| 0 <= k < now.len() implies (
                    #[trigger] now[k].members@.contains(x) <==> (after.contains_key(x)
                    && after[x].contains(now[k].tag@))) by {
                    if k < n {
                        assert(now[k] == before[k]);
                        assert(now[k].tag@ != tag@);
                    } else {
                        assert(now[k].members@ == seq![id]);
                        assert(now[k].tag@ == tag@);
                        if x == id {
                            assert(now[k].members@[0] == id);
                            assert(now[k].members@.contains(x));
                            assert(after[x].contains(tag@));
                        } else {
                            if after.contains_key(x) && after[x].contains(tag@) {
                                assert(subs[x].contains(tag@));
                                let q = choose|q: int| 0 <= q < before.len() && #[trigger] before[q].tag@ == tag@;
                                assert(false);
                            }
                            assert(!now[k].members@.contains(x));
                        }
                    }
                }
                assert forall|x: u64, t: TagModel|
                    after.contains_key(x) && #[trigger] after[x].contains(t) implies exists|k: int|
                    0 <= k < now.len() && #[trigger] now[k].tag@ == t by {
                    if x == id && t == tag@ {
                        assert(now[n].tag@ == t);
                    } else {
                        assert(subs[x].contains(t));
                        let k = choose|k: int| 0 <= k < before.len() && #[trigger] before[k].tag@ == t;
                        assert(now[k].tag@ == t);
                    }
                }
                assert forall|j: int, k: int|
                    0 <= j < now.len() && 0 <= k < now.len() && j != k implies #[trigger] now[j].tag@
                        != #[trigger] now[k].tag@ by {
                    if j < n && k < n {
                        assert(now[j] == before[j] && now[k] == before[k]);
                    } else if j < n {
                        assert(now[j] == before[j]);
                    } else {
                        assert(now[k] == before[k]);
                    }
                }
                assert forall|k: int| 0 <= k < now.len() implies #[trigger] now[k].members@.no_duplicates() by {
                    if k < n {
                        assert(now[k] == before[k]);
                    }
                }
                assert forall|k: int| 0 <= k < now.len() implies #[trigger] now[k].members@.len() > 0 by {
                    if k < n {
                        assert(now[k] == before[k]);
                    }
                }
            }
        },
    }
}

fn id_position(v: &Vec<u64>, id: u64) -> (r: Option<usize>)
    ensures
        match r {
            Some(p) => p < v@.len() && v@[p as int] == id,
            None => !v@.contains(id),
        },
{
    let mut k: usize = 0;
    while k < v.len()
        invariant
            k <= v@.len(),
            forall|i: int| 0 <= i < k ==> v@[i] != id,
        decreases v@.len() - k,
    {
        if v[k] == id {
            return Some(k);
        }
        k = k + 1;
    }
    None
}

proof fn lemma_remove_unique(s: Seq<u64>, p: int)
    requires
        s.no_duplicates(),
        0 <= p < s.len(),
    ensures
        s.remove(p).no_duplicates(),
        forall|x: u64| #[trigger] s.remove(p).contains(x) <==> (s.contains(x) && x != s[p]),
{
    let r = s.remove(p);
    assert forall|a: int, b: int| 0 <= a < b < r.len() implies r[a] != r[b] by {
        let a1 = if a < p { a } else { a + 1 };
        let b1 = if b < p { b } else { b + 1 };
        assert(r[a] == s[a1] && r[b] == s[b1]);
    }
    assert forall|x: u64| #[trigger] r.contains(x) <==> (s.contains(x) && x != s[p]) by {
        if r.contains(x) {
            let a = choose|a: int| 0 <= a < r.len() && r[a] == x;
            let a1 = if a < p { a } else { a + 1 };
            assert(s[a1] == x);
        }
        if s.contains(x) && x != s[p] {
            let a = choose|a: int| 0 <= a < s.len() && s[a] == x;
            if a < p {
                assert(r[a] == x);
            } else {
                assert(r[a - 1] == x);
            }
        }
    }
}

spec fn entry_agrees(e: TagMembers, subs: Map<u64, Set<TagModel>>) -> bool {
    &&& e.members@.no_duplicates()
    &&& e.members@.len() > 0
    &&& forall|x: u64| #[trigger]
        e.members@.contains(x) <==> (subs.contains_key(x) && subs[x].contains(e.tag@))
}

proof fn lemma_entries_from_index(index: Seq<TagMembers>, subs: Map<u64, Set<TagModel>>)
    requires
        index_agrees(index, subs),
    ensures
        forall|j: int| 0 <= j < index.len() ==> #[trigger] entry_agrees(index[j], subs),
{
    assert forall|j: int| 0 <= j < index.len() implies #[trigger] entry_agrees(index[j], subs) by {
        assert(index[j].members@.no_duplicates());
        assert(index[j].members@.len() > 0);
    }
}

proof fn lemma_index_from_entries(index: Seq<TagMembers>, subs: Map<u64, Set<TagModel>>)
    requires
        forall|j: int| 0 <= j < index.len() ==> #[trigger] entry_agrees(index[j], subs),
        forall|j: int, k: int|
            0 <= j < index.len() && 0 <= k < index.len() && j != k ==> #[trigger] index[j].tag@
                != #[trigger] index[k].tag@,
        forall|id: u64, t: TagModel|
            subs.contains_key(id) && #[trigger] subs[id].contains(t) ==> exists|j: int|
                0 <= j < index.len() && #[trigger] index[j].tag@ == t,
    ensures
        index_agrees(index, subs),
{
    assert forall|j: int| 0 <= j < index.len() implies #[trigger] index[j].members@.no_duplicates() by {
        assert(entry_agrees(index[j], subs));
    }
    assert forall|j: int| 0 <= j < index.len() implies #[trigger] index[j].members@.len() > 0 by {
        assert(entry_agrees(index[j], subs));
    }
    assert forall|j: int, id: u64| 0 <= j < index.len() implies (
        #[trigger] index[j].members@.contains(id) <==> (subs.contains_key(id) && subs[id].contains(
        index[j].tag@))) by {
        assert(entry_agrees(index[j], subs));
    }
}

/// Takes `id` out of every entry and drops the entries left empty.
fn remove_member(index: &mut Vec<TagMembers>, id: u64, Ghost(subs): Ghost<Map<u64, Set<TagModel>>>)
    requires
        index_agrees(old(index)@, subs),
    ensures
        index_agrees(final(index)@, subs.remove(id)),
{
    let ghost after = subs.remove(id);
    proof {
        lemma_entries_from_index(index@, subs);
        assert forall|x: u64, t: TagModel|
            after.contains_key(x) && #[trigger] after[x].contains(t) implies exists|k: int|
            0 <= k < index@.len() && #[trigger] index@[k].tag@ == t by {
            assert(subs[x].contains(t));
        }
    }
    let mut j: usize = 0;
    while j < index.len()
        invariant
            j <= index@.len(),
            forall|k: int| 0 <= k < j ==> #[trigger] entry_agrees(index@[k], after),
            forall|k: int| j <= k < index@.len() ==> #[trigger] entry_agrees(index@[k], subs),
            forall|a: int, b: int|
                0 <= a < index@.len() && 0 <= b < index@.len() && a != b ==> #[trigger] index@[a].tag@
                    != #[trigger] index@[b].tag@,
            forall|x: u64, t: TagModel|
                after.contains_key(x) && #[trigger] after[x].contains(t) ==> exists|k: int|
                    0 <= k < index@.len() && #[trigger] index@[k].tag@ == t,
            after == subs.remove(id),
        decreases index@.len() - j,
    {
        let ghost before = index@;
        let ghost e0 = index@[j as int];
        proof {
            assert(entry_agrees(e0, subs));
        }
        match id_position(&index[j].members, id) {
            Some(p) => {
                index[j].members.remove(p);
                proof {
                    lemma_remove_unique(e0.members@, p as int);
                }
            },
            None => {},
        }
        let ghost e1 = index@[j as int];
        proof {
            assert(e1.tag == e0.tag);
            assert forall|x: u64| #[trigger] e1.members@.contains(x) <==> (after.contains_key(x)
                && after[x].contains(e1.tag@)) by {
                if e1.members@ != e0.members@ {
                    assert(e1.members@.contains(x) <==> (e0.members@.contains(x) && x != id));
                } else {
                    assert(e0.members@.contains(x) ==> x != id);
                }
            }
            assert forall|k: int| 0 <= k < index@.len() && k != j implies index@[k] == before[k] by {}
        }
        if index[j].members.len() == 0 {
            index.remove(j);
            proof {
                let now = index@;
                assert forall|k: int| 0 <= k < j implies #[trigger] entry_agrees(now[k], after) by {
                    assert(now[k] == before[k]);
                }
                assert forall|k: int| j <= k < now.len() implies #[trigger] entry_agrees(now[k], subs) by {
                    assert(now[k] == before[k + 1]);
                }
                assert forall|a: int, b: int|
                    0 <= a < now.len() && 0 <= b < now.len() && a != b implies #[trigger] now[a].tag@
                        != #[trigger] now[b].tag@ by {
                    let a1 = if a < j { a } else { a + 1 };
                    let b1 = if b < j { b } else { b + 1 };
                    assert(now[a] == before[a1] && now[b] == before[b1]);
                }
                assert forall|x: u64, t: TagModel|
                    after.contains_key(x) && #[trigger] after[x].contains(t) implies exists|k: int|
                    0 <= k < now.len() && #[trigger] now[k].tag@ == t by {
                    let k = choose|k: int| 0 <= k < before.len() && #[trigger] before[k].tag@ == t;
                    if k == j {
                        assert(e1.members@.len() == 0);
                        assert(!e1.members@.contains(x));
                        assert(false);
                    } else if k < j {
                        assert(now[k].tag@ == t);
                    } else {
                        assert(now[k - 1].tag@ == t);
                    }
                }
            }
        } else {
            proof {
                let now = index@;
                assert(entry_agrees(now[j as int], after));
                assert forall|a: int, b: int|
                    0 <= a < now.len() && 0 <= b < now.len() && a != b implies #[trigger] now[a].tag@
                        != #[trigger] now[b].tag@ by {
                    assert(before[a].tag@ != before[b].tag@);
                }
                assert forall|x: u64, t: TagModel|
                    after.contains_key(x) && #[trigger] after[x].contains(t) implies exists|k: int|
                    0 <= k < now.len() && #[trigger] now[k].tag@ == t by {
                    let k = choose|k: int| 0 <= k < before.len() && #[trigger] before[k].tag@ == t;
                    assert(now[k].tag@ == t);
                }
            }
            j = j + 1;
        }
    }
    proof {
        lemma_index_from_entries(index@, after);
    }
}

fn has_tag(tags: &Vec<ChannelTag>, tag: &ChannelTag) -> (r: bool)
    ensures
        r == tag_set(tags@).contains(tag@),
{
    let mut k: usize = 0;
    while k < tags.len()
        invariant
            k <= tags@.len(),
            forall|i: int| 0 <= i < k ==> tags@[i]@ != tag@,
        decreases tags@.len() - k,
    {
        if tags[k] == *tag {
            assert(tags@[k as int]@ == tag@);
            return true;
        }
        k = k + 1;
    }
    false
}

fn copy_ids(v: &Vec<u64>) -> (r: Vec<u64>)
    ensures
        r@ == v@,
{
    let mut out: Vec<u64> = Vec::new();
    let mut k: usize = 0;
    while k < v.len()
        invariant
            k <= v@.len(),
            out@ == v@.take(k as int),
        decreases v@.len() - k,
    {
        out.push(v[k]);
        k = k + 1;
        assert(out@ =~= v@.take(k as int));
    }
    assert(v@.take(v@.len() as int) =~= v@);
    out
}

/// The registry of live subscribers.
pub struct Registry {
    next_id: u64,
    capacity: usize,
    subscribers: Vec<Subscriber>,
    index: Vec<TagMembers>,
    subscriptions: Ghost<Map<u64, Set<TagModel>>>,
    queues: Ghost<Map<u64, Seq<EventMessage>>>,
}

impl Registry {
    /// Subscriber handle to the tags it was registered under.
    pub closed spec fn subscriptions(&self) -> Map<u64, Set<TagModel>> {
        self.subscriptions@
    }

    /// Subscriber handle to the envelopes waiting in its queue, oldest first.
    pub closed spec fn queues(&self) -> Map<u64, Seq<EventMessage>> {
        self.queues@
    }

    /// Bound on every subscriber's queue.
    pub closed spec fn capacity(&self) -> nat {
        self.capacity as nat
    }

    /// The handle the next registration will get, if the id space lasts.
    pub closed spec fn next_handle(&self) -> u64 {
        self.next_id
    }

    /// Tag to the subscribers registered under it, as the tag index holds it.
    pub closed spec fn listeners(&self) -> Map<TagModel, Set<u64>> {
        Map::new(
            |t: TagModel| exists|j: int| 0 <= j < self.index@.len() && self.index@[j].tag@ == t,
            |t: TagModel|
                self.index@[choose|j: int|
                    0 <= j < self.index@.len() && self.index@[j].tag@ == t].members@.to_set(),
        )
    }

    /// Who an envelope addressed to `t` reaches now.
    pub open spec fn audience(&self, t: TagModel) -> Set<u64> {
        audience_of(self.subscriptions(), t)
    }

    closed spec fn subscriber_ok(&self, i: int) -> bool {
        let s = self.subscribers@[i];
        &&& self.subscriptions@.contains_key(s.id)
        &&& self.subscriptions@[s.id] == tag_set(s.tags@)
        &&& self.queues@.contains_key(s.id)
        &&& self.queues@[s.id] == s.queue@
        &&& s.queue@.len() <= self.capacity
        &&& s.id < self.next_id
    }

    /// Internal consistency of the registry.
    pub closed spec fn wf(&self) -> bool {
        &&& forall|i: int, k: int|
            0 <= i < self.subscribers@.len() && 0 <= k < self.subscribers@.len() && i != k
                ==> #[trigger] self.subscribers@[i].id != #[trigger] self.subscribers@[k].id
        &&& forall|i: int| 0 <= i < self.subscribers@.len() ==> #[trigger] self.subscriber_ok(i)
        &&& forall|id: u64|
            #[trigger] self.subscriptions@.contains_key(id) ==> exists|i: int|
                0 <= i < self.subscribers@.len() && #[trigger] self.subscribers@[i].id == id
        &&& self.queues@.dom() == self.subscriptions@.dom()
        &&& index_agrees(self.index@, self.subscriptions@)
    }

    /// An empty registry whose queues hold at most `capacity` envelopes each.
    pub fn with_capacity(capacity: usize) -> (r: Registry)
        ensures
            r.wf(),
            r.subscriptions() == Map::<u64, Set<TagModel>>::empty(),
            r.queues() == Map::<u64, Seq<EventMessage>>::empty(),
            r.capacity() == capacity,
            r.next_handle() == 0,
    {
        Registry {
            next_id: 0,
            capacity,
            subscribers: Vec::new(),
            index: Vec::new(),
            subscriptions: Ghost(Map::empty()),
            queues: Ghost(Map::empty()),
        }
    }

    /// An empty registry with the default queue bound.
    pub fn new() -> (r: Registry)
        ensures
            r.wf(),
            r.subscriptions() == Map::<u64, Set<TagModel>>::empty(),
            r.queues() == Map::<u64, Seq<EventMessage>>::empty(),
            r.capacity() == QUEUE_CAPACITY,
            r.next_handle() == 0,
    {
        Registry::with_capacity(QUEUE_CAPACITY)
    }

    fn position(&self, id: u64) -> (r: Option<usize>)
        requires
            self.wf(),
        ensures
            match r {
                Some(i) => i < self.subscribers@.len() && self.subscribers@[i as int].id == id,
                None => !self.subscriptions().contains_key(id),
            },
    {
        let mut i: usize = 0;
        while i < self.subscribers.len()
            invariant
                i <= self.subscribers@.len(),
                forall|k: int| 0 <= k < i ==> self.subscribers@[k].id != id,
            decreases self.subscribers@.len() - i,
        {
            if self.subscribers[i].id == id {
                return Some(i);
            }
            i = i + 1;
        }
        None
    }

    /// Whether `id` is a live subscriber.
    pub fn is_registered(&self, id: u64) -> (r: bool)
        requires
            self.wf(),
        ensures
            r == self.subscriptions().contains_key(id),
    {
        match self.position(id) {
            Some(i) => {
                assert(self.subscriber_ok(i as int));
                true
            },
            None => false,
        }
    }

    /// Number of live subscribers.
    pub fn num_connections(&self) -> (r: usize)
        requires
            self.wf(),
        ensures
            r == self.subscriptions().dom().len(),
    {
        proof {
            self.lemma_dom_is_ids();
        }
        self.subscribers.len()
    }

    proof fn lemma_dom_is_ids(&self)
        requires
            self.wf(),
        ensures
            self.subscriptions().dom() == self.subscribers@.map_values(|s: Subscriber| s.id).to_set(),
            self.subscriptions().dom().len() == self.subscribers@.len(),
    {
        let ids = self.subscribers@.map_values(|s: Subscriber| s.id);
        assert forall|id: u64| self.subscriptions@.contains_key(id) <==> ids.contains(id) by {
            if self.subscriptions@.contains_key(id) {
                let i = choose|i: int|
                    0 <= i < self.subscribers@.len() && #[trigger] self.subscribers@[i].id == id;
                assert(ids[i] == id);
            }
            if ids.contains(id) {
                let i = choose|i: int| 0 <= i < ids.len() && ids[i] == id;
                assert(self.subscriber_ok(i));
            }
        }
        assert(self.subscriptions@.dom() =~= ids.to_set());
        assert(ids.no_duplicates()) by {
            assert forall|i: int, k: int| 0 <= i < ids.len() && 0 <= k < ids.len() && i != k
                implies ids[i] != ids[k] by {
                assert(self.subscribers@[i].id != self.subscribers@[k].id);
            }
        }
        ids.unique_seq_to_set();
    }

    /// Registers a new subscriber under every tag of `tags` with an empty queue,
    /// and returns its handle. Handles are never reused; `None` only once the
    /// id space is exhausted.
    pub fn register(&mut self, tags: Vec<ChannelTag>) -> (r: Option<u64>)
        requires
            old(self).wf(),
        ensures
            final(self).wf(),
            final(self).capacity() == old(self).capacity(),
            old(self).next_handle() == u64::MAX ==> r is None && final(self).subscriptions()
                == old(self).subscriptions() && final(self).queues() == old(self).queues()
                && final(self).next_handle() == old(self).next_handle(),
            old(self).next_handle() < u64::MAX ==> {
                &&& r == Some(old(self).next_handle())
                &&& !old(self).subscriptions().contains_key(old(self).next_handle())
                &&& final(self).subscriptions() == old(self).subscriptions().insert(
                    old(self).next_handle(),
                    tag_set(tags@),
                )
                &&& final(self).queues() == old(self).queues().insert(
                    old(self).next_handle(),
                    Seq::empty(),
                )
                &&& final(self).next_handle() == old(self).next_handle() + 1
            },
    {
        if self.next_id == u64::MAX {
            return None;
        }
        let id = self.next_id;
        let ghost subs0 = self.subscriptions@;
        let ghost tags_v = tags@;
        proof {
            if subs0.contains_key(id) {
                let i = choose|i: int|
                    0 <= i < self.subscribers@.len() && #[trigger] self.subscribers@[i].id == id;
                assert(self.subscriber_ok(i));
            }
            let base = subs0.insert(id, Set::empty());
            let ix = self.index@;
            assert forall|j: int, x: u64| 0 <= j < ix.len() implies (
                #[trigger] ix[j].members@.contains(x) <==> (base.contains_key(x)
                && base[x].contains(ix[j].tag@))) by {
                if x == id {
                    assert(!ix[j].members@.contains(x));
                }
            }
            assert forall|x: u64, t: TagModel|
                base.contains_key(x) && #[trigger] base[x].contains(t) implies exists|k: int|
                0 <= k < ix.len() && #[trigger] ix[k].tag@ == t by {
                assert(subs0[x].contains(t));
            }
            assert(tags_v.take(0) =~= Seq::<ChannelTag>::empty());
            assert(tag_set(tags_v.take(0)) =~= Set::<TagModel>::empty());
        }
        let mut k: usize = 0;
        while k < tags.len()
            invariant
                k <= tags@.len(),
                tags@ == tags_v,
                !subs0.contains_key(id),
                id == old(self).next_id,
                self.next_id == old(self).next_id,
                self.capacity == old(self).capacity,
                self.subscribers@ == old(self).subscribers@,
                self.subscriptions@ == subs0,
                subs0 == old(self).subscriptions@,
                self.queues@ == old(self).queues@,
                old(self).wf(),
                index_agrees(self.index@, subs0.insert(id, tag_set(tags_v.take(k as int)))),
            decreases tags@.len() - k,
        {
            let ghost cur = subs0.insert(id, tag_set(tags_v.take(k as int)));
            add_member(&mut self.index, &tags[k], id, Ghost(cur));
            proof {
                lemma_tag_set_step(tags_v, k as int);
                assert(cur.insert(id, cur[id].insert(tags_v[k as int]@)) =~= subs0.insert(
                    id,
                    tag_set(tags_v.take(k + 1)),
                ));
            }
            k = k + 1;
        }
        proof {
            assert(tags_v.take(tags_v.len() as int) =~= tags_v);
        }
        let ghost old_self = *self;
        self.subscribers.push(Subscriber { id, tags, queue: Vec::new() });
        self.subscriptions = Ghost(subs0.insert(id, tag_set(tags_v)));
        self.queues = Ghost(self.queues@.insert(id, Seq::empty()));
        self.next_id = id + 1;
        proof {
            let n = old_self.subscribers@.len() as int;
            assert forall|i: int| 0 <= i < self.subscribers@.len() implies #[trigger] self.subscriber_ok(i) by {
                if i < n {
                    assert(old(self).subscriber_ok(i));
                    assert(self.subscribers@[i] == old_self.subscribers@[i]);
                } else {
                    assert(self.subscribers@[i].queue@ =~= Seq::<EventMessage>::empty());
                }
            }
            assert forall|i: int, q: int|
                0 <= i < self.subscribers@.len() && 0 <= q < self.subscribers@.len() && i != q
                    implies #[trigger] self.subscribers@[i].id != #[trigger] self.subscribers@[q].id by {
                if i < n && q < n {
                    assert(old_self.subscribers@[i].id != old_self.subscribers@[q].id);
                } else if i < n {
                    assert(old(self).subscriber_ok(i));
                } else if q < n {
                    assert(old(self).subscriber_ok(q));
                }
            }
            assert forall|x: u64| #[trigger] self.subscriptions@.contains_key(x) implies exists|i: int|
                0 <= i < self.subscribers@.len() && #[trigger] self.subscribers@[i].id == x by {
                if x == id {
                    assert(self.subscribers@[n].id == x);
                } else {
                    assert(old(self).subscriptions@.contains_key(x));
                    let i = choose|i: int|
                        0 <= i < old(self).subscribers@.len() && #[trigger] old(self).subscribers@[i].id == x;
                    assert(self.subscribers@[i].id == x);
                }
            }
            assert(self.queues@.dom() =~= self.subscriptions@.dom());
        }
        Some(id)
    }

    /// Removes subscriber `id` from every tag it was registered under and drops
    /// its queue. Unregistering a handle that is not live changes nothing.
    pub fn unregister(&mut self, id: u64)
        requires
            old(self).wf(),
        ensures
            final(self).wf(),
            final(self).capacity() == old(self).capacity(),
            final(self).next_handle() == old(self).next_handle(),
            final(self).subscriptions() == old(self).subscriptions().remove(id),
            final(self).queues() == old(self).queues().remove(id),
    {
        match self.position(id) {
            None => {
                proof {
                    assert(self.subscriptions@.remove(id) =~= self.subscriptions@);
                    assert(self.queues@.remove(id) =~= self.queues@);
                }
            },
            Some(i) => {
                let ghost old_subs = self.subscribers@;
                let _gone = self.subscribers.remove(i);
                remove_member(&mut self.index, id, Ghost(self.subscriptions@));
                self.subscriptions = Ghost(self.subscriptions@.remove(id));
                self.queues = Ghost(self.queues@.remove(id));
                proof {
                    let now = self.subscribers@;
                    assert forall|k: int| 0 <= k < now.len() implies #[trigger] self.subscriber_ok(k) by {
                        let k1 = if k < i { k } else { k + 1 };
                        assert(now[k] == old_subs[k1]);
                        assert(old(self).subscriber_ok(k1));
                        assert(old_subs[k1].id != old_subs[i as int].id);
                    }
                    assert forall|a: int, b: int|
                        0 <= a < now.len() && 0 <= b < now.len() && a != b
                            implies #[trigger] now[a].id != #[trigger] now[b].id by {
                        let a1 = if a < i { a } else { a + 1 };
                        let b1 = if b < i { b } else { b + 1 };
                        assert(now[a] == old_subs[a1] && now[b] == old_subs[b1]);
                    }
                    assert forall|x: u64| #[trigger] self.subscriptions@.contains_key(x) implies exists|k: int|
                        0 <= k < now.len() && #[trigger] now[k].id == x by {
                        let k = choose|k: int| 0 <= k < old_subs.len() && #[trigger] old_subs[k].id == x;
                        if k < i {
                            assert(now[k].id == x);
                        } else {
                            assert(k != i);
                            assert(now[k - 1].id == x);
                        }
                    }
                    assert(self.queues@.dom() =~= self.subscriptions@.dom());
                }
            },
        }
    }

    /// The subscribers an envelope addressed to `tag` would reach now: all of
    /// them for `Broadcast`, else those registered under `tag`, read from the
    /// tag index.
    pub fn resolve(&self, tag: &ChannelTag) -> (r: Vec<u64>)
        requires
            self.wf(),
        ensures
            r@.no_duplicates(),
            forall|id: u64| r@.contains(id) <==> self.audience(tag@).contains(id),
    {
        match tag {
            ChannelTag::Broadcast => {
                let mut out: Vec<u64> = Vec::new();
                let mut i: usize = 0;
                while i < self.subscribers.len()
                    invariant
                        self.wf(),
                        i <= self.subscribers@.len(),
                        out@ == self.subscribers@.take(i as int).map_values(|s: Subscriber| s.id),
                    decreases self.subscribers@.len() - i,
                {
                    out.push(self.subscribers[i].id);
                    i = i + 1;
                    assert(out@ =~= self.subscribers@.take(i as int).map_values(|s: Subscriber| s.id));
                }
                proof {
                    assert(self.subscribers@.take(i as int) =~= self.subscribers@);
                    self.lemma_dom_is_ids();
                    let ids = self.subscribers@.map_values(|s: Subscriber| s.id);
                    assert forall|a: int, b: int| 0 <= a < ids.len() && 0 <= b < ids.len() && a != b
                        implies ids[a] != ids[b] by {
                        assert(self.subscribers@[a].id != self.subscribers@[b].id);
                    }
                }
                out
            },
            _ => {
                proof {
                    lemma_entries_from_index(self.index@, self.subscriptions@);
                }
                match find_tag(&self.index, tag) {
                    Some(j) => {
                        let out = copy_ids(&self.index[j].members);
                        proof {
                            assert(entry_agrees(self.index@[j as int], self.subscriptions@));
                        }
                        out
                    },
                    None => {
                        proof {
                            assert forall|id: u64| !self.audience(tag@).contains(id) by {
                                if self.subscriptions@.contains_key(id)
                                    && self.subscriptions@[id].contains(tag@) {
                                    let k = choose|k: int| 0 <= k < self.index@.len()
                                        && #[trigger] self.index@[k].tag@ == tag@;
                                }
                            }
                        }
                        Vec::new()
                    },
                }
            },
        }
    }

    /// Offers `message` to every subscriber that `tag` reaches. A subscriber whose
    /// queue is full misses it; nobody else is affected and nothing blocks.
    pub fn deliver_to_tag(&mut self, tag: &ChannelTag, message: &EventMessage)
        requires
            old(self).wf(),
        ensures
            final(self).wf(),
            final(self).capacity() == old(self).capacity(),
            final(self).next_handle() == old(self).next_handle(),
            final(self).subscriptions() == old(self).subscriptions(),
            final(self).queues() == offered(
                old(self).queues(),
                old(self).audience(tag@),
                old(self).capacity(),
                *message,
            ),
    {
        let is_broadcast = match tag {
            ChannelTag::Broadcast => true,
            _ => false,
        };
        let ghost q0 = self.queues@;
        let ghost aud = self.audience(tag@);
        let ghost goal = offered(q0, aud, self.capacity as nat, *message);
        proof {
            assert forall|k: int| #![trigger self.subscribers@[k]] 0 <= k < self.subscribers@.len() implies {
                &&& self.subscribers@[k].id == old(self).subscribers@[k].id
                &&& self.subscribers@[k].tags == old(self).subscribers@[k].tags
                &&& self.queues@[self.subscribers@[k].id] == self.subscribers@[k].queue@
                &&& self.subscribers@[k].queue@.len() <= self.capacity
                &&& self.subscribers@[k].queue@ == old(self).subscribers@[k].queue@
            } by {
                assert(self.subscriber_ok(k));
            }
        }
        let mut i: usize = 0;
        while i < self.subscribers.len()
            invariant
                i <= self.subscribers@.len(),
                self.subscribers@.len() == old(self).subscribers@.len(),
                self.next_id == old(self).next_id,
                self.capacity == old(self).capacity,
                self.index@ == old(self).index@,
                self.subscriptions@ == old(self).subscriptions@,
                q0 == old(self).queues@,
                aud == old(self).audience(tag@),
                goal == offered(q0, aud, self.capacity as nat, *message),
                is_broadcast == (tag@ is Broadcast),
                old(self).wf(),
                self.queues@.dom() == q0.dom(),
                forall|k: int| #![trigger self.subscribers@[k]] 0 <= k < self.subscribers@.len() ==> {
                    &&& self.subscribers@[k].id == old(self).subscribers@[k].id
                    &&& self.subscribers@[k].tags == old(self).subscribers@[k].tags
                    &&& self.queues@[self.subscribers@[k].id] == self.subscribers@[k].queue@
                    &&& self.subscribers@[k].queue@.len() <= self.capacity
                    &&& k < i ==> self.subscribers@[k].queue@ == goal[self.subscribers@[k].id]
                    &&& k >= i ==> self.subscribers@[k].queue@ == old(self).subscribers@[k].queue@
                },
            decreases self.subscribers@.len() - i,
        {
            let ghost before = self.subscribers@;
            proof {
                assert(old(self).subscriber_ok(i as int));
                assert(self.subscribers@[i as int].id == old(self).subscribers@[i as int].id);
            }
            let wanted = is_broadcast || has_tag(&self.subscribers[i].tags, tag);
            if wanted && self.subscribers[i].queue.len() < self.capacity {
                self.subscribers[i].queue.push(message.clone());
            }
            let ghost id = self.subscribers@[i as int].id;
            self.queues = Ghost(self.queues@.insert(id, self.subscribers@[i as int].queue@));
            proof {
                assert(wanted == aud.contains(id));
                assert(q0.contains_key(id));
                assert(self.subscribers@[i as int].queue@ == goal[id]);
                assert forall|k: int| 0 <= k < self.subscribers@.len() && k != i implies
                    self.subscribers@[k] == before[k] by {}
                assert forall|k: int| 0 <= k < self.subscribers@.len() && k != i implies
                    #[trigger] self.subscribers@[k].id != id by {
                    assert(old(self).subscribers@[k].id != old(self).subscribers@[i as int].id);
                }
                assert(self.queues@.dom() =~= q0.dom());
                assert forall|k: int| #![trigger self.subscribers@[k]] 0 <= k < self.subscribers@.len() implies {
                    &&& self.subscribers@[k].id == old(self).subscribers@[k].id
                    &&& self.subscribers@[k].tags == old(self).subscribers@[k].tags
                    &&& self.queues@[self.subscribers@[k].id] == self.subscribers@[k].queue@
                    &&& self.subscribers@[k].queue@.len() <= self.capacity
                    &&& k < i + 1 ==> self.subscribers@[k].queue@ == goal[self.subscribers@[k].id]
                    &&& k >= i + 1 ==> self.subscribers@[k].queue@ == old(self).subscribers@[k].queue@
                } by {
                    if k != i {
                        assert(self.subscribers@[k] == before[k]);
                        assert(self.subscribers@[k].id != id);
                    }
                }
            }
            i = i + 1;
        }
        proof {
            assert forall|k: int| 0 <= k < self.subscribers@.len() implies #[trigger] self.subscriber_ok(k) by {
                assert(old(self).subscriber_ok(k));
                assert(self.subscribers@[k].id == old(self).subscribers@[k].id);
            }
            assert forall|a: int, b: int|
                0 <= a < self.subscribers@.len() && 0 <= b < self.subscribers@.len() && a != b
                    implies #[trigger] self.subscribers@[a].id != #[trigger] self.subscribers@[b].id by {
                assert(self.subscribers@[a].id == old(self).subscribers@[a].id);
                assert(self.subscribers@[b].id == old(self).subscribers@[b].id);
            }
            assert forall|x: u64| #[trigger] self.subscriptions@.contains_key(x) implies exists|k: int|
                0 <= k < self.subscribers@.len() && #[trigger] self.subscribers@[k].id == x by {
                let k = choose|k: int|
                    0 <= k < old(self).subscribers@.len() && #[trigger] old(self).subscribers@[k].id == x;
                assert(self.subscribers@[k].id == x);
            }
            assert forall|x: u64| #[trigger] self.queues@.contains_key(x) implies self.queues@[x] == goal[x] by {
                let k = choose|k: int|
                    0 <= k < old(self).subscribers@.len() && #[trigger] old(self).subscribers@[k].id == x;
                assert(self.subscribers@[k].id == x);
            }
            assert(self.queues@ =~= goal);
        }
    }

    /// Offers `message` to every live subscriber, whatever its tags.
    pub fn deliver_broadcast(&mut self, message: &EventMessage)
        requires
            old(self).wf(),
        ensures
            final(self).wf(),
            final(self).capacity() == old(self).capacity(),
            final(self).next_handle() == old(self).next_handle(),
            final(self).subscriptions() == old(self).subscriptions(),
            final(self).queues() == offered(
                old(self).queues(),
                old(self).subscriptions().dom(),
                old(self).capacity(),
                *message,
            ),
    {
        self.deliver_to_tag(&ChannelTag::Broadcast, message);
    }

    /// Takes the oldest envelope waiting for subscriber `id`, if any.
    pub fn receive(&mut self, id: u64) -> (r: Option<EventMessage>)
        requires
            old(self).wf(),
        ensures
            final(self).wf(),
            final(self).capacity() == old(self).capacity(),
            final(self).next_handle() == old(self).next_handle(),
            final(self).subscriptions() == old(self).subscriptions(),
            if old(self).queues().contains_key(id) && old(self).queues()[id].len() > 0 {
                &&& r == Some(old(self).queues()[id][0])
                &&& final(self).queues() == old(self).queues().insert(
                    id,
                    old(self).queues()[id].drop_first(),
                )
            } else {
                &&& r is None
                &&& final(self).queues() == old(self).queues()
            },
    {
        match self.position(id) {
            None => None,
            Some(i) => {
                proof {
                    assert(old(self).subscriber_ok(i as int));
                }
                if self.subscribers[i].queue.len() == 0 {
                    return None;
                }
                let ghost before = self.subscribers@;
                let m = self.subscribers[i].queue.remove(0);
                self.queues = Ghost(self.queues@.insert(id, self.subscribers@[i as int].queue@));
                proof {
                    assert(self.subscribers@[i as int].queue@ =~= before[i as int].queue@.drop_first());
                    assert forall|k: int| 0 <= k < self.subscribers@.len() && k != i implies
                        self.subscribers@[k] == before[k] by {}
                    assert forall|k: int| 0 <= k < self.subscribers@.len() implies #[trigger] self.subscriber_ok(k) by {
                        assert(old(self).subscriber_ok(k));
                        if k != i {
                            assert(before[k].id != before[i as int].id);
                        }
                    }
                    assert forall|a: int, b: int|
                        0 <= a < self.subscribers@.len() && 0 <= b < self.subscribers@.len() && a != b
                            implies #[trigger] self.subscribers@[a].id != #[trigger] self.subscribers@[b].id by {
                        assert(before[a].id != before[b].id);
                    }
                    assert forall|x: u64| #[trigger] self.subscriptions@.contains_key(x) implies exists|k: int|
                        0 <= k < self.subscribers@.len() && #[trigger] self.subscribers@[k].id == x by {
                        let k = choose|k: int| 0 <= k < before.len() && #[trigger] before[k].id == x;
                        assert(self.subscribers@[k].id == x);
                    }
                    assert(self.queues@.dom() =~= self.subscriptions@.dom());
                }
                Some(m)
            },
        }
    }
}

/// The two views of the registry agree at every point: a subscriber is listed
/// under a tag in the tag index exactly when that tag is among its own tags.
pub proof fn lemma_views_agree(r: &Registry)
    requires
        r.wf(),
    ensures
        forall|t: TagModel, id: u64|
            r.listeners().contains_key(t) && #[trigger] r.listeners()[t].contains(id) ==> (
            r.subscriptions().contains_key(id) && r.subscriptions()[id].contains(t)),
        forall|t: TagModel, id: u64|
            r.subscriptions().contains_key(id) && #[trigger] r.subscriptions()[id].contains(t) ==> (
            r.listeners().contains_key(t) && r.listeners()[t].contains(id)),
{
    lemma_entries_from_index(r.index@, r.subscriptions@);
    assert forall|t: TagModel, id: u64|
        (r.listeners().contains_key(t) && #[trigger] r.listeners()[t].contains(id)) <==> (
        r.subscriptions().contains_key(id) && #[trigger] r.subscriptions()[id].contains(t)) by {
        if r.subscriptions@.contains_key(id) && r.subscriptions@[id].contains(t) {
            let k = choose|k: int| 0 <= k < r.index@.len() && #[trigger] r.index@[k].tag@ == t;
            assert(r.listeners().contains_key(t));
        }
        if r.listeners().contains_key(t) {
            let j = choose|j: int| 0 <= j < r.index@.len() && r.index@[j].tag@ == t;
            assert(entry_agrees(r.index@[j], r.subscriptions@));
            assert(r.listeners()[t] == r.index@[j].members@.to_set());
        }
    }
}

/// Every live subscriber has a queue and no other handle does, and no queue
/// holds more than the registry's bound.
pub proof fn lemma_queues_of_live_subscribers(r: &Registry)
    requires
        r.wf(),
    ensures
        r.queues().dom() == r.subscriptions().dom(),
        forall|id: u64| #[trigger] r.queues().contains_key(id) ==> r.queues()[id].len() <= r.capacity(),
{
    assert forall|id: u64| #[trigger] r.queues().contains_key(id) implies r.queues()[id].len()
        <= r.capacity() by {
        let i = choose|i: int| 0 <= i < r.subscribers@.len() && #[trigger] r.subscribers@[i].id == id;
        assert(r.subscriber_ok(i));
    }
}

/// Live handles are all below the next handle, so a handle that has been
/// unregistered is never given out again.
pub proof fn lemma_handles_below_next(r: &Registry)
    requires
        r.wf(),
    ensures
        forall|id: u64| #[trigger] r.subscriptions().contains_key(id) ==> id < r.next_handle(),
{
    assert forall|id: u64| #[trigger] r.subscriptions().contains_key(id) implies id < r.next_handle() by {
        let i = choose|i: int| 0 <= i < r.subscribers@.len() && #[trigger] r.subscribers@[i].id == id;
        assert(r.subscriber_ok(i));
    }
}

/// A handle that is not live is in no audience, so no resolve returns it, and
/// a delivery leaves no queue for it.
pub proof fn lemma_unregistered_unreached(r: &Registry, id: u64, t: TagModel, m: EventMessage)
    requires
        r.wf(),
        !r.subscriptions().contains_key(id),
    ensures
        !r.audience(t).contains(id),
        !offered(r.queues(), r.audience(t), r.capacity(), m).contains_key(id),
{
}

/// Delivery to `Broadcast` reaches every live subscriber whatever its own tags;
/// delivery to any other tag reaches exactly the subscribers registered under
/// it, possibly none. Each one reached gets the envelope at the back of its queue
/// if there is room.
pub proof fn lemma_delivery_reach(r: &Registry, t: TagModel, m: EventMessage)
    requires
        r.wf(),
    ensures
        r.queues().dom() == r.subscriptions().dom(),
        r.audience(TagModel::Broadcast) == r.subscriptions().dom(),
        !(t is Broadcast) ==> forall|id: u64| #[trigger]
            r.audience(t).contains(id) <==> (r.subscriptions().contains_key(id)
                && r.subscriptions()[id].contains(t)),
        forall|id: u64| #[trigger]
            r.queues().contains_key(id) ==> offered(r.queues(), r.audience(t), r.capacity(), m)[id]
                == if r.audience(t).contains(id) && r.queues()[id].len() < r.capacity() {
                r.queues()[id].push(m)
            } else {
                r.queues()[id]
            },
{
    lemma_queues_of_live_subscribers(r);
}

/// A subscriber whose queue is full keeps its queue as it was when an envelope
/// is offered to it, and what every other subscriber gets does not depend on it.
pub proof fn lemma_full_queue_drops(
    queues: Map<u64, Seq<EventMessage>>,
    to: Set<u64>,
    cap: nat,
    m: EventMessage,
    full: u64,
    other: u64,
    replaced: Seq<EventMessage>,
)
    requires
        queues.contains_key(full),
        queues[full].len() >= cap,
        queues.contains_key(other),
        other != full,
    ensures
        offered(queues, to, cap, m)[full] == queues[full],
        offered(queues, to, cap, m)[other] == offered(queues.insert(full, replaced), to, cap, m)[other],
{
}

} // verus!

//! The registry of live sessions and the fan-out of change events.
//!
//! Each session owns an outbound queue. `broadcast` renders the event once and
//! appends that text to the queue of every session registered at that moment;
//! the session's writer drains its queue with `take_pending`, and a session
//! whose transport fails is removed with `unregister`, which touches no other
//! queue. Identifiers come from a counter and are never handed out twice.

use vstd::prelude::*;

use crate::events::ChangeEvent;

verus! {

/// The abstract state: the next identifier to hand out, and for each live
/// session the messages queued for it, oldest first.
pub struct RegistryView {
    pub next_id: u64,
    pub queues: Map<u64, Seq<Seq<char>>>,
}

impl RegistryView {
    /// Every live session holds an identifier that was handed out already.
    pub open spec fn valid(self) -> bool {
        forall|id: u64| #[trigger] self.queues.contains_key(id) ==> id < self.next_id
    }

    /// The state after a new session is registered.
    pub open spec fn after_register(self) -> RegistryView {
        RegistryView { next_id: (self.next_id + 1) as u64, queues: self.queues.insert(self.next_id, seq![]) }
    }

    /// The state after session `id` is removed, whether or not it was live.
    pub open spec fn after_unregister(self, id: u64) -> RegistryView {
        RegistryView { next_id: self.next_id, queues: self.queues.remove(id) }
    }

    /// The state after `msg` is queued once for every live session.
    pub open spec fn after_broadcast(self, msg: Seq<char>) -> RegistryView {
        RegistryView { next_id: self.next_id, queues: self.queues.map_values(|q: Seq<Seq<char>>| q.push(msg)) }
    }

    /// The state after the queue of session `id` is handed to its writer.
    pub open spec fn after_take(self, id: u64) -> RegistryView {
        if self.queues.contains_key(id) {
            RegistryView { next_id: self.next_id, queues: self.queues.insert(id, seq![]) }
        } else {
            self
        }
    }
}

/// One live session: its identifier and the messages not yet handed to its writer.
pub struct Session {
    id: u64,
    outbox: Vec<String>,
}

/// The text of each message, in order.
pub open spec fn texts(v: Seq<String>) -> Seq<Seq<char>> {
    v.map_values(|m: String| m@)
}

/// The live sessions, and the counter their identifiers come from. The
/// sessions stand in a `Vec` kept in increasing identifier order, so that a
/// broadcast can update every queue in place through indexing, and a lookup
/// by identifier relies on that order alone.
pub struct Broadcaster {
    next_id: u64,
    sessions: Vec<Session>,
}

impl View for Broadcaster {
    type V = RegistryView;

    closed spec fn view(&self) -> RegistryView {
        RegistryView {
            next_id: self.next_id,
            queues: Map::new(
                |id: u64| self.has_index(id),
                |id: u64| texts(self.sessions@[self.index_of(id)].outbox@),
            ),
        }
    }
}

impl Broadcaster {
    spec fn has_index(self, id: u64) -> bool {
        exists|i: int| 0 <= i < self.sessions@.len() && #[trigger] self.sessions@[i].id == id
    }

    spec fn index_of(self, id: u64) -> int {
        choose|i: int| 0 <= i < self.sessions@.len() && #[trigger] self.sessions@[i].id == id
    }

    /// Identifiers stand in increasing order, all below the counter.
    pub closed spec fn wf(self) -> bool {
        &&& forall|i: int, j: int|
            0 <= i < j < self.sessions@.len() ==> #[trigger] self.sessions@[i].id < #[trigger] self.sessions@[j].id
        &&& forall|i: int| 0 <= i < self.sessions@.len() ==> #[trigger] self.sessions@[i].id < self.next_id
    }

    proof fn lemma_entry(self, i: int)
        requires
            self.wf(),
            0 <= i < self.sessions@.len(),
        ensures
            self.view().queues.contains_key(self.sessions@[i].id),
            self.view().queues[self.sessions@[i].id] == texts(self.sessions@[i].outbox@),
    {
        let id = self.sessions@[i].id;
        assert(self.has_index(id));
        let j = self.index_of(id);
        if j < i {
            assert(self.sessions@[j].id < self.sessions@[i].id);
        } else if i < j {
            assert(self.sessions@[i].id < self.sessions@[j].id);
        }
    }

    proof fn lemma_absent(self, id: u64)
        requires
            forall|i: int| 0 <= i < self.sessions@.len() ==> #[trigger] self.sessions@[i].id != id,
        ensures
            !self.view().queues.contains_key(id),
    {
    }

    proof fn lemma_valid(self)
        requires
            self.wf(),
        ensures
            self.view().valid(),
    {
        assert forall|id: u64| #[trigger] self.view().queues.contains_key(id) implies id < self.next_id by {
            let i = self.index_of(id);
        }
    }

    /// An empty registry.
    pub fn new() -> (r: Broadcaster)
        ensures
            r.wf(),
            r@.next_id == 0,
            r@.queues == Map::<u64, Seq<Seq<char>>>::empty(),
    {
        let r = Broadcaster { next_id: 0, sessions: Vec::new() };
        proof {
            assert(r@.queues =~= Map::<u64, Seq<Seq<char>>>::empty());
        }
        r
    }

    /// The identifier the next registration will receive.
    pub fn next_id(&self) -> (r: u64)
        ensures
            r == self@.next_id,
    {
        self.next_id
    }

    /// Adds a session with an empty queue and returns its identifier, which
    /// no session has held before.
    pub fn register(&mut self) -> (r: u64)
        requires
            old(self).wf(),
            old(self)@.next_id < u64::MAX,
        ensures
            final(self).wf(),
            r == old(self)@.next_id,
            !old(self)@.queues.contains_key(r),
            final(self)@ == old(self)@.after_register(),
    {
        let ghost pre = *self;
        proof {
            pre.lemma_valid();
        }
        let id = self.next_id;
        self.sessions.push(Session { id, outbox: Vec::new() });
        self.next_id = id + 1;
        proof {
            let post = *self;
            assert(post.wf());
            let target = pre.view().after_register().queues;
            let got = post.view().queues;
            assert forall|k: u64| #[trigger] got.contains_key(k) <==> target.contains_key(k) by {
                if post.view().queues.contains_key(k) {
                    let i = post.index_of(k);
                    if i < pre.sessions@.len() {
                        assert(pre.sessions@[i] == post.sessions@[i]);
                        assert(pre.has_index(k));
                    }
                }
                if target.contains_key(k) {
                    if k == id {
                        assert(post.sessions@[pre.sessions@.len() as int].id == id);
                        assert(post.has_index(k));
                    } else {
                        let i = pre.index_of(k);
                        assert(post.sessions@[i] == pre.sessions@[i]);
                        assert(post.has_index(k));
                    }
                }
            }
            assert forall|k: u64| #[trigger] target.contains_key(k) implies got[k] == target[k] by {
                if k == id {
                    post.lemma_entry(pre.sessions@.len() as int);
                    assert(texts(Seq::<String>::empty()) =~= Seq::<Seq<char>>::empty());
                } else {
                    let i = pre.index_of(k);
                    pre.lemma_entry(i);
                    assert(post.sessions@[i] == pre.sessions@[i]);
                    post.lemma_entry(i);
                }
            }
            assert(got =~= target);
        }
        id
    }

    /// Where session `id` stands, if it is live.
    fn position(&self, id: u64) -> (r: Option<usize>)
        requires
            self.wf(),
        ensures
            r is Some ==> r->Some_0 < self.sessions@.len() && self.sessions@[r->Some_0 as int].id == id,
            r is None ==> !self@.queues.contains_key(id),
    {
        let mut i: usize = 0;
        while i < self.sessions.len()
            invariant
                i <= self.sessions@.len(),
                forall|k: int| 0 <= k < i ==> #[trigger] self.sessions@[k].id != id,
            decreases self.sessions@.len() - i,
        {
            if self.sessions[i].id == id {
                return Some(i);
            }
            i = i + 1;
        }
        proof {
            self.lemma_absent(id);
        }
        None
    }

    /// Whether session `id` is live.
    pub fn is_registered(&self, id: u64) -> (r: bool)
        requires
            self.wf(),
        ensures
            r == self@.queues.contains_key(id),
    {
        match self.position(id) {
            Some(i) => {
                proof {
                    self.lemma_entry(i as int);
                }
                true
            },
            None => false,
        }
    }

    /// How many sessions are live.
    pub fn session_count(&self) -> (r: usize)
        requires
            self.wf(),
        ensures
            r == self@.queues.dom().len(),
    {
        proof {
            self.lemma_count();
        }
        self.sessions.len()
    }

    proof fn lemma_count(self)
        requires
            self.wf(),
        ensures
            self.view().queues.dom().len() == self.sessions@.len(),
    {
        let ids = self.sessions@.map_values(|s: Session| s.id);
        assert forall|i: int, j: int| 0 <= i < j < ids.len() implies ids[i] != ids[j] by {
            assert(self.sessions@[i].id < self.sessions@[j].id);
        }
        ids.unique_seq_to_set();
        assert forall|k: u64| self.view().queues.dom().contains(k) <==> #[trigger] ids.to_set().contains(k) by {
            if self.view().queues.dom().contains(k) {
                let i = self.index_of(k);
                assert(ids[i] == k);
            }
            if ids.to_set().contains(k) {
                let i = choose|i: int| 0 <= i < ids.len() && ids[i] == k;
                assert(self.sessions@[i].id == k);
                assert(self.has_index(k));
            }
        }
        assert(self.view().queues.dom() =~= ids.to_set());
    }
    /// Removes session `id`; nothing happens if it is not live. No other
    /// queue changes, and the identifier is not handed out again.
    pub fn unregister(&mut self, id: u64)
        requires
            old(self).wf(),
        ensures
            final(self).wf(),
            final(self)@ == old(self)@.after_unregister(id),
    {
        let ghost pre = *self;
        match self.position(id) {
            Some(i) => {
                self.sessions.remove(i);
                proof {
                    let post = *self;
                    assert(post.sessions@ == pre.sessions@.remove(i as int));
                    assert forall|a: int, b: int| 0 <= a < b < post.sessions@.len() implies
                        #[trigger] post.sessions@[a].id < #[trigger] post.sessions@[b].id by {
                        let a0 = if a < i { a } else { a + 1 };
                        let b0 = if b < i { b } else { b + 1 };
                        assert(pre.sessions@[a0].id < pre.sessions@[b0].id);
                    }
                    assert forall|a: int| 0 <= a < post.sessions@.len() implies
                        #[trigger] post.sessions@[a].id < post.next_id by {
                        let a0 = if a < i { a } else { a + 1 };
                        assert(pre.sessions@[a0].id < pre.next_id);
                    }
                    assert(post.wf());
                    let target = pre.view().after_unregister(id).queues;
                    let got = post.view().queues;
                    assert forall|k: u64| #[trigger] got.contains_key(k) <==> target.contains_key(k) by {
                        if got.contains_key(k) {
                            let a = post.index_of(k);
                            let a0 = if a < i { a } else { a + 1 };
                            assert(post.sessions@[a] == pre.sessions@[a0]);
                            pre.lemma_entry(a0);
                            pre.lemma_entry(i as int);
                            assert(k != id);
                        }
                        if target.contains_key(k) {
                            let a0 = pre.index_of(k);
                            assert(a0 != i);
                            let a = if a0 < i { a0 } else { a0 - 1 };
                            assert(post.sessions@[a] == pre.sessions@[a0]);
                            assert(post.has_index(k));
                        }
                    }
                    assert forall|k: u64| #[trigger] target.contains_key(k) implies got[k] == target[k] by {
                        let a0 = pre.index_of(k);
                        pre.lemma_entry(a0);
                        assert(a0 != i);
                        let a = if a0 < i { a0 } else { a0 - 1 };
                        assert(post.sessions@[a] == pre.sessions@[a0]);
                        post.lemma_entry(a);
                    }
                    assert(got =~= target);
                }
            },
            None => {
                proof {
                    assert(pre.view().queues.remove(id) =~= pre.view().queues);
                }
            },
        }
    }

    /// Renders `event` once and queues that text for every live session.
    /// The set of live sessions does not change, and nothing can fail.
    pub fn broadcast(&mut self, event: &ChangeEvent)
        requires
            old(self).wf(),
        ensures
            final(self).wf(),
            final(self)@ == old(self)@.after_broadcast(event.wire_spec()),
    {
        let ghost pre = *self;
        let text = event.to_wire();
        let mut i: usize = 0;
        while i < self.sessions.len()
            invariant
                i <= self.sessions@.len(),
                self.sessions@.len() == pre.sessions@.len(),
                self.next_id == pre.next_id,
                text@ == event.wire_spec(),
                forall|k: int| 0 <= k < self.sessions@.len() ==> #[trigger] self.sessions@[k].id == pre.sessions@[k].id,
                forall|k: int| 0 <= k < i ==> #[trigger] texts(self.sessions@[k].outbox@) == texts(pre.sessions@[k].outbox@).push(text@),
                forall|k: int| i <= k < self.sessions@.len() ==> #[trigger] self.sessions@[k] == pre.sessions@[k],
            decreases self.sessions@.len() - i,
        {
            let ghost before = self.sessions@[i as int].outbox@;
            self.sessions[i].outbox.push(text.clone());
            proof {
                let now = self.sessions@[i as int].outbox@;
                assert(now.last()@ == text@);
                assert(now == before.push(now.last()));
                assert(texts(now) =~= texts(before).push(text@));
            }
            i = i + 1;
        }
        proof {
            let post = *self;
            assert(post.wf());
            let target = pre.view().after_broadcast(text@).queues;
            let got = post.view().queues;
            assert forall|k: u64| #[trigger] got.contains_key(k) <==> target.contains_key(k) by {
                if got.contains_key(k) {
                    let a = post.index_of(k);
                    assert(pre.has_index(k));
                }
                if target.contains_key(k) {
                    let a = pre.index_of(k);
                    assert(post.sessions@[a].id == k);
                    assert(post.has_index(k));
                }
            }
            assert forall|k: u64| #[trigger] target.contains_key(k) implies got[k] == target[k] by {
                let a = pre.index_of(k);
                pre.lemma_entry(a);
                post.lemma_entry(a);
            }
            assert(got =~= target);
        }
    }

    /// Removes every session and returns their identifiers, so that their
    /// connections can be closed. The counter keeps its value, so no
    /// identifier is handed out again afterwards.
    pub fn shutdown(&mut self) -> (r: Vec<u64>)
        requires
            old(self).wf(),
        ensures
            final(self).wf(),
            r@.to_set() == old(self)@.queues.dom(),
            r@.no_duplicates(),
            final(self)@ == (RegistryView { next_id: old(self)@.next_id, queues: Map::empty() }),
    {
        let ghost pre = *self;
        let mut ids: Vec<u64> = Vec::new();
        let mut i: usize = 0;
        while i < self.sessions.len()
            invariant
                *self == pre,
                i <= self.sessions@.len(),
                ids@.len() == i,
                forall|k: int| 0 <= k < i ==> #[trigger] ids@[k] == self.sessions@[k].id,
            decreases self.sessions@.len() - i,
        {
            ids.push(self.sessions[i].id);
            i = i + 1;
        }
        self.sessions = Vec::new();
        proof {
            let post = *self;
            assert(post@.queues =~= Map::<u64, Seq<Seq<char>>>::empty());
            assert forall|a: int, b: int| 0 <= a < ids@.len() && 0 <= b < ids@.len() && a != b implies
                ids@[a] != ids@[b] by {
                if a < b {
                    assert(pre.sessions@[a].id < pre.sessions@[b].id);
                } else {
                    assert(pre.sessions@[b].id < pre.sessions@[a].id);
                }
            }
            assert forall|k: u64| #[trigger] ids@.to_set().contains(k) <==> pre@.queues.dom().contains(k) by {
                if ids@.to_set().contains(k) {
                    let a = choose|a: int| 0 <= a < ids@.len() && ids@[a] == k;
                    assert(pre.sessions@[a].id == k);
                    assert(pre.has_index(k));
                }
                if pre@.queues.dom().contains(k) {
                    let a = pre.index_of(k);
                    assert(ids@[a] == k);
                }
            }
            assert(ids@.to_set() =~= pre@.queues.dom());
        }
        ids
    }

    /// Hands the messages queued for session `id` to its writer, oldest
    /// first, and leaves that queue empty. For a session that is not live the
    /// result is empty and nothing changes.
    pub fn take_pending(&mut self, id: u64) -> (r: Vec<String>)
        requires
            old(self).wf(),
        ensures
            final(self).wf(),
            old(self)@.queues.contains_key(id) ==> texts(r@) == old(self)@.queues[id],
            !old(self)@.queues.contains_key(id) ==> r@.len() == 0,
            final(self)@ == old(self)@.after_take(id),
    {
        let ghost pre = *self;
        match self.position(id) {
            Some(i) => {
                let mut out: Vec<String> = Vec::new();
                std::mem::swap(&mut self.sessions[i].outbox, &mut out);
                proof {
                    let post = *self;
                    pre.lemma_entry(i as int);
                    assert(post.wf());
                    let target = pre.view().after_take(id).queues;
                    let got = post.view().queues;
                    assert forall|k: u64| #[trigger] got.contains_key(k) <==> target.contains_key(k) by {
                        if got.contains_key(k) {
                            let a = post.index_of(k);
                            assert(pre.has_index(k));
                        }
                        if target.contains_key(k) {
                            let a = pre.index_of(k);
                            assert(post.sessions@[a].id == k);
                            assert(post.has_index(k));
                        }
                    }
                    assert forall|k: u64| #[trigger] target.contains_key(k) implies got[k] == target[k] by {
                        let a = pre.index_of(k);
                        pre.lemma_entry(a);
                        post.lemma_entry(a);
                        if a == i {
                            assert(texts(post.sessions@[a].outbox@) =~= Seq::<Seq<char>>::empty());
                        }
                    }
                    assert(got =~= target);
                }
                out
            },
            None => Vec::new(),
        }
    }
}

/// One call on the registry, as far as the queues are concerned.
pub enum RegistryOp {
    Register,
    Unregister(u64),
    Broadcast(Seq<char>),
}

impl RegistryView {
    pub open spec fn apply(self, op: RegistryOp) -> RegistryView {
        match op {
            RegistryOp::Register => self.after_register(),
            RegistryOp::Unregister(id) => self.after_unregister(id),
            RegistryOp::Broadcast(msg) => self.after_broadcast(msg),
        }
    }

    /// The state after the calls `ops`, in order.
    pub open spec fn run(self, ops: Seq<RegistryOp>) -> RegistryView
        decreases ops.len(),
    {
        if ops.len() == 0 {
            self
        } else {
            self.run(ops.drop_last()).apply(ops.last())
        }
    }
}

/// The messages broadcast by `ops`, in call order.
pub open spec fn broadcasts(ops: Seq<RegistryOp>) -> Seq<Seq<char>>
    decreases ops.len(),
{
    if ops.len() == 0 {
        seq![]
    } else {
        match ops.last() {
            RegistryOp::Broadcast(msg) => broadcasts(ops.drop_last()).push(msg),
            _ => broadcasts(ops.drop_last()),
        }
    }
}

/// Whether `ops` removes session `id`.
pub open spec fn unregisters(ops: Seq<RegistryOp>, id: u64) -> bool {
    exists|i: int| 0 <= i < ops.len() && ops[i] == RegistryOp::Unregister(id)
}

proof fn lemma_run_counter(v: RegistryView, ops: Seq<RegistryOp>)
    requires
        v.next_id + ops.len() <= u64::MAX,
    ensures
        v.next_id <= v.run(ops).next_id <= v.next_id + ops.len(),
        v.valid() ==> v.run(ops).valid(),
    decreases ops.len(),
{
    if ops.len() > 0 {
        lemma_run_counter(v, ops.drop_last());
        let w = v.run(ops.drop_last());
        if w.valid() {
            let u = w.apply(ops.last());
            assert forall|id: u64| #[trigger] u.queues.contains_key(id) implies id < u.next_id by {
                if w.queues.contains_key(id) {
                }
            }
        }
    }
}

/// A session that is live before a sequence of calls, and that the calls do
/// not remove, stays live and receives each message broadcast by them exactly
/// once, in the order of the calls, after what was already queued for it.
pub proof fn lemma_live_session_receives_each_broadcast(v: RegistryView, ops: Seq<RegistryOp>, id: u64)
    requires
        v.valid(),
        v.next_id + ops.len() <= u64::MAX,
        v.queues.contains_key(id),
        !unregisters(ops, id),
    ensures
        v.run(ops).queues.contains_key(id),
        v.run(ops).queues[id] == v.queues[id] + broadcasts(ops),
    decreases ops.len(),
{
    if ops.len() == 0 {
        assert(v.queues[id] + broadcasts(ops) =~= v.queues[id]);
    } else {
        let init = ops.drop_last();
        assert(!unregisters(init, id)) by {
            if unregisters(init, id) {
                let i = choose|i: int| 0 <= i < init.len() && init[i] == RegistryOp::Unregister(id);
                assert(ops[i] == RegistryOp::Unregister(id));
            }
        }
        lemma_live_session_receives_each_broadcast(v, init, id);
        lemma_run_counter(v, init);
        let w = v.run(init);
        assert(ops[ops.len() - 1] != RegistryOp::Unregister(id));
        match ops.last() {
            RegistryOp::Register => {
                assert(w.next_id != id);
            },
            RegistryOp::Unregister(k) => {},
            RegistryOp::Broadcast(msg) => {
                assert(v.queues[id] + broadcasts(init).push(msg) =~= (v.queues[id] + broadcasts(init)).push(msg));
            },
        }
    }
}

/// Once a session is removed, no later call queues anything for it: it is
/// never live again, whatever is broadcast or registered afterwards.
pub proof fn lemma_removed_session_receives_nothing(v: RegistryView, id: u64, ops: Seq<RegistryOp>)
    requires
        v.valid(),
        id < v.next_id,
        v.next_id + ops.len() <= u64::MAX,
    ensures
        !v.after_unregister(id).run(ops).queues.contains_key(id),
    decreases ops.len(),
{
    let u = v.after_unregister(id);
    assert(u.valid());
    if ops.len() > 0 {
        lemma_removed_session_receives_nothing(v, id, ops.drop_last());
        lemma_run_counter(u, ops.drop_last());
    }
}

/// Removing a session whose transport failed changes no other session's
/// delivery: every other live session receives the broadcast message just as
/// it would have, and the order of the removal and the broadcast does not matter.
pub proof fn lemma_failure_is_isolated(v: RegistryView, failed: u64, msg: Seq<char>)
    ensures
        v.after_unregister(failed).after_broadcast(msg) == v.after_broadcast(msg).after_unregister(failed),
        forall|id: u64| id != failed && #[trigger] v.queues.contains_key(id) ==>
            v.after_unregister(failed).after_broadcast(msg).queues.contains_key(id)
                && v.after_unregister(failed).after_broadcast(msg).queues[id] == v.queues[id].push(msg),
{
    assert(v.after_unregister(failed).after_broadcast(msg).queues =~= v.after_broadcast(msg).after_unregister(failed).queues);
}

} // verus!

//! The broadcast hub's registry of consumer connections. The caller owns the
//! sockets and the per-connection outbound channels, keyed by the ids handed
//! out here; the registry decides who is admitted and who gets each frame.
use vstd::prelude::*;

verus! {

/// A registered consumer: its connection id and its peer address.
#[derive(Clone, Debug)]
pub struct Consumer {
    pub id: u64,
    pub address: String,
}

/// Why a connection was refused.
#[derive(Clone, Copy, Debug, PartialEq, Eq, Structural)]
pub enum HubError {
    /// A connection from this peer address is registered already.
    AlreadyConnected,
    /// The hub has been closed.
    Closed,
    /// Every connection id has been handed out.
    IdsExhausted,
}

/// One frame queued for one consumer.
#[derive(Clone, Debug)]
pub struct Delivery {
    pub consumer: u64,
    pub frame: String,
}

/// The consumer registry of a broadcast hub.
pub struct WebSocketServer {
    consumers: Vec<Consumer>,
    next_id: u64,
    closed: bool,
}

pub struct HubView {
    /// `(id, address)` of each registered consumer, oldest first.
    pub consumers: Seq<(u64, Seq<char>)>,
    pub next_id: u64,
    pub closed: bool,
}

pub open spec fn consumers_view(c: Seq<Consumer>) -> Seq<(u64, Seq<char>)> {
    c.map_values(|x: Consumer| (x.id, x.address@))
}

impl View for WebSocketServer {
    type V = HubView;

    closed spec fn view(&self) -> HubView {
        HubView { consumers: consumers_view(self.consumers@), next_id: self.next_id, closed: self.closed }
    }
}

pub open spec fn has_address(c: Seq<(u64, Seq<char>)>, address: Seq<char>) -> bool {
    exists|i: int| 0 <= i < c.len() && (#[trigger] c[i]).1 == address
}

pub open spec fn has_id(c: Seq<(u64, Seq<char>)>, id: u64) -> bool {
    exists|i: int| 0 <= i < c.len() && (#[trigger] c[i]).0 == id
}

/// Registry invariant: ids increase in order of registration and stay below
/// the next one to hand out; no two entries share a peer address; a closed hub
/// holds no entry.
pub open spec fn hub_wf(h: HubView) -> bool {
    &&& h.closed ==> h.consumers.len() == 0
    &&& forall|i: int, j: int| 0 <= i < j < h.consumers.len() ==> h.consumers[i].0 < h.consumers[j].0
    &&& forall|i: int| 0 <= i < h.consumers.len() ==> (#[trigger] h.consumers[i]).0 < h.next_id
    &&& forall|i: int, j: int|
        0 <= i < j < h.consumers.len() ==> (#[trigger] h.consumers[i]).1 != (#[trigger] h.consumers[j]).1
}

/// The deliveries of one broadcast: the frame, once to each registered consumer.
pub open spec fn fan_out(c: Seq<(u64, Seq<char>)>, frame: Seq<char>, d: Seq<Delivery>) -> bool {
    &&& d.len() == c.len()
    &&& forall|i: int| 0 <= i < d.len() ==> (#[trigger] d[i]).consumer == c[i].0 && d[i].frame@ == frame
}

/// The registry once closed: no consumers, and closed for good.
pub open spec fn closed_hub(h: HubView) -> HubView {
    HubView { consumers: Seq::empty(), next_id: h.next_id, closed: true }
}

impl WebSocketServer {
    pub open spec fn wf(&self) -> bool {
        hub_wf(self@)
    }

    /// An open hub with no consumers.
    pub fn new() -> (r: WebSocketServer)
        ensures
            r.wf(),
            r@.consumers.len() == 0,
            !r@.closed,
    {
        let r = WebSocketServer { consumers: Vec::new(), next_id: 0, closed: false };
        assert(r@.consumers =~= Seq::<(u64, Seq<char>)>::empty());
        r
    }

    pub fn is_closed(&self) -> (r: bool)
        ensures
            r == self@.closed,
    {
        self.closed
    }

    /// Number of registered consumers.
    pub fn len(&self) -> (r: usize)
        ensures
            r == self@.consumers.len(),
    {
        self.consumers.len()
    }

    /// Whether a consumer from `address` is registered.
    pub fn has_address(&self, address: &String) -> (r: bool)
        ensures
            r == has_address(self@.consumers, address@),
    {
        let ghost c = self@.consumers;
        let mut i: usize = 0;
        while i < self.consumers.len()
            invariant
                c == self@.consumers,
                i <= c.len(),
                forall|k: int| 0 <= k < i ==> (#[trigger] c[k]).1 != address@,
            decreases c.len() - i,
        {
            assert(c[i as int] == (self.consumers@[i as int].id, self.consumers@[i as int].address@));
            if self.consumers[i].address.eq(address) {
                assert(c[i as int].1 == address@);
                return true;
            }
            i = i + 1;
        }
        false
    }

    /// Registers a connection from `address`. A second connection from an
    /// address that is registered is refused and leaves the first in place; a
    /// closed hub refuses every connection.
    pub fn accept(&mut self, address: String) -> (r: Result<u64, HubError>)
        requires
            old(self).wf(),
        ensures
            final(self).wf(),
            old(self)@.closed ==> r == Err::<u64, HubError>(HubError::Closed),
            !old(self)@.closed && has_address(old(self)@.consumers, address@) ==> r == Err::<u64, HubError>(
                HubError::AlreadyConnected,
            ),
            !old(self)@.closed && !has_address(old(self)@.consumers, address@) && old(self)@.next_id < u64::MAX
                ==> r is Ok,
            r is Err ==> final(self)@ == old(self)@,
            r matches Ok(id) ==> {
                &&& id == old(self)@.next_id
                &&& final(self)@.consumers == old(self)@.consumers.push((id, address@))
                &&& final(self)@.next_id == id + 1
                &&& final(self)@.closed == old(self)@.closed
            },
    {
        if self.closed {
            return Err(HubError::Closed);
        }
        if self.has_address(&address) {
            return Err(HubError::AlreadyConnected);
        }
        if self.next_id == u64::MAX {
            return Err(HubError::IdsExhausted);
        }
        let id = self.next_id;
        let ghost before = self@.consumers;
        self.consumers.push(Consumer { id, address });
        self.next_id = id + 1;
        assert(self@.consumers =~= before.push((id, address@)));
        proof {
            let c = self@.consumers;
            assert forall|i: int, j: int| 0 <= i < j < c.len() implies (#[trigger] c[i]).1 != (#[trigger] c[j]).1 by {
                if j == c.len() - 1 {
                    assert(c[i] == before[i]);
                    if c[i].1 == address@ {
                        assert(has_address(before, address@));
                    }
                } else {
                    assert(c[i] == before[i]);
                    assert(c[j] == before[j]);
                }
            }
        }
        Ok(id)
    }

    /// Deregisters the consumer with connection id `id`, if registered.
    pub fn disconnect(&mut self, id: u64) -> (r: bool)
        requires
            old(self).wf(),
        ensures
            final(self).wf(),
            r == has_id(old(self)@.consumers, id),
            final(self)@.consumers == old(self)@.consumers.filter(|c: (u64, Seq<char>)| c.0 != id),
            final(self)@.next_id == old(self)@.next_id,
            final(self)@.closed == old(self)@.closed,
    {
        let ghost c = self@.consumers;
        let mut i: usize = 0;
        while i < self.consumers.len()
            invariant
                c == self@.consumers,
                self@ == old(self)@,
                hub_wf(self@),
                i <= c.len(),
                forall|k: int| 0 <= k < i ==> (#[trigger] c[k]).0 != id,
            decreases c.len() - i,
        {
            assert(c[i as int] == (self.consumers@[i as int].id, self.consumers@[i as int].address@));
            if self.consumers[i].id == id {
                let _ = self.consumers.remove(i);
                proof {
                    let after = self@.consumers;
                    assert(after =~= c.remove(i as int));
                    assert(has_id(c, id)) by {
                        assert(c[i as int].0 == id);
                    }
                    assert forall|k: int| 0 <= k < c.len() && k != i implies (#[trigger] c[k]).0 != id by {
                        if k > i {
                            assert(c[i as int].0 < c[k].0);
                        }
                    }
                    assert(c.remove(i as int) =~= c.filter(|x: (u64, Seq<char>)| x.0 != id)) by {
                        lemma_filter_remove_unique(c, i as int, id);
                    }
                    assert forall|a: int, b: int| 0 <= a < b < after.len() implies after[a].0 < after[b].0 by {
                        let a0 = if a < i { a } else { a + 1 };
                        let b0 = if b < i { b } else { b + 1 };
                        assert(after[a] == c[a0]);
                        assert(after[b] == c[b0]);
                    }
                    assert forall|a: int, b: int| 0 <= a < b < after.len() implies (#[trigger] after[a]).1 != (
                    #[trigger] after[b]).1 by {
                        let a0 = if a < i { a } else { a + 1 };
                        let b0 = if b < i { b } else { b + 1 };
                        assert(after[a] == c[a0]);
                        assert(after[b] == c[b0]);
                    }
                    assert forall|a: int| 0 <= a < after.len() implies (#[trigger] after[a]).0 < self@.next_id by {
                        let a0 = if a < i { a } else { a + 1 };
                        assert(after[a] == c[a0]);
                    }
                    assert(c[i as int].0 == id);
                }
                return true;
            }
            i = i + 1;
        }
        proof {
            assert(c.filter(|x: (u64, Seq<char>)| x.0 != id) =~= c) by {
                lemma_filter_keeps_all(c, id);
            }
        }
        false
    }

    /// Queues `frame` once for every registered consumer, in order of registration.
    pub fn broadcast(&self, frame: &String) -> (r: Vec<Delivery>)
        requires
            self.wf(),
        ensures
            fan_out(self@.consumers, frame@, r@),
    {
        let ghost c = self@.consumers;
        let mut out: Vec<Delivery> = Vec::new();
        let mut i: usize = 0;
        while i < self.consumers.len()
            invariant
                c == self@.consumers,
                i <= c.len(),
                out@.len() == i,
                forall|k: int| 0 <= k < i ==> (#[trigger] out@[k]).consumer == c[k].0 && out@[k].frame@ == frame@,
            decreases c.len() - i,
        {
            assert(c[i as int] == (self.consumers@[i as int].id, self.consumers@[i as int].address@));
            out.push(Delivery { consumer: self.consumers[i].id, frame: frame.clone() });
            i = i + 1;
        }
        out
    }

    /// Closes the hub: returns the ids of the connections to shut and empties
    /// the registry. Closing a closed hub does nothing.
    pub fn close(&mut self) -> (r: Vec<u64>)
        requires
            old(self).wf(),
        ensures
            final(self).wf(),
            final(self)@ == closed_hub(old(self)@),
            old(self)@.closed ==> r@.len() == 0 && final(self)@ == old(self)@,
            !old(self)@.closed ==> r@ == old(self)@.consumers.map_values(|c: (u64, Seq<char>)| c.0),
    {
        let ghost c = self@.consumers;
        if self.closed {
            assert(self@.consumers =~= Seq::<(u64, Seq<char>)>::empty());
            return Vec::new();
        }
        let mut ids: Vec<u64> = Vec::new();
        let mut i: usize = 0;
        while i < self.consumers.len()
            invariant
                c == self@.consumers,
                i <= c.len(),
                ids@ == c.take(i as int).map_values(|x: (u64, Seq<char>)| x.0),
            decreases c.len() - i,
        {
            assert(c[i as int] == (self.consumers@[i as int].id, self.consumers@[i as int].address@));
            ids.push(self.consumers[i].id);
            i = i + 1;
            assert(ids@ =~= c.take(i as int).map_values(|x: (u64, Seq<char>)| x.0));
        }
        assert(c.take(i as int) =~= c);
        self.consumers.clear();
        self.closed = true;
        assert(self@.consumers =~= Seq::<(u64, Seq<char>)>::empty());
        ids
    }
}

/// One broadcast reaches every registered consumer exactly once, each with
/// the same frame.
pub proof fn lemma_fan_out_once(h: HubView, frame: Seq<char>, d: Seq<Delivery>)
    requires
        hub_wf(h),
        fan_out(h.consumers, frame, d),
    ensures
        forall|i: int, j: int| 0 <= i < j < d.len() ==> (#[trigger] d[i]).consumer != (#[trigger] d[j]).consumer,
        forall|k: int|
            0 <= k < h.consumers.len() ==> (#[trigger] d[k]).consumer == h.consumers[k].0 && d[k].frame@ == frame,
        forall|j: int| 0 <= j < d.len() ==> has_id(h.consumers, (#[trigger] d[j]).consumer),
{
    assert forall|i: int, j: int| 0 <= i < j < d.len() implies (#[trigger] d[i]).consumer != (#[trigger] d[j]).consumer by {
        assert(h.consumers[i].0 < h.consumers[j].0);
    }
    assert forall|j: int| 0 <= j < d.len() implies has_id(h.consumers, (#[trigger] d[j]).consumer) by {
        assert(h.consumers[j].0 == d[j].consumer);
    }
}

proof fn lemma_filter_keeps_all(c: Seq<(u64, Seq<char>)>, id: u64)
    requires
        forall|k: int| 0 <= k < c.len() ==> (#[trigger] c[k]).0 != id,
    ensures
        c.filter(|x: (u64, Seq<char>)| x.0 != id) == c,
    decreases c.len(),
{
    reveal(Seq::filter);
    if c.len() > 0 {
        lemma_filter_keeps_all(c.drop_last(), id);
        assert(c.drop_last().push(c.last()) =~= c);
    }
}

proof fn lemma_filter_remove_unique(c: Seq<(u64, Seq<char>)>, i: int, id: u64)
    requires
        0 <= i < c.len(),
        c[i].0 == id,
        forall|k: int| 0 <= k < c.len() && k != i ==> (#[trigger] c[k]).0 != id,
    ensures
        c.filter(|x: (u64, Seq<char>)| x.0 != id) == c.remove(i),
    decreases c.len(),
{
    reveal(Seq::filter);
    if i == c.len() - 1 {
        lemma_filter_keeps_all(c.drop_last(), id);
        assert(c.remove(i) =~= c.drop_last());
    } else {
        lemma_filter_remove_unique(c.drop_last(), i, id);
        assert(c.remove(i) =~= c.drop_last().remove(i).push(c.last()));
    }
}

} // verus!

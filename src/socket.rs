//! The socket table: slots holding the live sockets, each with a FIFO queue
//! of received datagram payloads.
use vstd::prelude::*;
use std::collections::VecDeque;
use crate::error::NetError;

verus! {

/// The identity of a socket: remote address, local port, remote port.
pub type SocketKey = (u32, u16, u16);

/// What a live slot holds, as a mathematical value.
pub struct SocketView {
    pub key: SocketKey,
    /// Received payloads, oldest first.
    pub queue: Seq<Seq<u8>>,
}

/// The slots of a table as mathematical values.
pub type SlotsView = Seq<Option<SocketView>>;

/// A socket: its identity and its queue of received payloads.
pub struct Socket {
    /// Remote address.
    pub raddr: u32,
    /// Local port.
    pub lport: u16,
    /// Remote port.
    pub rport: u16,
    /// Received payloads, oldest first.
    pub buffers: VecDeque<Vec<u8>>,
}

impl View for Socket {
    type V = SocketView;

    open spec fn view(&self) -> SocketView {
        SocketView {
            key: (self.raddr, self.lport, self.rport),
            queue: self.buffers@.map_values(|b: Vec<u8>| b@),
        }
    }
}

/// The table of sockets, indexed by slot.
pub struct SocketTable {
    slots: Vec<Option<Socket>>,
}

/// The view of one slot.
pub open spec fn slot_view(s: Option<Socket>) -> Option<SocketView> {
    match s {
        Some(sock) => Some(sock@),
        None => None,
    }
}

impl View for SocketTable {
    type V = SlotsView;

    closed spec fn view(&self) -> SlotsView {
        self.slots@.map_values(|s: Option<Socket>| slot_view(s))
    }
}

/// Slot `i` of `t` holds a live socket with identity `key`.
pub open spec fn live_at(t: SlotsView, i: int, key: SocketKey) -> bool {
    0 <= i < t.len() && t[i] is Some && t[i]->Some_0.key == key
}

/// Some live socket of `t` has identity `key`.
pub open spec fn is_live(t: SlotsView, key: SocketKey) -> bool {
    exists|i: int| live_at(t, i, key)
}

/// No two live sockets of `t` share an identity.
pub open spec fn keys_unique(t: SlotsView) -> bool {
    forall|i: int, j: int, key: SocketKey|
        live_at(t, i, key) && live_at(t, j, key) ==> i == j
}

/// The lowest empty slot of `t`, or its length where every slot is live.
pub open spec fn first_free(t: SlotsView) -> int
    decreases t.len(),
{
    if t.len() == 0 {
        0
    } else if t[0] is None {
        0
    } else {
        1 + first_free(t.drop_first())
    }
}

/// A fresh socket with identity `key` and an empty queue.
pub open spec fn fresh(key: SocketKey) -> SocketView {
    SocketView { key, queue: Seq::empty() }
}

/// The table after adding a socket with identity `key`, and the result.
pub open spec fn add_effect(t: SlotsView, key: SocketKey) -> (SlotsView, Result<usize, NetError>) {
    if is_live(t, key) {
        (t, Err(NetError::DuplicateSocket))
    } else {
        let f = first_free(t);
        if f < t.len() {
            (t.update(f, Some(fresh(key))), Ok(f as usize))
        } else {
            (t.push(Some(fresh(key))), Ok(f as usize))
        }
    }
}

/// The table after clearing slot `i`.
pub open spec fn remove_effect(t: SlotsView, i: int) -> SlotsView {
    t.update(i, None)
}

/// The table after appending `data` to the queue of the live slot `i`.
pub open spec fn push_effect(t: SlotsView, i: int, data: Seq<u8>) -> SlotsView {
    t.update(i, Some(SocketView { key: t[i]->Some_0.key, queue: t[i]->Some_0.queue.push(data) }))
}

/// The table after taking the oldest payload from the live slot `i`.
pub open spec fn pop_effect(t: SlotsView, i: int) -> SlotsView {
    if t[i]->Some_0.queue.len() == 0 {
        t
    } else {
        t.update(i, Some(SocketView { key: t[i]->Some_0.key, queue: t[i]->Some_0.queue.drop_first() }))
    }
}

/// The first slot of `t` that holds a live socket with identity `key`.
pub open spec fn find(t: SlotsView, key: SocketKey) -> Option<int> {
    if is_live(t, key) {
        Some(choose|i: int| live_at(t, i, key) && forall|j: int| 0 <= j < i ==> !live_at(t, j, key))
    } else {
        None
    }
}

/// What `first_free` picks: every slot before it is live, and it is empty or the end.
pub proof fn lemma_first_free(t: SlotsView)
    ensures
        0 <= first_free(t) <= t.len(),
        first_free(t) < t.len() ==> t[first_free(t)] is None,
        forall|j: int| 0 <= j < first_free(t) ==> t[j] is Some,
    decreases t.len(),
{
    if t.len() > 0 && t[0] is Some {
        lemma_first_free(t.drop_first());
        assert forall|j: int| 0 <= j < first_free(t) implies t[j] is Some by {
            if j > 0 {
                assert(t[j] == t.drop_first()[j - 1]);
            }
        }
    }
}

/// `first_free` is the only index with what `lemma_first_free` states.
pub proof fn lemma_first_free_unique(t: SlotsView, f: int)
    requires
        0 <= f <= t.len(),
        f < t.len() ==> t[f] is None,
        forall|j: int| 0 <= j < f ==> t[j] is Some,
    ensures
        first_free(t) == f,
{
    lemma_first_free(t);
}

/// Where a live socket has identity `key`, `find` gives the first such slot.
pub proof fn lemma_find(t: SlotsView, key: SocketKey, i: int)
    requires
        live_at(t, i, key),
        forall|j: int| 0 <= j < i ==> !live_at(t, j, key),
    ensures
        find(t, key) == Some(i),
{
    let c = choose|c: int| live_at(t, c, key) && forall|j: int| 0 <= j < c ==> !live_at(t, j, key);
    assert(live_at(t, c, key) && forall|j: int| 0 <= j < c ==> !live_at(t, j, key));
    // each of c < i and i < c would put a live slot before the first one
    if c < i {
    } else if c > i {
    }
}

/// Where a live socket has identity `key`, one has it with none before it.
pub proof fn lemma_first_live(t: SlotsView, key: SocketKey, i: int)
    requires
        live_at(t, i, key),
    ensures
        exists|m: int| live_at(t, m, key) && forall|j: int| 0 <= j < m ==> !live_at(t, j, key),
    decreases i,
{
    if exists|j: int| 0 <= j < i && live_at(t, j, key) {
        let j = choose|j: int| 0 <= j < i && live_at(t, j, key);
        lemma_first_live(t, key, j);
    }
}

/// `find` gives the slot of a live socket with the identity exactly when there is one.
pub proof fn lemma_find_live(t: SlotsView, key: SocketKey)
    ensures
        find(t, key) is Some <==> is_live(t, key),
        find(t, key) is Some ==> live_at(t, find(t, key)->Some_0, key),
{
    if is_live(t, key) {
        let i = choose|i: int| live_at(t, i, key);
        lemma_first_live(t, key, i);
    }
}

impl SocketTable {
    /// Every live socket has its own identity.
    pub open spec fn wf(&self) -> bool {
        keys_unique(self@)
    }

    /// An empty table.
    pub fn new() -> (r: SocketTable)
        ensures
            r@ == Seq::<Option<SocketView>>::empty(),
            r.wf(),
    {
        let r = SocketTable { slots: Vec::new() };
        assert(r@ =~= Seq::<Option<SocketView>>::empty());
        r
    }

    /// The number of slots, live or empty.
    pub fn len(&self) -> (r: usize)
        ensures
            r == self@.len(),
    {
        self.slots.len()
    }

    /// Whether slot `index` holds a live socket.
    pub fn is_live_slot(&self, index: usize) -> (r: bool)
        ensures
            r == (index < self@.len() && self@[index as int] is Some),
    {
        index < self.slots.len() && self.slots[index].is_some()
    }

    /// The number of payloads queued in the live slot `index`.
    pub fn queued(&self, index: usize) -> (r: usize)
        requires
            index < self@.len(),
            self@[index as int] is Some,
        ensures
            r == self@[index as int]->Some_0.queue.len(),
    {
        match &self.slots[index] {
            Some(sock) => sock.buffers.len(),
            None => 0,
        }
    }
}

/// The first slot that holds a live socket with identity `(raddr, lport, rport)`.
pub fn get_socket(table: &SocketTable, raddr: u32, lport: u16, rport: u16) -> (r: Option<usize>)
    ensures
        match r {
            Some(i) => find(table@, (raddr, lport, rport)) == Some(i as int),
            None => find(table@, (raddr, lport, rport)) is None,
        },
{
    let ghost key: SocketKey = (raddr, lport, rport);
    let mut i: usize = 0;
    while i < table.slots.len()
        invariant
            key == (raddr, lport, rport),
            i <= table@.len(),
            table@.len() == table.slots@.len(),
            forall|j: int| 0 <= j < i ==> !live_at(table@, j, key),
        decreases table.slots.len() - i,
    {
        assert(table@[i as int] == slot_view(table.slots@[i as int]));
        match &table.slots[i] {
            Some(sock) => {
                if sock.raddr == raddr && sock.lport == lport && sock.rport == rport {
                    proof {
                        assert(table.slots@[i as int] == Some(*sock));
                        assert(sock@.key == key);
                        lemma_find(table@, key, i as int);
                    }
                    return Some(i);
                }
            },
            None => {},
        }
        i = i + 1;
    }
    assert(!is_live(table@, key));
    None
}

/// Adding a socket keeps the identities of the live sockets unique.
pub proof fn lemma_add_keeps_unique(t: SlotsView, key: SocketKey)
    requires
        keys_unique(t),
    ensures
        keys_unique(add_effect(t, key).0),
{
    if !is_live(t, key) {
        lemma_first_free(t);
        let n = add_effect(t, key).0;
        let f = first_free(t);
        assert forall|i: int, j: int, k: SocketKey| live_at(n, i, k) && live_at(n, j, k) implies i
            == j by {
            if i != f && j != f {
                assert(live_at(t, i, k) && live_at(t, j, k));
            } else if i == f && j != f {
                assert(live_at(t, j, key));
            } else if i != f && j == f {
                assert(live_at(t, i, key));
            }
        }
    }
}

/// Adding fails with `DuplicateSocket` exactly when a live socket already has
/// the identity, and then leaves the table as it was.
pub proof fn lemma_add_duplicate(t: SlotsView, i: int, key: SocketKey)
    requires
        live_at(t, i, key),
    ensures
        add_effect(t, key) == (t, Err::<usize, NetError>(NetError::DuplicateSocket)),
{
}

/// After slot `i` is cleared, the next socket added goes into a slot no later
/// than `i`, so the table does not grow; it goes into `i` itself where every
/// slot before `i` is live.
pub proof fn lemma_slot_reuse(t: SlotsView, i: int, key: SocketKey)
    requires
        0 <= i < t.len(),
        !is_live(remove_effect(t, i), key),
    ensures
        add_effect(remove_effect(t, i), key).1 is Ok,
        add_effect(remove_effect(t, i), key).1->Ok_0 <= i,
        add_effect(remove_effect(t, i), key).0.len() == t.len(),
        (forall|j: int| 0 <= j < i ==> t[j] is Some) ==> add_effect(remove_effect(t, i), key).1
            == Ok::<usize, NetError>(i as usize),
{
    let r = remove_effect(t, i);
    lemma_first_free(r);
    assert(r[i] is None);
    if (forall|j: int| 0 <= j < i ==> t[j] is Some) {
        assert(forall|j: int| 0 <= j < i ==> r[j] == t[j]);
        lemma_first_free_unique(r, i);
    }
}

/// Appends `data` to the queue of slot `index`.
fn push_queue(table: &mut SocketTable, index: usize, data: Vec<u8>)
    requires
        index < old(table)@.len(),
        old(table)@[index as int] is Some,
    ensures
        final(table)@ == push_effect(old(table)@, index as int, data@),
{
    let ghost t0 = table@;
    let mut slot: Option<Socket> = None;
    std::mem::swap(&mut slot, &mut table.slots[index]);
    match slot {
        Some(mut sock) => {
            let ghost q0 = sock@.queue;
            sock.buffers.push_back(data);
            assert(sock@.queue =~= q0.push(data@));
            table.slots.set(index, Some(sock));
        },
        None => {},
    }
    assert(table@ =~= push_effect(t0, index as int, data@));
}

/// Adds a socket with identity `(raddr, lport, rport)` and an empty queue in
/// the lowest empty slot, or in a new slot at the end where none is empty.
/// Fails with `DuplicateSocket`, leaving the table as it was, where a live
/// socket already has that identity.
pub fn add_socket(table: &mut SocketTable, raddr: u32, lport: u16, rport: u16) -> (r: Result<
    usize,
    NetError,
>)
    requires
        old(table).wf(),
    ensures
        final(table).wf(),
        (final(table)@, r) == add_effect(old(table)@, (raddr, lport, rport)),
{
    let ghost key: SocketKey = (raddr, lport, rport);
    let ghost t0 = table@;
    proof {
        lemma_add_keeps_unique(t0, key);
    }
    if get_socket(table, raddr, lport, rport).is_some() {
        return Err(NetError::DuplicateSocket);
    }
    let mut index: usize = 0;
    while index < table.slots.len() && table.slots[index].is_some()
        invariant
            key == (raddr, lport, rport),
            index <= table@.len(),
            table@ == t0,
            table@.len() == table.slots@.len(),
            forall|j: int| 0 <= j < index ==> t0[j] is Some,
        decreases table.slots.len() - index,
    {
        assert(t0[index as int] == slot_view(table.slots@[index as int]));
        index = index + 1;
    }
    proof {
        if index < t0.len() {
            assert(t0[index as int] == slot_view(table.slots@[index as int]));
        }
        lemma_first_free_unique(t0, index as int);
    }
    let socket = Socket { raddr, lport, rport, buffers: VecDeque::new() };
    assert(socket@.queue =~= Seq::<Seq<u8>>::empty());
    assert(socket@ == fresh(key));
    if index == table.slots.len() {
        table.slots.push(Some(socket));
        assert(table@ =~= t0.push(Some(fresh(key))));
    } else {
        table.slots.set(index, Some(socket));
        assert(table@ =~= t0.update(index as int, Some(fresh(key))));
    }
    Ok(index)
}

/// Clears slot `index`; a later `add_socket` may reuse it.
pub fn remove_socket(table: &mut SocketTable, index: usize)
    requires
        old(table).wf(),
        index < old(table)@.len(),
    ensures
        final(table).wf(),
        final(table)@ == remove_effect(old(table)@, index as int),
{
    let ghost t0 = table@;
    table.slots.set(index, None);
    assert(table@ =~= remove_effect(t0, index as int));
    assert forall|i: int, j: int, k: SocketKey|
        live_at(table@, i, k) && live_at(table@, j, k) implies i == j by {
        assert(live_at(t0, i, k) && live_at(t0, j, k));
    }
}

/// Appends `data` to the queue of the live slot `index`.
pub fn push_data(table: &mut SocketTable, index: usize, data: Vec<u8>)
    requires
        old(table).wf(),
        index < old(table)@.len(),
        old(table)@[index as int] is Some,
    ensures
        final(table).wf(),
        final(table)@ == push_effect(old(table)@, index as int, data@),
{
    let ghost t0 = table@;
    push_queue(table, index, data);
    assert forall|i: int, j: int, k: SocketKey|
        live_at(table@, i, k) && live_at(table@, j, k) implies i == j by {
        assert(live_at(t0, i, k) && live_at(t0, j, k));
    }
}

/// Takes the oldest payload from the queue of the live slot `index`, or
/// `None` where the queue is empty.
pub fn pop_data(table: &mut SocketTable, index: usize) -> (r: Option<Vec<u8>>)
    requires
        old(table).wf(),
        index < old(table)@.len(),
        old(table)@[index as int] is Some,
    ensures
        final(table).wf(),
        final(table)@ == pop_effect(old(table)@, index as int),
        old(table)@[index as int]->Some_0.queue.len() == 0 ==> r is None,
        old(table)@[index as int]->Some_0.queue.len() > 0 ==> r is Some && r->Some_0@ == old(
            table,
        )@[index as int]->Some_0.queue[0],
{
    let ghost t0 = table@;
    let mut slot: Option<Socket> = None;
    std::mem::swap(&mut slot, &mut table.slots[index]);
    let r = match slot {
        Some(mut sock) => {
            let ghost q0 = sock.buffers@;
            let r = sock.buffers.pop_front();
            assert(sock@.queue =~= t0[index as int]->Some_0.queue.subrange(
                if q0.len() == 0 { 0 } else { 1 },
                q0.len() as int,
            ));
            table.slots.set(index, Some(sock));
            r
        },
        None => None,
    };
    assert(table@ =~= pop_effect(t0, index as int));
    assert forall|i: int, j: int, k: SocketKey|
        live_at(table@, i, k) && live_at(table@, j, k) implies i == j by {
        assert(live_at(t0, i, k) && live_at(t0, j, k));
    }
    r
}

} // verus!

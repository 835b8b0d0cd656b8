//! Captured TCP payloads put back together. Payloads are buffered per flow
//! and acknowledgement number and flushed when the ack from that flow
//! changes; a message that straddles two flushes would be lost, so the
//! unterminated tail of a flush is carried over to the next flush of the same
//! flow.

use vstd::prelude::*;
use crate::clock::{instant_now, nanos_since};
use crate::parser::{open_from, opens_a_value, opens_value, unterminated_start};

verus! {

/// One side of one TCP connection: the source address, as the 128 bits of an
/// IPv6 address (an IPv4 one mapped into them), and both ports.
pub type Flow = (u128, u16, u16);

/// The most one buffer takes in before it stops growing.
pub const BUF_CAP: usize = 1048576;
/// The longest tail carried over to the next flush.
pub const CARRY_CAP: usize = 65536;
/// How many flushes a tail is carried through before it is parsed as it is.
pub const CARRY_ROUNDS: u8 = 3;
/// How long, in nanoseconds, a buffer nobody adds to is kept once the tables
/// have grown.
pub const BUF_TTL: u64 = 15_000_000_000;
/// How long, in nanoseconds, a buffer waits for more before it is flushed on
/// its own.
pub const IDLE_FLUSH: u64 = 250_000_000;

/// What one flow has sent under one ack, and when it last added to it
/// (nanoseconds on the monotonic clock).
pub struct Pending {
    pub flow: Flow,
    pub ack: u32,
    pub data: Vec<u8>,
    pub at: u64,
}

/// The unterminated end of a flow's last flush, and how many flushes it has
/// been carried through.
pub struct Carry {
    pub flow: Flow,
    pub tail: Vec<u8>,
    pub rounds: u8,
}

/// The buffers, the last ack of each flow, and the carried tails.
pub struct Reassembler {
    origin: std::time::Instant,
    bufs: Vec<Pending>,
    last_ack: Vec<(Flow, u32)>,
    carry: Vec<Carry>,
}

pub type PendingV = (Flow, u32, Seq<u8>, u64);

pub type CarryV = (Flow, Seq<u8>, u8);

/// What a reassembler holds, as plain values.
pub struct Held {
    pub bufs: Seq<PendingV>,
    pub acks: Seq<(Flow, u32)>,
    pub carry: Seq<CarryV>,
}

pub open spec fn pending_view(p: Pending) -> PendingV {
    (p.flow, p.ack, p.data@, p.at)
}

pub open spec fn carry_view(c: Carry) -> CarryV {
    (c.flow, c.tail@, c.rounds)
}

pub open spec fn bufs_view(v: Seq<Pending>) -> Seq<PendingV> {
    v.map_values(|p: Pending| pending_view(p))
}

pub open spec fn carries_view(v: Seq<Carry>) -> Seq<CarryV> {
    v.map_values(|c: Carry| carry_view(c))
}

/// The view leaves out `origin`, the moment the clock readings count from:
/// it is an opaque instant, read only through the clock, and every time the
/// held data mentions is already a count of milliseconds from it.
impl View for Reassembler {
    type V = Held;

    closed spec fn view(&self) -> Held {
        Held { bufs: bufs_view(self.bufs@), acks: self.last_ack@, carry: carries_view(self.carry@) }
    }
}

/// How long ago `at` was, and 0 for a moment not yet come.
pub open spec fn since(now: u64, at: u64) -> u64 {
    if now >= at {
        (now - at) as u64
    } else {
        0
    }
}

/// Where the buffer of a flow and ack stands.
pub open spec fn buf_at(bufs: Seq<PendingV>, flow: Flow, ack: u32) -> Option<int>
    decreases bufs.len(),
{
    if bufs.len() == 0 {
        None
    } else {
        match buf_at(bufs.drop_last(), flow, ack) {
            Some(i) => Some(i),
            None => if bufs.last().0 == flow && bufs.last().1 == ack {
                Some(bufs.len() - 1)
            } else {
                None
            },
        }
    }
}

/// Where a flow's last ack stands.
pub open spec fn ack_at(acks: Seq<(Flow, u32)>, flow: Flow) -> Option<int>
    decreases acks.len(),
{
    if acks.len() == 0 {
        None
    } else {
        match ack_at(acks.drop_last(), flow) {
            Some(i) => Some(i),
            None => if acks.last().0 == flow {
                Some(acks.len() - 1)
            } else {
                None
            },
        }
    }
}

/// Where a flow's carried tail stands.
pub open spec fn carry_at(carry: Seq<CarryV>, flow: Flow) -> Option<int>
    decreases carry.len(),
{
    if carry.len() == 0 {
        None
    } else {
        match carry_at(carry.drop_last(), flow) {
            Some(i) => Some(i),
            None => if carry.last().0 == flow {
                Some(carry.len() - 1)
            } else {
                None
            },
        }
    }
}

/// Whether any buffer belongs to the flow.
pub open spec fn has_buffer(bufs: Seq<PendingV>, flow: Flow) -> bool {
    exists|i: int| 0 <= i < bufs.len() && (#[trigger] bufs[i]).0 == flow
}

/// The buffers added to within the time to live.
pub open spec fn fresh_bufs(bufs: Seq<PendingV>, now: u64) -> Seq<PendingV>
    decreases bufs.len(),
{
    if bufs.len() == 0 {
        bufs
    } else {
        let r = fresh_bufs(bufs.drop_last(), now);
        if since(now, bufs.last().3) < BUF_TTL {
            r.push(bufs.last())
        } else {
            r
        }
    }
}

/// The acks of the flows that still have a buffer.
pub open spec fn live_acks(acks: Seq<(Flow, u32)>, bufs: Seq<PendingV>) -> Seq<(Flow, u32)>
    decreases acks.len(),
{
    if acks.len() == 0 {
        acks
    } else {
        let r = live_acks(acks.drop_last(), bufs);
        if has_buffer(bufs, acks.last().0) {
            r.push(acks.last())
        } else {
            r
        }
    }
}

/// The tails of the flows that still have a buffer.
pub open spec fn live_carry(carry: Seq<CarryV>, bufs: Seq<PendingV>) -> Seq<CarryV>
    decreases carry.len(),
{
    if carry.len() == 0 {
        carry
    } else {
        let r = live_carry(carry.drop_last(), bufs);
        if has_buffer(bufs, carry.last().0) {
            r.push(carry.last())
        } else {
            r
        }
    }
}

/// The sweep that runs before a payload is taken in: while the tables are
/// small nothing happens; once they have grown, stale buffers go, and with
/// them the acks and tails of flows left without a buffer; if even the fresh
/// buffers are too many, everything goes.
pub open spec fn swept(h: Held, now: u64) -> Held {
    if h.bufs.len() <= 64 && h.acks.len() <= 512 && h.carry.len() <= 512 {
        h
    } else {
        let b = fresh_bufs(h.bufs, now);
        if b.len() > 512 {
            Held { bufs: Seq::empty(), acks: Seq::empty(), carry: Seq::empty() }
        } else {
            Held { bufs: b, acks: live_acks(h.acks, b), carry: live_carry(h.carry, b) }
        }
    }
}

/// A flush, with the flow's carried tail stitched on in front, and the tails
/// after it: where the bytes end inside a value that opens like a real one
/// and is short enough, that value is cut off and carried. A tail carried
/// through `CARRY_ROUNDS` flushes is given up: its bytes are read as they are
/// and no new tail is taken.
pub open spec fn finished(carry: Seq<CarryV>, flow: Flow, flushed: Seq<u8>) -> (Seq<u8>, Seq<CarryV>) {
    let found = carry_at(carry, flow);
    let rest = match found {
        Some(i) => carry.remove(i),
        None => carry,
    };
    let head = match found {
        Some(i) => carry[i].1,
        None => Seq::empty(),
    };
    let rounds: int = match found {
        Some(i) => if carry[i].2 < CARRY_ROUNDS {
            carry[i].2 as int
        } else {
            0
        },
        None => 0,
    };
    let giving_up = match found {
        Some(i) => carry[i].2 >= CARRY_ROUNDS,
        None => false,
    };
    let data = head + flushed;
    let cut = open_from(data, 0);
    if !giving_up && cut < data.len() && data.len() - cut <= CARRY_CAP && opens_value(data.skip(cut)) {
        (data.take(cut), rest.push((flow, data.skip(cut), (rounds + 1) as u8)))
    } else {
        (data, rest)
    }
}

/// One payload taken in at `now`: an empty one changes nothing. Otherwise the
/// sweep runs; the payload joins its flow and ack's buffer, which is stamped
/// with `now` (a buffer at `BUF_CAP` takes no more); and where the ack differs
/// from the flow's last one, the last one's buffer, if there is one, is
/// flushed and the ack becomes the flow's last.
pub open spec fn pushed(h: Held, flow: Flow, ack: u32, payload: Seq<u8>, now: u64) -> (Held, Option<Seq<u8>>) {
    if payload.len() == 0 {
        (h, None)
    } else {
        let e = swept(h, now);
        let last = match ack_at(e.acks, flow) {
            Some(i) => e.acks[i].1,
            None => ack,
        };
        let acks1 = match ack_at(e.acks, flow) {
            Some(i) => e.acks,
            None => e.acks.push((flow, ack)),
        };
        let bufs1 = match buf_at(e.bufs, flow, ack) {
            Some(j) => e.bufs.update(
                j,
                (flow, ack, if e.bufs[j].2.len() < BUF_CAP {
                    e.bufs[j].2 + payload
                } else {
                    e.bufs[j].2
                }, now),
            ),
            None => e.bufs.push((flow, ack, payload, now)),
        };
        if ack == last {
            (Held { bufs: bufs1, acks: acks1, carry: e.carry }, None)
        } else {
            let acks2 = acks1.update(ack_at(acks1, flow)->0, (flow, ack));
            match buf_at(bufs1, flow, last) {
                None => (Held { bufs: bufs1, acks: acks2, carry: e.carry }, None),
                Some(k) => {
                    let f = finished(e.carry, flow, bufs1[k].2);
                    (Held { bufs: bufs1.remove(k), acks: acks2, carry: f.1 }, Some(f.0))
                },
            }
        }
    }
}

/// A buffer that holds something and has waited `IDLE_FLUSH`.
pub open spec fn ripe(p: PendingV, now: u64) -> bool {
    p.2.len() > 0 && since(now, p.3) >= IDLE_FLUSH
}

/// The idle flush over buffers in order: each ripe one is flushed, as
/// `finished` says, and paired with its source address; the rest stay.
pub open spec fn drained(bufs: Seq<PendingV>, carry: Seq<CarryV>, now: u64) -> (Seq<PendingV>, Seq<CarryV>, Seq<
    (u128, Seq<u8>),
>)
    decreases bufs.len(),
{
    if bufs.len() == 0 {
        (bufs, carry, Seq::empty())
    } else {
        let r = drained(bufs.drop_last(), carry, now);
        let p = bufs.last();
        if ripe(p, now) {
            let f = finished(r.1, p.0, p.2);
            (r.0, f.1, r.2.push((p.0.0, f.0)))
        } else {
            (r.0.push(p), r.1, r.2)
        }
    }
}

pub open spec fn flushes_view(v: Seq<(u128, Vec<u8>)>) -> Seq<(u128, Seq<u8>)> {
    v.map_values(|x: (u128, Vec<u8>)| (x.0, x.1@))
}

fn same_flow(a: Flow, b: Flow) -> (r: bool)
    ensures
        r == (a == b),
{
    a.0 == b.0 && a.1 == b.1 && a.2 == b.2
}

fn since_exec(now: u64, at: u64) -> (r: u64)
    ensures
        r == since(now, at),
{
    if now >= at {
        now - at
    } else {
        0
    }
}

fn find_buf(bufs: &Vec<Pending>, flow: Flow, ack: u32) -> (r: Option<usize>)
    ensures
        match r {
            Some(i) => buf_at(bufs_view(bufs@), flow, ack) == Some(i as int) && i < bufs@.len(),
            None => buf_at(bufs_view(bufs@), flow, ack) is None,
        },
{
    let ghost v = bufs_view(bufs@);
    let mut i: usize = 0;
    while i < bufs.len()
        invariant
            i <= bufs@.len(),
            v == bufs_view(bufs@),
            buf_at(v.take(i as int), flow, ack) is None,
        decreases bufs@.len() - i,
    {
        proof {
            assert(v.take(i + 1).drop_last() =~= v.take(i as int));
        }
        if same_flow(bufs[i].flow, flow) && bufs[i].ack == ack {
            proof {
                lemma_buf_at_prefix(v, flow, ack, i + 1);
            }
            return Some(i);
        }
        i = i + 1;
    }
    assert(v.take(i as int) =~= v);
    None
}

pub proof fn lemma_buf_at_found(v: Seq<PendingV>, flow: Flow, ack: u32)
    ensures
        buf_at(v, flow, ack) matches Some(i) ==> 0 <= i < v.len() && v[i].0 == flow && v[i].1 == ack,
    decreases v.len(),
{
    if v.len() > 0 {
        lemma_buf_at_found(v.drop_last(), flow, ack);
    }
}

proof fn lemma_buf_at_prefix(v: Seq<PendingV>, flow: Flow, ack: u32, n: int)
    requires
        0 <= n <= v.len(),
        buf_at(v.take(n), flow, ack) is Some,
    ensures
        buf_at(v, flow, ack) == buf_at(v.take(n), flow, ack),
    decreases v.len() - n,
{
    if n < v.len() {
        assert(v.take(n + 1).drop_last() =~= v.take(n));
        lemma_buf_at_prefix(v, flow, ack, n + 1);
    } else {
        assert(v.take(n) =~= v);
    }
}

proof fn lemma_ack_at_prefix(v: Seq<(Flow, u32)>, flow: Flow, n: int)
    requires
        0 <= n <= v.len(),
        ack_at(v.take(n), flow) is Some,
    ensures
        ack_at(v, flow) == ack_at(v.take(n), flow),
    decreases v.len() - n,
{
    if n < v.len() {
        assert(v.take(n + 1).drop_last() =~= v.take(n));
        lemma_ack_at_prefix(v, flow, n + 1);
    } else {
        assert(v.take(n) =~= v);
    }
}

proof fn lemma_carry_at_prefix(v: Seq<CarryV>, flow: Flow, n: int)
    requires
        0 <= n <= v.len(),
        carry_at(v.take(n), flow) is Some,
    ensures
        carry_at(v, flow) == carry_at(v.take(n), flow),
    decreases v.len() - n,
{
    if n < v.len() {
        assert(v.take(n + 1).drop_last() =~= v.take(n));
        lemma_carry_at_prefix(v, flow, n + 1);
    } else {
        assert(v.take(n) =~= v);
    }
}

fn find_ack(acks: &Vec<(Flow, u32)>, flow: Flow) -> (r: Option<usize>)
    ensures
        match r {
            Some(i) => ack_at(acks@, flow) == Some(i as int) && i < acks@.len(),
            None => ack_at(acks@, flow) is None,
        },
{
    let mut i: usize = 0;
    while i < acks.len()
        invariant
            i <= acks@.len(),
            ack_at(acks@.take(i as int), flow) is None,
        decreases acks@.len() - i,
    {
        proof {
            assert(acks@.take(i + 1).drop_last() =~= acks@.take(i as int));
        }
        if same_flow(acks[i].0, flow) {
            proof {
                lemma_ack_at_prefix(acks@, flow, i + 1);
            }
            return Some(i);
        }
        i = i + 1;
    }
    assert(acks@.take(i as int) =~= acks@);
    None
}

fn find_carry(carry: &Vec<Carry>, flow: Flow) -> (r: Option<usize>)
    ensures
        match r {
            Some(i) => carry_at(carries_view(carry@), flow) == Some(i as int) && i < carry@.len(),
            None => carry_at(carries_view(carry@), flow) is None,
        },
{
    let ghost v = carries_view(carry@);
    let mut i: usize = 0;
    while i < carry.len()
        invariant
            i <= carry@.len(),
            v == carries_view(carry@),
            carry_at(v.take(i as int), flow) is None,
        decreases carry@.len() - i,
    {
        proof {
            assert(v.take(i + 1).drop_last() =~= v.take(i as int));
        }
        if same_flow(carry[i].flow, flow) {
            proof {
                lemma_carry_at_prefix(v, flow, i + 1);
            }
            return Some(i);
        }
        i = i + 1;
    }
    assert(v.take(i as int) =~= v);
    None
}

/// A flush put together with the flow's carried tail; see `finished`.
fn finish(carry: &mut Vec<Carry>, flow: Flow, flushed: Vec<u8>) -> (r: Vec<u8>)
    ensures
        (r@, carries_view(final(carry)@)) == finished(carries_view(old(carry)@), flow, flushed@),
{
    let ghost c0 = carries_view(carry@);
    let found = find_carry(carry, flow);
    let ghost rest = match found {
        Some(i) => c0.remove(i as int),
        None => c0,
    };
    let (mut data, rounds, giving_up) = match found {
        Some(i) => {
            let c = carry.remove(i);
            assert(carries_view(carry@) =~= rest);
            if c.rounds < CARRY_ROUNDS {
                (c.tail, c.rounds, false)
            } else {
                (c.tail, 0u8, true)
            }
        },
        None => (Vec::new(), 0u8, false),
    };
    let mut more = flushed;
    data.append(&mut more);
    let cut = unterminated_start(data.as_slice());
    let truncated = !giving_up && cut < data.len() && data.len() - cut <= CARRY_CAP && opens_a_value(
        vstd::slice::slice_subrange(data.as_slice(), cut, data.len()),
    );
    proof {
        assert(data@.subrange(cut as int, data@.len() as int) =~= data@.skip(cut as int));
    }
    if truncated {
        let tail = data.split_off(cut);
        let ghost before = carry@;
        carry.push(Carry { flow, tail, rounds: rounds + 1 });
        proof {
            assert(data@ =~= (if found is Some { c0[found->0 as int].1 } else { Seq::empty() } + flushed@).take(
                cut as int,
            ));
            assert(carries_view(carry@) =~= carries_view(before).push(carry_view(carry@.last())));
        }
    }
    data
}

impl Reassembler {
    /// An empty reassembler, timing its buffers from now.
    pub fn new() -> (r: Reassembler)
        ensures
            r@.bufs.len() == 0 && r@.acks.len() == 0 && r@.carry.len() == 0,
    {
        let r = Reassembler { origin: instant_now(), bufs: Vec::new(), last_ack: Vec::new(), carry: Vec::new() };
        assert(r@.bufs =~= Seq::<PendingV>::empty());
        assert(r@.carry =~= Seq::<CarryV>::empty());
        r
    }

    fn has_buffer_exec(&self, flow: Flow) -> (r: bool)
        ensures
            r == has_buffer(bufs_view(self.bufs@), flow),
    {
        let ghost v = bufs_view(self.bufs@);
        let mut i: usize = 0;
        while i < self.bufs.len()
            invariant
                i <= self.bufs@.len(),
                v == bufs_view(self.bufs@),
                forall|j: int| 0 <= j < i ==> (#[trigger] v[j]).0 != flow,
            decreases self.bufs@.len() - i,
        {
            if same_flow(self.bufs[i].flow, flow) {
                assert(v[i as int].0 == flow);
                return true;
            }
            i = i + 1;
        }
        false
    }

    /// The sweep; see `swept`.
    fn evict_stale(&mut self, now: u64)
        ensures
            final(self)@ == swept(old(self)@, now),
            final(self).origin == old(self).origin,
    {
        if self.bufs.len() <= 64 && self.last_ack.len() <= 512 && self.carry.len() <= 512 {
            return;
        }
        let ghost h = self@;
        let ghost o = self.origin;
        // stale buffers go, in place
        let ghost orig = h.bufs;
        let n = self.bufs.len();
        let mut i: usize = 0;
        let mut j: usize = 0;
        while j < n
            invariant
                n == orig.len(),
                j <= orig.len(),
                orig == h.bufs,
                i <= j,
                self.bufs@.len() == i + n - j,
                self.origin == o,
                bufs_view(self.bufs@) == fresh_bufs(orig.take(j as int), now) + orig.skip(j as int),
                fresh_bufs(orig.take(j as int), now).len() == i,
                self.last_ack@ == h.acks,
                carries_view(self.carry@) == h.carry,
            decreases orig.len() - j,
        {
            proof {
                assert(orig.take(j + 1).drop_last() =~= orig.take(j as int));
                assert(bufs_view(self.bufs@)[i as int] == orig[j as int]);
            }
            let ghost before = bufs_view(self.bufs@);
            if since_exec(now, self.bufs[i].at) < BUF_TTL {
                i = i + 1;
                j = j + 1;
                proof {
                    assert(bufs_view(self.bufs@) =~= fresh_bufs(orig.take(j as int), now) + orig.skip(j as int));
                }
            } else {
                self.bufs.remove(i);
                j = j + 1;
                proof {
                    assert(bufs_view(self.bufs@) =~= before.remove(i as int));
                    assert(bufs_view(self.bufs@) =~= fresh_bufs(orig.take(j as int), now) + orig.skip(j as int));
                }
            }
        }
        assert(orig.take(orig.len() as int) =~= orig);
        assert(bufs_view(self.bufs@) =~= fresh_bufs(orig, now));
        let ghost b = fresh_bufs(orig, now);
        // the acks of flows left without a buffer go
        let mut acks: Vec<(Flow, u32)> = Vec::new();
        let mut k: usize = 0;
        while k < self.last_ack.len()
            invariant
                k <= h.acks.len(),
                self.last_ack@ == h.acks,
                self.origin == o,
                bufs_view(self.bufs@) == b,
                acks@ == live_acks(h.acks.take(k as int), b),
            decreases h.acks.len() - k,
        {
            proof {
                assert(h.acks.take(k + 1).drop_last() =~= h.acks.take(k as int));
            }
            let a = self.last_ack[k];
            if self.has_buffer_exec(a.0) {
                acks.push(a);
            }
            k = k + 1;
        }
        assert(h.acks.take(h.acks.len() as int) =~= h.acks);
        self.last_ack = acks;
        // and so do their tails, in place
        let ghost corig = h.carry;
        let n = self.carry.len();
        let mut i: usize = 0;
        let mut j: usize = 0;
        while j < n
            invariant
                n == corig.len(),
                j <= corig.len(),
                corig == h.carry,
                i <= j,
                self.carry@.len() == i + n - j,
                self.origin == o,
                carries_view(self.carry@) == live_carry(corig.take(j as int), b) + corig.skip(j as int),
                live_carry(corig.take(j as int), b).len() == i,
                bufs_view(self.bufs@) == b,
                self.last_ack@ == live_acks(h.acks, b),
            decreases corig.len() - j,
        {
            proof {
                assert(corig.take(j + 1).drop_last() =~= corig.take(j as int));
                assert(carries_view(self.carry@)[i as int] == corig[j as int]);
            }
            let ghost before = carries_view(self.carry@);
            let f = self.carry[i].flow;
            if self.has_buffer_exec(f) {
                i = i + 1;
                j = j + 1;
                proof {
                    assert(carries_view(self.carry@) =~= live_carry(corig.take(j as int), b) + corig.skip(
                        j as int,
                    ));
                }
            } else {
                self.carry.remove(i);
                j = j + 1;
                proof {
                    assert(carries_view(self.carry@) =~= before.remove(i as int));
                    assert(carries_view(self.carry@) =~= live_carry(corig.take(j as int), b) + corig.skip(
                        j as int,
                    ));
                }
            }
        }
        assert(corig.take(corig.len() as int) =~= corig);
        assert(carries_view(self.carry@) =~= live_carry(corig, b));
        if self.bufs.len() > 512 {
            self.bufs.clear();
            self.last_ack.clear();
            self.carry.clear();
            assert(bufs_view(self.bufs@) =~= Seq::<PendingV>::empty());
            assert(carries_view(self.carry@) =~= Seq::<CarryV>::empty());
        }
    }

    /// One payload taken in at `now` (nanoseconds on the monotonic clock);
    /// see `pushed`. The flush, where there is one, comes back.
    pub fn push_at(&mut self, flow: Flow, ack: u32, payload: &[u8], now: u64) -> (r: Option<Vec<u8>>)
        ensures
            (final(self)@, opt_bytes(r)) == pushed(old(self)@, flow, ack, payload@, now),
    {
        if payload.len() == 0 {
            return None;
        }
        self.evict_stale(now);
        let ghost e = self@;
        let last: u32 = match find_ack(&self.last_ack, flow) {
            Some(i) => self.last_ack[i].1,
            None => {
                self.last_ack.push((flow, ack));
                ack
            },
        };
        match find_buf(&self.bufs, flow, ack) {
            Some(j) => {
                let ghost before = bufs_view(self.bufs@);
                proof {
                    lemma_buf_at_found(before, flow, ack);
                }
                let mut p = self.bufs.remove(j);
                if p.data.len() < BUF_CAP {
                    let mut more = vstd::slice::slice_to_vec(payload);
                    p.data.append(&mut more);
                }
                p.at = now;
                self.bufs.insert(j, p);
                assert(bufs_view(self.bufs@) =~= before.update(j as int, pending_view(p)));
            },
            None => {
                let ghost before = bufs_view(self.bufs@);
                let p = Pending { flow, ack, data: vstd::slice::slice_to_vec(payload), at: now };
                self.bufs.push(p);
                assert(bufs_view(self.bufs@) =~= before.push(pending_view(p)));
            },
        }
        if ack == last {
            return None;
        }
        let ai = find_ack(&self.last_ack, flow);
        match ai {
            Some(i) => {
                self.last_ack.set(i, (flow, ack));
            },
            None => {
                assert(false);
            },
        }
        match find_buf(&self.bufs, flow, last) {
            None => None,
            Some(k) => {
                let ghost before = bufs_view(self.bufs@);
                let p = self.bufs.remove(k);
                assert(bufs_view(self.bufs@) =~= before.remove(k as int));
                let out = finish(&mut self.carry, flow, p.data);
                Some(out)
            },
        }
    }

    /// One payload taken in now; see `push_at`. Whatever the clock read, the
    /// outcome is that of `pushed` at some moment.
    pub fn push(&mut self, flow: Flow, ack: u32, payload: &[u8]) -> (r: Option<Vec<u8>>)
        ensures
            exists|now: u64| (final(self)@, opt_bytes(r)) == pushed(old(self)@, flow, ack, payload@, now),
    {
        let now = nanos_since(&self.origin);
        self.push_at(flow, ack, payload, now)
    }

    /// The buffers nobody has added to for `IDLE_FLUSH`, flushed at `now`, so
    /// a stream that only talks one way still gets read; see `drained`. Each
    /// flush comes with its source address.
    pub fn drain_idle_at(&mut self, now: u64) -> (r: Vec<(u128, Vec<u8>)>)
        ensures
            ({
                let d = drained(old(self)@.bufs, old(self)@.carry, now);
                &&& final(self)@.bufs == d.0
                &&& final(self)@.carry == d.1
                &&& final(self)@.acks == old(self)@.acks
                &&& flushes_view(r@) == d.2
            }),
    {
        let ghost h = self@;
        let ghost o = self.origin;
        let ghost orig = h.bufs;
        let mut out: Vec<(u128, Vec<u8>)> = Vec::new();
        let n = self.bufs.len();
        let mut i: usize = 0;
        let mut j: usize = 0;
        while j < n
            invariant
                n == orig.len(),
                j <= orig.len(),
                i <= j,
                self.bufs@.len() == i + n - j,
                self.origin == o,
                self.last_ack@ == h.acks,
                ({
                    let d = drained(orig.take(j as int), h.carry, now);
                    &&& bufs_view(self.bufs@) == d.0 + orig.skip(j as int)
                    &&& d.0.len() == i
                    &&& carries_view(self.carry@) == d.1
                    &&& flushes_view(out@) == d.2
                }),
            decreases orig.len() - j,
        {
            proof {
                assert(orig.take(j + 1).drop_last() =~= orig.take(j as int));
                assert(orig.take(j + 1).last() == orig[j as int]);
                assert(bufs_view(self.bufs@)[i as int] == orig[j as int]);
            }
            let ghost before = bufs_view(self.bufs@);
            let ghost outs = flushes_view(out@);
            let ready = self.bufs[i].data.len() > 0 && since_exec(now, self.bufs[i].at) >= IDLE_FLUSH;
            if ready {
                let p = self.bufs.remove(i);
                assert(bufs_view(self.bufs@) =~= before.remove(i as int));
                let addr = p.flow.0;
                let flushed = finish(&mut self.carry, p.flow, p.data);
                out.push((addr, flushed));
                j = j + 1;
                proof {
                    assert(flushes_view(out@) =~= outs.push((addr, flushed@)));
                    assert(bufs_view(self.bufs@) =~= drained(orig.take(j as int), h.carry, now).0 + orig.skip(
                        j as int,
                    ));
                }
            } else {
                i = i + 1;
                j = j + 1;
                proof {
                    assert(bufs_view(self.bufs@) =~= drained(orig.take(j as int), h.carry, now).0 + orig.skip(
                        j as int,
                    ));
                }
            }
        }
        assert(orig.take(orig.len() as int) =~= orig);
        assert(bufs_view(self.bufs@) =~= drained(orig, h.carry, now).0);
        out
    }

    /// The idle flush now; see `drain_idle_at`. Whatever the clock read, the
    /// outcome is that of `drained` at some moment.
    pub fn drain_idle(&mut self) -> (r: Vec<(u128, Vec<u8>)>)
        ensures
            exists|now: u64| #[trigger] drain_outcome(old(self)@, final(self)@, flushes_view(r@), now),
    {
        let now = nanos_since(&self.origin);
        let r = self.drain_idle_at(now);
        assert(drain_outcome(old(self)@, self@, flushes_view(r@), now));
        r
    }
}

/// What an idle flush at `now` leaves and gives; see `drained`.
pub open spec fn drain_outcome(before: Held, after: Held, out: Seq<(u128, Seq<u8>)>, now: u64) -> bool {
    let d = drained(before.bufs, before.carry, now);
    &&& after.bufs == d.0
    &&& after.carry == d.1
    &&& after.acks == before.acks
    &&& out == d.2
}

impl Default for Reassembler {
    fn default() -> (r: Reassembler)
        ensures
            r@.bufs.len() == 0 && r@.acks.len() == 0 && r@.carry.len() == 0,
    {
        Reassembler::new()
    }
}

pub open spec fn opt_bytes(o: Option<Vec<u8>>) -> Option<Seq<u8>> {
    match o {
        Some(v) => Some(v@),
        None => None,
    }
}

} // verus!

use vstd::prelude::*;
use vstd::slice::slice_to_vec;

verus! {

/// The fixed capacity of the output-distribution channel.
pub const HUB_CAPACITY: usize = 1024;

/// One chunk of session output in flight: which session produced it and
/// the raw bytes, exactly as the process wrote them.
pub struct HubMessage {
    pub session_id: String,
    pub data: Vec<u8>,
}

/// The mathematical image of one in-flight chunk.
pub struct MessageModel {
    pub session_id: Seq<char>,
    pub data: Seq<u8>,
}

impl View for HubMessage {
    type V = MessageModel;

    open spec fn view(&self) -> MessageModel {
        MessageModel { session_id: self.session_id@, data: self.data@ }
    }
}

/// What one window update does: the new message goes to the back; when
/// the window is full the oldest undelivered message is dropped first.
pub open spec fn spec_publish(
    w: Seq<MessageModel>,
    cap: nat,
    msg: MessageModel,
) -> Seq<MessageModel> {
    if w.len() < cap {
        w.push(msg)
    } else {
        w.drop_first().push(msg)
    }
}

/// Where a subscriber's cursor lands after one receive attempt against a
/// hub whose retained window spans sequence numbers `[base, next)`.
pub open spec fn spec_receive_cursor(base: int, next: int, cursor: int) -> int {
    if cursor >= next {
        cursor
    } else if cursor < base {
        base
    } else {
        cursor + 1
    }
}

/// The bounded multi-producer broadcast stream: a sliding window of the
/// most recent messages, each carrying an implicit sequence number.
/// Publishing never blocks; when the window is full the oldest message
/// is dropped. A subscriber that fell behind the window detects the lag,
/// discards the gap, and resumes from the oldest retained message.
pub struct BroadcastHub {
    capacity: usize,
    next_seq: u64,
    entries: Vec<HubMessage>,
}

/// One subscriber's position in a hub's message stream: the sequence
/// number of the next message it wants. Independent of any session.
pub struct Subscriber {
    cursor: u64,
}

impl Subscriber {
    pub closed spec fn cursor_spec(&self) -> int {
        self.cursor as int
    }
}

/// What one receive attempt yielded: the next message, a detected (and
/// skipped) lag, or nothing new yet.
pub enum HubRecv {
    Message(HubMessage),
    Lagged,
    Empty,
}

impl BroadcastHub {
    /// The retained window, oldest first.
    pub closed spec fn window(&self) -> Seq<MessageModel> {
        self.entries@.map(|_i: int, m: HubMessage| m@)
    }

    /// The sequence number the next published message will get.
    pub closed spec fn next(&self) -> int {
        self.next_seq as int
    }

    pub closed spec fn capacity_spec(&self) -> nat {
        self.capacity as nat
    }

    /// The sequence number of the oldest retained message.
    pub open spec fn base(&self) -> int {
        self.next() - self.window().len()
    }

    /// The message that carries sequence number `s`.
    pub open spec fn msg_at(&self, s: int) -> MessageModel {
        self.window()[s - self.base()]
    }

    pub open spec fn wf(&self) -> bool {
        &&& self.capacity_spec() >= 1
        &&& self.window().len() <= self.capacity_spec()
        &&& self.window().len() <= self.next()
    }

    pub fn new(capacity: usize) -> (r: BroadcastHub)
        requires
            capacity >= 1,
        ensures
            r.wf(),
            r.window() == Seq::<MessageModel>::empty(),
            r.next() == 0,
            r.capacity_spec() == capacity,
    {
        let r = BroadcastHub { capacity, next_seq: 0, entries: Vec::new() };
        proof {
            assert(r.window() =~= Seq::<MessageModel>::empty());
        }
        r
    }

    /// Publishes one chunk: it becomes the newest retained message, with
    /// this hub's current sequence number; the oldest message is dropped
    /// when the window is full. Publishing never blocks a producer.
    pub fn publish(&mut self, session_id: String, data: Vec<u8>)
        requires
            old(self).wf(),
            old(self).next() < u64::MAX,
        ensures
            final(self).wf(),
            final(self).capacity_spec() == old(self).capacity_spec(),
            final(self).next() == old(self).next() + 1,
            final(self).window() == spec_publish(
                old(self).window(),
                old(self).capacity_spec(),
                MessageModel { session_id: session_id@, data: data@ },
            ),
            final(self).msg_at(old(self).next()) == (MessageModel {
                session_id: session_id@,
                data: data@,
            }),
            final(self).base() >= old(self).base(),
    {
        let ghost w0 = self.window();
        let msg = HubMessage { session_id, data };
        if self.entries.len() >= self.capacity {
            let _oldest = self.entries.remove(0);
            proof {
                assert(self.window() =~= w0.drop_first());
            }
        }
        let ghost w1 = self.window();
        self.entries.push(msg);
        self.next_seq = self.next_seq + 1;
        proof {
            assert(self.window() =~= w1.push(MessageModel { session_id: msg.session_id@, data: msg.data@ }));
            assert(self.window() == spec_publish(w0, old(self).capacity_spec(), msg@));
        }
    }

    /// A new subscriber starts at the stream's current end: it will see
    /// every chunk published after this call and nothing published
    /// before it.
    pub fn subscribe(&self) -> (r: Subscriber)
        ensures
            r.cursor_spec() == self.next(),
    {
        Subscriber { cursor: self.next_seq }
    }

    /// One receive attempt. A subscriber that is caught up gets
    /// `Empty`; one that fell behind the retained window gets `Lagged`
    /// once, with its cursor moved up to the oldest retained message;
    /// otherwise it gets an independent copy of the message its cursor
    /// points at, and the cursor advances past it.
    pub fn receive(&self, sub: &mut Subscriber) -> (r: HubRecv)
        requires
            self.wf(),
            0 <= old(sub).cursor_spec() <= self.next(),
        ensures
            final(sub).cursor_spec() == spec_receive_cursor(
                self.base(),
                self.next(),
                old(sub).cursor_spec(),
            ),
            final(sub).cursor_spec() >= old(sub).cursor_spec(),
            final(sub).cursor_spec() <= self.next(),
            match r {
                HubRecv::Empty => old(sub).cursor_spec() == self.next(),
                HubRecv::Lagged => old(sub).cursor_spec() < self.base(),
                HubRecv::Message(msg) => {
                    &&& self.base() <= old(sub).cursor_spec() < self.next()
                    &&& msg@ == self.msg_at(old(sub).cursor_spec())
                },
            },
    {
        let cursor = sub.cursor;
        if cursor >= self.next_seq {
            return HubRecv::Empty;
        }
        let len64 = self.entries.len() as u64;
        let base = self.next_seq - len64;
        if cursor < base {
            sub.cursor = base;
            return HubRecv::Lagged;
        }
        let idx = (cursor - base) as usize;
        let m = &self.entries[idx];
        let copy = HubMessage {
            session_id: m.session_id.clone(),
            data: slice_to_vec(m.data.as_slice()),
        };
        sub.cursor = cursor + 1;
        HubRecv::Message(copy)
    }
}

/// No replay of the past: a subscriber attached when the hub's next
/// sequence number was `n` has a cursor that never falls below `n`, so
/// every message it is ever handed was published at or after its attach
/// point.
pub proof fn lemma_no_replay(base: int, next: int, n: int, cursor: int)
    requires
        n <= cursor,
    ensures
        spec_receive_cursor(base, next, cursor) >= cursor,
        spec_receive_cursor(base, next, cursor) >= n,
{
}

/// In-order delivery to one subscriber: a received message carries the
/// cursor's sequence number and the cursor strictly advances past it,
/// so two successive received messages have strictly increasing
/// sequence numbers — `b1` published before `b2` is received before it.
pub proof fn lemma_receive_in_order(b1: int, n1: int, c1: int, b2: int, n2: int, c2: int)
    requires
        b1 <= c1 < n1,
        spec_receive_cursor(b1, n1, c1) <= c2,
        b2 <= c2 < n2,
    ensures
        c2 > c1,
        spec_receive_cursor(b2, n2, c2) > spec_receive_cursor(b1, n1, c1),
{
}

/// Publishing rewrites nothing that is still retained: every message
/// whose sequence number survives the update keeps its content and its
/// place in the order.
pub proof fn lemma_publish_preserves_retained(
    w: Seq<MessageModel>,
    cap: nat,
    msg: MessageModel,
    base: int,
    s: int,
)
    requires
        cap >= 1,
        w.len() <= cap,
        base + (if w.len() < cap { 0int } else { 1int }) <= s < base + w.len(),
    ensures
        spec_publish(w, cap, msg)[s - (base + (if w.len() < cap { 0int } else { 1int }))] == w[s
            - base],
{
    let shift: int = if w.len() < cap { 0 } else { 1 };
    let nw = spec_publish(w, cap, msg);
    assert(nw[s - (base + shift)] == w[s - base]);
}

} // verus!

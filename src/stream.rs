//! The stream: keeps the device fed with buffers and hands the application
//! one filled buffer at a time.
use vstd::prelude::*;
use crate::control::{BufType, Memory, OsError, EINTR, EINVAL};

verus! {

/// Who has a buffer.
#[derive(Clone, Copy, Debug, PartialEq, Eq, Structural)]
pub enum SlotState {
    /// Queued to the device, to be filled.
    Queued,
    /// Dequeued and handed to the application.
    Held,
}

/// Metadata the device reports with a filled buffer.
#[derive(Clone, Copy, Debug, PartialEq, Eq, Structural)]
pub struct Metadata {
    pub sequence: u32,
    pub timestamp_sec: i64,
    pub timestamp_usec: i64,
    pub flags: u32,
    /// Bytes of the buffer that hold data.
    pub bytes_used: u32,
}

/// A streaming request for the device.
#[derive(Clone, Copy, Debug, PartialEq, Eq, Structural)]
pub enum StreamRequest {
    /// Queue buffer `index` to be filled.
    Queue { index: u32, buf_type: BufType, memory: Memory },
    /// Wait for a filled buffer.
    Dequeue { buf_type: BufType, memory: Memory },
    /// Start streaming.
    On { buf_type: BufType },
    /// Stop streaming.
    Off { buf_type: BufType },
}

/// The device's answer to a dequeue request.
#[derive(Clone, Copy, Debug, PartialEq, Eq, Structural)]
pub enum DequeueReply {
    Filled { index: u32, meta: Metadata },
    Failed { error: OsError },
}

/// What the caller is to do after a dequeue reply.
#[derive(Clone, Copy, Debug, PartialEq, Eq, Structural)]
pub enum Delivery {
    /// The wait was interrupted: dequeue again.
    Retry,
    /// Buffer `index` is filled and now held by the application.
    Ready { index: u32, meta: Metadata },
    Failed { error: OsError },
}

/// Tracks which buffers the device has and which one the application holds.
pub struct Stream {
    pub buf_type: BufType,
    pub memory: Memory,
    pub slots: Vec<SlotState>,
    /// The buffer handed out by the last delivery and not yet queued again.
    pub held: Option<u32>,
    /// Whether a dequeue is outstanding.
    pub waiting: bool,
}

pub struct StreamView {
    pub buf_type: BufType,
    pub memory: Memory,
    pub slots: Seq<SlotState>,
    pub held: Option<u32>,
    pub waiting: bool,
}

impl View for Stream {
    type V = StreamView;

    open spec fn view(&self) -> StreamView {
        StreamView {
            buf_type: self.buf_type,
            memory: self.memory,
            slots: self.slots@,
            held: self.held,
            waiting: self.waiting,
        }
    }
}

pub open spec fn queue_request(s: StreamView, index: u32) -> StreamRequest {
    StreamRequest::Queue { index, buf_type: s.buf_type, memory: s.memory }
}

pub open spec fn dequeue_request(s: StreamView) -> StreamRequest {
    StreamRequest::Dequeue { buf_type: s.buf_type, memory: s.memory }
}

impl StreamView {
    /// At most one buffer is held, and it is the one recorded in `held`.
    pub open spec fn wf(self) -> bool {
        &&& self.slots.len() <= u32::MAX
        &&& self.waiting ==> self.held is None
        &&& match self.held {
            Some(i) => {
                &&& i < self.slots.len()
                &&& forall|k: int| 0 <= k < self.slots.len()
                    ==> ((#[trigger] self.slots[k] == SlotState::Held) <==> k == i)
            },
            None => forall|k: int| 0 <= k < self.slots.len()
                ==> #[trigger] self.slots[k] == SlotState::Queued,
        }
    }

    /// The requests that start a stream: every buffer queued, then streaming on.
    pub open spec fn start_requests(self) -> Seq<StreamRequest> {
        Seq::new(self.slots.len(), |i: int| queue_request(self, i as u32)).push(
            StreamRequest::On { buf_type: self.buf_type },
        )
    }

    /// The requests of a pull: the held buffer queued again, then a dequeue.
    pub open spec fn pull_requests(self) -> Seq<StreamRequest> {
        match self.held {
            Some(i) => seq![queue_request(self, i), dequeue_request(self)],
            None => seq![dequeue_request(self)],
        }
    }

    /// The stream once the held buffer has been queued again.
    pub open spec fn pulled(self) -> StreamView {
        match self.held {
            Some(i) => StreamView {
                slots: self.slots.update(i as int, SlotState::Queued),
                held: None,
                waiting: true,
                ..self
            },
            None => StreamView { waiting: true, ..self },
        }
    }

    /// The stream and the delivery after a dequeue reply.
    pub open spec fn delivered(self, reply: DequeueReply) -> (StreamView, Delivery) {
        match reply {
            DequeueReply::Failed { error } => if error.code == Some(EINTR) {
                (self, Delivery::Retry)
            } else {
                (StreamView { waiting: false, ..self }, Delivery::Failed { error })
            },
            DequeueReply::Filled { index, meta } => if index < self.slots.len()
                && self.slots[index as int] == SlotState::Queued {
                (
                    StreamView {
                        slots: self.slots.update(index as int, SlotState::Held),
                        held: Some(index),
                        waiting: false,
                        ..self
                    },
                    Delivery::Ready { index, meta },
                )
            } else {
                (
                    StreamView { waiting: false, ..self },
                    Delivery::Failed { error: OsError { code: Some(EINVAL) } },
                )
            },
        }
    }
}

impl Stream {
    pub open spec fn wf(&self) -> bool {
        self@.wf()
    }

    /// A stream over `count` granted buffers, all queued to the device.
    pub fn new(buf_type: BufType, memory: Memory, count: u32) -> (r: Stream)
        ensures
            r.wf(),
            r@.buf_type == buf_type,
            r@.memory == memory,
            r@.slots == Seq::new(count as nat, |i: int| SlotState::Queued),
            r@.held is None,
            !r@.waiting,
    {
        let mut slots: Vec<SlotState> = Vec::new();
        let mut i: u32 = 0;
        while i < count
            invariant
                i <= count,
                slots@ == Seq::new(i as nat, |k: int| SlotState::Queued),
            decreases count - i,
        {
            slots.push(SlotState::Queued);
            i = i + 1;
            proof {
                assert(slots@ =~= Seq::new(i as nat, |k: int| SlotState::Queued));
            }
        }
        Stream { buf_type, memory, slots, held: None, waiting: false }
    }

    /// The requests that start streaming.
    pub fn start(&self) -> (r: Vec<StreamRequest>)
        requires
            self.wf(),
        ensures
            r@ == self@.start_requests(),
    {
        let mut r: Vec<StreamRequest> = Vec::new();
        let n = self.slots.len();
        let mut i: usize = 0;
        while i < n
            invariant
                n == self.slots@.len(),
                n <= u32::MAX,
                i <= n,
                r@ == Seq::new(i as nat, |k: int| queue_request(self@, k as u32)),
            decreases n - i,
        {
            r.push(StreamRequest::Queue { index: i as u32, buf_type: self.buf_type, memory: self.memory });
            i = i + 1;
            proof {
                assert(r@ =~= Seq::new(i as nat, |k: int| queue_request(self@, k as u32)));
            }
        }
        r.push(StreamRequest::On { buf_type: self.buf_type });
        r
    }

    /// Starts a pull: queues the held buffer again and asks for the next
    /// filled one.
    pub fn next(&mut self) -> (r: Vec<StreamRequest>)
        requires
            old(self).wf(),
            !old(self)@.waiting,
        ensures
            final(self).wf(),
            final(self)@ == old(self)@.pulled(),
            r@ == old(self)@.pull_requests(),
    {
        let mut r: Vec<StreamRequest> = Vec::new();
        match self.held {
            Some(i) => {
                self.slots.set(i as usize, SlotState::Queued);
                self.held = None;
                r.push(StreamRequest::Queue { index: i, buf_type: self.buf_type, memory: self.memory });
            },
            None => {},
        }
        self.waiting = true;
        r.push(StreamRequest::Dequeue { buf_type: self.buf_type, memory: self.memory });
        proof {
            assert(r@ =~= old(self)@.pull_requests());
            assert(self@.slots =~= old(self)@.pulled().slots);
        }
        r
    }

    /// Takes the device's answer to the outstanding dequeue.
    pub fn deliver(&mut self, reply: DequeueReply) -> (r: Delivery)
        requires
            old(self).wf(),
            old(self)@.waiting,
        ensures
            final(self).wf(),
            (final(self)@, r) == old(self)@.delivered(reply),
    {
        match reply {
            DequeueReply::Failed { error } => {
                if error.code == Some(EINTR) {
                    Delivery::Retry
                } else {
                    self.waiting = false;
                    Delivery::Failed { error }
                }
            },
            DequeueReply::Filled { index, meta } => {
                if (index as usize) < self.slots.len() && self.slots[index as usize] == SlotState::Queued {
                    self.slots.set(index as usize, SlotState::Held);
                    self.held = Some(index);
                    self.waiting = false;
                    Delivery::Ready { index, meta }
                } else {
                    self.waiting = false;
                    Delivery::Failed { error: OsError { code: Some(EINVAL) } }
                }
            },
        }
    }

    /// The request that stops streaming.
    pub fn stop(&self) -> (r: StreamRequest)
        ensures
            r == (StreamRequest::Off { buf_type: self.buf_type }),
    {
        StreamRequest::Off { buf_type: self.buf_type }
    }
}

/// Length of the view over a filled buffer: the bytes the device reports
/// as used, where they fit in the buffer's capacity.
pub fn view_len(bytes_used: u32, capacity: u32) -> (r: Option<u32>)
    ensures
        r == (if bytes_used <= capacity { Some(bytes_used) } else { None::<u32> }),
{
    if bytes_used <= capacity {
        Some(bytes_used)
    } else {
        None
    }
}

/// A buffer handed to the application is queued to the device again by the
/// next pull, before that pull waits for another buffer; after the pull no
/// buffer is held.
pub proof fn lemma_held_requeued(s: StreamView, i: u32)
    requires
        s.wf(),
        !s.waiting,
        s.held == Some(i),
    ensures
        s.pull_requests() == seq![queue_request(s, i), dequeue_request(s)],
        s.pulled().wf(),
        s.pulled().slots[i as int] == SlotState::Queued,
        forall|k: int| 0 <= k < s.slots.len() ==> #[trigger] s.pulled().slots[k] == SlotState::Queued,
{
}

/// A delivery that succeeds leaves exactly the delivered buffer held, with
/// the metadata the device reported.
pub proof fn lemma_delivery_holds_one(s: StreamView, reply: DequeueReply)
    requires
        s.wf(),
        s.waiting,
        s.delivered(reply).1 is Ready,
    ensures
        ({
            let (t, d) = s.delivered(reply);
            &&& reply is Filled
            &&& d->Ready_index == reply->Filled_index
            &&& d->Ready_meta == reply->Filled_meta
            &&& t.held == Some(d->Ready_index)
            &&& forall|k: int| 0 <= k < t.slots.len()
                ==> ((#[trigger] t.slots[k] == SlotState::Held) <==> k == d->Ready_index)
        }),
{
}

} // verus!

use dmabuf_arena::arena::{Arena, Step};
use dmabuf_arena::control::{BufType, Memory, OsError, Reply, Request, EINTR, EINVAL, ENODEV};
use dmabuf_arena::stream::{view_len, Delivery, DequeueReply, Metadata, SlotState, Stream, StreamRequest};

fn meta(sequence: u32, bytes_used: u32) -> Metadata {
    Metadata { sequence, timestamp_sec: 1, timestamp_usec: 2, flags: 0, bytes_used }
}

fn queue(index: u32) -> StreamRequest {
    StreamRequest::Queue { index, buf_type: BufType::VideoCapture, memory: Memory::DmaBuf }
}

const DEQUEUE: StreamRequest = StreamRequest::Dequeue { buf_type: BufType::VideoCapture, memory: Memory::DmaBuf };

#[test]
fn start_queues_every_buffer() {
    let s = Stream::new(BufType::VideoCapture, Memory::DmaBuf, 3);
    assert_eq!(s.slots, vec![SlotState::Queued; 3]);
    assert_eq!(s.start(), vec![queue(0), queue(1), queue(2), StreamRequest::On { buf_type: BufType::VideoCapture }]);
    assert_eq!(s.stop(), StreamRequest::Off { buf_type: BufType::VideoCapture });
}

#[test]
fn first_frame_of_four_buffers_at_640_by_480() {
    let mut arena = Arena::new(BufType::VideoCapture);
    arena.allocate(4);
    let mut step = arena.advance(Reply::Format { planes: 1 });
    let mut fd: i32 = 3;
    loop {
        step = match step {
            Step::Issue { request: Request::RequestBuffers { memory: Memory::Mmap, .. } } => arena.advance(Reply::Granted { count: 4 }),
            Step::Issue { request: Request::ExportBuffer { .. } } => { fd += 1; arena.advance(Reply::Exported { fd }) }
            Step::Issue { request: Request::RequestBuffers { memory: Memory::DmaBuf, .. } } => arena.advance(Reply::Granted { count: 4 }),
            other => break assert_eq!(other, Step::Allocated { count: 4 }),
        };
    }
    let granted = arena.len();
    assert!(granted <= 4);
    let capacity: u32 = 640 * 480 * 2;
    let mut s = Stream::new(BufType::VideoCapture, Memory::DmaBuf, granted);
    assert_eq!(s.next(), vec![DEQUEUE]);
    let d = s.deliver(DequeueReply::Filled { index: 0, meta: meta(0, capacity) });
    assert_eq!(d, Delivery::Ready { index: 0, meta: meta(0, capacity) });
    match d {
        Delivery::Ready { meta, .. } => {
            assert_eq!(meta.sequence, 0);
            let len = view_len(meta.bytes_used, capacity).unwrap();
            assert!(len <= capacity);
            assert_eq!(len, capacity);
        }
        _ => unreachable!(),
    }
}

#[test]
fn held_buffer_is_queued_before_next_dequeue() {
    let mut s = Stream::new(BufType::VideoCapture, Memory::DmaBuf, 2);
    s.next();
    assert_eq!(s.deliver(DequeueReply::Filled { index: 1, meta: meta(0, 10) }), Delivery::Ready { index: 1, meta: meta(0, 10) });
    assert_eq!(s.held, Some(1));
    assert_eq!(s.slots, vec![SlotState::Queued, SlotState::Held]);
    assert_eq!(s.next(), vec![queue(1), DEQUEUE]);
    assert_eq!(s.held, None);
    assert_eq!(s.slots, vec![SlotState::Queued, SlotState::Queued]);
    assert_eq!(s.deliver(DequeueReply::Filled { index: 0, meta: meta(1, 10) }), Delivery::Ready { index: 0, meta: meta(1, 10) });
    assert_eq!(s.slots, vec![SlotState::Held, SlotState::Queued]);
}

#[test]
fn sequence_numbers_pass_through_in_order() {
    let mut s = Stream::new(BufType::VideoCapture, Memory::DmaBuf, 2);
    let mut seen = Vec::new();
    for seq in 0..5u32 {
        s.next();
        match s.deliver(DequeueReply::Filled { index: seq % 2, meta: meta(seq, 1) }) {
            Delivery::Ready { meta, .. } => seen.push(meta.sequence),
            other => panic!("{:?}", other),
        }
    }
    assert_eq!(seen, vec![0, 1, 2, 3, 4]);
}

#[test]
fn interrupted_wait_is_retried() {
    let mut s = Stream::new(BufType::VideoCapture, Memory::DmaBuf, 1);
    s.next();
    assert_eq!(s.deliver(DequeueReply::Failed { error: OsError { code: Some(EINTR) } }), Delivery::Retry);
    assert!(s.waiting);
    assert_eq!(s.deliver(DequeueReply::Filled { index: 0, meta: meta(0, 1) }), Delivery::Ready { index: 0, meta: meta(0, 1) });
}

#[test]
fn removed_device_fails_while_streaming() {
    let mut s = Stream::new(BufType::VideoCapture, Memory::DmaBuf, 1);
    s.next();
    let err = OsError { code: Some(ENODEV) };
    assert_eq!(s.deliver(DequeueReply::Failed { error: err }), Delivery::Failed { error: err });
    assert!(!s.waiting);
}

#[test]
fn index_beyond_granted_count_is_refused() {
    let mut s = Stream::new(BufType::VideoCapture, Memory::DmaBuf, 2);
    s.next();
    let d = s.deliver(DequeueReply::Filled { index: 2, meta: meta(0, 1) });
    assert_eq!(d, Delivery::Failed { error: OsError { code: Some(EINVAL) } });
    assert_eq!(s.held, None);
}

#[test]
fn view_len_bounds() {
    assert_eq!(view_len(100, 200), Some(100));
    assert_eq!(view_len(200, 200), Some(200));
    assert_eq!(view_len(201, 200), None);
    assert_eq!(view_len(0, 0), Some(0));
}

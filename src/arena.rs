//! The buffer arena: reserves buffers on the device, exports every plane of
//! every buffer as a shareable handle, and frees the reservation again.
use vstd::prelude::*;
use crate::control::{
    BufType, Memory, OsError, Reply, Request, EINVAL, ENODEV, MAX_PLANES, export_flags,
    read_write_flag,
};

verus! {

/// Where an arena stands in its exchange with the device.
#[derive(Clone, Copy, Debug, PartialEq, Eq, Structural)]
pub enum Phase {
    /// No request is outstanding.
    Idle,
    /// The format query is outstanding.
    Format,
    /// The memory-mapped reservation is outstanding.
    Reserve { planes: u32 },
    /// The export of plane `plane` of buffer `index` is outstanding.
    Export { planes: u32, granted: u32, index: u32, plane: u32 },
    /// The conversion of the reservation to shareable memory is outstanding.
    Convert { planes: u32, granted: u32 },
    /// The request freeing the reservation is outstanding.
    Release,
}

/// What the caller is to do after a reply.
#[derive(Clone, Copy, Debug, PartialEq, Eq, Structural)]
pub enum Step {
    /// Perform this request and hand its reply back.
    Issue { request: Request },
    /// Allocation finished; the device granted this many buffers.
    Allocated { count: u32 },
    /// The reservation was freed.
    Released,
    /// The device was gone when asked to free the reservation; the
    /// reservation went with it.
    Removed,
    /// The exchange failed with this error.
    Failed { error: OsError },
}

/// Manages shareable buffers of one buffer-set type.
pub struct Arena {
    pub buf_type: BufType,
    /// Exported handles of the arena's buffers, one per plane.
    pub bufs: Vec<Vec<i32>>,
    /// Handles of the buffers the allocation under way has exported; they
    /// replace `bufs` once the device converts the reservation.
    pub fresh: Vec<Vec<i32>>,
    /// Handles exported so far for the buffer being exported.
    pub pending: Vec<i32>,
    /// Number of buffers granted by the last successful allocation.
    pub count: u32,
    /// Whether the device holds a reservation that the arena has yet to
    /// ask it to free.
    pub reserved: bool,
    /// Number of buffers asked for by the allocation under way.
    pub requested: u32,
    pub phase: Phase,
}

/// Mathematical model of an arena.
pub struct ArenaView {
    pub buf_type: BufType,
    pub bufs: Seq<Seq<i32>>,
    pub fresh: Seq<Seq<i32>>,
    pub pending: Seq<i32>,
    pub count: u32,
    pub reserved: bool,
    pub requested: u32,
    pub phase: Phase,
}

impl View for Arena {
    type V = ArenaView;

    open spec fn view(&self) -> ArenaView {
        ArenaView {
            buf_type: self.buf_type,
            bufs: self.bufs@.map_values(|b: Vec<i32>| b@),
            fresh: self.fresh@.map_values(|b: Vec<i32>| b@),
            pending: self.pending@,
            count: self.count,
            reserved: self.reserved,
            requested: self.requested,
            phase: self.phase,
        }
    }
}

/// Whether `planes` is an acceptable plane count.
pub open spec fn planes_ok(planes: u32) -> bool {
    1 <= planes <= MAX_PLANES
}

/// The plane count used for a buffer-set type whose format reports `reported`.
pub open spec fn effective_planes(t: BufType, reported: u32) -> u32 {
    if t.spec_is_multiplanar() {
        reported
    } else {
        1
    }
}

pub open spec fn export_request(t: BufType, index: u32, plane: u32) -> Request {
    Request::ExportBuffer { index, plane, buf_type: t, flags: export_flags() }
}

pub open spec fn reserve_request(t: BufType, count: u32, memory: Memory) -> Request {
    Request::RequestBuffers { count, buf_type: t, memory }
}

/// The number of buffers an allocation hands out: what the device granted
/// on conversion, but never more than were exported nor more than were
/// asked for.
pub open spec fn usable_slots(granted: u32, exported: nat, requested: u32) -> u32 {
    let n = if granted as nat <= exported { granted } else { exported as u32 };
    if n <= requested { n } else { requested }
}

pub open spec fn failure(code: i32) -> OsError {
    OsError { code: Some(code) }
}

impl ArenaView {
    /// Every buffer exported by the allocation under way holds one handle
    /// per plane.
    pub open spec fn uniform(self, planes: u32) -> bool {
        forall|k: int| 0 <= k < self.fresh.len() ==> (#[trigger] self.fresh[k]).len() == planes
    }

    pub open spec fn wf(self) -> bool {
        match self.phase {
            Phase::Export { planes, granted, index, plane } => {
                &&& planes_ok(planes)
                &&& index < granted
                &&& plane < planes
                &&& self.fresh.len() == index
                &&& self.pending.len() == plane
                &&& self.uniform(planes)
            },
            Phase::Convert { planes, granted } => {
                &&& self.fresh.len() == granted
                &&& self.pending.len() == 0
                &&& self.uniform(planes)
            },
            Phase::Reserve { planes } => {
                &&& planes_ok(planes)
                &&& self.fresh.len() == 0
                &&& self.pending.len() == 0
            },
            _ => self.fresh.len() == 0 && self.pending.len() == 0,
        }
    }

    /// Whether a reply of this shape answers the outstanding request.
    pub open spec fn expects(self, reply: Reply) -> bool {
        match self.phase {
            Phase::Idle => false,
            Phase::Format => reply is Format || reply is Failed,
            Phase::Export { .. } => reply is Exported || reply is Failed,
            _ => reply is Granted || reply is Failed,
        }
    }

    /// Whether an allocation is under way.
    pub open spec fn allocating(self) -> bool {
        self.phase is Format || self.phase is Reserve || self.phase is Export
            || self.phase is Convert
    }

    /// Whether slot `index` can be looked up.
    pub open spec fn has_slot(self, index: int) -> bool {
        0 <= index < self.count && index < self.bufs.len()
    }

    /// The arena once its reservation is gone.
    pub open spec fn emptied(self) -> ArenaView {
        ArenaView {
            reserved: false,
            count: 0,
            bufs: Seq::empty(),
            fresh: Seq::empty(),
            pending: Seq::empty(),
            phase: Phase::Idle,
            ..self
        }
    }

    /// The handles the arena keeps when an allocation is abandoned: its
    /// earlier buffers, then those exported so far, the last perhaps with
    /// only some of its planes.
    pub open spec fn kept(self) -> Seq<Seq<i32>> {
        if self.pending.len() == 0 {
            self.bufs + self.fresh
        } else {
            self.bufs + self.fresh.push(self.pending)
        }
    }

    /// The arena once the allocation under way is abandoned.
    pub open spec fn abandoned(self) -> ArenaView {
        ArenaView {
            bufs: self.kept(),
            fresh: Seq::empty(),
            pending: Seq::empty(),
            phase: Phase::Idle,
            ..self
        }
    }

    /// The arena after the outstanding request was answered with `reply`,
    /// and what the caller is to do next.
    pub open spec fn advanced(self, reply: Reply) -> (ArenaView, Step) {
        let idle = ArenaView { phase: Phase::Idle, ..self };
        match reply {
            Reply::Failed { error } => if !(self.phase is Release) {
                (self.abandoned(), Step::Failed { error })
            } else if error.code == Some(ENODEV) {
                (self.emptied(), Step::Removed)
            } else {
                (ArenaView { reserved: false, ..idle }, Step::Failed { error })
            },
            Reply::Format { planes: reported } => {
                let planes = effective_planes(self.buf_type, reported);
                if !planes_ok(planes) {
                    (self.abandoned(), Step::Failed { error: failure(EINVAL) })
                } else {
                    (
                        ArenaView { phase: Phase::Reserve { planes }, ..self },
                        Step::Issue {
                            request: reserve_request(self.buf_type, self.requested, Memory::Mmap),
                        },
                    )
                }
            },
            Reply::Granted { count } => match self.phase {
                Phase::Reserve { planes } => {
                    let s = ArenaView { reserved: count > 0, ..self };
                    if count == 0 {
                        (
                            ArenaView { phase: Phase::Convert { planes, granted: 0 }, ..s },
                            Step::Issue {
                                request: reserve_request(
                                    self.buf_type,
                                    self.requested,
                                    Memory::DmaBuf,
                                ),
                            },
                        )
                    } else {
                        (
                            ArenaView {
                                phase: Phase::Export { planes, granted: count, index: 0, plane: 0 },
                                ..s
                            },
                            Step::Issue { request: export_request(self.buf_type, 0, 0) },
                        )
                    }
                },
                Phase::Convert { .. } => {
                    let n = usable_slots(count, self.fresh.len(), self.requested);
                    (
                        ArenaView {
                            reserved: count > 0,
                            count: n,
                            bufs: self.fresh,
                            fresh: Seq::empty(),
                            ..idle
                        },
                        Step::Allocated { count: n },
                    )
                },
                _ => (self.emptied(), Step::Released),
            },
            Reply::Exported { fd } => match self.phase {
                Phase::Export { planes, granted, index, plane } => {
                    let pending = self.pending.push(fd);
                    if plane + 1 < planes {
                        (
                            ArenaView {
                                pending,
                                phase: Phase::Export {
                                    planes,
                                    granted,
                                    index,
                                    plane: (plane + 1) as u32,
                                },
                                ..self
                            },
                            Step::Issue {
                                request: export_request(
                                    self.buf_type,
                                    index,
                                    (plane + 1) as u32,
                                ),
                            },
                        )
                    } else {
                        let s = ArenaView {
                            fresh: self.fresh.push(pending),
                            pending: Seq::empty(),
                            ..self
                        };
                        if index + 1 < granted {
                            (
                                ArenaView {
                                    phase: Phase::Export {
                                        planes,
                                        granted,
                                        index: (index + 1) as u32,
                                        plane: 0,
                                    },
                                    ..s
                                },
                                Step::Issue {
                                    request: export_request(
                                        self.buf_type,
                                        (index + 1) as u32,
                                        0,
                                    ),
                                },
                            )
                        } else {
                            (
                                ArenaView { phase: Phase::Convert { planes, granted }, ..s },
                                Step::Issue {
                                    request: reserve_request(
                                        self.buf_type,
                                        self.requested,
                                        Memory::DmaBuf,
                                    ),
                                },
                            )
                        }
                    }
                },
                _ => (self.abandoned(), Step::Failed { error: failure(EINVAL) }),
            },
        }
    }
}

impl Arena {
    pub open spec fn wf(&self) -> bool {
        self@.wf()
    }

    /// A new arena that holds no buffers and has reserved nothing.
    pub fn new(buf_type: BufType) -> (r: Arena)
        ensures
            r.wf(),
            r@.buf_type == buf_type,
            r@.bufs.len() == 0,
            r@.fresh.len() == 0,
            r@.pending.len() == 0,
            r@.count == 0,
            !r@.reserved,
            r@.phase == Phase::Idle,
    {
        Arena {
            buf_type,
            bufs: Vec::new(),
            fresh: Vec::new(),
            pending: Vec::new(),
            count: 0,
            reserved: false,
            requested: 0,
            phase: Phase::Idle,
        }
    }

    /// Starts allocating `count` buffers and returns the first request: the
    /// format query that sizes the buffers. The arena keeps its earlier
    /// handles until the device converts the new reservation.
    pub fn allocate(&mut self, count: u32) -> (r: Request)
        requires
            old(self).wf(),
            old(self)@.phase == Phase::Idle,
            count >= 1,
        ensures
            final(self).wf(),
            final(self)@ == old(self)@.started(count),
            r == (Request::GetFormat { buf_type: old(self)@.buf_type }),
    {
        self.requested = count;
        self.phase = Phase::Format;
        Request::GetFormat { buf_type: self.buf_type }
    }

    /// Starts freeing the reservation. Returns the request to perform, or
    /// `None` where the device holds nothing, in which case nothing changes.
    pub fn release(&mut self) -> (r: Option<Request>)
        requires
            old(self).wf(),
            old(self)@.phase == Phase::Idle,
        ensures
            final(self).wf(),
            !old(self)@.reserved ==> r is None && final(self)@ == old(self)@,
            old(self)@.reserved ==> r == Some(reserve_request(old(self)@.buf_type, 0, Memory::DmaBuf))
                && final(self)@ == (ArenaView { phase: Phase::Release, ..old(self)@ }),
    {
        if !self.reserved {
            return None;
        }
        self.phase = Phase::Release;
        Some(Request::RequestBuffers { count: 0, buf_type: self.buf_type, memory: Memory::DmaBuf })
    }

    /// Takes the device's reply to the outstanding request and says what to
    /// do next.
    pub fn advance(&mut self, reply: Reply) -> (r: Step)
        requires
            old(self).wf(),
            old(self)@.expects(reply),
        ensures
            final(self).wf(),
            (final(self)@, r) == old(self)@.advanced(reply),
    {
        let ghost before = self@;
        match reply {
            Reply::Failed { error } => {
                if self.phase != Phase::Release {
                    self.abandon();
                    Step::Failed { error }
                } else if error.code == Some(ENODEV) {
                    self.empty();
                    Step::Removed
                } else {
                    self.phase = Phase::Idle;
                    self.reserved = false;
                    Step::Failed { error }
                }
            },
            Reply::Format { planes: reported } => {
                let planes = if self.buf_type.is_multiplanar() {
                    reported
                } else {
                    1
                };
                if planes < 1 || planes > MAX_PLANES {
                    self.abandon();
                    Step::Failed { error: OsError { code: Some(EINVAL) } }
                } else {
                    self.phase = Phase::Reserve { planes };
                    Step::Issue {
                        request: Request::RequestBuffers {
                            count: self.requested,
                            buf_type: self.buf_type,
                            memory: Memory::Mmap,
                        },
                    }
                }
            },
            Reply::Granted { count } => match self.phase {
                Phase::Reserve { planes } => {
                    self.reserved = count > 0;
                    if count == 0 {
                        self.phase = Phase::Convert { planes, granted: 0 };
                        Step::Issue {
                            request: Request::RequestBuffers {
                                count: self.requested,
                                buf_type: self.buf_type,
                                memory: Memory::DmaBuf,
                            },
                        }
                    } else {
                        self.phase = Phase::Export { planes, granted: count, index: 0, plane: 0 };
                        Step::Issue { request: self.export(0, 0) }
                    }
                },
                Phase::Convert { .. } => {
                    let exported = self.fresh.len();
                    let capped = if (count as usize) <= exported {
                        count
                    } else {
                        exported as u32
                    };
                    let n = if capped <= self.requested {
                        capped
                    } else {
                        self.requested
                    };
                    self.reserved = count > 0;
                    self.count = n;
                    self.phase = Phase::Idle;
                    self.bufs = Vec::new();
                    std::mem::swap(&mut self.bufs, &mut self.fresh);
                    proof {
                        assert(self@.fresh =~= Seq::<Seq<i32>>::empty());
                    }
                    Step::Allocated { count: n }
                },
                _ => {
                    self.empty();
                    Step::Released
                },
            },
            Reply::Exported { fd } => match self.phase {
                Phase::Export { planes, granted, index, plane } => {
                    self.pending.push(fd);
                    if plane + 1 < planes {
                        self.phase = Phase::Export { planes, granted, index, plane: plane + 1 };
                        Step::Issue { request: self.export(index, plane + 1) }
                    } else {
                        let mut done: Vec<i32> = Vec::new();
                        std::mem::swap(&mut done, &mut self.pending);
                        self.fresh.push(done);
                        proof {
                            assert(self@.fresh =~= before.fresh.push(before.pending.push(fd)));
                        }
                        if index + 1 < granted {
                            self.phase = Phase::Export { planes, granted, index: index + 1, plane: 0 };
                            Step::Issue { request: self.export(index + 1, 0) }
                        } else {
                            self.phase = Phase::Convert { planes, granted };
                            Step::Issue {
                                request: Request::RequestBuffers {
                                    count: self.requested,
                                    buf_type: self.buf_type,
                                    memory: Memory::DmaBuf,
                                },
                            }
                        }
                    }
                },
                _ => {
                    self.abandon();
                    Step::Failed { error: OsError { code: Some(EINVAL) } }
                },
            },
        }
    }

    /// Number of buffers the last successful allocation granted.
    pub fn len(&self) -> (r: u32)
        ensures
            r == self@.count,
    {
        self.count
    }

    /// The handles of buffer `index`, one per plane, if the arena holds it.
    pub fn slot(&self, index: u32) -> (r: Option<&Vec<i32>>)
        ensures
            r is Some <==> self@.has_slot(index as int),
            r is Some ==> r->0@ == self@.bufs[index as int],
    {
        if index < self.count && (index as usize) < self.bufs.len() {
            Some(&self.bufs[index as usize])
        } else {
            None
        }
    }

    fn empty(&mut self)
        ensures
            final(self)@ == old(self)@.emptied(),
    {
        self.reserved = false;
        self.count = 0;
        self.bufs = Vec::new();
        self.fresh = Vec::new();
        self.pending = Vec::new();
        self.phase = Phase::Idle;
        proof {
            assert(self@.bufs =~= Seq::<Seq<i32>>::empty());
            assert(self@.fresh =~= Seq::<Seq<i32>>::empty());
        }
    }

    /// Gives up the allocation under way; every handle exported so far
    /// stays with the arena.
    fn abandon(&mut self)
        ensures
            final(self)@ == old(self)@.abandoned(),
    {
        let ghost before = self@;
        if self.pending.len() > 0 {
            let mut partial: Vec<i32> = Vec::new();
            std::mem::swap(&mut partial, &mut self.pending);
            self.fresh.push(partial);
        }
        self.bufs.append(&mut self.fresh);
        self.phase = Phase::Idle;
        proof {
            assert(self@.bufs =~= before.kept());
            assert(self@.fresh =~= Seq::<Seq<i32>>::empty());
            assert(self@.pending =~= Seq::<i32>::empty());
        }
    }

    fn export(&self, index: u32, plane: u32) -> (r: Request)
        ensures
            r == export_request(self.buf_type, index, plane),
    {
        Request::ExportBuffer { index, plane, buf_type: self.buf_type, flags: read_write_flag() }
    }
}

/// How a teardown that freed the reservation ended.
#[derive(Clone, Copy, Debug, PartialEq, Eq, Structural)]
pub enum Teardown {
    /// The reservation was freed.
    Clean,
    /// The device was already gone, and its buffers with it.
    DeviceRemoved,
    /// Freeing failed otherwise: buffers would leak, so the process must stop.
    Abort,
}

pub open spec fn teardown_of(outcome: Step) -> Teardown {
    match outcome {
        Step::Failed { error } => if error.code == Some(ENODEV) {
            Teardown::DeviceRemoved
        } else {
            Teardown::Abort
        },
        Step::Released => Teardown::Clean,
        Step::Removed => Teardown::DeviceRemoved,
        _ => Teardown::Abort,
    }
}

/// Judges the outcome of freeing the reservation during teardown.
pub fn judge_teardown(outcome: Step) -> (r: Teardown)
    ensures
        r == teardown_of(outcome),
{
    match outcome {
        Step::Failed { error } => match error.code {
            Some(code) => if code == ENODEV {
                Teardown::DeviceRemoved
            } else {
                Teardown::Abort
            },
            None => Teardown::Abort,
        },
        Step::Released => Teardown::Clean,
        Step::Removed => Teardown::DeviceRemoved,
        _ => Teardown::Abort,
    }
}

impl ArenaView {
    /// The arena once an allocation of `count` buffers has started.
    pub open spec fn started(self, count: u32) -> ArenaView {
        ArenaView { requested: count, phase: Phase::Format, ..self }
    }

    /// The arena after it has been handed `replies`, one after the other.
    pub open spec fn after(self, replies: Seq<Reply>) -> ArenaView
        decreases replies.len(),
    {
        if replies.len() == 0 {
            self
        } else {
            self.after(replies.drop_last()).advanced(replies.last()).0
        }
    }

    /// Whether each of `replies` answers the request outstanding when it
    /// arrives.
    pub open spec fn accepts(self, replies: Seq<Reply>) -> bool
        decreases replies.len(),
    {
        replies.len() == 0 || (self.accepts(replies.drop_last()) && self.after(
            replies.drop_last(),
        ).expects(replies.last()))
    }
}

/// Every exchange of replies keeps the arena well formed, its buffer-set
/// type and the number of buffers asked for.
pub proof fn lemma_exchange_keeps_wf(s: ArenaView, replies: Seq<Reply>)
    requires
        s.wf(),
        s.accepts(replies),
    ensures
        s.after(replies).wf(),
        s.after(replies).buf_type == s.buf_type,
        s.after(replies).requested == s.requested,
    decreases replies.len(),
{
    if replies.len() > 0 {
        lemma_exchange_keeps_wf(s, replies.drop_last());
        let u = s.after(replies.drop_last());
        let t = u.advanced(replies.last()).0;
        if let Phase::Export { planes, granted, index, plane } = u.phase {
            if let Reply::Exported { fd } = replies.last() {
                assert forall|k: int| 0 <= k < t.fresh.len() implies (#[trigger] t.fresh[k]).len()
                    == planes by {
                    if k < u.fresh.len() {
                        assert(u.fresh[k].len() == planes);
                    }
                }
            }
        }
    }
}

/// Until its last reply, an allocation leaves the arena's earlier handles
/// where they are.
pub proof fn lemma_allocation_keeps_earlier(s: ArenaView, replies: Seq<Reply>)
    requires
        s.wf(),
        s.allocating(),
        s.accepts(replies),
        replies.len() > 0,
    ensures
        s.after(replies.drop_last()).allocating(),
        s.after(replies.drop_last()).bufs == s.bufs,
        s.after(replies.drop_last()).count == s.count,
    decreases replies.len(),
{
    let prev = replies.drop_last();
    if prev.len() > 0 {
        assert(s.accepts(prev));
        lemma_allocation_keeps_earlier(s, prev);
    }
}

/// An allocation that fails keeps every handle the arena held before it,
/// followed by those it exported, and the arena's buffer count.
pub proof fn lemma_failed_allocation_keeps_handles(
    a: ArenaView,
    count: u32,
    replies: Seq<Reply>,
    last: Reply,
)
    requires
        a.wf(),
        a.phase == Phase::Idle,
        count >= 1,
        a.started(count).accepts(replies.push(last)),
        a.started(count).after(replies).advanced(last).1 is Failed,
    ensures
        ({
            let t = a.started(count).after(replies.push(last));
            &&& t.phase == Phase::Idle
            &&& t.count == a.count
            &&& a.bufs.len() <= t.bufs.len()
            &&& forall|i: int| 0 <= i < a.bufs.len() ==> t.bufs[i] == a.bufs[i]
        }),
{
    let s = a.started(count);
    assert(replies.push(last).drop_last() =~= replies);
    lemma_allocation_keeps_earlier(s, replies.push(last));
    lemma_exchange_keeps_wf(s, replies);
}

/// Whatever the device answers, an allocation of `count` buffers that
/// succeeds hands out at most `count` buffers, the arena's buffer count is
/// the number handed out, and exactly the buffers below it can be looked up.
pub proof fn lemma_allocated_slots(a: ArenaView, count: u32, replies: Seq<Reply>, last: Reply)
    requires
        a.wf(),
        a.phase == Phase::Idle,
        count >= 1,
        a.started(count).accepts(replies.push(last)),
        a.started(count).after(replies).advanced(last).1 is Allocated,
    ensures
        ({
            let n = a.started(count).after(replies).advanced(last).1->Allocated_count;
            let t = a.started(count).after(replies.push(last));
            &&& n <= count
            &&& t.count == n
            &&& forall|i: int| 0 <= i ==> (t.has_slot(i) <==> i < n)
        }),
{
    let s = a.started(count);
    assert(replies.push(last).drop_last() =~= replies);
    lemma_exchange_keeps_wf(s, replies);
}

/// Asking the device to free the reservation ends the reservation however
/// the device answers; the teardown aborts exactly when the device reports
/// an error other than its removal.
pub proof fn lemma_teardown_after_release(s: ArenaView, reply: Reply)
    requires
        s.wf(),
        s.phase == Phase::Release,
        s.expects(reply),
    ensures
        ({
            let (t, step) = s.advanced(reply);
            &&& t.phase == Phase::Idle
            &&& !t.reserved
            &&& reply is Granted ==> teardown_of(step) == Teardown::Clean && t == s.emptied()
            &&& reply is Failed && reply->error.code == Some(ENODEV) ==> step == Step::Removed
                && teardown_of(step) == Teardown::DeviceRemoved && t == s.emptied()
            &&& reply is Failed && reply->error.code != Some(ENODEV)
                ==> teardown_of(step) == Teardown::Abort
        }),
{
}

/// The reservation is converted to shareable memory only once every granted
/// buffer has been exported with one handle per plane.
pub proof fn lemma_exports_before_conversion(s: ArenaView, reply: Reply)
    requires
        s.wf(),
        s.expects(reply),
        s.advanced(reply).1 == (Step::Issue {
            request: reserve_request(s.buf_type, s.requested, Memory::DmaBuf),
        }),
    ensures
        ({
            let t = s.advanced(reply).0;
            &&& t.phase is Convert
            &&& t.fresh.len() == t.phase->Convert_granted
            &&& forall|k: int| 0 <= k < t.fresh.len()
                ==> (#[trigger] t.fresh[k]).len() == t.phase->Convert_planes
        }),
{
}

} // verus!

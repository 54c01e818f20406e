//! The capture session: a state machine that takes the device from idle to
//! streaming and back to stopped, one device call at a time.
//!
//! Each transition takes the answer of the last device call (an [`Event`]) and
//! names the next call to make (an [`Action`]). The caller makes the calls; the
//! session keeps the order: format, then interval, then buffers, then the
//! queue, then streaming.
use vstd::prelude::*;
use crate::error::Error;
use crate::format::{fourcc_value, Config, FormatInfo};
use crate::negotiate::{
    format_outcome, format_verdict, interval_honoured, interval_verdict, FormatRequest,
};
use crate::pool::{BufferPool, Slot};

verus! {

/// Where a session stands.
#[derive(Clone, Copy, Debug, PartialEq, Eq, Structural)]
pub enum Phase {
    /// Opened; no format and no buffers yet.
    Idle,
    /// Waiting for the device's answer to the format request.
    SettingFormat,
    /// Waiting for the device's answer to the interval request.
    SettingInterval,
    /// Waiting for the driver to grant the buffers.
    RequestingBuffers,
    /// Waiting for the length and offset of a buffer.
    Querying(u32),
    /// Waiting for a buffer, of the given length, to be mapped.
    Mapping(u32, u32),
    /// Waiting for a buffer to be queued.
    Queueing(u32),
    /// Waiting for the driver to start streaming.
    StartingStream,
    /// The driver captures into the queued buffers.
    Streaming,
    /// Streaming halted and buffers released; a new session is needed.
    Stopped,
}

/// What a session asks for, fixed when `start` begins.
#[derive(Clone, Copy, Debug)]
pub struct Plan {
    pub request: FormatRequest,
    pub format: [u8; 4],
    pub interval: (u32, u32),
    pub nbuffers: u32,
}

/// The answer of the device call that a session asked for.
#[derive(Clone, Copy, Debug, PartialEq, Eq, Structural)]
pub enum Event {
    /// The format that the device accepted.
    FormatSet(FormatRequest),
    /// The frame interval that the device accepted.
    IntervalSet(u32, u32),
    /// The driver granted the buffers.
    BuffersGranted,
    /// The length and offset of the buffer asked about.
    BufferFound { length: u32, offset: u32 },
    /// The buffer was mapped into the process.
    BufferMapped,
    /// The buffer was queued to the driver.
    BufferQueued,
    /// The driver started streaming.
    StreamStarted,
    /// The device call failed with this error number.
    Failed(i32),
}

/// The device call to make next, or the end of `start`.
#[derive(Clone, Copy, Debug, PartialEq, Eq, Structural)]
pub enum Action {
    SetFormat(FormatRequest),
    SetInterval(u32, u32),
    RequestBuffers(u32),
    QueryBuffer(u32),
    MapBuffer { index: u32, length: u32, offset: u32 },
    QueueBuffer(u32),
    StartStream,
    /// `start` succeeded.
    Done,
    /// `start` failed; every region mapped in it is to be unmapped.
    Fail(Error),
}

/// The abstract state of a session.
pub struct SessionView {
    pub phase: Phase,
    pub plan: Plan,
    /// The accepted resolution, once streaming.
    pub resolution: (u32, u32),
    /// The accepted pixel-format code, once streaming.
    pub format: Seq<u8>,
    /// The buffer pool.
    pub slots: Seq<Slot>,
}

/// A capture session.
pub struct Session {
    phase: Phase,
    plan: Plan,
    resolution: (u32, u32),
    format: [u8; 4],
    pool: BufferPool,
}

/// One buffer handed to the caller: its index, the bytes the driver wrote
/// into it, and the format of the frame.
pub struct Lease {
    index: u32,
    length: u32,
    capacity: u32,
    resolution: (u32, u32),
    format: [u8; 4],
}

/// The phases between the beginning of `start` and its end.
pub open spec fn starting(p: Phase) -> bool {
    match p {
        Phase::SettingFormat | Phase::SettingInterval | Phase::RequestingBuffers
        | Phase::Querying(_) | Phase::Mapping(_, _) | Phase::Queueing(_)
        | Phase::StartingStream => true,
        _ => false,
    }
}

impl SessionView {
    /// The pool holds one slot for each buffer mapped so far, and exactly the
    /// buffers queued so far are marked queued.
    pub open spec fn wf(self) -> bool {
        let n = self.plan.nbuffers as int;
        let s = self.slots;
        match self.phase {
            Phase::Querying(i) | Phase::Mapping(i, _) => {
                &&& i < n
                &&& s.len() == i
                &&& forall|j: int| 0 <= j < s.len() ==> !(#[trigger] s[j]).queued
            },
            Phase::Queueing(i) => {
                &&& i < n
                &&& s.len() == n
                &&& forall|j: int| 0 <= j < s.len() ==> ((#[trigger] s[j]).queued <==> j < i)
            },
            Phase::StartingStream => {
                &&& s.len() == n
                &&& forall|j: int| 0 <= j < s.len() ==> (#[trigger] s[j]).queued
            },
            Phase::Streaming => s.len() == n && self.format.len() == 4,
            _ => s.len() == 0,
        }
    }

    /// Whether `e` answers the call that this state waits for.
    pub open spec fn expects(self, e: Event) -> bool {
        starting(self.phase) && (e is Failed || match (self.phase, e) {
            (Phase::SettingFormat, Event::FormatSet(_)) => true,
            (Phase::SettingInterval, Event::IntervalSet(_, _)) => true,
            (Phase::RequestingBuffers, Event::BuffersGranted) => true,
            (Phase::Querying(_), Event::BufferFound { .. }) => true,
            (Phase::Mapping(_, _), Event::BufferMapped) => true,
            (Phase::Queueing(_), Event::BufferQueued) => true,
            (Phase::StartingStream, Event::StreamStarted) => true,
            _ => false,
        })
    }

    /// This state with the given phase.
    pub open spec fn at(self, phase: Phase) -> SessionView {
        SessionView { phase, ..self }
    }

    /// Back to idle with no buffers.
    pub open spec fn rolled_back(self) -> SessionView {
        SessionView { phase: Phase::Idle, slots: Seq::empty(), ..self }
    }

    /// The next state and the next call, when `e` answers the call that this
    /// state waits for.
    pub open spec fn step(self, e: Event) -> (SessionView, Action) {
        let n = self.plan.nbuffers;
        match (self.phase, e) {
            (_, Event::Failed(code)) => (self.rolled_back(), Action::Fail(Error::Io(code))),
            (Phase::SettingFormat, Event::FormatSet(reply)) => match format_outcome(
                self.plan.request,
                reply,
            ) {
                Ok(_) => (
                    self.at(Phase::SettingInterval),
                    Action::SetInterval(self.plan.interval.0, self.plan.interval.1),
                ),
                Err(err) => (self.rolled_back(), Action::Fail(err)),
            },
            (Phase::SettingInterval, Event::IntervalSet(num, den)) => if interval_honoured(
                self.plan.interval,
                (num, den),
            ) {
                (self.at(Phase::RequestingBuffers), Action::RequestBuffers(n))
            } else {
                (self.rolled_back(), Action::Fail(Error::BadInterval))
            },
            (Phase::RequestingBuffers, Event::BuffersGranted) => if n == 0 {
                (self.at(Phase::StartingStream), Action::StartStream)
            } else {
                (self.at(Phase::Querying(0)), Action::QueryBuffer(0))
            },
            (Phase::Querying(i), Event::BufferFound { length, offset }) => (
                self.at(Phase::Mapping(i, length)),
                Action::MapBuffer { index: i, length, offset },
            ),
            (Phase::Mapping(i, length), Event::BufferMapped) => {
                let grown = SessionView {
                    slots: self.slots.push(Slot { capacity: length, queued: false }),
                    ..self
                };
                if i + 1 < n {
                    (grown.at(Phase::Querying((i + 1) as u32)), Action::QueryBuffer((i + 1) as u32))
                } else {
                    (grown.at(Phase::Queueing(0)), Action::QueueBuffer(0))
                }
            },
            (Phase::Queueing(i), Event::BufferQueued) => {
                let queued = SessionView {
                    slots: self.slots.update(
                        i as int,
                        Slot { capacity: self.slots[i as int].capacity, queued: true },
                    ),
                    ..self
                };
                if i + 1 < n {
                    (queued.at(Phase::Queueing((i + 1) as u32)), Action::QueueBuffer((i + 1) as u32))
                } else {
                    (queued.at(Phase::StartingStream), Action::StartStream)
                }
            },
            _ => (
                SessionView {
                    phase: Phase::Streaming,
                    resolution: (self.plan.request.width, self.plan.request.height),
                    format: self.plan.format@,
                    ..self
                },
                Action::Done,
            ),
        }
    }
}

impl View for Session {
    type V = SessionView;

    closed spec fn view(&self) -> SessionView {
        SessionView {
            phase: self.phase,
            plan: self.plan,
            resolution: self.resolution,
            format: self.format@,
            slots: self.pool@,
        }
    }
}

/// The view of a lease.
pub struct LeaseView {
    pub index: u32,
    /// The bytes that the caller may read.
    pub length: u32,
    /// The capacity of the buffer's mapped region.
    pub capacity: u32,
    pub resolution: (u32, u32),
    pub format: Seq<u8>,
}

impl View for Lease {
    type V = LeaseView;

    closed spec fn view(&self) -> LeaseView {
        LeaseView {
            index: self.index,
            length: self.length,
            capacity: self.capacity,
            resolution: self.resolution,
            format: self.format@,
        }
    }
}

impl Lease {
    /// A lease never reaches past its region.
    #[verifier::type_invariant]
    spec fn within_region(self) -> bool {
        self.length <= self.capacity
    }

    /// The index of the leased buffer.
    pub fn index(&self) -> (r: u32)
        ensures
            r == self@.index,
    {
        self.index
    }

    /// The number of bytes that the driver wrote for this frame: never more
    /// than the capacity of the buffer's region.
    pub fn len(&self) -> (r: u32)
        ensures
            r == self@.length,
            r <= self@.capacity,
    {
        proof {
            use_type_invariant(self);
        }
        self.length
    }

    /// The capacity of the buffer's mapped region.
    pub fn capacity(&self) -> (r: u32)
        ensures
            r == self@.capacity,
    {
        self.capacity
    }

    /// Width and height of the frame.
    pub fn resolution(&self) -> (r: (u32, u32))
        ensures
            r == self@.resolution,
    {
        self.resolution
    }

    /// FourCC of the frame's format.
    pub fn format(&self) -> (r: [u8; 4])
        ensures
            r@ == self@.format,
    {
        self.format
    }
}

/// The plan that a configuration with a four-byte format code asks for.
pub open spec fn plans(plan: Plan, config: &Config) -> bool {
    &&& plan.request == FormatRequest {
        width: config.resolution.0,
        height: config.resolution.1,
        fourcc: fourcc_value(config.format@) as u32,
        field: config.field.spec_code(),
    }
    &&& plan.format@ == config.format@
    &&& plan.interval == config.interval
    &&& plan.nbuffers == config.nbuffers
}

impl SessionView {
    /// Buffer `i` handed to the caller.
    pub open spec fn leased(self, i: int) -> SessionView {
        SessionView {
            slots: self.slots.update(i, Slot { capacity: self.slots[i].capacity, queued: false }),
            ..self
        }
    }

    /// Buffer `i` given back: queued again while the session streams; after
    /// `stop` there is no pool left to mark.
    pub open spec fn returned(self, i: int) -> SessionView {
        if self.phase == Phase::Streaming && 0 <= i < self.slots.len() {
            SessionView {
                slots: self.slots.update(i, Slot { capacity: self.slots[i].capacity, queued: true }),
                ..self
            }
        } else {
            self
        }
    }

    /// Streaming halted and the pool released.
    pub open spec fn stopped(self) -> SessionView {
        SessionView { phase: Phase::Stopped, slots: Seq::empty(), ..self }
    }
}

impl Session {
    /// A session of a freshly opened device.
    pub fn new() -> (r: Session)
        ensures
            r@.phase == Phase::Idle,
            r@.slots == Seq::<Slot>::empty(),
            r@.resolution == (0u32, 0u32),
            r@.format == seq![0u8, 0u8, 0u8, 0u8],
            r@.wf(),
    {
        let request = FormatRequest { width: 0, height: 0, fourcc: 0, field: 0 };
        let format: [u8; 4] = [0, 0, 0, 0];
        assert(format@ =~= seq![0u8, 0u8, 0u8, 0u8]);
        Session {
            phase: Phase::Idle,
            plan: Plan { request, format: [0, 0, 0, 0], interval: (0, 0), nbuffers: 0 },
            resolution: (0, 0),
            format,
            pool: BufferPool::new(),
        }
    }

    pub fn phase(&self) -> (r: Phase)
        ensures
            r == self@.phase,
    {
        self.phase
    }

    /// The buffer pool.
    pub fn pool(&self) -> (r: &BufferPool)
        ensures
            r@ == self@.slots,
    {
        &self.pool
    }

    /// The accepted resolution.
    pub fn resolution(&self) -> (r: (u32, u32))
        ensures
            r == self@.resolution,
    {
        self.resolution
    }

    /// The accepted pixel-format code.
    pub fn format(&self) -> (r: [u8; 4])
        ensures
            r@ == self@.format,
    {
        self.format
    }

    /// Whether tearing the session down must stop streaming first.
    pub fn needs_stop(&self) -> (r: bool)
        ensures
            r == (self@.phase == Phase::Streaming),
    {
        self.phase == Phase::Streaming
    }

    /// Whether `e` answers the device call that the session waits for.
    pub fn expects(&self, e: &Event) -> (r: bool)
        ensures
            r == self@.expects(*e),
    {
        let waiting = match self.phase {
            Phase::SettingFormat | Phase::SettingInterval | Phase::RequestingBuffers
            | Phase::Querying(_) | Phase::Mapping(_, _) | Phase::Queueing(_)
            | Phase::StartingStream => true,
            _ => false,
        };
        waiting && (matches!(e, Event::Failed(_)) || match (self.phase, *e) {
            (Phase::SettingFormat, Event::FormatSet(_)) => true,
            (Phase::SettingInterval, Event::IntervalSet(_, _)) => true,
            (Phase::RequestingBuffers, Event::BuffersGranted) => true,
            (Phase::Querying(_), Event::BufferFound { .. }) => true,
            (Phase::Mapping(_, _), Event::BufferMapped) => true,
            (Phase::Queueing(_), Event::BufferQueued) => true,
            (Phase::StartingStream, Event::StreamStarted) => true,
            _ => false,
        })
    }

    /// Begins `start`: a format code that is not four bytes long is refused
    /// before any device call; otherwise the plan is fixed and the format is
    /// the first thing to set.
    pub fn begin_start(&mut self, config: &Config) -> (r: Action)
        requires
            old(self)@.phase == Phase::Idle,
            old(self)@.wf(),
        ensures
            final(self)@.wf(),
            config.format@.len() != 4 ==> r == Action::Fail(Error::BadFormat) && final(self)@
                == old(self)@,
            config.format@.len() == 4 ==> {
                &&& plans(final(self)@.plan, config)
                &&& final(self)@ == (SessionView {
                    phase: Phase::SettingFormat,
                    plan: final(self)@.plan,
                    ..old(self)@
                })
                &&& r == Action::SetFormat(final(self)@.plan.request)
            },
    {
        if config.format.len() != 4 {
            return Action::Fail(Error::BadFormat);
        }
        let request = FormatRequest {
            width: config.resolution.0,
            height: config.resolution.1,
            fourcc: FormatInfo::fourcc(config.format),
            field: config.field.code(),
        };
        let format = [config.format[0], config.format[1], config.format[2], config.format[3]];
        assert(format@ =~= config.format@);
        self.plan = Plan { request, format, interval: config.interval, nbuffers: config.nbuffers };
        self.phase = Phase::SettingFormat;
        Action::SetFormat(request)
    }

    /// Takes the answer to the last device call of `start` and names the next
    /// one. Any failed call, and any value that the device did not honour,
    /// ends `start` with the session idle and no buffers left.
    pub fn step(&mut self, e: Event) -> (r: Action)
        requires
            old(self)@.wf(),
            old(self)@.expects(e),
        ensures
            (final(self)@, r) == old(self)@.step(e),
            final(self)@.wf(),
    {
        let n = self.plan.nbuffers;
        match (self.phase, e) {
            (_, Event::Failed(code)) => {
                self.pool.release();
                self.phase = Phase::Idle;
                Action::Fail(Error::Io(code))
            },
            (Phase::SettingFormat, Event::FormatSet(reply)) => {
                match format_verdict(&self.plan.request, &reply) {
                    Ok(_) => {
                        self.phase = Phase::SettingInterval;
                        Action::SetInterval(self.plan.interval.0, self.plan.interval.1)
                    },
                    Err(err) => {
                        self.pool.release();
                        self.phase = Phase::Idle;
                        Action::Fail(err)
                    },
                }
            },
            (Phase::SettingInterval, Event::IntervalSet(num, den)) => {
                match interval_verdict(self.plan.interval, (num, den)) {
                    Ok(_) => {
                        self.phase = Phase::RequestingBuffers;
                        Action::RequestBuffers(n)
                    },
                    Err(_) => {
                        self.pool.release();
                        self.phase = Phase::Idle;
                        Action::Fail(Error::BadInterval)
                    },
                }
            },
            (Phase::RequestingBuffers, Event::BuffersGranted) => {
                if n == 0 {
                    self.phase = Phase::StartingStream;
                    Action::StartStream
                } else {
                    self.phase = Phase::Querying(0);
                    Action::QueryBuffer(0)
                }
            },
            (Phase::Querying(i), Event::BufferFound { length, offset }) => {
                self.phase = Phase::Mapping(i, length);
                Action::MapBuffer { index: i, length, offset }
            },
            (Phase::Mapping(i, length), Event::BufferMapped) => {
                self.pool.add_region(length);
                if i + 1 < n {
                    self.phase = Phase::Querying(i + 1);
                    Action::QueryBuffer(i + 1)
                } else {
                    self.phase = Phase::Queueing(0);
                    Action::QueueBuffer(0)
                }
            },
            (Phase::Queueing(i), Event::BufferQueued) => {
                self.pool.set_queued(i as usize, true);
                if i + 1 < n {
                    self.phase = Phase::Queueing(i + 1);
                    Action::QueueBuffer(i + 1)
                } else {
                    self.phase = Phase::StartingStream;
                    Action::StartStream
                }
            },
            _ => {
                self.resolution = (self.plan.request.width, self.plan.request.height);
                self.format = self.plan.format;
                self.phase = Phase::Streaming;
                Action::Done
            },
        }
    }

    /// Takes the buffer that the driver handed back, with the bytes it wrote,
    /// and leases it to the caller. A lease reaches no further than the
    /// buffer's region. Only a queued buffer can come back from the driver,
    /// so a buffer already leased is not leased again before its release.
    pub fn lease(&mut self, index: u32, used: u32) -> (r: Lease)
        requires
            old(self)@.phase == Phase::Streaming,
            old(self)@.wf(),
            index < old(self)@.slots.len(),
            old(self)@.slots[index as int].queued,
        ensures
            final(self)@ == old(self)@.leased(index as int),
            final(self)@.wf(),
            r@.index == index,
            r@.capacity == old(self)@.slots[index as int].capacity,
            r@.length == (if used <= r@.capacity { used } else { r@.capacity }),
            r@.length <= r@.capacity,
            r@.resolution == old(self)@.resolution,
            r@.format == old(self)@.format,
    {
        let capacity = self.pool.slot(index as usize).capacity;
        self.pool.set_queued(index as usize, false);
        let length = if used <= capacity { used } else { capacity };
        Lease { index, length, capacity, resolution: self.resolution, format: self.format }
    }

    /// Ends a lease and names the buffer to queue to the driver again. The
    /// pool marks it queued while the session streams; after `stop` the pool
    /// is left as it is.
    pub fn release(&mut self, lease: Lease) -> (r: u32)
        requires
            old(self)@.wf(),
        ensures
            r == lease@.index,
            final(self)@ == old(self)@.returned(lease@.index as int),
            final(self)@.wf(),
    {
        let index = lease.index;
        if self.phase == Phase::Streaming && (index as usize) < self.pool.len() {
            self.pool.set_queued(index as usize, true);
        }
        index
    }

    /// Ends streaming, given the outcome of the device's stop request: the
    /// pool is released whether or not that request succeeded.
    pub fn stop(&mut self, outcome: Result<(), i32>) -> (r: Result<(), Error>)
        requires
            old(self)@.phase == Phase::Streaming,
            old(self)@.wf(),
        ensures
            final(self)@ == old(self)@.stopped(),
            final(self)@.wf(),
            r == (match outcome {
                Ok(_) => Ok(()),
                Err(code) => Err(Error::Io(code)),
            }),
    {
        self.pool.release();
        self.phase = Phase::Stopped;
        match outcome {
            Ok(_) => Ok(()),
            Err(code) => Err(Error::Io(code)),
        }
    }
}

/// The state and the last action after answering each call of `events` in turn.
pub open spec fn run(v: SessionView, events: Seq<Event>) -> (SessionView, Action)
    decreases events.len(),
{
    if events.len() <= 1 {
        v.step(events[0])
    } else {
        run(v.step(events[0]).0, events.drop_first())
    }
}

/// Each of `events` answers the call that the state before it waits for.
pub open spec fn follows(v: SessionView, events: Seq<Event>) -> bool
    decreases events.len(),
{
    events.len() == 0 || (v.expects(events[0]) && follows(v.step(events[0]).0, events.drop_first()))
}

proof fn lemma_step_keeps_plan(v: SessionView, e: Event)
    requires
        v.wf(),
        v.expects(e),
    ensures
        v.step(e).0.wf(),
        v.step(e).0.plan == v.plan,
        v.step(e).1 == Action::Done ==> {
            &&& v.step(e).0.phase == Phase::Streaming
            &&& v.step(e).0.resolution == (v.plan.request.width, v.plan.request.height)
            &&& v.step(e).0.format == v.plan.format@
            &&& v.step(e).0.slots.len() == v.plan.nbuffers
        },
        v.step(e).1 is Fail ==> v.step(e).0.phase == Phase::Idle && v.step(e).0.slots.len() == 0,
        v.step(e).1 != Action::Done ==> v.step(e).0.resolution == v.resolution
            && v.step(e).0.format == v.format,
        !(v.step(e).1 is Fail) && v.step(e).1 != Action::Done ==> starting(v.step(e).0.phase),
{
    let w = v.step(e).0;
    match (v.phase, e) {
        (Phase::Mapping(i, length), Event::BufferMapped) => {
            assert forall|j: int| 0 <= j < w.slots.len() implies !(#[trigger] w.slots[j]).queued by {
                if j < v.slots.len() {
                    assert(w.slots[j] == v.slots[j]);
                }
            }
        },
        _ => {},
    }
}

/// Whatever the device answers during `start`, the call ends in one of two
/// ways: streaming, with the resolution and the pixel format that the
/// configuration asked for and one region for each requested buffer; or a
/// specific error, with the session idle, no regions left, and the recorded
/// resolution and format as they were.
pub proof fn lemma_start_outcome(config: &Config, v: SessionView, events: Seq<Event>)
    requires
        v.wf(),
        starting(v.phase),
        plans(v.plan, config),
        events.len() >= 1,
        follows(v, events),
    ensures
        run(v, events).1 == Action::Done ==> {
            &&& run(v, events).0.phase == Phase::Streaming
            &&& run(v, events).0.resolution == config.resolution
            &&& run(v, events).0.format == config.format@
            &&& run(v, events).0.slots.len() == config.nbuffers
        },
        run(v, events).1 is Fail ==> {
            &&& run(v, events).0.phase == Phase::Idle
            &&& run(v, events).0.slots.len() == 0
            &&& run(v, events).0.resolution == v.resolution
            &&& run(v, events).0.format == v.format
        },
    decreases events.len(),
{
    lemma_step_keeps_plan(v, events[0]);
    if events.len() > 1 {
        let w = v.step(events[0]);
        let rest = events.drop_first();
        assert(follows(w.0, rest));
        assert(w.0.expects(rest[0]));
        lemma_start_outcome(config, w.0, rest);
    }
}

/// A leased buffer is out of the queue, so it cannot be leased a second time;
/// given back, it is queued again and the pool is as it was before the lease:
/// no index is lost and none is queued twice.
pub proof fn lemma_lease_round_trip(v: SessionView, i: int)
    requires
        v.wf(),
        v.phase == Phase::Streaming,
        0 <= i < v.slots.len(),
        v.slots[i].queued,
    ensures
        !v.leased(i).slots[i].queued,
        v.leased(i).returned(i) == v,
        v.leased(i).returned(i).slots[i].queued,
{
    assert(v.leased(i).returned(i).slots =~= v.slots);
}

/// Once stopped, a session holds no region, and tearing it down does not
/// stop it again.
pub proof fn lemma_stop_then_drop(v: SessionView)
    requires
        v.wf(),
        v.phase == Phase::Streaming,
    ensures
        v.stopped().wf(),
        v.stopped().phase != Phase::Streaming,
        v.stopped().slots.len() == 0,
{
}

/// The call that a state of `start` waits to have answered.
pub open spec fn pending(v: SessionView) -> Action {
    match v.phase {
        Phase::SettingFormat => Action::SetFormat(v.plan.request),
        Phase::SettingInterval => Action::SetInterval(v.plan.interval.0, v.plan.interval.1),
        Phase::RequestingBuffers => Action::RequestBuffers(v.plan.nbuffers),
        Phase::Querying(i) => Action::QueryBuffer(i),
        Phase::Mapping(i, length) => Action::MapBuffer { index: i, length, offset: 0 },
        Phase::Queueing(i) => Action::QueueBuffer(i),
        _ => Action::StartStream,
    }
}

/// The answer of a device that honours every request and reports each buffer
/// with `length` bytes.
pub open spec fn honoured(a: Action, length: u32) -> Event {
    match a {
        Action::SetFormat(req) => Event::FormatSet(req),
        Action::SetInterval(num, den) => Event::IntervalSet(num, den),
        Action::RequestBuffers(_) => Event::BuffersGranted,
        Action::QueryBuffer(_) => Event::BufferFound { length, offset: 0 },
        Action::MapBuffer { .. } => Event::BufferMapped,
        Action::QueueBuffer(_) => Event::BufferQueued,
        _ => Event::StreamStarted,
    }
}

/// The state after at most `fuel` answers of such a device, stopping when
/// `start` ends.
pub open spec fn drive(v: SessionView, length: u32, fuel: nat) -> SessionView
    decreases fuel,
{
    if fuel == 0 || !starting(v.phase) {
        v
    } else {
        drive(v.step(honoured(pending(v), length)).0, length, (fuel - 1) as nat)
    }
}

/// The number of answers that a state of `start` still waits for, where the
/// device honours every request.
pub open spec fn remaining(v: SessionView) -> int {
    let n = v.plan.nbuffers as int;
    match v.phase {
        Phase::SettingFormat => 4 + 3 * n,
        Phase::SettingInterval => 3 + 3 * n,
        Phase::RequestingBuffers => 2 + 3 * n,
        Phase::Querying(i) => 2 * (n - i) + n + 1,
        Phase::Mapping(i, _) => 2 * (n - i) + n,
        Phase::Queueing(i) => n - i + 1,
        _ => 1,
    }
}

proof fn lemma_drive(v: SessionView, length: u32, fuel: nat)
    requires
        v.wf(),
        starting(v.phase),
        v.plan.interval.0 != 0,
        v.plan.interval.1 != 0,
        fuel >= remaining(v),
    ensures
        drive(v, length, fuel).phase == Phase::Streaming,
        drive(v, length, fuel).resolution == (v.plan.request.width, v.plan.request.height),
        drive(v, length, fuel).format == v.plan.format@,
        drive(v, length, fuel).slots.len() == v.plan.nbuffers,
        forall|j: int|
            0 <= j < drive(v, length, fuel).slots.len() ==> (#[trigger] drive(
                v,
                length,
                fuel,
            ).slots[j]).queued,
    decreases fuel,
{
    let e = honoured(pending(v), length);
    let w = v.step(e).0;
    assert(v.expects(e));
    lemma_step_keeps_plan(v, e);
    let (num, den) = v.plan.interval;
    assert(num as int * den as int != 0) by (nonlinear_arith)
        requires
            num != 0,
            den != 0,
    ;
    assert(den as int * num as int == num as int * den as int) by (nonlinear_arith);
    assert(!(v.step(e).1 is Fail));
    assert(drive(v, length, fuel) == drive(w, length, (fuel - 1) as nat));
    if v.step(e).1 == Action::Done {
        assert(drive(w, length, (fuel - 1) as nat) == w);
    } else {
        assert(remaining(w) == remaining(v) - 1);
        lemma_drive(w, length, (fuel - 1) as nat);
    }
}

/// Where the device honours every request, `start` succeeds: after as many
/// answers as its calls take, the session streams with the requested
/// resolution and pixel format, one queued region for each requested buffer.
pub proof fn lemma_start_succeeds(config: &Config, v: SessionView, length: u32)
    requires
        v.wf(),
        v.phase == Phase::SettingFormat,
        plans(v.plan, config),
        config.interval.0 != 0,
        config.interval.1 != 0,
    ensures
        ({
            let w = drive(v, length, (4 + 3 * config.nbuffers) as nat);
            &&& w.phase == Phase::Streaming
            &&& w.resolution == config.resolution
            &&& w.format == config.format@
            &&& w.slots.len() == config.nbuffers
            &&& forall|j: int| 0 <= j < w.slots.len() ==> (#[trigger] w.slots[j]).queued
        }),
{
    lemma_drive(v, length, (4 + 3 * config.nbuffers) as nat);
}

} // verus!

//! The flow loop: the engine that, once the handshake is done, shuttles
//! packets between the tunnel device and the connection and ends the
//! session cleanly on either side's request.
//!
//! The engine does no I/O. It is a state machine: `handle_flow` takes what
//! just happened and says what to do next. Its driver waits on the three
//! descriptors, reads and writes as it is told, and reports back:
//!
//! | action          | the driver ...                                   | and reports |
//! |-----------------|--------------------------------------------------|-------------|
//! | `Poll`          | waits for readiness of the three descriptors     | `Ready`     |
//! | `ConsumeSignal` | drains the pending shutdown notification         | `Done`      |
//! | `Receive(n)`    | reads exactly `n` bytes from the connection      | `Received`  |
//! | `Deliver(p)`    | writes `p` to the tunnel device                  | `Done`      |
//! | `Fetch`         | reads one packet from the tunnel device          | `Packet`    |
//! | `Send(b)`       | writes `b` to the connection and flushes         | `Done`      |
//! | `Finish(o)`     | leaves the loop with outcome `o`                 |             |
//!
//! A new engine waits for the report of a first `Poll`.
use crate::wire::{
    be32,
    be32_value,
    be64,
    data_frame,
    decode_frame,
    encode_data_frame,
    encode_exit_frame,
    exit_frame,
    lemma_be32_round_trip,
    lemma_data_frame_layout,
    put_bytes,
    spec_decode,
    Decoded,
    DecodedView,
    WireError,
    DATA_FRAME,
    DATA_HEADER_LEN,
    EXIT_FRAME,
    EXIT_NORMAL,
    MAX_PAYLOAD,
    TAG_LEN,
};
use vstd::prelude::*;

verus! {

/// How a session ended gracefully.
#[derive(Debug, Clone, Copy, PartialEq, Eq, Structural)]
pub enum Outcome {
    /// This side was asked to shut down and has told the peer.
    LocalExit,
    /// The peer has said that it shuts down.
    RemoteExit,
}

/// The states of a session.
#[derive(Debug, Clone, Copy, PartialEq, Eq, Structural)]
pub enum FlowState {
    /// Packets flow.
    Running,
    /// A local shutdown request was seen; the exit frame is on its way out.
    LocalShutdown,
    /// The peer's exit frame is coming in.
    RemoteShutdown,
    /// The session is over.
    Closed,
}

/// The three descriptors the loop waits on.
#[derive(Debug, Clone, Copy, PartialEq, Eq, Structural)]
pub enum Descriptor {
    /// The read end of the shutdown notification channel.
    Shutdown,
    /// The connection to the peer.
    Tcp,
    /// The tunnel device.
    Tun,
}

/// Why a session ended in failure. Each of these is fatal to the session.
#[derive(Debug, Clone, Copy, PartialEq, Eq, Structural)]
pub enum FlowError {
    /// The readiness wait came back with no descriptor ready.
    NonPositivePoll(i32),
    /// The readiness wait reported flags it should not for this descriptor.
    UnknownReadiness(Descriptor),
    /// The inbound stream cannot be read as frames, or a packet from the
    /// device does not fit a frame.
    Wire(WireError),
    /// The tunnel device handed out an empty packet.
    EmptyPacket,
    /// The report does not answer the action that was due.
    UnexpectedEvent,
}

/// What handling one packet came to.
#[derive(Debug, Clone, Copy, PartialEq, Eq, Structural)]
pub enum Status {
    /// The packet was passed on; the session goes on.
    Continue,
    /// The peer has ended the session.
    ExitOk,
    /// The inbound frame is not all there: so many more bytes belong to it.
    NeedMore(usize),
}

/// What the engine waits for.
#[derive(Debug, Clone, Copy, PartialEq, Eq, Structural)]
pub enum Stage {
    /// For a readiness report.
    Polling,
    /// For the shutdown notification to be consumed.
    Draining,
    /// For the exit frame to be sent.
    Closing,
    /// For `need` more bytes of the inbound frame.
    Receiving { need: usize },
    /// For a payload to be written to the device. `drained` says whether the
    /// connection's read buffer was empty once the frame had been read.
    Delivering { drained: bool },
    /// For a packet from the device.
    Fetching,
    /// For a data frame to be sent.
    Sending,
    /// For nothing: the session is over.
    Closed,
}

/// What the driver reports.
#[derive(Debug, PartialEq, Eq)]
pub enum FlowEvent {
    /// The readiness wait returned `count`, and these are the three
    /// descriptors' flags: whether any event is pending, or `None` where
    /// the flags cannot be read.
    Ready { count: i32, shutdown: Option<bool>, tcp: Option<bool>, tun: Option<bool> },
    /// These bytes were read from the connection; `drained` says whether
    /// its read buffer is empty now.
    Received { bytes: Vec<u8>, drained: bool },
    /// This packet was read from the device.
    Packet { bytes: Vec<u8> },
    /// The action that was due has been carried out.
    Done,
}

/// The mathematical value of a `FlowEvent`.
pub enum FlowEventView {
    Ready { count: i32, shutdown: Option<bool>, tcp: Option<bool>, tun: Option<bool> },
    Received { bytes: Seq<u8>, drained: bool },
    Packet { bytes: Seq<u8> },
    Done,
}

impl View for FlowEvent {
    type V = FlowEventView;

    open spec fn view(&self) -> FlowEventView {
        match self {
            FlowEvent::Ready { count, shutdown, tcp, tun } => FlowEventView::Ready {
                count: *count,
                shutdown: *shutdown,
                tcp: *tcp,
                tun: *tun,
            },
            FlowEvent::Received { bytes, drained } => FlowEventView::Received {
                bytes: bytes@,
                drained: *drained,
            },
            FlowEvent::Packet { bytes } => FlowEventView::Packet { bytes: bytes@ },
            FlowEvent::Done => FlowEventView::Done,
        }
    }
}

/// What the driver is to do next.
#[derive(Debug, PartialEq, Eq)]
pub enum FlowAction {
    /// Wait until one of the three descriptors is ready.
    Poll,
    /// Drain the pending shutdown notification.
    ConsumeSignal,
    /// Read exactly so many bytes from the connection.
    Receive(usize),
    /// Write these bytes to the tunnel device.
    Deliver(Vec<u8>),
    /// Read one packet from the tunnel device.
    Fetch,
    /// Write these bytes to the connection and flush.
    Send(Vec<u8>),
    /// Leave the loop.
    Finish(Outcome),
}

/// The mathematical value of a `FlowAction`.
pub enum FlowActionView {
    Poll,
    ConsumeSignal,
    Receive(usize),
    Deliver(Seq<u8>),
    Fetch,
    Send(Seq<u8>),
    Finish(Outcome),
}

impl View for FlowAction {
    type V = FlowActionView;

    open spec fn view(&self) -> FlowActionView {
        match self {
            FlowAction::Poll => FlowActionView::Poll,
            FlowAction::ConsumeSignal => FlowActionView::ConsumeSignal,
            FlowAction::Receive(n) => FlowActionView::Receive(*n),
            FlowAction::Deliver(bytes) => FlowActionView::Deliver(bytes@),
            FlowAction::Fetch => FlowActionView::Fetch,
            FlowAction::Send(bytes) => FlowActionView::Send(bytes@),
            FlowAction::Finish(outcome) => FlowActionView::Finish(*outcome),
        }
    }
}

/// The engine of one session.
#[derive(Debug)]
pub struct FlowLoop {
    stage: Stage,
    counter: u64,
    inbox: Vec<u8>,
    tun_ready: bool,
}

/// The mathematical value of a `FlowLoop`.
pub struct FlowView {
    /// What the engine waits for.
    pub stage: Stage,
    /// The number of data frames sent so far.
    pub counter: u64,
    /// The bytes of the inbound frame that have been read so far.
    pub inbox: Seq<u8>,
    /// Whether the last readiness report named the tunnel device.
    pub tun_ready: bool,
}

impl View for FlowLoop {
    type V = FlowView;

    closed spec fn view(&self) -> FlowView {
        FlowView {
            stage: self.stage,
            counter: self.counter,
            inbox: self.inbox@,
            tun_ready: self.tun_ready,
        }
    }
}

/// One step's result: the next state, and the action or the failure.
pub type Step = (FlowView, Result<FlowActionView, FlowError>);

impl FlowView {
    /// The engine at the start of a session.
    pub open spec fn initial() -> FlowView {
        FlowView { stage: Stage::Polling, counter: 0, inbox: Seq::empty(), tun_ready: false }
    }

    /// What holds of every engine: while a frame is being received, the
    /// bytes read so far are a frame's beginning and the bytes asked for
    /// are what the decoder wants next; at all other times no byte is held.
    pub open spec fn wf(self) -> bool {
        match self.stage {
            Stage::Receiving { need } => spec_decode(self.inbox) == Ok::<DecodedView, WireError>(
                DecodedView::NeedMore(need),
            ),
            _ => self.inbox.len() == 0,
        }
    }

    /// The session's state.
    pub open spec fn state(self) -> FlowState {
        match self.stage {
            Stage::Closed => FlowState::Closed,
            Stage::Draining | Stage::Closing => FlowState::LocalShutdown,
            Stage::Receiving { need } => if self.inbox.len() >= TAG_LEN && be32_value(
                self.inbox.subrange(0, 4),
            ) == EXIT_FRAME {
                FlowState::RemoteShutdown
            } else {
                FlowState::Running
            },
            _ => FlowState::Running,
        }
    }

    /// This engine moved on to `stage`, holding no inbound bytes.
    pub open spec fn at(self, stage: Stage) -> FlowView {
        FlowView { stage, inbox: Seq::empty(), ..self }
    }

    /// The step that ends the session in failure.
    pub open spec fn fail(self, error: FlowError) -> Step {
        (self.at(Stage::Closed), Err(error))
    }

    /// The step on a readiness report. A shutdown request goes before all
    /// else; then the connection is served; the device is served after it,
    /// or at once where the connection has nothing.
    pub open spec fn on_ready(
        self,
        count: i32,
        shutdown: Option<bool>,
        tcp: Option<bool>,
        tun: Option<bool>,
    ) -> Step {
        if count <= 0 {
            self.fail(FlowError::NonPositivePoll(count))
        } else if shutdown is None {
            self.fail(FlowError::UnknownReadiness(Descriptor::Shutdown))
        } else if shutdown == Some(true) {
            (self.at(Stage::Draining), Ok(FlowActionView::ConsumeSignal))
        } else if tun is None {
            self.fail(FlowError::UnknownReadiness(Descriptor::Tun))
        } else if tcp is None {
            self.fail(FlowError::UnknownReadiness(Descriptor::Tcp))
        } else {
            let next = FlowView { tun_ready: tun == Some(true), ..self };
            if tcp == Some(true) {
                (next.at(Stage::Receiving { need: TAG_LEN }), Ok(FlowActionView::Receive(TAG_LEN)))
            } else if tun == Some(true) {
                (next.at(Stage::Fetching), Ok(FlowActionView::Fetch))
            } else {
                (next.at(Stage::Polling), Ok(FlowActionView::Poll))
            }
        }
    }

    /// The step on bytes from the connection, while `need` bytes were due.
    pub open spec fn on_received(self, need: usize, bytes: Seq<u8>, drained: bool) -> Step {
        if bytes.len() != need {
            self.fail(FlowError::UnexpectedEvent)
        } else {
            match spec_remote2local(self.inbox + bytes) {
                Err(e) => self.fail(e),
                Ok((Status::NeedMore(n), _)) => (
                    FlowView { stage: Stage::Receiving { need: n }, inbox: self.inbox + bytes, ..self },
                    Ok(FlowActionView::Receive(n)),
                ),
                Ok((Status::Continue, payload)) => (
                    self.at(Stage::Delivering { drained }),
                    Ok(FlowActionView::Deliver(payload)),
                ),
                Ok((Status::ExitOk, _)) => (
                    self.at(Stage::Closed),
                    Ok(FlowActionView::Finish(Outcome::RemoteExit)),
                ),
            }
        }
    }

    /// The step once a payload has been written to the device: on with the
    /// next frame while the connection's read buffer holds more; else one
    /// packet from the device, where it was ready; else the next wait.
    pub open spec fn after_delivery(self, drained: bool) -> Step {
        if !drained {
            (self.at(Stage::Receiving { need: TAG_LEN }), Ok(FlowActionView::Receive(TAG_LEN)))
        } else if self.tun_ready {
            (self.at(Stage::Fetching), Ok(FlowActionView::Fetch))
        } else {
            (self.at(Stage::Polling), Ok(FlowActionView::Poll))
        }
    }

    /// The step on a packet from the device.
    pub open spec fn on_packet(self, bytes: Seq<u8>) -> Step
        recommends
            self.counter < u64::MAX,
    {
        match spec_local2remote(bytes, self.counter) {
            Err(e) => self.fail(e),
            Ok((counter, frame)) => (
                FlowView { counter, ..self.at(Stage::Sending) },
                Ok(FlowActionView::Send(frame)),
            ),
        }
    }

    /// The engine's transition function.
    pub open spec fn step(self, event: FlowEventView) -> Step
        recommends
            self.counter < u64::MAX,
    {
        match (self.stage, event) {
            (Stage::Polling, FlowEventView::Ready { count, shutdown, tcp, tun }) => self.on_ready(
                count,
                shutdown,
                tcp,
                tun,
            ),
            (Stage::Draining, FlowEventView::Done) => (
                self.at(Stage::Closing),
                Ok(FlowActionView::Send(exit_frame(EXIT_NORMAL))),
            ),
            (Stage::Closing, FlowEventView::Done) => (
                self.at(Stage::Closed),
                Ok(FlowActionView::Finish(Outcome::LocalExit)),
            ),
            (Stage::Receiving { need }, FlowEventView::Received { bytes, drained }) => self.on_received(
                need,
                bytes,
                drained,
            ),
            (Stage::Delivering { drained }, FlowEventView::Done) => self.after_delivery(drained),
            (Stage::Fetching, FlowEventView::Packet { bytes }) => self.on_packet(bytes),
            (Stage::Sending, FlowEventView::Done) => (
                self.at(Stage::Polling),
                Ok(FlowActionView::Poll),
            ),
            _ => self.fail(FlowError::UnexpectedEvent),
        }
    }

    /// The engine's course over a run of reports: the state it ends in and
    /// what it answered to each report, in order.
    pub open spec fn run(self, events: Seq<FlowEventView>) -> (FlowView, Seq<
        Result<FlowActionView, FlowError>,
    >)
        decreases events.len(),
    {
        if events.len() == 0 {
            (self, Seq::empty())
        } else {
            let (next, answer) = self.step(events[0]);
            let (last, answers) = next.run(events.drop_first());
            (last, seq![answer] + answers)
        }
    }
}

/// What an inbound frame comes to: the status, and the payload to write to
/// the device.
pub open spec fn spec_remote2local(received: Seq<u8>) -> Result<(Status, Seq<u8>), FlowError> {
    match spec_decode(received) {
        Err(e) => Err(FlowError::Wire(e)),
        Ok(DecodedView::NeedMore(n)) => Ok((Status::NeedMore(n), Seq::empty())),
        Ok(DecodedView::Data { payload }) => Ok((Status::Continue, payload)),
        Ok(DecodedView::Exit) => Ok((Status::ExitOk, Seq::empty())),
    }
}

/// What a packet from the device comes to: the counter after it, and the
/// frame to send.
pub open spec fn spec_local2remote(packet: Seq<u8>, counter: u64) -> Result<(u64, Seq<u8>), FlowError>
    recommends
        counter < u64::MAX,
{
    if packet.len() == 0 {
        Err(FlowError::EmptyPacket)
    } else if packet.len() > MAX_PAYLOAD {
        Err(FlowError::Wire(WireError::Oversized(packet.len() as usize)))
    } else {
        Ok(((counter + 1) as u64, data_frame(packet, (counter + 1) as u64)))
    }
}

/// Whether an exec answer of the engine is the one its model gives.
pub open spec fn answer_as(
    r: Result<FlowAction, FlowError>,
    model: Result<FlowActionView, FlowError>,
) -> bool {
    match r {
        Ok(action) => model == Ok::<FlowActionView, FlowError>(action@),
        Err(e) => model == Err::<FlowActionView, FlowError>(e),
    }
}

/// Appends an exit frame that gives `exit_reason` to `stream`.
pub fn send_exit_pkt(stream: &mut Vec<u8>, exit_reason: u32)
    ensures
        final(stream)@ == old(stream)@ + exit_frame(exit_reason),
{
    encode_exit_frame(stream, exit_reason);
}

/// Passes one packet from the device on to the peer: counts it and appends
/// its data frame to `stream`.
///
/// An empty packet and one too long for a frame are refused; `stream` and
/// `counter` are then left as they were.
pub fn handle_local2remote_pkt(packet: &[u8], stream: &mut Vec<u8>, counter: &mut u64) -> (r: Result<
    Status,
    FlowError,
>)
    requires
        *old(counter) < u64::MAX,
    ensures
        match spec_local2remote(packet@, *old(counter)) {
            Ok((count, frame)) => r == Ok::<Status, FlowError>(Status::Continue) && *final(counter)
                == count && final(stream)@ == old(stream)@ + frame,
            Err(e) => r == Err::<Status, FlowError>(e) && *final(counter) == *old(counter)
                && final(stream)@ == old(stream)@,
        },
{
    if packet.len() == 0 {
        return Err(FlowError::EmptyPacket);
    }
    if packet.len() > MAX_PAYLOAD {
        return Err(FlowError::Wire(WireError::Oversized(packet.len())));
    }
    *counter = *counter + 1;
    match encode_data_frame(stream, packet, *counter) {
        Ok(_) => Ok(Status::Continue),
        Err(e) => Err(FlowError::Wire(e)),
    }
}

/// Takes one frame from the peer: `received` holds the frame's bytes as far
/// as they have been read. A data frame's payload is appended to `tun`; an
/// exit frame ends the session; a frame that is not all there asks for
/// more. On failure, and where nothing is to be written, `tun` is left as it
/// was.
pub fn handle_remote2local_pkt(received: &[u8], tun: &mut Vec<u8>) -> (r: Result<Status, FlowError>)
    ensures
        match spec_remote2local(received@) {
            Ok((status, payload)) => r == Ok::<Status, FlowError>(status) && final(tun)@ == old(
                tun,
            )@ + payload,
            Err(e) => r == Err::<Status, FlowError>(e) && final(tun)@ == old(tun)@,
        },
{
    match decode_frame(received) {
        Ok(Decoded::Data { payload }) => {
            put_bytes(tun, payload.as_slice());
            Ok(Status::Continue)
        },
        Ok(Decoded::Exit) => {
            assert(tun@ =~= old(tun)@ + Seq::<u8>::empty());
            Ok(Status::ExitOk)
        },
        Ok(Decoded::NeedMore(n)) => {
            assert(tun@ =~= old(tun)@ + Seq::<u8>::empty());
            Ok(Status::NeedMore(n))
        },
        Err(e) => Err(FlowError::Wire(e)),
    }
}

impl FlowLoop {
    /// An engine at the start of a session: it waits for the report of a
    /// first `Poll`, and has sent nothing yet.
    pub fn new() -> (flow: FlowLoop)
        ensures
            flow@ == FlowView::initial(),
            flow@.wf(),
    {
        FlowLoop { stage: Stage::Polling, counter: 0, inbox: Vec::new(), tun_ready: false }
    }

    /// What the engine waits for.
    pub fn stage(&self) -> (stage: Stage)
        ensures
            stage == self@.stage,
    {
        self.stage
    }

    /// The number of data frames sent so far.
    pub fn counter(&self) -> (counter: u64)
        ensures
            counter == self@.counter,
    {
        self.counter
    }

    /// The session's state.
    pub fn state(&self) -> (state: FlowState)
        ensures
            state == self@.state(),
    {
        match self.stage {
            Stage::Closed => FlowState::Closed,
            Stage::Draining | Stage::Closing => FlowState::LocalShutdown,
            Stage::Receiving { need } => {
                if self.inbox.len() >= TAG_LEN {
                    let tag: u32 = crate::wire::get_u32(self.inbox.as_slice(), 0);
                    if tag == EXIT_FRAME {
                        FlowState::RemoteShutdown
                    } else {
                        FlowState::Running
                    }
                } else {
                    FlowState::Running
                }
            },
            _ => FlowState::Running,
        }
    }

    fn close(&mut self, error: FlowError) -> (r: Result<FlowAction, FlowError>)
        ensures
            final(self)@ == old(self)@.at(Stage::Closed),
            r == Err::<FlowAction, FlowError>(error),
    {
        self.stage = Stage::Closed;
        self.inbox = Vec::new();
        Err(error)
    }

    fn enter(&mut self, stage: Stage)
        ensures
            final(self)@ == old(self)@.at(stage),
    {
        self.stage = stage;
        self.inbox = Vec::new();
    }

    fn on_ready(
        &mut self,
        count: i32,
        shutdown: Option<bool>,
        tcp: Option<bool>,
        tun: Option<bool>,
    ) -> (r: Result<FlowAction, FlowError>)
        ensures
            final(self)@ == old(self)@.on_ready(count, shutdown, tcp, tun).0,
            answer_as(r, old(self)@.on_ready(count, shutdown, tcp, tun).1),
    {
        if count <= 0 {
            return self.close(FlowError::NonPositivePoll(count));
        }
        let shutdown_ready: bool = match shutdown {
            Some(flag) => flag,
            None => {
                return self.close(FlowError::UnknownReadiness(Descriptor::Shutdown));
            },
        };
        if shutdown_ready {
            self.enter(Stage::Draining);
            return Ok(FlowAction::ConsumeSignal);
        }
        let tun_ready: bool = match tun {
            Some(flag) => flag,
            None => {
                return self.close(FlowError::UnknownReadiness(Descriptor::Tun));
            },
        };
        let tcp_ready: bool = match tcp {
            Some(flag) => flag,
            None => {
                return self.close(FlowError::UnknownReadiness(Descriptor::Tcp));
            },
        };
        self.tun_ready = tun_ready;
        if tcp_ready {
            self.enter(Stage::Receiving { need: TAG_LEN });
            Ok(FlowAction::Receive(TAG_LEN))
        } else if tun_ready {
            self.enter(Stage::Fetching);
            Ok(FlowAction::Fetch)
        } else {
            self.enter(Stage::Polling);
            Ok(FlowAction::Poll)
        }
    }

    fn on_received(&mut self, need: usize, bytes: Vec<u8>, drained: bool) -> (r: Result<
        FlowAction,
        FlowError,
    >)
        ensures
            final(self)@ == old(self)@.on_received(need, bytes@, drained).0,
            answer_as(r, old(self)@.on_received(need, bytes@, drained).1),
    {
        if bytes.len() != need {
            return self.close(FlowError::UnexpectedEvent);
        }
        put_bytes(&mut self.inbox, bytes.as_slice());
        let mut payload: Vec<u8> = Vec::new();
        match handle_remote2local_pkt(self.inbox.as_slice(), &mut payload) {
            Ok(Status::NeedMore(n)) => {
                self.stage = Stage::Receiving { need: n };
                Ok(FlowAction::Receive(n))
            },
            Ok(Status::Continue) => {
                assert(payload@ =~= spec_remote2local(old(self)@.inbox + bytes@).unwrap().1);
                self.enter(Stage::Delivering { drained });
                Ok(FlowAction::Deliver(payload))
            },
            Ok(Status::ExitOk) => {
                self.enter(Stage::Closed);
                Ok(FlowAction::Finish(Outcome::RemoteExit))
            },
            Err(e) => self.close(e),
        }
    }

    fn after_delivery(&mut self, drained: bool) -> (r: Result<FlowAction, FlowError>)
        ensures
            final(self)@ == old(self)@.after_delivery(drained).0,
            answer_as(r, old(self)@.after_delivery(drained).1),
    {
        if !drained {
            self.enter(Stage::Receiving { need: TAG_LEN });
            Ok(FlowAction::Receive(TAG_LEN))
        } else if self.tun_ready {
            self.enter(Stage::Fetching);
            Ok(FlowAction::Fetch)
        } else {
            self.enter(Stage::Polling);
            Ok(FlowAction::Poll)
        }
    }

    fn on_packet(&mut self, bytes: Vec<u8>) -> (r: Result<FlowAction, FlowError>)
        requires
            old(self)@.counter < u64::MAX,
        ensures
            final(self)@ == old(self)@.on_packet(bytes@).0,
            answer_as(r, old(self)@.on_packet(bytes@).1),
    {
        let mut frame: Vec<u8> = Vec::new();
        let mut counter: u64 = self.counter;
        match handle_local2remote_pkt(bytes.as_slice(), &mut frame, &mut counter) {
            Ok(_) => {
                assert(frame@ =~= spec_local2remote(bytes@, old(self)@.counter).unwrap().1);
                self.enter(Stage::Sending);
                self.counter = counter;
                Ok(FlowAction::Send(frame))
            },
            Err(e) => self.close(e),
        }
    }
}

/// The engine's step: takes the driver's report of what happened and says
/// what to do next.
///
/// A report that does not answer the action that was due, a frame that
/// cannot be read and a packet that cannot be sent end the session in
/// failure; so does every report after the end.
pub fn handle_flow(flow: &mut FlowLoop, event: FlowEvent) -> (r: Result<FlowAction, FlowError>)
    requires
        old(flow)@.counter < u64::MAX,
    ensures
        final(flow)@ == old(flow)@.step(event@).0,
        answer_as(r, old(flow)@.step(event@).1),
        old(flow)@.wf() ==> final(flow)@.wf(),
{
    let stage: Stage = flow.stage;
    match (stage, event) {
        (Stage::Polling, FlowEvent::Ready { count, shutdown, tcp, tun }) => flow.on_ready(
            count,
            shutdown,
            tcp,
            tun,
        ),
        (Stage::Draining, FlowEvent::Done) => {
            let mut frame: Vec<u8> = Vec::new();
            send_exit_pkt(&mut frame, EXIT_NORMAL);
            assert(frame@ =~= exit_frame(EXIT_NORMAL));
            flow.enter(Stage::Closing);
            Ok(FlowAction::Send(frame))
        },
        (Stage::Closing, FlowEvent::Done) => {
            flow.enter(Stage::Closed);
            Ok(FlowAction::Finish(Outcome::LocalExit))
        },
        (Stage::Receiving { need }, FlowEvent::Received { bytes, drained }) => flow.on_received(
            need,
            bytes,
            drained,
        ),
        (Stage::Delivering { drained }, FlowEvent::Done) => flow.after_delivery(drained),
        (Stage::Fetching, FlowEvent::Packet { bytes }) => flow.on_packet(bytes),
        (Stage::Sending, FlowEvent::Done) => {
            flow.enter(Stage::Polling);
            Ok(FlowAction::Poll)
        },
        _ => flow.close(FlowError::UnexpectedEvent),
    }
}

/// The reports that reading one inbound data frame and writing its payload
/// out give rise to, while the frame sits in the connection's read buffer:
/// the type tag, the rest of the header, the payload where there is one,
/// and the write's completion. The read buffer is empty after the frame's
/// last byte where `last` is set, and not before.
pub open spec fn inbound_events(payload: Seq<u8>, counter: u64, last: bool) -> Seq<FlowEventView> {
    let tag = FlowEventView::Received { bytes: be32(DATA_FRAME), drained: false };
    let header = FlowEventView::Received {
        bytes: be32(payload.len() as u32) + be64(counter),
        drained: last && payload.len() == 0,
    };
    if payload.len() == 0 {
        seq![tag, header, FlowEventView::Done]
    } else {
        seq![tag, header, FlowEventView::Received { bytes: payload, drained: last }, FlowEventView::Done]
    }
}

/// The engine's answers to `inbound_events`: it asks for the rest of the
/// header, for the payload where there is one, hands the payload out for
/// the device, and goes on with `next`.
pub open spec fn inbound_answers(payload: Seq<u8>, next: FlowActionView) -> Seq<
    Result<FlowActionView, FlowError>,
> {
    let header = Ok::<FlowActionView, FlowError>(
        FlowActionView::Receive((DATA_HEADER_LEN - TAG_LEN) as usize),
    );
    let deliver = Ok::<FlowActionView, FlowError>(FlowActionView::Deliver(payload));
    if payload.len() == 0 {
        seq![header, deliver, Ok(next)]
    } else {
        seq![header, Ok(FlowActionView::Receive(payload.len() as usize)), deliver, Ok(next)]
    }
}

/// The reports of a burst: these data frames, each a payload and a counter,
/// all sitting in the connection's read buffer, read and written out one
/// after the other.
pub open spec fn burst_events(frames: Seq<(Seq<u8>, u64)>) -> Seq<FlowEventView>
    decreases frames.len(),
{
    if frames.len() == 0 {
        Seq::empty()
    } else {
        inbound_events(frames[0].0, frames[0].1, frames.len() == 1) + burst_events(
            frames.drop_first(),
        )
    }
}

/// The engine's answers to a burst that ends in `after`: every frame's
/// payload goes to the device, in the order of arrival, and nothing else
/// happens in between.
pub open spec fn burst_answers(frames: Seq<(Seq<u8>, u64)>, after: FlowActionView) -> Seq<
    Result<FlowActionView, FlowError>,
>
    decreases frames.len(),
{
    if frames.len() == 0 {
        Seq::empty()
    } else {
        inbound_answers(
            frames[0].0,
            if frames.len() == 1 {
                after
            } else {
                FlowActionView::Receive(TAG_LEN)
            },
        ) + burst_answers(frames.drop_first(), after)
    }
}

/// Every step keeps the engine well-formed.
pub proof fn lemma_step_preserves_wf(s: FlowView, event: FlowEventView)
    requires
        s.wf(),
    ensures
        s.step(event).0.wf(),
{
}

/// The counter counts the data frames handed out for sending: a step adds
/// one to it where it answers a packet from the device with a frame, and
/// leaves it alone everywhere else. The frame carries the new count.
pub proof fn lemma_counter_counts_frames(s: FlowView, event: FlowEventView)
    requires
        s.counter < u64::MAX,
    ensures
        ({
            let (next, answer) = s.step(event);
            if s.stage == Stage::Fetching && answer is Ok {
                &&& next.counter == s.counter + 1
                &&& event is Packet
                &&& answer == Ok::<FlowActionView, FlowError>(
                    FlowActionView::Send(data_frame(event->Packet_bytes, next.counter)),
                )
            } else {
                next.counter == s.counter
            }
        }),
{
}

/// No partial frame ever goes out. Whatever the engine hands out for
/// sending is one whole frame: the exit frame with the normal reason, once
/// the shutdown notification has been consumed, or the data frame of the
/// packet that has just come from the device.
pub proof fn lemma_sends_whole_frames(s: FlowView, event: FlowEventView)
    requires
        s.counter < u64::MAX,
    ensures
        match s.step(event).1 {
            Ok(FlowActionView::Send(bytes)) => {
                ||| s.stage == Stage::Draining && bytes == exit_frame(EXIT_NORMAL)
                ||| {
                    &&& s.stage == Stage::Fetching
                    &&& event is Packet
                    &&& 0 < event->Packet_bytes.len() <= MAX_PAYLOAD
                    &&& bytes == data_frame(event->Packet_bytes, (s.counter + 1) as u64)
                }
            },
            _ => true,
        },
{
}

/// An inbound data frame comes to its payload, exactly, whatever counter it
/// carries: the counter has no part in what is written to the device.
pub proof fn lemma_inbound_data_frame(payload: Seq<u8>, counter: u64)
    requires
        payload.len() <= MAX_PAYLOAD,
    ensures
        spec_remote2local(data_frame(payload, counter)) == Ok::<(Status, Seq<u8>), FlowError>(
            (Status::Continue, payload),
        ),
{
    crate::wire::lemma_data_frame_round_trip(payload, counter, Seq::empty());
    assert(data_frame(payload, counter) + Seq::<u8>::empty() =~= data_frame(payload, counter));
}

/// An inbound exit frame ends the session where its reason is the normal
/// one, and is a failure where it is any other.
pub proof fn lemma_inbound_exit_frame(reason: u32)
    ensures
        reason == EXIT_NORMAL ==> spec_remote2local(exit_frame(reason)) == Ok::<
            (Status, Seq<u8>),
            FlowError,
        >((Status::ExitOk, Seq::empty())),
        reason != EXIT_NORMAL ==> spec_remote2local(exit_frame(reason)) == Err::<
            (Status, Seq<u8>),
            FlowError,
        >(FlowError::Wire(WireError::UnknownExitReason(reason))),
{
    crate::wire::lemma_exit_frame_round_trip(reason, Seq::empty());
    assert(exit_frame(reason) + Seq::<u8>::empty() =~= exit_frame(reason));
}

/// What a packet from the device is sent as reads back, at the other end, as
/// that packet.
pub proof fn lemma_outbound_reads_back(packet: Seq<u8>, counter: u64)
    requires
        0 < packet.len() <= MAX_PAYLOAD,
        counter < u64::MAX,
    ensures
        spec_local2remote(packet, counter) is Ok,
        spec_remote2local(spec_local2remote(packet, counter).unwrap().1) == Ok::<
            (Status, Seq<u8>),
            FlowError,
        >((Status::Continue, packet)),
{
    lemma_inbound_data_frame(packet, (counter + 1) as u64);
}

/// A run over two stretches of reports is the run over the first, followed
/// from where that ends by the run over the second.
pub proof fn lemma_run_concat(s: FlowView, first: Seq<FlowEventView>, second: Seq<FlowEventView>)
    ensures
        s.run(first + second).0 == s.run(first).0.run(second).0,
        s.run(first + second).1 == s.run(first).1 + s.run(first).0.run(second).1,
    decreases first.len(),
{
    if first.len() == 0 {
        assert(first + second =~= second);
        assert(s.run(first).1 + s.run(first).0.run(second).1 =~= s.run(second).1);
    } else {
        let next = s.step(first[0]).0;
        assert((first + second)[0] == first[0]);
        assert((first + second).drop_first() =~= first.drop_first() + second);
        lemma_run_concat(next, first.drop_first(), second);
        assert(s.run(first + second).1 =~= s.run(first).1 + s.run(first).0.run(second).1);
    }
}

/// Shutdown goes first. Where a readiness report names the shutdown
/// descriptor, the engine has the notification consumed, sends the exit
/// frame and leaves, whatever the report says of the connection and the
/// device: it reads no frame and moves no packet before it ends.
pub proof fn lemma_shutdown_has_priority(
    s: FlowView,
    count: i32,
    tcp: Option<bool>,
    tun: Option<bool>,
)
    requires
        s.stage == Stage::Polling,
        count > 0,
    ensures
        s.run(
            seq![
                FlowEventView::Ready { count, shutdown: Some(true), tcp, tun },
                FlowEventView::Done,
                FlowEventView::Done,
            ],
        ) == (
            s.at(Stage::Closed),
            seq![
                Ok::<FlowActionView, FlowError>(FlowActionView::ConsumeSignal),
                Ok::<FlowActionView, FlowError>(FlowActionView::Send(exit_frame(EXIT_NORMAL))),
                Ok::<FlowActionView, FlowError>(FlowActionView::Finish(Outcome::LocalExit)),
            ],
        ),
{
    let events = seq![
        FlowEventView::Ready { count, shutdown: Some(true), tcp, tun },
        FlowEventView::Done,
        FlowEventView::Done,
    ];
    reveal_with_fuel(FlowView::run, 4);
    assert(events.drop_first() =~= seq![FlowEventView::Done, FlowEventView::Done]);
    assert(events.drop_first().drop_first() =~= seq![FlowEventView::Done]);
    assert(events.drop_first().drop_first().drop_first() =~= Seq::<FlowEventView>::empty());
    assert(s.run(events).1 =~= seq![
        Ok::<FlowActionView, FlowError>(FlowActionView::ConsumeSignal),
        Ok::<FlowActionView, FlowError>(FlowActionView::Send(exit_frame(EXIT_NORMAL))),
        Ok::<FlowActionView, FlowError>(FlowActionView::Finish(Outcome::LocalExit)),
    ]);
}

/// Once a shutdown is under way, on either side, no packet moves any more:
/// the session stays out of the running state, and all the engine still
/// does is send the exit frame and leave.
pub proof fn lemma_shutdown_is_terminal(s: FlowView, event: FlowEventView)
    requires
        s.wf(),
        s.state() != FlowState::Running,
    ensures
        s.step(event).0.state() != FlowState::Running,
        match s.step(event).1 {
            Ok(FlowActionView::Send(bytes)) => bytes == exit_frame(EXIT_NORMAL),
            Ok(FlowActionView::Finish(_)) => true,
            Ok(_) => false,
            Err(_) => true,
        },
{
    match (s.stage, event) {
        (Stage::Receiving { need }, FlowEventView::Received { bytes, drained }) => {
            if bytes.len() == need {
                assert((s.inbox + bytes).subrange(0, 4) =~= s.inbox.subrange(0, 4));
                assert((s.inbox + bytes).len() >= crate::wire::EXIT_FRAME_LEN);
            }
        },
        _ => {},
    }
}

/// A run over one report and then others is that report's step, followed
/// from where it leads by the run over the others.
pub proof fn lemma_run_cons(s: FlowView, event: FlowEventView, rest: Seq<FlowEventView>)
    ensures
        s.run(seq![event] + rest) == (
            s.step(event).0.run(rest).0,
            seq![s.step(event).1] + s.step(event).0.run(rest).1,
        ),
{
    let events = seq![event] + rest;
    assert(events[0] == event);
    assert(events.drop_first() =~= rest);
}

/// The first read of a data frame: on its type tag the engine asks for the
/// rest of the header.
pub proof fn lemma_inbound_tag(s: FlowView, drained: bool)
    requires
        s.stage == (Stage::Receiving { need: TAG_LEN }),
        s.inbox.len() == 0,
    ensures
        s.step(FlowEventView::Received { bytes: be32(DATA_FRAME), drained }) == (
            FlowView {
                stage: Stage::Receiving { need: (DATA_HEADER_LEN - TAG_LEN) as usize },
                inbox: be32(DATA_FRAME),
                ..s
            },
            Ok::<FlowActionView, FlowError>(
                FlowActionView::Receive((DATA_HEADER_LEN - TAG_LEN) as usize),
            ),
        ),
{
    let tag = be32(DATA_FRAME);
    lemma_be32_round_trip(DATA_FRAME);
    assert(s.inbox + tag =~= tag);
    assert(tag.subrange(0, 4) =~= tag);
}

/// The second read of a data frame: on the rest of its header the engine
/// asks for the payload, or hands out the empty payload where there is none.
pub proof fn lemma_inbound_header(s: FlowView, payload: Seq<u8>, counter: u64, drained: bool)
    requires
        s.stage == (Stage::Receiving { need: (DATA_HEADER_LEN - TAG_LEN) as usize }),
        s.inbox == be32(DATA_FRAME),
        payload.len() <= MAX_PAYLOAD,
    ensures
        s.step(
            FlowEventView::Received { bytes: be32(payload.len() as u32) + be64(counter), drained },
        ) == if payload.len() == 0 {
            (
                s.at(Stage::Delivering { drained }),
                Ok::<FlowActionView, FlowError>(FlowActionView::Deliver(payload)),
            )
        } else {
            (
                FlowView {
                    stage: Stage::Receiving { need: payload.len() as usize },
                    inbox: data_frame(payload, counter).subrange(0, DATA_HEADER_LEN as int),
                    ..s
                },
                Ok::<FlowActionView, FlowError>(FlowActionView::Receive(payload.len() as usize)),
            )
        },
{
    let frame = data_frame(payload, counter);
    let header = be32(payload.len() as u32) + be64(counter);
    assert(s.inbox + header =~= frame.subrange(0, DATA_HEADER_LEN as int));
    if payload.len() == 0 {
        assert(frame.subrange(0, DATA_HEADER_LEN as int) =~= frame);
        assert(payload =~= Seq::<u8>::empty());
        lemma_inbound_data_frame(payload, counter);
    } else {
        crate::wire::lemma_data_frame_prefix(payload, counter, DATA_HEADER_LEN as int);
    }
}

/// The third read of a data frame: on its payload the engine hands the
/// payload out for the device.
pub proof fn lemma_inbound_payload(s: FlowView, payload: Seq<u8>, counter: u64, drained: bool)
    requires
        s.stage == (Stage::Receiving { need: payload.len() as usize }),
        s.inbox == data_frame(payload, counter).subrange(0, DATA_HEADER_LEN as int),
        0 < payload.len() <= MAX_PAYLOAD,
    ensures
        s.step(FlowEventView::Received { bytes: payload, drained }) == (
            s.at(Stage::Delivering { drained }),
            Ok::<FlowActionView, FlowError>(FlowActionView::Deliver(payload)),
        ),
{
    let frame = data_frame(payload, counter);
    lemma_data_frame_layout(payload, counter);
    assert(s.inbox + payload =~= frame);
    lemma_inbound_data_frame(payload, counter);
}

/// Reading one buffered data frame: from the start of a frame the engine
/// asks for the header, then for the payload, hands the payload out for the
/// device, and then goes on as `after_delivery` says.
pub proof fn lemma_inbound_frame(s: FlowView, payload: Seq<u8>, counter: u64, last: bool)
    requires
        s.stage == (Stage::Receiving { need: TAG_LEN }),
        s.inbox.len() == 0,
        payload.len() <= MAX_PAYLOAD,
    ensures
        s.after_delivery(last).1 is Ok,
        s.run(inbound_events(payload, counter, last)) == (
            s.after_delivery(last).0,
            inbound_answers(payload, s.after_delivery(last).1.unwrap()),
        ),
{
    let events = inbound_events(payload, counter, last);
    let next = s.after_delivery(last).1.unwrap();
    let none = Seq::<FlowEventView>::empty();
    let done = FlowEventView::Done;
    let s1 = s.step(events[0]).0;
    let s2 = s1.step(events[1]).0;
    lemma_inbound_tag(s, false);
    lemma_inbound_header(s1, payload, counter, last && payload.len() == 0);
    if payload.len() == 0 {
        let s3 = s2.step(done).0;
        assert(s2 == s.at(Stage::Delivering { drained: last }));
        assert(s2.step(done) == s.after_delivery(last));
        assert(s3.run(none) == (s3, Seq::<Result<FlowActionView, FlowError>>::empty()));
        lemma_run_cons(s2, done, none);
        lemma_run_cons(s1, events[1], seq![done] + none);
        lemma_run_cons(s, events[0], seq![events[1]] + (seq![done] + none));
        assert(events =~= seq![events[0]] + (seq![events[1]] + (seq![done] + none)));
        assert(s.run(events).1 =~= inbound_answers(payload, next));
    } else {
        let s3 = s2.step(events[2]).0;
        let s4 = s3.step(done).0;
        lemma_inbound_payload(s2, payload, counter, last);
        assert(s3 == s.at(Stage::Delivering { drained: last }));
        assert(s3.step(done) == s.after_delivery(last));
        assert(s4.run(none) == (s4, Seq::<Result<FlowActionView, FlowError>>::empty()));
        lemma_run_cons(s3, done, none);
        lemma_run_cons(s2, events[2], seq![done] + none);
        lemma_run_cons(s1, events[1], seq![events[2]] + (seq![done] + none));
        lemma_run_cons(s, events[0], seq![events[1]] + (seq![events[2]] + (seq![done] + none)));
        assert(events =~= seq![events[0]] + (seq![events[1]] + (seq![events[2]] + (seq![done]
            + none))));
        assert(s.run(events).1 =~= inbound_answers(payload, next));
    }
}

/// Reading a burst: from the start of a frame, with a run of data frames in
/// the connection's read buffer, the engine passes every payload to the
/// device in the order of arrival, without waiting in between, and then
/// goes on as after the last delivery.
pub proof fn lemma_burst_drained(s: FlowView, frames: Seq<(Seq<u8>, u64)>)
    requires
        s.stage == (Stage::Receiving { need: TAG_LEN }),
        s.inbox.len() == 0,
        frames.len() > 0,
        forall|i: int| 0 <= i < frames.len() ==> (#[trigger] frames[i]).0.len() <= MAX_PAYLOAD,
    ensures
        s.after_delivery(true).1 is Ok,
        s.run(burst_events(frames)) == (
            s.after_delivery(true).0,
            burst_answers(frames, s.after_delivery(true).1.unwrap()),
        ),
    decreases frames.len(),
{
    let last = frames.len() == 1;
    let head = inbound_events(frames[0].0, frames[0].1, last);
    let tail = frames.drop_first();
    let after = s.after_delivery(true).1.unwrap();
    lemma_inbound_frame(s, frames[0].0, frames[0].1, last);
    lemma_run_concat(s, head, burst_events(tail));
    if last {
        assert(burst_events(tail) =~= Seq::<FlowEventView>::empty());
        assert(burst_answers(tail, after) =~= Seq::<Result<FlowActionView, FlowError>>::empty());
        assert(s.run(burst_events(frames)).1 =~= burst_answers(frames, after));
    } else {
        assert(s.after_delivery(false).0 == s) by {
            assert(s.inbox =~= Seq::<u8>::empty());
        }
        assert forall|i: int| 0 <= i < tail.len() implies (#[trigger] tail[i]).0.len()
            <= MAX_PAYLOAD by {
            assert(tail[i] == frames[i + 1]);
        }
        lemma_burst_drained(s, tail);
        assert(s.run(burst_events(frames)).1 =~= burst_answers(frames, after));
    }
}

/// Fairness. Let a readiness report name both the connection and the device,
/// with a run of data frames in the connection's read buffer and one packet
/// waiting at the device. Then every one of the frames is passed to the
/// device, in the order of arrival, before the packet is sent; and the
/// packet is sent, counted, before the engine waits again.
pub proof fn lemma_burst_then_outbound(
    s: FlowView,
    count: i32,
    frames: Seq<(Seq<u8>, u64)>,
    packet: Seq<u8>,
)
    requires
        s.stage == Stage::Polling,
        s.counter < u64::MAX,
        count > 0,
        frames.len() > 0,
        forall|i: int| 0 <= i < frames.len() ==> (#[trigger] frames[i]).0.len() <= MAX_PAYLOAD,
        0 < packet.len() <= MAX_PAYLOAD,
    ensures
        s.run(
            seq![
                FlowEventView::Ready {
                    count,
                    shutdown: Some(false),
                    tcp: Some(true),
                    tun: Some(true),
                },
            ] + burst_events(frames) + seq![
                FlowEventView::Packet { bytes: packet },
                FlowEventView::Done,
            ],
        ) == (
            FlowView {
                stage: Stage::Polling,
                counter: (s.counter + 1) as u64,
                inbox: Seq::empty(),
                tun_ready: true,
            },
            seq![Ok::<FlowActionView, FlowError>(FlowActionView::Receive(TAG_LEN))] + burst_answers(
                frames,
                FlowActionView::Fetch,
            ) + seq![
                Ok::<FlowActionView, FlowError>(
                    FlowActionView::Send(data_frame(packet, (s.counter + 1) as u64)),
                ),
                Ok::<FlowActionView, FlowError>(FlowActionView::Poll),
            ],
        ),
{
    let ready = seq![
        FlowEventView::Ready { count, shutdown: Some(false), tcp: Some(true), tun: Some(true) },
    ];
    let outbound = seq![FlowEventView::Packet { bytes: packet }, FlowEventView::Done];
    let burst = burst_events(frames);
    reveal_with_fuel(FlowView::run, 3);
    let s1 = s.step(ready[0]).0;
    assert(ready.drop_first() =~= Seq::<FlowEventView>::empty());
    assert(s.run(ready).0 == s1);
    assert(s.run(ready).1 =~= seq![
        Ok::<FlowActionView, FlowError>(FlowActionView::Receive(TAG_LEN)),
    ]);
    lemma_burst_drained(s1, frames);
    let s2 = s1.after_delivery(true).0;
    assert(s2 == s1.at(Stage::Fetching));
    assert(outbound.drop_first() =~= seq![FlowEventView::Done]);
    assert(outbound.drop_first().drop_first() =~= Seq::<FlowEventView>::empty());
    assert(s2.run(outbound).1 =~= seq![
        Ok::<FlowActionView, FlowError>(
            FlowActionView::Send(data_frame(packet, (s.counter + 1) as u64)),
        ),
        Ok::<FlowActionView, FlowError>(FlowActionView::Poll),
    ]);
    lemma_run_concat(s, ready, burst);
    lemma_run_concat(s, ready + burst, outbound);
}

} // verus!

use vstd::prelude::*;
use crate::forward::{append_shard_id, forwarded};
use crate::session::{
    classify, disposition_of, Disposition, Frame, FrameModel, TransportError,
    TransportErrorModel,
};

verus! {

/// An instruction returned by the session's event processor.
#[derive(PartialEq, Eq, Structural, Clone, Copy, Debug)]
pub enum GatewayAction {
    Autoreconnect,
    Identify,
    Reconnect,
    Resume,
}

/// What the session's event processor made of a frame.
#[derive(PartialEq, Eq, Structural, Clone, Copy, Debug)]
pub enum Processing {
    /// The frame does not hold a gateway event.
    Undecodable,
    /// The event was processed and asks for nothing.
    NoAction,
    /// The event was processed and asks for an action.
    Action(GatewayAction),
}

/// What happened on a shard's connection since the worker's last command.
pub enum Event {
    /// The frame stream yielded a frame.
    Received(Frame),
    /// Reading the next frame failed; `resume_token_held` tells whether the
    /// session holds a resume token at that moment.
    Failed { error: TransportError, resume_token_held: bool },
    /// The pending frame was decoded and fed to the event processor.
    Processed(Processing),
    /// The dispatched action's operation (and, for a reconnect or a resume,
    /// taking the new frame stream) succeeded or failed. A failed identify is
    /// transient; a failed reconnect or resume ends the worker.
    Dispatched(bool),
    /// The resume of an exhausted session (and taking the new frame stream)
    /// succeeded or failed.
    Recovered(bool),
}

pub ghost enum EventModel {
    Received(FrameModel),
    Failed { error: TransportErrorModel, resume_token_held: bool },
    Processed(Processing),
    Dispatched(bool),
    Recovered(bool),
}

impl View for Event {
    type V = EventModel;

    open spec fn view(&self) -> EventModel {
        match self {
            Event::Received(f) => EventModel::Received(f@),
            Event::Failed { error, resume_token_held } => EventModel::Failed {
                error: error@,
                resume_token_held: *resume_token_held,
            },
            Event::Processed(p) => EventModel::Processed(*p),
            Event::Dispatched(ok) => EventModel::Dispatched(*ok),
            Event::Recovered(ok) => EventModel::Recovered(*ok),
        }
    }
}

/// What the worker asks of its connection next.
#[derive(Debug)]
pub enum Command {
    /// Await the next frame from the frame stream.
    AwaitFrame,
    /// Decode these frame bytes and feed the event to the event processor.
    Process(Vec<u8>),
    /// Reconnect the session in place and take its new frame stream.
    Autoreconnect,
    /// Send an identify request on the existing session.
    Identify,
    /// Resume the session and take its new frame stream.
    Resume,
    /// Push these bytes to the sink, without waiting, then await the next frame.
    Forward(Vec<u8>),
    /// Resume the exhausted session with its resume token and take its new
    /// frame stream.
    Recover,
    /// Send this shard id on the respawn channel; the worker has ended.
    Respawn(u16),
    /// Nothing: the event was not one the worker was waiting for.
    Idle,
}

pub ghost enum CommandModel {
    AwaitFrame,
    Process(Seq<u8>),
    Autoreconnect,
    Identify,
    Resume,
    Forward(Seq<u8>),
    Recover,
    Respawn(u16),
    Idle,
}

impl View for Command {
    type V = CommandModel;

    open spec fn view(&self) -> CommandModel {
        match self {
            Command::AwaitFrame => CommandModel::AwaitFrame,
            Command::Process(b) => CommandModel::Process(b@),
            Command::Autoreconnect => CommandModel::Autoreconnect,
            Command::Identify => CommandModel::Identify,
            Command::Resume => CommandModel::Resume,
            Command::Forward(b) => CommandModel::Forward(b@),
            Command::Recover => CommandModel::Recover,
            Command::Respawn(id) => CommandModel::Respawn(*id),
            Command::Idle => CommandModel::Idle,
        }
    }
}

/// Where a worker stands in its session.
pub enum Phase {
    /// Waiting for the next frame.
    Receiving,
    /// Waiting for the event processor's verdict on a frame of these bytes.
    Processing(Vec<u8>),
    /// Waiting for the operation of an action; the frame of these bytes is
    /// forwarded once it succeeds.
    Dispatching(GatewayAction, Vec<u8>),
    /// Waiting for the resume of an exhausted session.
    Recovering,
    /// The worker has ended and asked for its respawn.
    Terminated,
}

pub ghost enum PhaseModel {
    Receiving,
    Processing(Seq<u8>),
    Dispatching(GatewayAction, Seq<u8>),
    Recovering,
    Terminated,
}

impl View for Phase {
    type V = PhaseModel;

    open spec fn view(&self) -> PhaseModel {
        match self {
            Phase::Receiving => PhaseModel::Receiving,
            Phase::Processing(b) => PhaseModel::Processing(b@),
            Phase::Dispatching(a, b) => PhaseModel::Dispatching(*a, b@),
            Phase::Recovering => PhaseModel::Recovering,
            Phase::Terminated => PhaseModel::Terminated,
        }
    }
}

/// The decisions of the worker that owns one shard's session.
pub struct ShardWorker {
    shard_id: u16,
    phase: Phase,
}

pub ghost struct WorkerModel {
    pub shard_id: u16,
    pub phase: PhaseModel,
}

impl View for ShardWorker {
    type V = WorkerModel;

    closed spec fn view(&self) -> WorkerModel {
        WorkerModel { shard_id: self.shard_id, phase: self.phase@ }
    }
}

/// The bytes of a data frame: a binary frame's bytes, a text frame's UTF-8.
pub open spec fn frame_bytes(f: FrameModel) -> Seq<u8> {
    match f {
        FrameModel::Binary(b) => b,
        FrameModel::Text(s) => vstd::utf8::encode_utf8(s),
        FrameModel::Ping(b) => b,
        FrameModel::Pong(b) => b,
    }
}

/// The command that a failure to read a frame leads to, in a session that
/// does or does not hold a resume token.
pub open spec fn on_failure(id: u16, e: TransportErrorModel, token: bool) -> (PhaseModel, CommandModel) {
    if disposition_of(e) == Disposition::Continue {
        (PhaseModel::Receiving, CommandModel::AwaitFrame)
    } else if token {
        (PhaseModel::Recovering, CommandModel::Recover)
    } else {
        (PhaseModel::Terminated, CommandModel::Respawn(id))
    }
}

/// One step of the worker: its next phase and command after event `e`.
pub open spec fn next(w: WorkerModel, e: EventModel) -> (PhaseModel, CommandModel) {
    let id = w.shard_id;
    match (w.phase, e) {
        (PhaseModel::Receiving, EventModel::Received(f)) => if crate::session::is_control(f) {
            (PhaseModel::Receiving, CommandModel::AwaitFrame)
        } else {
            (PhaseModel::Processing(frame_bytes(f)), CommandModel::Process(frame_bytes(f)))
        },
        (PhaseModel::Receiving, EventModel::Failed { error, resume_token_held }) => on_failure(
            id,
            error,
            resume_token_held,
        ),
        (PhaseModel::Processing(b), EventModel::Processed(p)) => match p {
            Processing::Undecodable => (PhaseModel::Receiving, CommandModel::AwaitFrame),
            Processing::NoAction => (PhaseModel::Receiving, CommandModel::Forward(forwarded(b, id))),
            Processing::Action(GatewayAction::Autoreconnect) => (
                PhaseModel::Dispatching(GatewayAction::Autoreconnect, b),
                CommandModel::Autoreconnect,
            ),
            Processing::Action(GatewayAction::Identify) => (
                PhaseModel::Dispatching(GatewayAction::Identify, b),
                CommandModel::Identify,
            ),
            Processing::Action(GatewayAction::Resume) => (
                PhaseModel::Dispatching(GatewayAction::Resume, b),
                CommandModel::Resume,
            ),
            Processing::Action(GatewayAction::Reconnect) => (
                PhaseModel::Terminated,
                CommandModel::Respawn(id),
            ),
        },
        (PhaseModel::Dispatching(a, b), EventModel::Dispatched(ok)) => if ok {
            (PhaseModel::Receiving, CommandModel::Forward(forwarded(b, id)))
        } else if a == GatewayAction::Identify {
            (PhaseModel::Receiving, CommandModel::AwaitFrame)
        } else {
            (PhaseModel::Terminated, CommandModel::Respawn(id))
        },
        (PhaseModel::Recovering, EventModel::Recovered(ok)) => if ok {
            (PhaseModel::Receiving, CommandModel::AwaitFrame)
        } else {
            (PhaseModel::Terminated, CommandModel::Respawn(id))
        },
        _ => (w.phase, CommandModel::Idle),
    }
}

/// The worker's states and commands over a sequence of events.
pub open spec fn run(w: WorkerModel, evs: Seq<EventModel>) -> (WorkerModel, Seq<CommandModel>)
    decreases evs.len(),
{
    if evs.len() == 0 {
        (w, Seq::empty())
    } else {
        let (w1, cs) = run(w, evs.drop_last());
        let (p, c) = next(w1, evs.last());
        (WorkerModel { shard_id: w1.shard_id, phase: p }, cs.push(c))
    }
}

/// How many times the commands ask for a respawn.
pub open spec fn respawns(cs: Seq<CommandModel>) -> nat
    decreases cs.len(),
{
    if cs.len() == 0 {
        0
    } else {
        respawns(cs.drop_last()) + if cs.last() is Respawn { 1nat } else { 0nat }
    }
}

/// How many times the commands ask to resume an exhausted session.
pub open spec fn recoveries(cs: Seq<CommandModel>) -> nat
    decreases cs.len(),
{
    if cs.len() == 0 {
        0
    } else {
        recoveries(cs.drop_last()) + if cs.last() is Recover { 1nat } else { 0nat }
    }
}

proof fn lemma_run_facts(w: WorkerModel, evs: Seq<EventModel>)
    requires
        !(w.phase is Terminated),
    ensures
        run(w, evs).0.shard_id == w.shard_id,
        run(w, evs).1.len() == evs.len(),
        respawns(run(w, evs).1) == if run(w, evs).0.phase is Terminated { 1nat } else { 0nat },
        forall|i: int|
            0 <= i < evs.len() && #[trigger] run(w, evs).1[i] is Respawn ==> run(w, evs).1[i]
                == CommandModel::Respawn(w.shard_id),
    decreases evs.len(),
{
    if evs.len() > 0 {
        let prev = evs.drop_last();
        lemma_run_facts(w, prev);
        let (w1, cs) = run(w, prev);
        let (p, c) = next(w1, evs.last());
        assert(run(w, evs).1 == cs.push(c));
        assert(run(w, evs).1.drop_last() =~= cs);
    }
}

/// A worker that starts on a connected session asks for its respawn at most
/// once, exactly when it has ended, and always with its own shard id.
pub proof fn lemma_single_respawn(shard_id: u16, evs: Seq<EventModel>)
    ensures
        ({
            let (w, cs) = run(WorkerModel { shard_id, phase: PhaseModel::Receiving }, evs);
            &&& respawns(cs) <= 1
            &&& respawns(cs) == 1 <==> w.phase is Terminated
            &&& forall|i: int|
                0 <= i < cs.len() && #[trigger] cs[i] is Respawn ==> cs[i] == CommandModel::Respawn(
                    shard_id,
                )
        }),
{
    lemma_run_facts(WorkerModel { shard_id, phase: PhaseModel::Receiving }, evs);
}

/// The payloads that the commands push to the sink, in order.
pub open spec fn forwards(cs: Seq<CommandModel>) -> Seq<Seq<u8>>
    decreases cs.len(),
{
    if cs.len() == 0 {
        Seq::empty()
    } else {
        let rest = forwards(cs.drop_last());
        match cs.last() {
            CommandModel::Forward(b) => rest.push(b),
            _ => rest,
        }
    }
}

/// Whether event `j` is a received data frame.
pub open spec fn is_data_event(evs: Seq<EventModel>, j: int) -> bool {
    0 <= j < evs.len() && evs[j] is Received && !crate::session::is_control(evs[j]->Received_0)
}

/// `fw` are the bytes, each followed by `id` in little-endian order, of the
/// received data frames at the strictly increasing positions `srcs`.
pub open spec fn forwarded_from(evs: Seq<EventModel>, fw: Seq<Seq<u8>>, id: u16, srcs: Seq<int>) -> bool {
    &&& srcs.len() == fw.len()
    &&& forall|k: int, l: int| 0 <= k < l < srcs.len() ==> srcs[k] < srcs[l]
    &&& forall|k: int|
        0 <= k < srcs.len() ==> is_data_event(evs, #[trigger] srcs[k]) && fw[k] == forwarded(
            frame_bytes(evs[srcs[k]]->Received_0),
            id,
        )
}

/// For a run from a fresh worker: the positions of the received frames that
/// were forwarded, in order, and the position of the frame still pending.
spec fn forward_sources(w: WorkerModel, evs: Seq<EventModel>) -> (Seq<int>, int)
    decreases evs.len(),
{
    if evs.len() == 0 {
        (Seq::empty(), -1)
    } else {
        let prev = evs.drop_last();
        let (srcs, pend) = forward_sources(w, prev);
        let w1 = run(w, prev).0;
        let (p, c) = next(w1, evs.last());
        let pend2 = if w1.phase is Receiving && is_data_event(evs, prev.len() as int) {
            prev.len() as int
        } else {
            pend
        };
        (if c is Forward { srcs.push(pend) } else { srcs }, pend2)
    }
}

proof fn lemma_forward_sources(w: WorkerModel, evs: Seq<EventModel>)
    requires
        w.phase is Receiving,
    ensures
        ({
            let (w2, cs) = run(w, evs);
            let (srcs, pend) = forward_sources(w, evs);
            &&& forwards(cs).len() == srcs.len()
            &&& forall|k: int|
                0 <= k < srcs.len() ==> is_data_event(evs, #[trigger] srcs[k]) && forwards(cs)[k]
                    == forwarded(frame_bytes(evs[srcs[k]]->Received_0), w.shard_id)
            &&& forall|k: int, l: int| 0 <= k < l < srcs.len() ==> srcs[k] < srcs[l]
            &&& (w2.phase is Processing || w2.phase is Dispatching) ==> {
                &&& is_data_event(evs, pend)
                &&& (srcs.len() == 0 || srcs.last() < pend)
                &&& frame_bytes(evs[pend]->Received_0) == if w2.phase is Processing {
                    w2.phase->Processing_0
                } else {
                    w2.phase->Dispatching_1
                }
            }
            &&& w2.shard_id == w.shard_id
        }),
    decreases evs.len(),
{
    if evs.len() > 0 {
        let prev = evs.drop_last();
        lemma_forward_sources(w, prev);
        let (w1, cs) = run(w, prev);
        let (srcs, pend) = forward_sources(w, prev);
        let (p, c) = next(w1, evs.last());
        assert(run(w, evs).1 == cs.push(c));
        assert(run(w, evs).1.drop_last() =~= cs);
        assert forall|j: int| is_data_event(prev, j) implies is_data_event(evs, j) && evs[j] == prev[j] by {}
        let last = prev.len() as int;
        assert(evs[last] == evs.last());
    }
}

/// The frames that a worker forwards to the sink are received data frames
/// taken in the order they arrived, each at most once, and each pushed as its
/// bytes followed by the shard id in little-endian order.
pub proof fn lemma_forwards_in_order(shard_id: u16, evs: Seq<EventModel>)
    ensures
        ({
            let cs = run(WorkerModel { shard_id, phase: PhaseModel::Receiving }, evs).1;
            exists|srcs: Seq<int>| #[trigger] forwarded_from(evs, forwards(cs), shard_id, srcs)
        }),
{
    let w = WorkerModel { shard_id, phase: PhaseModel::Receiving };
    lemma_forward_sources(w, evs);
    let srcs = forward_sources(w, evs).0;
    assert(forwarded_from(evs, forwards(run(w, evs).1), shard_id, srcs));
}

/// A worker told to reconnect ends and asks for its respawn exactly once,
/// whatever follows and whether or not its session holds a resume token.
pub proof fn lemma_reconnect_terminates(w: WorkerModel, b: Seq<u8>, evs: Seq<EventModel>)
    requires
        w.phase == PhaseModel::Processing(b),
    ensures
        ({
            let first = seq![EventModel::Processed(Processing::Action(GatewayAction::Reconnect))];
            let (w2, cs) = run(w, first + evs);
            &&& w2.phase is Terminated
            &&& respawns(cs) == 1
            &&& cs[0] == CommandModel::Respawn(w.shard_id)
        }),
    decreases evs.len(),
{
    let first = seq![EventModel::Processed(Processing::Action(GatewayAction::Reconnect))];
    reveal_with_fuel(run, 2);
    reveal_with_fuel(respawns, 2);
    if evs.len() == 0 {
        assert(first + evs =~= first);
        assert(first.drop_last() =~= Seq::<EventModel>::empty());
        assert(run(w, first).1.drop_last() =~= Seq::<CommandModel>::empty());
    } else {
        lemma_reconnect_terminates(w, b, evs.drop_last());
        assert((first + evs).drop_last() =~= first + evs.drop_last());
        assert(run(w, first + evs).1.drop_last() =~= run(w, first + evs.drop_last()).1);
    }
}

/// A worker whose reconnect or resume (or the frame stream that follows it)
/// fails ends and asks for its respawn; a failed identify is transient.
pub proof fn lemma_failed_dispatch(w: WorkerModel, a: GatewayAction, b: Seq<u8>)
    requires
        w.phase == PhaseModel::Dispatching(a, b),
    ensures
        next(w, EventModel::Dispatched(false)) == if a == GatewayAction::Identify {
            (PhaseModel::Receiving, CommandModel::AwaitFrame)
        } else {
            (PhaseModel::Terminated, CommandModel::Respawn(w.shard_id))
        },
{
}

/// A worker whose session is exhausted and holds no resume token ends and
/// asks for its respawn, without trying to resume.
pub proof fn lemma_exhausted_without_token(w: WorkerModel, e: TransportErrorModel)
    requires
        w.phase is Receiving,
        crate::session::exhausts_session(e),
    ensures
        next(w, EventModel::Failed { error: e, resume_token_held: false }) == (
            PhaseModel::Terminated,
            CommandModel::Respawn(w.shard_id),
        ),
{
}

/// A worker whose session is exhausted and holds a resume token tries to
/// resume it exactly once: on success it goes on receiving, with no respawn;
/// on failure it ends and asks for its respawn once.
pub proof fn lemma_exhausted_with_token(w: WorkerModel, e: TransportErrorModel, ok: bool)
    requires
        w.phase is Receiving,
        crate::session::exhausts_session(e),
    ensures
        ({
            let evs = seq![
                EventModel::Failed { error: e, resume_token_held: true },
                EventModel::Recovered(ok),
            ];
            let (w2, cs) = run(w, evs);
            &&& cs[0] == CommandModel::Recover
            &&& recoveries(cs) == 1
            &&& ok ==> w2.phase is Receiving && cs[1] == CommandModel::AwaitFrame && respawns(cs) == 0
            &&& !ok ==> w2.phase is Terminated && cs[1] == CommandModel::Respawn(w.shard_id)
                && respawns(cs) == 1
        }),
{
    let evs = seq![
        EventModel::Failed { error: e, resume_token_held: true },
        EventModel::Recovered(ok),
    ];
    assert(evs.drop_last() =~= seq![EventModel::Failed { error: e, resume_token_held: true }]);
    assert(evs.drop_last().drop_last() =~= Seq::<EventModel>::empty());
    reveal_with_fuel(run, 3);
    reveal_with_fuel(respawns, 3);
    reveal_with_fuel(recoveries, 3);
    let cs = run(w, evs).1;
    assert(cs.drop_last() =~= run(w, evs.drop_last()).1);
    assert(cs.drop_last().drop_last() =~= Seq::<CommandModel>::empty());
}

/// Ping and pong frames reach neither the event processor nor the sink.
pub proof fn lemma_control_frames_dropped(w: WorkerModel, f: FrameModel)
    requires
        crate::session::is_control(f),
    ensures
        !(next(w, EventModel::Received(f)).1 is Process),
        !(next(w, EventModel::Received(f)).1 is Forward),
{
}

/// An oversized frame neither ends the worker nor asks for a respawn: the
/// worker goes on receiving.
pub proof fn lemma_capacity_continues(w: WorkerModel, token: bool)
    requires
        w.phase is Receiving,
    ensures
        next(w, EventModel::Failed { error: TransportErrorModel::Capacity, resume_token_held: token })
            == (PhaseModel::Receiving, CommandModel::AwaitFrame),
{
}

/// A protocol error leads to the reconnect-or-resume decision exactly when
/// its message reports a connection reset without a closing handshake;
/// otherwise the worker goes on receiving.
pub proof fn lemma_protocol_errors(w: WorkerModel, m: Seq<char>, token: bool)
    requires
        w.phase is Receiving,
    ensures
        next(w, EventModel::Failed { error: TransportErrorModel::Protocol(m), resume_token_held: token })
            == if m == crate::session::reset_message() {
            if token {
                (PhaseModel::Recovering, CommandModel::Recover)
            } else {
                (PhaseModel::Terminated, CommandModel::Respawn(w.shard_id))
            }
        } else {
            (PhaseModel::Receiving, CommandModel::AwaitFrame)
        },
{
}

impl ShardWorker {
    /// A worker for shard `shard_id` whose session has just connected.
    pub fn new(shard_id: u16) -> (w: ShardWorker)
        ensures
            w@ == (WorkerModel { shard_id, phase: PhaseModel::Receiving }),
    {
        ShardWorker { shard_id, phase: Phase::Receiving }
    }

    pub fn shard_id(&self) -> (r: u16)
        ensures
            r == self@.shard_id,
    {
        self.shard_id
    }

    /// Whether the worker has ended.
    pub fn is_terminated(&self) -> (r: bool)
        ensures
            r == (self@.phase is Terminated),
    {
        match self.phase {
            Phase::Terminated => true,
            _ => false,
        }
    }

    /// Takes in what happened on the connection and says what to do next.
    pub fn step(&mut self, event: Event) -> (c: Command)
        ensures
            final(self)@.shard_id == old(self)@.shard_id,
            (final(self)@.phase, c@) == next(old(self)@, event@),
    {
        let id = self.shard_id;
        let mut phase = Phase::Terminated;
        core::mem::swap(&mut phase, &mut self.phase);
        match phase {
            Phase::Receiving => match event {
                Event::Received(frame) => match frame {
                    Frame::Binary(bytes) => {
                        let copy = bytes.clone();
                        self.phase = Phase::Processing(bytes);
                        Command::Process(copy)
                    },
                    Frame::Text(text) => {
                        let bytes = text.as_str().as_bytes_vec();
                        let copy = bytes.clone();
                        self.phase = Phase::Processing(bytes);
                        Command::Process(copy)
                    },
                    Frame::Ping(_) | Frame::Pong(_) => {
                        self.phase = Phase::Receiving;
                        Command::AwaitFrame
                    },
                },
                Event::Failed { error, resume_token_held } => {
                    match classify(&error) {
                        Disposition::Continue => {
                            self.phase = Phase::Receiving;
                            Command::AwaitFrame
                        },
                        Disposition::ReconnectOrResume => if resume_token_held {
                            self.phase = Phase::Recovering;
                            Command::Recover
                        } else {
                            Command::Respawn(id)
                        },
                    }
                },
                _ => {
                    self.phase = Phase::Receiving;
                    Command::Idle
                },
            },
            Phase::Processing(bytes) => match event {
                Event::Processed(p) => match p {
                    Processing::Undecodable => {
                        self.phase = Phase::Receiving;
                        Command::AwaitFrame
                    },
                    Processing::NoAction => {
                        let mut out = bytes;
                        append_shard_id(&mut out, id);
                        self.phase = Phase::Receiving;
                        Command::Forward(out)
                    },
                    Processing::Action(GatewayAction::Autoreconnect) => {
                        self.phase = Phase::Dispatching(GatewayAction::Autoreconnect, bytes);
                        Command::Autoreconnect
                    },
                    Processing::Action(GatewayAction::Identify) => {
                        self.phase = Phase::Dispatching(GatewayAction::Identify, bytes);
                        Command::Identify
                    },
                    Processing::Action(GatewayAction::Resume) => {
                        self.phase = Phase::Dispatching(GatewayAction::Resume, bytes);
                        Command::Resume
                    },
                    Processing::Action(GatewayAction::Reconnect) => Command::Respawn(id),
                },
                _ => {
                    self.phase = Phase::Processing(bytes);
                    Command::Idle
                },
            },
            Phase::Dispatching(action, bytes) => match event {
                Event::Dispatched(ok) => if ok {
                    let mut out = bytes;
                    append_shard_id(&mut out, id);
                    self.phase = Phase::Receiving;
                    Command::Forward(out)
                } else if action == GatewayAction::Identify {
                    self.phase = Phase::Receiving;
                    Command::AwaitFrame
                } else {
                    Command::Respawn(id)
                },
                _ => {
                    self.phase = Phase::Dispatching(action, bytes);
                    Command::Idle
                },
            },
            Phase::Recovering => match event {
                Event::Recovered(ok) => if ok {
                    self.phase = Phase::Receiving;
                    Command::AwaitFrame
                } else {
                    Command::Respawn(id)
                },
                _ => {
                    self.phase = Phase::Recovering;
                    Command::Idle
                },
            },
            Phase::Terminated => Command::Idle,
        }
    }
}

} // verus!

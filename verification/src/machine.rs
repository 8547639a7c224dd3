//! The driver state machine.
//!
//! [`RFM95`] runs one operation at a time. Starting an operation (such as
//! [`RFM95::send_packet`]) returns the first bus [`Action`]; the caller
//! performs it and hands the reply back to [`RFM95::step`] as an [`Event`],
//! which returns the next action, until an [`Action::Finish`] carries the
//! operation's result.
use vstd::prelude::*;

use crate::error::RFMError;
use crate::program::{
    build_enter_fsk_receive_mode_program, build_enter_receive_mode_program, build_reset_program,
    build_send_fsk_packet_program, build_send_packet_program, enter_fsk_receive_mode_program,
    enter_receive_mode_program, reset_program, send_fsk_packet_program, send_packet_program,
    valid_packet_size, Instr, CHIP_VERSION, PAYLOAD_READY_MASK, POLL_ROUNDS, SETTLE_MS,
};
use crate::rates::{DataRate, FskDataRate};
use crate::register::{spec_read_command, spec_write_command, Register};

verus! {

/// What goes over the bus next, or the result of the operation.
#[derive(Copy, Clone, Debug, PartialEq, Eq)]
pub enum Action {
    /// SPI write of the two bytes `[command, value]`.
    Write { command: u8, value: u8 },
    /// SPI in-place transfer of `[command, 0]`; the reply is the second byte received.
    Read { command: u8 },
    /// Drive the reset pin high or low.
    SetReset { high: bool },
    /// Block for `ms` milliseconds.
    Delay { ms: u32 },
    /// Sample the DIO0 pin.
    SampleDio0,
    /// The operation is over.
    Finish(Result<Output, RFMError>),
}

/// The reply to an [`Action`].
#[derive(Copy, Clone, Debug, PartialEq, Eq, Structural)]
pub enum Event {
    /// An SPI write went through.
    Written,
    /// An SPI read returned this byte.
    Byte(u8),
    /// The reset pin was driven.
    PinSet,
    /// The delay is over.
    Delayed,
    /// DIO0 was sampled at this level (`true` for high).
    Level(bool),
    /// The SPI transfer or the pin access failed.
    Failed,
}

/// The value an operation produces.
#[derive(Copy, Clone, Debug, PartialEq, Eq, Structural)]
pub enum Output {
    /// Nothing beyond success.
    Unit,
    /// A single flag.
    Flag(bool),
    /// Two register values.
    Flags(u8, u8),
    /// A packet length.
    Length(usize),
}

/// How the result of a program is made from what it read.
#[derive(Copy, Clone, Debug, PartialEq, Eq, Structural)]
pub enum Query {
    /// No value: the result is [`Output::Unit`].
    Nothing,
    /// The PayloadReady bit of the one byte read.
    PacketReady,
    /// The two bytes read.
    IrqFlags,
    /// The one DIO0 level sampled.
    Dio0,
    /// The length of the packet read.
    Packet,
}

/// Where the machine stands within the instruction at the program counter.
#[derive(Copy, Clone, Debug, PartialEq, Eq, Structural)]
pub enum Phase {
    /// No operation is running.
    Idle,
    /// The single action of the current instruction is out.
    Pending,
    /// Mode change: the read of the current mode is out.
    ModeQuery,
    /// Mode change: the write of the new mode is out; `old` was read before.
    ModeWrite { old: u8 },
    /// Mode change: the settling delay is out.
    ModeSettle { old: u8 },
    /// Mode change: the read-back of the mode is out.
    ModeConfirm { old: u8 },
    /// Polling: the delay of round `round` (counted from 0) is out.
    PollDelay { round: u8 },
    /// Polling: the flag read of round `round` is out.
    PollRead { round: u8 },
    /// Packet read: the read of the length byte is out.
    PacketLength,
    /// Packet read: the read of the next of `length` payload bytes is out.
    PacketByte { length: usize },
}

/// The abstract state of the machine.
#[verifier::ext_equal]
pub struct MachineView {
    pub program: Seq<Instr>,
    pub query: Query,
    pub pc: int,
    pub phase: Phase,
    /// The bytes kept by [`Instr::Read`] and [`Instr::SampleDio0`] (1 for high, 0 for low).
    pub reads: Seq<u8>,
    /// The payload bytes read by [`Instr::ReadPacket`] so far.
    pub packet: Seq<u8>,
}

/// The driver state machine.
pub struct RFM95 {
    program: Vec<Instr>,
    query: Query,
    pc: usize,
    phase: Phase,
    reads: Vec<u8>,
    packet: Vec<u8>,
}

impl View for RFM95 {
    type V = MachineView;

    closed spec fn view(&self) -> MachineView {
        MachineView {
            program: self.program@,
            query: self.query,
            pc: self.pc as int,
            phase: self.phase,
            reads: self.reads@,
            packet: self.packet@,
        }
    }
}

pub open spec fn read_action(reg: Register) -> Action {
    Action::Read { command: spec_read_command(reg) }
}

/// The phase in which an instruction starts.
pub open spec fn entry_phase(instr: Instr) -> Phase {
    match instr {
        Instr::SetMode { .. } => Phase::ModeQuery,
        Instr::AwaitFlag { .. } => Phase::PollDelay { round: 0 },
        Instr::ReadPacket { .. } => Phase::PacketLength,
        _ => Phase::Pending,
    }
}

/// The mode that the instruction at the program counter sets.
pub open spec fn target_mode(s: MachineView) -> u8 {
    match s.program[s.pc] {
        Instr::SetMode { mode } => mode,
        _ => 0,
    }
}

/// The action that is out in state `s`; `None` when no operation runs.
pub open spec fn pending_action(s: MachineView) -> Option<Action> {
    match s.phase {
        Phase::Idle => None,
        Phase::Pending => Some(
            match s.program[s.pc] {
                Instr::Write { reg, value } => Action::Write {
                    command: spec_write_command(reg),
                    value,
                },
                Instr::DriveReset { high } => Action::SetReset { high },
                Instr::Wait { ms } => Action::Delay { ms },
                Instr::CheckVersion => read_action(Register::Version),
                Instr::Read { reg } => read_action(reg),
                _ => Action::SampleDio0,
            },
        ),
        Phase::ModeQuery => Some(read_action(Register::OpMode)),
        Phase::ModeWrite { .. } => Some(
            Action::Write { command: spec_write_command(Register::OpMode), value: target_mode(s) },
        ),
        Phase::ModeSettle { .. } => Some(Action::Delay { ms: SETTLE_MS }),
        Phase::ModeConfirm { .. } => Some(read_action(Register::OpMode)),
        Phase::PollDelay { .. } => Some(Action::Delay { ms: SETTLE_MS }),
        Phase::PollRead { .. } => Some(
            match s.program[s.pc] {
                Instr::AwaitFlag { reg, .. } => read_action(reg),
                _ => read_action(Register::FIFO),
            },
        ),
        Phase::PacketLength => Some(read_action(Register::FIFO)),
        Phase::PacketByte { .. } => Some(read_action(Register::FIFO)),
    }
}

/// Whether `e` is a possible reply to action `a`. A delay cannot fail.
pub open spec fn replies_to(a: Action, e: Event) -> bool {
    match a {
        Action::Write { .. } => e is Written || e is Failed,
        Action::Read { .. } => e is Byte || e is Failed,
        Action::SetReset { .. } => e is PinSet || e is Failed,
        Action::Delay { .. } => e is Delayed,
        Action::SampleDio0 => e is Level || e is Failed,
        Action::Finish(_) => false,
    }
}

/// Whether the machine in state `s` can take event `e`.
pub open spec fn accepts(s: MachineView, e: Event) -> bool {
    match pending_action(s) {
        Some(a) => replies_to(a, e),
        None => false,
    }
}

/// The error a failed action ends the operation with: SPI transfers give
/// [`RFMError::Spi`], pin accesses [`RFMError::Gpio`].
pub open spec fn failure_error(a: Action) -> RFMError {
    match a {
        Action::SetReset { .. } => RFMError::Gpio,
        Action::SampleDio0 => RFMError::Gpio,
        _ => RFMError::Spi,
    }
}

/// The number of instructions among the first `n` of `p` that keep a byte.
pub open spec fn reads_before(p: Seq<Instr>, n: int) -> nat
    decreases n,
{
    if n <= 0 {
        0
    } else {
        reads_before(p, n - 1) + if (p[n - 1] is Read || p[n - 1] is SampleDio0) {
            1nat
        } else {
            0nat
        }
    }
}

/// The program a query reads its result from.
pub open spec fn query_fits(q: Query, p: Seq<Instr>) -> bool {
    match q {
        Query::Nothing => true,
        Query::PacketReady => p == seq![Instr::Read { reg: Register::FSKIRQFlags2 }],
        Query::IrqFlags => p == seq![
            Instr::Read { reg: Register::FSKIRQFlags1 },
            Instr::Read { reg: Register::FSKIRQFlags2 },
        ],
        Query::Dio0 => p == seq![Instr::SampleDio0],
        Query::Packet => p.len() == 1 && p[0] is ReadPacket,
    }
}

/// Whether a phase belongs to an instruction.
pub open spec fn phase_fits(phase: Phase, instr: Instr, packet_len: int) -> bool {
    match phase {
        Phase::Idle => true,
        Phase::Pending => !(instr is SetMode || instr is AwaitFlag || instr is ReadPacket),
        Phase::ModeQuery => instr is SetMode,
        Phase::ModeWrite { .. } => instr is SetMode,
        Phase::ModeSettle { .. } => instr is SetMode,
        Phase::ModeConfirm { .. } => instr is SetMode,
        Phase::PollDelay { round } => instr is AwaitFlag && round < POLL_ROUNDS,
        Phase::PollRead { round } => instr is AwaitFlag && round < POLL_ROUNDS,
        Phase::PacketLength => instr is ReadPacket,
        Phase::PacketByte { length } => match instr {
            Instr::ReadPacket { capacity } => 1 <= length <= capacity && packet_len < length,
            _ => false,
        },
    }
}

/// The machine invariant.
pub open spec fn wf(s: MachineView) -> bool {
    &&& 0 <= s.pc <= s.program.len()
    &&& !(s.phase is Idle) ==> s.pc < s.program.len() && phase_fits(
        s.phase,
        s.program[s.pc],
        s.packet.len() as int,
    )
    &&& s.reads.len() == reads_before(s.program, s.pc)
    &&& query_fits(s.query, s.program)
}

/// The result of a program that ran to its end.
pub open spec fn result_of(s: MachineView) -> Output {
    match s.query {
        Query::Nothing => Output::Unit,
        Query::PacketReady => Output::Flag(s.reads[0] & PAYLOAD_READY_MASK != 0),
        Query::IrqFlags => Output::Flags(s.reads[0], s.reads[1]),
        Query::Dio0 => Output::Flag(s.reads[0] != 0),
        Query::Packet => Output::Length(s.packet.len() as usize),
    }
}

/// A fresh machine about to run program `p`.
pub open spec fn start_view(p: Seq<Instr>, q: Query) -> MachineView {
    MachineView {
        program: p,
        query: q,
        pc: 0,
        phase: Phase::Idle,
        reads: Seq::empty(),
        packet: Seq::empty(),
    }
}

pub open spec fn with_phase(s: MachineView, phase: Phase) -> MachineView {
    MachineView { phase, ..s }
}

/// Move to `phase` and put its action out.
pub open spec fn goto(s: MachineView, phase: Phase) -> (MachineView, Action) {
    let t = with_phase(s, phase);
    (t, pending_action(t).unwrap())
}

/// Start the instruction at the program counter, or finish with the result
/// when the program is over.
pub open spec fn begin(s: MachineView) -> (MachineView, Action) {
    if s.pc >= s.program.len() {
        (with_phase(s, Phase::Idle), Action::Finish(Ok(result_of(s))))
    } else {
        goto(s, entry_phase(s.program[s.pc]))
    }
}

/// Go on with the next instruction.
pub open spec fn advance(s: MachineView) -> (MachineView, Action) {
    begin(MachineView { pc: s.pc + 1, ..s })
}

/// End the operation with an error.
pub open spec fn fail(s: MachineView, err: RFMError) -> (MachineView, Action) {
    (with_phase(s, Phase::Idle), Action::Finish(Err(err)))
}

/// Keep `byte` for the result.
pub open spec fn keep(s: MachineView, byte: u8) -> MachineView {
    MachineView { reads: s.reads.push(byte), ..s }
}

/// The flag mask of the polling instruction at the program counter.
pub open spec fn poll_mask(s: MachineView) -> u8 {
    match s.program[s.pc] {
        Instr::AwaitFlag { mask, .. } => mask,
        _ => 0,
    }
}

/// The buffer capacity of the packet read at the program counter.
pub open spec fn packet_capacity(s: MachineView) -> usize {
    match s.program[s.pc] {
        Instr::ReadPacket { capacity } => capacity,
        _ => 0,
    }
}

/// One reply: the next state and the next action.
pub open spec fn transition(s: MachineView, e: Event) -> (MachineView, Action) {
    if e is Failed {
        fail(s, failure_error(pending_action(s).unwrap()))
    } else {
        match s.phase {
            Phase::Pending => match (s.program[s.pc], e) {
                (Instr::CheckVersion, Event::Byte(v)) => if v == CHIP_VERSION {
                    advance(s)
                } else {
                    fail(s, RFMError::InvalidVersion { version: v })
                },
                (Instr::Read { .. }, Event::Byte(v)) => advance(keep(s, v)),
                (Instr::SampleDio0, Event::Level(high)) => advance(
                    keep(
                        s,
                        if high {
                            1u8
                        } else {
                            0u8
                        },
                    ),
                ),
                _ => advance(s),
            },
            Phase::ModeQuery => match e {
                Event::Byte(v) => if v == target_mode(s) {
                    advance(s)
                } else {
                    goto(s, Phase::ModeWrite { old: v })
                },
                _ => (s, Action::SampleDio0),
            },
            Phase::ModeWrite { old } => goto(s, Phase::ModeSettle { old }),
            Phase::ModeSettle { old } => goto(s, Phase::ModeConfirm { old }),
            Phase::ModeConfirm { old } => match e {
                Event::Byte(v) => if v == target_mode(s) {
                    advance(s)
                } else {
                    fail(s, RFMError::ModeChangeFailed { old, new: target_mode(s), set: v })
                },
                _ => (s, Action::SampleDio0),
            },
            Phase::PollDelay { round } => goto(s, Phase::PollRead { round }),
            Phase::PollRead { round } => match e {
                Event::Byte(v) => if v & poll_mask(s) != 0 {
                    advance(s)
                } else if round + 1 < POLL_ROUNDS {
                    goto(s, Phase::PollDelay { round: (round + 1) as u8 })
                } else {
                    fail(s, RFMError::TransmissionTimedOut)
                },
                _ => (s, Action::SampleDio0),
            },
            Phase::PacketLength => match e {
                Event::Byte(v) => if v == 0 || v > packet_capacity(s) {
                    fail(s, RFMError::InvalidPacketSize)
                } else {
                    goto(
                        MachineView { packet: Seq::empty(), ..s },
                        Phase::PacketByte { length: v as usize },
                    )
                },
                _ => (s, Action::SampleDio0),
            },
            Phase::PacketByte { length } => match e {
                Event::Byte(v) => {
                    let t = MachineView { packet: s.packet.push(v), ..s };
                    if t.packet.len() == length {
                        advance(t)
                    } else {
                        (t, pending_action(t).unwrap())
                    }
                },
                _ => (s, Action::SampleDio0),
            },
            Phase::Idle => (s, Action::SampleDio0),
        }
    }
}

/// The states and actions that a sequence of replies leads through.
pub open spec fn run(s: MachineView, events: Seq<Event>) -> (MachineView, Seq<Action>)
    decreases events.len(),
{
    if events.len() == 0 {
        (s, Seq::empty())
    } else {
        let (t, a) = transition(s, events[0]);
        let (u, rest) = run(t, events.drop_first());
        (u, seq![a] + rest)
    }
}

/// Whether each reply of the sequence is one the machine takes when it arrives.
pub open spec fn runs(s: MachineView, events: Seq<Event>) -> bool
    decreases events.len(),
{
    events.len() == 0 || (accepts(s, events[0]) && runs(transition(s, events[0]).0, events.drop_first()))
}

fn failure_error_of(a: Action) -> (e: RFMError)
    ensures
        e == failure_error(a),
{
    match a {
        Action::SetReset { .. } => RFMError::Gpio,
        Action::SampleDio0 => RFMError::Gpio,
        _ => RFMError::Spi,
    }
}

impl RFM95 {
    /// The machine invariant of this instance.
    pub open spec fn inv(&self) -> bool {
        wf(self@)
    }

    /// A machine with no operation running.
    pub fn new() -> (m: Self)
        ensures
            m.inv(),
            m@ == start_view(Seq::empty(), Query::Nothing),
    {
        RFM95 {
            program: Vec::new(),
            query: Query::Nothing,
            pc: 0,
            phase: Phase::Idle,
            reads: Vec::new(),
            packet: Vec::new(),
        }
    }

    /// The action that is out, if an operation runs.
    pub fn pending(&self) -> (a: Option<Action>)
        requires
            self.inv(),
        ensures
            a == pending_action(self@),
    {
        match self.phase {
            Phase::Idle => None,
            Phase::Pending => Some(
                match self.program[self.pc] {
                    Instr::Write { reg, value } => Action::Write {
                        command: reg.write_command(),
                        value,
                    },
                    Instr::DriveReset { high } => Action::SetReset { high },
                    Instr::Wait { ms } => Action::Delay { ms },
                    Instr::CheckVersion => Action::Read {
                        command: Register::Version.read_command(),
                    },
                    Instr::Read { reg } => Action::Read { command: reg.read_command() },
                    _ => Action::SampleDio0,
                },
            ),
            Phase::ModeQuery => Some(Action::Read { command: Register::OpMode.read_command() }),
            Phase::ModeWrite { .. } => {
                let mode = match self.program[self.pc] {
                    Instr::SetMode { mode } => mode,
                    _ => 0,
                };
                Some(Action::Write { command: Register::OpMode.write_command(), value: mode })
            },
            Phase::ModeSettle { .. } => Some(Action::Delay { ms: SETTLE_MS }),
            Phase::ModeConfirm { .. } => Some(
                Action::Read { command: Register::OpMode.read_command() },
            ),
            Phase::PollDelay { .. } => Some(Action::Delay { ms: SETTLE_MS }),
            Phase::PollRead { .. } => Some(
                match self.program[self.pc] {
                    Instr::AwaitFlag { reg, .. } => Action::Read { command: reg.read_command() },
                    _ => Action::Read { command: Register::FIFO.read_command() },
                },
            ),
            Phase::PacketLength => Some(Action::Read { command: Register::FIFO.read_command() }),
            Phase::PacketByte { .. } => Some(
                Action::Read { command: Register::FIFO.read_command() },
            ),
        }
    }

    /// Whether `event` is a reply that [`RFM95::step`] takes now.
    pub fn accepts(&self, event: &Event) -> (b: bool)
        requires
            self.inv(),
        ensures
            b == accepts(self@, *event),
    {
        match self.pending() {
            None => false,
            Some(a) => match a {
                Action::Write { .. } => matches!(event, Event::Written | Event::Failed),
                Action::Read { .. } => matches!(event, Event::Byte(_) | Event::Failed),
                Action::SetReset { .. } => matches!(event, Event::PinSet | Event::Failed),
                Action::Delay { .. } => matches!(event, Event::Delayed),
                Action::SampleDio0 => matches!(event, Event::Level(_) | Event::Failed),
                Action::Finish(_) => false,
            },
        }
    }

    /// The payload bytes of the last packet read.
    pub fn packet(&self) -> (p: &[u8])
        ensures
            p@ == self@.packet,
    {
        self.packet.as_slice()
    }

    fn goto(&mut self, phase: Phase) -> (a: Action)
        requires
            wf(with_phase(old(self)@, phase)),
            !(phase is Idle),
        ensures
            final(self).inv(),
            (final(self)@, a) == goto(old(self)@, phase),
    {
        self.phase = phase;
        assert(self@ =~= with_phase(old(self)@, phase));
        self.pending().unwrap()
    }

    fn begin(&mut self) -> (a: Action)
        requires
            wf(with_phase(old(self)@, Phase::Idle)),
        ensures
            final(self).inv(),
            (final(self)@, a) == begin(old(self)@),
    {
        if self.pc >= self.program.len() {
            let r = self.result_at_end();
            self.phase = Phase::Idle;
            assert(self@ =~= with_phase(old(self)@, Phase::Idle));
            Action::Finish(Ok(r))
        } else {
            let phase = match self.program[self.pc] {
                Instr::SetMode { .. } => Phase::ModeQuery,
                Instr::AwaitFlag { .. } => Phase::PollDelay { round: 0 },
                Instr::ReadPacket { .. } => Phase::PacketLength,
                _ => Phase::Pending,
            };
            self.goto(phase)
        }
    }

    fn result_at_end(&self) -> (r: Output)
        requires
            wf(with_phase(self@, Phase::Idle)),
            self@.pc >= self@.program.len(),
        ensures
            r == result_of(self@),
    {
        proof {
            reveal_with_fuel(reads_before, 3);
        }
        match self.query {
            Query::Nothing => Output::Unit,
            Query::PacketReady => Output::Flag(self.reads[0] & PAYLOAD_READY_MASK != 0),
            Query::IrqFlags => Output::Flags(self.reads[0], self.reads[1]),
            Query::Dio0 => Output::Flag(self.reads[0] != 0),
            Query::Packet => Output::Length(self.packet.len()),
        }
    }

    fn advance(&mut self) -> (a: Action)
        requires
            old(self)@.pc < old(self)@.program.len(),
            wf(MachineView { pc: old(self)@.pc + 1, phase: Phase::Idle, ..old(self)@ }),
        ensures
            final(self).inv(),
            (final(self)@, a) == advance(old(self)@),
    {
        let n = self.program.len();
        assert(self.pc < n);
        self.pc = self.pc + 1;
        assert(with_phase(self@, Phase::Idle) =~= MachineView {
            pc: old(self)@.pc + 1,
            phase: Phase::Idle,
            ..old(self)@
        });
        assert(self@ =~= MachineView { pc: old(self)@.pc + 1, ..old(self)@ });
        self.begin()
    }

    fn fail(&mut self, err: RFMError) -> (a: Action)
        requires
            old(self).inv(),
        ensures
            final(self).inv(),
            (final(self)@, a) == fail(old(self)@, err),
    {
        self.phase = Phase::Idle;
        assert(self@ =~= with_phase(old(self)@, Phase::Idle));
        Action::Finish(Err(err))
    }

    /// Take the reply to the action that is out and put out the next one.
    pub fn step(&mut self, event: Event) -> (a: Action)
        requires
            old(self).inv(),
            accepts(old(self)@, event),
        ensures
            final(self).inv(),
            (final(self)@, a) == transition(old(self)@, event),
    {
        if let Event::Failed = event {
            let pending = self.pending().unwrap();
            return self.fail(failure_error_of(pending));
        }
        match self.phase {
            Phase::Pending => match (self.program[self.pc], event) {
                (Instr::CheckVersion, Event::Byte(v)) => {
                    if v == CHIP_VERSION {
                        self.advance()
                    } else {
                        self.fail(RFMError::InvalidVersion { version: v })
                    }
                },
                (Instr::Read { .. }, Event::Byte(v)) => {
                    self.reads.push(v);
                    self.advance()
                },
                (Instr::SampleDio0, Event::Level(high)) => {
                    self.reads.push(if high { 1u8 } else { 0u8 });
                    self.advance()
                },
                _ => self.advance(),
            },
            Phase::ModeQuery => match event {
                Event::Byte(v) => {
                    let mode = match self.program[self.pc] {
                        Instr::SetMode { mode } => mode,
                        _ => 0,
                    };
                    if v == mode {
                        self.advance()
                    } else {
                        self.goto(Phase::ModeWrite { old: v })
                    }
                },
                _ => Action::SampleDio0,
            },
            Phase::ModeWrite { old } => self.goto(Phase::ModeSettle { old }),
            Phase::ModeSettle { old } => self.goto(Phase::ModeConfirm { old }),
            Phase::ModeConfirm { old } => match event {
                Event::Byte(v) => {
                    let mode = match self.program[self.pc] {
                        Instr::SetMode { mode } => mode,
                        _ => 0,
                    };
                    if v == mode {
                        self.advance()
                    } else {
                        self.fail(RFMError::ModeChangeFailed { old, new: mode, set: v })
                    }
                },
                _ => Action::SampleDio0,
            },
            Phase::PollDelay { round } => self.goto(Phase::PollRead { round }),
            Phase::PollRead { round } => match event {
                Event::Byte(v) => {
                    let mask = match self.program[self.pc] {
                        Instr::AwaitFlag { mask, .. } => mask,
                        _ => 0,
                    };
                    if v & mask != 0 {
                        self.advance()
                    } else if round + 1 < POLL_ROUNDS {
                        self.goto(Phase::PollDelay { round: round + 1 })
                    } else {
                        self.fail(RFMError::TransmissionTimedOut)
                    }
                },
                _ => Action::SampleDio0,
            },
            Phase::PacketLength => match event {
                Event::Byte(v) => {
                    let capacity = match self.program[self.pc] {
                        Instr::ReadPacket { capacity } => capacity,
                        _ => 0,
                    };
                    if v == 0 || v as usize > capacity {
                        self.fail(RFMError::InvalidPacketSize)
                    } else {
                        self.packet = Vec::new();
                        self.goto(Phase::PacketByte { length: v as usize })
                    }
                },
                _ => Action::SampleDio0,
            },
            Phase::PacketByte { length } => match event {
                Event::Byte(v) => {
                    self.packet.push(v);
                    if self.packet.len() == length {
                        self.advance()
                    } else {
                        assert(self@ =~= MachineView { packet: old(self)@.packet.push(v), ..old(self)@ });
                        self.pending().unwrap()
                    }
                },
                _ => Action::SampleDio0,
            },
            Phase::Idle => Action::SampleDio0,
        }
    }
}

impl RFM95 {
    fn start(&mut self, program: Vec<Instr>, query: Query) -> (a: Action)
        requires
            query_fits(query, program@),
        ensures
            final(self).inv(),
            (final(self)@, a) == begin(start_view(program@, query)),
    {
        self.program = program;
        self.query = query;
        self.pc = 0;
        self.phase = Phase::Idle;
        self.reads = Vec::new();
        self.packet = Vec::new();
        assert(self@ =~= start_view(self.program@, query));
        self.begin()
    }

    fn refuse(&mut self, err: RFMError) -> (a: Action)
        ensures
            final(self).inv(),
            final(self)@ == start_view(Seq::empty(), Query::Nothing),
            a == Action::Finish(Err(err)),
    {
        *self = RFM95::new();
        Action::Finish(Err(err))
    }

    /// Reset the module and configure it: pulse the reset line low for 10 ms,
    /// wait 10 ms, check the silicon version, enter LoRa sleep mode and set
    /// output power, symbol timeout, preamble length, sync word and FIFO bases.
    pub fn reset(&mut self) -> (a: Action)
        ensures
            final(self).inv(),
            (final(self)@, a) == begin(start_view(reset_program(), Query::Nothing)),
    {
        let program = build_reset_program();
        self.start(program, Query::Nothing)
    }

    /// Send a LoRa packet on `frequency` at `data_rate` and wait for TxDone.
    /// A packet that is empty or longer than 255 bytes is refused before any
    /// bus traffic.
    pub fn send_packet(&mut self, packet: &[u8], frequency: [u8; 3], data_rate: DataRate) -> (a:
        Action)
        ensures
            final(self).inv(),
            !valid_packet_size(packet@.len() as int) ==> {
                &&& a == Action::Finish(Err(RFMError::InvalidPacketSize))
                &&& final(self)@ == start_view(Seq::empty(), Query::Nothing)
            },
            valid_packet_size(packet@.len() as int) ==> (final(self)@, a) == begin(
                start_view(send_packet_program(packet@, frequency, data_rate), Query::Nothing),
            ),
    {
        if packet.len() == 0 || packet.len() > 255 {
            return self.refuse(RFMError::InvalidPacketSize);
        }
        let program = build_send_packet_program(packet, frequency, data_rate);
        self.start(program, Query::Nothing)
    }

    /// Enter LoRa continuous receive mode on `frequency` at `data_rate`.
    pub fn enter_receive_mode(&mut self, frequency: [u8; 3], data_rate: DataRate) -> (a: Action)
        ensures
            final(self).inv(),
            (final(self)@, a) == begin(
                start_view(enter_receive_mode_program(frequency, data_rate), Query::Nothing),
            ),
    {
        let program = build_enter_receive_mode_program(frequency, data_rate);
        self.start(program, Query::Nothing)
    }

    /// Send a variable-length FSK packet (length byte first) and wait for
    /// PacketSent. A packet that is empty or longer than 255 bytes is refused
    /// before any bus traffic.
    pub fn send_fsk_packet(&mut self, packet: &[u8], frequency: [u8; 3], data_rate: FskDataRate) -> (a:
        Action)
        ensures
            final(self).inv(),
            !valid_packet_size(packet@.len() as int) ==> {
                &&& a == Action::Finish(Err(RFMError::InvalidPacketSize))
                &&& final(self)@ == start_view(Seq::empty(), Query::Nothing)
            },
            valid_packet_size(packet@.len() as int) ==> (final(self)@, a) == begin(
                start_view(send_fsk_packet_program(packet@, frequency, data_rate), Query::Nothing),
            ),
    {
        if packet.len() == 0 || packet.len() > 255 {
            return self.refuse(RFMError::InvalidPacketSize);
        }
        let program = build_send_fsk_packet_program(packet, frequency, data_rate);
        self.start(program, Query::Nothing)
    }

    /// Enter FSK continuous receive mode with variable-length packets.
    pub fn enter_fsk_receive_mode(&mut self, frequency: [u8; 3], data_rate: FskDataRate) -> (a:
        Action)
        ensures
            final(self).inv(),
            (final(self)@, a) == begin(
                start_view(enter_fsk_receive_mode_program(frequency, data_rate), Query::Nothing),
            ),
    {
        let program = build_enter_fsk_receive_mode_program(frequency, data_rate);
        self.start(program, Query::Nothing)
    }

    /// Ask whether an FSK packet waits in the FIFO: the PayloadReady bit of
    /// RegIrqFlags2, as [`Output::Flag`].
    pub fn is_fsk_packet_ready(&mut self) -> (a: Action)
        ensures
            final(self).inv(),
            (final(self)@, a) == begin(
                start_view(seq![Instr::Read { reg: Register::FSKIRQFlags2 }], Query::PacketReady),
            ),
    {
        let mut program: Vec<Instr> = Vec::new();
        program.push(Instr::Read { reg: Register::FSKIRQFlags2 });
        assert(program@ =~= seq![Instr::Read { reg: Register::FSKIRQFlags2 }]);
        self.start(program, Query::PacketReady)
    }

    /// Read one FSK packet from the FIFO into a buffer of `capacity` bytes:
    /// the length byte, then that many payload bytes, available from
    /// [`RFM95::packet`]. The result is [`Output::Length`].
    pub fn read_fsk_packet(&mut self, capacity: usize) -> (a: Action)
        ensures
            final(self).inv(),
            (final(self)@, a) == begin(
                start_view(seq![Instr::ReadPacket { capacity }], Query::Packet),
            ),
    {
        let mut program: Vec<Instr> = Vec::new();
        program.push(Instr::ReadPacket { capacity });
        assert(program@ =~= seq![Instr::ReadPacket { capacity }]);
        self.start(program, Query::Packet)
    }

    /// Sample the DIO0 line (RxDone or TxDone), as [`Output::Flag`].
    pub fn is_dio0_high(&mut self) -> (a: Action)
        ensures
            final(self).inv(),
            (final(self)@, a) == begin(start_view(seq![Instr::SampleDio0], Query::Dio0)),
    {
        let mut program: Vec<Instr> = Vec::new();
        program.push(Instr::SampleDio0);
        assert(program@ =~= seq![Instr::SampleDio0]);
        self.start(program, Query::Dio0)
    }

    /// Read RegIrqFlags1 and RegIrqFlags2 of the FSK modem, as [`Output::Flags`].
    pub fn read_fsk_irq_flags(&mut self) -> (a: Action)
        ensures
            final(self).inv(),
            (final(self)@, a) == begin(
                start_view(
                    seq![
                        Instr::Read { reg: Register::FSKIRQFlags1 },
                        Instr::Read { reg: Register::FSKIRQFlags2 },
                    ],
                    Query::IrqFlags,
                ),
            ),
    {
        let mut program: Vec<Instr> = Vec::new();
        program.push(Instr::Read { reg: Register::FSKIRQFlags1 });
        program.push(Instr::Read { reg: Register::FSKIRQFlags2 });
        assert(program@ =~= seq![
            Instr::Read { reg: Register::FSKIRQFlags1 },
            Instr::Read { reg: Register::FSKIRQFlags2 },
        ]);
        self.start(program, Query::IrqFlags)
    }
}

} // verus!

//! Properties of the driver that hold across its operations.
use vstd::prelude::*;

use crate::error::RFMError;
use crate::machine::{
    accepts, advance, begin, pending_action, read_action, reads_before, run, runs, start_view,
    transition, wf, with_phase, packet_capacity, poll_mask, Action, Event, MachineView, Phase, Query,
};
use crate::modem_config;
use crate::mode;
use crate::program::{
    data_rate_writes, frequency_writes, fsk_data_rate_writes, fsk_packet_engine_writes,
    payload_writes, send_fsk_packet_program, send_packet_program, valid_packet_size,
    write_instr, TX_DONE_MASK, modem_config_2_value, reset_program, Instr, CHIP_VERSION, PAYLOAD_READY_MASK, POLL_ROUNDS,
    SETTLE_MS,
};
use crate::rates::{spreading_factor_bits, DataRate, FskDataRate};
use crate::register::{spec_address, spec_read_command, spec_write_command, Register};

verus! {

proof fn lemma_address_is_seven_bits(reg: Register)
    ensures
        spec_address(reg) < 0x80,
{
}

/// Every command byte names its register in its low seven bits; bit 7 is set
/// exactly for writes.
pub proof fn law_command_framing(reg: Register)
    ensures
        spec_write_command(reg) == spec_address(reg) | 0x80,
        spec_write_command(reg) & 0x80 == 0x80,
        spec_write_command(reg) & 0x7F == spec_address(reg),
        spec_read_command(reg) == spec_address(reg) & 0x7F,
        spec_read_command(reg) & 0x80 == 0,
        spec_read_command(reg) == spec_address(reg),
{
    lemma_address_is_seven_bits(reg);
    let a = spec_address(reg);
    assert(a < 0x80 ==> (a | 0x80) & 0x80 == 0x80 && (a | 0x80) & 0x7F == a && (a & 0x7F) & 0x80
        == 0 && a & 0x7F == a && (a | 0x80) == a + 0x80) by (bit_vector);
}

/// With the CRC enabled, RegModemConfig2 carries the payload-CRC bit and
/// still the spreading factor in its high nibble; without it, the CRC bit is clear.
pub proof fn law_crc_bit(rate: DataRate)
    ensures
        modem_config_2_value(rate, true) & modem_config::RX_PAYLOAD_CRC != 0,
        modem_config_2_value(rate, true) & 0xF0 == spreading_factor_bits(rate),
        modem_config_2_value(rate, false) & modem_config::RX_PAYLOAD_CRC == 0,
        modem_config_2_value(rate, false) == spreading_factor_bits(rate),
{
    let sf = spreading_factor_bits(rate);
    assert(sf & 0x0F == 0) by {
        assert(0x70u8 & 0x0F == 0 && 0x80u8 & 0x0F == 0 && 0x90u8 & 0x0F == 0) by (bit_vector);
    }
    assert(sf & 0x0F == 0 ==> (sf | 0x04) & 0x04 != 0 && (sf | 0x04) & 0xF0 == sf && sf & 0x04
        == 0) by (bit_vector);
}

/// A failed transfer or pin access ends the operation at once and nothing
/// more goes over the bus: SPI failures give `Spi`, pin failures `Gpio`.
/// Delays never fail.
pub proof fn law_failure_ends_operation(s: MachineView)
    requires
        wf(s),
        accepts(s, Event::Failed),
    ensures
        transition(s, Event::Failed).0 == with_phase(s, Phase::Idle),
        !(pending_action(s).unwrap() is Delay),
        (pending_action(s).unwrap() is Write || pending_action(s).unwrap() is Read)
            ==> transition(s, Event::Failed).1 == Action::Finish(Err(RFMError::Spi)),
        (pending_action(s).unwrap() is SetReset || pending_action(s).unwrap() is SampleDio0)
            ==> transition(s, Event::Failed).1 == Action::Finish(Err(RFMError::Gpio)),
{
}

/// A step reports a result exactly when it leaves the machine idle, and an
/// idle machine takes no reply.
pub proof fn law_finish_exactly_when_idle(s: MachineView, e: Event, f: Event)
    requires
        wf(s),
        accepts(s, e),
    ensures
        transition(s, e).1 is Finish <==> transition(s, e).0.phase is Idle,
        transition(s, e).0.phase is Idle ==> !accepts(transition(s, e).0, f),
{
    let t = transition(s, e).0;
    if !(t.phase is Idle) {
        assert(pending_action(t) is Some);
    }
}

/// A mode switch to the mode the chip already reports writes nothing and
/// goes on with the next instruction.
pub proof fn law_mode_already_set_is_kept(s: MachineView, mode: u8)
    requires
        wf(s),
        s.phase == Phase::ModeQuery,
        s.program[s.pc] == (Instr::SetMode { mode }),
    ensures
        transition(s, Event::Byte(mode)) == advance(s),
{
}

/// A mode switch from another mode writes the mode, waits 10 ms, reads it
/// back, and fails with the old, requested and read-back modes unless the
/// read-back is the requested one.
pub proof fn law_mode_change(s: MachineView, mode: u8, old: u8, set: u8)
    requires
        wf(s),
        s.phase == Phase::ModeQuery,
        s.program[s.pc] == (Instr::SetMode { mode }),
        old != mode,
    ensures
        ({
            let events = seq![Event::Byte(old), Event::Written, Event::Delayed, Event::Byte(set)];
            let (t, actions) = run(s, events);
            &&& runs(s, events)
            &&& actions.len() == 4
            &&& actions[0] == (Action::Write {
                command: spec_write_command(Register::OpMode),
                value: mode,
            })
            &&& actions[1] == (Action::Delay { ms: SETTLE_MS })
            &&& actions[2] == read_action(Register::OpMode)
            &&& set != mode ==> actions[3] == Action::Finish(
                Err(RFMError::ModeChangeFailed { old, new: mode, set }),
            ) && t.phase is Idle
            &&& set == mode ==> (t, actions[3]) == advance(with_phase(s, Phase::ModeConfirm { old }))
        }),
{
    reveal_with_fuel(run, 5);
    reveal_with_fuel(runs, 5);
    let events = seq![Event::Byte(old), Event::Written, Event::Delayed, Event::Byte(set)];
    let s1 = with_phase(s, Phase::ModeWrite { old });
    let s2 = with_phase(s, Phase::ModeSettle { old });
    let s3 = with_phase(s, Phase::ModeConfirm { old });
    assert(transition(s, events[0]).0 == s1);
    assert(transition(s1, Event::Written).0 == s2);
    assert(transition(s2, Event::Delayed).0 == s3);
    assert(events.drop_first() =~= seq![Event::Written, Event::Delayed, Event::Byte(set)]);
    assert(events.drop_first().drop_first() =~= seq![Event::Delayed, Event::Byte(set)]);
    assert(events.drop_first().drop_first().drop_first() =~= seq![Event::Byte(set)]);
    assert(seq![Event::Byte(set)].drop_first() =~= Seq::<Event>::empty());
}

/// The replies of polling rounds that read `values`: a finished delay, then the byte.
pub open spec fn poll_replies(values: Seq<u8>) -> Seq<Event>
    decreases values.len(),
{
    if values.len() == 0 {
        Seq::empty()
    } else {
        seq![Event::Delayed, Event::Byte(values[0])] + poll_replies(values.drop_first())
    }
}

/// The actions of `n` polling rounds of `reg` that never see the flag: each
/// round reads `reg`, the next round starts with a delay, the last one gives up.
pub open spec fn timeout_actions(reg: Register, n: nat) -> Seq<Action>
    decreases n,
{
    if n <= 1 {
        seq![read_action(reg), Action::Finish(Err(RFMError::TransmissionTimedOut))]
    } else {
        seq![read_action(reg), Action::Delay { ms: SETTLE_MS }] + timeout_actions(
            reg,
            (n - 1) as nat,
        )
    }
}

/// Polling for a flag that never comes up reads the flag register once per
/// round until the budget of 100 rounds is spent, then ends the operation with
/// `TransmissionTimedOut`.
pub proof fn law_poll_budget(s: MachineView, reg: Register, mask: u8, round: u8, values: Seq<u8>)
    requires
        wf(s),
        s.program[s.pc] == (Instr::AwaitFlag { reg, mask }),
        s.phase == (Phase::PollDelay { round }),
        values.len() == POLL_ROUNDS - round,
        forall|i: int| 0 <= i < values.len() ==> #[trigger] values[i] & mask == 0,
    ensures
        runs(s, poll_replies(values)),
        run(s, poll_replies(values)).1 == timeout_actions(reg, values.len()),
        run(s, poll_replies(values)).0 == with_phase(s, Phase::Idle),
    decreases values.len(),
{
    let events = poll_replies(values);
    let v = values[0];
    assert(v & mask == 0);
    let s1 = with_phase(s, Phase::PollRead { round });
    assert(transition(s, Event::Delayed) == (s1, read_action(reg)));
    assert(events[0] == Event::Delayed);
    assert(events.drop_first()[0] == Event::Byte(v));
    assert(events.drop_first().drop_first() =~= poll_replies(values.drop_first()));
    if round + 1 < POLL_ROUNDS {
        let s2 = with_phase(s, Phase::PollDelay { round: (round + 1) as u8 });
        assert(transition(s1, Event::Byte(v)) == (s2, Action::Delay { ms: SETTLE_MS }));
        law_poll_budget(s2, reg, mask, (round + 1) as u8, values.drop_first());
        assert(accepts(s1, Event::Byte(v)));
        assert(runs(s1, events.drop_first()));
        assert(accepts(s, Event::Delayed));
        assert(run(s1, events.drop_first()).1 =~= seq![Action::Delay { ms: SETTLE_MS }] + run(
            s2,
            poll_replies(values.drop_first()),
        ).1);
        assert(run(s, events).1 =~= seq![read_action(reg)] + run(s1, events.drop_first()).1);
        assert(run(s, events).1 =~= timeout_actions(reg, values.len()));
    } else {
        assert(values.len() == 1);
        assert(values.drop_first().len() == 0);
        assert(poll_replies(values.drop_first()) =~= Seq::<Event>::empty());
        assert(transition(s1, Event::Byte(v)) == (
            with_phase(s, Phase::Idle),
            Action::Finish(Err(RFMError::TransmissionTimedOut)),
        ));
        let e1 = events.drop_first();
        assert(e1.drop_first() =~= Seq::<Event>::empty());
        assert(e1.len() == 1);
        assert(run(with_phase(s, Phase::Idle), e1.drop_first()) == (
            with_phase(s, Phase::Idle),
            Seq::<Action>::empty(),
        ));
        assert(run(s1, e1).1 =~= seq![Action::Finish(Err(RFMError::TransmissionTimedOut))]);
        assert(run(s1, e1).0 == with_phase(s, Phase::Idle));
        assert(accepts(s1, Event::Byte(v)));
        assert(runs(with_phase(s, Phase::Idle), e1.drop_first()));
        assert(runs(s1, e1));
        assert(accepts(s, Event::Delayed));
        assert(run(s, events).1 =~= seq![read_action(reg)] + run(s1, e1).1);
        assert(run(s, events).1 =~= timeout_actions(reg, values.len()));
    }
}

/// The actions of `n` polling rounds of `reg` of which only the last sees the
/// flag: each round reads `reg`, an unset flag leads to the next round's
/// delay, and the set flag to `next`, the first action of the next instruction.
pub open spec fn found_actions(reg: Register, n: nat, next: Action) -> Seq<Action>
    decreases n,
{
    if n <= 1 {
        seq![read_action(reg), next]
    } else {
        seq![read_action(reg), Action::Delay { ms: SETTLE_MS }] + found_actions(
            reg,
            (n - 1) as nat,
            next,
        )
    }
}

/// Polling stops at the first round whose read shows a bit of the mask and
/// goes on with the next instruction: no timeout comes of it.
pub proof fn law_poll_sees_flag(s: MachineView, reg: Register, mask: u8, round: u8, values: Seq<u8>)
    requires
        wf(s),
        s.program[s.pc] == (Instr::AwaitFlag { reg, mask }),
        s.phase == (Phase::PollDelay { round }),
        1 <= values.len() <= POLL_ROUNDS - round,
        forall|i: int| 0 <= i < values.len() - 1 ==> #[trigger] values[i] & mask == 0,
        values.last() & mask != 0,
    ensures
        runs(s, poll_replies(values)),
        run(s, poll_replies(values)).1 == found_actions(reg, values.len(), advance(s).1),
        run(s, poll_replies(values)).0 == advance(s).0,
    decreases values.len(),
{
    let events = poll_replies(values);
    let v = values[0];
    let s1 = with_phase(s, Phase::PollRead { round });
    assert(transition(s, Event::Delayed) == (s1, read_action(reg)));
    assert(accepts(s, Event::Delayed));
    assert(accepts(s1, Event::Byte(v)));
    assert(events[0] == Event::Delayed);
    assert(events.drop_first()[0] == Event::Byte(v));
    assert(events.drop_first().drop_first() =~= poll_replies(values.drop_first()));
    assert(advance(s1) == advance(s));
    if values.len() == 1 {
        assert(transition(s1, Event::Byte(v)) == advance(s));
        let e1 = events.drop_first();
        let t = advance(s).0;
        assert(e1.drop_first() =~= Seq::<Event>::empty());
        assert(run(t, e1.drop_first()) == (t, Seq::<Action>::empty()));
        assert(runs(t, e1.drop_first()));
        assert(run(s1, e1).1 =~= seq![advance(s).1]);
        assert(runs(s1, e1));
        assert(run(s, events).1 =~= seq![read_action(reg)] + run(s1, e1).1);
        assert(run(s, events).1 =~= found_actions(reg, values.len(), advance(s).1));
    } else {
        assert(v & mask == 0);
        let s2 = with_phase(s, Phase::PollDelay { round: (round + 1) as u8 });
        assert(transition(s1, Event::Byte(v)) == (s2, Action::Delay { ms: SETTLE_MS }));
        assert(advance(s2) == advance(s));
        let rest = values.drop_first();
        assert(rest.last() == values.last());
        assert forall|i: int| 0 <= i < rest.len() - 1 implies #[trigger] rest[i] & mask == 0 by {
            assert(rest[i] == values[i + 1]);
        }
        law_poll_sees_flag(s2, reg, mask, (round + 1) as u8, rest);
        assert(runs(s1, events.drop_first()));
        assert(run(s1, events.drop_first()).1 =~= seq![Action::Delay { ms: SETTLE_MS }] + run(
            s2,
            poll_replies(rest),
        ).1);
        assert(run(s, events).1 =~= seq![read_action(reg)] + run(s1, events.drop_first()).1);
        assert(run(s, events).1 =~= found_actions(reg, values.len(), advance(s).1));
    }
}

/// `TransmissionTimedOut` comes only from the last polling round of a flag
/// wait, on a read that shows no bit of the mask.
pub proof fn law_timeout_only_from_spent_poll(s: MachineView, e: Event)
    requires
        wf(s),
        accepts(s, e),
        transition(s, e).1 == Action::Finish(Err(RFMError::TransmissionTimedOut)),
    ensures
        s.phase == (Phase::PollRead { round: (POLL_ROUNDS - 1) as u8 }),
        s.program[s.pc] is AwaitFlag,
        e matches Event::Byte(v) && v & poll_mask(s) == 0,
{
    let t = transition(s, e).0;
    if !(t.phase is Idle) {
        assert(pending_action(t) is Some);
    }
}

/// The replies of reads that return `bytes`, in order.
pub open spec fn byte_replies(bytes: Seq<u8>) -> Seq<Event> {
    Seq::new(bytes.len(), |i: int| Event::Byte(bytes[i]))
}

/// `n` reads of the FIFO.
pub open spec fn fifo_reads(n: nat) -> Seq<Action> {
    Seq::new(n, |i: int| read_action(Register::FIFO))
}

pub open spec fn packet_reader(capacity: usize) -> MachineView {
    begin(start_view(seq![Instr::ReadPacket { capacity }], Query::Packet)).0
}

proof fn lemma_packet_bytes(t: MachineView, capacity: usize, length: usize, payload: Seq<u8>, k: int)
    requires
        wf(t),
        t.program == seq![Instr::ReadPacket { capacity }],
        t.pc == 0,
        t.query == Query::Packet,
        t.phase == (Phase::PacketByte { length }),
        payload.len() == length,
        0 <= k < length,
        t.packet == payload.take(k),
    ensures
        runs(t, byte_replies(payload.skip(k))),
        run(t, byte_replies(payload.skip(k))).0.packet == payload,
        run(t, byte_replies(payload.skip(k))).0.phase is Idle,
        run(t, byte_replies(payload.skip(k))).1 == fifo_reads((length - k - 1) as nat).push(
            Action::Finish(Ok(crate::machine::Output::Length(length))),
        ),
    decreases length - k,
{
    let events = byte_replies(payload.skip(k));
    let b = payload[k];
    assert(events[0] == Event::Byte(b));
    assert(events.drop_first() =~= byte_replies(payload.skip(k + 1)));
    let t1 = MachineView { packet: t.packet.push(b), ..t };
    assert(t1.packet =~= payload.take(k + 1));
    assert(accepts(t, Event::Byte(b)));
    if k + 1 == length {
        let done = with_phase(MachineView { pc: 1, ..t1 }, Phase::Idle);
        assert(transition(t, Event::Byte(b)) == (
            done,
            Action::Finish(Ok(crate::machine::Output::Length(length))),
        ));
        assert(payload.take(k + 1) =~= payload);
        assert(events.drop_first() =~= Seq::<Event>::empty());
        assert(run(done, events.drop_first()) == (done, Seq::<Action>::empty()));
        assert(runs(done, events.drop_first()));
        assert(run(t, events).1 =~= fifo_reads((length - k - 1) as nat).push(
            Action::Finish(Ok(crate::machine::Output::Length(length))),
        ));
    } else {
        assert(transition(t, Event::Byte(b)) == (t1, read_action(Register::FIFO)));
        lemma_packet_bytes(t1, capacity, length, payload, k + 1);
        assert(run(t, events).1 =~= fifo_reads((length - k - 1) as nat).push(
            Action::Finish(Ok(crate::machine::Output::Length(length))),
        ));
    }
}

/// Reading an FSK packet reads the length byte and then exactly that many
/// payload bytes from the FIFO; the result is the length and the payload is
/// the bytes read, in order.
pub proof fn law_packet_read(capacity: usize, length: u8, payload: Seq<u8>)
    requires
        1 <= length <= capacity,
        payload.len() == length,
    ensures
        begin(start_view(seq![Instr::ReadPacket { capacity }], Query::Packet)).1 == read_action(
            Register::FIFO,
        ),
        runs(packet_reader(capacity), byte_replies(seq![length] + payload)),
        run(packet_reader(capacity), byte_replies(seq![length] + payload)).1 == fifo_reads(
            length as nat,
        ).push(Action::Finish(Ok(crate::machine::Output::Length(length as usize)))),
        run(packet_reader(capacity), byte_replies(seq![length] + payload)).0.packet == payload,
{
    let s0 = packet_reader(capacity);
    let events = byte_replies(seq![length] + payload);
    let t = MachineView {
        packet: Seq::empty(),
        phase: Phase::PacketByte { length: length as usize },
        ..s0
    };
    assert(events[0] == Event::Byte(length));
    assert(accepts(s0, Event::Byte(length)));
    assert(transition(s0, Event::Byte(length)) == (t, read_action(Register::FIFO)));
    assert(events.drop_first() =~= byte_replies(payload.skip(0)));
    assert(payload.take(0) =~= Seq::<u8>::empty());
    lemma_packet_bytes(t, capacity, length as usize, payload, 0);
    assert(run(s0, events).1 =~= fifo_reads(length as nat).push(
        Action::Finish(Ok(crate::machine::Output::Length(length as usize))),
    ));
}

/// A length byte of 0, or one beyond the buffer, ends the packet read with
/// `InvalidPacketSize` after that single read.
pub proof fn law_packet_length_refused(capacity: usize, length: u8)
    requires
        length == 0 || length > capacity,
    ensures
        transition(packet_reader(capacity), Event::Byte(length)) == (
            with_phase(packet_reader(capacity), Phase::Idle),
            Action::Finish(Err(RFMError::InvalidPacketSize)),
        ),
{
}

/// Reset pulses the reset line low and high with 10 ms waits, then reads the
/// silicon version; any version but `0x12` ends it with `InvalidVersion`.
pub proof fn law_reset_checks_version(version: u8)
    ensures
        ({
            let (s0, a0) = begin(start_view(reset_program(), Query::Nothing));
            let events = seq![
                Event::PinSet,
                Event::Delayed,
                Event::PinSet,
                Event::Delayed,
                Event::Byte(version),
            ];
            &&& a0 == (Action::SetReset { high: false })
            &&& runs(s0, events)
            &&& run(s0, events).1 == seq![
                Action::Delay { ms: SETTLE_MS },
                Action::SetReset { high: true },
                Action::Delay { ms: SETTLE_MS },
                read_action(Register::Version),
                if version == CHIP_VERSION {
                    read_action(Register::OpMode)
                } else {
                    Action::Finish(Err(RFMError::InvalidVersion { version }))
                },
            ]
        }),
{
    reveal_with_fuel(run, 6);
    reveal_with_fuel(runs, 6);
    let p = reset_program();
    let s0 = begin(start_view(p, Query::Nothing)).0;
    let events = seq![
        Event::PinSet,
        Event::Delayed,
        Event::PinSet,
        Event::Delayed,
        Event::Byte(version),
    ];
    let at = |pc: int| MachineView { pc, ..s0 };
    assert(s0 == with_phase(start_view(p, Query::Nothing), Phase::Pending));
    assert(transition(s0, events[0]) == (at(1), Action::Delay { ms: SETTLE_MS }));
    assert(transition(at(1), events[1]) == (at(2), Action::SetReset { high: true }));
    assert(transition(at(2), events[2]) == (at(3), Action::Delay { ms: SETTLE_MS }));
    assert(transition(at(3), events[3]) == (at(4), read_action(Register::Version)));
    assert(events.drop_first() =~= seq![
        Event::Delayed,
        Event::PinSet,
        Event::Delayed,
        Event::Byte(version),
    ]);
    assert(events.drop_first().drop_first() =~= seq![
        Event::PinSet,
        Event::Delayed,
        Event::Byte(version),
    ]);
    assert(events.drop_first().drop_first().drop_first() =~= seq![
        Event::Delayed,
        Event::Byte(version),
    ]);
    assert(events.drop_first().drop_first().drop_first().drop_first() =~= seq![
        Event::Byte(version),
    ]);
    assert(seq![Event::Byte(version)].drop_first() =~= Seq::<Event>::empty());
}

/// A register write of a program puts out exactly that write and, once
/// acknowledged, goes on with the next instruction.
pub proof fn law_write_instruction(s: MachineView, reg: Register, value: u8)
    requires
        wf(s),
        s.phase == Phase::Pending,
        s.program[s.pc] == (Instr::Write { reg, value }),
    ensures
        pending_action(s) == Some(Action::Write { command: spec_write_command(reg), value }),
        transition(s, Event::Written) == advance(s),
{
}

/// The one-shot queries: PayloadReady is bit 2 of RegIrqFlags2, the IRQ
/// flags are RegIrqFlags1 and RegIrqFlags2 in that order, and DIO0 reports
/// its level.
pub proof fn law_query_results(first: u8, second: u8, level: bool)
    ensures
        ({
            let (s, a) = begin(
                start_view(seq![Instr::Read { reg: Register::FSKIRQFlags2 }], Query::PacketReady),
            );
            &&& a == read_action(Register::FSKIRQFlags2)
            &&& transition(s, Event::Byte(second)).1 == Action::Finish(
                Ok(crate::machine::Output::Flag(second & PAYLOAD_READY_MASK != 0)),
            )
        }),
        ({
            let (s, a) = begin(
                start_view(
                    seq![
                        Instr::Read { reg: Register::FSKIRQFlags1 },
                        Instr::Read { reg: Register::FSKIRQFlags2 },
                    ],
                    Query::IrqFlags,
                ),
            );
            let (t, b) = transition(s, Event::Byte(first));
            &&& a == read_action(Register::FSKIRQFlags1)
            &&& b == read_action(Register::FSKIRQFlags2)
            &&& transition(t, Event::Byte(second)).1 == Action::Finish(
                Ok(crate::machine::Output::Flags(first, second)),
            )
        }),
        ({
            let (s, a) = begin(start_view(seq![Instr::SampleDio0], Query::Dio0));
            &&& a == Action::SampleDio0
            &&& transition(s, Event::Level(level)).1 == Action::Finish(
                Ok(crate::machine::Output::Flag(level)),
            )
        }),
{
    let p = seq![
        Instr::Read { reg: Register::FSKIRQFlags1 },
        Instr::Read { reg: Register::FSKIRQFlags2 },
    ];
    let s = begin(start_view(p, Query::IrqFlags)).0;
    let t = transition(s, Event::Byte(first)).0;
    assert(t.reads =~= seq![first]);
    assert(t.reads.push(second) =~= seq![first, second]);
    let d = begin(start_view(seq![Instr::SampleDio0], Query::Dio0)).0;
    assert(transition(d, Event::Level(level)).0.reads =~= seq![
        if level {
            1u8
        } else {
            0u8
        },
    ]);
}

/// Every step keeps the machine invariant.
pub proof fn law_step_keeps_invariant(s: MachineView, e: Event)
    requires
        wf(s),
        accepts(s, e),
    ensures
        wf(transition(s, e).0),
{
    if !(s.phase is Idle) && s.pc + 1 <= s.program.len() {
        assert(reads_before(s.program, s.pc + 1) == reads_before(s.program, s.pc) + if (
        s.program[s.pc] is Read || s.program[s.pc] is SampleDio0) {
            1nat
        } else {
            0nat
        });
    }
}

/// The three kinds of bus traffic.
pub enum Line {
    /// SPI transfers.
    Spi,
    /// Delays.
    Delay,
    /// Reset and DIO0 pin accesses.
    Pin,
}

/// Whether an action is traffic on `line`.
pub open spec fn uses(a: Action, line: Line) -> bool {
    match a {
        Action::Write { .. } => line is Spi,
        Action::Read { .. } => line is Spi,
        Action::Delay { .. } => line is Delay,
        Action::SetReset { .. } => line is Pin,
        Action::SampleDio0 => line is Pin,
        Action::Finish(_) => false,
    }
}

pub open spec fn use_count(a: Action, line: Line) -> nat {
    if uses(a, line) {
        1
    } else {
        0
    }
}

/// The number of actions of the sequence that are traffic on `line`.
pub open spec fn count_uses(actions: Seq<Action>, line: Line) -> nat
    decreases actions.len(),
{
    if actions.len() == 0 {
        0
    } else {
        use_count(actions[0], line) + count_uses(actions.drop_first(), line)
    }
}

/// The most traffic on `line` that an instruction can cause.
pub open spec fn instr_cost(i: Instr, line: Line) -> nat {
    match (i, line) {
        (Instr::Write { .. }, Line::Spi) => 1,
        (Instr::SetMode { .. }, Line::Spi) => 3,
        (Instr::SetMode { .. }, Line::Delay) => 1,
        (Instr::DriveReset { .. }, Line::Pin) => 1,
        (Instr::Wait { .. }, Line::Delay) => 1,
        (Instr::CheckVersion, Line::Spi) => 1,
        (Instr::AwaitFlag { .. }, Line::Spi) => POLL_ROUNDS as nat,
        (Instr::AwaitFlag { .. }, Line::Delay) => POLL_ROUNDS as nat,
        (Instr::Read { .. }, Line::Spi) => 1,
        (Instr::SampleDio0, Line::Pin) => 1,
        (Instr::ReadPacket { capacity }, Line::Spi) => (1 + capacity) as nat,
        _ => 0,
    }
}

/// The most traffic on `line` that a program can cause.
pub open spec fn program_cost(p: Seq<Instr>, line: Line) -> nat
    decreases p.len(),
{
    if p.len() == 0 {
        0
    } else {
        program_cost(p.drop_last(), line) + instr_cost(p.last(), line)
    }
}

/// The most traffic on `line` that the rest of the current instruction can
/// cause, its pending action included.
pub open spec fn phase_cost(s: MachineView, line: Line) -> nat {
    match (s.phase, line) {
        (Phase::Pending, _) => instr_cost(s.program[s.pc], line),
        (Phase::ModeQuery, Line::Spi) => 3,
        (Phase::ModeQuery, Line::Delay) => 1,
        (Phase::ModeWrite { .. }, Line::Spi) => 2,
        (Phase::ModeWrite { .. }, Line::Delay) => 1,
        (Phase::ModeSettle { .. }, Line::Spi) => 1,
        (Phase::ModeSettle { .. }, Line::Delay) => 1,
        (Phase::ModeConfirm { .. }, Line::Spi) => 1,
        (Phase::PollDelay { round }, Line::Spi) => (POLL_ROUNDS - round) as nat,
        (Phase::PollDelay { round }, Line::Delay) => (POLL_ROUNDS - round) as nat,
        (Phase::PollRead { round }, Line::Spi) => (POLL_ROUNDS - round) as nat,
        (Phase::PollRead { round }, Line::Delay) => (POLL_ROUNDS - round - 1) as nat,
        (Phase::PacketLength, Line::Spi) => (1 + packet_capacity(s)) as nat,
        (Phase::PacketByte { length }, Line::Spi) => (length - s.packet.len()) as nat,
        _ => 0,
    }
}

/// The most traffic on `line` that the running operation can still cause,
/// its pending action included.
pub open spec fn cost_left(s: MachineView, line: Line) -> nat {
    if s.phase is Idle {
        0
    } else {
        phase_cost(s, line) + program_cost(s.program.skip(s.pc + 1), line)
    }
}

/// Whether the pending action is traffic on `line`, as a count.
pub open spec fn pending_uses(s: MachineView, line: Line) -> nat {
    match pending_action(s) {
        Some(a) => use_count(a, line),
        None => 0,
    }
}

proof fn lemma_cost_append(a: Seq<Instr>, b: Seq<Instr>, line: Line)
    ensures
        program_cost(a + b, line) == program_cost(a, line) + program_cost(b, line),
    decreases b.len(),
{
    if b.len() == 0 {
        assert(a + b =~= a);
    } else {
        assert((a + b).drop_last() =~= a + b.drop_last());
        assert((a + b).last() == b.last());
        lemma_cost_append(a, b.drop_last(), line);
    }
}

proof fn lemma_cost_single(i: Instr, line: Line)
    ensures
        program_cost(seq![i], line) == instr_cost(i, line),
{
    assert(seq![i].drop_last() =~= Seq::<Instr>::empty());
    assert(program_cost(Seq::<Instr>::empty(), line) == 0);
}

proof fn lemma_cost_push(p: Seq<Instr>, i: Instr, line: Line)
    ensures
        program_cost(p.push(i), line) == program_cost(p, line) + instr_cost(i, line),
{
    assert(p.push(i).drop_last() =~= p);
}

proof fn lemma_cost_skip(p: Seq<Instr>, k: int, line: Line)
    requires
        0 <= k < p.len(),
    ensures
        program_cost(p.skip(k), line) == instr_cost(p[k], line) + program_cost(p.skip(k + 1), line),
{
    assert(p.skip(k) =~= seq![p[k]] + p.skip(k + 1));
    lemma_cost_append(seq![p[k]], p.skip(k + 1), line);
    lemma_cost_single(p[k], line);
}

proof fn lemma_begin_cost(s: MachineView, line: Line)
    requires
        0 <= s.pc <= s.program.len(),
    ensures
        cost_left(begin(s).0, line) == program_cost(s.program.skip(s.pc), line),
        begin(s).0.phase is Idle ==> begin(s).1 is Finish,
        !(begin(s).0.phase is Idle) ==> pending_action(begin(s).0) == Some(begin(s).1),
{
    if s.pc < s.program.len() {
        lemma_cost_skip(s.program, s.pc, line);
        let t = begin(s).0;
        assert(pending_action(t) is Some);
    } else {
        assert(s.program.skip(s.pc) =~= Seq::<Instr>::empty());
    }
}

/// One step spends at least the traffic of the action it answers.
proof fn lemma_step_cost(s: MachineView, e: Event, line: Line)
    requires
        wf(s),
        accepts(s, e),
    ensures
        pending_uses(s, line) + cost_left(transition(s, e).0, line) <= cost_left(s, line),
        pending_uses(transition(s, e).0, line) == use_count(transition(s, e).1, line),
{
    let (t, a) = transition(s, e);
    let next = MachineView { pc: s.pc + 1, ..s };
    lemma_begin_cost(next, line);
    lemma_cost_skip(s.program, s.pc, line);
    law_finish_exactly_when_idle(s, e, e);
    if !(t.phase is Idle) {
        assert(pending_action(t) is Some);
    }
    match s.phase {
        Phase::Pending => {
            if e is Byte || e is Level {
                lemma_begin_cost(MachineView { pc: s.pc + 1, reads: t.reads, ..s }, line);
            }
        },
        Phase::PacketByte { length } => {
            if e is Byte {
                lemma_begin_cost(MachineView { pc: s.pc + 1, packet: t.packet, ..s }, line);
            }
        },
        _ => {},
    }
}

proof fn lemma_run_cost(s: MachineView, events: Seq<Event>, line: Line)
    requires
        wf(s),
        runs(s, events),
    ensures
        count_uses(run(s, events).1, line) + pending_uses(s, line) <= cost_left(s, line),
    decreases events.len(),
{
    if events.len() > 0 {
        let (t, a) = transition(s, events[0]);
        lemma_step_cost(s, events[0], line);
        law_step_keeps_invariant(s, events[0]);
        lemma_run_cost(t, events.drop_first(), line);
        let actions = run(s, events).1;
        assert(actions.drop_first() =~= run(t, events.drop_first()).1);
    }
}

/// The whole traffic of an operation, first action included, never exceeds
/// what its program can cause.
pub proof fn law_traffic_bound(p: Seq<Instr>, q: Query, events: Seq<Event>, line: Line)
    requires
        wf(start_view(p, q)),
        runs(begin(start_view(p, q)).0, events),
    ensures
        count_uses(seq![begin(start_view(p, q)).1] + run(begin(start_view(p, q)).0, events).1, line)
            <= program_cost(p, line),
{
    let (s0, a0) = begin(start_view(p, q));
    lemma_begin_cost(start_view(p, q), line);
    assert(p.skip(0) =~= p);
    law_begin_keeps_invariant(start_view(p, q));
    lemma_run_cost(s0, events, line);
    let actions = seq![a0] + run(s0, events).1;
    assert(actions.drop_first() =~= run(s0, events).1);
    if s0.phase is Idle {
        assert(run(s0, events).1.len() == 0) by {
            if events.len() > 0 {
                assert(!accepts(s0, events[0]));
            }
        }
        assert(count_uses(actions.drop_first(), line) == 0);
    }
}

/// Starting an operation gives a machine that keeps the invariant.
pub proof fn law_begin_keeps_invariant(s: MachineView)
    requires
        wf(with_phase(s, Phase::Idle)),
    ensures
        wf(begin(s).0),
{
}

proof fn lemma_payload_cost(packet: Seq<u8>, line: Line)
    ensures
        program_cost(payload_writes(packet), line) == if line is Spi {
            packet.len()
        } else {
            0
        },
    decreases packet.len(),
{
    if packet.len() > 0 {
        assert(payload_writes(packet) =~= payload_writes(packet.drop_last()).push(
            write_instr(Register::FIFO, packet.last()),
        ));
        lemma_cost_push(payload_writes(packet.drop_last()), write_instr(Register::FIFO, packet.last()), line);
        lemma_payload_cost(packet.drop_last(), line);
    } else {
        assert(payload_writes(packet) =~= Seq::<Instr>::empty());
    }
}

proof fn lemma_cost_three(a: Instr, b: Instr, c: Instr, line: Line)
    ensures
        program_cost(seq![a, b, c], line) == instr_cost(a, line) + instr_cost(b, line) + instr_cost(c, line),
{
    lemma_cost_push(seq![a, b], c, line);
    lemma_cost_push(seq![a], b, line);
    lemma_cost_single(a, line);
    assert(seq![a, b].push(c) =~= seq![a, b, c]);
    assert(seq![a].push(b) =~= seq![a, b]);
}

/// A LoRa transmission of `n` bytes makes at most `n + 120` SPI transfers
/// and at most 103 delays, and never touches the reset or DIO0 pins, whatever
/// the chip answers.
pub proof fn law_send_packet_traffic(packet: Seq<u8>, freq: [u8; 3], rate: DataRate, events: Seq<Event>)
    requires
        valid_packet_size(packet.len() as int),
        runs(begin(start_view(send_packet_program(packet, freq, rate), Query::Nothing)).0, events),
    ensures
        ({
            let (s0, a0) = begin(start_view(send_packet_program(packet, freq, rate), Query::Nothing));
            let actions = seq![a0] + run(s0, events).1;
            &&& count_uses(actions, Line::Spi) <= packet.len() + 120
            &&& count_uses(actions, Line::Delay) <= 103
            &&& count_uses(actions, Line::Pin) == 0
        }),
{
    let p = send_packet_program(packet, freq, rate);
    assert(wf(start_view(p, Query::Nothing)));
    let head = seq![
        Instr::SetMode { mode: mode::LORA | mode::STANDBY },
        write_instr(Register::DIOMapping1, 0x40),
    ];
    let mid = seq![
        write_instr(Register::PayloadLength, packet.len() as u8),
        write_instr(Register::FIFOAddressPointer, 0x80),
    ];
    let tail = seq![
        write_instr(Register::IRQFlags, 0xFF),
        Instr::SetMode { mode: mode::LORA | mode::TRANSMIT },
        Instr::AwaitFlag { reg: Register::IRQFlags, mask: TX_DONE_MASK },
        write_instr(Register::IRQFlags, 0xFF),
        Instr::SetMode { mode: mode::LORA | mode::STANDBY },
    ];
    let f = frequency_writes(freq);
    let r = data_rate_writes(rate, true);
    let pay = payload_writes(packet);
    assert(p == head + f + r + mid + pay + tail);
    let lines = seq![Line::Spi, Line::Delay, Line::Pin];
    assert forall|k: int| 0 <= k < 3 implies program_cost(p, #[trigger] lines[k]) == match lines[k] {
        Line::Spi => packet.len() + 120,
        Line::Delay => 103nat,
        Line::Pin => 0nat,
    } by {
        let line = lines[k];
        lemma_cost_append(head + f + r + mid + pay, tail, line);
        lemma_cost_append(head + f + r + mid, pay, line);
        lemma_cost_append(head + f + r, mid, line);
        lemma_cost_append(head + f, r, line);
        lemma_cost_append(head, f, line);
        lemma_payload_cost(packet, line);
        lemma_cost_push(seq![head[0]], head[1], line);
        lemma_cost_single(head[0], line);
        assert(seq![head[0]].push(head[1]) =~= head);
        lemma_cost_push(seq![mid[0]], mid[1], line);
        lemma_cost_single(mid[0], line);
        assert(seq![mid[0]].push(mid[1]) =~= mid);
        lemma_cost_three(f[0], f[1], f[2], line);
        assert(seq![f[0], f[1], f[2]] =~= f);
        lemma_cost_three(r[0], r[1], r[2], line);
        assert(seq![r[0], r[1], r[2]] =~= r);
        lemma_cost_three(tail[0], tail[1], tail[2], line);
        lemma_cost_push(seq![tail[0], tail[1], tail[2]], tail[3], line);
        lemma_cost_push(seq![tail[0], tail[1], tail[2]].push(tail[3]), tail[4], line);
        assert(seq![tail[0], tail[1], tail[2]].push(tail[3]).push(tail[4]) =~= tail);
    }
    law_traffic_bound(p, Query::Nothing, events, Line::Spi);
    law_traffic_bound(p, Query::Nothing, events, Line::Delay);
    law_traffic_bound(p, Query::Nothing, events, Line::Pin);
    assert(program_cost(p, lines[0]) == packet.len() + 120);
    assert(program_cost(p, lines[1]) == 103);
    assert(program_cost(p, lines[2]) == 0);
}

/// After a step the pending action is the one the step put out, or the
/// machine is idle and the step put out the result.
proof fn lemma_action_is_pending(s: MachineView, e: Event)
    requires
        wf(s),
        accepts(s, e),
    ensures
        transition(s, e).0.program == s.program,
        transition(s, e).0.pc == s.pc || transition(s, e).0.pc == s.pc + 1,
        transition(s, e).0.phase is Idle ==> transition(s, e).1 is Finish,
        !(transition(s, e).0.phase is Idle) ==> pending_action(transition(s, e).0) == Some(
            transition(s, e).1,
        ),
{
    let t = transition(s, e).0;
    law_finish_exactly_when_idle(s, e, e);
    if !(t.phase is Idle) {
        assert(pending_action(t) is Some);
    }
}

/// Whether an action that writes RegOpMode writes one of `modes`.
pub open spec fn mode_write_within(a: Action, modes: Set<u8>) -> bool {
    match a {
        Action::Write { command, value } => command == spec_write_command(Register::OpMode)
            ==> modes.contains(value),
        _ => true,
    }
}

/// Whether every mode a program sets is one of `modes`, and no plain register
/// write of it touches RegOpMode.
pub open spec fn program_modes_within(p: Seq<Instr>, modes: Set<u8>) -> bool {
    forall|k: int|
        0 <= k < p.len() ==> match #[trigger] p[k] {
            Instr::SetMode { mode } => modes.contains(mode),
            Instr::Write { reg, .. } => reg != Register::OpMode,
            _ => true,
        }
}

proof fn lemma_write_command_names_register(reg: Register)
    requires
        spec_write_command(reg) == spec_write_command(Register::OpMode),
    ensures
        reg == Register::OpMode,
{
    lemma_address_is_seven_bits(reg);
}

proof fn lemma_pending_mode_write(s: MachineView, modes: Set<u8>)
    requires
        wf(s),
        program_modes_within(s.program, modes),
        pending_action(s) is Some,
    ensures
        mode_write_within(pending_action(s).unwrap(), modes),
{
    let a = pending_action(s).unwrap();
    let i = s.program[s.pc];
    if let Action::Write { command, value } = a {
        if command == spec_write_command(Register::OpMode) {
            if let Instr::Write { reg, .. } = i {
                if s.phase is Pending {
                    lemma_write_command_names_register(reg);
                }
            }
        }
    }
}

proof fn lemma_run_mode_writes(s: MachineView, events: Seq<Event>, modes: Set<u8>)
    requires
        wf(s),
        runs(s, events),
        program_modes_within(s.program, modes),
    ensures
        forall|i: int|
            0 <= i < run(s, events).1.len() ==> mode_write_within(#[trigger] run(s, events).1[i], modes),
    decreases events.len(),
{
    if events.len() > 0 {
        let (t, a) = transition(s, events[0]);
        lemma_action_is_pending(s, events[0]);
        law_step_keeps_invariant(s, events[0]);
        if !(t.phase is Idle) {
            lemma_pending_mode_write(t, modes);
        }
        lemma_run_mode_writes(t, events.drop_first(), modes);
        let actions = run(s, events).1;
        assert(actions =~= seq![a] + run(t, events.drop_first()).1);
        assert forall|i: int| 0 <= i < actions.len() implies mode_write_within(
            #[trigger] actions[i],
            modes,
        ) by {
            if i > 0 {
                assert(actions[i] == run(t, events.drop_first()).1[i - 1]);
            }
        }
    }
}

proof fn lemma_modes_within_append(a: Seq<Instr>, b: Seq<Instr>, modes: Set<u8>)
    requires
        program_modes_within(a, modes),
        program_modes_within(b, modes),
    ensures
        program_modes_within(a + b, modes),
{
    assert forall|k: int| 0 <= k < (a + b).len() implies match #[trigger] (a + b)[k] {
        Instr::SetMode { mode } => modes.contains(mode),
        Instr::Write { reg, .. } => reg != Register::OpMode,
        _ => true,
    } by {
        if k < a.len() {
            assert((a + b)[k] == a[k]);
        } else {
            assert((a + b)[k] == b[k - a.len()]);
        }
    }
}

/// The FSK modes that an FSK transmission may set: standby and transmit.
pub open spec fn fsk_send_modes() -> Set<u8> {
    set![mode::STANDBY, mode::TRANSMIT]
}

proof fn lemma_fsk_program_modes(packet: Seq<u8>, freq: [u8; 3], rate: FskDataRate)
    ensures
        program_modes_within(send_fsk_packet_program(packet, freq, rate), fsk_send_modes()),
{
    let m = fsk_send_modes();
    let head = seq![Instr::SetMode { mode: mode::STANDBY }];
    let f = frequency_writes(freq);
    let r = fsk_data_rate_writes(rate);
    let g = fsk_packet_engine_writes();
    let mid = seq![
        write_instr(Register::DIOMapping1, 0x40),
        write_instr(Register::FIFO, packet.len() as u8),
    ];
    let pay = payload_writes(packet);
    let tail = seq![
        Instr::SetMode { mode: mode::TRANSMIT },
        Instr::AwaitFlag { reg: Register::FSKIRQFlags2, mask: TX_DONE_MASK },
        Instr::SetMode { mode: mode::STANDBY },
    ];
    assert(m.contains(mode::STANDBY) && m.contains(mode::TRANSMIT));
    assert(program_modes_within(head, m));
    assert(program_modes_within(f, m));
    assert(program_modes_within(r, m));
    assert(program_modes_within(g, m));
    assert(program_modes_within(mid, m));
    assert(program_modes_within(pay, m));
    assert(program_modes_within(tail, m));
    lemma_modes_within_append(head, f, m);
    lemma_modes_within_append(head + f, r, m);
    lemma_modes_within_append(head + f + r, g, m);
    lemma_modes_within_append(head + f + r + g, mid, m);
    lemma_modes_within_append(head + f + r + g + mid, pay, m);
    lemma_modes_within_append(head + f + r + g + mid + pay, tail, m);
    assert(send_fsk_packet_program(packet, freq, rate) == head + f + r + g + mid + pay + tail);
}

/// An FSK transmission stays in the FSK modem: every write of RegOpMode it
/// makes, whatever the chip answers, sets FSK standby (0x01) or FSK transmit
/// (0x03), never the LoRa bit.
pub proof fn law_fsk_send_stays_fsk(
    packet: Seq<u8>,
    freq: [u8; 3],
    rate: FskDataRate,
    events: Seq<Event>,
)
    requires
        valid_packet_size(packet.len() as int),
        runs(
            begin(start_view(send_fsk_packet_program(packet, freq, rate), Query::Nothing)).0,
            events,
        ),
    ensures
        ({
            let (s0, a0) = begin(
                start_view(send_fsk_packet_program(packet, freq, rate), Query::Nothing),
            );
            let actions = seq![a0] + run(s0, events).1;
            forall|i: int|
                0 <= i < actions.len() ==> mode_write_within(#[trigger] actions[i], fsk_send_modes())
        }),
{
    let p = send_fsk_packet_program(packet, freq, rate);
    let (s0, a0) = begin(start_view(p, Query::Nothing));
    lemma_fsk_program_modes(packet, freq, rate);
    assert(wf(start_view(p, Query::Nothing)));
    law_begin_keeps_invariant(start_view(p, Query::Nothing));
    lemma_begin_cost(start_view(p, Query::Nothing), Line::Spi);
    lemma_pending_mode_write(s0, fsk_send_modes());
    lemma_run_mode_writes(s0, events, fsk_send_modes());
    let actions = seq![a0] + run(s0, events).1;
    assert forall|i: int| 0 <= i < actions.len() implies mode_write_within(
        #[trigger] actions[i],
        fsk_send_modes(),
    ) by {
        if i > 0 {
            assert(actions[i] == run(s0, events).1[i - 1]);
        }
    }
}

/// Whether, in the run from `s`, the reply `events[i]` arrives while the
/// machine polls the flag wait at `k`, and shows a bit of `mask`.
pub open spec fn flag_seen_at(s: MachineView, events: Seq<Event>, i: int, k: int, mask: u8) -> bool {
    let before = run(s, events.take(i)).0;
    &&& 0 <= i < events.len()
    &&& before.pc == k
    &&& before.phase is PollRead
    &&& events[i] matches Event::Byte(v) && v & mask != 0
}

proof fn lemma_run_prefix(s: MachineView, events: Seq<Event>, i: int)
    requires
        0 <= i < events.len(),
    ensures
        run(s, events.take(i + 1)).0 == run(transition(s, events[0]).0, events.drop_first().take(i)).0,
{
    let pre = events.take(i + 1);
    assert(pre[0] == events[0]);
    assert(pre.drop_first() =~= events.drop_first().take(i));
}

proof fn lemma_run_passes_flag_wait(
    s: MachineView,
    events: Seq<Event>,
    k: int,
    reg: Register,
    mask: u8,
)
    requires
        wf(s),
        runs(s, events),
        s.pc <= k < s.program.len(),
        s.program[k] == (Instr::AwaitFlag { reg, mask }),
        run(s, events).0.pc > k,
    ensures
        exists|i: int| flag_seen_at(s, events, i, k, mask),
    decreases events.len(),
{
    if events.len() == 0 {
    } else {
        let e = events[0];
        let t = transition(s, e).0;
        lemma_action_is_pending(s, e);
        law_step_keeps_invariant(s, e);
        if t.pc > k {
            assert(s.pc == k);
            assert(events.take(0) =~= Seq::<Event>::empty());
            assert(run(s, events.take(0)).0 == s);
            assert(flag_seen_at(s, events, 0, k, mask));
        } else {
            lemma_run_passes_flag_wait(t, events.drop_first(), k, reg, mask);
            let j = choose|j: int| flag_seen_at(t, events.drop_first(), j, k, mask);
            lemma_run_prefix(s, events, j);
            assert(run(s, events.take(j + 1)).0 == run(t, events.drop_first().take(j)).0);
            assert(flag_seen_at(s, events, j + 1, k, mask));
        }
    }
}

proof fn lemma_run_length(s: MachineView, events: Seq<Event>)
    ensures
        run(s, events).1.len() == events.len(),
    decreases events.len(),
{
    if events.len() > 0 {
        lemma_run_length(transition(s, events[0]).0, events.drop_first());
    }
}

/// A run whose last action reports success has run its program to the end,
/// and its last reply passed the last instruction.
proof fn lemma_success_ends_program(s: MachineView, events: Seq<Event>)
    requires
        wf(s),
        runs(s, events),
        events.len() > 0,
        run(s, events).1.last() is Finish,
        run(s, events).1.last()->0 is Ok,
    ensures
        run(s, events).0.pc == s.program.len(),
        run(s, events).0.program == s.program,
        ({
            let before = run(s, events.take(events.len() - 1)).0;
            &&& before.pc == s.program.len() - 1
            &&& (before.program[before.pc] matches Instr::SetMode { mode } ==> events.last()
                == Event::Byte(mode))
        }),
    decreases events.len(),
{
    let e = events[0];
    let (t, a) = transition(s, e);
    lemma_action_is_pending(s, e);
    law_step_keeps_invariant(s, e);
    lemma_run_length(t, events.drop_first());
    if events.len() == 1 {
        assert(events.drop_first() =~= Seq::<Event>::empty());
        assert(run(s, events).1 =~= seq![a]);
        assert(events.take(0) =~= Seq::<Event>::empty());
        assert(run(s, events.take(0)).0 == s);
    } else {
        assert(run(s, events).1.last() == run(t, events.drop_first()).1.last());
        lemma_success_ends_program(t, events.drop_first());
        lemma_run_prefix(s, events, events.len() - 2);
        assert(events.drop_first().take(events.len() - 2) =~= events.drop_first().take(
            events.drop_first().len() - 1,
        ));
        assert(events.drop_first().last() == events.last());
    }
}

/// An FSK transmission reports success only after a poll of RegIrqFlags2,
/// within its 100 rounds, showed PacketSent, and only once the chip then read
/// back FSK standby.
pub proof fn law_fsk_send_success_needs_packet_sent(
    packet: Seq<u8>,
    freq: [u8; 3],
    rate: FskDataRate,
    events: Seq<Event>,
)
    requires
        valid_packet_size(packet.len() as int),
        runs(
            begin(start_view(send_fsk_packet_program(packet, freq, rate), Query::Nothing)).0,
            events,
        ),
        events.len() > 0,
        run(
            begin(start_view(send_fsk_packet_program(packet, freq, rate), Query::Nothing)).0,
            events,
        ).1.last() == Action::Finish(Ok(crate::machine::Output::Unit)),
    ensures
        ({
            let p = send_fsk_packet_program(packet, freq, rate);
            let s0 = begin(start_view(p, Query::Nothing)).0;
            &&& p[p.len() - 2] == (Instr::AwaitFlag {
                reg: Register::FSKIRQFlags2,
                mask: TX_DONE_MASK,
            })
            &&& exists|i: int| #[trigger]
                flag_seen_at(s0, events, i, p.len() - 2, TX_DONE_MASK) && pending_action(
                    run(s0, events.take(i)).0,
                ) == Some(read_action(Register::FSKIRQFlags2))
            &&& events.last() == Event::Byte(mode::STANDBY)
        }),
{
    let p = send_fsk_packet_program(packet, freq, rate);
    let s0 = begin(start_view(p, Query::Nothing)).0;
    let k = p.len() - 2;
    let head = seq![Instr::SetMode { mode: mode::STANDBY }] + frequency_writes(freq)
        + fsk_data_rate_writes(rate) + fsk_packet_engine_writes() + seq![
        write_instr(Register::DIOMapping1, 0x40),
        write_instr(Register::FIFO, packet.len() as u8),
    ] + payload_writes(packet);
    let tail = seq![
        Instr::SetMode { mode: mode::TRANSMIT },
        Instr::AwaitFlag { reg: Register::FSKIRQFlags2, mask: TX_DONE_MASK },
        Instr::SetMode { mode: mode::STANDBY },
    ];
    assert(p == head + tail);
    assert(p[k] == tail[1]);
    assert(p[p.len() - 1] == tail[2]);
    assert(wf(start_view(p, Query::Nothing)));
    law_begin_keeps_invariant(start_view(p, Query::Nothing));
    lemma_success_ends_program(s0, events);
    lemma_run_passes_flag_wait(s0, events, k, Register::FSKIRQFlags2, TX_DONE_MASK);
    let i = choose|i: int| flag_seen_at(s0, events, i, k, TX_DONE_MASK);
    assert(flag_seen_at(s0, events, i, k, TX_DONE_MASK));
    let before = run(s0, events.take(i)).0;
    lemma_run_keeps_program(s0, events.take(i));
    assert(pending_action(before) == Some(read_action(Register::FSKIRQFlags2)));
    lemma_run_keeps_program(s0, events.take(events.len() - 1));
}

proof fn lemma_run_keeps_program(s: MachineView, events: Seq<Event>)
    ensures
        run(s, events).0.program == s.program,
    decreases events.len(),
{
    if events.len() > 0 {
        lemma_run_keeps_program(transition(s, events[0]).0, events.drop_first());
    }
}

/// A chip that is a plain file of 128 registers answering every action:
/// writes store the value, reads return the stored byte, pins and delays
/// succeed, DIO0 reads low.
pub open spec fn register_file_reply(regs: Seq<u8>, a: Action) -> (Seq<u8>, Event) {
    match a {
        Action::Write { command, value } => (regs.update(command - 0x80, value), Event::Written),
        Action::Read { command } => (regs, Event::Byte(regs[command as int])),
        Action::SetReset { .. } => (regs, Event::PinSet),
        Action::Delay { .. } => (regs, Event::Delayed),
        Action::SampleDio0 => (regs, Event::Level(false)),
        Action::Finish(_) => (regs, Event::Failed),
    }
}

/// Up to `fuel` steps of the machine against a register file, starting from
/// state `s` with action `a` out; it stops at the result.
pub open spec fn simulate(s: MachineView, a: Action, regs: Seq<u8>, fuel: nat) -> (
    MachineView,
    Action,
    Seq<u8>,
)
    decreases fuel,
{
    if fuel == 0 || a is Finish {
        (s, a, regs)
    } else {
        let (r, e) = register_file_reply(regs, a);
        let (t, b) = transition(s, e);
        simulate(t, b, r, (fuel - 1) as nat)
    }
}

/// What an instruction leaves in the register file when it succeeds.
pub open spec fn instr_effect(i: Instr, regs: Seq<u8>) -> Seq<u8> {
    match i {
        Instr::Write { reg, value } => regs.update(spec_address(reg) as int, value),
        Instr::SetMode { mode } => regs.update(spec_address(Register::OpMode) as int, mode),
        _ => regs,
    }
}

/// Whether an instruction succeeds on the register file.
pub open spec fn instr_succeeds(i: Instr, regs: Seq<u8>) -> bool {
    match i {
        Instr::Write { .. } => true,
        Instr::SetMode { .. } => true,
        Instr::DriveReset { .. } => true,
        Instr::Wait { .. } => true,
        Instr::CheckVersion => regs[spec_address(Register::Version) as int] == CHIP_VERSION,
        Instr::AwaitFlag { reg, mask } => regs[spec_address(reg) as int] & mask != 0,
        _ => false,
    }
}

/// Whether the instructions of `p` from `k` on all succeed on the register file.
pub open spec fn program_succeeds(p: Seq<Instr>, k: int, regs: Seq<u8>) -> bool
    decreases p.len() - k,
{
    if k < 0 || k >= p.len() {
        true
    } else {
        instr_succeeds(p[k], regs) && program_succeeds(p, k + 1, instr_effect(p[k], regs))
    }
}

/// The register file after the instructions of `p` from `k` on.
pub open spec fn program_effect(p: Seq<Instr>, k: int, regs: Seq<u8>) -> Seq<u8>
    decreases p.len() - k,
{
    if k < 0 || k >= p.len() {
        regs
    } else {
        program_effect(p, k + 1, instr_effect(p[k], regs))
    }
}

proof fn lemma_begin_ignores_phase(s: MachineView, phase: Phase)
    ensures
        begin(with_phase(s, phase)) == begin(s),
{
}

/// On a register file where each instruction succeeds, a program without
/// reads runs to its end within four steps per instruction, reports success
/// and leaves the registers as its writes and mode switches set them.
#[verifier::spinoff_prover]
#[verifier::rlimit(50)]
proof fn lemma_simulate_program(s: MachineView, regs: Seq<u8>, fuel: nat)
    requires
        0 <= s.pc <= s.program.len(),
        s.query == Query::Nothing,
        regs.len() == 128,
        program_succeeds(s.program, s.pc, regs),
        fuel >= 4 * (s.program.len() - s.pc),
    ensures
        ({
            let (t, a) = begin(s);
            simulate(t, a, regs, fuel) == (
                MachineView { pc: s.program.len() as int, phase: Phase::Idle, ..s },
                Action::Finish(Ok(crate::machine::Output::Unit)),
                program_effect(s.program, s.pc, regs),
            )
        }),
    decreases s.program.len() - s.pc,
{
    reveal_with_fuel(simulate, 5);
    if s.pc < s.program.len() {
        let i = s.program[s.pc];
        let next = MachineView { pc: s.pc + 1, ..s };
        let regs2 = instr_effect(i, regs);
        let (t, a) = begin(s);
        match i {
            Instr::Write { reg, value } => {
                lemma_address_is_seven_bits(reg);
                lemma_simulate_program(next, regs2, (fuel - 1) as nat);
                lemma_begin_ignores_phase(next, t.phase);
                assert(with_phase(next, t.phase) == MachineView { pc: s.pc + 1, ..t });
            },
            Instr::SetMode { mode } => {
                if regs[1] == mode {
                    assert(regs2 =~= regs);
                    lemma_simulate_program(next, regs2, (fuel - 1) as nat);
                    lemma_begin_ignores_phase(next, t.phase);
                    assert(with_phase(next, t.phase) == MachineView { pc: s.pc + 1, ..t });
                } else {
                    lemma_simulate_program(next, regs2, (fuel - 4) as nat);
                    let t3 = with_phase(s, Phase::ModeConfirm { old: regs[1] });
                    lemma_begin_ignores_phase(next, t3.phase);
                    assert(with_phase(next, t3.phase) == MachineView { pc: s.pc + 1, ..t3 });
                }
            },
            Instr::AwaitFlag { reg, mask } => {
                lemma_simulate_program(next, regs2, (fuel - 2) as nat);
                let t3 = with_phase(s, Phase::PollRead { round: 0 });
                lemma_begin_ignores_phase(next, t3.phase);
                assert(with_phase(next, t3.phase) == MachineView { pc: s.pc + 1, ..t3 });
            },
            _ => {
                lemma_simulate_program(next, regs2, (fuel - 1) as nat);
                lemma_begin_ignores_phase(next, t.phase);
                assert(with_phase(next, t.phase) == MachineView { pc: s.pc + 1, ..t });
            },
        }
    }
}

/// Reset run against a register file: its result and the registers after it.
pub open spec fn reset_on_register_file(regs: Seq<u8>) -> (Action, Seq<u8>) {
    let (s, a) = begin(start_view(reset_program(), Query::Nothing));
    let (t, b, r) = simulate(s, a, regs, 4 * 14);
    (b, r)
}

/// The register file after reset: every register reset touches holds its
/// configured value, every other keeps its own.
pub open spec fn after_reset(regs: Seq<u8>) -> Seq<u8> {
    regs.update(0x01, 0x00).update(0x01, 0x80).update(0x09, 0xFF).update(0x1F, 0x25).update(
        0x20,
        0x00,
    ).update(0x21, 0x08).update(0x39, 0x34).update(0x0E, 0x80).update(0x0F, 0x00)
}

proof fn lemma_reset_on_register_file(regs: Seq<u8>)
    requires
        regs.len() == 128,
        regs[0x42] == CHIP_VERSION,
    ensures
        reset_on_register_file(regs) == (
            Action::Finish(Ok(crate::machine::Output::Unit)),
            after_reset(regs),
        ),
{
    let p = reset_program();
    reveal_with_fuel(program_succeeds, 15);
    reveal_with_fuel(program_effect, 15);
    crate::program::lemma_config_words();
    assert(program_succeeds(p, 0, regs));
    assert(program_effect(p, 0, regs) =~= after_reset(regs));
    lemma_simulate_program(start_view(p, Query::Nothing), regs, 4 * 14);
}

/// On a chip that is a plain register file holding version `0x12`, reset
/// succeeds, and a second reset succeeds too and leaves the registers exactly
/// as the first one did.
pub proof fn law_reset_is_idempotent(regs: Seq<u8>)
    requires
        regs.len() == 128,
        regs[0x42] == CHIP_VERSION,
    ensures
        reset_on_register_file(regs).0 == Action::Finish(Ok(crate::machine::Output::Unit)),
        reset_on_register_file(reset_on_register_file(regs).1).0 == Action::Finish(
            Ok(crate::machine::Output::Unit),
        ),
        reset_on_register_file(reset_on_register_file(regs).1).1 == reset_on_register_file(regs).1,
{
    lemma_reset_on_register_file(regs);
    let r1 = after_reset(regs);
    assert(r1[0x42] == CHIP_VERSION);
    lemma_reset_on_register_file(r1);
    assert(after_reset(r1) =~= r1);
}

} // verus!

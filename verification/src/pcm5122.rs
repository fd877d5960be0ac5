//! The PCM5122 audio DAC on the I2C bus: how its registers are read and
//! written, and the register settings that bring it up in its default
//! configuration.
//!
//! Each operation is a script of bus commands run by a [`Session`]: the caller
//! carries out the bus transfers and pauses, and the session stops at the
//! first transfer that fails.
use crate::session::{all_succeed, issued, lemma_replays_script_on_success, lemma_stops_at_first_failure, run, Event, Session, SessionModel};
use vstd::prelude::*;

verus! {

/// The DAC's 7-bit I2C address: its 8-bit write address 0x9A without the
/// read/write bit.
pub const DAC_ADDRESS: u8 = 0x4d;

/// The register-address byte that opens every register access: register 0
/// (page select) with the auto-increment bit set.
pub const PAGE_SELECT_BYTE: u8 = 0x80;

/// One step of work on the I2C bus.
#[derive(Clone, Copy, Debug, PartialEq, Eq)]
pub enum BusCommand {
    /// Write `reg`, followed by `data` when there is one, to the device at
    /// `addr`, then read one byte back from it.
    WriteRead { addr: u8, reg: u8, data: Option<u8> },
    /// Wait this many milliseconds.
    Pause(u16),
}

/// One step of the default configuration.
#[derive(Clone, Copy, Debug, PartialEq, Eq)]
pub enum InitStep {
    /// Write `value` to register `reg`.
    Write { reg: u8, value: u8 },
    /// Wait this many milliseconds.
    Pause(u16),
}

/// The register-address byte for register `reg`: its low seven bits, with
/// the auto-increment bit (bit 7) set.
pub open spec fn register_byte(reg: usize) -> u8 {
    (reg % 128 + 128) as u8
}

/// The data byte for `value`: its low eight bits.
pub open spec fn value_byte(value: usize) -> u8 {
    (value % 256) as u8
}

/// The transfer that opens every register access.
pub open spec fn page_select(addr: u8) -> BusCommand {
    BusCommand::WriteRead { addr, reg: PAGE_SELECT_BYTE, data: None }
}

/// Writing `value` to register `reg` of the device at `addr`.
pub open spec fn write_script(addr: u8, reg: usize, value: usize) -> Seq<BusCommand> {
    seq![
        page_select(addr),
        BusCommand::WriteRead {
            addr,
            reg: register_byte(reg),
            data: Some(value_byte(value)),
        },
    ]
}

/// Reading register `reg` of the device at `addr`: the byte read back by the
/// second transfer is the register's value.
pub open spec fn read_script(addr: u8, reg: usize) -> Seq<BusCommand> {
    seq![
        page_select(addr),
        BusCommand::WriteRead { addr, reg: register_byte(reg), data: None },
    ]
}

/// The commands that carry out one configuration step.
pub open spec fn step_commands(addr: u8, step: InitStep) -> Seq<BusCommand> {
    match step {
        InitStep::Write { reg, value } => write_script(addr, reg as usize, value as usize),
        InitStep::Pause(ms) => seq![BusCommand::Pause(ms)],
    }
}

/// The commands that carry out `steps` on the device at `addr`, one step after the other.
pub open spec fn expand(addr: u8, steps: Seq<InitStep>) -> Seq<BusCommand>
    decreases steps.len(),
{
    if steps.len() == 0 {
        Seq::empty()
    } else {
        expand(addr, steps.drop_last()) + step_commands(addr, steps.last())
    }
}

/// The default configuration: reset, set up the GPIOs that select the
/// oscillator and drive the LED, make the DAC clock master, then configure
/// the 16-bit I2S format, the clock dividers, and resume from standby.
pub open spec fn default_steps() -> Seq<InitStep> {
    seq![
        InitStep::Write { reg: 0x1, value: 0x11 },
        InitStep::Write { reg: 0x1, value: 0x0 },
        InitStep::Write { reg: 0x2, value: 0x10 },
        InitStep::Write { reg: 0x2, value: 0x11 },
        InitStep::Write { reg: 0x8, value: 0x24 },
        InitStep::Write { reg: 0x52, value: 0x02 },
        InitStep::Write { reg: 0x55, value: 0x02 },
        InitStep::Write { reg: 0x56, value: 0x20 },
        InitStep::Pause(100),
        InitStep::Write { reg: 0x56, value: 0x00 },
        InitStep::Write { reg: 0x56, value: 0x04 },
        InitStep::Pause(30),
        InitStep::Write { reg: 0x9, value: 0x11 },
        InitStep::Write { reg: 0xc, value: 0x7f },
        InitStep::Write { reg: 0x21, value: 0x3f },
        InitStep::Write { reg: 0x8, value: 0x2c },
        InitStep::Write { reg: 0x53, value: 0x02 },
        InitStep::Write { reg: 0x56, value: 0x0c },
        InitStep::Write { reg: 0x2, value: 0x10 },
        InitStep::Write { reg: 0x56, value: 0x28 },
        InitStep::Write { reg: 0x28, value: 0x00 },
        InitStep::Write { reg: 0x25, value: 0x7b },
        InitStep::Write { reg: 0x4, value: 0x00 },
        InitStep::Write { reg: 0xe, value: 0x30 },
        InitStep::Write { reg: 0x1b, value: 0x00 },
        InitStep::Write { reg: 0x1c, value: 0x03 },
        InitStep::Write { reg: 0x1d, value: 0x03 },
        InitStep::Write { reg: 0x1e, value: 0x07 },
        InitStep::Write { reg: 0x20, value: 0x0f },
        InitStep::Write { reg: 0x21, value: 0x1f },
        InitStep::Write { reg: 0x23, value: 0x02 },
        InitStep::Write { reg: 0x24, value: 0x00 },
        InitStep::Write { reg: 0x13, value: 0x11 },
        InitStep::Write { reg: 0x13, value: 0x10 },
        InitStep::Write { reg: 0x2, value: 0x00 },
    ]
}

/// Every transfer in `cmds` goes to the device at `addr` and addresses a
/// register with the auto-increment bit set.
pub open spec fn well_addressed(addr: u8, cmds: Seq<BusCommand>) -> bool {
    forall|i: int|
        0 <= i < cmds.len() ==> match #[trigger] cmds[i] {
            BusCommand::WriteRead { addr: a, reg, .. } => a == addr && reg >= 0x80,
            BusCommand::Pause(_) => true,
        }
}

/// Register writes and reads talk only to the DAC, and always with the
/// auto-increment bit set in the register byte.
pub proof fn lemma_register_access_well_addressed(addr: u8, reg: usize, value: usize)
    ensures
        well_addressed(addr, write_script(addr, reg, value)),
        well_addressed(addr, read_script(addr, reg)),
{
}

/// Every transfer of a configuration goes to the DAC, with the
/// auto-increment bit set in its register byte.
pub proof fn lemma_configuration_well_addressed(addr: u8, steps: Seq<InitStep>)
    ensures
        well_addressed(addr, expand(addr, steps)),
    decreases steps.len(),
{
    if steps.len() > 0 {
        lemma_configuration_well_addressed(addr, steps.drop_last());
        let a = expand(addr, steps.drop_last());
        let b = step_commands(addr, steps.last());
        assert forall|i: int| 0 <= i < (a + b).len() implies match #[trigger] (a + b)[i] {
            BusCommand::WriteRead { addr: x, reg, .. } => x == addr && reg >= 0x80,
            BusCommand::Pause(_) => true,
        } by {
            if i < a.len() {
                assert((a + b)[i] == a[i]);
            } else {
                assert((a + b)[i] == b[i - a.len()]);
            }
        }
    }
}

/// Registers are known by their low seven bits: two register numbers that
/// agree there are written and read alike.
pub proof fn lemma_register_low_bits(addr: u8, r1: usize, r2: usize, value: usize)
    requires
        r1 % 128 == r2 % 128,
    ensures
        write_script(addr, r1, value) == write_script(addr, r2, value),
        read_script(addr, r1) == read_script(addr, r2),
{
}

/// A configuration takes two transfers per register write and one command
/// per pause.
pub open spec fn writes_in(steps: Seq<InitStep>) -> nat
    decreases steps.len(),
{
    if steps.len() == 0 {
        0
    } else {
        writes_in(steps.drop_last()) + if steps.last() is Write {
            1nat
        } else {
            0nat
        }
    }
}

/// The number of commands a configuration expands to.
pub proof fn lemma_configuration_length(addr: u8, steps: Seq<InitStep>)
    ensures
        expand(addr, steps).len() == steps.len() + writes_in(steps),
    decreases steps.len(),
{
    if steps.len() > 0 {
        lemma_configuration_length(addr, steps.drop_last());
    }
}

/// The DAC answers at the 8-bit write address 0x9A without its read/write
/// bit, and every register access opens with register 0 (page select) and
/// the auto-increment bit.
pub proof fn lemma_bus_constants()
    ensures
        DAC_ADDRESS as int == 0x9aint / 2,
        PAGE_SELECT_BYTE as int == 128int,
        page_select(DAC_ADDRESS) == (BusCommand::WriteRead { addr: 0x4d, reg: 0x80, data: None }),
{
}

/// The register byte keeps the register number's seven low bits and sets
/// bit 7: it is the register number or-ed with 0x80, cut to a byte.
pub proof fn lemma_register_byte_keeps_register(reg: usize)
    ensures
        register_byte(reg) as int % 128 == reg as int % 128,
        register_byte(reg) >= 0x80,
        register_byte(reg) == ((reg | 0x80usize) as u8),
{
    assert(((reg | 0x80usize) as u8) == ((reg % 128 + 128) as u8)) by (bit_vector);
}

/// The data byte of a register write is the value's low eight bits, the
/// value cut to a byte.
pub proof fn lemma_value_byte_keeps_value(value: usize)
    ensures
        value_byte(value) as int == value as int % 256,
        value_byte(value) == (value as u8),
{
    assert((value as u8) == ((value % 256) as u8)) by (bit_vector);
}

/// A register write is two transfers to the device: the page-select byte
/// alone, then a byte naming the register (its low seven bits, bit 7 set)
/// with the value's low byte as data.
pub proof fn lemma_write_transfers(addr: u8, reg: usize, value: usize)
    ensures
        write_script(addr, reg, value).len() == 2,
        write_script(addr, reg, value)[0] == (BusCommand::WriteRead {
            addr,
            reg: 0x80,
            data: None,
        }),
        write_script(addr, reg, value)[1] is WriteRead,
        write_script(addr, reg, value)[1]->addr == addr,
        write_script(addr, reg, value)[1]->reg as int == reg as int % 128 + 128,
        write_script(addr, reg, value)[1]->data == Some((value % 256) as u8),
        (write_script(addr, reg, value)[1]->data)->0 as int == value as int % 256,
{
}

/// A register read is two transfers to the device: the page-select byte
/// alone, then the same register byte a write to that register sends, with
/// no data; the byte read back by the second transfer is the result.
pub proof fn lemma_read_transfers(addr: u8, reg: usize, value: usize)
    ensures
        read_script(addr, reg).len() == 2,
        read_script(addr, reg)[0] == (BusCommand::WriteRead { addr, reg: 0x80, data: None }),
        read_script(addr, reg)[1] is WriteRead,
        read_script(addr, reg)[1]->addr == addr,
        read_script(addr, reg)[1]->reg as int == reg as int % 128 + 128,
        read_script(addr, reg)[1]->reg == write_script(addr, reg, value)[1]->reg,
        read_script(addr, reg)[1]->data is None,
{
}

/// Carrying out two lists of configuration steps one after the other is
/// carrying out their concatenation; a single write step is the two
/// transfers of a register write, and a pause step is that pause alone.
pub proof fn lemma_expand_concat(addr: u8, a: Seq<InitStep>, b: Seq<InitStep>)
    ensures
        expand(addr, a + b) == expand(addr, a) + expand(addr, b),
    decreases b.len(),
{
    if b.len() == 0 {
        assert(a + b =~= a);
        assert(expand(addr, a) + expand(addr, b) =~= expand(addr, a));
    } else {
        assert((a + b).drop_last() =~= a + b.drop_last());
        assert((a + b).last() == b.last());
        lemma_expand_concat(addr, a, b.drop_last());
        assert(expand(addr, a) + expand(addr, b) =~= expand(addr, a) + expand(addr, b.drop_last())
            + step_commands(addr, b.last()));
    }
}

/// One step alone.
pub proof fn lemma_expand_single(addr: u8, step: InitStep)
    ensures
        expand(addr, seq![step]) == match step {
            InitStep::Write { reg, value } => seq![
                BusCommand::WriteRead { addr, reg: 0x80, data: None },
                BusCommand::WriteRead {
                    addr,
                    reg: (reg as int % 128 + 128) as u8,
                    data: Some(value),
                },
            ],
            InitStep::Pause(ms) => seq![BusCommand::Pause(ms)],
        },
{
    assert(seq![step].drop_last() =~= Seq::<InitStep>::empty());
    assert(seq![step].last() == step);
    assert(expand(addr, Seq::<InitStep>::empty()) == Seq::<BusCommand>::empty());
    assert(expand(addr, seq![step]) == expand(addr, seq![step].drop_last()) + step_commands(
        addr,
        seq![step].last(),
    ));
    assert(Seq::<BusCommand>::empty() + step_commands(addr, step) =~= step_commands(addr, step));
    match step {
        InitStep::Write { reg, value } => {
            assert((value as usize % 256) as u8 == value);
            assert(register_byte(reg as usize) == (reg as int % 128 + 128) as u8);
            assert(step_commands(addr, step) =~= seq![
                BusCommand::WriteRead { addr, reg: 0x80, data: None },
                BusCommand::WriteRead {
                    addr,
                    reg: (reg as int % 128 + 128) as u8,
                    data: Some(value),
                },
            ]);
        },
        InitStep::Pause(ms) => {},
    }
}

/// The default configuration, step by step: 33 register writes with a
/// 100 ms pause after the eighth write and a 30 ms pause after the tenth.
/// It halts the DAC (register 0x13 := 0x11), resumes it (0x13 := 0x10), and
/// ends by taking it out of standby (register 2 := 0).
pub proof fn lemma_default_steps()
    ensures
        default_steps().len() == 35,
        default_steps()[0] == (InitStep::Write { reg: 0x1, value: 0x11 }),
        default_steps()[1] == (InitStep::Write { reg: 0x1, value: 0x0 }),
        default_steps()[2] == (InitStep::Write { reg: 0x2, value: 0x10 }),
        default_steps()[3] == (InitStep::Write { reg: 0x2, value: 0x11 }),
        default_steps()[4] == (InitStep::Write { reg: 0x8, value: 0x24 }),
        default_steps()[5] == (InitStep::Write { reg: 0x52, value: 0x02 }),
        default_steps()[6] == (InitStep::Write { reg: 0x55, value: 0x02 }),
        default_steps()[7] == (InitStep::Write { reg: 0x56, value: 0x20 }),
        default_steps()[8] == InitStep::Pause(100),
        default_steps()[9] == (InitStep::Write { reg: 0x56, value: 0x00 }),
        default_steps()[10] == (InitStep::Write { reg: 0x56, value: 0x04 }),
        default_steps()[11] == InitStep::Pause(30),
        default_steps()[12] == (InitStep::Write { reg: 0x9, value: 0x11 }),
        default_steps()[13] == (InitStep::Write { reg: 0xc, value: 0x7f }),
        default_steps()[14] == (InitStep::Write { reg: 0x21, value: 0x3f }),
        default_steps()[15] == (InitStep::Write { reg: 0x8, value: 0x2c }),
        default_steps()[16] == (InitStep::Write { reg: 0x53, value: 0x02 }),
        default_steps()[17] == (InitStep::Write { reg: 0x56, value: 0x0c }),
        default_steps()[18] == (InitStep::Write { reg: 0x2, value: 0x10 }),
        default_steps()[19] == (InitStep::Write { reg: 0x56, value: 0x28 }),
        default_steps()[20] == (InitStep::Write { reg: 0x28, value: 0x00 }),
        default_steps()[21] == (InitStep::Write { reg: 0x25, value: 0x7b }),
        default_steps()[22] == (InitStep::Write { reg: 0x4, value: 0x00 }),
        default_steps()[23] == (InitStep::Write { reg: 0xe, value: 0x30 }),
        default_steps()[24] == (InitStep::Write { reg: 0x1b, value: 0x00 }),
        default_steps()[25] == (InitStep::Write { reg: 0x1c, value: 0x03 }),
        default_steps()[26] == (InitStep::Write { reg: 0x1d, value: 0x03 }),
        default_steps()[27] == (InitStep::Write { reg: 0x1e, value: 0x07 }),
        default_steps()[28] == (InitStep::Write { reg: 0x20, value: 0x0f }),
        default_steps()[29] == (InitStep::Write { reg: 0x21, value: 0x1f }),
        default_steps()[30] == (InitStep::Write { reg: 0x23, value: 0x02 }),
        default_steps()[31] == (InitStep::Write { reg: 0x24, value: 0x00 }),
        default_steps()[32] == (InitStep::Write { reg: 0x13, value: 0x11 }),
        default_steps()[33] == (InitStep::Write { reg: 0x13, value: 0x10 }),
        default_steps()[34] == (InitStep::Write { reg: 0x2, value: 0x00 }),
{
}

/// The default configuration ends with six transfers: halt the DAC
/// (register 0x13 := 0x11), resume it (0x13 := 0x10), and leave standby
/// (register 2 := 0), each after its page-select transfer; so on success the
/// DAC is left running.
#[verifier::rlimit(50)]
pub proof fn lemma_default_configuration_ends_running(addr: u8)
    ensures
        expand(addr, default_steps()) == expand(addr, default_steps().take(32)) + seq![
            BusCommand::WriteRead { addr, reg: 0x80, data: None },
            BusCommand::WriteRead { addr, reg: 0x93, data: Some(0x11) },
            BusCommand::WriteRead { addr, reg: 0x80, data: None },
            BusCommand::WriteRead { addr, reg: 0x93, data: Some(0x10) },
            BusCommand::WriteRead { addr, reg: 0x80, data: None },
            BusCommand::WriteRead { addr, reg: 0x82, data: Some(0x00) },
        ],
{
    lemma_default_steps();
    let d = default_steps();
    let d1 = d.drop_last();
    let d2 = d1.drop_last();
    let d3 = d2.drop_last();
    assert(d3 =~= d.take(32));
    let s1 = InitStep::Write { reg: 0x13, value: 0x11 };
    let s2 = InitStep::Write { reg: 0x13, value: 0x10 };
    let s3 = InitStep::Write { reg: 0x2, value: 0x00 };
    assert(d.last() == s3);
    assert(d1.last() == s2);
    assert(d2.last() == s1);
    lemma_expand_single(addr, s1);
    lemma_expand_single(addr, s2);
    lemma_expand_single(addr, s3);
    assert(seq![s1].drop_last() =~= Seq::<InitStep>::empty());
    assert(seq![s2].drop_last() =~= Seq::<InitStep>::empty());
    assert(seq![s3].drop_last() =~= Seq::<InitStep>::empty());
    assert(expand(addr, d) == expand(addr, d1) + step_commands(addr, s3));
    assert(expand(addr, d1) == expand(addr, d2) + step_commands(addr, s2));
    assert(expand(addr, d2) == expand(addr, d3) + step_commands(addr, s1));
    assert(expand(addr, d) =~= expand(addr, d3) + step_commands(addr, s1) + step_commands(addr, s2)
        + step_commands(addr, s3));
}

/// Reading a register whose two transfers succeed hands out exactly those
/// two transfers and yields the byte the second one read.
pub proof fn lemma_read_yields_second_byte<E>(addr: u8, reg: usize, b1: u8, b2: u8)
    ensures
        ({
            let events = seq![Event::<E>::Succeeded(b1), Event::<E>::Succeeded(b2)];
            let m = SessionModel::<BusCommand, E>::fresh(read_script(addr, reg));
            &&& issued(m, events) == read_script(addr, reg)
            &&& run(m, events).result() == Ok::<u8, E>(b2)
        }),
{
    let events = seq![Event::<E>::Succeeded(b1), Event::<E>::Succeeded(b2)];
    assert(all_succeed(events)) by {
        assert forall|i: int| 0 <= i < events.len() implies (#[trigger] events[i]) is Succeeded by {
            if i == 0 {
            } else {
            }
        }
    }
    lemma_replays_script_on_success(read_script(addr, reg), events);
}

/// A register access whose first transfer fails stops there: the register
/// transfer is never sent, and the error is what the access returns.
pub proof fn lemma_failed_page_select_stops<E>(addr: u8, reg: usize, value: usize, e: E, later: Event<E>)
    ensures
        ({
            let events = seq![Event::<E>::Failed(e), later];
            let m = SessionModel::<BusCommand, E>::fresh(write_script(addr, reg, value));
            &&& issued(m, events) == seq![page_select(addr)]
            &&& run(m, events).result() == Err::<u8, E>(e)
        }),
{
    let events = seq![Event::<E>::Failed(e), later];
    let script = write_script(addr, reg, value);
    assert(all_succeed(events.take(0))) by {
        assert(events.take(0).len() == 0);
    }
    lemma_stops_at_first_failure(script, events, 0);
    assert(script.take(1) =~= seq![page_select(addr)]);
}

/// The register-address byte for `reg`.
fn encode_register(reg: usize) -> (b: u8)
    ensures
        b == register_byte(reg),
{
    let b = (reg | 0x80) as u8;
    assert(((reg | 0x80usize) as u8) == ((reg % 128 + 128) as u8)) by (bit_vector);
    b
}

/// The data byte for `value`.
fn encode_value(value: usize) -> (b: u8)
    ensures
        b == value_byte(value),
{
    let b = value as u8;
    assert((value as u8) == ((value % 256) as u8)) by (bit_vector);
    b
}

/// Appends the commands that write `value` to register `reg`.
fn push_write(script: &mut Vec<BusCommand>, addr: u8, reg: usize, value: usize)
    ensures
        final(script)@ == old(script)@ + write_script(addr, reg, value),
{
    let r = encode_register(reg);
    let v = encode_value(value);
    script.push(BusCommand::WriteRead { addr, reg: PAGE_SELECT_BYTE, data: None });
    script.push(BusCommand::WriteRead { addr, reg: r, data: Some(v) });
    assert(final(script)@ =~= old(script)@ + write_script(addr, reg, value));
}

/// A PCM5122 DAC reached through the I2C bus `I2C`.
pub struct Pcm5122<I2C> {
    i2c: I2C,
    dac_addr: u8,
}

impl<I2C> Pcm5122<I2C> {
    /// The bus the DAC is reached through.
    pub closed spec fn bus(self) -> I2C {
        self.i2c
    }

    /// The I2C address the DAC is reached at.
    pub closed spec fn address(self) -> u8 {
        self.dac_addr
    }

    /// Takes over the bus `i2c` to talk to the DAC.
    pub fn new(i2c: I2C) -> (p: Self)
        ensures
            p.bus() == i2c,
            p.address() == DAC_ADDRESS,
    {
        let dac_addr = 0x9au8 >> 1u8;
        assert(0x9au8 >> 1u8 == 0x4du8) by (bit_vector);
        Pcm5122 { i2c, dac_addr }
    }

    /// The DAC's I2C address.
    pub fn dac_addr(&self) -> (a: u8)
        ensures
            a == self.address(),
    {
        self.dac_addr
    }

    /// The bus, to carry out the transfers of a session on.
    pub fn bus_mut(&mut self) -> (b: &mut I2C)
        ensures
            *b == old(self).bus(),
            final(self).bus() == *final(b),
            final(self).address() == old(self).address(),
    {
        &mut self.i2c
    }

    /// Writing `value` to register `reg`: the page-select transfer, then the
    /// register byte and the value's low byte.
    pub fn write_register<E>(&self, reg: usize, value: usize) -> (s: Session<BusCommand, E>)
        ensures
            s@ == SessionModel::<BusCommand, E>::fresh(write_script(self.address(), reg, value)),
    {
        let addr = self.dac_addr();
        let mut script: Vec<BusCommand> = Vec::new();
        push_write(&mut script, addr, reg, value);
        Session::new(script)
    }

    /// Reading register `reg`: the page-select transfer, then the register
    /// byte; the session ends with the byte that the second transfer read.
    pub fn read_register<E>(&self, reg: usize) -> (s: Session<BusCommand, E>)
        ensures
            s@ == SessionModel::<BusCommand, E>::fresh(read_script(self.address(), reg)),
    {
        let addr = self.dac_addr();
        let r = encode_register(reg);
        let mut script: Vec<BusCommand> = Vec::new();
        script.push(BusCommand::WriteRead { addr, reg: PAGE_SELECT_BYTE, data: None });
        script.push(BusCommand::WriteRead { addr, reg: r, data: None });
        assert(script@ =~= read_script(addr, reg));
        Session::new(script)
    }
}

/// Brings the DAC up in its default configuration: the steps of
/// `default_steps`, each register write as `write_register` does it.
pub fn init_default<I2C, E>(pcm5122: &Pcm5122<I2C>) -> (s: Session<BusCommand, E>)
    ensures
        s@ == SessionModel::<BusCommand, E>::fresh(expand(pcm5122.address(), default_steps())),
{
    let steps: Vec<InitStep> = vec![
        InitStep::Write { reg: 0x1, value: 0x11 },
        InitStep::Write { reg: 0x1, value: 0x0 },
        InitStep::Write { reg: 0x2, value: 0x10 },
        InitStep::Write { reg: 0x2, value: 0x11 },
        InitStep::Write { reg: 0x8, value: 0x24 },
        InitStep::Write { reg: 0x52, value: 0x02 },
        InitStep::Write { reg: 0x55, value: 0x02 },
        InitStep::Write { reg: 0x56, value: 0x20 },
        InitStep::Pause(100),
        InitStep::Write { reg: 0x56, value: 0x00 },
        InitStep::Write { reg: 0x56, value: 0x04 },
        InitStep::Pause(30),
        InitStep::Write { reg: 0x9, value: 0x11 },
        InitStep::Write { reg: 0xc, value: 0x7f },
        InitStep::Write { reg: 0x21, value: 0x3f },
        InitStep::Write { reg: 0x8, value: 0x2c },
        InitStep::Write { reg: 0x53, value: 0x02 },
        InitStep::Write { reg: 0x56, value: 0x0c },
        InitStep::Write { reg: 0x2, value: 0x10 },
        InitStep::Write { reg: 0x56, value: 0x28 },
        InitStep::Write { reg: 0x28, value: 0x00 },
        InitStep::Write { reg: 0x25, value: 0x7b },
        InitStep::Write { reg: 0x4, value: 0x00 },
        InitStep::Write { reg: 0xe, value: 0x30 },
        InitStep::Write { reg: 0x1b, value: 0x00 },
        InitStep::Write { reg: 0x1c, value: 0x03 },
        InitStep::Write { reg: 0x1d, value: 0x03 },
        InitStep::Write { reg: 0x1e, value: 0x07 },
        InitStep::Write { reg: 0x20, value: 0x0f },
        InitStep::Write { reg: 0x21, value: 0x1f },
        InitStep::Write { reg: 0x23, value: 0x02 },
        InitStep::Write { reg: 0x24, value: 0x00 },
        InitStep::Write { reg: 0x13, value: 0x11 },
        InitStep::Write { reg: 0x13, value: 0x10 },
        InitStep::Write { reg: 0x2, value: 0x00 },
    ];
    assert(steps@ =~= default_steps());
    let addr = pcm5122.dac_addr();
    let mut script: Vec<BusCommand> = Vec::new();
    let n = steps.len();
    for i in 0..n
        invariant
            n == steps@.len(),
            addr == pcm5122.address(),
            script@ == expand(addr, steps@.take(i as int)),
    {
        assert(steps@.take(i + 1).drop_last() =~= steps@.take(i as int));
        match steps[i] {
            InitStep::Write { reg, value } => {
                push_write(&mut script, addr, reg as usize, value as usize);
            },
            InitStep::Pause(ms) => {
                script.push(BusCommand::Pause(ms));
                assert(script@ =~= expand(addr, steps@.take(i + 1)));
            },
        }
    }
    assert(steps@.take(n as int) =~= steps@);
    Session::new(script)
}

} // verus!

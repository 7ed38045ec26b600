//! Driver core for the nRF24L01+ packet radio: the command protocol on the
//! serial bus and the operating modes built on it.
//!
//! The chip is in one of three modes, and each is a type that owns the
//! device: [`StandbyMode`], [`RxMode`] and [`TxMode`]. A mode offers only
//! what the chip can do in it, and a step to another mode uses the value up,
//! so that no two modes ever hold one device.
//!
//! Whatever is done to the chip goes through a [`Device`], and on a board
//! that is [`NRF24L01`]. What it does is stated over its trace: the sequence
//! of [`Signal`]s on the enable pin, the chip-select pin and the bus. The
//! chip's answers are not known before they come, so a contract says which
//! signals were added to the trace and how the result follows from the
//! answers that the trace holds.

use vstd::prelude::*;

pub mod bits;
pub mod command;
pub mod device;
pub mod errors;
pub mod hardware;
pub mod payload;
pub mod registers;
pub mod rx;
pub mod scripted;
pub mod standby;
pub mod tx;

pub use crate::device::Device;
pub use crate::errors::{Error, TransmissionError};
pub use crate::hardware::{Hardware, Signal, Traced};
pub use crate::payload::Payload;
pub use crate::registers::{Config, FifoStatus, ObserveTx, Register, SetupAw, Status};
pub use crate::rx::RxMode;
pub use crate::standby::StandbyMode;
pub use crate::tx::TxMode;

use crate::command::{
    lemma_read_frame_opcode, lemma_write_frame_opcode, read_frame, write_frame, Command,
    ReadRegister, WriteRegister,
};
use crate::device::{
    chip_config, executed, in_step, last_outcome, lemma_chip_config_executed, lemma_chip_config_kept,
    lemma_chip_config_push, lemma_config_frame, lemma_persisted_in_step, lemma_transacted,
    transacted,
};
use crate::hardware::{exchanged, lemma_transaction, lemma_transaction_pushes};
use crate::registers::{MASK_MAX_RT, MASK_RX_DR, MASK_TX_DS, MAX_RT, PWR_UP, RX_DR, TX_DS};

verus! {

/// Number of receive pipes of the chip.
pub const PIPES_COUNT: usize = 6;

/// Fewest bytes of a pipe address.
pub const MIN_ADDR_BYTES: usize = 3;

/// Most bytes of a pipe address.
pub const MAX_ADDR_BYTES: usize = 5;

/// The configuration that the driver starts from: the chip's reset value
/// with the three interrupts masked, so powered down, in transmit role and
/// with one-byte checksums.
pub open spec fn initial_config() -> Config {
    Config(0x78)
}

/// The status value that clears all three interrupts; the chip clears a flag
/// that is written as 1.
pub open spec fn initial_interrupts() -> Status {
    Status(0x70)
}

/// The configuration that `power_up` leaves on the chip: the initial one with
/// the power flag set.
pub open spec fn powered_config() -> Config {
    Config(0x7a)
}

/// The configuration that the driver starts from.
pub fn get_initial_config() -> (config: Config)
    ensures
        config == initial_config(),
        config == Config(0x08).with(MASK_RX_DR, true).with(MASK_TX_DS, true).with(
            MASK_MAX_RT,
            true,
        ),
{
    // Reset Configuration 00001000 is reset word
    let mut config = Config(0b0000_1000);

    config.set_mask_rx_dr(true);
    config.set_mask_tx_ds(true);
    config.set_mask_max_rt(true);

    assert(((0x08u8 | 0x40u8) | 0x20u8) | 0x10u8 == 0x78u8) by (bit_vector);
    config
}

/// The status value that clears all three interrupts.
pub fn get_initial_interrupts() -> (clear: Status)
    ensures
        clear == initial_interrupts(),
        clear == Status(0).with(RX_DR, true).with(TX_DS, true).with(MAX_RT, true),
{
    let mut clear = Status(0);

    // Clear interrupts by setting bit to '1'
    clear.set_rx_dr(true);
    clear.set_tx_ds(true);
    clear.set_max_rt(true);

    assert(((0u8 | 0x40u8) | 0x20u8) | 0x10u8 == 0x70u8) by (bit_vector);
    clear
}

/// Driver for the nRF24L01+.
pub struct NRF24L01<H: Hardware> {
    lines: Traced<H>,
    config: Config,
}

impl<H: Hardware> NRF24L01<H> {
    /// The board that the driver works on.
    pub closed spec fn spec_hardware(&self) -> &H {
        self.lines.board()
    }

    /// Construct a new driver instance. Nothing is written to the chip yet.
    pub fn new(hw: H) -> (driver: Self)
        ensures
            driver.hardware() == hw,
            driver.config() == initial_config(),
            driver.trace() == Seq::<Signal<Error<H::Error>>>::empty(),
    {
        let config = get_initial_config();
        let driver = NRF24L01 { lines: Traced::new(hw), config };
        assert(driver.trace() =~= Seq::empty());
        driver
    }

    /// Probes the chip: reads the address-width register back and checks
    /// that its width field holds a value that is valid, 3 to 5.
    pub fn is_connected(&mut self) -> (res: Result<bool, Error<H::Error>>)
        ensures
            transacted(*old(self), *final(self), read_frame::<SetupAw>()),
            res == probed(last_outcome(final(self).trace())),
    {
        let read = self.read_register::<SetupAw>();
        proof {
            lemma_read_frame_opcode::<SetupAw>();
            lemma_transacted(*old(self), *self, read_frame::<SetupAw>());
        }
        match read {
            Ok((_, setup_aw)) => {
                let valid = setup_aw.aw() >= 3 && setup_aw.aw() <= 5;
                Ok(valid)
            },
            Err(e) => Err(e),
        }
    }

    /// Brings the chip up and into standby.
    pub fn power_up(self) -> (res: Result<StandbyMode<Self>, Error<H::Error>>)
        ensures
            exists|end: Self| #[trigger] powers_up(self, end, res),
            res matches Ok(mode) ==> mode.inv(),
    {
        let mut driver = self;
        let ghost idle = self.trace().push(Signal::Ce(false)).push(Signal::Csn(true));
        let started = driver.initialise_device();
        let ghost cleared = driver.trace();
        match started {
            Err(e) => {
                proof {
                    let configured = cleared.take(idle.len() + 3 as int);
                    if last_outcome(configured) is Ok {
                        assert(cleared.take(idle.len() + 6 as int) =~= cleared);
                    }
                    assert(powers_up(self, driver, Err::<StandbyMode<Self>, _>(e)));
                }
                return Err(e);
            },
            Ok(_) => {},
        }
        let change = |config: &mut Config| -> (r: ())
            ensures
                *final(config) == old(config).with(PWR_UP, true),
        {
            config.set_pwr_up(true)
        };
        let powered = driver.update_config(change);
        let ghost powered_trace = driver.trace();
        proof {
            assert(0x78u8 | 0x02u8 == 0x7au8) by (bit_vector);
            assert(cleared.take(idle.len() + 6 as int) =~= cleared);
            assert(powered_trace.take(idle.len() + 3 as int) =~= cleared.take(idle.len() + 3 as int));
            assert(powered_trace.take(idle.len() + 6 as int) =~= cleared);
            assert(powered_trace.take(idle.len() + 9 as int) =~= powered_trace);
        }
        match powered {
            Err(e) => {
                assert(powers_up(self, driver, Err::<StandbyMode<Self>, _>(e)));
                return Err(e);
            },
            Ok(_) => {},
        }
        let probe = driver.is_connected();
        let ghost probed_trace = driver.trace();
        proof {
            assert(probed_trace.take(idle.len() + 3 as int) =~= cleared.take(idle.len() + 3 as int));
            assert(probed_trace.take(idle.len() + 6 as int) =~= cleared);
            assert(probed_trace.take(idle.len() + 9 as int) =~= powered_trace);
            assert(probed_trace.take(idle.len() + 12 as int) =~= probed_trace);
        }
        match probe {
            Err(e) => {
                assert(powers_up(self, driver, Err::<StandbyMode<Self>, _>(e)));
                Err(e)
            },
            Ok(false) => {
                assert(powers_up(
                    self,
                    driver,
                    Err::<StandbyMode<Self>, Error<H::Error>>(Error::NotConnected),
                ));
                Err(Error::NotConnected)
            },
            Ok(true) => {
                let mode = StandbyMode::new(driver);
                proof {
                    lemma_chip_config_push(probed_trace, Signal::Ce(false));
                    let end = mode.device().trace();
                    assert(end.take(idle.len() + 3 as int) =~= cleared.take(idle.len() + 3 as int));
                    assert(end.take(idle.len() + 6 as int) =~= cleared);
                    assert(end.take(idle.len() + 9 as int) =~= powered_trace);
                    assert(end.take(idle.len() + 12 as int) =~= probed_trace);
                    assert(powers_up(self, *mode.device(), Ok::<_, Error<H::Error>>(mode)));
                }
                Ok(mode)
            },
        }
    }

    /// Drives the pins to their idle levels, writes the initial
    /// configuration and clears the interrupts.
    fn initialise_device(&mut self) -> (res: Result<(), Error<H::Error>>)
        ensures
            initialised(old(self).trace(), final(self).trace(), res),
            res is Ok ==> final(self).config() == initial_config() && in_step(*final(self)),
    {
        // Initialise pins
        self.initialise_pins();
        let ghost idle = self.trace();

        // Initialise config
        let configured = self.write_register(get_initial_config());
        let ghost configured_trace = self.trace();
        proof {
            assert(configured_trace.take(idle.len() + 3 as int) =~= configured_trace);
            lemma_config_frame(initial_config());
            lemma_chip_config_executed(idle, configured_trace, write_frame(initial_config()));
        }
        match configured {
            Err(e) => {
                return Err(e);
            },
            Ok(_) => {},
        }
        self.config = get_initial_config();

        // Clear interrupts
        let cleared = self.write_register(get_initial_interrupts());
        proof {
            assert(self.trace().take(idle.len() + 3 as int) =~= configured_trace);
            lemma_write_frame_opcode(initial_interrupts());
            lemma_chip_config_kept(
                configured_trace,
                self.trace(),
                write_frame(initial_interrupts()),
            );
        }
        match cleared {
            Err(e) => Err(e),
            Ok(_) => Ok(()),
        }
    }

    /// Drives the enable pin low and the chip-select pin high.
    fn initialise_pins(&mut self)
        ensures
            final(self).trace() == old(self).trace().push(Signal::Ce(false)).push(
                Signal::Csn(true),
            ),
            final(self).config() == old(self).config(),
    {
        self.lines.set_ce(false);
        self.lines.set_csn(true);
        proof {
            lemma_lift_push(old(self).lines.trace(), Signal::Ce(false));
            lemma_lift_push(old(self).lines.trace().push(Signal::Ce(false)), Signal::Csn(true));
        }
    }

    /// The board that the driver works on, to look at.
    #[verifier::when_used_as_spec(spec_hardware)]
    pub fn hardware(&self) -> (hw: &H)
        ensures
            hw == self.hardware(),
    {
        self.lines.board()
    }

    /// Gives the board back.
    pub fn release(self) -> (hw: H)
        ensures
            hw == self.hardware(),
    {
        self.lines.release()
    }
}

impl<H: Hardware> Device for NRF24L01<H> {
    type Error = Error<H::Error>;

    closed spec fn trace(&self) -> Seq<Signal<Error<H::Error>>> {
        lift_trace(self.lines.trace())
    }

    closed spec fn config(&self) -> Config {
        self.config
    }

    fn ce_enable(&mut self) {
        self.lines.set_ce(true);
        proof {
            lemma_lift_push(old(self).lines.trace(), Signal::Ce(true));
        }
    }

    fn ce_disable(&mut self) {
        self.lines.set_ce(false);
        proof {
            lemma_lift_push(old(self).lines.trace(), Signal::Ce(false));
        }
    }

    fn delay_us(&mut self, micros: u32) {
        self.lines.delay_us(micros);
        proof {
            lemma_lift_push(old(self).lines.trace(), Signal::Delay(micros));
        }
    }

    fn send_command<C: Command>(&mut self, command: &C) -> (res: Result<
        (Status, C::Response),
        Self::Error,
    >) {
        let mut buf = command.encode();
        proof {
            command.lemma_frame_fits();
        }

        self.lines.set_csn(false);
        let transfer_result = self.lines.transfer(&mut buf);
        self.lines.set_csn(true);

        proof {
            let outcome = exchanged(transfer_result, buf@);
            let selected = old(self).lines.trace().push(Signal::Csn(false));
            let exchange = Signal::Exchange(command.frame(), outcome);
            lemma_lift_push(old(self).lines.trace(), Signal::Csn(false));
            lemma_lift_push(selected, exchange);
            lemma_lift_push(selected.push(exchange), Signal::Csn(true));
            lemma_transaction_pushes(old(self).trace(), command.frame(), lift_outcome(outcome));
            lemma_transaction(old(self).trace(), command.frame(), lift_outcome(outcome));
        }

        match transfer_result {
            Err(e) => Err(Error::SpiError(e)),
            Ok(()) => {
                let status = Status(buf[0]);
                let response = command.decode_response(buf.as_slice());
                Ok((status, response))
            },
        }
    }

    fn write_register<R: Register>(&mut self, register: R) -> (res: Result<Status, Self::Error>) {
        match self.send_command(&WriteRegister::new(register)) {
            Ok((status, _)) => Ok(status),
            Err(e) => Err(e),
        }
    }

    fn read_register<R: Register>(&mut self) -> (res: Result<(Status, R), Self::Error>) {
        self.send_command(&ReadRegister::new())
    }

    fn update_config<F, R>(&mut self, f: F) -> (res: Result<R, Self::Error>) where
        F: FnOnce(&mut Config) -> R,
     {
        // Mutate a copy, so that a failed write leaves the old value
        let mut wanted = self.config;
        let result = f(&mut wanted);
        let ghost returned = result;

        let res = if wanted != self.config {
            match self.write_register(wanted) {
                Ok(_) => {
                    self.config = wanted;
                    Ok(result)
                },
                Err(e) => Err(e),
            }
        } else {
            Ok(result)
        };
        proof {
            if chip_config(old(self).trace()) == Some(old(self).config()) {
                lemma_persisted_in_step(
                    old(self).trace(),
                    old(self).config(),
                    self.trace(),
                    self.config(),
                    wanted,
                    returned,
                    res,
                );
            }
        }
        res
    }
}

/// Whether the answer to the connectivity probe, a read of the address-width
/// register, is one that a connected chip gives: the width field holds a
/// value from 3 to 5.
pub open spec fn probe_passes(reply: Seq<u8>) -> bool {
    3 <= SetupAw(reply[1]).width_field() <= 5
}

/// What `is_connected` returns for the outcome of its probe.
pub open spec fn probed<E>(outcome: Result<Seq<u8>, E>) -> Result<bool, E> {
    match outcome {
        Ok(reply) => Ok(probe_passes(reply)),
        Err(e) => Err(e),
    }
}

/// `end` is the driver `start` after `power_up`, which returned `res`.
///
/// Both pins were driven to their idle levels: enable low, chip-select high.
/// Then four transactions were made, each only if the one before did not
/// fail: the initial configuration was written, all three interrupts were
/// cleared, the configuration with the power flag set was written, and the
/// address-width register was read as a connectivity probe. A failure of the
/// bus is returned as it is; an answer to the probe that no connected chip
/// gives is returned as `NotConnected`. Otherwise the enable pin was driven
/// low and the standby mode owns the driver, whose copy of the configuration
/// is the one on the chip.
pub open spec fn powers_up<H: Hardware>(
    start: NRF24L01<H>,
    end: NRF24L01<H>,
    res: Result<StandbyMode<NRF24L01<H>>, Error<H::Error>>,
) -> bool {
    let idle = start.trace().push(Signal::Ce(false)).push(Signal::Csn(true));
    let configured = end.trace().take(idle.len() + 3 as int);
    let cleared = end.trace().take(idle.len() + 6 as int);
    let powered = end.trace().take(idle.len() + 9 as int);
    let probe = end.trace().take(idle.len() + 12 as int);
    &&& res matches Ok(mode) ==> mode.device() == end
    &&& executed(idle, configured, write_frame(initial_config()))
    &&& match last_outcome(configured) {
        Err(e) => end.trace() == configured && res == Err::<StandbyMode<NRF24L01<H>>, _>(e),
        Ok(_) => {
            &&& executed(configured, cleared, write_frame(initial_interrupts()))
            &&& match last_outcome(cleared) {
                Err(e) => end.trace() == cleared && res == Err::<StandbyMode<NRF24L01<H>>, _>(e),
                Ok(_) => {
                    &&& executed(cleared, powered, write_frame(powered_config()))
                    &&& match last_outcome(powered) {
                        Err(e) => end.trace() == powered && res == Err::<
                            StandbyMode<NRF24L01<H>>,
                            _,
                        >(e),
                        Ok(_) => {
                            &&& executed(powered, probe, read_frame::<SetupAw>())
                            &&& match last_outcome(probe) {
                                Err(e) => end.trace() == probe && res == Err::<
                                    StandbyMode<NRF24L01<H>>,
                                    _,
                                >(e),
                                Ok(reply) => if probe_passes(reply) {
                                    &&& res is Ok
                                    &&& end.trace() == probe.push(Signal::Ce(false))
                                    &&& end.config() == powered_config()
                                    &&& in_step(end)
                                } else {
                                    &&& end.trace() == probe
                                    &&& res == Err::<StandbyMode<NRF24L01<H>>, Error<H::Error>>(
                                        Error::NotConnected,
                                    )
                                },
                            }
                        },
                    }
                },
            }
        },
    }
}

/// `after` is the trace `before` after the driver's first steps, which
/// returned `res`: the pins were driven to their idle levels, the initial
/// configuration was written and, if that did not fail, the interrupts were
/// cleared.
spec fn initialised<E>(
    before: Seq<Signal<E>>,
    after: Seq<Signal<E>>,
    res: Result<(), E>,
) -> bool {
    let idle = before.push(Signal::Ce(false)).push(Signal::Csn(true));
    let configured = after.take(idle.len() + 3 as int);
    &&& executed(idle, configured, write_frame(initial_config()))
    &&& match last_outcome(configured) {
        Err(e) => after == configured && res == Err::<(), E>(e),
        Ok(_) => {
            &&& executed(configured, after, write_frame(initial_interrupts()))
            &&& match last_outcome(after) {
                Err(e) => res == Err::<(), E>(e),
                Ok(_) => res is Ok,
            }
        },
    }
}

/// How a signal on the lines reads to users of the driver: a bus failure is
/// wrapped into the driver's error.
spec fn lift<E>(signal: Signal<E>) -> Signal<Error<E>> {
    match signal {
        Signal::Ce(high) => Signal::Ce(high),
        Signal::Csn(high) => Signal::Csn(high),
        Signal::Delay(micros) => Signal::Delay(micros),
        Signal::Exchange(sent, outcome) => Signal::Exchange(sent, lift_outcome(outcome)),
    }
}

/// The outcome of a transfer with a bus failure wrapped into the driver's
/// error.
spec fn lift_outcome<E>(outcome: Result<Seq<u8>, E>) -> Result<Seq<u8>, Error<E>> {
    match outcome {
        Ok(reply) => Ok(reply),
        Err(e) => Err(Error::SpiError(e)),
    }
}

/// A trace of the lines as users of the driver read it.
spec fn lift_trace<E>(trace: Seq<Signal<E>>) -> Seq<Signal<Error<E>>> {
    trace.map_values(|signal: Signal<E>| lift(signal))
}

proof fn lemma_lift_push<E>(trace: Seq<Signal<E>>, signal: Signal<E>)
    ensures
        lift_trace(trace.push(signal)) == lift_trace(trace).push(lift(signal)),
{
    assert(lift_trace(trace.push(signal)) =~= lift_trace(trace).push(lift(signal)));
}

} // verus!

//! The one gate to the chip that every operating mode works through.

use crate::command::{lemma_read_frame_opcode, read_frame, write_frame, Command, W_REGISTER};
use crate::hardware::{
    ce_level, csn_level, exchange_count, lemma_transaction, lemma_transaction_pushes, outcome_of,
    transaction, Signal,
};
use crate::registers::{Config, FifoStatus, Register, Status};
use vstd::prelude::*;

verus! {

/// The outcome of the transfer in the transaction that ends `trace`.
pub open spec fn last_outcome<E>(trace: Seq<Signal<E>>) -> Result<Seq<u8>, E>
    recommends
        trace.len() >= 3,
{
    outcome_of(trace[trace.len() - 2])
}

/// `after` is `before` and then exactly one bus transaction, which sent
/// `frame` and, where the bus did not fail, got as many bytes back.
pub open spec fn executed<E>(
    before: Seq<Signal<E>>,
    after: Seq<Signal<E>>,
    frame: Seq<u8>,
) -> bool {
    &&& after == before + transaction(frame, last_outcome(after))
    &&& last_outcome(after) matches Ok(reply) ==> reply.len() == frame.len()
}

/// What `send_command` returns for the outcome of its transfer: the bus
/// error, or the status byte that leads the reply and the decoded rest.
pub open spec fn answered<C: Command, E>(
    command: C,
    outcome: Result<Seq<u8>, E>,
    res: Result<(Status, C::Response), E>,
) -> bool {
    match outcome {
        Ok(reply) => res matches Ok((status, response)) && status == Status(reply[0])
            && command.decodes(reply, response),
        Err(e) => res == Err::<(Status, C::Response), E>(e),
    }
}

/// What `write_register` returns for the outcome of its transfer.
pub open spec fn written<E>(outcome: Result<Seq<u8>, E>) -> Result<Status, E> {
    match outcome {
        Ok(reply) => Ok(Status(reply[0])),
        Err(e) => Err(e),
    }
}

/// What `read_register` returns for the outcome of its transfer.
pub open spec fn fetched<R: Register, E>(outcome: Result<Seq<u8>, E>) -> Result<(Status, R), E> {
    match outcome {
        Ok(reply) => Ok((Status(reply[0]), R::from_bytes(reply.skip(1)))),
        Err(e) => Err(e),
    }
}

/// What is written to a register and read back is what was written: if the
/// chip answers a read of the register with a status byte and the bytes that
/// a write of `value` carried, the read returns `value`.
pub proof fn lemma_read_back<R: Register, E>(value: R, status: u8)
    ensures
        fetched::<R, E>(Ok(seq![status] + write_frame(value).skip(1))) == Ok::<(Status, R), E>(
            (Status(status), value),
        ),
{
    let reply = seq![status] + write_frame(value).skip(1);
    value.lemma_round_trip();
    assert(write_frame(value).skip(1) =~= value.bytes());
    assert(reply.skip(1) =~= value.bytes());
}

/// How `update_config` leaves a device on which the caller's change turned
/// the configuration `before_config` into `wanted` and returned `returned`.
///
/// A change that changes nothing touches neither the bus nor the device.
/// Any other is written to the chip in one transaction; the device keeps the
/// new value if the write succeeded and the old one if it failed.
pub open spec fn persisted<R, E>(
    before_trace: Seq<Signal<E>>,
    before_config: Config,
    after_trace: Seq<Signal<E>>,
    after_config: Config,
    wanted: Config,
    returned: R,
    res: Result<R, E>,
) -> bool {
    if wanted == before_config {
        &&& after_trace == before_trace
        &&& after_config == before_config
        &&& res == Ok::<R, E>(returned)
    } else {
        &&& executed(before_trace, after_trace, write_frame(wanted))
        &&& match last_outcome(after_trace) {
            Ok(_) => after_config == wanted && res == Ok::<R, E>(returned),
            Err(e) => after_config == before_config && res == Err::<R, E>(e),
        }
    }
}

/// A change that changes nothing is silent: where the caller's change left
/// the configuration as it was, `update_config` made no transfer, touched
/// nothing and returned what the change returned.
pub proof fn lemma_unchanged_config_is_silent<R, E>(
    before_trace: Seq<Signal<E>>,
    before_config: Config,
    after_trace: Seq<Signal<E>>,
    after_config: Config,
    returned: R,
    res: Result<R, E>,
)
    requires
        persisted(
            before_trace,
            before_config,
            after_trace,
            after_config,
            before_config,
            returned,
            res,
        ),
    ensures
        after_trace == before_trace,
        exchange_count(after_trace) == exchange_count(before_trace),
        after_config == before_config,
        res == Ok::<R, E>(returned),
{
}

/// The configuration that a signal puts on the chip, if the signal is a
/// write to the configuration register that did not fail.
pub open spec fn config_put<E>(signal: Signal<E>) -> Option<Config> {
    match signal {
        Signal::Exchange(sent, Ok(_)) => if sent.len() == 2 && sent[0] == W_REGISTER {
            Some(Config(sent[1]))
        } else {
            None
        },
        _ => None,
    }
}

/// The configuration that the chip holds as far as the trace shows: the
/// value of the last write to the configuration register that did not fail.
pub open spec fn chip_config<E>(trace: Seq<Signal<E>>) -> Option<Config>
    decreases trace.len(),
{
    if trace.len() == 0 {
        None
    } else {
        match config_put(trace.last()) {
            Some(config) => Some(config),
            None => chip_config(trace.drop_last()),
        }
    }
}

/// The device's copy of the configuration is the one that the chip holds.
pub open spec fn in_step<D: Device>(device: D) -> bool {
    chip_config(device.trace()) == Some(device.config())
}

/// The frame that writes a configuration is the write command for address 0
/// and the configuration's byte.
pub proof fn lemma_config_frame(config: Config)
    ensures
        write_frame(config) == seq![W_REGISTER, config.0],
{
    assert(0x20u8 | 0x00u8 == 0x20u8) by (bit_vector);
    assert(write_frame(config) =~= seq![W_REGISTER, config.0]);
}

/// One more signal changes the chip's configuration only if it writes it.
pub proof fn lemma_chip_config_push<E>(trace: Seq<Signal<E>>, signal: Signal<E>)
    ensures
        chip_config(trace.push(signal)) == match config_put(signal) {
            Some(config) => Some(config),
            None => chip_config(trace),
        },
{
    assert(trace.push(signal).drop_last() =~= trace);
}

/// A transaction changes the chip's configuration only if it writes it and
/// does not fail.
pub proof fn lemma_chip_config_executed<E>(
    before: Seq<Signal<E>>,
    after: Seq<Signal<E>>,
    frame: Seq<u8>,
)
    requires
        executed(before, after, frame),
    ensures
        chip_config(after) == match config_put(Signal::Exchange(frame, last_outcome(after))) {
            Some(config) => Some(config),
            None => chip_config(before),
        },
{
    let outcome = last_outcome(after);
    let selected = before.push(Signal::Csn(false));
    let exchanged = selected.push(Signal::Exchange(frame, outcome));
    lemma_transaction_pushes(before, frame, outcome);
    lemma_chip_config_push(before, Signal::Csn(false));
    lemma_chip_config_push(selected, Signal::Exchange(frame, outcome));
    lemma_chip_config_push(exchanged, Signal::Csn(true));
}

/// A transaction whose frame is no write to the configuration register
/// leaves the chip's configuration alone.
pub proof fn lemma_chip_config_kept<E>(
    before: Seq<Signal<E>>,
    after: Seq<Signal<E>>,
    frame: Seq<u8>,
)
    requires
        executed(before, after, frame),
        frame.len() != 2 || frame[0] != W_REGISTER,
    ensures
        chip_config(after) == chip_config(before),
{
    lemma_chip_config_executed(before, after, frame);
}

/// `after` is the device `before` after exactly one bus transaction, which
/// sent `frame`, left the chip deselected and touched neither the enable pin
/// nor the configuration, on the chip or in the device.
pub open spec fn transacted<D: Device>(before: D, after: D, frame: Seq<u8>) -> bool {
    &&& executed(before.trace(), after.trace(), frame)
    &&& csn_level(after.trace()) == Some(true)
    &&& ce_level(after.trace()) == ce_level(before.trace())
    &&& after.config() == before.config()
    &&& chip_config(after.trace()) == chip_config(before.trace())
}

/// A transaction whose frame is no write to the configuration register
/// leaves the chip deselected and touches neither the enable pin nor the
/// chip's configuration.
pub proof fn lemma_transacted<D: Device>(before: D, after: D, frame: Seq<u8>)
    requires
        executed(before.trace(), after.trace(), frame),
        after.config() == before.config(),
        frame.len() != 2 || frame[0] != W_REGISTER,
    ensures
        transacted(before, after, frame),
{
    lemma_transaction(before.trace(), frame, last_outcome(after.trace()));
    lemma_chip_config_kept(before.trace(), after.trace(), frame);
}

/// The frame that polls the queue-status register.
pub open spec fn poll_frame() -> Seq<u8> {
    read_frame::<FifoStatus>()
}

/// What a query of one queue-status flag returns for the outcome of its
/// status poll.
pub open spec fn queue_flag<E>(outcome: Result<Seq<u8>, E>, mask: u8) -> Result<bool, E> {
    match outcome {
        Ok(reply) => Ok(FifoStatus(reply[1]).has(mask)),
        Err(e) => Err(e),
    }
}

/// Polls the queue-status register.
pub(crate) fn poll<D: Device>(device: &mut D) -> (res: Result<(Status, FifoStatus), D::Error>)
    ensures
        transacted(*old(device), *final(device), poll_frame()),
        res == fetched::<FifoStatus, D::Error>(last_outcome(final(device).trace())),
{
    let polled = device.read_register::<FifoStatus>();
    proof {
        lemma_read_frame_opcode::<FifoStatus>();
        lemma_transacted(*old(device), *device, poll_frame());
    }
    polled
}

/// A change of the configuration through `update_config` keeps the device's
/// copy and the chip's in step: both change, or neither does.
pub proof fn lemma_persisted_in_step<R, E>(
    before_trace: Seq<Signal<E>>,
    before_config: Config,
    after_trace: Seq<Signal<E>>,
    after_config: Config,
    wanted: Config,
    returned: R,
    res: Result<R, E>,
)
    requires
        persisted(before_trace, before_config, after_trace, after_config, wanted, returned, res),
        chip_config(before_trace) == Some(before_config),
    ensures
        chip_config(after_trace) == Some(after_config),
{
    if wanted != before_config {
        lemma_config_frame(wanted);
        lemma_chip_config_executed(before_trace, after_trace, write_frame(wanted));
    }
}

/// The capability that the operating modes are built on: drive the enable
/// pin, run a command on the bus, read and write registers, and change the
/// configuration register while keeping the copy in memory equal to the one
/// on the chip.
pub trait Device: Sized {
    /// Failure of an operation on the chip.
    type Error;

    /// Everything done to the chip's lines so far, oldest first.
    spec fn trace(&self) -> Seq<Signal<Self::Error>>;

    /// The copy in memory of the configuration register.
    spec fn config(&self) -> Config;

    /// Drives the enable pin high.
    fn ce_enable(&mut self)
        ensures
            final(self).trace() == old(self).trace().push(Signal::Ce(true)),
            final(self).config() == old(self).config(),
    ;

    /// Drives the enable pin low.
    fn ce_disable(&mut self)
        ensures
            final(self).trace() == old(self).trace().push(Signal::Ce(false)),
            final(self).config() == old(self).config(),
    ;

    /// Holds the caller for at least `micros` microseconds.
    fn delay_us(&mut self, micros: u32)
        ensures
            final(self).trace() == old(self).trace().push(Signal::Delay(micros)),
            final(self).config() == old(self).config(),
    ;

    /// Runs one command in one bus transaction: selects the chip, exchanges
    /// the command's frame, deselects the chip whether or not the exchange
    /// failed, and only then decodes the reply or hands the failure on.
    fn send_command<C: Command>(&mut self, command: &C) -> (res: Result<
        (Status, C::Response),
        Self::Error,
    >)
        requires
            command.valid(),
        ensures
            executed(old(self).trace(), final(self).trace(), command.frame()),
            answered(*command, last_outcome(final(self).trace()), res),
            csn_level(final(self).trace()) == Some(true),
            final(self).config() == old(self).config(),
    ;

    /// Writes a register in one bus transaction.
    fn write_register<R: Register>(&mut self, register: R) -> (res: Result<Status, Self::Error>)
        ensures
            executed(old(self).trace(), final(self).trace(), write_frame(register)),
            res == written(last_outcome(final(self).trace())),
            csn_level(final(self).trace()) == Some(true),
            final(self).config() == old(self).config(),
    ;

    /// Reads a register in one bus transaction.
    fn read_register<R: Register>(&mut self) -> (res: Result<(Status, R), Self::Error>)
        ensures
            executed(old(self).trace(), final(self).trace(), read_frame::<R>()),
            res == fetched::<R, Self::Error>(last_outcome(final(self).trace())),
            csn_level(final(self).trace()) == Some(true),
            final(self).config() == old(self).config(),
    ;

    /// Lets `f` change a copy of the configuration, writes the copy to the
    /// chip if `f` changed it, and returns what `f` returned. The device's
    /// copy and the chip's stay in step.
    fn update_config<F, R>(&mut self, f: F) -> (res: Result<R, Self::Error>) where
        F: FnOnce(&mut Config) -> R,

        requires
            forall|c: &mut Config| *c == old(self).config() ==> call_requires(f, (c,)),
        ensures
            exists|c: &mut Config, returned: R|
                *c == old(self).config() && #[trigger] call_ensures(f, (c,), returned) && persisted(
                    old(self).trace(),
                    old(self).config(),
                    final(self).trace(),
                    final(self).config(),
                    *final(c),
                    returned,
                    res,
                ),
            chip_config(old(self).trace()) == Some(old(self).config()) ==> chip_config(
                final(self).trace(),
            ) == Some(final(self).config()),
    ;
}

} // verus!

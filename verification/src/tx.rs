//! Transmit mode.

use crate::command::{
    lemma_read_frame_opcode, lemma_write_frame_opcode, read_frame, write_frame, Command, FlushTx,
    WriteTxPayload, FLUSH_TX, W_TX_PAYLOAD,
};
use crate::device::{
    chip_config, executed, fetched, in_step, last_outcome, lemma_chip_config_push,
    lemma_transacted, persisted, poll, poll_frame, queue_flag, transacted, written, Device,
};
use crate::errors::TransmissionError;
use crate::hardware::{ce_level, lemma_push, outcome_of, transaction, Signal};
use crate::payload::MAX_PAYLOAD;
use crate::registers::{
    Config, FifoStatus, ObserveTx, Status, MAX_RT, PRIM_RX, TX_DS, TX_EMPTY, TX_FULL,
};
use crate::standby::StandbyMode;
use vstd::prelude::*;

verus! {

/// How long the enable pin is held high before the first status poll, in
/// microseconds. The chip does not start to transmit on a shorter pulse.
pub const SETTLE_MICROS: u32 = 10;

/// How many status polls `flush_queue` makes at most, unless the caller sets
/// another limit. The chip gives up on a payload long before.
pub const DEFAULT_POLL_LIMIT: u32 = 0xffff_ffff;

/// Represents **TX Mode** and the associated **TX Settling** and
/// **Standby-II** states: the primary-receiver flag is clear, and the enable
/// pin is low except while the queue is being flushed.
pub struct TxMode<D: Device> {
    device: D,
    poll_limit: u32,
}

/// `end` is the device `start` after the step into transmit mode, which
/// returned `res`.
///
/// The enable pin was driven low, then the configuration with the
/// primary-receiver flag cleared was persisted. The mode owns the device
/// exactly if that did not fail. Either way the device's copy of the
/// configuration stays in step with the chip's.
pub open spec fn enters<D: Device>(start: D, end: D, res: Result<TxMode<D>, D::Error>) -> bool {
    &&& in_step(start) ==> in_step(end)
    &&& persisted(
        start.trace().push(Signal::Ce(false)),
        start.config(),
        end.trace(),
        end.config(),
        start.config().with(PRIM_RX, false),
        (),
        match res {
            Ok(_) => Ok::<(), D::Error>(()),
            Err(e) => Err::<(), D::Error>(e),
        },
    )
    &&& res matches Ok(mode) ==> mode.device() == end && mode.poll_limit() == DEFAULT_POLL_LIMIT
}

/// What one status poll tells `flush_queue` to do.
#[derive(Clone, Copy, Debug, PartialEq, Eq, Structural)]
pub enum Verdict {
    /// Payloads are still queued: poll again.
    Pending,
    /// The queue is empty: everything was sent.
    Sent,
    /// The chip gave up retransmitting a payload.
    GaveUp,
}

/// The verdict on a status byte and a queue-status byte. That the chip gave
/// up counts even if the queue is reported empty.
pub open spec fn verdict_of(status: Status, fifo_status: FifoStatus) -> Verdict {
    if status.has(MAX_RT) {
        Verdict::GaveUp
    } else if fifo_status.has(TX_EMPTY) {
        Verdict::Sent
    } else {
        Verdict::Pending
    }
}

/// The verdict on the reply to a status poll.
pub open spec fn verdict(reply: Seq<u8>) -> Verdict {
    verdict_of(Status(reply[0]), FifoStatus(reply[1]))
}

/// Judges the answer to one status poll.
pub fn judge(status: Status, fifo_status: FifoStatus) -> (v: Verdict)
    ensures
        v == verdict_of(status, fifo_status),
{
    if status.max_rt() {
        Verdict::GaveUp
    } else if fifo_status.tx_empty() {
        Verdict::Sent
    } else {
        Verdict::Pending
    }
}

/// The status value that is written back to clear the data-sent and
/// maximum-retransmissions interrupts; the chip clears a flag that is written
/// as 1.
pub open spec fn given_up_flags() -> Status {
    Status(0x30)
}

/// The status value that clears the interrupts of a failed transmission.
pub fn get_given_up_flags() -> (clear: Status)
    ensures
        clear == given_up_flags(),
        clear == Status(0).with(TX_DS, true).with(MAX_RT, true),
{
    let mut clear = Status(0);
    clear.set_tx_ds(true);
    clear.set_max_rt(true);
    assert((0u8 | 0x20u8) | 0x10u8 == 0x30u8) by (bit_vector);
    clear
}

/// `signals` is what `flush_queue` does once the chip has given up, and `res`
/// what it returns: the enable pin is driven low, the interrupts are cleared
/// in one transaction and, if that did not fail, the enable pin is driven
/// low once more.
pub open spec fn gives_up<E>(signals: Seq<Signal<E>>, res: Result<(), TransmissionError<E>>) -> bool {
    &&& signals.len() >= 4
    &&& signals[0] == Signal::<E>::Ce(false)
    &&& signals.subrange(1, 4) == transaction(
        write_frame(given_up_flags()),
        outcome_of(signals[2]),
    )
    &&& match outcome_of(signals[2]) {
        Ok(reply) => {
            &&& reply.len() == 2
            &&& signals.skip(4) == seq![Signal::<E>::Ce(false)]
            &&& res == Err::<(), TransmissionError<E>>(TransmissionError::MaximumRetriesExceeded)
        },
        Err(e) => {
            &&& signals.len() == 4
            &&& res == Err::<(), TransmissionError<E>>(TransmissionError::DeviceError(e))
        },
    }
}

/// `signals` is what `flush_queue` does after the settling delay when it may
/// poll `budget` times, and `res` what it returns.
///
/// With no poll left, the enable pin is driven low and the limit reported.
/// Otherwise the queue status is polled in one transaction. If the bus
/// fails, the enable pin is driven low and the failure returned. If the chip
/// gave up, see `gives_up`. If the queue is empty, the enable pin is driven
/// low and the flush has succeeded. Otherwise the same goes on with one poll
/// less.
pub open spec fn polls<E>(
    signals: Seq<Signal<E>>,
    budget: nat,
    res: Result<(), TransmissionError<E>>,
) -> bool
    decreases budget,
{
    if budget == 0 {
        &&& signals == seq![Signal::<E>::Ce(false)]
        &&& res == Err::<(), TransmissionError<E>>(TransmissionError::PollLimitExceeded)
    } else {
        &&& signals.len() >= 3
        &&& signals.take(3) == transaction(poll_frame(), outcome_of(signals[1]))
        &&& match outcome_of(signals[1]) {
            Err(e) => {
                &&& signals.skip(3) == seq![Signal::<E>::Ce(false)]
                &&& res == Err::<(), TransmissionError<E>>(TransmissionError::DeviceError(e))
            },
            Ok(reply) => {
                &&& reply.len() == 2
                &&& match verdict(reply) {
                    Verdict::Pending => polls(signals.skip(3), (budget - 1) as nat, res),
                    Verdict::Sent => {
                        &&& signals.skip(3) == seq![Signal::<E>::Ce(false)]
                        &&& res == Ok::<(), TransmissionError<E>>(())
                    },
                    Verdict::GaveUp => gives_up(signals.skip(3), res),
                }
            },
        }
    }
}

/// `after` is the trace `before` after `flush_queue` with a limit of `limit`
/// polls, which returned `res`: the enable pin was driven high, the caller
/// was held for the settling delay, and then the queue status was polled as
/// `polls` says.
pub open spec fn flushes<E>(
    before: Seq<Signal<E>>,
    after: Seq<Signal<E>>,
    limit: nat,
    res: Result<(), TransmissionError<E>>,
) -> bool {
    let started = before.push(Signal::Ce(true)).push(Signal::Delay(SETTLE_MICROS));
    &&& after.len() >= started.len()
    &&& after.take(started.len() as int) == started
    &&& polls(after.skip(started.len() as int), limit, res)
}

/// `end` is the device `start` after the step from transmit mode to standby
/// with a limit of `limit` polls, which returned `res`; `flushed` is the trace
/// when `flush_queue` returned `flush` on the way.
///
/// First the queue was flushed. If that succeeded, the enable pin was driven
/// low and the standby mode owns the device. If it failed, for whatever
/// reason, the transmit queue was discarded in one transaction; if that
/// succeeded too, the enable pin was driven low and the standby mode owns
/// the device, else the bus error of the discarding is returned and the
/// device given up. The configuration is not touched, on the chip or in the
/// device.
pub open spec fn leaves<D: Device>(
    start: D,
    limit: nat,
    flushed: Seq<Signal<D::Error>>,
    flush: Result<(), TransmissionError<D::Error>>,
    end: D,
    res: Result<StandbyMode<D>, D::Error>,
) -> bool {
    &&& flushes(start.trace(), flushed, limit, flush)
    &&& end.config() == start.config()
    &&& chip_config(end.trace()) == chip_config(start.trace())
    &&& res matches Ok(mode) ==> mode.device() == end
    &&& match flush {
        Ok(_) => res is Ok && end.trace() == flushed.push(Signal::Ce(false)),
        Err(_) => match res {
            Ok(_) => {
                &&& end.trace().len() > 0
                &&& end.trace().last() == Signal::<D::Error>::Ce(false)
                &&& executed(flushed, end.trace().drop_last(), seq![FLUSH_TX])
                &&& last_outcome(end.trace().drop_last()) is Ok
            },
            Err(e) => {
                &&& executed(flushed, end.trace(), seq![FLUSH_TX])
                &&& last_outcome(end.trace()) == Err::<Seq<u8>, D::Error>(e)
            },
        },
    }
}

/// `signals` is `count` status polls in a row, each answered with payloads
/// still queued and the chip not having given up.
spec fn pending_polls<E>(signals: Seq<Signal<E>>, count: nat) -> bool
    decreases count,
{
    if count == 0 {
        signals.len() == 0
    } else {
        let last = signals.skip(signals.len() - 3);
        &&& signals.len() >= 3
        &&& last == transaction(poll_frame(), outcome_of(last[1]))
        &&& outcome_of(last[1]) matches Ok(reply) && reply.len() == 2 && verdict(reply)
            == Verdict::Pending
        &&& pending_polls(signals.take(signals.len() - 3), (count - 1) as nat)
    }
}

/// One more poll that found payloads still queued.
proof fn lemma_pending_poll<E>(waited: Seq<Signal<E>>, count: nat, outcome: Result<Seq<u8>, E>)
    requires
        pending_polls(waited, count),
        outcome matches Ok(reply) && reply.len() == 2 && verdict(reply) == Verdict::Pending,
    ensures
        pending_polls(waited + transaction(poll_frame(), outcome), count + 1),
{
    let poll = transaction(poll_frame(), outcome);
    let now = waited + poll;
    assert(now.skip(now.len() - 3) =~= poll);
    assert(now.take(now.len() - 3) =~= waited);
}

/// Polls that found payloads still queued use up the budget and change
/// nothing else.
proof fn lemma_polls_after_pending<E>(
    waited: Seq<Signal<E>>,
    count: nat,
    rest: Seq<Signal<E>>,
    budget: nat,
    res: Result<(), TransmissionError<E>>,
)
    requires
        pending_polls(waited, count),
        polls(rest, budget, res),
    ensures
        polls(waited + rest, budget + count, res),
    decreases count,
{
    if count == 0 {
        assert(waited + rest =~= rest);
    } else {
        let last = waited.skip(waited.len() - 3);
        let before = waited.take(waited.len() - 3);
        let tail = last + rest;
        assert(tail.take(3) =~= last);
        assert(tail.skip(3) =~= rest);
        assert(tail[1] == last[1]);
        assert(polls(tail, budget + 1, res));
        lemma_polls_after_pending(before, (count - 1) as nat, tail, budget + 1, res);
        assert(before + tail =~= waited + rest);
    }
}

/// A flush that started, found payloads still queued `count` times and then
/// went on as `polls` says with the rest of its budget is a flush with the
/// whole budget.
proof fn lemma_flushed<E>(
    before: Seq<Signal<E>>,
    waited: Seq<Signal<E>>,
    count: nat,
    rest: Seq<Signal<E>>,
    budget: nat,
    res: Result<(), TransmissionError<E>>,
    after: Seq<Signal<E>>,
)
    requires
        pending_polls(waited, count),
        polls(rest, budget, res),
        after == before.push(Signal::Ce(true)).push(Signal::Delay(SETTLE_MICROS)) + waited + rest,
    ensures
        flushes(before, after, budget + count, res),
{
    let started = before.push(Signal::Ce(true)).push(Signal::Delay(SETTLE_MICROS));
    lemma_polls_after_pending(waited, count, rest, budget, res);
    assert(after.take(started.len() as int) =~= started);
    assert(after.skip(started.len() as int) =~= waited + rest);
}

/// The last poll of a flush and the lowering of the enable pin that ends the
/// flush unless the chip gave up.
proof fn lemma_last_poll<E>(
    outcome: Result<Seq<u8>, E>,
    budget: nat,
    res: Result<(), TransmissionError<E>>,
)
    requires
        budget > 0,
        match outcome {
            Err(e) => res == Err::<(), TransmissionError<E>>(TransmissionError::DeviceError(e)),
            Ok(reply) => reply.len() == 2 && verdict(reply) == Verdict::Sent && res == Ok::<
                (),
                TransmissionError<E>,
            >(()),
        },
    ensures
        polls(transaction(poll_frame(), outcome).push(Signal::Ce(false)), budget, res),
{
    let poll = transaction(poll_frame(), outcome);
    let rest = poll.push(Signal::Ce(false));
    assert(rest.take(3) =~= poll);
    assert(rest.skip(3) =~= seq![Signal::<E>::Ce(false)]);
}

/// The last poll of a flush on which the chip has given up, and what
/// follows it.
proof fn lemma_gave_up_poll<E>(
    outcome: Result<Seq<u8>, E>,
    tail: Seq<Signal<E>>,
    budget: nat,
    res: Result<(), TransmissionError<E>>,
)
    requires
        budget > 0,
        outcome matches Ok(reply) && reply.len() == 2 && verdict(reply) == Verdict::GaveUp,
        gives_up(tail, res),
    ensures
        polls(transaction(poll_frame(), outcome) + tail, budget, res),
{
    let poll = transaction(poll_frame(), outcome);
    let rest = poll + tail;
    assert(rest.take(3) =~= poll);
    assert(rest.skip(3) =~= tail);
}

impl<D: Device> TxMode<D> {
    /// The device that this mode owns.
    pub closed spec fn spec_device(&self) -> &D {
        &self.device
    }

    /// The device that this mode owns, to look at.
    #[verifier::when_used_as_spec(spec_device)]
    pub fn device(&self) -> (device: &D)
        ensures
            device == self.device(),
    {
        &self.device
    }

    /// How many status polls `flush_queue` makes at most.
    pub closed spec fn spec_poll_limit(&self) -> u32 {
        self.poll_limit
    }

    /// How many status polls `flush_queue` makes at most.
    #[verifier::when_used_as_spec(spec_poll_limit)]
    pub fn poll_limit(&self) -> (polls: u32)
        ensures
            polls == self.poll_limit(),
    {
        self.poll_limit
    }

    /// What holds of every transmit-mode value between calls: the
    /// primary-receiver flag is clear and the enable pin was last driven low.
    pub open spec fn inv(&self) -> bool {
        &&& !self.device().config().has(PRIM_RX)
        &&& ce_level(self.device().trace()) == Some(false)
    }

    pub(crate) fn new(device: D) -> (res: Result<Self, D::Error>)
        ensures
            exists|end: D| #[trigger] enters(device, end, res),
            res matches Ok(mode) ==> mode.inv(),
    {
        let ghost start = device;
        let mut device = device;
        device.ce_disable();
        let ghost lowered = device;
        proof {
            lemma_push(start.trace(), Signal::Ce(false));
            lemma_chip_config_push(start.trace(), Signal::Ce(false));
        }
        let change = |config: &mut Config| -> (r: ())
            ensures
                *final(config) == old(config).with(PRIM_RX, false),
        {
            config.set_prim_rx(false)
        };
        let updated = device.update_config(change);
        match updated {
            Err(e) => {
                assert(enters(start, device, Err::<TxMode<D>, D::Error>(e)));
                Err(e)
            },
            Ok(_) => {
                let mode = TxMode { device, poll_limit: DEFAULT_POLL_LIMIT };
                proof {
                    start.config().lemma_with(PRIM_RX, false, PRIM_RX);
                    if device.trace() != lowered.trace() {
                        crate::hardware::lemma_transaction(
                            lowered.trace(),
                            write_frame(device.config()),
                            last_outcome(device.trace()),
                        );
                    }
                    assert(enters(start, device, Ok::<TxMode<D>, D::Error>(mode)));
                }
                Ok(mode)
            },
        }
    }

    /// Leaves transmit mode: flushes the queue and, if that fails, discards
    /// what is left in it, so that no payload stays behind to be retried;
    /// then drives the enable pin low.
    pub fn standby(self) -> (res: Result<StandbyMode<D>, D::Error>)
        requires
            self.inv(),
        ensures
            exists|
                flushed: Seq<Signal<D::Error>>,
                flush: Result<(), TransmissionError<D::Error>>,
                end: D,
            | #[trigger]
                leaves(*self.device(), self.poll_limit() as nat, flushed, flush, end, res),
            res matches Ok(mode) ==> mode.inv(),
    {
        let mut mode = self;
        let flush = mode.flush_queue();
        let ghost flushed = mode.device;
        if flush.is_err() {
            let discarded = mode.device.send_command(&FlushTx);
            proof {
                lemma_transacted(flushed, mode.device, seq![FLUSH_TX]);
            }
            match discarded {
                Err(e) => {
                    assert(leaves(
                        *self.device(),
                        self.poll_limit() as nat,
                        flushed.trace(),
                        flush,
                        mode.device,
                        Err::<StandbyMode<D>, D::Error>(e),
                    ));
                    return Err(e);
                },
                Ok(_) => {},
            }
        }
        let ghost last = mode.device;
        let standby = StandbyMode::new(mode.device);
        proof {
            assert(standby.device().trace().drop_last() =~= last.trace());
            assert(leaves(
                *self.device(),
                self.poll_limit() as nat,
                flushed.trace(),
                flush,
                *standby.device(),
                Ok::<StandbyMode<D>, D::Error>(standby),
            ));
        }
        Ok(standby)
    }

    /// Sets how many status polls `flush_queue` makes at most.
    pub fn set_poll_limit(&mut self, polls: u32)
        ensures
            final(self).poll_limit() == polls,
            final(self).device() == old(self).device(),
    {
        self.poll_limit = polls;
    }

    /// Is TX FIFO empty?
    pub fn is_empty(&mut self) -> (res: Result<bool, D::Error>)
        requires
            old(self).inv(),
        ensures
            final(self).inv(),
            final(self).poll_limit() == old(self).poll_limit(),
            transacted(*old(self).device(), *final(self).device(), poll_frame()),
            res == queue_flag(last_outcome(final(self).device().trace()), TX_EMPTY),
    {
        match poll(&mut self.device) {
            Ok((_, fifo_status)) => Ok(fifo_status.tx_empty()),
            Err(e) => Err(e),
        }
    }

    /// Is TX FIFO full?
    pub fn is_full(&mut self) -> (res: Result<bool, D::Error>)
        requires
            old(self).inv(),
        ensures
            final(self).inv(),
            final(self).poll_limit() == old(self).poll_limit(),
            transacted(*old(self).device(), *final(self).device(), poll_frame()),
            res == queue_flag(last_outcome(final(self).device().trace()), TX_FULL),
    {
        match poll(&mut self.device) {
            Ok((_, fifo_status)) => Ok(fifo_status.tx_full()),
            Err(e) => Err(e),
        }
    }

    /// Appends a packet of at most 32 bytes to the transmit queue. Nothing is
    /// sent before the queue is flushed.
    pub fn enqueue(&mut self, packet: &[u8]) -> (res: Result<Status, D::Error>)
        requires
            old(self).inv(),
            packet@.len() <= MAX_PAYLOAD,
        ensures
            final(self).inv(),
            final(self).poll_limit() == old(self).poll_limit(),
            transacted(
                *old(self).device(),
                *final(self).device(),
                seq![W_TX_PAYLOAD] + packet@,
            ),
            res == written(last_outcome(final(self).device().trace())),
    {
        let command = WriteTxPayload::new(packet);
        let sent = self.device.send_command(&command);
        proof {
            lemma_transacted(*old(self).device(), self.device, command.frame());
        }
        match sent {
            Ok((status, _)) => Ok(status),
            Err(e) => Err(e),
        }
    }

    /// Sends what is queued: drives the enable pin high, waits for the
    /// settling delay, then polls the queue status until the queue is empty,
    /// the chip has given up on a payload, the bus fails or the poll limit
    /// is reached. The enable pin is low again on every return, and the
    /// configuration is not touched.
    ///
    /// Where the chip has given up, its data-sent and
    /// maximum-retransmissions interrupts are cleared; the unsent payloads
    /// stay in the queue.
    pub fn flush_queue(&mut self) -> (res: Result<(), TransmissionError<D::Error>>)
        requires
            old(self).inv(),
        ensures
            final(self).inv(),
            final(self).poll_limit() == old(self).poll_limit(),
            flushes(
                old(self).device().trace(),
                final(self).device().trace(),
                old(self).poll_limit() as nat,
                res,
            ),
            final(self).device().config() == old(self).device().config(),
            chip_config(final(self).device().trace()) == chip_config(old(self).device().trace()),
    {
        // CE enabled for >10uS initiates transmission
        self.device.ce_enable();
        self.device.delay_us(SETTLE_MICROS);

        let ghost start = old(self).device.trace();
        let ghost started = self.device.trace();
        let limit: u32 = self.poll_limit;
        let mut polls_left: u32 = limit;
        proof {
            lemma_chip_config_push(start, Signal::Ce(true));
            lemma_chip_config_push(start.push(Signal::Ce(true)), Signal::Delay(SETTLE_MICROS));
            assert(started + Seq::empty() =~= started);
        }
        let ghost mut waited: Seq<Signal<D::Error>> = Seq::empty();

        while polls_left > 0
            invariant
                polls_left <= limit,
                limit == old(self).poll_limit,
                self.poll_limit == old(self).poll_limit,
                self.device.config() == old(self).device.config(),
                chip_config(self.device.trace()) == chip_config(start),
                !self.device.config().has(PRIM_RX),
                start == old(self).device.trace(),
                started == start.push(Signal::Ce(true)).push(Signal::Delay(SETTLE_MICROS)),
                self.device.trace() == started + waited,
                pending_polls(waited, (limit - polls_left) as nat),
            decreases polls_left,
        {
            let ghost budget = polls_left as nat;
            let ghost count = (limit - polls_left) as nat;
            polls_left = polls_left - 1;

            let polled = poll(&mut self.device);
            let ghost outcome = last_outcome(self.device.trace());
            let ghost polling = transaction(poll_frame(), outcome);
            let ghost polled_trace = self.device.trace();
            proof {
                assert(polled_trace =~= started + waited + polling);
            }
            let judged = match polled {
                Err(e) => Err(e),
                Ok((status, fifo_status)) => Ok(judge(status, fifo_status)),
            };
            match judged {
                Ok(Verdict::Pending) => {
                    proof {
                        lemma_pending_poll(waited, count, outcome);
                        waited = waited + polling;
                        assert(polled_trace =~= started + waited);
                    }
                },
                Ok(Verdict::GaveUp) => {
                    // MAX_RT: maximum retransmissions interrupt, transmission stops
                    let res = self.give_up();
                    proof {
                        let tail = self.device.trace().skip(polled_trace.len() as int);
                        lemma_gave_up_poll(outcome, tail, budget, res);
                        assert(self.device.trace() =~= self.device.trace().take(
                            polled_trace.len() as int,
                        ) + tail);
                        assert(self.device.trace() =~= started + waited + (polling + tail));
                        lemma_flushed(
                            start,
                            waited,
                            count,
                            polling + tail,
                            budget,
                            res,
                            self.device.trace(),
                        );
                    }
                    return res;
                },
                Ok(Verdict::Sent) => {
                    self.device.ce_disable();
                    proof {
                        let res = Ok::<(), TransmissionError<D::Error>>(());
                        lemma_last_poll(outcome, budget, res);
                        lemma_push(polled_trace, Signal::Ce(false));
                        lemma_chip_config_push(polled_trace, Signal::Ce(false));
                        assert(self.device.trace() =~= started + waited + polling.push(
                            Signal::Ce(false),
                        ));
                        lemma_flushed(
                            start,
                            waited,
                            count,
                            polling.push(Signal::Ce(false)),
                            budget,
                            res,
                            self.device.trace(),
                        );
                    }
                    return Ok(());
                },
                Err(e) => {
                    self.device.ce_disable();
                    proof {
                        let res = Err::<(), TransmissionError<D::Error>>(
                            TransmissionError::DeviceError(e),
                        );
                        lemma_last_poll(outcome, budget, res);
                        lemma_push(polled_trace, Signal::Ce(false));
                        lemma_chip_config_push(polled_trace, Signal::Ce(false));
                        assert(self.device.trace() =~= started + waited + polling.push(
                            Signal::Ce(false),
                        ));
                        lemma_flushed(
                            start,
                            waited,
                            count,
                            polling.push(Signal::Ce(false)),
                            budget,
                            res,
                            self.device.trace(),
                        );
                    }
                    return Err(TransmissionError::DeviceError(e));
                },
            }
        }

        let ghost polled_out = self.device.trace();
        self.device.ce_disable();
        proof {
            let rest = seq![Signal::<D::Error>::Ce(false)];
            let res = Err::<(), TransmissionError<D::Error>>(TransmissionError::PollLimitExceeded);
            lemma_push(polled_out, Signal::Ce(false));
            lemma_chip_config_push(polled_out, Signal::Ce(false));
            assert(self.device.trace() =~= started + waited + rest);
            lemma_flushed(start, waited, limit as nat, rest, 0, res, self.device.trace());
        }
        Err(TransmissionError::PollLimitExceeded)
    }

    /// Ends a flush on which the chip has given up: drives the enable pin
    /// low, clears the data-sent and maximum-retransmissions interrupts and
    /// drives the enable pin low again.
    fn give_up(&mut self) -> (res: Result<(), TransmissionError<D::Error>>)
        ensures
            final(self).poll_limit == old(self).poll_limit,
            final(self).device.trace().len() >= old(self).device.trace().len(),
            final(self).device.trace().take(old(self).device.trace().len() as int) == old(
                self,
            ).device.trace(),
            gives_up(
                final(self).device.trace().skip(old(self).device.trace().len() as int),
                res,
            ),
            ce_level(final(self).device.trace()) == Some(false),
            final(self).device.config() == old(self).device.config(),
            chip_config(final(self).device.trace()) == chip_config(old(self).device.trace()),
    {
        let ghost before = self.device.trace();
        self.device.ce_disable();
        let ghost lowered = self.device;
        let cleared = self.device.write_register(get_given_up_flags());
        let ghost clearing = transaction(
            write_frame(given_up_flags()),
            last_outcome(self.device.trace()),
        );
        proof {
            lemma_push(before, Signal::Ce(false));
            lemma_chip_config_push(before, Signal::Ce(false));
            lemma_write_frame_opcode(given_up_flags());
            lemma_transacted(lowered, self.device, write_frame(given_up_flags()));
        }
        match cleared {
            Err(e) => {
                proof {
                    let tail = seq![Signal::<D::Error>::Ce(false)] + clearing;
                    assert(self.device.trace() =~= before + tail);
                    assert(self.device.trace().skip(before.len() as int) =~= tail);
                    assert(self.device.trace().take(before.len() as int) =~= before);
                    assert(tail.subrange(1, 4) =~= clearing);
                }
                Err(TransmissionError::DeviceError(e))
            },
            Ok(_) => {
                let ghost written_trace = self.device.trace();
                self.device.ce_disable();
                proof {
                    let tail = (seq![Signal::<D::Error>::Ce(false)] + clearing).push(
                        Signal::Ce(false),
                    );
                    lemma_push(written_trace, Signal::Ce(false));
                    lemma_chip_config_push(written_trace, Signal::Ce(false));
                    assert(self.device.trace() =~= before + tail);
                    assert(self.device.trace().skip(before.len() as int) =~= tail);
                    assert(self.device.trace().take(before.len() as int) =~= before);
                    assert(tail.subrange(1, 4) =~= clearing);
                    assert(tail.skip(4) =~= seq![Signal::<D::Error>::Ce(false)]);
                }
                Err(TransmissionError::MaximumRetriesExceeded)
            },
        }
    }

    /// Reads the counters of lost and retransmitted packets.
    pub fn observe(&mut self) -> (res: Result<ObserveTx, D::Error>)
        requires
            old(self).inv(),
        ensures
            final(self).inv(),
            final(self).poll_limit() == old(self).poll_limit(),
            transacted(*old(self).device(), *final(self).device(), read_frame::<ObserveTx>()),
            res == match fetched::<ObserveTx, D::Error>(
                last_outcome(final(self).device().trace()),
            ) {
                Ok((_, counters)) => Ok::<ObserveTx, D::Error>(counters),
                Err(e) => Err::<ObserveTx, D::Error>(e),
            },
    {
        let read = self.device.read_register::<ObserveTx>();
        proof {
            lemma_read_frame_opcode::<ObserveTx>();
            lemma_transacted(*old(self).device(), self.device, read_frame::<ObserveTx>());
        }
        match read {
            Ok((_, observe_tx)) => Ok(observe_tx),
            Err(e) => Err(e),
        }
    }
}

} // verus!

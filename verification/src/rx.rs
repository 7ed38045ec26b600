//! Receive mode.

use crate::command::{zeros, Command, ReadRxPayload, ReadRxPayloadWidth, R_RX_PAYLOAD, R_RX_PL_WID};
use crate::device::{
    chip_config, executed, in_step, last_outcome, lemma_chip_config_push, lemma_transacted,
    persisted, poll, poll_frame, queue_flag, transacted, Device,
};
use crate::hardware::{ce_level, lemma_push, Signal};
use crate::payload::{Payload, MAX_PAYLOAD};
use crate::registers::{Config, FifoStatus, Status, PRIM_RX, RX_EMPTY, RX_FULL};
use crate::standby::StandbyMode;
use vstd::prelude::*;

verus! {

/// Represents **RX Mode**: the chip listens, with the primary-receiver flag
/// set and the enable pin high.
pub struct RxMode<D: Device> {
    device: D,
}

/// `end` is the device `start` after the step into receive mode, which
/// returned `res`.
///
/// The configuration with the primary-receiver flag set was persisted. If
/// that failed, nothing more was done and its error is returned. Otherwise
/// the enable pin was then driven high and the mode owns the device. Either
/// way the device's copy of the configuration stays in step with the chip's.
pub open spec fn enters<D: Device>(start: D, end: D, res: Result<RxMode<D>, D::Error>) -> bool {
    let wanted = start.config().with(PRIM_RX, true);
    &&& in_step(start) ==> in_step(end)
    &&& match res {
        Ok(mode) => {
            &&& mode.device() == end
            &&& end.trace().len() > 0
            &&& end.trace().last() == Signal::<D::Error>::Ce(true)
            &&& persisted(
                start.trace(),
                start.config(),
                end.trace().drop_last(),
                end.config(),
                wanted,
                (),
                Ok::<(), D::Error>(()),
            )
        },
        Err(e) => persisted(
            start.trace(),
            start.config(),
            end.trace(),
            end.config(),
            wanted,
            (),
            Err::<(), D::Error>(e),
        ),
    }
}

/// The frame that asks for the width of the payload at the front of the
/// receive queue.
pub open spec fn width_frame() -> Seq<u8> {
    seq![R_RX_PL_WID, 0u8]
}

/// The frame that reads a payload of `width` bytes.
pub open spec fn payload_frame(width: nat) -> Seq<u8> {
    seq![R_RX_PAYLOAD] + zeros(width)
}

/// The number of payload bytes to read after the chip answered the width
/// query with `reply`: the width that it reports, or 32 where it reports
/// more, which no intact packet has.
pub open spec fn payload_width(reply: Seq<u8>) -> nat {
    if reply[1] <= MAX_PAYLOAD {
        reply[1] as nat
    } else {
        MAX_PAYLOAD as nat
    }
}

/// What `can_read` returns for the outcome of its status poll: the pipe
/// number in the status byte if the receive queue is not empty.
pub open spec fn waiting_pipe<E>(outcome: Result<Seq<u8>, E>) -> Result<Option<u8>, E> {
    match outcome {
        Ok(reply) => Ok(
            if !FifoStatus(reply[1]).has(RX_EMPTY) {
                Some(Status(reply[0]).pipe())
            } else {
                None
            },
        ),
        Err(e) => Err(e),
    }
}

/// `after` is the trace `before` after `read`, which returned `res`.
///
/// First the width was asked for. If that failed, nothing more was done.
/// Otherwise a payload of that width was read in a second transaction, and
/// the payload returned holds the reply without its status byte.
pub open spec fn reads<E>(
    before: Seq<Signal<E>>,
    after: Seq<Signal<E>>,
    res: Result<Payload, E>,
) -> bool {
    let asked = after.take(before.len() + 3 as int);
    &&& executed(before, asked, width_frame())
    &&& match last_outcome(asked) {
        Err(e) => after == asked && res == Err::<Payload, E>(e),
        Ok(width_reply) => {
            &&& executed(asked, after, payload_frame(payload_width(width_reply)))
            &&& match last_outcome(after) {
                Err(e) => res == Err::<Payload, E>(e),
                Ok(reply) => res matches Ok(payload) && payload@ == reply.skip(1),
            }
        },
    }
}

impl<D: Device> RxMode<D> {
    /// The device that this mode owns.
    pub closed spec fn spec_device(&self) -> &D {
        &self.device
    }

    /// The device that this mode owns, to look at.
    #[verifier::when_used_as_spec(spec_device)]
    pub fn device(&self) -> (device: &D)
        ensures
            device == self.device(),
    {
        &self.device
    }

    /// What holds of every receive-mode value: the primary-receiver flag is
    /// set and the enable pin was last driven high.
    pub open spec fn inv(&self) -> bool {
        &&& self.device().config().has(PRIM_RX)
        &&& ce_level(self.device().trace()) == Some(true)
    }

    pub(crate) fn new(device: D) -> (res: Result<Self, D::Error>)
        ensures
            exists|end: D| #[trigger] enters(device, end, res),
            res matches Ok(mode) ==> mode.inv(),
    {
        let ghost start = device;
        let mut device = device;
        let change = |config: &mut Config| -> (r: ())
            ensures
                *final(config) == old(config).with(PRIM_RX, true),
        {
            config.set_prim_rx(true)
        };
        let updated = device.update_config(change);
        let ghost configured = device;
        match updated {
            Err(e) => {
                assert(enters(start, device, Err::<RxMode<D>, D::Error>(e)));
                Err(e)
            },
            Ok(_) => {
                device.ce_enable();
                let mode = RxMode { device };
                proof {
                    assert(device.trace().drop_last() =~= configured.trace());
                    lemma_push(configured.trace(), Signal::Ce(true));
                    lemma_chip_config_push(configured.trace(), Signal::Ce(true));
                    start.config().lemma_with(PRIM_RX, true, PRIM_RX);
                    assert(enters(start, device, Ok::<RxMode<D>, D::Error>(mode)));
                }
                Ok(mode)
            },
        }
    }

    /// Leaves receive mode by driving the enable pin low; the configuration
    /// stays as it is.
    pub fn standby(self) -> (mode: StandbyMode<D>)
        requires
            self.inv(),
        ensures
            mode.inv(),
            mode.device().trace() == self.device().trace().push(Signal::Ce(false)),
            mode.device().config() == self.device().config(),
            chip_config(mode.device().trace()) == chip_config(self.device().trace()),
    {
        StandbyMode::new(self.device)
    }

    /// Is there any incoming data to read? Returns the number of the pipe
    /// that the payload at the front of the queue came in on.
    pub fn can_read(&mut self) -> (res: Result<Option<u8>, D::Error>)
        requires
            old(self).inv(),
        ensures
            final(self).inv(),
            transacted(*old(self).device(), *final(self).device(), poll_frame()),
            res == waiting_pipe(last_outcome(final(self).device().trace())),
    {
        match poll(&mut self.device) {
            Ok((status, fifo_status)) => {
                if !fifo_status.rx_empty() {
                    Ok(Some(status.rx_p_no()))
                } else {
                    Ok(None)
                }
            },
            Err(e) => Err(e),
        }
    }

    /// Is the RX queue empty?
    pub fn is_empty(&mut self) -> (res: Result<bool, D::Error>)
        requires
            old(self).inv(),
        ensures
            final(self).inv(),
            transacted(*old(self).device(), *final(self).device(), poll_frame()),
            res == queue_flag(last_outcome(final(self).device().trace()), RX_EMPTY),
    {
        match poll(&mut self.device) {
            Ok((_, fifo_status)) => Ok(fifo_status.rx_empty()),
            Err(e) => Err(e),
        }
    }

    /// Is the RX queue full?
    pub fn is_full(&mut self) -> (res: Result<bool, D::Error>)
        requires
            old(self).inv(),
        ensures
            final(self).inv(),
            transacted(*old(self).device(), *final(self).device(), poll_frame()),
            res == queue_flag(last_outcome(final(self).device().trace()), RX_FULL),
    {
        match poll(&mut self.device) {
            Ok((_, fifo_status)) => Ok(fifo_status.rx_full()),
            Err(e) => Err(e),
        }
    }

    /// Takes the payload at the front of the receive queue: asks the chip
    /// for its width, then reads that many bytes. Neither step touches the
    /// enable pin or the configuration.
    pub fn read(&mut self) -> (res: Result<Payload, D::Error>)
        requires
            old(self).inv(),
        ensures
            final(self).inv(),
            reads(old(self).device().trace(), final(self).device().trace(), res),
            final(self).device().config() == old(self).device().config(),
            chip_config(final(self).device().trace()) == chip_config(old(self).device().trace()),
    {
        let asked = self.device.send_command(&ReadRxPayloadWidth);
        let ghost asking = self.device;
        proof {
            lemma_transacted(*old(self).device(), asking, width_frame());
            assert(asking.trace().take(old(self).device.trace().len() + 3 as int)
                =~= asking.trace());
        }
        let reported: u8 = match asked {
            Ok((_, reported)) => reported,
            Err(e) => {
                return Err(e);
            },
        };
        let width: usize = if reported as usize <= MAX_PAYLOAD {
            reported as usize
        } else {
            MAX_PAYLOAD
        };
        let command = ReadRxPayload::new(width);
        let fetched = self.device.send_command(&command);
        proof {
            lemma_transacted(asking, self.device, command.frame());
            assert(self.device.trace().take(old(self).device.trace().len() + 3 as int)
                =~= asking.trace());
        }
        match fetched {
            Ok((_, payload)) => Ok(payload),
            Err(e) => Err(e),
        }
    }
}

} // verus!

//! Standby: the mode between receiving and transmitting.

use crate::device::{chip_config, in_step, lemma_chip_config_push, persisted, Device};
use crate::hardware::{ce_level, lemma_push, Signal};
use crate::registers::{Config, PWR_UP};
use crate::rx::RxMode;
use crate::tx::TxMode;
use vstd::prelude::*;

verus! {

/// Represents **Standby-I** mode: the state the chip is in between
/// transmitting and receiving. The enable pin is low.
pub struct StandbyMode<D: Device> {
    device: D,
}

impl<D: Device> StandbyMode<D> {
    /// The device that this mode owns.
    pub closed spec fn spec_device(&self) -> &D {
        &self.device
    }

    /// The device that this mode owns, to look at.
    #[verifier::when_used_as_spec(spec_device)]
    pub fn device(&self) -> (device: &D)
        ensures
            device == self.device(),
    {
        &self.device
    }

    /// What holds of every standby value: the enable pin was last driven low.
    pub open spec fn inv(&self) -> bool {
        ce_level(self.device().trace()) == Some(false)
    }

    /// Takes a device into standby by driving the enable pin low.
    pub fn new(device: D) -> (mode: Self)
        ensures
            mode.inv(),
            mode.device().trace() == device.trace().push(Signal::Ce(false)),
            mode.device().config() == device.config(),
            chip_config(mode.device().trace()) == chip_config(device.trace()),
    {
        let ghost start = device;
        let mut device = device;
        device.ce_disable();
        proof {
            lemma_push(start.trace(), Signal::Ce(false));
            lemma_chip_config_push(start.trace(), Signal::Ce(false));
        }
        StandbyMode { device }
    }

    /// Go into RX mode: sets the primary-receiver flag, then drives the
    /// enable pin high. If the flag cannot be written the device is given up
    /// and the bus error returned.
    pub fn rx(self) -> (res: Result<RxMode<D>, D::Error>)
        requires
            self.inv(),
        ensures
            exists|end: D| #[trigger] crate::rx::enters(*self.device(), end, res),
            res matches Ok(mode) ==> mode.inv(),
    {
        RxMode::new(self.device)
    }

    /// Go into TX mode: drives the enable pin low, then clears the
    /// primary-receiver flag. If the flag cannot be written the device is
    /// given up and the bus error returned.
    pub fn tx(self) -> (res: Result<TxMode<D>, D::Error>)
        requires
            self.inv(),
        ensures
            exists|end: D| #[trigger] crate::tx::enters(*self.device(), end, res),
            res matches Ok(mode) ==> mode.inv(),
    {
        TxMode::new(self.device)
    }

    /// Powers the chip down by clearing the power flag, and hands the device
    /// back. If the flag cannot be written the device is given up and the bus
    /// error returned.
    pub fn power_down(self) -> (res: Result<D, D::Error>)
        requires
            self.inv(),
        ensures
            exists|end: D| #[trigger] powers_down(*self.device(), end, res),
    {
        let mut device = self.device;
        let change = |config: &mut Config| -> (r: ())
            ensures
                *final(config) == old(config).with(PWR_UP, false),
        {
            config.set_pwr_up(false)
        };
        let updated = device.update_config(change);
        match updated {
            Ok(_) => {
                assert(powers_down(*self.device(), device, Ok::<D, D::Error>(device)));
                Ok(device)
            },
            Err(e) => {
                assert(powers_down(*self.device(), device, Err::<D, D::Error>(e)));
                Err(e)
            },
        }
    }
}

/// `end` is the device `start` after `power_down`, which returned `res`: the
/// configuration with the power flag cleared was persisted, and the device is
/// handed back exactly if that did not fail. Either way the device's copy of
/// the configuration stays in step with the chip's.
pub open spec fn powers_down<D: Device>(start: D, end: D, res: Result<D, D::Error>) -> bool {
    &&& in_step(start) ==> in_step(end)
    &&& persisted(
        start.trace(),
        start.config(),
        end.trace(),
        end.config(),
        start.config().with(PWR_UP, false),
        (),
        match res {
            Ok(_) => Ok::<(), D::Error>(()),
            Err(e) => Err::<(), D::Error>(e),
        },
    )
    &&& res matches Ok(device) ==> device == end
}

} // verus!

use embedded_nrf24l01::scripted::{Fault, Record, ScriptedHardware, Step};
use embedded_nrf24l01::{
    Config, Device, Error, FifoStatus, Hardware, ObserveTx, RxMode, SetupAw, StandbyMode, Status,
    Traced, TransmissionError, TxMode, NRF24L01,
};

type Radio = NRF24L01<ScriptedHardware>;

fn reply(bytes: &[u8]) -> Step {
    Step::Reply(bytes.to_vec())
}

/// The four answers that a connected chip gives while it is powered up.
fn power_up_script() -> Vec<Step> {
    vec![reply(&[0x0e, 0]), reply(&[0x0e, 0]), reply(&[0x0e, 0]), reply(&[0x0e, 0x03])]
}

fn standby_with(then: Vec<Step>) -> StandbyMode<Radio> {
    let mut script = power_up_script();
    script.extend(then);
    NRF24L01::new(ScriptedHardware::new(script)).power_up().unwrap()
}

/// The frames of the transfers from record `from` on.
fn frames(hw: &ScriptedHardware, from: usize) -> Vec<Vec<u8>> {
    let mut sent = Vec::new();
    for record in &hw.records()[from..] {
        if let Record::Exchange(frame, _) = record {
            sent.push(frame.clone());
        }
    }
    sent
}

fn levels(hw: &ScriptedHardware, from: usize) -> Vec<String> {
    let mut seen = Vec::new();
    for record in &hw.records()[from..] {
        match record {
            Record::Ce(high) => seen.push(format!("ce={}", high)),
            Record::Csn(high) => seen.push(format!("csn={}", high)),
            Record::Delay(micros) => seen.push(format!("delay={}", micros)),
            Record::Exchange(frame, Ok(_)) => seen.push(format!("ok:{:02x}", frame[0])),
            Record::Exchange(frame, Err(_)) => seen.push(format!("err:{:02x}", frame[0])),
        }
    }
    seen
}

#[test]
fn new_writes_nothing() {
    let radio = NRF24L01::new(ScriptedHardware::new(vec![]));
    assert_eq!(radio.hardware().records().len(), 0);
    assert_eq!(radio.hardware().transfers(), 0);
    assert_eq!(radio.hardware().ce(), None);
    assert_eq!(radio.hardware().csn(), None);
}

#[test]
fn send_command_brackets_the_transfer_with_chip_select() {
    let mut radio = NRF24L01::new(ScriptedHardware::new(vec![reply(&[0x0e, 0x11])]));
    let (status, fifo) = radio.read_register::<FifoStatus>().unwrap();
    assert_eq!(status, Status(0x0e));
    assert_eq!(fifo, FifoStatus(0x11));
    assert_eq!(levels(radio.hardware(), 0), vec!["csn=false", "ok:17", "csn=true"]);
    assert_eq!(frames(radio.hardware(), 0), vec![vec![0x17, 0x00]]);
}

#[test]
fn write_register_returns_the_status_byte() {
    let mut radio = NRF24L01::new(ScriptedHardware::new(vec![reply(&[0x2e, 0x00])]));
    let status = radio.write_register(Status(0x70)).unwrap();
    assert_eq!(status, Status(0x2e));
    assert_eq!(frames(radio.hardware(), 0), vec![vec![0x27, 0x70]]);
}

#[test]
fn register_written_is_register_read_back() {
    // a chip that answers the read with the byte that the write carried
    let mut radio = NRF24L01::new(ScriptedHardware::new(vec![
        reply(&[0x0e, 0x00]),
        reply(&[0x0e, 0x5a]),
    ]));
    radio.write_register(Config(0x5a)).unwrap();
    let written = frames(radio.hardware(), 0)[0].clone();
    let (status, read) = radio.read_register::<Config>().unwrap();
    assert_eq!(status, Status(0x0e));
    assert_eq!(read, Config(written[1]));
    assert_eq!(read, Config(0x5a));
}

#[test]
fn transport_failure_propagates_and_leaves_chip_deselected() {
    let mut radio = NRF24L01::new(ScriptedHardware::new(vec![Step::Fail, Step::Fail]));
    let read = radio.read_register::<SetupAw>();
    assert!(matches!(read, Err(Error::SpiError(Fault::Scripted))));
    assert_eq!(radio.hardware().csn(), Some(true));
    let written = radio.write_register(Config(0x7a));
    assert!(matches!(written, Err(Error::SpiError(Fault::Scripted))));
    assert_eq!(radio.hardware().csn(), Some(true));
    assert_eq!(
        levels(radio.hardware(), 0),
        vec!["csn=false", "err:03", "csn=true", "csn=false", "err:20", "csn=true"]
    );
    let unscripted = radio.read_register::<SetupAw>();
    assert!(matches!(unscripted, Err(Error::SpiError(Fault::Unscripted))));
    assert_eq!(radio.hardware().csn(), Some(true));
}

#[test]
fn update_config_without_change_does_not_touch_the_bus() {
    let mut radio = NRF24L01::new(ScriptedHardware::new(vec![reply(&[0x0e, 0x00])]));
    let returned = radio.update_config(|config: &mut Config| {
        config.set_mask_rx_dr(true);
        config.set_pwr_up(false);
        17u8
    });
    assert!(matches!(returned, Ok(17)));
    assert_eq!(radio.hardware().transfers(), 0);
    assert_eq!(radio.hardware().records().len(), 0);
}

#[test]
fn update_config_with_change_writes_the_new_value_once() {
    let mut radio = NRF24L01::new(ScriptedHardware::new(vec![reply(&[0x0e, 0x00])]));
    let returned = radio.update_config(|config: &mut Config| {
        config.set_pwr_up(true);
        config.pwr_up()
    });
    assert!(matches!(returned, Ok(true)));
    assert_eq!(radio.hardware().transfers(), 1);
    assert_eq!(frames(radio.hardware(), 0), vec![vec![0x20, 0x7a]]);
    // the copy in memory has changed too: the same change is now no change
    let again = radio.update_config(|config: &mut Config| config.set_pwr_up(true));
    assert!(again.is_ok());
    assert_eq!(radio.hardware().transfers(), 1);
}

#[test]
fn update_config_keeps_the_old_value_when_the_write_fails() {
    let mut radio = NRF24L01::new(ScriptedHardware::new(vec![Step::Fail, reply(&[0x0e, 0x00])]));
    let failed = radio.update_config(|config: &mut Config| config.set_pwr_up(true));
    assert!(matches!(failed, Err(Error::SpiError(Fault::Scripted))));
    // the change is still a change, so it is written again
    let retried = radio.update_config(|config: &mut Config| config.set_pwr_up(true));
    assert!(retried.is_ok());
    assert_eq!(frames(radio.hardware(), 0), vec![vec![0x20, 0x7a], vec![0x20, 0x7a]]);
}

#[test]
fn is_connected_accepts_width_field_three() {
    let mut radio = NRF24L01::new(ScriptedHardware::new(vec![
        reply(&[0x0e, 0x03]),
        reply(&[0x0e, 0x02]),
        reply(&[0x0e, 0x00]),
        reply(&[0x0e, 0xff]),
        Step::Fail,
    ]));
    assert!(matches!(radio.is_connected(), Ok(true)));
    assert!(matches!(radio.is_connected(), Ok(false)));
    assert!(matches!(radio.is_connected(), Ok(false)));
    assert!(matches!(radio.is_connected(), Ok(true)));
    assert!(matches!(radio.is_connected(), Err(Error::SpiError(Fault::Scripted))));
    assert_eq!(frames(radio.hardware(), 0)[0], vec![0x03, 0x00]);
}

#[test]
fn power_up_initialises_the_chip_and_yields_standby() {
    let standby = standby_with(vec![]);
    let hw = standby.device().hardware();
    assert_eq!(
        levels(hw, 0),
        vec![
            "ce=false", "csn=true", "csn=false", "ok:20", "csn=true", "csn=false", "ok:27",
            "csn=true", "csn=false", "ok:20", "csn=true", "csn=false", "ok:03", "csn=true",
            "ce=false",
        ]
    );
    assert_eq!(
        frames(hw, 0),
        vec![vec![0x20, 0x78], vec![0x27, 0x70], vec![0x20, 0x7a], vec![0x03, 0x00]]
    );
    assert_eq!(hw.ce(), Some(false));
    assert_eq!(hw.csn(), Some(true));
    assert_eq!(hw.transfers(), 4);
}

#[test]
fn power_up_reports_a_chip_that_does_not_answer() {
    let script = vec![reply(&[0, 0]), reply(&[0, 0]), reply(&[0, 0]), reply(&[0, 0])];
    let result = NRF24L01::new(ScriptedHardware::new(script)).power_up();
    assert!(matches!(result, Err(Error::NotConnected)));
}

#[test]
fn power_up_hands_on_a_bus_failure() {
    for failing in 0..4 {
        let mut script = power_up_script();
        script[failing] = Step::Fail;
        let result = NRF24L01::new(ScriptedHardware::new(script)).power_up();
        assert!(matches!(result, Err(Error::SpiError(Fault::Scripted))));
    }
}

#[test]
fn standby_to_receive_sets_primary_receiver_and_enables() {
    let standby = standby_with(vec![reply(&[0x0e, 0x00])]);
    let before = standby.device().hardware().records().len();
    let rx = standby.rx().unwrap();
    let hw = rx.device().hardware();
    assert_eq!(levels(hw, before), vec!["csn=false", "ok:20", "csn=true", "ce=true"]);
    assert_eq!(frames(hw, before), vec![vec![0x20, 0x7b]]);
    assert_eq!(hw.ce(), Some(true));
}

#[test]
fn standby_to_receive_fails_when_the_flag_cannot_be_written() {
    let standby = standby_with(vec![Step::Fail]);
    assert!(matches!(standby.rx(), Err(Error::SpiError(Fault::Scripted))));
}

#[test]
fn receive_to_standby_only_disables() {
    let rx = standby_with(vec![reply(&[0x0e, 0x00])]).rx().unwrap();
    let before = rx.device().hardware().records().len();
    let standby = rx.standby();
    let hw = standby.device().hardware();
    assert_eq!(levels(hw, before), vec!["ce=false"]);
    assert_eq!(hw.ce(), Some(false));
}

#[test]
fn standby_to_transmit_disables_then_clears_primary_receiver() {
    // coming from receive mode the flag is set and has to be cleared
    let standby = standby_with(vec![reply(&[0x0e, 0x00]), reply(&[0x0e, 0x00])]).rx().unwrap().standby();
    let before = standby.device().hardware().records().len();
    let tx = standby.tx().unwrap();
    let hw = tx.device().hardware();
    assert_eq!(levels(hw, before), vec!["ce=false", "csn=false", "ok:20", "csn=true"]);
    assert_eq!(frames(hw, before), vec![vec![0x20, 0x7a]]);
    assert_eq!(hw.ce(), Some(false));
}

#[test]
fn standby_to_transmit_skips_the_write_when_the_flag_is_clear() {
    let standby = standby_with(vec![]);
    let before = standby.device().hardware().records().len();
    let tx = standby.tx().unwrap();
    assert_eq!(levels(tx.device().hardware(), before), vec!["ce=false"]);
    assert_eq!(tx.poll_limit(), u32::MAX);
}

#[test]
fn power_down_clears_the_power_flag_and_returns_the_device() {
    let standby = standby_with(vec![reply(&[0x0e, 0x00])]);
    let before = standby.device().hardware().records().len();
    let radio = standby.power_down().unwrap();
    assert_eq!(frames(radio.hardware(), before), vec![vec![0x20, 0x78]]);
    let hw = radio.release();
    assert_eq!(hw.transfers(), 5);
    assert_eq!(hw.ce(), Some(false));
}

#[test]
fn power_down_fails_when_the_flag_cannot_be_written() {
    let standby = standby_with(vec![Step::Fail]);
    assert!(matches!(standby.power_down(), Err(Error::SpiError(Fault::Scripted))));
}

fn receiving(then: Vec<Step>) -> RxMode<Radio> {
    let mut script = vec![reply(&[0x0e, 0x00])];
    script.extend(then);
    standby_with(script).rx().unwrap()
}

#[test]
fn can_read_returns_the_pipe_of_the_status_word() {
    let mut rx = receiving(vec![
        reply(&[0x44, 0x00]),
        reply(&[0x44, 0x01]),
        reply(&[0x4a, 0x02]),
        reply(&[0x40, 0x10]),
        Step::Fail,
    ]);
    let before = rx.device().hardware().records().len();
    assert!(matches!(rx.can_read(), Ok(Some(2))));
    assert!(matches!(rx.can_read(), Ok(None)));
    assert!(matches!(rx.can_read(), Ok(Some(5))));
    assert!(matches!(rx.can_read(), Ok(Some(0))));
    assert!(matches!(rx.can_read(), Err(Error::SpiError(Fault::Scripted))));
    let hw = rx.device().hardware();
    assert_eq!(frames(hw, before)[0], vec![0x17, 0x00]);
    assert_eq!(hw.ce(), Some(true));
    assert_eq!(hw.csn(), Some(true));
}

#[test]
fn receive_queue_status() {
    let mut rx = receiving(vec![
        reply(&[0x0e, 0x01]),
        reply(&[0x0e, 0x02]),
        reply(&[0x0e, 0x02]),
        reply(&[0x0e, 0x01]),
        Step::Fail,
        Step::Fail,
    ]);
    assert!(matches!(rx.is_empty(), Ok(true)));
    assert!(matches!(rx.is_empty(), Ok(false)));
    assert!(matches!(rx.is_full(), Ok(true)));
    assert!(matches!(rx.is_full(), Ok(false)));
    assert!(matches!(rx.is_empty(), Err(Error::SpiError(Fault::Scripted))));
    assert!(matches!(rx.is_full(), Err(Error::SpiError(Fault::Scripted))));
}

#[test]
fn read_returns_the_payload_of_the_reported_width() {
    let mut rx = receiving(vec![reply(&[0x40, 5]), reply(&[0x40, 0xde, 0xad, 0xbe, 0xef, 0x42])]);
    let before = rx.device().hardware().records().len();
    let payload = rx.read().unwrap();
    assert_eq!(payload.len(), 5);
    assert_eq!(payload.as_slice(), &[0xde, 0xad, 0xbe, 0xef, 0x42]);
    assert_eq!(
        frames(rx.device().hardware(), before),
        vec![vec![0x60, 0x00], vec![0x61, 0, 0, 0, 0, 0]]
    );
}

#[test]
fn read_of_an_empty_payload() {
    let mut rx = receiving(vec![reply(&[0x40, 0]), reply(&[0x40])]);
    let payload = rx.read().unwrap();
    assert_eq!(payload.len(), 0);
}

#[test]
fn read_takes_at_most_32_bytes() {
    let mut long = vec![0x40u8];
    long.extend(1..=32u8);
    let mut rx = receiving(vec![reply(&[0x40, 200]), Step::Reply(long.clone())]);
    let before = rx.device().hardware().records().len();
    let payload = rx.read().unwrap();
    assert_eq!(payload.len(), 32);
    assert_eq!(payload.as_slice(), &long[1..]);
    assert_eq!(frames(rx.device().hardware(), before)[1].len(), 33);
}

#[test]
fn read_stops_at_the_first_bus_failure() {
    let mut rx = receiving(vec![Step::Fail]);
    let before = rx.device().hardware().transfers();
    assert!(matches!(rx.read(), Err(Error::SpiError(Fault::Scripted))));
    assert_eq!(rx.device().hardware().transfers(), before + 1);

    let mut rx = receiving(vec![reply(&[0x40, 3]), Step::Fail]);
    assert!(matches!(rx.read(), Err(Error::SpiError(Fault::Scripted))));
}

fn transmitting(then: Vec<Step>) -> TxMode<Radio> {
    standby_with(then).tx().unwrap()
}

#[test]
fn transmit_queue_status() {
    let mut tx = transmitting(vec![
        reply(&[0x0e, 0x10]),
        reply(&[0x0e, 0x20]),
        reply(&[0x0e, 0x20]),
        reply(&[0x0e, 0x10]),
        Step::Fail,
        Step::Fail,
    ]);
    assert!(matches!(tx.is_empty(), Ok(true)));
    assert!(matches!(tx.is_empty(), Ok(false)));
    assert!(matches!(tx.is_full(), Ok(true)));
    assert!(matches!(tx.is_full(), Ok(false)));
    assert!(matches!(tx.is_empty(), Err(Error::SpiError(Fault::Scripted))));
    assert!(matches!(tx.is_full(), Err(Error::SpiError(Fault::Scripted))));
}

#[test]
fn enqueue_writes_one_payload_frame() {
    let mut tx = transmitting(vec![reply(&[0x0e, 0, 0, 0]), Step::Fail]);
    let before = tx.device().hardware().records().len();
    let status = tx.enqueue(&[1, 2, 3]).unwrap();
    assert_eq!(status, Status(0x0e));
    let hw = tx.device().hardware();
    assert_eq!(frames(hw, before), vec![vec![0xa0, 1, 2, 3]]);
    // nothing is transmitted yet
    assert_eq!(hw.ce(), Some(false));
    assert!(matches!(tx.enqueue(&[4]), Err(Error::SpiError(Fault::Scripted))));
}

#[test]
fn observe_reads_the_counters() {
    let mut tx = transmitting(vec![reply(&[0x0e, 0x35]), Step::Fail]);
    let before = tx.device().hardware().records().len();
    let counters = tx.observe().unwrap();
    assert_eq!(counters, ObserveTx(0x35));
    assert_eq!(counters.plos_cnt(), 3);
    assert_eq!(counters.arc_cnt(), 5);
    assert_eq!(frames(tx.device().hardware(), before), vec![vec![0x08, 0x00]]);
    assert!(matches!(tx.observe(), Err(Error::SpiError(Fault::Scripted))));
}

#[test]
fn flush_queue_succeeds_after_three_polls() {
    let mut tx = transmitting(vec![
        reply(&[0x0e, 0x00]),
        reply(&[0x0e, 0x00]),
        reply(&[0x2e, 0x10]),
    ]);
    let before = tx.device().hardware().records().len();
    let polls_before = tx.device().hardware().transfers();
    assert!(matches!(tx.flush_queue(), Ok(())));
    let hw = tx.device().hardware();
    assert_eq!(hw.transfers() - polls_before, 3);
    assert_eq!(hw.ce(), Some(false));
    assert_eq!(
        levels(hw, before),
        vec![
            "ce=true", "delay=10", "csn=false", "ok:17", "csn=true", "csn=false", "ok:17",
            "csn=true", "csn=false", "ok:17", "csn=true", "ce=false",
        ]
    );
}

#[test]
fn flush_queue_fails_when_max_retransmit_is_set() {
    let mut tx = transmitting(vec![
        reply(&[0x0e, 0x00]),
        reply(&[0x1e, 0x00]),
        reply(&[0x1e, 0x00]),
    ]);
    let before = tx.device().hardware().records().len();
    assert!(matches!(tx.flush_queue(), Err(TransmissionError::MaximumRetriesExceeded)));
    let hw = tx.device().hardware();
    assert_eq!(hw.ce(), Some(false));
    let sent = frames(hw, before);
    assert_eq!(sent, vec![vec![0x17, 0x00], vec![0x17, 0x00], vec![0x27, 0x30]]);
    assert_eq!(sent.iter().filter(|frame| frame[0] == 0x27).count(), 1);
    assert_eq!(
        levels(hw, before),
        vec![
            "ce=true", "delay=10", "csn=false", "ok:17", "csn=true", "csn=false", "ok:17",
            "csn=true", "ce=false", "csn=false", "ok:27", "csn=true", "ce=false",
        ]
    );
}

#[test]
fn flush_queue_gives_up_even_if_the_queue_is_reported_empty() {
    let mut tx = transmitting(vec![reply(&[0x1e, 0x10]), reply(&[0x1e, 0x00])]);
    assert!(matches!(tx.flush_queue(), Err(TransmissionError::MaximumRetriesExceeded)));
}

#[test]
fn flush_queue_hands_on_a_bus_failure_with_the_enable_pin_low() {
    let mut tx = transmitting(vec![reply(&[0x0e, 0x00]), Step::Fail]);
    let before = tx.device().hardware().records().len();
    let result = tx.flush_queue();
    assert!(matches!(
        result,
        Err(TransmissionError::DeviceError(Error::SpiError(Fault::Scripted)))
    ));
    let hw = tx.device().hardware();
    assert_eq!(hw.ce(), Some(false));
    assert_eq!(
        levels(hw, before),
        vec![
            "ce=true", "delay=10", "csn=false", "ok:17", "csn=true", "csn=false", "err:17",
            "csn=true", "ce=false",
        ]
    );
}

#[test]
fn flush_queue_hands_on_a_failure_to_clear_the_interrupts() {
    let mut tx = transmitting(vec![reply(&[0x1e, 0x00]), Step::Fail]);
    let before = tx.device().hardware().records().len();
    let result = tx.flush_queue();
    assert!(matches!(
        result,
        Err(TransmissionError::DeviceError(Error::SpiError(Fault::Scripted)))
    ));
    let hw = tx.device().hardware();
    assert_eq!(hw.ce(), Some(false));
    assert_eq!(
        levels(hw, before),
        vec![
            "ce=true", "delay=10", "csn=false", "ok:17", "csn=true", "ce=false", "csn=false",
            "err:27", "csn=true",
        ]
    );
}

#[test]
fn flush_queue_stops_at_the_poll_limit() {
    let mut tx = transmitting(vec![
        reply(&[0x0e, 0x00]),
        reply(&[0x0e, 0x00]),
        reply(&[0x0e, 0x10]),
    ]);
    tx.set_poll_limit(2);
    assert_eq!(tx.poll_limit(), 2);
    let polls_before = tx.device().hardware().transfers();
    assert!(matches!(tx.flush_queue(), Err(TransmissionError::PollLimitExceeded)));
    let hw = tx.device().hardware();
    assert_eq!(hw.transfers() - polls_before, 2);
    assert_eq!(hw.ce(), Some(false));
    // the next flush finds the queue empty at its first poll
    assert!(matches!(tx.flush_queue(), Ok(())));
}

#[test]
fn flush_queue_without_polls_only_pulses_the_enable_pin() {
    let mut tx = transmitting(vec![]);
    tx.set_poll_limit(0);
    let before = tx.device().hardware().records().len();
    assert!(matches!(tx.flush_queue(), Err(TransmissionError::PollLimitExceeded)));
    assert_eq!(levels(tx.device().hardware(), before), vec!["ce=true", "delay=10", "ce=false"]);
}

#[test]
fn transmit_to_standby_after_a_successful_flush() {
    let tx = transmitting(vec![reply(&[0x0e, 0x10])]);
    let before = tx.device().hardware().records().len();
    let standby = tx.standby().unwrap();
    assert_eq!(
        levels(standby.device().hardware(), before),
        vec!["ce=true", "delay=10", "csn=false", "ok:17", "csn=true", "ce=false", "ce=false"]
    );
}

#[test]
fn transmit_to_standby_discards_the_queue_after_a_failed_flush() {
    let tx = transmitting(vec![reply(&[0x1e, 0x00]), reply(&[0x1e, 0x00]), reply(&[0x0e])]);
    let before = tx.device().hardware().records().len();
    let standby = tx.standby().unwrap();
    let hw = standby.device().hardware();
    assert_eq!(frames(hw, before), vec![vec![0x17, 0x00], vec![0x27, 0x30], vec![0xe1]]);
    assert_eq!(hw.ce(), Some(false));
}

#[test]
fn transmit_to_standby_fails_when_the_queue_cannot_be_discarded() {
    let tx = transmitting(vec![reply(&[0x0e, 0x00]), Step::Fail, Step::Fail]);
    assert!(matches!(tx.standby(), Err(Error::SpiError(Fault::Scripted))));
}

#[test]
fn modes_can_be_walked_in_a_circle() {
    let standby = standby_with(vec![
        reply(&[0x0e, 0x00]),
        reply(&[0x0e, 0x00]),
        reply(&[0x0e, 0x10]),
        reply(&[0x0e, 0x00]),
        reply(&[0x0e, 0x00]),
    ]);
    let rx = standby.rx().unwrap();
    assert_eq!(rx.device().hardware().ce(), Some(true));
    let standby = rx.standby();
    assert_eq!(standby.device().hardware().ce(), Some(false));
    let tx = standby.tx().unwrap();
    assert_eq!(tx.device().hardware().ce(), Some(false));
    let standby = tx.standby().unwrap();
    let rx = standby.rx().unwrap();
    let radio = rx.standby().power_down().unwrap();
    let hw = radio.release();
    assert_eq!(
        frames(&hw, 15),
        vec![
            vec![0x20, 0x7b],
            vec![0x20, 0x7a],
            vec![0x17, 0x00],
            vec![0x20, 0x7b],
            vec![0x20, 0x79],
        ]
    );
    assert_eq!(hw.ce(), Some(false));
}

/// A board whose bus answers every frame with the frame itself.
struct Loopback {
    calls: Vec<&'static str>,
}

impl Hardware for Loopback {
    type Error = ();

    fn set_ce(&mut self, high: bool) {
        self.calls.push(if high { "ce high" } else { "ce low" });
    }

    fn set_csn(&mut self, high: bool) {
        self.calls.push(if high { "csn high" } else { "csn low" });
    }

    fn delay_us(&mut self, _micros: u32) {
        self.calls.push("delay");
    }

    fn transfer(&mut self, _words: &mut [u8]) -> Result<(), ()> {
        self.calls.push("transfer");
        Ok(())
    }
}

#[test]
fn driver_works_on_any_board() {
    let mut radio = NRF24L01::new(Loopback { calls: Vec::new() });
    // the frame that reads the address width comes back as it went out
    let (status, width) = radio.read_register::<SetupAw>().unwrap();
    assert_eq!(status, Status(0x03));
    assert_eq!(width, SetupAw(0x00));
    radio.ce_enable();
    radio.delay_us(10);
    radio.ce_disable();
    assert_eq!(
        radio.release().calls,
        vec!["csn low", "transfer", "csn high", "ce high", "delay", "ce low"]
    );
}

#[test]
fn traced_board_passes_every_call_on() {
    let mut lines = Traced::new(ScriptedHardware::new(vec![reply(&[9, 8]), Step::Fail]));
    lines.set_ce(true);
    lines.set_csn(false);
    lines.delay_us(10);
    let mut words = vec![1u8, 2];
    assert_eq!(lines.transfer(&mut words), Ok(()));
    assert_eq!(words, vec![9, 8]);
    assert_eq!(lines.transfer(&mut words), Err(Fault::Scripted));
    lines.set_csn(true);
    lines.set_ce(false);
    assert_eq!(
        levels(lines.board(), 0),
        vec!["ce=true", "csn=false", "delay=10", "ok:01", "err:09", "csn=true", "ce=false"]
    );
    let board = lines.release();
    assert_eq!(board.transfers(), 2);
}

#[test]
fn scripted_lines_record_what_is_done() {
    let mut hw = ScriptedHardware::new(vec![reply(&[9, 8]), reply(&[1]), Step::Fail]);
    hw.set_ce(true);
    hw.set_csn(false);
    hw.delay_us(10);
    let mut words = [1u8, 2];
    assert_eq!(hw.transfer(&mut words), Ok(()));
    assert_eq!(words, [9, 8]);
    // an answer of another length than the frame is no answer
    let mut words = [1u8, 2];
    assert_eq!(hw.transfer(&mut words), Err(Fault::Unscripted));
    assert_eq!(words, [1, 2]);
    assert_eq!(hw.transfer(&mut words), Err(Fault::Scripted));
    assert_eq!(hw.transfer(&mut words), Err(Fault::Unscripted));
    assert_eq!(hw.ce(), Some(true));
    assert_eq!(hw.csn(), Some(false));
    assert_eq!(hw.transfers(), 4);
    assert_eq!(hw.records().len(), 7);
    hw.set_ce(false);
    hw.set_csn(true);
    assert_eq!(hw.ce(), Some(false));
    assert_eq!(hw.csn(), Some(true));
}

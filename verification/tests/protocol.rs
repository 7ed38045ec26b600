use embedded_nrf24l01::bits::{get_field, get_flag, set_flag};
use embedded_nrf24l01::command::{
    Command, FlushRx, FlushTx, ReadRegister, ReadRxPayload, ReadRxPayloadWidth, WriteRegister,
    WriteTxPayload,
};
use embedded_nrf24l01::registers::{
    Config, FifoStatus, ObserveTx, Register, SetupAw, Status, PRIM_RX, PWR_UP,
};
use embedded_nrf24l01::tx::{get_given_up_flags, judge, Verdict};
use embedded_nrf24l01::{get_initial_config, get_initial_interrupts, Error, Payload, TransmissionError};

fn round_trip<R: Register + PartialEq + core::fmt::Debug + Copy>(value: R) {
    let mut frame = Vec::new();
    value.encode(&mut frame);
    assert_eq!(frame.len(), R::len());
    assert_eq!(R::decode(&frame), value);
}

#[test]
fn registers_round_trip_through_their_bytes() {
    for byte in 0..=255u8 {
        round_trip(Config(byte));
        round_trip(Status(byte));
        round_trip(FifoStatus(byte));
        round_trip(SetupAw(byte));
        round_trip(ObserveTx(byte));
    }
}

#[test]
fn register_bytes_are_appended_to_the_frame() {
    let mut frame = vec![0x20u8];
    Config(0x7a).encode(&mut frame);
    assert_eq!(frame, vec![0x20, 0x7a]);
}

#[test]
fn register_addresses() {
    assert_eq!(Config::addr(), 0x00);
    assert_eq!(SetupAw::addr(), 0x03);
    assert_eq!(Status::addr(), 0x07);
    assert_eq!(ObserveTx::addr(), 0x08);
    assert_eq!(FifoStatus::addr(), 0x17);
}

#[test]
fn flags_are_set_and_cleared_one_at_a_time() {
    assert_eq!(set_flag(0b0000_1000, 0x02, true), 0b0000_1010);
    assert_eq!(set_flag(0b0000_1010, 0x02, false), 0b0000_1000);
    assert_eq!(set_flag(0b0000_1010, 0x02, true), 0b0000_1010);
    assert!(get_flag(0b0000_1010, 0x02));
    assert!(!get_flag(0b0000_1010, 0x04));
    assert_eq!(get_field(0b0000_1010, 1, 0x07), 5);
}

#[test]
fn config_flags() {
    let mut config = Config(0);
    config.set_prim_rx(true);
    assert_eq!(config, Config(PRIM_RX));
    assert!(config.prim_rx());
    assert!(!config.pwr_up());
    config.set_pwr_up(true);
    assert_eq!(config, Config(PRIM_RX | PWR_UP));
    config.set_prim_rx(false);
    assert_eq!(config, Config(0x02));
    config.set_en_crc(true);
    config.set_crco(true);
    assert_eq!(config, Config(0x0e));
    assert!(config.en_crc() && config.crco());
    config.set_mask_rx_dr(true);
    config.set_mask_tx_ds(true);
    config.set_mask_max_rt(true);
    assert_eq!(config, Config(0x7e));
    assert!(config.mask_rx_dr() && config.mask_tx_ds() && config.mask_max_rt());
    config.set_mask_tx_ds(false);
    assert_eq!(config, Config(0x5e));
}

#[test]
fn initial_config_is_reset_word_with_interrupts_masked() {
    let config = get_initial_config();
    assert_eq!(config, Config(0x78));
    assert!(config.mask_rx_dr());
    assert!(config.mask_tx_ds());
    assert!(config.mask_max_rt());
    assert!(config.en_crc());
    assert!(!config.crco());
    assert!(!config.pwr_up());
    assert!(!config.prim_rx());
}

#[test]
fn initial_interrupts_assert_all_three_flags() {
    let clear = get_initial_interrupts();
    assert_eq!(clear, Status(0x70));
    assert!(clear.rx_dr() && clear.tx_ds() && clear.max_rt());
    assert_eq!(clear.rx_p_no(), 0);
    assert!(!clear.tx_full());
}

#[test]
fn given_up_flags_assert_data_sent_and_max_retransmit() {
    let clear = get_given_up_flags();
    assert_eq!(clear, Status(0x30));
    assert!(!clear.rx_dr());
    assert!(clear.tx_ds() && clear.max_rt());
}

#[test]
fn status_fields() {
    let status = Status(0b0100_0101);
    assert!(status.rx_dr());
    assert!(!status.tx_ds());
    assert!(!status.max_rt());
    assert_eq!(status.rx_p_no(), 2);
    assert!(status.tx_full());
    assert_eq!(Status(0x0e).rx_p_no(), 7);
    let mut status = Status(0x0e);
    status.set_max_rt(true);
    assert_eq!(status, Status(0x1e));
    assert_eq!(status.rx_p_no(), 7);
    status.set_rx_dr(true);
    status.set_tx_ds(true);
    assert_eq!(status, Status(0x7e));
    status.set_max_rt(false);
    assert_eq!(status, Status(0x6e));
}

#[test]
fn fifo_status_fields() {
    let fifo = FifoStatus(0b0101_0001);
    assert!(fifo.tx_reuse());
    assert!(!fifo.tx_full());
    assert!(fifo.tx_empty());
    assert!(!fifo.rx_full());
    assert!(fifo.rx_empty());
    let fifo = FifoStatus(0b0010_0010);
    assert!(fifo.tx_full());
    assert!(fifo.rx_full());
    assert!(!fifo.tx_empty());
    assert!(!fifo.rx_empty());
}

#[test]
fn setup_aw_and_observe_tx_fields() {
    assert_eq!(SetupAw(0b1111_1110).aw(), 2);
    assert_eq!(SetupAw(0x03).aw(), 3);
    let counters = ObserveTx(0xa5);
    assert_eq!(counters.plos_cnt(), 10);
    assert_eq!(counters.arc_cnt(), 5);
}

#[test]
fn read_register_frame_is_address_and_padding() {
    let command: ReadRegister<FifoStatus> = ReadRegister::new();
    assert_eq!(command.encode(), vec![0x17, 0x00]);
    assert_eq!(command.decode_response(&[0x0e, 0x11]), FifoStatus(0x11));
    let command: ReadRegister<Config> = ReadRegister::new();
    assert_eq!(command.encode(), vec![0x00, 0x00]);
}

#[test]
fn write_register_frame_is_write_bit_address_and_value() {
    assert_eq!(WriteRegister::new(Config(0x78)).encode(), vec![0x20, 0x78]);
    assert_eq!(WriteRegister::new(Status(0x70)).encode(), vec![0x27, 0x70]);
    assert_eq!(WriteRegister::new(SetupAw(0x03)).encode(), vec![0x23, 0x03]);
    WriteRegister::new(Status(0x70)).decode_response(&[0x0e, 0x00]);
}

#[test]
fn payload_width_frame() {
    assert_eq!(ReadRxPayloadWidth.encode(), vec![0x60, 0x00]);
    assert_eq!(ReadRxPayloadWidth.decode_response(&[0x40, 0x05]), 5);
}

#[test]
fn read_payload_frame_is_as_long_as_the_width_asked_for() {
    let command = ReadRxPayload::new(5);
    assert_eq!(command.encode(), vec![0x61, 0, 0, 0, 0, 0]);
    let payload = command.decode_response(&[0x40, 9, 8, 7, 6, 5]);
    assert_eq!(payload.as_slice(), &[9, 8, 7, 6, 5]);
    assert_eq!(ReadRxPayload::new(0).encode(), vec![0x61]);
    assert_eq!(ReadRxPayload::new(32).encode().len(), 33);
}

#[test]
fn write_payload_frame_carries_the_payload() {
    assert_eq!(WriteTxPayload::new(&[1, 2, 3]).encode(), vec![0xa0, 1, 2, 3]);
    assert_eq!(WriteTxPayload::new(&[]).encode(), vec![0xa0]);
    let full = [0x55u8; 32];
    let frame = WriteTxPayload::new(&full).encode();
    assert_eq!(frame.len(), 33);
    assert_eq!(frame[0], 0xa0);
    assert_eq!(&frame[1..], &full[..]);
}

#[test]
fn flush_frames_are_single_bytes() {
    assert_eq!(FlushTx.encode(), vec![0xe1]);
    assert_eq!(FlushRx.encode(), vec![0xe2]);
}

#[test]
fn payload_holds_a_copy_of_its_source() {
    let payload = Payload::new(&[1, 2, 3, 4, 5]);
    assert_eq!(payload.len(), 5);
    assert_eq!(payload.as_slice(), &[1, 2, 3, 4, 5]);
    let empty = Payload::new(&[]);
    assert_eq!(empty.len(), 0);
    let full = Payload::new(&[7u8; 32]);
    assert_eq!(full.len(), 32);
}

#[test]
fn verdict_prefers_giving_up_over_empty_queue() {
    assert_eq!(judge(Status(0x0e), FifoStatus(0x00)), Verdict::Pending);
    assert_eq!(judge(Status(0x0e), FifoStatus(0x10)), Verdict::Sent);
    assert_eq!(judge(Status(0x1e), FifoStatus(0x00)), Verdict::GaveUp);
    assert_eq!(judge(Status(0x1e), FifoStatus(0x10)), Verdict::GaveUp);
    assert_eq!(judge(Status(0x2e), FifoStatus(0x20)), Verdict::Pending);
}

#[test]
fn errors_wrap_and_show_their_cause() {
    let error: Error<u8> = Error::from(7);
    assert!(matches!(error, Error::SpiError(7)));
    assert_eq!(error.cause(), Some(&7));
    let error: Error<u8> = Error::NotConnected;
    assert_eq!(error.cause(), None);
    let error: TransmissionError<u8> = TransmissionError::from(9);
    assert!(matches!(error, TransmissionError::DeviceError(9)));
    assert_eq!(error.cause(), Some(&9));
    let error: TransmissionError<u8> = TransmissionError::MaximumRetriesExceeded;
    assert_eq!(error.cause(), None);
    let error: TransmissionError<u8> = TransmissionError::PollLimitExceeded;
    assert_eq!(error.cause(), None);
}

#[test]
fn errors_of_the_driver_have_a_text_of_their_own() {
    assert_eq!(Error::SpiError(7u8).message(), None);
    assert_eq!(Error::<u8>::NotConnected.message(), Some("No chip answers on the bus"));
    assert_eq!(TransmissionError::DeviceError(7u8).message(), None);
    assert_eq!(
        TransmissionError::<u8>::MaximumRetriesExceeded.message(),
        Some("Maximum retries exceeded")
    );
    assert_eq!(
        TransmissionError::<u8>::PollLimitExceeded.message(),
        Some("Poll limit exceeded")
    );
}

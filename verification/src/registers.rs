//! The chip's registers that the driver reads and writes, each a byte with
//! named flags and fields.

use crate::bits::{
    assign, field, get_field, get_flag, is_set, lemma_assign_flag, lemma_assign_keeps_field,
    set_flag,
};
use vstd::prelude::*;

verus! {

/// A register of the chip: an address and a fixed number of bytes on the wire.
pub trait Register: Sized {
    /// The register's address, which fits the five address bits of a command.
    spec fn spec_addr() -> u8;

    /// How many bytes the register holds.
    spec fn width() -> nat;

    /// The bytes that stand for this value on the wire.
    spec fn bytes(&self) -> Seq<u8>;

    /// The value that bytes on the wire stand for.
    spec fn from_bytes(bytes: Seq<u8>) -> Self;

    /// Decoding the bytes of a value gives the value back; a register holds
    /// between 1 and 32 bytes at an address below `0x20`.
    proof fn lemma_round_trip(&self)
        ensures
            Self::from_bytes(self.bytes()) == *self,
            self.bytes().len() == Self::width(),
            1 <= Self::width() <= 32,
            Self::spec_addr() < 0x20,
    ;

    /// The register's address.
    fn addr() -> (a: u8)
        ensures
            a == Self::spec_addr(),
    ;

    /// How many bytes the register holds.
    fn len() -> (n: usize)
        ensures
            n == Self::width(),
    ;

    /// Appends the value's bytes to a frame.
    fn encode(&self, frame: &mut Vec<u8>)
        ensures
            final(frame)@ == old(frame)@ + self.bytes(),
    ;

    /// Reads a value from its bytes.
    fn decode(bytes: &[u8]) -> (value: Self)
        requires
            bytes@.len() == Self::width(),
        ensures
            value == Self::from_bytes(bytes@),
    ;
}

/// Encoding then decoding any register value yields an equal value.
pub proof fn lemma_register_round_trip<R: Register>(value: R)
    ensures
        R::from_bytes(value.bytes()) == value,
{
    value.lemma_round_trip();
}

/// Configuration flag that masks the received-data interrupt.
pub const MASK_RX_DR: u8 = 0x40;

/// Configuration flag that masks the data-sent interrupt.
pub const MASK_TX_DS: u8 = 0x20;

/// Configuration flag that masks the maximum-retransmissions interrupt.
pub const MASK_MAX_RT: u8 = 0x10;

/// Configuration flag that enables checksums.
pub const EN_CRC: u8 = 0x08;

/// Configuration flag that makes checksums two bytes wide.
pub const CRCO: u8 = 0x04;

/// Configuration flag that powers the chip up.
pub const PWR_UP: u8 = 0x02;

/// Configuration flag that makes the chip the primary receiver.
pub const PRIM_RX: u8 = 0x01;

/// The configuration register (address `0x00`).
#[derive(Clone, Copy, Debug, PartialEq, Eq, Structural)]
pub struct Config(pub u8);

impl Config {
    /// This value with the flag `mask` set to `on`.
    pub open spec fn with(self, mask: u8, on: bool) -> Config {
        Config(assign(self.0, mask, on))
    }

    /// The flag `mask` is set.
    pub open spec fn has(self, mask: u8) -> bool {
        is_set(self.0, mask)
    }

    /// Setting one flag changes that flag and no other.
    pub proof fn lemma_with(self, mask: u8, on: bool, other: u8)
        requires
            crate::bits::single_bit(mask),
            crate::bits::single_bit(other),
        ensures
            self.with(mask, on).has(other) == (if other == mask {
                on
            } else {
                self.has(other)
            }),
    {
        lemma_assign_flag(self.0, mask, on, other);
    }

    /// The received-data interrupt is masked.
    pub fn mask_rx_dr(&self) -> (on: bool)
        ensures
            on == self.has(MASK_RX_DR),
    {
        get_flag(self.0, MASK_RX_DR)
    }

    /// Masks or unmasks the received-data interrupt.
    pub fn set_mask_rx_dr(&mut self, on: bool)
        ensures
            *final(self) == old(self).with(MASK_RX_DR, on),
    {
        self.0 = set_flag(self.0, MASK_RX_DR, on);
    }

    /// The data-sent interrupt is masked.
    pub fn mask_tx_ds(&self) -> (on: bool)
        ensures
            on == self.has(MASK_TX_DS),
    {
        get_flag(self.0, MASK_TX_DS)
    }

    /// Masks or unmasks the data-sent interrupt.
    pub fn set_mask_tx_ds(&mut self, on: bool)
        ensures
            *final(self) == old(self).with(MASK_TX_DS, on),
    {
        self.0 = set_flag(self.0, MASK_TX_DS, on);
    }

    /// The maximum-retransmissions interrupt is masked.
    pub fn mask_max_rt(&self) -> (on: bool)
        ensures
            on == self.has(MASK_MAX_RT),
    {
        get_flag(self.0, MASK_MAX_RT)
    }

    /// Masks or unmasks the maximum-retransmissions interrupt.
    pub fn set_mask_max_rt(&mut self, on: bool)
        ensures
            *final(self) == old(self).with(MASK_MAX_RT, on),
    {
        self.0 = set_flag(self.0, MASK_MAX_RT, on);
    }

    /// Checksums are enabled.
    pub fn en_crc(&self) -> (on: bool)
        ensures
            on == self.has(EN_CRC),
    {
        get_flag(self.0, EN_CRC)
    }

    /// Enables or disables checksums.
    pub fn set_en_crc(&mut self, on: bool)
        ensures
            *final(self) == old(self).with(EN_CRC, on),
    {
        self.0 = set_flag(self.0, EN_CRC, on);
    }

    /// Checksums are two bytes wide rather than one.
    pub fn crco(&self) -> (on: bool)
        ensures
            on == self.has(CRCO),
    {
        get_flag(self.0, CRCO)
    }

    /// Makes checksums two bytes wide or one.
    pub fn set_crco(&mut self, on: bool)
        ensures
            *final(self) == old(self).with(CRCO, on),
    {
        self.0 = set_flag(self.0, CRCO, on);
    }

    /// The chip is powered up.
    pub fn pwr_up(&self) -> (on: bool)
        ensures
            on == self.has(PWR_UP),
    {
        get_flag(self.0, PWR_UP)
    }

    /// Powers the chip up or down.
    pub fn set_pwr_up(&mut self, on: bool)
        ensures
            *final(self) == old(self).with(PWR_UP, on),
    {
        self.0 = set_flag(self.0, PWR_UP, on);
    }

    /// The chip is the primary receiver rather than the primary transmitter.
    pub fn prim_rx(&self) -> (on: bool)
        ensures
            on == self.has(PRIM_RX),
    {
        get_flag(self.0, PRIM_RX)
    }

    /// Makes the chip the primary receiver or the primary transmitter.
    pub fn set_prim_rx(&mut self, on: bool)
        ensures
            *final(self) == old(self).with(PRIM_RX, on),
    {
        self.0 = set_flag(self.0, PRIM_RX, on);
    }
}

impl Register for Config {
    open spec fn spec_addr() -> u8 {
        0x00
    }

    open spec fn width() -> nat {
        1
    }

    open spec fn bytes(&self) -> Seq<u8> {
        seq![self.0]
    }

    open spec fn from_bytes(bytes: Seq<u8>) -> Self {
        Config(bytes[0])
    }

    proof fn lemma_round_trip(&self) {
    }

    fn addr() -> (a: u8) {
        0x00
    }

    fn len() -> (n: usize) {
        1
    }

    fn encode(&self, frame: &mut Vec<u8>) {
        frame.push(self.0);
        assert(frame@ =~= old(frame)@ + self.bytes());
    }

    fn decode(bytes: &[u8]) -> (value: Self) {
        Config(bytes[0])
    }
}

/// Status flag: a payload has arrived.
pub const RX_DR: u8 = 0x40;

/// Status flag: a payload was sent.
pub const TX_DS: u8 = 0x20;

/// Status flag: the chip gave up retransmitting a payload.
pub const MAX_RT: u8 = 0x10;

/// Status flag: the transmit queue is full.
pub const STATUS_TX_FULL: u8 = 0x01;

/// The status register (address `0x07`), which the chip also clocks out as
/// the first byte of every reply.
#[derive(Clone, Copy, Debug, PartialEq, Eq, Structural)]
pub struct Status(pub u8);

impl Status {
    /// This value with the flag `mask` set to `on`.
    pub open spec fn with(self, mask: u8, on: bool) -> Status {
        Status(assign(self.0, mask, on))
    }

    /// The flag `mask` is set.
    pub open spec fn has(self, mask: u8) -> bool {
        is_set(self.0, mask)
    }

    /// The number of the pipe whose payload is at the front of the receive
    /// queue, in bits 3 to 1.
    pub open spec fn pipe(self) -> u8 {
        field(self.0, 1, 0x07)
    }

    /// Setting one flag changes that flag and no other, and leaves the pipe
    /// number alone unless the flag lies in it.
    pub proof fn lemma_with(self, mask: u8, on: bool, other: u8)
        requires
            crate::bits::single_bit(mask),
            crate::bits::single_bit(other),
        ensures
            self.with(mask, on).has(other) == (if other == mask {
                on
            } else {
                self.has(other)
            }),
            mask == RX_DR || mask == TX_DS || mask == MAX_RT || mask == STATUS_TX_FULL
                ==> self.with(mask, on).pipe() == self.pipe(),
    {
        lemma_assign_flag(self.0, mask, on, other);
        if mask == RX_DR || mask == TX_DS || mask == MAX_RT || mask == STATUS_TX_FULL {
            assert((0x07u8 << 1u8) & 0x40u8 == 0 && (0x07u8 << 1u8) & 0x20u8 == 0 && (0x07u8
                << 1u8) & 0x10u8 == 0 && (0x07u8 << 1u8) & 0x01u8 == 0) by (bit_vector);
            lemma_assign_keeps_field(self.0, mask, on, 1, 0x07);
        }
    }

    /// A payload has arrived.
    pub fn rx_dr(&self) -> (on: bool)
        ensures
            on == self.has(RX_DR),
    {
        get_flag(self.0, RX_DR)
    }

    /// Sets or clears the flag of an arrived payload.
    pub fn set_rx_dr(&mut self, on: bool)
        ensures
            *final(self) == old(self).with(RX_DR, on),
    {
        self.0 = set_flag(self.0, RX_DR, on);
    }

    /// A payload was sent.
    pub fn tx_ds(&self) -> (on: bool)
        ensures
            on == self.has(TX_DS),
    {
        get_flag(self.0, TX_DS)
    }

    /// Sets or clears the flag of a sent payload.
    pub fn set_tx_ds(&mut self, on: bool)
        ensures
            *final(self) == old(self).with(TX_DS, on),
    {
        self.0 = set_flag(self.0, TX_DS, on);
    }

    /// The chip gave up retransmitting a payload.
    pub fn max_rt(&self) -> (on: bool)
        ensures
            on == self.has(MAX_RT),
    {
        get_flag(self.0, MAX_RT)
    }

    /// Sets or clears the flag of a payload given up.
    pub fn set_max_rt(&mut self, on: bool)
        ensures
            *final(self) == old(self).with(MAX_RT, on),
    {
        self.0 = set_flag(self.0, MAX_RT, on);
    }

    /// The number of the pipe whose payload is at the front of the receive
    /// queue.
    pub fn rx_p_no(&self) -> (pipe: u8)
        ensures
            pipe == self.pipe(),
            pipe <= 7,
    {
        get_field(self.0, 1, 0x07)
    }

    /// The transmit queue is full.
    pub fn tx_full(&self) -> (on: bool)
        ensures
            on == self.has(STATUS_TX_FULL),
    {
        get_flag(self.0, STATUS_TX_FULL)
    }
}

impl Register for Status {
    open spec fn spec_addr() -> u8 {
        0x07
    }

    open spec fn width() -> nat {
        1
    }

    open spec fn bytes(&self) -> Seq<u8> {
        seq![self.0]
    }

    open spec fn from_bytes(bytes: Seq<u8>) -> Self {
        Status(bytes[0])
    }

    proof fn lemma_round_trip(&self) {
    }

    fn addr() -> (a: u8) {
        0x07
    }

    fn len() -> (n: usize) {
        1
    }

    fn encode(&self, frame: &mut Vec<u8>) {
        frame.push(self.0);
        assert(frame@ =~= old(frame)@ + self.bytes());
    }

    fn decode(bytes: &[u8]) -> (value: Self) {
        Status(bytes[0])
    }
}

/// The address-width register (address `0x03`).
#[derive(Clone, Copy, Debug, PartialEq, Eq, Structural)]
pub struct SetupAw(pub u8);

impl SetupAw {
    /// The address-width field, in bits 1 and 0.
    pub open spec fn width_field(self) -> u8 {
        field(self.0, 0, 0x03)
    }

    /// The address-width field.
    pub fn aw(&self) -> (value: u8)
        ensures
            value == self.width_field(),
            value <= 3,
    {
        get_field(self.0, 0, 0x03)
    }
}

impl Register for SetupAw {
    open spec fn spec_addr() -> u8 {
        0x03
    }

    open spec fn width() -> nat {
        1
    }

    open spec fn bytes(&self) -> Seq<u8> {
        seq![self.0]
    }

    open spec fn from_bytes(bytes: Seq<u8>) -> Self {
        SetupAw(bytes[0])
    }

    proof fn lemma_round_trip(&self) {
    }

    fn addr() -> (a: u8) {
        0x03
    }

    fn len() -> (n: usize) {
        1
    }

    fn encode(&self, frame: &mut Vec<u8>) {
        frame.push(self.0);
        assert(frame@ =~= old(frame)@ + self.bytes());
    }

    fn decode(bytes: &[u8]) -> (value: Self) {
        SetupAw(bytes[0])
    }
}

/// The transmit-observation register (address `0x08`).
#[derive(Clone, Copy, Debug, PartialEq, Eq, Structural)]
pub struct ObserveTx(pub u8);

impl ObserveTx {
    /// The count of lost packets, in bits 7 to 4.
    pub open spec fn lost(self) -> u8 {
        field(self.0, 4, 0x0f)
    }

    /// The count of retransmissions of the current packet, in bits 3 to 0.
    pub open spec fn retransmitted(self) -> u8 {
        field(self.0, 0, 0x0f)
    }

    /// The count of lost packets.
    pub fn plos_cnt(&self) -> (count: u8)
        ensures
            count == self.lost(),
            count <= 15,
    {
        get_field(self.0, 4, 0x0f)
    }

    /// The count of retransmissions of the current packet.
    pub fn arc_cnt(&self) -> (count: u8)
        ensures
            count == self.retransmitted(),
            count <= 15,
    {
        get_field(self.0, 0, 0x0f)
    }
}

impl Register for ObserveTx {
    open spec fn spec_addr() -> u8 {
        0x08
    }

    open spec fn width() -> nat {
        1
    }

    open spec fn bytes(&self) -> Seq<u8> {
        seq![self.0]
    }

    open spec fn from_bytes(bytes: Seq<u8>) -> Self {
        ObserveTx(bytes[0])
    }

    proof fn lemma_round_trip(&self) {
    }

    fn addr() -> (a: u8) {
        0x08
    }

    fn len() -> (n: usize) {
        1
    }

    fn encode(&self, frame: &mut Vec<u8>) {
        frame.push(self.0);
        assert(frame@ =~= old(frame)@ + self.bytes());
    }

    fn decode(bytes: &[u8]) -> (value: Self) {
        ObserveTx(bytes[0])
    }
}

/// Queue-status flag: the last payload sent is being reused.
pub const TX_REUSE: u8 = 0x40;

/// Queue-status flag: the transmit queue is full.
pub const TX_FULL: u8 = 0x20;

/// Queue-status flag: the transmit queue is empty.
pub const TX_EMPTY: u8 = 0x10;

/// Queue-status flag: the receive queue is full.
pub const RX_FULL: u8 = 0x02;

/// Queue-status flag: the receive queue is empty.
pub const RX_EMPTY: u8 = 0x01;

/// The queue-status register (address `0x17`).
#[derive(Clone, Copy, Debug, PartialEq, Eq, Structural)]
pub struct FifoStatus(pub u8);

impl FifoStatus {
    /// The flag `mask` is set.
    pub open spec fn has(self, mask: u8) -> bool {
        is_set(self.0, mask)
    }

    /// The last payload sent is being reused.
    pub fn tx_reuse(&self) -> (on: bool)
        ensures
            on == self.has(TX_REUSE),
    {
        get_flag(self.0, TX_REUSE)
    }

    /// The transmit queue is full.
    pub fn tx_full(&self) -> (on: bool)
        ensures
            on == self.has(TX_FULL),
    {
        get_flag(self.0, TX_FULL)
    }

    /// The transmit queue is empty.
    pub fn tx_empty(&self) -> (on: bool)
        ensures
            on == self.has(TX_EMPTY),
    {
        get_flag(self.0, TX_EMPTY)
    }

    /// The receive queue is full.
    pub fn rx_full(&self) -> (on: bool)
        ensures
            on == self.has(RX_FULL),
    {
        get_flag(self.0, RX_FULL)
    }

    /// The receive queue is empty.
    pub fn rx_empty(&self) -> (on: bool)
        ensures
            on == self.has(RX_EMPTY),
    {
        get_flag(self.0, RX_EMPTY)
    }
}

impl Register for FifoStatus {
    open spec fn spec_addr() -> u8 {
        0x17
    }

    open spec fn width() -> nat {
        1
    }

    open spec fn bytes(&self) -> Seq<u8> {
        seq![self.0]
    }

    open spec fn from_bytes(bytes: Seq<u8>) -> Self {
        FifoStatus(bytes[0])
    }

    proof fn lemma_round_trip(&self) {
    }

    fn addr() -> (a: u8) {
        0x17
    }

    fn len() -> (n: usize) {
        1
    }

    fn encode(&self, frame: &mut Vec<u8>) {
        frame.push(self.0);
        assert(frame@ =~= old(frame)@ + self.bytes());
    }

    fn decode(bytes: &[u8]) -> (value: Self) {
        FifoStatus(bytes[0])
    }
}

} // verus!

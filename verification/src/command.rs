//! The command frames of the chip's protocol: how each request is laid out
//! on the wire and what its reply means.
//!
//! A frame is one command byte followed by up to 32 data bytes. The chip
//! answers every frame with as many bytes, the first of which is always its
//! status register.

use crate::hardware::MAX_FRAME;
use crate::payload::{Payload, MAX_PAYLOAD};
use crate::registers::Register;
use core::marker::PhantomData;
use vstd::prelude::*;
use vstd::slice::slice_subrange;

verus! {

/// Command byte that reads a register; the register's address is or-ed in.
pub const R_REGISTER: u8 = 0x00;

/// Command byte that writes a register; the register's address is or-ed in.
pub const W_REGISTER: u8 = 0x20;

/// Command byte that reads the width of the payload at the front of the
/// receive queue.
pub const R_RX_PL_WID: u8 = 0x60;

/// Command byte that reads the payload at the front of the receive queue.
pub const R_RX_PAYLOAD: u8 = 0x61;

/// Command byte that appends a payload to the transmit queue.
pub const W_TX_PAYLOAD: u8 = 0xA0;

/// Command byte that empties the transmit queue.
pub const FLUSH_TX: u8 = 0xE1;

/// Command byte that empties the receive queue.
pub const FLUSH_RX: u8 = 0xE2;

/// `n` zero bytes: what is clocked out while the chip's answer is clocked in.
pub open spec fn zeros(n: nat) -> Seq<u8> {
    Seq::new(n, |i: int| 0u8)
}

/// The frame that reads the register `R`: its address, then one zero byte
/// for each byte of the register.
pub open spec fn read_frame<R: Register>() -> Seq<u8> {
    seq![R_REGISTER | R::spec_addr()] + zeros(R::width())
}

/// The frame that writes `value` to its register: the write bit or-ed with
/// the address, then the value's bytes.
pub open spec fn write_frame<R: Register>(value: R) -> Seq<u8> {
    seq![W_REGISTER | R::spec_addr()] + value.bytes()
}

/// A frame that reads a register starts with the register's address, which
/// is no write command.
pub proof fn lemma_read_frame_opcode<R: Register>()
    ensures
        read_frame::<R>().len() == 1 + R::width(),
        read_frame::<R>()[0] == R::spec_addr(),
        read_frame::<R>()[0] < W_REGISTER,
{
    let witness = R::from_bytes(Seq::empty());
    witness.lemma_round_trip();
    let addr = R::spec_addr();
    assert(0x00u8 | addr == addr) by (bit_vector);
}

/// A frame that writes a register starts with a byte that tells the
/// register: it is the bare write command only for address 0.
pub proof fn lemma_write_frame_opcode<R: Register>(value: R)
    ensures
        write_frame(value).len() == 1 + R::width(),
        write_frame(value)[0] == W_REGISTER + R::spec_addr(),
{
    value.lemma_round_trip();
    let addr = R::spec_addr();
    assert(addr < 0x20 ==> 0x20u8 | addr == 0x20u8 + addr) by (bit_vector);
}

/// A request to the chip.
pub trait Command {
    /// What the chip's reply is decoded to.
    type Response;

    /// The request fits a frame.
    spec fn valid(&self) -> bool;

    /// The bytes clocked out.
    spec fn frame(&self) -> Seq<u8>;

    /// `response` is what the bytes clocked in, `reply`, stand for. The
    /// reply's first byte is the status register and is not part of it.
    spec fn decodes(&self, reply: Seq<u8>, response: Self::Response) -> bool;

    /// A valid request's frame is a command byte and at most 32 more bytes.
    proof fn lemma_frame_fits(&self)
        requires
            self.valid(),
        ensures
            1 <= self.frame().len() <= MAX_FRAME,
    ;

    /// Lays the request out on the wire.
    fn encode(&self) -> (frame: Vec<u8>)
        requires
            self.valid(),
        ensures
            frame@ == self.frame(),
    ;

    /// Reads the response out of a reply as long as the frame.
    fn decode_response(&self, reply: &[u8]) -> (response: Self::Response)
        requires
            self.valid(),
            reply@.len() == self.frame().len(),
        ensures
            self.decodes(reply@, response),
    ;
}

/// A frame of a command byte and `padding` zero bytes.
fn padded(opcode: u8, padding: usize) -> (frame: Vec<u8>)
    requires
        padding <= MAX_PAYLOAD,
    ensures
        frame@ == seq![opcode] + zeros(padding as nat),
{
    let mut frame: Vec<u8> = Vec::new();
    frame.push(opcode);
    let mut done: usize = 0;
    while done < padding
        invariant
            done <= padding,
            frame@ == seq![opcode] + zeros(done as nat),
        decreases padding - done,
    {
        frame.push(0);
        done = done + 1;
        assert(frame@ =~= seq![opcode] + zeros(done as nat));
    }
    frame
}

/// Reads the register `R`.
pub struct ReadRegister<R: Register> {
    register: PhantomData<R>,
}

impl<R: Register> ReadRegister<R> {
    pub fn new() -> (command: Self)
        ensures
            command.valid(),
    {
        ReadRegister { register: PhantomData }
    }
}

impl<R: Register> Command for ReadRegister<R> {
    type Response = R;

    open spec fn valid(&self) -> bool {
        true
    }

    open spec fn frame(&self) -> Seq<u8> {
        read_frame::<R>()
    }

    open spec fn decodes(&self, reply: Seq<u8>, response: R) -> bool {
        response == R::from_bytes(reply.skip(1))
    }

    proof fn lemma_frame_fits(&self) {
        let witness = R::from_bytes(Seq::empty());
        witness.lemma_round_trip();
    }

    fn encode(&self) -> (frame: Vec<u8>) {
        proof {
            self.lemma_frame_fits();
        }
        padded(R_REGISTER | R::addr(), R::len())
    }

    fn decode_response(&self, reply: &[u8]) -> (response: R) {
        proof {
            self.lemma_frame_fits();
        }
        R::decode(slice_subrange(reply, 1, reply.len()))
    }
}

/// Writes a value to the register `R`.
pub struct WriteRegister<R: Register> {
    register: R,
}

impl<R: Register> WriteRegister<R> {
    pub closed spec fn value(&self) -> R {
        self.register
    }

    pub fn new(register: R) -> (command: Self)
        ensures
            command.valid(),
            command.value() == register,
    {
        WriteRegister { register }
    }
}

impl<R: Register> Command for WriteRegister<R> {
    type Response = ();

    open spec fn valid(&self) -> bool {
        true
    }

    open spec fn frame(&self) -> Seq<u8> {
        write_frame(self.value())
    }

    open spec fn decodes(&self, reply: Seq<u8>, response: ()) -> bool {
        true
    }

    proof fn lemma_frame_fits(&self) {
        self.register.lemma_round_trip();
    }

    fn encode(&self) -> (frame: Vec<u8>) {
        let mut frame: Vec<u8> = Vec::new();
        frame.push(W_REGISTER | R::addr());
        self.register.encode(&mut frame);
        frame
    }

    fn decode_response(&self, reply: &[u8]) -> (response: ()) {
    }
}

/// Asks how many bytes the payload at the front of the receive queue holds.
pub struct ReadRxPayloadWidth;

impl Command for ReadRxPayloadWidth {
    type Response = u8;

    open spec fn valid(&self) -> bool {
        true
    }

    open spec fn frame(&self) -> Seq<u8> {
        seq![R_RX_PL_WID, 0u8]
    }

    open spec fn decodes(&self, reply: Seq<u8>, response: u8) -> bool {
        response == reply[1]
    }

    proof fn lemma_frame_fits(&self) {
    }

    fn encode(&self) -> (frame: Vec<u8>) {
        let frame = padded(R_RX_PL_WID, 1);
        assert(frame@ =~= self.frame());
        frame
    }

    fn decode_response(&self, reply: &[u8]) -> (response: u8) {
        reply[1]
    }
}

/// Reads the payload at the front of the receive queue, whose width has been
/// asked for before.
pub struct ReadRxPayload {
    payload_width: usize,
}

impl ReadRxPayload {
    /// The number of payload bytes asked for.
    pub closed spec fn width(&self) -> nat {
        self.payload_width as nat
    }

    pub fn new(payload_width: usize) -> (command: Self)
        requires
            payload_width <= MAX_PAYLOAD,
        ensures
            command.valid(),
            command.width() == payload_width,
    {
        ReadRxPayload { payload_width }
    }
}

impl Command for ReadRxPayload {
    type Response = Payload;

    open spec fn valid(&self) -> bool {
        self.width() <= MAX_PAYLOAD
    }

    open spec fn frame(&self) -> Seq<u8> {
        seq![R_RX_PAYLOAD] + zeros(self.width())
    }

    open spec fn decodes(&self, reply: Seq<u8>, response: Payload) -> bool {
        response@ == reply.skip(1)
    }

    proof fn lemma_frame_fits(&self) {
    }

    fn encode(&self) -> (frame: Vec<u8>) {
        padded(R_RX_PAYLOAD, self.payload_width)
    }

    fn decode_response(&self, reply: &[u8]) -> (response: Payload) {
        Payload::new(slice_subrange(reply, 1, reply.len()))
    }
}

/// Appends a payload to the transmit queue.
pub struct WriteTxPayload<'a> {
    data: &'a [u8],
}

impl<'a> WriteTxPayload<'a> {
    /// The payload's bytes.
    pub closed spec fn payload(&self) -> Seq<u8> {
        self.data@
    }

    pub fn new(data: &'a [u8]) -> (command: Self)
        requires
            data@.len() <= MAX_PAYLOAD,
        ensures
            command.valid(),
            command.payload() == data@,
    {
        WriteTxPayload { data }
    }
}

impl<'a> Command for WriteTxPayload<'a> {
    type Response = ();

    open spec fn valid(&self) -> bool {
        self.payload().len() <= MAX_PAYLOAD
    }

    open spec fn frame(&self) -> Seq<u8> {
        seq![W_TX_PAYLOAD] + self.payload()
    }

    open spec fn decodes(&self, reply: Seq<u8>, response: ()) -> bool {
        true
    }

    proof fn lemma_frame_fits(&self) {
    }

    fn encode(&self) -> (frame: Vec<u8>) {
        let mut frame: Vec<u8> = Vec::new();
        frame.push(W_TX_PAYLOAD);
        let mut done: usize = 0;
        while done < self.data.len()
            invariant
                done <= self.data@.len(),
                frame@ == seq![W_TX_PAYLOAD] + self.data@.take(done as int),
            decreases self.data@.len() - done,
        {
            frame.push(self.data[done]);
            done = done + 1;
            assert(frame@ =~= seq![W_TX_PAYLOAD] + self.data@.take(done as int));
        }
        assert(self.data@.take(done as int) =~= self.data@);
        frame
    }

    fn decode_response(&self, reply: &[u8]) -> (response: ()) {
    }
}

/// Discards what is in the transmit queue.
pub struct FlushTx;

impl Command for FlushTx {
    type Response = ();

    open spec fn valid(&self) -> bool {
        true
    }

    open spec fn frame(&self) -> Seq<u8> {
        seq![FLUSH_TX]
    }

    open spec fn decodes(&self, reply: Seq<u8>, response: ()) -> bool {
        true
    }

    proof fn lemma_frame_fits(&self) {
    }

    fn encode(&self) -> (frame: Vec<u8>) {
        let frame = padded(FLUSH_TX, 0);
        assert(frame@ =~= self.frame());
        frame
    }

    fn decode_response(&self, reply: &[u8]) -> (response: ()) {
    }
}

/// Discards what is in the receive queue.
pub struct FlushRx;

impl Command for FlushRx {
    type Response = ();

    open spec fn valid(&self) -> bool {
        true
    }

    open spec fn frame(&self) -> Seq<u8> {
        seq![FLUSH_RX]
    }

    open spec fn decodes(&self, reply: Seq<u8>, response: ()) -> bool {
        true
    }

    proof fn lemma_frame_fits(&self) {
    }

    fn encode(&self) -> (frame: Vec<u8>) {
        let frame = padded(FLUSH_RX, 0);
        assert(frame@ =~= self.frame());
        frame
    }

    fn decode_response(&self, reply: &[u8]) -> (response: ()) {
    }
}

} // verus!

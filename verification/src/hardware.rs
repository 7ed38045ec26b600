//! The chip's lines as the driver sees them: the enable pin (CE), the
//! chip-select pin (CSN), the serial bus and a delay, and the trace of
//! [`Signal`]s that using them leaves.

use vstd::prelude::*;

verus! {

/// Longest frame the chip accepts: one command byte and 32 data bytes.
pub const MAX_FRAME: usize = 33;

/// One thing done to the chip's lines.
pub enum Signal<E> {
    /// The enable pin was driven high (`true`) or low (`false`).
    Ce(bool),
    /// The chip-select pin was driven high (`true`, deselected) or low
    /// (`false`, selected).
    Csn(bool),
    /// The caller was held for this many microseconds.
    Delay(u32),
    /// One full-duplex transfer: the bytes clocked out and, if the bus did not
    /// fail, the bytes clocked in.
    Exchange(Seq<u8>, Result<Seq<u8>, E>),
}

/// What the driver needs from the board: two pins, a bus and a delay.
///
/// This is the one thing to implement for a board. What the methods do to
/// the chip cannot be stated here; [`Traced`] keeps the record of the calls
/// that the driver's contracts speak of.
pub trait Hardware {
    /// Failure of the bus.
    type Error;

    /// Drives the enable pin high (`true`) or low (`false`).
    fn set_ce(&mut self, high: bool);

    /// Drives the chip-select pin high (`true`) or low (`false`).
    fn set_csn(&mut self, high: bool);

    /// Blocks for at least `micros` microseconds.
    fn delay_us(&mut self, micros: u32);

    /// Clocks `words` out and overwrites them with the words clocked in at
    /// the same time. On failure the content of `words` is unspecified.
    fn transfer(&mut self, words: &mut [u8]) -> (res: Result<(), Self::Error>)
        ensures
            final(words)@.len() == old(words)@.len(),
    ;
}

/// A board together with the record of everything that was done to it
/// through this value. The board can be reached in no other way, and each
/// method makes exactly one call on it and appends exactly that call's
/// signal to the record.
pub struct Traced<H: Hardware> {
    board: H,
    trace: Ghost<Seq<Signal<H::Error>>>,
}

impl<H: Hardware> Traced<H> {
    /// Everything done so far, oldest first.
    pub closed spec fn trace(&self) -> Seq<Signal<H::Error>> {
        self.trace@
    }

    /// The board.
    pub closed spec fn spec_board(&self) -> &H {
        &self.board
    }

    /// A board to which nothing has been done yet.
    pub fn new(board: H) -> (traced: Self)
        ensures
            traced.trace() == Seq::<Signal<H::Error>>::empty(),
            traced.board() == board,
    {
        Traced { board, trace: Ghost(Seq::empty()) }
    }

    /// The board, to look at.
    #[verifier::when_used_as_spec(spec_board)]
    pub fn board(&self) -> (board: &H)
        ensures
            board == self.board(),
    {
        &self.board
    }

    /// Gives the board back.
    pub fn release(self) -> (board: H)
        ensures
            board == self.board(),
    {
        self.board
    }

    /// Drives the enable pin.
    pub fn set_ce(&mut self, high: bool)
        ensures
            final(self).trace() == old(self).trace().push(Signal::Ce(high)),
    {
        self.board.set_ce(high);
        self.trace = Ghost(self.trace@.push(Signal::Ce(high)));
    }

    /// Drives the chip-select pin.
    pub fn set_csn(&mut self, high: bool)
        ensures
            final(self).trace() == old(self).trace().push(Signal::Csn(high)),
    {
        self.board.set_csn(high);
        self.trace = Ghost(self.trace@.push(Signal::Csn(high)));
    }

    /// Blocks for at least `micros` microseconds.
    pub fn delay_us(&mut self, micros: u32)
        ensures
            final(self).trace() == old(self).trace().push(Signal::Delay(micros)),
    {
        self.board.delay_us(micros);
        self.trace = Ghost(self.trace@.push(Signal::Delay(micros)));
    }

    /// Clocks `words` out and replaces them by the bytes clocked in, which
    /// are as many.
    pub fn transfer(&mut self, words: &mut Vec<u8>) -> (res: Result<(), H::Error>)
        ensures
            final(self).trace() == old(self).trace().push(
                Signal::Exchange(old(words)@, exchanged(res, final(words)@)),
            ),
            final(words)@.len() == old(words)@.len(),
    {
        let res = self.board.transfer(words.as_mut_slice());
        self.trace = Ghost(
            self.trace@.push(Signal::Exchange(old(words)@, exchanged(res, words@))),
        );
        res
    }
}

/// The outcome of a transfer as the trace records it.
pub open spec fn exchanged<E>(res: Result<(), E>, received: Seq<u8>) -> Result<Seq<u8>, E> {
    match res {
        Ok(_) => Ok(received),
        Err(e) => Err(e),
    }
}

/// The signals of one bus transaction: select the chip, exchange one frame,
/// deselect the chip.
pub open spec fn transaction<E>(sent: Seq<u8>, outcome: Result<Seq<u8>, E>) -> Seq<Signal<E>> {
    seq![Signal::Csn(false), Signal::Exchange(sent, outcome), Signal::Csn(true)]
}

/// The outcome that a signal carries, if it is an exchange.
pub open spec fn outcome_of<E>(signal: Signal<E>) -> Result<Seq<u8>, E>
    recommends
        signal is Exchange,
{
    signal->Exchange_1
}

/// The level that the enable pin was last driven to, if it was driven at all.
pub open spec fn ce_level<E>(trace: Seq<Signal<E>>) -> Option<bool>
    decreases trace.len(),
{
    if trace.len() == 0 {
        None
    } else {
        match trace.last() {
            Signal::Ce(high) => Some(high),
            _ => ce_level(trace.drop_last()),
        }
    }
}

/// The level that the chip-select pin was last driven to, if it was driven at
/// all.
pub open spec fn csn_level<E>(trace: Seq<Signal<E>>) -> Option<bool>
    decreases trace.len(),
{
    if trace.len() == 0 {
        None
    } else {
        match trace.last() {
            Signal::Csn(high) => Some(high),
            _ => csn_level(trace.drop_last()),
        }
    }
}

/// How many transfers the trace holds.
pub open spec fn exchange_count<E>(trace: Seq<Signal<E>>) -> nat
    decreases trace.len(),
{
    if trace.len() == 0 {
        0
    } else {
        exchange_count(trace.drop_last()) + if trace.last() is Exchange {
            1nat
        } else {
            0nat
        }
    }
}

/// One more signal changes a pin's level only if it drives that pin, and the
/// transfer count only if it is a transfer.
pub proof fn lemma_push<E>(trace: Seq<Signal<E>>, signal: Signal<E>)
    ensures
        ce_level(trace.push(signal)) == match signal {
            Signal::Ce(high) => Some(high),
            _ => ce_level(trace),
        },
        csn_level(trace.push(signal)) == match signal {
            Signal::Csn(high) => Some(high),
            _ => csn_level(trace),
        },
        exchange_count(trace.push(signal)) == exchange_count(trace) + if signal is Exchange {
            1nat
        } else {
            0nat
        },
{
    assert(trace.push(signal).drop_last() =~= trace);
}

/// A transaction is three pushes.
pub proof fn lemma_transaction_pushes<E>(
    trace: Seq<Signal<E>>,
    sent: Seq<u8>,
    outcome: Result<Seq<u8>, E>,
)
    ensures
        trace + transaction(sent, outcome) == trace.push(Signal::Csn(false)).push(
            Signal::Exchange(sent, outcome),
        ).push(Signal::Csn(true)),
{
    assert(trace + transaction(sent, outcome) =~= trace.push(Signal::Csn(false)).push(
        Signal::Exchange(sent, outcome),
    ).push(Signal::Csn(true)));
}

/// A bus transaction leaves the chip deselected whether or not the transfer
/// failed, does not touch the enable pin, and is one transfer.
pub proof fn lemma_transaction<E>(
    trace: Seq<Signal<E>>,
    sent: Seq<u8>,
    outcome: Result<Seq<u8>, E>,
)
    ensures
        csn_level(trace + transaction(sent, outcome)) == Some(true),
        ce_level(trace + transaction(sent, outcome)) == ce_level(trace),
        exchange_count(trace + transaction(sent, outcome)) == exchange_count(trace) + 1,
{
    let a = trace.push(Signal::Csn(false));
    let b = a.push(Signal::Exchange(sent, outcome));
    lemma_transaction_pushes(trace, sent, outcome);
    lemma_push(trace, Signal::Csn(false));
    lemma_push(a, Signal::Exchange(sent, outcome));
    lemma_push(b, Signal::Csn(true));
}

} // verus!

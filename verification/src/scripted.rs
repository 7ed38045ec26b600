//! A board with no chip on it: the bus answers from a script and everything
//! done is recorded, so that a run of the driver can be played and looked at
//! afterwards.

use crate::hardware::{ce_level, csn_level, exchange_count, Hardware, Signal};
use vstd::prelude::*;
use vstd::slice::slice_to_vec;

verus! {

/// Why a scripted transfer failed.
#[derive(Clone, Copy, Debug, PartialEq, Eq, Structural)]
pub enum Fault {
    /// The script says that the bus fails at this transfer.
    Scripted,
    /// The script has no answer for this transfer: it has run out, or its
    /// answer is not as long as the frame.
    Unscripted,
}

/// What the script holds for one transfer.
#[derive(Debug)]
pub enum Step {
    /// The bytes that the bus clocks in.
    Reply(Vec<u8>),
    /// The bus fails.
    Fail,
}

/// One recorded signal.
#[derive(Debug)]
pub enum Record {
    /// The enable pin was driven to this level.
    Ce(bool),
    /// The chip-select pin was driven to this level.
    Csn(bool),
    /// The caller asked to be held for this many microseconds.
    Delay(u32),
    /// A transfer: the bytes clocked out, and the bytes clocked in or the
    /// failure.
    Exchange(Vec<u8>, Result<Vec<u8>, Fault>),
}

impl Record {
    /// The signal that this record stands for.
    pub open spec fn signal(self) -> Signal<Fault> {
        match self {
            Record::Ce(high) => Signal::Ce(high),
            Record::Csn(high) => Signal::Csn(high),
            Record::Delay(micros) => Signal::Delay(micros),
            Record::Exchange(sent, received) => Signal::Exchange(
                sent@,
                match received {
                    Ok(bytes) => Ok(bytes@),
                    Err(fault) => Err(fault),
                },
            ),
        }
    }
}

/// The signals that records stand for.
pub open spec fn signals(records: Seq<Record>) -> Seq<Signal<Fault>> {
    records.map_values(|record: Record| record.signal())
}

/// A board that answers from a script and records what is done to it.
#[derive(Debug)]
pub struct ScriptedHardware {
    script: Vec<Step>,
    next: usize,
    log: Vec<Record>,
}

impl ScriptedHardware {
    /// What has been recorded so far.
    pub closed spec fn recorded(&self) -> Seq<Record> {
        self.log@
    }

    /// What has been done so far, as signals.
    pub open spec fn trace(&self) -> Seq<Signal<Fault>> {
        signals(self.recorded())
    }

    /// The answers that have not been used yet.
    pub closed spec fn pending(&self) -> Seq<Step> {
        if self.next <= self.script@.len() {
            self.script@.skip(self.next as int)
        } else {
            Seq::empty()
        }
    }

    /// A board whose bus will answer the transfers to come from `script`,
    /// in order, and then fail.
    pub fn new(script: Vec<Step>) -> (hw: Self)
        ensures
            hw.recorded() == Seq::<Record>::empty(),
            hw.pending() == script@,
    {
        let hw = ScriptedHardware { script, next: 0, log: Vec::new() };
        assert(hw.pending() =~= script@);
        hw
    }

    /// What has been recorded so far, oldest first.
    pub fn records(&self) -> (log: &Vec<Record>)
        ensures
            log@ == self.recorded(),
    {
        &self.log
    }

    /// The level that the enable pin was last driven to.
    pub fn ce(&self) -> (level: Option<bool>)
        ensures
            level == ce_level(self.trace()),
    {
        let mut at: usize = self.log.len();
        proof {
            assert(self.trace().take(at as int) =~= self.trace());
        }
        while at > 0
            invariant
                at <= self.log@.len(),
                ce_level(self.trace()) == ce_level(self.trace().take(at as int)),
            decreases at,
        {
            proof {
                let upto = self.trace().take(at as int);
                assert(upto.drop_last() =~= self.trace().take(at - 1));
            }
            at = at - 1;
            match &self.log[at] {
                Record::Ce(high) => {
                    return Some(*high);
                },
                _ => {},
            }
        }
        None
    }

    /// The level that the chip-select pin was last driven to.
    pub fn csn(&self) -> (level: Option<bool>)
        ensures
            level == csn_level(self.trace()),
    {
        let mut at: usize = self.log.len();
        proof {
            assert(self.trace().take(at as int) =~= self.trace());
        }
        while at > 0
            invariant
                at <= self.log@.len(),
                csn_level(self.trace()) == csn_level(self.trace().take(at as int)),
            decreases at,
        {
            proof {
                let upto = self.trace().take(at as int);
                assert(upto.drop_last() =~= self.trace().take(at - 1));
            }
            at = at - 1;
            match &self.log[at] {
                Record::Csn(high) => {
                    return Some(*high);
                },
                _ => {},
            }
        }
        None
    }

    /// How many transfers were made.
    pub fn transfers(&self) -> (count: usize)
        ensures
            count == exchange_count(self.trace()),
    {
        let mut count: usize = 0;
        let mut at: usize = 0;
        proof {
            assert(self.trace().take(0) =~= Seq::empty());
        }
        while at < self.log.len()
            invariant
                at <= self.log@.len(),
                count <= at,
                count == exchange_count(self.trace().take(at as int)),
            decreases self.log@.len() - at,
        {
            proof {
                let upto = self.trace().take(at + 1);
                assert(upto.drop_last() =~= self.trace().take(at as int));
            }
            match &self.log[at] {
                Record::Exchange(_, _) => {
                    count = count + 1;
                },
                _ => {},
            }
            at = at + 1;
        }
        proof {
            assert(self.trace().take(at as int) =~= self.trace());
        }
        count
    }

    fn record(&mut self, record: Record)
        ensures
            final(self).recorded() == old(self).recorded().push(record),
            final(self).pending() == old(self).pending(),
    {
        self.log.push(record);
    }
}

/// What a transfer of `sent` returns when `pending` is what is left of the
/// script, and with which bytes clocked in: the script's next answer if it
/// is as long as `sent`.
pub open spec fn answer(pending: Seq<Step>, sent: Seq<u8>) -> Result<Seq<u8>, Fault> {
    if pending.len() == 0 {
        Err(Fault::Unscripted)
    } else {
        match pending[0] {
            Step::Fail => Err(Fault::Scripted),
            Step::Reply(bytes) => if bytes@.len() == sent.len() {
                Ok(bytes@)
            } else {
                Err(Fault::Unscripted)
            },
        }
    }
}

impl Hardware for ScriptedHardware {
    type Error = Fault;

    fn set_ce(&mut self, high: bool)
        ensures
            final(self).trace() == old(self).trace().push(Signal::Ce(high)),
            final(self).pending() == old(self).pending(),
    {
        self.record(Record::Ce(high));
        assert(self.trace() =~= old(self).trace().push(Signal::Ce(high)));
    }

    fn set_csn(&mut self, high: bool)
        ensures
            final(self).trace() == old(self).trace().push(Signal::Csn(high)),
            final(self).pending() == old(self).pending(),
    {
        self.record(Record::Csn(high));
        assert(self.trace() =~= old(self).trace().push(Signal::Csn(high)));
    }

    fn delay_us(&mut self, micros: u32)
        ensures
            final(self).trace() == old(self).trace().push(Signal::Delay(micros)),
            final(self).pending() == old(self).pending(),
    {
        self.record(Record::Delay(micros));
        assert(self.trace() =~= old(self).trace().push(Signal::Delay(micros)));
    }

    fn transfer(&mut self, words: &mut [u8]) -> (res: Result<(), Fault>)
        ensures
            final(self).trace() == old(self).trace().push(
                Signal::Exchange(old(words)@, answer(old(self).pending(), old(words)@)),
            ),
            final(self).pending() == if old(self).pending().len() > 0 {
                old(self).pending().skip(1)
            } else {
                old(self).pending()
            },
            match answer(old(self).pending(), old(words)@) {
                Ok(bytes) => res is Ok && final(words)@ == bytes,
                Err(fault) => res == Err::<(), Fault>(fault) && final(words)@ == old(words)@,
            },
    {
        let sent = slice_to_vec(words);
        if self.next >= self.script.len() {
            self.record(Record::Exchange(sent, Err(Fault::Unscripted)));
            proof {
                assert(self.trace() =~= old(self).trace().push(
                    Signal::Exchange(old(words)@, Err(Fault::Unscripted)),
                ));
            }
            return Err(Fault::Unscripted);
        }
        let at: usize = self.next;
        self.next = at + 1;
        proof {
            assert(self.pending() =~= old(self).pending().skip(1));
            assert(old(self).pending()[0] == self.script@[at as int]);
        }
        let outcome: Result<Vec<u8>, Fault> = match &self.script[at] {
            Step::Fail => Err(Fault::Scripted),
            Step::Reply(bytes) => {
                if bytes.len() != words.len() {
                    Err(Fault::Unscripted)
                } else {
                    let mut done: usize = 0;
                    while done < bytes.len()
                        invariant
                            done <= bytes@.len(),
                            words@.len() == bytes@.len(),
                            words@.take(done as int) == bytes@.take(done as int),
                        decreases bytes@.len() - done,
                    {
                        words[done] = bytes[done];
                        done = done + 1;
                        assert(words@.take(done as int) =~= bytes@.take(done as int)) by {
                            assert(words@.take(done - 1) == bytes@.take(done - 1));
                            assert forall|i: int| 0 <= i < done implies words@[i] == bytes@[i] by {
                                if i < done - 1 {
                                    assert(words@.take(done - 1)[i] == bytes@.take(done - 1)[i]);
                                }
                            }
                        }
                    }
                    assert(words@ =~= bytes@) by {
                        assert(words@.take(done as int) =~= words@);
                        assert(bytes@.take(done as int) =~= bytes@);
                    }
                    Ok(slice_to_vec(words))
                }
            },
        };
        match outcome {
            Ok(received) => {
                self.record(Record::Exchange(sent, Ok(received)));
                assert(self.trace() =~= old(self).trace().push(
                    Signal::Exchange(old(words)@, Ok(words@)),
                ));
                Ok(())
            },
            Err(fault) => {
                self.record(Record::Exchange(sent, Err(fault)));
                assert(self.trace() =~= old(self).trace().push(
                    Signal::Exchange(old(words)@, Err(fault)),
                ));
                Err(fault)
            },
        }
    }
}

} // verus!

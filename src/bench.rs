//! The timed block loop of the write and read benchmarks, as a state machine.
//!
//! The driver asks for the next step, performs the transfer it names, and
//! reports the wall-clock nanoseconds that the transfer took.

use vstd::prelude::*;

verus! {

/// The direction in which a timed run moves data.
#[derive(Clone, Copy, Debug, PartialEq, Eq, Structural)]
pub enum Direction {
    Write,
    Read,
}

/// What the driver of a timed run does next.
#[derive(Clone, Copy, Debug, PartialEq, Eq, Structural)]
pub enum Step {
    /// Move one full block of `len` bytes, then report its duration.
    Transfer { len: u64 },
    /// The loop is over; `elapsed_nanos` is the total time of all transfers.
    Finished { elapsed_nanos: u64 },
}

/// The abstract state of a timed run.
pub struct BenchView {
    pub direction: Direction,
    pub block_size: u64,
    pub count: u64,
    pub done: u64,
    pub elapsed_nanos: u64,
}

/// Adds two durations, holding at the largest representable one.
pub open spec fn saturating_sum(a: u64, b: u64) -> u64 {
    if a + b > u64::MAX {
        u64::MAX
    } else {
        (a + b) as u64
    }
}

impl BenchView {
    pub open spec fn wf(self) -> bool {
        self.done <= self.count
    }

    /// The state before any transfer.
    pub open spec fn initial(direction: Direction, block_size: u64, count: u64) -> BenchView {
        BenchView { direction, block_size, count, done: 0, elapsed_nanos: 0 }
    }

    /// The step that the driver is asked to take in this state.
    pub open spec fn step(self) -> Step {
        if self.done < self.count {
            Step::Transfer { len: self.block_size }
        } else {
            Step::Finished { elapsed_nanos: self.elapsed_nanos }
        }
    }

    /// The state after one transfer that took `nanos` nanoseconds.
    pub open spec fn after(self, nanos: u64) -> BenchView {
        BenchView {
            done: (self.done + 1) as u64,
            elapsed_nanos: saturating_sum(self.elapsed_nanos, nanos),
            ..self
        }
    }

    /// The steps requested when the driver reports the durations `ds` in
    /// turn, up to and including the final step, or until `ds` runs out.
    pub open spec fn trace(self, ds: Seq<u64>) -> Seq<Step>
        decreases ds.len(),
    {
        if self.done >= self.count {
            seq![self.step()]
        } else if ds.len() == 0 {
            Seq::empty()
        } else {
            seq![self.step()] + self.after(ds[0]).trace(ds.drop_first())
        }
    }
}

/// A timed run of `count` full-block transfers of `block_size` bytes.
pub struct Bench {
    direction: Direction,
    block_size: u64,
    count: u64,
    done: u64,
    elapsed_nanos: u64,
}

impl View for Bench {
    type V = BenchView;

    closed spec fn view(&self) -> BenchView {
        BenchView {
            direction: self.direction,
            block_size: self.block_size,
            count: self.count,
            done: self.done,
            elapsed_nanos: self.elapsed_nanos,
        }
    }
}

impl Bench {
    /// Starts a run; no transfer has happened and no time has elapsed.
    pub fn new(direction: Direction, block_size: u64, count: u64) -> (r: Bench)
        ensures
            r@ == BenchView::initial(direction, block_size, count),
    {
        Bench { direction, block_size, count, done: 0, elapsed_nanos: 0 }
    }

    pub fn direction(&self) -> (r: Direction)
        ensures
            r == self@.direction,
    {
        self.direction
    }

    /// The step the driver takes next.
    pub fn next_step(&self) -> (r: Step)
        ensures
            r == self@.step(),
    {
        if self.done < self.count {
            Step::Transfer { len: self.block_size }
        } else {
            Step::Finished { elapsed_nanos: self.elapsed_nanos }
        }
    }

    /// Records one completed transfer that took `nanos` nanoseconds.
    pub fn record(&mut self, nanos: u64)
        requires
            old(self)@.wf(),
            old(self)@.done < old(self)@.count,
        ensures
            final(self)@ == old(self)@.after(nanos),
            final(self)@.wf(),
    {
        self.done = self.done + 1;
        if nanos > u64::MAX - self.elapsed_nanos {
            self.elapsed_nanos = u64::MAX;
        } else {
            self.elapsed_nanos = self.elapsed_nanos + nanos;
        }
    }
}

/// The number of whole microseconds nearest to `nanos`, halves rounded up.
pub open spec fn rounded_micros(nanos: u64) -> nat {
    ((nanos + 500) / 1000) as nat
}

/// Splits a duration into whole seconds and the microseconds beyond them,
/// rounded to the nearest microsecond: the figures of a report with six
/// decimal places.
pub fn seconds_and_micros(nanos: u64) -> (r: (u64, u64))
    ensures
        r.0 == rounded_micros(nanos) / 1_000_000,
        r.1 == rounded_micros(nanos) % 1_000_000,
        r.1 < 1_000_000,
{
    let whole: u64 = nanos / 1000;
    let micros: u64 = if nanos % 1000 >= 500 { whole + 1 } else { whole };
    (micros / 1_000_000, micros % 1_000_000)
}

/// A zero-filled block buffer of `block_size` bytes, where that size can be
/// allocated at all.
pub fn zeroed_block(block_size: u64) -> (r: Option<Vec<u8>>)
    ensures
        r is Some <==> block_size <= usize::MAX,
        r matches Some(v) ==> v@ == Seq::new(block_size as nat, |i: int| 0u8),
{
    if block_size > usize::MAX as u64 {
        return None;
    }
    let n = block_size as usize;
    let mut v: Vec<u8> = Vec::with_capacity(n);
    let mut i: usize = 0;
    while i < n
        invariant
            i <= n,
            n == block_size,
            v@ == Seq::new(i as nat, |k: int| 0u8),
        decreases n - i,
    {
        v.push(0u8);
        i = i + 1;
    }
    Some(v)
}

/// How a transfer that did not complete failed.
#[derive(Clone, Copy, Debug, PartialEq, Eq, Structural)]
pub enum TransferFailure {
    /// The file ended before a whole block was read.
    IncompleteRead,
    /// The file took less than a whole block.
    IncompleteWrite,
    /// The transfer failed for another reason.
    Other,
}

/// Classifies a failed transfer: one that stopped short of a whole block is
/// an incomplete read or write, by its direction; any other is passed on as
/// it came.
pub fn transfer_failure(direction: Direction, stopped_short: bool) -> (r: TransferFailure)
    ensures
        stopped_short && direction == Direction::Read ==> r == TransferFailure::IncompleteRead,
        stopped_short && direction == Direction::Write ==> r == TransferFailure::IncompleteWrite,
        !stopped_short ==> r == TransferFailure::Other,
{
    if !stopped_short {
        TransferFailure::Other
    } else {
        match direction {
            Direction::Read => TransferFailure::IncompleteRead,
            Direction::Write => TransferFailure::IncompleteWrite,
        }
    }
}

/// A run, driven with enough reported durations, asks for exactly the
/// transfers still owed, each of one full block, and then finishes.
proof fn lemma_trace_from(s: BenchView, ds: Seq<u64>)
    requires
        s.wf(),
        ds.len() >= s.count - s.done,
    ensures
        s.trace(ds).len() == s.count - s.done + 1,
        forall|k: int|
            0 <= k < s.count - s.done ==> s.trace(ds)[k] == (Step::Transfer { len: s.block_size }),
        s.trace(ds).last() is Finished,
    decreases s.count - s.done,
{
    if s.done < s.count {
        let t = s.after(ds[0]);
        lemma_trace_from(t, ds.drop_first());
        assert forall|k: int| 0 <= k < s.count - s.done implies s.trace(ds)[k] == (Step::Transfer {
            len: s.block_size,
        }) by {
            if k > 0 {
                assert(s.trace(ds)[k] == t.trace(ds.drop_first())[k - 1]);
            }
        }
    }
}

/// A write or read run of `count` blocks, driven to its end, asks for exactly
/// `count` transfers of exactly `block_size` bytes each, no more and no fewer.
pub proof fn lemma_exact_transfers(direction: Direction, block_size: u64, count: u64, ds: Seq<u64>)
    requires
        ds.len() >= count,
    ensures
        ({
            let tr = BenchView::initial(direction, block_size, count).trace(ds);
            &&& tr.len() == count + 1
            &&& forall|k: int| 0 <= k < count ==> tr[k] == (Step::Transfer { len: block_size })
            &&& tr.last() is Finished
        }),
{
    lemma_trace_from(BenchView::initial(direction, block_size, count), ds);
}

/// A run of zero blocks finishes at once, asks for no transfer, and reports
/// zero seconds and zero microseconds.
pub proof fn lemma_zero_count(direction: Direction, block_size: u64, ds: Seq<u64>)
    ensures
        BenchView::initial(direction, block_size, 0).trace(ds) == seq![
            Step::Finished { elapsed_nanos: 0 },
        ],
        rounded_micros(0) / 1_000_000 == 0,
        rounded_micros(0) % 1_000_000 == 0,
{
}

} // verus!

//! The integrity test: write a known byte pattern block by block, read it
//! back block by block, and compare.
//!
//! The driver asks for the next step and performs it: a write of a slice of
//! the pattern, or a read of one block that it hands back.

use vstd::prelude::*;

verus! {

/// The test pattern of `n` bytes: the byte at offset `i` is `i mod 256`.
pub open spec fn pattern(n: nat) -> Seq<u8> {
    Seq::new(n, |i: int| (i % 256) as u8)
}

/// The content of a file after `data` is written over it from offset `pos`;
/// the file grows where the write runs past its end.
pub open spec fn overwrite(file: Seq<u8>, pos: int, data: Seq<u8>) -> Seq<u8> {
    let len = if pos + data.len() > file.len() {
        pos + data.len()
    } else {
        file.len() as int
    };
    Seq::new(len as nat, |k: int| if pos <= k < pos + data.len() { data[k - pos] } else { file[k] })
}

/// The length of the pattern for `count` blocks of `block_size` bytes, where
/// a buffer of that length can exist.
pub fn pattern_len(block_size: u64, count: u64) -> (r: Option<usize>)
    ensures
        r is Some <==> block_size * count <= usize::MAX,
        r matches Some(n) ==> n == block_size * count,
{
    match block_size.checked_mul(count) {
        Some(n) => {
            if n > usize::MAX as u64 {
                None
            } else {
                Some(n as usize)
            }
        },
        None => None,
    }
}

/// Builds the test pattern of `len` bytes.
pub fn make_pattern(len: usize) -> (r: Vec<u8>)
    ensures
        r@ == pattern(len as nat),
{
    let mut v: Vec<u8> = Vec::with_capacity(len);
    let mut i: usize = 0;
    while i < len
        invariant
            i <= len,
            v@ == pattern(i as nat),
        decreases len - i,
    {
        v.push((i % 256) as u8);
        i = i + 1;
        assert(v@ =~= pattern(i as nat));
    }
    v
}

/// Whether two byte sequences are equal, byte for byte.
pub fn contents_match(a: &[u8], b: &[u8]) -> (r: bool)
    ensures
        r == (a@ == b@),
{
    if a.len() != b.len() {
        return false;
    }
    let mut i: usize = 0;
    while i < a.len()
        invariant
            a@.len() == b@.len(),
            i <= a@.len(),
            forall|k: int| 0 <= k < i ==> a@[k] == b@[k],
        decreases a@.len() - i,
    {
        if a[i] != b[i] {
            return false;
        }
        i = i + 1;
    }
    assert(a@ =~= b@);
    true
}

/// What the driver of an integrity test does next.
#[derive(Clone, Copy, Debug, PartialEq, Eq, Structural)]
pub enum TestStep {
    /// Write the pattern's bytes `start..end` to the write target.
    WriteBlock { start: usize, end: usize },
    /// Read one full block from the read target; it lands at `start..end`.
    ReadBlock { start: usize, end: usize },
    /// Both phases are done: compare what was sent with what came back.
    Compare,
}

/// The outcome of a completed integrity test.
#[derive(Clone, Copy, Debug, PartialEq, Eq, Structural)]
pub enum Verdict {
    Passed,
    Mismatch,
}

/// The abstract state of an integrity test.
pub struct TestView {
    pub block_size: nat,
    pub count: nat,
    pub written: nat,
    pub read: nat,
    pub sent: Seq<u8>,
    pub received: Seq<u8>,
}

impl TestView {
    pub open spec fn total(self) -> nat {
        self.block_size * self.count
    }

    pub open spec fn wf(self) -> bool {
        &&& self.total() <= usize::MAX
        &&& self.sent == pattern(self.total())
        &&& self.received.len() == self.total()
        &&& self.written <= self.count
        &&& self.read <= self.count
        &&& self.read > 0 ==> self.written == self.count
    }

    /// The state before any block has moved: nothing received yet.
    pub open spec fn initial(block_size: nat, count: nat) -> TestView {
        TestView {
            block_size,
            count,
            written: 0,
            read: 0,
            sent: pattern(block_size * count),
            received: Seq::new(block_size * count, |i: int| 0u8),
        }
    }

    /// The step that the driver is asked to take in this state.
    pub open spec fn step(self) -> TestStep {
        if self.written < self.count {
            TestStep::WriteBlock {
                start: (self.written * self.block_size) as usize,
                end: ((self.written + 1) * self.block_size) as usize,
            }
        } else if self.read < self.count {
            TestStep::ReadBlock {
                start: (self.read * self.block_size) as usize,
                end: ((self.read + 1) * self.block_size) as usize,
            }
        } else {
            TestStep::Compare
        }
    }

    /// The state after the next pattern block was written.
    pub open spec fn after_write(self) -> TestView {
        TestView { written: self.written + 1, ..self }
    }

    /// The state after the next block was read as `data`.
    pub open spec fn after_read(self, data: Seq<u8>) -> TestView {
        TestView {
            read: self.read + 1,
            received: overwrite(self.received, (self.read * self.block_size) as int, data),
            ..self
        }
    }

    pub open spec fn verdict(self) -> Verdict {
        if self.sent == self.received {
            Verdict::Passed
        } else {
            Verdict::Mismatch
        }
    }

    /// Drives the test to its end where the write target and the read target
    /// are one file, whose content is `file`: each write lands at its block's
    /// offset, each read takes the bytes at its block's offset. Gives the
    /// final state and the file's content then.
    pub open spec fn run_on(self, file: Seq<u8>) -> (TestView, Seq<u8>)
        decreases (self.count - self.written) + (self.count - self.read),
    {
        if !self.wf() {
            (self, file)
        } else if self.written < self.count {
            let start: int = (self.written * self.block_size) as int;
            let data = self.sent.subrange(start, start + self.block_size);
            self.after_write().run_on(overwrite(file, start, data))
        } else if self.read < self.count {
            let start: int = (self.read * self.block_size) as int;
            let data = file.subrange(start, start + self.block_size);
            self.after_read(data).run_on(file)
        } else {
            (self, file)
        }
    }
}

/// Nonlinear facts about block offsets.
proof fn lemma_block_bounds(i: nat, block_size: nat, count: nat)
    requires
        i < count,
    ensures
        (i + 1) * block_size == i * block_size + block_size,
        (i + 1) * block_size <= block_size * count,
{
    assert((i + 1) * block_size == i * block_size + block_size) by (nonlinear_arith);
    assert((i + 1) * block_size <= block_size * count) by (nonlinear_arith)
        requires
            i < count,
    ;
}

/// An integrity test of `count` blocks of `block_size` bytes.
pub struct IntegrityRun {
    block_size: u64,
    count: u64,
    written: u64,
    read: u64,
    sent: Vec<u8>,
    received: Vec<u8>,
}

impl View for IntegrityRun {
    type V = TestView;

    closed spec fn view(&self) -> TestView {
        TestView {
            block_size: self.block_size as nat,
            count: self.count as nat,
            written: self.written as nat,
            read: self.read as nat,
            sent: self.sent@,
            received: self.received@,
        }
    }
}

impl IntegrityRun {
    /// Starts a test, with the pattern built and a zeroed receive buffer of the
    /// same length; there is none where that length does not fit in memory.
    pub fn new(block_size: u64, count: u64) -> (r: Option<IntegrityRun>)
        ensures
            r is Some <==> block_size * count <= usize::MAX,
            r matches Some(run) ==> run@ == TestView::initial(block_size as nat, count as nat)
                && run@.wf(),
    {
        let total = match pattern_len(block_size, count) {
            Some(n) => n,
            None => return None,
        };
        let sent = make_pattern(total);
        let mut received: Vec<u8> = Vec::with_capacity(total);
        let mut i: usize = 0;
        while i < total
            invariant
                i <= total,
                received@ == Seq::new(i as nat, |k: int| 0u8),
            decreases total - i,
        {
            received.push(0u8);
            i = i + 1;
        }
        let ghost g = TestView::initial(block_size as nat, count as nat);
        assert(received@ =~= g.received);
        Some(IntegrityRun { block_size, count, written: 0, read: 0, sent, received })
    }

    /// The step the driver takes next.
    pub fn next_step(&self) -> (r: TestStep)
        requires
            self@.wf(),
        ensures
            r == self@.step(),
    {
        if self.written < self.count {
            proof {
                lemma_block_bounds(self.written as nat, self.block_size as nat, self.count as nat);
            }
            let start = (self.written * self.block_size) as usize;
            TestStep::WriteBlock { start, end: start + self.block_size as usize }
        } else if self.read < self.count {
            proof {
                lemma_block_bounds(self.read as nat, self.block_size as nat, self.count as nat);
            }
            let start = (self.read * self.block_size) as usize;
            TestStep::ReadBlock { start, end: start + self.block_size as usize }
        } else {
            TestStep::Compare
        }
    }

    /// The pattern that the test writes.
    pub fn sent(&self) -> (r: &Vec<u8>)
        ensures
            r@ == self@.sent,
    {
        &self.sent
    }

    /// Records that the next pattern block was written.
    pub fn block_written(&mut self)
        requires
            old(self)@.wf(),
            old(self)@.written < old(self)@.count,
        ensures
            final(self)@ == old(self)@.after_write(),
            final(self)@.wf(),
    {
        self.written = self.written + 1;
    }

    /// Records the next block read back, `data`, at its place in the receive
    /// buffer.
    pub fn block_read(&mut self, data: &[u8])
        requires
            old(self)@.wf(),
            old(self)@.written == old(self)@.count,
            old(self)@.read < old(self)@.count,
            data@.len() == old(self)@.block_size,
        ensures
            final(self)@ == old(self)@.after_read(data@),
            final(self)@.wf(),
    {
        proof {
            lemma_block_bounds(self.read as nat, self.block_size as nat, self.count as nat);
        }
        let start = (self.read * self.block_size) as usize;
        let n = data.len();
        let ghost before = self.received@;
        let mut k: usize = 0;
        while k < n
            invariant
                n == data@.len(),
                start + n <= before.len(),
                before.len() <= usize::MAX,
                start == old(self)@.read * old(self)@.block_size,
                self.read == old(self).read,
                self.written == old(self).written,
                self.count == old(self).count,
                self.block_size == old(self).block_size,
                self.sent@ == old(self).sent@,
                old(self)@.wf(),
                old(self).read < old(self).count,
                self.received@.len() == before.len(),
                k <= n,
                forall|j: int|
                    0 <= j < before.len() ==> self.received@[j] == if start <= j < start + k {
                        data@[j - start]
                    } else {
                        before[j]
                    },
            decreases n - k,
        {
            self.received[start + k] = data[k];
            k = k + 1;
        }
        self.read = self.read + 1;
        assert(self.received@ =~= overwrite(before, start as int, data@));
    }

    /// Compares what was sent with what came back.
    pub fn verdict(&self) -> (r: Verdict)
        ensures
            r == self@.verdict(),
    {
        if contents_match(self.sent.as_slice(), self.received.as_slice()) {
            Verdict::Passed
        } else {
            Verdict::Mismatch
        }
    }
}

/// The write phase, from any point in it: the file ends up holding the whole
/// pattern over its original content, and the read phase follows.
proof fn lemma_write_phase(v: TestView, f0: Seq<u8>, file: Seq<u8>)
    requires
        v.wf(),
        v.read == 0,
        file == overwrite(f0, 0, v.sent.subrange(0, (v.written * v.block_size) as int)),
    ensures
        v.run_on(file) == (TestView { written: v.count, ..v }).run_on(overwrite(f0, 0, v.sent)),
    decreases v.count - v.written,
{
    if v.written < v.count {
        lemma_block_bounds(v.written, v.block_size, v.count);
        let start: int = (v.written * v.block_size) as int;
        let data = v.sent.subrange(start, start + v.block_size);
        let next = overwrite(file, start, data);
        let w = v.after_write();
        assert(next =~= overwrite(f0, 0, w.sent.subrange(0, (w.written * w.block_size) as int)));
        lemma_write_phase(w, f0, next);
        assert((TestView { written: w.count, ..w }) == (TestView { written: v.count, ..v }));
    } else {
        assert(v.written * v.block_size == v.block_size * v.count) by (nonlinear_arith)
            requires
                v.written == v.count,
        ;
        assert(v.sent.subrange(0, (v.written * v.block_size) as int) =~= v.sent);
        assert((TestView { written: v.count, ..v }) == v);
    }
}

/// The read phase, from any point in it: the file is left as it is, and what
/// comes back is the file's first `total` bytes.
proof fn lemma_read_phase(v: TestView, file: Seq<u8>)
    requires
        v.wf(),
        v.written == v.count,
        file.len() >= v.total(),
        forall|k: int| 0 <= k < v.read * v.block_size ==> v.received[k] == file[k],
    ensures
        v.run_on(file).1 == file,
        v.run_on(file).0.sent == v.sent,
        v.run_on(file).0.received == file.subrange(0, v.total() as int),
    decreases v.count - v.read,
{
    if v.read < v.count {
        lemma_block_bounds(v.read, v.block_size, v.count);
        let start: int = (v.read * v.block_size) as int;
        let data = file.subrange(start, start + v.block_size);
        lemma_read_phase(v.after_read(data), file);
    } else {
        assert(v.read * v.block_size == v.block_size * v.count) by (nonlinear_arith)
            requires
                v.read == v.count,
        ;
        assert(v.received =~= file.subrange(0, v.total() as int));
    }
}

/// Writing the pattern block by block into a file and reading it back block
/// by block from that same file gives back the pattern byte for byte,
/// whatever the file held before and whatever the block size and count: the
/// test passes.
pub proof fn lemma_round_trip(block_size: nat, count: nat, file: Seq<u8>)
    requires
        block_size * count <= usize::MAX,
    ensures
        ({
            let (end, after) = TestView::initial(block_size, count).run_on(file);
            &&& end.received == pattern(block_size * count)
            &&& end.verdict() == Verdict::Passed
            &&& after == overwrite(file, 0, pattern(block_size * count))
        }),
{
    let v = TestView::initial(block_size, count);
    assert(v.sent.subrange(0, 0) =~= Seq::<u8>::empty());
    assert(file =~= overwrite(file, 0, v.sent.subrange(0, (v.written * v.block_size) as int)));
    lemma_write_phase(v, file, file);
    let w = TestView { written: count, ..v };
    let f1 = overwrite(file, 0, v.sent);
    lemma_read_phase(w, f1);
    assert(f1.subrange(0, v.total() as int) =~= pattern(block_size * count));
}

/// Where the read target is another file, the test passes when that file,
/// as the read phase starts, begins with the whole pattern.
pub proof fn lemma_read_back(block_size: nat, count: nat, read_file: Seq<u8>)
    requires
        block_size * count <= usize::MAX,
        read_file.len() >= block_size * count,
        read_file.subrange(0, (block_size * count) as int) == pattern(block_size * count),
    ensures
        ({
            let written = TestView { written: count, ..TestView::initial(block_size, count) };
            let (end, after) = written.run_on(read_file);
            &&& end.received == pattern(block_size * count)
            &&& end.verdict() == Verdict::Passed
            &&& after == read_file
        }),
{
    let written = TestView { written: count, ..TestView::initial(block_size, count) };
    lemma_read_phase(written, read_file);
}

/// Running the test twice in succession on the same file leaves the file as
/// the first run left it, and yields the same outcome, a pass, both times.
pub proof fn lemma_rerun(block_size: nat, count: nat, file: Seq<u8>)
    requires
        block_size * count <= usize::MAX,
    ensures
        ({
            let (first, after_first) = TestView::initial(block_size, count).run_on(file);
            let (second, after_second) = TestView::initial(block_size, count).run_on(after_first);
            &&& after_second == after_first
            &&& second.verdict() == first.verdict()
            &&& first.verdict() == Verdict::Passed
        }),
{
    let p = pattern(block_size * count);
    lemma_round_trip(block_size, count, file);
    let f1 = overwrite(file, 0, p);
    lemma_round_trip(block_size, count, f1);
    assert(overwrite(f1, 0, p) =~= f1);
}

} // verus!

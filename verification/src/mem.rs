//! In-memory endpoints and an in-memory link.
//!
//! [`MemSource`] and [`MemSink`] are byte-stream endpoints backed by a
//! vector; [`MemLink`] is a scriptable stand-in for a serial device. They
//! exercise the pump without hardware: the link's occupancy answers, empty
//! reads, and failures can all be scripted ahead of a run, and every pause the
//! pump takes is recorded instead of slept.

use vstd::prelude::*;
use crate::endpoint::{ByteSink, ByteSource, IoFault};
use crate::link::{SerialLink, FIFO_CAPACITY};

verus! {

/// Appends all of `src` onto `dst`.
#[verifier::loop_isolation(false)]
fn append_bytes(dst: &mut Vec<u8>, src: &Vec<u8>)
    ensures
        final(dst)@ == old(dst)@ + src@,
{
    let mut i: usize = 0;
    while i < src.len()
        invariant
            0 <= i <= src.len(),
            dst@ == old(dst)@ + src@.take(i as int),
        decreases src.len() - i,
    {
        dst.push(src[i]);
        proof {
            assert(dst@ =~= old(dst)@ + src@.take(i + 1));
        }
        i = i + 1;
    }
    proof {
        assert(old(dst)@ + src@.take(src@.len() as int) =~= old(dst)@ + src@);
    }
}

/// Copies `v[start..start + n]` out into a fresh vector.
#[verifier::loop_isolation(false)]
fn copy_range(v: &Vec<u8>, start: usize, n: usize) -> (out: Vec<u8>)
    requires
        start + n <= v.len(),
    ensures
        out@ == v@.subrange(start as int, start as int + n as int),
{
    let mut out: Vec<u8> = Vec::new();
    let mut i: usize = 0;
    while i < n
        invariant
            0 <= i <= n,
            out@ == v@.subrange(start as int, start as int + i as int),
        decreases n - i,
    {
        out.push(v[start + i]);
        proof {
            assert(out@ =~= v@.subrange(start as int, start as int + i as int + 1));
        }
        i = i + 1;
    }
    out
}

/// A byte source over a vector. Reads walk the vector front to back; a read
/// cap below the caller's buffer size scripts short reads, and the source can
/// be told to fail outright.
pub struct MemSource {
    data: Vec<u8>,
    pos: usize,
    cap_per_read: usize,
    fail_reads: bool,
}

impl MemSource {
    /// A source that will yield exactly `data`.
    pub fn new(data: Vec<u8>) -> (s: Self)
        ensures
            s.remaining() == data@,
    {
        MemSource { data, pos: 0, cap_per_read: usize::MAX, fail_reads: false }
    }

    /// Caps every later read at `cap` bytes, scripting short reads.
    pub fn set_read_cap(&mut self, cap: usize)
        requires
            cap >= 1,
        ensures
            final(self).remaining() == old(self).remaining(),
    {
        self.cap_per_read = cap;
    }

    /// Makes every later read fail.
    pub fn set_fail_reads(&mut self, fail: bool)
        ensures
            final(self).remaining() == old(self).remaining(),
    {
        self.fail_reads = fail;
    }
}

impl ByteSource for MemSource {
    closed spec fn remaining(&self) -> Seq<u8> {
        if self.pos <= self.data@.len() {
            self.data@.skip(self.pos as int)
        } else {
            Seq::empty()
        }
    }

    fn read_up_to(&mut self, max: usize) -> (r: Result<Vec<u8>, IoFault>) {
        if self.fail_reads {
            return Err(IoFault);
        }
        if self.pos >= self.data.len() {
            let out: Vec<u8> = Vec::new();
            proof {
                assert(out@ =~= self.remaining().take(0));
            }
            return Ok(out);
        }
        let avail = self.data.len() - self.pos;
        let step = if self.cap_per_read >= 1 {
            self.cap_per_read
        } else {
            1
        };
        let mut n = if max < avail {
            max
        } else {
            avail
        };
        if step < n {
            n = step;
        }
        let out = copy_range(&self.data, self.pos, n);
        let ghost before = self.remaining();
        self.pos = self.pos + n;
        proof {
            assert(out@ =~= before.take(n as int));
            assert(self.remaining() =~= before.skip(n as int));
        }
        Ok(out)
    }
}

/// A byte sink over a vector, counting writes and flushes, optionally failing
/// every write.
pub struct MemSink {
    data: Vec<u8>,
    write_ops: u64,
    flush_ops: u64,
    fail_writes: bool,
}

impl MemSink {
    /// An empty sink.
    pub fn new() -> (s: Self)
        ensures
            s.received() == Seq::<u8>::empty(),
            s.writes() == 0,
            s.flushes() == 0,
    {
        MemSink { data: Vec::new(), write_ops: 0, flush_ops: 0, fail_writes: false }
    }

    /// Makes every later write fail.
    pub fn set_fail_writes(&mut self, fail: bool)
        ensures
            final(self).received() == old(self).received(),
            final(self).writes() == old(self).writes(),
            final(self).flushes() == old(self).flushes(),
    {
        self.fail_writes = fail;
    }

    /// Everything the sink has accepted so far.
    pub fn received_bytes(&self) -> (r: &Vec<u8>)
        ensures
            r@ == self.received(),
    {
        &self.data
    }

    /// How many writes have succeeded.
    pub fn write_count(&self) -> (r: u64)
        ensures
            r as nat == self.writes(),
    {
        self.write_ops
    }

    /// How many times the sink has been flushed.
    pub fn flush_count(&self) -> (r: u64)
        ensures
            r as nat == self.flushes(),
    {
        self.flush_ops
    }
}

impl ByteSink for MemSink {
    closed spec fn received(&self) -> Seq<u8> {
        self.data@
    }

    closed spec fn writes(&self) -> nat {
        self.write_ops as nat
    }

    closed spec fn flushes(&self) -> nat {
        self.flush_ops as nat
    }

    fn write_all(&mut self, data: &Vec<u8>) -> (r: Result<(), IoFault>) {
        if self.fail_writes {
            proof {
                assert(self.data@ =~= self.data@ + data@.take(0));
            }
            return Err(IoFault);
        }
        append_bytes(&mut self.data, data);
        if self.write_ops < u64::MAX {
            self.write_ops = self.write_ops + 1;
        }
        Ok(())
    }

    fn flush(&mut self) -> (r: Result<(), IoFault>) {
        if self.flush_ops < u64::MAX {
            self.flush_ops = self.flush_ops + 1;
        }
        Ok(())
    }
}

/// A scriptable in-memory serial link.
///
/// The bytes it will yield are preloaded; everything written into it is kept;
/// pauses are logged rather than slept. Occupancy answers and empty reads
/// follow script counters, each of which also backs the link's patience:
/// `tx_busy_polls` transmit-FIFO-busy answers, `rx_quiet_polls` empty
/// receive-FIFO answers, `pre_empty_reads` empty reads served before any
/// data, and `end_empty_reads` empty reads served once the preload is
/// drained. A drained link whose end counter is spent fails its reads, the
/// closest an in-memory double comes to a cancelled live device.
pub struct MemLink {
    rx: Vec<u8>,
    rx_pos: usize,
    tx: Vec<u8>,
    write_ops: u64,
    flush_ops: u64,
    pause_log: Vec<u64>,
    cfg_timeout_ms: u64,
    cfg_baud: u32,
    tx_busy_polls: u64,
    rx_quiet_polls: u64,
    pre_empty_reads: u64,
    end_empty_reads: u64,
    fail_writes: bool,
}

impl MemLink {
    /// A link preloaded with `rx`, configured with a read timeout (0 for
    /// none) and a baud rate.
    pub fn new(rx: Vec<u8>, timeout_ms: u64, baud: u32) -> (s: Self)
        ensures
            s.inbound() == rx@,
            s.outbound() == Seq::<u8>::empty(),
            s.writes() == 0,
            s.flushes() == 0,
            s.pauses() == Seq::<u64>::empty(),
            s.timeout_ms() == timeout_ms as nat,
            s.baud() == baud as nat,
    {
        MemLink {
            rx,
            rx_pos: 0,
            tx: Vec::new(),
            write_ops: 0,
            flush_ops: 0,
            pause_log: Vec::new(),
            cfg_timeout_ms: timeout_ms,
            cfg_baud: baud,
            tx_busy_polls: 0,
            rx_quiet_polls: 0,
            pre_empty_reads: 0,
            end_empty_reads: 0,
            fail_writes: false,
        }
    }

    /// Scripts the next `n` transmit-occupancy queries to answer "busy".
    pub fn set_tx_busy_polls(&mut self, n: u64)
        ensures
            final(self).inbound() == old(self).inbound(),
            final(self).outbound() == old(self).outbound(),
            final(self).writes() == old(self).writes(),
            final(self).flushes() == old(self).flushes(),
            final(self).pauses() == old(self).pauses(),
            final(self).timeout_ms() == old(self).timeout_ms(),
            final(self).baud() == old(self).baud(),
    {
        self.tx_busy_polls = n;
    }

    /// Scripts the next `n` receive-occupancy queries to answer "empty".
    pub fn set_rx_quiet_polls(&mut self, n: u64)
        ensures
            final(self).inbound() == old(self).inbound(),
            final(self).outbound() == old(self).outbound(),
            final(self).writes() == old(self).writes(),
            final(self).flushes() == old(self).flushes(),
            final(self).pauses() == old(self).pauses(),
            final(self).timeout_ms() == old(self).timeout_ms(),
            final(self).baud() == old(self).baud(),
    {
        self.rx_quiet_polls = n;
    }

    /// Scripts the next `n` reads to come back empty before any data flows.
    pub fn set_pre_empty_reads(&mut self, n: u64)
        ensures
            final(self).inbound() == old(self).inbound(),
            final(self).outbound() == old(self).outbound(),
            final(self).writes() == old(self).writes(),
            final(self).flushes() == old(self).flushes(),
            final(self).pauses() == old(self).pauses(),
            final(self).timeout_ms() == old(self).timeout_ms(),
            final(self).baud() == old(self).baud(),
    {
        self.pre_empty_reads = n;
    }

    /// Lets `n` reads come back empty once the preload is drained, instead of
    /// failing.
    pub fn set_end_empty_reads(&mut self, n: u64)
        ensures
            final(self).inbound() == old(self).inbound(),
            final(self).outbound() == old(self).outbound(),
            final(self).writes() == old(self).writes(),
            final(self).flushes() == old(self).flushes(),
            final(self).pauses() == old(self).pauses(),
            final(self).timeout_ms() == old(self).timeout_ms(),
            final(self).baud() == old(self).baud(),
    {
        self.end_empty_reads = n;
    }

    /// Makes every later write fail.
    pub fn set_fail_writes(&mut self, fail: bool)
        ensures
            final(self).inbound() == old(self).inbound(),
            final(self).outbound() == old(self).outbound(),
            final(self).writes() == old(self).writes(),
            final(self).flushes() == old(self).flushes(),
            final(self).pauses() == old(self).pauses(),
            final(self).timeout_ms() == old(self).timeout_ms(),
            final(self).baud() == old(self).baud(),
    {
        self.fail_writes = fail;
    }

    /// Everything written into the link so far.
    pub fn outbound_bytes(&self) -> (r: &Vec<u8>)
        ensures
            r@ == self.outbound(),
    {
        &self.tx
    }

    /// How many writes into the link have succeeded.
    pub fn write_count(&self) -> (r: u64)
        ensures
            r as nat == self.writes(),
    {
        self.write_ops
    }

    /// How many times the link has been flushed.
    pub fn flush_count(&self) -> (r: u64)
        ensures
            r as nat == self.flushes(),
    {
        self.flush_ops
    }

    /// Every pause taken on the link so far, in microseconds.
    pub fn pauses_taken(&self) -> (r: &Vec<u64>)
        ensures
            r@ == self.pauses(),
    {
        &self.pause_log
    }
}

impl SerialLink for MemLink {
    closed spec fn inbound(&self) -> Seq<u8> {
        if self.rx_pos <= self.rx@.len() {
            self.rx@.skip(self.rx_pos as int)
        } else {
            Seq::empty()
        }
    }

    closed spec fn outbound(&self) -> Seq<u8> {
        self.tx@
    }

    closed spec fn writes(&self) -> nat {
        self.write_ops as nat
    }

    closed spec fn flushes(&self) -> nat {
        self.flush_ops as nat
    }

    closed spec fn pauses(&self) -> Seq<u64> {
        self.pause_log@
    }

    closed spec fn timeout_ms(&self) -> nat {
        self.cfg_timeout_ms as nat
    }

    closed spec fn baud(&self) -> nat {
        self.cfg_baud as nat
    }

    closed spec fn patience(&self) -> nat {
        self.tx_busy_polls as nat + self.rx_quiet_polls as nat + self.pre_empty_reads as nat
            + self.end_empty_reads as nat
    }

    fn timeout_millis(&self) -> (r: u64) {
        self.cfg_timeout_ms
    }

    fn baud_rate(&self) -> (r: Result<u32, IoFault>) {
        Ok(self.cfg_baud)
    }

    fn bytes_to_read(&mut self) -> (r: Result<u32, IoFault>) {
        if self.rx_quiet_polls > 0 {
            self.rx_quiet_polls = self.rx_quiet_polls - 1;
            return Ok(0);
        }
        let avail = if self.rx_pos >= self.rx.len() {
            0
        } else {
            self.rx.len() - self.rx_pos
        };
        let c = if avail >= (u32::MAX as usize) {
            u32::MAX
        } else {
            avail as u32
        };
        if c == 0 && self.cfg_timeout_ms == 0 {
            // Never answer "empty" off script on a timeout-less link: report
            // one phantom byte and let the read itself settle the matter.
            return Ok(1);
        }
        Ok(c)
    }

    fn bytes_to_write(&mut self) -> (r: Result<u32, IoFault>) {
        if self.tx_busy_polls > 0 {
            self.tx_busy_polls = self.tx_busy_polls - 1;
            return Ok(FIFO_CAPACITY as u32);
        }
        Ok(0)
    }

    fn read_up_to(&mut self, max: usize) -> (r: Result<Vec<u8>, IoFault>) {
        if self.pre_empty_reads > 0 {
            self.pre_empty_reads = self.pre_empty_reads - 1;
            let out: Vec<u8> = Vec::new();
            proof {
                assert(out@ =~= self.inbound().take(0));
            }
            return Ok(out);
        }
        if self.rx_pos >= self.rx.len() {
            if self.end_empty_reads > 0 {
                self.end_empty_reads = self.end_empty_reads - 1;
                let out: Vec<u8> = Vec::new();
                proof {
                    assert(out@ =~= self.inbound().take(0));
                }
                return Ok(out);
            }
            return Err(IoFault);
        }
        let avail = self.rx.len() - self.rx_pos;
        let n = if max < avail {
            max
        } else {
            avail
        };
        let out = copy_range(&self.rx, self.rx_pos, n);
        let ghost before = self.inbound();
        self.rx_pos = self.rx_pos + n;
        proof {
            assert(out@ =~= before.take(n as int));
            assert(self.inbound() =~= before.skip(n as int));
        }
        Ok(out)
    }

    fn write_all(&mut self, data: &Vec<u8>) -> (r: Result<(), IoFault>) {
        if self.fail_writes {
            proof {
                assert(self.tx@ =~= self.tx@ + data@.take(0));
            }
            return Err(IoFault);
        }
        append_bytes(&mut self.tx, data);
        if self.write_ops < u64::MAX {
            self.write_ops = self.write_ops + 1;
        }
        Ok(())
    }

    fn flush(&mut self) -> (r: Result<(), IoFault>) {
        if self.flush_ops < u64::MAX {
            self.flush_ops = self.flush_ops + 1;
        }
        Ok(())
    }

    fn pause(&mut self, micros: u64) {
        self.pause_log.push(micros);
    }
}

} // verus!

//! The byte-pump engine.
//!
//! A [`Pump`] owns a [`SerialLink`] exclusively, together with an optional
//! total-byte limit, and drives bytes between the link and a byte-stream
//! endpoint: [`Pump::upload`] pushes a source into the link,
//! [`Pump::download`] pulls the link into a sink, and [`Pump::transfer`] is a
//! one-shot loopback self-test. Pacing is a coarse fixed-interval poll of the
//! hardware FIFO occupancy, used only when the link has no read timeout
//! configured; with a timeout the blocking calls pace themselves.

use vstd::prelude::*;
use crate::endpoint::{ByteSink, ByteSource, IoFault};
use crate::link::{same_config, SerialLink, FIFO_CAPACITY};

verus! {

/// Size of the working buffer of one read/write cycle: a quarter of the
/// nominal FIFO capacity, small enough to keep polling decisions responsive.
pub const CHUNK_CAPACITY: usize = FIFO_CAPACITY / 4;

/// How long one backpressure poll sleeps, in microseconds.
pub const POLL_MICROS: u64 = 100;

/// How many bytes an operation moves in total: all of `avail`, or the limit
/// where one is set and the source offers more.
pub open spec fn capped_len(limit: Option<usize>, avail: nat) -> nat {
    match limit {
        Some(l) => {
            if avail <= l as nat {
                avail
            } else {
                l as nat
            }
        },
        None => avail,
    }
}

/// The loopback wait in microseconds: `1024 / (baud / 4096)` milliseconds, a
/// heuristic that scales the expected round-trip time of a FIFO-sized block
/// inversely with transmission speed.
pub open spec fn loopback_wait_micros(baud: nat) -> nat
    recommends
        baud >= 4096,
{
    (1024nat / (baud / 4096)) * 1000
}

/// `after` is `before` plus some number of fixed-interval backpressure polls
/// and nothing else.
pub open spec fn polls_appended(before: Seq<u64>, after: Seq<u64>) -> bool {
    &&& after.len() >= before.len()
    &&& after.take(before.len() as int) == before
    &&& forall|i: int| before.len() <= i < after.len() ==> after[i] == POLL_MICROS
}

/// Taking `a + b` elements is taking `a`, then `b` of what follows.
proof fn lemma_split_take(s: Seq<u8>, a: int, b: int)
    requires
        0 <= a,
        0 <= b,
        a + b <= s.len(),
    ensures
        s.take(a + b) == s.take(a) + s.skip(a).take(b),
{
    assert(s.take(a + b) =~= s.take(a) + s.skip(a).take(b));
}

/// A destination that held `base` plus the first `done` bytes of `src`, and
/// then grew by some prefix of the next `data.len()` bytes of `src`, holds
/// `base` plus some prefix of `src`.
proof fn lemma_prefix_growth(base: Seq<u8>, done: int, data: Seq<u8>, src: Seq<u8>, grown: Seq<u8>)
    requires
        0 <= done,
        done + data.len() <= src.len(),
        data == src.skip(done).take(data.len() as int),
        crate::endpoint::grows_by_prefix(grown, base + src.take(done), data),
    ensures
        exists|k: int| 0 <= k <= done + data.len() && grown == base + src.take(k),
{
    let kk = choose|kk: int|
        0 <= kk <= data.len() && grown == (base + src.take(done)) + data.take(kk);
    assert(data.take(kk) =~= src.skip(done).take(kk));
    assert((base + src.take(done)) + src.skip(done).take(kk) =~= base + src.take(done + kk));
    assert(grown == base + src.take(done + kk));
}

/// Caps a chunk of `n` fresh bytes so that the running total `done` lands
/// exactly on the limit and never past it; without a limit the chunk passes
/// whole.
pub fn chunk_budget(n: usize, limit: Option<usize>, done: usize) -> (c: usize)
    requires
        match limit {
            Some(l) => done <= l,
            None => true,
        },
    ensures
        c <= n,
        match limit {
            Some(l) => done + c <= l && (c == n || done + c == l),
            None => c == n,
        },
{
    match limit {
        Some(l) => {
            let room = l - done;
            if n < room {
                n
            } else {
                room
            }
        },
        None => n,
    }
}

/// The pump: an exclusively owned serial link and an optional total-byte
/// limit. One pump runs one operation at a time; upload and download never
/// overlap on the same link.
pub struct Pump<L: SerialLink> {
    /// The owned link.
    pub link: L,
    /// The optional total-byte limit: how many bytes one operation may move
    /// in total before stopping; absent means unbounded.
    pub limit: Option<usize>,
}

impl<L: SerialLink> Pump<L> {
    /// Builds a pump around a live link, with an optional total-byte limit.
    pub fn new(link: L, limit: Option<usize>) -> (p: Self)
        ensures
            p.link == link,
            p.limit == limit,
    {
        Pump { link, limit }
    }

    /// Copies bytes from `reader` into the link until the source ends, the
    /// limit (if set) is reached, or an I/O failure aborts the operation.
    ///
    /// On success the link has received exactly the first
    /// `capped_len(limit, source length)` bytes of the source. Whatever the
    /// outcome, the link only ever gains a prefix of the source within the
    /// limit, every successful chunk write is followed by a flush, and the
    /// only pauses taken are fixed-interval backpressure polls, none at all
    /// when a read timeout is configured.
    #[verifier::loop_isolation(false)]
    pub fn upload<S: ByteSource>(&mut self, reader: &mut S) -> (r: Result<(), IoFault>)
        ensures
            final(self).limit == old(self).limit,
            same_config(old(self).link, final(self).link),
            final(self).link.inbound() == old(self).link.inbound(),
            old(self).link.writes() == old(self).link.flushes() ==> final(self).link.writes()
                == final(self).link.flushes(),
            polls_appended(old(self).link.pauses(), final(self).link.pauses()),
            old(self).link.timeout_ms() != 0 ==> final(self).link.pauses() == old(self).link.pauses(),
            exists|k: int|
                0 <= k <= capped_len(old(self).limit, old(reader).remaining().len()) && final(self).link.outbound() == old(self).link.outbound() + old(reader).remaining().take(k),
            exists|j: int|
                0 <= j <= old(reader).remaining().len() && final(reader).remaining() == old(reader).remaining().skip(j),
            match r {
                Ok(()) => {
                    &&& final(self).link.outbound() == old(self).link.outbound() + old(reader).remaining().take(
                        capped_len(old(self).limit, old(reader).remaining().len()) as int,
                    )
                    &&& (capped_len(old(self).limit, old(reader).remaining().len()) == old(reader).remaining().len() ==> final(reader).remaining().len() == 0)
                },
                Err(_) => true,
            },
    {
        let ghost base_out = self.link.outbound();
        let ghost base_in = self.link.inbound();
        let ghost base_rem = reader.remaining();
        let ghost base_pauses = self.link.pauses();
        let ghost base_writes = self.link.writes();
        let ghost base_flushes = self.link.flushes();
        let ghost cfg_timeout = self.link.timeout_ms();
        let ghost cfg_baud = self.link.baud();
        let ghost limit0 = self.limit;
        let mut counted: usize = 0;
        let ghost mut sent: int = 0;
        proof {
            assert(base_pauses.take(base_pauses.len() as int) =~= base_pauses);
        }
        loop
            invariant
                0 <= sent <= base_rem.len(),
                match limit0 {
                    Some(l) => counted == sent && sent <= l,
                    None => true,
                },
                self.limit == limit0,
                reader.remaining() == base_rem.skip(sent),
                self.link.outbound() == base_out + base_rem.take(sent),
                self.link.inbound() == base_in,
                base_writes == base_flushes ==> self.link.writes() == self.link.flushes(),
                polls_appended(base_pauses, self.link.pauses()),
                self.link.timeout_ms() == cfg_timeout,
                self.link.baud() == cfg_baud,
                cfg_timeout != 0 ==> self.link.pauses() == base_pauses,
            decreases reader.remaining().len(), self.link.patience(),
        {
            let tx_fifo = match self.link.bytes_to_write() {
                Ok(c) => c,
                Err(e) => { return Err(e) },
            };
            if self.link.timeout_millis() == 0 && tx_fifo > (FIFO_CAPACITY / 2) as u32 {
                // Backpressure: without a timeout, a write into a
                // half-full transmit FIFO could block or drop; sleep and
                // re-poll without consuming input.
                self.link.pause(POLL_MICROS);
                proof {
                    assert(self.link.pauses().take(base_pauses.len() as int) =~= base_pauses);
                }
                continue ;
            }
            let chunk = match reader.read_up_to(CHUNK_CAPACITY) {
                Ok(c) => c,
                Err(e) => { return Err(e) },
            };
            if chunk.len() == 0 {
                // End of stream: success with whatever was already sent.
                proof {
                    assert(base_rem.skip(sent).len() == 0);
                    assert(sent == base_rem.len());
                    assert(base_rem.take(sent) =~= base_rem);
                }
                return Ok(());
            }
            let ghost fresh = chunk@.len() as int;
            let budget = chunk_budget(chunk.len(), self.limit, counted);
            let mut payload = chunk;
            payload.truncate(budget);
            proof {
                assert(payload@ =~= base_rem.skip(sent).take(budget as int));
            }
            match self.link.write_all(&payload) {
                Ok(()) => {},
                Err(e) => {
                    proof {
                        lemma_prefix_growth(
                            base_out,
                            sent,
                            payload@,
                            base_rem,
                            self.link.outbound(),
                        );
                        assert(reader.remaining() =~= base_rem.skip(sent + fresh));
                    }
                    return Err(e);
                },
            }
            match self.link.flush() {
                Ok(()) => {},
                Err(e) => {
                    proof {
                        lemma_split_take(base_rem, sent, budget as int);
                        assert(reader.remaining() =~= base_rem.skip(sent + fresh));
                    }
                    return Err(e);
                },
            }
            proof {
                lemma_split_take(base_rem, sent, budget as int);
            }
            if let Some(l) = self.limit {
                counted = counted + budget;
                if counted == l {
                    // The running total lands exactly on the limit.
                    proof {
                        sent = sent + budget;
                        assert(capped_len(limit0, base_rem.len()) == l as nat);
                        if l as nat == base_rem.len() {
                            assert(reader.remaining() =~= base_rem.skip(sent));
                        }
                    }
                    return Ok(());
                }
            }
            proof {
                sent = sent + budget;
                assert(reader.remaining() =~= base_rem.skip(sent));
            }
        }
    }

    /// Copies bytes from the link into `writer` until the limit (if set) is
    /// reached or an I/O failure aborts the operation. A live link has no
    /// end-of-stream, so without a limit this never completes on its own:
    /// empty reads are transient and are retried.
    ///
    /// On success a limit was set and the sink has received exactly its first
    /// `limit` inbound bytes. Whatever the outcome, the sink only ever gains
    /// a prefix of the inbound bytes within the limit, every successful chunk
    /// write is followed by a flush, nothing is written to the link, and the
    /// only pauses taken are fixed-interval polls of the empty receive FIFO,
    /// none at all when a read timeout is configured.
    #[verifier::loop_isolation(false)]
    pub fn download<W: ByteSink>(&mut self, writer: &mut W) -> (r: Result<(), IoFault>)
        ensures
            final(self).limit == old(self).limit,
            same_config(old(self).link, final(self).link),
            final(self).link.outbound() == old(self).link.outbound(),
            final(self).link.writes() == old(self).link.writes(),
            final(self).link.flushes() == old(self).link.flushes(),
            old(writer).writes() == old(writer).flushes() ==> final(writer).writes() == final(writer).flushes(),
            polls_appended(old(self).link.pauses(), final(self).link.pauses()),
            old(self).link.timeout_ms() != 0 ==> final(self).link.pauses() == old(self).link.pauses(),
            exists|k: int|
                0 <= k <= capped_len(old(self).limit, old(self).link.inbound().len()) && final(writer).received() == old(writer).received() + old(self).link.inbound().take(k),
            exists|j: int|
                0 <= j <= old(self).link.inbound().len() && final(self).link.inbound() == old(self).link.inbound().skip(j),
            match r {
                Ok(()) => match old(self).limit {
                    Some(l) => l <= old(self).link.inbound().len() && final(writer).received()
                        == old(writer).received() + old(self).link.inbound().take(l as int),
                    None => false,
                },
                Err(_) => true,
            },
    {
        let ghost base_in = self.link.inbound();
        let ghost base_out = self.link.outbound();
        let ghost base_recv = writer.received();
        let ghost base_pauses = self.link.pauses();
        let ghost base_link_writes = self.link.writes();
        let ghost base_link_flushes = self.link.flushes();
        let ghost base_writes = writer.writes();
        let ghost base_flushes = writer.flushes();
        let ghost cfg_timeout = self.link.timeout_ms();
        let ghost cfg_baud = self.link.baud();
        let ghost limit0 = self.limit;
        let mut counted: usize = 0;
        let ghost mut got: int = 0;
        proof {
            assert(base_pauses.take(base_pauses.len() as int) =~= base_pauses);
        }
        loop
            invariant
                0 <= got <= base_in.len(),
                match limit0 {
                    Some(l) => counted == got && got <= l,
                    None => true,
                },
                self.limit == limit0,
                self.link.inbound() == base_in.skip(got),
                writer.received() == base_recv + base_in.take(got),
                self.link.outbound() == base_out,
                self.link.writes() == base_link_writes,
                self.link.flushes() == base_link_flushes,
                base_writes == base_flushes ==> writer.writes() == writer.flushes(),
                polls_appended(base_pauses, self.link.pauses()),
                self.link.timeout_ms() == cfg_timeout,
                self.link.baud() == cfg_baud,
                cfg_timeout != 0 ==> self.link.pauses() == base_pauses,
            decreases self.link.inbound().len(), self.link.patience(),
        {
            let rx_fifo = match self.link.bytes_to_read() {
                Ok(c) => c,
                Err(e) => { return Err(e) },
            };
            if self.link.timeout_millis() == 0 && rx_fifo == 0 {
                // Poll mode: without a timeout, a blocking read of an empty
                // receive FIFO could stall forever; sleep and re-poll.
                self.link.pause(POLL_MICROS);
                proof {
                    assert(self.link.pauses().take(base_pauses.len() as int) =~= base_pauses);
                }
                continue ;
            }
            let chunk = match self.link.read_up_to(CHUNK_CAPACITY) {
                Ok(c) => c,
                Err(e) => { return Err(e) },
            };
            if chunk.len() == 0 {
                // Transient: the link stays open, so an empty read is not
                // end-of-stream.
                proof {
                    assert(self.link.inbound() =~= base_in.skip(got));
                }
                continue ;
            }
            let ghost fresh = chunk@.len() as int;
            let budget = chunk_budget(chunk.len(), self.limit, counted);
            let mut payload = chunk;
            payload.truncate(budget);
            proof {
                assert(payload@ =~= base_in.skip(got).take(budget as int));
            }
            match writer.write_all(&payload) {
                Ok(()) => {},
                Err(e) => {
                    proof {
                        lemma_prefix_growth(base_recv, got, payload@, base_in, writer.received());
                        assert(self.link.inbound() =~= base_in.skip(got + fresh));
                    }
                    return Err(e);
                },
            }
            match writer.flush() {
                Ok(()) => {},
                Err(e) => {
                    proof {
                        lemma_split_take(base_in, got, budget as int);
                        assert(self.link.inbound() =~= base_in.skip(got + fresh));
                    }
                    return Err(e);
                },
            }
            proof {
                lemma_split_take(base_in, got, budget as int);
            }
            if let Some(l) = self.limit {
                counted = counted + budget;
                if counted == l {
                    proof {
                        got = got + budget;
                        assert(capped_len(limit0, base_in.len()) == l as nat);
                    }
                    return Ok(());
                }
            }
            proof {
                got = got + fresh;
                assert(self.link.inbound() =~= base_in.skip(got));
                assert(writer.received() =~= base_recv + base_in.take(got));
            }
        }
    }

    /// Loopback self-test: writes the entire `source` into the link, waits
    /// for the bytes to physically propagate, then copies everything the link
    /// offers back into `sink`. The wait scales inversely with the baud rate:
    /// `1024 / (baud / 4096)` milliseconds. No chunk limit, no flushing, no
    /// backpressure machinery: bulk copies and a single wait, since this is a
    /// one-shot diagnostic rather than a sustained pump.
    ///
    /// A baud rate below 4096 would make the wait computation divide by zero,
    /// so such links are excluded.
    #[verifier::loop_isolation(false)]
    pub fn transfer<S: ByteSource, W: ByteSink>(&mut self, source: &mut S, sink: &mut W) -> (r:
        Result<(), IoFault>)
        requires
            old(self).link.baud() >= 4096,
        ensures
            final(self).limit == old(self).limit,
            same_config(old(self).link, final(self).link),
            exists|k: int|
                0 <= k <= old(source).remaining().len() && final(self).link.outbound() == old(self).link.outbound() + old(source).remaining().take(k),
            match r {
                Ok(()) => {
                    &&& final(self).link.outbound() == old(self).link.outbound() + old(source).remaining()
                    &&& final(source).remaining().len() == 0
                    &&& final(self).link.pauses() == old(self).link.pauses().push(
                        loopback_wait_micros(old(self).link.baud()) as u64,
                    )
                    &&& exists|k: int|
                        0 <= k <= old(self).link.inbound().len() && final(sink).received() == old(sink).received() + old(self).link.inbound().take(k) && final(self).link.inbound() == old(self).link.inbound().skip(k)
                },
                Err(_) => true,
            },
    {
        let ghost base_out = self.link.outbound();
        let ghost base_in = self.link.inbound();
        let ghost base_rem = source.remaining();
        let ghost base_recv = sink.received();
        let ghost base_pauses = self.link.pauses();
        let ghost cfg_timeout = self.link.timeout_ms();
        let ghost cfg_baud = self.link.baud();
        let ghost limit0 = self.limit;
        let baud = match self.link.baud_rate() {
            Ok(b) => b,
            Err(e) => {
                proof {
                    assert(self.link.outbound() =~= base_out + base_rem.take(0));
                }
                return Err(e);
            },
        };
        let per_block: u32 = baud / 4096;
        assert(per_block >= 1);
        let wait_ms: u64 = 1024 / (per_block as u64);
        let wait_us: u64 = wait_ms * 1000;
        assert(wait_us == loopback_wait_micros(cfg_baud) as u64);

        // Push the whole source out onto the link.
        let ghost mut copied: int = 0;
        let mut ended = false;
        while !ended
            invariant
                0 <= copied <= base_rem.len(),
                ended ==> copied == base_rem.len(),
                source.remaining() == base_rem.skip(copied),
                self.link.outbound() == base_out + base_rem.take(copied),
                self.link.inbound() == base_in,
                self.link.pauses() == base_pauses,
                self.link.timeout_ms() == cfg_timeout,
                self.link.baud() == cfg_baud,
                self.limit == limit0,
                sink.received() == base_recv,
            decreases (if ended { 0int } else { 1int }), source.remaining().len(),
        {
            let chunk = match source.read_up_to(CHUNK_CAPACITY) {
                Ok(c) => c,
                Err(e) => { return Err(e) },
            };
            if chunk.len() == 0 {
                ended = true;
            } else {
                match self.link.write_all(&chunk) {
                    Ok(()) => {},
                    Err(e) => {
                        proof {
                            lemma_prefix_growth(
                                base_out,
                                copied,
                                chunk@,
                                base_rem,
                                self.link.outbound(),
                            );
                        }
                        return Err(e);
                    },
                }
                proof {
                    lemma_split_take(base_rem, copied, chunk@.len() as int);
                    copied = copied + chunk@.len();
                    assert(source.remaining() =~= base_rem.skip(copied));
                }
            }
        }
        proof {
            assert(base_rem.take(copied) =~= base_rem);
        }

        // Let the bytes propagate around the loop.
        self.link.pause(wait_us);

        // Copy everything the link offers back out.
        let ghost mut got: int = 0;
        let mut drained = false;
        while !drained
            invariant
                0 <= got <= base_in.len(),
                self.link.inbound() == base_in.skip(got),
                sink.received() == base_recv + base_in.take(got),
                self.link.outbound() == base_out + base_rem,
                self.link.pauses() == base_pauses.push(wait_us),
                self.link.timeout_ms() == cfg_timeout,
                self.link.baud() == cfg_baud,
                self.limit == limit0,
                source.remaining().len() == 0,
                wait_us == loopback_wait_micros(cfg_baud) as u64,
            decreases (if drained { 0int } else { 1int }), self.link.inbound().len(),
        {
            let chunk = match self.link.read_up_to(CHUNK_CAPACITY) {
                Ok(c) => c,
                Err(e) => { return Err(e) },
            };
            if chunk.len() == 0 {
                drained = true;
            } else {
                match sink.write_all(&chunk) {
                    Ok(()) => {},
                    Err(e) => {
                        proof {
                            lemma_prefix_growth(base_recv, got, chunk@, base_in, sink.received());
                        }
                        return Err(e);
                    },
                }
                proof {
                    lemma_split_take(base_in, got, chunk@.len() as int);
                    got = got + chunk@.len();
                    assert(self.link.inbound() =~= base_in.skip(got));
                }
            }
        }
        Ok(())
    }
}

} // verus!

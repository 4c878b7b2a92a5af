//! The serial-link capability the pump drives.
//!
//! A link is an open, configured serial device: byte-level read and write, an
//! explicit flush, occupancy queries for the hardware transmit and receive
//! FIFOs, and the configured read timeout and baud rate. An in-memory
//! implementation lives in [`crate::mem`]; an adapter over a real driver
//! belongs to the embedding program.

use vstd::prelude::*;
use crate::endpoint::{grows_by_prefix, sat_inc, IoFault};

verus! {

/// Nominal capacity, in bytes, of the link's hardware FIFOs.
pub const FIFO_CAPACITY: usize = 256;

/// The transmit FIFO holds more than half its nominal capacity: writing
/// another working buffer into it risks blocking or overrun.
pub open spec fn tx_backpressured(c: u32) -> bool {
    c as int > FIFO_CAPACITY as int / 2
}

/// The configuration of a link never changes underneath one operation.
pub open spec fn same_config<L: SerialLink>(a: L, b: L) -> bool {
    &&& a.timeout_ms() == b.timeout_ms()
    &&& a.baud() == b.baud()
}

/// An open serial device.
///
/// The occupancy queries promise nothing about their counts: the hardware
/// FIFOs drain and fill on their own schedule, so two queries on one state may
/// answer differently. Reads may likewise come back empty while inbound bytes
/// remain; an empty read is transient, not end-of-stream.
pub trait SerialLink: Sized {
    /// The bytes the device will yield to `read_up_to`, in order. A live
    /// device's adapter leaves the default: nothing is known of what it will
    /// yield.
    open spec fn inbound(&self) -> Seq<u8> {
        Seq::empty()
    }

    /// All bytes written into the device so far, in order.
    open spec fn outbound(&self) -> Seq<u8> {
        Seq::empty()
    }

    /// How many writes have succeeded.
    open spec fn writes(&self) -> nat {
        0
    }

    /// How many times `flush` has been called.
    open spec fn flushes(&self) -> nat {
        0
    }

    /// The pauses taken on this link so far, each in microseconds.
    open spec fn pauses(&self) -> Seq<u64> {
        Seq::empty()
    }

    /// The configured read timeout in milliseconds; 0 means none configured.
    open spec fn timeout_ms(&self) -> nat {
        0
    }

    /// The configured baud rate.
    open spec fn baud(&self) -> nat {
        0
    }

    /// A ghost bound on how many more times this link may report itself
    /// unready — a transmit FIFO beyond the backpressure threshold with no
    /// timeout configured, an empty receive FIFO with no timeout configured,
    /// or an empty read — before it must make progress or fail. Every such
    /// report strictly consumes it, and nothing replenishes it, which is what
    /// makes the pump's pacing loops checkably finite. The pump itself never
    /// gives up: it polls for as long as the link keeps reporting unready.
    open spec fn patience(&self) -> nat {
        0
    }

    /// The configured read timeout in milliseconds.
    fn timeout_millis(&self) -> (r: u64)
        ensures
            r as nat == self.timeout_ms(),
    ;

    /// The configured baud rate.
    fn baud_rate(&self) -> (r: Result<u32, IoFault>)
        ensures
            match r {
                Ok(b) => b as nat == self.baud(),
                Err(_) => true,
            },
    ;

    /// How many inbound bytes sit in the receive FIFO right now. Reporting an
    /// empty FIFO on a link with no timeout configured consumes patience.
    fn bytes_to_read(&mut self) -> (r: Result<u32, IoFault>)
        ensures
            final(self).patience() <= old(self).patience(),
            match r {
                Ok(c) => c == 0 && old(self).timeout_ms() == 0 ==> final(self).patience() < old(self).patience(),
                Err(_) => true,
            },
            final(self).inbound() == old(self).inbound(),
            final(self).outbound() == old(self).outbound(),
            final(self).writes() == old(self).writes(),
            final(self).flushes() == old(self).flushes(),
            final(self).pauses() == old(self).pauses(),
            final(self).timeout_ms() == old(self).timeout_ms(),
            final(self).baud() == old(self).baud(),
    ;

    /// How many outbound bytes wait in the transmit FIFO right now. Reporting
    /// a backpressured FIFO on a link with no timeout configured consumes
    /// patience.
    fn bytes_to_write(&mut self) -> (r: Result<u32, IoFault>)
        ensures
            final(self).patience() <= old(self).patience(),
            match r {
                Ok(c) => tx_backpressured(c) && old(self).timeout_ms() == 0 ==> final(self).patience() < old(self).patience(),
                Err(_) => true,
            },
            final(self).inbound() == old(self).inbound(),
            final(self).outbound() == old(self).outbound(),
            final(self).writes() == old(self).writes(),
            final(self).flushes() == old(self).flushes(),
            final(self).pauses() == old(self).pauses(),
            final(self).timeout_ms() == old(self).timeout_ms(),
            final(self).baud() == old(self).baud(),
    ;

    /// Reads up to `max` inbound bytes; may come back empty at any time, and
    /// coming back empty consumes patience.
    fn read_up_to(&mut self, max: usize) -> (r: Result<Vec<u8>, IoFault>)
        requires
            max >= 1,
        ensures
            final(self).patience() <= old(self).patience(),
            final(self).outbound() == old(self).outbound(),
            final(self).writes() == old(self).writes(),
            final(self).flushes() == old(self).flushes(),
            final(self).pauses() == old(self).pauses(),
            final(self).timeout_ms() == old(self).timeout_ms(),
            final(self).baud() == old(self).baud(),
            match r {
                Ok(chunk) => {
                    &&& chunk@.len() <= max
                    &&& chunk@.len() <= old(self).inbound().len()
                    &&& chunk@ == old(self).inbound().take(chunk@.len() as int)
                    &&& final(self).inbound() == old(self).inbound().skip(chunk@.len() as int)
                    &&& chunk@.len() == 0 ==> final(self).patience() < old(self).patience()
                },
                Err(_) => final(self).inbound() == old(self).inbound(),
            },
    ;

    /// Writes all of `data` into the device, or fails having written some
    /// prefix of it.
    fn write_all(&mut self, data: &Vec<u8>) -> (r: Result<(), IoFault>)
        ensures
            final(self).patience() <= old(self).patience(),
            final(self).inbound() == old(self).inbound(),
            final(self).flushes() == old(self).flushes(),
            final(self).pauses() == old(self).pauses(),
            final(self).timeout_ms() == old(self).timeout_ms(),
            final(self).baud() == old(self).baud(),
            match r {
                Ok(()) => {
                    &&& final(self).outbound() == old(self).outbound() + data@
                    &&& final(self).writes() == sat_inc(old(self).writes())
                },
                Err(_) => {
                    &&& final(self).writes() == old(self).writes()
                    &&& grows_by_prefix(final(self).outbound(), old(self).outbound(), data@)
                },
            },
    ;

    /// Pushes buffered outbound bytes toward the wire. Alters no content
    /// either way.
    fn flush(&mut self) -> (r: Result<(), IoFault>)
        ensures
            final(self).patience() <= old(self).patience(),
            final(self).inbound() == old(self).inbound(),
            final(self).outbound() == old(self).outbound(),
            final(self).writes() == old(self).writes(),
            final(self).flushes() == sat_inc(old(self).flushes()),
            final(self).pauses() == old(self).pauses(),
            final(self).timeout_ms() == old(self).timeout_ms(),
            final(self).baud() == old(self).baud(),
    ;

    /// Suspends the caller for `micros` microseconds: the pump's coarse
    /// busy-wait while the device is not ready.
    fn pause(&mut self, micros: u64)
        ensures
            final(self).patience() <= old(self).patience(),
            final(self).inbound() == old(self).inbound(),
            final(self).outbound() == old(self).outbound(),
            final(self).writes() == old(self).writes(),
            final(self).flushes() == old(self).flushes(),
            final(self).pauses() == old(self).pauses().push(micros),
            final(self).timeout_ms() == old(self).timeout_ms(),
            final(self).baud() == old(self).baud(),
    ;
}

} // verus!

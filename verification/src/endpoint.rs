//! Byte-stream endpoints: the source a pump drains and the sink it fills.
//!
//! The traits are deliberately narrow so that the pump's logic is identical
//! whether the endpoint is a file, a standard stream, or an in-memory double.

use vstd::prelude::*;

verus! {

/// A fatal endpoint or link failure. The pump aborts the current operation on
/// the first such failure and propagates it; bytes already delivered stay
/// delivered.
#[derive(Clone, Copy, Debug, PartialEq, Eq, Structural)]
pub struct IoFault;

/// A call counter that sticks at `u64::MAX` instead of wrapping.
pub open spec fn sat_inc(n: nat) -> nat {
    if n < u64::MAX as nat {
        n + 1
    } else {
        n
    }
}

/// `new` extends `base` by some prefix of `data`: what a possibly-failing
/// write leaves behind. No write is ever rolled back.
pub open spec fn grows_by_prefix(new: Seq<u8>, base: Seq<u8>, data: Seq<u8>) -> bool {
    exists|k: int| 0 <= k <= data.len() && new == base + data.take(k)
}

/// A supplier of bytes: a file, standard input, or a test double.
pub trait ByteSource {
    /// The bytes this source will still yield, in order. A live stream's
    /// adapter leaves the default: nothing is known of what it will yield.
    open spec fn remaining(&self) -> Seq<u8> {
        Seq::empty()
    }

    /// Reads up to `max` of the remaining bytes; the result is empty exactly
    /// when nothing remains, so an empty read signals end-of-stream.
    fn read_up_to(&mut self, max: usize) -> (r: Result<Vec<u8>, IoFault>)
        requires
            max >= 1,
        ensures
            match r {
                Ok(chunk) => {
                    &&& chunk@.len() <= max
                    &&& chunk@.len() <= old(self).remaining().len()
                    &&& chunk@ == old(self).remaining().take(chunk@.len() as int)
                    &&& final(self).remaining() == old(self).remaining().skip(
                        chunk@.len() as int,
                    )
                    &&& (chunk@.len() == 0 <==> old(self).remaining().len() == 0)
                },
                Err(_) => final(self).remaining() == old(self).remaining(),
            },
    ;
}

/// A consumer of bytes: a file, standard output, or a test double.
///
/// `writes` counts the successful `write_all` calls; `flushes` counts every
/// `flush` call, successful or not. The pump guarantees that the two counters
/// stay in lockstep across a whole operation.
pub trait ByteSink {
    /// All bytes this sink has accepted, in order. A live stream's adapter
    /// leaves the default: nothing is known of what it has taken.
    open spec fn received(&self) -> Seq<u8> {
        Seq::empty()
    }

    /// How many writes have succeeded.
    open spec fn writes(&self) -> nat {
        0
    }

    /// How many times `flush` has been called.
    open spec fn flushes(&self) -> nat {
        0
    }

    /// Appends all of `data`, or fails having appended some prefix of it.
    fn write_all(&mut self, data: &Vec<u8>) -> (r: Result<(), IoFault>)
        ensures
            final(self).flushes() == old(self).flushes(),
            match r {
                Ok(()) => {
                    &&& final(self).received() == old(self).received() + data@
                    &&& final(self).writes() == sat_inc(old(self).writes())
                },
                Err(_) => {
                    &&& final(self).writes() == old(self).writes()
                    &&& grows_by_prefix(final(self).received(), old(self).received(), data@)
                },
            },
    ;

    /// Pushes buffered bytes onward. Alters no content either way.
    fn flush(&mut self) -> (r: Result<(), IoFault>)
        ensures
            final(self).received() == old(self).received(),
            final(self).writes() == old(self).writes(),
            final(self).flushes() == sat_inc(old(self).flushes()),
    ;
}

} // verus!

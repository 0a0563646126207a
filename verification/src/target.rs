//! What a target answers when it is handed a request: a result at once, or
//! work on its backing store whose outcome becomes the result.

use crate::loopdev::{loop_handling, LoopTarget};
use crate::null::null_result;
use crate::protocol::IoDescriptor;
use crate::zoned::ZonedTarget;
use vstd::prelude::*;

verus! {

/// Status of a request that failed on the backing store or broke a zone's
/// write order: the result is its negative.
pub const EIO: i32 = 5;

/// Status of a request that the target cannot make sense of: the result is
/// its negative.
pub const EINVAL: i32 = 22;

/// What is done to a backing store.
#[derive(Clone, Copy, Debug, PartialEq, Eq, Structural)]
pub enum BackingOp {
    Read,
    Write,
    Flush,
}

/// One piece of work on a backing store. It names its own place, so that the
/// tags of a queue can have such work under way at the same time without
/// sharing a cursor.
#[derive(Clone, Copy, Debug, PartialEq, Eq, Structural)]
pub struct BackingIo {
    pub op: BackingOp,
    /// Byte offset in the backing store; zero for a flush.
    pub offset: u64,
    /// Number of bytes; zero for a flush.
    pub len: u64,
}

/// What a target makes of a request.
#[derive(Clone, Copy, Debug, PartialEq, Eq, Structural)]
pub enum Handling {
    /// The request is over; this is its result.
    Done(i32),
    /// The request needs this work on the backing store, between the tag's
    /// buffer and the store; `backing_result` turns its outcome into the
    /// result.
    Backing(BackingIo),
    /// As `Backing`, for data appended to a zone: the target chose the place,
    /// and `sector` is where the data starts, to be reported with the result.
    Append { io: BackingIo, sector: u64 },
}

/// The result of a request whose backing work ended with `outcome`: the
/// number of bytes transferred or a negative status, as the store reported
/// it. A report that is neither, because it is more than was asked for or
/// than a result value can hold, counts as an I/O error.
pub open spec fn spec_backing_result(io: BackingIo, outcome: i64) -> i32 {
    if i32::MIN <= outcome < 0 {
        outcome as i32
    } else if 0 <= outcome <= io.len && outcome <= i32::MAX {
        outcome as i32
    } else {
        (-EIO) as i32
    }
}

#[verifier::when_used_as_spec(spec_backing_result)]
pub fn backing_result(io: BackingIo, outcome: i64) -> (res: i32)
    ensures
        res == spec_backing_result(io, outcome),
        outcome < 0 ==> res < 0,
        res >= 0 ==> res == outcome && res <= io.len,
{
    if outcome < 0 {
        if outcome >= i32::MIN as i64 {
            outcome as i32
        } else {
            -EIO
        }
    } else if outcome as u64 <= io.len && outcome <= i32::MAX as i64 {
        outcome as i32
    } else {
        -EIO
    }
}

/// A target: what stands behind a device and answers its requests. Each
/// kind keeps what it needs for that and nothing of any tag, so one target
/// serves all the tags of its queues, one request at a time.
#[derive(Debug)]
pub enum Target {
    /// Holds nothing; every request succeeds at once.
    Null,
    /// A regular file.
    Loop(LoopTarget),
    /// Zones, each written only at its write pointer.
    Zoned(ZonedTarget),
}

impl Target {
    /// What the target makes of a request.
    pub open spec fn handling(&self, iod: IoDescriptor) -> Handling {
        match self {
            Target::Null => Handling::Done(null_result(iod) as i32),
            Target::Loop(file) => loop_handling(iod, file@),
            Target::Zoned(zones) => zones@.handling(iod),
        }
    }

    /// The target after a request: only a zoned target changes, and only in
    /// its write pointers.
    pub open spec fn follows(&self, before: &Target, iod: IoDescriptor) -> bool {
        match before {
            Target::Null => self is Null,
            Target::Loop(file) => self == before,
            Target::Zoned(zones) => self is Zoned && self->Zoned_0@ == zones@.after(iod),
        }
    }

    /// Handles one request.
    pub fn handle(&mut self, iod: &IoDescriptor) -> (r: Handling)
        ensures
            r == old(self).handling(*iod),
            final(self).follows(old(self), *iod),
    {
        match self {
            Target::Null => Handling::Done(crate::null::handle_io(iod)),
            Target::Loop(file) => file.handle_io(iod),
            Target::Zoned(zones) => zones.handle_io(iod),
        }
    }
}

} // verus!

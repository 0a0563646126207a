//! The command ring protocol spoken between a queue and the kernel driver:
//! opcodes, commands, completions and I/O descriptors, as plain values.

use vstd::prelude::*;

verus! {

/// Opcode number that arms a tag's slot for the first time.
pub const UBLK_IO_FETCH_REQ: u32 = 0x20;

/// Opcode number that reports the previous result and re-arms the slot.
pub const UBLK_IO_COMMIT_AND_FETCH_REQ: u32 = 0x21;

/// Result code of a completion that tells the task its device is stopping.
pub const UBLK_IO_RES_ABORT: i32 = -19;

/// log2 of the sector size.
pub const SECTOR_SHIFT: u32 = 9;

/// Number of bytes in one sector, the unit of `start_sector` and `nr_sectors`.
pub const SECTOR_SIZE: u32 = 512;

/// Largest number of tags one queue can have.
pub const UBLK_MAX_QUEUE_DEPTH: u16 = 4096;

/// Largest number of queues one device can have.
pub const UBLK_MAX_NR_QUEUES: u16 = 4096;

pub const UBLK_IO_OP_READ: u8 = 0;

pub const UBLK_IO_OP_WRITE: u8 = 1;

pub const UBLK_IO_OP_FLUSH: u8 = 2;

pub const UBLK_IO_OP_DISCARD: u8 = 3;

pub const UBLK_IO_OP_WRITE_SAME: u8 = 4;

pub const UBLK_IO_OP_WRITE_ZEROES: u8 = 5;

pub const UBLK_IO_OP_ZONE_OPEN: u8 = 10;

pub const UBLK_IO_OP_ZONE_CLOSE: u8 = 11;

pub const UBLK_IO_OP_ZONE_FINISH: u8 = 12;

pub const UBLK_IO_OP_ZONE_APPEND: u8 = 13;

pub const UBLK_IO_OP_ZONE_RESET_ALL: u8 = 14;

pub const UBLK_IO_OP_ZONE_RESET: u8 = 15;

pub const UBLK_IO_OP_REPORT_ZONES: u8 = 18;

/// The two commands a task can submit for its tag.
#[derive(Clone, Copy, Debug, PartialEq, Eq, Structural)]
pub enum Opcode {
    /// First submission of a tag's lifetime: arms the slot, reports nothing.
    FetchReq,
    /// Reports the result of the previous request and re-arms the slot.
    CommitAndFetchReq,
}

impl Opcode {
    /// The number the kernel knows this opcode by.
    pub open spec fn spec_code(self) -> u32 {
        match self {
            Opcode::FetchReq => UBLK_IO_FETCH_REQ,
            Opcode::CommitAndFetchReq => UBLK_IO_COMMIT_AND_FETCH_REQ,
        }
    }

    /// The opcode a number stands for, if any.
    pub open spec fn spec_from_code(code: u32) -> Option<Opcode> {
        if code == UBLK_IO_FETCH_REQ {
            Some(Opcode::FetchReq)
        } else if code == UBLK_IO_COMMIT_AND_FETCH_REQ {
            Some(Opcode::CommitAndFetchReq)
        } else {
            None
        }
    }

    #[verifier::when_used_as_spec(spec_code)]
    pub fn code(self) -> (r: u32)
        ensures
            r == self.spec_code(),
    {
        match self {
            Opcode::FetchReq => UBLK_IO_FETCH_REQ,
            Opcode::CommitAndFetchReq => UBLK_IO_COMMIT_AND_FETCH_REQ,
        }
    }

    pub fn from_code(code: u32) -> (r: Option<Opcode>)
        ensures
            r == Opcode::spec_from_code(code),
    {
        if code == UBLK_IO_FETCH_REQ {
            Some(Opcode::FetchReq)
        } else if code == UBLK_IO_COMMIT_AND_FETCH_REQ {
            Some(Opcode::CommitAndFetchReq)
        } else {
            None
        }
    }
}

/// A number names an opcode exactly when that opcode's number is the number:
/// `code` and `from_code` undo each other.
pub proof fn lemma_opcode_code_round_trip(op: Opcode, code: u32)
    ensures
        Opcode::spec_from_code(op.spec_code()) == Some(op),
        Opcode::spec_from_code(code) == Some(op) <==> op.spec_code() == code,
{
}

/// One submission to the kernel ring.
#[derive(Clone, Copy, Debug, PartialEq, Eq, Structural)]
pub struct Command {
    pub opcode: Opcode,
    pub tag: u16,
    /// Address of the tag's I/O buffer.
    pub buffer_address: u64,
    /// Result of the request being committed; zero when nothing is committed.
    pub result_value: i32,
}

/// The kernel's answer to one command.
#[derive(Clone, Copy, Debug, PartialEq, Eq, Structural)]
pub struct Completion {
    pub tag: u16,
    pub result_code: i32,
}

impl Completion {
    /// Whether this completion carries the stop sentinel.
    pub open spec fn spec_is_abort(self) -> bool {
        self.result_code == UBLK_IO_RES_ABORT
    }

    #[verifier::when_used_as_spec(spec_is_abort)]
    pub fn is_abort(self) -> (r: bool)
        ensures
            r == self.spec_is_abort(),
    {
        self.result_code == UBLK_IO_RES_ABORT
    }
}

/// A step that the command protocol does not allow. Each one signals a defect
/// in whoever drives the queue; none is a condition to recover from.
#[derive(Clone, Copy, Debug, PartialEq, Eq, Structural)]
pub enum ProtocolError {
    /// The tag is not one of the queue's tags.
    TagOutOfRange,
    /// A command was to be submitted for a tag whose last command is still
    /// unanswered.
    CommandOutstanding,
    /// A command was to be submitted for a tag whose request is still being
    /// handled.
    HandlerPending,
    /// A completion arrived for a tag with no command outstanding.
    UnexpectedCompletion,
    /// A result was to be committed for a tag that has no request in
    /// handling, so no descriptor of its is valid.
    NotDispatching,
    /// The tag's task has observed the stop sentinel and submits no more.
    Retired,
}

/// What a request asks the device to do.
#[derive(Clone, Copy, Debug, PartialEq, Eq, Structural)]
pub enum Operation {
    Read,
    Write,
    Flush,
    Discard,
    WriteSame,
    WriteZeroes,
    ZoneOpen,
    ZoneClose,
    ZoneFinish,
    ZoneAppend,
    ZoneResetAll,
    ZoneReset,
    ReportZones,
    /// An operation number this library gives no meaning to.
    Other(u8),
}

impl Operation {
    /// The operation that an operation number stands for.
    pub open spec fn spec_from_op(op: u8) -> Operation {
        if op == UBLK_IO_OP_READ {
            Operation::Read
        } else if op == UBLK_IO_OP_WRITE {
            Operation::Write
        } else if op == UBLK_IO_OP_FLUSH {
            Operation::Flush
        } else if op == UBLK_IO_OP_DISCARD {
            Operation::Discard
        } else if op == UBLK_IO_OP_WRITE_SAME {
            Operation::WriteSame
        } else if op == UBLK_IO_OP_WRITE_ZEROES {
            Operation::WriteZeroes
        } else if op == UBLK_IO_OP_ZONE_OPEN {
            Operation::ZoneOpen
        } else if op == UBLK_IO_OP_ZONE_CLOSE {
            Operation::ZoneClose
        } else if op == UBLK_IO_OP_ZONE_FINISH {
            Operation::ZoneFinish
        } else if op == UBLK_IO_OP_ZONE_APPEND {
            Operation::ZoneAppend
        } else if op == UBLK_IO_OP_ZONE_RESET_ALL {
            Operation::ZoneResetAll
        } else if op == UBLK_IO_OP_ZONE_RESET {
            Operation::ZoneReset
        } else if op == UBLK_IO_OP_REPORT_ZONES {
            Operation::ReportZones
        } else {
            Operation::Other(op)
        }
    }

    #[verifier::when_used_as_spec(spec_from_op)]
    pub fn from_op(op: u8) -> (r: Operation)
        ensures
            r == Operation::spec_from_op(op),
    {
        if op == UBLK_IO_OP_READ {
            Operation::Read
        } else if op == UBLK_IO_OP_WRITE {
            Operation::Write
        } else if op == UBLK_IO_OP_FLUSH {
            Operation::Flush
        } else if op == UBLK_IO_OP_DISCARD {
            Operation::Discard
        } else if op == UBLK_IO_OP_WRITE_SAME {
            Operation::WriteSame
        } else if op == UBLK_IO_OP_WRITE_ZEROES {
            Operation::WriteZeroes
        } else if op == UBLK_IO_OP_ZONE_OPEN {
            Operation::ZoneOpen
        } else if op == UBLK_IO_OP_ZONE_CLOSE {
            Operation::ZoneClose
        } else if op == UBLK_IO_OP_ZONE_FINISH {
            Operation::ZoneFinish
        } else if op == UBLK_IO_OP_ZONE_APPEND {
            Operation::ZoneAppend
        } else if op == UBLK_IO_OP_ZONE_RESET_ALL {
            Operation::ZoneResetAll
        } else if op == UBLK_IO_OP_ZONE_RESET {
            Operation::ZoneReset
        } else if op == UBLK_IO_OP_REPORT_ZONES {
            Operation::ReportZones
        } else {
            Operation::Other(op)
        }
    }
}

/// The kernel's description of the request pending for one tag. It is valid
/// from the completion that announces the request until the task submits its
/// next command.
#[derive(Clone, Copy, Debug, PartialEq, Eq, Structural)]
pub struct IoDescriptor {
    /// Operation number in bits 0 to 7, request flags in bits 8 to 31.
    pub op_flags: u32,
    pub nr_sectors: u32,
    pub start_sector: u64,
    /// Buffer address as the driver sees it.
    pub addr: u64,
}

impl IoDescriptor {
    /// The operation number: the low eight bits of `op_flags`.
    pub open spec fn spec_op(&self) -> u8 {
        (self.op_flags & 0xff) as u8
    }

    /// The request flags: `op_flags` without its low eight bits.
    pub open spec fn spec_flags(&self) -> u32 {
        self.op_flags >> 8
    }

    pub open spec fn spec_operation(&self) -> Operation {
        Operation::spec_from_op(self.spec_op())
    }

    #[verifier::when_used_as_spec(spec_op)]
    pub fn op(&self) -> (r: u8)
        ensures
            r == self.spec_op(),
    {
        let raw: u32 = self.op_flags;
        let low: u32 = raw & 0xff;
        assert(low <= 0xff) by (bit_vector)
            requires
                low == raw & 0xff,
        ;
        low as u8
    }

    #[verifier::when_used_as_spec(spec_flags)]
    pub fn flags(&self) -> (r: u32)
        ensures
            r == self.spec_flags(),
    {
        self.op_flags >> 8
    }

    #[verifier::when_used_as_spec(spec_operation)]
    pub fn operation(&self) -> (r: Operation)
        ensures
            r == self.spec_operation(),
    {
        Operation::from_op(self.op())
    }
}

/// The operation number of a descriptor is the remainder of `op_flags` by 256
/// and its flags are the quotient, so the two together give `op_flags` back.
pub proof fn lemma_op_flags_split(iod: IoDescriptor)
    ensures
        iod.spec_op() == iod.op_flags % 256,
        iod.spec_flags() == iod.op_flags / 256,
        iod.op_flags == iod.spec_flags() * 256 + iod.spec_op(),
{
    let x: u32 = iod.op_flags;
    assert((x & 0xff) == x % 256) by (bit_vector);
    assert((x >> 8) == x / 256) by (bit_vector);
    assert((x & 0xff) as u8 == x & 0xff) by (bit_vector);
}

} // verus!

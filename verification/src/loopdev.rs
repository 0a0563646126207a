//! The loop target: a device whose blocks are the bytes of a regular file.

use crate::args::GenAddArgs;
use crate::descriptor::{ConfigError, DeviceBuilder, DeviceDescriptor};
use crate::protocol::{IoDescriptor, Operation, SECTOR_SIZE};
use crate::target::{BackingIo, BackingOp, Handling, EINVAL};
use vstd::prelude::*;

verus! {

/// The options of `add loop`. The backing file is opened by whoever runs the
/// device; the target is told its size.
#[derive(Clone, Copy, Debug, PartialEq, Eq)]
pub struct LoopAddArgs {
    pub gen_arg: GenAddArgs,
}

/// The loop device that `tgt_init` makes of `dev` for a file of `file_size`
/// bytes: as large as the file, with default parameters, then the block sizes
/// and the read-only choice of the options.
pub open spec fn initialized(dev: DeviceBuilder, file_size: u64, opt: LoopAddArgs) -> DeviceBuilder {
    opt.gen_arg.read_only_applied(
        opt.gen_arg.block_size_applied(dev.with_default_params(file_size)),
    )
}

/// The loop device of the given shape, before it is checked.
pub open spec fn configured(
    queue_count: u16,
    queue_depth: u16,
    file_size: u64,
    opt: LoopAddArgs,
) -> DeviceBuilder {
    initialized(DeviceBuilder::spec_new(queue_count, queue_depth), file_size, opt)
}

/// Initializes the loop target's device for a backing file of `file_size`
/// bytes. Returns the status, which is zero.
pub fn tgt_init(dev: &mut DeviceBuilder, file_size: u64, opt: &LoopAddArgs) -> (status: i32)
    ensures
        *final(dev) == initialized(*old(dev), file_size, *opt),
        status == 0,
{
    dev.set_default_params(file_size);
    opt.gen_arg.apply_block_size(dev);
    opt.gen_arg.apply_read_only(dev);
    0
}

/// Creates the descriptor of a loop device over a file of `file_size` bytes,
/// or says why there is no such device: among other reasons, because the file
/// is empty or not a whole number of logical blocks.
pub fn create_descriptor(
    queue_count: u16,
    queue_depth: u16,
    file_size: u64,
    opt: &LoopAddArgs,
) -> (r: Result<DeviceDescriptor, ConfigError>)
    ensures
        match configured(queue_count, queue_depth, file_size, *opt).error() {
            Some(e) => r == Err::<DeviceDescriptor, ConfigError>(e),
            None => r is Ok && r->Ok_0@ == configured(queue_count, queue_depth, file_size, *opt),
        },
{
    let mut dev = DeviceBuilder::new(queue_count, queue_depth);
    let _status: i32 = tgt_init(&mut dev, file_size, opt);
    DeviceDescriptor::build(dev)
}

/// Whether the sectors of a request lie within a device of `dev_sectors`
/// sectors.
pub open spec fn in_range(iod: IoDescriptor, dev_sectors: u64) -> bool {
    iod.start_sector + iod.nr_sectors <= dev_sectors
}

/// The part of the backing store that a request's sectors are.
pub open spec fn sector_range(op: BackingOp, iod: IoDescriptor) -> BackingIo {
    BackingIo {
        op,
        offset: (iod.start_sector * SECTOR_SIZE) as u64,
        len: (iod.nr_sectors * SECTOR_SIZE) as u64,
    }
}

/// What the loop target makes of a request: a read or a write of sectors
/// within the device is a read or a write of the same bytes of the file, a
/// flush is a flush of the file, and everything else is refused as invalid.
pub open spec fn loop_handling(iod: IoDescriptor, dev_sectors: u64) -> Handling {
    match iod.spec_operation() {
        Operation::Read => if in_range(iod, dev_sectors) {
            Handling::Backing(sector_range(BackingOp::Read, iod))
        } else {
            Handling::Done((-EINVAL) as i32)
        },
        Operation::Write => if in_range(iod, dev_sectors) {
            Handling::Backing(sector_range(BackingOp::Write, iod))
        } else {
            Handling::Done((-EINVAL) as i32)
        },
        Operation::Flush => Handling::Backing(
            BackingIo { op: BackingOp::Flush, offset: 0, len: 0 },
        ),
        _ => Handling::Done((-EINVAL) as i32),
    }
}

/// Length in bytes of `nr_sectors` sectors.
pub(crate) fn byte_len(nr_sectors: u32) -> (len: u64)
    ensures
        len == nr_sectors * SECTOR_SIZE,
{
    assert(nr_sectors * SECTOR_SIZE == nr_sectors * 512);
    (nr_sectors as u64) * 512
}

/// The byte range of the sectors of a request that lies within a device of
/// `dev_sectors` sectors, where the device's size in bytes fits in 64 bits.
pub(crate) fn byte_range(op: BackingOp, iod: &IoDescriptor, dev_sectors: u64) -> (io: BackingIo)
    requires
        in_range(*iod, dev_sectors),
        dev_sectors * SECTOR_SIZE <= u64::MAX,
    ensures
        io == sector_range(op, *iod),
        io.offset == iod.start_sector * SECTOR_SIZE,
        io.len == iod.nr_sectors * SECTOR_SIZE,
        io.offset + io.len <= dev_sectors * SECTOR_SIZE,
{
    let offset: u64 = iod.start_sector * (SECTOR_SIZE as u64);
    let len: u64 = byte_len(iod.nr_sectors);
    BackingIo { op, offset, len }
}

fn within(iod: &IoDescriptor, dev_sectors: u64) -> (r: bool)
    ensures
        r == in_range(*iod, dev_sectors),
{
    iod.start_sector <= dev_sectors && iod.nr_sectors as u64 <= dev_sectors - iod.start_sector
}

/// The loop target of one device: it knows how many sectors its backing file
/// has, and nothing else.
#[derive(Clone, Copy, Debug, PartialEq, Eq)]
pub struct LoopTarget {
    dev_sectors: u64,
}

impl View for LoopTarget {
    type V = u64;

    /// The number of sectors of the device.
    closed spec fn view(&self) -> u64 {
        self.dev_sectors
    }
}

impl LoopTarget {
    #[verifier::type_invariant]
    spec fn well_formed(self) -> bool {
        self.dev_sectors * SECTOR_SIZE <= u64::MAX
    }

    /// The loop target of the device that `dev` describes.
    pub fn new(dev: &DeviceDescriptor) -> (target: LoopTarget)
        ensures
            target@ == dev@.capacity / 512,
            target@ * SECTOR_SIZE == dev@.capacity,
    {
        LoopTarget { dev_sectors: dev.dev_sectors() }
    }

    /// Size of the device in sectors.
    pub fn dev_sectors(&self) -> (r: u64)
        ensures
            r == self@,
            r * SECTOR_SIZE <= u64::MAX,
    {
        proof {
            use_type_invariant(self);
        }
        self.dev_sectors
    }

    /// Handles one request.
    pub fn handle_io(&self, iod: &IoDescriptor) -> (r: Handling)
        ensures
            r == loop_handling(*iod, self@),
    {
        proof {
            use_type_invariant(self);
        }
        let dev_sectors: u64 = self.dev_sectors;
        match iod.operation() {
            Operation::Read => {
                if within(iod, dev_sectors) {
                    Handling::Backing(byte_range(BackingOp::Read, iod, dev_sectors))
                } else {
                    Handling::Done(-EINVAL)
                }
            },
            Operation::Write => {
                if within(iod, dev_sectors) {
                    Handling::Backing(byte_range(BackingOp::Write, iod, dev_sectors))
                } else {
                    Handling::Done(-EINVAL)
                }
            },
            Operation::Flush => Handling::Backing(
                BackingIo { op: BackingOp::Flush, offset: 0, len: 0 },
            ),
            _ => Handling::Done(-EINVAL),
        }
    }
}

/// What the loop target asks of the file lies within the file: a read or a
/// write that is performed covers exactly the bytes of the request's
/// sectors, and none beyond the end of a device whose size in bytes fits in
/// 64 bits.
pub proof fn lemma_loop_stays_in_file(iod: IoDescriptor, dev_sectors: u64)
    requires
        dev_sectors * SECTOR_SIZE <= u64::MAX,
        loop_handling(iod, dev_sectors) is Backing,
    ensures
        loop_handling(iod, dev_sectors)->Backing_0.offset + loop_handling(
            iod,
            dev_sectors,
        )->Backing_0.len <= dev_sectors * SECTOR_SIZE,
        loop_handling(iod, dev_sectors)->Backing_0.op != BackingOp::Flush ==> {
            &&& loop_handling(iod, dev_sectors)->Backing_0.offset == iod.start_sector
                * SECTOR_SIZE
            &&& loop_handling(iod, dev_sectors)->Backing_0.len == iod.nr_sectors * SECTOR_SIZE
        },
{
}

} // verus!

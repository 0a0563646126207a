//! The null target: a device that holds nothing and succeeds at once.

use crate::args::GenAddArgs;
use crate::descriptor::{
    block_size_shift, is_supported_block_size, lemma_attrs_report_read_only,
    lemma_block_size_shift, ConfigError, DeviceBuilder, DeviceDescriptor, UBLK_ATTR_READ_ONLY,
};
use crate::protocol::{
    Command, Completion, IoDescriptor, ProtocolError, SECTOR_SHIFT, SECTOR_SIZE,
    UBLK_MAX_NR_QUEUES, UBLK_MAX_QUEUE_DEPTH,
};
use crate::reactor::{lemma_step_frame, QueueReactor, ReactorModel};
use vstd::prelude::*;

verus! {

/// Size of a null device in bytes: 250 GiB.
pub const NULL_DEVICE_SIZE: u64 = 268_435_456_000;

/// The options of `add null`.
#[derive(Clone, Copy, Debug, PartialEq, Eq)]
pub struct NullAddArgs {
    pub gen_arg: GenAddArgs,
}

/// The signed 32-bit reading of the low 32 bits of `v`.
pub open spec fn wrap_i32(v: int) -> int {
    let low = v % 0x1_0000_0000;
    if low < 0x8000_0000 {
        low
    } else {
        low - 0x1_0000_0000
    }
}

/// The result of the null target for a request: its length in bytes, as far
/// as a result value can hold it.
pub open spec fn null_result(iod: IoDescriptor) -> int {
    wrap_i32(iod.nr_sectors * SECTOR_SIZE)
}

/// The null device that `tgt_init` makes of `dev`: 250 GiB with default
/// parameters, then the block sizes and the read-only choice of the options,
/// if there are any.
pub open spec fn initialized(dev: DeviceBuilder, opt: Option<NullAddArgs>) -> DeviceBuilder {
    let defaults = dev.with_default_params(NULL_DEVICE_SIZE);
    match opt {
        Some(o) => o.gen_arg.read_only_applied(o.gen_arg.block_size_applied(defaults)),
        None => defaults,
    }
}

/// The null device of the given shape, before it is checked.
pub open spec fn configured(
    queue_count: u16,
    queue_depth: u16,
    opt: Option<NullAddArgs>,
) -> DeviceBuilder {
    initialized(DeviceBuilder::spec_new(queue_count, queue_depth), opt)
}

/// Initializes the null target's device. Returns the status, which is zero:
/// this step cannot fail, and what it configured is checked when the
/// descriptor is built.
pub fn tgt_init(dev: &mut DeviceBuilder, opt: &Option<NullAddArgs>) -> (status: i32)
    ensures
        *final(dev) == initialized(*old(dev), *opt),
        status == 0,
{
    dev.set_default_params(NULL_DEVICE_SIZE);
    if let Some(o) = opt {
        o.gen_arg.apply_block_size(dev);
        o.gen_arg.apply_read_only(dev);
    }
    0
}

/// Creates the descriptor of a null device with `queue_count` queues of
/// `queue_depth` tags each, or says why the options describe no device.
pub fn create_descriptor(queue_count: u16, queue_depth: u16, opt: &Option<NullAddArgs>) -> (r:
    Result<DeviceDescriptor, ConfigError>)
    ensures
        match configured(queue_count, queue_depth, *opt).error() {
            Some(e) => r == Err::<DeviceDescriptor, ConfigError>(e),
            None => r is Ok && r->Ok_0@ == configured(queue_count, queue_depth, *opt),
        },
{
    let mut dev = DeviceBuilder::new(queue_count, queue_depth);
    let _status: i32 = tgt_init(&mut dev, opt);
    DeviceDescriptor::build(dev)
}

/// Handles one request: whatever the operation, the result is the length of
/// the request in bytes.
pub fn handle_io(iod: &IoDescriptor) -> (res: i32)
    ensures
        res == null_result(*iod),
        iod.nr_sectors * SECTOR_SIZE <= i32::MAX ==> res == iod.nr_sectors * SECTOR_SIZE,
{
    let n: u32 = iod.nr_sectors;
    let bytes: u32 = n << SECTOR_SHIFT;
    let res: i32 = #[verifier::truncate]
    (bytes as i32);
    assert(bytes == (n * 512) % 0x1_0000_0000) by (bit_vector)
        requires
            bytes == n << 9u32,
    ;
    assert(res == if bytes < 0x8000_0000u32 {
        bytes as int
    } else {
        bytes - 0x1_0000_0000
    }) by (bit_vector)
        requires
            res == bytes as i32,
    ;
    res
}

/// The reactor of a null queue after one completion: unchanged where the
/// completion violates the protocol; with the task ended where it carries the
/// stop sentinel; else with the request handled and its result committed.
pub open spec fn served(
    reactor: ReactorModel,
    completion: Completion,
    iod: IoDescriptor,
) -> ReactorModel {
    if completion.spec_is_abort() {
        reactor.completed(completion)
    } else {
        reactor.completed(completion).committed(completion.tag, null_result(iod) as i32)
    }
}

/// One turn of a task of a null queue, from the completion of its command
/// to the submission of the next. Where the completion carries the stop
/// sentinel the task ends and nothing is to be submitted. Otherwise `iod`,
/// the descriptor of the tag, is handled, and the command that commits the
/// result is returned, to be put on the ring; a reactor that is stopping
/// ends the task instead.
pub fn handle_completion(
    reactor: &mut QueueReactor,
    completion: Completion,
    iod: &IoDescriptor,
) -> (r: Result<Option<Command>, ProtocolError>)
    ensures
        match old(reactor)@.error(completion.tag, ReactorModel::completion_event(completion)) {
            Some(e) => r == Err::<Option<Command>, ProtocolError>(e) && final(reactor)@ == old(
                reactor,
            )@,
            None => {
                &&& final(reactor)@ == served(old(reactor)@, completion, *iod)
                &&& r == Ok::<Option<Command>, ProtocolError>(
                    if completion.spec_is_abort() || old(reactor)@.stopping {
                        None
                    } else {
                        Some(
                            old(reactor)@.commit_command(
                                completion.tag,
                                null_result(*iod) as i32,
                            ),
                        )
                    },
                )
            },
        },
{
    let ghost before = reactor@;
    match reactor.on_completion(completion) {
        Err(e) => Err(e),
        Ok(_) => {
            if completion.is_abort() {
                Ok(None)
            } else {
                proof {
                    lemma_step_frame(
                        before,
                        completion.tag,
                        ReactorModel::completion_event(completion),
                    );
                }
                let res: i32 = handle_io(iod);
                reactor.commit(completion.tag, res)
            }
        },
    }
}

/// For every request whose length in bytes a result value can hold, the null
/// target's result is that length: the sector count times the sector size,
/// whatever the operation, the flags, the start sector and the buffer.
pub proof fn lemma_null_result_is_request_length(iod: IoDescriptor)
    requires
        iod.nr_sectors * SECTOR_SIZE <= i32::MAX,
    ensures
        null_result(iod) == iod.nr_sectors * SECTOR_SIZE,
{
}

/// Two requests of the same length get the same result from the null target,
/// however else they differ.
pub proof fn lemma_null_result_ignores_operation(a: IoDescriptor, b: IoDescriptor)
    requires
        a.nr_sectors == b.nr_sectors,
    ensures
        null_result(a) == null_result(b),
{
}

/// A null device created with a supported logical block size reports exactly
/// that size, both as a size and through the shift of the kernel's parameter
/// block, as long as the physical block size is left alone or is a supported
/// size no smaller.
pub proof fn lemma_block_size_round_trip(
    queue_count: u16,
    queue_depth: u16,
    args: GenAddArgs,
    size: u32,
)
    requires
        0 < queue_count <= UBLK_MAX_NR_QUEUES,
        0 < queue_depth <= UBLK_MAX_QUEUE_DEPTH,
        is_supported_block_size(size),
        args.logical_block_size == Some(size),
        match args.physical_block_size {
            Some(physical) => is_supported_block_size(physical) && size <= physical,
            None => true,
        },
    ensures
        configured(queue_count, queue_depth, Some(NullAddArgs { gen_arg: args })).valid(),
        configured(
            queue_count,
            queue_depth,
            Some(NullAddArgs { gen_arg: args }),
        ).logical_block_size == size,
        1u32 << block_size_shift(size) == size,
{
    lemma_block_size_shift(size);
    assert(NULL_DEVICE_SIZE % 512 == 0 && NULL_DEVICE_SIZE % 1024 == 0 && NULL_DEVICE_SIZE % 2048
        == 0 && NULL_DEVICE_SIZE % 4096 == 0);
}

/// A null device is read-only exactly when its options ask for it, and its
/// attribute word says so to whoever asks; one created without options is
/// writable.
pub proof fn lemma_read_only_round_trip(queue_count: u16, queue_depth: u16, args: GenAddArgs)
    ensures
        configured(queue_count, queue_depth, Some(NullAddArgs { gen_arg: args })).read_only
            == args.read_only,
        (configured(queue_count, queue_depth, Some(NullAddArgs { gen_arg: args })).attrs()
            & UBLK_ATTR_READ_ONLY != 0) == args.read_only,
        !configured(queue_count, queue_depth, None).read_only,
        configured(queue_count, queue_depth, None).attrs() & UBLK_ATTR_READ_ONLY == 0,
{
    lemma_attrs_report_read_only(
        configured(queue_count, queue_depth, Some(NullAddArgs { gen_arg: args })),
    );
    lemma_attrs_report_read_only(configured(queue_count, queue_depth, None));
}

/// What decides whether a null device can be created: the shape of its queues
/// and the block sizes asked for. Its capacity fits every supported block
/// size.
pub proof fn lemma_null_device_error(queue_count: u16, queue_depth: u16, opt: Option<NullAddArgs>)
    ensures
        configured(queue_count, queue_depth, opt).capacity == NULL_DEVICE_SIZE,
        configured(queue_count, queue_depth, opt).error() != Some(ConfigError::InvalidCapacity),
        opt is None ==> (configured(queue_count, queue_depth, opt).valid() <==> 0 < queue_count
            <= UBLK_MAX_NR_QUEUES && 0 < queue_depth <= UBLK_MAX_QUEUE_DEPTH),
{
    assert(NULL_DEVICE_SIZE % 512 == 0 && NULL_DEVICE_SIZE % 1024 == 0 && NULL_DEVICE_SIZE % 2048
        == 0 && NULL_DEVICE_SIZE % 4096 == 0);
}

} // verus!

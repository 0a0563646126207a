//! The device descriptor: what a device is, decided once at creation and
//! frozen before any queue starts.

use crate::protocol::{SECTOR_SHIFT, UBLK_MAX_NR_QUEUES, UBLK_MAX_QUEUE_DEPTH};
use vstd::prelude::*;

verus! {

/// Attribute bit that marks a device read-only.
pub const UBLK_ATTR_READ_ONLY: u32 = 1;

/// Logical block size of a device that asks for none.
pub const DEFAULT_LOGICAL_BLOCK_SIZE: u32 = 512;

/// Physical block size of a device that asks for none.
pub const DEFAULT_PHYSICAL_BLOCK_SIZE: u32 = 4096;

/// Why a device cannot be created as configured.
#[derive(Clone, Copy, Debug, PartialEq, Eq, Structural)]
pub enum ConfigError {
    /// No queue, or more than `UBLK_MAX_NR_QUEUES`.
    InvalidQueueCount,
    /// No tag, or more than `UBLK_MAX_QUEUE_DEPTH`.
    InvalidQueueDepth,
    UnsupportedLogicalBlockSize,
    UnsupportedPhysicalBlockSize,
    /// The logical block is larger than the physical one.
    LogicalExceedsPhysical,
    /// The capacity is zero or not a whole number of logical blocks.
    InvalidCapacity,
    /// The device or its zones are empty, or the zones do not fill the
    /// device exactly.
    InvalidZoneSize,
}

/// The block sizes a device can have: the powers of two from one sector to
/// one page.
pub open spec fn is_supported_block_size(size: u32) -> bool {
    size == 512 || size == 1024 || size == 2048 || size == 4096
}

/// log2 of a supported block size.
pub open spec fn block_size_shift(size: u32) -> u8 {
    if size == 512 {
        9
    } else if size == 1024 {
        10
    } else if size == 2048 {
        11
    } else {
        12
    }
}

/// Shifting one by the shift of a supported block size gives the size back.
pub proof fn lemma_block_size_shift(size: u32)
    requires
        is_supported_block_size(size),
    ensures
        9 <= block_size_shift(size) <= 12,
        1u32 << block_size_shift(size) == size,
{
    assert(1u32 << 9u8 == 512) by (bit_vector);
    assert(1u32 << 10u8 == 1024) by (bit_vector);
    assert(1u32 << 11u8 == 2048) by (bit_vector);
    assert(1u32 << 12u8 == 4096) by (bit_vector);
}

/// The device as its target's initialization is free to shape it. Nothing is
/// checked here: `DeviceDescriptor::build` decides whether such a device can
/// exist.
#[derive(Clone, Copy, Debug, PartialEq, Eq, Structural)]
pub struct DeviceBuilder {
    /// Size of the device in bytes.
    pub capacity: u64,
    pub logical_block_size: u32,
    pub physical_block_size: u32,
    pub read_only: bool,
    pub queue_count: u16,
    pub queue_depth: u16,
}

impl DeviceBuilder {
    /// A device of the given shape with no capacity yet, default block sizes,
    /// writable.
    pub open spec fn spec_new(queue_count: u16, queue_depth: u16) -> DeviceBuilder {
        DeviceBuilder {
            capacity: 0,
            logical_block_size: DEFAULT_LOGICAL_BLOCK_SIZE,
            physical_block_size: DEFAULT_PHYSICAL_BLOCK_SIZE,
            read_only: false,
            queue_count,
            queue_depth,
        }
    }

    /// The builder with its parameters reset to the defaults of a device of
    /// `dev_size` bytes.
    pub open spec fn with_default_params(self, dev_size: u64) -> DeviceBuilder {
        DeviceBuilder {
            capacity: dev_size,
            logical_block_size: DEFAULT_LOGICAL_BLOCK_SIZE,
            physical_block_size: DEFAULT_PHYSICAL_BLOCK_SIZE,
            read_only: false,
            ..self
        }
    }

    /// The first reason, if any, why no device can be created from this
    /// builder.
    pub open spec fn error(self) -> Option<ConfigError> {
        if self.queue_count == 0 || self.queue_count > UBLK_MAX_NR_QUEUES {
            Some(ConfigError::InvalidQueueCount)
        } else if self.queue_depth == 0 || self.queue_depth > UBLK_MAX_QUEUE_DEPTH {
            Some(ConfigError::InvalidQueueDepth)
        } else if !is_supported_block_size(self.logical_block_size) {
            Some(ConfigError::UnsupportedLogicalBlockSize)
        } else if !is_supported_block_size(self.physical_block_size) {
            Some(ConfigError::UnsupportedPhysicalBlockSize)
        } else if self.logical_block_size > self.physical_block_size {
            Some(ConfigError::LogicalExceedsPhysical)
        } else if self.capacity == 0 || self.capacity % (self.logical_block_size as u64) != 0 {
            Some(ConfigError::InvalidCapacity)
        } else {
            None
        }
    }

    /// Whether a device can be created from this builder.
    pub open spec fn valid(self) -> bool {
        self.error() is None
    }

    /// The attribute word that the kernel is given for this device: the
    /// read-only bit where the device is read-only, and nothing else.
    pub open spec fn attrs(self) -> u32 {
        if self.read_only {
            UBLK_ATTR_READ_ONLY
        } else {
            0
        }
    }

    #[verifier::when_used_as_spec(spec_new)]
    pub fn new(queue_count: u16, queue_depth: u16) -> (dev: DeviceBuilder)
        ensures
            dev == DeviceBuilder::spec_new(queue_count, queue_depth),
    {
        DeviceBuilder {
            capacity: 0,
            logical_block_size: DEFAULT_LOGICAL_BLOCK_SIZE,
            physical_block_size: DEFAULT_PHYSICAL_BLOCK_SIZE,
            read_only: false,
            queue_count,
            queue_depth,
        }
    }

    /// Resets the parameters to the defaults of a device of `dev_size` bytes:
    /// 512-byte logical and 4096-byte physical blocks, writable.
    pub fn set_default_params(&mut self, dev_size: u64)
        ensures
            *final(self) == old(self).with_default_params(dev_size),
    {
        self.capacity = dev_size;
        self.logical_block_size = DEFAULT_LOGICAL_BLOCK_SIZE;
        self.physical_block_size = DEFAULT_PHYSICAL_BLOCK_SIZE;
        self.read_only = false;
    }
}

/// Whoever asks the attribute word of a device whether it is read-only
/// hears what the device was created as.
pub proof fn lemma_attrs_report_read_only(dev: DeviceBuilder)
    ensures
        (dev.attrs() & UBLK_ATTR_READ_ONLY != 0) == dev.read_only,
{
    assert(1u32 & 1u32 != 0) by (bit_vector);
    assert(0u32 & 1u32 == 0) by (bit_vector);
}

fn block_size_is_supported(size: u32) -> (r: bool)
    ensures
        r == is_supported_block_size(size),
{
    size == 512 || size == 1024 || size == 2048 || size == 4096
}

fn shift_of(size: u32) -> (r: u8)
    requires
        is_supported_block_size(size),
    ensures
        r == block_size_shift(size),
{
    if size == 512 {
        9
    } else if size == 1024 {
        10
    } else if size == 2048 {
        11
    } else {
        12
    }
}

/// The configuration of a device, checked at creation and never changed
/// after. Every queue reads it; none can write it.
#[derive(Clone, Copy, Debug, PartialEq, Eq)]
pub struct DeviceDescriptor {
    params: DeviceBuilder,
}

impl View for DeviceDescriptor {
    type V = DeviceBuilder;

    closed spec fn view(&self) -> DeviceBuilder {
        self.params
    }
}

impl DeviceDescriptor {
    #[verifier::type_invariant]
    spec fn well_formed(self) -> bool {
        self.params.valid()
    }

    /// Creates the descriptor of the device that `dev` describes, or says why
    /// there is no such device.
    pub fn build(dev: DeviceBuilder) -> (r: Result<DeviceDescriptor, ConfigError>)
        ensures
            match dev.error() {
                Some(e) => r == Err::<DeviceDescriptor, ConfigError>(e),
                None => r is Ok && r->Ok_0@ == dev,
            },
    {
        if dev.queue_count == 0 || dev.queue_count > UBLK_MAX_NR_QUEUES {
            Err(ConfigError::InvalidQueueCount)
        } else if dev.queue_depth == 0 || dev.queue_depth > UBLK_MAX_QUEUE_DEPTH {
            Err(ConfigError::InvalidQueueDepth)
        } else if !block_size_is_supported(dev.logical_block_size) {
            Err(ConfigError::UnsupportedLogicalBlockSize)
        } else if !block_size_is_supported(dev.physical_block_size) {
            Err(ConfigError::UnsupportedPhysicalBlockSize)
        } else if dev.logical_block_size > dev.physical_block_size {
            Err(ConfigError::LogicalExceedsPhysical)
        } else if dev.capacity == 0 || dev.capacity % (dev.logical_block_size as u64) != 0 {
            Err(ConfigError::InvalidCapacity)
        } else {
            Ok(DeviceDescriptor { params: dev })
        }
    }

    /// Size of the device in bytes: a positive whole number of logical
    /// blocks.
    pub fn capacity(&self) -> (r: u64)
        ensures
            r == self@.capacity,
            self@.valid(),
    {
        proof {
            use_type_invariant(self);
        }
        self.params.capacity
    }

    pub fn logical_block_size(&self) -> (r: u32)
        ensures
            r == self@.logical_block_size,
            is_supported_block_size(r),
    {
        proof {
            use_type_invariant(self);
        }
        self.params.logical_block_size
    }

    pub fn physical_block_size(&self) -> (r: u32)
        ensures
            r == self@.physical_block_size,
            is_supported_block_size(r),
            self@.logical_block_size <= r,
    {
        proof {
            use_type_invariant(self);
        }
        self.params.physical_block_size
    }

    pub fn read_only(&self) -> (r: bool)
        ensures
            r == self@.read_only,
    {
        self.params.read_only
    }

    pub fn queue_count(&self) -> (r: u16)
        ensures
            r == self@.queue_count,
            0 < r <= UBLK_MAX_NR_QUEUES,
    {
        proof {
            use_type_invariant(self);
        }
        self.params.queue_count
    }

    pub fn queue_depth(&self) -> (r: u16)
        ensures
            r == self@.queue_depth,
            0 < r <= UBLK_MAX_QUEUE_DEPTH,
    {
        proof {
            use_type_invariant(self);
        }
        self.params.queue_depth
    }

    /// log2 of the logical block size, as the kernel's parameter block holds
    /// it: a reader that shifts one by it finds the configured size.
    pub fn logical_bs_shift(&self) -> (r: u8)
        ensures
            r == block_size_shift(self@.logical_block_size),
            1u32 << r == self@.logical_block_size,
    {
        proof {
            use_type_invariant(self);
            lemma_block_size_shift(self.params.logical_block_size);
        }
        shift_of(self.params.logical_block_size)
    }

    /// log2 of the physical block size.
    pub fn physical_bs_shift(&self) -> (r: u8)
        ensures
            r == block_size_shift(self@.physical_block_size),
            1u32 << r == self@.physical_block_size,
    {
        proof {
            use_type_invariant(self);
            lemma_block_size_shift(self.params.physical_block_size);
        }
        shift_of(self.params.physical_block_size)
    }

    /// The attribute word of the kernel's parameter block: the read-only bit
    /// is set exactly when the device is read-only, and no other bit is.
    pub fn attrs(&self) -> (r: u32)
        ensures
            r == self@.attrs(),
            (r & UBLK_ATTR_READ_ONLY != 0) == self@.read_only,
    {
        proof {
            lemma_attrs_report_read_only(self.params);
        }
        if self.params.read_only {
            UBLK_ATTR_READ_ONLY
        } else {
            0
        }
    }

    /// Size of the device in sectors.
    pub fn dev_sectors(&self) -> (r: u64)
        ensures
            r == self@.capacity / 512,
            r * 512 == self@.capacity,
    {
        proof {
            use_type_invariant(self);
        }
        let capacity: u64 = self.params.capacity;
        let sectors: u64 = capacity >> SECTOR_SHIFT;
        assert(sectors == capacity / 512) by (bit_vector)
            requires
                sectors == capacity >> 9u32,
        ;
        assert(capacity % 512 == 0) by {
            lemma_block_multiple_is_sector_multiple(capacity, self.params.logical_block_size);
        }
        sectors
    }
}

/// A whole number of supported blocks is a whole number of sectors.
proof fn lemma_block_multiple_is_sector_multiple(capacity: u64, size: u32)
    requires
        is_supported_block_size(size),
        capacity % (size as u64) == 0,
    ensures
        capacity % 512 == 0,
{
    assert(capacity % 512 == 0) by (nonlinear_arith)
        requires
            size == 512 || size == 1024 || size == 2048 || size == 4096,
            capacity % (size as u64) == 0,
    ;
}

} // verus!

//! Options that every target's `add` command takes.

use crate::descriptor::DeviceBuilder;
use vstd::prelude::*;

verus! {

/// The options common to all targets, as far as they shape the device.
#[derive(Clone, Copy, Debug, PartialEq, Eq)]
pub struct GenAddArgs {
    /// Logical block size in bytes; the default where none is given.
    pub logical_block_size: Option<u32>,
    /// Physical block size in bytes; the default where none is given.
    pub physical_block_size: Option<u32>,
    pub read_only: bool,
}

impl GenAddArgs {
    /// `dev` with the block sizes that were asked for in place of its own.
    pub open spec fn block_size_applied(self, dev: DeviceBuilder) -> DeviceBuilder {
        DeviceBuilder {
            logical_block_size: match self.logical_block_size {
                Some(size) => size,
                None => dev.logical_block_size,
            },
            physical_block_size: match self.physical_block_size {
                Some(size) => size,
                None => dev.physical_block_size,
            },
            ..dev
        }
    }

    /// `dev` made read-only or writable as was asked for.
    pub open spec fn read_only_applied(self, dev: DeviceBuilder) -> DeviceBuilder {
        DeviceBuilder { read_only: self.read_only, ..dev }
    }

    /// Puts the block sizes that were asked for in place of the device's.
    /// A size that was not asked for stays.
    pub fn apply_block_size(&self, dev: &mut DeviceBuilder)
        ensures
            *final(dev) == self.block_size_applied(*old(dev)),
    {
        if let Some(size) = self.logical_block_size {
            dev.logical_block_size = size;
        }
        if let Some(size) = self.physical_block_size {
            dev.physical_block_size = size;
        }
    }

    /// Makes the device read-only if that was asked for, writable if not.
    pub fn apply_read_only(&self, dev: &mut DeviceBuilder)
        ensures
            *final(dev) == self.read_only_applied(*old(dev)),
    {
        dev.read_only = self.read_only;
    }
}

impl Default for GenAddArgs {
    /// No block size asked for, writable.
    fn default() -> (args: GenAddArgs)
        ensures
            args.logical_block_size is None,
            args.physical_block_size is None,
            !args.read_only,
    {
        GenAddArgs { logical_block_size: None, physical_block_size: None, read_only: false }
    }
}

} // verus!

use rublk::args::GenAddArgs;
use rublk::descriptor::{ConfigError, DeviceBuilder, DeviceDescriptor};
use rublk::loopdev::{self, LoopAddArgs, LoopTarget};
use rublk::protocol::{
    IoDescriptor, UBLK_IO_OP_DISCARD, UBLK_IO_OP_FLUSH, UBLK_IO_OP_READ, UBLK_IO_OP_REPORT_ZONES,
    UBLK_IO_OP_WRITE, UBLK_IO_OP_WRITE_ZEROES, UBLK_IO_OP_ZONE_APPEND, UBLK_IO_OP_ZONE_CLOSE,
    UBLK_IO_OP_ZONE_FINISH, UBLK_IO_OP_ZONE_OPEN, UBLK_IO_OP_ZONE_RESET,
    UBLK_IO_OP_ZONE_RESET_ALL,
};
use rublk::target::{backing_result, BackingIo, BackingOp, Handling, Target, EINVAL, EIO};
use rublk::zoned::{self, ZonedAddArgs, ZonedTarget};

fn iod(op: u8, start_sector: u64, nr_sectors: u32) -> IoDescriptor {
    IoDescriptor { op_flags: op as u32 | 0x100, nr_sectors, start_sector, addr: 0 }
}

fn flush() -> Handling {
    Handling::Backing(BackingIo { op: BackingOp::Flush, offset: 0, len: 0 })
}

fn file_of(bytes: u64) -> LoopTarget {
    let opt = LoopAddArgs { gen_arg: GenAddArgs::default() };
    LoopTarget::new(&loopdev::create_descriptor(1, 1, bytes, &opt).unwrap())
}

fn pointers(zones: &ZonedTarget) -> Vec<u64> {
    (0..zones.nr_zones()).map(|z| zones.write_pointer(z).unwrap()).collect()
}

#[test]
fn builder_defaults() {
    let mut dev = DeviceBuilder::new(3, 7);
    assert_eq!(
        dev,
        DeviceBuilder {
            capacity: 0,
            logical_block_size: 512,
            physical_block_size: 4096,
            read_only: false,
            queue_count: 3,
            queue_depth: 7
        }
    );
    assert_eq!(DeviceDescriptor::build(dev), Err(ConfigError::InvalidCapacity));
    dev.logical_block_size = 1024;
    dev.read_only = true;
    dev.set_default_params(1 << 20);
    assert_eq!(
        dev,
        DeviceBuilder {
            capacity: 1 << 20,
            logical_block_size: 512,
            physical_block_size: 4096,
            read_only: false,
            queue_count: 3,
            queue_depth: 7
        }
    );
    assert!(DeviceDescriptor::build(dev).is_ok());
}

#[test]
fn options_override_defaults() {
    let mut dev = DeviceBuilder::new(1, 1);
    dev.set_default_params(1 << 20);
    let args = GenAddArgs {
        logical_block_size: Some(2048),
        physical_block_size: None,
        read_only: true,
    };
    args.apply_block_size(&mut dev);
    assert_eq!((dev.logical_block_size, dev.physical_block_size), (2048, 4096));
    assert!(!dev.read_only);
    args.apply_read_only(&mut dev);
    assert!(dev.read_only);
    let args = GenAddArgs {
        logical_block_size: None,
        physical_block_size: Some(2048),
        read_only: false,
    };
    args.apply_block_size(&mut dev);
    args.apply_read_only(&mut dev);
    assert_eq!((dev.logical_block_size, dev.physical_block_size), (2048, 2048));
    assert!(!dev.read_only);
    let d = DeviceDescriptor::build(dev).unwrap();
    assert_eq!((d.logical_bs_shift(), d.physical_bs_shift()), (11, 11));
}

#[test]
fn shift_gives_the_block_size_back() {
    for (size, shift) in [(512u32, 9u8), (1024, 10), (2048, 11), (4096, 12)] {
        let mut dev = DeviceBuilder::new(1, 1);
        dev.set_default_params(1 << 20);
        dev.logical_block_size = size;
        let d = DeviceDescriptor::build(dev).unwrap();
        assert_eq!(d.logical_bs_shift(), shift);
        assert_eq!(1u32 << d.logical_bs_shift(), size);
        assert_eq!(d.logical_block_size(), size);
    }
}

#[test]
fn capacity_is_a_whole_number_of_blocks() {
    let mut dev = DeviceBuilder::new(1, 1);
    dev.set_default_params(4096 + 512);
    assert!(DeviceDescriptor::build(dev).is_ok());
    dev.logical_block_size = 1024;
    assert_eq!(DeviceDescriptor::build(dev), Err(ConfigError::InvalidCapacity));
    dev.capacity = 0;
    assert_eq!(DeviceDescriptor::build(dev), Err(ConfigError::InvalidCapacity));
    dev.capacity = u64::MAX;
    assert_eq!(DeviceDescriptor::build(dev), Err(ConfigError::InvalidCapacity));
    dev.capacity = u64::MAX - 1023;
    let d = DeviceDescriptor::build(dev).unwrap();
    assert_eq!(d.dev_sectors(), (u64::MAX - 1023) / 512);
}

#[test]
fn loop_device_is_as_large_as_its_file() {
    let opt = LoopAddArgs {
        gen_arg: GenAddArgs {
            logical_block_size: Some(4096),
            physical_block_size: None,
            read_only: true,
        },
    };
    let dev = loopdev::create_descriptor(2, 32, 32 << 20, &opt).unwrap();
    assert_eq!(dev.capacity(), 32 << 20);
    assert_eq!(dev.dev_sectors(), 65536);
    assert_eq!(dev.logical_block_size(), 4096);
    assert!(dev.read_only());
    assert_eq!((dev.queue_count(), dev.queue_depth()), (2, 32));
    assert_eq!(LoopTarget::new(&dev).dev_sectors(), 65536);

    assert_eq!(
        loopdev::create_descriptor(2, 32, (32 << 20) + 512, &opt),
        Err(ConfigError::InvalidCapacity)
    );
    assert_eq!(loopdev::create_descriptor(2, 32, 0, &opt), Err(ConfigError::InvalidCapacity));
}

#[test]
fn loop_maps_sectors_to_bytes() {
    let file = file_of(1 << 20);
    assert_eq!(
        file.handle_io(&iod(UBLK_IO_OP_READ, 8, 16)),
        Handling::Backing(BackingIo { op: BackingOp::Read, offset: 4096, len: 8192 })
    );
    assert_eq!(
        file.handle_io(&iod(UBLK_IO_OP_WRITE, 2047, 1)),
        Handling::Backing(BackingIo { op: BackingOp::Write, offset: (1 << 20) - 512, len: 512 })
    );
    assert_eq!(
        file.handle_io(&iod(UBLK_IO_OP_READ, 0, 2048)),
        Handling::Backing(BackingIo { op: BackingOp::Read, offset: 0, len: 1 << 20 })
    );
    assert_eq!(file.handle_io(&iod(UBLK_IO_OP_FLUSH, 0, 0)), flush());
    assert_eq!(file.handle_io(&iod(UBLK_IO_OP_FLUSH, 99999, 7)), flush());
}

#[test]
fn loop_refuses_what_lies_outside_the_file() {
    let file = file_of(1 << 20);
    for (start, nr) in [(2048u64, 1u32), (2047, 2), (0, 2049), (u64::MAX, 1), (1 << 60, 0)] {
        assert_eq!(file.handle_io(&iod(UBLK_IO_OP_READ, start, nr)), Handling::Done(-EINVAL));
        assert_eq!(file.handle_io(&iod(UBLK_IO_OP_WRITE, start, nr)), Handling::Done(-EINVAL));
    }
    assert_eq!(
        file.handle_io(&iod(UBLK_IO_OP_READ, 2048, 0)),
        Handling::Backing(BackingIo { op: BackingOp::Read, offset: 1 << 20, len: 0 })
    );
}

#[test]
fn loop_refuses_other_operations() {
    let file = file_of(1 << 20);
    for op in [UBLK_IO_OP_DISCARD, UBLK_IO_OP_WRITE_ZEROES, UBLK_IO_OP_ZONE_APPEND, 77] {
        assert_eq!(file.handle_io(&iod(op, 0, 8)), Handling::Done(-22));
    }
}

#[test]
fn backing_outcome_becomes_the_result() {
    let io = BackingIo { op: BackingOp::Read, offset: 0, len: 4096 };
    assert_eq!(backing_result(io, 4096), 4096);
    assert_eq!(backing_result(io, 512), 512);
    assert_eq!(backing_result(io, 0), 0);
    assert_eq!(backing_result(io, -5), -5);
    assert_eq!(backing_result(io, -28), -28);
    assert_eq!(backing_result(io, i32::MIN as i64), i32::MIN);
    assert_eq!(backing_result(io, 4097), -EIO);
    assert_eq!(backing_result(io, i32::MIN as i64 - 1), -5);
    assert_eq!(backing_result(io, i64::MAX), -5);
    assert_eq!(backing_result(io, i64::MIN), -5);
    let huge = BackingIo { op: BackingOp::Write, offset: 0, len: 1 << 40 };
    assert_eq!(backing_result(huge, i32::MAX as i64), i32::MAX);
    assert_eq!(backing_result(huge, i32::MAX as i64 + 1), -5);
    let none = BackingIo { op: BackingOp::Flush, offset: 0, len: 0 };
    assert_eq!(backing_result(none, 0), 0);
    assert_eq!(backing_result(none, 1), -5);
}

#[test]
fn zoned_device_from_options() {
    let opt = ZonedAddArgs { gen_arg: GenAddArgs::default(), size: 1024, zone_size: 256 };
    let (dev, zones) = zoned::create(1, 64, &opt).unwrap();
    assert_eq!(dev.capacity(), 1 << 30);
    assert_eq!(zones.nr_zones(), 4);
    assert_eq!(zones.zone_sectors(), 256 * 2048);
    assert_eq!(zones.dev_sectors(), dev.dev_sectors());
    assert_eq!(pointers(&zones), vec![0; 4]);
    assert_eq!(zones.write_pointer(4), None);

    let big = ZonedAddArgs { gen_arg: GenAddArgs::default(), size: 1 << 20, zone_size: 16 };
    let (dev, zones) = zoned::create(1, 1, &big).unwrap();
    assert_eq!(dev.capacity(), 1 << 40);
    assert_eq!(zones.nr_zones(), 1 << 16);
    assert_eq!(zones.zone_sectors(), 1 << 15);
}

#[test]
fn zoned_device_rejects_zones_that_do_not_fit() {
    let with = |size: u32, zone_size: u32| ZonedAddArgs {
        gen_arg: GenAddArgs::default(),
        size,
        zone_size,
    };
    for (size, zone_size) in [(1024, 0), (0, 256), (0, 0), (1000, 256), (4, 8)] {
        assert_eq!(
            zoned::create(1, 64, &with(size, zone_size)).err(),
            Some(ConfigError::InvalidZoneSize)
        );
    }
    assert_eq!(zoned::create(0, 64, &with(8, 4)).err(), Some(ConfigError::InvalidQueueCount));
    let bad_block = ZonedAddArgs {
        gen_arg: GenAddArgs {
            logical_block_size: Some(3),
            physical_block_size: None,
            read_only: false,
        },
        size: 8,
        zone_size: 4,
    };
    assert_eq!(
        zoned::create(1, 64, &bad_block).err(),
        Some(ConfigError::UnsupportedLogicalBlockSize)
    );
}

#[test]
fn zones_are_well_formed_or_absent() {
    assert!(ZonedTarget::new(0, 4).is_none());
    assert!(ZonedTarget::new(8, 0).is_none());
    assert!(ZonedTarget::new(u64::MAX / 512 + 1, 1).is_none());
    assert!(ZonedTarget::new(u64::MAX / 512 / 2 + 1, 2).is_none());
    let largest = ZonedTarget::new(u64::MAX / 512, 1).unwrap();
    assert_eq!(largest.dev_sectors(), u64::MAX / 512);
    assert!(ZonedTarget::new(u64::MAX / 512 / 2, 2).is_some());
}

#[test]
fn zone_is_written_only_at_its_write_pointer() {
    let mut zones = ZonedTarget::new(64, 4).unwrap();
    assert_eq!(
        zones.handle_io(&iod(UBLK_IO_OP_WRITE, 64, 8)),
        Handling::Backing(BackingIo { op: BackingOp::Write, offset: 64 * 512, len: 8 * 512 })
    );
    assert_eq!(pointers(&zones), vec![0, 8, 0, 0]);
    assert_eq!(zones.handle_io(&iod(UBLK_IO_OP_WRITE, 64, 8)), Handling::Done(-EIO));
    assert_eq!(zones.handle_io(&iod(UBLK_IO_OP_WRITE, 80, 8)), Handling::Done(-EIO));
    assert_eq!(zones.handle_io(&iod(UBLK_IO_OP_WRITE, 71, 8)), Handling::Done(-5));
    assert_eq!(zones.handle_io(&iod(UBLK_IO_OP_WRITE, 8, 8)), Handling::Done(-5));
    assert_eq!(pointers(&zones), vec![0, 8, 0, 0]);
    assert_eq!(
        zones.handle_io(&iod(UBLK_IO_OP_WRITE, 72, 56)),
        Handling::Backing(BackingIo { op: BackingOp::Write, offset: 72 * 512, len: 56 * 512 })
    );
    assert_eq!(pointers(&zones), vec![0, 64, 0, 0]);
    assert_eq!(zones.handle_io(&iod(UBLK_IO_OP_WRITE, 127, 1)), Handling::Done(-5));
    assert_eq!(zones.handle_io(&iod(UBLK_IO_OP_WRITE, 64, 0)), Handling::Done(-5));
    assert_eq!(
        zones.handle_io(&iod(UBLK_IO_OP_WRITE, 128, 1)),
        Handling::Backing(BackingIo { op: BackingOp::Write, offset: 128 * 512, len: 512 })
    );
    assert_eq!(pointers(&zones), vec![0, 64, 1, 0]);
}

#[test]
fn write_does_not_cross_its_zone() {
    let mut zones = ZonedTarget::new(64, 4).unwrap();
    assert_eq!(zones.handle_io(&iod(UBLK_IO_OP_WRITE, 0, 65)), Handling::Done(-EIO));
    assert_eq!(zones.handle_io(&iod(UBLK_IO_OP_WRITE, 192, 65)), Handling::Done(-EINVAL));
    assert_eq!(zones.handle_io(&iod(UBLK_IO_OP_WRITE, 256, 1)), Handling::Done(-EINVAL));
    assert_eq!(zones.handle_io(&iod(UBLK_IO_OP_WRITE, 256, 0)), Handling::Done(-EIO));
    assert_eq!(pointers(&zones), vec![0; 4]);
    assert!(matches!(zones.handle_io(&iod(UBLK_IO_OP_WRITE, 0, 64)), Handling::Backing(_)));
    assert_eq!(pointers(&zones), vec![64, 0, 0, 0]);
}

#[test]
fn append_lands_at_the_write_pointer() {
    let mut zones = ZonedTarget::new(64, 4).unwrap();
    assert_eq!(
        zones.handle_io(&iod(UBLK_IO_OP_ZONE_APPEND, 128, 8)),
        Handling::Append {
            io: BackingIo { op: BackingOp::Write, offset: 128 * 512, len: 8 * 512 },
            sector: 128
        }
    );
    assert_eq!(
        zones.handle_io(&iod(UBLK_IO_OP_ZONE_APPEND, 128, 16)),
        Handling::Append {
            io: BackingIo { op: BackingOp::Write, offset: 136 * 512, len: 16 * 512 },
            sector: 136
        }
    );
    assert_eq!(pointers(&zones), vec![0, 0, 24, 0]);
    assert_eq!(zones.handle_io(&iod(UBLK_IO_OP_ZONE_APPEND, 128, 41)), Handling::Done(-EIO));
    assert_eq!(zones.handle_io(&iod(UBLK_IO_OP_ZONE_APPEND, 136, 1)), Handling::Done(-EINVAL));
    assert_eq!(zones.handle_io(&iod(UBLK_IO_OP_ZONE_APPEND, 256, 1)), Handling::Done(-EINVAL));
    assert_eq!(pointers(&zones), vec![0, 0, 24, 0]);
    assert!(matches!(
        zones.handle_io(&iod(UBLK_IO_OP_ZONE_APPEND, 128, 40)),
        Handling::Append { sector: 152, .. }
    ));
    assert_eq!(pointers(&zones), vec![0, 0, 64, 0]);
    assert_eq!(zones.handle_io(&iod(UBLK_IO_OP_ZONE_APPEND, 128, 1)), Handling::Done(-5));
}

#[test]
fn reset_and_finish_move_the_write_pointer() {
    let mut zones = ZonedTarget::new(64, 3).unwrap();
    for z in 0..3u64 {
        zones.handle_io(&iod(UBLK_IO_OP_WRITE, z * 64, 10 + z as u32));
    }
    assert_eq!(pointers(&zones), vec![10, 11, 12]);
    assert_eq!(zones.handle_io(&iod(UBLK_IO_OP_ZONE_FINISH, 64, 0)), Handling::Done(0));
    assert_eq!(pointers(&zones), vec![10, 64, 12]);
    assert_eq!(zones.handle_io(&iod(UBLK_IO_OP_WRITE, 75, 1)), Handling::Done(-EIO));
    assert_eq!(zones.handle_io(&iod(UBLK_IO_OP_ZONE_RESET, 64, 0)), Handling::Done(0));
    assert_eq!(pointers(&zones), vec![10, 0, 12]);
    assert_eq!(zones.handle_io(&iod(UBLK_IO_OP_ZONE_RESET, 65, 0)), Handling::Done(-EINVAL));
    assert_eq!(zones.handle_io(&iod(UBLK_IO_OP_ZONE_FINISH, 192, 0)), Handling::Done(-EINVAL));
    assert_eq!(zones.handle_io(&iod(UBLK_IO_OP_ZONE_OPEN, 0, 0)), Handling::Done(0));
    assert_eq!(zones.handle_io(&iod(UBLK_IO_OP_ZONE_CLOSE, 128, 0)), Handling::Done(0));
    assert_eq!(zones.handle_io(&iod(UBLK_IO_OP_ZONE_OPEN, 1, 0)), Handling::Done(-EINVAL));
    assert_eq!(zones.handle_io(&iod(UBLK_IO_OP_ZONE_CLOSE, 192, 0)), Handling::Done(-EINVAL));
    assert_eq!(pointers(&zones), vec![10, 0, 12]);
    assert_eq!(zones.handle_io(&iod(UBLK_IO_OP_ZONE_RESET_ALL, 12345, 0)), Handling::Done(0));
    assert_eq!(pointers(&zones), vec![0, 0, 0]);
}

#[test]
fn zoned_reads_and_flushes_move_no_write_pointer() {
    let mut zones = ZonedTarget::new(64, 2).unwrap();
    zones.handle_io(&iod(UBLK_IO_OP_WRITE, 0, 5));
    assert_eq!(
        zones.handle_io(&iod(UBLK_IO_OP_READ, 60, 8)),
        Handling::Backing(BackingIo { op: BackingOp::Read, offset: 60 * 512, len: 8 * 512 })
    );
    assert_eq!(zones.handle_io(&iod(UBLK_IO_OP_READ, 127, 2)), Handling::Done(-EINVAL));
    assert_eq!(zones.handle_io(&iod(UBLK_IO_OP_FLUSH, 0, 0)), flush());
    assert_eq!(zones.handle_io(&iod(UBLK_IO_OP_REPORT_ZONES, 0, 2)), Handling::Done(-EINVAL));
    assert_eq!(zones.handle_io(&iod(UBLK_IO_OP_DISCARD, 0, 2)), Handling::Done(-EINVAL));
    assert_eq!(pointers(&zones), vec![5, 0]);
}

#[test]
fn targets_answer_by_their_kind() {
    let read = iod(UBLK_IO_OP_READ, 0, 8);
    let mut null = Target::Null;
    assert_eq!(null.handle(&read), Handling::Done(4096));
    assert_eq!(null.handle(&iod(UBLK_IO_OP_DISCARD, 1 << 50, 3)), Handling::Done(1536));
    assert!(matches!(null, Target::Null));

    let mut file = Target::Loop(file_of(1 << 20));
    assert_eq!(
        file.handle(&read),
        Handling::Backing(BackingIo { op: BackingOp::Read, offset: 0, len: 4096 })
    );
    assert_eq!(file.handle(&iod(UBLK_IO_OP_DISCARD, 0, 3)), Handling::Done(-EINVAL));

    let mut zoned = Target::Zoned(ZonedTarget::new(64, 2).unwrap());
    assert!(matches!(zoned.handle(&iod(UBLK_IO_OP_WRITE, 0, 8)), Handling::Backing(_)));
    assert_eq!(zoned.handle(&iod(UBLK_IO_OP_WRITE, 0, 8)), Handling::Done(-EIO));
    match zoned {
        Target::Zoned(zones) => assert_eq!(pointers(&zones), vec![8, 0]),
        _ => unreachable!(),
    }
}

//! The zoned target: a device cut into zones of equal size, each written
//! only at its write pointer.

use crate::args::GenAddArgs;
use crate::descriptor::{ConfigError, DeviceBuilder, DeviceDescriptor};
use crate::loopdev::{byte_len, byte_range, in_range, sector_range};
use crate::protocol::{IoDescriptor, Operation, SECTOR_SIZE};
use crate::target::{BackingIo, BackingOp, Handling, EINVAL, EIO};
use vstd::prelude::*;

verus! {

/// Number of bytes in one MiB, the unit of the sizes in the options.
pub const MIB: u64 = 1_048_576;

/// Number of sectors in one MiB.
pub const SECTORS_PER_MIB: u64 = 2048;

/// Size in MiB of a zoned device that asks for none.
pub const DEFAULT_SIZE_MIB: u32 = 1024;

/// Zone size in MiB of a zoned device that asks for none.
pub const DEFAULT_ZONE_SIZE_MIB: u32 = 256;

/// The options of `add zoned`.
#[derive(Clone, Copy, Debug, PartialEq, Eq)]
pub struct ZonedAddArgs {
    pub gen_arg: GenAddArgs,
    /// Size of the device in MiB.
    pub size: u32,
    /// Size of one zone in MiB.
    pub zone_size: u32,
}

/// The zones of a device as a mathematical value: their common size and each
/// one's write pointer, counted in sectors from the start of its zone.
pub struct ZonedModel {
    pub zone_sectors: u64,
    pub write_pointers: Seq<u64>,
}

impl ZonedModel {
    /// There is at least one zone, zones are not empty, no write pointer lies
    /// beyond its zone, and the size of the device in bytes fits in 64 bits.
    pub open spec fn wf(self) -> bool {
        &&& self.zone_sectors > 0
        &&& self.write_pointers.len() > 0
        &&& self.write_pointers.len() * self.zone_sectors * SECTOR_SIZE <= u64::MAX
        &&& forall|z: int|
            0 <= z < self.write_pointers.len() ==> #[trigger] self.write_pointers[z]
                <= self.zone_sectors
    }

    /// `nr_zones` empty zones of `zone_sectors` sectors each.
    pub open spec fn empty(zone_sectors: u64, nr_zones: nat) -> ZonedModel {
        ZonedModel { zone_sectors, write_pointers: Seq::new(nr_zones, |z: int| 0u64) }
    }

    /// Size of the device in sectors.
    pub open spec fn dev_sectors(self) -> int {
        self.write_pointers.len() * self.zone_sectors
    }

    /// The zone that a sector lies in.
    pub open spec fn zone_of(self, sector: u64) -> int {
        sector as int / self.zone_sectors as int
    }

    /// Whether a request names a zone by the first sector of the zone.
    pub open spec fn names_zone(self, iod: IoDescriptor) -> bool {
        &&& iod.start_sector < self.dev_sectors()
        &&& iod.start_sector as int % self.zone_sectors as int == 0
    }

    /// Whether a write keeps the order of its zone: it starts where the
    /// zone's write pointer stands and ends within the zone.
    pub open spec fn write_in_order(self, iod: IoDescriptor) -> bool {
        let z = self.zone_of(iod.start_sector);
        &&& iod.start_sector < self.dev_sectors()
        &&& iod.start_sector as int % self.zone_sectors as int == self.write_pointers[z]
        &&& self.write_pointers[z] + iod.nr_sectors <= self.zone_sectors
    }

    /// Whether the zone that an append names has room for it.
    pub open spec fn append_fits(self, iod: IoDescriptor) -> bool {
        let z = self.zone_of(iod.start_sector);
        &&& self.names_zone(iod)
        &&& self.write_pointers[z] + iod.nr_sectors <= self.zone_sectors
    }

    /// The sector at which appended data starts: the write pointer of the
    /// zone that the request names.
    pub open spec fn append_sector(self, iod: IoDescriptor) -> u64 {
        (iod.start_sector + self.write_pointers[self.zone_of(iod.start_sector)]) as u64
    }

    /// The zones with the write pointer of zone `z` at `pointer`.
    pub open spec fn with_pointer(self, z: int, pointer: u64) -> ZonedModel {
        ZonedModel { write_pointers: self.write_pointers.update(z, pointer), ..self }
    }

    /// What the zoned target makes of a request. Reads and flushes are as on
    /// any backing store. A write is performed only in the order of its zone
    /// and an append only where its zone has room: otherwise the request is
    /// refused with an I/O error and nothing is written. Requests that name
    /// no sector or no zone of the device, and operations the target does not
    /// know, are refused as invalid.
    pub open spec fn handling(self, iod: IoDescriptor) -> Handling {
        match iod.spec_operation() {
            Operation::Read => if in_range(iod, self.dev_sectors() as u64) {
                Handling::Backing(sector_range(BackingOp::Read, iod))
            } else {
                Handling::Done((-EINVAL) as i32)
            },
            Operation::Write => if !in_range(iod, self.dev_sectors() as u64) {
                Handling::Done((-EINVAL) as i32)
            } else if self.write_in_order(iod) {
                Handling::Backing(sector_range(BackingOp::Write, iod))
            } else {
                Handling::Done((-EIO) as i32)
            },
            Operation::ZoneAppend => if !self.names_zone(iod) {
                Handling::Done((-EINVAL) as i32)
            } else if self.append_fits(iod) {
                Handling::Append {
                    io: BackingIo {
                        op: BackingOp::Write,
                        offset: (self.append_sector(iod) * SECTOR_SIZE) as u64,
                        len: (iod.nr_sectors * SECTOR_SIZE) as u64,
                    },
                    sector: self.append_sector(iod),
                }
            } else {
                Handling::Done((-EIO) as i32)
            },
            Operation::Flush => Handling::Backing(
                BackingIo { op: BackingOp::Flush, offset: 0, len: 0 },
            ),
            Operation::ZoneOpen | Operation::ZoneClose | Operation::ZoneFinish
            | Operation::ZoneReset => if self.names_zone(iod) {
                Handling::Done(0)
            } else {
                Handling::Done((-EINVAL) as i32)
            },
            Operation::ZoneResetAll => Handling::Done(0),
            _ => Handling::Done((-EINVAL) as i32),
        }
    }

    /// The zones after a request. A write or an append that is performed
    /// moves its zone's write pointer on by its length; a reset takes it
    /// back to the start of the zone and a finish to its end. Nothing else
    /// moves a write pointer, and a request that is refused moves none.
    pub open spec fn after(self, iod: IoDescriptor) -> ZonedModel {
        let z = self.zone_of(iod.start_sector);
        match iod.spec_operation() {
            Operation::Write => if in_range(iod, self.dev_sectors() as u64) && self.write_in_order(
                iod,
            ) {
                self.with_pointer(z, (self.write_pointers[z] + iod.nr_sectors) as u64)
            } else {
                self
            },
            Operation::ZoneAppend => if self.append_fits(iod) {
                self.with_pointer(z, (self.write_pointers[z] + iod.nr_sectors) as u64)
            } else {
                self
            },
            Operation::ZoneReset => if self.names_zone(iod) {
                self.with_pointer(z, 0)
            } else {
                self
            },
            Operation::ZoneFinish => if self.names_zone(iod) {
                self.with_pointer(z, self.zone_sectors)
            } else {
                self
            },
            Operation::ZoneResetAll => Self::empty(self.zone_sectors, self.write_pointers.len()),
            _ => self,
        }
    }
}

/// The zoned device of the given shape, before it is checked.
pub open spec fn configured(queue_count: u16, queue_depth: u16, opt: ZonedAddArgs) -> DeviceBuilder {
    opt.gen_arg.read_only_applied(
        opt.gen_arg.block_size_applied(
            DeviceBuilder::spec_new(queue_count, queue_depth).with_default_params(
                (opt.size * MIB) as u64,
            ),
        ),
    )
}

/// Whether zones of `zone_size` MiB fill a device of `size` MiB exactly.
pub open spec fn zones_fit(opt: ZonedAddArgs) -> bool {
    opt.zone_size > 0 && opt.size > 0 && opt.size as int % opt.zone_size as int == 0
}

/// The first reason, if any, why no zoned device can be created from the
/// options.
pub open spec fn creation_error(
    queue_count: u16,
    queue_depth: u16,
    opt: ZonedAddArgs,
) -> Option<ConfigError> {
    if !zones_fit(opt) {
        Some(ConfigError::InvalidZoneSize)
    } else {
        configured(queue_count, queue_depth, opt).error()
    }
}

/// A whole number of zones in sectors stays within what an offset can hold.
proof fn lemma_zone_bounds(zone_sectors: u64, write_pointers: Seq<u64>, z: int)
    requires
        zone_sectors > 0,
        0 <= z < write_pointers.len(),
        write_pointers.len() * zone_sectors * SECTOR_SIZE <= u64::MAX,
    ensures
        z * zone_sectors + zone_sectors <= write_pointers.len() * zone_sectors,
        z * zone_sectors >= 0,
        write_pointers.len() * zone_sectors <= u64::MAX / 512,
{
    let n = write_pointers.len() as int;
    let zs = zone_sectors as int;
    assert((z + 1) * zs == z * zs + zs) by (nonlinear_arith);
    assert(n * zs <= (u64::MAX as int) / 512) by (nonlinear_arith)
        requires
            n * zs * 512 <= u64::MAX,
    ;
    assert((z + 1) * zs <= n * zs) by (nonlinear_arith)
        requires
            z + 1 <= n,
            zs > 0,
    ;
    assert(z * zs >= 0) by (nonlinear_arith)
        requires
            z >= 0,
            zs > 0,
    ;
}

/// A sector of the device lies in one of its zones, at the offset that is
/// the remainder of the sector by the zone size.
proof fn lemma_zone_of(zone_sectors: u64, nr_zones: int, sector: u64)
    requires
        zone_sectors > 0,
        nr_zones > 0,
    ensures
        sector < nr_zones * zone_sectors <==> (sector as int / zone_sectors as int) < nr_zones,
        0 <= sector as int / zone_sectors as int,
        sector == (sector as int / zone_sectors as int) * zone_sectors + sector as int
            % zone_sectors as int,
        0 <= (sector as int % zone_sectors as int) < zone_sectors,
{
    let s = sector as int;
    let zs = zone_sectors as int;
    let q = s / zs;
    let r = s % zs;
    assert(s == q * zs + r && 0 <= r < zs && q >= 0) by (nonlinear_arith)
        requires
            s >= 0,
            zs > 0,
            q == s / zs,
            r == s % zs,
    ;
    if q < nr_zones {
        assert(q * zs + zs <= nr_zones * zs) by (nonlinear_arith)
            requires
                q + 1 <= nr_zones,
                zs > 0,
        ;
    } else {
        assert(q * zs >= nr_zones * zs) by (nonlinear_arith)
            requires
                q >= nr_zones,
                zs > 0,
        ;
    }
}

/// Puts `pointer` at place `z`.
fn set_pointer(pointers: &mut Vec<u64>, z: usize, pointer: u64)
    requires
        z < old(pointers).len(),
    ensures
        final(pointers)@ == old(pointers)@.update(z as int, pointer),
    no_unwind
{
    pointers[z] = pointer;
}

/// The zones of one device and where each may be written next.
#[derive(Debug)]
pub struct ZonedTarget {
    zone_sectors: u64,
    write_pointers: Vec<u64>,
}

impl View for ZonedTarget {
    type V = ZonedModel;

    closed spec fn view(&self) -> ZonedModel {
        ZonedModel { zone_sectors: self.zone_sectors, write_pointers: self.write_pointers@ }
    }
}

impl ZonedTarget {
    #[verifier::type_invariant]
    spec fn well_formed(self) -> bool {
        self@.wf()
    }

    /// A device of `nr_zones` empty zones of `zone_sectors` sectors each, if
    /// there is such a device: one with at least one zone, with zones that
    /// are not empty, and with a size in bytes that fits in 64 bits.
    pub fn new(zone_sectors: u64, nr_zones: u32) -> (r: Option<ZonedTarget>)
        ensures
            ZonedModel::empty(zone_sectors, nr_zones as nat).wf() ==> r is Some && r->Some_0@
                == ZonedModel::empty(zone_sectors, nr_zones as nat),
            !ZonedModel::empty(zone_sectors, nr_zones as nat).wf() ==> r is None,
    {
        if zone_sectors == 0 || nr_zones == 0 {
            return None;
        }
        let limit: u64 = u64::MAX / (SECTOR_SIZE as u64) / (nr_zones as u64);
        proof {
            let n = nr_zones as int;
            let zs = zone_sectors as int;
            let cap = (u64::MAX / 512) as int;
            assert(limit == cap / n);
            assert(zs <= cap / n <==> n * zs <= cap) by (nonlinear_arith)
                requires
                    n > 0,
                    zs >= 0,
                    cap >= 0,
            ;
            assert(n * zs <= cap <==> n * zs * 512 <= u64::MAX) by (nonlinear_arith)
                requires
                    cap == (u64::MAX as int) / 512,
                    n * zs >= 0,
            ;
        }
        if zone_sectors > limit {
            return None;
        }
        let mut write_pointers: Vec<u64> = Vec::new();
        let mut z: u32 = 0;
        while z < nr_zones
            invariant
                z <= nr_zones,
                write_pointers.len() == z,
                forall|i: int| 0 <= i < z ==> #[trigger] write_pointers[i] == 0,
            decreases nr_zones - z,
        {
            write_pointers.push(0);
            z += 1;
        }
        let target = ZonedTarget { zone_sectors, write_pointers };
        assert(target@.write_pointers =~= ZonedModel::empty(
            zone_sectors,
            nr_zones as nat,
        ).write_pointers);
        Some(target)
    }

    /// Number of sectors in one zone.
    pub fn zone_sectors(&self) -> (r: u64)
        ensures
            r == self@.zone_sectors,
    {
        self.zone_sectors
    }

    /// Number of zones.
    pub fn nr_zones(&self) -> (r: usize)
        ensures
            r == self@.write_pointers.len(),
    {
        self.write_pointers.len()
    }

    /// Size of the device in sectors.
    pub fn dev_sectors(&self) -> (r: u64)
        ensures
            r == self@.dev_sectors(),
            r * SECTOR_SIZE <= u64::MAX,
            self@.wf(),
    {
        proof {
            use_type_invariant(self);
            lemma_zone_bounds(self.zone_sectors, self.write_pointers@, 0);
        }
        (self.write_pointers.len() as u64) * self.zone_sectors
    }

    /// The write pointer of zone `z`, in sectors from the start of the zone,
    /// if the device has that zone.
    pub fn write_pointer(&self, z: usize) -> (r: Option<u64>)
        ensures
            z < self@.write_pointers.len() ==> r == Some(self@.write_pointers[z as int]),
            z >= self@.write_pointers.len() ==> r is None,
    {
        if z < self.write_pointers.len() {
            Some(self.write_pointers[z])
        } else {
            None
        }
    }

    /// Handles one request: decides what is done for it and moves the write
    /// pointers accordingly.
    pub fn handle_io(&mut self, iod: &IoDescriptor) -> (r: Handling)
        ensures
            old(self)@.wf(),
            final(self)@.wf(),
            r == old(self)@.handling(*iod),
            final(self)@ == old(self)@.after(*iod),
    {
        proof {
            use_type_invariant(&*self);
        }
        let ghost before = self@;
        let dev_sectors: u64 = self.dev_sectors();
        let start: u64 = iod.start_sector;
        let nr: u64 = iod.nr_sectors as u64;
        let zs: u64 = self.zone_sectors;
        let offset: u64 = start % zs;
        let in_device: bool = start < dev_sectors;
        let whole: bool = start <= dev_sectors && nr <= dev_sectors - start;
        assert(in_device ==> start / zs < self.write_pointers.len()) by {
            lemma_zone_of(zs, before.write_pointers.len() as int, start);
            assert(before.dev_sectors() == before.write_pointers.len() * zs);
        }
        let z: usize = if in_device {
            (start / zs) as usize
        } else {
            0
        };
        proof {
            lemma_zone_of(zs, before.write_pointers.len() as int, start);
        }
        match iod.operation() {
            Operation::Read => {
                if whole {
                    Handling::Backing(byte_range(BackingOp::Read, iod, dev_sectors))
                } else {
                    Handling::Done(-EINVAL)
                }
            },
            Operation::Write => {
                if !whole {
                    Handling::Done(-EINVAL)
                } else {
                    let pointer: u64 = if in_device {
                        self.write_pointers[z]
                    } else {
                        0
                    };
                    if in_device && offset == pointer && nr <= zs - pointer {
                        set_pointer(&mut self.write_pointers, z, pointer + nr);
                        proof {
                            assert(self@.write_pointers =~= before.after(*iod).write_pointers);
                        }
                        Handling::Backing(byte_range(BackingOp::Write, iod, dev_sectors))
                    } else {
                        Handling::Done(-EIO)
                    }
                }
            },
            Operation::ZoneAppend => {
                if !(in_device && offset == 0) {
                    Handling::Done(-EINVAL)
                } else {
                    let pointer: u64 = self.write_pointers[z];
                    if nr <= zs - pointer {
                        proof {
                            lemma_zone_bounds(zs, before.write_pointers, z as int);
                            assert(start == z * zs);
                            assert(start + pointer + nr <= dev_sectors);
                        }
                        let sector: u64 = start + pointer;
                        let io = BackingIo {
                            op: BackingOp::Write,
                            offset: sector * (SECTOR_SIZE as u64),
                            len: byte_len(iod.nr_sectors),
                        };
                        set_pointer(&mut self.write_pointers, z, pointer + nr);
                        proof {
                            assert(self@.write_pointers =~= before.after(*iod).write_pointers);
                        }
                        Handling::Append { io, sector }
                    } else {
                        Handling::Done(-EIO)
                    }
                }
            },
            Operation::Flush => Handling::Backing(
                BackingIo { op: BackingOp::Flush, offset: 0, len: 0 },
            ),
            Operation::ZoneOpen => {
                if in_device && offset == 0 {
                    Handling::Done(0)
                } else {
                    Handling::Done(-EINVAL)
                }
            },
            Operation::ZoneClose => {
                if in_device && offset == 0 {
                    Handling::Done(0)
                } else {
                    Handling::Done(-EINVAL)
                }
            },
            Operation::ZoneFinish => {
                if in_device && offset == 0 {
                    set_pointer(&mut self.write_pointers, z, zs);
                    proof {
                        assert(self@.write_pointers =~= before.after(*iod).write_pointers);
                    }
                    Handling::Done(0)
                } else {
                    Handling::Done(-EINVAL)
                }
            },
            Operation::ZoneReset => {
                if in_device && offset == 0 {
                    set_pointer(&mut self.write_pointers, z, 0);
                    proof {
                        assert(self@.write_pointers =~= before.after(*iod).write_pointers);
                    }
                    Handling::Done(0)
                } else {
                    Handling::Done(-EINVAL)
                }
            },
            Operation::ZoneResetAll => {
                let mut i: usize = 0;
                while i < self.write_pointers.len()
                    invariant
                        before.wf(),
                        i <= self.write_pointers.len(),
                        self.zone_sectors == before.zone_sectors,
                        self.write_pointers.len() == before.write_pointers.len(),
                        forall|j: int| 0 <= j < i ==> #[trigger] self.write_pointers[j] == 0,
                        forall|j: int|
                            i <= j < self.write_pointers.len() ==> #[trigger] self.write_pointers[j]
                                == before.write_pointers[j],
                    decreases self.write_pointers.len() - i,
                {
                    set_pointer(&mut self.write_pointers, i, 0);
                    i += 1;
                }
                proof {
                    assert(self@.write_pointers =~= before.after(*iod).write_pointers);
                }
                Handling::Done(0)
            },
            _ => Handling::Done(-EINVAL),
        }
    }
}

/// Creates a zoned device from its options: the descriptor of the device and
/// its zones, all empty. Says why where the options describe no device.
pub fn create(queue_count: u16, queue_depth: u16, opt: &ZonedAddArgs) -> (r: Result<
    (DeviceDescriptor, ZonedTarget),
    ConfigError,
>)
    ensures
        match creation_error(queue_count, queue_depth, *opt) {
            Some(e) => r == Err::<(DeviceDescriptor, ZonedTarget), ConfigError>(e),
            None => {
                &&& r is Ok
                &&& r->Ok_0.0@ == configured(queue_count, queue_depth, *opt)
                &&& r->Ok_0.1@ == ZonedModel::empty(
                    (opt.zone_size * SECTORS_PER_MIB) as u64,
                    (opt.size as int / opt.zone_size as int) as nat,
                )
                &&& r->Ok_0.1@.wf()
                &&& r->Ok_0.1@.dev_sectors() * SECTOR_SIZE == r->Ok_0.0@.capacity
            },
        },
{
    if opt.zone_size == 0 || opt.size == 0 || opt.size % opt.zone_size != 0 {
        return Err(ConfigError::InvalidZoneSize);
    }
    let mut dev = DeviceBuilder::new(queue_count, queue_depth);
    dev.set_default_params((opt.size as u64) * MIB);
    opt.gen_arg.apply_block_size(&mut dev);
    opt.gen_arg.apply_read_only(&mut dev);
    let descriptor = DeviceDescriptor::build(dev)?;
    let zone_sectors: u64 = (opt.zone_size as u64) * SECTORS_PER_MIB;
    let nr_zones: u32 = opt.size / opt.zone_size;
    proof {
        let n = nr_zones as int;
        let zs = opt.zone_size as int;
        let size = opt.size as int;
        assert(n * zs == size && n > 0) by (nonlinear_arith)
            requires
                size % zs == 0,
                n == size / zs,
                zs > 0,
                size > 0,
        ;
        assert(n * (zs * 2048) * 512 == size * 1_048_576) by (nonlinear_arith)
            requires
                n * zs == size,
        ;
        assert(ZonedModel::empty(zone_sectors, nr_zones as nat).wf());
    }
    match ZonedTarget::new(zone_sectors, nr_zones) {
        Some(zones) => Ok((descriptor, zones)),
        None => unreached(),
    }
}

/// Sequential writing is enforced: a write within the device is performed
/// exactly when it starts at the write pointer of its zone and ends within
/// the zone. It then moves that write pointer on by its length and no other;
/// a write that is refused moves none.
pub proof fn lemma_sequential_write_required(zones: ZonedModel, iod: IoDescriptor)
    requires
        zones.wf(),
        iod.spec_operation() == Operation::Write,
        in_range(iod, zones.dev_sectors() as u64),
    ensures
        zones.handling(iod) is Backing <==> zones.write_in_order(iod),
        !zones.write_in_order(iod) ==> zones.handling(iod) == Handling::Done((-EIO) as i32)
            && zones.after(iod) == zones,
        zones.write_in_order(iod) ==> {
            let z = zones.zone_of(iod.start_sector);
            &&& 0 <= z < zones.write_pointers.len()
            &&& zones.after(iod).write_pointers[z] == zones.write_pointers[z] + iod.nr_sectors
            &&& forall|other: int|
                0 <= other < zones.write_pointers.len() && other != z
                    ==> zones.after(iod).write_pointers[other] == zones.write_pointers[other]
        },
        zones.after(iod).wf(),
{
    lemma_zone_of(zones.zone_sectors, zones.write_pointers.len() as int, iod.start_sector);
}

/// An append lands at the write pointer: where the zone it names has room,
/// the data starts at the sector where the write pointer stood, which is
/// reported, and the write pointer moves on by the length of the data.
pub proof fn lemma_append_lands_at_write_pointer(zones: ZonedModel, iod: IoDescriptor)
    requires
        zones.wf(),
        iod.spec_operation() == Operation::ZoneAppend,
        zones.append_fits(iod),
    ensures
        zones.handling(iod) is Append,
        zones.handling(iod)->sector == iod.start_sector + zones.write_pointers[zones.zone_of(
            iod.start_sector,
        )],
        zones.handling(iod)->io.offset == zones.handling(iod)->sector * SECTOR_SIZE,
        zones.handling(iod)->io.len == iod.nr_sectors * SECTOR_SIZE,
        zones.handling(iod)->sector + iod.nr_sectors <= zones.dev_sectors(),
        zones.after(iod).write_pointers[zones.zone_of(iod.start_sector)]
            == zones.write_pointers[zones.zone_of(iod.start_sector)] + iod.nr_sectors,
        zones.after(iod).wf(),
{
    let z = zones.zone_of(iod.start_sector);
    lemma_zone_of(zones.zone_sectors, zones.write_pointers.len() as int, iod.start_sector);
    lemma_zone_bounds(zones.zone_sectors, zones.write_pointers, z);
}

} // verus!

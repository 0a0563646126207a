use rublk::protocol::{
    Completion, IoDescriptor, Opcode, Operation, SECTOR_SHIFT, SECTOR_SIZE,
    UBLK_IO_COMMIT_AND_FETCH_REQ, UBLK_IO_FETCH_REQ, UBLK_IO_RES_ABORT,
};

#[test]
fn opcode_numbers() {
    assert_eq!(UBLK_IO_FETCH_REQ, 0x20);
    assert_eq!(UBLK_IO_COMMIT_AND_FETCH_REQ, 0x21);
    assert_eq!(Opcode::FetchReq.code(), 0x20);
    assert_eq!(Opcode::CommitAndFetchReq.code(), 0x21);
}

#[test]
fn opcode_round_trip() {
    for op in [Opcode::FetchReq, Opcode::CommitAndFetchReq] {
        assert_eq!(Opcode::from_code(op.code()), Some(op));
    }
    assert_eq!(Opcode::from_code(0x20), Some(Opcode::FetchReq));
    assert_eq!(Opcode::from_code(0x21), Some(Opcode::CommitAndFetchReq));
    assert_eq!(Opcode::from_code(0x22), None);
    assert_eq!(Opcode::from_code(0), None);
    assert_eq!(Opcode::from_code(u32::MAX), None);
}

#[test]
fn abort_sentinel_is_minus_enodev() {
    assert_eq!(UBLK_IO_RES_ABORT, -19);
    assert!(Completion { tag: 3, result_code: -19 }.is_abort());
    assert!(!Completion { tag: 3, result_code: 0 }.is_abort());
    assert!(!Completion { tag: 3, result_code: 19 }.is_abort());
    assert!(!Completion { tag: 3, result_code: -5 }.is_abort());
    assert!(!Completion { tag: 3, result_code: 4096 }.is_abort());
}

#[test]
fn sector_is_512_bytes() {
    assert_eq!(SECTOR_SIZE, 512);
    assert_eq!(1u32 << SECTOR_SHIFT, SECTOR_SIZE);
}

#[test]
fn operation_numbers() {
    let expected = [
        (0u8, Operation::Read),
        (1, Operation::Write),
        (2, Operation::Flush),
        (3, Operation::Discard),
        (4, Operation::WriteSame),
        (5, Operation::WriteZeroes),
        (10, Operation::ZoneOpen),
        (11, Operation::ZoneClose),
        (12, Operation::ZoneFinish),
        (13, Operation::ZoneAppend),
        (14, Operation::ZoneResetAll),
        (15, Operation::ZoneReset),
        (18, Operation::ReportZones),
    ];
    for (op, operation) in expected {
        assert_eq!(Operation::from_op(op), operation);
    }
    for op in [6u8, 7, 8, 9, 16, 17, 19, 100, 255] {
        assert_eq!(Operation::from_op(op), Operation::Other(op));
    }
}

#[test]
fn descriptor_splits_op_and_flags() {
    let iod = IoDescriptor { op_flags: 0x0004_0301, nr_sectors: 8, start_sector: 16, addr: 0 };
    assert_eq!(iod.op(), 1);
    assert_eq!(iod.flags(), 0x0403);
    assert_eq!(iod.operation(), Operation::Write);

    let iod = IoDescriptor { op_flags: u32::MAX, nr_sectors: 0, start_sector: 0, addr: 0 };
    assert_eq!(iod.op(), 255);
    assert_eq!(iod.flags(), 0x00ff_ffff);
    assert_eq!(iod.operation(), Operation::Other(255));

    for op_flags in [0u32, 1, 0xff, 0x100, 0x1234_5678, 0xffff_ff0d] {
        let iod = IoDescriptor { op_flags, nr_sectors: 0, start_sector: 0, addr: 0 };
        assert_eq!(iod.flags() * 256 + iod.op() as u32, op_flags);
    }
}

use ipcc_data::v1::{IpccPanicDataV1, V1_LEN};
use ipcc_data::{
    Addr, Cpuid, DecodeError, PanicCause, PanicData, PanicDataVersion, StackFrame,
};

struct SlotV1 {
    symbol: Vec<u8>,
    addr: u64,
    offset: u64,
}

struct RecordV1 {
    version: u8,
    cause: u16,
    error: u32,
    cpuid: u32,
    thread: u64,
    addr: u64,
    pc: u64,
    fp: u64,
    rp: u64,
    message: Vec<u8>,
    stackidx: u8,
    slots: Vec<SlotV1>,
}

fn padded(bytes: &[u8], width: usize) -> Vec<u8> {
    let mut field = bytes.to_vec();
    assert!(field.len() <= width);
    field.resize(width, 0);
    field
}

/// The inverse of the version 1 parser.
fn encode_v1(r: &RecordV1) -> Vec<u8> {
    let mut d = Vec::new();
    d.push(r.version);
    d.extend_from_slice(&r.cause.to_le_bytes());
    d.extend_from_slice(&r.error.to_le_bytes());
    d.extend_from_slice(&r.cpuid.to_le_bytes());
    d.extend_from_slice(&r.thread.to_le_bytes());
    d.extend_from_slice(&r.addr.to_le_bytes());
    d.extend_from_slice(&r.pc.to_le_bytes());
    d.extend_from_slice(&r.fp.to_le_bytes());
    d.extend_from_slice(&r.rp.to_le_bytes());
    d.extend_from_slice(&padded(&r.message, 128));
    d.push(r.stackidx);
    for i in 0..16 {
        match r.slots.get(i) {
            Some(slot) => {
                d.extend_from_slice(&padded(&slot.symbol, 32));
                d.extend_from_slice(&slot.addr.to_le_bytes());
                d.extend_from_slice(&slot.offset.to_le_bytes());
            }
            None => d.extend_from_slice(&[0u8; 48]),
        }
    }
    d.push(0);
    d.extend_from_slice(&[0u8; 256]);
    d
}

fn sample_v1() -> RecordV1 {
    RecordV1 {
        version: 1,
        cause: 0xa900,
        error: 0x0000_000e,
        cpuid: 17,
        thread: 0xffff_fe00_1234_5678,
        addr: 0x0000_0000_dead_beef,
        pc: 0xffff_ffff_f800_1000,
        fp: 0xffff_fe00_0000_0ff0,
        rp: 0xffff_fe00_0000_0e00,
        message: b"BAD TRAP: type=e (#pf Page fault)".to_vec(),
        stackidx: 3,
        slots: vec![
            SlotV1 { symbol: b"die".to_vec(), addr: 0xffff_ffff_f800_2000, offset: 0x11a },
            SlotV1 { symbol: b"trap".to_vec(), addr: 0xffff_ffff_f800_3000, offset: 0x8c3 },
            SlotV1 { symbol: b"cmntrap".to_vec(), addr: 0xffff_ffff_f800_4000, offset: 0xe9 },
        ],
    }
}

fn frame(symbol: Option<&str>, address: u64, offset: u64) -> StackFrame {
    StackFrame { address: Addr(address), symbol: symbol.map(|s| s.to_string()), offset }
}

#[test]
fn v1_wire_form_has_the_record_size() {
    assert_eq!(encode_v1(&sample_v1()).len(), 1205);
    assert_eq!(V1_LEN, 1205);
}

#[test]
fn v1_round_trip_reproduces_every_field() {
    let r = sample_v1();
    let p = PanicData::from_v1(PanicDataVersion::Determined(1), encode_v1(&r)).unwrap();
    let expected = PanicData {
        version: PanicDataVersion::Determined(1),
        cause: PanicCause::Trap,
        error_code: 0xe,
        cpuid: Cpuid(17),
        hrtime: None,
        time: None,
        thread: Addr(0xffff_fe00_1234_5678),
        addr: Addr(0xdead_beef),
        pc: Addr(0xffff_ffff_f800_1000),
        fp: Addr(0xffff_fe00_0000_0ff0),
        rp: Addr(0xffff_fe00_0000_0e00),
        message: Some("BAD TRAP: type=e (#pf Page fault)".to_string()),
        registers: None,
        stack: vec![
            frame(Some("die"), 0xffff_ffff_f800_2000, 0x11a),
            frame(Some("trap"), 0xffff_ffff_f800_3000, 0x8c3),
            frame(Some("cmntrap"), 0xffff_ffff_f800_4000, 0xe9),
        ],
    };
    assert_eq!(p, expected);
}

#[test]
fn v1_round_trip_through_from_bytes() {
    let r = sample_v1();
    let p = PanicData::from_bytes(encode_v1(&r)).unwrap().unwrap();
    assert_eq!(p.version, PanicDataVersion::Determined(1));
    assert_eq!(p.cause, PanicCause::Trap);
    assert_eq!(p.error_code, r.error);
    assert_eq!(p.cpuid, Cpuid(r.cpuid));
    assert_eq!(p.thread, Addr(r.thread));
    assert_eq!(p.addr, Addr(r.addr));
    assert_eq!(p.pc, Addr(r.pc));
    assert_eq!(p.fp, Addr(r.fp));
    assert_eq!(p.rp, Addr(r.rp));
    assert_eq!(p.stack.len(), 3);
}

#[test]
fn v1_has_neither_times_nor_registers() {
    let p = PanicData::from_v1(PanicDataVersion::Determined(1), encode_v1(&sample_v1())).unwrap();
    assert_eq!(p.hrtime, None);
    assert_eq!(p.time, None);
    assert!(p.registers.is_none());
}

#[test]
fn v1_version_is_handed_on() {
    let p = PanicData::from_v1(PanicDataVersion::Inferred(1), encode_v1(&sample_v1())).unwrap();
    assert_eq!(p.version, PanicDataVersion::Inferred(1));
}

#[test]
fn v1_only_slots_in_use_appear() {
    let mut r = sample_v1();
    r.slots = (0..16)
        .map(|i| SlotV1 {
            symbol: format!("fn{}", i).into_bytes(),
            addr: 0x1000 + i as u64,
            offset: i as u64,
        })
        .collect();
    r.stackidx = 2;
    let p = PanicData::from_v1(PanicDataVersion::Determined(1), encode_v1(&r)).unwrap();
    assert_eq!(
        p.stack,
        vec![frame(Some("fn0"), 0x1000, 0), frame(Some("fn1"), 0x1001, 1)]
    );
}

#[test]
fn v1_stack_keeps_slot_order() {
    let mut r = sample_v1();
    r.slots = (0..16)
        .map(|i| SlotV1 {
            symbol: format!("fn{}", 15 - i).into_bytes(),
            addr: 0x9000 - 0x100 * i as u64,
            offset: (7 * i as u64) % 5,
        })
        .collect();
    r.stackidx = 16;
    let p = PanicData::from_v1(PanicDataVersion::Determined(1), encode_v1(&r)).unwrap();
    assert_eq!(p.stack.len(), 16);
    for i in 0..16 {
        assert_eq!(
            p.stack[i],
            frame(
                Some(&format!("fn{}", 15 - i)),
                0x9000 - 0x100 * i as u64,
                (7 * i as u64) % 5
            )
        );
    }
}

#[test]
fn v1_count_beyond_the_slots_gives_all_slots() {
    let mut r = sample_v1();
    r.stackidx = 200;
    let p = PanicData::from_v1(PanicDataVersion::Determined(1), encode_v1(&r)).unwrap();
    assert_eq!(p.stack.len(), 16);
    assert_eq!(p.stack[2], frame(Some("cmntrap"), 0xffff_ffff_f800_4000, 0xe9));
    assert_eq!(p.stack[3], frame(Some(""), 0, 0));
}

#[test]
fn v1_empty_stack() {
    let mut r = sample_v1();
    r.stackidx = 0;
    let p = PanicData::from_v1(PanicDataVersion::Determined(1), encode_v1(&r)).unwrap();
    assert!(p.stack.is_empty());
}

#[test]
fn v1_message_that_is_not_utf8_fails() {
    let mut r = sample_v1();
    r.message = vec![b'o', b'k', 0xff, b'!'];
    assert_eq!(
        PanicData::from_v1(PanicDataVersion::Determined(1), encode_v1(&r)),
        Err(DecodeError::InvalidMessageEncoding)
    );
    assert_eq!(
        PanicData::from_bytes(encode_v1(&r)),
        Err(DecodeError::InvalidMessageEncoding)
    );
}

#[test]
fn v1_symbol_that_is_not_utf8_is_absent() {
    let mut r = sample_v1();
    r.slots[1].symbol = vec![0xc3, 0x28];
    let p = PanicData::from_v1(PanicDataVersion::Determined(1), encode_v1(&r)).unwrap();
    assert_eq!(p.stack[0].symbol.as_deref(), Some("die"));
    assert_eq!(p.stack[1], frame(None, 0xffff_ffff_f800_3000, 0x8c3));
    assert_eq!(p.stack[2].symbol.as_deref(), Some("cmntrap"));
}

#[test]
fn v1_trailing_padding_is_trimmed() {
    let mut r = sample_v1();
    r.message = b"hi\0\0\0".to_vec();
    let p = PanicData::from_v1(PanicDataVersion::Determined(1), encode_v1(&r)).unwrap();
    assert_eq!(p.message.as_deref(), Some("hi"));
}

#[test]
fn v1_message_of_full_width_is_kept_whole() {
    let mut r = sample_v1();
    r.message = vec![b'x'; 128];
    let p = PanicData::from_v1(PanicDataVersion::Determined(1), encode_v1(&r)).unwrap();
    assert_eq!(p.message, Some("x".repeat(128)));
}

#[test]
fn v1_empty_message_is_present_and_empty() {
    let mut r = sample_v1();
    r.message = Vec::new();
    let p = PanicData::from_v1(PanicDataVersion::Determined(1), encode_v1(&r)).unwrap();
    assert_eq!(p.message.as_deref(), Some(""));
}

#[test]
fn v1_nul_inside_the_text_is_kept() {
    let mut r = sample_v1();
    r.message = b"a\0b".to_vec();
    r.slots[0].symbol = b"x\0y".to_vec();
    let p = PanicData::from_v1(PanicDataVersion::Determined(1), encode_v1(&r)).unwrap();
    assert_eq!(p.message.as_deref(), Some("a\0b"));
    assert_eq!(p.stack[0].symbol.as_deref(), Some("x\0y"));
}

#[test]
fn v1_multibyte_text() {
    let mut r = sample_v1();
    r.message = "pánico ∞".as_bytes().to_vec();
    r.slots[0].symbol = "λ_fn".as_bytes().to_vec();
    let p = PanicData::from_v1(PanicDataVersion::Determined(1), encode_v1(&r)).unwrap();
    assert_eq!(p.message.as_deref(), Some("pánico ∞"));
    assert_eq!(p.stack[0].symbol.as_deref(), Some("λ_fn"));
}

#[test]
fn v1_short_buffer_is_truncated() {
    let d = encode_v1(&sample_v1());
    for len in [0usize, 1, 50, 179, 948, 1204] {
        assert_eq!(
            PanicData::from_v1(PanicDataVersion::Determined(1), d[..len].to_vec()),
            Err(DecodeError::TruncatedInput)
        );
        assert_eq!(
            IpccPanicDataV1::read_le(&d[..len]),
            Err(DecodeError::TruncatedInput)
        );
    }
}

#[test]
fn v1_bytes_after_the_record_are_ignored() {
    let mut d = encode_v1(&sample_v1());
    let short = PanicData::from_v1(PanicDataVersion::Determined(1), d.clone()).unwrap();
    d.extend_from_slice(&[0xffu8; 2891]);
    let long = PanicData::from_v1(PanicDataVersion::Determined(1), d).unwrap();
    assert_eq!(short, long);
}

#[test]
fn v1_unknown_cause_keeps_its_code() {
    let mut r = sample_v1();
    r.cause = 0x1234;
    let p = PanicData::from_v1(PanicDataVersion::Determined(1), encode_v1(&r)).unwrap();
    assert_eq!(p.cause, PanicCause::Unknown(0x1234));
}

#[test]
fn v1_layout_parser_reads_each_field() {
    let r = sample_v1();
    let mut d = encode_v1(&r);
    d[948] = 7;
    d[949] = 0xab;
    d[1204] = 0xcd;
    let raw = IpccPanicDataV1::read_le(&d).unwrap();
    assert_eq!(raw.ipd_version, 1);
    assert_eq!(raw.ipd_cause, 0xa900);
    assert_eq!(raw.ipd_error, 0xe);
    assert_eq!(raw.ipd_cpuid, 17);
    assert_eq!(raw.ipd_thread, r.thread);
    assert_eq!(raw.ipd_addr, r.addr);
    assert_eq!(raw.ipd_pc, r.pc);
    assert_eq!(raw.ipd_fp, r.fp);
    assert_eq!(raw.ipd_rp, r.rp);
    assert_eq!(raw.ipd_message, padded(&r.message, 128));
    assert_eq!(raw.ipd_stackidx, 3);
    assert_eq!(raw.ipd_stack.len(), 16);
    assert_eq!(raw.ipd_stack[1].ips_symbol, padded(b"trap", 32));
    assert_eq!(raw.ipd_stack[1].ips_addr, 0xffff_ffff_f800_3000);
    assert_eq!(raw.ipd_stack[1].ips_offset, 0x8c3);
    assert_eq!(raw.ipd_stack[15].ips_symbol, vec![0u8; 32]);
    assert_eq!(raw.ipd_dataidx, 7);
    assert_eq!(raw.ipd_data.len(), 256);
    assert_eq!(raw.ipd_data[0], 0xab);
    assert_eq!(raw.ipd_data[255], 0xcd);
}

use ipcc_data::display::{decimal_string, hex_string};
use ipcc_data::registers::collect_registers;
use ipcc_data::panic_data::find_message;
use ipcc_data::text::decode_padded;
use ipcc_data::v2::{IpccPanicItem, IpccPanicItemType};
use ipcc_data::wire::{get_bytes, get_u16, get_u32, get_u64, get_u8};
use ipcc_data::{
    Addr, BootSpHeader, DecodeError, PanicCause, PanicDataVersion, Register, StackFrame,
};

#[test]
fn version_number() {
    assert_eq!(PanicDataVersion::Determined(1).number(), 1);
    assert_eq!(PanicDataVersion::Inferred(2).number(), 2);
    assert_eq!(PanicDataVersion::Determined(0x3f).number(), 0x3f);
    assert_eq!(PanicDataVersion::Inferred(0).number(), 0);
}

#[test]
fn version_text() {
    assert_eq!(PanicDataVersion::Determined(1).to_string(), "1 (determined)");
    assert_eq!(PanicDataVersion::Inferred(2).to_string(), "2 (inferred)");
    assert_eq!(PanicDataVersion::Determined(63).to_string(), "63 (determined)");
    assert_eq!(PanicDataVersion::Inferred(255).to_string(), "255 (inferred)");
    assert_eq!(PanicDataVersion::Inferred(0).to_string(), "0 (inferred)");
}

#[test]
fn cause_of_each_code() {
    assert_eq!(PanicCause::from(0xca11), PanicCause::Call);
    assert_eq!(PanicCause::from(0xa900), PanicCause::Trap);
    assert_eq!(PanicCause::from(0x5e00), PanicCause::UserTrap);
    assert_eq!(PanicCause::from(0xeb00), PanicCause::EarlyBoot);
    assert_eq!(PanicCause::from(0xeb97), PanicCause::EarlyBootPROM);
    assert_eq!(PanicCause::from(0xeba9), PanicCause::EarlyBootTrap);
    assert_eq!(PanicCause::from(0xebff), PanicCause::EarlyBootUnknown);
}

#[test]
fn cause_of_other_codes_is_unknown() {
    for code in [0u16, 1, 0xca10, 0xca12, 0x11ca, 0xa901, 0xeb01, 0xffff] {
        assert_eq!(PanicCause::from(code), PanicCause::Unknown(code));
    }
}

#[test]
fn cause_text() {
    assert_eq!(PanicCause::Call.to_string(), "IPCC_PANIC_CALL");
    assert_eq!(PanicCause::Trap.to_string(), "IPCC_PANIC_TRAP");
    assert_eq!(PanicCause::UserTrap.to_string(), "IPCC_PANIC_USERTRAP");
    assert_eq!(PanicCause::EarlyBoot.to_string(), "IPCC_PANIC_EARLYBOOT");
    assert_eq!(PanicCause::EarlyBootPROM.to_string(), "IPCC_PANIC_EARLYBOOT_PROM");
    assert_eq!(PanicCause::EarlyBootTrap.to_string(), "IPCC_PANIC_EARLYBOOT_TRAP");
    assert_eq!(PanicCause::EarlyBootUnknown.to_string(), "IPCC_PANIC_EARLYBOOT_*");
    assert_eq!(PanicCause::Unknown(0x42).to_string(), "<Unknown cause 0x0042>");
    assert_eq!(PanicCause::Unknown(0).to_string(), "<Unknown cause 0x0000>");
    assert_eq!(PanicCause::Unknown(0xbeef).to_string(), "<Unknown cause 0xbeef>");
    assert_eq!(PanicCause::Unknown(0x0a0b).to_string(), "<Unknown cause 0x0a0b>");
}

#[test]
fn cause_text_is_what_std_formats() {
    for code in [0u16, 9, 0x10, 0xff, 0x100, 0xabc, 0x1000, 0xffff] {
        assert_eq!(
            PanicCause::Unknown(code).to_string(),
            format!("<Unknown cause {:#06x}>", code)
        );
    }
}

#[test]
fn stack_frame_text() {
    let known = StackFrame {
        address: Addr(0xffff_ffff_f800_2000),
        symbol: Some("die".to_string()),
        offset: 0x11a,
    };
    assert_eq!(known.to_string(), "die+0x11a");
    let unknown = StackFrame { address: Addr(0xffff_ffff_f800_2000), symbol: None, offset: 0x11a };
    assert_eq!(unknown.to_string(), "0xfffffffff8002000");
    let zero = StackFrame { address: Addr(0), symbol: Some(String::new()), offset: 0 };
    assert_eq!(zero.to_string(), "+0x0");
}

#[test]
fn numbers_as_text() {
    for v in [0u64, 1, 9, 10, 15, 16, 99, 100, 255, 256, 0xdead_beef, u64::MAX] {
        assert_eq!(hex_string(v), format!("{:x}", v));
        assert_eq!(decimal_string(v), format!("{}", v));
    }
    assert_eq!(hex_string(0xabcdef), "abcdef");
    assert_eq!(decimal_string(18446744073709551615), "18446744073709551615");
}

#[test]
fn fields_are_little_endian() {
    let d = [0x11u8, 0xca, 0x78, 0x56, 0x34, 0x12, 0xef, 0xcd, 0xab, 0x90, 0xff];
    assert_eq!(get_u8(&d, 0), Ok(0x11));
    assert_eq!(get_u8(&d, 10), Ok(0xff));
    assert_eq!(get_u16(&d, 0), Ok(0xca11));
    assert_eq!(get_u16(&d, 1), Ok(0x78ca));
    assert_eq!(get_u32(&d, 2), Ok(0x1234_5678));
    assert_eq!(get_u64(&d, 2), Ok(0x90ab_cdef_1234_5678));
    assert_eq!(get_u64(&d, 3), Ok(0xff90_abcd_ef12_3456));
}

#[test]
fn fields_beyond_the_end_are_truncated() {
    let d = [1u8, 2, 3, 4, 5, 6, 7, 8];
    assert_eq!(get_u8(&d, 8), Err(DecodeError::TruncatedInput));
    assert_eq!(get_u8(&d, usize::MAX), Err(DecodeError::TruncatedInput));
    assert_eq!(get_u16(&d, 7), Err(DecodeError::TruncatedInput));
    assert_eq!(get_u16(&d, 6), Ok(0x0807));
    assert_eq!(get_u32(&d, 5), Err(DecodeError::TruncatedInput));
    assert_eq!(get_u32(&d, 4), Ok(0x0807_0605));
    assert_eq!(get_u64(&d, 1), Err(DecodeError::TruncatedInput));
    assert_eq!(get_u64(&d, 0), Ok(0x0807_0605_0403_0201));
    assert_eq!(get_u64(&[], 0), Err(DecodeError::TruncatedInput));
}

#[test]
fn byte_fields_are_copied() {
    let d = [1u8, 2, 3, 4, 5];
    assert_eq!(get_bytes(&d, 1, 3), Ok(vec![2, 3, 4]));
    assert_eq!(get_bytes(&d, 0, 5), Ok(vec![1, 2, 3, 4, 5]));
    assert_eq!(get_bytes(&d, 5, 0), Ok(vec![]));
    assert_eq!(get_bytes(&d, 6, 0), Err(DecodeError::TruncatedInput));
    assert_eq!(get_bytes(&d, 3, 3), Err(DecodeError::TruncatedInput));
    assert_eq!(get_bytes(&d, usize::MAX, 2), Err(DecodeError::TruncatedInput));
    assert_eq!(get_bytes(&d, 2, usize::MAX), Err(DecodeError::TruncatedInput));
}

#[test]
fn padded_text_fields() {
    assert_eq!(decode_padded(b"abc\0\0\0"), Some("abc".to_string()));
    assert_eq!(decode_padded(b"abc"), Some("abc".to_string()));
    assert_eq!(decode_padded(b"\0\0\0"), Some(String::new()));
    assert_eq!(decode_padded(b""), Some(String::new()));
    assert_eq!(decode_padded(b"a\0b\0"), Some("a\0b".to_string()));
    assert_eq!(decode_padded(b"\0ab\0"), Some("\0ab".to_string()));
    assert_eq!(decode_padded("é\0".as_bytes()), Some("é".to_string()));
    assert_eq!(decode_padded(b"ab\xff\0"), None);
    assert_eq!(decode_padded(b"\xe2\x82"), None);
}

fn lossy(bytes: &[u8]) -> String {
    let item = IpccPanicItem {
        ftype: IpccPanicItemType::Message,
        len: bytes.len() as u16 + 3,
        data: bytes.to_vec(),
    };
    find_message(&vec![item]).unwrap().unwrap()
}

#[test]
fn lossy_text_fields() {
    assert_eq!(lossy(b"plain"), "plain");
    assert_eq!(lossy(b""), "");
    assert_eq!(lossy("∞ é".as_bytes()), "∞ é");
    assert_eq!(lossy(b"a\xffb"), "a\u{fffd}b");
    assert_eq!(lossy(b"\xf0\x9f"), "\u{fffd}");
    assert_eq!(lossy(b"end\0"), "end\0");
}

#[test]
fn registers_of_a_dump() {
    let mut dump = [0u64; 30];
    for (i, slot) in dump.iter_mut().enumerate() {
        *slot = 1000 + i as u64;
    }
    let m = collect_registers(&dump);
    let pairs: Vec<(Register, u64)> = m.iter().map(|(k, v)| (*k, *v)).collect();
    assert_eq!(
        pairs,
        vec![
            (Register::rdi, 1002),
            (Register::rsi, 1003),
            (Register::rdx, 1004),
            (Register::rcx, 1005),
            (Register::r8, 1006),
            (Register::r9, 1007),
            (Register::rax, 1008),
            (Register::rbx, 1009),
            (Register::rbp, 1010),
            (Register::r10, 1011),
            (Register::r11, 1012),
            (Register::r12, 1013),
            (Register::r13, 1014),
            (Register::r14, 1015),
            (Register::fsbase, 1017),
            (Register::gsbase, 1018),
            (Register::es, 1020),
            (Register::fs, 1021),
            (Register::gs, 1022),
            (Register::trapno, 1023),
            (Register::err, 1024),
            (Register::rip, 1025),
            (Register::cs, 1026),
            (Register::rfl, 1027),
            (Register::rsp, 1028),
            (Register::ss, 1029),
        ]
    );
}

#[test]
fn boot_header_constants() {
    assert_eq!(BootSpHeader::MAGIC, 0x1DEB0075);
    assert_eq!(BootSpHeader::VERSION, 2);
    assert_eq!(BootSpHeader::HEADER_SIZE, 0x1000);
    assert_eq!(BootSpHeader::FLAG_COMPRESSED, 1);
}

#[test]
fn boot_header_holds_its_fields() {
    let header = BootSpHeader {
        magic: BootSpHeader::MAGIC,
        version: BootSpHeader::VERSION,
        flags: BootSpHeader::FLAG_COMPRESSED as u64,
        data_size: 1,
        image_size: 2,
        target_size: 3,
        sha256: [4; 32],
        dataset: [5; 128],
        imagename: [6; 128],
    };
    let copy = header;
    assert_eq!(copy.magic, 0x1DEB0075);
    assert_eq!(copy.flags, 1);
    assert_eq!(copy.sha256[31], 4);
    assert_eq!(copy.dataset[127], 5);
    assert_eq!(copy.imagename[0], 6);
    assert_eq!(header.target_size, 3);
}

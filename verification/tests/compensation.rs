use ipcc_data::fixup::{is_all_zero, reconstruct_cause_byte};
use ipcc_data::{fix_panic_data, DecodeError, PanicCause, PanicData, PanicDataVersion};

const RECORD_LEN: usize = 1205;
const CPUID_AT: usize = 7;
const STACK_AT: usize = 180;
const SLOT_LEN: usize = 48;

/// A version 1 record with the given CPU id, an ASCII symbol in each of the
/// sixteen stack slots, and the cause of an explicit call.
fn golden_record(cpuid: u32) -> Vec<u8> {
    let mut d = vec![0u8; RECORD_LEN];
    d[0] = 1;
    d[1] = 0x11;
    d[2] = 0xca;
    d[CPUID_AT..CPUID_AT + 4].copy_from_slice(&cpuid.to_le_bytes());
    d[51..51 + 5].copy_from_slice(b"panic");
    d[179] = 2;
    for slot in 0..16 {
        let at = STACK_AT + SLOT_LEN * slot;
        let symbol = format!("frame_{}", slot);
        d[at..at + symbol.len()].copy_from_slice(symbol.as_bytes());
        d[at + 32..at + 40].copy_from_slice(&(0xffff_0000u64 + slot as u64).to_le_bytes());
        d[at + 40..at + 48].copy_from_slice(&(0x10u64 * slot as u64).to_le_bytes());
    }
    d
}

/// The record as defective firmware sends it: without its first two bytes.
fn without_first_two(record: &[u8]) -> Vec<u8> {
    record[2..].to_vec()
}

#[test]
fn zeros_hold_no_panic_data() {
    for len in [0usize, 1, 2, 100, 1203, 1205, 4096] {
        assert_eq!(fix_panic_data(vec![0u8; len]), Ok(None));
        assert_eq!(PanicData::from_bytes(vec![0u8; len]), Ok(None));
    }
}

#[test]
fn is_all_zero_looks_at_every_byte() {
    assert!(is_all_zero(&[]));
    assert!(is_all_zero(&[0, 0, 0]));
    assert!(!is_all_zero(&[0, 0, 1]));
    assert!(!is_all_zero(&[1, 0, 0]));
}

#[test]
fn version_tag_leaves_buffer_unchanged() {
    for tag in [1u8, 2, 3, 0x20, 0x3e, 0x3f] {
        let mut d = vec![0u8; 64];
        d[0] = tag;
        d[10] = 0xaa;
        let expected = d.clone();
        assert_eq!(
            fix_panic_data(d),
            Ok(Some((PanicDataVersion::Determined(tag), expected)))
        );
    }
}

#[test]
fn version_tag_alone_is_enough() {
    assert_eq!(
        fix_panic_data(vec![1u8]),
        Ok(Some((PanicDataVersion::Determined(1), vec![1u8])))
    );
}

#[test]
fn unknown_first_byte_is_unrecoverable() {
    for first in [0x40u8, 0x80, 0xc9, 0xcb, 0xfe, 0xff] {
        let mut d = vec![0u8; RECORD_LEN];
        d[0] = first;
        assert_eq!(
            fix_panic_data(d),
            Err(DecodeError::UnrecoverableCauseByte(first))
        );
    }
}

#[test]
fn zero_first_byte_before_data_is_unrecoverable() {
    let mut d = vec![0u8; RECORD_LEN];
    d[5] = 1;
    assert_eq!(
        fix_panic_data(d.clone()),
        Err(DecodeError::UnrecoverableCauseByte(0))
    );
    assert_eq!(
        PanicData::from_bytes(d),
        Err(DecodeError::UnrecoverableCauseByte(0))
    );
}

#[test]
fn cause_byte_table() {
    assert_eq!(reconstruct_cause_byte(0xca), Some(0x11));
    assert_eq!(reconstruct_cause_byte(0x5e), Some(0x00));
    assert_eq!(reconstruct_cause_byte(0xa9), Some(0x00));
    assert_eq!(reconstruct_cause_byte(0xeb), Some(0xff));
    assert_eq!(reconstruct_cause_byte(0x00), None);
    assert_eq!(reconstruct_cause_byte(0x11), None);
    assert_eq!(reconstruct_cause_byte(0xec), None);
}

#[test]
fn small_cpuid_and_text_symbols_infer_version_1() {
    let record = golden_record(3);
    let (version, fixed) = fix_panic_data(without_first_two(&record))
        .unwrap()
        .unwrap();
    assert_eq!(version, PanicDataVersion::Inferred(1));
    assert_eq!(fixed.len(), RECORD_LEN);
    assert_eq!(fixed[0], 1);
    assert_eq!(fixed[1], 0x11);
    assert_eq!(fixed, record);
}

#[test]
fn large_cpuid_infers_version_2() {
    let record = golden_record(100_000);
    let (version, fixed) = fix_panic_data(without_first_two(&record))
        .unwrap()
        .unwrap();
    assert_eq!(version, PanicDataVersion::Inferred(2));
    assert_eq!(fixed[0], 2);
    assert_eq!(fixed[1], 0x11);
    assert_eq!(&fixed[2..], &record[2..]);
}

#[test]
fn cpuid_limit_is_exclusive() {
    let below = golden_record(511);
    let (version, _) = fix_panic_data(without_first_two(&below)).unwrap().unwrap();
    assert_eq!(version, PanicDataVersion::Inferred(1));
    let at = golden_record(512);
    let (version, _) = fix_panic_data(without_first_two(&at)).unwrap().unwrap();
    assert_eq!(version, PanicDataVersion::Inferred(2));
}

#[test]
fn binary_symbol_in_any_slot_infers_version_2() {
    for slot in [0usize, 7, 15] {
        let mut record = golden_record(3);
        record[STACK_AT + SLOT_LEN * slot + 4] = 0xff;
        let (version, fixed) = fix_panic_data(without_first_two(&record))
            .unwrap()
            .unwrap();
        assert_eq!(version, PanicDataVersion::Inferred(2));
        assert_eq!(fixed[0], 2);
    }
}

#[test]
fn each_known_high_byte_gets_its_low_byte() {
    for (high, low) in [(0xcau8, 0x11u8), (0x5e, 0x00), (0xa9, 0x00), (0xeb, 0xff)] {
        let mut record = golden_record(3);
        record[2] = high;
        let (version, fixed) = fix_panic_data(without_first_two(&record))
            .unwrap()
            .unwrap();
        assert_eq!(version, PanicDataVersion::Inferred(1));
        assert_eq!(fixed[1], low);
        assert_eq!(fixed[2], high);
    }
}

#[test]
fn short_defective_buffer_is_truncated() {
    let record = golden_record(3);
    let mut d = without_first_two(&record);
    d.pop();
    assert_eq!(fix_panic_data(d.clone()), Err(DecodeError::TruncatedInput));
    assert_eq!(PanicData::from_bytes(d), Err(DecodeError::TruncatedInput));
    assert_eq!(fix_panic_data(vec![0xca]), Err(DecodeError::TruncatedInput));
}

#[test]
fn longer_defective_buffer_keeps_its_tail() {
    let mut record = golden_record(3);
    record.extend_from_slice(&[9u8; 100]);
    let (version, fixed) = fix_panic_data(without_first_two(&record))
        .unwrap()
        .unwrap();
    assert_eq!(version, PanicDataVersion::Inferred(1));
    assert_eq!(fixed, record);
}

#[test]
fn defective_record_decodes_with_reconstructed_cause() {
    let record = golden_record(3);
    let p = PanicData::from_bytes(without_first_two(&record))
        .unwrap()
        .unwrap();
    assert_eq!(p.version, PanicDataVersion::Inferred(1));
    assert_eq!(p.cause, PanicCause::Call);
    assert_eq!(p.cpuid.0, 3);
    assert_eq!(p.message.as_deref(), Some("panic"));
    assert_eq!(p.stack.len(), 2);
    assert_eq!(p.stack[0].symbol.as_deref(), Some("frame_0"));
    assert_eq!(p.stack[1].symbol.as_deref(), Some("frame_1"));
}

#[test]
fn defective_records_get_the_generic_cause_of_their_high_byte() {
    for (high, cause) in [
        (0x5eu8, PanicCause::UserTrap),
        (0xa9, PanicCause::Trap),
        (0xeb, PanicCause::EarlyBootUnknown),
    ] {
        let mut record = golden_record(3);
        record[1] = 0x97;
        record[2] = high;
        let p = PanicData::from_bytes(without_first_two(&record))
            .unwrap()
            .unwrap();
        assert_eq!(p.cause, cause);
    }
}

#[test]
fn intact_record_is_determined() {
    let record = golden_record(3);
    let p = PanicData::from_bytes(record).unwrap().unwrap();
    assert_eq!(p.version, PanicDataVersion::Determined(1));
    assert_eq!(p.cause, PanicCause::Call);
}

#[test]
fn determined_version_other_than_1_and_2_is_unsupported() {
    for tag in [3u8, 0x10, 0x3f] {
        let mut d = golden_record(3);
        d[0] = tag;
        assert_eq!(
            PanicData::from_bytes(d),
            Err(DecodeError::UnsupportedVersion(tag))
        );
    }
}

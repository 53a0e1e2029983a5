//! Repair of a buffer that lost its first two bytes, and detection of the
//! version of the record that it holds.
//!
//! Some firmware drops the first two bytes of a panic record: the version
//! byte and the low byte of the cause.  The high byte of every known cause
//! is larger than any version number, so the first byte of a buffer tells
//! whether the buffer is intact.  Where it is not, the low byte of the cause
//! is guessed from the high byte, and the version is inferred from what the
//! buffer holds where a version 1 record has its CPU id and its stack
//! symbols.

use crate::types::{DecodeError, PanicCause, PanicDataVersion};
use crate::v1::{v1_slot_symbol, IpccPanicDataV1, IPCC_PANIC_V1_STACKS, V1_CPUID, V1_LEN};
use crate::wire::{le_u16, le_u32};
use vstd::prelude::*;
use vstd::utf8::valid_utf8;

verus! {

/// The largest value that the version byte can take.
pub const IPCC_PANIC_VERSION_MAX: u8 = 0x3f;

/// The byte that stands in for the version until it is inferred.
pub const VERSION_PLACEHOLDER: u8 = 0xff;

/// CPU ids are below this bound; a larger value where a version 1 record
/// has its CPU id is part of a time stamp of a version 2 record.
pub const CPUID_LIMIT: u32 = 512;

/// Every byte of the buffer is zero.
pub open spec fn all_zero(s: Seq<u8>) -> bool {
    forall|i: int| 0 <= i < s.len() ==> s[i] == 0
}

/// The byte is a version number.
pub open spec fn is_version_tag(b: u8) -> bool {
    0 < b <= IPCC_PANIC_VERSION_MAX
}

/// The low byte of the cause that is assumed where only its high byte
/// arrived, or `None` where no cause has that high byte.
pub open spec fn missing_cause_byte(high: u8) -> Option<u8> {
    if high == 0xca {
        Some(0x11u8)
    } else if high == 0x5e {
        Some(0x00u8)
    } else if high == 0xa9 {
        Some(0x00u8)
    } else if high == 0xeb {
        Some(0xffu8)
    } else {
        None
    }
}

/// The cause that a record is given where only the high byte of its cause
/// arrived: the one whose code is that byte and the assumed low byte.
pub open spec fn reconstructed_cause(high: u8) -> Option<PanicCause> {
    match missing_cause_byte(high) {
        Some(low) => Some(PanicCause::of_code((0x100 * (high as int) + low as int) as u16)),
        None => None,
    }
}

/// The causes that reconstruction arrives at: an explicit call, and for
/// traps, user traps and panics early in boot the generic cause of the kind.
pub proof fn lemma_reconstructed_causes()
    ensures
        reconstructed_cause(0xca) == Some(PanicCause::Call),
        reconstructed_cause(0x5e) == Some(PanicCause::UserTrap),
        reconstructed_cause(0xa9) == Some(PanicCause::Trap),
        reconstructed_cause(0xeb) == Some(PanicCause::EarlyBootUnknown),
        forall|high: u8|
            high != 0xca && high != 0x5e && high != 0xa9 && high != 0xeb
                ==> #[trigger] reconstructed_cause(high) is None,
{
}

/// Each of the stack slots that a version 1 record would have holds a
/// symbol field that is valid UTF-8.
pub open spec fn v1_symbols_valid(s: Seq<u8>) -> bool {
    forall|i: int| 0 <= i < IPCC_PANIC_V1_STACKS ==> valid_utf8(#[trigger] v1_slot_symbol(s, i))
}

/// The version of the record in a repaired buffer: 1 where the buffer looks
/// like a version 1 record, and 2 otherwise.
pub open spec fn inferred_version(s: Seq<u8>) -> u8 {
    if le_u32(s, V1_CPUID as int) < CPUID_LIMIT && v1_symbols_valid(s) {
        1
    } else {
        2
    }
}

/// The version byte plays no part in the inference.
pub proof fn lemma_inference_ignores_version(s: Seq<u8>, version: u8)
    requires
        s.len() >= V1_LEN,
    ensures
        inferred_version(s.update(0, version)) == inferred_version(s),
{
    let t = s.update(0, version);
    assert(le_u32(t, V1_CPUID as int) == le_u32(s, V1_CPUID as int));
    assert forall|i: int| 0 <= i < IPCC_PANIC_V1_STACKS implies v1_slot_symbol(t, i)
        == v1_slot_symbol(s, i) by {
        assert(v1_slot_symbol(t, i) =~= v1_slot_symbol(s, i));
    }
    if v1_symbols_valid(s) {
        assert forall|i: int| 0 <= i < IPCC_PANIC_V1_STACKS implies valid_utf8(
            #[trigger] v1_slot_symbol(t, i),
        ) by {
            assert(v1_slot_symbol(t, i) == v1_slot_symbol(s, i));
        }
    }
    if v1_symbols_valid(t) {
        assert forall|i: int| 0 <= i < IPCC_PANIC_V1_STACKS implies valid_utf8(
            #[trigger] v1_slot_symbol(s, i),
        ) by {
            assert(v1_slot_symbol(t, i) == v1_slot_symbol(s, i));
        }
    }
}

/// A buffer with the two lost bytes put back: a placeholder for the
/// version, and the low byte of the cause.
pub open spec fn restored(d: Seq<u8>, low: u8) -> Seq<u8> {
    seq![VERSION_PLACEHOLDER, low] + d
}

/// What compensation makes of a buffer: nothing where the buffer holds no
/// panic data, the version and the buffer to decode where it holds some, or
/// the reason why it cannot be repaired.
pub open spec fn compensated(d: Seq<u8>) -> Result<
    Option<(PanicDataVersion, Seq<u8>)>,
    DecodeError,
> {
    if all_zero(d) {
        Ok(None)
    } else if is_version_tag(d[0]) {
        Ok(Some((PanicDataVersion::Determined(d[0]), d)))
    } else {
        match missing_cause_byte(d[0]) {
            None => Err(DecodeError::UnrecoverableCauseByte(d[0])),
            Some(low) => {
                let fixed = restored(d, low);
                if fixed.len() < V1_LEN {
                    Err(DecodeError::TruncatedInput)
                } else {
                    let version = inferred_version(fixed);
                    Ok(Some((PanicDataVersion::Inferred(version), fixed.update(0, version))))
                }
            },
        }
    }
}

/// What holds of a buffer that compensation hands back.  Where the first
/// byte of the buffer that came in is a version number, that is the version,
/// as determined.  Otherwise the version is inferred, it is 1 or 2, the
/// buffer that comes back begins with it, and the cause that stands behind
/// it is the one that was reconstructed.
pub proof fn lemma_compensated(d: Seq<u8>)
    requires
        compensated(d) is Ok,
        compensated(d)->Ok_0 is Some,
    ensures
        d.len() > 0,
        ({
            let (version, data) = compensated(d)->Ok_0->Some_0;
            &&& is_version_tag(d[0]) ==> version == PanicDataVersion::Determined(d[0]) && data == d
            &&& !is_version_tag(d[0]) ==> {
                &&& version is Inferred
                &&& version.spec_number() == 1 || version.spec_number() == 2
                &&& data.len() == d.len() + 2
                &&& data[0] == version.spec_number()
                &&& Some(PanicCause::of_code(le_u16(data, 1))) == reconstructed_cause(d[0])
            }
        }),
{
    if d.len() == 0 {
        assert(all_zero(d));
    }
    if !is_version_tag(d[0]) {
        let low = missing_cause_byte(d[0])->Some_0;
        let fixed = restored(d, low);
        let data = compensated(d)->Ok_0->Some_0.1;
        assert(data[1] == low);
        assert(data[2] == d[0]);
    }
}

/// The value of the outcome of compensation.
pub open spec fn compensation_view(
    r: Result<Option<(PanicDataVersion, Vec<u8>)>, DecodeError>,
) -> Result<Option<(PanicDataVersion, Seq<u8>)>, DecodeError> {
    match r {
        Ok(Some((version, data))) => Ok(Some((version, data@))),
        Ok(None) => Ok(None),
        Err(e) => Err(e),
    }
}

/// Whether every byte of the buffer is zero.
pub fn is_all_zero(d: &[u8]) -> (r: bool)
    ensures
        r == all_zero(d@),
{
    let mut i: usize = 0;
    while i < d.len()
        invariant
            i <= d.len(),
            forall|j: int| 0 <= j < i ==> d@[j] == 0,
        decreases d.len() - i,
    {
        if d[i] != 0 {
            return false;
        }
        i = i + 1;
    }
    true
}

/// The low byte of the cause that is assumed for a high byte.
pub fn reconstruct_cause_byte(high: u8) -> (r: Option<u8>)
    ensures
        r == missing_cause_byte(high),
{
    match high {
        0xca => Some(0x11),
        0x5e => Some(0x00),
        0xa9 => Some(0x00),
        0xeb => Some(0xff),
        _ => None,
    }
}

/// Whether all stack symbols of a version 1 record are valid UTF-8.
fn symbols_valid(p: &IpccPanicDataV1, Ghost(s): Ghost<Seq<u8>>) -> (r: bool)
    requires
        p.is_record_of(s),
    ensures
        r == v1_symbols_valid(s),
{
    let mut i: usize = 0;
    while i < IPCC_PANIC_V1_STACKS
        invariant
            i <= IPCC_PANIC_V1_STACKS,
            p.is_record_of(s),
            forall|j: int| 0 <= j < i ==> valid_utf8(#[trigger] v1_slot_symbol(s, j)),
        decreases IPCC_PANIC_V1_STACKS - i,
    {
        if core::str::from_utf8(p.ipd_stack[i].ips_symbol.as_slice()).is_err() {
            assert(!valid_utf8(v1_slot_symbol(s, i as int)));
            return false;
        }
        i = i + 1;
    }
    true
}

/// Tells whether the buffer holds panic data, and if so which version, and
/// hands back the buffer to decode.
///
/// A buffer of zeros holds none.  A buffer that begins with a version number
/// is intact and comes back unchanged, with the version as determined.  Any
/// other buffer has lost its first two bytes: they are put back, and the
/// version comes back as inferred.
pub fn fix_panic_data(d: Vec<u8>) -> (r: Result<Option<(PanicDataVersion, Vec<u8>)>, DecodeError>)
    ensures
        compensation_view(r) == compensated(d@),
        all_zero(d@) ==> r matches Ok(None),
        d@.len() > 0 && is_version_tag(d@[0]) ==> (r matches Ok(Some(fixed)) && fixed.0
            == PanicDataVersion::Determined(d@[0]) && fixed.1@ == d@),
        d@.len() > 0 && d@[0] == 0xca && d@.len() + 2 >= V1_LEN ==> (r matches Ok(Some(fixed))
            && ({
            let version = fixed.0.spec_number();
            &&& fixed.0 == PanicDataVersion::Inferred(version)
            &&& fixed.1@ == seq![version, 0x11u8] + d@
            &&& version == 1 || version == 2
            &&& version == 1 <==> le_u32(fixed.1@, V1_CPUID as int) < CPUID_LIMIT
                && v1_symbols_valid(fixed.1@)
        })),
{
    if is_all_zero(d.as_slice()) {
        return Ok(None);
    }
    assert(d@.len() > 0);
    proof {
        if d@[0] == 0xca && d@.len() + 2 >= V1_LEN {
            let fixed = restored(d@, 0x11u8);
            let version = inferred_version(fixed);
            let marked = fixed.update(0, version);
            assert(marked =~= seq![version, 0x11u8] + d@);
            lemma_inference_ignores_version(fixed, version);
        }
    }
    let first: u8 = d[0];
    if first > 0 && first <= IPCC_PANIC_VERSION_MAX {
        return Ok(Some((PanicDataVersion::Determined(first), d)));
    }
    let low: u8 = match reconstruct_cause_byte(first) {
        Some(low) => low,
        None => {
            return Err(DecodeError::UnrecoverableCauseByte(first));
        },
    };
    let mut rest = d;
    let mut fixed: Vec<u8> = Vec::new();
    fixed.push(VERSION_PLACEHOLDER);
    fixed.push(low);
    fixed.append(&mut rest);
    assert(fixed@ =~= restored(d@, low));
    let check = IpccPanicDataV1::read_le(fixed.as_slice())?;
    let version: u8 = if check.ipd_cpuid < CPUID_LIMIT && symbols_valid(&check, Ghost(fixed@)) {
        1
    } else {
        2
    };
    fixed.set(0, version);
    Ok(Some((PanicDataVersion::Inferred(version), fixed)))
}

} // verus!

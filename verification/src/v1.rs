//! The first wire layout: one record of fixed size.
//!
//! All fields are little-endian and stand one after the other without
//! padding: the version byte, the cause, the error code, the CPU id, five
//! addresses, the message field, the number of valid stack slots, sixteen
//! stack slots, and a block of ancillary data with its own fill count.

use crate::types::{fails_with, DecodeError};
use crate::wire::{
    get_bytes, get_u16, get_u32, get_u64, get_u8, le_u16, le_u32, le_u64,
    lemma_last_part_of_prefix, lemma_le_u16_reads_encoding, lemma_le_u32_reads_encoding,
    lemma_le_u64_reads_encoding, u16_le,
    u32_le, u64_le,
};
use vstd::prelude::*;

verus! {

/// The number of stack slots in a record.
pub const IPCC_PANIC_V1_STACKS: usize = 0x10;

/// The width of the ancillary data block.
pub const IPCC_PANIC_V1_DATALEN: usize = 0x100;

/// The width of the symbol field of a stack slot.
pub const IPCC_PANIC_V1_SYMLEN: usize = 0x20;

/// The width of the message field.
pub const IPCC_PANIC_V1_MSGLEN: usize = 0x80;

/// Offset of the cause.
pub const V1_CAUSE: usize = 1;

/// Offset of the error code.
pub const V1_ERROR: usize = 3;

/// Offset of the CPU id.
pub const V1_CPUID: usize = 7;

/// Offset of the address of the panicking thread.
pub const V1_THREAD: usize = 11;

/// Offset of the fault address.
pub const V1_ADDR: usize = 19;

/// Offset of the program counter.
pub const V1_PC: usize = 27;

/// Offset of the frame pointer.
pub const V1_FP: usize = 35;

/// Offset of the pointer to the registers.
pub const V1_RP: usize = 43;

/// Offset of the message field.
pub const V1_MESSAGE: usize = 51;

/// Offset of the number of valid stack slots.
pub const V1_STACKIDX: usize = 179;

/// Offset of the first stack slot.
pub const V1_STACK: usize = 180;

/// The width of a stack slot: the symbol, the address and the offset.
pub const V1_SLOT_LEN: usize = 48;

/// Offset of the fill count of the ancillary data.
pub const V1_DATAIDX: usize = 948;

/// Offset of the ancillary data.
pub const V1_DATA: usize = 949;

/// The size of a record.
pub const V1_LEN: usize = 1205;

/// Offset of stack slot `i`.
pub open spec fn v1_slot_at(i: int) -> int {
    V1_STACK + V1_SLOT_LEN * i
}

/// The symbol field of stack slot `i`.
pub open spec fn v1_slot_symbol(s: Seq<u8>, i: int) -> Seq<u8> {
    s.subrange(v1_slot_at(i), v1_slot_at(i) + IPCC_PANIC_V1_SYMLEN)
}

/// The address of stack slot `i`.
pub open spec fn v1_slot_addr(s: Seq<u8>, i: int) -> u64 {
    le_u64(s, v1_slot_at(i) + 32)
}

/// The offset from the symbol in stack slot `i`.
pub open spec fn v1_slot_offset(s: Seq<u8>, i: int) -> u64 {
    le_u64(s, v1_slot_at(i) + 40)
}

/// The message field.
pub open spec fn v1_message(s: Seq<u8>) -> Seq<u8> {
    s.subrange(V1_MESSAGE as int, V1_MESSAGE + IPCC_PANIC_V1_MSGLEN)
}

/// One stack slot of a record.
#[derive(Debug, PartialEq, Eq)]
pub struct IpccPanicStackV1 {
    pub ips_symbol: Vec<u8>,
    pub ips_addr: u64,
    pub ips_offset: u64,
}

impl IpccPanicStackV1 {
    /// This is stack slot `i` of the record that `s` begins with.
    pub open spec fn is_slot(&self, s: Seq<u8>, i: int) -> bool {
        &&& self.ips_symbol@ == v1_slot_symbol(s, i)
        &&& self.ips_addr == v1_slot_addr(s, i)
        &&& self.ips_offset == v1_slot_offset(s, i)
    }
}

/// A record, field by field, as it stands on the wire.
#[derive(Debug, PartialEq, Eq)]
pub struct IpccPanicDataV1 {
    pub ipd_version: u8,
    pub ipd_cause: u16,
    pub ipd_error: u32,
    pub ipd_cpuid: u32,
    pub ipd_thread: u64,
    pub ipd_addr: u64,
    pub ipd_pc: u64,
    pub ipd_fp: u64,
    pub ipd_rp: u64,
    pub ipd_message: Vec<u8>,
    pub ipd_stackidx: u8,
    pub ipd_stack: Vec<IpccPanicStackV1>,
    pub ipd_dataidx: u8,
    pub ipd_data: Vec<u8>,
}

impl IpccPanicDataV1 {
    /// This is the record that `s` begins with.
    pub open spec fn is_record_of(&self, s: Seq<u8>) -> bool {
        &&& self.ipd_version == s[0]
        &&& self.ipd_cause == le_u16(s, V1_CAUSE as int)
        &&& self.ipd_error == le_u32(s, V1_ERROR as int)
        &&& self.ipd_cpuid == le_u32(s, V1_CPUID as int)
        &&& self.ipd_thread == le_u64(s, V1_THREAD as int)
        &&& self.ipd_addr == le_u64(s, V1_ADDR as int)
        &&& self.ipd_pc == le_u64(s, V1_PC as int)
        &&& self.ipd_fp == le_u64(s, V1_FP as int)
        &&& self.ipd_rp == le_u64(s, V1_RP as int)
        &&& self.ipd_message@ == v1_message(s)
        &&& self.ipd_stackidx == s[V1_STACKIDX as int]
        &&& self.ipd_stack@.len() == IPCC_PANIC_V1_STACKS
        &&& forall|i: int|
            0 <= i < IPCC_PANIC_V1_STACKS ==> (#[trigger] self.ipd_stack@[i]).is_slot(s, i)
        &&& self.ipd_dataidx == s[V1_DATAIDX as int]
        &&& self.ipd_data@ == s.subrange(V1_DATA as int, V1_LEN as int)
    }

    /// Reads the record that `data` begins with.  A buffer that is shorter
    /// than a record is truncated; what follows the record is not looked at.
    pub fn read_le(data: &[u8]) -> (r: Result<IpccPanicDataV1, DecodeError>)
        ensures
            data@.len() >= V1_LEN ==> r is Ok && r->Ok_0.is_record_of(data@),
            data@.len() < V1_LEN ==> fails_with(r, DecodeError::TruncatedInput),
    {
        let ipd_version: u8 = get_u8(data, 0)?;
        let ipd_cause: u16 = get_u16(data, V1_CAUSE)?;
        let ipd_error: u32 = get_u32(data, V1_ERROR)?;
        let ipd_cpuid: u32 = get_u32(data, V1_CPUID)?;
        let ipd_thread: u64 = get_u64(data, V1_THREAD)?;
        let ipd_addr: u64 = get_u64(data, V1_ADDR)?;
        let ipd_pc: u64 = get_u64(data, V1_PC)?;
        let ipd_fp: u64 = get_u64(data, V1_FP)?;
        let ipd_rp: u64 = get_u64(data, V1_RP)?;
        let ipd_message = get_bytes(data, V1_MESSAGE, IPCC_PANIC_V1_MSGLEN)?;
        let ipd_stackidx: u8 = get_u8(data, V1_STACKIDX)?;
        let mut ipd_stack: Vec<IpccPanicStackV1> = Vec::new();
        let mut i: usize = 0;
        while i < IPCC_PANIC_V1_STACKS
            invariant
                i <= IPCC_PANIC_V1_STACKS,
                ipd_stack@.len() == i,
                forall|j: int| 0 <= j < i ==> (#[trigger] ipd_stack@[j]).is_slot(data@, j),
            decreases IPCC_PANIC_V1_STACKS - i,
        {
            let at: usize = V1_STACK + V1_SLOT_LEN * i;
            let ips_symbol = get_bytes(data, at, IPCC_PANIC_V1_SYMLEN)?;
            let ips_addr: u64 = get_u64(data, at + 32)?;
            let ips_offset: u64 = get_u64(data, at + 40)?;
            ipd_stack.push(IpccPanicStackV1 { ips_symbol, ips_addr, ips_offset });
            i = i + 1;
        }
        let ipd_dataidx: u8 = get_u8(data, V1_DATAIDX)?;
        let ipd_data = get_bytes(data, V1_DATA, IPCC_PANIC_V1_DATALEN)?;
        Ok(
            IpccPanicDataV1 {
                ipd_version,
                ipd_cause,
                ipd_error,
                ipd_cpuid,
                ipd_thread,
                ipd_addr,
                ipd_pc,
                ipd_fp,
                ipd_rp,
                ipd_message,
                ipd_stackidx,
                ipd_stack,
                ipd_dataidx,
                ipd_data,
            },
        )
    }
}

impl IpccPanicStackV1 {
    /// The symbol field has its width.
    pub open spec fn wf(&self) -> bool {
        self.ips_symbol@.len() == IPCC_PANIC_V1_SYMLEN
    }

    /// The bytes of the slot on the wire.
    pub open spec fn wire(&self) -> Seq<u8> {
        self.ips_symbol@ + u64_le(self.ips_addr) + u64_le(self.ips_offset)
    }
}

/// The bytes of a run of stack slots on the wire.
pub open spec fn v1_slots_wire(slots: Seq<IpccPanicStackV1>) -> Seq<u8>
    decreases slots.len(),
{
    if slots.len() == 0 {
        Seq::empty()
    } else {
        v1_slots_wire(slots.drop_last()) + slots.last().wire()
    }
}

/// In the wire form of a run of slots each slot stands at its place.
pub proof fn lemma_v1_slots_wire(slots: Seq<IpccPanicStackV1>)
    requires
        forall|i: int| 0 <= i < slots.len() ==> (#[trigger] slots[i]).wf(),
    ensures
        v1_slots_wire(slots).len() == V1_SLOT_LEN * slots.len(),
        forall|i: int|
            0 <= i < slots.len() ==> v1_slots_wire(slots).subrange(
                V1_SLOT_LEN * i,
                V1_SLOT_LEN * i + V1_SLOT_LEN,
            ) == (#[trigger] slots[i]).wire(),
    decreases slots.len(),
{
    if slots.len() > 0 {
        let front = slots.drop_last();
        lemma_v1_slots_wire(front);
        let w = v1_slots_wire(slots);
        assert(slots.last().wf());
        assert forall|i: int| 0 <= i < slots.len() implies w.subrange(
            V1_SLOT_LEN * i,
            V1_SLOT_LEN * i + V1_SLOT_LEN,
        ) == (#[trigger] slots[i]).wire() by {
            if i < front.len() {
                assert(front[i] == slots[i]);
                assert(w.subrange(V1_SLOT_LEN * i, V1_SLOT_LEN * i + V1_SLOT_LEN)
                    =~= v1_slots_wire(front).subrange(
                    V1_SLOT_LEN * i,
                    V1_SLOT_LEN * i + V1_SLOT_LEN,
                ));
            } else {
                assert(w.subrange(V1_SLOT_LEN * i, V1_SLOT_LEN * i + V1_SLOT_LEN)
                    =~= slots.last().wire());
            }
        }
    }
}

impl IpccPanicDataV1 {
    /// The fields of fixed width have their widths.
    pub open spec fn wf(&self) -> bool {
        &&& self.ipd_message@.len() == IPCC_PANIC_V1_MSGLEN
        &&& self.ipd_stack@.len() == IPCC_PANIC_V1_STACKS
        &&& forall|i: int|
            0 <= i < IPCC_PANIC_V1_STACKS ==> (#[trigger] self.ipd_stack@[i]).wf()
        &&& self.ipd_data@.len() == IPCC_PANIC_V1_DATALEN
    }

    /// The bytes of the record on the wire up to the message field.
    #[verifier::opaque]
    pub open spec fn wire_head(&self) -> Seq<u8> {
        seq![self.ipd_version] + u16_le(self.ipd_cause) + u32_le(self.ipd_error) + u32_le(
            self.ipd_cpuid,
        ) + u64_le(self.ipd_thread) + u64_le(self.ipd_addr) + u64_le(self.ipd_pc) + u64_le(
            self.ipd_fp,
        ) + u64_le(self.ipd_rp)
    }

    /// The bytes of the record on the wire.
    #[verifier::opaque]
    pub open spec fn wire(&self) -> Seq<u8> {
        self.wire_head() + self.ipd_message@ + seq![self.ipd_stackidx] + v1_slots_wire(
            self.ipd_stack@,
        ) + seq![self.ipd_dataidx] + self.ipd_data@
    }

    /// The fields before the message, read from a buffer that begins with
    /// their wire form.
    #[verifier::rlimit(40)]
    proof fn lemma_wire_head(&self, w: Seq<u8>)
        requires
            w.len() >= V1_MESSAGE,
            w.subrange(0, V1_MESSAGE as int) == self.wire_head(),
        ensures
            self.ipd_version == w[0],
            self.ipd_cause == le_u16(w, V1_CAUSE as int),
            self.ipd_error == le_u32(w, V1_ERROR as int),
            self.ipd_cpuid == le_u32(w, V1_CPUID as int),
            self.ipd_thread == le_u64(w, V1_THREAD as int),
            self.ipd_addr == le_u64(w, V1_ADDR as int),
            self.ipd_pc == le_u64(w, V1_PC as int),
            self.ipd_fp == le_u64(w, V1_FP as int),
            self.ipd_rp == le_u64(w, V1_RP as int),
    {
        reveal(IpccPanicDataV1::wire_head);
        let p0 = seq![self.ipd_version];
        let p1 = p0 + u16_le(self.ipd_cause);
        let p2 = p1 + u32_le(self.ipd_error);
        let p3 = p2 + u32_le(self.ipd_cpuid);
        let p4 = p3 + u64_le(self.ipd_thread);
        let p5 = p4 + u64_le(self.ipd_addr);
        let p6 = p5 + u64_le(self.ipd_pc);
        let p7 = p6 + u64_le(self.ipd_fp);
        lemma_last_part_of_prefix(w, p7, u64_le(self.ipd_rp));
        lemma_le_u64_reads_encoding(w, V1_RP as int, self.ipd_rp);
        lemma_last_part_of_prefix(w, p6, u64_le(self.ipd_fp));
        lemma_le_u64_reads_encoding(w, V1_FP as int, self.ipd_fp);
        lemma_last_part_of_prefix(w, p5, u64_le(self.ipd_pc));
        lemma_le_u64_reads_encoding(w, V1_PC as int, self.ipd_pc);
        lemma_last_part_of_prefix(w, p4, u64_le(self.ipd_addr));
        lemma_le_u64_reads_encoding(w, V1_ADDR as int, self.ipd_addr);
        lemma_last_part_of_prefix(w, p3, u64_le(self.ipd_thread));
        lemma_le_u64_reads_encoding(w, V1_THREAD as int, self.ipd_thread);
        lemma_last_part_of_prefix(w, p2, u32_le(self.ipd_cpuid));
        lemma_le_u32_reads_encoding(w, V1_CPUID as int, self.ipd_cpuid);
        lemma_last_part_of_prefix(w, p1, u32_le(self.ipd_error));
        lemma_le_u32_reads_encoding(w, V1_ERROR as int, self.ipd_error);
        lemma_last_part_of_prefix(w, p0, u16_le(self.ipd_cause));
        lemma_le_u16_reads_encoding(w, V1_CAUSE as int, self.ipd_cause);
        assert(w[0] == w.subrange(0, 1)[0]);
    }

    /// The parts from the message on, found in a buffer that begins with
    /// the wire form.
    proof fn lemma_wire_parts(&self, w: Seq<u8>)
        requires
            self.wf(),
            w.len() >= V1_LEN,
            w.subrange(0, V1_LEN as int) == self.wire(),
        ensures
            w.subrange(0, V1_MESSAGE as int) == self.wire_head(),
            v1_message(w) == self.ipd_message@,
            w[V1_STACKIDX as int] == self.ipd_stackidx,
            w.subrange(V1_STACK as int, V1_DATAIDX as int) == v1_slots_wire(self.ipd_stack@),
            w[V1_DATAIDX as int] == self.ipd_dataidx,
            w.subrange(V1_DATA as int, V1_LEN as int) == self.ipd_data@,
    {
        reveal(IpccPanicDataV1::wire);
        self.lemma_wire_len();
        let slots = v1_slots_wire(self.ipd_stack@);
        let p8 = self.wire_head();
        let p9 = p8 + self.ipd_message@;
        let p10 = p9 + seq![self.ipd_stackidx];
        let p11 = p10 + slots;
        let p12 = p11 + seq![self.ipd_dataidx];
        lemma_v1_slots_wire(self.ipd_stack@);
        lemma_last_part_of_prefix(w, p12, self.ipd_data@);
        lemma_last_part_of_prefix(w, p11, seq![self.ipd_dataidx]);
        assert(w[V1_DATAIDX as int] == w.subrange(V1_DATAIDX as int, V1_DATAIDX + 1)[0]);
        lemma_last_part_of_prefix(w, p10, slots);
        lemma_last_part_of_prefix(w, p9, seq![self.ipd_stackidx]);
        assert(w[V1_STACKIDX as int] == w.subrange(V1_STACKIDX as int, V1_STACKIDX + 1)[0]);
        lemma_last_part_of_prefix(w, p8, self.ipd_message@);
    }

    /// The size of the wire form.
    proof fn lemma_wire_len(&self)
        requires
            self.wf(),
        ensures
            self.wire_head().len() == V1_MESSAGE,
            self.wire().len() == V1_LEN,
    {
        self.lemma_wire_head_len();
        reveal(IpccPanicDataV1::wire);
        lemma_v1_slots_wire(self.ipd_stack@);
    }

    /// The size of the wire form of the fields before the message.
    #[verifier::rlimit(40)]
    proof fn lemma_wire_head_len(&self)
        ensures
            self.wire_head().len() == V1_MESSAGE,
    {
        reveal(IpccPanicDataV1::wire_head);
        let p0 = seq![self.ipd_version];
        let p1 = p0 + u16_le(self.ipd_cause);
        let p2 = p1 + u32_le(self.ipd_error);
        let p3 = p2 + u32_le(self.ipd_cpuid);
        let p4 = p3 + u64_le(self.ipd_thread);
        let p5 = p4 + u64_le(self.ipd_addr);
        let p6 = p5 + u64_le(self.ipd_pc);
        let p7 = p6 + u64_le(self.ipd_fp);
        let p8 = p7 + u64_le(self.ipd_rp);
        assert(p1.len() == 3);
        assert(p2.len() == 7);
        assert(p3.len() == 11);
        assert(p4.len() == 19);
        assert(p5.len() == 27);
        assert(p6.len() == 35);
        assert(p7.len() == 43);
        assert(p8.len() == 51);
    }

    /// The slots, found in a buffer that holds their wire form at the place
    /// of the stack.
    proof fn lemma_wire_slots(&self, w: Seq<u8>)
        requires
            self.wf(),
            w.len() >= V1_LEN,
            w.subrange(V1_STACK as int, V1_DATAIDX as int) == v1_slots_wire(self.ipd_stack@),
        ensures
            forall|i: int|
                0 <= i < IPCC_PANIC_V1_STACKS ==> (#[trigger] self.ipd_stack@[i]).is_slot(w, i),
    {
        let slots = v1_slots_wire(self.ipd_stack@);
        let part = w.subrange(V1_STACK as int, V1_DATAIDX as int);
        lemma_v1_slots_wire(self.ipd_stack@);
        assert forall|i: int| 0 <= i < IPCC_PANIC_V1_STACKS implies (
        #[trigger] self.ipd_stack@[i]).is_slot(w, i) by {
            let slot = self.ipd_stack@[i];
            assert(slot.wf());
            assert(slots.subrange(V1_SLOT_LEN * i, V1_SLOT_LEN * i + V1_SLOT_LEN) == slot.wire());
            assert(w.subrange(v1_slot_at(i), v1_slot_at(i) + V1_SLOT_LEN) =~= part.subrange(
                V1_SLOT_LEN * i,
                V1_SLOT_LEN * i + V1_SLOT_LEN,
            ));
            slot.lemma_wire_slot(w, i);
        }
    }

    /// Reading gives back what was written: a record is the record that its
    /// wire form begins with, whatever follows the wire form.
    pub proof fn lemma_wire_round_trip(&self, rest: Seq<u8>)
        requires
            self.wf(),
        ensures
            self.wire().len() == V1_LEN,
            self.is_record_of(self.wire() + rest),
    {
        let w = self.wire() + rest;
        self.lemma_wire_len();
        assert(w.subrange(0, V1_LEN as int) =~= self.wire());
        self.lemma_wire_parts(w);
        self.lemma_wire_head(w);
        self.lemma_wire_slots(w);
    }
}

impl IpccPanicStackV1 {
    /// A slot is the slot that stands where its wire form stands.
    proof fn lemma_wire_slot(&self, w: Seq<u8>, i: int)
        requires
            self.wf(),
            0 <= i,
            v1_slot_at(i) + V1_SLOT_LEN <= w.len(),
            w.subrange(v1_slot_at(i), v1_slot_at(i) + V1_SLOT_LEN) == self.wire(),
        ensures
            self.is_slot(w, i),
    {
        let at = v1_slot_at(i);
        let sw = w.subrange(at, at + V1_SLOT_LEN);
        let q0 = self.ips_symbol@;
        let q1 = q0 + u64_le(self.ips_addr);
        assert(sw.subrange(0, V1_SLOT_LEN as int) =~= sw);
        lemma_last_part_of_prefix(sw, q1, u64_le(self.ips_offset));
        lemma_last_part_of_prefix(sw, q0, u64_le(self.ips_addr));
        assert(w.subrange(at + 40, at + 48) =~= sw.subrange(40, 48));
        assert(w.subrange(at + 32, at + 40) =~= sw.subrange(32, 40));
        assert(v1_slot_symbol(w, i) =~= sw.subrange(0, 32));
        lemma_le_u64_reads_encoding(w, at + 32, self.ips_addr);
        lemma_le_u64_reads_encoding(w, at + 40, self.ips_offset);
    }
}

} // verus!

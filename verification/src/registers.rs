//! The register dump of a version 2 record, and the registers that a
//! decoded record reports.
//!
//! The dump holds thirty 64-bit values in the order in which the host saves
//! them.  A record reports twenty-six of them, in the order in which the
//! host's own register display prints them.  The saved frame pointer, the
//! saved program counter, `r15` and `ds` are left out.

use crate::types::Register;
use indexmap::IndexMap;
use vstd::prelude::*;

verus! {

/// `indexmap::IndexMap`: a hash map that yields its pairs in the order in
/// which their keys were first inserted.
#[verifier::external_type_specification]
#[verifier::external_body]
#[verifier::reject_recursive_types(K)]
#[verifier::reject_recursive_types(V)]
#[verifier::reject_recursive_types(S)]
pub struct ExIndexMap<K, V, S>(IndexMap<K, V, S>);

/// The number of 64-bit values in the register dump.
pub const REGISTER_SLOTS: usize = 30;

/// The number of registers that a record reports.
pub const REGISTER_COUNT: usize = 26;

/// The pairs that a register map holds, in the order in which it yields
/// them.
pub uninterp spec fn register_entries(m: IndexMap<Register, u64>) -> Seq<(Register, u64)>;

/// Some pair of `entries` has `reg` as its key.
pub open spec fn holds_register(entries: Seq<(Register, u64)>, reg: Register) -> bool {
    exists|i: int| 0 <= i < entries.len() && (#[trigger] entries[i]).0 == reg
}

/// `IndexMap::new`: a map that holds nothing.
#[verifier::external_body]
fn register_map_new() -> (m: IndexMap<Register, u64>)
    ensures
        register_entries(m) == Seq::<(Register, u64)>::empty(),
{
    IndexMap::new()
}

/// `IndexMap::insert`.  A key that the map does not hold yet goes to the
/// end of the order, with its value, and `None` is returned.  A key that it
/// holds keeps its place and takes the new value, and the value that it had
/// is returned.  Keys are compared by the `Eq` and `Hash` that `Register`
/// derives, which hold two registers equal where they are the same variant.
#[verifier::external_body]
fn register_map_insert(m: &mut IndexMap<Register, u64>, reg: Register, value: u64) -> (prev:
    Option<u64>)
    ensures
        !holds_register(register_entries(*old(m)), reg) ==> prev is None && register_entries(
            *final(m),
        ) == register_entries(*old(m)).push((reg, value)),
        forall|i: int|
            0 <= i < register_entries(*old(m)).len() && (#[trigger] register_entries(
                *old(m),
            )[i]).0 == reg ==> prev == Some(register_entries(*old(m))[i].1) && register_entries(
                *final(m),
            ) == register_entries(*old(m)).update(i, (reg, value)),
{
    m.insert(reg, value)
}

/// The register that stands at place `i` of the reported order.
pub open spec fn canonical_register(i: int) -> Register {
    if i == 0 {
        Register::rdi
    } else if i == 1 {
        Register::rsi
    } else if i == 2 {
        Register::rdx
    } else if i == 3 {
        Register::rcx
    } else if i == 4 {
        Register::r8
    } else if i == 5 {
        Register::r9
    } else if i == 6 {
        Register::rax
    } else if i == 7 {
        Register::rbx
    } else if i == 8 {
        Register::rbp
    } else if i == 9 {
        Register::r10
    } else if i == 10 {
        Register::r11
    } else if i == 11 {
        Register::r12
    } else if i == 12 {
        Register::r13
    } else if i == 13 {
        Register::r14
    } else if i == 14 {
        Register::fsbase
    } else if i == 15 {
        Register::gsbase
    } else if i == 16 {
        Register::es
    } else if i == 17 {
        Register::fs
    } else if i == 18 {
        Register::gs
    } else if i == 19 {
        Register::trapno
    } else if i == 20 {
        Register::err
    } else if i == 21 {
        Register::rip
    } else if i == 22 {
        Register::cs
    } else if i == 23 {
        Register::rfl
    } else if i == 24 {
        Register::rsp
    } else {
        Register::ss
    }
}

/// The slot of the dump that holds the register at place `i` of the
/// reported order.  The dump begins with the saved frame pointer and program
/// counter, and holds `r15` after `r14` and `ds` after `gsbase`.
pub open spec fn canonical_slot(i: int) -> int {
    if i < 14 {
        i + 2
    } else if i < 16 {
        i + 3
    } else {
        i + 4
    }
}

/// The registers that a record reports of a dump, in order.
pub open spec fn canonical_registers(dump: Seq<u64>) -> Seq<(Register, u64)> {
    Seq::new(REGISTER_COUNT as nat, |i: int| (canonical_register(i), dump[canonical_slot(i)]))
}

/// No register stands at two places of the reported order.
pub proof fn lemma_canonical_registers_distinct(i: int, j: int)
    requires
        0 <= i < j < REGISTER_COUNT,
    ensures
        canonical_register(i) != canonical_register(j),
{
}

/// The register at place `i` of the reported order, and its slot in the
/// dump.
fn canonical_entry(i: usize) -> (r: (Register, usize))
    requires
        i < REGISTER_COUNT,
    ensures
        r.0 == canonical_register(i as int),
        r.1 == canonical_slot(i as int),
        r.1 < REGISTER_SLOTS,
{
    match i {
        0 => (Register::rdi, 2),
        1 => (Register::rsi, 3),
        2 => (Register::rdx, 4),
        3 => (Register::rcx, 5),
        4 => (Register::r8, 6),
        5 => (Register::r9, 7),
        6 => (Register::rax, 8),
        7 => (Register::rbx, 9),
        8 => (Register::rbp, 10),
        9 => (Register::r10, 11),
        10 => (Register::r11, 12),
        11 => (Register::r12, 13),
        12 => (Register::r13, 14),
        13 => (Register::r14, 15),
        14 => (Register::fsbase, 17),
        15 => (Register::gsbase, 18),
        16 => (Register::es, 20),
        17 => (Register::fs, 21),
        18 => (Register::gs, 22),
        19 => (Register::trapno, 23),
        20 => (Register::err, 24),
        21 => (Register::rip, 25),
        22 => (Register::cs, 26),
        23 => (Register::rfl, 27),
        24 => (Register::rsp, 28),
        _ => (Register::ss, 29),
    }
}

/// Builds the register map of a record from the dump.
pub fn collect_registers(dump: &[u64; 30]) -> (m: IndexMap<Register, u64>)
    ensures
        register_entries(m) == canonical_registers(dump@),
{
    let mut m = register_map_new();
    let mut i: usize = 0;
    while i < REGISTER_COUNT
        invariant
            i <= REGISTER_COUNT,
            register_entries(m) == canonical_registers(dump@).subrange(0, i as int),
        decreases REGISTER_COUNT - i,
    {
        let (reg, slot) = canonical_entry(i);
        proof {
            let held = register_entries(m);
            assert forall|j: int| 0 <= j < held.len() implies (#[trigger] held[j]).0 != reg by {
                lemma_canonical_registers_distinct(j, i as int);
            }
        }
        let _ = register_map_insert(&mut m, reg, dump[slot]);
        assert(register_entries(m) == canonical_registers(dump@).subrange(0, i + 1));
        i = i + 1;
    }
    assert(canonical_registers(dump@).subrange(0, REGISTER_COUNT as int) == canonical_registers(
        dump@,
    ));
    m
}

} // verus!

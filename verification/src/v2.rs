//! The second wire layout: a fixed header and a list of tagged items.
//!
//! All fields are little-endian and stand one after the other without
//! padding.  The header ends with the number of items and the number of
//! bytes that they take; the parser goes by the number of items.  An item is
//! a tag byte, a 16-bit length that counts the tag and itself, and the
//! payload.

use crate::registers::REGISTER_SLOTS;
use crate::types::{fails_with, DecodeError};
use crate::wire::{
    get_bytes, get_u16, get_u32, get_u64, get_u8, le_u16, le_u32, le_u64,
    lemma_last_part_of_prefix, lemma_le_u16_reads_encoding, lemma_le_u32_reads_encoding,
    lemma_le_u64_reads_encoding, u16_le, u32_le, u64_le,
};
use vstd::prelude::*;

verus! {

/// The version byte of this layout.
pub const IPCC_PANIC_VERSION_2: u8 = 2;

/// Offset of the cause.
pub const V2_CAUSE: usize = 1;

/// Offset of the error code.
pub const V2_ERROR: usize = 3;

/// Offset of the monotonic time.
pub const V2_HRTIME: usize = 7;

/// Offset of the seconds of the wall-clock time.
pub const V2_HRESTIME_SEC: usize = 15;

/// Offset of the nanoseconds of the wall-clock time.
pub const V2_HRESTIME_NSEC: usize = 23;

/// Offset of the CPU id.
pub const V2_CPUID: usize = 31;

/// Offset of the address of the panicking thread.
pub const V2_THREAD: usize = 35;

/// Offset of the fault address.
pub const V2_ADDR: usize = 43;

/// Offset of the program counter.
pub const V2_PC: usize = 51;

/// Offset of the frame pointer.
pub const V2_FP: usize = 59;

/// Offset of the pointer to the registers.
pub const V2_RP: usize = 67;

/// Offset of the register dump.
pub const V2_REGISTERS: usize = 75;

/// Offset of the number of items.
pub const V2_NITEMS: usize = 315;

/// Offset of the number of bytes that the items take.
pub const V2_ITEMS_LEN: usize = 317;

/// Offset of the first item, which is the size of the header.
pub const V2_ITEMS: usize = 319;

/// The bytes of an item before its payload: the tag and the length.
pub const ITEM_HEADER_LEN: usize = 3;

/// The bytes of a stack entry before its symbol: the address and the offset.
pub const STACK_ENTRY_PREFIX_LEN: usize = 16;

/// What an item holds.
#[derive(Debug, Clone, Copy, PartialEq, Eq, Structural)]
pub enum IpccPanicItemType {
    Nop,
    Message,
    StackEntry,
    Ancillary,
    /// A tag that this decoder does not know, kept as it was read.
    Unknown(u8),
}

impl IpccPanicItemType {
    /// The kind that a tag byte stands for.
    pub open spec fn of_tag(tag: u8) -> IpccPanicItemType {
        if tag == 0 {
            IpccPanicItemType::Nop
        } else if tag == 1 {
            IpccPanicItemType::Message
        } else if tag == 2 {
            IpccPanicItemType::StackEntry
        } else if tag == 3 {
            IpccPanicItemType::Ancillary
        } else {
            IpccPanicItemType::Unknown(tag)
        }
    }

    /// The kind that a tag byte stands for.
    pub fn from_tag(tag: u8) -> (t: IpccPanicItemType)
        ensures
            t == IpccPanicItemType::of_tag(tag),
    {
        match tag {
            0 => IpccPanicItemType::Nop,
            1 => IpccPanicItemType::Message,
            2 => IpccPanicItemType::StackEntry,
            3 => IpccPanicItemType::Ancillary,
            t => IpccPanicItemType::Unknown(t),
        }
    }
}

/// One item of a record.
#[derive(Debug, PartialEq, Eq)]
pub struct IpccPanicItem {
    pub ftype: IpccPanicItemType,
    pub len: u16,
    pub data: Vec<u8>,
}

/// The mathematical value of an [`IpccPanicItem`].
pub struct ItemView {
    pub ftype: IpccPanicItemType,
    pub len: u16,
    pub data: Seq<u8>,
}

impl View for IpccPanicItem {
    type V = ItemView;

    open spec fn view(&self) -> ItemView {
        ItemView { ftype: self.ftype, len: self.len, data: self.data@ }
    }
}

/// The values of a list of items.
pub open spec fn item_views(items: Seq<IpccPanicItem>) -> Seq<ItemView> {
    items.map_values(|item: IpccPanicItem| item@)
}

/// The size of the payload of an item whose length field holds `len`.  The
/// length counts the three bytes before the payload; a length under three
/// leaves no payload.
pub open spec fn item_data_len(len: u16) -> int {
    if len < ITEM_HEADER_LEN {
        0
    } else {
        len - ITEM_HEADER_LEN
    }
}

/// Where the item that starts at `at` ends.
pub open spec fn item_end(s: Seq<u8>, at: int) -> int {
    at + ITEM_HEADER_LEN + item_data_len(le_u16(s, at + 1))
}

/// The item that starts at `at` lies within the buffer.
pub open spec fn item_fits(s: Seq<u8>, at: int) -> bool {
    at + ITEM_HEADER_LEN <= s.len() && item_end(s, at) <= s.len()
}

/// The item that starts at `at`.
pub open spec fn item_at(s: Seq<u8>, at: int) -> ItemView {
    ItemView {
        ftype: IpccPanicItemType::of_tag(s[at]),
        len: le_u16(s, at + 1),
        data: s.subrange(at + ITEM_HEADER_LEN, item_end(s, at)),
    }
}

/// The `count` items that start at `at`, one after the other, or `None`
/// where the buffer ends before the last of them does.
pub open spec fn items_from(s: Seq<u8>, at: int, count: nat) -> Option<Seq<ItemView>>
    decreases count,
{
    if count == 0 {
        Some(Seq::empty())
    } else if !item_fits(s, at) {
        None
    } else {
        match items_from(s, item_end(s, at), (count - 1) as nat) {
            Some(rest) => Some(seq![item_at(s, at)] + rest),
            None => None,
        }
    }
}

/// The register dump of the header.
pub open spec fn v2_register_dump(s: Seq<u8>) -> Seq<u64> {
    Seq::new(REGISTER_SLOTS as nat, |k: int| le_u64(s, V2_REGISTERS + 8 * k))
}

/// What the layout makes of a buffer: its items, or the reason why it holds
/// no record.  The version byte is looked at before anything else is read.
pub open spec fn v2_items(s: Seq<u8>) -> Result<Seq<ItemView>, DecodeError> {
    if s.len() == 0 {
        Err(DecodeError::TruncatedInput)
    } else if s[0] != IPCC_PANIC_VERSION_2 {
        Err(DecodeError::UnsupportedVersion(s[0]))
    } else if s.len() < V2_ITEMS {
        Err(DecodeError::TruncatedInput)
    } else {
        match items_from(s, V2_ITEMS as int, le_u16(s, V2_NITEMS as int) as nat) {
            Some(items) => Ok(items),
            None => Err(DecodeError::TruncatedInput),
        }
    }
}

/// The payload of a stack item.
#[derive(Debug, PartialEq, Eq)]
pub struct IpccPanicStack {
    pub addr: u64,
    pub offset: u64,
    pub symbol: Vec<u8>,
}

impl IpccPanicStack {
    /// This is the stack entry that the payload `s` holds.
    pub open spec fn is_entry_of(&self, s: Seq<u8>) -> bool {
        &&& self.addr == le_u64(s, 0)
        &&& self.offset == le_u64(s, 8)
        &&& self.symbol@ == s.subrange(STACK_ENTRY_PREFIX_LEN as int, s.len() as int)
    }

    /// Reads a stack entry from the payload of an item: the address, the
    /// offset, and as the symbol all bytes that follow.
    pub fn read_le(data: &[u8]) -> (r: Result<IpccPanicStack, DecodeError>)
        ensures
            data@.len() >= STACK_ENTRY_PREFIX_LEN ==> r is Ok && r->Ok_0.is_entry_of(data@),
            data@.len() < STACK_ENTRY_PREFIX_LEN ==> fails_with(r, DecodeError::MalformedStackItem),
    {
        let len: usize = data.len();
        if len < STACK_ENTRY_PREFIX_LEN {
            return Err(DecodeError::MalformedStackItem);
        }
        let addr: u64 = match get_u64(data, 0) {
            Ok(v) => v,
            Err(_) => { return Err(DecodeError::MalformedStackItem); },
        };
        let offset: u64 = match get_u64(data, 8) {
            Ok(v) => v,
            Err(_) => { return Err(DecodeError::MalformedStackItem); },
        };
        let symbol = match get_bytes(data, STACK_ENTRY_PREFIX_LEN, len - STACK_ENTRY_PREFIX_LEN) {
            Ok(v) => v,
            Err(_) => { return Err(DecodeError::MalformedStackItem); },
        };
        Ok(IpccPanicStack { addr, offset, symbol })
    }
}

/// The wall-clock time of the header.
#[derive(Debug, Clone, Copy, PartialEq, Eq, Structural)]
pub struct IpccHresTime {
    pub tv_sec: u64,
    pub tv_nsec: u64,
}

/// A record, field by field, as it stands on the wire.
#[derive(Debug, PartialEq, Eq)]
pub struct IpccPanicDataV2 {
    pub version: u8,
    pub cause: u16,
    pub error: u32,
    pub hrtime: u64,
    pub hrestime: IpccHresTime,
    pub cpuid: u32,
    pub thread: u64,
    pub addr: u64,
    pub pc: u64,
    pub fp: u64,
    pub rp: u64,
    pub registers: [u64; 30],
    pub nitems: u16,
    pub items_len: u16,
    pub items: Vec<IpccPanicItem>,
}

/// Reads `count` items that start at `start`.
pub fn read_items(data: &[u8], start: usize, count: u16) -> (r: Result<
    Vec<IpccPanicItem>,
    DecodeError,
>)
    ensures
        match items_from(data@, start as int, count as nat) {
            Some(items) => r is Ok && item_views(r->Ok_0@) == items,
            None => fails_with(r, DecodeError::TruncatedInput),
        },
{
    let total: usize = data.len();
    let mut items: Vec<IpccPanicItem> = Vec::new();
    let mut at: usize = start;
    let mut i: u16 = 0;
    while i < count
        invariant
            i <= count,
            total == data@.len(),
            items_from(data@, start as int, count as nat) == match items_from(
                data@,
                at as int,
                (count - i) as nat,
            ) {
                Some(rest) => Some(item_views(items@) + rest),
                None => None,
            },
        decreases count - i,
    {
        let tag: u8 = get_u8(data, at)?;
        let len: u16 = get_u16(data, at + 1)?;
        let data_len: usize = if len < 3 {
            0
        } else {
            (len - 3) as usize
        };
        let payload = get_bytes(data, at + ITEM_HEADER_LEN, data_len)?;
        let item = IpccPanicItem { ftype: IpccPanicItemType::from_tag(tag), len, data: payload };
        proof {
            let rest = items_from(data@, item_end(data@, at as int), (count - i - 1) as nat);
            if rest is Some {
                assert(item_views(items@.push(item)) + rest->Some_0 == item_views(items@) + (
                seq![item_at(data@, at as int)] + rest->Some_0));
            }
        }
        items.push(item);
        at = at + ITEM_HEADER_LEN + data_len;
        i = i + 1;
    }
    assert(item_views(items@) + Seq::<ItemView>::empty() == item_views(items@));
    Ok(items)
}

impl IpccPanicDataV2 {
    /// This is the record that `s` begins with.
    pub open spec fn is_record_of(&self, s: Seq<u8>) -> bool {
        &&& self.version == s[0]
        &&& self.cause == le_u16(s, V2_CAUSE as int)
        &&& self.error == le_u32(s, V2_ERROR as int)
        &&& self.hrtime == le_u64(s, V2_HRTIME as int)
        &&& self.hrestime.tv_sec == le_u64(s, V2_HRESTIME_SEC as int)
        &&& self.hrestime.tv_nsec == le_u64(s, V2_HRESTIME_NSEC as int)
        &&& self.cpuid == le_u32(s, V2_CPUID as int)
        &&& self.thread == le_u64(s, V2_THREAD as int)
        &&& self.addr == le_u64(s, V2_ADDR as int)
        &&& self.pc == le_u64(s, V2_PC as int)
        &&& self.fp == le_u64(s, V2_FP as int)
        &&& self.rp == le_u64(s, V2_RP as int)
        &&& self.registers@ == v2_register_dump(s)
        &&& self.nitems == le_u16(s, V2_NITEMS as int)
        &&& self.items_len == le_u16(s, V2_ITEMS_LEN as int)
        &&& v2_items(s) == Ok::<Seq<ItemView>, DecodeError>(item_views(self.items@))
    }

    /// Reads the record that `data` begins with.  What follows the last
    /// item is not looked at.
    pub fn read_le(data: &[u8]) -> (r: Result<IpccPanicDataV2, DecodeError>)
        ensures
            match v2_items(data@) {
                Ok(_) => r is Ok && r->Ok_0.is_record_of(data@),
                Err(e) => fails_with(r, e),
            },
    {
        let version: u8 = get_u8(data, 0)?;
        if version != IPCC_PANIC_VERSION_2 {
            return Err(DecodeError::UnsupportedVersion(version));
        }
        let cause: u16 = get_u16(data, V2_CAUSE)?;
        let error: u32 = get_u32(data, V2_ERROR)?;
        let hrtime: u64 = get_u64(data, V2_HRTIME)?;
        let tv_sec: u64 = get_u64(data, V2_HRESTIME_SEC)?;
        let tv_nsec: u64 = get_u64(data, V2_HRESTIME_NSEC)?;
        let cpuid: u32 = get_u32(data, V2_CPUID)?;
        let thread: u64 = get_u64(data, V2_THREAD)?;
        let addr: u64 = get_u64(data, V2_ADDR)?;
        let pc: u64 = get_u64(data, V2_PC)?;
        let fp: u64 = get_u64(data, V2_FP)?;
        let rp: u64 = get_u64(data, V2_RP)?;
        let mut registers: [u64; 30] = [0u64; 30];
        let mut k: usize = 0;
        while k < REGISTER_SLOTS
            invariant
                k <= REGISTER_SLOTS,
                data@.len() > 0,
                data@[0] == IPCC_PANIC_VERSION_2,
                forall|j: int| 0 <= j < k ==> registers@[j] == le_u64(data@, V2_REGISTERS + 8 * j),
            decreases REGISTER_SLOTS - k,
        {
            let value: u64 = get_u64(data, V2_REGISTERS + 8 * k)?;
            registers[k] = value;
            k = k + 1;
        }
        let nitems: u16 = get_u16(data, V2_NITEMS)?;
        let items_len: u16 = get_u16(data, V2_ITEMS_LEN)?;
        let items = read_items(data, V2_ITEMS, nitems)?;
        assert(registers@ == v2_register_dump(data@));
        Ok(
            IpccPanicDataV2 {
                version,
                cause,
                error,
                hrtime,
                hrestime: IpccHresTime { tv_sec, tv_nsec },
                cpuid,
                thread,
                addr,
                pc,
                fp,
                rp,
                registers,
                nitems,
                items_len,
                items,
            },
        )
    }
}

impl IpccPanicItemType {
    /// The tag byte of the kind.
    pub open spec fn tag(self) -> u8 {
        match self {
            IpccPanicItemType::Nop => 0,
            IpccPanicItemType::Message => 1,
            IpccPanicItemType::StackEntry => 2,
            IpccPanicItemType::Ancillary => 3,
            IpccPanicItemType::Unknown(t) => t,
        }
    }

    /// An unknown kind holds a tag that no known kind has.
    pub open spec fn wf(self) -> bool {
        self matches IpccPanicItemType::Unknown(t) ==> t > 3
    }

    /// The kind of a tag byte has that tag, and a kind is the kind of its
    /// tag.
    pub proof fn lemma_tag_round_trip(self, tag: u8)
        ensures
            IpccPanicItemType::of_tag(tag).tag() == tag,
            IpccPanicItemType::of_tag(tag).wf(),
            self.wf() ==> IpccPanicItemType::of_tag(self.tag()) == self,
    {
    }
}

impl ItemView {
    /// The length field fits the payload, and the kind is well formed.
    pub open spec fn wf(self) -> bool {
        self.ftype.wf() && self.data.len() == item_data_len(self.len)
    }

    /// The bytes of the item on the wire.
    pub open spec fn wire(self) -> Seq<u8> {
        seq![self.ftype.tag()] + u16_le(self.len) + self.data
    }
}

/// The bytes of a list of items on the wire.
pub open spec fn items_wire(items: Seq<ItemView>) -> Seq<u8>
    decreases items.len(),
{
    if items.len() == 0 {
        Seq::empty()
    } else {
        items.first().wire() + items_wire(items.drop_first())
    }
}

/// An item is read back from the place where its wire form stands.
proof fn lemma_item_round_trip(w: Seq<u8>, at: int, item: ItemView)
    requires
        item.wf(),
        0 <= at,
        at + item.wire().len() <= w.len(),
        w.subrange(at, at + item.wire().len()) == item.wire(),
    ensures
        item_fits(w, at),
        item_at(w, at) == item,
        item_end(w, at) == at + item.wire().len(),
{
    let iw = w.subrange(at, at + item.wire().len());
    let q0 = seq![item.ftype.tag()];
    let q1 = q0 + u16_le(item.len);
    assert(iw.subrange(0, iw.len() as int) =~= iw);
    lemma_last_part_of_prefix(iw, q1, item.data);
    lemma_last_part_of_prefix(iw, q0, u16_le(item.len));
    assert(w[at] == iw.subrange(0, 1)[0]);
    assert(w.subrange(at + 1, at + 3) =~= iw.subrange(1, 3));
    lemma_le_u16_reads_encoding(w, at + 1, item.len);
    assert(w.subrange(at + 3, at + 3 + item.data.len()) =~= iw.subrange(
        3,
        (3 + item.data.len()) as int,
    ));
    item.ftype.lemma_tag_round_trip(0);
}

/// Reading gives back what was written: the items of a list are read back
/// from the place where the wire form of the list stands.
pub proof fn lemma_items_round_trip(a: Seq<u8>, items: Seq<ItemView>, rest: Seq<u8>)
    requires
        forall|i: int| 0 <= i < items.len() ==> (#[trigger] items[i]).wf(),
    ensures
        items_from(a + items_wire(items) + rest, a.len() as int, items.len()) == Some(items),
    decreases items.len(),
{
    let w = a + items_wire(items) + rest;
    if items.len() == 0 {
    } else {
        let first = items.first();
        let tail = items.drop_first();
        let at = a.len() as int;
        assert(first.wf());
        assert(w.subrange(at, at + first.wire().len()) =~= first.wire());
        lemma_item_round_trip(w, at, first);
        assert forall|i: int| 0 <= i < tail.len() implies (#[trigger] tail[i]).wf() by {
            assert(tail[i] == items[i + 1]);
        }
        lemma_items_round_trip(a + first.wire(), tail, rest);
        assert((a + first.wire()) + items_wire(tail) + rest =~= w);
        assert(seq![first] + tail =~= items);
    }
}

/// The bytes of a register dump on the wire.
pub open spec fn dump_wire(dump: Seq<u64>) -> Seq<u8>
    decreases dump.len(),
{
    if dump.len() == 0 {
        Seq::empty()
    } else {
        dump_wire(dump.drop_last()) + u64_le(dump.last())
    }
}

/// The size of the wire form of a register dump.
pub proof fn lemma_dump_wire_len(dump: Seq<u64>)
    ensures
        dump_wire(dump).len() == 8 * dump.len(),
    decreases dump.len(),
{
    if dump.len() > 0 {
        lemma_dump_wire_len(dump.drop_last());
    }
}

/// In the wire form of a register dump each value stands at its place.
pub proof fn lemma_dump_wire(dump: Seq<u64>)
    ensures
        forall|k: int|
            0 <= k < dump.len() ==> #[trigger] le_u64(dump_wire(dump), 8 * k) == dump[k],
    decreases dump.len(),
{
    lemma_dump_wire_len(dump);
    if dump.len() > 0 {
        let front = dump.drop_last();
        let w = dump_wire(dump);
        lemma_dump_wire_len(front);
        lemma_dump_wire(front);
        assert forall|k: int| 0 <= k < dump.len() implies #[trigger] le_u64(w, 8 * k)
            == dump[k] by {
            if k < front.len() {
                assert(le_u64(dump_wire(front), 8 * k) == front[k]);
                assert(w.subrange(8 * k, 8 * k + 8) =~= dump_wire(front).subrange(
                    8 * k,
                    8 * k + 8,
                ));
                lemma_le_u64_depends_on_field(w, 8 * k, dump_wire(front), 8 * k);
            } else {
                assert(w.subrange(8 * k, 8 * k + 8) =~= u64_le(dump.last()));
                lemma_le_u64_reads_encoding(w, 8 * k, dump.last());
            }
        }
    }
}

/// Two buffers that hold the same eight bytes at two places hold the same
/// 64-bit value there.
proof fn lemma_le_u64_depends_on_field(s: Seq<u8>, at: int, t: Seq<u8>, from: int)
    requires
        0 <= at,
        at + 8 <= s.len(),
        0 <= from,
        from + 8 <= t.len(),
        s.subrange(at, at + 8) == t.subrange(from, from + 8),
    ensures
        le_u64(s, at) == le_u64(t, from),
{
    let f = s.subrange(at, at + 8);
    let g = t.subrange(from, from + 8);
    assert(f[0] == s[at] && g[0] == t[from]);
    assert(f[1] == s[at + 1] && g[1] == t[from + 1]);
    assert(f[2] == s[at + 2] && g[2] == t[from + 2]);
    assert(f[3] == s[at + 3] && g[3] == t[from + 3]);
    assert(f[4] == s[at + 4] && g[4] == t[from + 4]);
    assert(f[5] == s[at + 5] && g[5] == t[from + 5]);
    assert(f[6] == s[at + 6] && g[6] == t[from + 6]);
    assert(f[7] == s[at + 7] && g[7] == t[from + 7]);
}

impl IpccPanicDataV2 {
    /// The record has the version of this layout, its item count is the
    /// number of its items, and the items are well formed.
    pub open spec fn wf(&self) -> bool {
        &&& self.version == IPCC_PANIC_VERSION_2
        &&& self.nitems == self.items@.len()
        &&& forall|i: int|
            0 <= i < self.items@.len() ==> (#[trigger] item_views(self.items@)[i]).wf()
    }

    /// The bytes of the record on the wire up to the register dump.
    #[verifier::opaque]
    pub open spec fn wire_head(&self) -> Seq<u8> {
        seq![self.version] + u16_le(self.cause) + u32_le(self.error) + u64_le(self.hrtime)
            + u64_le(self.hrestime.tv_sec) + u64_le(self.hrestime.tv_nsec) + u32_le(self.cpuid)
            + u64_le(self.thread) + u64_le(self.addr) + u64_le(self.pc) + u64_le(self.fp) + u64_le(
            self.rp,
        )
    }

    /// The bytes of the record on the wire up to the first item.
    #[verifier::opaque]
    pub open spec fn wire_header(&self) -> Seq<u8> {
        self.wire_head() + dump_wire(self.registers@) + u16_le(self.nitems) + u16_le(
            self.items_len,
        )
    }

    /// The bytes of the record on the wire.
    #[verifier::opaque]
    pub open spec fn wire(&self) -> Seq<u8> {
        self.wire_header() + items_wire(item_views(self.items@))
    }

    /// The fields before the register dump, read from a buffer that begins
    /// with their wire form.
    #[verifier::rlimit(40)]
    proof fn lemma_wire_head(&self, w: Seq<u8>)
        requires
            w.len() >= V2_REGISTERS,
            w.subrange(0, V2_REGISTERS as int) == self.wire_head(),
        ensures
            self.version == w[0],
            self.cause == le_u16(w, V2_CAUSE as int),
            self.error == le_u32(w, V2_ERROR as int),
            self.hrtime == le_u64(w, V2_HRTIME as int),
            self.hrestime.tv_sec == le_u64(w, V2_HRESTIME_SEC as int),
            self.hrestime.tv_nsec == le_u64(w, V2_HRESTIME_NSEC as int),
            self.cpuid == le_u32(w, V2_CPUID as int),
            self.thread == le_u64(w, V2_THREAD as int),
            self.addr == le_u64(w, V2_ADDR as int),
            self.pc == le_u64(w, V2_PC as int),
            self.fp == le_u64(w, V2_FP as int),
            self.rp == le_u64(w, V2_RP as int),
    {
        reveal(IpccPanicDataV2::wire_head);
        let p0 = seq![self.version];
        let p1 = p0 + u16_le(self.cause);
        let p2 = p1 + u32_le(self.error);
        let p3 = p2 + u64_le(self.hrtime);
        let p4 = p3 + u64_le(self.hrestime.tv_sec);
        let p5 = p4 + u64_le(self.hrestime.tv_nsec);
        let p6 = p5 + u32_le(self.cpuid);
        let p7 = p6 + u64_le(self.thread);
        let p8 = p7 + u64_le(self.addr);
        let p9 = p8 + u64_le(self.pc);
        let p10 = p9 + u64_le(self.fp);
        lemma_last_part_of_prefix(w, p10, u64_le(self.rp));
        lemma_le_u64_reads_encoding(w, V2_RP as int, self.rp);
        lemma_last_part_of_prefix(w, p9, u64_le(self.fp));
        lemma_le_u64_reads_encoding(w, V2_FP as int, self.fp);
        lemma_last_part_of_prefix(w, p8, u64_le(self.pc));
        lemma_le_u64_reads_encoding(w, V2_PC as int, self.pc);
        lemma_last_part_of_prefix(w, p7, u64_le(self.addr));
        lemma_le_u64_reads_encoding(w, V2_ADDR as int, self.addr);
        lemma_last_part_of_prefix(w, p6, u64_le(self.thread));
        lemma_le_u64_reads_encoding(w, V2_THREAD as int, self.thread);
        lemma_last_part_of_prefix(w, p5, u32_le(self.cpuid));
        lemma_le_u32_reads_encoding(w, V2_CPUID as int, self.cpuid);
        lemma_last_part_of_prefix(w, p4, u64_le(self.hrestime.tv_nsec));
        lemma_le_u64_reads_encoding(w, V2_HRESTIME_NSEC as int, self.hrestime.tv_nsec);
        lemma_last_part_of_prefix(w, p3, u64_le(self.hrestime.tv_sec));
        lemma_le_u64_reads_encoding(w, V2_HRESTIME_SEC as int, self.hrestime.tv_sec);
        lemma_last_part_of_prefix(w, p2, u64_le(self.hrtime));
        lemma_le_u64_reads_encoding(w, V2_HRTIME as int, self.hrtime);
        lemma_last_part_of_prefix(w, p1, u32_le(self.error));
        lemma_le_u32_reads_encoding(w, V2_ERROR as int, self.error);
        lemma_last_part_of_prefix(w, p0, u16_le(self.cause));
        lemma_le_u16_reads_encoding(w, V2_CAUSE as int, self.cause);
        assert(w[0] == w.subrange(0, 1)[0]);
    }

    /// The size of the wire form of the fields before the register dump.
    #[verifier::rlimit(40)]
    proof fn lemma_wire_head_len(&self)
        ensures
            self.wire_head().len() == V2_REGISTERS,
    {
        reveal(IpccPanicDataV2::wire_head);
        let p0 = seq![self.version];
        let p1 = p0 + u16_le(self.cause);
        let p2 = p1 + u32_le(self.error);
        let p3 = p2 + u64_le(self.hrtime);
        let p4 = p3 + u64_le(self.hrestime.tv_sec);
        let p5 = p4 + u64_le(self.hrestime.tv_nsec);
        let p6 = p5 + u32_le(self.cpuid);
        let p7 = p6 + u64_le(self.thread);
        let p8 = p7 + u64_le(self.addr);
        let p9 = p8 + u64_le(self.pc);
        let p10 = p9 + u64_le(self.fp);
        let p11 = p10 + u64_le(self.rp);
        assert(p1.len() == 3);
        assert(p2.len() == 7);
        assert(p3.len() == 15);
        assert(p4.len() == 23);
        assert(p5.len() == 31);
        assert(p6.len() == 35);
        assert(p7.len() == 43);
        assert(p8.len() == 51);
        assert(p9.len() == 59);
        assert(p10.len() == 67);
        assert(p11.len() == 75);
    }

    /// The size of the wire form of the header.
    proof fn lemma_wire_len(&self)
        ensures
            self.wire_head().len() == V2_REGISTERS,
            self.wire_header().len() == V2_ITEMS,
    {
        reveal(IpccPanicDataV2::wire_header);
        self.lemma_wire_head_len();
        lemma_dump_wire_len(self.registers@);
    }

    /// The parts of the header from the register dump on, found in a buffer
    /// that begins with the wire form of the header.
    proof fn lemma_wire_header(&self, w: Seq<u8>)
        requires
            w.len() >= V2_ITEMS,
            w.subrange(0, V2_ITEMS as int) == self.wire_header(),
        ensures
            w.subrange(0, V2_REGISTERS as int) == self.wire_head(),
            self.registers@ == v2_register_dump(w),
            self.nitems == le_u16(w, V2_NITEMS as int),
            self.items_len == le_u16(w, V2_ITEMS_LEN as int),
    {
        reveal(IpccPanicDataV2::wire_header);
        self.lemma_wire_len();
        let dump = dump_wire(self.registers@);
        let p0 = self.wire_head();
        let p1 = p0 + dump;
        let p2 = p1 + u16_le(self.nitems);
        lemma_dump_wire_len(self.registers@);
        lemma_dump_wire(self.registers@);
        lemma_last_part_of_prefix(w, p2, u16_le(self.items_len));
        lemma_le_u16_reads_encoding(w, V2_ITEMS_LEN as int, self.items_len);
        lemma_last_part_of_prefix(w, p1, u16_le(self.nitems));
        lemma_le_u16_reads_encoding(w, V2_NITEMS as int, self.nitems);
        lemma_last_part_of_prefix(w, p0, dump);
        assert forall|k: int| 0 <= k < REGISTER_SLOTS implies self.registers@[k] == le_u64(
            w,
            V2_REGISTERS + 8 * k,
        ) by {
            assert(le_u64(dump, 8 * k) == self.registers@[k]);
            assert(w.subrange(V2_REGISTERS + 8 * k, V2_REGISTERS + 8 * k + 8) =~= dump.subrange(
                8 * k,
                8 * k + 8,
            ));
            lemma_le_u64_depends_on_field(w, V2_REGISTERS + 8 * k, dump, 8 * k);
        }
        assert(self.registers@ =~= v2_register_dump(w));
    }

    /// Reading gives back what was written: a record is the record that its
    /// wire form begins with, whatever follows the wire form.
    pub proof fn lemma_wire_round_trip(&self, rest: Seq<u8>)
        requires
            self.wf(),
        ensures
            v2_items(self.wire() + rest) == Ok::<Seq<ItemView>, DecodeError>(
                item_views(self.items@),
            ),
            self.is_record_of(self.wire() + rest),
    {
        reveal(IpccPanicDataV2::wire);
        let w = self.wire() + rest;
        let header = self.wire_header();
        let items = item_views(self.items@);
        self.lemma_wire_len();
        assert(w.subrange(0, V2_ITEMS as int) =~= header);
        self.lemma_wire_header(w);
        self.lemma_wire_head(w);
        lemma_items_round_trip(header, items, rest);
        assert(header + items_wire(items) + rest =~= w);
    }
}

} // verus!

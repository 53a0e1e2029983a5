//! The decoded panic record and the functions that build it.

use crate::fixup::{
    all_zero, compensated, fix_panic_data, is_version_tag, lemma_compensated,
    reconstructed_cause,
};
use crate::registers::{
    canonical_register, canonical_registers, collect_registers, register_entries, REGISTER_COUNT,
};
use crate::text::{decode_padded, from_utf8_lossy, lossy_text, padded_text};
use crate::types::{
    fails_with, Addr, AdjustedTime, Cpuid, DecodeError, MonotonicNanoseconds, PanicCause,
    PanicDataVersion, Register, StackFrame, StackFrameView,
};
use crate::v1::{
    v1_message, v1_slot_addr, v1_slot_offset, v1_slot_symbol, IpccPanicDataV1, IpccPanicStackV1,
    IPCC_PANIC_V1_STACKS, V1_ADDR, V1_CAUSE, V1_CPUID, V1_ERROR, V1_FP, V1_LEN, V1_PC, V1_RP,
    V1_STACKIDX, V1_THREAD,
};
use crate::v2::{
    item_views, v2_items, v2_register_dump, IpccPanicDataV2, IpccPanicItem, IpccPanicItemType,
    IpccPanicStack, ItemView, STACK_ENTRY_PREFIX_LEN, V2_ADDR, V2_CAUSE, V2_CPUID, V2_ERROR,
    V2_FP, V2_HRESTIME_NSEC, V2_HRESTIME_SEC, V2_HRTIME, V2_PC, V2_RP, V2_THREAD,
};
use crate::wire::{le_u16, le_u32, le_u64};
use indexmap::IndexMap;
use vstd::prelude::*;
use vstd::utf8::valid_utf8;

verus! {

/// Host panic data: what the host reported of its panic.
#[derive(Debug, PartialEq, Eq)]
pub struct PanicData {
    /// version of panic data
    pub version: PanicDataVersion,
    /// cause of panic
    pub cause: PanicCause,
    /// error code associated with trap (if any)
    pub error_code: u32,
    /// ID of panicking CPU
    pub cpuid: Cpuid,
    /// panic monotonic time (nanoseconds since boot), if present
    pub hrtime: Option<MonotonicNanoseconds>,
    /// panic adjusted time (time since epoch), if present
    pub time: Option<AdjustedTime>,
    /// address of panicking thread
    pub thread: Addr,
    /// address associated with trap (if any)
    pub addr: Addr,
    /// program counter associated with panic
    pub pc: Addr,
    /// frame pointer
    pub fp: Addr,
    /// pointer to panic registers
    pub rp: Addr,
    /// panic message, if any
    pub message: Option<String>,
    /// trap registers, if present
    pub registers: Option<IndexMap<Register, u64>>,
    /// panic stack
    pub stack: Vec<StackFrame>,
}

/// The mathematical value of a [`PanicData`]: texts as sequences of
/// characters, the registers as the sequence of pairs that the map yields.
pub struct PanicDataView {
    pub version: PanicDataVersion,
    pub cause: PanicCause,
    pub error_code: u32,
    pub cpuid: Cpuid,
    pub hrtime: Option<MonotonicNanoseconds>,
    pub time: Option<AdjustedTime>,
    pub thread: Addr,
    pub addr: Addr,
    pub pc: Addr,
    pub fp: Addr,
    pub rp: Addr,
    pub message: Option<Seq<char>>,
    pub registers: Option<Seq<(Register, u64)>>,
    pub stack: Seq<StackFrameView>,
}

impl PanicDataView {
    /// What holds of every record that a decode of a buffer hands out.  The
    /// version is 1 or 2.  A version 1 record has a message, and neither
    /// times nor registers.  A version 2 record has both times, and it has
    /// registers unless its cause is an explicit call.  Registers, where
    /// there are any, are the twenty-six of the reported order, each at its
    /// place.  An unknown cause holds a code that no known cause has.
    pub open spec fn wf(self) -> bool {
        &&& self.version.spec_number() == 1 || self.version.spec_number() == 2
        &&& self.version.spec_number() == 1 ==> self.message is Some && self.hrtime is None
            && self.time is None && self.registers is None
        &&& self.version.spec_number() == 2 ==> self.hrtime is Some && self.time is Some && (
        self.registers is None <==> self.cause == PanicCause::Call)
        &&& self.registers matches Some(registers) ==> registers.len() == REGISTER_COUNT
            && forall|i: int|
            0 <= i < REGISTER_COUNT ==> (#[trigger] registers[i]).0 == canonical_register(i)
        &&& self.cause.wf()
    }
}

/// The values of a list of stack frames.
pub open spec fn stack_views(stack: Seq<StackFrame>) -> Seq<StackFrameView> {
    stack.map_values(|frame: StackFrame| frame@)
}

impl View for PanicData {
    type V = PanicDataView;

    open spec fn view(&self) -> PanicDataView {
        PanicDataView {
            version: self.version,
            cause: self.cause,
            error_code: self.error_code,
            cpuid: self.cpuid,
            hrtime: self.hrtime,
            time: self.time,
            thread: self.thread,
            addr: self.addr,
            pc: self.pc,
            fp: self.fp,
            rp: self.rp,
            message: match self.message {
                Some(m) => Some(m@),
                None => None,
            },
            registers: match self.registers {
                Some(m) => Some(register_entries(m)),
                None => None,
            },
            stack: stack_views(self.stack@),
        }
    }
}

/// The value of the outcome of a decode.
pub open spec fn outcome_view(r: Result<PanicData, DecodeError>) -> Result<
    PanicDataView,
    DecodeError,
> {
    match r {
        Ok(p) => Ok(p@),
        Err(e) => Err(e),
    }
}

/// The number of stack slots of a version 1 record that are in use: the
/// count that the record gives, and no more than there are slots.
pub open spec fn v1_frame_count(s: Seq<u8>) -> nat {
    if s[V1_STACKIDX as int] < IPCC_PANIC_V1_STACKS {
        s[V1_STACKIDX as int] as nat
    } else {
        IPCC_PANIC_V1_STACKS as nat
    }
}

/// The stack frame that slot `i` of a version 1 record holds.  A symbol
/// field that is not valid UTF-8 gives a frame without a symbol.
pub open spec fn v1_frame(s: Seq<u8>, i: int) -> StackFrameView {
    StackFrameView {
        address: v1_slot_addr(s, i),
        symbol: padded_text(v1_slot_symbol(s, i)),
        offset: v1_slot_offset(s, i),
    }
}

/// The stack of a version 1 record: the slots in use, in their order.
pub open spec fn v1_stack(s: Seq<u8>) -> Seq<StackFrameView> {
    Seq::new(v1_frame_count(s), |i: int| v1_frame(s, i))
}

/// What a buffer decodes to as a version 1 record.
pub open spec fn decoded_v1(version: PanicDataVersion, s: Seq<u8>) -> Result<
    PanicDataView,
    DecodeError,
> {
    if s.len() < V1_LEN {
        Err(DecodeError::TruncatedInput)
    } else if !valid_utf8(v1_message(s)) {
        Err(DecodeError::InvalidMessageEncoding)
    } else {
        Ok(
            PanicDataView {
                version,
                cause: PanicCause::of_code(le_u16(s, V1_CAUSE as int)),
                error_code: le_u32(s, V1_ERROR as int),
                cpuid: Cpuid(le_u32(s, V1_CPUID as int)),
                hrtime: None,
                time: None,
                thread: Addr(le_u64(s, V1_THREAD as int)),
                addr: Addr(le_u64(s, V1_ADDR as int)),
                pc: Addr(le_u64(s, V1_PC as int)),
                fp: Addr(le_u64(s, V1_FP as int)),
                rp: Addr(le_u64(s, V1_RP as int)),
                message: padded_text(v1_message(s)),
                registers: None,
                stack: v1_stack(s),
            },
        )
    }
}

impl PanicData {
    /// Decodes a version 1 record.  `version` is handed on as it is: the
    /// version byte of the buffer is not looked at.
    ///
    /// The record has neither times nor registers.  Its stack holds the
    /// slots in use and no others, in the order of the slots.
    pub fn from_v1(version: PanicDataVersion, d: Vec<u8>) -> (r: Result<PanicData, DecodeError>)
        ensures
            outcome_view(r) == decoded_v1(version, d@),
            r is Ok ==> r->Ok_0@.stack.len() == v1_frame_count(d@) && forall|i: int|
                0 <= i < v1_frame_count(d@) ==> r->Ok_0@.stack[i] == v1_frame(d@, i),
            r is Ok ==> r->Ok_0@.hrtime is None && r->Ok_0@.time is None && r->Ok_0@.registers
                is None,
    {
        let p = IpccPanicDataV1::read_le(d.as_slice())?;
        let message = match decode_padded(p.ipd_message.as_slice()) {
            Some(m) => m,
            None => {
                return Err(DecodeError::InvalidMessageEncoding);
            },
        };
        let in_use: usize = p.ipd_stackidx as usize;
        let mut stack: Vec<StackFrame> = Vec::new();
        let mut ndx: usize = 0;
        while ndx < IPCC_PANIC_V1_STACKS && ndx < in_use
            invariant
                ndx <= v1_frame_count(d@),
                in_use == d@[V1_STACKIDX as int],
                p.is_record_of(d@),
                stack@.len() == ndx,
                forall|i: int| 0 <= i < ndx ==> (#[trigger] stack@[i])@ == v1_frame(d@, i),
            decreases IPCC_PANIC_V1_STACKS - ndx,
        {
            let s = &p.ipd_stack[ndx];
            stack.push(
                StackFrame {
                    address: Addr(s.ips_addr),
                    offset: s.ips_offset,
                    symbol: decode_padded(s.ips_symbol.as_slice()),
                },
            );
            ndx = ndx + 1;
        }
        assert(stack_views(stack@) =~= v1_stack(d@));
        Ok(
            PanicData {
                version,
                cause: PanicCause::from(p.ipd_cause),
                error_code: p.ipd_error,
                cpuid: Cpuid(p.ipd_cpuid),
                hrtime: None,
                time: None,
                thread: Addr(p.ipd_thread),
                addr: Addr(p.ipd_addr),
                pc: Addr(p.ipd_pc),
                fp: Addr(p.ipd_fp),
                rp: Addr(p.ipd_rp),
                message: Some(message),
                registers: None,
                stack,
            },
        )
    }
}

/// The payloads of the message items of a list, in the order of the list.
pub open spec fn message_payloads(items: Seq<ItemView>) -> Seq<Seq<u8>>
    decreases items.len(),
{
    if items.len() == 0 {
        Seq::empty()
    } else if items.first().ftype == IpccPanicItemType::Message {
        seq![items.first().data] + message_payloads(items.drop_first())
    } else {
        message_payloads(items.drop_first())
    }
}

/// The message of a version 2 record: none where no item is a message, the
/// lossily decoded payload where one is, and a failure where several are.
pub open spec fn v2_message(items: Seq<ItemView>) -> Result<Option<Seq<char>>, DecodeError> {
    let payloads = message_payloads(items);
    if payloads.len() == 0 {
        Ok(None)
    } else if payloads.len() == 1 {
        Ok(Some(lossy_text(payloads[0])))
    } else {
        Err(DecodeError::MultipleMessageItems)
    }
}

/// The stack frame that the payload of a stack item holds: the address,
/// the offset, and as the symbol the lossily decoded rest of the payload.
/// Where nothing follows the offset the frame has no symbol.
pub open spec fn v2_frame(payload: Seq<u8>) -> StackFrameView {
    StackFrameView {
        address: le_u64(payload, 0),
        symbol: if payload.len() <= STACK_ENTRY_PREFIX_LEN {
            None
        } else {
            Some(lossy_text(payload.subrange(STACK_ENTRY_PREFIX_LEN as int, payload.len() as int)))
        },
        offset: le_u64(payload, 8),
    }
}

/// A stack item whose payload is too short for an address and an offset.
pub open spec fn is_malformed_stack_item(item: ItemView) -> bool {
    item.ftype == IpccPanicItemType::StackEntry && item.data.len() < STACK_ENTRY_PREFIX_LEN
}

/// The stack of a version 2 record: one frame for each stack item, in the
/// order of the items; `None` where a stack item is malformed.
pub open spec fn v2_stack(items: Seq<ItemView>) -> Option<Seq<StackFrameView>>
    decreases items.len(),
{
    if items.len() == 0 {
        Some(Seq::empty())
    } else if is_malformed_stack_item(items.first()) {
        None
    } else {
        match v2_stack(items.drop_first()) {
            None => None,
            Some(rest) => if items.first().ftype == IpccPanicItemType::StackEntry {
                Some(seq![v2_frame(items.first().data)] + rest)
            } else {
                Some(rest)
            },
        }
    }
}

/// The cause of a version 2 record.
pub open spec fn v2_cause(s: Seq<u8>) -> PanicCause {
    PanicCause::of_code(le_u16(s, V2_CAUSE as int))
}

/// The nanoseconds of the wall-clock time of a version 2 record, as they
/// stand on the wire.
pub open spec fn v2_nsec(s: Seq<u8>) -> u64 {
    le_u64(s, V2_HRESTIME_NSEC as int)
}

/// The registers of a version 2 record: those that a record reports of the
/// dump, unless the panic was an explicit call, which has none.
pub open spec fn v2_registers(s: Seq<u8>) -> Option<Seq<(Register, u64)>> {
    if v2_cause(s) == PanicCause::Call {
        None
    } else {
        Some(canonical_registers(v2_register_dump(s)))
    }
}

/// What a buffer decodes to as a version 2 record.  The layout is checked
/// first, then the message items, then the stack items, then the time.
pub open spec fn decoded_v2(version: PanicDataVersion, s: Seq<u8>) -> Result<
    PanicDataView,
    DecodeError,
> {
    match v2_items(s) {
        Err(e) => Err(e),
        Ok(items) => {
            if v2_message(items) is Err {
                Err(DecodeError::MultipleMessageItems)
            } else if v2_stack(items) is None {
                Err(DecodeError::MalformedStackItem)
            } else if v2_nsec(s) > u32::MAX {
                Err(DecodeError::TimestampOverflow(v2_nsec(s)))
            } else {
                Ok(
                    PanicDataView {
                        version,
                        cause: v2_cause(s),
                        error_code: le_u32(s, V2_ERROR as int),
                        cpuid: Cpuid(le_u32(s, V2_CPUID as int)),
                        hrtime: Some(MonotonicNanoseconds(le_u64(s, V2_HRTIME as int))),
                        time: Some(
                            AdjustedTime {
                                sec: le_u64(s, V2_HRESTIME_SEC as int),
                                nsec: v2_nsec(s) as u32,
                            },
                        ),
                        thread: Addr(le_u64(s, V2_THREAD as int)),
                        addr: Addr(le_u64(s, V2_ADDR as int)),
                        pc: Addr(le_u64(s, V2_PC as int)),
                        fp: Addr(le_u64(s, V2_FP as int)),
                        rp: Addr(le_u64(s, V2_RP as int)),
                        message: v2_message(items)->Ok_0,
                        registers: v2_registers(s),
                        stack: v2_stack(items)->Some_0,
                    },
                )
            }
        },
    }
}

/// The place of the message item among the items of a version 2 record:
/// none where no item is a message, and a failure where several are.
pub fn message_index(items: &Vec<IpccPanicItem>) -> (r: Result<Option<usize>, DecodeError>)
    ensures
        match r {
            Ok(None) => message_payloads(item_views(items@)).len() == 0,
            Ok(Some(at)) => at < items@.len() && items@[at as int].ftype
                == IpccPanicItemType::Message && message_payloads(item_views(items@)) == seq![
                items@[at as int].data@,
            ],
            Err(e) => e == DecodeError::MultipleMessageItems && message_payloads(
                item_views(items@),
            ).len() >= 2,
        },
{
    let ghost views = item_views(items@);
    let ghost mut seen: Seq<Seq<u8>> = Seq::empty();
    let mut first: Option<usize> = None;
    let mut count: usize = 0;
    let mut i: usize = 0;
    proof {
        assert(views.skip(0) =~= views);
        assert(seen + message_payloads(views) =~= message_payloads(views));
    }
    while i < items.len()
        invariant
            i <= items.len(),
            views == item_views(items@),
            message_payloads(views) == seen + message_payloads(views.skip(i as int)),
            seen.len() == count,
            count <= i,
            count == 0 <==> first is None,
            first is Some ==> first->Some_0 < i && views[first->Some_0 as int].ftype
                == IpccPanicItemType::Message && seen[0] == views[first->Some_0 as int].data,
        decreases items.len() - i,
    {
        proof {
            assert(views.skip(i as int).first() == views[i as int]);
            assert(views.skip(i as int).drop_first() =~= views.skip(i + 1));
        }
        match items[i].ftype {
            IpccPanicItemType::Message => {
                if count == 0 {
                    first = Some(i);
                }
                count = count + 1;
                proof {
                    let rest = message_payloads(views.skip(i + 1));
                    assert(seen + (seq![views[i as int].data] + rest) =~= seen.push(
                        views[i as int].data,
                    ) + rest);
                    seen = seen.push(views[i as int].data);
                }
            },
            _ => {},
        }
        i = i + 1;
    }
    proof {
        assert(views.skip(i as int).len() == 0);
        assert(seen + Seq::<Seq<u8>>::empty() =~= seen);
        if count == 1 {
            assert(seen =~= seq![seen[0]]);
        }
    }
    if count > 1 {
        return Err(DecodeError::MultipleMessageItems);
    }
    Ok(first)
}

/// The value of the outcome of a search for the message.
pub open spec fn message_outcome(r: Result<Option<String>, DecodeError>) -> Result<
    Option<Seq<char>>,
    DecodeError,
> {
    match r {
        Ok(Some(m)) => Ok(Some(m@)),
        Ok(None) => Ok(None),
        Err(e) => Err(e),
    }
}

/// The message among the items of a version 2 record.
pub fn find_message(items: &Vec<IpccPanicItem>) -> (r: Result<Option<String>, DecodeError>)
    ensures
        message_outcome(r) == v2_message(item_views(items@)),
{
    match message_index(items)? {
        Some(at) => Ok(Some(from_utf8_lossy(items[at].data.as_slice()))),
        None => Ok(None),
    }
}

/// The stack frame of a stack entry whose symbol has been decoded to
/// `text`.  An entry without symbol bytes gives a frame without a symbol.
pub fn stack_frame(entry: &IpccPanicStack, text: String) -> (frame: StackFrame)
    ensures
        frame@ == (StackFrameView {
            address: entry.addr,
            symbol: if entry.symbol@.len() == 0 {
                None
            } else {
                Some(text@)
            },
            offset: entry.offset,
        }),
{
    StackFrame {
        address: Addr(entry.addr),
        offset: entry.offset,
        symbol: if entry.symbol.len() == 0 {
            None
        } else {
            Some(text)
        },
    }
}

/// The stack frames among the items of a version 2 record.
pub fn collect_stack(items: &Vec<IpccPanicItem>) -> (r: Result<Vec<StackFrame>, DecodeError>)
    ensures
        match v2_stack(item_views(items@)) {
            Some(frames) => r is Ok && stack_views(r->Ok_0@) == frames,
            None => fails_with(r, DecodeError::MalformedStackItem),
        },
{
    let ghost views = item_views(items@);
    let mut stack: Vec<StackFrame> = Vec::new();
    let mut i: usize = 0;
    proof {
        assert(views.skip(0) =~= views);
        let all = v2_stack(views);
        if all is Some {
            assert(stack_views(stack@) + all->Some_0 =~= all->Some_0);
        }
    }
    while i < items.len()
        invariant
            i <= items.len(),
            views == item_views(items@),
            v2_stack(views) == match v2_stack(views.skip(i as int)) {
                Some(rest) => Some(stack_views(stack@) + rest),
                None => None,
            },
        decreases items.len() - i,
    {
        proof {
            assert(views.skip(i as int).first() == views[i as int]);
            assert(views.skip(i as int).drop_first() =~= views.skip(i + 1));
        }
        match items[i].ftype {
            IpccPanicItemType::StackEntry => {
                let ps = IpccPanicStack::read_le(items[i].data.as_slice())?;
                let text = from_utf8_lossy(ps.symbol.as_slice());
                let frame = stack_frame(&ps, text);
                proof {
                    assert(frame@ == v2_frame(views[i as int].data));
                    let rest = v2_stack(views.skip(i + 1));
                    if rest is Some {
                        assert(stack_views(stack@) + (seq![frame@] + rest->Some_0) =~= stack_views(
                            stack@.push(frame),
                        ) + rest->Some_0);
                    }
                }
                stack.push(frame);
            },
            _ => {},
        }
        i = i + 1;
    }
    proof {
        assert(views.skip(i as int).len() == 0);
        assert(stack_views(stack@) + Seq::<StackFrameView>::empty() =~= stack_views(stack@));
    }
    Ok(stack)
}

impl PanicData {
    /// Decodes a version 2 record.  `version` is handed on as it is; the
    /// version byte of the buffer must be 2.
    ///
    /// A record whose cause is an explicit call has no registers, whatever
    /// its register dump holds.  More than one message item, a malformed
    /// stack item, and nanoseconds that do not fit in 32 bits each make the
    /// decode fail, and where several of them occur it fails with the first
    /// of them in this order.
    pub fn from_v2(version: PanicDataVersion, d: Vec<u8>) -> (r: Result<PanicData, DecodeError>)
        ensures
            outcome_view(r) == decoded_v2(version, d@),
            r is Ok && v2_cause(d@) == PanicCause::Call ==> r->Ok_0@.registers is None,
            v2_items(d@) matches Ok(items) ==> ({
                &&& message_payloads(items).len() >= 2 ==> fails_with(
                    r,
                    DecodeError::MultipleMessageItems,
                )
                &&& v2_message(items) is Ok && v2_stack(items) is Some && v2_nsec(d@) > u32::MAX
                    ==> fails_with(r, DecodeError::TimestampOverflow(v2_nsec(d@)))
                &&& r is Ok ==> v2_stack(items) == Some(r->Ok_0@.stack)
            }),
    {
        let p = IpccPanicDataV2::read_le(d.as_slice())?;
        let message = find_message(&p.items)?;
        let stack = collect_stack(&p.items)?;
        let cause = PanicCause::from(p.cause);
        let registers = match cause {
            PanicCause::Call => None,
            _ => Some(collect_registers(&p.registers)),
        };
        if p.hrestime.tv_nsec > u32::MAX as u64 {
            return Err(DecodeError::TimestampOverflow(p.hrestime.tv_nsec));
        }
        let nsec: u32 = p.hrestime.tv_nsec as u32;
        Ok(
            PanicData {
                version,
                cause,
                error_code: p.error,
                cpuid: Cpuid(p.cpuid),
                hrtime: Some(MonotonicNanoseconds(p.hrtime)),
                time: Some(AdjustedTime { sec: p.hrestime.tv_sec, nsec }),
                thread: Addr(p.thread),
                addr: Addr(p.addr),
                pc: Addr(p.pc),
                fp: Addr(p.fp),
                rp: Addr(p.rp),
                message,
                registers,
                stack,
            },
        )
    }
}

/// What a buffer decodes to: nothing where it holds no panic data, and
/// otherwise the record of the version that compensation determined or
/// inferred.  Versions other than 1 and 2 are not supported.
pub open spec fn decoded(d: Seq<u8>) -> Result<Option<PanicDataView>, DecodeError> {
    match compensated(d) {
        Err(e) => Err(e),
        Ok(None) => Ok(None),
        Ok(Some((version, data))) => {
            let record = if version.spec_number() == 1 {
                decoded_v1(version, data)
            } else if version.spec_number() == 2 {
                decoded_v2(version, data)
            } else {
                Err(DecodeError::UnsupportedVersion(version.spec_number()))
            };
            match record {
                Ok(p) => Ok(Some(p)),
                Err(e) => Err(e),
            }
        },
    }
}

/// A version 1 record is well formed.
proof fn lemma_decoded_v1_wf(version: PanicDataVersion, s: Seq<u8>)
    requires
        version.spec_number() == 1,
        decoded_v1(version, s) is Ok,
    ensures
        decoded_v1(version, s)->Ok_0.wf(),
        decoded_v1(version, s)->Ok_0.version == version,
        decoded_v1(version, s)->Ok_0.cause == PanicCause::of_code(le_u16(s, V1_CAUSE as int)),
{
    PanicCause::Call.lemma_code_round_trip(le_u16(s, V1_CAUSE as int));
}

/// A version 2 record is well formed.
proof fn lemma_decoded_v2_wf(version: PanicDataVersion, s: Seq<u8>)
    requires
        version.spec_number() == 2,
        decoded_v2(version, s) is Ok,
    ensures
        decoded_v2(version, s)->Ok_0.wf(),
        decoded_v2(version, s)->Ok_0.version == version,
        decoded_v2(version, s)->Ok_0.cause == PanicCause::of_code(le_u16(s, V2_CAUSE as int)),
{
    PanicCause::Call.lemma_code_round_trip(le_u16(s, V2_CAUSE as int));
}

/// What holds of every record that a buffer decodes to.  The record is well
/// formed.  Its version is determined where the buffer begins with a version
/// number; it is inferred otherwise, and the cause is then the one that was
/// reconstructed from the first byte.
pub proof fn lemma_decoded(d: Seq<u8>)
    ensures
        all_zero(d) ==> decoded(d) == Ok::<Option<PanicDataView>, DecodeError>(None),
        decoded(d) matches Ok(Some(rec)) ==> ({
            &&& rec.wf()
            &&& d.len() > 0
            &&& is_version_tag(d[0]) ==> rec.version == PanicDataVersion::Determined(d[0])
            &&& !is_version_tag(d[0]) ==> rec.version is Inferred && Some(rec.cause)
                == reconstructed_cause(d[0])
        }),
{
    if decoded(d) is Ok && decoded(d)->Ok_0 is Some {
        lemma_compensated(d);
        let (version, data) = compensated(d)->Ok_0->Some_0;
        if version.spec_number() == 1 {
            lemma_decoded_v1_wf(version, data);
        } else {
            lemma_decoded_v2_wf(version, data);
        }
    }
}

/// The value of the outcome of decoding a buffer.
pub open spec fn decode_view(r: Result<Option<PanicData>, DecodeError>) -> Result<
    Option<PanicDataView>,
    DecodeError,
> {
    match r {
        Ok(Some(p)) => Ok(Some(p@)),
        Ok(None) => Ok(None),
        Err(e) => Err(e),
    }
}

impl PanicData {
    /// Decodes the panic data that a buffer holds.  A buffer that lost its
    /// first two bytes is repaired first; the version of the record that
    /// comes back tells whether it was determined or had to be inferred.
    ///
    /// A buffer of zeros holds no panic data, and `Ok(None)` comes back.
    /// The version of a record is determined where the buffer begins with a
    /// version number; it is inferred otherwise, and the cause is then the
    /// one that was reconstructed from the first byte.
    pub fn from_bytes(d: Vec<u8>) -> (r: Result<Option<PanicData>, DecodeError>)
        ensures
            decode_view(r) == decoded(d@),
            all_zero(d@) ==> r matches Ok(None),
            r matches Ok(Some(p)) ==> ({
                &&& p@.wf()
                &&& d@.len() > 0
                &&& is_version_tag(d@[0]) ==> p.version == PanicDataVersion::Determined(d@[0])
                &&& !is_version_tag(d@[0]) ==> p.version is Inferred && Some(p.cause)
                    == reconstructed_cause(d@[0])
            }),
    {
        proof {
            lemma_decoded(d@);
        }
        match fix_panic_data(d)? {
            None => Ok(None),
            Some((version, data)) => {
                let number: u8 = version.number();
                if number == 1 {
                    Ok(Some(PanicData::from_v1(version, data)?))
                } else if number == 2 {
                    Ok(Some(PanicData::from_v2(version, data)?))
                } else {
                    Err(DecodeError::UnsupportedVersion(number))
                }
            },
        }
    }
}

/// The frames of a stack stand in the order of the items: the stack of a
/// list of items is the stack of any first part of the list, followed by the
/// stack of the rest.  A malformed stack item in either part leaves no stack.
pub proof fn lemma_v2_stack_keeps_order(a: Seq<ItemView>, b: Seq<ItemView>)
    ensures
        v2_stack(a + b) == match (v2_stack(a), v2_stack(b)) {
            (Some(first), Some(rest)) => Some(first + rest),
            _ => None,
        },
    decreases a.len(),
{
    if a.len() == 0 {
        assert(a + b =~= b);
        if v2_stack(b) is Some {
            assert(Seq::<StackFrameView>::empty() + v2_stack(b)->Some_0 =~= v2_stack(b)->Some_0);
        }
    } else {
        assert((a + b).first() == a.first());
        assert((a + b).drop_first() =~= a.drop_first() + b);
        lemma_v2_stack_keeps_order(a.drop_first(), b);
        if v2_stack(a) is Some && v2_stack(b) is Some {
            let head = v2_stack(a.drop_first())->Some_0;
            let tail = v2_stack(b)->Some_0;
            assert((seq![v2_frame(a.first().data)] + head) + tail =~= seq![
                v2_frame(a.first().data),
            ] + (head + tail));
        }
    }
}

/// A list of one item has one frame where the item is a well-formed stack
/// item, and none where it is of another kind.
pub proof fn lemma_v2_stack_of_one(item: ItemView)
    ensures
        v2_stack(seq![item]) == if is_malformed_stack_item(item) {
            None
        } else if item.ftype == IpccPanicItemType::StackEntry {
            Some(seq![v2_frame(item.data)])
        } else {
            Some(Seq::<StackFrameView>::empty())
        },
{
    assert(seq![item].drop_first() =~= Seq::<ItemView>::empty());
    assert(seq![item].first() == item);
    assert(v2_stack(Seq::<ItemView>::empty()) == Some(Seq::<StackFrameView>::empty()));
    assert(seq![v2_frame(item.data)] + Seq::<StackFrameView>::empty() =~= seq![
        v2_frame(item.data),
    ]);
}

/// The stack frame that a slot of a version 1 record stands for.
pub open spec fn v1_slot_frame(slot: IpccPanicStackV1) -> StackFrameView {
    StackFrameView {
        address: slot.ips_addr,
        symbol: padded_text(slot.ips_symbol@),
        offset: slot.ips_offset,
    }
}

/// Decoding gives back what was written.  The wire form of a version 1
/// record whose message is valid UTF-8 decodes to a record that holds each
/// field of it: the cause of its code, the numbers as they are, the text of
/// the message, and a frame for each slot in use, in the order of the slots.
/// The record has neither times nor registers.
pub proof fn lemma_v1_round_trip(version: PanicDataVersion, p: IpccPanicDataV1)
    requires
        p.wf(),
        valid_utf8(p.ipd_message@),
    ensures
        decoded_v1(version, p.wire()) is Ok,
        ({
            let rec = decoded_v1(version, p.wire())->Ok_0;
            &&& rec.version == version
            &&& rec.cause == PanicCause::of_code(p.ipd_cause)
            &&& rec.error_code == p.ipd_error
            &&& rec.cpuid == Cpuid(p.ipd_cpuid)
            &&& rec.hrtime is None
            &&& rec.time is None
            &&& rec.thread == Addr(p.ipd_thread)
            &&& rec.addr == Addr(p.ipd_addr)
            &&& rec.pc == Addr(p.ipd_pc)
            &&& rec.fp == Addr(p.ipd_fp)
            &&& rec.rp == Addr(p.ipd_rp)
            &&& rec.message == padded_text(p.ipd_message@)
            &&& rec.registers is None
            &&& rec.stack.len() == if p.ipd_stackidx < IPCC_PANIC_V1_STACKS {
                p.ipd_stackidx as int
            } else {
                IPCC_PANIC_V1_STACKS as int
            }
            &&& forall|i: int|
                0 <= i < rec.stack.len() ==> rec.stack[i] == v1_slot_frame(
                    #[trigger] p.ipd_stack@[i],
                )
        }),
{
    let w = p.wire();
    p.lemma_wire_round_trip(Seq::empty());
    assert(w + Seq::<u8>::empty() =~= w);
    let rec = decoded_v1(version, w)->Ok_0;
    assert forall|i: int| 0 <= i < rec.stack.len() implies rec.stack[i] == v1_slot_frame(
        #[trigger] p.ipd_stack@[i],
    ) by {
        assert(p.ipd_stack@[i].is_slot(w, i));
    }
}

/// Decoding gives back what was written.  The wire form of a version 2
/// record that has at most one message item, no malformed stack item and a
/// time whose nanoseconds fit in 32 bits decodes to a record that holds each
/// field of it: the cause of its code, the numbers and times as they are,
/// the text of the message item, a frame for each stack item in the order of
/// the items, and, unless the cause is an explicit call, the registers of
/// the dump in the reported order.
pub proof fn lemma_v2_round_trip(version: PanicDataVersion, p: IpccPanicDataV2)
    requires
        p.wf(),
        v2_message(item_views(p.items@)) is Ok,
        v2_stack(item_views(p.items@)) is Some,
        p.hrestime.tv_nsec <= u32::MAX,
    ensures
        decoded_v2(version, p.wire()) is Ok,
        ({
            let rec = decoded_v2(version, p.wire())->Ok_0;
            &&& rec.version == version
            &&& rec.cause == PanicCause::of_code(p.cause)
            &&& rec.error_code == p.error
            &&& rec.cpuid == Cpuid(p.cpuid)
            &&& rec.hrtime == Some(MonotonicNanoseconds(p.hrtime))
            &&& rec.time == Some(
                AdjustedTime { sec: p.hrestime.tv_sec, nsec: p.hrestime.tv_nsec as u32 },
            )
            &&& rec.thread == Addr(p.thread)
            &&& rec.addr == Addr(p.addr)
            &&& rec.pc == Addr(p.pc)
            &&& rec.fp == Addr(p.fp)
            &&& rec.rp == Addr(p.rp)
            &&& rec.message == v2_message(item_views(p.items@))->Ok_0
            &&& rec.registers == if PanicCause::of_code(p.cause) == PanicCause::Call {
                None
            } else {
                Some(canonical_registers(p.registers@))
            }
            &&& rec.stack == v2_stack(item_views(p.items@))->Some_0
        }),
{
    let w = p.wire();
    p.lemma_wire_round_trip(Seq::empty());
    assert(w + Seq::<u8>::empty() =~= w);
}

} // verus!

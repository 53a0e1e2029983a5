//! The value types that make up a decoded panic record.

use vstd::prelude::*;
use vstd::std_specs::convert::FromSpecImpl;

verus! {

/// The version of the panic data, and whether it was read from the data
/// directly or had to be inferred because the leading bytes were lost.
#[derive(Debug, Clone, Copy, PartialEq, Eq, Structural)]
pub enum PanicDataVersion {
    /// Version was determined
    Determined(u8),
    /// Version had to be inferred
    Inferred(u8),
}

impl PanicDataVersion {
    /// The version number, whatever its provenance.
    pub open spec fn spec_number(&self) -> u8 {
        match *self {
            PanicDataVersion::Determined(v) => v,
            PanicDataVersion::Inferred(v) => v,
        }
    }

    /// The version number, whatever its provenance.
    #[verifier::when_used_as_spec(spec_number)]
    pub fn number(&self) -> (n: u8)
        ensures
            n == self.spec_number(),
    {
        match self {
            PanicDataVersion::Determined(v) => *v,
            PanicDataVersion::Inferred(v) => *v,
        }
    }
}

/// A host CPU identifier
#[derive(Debug, Clone, Copy, PartialEq, Eq, Structural)]
pub struct Cpuid(pub u32);

/// A host CPU memory address
#[derive(Debug, Clone, Copy, PartialEq, Eq, Structural)]
pub struct Addr(pub u64);

/// Host time, in adjusted time: seconds and nanoseconds since the Epoch.
#[derive(Debug, Clone, Copy, PartialEq, Eq, Structural)]
pub struct AdjustedTime {
    pub sec: u64,
    pub nsec: u32,
}

/// Host time, in monotonically increasing nanoseconds.
#[derive(Debug, Clone, Copy, PartialEq, Eq, Structural)]
pub struct MonotonicNanoseconds(pub u64);

/// A stack frame: the program text address of the caller, also expressed as
/// a symbol and an offset from it where the symbol is known.
#[derive(Debug, PartialEq, Eq)]
pub struct StackFrame {
    /// Address of caller
    pub address: Addr,
    /// Symbol of caller, if known
    pub symbol: Option<String>,
    /// Offset from symbol
    pub offset: u64,
}

/// The mathematical value of a [`StackFrame`].
pub struct StackFrameView {
    pub address: u64,
    pub symbol: Option<Seq<char>>,
    pub offset: u64,
}

impl View for StackFrame {
    type V = StackFrameView;

    open spec fn view(&self) -> StackFrameView {
        StackFrameView {
            address: self.address.0,
            symbol: match self.symbol {
                Some(s) => Some(s@),
                None => None,
            },
            offset: self.offset,
        }
    }
}

/// A host register (presuming an AMD64 host).
#[derive(Debug, Clone, Copy, Hash, PartialEq, Eq, Structural)]
#[allow(non_camel_case_types)]
pub enum Register {
    rdi,
    rsi,
    rdx,
    rcx,
    r8,
    r9,
    rax,
    rbx,
    rbp,
    r10,
    r11,
    r12,
    r13,
    r14,
    r15,
    fsbase,
    gsbase,
    ds,
    es,
    fs,
    gs,
    trapno,
    err,
    rip,
    cs,
    rfl,
    rsp,
    ss,
}

/// The cause of a panic.
#[derive(Debug, Clone, Copy, PartialEq, Eq, Structural)]
pub enum PanicCause {
    /// Explicit call to panic
    Call,
    /// Panic due to a trap
    Trap,
    /// Panic due to a user trap
    UserTrap,
    /// Panic very early in boot
    EarlyBoot,
    /// Panic early in boot due to call to prom_panic()
    EarlyBootPROM,
    /// Panic early in boot due to unexpected trap
    EarlyBootTrap,
    /// Panic early in boot due to unknown cause because of missing LSB
    EarlyBootUnknown,
    /// Corrupt or otherwise unrecognized cause
    Unknown(u16),
}

impl PanicCause {
    /// The cause that a raw 16-bit code stands for.  Every code has one: a
    /// code outside the table is kept in [`PanicCause::Unknown`].
    pub open spec fn of_code(code: u16) -> PanicCause {
        if code == 0xca11 {
            PanicCause::Call
        } else if code == 0xa900 {
            PanicCause::Trap
        } else if code == 0x5e00 {
            PanicCause::UserTrap
        } else if code == 0xeb00 {
            PanicCause::EarlyBoot
        } else if code == 0xeb97 {
            PanicCause::EarlyBootPROM
        } else if code == 0xeba9 {
            PanicCause::EarlyBootTrap
        } else if code == 0xebff {
            PanicCause::EarlyBootUnknown
        } else {
            PanicCause::Unknown(code)
        }
    }
}

impl PanicCause {
    /// The raw 16-bit code of the cause.
    pub open spec fn code(self) -> u16 {
        match self {
            PanicCause::Call => 0xca11,
            PanicCause::Trap => 0xa900,
            PanicCause::UserTrap => 0x5e00,
            PanicCause::EarlyBoot => 0xeb00,
            PanicCause::EarlyBootPROM => 0xeb97,
            PanicCause::EarlyBootTrap => 0xeba9,
            PanicCause::EarlyBootUnknown => 0xebff,
            PanicCause::Unknown(c) => c,
        }
    }

    /// An unknown cause holds a code that no known cause has.
    pub open spec fn wf(self) -> bool {
        self matches PanicCause::Unknown(c) ==> PanicCause::of_code(c) == self
    }

    /// No code is lost: the cause of a code has that code, and a cause is
    /// the cause of its code.
    pub proof fn lemma_code_round_trip(self, code: u16)
        ensures
            PanicCause::of_code(code).code() == code,
            PanicCause::of_code(code).wf(),
            self.wf() ==> PanicCause::of_code(self.code()) == self,
    {
    }
}

impl From<u16> for PanicCause {
    fn from(cause: u16) -> (ret: Self) {
        match cause {
            0xca11 => PanicCause::Call,
            0xa900 => PanicCause::Trap,
            0x5e00 => PanicCause::UserTrap,
            0xeb00 => PanicCause::EarlyBoot,
            0xeb97 => PanicCause::EarlyBootPROM,
            0xeba9 => PanicCause::EarlyBootTrap,
            0xebff => PanicCause::EarlyBootUnknown,
            c => PanicCause::Unknown(c),
        }
    }
}

impl FromSpecImpl<u16> for PanicCause {
    open spec fn obeys_from_spec() -> bool {
        true
    }

    open spec fn from_spec(cause: u16) -> PanicCause {
        PanicCause::of_code(cause)
    }
}

/// Why a buffer could not be decoded.  Each failure ends the whole decode:
/// there is no partial record.
#[derive(Debug, Clone, Copy, PartialEq, Eq, Structural)]
pub enum DecodeError {
    /// The first byte is no version number, and no cause is known that has
    /// it as its high byte.  Carries that byte.
    UnrecoverableCauseByte(u8),
    /// The version number, carried here, is neither 1 nor 2.
    UnsupportedVersion(u8),
    /// The buffer ends before the layout does.
    TruncatedInput,
    /// The fixed message field of a version 1 record is not valid UTF-8.
    InvalidMessageEncoding,
    /// A version 2 record holds more than one message item.
    MultipleMessageItems,
    /// The nanoseconds of the wall-clock time, carried here, do not fit in
    /// 32 bits.
    TimestampOverflow(u64),
    /// A stack item is too short for its address and offset.
    MalformedStackItem,
}

/// The outcome is the failure `e`.
pub open spec fn fails_with<T>(r: Result<T, DecodeError>, e: DecodeError) -> bool {
    r is Err && r->Err_0 == e
}

} // verus!

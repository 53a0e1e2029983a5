//! Decoding of host panic records that a service processor relays over the
//! inter-processor communications channel.
//!
//! A record arrives as one opaque buffer.  Two wire layouts exist, and older
//! firmware drops the first two bytes of the first layout, so decoding runs in
//! three steps: repair of the buffer and detection of the layout
//! ([`fix_panic_data`]), the layout's own parser, and the assembly of one
//! [`PanicData`] value.  Every function states its result over the bytes that
//! it was given.

pub mod boot;
pub mod display;
pub mod fixup;
pub mod panic_data;
pub mod registers;
pub mod text;
pub mod types;
pub mod v1;
pub mod v2;
pub mod wire;

pub use types::{
    Addr, AdjustedTime, Cpuid, DecodeError, MonotonicNanoseconds, PanicCause, PanicDataVersion,
    Register, StackFrame, StackFrameView,
};
pub use panic_data::{PanicData, PanicDataView};
pub use fixup::fix_panic_data;
pub use boot::BootSpHeader;

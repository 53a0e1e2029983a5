//! The text forms of the values of a record.

use crate::types::{PanicCause, PanicDataVersion, StackFrame, StackFrameView};
use vstd::prelude::*;
use vstd::string::StringExecFns;

verus! {

/// The character of a hexadecimal digit, in lower case.
pub open spec fn hex_digit(d: int) -> char {
    if d == 0 {
        '0'
    } else if d == 1 {
        '1'
    } else if d == 2 {
        '2'
    } else if d == 3 {
        '3'
    } else if d == 4 {
        '4'
    } else if d == 5 {
        '5'
    } else if d == 6 {
        '6'
    } else if d == 7 {
        '7'
    } else if d == 8 {
        '8'
    } else if d == 9 {
        '9'
    } else if d == 10 {
        'a'
    } else if d == 11 {
        'b'
    } else if d == 12 {
        'c'
    } else if d == 13 {
        'd'
    } else if d == 14 {
        'e'
    } else {
        'f'
    }
}

/// The hexadecimal digits of a number, without leading zeros.
pub open spec fn hex_text(v: nat) -> Seq<char>
    decreases v,
{
    if v < 16 {
        seq![hex_digit(v as int)]
    } else {
        hex_text(v / 16).push(hex_digit((v % 16) as int))
    }
}

/// The decimal digits of a number, without leading zeros.
pub open spec fn decimal_text(v: nat) -> Seq<char>
    decreases v,
{
    if v < 10 {
        seq![hex_digit(v as int)]
    } else {
        decimal_text(v / 10).push(hex_digit((v % 10) as int))
    }
}

/// The four hexadecimal digits of a 16-bit number, with leading zeros.
pub open spec fn hex_text_u16(v: u16) -> Seq<char> {
    seq![
        hex_digit(v as int / 0x1000),
        hex_digit(v as int / 0x100 % 16),
        hex_digit(v as int / 0x10 % 16),
        hex_digit(v as int % 16),
    ]
}

/// One hexadecimal digit as a string.
fn digit_str(d: u64) -> (r: &'static str)
    requires
        d < 16,
    ensures
        r@ == seq![hex_digit(d as int)],
{
    proof {
        reveal_strlit("0");
        reveal_strlit("1");
        reveal_strlit("2");
        reveal_strlit("3");
        reveal_strlit("4");
        reveal_strlit("5");
        reveal_strlit("6");
        reveal_strlit("7");
        reveal_strlit("8");
        reveal_strlit("9");
        reveal_strlit("a");
        reveal_strlit("b");
        reveal_strlit("c");
        reveal_strlit("d");
        reveal_strlit("e");
        reveal_strlit("f");
    }
    let r = match d {
        0 => "0",
        1 => "1",
        2 => "2",
        3 => "3",
        4 => "4",
        5 => "5",
        6 => "6",
        7 => "7",
        8 => "8",
        9 => "9",
        10 => "a",
        11 => "b",
        12 => "c",
        13 => "d",
        14 => "e",
        _ => "f",
    };
    assert(r@ =~= seq![hex_digit(d as int)]);
    r
}

/// The hexadecimal digits of a number, without leading zeros.
pub fn hex_string(v: u64) -> (r: String)
    ensures
        r@ == hex_text(v as nat),
    decreases v,
{
    if v < 16 {
        String::from_str(digit_str(v))
    } else {
        let mut r = hex_string(v / 16);
        r.append(digit_str(v % 16));
        assert(r@ =~= hex_text(v as nat));
        r
    }
}

/// The decimal digits of a number, without leading zeros.
pub fn decimal_string(v: u64) -> (r: String)
    ensures
        r@ == decimal_text(v as nat),
    decreases v,
{
    if v < 10 {
        String::from_str(digit_str(v))
    } else {
        let mut r = decimal_string(v / 10);
        r.append(digit_str(v % 10));
        assert(r@ =~= decimal_text(v as nat));
        r
    }
}

impl PanicDataVersion {
    /// The text form of the version: the number, and in brackets whether it
    /// was determined or inferred.
    pub open spec fn text(&self) -> Seq<char> {
        match *self {
            PanicDataVersion::Determined(v) => decimal_text(v as nat) + " (determined)"@,
            PanicDataVersion::Inferred(v) => decimal_text(v as nat) + " (inferred)"@,
        }
    }

    /// The text form of the version.
    pub fn to_string(&self) -> (r: String)
        ensures
            r@ == self.text(),
    {
        match self {
            PanicDataVersion::Determined(v) => {
                let mut r = decimal_string(*v as u64);
                r.append(" (determined)");
                r
            },
            PanicDataVersion::Inferred(v) => {
                let mut r = decimal_string(*v as u64);
                r.append(" (inferred)");
                r
            },
        }
    }
}

impl StackFrameView {
    /// The text form of a frame: the symbol and the offset from it, or the
    /// address where the symbol is not known.  Numbers are hexadecimal.
    pub open spec fn text(self) -> Seq<char> {
        match self.symbol {
            Some(symbol) => symbol + "+0x"@ + hex_text(self.offset as nat),
            None => "0x"@ + hex_text(self.address as nat),
        }
    }
}

impl StackFrame {
    /// The text form of the frame.
    pub fn to_string(&self) -> (r: String)
        ensures
            r@ == self@.text(),
    {
        match &self.symbol {
            Some(symbol) => {
                let mut r = String::from_str(symbol.as_str());
                r.append("+0x");
                r.append(hex_string(self.offset).as_str());
                r
            },
            None => {
                let mut r = String::from_str("0x");
                r.append(hex_string(self.address.0).as_str());
                r
            },
        }
    }
}

impl PanicCause {
    /// The text form of the cause: the name that the host has for it, or a
    /// note of the code where the cause is not known.
    pub open spec fn text(&self) -> Seq<char> {
        match *self {
            PanicCause::Call => "IPCC_PANIC_CALL"@,
            PanicCause::Trap => "IPCC_PANIC_TRAP"@,
            PanicCause::UserTrap => "IPCC_PANIC_USERTRAP"@,
            PanicCause::EarlyBoot => "IPCC_PANIC_EARLYBOOT"@,
            PanicCause::EarlyBootPROM => "IPCC_PANIC_EARLYBOOT_PROM"@,
            PanicCause::EarlyBootTrap => "IPCC_PANIC_EARLYBOOT_TRAP"@,
            PanicCause::EarlyBootUnknown => "IPCC_PANIC_EARLYBOOT_*"@,
            PanicCause::Unknown(c) => "<Unknown cause 0x"@ + hex_text_u16(c) + ">"@,
        }
    }

    /// The text form of the cause.
    pub fn to_string(&self) -> (r: String)
        ensures
            r@ == self.text(),
    {
        match self {
            PanicCause::Call => String::from_str("IPCC_PANIC_CALL"),
            PanicCause::Trap => String::from_str("IPCC_PANIC_TRAP"),
            PanicCause::UserTrap => String::from_str("IPCC_PANIC_USERTRAP"),
            PanicCause::EarlyBoot => String::from_str("IPCC_PANIC_EARLYBOOT"),
            PanicCause::EarlyBootPROM => String::from_str("IPCC_PANIC_EARLYBOOT_PROM"),
            PanicCause::EarlyBootTrap => String::from_str("IPCC_PANIC_EARLYBOOT_TRAP"),
            PanicCause::EarlyBootUnknown => String::from_str("IPCC_PANIC_EARLYBOOT_*"),
            PanicCause::Unknown(c) => {
                let c: u64 = *c as u64;
                let mut r = String::from_str("<Unknown cause 0x");
                r.append(digit_str(c / 0x1000));
                r.append(digit_str(c / 0x100 % 16));
                r.append(digit_str(c / 0x10 % 16));
                r.append(digit_str(c % 16));
                r.append(">");
                assert(r@ =~= self.text());
                r
            },
        }
    }
}

} // verus!

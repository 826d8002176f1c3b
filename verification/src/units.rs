//! Human-readable byte sizes.
//!
//! A byte count is shown as a value in the largest binary unit it reaches.
//! The value is handed out in tenths of that unit, so the shell can print
//! one decimal place without any floating-point work in the library.

use vstd::prelude::*;

verus! {

/// One kibibyte.
pub const KB: u64 = 1024;

/// One mebibyte.
pub const MB: u64 = 1048576;

/// One gibibyte.
pub const GB: u64 = 1073741824;

/// One tebibyte.
pub const TB: u64 = 1099511627776;

/// The unit a byte count is displayed in.
#[derive(Clone, Copy, PartialEq, Eq, Structural, Debug)]
pub enum ByteUnit {
    /// Bytes.
    B,
    /// Kibibytes.
    KiB,
    /// Mebibytes.
    MiB,
    /// Gibibytes.
    GiB,
    /// Tebibytes.
    TiB,
}

/// The displayed value, in tenths of the chosen unit.
pub open spec fn byte_tenths_spec(bytes: u64) -> int {
    if bytes >= TB {
        bytes * 10 / (TB as int)
    } else if bytes >= GB {
        bytes * 10 / (GB as int)
    } else if bytes >= MB {
        bytes * 10 / (MB as int)
    } else if bytes >= KB {
        bytes * 10 / (KB as int)
    } else {
        bytes * 10
    }
}

/// The unit a byte count reaches.
pub open spec fn byte_unit_spec(bytes: u64) -> ByteUnit {
    if bytes >= TB {
        ByteUnit::TiB
    } else if bytes >= GB {
        ByteUnit::GiB
    } else if bytes >= MB {
        ByteUnit::MiB
    } else if bytes >= KB {
        ByteUnit::KiB
    } else {
        ByteUnit::B
    }
}

/// Reduce a byte count to tenths of its display unit.
pub fn format_bytes(bytes: u64) -> (r: (u64, ByteUnit))
    ensures
        r.0 == byte_tenths_spec(bytes),
        r.1 == byte_unit_spec(bytes),
{
    let scaled: u128 = (bytes as u128) * 10;
    if bytes >= TB {
        ((scaled / (TB as u128)) as u64, ByteUnit::TiB)
    } else if bytes >= GB {
        ((scaled / (GB as u128)) as u64, ByteUnit::GiB)
    } else if bytes >= MB {
        ((scaled / (MB as u128)) as u64, ByteUnit::MiB)
    } else if bytes >= KB {
        ((scaled / (KB as u128)) as u64, ByteUnit::KiB)
    } else {
        (bytes * 10, ByteUnit::B)
    }
}

} // verus!

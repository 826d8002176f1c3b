//! GPU telemetry: the probed snapshot and the provider-selection rules.
//!
//! The poll loop queries either the vendor-specific management library or
//! the generic platform instrumentation; this module holds the snapshot
//! type, decides which enumerated adapter counts (software renderers are
//! placeholders, not GPUs), parses the bus identity out of a device path,
//! and folds fresh readings into the smoothed display values.  A field that
//! the active provider cannot measure stays `None`, never a fabricated
//! zero.

use crate::smoothing::{smoothed_step, SmoothedValue};
use crate::telemetry::{ratio_spec, scaled_ratio, RATIO_SCALE};
use crate::text::{
    contains_bytes,
    find_first,
    first_occurrence,
    lower_seq,
    seq_contains,
    seq_starts_with,
    starts_with_bytes,
    to_lower,
};
use vstd::prelude::*;
use vstd::string::StringSliceAdditionalSpecFns;

verus! {

/// The probed state of the active GPU.
pub struct GpuInfo {
    /// Adapter model name.
    pub name: Vec<u8>,
    /// Total video memory in bytes, where measured.
    pub memory_total: Option<u64>,
    /// Used video memory in bytes, where measured.
    pub memory_used: Option<u64>,
    /// Utilization in percent, where measured.
    pub utilization: Option<u32>,
    /// Temperature in degrees Celsius, where measured.
    pub temperature: Option<u32>,
    /// Smoothed video-memory usage on the display scale.
    pub memory_usage: SmoothedValue,
    /// Smoothed utilization on the display scale.
    pub gpu_usage: SmoothedValue,
    /// Bus identity, where known.
    pub pci_bus_id: Option<Vec<u8>>,
    /// Driver version, where known.
    pub driver_version: Option<Vec<u8>>,
}

impl GpuInfo {
    /// A snapshot that knows only the adapter's name: nothing measured yet,
    /// displays at rest at zero.
    pub fn new(name: Vec<u8>) -> (r: GpuInfo)
        ensures
            r.name == name,
            r.memory_total is None,
            r.memory_used is None,
            r.utilization is None,
            r.temperature is None,
            r.memory_usage.current == 0 && r.memory_usage.target == 0,
            r.gpu_usage.current == 0 && r.gpu_usage.target == 0,
            r.pci_bus_id is None,
            r.driver_version is None,
    {
        GpuInfo {
            name,
            memory_total: Option::None,
            memory_used: Option::None,
            utilization: Option::None,
            temperature: Option::None,
            memory_usage: SmoothedValue::new(0),
            gpu_usage: SmoothedValue::new(0),
            pci_bus_id: Option::None,
            driver_version: Option::None,
        }
    }

    /// Advance both smoothed displays by `dt_ms` elapsed milliseconds.
    pub fn tick(&mut self, dt_ms: u64)
        ensures
            final(self).memory_usage.target == old(self).memory_usage.target,
            final(self).memory_usage.current == smoothed_step(
                old(self).memory_usage.current,
                old(self).memory_usage.target,
                dt_ms as nat,
            ),
            final(self).gpu_usage.target == old(self).gpu_usage.target,
            final(self).gpu_usage.current == smoothed_step(
                old(self).gpu_usage.current,
                old(self).gpu_usage.target,
                dt_ms as nat,
            ),
            final(self).name == old(self).name,
            final(self).memory_total == old(self).memory_total,
            final(self).memory_used == old(self).memory_used,
            final(self).utilization == old(self).utilization,
            final(self).temperature == old(self).temperature,
            final(self).pci_bus_id == old(self).pci_bus_id,
            final(self).driver_version == old(self).driver_version,
    {
        self.memory_usage.update(dt_ms);
        self.gpu_usage.update(dt_ms);
    }

    /// Fold in a video-memory reading: both sizes are recorded and the
    /// smoothed memory display aims at used-over-total.
    pub fn apply_memory_reading(&mut self, total: u64, used: u64)
        ensures
            final(self).memory_total == Option::Some(total),
            final(self).memory_used == Option::Some(used),
            final(self).memory_usage.target == ratio_spec(
                if used <= total {
                    used
                } else {
                    total
                },
                total,
            ),
            final(self).memory_usage.current == old(self).memory_usage.current,
            final(self).gpu_usage == old(self).gpu_usage,
            final(self).name == old(self).name,
            final(self).utilization == old(self).utilization,
            final(self).temperature == old(self).temperature,
            final(self).pci_bus_id == old(self).pci_bus_id,
            final(self).driver_version == old(self).driver_version,
    {
        self.memory_total = Option::Some(total);
        self.memory_used = Option::Some(used);
        let capped = if used <= total {
            used
        } else {
            total
        };
        let t = scaled_ratio(capped, total);
        self.memory_usage.set_target(t);
    }

    /// Fold in a temperature reading.
    pub fn apply_temperature(&mut self, celsius: u32)
        ensures
            final(self).temperature == Option::Some(celsius),
            final(self).name == old(self).name,
            final(self).memory_total == old(self).memory_total,
            final(self).memory_used == old(self).memory_used,
            final(self).utilization == old(self).utilization,
            final(self).memory_usage == old(self).memory_usage,
            final(self).gpu_usage == old(self).gpu_usage,
            final(self).pci_bus_id == old(self).pci_bus_id,
            final(self).driver_version == old(self).driver_version,
    {
        self.temperature = Option::Some(celsius);
    }

    /// Fold in a utilization reading, clamped to full scale.
    pub fn apply_utilization(&mut self, util: u32)
        ensures
            final(self).utilization == Option::Some(util),
            final(self).gpu_usage.target == (if util <= 100 {
                util * 100
            } else {
                10000int
            }),
            final(self).gpu_usage.current == old(self).gpu_usage.current,
            final(self).memory_usage == old(self).memory_usage,
            final(self).name == old(self).name,
            final(self).memory_total == old(self).memory_total,
            final(self).memory_used == old(self).memory_used,
            final(self).temperature == old(self).temperature,
            final(self).pci_bus_id == old(self).pci_bus_id,
            final(self).driver_version == old(self).driver_version,
    {
        self.utilization = Option::Some(util);
        let t: u64 = if util <= 100 {
            (util as u64) * 100
        } else {
            RATIO_SCALE
        };
        self.gpu_usage.set_target(t);
    }
}

/// A placeholder adapter: the software renderer the platform enumerates
/// when no real display device answers.
pub open spec fn placeholder_adapter_spec(name: Seq<u8>) -> bool {
    seq_contains(lower_seq(name), "microsoft basic display".spec_bytes())
}

/// Classify an enumerated adapter by name.
pub fn is_placeholder_adapter(name: &[u8]) -> (r: bool)
    ensures
        r == placeholder_adapter_spec(name@),
{
    let l = to_lower(name);
    contains_bytes(l.as_slice(), "microsoft basic display".as_bytes())
}

/// The hexadecimal digit for one value below sixteen, lower case.
pub open spec fn hex_digit(n: int) -> u8 {
    if n < 10 {
        (48 + if n >= 0 {
            n
        } else {
            0
        }) as u8
    } else {
        (87 + n) as u8
    }
}

/// Hexadecimal digits of `n`, most significant first.
pub open spec fn hex_rep(n: int) -> Seq<u8>
    decreases n,
{
    if n < 16 {
        seq![hex_digit(n)]
    } else {
        hex_rep(n / 16).push(hex_digit(n % 16))
    }
}

/// `s` left-padded with zero digits up to width `w`.
pub open spec fn zero_pad(s: Seq<u8>, w: int) -> Seq<u8> {
    if s.len() >= w {
        s
    } else {
        Seq::new((w - s.len()) as nat, |i: int| 48u8) + s
    }
}

/// Append the hexadecimal digits of `n`.
fn push_hex(out: &mut Vec<u8>, n: u64)
    ensures
        final(out)@ == old(out)@ + hex_rep(n as int),
    decreases n,
{
    if n < 16 {
        let d: u8 = if n < 10 {
            48 + n as u8
        } else {
            87 + n as u8
        };
        out.push(d);
        proof {
            assert(out@ =~= old(out)@ + hex_rep(n as int));
        }
    } else {
        push_hex(out, n / 16);
        let m = n % 16;
        let d: u8 = if m < 10 {
            48 + m as u8
        } else {
            87 + m as u8
        };
        out.push(d);
        proof {
            assert(out@ =~= old(out)@ + hex_rep(n as int));
        }
    }
}

/// Append the hexadecimal digits of `n`, zero-padded to at least `width`.
fn push_hex_padded(out: &mut Vec<u8>, n: u64, width: usize)
    ensures
        final(out)@ == old(out)@ + zero_pad(hex_rep(n as int), width as int),
{
    let mut digits: Vec<u8> = Vec::new();
    push_hex(&mut digits, n);
    let mut j: usize = 0;
    let pad: usize = if digits.len() < width {
        width - digits.len()
    } else {
        0
    };
    while j < pad
        invariant
            j <= pad,
            out@ == old(out)@ + Seq::new(j as nat, |i: int| 48u8),
        decreases pad - j,
    {
        out.push(48);
        proof {
            assert(out@ =~= old(out)@ + Seq::new((j + 1) as nat, |i: int| 48u8));
        }
        j = j + 1;
    }
    out.extend_from_slice(digits.as_slice());
    proof {
        assert(out@ =~= old(out)@ + zero_pad(hex_rep(n as int), width as int));
    }
}

/// The bus label reported for a vendor-managed device: domain, bus and
/// device in fixed-width hexadecimal.
pub open spec fn vendor_bus_label_spec(domain: u32, bus: u32, device: u32) -> Seq<u8> {
    zero_pad(hex_rep(domain as int), 4) + ":".spec_bytes() + zero_pad(hex_rep(bus as int), 2)
        + ":".spec_bytes() + zero_pad(hex_rep(device as int), 2) + ".0".spec_bytes()
}

/// Render the bus label of a vendor-managed device.
pub fn vendor_bus_label(domain: u32, bus: u32, device: u32) -> (r: Vec<u8>)
    ensures
        r@ == vendor_bus_label_spec(domain, bus, device),
{
    let mut r: Vec<u8> = Vec::new();
    push_hex_padded(&mut r, domain as u64, 4);
    r.extend_from_slice(":".as_bytes());
    push_hex_padded(&mut r, bus as u64, 2);
    r.extend_from_slice(":".as_bytes());
    push_hex_padded(&mut r, device as u64, 2);
    r.extend_from_slice(".0".as_bytes());
    proof {
        assert(r@ =~= vendor_bus_label_spec(domain, bus, device));
    }
    r
}

/// A device path that can yield a bus label: it is a PCI path and declares
/// four-character vendor and device codes.
pub open spec fn pci_parseable(id: Seq<u8>) -> bool {
    &&& seq_starts_with(id, "PCI\\".spec_bytes())
    &&& exists|vi: int| first_occurrence(id, "VEN_".spec_bytes(), vi) && vi + 8 <= id.len()
    &&& exists|di: int| first_occurrence(id, "DEV_".spec_bytes(), di) && di + 8 <= id.len()
}

/// The bus label extracted from a parseable device path, given the offsets
/// of the vendor and device tokens.
pub open spec fn pci_label_spec(id: Seq<u8>, vi: int, di: int) -> Seq<u8> {
    "0000:00:00.0 [".spec_bytes() + id.subrange(vi + 4, vi + 8) + ":".spec_bytes() + id.subrange(
        di + 4,
        di + 8,
    ) + "]".spec_bytes()
}

/// Extract a bus label from an enumerated adapter's device path: the
/// four characters after the first vendor token and the four after the
/// first device token, on a PCI path that is long enough for both.
pub fn pci_label_from_device_id(id: &[u8]) -> (r: Option<Vec<u8>>)
    ensures
        r is Some <==> pci_parseable(id@),
        match r {
            Option::Some(l) => forall|vi: int, di: int|
                first_occurrence(id@, "VEN_".spec_bytes(), vi) && first_occurrence(
                    id@,
                    "DEV_".spec_bytes(),
                    di,
                ) ==> l@ == pci_label_spec(id@, vi, di),
            Option::None => true,
        },
{
    if !starts_with_bytes(id, "PCI\\".as_bytes()) {
        return Option::None;
    }
    let vi = match find_first(id, "VEN_".as_bytes()) {
        Option::Some(vi) => vi,
        Option::None => {
            return Option::None;
        },
    };
    let di = match find_first(id, "DEV_".as_bytes()) {
        Option::Some(di) => di,
        Option::None => {
            return Option::None;
        },
    };
    if id.len() < 8 || vi > id.len() - 8 || di > id.len() - 8 {
        proof {
            assert forall|i: int|
                first_occurrence(id@, "VEN_".spec_bytes(), i) implies i == vi as int by {}
            assert forall|i: int|
                first_occurrence(id@, "DEV_".spec_bytes(), i) implies i == di as int by {}
        }
        return Option::None;
    }
    let mut l = vstd::slice::slice_to_vec("0000:00:00.0 [".as_bytes());
    let vendor = vstd::slice::slice_subrange(id, vi + 4, vi + 8);
    l.extend_from_slice(vendor);
    l.extend_from_slice(":".as_bytes());
    let device = vstd::slice::slice_subrange(id, di + 4, di + 8);
    l.extend_from_slice(device);
    l.extend_from_slice("]".as_bytes());
    proof {
        assert forall|i: int|
            first_occurrence(id@, "VEN_".spec_bytes(), i) implies i == vi as int by {}
        assert forall|i: int|
            first_occurrence(id@, "DEV_".spec_bytes(), i) implies i == di as int by {}
        assert(l@ =~= pci_label_spec(id@, vi as int, di as int));
    }
    Option::Some(l)
}

/// Copy an optional byte string.
fn clone_opt_bytes(o: &Option<Vec<u8>>) -> (r: Option<Vec<u8>>)
    ensures
        r is Some <==> o is Some,
        match (r, o) {
            (Option::Some(rv), Option::Some(ov)) => rv@ == ov@,
            _ => true,
        },
{
    match o {
        Option::Some(v) => Option::Some(vstd::slice::slice_to_vec(v.as_slice())),
        Option::None => Option::None,
    }
}

/// A snapshot of the vendor-managed device: its name, and the bus label and
/// driver version where the management library reported them.  Memory and
/// utilization arrive later through the refresh readings.
pub fn vendor_gpu(name: Vec<u8>, pci: Option<(u32, u32, u32)>, driver: Option<Vec<u8>>) -> (r:
    GpuInfo)
    ensures
        r.name == name,
        r.memory_total is None,
        r.memory_used is None,
        r.utilization is None,
        r.temperature is None,
        r.memory_usage.current == 0 && r.memory_usage.target == 0,
        r.gpu_usage.current == 0 && r.gpu_usage.target == 0,
        match (pci, r.pci_bus_id) {
            (Option::None, Option::None) => true,
            (Option::Some(p), Option::Some(l)) => l@ == vendor_bus_label_spec(p.0, p.1, p.2),
            _ => false,
        },
        r.driver_version == driver,
{
    let mut r = GpuInfo::new(name);
    match pci {
        Option::Some(p) => {
            r.pci_bus_id = Option::Some(vendor_bus_label(p.0, p.1, p.2));
        },
        Option::None => {},
    }
    r.driver_version = driver;
    r
}

/// One adapter enumerated by the generic platform instrumentation.
pub struct GenericAdapter {
    /// Adapter model name.
    pub name: Vec<u8>,
    /// Declared adapter memory in bytes, where reported.
    pub adapter_ram: Option<u64>,
    /// Driver version, where reported.
    pub driver_version: Option<Vec<u8>>,
    /// Plug-and-play device path, where reported.
    pub device_id: Option<Vec<u8>>,
}

/// `j` is the offset of the first enumerated adapter that is a real device.
pub open spec fn first_real_adapter(adapters: Seq<GenericAdapter>, j: int) -> bool {
    0 <= j < adapters.len() && !placeholder_adapter_spec(adapters[j].name@) && forall|k: int|
        0 <= k < j ==> placeholder_adapter_spec(#[trigger] adapters[k].name@)
}

/// The bus label an adapter's device path yields: the parsed label on a
/// parseable PCI path, nothing otherwise.
pub open spec fn pci_matches(id: Seq<u8>, out: Option<Vec<u8>>) -> bool {
    if pci_parseable(id) {
        &&& out is Some
        &&& forall|vi: int, di: int|
            first_occurrence(id, "VEN_".spec_bytes(), vi) && first_occurrence(
                id,
                "DEV_".spec_bytes(),
                di,
            ) ==> match out {
                Option::Some(l) => l@ == pci_label_spec(id, vi, di),
                Option::None => false,
            }
    } else {
        out is None
    }
}

/// The snapshot built from one enumerated adapter.
pub open spec fn adapter_built(a: GenericAdapter, g: GpuInfo) -> bool {
    &&& g.name@ == a.name@
    &&& g.memory_total == a.adapter_ram
    &&& g.memory_used is None
    &&& g.utilization is None
    &&& g.temperature is None
    &&& g.memory_usage.current == 0 && g.memory_usage.target == 0
    &&& g.gpu_usage.current == 0 && g.gpu_usage.target == 0
    &&& (match (g.driver_version, a.driver_version) {
        (Option::None, Option::None) => true,
        (Option::Some(gd), Option::Some(ad)) => gd@ == ad@,
        _ => false,
    })
    &&& (match a.device_id {
        Option::None => g.pci_bus_id is None,
        Option::Some(idv) => pci_matches(idv@, g.pci_bus_id),
    })
}

/// Pick the first enumerated adapter that is a real device and build its
/// snapshot; placeholders are skipped, and an enumeration of placeholders
/// alone yields no GPU.
pub fn select_generic_adapter(adapters: &Vec<GenericAdapter>) -> (r: Option<GpuInfo>)
    ensures
        r is Some <==> exists|j: int|
            0 <= j < adapters@.len() && !placeholder_adapter_spec(
                (#[trigger] adapters@[j]).name@,
            ),
        match r {
            Option::Some(g) => forall|j: int|
                first_real_adapter(adapters@, j) ==> adapter_built(adapters@[j], g),
            Option::None => true,
        },
{
    let mut i: usize = 0;
    while i < adapters.len()
        invariant
            i <= adapters@.len(),
            forall|k: int| 0 <= k < i ==> placeholder_adapter_spec((#[trigger] adapters@[k]).name@),
        decreases adapters@.len() - i,
    {
        if !is_placeholder_adapter(adapters[i].name.as_slice()) {
            let mut g = GpuInfo::new(vstd::slice::slice_to_vec(adapters[i].name.as_slice()));
            g.memory_total = adapters[i].adapter_ram;
            g.driver_version = clone_opt_bytes(&adapters[i].driver_version);
            g.pci_bus_id = match &adapters[i].device_id {
                Option::Some(idv) => pci_label_from_device_id(idv.as_slice()),
                Option::None => Option::None,
            };
            proof {
                assert forall|j: int| first_real_adapter(adapters@, j) implies j == i as int by {}
            }
            return Option::Some(g);
        }
        i = i + 1;
    }
    Option::None
}

} // verus!

//! Telemetry sampling: scalar readings and the tracked-interface set.
//!
//! The poll loop hands this module plain readings — per-core CPU loads,
//! memory and drive sizes, per-interface cumulative byte counters — and the
//! module classifies them, reduces them and feeds the smoothed display
//! values and differential counters.  Percentages are held in hundredths of
//! a percent so that a whole display scale is `RATIO_SCALE`.

use crate::counters::{counter_recorded, DifferentialCounter};
use crate::smoothing::{smoothed_step, SmoothedValue};
use crate::text::{
    contains_bytes,
    lower_seq,
    seq_contains,
    seq_ends_with,
    seq_starts_with,
    starts_with_bytes,
    ends_with_bytes,
    to_lower,
};
use vstd::prelude::*;
use vstd::string::StringSliceAdditionalSpecFns;

verus! {

/// Full scale of a smoothed ratio: 100% is 10000 (hundredths of a percent).
pub const RATIO_SCALE: u64 = 10000;

/// The name heuristics for a physical network adapter: the lower-cased name
/// contains "ethernet" or "wireless", or starts with one of the well-known
/// physical prefixes.  Virtual and loopback adapters match none of these;
/// in particular a platform-bridged adapter named "vEthernet ..." — whose
/// name contains "ethernet" only inside "vethernet" — is excluded outright.
pub open spec fn physical_interface_spec(name: Seq<u8>) -> bool {
    let l = lower_seq(name);
    !seq_contains(l, "vethernet".spec_bytes()) && (seq_contains(l, "ethernet".spec_bytes())
        || seq_starts_with(l, "eth".spec_bytes()) || seq_starts_with(l, "en".spec_bytes())
        || seq_starts_with(l, "wlan".spec_bytes()) || seq_starts_with(l, "wi-fi".spec_bytes())
        || seq_starts_with(l, "wireless".spec_bytes()) || seq_contains(
        l,
        "wireless".spec_bytes(),
    ))
}

/// Classify a network interface by its name.
pub fn is_physical_interface(name: &[u8]) -> (r: bool)
    ensures
        r == physical_interface_spec(name@),
{
    let l = to_lower(name);
    let ls = l.as_slice();
    !contains_bytes(ls, "vethernet".as_bytes()) && (contains_bytes(ls, "ethernet".as_bytes())
        || starts_with_bytes(ls, "eth".as_bytes()) || starts_with_bytes(ls, "en".as_bytes())
        || starts_with_bytes(ls, "wlan".as_bytes()) || starts_with_bytes(ls, "wi-fi".as_bytes())
        || starts_with_bytes(ls, "wireless".as_bytes()) || contains_bytes(
        ls,
        "wireless".as_bytes(),
    ))
}

/// A mount point names a fixed local volume when it is a two-character
/// drive-letter form ending in a colon.
pub open spec fn fixed_drive_spec(mount: Seq<u8>) -> bool {
    mount.len() == 2 && mount[1] == 58
}

/// Classify a mount point.
pub fn is_fixed_drive(mount: &[u8]) -> (r: bool)
    ensures
        r == fixed_drive_spec(mount@),
{
    mount.len() == 2 && mount[1] == 58
}

/// The installer's own process: a lower-cased process name that contains
/// "ninite" and ends in ".exe".
pub open spec fn installer_process_spec(name: Seq<u8>) -> bool {
    let l = lower_seq(name);
    seq_contains(l, "ninite".spec_bytes()) && seq_ends_with(l, ".exe".spec_bytes())
}

/// Classify a process by its name.
pub fn is_installer_process(name: &[u8]) -> (r: bool)
    ensures
        r == installer_process_spec(name@),
{
    let l = to_lower(name);
    let ls = l.as_slice();
    contains_bytes(ls, "ninite".as_bytes()) && ends_with_bytes(ls, ".exe".as_bytes())
}

/// Sum of a sequence of readings.
pub open spec fn sum_of(s: Seq<u32>) -> int
    decreases s.len(),
{
    if s.len() == 0 {
        0
    } else {
        sum_of(s.drop_last()) + s.last()
    }
}

/// Mean CPU load over all logical cores, clamped to full scale; zero when no
/// core reported.
pub open spec fn cpu_target_spec(readings: Seq<u32>) -> int {
    if readings.len() == 0 {
        0
    } else {
        let mean = sum_of(readings) / readings.len() as int;
        if mean > RATIO_SCALE as int {
            RATIO_SCALE as int
        } else {
            mean
        }
    }
}

/// Reduce per-core CPU loads (hundredths of a percent) to the display target.
pub fn cpu_target(readings: &Vec<u32>) -> (r: u64)
    ensures
        r == cpu_target_spec(readings@),
        r <= RATIO_SCALE,
{
    if readings.len() == 0 {
        return 0;
    }
    let mut sum: u128 = 0;
    let mut i: usize = 0;
    proof {
        assert(readings@.subrange(0, 0) =~= Seq::<u32>::empty());
    }
    while i < readings.len()
        invariant
            i <= readings@.len(),
            readings@.len() <= usize::MAX,
            sum == sum_of(readings@.subrange(0, i as int)),
            sum <= i * (u32::MAX as int),
        decreases readings@.len() - i,
    {
        proof {
            assert(readings@.subrange(0, i + 1).drop_last() =~= readings@.subrange(0, i as int));
            assert((i + 1) * (u32::MAX as int) == i * (u32::MAX as int) + u32::MAX)
                by (nonlinear_arith);
            assert(i * (u32::MAX as int) <= (usize::MAX as int) * (u32::MAX as int))
                by (nonlinear_arith)
                requires 0 <= i <= usize::MAX as int;
        }
        sum = sum + readings[i] as u128;
        i = i + 1;
    }
    let n = readings.len();
    proof {
        assert(readings@.subrange(0, readings@.len() as int) =~= readings@);
        vstd::arithmetic::div_mod::lemma_div_pos_is_pos(sum as int, n as int);
        vstd::arithmetic::div_mod::lemma_div_is_ordered(
            sum as int,
            (n as int) * (u32::MAX as int),
            n as int,
        );
        vstd::arithmetic::div_mod::lemma_div_multiples_vanish(u32::MAX as int, n as int);
    }
    let mean: u128 = sum / (n as u128);
    if mean > RATIO_SCALE as u128 {
        RATIO_SCALE
    } else {
        mean as u64
    }
}

/// `part` of `whole` on the display scale, truncated.  Zero when `whole` is
/// zero; a part larger than the whole reads as full scale.
pub open spec fn ratio_spec(part: u64, whole: u64) -> int {
    if whole == 0 {
        0
    } else if part >= whole {
        RATIO_SCALE as int
    } else {
        part * (RATIO_SCALE as int) / (whole as int)
    }
}

/// Compute a usage ratio on the display scale.
pub fn scaled_ratio(part: u64, whole: u64) -> (r: u64)
    ensures
        r == ratio_spec(part, whole),
        r <= RATIO_SCALE,
{
    if whole == 0 {
        0
    } else if part >= whole {
        RATIO_SCALE
    } else {
        proof {
            assert((part as int) * (RATIO_SCALE as int) <= (whole as int) * (RATIO_SCALE as int)
                && 0 <= (part as int) * (RATIO_SCALE as int)) by (nonlinear_arith)
                requires 0 <= part <= whole;
            vstd::arithmetic::div_mod::lemma_div_pos_is_pos(
                (part as int) * (RATIO_SCALE as int),
                whole as int,
            );
            vstd::arithmetic::div_mod::lemma_div_is_ordered(
                (part as int) * (RATIO_SCALE as int),
                (whole as int) * (RATIO_SCALE as int),
                whole as int,
            );
            vstd::arithmetic::div_mod::lemma_div_multiples_vanish(
                RATIO_SCALE as int,
                whole as int,
            );
        }
        (((part as u128) * (RATIO_SCALE as u128)) / (whole as u128)) as u64
    }
}

/// Memory pressure: used over total on the display scale, where used memory
/// is what is not reported available.
pub open spec fn memory_target_spec(total: u64, available: u64) -> int {
    if available <= total {
        ratio_spec((total - available) as u64, total)
    } else {
        0
    }
}

/// Reduce a memory reading to the display target.
pub fn memory_target(total: u64, available: u64) -> (r: u64)
    ensures
        r == memory_target_spec(total, available),
        r <= RATIO_SCALE,
{
    if available <= total {
        scaled_ratio(total - available, total)
    } else {
        0
    }
}

/// Drive usage: space not available over total space, on the display scale.
pub open spec fn drive_target_spec(total: u64, available: u64) -> int {
    memory_target_spec(total, available)
}

/// Reduce a drive-space reading to the display target.
pub fn drive_target(total: u64, available: u64) -> (r: u64)
    ensures
        r == drive_target_spec(total, available),
        r <= RATIO_SCALE,
{
    memory_target(total, available)
}

/// Smoothed usage of one fixed drive.
pub struct DriveUsage {
    /// The drive's mount point.
    pub name: Vec<u8>,
    /// Its smoothed usage ratio.
    pub usage: SmoothedValue,
}

/// Differential byte counters of one tracked network interface.
pub struct InterfaceStats {
    /// The interface name.
    pub name: Vec<u8>,
    /// Bytes received.
    pub rx: DifferentialCounter,
    /// Bytes transmitted.
    pub tx: DifferentialCounter,
}

/// `j` is the offset of the first drive named `name`.
pub open spec fn first_drive_match(ds: Seq<DriveUsage>, name: Seq<u8>, j: int) -> bool {
    0 <= j < ds.len() && ds[j].name@ == name && forall|k: int| 0 <= k < j ==> ds[k].name@ != name
}

/// No drive is named `name`.
pub open spec fn no_drive_match(ds: Seq<DriveUsage>, name: Seq<u8>) -> bool {
    forall|j: int| 0 <= j < ds.len() ==> ds[j].name@ != name
}

/// `j` is the offset of the first interface named `name`.
pub open spec fn first_interface_match(ifs: Seq<InterfaceStats>, name: Seq<u8>, j: int) -> bool {
    0 <= j < ifs.len() && ifs[j].name@ == name && forall|k: int|
        0 <= k < j ==> ifs[k].name@ != name
}

/// No interface is named `name`.
pub open spec fn no_interface_match(ifs: Seq<InterfaceStats>, name: Seq<u8>) -> bool {
    forall|j: int| 0 <= j < ifs.len() ==> ifs[j].name@ != name
}

/// The observations of `cur` whose interface name passes the physical-adapter
/// heuristics, in order.  Each observation is `(name, rx, tx)` cumulative
/// readings.
pub open spec fn physical_only(cur: Seq<(Vec<u8>, u64, u64)>) -> Seq<(Vec<u8>, u64, u64)>
    decreases cur.len(),
{
    if cur.len() == 0 {
        Seq::empty()
    } else {
        let pre = physical_only(cur.drop_last());
        if physical_interface_spec(cur.last().0@) {
            pre.push(cur.last())
        } else {
            pre
        }
    }
}

/// Find the first drive with the given mount point.
fn find_drive(ds: &Vec<DriveUsage>, name: &[u8]) -> (r: Option<usize>)
    ensures
        match r {
            Some(i) => first_drive_match(ds@, name@, i as int),
            None => no_drive_match(ds@, name@),
        },
{
    let mut i: usize = 0;
    while i < ds.len()
        invariant
            i <= ds@.len(),
            forall|j: int| 0 <= j < i ==> (#[trigger] ds@[j]).name@ != name@,
        decreases ds@.len() - i,
    {
        if crate::text::bytes_eq(ds[i].name.as_slice(), name) {
            return Some(i);
        }
        i = i + 1;
    }
    None
}

/// Find the first interface with the given name.
fn find_interface(ifs: &Vec<InterfaceStats>, name: &[u8]) -> (r: Option<usize>)
    ensures
        match r {
            Some(i) => first_interface_match(ifs@, name@, i as int),
            None => no_interface_match(ifs@, name@),
        },
{
    let mut i: usize = 0;
    while i < ifs.len()
        invariant
            i <= ifs@.len(),
            forall|j: int| 0 <= j < i ==> (#[trigger] ifs@[j]).name@ != name@,
        decreases ifs@.len() - i,
    {
        if crate::text::bytes_eq(ifs[i].name.as_slice(), name) {
            return Some(i);
        }
        i = i + 1;
    }
    None
}

/// What one entry of the synchronised interface set must hold: the observed
/// name, and either the counters already tracked under that name or counters
/// seeded from the first readings.
pub open spec fn synced_entry(
    old_ifs: Seq<InterfaceStats>,
    obs: (Vec<u8>, u64, u64),
    e: InterfaceStats,
) -> bool {
    &&& e.name@ == obs.0@
    &&& (forall|j: int|
        first_interface_match(old_ifs, obs.0@, j) ==> e.rx == old_ifs[j].rx && e.tx == old_ifs[j].tx)
    &&& (no_interface_match(old_ifs, obs.0@) ==> e.rx == DifferentialCounter {
        total: obs.1,
        last_reading: obs.1,
        rate: 0,
    } && e.tx == DifferentialCounter { total: obs.2, last_reading: obs.2, rate: 0 })
}

/// The sampled state of the host: smoothed CPU, memory and drive usage and
/// differential counters per physical network interface.
pub struct TelemetrySampler {
    /// Smoothed mean CPU load.
    pub cpu: SmoothedValue,
    /// Smoothed memory pressure.
    pub memory: SmoothedValue,
    /// Smoothed usage per fixed drive, in the order first observed.
    pub drives: Vec<DriveUsage>,
    /// Counters per tracked physical interface.
    pub interfaces: Vec<InterfaceStats>,
}

impl TelemetrySampler {
    /// A sampler with no history: all displays at rest at zero, nothing
    /// tracked yet.
    pub fn new() -> (r: TelemetrySampler)
        ensures
            r.cpu.current == 0 && r.cpu.target == 0,
            r.memory.current == 0 && r.memory.target == 0,
            r.drives@.len() == 0,
            r.interfaces@.len() == 0,
    {
        TelemetrySampler {
            cpu: SmoothedValue::new(0),
            memory: SmoothedValue::new(0),
            drives: Vec::new(),
            interfaces: Vec::new(),
        }
    }

    /// Advance every smoothed display value by `dt_ms` elapsed milliseconds.
    pub fn tick(&mut self, dt_ms: u64)
        ensures
            final(self).cpu.target == old(self).cpu.target,
            final(self).cpu.current == smoothed_step(
                old(self).cpu.current,
                old(self).cpu.target,
                dt_ms as nat,
            ),
            final(self).memory.target == old(self).memory.target,
            final(self).memory.current == smoothed_step(
                old(self).memory.current,
                old(self).memory.target,
                dt_ms as nat,
            ),
            final(self).drives@.len() == old(self).drives@.len(),
            forall|k: int|
                0 <= k < old(self).drives@.len() ==> (#[trigger] final(self).drives@[k]).name@
                    == old(self).drives@[k].name@ && final(self).drives@[k].usage.target == old(
                    self,
                ).drives@[k].usage.target && final(self).drives@[k].usage.current == smoothed_step(
                    old(self).drives@[k].usage.current,
                    old(self).drives@[k].usage.target,
                    dt_ms as nat,
                ),
            final(self).interfaces == old(self).interfaces,
    {
        self.cpu.update(dt_ms);
        self.memory.update(dt_ms);
        let mut i: usize = 0;
        while i < self.drives.len()
            invariant
                i <= self.drives@.len(),
                self.drives@.len() == old(self).drives@.len(),
                forall|k: int|
                    i <= k < self.drives@.len() ==> #[trigger] self.drives@[k] == old(
                        self,
                    ).drives@[k],
                forall|k: int|
                    0 <= k < i ==> (#[trigger] self.drives@[k]).name@ == old(
                        self,
                    ).drives@[k].name@ && self.drives@[k].usage.target == old(
                        self,
                    ).drives@[k].usage.target && self.drives@[k].usage.current == smoothed_step(
                        old(self).drives@[k].usage.current,
                        old(self).drives@[k].usage.target,
                        dt_ms as nat,
                    ),
                self.cpu.target == old(self).cpu.target,
                self.cpu.current == smoothed_step(
                    old(self).cpu.current,
                    old(self).cpu.target,
                    dt_ms as nat,
                ),
                self.memory.target == old(self).memory.target,
                self.memory.current == smoothed_step(
                    old(self).memory.current,
                    old(self).memory.target,
                    dt_ms as nat,
                ),
                self.interfaces == old(self).interfaces,
            decreases self.drives@.len() - i,
        {
            let name = vstd::slice::slice_to_vec(self.drives[i].name.as_slice());
            let mut u = self.drives[i].usage;
            u.update(dt_ms);
            self.drives[i] = DriveUsage { name, usage: u };
            i = i + 1;
        }
    }

    /// Store a fresh CPU target computed from per-core readings.
    pub fn set_cpu_target(&mut self, readings: &Vec<u32>)
        ensures
            final(self).cpu.target == cpu_target_spec(readings@),
            final(self).cpu.current == old(self).cpu.current,
            final(self).memory == old(self).memory,
            final(self).drives == old(self).drives,
            final(self).interfaces == old(self).interfaces,
    {
        let t = cpu_target(readings);
        self.cpu.set_target(t);
    }

    /// Record an observed drive.  Only fixed drives with a nonzero size are
    /// tracked: a known drive gets a fresh usage target, an unknown one is
    /// added at rest at its observed usage.
    pub fn record_drive(&mut self, mount: &[u8], total: u64, available: u64)
        ensures
            final(self).cpu == old(self).cpu,
            final(self).memory == old(self).memory,
            final(self).interfaces == old(self).interfaces,
            !(fixed_drive_spec(mount@) && total > 0) ==> final(self).drives == old(self).drives,
            fixed_drive_spec(mount@) && total > 0 ==> {
                &&& (forall|j: int|
                    first_drive_match(old(self).drives@, mount@, j) ==> final(self).drives@
                        == old(self).drives@.update(
                        j,
                        DriveUsage {
                            name: old(self).drives@[j].name,
                            usage: SmoothedValue {
                                current: old(self).drives@[j].usage.current,
                                target: drive_target_spec(total, available) as u64,
                            },
                        },
                    ))
                &&& (no_drive_match(old(self).drives@, mount@) ==> {
                    &&& final(self).drives@.len() == old(self).drives@.len() + 1
                    &&& final(self).drives@.subrange(0, old(self).drives@.len() as int) == old(
                        self,
                    ).drives@
                    &&& final(self).drives@.last().name@ == mount@
                    &&& final(self).drives@.last().usage.current == drive_target_spec(
                        total,
                        available,
                    )
                    &&& final(self).drives@.last().usage.target == drive_target_spec(
                        total,
                        available,
                    )
                })
            },
    {
        if !(is_fixed_drive(mount) && total > 0) {
            return ;
        }
        let t = drive_target(total, available);
        let found = find_drive(&self.drives, mount);
        match found {
            Some(i) => {
                let mut entry = self.drives.remove(i);
                entry.usage.set_target(t);
                self.drives.insert(i, entry);
                proof {
                    assert(forall|j: int|
                        first_drive_match(old(self).drives@, mount@, j) ==> j == i as int);
                    assert(self.drives@ =~= old(self).drives@.update(
                        i as int,
                        DriveUsage {
                            name: old(self).drives@[i as int].name,
                            usage: SmoothedValue {
                                current: old(self).drives@[i as int].usage.current,
                                target: drive_target_spec(total, available) as u64,
                            },
                        },
                    ));
                }
            },
            None => {
                let name = vstd::slice::slice_to_vec(mount);
                self.drives.push(DriveUsage { name, usage: SmoothedValue::new(t) });
                proof {
                    assert(self.drives@.subrange(0, old(self).drives@.len() as int) =~= old(
                        self,
                    ).drives@);
                }
            },
        }
    }

    /// Record fresh cumulative readings for one tracked interface.  An
    /// interface that is not tracked is ignored here; tracking membership
    /// changes only in `sync_interfaces`.
    pub fn record_interface(&mut self, name: &[u8], rx: u64, tx: u64, elapsed_ms: u64)
        ensures
            final(self).cpu == old(self).cpu,
            final(self).memory == old(self).memory,
            final(self).drives == old(self).drives,
            no_interface_match(old(self).interfaces@, name@) ==> final(self).interfaces == old(
                self,
            ).interfaces,
            forall|j: int|
                first_interface_match(old(self).interfaces@, name@, j) ==> {
                    &&& final(self).interfaces@.len() == old(self).interfaces@.len()
                    &&& (forall|k: int|
                        0 <= k < old(self).interfaces@.len() && k != j
                            ==> #[trigger] final(self).interfaces@[k] == old(self).interfaces@[k])
                    &&& (#[trigger] final(self).interfaces@[j]).name@ == name@
                    &&& counter_recorded(old(self).interfaces@[j].rx, final(self).interfaces@[j].rx, rx, elapsed_ms)
                    &&& counter_recorded(old(self).interfaces@[j].tx, final(self).interfaces@[j].tx, tx, elapsed_ms)
                },
    {
        let found = find_interface(&self.interfaces, name);
        match found {
            Some(i) => {
                let mut entry = self.interfaces.remove(i);
                entry.rx.record(rx, elapsed_ms);
                entry.tx.record(tx, elapsed_ms);
                self.interfaces.insert(i, entry);
                proof {
                    assert(forall|j: int|
                        first_interface_match(old(self).interfaces@, name@, j) ==> j == i as int);
                }
            },
            None => {},
        }
    }

    /// Reconcile the tracked interface set with a fresh enumeration of
    /// `(name, received, transmitted)` readings.  Only physical interfaces
    /// are tracked, in the enumeration's order; an interface that was
    /// already tracked keeps its counters, a new one starts seeded from its
    /// first readings, and one that disappeared is dropped.
    pub fn sync_interfaces(&mut self, current: &Vec<(Vec<u8>, u64, u64)>)
        ensures
            final(self).cpu == old(self).cpu,
            final(self).memory == old(self).memory,
            final(self).drives == old(self).drives,
            final(self).interfaces@.len() == physical_only(current@).len(),
            forall|k: int|
                0 <= k < physical_only(current@).len() ==> synced_entry(
                    old(self).interfaces@,
                    physical_only(current@)[k],
                    #[trigger] final(self).interfaces@[k],
                ),
    {
        let mut kept: Vec<InterfaceStats> = Vec::new();
        let mut i: usize = 0;
        proof {
            assert(current@.subrange(0, 0) =~= Seq::<(Vec<u8>, u64, u64)>::empty());
        }
        while i < current.len()
            invariant
                i <= current@.len(),
                self == old(self),
                kept@.len() == physical_only(current@.subrange(0, i as int)).len(),
                forall|k: int|
                    0 <= k < kept@.len() ==> synced_entry(
                        old(self).interfaces@,
                        physical_only(current@.subrange(0, i as int))[k],
                        #[trigger] kept@[k],
                    ),
            decreases current@.len() - i,
        {
            let name_slice = current[i].0.as_slice();
            if is_physical_interface(name_slice) {
                let name = vstd::slice::slice_to_vec(name_slice);
                match find_interface(&self.interfaces, name_slice) {
                    Some(j) => {
                        let rx = self.interfaces[j].rx;
                        let tx = self.interfaces[j].tx;
                        kept.push(InterfaceStats { name, rx, tx });
                    },
                    None => {
                        kept.push(
                            InterfaceStats {
                                name,
                                rx: DifferentialCounter::seeded(current[i].1),
                                tx: DifferentialCounter::seeded(current[i].2),
                            },
                        );
                    },
                }
            }
            i = i + 1;
            proof {
                let pre = current@.subrange(0, i - 1);
                let cur = current@.subrange(0, i as int);
                assert(cur.drop_last() =~= pre);
                assert(cur.last() == current@[i - 1]);
            }
        }
        proof {
            assert(current@.subrange(0, current@.len() as int) =~= current@);
        }
        self.interfaces = kept;
    }

    /// Store a fresh memory target computed from a total/available reading.
    /// A reading with zero total memory is degenerate and leaves the display
    /// alone (no division by zero, no fabricated pressure).
    pub fn set_memory_target(&mut self, total: u64, available: u64)
        ensures
            total > 0 ==> final(self).memory.target == memory_target_spec(total, available)
                && final(self).memory.current == old(self).memory.current,
            total == 0 ==> final(self).memory == old(self).memory,
            final(self).cpu == old(self).cpu,
            final(self).drives == old(self).drives,
            final(self).interfaces == old(self).interfaces,
    {
        if total > 0 {
            let t = memory_target(total, available);
            self.memory.set_target(t);
        }
    }
}

} // verus!

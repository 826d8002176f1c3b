//! The dashboard's coordinating state: telemetry, catalog, selection, and
//! the consumer side of the installer pipeline.
//!
//! The poll loop owns one `DevDashboard`, drains the pipeline's message
//! channel into `apply_message` in emission order, applies detection
//! verdicts, and gates the start of a run: only one run may be live, and
//! only an explicit retry leaves a failed state.

use crate::catalog::{default_catalog, AppDescriptor};
use crate::detect::applied_verdict;
use crate::gpu::GpuInfo;
use crate::pipeline::{InstallerState, ProgressFraction, ProgressMessage};
use crate::schedule::Scheduler;
use crate::smoothing::smoothed_step;
use crate::telemetry::TelemetrySampler;
use crate::text::bytes_eq;
use vstd::prelude::*;

verus! {

/// Does any installed application carry this name?
pub open spec fn installed_name(apps: Seq<AppDescriptor>, name: Seq<u8>) -> bool {
    exists|j: int| 0 <= j < apps.len() && (#[trigger] apps[j]).installed && apps[j].name@ == name
}

/// The selection with the names of installed applications removed.
pub open spec fn pruned_selection(sel: Seq<Seq<u8>>, apps: Seq<AppDescriptor>) -> Seq<Seq<u8>>
    decreases sel.len(),
{
    if sel.len() == 0 {
        Seq::empty()
    } else {
        let pre = pruned_selection(sel.drop_last(), apps);
        if installed_name(apps, sel.last()) {
            pre
        } else {
            pre.push(sel.last())
        }
    }
}

/// The selection with every occurrence of one name removed.
pub open spec fn without_name(sel: Seq<Seq<u8>>, name: Seq<u8>) -> Seq<Seq<u8>>
    decreases sel.len(),
{
    if sel.len() == 0 {
        Seq::empty()
    } else {
        let pre = without_name(sel.drop_last(), name);
        if sel.last() == name {
            pre
        } else {
            pre.push(sel.last())
        }
    }
}

/// The dashboard's whole state.
pub struct DevDashboard {
    /// Smoothed host telemetry.
    pub sampler: TelemetrySampler,
    /// The active GPU's snapshot, when one was found.
    pub gpu: Option<GpuInfo>,
    /// The application catalog, with detection state.
    pub apps: Vec<AppDescriptor>,
    /// Names selected for installation.
    pub selected: Vec<Vec<u8>>,
    /// The last reported download fraction.
    pub download_progress: ProgressFraction,
    /// The installer's current state, as consumed from the channel.
    pub installer_state: InstallerState,
    /// Whether the installer's own process was seen running.
    pub installer_running: bool,
    /// The poll loop's cadences.
    pub schedule: Scheduler,
}

impl DevDashboard {
    /// A dashboard at rest: full catalog, nothing selected, installer idle,
    /// every cadence due.
    pub fn new() -> (r: DevDashboard)
        ensures
            r.apps@.len() == 22,
            forall|i: int| 0 <= i < r.apps@.len() ==> !(#[trigger] r.apps@[i]).installed,
            r.selected@.len() == 0,
            r.download_progress == (ProgressFraction { numer: 0, denom: 1 }),
            r.installer_state is Idle,
            !r.installer_running,
            r.gpu is None,
            r.sampler.drives@.len() == 0 && r.sampler.interfaces@.len() == 0,
    {
        DevDashboard {
            sampler: TelemetrySampler::new(),
            gpu: Option::None,
            apps: default_catalog(),
            selected: Vec::new(),
            download_progress: ProgressFraction { numer: 0, denom: 1 },
            installer_state: InstallerState::Idle,
            installer_running: false,
            schedule: Scheduler::new(),
        }
    }

    /// Advance every smoothed display — host telemetry and, when present,
    /// the GPU — by `dt_ms` elapsed milliseconds.
    pub fn tick(&mut self, dt_ms: u64)
        ensures
            final(self).sampler.cpu.target == old(self).sampler.cpu.target,
            final(self).sampler.cpu.current == smoothed_step(
                old(self).sampler.cpu.current,
                old(self).sampler.cpu.target,
                dt_ms as nat,
            ),
            final(self).sampler.memory.target == old(self).sampler.memory.target,
            final(self).sampler.memory.current == smoothed_step(
                old(self).sampler.memory.current,
                old(self).sampler.memory.target,
                dt_ms as nat,
            ),
            final(self).sampler.drives@.len() == old(self).sampler.drives@.len(),
            forall|k: int|
                0 <= k < old(self).sampler.drives@.len() ==> (#[trigger] final(self).sampler.drives@[k]).usage.current == smoothed_step(
                    old(self).sampler.drives@[k].usage.current,
                    old(self).sampler.drives@[k].usage.target,
                    dt_ms as nat,
                ) && final(self).sampler.drives@[k].usage.target == old(
                    self,
                ).sampler.drives@[k].usage.target && final(self).sampler.drives@[k].name@ == old(
                    self,
                ).sampler.drives@[k].name@,
            final(self).sampler.interfaces == old(self).sampler.interfaces,
            old(self).gpu is None ==> final(self).gpu == old(self).gpu,
            match (old(self).gpu, final(self).gpu) {
                (Option::Some(g0), Option::Some(g1)) => {
                    &&& g1.memory_usage.target == g0.memory_usage.target
                    &&& g1.memory_usage.current == smoothed_step(
                        g0.memory_usage.current,
                        g0.memory_usage.target,
                        dt_ms as nat,
                    )
                    &&& g1.gpu_usage.target == g0.gpu_usage.target
                    &&& g1.gpu_usage.current == smoothed_step(
                        g0.gpu_usage.current,
                        g0.gpu_usage.target,
                        dt_ms as nat,
                    )
                    &&& g1.name == g0.name
                    &&& g1.memory_total == g0.memory_total
                    &&& g1.memory_used == g0.memory_used
                    &&& g1.utilization == g0.utilization
                    &&& g1.temperature == g0.temperature
                    &&& g1.pci_bus_id == g0.pci_bus_id
                    &&& g1.driver_version == g0.driver_version
                },
                (Option::None, Option::None) => true,
                _ => false,
            },
            final(self).apps == old(self).apps,
            final(self).selected == old(self).selected,
            final(self).download_progress == old(self).download_progress,
            final(self).installer_state == old(self).installer_state,
            final(self).installer_running == old(self).installer_running,
            final(self).schedule == old(self).schedule,
    {
        self.sampler.tick(dt_ms);
        match &mut self.gpu {
            Option::Some(g) => {
                g.tick(dt_ms);
            },
            Option::None => {},
        }
    }

    /// Consume one channel message, in emission order.  A progress update
    /// stores the fraction; a state change stores the state, and a change
    /// to rest asks the caller for an immediate detection pass (the return
    /// value); a failure message stores the failed state.
    pub fn apply_message(&mut self, m: ProgressMessage) -> (refresh: bool)
        ensures
            final(self).sampler == old(self).sampler,
            final(self).gpu == old(self).gpu,
            final(self).apps == old(self).apps,
            final(self).selected == old(self).selected,
            final(self).installer_running == old(self).installer_running,
            final(self).schedule == old(self).schedule,
            match m {
                ProgressMessage::ProgressUpdate(f) => {
                    &&& final(self).download_progress == f
                    &&& final(self).installer_state == old(self).installer_state
                    &&& !refresh
                },
                ProgressMessage::StateChanged(s) => {
                    &&& final(self).download_progress == old(self).download_progress
                    &&& final(self).installer_state == s
                    &&& refresh == (s is Idle)
                },
                ProgressMessage::Failed(reason) => {
                    &&& final(self).download_progress == old(self).download_progress
                    &&& final(self).installer_state == InstallerState::Error(reason)
                    &&& !refresh
                },
            },
    {
        match m {
            ProgressMessage::ProgressUpdate(f) => {
                self.download_progress = f;
                false
            },
            ProgressMessage::StateChanged(s) => {
                let refresh = match s {
                    InstallerState::Idle => true,
                    _ => false,
                };
                self.installer_state = s;
                refresh
            },
            ProgressMessage::Failed(reason) => {
                self.installer_state = InstallerState::Error(reason);
                false
            },
        }
    }

    /// Apply one detection pass: `verdicts` carries the authoritative file
    /// signal per catalog entry, in catalog order.  The returned flags say,
    /// per entry, whether its installed state flipped — the caller logs
    /// exactly those.
    pub fn apply_detection(&mut self, verdicts: &Vec<bool>) -> (flips: Vec<bool>)
        requires
            verdicts@.len() == old(self).apps@.len(),
        ensures
            final(self).apps@.len() == old(self).apps@.len(),
            forall|k: int|
                0 <= k < old(self).apps@.len() ==> #[trigger] final(self).apps@[k]
                    == applied_verdict(old(self).apps@[k], verdicts@[k]),
            flips@.len() == old(self).apps@.len(),
            forall|k: int|
                0 <= k < old(self).apps@.len() ==> #[trigger] flips@[k] == (old(
                    self,
                ).apps@[k].installed != verdicts@[k]),
            final(self).sampler == old(self).sampler,
            final(self).gpu == old(self).gpu,
            final(self).selected == old(self).selected,
            final(self).download_progress == old(self).download_progress,
            final(self).installer_state == old(self).installer_state,
            final(self).installer_running == old(self).installer_running,
            final(self).schedule == old(self).schedule,
    {
        let mut flips: Vec<bool> = Vec::new();
        let mut i: usize = 0;
        while i < self.apps.len()
            invariant
                i <= self.apps@.len(),
                self.apps@.len() == old(self).apps@.len(),
                verdicts@.len() == old(self).apps@.len(),
                flips@.len() == i,
                forall|k: int|
                    i <= k < self.apps@.len() ==> #[trigger] self.apps@[k] == old(self).apps@[k],
                forall|k: int|
                    0 <= k < i ==> #[trigger] self.apps@[k] == applied_verdict(
                        old(self).apps@[k],
                        verdicts@[k],
                    ),
                forall|k: int|
                    0 <= k < i ==> #[trigger] flips@[k] == (old(self).apps@[k].installed
                        != verdicts@[k]),
                self.sampler == old(self).sampler,
                self.gpu == old(self).gpu,
                self.selected == old(self).selected,
                self.download_progress == old(self).download_progress,
                self.installer_state == old(self).installer_state,
                self.installer_running == old(self).installer_running,
                self.schedule == old(self).schedule,
            decreases self.apps@.len() - i,
        {
            let mut entry = self.apps.remove(i);
            let flipped = crate::detect::apply_verdict(&mut entry, verdicts[i]);
            self.apps.insert(i, entry);
            flips.push(flipped);
            i = i + 1;
        }
        flips
    }

    /// Drop every selected name that detection now reports installed.
    pub fn prune_selected(&mut self)
        ensures
            final(self).selected.deep_view() == pruned_selection(
                old(self).selected.deep_view(),
                old(self).apps@,
            ),
            final(self).sampler == old(self).sampler,
            final(self).gpu == old(self).gpu,
            final(self).apps == old(self).apps,
            final(self).download_progress == old(self).download_progress,
            final(self).installer_state == old(self).installer_state,
            final(self).installer_running == old(self).installer_running,
            final(self).schedule == old(self).schedule,
    {
        let ghost sel0 = old(self).selected.deep_view();
        let mut kept: Vec<Vec<u8>> = Vec::new();
        let mut i: usize = 0;
        proof {
            assert forall|k: int| 0 <= k < self.selected@.len() implies sel0[k] == (
            #[trigger] self.selected@[k])@ by {
                assert(self.selected@[k].deep_view() =~= self.selected@[k]@);
            }
            assert(sel0.subrange(0, 0) =~= Seq::<Seq<u8>>::empty());
        }
        while i < self.selected.len()
            invariant
                i <= self.selected@.len(),
                self == old(self),
                sel0 == old(self).selected.deep_view(),
                sel0.len() == self.selected@.len(),
                forall|k: int|
                    0 <= k < self.selected@.len() ==> sel0[k] == (#[trigger] self.selected@[k])@,
                kept@.len() == pruned_selection(sel0.subrange(0, i as int), old(self).apps@).len(),
                forall|k: int|
                    0 <= k < kept@.len() ==> (#[trigger] kept@[k])@ == pruned_selection(
                        sel0.subrange(0, i as int),
                        old(self).apps@,
                    )[k],
            decreases self.selected@.len() - i,
        {
            let keep = !self.name_installed(self.selected[i].as_slice());
            if keep {
                kept.push(vstd::slice::slice_to_vec(self.selected[i].as_slice()));
            }
            i = i + 1;
            proof {
                assert(sel0.subrange(0, i as int).drop_last() =~= sel0.subrange(0, i - 1));
                assert(sel0.subrange(0, i as int).last() == sel0[i - 1]);
            }
        }
        proof {
            assert(sel0.subrange(0, sel0.len() as int) =~= sel0);
        }
        self.selected = kept;
        proof {
            assert forall|k: int|
                0 <= k < self.selected@.len() implies self.selected.deep_view()[k]
                == pruned_selection(sel0, old(self).apps@)[k] by {
                assert(self.selected@[k].deep_view() =~= self.selected@[k]@);
            }
            assert(self.selected.deep_view() =~= pruned_selection(sel0, old(self).apps@));
        }
    }

    /// Is `name` the name of an application detection reports installed?
    pub fn name_installed(&self, name: &[u8]) -> (r: bool)
        ensures
            r == installed_name(self.apps@, name@),
    {
        let mut j: usize = 0;
        while j < self.apps.len()
            invariant
                j <= self.apps@.len(),
                forall|k: int|
                    0 <= k < j ==> !((#[trigger] self.apps@[k]).installed && self.apps@[k].name@
                        == name@),
            decreases self.apps@.len() - j,
        {
            if self.apps[j].installed && bytes_eq(self.apps[j].name.as_slice(), name) {
                return true;
            }
            j = j + 1;
        }
        false
    }

    /// Add a name to the selection; a name already selected is not doubled.
    pub fn select_app(&mut self, name: &[u8])
        ensures
            final(self).sampler == old(self).sampler,
            final(self).gpu == old(self).gpu,
            final(self).apps == old(self).apps,
            final(self).download_progress == old(self).download_progress,
            final(self).installer_state == old(self).installer_state,
            final(self).installer_running == old(self).installer_running,
            final(self).schedule == old(self).schedule,
            (exists|k: int|
                0 <= k < old(self).selected@.len() && (#[trigger] old(self).selected@[k])@
                    == name@) ==> final(self).selected == old(self).selected,
            (forall|k: int|
                0 <= k < old(self).selected@.len() ==> (#[trigger] old(self).selected@[k])@
                    != name@) ==> {
                &&& final(self).selected@.len() == old(self).selected@.len() + 1
                &&& final(self).selected@.subrange(0, old(self).selected@.len() as int) == old(
                    self,
                ).selected@
                &&& final(self).selected@.last()@ == name@
            },
    {
        let mut j: usize = 0;
        while j < self.selected.len()
            invariant
                j <= self.selected@.len(),
                self == old(self),
                forall|k: int| 0 <= k < j ==> (#[trigger] self.selected@[k])@ != name@,
            decreases self.selected@.len() - j,
        {
            if bytes_eq(self.selected[j].as_slice(), name) {
                return ;
            }
            j = j + 1;
        }
        self.selected.push(vstd::slice::slice_to_vec(name));
        proof {
            assert(self.selected@.subrange(0, old(self).selected@.len() as int) =~= old(
                self,
            ).selected@);
        }
    }

    /// Remove every occurrence of a name from the selection.
    pub fn deselect_app(&mut self, name: &[u8])
        ensures
            final(self).sampler == old(self).sampler,
            final(self).gpu == old(self).gpu,
            final(self).apps == old(self).apps,
            final(self).download_progress == old(self).download_progress,
            final(self).installer_state == old(self).installer_state,
            final(self).installer_running == old(self).installer_running,
            final(self).schedule == old(self).schedule,
            final(self).selected.deep_view() == without_name(
                old(self).selected.deep_view(),
                name@,
            ),
    {
        let ghost sel0 = old(self).selected.deep_view();
        let mut kept: Vec<Vec<u8>> = Vec::new();
        let mut i: usize = 0;
        proof {
            assert forall|k: int| 0 <= k < self.selected@.len() implies sel0[k] == (
            #[trigger] self.selected@[k])@ by {
                assert(self.selected@[k].deep_view() =~= self.selected@[k]@);
            }
            assert(sel0.subrange(0, 0) =~= Seq::<Seq<u8>>::empty());
        }
        while i < self.selected.len()
            invariant
                i <= self.selected@.len(),
                self == old(self),
                sel0 == old(self).selected.deep_view(),
                sel0.len() == self.selected@.len(),
                forall|k: int|
                    0 <= k < self.selected@.len() ==> sel0[k] == (#[trigger] self.selected@[k])@,
                kept@.len() == without_name(sel0.subrange(0, i as int), name@).len(),
                forall|k: int|
                    0 <= k < kept@.len() ==> (#[trigger] kept@[k])@ == without_name(
                        sel0.subrange(0, i as int),
                        name@,
                    )[k],
            decreases self.selected@.len() - i,
        {
            if !bytes_eq(self.selected[i].as_slice(), name) {
                kept.push(vstd::slice::slice_to_vec(self.selected[i].as_slice()));
            }
            i = i + 1;
            proof {
                assert(sel0.subrange(0, i as int).drop_last() =~= sel0.subrange(0, i - 1));
                assert(sel0.subrange(0, i as int).last() == sel0[i - 1]);
            }
        }
        proof {
            assert(sel0.subrange(0, sel0.len() as int) =~= sel0);
        }
        self.selected = kept;
        proof {
            assert forall|k: int|
                0 <= k < self.selected@.len() implies self.selected.deep_view()[k] == without_name(
                sel0,
                name@,
            )[k] by {
                assert(self.selected@[k].deep_view() =~= self.selected@[k]@);
            }
            assert(self.selected.deep_view() =~= without_name(sel0, name@));
        }
    }

    /// May a run start now?  Only when no run is live — the caller enforces
    /// the single-run rule — and something is selected.
    pub fn can_start(&self) -> (r: bool)
        ensures
            r == (self.installer_state is Idle && self.selected@.len() > 0),
    {
        let idle = match self.installer_state {
            InstallerState::Idle => true,
            _ => false,
        };
        idle && self.selected.len() > 0
    }

    /// The explicit user-initiated retry: a failed installer returns to
    /// rest; any other state is left alone.
    pub fn retry(&mut self)
        ensures
            final(self).sampler == old(self).sampler,
            final(self).gpu == old(self).gpu,
            final(self).apps == old(self).apps,
            final(self).selected == old(self).selected,
            final(self).download_progress == old(self).download_progress,
            final(self).installer_running == old(self).installer_running,
            final(self).schedule == old(self).schedule,
            old(self).installer_state is Error ==> final(self).installer_state
                == InstallerState::Idle,
            !(old(self).installer_state is Error) ==> final(self).installer_state == old(
                self,
            ).installer_state,
    {
        match self.installer_state {
            InstallerState::Error(_) => {
                self.installer_state = InstallerState::Idle;
            },
            _ => {},
        }
    }
}

} // verus!

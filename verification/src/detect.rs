//! Installation detection from probe results.
//!
//! The poll loop carries out the actual registry and filesystem probes; this
//! module plans them (user-name substitution, wildcard classification),
//! combines their boolean signals, and applies the verdict to a descriptor.
//! Probe failures are reported by the loop as a negative signal, so a soft
//! failure degrades to "not installed" rather than propagating.

use crate::catalog::AppDescriptor;
use crate::text::{
    contains_byte,
    contains_bytes,
    lower_seq,
    replace_bytes,
    replaced,
    seq_contains,
    to_lower,
    username_token,
};
use vstd::prelude::*;

verus! {

/// The wildcard byte that turns a path probe into a glob pattern.
pub const WILDCARD: u8 = 42;

/// One planned filesystem probe: the pattern with the user name substituted,
/// and whether it must be resolved as a glob.
pub struct PathProbe {
    /// The expanded path or glob pattern.
    pub pattern: Vec<u8>,
    /// True when the pattern contains a wildcard and needs glob resolution;
    /// a hit then requires a resolved entry that exists as a regular file.
    /// False means a direct regular-file existence check.
    pub wildcard: bool,
}

/// Substitute the current user's name for the user-name placeholder token in
/// a path pattern.
pub fn expand_path(pattern: &[u8], username: &[u8]) -> (r: Vec<u8>)
    ensures
        r@ == replaced(pattern@, username_token(), username@),
{
    let token = "%USERNAME%".as_bytes();
    if token.len() == 0 {
        return vstd::slice::slice_to_vec(pattern);
    }
    replace_bytes(pattern, token, username)
}

/// Plan the filesystem probes of one descriptor for the given user name:
/// each path pattern with the placeholder substituted, classified as glob or
/// direct check.
pub fn path_probe_plan(d: &AppDescriptor, username: &[u8]) -> (r: Vec<PathProbe>)
    ensures
        r@.len() == d.path_probes@.len(),
        forall|i: int|
            0 <= i < r@.len() ==> {
                &&& (#[trigger] r@[i]).pattern@ == replaced(
                    d.path_probes@[i]@,
                    username_token(),
                    username@,
                )
                &&& r@[i].wildcard == r@[i].pattern@.contains(WILDCARD)
            },
{
    let mut r: Vec<PathProbe> = Vec::new();
    let mut i: usize = 0;
    while i < d.path_probes.len()
        invariant
            i <= d.path_probes@.len(),
            r@.len() == i,
            forall|k: int|
                0 <= k < i ==> {
                    &&& (#[trigger] r@[k]).pattern@ == replaced(
                        d.path_probes@[k]@,
                        username_token(),
                        username@,
                    )
                    &&& r@[k].wildcard == r@[k].pattern@.contains(WILDCARD)
                },
        decreases d.path_probes@.len() - i,
    {
        let pattern = expand_path(d.path_probes[i].as_slice(), username);
        let wildcard = contains_byte(pattern.as_slice(), WILDCARD);
        r.push(PathProbe { pattern, wildcard });
        i = i + 1;
    }
    r
}

/// Does one uninstall-registry entry count as a hit for an application?
///
/// The entry's display name must contain the application name, compared
/// case-insensitively; and when the entry declares an install location,
/// that location must have been found to exist as a directory
/// (`location_is_dir` is `None` when no location is declared).
pub open spec fn uninstall_match_spec(
    app_name: Seq<u8>,
    display_name: Seq<u8>,
    location_is_dir: Option<bool>,
) -> bool {
    seq_contains(lower_seq(display_name), lower_seq(app_name)) && match location_is_dir {
        Option::None => true,
        Option::Some(d) => d,
    }
}

/// Decide whether an uninstall-registry entry counts as a hit.
pub fn uninstall_entry_matches(
    app_name: &[u8],
    display_name: &[u8],
    location_is_dir: Option<bool>,
) -> (r: bool)
    ensures
        r == uninstall_match_spec(app_name@, display_name@, location_is_dir),
{
    let dl = to_lower(display_name);
    let al = to_lower(app_name);
    let named = contains_bytes(dl.as_slice(), al.as_slice());
    match location_is_dir {
        Option::None => named,
        Option::Some(d) => named && d,
    }
}

/// Is any signal in a probe-result list positive?
pub fn any_signal(results: &Vec<bool>) -> (r: bool)
    ensures
        r == exists|i: int| 0 <= i < results@.len() && results@[i],
{
    let mut i: usize = 0;
    while i < results.len()
        invariant
            i <= results@.len(),
            forall|j: int| 0 <= j < i ==> !results@[j],
        decreases results@.len() - i,
    {
        if results[i] {
            return true;
        }
        i = i + 1;
    }
    false
}

/// The final verdict of one detection pass.  The file-existence signal is
/// authoritative by design: the registry and uninstall signals are computed
/// for diagnostics only and never enter the decision.
pub fn detection_verdict(registry_signal: bool, file_signal: bool, uninstall_signal: bool) -> (r:
    bool)
    ensures
        r == file_signal,
{
    let _ = registry_signal;
    let _ = uninstall_signal;
    file_signal
}

/// A descriptor after a verdict has been applied: only the installed flag
/// moves.
pub open spec fn applied_verdict(d: AppDescriptor, verdict: bool) -> AppDescriptor {
    AppDescriptor {
        name: d.name,
        category: d.category,
        installer_id: d.installer_id,
        registry_probes: d.registry_probes,
        path_probes: d.path_probes,
        installed: verdict,
    }
}

/// Apply a detection verdict to a descriptor, reporting whether its
/// installed state flipped (the caller logs exactly the flips).
pub fn apply_verdict(d: &mut AppDescriptor, verdict: bool) -> (changed: bool)
    ensures
        *final(d) == applied_verdict(*old(d), verdict),
        changed == (old(d).installed != verdict),
{
    let changed = d.installed != verdict;
    d.installed = verdict;
    changed
}

/// Law: detection is idempotent.  Applying the same verdict a second time
/// leaves the descriptor exactly as it was and reports no flip, so an
/// unchanged filesystem produces no state change and no duplicate log entry
/// on the next cycle.
pub proof fn lemma_detection_idempotent(d: AppDescriptor, verdict: bool)
    ensures
        applied_verdict(applied_verdict(d, verdict), verdict) == applied_verdict(d, verdict),
        applied_verdict(d, verdict).installed == verdict,
{
}

} // verus!

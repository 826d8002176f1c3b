//! The installer pipeline: an asynchronous download-and-run state machine.
//!
//! The pipeline's decisions are pure functions from the outcome of each I/O
//! step to the next action and the messages reported over the progress
//! channel; the executable shell performs the actual network, file and
//! process work and feeds the outcomes back.  A whole run can also be
//! replayed against a scripted set of outcomes, which is how the pipeline's
//! laws are stated and tested.

use crate::catalog::AppDescriptor;
use crate::text::{bytes_eq, joined, join_bytes};
use vstd::prelude::*;
use vstd::string::StringSliceAdditionalSpecFns;

verus! {

/// Why a pipeline run failed.
#[derive(Clone, Copy, PartialEq, Eq, Structural, Debug)]
pub enum FailureReason {
    /// The HTTP response carried a non-success status.
    HttpStatus(u16),
    /// The response stream broke before completion.
    Transport,
    /// An artifact already on disk could not be removed (commonly: it is
    /// locked by a running instance).
    LockedArtifact,
    /// The artifact file could not be created for writing.
    CreateFailed,
    /// A response chunk could not be written to the artifact.
    WriteFailed,
    /// The downloaded artifact could not be spawned.
    SpawnFailed,
    /// Waiting on the spawned artifact failed.
    WaitFailed,
}

/// A pipeline error: either nothing was selected, or the download-and-run
/// sequence failed for the given reason.
#[derive(Clone, Copy, PartialEq, Eq, Structural, Debug)]
pub enum InstallerError {
    /// `start` was called with an empty selection.
    NoAppsSelected,
    /// The run failed; the reason says at which step.
    DownloadFailed(FailureReason),
}

/// The publicly observable state of the installer.
#[derive(Clone, Copy, PartialEq, Eq, Structural, Debug)]
pub enum InstallerState {
    /// No run is active.
    Idle,
    /// The artifact is being downloaded.
    Downloading,
    /// The artifact is running.
    Installing,
    /// A run failed; leaving this state takes an explicit retry.
    Error(FailureReason),
}

/// A download fraction: `numer` of `denom` bytes, never more than whole.
#[derive(Clone, Copy, PartialEq, Eq, Structural, Debug)]
pub struct ProgressFraction {
    /// Bytes accounted for, capped at `denom`.
    pub numer: u64,
    /// The expected total; always positive.
    pub denom: u64,
}

/// One message over the ordered pipeline-to-consumer channel.
#[derive(Clone, Copy, PartialEq, Eq, Structural, Debug)]
pub enum ProgressMessage {
    /// Download progress so far; emitted only when the total is known.
    ProgressUpdate(ProgressFraction),
    /// The installer entered a new state.
    StateChanged(InstallerState),
    /// The run failed for the given reason.
    Failed(FailureReason),
}

/// Fraction `a` is at most fraction `b` (compared as rationals).
pub open spec fn frac_le(a: ProgressFraction, b: ProgressFraction) -> bool {
    a.numer * b.denom <= b.numer * a.denom
}

/// A successful HTTP status.
pub open spec fn is_success_status(status: u16) -> bool {
    200 <= status < 300
}

/// Decimal digits of `n`, most significant first.
pub open spec fn dec_rep(n: int) -> Seq<u8>
    decreases n,
{
    if n < 10 {
        seq![(48 + if n >= 0 { n } else { 0 }) as u8]
    } else {
        dec_rep(n / 10).push((48 + n % 10) as u8)
    }
}

/// Append the decimal digits of `n`.
fn push_dec(out: &mut Vec<u8>, n: u64)
    ensures
        final(out)@ == old(out)@ + dec_rep(n as int),
    decreases n,
{
    if n < 10 {
        out.push(48 + n as u8);
        proof {
            assert(out@ =~= old(out)@ + dec_rep(n as int));
        }
    } else {
        push_dec(out, n / 10);
        out.push(48 + (n % 10) as u8);
        proof {
            assert(out@ =~= old(out)@ + dec_rep(n as int));
        }
    }
}

/// What went wrong at the failed step, as text.
pub open spec fn reason_text_spec(reason: FailureReason) -> Seq<u8> {
    match reason {
        FailureReason::HttpStatus(status) => "Server returned: ".spec_bytes() + dec_rep(
            status as int,
        ),
        FailureReason::Transport => "Download stream interrupted".spec_bytes(),
        FailureReason::LockedArtifact => "Could not remove existing installer file. Please close any running installers and try again.".spec_bytes(),
        FailureReason::CreateFailed => "Could not create installer file".spec_bytes(),
        FailureReason::WriteFailed => "Failed to write installer".spec_bytes(),
        FailureReason::SpawnFailed => "Failed to launch installer".spec_bytes(),
        FailureReason::WaitFailed => "Failed to wait for installer".spec_bytes(),
    }
}

/// The user-facing text of an error: a failed download announces itself
/// before saying at which step it failed.
pub open spec fn error_text_spec(e: InstallerError) -> Seq<u8> {
    match e {
        InstallerError::NoAppsSelected => "No apps selected".spec_bytes(),
        InstallerError::DownloadFailed(reason) => "Download failed: ".spec_bytes()
            + reason_text_spec(reason),
    }
}

/// Render an error as text for display and logging.
pub fn error_text(e: &InstallerError) -> (r: Vec<u8>)
    ensures
        r@ == error_text_spec(*e),
{
    match e {
        InstallerError::NoAppsSelected => vstd::slice::slice_to_vec(
            "No apps selected".as_bytes(),
        ),
        InstallerError::DownloadFailed(reason) => {
            let mut r = vstd::slice::slice_to_vec("Download failed: ".as_bytes());
            match reason {
                FailureReason::HttpStatus(status) => {
                    r.extend_from_slice("Server returned: ".as_bytes());
                    push_dec(&mut r, *status as u64);
                },
                FailureReason::Transport => {
                    r.extend_from_slice("Download stream interrupted".as_bytes());
                },
                FailureReason::LockedArtifact => {
                    r.extend_from_slice(
                        "Could not remove existing installer file. Please close any running installers and try again.".as_bytes(),
                    );
                },
                FailureReason::CreateFailed => {
                    r.extend_from_slice("Could not create installer file".as_bytes());
                },
                FailureReason::WriteFailed => {
                    r.extend_from_slice("Failed to write installer".as_bytes());
                },
                FailureReason::SpawnFailed => {
                    r.extend_from_slice("Failed to launch installer".as_bytes());
                },
                FailureReason::WaitFailed => {
                    r.extend_from_slice("Failed to wait for installer".as_bytes());
                },
            }
            proof {
                assert(r@ =~= error_text_spec(*e));
            }
            r
        },
    }
}

/// The installer identifier of the first catalog entry named `name`,
/// scanning from offset `i`.
pub open spec fn catalog_lookup_from(
    catalog: Seq<AppDescriptor>,
    name: Seq<u8>,
    i: int,
) -> Option<Seq<u8>>
    decreases catalog.len() - i,
{
    if i < 0 || i >= catalog.len() {
        Option::None
    } else if catalog[i].name@ == name {
        Option::Some(catalog[i].installer_id@)
    } else {
        catalog_lookup_from(catalog, name, i + 1)
    }
}

/// The installer identifier a selected name resolves to, if any.
pub open spec fn catalog_lookup(catalog: Seq<AppDescriptor>, name: Seq<u8>) -> Option<Seq<u8>> {
    catalog_lookup_from(catalog, name, 0)
}

/// The identifiers the selected names resolve to, in selection order;
/// unresolvable names are silently skipped.
pub open spec fn resolved_ids(selected: Seq<Seq<u8>>, catalog: Seq<AppDescriptor>) -> Seq<Seq<u8>>
    decreases selected.len(),
{
    if selected.len() == 0 {
        Seq::empty()
    } else {
        let pre = resolved_ids(selected.drop_last(), catalog);
        match catalog_lookup(catalog, selected.last()) {
            Option::Some(id) => pre.push(id),
            Option::None => pre,
        }
    }
}

/// Resolve the selected application names against the catalog.
pub fn resolve_ids(selected: &Vec<Vec<u8>>, catalog: &Vec<AppDescriptor>) -> (r: Vec<Vec<u8>>)
    ensures
        r.deep_view() == resolved_ids(selected.deep_view(), catalog@),
{
    let mut r: Vec<Vec<u8>> = Vec::new();
    let mut i: usize = 0;
    let ghost dv = selected.deep_view();
    proof {
        assert forall|k: int| 0 <= k < selected@.len() implies dv[k] == (
        #[trigger] selected@[k])@ by {
            assert(selected@[k].deep_view() =~= selected@[k]@);
        }
        assert(dv.subrange(0, 0) =~= Seq::<Seq<u8>>::empty());
    }
    while i < selected.len()
        invariant
            i <= selected@.len(),
            dv == selected.deep_view(),
            dv.len() == selected@.len(),
            forall|k: int| 0 <= k < selected@.len() ==> dv[k] == (#[trigger] selected@[k])@,
            r@.len() == resolved_ids(dv.subrange(0, i as int), catalog@).len(),
            forall|k: int|
                0 <= k < r@.len() ==> (#[trigger] r@[k])@ == resolved_ids(
                    dv.subrange(0, i as int),
                    catalog@,
                )[k],
        decreases selected@.len() - i,
    {
        let found = lookup_installer_id(catalog, selected[i].as_slice());
        match found {
            Option::Some(id) => {
                r.push(id);
            },
            Option::None => {},
        }
        i = i + 1;
        proof {
            assert(dv.subrange(0, i as int).drop_last() =~= dv.subrange(0, i - 1));
            assert(dv.subrange(0, i as int).last() == dv[i - 1]);
        }
    }
    proof {
        assert(dv.subrange(0, dv.len() as int) =~= dv);
        assert forall|k: int| 0 <= k < r@.len() implies r.deep_view()[k] == resolved_ids(
            dv,
            catalog@,
        )[k] by {
            assert(r@[k].deep_view() =~= r@[k]@);
        }
        assert(r.deep_view() =~= resolved_ids(dv, catalog@));
    }
    r
}

/// Scan the catalog for a name and hand back a copy of its identifier.
fn lookup_installer_id(catalog: &Vec<AppDescriptor>, name: &[u8]) -> (r: Option<Vec<u8>>)
    ensures
        match r {
            Option::Some(id) => catalog_lookup(catalog@, name@) == Option::Some(id@),
            Option::None => catalog_lookup(catalog@, name@) == Option::<Seq<u8>>::None,
        },
{
    let mut i: usize = 0;
    while i < catalog.len()
        invariant
            i <= catalog@.len(),
            catalog_lookup(catalog@, name@) == catalog_lookup_from(catalog@, name@, i as int),
        decreases catalog@.len() - i,
    {
        if bytes_eq(catalog[i].name.as_slice(), name) {
            return Option::Some(vstd::slice::slice_to_vec(catalog[i].installer_id.as_slice()));
        }
        i = i + 1;
    }
    Option::None
}

/// The endpoint template's prefix.
pub open spec fn url_prefix() -> Seq<u8> {
    "https://ninite.com/".spec_bytes()
}

/// The separator between installer identifiers in the endpoint path.
pub open spec fn id_separator() -> Seq<u8> {
    "-".spec_bytes()
}

/// The endpoint template's suffix.
pub open spec fn url_suffix() -> Seq<u8> {
    "/ninite.exe".spec_bytes()
}

/// The composed download endpoint for a list of installer identifiers.
pub open spec fn composed_url(ids: Seq<Seq<u8>>) -> Seq<u8> {
    url_prefix() + joined(ids, id_separator()) + url_suffix()
}

/// Compose the single download endpoint for the resolved identifiers.
pub fn compose_url(ids: &Vec<Vec<u8>>) -> (r: Vec<u8>)
    ensures
        r@ == composed_url(ids.deep_view()),
{
    let mut r = vstd::slice::slice_to_vec("https://ninite.com/".as_bytes());
    let j = join_bytes(ids, "-".as_bytes());
    r.extend_from_slice(j.as_slice());
    r.extend_from_slice("/ninite.exe".as_bytes());
    proof {
        assert(r@ =~= composed_url(ids.deep_view()));
    }
    r
}

/// The capped progress fraction after `downloaded` of `total` bytes.
pub open spec fn progress_of(downloaded: u64, total: u64) -> ProgressFraction {
    ProgressFraction {
        numer: if downloaded >= total {
            total
        } else {
            downloaded
        },
        denom: total,
    }
}

/// An active download: the composed endpoint, the expected size and the
/// bytes received so far.
pub struct DownloadSession {
    /// The composed download endpoint.
    pub url: Vec<u8>,
    /// The response's content length; zero when the server did not say.
    pub total_size: u64,
    /// Bytes received and written so far.
    pub downloaded: u64,
}

/// Begin a pipeline run for the selected application names.
///
/// An empty selection fails immediately — no message, no session, no network
/// action.  Otherwise the selection is resolved against the catalog, the
/// endpoint is composed from the identifiers that resolved, and the one
/// state-change message announcing the download is handed back with the
/// fresh session.
pub fn start(selected: &Vec<Vec<u8>>, catalog: &Vec<AppDescriptor>) -> (r: Result<
    (DownloadSession, ProgressMessage),
    InstallerError,
>)
    ensures
        selected@.len() == 0 <==> r is Err,
        match r {
            Result::Ok(sm) => {
                &&& sm.0.url@ == composed_url(resolved_ids(selected.deep_view(), catalog@))
                &&& sm.0.total_size == 0
                &&& sm.0.downloaded == 0
                &&& sm.1 == ProgressMessage::StateChanged(InstallerState::Downloading)
            },
            Result::Err(e) => e == InstallerError::NoAppsSelected,
        },
{
    if selected.len() == 0 {
        return Result::Err(InstallerError::NoAppsSelected);
    }
    let ids = resolve_ids(selected, catalog);
    let url = compose_url(&ids);
    Result::Ok(
        (
            DownloadSession { url, total_size: 0, downloaded: 0 },
            ProgressMessage::StateChanged(InstallerState::Downloading),
        ),
    )
}

/// Judge the response status: a non-success status fails the run.
pub fn on_status(status: u16) -> (r: Result<(), InstallerError>)
    ensures
        r is Ok <==> is_success_status(status),
        !is_success_status(status) ==> r == Result::<(), InstallerError>::Err(
            InstallerError::DownloadFailed(FailureReason::HttpStatus(status)),
        ),
{
    if 200 <= status && status < 300 {
        Result::Ok(())
    } else {
        Result::Err(InstallerError::DownloadFailed(FailureReason::HttpStatus(status)))
    }
}

/// Judge the removal of a pre-existing artifact: the run aborts, before any
/// write, when the leftover cannot be removed.
pub fn on_remove_existing(removed: bool) -> (r: Result<(), InstallerError>)
    ensures
        r is Ok <==> removed,
        !removed ==> r == Result::<(), InstallerError>::Err(
            InstallerError::DownloadFailed(FailureReason::LockedArtifact),
        ),
{
    if removed {
        Result::Ok(())
    } else {
        Result::Err(InstallerError::DownloadFailed(FailureReason::LockedArtifact))
    }
}

/// Judge the creation of the artifact file.
pub fn on_create(created: bool) -> (r: Result<(), InstallerError>)
    ensures
        r is Ok <==> created,
        !created ==> r == Result::<(), InstallerError>::Err(
            InstallerError::DownloadFailed(FailureReason::CreateFailed),
        ),
{
    if created {
        Result::Ok(())
    } else {
        Result::Err(InstallerError::DownloadFailed(FailureReason::CreateFailed))
    }
}

/// Judge the spawn of the downloaded artifact.
pub fn on_spawn(spawned: bool) -> (r: Result<(), InstallerError>)
    ensures
        r is Ok <==> spawned,
        !spawned ==> r == Result::<(), InstallerError>::Err(
            InstallerError::DownloadFailed(FailureReason::SpawnFailed),
        ),
{
    if spawned {
        Result::Ok(())
    } else {
        Result::Err(InstallerError::DownloadFailed(FailureReason::SpawnFailed))
    }
}

/// Judge the wait on the spawned artifact: a clean exit — whatever the exit
/// code — completes the run and announces the return to rest.
pub fn on_wait(waited: bool) -> (r: Result<ProgressMessage, InstallerError>)
    ensures
        r is Ok <==> waited,
        waited ==> r == Result::<ProgressMessage, InstallerError>::Ok(
            ProgressMessage::StateChanged(InstallerState::Idle),
        ),
        !waited ==> r == Result::<ProgressMessage, InstallerError>::Err(
            InstallerError::DownloadFailed(FailureReason::WaitFailed),
        ),
{
    if waited {
        Result::Ok(ProgressMessage::StateChanged(InstallerState::Idle))
    } else {
        Result::Err(InstallerError::DownloadFailed(FailureReason::WaitFailed))
    }
}

impl DownloadSession {
    /// Store the content length announced by the response; zero stands for
    /// an unknown length, and suppresses progress reporting.
    pub fn set_content_length(&mut self, len: u64)
        ensures
            final(self).url == old(self).url,
            final(self).total_size == len,
            final(self).downloaded == old(self).downloaded,
    {
        self.total_size = len;
    }

    /// Account one response chunk.  A failed write fails the run (the shell
    /// then removes the partial artifact); a successful write advances the
    /// byte count and, when the total is known, reports the capped fraction.
    pub fn on_chunk(&mut self, len: u64, write_ok: bool) -> (r: Result<
        Option<ProgressMessage>,
        InstallerError,
    >)
        ensures
            final(self).url == old(self).url,
            final(self).total_size == old(self).total_size,
            !write_ok ==> final(self).downloaded == old(self).downloaded && r == Result::<
                Option<ProgressMessage>,
                InstallerError,
            >::Err(InstallerError::DownloadFailed(FailureReason::WriteFailed)),
            write_ok ==> {
                &&& final(self).downloaded == crate::counters::saturated_total(
                    old(self).downloaded,
                    len as int,
                )
                &&& (old(self).total_size > 0 ==> r == Result::<
                    Option<ProgressMessage>,
                    InstallerError,
                >::Ok(
                    Option::Some(
                        ProgressMessage::ProgressUpdate(
                            progress_of(final(self).downloaded, old(self).total_size),
                        ),
                    ),
                ))
                &&& (old(self).total_size == 0 ==> r == Result::<
                    Option<ProgressMessage>,
                    InstallerError,
                >::Ok(Option::None))
            },
    {
        if !write_ok {
            return Result::Err(InstallerError::DownloadFailed(FailureReason::WriteFailed));
        }
        self.downloaded = self.downloaded.saturating_add(len);
        if self.total_size > 0 {
            let numer = if self.downloaded >= self.total_size {
                self.total_size
            } else {
                self.downloaded
            };
            Result::Ok(
                Option::Some(
                    ProgressMessage::ProgressUpdate(
                        ProgressFraction { numer, denom: self.total_size },
                    ),
                ),
            )
        } else {
            Result::Ok(Option::None)
        }
    }

    /// The stream ended cleanly: the artifact is complete and the run moves
    /// on to executing it.
    pub fn on_download_complete(&self) -> (r: ProgressMessage)
        ensures
            r == ProgressMessage::StateChanged(InstallerState::Installing),
    {
        ProgressMessage::StateChanged(InstallerState::Installing)
    }
}

/// One event on the response stream, as a scripted outcome.
#[derive(Clone, Copy, PartialEq, Eq, Structural, Debug)]
pub enum ChunkEvent {
    /// A chunk of `len` bytes arrived; `write_ok` says whether writing it to
    /// the artifact succeeded.
    Chunk { len: u64, write_ok: bool },
    /// The stream broke before completion.
    TransportFailed,
}

/// Scripted outcomes for every I/O step of one pipeline run.
pub struct DownloadScript {
    /// The HTTP status of the response.
    pub status: u16,
    /// The announced content length; zero when unknown.
    pub content_length: u64,
    /// Whether an artifact already sits at the target path.
    pub artifact_exists: bool,
    /// Whether removing that pre-existing artifact succeeds.
    pub remove_existing_ok: bool,
    /// Whether creating the artifact file succeeds.
    pub create_ok: bool,
    /// The stream events, consumed until the first failure or the end.
    pub chunks: Vec<ChunkEvent>,
    /// Whether spawning the artifact succeeds.
    pub spawn_ok: bool,
    /// Whether waiting on the spawned process succeeds.
    pub wait_ok: bool,
    /// Whether the best-effort delete on a failure path succeeds.
    pub failure_cleanup_ok: bool,
    /// Whether the best-effort delete after a successful install succeeds.
    pub final_delete_ok: bool,
}

/// What one run produced: the composed endpoint, the messages in emission
/// order, the outcome, and whether an artifact file is left on disk.
pub struct RunReport {
    /// The composed endpoint; empty when the run failed before composing it.
    pub url: Vec<u8>,
    /// Every message emitted over the channel, in order.
    pub messages: Vec<ProgressMessage>,
    /// How the run ended.
    pub outcome: Result<(), InstallerError>,
    /// Whether an artifact file remains at the target path.
    pub artifact_present: bool,
}

/// The messages and outcome of the chunk-consumption phase, starting with
/// `downloaded` bytes accounted for: the progress messages in order, and
/// either the final byte count or the failure that stopped the stream.
pub open spec fn chunk_phase(chunks: Seq<ChunkEvent>, downloaded: u64, total: u64) -> (
    Seq<ProgressMessage>,
    Result<u64, FailureReason>,
)
    decreases chunks.len(),
{
    if chunks.len() == 0 {
        (Seq::empty(), Result::Ok(downloaded))
    } else {
        match chunks[0] {
            ChunkEvent::TransportFailed => (
                Seq::empty(),
                Result::Err(FailureReason::Transport),
            ),
            ChunkEvent::Chunk { len, write_ok } => {
                if !write_ok {
                    (Seq::empty(), Result::Err(FailureReason::WriteFailed))
                } else {
                    let d2 = crate::counters::saturated_total(downloaded, len as int) as u64;
                    let rest = chunk_phase(chunks.drop_first(), d2, total);
                    if total > 0 {
                        (
                            seq![ProgressMessage::ProgressUpdate(progress_of(d2, total))] + rest.0,
                            rest.1,
                        )
                    } else {
                        rest
                    }
                }
            },
        }
    }
}

/// The complete model of one run: the messages in order, the outcome, and
/// whether an artifact remains on disk.
pub open spec fn run_model(
    selected: Seq<Seq<u8>>,
    catalog: Seq<AppDescriptor>,
    script: DownloadScript,
) -> (Seq<ProgressMessage>, Result<(), InstallerError>, bool) {
    if selected.len() == 0 {
        (Seq::empty(), Result::Err(InstallerError::NoAppsSelected), script.artifact_exists)
    } else {
        let m0 = seq![ProgressMessage::StateChanged(InstallerState::Downloading)];
        if !is_success_status(script.status) {
            (
                m0.push(ProgressMessage::Failed(FailureReason::HttpStatus(script.status))),
                Result::Err(InstallerError::DownloadFailed(FailureReason::HttpStatus(script.status))),
                script.artifact_exists,
            )
        } else if script.artifact_exists && !script.remove_existing_ok {
            (
                m0.push(ProgressMessage::Failed(FailureReason::LockedArtifact)),
                Result::Err(InstallerError::DownloadFailed(FailureReason::LockedArtifact)),
                true,
            )
        } else if !script.create_ok {
            (
                m0.push(ProgressMessage::Failed(FailureReason::CreateFailed)),
                Result::Err(InstallerError::DownloadFailed(FailureReason::CreateFailed)),
                false,
            )
        } else {
            let cp = chunk_phase(script.chunks@, 0, script.content_length);
            match cp.1 {
                Result::Err(reason) => (
                    (m0 + cp.0).push(ProgressMessage::Failed(reason)),
                    Result::Err(InstallerError::DownloadFailed(reason)),
                    !script.failure_cleanup_ok,
                ),
                Result::Ok(_) => {
                    let m1 = (m0 + cp.0).push(
                        ProgressMessage::StateChanged(InstallerState::Installing),
                    );
                    if !script.spawn_ok {
                        (
                            m1.push(ProgressMessage::Failed(FailureReason::SpawnFailed)),
                            Result::Err(InstallerError::DownloadFailed(FailureReason::SpawnFailed)),
                            !script.failure_cleanup_ok,
                        )
                    } else if !script.wait_ok {
                        (
                            m1.push(ProgressMessage::Failed(FailureReason::WaitFailed)),
                            Result::Err(InstallerError::DownloadFailed(FailureReason::WaitFailed)),
                            !script.failure_cleanup_ok,
                        )
                    } else {
                        (
                            m1.push(ProgressMessage::StateChanged(InstallerState::Idle)),
                            Result::Ok(()),
                            !script.final_delete_ok,
                        )
                    }
                },
            }
        }
    }
}

/// Replay one whole run against scripted I/O outcomes, using the same
/// decision steps the live shell drives.  The report is exactly what the
/// model predicts.
#[verifier::loop_isolation(false)]
pub fn run_scripted(
    selected: &Vec<Vec<u8>>,
    catalog: &Vec<AppDescriptor>,
    script: &DownloadScript,
) -> (r: RunReport)
    ensures
        r.messages@ == run_model(selected.deep_view(), catalog@, *script).0,
        r.outcome == run_model(selected.deep_view(), catalog@, *script).1,
        r.artifact_present == run_model(selected.deep_view(), catalog@, *script).2,
        selected@.len() > 0 ==> r.url@ == composed_url(
            resolved_ids(selected.deep_view(), catalog@),
        ),
{
    proof {
        assert(selected.deep_view().len() == selected@.len());
    }
    let started = start(selected, catalog);
    let (mut session, first) = match started {
        Result::Err(e) => {
            return RunReport {
                url: Vec::new(),
                messages: Vec::new(),
                outcome: Result::Err(e),
                artifact_present: script.artifact_exists,
            };
        },
        Result::Ok(sm) => sm,
    };
    let mut messages: Vec<ProgressMessage> = Vec::new();
    messages.push(first);
    let ghost m0 = seq![ProgressMessage::StateChanged(InstallerState::Downloading)];
    proof {
        assert(messages@ =~= m0);
    }
    match on_status(script.status) {
        Result::Err(e) => {
            let reason = FailureReason::HttpStatus(script.status);
            messages.push(ProgressMessage::Failed(reason));
            proof {
                assert(messages@ =~= m0.push(ProgressMessage::Failed(reason)));
            }
            return RunReport {
                url: session.url,
                messages,
                outcome: Result::Err(e),
                artifact_present: script.artifact_exists,
            };
        },
        Result::Ok(_) => {},
    }
    if script.artifact_exists {
        match on_remove_existing(script.remove_existing_ok) {
            Result::Err(e) => {
                messages.push(ProgressMessage::Failed(FailureReason::LockedArtifact));
                proof {
                    assert(messages@ =~= m0.push(
                        ProgressMessage::Failed(FailureReason::LockedArtifact),
                    ));
                }
                return RunReport {
                    url: session.url,
                    messages,
                    outcome: Result::Err(e),
                    artifact_present: true,
                };
            },
            Result::Ok(_) => {},
        }
    }
    match on_create(script.create_ok) {
        Result::Err(e) => {
            messages.push(ProgressMessage::Failed(FailureReason::CreateFailed));
            proof {
                assert(messages@ =~= m0.push(ProgressMessage::Failed(FailureReason::CreateFailed)));
            }
            return RunReport {
                url: session.url,
                messages,
                outcome: Result::Err(e),
                artifact_present: false,
            };
        },
        Result::Ok(_) => {},
    }
    session.set_content_length(script.content_length);
    let ghost total = script.content_length;
    let ghost cp = chunk_phase(script.chunks@, 0, total);
    let ghost the_url = session.url@;
    let mut i: usize = 0;
    let ghost mut pre: Seq<ProgressMessage> = Seq::empty();
    proof {
        assert(script.chunks@.skip(0) =~= script.chunks@);
        assert(cp.0 =~= pre + chunk_phase(script.chunks@.skip(0), session.downloaded, total).0);
        assert(messages@ =~= m0 + pre);
    }
    while i < script.chunks.len()
        invariant
            i <= script.chunks@.len(),
            session.total_size == total,
            session.url@ == the_url,
            total == script.content_length,
            cp == chunk_phase(script.chunks@, 0, total),
            cp.0 == pre + chunk_phase(script.chunks@.skip(i as int), session.downloaded, total).0,
            cp.1 == chunk_phase(script.chunks@.skip(i as int), session.downloaded, total).1,
            messages@ == m0 + pre,
        decreases script.chunks@.len() - i,
    {
        let ghost rem = script.chunks@.skip(i as int);
        let ghost d_before = session.downloaded;
        proof {
            assert(rem[0] == script.chunks@[i as int]);
            assert(rem.drop_first() =~= script.chunks@.skip(i + 1));
        }
        let ev = script.chunks[i];
        match ev {
            ChunkEvent::TransportFailed => {
                proof {
                    assert(cp.0 =~= pre);
                }
                messages.push(ProgressMessage::Failed(FailureReason::Transport));
                proof {
                    assert(messages@ =~= (m0 + cp.0).push(
                        ProgressMessage::Failed(FailureReason::Transport),
                    ));
                }
                return RunReport {
                    url: session.url,
                    messages,
                    outcome: Result::Err(InstallerError::DownloadFailed(FailureReason::Transport)),
                    artifact_present: !script.failure_cleanup_ok,
                };
            },
            ChunkEvent::Chunk { len, write_ok } => {
                let step = session.on_chunk(len, write_ok);
                match step {
                    Result::Err(e) => {
                        proof {
                            assert(cp.0 =~= pre);
                        }
                        messages.push(ProgressMessage::Failed(FailureReason::WriteFailed));
                        proof {
                            assert(messages@ =~= (m0 + cp.0).push(
                                ProgressMessage::Failed(FailureReason::WriteFailed),
                            ));
                        }
                        return RunReport {
                            url: session.url,
                            messages,
                            outcome: Result::Err(e),
                            artifact_present: !script.failure_cleanup_ok,
                        };
                    },
                    Result::Ok(Option::Some(m)) => {
                        messages.push(m);
                        proof {
                            pre = pre.push(m);
                            assert(messages@ =~= m0 + pre);
                            assert(cp.0 =~= pre + chunk_phase(
                                script.chunks@.skip(i + 1),
                                session.downloaded,
                                total,
                            ).0);
                        }
                    },
                    Result::Ok(Option::None) => {},
                }
            },
        }
        i = i + 1;
    }
    proof {
        assert(script.chunks@.skip(script.chunks@.len() as int)
            =~= Seq::<ChunkEvent>::empty());
        assert(cp.0 =~= pre);
    }
    let installing = session.on_download_complete();
    messages.push(installing);
    match on_spawn(script.spawn_ok) {
        Result::Err(e) => {
            messages.push(ProgressMessage::Failed(FailureReason::SpawnFailed));
            return RunReport {
                url: session.url,
                messages,
                outcome: Result::Err(e),
                artifact_present: !script.failure_cleanup_ok,
            };
        },
        Result::Ok(_) => {},
    }
    match on_wait(script.wait_ok) {
        Result::Err(e) => {
            messages.push(ProgressMessage::Failed(FailureReason::WaitFailed));
            return RunReport {
                url: session.url,
                messages,
                outcome: Result::Err(e),
                artifact_present: !script.failure_cleanup_ok,
            };
        },
        Result::Ok(idle) => {
            messages.push(idle);
        },
    }
    RunReport {
        url: session.url,
        messages,
        outcome: Result::Ok(()),
        artifact_present: !script.final_delete_ok,
    }
}

/// The fraction carried by a progress message (a placeholder elsewhere).
pub open spec fn frac_in(m: ProgressMessage) -> ProgressFraction {
    match m {
        ProgressMessage::ProgressUpdate(f) => f,
        _ => ProgressFraction { numer: 0, denom: 1 },
    }
}

/// Did this stream event deliver a chunk that was also written?
pub open spec fn chunk_ok(e: ChunkEvent) -> bool {
    match e {
        ChunkEvent::Chunk { len, write_ok } => write_ok,
        ChunkEvent::TransportFailed => false,
    }
}

/// Every message of the chunk phase is a progress update whose denominator
/// is the known total, whose numerator never exceeds it nor falls below the
/// progress already made, and the updates never decrease.
pub proof fn lemma_chunk_phase_progress(chunks: Seq<ChunkEvent>, downloaded: u64, total: u64)
    ensures
        forall|i: int|
            0 <= i < chunk_phase(chunks, downloaded, total).0.len() ==> {
                let m = #[trigger] chunk_phase(chunks, downloaded, total).0[i];
                &&& m is ProgressUpdate
                &&& frac_in(m).denom == total
                &&& frac_in(m).numer <= total
                &&& frac_in(m).numer >= progress_of(downloaded, total).numer
            },
        forall|i: int, j: int|
            #![trigger chunk_phase(chunks, downloaded, total).0[i], chunk_phase(chunks, downloaded, total).0[j]]
            0 <= i <= j < chunk_phase(chunks, downloaded, total).0.len() ==> frac_in(
                chunk_phase(chunks, downloaded, total).0[i],
            ).numer <= frac_in(chunk_phase(chunks, downloaded, total).0[j]).numer,
    decreases chunks.len(),
{
    if chunks.len() > 0 {
        match chunks[0] {
            ChunkEvent::TransportFailed => {},
            ChunkEvent::Chunk { len, write_ok } => {
                if write_ok {
                    let d2 = crate::counters::saturated_total(downloaded, len as int) as u64;
                    lemma_chunk_phase_progress(chunks.drop_first(), d2, total);
                }
            },
        }
    }
}

/// The chunk phase succeeds exactly when every stream event delivered a
/// chunk that was written, and then accounts every byte, saturating.
pub proof fn lemma_chunk_phase_outcome(chunks: Seq<ChunkEvent>, downloaded: u64, total: u64)
    ensures
        chunk_phase(chunks, downloaded, total).1 is Ok <==> (forall|i: int|
            0 <= i < chunks.len() ==> chunk_ok(#[trigger] chunks[i])),
    decreases chunks.len(),
{
    if chunks.len() > 0 {
        match chunks[0] {
            ChunkEvent::TransportFailed => {},
            ChunkEvent::Chunk { len, write_ok } => {
                if write_ok {
                    let d2 = crate::counters::saturated_total(downloaded, len as int) as u64;
                    lemma_chunk_phase_outcome(chunks.drop_first(), d2, total);
                    if chunk_phase(chunks, downloaded, total).1 is Ok {
                        assert forall|i: int| 0 <= i < chunks.len() implies chunk_ok(
                            #[trigger] chunks[i],
                        ) by {
                            if i > 0 {
                                assert(chunks[i] == chunks.drop_first()[i - 1]);
                            }
                        }
                    } else {
                        assert(!chunk_ok(chunks.drop_first()[choose|i: int|
                            0 <= i < chunks.drop_first().len() && !chunk_ok(
                                chunks.drop_first()[i],
                            )]));
                    }
                }
            },
        }
    }
}

/// The bytes delivered by the first `k` stream events, counted on top of
/// `downloaded` bytes already accounted for, saturating.
pub open spec fn delivered_from(downloaded: u64, chunks: Seq<ChunkEvent>, k: int) -> u64
    decreases chunks.len(),
{
    if k <= 0 || chunks.len() == 0 {
        downloaded
    } else {
        match chunks[0] {
            ChunkEvent::Chunk { len, write_ok } => delivered_from(
                crate::counters::saturated_total(downloaded, len as int) as u64,
                chunks.drop_first(),
                k - 1,
            ),
            ChunkEvent::TransportFailed => delivered_from(downloaded, chunks.drop_first(), k - 1),
        }
    }
}

/// The bytes delivered by the first `k` stream events of a run.
pub open spec fn delivered(chunks: Seq<ChunkEvent>, k: int) -> u64 {
    delivered_from(0, chunks, k)
}

/// With a known total and a clean stream, the chunk phase emits exactly one
/// progress update per chunk, and the update after the `k`-th chunk reads
/// the bytes the first `k` chunks delivered, capped at the total.
pub proof fn lemma_chunk_phase_per_chunk(chunks: Seq<ChunkEvent>, downloaded: u64, total: u64)
    requires
        total > 0,
        forall|i: int| 0 <= i < chunks.len() ==> chunk_ok(#[trigger] chunks[i]),
    ensures
        chunk_phase(chunks, downloaded, total).0.len() == chunks.len(),
        forall|i: int|
            0 <= i < chunks.len() ==> #[trigger] chunk_phase(chunks, downloaded, total).0[i]
                == ProgressMessage::ProgressUpdate(
                progress_of(delivered_from(downloaded, chunks, i + 1), total),
            ),
    decreases chunks.len(),
{
    if chunks.len() > 0 {
        assert(chunk_ok(chunks[0]));
        match chunks[0] {
            ChunkEvent::TransportFailed => {},
            ChunkEvent::Chunk { len, write_ok } => {
                let d2 = crate::counters::saturated_total(downloaded, len as int) as u64;
                let rest = chunks.drop_first();
                assert forall|j: int| 0 <= j < rest.len() implies chunk_ok(
                    #[trigger] rest[j],
                ) by {
                    assert(rest[j] == chunks[j + 1]);
                }
                lemma_chunk_phase_per_chunk(rest, d2, total);
                assert forall|i: int|
                    0 <= i < chunks.len() implies #[trigger] chunk_phase(
                    chunks,
                    downloaded,
                    total,
                ).0[i] == ProgressMessage::ProgressUpdate(
                    progress_of(delivered_from(downloaded, chunks, i + 1), total),
                ) by {
                    assert(delivered_from(downloaded, chunks, i + 1) == delivered_from(
                        d2,
                        rest,
                        i,
                    ));
                    if i == 0 {
                        assert(delivered_from(d2, rest, 0) == d2);
                        assert(chunk_phase(chunks, downloaded, total).0[0]
                            == ProgressMessage::ProgressUpdate(progress_of(d2, total)));
                    } else {
                        assert(chunk_phase(chunks, downloaded, total).0[i] == chunk_phase(
                            rest,
                            d2,
                            total,
                        ).0[i - 1]);
                    }
                }
            },
        }
    }
}

/// Law: an empty selection fails synchronously with `NoAppsSelected`,
/// emits no message, and leaves the disk untouched.
pub proof fn lemma_run_empty_selection(
    selected: Seq<Seq<u8>>,
    catalog: Seq<AppDescriptor>,
    script: DownloadScript,
)
    requires
        selected.len() == 0,
    ensures
        run_model(selected, catalog, script).0 =~= Seq::<ProgressMessage>::empty(),
        run_model(selected, catalog, script).1 == Result::<(), InstallerError>::Err(
            InstallerError::NoAppsSelected,
        ),
        run_model(selected, catalog, script).2 == script.artifact_exists,
{
}

/// Law: a non-success response status produces exactly the download
/// announcement followed by one failure message, never reaches the
/// installing state, and leaves the disk exactly as it was.
pub proof fn lemma_run_status_failure(
    selected: Seq<Seq<u8>>,
    catalog: Seq<AppDescriptor>,
    script: DownloadScript,
)
    requires
        selected.len() > 0,
        !is_success_status(script.status),
    ensures
        run_model(selected, catalog, script).0 =~= seq![
            ProgressMessage::StateChanged(InstallerState::Downloading),
            ProgressMessage::Failed(FailureReason::HttpStatus(script.status)),
        ],
        run_model(selected, catalog, script).1 == Result::<(), InstallerError>::Err(
            InstallerError::DownloadFailed(FailureReason::HttpStatus(script.status)),
        ),
        run_model(selected, catalog, script).2 == script.artifact_exists,
        forall|i: int|
            0 <= i < run_model(selected, catalog, script).0.len() ==> run_model(
                selected,
                catalog,
                script,
            ).0[i] != ProgressMessage::StateChanged(InstallerState::Installing),
{
}

/// Law: progress updates never decrease.  Any two progress updates of one
/// run, in emission order, carry non-decreasing fractions.
pub proof fn lemma_run_progress_monotone(
    selected: Seq<Seq<u8>>,
    catalog: Seq<AppDescriptor>,
    script: DownloadScript,
)
    ensures
        forall|i: int, j: int|
            #![trigger run_model(selected, catalog, script).0[i], run_model(selected, catalog, script).0[j]]
            (0 <= i <= j < run_model(selected, catalog, script).0.len() && run_model(
                selected,
                catalog,
                script,
            ).0[i] is ProgressUpdate && run_model(selected, catalog, script).0[j] is ProgressUpdate)
                ==> frac_le(
                frac_in(run_model(selected, catalog, script).0[i]),
                frac_in(run_model(selected, catalog, script).0[j]),
            ),
{
    let ms = run_model(selected, catalog, script).0;
    if selected.len() > 0 && is_success_status(script.status) && (script.artifact_exists
        ==> script.remove_existing_ok) && script.create_ok {
        let cp = chunk_phase(script.chunks@, 0, script.content_length);
        lemma_chunk_phase_progress(script.chunks@, 0, script.content_length);
        assert forall|i: int, j: int|
            (0 <= i <= j < ms.len() && #[trigger] ms[i] is ProgressUpdate
                && #[trigger] ms[j] is ProgressUpdate) implies frac_le(
            frac_in(ms[i]),
            frac_in(ms[j]),
        ) by {
            assert(ms[i] == cp.0[i - 1]);
            assert(ms[j] == cp.0[j - 1]);
            let a = frac_in(ms[i]);
            let b = frac_in(ms[j]);
            assert(a.numer <= b.numer && a.denom == b.denom);
            assert(a.numer * b.denom <= b.numer * a.denom) by (nonlinear_arith)
                requires a.numer <= b.numer, a.denom == b.denom;
        }
    } else {
        assert forall|i: int|
            0 <= i < ms.len() implies !(#[trigger] ms[i] is ProgressUpdate) by {}
    }
}

/// Law: with a known total, a clean run emits the download announcement,
/// then exactly one progress update per chunk — the one after the `k`-th
/// chunk reading the bytes the first `k` chunks delivered, capped at the
/// total — then the change to installing and the return to rest.  The last
/// update reads exactly whole if and only if the stream delivered at least
/// the announced total.
pub proof fn lemma_run_progress_completes(
    selected: Seq<Seq<u8>>,
    catalog: Seq<AppDescriptor>,
    script: DownloadScript,
)
    requires
        selected.len() > 0,
        is_success_status(script.status),
        script.artifact_exists ==> script.remove_existing_ok,
        script.create_ok,
        script.spawn_ok,
        script.wait_ok,
        forall|i: int| 0 <= i < script.chunks@.len() ==> chunk_ok(#[trigger] script.chunks@[i]),
        script.content_length > 0,
    ensures
        ({
            let ms = run_model(selected, catalog, script).0;
            let n = script.chunks@.len() as int;
            &&& run_model(selected, catalog, script).1 is Ok
            &&& ms.len() == n + 3
            &&& ms[0] == ProgressMessage::StateChanged(InstallerState::Downloading)
            &&& (forall|k: int|
                #![trigger delivered(script.chunks@, k + 1)]
                0 <= k < n ==> ms[1 + k] == ProgressMessage::ProgressUpdate(
                    progress_of(delivered(script.chunks@, k + 1), script.content_length),
                ))
            &&& ms[n + 1] == ProgressMessage::StateChanged(InstallerState::Installing)
            &&& ms[n + 2] == ProgressMessage::StateChanged(InstallerState::Idle)
            &&& (n > 0 ==> (frac_in(ms[n]).numer == script.content_length <==> delivered(
                script.chunks@,
                n,
            ) >= script.content_length))
        }),
{
    lemma_chunk_phase_outcome(script.chunks@, 0, script.content_length);
    lemma_chunk_phase_per_chunk(script.chunks@, 0, script.content_length);
    let cp = chunk_phase(script.chunks@, 0, script.content_length);
    let ms = run_model(selected, catalog, script).0;
    let m0 = seq![ProgressMessage::StateChanged(InstallerState::Downloading)];
    let n = script.chunks@.len() as int;
    assert forall|k: int|
        #![trigger delivered(script.chunks@, k + 1)]
        0 <= k < n implies ms[1 + k] == ProgressMessage::ProgressUpdate(
        progress_of(delivered(script.chunks@, k + 1), script.content_length),
    ) by {
        assert(ms[1 + k] == (m0 + cp.0)[1 + k]);
        assert((m0 + cp.0)[1 + k] == cp.0[k]);
    }
}

/// Law: a run succeeds exactly when the selection was non-empty and every
/// I/O step went well; a successful run emits no failure message and ends
/// on the return to rest, and a failed run emits exactly one failure
/// message, as its last message.
pub proof fn lemma_run_outcome(
    selected: Seq<Seq<u8>>,
    catalog: Seq<AppDescriptor>,
    script: DownloadScript,
)
    ensures
        run_model(selected, catalog, script).1 is Ok <==> {
            &&& selected.len() > 0
            &&& is_success_status(script.status)
            &&& (script.artifact_exists ==> script.remove_existing_ok)
            &&& script.create_ok
            &&& (forall|i: int| 0 <= i < script.chunks@.len() ==> chunk_ok(#[trigger] script.chunks@[i]))
            &&& script.spawn_ok
            &&& script.wait_ok
        },
        run_model(selected, catalog, script).1 is Ok ==> {
            let ms = run_model(selected, catalog, script).0;
            &&& (forall|i: int| 0 <= i < ms.len() ==> !(#[trigger] ms[i] is Failed))
            &&& ms.len() > 0
            &&& ms.last() == ProgressMessage::StateChanged(InstallerState::Idle)
        },
        run_model(selected, catalog, script).1 is Err && selected.len() > 0 ==> {
            let ms = run_model(selected, catalog, script).0;
            &&& ms.len() > 0
            &&& ms.last() is Failed
            &&& (forall|i: int| 0 <= i < ms.len() - 1 ==> !(#[trigger] ms[i] is Failed))
        },
{
    lemma_chunk_phase_outcome(script.chunks@, 0, script.content_length);
    lemma_chunk_phase_progress(script.chunks@, 0, script.content_length);
}

} // verus!

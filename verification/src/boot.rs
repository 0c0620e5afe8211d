//! The first-run and boot sequence as a state machine: the program performs
//! each piece of work the machine asks for and reports back how it went; the
//! machine decides what comes next, which progress the window shows, and
//! which error ends the run.

use vstd::prelude::*;
use vstd::string::StringExecFns;
use crate::token::DashboardInfo;
use crate::wsl::{check_exit, exit_failure_text, SelfCheck};

verus! {

/// The stage a progress message belongs to; the window renders it.
#[derive(Debug, Clone, Copy)]
pub enum Stage {
    SelfCheck,
    Importing,
    Booting,
    Ready,
    Stopping,
    Error,
}

/// A progress message for the window: a stage, a percentage (or -1 when it
/// cannot be told), the key of the localized text, and the named parameters
/// of its placeholders (the window receives them as a JSON object).
pub struct Progress {
    pub stage: Stage,
    pub percent: i32,
    pub message_key: String,
    pub params: Vec<(String, String)>,
}

impl Progress {
    /// A message with no parameters (an empty JSON object for the window).
    pub fn new(stage: Stage, percent: i32, key: &str) -> (p: Progress)
        ensures
            p.stage == stage,
            p.percent == percent,
            p.message_key@ == key@,
            p.params@.len() == 0,
    {
        Progress { stage, percent, message_key: key.to_owned(), params: Vec::new() }
    }

    /// The same message with `params` for the text's placeholders.
    pub fn with_params(self, params: Vec<(String, String)>) -> (p: Progress)
        ensures
            p.stage == self.stage,
            p.percent == self.percent,
            p.message_key == self.message_key,
            p.params == params,
    {
        Progress { params, ..self }
    }
}

/// Where the boot sequence stands.
#[derive(Debug, Clone, Copy)]
pub enum BootPhase {
    Start,
    DetectingPaths,
    CheckingSystem,
    ListingDistros,
    CheckingRootfs,
    Decompressing,
    CreatingVhdDir,
    ImportingDistro,
    RemovingTempTar,
    PickingPort,
    StartingHermes,
    WaitingForDashboard,
    Ready,
    Failed,
}

/// What the program reports back after doing a piece of work.
pub enum BootEvent {
    /// The sequence is asked to start.
    Begin,
    /// The stick's root was found.
    PathsDetected,
    /// The system check ran.
    SelfChecked(SelfCheck),
    /// The distribution listing ran; whether the stick's distribution is in it.
    DistroListed(bool),
    /// Whether the bundled root file system exists, and where it was looked for.
    RootfsChecked { present: bool, location: String },
    /// The decompressor exited, with or without success, and its exit code.
    Decompressed { success: bool, code: Option<i32> },
    /// The folder for the distribution's disk was created on the stick.
    VhdDirCreated,
    /// The distribution was imported.
    DistroImported,
    /// The temporary tarball was removed (or its removal was given up).
    TempTarRemoved,
    /// A free local port was asked for; `None` when the system gave none.
    PortPicked(Option<u16>),
    /// The agent's entry process was started.
    HermesStarted,
    /// The dashboard announced itself.
    DashboardReady(DashboardInfo),
    /// The work failed; the text of its error.
    StepFailed(String),
}

/// An error that ends the sequence: what was being done, if the sequence
/// names it, and the error that caused it.
pub struct BootError {
    pub context: Option<String>,
    pub cause: String,
}

/// The work the program is asked to do next.
pub enum BootWork {
    DetectPaths,
    RunSelfCheck,
    ListDistros,
    CheckRootfs,
    Decompress,
    CreateVhdDir,
    ImportDistro,
    RemoveTempTar,
    PickPort,
    StartHermes { port: u16 },
    WaitForDashboard { timeout_secs: u64 },
    /// The dashboard is up: hand its address to the window.
    Finish(DashboardInfo),
    /// The sequence failed with this error.
    Fail(BootError),
    /// Nothing: the event did not fit the phase.
    Nothing,
}

/// The messages to show first, then the work to do.
pub struct BootAction {
    pub emit: Vec<Progress>,
    pub work: BootWork,
}

/// The port used when the system hands out no free one.
pub open spec fn fallback_port() -> u16 {
    9119
}

/// How long the dashboard is waited for, in seconds.
pub open spec fn dashboard_timeout_secs() -> u64 {
    45
}

/// The view of an optional text.
pub open spec fn opt_view(o: Option<String>) -> Option<Seq<char>> {
    match o {
        Some(s) => Some(s@),
        None => None,
    }
}

/// The text the window gets for a failed sequence: what was being done when
/// the sequence names it, else the cause.
pub open spec fn boot_error_text(e: BootError) -> Seq<char> {
    match e.context {
        Some(c) => c@,
        None => e.cause@,
    }
}

impl BootError {
    /// The text the window gets for this error.
    pub fn message(&self) -> (m: String)
        ensures
            m@ == boot_error_text(*self),
    {
        match &self.context {
            Some(c) => c.clone(),
            None => self.cause.clone(),
        }
    }
}

/// `p` shows `stage` at `percent` with the text `key`, and no parameters.
pub open spec fn shows(p: Progress, stage: Stage, percent: int, key: Seq<char>) -> bool {
    p.stage == stage && p.percent == percent && p.message_key@ == key && p.params@.len() == 0
}

/// The action shows no progress message.
pub open spec fn quiet(act: BootAction) -> bool {
    act.emit@.len() == 0
}

/// The action ends the sequence with the error `context`/`cause`.
pub open spec fn fails_with(act: BootAction, context: Option<Seq<char>>, cause: Seq<char>) -> bool {
    quiet(act) && (act.work matches BootWork::Fail(e) && opt_view(e.context) == context && e.cause@
        == cause)
}

/// What the sequence names the import of the root file system when it fails.
pub open spec fn import_context() -> Option<Seq<char>> {
    Some("import portable rootfs"@)
}

/// The cause given when the system check blocks: the blocker, or `unknown`.
pub open spec fn self_check_cause(blocker: Option<String>) -> Seq<char> {
    "WSL self-check failed: "@ + match blocker {
        Some(b) => b@,
        None => "unknown"@,
    }
}

/// The boot sequence, step by step: from `phase`, on `event`, the sequence
/// moves to `next` and asks for `act`. An event that does not fit the phase
/// changes nothing and asks for nothing.
pub open spec fn boot_step_spec(phase: BootPhase, event: BootEvent, next: BootPhase, act: BootAction) -> bool {
    match (phase, event) {
        (BootPhase::Start, BootEvent::Begin) => next == BootPhase::DetectingPaths && quiet(act)
            && act.work is DetectPaths,
        (BootPhase::DetectingPaths, BootEvent::PathsDetected) => next == BootPhase::CheckingSystem
            && act.emit@.len() == 1 && shows(act.emit@[0], Stage::SelfCheck, 5, "self_check_running"@)
            && act.work is RunSelfCheck,
        (BootPhase::DetectingPaths, BootEvent::StepFailed(c)) => next == BootPhase::Failed
            && fails_with(act, Some("detect paths"@), c@),
        (BootPhase::CheckingSystem, BootEvent::SelfChecked(r)) => if r.ok {
            next == BootPhase::ListingDistros && quiet(act) && act.work is ListDistros
        } else {
            next == BootPhase::Failed && fails_with(act, None, self_check_cause(r.blocker))
        },
        (BootPhase::CheckingSystem, BootEvent::StepFailed(c)) => next == BootPhase::Failed
            && fails_with(act, None, c@),
        (BootPhase::ListingDistros, BootEvent::DistroListed(exists)) => if exists {
            next == BootPhase::PickingPort && act.emit@.len() == 1 && shows(
                act.emit@[0],
                Stage::Booting,
                70,
                "booting_hermes"@,
            ) && act.work is PickPort
        } else {
            next == BootPhase::CheckingRootfs && act.emit@.len() == 2 && shows(
                act.emit@[0],
                Stage::Importing,
                10,
                "importing_first_run"@,
            ) && shows(act.emit@[1], Stage::Importing, 25, "decompressing_rootfs"@)
                && act.work is CheckRootfs
        },
        (BootPhase::ListingDistros, BootEvent::StepFailed(c)) => next == BootPhase::Failed
            && fails_with(act, None, c@),
        (BootPhase::CheckingRootfs, BootEvent::RootfsChecked { present, location }) => if present {
            next == BootPhase::Decompressing && quiet(act) && act.work is Decompress
        } else {
            next == BootPhase::Failed && fails_with(
                act,
                import_context(),
                "rootfs missing: "@ + location@ + " — the USB stick may be corrupted"@,
            )
        },
        (BootPhase::Decompressing, BootEvent::Decompressed { success, code }) => if success {
            next == BootPhase::CreatingVhdDir && quiet(act) && act.work is CreateVhdDir
        } else {
            next == BootPhase::Failed && fails_with(act, import_context(), exit_failure_text("zstd"@, code))
        },
        (BootPhase::CreatingVhdDir, BootEvent::VhdDirCreated) => next == BootPhase::ImportingDistro
            && act.emit@.len() == 1 && shows(act.emit@[0], Stage::Importing, 55, "importing_to_wsl"@)
            && act.work is ImportDistro,
        (BootPhase::ImportingDistro, BootEvent::DistroImported) => next == BootPhase::RemovingTempTar
            && quiet(act) && act.work is RemoveTempTar,
        (BootPhase::CheckingRootfs, BootEvent::StepFailed(c)) => next == BootPhase::Failed
            && fails_with(act, import_context(), c@),
        (BootPhase::Decompressing, BootEvent::StepFailed(c)) => next == BootPhase::Failed
            && fails_with(act, import_context(), c@),
        (BootPhase::CreatingVhdDir, BootEvent::StepFailed(c)) => next == BootPhase::Failed
            && fails_with(act, import_context(), c@),
        (BootPhase::ImportingDistro, BootEvent::StepFailed(c)) => next == BootPhase::Failed
            && fails_with(act, import_context(), c@),
        (BootPhase::RemovingTempTar, BootEvent::TempTarRemoved) | (
            BootPhase::RemovingTempTar,
            BootEvent::StepFailed(_),
        ) => next == BootPhase::PickingPort && act.emit@.len() == 1 && shows(
            act.emit@[0],
            Stage::Booting,
            70,
            "booting_hermes"@,
        ) && act.work is PickPort,
        (BootPhase::PickingPort, BootEvent::PortPicked(p)) => next == BootPhase::StartingHermes
            && quiet(act) && act.work == (BootWork::StartHermes {
                port: match p {
                    Some(q) => q,
                    None => fallback_port(),
                },
            }),
        (BootPhase::PickingPort, BootEvent::StepFailed(_)) => next == BootPhase::StartingHermes
            && quiet(act) && act.work == (BootWork::StartHermes { port: fallback_port() }),
        (BootPhase::StartingHermes, BootEvent::HermesStarted) => next
            == BootPhase::WaitingForDashboard && act.emit@.len() == 1 && shows(
            act.emit@[0],
            Stage::Booting,
            85,
            "waiting_for_dashboard"@,
        ) && act.work == (BootWork::WaitForDashboard { timeout_secs: dashboard_timeout_secs() }),
        (BootPhase::StartingHermes, BootEvent::StepFailed(c)) => next == BootPhase::Failed
            && fails_with(act, Some("start hermes inside WSL"@), c@),
        (BootPhase::WaitingForDashboard, BootEvent::DashboardReady(info)) => next == BootPhase::Ready
            && act.emit@.len() == 1 && shows(act.emit@[0], Stage::Ready, 100, "ready"@)
            && act.work == BootWork::Finish(info),
        (BootPhase::WaitingForDashboard, BootEvent::StepFailed(c)) => next == BootPhase::Failed
            && fails_with(act, Some("dashboard did not respond within 45s"@), c@),
        _ => next == phase && quiet(act) && act.work is Nothing,
    }
}

fn emit_one(stage: Stage, percent: i32, key: &str) -> (v: Vec<Progress>)
    ensures
        v@.len() == 1,
        shows(v@[0], stage, percent as int, key@),
{
    let mut v: Vec<Progress> = Vec::new();
    v.push(Progress::new(stage, percent, key));
    v
}

fn fail(context: Option<&str>, cause: String) -> (a: BootAction)
    ensures
        quiet(a),
        a.work matches BootWork::Fail(e) && e.cause == cause && opt_view(e.context) == match context {
            Some(c) => Some(c@),
            None => None::<Seq<char>>,
        },
{
    let context = match context {
        Some(c) => Some(c.to_owned()),
        None => None,
    };
    BootAction { emit: Vec::new(), work: BootWork::Fail(BootError { context, cause }) }
}

fn act(emit: Vec<Progress>, work: BootWork) -> (a: BootAction)
    ensures
        a.emit == emit,
        a.work == work,
{
    BootAction { emit, work }
}

/// One step of the boot sequence, as `boot_step_spec` states it.
pub fn boot_step(phase: BootPhase, event: BootEvent) -> (r: (BootPhase, BootAction))
    ensures
        boot_step_spec(phase, event, r.0, r.1),
{
    match (phase, event) {
        (BootPhase::Start, BootEvent::Begin) => (
            BootPhase::DetectingPaths,
            act(Vec::new(), BootWork::DetectPaths),
        ),
        (BootPhase::DetectingPaths, BootEvent::PathsDetected) => (
            BootPhase::CheckingSystem,
            act(emit_one(Stage::SelfCheck, 5, "self_check_running"), BootWork::RunSelfCheck),
        ),
        (BootPhase::DetectingPaths, BootEvent::StepFailed(c)) => (
            BootPhase::Failed,
            fail(Some("detect paths"), c),
        ),
        (BootPhase::CheckingSystem, BootEvent::SelfChecked(r)) => {
            if r.ok {
                (BootPhase::ListingDistros, act(Vec::new(), BootWork::ListDistros))
            } else {
                let mut cause = String::from_str("WSL self-check failed: ");
                match r.blocker {
                    Some(b) => cause.append(b.as_str()),
                    None => cause.append("unknown"),
                }
                (BootPhase::Failed, fail(None, cause))
            }
        },
        (BootPhase::CheckingSystem, BootEvent::StepFailed(c)) => (BootPhase::Failed, fail(None, c)),
        (BootPhase::ListingDistros, BootEvent::DistroListed(exists)) => {
            if exists {
                (
                    BootPhase::PickingPort,
                    act(emit_one(Stage::Booting, 70, "booting_hermes"), BootWork::PickPort),
                )
            } else {
                let mut v = emit_one(Stage::Importing, 10, "importing_first_run");
                v.push(Progress::new(Stage::Importing, 25, "decompressing_rootfs"));
                (BootPhase::CheckingRootfs, act(v, BootWork::CheckRootfs))
            }
        },
        (BootPhase::ListingDistros, BootEvent::StepFailed(c)) => (BootPhase::Failed, fail(None, c)),
        (BootPhase::CheckingRootfs, BootEvent::RootfsChecked { present, location }) => {
            if present {
                (BootPhase::Decompressing, act(Vec::new(), BootWork::Decompress))
            } else {
                let mut cause = String::from_str("rootfs missing: ");
                cause.append(location.as_str());
                cause.append(" — the USB stick may be corrupted");
                (BootPhase::Failed, fail(Some("import portable rootfs"), cause))
            }
        },
        (BootPhase::Decompressing, BootEvent::Decompressed { success, code }) => {
            match check_exit("zstd", success, code) {
                Ok(()) => (BootPhase::CreatingVhdDir, act(Vec::new(), BootWork::CreateVhdDir)),
                Err(cause) => (BootPhase::Failed, fail(Some("import portable rootfs"), cause)),
            }
        },
        (BootPhase::CreatingVhdDir, BootEvent::VhdDirCreated) => (
            BootPhase::ImportingDistro,
            act(emit_one(Stage::Importing, 55, "importing_to_wsl"), BootWork::ImportDistro),
        ),
        (BootPhase::ImportingDistro, BootEvent::DistroImported) => (
            BootPhase::RemovingTempTar,
            act(Vec::new(), BootWork::RemoveTempTar),
        ),
        (BootPhase::CheckingRootfs, BootEvent::StepFailed(c)) | (
            BootPhase::Decompressing,
            BootEvent::StepFailed(c),
        ) | (BootPhase::CreatingVhdDir, BootEvent::StepFailed(c)) | (
            BootPhase::ImportingDistro,
            BootEvent::StepFailed(c),
        ) => (BootPhase::Failed, fail(Some("import portable rootfs"), c)),
        (BootPhase::RemovingTempTar, BootEvent::TempTarRemoved) | (
            BootPhase::RemovingTempTar,
            BootEvent::StepFailed(_),
        ) => (
            BootPhase::PickingPort,
            act(emit_one(Stage::Booting, 70, "booting_hermes"), BootWork::PickPort),
        ),
        (BootPhase::PickingPort, BootEvent::PortPicked(p)) => {
            let port: u16 = match p {
                Some(q) => q,
                None => 9119,
            };
            (BootPhase::StartingHermes, act(Vec::new(), BootWork::StartHermes { port }))
        },
        (BootPhase::PickingPort, BootEvent::StepFailed(_)) => (
            BootPhase::StartingHermes,
            act(Vec::new(), BootWork::StartHermes { port: 9119 }),
        ),
        (BootPhase::StartingHermes, BootEvent::HermesStarted) => (
            BootPhase::WaitingForDashboard,
            act(
                emit_one(Stage::Booting, 85, "waiting_for_dashboard"),
                BootWork::WaitForDashboard { timeout_secs: 45 },
            ),
        ),
        (BootPhase::StartingHermes, BootEvent::StepFailed(c)) => (
            BootPhase::Failed,
            fail(Some("start hermes inside WSL"), c),
        ),
        (BootPhase::WaitingForDashboard, BootEvent::DashboardReady(info)) => (
            BootPhase::Ready,
            act(emit_one(Stage::Ready, 100, "ready"), BootWork::Finish(info)),
        ),
        (BootPhase::WaitingForDashboard, BootEvent::StepFailed(c)) => (
            BootPhase::Failed,
            fail(Some("dashboard did not respond within 45s"), c),
        ),
        (phase, _) => (phase, act(Vec::new(), BootWork::Nothing)),
    }
}

/// The percentage last shown on reaching `phase` (a failed sequence shows
/// nothing more, so it is given none).
pub open spec fn phase_progress(phase: BootPhase) -> int {
    match phase {
        BootPhase::Start | BootPhase::DetectingPaths => 0,
        BootPhase::CheckingSystem | BootPhase::ListingDistros => 5,
        BootPhase::CheckingRootfs | BootPhase::Decompressing | BootPhase::CreatingVhdDir => 25,
        BootPhase::ImportingDistro | BootPhase::RemovingTempTar => 55,
        BootPhase::PickingPort | BootPhase::StartingHermes => 70,
        BootPhase::WaitingForDashboard => 85,
        BootPhase::Ready => 100,
        BootPhase::Failed => 0,
    }
}

/// Progress never goes back: every step shows percentages above the one
/// shown last, in increasing order, and the phase it reaches remembers the
/// last of them; a failed sequence shows nothing more.
pub proof fn lemma_boot_progress_increases(phase: BootPhase, event: BootEvent, next: BootPhase, act: BootAction)
    requires
        boot_step_spec(phase, event, next, act),
    ensures
        forall|i: int| 0 <= i < act.emit@.len() ==> (#[trigger] act.emit@[i]).percent > phase_progress(phase),
        forall|i: int, j: int|
            0 <= i < j < act.emit@.len() ==> (#[trigger] act.emit@[i]).percent < (#[trigger] act.emit@[j]).percent,
        next != BootPhase::Failed ==> phase_progress(next) == if act.emit@.len() > 0 {
            act.emit@.last().percent as int
        } else {
            phase_progress(phase)
        },
        phase == BootPhase::Failed ==> act.emit@.len() == 0,
{
}

/// A finished or failed sequence stays so: it takes no event and asks for
/// no work.
pub proof fn lemma_boot_terminal(phase: BootPhase, event: BootEvent, next: BootPhase, act: BootAction)
    requires
        boot_step_spec(phase, event, next, act),
        phase == BootPhase::Ready || phase == BootPhase::Failed,
    ensures
        next == phase,
        act.emit@.len() == 0,
        act.work is Nothing,
{
}

/// The sequence ends only in its two ends: it hands over the dashboard only
/// on reaching `Ready`, after showing 100%, with the address that the
/// dashboard announced; and it fails only on reaching `Failed`.
pub proof fn lemma_boot_ends(phase: BootPhase, event: BootEvent, next: BootPhase, act: BootAction)
    requires
        boot_step_spec(phase, event, next, act),
    ensures
        act.work is Finish ==> next == BootPhase::Ready && act.emit@.len() == 1 && shows(
            act.emit@[0],
            Stage::Ready,
            100,
            "ready"@,
        ) && event == BootEvent::DashboardReady(act.work->Finish_0),
        act.work is Fail <==> (next == BootPhase::Failed && phase != BootPhase::Failed),
{
}

/// `phases`, `events` and `acts` record a run of the boot sequence: step `k`
/// took `phases[k]` on `events[k]` to `phases[k + 1]` and asked for `acts[k]`.
pub open spec fn is_boot_run(phases: Seq<BootPhase>, events: Seq<BootEvent>, acts: Seq<BootAction>) -> bool {
    &&& phases.len() == events.len() + 1
    &&& acts.len() == events.len()
    &&& forall|k: int|
        0 <= k < events.len() ==> boot_step_spec(phases[k], #[trigger] events[k], phases[k + 1], acts[k])
}

proof fn lemma_run_phase_progress(
    phases: Seq<BootPhase>,
    events: Seq<BootEvent>,
    acts: Seq<BootAction>,
    k: int,
    m: int,
)
    requires
        is_boot_run(phases, events, acts),
        0 <= k <= m < phases.len(),
        phases[m] != BootPhase::Failed,
    ensures
        phases[k] != BootPhase::Failed,
        phase_progress(phases[k]) <= phase_progress(phases[m]),
    decreases m - k,
{
    if k < m {
        lemma_run_phase_progress(phases, events, acts, k + 1, m);
        let e = events[k];
        lemma_boot_progress_increases(phases[k], e, phases[k + 1], acts[k]);
        if phases[k] == BootPhase::Failed {
            lemma_boot_terminal(phases[k], e, phases[k + 1], acts[k]);
        }
        if acts[k].emit@.len() > 0 {
            assert(acts[k].emit@.last() == acts[k].emit@[acts[k].emit@.len() - 1]);
        }
    }
}

/// Over a whole run, progress never goes back: every percentage shown is
/// above every one shown at an earlier step.
pub proof fn lemma_boot_run_progress(phases: Seq<BootPhase>, events: Seq<BootEvent>, acts: Seq<BootAction>)
    requires
        is_boot_run(phases, events, acts),
    ensures
        forall|i: int, j: int, a: int, b: int|
            0 <= i < j < acts.len() && 0 <= a < acts[i].emit@.len() && 0 <= b
                < acts[j].emit@.len() ==> (#[trigger] acts[i].emit@[a]).percent < (
            #[trigger] acts[j].emit@[b]).percent,
{
    assert forall|i: int, j: int, a: int, b: int|
        0 <= i < j < acts.len() && 0 <= a < acts[i].emit@.len() && 0 <= b
            < acts[j].emit@.len() implies (#[trigger] acts[i].emit@[a]).percent < (
        #[trigger] acts[j].emit@[b]).percent by {
        let ei = events[i];
        let ej = events[j];
        lemma_boot_progress_increases(phases[i], ei, phases[i + 1], acts[i]);
        lemma_boot_progress_increases(phases[j], ej, phases[j + 1], acts[j]);
        if phases[j] == BootPhase::Failed {
            lemma_boot_terminal(phases[j], ej, phases[j + 1], acts[j]);
        }
        lemma_run_phase_progress(phases, events, acts, i + 1, j);
        let n = acts[i].emit@.len();
        if phases[i + 1] == BootPhase::Failed {
            lemma_boot_ends(phases[i], ei, phases[i + 1], acts[i]);
            if phases[i] == BootPhase::Failed {
                lemma_boot_terminal(phases[i], ei, phases[i + 1], acts[i]);
            }
        }
        assert(acts[i].emit@.last() == acts[i].emit@[n - 1]);
        if a < n - 1 {
            assert(acts[i].emit@[a].percent < acts[i].emit@[n - 1].percent);
        }
    }
}

/// Every step that moves the sequence on asks for exactly the work whose
/// outcome the phase it reaches waits for: detecting the paths, the system
/// check, the listing, the root file system check, the decompression, the
/// disk folder, the import, the clean-up, the port, the agent's start and the
/// wait for the dashboard; reaching `Ready` hands over the dashboard and
/// reaching `Failed` fails. A step that does not move it asks for nothing.
pub proof fn lemma_boot_work_fits_phase(phase: BootPhase, event: BootEvent, next: BootPhase, act: BootAction)
    requires
        boot_step_spec(phase, event, next, act),
    ensures
        next == phase ==> act.work is Nothing && act.emit@.len() == 0,
        next != phase ==> !(act.work is Nothing),
        next == BootPhase::DetectingPaths && next != phase ==> act.work is DetectPaths,
        next == BootPhase::CheckingSystem && next != phase ==> act.work is RunSelfCheck,
        next == BootPhase::ListingDistros && next != phase ==> act.work is ListDistros,
        next == BootPhase::CheckingRootfs && next != phase ==> act.work is CheckRootfs,
        next == BootPhase::Decompressing && next != phase ==> act.work is Decompress,
        next == BootPhase::CreatingVhdDir && next != phase ==> act.work is CreateVhdDir,
        next == BootPhase::ImportingDistro && next != phase ==> act.work is ImportDistro,
        next == BootPhase::RemovingTempTar && next != phase ==> act.work is RemoveTempTar,
        next == BootPhase::PickingPort && next != phase ==> act.work is PickPort,
        next == BootPhase::StartingHermes && next != phase ==> act.work is StartHermes,
        next == BootPhase::WaitingForDashboard && next != phase ==> act.work
            == (BootWork::WaitForDashboard { timeout_secs: 45 }),
        next == BootPhase::Ready && next != phase ==> act.work is Finish,
        next == BootPhase::Failed && next != phase ==> act.work is Fail,
{
}

/// The agent starts on the port the system handed out, or on 9119 when it
/// handed out none.
pub proof fn lemma_boot_port(phase: BootPhase, event: BootEvent, next: BootPhase, act: BootAction)
    requires
        boot_step_spec(phase, event, next, act),
        act.work is StartHermes,
    ensures
        phase == BootPhase::PickingPort,
        event matches BootEvent::PortPicked(Some(p)) ==> act.work == (BootWork::StartHermes { port: p }),
        event matches BootEvent::PortPicked(None) ==> act.work == (BootWork::StartHermes { port: 9119 }),
        event is StepFailed ==> act.work == (BootWork::StartHermes { port: 9119 }),
{
}

/// On a later launch, with the stick's distribution already registered, the
/// import is skipped: the sequence shows `booting_hermes` at 70% and picks a
/// port; on the first launch it goes to the import.
pub proof fn lemma_boot_skips_import_when_registered(event: BootEvent, next: BootPhase, act: BootAction)
    requires
        boot_step_spec(BootPhase::ListingDistros, event, next, act),
    ensures
        event == BootEvent::DistroListed(true) ==> next == BootPhase::PickingPort && act.work is PickPort
            && act.emit@.len() == 1 && act.emit@[0].percent == 70 && act.emit@[0].stage
            == Stage::Booting && act.emit@[0].message_key@ == "booting_hermes"@,
        event == BootEvent::DistroListed(false) ==> next == BootPhase::CheckingRootfs
            && act.work is CheckRootfs,
{
}

/// How a failed piece of work ends the sequence: its error text is kept as
/// the cause; failures while finding the stick, starting the agent or
/// waiting for the dashboard are named by that work, any failure of the
/// import by `import portable rootfs`, and failures of the system check and
/// the listing are shown as they are. A failed clean-up or port request is
/// no failure: the sequence goes on (with port 9119 when none came).
pub proof fn lemma_boot_step_failures(phase: BootPhase, c: String, next: BootPhase, act: BootAction)
    requires
        boot_step_spec(phase, BootEvent::StepFailed(c), next, act),
    ensures
        phase == BootPhase::DetectingPaths ==> fails_with(act, Some("detect paths"@), c@),
        phase == BootPhase::CheckingSystem || phase == BootPhase::ListingDistros ==> fails_with(
            act,
            None,
            c@,
        ),
        phase == BootPhase::CheckingRootfs || phase == BootPhase::Decompressing || phase
            == BootPhase::CreatingVhdDir || phase == BootPhase::ImportingDistro ==> fails_with(
            act,
            Some("import portable rootfs"@),
            c@,
        ),
        phase == BootPhase::StartingHermes ==> fails_with(act, Some("start hermes inside WSL"@), c@),
        phase == BootPhase::WaitingForDashboard ==> fails_with(
            act,
            Some("dashboard did not respond within 45s"@),
            c@,
        ),
        act.work is Fail ==> next == BootPhase::Failed,
        phase == BootPhase::RemovingTempTar ==> next == BootPhase::PickingPort && act.work is PickPort,
        phase == BootPhase::PickingPort ==> next == BootPhase::StartingHermes && act.work
            == (BootWork::StartHermes { port: 9119 }),
{
}

} // verus!

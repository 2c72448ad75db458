//! The activation run as a state machine: from the current phase and the
//! outcome of the last operation, `step` decides the next phase and the
//! effects (downloads, checks, launches, progress reports, the final
//! report) that the caller performs in order.
use vstd::prelude::*;
use crate::text::{dec, push_char, push_decimal, push_str, str_eq};

verus! {

/// Raw URL of Activation64.dll.
pub const ACTIVATION64_URL: &'static str = "https://raw.githubusercontent.com/mabdelmoneam03/EA-SPORTS-FC-26/main/Activation64.dll";
/// Raw URL of CryptBase0.dll.
pub const CRYPTBASE0_URL: &'static str = "https://raw.githubusercontent.com/mabdelmoneam03/EA-SPORTS-FC-26/main/CryptBase0.dll";
/// Release URL of the game executable.
pub const FC26_URL: &'static str = "https://github.com/mabdelmoneam03/EA-SPORTS-FC-26/releases/download/V111/FC26.exe";
/// Raw URL of anadius64.dll.
pub const ANADIUS64_URL: &'static str = "https://raw.githubusercontent.com/mabdelmoneam03/EA-SPORTS-FC-26/main/anadius64.dll";
/// Raw URL of the FMM package.
pub const FMM_ZIP_RAW: &'static str = "https://raw.githubusercontent.com/mabdelmoneam03/EA-SPORTS-FC-26/main/FMM.zip";
/// Raw URL of the Live Editor package.
pub const LE_ZIP_RAW: &'static str = "https://raw.githubusercontent.com/mabdelmoneam03/EA-SPORTS-FC-26/main/Live%20Editor.zip";

/// The five downloads of an activation run, in the order they happen.
#[derive(Clone, Copy, Debug, PartialEq, Eq, Structural)]
pub enum Job {
    Activation64,
    CryptBase,
    Game,
    Anadius,
    Archive,
}

/// Where an activation run stands.
#[derive(Clone, Copy, Debug, PartialEq, Eq, Structural)]
pub enum Phase {
    Begin,
    Fetching(Job),
    CheckingExe,
    CheckingArchive,
    Extracting,
    Configuring,
    /// The game was asked to start; `rerun` is the check after the activator.
    Launching { rerun: bool },
    /// Waiting for the game process; `polls` have been made so far.
    Starting { rerun: bool, polls: u64 },
    Watching { rerun: bool },
    CreatingActivator,
    WritingActivator,
    RunningActivator,
    AwaitingActivator,
    Finished,
}

/// What the last operation came to.
#[derive(Debug)]
pub enum Outcome {
    Completed,
    Failed(String),
    /// The polled process is still running.
    Running,
    /// The polled or awaited process exited, with its exit code if it had one.
    Exited(Option<i32>),
    /// Whether a Denuvo ticket file appeared while watching.
    Ticket(bool),
}

/// Labels of progress reports.
#[derive(Clone, Copy, Debug, PartialEq, Eq, Structural)]
pub enum Stage {
    StartingDownloads,
    Extracting,
    PackageReady,
    ReadingVersion,
    GeneratingConfig,
    ConfigReady,
    RunningGame,
    WaitingForGame,
    CheckingTickets,
    Complete,
    TicketDetected,
    Preparing,
    RunningActivator,
    ActivatorRunning,
    ActivatorFinished,
    Rerunning,
    Reloaded,
}

/// Lines written to the log file.
#[derive(Debug)]
pub enum Note {
    Started,
    TicketsCleaned,
    StartingDownload(Job),
    DownloadFailed(Job, String),
}

/// The final report of a run.
#[derive(Debug)]
pub enum Report {
    Success,
    DownloadFailed(Job, String),
    ExeInvalid(String),
    ArchiveInvalid(String),
    ExtractFailed(String),
    ConfigFailed(String),
    LaunchFailed(String),
    ExitedEarly(Option<i32>),
    PollFailed(String),
    GameDidNotStart,
    TempFileFailed(String),
    WriteActivatorFailed(String),
    RunActivatorFailed(String),
    ActivatorFailed(Option<i32>),
    ActivatorWaitFailed(String),
    RelaunchFailed(String),
    RelaunchDidNotStart,
    TicketsRemain,
}

/// What the caller does, in order. The last effect of a step that is an
/// operation yields the outcome handed to the next step.
#[derive(Debug)]
pub enum Effect {
    RemoveLog,
    Log(Note),
    /// Delete every `Denuvo_ticket*` file in the game folder.
    CleanTickets,
    /// Report progress: a percentage and a label.
    Progress(u64, Stage),
    Download(Job),
    ValidateExe,
    ValidateArchive,
    Extract,
    RemoveArchive,
    /// Read the game version and write anadius.cfg.
    WriteConfig,
    LaunchGame,
    /// Sleep half a second, then ask whether the game is still running.
    PollGame,
    /// Watch the game folder for a ticket for `timeout_secs`, reporting progress at `base`.
    WatchTickets { timeout_secs: u64, base: u64 },
    /// Kill the game, wait for it, then sleep half a second.
    StopGame,
    CreateActivator,
    WriteActivator,
    HideDlls,
    RunActivator,
    AwaitActivator,
    RestoreDlls,
    RemoveActivator,
    Done(Report),
}

/// Number of polls made before the re-run game counts as not started.
pub const MAX_POLLS: u64 = 10;

/// Phases with a meaningful poll count.
pub open spec fn phase_wf(p: Phase) -> bool {
    match p {
        Phase::Starting { polls, .. } => 1 <= polls <= MAX_POLLS,
        _ => true,
    }
}

/// Which outcomes each phase can receive.
pub open spec fn fits(p: Phase, o: Outcome) -> bool {
    match p {
        Phase::Begin | Phase::Finished => true,
        Phase::Starting { .. } => o is Running || o is Exited || o is Failed,
        Phase::Watching { .. } => o is Ticket,
        Phase::AwaitingActivator => o is Completed || o is Exited || o is Failed,
        _ => o is Completed || o is Failed,
    }
}

/// Whether the conflicting DLLs are renamed away during this phase.
pub open spec fn dlls_hidden(p: Phase) -> bool {
    p is RunningActivator || p is AwaitingActivator
}

/// Percentage at which each download starts and ends.
pub open spec fn job_span(j: Job) -> (u64, u64) {
    match j {
        Job::Activation64 => (0, 5),
        Job::CryptBase => (5, 10),
        Job::Game => (10, 30),
        Job::Anadius => (30, 35),
        Job::Archive => (35, 43),
    }
}

/// Ending a run with a report and nothing else.
pub open spec fn done(r: Report) -> (Phase, Seq<Effect>) {
    (Phase::Finished, seq![Effect::Done(r)])
}

/// The transition table of an activation run.
pub open spec fn spec_step(p: Phase, o: Outcome) -> (Phase, Seq<Effect>) {
    match p {
        Phase::Begin => (Phase::Fetching(Job::Activation64), seq![
            Effect::RemoveLog,
            Effect::Log(Note::Started),
            Effect::CleanTickets,
            Effect::Log(Note::TicketsCleaned),
            Effect::Progress(0, Stage::StartingDownloads),
            Effect::Log(Note::StartingDownload(Job::Activation64)),
            Effect::Download(Job::Activation64),
        ]),
        Phase::Fetching(j) => match o {
            Outcome::Failed(e) => (Phase::Finished, seq![
                Effect::Log(Note::DownloadFailed(j, e)),
                Effect::Done(Report::DownloadFailed(j, e)),
            ]),
            _ => match j {
                Job::Activation64 => (Phase::Fetching(Job::CryptBase), seq![
                    Effect::Log(Note::StartingDownload(Job::CryptBase)),
                    Effect::Download(Job::CryptBase),
                ]),
                Job::CryptBase => (Phase::Fetching(Job::Game), seq![
                    Effect::Log(Note::StartingDownload(Job::Game)),
                    Effect::Download(Job::Game),
                ]),
                Job::Game => (Phase::CheckingExe, seq![Effect::ValidateExe]),
                Job::Anadius => (Phase::Fetching(Job::Archive), seq![
                    Effect::Log(Note::StartingDownload(Job::Archive)),
                    Effect::Download(Job::Archive),
                ]),
                Job::Archive => (Phase::CheckingArchive, seq![Effect::ValidateArchive]),
            },
        },
        Phase::CheckingExe => match o {
            Outcome::Failed(e) => done(Report::ExeInvalid(e)),
            _ => (Phase::Fetching(Job::Anadius), seq![
                Effect::Log(Note::StartingDownload(Job::Anadius)),
                Effect::Download(Job::Anadius),
            ]),
        },
        Phase::CheckingArchive => match o {
            Outcome::Failed(e) => (Phase::Finished, seq![
                Effect::RemoveArchive,
                Effect::Done(Report::ArchiveInvalid(e)),
            ]),
            _ => (Phase::Extracting, seq![Effect::Progress(43, Stage::Extracting), Effect::Extract]),
        },
        Phase::Extracting => match o {
            Outcome::Failed(e) => (Phase::Finished, seq![
                Effect::RemoveArchive,
                Effect::Done(Report::ExtractFailed(e)),
            ]),
            _ => (Phase::Configuring, seq![
                Effect::RemoveArchive,
                Effect::Progress(45, Stage::PackageReady),
                Effect::Progress(48, Stage::ReadingVersion),
                Effect::Progress(50, Stage::GeneratingConfig),
                Effect::WriteConfig,
            ]),
        },
        Phase::Configuring => match o {
            Outcome::Failed(e) => done(Report::ConfigFailed(e)),
            _ => (Phase::Launching { rerun: false }, seq![
                Effect::Progress(55, Stage::ConfigReady),
                Effect::Progress(58, Stage::RunningGame),
                Effect::LaunchGame,
            ]),
        },
        Phase::Launching { rerun } => match o {
            Outcome::Failed(e) => if rerun {
                done(Report::RelaunchFailed(e))
            } else {
                done(Report::LaunchFailed(e))
            },
            _ => if rerun {
                (Phase::Starting { rerun: true, polls: 1 }, seq![Effect::PollGame])
            } else {
                (Phase::Starting { rerun: false, polls: 1 }, seq![
                    Effect::Progress(59, Stage::WaitingForGame),
                    Effect::PollGame,
                ])
            },
        },
        Phase::Starting { rerun, polls } => match o {
            Outcome::Running => if rerun {
                (Phase::Watching { rerun: true }, seq![
                    Effect::Progress(94, Stage::Reloaded),
                    Effect::WatchTickets { timeout_secs: 3, base: 94 },
                ])
            } else {
                (Phase::Watching { rerun: false }, seq![
                    Effect::Progress(62, Stage::CheckingTickets),
                    Effect::WatchTickets { timeout_secs: 30, base: 62 },
                ])
            },
            Outcome::Exited(code) => if !rerun {
                done(Report::ExitedEarly(code))
            } else if polls < MAX_POLLS {
                (Phase::Starting { rerun: true, polls: (polls + 1) as u64 }, seq![Effect::PollGame])
            } else {
                done(Report::RelaunchDidNotStart)
            },
            Outcome::Failed(e) => if !rerun {
                done(Report::PollFailed(e))
            } else if polls < MAX_POLLS {
                (Phase::Starting { rerun: true, polls: (polls + 1) as u64 }, seq![Effect::PollGame])
            } else {
                done(Report::RelaunchDidNotStart)
            },
            _ => done(Report::GameDidNotStart),
        },
        Phase::Watching { rerun } => match o {
            Outcome::Ticket(true) => if rerun {
                done(Report::TicketsRemain)
            } else {
                (Phase::CreatingActivator, seq![
                    Effect::Progress(65, Stage::TicketDetected),
                    Effect::StopGame,
                    Effect::CreateActivator,
                ])
            },
            _ => if rerun {
                (Phase::Finished, seq![
                    Effect::Progress(100, Stage::Complete),
                    Effect::RemoveLog,
                    Effect::Done(Report::Success),
                ])
            } else {
                (Phase::Finished, seq![
                    Effect::Progress(100, Stage::Complete),
                    Effect::Done(Report::Success),
                ])
            },
        },
        Phase::CreatingActivator => match o {
            Outcome::Failed(e) => done(Report::TempFileFailed(e)),
            _ => (Phase::WritingActivator, seq![Effect::WriteActivator]),
        },
        Phase::WritingActivator => match o {
            Outcome::Failed(e) => done(Report::WriteActivatorFailed(e)),
            _ => (Phase::RunningActivator, seq![
                Effect::Progress(70, Stage::Preparing),
                Effect::HideDlls,
                Effect::Progress(72, Stage::RunningActivator),
                Effect::RunActivator,
            ]),
        },
        Phase::RunningActivator => match o {
            Outcome::Failed(e) => (Phase::Finished, seq![
                Effect::RestoreDlls,
                Effect::RemoveActivator,
                Effect::Done(Report::RunActivatorFailed(e)),
            ]),
            _ => (Phase::AwaitingActivator, seq![
                Effect::Progress(80, Stage::ActivatorRunning),
                Effect::AwaitActivator,
            ]),
        },
        Phase::AwaitingActivator => match o {
            Outcome::Exited(code) => (Phase::Finished, seq![
                Effect::RestoreDlls,
                Effect::RemoveActivator,
                Effect::Done(Report::ActivatorFailed(code)),
            ]),
            Outcome::Failed(e) => (Phase::Finished, seq![
                Effect::RestoreDlls,
                Effect::RemoveActivator,
                Effect::Done(Report::ActivatorWaitFailed(e)),
            ]),
            _ => (Phase::Launching { rerun: true }, seq![
                Effect::RestoreDlls,
                Effect::RemoveActivator,
                Effect::Progress(90, Stage::ActivatorFinished),
                Effect::CleanTickets,
                Effect::Progress(92, Stage::Rerunning),
                Effect::LaunchGame,
            ]),
        },
        Phase::Finished => (Phase::Finished, Seq::empty()),
    }
}

fn done_with(r: Report) -> (res: (Phase, Vec<Effect>))
    ensures
        res.0 == Phase::Finished,
        res.1@ == seq![Effect::Done(r)],
{
    let mut v = Vec::new();
    v.push(Effect::Done(r));
    (Phase::Finished, v)
}

/// One step of an activation run: the next phase and the effects to perform.
pub fn step(p: Phase, o: Outcome) -> (res: (Phase, Vec<Effect>))
    requires
        phase_wf(p),
        fits(p, o),
    ensures
        (res.0, res.1@) == spec_step(p, o),
        phase_wf(res.0),
{
    let mut v: Vec<Effect> = Vec::new();
    match p {
        Phase::Begin => {
            v.push(Effect::RemoveLog);
            v.push(Effect::Log(Note::Started));
            v.push(Effect::CleanTickets);
            v.push(Effect::Log(Note::TicketsCleaned));
            v.push(Effect::Progress(0, Stage::StartingDownloads));
            v.push(Effect::Log(Note::StartingDownload(Job::Activation64)));
            v.push(Effect::Download(Job::Activation64));
            proof { assert(v@ =~= spec_step(p, o).1); }
            (Phase::Fetching(Job::Activation64), v)
        },
        Phase::Fetching(j) => match o {
            Outcome::Failed(e) => {
                v.push(Effect::Log(Note::DownloadFailed(j, e.clone())));
                v.push(Effect::Done(Report::DownloadFailed(j, e)));
                proof { assert(v@ =~= spec_step(p, o).1); }
                (Phase::Finished, v)
            },
            _ => match j {
                Job::Activation64 => {
                    v.push(Effect::Log(Note::StartingDownload(Job::CryptBase)));
                    v.push(Effect::Download(Job::CryptBase));
                    proof { assert(v@ =~= spec_step(p, o).1); }
                    (Phase::Fetching(Job::CryptBase), v)
                },
                Job::CryptBase => {
                    v.push(Effect::Log(Note::StartingDownload(Job::Game)));
                    v.push(Effect::Download(Job::Game));
                    proof { assert(v@ =~= spec_step(p, o).1); }
                    (Phase::Fetching(Job::Game), v)
                },
                Job::Game => {
                    v.push(Effect::ValidateExe);
                    proof { assert(v@ =~= spec_step(p, o).1); }
                    (Phase::CheckingExe, v)
                },
                Job::Anadius => {
                    v.push(Effect::Log(Note::StartingDownload(Job::Archive)));
                    v.push(Effect::Download(Job::Archive));
                    proof { assert(v@ =~= spec_step(p, o).1); }
                    (Phase::Fetching(Job::Archive), v)
                },
                Job::Archive => {
                    v.push(Effect::ValidateArchive);
                    proof { assert(v@ =~= spec_step(p, o).1); }
                    (Phase::CheckingArchive, v)
                },
            },
        },
        Phase::CheckingExe => match o {
            Outcome::Failed(e) => done_with(Report::ExeInvalid(e)),
            _ => {
                v.push(Effect::Log(Note::StartingDownload(Job::Anadius)));
                v.push(Effect::Download(Job::Anadius));
                proof { assert(v@ =~= spec_step(p, o).1); }
                (Phase::Fetching(Job::Anadius), v)
            },
        },
        Phase::CheckingArchive => match o {
            Outcome::Failed(e) => {
                v.push(Effect::RemoveArchive);
                v.push(Effect::Done(Report::ArchiveInvalid(e)));
                proof { assert(v@ =~= spec_step(p, o).1); }
                (Phase::Finished, v)
            },
            _ => {
                v.push(Effect::Progress(43, Stage::Extracting));
                v.push(Effect::Extract);
                proof { assert(v@ =~= spec_step(p, o).1); }
                (Phase::Extracting, v)
            },
        },
        Phase::Extracting => match o {
            Outcome::Failed(e) => {
                v.push(Effect::RemoveArchive);
                v.push(Effect::Done(Report::ExtractFailed(e)));
                proof { assert(v@ =~= spec_step(p, o).1); }
                (Phase::Finished, v)
            },
            _ => {
                v.push(Effect::RemoveArchive);
                v.push(Effect::Progress(45, Stage::PackageReady));
                v.push(Effect::Progress(48, Stage::ReadingVersion));
                v.push(Effect::Progress(50, Stage::GeneratingConfig));
                v.push(Effect::WriteConfig);
                proof { assert(v@ =~= spec_step(p, o).1); }
                (Phase::Configuring, v)
            },
        },
        Phase::Configuring => match o {
            Outcome::Failed(e) => done_with(Report::ConfigFailed(e)),
            _ => {
                v.push(Effect::Progress(55, Stage::ConfigReady));
                v.push(Effect::Progress(58, Stage::RunningGame));
                v.push(Effect::LaunchGame);
                proof { assert(v@ =~= spec_step(p, o).1); }
                (Phase::Launching { rerun: false }, v)
            },
        },
        Phase::Launching { rerun } => match o {
            Outcome::Failed(e) => if rerun {
                done_with(Report::RelaunchFailed(e))
            } else {
                done_with(Report::LaunchFailed(e))
            },
            _ => if rerun {
                v.push(Effect::PollGame);
                proof { assert(v@ =~= spec_step(p, o).1); }
                (Phase::Starting { rerun: true, polls: 1 }, v)
            } else {
                v.push(Effect::Progress(59, Stage::WaitingForGame));
                v.push(Effect::PollGame);
                proof { assert(v@ =~= spec_step(p, o).1); }
                (Phase::Starting { rerun: false, polls: 1 }, v)
            },
        },
        Phase::Starting { rerun, polls } => match o {
            Outcome::Running => if rerun {
                v.push(Effect::Progress(94, Stage::Reloaded));
                v.push(Effect::WatchTickets { timeout_secs: 3, base: 94 });
                proof { assert(v@ =~= spec_step(p, o).1); }
                (Phase::Watching { rerun: true }, v)
            } else {
                v.push(Effect::Progress(62, Stage::CheckingTickets));
                v.push(Effect::WatchTickets { timeout_secs: 30, base: 62 });
                proof { assert(v@ =~= spec_step(p, o).1); }
                (Phase::Watching { rerun: false }, v)
            },
            Outcome::Exited(code) => if !rerun {
                done_with(Report::ExitedEarly(code))
            } else if polls < MAX_POLLS {
                v.push(Effect::PollGame);
                proof { assert(v@ =~= spec_step(p, o).1); }
                (Phase::Starting { rerun: true, polls: polls + 1 }, v)
            } else {
                done_with(Report::RelaunchDidNotStart)
            },
            Outcome::Failed(e) => if !rerun {
                done_with(Report::PollFailed(e))
            } else if polls < MAX_POLLS {
                v.push(Effect::PollGame);
                proof { assert(v@ =~= spec_step(p, o).1); }
                (Phase::Starting { rerun: true, polls: polls + 1 }, v)
            } else {
                done_with(Report::RelaunchDidNotStart)
            },
            _ => done_with(Report::GameDidNotStart),
        },
        Phase::Watching { rerun } => match o {
            Outcome::Ticket(true) => if rerun {
                done_with(Report::TicketsRemain)
            } else {
                v.push(Effect::Progress(65, Stage::TicketDetected));
                v.push(Effect::StopGame);
                v.push(Effect::CreateActivator);
                proof { assert(v@ =~= spec_step(p, o).1); }
                (Phase::CreatingActivator, v)
            },
            _ => {
                v.push(Effect::Progress(100, Stage::Complete));
                if rerun {
                    v.push(Effect::RemoveLog);
                }
                v.push(Effect::Done(Report::Success));
                proof { assert(v@ =~= spec_step(p, o).1); }
                (Phase::Finished, v)
            },
        },
        Phase::CreatingActivator => match o {
            Outcome::Failed(e) => done_with(Report::TempFileFailed(e)),
            _ => {
                v.push(Effect::WriteActivator);
                proof { assert(v@ =~= spec_step(p, o).1); }
                (Phase::WritingActivator, v)
            },
        },
        Phase::WritingActivator => match o {
            Outcome::Failed(e) => done_with(Report::WriteActivatorFailed(e)),
            _ => {
                v.push(Effect::Progress(70, Stage::Preparing));
                v.push(Effect::HideDlls);
                v.push(Effect::Progress(72, Stage::RunningActivator));
                v.push(Effect::RunActivator);
                proof { assert(v@ =~= spec_step(p, o).1); }
                (Phase::RunningActivator, v)
            },
        },
        Phase::RunningActivator => match o {
            Outcome::Failed(e) => {
                v.push(Effect::RestoreDlls);
                v.push(Effect::RemoveActivator);
                v.push(Effect::Done(Report::RunActivatorFailed(e)));
                proof { assert(v@ =~= spec_step(p, o).1); }
                (Phase::Finished, v)
            },
            _ => {
                v.push(Effect::Progress(80, Stage::ActivatorRunning));
                v.push(Effect::AwaitActivator);
                proof { assert(v@ =~= spec_step(p, o).1); }
                (Phase::AwaitingActivator, v)
            },
        },
        Phase::AwaitingActivator => {
            v.push(Effect::RestoreDlls);
            v.push(Effect::RemoveActivator);
            match o {
                Outcome::Exited(code) => {
                    v.push(Effect::Done(Report::ActivatorFailed(code)));
                    proof { assert(v@ =~= spec_step(p, o).1); }
                    (Phase::Finished, v)
                },
                Outcome::Failed(e) => {
                    v.push(Effect::Done(Report::ActivatorWaitFailed(e)));
                    proof { assert(v@ =~= spec_step(p, o).1); }
                    (Phase::Finished, v)
                },
                _ => {
                    v.push(Effect::Progress(90, Stage::ActivatorFinished));
                    v.push(Effect::CleanTickets);
                    v.push(Effect::Progress(92, Stage::Rerunning));
                    v.push(Effect::LaunchGame);
                    proof { assert(v@ =~= spec_step(p, o).1); }
                    (Phase::Launching { rerun: true }, v)
                },
            }
        },
        Phase::Finished => {
            proof { assert(v@ =~= spec_step(p, o).1); }
            (Phase::Finished, v)
        },
    }
}


/// Steps left before a run finishes, at most.
pub open spec fn rank(p: Phase) -> nat {
    match p {
        Phase::Begin => 40,
        Phase::Fetching(j) => match j {
            Job::Activation64 => 39,
            Job::CryptBase => 38,
            Job::Game => 37,
            Job::Anadius => 35,
            Job::Archive => 34,
        },
        Phase::CheckingExe => 36,
        Phase::CheckingArchive => 33,
        Phase::Extracting => 32,
        Phase::Configuring => 31,
        Phase::Launching { rerun } => if rerun { 23 } else { 30 },
        Phase::Starting { rerun, polls } => if rerun { (22 - polls) as nat } else { 29 },
        Phase::Watching { rerun } => if rerun { 2 } else { 28 },
        Phase::CreatingActivator => 27,
        Phase::WritingActivator => 26,
        Phase::RunningActivator => 25,
        Phase::AwaitingActivator => 24,
        Phase::Finished => 0,
    }
}

/// Every step of a run that has not finished brings it closer to its end:
/// an activation run always terminates.
pub proof fn step_decreases_rank(p: Phase, o: Outcome)
    requires
        phase_wf(p),
        fits(p, o),
        p != Phase::Finished,
    ensures
        rank(spec_step(p, o).0) < rank(p),
{
}

/// A run finishes exactly when a step reports, and that report is the step's
/// last effect and its only report.
pub proof fn finishing_reports_once(p: Phase, o: Outcome)
    requires
        phase_wf(p),
        fits(p, o),
        p != Phase::Finished,
    ensures
        ({
            let (q, es) = spec_step(p, o);
            &&& (q == Phase::Finished) == (es.len() > 0 && es.last() is Done)
            &&& forall|i: int| 0 <= i < es.len() - 1 ==> !(#[trigger] es[i] is Done)
        }),
{
}

/// Success is reported only when the game has been watched and no Denuvo
/// ticket appeared.
pub proof fn success_needs_no_ticket(p: Phase, o: Outcome, i: int)
    requires
        phase_wf(p),
        fits(p, o),
        0 <= i < spec_step(p, o).1.len(),
        spec_step(p, o).1[i] matches Effect::Done(Report::Success),
    ensures
        p is Watching,
        o == Outcome::Ticket(false),
{
}

/// The conflicting DLLs are hidden only right before the activator runs, and
/// restored first thing on every way out of the phases that hide them.
pub proof fn dlls_always_restored(p: Phase, o: Outcome)
    requires
        phase_wf(p),
        fits(p, o),
    ensures
        ({
            let (q, es) = spec_step(p, o);
            &&& (dlls_hidden(p) && !dlls_hidden(q)) ==> es.len() > 0 && es[0] is RestoreDlls
            &&& (!dlls_hidden(p) && dlls_hidden(q)) ==> es.contains(Effect::HideDlls)
            &&& dlls_hidden(p) && dlls_hidden(q) ==> !es.contains(Effect::Done(Report::Success))
        }),
{
    let (q, es) = spec_step(p, o);
    if !dlls_hidden(p) && dlls_hidden(q) {
        assert(es[1] == Effect::HideDlls);
    }
}

/// Phases that wait for the result of one operation of the run.
pub open spec fn is_operation_phase(p: Phase) -> bool {
    ||| p is Fetching
    ||| p is CheckingExe
    ||| p is CheckingArchive
    ||| p is Extracting
    ||| p is Configuring
    ||| p is Launching
    ||| p is CreatingActivator
    ||| p is WritingActivator
    ||| p is RunningActivator
    ||| p is AwaitingActivator
}

/// Effects that start further work: a download, a check, an extraction,
/// the configuration, the game, the watch, or the activator.
pub open spec fn starts_work(e: Effect) -> bool {
    ||| e is Download
    ||| e is ValidateExe
    ||| e is ValidateArchive
    ||| e is Extract
    ||| e is WriteConfig
    ||| e is LaunchGame
    ||| e is PollGame
    ||| e is WatchTickets
    ||| e is StopGame
    ||| e is CreateActivator
    ||| e is WriteActivator
    ||| e is HideDlls
    ||| e is RunActivator
}

/// The report names the error `e` as the reason the run failed.
pub open spec fn reports_error(r: Report, e: String) -> bool {
    match r {
        Report::DownloadFailed(_, m) => m == e,
        Report::ExeInvalid(m) => m == e,
        Report::ArchiveInvalid(m) => m == e,
        Report::ExtractFailed(m) => m == e,
        Report::ConfigFailed(m) => m == e,
        Report::LaunchFailed(m) => m == e,
        Report::TempFileFailed(m) => m == e,
        Report::WriteActivatorFailed(m) => m == e,
        Report::RunActivatorFailed(m) => m == e,
        Report::ActivatorWaitFailed(m) => m == e,
        Report::RelaunchFailed(m) => m == e,
        _ => false,
    }
}

/// A failed operation ends the run: the next phase is `Finished`, no
/// further work is started, and the final report gives the error.
pub proof fn failure_ends_run(p: Phase, e: String)
    requires
        is_operation_phase(p),
    ensures
        ({
            let (q, es) = spec_step(p, Outcome::Failed(e));
            &&& q == Phase::Finished
            &&& es.len() > 0
            &&& (es.last() matches Effect::Done(r) && reports_error(r, e))
            &&& forall|i: int| 0 <= i < es.len() ==> !starts_work(#[trigger] es[i])
        }),
{
}

/// What each failed check reports: a failed download is logged and
/// reported; an invalid FC26.exe is reported alone; an invalid archive or a
/// failed extraction removes the archive before the report; a failed
/// configuration is reported alone.
pub proof fn failed_checks_report(j: Job, e: String)
    ensures
        spec_step(Phase::Fetching(j), Outcome::Failed(e)) == (Phase::Finished, seq![
            Effect::Log(Note::DownloadFailed(j, e)),
            Effect::Done(Report::DownloadFailed(j, e)),
        ]),
        spec_step(Phase::CheckingExe, Outcome::Failed(e))
            == (Phase::Finished, seq![Effect::Done(Report::ExeInvalid(e))]),
        spec_step(Phase::CheckingArchive, Outcome::Failed(e))
            == (Phase::Finished, seq![Effect::RemoveArchive, Effect::Done(Report::ArchiveInvalid(e))]),
        spec_step(Phase::Extracting, Outcome::Failed(e))
            == (Phase::Finished, seq![Effect::RemoveArchive, Effect::Done(Report::ExtractFailed(e))]),
        spec_step(Phase::Configuring, Outcome::Failed(e))
            == (Phase::Finished, seq![Effect::Done(Report::ConfigFailed(e))]),
{
}

/// The percentage a run has reported once a phase is reached.
pub open spec fn floor(p: Phase) -> int {
    match p {
        Phase::Begin => 0,
        Phase::Fetching(j) => job_span(j).1 as int,
        Phase::CheckingExe => 30,
        Phase::CheckingArchive => 43,
        Phase::Extracting => 43,
        Phase::Configuring => 50,
        Phase::Launching { rerun } => if rerun { 92 } else { 58 },
        Phase::Starting { rerun, .. } => if rerun { 92 } else { 59 },
        Phase::Watching { rerun } => if rerun { 94 } else { 62 },
        Phase::CreatingActivator => 65,
        Phase::WritingActivator => 65,
        Phase::RunningActivator => 72,
        Phase::AwaitingActivator => 80,
        Phase::Finished => 100,
    }
}

/// The range of percentages an effect reports, if it reports any.
pub open spec fn span(e: Effect) -> Option<(int, int)> {
    match e {
        Effect::Progress(pct, _) => Some((pct as int, pct as int)),
        Effect::Download(j) => Some((job_span(j).0 as int, job_span(j).1 as int)),
        Effect::WatchTickets { base, .. } => Some((base as int, base as int)),
        _ => None,
    }
}

/// Lowest percentage an effect reports.
pub open spec fn span_lo(e: Effect) -> int {
    match span(e) {
        Some((a, _)) => a,
        None => 0,
    }
}

/// Highest percentage an effect reports.
pub open spec fn span_hi(e: Effect) -> int {
    match span(e) {
        Some((_, b)) => b,
        None => 0,
    }
}

/// The reports of `es`, in order, never go back and stay within `lo..=hi`.
pub open spec fn reports_ordered(es: Seq<Effect>, lo: int, hi: int) -> bool {
    &&& forall|i: int| 0 <= i < es.len() && #[trigger] span(es[i]) is Some ==>
            lo <= span_lo(es[i]) <= span_hi(es[i]) <= hi
    &&& forall|i: int, j: int| 0 <= i < j < es.len() && #[trigger] span(es[i]) is Some
            && #[trigger] span(es[j]) is Some ==> span_hi(es[i]) <= span_lo(es[j])
}

/// Progress never goes backwards: each step reports percentages in order,
/// from where the run stood up to where the next phase stands.
pub proof fn progress_never_goes_back(p: Phase, o: Outcome)
    requires
        phase_wf(p),
        fits(p, o),
    ensures
        reports_ordered(spec_step(p, o).1, floor(p), floor(spec_step(p, o).0)),
{
}

/// Whether the chosen package is FMM (anything else means Live Editor).
pub open spec fn is_fmm(selection: Seq<char>) -> bool {
    selection == "FMM"@
}

/// Whether the chosen package is FMM.
pub fn selects_fmm(selection: &str) -> (r: bool)
    ensures
        r == is_fmm(selection@),
{
    str_eq(selection, "FMM")
}

/// Where a download comes from.
pub open spec fn spec_job_url(j: Job, fmm: bool) -> &'static str {
    match j {
        Job::Activation64 => ACTIVATION64_URL,
        Job::CryptBase => CRYPTBASE0_URL,
        Job::Game => FC26_URL,
        Job::Anadius => ANADIUS64_URL,
        Job::Archive => if fmm { FMM_ZIP_RAW } else { LE_ZIP_RAW },
    }
}

/// Where a download comes from; the package depends on the selection.
pub fn job_url(j: Job, fmm: bool) -> (r: &'static str)
    ensures
        r == spec_job_url(j, fmm),
{
    match j {
        Job::Activation64 => ACTIVATION64_URL,
        Job::CryptBase => CRYPTBASE0_URL,
        Job::Game => FC26_URL,
        Job::Anadius => ANADIUS64_URL,
        Job::Archive => if fmm { FMM_ZIP_RAW } else { LE_ZIP_RAW },
    }
}

/// Path of a download, relative to the game folder, or to the temporary
/// folder for the package archive (see `job_in_temp`).
pub open spec fn spec_job_file(j: Job, fmm: bool) -> &'static str {
    match j {
        Job::Activation64 => "FAKE/Activation64.dll",
        Job::CryptBase => "FAKE/CryptBase0.dll",
        Job::Game => "FC26.exe",
        Job::Anadius => "anadius64.dll",
        Job::Archive => if fmm { "FMM.zip" } else { "Live_Editor.zip" },
    }
}

/// Path of a download, relative to the folder it goes to.
pub fn job_file(j: Job, fmm: bool) -> (r: &'static str)
    ensures
        r == spec_job_file(j, fmm),
{
    match j {
        Job::Activation64 => "FAKE/Activation64.dll",
        Job::CryptBase => "FAKE/CryptBase0.dll",
        Job::Game => "FC26.exe",
        Job::Anadius => "anadius64.dll",
        Job::Archive => if fmm { "FMM.zip" } else { "Live_Editor.zip" },
    }
}

/// The package archive goes to the temporary folder, so that it never
/// shows in the game folder; every other file goes to the game folder.
pub fn job_in_temp(j: Job) -> (r: bool)
    ensures
        r == (j == Job::Archive),
{
    match j {
        Job::Archive => true,
        _ => false,
    }
}

/// Percentages at which a download starts and ends.
pub fn job_percentages(j: Job) -> (r: (u64, u64))
    ensures
        r == job_span(j),
{
    match j {
        Job::Activation64 => (0, 5),
        Job::CryptBase => (5, 10),
        Job::Game => (10, 30),
        Job::Anadius => (30, 35),
        Job::Archive => (35, 43),
    }
}

/// The label of a download: the file name, or the selection for the package.
pub open spec fn spec_job_label(j: Job, selection: Seq<char>) -> Seq<char> {
    match j {
        Job::Activation64 => "Activation64.dll"@,
        Job::CryptBase => "CryptBase0.dll"@,
        Job::Game => "FC26.exe"@,
        Job::Anadius => "anadius64.dll"@,
        Job::Archive => selection,
    }
}

/// The label of a download.
pub fn job_label(j: Job, selection: &str) -> (r: String)
    ensures
        r@ == spec_job_label(j, selection@),
{
    let mut r = String::new();
    match j {
        Job::Activation64 => push_str(&mut r, "Activation64.dll"),
        Job::CryptBase => push_str(&mut r, "CryptBase0.dll"),
        Job::Game => push_str(&mut r, "FC26.exe"),
        Job::Anadius => push_str(&mut r, "anadius64.dll"),
        Job::Archive => push_str(&mut r, selection),
    }
    r
}

/// The label of a progress report.
pub open spec fn spec_stage_label(st: Stage, selection: Seq<char>) -> Seq<char> {
    match st {
        Stage::StartingDownloads => "Starting downloads..."@,
        Stage::Extracting => "Extracting "@ + selection,
        Stage::PackageReady => selection + " ready"@,
        Stage::ReadingVersion => "Reading game version"@,
        Stage::GeneratingConfig => "Generating anadius.cfg"@,
        Stage::ConfigReady => "anadius.cfg ready"@,
        Stage::RunningGame => "Running FC26.exe..."@,
        Stage::WaitingForGame => "Waiting for game to load..."@,
        Stage::CheckingTickets => "Game loaded \u{2014} checking for Denuvo tickets..."@,
        Stage::Complete => "Activation complete"@,
        Stage::TicketDetected => "Denuvo ticket detected \u{2014} closing game..."@,
        Stage::Preparing => "Preparing environment for activator..."@,
        Stage::RunningActivator => "Running activator.exe..."@,
        Stage::ActivatorRunning => "Activator running \u{2014} please wait..."@,
        Stage::ActivatorFinished => "Activator finished"@,
        Stage::Rerunning => "Re-running FC26.exe \u{2014} verifying..."@,
        Stage::Reloaded => "Game re-loaded \u{2014} verifying Denuvo ticket creation..."@,
    }
}

/// The label of a progress report.
pub fn stage_label(st: Stage, selection: &str) -> (r: String)
    ensures
        r@ == spec_stage_label(st, selection@),
{
    let mut r = String::new();
    match st {
        Stage::StartingDownloads => push_str(&mut r, "Starting downloads..."),
        Stage::Extracting => {
            push_str(&mut r, "Extracting ");
            push_str(&mut r, selection);
        },
        Stage::PackageReady => {
            push_str(&mut r, selection);
            push_str(&mut r, " ready");
        },
        Stage::ReadingVersion => push_str(&mut r, "Reading game version"),
        Stage::GeneratingConfig => push_str(&mut r, "Generating anadius.cfg"),
        Stage::ConfigReady => push_str(&mut r, "anadius.cfg ready"),
        Stage::RunningGame => push_str(&mut r, "Running FC26.exe..."),
        Stage::WaitingForGame => push_str(&mut r, "Waiting for game to load..."),
        Stage::CheckingTickets => push_str(&mut r, "Game loaded \u{2014} checking for Denuvo tickets..."),
        Stage::Complete => push_str(&mut r, "Activation complete"),
        Stage::TicketDetected => push_str(&mut r, "Denuvo ticket detected \u{2014} closing game..."),
        Stage::Preparing => push_str(&mut r, "Preparing environment for activator..."),
        Stage::RunningActivator => push_str(&mut r, "Running activator.exe..."),
        Stage::ActivatorRunning => push_str(&mut r, "Activator running \u{2014} please wait..."),
        Stage::ActivatorFinished => push_str(&mut r, "Activator finished"),
        Stage::Rerunning => push_str(&mut r, "Re-running FC26.exe \u{2014} verifying..."),
        Stage::Reloaded => push_str(&mut r, "Game re-loaded \u{2014} verifying Denuvo ticket creation..."),
    }
    r
}

/// A line of the log.
pub open spec fn spec_note_text(n: Note, selection: Seq<char>) -> Seq<char> {
    match n {
        Note::Started => "--- NEW ACTIVATION STARTED: "@ + selection + " ---"@,
        Note::TicketsCleaned => "Cleaned up old Denuvo tickets."@,
        Note::StartingDownload(j) => if j == Job::Archive {
            "Starting download: "@ + selection + " archive"@
        } else {
            "Starting download: "@ + spec_job_label(j, selection)
        },
        Note::DownloadFailed(j, e) => if j == Job::Archive {
            "ERROR: Failed archive: "@ + e@
        } else {
            "ERROR: Failed "@ + spec_job_label(j, selection) + ": "@ + e@
        },
    }
}

/// A line of the log.
pub fn note_text(n: &Note, selection: &str) -> (r: String)
    ensures
        r@ == spec_note_text(*n, selection@),
{
    let mut r = String::new();
    match n {
        Note::Started => {
            push_str(&mut r, "--- NEW ACTIVATION STARTED: ");
            push_str(&mut r, selection);
            push_str(&mut r, " ---");
        },
        Note::TicketsCleaned => push_str(&mut r, "Cleaned up old Denuvo tickets."),
        Note::StartingDownload(j) => {
            push_str(&mut r, "Starting download: ");
            if *j == Job::Archive {
                push_str(&mut r, selection);
                push_str(&mut r, " archive");
            } else {
                let l = job_label(*j, selection);
                push_str(&mut r, l.as_str());
            }
        },
        Note::DownloadFailed(j, e) => {
            if *j == Job::Archive {
                push_str(&mut r, "ERROR: Failed archive: ");
            } else {
                push_str(&mut r, "ERROR: Failed ");
                let l = job_label(*j, selection);
                push_str(&mut r, l.as_str());
                push_str(&mut r, ": ");
            }
            push_str(&mut r, e.as_str());
        },
    }
    proof {
        assert(r@ =~= spec_note_text(*n, selection@));
    }
    r
}

/// `{:?}` of an exit code: `Some(n)` or `None`.
pub open spec fn spec_debug_code(c: Option<i32>) -> Seq<char> {
    match c {
        Some(v) => "Some("@ + (if v < 0 { seq!['-'] + dec((-v) as nat) } else { dec(v as nat) }) + ")"@,
        None => "None"@,
    }
}

fn push_debug_code(s: &mut String, c: Option<i32>)
    ensures
        final(s)@ == old(s)@ + spec_debug_code(c),
{
    match c {
        Some(v) => {
            push_str(s, "Some(");
            if v < 0 {
                push_char(s, '-');
                let w: i64 = v as i64;
                push_decimal(s, (-w) as u64);
            } else {
                push_decimal(s, v as u64);
            }
            push_str(s, ")");
        },
        None => push_str(s, "None"),
    }
    proof {
        assert(final(s)@ =~= old(s)@ + spec_debug_code(c));
    }
}

/// Whether a final report announces success.
pub open spec fn spec_report_success(r: Report) -> bool {
    r is Success
}

/// Whether a final report announces success.
pub fn report_success(r: &Report) -> (b: bool)
    ensures
        b == spec_report_success(*r),
{
    match r {
        Report::Success => true,
        _ => false,
    }
}

/// The message of a final report.
pub open spec fn spec_report_text(r: Report, selection: Seq<char>) -> Seq<char> {
    match r {
        Report::Success => "EA SPORTS FC 26 has successfully activated enjoy the game and feel free to ask about anythinh"@,
        Report::DownloadFailed(j, e) => "Failed to download "@ + spec_job_label(j, selection) + ": "@ + e@,
        Report::ExeInvalid(e) => "FC26.exe invalid: "@ + e@,
        Report::ArchiveInvalid(e) => selection + " archive invalid: "@ + e@,
        Report::ExtractFailed(e) => "Failed to extract "@ + selection + ": "@ + e@,
        Report::ConfigFailed(e) => "Failed to create anadius.cfg: "@ + e@,
        Report::LaunchFailed(e) => "Failed to run FC26.exe: "@ + e@,
        Report::ExitedEarly(c) => "FC26.exe exited immediately (code: "@ + spec_debug_code(c) + ")"@,
        Report::PollFailed(e) => "Failed to check FC26.exe: "@ + e@,
        Report::GameDidNotStart => "FC26.exe did not start"@,
        Report::TempFileFailed(e) => "Failed to create temp file: "@ + e@,
        Report::WriteActivatorFailed(e) => "Failed to write activator.exe: "@ + e@,
        Report::RunActivatorFailed(e) => "Failed to run activator.exe: "@ + e@,
        Report::ActivatorFailed(c) => "Activator failed (exit code: "@ + spec_debug_code(c) + ")"@,
        Report::ActivatorWaitFailed(e) => "Failed waiting for activator: "@ + e@,
        Report::RelaunchFailed(e) => "Failed to re-run FC26.exe: "@ + e@,
        Report::RelaunchDidNotStart => "FC26.exe did not start on re-run"@,
        Report::TicketsRemain => "\u{0641}\u{0634}\u{0644} \u{0627}\u{0644}\u{062a}\u{0641}\u{0639}\u{064a}\u{0644} - Activation Failed\nTicket files still present after activation"@,
    }
}

/// The message of a final report.
pub fn report_text(r: &Report, selection: &str) -> (t: String)
    ensures
        t@ == spec_report_text(*r, selection@),
{
    let mut t = String::new();
    match r {
        Report::Success => push_str(&mut t, "EA SPORTS FC 26 has successfully activated enjoy the game and feel free to ask about anythinh"),
        Report::DownloadFailed(j, e) => {
            push_str(&mut t, "Failed to download ");
            let l = job_label(*j, selection);
            push_str(&mut t, l.as_str());
            push_str(&mut t, ": ");
            push_str(&mut t, e.as_str());
        },
        Report::ExeInvalid(e) => {
            push_str(&mut t, "FC26.exe invalid: ");
            push_str(&mut t, e.as_str());
        },
        Report::ArchiveInvalid(e) => {
            push_str(&mut t, selection);
            push_str(&mut t, " archive invalid: ");
            push_str(&mut t, e.as_str());
        },
        Report::ExtractFailed(e) => {
            push_str(&mut t, "Failed to extract ");
            push_str(&mut t, selection);
            push_str(&mut t, ": ");
            push_str(&mut t, e.as_str());
        },
        Report::ConfigFailed(e) => {
            push_str(&mut t, "Failed to create anadius.cfg: ");
            push_str(&mut t, e.as_str());
        },
        Report::LaunchFailed(e) => {
            push_str(&mut t, "Failed to run FC26.exe: ");
            push_str(&mut t, e.as_str());
        },
        Report::ExitedEarly(c) => {
            push_str(&mut t, "FC26.exe exited immediately (code: ");
            push_debug_code(&mut t, *c);
            push_str(&mut t, ")");
        },
        Report::PollFailed(e) => {
            push_str(&mut t, "Failed to check FC26.exe: ");
            push_str(&mut t, e.as_str());
        },
        Report::GameDidNotStart => push_str(&mut t, "FC26.exe did not start"),
        Report::TempFileFailed(e) => {
            push_str(&mut t, "Failed to create temp file: ");
            push_str(&mut t, e.as_str());
        },
        Report::WriteActivatorFailed(e) => {
            push_str(&mut t, "Failed to write activator.exe: ");
            push_str(&mut t, e.as_str());
        },
        Report::RunActivatorFailed(e) => {
            push_str(&mut t, "Failed to run activator.exe: ");
            push_str(&mut t, e.as_str());
        },
        Report::ActivatorFailed(c) => {
            push_str(&mut t, "Activator failed (exit code: ");
            push_debug_code(&mut t, *c);
            push_str(&mut t, ")");
        },
        Report::ActivatorWaitFailed(e) => {
            push_str(&mut t, "Failed waiting for activator: ");
            push_str(&mut t, e.as_str());
        },
        Report::RelaunchFailed(e) => {
            push_str(&mut t, "Failed to re-run FC26.exe: ");
            push_str(&mut t, e.as_str());
        },
        Report::RelaunchDidNotStart => push_str(&mut t, "FC26.exe did not start on re-run"),
        Report::TicketsRemain => push_str(&mut t, "\u{0641}\u{0634}\u{0644} \u{0627}\u{0644}\u{062a}\u{0641}\u{0639}\u{064a}\u{0644} - Activation Failed\nTicket files still present after activation"),
    }
    proof {
        assert(t@ =~= spec_report_text(*r, selection@));
    }
    t
}
} // verus!

//! Bringing up the OLA daemon (olad) that forwards Art-Net to the lights:
//! which command to run next, given what the previous one found.
//!
//! The caller runs the commands; this module decides. Probes ask whether a
//! program is installed (`which <program>`); installs and the daemon start
//! are run for their effect only.
use vstd::prelude::*;

verus! {

/// The operating system, as far as installing OLA is concerned.
#[derive(Clone, Copy, Debug, PartialEq, Eq, Structural)]
pub enum Platform {
    Linux,
    MacOs,
    Unsupported,
}

/// The platform that an OS name (as in `std::env::consts::OS`) stands for.
pub open spec fn platform_spec(os: Seq<char>) -> Platform {
    if os == seq!['l', 'i', 'n', 'u', 'x'] {
        Platform::Linux
    } else if os == seq!['m', 'a', 'c', 'o', 's'] {
        Platform::MacOs
    } else {
        Platform::Unsupported
    }
}

/// The platform for an OS name.
pub fn platform_of(os: &str) -> (p: Platform)
    ensures
        p == platform_spec(os@),
{
    let name = os.to_owned();
    let linux = "linux".to_owned();
    let macos = "macos".to_owned();
    proof {
        reveal_strlit("linux");
        reveal_strlit("macos");
        assert(linux@ =~= seq!['l', 'i', 'n', 'u', 'x']);
        assert(macos@ =~= seq!['m', 'a', 'c', 'o', 's']);
    }
    if name == linux {
        Platform::Linux
    } else if name == macos {
        Platform::MacOs
    } else {
        Platform::Unsupported
    }
}

/// A command of the bring-up.
#[derive(Clone, Copy, Debug, PartialEq, Eq, Structural)]
pub enum OlaStep {
    /// `which olad`
    CheckDaemon,
    /// `which apt`
    CheckApt,
    /// `sudo apt update`
    AptUpdate,
    /// `sudo apt install -y ola`
    AptInstall,
    /// `which pacman`
    CheckPacman,
    /// `sudo pacman -Sy ola`
    PacmanInstall,
    /// `which brew`
    CheckBrew,
    /// `brew install ola`
    BrewInstall,
    /// `olad -f`, kept running (and restarted whenever it exits).
    StartDaemon,
}

/// Why OLA could not be installed.
#[derive(Clone, Copy, Debug, PartialEq, Eq, Structural)]
pub enum OlaError {
    /// Neither Linux nor macOS: OLA has to be installed by hand.
    UnsupportedOs,
    /// Linux without apt or pacman.
    NoPackageManager,
    /// macOS without Homebrew.
    NoHomebrew,
}

/// What to do after a command.
#[derive(Clone, Copy, Debug, PartialEq, Eq, Structural)]
pub enum OlaNext {
    Run(OlaStep),
    Fail(OlaError),
}

/// The command after `step`, where `found` is the answer of a probe (ignored
/// after an install). A missing daemon is installed with apt (after an
/// update) or else pacman on Linux, with Homebrew on macOS; once installed,
/// or when already present, the daemon is started.
pub open spec fn ola_next_spec(platform: Platform, step: OlaStep, found: bool) -> OlaNext {
    match step {
        OlaStep::CheckDaemon => if found {
            OlaNext::Run(OlaStep::StartDaemon)
        } else {
            match platform {
                Platform::Linux => OlaNext::Run(OlaStep::CheckApt),
                Platform::MacOs => OlaNext::Run(OlaStep::CheckBrew),
                Platform::Unsupported => OlaNext::Fail(OlaError::UnsupportedOs),
            }
        },
        OlaStep::CheckApt => if found {
            OlaNext::Run(OlaStep::AptUpdate)
        } else {
            OlaNext::Run(OlaStep::CheckPacman)
        },
        OlaStep::AptUpdate => OlaNext::Run(OlaStep::AptInstall),
        OlaStep::AptInstall => OlaNext::Run(OlaStep::StartDaemon),
        OlaStep::CheckPacman => if found {
            OlaNext::Run(OlaStep::PacmanInstall)
        } else {
            OlaNext::Fail(OlaError::NoPackageManager)
        },
        OlaStep::PacmanInstall => OlaNext::Run(OlaStep::StartDaemon),
        OlaStep::CheckBrew => if found {
            OlaNext::Run(OlaStep::BrewInstall)
        } else {
            OlaNext::Fail(OlaError::NoHomebrew)
        },
        OlaStep::BrewInstall => OlaNext::Run(OlaStep::StartDaemon),
        // The daemon runs under supervision from then on.
        OlaStep::StartDaemon => OlaNext::Run(OlaStep::StartDaemon),
    }
}

/// The next command of the bring-up after `step`.
pub fn ola_next(platform: Platform, step: OlaStep, found: bool) -> (next: OlaNext)
    ensures
        next == ola_next_spec(platform, step, found),
{
    match step {
        OlaStep::CheckDaemon => {
            if found {
                OlaNext::Run(OlaStep::StartDaemon)
            } else {
                match platform {
                    Platform::Linux => OlaNext::Run(OlaStep::CheckApt),
                    Platform::MacOs => OlaNext::Run(OlaStep::CheckBrew),
                    Platform::Unsupported => OlaNext::Fail(OlaError::UnsupportedOs),
                }
            }
        },
        // Try apt first (Debian, Ubuntu, Raspberry Pi OS)
        OlaStep::CheckApt => {
            if found {
                OlaNext::Run(OlaStep::AptUpdate)
            } else {
                OlaNext::Run(OlaStep::CheckPacman)
            }
        },
        OlaStep::AptUpdate => OlaNext::Run(OlaStep::AptInstall),
        OlaStep::AptInstall => OlaNext::Run(OlaStep::StartDaemon),
        // Try pacman (Arch Linux)
        OlaStep::CheckPacman => {
            if found {
                OlaNext::Run(OlaStep::PacmanInstall)
            } else {
                OlaNext::Fail(OlaError::NoPackageManager)
            }
        },
        OlaStep::PacmanInstall => OlaNext::Run(OlaStep::StartDaemon),
        OlaStep::CheckBrew => {
            if found {
                OlaNext::Run(OlaStep::BrewInstall)
            } else {
                OlaNext::Fail(OlaError::NoHomebrew)
            }
        },
        OlaStep::BrewInstall => OlaNext::Run(OlaStep::StartDaemon),
        OlaStep::StartDaemon => OlaNext::Run(OlaStep::StartDaemon),
    }
}

/// How many commands at most remain before the daemon is started.
pub open spec fn steps_to_daemon(step: OlaStep) -> nat {
    match step {
        OlaStep::CheckDaemon => 5,
        OlaStep::CheckApt => 4,
        OlaStep::CheckPacman => 3,
        OlaStep::CheckBrew => 3,
        OlaStep::AptUpdate => 3,
        OlaStep::AptInstall => 2,
        OlaStep::PacmanInstall => 2,
        OlaStep::BrewInstall => 2,
        OlaStep::StartDaemon => 1,
    }
}

/// The bring-up never loops: every command before the daemon start leads to a
/// failure or to a command closer to the daemon start, so the daemon is
/// started, or an error reported, after at most five commands.
pub proof fn lemma_bring_up_progresses(platform: Platform, step: OlaStep, found: bool)
    requires
        step != OlaStep::StartDaemon,
    ensures
        ola_next_spec(platform, step, found) matches OlaNext::Run(next) ==> steps_to_daemon(next) < steps_to_daemon(step),
{
}


/// Wherever OLA runs, a daemon that is already installed is started right away.
pub proof fn lemma_installed_daemon_starts(platform: Platform)
    ensures
        ola_next_spec(platform, OlaStep::CheckDaemon, true) == OlaNext::Run(OlaStep::StartDaemon),
{
}

/// A probe that finds its program never ends the bring-up in failure: a
/// failure always follows a probe that found nothing.
pub proof fn lemma_fail_only_when_missing(platform: Platform, step: OlaStep, found: bool)
    ensures
        ola_next_spec(platform, step, found) is Fail ==> !found && (step == OlaStep::CheckDaemon
            || step == OlaStep::CheckPacman || step == OlaStep::CheckBrew),
{
}

/// Packages are installed only on the platform they belong to: apt and pacman
/// on Linux, Homebrew on macOS; and only when the daemon is missing.
pub proof fn lemma_installers_by_platform(platform: Platform, found: bool)
    ensures
        ola_next_spec(platform, OlaStep::CheckDaemon, found) == OlaNext::Run(OlaStep::CheckApt)
            ==> platform == Platform::Linux && !found,
        ola_next_spec(platform, OlaStep::CheckDaemon, found) == OlaNext::Run(OlaStep::CheckBrew)
            ==> platform == Platform::MacOs && !found,
        !found && platform == Platform::Linux ==> ola_next_spec(platform, OlaStep::CheckDaemon, found) == OlaNext::Run(OlaStep::CheckApt),
        !found && platform == Platform::MacOs ==> ola_next_spec(platform, OlaStep::CheckDaemon, found) == OlaNext::Run(OlaStep::CheckBrew),
{
}

/// The OS names that stand for a platform: exactly "linux" and "macos".
pub proof fn lemma_platform_names(os: Seq<char>)
    ensures
        platform_spec(os) == Platform::Linux <==> os == seq!['l', 'i', 'n', 'u', 'x'],
        platform_spec(os) == Platform::MacOs <==> os == seq!['m', 'a', 'c', 'o', 's'],
{
}

} // verus!

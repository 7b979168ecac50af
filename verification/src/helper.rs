//! The wake helper: where it lives, whether it is installed, which of its
//! two generations is in use, what its status reports, and what installing
//! or removing it answers.
//!
//! The helper was renamed once. The old paths stay readable, so that an
//! installation from before the renaming keeps running, with its wake
//! schedule, without being installed anew.
use vstd::prelude::*;
use crate::schedule::{WakeSchedule, WakeScheduleView};
use crate::text::{
    chars_of, contains, contains_str, join, joined, join_lines, last_items, line_ranges, lines_of,
    lossy_string, opt_text, result_text, utf8_lossy,
};

verus! {

/// The helper program.
pub const HELPER_BINARY: &'static str = "/usr/local/bin/WeckPilotWakeHelper";

/// The launch daemon that starts the helper.
pub const HELPER_PLIST: &'static str = "/Library/LaunchDaemons/de.little-tools.weckpilot.wake-helper.plist";

/// The launch daemon's label.
pub const HELPER_LABEL: &'static str = "de.little-tools.weckpilot.wake-helper";

/// The directory that the app and the helper share.
pub const SHARED_DIR: &'static str = "/Users/Shared/WeckPilot";

/// The schedule that the helper reads.
pub const SCHEDULE_FILE: &'static str = "/Users/Shared/WeckPilot/schedule.json";

/// The helper program from before the renaming.
pub const LEGACY_HELPER_BINARY: &'static str = "/usr/local/bin/AlarmMasterWakeHelper";

/// The launch daemon from before the renaming.
pub const LEGACY_HELPER_PLIST: &'static str = "/Library/LaunchDaemons/com.alarmmaster.wake-helper.plist";

/// The launch daemon's label from before the renaming.
pub const LEGACY_HELPER_LABEL: &'static str = "com.alarmmaster.wake-helper";

/// The shared directory from before the renaming.
pub const LEGACY_SHARED_DIR: &'static str = "/Users/Shared/AlarmMaster";

/// The schedule from before the renaming.
pub const LEGACY_SCHEDULE_FILE: &'static str = "/Users/Shared/AlarmMaster/schedule.json";

/// Which of the helper's files exist on disk.
#[derive(PartialEq, Eq, Structural, Clone, Copy, Debug)]
pub struct InstallProbe {
    /// `HELPER_BINARY` exists.
    pub helper_binary: bool,
    /// `HELPER_PLIST` exists.
    pub helper_plist: bool,
    /// `LEGACY_HELPER_BINARY` exists.
    pub legacy_binary: bool,
    /// `LEGACY_HELPER_PLIST` exists.
    pub legacy_plist: bool,
}

/// The current helper is installed: its program and its launch daemon.
pub open spec fn current_installed(p: InstallProbe) -> bool {
    p.helper_binary && p.helper_plist
}

/// The helper from before the renaming is installed.
pub open spec fn legacy_installed(p: InstallProbe) -> bool {
    p.legacy_binary && p.legacy_plist
}

/// The current paths are in use: where the current helper is installed,
/// and also where no helper of either generation is.
pub open spec fn uses_current_paths(p: InstallProbe) -> bool {
    current_installed(p) || !legacy_installed(p)
}

/// Whether the current helper is installed.
pub fn current_helper_installed(probe: &InstallProbe) -> (installed: bool)
    ensures
        installed == current_installed(*probe),
{
    probe.helper_binary && probe.helper_plist
}

/// Whether the helper from before the renaming is installed.
pub fn legacy_helper_installed(probe: &InstallProbe) -> (installed: bool)
    ensures
        installed == legacy_installed(*probe),
{
    probe.legacy_binary && probe.legacy_plist
}

/// The shared directory, the schedule file and the daemon's label that are
/// in use.
pub open spec fn active_paths(p: InstallProbe) -> (Seq<char>, Seq<char>, Seq<char>) {
    if uses_current_paths(p) {
        (SHARED_DIR@, SCHEDULE_FILE@, HELPER_LABEL@)
    } else {
        (LEGACY_SHARED_DIR@, LEGACY_SCHEDULE_FILE@, LEGACY_HELPER_LABEL@)
    }
}

/// The shared directory, the schedule file and the daemon's label that are
/// in use: the old ones only where only the old helper is installed.
pub fn active_helper_paths(probe: &InstallProbe) -> (paths: (&'static str, &'static str, &'static str))
    ensures
        (paths.0@, paths.1@, paths.2@) == active_paths(*probe),
{
    if current_helper_installed(probe) || !legacy_helper_installed(probe) {
        (SHARED_DIR, SCHEDULE_FILE, HELPER_LABEL)
    } else {
        (LEGACY_SHARED_DIR, LEGACY_SCHEDULE_FILE, LEGACY_HELPER_LABEL)
    }
}

/// The helper counts as installed on macOS where either generation is.
pub open spec fn helper_installed(on_macos: bool, p: InstallProbe) -> bool {
    on_macos && (current_installed(p) || legacy_installed(p))
}

/// Whether the wake helper is installed.
pub fn is_wake_helper_installed(on_macos: bool, probe: &InstallProbe) -> (installed: bool)
    ensures
        installed == helper_installed(on_macos, *probe),
{
    on_macos && (current_helper_installed(probe) || legacy_helper_installed(probe))
}

/// The helper's log file in a shared directory.
pub fn helper_log_path(shared_dir: &str) -> (path: String)
    ensures
        path@ == shared_dir@ + "/helper.log"@,
{
    joined(shared_dir, "/helper.log")
}

/// The number of log lines that the status shows.
pub open spec fn log_tail_lines() -> nat {
    10
}

/// The last lines of a log, joined with `\n`.
pub open spec fn tail_of(content: Seq<char>) -> Seq<char> {
    join(last_items(lines_of(content), log_tail_lines()), seq!['\n'])
}

/// The last ten lines of a log (all of them where there are fewer), joined
/// with `\n`.
pub fn log_tail(content: &str) -> (tail: String)
    ensures
        tail@ == tail_of(content@),
        ({
            let ls = lines_of(content@);
            let kept: int = if ls.len() > 10 {
                10
            } else {
                ls.len() as int
            };
            tail@ == join(ls.subrange(ls.len() - kept, ls.len() as int), seq!['\n'])
        }),
{
    proof {
        lemma_tail_is_the_last_ten_lines(content@);
    }
    let v = chars_of(content);
    let r = line_ranges(&v);
    let first = if r.len() > 10 {
        r.len() - 10
    } else {
        0
    };
    let tail = join_lines(&v, &r, first);
    assert(lines_of(content@).skip(first as int) =~= last_items(lines_of(content@), 10));
    tail
}

/// The tail of a log is its last ten lines, in order, or all of them where
/// there are fewer: `min(10, n)` lines that end with the log's last line.
pub proof fn lemma_tail_is_the_last_ten_lines(content: Seq<char>)
    ensures
        ({
            let ls = lines_of(content);
            let kept: int = if ls.len() > 10 {
                10
            } else {
                ls.len() as int
            };
            tail_of(content) == join(ls.subrange(ls.len() - kept, ls.len() as int), seq!['\n'])
        }),
{
    let ls = lines_of(content);
    if ls.len() > 10 {
        assert(ls.skip(ls.len() - 10) =~= ls.subrange(ls.len() - 10, ls.len() as int));
    } else {
        assert(ls =~= ls.subrange(0, ls.len() as int));
    }
}

/// Whether the listing of `launchctl list` names a daemon label.
pub fn listing_mentions(listing: &str, label: &str) -> (found: bool)
    ensures
        found == contains(listing@, label@),
{
    contains_str(listing, label)
}

/// The status of the wake helper as the settings show it.
pub struct WakeHelperStatus {
    pub installed: bool,
    pub daemon_loaded: bool,
    pub has_schedule: bool,
    pub next_wake: Option<String>,
    pub log_tail: Option<String>,
}

/// The contents of a status.
pub struct WakeHelperStatusView {
    pub installed: bool,
    pub daemon_loaded: bool,
    pub has_schedule: bool,
    pub next_wake: Option<Seq<char>>,
    pub log_tail: Option<Seq<char>>,
}

impl View for WakeHelperStatus {
    type V = WakeHelperStatusView;

    open spec fn view(&self) -> WakeHelperStatusView {
        WakeHelperStatusView {
            installed: self.installed,
            daemon_loaded: self.daemon_loaded,
            has_schedule: self.has_schedule,
            next_wake: opt_text(self.next_wake),
            log_tail: opt_text(self.log_tail),
        }
    }
}

/// The status from what was read: whether the platform is macOS, which
/// helper files exist, the output of `launchctl list` (`None` where it
/// could not run), the schedule in use (`None` where it could not be read
/// or decoded) and the helper's log (`None` where it could not be read).
pub open spec fn status_of(
    on_macos: bool,
    p: InstallProbe,
    listing: Option<Seq<u8>>,
    schedule: Option<WakeScheduleView>,
    log: Option<Seq<char>>,
) -> WakeHelperStatusView {
    if !on_macos {
        WakeHelperStatusView {
            installed: false,
            daemon_loaded: false,
            has_schedule: false,
            next_wake: None,
            log_tail: None,
        }
    } else {
        WakeHelperStatusView {
            installed: current_installed(p) || legacy_installed(p),
            daemon_loaded: match listing {
                Some(bytes) => contains(utf8_lossy(bytes), active_paths(p).2),
                None => false,
            },
            has_schedule: match schedule {
                Some(s) => s.enabled && s.next_wake is Some,
                None => false,
            },
            next_wake: match schedule {
                Some(s) => s.next_wake,
                None => None,
            },
            log_tail: match log {
                Some(c) => Some(tail_of(c)),
                None => None,
            },
        }
    }
}

/// The schedule's contents, where there is one.
pub open spec fn schedule_view(s: Option<WakeSchedule>) -> Option<WakeScheduleView> {
    match s {
        Some(s) => Some(s@),
        None => None,
    }
}

/// The bytes of an optional byte slice.
pub open spec fn bytes_view(b: Option<&[u8]>) -> Option<Seq<u8>> {
    match b {
        Some(b) => Some(b@),
        None => None,
    }
}

/// The text of an optional string slice.
pub open spec fn str_view(s: Option<&str>) -> Option<Seq<char>> {
    match s {
        Some(s) => Some(s@),
        None => None,
    }
}

/// The detailed status of the wake helper, from what was read on disk and
/// from `launchctl list`.
pub fn wake_helper_status(
    on_macos: bool,
    probe: &InstallProbe,
    launchctl_stdout: Option<&[u8]>,
    schedule: Option<WakeSchedule>,
    log: Option<&str>,
) -> (status: WakeHelperStatus)
    ensures
        status@ == status_of(
            on_macos,
            *probe,
            bytes_view(launchctl_stdout),
            schedule_view(schedule),
            str_view(log),
        ),
{
    if !on_macos {
        return WakeHelperStatus {
            installed: false,
            daemon_loaded: false,
            has_schedule: false,
            next_wake: None,
            log_tail: None,
        };
    }
    let installed = current_helper_installed(probe) || legacy_helper_installed(probe);
    let (_, _, label) = active_helper_paths(probe);
    let daemon_loaded = match launchctl_stdout {
        Some(bytes) => {
            let listing = lossy_string(bytes);
            listing_mentions(listing.as_str(), label)
        },
        None => false,
    };
    let (has_schedule, next_wake) = match schedule {
        Some(s) => (s.enabled && s.next_wake.is_some(), s.next_wake),
        None => (false, None),
    };
    let log_tail = match log {
        Some(content) => Some(log_tail(content)),
        None => None,
    };
    WakeHelperStatus { installed, daemon_loaded, has_schedule, next_wake, log_tail }
}

/// The status and the installation check agree: the status reports the
/// helper installed exactly where `is_wake_helper_installed` does.
pub proof fn lemma_status_agrees_with_install_check(
    on_macos: bool,
    p: InstallProbe,
    listing: Option<Seq<u8>>,
    schedule: Option<WakeScheduleView>,
    log: Option<Seq<char>>,
)
    ensures
        status_of(on_macos, p, listing, schedule, log).installed == helper_installed(on_macos, p),
{
}

/// A status that reports a schedule also names the next wake, and one off
/// macOS reports nothing at all.
pub proof fn lemma_status_is_consistent(
    on_macos: bool,
    p: InstallProbe,
    listing: Option<Seq<u8>>,
    schedule: Option<WakeScheduleView>,
    log: Option<Seq<char>>,
)
    ensures
        status_of(on_macos, p, listing, schedule, log).has_schedule ==> status_of(
            on_macos,
            p,
            listing,
            schedule,
            log,
        ).next_wake is Some,
        !on_macos ==> {
            let s = status_of(on_macos, p, listing, schedule, log);
            !s.installed && !s.daemon_loaded && !s.has_schedule && s.next_wake is None
                && s.log_tail is None
        },
{
}

/// An installation from before the renaming keeps its paths as long as
/// no current helper is installed; once the current one is, its paths win.
pub proof fn lemma_legacy_installation_keeps_its_paths(p: InstallProbe)
    ensures
        legacy_installed(p) && !current_installed(p) ==> active_paths(p) == (
            LEGACY_SHARED_DIR@,
            LEGACY_SCHEDULE_FILE@,
            LEGACY_HELPER_LABEL@,
        ),
        current_installed(p) ==> active_paths(p) == (SHARED_DIR@, SCHEDULE_FILE@, HELPER_LABEL@),
        !legacy_installed(p) ==> active_paths(p) == (SHARED_DIR@, SCHEDULE_FILE@, HELPER_LABEL@),
{
}

// ---------------------------------------------------------------------------
// Installing and removing the helper
// ---------------------------------------------------------------------------

/// Installing or removing the helper, which both run a script of the app's
/// resources with administrator rights.
#[derive(PartialEq, Eq, Structural, Clone, Copy, Debug)]
pub enum HelperAction {
    Install,
    Uninstall,
}

/// The script's file name in the resources' `helpers` directory.
pub open spec fn script_name(action: HelperAction) -> Seq<char> {
    match action {
        HelperAction::Install => "install.sh"@,
        HelperAction::Uninstall => "uninstall.sh"@,
    }
}

/// The script's file name in the resources' `helpers` directory.
pub fn helper_script_name(action: HelperAction) -> (name: &'static str)
    ensures
        name@ == script_name(action),
{
    match action {
        HelperAction::Install => "install.sh",
        HelperAction::Uninstall => "uninstall.sh",
    }
}

/// The error where the resources' directory cannot be found.
pub fn resource_dir_error(detail: &str) -> (e: String)
    ensures
        e@ == "Resource dir error: "@ + detail@,
{
    joined("Resource dir error: ", detail)
}

/// The error where the script is missing.
pub open spec fn missing_script_text(action: HelperAction, path: Seq<char>) -> Seq<char> {
    match action {
        HelperAction::Install => "Install script not found at: "@ + path,
        HelperAction::Uninstall => "Uninstall script not found at: "@ + path,
    }
}

/// The error where the script is missing at `path`.
pub fn missing_script_error(action: HelperAction, path: &str) -> (e: String)
    ensures
        e@ == missing_script_text(action, path@),
{
    match action {
        HelperAction::Install => joined("Install script not found at: ", path),
        HelperAction::Uninstall => joined("Uninstall script not found at: ", path),
    }
}

/// The AppleScript that runs the script with administrator rights; the
/// installer gets the helpers' directory as its argument.
pub open spec fn script_command(action: HelperAction, script: Seq<char>, helpers_dir: Seq<char>) -> Seq<char> {
    match action {
        HelperAction::Install => "do shell script \"bash '"@ + script + "' '"@ + helpers_dir
            + "'\" with administrator privileges"@,
        HelperAction::Uninstall => "do shell script \"bash '"@ + script
            + "'\" with administrator privileges"@,
    }
}

/// The AppleScript for `osascript -e` that runs the script at `script`.
pub fn helper_command(action: HelperAction, script: &str, helpers_dir: &str) -> (command: String)
    ensures
        command@ == script_command(action, script@, helpers_dir@),
{
    let mut c = joined("do shell script \"bash '", script);
    match action {
        HelperAction::Install => {
            c.append("' '");
            c.append(helpers_dir);
            c.append("'\" with administrator privileges");
        },
        HelperAction::Uninstall => {
            c.append("'\" with administrator privileges");
        },
    }
    c
}

/// The error where `osascript` cannot be started.
pub open spec fn launch_failure_text(action: HelperAction, detail: Seq<char>) -> Seq<char> {
    match action {
        HelperAction::Install => "Failed to run installer: "@ + detail,
        HelperAction::Uninstall => "Failed to run uninstaller: "@ + detail,
    }
}

/// The error where `osascript` cannot be started, with the cause's text.
pub fn launch_failure(action: HelperAction, detail: &str) -> (e: String)
    ensures
        e@ == launch_failure_text(action, detail@),
{
    match action {
        HelperAction::Install => joined("Failed to run installer: ", detail),
        HelperAction::Uninstall => joined("Failed to run uninstaller: ", detail),
    }
}

/// The user dismissed the password prompt: the error output says so, or
/// carries AppleScript's code -128.
pub open spec fn canceled_by_user(stderr: Seq<char>) -> bool {
    contains(stderr, "User canceled"@) || contains(stderr, "-128"@)
}

/// What the action answers once the script has run.
pub open spec fn outcome_text(
    action: HelperAction,
    success: bool,
    stdout: Seq<char>,
    stderr: Seq<char>,
) -> Result<Seq<char>, Seq<char>> {
    if success {
        match action {
            HelperAction::Install => Ok("Wake Helper installed successfully.\n"@ + stdout),
            HelperAction::Uninstall => Ok("Wake Helper uninstalled successfully."@),
        }
    } else if canceled_by_user(stderr) {
        match action {
            HelperAction::Install => Err("Installation canceled by the user."@),
            HelperAction::Uninstall => Err("Uninstallation canceled by the user."@),
        }
    } else {
        match action {
            HelperAction::Install => Err("Installation failed: "@ + stderr),
            HelperAction::Uninstall => Err("Uninstallation failed: "@ + stderr),
        }
    }
}

/// What the action answers, from whether the script succeeded and from
/// its standard output and error output as text.
pub fn helper_outcome_text(action: HelperAction, success: bool, stdout: &str, stderr: &str) -> (r:
    Result<String, String>)
    ensures
        result_text(r) == outcome_text(action, success, stdout@, stderr@),
        r is Ok <==> success,
        success && action == HelperAction::Install ==> result_text(r) == Ok::<Seq<char>, Seq<char>>(
            "Wake Helper installed successfully.\n"@ + stdout@,
        ),
        success && action == HelperAction::Uninstall ==> result_text(r) == Ok::<
            Seq<char>,
            Seq<char>,
        >("Wake Helper uninstalled successfully."@),
{
    proof {
        lemma_success_alone_decides(action, success, stdout@, stderr@);
    }
    if success {
        match action {
            HelperAction::Install => Ok(joined("Wake Helper installed successfully.\n", stdout)),
            HelperAction::Uninstall => Ok(String::from_str("Wake Helper uninstalled successfully.")),
        }
    } else if contains_str(stderr, "User canceled") || contains_str(stderr, "-128") {
        match action {
            HelperAction::Install => Err(String::from_str("Installation canceled by the user.")),
            HelperAction::Uninstall => Err(String::from_str("Uninstallation canceled by the user.")),
        }
    } else {
        match action {
            HelperAction::Install => Err(joined("Installation failed: ", stderr)),
            HelperAction::Uninstall => Err(joined("Uninstallation failed: ", stderr)),
        }
    }
}

/// What the action answers, from whether the script succeeded and from
/// the bytes of its standard output and error output, read as UTF-8 with
/// invalid sequences replaced.
pub fn helper_outcome(action: HelperAction, success: bool, stdout: &[u8], stderr: &[u8]) -> (r:
    Result<String, String>)
    ensures
        result_text(r) == outcome_text(action, success, utf8_lossy(stdout@), utf8_lossy(stderr@)),
        r is Ok <==> success,
{
    let out = lossy_string(stdout);
    let err = lossy_string(stderr);
    helper_outcome_text(action, success, out.as_str(), err.as_str())
}

/// Whether the script succeeded alone decides between an answer and an
/// error: a successful installation reports the script's output, a
/// successful removal reports it is done, whatever the output; a failed
/// script gives an error, a cancellation by the user or a failure with the
/// error output.
pub proof fn lemma_success_alone_decides(
    action: HelperAction,
    success: bool,
    stdout: Seq<char>,
    stderr: Seq<char>,
)
    ensures
        outcome_text(action, success, stdout, stderr) is Ok <==> success,
        success && action == HelperAction::Install ==> outcome_text(action, success, stdout, stderr)
            == Ok::<Seq<char>, Seq<char>>("Wake Helper installed successfully.\n"@ + stdout),
        success && action == HelperAction::Uninstall ==> outcome_text(
            action,
            success,
            stdout,
            stderr,
        ) == Ok::<Seq<char>, Seq<char>>("Wake Helper uninstalled successfully."@),
        !success && (contains(stderr, "User canceled"@) || contains(stderr, "-128"@)) ==> outcome_text(
            action,
            success,
            stdout,
            stderr,
        ) == Err::<Seq<char>, Seq<char>>(
            if action == HelperAction::Install {
                "Installation canceled by the user."@
            } else {
                "Uninstallation canceled by the user."@
            },
        ),
        !success && !(contains(stderr, "User canceled"@) || contains(stderr, "-128"@)) ==> outcome_text(
            action,
            success,
            stdout,
            stderr,
        ) == Err::<Seq<char>, Seq<char>>(
            if action == HelperAction::Install {
                "Installation failed: "@ + stderr
            } else {
                "Uninstallation failed: "@ + stderr
            },
        ),
{
}

/// What the status reports on macOS, field by field: installed where
/// either generation of the helper is, loaded where the `launchctl`
/// listing names the label in use (the old one only for an installation
/// from before the renaming alone), scheduled where a schedule was read
/// that is enabled and names a wake, the next wake as the schedule names
/// it, and the last lines of the log where it was read.
pub proof fn lemma_status_reports_what_was_read(
    p: InstallProbe,
    listing: Option<Seq<u8>>,
    schedule: Option<WakeScheduleView>,
    log: Option<Seq<char>>,
)
    ensures
        ({
            let s = status_of(true, p, listing, schedule, log);
            let label = if legacy_installed(p) && !current_installed(p) {
                LEGACY_HELPER_LABEL@
            } else {
                HELPER_LABEL@
            };
            &&& s.installed == (p.helper_binary && p.helper_plist || p.legacy_binary
                && p.legacy_plist)
            &&& s.daemon_loaded == (listing is Some && contains(utf8_lossy(listing->0), label))
            &&& s.has_schedule == (schedule is Some && schedule->0.enabled
                && schedule->0.next_wake is Some)
            &&& s.next_wake == (if schedule is Some {
                schedule->0.next_wake
            } else {
                None
            })
            &&& s.log_tail == (if log is Some {
                Some(join(last_items(lines_of(log->0), 10), seq!['\n']))
            } else {
                None
            })
        }),
{
}

} // verus!

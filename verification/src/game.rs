//! Game processes: reading the process list, the outcome of stopping a
//! game, and the monitor that follows a launched game until it exits.
//!
//! Running the process tools, sleeping and starting threads happen
//! outside; these functions read what the tools printed and decide.
use vstd::prelude::*;
use crate::download::text_of;
use crate::text::{
    chars_of, contains_chars, contains_seq, decimal, push_decimal, push_str,
    split_chars, split_on, str_contains, str_lines, text_lines, trim_both_char, trim_end_char_vec,
    trim_start_char_vec, trim_white, trim_white_vec,
};

verus! {

// ---------------------------------------------------------------------------
// The process list
// ---------------------------------------------------------------------------

/// A CSV line of `tasklist` names the process `exe`: it mentions it, is
/// not blank, and its first field, without quotes, is exactly `exe`.
pub open spec fn line_names_process(line: Seq<char>, exe: Seq<char>) -> bool {
    let fields = split_on(line, ',');
    &&& contains_seq(line, exe)
    &&& trim_white(line).len() > 0
    &&& fields.len() >= 2
    &&& trim_both_char(fields[0], '"') == exe
}

/// `tasklist /FO CSV` output lists the process `exe` on a line after the
/// header.
pub open spec fn lists_process(output: Seq<char>, exe: Seq<char>) -> bool {
    exists|k: int| 1 <= k < str_lines(output).len() && line_names_process(#[trigger] str_lines(output)[k], exe)
}

fn line_names(line: &Vec<char>, exe: &Vec<char>) -> (r: bool)
    ensures
        r == line_names_process(line@, exe@),
{
    if !contains_chars(line, exe) {
        return false;
    }
    let t = trim_white_vec(line);
    if t.len() == 0 {
        return false;
    }
    let fields = split_chars(line, ',');
    if fields.len() < 2 {
        return false;
    }
    let a = trim_start_char_vec(&fields[0], '"');
    let b = trim_end_char_vec(&a, '"');
    assert(fields@[0]@ == split_on(line@, ',')[0]);
    assert(b@ == trim_both_char(split_on(line@, ',')[0], '"'));
    if b.len() != exe.len() {
        return false;
    }
    let mut i: usize = 0;
    while i < b.len()
        invariant
            b@.len() == exe@.len(),
            b@ == trim_both_char(split_on(line@, ',')[0], '"'),
            i <= b@.len(),
            forall|k: int| 0 <= k < i ==> b@[k] == exe@[k],
        decreases b@.len() - i,
    {
        if b[i] != exe[i] {
            assert(b@[i as int] != exe@[i as int]);
            assert(b@ != exe@);
            return false;
        }
        i = i + 1;
    }
    assert(b@ =~= exe@);
    true
}

/// Whether `tasklist /FO CSV` printed a line for the process `exe`.
pub fn tasklist_lists_process(output: &str, exe: &str) -> (r: bool)
    ensures
        r == lists_process(output@, exe@),
{
    let cs = chars_of(output);
    let e = chars_of(exe);
    let lines = text_lines(&cs);
    let mut k: usize = 1;
    while k < lines.len()
        invariant
            lines@.len() == str_lines(output@).len(),
            forall|j: int| 0 <= j < lines@.len() ==> #[trigger] lines@[j]@ == str_lines(output@)[j],
            cs@ == output@,
            e@ == exe@,
            1 <= k,
            forall|j: int| 1 <= j < k && j < lines@.len() ==> !line_names_process(#[trigger] str_lines(output@)[j], exe@),
        decreases lines@.len() - k,
    {
        if line_names(&lines[k], &e) {
            assert(line_names_process(str_lines(output@)[k as int], exe@));
            return true;
        }
        k = k + 1;
    }
    false
}

// ---------------------------------------------------------------------------
// Stopping processes
// ---------------------------------------------------------------------------

/// Whether a `taskkill` error says that there was nothing to stop.
pub open spec fn nothing_to_stop(stderr: Seq<char>) -> bool {
    contains_seq(stderr, "not found"@) || contains_seq(stderr, "not running"@)
}

/// When `tasklist /FI "PID eq pid"` succeeded and does not mention the
/// pid, the process is already gone: the message saying so.
pub fn pid_already_gone(pid: u32, listing: &str) -> (r: Option<String>)
    ensures
        contains_seq(listing@, decimal(pid as nat)) ==> r is None,
        !contains_seq(listing@, decimal(pid as nat)) ==> (r matches Some(m) && m@ == "Process with PID "@
            + decimal(pid as nat) + " is not running (already terminated)"@),
{
    let mut p = String::new();
    push_decimal(&mut p, pid as u64);
    if str_contains(listing, p.as_str()) {
        None
    } else {
        let mut m = String::new();
        push_str(&mut m, "Process with PID ");
        push_str(&mut m, p.as_str());
        push_str(&mut m, " is not running (already terminated)");
        Some(m)
    }
}

/// The outcome of `taskkill /PID pid /F`.
pub fn stop_process_outcome(pid: u32, succeeded: bool, stderr: &str) -> (r: Result<String, String>)
    ensures
        succeeded ==> (r matches Ok(m) && m@ == "Successfully terminated process with PID: "@
            + decimal(pid as nat)),
        !succeeded && nothing_to_stop(stderr@) ==> (r matches Ok(m) && m@ == "Process with PID "@
            + decimal(pid as nat) + " was not running (already terminated)"@),
        !succeeded && !nothing_to_stop(stderr@) ==> (r matches Err(m) && m@
            == "Failed to terminate process: "@ + stderr@),
{
    if succeeded {
        let mut m = String::new();
        push_str(&mut m, "Successfully terminated process with PID: ");
        push_decimal(&mut m, pid as u64);
        Ok(m)
    } else if str_contains(stderr, "not found") || str_contains(stderr, "not running") {
        let mut m = String::new();
        push_str(&mut m, "Process with PID ");
        push_decimal(&mut m, pid as u64);
        push_str(&mut m, " was not running (already terminated)");
        Ok(m)
    } else {
        let mut m = String::new();
        push_str(&mut m, "Failed to terminate process: ");
        push_str(&mut m, stderr);
        Err(m)
    }
}

/// The outcome of `taskkill /IM exe /F` when stopping a game.
pub fn stop_game_outcome(exe: &str, succeeded: bool, stderr: &str) -> (r: Result<String, String>)
    ensures
        succeeded ==> (r matches Ok(m) && m@ == "Successfully terminated: "@ + exe@),
        !succeeded && nothing_to_stop(stderr@) ==> (r matches Ok(m) && m@
            == "No game processes were running"@),
        !succeeded && !nothing_to_stop(stderr@) ==> (r matches Err(m) && m@ == "Failed to terminate "@
            + exe@ + ": "@ + stderr@),
{
    if succeeded {
        let mut m = String::new();
        push_str(&mut m, "Successfully terminated: ");
        push_str(&mut m, exe);
        Ok(m)
    } else if str_contains(stderr, "not found") || str_contains(stderr, "not running") {
        Ok(text_of("No game processes were running"))
    } else {
        let mut m = String::new();
        push_str(&mut m, "Failed to terminate ");
        push_str(&mut m, exe);
        push_str(&mut m, ": ");
        push_str(&mut m, stderr);
        Err(m)
    }
}

/// A step of closing a running game before patching it.
pub enum KillStep {
    /// Done, with this result.
    Finished(Result<String, String>),
    /// Ask the game to close (`taskkill /IM exe /T`).
    CloseGracefully,
    /// Force it to close (`taskkill /IM exe /T /F`).
    ForceClose,
}

/// After listing processes: failed, nothing to close, or close it.
pub fn kill_after_listing(exe: &str, listing_ok: bool, listing: &str, stderr: &str) -> (r: KillStep)
    ensures
        !listing_ok ==> (r matches KillStep::Finished(Err(m)) && m@ == "Failed to check process status: "@
            + stderr@),
        listing_ok && !lists_process(listing@, exe@) ==> (r matches KillStep::Finished(Ok(m)) && m@
            == "No game processes were running"@),
        listing_ok && lists_process(listing@, exe@) ==> r is CloseGracefully,
{
    if !listing_ok {
        let mut m = String::new();
        push_str(&mut m, "Failed to check process status: ");
        push_str(&mut m, stderr);
        KillStep::Finished(Err(m))
    } else if tasklist_lists_process(listing, exe) {
        KillStep::CloseGracefully
    } else {
        KillStep::Finished(Ok(text_of("No game processes were running")))
    }
}

/// After asking the game to close: done, or force it.
pub fn kill_after_graceful(exe: &str, succeeded: bool) -> (r: KillStep)
    ensures
        succeeded ==> (r matches KillStep::Finished(Ok(m)) && m@ == "Killed game process: "@ + exe@),
        !succeeded ==> r is ForceClose,
{
    if succeeded {
        let mut m = String::new();
        push_str(&mut m, "Killed game process: ");
        push_str(&mut m, exe);
        KillStep::Finished(Ok(m))
    } else {
        KillStep::ForceClose
    }
}

/// After forcing the game to close; `graceful_error` is what the gentle
/// attempt printed.
pub fn kill_after_force(exe: &str, succeeded: bool, graceful_error: &str) -> (r: Result<String, String>)
    ensures
        succeeded ==> (r matches Ok(m) && m@ == "Force killed game process: "@ + exe@),
        !succeeded ==> (r matches Err(m) && m@ == "Failed to kill "@ + exe@ + ": "@ + graceful_error@),
{
    let mut m = String::new();
    if succeeded {
        push_str(&mut m, "Force killed game process: ");
        push_str(&mut m, exe);
        Ok(m)
    } else {
        push_str(&mut m, "Failed to kill ");
        push_str(&mut m, exe);
        push_str(&mut m, ": ");
        push_str(&mut m, graceful_error);
        Err(m)
    }
}

// ---------------------------------------------------------------------------
// The game monitor
// ---------------------------------------------------------------------------

/// The monitor waits this many one-second checks for the game to start.
pub const MAX_STARTUP_CHECKS: u32 = 30;

/// After this many failed checks in a row a started game is taken as
/// stopped.
pub const MAX_MONITOR_ERRORS: u32 = 5;

/// What the monitor knows of the game it follows.
pub struct GameMonitor {
    pub game_started: bool,
    pub startup_checks: u32,
    pub consecutive_errors: u32,
    pub last_game_state: bool,
    pub proxy_started_by_us: bool,
}

/// What the monitor does next.
pub enum MonitorAction {
    /// Wait (one second while the game starts, three once it runs), then
    /// check again.
    WaitAndCheck(u32),
    /// The game just started: start the proxy (when `start_proxy`) and
    /// the Task Manager watch, then wait a second.
    GameStarted { start_proxy: bool },
    /// Stop following the game: restore its files (when `cleanup`) and
    /// stop the proxy (when `stop_proxy`).
    Stop { cleanup: bool, stop_proxy: bool },
}

/// Whether the proxy is to start with the game: as the patch information
/// says, and yes when there is none.
pub open spec fn proxy_wanted(patch_proxy: Option<bool>) -> bool {
    match patch_proxy {
        Some(p) => p,
        None => true,
    }
}

/// When the game starts the monitor asks for the proxy unless the patch
/// server said no: only an explicit `Some(false)` leaves it off, and with
/// no patch information it is started.
pub proof fn lemma_proxy_wanted_unless_refused(patch_proxy: Option<bool>)
    ensures
        proxy_wanted(patch_proxy) <==> patch_proxy != Some(false),
{
}

impl GameMonitor {
    /// A monitor waiting for its game to start.
    pub fn new() -> (r: GameMonitor)
        ensures
            r.wf(),
            !r.game_started,
            r.startup_checks == 0,
            r.consecutive_errors == 0,
            !r.last_game_state,
            !r.proxy_started_by_us,
    {
        GameMonitor {
            game_started: false,
            startup_checks: 0,
            consecutive_errors: 0,
            last_game_state: false,
            proxy_started_by_us: false,
        }
    }

    /// The monitor's counters stay within their limits, and a started game
    /// was seen running.
    pub open spec fn wf(&self) -> bool {
        &&& self.startup_checks <= MAX_STARTUP_CHECKS
        &&& self.consecutive_errors < MAX_MONITOR_ERRORS
        &&& self.game_started ==> self.last_game_state
    }

    /// Before a check while the game has not started: counts it, and gives
    /// up after 30. Giving up stops the proxy only when the monitor started
    /// it and it still runs; the monitor then no longer counts it as its
    /// own.
    pub fn before_startup_check(&mut self, proxy_running: bool) -> (r: Option<MonitorAction>)
        requires
            old(self).wf(),
            !old(self).game_started,
        ensures
            final(self).wf(),
            old(self).startup_checks + 1 > MAX_STARTUP_CHECKS ==> {
                let stop = old(self).proxy_started_by_us && proxy_running;
                &&& r == Some(MonitorAction::Stop { cleanup: false, stop_proxy: stop })
                &&& *final(self) == (GameMonitor {
                    proxy_started_by_us: old(self).proxy_started_by_us && !stop,
                    ..*old(self)
                })
            },
            old(self).startup_checks + 1 <= MAX_STARTUP_CHECKS ==> {
                &&& r is None
                &&& *final(self) == (GameMonitor {
                    startup_checks: (old(self).startup_checks + 1) as u32,
                    ..*old(self)
                })
            },
            match r {
                Some(MonitorAction::Stop { stop_proxy, .. }) => {
                    &&& stop_proxy ==> old(self).proxy_started_by_us
                    &&& final(self).proxy_started_by_us == (old(self).proxy_started_by_us
                        && !stop_proxy)
                },
                _ => final(self).proxy_started_by_us == old(self).proxy_started_by_us,
            },
    {
        if self.startup_checks + 1 > MAX_STARTUP_CHECKS {
            let stop = self.proxy_started_by_us && proxy_running;
            if stop {
                self.proxy_started_by_us = false;
            }
            return Some(MonitorAction::Stop { cleanup: false, stop_proxy: stop });
        }
        self.startup_checks = self.startup_checks + 1;
        None
    }

    /// The result of a check while waiting for the game (`None` when the
    /// check failed).
    pub fn after_startup_check(&mut self, running: Option<bool>, patch_proxy: Option<bool>) -> (r:
        MonitorAction)
        requires
            old(self).wf(),
            !old(self).game_started,
        ensures
            final(self).wf(),
            running == Some(true) ==> {
                &&& r == MonitorAction::GameStarted { start_proxy: proxy_wanted(patch_proxy) }
                &&& final(self).game_started && final(self).last_game_state
            },
            running != Some(true) ==> r == MonitorAction::WaitAndCheck(1) && *final(self) == *old(
                self,
            ),
            final(self).startup_checks == old(self).startup_checks,
            final(self).consecutive_errors == old(self).consecutive_errors,
            final(self).proxy_started_by_us == old(self).proxy_started_by_us,
    {
        match running {
            Some(true) => {
                self.game_started = true;
                self.last_game_state = true;
                let start = match patch_proxy {
                    Some(p) => p,
                    None => true,
                };
                MonitorAction::GameStarted { start_proxy: start }
            },
            _ => MonitorAction::WaitAndCheck(1),
        }
    }

    /// The proxy was started because the game started.
    pub fn proxy_started(&mut self)
        requires
            old(self).wf(),
        ensures
            final(self).wf(),
            *final(self) == (GameMonitor { proxy_started_by_us: true, ..*old(self) }),
    {
        self.proxy_started_by_us = true;
    }

    /// The result of a check while the game runs (`None` when the check
    /// failed): a stopped game ends the monitor with cleanup; five failed
    /// checks in a row end it too. Ending stops the proxy only when the
    /// monitor started it and it still runs; the monitor then no longer
    /// counts it as its own. Nothing else changes whose proxy it is.
    pub fn after_running_check(&mut self, running: Option<bool>, proxy_running: bool) -> (r:
        MonitorAction)
        requires
            old(self).wf(),
            old(self).game_started,
        ensures
            final(self).wf(),
            running == Some(true) ==> {
                &&& r == MonitorAction::WaitAndCheck(3)
                &&& *final(self) == (GameMonitor { consecutive_errors: 0, ..*old(self) })
            },
            running == Some(false) ==> {
                let stop = proxy_running && old(self).proxy_started_by_us;
                &&& r == (MonitorAction::Stop { cleanup: true, stop_proxy: stop })
                &&& *final(self) == (GameMonitor {
                    consecutive_errors: 0,
                    proxy_started_by_us: old(self).proxy_started_by_us && !stop,
                    ..*old(self)
                })
            },
            running is None && old(self).consecutive_errors + 1 >= MAX_MONITOR_ERRORS ==> {
                let stop = proxy_running && old(self).proxy_started_by_us;
                &&& r == (MonitorAction::Stop { cleanup: false, stop_proxy: stop })
                &&& *final(self) == (GameMonitor {
                    consecutive_errors: 0,
                    proxy_started_by_us: old(self).proxy_started_by_us && !stop,
                    ..*old(self)
                })
            },
            running is None && old(self).consecutive_errors + 1 < MAX_MONITOR_ERRORS ==> {
                &&& r == MonitorAction::WaitAndCheck(3)
                &&& *final(self) == (GameMonitor {
                    consecutive_errors: (old(self).consecutive_errors + 1) as u32,
                    ..*old(self)
                })
            },
            match r {
                MonitorAction::Stop { stop_proxy, .. } => {
                    &&& stop_proxy ==> old(self).proxy_started_by_us
                    &&& final(self).proxy_started_by_us == (old(self).proxy_started_by_us
                        && !stop_proxy)
                },
                _ => final(self).proxy_started_by_us == old(self).proxy_started_by_us,
            },
    {
        match running {
            Some(true) => {
                self.consecutive_errors = 0;
                MonitorAction::WaitAndCheck(3)
            },
            Some(false) => {
                self.consecutive_errors = 0;
                let stop = proxy_running && self.proxy_started_by_us;
                if stop {
                    self.proxy_started_by_us = false;
                }
                MonitorAction::Stop { cleanup: true, stop_proxy: stop }
            },
            None => {
                if self.consecutive_errors + 1 >= MAX_MONITOR_ERRORS {
                    let stop = proxy_running && self.proxy_started_by_us;
                    if stop {
                        self.proxy_started_by_us = false;
                    }
                    self.consecutive_errors = 0;
                    MonitorAction::Stop { cleanup: false, stop_proxy: stop }
                } else {
                    self.consecutive_errors = self.consecutive_errors + 1;
                    MonitorAction::WaitAndCheck(3)
                }
            },
        }
    }

    /// When the monitor ends: whether the proxy it started still needs
    /// stopping.
    pub fn proxy_left_running(&self, proxy_running: bool) -> (r: bool)
        ensures
            r == (self.proxy_started_by_us && proxy_running),
    {
        self.proxy_started_by_us && proxy_running
    }
}

// ---------------------------------------------------------------------------
// Launch checks and messages
// ---------------------------------------------------------------------------

/// What the patch check before a launch reports.
pub struct PatchCheckResult {
    pub has_message: bool,
    pub message: String,
    pub can_proceed: bool,
}

/// The patch check's report from the server's message (`None` when the
/// patch information could not be had): the launch may always proceed.
pub fn patch_check_result(message: Option<String>) -> (r: PatchCheckResult)
    ensures
        r.can_proceed,
        match message {
            Some(m) if m@.len() > 0 => r.has_message && r.message == m,
            _ => !r.has_message && r.message@.len() == 0,
        },
{
    match message {
        Some(m) => {
            if m.unicode_len() > 0 {
                PatchCheckResult { has_message: true, message: m, can_proceed: true }
            } else {
                PatchCheckResult { has_message: false, message: String::new(), can_proceed: true }
            }
        },
        None => PatchCheckResult { has_message: false, message: String::new(), can_proceed: true },
    }
}

/// The error when a game's folder is not configured.
pub fn folder_not_set_message(game_id: &str, version: &str) -> (r: String)
    ensures
        r@ == "Game folder path not set for "@ + game_id@ + " version "@ + version@
            + ". Please configure it in game settings."@,
{
    let mut m = String::new();
    push_str(&mut m, "Game folder path not set for ");
    push_str(&mut m, game_id);
    push_str(&mut m, " version ");
    push_str(&mut m, version);
    push_str(&mut m, ". Please configure it in game settings.");
    m
}

/// The error for asking where a game is installed: the path is only
/// known to the front end.
pub fn get_game_folder_path(game_id: &str, version: &str) -> (r: Result<String, String>)
    ensures
        r matches Err(m) && m@ == "Game folder path not configured for game "@ + game_id@
            + " version "@ + version@ + ". Please set it in game settings."@,
{
    let mut m = String::new();
    push_str(&mut m, "Game folder path not configured for game ");
    push_str(&mut m, game_id);
    push_str(&mut m, " version ");
    push_str(&mut m, version);
    push_str(&mut m, ". Please set it in game settings.");
    Err(m)
}

/// What a launch reports: a message and the game's process id.
pub struct LaunchResult {
    pub message: String,
    pub process_id: u32,
}

/// The report of a launched game: its executable, the MD5 of the
/// executable, and its process id.
pub fn launch_result(exe_path: &str, md5: &str, process_id: u32) -> (r: LaunchResult)
    ensures
        r.message@ == "Successfully launched: "@ + exe_path@ + " > "@ + md5@,
        r.process_id == process_id,
{
    LaunchResult { message: launched_message(exe_path, md5), process_id }
}

/// The report of a successful launch.
pub fn launched_message(exe_path: &str, md5: &str) -> (r: String)
    ensures
        r@ == "Successfully launched: "@ + exe_path@ + " > "@ + md5@,
{
    let mut m = String::new();
    push_str(&mut m, "Successfully launched: ");
    push_str(&mut m, exe_path);
    push_str(&mut m, " > ");
    push_str(&mut m, md5);
    m
}

/// The report of a valid game directory.
pub fn valid_directory_message(folder: &str, exe: &str, md5: &str) -> (r: String)
    ensures
        r@ == "Valid game directory: "@ + folder@ + " (executable: "@ + exe@ + ", MD5: "@ + md5@
            + ")"@,
{
    let mut m = String::new();
    push_str(&mut m, "Valid game directory: ");
    push_str(&mut m, folder);
    push_str(&mut m, " (executable: ");
    push_str(&mut m, exe);
    push_str(&mut m, ", MD5: ");
    push_str(&mut m, md5);
    push_str(&mut m, ")");
    m
}

/// Where an installed game is looked for: `C:\Games\{game_id}\game.exe`.
/// A game counts as installed when this file exists.
pub fn game_installation_path(game_id: &str) -> (r: String)
    ensures
        r@ == "C:\\Games\\"@ + game_id@ + "\\game.exe"@,
{
    let mut p = String::new();
    push_str(&mut p, "C:\\Games\\");
    push_str(&mut p, game_id);
    push_str(&mut p, "\\game.exe");
    p
}

/// The title of the warning shown when the launcher is asked to close
/// while a game runs.
pub open spec fn close_refused_title() -> Seq<char> {
    "Game Running - Cannot Close Launcher"@
}

/// The text of that warning.
pub open spec fn close_refused_text() -> Seq<char> {
    "Cannot close launcher while a game is running.\n\nClosing the launcher while playing will cause:\n\u{2022} Proxy settings not to be turned off automatically\n\u{2022} Remaining patch files not to be deleted\n\u{2022} Game may not run normally on official servers\n\nPlease close the game first, then close the launcher."@
}

/// What a request to close the launcher meets, given whether a game is
/// running (`None` when that could not be found out): while a game runs
/// the close is refused and a warning (title, text) is shown; otherwise,
/// an unknown answer included, the launcher closes.
pub fn close_guard(game_running: Option<bool>) -> (r: Option<(String, String)>)
    ensures
        r is Some <==> game_running == Some(true),
        r matches Some(w) ==> w.0@ == close_refused_title() && w.1@ == close_refused_text(),
{
    match game_running {
        Some(true) => Some((
            text_of("Game Running - Cannot Close Launcher"),
            text_of(
                "Cannot close launcher while a game is running.\n\nClosing the launcher while playing will cause:\n\u{2022} Proxy settings not to be turned off automatically\n\u{2022} Remaining patch files not to be deleted\n\u{2022} Game may not run normally on official servers\n\nPlease close the game first, then close the launcher.",
            ),
        )),
        _ => None,
    }
}

} // verus!

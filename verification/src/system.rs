//! System chores: reading what the Windows tools print about the system
//! proxy, the certificate store and running processes; which files are
//! kept when launcher data is cleared; and when to warn that Task Manager
//! is open during a game.
use vstd::prelude::*;
use crate::download::text_of;
use crate::text::{contains_seq, decimal, push_decimal, push_str, str_contains, str_equal};
use crate::utils::{to_lowercase, unicode_lowercase};

verus! {

/// Whether Task Manager runs, from what `tasklist /FI "IMAGENAME eq
/// Taskmgr.exe"` printed; a failed `tasklist` is an error.
pub fn is_task_manager_running(succeeded: bool, stdout: &str) -> (r: Result<bool, String>)
    ensures
        succeeded ==> r == Ok::<bool, String>(contains_seq(stdout@, "Taskmgr.exe"@)),
        !succeeded ==> (r matches Err(e) && e@ == "Failed to execute tasklist command"@),
{
    if succeeded {
        Ok(str_contains(stdout, "Taskmgr.exe"))
    } else {
        Err(text_of("Failed to execute tasklist command"))
    }
}

/// The registry query shows the system proxy switched on.
pub open spec fn proxy_switched_on(query: Seq<char>) -> bool {
    contains_seq(query, "ProxyEnable"@) && contains_seq(query, "0x1"@)
}

/// What to do after querying the system proxy setting.
pub enum ProxyCheckStep {
    /// It is on: switch it off.
    SwitchOff,
    /// Done, with this result.
    Finished(Result<String, String>),
}

/// After `reg query ... /v ProxyEnable`.
pub fn after_proxy_query(succeeded: bool, stdout: &str, stderr: &str) -> (r: ProxyCheckStep)
    ensures
        succeeded && proxy_switched_on(stdout@) ==> r is SwitchOff,
        succeeded && !proxy_switched_on(stdout@) ==> (r matches ProxyCheckStep::Finished(Ok(m))
            && m@ == "Windows proxy is already disabled"@),
        !succeeded ==> (r matches ProxyCheckStep::Finished(Err(m)) && m@
            == "Failed to check proxy settings: "@ + stderr@),
{
    if succeeded {
        if str_contains(stdout, "ProxyEnable") && str_contains(stdout, "0x1") {
            ProxyCheckStep::SwitchOff
        } else {
            ProxyCheckStep::Finished(Ok(text_of("Windows proxy is already disabled")))
        }
    } else {
        let mut m = String::new();
        push_str(&mut m, "Failed to check proxy settings: ");
        push_str(&mut m, stderr);
        ProxyCheckStep::Finished(Err(m))
    }
}

/// After `reg add ... /v ProxyEnable /d 0`.
pub fn after_proxy_switch_off(succeeded: bool, stderr: &str) -> (r: Result<String, String>)
    ensures
        succeeded ==> (r matches Ok(m) && m@ == "Windows proxy has been disabled successfully"@),
        !succeeded ==> (r matches Err(m) && m@ == "Failed to disable Windows proxy: "@ + stderr@),
{
    if succeeded {
        Ok(text_of("Windows proxy has been disabled successfully"))
    } else {
        let mut m = String::new();
        push_str(&mut m, "Failed to disable Windows proxy: ");
        push_str(&mut m, stderr);
        Err(m)
    }
}

/// Whether `certutil -store Root` lists the launcher's certificate: its
/// output, in lowercase, mentions `yuukips`. A failed listing counts as
/// not installed.
pub fn certificate_listed(succeeded: bool, stdout: &str) -> (r: bool)
    ensures
        r == (succeeded && contains_seq(unicode_lowercase(stdout@), "yuukips"@)),
{
    if !succeeded {
        return false;
    }
    let lower = to_lowercase(stdout);
    str_contains(lower.as_str(), "yuukips")
}

/// The outcome of `certutil -addstore Root cert`.
pub fn certificate_install_outcome(succeeded: bool, stdout: &str, stderr: &str, cert_path: &str) -> (r:
    Result<String, String>)
    ensures
        succeeded && contains_seq(stdout@, "completed successfully"@) ==> (r matches Ok(m) && m@
            == "SSL certificate installed successfully: "@ + cert_path@),
        succeeded && !contains_seq(stdout@, "completed successfully"@) && (contains_seq(
            stdout@,
            "already exists"@,
        ) || contains_seq(stdout@, "duplicate"@)) ==> (r matches Ok(m) && m@
            == "SSL certificate is already installed: "@ + cert_path@),
        succeeded && !contains_seq(stdout@, "completed successfully"@) && !contains_seq(
            stdout@,
            "already exists"@,
        ) && !contains_seq(stdout@, "duplicate"@) ==> (r matches Err(m) && m@
            == "Certificate installation may have failed: "@ + stdout@),
        !succeeded ==> (r matches Err(m) && m@ == "Failed to install SSL certificate: "@ + stderr@),
{
    let mut m = String::new();
    if succeeded {
        if str_contains(stdout, "completed successfully") {
            push_str(&mut m, "SSL certificate installed successfully: ");
            push_str(&mut m, cert_path);
            Ok(m)
        } else if str_contains(stdout, "already exists") || str_contains(stdout, "duplicate") {
            push_str(&mut m, "SSL certificate is already installed: ");
            push_str(&mut m, cert_path);
            Ok(m)
        } else {
            push_str(&mut m, "Certificate installation may have failed: ");
            push_str(&mut m, stdout);
            Err(m)
        }
    } else {
        push_str(&mut m, "Failed to install SSL certificate: ");
        push_str(&mut m, stderr);
        Err(m)
    }
}

/// Whether an entry named `name` is kept: it is one of `preserve`.
pub fn is_preserved(name: &str, preserve: &Vec<&str>) -> (r: bool)
    ensures
        r == exists|i: int| 0 <= i < preserve@.len() && #[trigger] preserve@[i]@ == name@,
{
    let mut i: usize = 0;
    while i < preserve.len()
        invariant
            i <= preserve@.len(),
            forall|k: int| 0 <= k < i ==> #[trigger] preserve@[k]@ != name@,
        decreases preserve@.len() - i,
    {
        if str_equal(preserve[i], name) {
            return true;
        }
        i = i + 1;
    }
    false
}

/// The label of a cleared folder with the number of entries removed.
pub fn cleared_item_label(what: &str, n: u64) -> (r: String)
    ensures
        r@ == what@ + " ("@ + decimal(n as nat) + " items)"@,
{
    let mut m = String::new();
    push_str(&mut m, what);
    push_str(&mut m, " (");
    push_decimal(&mut m, n);
    push_str(&mut m, " items)");
    m
}

/// `items` joined by `sep`.
pub open spec fn joined(items: Seq<Seq<char>>, sep: Seq<char>) -> Seq<char>
    decreases items.len(),
{
    if items.len() == 0 {
        Seq::empty()
    } else if items.len() == 1 {
        items[0]
    } else {
        joined(items.drop_last(), sep) + sep + items.last()
    }
}

/// The report of clearing launcher data.
pub fn cleared_summary(items: &Vec<String>) -> (r: String)
    ensures
        items@.len() == 0 ==> r@ == "No launcher data found to clear"@,
        items@.len() > 0 ==> r@ == "Successfully cleared: "@ + joined(
            items@.map_values(|s: String| s@),
            ", "@,
        ),
{
    if items.len() == 0 {
        return text_of("No launcher data found to clear");
    }
    let mut m = String::new();
    push_str(&mut m, "Successfully cleared: ");
    let ghost head = m@;
    let mut i: usize = 0;
    while i < items.len()
        invariant
            i <= items@.len(),
            items@.len() > 0,
            m@ == head + joined(items@.subrange(0, i as int).map_values(|s: String| s@), ", "@),
        decreases items@.len() - i,
    {
        let ghost before = items@.subrange(0, i as int).map_values(|s: String| s@);
        let ghost after = items@.subrange(0, i + 1).map_values(|s: String| s@);
        assert(after.drop_last() =~= before);
        if i > 0 {
            push_str(&mut m, ", ");
        }
        push_str(&mut m, items[i].as_str());
        i = i + 1;
        proof {
            if i == 1 {
                assert(after.len() == 1);
                assert(m@ =~= head + joined(after, ", "@));
            } else {
                assert(m@ =~= head + joined(after, ", "@));
            }
        }
    }
    assert(items@.subrange(0, items@.len() as int) =~= items@);
    m
}

/// Watches for Task Manager while a game runs, to warn once each time it
/// opens.
pub struct TaskManagerWatch {
    pub last_state: bool,
    pub warning_shown: bool,
}

/// What a Task Manager check calls for.
pub enum WatchStep {
    /// No game runs any more: stop watching.
    Stop,
    /// Go on watching; warn the player first when `warn`.
    Continue { warn: bool },
}

impl TaskManagerWatch {
    /// Nothing seen yet.
    pub fn new() -> (r: TaskManagerWatch)
        ensures
            !r.last_state && !r.warning_shown,
    {
        TaskManagerWatch { last_state: false, warning_shown: false }
    }

    /// One check: stop when no game runs; warn when Task Manager has just
    /// opened and no warning is showing; forget the warning once it closes.
    pub fn step(&mut self, game_running: bool, task_manager_running: bool) -> (r: WatchStep)
        ensures
            !game_running ==> r is Stop && *final(self) == *old(self),
            game_running ==> {
                let warn = task_manager_running && !old(self).last_state && !old(
                    self,
                ).warning_shown;
                &&& r == WatchStep::Continue { warn }
                &&& final(self).last_state == task_manager_running
                &&& final(self).warning_shown == (task_manager_running && (warn || old(
                    self,
                ).warning_shown))
            },
    {
        if !game_running {
            return WatchStep::Stop;
        }
        let warn = task_manager_running && !self.last_state && !self.warning_shown;
        if warn {
            self.warning_shown = true;
        }
        if !task_manager_running {
            self.warning_shown = false;
        }
        self.last_state = task_manager_running;
        WatchStep::Continue { warn }
    }
}

/// The text of the warning shown when Task Manager opens during a game.
pub fn task_manager_warning() -> (r: String)
    ensures
        r@ == "Task Manager detected while game is running!\n\nWarning: Closing game through Task Manager may cause issues:\n• Proxy settings may not be deactivated automatically\n• Remaining patch files may not be deleted\n• Game may not run normally on official servers\n\nPlease use the launcher to properly close the game instead."@,
{
    text_of(
        "Task Manager detected while game is running!\n\nWarning: Closing game through Task Manager may cause issues:\n• Proxy settings may not be deactivated automatically\n• Remaining patch files may not be deleted\n• Game may not run normally on official servers\n\nPlease use the launcher to properly close the game instead.",
    )
}

/// How much the launcher logs.
#[derive(Clone, Copy, Debug, PartialEq, Eq, Structural)]
pub enum LogLevel {
    Error,
    Warn,
    Info,
    Debug,
    Trace,
    Off,
}

/// The level a lowercase setting names; anything else is `Info`.
pub open spec fn level_named(s: Seq<char>) -> LogLevel {
    if s == "error"@ {
        LogLevel::Error
    } else if s == "warn"@ {
        LogLevel::Warn
    } else if s == "info"@ {
        LogLevel::Info
    } else if s == "debug"@ {
        LogLevel::Debug
    } else if s == "trace"@ {
        LogLevel::Trace
    } else if s == "off"@ {
        LogLevel::Off
    } else {
        LogLevel::Info
    }
}

/// The log level from the `TAURI_LOG_LEVEL` setting, in any letter case;
/// `Info` when it is not set or not known.
pub fn log_level_from(setting: Option<&str>) -> (r: LogLevel)
    ensures
        match setting {
            Some(s) => r == level_named(unicode_lowercase(s@)),
            None => r == LogLevel::Info,
        },
{
    match setting {
        None => LogLevel::Info,
        Some(s) => {
            let lower = to_lowercase(s);
            let l = lower.as_str();
            if str_equal(l, "error") {
                LogLevel::Error
            } else if str_equal(l, "warn") {
                LogLevel::Warn
            } else if str_equal(l, "info") {
                LogLevel::Info
            } else if str_equal(l, "debug") {
                LogLevel::Debug
            } else if str_equal(l, "trace") {
                LogLevel::Trace
            } else if str_equal(l, "off") {
                LogLevel::Off
            } else {
                LogLevel::Info
            }
        },
    }
}

} // verus!

//! Self-update: the name a downloaded update is saved under, which kind
//! of installer it is, the script that installs it once the launcher has
//! closed, and how HTTP client errors are explained.
use vstd::prelude::*;
use crate::download::text_of;
use crate::text::{chars_of, contains_seq, ends_with, push_str, split_chars, split_on, str_contains, str_ends_with};

verus! {

/// A release of the launcher as the GitHub API describes it.
pub struct GitHubRelease {
    pub tag_name: String,
    pub name: String,
    pub body: String,
    pub published_at: String,
    pub assets: Vec<GitHubAsset>,
}

/// A file attached to a release.
pub struct GitHubAsset {
    pub name: String,
    pub browser_download_url: String,
    pub size: u64,
}

/// The last `/`-separated piece of a download address: the update's file
/// name.
pub open spec fn update_file_name_of(url: Seq<char>) -> Seq<char> {
    split_on(url, '/').last()
}

/// The file name an update download is saved under.
pub fn update_file_name(url: &str) -> (r: String)
    ensures
        r@ == update_file_name_of(url@),
{
    let cs = chars_of(url);
    let pieces = split_chars(&cs, '/');
    proof {
        crate::text::lemma_split_on_nonempty(url@, '/');
    }
    let last = &pieces[pieces.len() - 1];
    let mut r = String::new();
    let mut i: usize = 0;
    while i < last.len()
        invariant
            i <= last@.len(),
            r@ == last@.subrange(0, i as int),
        decreases last@.len() - i,
    {
        crate::text::push_char(&mut r, last[i]);
        i = i + 1;
    }
    assert(last@.subrange(0, last@.len() as int) =~= last@);
    r
}

/// The kinds of installer an update can be.
pub enum InstallerKind {
    Msi,
    Exe,
}

/// Which installer an update file is, by its name; others are refused.
pub fn installer_kind(file_name: &str) -> (r: Result<InstallerKind, String>)
    ensures
        ends_with(file_name@, ".msi"@) ==> r matches Ok(InstallerKind::Msi),
        !ends_with(file_name@, ".msi"@) && ends_with(file_name@, ".exe"@) ==> r matches Ok(
            InstallerKind::Exe,
        ),
        !ends_with(file_name@, ".msi"@) && !ends_with(file_name@, ".exe"@) ==> (r matches Err(e)
            && e@ == "Unsupported update file format"@),
{
    if str_ends_with(file_name, ".msi") {
        Ok(InstallerKind::Msi)
    } else if str_ends_with(file_name, ".exe") {
        Ok(InstallerKind::Exe)
    } else {
        Err(text_of("Unsupported update file format"))
    }
}

/// The first part of every installer script: wait for the launcher to
/// close.
pub open spec fn script_head() -> Seq<char> {
    "@echo off\necho Waiting for launcher to close...\ntimeout /t 3 /nobreak >nul\necho Installing update...\n"@
}

/// The last part of every installer script: restart the launcher on
/// success, else stop and show the failure.
pub open spec fn script_tail(launcher: Seq<char>) -> Seq<char> {
    "if %ERRORLEVEL% EQU 0 (\n    echo Update installed successfully\n    echo Restarting launcher...\n    start \"\" \""@
        + launcher
        + "\"\n) else (\n    echo Update installation failed\n    pause\n)\n"@
}

/// The installer line of the script for `kind`.
pub open spec fn install_line(kind: InstallerKind, installer: Seq<char>) -> Seq<char> {
    match kind {
        InstallerKind::Msi => "powershell -Command \"Start-Process 'msiexec' -ArgumentList '/i \\\""@
            + installer + "\\\", /quiet, /norestart' -Verb RunAs -Wait\"\n"@,
        InstallerKind::Exe => "powershell -Command \"Start-Process '"@ + installer
            + "' -ArgumentList '/S' -Verb RunAs -Wait\"\n"@,
    }
}

/// The batch script that installs the update `installer` with
/// administrator rights once the launcher has closed, then starts the
/// launcher at `launcher` again.
pub fn installer_script(kind: InstallerKind, installer: &str, launcher: &str) -> (r: String)
    ensures
        r@ == script_head() + install_line(kind, installer@) + script_tail(launcher@),
{
    let mut s = String::new();
    push_str(
        &mut s,
        "@echo off\necho Waiting for launcher to close...\ntimeout /t 3 /nobreak >nul\necho Installing update...\n",
    );
    match kind {
        InstallerKind::Msi => {
            push_str(
                &mut s,
                "powershell -Command \"Start-Process 'msiexec' -ArgumentList '/i \\\"",
            );
            push_str(&mut s, installer);
            push_str(&mut s, "\\\", /quiet, /norestart' -Verb RunAs -Wait\"\n");
        },
        InstallerKind::Exe => {
            push_str(&mut s, "powershell -Command \"Start-Process '");
            push_str(&mut s, installer);
            push_str(&mut s, "' -ArgumentList '/S' -Verb RunAs -Wait\"\n");
        },
    }
    push_str(
        &mut s,
        "if %ERRORLEVEL% EQU 0 (\n    echo Update installed successfully\n    echo Restarting launcher...\n    start \"\" \"",
    );
    push_str(&mut s, launcher);
    push_str(&mut s, "\"\n) else (\n    echo Update installation failed\n    pause\n)\n");
    s
}

/// How a failure to build the HTTP client is explained, from the error's
/// text.
pub fn client_error_message(error: &str) -> (r: String)
    ensures
        contains_seq(error@, "token supplied to the function is invalid"@) ==> r@
            == "Windows TLS Error: The token supplied to the function is invalid. This usually indicates a certificate validation issue. Try: 1) Update Windows certificates, 2) Check system time, 3) Run as administrator. Original error: "@
            + error@,
        !contains_seq(error@, "token supplied to the function is invalid"@) && (contains_seq(
            error@,
            "schannel"@,
        ) || contains_seq(error@, "SEC_E_"@)) ==> r@ == "Windows Schannel TLS Error: "@ + error@
            + ". This may be caused by outdated certificates or system configuration issues."@,
        !contains_seq(error@, "token supplied to the function is invalid"@) && !contains_seq(
            error@,
            "schannel"@,
        ) && !contains_seq(error@, "SEC_E_"@) ==> r@ == "Failed to create HTTP client: "@
            + error@,
{
    let mut m = String::new();
    if str_contains(error, "token supplied to the function is invalid") {
        push_str(
            &mut m,
            "Windows TLS Error: The token supplied to the function is invalid. This usually indicates a certificate validation issue. Try: 1) Update Windows certificates, 2) Check system time, 3) Run as administrator. Original error: ",
        );
        push_str(&mut m, error);
    } else if str_contains(error, "schannel") || str_contains(error, "SEC_E_") {
        push_str(&mut m, "Windows Schannel TLS Error: ");
        push_str(&mut m, error);
        push_str(
            &mut m,
            ". This may be caused by outdated certificates or system configuration issues.",
        );
    } else {
        push_str(&mut m, "Failed to create HTTP client: ");
        push_str(&mut m, error);
    }
    m
}

} // verus!

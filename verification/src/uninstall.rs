//! Uninstalling on Windows: a detached PowerShell helper waits for the application to
//! end, removes its files and then its directory, if that is empty.

use crate::numerals::{decimal, to_decimal};
use crate::pieces::views;
use crate::search::{begins, ends, law_begins_and_ends, law_occurs, occurs, parts_round};
use crate::shell::{doubled, powershell_quote};
use crate::text::same;
use vstd::prelude::*;
use vstd::string::*;

verus! {

/// Whether one of the arguments behind the program's name asks to uninstall.
pub open spec fn asks_to_uninstall(args: Seq<String>) -> bool {
    exists|i: int| 1 <= i < args.len() && (#[trigger] args[i])@ == "--uninstall"@
}

/// Whether one of the arguments behind the program's name asks to uninstall.
pub fn uninstall_requested(args: &Vec<String>) -> (r: bool)
    ensures
        r == asks_to_uninstall(args@),
{
    let mut i: usize = 1;
    while i < args.len()
        invariant
            1 <= i,
            forall|j: int| 1 <= j < i && j < args.len() ==> (#[trigger] args@[j])@
                != "--uninstall"@,
        decreases args.len() - i,
    {
        if same(args[i].as_str(), "--uninstall") {
            return true;
        }
        i = i + 1;
    }
    false
}

/// The shortcuts in the start menu.
#[derive(Debug, PartialEq, Eq)]
pub struct StartMenu {
    pub application: String,
    pub uninstaller: String,
}

/// What is installed.
#[derive(Debug, PartialEq, Eq)]
pub struct Installation {
    /// The process that the helper waits for.
    pub pid: u32,
    pub exe: String,
    pub install_dir: String,
    pub desktop: Option<String>,
    pub start_menu: Option<StartMenu>,
}

/// The path of the shortcut on the desktop, below the user's directory.
pub open spec fn desktop_segments() -> Seq<Seq<char>> {
    seq!["Desktop"@, "Ghost FTP.lnk"@]
}

/// The path of a shortcut in the start menu, below the user's application data.
pub open spec fn start_menu_segments(link: Seq<char>) -> Seq<Seq<char>> {
    seq!["Microsoft"@, "Windows"@, "Start Menu"@, "Programs"@, link]
}

/// The path of PowerShell, below the Windows directory.
pub open spec fn powershell_segments() -> Seq<Seq<char>> {
    seq!["System32"@, "WindowsPowerShell"@, "v1.0"@, "powershell.exe"@]
}

/// The texts of a list of names.
pub open spec fn name_views(names: Seq<&'static str>) -> Seq<Seq<char>> {
    names.map_values(|name: &'static str| name@)
}

/// The path of the application's shortcut on the desktop, below the directory that
/// `USERPROFILE` names.
pub fn desktop_shortcut() -> (r: Vec<&'static str>)
    ensures
        name_views(r@) == desktop_segments(),
{
    let mut r: Vec<&'static str> = Vec::new();
    r.push("Desktop");
    r.push("Ghost FTP.lnk");
    assert(name_views(r@) == desktop_segments());
    r
}

fn start_menu_path(link: &'static str) -> (r: Vec<&'static str>)
    ensures
        name_views(r@) == start_menu_segments(link@),
{
    let mut r: Vec<&'static str> = Vec::new();
    r.push("Microsoft");
    r.push("Windows");
    r.push("Start Menu");
    r.push("Programs");
    r.push(link);
    assert(name_views(r@) == start_menu_segments(link@));
    r
}

/// The path of the application's shortcut in the start menu, below the directory that
/// `APPDATA` names.
pub fn start_menu_application() -> (r: Vec<&'static str>)
    ensures
        name_views(r@) == start_menu_segments("Ghost FTP.lnk"@),
{
    start_menu_path("Ghost FTP.lnk")
}

/// The path of the uninstaller's shortcut in the start menu, below the directory that
/// `APPDATA` names.
pub fn start_menu_uninstaller() -> (r: Vec<&'static str>)
    ensures
        name_views(r@) == start_menu_segments("Uninstall Ghost FTP.lnk"@),
{
    start_menu_path("Uninstall Ghost FTP.lnk")
}

/// The path of the system's PowerShell, below the Windows directory.
pub fn powershell_path() -> (r: Vec<&'static str>)
    ensures
        name_views(r@) == powershell_segments(),
{
    let mut r: Vec<&'static str> = Vec::new();
    r.push("System32");
    r.push("WindowsPowerShell");
    r.push("v1.0");
    r.push("powershell.exe");
    assert(name_views(r@) == powershell_segments());
    r
}

/// What PowerShell is given to run `script` without a window.
pub fn powershell_args(script: &str) -> (r: Vec<String>)
    ensures
        views(r@) == seq![
            "-NoProfile"@,
            "-NonInteractive"@,
            "-WindowStyle"@,
            "Hidden"@,
            "-Command"@,
            script@,
        ],
{
    let mut r: Vec<String> = Vec::new();
    r.push("-NoProfile".to_owned());
    r.push("-NonInteractive".to_owned());
    r.push("-WindowStyle".to_owned());
    r.push("Hidden".to_owned());
    r.push("-Command".to_owned());
    r.push(script.to_owned());
    assert(views(r@) == seq![
        "-NoProfile"@,
        "-NonInteractive"@,
        "-WindowStyle"@,
        "Hidden"@,
        "-Command"@,
        script@,
    ]);
    r
}

/// The command that removes the shortcut on the desktop.
pub open spec fn remove_desktop(link: Option<String>) -> Seq<char> {
    match link {
        Some(path) => " Remove-Item -LiteralPath '"@ + doubled(path@) + "' -Force;"@,
        None => ""@,
    }
}

/// The commands that remove the shortcuts in the start menu.
pub open spec fn remove_start_menu(menu: Option<StartMenu>) -> Seq<char> {
    match menu {
        Some(links) => " Remove-Item -LiteralPath '"@ + doubled(links.application@)
            + "' -Force; Remove-Item -LiteralPath '"@ + doubled(links.uninstaller@) + "' -Force;"@,
        None => ""@,
    }
}

/// The command that removes the directory, where it is there and empty.
pub open spec fn remove_dir(dir: Seq<char>) -> Seq<char> {
    " if ((Test-Path -LiteralPath '"@ + doubled(dir)
        + "') -and -not (Get-ChildItem -LiteralPath '"@ + doubled(dir)
        + "' -Force | Select-Object -First 1)) { Remove-Item -LiteralPath '"@ + doubled(dir)
        + "' -Force -Confirm:$false -ErrorAction SilentlyContinue; }"@
}

/// What the helper runs.
pub open spec fn helper_script(what: Installation) -> Seq<char> {
    "$ErrorActionPreference='SilentlyContinue'; Wait-Process -Id "@ + decimal(what.pid as nat)
        + "; Remove-Item -LiteralPath '"@ + doubled(what.exe@) + "' -Force;"@ + remove_desktop(
        what.desktop,
    ) + remove_start_menu(what.start_menu)
        + " Remove-Item -LiteralPath 'HKCU:\\Software\\Microsoft\\Windows\\CurrentVersion\\Uninstall\\GhostFTP' -Recurse -Force;"@
        + remove_dir(what.install_dir@)
}

fn write_remove_desktop(link: &Option<String>) -> (r: String)
    ensures
        r@ == remove_desktop(*link),
{
    match link {
        Some(path) => {
            let mut r = " Remove-Item -LiteralPath '".to_owned();
            r.append(powershell_quote(path.as_str()).as_str());
            r.append("' -Force;");
            r
        },
        None => "".to_owned(),
    }
}

fn write_remove_start_menu(menu: &Option<StartMenu>) -> (r: String)
    ensures
        r@ == remove_start_menu(*menu),
{
    match menu {
        Some(links) => {
            let mut r = " Remove-Item -LiteralPath '".to_owned();
            r.append(powershell_quote(links.application.as_str()).as_str());
            r.append("' -Force; Remove-Item -LiteralPath '");
            r.append(powershell_quote(links.uninstaller.as_str()).as_str());
            r.append("' -Force;");
            r
        },
        None => "".to_owned(),
    }
}

fn write_remove_dir(dir: &str) -> (r: String)
    ensures
        r@ == remove_dir(dir@),
{
    let quoted = powershell_quote(dir);
    let mut r = " if ((Test-Path -LiteralPath '".to_owned();
    r.append(quoted.as_str());
    r.append("') -and -not (Get-ChildItem -LiteralPath '");
    r.append(quoted.as_str());
    r.append("' -Force | Select-Object -First 1)) { Remove-Item -LiteralPath '");
    r.append(quoted.as_str());
    r.append("' -Force -Confirm:$false -ErrorAction SilentlyContinue; }");
    r
}

/// What the helper runs. It removes only the known files of the product, and the
/// directory only where it is empty.
pub fn uninstall_script(what: &Installation) -> (r: String)
    ensures
        r@ == helper_script(*what),
{
    let mut r = "$ErrorActionPreference='SilentlyContinue'; Wait-Process -Id ".to_owned();
    r.append(to_decimal(what.pid as u64).as_str());
    r.append("; Remove-Item -LiteralPath '");
    r.append(powershell_quote(what.exe.as_str()).as_str());
    r.append("' -Force;");
    r.append(write_remove_desktop(&what.desktop).as_str());
    r.append(write_remove_start_menu(&what.start_menu).as_str());
    r.append(
        " Remove-Item -LiteralPath 'HKCU:\\Software\\Microsoft\\Windows\\CurrentVersion\\Uninstall\\GhostFTP' -Recurse -Force;",
    );
    r.append(write_remove_dir(what.install_dir.as_str()).as_str());
    r
}

/// What starting the application with certain arguments calls for.
#[derive(Debug, PartialEq, Eq)]
pub enum Uninstall {
    /// To run the application.
    NotRequested,
    /// To end: what is installed is not known.
    Unknown,
    /// To start the helper with this script, and end.
    Run(String),
}

/// What starting the application with these arguments calls for, given what is installed,
/// where that is known.
pub fn run_uninstaller_if_requested(args: &Vec<String>, what: &Option<Installation>) -> (r:
    Uninstall)
    ensures
        if !asks_to_uninstall(args@) {
            r is NotRequested
        } else {
            match *what {
                None => r is Unknown,
                Some(w) => r matches Uninstall::Run(script) && script@ == helper_script(w),
            }
        },
{
    if !uninstall_requested(args) {
        return Uninstall::NotRequested;
    }
    match what {
        None => Uninstall::Unknown,
        Some(w) => Uninstall::Run(uninstall_script(w)),
    }
}

/// The Windows directory, from the variables that name it.
pub fn windows_dir(system_root: Option<String>, windir: Option<String>) -> (r: Result<
    String,
    String,
>)
    ensures
        match crate::importers::chosen(system_root, windir) {
            Some(dir) => r == Ok::<String, String>(dir),
            None => r matches Err(e) && e@ == "Windows system directory is unavailable"@,
        },
{
    match system_root {
        Some(dir) => Ok(dir),
        None => match windir {
            Some(dir) => Ok(dir),
            None => Err("Windows system directory is unavailable".to_owned()),
        },
    }
}

/// The message where PowerShell is not where it belongs.
pub fn powershell_missing(path: &str) -> (r: String)
    ensures
        r@ == "system PowerShell was not found at "@ + path@,
{
    let mut r = "system PowerShell was not found at ".to_owned();
    r.append(path);
    r
}

/// The message where the helper could not be started.
pub fn uninstall_failed(error: &str) -> (r: String)
    ensures
        r@
            == "Ghost FTP could not start the uninstall helper. No application files were removed.\n\n"@
            + error@,
{
    let mut r =
        "Ghost FTP could not start the uninstall helper. No application files were removed.\n\n".to_owned();
    r.append(error);
    r
}

/// The flag is looked for behind the name of the program, wherever it stands there.
pub proof fn law_flag_asks_to_uninstall(
    program: String,
    before: Seq<String>,
    flag: String,
    after: Seq<String>,
)
    ensures
        flag@ == "--uninstall"@ ==> asks_to_uninstall(
            seq![program] + before + seq![flag] + after,
        ),
        asks_to_uninstall(seq![program] + before) ==> exists|i: int|
            0 <= i < before.len() && (#[trigger] before[i])@ == "--uninstall"@,
        !asks_to_uninstall(seq![program]),
        !asks_to_uninstall(seq![]),
{
    let all = seq![program] + before + seq![flag] + after;
    assert(all[before.len() as int + 1] == flag);
    let some = seq![program] + before;
    if asks_to_uninstall(some) {
        let i = choose|i: int| 1 <= i < some.len() && (#[trigger] some[i])@ == "--uninstall"@;
        assert(some[i] == before[i - 1]);
    }
}

/// The command that removes one file.
pub open spec fn removal_of(path: Seq<char>) -> Seq<char> {
    "Remove-Item -LiteralPath '"@ + doubled(path) + "' -Force;"@
}

proof fn lemma_removal_literals()
    ensures
        " Remove-Item -LiteralPath '"@ == " "@ + "Remove-Item -LiteralPath '"@,
        "; Remove-Item -LiteralPath '"@ == "; "@ + "Remove-Item -LiteralPath '"@,
        "' -Force; Remove-Item -LiteralPath '"@ == "' -Force;"@ + (" "@
            + "Remove-Item -LiteralPath '"@),
{
    reveal_strlit(" ");
    reveal_strlit("; ");
    reveal_strlit("' -Force;");
    reveal_strlit("Remove-Item -LiteralPath '");
    reveal_strlit(" Remove-Item -LiteralPath '");
    reveal_strlit("; Remove-Item -LiteralPath '");
    reveal_strlit("' -Force; Remove-Item -LiteralPath '");
}

/// The helper waits for the process first; then it removes the program, every shortcut
/// that there is, and the directory.
pub proof fn law_helper_removes_what_is_installed(what: Installation)
    ensures
        begins(
            helper_script(what),
            "$ErrorActionPreference='SilentlyContinue'; Wait-Process -Id "@ + decimal(
                what.pid as nat,
            ) + "; "@ + removal_of(what.exe@),
        ),
        what.desktop matches Some(link) ==> occurs(helper_script(what), removal_of(link@)),
        what.start_menu matches Some(links) ==> occurs(
            helper_script(what),
            removal_of(links.application@),
        ),
        what.start_menu matches Some(links) ==> occurs(
            helper_script(what),
            removal_of(links.uninstaller@),
        ),
        ends(helper_script(what), remove_dir(what.install_dir@)),
{
    lemma_removal_literals();
    let head = "$ErrorActionPreference='SilentlyContinue'; Wait-Process -Id "@ + decimal(
        what.pid as nat,
    );
    let key =
        " Remove-Item -LiteralPath 'HKCU:\\Software\\Microsoft\\Windows\\CurrentVersion\\Uninstall\\GhostFTP' -Recurse -Force;"@;
    let first = head + "; "@ + removal_of(what.exe@);
    let desktop = remove_desktop(what.desktop);
    let menu = remove_start_menu(what.start_menu);
    let last = key + remove_dir(what.install_dir@);
    let all = helper_script(what);
    assert(first == head + "; Remove-Item -LiteralPath '"@ + doubled(what.exe@) + "' -Force;"@);
    assert(all == first + desktop + menu + key + remove_dir(what.install_dir@));
    assert(all == first + (desktop + menu + last));
    law_begins_and_ends(desktop + menu + last, first);
    law_begins_and_ends(first + desktop + menu + key, remove_dir(what.install_dir@));
    if let Some(link) = what.desktop {
        let r = removal_of(link@);
        assert(desktop == " "@ + r);
        law_occurs(all, r);
        assert(all == first + " "@ + r + (menu + last));
        assert(parts_round(all, first + " "@, r, menu + last));
    }
    if let Some(links) = what.start_menu {
        let a = removal_of(links.application@);
        let b = removal_of(links.uninstaller@);
        assert(menu == " "@ + a + (" "@ + b));
        law_occurs(all, a);
        law_occurs(all, b);
        assert(all == first + desktop + " "@ + a + (" "@ + b + last));
        assert(parts_round(all, first + desktop + " "@, a, " "@ + b + last));
        assert(all == first + desktop + " "@ + a + " "@ + b + last);
        assert(parts_round(all, first + desktop + " "@ + a + " "@, b, last));
    }
}

/// The directory is removed only where it is there and holds nothing: the command looks at
/// the directory, then into it, and then removes that same one.
pub proof fn law_only_empty_directory_is_removed(dir: Seq<char>)
    ensures
        begins(remove_dir(dir), " if ((Test-Path -LiteralPath '"@ + doubled(dir) + "'"@),
        occurs(
            remove_dir(dir),
            "-not (Get-ChildItem -LiteralPath '"@ + doubled(dir)
                + "' -Force | Select-Object -First 1)) {"@,
        ),
        occurs(
            remove_dir(dir),
            "{ Remove-Item -LiteralPath '"@ + doubled(dir) + "' -Force -Confirm:$false"@,
        ),
{
    reveal_strlit("'");
    reveal_strlit("') -and -not (Get-ChildItem -LiteralPath '");
    reveal_strlit(") -and ");
    reveal_strlit("-not (Get-ChildItem -LiteralPath '");
    reveal_strlit("' -Force | Select-Object -First 1)) { Remove-Item -LiteralPath '");
    reveal_strlit("' -Force | Select-Object -First 1)) ");
    reveal_strlit("' -Force | Select-Object -First 1)) {");
    reveal_strlit("{ Remove-Item -LiteralPath '");
    reveal_strlit(" Remove-Item -LiteralPath '");
    reveal_strlit("' -Force -Confirm:$false -ErrorAction SilentlyContinue; }");
    reveal_strlit("' -Force -Confirm:$false");
    reveal_strlit(" -ErrorAction SilentlyContinue; }");
    let d = doubled(dir);
    let a = " if ((Test-Path -LiteralPath '"@ + d;
    let look = "-not (Get-ChildItem -LiteralPath '"@ + d;
    let gone = "{ Remove-Item -LiteralPath '"@ + d;
    let m = "' -Force | Select-Object -First 1)) { Remove-Item -LiteralPath '"@;
    let z = "' -Force -Confirm:$false -ErrorAction SilentlyContinue; }"@;
    let all = remove_dir(dir);
    assert("') -and -not (Get-ChildItem -LiteralPath '"@ == "'"@ + ") -and "@
        + "-not (Get-ChildItem -LiteralPath '"@);
    assert(all == a + "'"@ + ") -and "@ + look + m + d + z);
    assert(all == a + "'"@ + (") -and "@ + look + m + d + z));
    law_begins_and_ends(") -and "@ + look + m + d + z, a + "'"@);
    let open = "' -Force | Select-Object -First 1)) {"@;
    assert(m == open + " Remove-Item -LiteralPath '"@);
    law_occurs(all, look + open);
    assert(all == a + "'"@ + ") -and "@ + (look + open) + (" Remove-Item -LiteralPath '"@ + d + z));
    assert(parts_round(
        all,
        a + "'"@ + ") -and "@,
        look + open,
        " Remove-Item -LiteralPath '"@ + d + z,
    ));
    let close = "' -Force -Confirm:$false"@;
    assert(z == close + " -ErrorAction SilentlyContinue; }"@);
    assert(m == "' -Force | Select-Object -First 1)) "@ + "{ Remove-Item -LiteralPath '"@);
    law_occurs(all, gone + close);
    assert(all == a + "'"@ + ") -and "@ + look + "' -Force | Select-Object -First 1)) "@ + (gone
        + close) + " -ErrorAction SilentlyContinue; }"@);
    assert(parts_round(
        all,
        a + "'"@ + ") -and "@ + look + "' -Force | Select-Object -First 1)) "@,
        gone + close,
        " -ErrorAction SilentlyContinue; }"@,
    ));
}

} // verus!

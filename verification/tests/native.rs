use coraldesk::runtime::native::{
    detect_native_shell, detect_native_shell_with, detect_native_shell_with_preference,
    is_windows_wsl_bash_launcher, missing_shell_error, NativeRuntime, ShellKind, ShellProgram,
};
use coraldesk::paths::PathParts;
use coraldesk::system::ProgramPath;
use std::collections::HashMap;
use std::path::PathBuf;

fn program(path: &str) -> ProgramPath {
    ProgramPath::new(PathBuf::from(path))
}

fn found(map: &HashMap<&str, &str>, name: &str) -> Option<ProgramPath> {
    map.get(name).map(|path| program(path))
}

fn cmd_exe() -> Option<ProgramPath> {
    Some(program(r"C:\Windows\System32\cmd.exe"))
}

#[test]
fn native_name() {
    assert_eq!(NativeRuntime::new(false, None).name(), "native");
}

#[test]
fn native_has_shell_access() {
    assert_eq!(
        NativeRuntime::new(false, None).has_shell_access(),
        detect_native_shell(false, None).is_some()
    );
}

#[test]
fn native_has_filesystem_access() {
    assert!(NativeRuntime::new(false, None).has_filesystem_access());
}

#[test]
fn native_supports_long_running() {
    assert!(NativeRuntime::new(false, None).supports_long_running());
}

#[test]
fn native_memory_budget_unlimited() {
    assert_eq!(NativeRuntime::new(false, None).memory_budget(), 0);
}

#[test]
fn native_storage_path_contains_zeroclaw() {
    let path = NativeRuntime::new(false, None).storage_path().to_path();
    assert!(path.to_string_lossy().contains("zeroclaw"));
}

#[test]
fn program_path_has_its_text() {
    let program = program("/usr/bin/bash");
    assert_eq!(program.path, PathBuf::from("/usr/bin/bash"));
    assert_eq!(program.text, "/usr/bin/bash");
}

#[test]
fn parts_make_a_path() {
    let parts = |base: Option<&str>, parts: &[&str]| PathParts {
        base: base.map(PathBuf::from),
        parts: parts.iter().map(|part| part.to_string()).collect(),
    };
    assert_eq!(
        parts(Some("/home/ada"), &[".coraldesk/debug", "log"]).to_path(),
        PathBuf::from("/home/ada").join(".coraldesk/debug").join("log")
    );
    assert_eq!(parts(Some("/a"), &[]).to_path(), PathBuf::from("/a"));
    assert_eq!(
        parts(None, &[".", "b"]).to_path(),
        PathBuf::from(".").join("b")
    );
    assert_eq!(parts(None, &[".zeroclaw"]).to_path(), PathBuf::from(".zeroclaw"));
    assert_eq!(parts(None, &[]).to_path(), PathBuf::new());
}

#[test]
fn storage_path_is_under_the_home_directory() {
    let runtime = NativeRuntime::with_shell(false, None);
    let home = PathBuf::from("/home/ada");
    let path = runtime.storage_path_in(Some(home.clone()));
    assert_eq!(path.base, Some(home));
    assert_eq!(path.parts, vec![".zeroclaw"]);
    let path = runtime.storage_path_in(None);
    assert_eq!(path.base, None);
    assert_eq!(path.parts, vec![".zeroclaw"]);
    if let Some(home) = runtime.storage_path().base {
        assert!(home.is_absolute());
    }
}

#[test]
fn detect_shell_windows_prefers_powershell_by_default() {
    let mut map = HashMap::new();
    map.insert("bash", r"C:\Program Files\Git\bin\bash.exe");
    map.insert(
        "powershell",
        r"C:\Windows\System32\WindowsPowerShell\v1.0\powershell.exe",
    );
    map.insert("cmd", r"C:\Windows\System32\cmd.exe");

    let shell = detect_native_shell_with(true, |name: &str| found(&map, name), cmd_exe(), None)
        .expect("windows shell should be detected");

    assert_eq!(shell.kind, ShellKind::PowerShell);
}

#[test]
fn detect_shell_windows_respects_bash_preference() {
    let mut map = HashMap::new();
    map.insert("bash", r"C:\Program Files\Git\bin\bash.exe");
    map.insert(
        "powershell",
        r"C:\Windows\System32\WindowsPowerShell\v1.0\powershell.exe",
    );
    map.insert("cmd", r"C:\Windows\System32\cmd.exe");

    let shell = detect_native_shell_with(
        true,
        |name: &str| found(&map, name),
        cmd_exe(),
        Some("bash"),
    )
    .expect("windows shell should be detected");

    assert_eq!(shell.kind, ShellKind::Bash);
}

#[test]
fn detect_shell_windows_falls_back_to_powershell_then_cmd() {
    let mut map = HashMap::new();
    map.insert(
        "powershell",
        r"C:\Windows\System32\WindowsPowerShell\v1.0\powershell.exe",
    );

    let shell = detect_native_shell_with(true, |name: &str| found(&map, name), cmd_exe(), None)
        .expect("windows shell should be detected");
    assert_eq!(shell.kind, ShellKind::PowerShell);

    let cmd_shell = detect_native_shell_with(true, |_name: &str| None, cmd_exe(), None)
        .expect("cmd fallback should be detected");
    assert_eq!(cmd_shell.kind, ShellKind::Cmd);
}

#[test]
fn detect_shell_windows_skips_system32_bash_wsl_launcher() {
    let mut map = HashMap::new();
    map.insert("bash", r"C:\Windows\System32\bash.exe");
    map.insert(
        "powershell",
        r"C:\Windows\System32\WindowsPowerShell\v1.0\powershell.exe",
    );
    map.insert("cmd", r"C:\Windows\System32\cmd.exe");

    let shell = detect_native_shell_with(true, |name: &str| found(&map, name), cmd_exe(), None)
        .expect("windows shell should be detected");

    assert_eq!(shell.kind, ShellKind::PowerShell);
    assert_eq!(
        shell.program.path,
        PathBuf::from(r"C:\Windows\System32\WindowsPowerShell\v1.0\powershell.exe")
    );
}

#[test]
fn detect_shell_windows_uses_cmd_when_only_wsl_bash_exists() {
    let mut map = HashMap::new();
    map.insert("bash", r"C:\Windows\Sysnative\bash.exe");

    let shell = detect_native_shell_with(true, |name: &str| found(&map, name), cmd_exe(), None)
        .expect("cmd fallback should be detected");

    assert_eq!(shell.kind, ShellKind::Cmd);
    assert_eq!(
        shell.program.path,
        PathBuf::from(r"C:\Windows\System32\cmd.exe")
    );
}

#[test]
fn wsl_launcher_detection_matches_known_paths() {
    assert!(is_windows_wsl_bash_launcher(r"C:\Windows\System32\bash.exe"));
    assert!(is_windows_wsl_bash_launcher(r"C:\Windows\Sysnative\bash.exe"));
    assert!(!is_windows_wsl_bash_launcher(
        r"C:\Program Files\Git\bin\bash.exe"
    ));
}

#[test]
fn wsl_launcher_is_known_in_any_spelling() {
    assert!(is_windows_wsl_bash_launcher("C:/WINDOWS/system32/BASH.EXE"));
    assert!(!is_windows_wsl_bash_launcher("bash.exe"));
    assert!(!is_windows_wsl_bash_launcher(""));
}

#[test]
fn detect_shell_unix_prefers_sh() {
    let mut map = HashMap::new();
    map.insert("sh", "/bin/sh");
    map.insert("bash", "/usr/bin/bash");

    let shell = detect_native_shell_with(false, |name: &str| found(&map, name), None, None)
        .expect("unix shell should be detected");

    assert_eq!(shell.kind, ShellKind::Sh);
    assert_eq!(shell.program.path, PathBuf::from("/bin/sh"));
}

#[test]
fn detect_shell_unix_falls_back_to_bash_then_nothing() {
    let mut map = HashMap::new();
    map.insert("bash", "/usr/bin/bash");
    let shell = detect_native_shell_with(false, |name: &str| found(&map, name), None, None);
    assert_eq!(shell.expect("bash").kind, ShellKind::Bash);

    let none = detect_native_shell_with(false, |_name: &str| None, cmd_exe(), Some("cmd"));
    assert!(none.is_none());
}

#[test]
fn names_are_searched_in_order() {
    let mut asked: Vec<String> = Vec::new();
    let shell = detect_native_shell_with(
        true,
        |name: &str| {
            asked.push(name.to_string());
            None
        },
        None,
        Some(" PS "),
    );
    assert!(shell.is_none());
    assert_eq!(
        asked,
        vec![
            "powershell",
            "powershell.exe",
            "pwsh",
            "powershell",
            "bash",
            "sh",
            "cmd",
            "cmd.exe"
        ]
    );
}

#[test]
fn wished_interpreter_comes_before_other_shells() {
    let mut map = HashMap::new();
    map.insert("pwsh", r"C:\pwsh.exe");
    let shell = detect_native_shell_with(
        true,
        |name: &str| found(&map, name),
        cmd_exe(),
        Some("CMD.EXE"),
    )
    .expect("interpreter");
    assert_eq!(shell.kind, ShellKind::Cmd);

    let auto = detect_native_shell_with(
        true,
        |name: &str| found(&map, name),
        cmd_exe(),
        Some("auto"),
    )
    .expect("auto");
    assert_eq!(auto.kind, ShellKind::Pwsh);
    let other = detect_native_shell_with(
        true,
        |name: &str| found(&map, name),
        cmd_exe(),
        Some("fish"),
    )
    .expect("other");
    assert_eq!(other.kind, ShellKind::Pwsh);
}

#[test]
fn launcher_is_skipped_under_both_names_when_bash_is_wished() {
    let mut map = HashMap::new();
    map.insert("bash", r"C:\Windows\System32\bash.exe");
    map.insert("bash.exe", r"C:\Windows\System32\bash.exe");
    map.insert(
        "powershell",
        r"C:\Windows\System32\WindowsPowerShell\v1.0\powershell.exe",
    );
    let shell = detect_native_shell_with(
        true,
        |name: &str| found(&map, name),
        None,
        Some("bash"),
    )
    .expect("powershell");
    assert_eq!(shell.kind, ShellKind::PowerShell);
    assert_eq!(
        shell.program.path,
        PathBuf::from(r"C:\Windows\System32\WindowsPowerShell\v1.0\powershell.exe")
    );

    map.remove("powershell");
    let none = detect_native_shell_with(
        true,
        |name: &str| found(&map, name),
        None,
        Some("bash"),
    );
    assert!(none.is_none());

    let elsewhere = detect_native_shell_with(
        false,
        |name: &str| found(&map, name),
        None,
        Some("bash"),
    );
    assert_eq!(elsewhere.expect("bash").kind, ShellKind::Bash);
}

#[test]
fn auto_is_no_wish() {
    let mut map = HashMap::new();
    map.insert("bash", r"C:\Program Files\Git\bin\bash.exe");
    map.insert("sh", r"C:\Program Files\Git\bin\sh.exe");
    for is_windows in [false, true] {
        let plain = detect_native_shell_with(
            is_windows,
            |name: &str| found(&map, name),
            cmd_exe(),
            None,
        );
        for wish in ["auto", " AuTo\n", "", " \t "] {
            let wished = detect_native_shell_with(
                is_windows,
                |name: &str| found(&map, name),
                cmd_exe(),
                Some(wish),
            );
            assert_eq!(wished, plain);
        }
    }
    let wished = NativeRuntime::with_preferred_shell(false, None, Some("auto"));
    let plain = NativeRuntime::new(false, None);
    assert_eq!(wished.selected_shell_kind(), plain.selected_shell_kind());
    assert_eq!(
        wished.selected_shell_program(),
        plain.selected_shell_program()
    );
}

#[test]
fn found_program_is_an_executable_of_that_name() {
    let shell = detect_native_shell_with_preference(false, None, Some("sh"));
    if let Some(shell) = shell {
        assert!(shell.program.path.is_absolute());
        assert_eq!(shell.program.text, shell.program.path.to_string_lossy());
        assert!(shell.program.text.ends_with("sh"));
    }
}

#[test]
fn native_without_shell_disables_shell_access() {
    let runtime = NativeRuntime::with_shell(false, None);
    assert!(!runtime.has_shell_access());

    let err = runtime
        .build_shell_command("echo hello", &PathBuf::from("."))
        .expect_err("build should fail without available shell")
        .to_string();
    assert!(err.contains("could not find a usable shell"));
    assert_eq!(err, missing_shell_error(false));
    assert_eq!(
        NativeRuntime::with_shell(true, None)
            .build_shell_command("dir", &PathBuf::from("."))
            .expect_err("no shell"),
        "Native runtime could not find a usable shell (tried: bash, sh, pwsh, powershell, cmd). \
         Install Git Bash or PowerShell and ensure it is available on PATH."
    );
}

#[test]
fn native_builds_powershell_command() {
    let runtime = NativeRuntime::with_shell(
        true,
        Some(ShellProgram {
            kind: ShellKind::PowerShell,
            program: program("powershell"),
        }),
    );

    let command = runtime
        .build_shell_command("Get-Location", &PathBuf::from("."))
        .expect("powershell command should build");
    let debug = format!("{command:?}");

    assert!(debug.contains("powershell"));
    assert!(debug.contains("-NoProfile"));
    assert!(debug.contains("-Command"));
    assert!(debug.contains("Get-Location"));
    assert_eq!(command.program, PathBuf::from("powershell"));
    assert_eq!(
        command.args,
        vec!["-NoLogo", "-NoProfile", "-NonInteractive", "-Command", "Get-Location"]
    );
    assert_eq!(command.current_dir, PathBuf::from("."));
}

#[test]
fn native_builds_cmd_command() {
    let runtime = NativeRuntime::with_shell(
        true,
        Some(ShellProgram {
            kind: ShellKind::Cmd,
            program: program("cmd"),
        }),
    );

    let command = runtime
        .build_shell_command("echo hello", &PathBuf::from("."))
        .expect("cmd command should build");
    let debug = format!("{command:?}");

    assert!(debug.contains("cmd"));
    assert!(debug.contains("/C"));
    assert!(debug.contains("echo hello"));
    assert_eq!(command.args, vec!["/C", "echo hello"]);
}

#[test]
fn native_builds_shell_command() {
    let runtime = NativeRuntime::new(false, None);
    if !runtime.has_shell_access() {
        return;
    }

    let command = runtime
        .build_shell_command("echo hello", &PathBuf::from("/tmp"))
        .unwrap();
    let debug = format!("{command:?}");
    assert!(debug.contains("echo hello"));
    assert_eq!(command.args, vec!["-c", "echo hello"]);
    assert_eq!(command.current_dir, PathBuf::from("/tmp"));
}

#[test]
fn runtime_tells_of_its_shell() {
    let shell = |kind: ShellKind| {
        NativeRuntime::with_shell(
            false,
            Some(ShellProgram {
                kind,
                program: program("/opt/shell"),
            }),
        )
    };
    for (kind, name, powershell, unix, hint) in [
        (ShellKind::Sh, "sh", false, true, "Unix shell (use standard Unix commands, e.g., ls, cat, rm)"),
        (ShellKind::Bash, "bash", false, true, "Unix shell (use standard Unix commands, e.g., ls, cat, rm)"),
        (ShellKind::Pwsh, "pwsh", true, false, "PowerShell (use PowerShell cmdlets and syntax, e.g., Get-ChildItem, Get-Content, Remove-Item)"),
        (ShellKind::PowerShell, "powershell", true, false, "PowerShell (use PowerShell cmdlets and syntax, e.g., Get-ChildItem, Get-Content, Remove-Item)"),
        (ShellKind::Cmd, "cmd", false, false, "Command Prompt (use cmd.exe syntax, e.g., dir, type, del)"),
    ] {
        let runtime = shell(kind);
        assert_eq!(kind.as_str(), name);
        assert_eq!(runtime.selected_shell_kind(), Some(name));
        assert_eq!(
            runtime.selected_shell_program(),
            Some(&PathBuf::from("/opt/shell"))
        );
        assert_eq!(runtime.is_powershell_syntax(), powershell);
        assert_eq!(runtime.is_powershell_shell(), powershell);
        assert_eq!(runtime.is_unix_syntax(), unix);
        assert_eq!(runtime.shell_prompt_hint(), hint);
    }
    let bare = NativeRuntime::with_shell(false, None);
    assert_eq!(bare.selected_shell_kind(), None);
    assert_eq!(bare.selected_shell_program(), None);
    assert_eq!(bare.shell_prompt_hint(), "Unknown shell");
    assert!(!bare.is_powershell_syntax() && !bare.is_unix_syntax());
}

#[test]
fn preferred_shell_is_looked_for_on_the_machine() {
    let runtime = NativeRuntime::with_preferred_shell(false, None, Some("bash"));
    let plain = NativeRuntime::new(false, None);
    assert_eq!(runtime.has_shell_access(), plain.has_shell_access());
}

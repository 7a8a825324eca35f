//! Native runtime: full access to the machine, by way of the shell that it has.

use crate::paths::{PathParts, PathPartsView};
use crate::system::{ProgramPath, ProgramPathView};
use crate::system;
use crate::text;
use std::path::PathBuf;
use vstd::prelude::*;

verus! {

/// A family of shells.
#[derive(Debug, Clone, Copy, PartialEq, Eq, Structural)]
pub enum ShellKind {
    Sh,
    Bash,
    Pwsh,
    PowerShell,
    Cmd,
}

/// The name of a family of shells.
pub open spec fn kind_name(kind: ShellKind) -> Seq<char> {
    match kind {
        ShellKind::Sh => "sh"@,
        ShellKind::Bash => "bash"@,
        ShellKind::Pwsh => "pwsh"@,
        ShellKind::PowerShell => "powershell"@,
        ShellKind::Cmd => "cmd"@,
    }
}

/// The arguments with which a shell of this family runs `command`.
pub open spec fn shell_args(kind: ShellKind, command: Seq<char>) -> Seq<Seq<char>> {
    match kind {
        ShellKind::Sh | ShellKind::Bash => seq!["-c"@, command],
        ShellKind::Pwsh | ShellKind::PowerShell => seq![
            "-NoLogo"@,
            "-NoProfile"@,
            "-NonInteractive"@,
            "-Command"@,
            command,
        ],
        ShellKind::Cmd => seq!["/C"@, command],
    }
}

impl ShellKind {
    /// The name of the family.
    pub fn as_str(self) -> (name: &'static str)
        ensures
            name@ == kind_name(self),
    {
        match self {
            ShellKind::Sh => "sh",
            ShellKind::Bash => "bash",
            ShellKind::Pwsh => "pwsh",
            ShellKind::PowerShell => "powershell",
            ShellKind::Cmd => "cmd",
        }
    }
}

/// A shell on this machine.
#[derive(Debug, PartialEq, Eq)]
pub struct ShellProgram {
    pub kind: ShellKind,
    /// The path of its executable.
    pub program: ProgramPath,
}

/// A `ShellProgram`, with its text as a sequence of characters.
pub struct ShellProgramView {
    pub kind: ShellKind,
    pub program: ProgramPathView,
}

impl DeepView for ShellProgram {
    type V = ShellProgramView;

    open spec fn deep_view(&self) -> ShellProgramView {
        ShellProgramView { kind: self.kind, program: self.program.deep_view() }
    }
}

impl ShellProgram {
    /// Adds to `args` those with which the shell runs `command`.
    pub fn add_shell_args(&self, args: &mut Vec<String>, command: &str)
        ensures
            final(args).deep_view() == old(args).deep_view() + shell_args(self.kind, command@),
    {
        let ghost before = args.deep_view();
        match self.kind {
            ShellKind::Sh | ShellKind::Bash => {
                args.push(String::from_str("-c"));
            },
            ShellKind::Pwsh | ShellKind::PowerShell => {
                args.push(String::from_str("-NoLogo"));
                args.push(String::from_str("-NoProfile"));
                args.push(String::from_str("-NonInteractive"));
                args.push(String::from_str("-Command"));
            },
            ShellKind::Cmd => {
                args.push(String::from_str("/C"));
            },
        }
        args.push(String::from_str(command));
        assert(args.deep_view() =~= before + shell_args(self.kind, command@));
    }
}

/// A path in one form: with backslashes, and its ASCII letters in lower case.
pub open spec fn normalized_path(path: Seq<char>) -> Seq<char> {
    text::replaced(path, '/', '\\').map_values(|c: char| text::ascii_lower(c))
}

/// Whether `path` is that of the program by which Windows runs commands inside its
/// Linux subsystem, under the name of bash.
pub open spec fn is_wsl_launcher(path: Seq<char>) -> bool {
    ||| "\\windows\\system32\\bash.exe"@.is_suffix_of(normalized_path(path))
    ||| "\\windows\\sysnative\\bash.exe"@.is_suffix_of(normalized_path(path))
}

/// Whether `program` is the path of the program by which Windows runs commands inside
/// its Linux subsystem.
pub fn is_windows_wsl_bash_launcher(program: &str) -> (yes: bool)
    ensures
        yes == is_wsl_launcher(program@),
{
    let slashed = text::replace_char(program, '/', '\\');
    let normalized = text::ascii_lowercase(slashed.as_str());
    text::ends_with(normalized.as_str(), "\\windows\\system32\\bash.exe") || text::ends_with(
        normalized.as_str(),
        "\\windows\\sysnative\\bash.exe",
    )
}

/// Where a shell may be found.
#[derive(Debug)]
pub enum ShellSource {
    /// By looking for a program of this name.
    Program(&'static str, ShellKind),
    /// In the command interpreter that the system names.
    Comspec,
}

/// A `ShellSource`, with its text as a sequence of characters.
pub enum ShellSourceView {
    Program(Seq<char>, ShellKind),
    Comspec,
}

impl DeepView for ShellSource {
    type V = ShellSourceView;

    open spec fn deep_view(&self) -> ShellSourceView {
        match self {
            ShellSource::Program(name, kind) => ShellSourceView::Program(name@, *kind),
            ShellSource::Comspec => ShellSourceView::Comspec,
        }
    }
}

/// A wish for a shell in one form: without the white space around it, and its ASCII
/// letters in lower case.
pub open spec fn normalized_wish(wish: Seq<char>) -> Seq<char> {
    text::trimmed(wish).map_values(|c: char| text::ascii_lower(c))
}

/// The family of shells that a wish names, if it names one.
pub open spec fn wished_kind(wish: Seq<char>) -> Option<ShellKind> {
    let wish = normalized_wish(wish);
    if wish == "powershell"@ || wish == "ps"@ {
        Some(ShellKind::PowerShell)
    } else if wish == "pwsh"@ {
        Some(ShellKind::Pwsh)
    } else if wish == "bash"@ {
        Some(ShellKind::Bash)
    } else if wish == "sh"@ {
        Some(ShellKind::Sh)
    } else if wish == "cmd"@ || wish == "cmd.exe"@ {
        Some(ShellKind::Cmd)
    } else {
        None
    }
}

/// Where a shell of the wished family is looked for.
pub open spec fn wished_sources(is_windows: bool, kind: ShellKind) -> Seq<ShellSourceView> {
    let named = match kind {
        ShellKind::PowerShell => seq![
            ShellSourceView::Program("powershell"@, kind),
            ShellSourceView::Program("powershell.exe"@, kind),
        ],
        ShellKind::Pwsh => seq![
            ShellSourceView::Program("pwsh"@, kind),
            ShellSourceView::Program("pwsh.exe"@, kind),
        ],
        ShellKind::Bash => seq![
            ShellSourceView::Program("bash"@, kind),
            ShellSourceView::Program("bash.exe"@, kind),
        ],
        ShellKind::Sh => seq![
            ShellSourceView::Program("sh"@, kind),
            ShellSourceView::Program("sh.exe"@, kind),
        ],
        ShellKind::Cmd => seq![
            ShellSourceView::Program("cmd"@, kind),
            ShellSourceView::Program("cmd.exe"@, kind),
        ],
    };
    if is_windows && kind == ShellKind::Cmd {
        named.push(ShellSourceView::Comspec)
    } else {
        named
    }
}

/// Where a shell is looked for without a wish. On Windows PowerShell comes first: it
/// runs Windows's own commands best.
pub open spec fn default_sources(is_windows: bool) -> Seq<ShellSourceView> {
    if is_windows {
        seq![
            ShellSourceView::Program("pwsh"@, ShellKind::Pwsh),
            ShellSourceView::Program("powershell"@, ShellKind::PowerShell),
            ShellSourceView::Program("bash"@, ShellKind::Bash),
            ShellSourceView::Program("sh"@, ShellKind::Sh),
            ShellSourceView::Program("cmd"@, ShellKind::Cmd),
            ShellSourceView::Program("cmd.exe"@, ShellKind::Cmd),
            ShellSourceView::Comspec,
        ]
    } else {
        seq![
            ShellSourceView::Program("sh"@, ShellKind::Sh),
            ShellSourceView::Program("bash"@, ShellKind::Bash),
        ]
    }
}

/// Where a shell is looked for, in this order: first where the wish says, then where
/// one is looked for without it.
pub open spec fn shell_sources(is_windows: bool, wish: Option<Seq<char>>) -> Seq<
    ShellSourceView,
> {
    match wish {
        Some(wish) => match wished_kind(wish) {
            Some(kind) => wished_sources(is_windows, kind) + default_sources(is_windows),
            None => default_sources(is_windows),
        },
        None => default_sources(is_windows),
    }
}

/// Whether a program can be used as a shell of this family: on Windows, a bash must not be
/// the launcher of the Linux subsystem.
pub open spec fn is_usable(is_windows: bool, kind: ShellKind, program: ProgramPathView) -> bool {
    !(kind is Bash && is_windows && is_wsl_launcher(program.text))
}

/// Whether looking through `sources`, in order, can end with `shell`. `answers` tells
/// which paths, or `None`, a search for a name can give.
pub open spec fn can_find(
    is_windows: bool,
    answers: spec_fn(Seq<char>, Option<ProgramPathView>) -> bool,
    comspec: Option<ProgramPathView>,
    sources: Seq<ShellSourceView>,
    shell: Option<ShellProgramView>,
) -> bool
    decreases sources.len(),
{
    if sources.len() == 0 {
        shell is None
    } else {
        match sources[0] {
            ShellSourceView::Comspec => match comspec {
                Some(program) => shell == Some(ShellProgramView { kind: ShellKind::Cmd, program }),
                None => can_find(is_windows, answers, comspec, sources.skip(1), shell),
            },
            ShellSourceView::Program(name, kind) => exists|answer: Option<ProgramPathView>| #[trigger]
                answers(name, answer) && (if answer is Some && is_usable(is_windows, kind, answer->0) {
                    shell == Some(ShellProgramView { kind, program: answer->0 })
                } else {
                    can_find(is_windows, answers, comspec, sources.skip(1), shell)
                }),
        }
    }
}

/// A search for the first source's name, and what it leads to.
proof fn search_answered(
    is_windows: bool,
    answers: spec_fn(Seq<char>, Option<ProgramPathView>) -> bool,
    comspec: Option<ProgramPathView>,
    sources: Seq<ShellSourceView>,
    answer: Option<ProgramPathView>,
    shell: Option<ShellProgramView>,
)
    requires
        sources.len() > 0,
        sources[0] is Program,
        answers(sources[0]->0, answer),
        if answer is Some && is_usable(is_windows, sources[0]->1, answer->0) {
            shell == Some(ShellProgramView { kind: sources[0]->1, program: answer->0 })
        } else {
            can_find(is_windows, answers, comspec, sources.skip(1), shell)
        },
    ensures
        can_find(is_windows, answers, comspec, sources, shell),
{
}

/// What a search function can answer to a name.
pub open spec fn answers_of<F: FnMut(&str) -> Option<ProgramPath>>(resolve: F) -> spec_fn(
    Seq<char>,
    Option<ProgramPathView>,
) -> bool {
    |name: Seq<char>, answer: Option<ProgramPathView>|
        exists|n: &str, found: Option<ProgramPath>| #[trigger]
            call_ensures(resolve, (n,), found) && n@ == name && found.deep_view() == answer
}

fn find_wished_kind(wish: &str) -> (kind: Option<ShellKind>)
    ensures
        kind == wished_kind(wish@),
{
    let trimmed = text::trim(wish);
    let lower = text::ascii_lowercase(trimmed.as_str());
    let wish = lower.as_str();
    if text::same_text(wish, "powershell") || text::same_text(wish, "ps") {
        Some(ShellKind::PowerShell)
    } else if text::same_text(wish, "pwsh") {
        Some(ShellKind::Pwsh)
    } else if text::same_text(wish, "bash") {
        Some(ShellKind::Bash)
    } else if text::same_text(wish, "sh") {
        Some(ShellKind::Sh)
    } else if text::same_text(wish, "cmd") || text::same_text(wish, "cmd.exe") {
        Some(ShellKind::Cmd)
    } else {
        None
    }
}

fn list_wished_sources(is_windows: bool, kind: ShellKind) -> (sources: Vec<ShellSource>)
    ensures
        sources.deep_view() == wished_sources(is_windows, kind),
{
    let (plain, suffixed) = match kind {
        ShellKind::PowerShell => ("powershell", "powershell.exe"),
        ShellKind::Pwsh => ("pwsh", "pwsh.exe"),
        ShellKind::Bash => ("bash", "bash.exe"),
        ShellKind::Sh => ("sh", "sh.exe"),
        ShellKind::Cmd => ("cmd", "cmd.exe"),
    };
    let mut sources: Vec<ShellSource> = vec![
        ShellSource::Program(plain, kind),
        ShellSource::Program(suffixed, kind),
    ];
    if is_windows && kind == ShellKind::Cmd {
        sources.push(ShellSource::Comspec);
    }
    assert(sources.deep_view() =~= wished_sources(is_windows, kind));
    sources
}

fn list_default_sources(is_windows: bool) -> (sources: Vec<ShellSource>)
    ensures
        sources.deep_view() == default_sources(is_windows),
{
    let sources: Vec<ShellSource> = if is_windows {
        vec![
            ShellSource::Program("pwsh", ShellKind::Pwsh),
            ShellSource::Program("powershell", ShellKind::PowerShell),
            ShellSource::Program("bash", ShellKind::Bash),
            ShellSource::Program("sh", ShellKind::Sh),
            ShellSource::Program("cmd", ShellKind::Cmd),
            ShellSource::Program("cmd.exe", ShellKind::Cmd),
            ShellSource::Comspec,
        ]
    } else {
        vec![
            ShellSource::Program("sh", ShellKind::Sh),
            ShellSource::Program("bash", ShellKind::Bash),
        ]
    };
    assert(sources.deep_view() =~= default_sources(is_windows));
    sources
}

fn list_sources(is_windows: bool, preferred: Option<&str>) -> (sources: Vec<ShellSource>)
    ensures
        sources.deep_view() == shell_sources(is_windows, preferred.deep_view()),
{
    let mut defaults = list_default_sources(is_windows);
    if let Some(wish) = preferred {
        if let Some(kind) = find_wished_kind(wish) {
            let mut sources = list_wished_sources(is_windows, kind);
            let ghost first = sources.deep_view();
            let ghost second = defaults.deep_view();
            sources.append(&mut defaults);
            assert(sources.deep_view() =~= first + second);
            return sources;
        }
    }
    defaults
}

/// Looks for a shell: where `preferred` wishes, if it names a shell, then where this
/// platform has its shells. `resolve` searches for a program by its name, and `comspec`
/// is the command interpreter that the system names.
pub fn detect_native_shell_with<F>(
    is_windows: bool,
    resolve: F,
    comspec: Option<ProgramPath>,
    preferred: Option<&str>,
) -> (shell: Option<ShellProgram>) where F: FnMut(&str) -> Option<ProgramPath>
    requires
        forall|name: &str| #[trigger] call_requires(resolve, (name,)),
    ensures
        can_find(
            is_windows,
            answers_of(resolve),
            comspec.deep_view(),
            shell_sources(is_windows, preferred.deep_view()),
            shell.deep_view(),
        ),
{
    let sources = list_sources(is_windows, preferred);
    let ghost all = sources.deep_view();
    let ghost answers = answers_of(resolve);
    let ghost known = comspec.deep_view();
    let mut search = resolve;
    let mut i: usize = 0;
    assert(all.skip(0) =~= all);
    while i < sources.len()
        invariant
            i <= sources.len(),
            all == sources.deep_view(),
            all == shell_sources(is_windows, preferred.deep_view()),
            answers == answers_of(resolve),
            answers == answers_of(search),
            known == comspec.deep_view(),
            forall|name: &str| #[trigger] call_requires(search, (name,)),
            forall|r: Option<ShellProgramView>|
                can_find(is_windows, answers, known, all.skip(i as int), r)
                    ==> #[trigger] can_find(is_windows, answers, known, all, r),
        decreases sources.len() - i,
    {
        let ghost rest = all.skip(i as int);
        assert(rest.skip(1) =~= all.skip(i + 1));
        assert(rest[0] == sources@[i as int].deep_view());
        match &sources[i] {
            ShellSource::Program(name, kind) => {
                let found = search(name);
                let ghost answer = found.deep_view();
                assert(answers(name@, answer));
                if let Some(program) = found {
                    if !(*kind == ShellKind::Bash && is_windows && is_windows_wsl_bash_launcher(
                        program.text.as_str(),
                    )) {
                        let shell = Some(ShellProgram { kind: *kind, program });
                        proof {
                            search_answered(
                                is_windows,
                                answers,
                                known,
                                rest,
                                answer,
                                shell.deep_view(),
                            );
                        }
                        return shell;
                    }
                }
                assert forall|r: Option<ShellProgramView>|
                    can_find(is_windows, answers, known, rest.skip(1), r) implies #[trigger] can_find(
                    is_windows,
                    answers,
                    known,
                    all,
                    r,
                ) by {
                    search_answered(is_windows, answers, known, rest, answer, r);
                }
            },
            ShellSource::Comspec => {
                if let Some(program) = &comspec {
                    let shell = Some(
                        ShellProgram { kind: ShellKind::Cmd, program: program.clone() },
                    );
                    assert(can_find(is_windows, answers, known, rest, shell.deep_view()));
                    return shell;
                }
            },
        }
        i += 1;
    }
    assert(all.skip(i as int) =~= Seq::<ShellSourceView>::empty());
    assert(can_find(is_windows, answers, known, all.skip(i as int), None));
    None
}

/// What a search of this machine can answer to a name.
pub open spec fn machine_answers() -> spec_fn(Seq<char>, Option<ProgramPathView>) -> bool {
    |name: Seq<char>, answer: Option<ProgramPathView>| system::is_found(name, answer)
}

/// More answers can only lead to more shells.
proof fn more_answers(
    is_windows: bool,
    few: spec_fn(Seq<char>, Option<ProgramPathView>) -> bool,
    many: spec_fn(Seq<char>, Option<ProgramPathView>) -> bool,
    comspec: Option<ProgramPathView>,
    sources: Seq<ShellSourceView>,
    shell: Option<ShellProgramView>,
)
    requires
        forall|name: Seq<char>, answer: Option<ProgramPathView>| #[trigger]
            few(name, answer) ==> many(name, answer),
        can_find(is_windows, few, comspec, sources, shell),
    ensures
        can_find(is_windows, many, comspec, sources, shell),
    decreases sources.len(),
{
    if sources.len() > 0 {
        match sources[0] {
            ShellSourceView::Comspec => {
                if comspec is None {
                    more_answers(is_windows, few, many, comspec, sources.skip(1), shell);
                }
            },
            ShellSourceView::Program(name, kind) => {
                let answer = choose|answer: Option<ProgramPathView>| #[trigger]
                    few(name, answer) && (if answer is Some && is_usable(is_windows, kind, answer->0) {
                        shell == Some(ShellProgramView { kind, program: answer->0 })
                    } else {
                        can_find(is_windows, few, comspec, sources.skip(1), shell)
                    });
                if !(answer is Some && is_usable(is_windows, kind, answer->0)) {
                    more_answers(is_windows, few, many, comspec, sources.skip(1), shell);
                }
                search_answered(is_windows, many, comspec, sources, answer, shell);
            },
        }
    }
}

/// Looks for a shell on this machine, where `preferred` wishes, if it names a shell,
/// then where this platform has its shells.
pub fn detect_native_shell_with_preference(
    is_windows: bool,
    comspec: Option<ProgramPath>,
    preferred: Option<&str>,
) -> (shell: Option<ShellProgram>)
    ensures
        can_find(
            is_windows,
            machine_answers(),
            comspec.deep_view(),
            shell_sources(is_windows, preferred.deep_view()),
            shell.deep_view(),
        ),
{
    let ghost known = comspec.deep_view();
    let resolve = |name: &str| -> (program: Option<ProgramPath>)
        ensures
            system::is_found(name@, program.deep_view()),
        { system::find_program(name) };
    let shell = detect_native_shell_with(is_windows, resolve, comspec, preferred);
    proof {
        more_answers(
            is_windows,
            answers_of(resolve),
            machine_answers(),
            known,
            shell_sources(is_windows, preferred.deep_view()),
            shell.deep_view(),
        );
    }
    shell
}

/// Looks for a shell on this machine, where this platform has its shells.
pub fn detect_native_shell(is_windows: bool, comspec: Option<ProgramPath>) -> (shell: Option<
    ShellProgram,
>)
    ensures
        can_find(
            is_windows,
            machine_answers(),
            comspec.deep_view(),
            shell_sources(is_windows, None),
            shell.deep_view(),
        ),
{
    detect_native_shell_with_preference(is_windows, comspec, None)
}

/// What is said where no shell was found.
pub open spec fn missing_shell(is_windows: bool) -> Seq<char> {
    if is_windows {
        "Native runtime could not find a usable shell (tried: bash, sh, pwsh, powershell, cmd). Install Git Bash or PowerShell and ensure it is available on PATH."@
    } else {
        "Native runtime could not find a usable shell (tried: sh, bash). Install a POSIX shell and ensure it is available on PATH."@
    }
}

/// What is said where no shell was found.
pub fn missing_shell_error(is_windows: bool) -> (message: &'static str)
    ensures
        message@ == missing_shell(is_windows),
{
    if is_windows {
        "Native runtime could not find a usable shell (tried: bash, sh, pwsh, powershell, cmd). Install Git Bash or PowerShell and ensure it is available on PATH."
    } else {
        "Native runtime could not find a usable shell (tried: sh, bash). Install a POSIX shell and ensure it is available on PATH."
    }
}

/// A process to start.
#[derive(Debug)]
pub struct ShellCommand {
    /// The path of the executable.
    pub program: PathBuf,
    pub args: Vec<String>,
    /// The directory in which it starts.
    pub current_dir: PathBuf,
}

/// A `ShellCommand`, with its texts as sequences of characters.
pub struct ShellCommandView {
    pub program: PathBuf,
    pub args: Seq<Seq<char>>,
    pub current_dir: PathBuf,
}

impl DeepView for ShellCommand {
    type V = ShellCommandView;

    open spec fn deep_view(&self) -> ShellCommandView {
        ShellCommandView {
            program: self.program,
            args: self.args.deep_view(),
            current_dir: self.current_dir,
        }
    }
}

/// The runtime of the machine itself, and the shell it has.
pub struct NativeRuntime {
    is_windows: bool,
    shell: Option<ShellProgram>,
}

/// What a `NativeRuntime` knows of its machine.
pub struct NativeRuntimeView {
    pub is_windows: bool,
    pub shell: Option<ShellProgramView>,
}

impl DeepView for NativeRuntime {
    type V = NativeRuntimeView;

    closed spec fn deep_view(&self) -> NativeRuntimeView {
        NativeRuntimeView { is_windows: self.is_windows, shell: self.shell.deep_view() }
    }
}

/// Whether this is a shell with the syntax of PowerShell.
pub open spec fn speaks_powershell(shell: Option<ShellProgramView>) -> bool {
    shell is Some && (shell->0.kind is Pwsh || shell->0.kind is PowerShell)
}

/// Whether this is a shell with the syntax of Unix.
pub open spec fn speaks_unix(shell: Option<ShellProgramView>) -> bool {
    shell is Some && (shell->0.kind is Sh || shell->0.kind is Bash)
}

/// How a prompt describes a shell.
pub open spec fn prompt_hint(shell: Option<ShellProgramView>) -> Seq<char> {
    if speaks_powershell(shell) {
        "PowerShell (use PowerShell cmdlets and syntax, e.g., Get-ChildItem, Get-Content, Remove-Item)"@
    } else if speaks_unix(shell) {
        "Unix shell (use standard Unix commands, e.g., ls, cat, rm)"@
    } else if shell is Some {
        "Command Prompt (use cmd.exe syntax, e.g., dir, type, del)"@
    } else {
        "Unknown shell"@
    }
}

/// The directory in which the runtime stores its data: under the home directory, or where
/// there is none, under the current one.
pub open spec fn storage_parts(home: Option<PathBuf>) -> PathPartsView {
    PathPartsView { base: home, parts: seq![".zeroclaw"@] }
}

/// What running `command` in `directory` takes, or why it cannot be run.
pub open spec fn shell_command(
    runtime: NativeRuntimeView,
    command: Seq<char>,
    directory: PathBuf,
) -> Result<ShellCommandView, Seq<char>> {
    match runtime.shell {
        Some(shell) => Ok(
            ShellCommandView {
                program: shell.program.path,
                args: shell_args(shell.kind, command),
                current_dir: directory,
            },
        ),
        None => Err(missing_shell(runtime.is_windows)),
    }
}

impl NativeRuntime {
    /// The runtime of this machine, with the shell that is found on it. `comspec` is
    /// the command interpreter that Windows names.
    pub fn new(is_windows: bool, comspec: Option<ProgramPath>) -> (runtime: Self)
        ensures
            runtime.deep_view().is_windows == is_windows,
            can_find(
                is_windows,
                machine_answers(),
                comspec.deep_view(),
                shell_sources(is_windows, None),
                runtime.deep_view().shell,
            ),
    {
        NativeRuntime { is_windows, shell: detect_native_shell(is_windows, comspec) }
    }

    /// The runtime of this machine, with the shell that is found on it. `preferred` is
    /// "powershell", "pwsh", "bash", "sh", "cmd" or "auto".
    pub fn with_preferred_shell(
        is_windows: bool,
        comspec: Option<ProgramPath>,
        preferred: Option<&str>,
    ) -> (runtime: Self)
        ensures
            runtime.deep_view().is_windows == is_windows,
            can_find(
                is_windows,
                machine_answers(),
                comspec.deep_view(),
                shell_sources(is_windows, preferred.deep_view()),
                runtime.deep_view().shell,
            ),
    {
        NativeRuntime {
            is_windows,
            shell: detect_native_shell_with_preference(is_windows, comspec, preferred),
        }
    }

    /// A runtime with a given shell.
    pub fn with_shell(is_windows: bool, shell: Option<ShellProgram>) -> (runtime: Self)
        ensures
            runtime.deep_view() == (NativeRuntimeView { is_windows, shell: shell.deep_view() }),
    {
        NativeRuntime { is_windows, shell }
    }

    /// The name of the family of the shell.
    pub fn selected_shell_kind(&self) -> (name: Option<&'static str>)
        ensures
            name.deep_view() == (match self.deep_view().shell {
                Some(shell) => Some(kind_name(shell.kind)),
                None => None,
            }),
    {
        match &self.shell {
            Some(shell) => Some(shell.kind.as_str()),
            None => None,
        }
    }

    /// The path of the shell's executable.
    pub fn selected_shell_program(&self) -> (program: Option<&PathBuf>)
        ensures
            program == (match self.deep_view().shell {
                Some(shell) => Some(&shell.program.path),
                None => None,
            }),
    {
        match &self.shell {
            Some(shell) => Some(&shell.program.path),
            None => None,
        }
    }

    /// Whether the shell has the syntax of PowerShell.
    pub fn is_powershell_syntax(&self) -> (yes: bool)
        ensures
            yes == speaks_powershell(self.deep_view().shell),
    {
        match &self.shell {
            Some(shell) => shell.kind == ShellKind::Pwsh || shell.kind == ShellKind::PowerShell,
            None => false,
        }
    }

    /// Whether the shell has the syntax of Unix.
    pub fn is_unix_syntax(&self) -> (yes: bool)
        ensures
            yes == speaks_unix(self.deep_view().shell),
    {
        match &self.shell {
            Some(shell) => shell.kind == ShellKind::Sh || shell.kind == ShellKind::Bash,
            None => false,
        }
    }

    /// How a system prompt describes the shell.
    pub fn shell_prompt_hint(&self) -> (hint: &'static str)
        ensures
            hint@ == prompt_hint(self.deep_view().shell),
    {
        match &self.shell {
            Some(shell) => match shell.kind {
                ShellKind::Pwsh | ShellKind::PowerShell => {
                    "PowerShell (use PowerShell cmdlets and syntax, e.g., Get-ChildItem, Get-Content, Remove-Item)"
                },
                ShellKind::Cmd => "Command Prompt (use cmd.exe syntax, e.g., dir, type, del)",
                ShellKind::Sh | ShellKind::Bash => {
                    "Unix shell (use standard Unix commands, e.g., ls, cat, rm)"
                },
            },
            None => "Unknown shell",
        }
    }

    /// The name of this kind of runtime.
    pub fn name(&self) -> (name: &'static str)
        ensures
            name@ == "native"@,
    {
        "native"
    }

    /// Whether commands can be run.
    pub fn has_shell_access(&self) -> (yes: bool)
        ensures
            yes == (self.deep_view().shell is Some),
    {
        self.shell.is_some()
    }

    /// Whether files can be read and written.
    pub fn has_filesystem_access(&self) -> (yes: bool)
        ensures
            yes,
    {
        true
    }

    /// The directory in which the runtime stores its data.
    pub fn storage_path(&self) -> (path: PathParts)
        ensures
            exists|home: Option<PathBuf>| #[trigger]
                system::is_home(home) && path.deep_view() == storage_parts(home),
    {
        let home = system::home_directory();
        self.storage_path_in(home)
    }

    /// The directory in which the runtime stores its data for a user with this home
    /// directory.
    pub fn storage_path_in(&self, home: Option<PathBuf>) -> (path: PathParts)
        ensures
            path.deep_view() == storage_parts(home),
    {
        let path = PathParts { base: home, parts: vec![String::from_str(".zeroclaw")] };
        assert(path.parts.deep_view() =~= seq![".zeroclaw"@]);
        path
    }

    /// Whether processes may run for long.
    pub fn supports_long_running(&self) -> (yes: bool)
        ensures
            yes,
    {
        true
    }

    /// The most memory that may be used, in bytes; 0 stands for no limit.
    pub fn memory_budget(&self) -> (bytes: u64)
        ensures
            bytes == 0,
    {
        0
    }

    /// What running `command` in `workspace_dir` takes, or why it cannot be run.
    pub fn build_shell_command(&self, command: &str, workspace_dir: &PathBuf) -> (process: Result<
        ShellCommand,
        &'static str,
    >)
        ensures
            shell_command(self.deep_view(), command@, *workspace_dir) == (match process {
                Ok(process) => Ok(process.deep_view()),
                Err(message) => Err(message@),
            }),
    {
        match &self.shell {
            Some(shell) => {
                let mut args: Vec<String> = Vec::new();
                shell.add_shell_args(&mut args, command);
                assert(args.deep_view() =~= shell_args(shell.kind, command@));
                Ok(
                    ShellCommand {
                        program: shell.program.path.clone(),
                        args,
                        current_dir: workspace_dir.clone(),
                    },
                )
            },
            None => Err(missing_shell_error(self.is_windows)),
        }
    }

    /// Whether the shell is a PowerShell.
    pub fn is_powershell_shell(&self) -> (yes: bool)
        ensures
            yes == speaks_powershell(self.deep_view().shell),
    {
        self.is_powershell_syntax()
    }
}

/// The shell of the first source that has a usable one, where `table` tells what a search
/// for a name finds.
pub open spec fn first_shell(
    is_windows: bool,
    table: spec_fn(Seq<char>) -> Option<ProgramPathView>,
    comspec: Option<ProgramPathView>,
    sources: Seq<ShellSourceView>,
) -> Option<ShellProgramView>
    decreases sources.len(),
{
    if sources.len() == 0 {
        None
    } else {
        let rest = first_shell(is_windows, table, comspec, sources.skip(1));
        match sources[0] {
            ShellSourceView::Comspec => match comspec {
                Some(program) => Some(ShellProgramView { kind: ShellKind::Cmd, program }),
                None => rest,
            },
            ShellSourceView::Program(name, kind) => match table(name) {
                Some(program) => if is_usable(is_windows, kind, program) {
                    Some(ShellProgramView { kind, program })
                } else {
                    rest
                },
                None => rest,
            },
        }
    }
}

/// Where a search for a name always finds the same, the shell that is found is that of
/// the first source that has a usable one.
pub proof fn steady_search_finds_first(
    is_windows: bool,
    answers: spec_fn(Seq<char>, Option<ProgramPathView>) -> bool,
    table: spec_fn(Seq<char>) -> Option<ProgramPathView>,
    comspec: Option<ProgramPathView>,
    sources: Seq<ShellSourceView>,
    shell: Option<ShellProgramView>,
)
    requires
        forall|name: Seq<char>, answer: Option<ProgramPathView>| #[trigger]
            answers(name, answer) ==> answer == table(name),
        can_find(is_windows, answers, comspec, sources, shell),
    ensures
        shell == first_shell(is_windows, table, comspec, sources),
    decreases sources.len(),
{
    if sources.len() > 0 {
        let rest = sources.skip(1);
        if can_find(is_windows, answers, comspec, rest, shell) {
            steady_search_finds_first(is_windows, answers, table, comspec, rest, shell);
        }
    }
}

/// A shell that is found comes from one of the sources: it was found under the source's
/// name and can be used, or it is the command interpreter that the system names.
pub proof fn found_shell_has_source(
    is_windows: bool,
    answers: spec_fn(Seq<char>, Option<ProgramPathView>) -> bool,
    comspec: Option<ProgramPathView>,
    sources: Seq<ShellSourceView>,
    shell: ShellProgramView,
)
    requires
        can_find(is_windows, answers, comspec, sources, Some(shell)),
    ensures
        exists|i: int|
            0 <= i < sources.len() && (match #[trigger] sources[i] {
                ShellSourceView::Comspec => comspec == Some(shell.program)
                    && shell.kind is Cmd,
                ShellSourceView::Program(name, kind) => answers(name, Some(shell.program))
                    && is_usable(is_windows, kind, shell.program) && shell.kind == kind,
            }),
    decreases sources.len(),
{
    if sources.len() > 0 {
        let rest = sources.skip(1);
        if can_find(is_windows, answers, comspec, rest, Some(shell)) {
            found_shell_has_source(is_windows, answers, comspec, rest, shell);
            let i = choose|i: int|
                0 <= i < rest.len() && (match #[trigger] rest[i] {
                    ShellSourceView::Comspec => comspec == Some(shell.program)
                        && shell.kind is Cmd,
                    ShellSourceView::Program(name, kind) => answers(name, Some(shell.program))
                        && is_usable(is_windows, kind, shell.program) && shell.kind == kind,
                });
            assert(sources[i + 1] == rest[i]);
        } else {
            assert(sources[0] == sources[0]);
        }
    }
}

/// A wish is granted: where the wished shell is found under its plain name and can be
/// used, that is the shell.
pub proof fn wish_is_granted(
    is_windows: bool,
    table: spec_fn(Seq<char>) -> Option<ProgramPathView>,
    comspec: Option<ProgramPathView>,
    wish: Seq<char>,
)
    requires
        wished_kind(wish) is Some,
        table(kind_name(wished_kind(wish)->0)) is Some,
        is_usable(
            is_windows,
            wished_kind(wish)->0,
            table(kind_name(wished_kind(wish)->0))->0,
        ),
    ensures
        first_shell(is_windows, table, comspec, shell_sources(is_windows, Some(wish))) == Some(
            ShellProgramView {
                kind: wished_kind(wish)->0,
                program: table(kind_name(wished_kind(wish)->0))->0,
            },
        ),
{
    let sources = shell_sources(is_windows, Some(wish));
    let kind = wished_kind(wish)->0;
    assert(sources[0] == ShellSourceView::Program(kind_name(kind), kind));
}

/// Without a wish, a PowerShell is the shell of Windows wherever there is one, and the
/// newer of the two where there are both.
pub proof fn windows_prefers_powershell(
    table: spec_fn(Seq<char>) -> Option<ProgramPathView>,
    comspec: Option<ProgramPathView>,
)
    ensures
        table("pwsh"@) is Some ==> first_shell(
            true,
            table,
            comspec,
            shell_sources(true, None),
        ) == Some(ShellProgramView { kind: ShellKind::Pwsh, program: table("pwsh"@)->0 }),
        table("pwsh"@) is None && table("powershell"@) is Some ==> first_shell(
            true,
            table,
            comspec,
            shell_sources(true, None),
        ) == Some(
            ShellProgramView { kind: ShellKind::PowerShell, program: table("powershell"@)->0 },
        ),
{
    let sources = shell_sources(true, None);
    reveal_strlit("bash");
    reveal_strlit("pwsh");
    reveal_strlit("powershell");
    assert("pwsh"@[0] != "bash"@[0]);
    assert("powershell"@[0] != "bash"@[0]);
    assert(sources.skip(1)[0] == sources[1]);
    reveal_with_fuel(first_shell, 3);
}

/// Without a wish, `sh` is the shell of the other systems wherever there is one, else
/// `bash`, else none.
pub proof fn unix_prefers_sh(
    table: spec_fn(Seq<char>) -> Option<ProgramPathView>,
    comspec: Option<ProgramPathView>,
)
    ensures
        first_shell(false, table, comspec, shell_sources(false, None)) == (if table(
            "sh"@,
        ) is Some {
            Some(ShellProgramView { kind: ShellKind::Sh, program: table("sh"@)->0 })
        } else if table("bash"@) is Some {
            Some(ShellProgramView { kind: ShellKind::Bash, program: table("bash"@)->0 })
        } else {
            None
        }),
{
    let sources = shell_sources(false, None);
    assert(sources.skip(1)[0] == sources[1]);
    reveal_with_fuel(first_shell, 3);
}

/// Whether a search for a name always finds the same.
pub open spec fn is_steady(answers: spec_fn(Seq<char>, Option<ProgramPathView>) -> bool) -> bool {
    forall|name: Seq<char>, one: Option<ProgramPathView>, other: Option<ProgramPathView>|
        #![trigger answers(name, one), answers(name, other)]
        answers(name, one) && answers(name, other) ==> one == other
}

/// Where a search for a name always finds the same, looking through the same sources
/// twice ends with the same shell.
pub proof fn steady_searches_agree(
    is_windows: bool,
    answers: spec_fn(Seq<char>, Option<ProgramPathView>) -> bool,
    comspec: Option<ProgramPathView>,
    sources: Seq<ShellSourceView>,
    one: Option<ShellProgramView>,
    other: Option<ShellProgramView>,
)
    requires
        is_steady(answers),
        can_find(is_windows, answers, comspec, sources, one),
        can_find(is_windows, answers, comspec, sources, other),
    ensures
        one == other,
    decreases sources.len(),
{
    if sources.len() > 0 {
        let rest = sources.skip(1);
        if can_find(is_windows, answers, comspec, rest, one) && can_find(
            is_windows,
            answers,
            comspec,
            rest,
            other,
        ) {
            steady_searches_agree(is_windows, answers, comspec, rest, one, other);
        }
    }
}

/// A wish for "auto", in any case of its letters, or for nothing but white space names no
/// shell.
pub proof fn auto_names_no_shell(wish: Seq<char>)
    requires
        normalized_wish(wish) == "auto"@ || text::trimmed(wish).len() == 0,
    ensures
        wished_kind(wish) is None,
{
    reveal_strlit("auto");
    reveal_strlit("powershell");
    reveal_strlit("ps");
    reveal_strlit("pwsh");
    reveal_strlit("bash");
    reveal_strlit("sh");
    reveal_strlit("cmd");
    reveal_strlit("cmd.exe");
    assert(normalized_wish(wish).len() == text::trimmed(wish).len());
    if normalized_wish(wish) == "auto"@ {
        assert("auto"@[0] != "pwsh"@[0] && "auto"@[0] != "bash"@[0]);
    }
}

/// A runtime with a wish for "auto", for nothing but white space, or with no wish at all
/// is the same as one that was made without, where a search for a name always finds the same.
pub proof fn auto_is_no_wish(
    is_windows: bool,
    answers: spec_fn(Seq<char>, Option<ProgramPathView>) -> bool,
    comspec: Option<ProgramPathView>,
    wish: Option<Seq<char>>,
    wished: NativeRuntimeView,
    plain: NativeRuntimeView,
)
    requires
        is_steady(answers),
        wish is Some ==> normalized_wish(wish->0) == "auto"@ || text::trimmed(wish->0).len() == 0,
        wished.is_windows == is_windows,
        can_find(is_windows, answers, comspec, shell_sources(is_windows, wish), wished.shell),
        plain.is_windows == is_windows,
        can_find(is_windows, answers, comspec, shell_sources(is_windows, None), plain.shell),
    ensures
        wished == plain,
{
    if wish is Some {
        auto_names_no_shell(wish->0);
    }
    steady_searches_agree(
        is_windows,
        answers,
        comspec,
        shell_sources(is_windows, None),
        wished.shell,
        plain.shell,
    );
}

/// A wish that names no shell, such as "auto", counts for nothing.
pub proof fn other_wish_counts_for_nothing(is_windows: bool, wish: Seq<char>)
    requires
        wished_kind(wish) is None,
    ensures
        shell_sources(is_windows, Some(wish)) == shell_sources(is_windows, None),
{
}

/// Whether whatever is found comes with the text of its path.
pub open spec fn tells_truly(
    answers: spec_fn(Seq<char>, Option<ProgramPathView>) -> bool,
) -> bool {
    forall|name: Seq<char>, program: ProgramPathView| #[trigger]
        answers(name, Some(program)) ==> program.text == system::path_text(program.path)
}

/// What is found on this machine comes with the text of its path.
pub proof fn machine_tells_truly()
    ensures
        tells_truly(machine_answers()),
{
    let answers = machine_answers();
    assert forall|name: Seq<char>, program: ProgramPathView| #[trigger]
        answers(name, Some(program)) implies program.text == system::path_text(program.path) by {
        system::found_text_is_the_paths(name, program);
    }
}

/// On Windows, no search for a shell ends at the launcher of the Linux subsystem as a
/// bash, whatever is wished for: neither the text that was found is that of the launcher nor,
/// where it is the text of the path, the path itself.
pub proof fn linux_launcher_is_no_bash(
    answers: spec_fn(Seq<char>, Option<ProgramPathView>) -> bool,
    comspec: Option<ProgramPathView>,
    wish: Option<Seq<char>>,
    shell: ShellProgramView,
)
    requires
        can_find(true, answers, comspec, shell_sources(true, wish), Some(shell)),
    ensures
        !(shell.kind is Bash && is_wsl_launcher(shell.program.text)),
        tells_truly(answers) ==> !(shell.kind is Bash && is_wsl_launcher(
            system::path_text(shell.program.path),
        )),
{
    found_shell_has_source(true, answers, comspec, shell_sources(true, wish), shell);
}

/// On Windows, a command of a runtime that was made on this machine never runs the launcher of
/// the Linux subsystem as a bash, whatever was wished for.
pub proof fn launcher_runs_no_command(
    comspec: Option<ProgramPathView>,
    wish: Option<Seq<char>>,
    runtime: NativeRuntimeView,
    command: Seq<char>,
    directory: PathBuf,
)
    requires
        can_find(
            true,
            machine_answers(),
            comspec,
            shell_sources(true, wish),
            runtime.shell,
        ),
        runtime.shell is Some,
        runtime.shell->0.kind is Bash,
    ensures
        shell_command(runtime, command, directory) matches Ok(process) && !is_wsl_launcher(
            system::path_text(process.program),
        ),
{
    machine_tells_truly();
    linux_launcher_is_no_bash(machine_answers(), comspec, wish, runtime.shell->0);
}

/// On Windows, a shell is found wherever the system names a command interpreter.
pub proof fn command_interpreter_is_last_resort(
    answers: spec_fn(Seq<char>, Option<ProgramPathView>) -> bool,
    comspec: ProgramPathView,
    wish: Option<Seq<char>>,
    shell: Option<ShellProgramView>,
)
    requires
        can_find(true, answers, Some(comspec), shell_sources(true, wish), shell),
    ensures
        shell is Some,
{
    let sources = shell_sources(true, wish);
    assert(sources.last() is Comspec);
    interpreter_is_found(true, answers, comspec, sources, shell);
}

proof fn interpreter_is_found(
    is_windows: bool,
    answers: spec_fn(Seq<char>, Option<ProgramPathView>) -> bool,
    comspec: ProgramPathView,
    sources: Seq<ShellSourceView>,
    shell: Option<ShellProgramView>,
)
    requires
        sources.len() > 0,
        sources.last() is Comspec,
        can_find(is_windows, answers, Some(comspec), sources, shell),
    ensures
        shell is Some,
    decreases sources.len(),
{
    if shell is None {
        interpreter_is_found(is_windows, answers, comspec, sources.skip(1), shell);
    }
}

/// Away from Windows, the command interpreter that the system names counts for nothing.
pub proof fn interpreter_is_for_windows(
    answers: spec_fn(Seq<char>, Option<ProgramPathView>) -> bool,
    comspec: Option<ProgramPathView>,
    wish: Option<Seq<char>>,
    shell: Option<ShellProgramView>,
)
    requires
        can_find(false, answers, comspec, shell_sources(false, wish), shell),
    ensures
        can_find(false, answers, None, shell_sources(false, wish), shell),
{
    interpreter_is_unused(answers, comspec, shell_sources(false, wish), shell);
}

proof fn interpreter_is_unused(
    answers: spec_fn(Seq<char>, Option<ProgramPathView>) -> bool,
    comspec: Option<ProgramPathView>,
    sources: Seq<ShellSourceView>,
    shell: Option<ShellProgramView>,
)
    requires
        forall|i: int| 0 <= i < sources.len() ==> #[trigger] sources[i] is Program,
        can_find(false, answers, comspec, sources, shell),
    ensures
        can_find(false, answers, None, sources, shell),
    decreases sources.len(),
{
    if sources.len() > 0 {
        let rest = sources.skip(1);
        if can_find(false, answers, comspec, rest, shell) {
            interpreter_is_unused(answers, comspec, rest, shell);
        }
        let name = sources[0]->0;
        let kind = sources[0]->1;
        let answer = choose|answer: Option<ProgramPathView>| #[trigger]
            answers(name, answer) && (if answer is Some && is_usable(false, kind, answer->0) {
                shell == Some(ShellProgramView { kind, program: answer->0 })
            } else {
                can_find(false, answers, comspec, rest, shell)
            });
        search_answered(false, answers, None, sources, answer, shell);
    }
}

/// A shell's command line ends with the command itself, as one argument.
pub proof fn command_is_one_argument(kind: ShellKind, command: Seq<char>)
    ensures
        shell_args(kind, command).len() > 0,
        shell_args(kind, command).last() == command,
{
}

proof fn lemma_names()
    ensures
        "sh"@.len() == 2,
        "bash"@.len() == 4,
        "pwsh"@.len() == 4,
        "powershell"@.len() == 10,
        "cmd"@.len() == 3,
        "ps"@.len() == 2,
        "cmd.exe"@.len() == 7,
        "auto"@.len() == 4,
        "sh"@[0] == 's',
        "ps"@[0] == 'p',
        "bash"@[0] == 'b',
        "pwsh"@[0] == 'p',
{
    reveal_strlit("sh");
    reveal_strlit("bash");
    reveal_strlit("pwsh");
    reveal_strlit("powershell");
    reveal_strlit("cmd");
    reveal_strlit("ps");
    reveal_strlit("cmd.exe");
    reveal_strlit("auto");
}

/// A wish that is the name of a family of shells names that very family; "ps" stands for
/// PowerShell and "cmd.exe" for the command prompt, and nothing else names a shell.
pub proof fn wish_names_its_shell(wish: Seq<char>, kind: ShellKind)
    ensures
        normalized_wish(wish) == kind_name(kind) ==> wished_kind(wish) == Some(kind),
        normalized_wish(wish) == "ps"@ ==> wished_kind(wish) == Some(ShellKind::PowerShell),
        normalized_wish(wish) == "cmd.exe"@ ==> wished_kind(wish) == Some(ShellKind::Cmd),
        wished_kind(wish) == Some(kind) ==> normalized_wish(wish) == kind_name(kind) || (
        normalized_wish(wish) == "ps"@ && kind is PowerShell) || (normalized_wish(wish)
            == "cmd.exe"@ && kind is Cmd),
{
    lemma_names();
}

/// The families of shells are called sh, bash, pwsh, powershell and cmd.
pub proof fn families_have_their_names()
    ensures
        kind_name(ShellKind::Sh) == "sh"@,
        kind_name(ShellKind::Bash) == "bash"@,
        kind_name(ShellKind::Pwsh) == "pwsh"@,
        kind_name(ShellKind::PowerShell) == "powershell"@,
        kind_name(ShellKind::Cmd) == "cmd"@,
{
}

/// Whether two texts are the same but for the case of ASCII letters.
pub open spec fn same_letters(one: Seq<char>, other: Seq<char>) -> bool {
    &&& one.len() == other.len()
    &&& forall|i: int|
        0 <= i < one.len() ==> {
            ||| #[trigger] one[i] == other[i]
            ||| 'A' <= one[i] <= 'Z' && other[i] as int == one[i] as int + 32
            ||| 'A' <= other[i] <= 'Z' && one[i] as int == other[i] as int + 32
        }
}

/// A wish is read without the white space around it, in whatever case its letters are.
pub proof fn wish_is_read_loosely(
    left: Seq<char>,
    core: Seq<char>,
    right: Seq<char>,
    plain: Seq<char>,
)
    requires
        text::all_white(left),
        text::has_black_ends(core),
        text::all_white(right),
        same_letters(core, plain),
        forall|i: int| 0 <= i < plain.len() ==> !('A' <= #[trigger] plain[i] <= 'Z'),
    ensures
        normalized_wish(left + core + right) == plain,
{
    text::white_space_is_trimmed(left, core, right);
    let lower = normalized_wish(left + core + right);
    assert forall|i: int| 0 <= i < plain.len() implies lower[i] == #[trigger] plain[i] by {
        assert(core[i] == core[i]);
        text::lower_case_keeps_the_letter(core[i]);
    }
    assert(lower =~= plain);
}

/// A preference that is the name of a shell is honoured: where a usable program is found under
/// that name, that program is the shell, of that family.
pub proof fn named_shell_is_found(
    is_windows: bool,
    table: spec_fn(Seq<char>) -> Option<ProgramPathView>,
    comspec: Option<ProgramPathView>,
    wish: Seq<char>,
    kind: ShellKind,
)
    requires
        normalized_wish(wish) == kind_name(kind),
        table(kind_name(kind)) is Some,
        !(is_windows && kind is Bash && is_wsl_launcher(table(kind_name(kind))->0.text)),
    ensures
        first_shell(is_windows, table, comspec, shell_sources(is_windows, Some(wish))) == Some(
            ShellProgramView { kind, program: table(kind_name(kind))->0 },
        ),
{
    wish_names_its_shell(wish, kind);
    wish_is_granted(is_windows, table, comspec, wish);
}

/// A wished shell that is not found under its plain name is looked for with ".exe" behind it;
/// on Windows, the command interpreter that the system names does for a wished command prompt.
pub proof fn wished_shell_is_looked_for_again(
    is_windows: bool,
    table: spec_fn(Seq<char>) -> Option<ProgramPathView>,
    comspec: Option<ProgramPathView>,
    wish: Seq<char>,
    kind: ShellKind,
)
    requires
        wished_kind(wish) == Some(kind),
        table(kind_name(kind)) is None,
    ensures
        ({
            let shell = first_shell(
                is_windows,
                table,
                comspec,
                shell_sources(is_windows, Some(wish)),
            );
            let again = table(kind_name(kind) + ".exe"@);
            &&& again is Some && !(is_windows && kind is Bash && is_wsl_launcher(again->0.text))
                ==> shell == Some(ShellProgramView { kind, program: again->0 })
            &&& again is None && is_windows && kind is Cmd && comspec is Some ==> shell == Some(
                ShellProgramView { kind: ShellKind::Cmd, program: comspec->0 },
            )
            &&& again is None && (comspec is None || !is_windows || !(kind is Cmd)) ==> shell
                == first_shell(is_windows, table, comspec, shell_sources(is_windows, None))
        }),
{
    reveal_strlit("sh");
    reveal_strlit("sh.exe");
    reveal_strlit("bash");
    reveal_strlit("bash.exe");
    reveal_strlit("pwsh");
    reveal_strlit("pwsh.exe");
    reveal_strlit("powershell");
    reveal_strlit("powershell.exe");
    reveal_strlit("cmd");
    reveal_strlit("cmd.exe");
    reveal_strlit(".exe");
    assert("sh.exe"@ =~= "sh"@ + ".exe"@);
    assert("bash.exe"@ =~= "bash"@ + ".exe"@);
    assert("pwsh.exe"@ =~= "pwsh"@ + ".exe"@);
    assert("powershell.exe"@ =~= "powershell"@ + ".exe"@);
    assert("cmd.exe"@ =~= "cmd"@ + ".exe"@);
    let sources = shell_sources(is_windows, Some(wish));
    let one = sources.skip(1);
    let two = one.skip(1);
    assert(sources[0] == ShellSourceView::Program(kind_name(kind), kind));
    assert(one[0] == ShellSourceView::Program(kind_name(kind) + ".exe"@, kind));
    assert(first_shell(is_windows, table, comspec, sources) == first_shell(
        is_windows,
        table,
        comspec,
        one,
    ));
    if is_windows && kind is Cmd {
        assert(two[0] == ShellSourceView::Comspec);
        assert(two.skip(1) =~= default_sources(is_windows));
    } else {
        assert(two =~= default_sources(is_windows));
    }
    let again = table(kind_name(kind) + ".exe"@);
    let last = first_shell(is_windows, table, comspec, two);
    assert(last == (if is_windows && kind is Cmd && comspec is Some {
        Some(ShellProgramView { kind: ShellKind::Cmd, program: comspec->0 })
    } else {
        first_shell(is_windows, table, comspec, default_sources(is_windows))
    }));
    assert(first_shell(is_windows, table, comspec, one) == (if again is Some && is_usable(
        is_windows,
        kind,
        again->0,
    ) {
        Some(ShellProgramView { kind, program: again->0 })
    } else {
        last
    }));
}

/// Without a wish, the shell of Windows is the first that is found of pwsh, powershell, a bash
/// that is not the launcher of the Linux subsystem, sh, cmd, cmd.exe and the command
/// interpreter that the system names.
pub proof fn windows_order_of_shells(
    table: spec_fn(Seq<char>) -> Option<ProgramPathView>,
    comspec: Option<ProgramPathView>,
)
    ensures
        first_shell(true, table, comspec, shell_sources(true, None)) == (if table(
            "pwsh"@,
        ) is Some {
            Some(ShellProgramView { kind: ShellKind::Pwsh, program: table("pwsh"@)->0 })
        } else if table("powershell"@) is Some {
            Some(ShellProgramView { kind: ShellKind::PowerShell, program: table("powershell"@)->0 })
        } else if table("bash"@) is Some && !is_wsl_launcher(table("bash"@)->0.text) {
            Some(ShellProgramView { kind: ShellKind::Bash, program: table("bash"@)->0 })
        } else if table("sh"@) is Some {
            Some(ShellProgramView { kind: ShellKind::Sh, program: table("sh"@)->0 })
        } else if table("cmd"@) is Some {
            Some(ShellProgramView { kind: ShellKind::Cmd, program: table("cmd"@)->0 })
        } else if table("cmd.exe"@) is Some {
            Some(ShellProgramView { kind: ShellKind::Cmd, program: table("cmd.exe"@)->0 })
        } else if comspec is Some {
            Some(ShellProgramView { kind: ShellKind::Cmd, program: comspec->0 })
        } else {
            None
        }),
{
    let s0 = shell_sources(true, None);
    let s1 = s0.skip(1);
    let s2 = s1.skip(1);
    let s3 = s2.skip(1);
    let s4 = s3.skip(1);
    let s5 = s4.skip(1);
    let s6 = s5.skip(1);
    let s7 = s6.skip(1);
    assert(s1[0] == s0[1] && s2[0] == s0[2] && s3[0] == s0[3] && s4[0] == s0[4] && s5[0] == s0[5]
        && s6[0] == s0[6] && s7.len() == 0);
    assert(first_shell(true, table, comspec, s7) is None);
    let f6 = first_shell(true, table, comspec, s6);
    let f5 = first_shell(true, table, comspec, s5);
    let f4 = first_shell(true, table, comspec, s4);
    let f3 = first_shell(true, table, comspec, s3);
    let f2 = first_shell(true, table, comspec, s2);
    let f1 = first_shell(true, table, comspec, s1);
}

/// Whether looking at a source for a shell can bring nothing: a search for its name can find
/// nothing that is usable, or the system names no command interpreter.
pub open spec fn can_bring_nothing(
    is_windows: bool,
    answers: spec_fn(Seq<char>, Option<ProgramPathView>) -> bool,
    comspec: Option<ProgramPathView>,
    source: ShellSourceView,
) -> bool {
    match source {
        ShellSourceView::Comspec => comspec is None,
        ShellSourceView::Program(name, kind) => answers(name, None) || exists|
            program: ProgramPathView,
        | #[trigger]
            answers(name, Some(program)) && is_windows && kind is Bash && is_wsl_launcher(
                program.text,
            ),
    }
}

/// A shell that is found is that of the first source that brings one: the sources before it
/// can all bring nothing. Where none is found, all sources can bring nothing.
pub proof fn sources_are_taken_in_order(
    is_windows: bool,
    answers: spec_fn(Seq<char>, Option<ProgramPathView>) -> bool,
    comspec: Option<ProgramPathView>,
    sources: Seq<ShellSourceView>,
    shell: Option<ShellProgramView>,
)
    requires
        can_find(is_windows, answers, comspec, sources, shell),
    ensures
        exists|n: int|
            {
                &&& 0 <= n <= sources.len()
                &&& forall|i: int|
                    0 <= i < n ==> can_bring_nothing(
                        is_windows,
                        answers,
                        comspec,
                        #[trigger] sources[i],
                    )
                &&& #[trigger] ends_search(answers, comspec, sources, n, shell)
            },
    decreases sources.len(),
{
    if sources.len() == 0 {
        assert(ends_search(answers, comspec, sources, 0, shell));
    } else {
        let rest = sources.skip(1);
        let first = sources[0];
        let goes_on = can_bring_nothing(is_windows, answers, comspec, first) && can_find(
            is_windows,
            answers,
            comspec,
            rest,
            shell,
        );
        if goes_on {
            sources_are_taken_in_order(is_windows, answers, comspec, rest, shell);
            let n = choose|n: int|
                {
                    &&& 0 <= n <= rest.len()
                    &&& forall|i: int|
                        0 <= i < n ==> can_bring_nothing(
                            is_windows,
                            answers,
                            comspec,
                            #[trigger] rest[i],
                        )
                    &&& #[trigger] ends_search(answers, comspec, rest, n, shell)
                };
            assert forall|i: int| 0 <= i < n + 1 implies can_bring_nothing(
                is_windows,
                answers,
                comspec,
                #[trigger] sources[i],
            ) by {
                if i > 0 {
                    assert(rest[i - 1] == sources[i]);
                }
            }
            if n < rest.len() {
                assert(rest[n] == sources[n + 1]);
            }
            assert(ends_search(answers, comspec, sources, n + 1, shell));
        } else {
            assert(ends_search(answers, comspec, sources, 0, shell)) by {
                match first {
                    ShellSourceView::Comspec => {},
                    ShellSourceView::Program(name, kind) => {
                        let answer = choose|answer: Option<ProgramPathView>| #[trigger]
                            answers(name, answer) && (if answer is Some && is_usable(
                                is_windows,
                                kind,
                                answer->0,
                            ) {
                                shell == Some(ShellProgramView { kind, program: answer->0 })
                            } else {
                                can_find(is_windows, answers, comspec, rest, shell)
                            });
                        if answer is Some {
                            assert(answers(name, Some(answer->0)));
                        }
                    },
                }
            }
        }
    }
}

/// Whether the source at `n` brings `shell`; behind the last source there is none.
pub open spec fn ends_search(
    answers: spec_fn(Seq<char>, Option<ProgramPathView>) -> bool,
    comspec: Option<ProgramPathView>,
    sources: Seq<ShellSourceView>,
    n: int,
    shell: Option<ShellProgramView>,
) -> bool {
    if n == sources.len() {
        shell is None
    } else {
        &&& shell is Some
        &&& match sources[n] {
            ShellSourceView::Comspec => comspec == Some(shell->0.program) && shell->0.kind is Cmd,
            ShellSourceView::Program(name, kind) => answers(name, Some(shell->0.program))
                && shell->0.kind == kind,
        }
    }
}

/// Everything that is found can be used, but for the launcher of the Linux subsystem as a bash
/// on Windows.
pub proof fn only_the_launcher_is_passed_over(kind: ShellKind, program: ProgramPathView)
    ensures
        is_usable(false, kind, program),
        is_usable(true, kind, program) <==> !(kind is Bash && is_wsl_launcher(program.text)),
{
}

/// Whether two paths are the same but for the case of ASCII letters and the kind of their
/// slashes.
pub open spec fn same_path(one: Seq<char>, other: Seq<char>) -> bool {
    &&& one.len() == other.len()
    &&& forall|i: int|
        0 <= i < one.len() ==> {
            ||| #[trigger] one[i] == other[i]
            ||| one[i] == '/' && other[i] == '\\'
            ||| 'A' <= one[i] <= 'Z' && other[i] as int == one[i] as int + 32
        }
}

/// A path is that of the launcher if and only if it ends, in whatever case and with whatever
/// slashes, with `\windows\system32\bash.exe` or `\windows\sysnative\bash.exe`.
pub proof fn launcher_is_known_by_its_path(path: Seq<char>)
    ensures
        is_wsl_launcher(path) <==> {
            ||| exists|end: Seq<char>| #[trigger]
                end.is_suffix_of(path) && same_path(end, "\\windows\\system32\\bash.exe"@)
            ||| exists|end: Seq<char>| #[trigger]
                end.is_suffix_of(path) && same_path(end, "\\windows\\sysnative\\bash.exe"@)
        },
{
    reveal_strlit("\\windows\\system32\\bash.exe");
    reveal_strlit("\\windows\\sysnative\\bash.exe");
    lemma_ends_like(path, "\\windows\\system32\\bash.exe"@);
    lemma_ends_like(path, "\\windows\\sysnative\\bash.exe"@);
}

proof fn lemma_ends_like(path: Seq<char>, plain: Seq<char>)
    requires
        forall|i: int|
            0 <= i < plain.len() ==> !('A' <= #[trigger] plain[i] <= 'Z') && plain[i] != '/',
    ensures
        plain.is_suffix_of(normalized_path(path)) <==> exists|end: Seq<char>| #[trigger]
            end.is_suffix_of(path) && same_path(end, plain),
{
    let normal = normalized_path(path);
    if plain.is_suffix_of(normal) {
        let at = path.len() - plain.len();
        let end = path.skip(at);
        assert(path.subrange(path.len() - end.len(), path.len() as int) =~= end);
        assert(end.is_suffix_of(path));
        assert forall|i: int| 0 <= i < end.len() implies {
            ||| #[trigger] end[i] == plain[i]
            ||| end[i] == '/' && plain[i] == '\\'
            ||| 'A' <= end[i] <= 'Z' && plain[i] as int == end[i] as int + 32
        } by {
            assert(plain[i] == normal.subrange(at, normal.len() as int)[i]);
            assert(normal[at + i] == plain[i]);
        }
        assert(same_path(end, plain));
    }
    if exists|end: Seq<char>| #[trigger] end.is_suffix_of(path) && same_path(end, plain) {
        let end = choose|end: Seq<char>| #[trigger]
            end.is_suffix_of(path) && same_path(end, plain);
        let at = path.len() - end.len();
        assert forall|i: int| 0 <= i < plain.len() implies normal[at + i] == #[trigger] plain[i] by {
            assert(end[i] == path.subrange(at, path.len() as int)[i]);
            assert(end[i] == path[at + i]);
        }
        assert(normal.subrange(normal.len() - plain.len(), normal.len() as int) =~= plain);
    }
}

/// A shell with the syntax of Unix runs a command with `-c`, a PowerShell with `-Command`, and
/// without logo, profile or questions, and a command prompt with `/C`.
pub proof fn shells_run_commands(kind: ShellKind, command: Seq<char>)
    ensures
        kind is Sh || kind is Bash ==> shell_args(kind, command) == seq!["-c"@, command],
        kind is Pwsh || kind is PowerShell ==> shell_args(kind, command) == seq![
            "-NoLogo"@,
            "-NoProfile"@,
            "-NonInteractive"@,
            "-Command"@,
            command,
        ],
        kind is Cmd ==> shell_args(kind, command) == seq!["/C"@, command],
{
}

/// A command is run by the runtime's shell, with the command as its last argument, in the
/// given directory; without a shell, it is said that none could be found.
pub proof fn command_runs_in_the_shell(
    runtime: NativeRuntimeView,
    command: Seq<char>,
    directory: PathBuf,
)
    ensures
        runtime.shell is Some <==> shell_command(runtime, command, directory) is Ok,
        shell_command(runtime, command, directory) matches Ok(process) ==> {
            &&& process.program == runtime.shell->0.program.path
            &&& process.args.len() >= 2 && process.args.last() == command
            &&& process.current_dir == directory
        },
        shell_command(runtime, command, directory) matches Err(message) ==> text::contains_part(
            message,
            "could not find a usable shell"@,
        ),
        shell_command(runtime, command, directory) matches Err(message) ==> runtime.is_windows
            ==> message
            == "Native runtime could not find a usable shell (tried: bash, sh, pwsh, powershell, cmd). Install Git Bash or PowerShell and ensure it is available on PATH."@,
        shell_command(runtime, command, directory) matches Err(message) ==> !runtime.is_windows
            ==> message
            == "Native runtime could not find a usable shell (tried: sh, bash). Install a POSIX shell and ensure it is available on PATH."@,
{
    reveal_strlit("could not find a usable shell");
    reveal_strlit(
        "Native runtime could not find a usable shell (tried: bash, sh, pwsh, powershell, cmd). Install Git Bash or PowerShell and ensure it is available on PATH.",
    );
    reveal_strlit(
        "Native runtime could not find a usable shell (tried: sh, bash). Install a POSIX shell and ensure it is available on PATH.",
    );
    let part = "could not find a usable shell"@;
    let message = missing_shell(runtime.is_windows);
    assert(message.subrange(15, 15int + part.len()) =~= part);
    assert(text::stands_at(message, part, 15));
}

/// A shell speaks PowerShell, Unix, or neither; the hint for a prompt says which.
pub proof fn hint_names_the_syntax(shell: Option<ShellProgramView>)
    ensures
        !(speaks_powershell(shell) && speaks_unix(shell)),
        shell is Some && (shell->0.kind is Pwsh || shell->0.kind is PowerShell)
            <==> speaks_powershell(shell),
        shell is Some && (shell->0.kind is Sh || shell->0.kind is Bash) <==> speaks_unix(shell),
        speaks_powershell(shell) ==> "PowerShell"@.is_prefix_of(prompt_hint(shell)),
        speaks_unix(shell) ==> "Unix shell"@.is_prefix_of(prompt_hint(shell)),
        shell is Some && shell->0.kind is Cmd ==> "Command Prompt"@.is_prefix_of(
            prompt_hint(shell),
        ),
        speaks_powershell(shell) ==> prompt_hint(shell)
            == "PowerShell (use PowerShell cmdlets and syntax, e.g., Get-ChildItem, Get-Content, Remove-Item)"@,
        speaks_unix(shell) ==> prompt_hint(shell)
            == "Unix shell (use standard Unix commands, e.g., ls, cat, rm)"@,
        shell is Some && shell->0.kind is Cmd ==> prompt_hint(shell)
            == "Command Prompt (use cmd.exe syntax, e.g., dir, type, del)"@,
        shell is None ==> prompt_hint(shell) == "Unknown shell"@,
{
    reveal_strlit("PowerShell");
    reveal_strlit("Unix shell");
    reveal_strlit("Command Prompt");
    reveal_strlit(
        "PowerShell (use PowerShell cmdlets and syntax, e.g., Get-ChildItem, Get-Content, Remove-Item)",
    );
    reveal_strlit("Unix shell (use standard Unix commands, e.g., ls, cat, rm)");
    reveal_strlit("Command Prompt (use cmd.exe syntax, e.g., dir, type, del)");
    let hint = prompt_hint(shell);
    if speaks_powershell(shell) {
        assert(hint.take(10) =~= "PowerShell"@);
    } else if speaks_unix(shell) {
        assert(hint.take(10) =~= "Unix shell"@);
    } else if shell is Some {
        assert(hint.take(14) =~= "Command Prompt"@);
    }
}

/// Data is stored in the home directory, and without one in the current directory.
pub proof fn data_is_in_the_home_directory(home: Option<PathBuf>)
    ensures
        storage_parts(home).base == home,
        storage_parts(home).parts == seq![".zeroclaw"@],
{
}

} // verus!

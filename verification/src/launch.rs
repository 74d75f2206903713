//! What the program does when it is started, and the code that it ends with.

use vstd::prelude::*;
use vstd::string::*;

verus! {

/// What the command line asks for.
#[derive(Clone, Copy, Debug, Eq, PartialEq, Structural)]
pub enum LaunchMode {
    /// Install this copy, with a request for administrator rights where they are missing.
    Install,
    /// Install this copy; the rights have been granted.
    ElevatedInstall,
    /// Remap keys.
    Worker,
}

/// Why the program does not do what it was started for.
#[derive(Clone, Copy, Debug, Eq, PartialEq, Structural)]
pub enum LaunchError {
    UnsupportedArguments,
    WorkerNeedsElevation,
}

impl LaunchError {
    pub open spec fn text(self) -> Seq<char> {
        match self {
            LaunchError::UnsupportedArguments => "不支持的启动参数"@,
            LaunchError::WorkerNeedsElevation => "worker 必须由最高权限计划任务启动"@,
        }
    }

    /// What the user is told.
    pub fn message(self) -> (message: &'static str)
        ensures
            message@ == self.text(),
    {
        match self {
            LaunchError::UnsupportedArguments => "不支持的启动参数",
            LaunchError::WorkerNeedsElevation => "worker 必须由最高权限计划任务启动",
        }
    }
}

/// The texts of the arguments.
pub open spec fn texts(arguments: Seq<String>) -> Seq<Seq<char>> {
    arguments.map_values(|argument: String| argument@)
}

/// What the arguments, without the name of the program, ask for.
pub open spec fn mode_of(arguments: Seq<Seq<char>>) -> Result<LaunchMode, LaunchError> {
    if arguments.len() == 0 {
        Ok(LaunchMode::Install)
    } else if arguments.len() == 1 && arguments[0] == "--elevated-install"@ {
        Ok(LaunchMode::ElevatedInstall)
    } else if arguments.len() == 1 && arguments[0] == "--worker"@ {
        Ok(LaunchMode::Worker)
    } else {
        Err(LaunchError::UnsupportedArguments)
    }
}

proof fn lemma_modes_differ()
    ensures
        "--elevated-install"@ != "--worker"@,
{
    reveal_strlit("--elevated-install");
    reveal_strlit("--worker");
    assert("--elevated-install"@.len() != "--worker"@.len());
}

/// Reads the command line.
pub fn launch_mode(arguments: &Vec<String>) -> (mode: Result<LaunchMode, LaunchError>)
    ensures
        mode == mode_of(texts(arguments@)),
{
    if arguments.len() == 0 {
        return Ok(LaunchMode::Install);
    }
    if arguments.len() == 1 {
        assert(texts(arguments@)[0] == arguments@[0]@);
        if arguments[0] == "--elevated-install".to_owned() {
            return Ok(LaunchMode::ElevatedInstall);
        }
        if arguments[0] == "--worker".to_owned() {
            proof {
                lemma_modes_differ();
            }
            return Ok(LaunchMode::Worker);
        }
    }
    Err(LaunchError::UnsupportedArguments)
}

/// Errors are shown in a window.
pub open spec fn attended(arguments: Seq<Seq<char>>) -> bool {
    !(arguments.len() > 0 && arguments[0] == "--worker"@)
}

/// Whether an error is shown in a window: a worker runs unattended and shows none, whatever
/// else stands on its command line.
pub fn shows_errors(arguments: &Vec<String>) -> (shows: bool)
    ensures
        shows == attended(texts(arguments@)),
{
    assert(arguments@.len() > 0 ==> texts(arguments@)[0] == arguments@[0]@);
    !(arguments.len() > 0 && arguments[0] == "--worker".to_owned())
}

/// What a start without arguments does.
#[derive(Clone, Copy, Debug, Eq, PartialEq, Structural)]
pub enum InstallStart {
    /// Install right away.
    Install,
    /// Start this program anew with administrator rights and wait for it.
    Relaunch,
}

/// Decides how to install, given whether this process has administrator rights.
pub fn install_start(elevated: bool) -> (start: InstallStart)
    ensures
        start == if elevated {
            InstallStart::Install
        } else {
            InstallStart::Relaunch
        },
{
    if elevated {
        InstallStart::Install
    } else {
        InstallStart::Relaunch
    }
}

/// The exit code that passes on that of the elevated process: read as a signed number and
/// brought into the range of a byte.
pub open spec fn passed_on(exit_code: u32) -> u8 {
    if exit_code > i32::MAX {
        0
    } else if exit_code > 255 {
        255
    } else {
        exit_code as u8
    }
}

pub fn relaunch_exit_code(exit_code: u32) -> (code: u8)
    ensures
        code == passed_on(exit_code),
{
    if exit_code > 0x7FFF_FFFF {
        0
    } else if exit_code > 255 {
        255
    } else {
        exit_code as u8
    }
}

/// A process that has failed is not reported as a success, unless its exit code is negative as
/// a signed number.
pub proof fn law_failure_is_passed_on(exit_code: u32)
    requires
        0 < exit_code <= i32::MAX,
    ensures
        passed_on(exit_code) != 0,
{
}

/// No arguments, or one of two single ones, are understood; each means something else, and all
/// other command lines are refused.
pub proof fn law_command_lines(arguments: Seq<Seq<char>>)
    ensures
        mode_of(arguments) == Ok::<LaunchMode, LaunchError>(LaunchMode::Install) <==> arguments
            == Seq::<Seq<char>>::empty(),
        mode_of(arguments) == Ok::<LaunchMode, LaunchError>(LaunchMode::ElevatedInstall)
            <==> arguments == seq!["--elevated-install"@],
        mode_of(arguments) == Ok::<LaunchMode, LaunchError>(LaunchMode::Worker) <==> arguments
            == seq!["--worker"@],
        mode_of(arguments) is Err ==> mode_of(arguments) == Err::<LaunchMode, LaunchError>(
            LaunchError::UnsupportedArguments,
        ),
{
    lemma_modes_differ();
    assert(arguments.len() == 0 ==> arguments =~= Seq::<Seq<char>>::empty());
    if arguments.len() == 1 {
        assert(arguments =~= seq![arguments[0]]);
        assert(seq!["--worker"@][0] == "--worker"@);
        assert(seq!["--elevated-install"@][0] == "--elevated-install"@);
    }
}

/// Errors go unseen by the user exactly when the first argument makes this process a worker,
/// whatever follows it.
pub proof fn law_workers_are_unattended(first: Seq<char>, rest: Seq<Seq<char>>)
    ensures
        attended(Seq::<Seq<char>>::empty()),
        attended(seq![first] + rest) <==> first != "--worker"@,
{
    assert((seq![first] + rest)[0] == first);
}

/// The exit code of the elevated process, read as a signed number, is passed on as it is where it
/// fits into a byte, and otherwise as the nearest number that does.
pub proof fn law_exit_code_is_clamped(exit_code: u32)
    ensures
        exit_code <= 255 ==> passed_on(exit_code) == exit_code,
        255 < exit_code < 0x8000_0000 ==> passed_on(exit_code) == 255,
        0x8000_0000 <= exit_code ==> passed_on(exit_code) == 0,
{
}

/// Each argument is read as it is, and none is left out.
pub proof fn law_arguments_are_read_as_they_are(arguments: Seq<String>, i: int)
    ensures
        texts(arguments).len() == arguments.len(),
        0 <= i < arguments.len() ==> texts(arguments)[i] == arguments[i]@,
{
}

} // verus!

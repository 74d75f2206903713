//! Where the program lives, the scheduled task that starts it, and how an update replaces a
//! running copy.

use vstd::prelude::*;
use vstd::string::*;

use crate::text;

verus! {

pub const WAIT_OBJECT_0: u32 = 0;

pub const WAIT_ABANDONED: u32 = 0x80;

pub const WAIT_TIMEOUT: u32 = 258;

/// The error code of a request for administrator rights that the user declined.
pub const HRESULT_CANCELLED: i32 = -2147023673;

/// How long an update waits for another one, in milliseconds.
pub const UPDATE_WAIT_MS: u32 = 30_000;

/// How long an update waits for each step of the old worker's end, in milliseconds.
pub const WORKER_WAIT_MS: u32 = 3000;

/// Why an installation, an update or a change of the automatic start is refused.
#[derive(Clone, Copy, Debug, Eq, PartialEq, Structural)]
pub enum InstallError {
    /// There is no directory for application data.
    NoLocalAppData,
    /// Installing takes administrator rights.
    InstallNeedsElevation,
    /// Changing the automatic start takes administrator rights.
    AutostartNeedsElevation,
    /// Another update is still running.
    UpdateRunning,
    /// The old worker has not released the mutex that every worker holds.
    WorkerStuck,
    /// The user declined the request for administrator rights.
    ElevationCancelled,
    /// The elevated process could not be started.
    ElevatedProcessMissing,
}

impl InstallError {
    pub open spec fn text(self) -> Seq<char> {
        match self {
            InstallError::NoLocalAppData => "未找到 LOCALAPPDATA 环境变量"@,
            InstallError::InstallNeedsElevation => "安装更新必须在管理员权限下运行"@,
            InstallError::AutostartNeedsElevation => "修改开机启动需要管理员权限"@,
            InstallError::UpdateRunning => "另一个 CapsLockRs 更新操作仍在运行"@,
            InstallError::WorkerStuck => "旧 worker 未能释放单实例互斥量"@,
            InstallError::ElevationCancelled => "用户取消了管理员权限请求"@,
            InstallError::ElevatedProcessMissing => "管理员进程未能启动"@,
        }
    }

    /// What the user is told.
    pub fn message(self) -> (message: &'static str)
        ensures
            message@ == self.text(),
    {
        match self {
            InstallError::NoLocalAppData => "未找到 LOCALAPPDATA 环境变量",
            InstallError::InstallNeedsElevation => "安装更新必须在管理员权限下运行",
            InstallError::AutostartNeedsElevation => "修改开机启动需要管理员权限",
            InstallError::UpdateRunning => "另一个 CapsLockRs 更新操作仍在运行",
            InstallError::WorkerStuck => "旧 worker 未能释放单实例互斥量",
            InstallError::ElevationCancelled => "用户取消了管理员权限请求",
            InstallError::ElevatedProcessMissing => "管理员进程未能启动",
        }
    }
}

// ---------------------------------------------------------------------------------------
// Paths
// ---------------------------------------------------------------------------------------

/// A path below a base directory, name by name.
#[derive(Debug)]
pub struct AppPath<B> {
    pub base: B,
    pub names: Vec<String>,
}

impl<B> AppPath<B> {
    /// The names below the base directory.
    pub open spec fn below(self) -> Seq<Seq<char>> {
        self.names@.map_values(|name: String| name@)
    }

    /// The path of an entry of this directory.
    pub fn join(self, name: &str) -> (path: AppPath<B>)
        ensures
            path.base == self.base,
            path.below() == self.below().push(name@),
    {
        let AppPath { base, mut names } = self;
        names.push(name.to_owned());
        let path = AppPath { base, names };
        assert(path.below() =~= self.below().push(name@));
        path
    }
}

/// The directory of the program, inside the directory for local application data.
pub fn app_dir<B>(local_app_data: Option<B>) -> (path: Result<AppPath<B>, InstallError>)
    ensures
        match local_app_data {
            Some(base) => path matches Ok(path) && path.base == base && path.below() == seq![
                "CapsLockRs"@,
            ],
            None => path == Err::<AppPath<B>, InstallError>(InstallError::NoLocalAppData),
        },
{
    match local_app_data {
        Some(base) => {
            let root = AppPath { base, names: Vec::new() };
            let path = root.join("CapsLockRs");
            assert(path.below() =~= seq!["CapsLockRs"@]);
            Ok(path)
        },
        None => Err(InstallError::NoLocalAppData),
    }
}

/// A file in the directory of the program.
fn app_file<B>(local_app_data: Option<B>, name: &str) -> (path: Result<AppPath<B>, InstallError>)
    ensures
        match local_app_data {
            Some(base) => path matches Ok(path) && path.base == base && path.below() == seq![
                "CapsLockRs"@,
                name@,
            ],
            None => path == Err::<AppPath<B>, InstallError>(InstallError::NoLocalAppData),
        },
{
    match app_dir(local_app_data) {
        Ok(dir) => {
            let path = dir.join(name);
            assert(path.below() =~= seq!["CapsLockRs"@, name@]);
            Ok(path)
        },
        Err(error) => Err(error),
    }
}

/// The copy of the program that runs.
pub fn installed_exe<B>(local_app_data: Option<B>) -> (path: Result<AppPath<B>, InstallError>)
    ensures
        match local_app_data {
            Some(base) => path matches Ok(path) && path.base == base && path.below() == seq![
                "CapsLockRs"@,
                "capslockrs.exe"@,
            ],
            None => path == Err::<AppPath<B>, InstallError>(InstallError::NoLocalAppData),
        },
{
    app_file(local_app_data, "capslockrs.exe")
}

/// Where an update puts the new copy before it takes the place of the old one.
pub fn temporary_exe<B>(local_app_data: Option<B>) -> (path: Result<AppPath<B>, InstallError>)
    ensures
        match local_app_data {
            Some(base) => path matches Ok(path) && path.base == base && path.below() == seq![
                "CapsLockRs"@,
                "capslockrs.new.exe"@,
            ],
            None => path == Err::<AppPath<B>, InstallError>(InstallError::NoLocalAppData),
        },
{
    app_file(local_app_data, "capslockrs.new.exe")
}

/// Where a worker leaves its process number.
pub fn pid_file<B>(local_app_data: Option<B>) -> (path: Result<AppPath<B>, InstallError>)
    ensures
        match local_app_data {
            Some(base) => path matches Ok(path) && path.base == base && path.below() == seq![
                "CapsLockRs"@,
                "worker.pid"@,
            ],
            None => path == Err::<AppPath<B>, InstallError>(InstallError::NoLocalAppData),
        },
{
    app_file(local_app_data, "worker.pid")
}

/// Two paths are the same as Windows sees it: but for the case of the letters A to Z.
pub fn same_path(left: &str, right: &str) -> (same: bool)
    ensures
        same == (text::all_small(left@) == text::all_small(right@)),
{
    text::same_ignoring_case(left, right)
}

/// The first `length` code units of a buffer, or all of them where there are fewer.
pub open spec fn used_units(buffer: Seq<u16>, length: u32) -> Seq<u16> {
    if length < buffer.len() {
        buffer.take(length as int)
    } else {
        buffer
    }
}

/// The path that the first `length` code units of a buffer spell out.
pub fn image_path(buffer: Vec<u16>, length: u32) -> (path: String)
    ensures
        path@ == text::utf16_text(used_units(buffer@, length)),
{
    let mut units = buffer;
    units.truncate(length as usize);
    let path = String::from_utf16_lossy(units.as_slice());
    assert(length as int >= buffer@.len() ==> units@ =~= buffer@);
    assert((length as int) < buffer@.len() ==> units@ =~= buffer@.take(length as int));
    path
}

// ---------------------------------------------------------------------------------------
// The process number of the worker
// ---------------------------------------------------------------------------------------

/// What the process number file of a worker holds.
pub open spec fn pid_contents(pid: u32) -> Seq<char> {
    text::decimal(pid as nat)
}

/// What a worker writes into its process number file.
pub fn pid_text(pid: u32) -> (contents: String)
    ensures
        contents@ == pid_contents(pid),
{
    text::decimal_text(pid as u64)
}

/// The process number in a file that a worker has left, if there is one.
pub open spec fn pid_in(contents: Option<Seq<char>>) -> Option<u32> {
    match contents {
        Some(contents) => text::parsed(text::trimmed(contents)),
        None => None,
    }
}

/// Reads the process number that a worker has left; `contents` is missing where the file could
/// not be read.
pub fn worker_pid(contents: Option<String>) -> (pid: Option<u32>)
    ensures
        pid == pid_in(
            match contents {
                Some(contents) => Some(contents@),
                None => None,
            },
        ),
{
    match contents {
        Some(contents) => {
            let digits = text::trim(contents.as_str());
            text::parse_number(&digits)
        },
        None => None,
    }
}

/// An update reads back the process number that the worker has written.
pub proof fn law_worker_pid_is_read_back(pid: u32)
    ensures
        pid_in(Some(pid_contents(pid))) == Some(pid),
{
    let none = Seq::<char>::empty();
    text::law_trimmed_number_is_read_back(pid, none, none);
    assert(none + text::decimal(pid as nat) + none =~= text::decimal(pid as nat));
}

// ---------------------------------------------------------------------------------------
// Waiting and elevation
// ---------------------------------------------------------------------------------------

/// A wait for a mutex has given it to the waiting thread, be it that its last owner ended
/// without releasing it.
pub open spec fn acquired(wait: u32) -> bool {
    wait == WAIT_OBJECT_0 || wait == WAIT_ABANDONED
}

pub fn mutex_acquired(wait: u32) -> (is: bool)
    ensures
        is == acquired(wait),
{
    wait == WAIT_OBJECT_0 || wait == WAIT_ABANDONED
}

/// What came of a request to start a process with administrator rights.
#[derive(Clone, Copy, Debug, Eq, PartialEq, Structural)]
pub enum ElevatedLaunch {
    /// The process runs.
    Started,
    Refused(InstallError),
    /// The request failed for a reason that the system's error tells.
    Failed,
}

/// What a request to start a process with administrator rights has come to.
pub open spec fn launch_of(error: Option<i32>, process_valid: bool) -> ElevatedLaunch {
    match error {
        Some(code) => if code == HRESULT_CANCELLED {
            ElevatedLaunch::Refused(InstallError::ElevationCancelled)
        } else {
            ElevatedLaunch::Failed
        },
        None => if process_valid {
            ElevatedLaunch::Started
        } else {
            ElevatedLaunch::Refused(InstallError::ElevatedProcessMissing)
        },
    }
}

/// Judges a request to start a process with administrator rights; `error` is the error code
/// where the request failed, `process_valid` whether it has led to a process.
pub fn elevated_launch(error: Option<i32>, process_valid: bool) -> (launch: ElevatedLaunch)
    ensures
        launch == launch_of(error, process_valid),
{
    match error {
        Some(code) => if code == HRESULT_CANCELLED {
            ElevatedLaunch::Refused(InstallError::ElevationCancelled)
        } else {
            ElevatedLaunch::Failed
        },
        None => if process_valid {
            ElevatedLaunch::Started
        } else {
            ElevatedLaunch::Refused(InstallError::ElevatedProcessMissing)
        },
    }
}

// ---------------------------------------------------------------------------------------
// The scheduled task
// ---------------------------------------------------------------------------------------

/// What happens to a running instance of the task when it is started again.
#[derive(Clone, Copy, Debug, Eq, PartialEq, Structural)]
pub enum InstancePolicy {
    Parallel,
    Queue,
    IgnoreNew,
    StopExisting,
}

/// The scheduled task that starts the worker when the user logs on.
#[derive(Debug)]
pub struct TaskDefinition {
    pub name: String,
    pub description: String,
    /// The account that the task runs under and whose logon starts it.
    pub account: String,
    pub interactive_logon: bool,
    pub highest_run_level: bool,
    pub executable: String,
    pub arguments: String,
    pub working_directory: Option<String>,
    pub enabled: bool,
    pub hidden: bool,
    pub allow_demand_start: bool,
    pub start_when_available: bool,
    pub disallow_start_on_batteries: bool,
    pub stop_on_batteries: bool,
    pub allow_hard_terminate: bool,
    pub execution_time_limit: String,
    pub restart_interval: String,
    pub restart_count: i32,
    pub instances: InstancePolicy,
}

/// The name of an account, with its domain in front where it has one.
pub open spec fn account(user: Seq<char>, domain: Seq<char>) -> Seq<char> {
    if domain.len() == 0 {
        user
    } else {
        domain + "\\"@ + user
    }
}

pub fn account_name(user: &str, domain: &str) -> (name: String)
    ensures
        name@ == account(user@, domain@),
{
    if domain.is_empty() {
        user.to_owned()
    } else {
        domain.to_owned().concat("\\").concat(user)
    }
}

/// What the task for an account and an executable says.
pub open spec fn describes(
    task: TaskDefinition,
    account: Seq<char>,
    executable: Seq<char>,
    parent: Option<&str>,
) -> bool {
    &&& task.name@ == "CapsLockRs"@
    &&& task.description@ == "CapsLockRs 管理员键盘重映射程序"@
    &&& task.account@ == account
    &&& task.interactive_logon
    &&& task.highest_run_level
    &&& task.executable@ == executable
    &&& task.arguments@ == "--worker"@
    &&& match parent {
        Some(parent) => task.working_directory matches Some(directory) && directory@ == parent@,
        None => task.working_directory is None,
    }
    &&& task.enabled
    &&& task.hidden
    &&& task.allow_demand_start
    &&& task.start_when_available
    &&& !task.disallow_start_on_batteries
    &&& !task.stop_on_batteries
    &&& task.allow_hard_terminate
    &&& task.execution_time_limit@ == "PT0S"@
    &&& task.restart_interval@ == "PT1M"@
    &&& task.restart_count == 10
    &&& task.instances == InstancePolicy::StopExisting
}

/// The task for an account and an executable: it runs the worker with the highest rights as
/// soon as the user logs on, on batteries too and for as long as it likes, and is started anew
/// up to ten times, a minute apart, where it fails.
///
/// `parent` is the directory of the executable, where it has one.
pub fn task_definition(user: &str, domain: &str, executable: &str, parent: Option<&str>) -> (task:
    TaskDefinition)
    ensures
        describes(task, account(user@, domain@), executable@, parent),
{
    TaskDefinition {
        name: task_name().to_owned(),
        description: "CapsLockRs 管理员键盘重映射程序".to_owned(),
        account: account_name(user, domain),
        interactive_logon: true,
        highest_run_level: true,
        executable: executable.to_owned(),
        arguments: "--worker".to_owned(),
        working_directory: match parent {
            Some(parent) => Some(parent.to_owned()),
            None => None,
        },
        enabled: true,
        hidden: true,
        allow_demand_start: true,
        start_when_available: true,
        disallow_start_on_batteries: false,
        stop_on_batteries: false,
        allow_hard_terminate: true,
        execution_time_limit: "PT0S".to_owned(),
        restart_interval: "PT1M".to_owned(),
        restart_count: 10,
        instances: InstancePolicy::StopExisting,
    }
}

/// The name of the task.
pub fn task_name() -> (name: &'static str)
    ensures
        name@ == "CapsLockRs"@,
{
    "CapsLockRs"
}

/// A task that says so of itself is enabled.
pub open spec fn says_enabled(enabled: Option<i16>) -> bool {
    enabled matches Some(flag) && flag != 0
}

/// The worker starts at logon, as far as is known.
pub open spec fn starts_at_logon(connection: Option<Option<i16>>) -> bool {
    connection matches Some(enabled) && says_enabled(enabled)
}

/// The task starts the worker at logon; `enabled` is what the task says of itself, missing
/// where there is no task or it does not say.
pub fn task_enabled(enabled: Option<i16>) -> (is: bool)
    ensures
        is == says_enabled(enabled),
{
    match enabled {
        Some(flag) => flag != 0,
        None => false,
    }
}

/// Whether the worker starts at logon. Where the task service cannot be reached, `connection`
/// is missing; otherwise it holds what the task says of itself.
pub fn autostart_enabled(connection: Option<Option<i16>>) -> (is: bool)
    ensures
        is == starts_at_logon(connection),
{
    match connection {
        Some(enabled) => task_enabled(enabled),
        None => false,
    }
}

/// What a change of the automatic start does to the task.
#[derive(Clone, Copy, Debug, Eq, PartialEq, Structural)]
pub enum AutostartChange {
    Register,
    Delete,
}

/// What turning the automatic start on or off takes.
pub open spec fn autostart_change(enabled: bool, elevated: bool) -> Result<
    AutostartChange,
    InstallError,
> {
    if !elevated {
        Err(InstallError::AutostartNeedsElevation)
    } else if enabled {
        Ok(AutostartChange::Register)
    } else {
        Ok(AutostartChange::Delete)
    }
}

/// What turning the automatic start over takes.
pub open spec fn autostart_toggle(connection: Option<Option<i16>>, elevated: bool) -> Result<
    AutostartChange,
    InstallError,
> {
    autostart_change(!starts_at_logon(connection), elevated)
}

/// Decides what turning the automatic start on or off takes.
pub fn set_autostart(enabled: bool, elevated: bool) -> (change: Result<
    AutostartChange,
    InstallError,
>)
    ensures
        change == autostart_change(enabled, elevated),
{
    if !elevated {
        return Err(InstallError::AutostartNeedsElevation);
    }
    if enabled {
        Ok(AutostartChange::Register)
    } else {
        Ok(AutostartChange::Delete)
    }
}

/// Decides what turning the automatic start over takes, given what is known of it.
pub fn toggle_autostart(connection: Option<Option<i16>>, elevated: bool) -> (change: Result<
    AutostartChange,
    InstallError,
>)
    ensures
        change == autostart_toggle(connection, elevated),
{
    set_autostart(!autostart_enabled(connection), elevated)
}

/// There is a task to delete.
pub open spec fn to_be_deleted(enabled: Option<i16>, present: bool) -> bool {
    says_enabled(enabled) || present
}

/// Whether there is a task to delete; `enabled` is what the task says of itself, `present`
/// whether it was found.
pub fn deletion_needed(enabled: Option<i16>, present: bool) -> (is: bool)
    ensures
        is == to_be_deleted(enabled, present),
{
    task_enabled(enabled) || present
}

/// A wait gives a mutex over in two ways: it was free, or its last owner has ended without giving
/// it back.
pub proof fn law_what_acquires_a_mutex(wait: u32)
    ensures
        acquired(wait) <==> wait == 0 || wait == 0x80,
{
}

/// A request for administrator rights is taken for declined on exactly one error code; other errors
/// are failures. Without an error the process runs, unless there is none.
pub proof fn law_what_requests_come_to(code: i32, process_valid: bool)
    ensures
        launch_of(Some(code), process_valid) == (if code == -0x7FF8_FB39 {
            ElevatedLaunch::Refused(InstallError::ElevationCancelled)
        } else {
            ElevatedLaunch::Failed
        }),
        launch_of(None, true) == ElevatedLaunch::Started,
        launch_of(None, false) == ElevatedLaunch::Refused(InstallError::ElevatedProcessMissing),
{
}

/// The name of an account is the user's, with the domain and a backslash in front where there is a
/// domain.
pub proof fn law_account_names(user: Seq<char>, domain: Seq<char>)
    ensures
        domain.len() == 0 ==> account(user, domain) == user,
        domain.len() > 0 ==> {
            let name = account(user, domain);
            &&& name.len() == domain.len() + 1 + user.len()
            &&& name.take(domain.len() as int) == domain
            &&& name[domain.len() as int] == '\\'
            &&& name.skip(domain.len() as int + 1) == user
        },
{
    reveal_strlit("\\");
    let name = account(user, domain);
    if domain.len() > 0 {
        assert(name.take(domain.len() as int) =~= domain);
        assert(name.skip(domain.len() as int + 1) =~= user);
    }
}

/// The task runs the given executable as a worker, in its own directory, for the given account and
/// with the highest rights, hidden, on batteries too and without a limit of time; it can be started
/// by hand and is started late rather than not at all. Where it fails, it is started anew ten times,
/// a minute apart; where it is started again, the instance that runs is ended.
pub proof fn law_what_the_task_is(
    task: TaskDefinition,
    account: Seq<char>,
    executable: Seq<char>,
    parent: Option<&str>,
)
    requires
        describes(task, account, executable, parent),
    ensures
        task.account@ == account,
        task.executable@ == executable,
        task.arguments@ == "--worker"@,
        parent is Some <==> task.working_directory is Some,
        parent is Some ==> task.working_directory->0@ == parent->0@,
        task.name@ == "CapsLockRs"@,
        task.description@ == "CapsLockRs 管理员键盘重映射程序"@,
        task.highest_run_level && task.interactive_logon,
        task.enabled && task.hidden,
        task.allow_demand_start && task.start_when_available && task.allow_hard_terminate,
        !task.disallow_start_on_batteries && !task.stop_on_batteries,
        task.execution_time_limit@ == "PT0S"@,
        task.restart_interval@ == "PT1M"@ && task.restart_count == 10,
        task.instances == InstancePolicy::StopExisting,
{
}

/// The worker is known to start at logon exactly when the task service can be reached, there is a
/// task, and the task says that it is enabled, by any number but zero.
pub proof fn law_what_starts_at_logon(flag: i16, connection: Option<Option<i16>>)
    ensures
        starts_at_logon(Some(Some(flag))) <==> flag != 0,
        says_enabled(Some(flag)) <==> flag != 0,
        !says_enabled(None),
        starts_at_logon(connection) ==> connection is Some && connection->0 is Some,
{
}

/// Changing the automatic start takes administrator rights. With them, turning it on registers the
/// task and turning it off deletes it, and turning it over does the one that changes something.
pub proof fn law_how_the_autostart_is_changed(
    enabled: bool,
    connection: Option<Option<i16>>,
    elevated: bool,
)
    ensures
        autostart_change(enabled, true) == Ok::<AutostartChange, InstallError>(
            if enabled {
                AutostartChange::Register
            } else {
                AutostartChange::Delete
            },
        ),
        autostart_change(enabled, false) == Err::<AutostartChange, InstallError>(
            InstallError::AutostartNeedsElevation,
        ),
        autostart_toggle(connection, elevated) is Ok <==> elevated,
        elevated ==> (autostart_toggle(connection, elevated)->Ok_0 == AutostartChange::Delete
            <==> connection is Some && connection->0 is Some && connection->0->0 != 0),
        !elevated ==> autostart_toggle(connection, elevated)->Err_0
            == InstallError::AutostartNeedsElevation,
{
}

/// The task is deleted wherever one is found, and left alone where there is none.
pub proof fn law_when_the_task_is_deleted(flag: i16, present: bool)
    ensures
        to_be_deleted(Some(flag), true),
        to_be_deleted(None, present) == present,
        to_be_deleted(Some(flag), false) <==> flag != 0,
{
}

/// Of a buffer, as many code units are used as were filled, and no more than there are.
pub proof fn law_used_units(buffer: Seq<u16>, length: u32, i: int)
    ensures
        used_units(buffer, length).len() <= buffer.len(),
        length <= buffer.len() ==> used_units(buffer, length).len() == length,
        length > buffer.len() ==> used_units(buffer, length) == buffer,
        0 <= i < used_units(buffer, length).len() ==> used_units(buffer, length)[i] == buffer[i],
{
}

/// White space around what the process number file holds does not matter; in between, the file
/// has to hold a number. Without the file there is none.
pub proof fn law_what_holds_a_process_number(
    before: Seq<char>,
    core: Seq<char>,
    after: Seq<char>,
)
    requires
        forall|i: int| 0 <= i < before.len() ==> text::white_space(#[trigger] before[i]),
        forall|i: int| 0 <= i < after.len() ==> text::white_space(#[trigger] after[i]),
        core.len() > 0,
        !text::white_space(core[0]),
        !text::white_space(core.last()),
    ensures
        pid_in(Some(before + core + after)) == text::parsed(core),
        pid_in(Some(before)) is None,
        pid_in(None) is None,
{
    text::law_what_is_trimmed(before, core, after);
    text::law_what_is_a_number(core, core, 0);
}

/// A path below a base directory is read name by name.
pub proof fn law_path_names<B>(path: AppPath<B>, i: int)
    ensures
        path.below().len() == path.names@.len(),
        0 <= i < path.names@.len() ==> path.below()[i] == path.names@[i]@,
{
}

} // verus!

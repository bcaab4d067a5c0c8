//! Sandboxes: processes isolated under resource limits, their lifecycle, and
//! the manager that keeps them.
//!
//! Spawning and killing processes is the host's work; a sandbox records what
//! came of it. Starting is checked with [`Sandbox::begin_start`] before the
//! host spawns the process and recorded with [`Sandbox::complete_start`];
//! terminating takes the outcome of killing the process, if there is one.
use vstd::prelude::*;
use crate::lifecycle::{after_run, after_shutdown, LifecycleState};
use crate::text::{copy_string, copy_strings, push_signed_decimal, signed_decimal, str_equal};

verus! {

/// How IPC identifies a sandbox.
pub type SandboxId = u64;

/// Limits on what a sandboxed process may use; `None` is no limit.
#[derive(Debug, Clone, Copy, PartialEq, Eq)]
pub struct ResourceLimits {
    /// Most CPU use, in percent.
    pub max_cpu_percent: Option<u32>,
    /// Most memory, in megabytes.
    pub max_memory_mb: Option<u64>,
    /// Most open file descriptors.
    pub max_file_descriptors: Option<u64>,
    /// Most processes.
    pub max_processes: Option<u64>,
    /// Longest run time, in seconds.
    pub max_runtime_seconds: Option<u64>,
    /// Most network connections.
    pub max_network_connections: Option<u64>,
    /// Most data written to disk, in megabytes.
    pub max_disk_write_mb: Option<u64>,
}

/// The default limits: at most 1 GB of memory, 10 processes, an hour of
/// run time, 100 network connections and 1 GB written to disk; no limit on
/// CPU or file descriptors.
pub open spec fn default_limits() -> ResourceLimits {
    ResourceLimits {
        max_cpu_percent: None,
        max_memory_mb: Some(1024),
        max_file_descriptors: None,
        max_processes: Some(10),
        max_runtime_seconds: Some(3600),
        max_network_connections: Some(100),
        max_disk_write_mb: Some(1024),
    }
}

impl Default for ResourceLimits {
    /// The default limits.
    fn default() -> (r: Self)
        ensures
            r == default_limits(),
    {
        ResourceLimits {
            max_cpu_percent: None,
            max_memory_mb: Some(1024),
            max_file_descriptors: None,
            max_processes: Some(10),
            max_runtime_seconds: Some(3600),
            max_network_connections: Some(100),
            max_disk_write_mb: Some(1024),
        }
    }
}

/// How a sandbox is made: its name, the process it runs and the limits it
/// runs under.
#[derive(Debug, Clone)]
pub struct SandboxConfig {
    /// The sandbox's name.
    pub name: String,
    /// The program to run.
    pub process_name: String,
    /// The program's arguments.
    pub args: Vec<String>,
    /// The working directory, if one is set.
    pub cwd: Option<String>,
    /// Environment variables, as name and value.
    pub env: Vec<(String, String)>,
    /// The resource limits.
    pub resource_limits: ResourceLimits,
}

/// A sandbox configuration with its text as sequences.
pub struct ConfigView {
    pub name: Seq<char>,
    pub process_name: Seq<char>,
    pub args: Seq<Seq<char>>,
    pub cwd: Option<Seq<char>>,
    pub env: Seq<(Seq<char>, Seq<char>)>,
    pub resource_limits: ResourceLimits,
}

/// The text of an optional string.
pub open spec fn option_text(o: Option<String>) -> Option<Seq<char>> {
    match o {
        Some(s) => Some(s@),
        None => None,
    }
}

impl View for SandboxConfig {
    type V = ConfigView;

    open spec fn view(&self) -> ConfigView {
        ConfigView {
            name: self.name@,
            process_name: self.process_name@,
            args: self.args@.map_values(|a: String| a@),
            cwd: option_text(self.cwd),
            env: self.env@.map_values(|e: (String, String)| (e.0@, e.1@)),
            resource_limits: self.resource_limits,
        }
    }
}

/// The default configuration: a sandbox named "default" with no program,
/// arguments, working directory or environment, under the default limits.
pub open spec fn default_config() -> ConfigView {
    ConfigView {
        name: "default"@,
        process_name: ""@,
        args: Seq::empty(),
        cwd: None,
        env: Seq::empty(),
        resource_limits: default_limits(),
    }
}

impl Default for SandboxConfig {
    /// The default configuration.
    fn default() -> (r: Self)
        ensures
            r@ == default_config(),
    {
        let r = SandboxConfig {
            name: String::from_str("default"),
            process_name: String::from_str(""),
            args: Vec::new(),
            cwd: None,
            env: Vec::new(),
            resource_limits: ResourceLimits::default(),
        };
        assert(r@.args =~= Seq::<Seq<char>>::empty());
        assert(r@.env =~= Seq::<(Seq<char>, Seq<char>)>::empty());
        r
    }
}

impl SandboxConfig {
    /// A builder that starts from the default configuration.
    pub fn builder() -> (r: SandboxConfigBuilder)
        ensures
            r.config@ == default_config(),
    {
        SandboxConfigBuilder::new()
    }
}

/// A copy of an optional string.
fn copy_option_string(o: &Option<String>) -> (r: Option<String>)
    ensures
        option_text(r) == option_text(*o),
{
    match o {
        Some(s) => Some(copy_string(s)),
        None => None,
    }
}

/// A copy of a list of name and value pairs.
fn copy_pairs(v: &Vec<(String, String)>) -> (r: Vec<(String, String)>)
    ensures
        r@.map_values(|e: (String, String)| (e.0@, e.1@)) == v@.map_values(
            |e: (String, String)| (e.0@, e.1@),
        ),
{
    let mut r: Vec<(String, String)> = Vec::new();
    let n = v.len();
    for i in 0..n
        invariant
            n == v@.len(),
            r@.len() == i,
            forall|j: int| 0 <= j < i ==> (#[trigger] r@[j]).0@ == v@[j].0@ && r@[j].1@ == v@[j].1@,
    {
        let key = copy_string(&v[i].0);
        let value = copy_string(&v[i].1);
        let ghost before = r@;
        r.push((key, value));
        assert forall|j: int| 0 <= j < i + 1 implies (#[trigger] r@[j]).0@ == v@[j].0@ && r@[j].1@
            == v@[j].1@ by {
            if j < i {
                assert(r@[j] == before[j]);
            }
        }
    }
    assert(r@.map_values(|e: (String, String)| (e.0@, e.1@)) =~= v@.map_values(
        |e: (String, String)| (e.0@, e.1@),
    ));
    r
}

/// A copy of a configuration.
fn copy_config(c: &SandboxConfig) -> (r: SandboxConfig)
    ensures
        r@ == c@,
{
    let args = copy_strings(&c.args);
    let r = SandboxConfig {
        name: copy_string(&c.name),
        process_name: copy_string(&c.process_name),
        args,
        cwd: copy_option_string(&c.cwd),
        env: copy_pairs(&c.env),
        resource_limits: c.resource_limits,
    };
    assert(r@.args =~= c@.args);
    r
}

/// Where a sandbox stands.
#[derive(Debug, Clone, Copy, PartialEq, Eq, Structural)]
pub enum SandboxState {
    /// Made, not started.
    Created,
    /// Its process runs.
    Running,
    /// Its process is paused.
    Paused,
    /// Its process is gone.
    Terminated,
    /// Its process could not be started.
    Crashed,
}

/// Where pausing leaves a sandbox: only a running sandbox pauses; `None`
/// when the request is refused.
pub open spec fn pause_step(s: SandboxState) -> Option<SandboxState> {
    if s == SandboxState::Running {
        Some(SandboxState::Paused)
    } else {
        None
    }
}

/// Where resuming leaves a sandbox: only a paused sandbox resumes; `None`
/// when the request is refused.
pub open spec fn resume_step(s: SandboxState) -> Option<SandboxState> {
    if s == SandboxState::Paused {
        Some(SandboxState::Running)
    } else {
        None
    }
}

/// Pausing and then resuming gives back a running sandbox; only a running
/// sandbox can be paused and only a paused one resumed, so neither can be
/// done twice in a row.
pub proof fn lemma_pause_resume(s: SandboxState)
    ensures
        pause_step(s) matches Some(p) ==> resume_step(p) == Some(s),
        resume_step(s) matches Some(q) ==> pause_step(q) == Some(s),
        pause_step(s) matches Some(p) ==> pause_step(p) is None,
        resume_step(s) matches Some(q) ==> resume_step(q) is None,
        pause_step(SandboxState::Created) is None && resume_step(SandboxState::Created) is None,
{
}

/// The name of a state, as it is written in messages.
pub open spec fn state_name(s: SandboxState) -> Seq<char> {
    match s {
        SandboxState::Created => "Created"@,
        SandboxState::Running => "Running"@,
        SandboxState::Paused => "Paused"@,
        SandboxState::Terminated => "Terminated"@,
        SandboxState::Crashed => "Crashed"@,
    }
}

/// The name of a state, as it is written in messages.
fn state_text(s: SandboxState) -> (r: &'static str)
    ensures
        r@ == state_name(s),
{
    match s {
        SandboxState::Created => "Created",
        SandboxState::Running => "Running",
        SandboxState::Paused => "Paused",
        SandboxState::Terminated => "Terminated",
        SandboxState::Crashed => "Crashed",
    }
}

/// A sandbox: its configuration, its process if it has one, and its state.
#[derive(Debug, Clone)]
pub struct Sandbox {
    /// How the sandbox was made.
    pub config: SandboxConfig,
    /// The identifier of its process, while it has one.
    pub pid: Option<u32>,
    /// Where it stands.
    pub state: SandboxState,
}

/// A sandbox with its configuration's text as sequences.
pub struct SandboxView {
    pub config: ConfigView,
    pub pid: Option<u32>,
    pub state: SandboxState,
}

impl View for Sandbox {
    type V = SandboxView;

    open spec fn view(&self) -> SandboxView {
        SandboxView { config: self.config@, pid: self.pid, state: self.state }
    }
}

/// A sandbox just made from a configuration: no process, not started.
pub open spec fn fresh_sandbox(config: ConfigView) -> SandboxView {
    SandboxView { config, pid: None, state: SandboxState::Created }
}

/// A request made of a sandbox, with what the host reported for it.
pub enum SandboxRequest {
    /// Start it; the spawned process's identifier, or `None` when spawning
    /// failed.
    Start(Option<u32>),
    /// Pause it.
    Pause,
    /// Resume it.
    Resume,
    /// Terminate it; whether killing its process, if it has one, worked.
    Terminate(bool),
}

/// The process a spawn gave, if it gave one.
pub open spec fn spawned_pid(spawned: Result<u32, String>) -> Option<u32> {
    match spawned {
        Ok(pid) => Some(pid),
        Err(_) => None,
    }
}

/// Where a request leaves a sandbox.
pub open spec fn after_request(s: SandboxView, q: SandboxRequest) -> SandboxView {
    match q {
        SandboxRequest::Start(spawned) => if s.state != SandboxState::Created {
            s
        } else {
            match spawned {
                Some(pid) => SandboxView { pid: Some(pid), state: SandboxState::Running, ..s },
                None => SandboxView { state: SandboxState::Crashed, ..s },
            }
        },
        SandboxRequest::Pause => match pause_step(s.state) {
            Some(next) => SandboxView { state: next, ..s },
            None => s,
        },
        SandboxRequest::Resume => match resume_step(s.state) {
            Some(next) => SandboxView { state: next, ..s },
            None => s,
        },
        SandboxRequest::Terminate(killed) => if s.pid is Some && !killed {
            s
        } else {
            SandboxView { pid: None, state: SandboxState::Terminated, ..s }
        },
    }
}

/// Where a series of requests, made one after another, leaves a sandbox.
pub open spec fn after_requests(s: SandboxView, qs: Seq<SandboxRequest>) -> SandboxView
    decreases qs.len(),
{
    if qs.len() == 0 {
        s
    } else {
        after_request(after_requests(s, qs.drop_last()), qs.last())
    }
}

/// Whether a sandbox has a process exactly while it runs or is paused.
pub open spec fn has_process_iff_active(s: SandboxView) -> bool {
    s.pid is Some <==> (s.state == SandboxState::Running || s.state == SandboxState::Paused)
}

/// Whether the first start request of a series is one that spawned
/// process `pid`.
pub open spec fn first_start_spawned(qs: Seq<SandboxRequest>, pid: u32) -> bool {
    exists|i: int|
        0 <= i < qs.len() && #[trigger] qs[i] == SandboxRequest::Start(Some(pid)) && forall|j: int|
            0 <= j < i ==> !(#[trigger] qs[j] is Start)
}

/// A sandbox made from a configuration, after any series of requests, has
/// a process exactly while it runs or is paused, and the process it has is
/// the one spawned by the first start request: later start requests are
/// refused.
pub proof fn lemma_process_while_active(config: ConfigView, qs: Seq<SandboxRequest>)
    ensures
        has_process_iff_active(after_requests(fresh_sandbox(config), qs)),
        after_requests(fresh_sandbox(config), qs).pid matches Some(pid) ==> first_start_spawned(
            qs,
            pid,
        ),
        after_requests(fresh_sandbox(config), qs).state == SandboxState::Created ==> forall|j: int|
            0 <= j < qs.len() ==> !(#[trigger] qs[j] is Start),
    decreases qs.len(),
{
    if qs.len() > 0 {
        let prefix = qs.drop_last();
        lemma_process_while_active(config, prefix);
        let before = after_requests(fresh_sandbox(config), prefix);
        let after = after_requests(fresh_sandbox(config), qs);
        assert(after == after_request(before, qs.last()));
        assert forall|j: int| 0 <= j < prefix.len() implies #[trigger] prefix[j] == qs[j] by {}
        if let Some(pid) = after.pid {
            if before.pid == Some(pid) {
                let i = choose|i: int|
                    0 <= i < prefix.len() && #[trigger] prefix[i] == SandboxRequest::Start(
                        Some(pid),
                    ) && forall|j: int| 0 <= j < i ==> !(#[trigger] prefix[j] is Start);
                assert(qs[i] == prefix[i]);
                assert forall|j: int| 0 <= j < i implies !(#[trigger] qs[j] is Start) by {
                    assert(qs[j] == prefix[j]);
                }
            } else {
                let i = qs.len() - 1;
                assert(qs[i] == SandboxRequest::Start(Some(pid)));
                assert forall|j: int| 0 <= j < i implies !(#[trigger] qs[j] is Start) by {
                    assert(qs[j] == prefix[j]);
                }
            }
        }
        if after.state == SandboxState::Created {
            assert forall|j: int| 0 <= j < qs.len() implies !(#[trigger] qs[j] is Start) by {
                if j < prefix.len() {
                    assert(qs[j] == prefix[j]);
                }
            }
        }
    }
}

impl Sandbox {
    /// A sandbox made from `config`, with no process.
    pub fn new(config: SandboxConfig) -> (r: Self)
        ensures
            r@ == fresh_sandbox(config@),
            r.config == config,
            r.pid is None,
            r.state == SandboxState::Created,
    {
        Sandbox { config, pid: None, state: SandboxState::Created }
    }

    /// A copy of the sandbox.
    pub fn duplicate(&self) -> (r: Self)
        ensures
            r@ == self@,
    {
        Sandbox { config: copy_config(&self.config), pid: self.pid, state: self.state }
    }

    /// Checks that the sandbox can be started: it must not have been
    /// started before.
    pub fn begin_start(&self) -> (r: Result<(), String>)
        ensures
            r is Ok <==> self.state == SandboxState::Created,
            r matches Err(e) ==> e@ == "沙箱 "@ + self.config.name@ + " 已处于 "@ + state_name(
                self.state,
            ) + " 状态，无法启动"@,
    {
        if self.state != SandboxState::Created {
            return Err(
                String::from_str("沙箱 ").concat(self.config.name.as_str()).concat(
                    " 已处于 ",
                ).concat(state_text(self.state)).concat(" 状态，无法启动"),
            );
        }
        Ok(())
    }

    /// Records what came of spawning the sandbox's process: with the
    /// process's identifier the sandbox runs; with the spawn error's text it
    /// has crashed. A sandbox that cannot be started is left as it is, with
    /// the error of [`Sandbox::begin_start`].
    pub fn complete_start(&mut self, spawned: Result<u32, String>) -> (r: Result<(), String>)
        ensures
            final(self)@ == after_request(old(self)@, SandboxRequest::Start(spawned_pid(spawned))),
            final(self).config == old(self).config,
            old(self).state != SandboxState::Created ==> final(self)@ == old(self)@ && (r matches Err(
                e,
            ) && e@ == "沙箱 "@ + old(self).config.name@ + " 已处于 "@ + state_name(old(self).state)
                + " 状态，无法启动"@),
            old(self).state == SandboxState::Created ==> match spawned {
                Ok(pid) => r is Ok && final(self).pid == Some(pid) && final(self).state
                    == SandboxState::Running,
                Err(e) => (r matches Err(m) && m@ == "启动沙箱进程失败: "@ + e@) && final(self).pid
                    == old(self).pid && final(self).state == SandboxState::Crashed,
            },
    {
        self.begin_start()?;
        match spawned {
            Ok(pid) => {
                self.pid = Some(pid);
                self.state = SandboxState::Running;
                Ok(())
            },
            Err(e) => {
                self.state = SandboxState::Crashed;
                Err(String::from_str("启动沙箱进程失败: ").concat(e.as_str()))
            },
        }
    }

    /// Pauses a running sandbox; any other sandbox is left as it is, with an
    /// error.
    pub fn pause(&mut self) -> (r: Result<(), String>)
        ensures
            final(self)@ == after_request(old(self)@, SandboxRequest::Pause),
            match pause_step(old(self).state) {
                Some(next) => r is Ok && final(self).state == next,
                None => (r matches Err(e) && e@ == "沙箱 "@ + old(self).config.name@
                    + " 未处于运行状态，无法暂停"@) && final(self).state == old(self).state,
            },
            final(self).config == old(self).config,
            final(self).pid == old(self).pid,
    {
        if self.state != SandboxState::Running {
            return Err(
                String::from_str("沙箱 ").concat(self.config.name.as_str()).concat(
                    " 未处于运行状态，无法暂停",
                ),
            );
        }
        self.state = SandboxState::Paused;
        Ok(())
    }

    /// Resumes a paused sandbox; any other sandbox is left as it is, with an
    /// error.
    pub fn resume(&mut self) -> (r: Result<(), String>)
        ensures
            final(self)@ == after_request(old(self)@, SandboxRequest::Resume),
            match resume_step(old(self).state) {
                Some(next) => r is Ok && final(self).state == next,
                None => (r matches Err(e) && e@ == "沙箱 "@ + old(self).config.name@
                    + " 未处于暂停状态，无法恢复"@) && final(self).state == old(self).state,
            },
            final(self).config == old(self).config,
            final(self).pid == old(self).pid,
    {
        if self.state != SandboxState::Paused {
            return Err(
                String::from_str("沙箱 ").concat(self.config.name.as_str()).concat(
                    " 未处于暂停状态，无法恢复",
                ),
            );
        }
        self.state = SandboxState::Running;
        Ok(())
    }

    /// Terminates the sandbox. A sandbox without a process is simply marked
    /// terminated. For one with a process, `kill_outcome` is what came of
    /// killing it: when the kill succeeded the sandbox is terminated and
    /// forgets the process; when it failed the sandbox is left as it is and
    /// the failure is returned.
    pub fn terminate(&mut self, kill_outcome: Result<(), String>) -> (r: Result<(), String>)
        ensures
            final(self)@ == after_request(old(self)@, SandboxRequest::Terminate(kill_outcome is Ok)),
            final(self).config == old(self).config,
            old(self).pid is None ==> r is Ok && final(self).state == SandboxState::Terminated
                && final(self).pid is None,
            old(self).pid is Some ==> match kill_outcome {
                Ok(()) => r is Ok && final(self).state == SandboxState::Terminated
                    && final(self).pid is None,
                Err(e) => r == Err::<(), String>(e) && final(self)@ == old(self)@,
            },
    {
        if self.pid.is_some() {
            match kill_outcome {
                Ok(()) => {
                    self.state = SandboxState::Terminated;
                    self.pid = None;
                    Ok(())
                },
                Err(e) => Err(e),
            }
        } else {
            self.state = SandboxState::Terminated;
            Ok(())
        }
    }

    /// Where the sandbox stands.
    pub fn state(&self) -> (r: SandboxState)
        ensures
            r == self.state,
    {
        self.state
    }

    /// The identifier of the sandbox's process, while it has one.
    pub fn pid(&self) -> (r: Option<u32>)
        ensures
            r == self.pid,
    {
        self.pid
    }

    /// The sandbox's name.
    pub fn name(&self) -> (r: &str)
        ensures
            r@ == self.config.name@,
    {
        self.config.name.as_str()
    }
}

/// The Windows error code for a refused access.
pub const ERROR_ACCESS_DENIED: i32 = 5;

/// The Windows error code for an invalid parameter, such as an unknown
/// process identifier.
pub const ERROR_INVALID_PARAMETER: i32 = 87;

/// The error for a process that could not be opened for termination, by
/// the system's error code.
pub open spec fn open_process_error_text(error_code: i32) -> Seq<char> {
    if error_code == ERROR_ACCESS_DENIED {
        "无法获取进程终止权限"@
    } else if error_code == ERROR_INVALID_PARAMETER {
        "无效的进程 ID"@
    } else {
        "打开进程失败，错误代码: "@ + signed_decimal(error_code as int)
    }
}

/// The error for a process that could not be opened for termination: a
/// refused access and an invalid identifier have their own texts, any other
/// code is named.
pub fn open_process_error(error_code: i32) -> (r: String)
    ensures
        r@ == open_process_error_text(error_code),
{
    if error_code == ERROR_ACCESS_DENIED {
        String::from_str("无法获取进程终止权限")
    } else if error_code == ERROR_INVALID_PARAMETER {
        String::from_str("无效的进程 ID")
    } else {
        let mut r = String::from_str("打开进程失败，错误代码: ");
        push_signed_decimal(&mut r, error_code);
        r
    }
}

/// The error for a process that was opened but could not be terminated,
/// naming the system's error code.
pub fn terminate_process_error(error_code: i32) -> (r: String)
    ensures
        r@ == "终止进程失败，错误代码: "@ + signed_decimal(error_code as int),
{
    let mut r = String::from_str("终止进程失败，错误代码: ");
    push_signed_decimal(&mut r, error_code);
    r
}

/// The processes of a list of sandboxes, in order.
pub open spec fn running_pids(v: Seq<Sandbox>) -> Seq<u32> {
    v.filter(|s: Sandbox| s.pid is Some).map_values(|s: Sandbox| s.pid.unwrap())
}

/// The sandboxes and the manager's lifecycle.
pub struct SandboxManager {
    /// The sandboxes, in the order they were made.
    pub sandboxes: Vec<Sandbox>,
    /// Where the manager stands in its lifecycle.
    pub state: LifecycleState,
}

impl SandboxManager {
    /// A freshly initialized manager without sandboxes.
    pub fn new() -> (r: Self)
        ensures
            r.sandboxes@.len() == 0,
            r.state == LifecycleState::Initialized,
    {
        SandboxManager { sandboxes: Vec::new(), state: LifecycleState::Initialized }
    }

    /// Starts the manager; a request while not freshly initialized is
    /// ignored.
    pub fn run(&mut self)
        ensures
            final(self).state == after_run(old(self).state),
            final(self).sandboxes@ == old(self).sandboxes@,
    {
        if self.state != LifecycleState::Initialized {
            return;
        }
        self.state = LifecycleState::Running;
    }

    /// Shuts the manager down and lets go of every sandbox; answers the
    /// processes, in order, that the host is to kill. A request while
    /// already shut down is ignored and answers none.
    pub fn shutdown(&mut self) -> (r: Vec<u32>)
        ensures
            final(self).state == after_shutdown(old(self).state),
            old(self).state != LifecycleState::Shutdown ==> final(self).sandboxes@.len() == 0
                && r@ == running_pids(old(self).sandboxes@),
            old(self).state == LifecycleState::Shutdown ==> final(self).sandboxes@ == old(
                self,
            ).sandboxes@ && r@.len() == 0,
    {
        let mut pids: Vec<u32> = Vec::new();
        if self.state == LifecycleState::Shutdown {
            return pids;
        }
        self.state = LifecycleState::ShuttingDown;
        let ghost all = self.sandboxes@;
        let ghost pred = |s: Sandbox| s.pid is Some;
        let n = self.sandboxes.len();
        for i in 0..n
            invariant
                n == self.sandboxes@.len(),
                all == self.sandboxes@,
                pred == (|s: Sandbox| s.pid is Some),
                pids@ == all.take(i as int).filter(pred).map_values(|s: Sandbox| s.pid.unwrap()),
        {
            reveal_with_fuel(Seq::<_>::filter, 1);
            assert(all.take(i + 1).drop_last() =~= all.take(i as int));
            if let Some(pid) = self.sandboxes[i].pid {
                pids.push(pid);
            }
            assert(pids@ =~= all.take(i + 1).filter(pred).map_values(|s: Sandbox| s.pid.unwrap()));
        }
        assert(all.take(n as int) =~= all);
        self.sandboxes.clear();
        self.state = LifecycleState::Shutdown;
        pids
    }

    /// Makes a sandbox from `config`, keeps it and answers a copy of it;
    /// this never fails.
    pub fn create_sandbox(&mut self, config: SandboxConfig) -> (r: Result<Sandbox, String>)
        ensures
            r matches Ok(s) && s@ == fresh_sandbox(config@) && final(self).sandboxes@ == old(
                self,
            ).sandboxes@.push(Sandbox { config, pid: None, state: SandboxState::Created }),
            final(self).state == old(self).state,
    {
        let sandbox = Sandbox::new(config);
        let copy = sandbox.duplicate();
        self.sandboxes.push(sandbox);
        Ok(copy)
    }

    /// A copy of the first sandbox named `name`, if there is one.
    pub fn get_sandbox(&self, name: &str) -> (r: Option<Sandbox>)
        ensures
            match r {
                Some(s) => exists|i: int|
                    0 <= i < self.sandboxes@.len() && self.sandboxes@[i].config.name@ == name@ && s@
                        == #[trigger] self.sandboxes@[i]@ && forall|j: int|
                        0 <= j < i ==> self.sandboxes@[j].config.name@ != name@,
                None => forall|i: int|
                    0 <= i < self.sandboxes@.len() ==> #[trigger] self.sandboxes@[i].config.name@
                        != name@,
            },
    {
        let n = self.sandboxes.len();
        for i in 0..n
            invariant
                n == self.sandboxes@.len(),
                forall|j: int| 0 <= j < i ==> #[trigger] self.sandboxes@[j].config.name@ != name@,
        {
            if str_equal(self.sandboxes[i].config.name.as_str(), name) {
                let s = self.sandboxes[i].duplicate();
                assert(self.sandboxes@[i as int]@ == s@);
                return Some(s);
            }
        }
        None
    }
}

/// Builds a sandbox configuration step by step.
pub struct SandboxConfigBuilder {
    /// The configuration built so far.
    pub config: SandboxConfig,
}

impl SandboxConfigBuilder {
    /// A builder that starts from the default configuration.
    pub fn new() -> (r: Self)
        ensures
            r.config@ == default_config(),
    {
        SandboxConfigBuilder { config: SandboxConfig::default() }
    }

    /// Sets the sandbox's name.
    pub fn name(self, name: &str) -> (r: Self)
        ensures
            r.config@ == (ConfigView { name: name@, ..self.config@ }),
    {
        let mut b = self;
        b.config.name = name.to_owned();
        b
    }

    /// Sets the program to run.
    pub fn process_name(self, process_name: &str) -> (r: Self)
        ensures
            r.config@ == (ConfigView { process_name: process_name@, ..self.config@ }),
    {
        let mut b = self;
        b.config.process_name = process_name.to_owned();
        b
    }

    /// Adds an argument after the others.
    pub fn arg(self, arg: &str) -> (r: Self)
        ensures
            r.config@ == (ConfigView { args: self.config@.args.push(arg@), ..self.config@ }),
    {
        let mut b = self;
        b.config.args.push(arg.to_owned());
        assert(b.config@.args =~= self.config@.args.push(arg@));
        b
    }

    /// Adds arguments after the others, in order.
    pub fn args(self, args: &[&str]) -> (r: Self)
        ensures
            r.config@ == (ConfigView {
                args: self.config@.args + args@.map_values(|a: &str| a@),
                ..self.config@
            }),
    {
        let mut b = self;
        let n = args.len();
        for i in 0..n
            invariant
                n == args@.len(),
                b.config@ == (ConfigView {
                    args: self.config@.args + args@.take(i as int).map_values(|a: &str| a@),
                    ..self.config@
                }),
        {
            let ghost before = b.config@.args;
            b.config.args.push(args[i].to_owned());
            assert(b.config@.args =~= before.push(args@[i as int]@));
            assert(args@.take(i + 1).map_values(|a: &str| a@) =~= args@.take(i as int).map_values(
                |a: &str| a@,
            ).push(args@[i as int]@));
            assert(self.config@.args + args@.take(i + 1).map_values(|a: &str| a@) =~= (
            self.config@.args + args@.take(i as int).map_values(|a: &str| a@)).push(
                args@[i as int]@,
            ));
        }
        assert(args@.take(n as int) =~= args@);
        b
    }

    /// Sets the working directory.
    pub fn cwd(self, cwd: &str) -> (r: Self)
        ensures
            r.config@ == (ConfigView { cwd: Some(cwd@), ..self.config@ }),
    {
        let mut b = self;
        b.config.cwd = Some(cwd.to_owned());
        b
    }

    /// Adds an environment variable after the others.
    pub fn env(self, key: &str, value: &str) -> (r: Self)
        ensures
            r.config@ == (ConfigView { env: self.config@.env.push((key@, value@)), ..self.config@ }),
    {
        let mut b = self;
        b.config.env.push((key.to_owned(), value.to_owned()));
        assert(b.config@.env =~= self.config@.env.push((key@, value@)));
        b
    }

    /// Sets the most CPU use, in percent.
    pub fn max_cpu_percent(self, percent: u32) -> (r: Self)
        ensures
            r.config@ == (ConfigView {
                resource_limits: ResourceLimits {
                    max_cpu_percent: Some(percent),
                    ..self.config@.resource_limits
                },
                ..self.config@
            }),
    {
        let mut b = self;
        b.config.resource_limits.max_cpu_percent = Some(percent);
        b
    }

    /// Sets the most memory, in megabytes.
    pub fn max_memory_mb(self, mb: u64) -> (r: Self)
        ensures
            r.config@ == (ConfigView {
                resource_limits: ResourceLimits {
                    max_memory_mb: Some(mb),
                    ..self.config@.resource_limits
                },
                ..self.config@
            }),
    {
        let mut b = self;
        b.config.resource_limits.max_memory_mb = Some(mb);
        b
    }

    /// Sets the most open file descriptors.
    pub fn max_file_descriptors(self, count: u64) -> (r: Self)
        ensures
            r.config@ == (ConfigView {
                resource_limits: ResourceLimits {
                    max_file_descriptors: Some(count),
                    ..self.config@.resource_limits
                },
                ..self.config@
            }),
    {
        let mut b = self;
        b.config.resource_limits.max_file_descriptors = Some(count);
        b
    }

    /// Sets the most processes.
    pub fn max_processes(self, count: u64) -> (r: Self)
        ensures
            r.config@ == (ConfigView {
                resource_limits: ResourceLimits {
                    max_processes: Some(count),
                    ..self.config@.resource_limits
                },
                ..self.config@
            }),
    {
        let mut b = self;
        b.config.resource_limits.max_processes = Some(count);
        b
    }

    /// Sets the longest run time, in seconds.
    pub fn max_runtime_seconds(self, seconds: u64) -> (r: Self)
        ensures
            r.config@ == (ConfigView {
                resource_limits: ResourceLimits {
                    max_runtime_seconds: Some(seconds),
                    ..self.config@.resource_limits
                },
                ..self.config@
            }),
    {
        let mut b = self;
        b.config.resource_limits.max_runtime_seconds = Some(seconds);
        b
    }

    /// The configuration built.
    pub fn build(self) -> (r: SandboxConfig)
        ensures
            r == self.config,
    {
        self.config
    }
}

} // verus!

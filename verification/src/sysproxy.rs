//! The Windows procedures that switch the system proxy on and off through
//! the registry. Each is a state machine: it names the command to run next,
//! and the caller runs it and reports how it went. The registry key, the
//! values written, the order, the checks and the rollback are decided here.

use vstd::prelude::*;
use vstd::string::StringExecFns;
use crate::text::{decimal, decimal_reads_back, digits_value, is_digit, push_decimal};

verus! {

/// The lowest port that may be set as the system proxy.
pub const MIN_PROXY_PORT: u16 = 1024;

pub const REG_PROGRAM: &'static str = "reg";

pub const IPCONFIG_PROGRAM: &'static str = "ipconfig";

/// The per-user Internet Settings key.
pub const INTERNET_SETTINGS_KEY: &'static str =
    "HKCU\\Software\\Microsoft\\Windows\\CurrentVersion\\Internet Settings";

pub const INVALID_PORT_MESSAGE: &'static str = "Geçersiz port numarası (1024-65535 arası olmalı)";

pub const REGISTRY_ACCESS_PREFIX: &'static str = "Registry erişim hatası: ";

pub const NO_WRITE_ACCESS_MESSAGE: &'static str =
    "Registry yazma izni yok. Uygulamayı yönetici olarak çalıştırın.";

pub const SERVER_WRITE_PREFIX: &'static str = "ProxyServer ayarlanamadı: ";

pub const ENABLE_WRITE_PREFIX: &'static str = "ProxyEnable ayarlanamadı: ";

pub const ROLLED_BACK_MESSAGE: &'static str = "Registry güncelleme başarısız, geri alındı.";

pub const CLEAR_FAILED_MESSAGE: &'static str = "Failed to clear proxy via registry";

/// What becomes of a command's output streams.
#[derive(PartialEq, Eq, Structural, Clone, Copy, Debug)]
pub enum StreamMode {
    /// Inherited from this process; only the exit status is awaited.
    Inherit,
    /// Sent to the null device; only the exit status is awaited.
    Discard,
    /// Captured; the command's output is awaited.
    Capture,
}

/// A program to run in a hidden window.
pub struct SystemCommand {
    pub program: String,
    pub args: Vec<String>,
    pub streams: StreamMode,
}

/// What the procedure asks for next.
pub enum ProxyStep {
    /// Run this command and report its outcome.
    Run(SystemCommand),
    /// Tell Windows that the Internet settings changed, then report back.
    NotifyWindows,
    /// The procedure is over, with this result.
    Finish(Result<(), String>),
}

/// How a command went.
pub enum CommandOutcome {
    /// It ran and exited, successfully or not.
    Exited { success: bool },
    /// It could not be started; the message says why.
    SpawnFailed { message: String },
}

/// A step as plain values.
pub enum StepSpec {
    Run { program: Seq<char>, args: Seq<Seq<char>>, streams: StreamMode },
    NotifyWindows,
    Finish(Result<(), Seq<char>>),
}

/// An outcome as plain values.
pub enum OutcomeSpec {
    Exited(bool),
    SpawnFailed(Seq<char>),
}

impl View for ProxyStep {
    type V = StepSpec;

    open spec fn view(&self) -> StepSpec {
        match self {
            ProxyStep::Run(c) => StepSpec::Run {
                program: c.program@,
                args: c.args@.map_values(|a: String| a@),
                streams: c.streams,
            },
            ProxyStep::NotifyWindows => StepSpec::NotifyWindows,
            ProxyStep::Finish(Ok(())) => StepSpec::Finish(Ok(())),
            ProxyStep::Finish(Err(m)) => StepSpec::Finish(Err(m@)),
        }
    }
}

impl View for CommandOutcome {
    type V = OutcomeSpec;

    open spec fn view(&self) -> OutcomeSpec {
        match self {
            CommandOutcome::Exited { success } => OutcomeSpec::Exited(*success),
            CommandOutcome::SpawnFailed { message } => OutcomeSpec::SpawnFailed(message@),
        }
    }
}

/// `reg add <key> /v <name> /t <kind> /d <data> /f`.
pub open spec fn reg_add_args(name: Seq<char>, kind: Seq<char>, data: Seq<char>) -> Seq<Seq<char>> {
    seq!["add"@, INTERNET_SETTINGS_KEY@, "/v"@, name, "/t"@, kind, "/d"@, data, "/f"@]
}

/// `reg delete <key> /v <name> /f`.
pub open spec fn reg_delete_args(name: Seq<char>) -> Seq<Seq<char>> {
    seq!["delete"@, INTERNET_SETTINGS_KEY@, "/v"@, name, "/f"@]
}

/// `reg query <key>`: a probe that the key can be reached.
pub open spec fn reg_query_args() -> Seq<Seq<char>> {
    seq!["query"@, INTERNET_SETTINGS_KEY@]
}

/// Running `reg` with these arguments.
pub open spec fn reg_step(args: Seq<Seq<char>>, streams: StreamMode) -> StepSpec {
    StepSpec::Run { program: REG_PROGRAM@, args, streams }
}

/// The proxy address written for a local proxy on `port`.
pub open spec fn local_proxy_address(port: u16) -> Seq<char> {
    "127.0.0.1:"@ + decimal(port as nat)
}

/// The write that turns the system proxy on (`1`) or off (`0`).
pub open spec fn enable_step(on: bool) -> StepSpec {
    reg_step(
        reg_add_args("ProxyEnable"@, "REG_DWORD"@, if on { "1"@ } else { "0"@ }),
        StreamMode::Inherit,
    )
}

fn text(s: &str) -> (t: String)
    ensures
        t@ == s@,
{
    String::from_str(s)
}

fn reg_add(name: &str, kind: &str, data: &str) -> (step: ProxyStep)
    ensures
        step@ == reg_step(reg_add_args(name@, kind@, data@), StreamMode::Inherit),
{
    let mut args: Vec<String> = Vec::new();
    args.push(text("add"));
    args.push(text(INTERNET_SETTINGS_KEY));
    args.push(text("/v"));
    args.push(text(name));
    args.push(text("/t"));
    args.push(text(kind));
    args.push(text("/d"));
    args.push(text(data));
    args.push(text("/f"));
    assert(args@.map_values(|a: String| a@) =~= reg_add_args(name@, kind@, data@));
    let step = ProxyStep::Run(
        SystemCommand { program: text(REG_PROGRAM), args, streams: StreamMode::Inherit },
    );
    step
}

fn reg_delete(name: &str) -> (step: ProxyStep)
    ensures
        step@ == reg_step(reg_delete_args(name@), StreamMode::Discard),
{
    let mut args: Vec<String> = Vec::new();
    args.push(text("delete"));
    args.push(text(INTERNET_SETTINGS_KEY));
    args.push(text("/v"));
    args.push(text(name));
    args.push(text("/f"));
    assert(args@.map_values(|a: String| a@) =~= reg_delete_args(name@));
    let step = ProxyStep::Run(
        SystemCommand { program: text(REG_PROGRAM), args, streams: StreamMode::Discard },
    );
    step
}

fn enable(on: bool) -> (step: ProxyStep)
    ensures
        step@ == enable_step(on),
{
    if on {
        reg_add("ProxyEnable", "REG_DWORD", "1")
    } else {
        reg_add("ProxyEnable", "REG_DWORD", "0")
    }
}

fn fail_with(prefix: &str, message: &str) -> (step: ProxyStep)
    ensures
        step@ == StepSpec::Finish(Err(prefix@ + message@)),
{
    let mut m = text(prefix);
    m.append(message);
    ProxyStep::Finish(Err(m))
}

fn fail(message: &str) -> (step: ProxyStep)
    ensures
        step@ == StepSpec::Finish(Err(message@)),
{
    ProxyStep::Finish(Err(text(message)))
}

// ---------------------------------------------------------------------------
// Setting the proxy
// ---------------------------------------------------------------------------

/// Where the procedure that sets the proxy stands.
#[derive(PartialEq, Eq, Structural, Clone, Copy, Debug)]
pub enum SetStage {
    /// Probing the key.
    CheckAccess,
    /// Writing the bypass list.
    WriteOverride,
    /// Writing the proxy address.
    WriteServer,
    /// Turning the proxy on.
    WriteEnable,
    /// Turning the proxy off again after a failed write.
    Rollback,
    /// Waiting for Windows to be told.
    Notify,
    /// Over.
    Done,
}

/// The procedure that points the system proxy at `127.0.0.1:<port>`.
pub struct SetProxyJob {
    port: u16,
    stage: SetStage,
    server_ok: bool,
}

/// The procedure as plain values: the port, where it stands, and whether
/// the proxy address was written.
pub struct SetModel {
    pub port: u16,
    pub stage: SetStage,
    pub server_ok: bool,
}

impl View for SetProxyJob {
    type V = SetModel;

    closed spec fn view(&self) -> SetModel {
        SetModel { port: self.port, stage: self.stage, server_ok: self.server_ok }
    }
}

/// The first step: a port below 1024 is refused before anything runs;
/// otherwise the key is probed.
pub open spec fn set_start(port: u16) -> (SetModel, StepSpec) {
    if port < MIN_PROXY_PORT {
        (
            SetModel { port, stage: SetStage::Done, server_ok: false },
            StepSpec::Finish(Err(INVALID_PORT_MESSAGE@)),
        )
    } else {
        (
            SetModel { port, stage: SetStage::CheckAccess, server_ok: false },
            reg_step(reg_query_args(), StreamMode::Capture),
        )
    }
}

/// The step after a command of the procedure went as `outcome`.
pub open spec fn set_after_command(m: SetModel, outcome: OutcomeSpec) -> (SetModel, StepSpec) {
    let done = SetModel { stage: SetStage::Done, ..m };
    match m.stage {
        SetStage::CheckAccess => match outcome {
            OutcomeSpec::SpawnFailed(e) => (done, StepSpec::Finish(Err(REGISTRY_ACCESS_PREFIX@ + e))),
            OutcomeSpec::Exited(false) => (done, StepSpec::Finish(Err(NO_WRITE_ACCESS_MESSAGE@))),
            OutcomeSpec::Exited(true) => (
                SetModel { stage: SetStage::WriteOverride, ..m },
                reg_step(
                    reg_add_args("ProxyOverride"@, "REG_SZ"@, "<local>"@),
                    StreamMode::Inherit,
                ),
            ),
        },
        SetStage::WriteOverride => (
            SetModel { stage: SetStage::WriteServer, ..m },
            reg_step(
                reg_add_args("ProxyServer"@, "REG_SZ"@, local_proxy_address(m.port)),
                StreamMode::Inherit,
            ),
        ),
        SetStage::WriteServer => match outcome {
            OutcomeSpec::SpawnFailed(e) => (done, StepSpec::Finish(Err(SERVER_WRITE_PREFIX@ + e))),
            OutcomeSpec::Exited(ok) => (
                SetModel { stage: SetStage::WriteEnable, server_ok: ok, ..m },
                enable_step(true),
            ),
        },
        SetStage::WriteEnable => match outcome {
            OutcomeSpec::SpawnFailed(e) => (done, StepSpec::Finish(Err(ENABLE_WRITE_PREFIX@ + e))),
            OutcomeSpec::Exited(ok) => if m.server_ok && ok {
                (SetModel { stage: SetStage::Notify, ..m }, StepSpec::NotifyWindows)
            } else {
                (SetModel { stage: SetStage::Rollback, ..m }, enable_step(false))
            },
        },
        _ => (done, StepSpec::Finish(Err(ROLLED_BACK_MESSAGE@))),
    }
}

/// Whether the procedure waits for the outcome of a command.
pub open spec fn set_awaits_command(m: SetModel) -> bool {
    match m.stage {
        SetStage::Notify | SetStage::Done => false,
        _ => true,
    }
}

/// Starts setting the system proxy to the local proxy on `port`.
pub fn start_set_proxy(port: u16) -> (r: (SetProxyJob, ProxyStep))
    ensures
        (r.0@, r.1@) == set_start(port),
        r.1@ is Run ==> set_awaits_command(r.0@),
        r.1@ is NotifyWindows ==> r.0@.stage == SetStage::Notify,
{
    if port < MIN_PROXY_PORT {
        return (
            SetProxyJob { port, stage: SetStage::Done, server_ok: false },
            fail(INVALID_PORT_MESSAGE),
        );
    }
    let mut args: Vec<String> = Vec::new();
    args.push(text("query"));
    args.push(text(INTERNET_SETTINGS_KEY));
    assert(args@.map_values(|a: String| a@) =~= reg_query_args());
    let step = ProxyStep::Run(
        SystemCommand { program: text(REG_PROGRAM), args, streams: StreamMode::Capture },
    );
    (SetProxyJob { port, stage: SetStage::CheckAccess, server_ok: false }, step)
}

impl SetProxyJob {
    /// Whether the procedure waits for the outcome of a command.
    pub fn awaits_command(&self) -> (b: bool)
        ensures
            b == set_awaits_command(self@),
    {
        match self.stage {
            SetStage::Notify | SetStage::Done => false,
            _ => true,
        }
    }

    /// Whether the procedure waits for Windows to be told of the change.
    pub fn awaits_notification(&self) -> (b: bool)
        ensures
            b == (self@.stage == SetStage::Notify),
    {
        self.stage == SetStage::Notify
    }

    /// The next step, once the last command went as `outcome`.
    pub fn after_command(&mut self, outcome: &CommandOutcome) -> (step: ProxyStep)
        requires
            set_awaits_command(old(self)@),
        ensures
            (final(self)@, step@) == set_after_command(old(self)@, outcome@),
            step@ is Run ==> set_awaits_command(final(self)@),
            step@ is NotifyWindows ==> final(self)@.stage == SetStage::Notify,
    {
        match self.stage {
            SetStage::CheckAccess => match outcome {
                CommandOutcome::SpawnFailed { message } => {
                    self.stage = SetStage::Done;
                    fail_with(REGISTRY_ACCESS_PREFIX, message.as_str())
                },
                CommandOutcome::Exited { success } => {
                    if *success {
                        self.stage = SetStage::WriteOverride;
                        reg_add("ProxyOverride", "REG_SZ", "<local>")
                    } else {
                        self.stage = SetStage::Done;
                        fail(NO_WRITE_ACCESS_MESSAGE)
                    }
                },
            },
            SetStage::WriteOverride => {
                self.stage = SetStage::WriteServer;
                let mut address = text("127.0.0.1:");
                push_decimal(&mut address, self.port as u64);
                reg_add("ProxyServer", "REG_SZ", address.as_str())
            },
            SetStage::WriteServer => match outcome {
                CommandOutcome::SpawnFailed { message } => {
                    self.stage = SetStage::Done;
                    fail_with(SERVER_WRITE_PREFIX, message.as_str())
                },
                CommandOutcome::Exited { success } => {
                    self.stage = SetStage::WriteEnable;
                    self.server_ok = *success;
                    enable(true)
                },
            },
            SetStage::WriteEnable => match outcome {
                CommandOutcome::SpawnFailed { message } => {
                    self.stage = SetStage::Done;
                    fail_with(ENABLE_WRITE_PREFIX, message.as_str())
                },
                CommandOutcome::Exited { success } => {
                    if self.server_ok && *success {
                        self.stage = SetStage::Notify;
                        ProxyStep::NotifyWindows
                    } else {
                        self.stage = SetStage::Rollback;
                        enable(false)
                    }
                },
            },
            _ => {
                self.stage = SetStage::Done;
                fail(ROLLED_BACK_MESSAGE)
            },
        }
    }

    /// The last step, once Windows has been told of the change.
    pub fn after_notification(&mut self) -> (step: ProxyStep)
        requires
            old(self)@.stage == SetStage::Notify,
        ensures
            final(self)@ == (SetModel { stage: SetStage::Done, ..old(self)@ }),
            step@ == StepSpec::Finish(Ok(())),
    {
        self.stage = SetStage::Done;
        ProxyStep::Finish(Ok(()))
    }
}

// ---------------------------------------------------------------------------
// Clearing the proxy
// ---------------------------------------------------------------------------

/// Where the procedure that clears the proxy stands.
#[derive(PartialEq, Eq, Structural, Clone, Copy, Debug)]
pub enum ClearStage {
    /// Turning the proxy off.
    DisableProxy,
    /// Deleting the proxy address.
    DeleteServer,
    /// Deleting the bypass list.
    DeleteOverride,
    /// Flushing the DNS cache.
    FlushDns,
    /// Waiting for Windows to be told.
    Notify,
    /// Over.
    Done,
}

/// The procedure that turns the system proxy off and removes its settings.
pub struct ClearProxyJob {
    stage: ClearStage,
}

impl View for ClearProxyJob {
    type V = ClearStage;

    closed spec fn view(&self) -> ClearStage {
        self.stage
    }
}

/// `ipconfig /flushdns`, with its output discarded.
pub open spec fn flush_dns_step() -> StepSpec {
    StepSpec::Run { program: IPCONFIG_PROGRAM@, args: seq!["/flushdns"@], streams: StreamMode::Discard }
}

/// The first step of clearing: turn the proxy off.
pub open spec fn clear_start() -> (ClearStage, StepSpec) {
    (ClearStage::DisableProxy, enable_step(false))
}

/// The step after a command of the clearing procedure went as `outcome`.
pub open spec fn clear_after_command(stage: ClearStage, outcome: OutcomeSpec) -> (ClearStage, StepSpec) {
    match stage {
        ClearStage::DisableProxy => match outcome {
            OutcomeSpec::SpawnFailed(e) => (ClearStage::Done, StepSpec::Finish(Err(e))),
            OutcomeSpec::Exited(false) => (ClearStage::Done, StepSpec::Finish(Err(CLEAR_FAILED_MESSAGE@))),
            OutcomeSpec::Exited(true) => (
                ClearStage::DeleteServer,
                reg_step(reg_delete_args("ProxyServer"@), StreamMode::Discard),
            ),
        },
        ClearStage::DeleteServer => (
            ClearStage::DeleteOverride,
            reg_step(reg_delete_args("ProxyOverride"@), StreamMode::Discard),
        ),
        ClearStage::DeleteOverride => (ClearStage::FlushDns, flush_dns_step()),
        _ => (ClearStage::Notify, StepSpec::NotifyWindows),
    }
}

/// Whether the clearing procedure waits for the outcome of a command.
pub open spec fn clear_awaits_command(stage: ClearStage) -> bool {
    match stage {
        ClearStage::Notify | ClearStage::Done => false,
        _ => true,
    }
}

/// Starts turning the system proxy off.
pub fn start_clear_proxy() -> (r: (ClearProxyJob, ProxyStep))
    ensures
        (r.0@, r.1@) == clear_start(),
        r.1@ is Run ==> clear_awaits_command(r.0@),
        r.1@ is NotifyWindows ==> r.0@ == ClearStage::Notify,
{
    (ClearProxyJob { stage: ClearStage::DisableProxy }, enable(false))
}

impl ClearProxyJob {
    /// Whether the procedure waits for the outcome of a command.
    pub fn awaits_command(&self) -> (b: bool)
        ensures
            b == clear_awaits_command(self@),
    {
        match self.stage {
            ClearStage::Notify | ClearStage::Done => false,
            _ => true,
        }
    }

    /// Whether the procedure waits for Windows to be told of the change.
    pub fn awaits_notification(&self) -> (b: bool)
        ensures
            b == (self@ == ClearStage::Notify),
    {
        self.stage == ClearStage::Notify
    }

    /// The next step, once the last command went as `outcome`.
    pub fn after_command(&mut self, outcome: &CommandOutcome) -> (step: ProxyStep)
        requires
            clear_awaits_command(old(self)@),
        ensures
            (final(self)@, step@) == clear_after_command(old(self)@, outcome@),
            step@ is Run ==> clear_awaits_command(final(self)@),
            step@ is NotifyWindows ==> final(self)@ == ClearStage::Notify,
    {
        match self.stage {
            ClearStage::DisableProxy => match outcome {
                CommandOutcome::SpawnFailed { message } => {
                    self.stage = ClearStage::Done;
                    ProxyStep::Finish(Err(text(message.as_str())))
                },
                CommandOutcome::Exited { success } => {
                    if *success {
                        self.stage = ClearStage::DeleteServer;
                        reg_delete("ProxyServer")
                    } else {
                        self.stage = ClearStage::Done;
                        fail(CLEAR_FAILED_MESSAGE)
                    }
                },
            },
            ClearStage::DeleteServer => {
                self.stage = ClearStage::DeleteOverride;
                reg_delete("ProxyOverride")
            },
            ClearStage::DeleteOverride => {
                self.stage = ClearStage::FlushDns;
                let mut args: Vec<String> = Vec::new();
                args.push(text("/flushdns"));
                assert(args@.map_values(|a: String| a@) =~= seq!["/flushdns"@]);
                ProxyStep::Run(
                    SystemCommand {
                        program: text(IPCONFIG_PROGRAM),
                        args,
                        streams: StreamMode::Discard,
                    },
                )
            },
            _ => {
                self.stage = ClearStage::Notify;
                ProxyStep::NotifyWindows
            },
        }
    }

    /// The last step, once Windows has been told of the change.
    pub fn after_notification(&mut self) -> (step: ProxyStep)
        requires
            old(self)@ == ClearStage::Notify,
        ensures
            final(self)@ == ClearStage::Done,
            step@ == StepSpec::Finish(Ok(())),
    {
        self.stage = ClearStage::Done;
        ProxyStep::Finish(Ok(()))
    }
}

// ---------------------------------------------------------------------------
// Whole runs
// ---------------------------------------------------------------------------

/// The steps that setting the proxy takes from `step` on, when its commands
/// go as `outs` in turn (and Windows is told when asked).
pub open spec fn set_steps(m: SetModel, step: StepSpec, outs: Seq<OutcomeSpec>) -> Seq<StepSpec>
    decreases outs.len(),
{
    match step {
        StepSpec::Run { .. } => if outs.len() == 0 {
            seq![step]
        } else {
            let (m2, s2) = set_after_command(m, outs[0]);
            seq![step] + set_steps(m2, s2, outs.drop_first())
        },
        StepSpec::NotifyWindows => seq![step, StepSpec::Finish(Ok(()))],
        StepSpec::Finish(_) => seq![step],
    }
}

/// The steps of setting the proxy to `port` when its commands go as `outs`.
pub open spec fn set_proxy_steps(port: u16, outs: Seq<OutcomeSpec>) -> Seq<StepSpec> {
    set_steps(set_start(port).0, set_start(port).1, outs)
}

/// The steps that clearing the proxy takes from `step` on, when its
/// commands go as `outs` in turn.
pub open spec fn clear_steps(stage: ClearStage, step: StepSpec, outs: Seq<OutcomeSpec>) -> Seq<
    StepSpec,
>
    decreases outs.len(),
{
    match step {
        StepSpec::Run { .. } => if outs.len() == 0 {
            seq![step]
        } else {
            let (s2, st2) = clear_after_command(stage, outs[0]);
            seq![step] + clear_steps(s2, st2, outs.drop_first())
        },
        StepSpec::NotifyWindows => seq![step, StepSpec::Finish(Ok(()))],
        StepSpec::Finish(_) => seq![step],
    }
}

/// The steps of clearing the proxy when its commands go as `outs`.
pub open spec fn clear_proxy_steps(outs: Seq<OutcomeSpec>) -> Seq<StepSpec> {
    clear_steps(clear_start().0, clear_start().1, outs)
}

/// A port below 1024 is refused before any command runs.
pub proof fn low_port_is_refused(port: u16, outs: Seq<OutcomeSpec>)
    requires
        port < MIN_PROXY_PORT,
    ensures
        set_proxy_steps(port, outs) == seq![StepSpec::Finish(Err(INVALID_PORT_MESSAGE@))],
{
}

/// When the key can be reached and both writes succeed, the procedure
/// probes the key, writes the bypass list, the address `127.0.0.1:<port>`
/// and the switch, tells Windows, and succeeds (whatever became of the
/// bypass list).
pub proof fn set_proxy_success_run(port: u16, outs: Seq<OutcomeSpec>)
    requires
        port >= MIN_PROXY_PORT,
        outs.len() >= 4,
        outs[0] == OutcomeSpec::Exited(true),
        outs[2] == OutcomeSpec::Exited(true),
        outs[3] == OutcomeSpec::Exited(true),
    ensures
        set_proxy_steps(port, outs) == seq![
            reg_step(reg_query_args(), StreamMode::Capture),
            reg_step(reg_add_args("ProxyOverride"@, "REG_SZ"@, "<local>"@), StreamMode::Inherit),
            reg_step(
                reg_add_args("ProxyServer"@, "REG_SZ"@, local_proxy_address(port)),
                StreamMode::Inherit,
            ),
            enable_step(true),
            StepSpec::NotifyWindows,
            StepSpec::Finish(Ok(())),
        ],
{
    let (m0, s0) = set_start(port);
    let (m1, s1) = set_after_command(m0, outs[0]);
    let (m2, s2) = set_after_command(m1, outs[1]);
    let (m3, s3) = set_after_command(m2, outs[2]);
    let (m4, s4) = set_after_command(m3, outs[3]);
    assert(s4 == StepSpec::NotifyWindows);
    let o1 = outs.drop_first();
    let o2 = o1.drop_first();
    let o3 = o2.drop_first();
    assert(set_steps(m4, s4, o3.drop_first()) == seq![s4, StepSpec::Finish(Ok(()))]);
    assert(set_steps(m3, s3, o3) == seq![s3] + seq![s4, StepSpec::Finish(Ok(()))]);
    assert(set_steps(m2, s2, o2) == seq![s2] + set_steps(m3, s3, o3));
    assert(set_steps(m1, s1, o1) == seq![s1] + set_steps(m2, s2, o2));
    assert(set_steps(m0, s0, outs) == seq![s0] + set_steps(m1, s1, o1));
}

/// When a write of the proxy address or of the switch fails, the switch is
/// turned off again and the procedure reports the rollback.
pub proof fn failed_write_is_rolled_back(port: u16, outs: Seq<OutcomeSpec>, server_ok: bool, enable_ok: bool)
    requires
        port >= MIN_PROXY_PORT,
        outs.len() >= 5,
        outs[0] == OutcomeSpec::Exited(true),
        outs[2] == OutcomeSpec::Exited(server_ok),
        outs[3] == OutcomeSpec::Exited(enable_ok),
        !(server_ok && enable_ok),
    ensures
        set_proxy_steps(port, outs) == seq![
            reg_step(reg_query_args(), StreamMode::Capture),
            reg_step(reg_add_args("ProxyOverride"@, "REG_SZ"@, "<local>"@), StreamMode::Inherit),
            reg_step(
                reg_add_args("ProxyServer"@, "REG_SZ"@, local_proxy_address(port)),
                StreamMode::Inherit,
            ),
            enable_step(true),
            enable_step(false),
            StepSpec::Finish(Err(ROLLED_BACK_MESSAGE@)),
        ],
{
    let (m0, s0) = set_start(port);
    let (m1, s1) = set_after_command(m0, outs[0]);
    let (m2, s2) = set_after_command(m1, outs[1]);
    let (m3, s3) = set_after_command(m2, outs[2]);
    let (m4, s4) = set_after_command(m3, outs[3]);
    let (m5, s5) = set_after_command(m4, outs[4]);
    assert(s4 == enable_step(false));
    let o1 = outs.drop_first();
    let o2 = o1.drop_first();
    let o3 = o2.drop_first();
    let o4 = o3.drop_first();
    assert(set_steps(m5, s5, o4.drop_first()) == seq![s5]);
    assert(set_steps(m4, s4, o4) == seq![s4] + seq![s5]);
    assert(set_steps(m3, s3, o3) == seq![s3] + set_steps(m4, s4, o4));
    assert(set_steps(m2, s2, o2) == seq![s2] + set_steps(m3, s3, o3));
    assert(set_steps(m1, s1, o1) == seq![s1] + set_steps(m2, s2, o2));
    assert(set_steps(m0, s0, outs) == seq![s0] + set_steps(m1, s1, o1));
}

/// The procedure succeeds exactly when the port is allowed, the key can be
/// reached, and both the address and the switch are written.
pub proof fn set_proxy_succeeds_iff(port: u16, outs: Seq<OutcomeSpec>)
    ensures
        set_proxy_steps(port, outs).last() == StepSpec::Finish(Ok(())) <==> port >= MIN_PROXY_PORT
            && outs.len() >= 4 && outs[0] == OutcomeSpec::Exited(true) && outs[2]
            == OutcomeSpec::Exited(true) && outs[3] == OutcomeSpec::Exited(true),
{
    if port < MIN_PROXY_PORT {
        return;
    }
    let (m0, s0) = set_start(port);
    if outs.len() == 0 {
        assert(set_steps(m0, s0, outs) == seq![s0]);
        return;
    }
    let o1 = outs.drop_first();
    let (m1, s1) = set_after_command(m0, outs[0]);
    assert(set_steps(m0, s0, outs) == seq![s0] + set_steps(m1, s1, o1));
    if outs[0] != OutcomeSpec::Exited(true) {
        assert(set_steps(m1, s1, o1) == seq![s1]);
        return;
    }
    if o1.len() == 0 {
        assert(set_steps(m1, s1, o1) == seq![s1]);
        return;
    }
    let o2 = o1.drop_first();
    let (m2, s2) = set_after_command(m1, o1[0]);
    assert(set_steps(m1, s1, o1) == seq![s1] + set_steps(m2, s2, o2));
    if o2.len() == 0 {
        assert(set_steps(m2, s2, o2) == seq![s2]);
        return;
    }
    let o3 = o2.drop_first();
    let (m3, s3) = set_after_command(m2, o2[0]);
    assert(set_steps(m2, s2, o2) == seq![s2] + set_steps(m3, s3, o3));
    if outs[2] is SpawnFailed {
        assert(set_steps(m3, s3, o3) == seq![s3]);
        return;
    }
    if o3.len() == 0 {
        assert(set_steps(m3, s3, o3) == seq![s3]);
        return;
    }
    let o4 = o3.drop_first();
    let (m4, s4) = set_after_command(m3, o3[0]);
    assert(set_steps(m3, s3, o3) == seq![s3] + set_steps(m4, s4, o4));
    if outs[3] is SpawnFailed {
        assert(set_steps(m4, s4, o4) == seq![s4]);
        return;
    }
    if s4 == StepSpec::NotifyWindows {
        assert(set_steps(m4, s4, o4) == seq![s4, StepSpec::Finish(Ok(()))]);
        return;
    }
    if o4.len() == 0 {
        assert(set_steps(m4, s4, o4) == seq![s4]);
        return;
    }
    let (m5, s5) = set_after_command(m4, o4[0]);
    assert(set_steps(m4, s4, o4) == seq![s4] + set_steps(m5, s5, o4.drop_first()));
    assert(set_steps(m5, s5, o4.drop_first()) == seq![s5]);
}

/// Clearing turns the proxy off, deletes the address and the bypass list,
/// flushes the DNS cache, tells Windows and succeeds, as soon as turning
/// the proxy off succeeded (whatever became of the other commands).
pub proof fn clear_proxy_success_run(outs: Seq<OutcomeSpec>)
    requires
        outs.len() >= 4,
        outs[0] == OutcomeSpec::Exited(true),
    ensures
        clear_proxy_steps(outs) == seq![
            enable_step(false),
            reg_step(reg_delete_args("ProxyServer"@), StreamMode::Discard),
            reg_step(reg_delete_args("ProxyOverride"@), StreamMode::Discard),
            flush_dns_step(),
            StepSpec::NotifyWindows,
            StepSpec::Finish(Ok(())),
        ],
{
    let (c0, s0) = clear_start();
    let (c1, s1) = clear_after_command(c0, outs[0]);
    let (c2, s2) = clear_after_command(c1, outs[1]);
    let (c3, s3) = clear_after_command(c2, outs[2]);
    let (c4, s4) = clear_after_command(c3, outs[3]);
    let o1 = outs.drop_first();
    let o2 = o1.drop_first();
    let o3 = o2.drop_first();
    assert(clear_steps(c4, s4, o3.drop_first()) == seq![s4, StepSpec::Finish(Ok(()))]);
    assert(clear_steps(c3, s3, o3) == seq![s3] + seq![s4, StepSpec::Finish(Ok(()))]);
    assert(clear_steps(c2, s2, o2) == seq![s2] + clear_steps(c3, s3, o3));
    assert(clear_steps(c1, s1, o1) == seq![s1] + clear_steps(c2, s2, o2));
    assert(clear_steps(c0, s0, outs) == seq![s0] + clear_steps(c1, s1, o1));
}

/// When turning the proxy off fails, nothing else runs and the failure is
/// reported.
pub proof fn clear_proxy_stops_on_failed_disable(outs: Seq<OutcomeSpec>)
    requires
        outs.len() >= 1,
        outs[0] != OutcomeSpec::Exited(true),
    ensures
        clear_proxy_steps(outs).len() == 2,
        clear_proxy_steps(outs)[0] == enable_step(false),
        clear_proxy_steps(outs)[1] == match outs[0] {
            OutcomeSpec::SpawnFailed(e) => StepSpec::Finish(Err(e)),
            _ => StepSpec::Finish(Err(CLEAR_FAILED_MESSAGE@)),
        },
{
    let (c0, s0) = clear_start();
    let (c1, s1) = clear_after_command(c0, outs[0]);
    assert(clear_steps(c1, s1, outs.drop_first()) == seq![s1]);
    assert(clear_steps(c0, s0, outs) == seq![s0] + seq![s1]);
}

/// Once the key can be reached, the third step writes `ProxyServer` with the
/// data `127.0.0.1:` followed by the decimal digits of the requested port,
/// which read back as that port.
pub proof fn proxy_server_write_names_port(port: u16, outs: Seq<OutcomeSpec>)
    requires
        port >= MIN_PROXY_PORT,
        outs.len() >= 2,
        outs[0] == OutcomeSpec::Exited(true),
    ensures
        set_proxy_steps(port, outs).len() > 2,
        set_proxy_steps(port, outs)[2] matches StepSpec::Run { program, args, streams } && program
            == REG_PROGRAM@ && args.len() == 9 && args[1] == INTERNET_SETTINGS_KEY@ && args[3]
            == "ProxyServer"@ && args[7].len() > 10 && args[7].take(10) == "127.0.0.1:"@ && (forall|
            i: int,
        |
            10 <= i < args[7].len() ==> is_digit(#[trigger] args[7][i])) && digits_value(
            args[7].skip(10),
        ) == port as nat,
{
    let (m0, s0) = set_start(port);
    let (m1, s1) = set_after_command(m0, outs[0]);
    let (m2, s2) = set_after_command(m1, outs[1]);
    let o1 = outs.drop_first();
    let o2 = o1.drop_first();
    assert(set_steps(m0, s0, outs) == seq![s0] + set_steps(m1, s1, o1));
    assert(set_steps(m1, s1, o1) == seq![s1] + set_steps(m2, s2, o2));
    assert(set_steps(m2, s2, o2)[0] == s2);
    assert(set_proxy_steps(port, outs)[2] == s2);
    reveal_strlit("127.0.0.1:");
    let data = local_proxy_address(port);
    decimal_reads_back(port as nat);
    assert(data.take(10) =~= "127.0.0.1:"@);
    assert(data.skip(10) =~= decimal(port as nat));
    assert forall|i: int| 10 <= i < data.len() implies is_digit(#[trigger] data[i]) by {
        assert(data[i] == decimal(port as nat)[i - 10]);
    }
}

} // verus!

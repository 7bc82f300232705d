//! Startup order and fail-fast supervision as a state machine: the caller
//! performs the step that the current phase names, reports how it went, and
//! the machine says what comes next, up to the process's exit status.
use vstd::prelude::*;
use crate::breaker::{capacity_limit, limit_spec};

verus! {

/// A network listener, in the order in which they are bound.
#[derive(Debug, Clone, Copy, PartialEq, Eq, Structural)]
pub enum ListenerKind {
    /// WAL ingestion.
    Wal,
    /// WAL ingestion restricted to tenant-scoped tokens.
    WalTenantOnly,
    /// Administrative HTTP.
    Http,
    /// Administrative HTTPS.
    Https,
}

/// A long-running subsystem task. None is expected ever to return.
#[derive(Debug, Clone, Copy, PartialEq, Eq, Structural)]
pub enum TaskKind {
    WalService,
    WalServiceTenantOnly,
    Housekeeping,
    DiskWatcher,
    Http,
    Https,
    Broker,
    MetricsCollection,
}

/// A termination signal.
#[derive(Debug, Clone, Copy, PartialEq, Eq, Structural)]
pub enum Signal {
    Quit,
    Interrupt,
    Terminate,
}

/// A bootstrap step, in the order in which they run.
#[derive(Debug, Clone, Copy, PartialEq, Eq, Structural)]
pub enum Step {
    ResolveIdentity,
    ProbeCapacity,
    Bind(ListenerKind),
    LoadTls,
    LoadRegistry,
    PullFromPeers,
    SpawnTasks,
}

/// Why the process ends.
#[derive(Debug, Clone, Copy, PartialEq, Eq, Structural)]
pub enum ExitCause {
    /// A bootstrap step failed.
    Bootstrap(Step),
    /// A supervised task completed, with or without an error of its own.
    TaskCompleted(TaskKind),
    /// A termination signal arrived.
    Signal(Signal),
}

/// Where the node stands.
#[derive(Debug, Clone, Copy, PartialEq, Eq, Structural)]
pub enum Phase {
    /// Bootstrapping; the step named is the one to perform now.
    Starting(Step),
    /// Every subsystem task runs; waiting for the first task to end or for a
    /// signal.
    Running,
    /// The process exits.
    Exited(ExitCause),
}

/// What happened to the pending step, or while running.
#[derive(Debug, Clone, Copy, PartialEq, Eq, Structural)]
pub enum Event {
    /// The pending step succeeded.
    Done,
    /// The data directory's filesystem holds this many bytes.
    CapacityProbed(u64),
    /// The timelines were read from disk; whether none was found.
    RegistryLoaded { empty: bool },
    /// The pending step failed.
    Failed,
    /// A supervised task ended.
    TaskCompleted(TaskKind),
    /// A termination signal arrived.
    SignalReceived(Signal),
}

/// What the configuration decides about startup.
#[derive(Debug, Clone, Copy, PartialEq, Eq, Structural)]
pub struct StartupConfig {
    /// A tenant-scoped WAL listener is configured.
    pub tenant_only_listener: bool,
    /// An HTTPS administrative listener is configured.
    pub https_listener: bool,
    /// The WAL listeners accept TLS.
    pub tls_wal_service: bool,
    /// An empty node pulls its timelines from peers before serving.
    pub peer_recovery: bool,
    /// The disk usage ratio in parts per billion; zero disables the breaker.
    pub disk_ratio: u64,
    /// Metrics are collected eagerly by a task of their own.
    pub force_metric_collection: bool,
}

/// The process exit status for a cause: zero after a signal, one otherwise.
pub open spec fn exit_code_spec(cause: ExitCause) -> i32 {
    match cause {
        ExitCause::Signal(_) => 0,
        _ => 1,
    }
}

/// The name under which a task's end is reported.
pub open spec fn task_name_spec(task: TaskKind) -> Seq<char> {
    match task {
        TaskKind::WalService => "WAL service main"@,
        TaskKind::WalServiceTenantOnly => "WAL service tenant only main"@,
        TaskKind::Housekeeping => "Timeline map housekeeping"@,
        TaskKind::DiskWatcher => "Global disk usage watcher"@,
        TaskKind::Http => "HTTP service main"@,
        TaskKind::Https => "HTTPS service main"@,
        TaskKind::Broker => "broker main"@,
        TaskKind::MetricsCollection => "Metrics collection"@,
    }
}

impl TaskKind {
    /// The name under which the end of a task of this kind is reported.
    pub fn name(&self) -> (r: String)
        ensures
            r@ == task_name_spec(*self),
    {
        let s = match self {
            TaskKind::WalService => "WAL service main",
            TaskKind::WalServiceTenantOnly => "WAL service tenant only main",
            TaskKind::Housekeeping => "Timeline map housekeeping",
            TaskKind::DiskWatcher => "Global disk usage watcher",
            TaskKind::Http => "HTTP service main",
            TaskKind::Https => "HTTPS service main",
            TaskKind::Broker => "broker main",
            TaskKind::MetricsCollection => "Metrics collection",
        };
        s.to_owned()
    }
}

impl ExitCause {
    /// The process exit status for this cause.
    pub fn exit_code(&self) -> (r: i32)
        ensures
            r == exit_code_spec(*self),
    {
        match self {
            ExitCause::Signal(_) => 0,
            _ => 1,
        }
    }
}

/// TLS material is needed when HTTPS is served or the WAL listeners take TLS.
pub open spec fn tls_required_spec(cfg: StartupConfig) -> bool {
    cfg.https_listener || cfg.tls_wal_service
}

/// Whether TLS material must be loaded at startup.
pub fn tls_required(cfg: &StartupConfig) -> (r: bool)
    ensures
        r == tls_required_spec(*cfg),
{
    cfg.https_listener || cfg.tls_wal_service
}

/// The step that follows the last listener bind.
pub open spec fn after_binds(cfg: StartupConfig) -> Step {
    if tls_required_spec(cfg) {
        Step::LoadTls
    } else {
        Step::LoadRegistry
    }
}

/// The step after `step` has succeeded, for the steps that report no value.
pub open spec fn step_after(cfg: StartupConfig, step: Step) -> Phase {
    match step {
        Step::ResolveIdentity => Phase::Starting(Step::ProbeCapacity),
        Step::Bind(ListenerKind::Wal) => if cfg.tenant_only_listener {
            Phase::Starting(Step::Bind(ListenerKind::WalTenantOnly))
        } else {
            Phase::Starting(Step::Bind(ListenerKind::Http))
        },
        Step::Bind(ListenerKind::WalTenantOnly) => Phase::Starting(Step::Bind(ListenerKind::Http)),
        Step::Bind(ListenerKind::Http) => if cfg.https_listener {
            Phase::Starting(Step::Bind(ListenerKind::Https))
        } else {
            Phase::Starting(after_binds(cfg))
        },
        Step::Bind(ListenerKind::Https) => Phase::Starting(after_binds(cfg)),
        Step::LoadTls => Phase::Starting(Step::LoadRegistry),
        Step::PullFromPeers => Phase::Starting(Step::SpawnTasks),
        Step::SpawnTasks => Phase::Running,
        _ => Phase::Starting(step),
    }
}

/// The phase after event `ev` in phase `phase`. Events that do not fit the
/// phase leave it as it is; once exited, nothing changes it.
pub open spec fn transition(cfg: StartupConfig, phase: Phase, ev: Event) -> Phase {
    match phase {
        Phase::Starting(step) => match ev {
            Event::Done => step_after(cfg, step),
            Event::CapacityProbed(_) => if step == Step::ProbeCapacity {
                Phase::Starting(Step::Bind(ListenerKind::Wal))
            } else {
                phase
            },
            Event::RegistryLoaded { empty } => if step == Step::LoadRegistry {
                if cfg.peer_recovery && empty {
                    Phase::Starting(Step::PullFromPeers)
                } else {
                    Phase::Starting(Step::SpawnTasks)
                }
            } else {
                phase
            },
            Event::Failed => Phase::Exited(ExitCause::Bootstrap(step)),
            _ => phase,
        },
        Phase::Running => match ev {
            Event::TaskCompleted(t) => Phase::Exited(ExitCause::TaskCompleted(t)),
            Event::SignalReceived(s) => Phase::Exited(ExitCause::Signal(s)),
            _ => phase,
        },
        Phase::Exited(_) => phase,
    }
}

/// The disk limit after event `ev` in phase `phase`: set by the capacity
/// probe, kept otherwise.
pub open spec fn limit_after(cfg: StartupConfig, phase: Phase, limit: u64, ev: Event) -> u64 {
    match (phase, ev) {
        (Phase::Starting(Step::ProbeCapacity), Event::CapacityProbed(c)) => limit_spec(
            cfg.disk_ratio as nat,
            c as nat,
        ) as u64,
        _ => limit,
    }
}

/// `s` followed by `t` when `cond` holds, else `s`.
pub open spec fn push_if(s: Seq<TaskKind>, cond: bool, t: TaskKind) -> Seq<TaskKind> {
    if cond {
        s.push(t)
    } else {
        s
    }
}

/// The subsystem tasks spawned, in order: the WAL service and housekeeping
/// always, the disk watcher when the limit is not zero, the tenant-scoped WAL
/// service, HTTP always, HTTPS, the broker client always, and metrics
/// collection when it is forced.
pub open spec fn task_plan_spec(cfg: StartupConfig, disk_limit: u64) -> Seq<TaskKind> {
    let s0 = seq![TaskKind::WalService, TaskKind::Housekeeping];
    let s1 = push_if(s0, disk_limit > 0, TaskKind::DiskWatcher);
    let s2 = push_if(s1, cfg.tenant_only_listener, TaskKind::WalServiceTenantOnly);
    let s3 = s2.push(TaskKind::Http);
    let s4 = push_if(s3, cfg.https_listener, TaskKind::Https);
    let s5 = s4.push(TaskKind::Broker);
    push_if(s5, cfg.force_metric_collection, TaskKind::MetricsCollection)
}

/// The subsystem tasks to spawn.
pub fn task_plan(cfg: &StartupConfig, disk_limit: u64) -> (r: Vec<TaskKind>)
    ensures
        r@ == task_plan_spec(*cfg, disk_limit),
{
    let mut v: Vec<TaskKind> = Vec::new();
    v.push(TaskKind::WalService);
    v.push(TaskKind::Housekeeping);
    if disk_limit > 0 {
        v.push(TaskKind::DiskWatcher);
    }
    if cfg.tenant_only_listener {
        v.push(TaskKind::WalServiceTenantOnly);
    }
    v.push(TaskKind::Http);
    if cfg.https_listener {
        v.push(TaskKind::Https);
    }
    v.push(TaskKind::Broker);
    if cfg.force_metric_collection {
        v.push(TaskKind::MetricsCollection);
    }
    assert(v@ =~= task_plan_spec(*cfg, disk_limit));
    v
}

/// The startup and supervision state of the node.
#[derive(Debug, Clone, Copy)]
pub struct Supervisor {
    config: StartupConfig,
    phase: Phase,
    disk_limit: u64,
}

impl Supervisor {
    pub closed spec fn spec_config(&self) -> StartupConfig {
        self.config
    }

    pub closed spec fn spec_phase(&self) -> Phase {
        self.phase
    }

    pub closed spec fn spec_disk_limit(&self) -> u64 {
        self.disk_limit
    }

    /// A node about to resolve its identity.
    pub fn new(config: StartupConfig) -> (r: Supervisor)
        ensures
            r.spec_config() == config,
            r.spec_phase() == Phase::Starting(Step::ResolveIdentity),
            r.spec_disk_limit() == 0,
    {
        Supervisor { config, phase: Phase::Starting(Step::ResolveIdentity), disk_limit: 0 }
    }

    pub fn config(&self) -> (r: StartupConfig)
        ensures
            r == self.spec_config(),
    {
        self.config
    }

    /// The current phase: the step to perform, running, or exited.
    pub fn phase(&self) -> (r: Phase)
        ensures
            r == self.spec_phase(),
    {
        self.phase
    }

    /// The disk limit in bytes; zero until the capacity is probed, and zero
    /// when the breaker is disabled.
    pub fn disk_limit(&self) -> (r: u64)
        ensures
            r == self.spec_disk_limit(),
    {
        self.disk_limit
    }

    /// The subsystem tasks to spawn once bootstrap is done.
    pub fn tasks(&self) -> (r: Vec<TaskKind>)
        ensures
            r@ == task_plan_spec(self.spec_config(), self.spec_disk_limit()),
    {
        task_plan(&self.config, self.disk_limit)
    }

    /// The exit status once exited.
    pub fn exit_code(&self) -> (r: Option<i32>)
        ensures
            match self.spec_phase() {
                Phase::Exited(c) => r == Some(exit_code_spec(c)),
                _ => r is None,
            },
    {
        match self.phase {
            Phase::Exited(c) => Some(c.exit_code()),
            _ => None,
        }
    }

    /// Takes event `ev` and returns the new phase.
    pub fn on_event(&mut self, ev: Event) -> (r: Phase)
        ensures
            final(self).spec_config() == old(self).spec_config(),
            final(self).spec_phase() == transition(
                old(self).spec_config(),
                old(self).spec_phase(),
                ev,
            ),
            final(self).spec_disk_limit() == limit_after(
                old(self).spec_config(),
                old(self).spec_phase(),
                old(self).spec_disk_limit(),
                ev,
            ),
            r == final(self).spec_phase(),
    {
        let cfg = self.config;
        let next = match self.phase {
            Phase::Starting(step) => match ev {
                Event::Done => Self::after_step(&cfg, step),
                Event::CapacityProbed(c) => {
                    if step == Step::ProbeCapacity {
                        self.disk_limit = capacity_limit(cfg.disk_ratio, c);
                        Phase::Starting(Step::Bind(ListenerKind::Wal))
                    } else {
                        self.phase
                    }
                },
                Event::RegistryLoaded { empty } => {
                    if step == Step::LoadRegistry {
                        if cfg.peer_recovery && empty {
                            Phase::Starting(Step::PullFromPeers)
                        } else {
                            Phase::Starting(Step::SpawnTasks)
                        }
                    } else {
                        self.phase
                    }
                },
                Event::Failed => Phase::Exited(ExitCause::Bootstrap(step)),
                _ => self.phase,
            },
            Phase::Running => match ev {
                Event::TaskCompleted(t) => Phase::Exited(ExitCause::TaskCompleted(t)),
                Event::SignalReceived(s) => Phase::Exited(ExitCause::Signal(s)),
                _ => self.phase,
            },
            Phase::Exited(_) => self.phase,
        };
        self.phase = next;
        next
    }

    fn after_step(cfg: &StartupConfig, step: Step) -> (r: Phase)
        ensures
            r == step_after(*cfg, step),
    {
        let after_binds = if tls_required(cfg) {
            Step::LoadTls
        } else {
            Step::LoadRegistry
        };
        match step {
            Step::ResolveIdentity => Phase::Starting(Step::ProbeCapacity),
            Step::Bind(ListenerKind::Wal) => if cfg.tenant_only_listener {
                Phase::Starting(Step::Bind(ListenerKind::WalTenantOnly))
            } else {
                Phase::Starting(Step::Bind(ListenerKind::Http))
            },
            Step::Bind(ListenerKind::WalTenantOnly) => Phase::Starting(
                Step::Bind(ListenerKind::Http),
            ),
            Step::Bind(ListenerKind::Http) => if cfg.https_listener {
                Phase::Starting(Step::Bind(ListenerKind::Https))
            } else {
                Phase::Starting(after_binds)
            },
            Step::Bind(ListenerKind::Https) => Phase::Starting(after_binds),
            Step::LoadTls => Phase::Starting(Step::LoadRegistry),
            Step::PullFromPeers => Phase::Starting(Step::SpawnTasks),
            Step::SpawnTasks => Phase::Running,
            _ => Phase::Starting(step),
        }
    }
}

/// While running, the first task to end decides the exit with status one and
/// names that task; a signal that comes first decides it with status zero and
/// names no task. Nothing after that changes the outcome.
pub proof fn lemma_first_end_decides(cfg: StartupConfig, first: Event, later: Event)
    requires
        first is TaskCompleted || first is SignalReceived,
    ensures
        match first {
            Event::TaskCompleted(t) => transition(cfg, Phase::Running, first) == Phase::Exited(
                ExitCause::TaskCompleted(t),
            ) && exit_code_spec(ExitCause::TaskCompleted(t)) == 1,
            Event::SignalReceived(sig) => transition(cfg, Phase::Running, first) == Phase::Exited(
                ExitCause::Signal(sig),
            ) && exit_code_spec(ExitCause::Signal(sig)) == 0,
            _ => true,
        },
        transition(cfg, transition(cfg, Phase::Running, first), later) == transition(
            cfg,
            Phase::Running,
            first,
        ),
{
}

/// A registry that is not empty after loading goes straight to spawning the
/// tasks, whether or not peer recovery is on: peers are never asked.
pub proof fn lemma_populated_skips_pull(cfg: StartupConfig)
    ensures
        transition(cfg, Phase::Starting(Step::LoadRegistry), Event::RegistryLoaded { empty: false })
            == Phase::Starting(Step::SpawnTasks),
{
}

/// The phase after the events `events`, taken in order from `phase`.
pub open spec fn run(cfg: StartupConfig, phase: Phase, events: Seq<Event>) -> Phase
    decreases events.len(),
{
    if events.len() == 0 {
        phase
    } else {
        transition(cfg, run(cfg, phase, events.drop_last()), events.last())
    }
}

/// Once the node has exited, no run of later events changes the phase; in
/// particular a failed identity step ends startup before any listener is
/// bound.
pub proof fn lemma_exit_is_final(cfg: StartupConfig, cause: ExitCause, events: Seq<Event>)
    ensures
        run(cfg, Phase::Exited(cause), events) == Phase::Exited(cause),
        run(cfg, Phase::Starting(Step::ResolveIdentity), seq![Event::Failed].add(events))
            == Phase::Exited(ExitCause::Bootstrap(Step::ResolveIdentity)),
    decreases events.len(),
{
    if events.len() > 0 {
        lemma_exit_is_final(cfg, cause, events.drop_last());
    }
    lemma_run_from_failed_identity(cfg, events);
}

proof fn lemma_run_from_failed_identity(cfg: StartupConfig, events: Seq<Event>)
    ensures
        run(cfg, Phase::Starting(Step::ResolveIdentity), seq![Event::Failed].add(events))
            == Phase::Exited(ExitCause::Bootstrap(Step::ResolveIdentity)),
    decreases events.len(),
{
    let all = seq![Event::Failed].add(events);
    if events.len() == 0 {
        assert(all.drop_last() =~= Seq::<Event>::empty());
        assert(all.last() == Event::Failed);
    } else {
        lemma_run_from_failed_identity(cfg, events.drop_last());
        assert(all.drop_last() =~= seq![Event::Failed].add(events.drop_last()));
        assert(run(cfg, Phase::Starting(Step::ResolveIdentity), all.drop_last()) == Phase::Exited(
            ExitCause::Bootstrap(Step::ResolveIdentity),
        ));
    }
}

} // verus!

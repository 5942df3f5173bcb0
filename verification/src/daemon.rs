//! The background daemon: its requests, when it stops, and how clients reach it.
use vstd::prelude::*;
use vstd::string::*;

use crate::deployment::DeployOptions;
use crate::model::DeploySettings;
use crate::events::LineStyle;
use crate::nix::{views, NodeName, NodeState};
use crate::ssh::{push_str, push_string};
use crate::text::{concat2, concat3, decimal, decimal_seq, owned};

verus! {

/// A request from a client to the daemon.
#[derive(Debug)]
pub enum Request {
    GetState,
    Deploy { nodes: Vec<NodeName>, settings: DeploySettings, parallel: usize },
    Diff { node: NodeName },
    GarbageCollect { nodes: Vec<NodeName>, interval: Option<String> },
}

/// How long the daemon stays idle before it stops, in nanoseconds.
pub const IDLE_LIMIT_NANOS: u128 = 10_000_000_000;

/// Whether the daemon stops: no client is connected, no task runs, and it has
/// been so for more than ten seconds.
pub fn should_exit(connected_clients: usize, active_tasks: usize, idle_nanos: u128) -> (r: bool)
    ensures
        r == (connected_clients == 0 && active_tasks == 0 && idle_nanos > IDLE_LIMIT_NANOS),
{
    connected_clients == 0 && active_tasks == 0 && idle_nanos > IDLE_LIMIT_NANOS
}

/// The deployment options that the dashboard's settings ask for.
pub fn options_from_settings(settings: DeploySettings) -> (r: DeployOptions)
    ensures
        r == (DeployOptions {
            upload_keys: !settings.no_keys,
            substituters_push: !settings.no_substitute,
            gzip: !settings.no_gzip,
            force_replace_unknown_profiles: settings.force_replace_unknown_profiles,
            install_bootloader: settings.install_bootloader,
            reboot: settings.reboot,
            create_gc_roots: settings.keep_result,
            force_build_on_target: if settings.build_on_target { Some(true) } else { None },
        }),
{
    DeployOptions {
        upload_keys: !settings.no_keys,
        substituters_push: !settings.no_substitute,
        gzip: !settings.no_gzip,
        force_replace_unknown_profiles: settings.force_replace_unknown_profiles,
        install_bootloader: settings.install_bootloader,
        reboot: settings.reboot,
        create_gc_roots: settings.keep_result,
        force_build_on_target: if settings.build_on_target { Some(true) } else { None },
    }
}

/// How many nodes activate at once: `parallel`, or all of them for 0.
pub fn apply_limit(parallel: usize, nodes: usize) -> (r: usize)
    ensures
        r == (if parallel == 0 { nodes } else { parallel }),
{
    if parallel == 0 {
        nodes
    } else {
        parallel
    }
}

/// The garbage collection command: delete generations older than `interval`,
/// or all old generations.
pub open spec fn gc_command(interval: Option<Seq<char>>) -> Seq<Seq<char>> {
    match interval {
        Some(i) => seq!["nix-collect-garbage"@, "--delete-older-than"@, i],
        None => seq!["nix-collect-garbage"@, "-d"@],
    }
}

/// The garbage collection command (see [`gc_command`]).
pub fn gc_args(interval: &Option<String>) -> (r: Vec<String>)
    ensures
        views(r@) == gc_command(crate::nix::opt_view(*interval)),
{
    let mut args: Vec<String> = Vec::new();
    push_str(&mut args, "nix-collect-garbage");
    match interval {
        Some(i) => {
            push_str(&mut args, "--delete-older-than");
            push_string(&mut args, owned(i.as_str()));
        },
        None => {
            push_str(&mut args, "-d");
        },
    }
    assert(views(args@) =~= gc_command(crate::nix::opt_view(*interval)));
    args
}

/// What a client does after failing to reach the daemon.
#[derive(Debug, Clone, Copy, PartialEq, Eq, Structural)]
pub enum ConnectStep {
    /// Give up.
    Fail,
    /// Start the daemon, wait half a second and try again.
    StartDaemon,
    /// Wait a fifth of a second and try again.
    Retry,
}

/// The most retries while waiting for a freshly started daemon.
pub const MAX_CONNECT_ATTEMPTS: u32 = 20;

/// The step after failed attempt number `attempts` (from 0). Without autostart
/// the client gives up at once; a daemon that is missing or refuses is started
/// after the first attempt and waited for up to twenty attempts; other errors
/// end the attempts.
pub fn connect_step(autostart: bool, missing_or_refused: bool, attempts: u32) -> (r: ConnectStep)
    ensures
        r == (if !autostart {
            ConnectStep::Fail
        } else if missing_or_refused && attempts == 0 {
            ConnectStep::StartDaemon
        } else if missing_or_refused && attempts < MAX_CONNECT_ATTEMPTS {
            ConnectStep::Retry
        } else {
            ConnectStep::Fail
        }),
{
    if !autostart {
        ConnectStep::Fail
    } else if missing_or_refused && attempts == 0 {
        ConnectStep::StartDaemon
    } else if missing_or_refused && attempts < MAX_CONNECT_ATTEMPTS {
        ConnectStep::Retry
    } else {
        ConnectStep::Fail
    }
}

/// What a client waiting for the daemon's state makes of a reply.
#[derive(Debug, Clone, Copy, PartialEq, Eq, Structural)]
pub enum ReplyKind {
    State,
    Error,
    Other,
    Disconnected,
}

/// What the client does next while waiting for the state.
#[derive(Debug, Clone, Copy, PartialEq, Eq, Structural)]
pub enum StatusStep {
    /// The state arrived.
    Done,
    /// The daemon reported an error.
    DaemonError,
    /// The daemon went away.
    Disconnected,
    /// Too many other replies came first.
    TimedOut,
    /// Wait for the next reply.
    Wait,
}

/// The step on reply number `attempts` (from 0): the state or an error ends the
/// wait, as does the connection's end; other replies are skipped, up to fifty.
pub fn status_step(reply: ReplyKind, attempts: u32) -> (r: StatusStep)
    ensures
        r == match reply {
            ReplyKind::State => StatusStep::Done,
            ReplyKind::Error => StatusStep::DaemonError,
            ReplyKind::Disconnected => StatusStep::Disconnected,
            ReplyKind::Other => if attempts + 1 > 50 { StatusStep::TimedOut } else { StatusStep::Wait },
        },
{
    match reply {
        ReplyKind::State => StatusStep::Done,
        ReplyKind::Error => StatusStep::DaemonError,
        ReplyKind::Disconnected => StatusStep::Disconnected,
        ReplyKind::Other => if attempts >= 50 {
            StatusStep::TimedOut
        } else {
            StatusStep::Wait
        },
    }
}


/// The description of the task that a request starts; reading the state
/// starts none.
pub open spec fn task_text(req: Request) -> Option<Seq<char>> {
    match req {
        Request::GetState => None,
        Request::Deploy { nodes, .. } => Some("Deploying "@ + decimal_seq(nodes@.len()) + " nodes"@),
        Request::Diff { node } => Some("Diffing "@ + node@),
        Request::GarbageCollect { nodes, .. } => Some("Garbage Collect ("@ + decimal_seq(nodes@.len()) + " nodes)"@),
    }
}

/// The description of the task that a request starts (see [`task_text`]).
pub fn task_description(req: &Request) -> (r: Option<String>)
    ensures
        match r {
            Some(t) => task_text(*req) == Some(t@),
            None => task_text(*req) is None,
        },
{
    match req {
        Request::GetState => None,
        Request::Deploy { nodes, .. } => Some(concat3("Deploying ", decimal(nodes.len() as u64).as_str(), " nodes")),
        Request::Diff { node } => Some(concat2("Diffing ", node.as_str())),
        Request::GarbageCollect { nodes, .. } => Some(concat3("Garbage Collect (", decimal(nodes.len() as u64).as_str(), " nodes)")),
    }
}

/// The kinds of task the daemon runs.
#[derive(Clone, Copy, Debug, PartialEq, Eq, Structural)]
pub enum TaskKind {
    Deploy,
    Diff,
    GarbageCollect,
}

/// What the daemon announces when a task ends: a log line for a deployment
/// or a collection, and for a failed diff the failure in place of the diff.
#[derive(Debug)]
pub enum TaskReport {
    Log(String),
    Diff(String),
    Nothing,
}

/// What the daemon announces when a task of `kind` ends with `result`.
pub fn task_report(kind: TaskKind, result: Result<(), &str>) -> (r: TaskReport)
    ensures
        match (kind, result) {
            (TaskKind::Deploy, Ok(())) => r matches TaskReport::Log(m) && m@ == "Deployment completed successfully."@,
            (TaskKind::Deploy, Err(e)) => r matches TaskReport::Log(m) && m@ == "Deployment failed: "@ + e@,
            (TaskKind::GarbageCollect, Ok(())) => r matches TaskReport::Log(m) && m@ == "GC completed."@,
            (TaskKind::GarbageCollect, Err(e)) => r matches TaskReport::Log(m) && m@ == "GC failed: "@ + e@,
            (TaskKind::Diff, Ok(())) => r is Nothing,
            (TaskKind::Diff, Err(e)) => r matches TaskReport::Diff(m) && m@ == "Diff failed: "@ + e@,
        },
{
    match (kind, result) {
        (TaskKind::Deploy, Ok(())) => TaskReport::Log(owned("Deployment completed successfully.")),
        (TaskKind::Deploy, Err(e)) => TaskReport::Log(concat2("Deployment failed: ", e)),
        (TaskKind::GarbageCollect, Ok(())) => TaskReport::Log(owned("GC completed.")),
        (TaskKind::GarbageCollect, Err(e)) => TaskReport::Log(concat2("GC failed: ", e)),
        (TaskKind::Diff, Ok(())) => TaskReport::Nothing,
        (TaskKind::Diff, Err(e)) => TaskReport::Diff(concat2("Diff failed: ", e)),
    }
}


/// What the daemon broadcasts for a progress line of a deployment.
#[derive(Debug)]
pub enum LineEvent {
    /// A node succeeded or failed.
    NodeState(NodeName, NodeState),
    /// A line of a node's log.
    NodeLog(NodeName, String),
    /// A line of the global log.
    Log(String),
}

/// The broadcast for a progress line with `label`, `text` and `style`: a
/// labelled line belongs to the node it names, changing its state where it
/// reports success or failure; an unlabelled line goes to the global log.
pub fn line_event(label: &str, text: &str, style: LineStyle) -> (r: LineEvent)
    ensures
        label@.len() == 0 ==> (r matches LineEvent::Log(m) && m@ == text@),
        label@.len() > 0 ==> match style {
            LineStyle::Success | LineStyle::SuccessNoop => r matches LineEvent::NodeState(n, s) && n@ == label@ && (s matches NodeState::Success(t)
                && t@ == text@),
            LineStyle::Failure => r matches LineEvent::NodeState(n, s) && n@ == label@ && (s matches NodeState::Failed(t) && t@
                == text@),
            LineStyle::Normal => r matches LineEvent::NodeLog(n, t) && n@ == label@ && t@ == text@,
        },
{
    match NodeName::new(owned(label)) {
        Ok(node) => match style {
            LineStyle::Success | LineStyle::SuccessNoop => LineEvent::NodeState(node, NodeState::Success(owned(text))),
            LineStyle::Failure => LineEvent::NodeState(node, NodeState::Failed(owned(text))),
            LineStyle::Normal => LineEvent::NodeLog(node, owned(text)),
        },
        Err(_) => LineEvent::Log(owned(text)),
    }
}

} // verus!

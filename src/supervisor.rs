//! The decisions of the process supervisor: each instance's lifecycle, the
//! network's shutdown, lookups, and the command that starts an instance.
//! The processes themselves are run by the caller, which reports back what
//! happened to them.
use vstd::prelude::*;
use crate::paths::{join, joined};
use crate::planner::InstanceDescriptor;
use crate::text::push_char;

verus! {

/// How a process ended.
#[derive(PartialEq, Eq, Structural, Clone, Copy, Debug)]
pub enum ExitOutcome {
    /// It ended, with its exit code when it has one.
    Exited { code: Option<i32> },
    /// Waiting for it or killing it failed.
    Failed,
}

/// The lifecycle state of an instance.
#[derive(PartialEq, Eq, Structural, Clone, Copy, Debug)]
pub enum NodeStatus {
    /// Asked to start, not spawned yet.
    Starting,
    /// Its process runs.
    Running,
    /// Stopped on request (or never started).
    Stopped(ExitOutcome),
    /// Its process ended without being asked to.
    Crashed(ExitOutcome),
}

/// Which side of the race of a supervising task came first.
#[derive(PartialEq, Eq, Structural, Clone, Copy, Debug)]
pub enum TaskEnd {
    /// The process ended by itself.
    Exited(ExitOutcome),
    /// The stop signal came, and the process was killed.
    Killed(ExitOutcome),
}

/// What `stop` asks of the caller.
#[derive(PartialEq, Eq, Structural, Clone, Copy, Debug)]
pub enum StopAction {
    /// Signal the supervising task to kill the process.
    Kill,
    /// Nothing runs: nothing to do.
    AlreadyStopped,
}

impl NodeStatus {
    /// Whether the instance runs.
    pub fn running(&self) -> (r: bool)
        ensures
            r == (*self == NodeStatus::Running),
    {
        match self {
            NodeStatus::Running => true,
            _ => false,
        }
    }

    /// The status before the first start: stopped, with a clean exit.
    pub open spec fn initial() -> NodeStatus {
        NodeStatus::Stopped(ExitOutcome::Exited { code: Some(0) })
    }

    /// The status before the first start.
    pub fn default() -> (r: Self)
        ensures
            r == NodeStatus::initial(),
    {
        NodeStatus::Stopped(ExitOutcome::Exited { code: Some(0) })
    }

    /// The name of the state.
    pub fn to_string(&self) -> (r: String)
        ensures
            r@ == match *self {
                NodeStatus::Starting => "Starting"@,
                NodeStatus::Running => "Running"@,
                NodeStatus::Stopped(_) => "Stopped"@,
                NodeStatus::Crashed(_) => "Crashed"@,
            },
    {
        match self {
            NodeStatus::Starting => "Starting".to_string(),
            NodeStatus::Running => "Running".to_string(),
            NodeStatus::Stopped(_) => "Stopped".to_string(),
            NodeStatus::Crashed(_) => "Crashed".to_string(),
        }
    }
}

/// The runtime state of one instance, as the supervisor keeps it.
#[derive(Debug)]
pub struct Supervision {
    pub status: NodeStatus,
    /// The process id while a process is recorded, else 0.
    pub process_id: u32,
    /// Counts the starts; a supervising task reports with the number of
    /// the start it watches.
    pub generation: u64,
}

/// The state after a stop: stopped, with no process recorded.
pub open spec fn stopped(s: Supervision) -> Supervision {
    Supervision { status: NodeStatus::initial(), process_id: 0, ..s }
}

/// What a stop asks of the caller: a kill when a process runs or starts.
pub open spec fn stop_action(s: Supervision) -> StopAction {
    if s.status == NodeStatus::Running || s.status == NodeStatus::Starting {
        StopAction::Kill
    } else {
        StopAction::AlreadyStopped
    }
}

/// The state once a process was spawned with id `pid`.
pub open spec fn running_state(s: Supervision, pid: u32) -> Supervision {
    Supervision { status: NodeStatus::Running, process_id: pid, generation: next_generation(s.generation) }
}

/// The state once the supervising task of start `generation` ended: a
/// process that ended by itself crashed, whatever its exit code; one that
/// was killed stopped. A report of an older start changes nothing.
pub open spec fn ended_state(s: Supervision, generation: u64, end: TaskEnd) -> Supervision {
    if generation == s.generation {
        Supervision {
            status: match end {
                TaskEnd::Exited(o) => NodeStatus::Crashed(o),
                TaskEnd::Killed(o) => NodeStatus::Stopped(o),
            },
            process_id: 0,
            generation: s.generation,
        }
    } else {
        s
    }
}

/// Starting an instance and stopping it right away asks for a kill and
/// ends stopped, not crashed, once the killed process is reported.
pub proof fn law_start_then_stop(s: Supervision, pid: u32, outcome: ExitOutcome)
    ensures
        ({
            let started = running_state(s, pid);
            let asked = stopped(started);
            &&& stop_action(started) == StopAction::Kill
            &&& ended_state(asked, started.generation, TaskEnd::Killed(outcome)).status
                == NodeStatus::Stopped(outcome)
            &&& ended_state(asked, started.generation, TaskEnd::Killed(outcome)).process_id == 0
        }),
{
}

/// A process that ends by itself, with any exit code, leaves its instance
/// crashed, which a stop never does.
pub proof fn law_exit_crashes(s: Supervision, pid: u32, outcome: ExitOutcome)
    ensures
        ({
            let started = running_state(s, pid);
            &&& ended_state(started, started.generation, TaskEnd::Exited(outcome)).status
                == NodeStatus::Crashed(outcome)
            &&& !(stopped(started).status is Crashed)
        }),
{
}

/// The number of the start after start `g`, wrapping around.
pub open spec fn next_generation(g: u64) -> u64 {
    if g < u64::MAX {
        (g + 1) as u64
    } else {
        0
    }
}

impl Supervision {
    /// The state of an instance that was never started.
    pub open spec fn initial() -> Supervision {
        Supervision { status: NodeStatus::initial(), process_id: 0, generation: 0 }
    }

    /// An instance that was never started.
    pub fn new() -> (r: Self)
        ensures
            r == Supervision::initial(),
    {
        Supervision { status: NodeStatus::default(), process_id: 0, generation: 0 }
    }

    /// A start is asked for.
    pub fn begin_start(&mut self)
        ensures
            final(self).status == NodeStatus::Starting,
            final(self).process_id == old(self).process_id,
            final(self).generation == old(self).generation,
    {
        self.status = NodeStatus::Starting;
    }

    /// The process was spawned with id `pid`; returns the number of this
    /// start, which its supervising task reports with.
    pub fn spawned(&mut self, pid: u32) -> (r: u64)
        ensures
            *final(self) == running_state(*old(self), pid),
            r == final(self).generation,
    {
        self.status = NodeStatus::Running;
        self.process_id = pid;
        self.generation = if self.generation < u64::MAX {
            self.generation + 1
        } else {
            0
        };
        self.generation
    }

    /// Spawning failed: the instance is as it was before the start.
    pub fn spawn_failed(&mut self, previous: NodeStatus)
        ensures
            final(self).status == previous,
            final(self).process_id == old(self).process_id,
            final(self).generation == old(self).generation,
    {
        self.status = previous;
    }

    /// A stop is asked for. It always succeeds and leaves the instance
    /// stopped with no process recorded; the caller kills the process only
    /// when one runs.
    pub fn stop(&mut self) -> (r: StopAction)
        ensures
            *final(self) == stopped(*old(self)),
            r == stop_action(*old(self)),
    {
        let action = match self.status {
            NodeStatus::Running | NodeStatus::Starting => StopAction::Kill,
            _ => StopAction::AlreadyStopped,
        };
        self.process_id = 0;
        self.status = NodeStatus::default();
        action
    }

    /// The supervising task of start `generation` ended. A process that
    /// ended by itself crashed, whatever its exit code; one that was killed
    /// stopped. A report of an older start changes nothing.
    pub fn task_ended(&mut self, generation: u64, end: TaskEnd)
        ensures
            *final(self) == ended_state(*old(self), generation, end),
    {
        if generation == self.generation {
            self.process_id = 0;
            self.status = match end {
                TaskEnd::Exited(o) => NodeStatus::Crashed(o),
                TaskEnd::Killed(o) => NodeStatus::Stopped(o),
            };
        }
    }
}

/// Stopping an instance that was never started succeeds, asks for no kill,
/// and leaves it stopped.
pub proof fn law_stop_never_started()
    ensures
        stopped(Supervision::initial()).status is Stopped,
        stop_action(Supervision::initial()) == StopAction::AlreadyStopped,
{
}

/// The shutdown phase of a network: running, must shut down, shut down.
#[derive(PartialEq, Eq, Structural, Clone, Copy, Debug)]
pub enum ShutdownPhase {
    Running,
    MustShutDown,
    HasShutDown,
}

/// Whether the network still has to be torn down.
#[derive(Debug)]
pub struct ShutdownState {
    pub phase: ShutdownPhase,
}

impl ShutdownState {
    pub fn new() -> (r: Self)
        ensures
            r.phase == ShutdownPhase::Running,
    {
        ShutdownState { phase: ShutdownPhase::Running }
    }

    /// Claims the teardown: true once, when the network must shut down,
    /// which then counts as shut down.
    pub fn must_shut_down(&mut self) -> (r: bool)
        ensures
            r == (old(self).phase == ShutdownPhase::MustShutDown),
            final(self).phase == if r {
                ShutdownPhase::HasShutDown
            } else {
                old(self).phase
            },
    {
        if self.phase == ShutdownPhase::MustShutDown {
            self.phase = ShutdownPhase::HasShutDown;
            true
        } else {
            false
        }
    }

    /// Marks a running network as having to shut down.
    pub fn set_shut_down(&mut self)
        ensures
            final(self).phase == if old(self).phase == ShutdownPhase::Running {
                ShutdownPhase::MustShutDown
            } else {
                old(self).phase
            },
    {
        if self.phase == ShutdownPhase::Running {
            self.phase = ShutdownPhase::MustShutDown;
        }
    }
}

/// The instances that the last-resort teardown kills: those whose process
/// id is still recorded.
pub fn teardown_targets(process_ids: &Vec<u32>) -> (r: Vec<usize>)
    ensures
        forall|k: int| 0 <= k < r@.len() ==> r@[k] < process_ids@.len() && process_ids@[r@[k] as int] != 0,
        forall|i: int|
            0 <= i < process_ids@.len() && process_ids@[i] != 0 ==> r@.contains(i as usize),
        forall|a: int, b: int| 0 <= a < b < r@.len() ==> r@[a] < r@[b],
{
    let mut r: Vec<usize> = Vec::new();
    let mut i: usize = 0;
    while i < process_ids.len()
        invariant
            i <= process_ids@.len(),
            forall|k: int| 0 <= k < r@.len() ==> r@[k] < i && process_ids@[r@[k] as int] != 0,
            forall|j: int| 0 <= j < i && process_ids@[j] != 0 ==> r@.contains(j as usize),
            forall|a: int, b: int| 0 <= a < b < r@.len() ==> r@[a] < r@[b],
        decreases process_ids@.len() - i,
    {
        if process_ids[i] != 0 {
            let ghost before = r@;
            r.push(i);
            proof {
                assert forall|j: int| 0 <= j <= i && process_ids@[j] != 0 implies r@.contains(
                    j as usize,
                ) by {
                    if j < i {
                        let k = choose|k: int| 0 <= k < before.len() && before[k] == j as usize;
                        assert(r@[k] == j as usize);
                    } else {
                        assert(r@[r@.len() - 1] == i);
                    }
                }
            }
        }
        i = i + 1;
    }
    r
}

/// The first failure among the results of calls made one after another on
/// every instance, when there is one.
pub fn first_error<E>(results: Vec<Result<(), E>>) -> (r: Result<(), E>)
    ensures
        r is Ok <==> forall|i: int| 0 <= i < results@.len() ==> results@[i] is Ok,
        r is Err ==> exists|i: int|
            0 <= i < results@.len() && results@[i] == r && forall|j: int|
                0 <= j < i ==> results@[j] is Ok,
{
    let ghost all = results@;
    let mut rest = results;
    let ghost mut i: int = 0;
    while rest.len() > 0
        invariant
            0 <= i <= all.len(),
            all == results@,
            rest@ == all.subrange(i, all.len() as int),
            forall|j: int| 0 <= j < i ==> all[j] is Ok,
        decreases rest@.len(),
    {
        let first = rest.remove(0);
        proof {
            assert(all[i] == first);
        }
        match first {
            Ok(()) => {},
            Err(e) => {
                proof {
                    assert(all[i] == Err::<(), E>(e));
                }
                return Err(e);
            },
        }
        proof {
            i = i + 1;
        }
    }
    Ok(())
}

/// Why an instance cannot be found.
#[derive(PartialEq, Eq, Clone, Debug)]
pub enum LookupError {
    NodeNameNotFound(String),
    NodeIndexOutOfBounds(usize),
}

/// The place of the first instance called `name`.
pub fn node_by_name(nodes: &Vec<InstanceDescriptor>, name: &str) -> (r: Result<usize, LookupError>)
    ensures
        match r {
            Ok(i) => i < nodes@.len() && nodes@[i as int].name@ == name@ && forall|j: int|
                0 <= j < i ==> nodes@[j].name@ != name@,
            Err(LookupError::NodeNameNotFound(n)) => n@ == name@ && forall|j: int|
                0 <= j < nodes@.len() ==> nodes@[j].name@ != name@,
            Err(_) => false,
        },
{
    let target = name.to_string();
    let mut i: usize = 0;
    while i < nodes.len()
        invariant
            i <= nodes@.len(),
            target@ == name@,
            forall|j: int| 0 <= j < i ==> nodes@[j].name@ != name@,
        decreases nodes@.len() - i,
    {
        if nodes[i].name == target {
            return Ok(i);
        }
        i = i + 1;
    }
    Err(LookupError::NodeNameNotFound(target))
}

/// `index`, when an instance is there.
pub fn node_by_index(nodes: &Vec<InstanceDescriptor>, index: usize) -> (r: Result<usize, LookupError>)
    ensures
        index < nodes@.len() ==> r == Ok::<usize, LookupError>(index),
        index >= nodes@.len() ==> r == Err::<usize, LookupError>(LookupError::NodeIndexOutOfBounds(index)),
{
    if index < nodes.len() {
        Ok(index)
    } else {
        Err(LookupError::NodeIndexOutOfBounds(index))
    }
}

/// The query of the stop/start endpoint: the instance to toggle.
#[derive(Debug)]
pub struct Named {
    pub name: String,
}

/// What toggling an instance does.
#[derive(PartialEq, Eq, Structural, Clone, Copy, Debug)]
pub enum Toggle {
    Stop,
    Start,
}

/// A running instance is stopped, any other is started.
pub fn toggle(status: &NodeStatus) -> (r: Toggle)
    ensures
        r == (if *status == NodeStatus::Running {
            Toggle::Stop
        } else {
            Toggle::Start
        }),
{
    if status.running() {
        Toggle::Stop
    } else {
        Toggle::Start
    }
}

/// The command that runs an instance.
#[derive(Debug)]
pub struct Launch {
    /// The node binary.
    pub program: String,
    pub args: Vec<String>,
    /// The directory it runs in.
    pub current_dir: String,
    /// The whole command line, for error reports.
    pub full_command: String,
}

pub open spec fn binary_name() -> Seq<char> {
    "casper-node"@
}

/// `<artifact_dir>/casper-node validator <data_dir>/config.toml`, run in the
/// instance's directory.
pub fn launch(d: &InstanceDescriptor) -> (r: Launch)
    ensures
        r.program@ == joined(d.artifact_dir@, binary_name()),
        r.args@.len() == 2,
        r.args@[0]@ == "validator"@,
        r.args@[1]@ == joined(d.data_dir@, "config.toml"@),
        r.current_dir@ == d.data_dir@,
        r.full_command@ == r.program@ + seq![' '] + "validator"@ + seq![' '] + r.args@[1]@,
{
    let program = join(d.artifact_dir.as_str(), "casper-node");
    let config = join(d.data_dir.as_str(), "config.toml");
    let mut full_command = program.clone();
    push_char(&mut full_command, ' ');
    full_command.append("validator");
    push_char(&mut full_command, ' ');
    full_command.append(config.as_str());
    let mut args: Vec<String> = Vec::new();
    args.push("validator".to_string());
    args.push(config);
    proof {
        assert(full_command@ =~= program@ + seq![' '] + "validator"@ + seq![' '] + args@[1]@);
    }
    Launch { program, args, current_dir: d.data_dir.clone(), full_command }
}

} // verus!

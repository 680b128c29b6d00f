//! What the init asks the machine to do, one step at a time.

use crate::config;
use crate::text;
use vstd::prelude::*;

verus! {

/// A setting that `nvidia-smi` applies to the GPUs.
#[derive(Debug, Clone, Copy, PartialEq, Eq)]
pub enum Smi {
    /// Lock the memory clocks.
    Lmc,
    /// Lock the GPU clocks.
    Lgc,
    /// Set the power limit.
    Pl,
    /// Set the confidential-compute ready state.
    Srs,
}

/// A step for the machine to perform. Steps are performed in order, and one that
/// fails ends the init.
#[derive(Debug, PartialEq, Eq)]
pub enum Action {
    /// Let a panic power the machine off.
    SetPanicHook,
    /// Mount the file systems.
    MountSetup,
    /// Bring the loopback interface up.
    LoopbackUp,
    /// Set kernel logging up.
    KernlogSetup,
    /// Open the syslog socket and drain it.
    PollSyslog,
    /// Set the clock from the host.
    SyncClock,
    /// Read the settings from the kernel command line.
    ProcessKernelParams,
    /// Detect the mode to run in.
    DetectMode,
    /// Detect the GUID of the port that manages the NVLink fabric.
    DetectPortGuid,
    /// Forbid the loading of kernel modules from here on.
    DisableModuleLoading,
    /// Start the agent and serve its syslog.
    ForkAgent,
    /// Load a kernel module.
    LoadModule(String),
    /// Log what is known of the GPUs, under the given heading.
    LogGpuInitState(String),
    /// Start the IMEX daemon where it is shipped.
    StartImex,
    /// Apply a setting to the GPUs.
    NvidiaSmi(Smi),
    /// Create a directory and its parents.
    CreateDirAll(String),
    /// Copy a file.
    CopyFile { from: String, to: String },
    /// Update keys of a configuration file.
    UpdateConfig { path: String, updates: Vec<(String, String)> },
    /// Set the permission bits of a file.
    SetPermissions { path: String, mode: u32 },
    /// Open a log for the next wait to read.
    OpenLog(String),
    /// Start a daemon in the background and keep track of it by name.
    Spawn { name: String, bin: String, args: Vec<String> },
    /// Run a program to its end.
    Run { bin: String, args: Vec<String> },
    /// Add the mounts of the IMEX configuration to the CDI document.
    InjectImexMounts,
    /// Wait for a line with the marker in the log that was opened last.
    WaitForMarker { marker: String, timeout_secs: u32 },
    /// Wait for a number of new kernel messages with the marker.
    WaitForKmsgCount { marker: String, count: usize, timeout_secs: u32 },
    /// Check that no daemon has failed: these, and the IMEX daemon where it runs.
    HealthChecks(Vec<String>),
}

/// A step with its texts as sequences of characters.
pub enum Step {
    SetPanicHook,
    MountSetup,
    LoopbackUp,
    KernlogSetup,
    PollSyslog,
    SyncClock,
    ProcessKernelParams,
    DetectMode,
    DetectPortGuid,
    DisableModuleLoading,
    ForkAgent,
    LoadModule(Seq<char>),
    LogGpuInitState(Seq<char>),
    StartImex,
    NvidiaSmi(Smi),
    CreateDirAll(Seq<char>),
    CopyFile { from: Seq<char>, to: Seq<char> },
    UpdateConfig { path: Seq<char>, updates: Seq<(Seq<char>, Seq<char>)> },
    SetPermissions { path: Seq<char>, mode: u32 },
    OpenLog(Seq<char>),
    Spawn { name: Seq<char>, bin: Seq<char>, args: Seq<Seq<char>> },
    Run { bin: Seq<char>, args: Seq<Seq<char>> },
    InjectImexMounts,
    WaitForMarker { marker: Seq<char>, timeout_secs: u32 },
    WaitForKmsgCount { marker: Seq<char>, count: usize, timeout_secs: u32 },
    HealthChecks(Seq<Seq<char>>),
}

impl View for Action {
    type V = Step;

    open spec fn view(&self) -> Step {
        match self {
            Action::SetPanicHook => Step::SetPanicHook,
            Action::MountSetup => Step::MountSetup,
            Action::LoopbackUp => Step::LoopbackUp,
            Action::KernlogSetup => Step::KernlogSetup,
            Action::PollSyslog => Step::PollSyslog,
            Action::SyncClock => Step::SyncClock,
            Action::ProcessKernelParams => Step::ProcessKernelParams,
            Action::DetectMode => Step::DetectMode,
            Action::DetectPortGuid => Step::DetectPortGuid,
            Action::DisableModuleLoading => Step::DisableModuleLoading,
            Action::ForkAgent => Step::ForkAgent,
            Action::LoadModule(module) => Step::LoadModule(module@),
            Action::LogGpuInitState(context) => Step::LogGpuInitState(context@),
            Action::StartImex => Step::StartImex,
            Action::NvidiaSmi(setting) => Step::NvidiaSmi(*setting),
            Action::CreateDirAll(path) => Step::CreateDirAll(path@),
            Action::CopyFile { from, to } => Step::CopyFile { from: from@, to: to@ },
            Action::UpdateConfig { path, updates } => Step::UpdateConfig {
                path: path@,
                updates: config::pairs(updates@),
            },
            Action::SetPermissions { path, mode } => Step::SetPermissions {
                path: path@,
                mode: *mode,
            },
            Action::OpenLog(path) => Step::OpenLog(path@),
            Action::Spawn { name, bin, args } => Step::Spawn {
                name: name@,
                bin: bin@,
                args: text::texts(args@),
            },
            Action::Run { bin, args } => Step::Run { bin: bin@, args: text::texts(args@) },
            Action::InjectImexMounts => Step::InjectImexMounts,
            Action::WaitForMarker { marker, timeout_secs } => Step::WaitForMarker {
                marker: marker@,
                timeout_secs: *timeout_secs,
            },
            Action::WaitForKmsgCount { marker, count, timeout_secs } => Step::WaitForKmsgCount {
                marker: marker@,
                count: *count,
                timeout_secs: *timeout_secs,
            },
            Action::HealthChecks(daemons) => Step::HealthChecks(text::texts(daemons@)),
        }
    }
}

/// The steps that a sequence of actions stands for.
pub open spec fn steps(v: Seq<Action>) -> Seq<Step> {
    Seq::new(v.len(), |i: int| v[i]@)
}

/// The names of the daemons that the steps `ss` start, in their order.
pub open spec fn spawned(ss: Seq<Step>) -> Seq<Seq<char>>
    decreases ss.len(),
{
    if ss.len() == 0 {
        seq![]
    } else {
        match ss.last() {
            Step::Spawn { name, .. } => spawned(ss.drop_last()).push(name),
            _ => spawned(ss.drop_last()),
        }
    }
}

/// The daemons of two runs of steps are those of the one and then those of the other.
pub proof fn lemma_spawned_append(a: Seq<Step>, b: Seq<Step>)
    ensures
        spawned(a + b) == spawned(a) + spawned(b),
    decreases b.len(),
{
    if b.len() == 0 {
        assert(a + b == a);
    } else {
        lemma_spawned_append(a, b.drop_last());
        assert((a + b).drop_last() == a + b.drop_last());
        assert((a + b).last() == b.last());
    }
}

/// The daemon of a single step.
pub proof fn lemma_spawned_one(s: Step)
    ensures
        spawned(seq![s]) == match s {
            Step::Spawn { name, .. } => seq![name],
            _ => Seq::<Seq<char>>::empty(),
        },
{
    reveal_with_fuel(spawned, 2);
    assert(seq![s].drop_last() == Seq::<Step>::empty());
}

/// Steps that start no daemon have none.
pub proof fn lemma_spawned_none(ss: Seq<Step>)
    requires
        forall|i: int| 0 <= i < ss.len() ==> !(#[trigger] ss[i] is Spawn),
    ensures
        spawned(ss) == Seq::<Seq<char>>::empty(),
    decreases ss.len(),
{
    if ss.len() > 0 {
        assert(!(ss[ss.len() - 1] is Spawn));
        lemma_spawned_none(ss.drop_last());
    }
}

/// The steps `ss`, and then a check of all daemons, where `daemons` run before.
pub open spec fn checked(daemons: Seq<Seq<char>>, ss: Seq<Step>) -> Seq<Step> {
    ss.push(Step::HealthChecks(daemons + spawned(ss)))
}

/// Each health check among the steps `ss` is of every daemon that was started
/// before it, where `daemons` run before.
pub open spec fn covers(daemons: Seq<Seq<char>>, ss: Seq<Step>) -> bool {
    forall|i: int|
        0 <= i < ss.len() && (#[trigger] ss[i]) is HealthChecks ==> ss[i]->HealthChecks_0
            == daemons + spawned(ss.take(i))
}

/// Health checks that are complete in two runs of steps are complete in both together.
pub proof fn lemma_covers_append(daemons: Seq<Seq<char>>, a: Seq<Step>, b: Seq<Step>)
    requires
        covers(daemons, a),
        covers(daemons + spawned(a), b),
    ensures
        covers(daemons, a + b),
{
    let ss = a + b;
    assert forall|i: int| 0 <= i < ss.len() && (#[trigger] ss[i]) is HealthChecks implies ss[i]->HealthChecks_0
        == daemons + spawned(ss.take(i)) by {
        if i < a.len() {
            assert(ss[i] == a[i]);
            assert(ss.take(i) == a.take(i));
        } else {
            let k = i - a.len();
            assert(ss[i] == b[k]);
            assert(ss.take(i) == a + b.take(k));
            lemma_spawned_append(a, b.take(k));
            assert(daemons + spawned(a) + spawned(b.take(k)) == daemons + (spawned(a) + spawned(
                b.take(k),
            )));
        }
    }
}

/// A final health check of all daemons is complete.
pub proof fn lemma_checked_covers(daemons: Seq<Seq<char>>, ss: Seq<Step>)
    requires
        covers(daemons, ss),
    ensures
        covers(daemons, checked(daemons, ss)),
        spawned(checked(daemons, ss)) == spawned(ss),
{
    let all = checked(daemons, ss);
    assert(all.drop_last() == ss);
    assert forall|i: int| 0 <= i < all.len() && (#[trigger] all[i]) is HealthChecks implies all[i]->HealthChecks_0
        == daemons + spawned(all.take(i)) by {
        assert(all.take(i) == ss.take(i));
        if i < ss.len() {
            assert(all[i] == ss[i]);
        } else {
            assert(ss.take(i) == ss);
        }
    }
}

/// Steps without a health check leave none incomplete.
pub proof fn lemma_covers_trivially(daemons: Seq<Seq<char>>, ss: Seq<Step>)
    requires
        forall|i: int| 0 <= i < ss.len() ==> !(#[trigger] ss[i] is HealthChecks),
    ensures
        covers(daemons, ss),
{
}

/// The daemons that steps start: one more step adds its daemon at the end exactly if it
/// starts one.
pub proof fn law_next_spawned(ss: Seq<Step>, s: Step)
    ensures
        spawned(Seq::<Step>::empty()).len() == 0,
        spawned(ss.push(s)) == if s is Spawn {
            spawned(ss).push(s->name)
        } else {
            spawned(ss)
        },
{
    assert(ss.push(s).drop_last() == ss);
}

/// A step says all that its action says: what is run, written, copied, started and
/// waited for, text by text and in order.
pub proof fn law_step_says_it_all(x: Action)
    ensures
        match x {
            Action::LoadModule(module) => x@ == Step::LoadModule(module@),
            Action::LogGpuInitState(context) => x@ == Step::LogGpuInitState(context@),
            Action::NvidiaSmi(setting) => x@ == Step::NvidiaSmi(setting),
            Action::CreateDirAll(path) => x@ == Step::CreateDirAll(path@),
            Action::CopyFile { from, to } => x@ is CopyFile && x@->from == from@ && x@->to == to@,
            Action::UpdateConfig { path, updates } => {
                &&& x@ is UpdateConfig && x@->UpdateConfig_path == path@
                &&& x@->updates.len() == updates@.len()
                &&& forall|i: int|
                    0 <= i < updates@.len() ==> #[trigger] x@->updates[i] == (
                        updates@[i].0@,
                        updates@[i].1@,
                    )
            },
            Action::SetPermissions { path, mode } => x@ is SetPermissions
                && x@->SetPermissions_path == path@ && x@->mode == mode,
            Action::OpenLog(path) => x@ == Step::OpenLog(path@),
            Action::Spawn { name, bin, args } => {
                &&& x@ is Spawn && x@->name == name@ && x@->Spawn_bin == bin@
                &&& x@->Spawn_args.len() == args@.len()
                &&& forall|i: int|
                    0 <= i < args@.len() ==> #[trigger] x@->Spawn_args[i] == args@[i]@
            },
            Action::Run { bin, args } => {
                &&& x@ is Run && x@->Run_bin == bin@
                &&& x@->Run_args.len() == args@.len()
                &&& forall|i: int|
                    0 <= i < args@.len() ==> #[trigger] x@->Run_args[i] == args@[i]@
            },
            Action::WaitForMarker { marker, timeout_secs } => x@ is WaitForMarker
                && x@->WaitForMarker_marker == marker@ && x@->WaitForMarker_timeout_secs
                == timeout_secs,
            Action::WaitForKmsgCount { marker, count, timeout_secs } => x@ is WaitForKmsgCount
                && x@->WaitForKmsgCount_marker == marker@ && x@->count == count
                && x@->WaitForKmsgCount_timeout_secs == timeout_secs,
            Action::HealthChecks(daemons) => {
                &&& x@ is HealthChecks && x@->HealthChecks_0.len() == daemons@.len()
                &&& forall|i: int|
                    0 <= i < daemons@.len() ==> #[trigger] x@->HealthChecks_0[i] == daemons@[i]@
            },
            Action::SetPanicHook => x@ is SetPanicHook,
            Action::MountSetup => x@ is MountSetup,
            Action::LoopbackUp => x@ is LoopbackUp,
            Action::KernlogSetup => x@ is KernlogSetup,
            Action::PollSyslog => x@ is PollSyslog,
            Action::SyncClock => x@ is SyncClock,
            Action::ProcessKernelParams => x@ is ProcessKernelParams,
            Action::DetectMode => x@ is DetectMode,
            Action::DetectPortGuid => x@ is DetectPortGuid,
            Action::DisableModuleLoading => x@ is DisableModuleLoading,
            Action::ForkAgent => x@ is ForkAgent,
            Action::StartImex => x@ is StartImex,
            Action::InjectImexMounts => x@ is InjectImexMounts,
        },
{
}

} // verus!

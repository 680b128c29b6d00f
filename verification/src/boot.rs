//! The boot: what is done in each mode, and in which order.

use crate::action;
use crate::action::{Action, Smi};
use crate::daemon;
use crate::daemon::{FABRIC_MODE_FULL, FABRIC_MODE_SHARED};
use crate::nvrc::NVRC;
use crate::text;
use crate::text::same_text;
use crate::toolkit;
use crate::toolkit::nvidia_ctk_cdi;
use vstd::prelude::*;

verus! {

/// A boot that goes on when the port that manages the NVLink fabric is known.
#[derive(Debug, Clone, Copy, PartialEq, Eq, Structural)]
pub struct Nvl5Setup {
    /// The fabric mode.
    pub fabric_mode: u8,
    /// How many GPUs join the fabric.
    pub gpu_count: usize,
    /// Whether the GPUs are set up after the fabric.
    pub gpus_follow: bool,
}

/// How far a mode has come.
#[derive(Debug, Clone, Copy, PartialEq, Eq, Structural)]
pub enum Progress {
    /// All its steps are asked for.
    Finished,
    /// The port must be detected first.
    NeedsPortGuid(Nvl5Setup),
}

/// Why the boot cannot go on.
#[derive(Debug, PartialEq, Eq)]
pub enum BootError {
    /// There is no such mode.
    UnknownMode(String),
    /// No device manages the NVLink fabric.
    MissingPortGuid,
}

impl BootError {
    /// The error as text.
    pub open spec fn text(self) -> Seq<char> {
        match self {
            BootError::UnknownMode(mode) => "unknown mode: "@ + mode@,
            BootError::MissingPortGuid => "nvl5 requires SW_MNG IB device with valid port GUID"@,
        }
    }

    /// The message to fail with.
    pub fn message(&self) -> (r: String)
        ensures
            r@ == self.text(),
    {
        let mut r = String::new();
        match self {
            BootError::UnknownMode(mode) => {
                r.append("unknown mode: ");
                r.append(mode.as_str());
            },
            BootError::MissingPortGuid => {
                r.append("nvl5 requires SW_MNG IB device with valid port GUID");
            },
        }
        assert(r@ == self.text());
        r
    }
}

// ---------------------------------------------------------------------------
// Steps
// ---------------------------------------------------------------------------

/// The steps of NVL4 mode, where `daemons` run before.
pub open spec fn nvl4_steps(
    daemons: Seq<Seq<char>>,
    guid: Option<Seq<char>>,
    fabric_mode: u8,
    gpu_count: usize,
) -> Seq<action::Step> {
    action::checked(
        daemons,
        seq![action::Step::LoadModule("nvidia"@)] + daemon::fabricmanager_steps(
            guid,
            fabric_mode,
            "greedy"@,
            gpu_count,
        ),
    )
}

/// The steps of NVL5 mode until the port is known.
pub open spec fn nvl5_probe_steps() -> Seq<action::Step> {
    seq![
        action::Step::LoadModule("ib_umad"@),
        action::Step::LoadModule("mlx5_ib"@),
        action::Step::DetectPortGuid,
    ]
}

/// The steps of NVL5 mode from there on, where `daemons` run before. The subnet
/// manager comes before the fabric manager.
pub open spec fn nvl5_fabric_steps(
    daemons: Seq<Seq<char>>,
    guid: Seq<char>,
    fabric_mode: u8,
    gpu_count: usize,
) -> Seq<action::Step> {
    action::checked(
        daemons,
        action::checked(daemons, daemon::nvlsm_steps(Some(guid), "/sbin/nvlsm"@))
            + daemon::fabricmanager_steps(Some(guid), fabric_mode, "symmetric"@, gpu_count),
    )
}

/// The first steps of GPU mode.
pub open spec fn gpu_load_steps() -> Seq<action::Step> {
    seq![
        action::Step::LoadModule("nvidia"@),
        action::Step::LoadModule("nvidia-uvm"@),
        action::Step::LogGpuInitState("post-modprobe"@),
    ]
}

/// The steps of GPU mode after the fabric, without the last check.
pub open spec fn gpu_service_steps(uvm: Option<bool>, dcgm: Option<bool>) -> Seq<action::Step> {
    daemon::persistenced_ready_steps(uvm) + seq![
        action::Step::NvidiaSmi(Smi::Lmc),
        action::Step::NvidiaSmi(Smi::Lgc),
        action::Step::NvidiaSmi(Smi::Pl),
    ] + daemon::hostengine_steps(dcgm, "/bin/nv-hostengine"@) + daemon::dcgm_exporter_steps(
        dcgm,
        "/bin/dcgm-exporter"@,
    ) + toolkit::ctk_cdi_steps() + seq![action::Step::NvidiaSmi(Smi::Srs)]
}

/// The steps of GPU mode after the fabric, where `daemons` run before.
pub open spec fn gpu_finish_steps(
    daemons: Seq<Seq<char>>,
    uvm: Option<bool>,
    dcgm: Option<bool>,
) -> Seq<action::Step> {
    action::checked(daemons, gpu_service_steps(uvm, dcgm))
}

/// The steps of GPU mode with the NVSwitch generation `nvswitch`, and how far they
/// lead, where `daemons` run before. Without NVSwitches IMEX brings the fabric up.
pub open spec fn gpu_steps(
    daemons: Seq<Seq<char>>,
    uvm: Option<bool>,
    dcgm: Option<bool>,
    guid: Option<Seq<char>>,
    nvswitch: Option<Seq<char>>,
    gpu_count: usize,
) -> (Seq<action::Step>, Progress) {
    if nvswitch == Some("nvl4"@) {
        let fabric = nvl4_steps(daemons, guid, FABRIC_MODE_FULL, gpu_count);
        (
            gpu_load_steps() + fabric + gpu_finish_steps(
                daemons + action::spawned(fabric),
                uvm,
                dcgm,
            ),
            Progress::Finished,
        )
    } else if nvswitch == Some("nvl5"@) {
        (
            gpu_load_steps() + nvl5_probe_steps(),
            Progress::NeedsPortGuid(
                Nvl5Setup { fabric_mode: FABRIC_MODE_FULL, gpu_count, gpus_follow: true },
            ),
        )
    } else {
        (
            gpu_load_steps() + seq![action::Step::StartImex] + gpu_finish_steps(
                daemons,
                uvm,
                dcgm,
            ),
            Progress::Finished,
        )
    }
}

/// The steps that are left when the port with GUID `guid` is known.
pub open spec fn nvl5_resume_steps(
    daemons: Seq<Seq<char>>,
    uvm: Option<bool>,
    dcgm: Option<bool>,
    guid: Seq<char>,
    setup: Nvl5Setup,
) -> Seq<action::Step> {
    let fabric = nvl5_fabric_steps(daemons, guid, setup.fabric_mode, setup.gpu_count);
    if setup.gpus_follow {
        fabric + gpu_finish_steps(daemons + action::spawned(fabric), uvm, dcgm)
    } else {
        fabric
    }
}

/// The steps of the mode `mode`, and how far they lead. `None` if there is no such mode.
pub open spec fn mode_steps(
    mode: Seq<char>,
    daemons: Seq<Seq<char>>,
    uvm: Option<bool>,
    dcgm: Option<bool>,
    guid: Option<Seq<char>>,
    nvswitch: Option<Seq<char>>,
    gpu_count: usize,
) -> Option<(Seq<action::Step>, Progress)> {
    if mode == "cpu"@ {
        Some((seq![], Progress::Finished))
    } else if mode == "gpu"@ {
        Some(gpu_steps(daemons, uvm, dcgm, guid, nvswitch, gpu_count))
    } else if mode == "servicevm-nvl4"@ {
        Some((nvl4_steps(daemons, guid, FABRIC_MODE_SHARED, gpu_count), Progress::Finished))
    } else if mode == "servicevm-nvl5"@ {
        Some(
            (
                nvl5_probe_steps(),
                Progress::NeedsPortGuid(
                    Nvl5Setup { fabric_mode: FABRIC_MODE_SHARED, gpu_count, gpus_follow: false },
                ),
            ),
        )
    } else {
        None
    }
}

/// The steps before the mode is known.
pub open spec fn prologue_steps() -> Seq<action::Step> {
    seq![
        action::Step::SetPanicHook,
        action::Step::MountSetup,
        action::Step::LoopbackUp,
        action::Step::KernlogSetup,
        action::Step::PollSyslog,
        action::Step::SyncClock,
        action::Step::ProcessKernelParams,
        action::Step::DetectMode,
    ]
}

/// The steps after those of the mode.
pub open spec fn epilogue_steps() -> Seq<action::Step> {
    seq![action::Step::DisableModuleLoading, action::Step::ForkAgent]
}

/// The text of an optional string slice.
pub open spec fn option_text(o: Option<&str>) -> Option<Seq<char>> {
    match o {
        Some(s) => Some(s@),
        None => None,
    }
}

// ---------------------------------------------------------------------------
// Modes
// ---------------------------------------------------------------------------

/// NVSwitch NVL4 mode, for HGX H100, H200 and H800 systems: loads the driver and
/// starts the fabric manager.
pub fn mode_nvl4(init: &mut NVRC, fabric_mode: u8, gpu_count: usize)
    ensures
        final(init).asked(
            *old(init),
            nvl4_steps(old(init).daemons(), old(init).guid(), fabric_mode, gpu_count),
        ),
        forall|i: int|
            old(init).pending().len() <= i < final(init).pending().len()
                ==> match #[trigger] final(init).pending()[i] {
                action::Step::UpdateConfig { path, updates } => {
                    &&& updates.contains(("FABRIC_MODE"@, text::decimal(fabric_mode as nat)))
                    &&& fabric_mode != 0 ==> updates.contains(("PARTITION_RAIL_POLICY"@, "greedy"@))
                },
                action::Step::Spawn { name, bin, args } => {
                    &&& name == "nv-fabricmanager"@ ==> match old(init).guid() {
                        Some(g) => args.len() == 4 && args[2] == "-g"@ && args[3] == g,
                        None => !args.contains("-g"@),
                    }
                    &&& name == "nvidia-persistenced"@ ==> (args.contains("--uvm-persistence-mode"@)
                        <==> old(init).uvm_persistence_mode != Some(false))
                },
                _ => true,
            },
{
    let ghost before = *init;
    init.request(Action::LoadModule("nvidia".to_owned()));
    let ghost loaded = *init;
    init.nv_fabricmanager(fabric_mode, "greedy", gpu_count);
    let ghost started = *init;
    init.health_checks();
    proof {
        let a = seq![action::Step::LoadModule("nvidia"@)];
        let b = daemon::fabricmanager_steps(before.guid(), fabric_mode, "greedy"@, gpu_count);
        started.lemma_asked(loaded, before, a, b);
        init.lemma_checked(started, before, a + b);
        let plan = Plan {
            fabric_mode,
            rail_policy: "greedy"@,
            uvm: before.uvm_persistence_mode,
            dcgm: before.dcgm_enabled,
            guid: before.guid(),
            gpu_count,
        };
        lemma_nvl4_fits(before.daemons(), before.guid(), fabric_mode, gpu_count, plan);
        lemma_told(
            before,
            *init,
            nvl4_steps(before.daemons(), before.guid(), fabric_mode, gpu_count),
            plan,
        );
    }
}

/// NVSwitch NVL5 mode, for HGX Bx00 systems, whose fabric CX7 bridges manage: loads
/// the InfiniBand modules and has the bridge's port detected.
pub fn mode_nvl5(init: &mut NVRC, fabric_mode: u8, gpu_count: usize) -> (r: Nvl5Setup)
    ensures
        final(init).asked(*old(init), nvl5_probe_steps()),
        r == (Nvl5Setup { fabric_mode, gpu_count, gpus_follow: false }),
{
    let ghost before = *init;
    init.request(Action::LoadModule("ib_umad".to_owned()));
    let ghost first = *init;
    init.request(Action::LoadModule("mlx5_ib".to_owned()));
    let ghost second = *init;
    init.request(Action::DetectPortGuid);
    proof {
        let all = nvl5_probe_steps();
        second.lemma_asked(first, before, seq![all[0]], seq![all[1]]);
        init.lemma_asked(second, before, seq![all[0]] + seq![all[1]], seq![all[2]]);
        assert(seq![all[0]] + seq![all[1]] + seq![all[2]] == all);
    }
    Nvl5Setup { fabric_mode, gpu_count, gpus_follow: false }
}

/// Starts the subnet manager and then the fabric manager, on the known port.
fn start_nvl5_fabric(init: &mut NVRC, fabric_mode: u8, gpu_count: usize)
    requires
        old(init).port_guid is Some,
    ensures
        final(init).asked(
            *old(init),
            nvl5_fabric_steps(
                old(init).daemons(),
                old(init).guid()->Some_0,
                fabric_mode,
                gpu_count,
            ),
        ),
{
    let ghost before = *init;
    let ghost guid = before.guid();
    init.nv_nvlsm();
    let ghost subnet = *init;
    init.health_checks();
    let ghost healthy = *init;
    init.nv_fabricmanager(fabric_mode, "symmetric", gpu_count);
    let ghost fabric = *init;
    init.health_checks();
    proof {
        let a = daemon::nvlsm_steps(guid, "/sbin/nvlsm"@);
        let b = daemon::fabricmanager_steps(guid, fabric_mode, "symmetric"@, gpu_count);
        let c = action::checked(before.daemons(), a);
        healthy.lemma_checked(subnet, before, a);
        fabric.lemma_asked(healthy, before, c, b);
        init.lemma_checked(fabric, before, c + b);
    }
}

/// Sets the GPUs up once the fabric is.
fn finish_gpu(init: &mut NVRC)
    ensures
        final(init).asked(
            *old(init),
            gpu_finish_steps(
                old(init).daemons(),
                old(init).uvm_persistence_mode,
                old(init).dcgm_enabled,
            ),
        ),
{
    let ghost s0 = *init;
    init.nvidia_persistenced();
    let ghost s1 = *init;
    let mut smi: Vec<Action> = Vec::new();
    smi.push(Action::NvidiaSmi(Smi::Lmc));
    smi.push(Action::NvidiaSmi(Smi::Lgc));
    smi.push(Action::NvidiaSmi(Smi::Pl));
    init.request_all(smi);
    let ghost s2 = *init;
    init.nv_hostengine();
    let ghost s3 = *init;
    init.dcgm_exporter();
    let ghost s4 = *init;
    init.request_all(nvidia_ctk_cdi());
    let ghost s5 = *init;
    init.request(Action::NvidiaSmi(Smi::Srs));
    let ghost s6 = *init;
    init.health_checks();
    proof {
        let a = daemon::persistenced_ready_steps(s0.uvm_persistence_mode);
        let b = seq![
            action::Step::NvidiaSmi(Smi::Lmc),
            action::Step::NvidiaSmi(Smi::Lgc),
            action::Step::NvidiaSmi(Smi::Pl),
        ];
        let c = daemon::hostengine_steps(s0.dcgm_enabled, "/bin/nv-hostengine"@);
        let d = daemon::dcgm_exporter_steps(s0.dcgm_enabled, "/bin/dcgm-exporter"@);
        let e = toolkit::ctk_cdi_steps();
        let f = seq![action::Step::NvidiaSmi(Smi::Srs)];
        assert(action::steps(smi@) == b);
        s2.lemma_asked(s1, s0, a, b);
        s3.lemma_asked(s2, s0, a + b, c);
        s4.lemma_asked(s3, s0, a + b + c, d);
        s5.lemma_asked(s4, s0, a + b + c + d, e);
        s6.lemma_asked(s5, s0, a + b + c + d + e, f);
        init.lemma_checked(s6, s0, a + b + c + d + e + f);
    }
}

/// GPU mode: loads the driver, brings up the fabric where there is one, and starts
/// what workloads need to use the GPUs.
pub fn mode_gpu(init: &mut NVRC, nvswitch: Option<&str>, gpu_count: usize) -> (r: Progress)
    ensures
        final(init).asked(
            *old(init),
            gpu_steps(
                old(init).daemons(),
                old(init).uvm_persistence_mode,
                old(init).dcgm_enabled,
                old(init).guid(),
                option_text(nvswitch),
                gpu_count,
            ).0,
        ),
        r == gpu_steps(
            old(init).daemons(),
            old(init).uvm_persistence_mode,
            old(init).dcgm_enabled,
            old(init).guid(),
            option_text(nvswitch),
            gpu_count,
        ).1,
        forall|i: int|
            old(init).pending().len() <= i < final(init).pending().len()
                ==> match #[trigger] final(init).pending()[i] {
                action::Step::UpdateConfig { path, updates } => {
                    &&& updates.contains(("FABRIC_MODE"@, "0"@))
                    &&& forall|k: int|
                        0 <= k < updates.len() ==> (#[trigger] updates[k]).0
                            != "PARTITION_RAIL_POLICY"@
                },
                action::Step::Spawn { name, bin, args } => {
                    &&& name == "nv-fabricmanager"@ ==> match old(init).guid() {
                        Some(g) => args.len() == 4 && args[2] == "-g"@ && args[3] == g,
                        None => !args.contains("-g"@),
                    }
                    &&& name == "nvidia-persistenced"@ ==> (args.contains("--uvm-persistence-mode"@)
                        <==> old(init).uvm_persistence_mode != Some(false))
                },
                _ => true,
            },
{
    let ghost s0 = *init;
    let mut load: Vec<Action> = Vec::new();
    load.push(Action::LoadModule("nvidia".to_owned()));
    load.push(Action::LoadModule("nvidia-uvm".to_owned()));
    load.push(Action::LogGpuInitState("post-modprobe".to_owned()));
    init.request_all(load);
    let ghost s1 = *init;
    proof {
        assert(action::steps(load@) == gpu_load_steps());
        action::lemma_spawned_none(gpu_load_steps());
        assert(s1.daemons() == s0.daemons());
    }
    let switch: &str = match nvswitch {
        Some(s) => s,
        None => "",
    };
    proof {
        reveal_strlit("");
        reveal_strlit("nvl4");
        reveal_strlit("nvl5");
        assert("nvl4"@[3] == '4');
        assert("nvl5"@[3] == '5');
        assert(""@.len() == 0 && "nvl4"@.len() == 4 && "nvl5"@.len() == 4);
        assert(switch@ == "nvl4"@ <==> option_text(nvswitch) == Some("nvl4"@));
        assert(switch@ == "nvl5"@ <==> option_text(nvswitch) == Some("nvl5"@));
    }
    if same_text(switch, "nvl4") {
        mode_nvl4(init, FABRIC_MODE_FULL, gpu_count);
        let ghost s2 = *init;
        finish_gpu(init);
        proof {
            let fabric = nvl4_steps(s0.daemons(), s0.guid(), FABRIC_MODE_FULL, gpu_count);
            let finish = gpu_finish_steps(
                s2.daemons(),
                s0.uvm_persistence_mode,
                s0.dcgm_enabled,
            );
            s2.lemma_asked(s1, s0, gpu_load_steps(), fabric);
            init.lemma_asked(s2, s0, gpu_load_steps() + fabric, finish);
            lemma_gpu_told(s0, *init, option_text(nvswitch), gpu_count);
        }
        Progress::Finished
    } else if same_text(switch, "nvl5") {
        let setup = mode_nvl5(init, FABRIC_MODE_FULL, gpu_count);
        proof {
            init.lemma_asked(s1, s0, gpu_load_steps(), nvl5_probe_steps());
            lemma_gpu_told(s0, *init, option_text(nvswitch), gpu_count);
        }
        Progress::NeedsPortGuid(
            Nvl5Setup {
                fabric_mode: setup.fabric_mode,
                gpu_count: setup.gpu_count,
                gpus_follow: true,
            },
        )
    } else {
        init.request(Action::StartImex);
        let ghost s2 = *init;
        finish_gpu(init);
        proof {
            let imex = seq![action::Step::StartImex];
            let finish = gpu_finish_steps(
                s0.daemons(),
                s0.uvm_persistence_mode,
                s0.dcgm_enabled,
            );
            action::lemma_spawned_none(imex);
            assert(s2.daemons() == s0.daemons());
            s2.lemma_asked(s1, s0, gpu_load_steps(), imex);
            init.lemma_asked(s2, s0, gpu_load_steps() + imex, finish);
            lemma_gpu_told(s0, *init, option_text(nvswitch), gpu_count);
        }
        Progress::Finished
    }
}

/// Goes on with NVL5 mode when the port was looked for. Without a port the boot fails.
pub fn resume_nvl5(init: &mut NVRC, setup: Nvl5Setup, guid: Option<String>) -> (r: Result<
    (),
    BootError,
>)
    ensures
        match guid {
            None => r == Err::<(), BootError>(BootError::MissingPortGuid) && *final(init) == *old(
                init,
            ),
            Some(g) => r is Ok && final(init).asked(
                (NVRC { port_guid: Some(g), ..*old(init) }),
                nvl5_resume_steps(
                    old(init).daemons(),
                    old(init).uvm_persistence_mode,
                    old(init).dcgm_enabled,
                    g@,
                    setup,
                ),
            ),
        },
        forall|i: int|
            old(init).pending().len() <= i < final(init).pending().len()
                ==> match #[trigger] final(init).pending()[i] {
                action::Step::UpdateConfig { path, updates } => {
                    &&& updates.contains(("FABRIC_MODE"@, text::decimal(setup.fabric_mode as nat)))
                    &&& setup.fabric_mode != 0 ==> updates.contains(
                        ("PARTITION_RAIL_POLICY"@, "symmetric"@),
                    )
                },
                action::Step::Spawn { name, bin, args } => {
                    &&& name == "nv-fabricmanager"@ ==> guid is Some && args.len() == 4 && args[2]
                        == "-g"@ && args[3] == guid->Some_0@
                    &&& name == "nvlsm"@ ==> guid is Some && args.len() == 6 && args[2] == "-g"@
                        && args[3] == guid->Some_0@
                    &&& name == "nvidia-persistenced"@ ==> (args.contains("--uvm-persistence-mode"@)
                        <==> old(init).uvm_persistence_mode != Some(false))
                },
                _ => true,
            },
{
    let guid = match guid {
        Some(guid) => guid,
        None => {
            return Err(BootError::MissingPortGuid);
        },
    };
    init.port_guid = Some(guid);
    let ghost s0 = *init;
    start_nvl5_fabric(init, setup.fabric_mode, setup.gpu_count);
    if setup.gpus_follow {
        let ghost s1 = *init;
        finish_gpu(init);
        proof {
            let fabric = nvl5_fabric_steps(
                s0.daemons(),
                guid@,
                setup.fabric_mode,
                setup.gpu_count,
            );
            let finish = gpu_finish_steps(
                s1.daemons(),
                s0.uvm_persistence_mode,
                s0.dcgm_enabled,
            );
            init.lemma_asked(s1, s0, fabric, finish);
        }
    }
    proof {
        lemma_rest_told(s0, *init, guid@, setup);
    }
    Ok(())
}

/// Does what the detected mode calls for. An unknown mode is an error.
pub fn dispatch(init: &mut NVRC, mode: &str, nvswitch: Option<&str>, gpu_count: usize) -> (r: Result<
    Progress,
    BootError,
>)
    ensures
        match mode_steps(
            mode@,
            old(init).daemons(),
            old(init).uvm_persistence_mode,
            old(init).dcgm_enabled,
            old(init).guid(),
            option_text(nvswitch),
            gpu_count,
        ) {
            Some((steps, progress)) => final(init).asked(*old(init), steps) && r == Ok::<
                Progress,
                BootError,
            >(progress),
            None => *final(init) == *old(init) && match r {
                Err(BootError::UnknownMode(m)) => m@ == mode@,
                _ => false,
            },
        },
        mode@ == "servicevm-nvl5"@ ==> r is Ok && r->Ok_0 is NeedsPortGuid
            && r->Ok_0->NeedsPortGuid_0.fabric_mode == 1,
        forall|i: int|
            old(init).pending().len() <= i < final(init).pending().len()
                ==> match #[trigger] final(init).pending()[i] {
                action::Step::UpdateConfig { path, updates } => {
                    &&& mode@ == "gpu"@ ==> updates.contains(("FABRIC_MODE"@, "0"@))
                    &&& mode@ == "gpu"@ ==> forall|k: int|
                        0 <= k < updates.len() ==> (#[trigger] updates[k]).0
                            != "PARTITION_RAIL_POLICY"@
                    &&& mode@ == "servicevm-nvl4"@ ==> updates.contains(("FABRIC_MODE"@, "1"@))
                        && updates.contains(("PARTITION_RAIL_POLICY"@, "greedy"@))
                },
                action::Step::Spawn { name, bin, args } => {
                    &&& name == "nv-fabricmanager"@ ==> match old(init).guid() {
                        Some(g) => args.len() == 4 && args[2] == "-g"@ && args[3] == g,
                        None => !args.contains("-g"@),
                    }
                    &&& name == "nvidia-persistenced"@ ==> (args.contains("--uvm-persistence-mode"@)
                        <==> old(init).uvm_persistence_mode != Some(false))
                },
                _ => true,
            },
{
    proof {
        lemma_modes_differ();
        daemon::lemma_fabric_mode_texts();
    }
    if same_text(mode, "cpu") {
        proof {
            init.lemma_asked_nothing();
        }
        Ok(Progress::Finished)
    } else if same_text(mode, "gpu") {
        Ok(mode_gpu(init, nvswitch, gpu_count))
    } else if same_text(mode, "servicevm-nvl4") {
        mode_nvl4(init, FABRIC_MODE_SHARED, gpu_count);
        Ok(Progress::Finished)
    } else if same_text(mode, "servicevm-nvl5") {
        let setup = mode_nvl5(init, FABRIC_MODE_SHARED, gpu_count);
        proof {
            let n = old(init).pending().len();
            assert forall|i: int| n <= i < init.pending().len() implies !(
            #[trigger] init.pending()[i] is UpdateConfig) && !(init.pending()[i] is Spawn) by {
                assert(init.pending()[i] == nvl5_probe_steps()[i - n]);
            }
        }
        Ok(Progress::NeedsPortGuid(setup))
    } else {
        Err(BootError::UnknownMode(mode.to_owned()))
    }
}

/// Begins the boot, with what is done before the mode is known. The clock is set
/// before any driver loads.
pub fn begin_boot(init: &mut NVRC)
    ensures
        final(init).asked(*old(init), prologue_steps()),
{
    let mut all: Vec<Action> = Vec::new();
    all.push(Action::SetPanicHook);
    all.push(Action::MountSetup);
    all.push(Action::LoopbackUp);
    all.push(Action::KernlogSetup);
    all.push(Action::PollSyslog);
    all.push(Action::SyncClock);
    all.push(Action::ProcessKernelParams);
    all.push(Action::DetectMode);
    assert(action::steps(all@) == prologue_steps());
    init.request_all(all);
}

/// What is done last: no module can be loaded when the agent starts.
fn epilogue(init: &mut NVRC)
    ensures
        final(init).asked(*old(init), epilogue_steps()),
{
    let mut all: Vec<Action> = Vec::new();
    all.push(Action::DisableModuleLoading);
    all.push(Action::ForkAgent);
    assert(action::steps(all@) == epilogue_steps());
    init.request_all(all);
}

/// Goes on with the boot when the mode is known. Where the mode needs no port, this
/// is the rest of the boot.
pub fn boot_in_mode(
    init: &mut NVRC,
    mode: &str,
    nvswitch: Option<&str>,
    gpu_count: usize,
) -> (r: Result<Progress, BootError>)
    ensures
        match mode_steps(
            mode@,
            old(init).daemons(),
            old(init).uvm_persistence_mode,
            old(init).dcgm_enabled,
            old(init).guid(),
            option_text(nvswitch),
            gpu_count,
        ) {
            Some((ss, progress)) => {
                &&& r == Ok::<Progress, BootError>(progress)
                &&& progress == Progress::Finished ==> final(init).asked(
                    *old(init),
                    ss + epilogue_steps(),
                )
                &&& progress != Progress::Finished ==> final(init).asked(*old(init), ss)
            },
            None => *final(init) == *old(init) && match r {
                Err(BootError::UnknownMode(m)) => m@ == mode@,
                _ => false,
            },
        },
        mode@ == "servicevm-nvl5"@ ==> r is Ok && r->Ok_0 is NeedsPortGuid
            && r->Ok_0->NeedsPortGuid_0.fabric_mode == 1,
        forall|i: int|
            old(init).pending().len() <= i < final(init).pending().len()
                ==> match #[trigger] final(init).pending()[i] {
                action::Step::UpdateConfig { path, updates } => {
                    &&& mode@ == "gpu"@ ==> updates.contains(("FABRIC_MODE"@, "0"@))
                    &&& mode@ == "gpu"@ ==> forall|k: int|
                        0 <= k < updates.len() ==> (#[trigger] updates[k]).0
                            != "PARTITION_RAIL_POLICY"@
                    &&& mode@ == "servicevm-nvl4"@ ==> updates.contains(("FABRIC_MODE"@, "1"@))
                        && updates.contains(("PARTITION_RAIL_POLICY"@, "greedy"@))
                },
                action::Step::Spawn { name, bin, args } => {
                    &&& name == "nv-fabricmanager"@ ==> match old(init).guid() {
                        Some(g) => args.len() == 4 && args[2] == "-g"@ && args[3] == g,
                        None => !args.contains("-g"@),
                    }
                    &&& name == "nvidia-persistenced"@ ==> (args.contains("--uvm-persistence-mode"@)
                        <==> old(init).uvm_persistence_mode != Some(false))
                },
                _ => true,
            },
{
    let ghost s0 = *init;
    let progress = dispatch(init, mode, nvswitch, gpu_count)?;
    if let Progress::Finished = progress {
        let ghost s1 = *init;
        epilogue(init);
        proof {
            let planned = mode_steps(
                mode@,
                s0.daemons(),
                s0.uvm_persistence_mode,
                s0.dcgm_enabled,
                s0.guid(),
                option_text(nvswitch),
                gpu_count,
            );
            init.lemma_asked(s1, s0, planned->Some_0.0, epilogue_steps());
        }
    }
    Ok(progress)
}

/// Does the rest of the boot when the port was looked for. Without a port the boot fails.
pub fn boot_on_port(init: &mut NVRC, setup: Nvl5Setup, guid: Option<String>) -> (r: Result<
    (),
    BootError,
>)
    ensures
        match guid {
            None => r == Err::<(), BootError>(BootError::MissingPortGuid) && *final(init) == *old(
                init,
            ),
            Some(g) => r is Ok && final(init).asked(
                (NVRC { port_guid: Some(g), ..*old(init) }),
                nvl5_resume_steps(
                    old(init).daemons(),
                    old(init).uvm_persistence_mode,
                    old(init).dcgm_enabled,
                    g@,
                    setup,
                ) + epilogue_steps(),
            ),
        },
        forall|i: int|
            old(init).pending().len() <= i < final(init).pending().len()
                ==> match #[trigger] final(init).pending()[i] {
                action::Step::UpdateConfig { path, updates } => {
                    &&& updates.contains(("FABRIC_MODE"@, text::decimal(setup.fabric_mode as nat)))
                    &&& setup.fabric_mode != 0 ==> updates.contains(
                        ("PARTITION_RAIL_POLICY"@, "symmetric"@),
                    )
                },
                action::Step::Spawn { name, bin, args } => {
                    &&& name == "nv-fabricmanager"@ ==> guid is Some && args.len() == 4 && args[2]
                        == "-g"@ && args[3] == guid->Some_0@
                    &&& name == "nvlsm"@ ==> guid is Some && args.len() == 6 && args[2] == "-g"@
                        && args[3] == guid->Some_0@
                    &&& name == "nvidia-persistenced"@ ==> (args.contains("--uvm-persistence-mode"@)
                        <==> old(init).uvm_persistence_mode != Some(false))
                },
                _ => true,
            },
{
    let ghost s0 = *init;
    resume_nvl5(init, setup, guid)?;
    let ghost s1 = *init;
    epilogue(init);
    proof {
        let g = guid->Some_0;
        let ss = nvl5_resume_steps(
            s0.daemons(),
            s0.uvm_persistence_mode,
            s0.dcgm_enabled,
            g@,
            setup,
        );
        init.lemma_asked(s1, (NVRC { port_guid: Some(g), ..s0 }), ss, epilogue_steps());
    }
    Ok(())
}

// ---------------------------------------------------------------------------
// Laws
// ---------------------------------------------------------------------------

/// All the steps of a boot in the mode `mode`, where the port that was looked for is
/// `port`. `None` if the boot fails.
pub open spec fn boot_steps(
    mode: Seq<char>,
    uvm: Option<bool>,
    dcgm: Option<bool>,
    guid: Option<Seq<char>>,
    nvswitch: Option<Seq<char>>,
    gpu_count: usize,
    port: Option<Seq<char>>,
) -> Option<Seq<action::Step>> {
    match mode_steps(mode, seq![], uvm, dcgm, guid, nvswitch, gpu_count) {
        None => None,
        Some((ss, Progress::Finished)) => Some(prologue_steps() + ss + epilogue_steps()),
        Some((ss, Progress::NeedsPortGuid(setup))) => match port {
            None => None,
            Some(g) => Some(
                prologue_steps() + (ss + nvl5_resume_steps(seq![], uvm, dcgm, g, setup))
                    + epilogue_steps(),
            ),
        },
    }
}

/// The daemons of NVL4 mode.
pub open spec fn nvl4_daemons() -> Seq<Seq<char>> {
    seq!["nv-fabricmanager"@]
}

/// The daemons of NVL5 mode.
pub open spec fn nvl5_daemons() -> Seq<Seq<char>> {
    seq!["nvlsm"@, "nv-fabricmanager"@]
}

/// The daemons that serve the GPUs.
pub open spec fn gpu_daemons(dcgm: Option<bool>) -> Seq<Seq<char>> {
    if dcgm == Some(true) {
        seq!["nvidia-persistenced"@, "nv-hostengine"@, "dcgm-exporter"@]
    } else {
        seq!["nvidia-persistenced"@]
    }
}

/// The daemons that a boot starts, in their order.
pub open spec fn boot_daemons(
    mode: Seq<char>,
    dcgm: Option<bool>,
    nvswitch: Option<Seq<char>>,
) -> Seq<Seq<char>> {
    if mode == "gpu"@ {
        if nvswitch == Some("nvl4"@) {
            nvl4_daemons() + gpu_daemons(dcgm)
        } else if nvswitch == Some("nvl5"@) {
            nvl5_daemons() + gpu_daemons(dcgm)
        } else {
            gpu_daemons(dcgm)
        }
    } else if mode == "servicevm-nvl4"@ {
        nvl4_daemons()
    } else if mode == "servicevm-nvl5"@ {
        nvl5_daemons()
    } else {
        seq![]
    }
}

proof fn lemma_fabricmanager(
    daemons: Seq<Seq<char>>,
    guid: Option<Seq<char>>,
    fabric_mode: u8,
    rail_policy: Seq<char>,
    gpu_count: usize,
)
    ensures
        action::spawned(daemon::fabricmanager_steps(guid, fabric_mode, rail_policy, gpu_count))
            == nvl4_daemons(),
        action::covers(
            daemons,
            daemon::fabricmanager_steps(guid, fabric_mode, rail_policy, gpu_count),
        ),
{
    let all = daemon::fabricmanager_steps(guid, fabric_mode, rail_policy, gpu_count);
    let a = seq![all[0], all[1], all[2]];
    let b = seq![all[3]];
    let c = seq![all[4]];
    action::lemma_spawned_none(a);
    action::lemma_spawned_one(all[3]);
    action::lemma_spawned_none(c);
    action::lemma_spawned_append(a, b);
    action::lemma_spawned_append(a + b, c);
    assert(all == a + b + c);
    assert(action::spawned(all) == nvl4_daemons());
}

proof fn lemma_nvl4(
    daemons: Seq<Seq<char>>,
    guid: Option<Seq<char>>,
    fabric_mode: u8,
    gpu_count: usize,
)
    ensures
        action::spawned(nvl4_steps(daemons, guid, fabric_mode, gpu_count)) == nvl4_daemons(),
        action::covers(daemons, nvl4_steps(daemons, guid, fabric_mode, gpu_count)),
{
    let a = seq![action::Step::LoadModule("nvidia"@)];
    let b = daemon::fabricmanager_steps(guid, fabric_mode, "greedy"@, gpu_count);
    action::lemma_spawned_none(a);
    action::lemma_covers_trivially(daemons, a);
    lemma_fabricmanager(daemons + action::spawned(a), guid, fabric_mode, "greedy"@, gpu_count);
    action::lemma_covers_append(daemons, a, b);
    action::lemma_spawned_append(a, b);
    action::lemma_checked_covers(daemons, a + b);
    assert(action::spawned(a) + action::spawned(b) == nvl4_daemons());
}

proof fn lemma_nvl5(daemons: Seq<Seq<char>>, guid: Seq<char>, fabric_mode: u8, gpu_count: usize)
    ensures
        action::spawned(nvl5_fabric_steps(daemons, guid, fabric_mode, gpu_count))
            == nvl5_daemons(),
        action::covers(daemons, nvl5_fabric_steps(daemons, guid, fabric_mode, gpu_count)),
{
    let a = daemon::nvlsm_steps(Some(guid), "/sbin/nvlsm"@);
    let b = action::checked(daemons, a);
    let c = daemon::fabricmanager_steps(Some(guid), fabric_mode, "symmetric"@, gpu_count);
    action::lemma_spawned_one(a[0]);
    assert(a == seq![a[0]]);
    action::lemma_covers_trivially(daemons, a);
    action::lemma_checked_covers(daemons, a);
    lemma_fabricmanager(
        daemons + action::spawned(b),
        Some(guid),
        fabric_mode,
        "symmetric"@,
        gpu_count,
    );
    action::lemma_covers_append(daemons, b, c);
    action::lemma_spawned_append(b, c);
    action::lemma_checked_covers(daemons, b + c);
    assert(action::spawned(b) + action::spawned(c) == nvl5_daemons());
}

proof fn lemma_gpu_finish(daemons: Seq<Seq<char>>, uvm: Option<bool>, dcgm: Option<bool>)
    ensures
        action::spawned(gpu_finish_steps(daemons, uvm, dcgm)) == gpu_daemons(dcgm),
        action::covers(daemons, gpu_finish_steps(daemons, uvm, dcgm)),
{
    let a = daemon::persistenced_ready_steps(uvm);
    let b = seq![
        action::Step::NvidiaSmi(Smi::Lmc),
        action::Step::NvidiaSmi(Smi::Lgc),
        action::Step::NvidiaSmi(Smi::Pl),
    ];
    let c = daemon::hostengine_steps(dcgm, "/bin/nv-hostengine"@);
    let d = daemon::dcgm_exporter_steps(dcgm, "/bin/dcgm-exporter"@);
    let e = toolkit::ctk_cdi_steps();
    let f = seq![action::Step::NvidiaSmi(Smi::Srs)];
    let all = gpu_service_steps(uvm, dcgm);
    let a1 = seq![a[0], a[1]];
    let a2 = seq![a[2]];
    let a3 = seq![a[3]];
    assert(a == a1 + a2 + a3);
    action::lemma_spawned_none(a1);
    action::lemma_spawned_one(a[2]);
    action::lemma_spawned_none(a3);
    action::lemma_spawned_append(a1, a2);
    action::lemma_spawned_append(a1 + a2, a3);
    action::lemma_spawned_none(b);
    if dcgm == Some(true) {
        action::lemma_spawned_one(c[0]);
        action::lemma_spawned_one(d[0]);
        assert(c == seq![c[0]]);
        assert(d == seq![d[0]]);
    } else {
        action::lemma_spawned_none(c);
        action::lemma_spawned_none(d);
    }
    action::lemma_spawned_none(e);
    action::lemma_spawned_none(f);
    action::lemma_spawned_append(a, b);
    action::lemma_spawned_append(a + b, c);
    action::lemma_spawned_append(a + b + c, d);
    action::lemma_spawned_append(a + b + c + d, e);
    action::lemma_spawned_append(a + b + c + d + e, f);
    assert(action::spawned(all) == gpu_daemons(dcgm));
    assert forall|i: int| 0 <= i < all.len() implies !(#[trigger] all[i] is HealthChecks) by {
        let n1 = a.len();
        let n2 = n1 + b.len();
        let n3 = n2 + c.len();
        let n4 = n3 + d.len();
        let n5 = n4 + e.len();
        if i < n1 {
            assert(all[i] == a[i]);
        } else if i < n2 {
            assert(all[i] == b[i - n1]);
        } else if i < n3 {
            assert(all[i] == c[i - n2]);
        } else if i < n4 {
            assert(all[i] == d[i - n3]);
        } else if i < n5 {
            assert(all[i] == e[i - n4]);
        } else {
            assert(all[i] == f[i - n5]);
        }
    }
    action::lemma_covers_trivially(daemons, all);
    action::lemma_checked_covers(daemons, all);
}

/// The steps between the prologue and the epilogue.
proof fn lemma_mode(
    mode: Seq<char>,
    uvm: Option<bool>,
    dcgm: Option<bool>,
    guid: Option<Seq<char>>,
    nvswitch: Option<Seq<char>>,
    gpu_count: usize,
    port: Option<Seq<char>>,
) -> (ss: Seq<action::Step>)
    requires
        boot_steps(mode, uvm, dcgm, guid, nvswitch, gpu_count, port) is Some,
    ensures
        boot_steps(mode, uvm, dcgm, guid, nvswitch, gpu_count, port) == Some(
            prologue_steps() + ss + epilogue_steps(),
        ),
        action::spawned(ss) == boot_daemons(mode, dcgm, nvswitch),
        action::covers(seq![], ss),
{
    let none = Seq::<Seq<char>>::empty();
    reveal_strlit("cpu");
    reveal_strlit("gpu");
    reveal_strlit("servicevm-nvl4");
    reveal_strlit("servicevm-nvl5");
    reveal_strlit("nvl4");
    reveal_strlit("nvl5");
    assert("cpu"@[0] == 'c' && "gpu"@[0] == 'g' && "servicevm-nvl4"@[0] == 's'
        && "servicevm-nvl5"@[0] == 's');
    let (ss, progress) = mode_steps(mode, none, uvm, dcgm, guid, nvswitch, gpu_count)->Some_0;
    let load = gpu_load_steps();
    let probe = nvl5_probe_steps();
    action::lemma_spawned_none(load);
    action::lemma_covers_trivially(none, load);
    action::lemma_spawned_none(probe);
    action::lemma_covers_trivially(none, probe);
    assert(none + none == none);
    if mode == "cpu"@ {
        action::lemma_spawned_none(ss);
        ss
    } else if mode == "gpu"@ {
        if nvswitch == Some("nvl4"@) {
            let fabric = nvl4_steps(none, guid, FABRIC_MODE_FULL, gpu_count);
            lemma_nvl4(none, guid, FABRIC_MODE_FULL, gpu_count);
            let daemons = none + action::spawned(fabric);
            let finish = gpu_finish_steps(daemons, uvm, dcgm);
            lemma_gpu_finish(daemons, uvm, dcgm);
            action::lemma_spawned_append(load, fabric);
            action::lemma_covers_append(none, load, fabric);
            assert(none + action::spawned(load + fabric) == daemons);
            action::lemma_spawned_append(load + fabric, finish);
            action::lemma_covers_append(none, load + fabric, finish);
            assert(none + nvl4_daemons() == nvl4_daemons());
            ss
        } else if nvswitch == Some("nvl5"@) {
            let g = port->Some_0;
            let fabric = nvl5_fabric_steps(none, g, FABRIC_MODE_FULL, gpu_count);
            lemma_nvl5(none, g, FABRIC_MODE_FULL, gpu_count);
            let daemons = none + action::spawned(fabric);
            let finish = gpu_finish_steps(daemons, uvm, dcgm);
            lemma_gpu_finish(daemons, uvm, dcgm);
            action::lemma_spawned_append(load, probe);
            action::lemma_covers_append(none, load, probe);
            action::lemma_spawned_append(fabric, finish);
            action::lemma_covers_append(none, fabric, finish);
            action::lemma_spawned_append(load + probe, fabric + finish);
            action::lemma_covers_append(none, load + probe, fabric + finish);
            assert(none + boot_daemons(mode, dcgm, nvswitch) == boot_daemons(
                mode,
                dcgm,
                nvswitch,
            ));
            ss + (fabric + finish)
        } else {
            let imex = seq![action::Step::StartImex];
            let finish = gpu_finish_steps(none, uvm, dcgm);
            lemma_gpu_finish(none, uvm, dcgm);
            action::lemma_spawned_none(imex);
            action::lemma_covers_trivially(none, imex);
            action::lemma_spawned_append(load, imex);
            action::lemma_covers_append(none, load, imex);
            action::lemma_spawned_append(load + imex, finish);
            action::lemma_covers_append(none, load + imex, finish);
            assert(none + gpu_daemons(dcgm) == gpu_daemons(dcgm));
            ss
        }
    } else if mode == "servicevm-nvl4"@ {
        lemma_nvl4(none, guid, FABRIC_MODE_SHARED, gpu_count);
        ss
    } else {
        let g = port->Some_0;
        let fabric = nvl5_fabric_steps(none, g, FABRIC_MODE_SHARED, gpu_count);
        lemma_nvl5(none, g, FABRIC_MODE_SHARED, gpu_count);
        action::lemma_spawned_append(probe, fabric);
        action::lemma_covers_append(none, probe, fabric);
        assert(none + nvl5_daemons() == nvl5_daemons());
        assert("servicevm-nvl4"@[13] == '4' && "servicevm-nvl5"@[13] == '5');
        ss + fabric
    }
}

/// Which daemons a boot starts, and in which order: the subnet manager before the
/// fabric manager, that before the persistence daemon, and the DCGM daemons only
/// where DCGM was switched on.
pub proof fn law_daemons_of_a_boot(
    mode: Seq<char>,
    uvm: Option<bool>,
    dcgm: Option<bool>,
    guid: Option<Seq<char>>,
    nvswitch: Option<Seq<char>>,
    gpu_count: usize,
    port: Option<Seq<char>>,
)
    requires
        boot_steps(mode, uvm, dcgm, guid, nvswitch, gpu_count, port) is Some,
    ensures
        action::spawned(
            boot_steps(mode, uvm, dcgm, guid, nvswitch, gpu_count, port)->Some_0,
        ) == boot_daemons(mode, dcgm, nvswitch),
{
    let ss = lemma_mode(mode, uvm, dcgm, guid, nvswitch, gpu_count, port);
    action::lemma_spawned_none(prologue_steps());
    action::lemma_spawned_none(epilogue_steps());
    action::lemma_spawned_append(prologue_steps(), ss);
    action::lemma_spawned_append(prologue_steps() + ss, epilogue_steps());
    assert(action::spawned(prologue_steps() + ss + epilogue_steps()) == action::spawned(ss));
}

/// Each health check of a boot is of every daemon that was started before it.
pub proof fn law_health_checks_are_complete(
    mode: Seq<char>,
    uvm: Option<bool>,
    dcgm: Option<bool>,
    guid: Option<Seq<char>>,
    nvswitch: Option<Seq<char>>,
    gpu_count: usize,
    port: Option<Seq<char>>,
)
    requires
        boot_steps(mode, uvm, dcgm, guid, nvswitch, gpu_count, port) is Some,
    ensures
        action::covers(
            seq![],
            boot_steps(mode, uvm, dcgm, guid, nvswitch, gpu_count, port)->Some_0,
        ),
{
    let none = Seq::<Seq<char>>::empty();
    let ss = lemma_mode(mode, uvm, dcgm, guid, nvswitch, gpu_count, port);
    let a = prologue_steps();
    let b = epilogue_steps();
    action::lemma_spawned_none(a);
    action::lemma_covers_trivially(none, a);
    assert(none + action::spawned(a) == none);
    action::lemma_covers_append(none, a, ss);
    action::lemma_covers_trivially(none + action::spawned(a + ss), b);
    action::lemma_covers_append(none, a + ss, b);
}

/// The clock is set before the first module is loaded, and after the loading of
/// modules is forbidden nothing is done but to start the agent.
pub proof fn law_order_of_a_boot(
    mode: Seq<char>,
    uvm: Option<bool>,
    dcgm: Option<bool>,
    guid: Option<Seq<char>>,
    nvswitch: Option<Seq<char>>,
    gpu_count: usize,
    port: Option<Seq<char>>,
)
    requires
        boot_steps(mode, uvm, dcgm, guid, nvswitch, gpu_count, port) is Some,
    ensures
        ({
            let all = boot_steps(mode, uvm, dcgm, guid, nvswitch, gpu_count, port)->Some_0;
            &&& all.len() >= 10
            &&& all[5] == action::Step::SyncClock
            &&& forall|i: int|
                0 <= i < all.len() && (#[trigger] all[i]) is LoadModule ==> 5 < i < all.len() - 2
            &&& all[all.len() - 2] == action::Step::DisableModuleLoading
            &&& all[all.len() - 1] == action::Step::ForkAgent
        }),
{
    let ss = lemma_mode(mode, uvm, dcgm, guid, nvswitch, gpu_count, port);
    let all = prologue_steps() + ss + epilogue_steps();
    assert forall|i: int| 0 <= i < all.len() && (#[trigger] all[i]) is LoadModule implies 5 < i
        < all.len() - 2 by {
        if i < 8 {
            assert(all[i] == prologue_steps()[i]);
        } else if i >= all.len() - 2 {
            assert(all[i] == epilogue_steps()[i - all.len() + 2]);
        }
    }
    assert(all[5] == prologue_steps()[5]);
    assert(all[all.len() - 2] == epilogue_steps()[0]);
    assert(all[all.len() - 1] == epilogue_steps()[1]);
}

/// A boot fails only in an unknown mode, or where the port of an NVL5 fabric is missing.
pub proof fn law_when_a_boot_fails(
    mode: Seq<char>,
    uvm: Option<bool>,
    dcgm: Option<bool>,
    guid: Option<Seq<char>>,
    nvswitch: Option<Seq<char>>,
    gpu_count: usize,
    port: Option<Seq<char>>,
)
    ensures
        boot_steps(mode, uvm, dcgm, guid, nvswitch, gpu_count, port) is None <==> {
            ||| mode != "cpu"@ && mode != "gpu"@ && mode != "servicevm-nvl4"@ && mode
                != "servicevm-nvl5"@
            ||| port is None && mode == "servicevm-nvl5"@
            ||| port is None && mode == "gpu"@ && nvswitch == Some("nvl5"@)
        },
{
    reveal_strlit("cpu");
    reveal_strlit("gpu");
    reveal_strlit("servicevm-nvl4");
    reveal_strlit("servicevm-nvl5");
    reveal_strlit("nvl4");
    reveal_strlit("nvl5");
    assert("cpu"@[0] == 'c' && "gpu"@[0] == 'g' && "servicevm-nvl4"@[0] == 's'
        && "servicevm-nvl5"@[0] == 's');
    assert("servicevm-nvl4"@[13] == '4' && "servicevm-nvl5"@[13] == '5');
    assert("nvl4"@[3] == '4' && "nvl5"@[3] == '5');
}

/// A boot that needs no port asks for exactly its steps, whatever settings the
/// kernel command line gave.
pub proof fn law_boot_without_port(
    start: NVRC,
    begun: NVRC,
    set: NVRC,
    end: NVRC,
    mode: Seq<char>,
    nvswitch: Option<Seq<char>>,
    gpu_count: usize,
    port: Option<Seq<char>>,
    ss: Seq<action::Step>,
)
    requires
        start.daemons() == Seq::<Seq<char>>::empty(),
        begun.asked(start, prologue_steps()),
        set.pending() == begun.pending(),
        set.daemons() == begun.daemons(),
        mode_steps(
            mode,
            set.daemons(),
            set.uvm_persistence_mode,
            set.dcgm_enabled,
            set.guid(),
            nvswitch,
            gpu_count,
        ) == Some((ss, Progress::Finished)),
        end.asked(set, ss + epilogue_steps()),
    ensures
        boot_steps(
            mode,
            set.uvm_persistence_mode,
            set.dcgm_enabled,
            set.guid(),
            nvswitch,
            gpu_count,
            port,
        ) is Some,
        end.pending() == start.pending() + boot_steps(
            mode,
            set.uvm_persistence_mode,
            set.dcgm_enabled,
            set.guid(),
            nvswitch,
            gpu_count,
            port,
        )->Some_0,
{
    action::lemma_spawned_none(prologue_steps());
    assert(set.daemons() == Seq::<Seq<char>>::empty());
    assert(end.pending() == start.pending() + (prologue_steps() + ss + epilogue_steps()));
}

/// A boot that needs a port asks for exactly its steps when it is found.
pub proof fn law_boot_with_port(
    start: NVRC,
    begun: NVRC,
    set: NVRC,
    probed: NVRC,
    found: NVRC,
    end: NVRC,
    mode: Seq<char>,
    nvswitch: Option<Seq<char>>,
    gpu_count: usize,
    port: Seq<char>,
    ss: Seq<action::Step>,
    setup: Nvl5Setup,
)
    requires
        start.daemons() == Seq::<Seq<char>>::empty(),
        begun.asked(start, prologue_steps()),
        set.pending() == begun.pending(),
        set.daemons() == begun.daemons(),
        mode_steps(
            mode,
            set.daemons(),
            set.uvm_persistence_mode,
            set.dcgm_enabled,
            set.guid(),
            nvswitch,
            gpu_count,
        ) == Some((ss, Progress::NeedsPortGuid(setup))),
        probed.asked(set, ss),
        found == (NVRC { port_guid: found.port_guid, ..probed }),
        end.asked(
            found,
            nvl5_resume_steps(
                probed.daemons(),
                probed.uvm_persistence_mode,
                probed.dcgm_enabled,
                port,
                setup,
            ) + epilogue_steps(),
        ),
    ensures
        boot_steps(
            mode,
            set.uvm_persistence_mode,
            set.dcgm_enabled,
            set.guid(),
            nvswitch,
            gpu_count,
            Some(port),
        ) is Some,
        end.pending() == start.pending() + boot_steps(
            mode,
            set.uvm_persistence_mode,
            set.dcgm_enabled,
            set.guid(),
            nvswitch,
            gpu_count,
            Some(port),
        )->Some_0,
{
    let none = Seq::<Seq<char>>::empty();
    action::lemma_spawned_none(prologue_steps());
    action::lemma_spawned_none(gpu_load_steps() + nvl5_probe_steps());
    action::lemma_spawned_none(nvl5_probe_steps());
    assert(set.daemons() == none);
    assert(probed.daemons() == none);
    let rest = nvl5_resume_steps(
        none,
        set.uvm_persistence_mode,
        set.dcgm_enabled,
        port,
        setup,
    );
    assert(found.pending() == probed.pending());
    assert(end.pending() == start.pending() + (prologue_steps() + (ss + rest) + epilogue_steps()));
}

/// The steps that are taken after each phase of a boot that needs no port are,
/// together, exactly its steps. `idle` and `last` are what the taking leaves; between
/// the phases only settings change, to those of `set`.
pub proof fn law_steps_taken_without_port(
    start: NVRC,
    begun: NVRC,
    idle: NVRC,
    set: NVRC,
    end: NVRC,
    last: NVRC,
    mode: Seq<char>,
    nvswitch: Option<Seq<char>>,
    gpu_count: usize,
    port: Option<Seq<char>>,
    ss: Seq<action::Step>,
    first: Seq<action::Step>,
    second: Seq<action::Step>,
)
    requires
        start.daemons() == Seq::<Seq<char>>::empty(),
        begun.asked(start, prologue_steps()),
        idle.taken(begun, first),
        set.pending() == idle.pending(),
        set.daemons() == idle.daemons(),
        mode_steps(
            mode,
            set.daemons(),
            set.uvm_persistence_mode,
            set.dcgm_enabled,
            set.guid(),
            nvswitch,
            gpu_count,
        ) == Some((ss, Progress::Finished)),
        end.asked(set, ss + epilogue_steps()),
        last.taken(end, second),
    ensures
        boot_steps(
            mode,
            set.uvm_persistence_mode,
            set.dcgm_enabled,
            set.guid(),
            nvswitch,
            gpu_count,
            port,
        ) is Some,
        first + second == start.pending() + boot_steps(
            mode,
            set.uvm_persistence_mode,
            set.dcgm_enabled,
            set.guid(),
            nvswitch,
            gpu_count,
            port,
        )->Some_0,
        last.pending() == Seq::<action::Step>::empty(),
{
    action::lemma_spawned_none(prologue_steps());
    assert(set.daemons() == Seq::<Seq<char>>::empty());
    assert(second == ss + epilogue_steps());
    assert(first + second == start.pending() + (prologue_steps() + ss + epilogue_steps()));
}

/// The steps that are taken after each phase of a boot that needs a port are,
/// together, exactly its steps when the port is found. `idle`, `looked` and `last` are
/// what the taking leaves; between the phases only settings change, to those of `set`,
/// and then the port to that of `found`.
pub proof fn law_steps_taken_with_port(
    start: NVRC,
    begun: NVRC,
    idle: NVRC,
    set: NVRC,
    probed: NVRC,
    looked: NVRC,
    found: NVRC,
    end: NVRC,
    last: NVRC,
    mode: Seq<char>,
    nvswitch: Option<Seq<char>>,
    gpu_count: usize,
    port: Seq<char>,
    ss: Seq<action::Step>,
    setup: Nvl5Setup,
    first: Seq<action::Step>,
    second: Seq<action::Step>,
    third: Seq<action::Step>,
)
    requires
        start.daemons() == Seq::<Seq<char>>::empty(),
        begun.asked(start, prologue_steps()),
        idle.taken(begun, first),
        set.pending() == idle.pending(),
        set.daemons() == idle.daemons(),
        mode_steps(
            mode,
            set.daemons(),
            set.uvm_persistence_mode,
            set.dcgm_enabled,
            set.guid(),
            nvswitch,
            gpu_count,
        ) == Some((ss, Progress::NeedsPortGuid(setup))),
        probed.asked(set, ss),
        looked.taken(probed, second),
        found == (NVRC { port_guid: found.port_guid, ..looked }),
        end.asked(
            found,
            nvl5_resume_steps(
                looked.daemons(),
                looked.uvm_persistence_mode,
                looked.dcgm_enabled,
                port,
                setup,
            ) + epilogue_steps(),
        ),
        last.taken(end, third),
    ensures
        boot_steps(
            mode,
            set.uvm_persistence_mode,
            set.dcgm_enabled,
            set.guid(),
            nvswitch,
            gpu_count,
            Some(port),
        ) is Some,
        first + second + third == start.pending() + boot_steps(
            mode,
            set.uvm_persistence_mode,
            set.dcgm_enabled,
            set.guid(),
            nvswitch,
            gpu_count,
            Some(port),
        )->Some_0,
        last.pending() == Seq::<action::Step>::empty(),
{
    let none = Seq::<Seq<char>>::empty();
    action::lemma_spawned_none(prologue_steps());
    action::lemma_spawned_none(gpu_load_steps() + nvl5_probe_steps());
    action::lemma_spawned_none(nvl5_probe_steps());
    assert(set.daemons() == none);
    assert(looked.daemons() == none);
    let rest = nvl5_resume_steps(
        none,
        set.uvm_persistence_mode,
        set.dcgm_enabled,
        port,
        setup,
    );
    assert(second == ss);
    assert(third == rest + epilogue_steps()) by {
        assert(found.pending() == Seq::<action::Step>::empty());
    }
    assert(first + second + third == start.pending() + (prologue_steps() + (ss + rest)
        + epilogue_steps()));
}

/// NVL4 mode, whatever runs before and whatever it is given: the driver is loaded, the
/// fabric manager brought up in the given mode with the policy `greedy`, and then it and
/// every daemon from before is checked.
pub proof fn law_steps_of_nvl4(
    daemons: Seq<Seq<char>>,
    guid: Option<Seq<char>>,
    fabric_mode: u8,
    gpu_count: usize,
)
    ensures
        ({
            let ss = nvl4_steps(daemons, guid, fabric_mode, gpu_count);
            &&& ss.len() == 7
            &&& ss[0] == action::Step::LoadModule("nvidia"@)
            &&& ss.subrange(1, 6) == daemon::fabricmanager_steps(
                guid,
                fabric_mode,
                "greedy"@,
                gpu_count,
            )
            &&& ss[6] == action::Step::HealthChecks(daemons.push("nv-fabricmanager"@))
        }),
{
    let a = seq![action::Step::LoadModule("nvidia"@)];
    let b = daemon::fabricmanager_steps(guid, fabric_mode, "greedy"@, gpu_count);
    let ss = nvl4_steps(daemons, guid, fabric_mode, gpu_count);
    lemma_fabricmanager(daemons, guid, fabric_mode, "greedy"@, gpu_count);
    action::lemma_spawned_none(a);
    action::lemma_spawned_append(a, b);
    assert(daemons + action::spawned(a + b) == daemons.push("nv-fabricmanager"@));
    assert(ss == (a + b).push(ss[6]));
    assert(ss.subrange(1, 6) == b);
}

/// The fabric of NVL5 mode, whatever runs before and whatever it is given: the subnet
/// manager is started on the port and checked, then the fabric manager is brought up on
/// the port in the given mode with the policy `symmetric`, and both are checked.
pub proof fn law_steps_of_nvl5_fabric(
    daemons: Seq<Seq<char>>,
    guid: Seq<char>,
    fabric_mode: u8,
    gpu_count: usize,
)
    ensures
        ({
            let ss = nvl5_fabric_steps(daemons, guid, fabric_mode, gpu_count);
            &&& ss.len() == 8
            &&& ss[0] == (action::Step::Spawn {
                name: "nvlsm"@,
                bin: "/sbin/nvlsm"@,
                args: seq![
                    "-F"@,
                    "/usr/share/nvidia/nvlsm/nvlsm.conf"@,
                    "-g"@,
                    guid,
                    "-f"@,
                    "stdout"@,
                ],
            })
            &&& ss[1] == action::Step::HealthChecks(daemons.push("nvlsm"@))
            &&& ss.subrange(2, 7) == daemon::fabricmanager_steps(
                Some(guid),
                fabric_mode,
                "symmetric"@,
                gpu_count,
            )
            &&& ss[7] == action::Step::HealthChecks(
                daemons.push("nvlsm"@).push("nv-fabricmanager"@),
            )
        }),
{
    let a = daemon::nvlsm_steps(Some(guid), "/sbin/nvlsm"@);
    let b = action::checked(daemons, a);
    let c = daemon::fabricmanager_steps(Some(guid), fabric_mode, "symmetric"@, gpu_count);
    let ss = nvl5_fabric_steps(daemons, guid, fabric_mode, gpu_count);
    daemon::law_subnet_manager_is_given_the_port(Some(guid), "/sbin/nvlsm"@);
    action::lemma_spawned_one(a[0]);
    assert(a == seq![a[0]]);
    action::lemma_covers_trivially(daemons, a);
    action::lemma_checked_covers(daemons, a);
    lemma_fabricmanager(daemons, Some(guid), fabric_mode, "symmetric"@, gpu_count);
    action::lemma_spawned_append(b, c);
    assert(daemons + action::spawned(a) == daemons.push("nvlsm"@));
    assert(daemons + action::spawned(b + c) == daemons.push("nvlsm"@).push("nv-fabricmanager"@));
    assert(ss == (b + c).push(ss[7]));
    assert(ss.subrange(2, 7) == c);
}

/// What follows the fabric in GPU mode, whatever runs before and whatever the settings:
/// the persistence daemon is brought up, the clocks are locked and the power limit set,
/// the DCGM daemons started where they were switched on, the CDI document made and
/// completed, the GPUs declared ready, and every daemon checked.
pub proof fn law_steps_of_gpu_services(
    daemons: Seq<Seq<char>>,
    uvm: Option<bool>,
    dcgm: Option<bool>,
)
    ensures
        ({
            let ss = gpu_finish_steps(daemons, uvm, dcgm);
            let n = ss.len() as int;
            let checked = daemons.push("nvidia-persistenced"@);
            &&& n == if dcgm == Some(true) {
                13int
            } else {
                11
            }
            &&& ss.subrange(0, 4) == daemon::persistenced_ready_steps(uvm)
            &&& ss[4] == action::Step::NvidiaSmi(Smi::Lmc)
            &&& ss[5] == action::Step::NvidiaSmi(Smi::Lgc)
            &&& ss[6] == action::Step::NvidiaSmi(Smi::Pl)
            &&& dcgm == Some(true) ==> ss[7] == (action::Step::Spawn {
                name: "nv-hostengine"@,
                bin: "/bin/nv-hostengine"@,
                args: seq!["--service-account"@, "nvidia-dcgm"@, "--home-dir"@, "/tmp"@],
            })
            &&& dcgm == Some(true) ==> ss[8] == (action::Step::Spawn {
                name: "dcgm-exporter"@,
                bin: "/bin/dcgm-exporter"@,
                args: seq!["-k"@, "-f"@, "/etc/dcgm-exporter/default-counters.csv"@],
            })
            &&& ss[n - 4] == (action::Step::Run {
                bin: "/bin/nvidia-ctk"@,
                args: seq!["-d"@, "cdi"@, "generate"@, "--output=/var/run/cdi/nvidia.yaml"@],
            })
            &&& ss[n - 3] == action::Step::InjectImexMounts
            &&& ss[n - 2] == action::Step::NvidiaSmi(Smi::Srs)
            &&& ss[n - 1] == action::Step::HealthChecks(
                if dcgm == Some(true) {
                    checked.push("nv-hostengine"@).push("dcgm-exporter"@)
                } else {
                    checked
                },
            )
        }),
{
    let ss = gpu_finish_steps(daemons, uvm, dcgm);
    let all = gpu_service_steps(uvm, dcgm);
    lemma_gpu_finish(daemons, uvm, dcgm);
    assert(ss.drop_last() == all);
    assert(action::spawned(ss) == action::spawned(all));
    daemon::law_persistenced_bring_up(uvm);
    daemon::law_dcgm_goes_by_the_setting(dcgm, "/bin/nv-hostengine"@);
    daemon::law_dcgm_goes_by_the_setting(dcgm, "/bin/dcgm-exporter"@);
    let named = if dcgm == Some(true) {
        daemons.push("nvidia-persistenced"@).push("nv-hostengine"@).push("dcgm-exporter"@)
    } else {
        daemons.push("nvidia-persistenced"@)
    };
    assert(daemons + gpu_daemons(dcgm) == named);
    assert(ss.subrange(0, 4) == daemon::persistenced_ready_steps(uvm));
}

/// GPU mode, whatever runs before and whatever the settings: the driver and its UVM
/// module are loaded and the GPUs looked at; an NVL4 fabric comes up in full passthrough
/// and an NVL5 fabric has its port looked for first; without NVSwitches IMEX is started.
/// Then the GPUs are set up.
pub proof fn law_steps_of_gpu_mode(
    daemons: Seq<Seq<char>>,
    uvm: Option<bool>,
    dcgm: Option<bool>,
    guid: Option<Seq<char>>,
    nvswitch: Option<Seq<char>>,
    gpu_count: usize,
)
    ensures
        ({
            let (ss, progress) = gpu_steps(daemons, uvm, dcgm, guid, nvswitch, gpu_count);
            &&& ss.len() > 3
            &&& ss[0] == action::Step::LoadModule("nvidia"@)
            &&& ss[1] == action::Step::LoadModule("nvidia-uvm"@)
            &&& ss[2] == action::Step::LogGpuInitState("post-modprobe"@)
            &&& if nvswitch == Some("nvl4"@) {
                &&& ss.subrange(3, 10) == nvl4_steps(daemons, guid, 0, gpu_count)
                &&& ss.skip(10) == gpu_finish_steps(
                    daemons.push("nv-fabricmanager"@),
                    uvm,
                    dcgm,
                )
                &&& progress is Finished
            } else if nvswitch == Some("nvl5"@) {
                &&& ss.skip(3) == seq![
                    action::Step::LoadModule("ib_umad"@),
                    action::Step::LoadModule("mlx5_ib"@),
                    action::Step::DetectPortGuid,
                ]
                &&& progress == Progress::NeedsPortGuid(
                    Nvl5Setup { fabric_mode: 0, gpu_count, gpus_follow: true },
                )
            } else {
                &&& ss[3] == action::Step::StartImex
                &&& ss.skip(4) == gpu_finish_steps(daemons, uvm, dcgm)
                &&& progress is Finished
            }
        }),
{
    let (ss, progress) = gpu_steps(daemons, uvm, dcgm, guid, nvswitch, gpu_count);
    let load = gpu_load_steps();
    reveal_strlit("nvl4");
    reveal_strlit("nvl5");
    assert("nvl4"@[3] == '4' && "nvl5"@[3] == '5');
    if nvswitch == Some("nvl4"@) {
        let fabric = nvl4_steps(daemons, guid, 0, gpu_count);
        law_steps_of_nvl4(daemons, guid, 0, gpu_count);
        lemma_nvl4(daemons, guid, 0, gpu_count);
        let more = daemons.push("nv-fabricmanager"@);
        assert(daemons + action::spawned(fabric) == more);
        assert(ss == load + fabric + gpu_finish_steps(more, uvm, dcgm));
        assert(ss.subrange(3, 10) == fabric);
        assert(ss.skip(10) == gpu_finish_steps(more, uvm, dcgm));
    } else if nvswitch == Some("nvl5"@) {
        assert(ss.skip(3) == nvl5_probe_steps());
    } else {
        assert(ss.skip(4) == gpu_finish_steps(daemons, uvm, dcgm));
    }
    assert(ss[0] == load[0] && ss[1] == load[1] && ss[2] == load[2]);
}

/// What is left when the port is known, whatever the port: the fabric comes up on it as
/// it was planned, and the GPUs are set up after it exactly if that was planned.
pub proof fn law_steps_of_nvl5_rest(
    daemons: Seq<Seq<char>>,
    uvm: Option<bool>,
    dcgm: Option<bool>,
    guid: Seq<char>,
    setup: Nvl5Setup,
)
    ensures
        ({
            let ss = nvl5_resume_steps(daemons, uvm, dcgm, guid, setup);
            &&& ss.len() >= 8
            &&& ss.take(8) == nvl5_fabric_steps(daemons, guid, setup.fabric_mode, setup.gpu_count)
            &&& if setup.gpus_follow {
                ss.skip(8) == gpu_finish_steps(
                    daemons.push("nvlsm"@).push("nv-fabricmanager"@),
                    uvm,
                    dcgm,
                )
            } else {
                ss.len() == 8
            }
        }),
{
    let fabric = nvl5_fabric_steps(daemons, guid, setup.fabric_mode, setup.gpu_count);
    let ss = nvl5_resume_steps(daemons, uvm, dcgm, guid, setup);
    law_steps_of_nvl5_fabric(daemons, guid, setup.fabric_mode, setup.gpu_count);
    lemma_nvl5(daemons, guid, setup.fabric_mode, setup.gpu_count);
    let more = daemons.push("nvlsm"@).push("nv-fabricmanager"@);
    assert(daemons + action::spawned(fabric) == more);
    assert(ss.take(8) == fabric);
    if setup.gpus_follow {
        assert(ss.skip(8) == gpu_finish_steps(more, uvm, dcgm));
    }
}

/// Which mode is which, whatever runs before: CPU mode does nothing, GPU mode is GPU
/// mode, and a service VM brings up a shared fabric, NVL5 once its port is found. There
/// is no other mode.
pub proof fn law_steps_of_a_mode(
    mode: Seq<char>,
    daemons: Seq<Seq<char>>,
    uvm: Option<bool>,
    dcgm: Option<bool>,
    guid: Option<Seq<char>>,
    nvswitch: Option<Seq<char>>,
    gpu_count: usize,
)
    ensures
        ({
            let r = mode_steps(mode, daemons, uvm, dcgm, guid, nvswitch, gpu_count);
            &&& mode == "cpu"@ ==> r is Some && r->Some_0.0.len() == 0 && r->Some_0.1 is Finished
            &&& mode == "gpu"@ ==> r == Some(
                gpu_steps(daemons, uvm, dcgm, guid, nvswitch, gpu_count),
            )
            &&& mode == "servicevm-nvl4"@ ==> r is Some && r->Some_0.1 is Finished && r->Some_0.0
                == nvl4_steps(daemons, guid, 1, gpu_count)
            &&& mode == "servicevm-nvl5"@ ==> r is Some && r->Some_0.1 == Progress::NeedsPortGuid(
                Nvl5Setup { fabric_mode: 1, gpu_count, gpus_follow: false },
            ) && r->Some_0.0 == seq![
                action::Step::LoadModule("ib_umad"@),
                action::Step::LoadModule("mlx5_ib"@),
                action::Step::DetectPortGuid,
            ]
            &&& r is Some ==> mode == "cpu"@ || mode == "gpu"@ || mode == "servicevm-nvl4"@ || mode
                == "servicevm-nvl5"@
        }),
{
    reveal_strlit("cpu");
    reveal_strlit("gpu");
    reveal_strlit("servicevm-nvl4");
    reveal_strlit("servicevm-nvl5");
    assert("cpu"@[0] == 'c' && "gpu"@[0] == 'g' && "servicevm-nvl4"@[0] == 's'
        && "servicevm-nvl5"@[0] == 's');
    assert("servicevm-nvl4"@[13] == '4' && "servicevm-nvl5"@[13] == '5');
}

/// A boot, whatever the mode: eight fixed steps, those of the mode, those that wait for
/// the port, and two fixed steps. What the kernel command line says and the mode are
/// found out just before the mode's own steps.
pub proof fn law_steps_of_a_boot(
    mode: Seq<char>,
    uvm: Option<bool>,
    dcgm: Option<bool>,
    guid: Option<Seq<char>>,
    nvswitch: Option<Seq<char>>,
    gpu_count: usize,
    port: Option<Seq<char>>,
)
    requires
        boot_steps(mode, uvm, dcgm, guid, nvswitch, gpu_count, port) is Some,
    ensures
        ({
            let all = boot_steps(mode, uvm, dcgm, guid, nvswitch, gpu_count, port)->Some_0;
            let n = all.len() as int;
            let none = Seq::<Seq<char>>::empty();
            let of_mode = mode_steps(mode, none, uvm, dcgm, guid, nvswitch, gpu_count);
            &&& n >= 10
            &&& all[0] == action::Step::SetPanicHook
            &&& all[1] == action::Step::MountSetup
            &&& all[2] == action::Step::LoopbackUp
            &&& all[3] == action::Step::KernlogSetup
            &&& all[4] == action::Step::PollSyslog
            &&& all[5] == action::Step::SyncClock
            &&& all[6] == action::Step::ProcessKernelParams
            &&& all[7] == action::Step::DetectMode
            &&& all[n - 2] == action::Step::DisableModuleLoading
            &&& all[n - 1] == action::Step::ForkAgent
            &&& of_mode is Some
            &&& match of_mode->Some_0.1 {
                Progress::Finished => all.subrange(8, n - 2) == of_mode->Some_0.0,
                Progress::NeedsPortGuid(setup) => port is Some && all.subrange(8, n - 2)
                    == of_mode->Some_0.0 + nvl5_resume_steps(
                    none,
                    uvm,
                    dcgm,
                    port->Some_0,
                    setup,
                ),
            }
        }),
{
    let all = boot_steps(mode, uvm, dcgm, guid, nvswitch, gpu_count, port)->Some_0;
    let n = all.len() as int;
    let none = Seq::<Seq<char>>::empty();
    let (ss, progress) = mode_steps(mode, none, uvm, dcgm, guid, nvswitch, gpu_count)->Some_0;
    let a = prologue_steps();
    let b = epilogue_steps();
    let mid = match progress {
        Progress::Finished => ss,
        Progress::NeedsPortGuid(setup) => ss + nvl5_resume_steps(
            none,
            uvm,
            dcgm,
            port->Some_0,
            setup,
        ),
    };
    assert(all == a + mid + b);
    assert(all.subrange(8, n - 2) == mid);
    assert forall|i: int| 0 <= i < 8 implies all[i] == a[i] by {}
    assert(all[n - 2] == b[0] && all[n - 1] == b[1]);
}

/// What the steps of one boot are made with.
struct Plan {
    fabric_mode: u8,
    rail_policy: Seq<char>,
    uvm: Option<bool>,
    dcgm: Option<bool>,
    guid: Option<Seq<char>>,
    gpu_count: usize,
}

/// `s` is made as `plan` says, as far as it starts, configures or awaits a daemon.
spec fn fits(s: action::Step, plan: Plan) -> bool {
    match s {
        action::Step::UpdateConfig { path, updates } => path == "/run/fabricmanager.cfg"@
            && updates == daemon::fabricmanager_settings(plan.fabric_mode, plan.rail_policy),
        action::Step::Spawn { name, bin, args } => {
            ||| s == daemon::fabricmanager_spawn(plan.guid, "/bin/nv-fabricmanager"@)
            ||| s == daemon::persistenced_ready_steps(plan.uvm)[2]
            ||| name == "nvlsm"@ && bin == "/sbin/nvlsm"@ && plan.guid is Some && args == seq![
                "-F"@,
                "/usr/share/nvidia/nvlsm/nvlsm.conf"@,
                "-g"@,
                plan.guid->Some_0,
                "-f"@,
                "stdout"@,
            ]
            ||| name == "nv-hostengine"@ && plan.dcgm == Some(true)
            ||| name == "dcgm-exporter"@ && plan.dcgm == Some(true)
        },
        action::Step::WaitForKmsgCount { marker, count, timeout_secs } => {
            &&& marker == "NVRM: knvlinkSetUniqueFabricBaseAddress_GV100"@
            &&& count == plan.gpu_count
            &&& timeout_secs == 300
        },
        action::Step::WaitForMarker { marker, timeout_secs } => {
            &&& marker == "nvidia-persistenced: Started ("@
            &&& timeout_secs == 120
        },
        _ => true,
    }
}

spec fn all_fit(ss: Seq<action::Step>, plan: Plan) -> bool {
    forall|i: int| 0 <= i < ss.len() ==> fits(#[trigger] ss[i], plan)
}

proof fn lemma_fit_append(a: Seq<action::Step>, b: Seq<action::Step>, plan: Plan)
    requires
        all_fit(a, plan),
        all_fit(b, plan),
    ensures
        all_fit(a + b, plan),
{
    let ss = a + b;
    assert forall|i: int| 0 <= i < ss.len() implies fits(#[trigger] ss[i], plan) by {
        if i < a.len() {
            assert(ss[i] == a[i]);
        } else {
            assert(ss[i] == b[i - a.len()]);
        }
    }
}

proof fn lemma_fabricmanager_fits(
    guid: Option<Seq<char>>,
    fabric_mode: u8,
    rail_policy: Seq<char>,
    gpu_count: usize,
    plan: Plan,
)
    requires
        plan.guid == guid,
        plan.fabric_mode == fabric_mode,
        plan.rail_policy == rail_policy || fabric_mode == 0,
        plan.gpu_count == gpu_count,
    ensures
        all_fit(
            daemon::fabricmanager_steps(guid, fabric_mode, rail_policy, gpu_count),
            plan,
        ),
{
    assert(fabric_mode == 0 ==> daemon::fabricmanager_settings(fabric_mode, rail_policy)
        == daemon::fabricmanager_settings(fabric_mode, plan.rail_policy));
}

proof fn lemma_nvl4_fits(
    daemons: Seq<Seq<char>>,
    guid: Option<Seq<char>>,
    fabric_mode: u8,
    gpu_count: usize,
    plan: Plan,
)
    requires
        plan.guid == guid,
        plan.fabric_mode == fabric_mode,
        plan.rail_policy == "greedy"@ || fabric_mode == 0,
        plan.gpu_count == gpu_count,
    ensures
        all_fit(nvl4_steps(daemons, guid, fabric_mode, gpu_count), plan),
{
    let ss = nvl4_steps(daemons, guid, fabric_mode, gpu_count);
    let b = daemon::fabricmanager_steps(guid, fabric_mode, "greedy"@, gpu_count);
    law_steps_of_nvl4(daemons, guid, fabric_mode, gpu_count);
    lemma_fabricmanager_fits(guid, fabric_mode, "greedy"@, gpu_count, plan);
    assert(b.len() == 5);
    assert forall|i: int| 0 <= i < ss.len() implies fits(#[trigger] ss[i], plan) by {
        if 1 <= i < 6 {
            assert(ss[i] == ss.subrange(1, 6)[i - 1]);
            assert(ss[i] == b[i - 1]);
        }
    }
}

proof fn lemma_nvl5_fits(
    daemons: Seq<Seq<char>>,
    guid: Seq<char>,
    fabric_mode: u8,
    gpu_count: usize,
    plan: Plan,
)
    requires
        plan.guid == Some(guid),
        plan.fabric_mode == fabric_mode,
        plan.rail_policy == "symmetric"@ || fabric_mode == 0,
        plan.gpu_count == gpu_count,
    ensures
        all_fit(nvl5_fabric_steps(daemons, guid, fabric_mode, gpu_count), plan),
{
    let ss = nvl5_fabric_steps(daemons, guid, fabric_mode, gpu_count);
    let b = daemon::fabricmanager_steps(Some(guid), fabric_mode, "symmetric"@, gpu_count);
    law_steps_of_nvl5_fabric(daemons, guid, fabric_mode, gpu_count);
    lemma_fabricmanager_fits(Some(guid), fabric_mode, "symmetric"@, gpu_count, plan);
    assert(b.len() == 5);
    assert forall|i: int| 0 <= i < ss.len() implies fits(#[trigger] ss[i], plan) by {
        if 2 <= i < 7 {
            assert(ss[i] == ss.subrange(2, 7)[i - 2]);
            assert(ss[i] == b[i - 2]);
        }
    }
}

proof fn lemma_services_fit(
    daemons: Seq<Seq<char>>,
    uvm: Option<bool>,
    dcgm: Option<bool>,
    plan: Plan,
)
    requires
        plan.uvm == uvm,
        plan.dcgm == dcgm,
    ensures
        all_fit(gpu_finish_steps(daemons, uvm, dcgm), plan),
{
    let ss = gpu_finish_steps(daemons, uvm, dcgm);
    let a = daemon::persistenced_ready_steps(uvm);
    law_steps_of_gpu_services(daemons, uvm, dcgm);
    daemon::law_persistenced_bring_up(uvm);
    assert forall|i: int| 0 <= i < ss.len() implies fits(#[trigger] ss[i], plan) by {
        if i < 4 {
            assert(ss[i] == ss.subrange(0, 4)[i]);
            assert(ss[i] == a[i]);
        }
    }
}

/// What a boot is made with: GPU mode has the fabric mode 0 and a service VM 1, with the
/// policy of its generation; an NVL5 fabric is on the port that was found.
spec fn plan_of(
    mode: Seq<char>,
    uvm: Option<bool>,
    dcgm: Option<bool>,
    guid: Option<Seq<char>>,
    nvswitch: Option<Seq<char>>,
    gpu_count: usize,
    port: Option<Seq<char>>,
) -> Plan {
    let gpu = mode == "gpu"@;
    let nvl5 = mode == "servicevm-nvl5"@ || (gpu && nvswitch == Some("nvl5"@));
    Plan {
        fabric_mode: if gpu {
            0
        } else {
            1
        },
        rail_policy: if nvl5 {
            "symmetric"@
        } else {
            "greedy"@
        },
        uvm,
        dcgm,
        guid: if nvl5 {
            port
        } else {
            guid
        },
        gpu_count,
    }
}

proof fn lemma_modes_differ()
    ensures
        "cpu"@ != "gpu"@,
        "gpu"@ != "servicevm-nvl4"@,
        "gpu"@ != "servicevm-nvl5"@,
        "cpu"@ != "servicevm-nvl4"@,
        "cpu"@ != "servicevm-nvl5"@,
        "servicevm-nvl4"@ != "servicevm-nvl5"@,
        "nvl4"@ != "nvl5"@,
{
    reveal_strlit("cpu");
    reveal_strlit("gpu");
    reveal_strlit("servicevm-nvl4");
    reveal_strlit("servicevm-nvl5");
    reveal_strlit("nvl4");
    reveal_strlit("nvl5");
    assert("cpu"@[0] == 'c' && "gpu"@[0] == 'g' && "servicevm-nvl4"@[0] == 's'
        && "servicevm-nvl5"@[0] == 's');
    assert("servicevm-nvl4"@[13] == '4' && "servicevm-nvl5"@[13] == '5');
    assert("nvl4"@[3] == '4' && "nvl5"@[3] == '5');
}

proof fn lemma_names_differ()
    ensures
        "nv-fabricmanager"@ != "nvidia-persistenced"@,
        "nv-fabricmanager"@ != "nvlsm"@,
        "nv-fabricmanager"@ != "nv-hostengine"@,
        "nv-fabricmanager"@ != "dcgm-exporter"@,
        "nvidia-persistenced"@ != "nvlsm"@,
        "nvidia-persistenced"@ != "nv-hostengine"@,
        "nvidia-persistenced"@ != "dcgm-exporter"@,
        "nvlsm"@ != "nv-hostengine"@,
        "nvlsm"@ != "dcgm-exporter"@,
{
    reveal_strlit("nv-fabricmanager");
    reveal_strlit("nvidia-persistenced");
    reveal_strlit("nvlsm");
    reveal_strlit("nv-hostengine");
    reveal_strlit("dcgm-exporter");
    assert("nv-fabricmanager"@[3] == 'f');
    assert("nvidia-persistenced"@[3] == 'd');
    assert("nvlsm"@[3] == 's');
    assert("nv-hostengine"@[3] == 'h');
    assert("dcgm-exporter"@[0] == 'd' && "nvlsm"@[0] == 'n' && "nv-fabricmanager"@[0] == 'n'
        && "nvidia-persistenced"@[0] == 'n');
}

proof fn lemma_boot_fits(
    mode: Seq<char>,
    uvm: Option<bool>,
    dcgm: Option<bool>,
    guid: Option<Seq<char>>,
    nvswitch: Option<Seq<char>>,
    gpu_count: usize,
    port: Option<Seq<char>>,
)
    requires
        boot_steps(mode, uvm, dcgm, guid, nvswitch, gpu_count, port) is Some,
    ensures
        all_fit(
            boot_steps(mode, uvm, dcgm, guid, nvswitch, gpu_count, port)->Some_0,
            plan_of(mode, uvm, dcgm, guid, nvswitch, gpu_count, port),
        ),
{
    let all = boot_steps(mode, uvm, dcgm, guid, nvswitch, gpu_count, port)->Some_0;
    let plan = plan_of(mode, uvm, dcgm, guid, nvswitch, gpu_count, port);
    let none = Seq::<Seq<char>>::empty();
    let (ss, progress) = mode_steps(mode, none, uvm, dcgm, guid, nvswitch, gpu_count)->Some_0;
    let load = gpu_load_steps();
    let probe = nvl5_probe_steps();
    let a = prologue_steps();
    let b = epilogue_steps();
    lemma_modes_differ();
    assert(all_fit(load, plan));
    assert(all_fit(probe, plan));
    assert(all_fit(a, plan));
    assert(all_fit(b, plan));
    if mode == "gpu"@ {
        if nvswitch == Some("nvl4"@) {
            let fabric = nvl4_steps(none, guid, 0, gpu_count);
            let finish = gpu_finish_steps(none + action::spawned(fabric), uvm, dcgm);
            lemma_nvl4_fits(none, guid, 0, gpu_count, plan);
            lemma_services_fit(none + action::spawned(fabric), uvm, dcgm, plan);
            lemma_fit_append(load, fabric, plan);
            lemma_fit_append(load + fabric, finish, plan);
        } else if nvswitch == Some("nvl5"@) {
            lemma_fit_append(load, probe, plan);
        } else {
            let imex = seq![action::Step::StartImex];
            let finish = gpu_finish_steps(none, uvm, dcgm);
            assert(all_fit(imex, plan));
            lemma_services_fit(none, uvm, dcgm, plan);
            lemma_fit_append(load, imex, plan);
            lemma_fit_append(load + imex, finish, plan);
        }
    } else if mode == "servicevm-nvl4"@ {
        lemma_nvl4_fits(none, guid, 1, gpu_count, plan);
    }
    assert(all_fit(ss, plan));
    match progress {
        Progress::Finished => {
            lemma_fit_append(a, ss, plan);
            lemma_fit_append(a + ss, b, plan);
        },
        Progress::NeedsPortGuid(setup) => {
            let g = port->Some_0;
            let fabric = nvl5_fabric_steps(none, g, setup.fabric_mode, setup.gpu_count);
            let rest = nvl5_resume_steps(none, uvm, dcgm, g, setup);
            let after = none + action::spawned(fabric);
            lemma_nvl5_fits(none, g, setup.fabric_mode, setup.gpu_count, plan);
            lemma_services_fit(after, uvm, dcgm, plan);
            lemma_fit_append(fabric, gpu_finish_steps(after, uvm, dcgm), plan);
            assert(all_fit(rest, plan));
            lemma_fit_append(ss, rest, plan);
            lemma_fit_append(a, ss + rest, plan);
            lemma_fit_append(a + (ss + rest), b, plan);
        },
    }
}

/// In every boot in GPU mode the fabric manager is told the fabric mode 0, full
/// passthrough, and in every boot of a service VM 1, the shared fabric: each update of
/// its configuration says so, and none says otherwise.
pub proof fn law_fabric_mode_of_a_boot(
    mode: Seq<char>,
    uvm: Option<bool>,
    dcgm: Option<bool>,
    guid: Option<Seq<char>>,
    nvswitch: Option<Seq<char>>,
    gpu_count: usize,
    port: Option<Seq<char>>,
)
    requires
        boot_steps(mode, uvm, dcgm, guid, nvswitch, gpu_count, port) is Some,
    ensures
        ({
            let all = boot_steps(mode, uvm, dcgm, guid, nvswitch, gpu_count, port)->Some_0;
            forall|i: int|
                0 <= i < all.len() && (#[trigger] all[i]) is UpdateConfig ==> {
                    let ups = all[i]->updates;
                    let told = if mode == "gpu"@ {
                        "0"@
                    } else {
                        "1"@
                    };
                    &&& all[i]->UpdateConfig_path == "/run/fabricmanager.cfg"@
                    &&& ups.contains(("FABRIC_MODE"@, told))
                    &&& forall|k: int|
                        0 <= k < ups.len() && (#[trigger] ups[k]).0 == "FABRIC_MODE"@ ==> ups[k].1
                            == told
                }
        }),
{
    let all = boot_steps(mode, uvm, dcgm, guid, nvswitch, gpu_count, port)->Some_0;
    let plan = plan_of(mode, uvm, dcgm, guid, nvswitch, gpu_count, port);
    lemma_boot_fits(mode, uvm, dcgm, guid, nvswitch, gpu_count, port);
    daemon::law_fabric_settings(plan.fabric_mode, plan.rail_policy);
    daemon::lemma_fabric_mode_texts();
    assert forall|i: int| 0 <= i < all.len() && (#[trigger] all[i]) is UpdateConfig implies {
        let ups = all[i]->updates;
        let told = if mode == "gpu"@ {
            "0"@
        } else {
            "1"@
        };
        &&& all[i]->UpdateConfig_path == "/run/fabricmanager.cfg"@
        &&& ups.contains(("FABRIC_MODE"@, told))
        &&& forall|k: int|
            0 <= k < ups.len() && (#[trigger] ups[k]).0 == "FABRIC_MODE"@ ==> ups[k].1 == told
    } by {
        assert(fits(all[i], plan));
    }
}

/// In every boot of an NVL4 service VM the fabric manager is told the rail policy
/// `greedy`, in every boot of an NVL5 service VM `symmetric`, and in GPU mode none.
pub proof fn law_rail_policy_of_a_boot(
    mode: Seq<char>,
    uvm: Option<bool>,
    dcgm: Option<bool>,
    guid: Option<Seq<char>>,
    nvswitch: Option<Seq<char>>,
    gpu_count: usize,
    port: Option<Seq<char>>,
)
    requires
        boot_steps(mode, uvm, dcgm, guid, nvswitch, gpu_count, port) is Some,
    ensures
        ({
            let all = boot_steps(mode, uvm, dcgm, guid, nvswitch, gpu_count, port)->Some_0;
            forall|i: int|
                0 <= i < all.len() && (#[trigger] all[i]) is UpdateConfig ==> {
                    let ups = all[i]->updates;
                    let key = "PARTITION_RAIL_POLICY"@;
                    &&& mode == "servicevm-nvl4"@ ==> ups.contains((key, "greedy"@))
                    &&& mode == "servicevm-nvl5"@ ==> ups.contains((key, "symmetric"@))
                    &&& forall|k: int|
                        0 <= k < ups.len() && (#[trigger] ups[k]).0 == key ==> {
                            ||| mode == "servicevm-nvl4"@ && ups[k].1 == "greedy"@
                            ||| mode == "servicevm-nvl5"@ && ups[k].1 == "symmetric"@
                        }
                }
        }),
{
    let all = boot_steps(mode, uvm, dcgm, guid, nvswitch, gpu_count, port)->Some_0;
    let plan = plan_of(mode, uvm, dcgm, guid, nvswitch, gpu_count, port);
    lemma_boot_fits(mode, uvm, dcgm, guid, nvswitch, gpu_count, port);
    daemon::law_fabric_settings(plan.fabric_mode, plan.rail_policy);
    lemma_modes_differ();
    law_steps_of_a_mode(mode, seq![], uvm, dcgm, guid, nvswitch, gpu_count);
    let key = "PARTITION_RAIL_POLICY"@;
    assert forall|i: int| 0 <= i < all.len() && (#[trigger] all[i]) is UpdateConfig implies {
        let ups = all[i]->updates;
        &&& mode == "servicevm-nvl4"@ ==> ups.contains((key, "greedy"@))
        &&& mode == "servicevm-nvl5"@ ==> ups.contains((key, "symmetric"@))
        &&& forall|k: int|
            0 <= k < ups.len() && (#[trigger] ups[k]).0 == key ==> {
                ||| mode == "servicevm-nvl4"@ && ups[k].1 == "greedy"@
                ||| mode == "servicevm-nvl5"@ && ups[k].1 == "symmetric"@
            }
    } by {
        assert(fits(all[i], plan));
        lemma_cpu_mode_configures_nothing(mode, uvm, dcgm, guid, nvswitch, gpu_count, port);
    }
}

proof fn lemma_cpu_mode_configures_nothing(
    mode: Seq<char>,
    uvm: Option<bool>,
    dcgm: Option<bool>,
    guid: Option<Seq<char>>,
    nvswitch: Option<Seq<char>>,
    gpu_count: usize,
    port: Option<Seq<char>>,
)
    requires
        boot_steps(mode, uvm, dcgm, guid, nvswitch, gpu_count, port) is Some,
    ensures
        mode == "cpu"@ ==> forall|i: int|
            #![trigger boot_steps(mode, uvm, dcgm, guid, nvswitch, gpu_count, port)->Some_0[i]]
            0 <= i < boot_steps(mode, uvm, dcgm, guid, nvswitch, gpu_count, port)->Some_0.len()
                ==> !(boot_steps(mode, uvm, dcgm, guid, nvswitch, gpu_count, port)->Some_0[i]
                is UpdateConfig),
{
    lemma_modes_differ();
    if mode == "cpu"@ {
        let all = boot_steps(mode, uvm, dcgm, guid, nvswitch, gpu_count, port)->Some_0;
        let a = prologue_steps();
        let b = epilogue_steps();
        assert(all == a + b);
        assert forall|i: int| 0 <= i < all.len() implies !(#[trigger] all[i] is UpdateConfig) by {
            if i < 8 {
                assert(all[i] == a[i]);
            } else {
                assert(all[i] == b[i - 8]);
            }
        }
    }
}

/// Wherever a boot starts the fabric manager, `-g` directly followed by the GUID of the
/// port is among its arguments where the port is known, and no `-g` where it is not. In
/// an NVL5 boot the port is the one that was found, and the subnet manager is on it too.
pub proof fn law_port_of_a_boot(
    mode: Seq<char>,
    uvm: Option<bool>,
    dcgm: Option<bool>,
    guid: Option<Seq<char>>,
    nvswitch: Option<Seq<char>>,
    gpu_count: usize,
    port: Option<Seq<char>>,
)
    requires
        boot_steps(mode, uvm, dcgm, guid, nvswitch, gpu_count, port) is Some,
    ensures
        ({
            let all = boot_steps(mode, uvm, dcgm, guid, nvswitch, gpu_count, port)->Some_0;
            let known = if mode == "servicevm-nvl5"@ || (mode == "gpu"@ && nvswitch == Some(
                "nvl5"@,
            )) {
                port
            } else {
                guid
            };
            forall|i: int|
                0 <= i < all.len() && (#[trigger] all[i]) is Spawn ==> {
                    let args = all[i]->Spawn_args;
                    &&& all[i]->name == "nv-fabricmanager"@ ==> match known {
                        Some(g) => args.len() == 4 && args[0] == "-c"@ && args[1]
                            == "/run/fabricmanager.cfg"@ && args[2] == "-g"@ && args[3] == g,
                        None => !args.contains("-g"@) && args.len() == 2 && args[0] == "-c"@
                            && args[1] == "/run/fabricmanager.cfg"@,
                    }
                    &&& all[i]->name == "nvlsm"@ ==> known is Some && args.len() == 6 && args[2]
                        == "-g"@ && args[3] == known->Some_0
                }
        }),
{
    let all = boot_steps(mode, uvm, dcgm, guid, nvswitch, gpu_count, port)->Some_0;
    let plan = plan_of(mode, uvm, dcgm, guid, nvswitch, gpu_count, port);
    lemma_boot_fits(mode, uvm, dcgm, guid, nvswitch, gpu_count, port);
    lemma_names_differ();
    daemon::law_fabricmanager_is_given_the_port(plan.guid, "/bin/nv-fabricmanager"@);
    daemon::law_persistenced_bring_up(uvm);
    assert forall|i: int| 0 <= i < all.len() && (#[trigger] all[i]) is Spawn implies {
        let args = all[i]->Spawn_args;
        &&& all[i]->name == "nv-fabricmanager"@ ==> match plan.guid {
            Some(g) => args.len() == 4 && args[0] == "-c"@ && args[1] == "/run/fabricmanager.cfg"@
                && args[2] == "-g"@ && args[3] == g,
            None => !args.contains("-g"@) && args.len() == 2 && args[0] == "-c"@ && args[1]
                == "/run/fabricmanager.cfg"@,
        }
        &&& all[i]->name == "nvlsm"@ ==> plan.guid is Some && args.len() == 6 && args[2] == "-g"@
            && args[3] == plan.guid->Some_0
    } by {
        assert(fits(all[i], plan));
    }
}

/// Wherever a boot starts the persistence daemon, it is told to keep unified-memory
/// mappings exactly if that was not switched off; and a boot starts a DCGM daemon only
/// where DCGM was switched on.
pub proof fn law_settings_of_a_boot(
    mode: Seq<char>,
    uvm: Option<bool>,
    dcgm: Option<bool>,
    guid: Option<Seq<char>>,
    nvswitch: Option<Seq<char>>,
    gpu_count: usize,
    port: Option<Seq<char>>,
)
    requires
        boot_steps(mode, uvm, dcgm, guid, nvswitch, gpu_count, port) is Some,
    ensures
        ({
            let all = boot_steps(mode, uvm, dcgm, guid, nvswitch, gpu_count, port)->Some_0;
            forall|i: int|
                0 <= i < all.len() && (#[trigger] all[i]) is Spawn ==> {
                    let args = all[i]->Spawn_args;
                    &&& all[i]->name == "nvidia-persistenced"@ ==> args.contains("--verbose"@) && (
                    args.contains("--uvm-persistence-mode"@) <==> uvm != Some(false))
                    &&& all[i]->name == "nv-hostengine"@ || all[i]->name == "dcgm-exporter"@
                        ==> dcgm == Some(true)
                }
        }),
{
    let all = boot_steps(mode, uvm, dcgm, guid, nvswitch, gpu_count, port)->Some_0;
    let plan = plan_of(mode, uvm, dcgm, guid, nvswitch, gpu_count, port);
    lemma_boot_fits(mode, uvm, dcgm, guid, nvswitch, gpu_count, port);
    lemma_names_differ();
    daemon::law_persistenced_bring_up(uvm);
    assert forall|i: int| 0 <= i < all.len() && (#[trigger] all[i]) is Spawn implies {
        let args = all[i]->Spawn_args;
        &&& all[i]->name == "nvidia-persistenced"@ ==> args.contains("--verbose"@) && (
        args.contains("--uvm-persistence-mode"@) <==> uvm != Some(false))
        &&& all[i]->name == "nv-hostengine"@ || all[i]->name == "dcgm-exporter"@ ==> dcgm == Some(
            true,
        )
    } by {
        assert(fits(all[i], plan));
    }
}

/// A boot waits for a kernel message from each GPU that was detected, five minutes at
/// most, and for the report of the persistence daemon, two minutes at most.
pub proof fn law_waits_of_a_boot(
    mode: Seq<char>,
    uvm: Option<bool>,
    dcgm: Option<bool>,
    guid: Option<Seq<char>>,
    nvswitch: Option<Seq<char>>,
    gpu_count: usize,
    port: Option<Seq<char>>,
)
    requires
        boot_steps(mode, uvm, dcgm, guid, nvswitch, gpu_count, port) is Some,
    ensures
        ({
            let all = boot_steps(mode, uvm, dcgm, guid, nvswitch, gpu_count, port)->Some_0;
            forall|i: int|
                0 <= i < all.len() ==> match #[trigger] all[i] {
                    action::Step::WaitForKmsgCount { marker, count, timeout_secs } => {
                        &&& marker == "NVRM: knvlinkSetUniqueFabricBaseAddress_GV100"@
                        &&& count == gpu_count
                        &&& timeout_secs == 300
                    },
                    action::Step::WaitForMarker { marker, timeout_secs } => {
                        &&& marker == "nvidia-persistenced: Started ("@
                        &&& timeout_secs == 120
                    },
                    _ => true,
                }
        }),
{
    let all = boot_steps(mode, uvm, dcgm, guid, nvswitch, gpu_count, port)->Some_0;
    let plan = plan_of(mode, uvm, dcgm, guid, nvswitch, gpu_count, port);
    lemma_boot_fits(mode, uvm, dcgm, guid, nvswitch, gpu_count, port);
    assert forall|i: int| 0 <= i < all.len() implies match #[trigger] all[i] {
        action::Step::WaitForKmsgCount { marker, count, timeout_secs } => {
            &&& marker == "NVRM: knvlinkSetUniqueFabricBaseAddress_GV100"@
            &&& count == gpu_count
            &&& timeout_secs == 300
        },
        action::Step::WaitForMarker { marker, timeout_secs } => {
            &&& marker == "nvidia-persistenced: Started ("@
            &&& timeout_secs == 120
        },
        _ => true,
    } by {
        assert(fits(all[i], plan));
    }
}

/// What a boot that fails says: the mode that is unknown, or that the port is missing.
pub proof fn law_boot_errors(mode: String)
    ensures
        BootError::UnknownMode(mode).text() == "unknown mode: "@ + mode@,
        BootError::MissingPortGuid.text()
            == "nvl5 requires SW_MNG IB device with valid port GUID"@,
{
}

/// What is asked for as `plan` says tells each daemon what `plan` says.
proof fn lemma_told(before: NVRC, after: NVRC, ss: Seq<action::Step>, plan: Plan)
    requires
        after.asked(before, ss),
        all_fit(ss, plan),
    ensures
        forall|i: int|
            before.pending().len() <= i < after.pending().len()
                ==> match #[trigger] after.pending()[i] {
                action::Step::UpdateConfig { path, updates } => {
                    &&& updates.contains(
                        ("FABRIC_MODE"@, text::decimal(plan.fabric_mode as nat)),
                    )
                    &&& plan.fabric_mode != 0 ==> updates.contains(
                        ("PARTITION_RAIL_POLICY"@, plan.rail_policy),
                    )
                    &&& plan.fabric_mode == 0 ==> forall|k: int|
                        0 <= k < updates.len() ==> (#[trigger] updates[k]).0
                            != "PARTITION_RAIL_POLICY"@
                },
                action::Step::Spawn { name, bin, args } => {
                    &&& name == "nv-fabricmanager"@ ==> match plan.guid {
                        Some(g) => args.len() == 4 && args[2] == "-g"@ && args[3] == g,
                        None => !args.contains("-g"@),
                    }
                    &&& name == "nvlsm"@ ==> plan.guid is Some && args.len() == 6 && args[2]
                        == "-g"@ && args[3] == plan.guid->Some_0
                    &&& name == "nvidia-persistenced"@ ==> (args.contains(
                        "--uvm-persistence-mode"@,
                    ) <==> plan.uvm != Some(false))
                },
                _ => true,
            },
{
    lemma_names_differ();
    daemon::law_fabric_settings(plan.fabric_mode, plan.rail_policy);
    daemon::law_fabricmanager_is_given_the_port(plan.guid, "/bin/nv-fabricmanager"@);
    daemon::law_persistenced_bring_up(plan.uvm);
    assert forall|i: int|
        before.pending().len() <= i < after.pending().len() implies fits(
        #[trigger] after.pending()[i],
        plan,
    ) by {
        assert(after.pending()[i] == ss[i - before.pending().len()]);
    }
}

/// The steps of GPU mode, until a port is needed, tell the fabric manager full
/// passthrough and the persistence daemon its setting.
proof fn lemma_gpu_told(
    before: NVRC,
    after: NVRC,
    nvswitch: Option<Seq<char>>,
    gpu_count: usize,
)
    requires
        after.asked(
            before,
            gpu_steps(
                before.daemons(),
                before.uvm_persistence_mode,
                before.dcgm_enabled,
                before.guid(),
                nvswitch,
                gpu_count,
            ).0,
        ),
    ensures
        forall|i: int|
            before.pending().len() <= i < after.pending().len()
                ==> match #[trigger] after.pending()[i] {
                action::Step::UpdateConfig { path, updates } => {
                    &&& updates.contains(("FABRIC_MODE"@, "0"@))
                    &&& forall|k: int|
                        0 <= k < updates.len() ==> (#[trigger] updates[k]).0
                            != "PARTITION_RAIL_POLICY"@
                },
                action::Step::Spawn { name, bin, args } => {
                    &&& name == "nv-fabricmanager"@ ==> match before.guid() {
                        Some(g) => args.len() == 4 && args[2] == "-g"@ && args[3] == g,
                        None => !args.contains("-g"@),
                    }
                    &&& name == "nvidia-persistenced"@ ==> (args.contains(
                        "--uvm-persistence-mode"@,
                    ) <==> before.uvm_persistence_mode != Some(false))
                },
                _ => true,
            },
{
    let daemons = before.daemons();
    let uvm = before.uvm_persistence_mode;
    let dcgm = before.dcgm_enabled;
    let guid = before.guid();
    let ss = gpu_steps(daemons, uvm, dcgm, guid, nvswitch, gpu_count).0;
    let plan = Plan { fabric_mode: 0, rail_policy: "greedy"@, uvm, dcgm, guid, gpu_count };
    let load = gpu_load_steps();
    lemma_modes_differ();
    daemon::lemma_fabric_mode_texts();
    assert(all_fit(load, plan));
    if nvswitch == Some("nvl4"@) {
        let fabric = nvl4_steps(daemons, guid, 0, gpu_count);
        let after = daemons + action::spawned(fabric);
        lemma_nvl4_fits(daemons, guid, 0, gpu_count, plan);
        lemma_services_fit(after, uvm, dcgm, plan);
        lemma_fit_append(load, fabric, plan);
        lemma_fit_append(load + fabric, gpu_finish_steps(after, uvm, dcgm), plan);
    } else if nvswitch == Some("nvl5"@) {
        assert(all_fit(nvl5_probe_steps(), plan));
        lemma_fit_append(load, nvl5_probe_steps(), plan);
    } else {
        let imex = seq![action::Step::StartImex];
        assert(all_fit(imex, plan));
        lemma_services_fit(daemons, uvm, dcgm, plan);
        lemma_fit_append(load, imex, plan);
        lemma_fit_append(load + imex, gpu_finish_steps(daemons, uvm, dcgm), plan);
    }
    assert(all_fit(ss, plan));
    lemma_told(before, after, ss, plan);
}

/// The steps that are left when the port is known tell the fabric manager the mode that
/// was planned, the policy of NVL5 and the port.
proof fn lemma_rest_told(before: NVRC, after: NVRC, guid: Seq<char>, setup: Nvl5Setup)
    requires
        after.asked(
            before,
            nvl5_resume_steps(
                before.daemons(),
                before.uvm_persistence_mode,
                before.dcgm_enabled,
                guid,
                setup,
            ),
        ),
    ensures
        forall|i: int|
            before.pending().len() <= i < after.pending().len()
                ==> match #[trigger] after.pending()[i] {
                action::Step::UpdateConfig { path, updates } => {
                    &&& updates.contains(
                        ("FABRIC_MODE"@, text::decimal(setup.fabric_mode as nat)),
                    )
                    &&& setup.fabric_mode != 0 ==> updates.contains(
                        ("PARTITION_RAIL_POLICY"@, "symmetric"@),
                    )
                },
                action::Step::Spawn { name, bin, args } => {
                    &&& name == "nv-fabricmanager"@ ==> args.len() == 4 && args[2] == "-g"@
                        && args[3] == guid
                    &&& name == "nvlsm"@ ==> args.len() == 6 && args[2] == "-g"@ && args[3] == guid
                    &&& name == "nvidia-persistenced"@ ==> (args.contains(
                        "--uvm-persistence-mode"@,
                    ) <==> before.uvm_persistence_mode != Some(false))
                },
                _ => true,
            },
{
    let daemons = before.daemons();
    let uvm = before.uvm_persistence_mode;
    let dcgm = before.dcgm_enabled;
    let ss = nvl5_resume_steps(daemons, uvm, dcgm, guid, setup);
    let plan = Plan {
        fabric_mode: setup.fabric_mode,
        rail_policy: "symmetric"@,
        uvm,
        dcgm,
        guid: Some(guid),
        gpu_count: setup.gpu_count,
    };
    let fabric = nvl5_fabric_steps(daemons, guid, setup.fabric_mode, setup.gpu_count);
    let more = daemons + action::spawned(fabric);
    lemma_nvl5_fits(daemons, guid, setup.fabric_mode, setup.gpu_count, plan);
    lemma_services_fit(more, uvm, dcgm, plan);
    lemma_fit_append(fabric, gpu_finish_steps(more, uvm, dcgm), plan);
    assert(all_fit(ss, plan));
    lemma_told(before, after, ss, plan);
}

/// An optional text is there exactly if it was given, and is the one that was given.
pub proof fn law_option_text(o: Option<&str>)
    ensures
        option_text(o) is Some <==> o is Some,
        o is Some ==> option_text(o)->Some_0 == o->Some_0@,
{
}

} // verus!

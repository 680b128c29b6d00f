use nvrc::action::{Action, Smi};
use nvrc::boot::{
    begin_boot, boot_in_mode, boot_on_port, dispatch, mode_gpu, mode_nvl4, mode_nvl5, resume_nvl5,
    BootError, Nvl5Setup, Progress,
};
use nvrc::daemon::{FABRIC_MODE_FULL, FABRIC_MODE_SHARED};
use nvrc::nvrc::NVRC;

fn load(module: &str) -> Action {
    Action::LoadModule(module.to_string())
}

fn checks(names: &[&str]) -> Action {
    Action::HealthChecks(names.iter().map(|s| s.to_string()).collect())
}

/// The names of the daemons that the pending steps start.
fn spawned(init: &NVRC) -> Vec<String> {
    init.pending
        .iter()
        .filter_map(|a| match a {
            Action::Spawn { name, .. } => Some(name.clone()),
            _ => None,
        })
        .collect()
}

#[test]
fn the_boot_begins_with_the_machine_and_the_clock() {
    let mut init = NVRC::default();
    begin_boot(&mut init);
    assert_eq!(
        init.pending,
        vec![
            Action::SetPanicHook,
            Action::MountSetup,
            Action::LoopbackUp,
            Action::KernlogSetup,
            Action::PollSyslog,
            Action::SyncClock,
            Action::ProcessKernelParams,
            Action::DetectMode,
        ]
    );
}

#[test]
fn cpu_mode_only_locks_down() {
    let mut init = NVRC::default();
    assert_eq!(boot_in_mode(&mut init, "cpu", None, 0), Ok(Progress::Finished));
    assert_eq!(
        init.pending,
        vec![Action::DisableModuleLoading, Action::ForkAgent]
    );
}

#[test]
fn an_unknown_mode_fails() {
    let mut init = NVRC::default();
    let error = boot_in_mode(&mut init, "tpu", Some("nvl4"), 8).unwrap_err();
    assert_eq!(error, BootError::UnknownMode("tpu".to_string()));
    assert_eq!(error.message(), "unknown mode: tpu");
    assert!(init.pending.is_empty());
}

#[test]
fn nvl4_mode_starts_the_fabric_manager() {
    let mut init = NVRC::default();
    mode_nvl4(&mut init, FABRIC_MODE_SHARED, 8);
    assert_eq!(init.pending[0], load("nvidia"));
    assert_eq!(init.pending.len(), 7);
    assert_eq!(init.pending[6], checks(&["nv-fabricmanager"]));
    let mut other = NVRC::default();
    assert_eq!(
        dispatch(&mut other, "servicevm-nvl4", None, 8),
        Ok(Progress::Finished)
    );
    assert_eq!(other.pending, init.pending);
}

#[test]
fn nvl5_mode_waits_for_the_port() {
    let mut init = NVRC::default();
    let setup = mode_nvl5(&mut init, FABRIC_MODE_SHARED, 8);
    assert_eq!(
        init.take_actions(),
        vec![load("ib_umad"), load("mlx5_ib"), Action::DetectPortGuid]
    );
    assert_eq!(resume_nvl5(&mut init, setup, Some("0x1".to_string())), Ok(()));
    assert_eq!(init.port_guid, Some("0x1".to_string()));
    assert_eq!(spawned(&init), vec!["nvlsm", "nv-fabricmanager"]);
    assert_eq!(init.pending[1], checks(&["nvlsm"]));
    assert_eq!(init.pending[7], checks(&["nvlsm", "nv-fabricmanager"]));
    assert_eq!(init.pending.len(), 8);
}

#[test]
fn nvl5_mode_fails_without_a_port() {
    let mut init = NVRC::default();
    let setup = Nvl5Setup {
        fabric_mode: FABRIC_MODE_SHARED,
        gpu_count: 8,
        gpus_follow: false,
    };
    let error = boot_on_port(&mut init, setup, None).unwrap_err();
    assert_eq!(error, BootError::MissingPortGuid);
    assert_eq!(
        error.message(),
        "nvl5 requires SW_MNG IB device with valid port GUID"
    );
    assert!(init.pending.is_empty());
}

#[test]
fn gpu_mode_without_a_switch_starts_imex() {
    let mut init = NVRC::default();
    assert_eq!(mode_gpu(&mut init, None, 1), Progress::Finished);
    assert_eq!(init.pending[0], load("nvidia"));
    assert_eq!(init.pending[1], load("nvidia-uvm"));
    assert_eq!(
        init.pending[2],
        Action::LogGpuInitState("post-modprobe".to_string())
    );
    assert_eq!(init.pending[3], Action::StartImex);
    assert_eq!(init.pending[8], Action::NvidiaSmi(Smi::Lmc));
    assert_eq!(init.pending[9], Action::NvidiaSmi(Smi::Lgc));
    assert_eq!(init.pending[10], Action::NvidiaSmi(Smi::Pl));
    assert_eq!(init.pending[12], Action::InjectImexMounts);
    assert_eq!(init.pending[13], Action::NvidiaSmi(Smi::Srs));
    assert_eq!(init.pending[14], checks(&["nvidia-persistenced"]));
    assert_eq!(init.pending.len(), 15);
    let mut other = NVRC::default();
    assert_eq!(mode_gpu(&mut other, Some("nvl6"), 1), Progress::Finished);
    assert_eq!(other.pending, init.pending);
}

#[test]
fn gpu_mode_with_nvl4_and_dcgm() {
    let mut init = NVRC::default();
    init.dcgm_enabled = Some(true);
    assert_eq!(
        boot_in_mode(&mut init, "gpu", Some("nvl4"), 8),
        Ok(Progress::Finished)
    );
    let daemons = [
        "nv-fabricmanager",
        "nvidia-persistenced",
        "nv-hostengine",
        "dcgm-exporter",
    ];
    assert_eq!(spawned(&init), daemons);
    let n = init.pending.len();
    assert_eq!(init.pending[n - 3], checks(&daemons));
    assert_eq!(init.pending[n - 2], Action::DisableModuleLoading);
    assert_eq!(init.pending[n - 1], Action::ForkAgent);
}

#[test]
fn gpu_mode_with_nvl5_goes_on_when_the_port_is_known() {
    let mut init = NVRC::default();
    let setup = match boot_in_mode(&mut init, "gpu", Some("nvl5"), 8) {
        Ok(Progress::NeedsPortGuid(setup)) => setup,
        other => panic!("unexpected: {:?}", other),
    };
    assert_eq!(setup.fabric_mode, FABRIC_MODE_FULL);
    assert!(setup.gpus_follow);
    assert_eq!(init.pending.len(), 6);
    assert_eq!(boot_on_port(&mut init, setup, Some("0x1".to_string())), Ok(()));
    assert_eq!(
        spawned(&init),
        vec!["nvlsm", "nv-fabricmanager", "nvidia-persistenced"]
    );
    assert_eq!(init.pending[init.pending.len() - 1], Action::ForkAgent);
}

#[test]
fn servicevm_nvl5_is_a_shared_fabric() {
    let mut init = NVRC::default();
    assert_eq!(
        boot_in_mode(&mut init, "servicevm-nvl5", None, 4),
        Ok(Progress::NeedsPortGuid(Nvl5Setup {
            fabric_mode: FABRIC_MODE_SHARED,
            gpu_count: 4,
            gpus_follow: false,
        }))
    );
    assert_eq!(init.pending.len(), 3);
}

#[test]
fn the_steps_taken_after_each_phase_are_those_of_the_boot() {
    let boot = |take: bool| {
        let mut init = NVRC::default();
        let mut taken = Vec::new();
        begin_boot(&mut init);
        if take {
            taken.extend(init.take_actions());
            assert!(init.pending.is_empty());
        }
        init.dcgm_enabled = Some(true);
        let setup = match boot_in_mode(&mut init, "gpu", Some("nvl5"), 8) {
            Ok(Progress::NeedsPortGuid(setup)) => setup,
            other => panic!("unexpected: {:?}", other),
        };
        if take {
            taken.extend(init.take_actions());
        }
        assert_eq!(boot_on_port(&mut init, setup, Some("0x1".to_string())), Ok(()));
        taken.extend(init.take_actions());
        taken
    };
    let steps = boot(true);
    assert_eq!(steps, boot(false));
    assert_eq!(steps[0], Action::SetPanicHook);
    assert_eq!(steps[8], load("nvidia"));
    assert_eq!(steps[13], Action::DetectPortGuid);
    assert_eq!(steps[steps.len() - 1], Action::ForkAgent);
}

use nvrc::action::Action;
use nvrc::config::update_config;
use nvrc::daemon::{
    dcgm_exporter_args, fabricmanager_updates, hostengine_args, persistenced_args, FABRIC_MARKER,
    FABRIC_MODE_FULL, FABRIC_MODE_SHARED,
};
use nvrc::nvrc::NVRC;

fn strings(v: &[&str]) -> Vec<String> {
    v.iter().map(|s| s.to_string()).collect()
}

fn spawn(name: &str, bin: &str, args: &[&str]) -> Action {
    Action::Spawn {
        name: name.to_string(),
        bin: bin.to_string(),
        args: strings(args),
    }
}

fn checks(names: &[&str]) -> Action {
    Action::HealthChecks(strings(names))
}

/// The text of a configuration file after the fabric manager was configured.
fn configured(text: &str, fabric_mode: u8, rail_policy: &str) -> String {
    let mut nvrc = NVRC::default();
    nvrc.configure_fabricmanager("/run/test.cfg", fabric_mode, rail_policy);
    match &nvrc.pending[..] {
        [Action::UpdateConfig { path, updates }] => {
            assert_eq!(path, "/run/test.cfg");
            update_config(text, updates)
        }
        other => panic!("unexpected steps: {:?}", other),
    }
}

// === Argument builders ===

#[test]
fn test_persistenced_args_with_uvm() {
    let args = persistenced_args(true);
    assert_eq!(args, vec!["--verbose", "--uvm-persistence-mode"]);
}

#[test]
fn test_persistenced_args_without_uvm() {
    let args = persistenced_args(false);
    assert_eq!(args, vec!["--verbose"]);
}

#[test]
fn test_hostengine_args() {
    let args = hostengine_args();
    assert_eq!(
        args,
        &["--service-account", "nvidia-dcgm", "--home-dir", "/tmp"]
    );
}

#[test]
fn test_dcgm_exporter_args() {
    let args = dcgm_exporter_args();
    assert_eq!(
        args,
        &["-k", "-f", "/etc/dcgm-exporter/default-counters.csv"]
    );
}

// === Daemons that are skipped ===

#[test]
fn test_nv_hostengine_skipped_by_default() {
    let mut nvrc = NVRC::default();
    nvrc.nv_hostengine();
    nvrc.health_checks();
    assert_eq!(nvrc.pending, vec![checks(&[])]);
}

#[test]
fn test_dcgm_exporter_skipped_by_default() {
    let mut nvrc = NVRC::default();
    nvrc.dcgm_exporter();
    assert!(nvrc.pending.is_empty());
}

#[test]
fn dcgm_switched_off_starts_nothing() {
    let mut nvrc = NVRC::default();
    nvrc.dcgm_enabled = Some(false);
    nvrc.nv_hostengine();
    nvrc.dcgm_exporter();
    assert!(nvrc.pending.is_empty());
    assert!(nvrc.daemons.is_empty());
}

#[test]
fn test_nv_fabricmanager_gpu_mode() {
    let mut nvrc = NVRC::default();
    nvrc.configure_fabricmanager("/run/test.cfg", FABRIC_MODE_FULL, "greedy");
    nvrc.spawn_fabricmanager("/bin/true");

    let content = match &nvrc.pending[0] {
        Action::UpdateConfig { updates, .. } => update_config("FABRIC_MODE=0\n", updates),
        other => panic!("unexpected step: {:?}", other),
    };
    assert!(content.contains("FABRIC_MODE=0"));
    nvrc.health_checks();
    assert_eq!(nvrc.pending[2], checks(&["nv-fabricmanager"]));
}

#[test]
fn test_spawn_persistenced_success() {
    let mut nvrc = NVRC::default();
    nvrc.spawn_persistenced("/tmp/x/nvidia-persistenced", "/bin/true");
    nvrc.health_checks();
    assert_eq!(
        nvrc.pending,
        vec![
            Action::CreateDirAll("/tmp/x/nvidia-persistenced".to_string()),
            spawn(
                "nvidia-persistenced",
                "/bin/true",
                &["--verbose", "--uvm-persistence-mode"]
            ),
            checks(&["nvidia-persistenced"]),
        ]
    );
}

#[test]
fn test_spawn_persistenced_uvm_disabled() {
    let mut nvrc = NVRC::default();
    nvrc.uvm_persistence_mode = Some(false);
    nvrc.spawn_persistenced("/tmp/x/nvidia-persistenced", "/bin/true");
    assert_eq!(
        nvrc.pending[1],
        spawn("nvidia-persistenced", "/bin/true", &["--verbose"])
    );
}

#[test]
fn persistenced_log_is_opened_before_the_daemon_starts() {
    let mut nvrc = NVRC::default();
    nvrc.nvidia_persistenced();
    assert_eq!(
        nvrc.pending,
        vec![
            Action::OpenLog("/dev/kmsg".to_string()),
            Action::CreateDirAll("/var/run/nvidia-persistenced".to_string()),
            spawn(
                "nvidia-persistenced",
                "/bin/nvidia-persistenced",
                &["--verbose", "--uvm-persistence-mode"]
            ),
            Action::WaitForMarker {
                marker: "nvidia-persistenced: Started (".to_string(),
                timeout_secs: 120,
            },
        ]
    );
}

#[test]
fn test_spawn_hostengine_success() {
    let mut nvrc = NVRC::default();
    nvrc.dcgm_enabled = Some(true);
    nvrc.spawn_hostengine("/bin/true");
    nvrc.health_checks();
    assert_eq!(
        nvrc.pending,
        vec![
            spawn(
                "nv-hostengine",
                "/bin/true",
                &["--service-account", "nvidia-dcgm", "--home-dir", "/tmp"]
            ),
            checks(&["nv-hostengine"]),
        ]
    );
}

#[test]
fn test_spawn_dcgm_exporter_success() {
    let mut nvrc = NVRC::default();
    nvrc.dcgm_enabled = Some(true);
    nvrc.spawn_dcgm_exporter("/bin/true");
    assert_eq!(
        nvrc.pending,
        vec![spawn(
            "dcgm-exporter",
            "/bin/true",
            &["-k", "-f", "/etc/dcgm-exporter/default-counters.csv"]
        )]
    );
}

#[test]
fn test_spawn_fabricmanager_success() {
    let mut nvrc = NVRC::default();
    nvrc.spawn_fabricmanager("/bin/true");
    assert_eq!(
        nvrc.pending,
        vec![spawn(
            "nv-fabricmanager",
            "/bin/true",
            &["-c", "/run/fabricmanager.cfg"]
        )]
    );
}

#[test]
fn test_spawn_fabricmanager_with_port_guid() {
    let mut nvrc = NVRC::default();
    nvrc.port_guid = Some("0xdeadbeef".to_string());
    nvrc.spawn_fabricmanager("/bin/true");
    nvrc.health_checks();
    assert_eq!(
        nvrc.pending,
        vec![
            spawn(
                "nv-fabricmanager",
                "/bin/true",
                &["-c", "/run/fabricmanager.cfg", "-g", "0xdeadbeef"]
            ),
            checks(&["nv-fabricmanager"]),
        ]
    );
}

#[test]
fn test_spawn_nvlsm_success() {
    let mut nvrc = NVRC::default();
    nvrc.port_guid = Some("0xdeadbeef".to_string());
    nvrc.spawn_nvlsm("/bin/true");
    nvrc.health_checks();
    assert_eq!(
        nvrc.pending,
        vec![
            spawn(
                "nvlsm",
                "/bin/true",
                &[
                    "-F",
                    "/usr/share/nvidia/nvlsm/nvlsm.conf",
                    "-g",
                    "0xdeadbeef",
                    "-f",
                    "stdout"
                ]
            ),
            checks(&["nvlsm"]),
        ]
    );
}

#[test]
fn test_spawn_nvlsm_skipped_without_guid() {
    let mut nvrc = NVRC::default();
    nvrc.spawn_nvlsm("/bin/true");
    assert!(nvrc.pending.is_empty());
    nvrc.nv_nvlsm();
    assert!(nvrc.pending.is_empty());
}

#[test]
fn test_health_checks_empty() {
    let mut nvrc = NVRC::default();
    nvrc.health_checks();
    assert_eq!(nvrc.pending, vec![checks(&[])]);
}

#[test]
fn taken_steps_are_no_longer_pending() {
    let mut nvrc = NVRC::default();
    nvrc.spawn_fabricmanager("/bin/true");
    let taken = nvrc.take_actions();
    assert_eq!(taken.len(), 1);
    assert!(nvrc.pending.is_empty());
    nvrc.health_checks();
    assert_eq!(nvrc.pending, vec![checks(&["nv-fabricmanager"])]);
}

#[test]
fn fabricmanager_is_configured_before_it_starts() {
    let mut nvrc = NVRC::default();
    nvrc.nv_fabricmanager(FABRIC_MODE_SHARED, "greedy", 8);
    let runtime = "/run/fabricmanager.cfg".to_string();
    assert_eq!(
        nvrc.pending,
        vec![
            Action::CopyFile {
                from: "/usr/share/nvidia/nvswitch/fabricmanager.cfg".to_string(),
                to: runtime.clone(),
            },
            Action::UpdateConfig {
                path: runtime.clone(),
                updates: fabricmanager_updates(FABRIC_MODE_SHARED, "greedy"),
            },
            Action::SetPermissions {
                path: runtime,
                mode: 0o400,
            },
            spawn(
                "nv-fabricmanager",
                "/bin/nv-fabricmanager",
                &["-c", "/run/fabricmanager.cfg"]
            ),
            Action::WaitForKmsgCount {
                marker: FABRIC_MARKER.to_string(),
                count: 8,
                timeout_secs: 300,
            },
        ]
    );
}

// === The fabric manager's configuration ===

#[test]
fn test_configure_fabricmanager_bare_metal() {
    let content = configured("", FABRIC_MODE_FULL, "greedy");
    assert!(content.contains("FABRIC_MODE=0"));
}

#[test]
fn test_configure_fabricmanager_servicevm_nvl4() {
    let content = configured("", FABRIC_MODE_SHARED, "greedy");
    assert!(content.contains("FABRIC_MODE=1"));
}

#[test]
fn test_configure_fabricmanager_servicevm_nvl5() {
    let content = configured("", FABRIC_MODE_SHARED, "symmetric");
    assert!(content.contains("FABRIC_MODE=1"));
}

#[test]
fn test_configure_fabricmanager_updates_existing() {
    let content = configured("FABRIC_MODE=0\n", FABRIC_MODE_SHARED, "greedy");
    assert!(content.contains("FABRIC_MODE=1"));
    let lines: Vec<&str> = content.lines().collect();
    assert_eq!(
        lines
            .iter()
            .filter(|l| l.starts_with("FABRIC_MODE="))
            .count(),
        1
    );
}

#[test]
fn test_configure_fabricmanager_preserves_other_config() {
    let content = configured(
        "# Comment\nOTHER_SETTING=value\nFABRIC_MODE=0\n",
        FABRIC_MODE_SHARED,
        "greedy",
    );
    assert!(content.contains("# Comment"));
    assert!(content.contains("OTHER_SETTING=value"));
    assert!(content.contains("FABRIC_MODE=1"));
}

#[test]
fn test_configure_fabricmanager_nvl4_greedy_rail_policy() {
    let content = configured("", FABRIC_MODE_SHARED, "greedy");
    assert!(content.contains("PARTITION_RAIL_POLICY=greedy"));
}

#[test]
fn test_configure_fabricmanager_nvl5_symmetric_rail_policy() {
    let content = configured("", FABRIC_MODE_SHARED, "symmetric");
    assert!(content.contains("PARTITION_RAIL_POLICY=symmetric"));
}

#[test]
fn test_configure_fabricmanager_full_mode_omits_rail_policy() {
    let content = configured("", FABRIC_MODE_FULL, "symmetric");
    assert!(content.contains("FABRIC_MODE=0"));
    assert!(
        !content.contains("PARTITION_RAIL_POLICY"),
        "PARTITION_RAIL_POLICY must not be written in FABRIC_MODE_FULL; got:\n{}",
        content
    );
}

#[test]
fn test_configure_fabricmanager_full_mode_preserves_existing_rail_policy() {
    let content = configured("PARTITION_RAIL_POLICY=greedy\n", FABRIC_MODE_FULL, "symmetric");
    assert!(content.contains("PARTITION_RAIL_POLICY=greedy"));
    assert!(!content.contains("PARTITION_RAIL_POLICY=symmetric"));
}

#[test]
fn test_configure_fabricmanager_all_settings() {
    let content = configured("", FABRIC_MODE_SHARED, "symmetric");
    assert!(content.contains("FABRIC_MODE=1"));
    assert!(content.contains("PARTITION_RAIL_POLICY=symmetric"));
}

#[test]
fn test_configure_fabricmanager_emits_diagnostic_overrides() {
    let content = configured(
        "LOG_FILE_NAME=/var/log/fabricmanager.log\n\
         LOG_LEVEL=4\n\
         LOG_USE_SYSLOG=1\n\
         DAEMONIZE=1\n",
        FABRIC_MODE_FULL,
        "greedy",
    );
    let has_line = |k: &str| content.lines().any(|l| l.trim() == k);
    assert!(has_line("LOG_FILE_NAME=/dev/stderr"), "got:\n{}", content);
    assert!(has_line("LOG_LEVEL=5"), "got:\n{}", content);
    assert!(has_line("LOG_USE_SYSLOG=0"), "got:\n{}", content);
    assert!(has_line("DAEMONIZE=0"), "got:\n{}", content);
    assert!(
        !content.contains("LOG_FILE_NAME=/var/log/fabricmanager.log"),
        "stale LOG_FILE_NAME survived:\n{}",
        content
    );
    assert!(!has_line("LOG_LEVEL=4"), "stale LOG_LEVEL survived:\n{}", content);
    assert!(!has_line("LOG_USE_SYSLOG=1"), "stale LOG_USE_SYSLOG survived:\n{}", content);
    assert!(!has_line("DAEMONIZE=1"), "stale DAEMONIZE survived:\n{}", content);
}

#[test]
fn the_whole_configuration_of_a_shared_fabric() {
    assert_eq!(
        configured("A=1\r\nFABRIC_MODE=0\nLOG_LEVEL=4", 200, "greedy"),
        "A=1\nFABRIC_MODE=200\nLOG_LEVEL=5\nLOG_FILE_NAME=/dev/stderr\nLOG_USE_SYSLOG=0\n\
         DAEMONIZE=0\nPARTITION_RAIL_POLICY=greedy\n"
    );
}

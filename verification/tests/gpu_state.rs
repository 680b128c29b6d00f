use nvrc::gpu_state::{
    device_node, device_nodes, gpus_line, information_line, log_gpu_init_state, nodes_line,
    version_line, Signals, CONTROL_DEVICE, GPUS_DIR, INFORMATION_FILE, UVM_DEVICE, VERSION_FILE,
};

fn nodes(present: &[usize]) -> [bool; 32] {
    let mut v = [false; 32];
    for n in present {
        v[*n] = true;
    }
    v
}

#[test]
fn the_places_that_are_looked_at() {
    assert_eq!(CONTROL_DEVICE, "/dev/nvidiactl");
    assert_eq!(UVM_DEVICE, "/dev/nvidia-uvm");
    assert_eq!(device_node(31), "/dev/nvidia31");
    assert_eq!(GPUS_DIR, "/proc/driver/nvidia/gpus");
    assert_eq!(INFORMATION_FILE, "information");
    assert_eq!(VERSION_FILE, "/proc/driver/nvidia/version");
}

#[test]
fn device_nodes_are_those_that_exist() {
    assert_eq!(
        device_nodes(&nodes(&[0, 7, 31])),
        vec!["/dev/nvidia0", "/dev/nvidia7", "/dev/nvidia31"]
    );
    assert!(device_nodes(&nodes(&[])).is_empty());
}

#[test]
fn the_snapshot_of_a_healthy_host() {
    let signals = Signals {
        ctl: true,
        uvm: false,
        nodes: nodes(&[0, 10]),
        gpus: Ok(vec!["0000:01:00.0".to_string(), "a\"b".to_string()]),
        version: Ok("NVRM version: 580\nGCC version: 13\n".to_string()),
        information: vec![
            (
                "0000:01:00.0".to_string(),
                Ok("Model: \t X\n  Device Minor: \t 0 \nDevice Minor: 1\n".to_string()),
            ),
            ("g1".to_string(), Ok("Model: Y\n".to_string())),
            ("g2".to_string(), Err("denied".to_string())),
        ],
    };
    assert_eq!(
        log_gpu_init_state("ctx", &signals),
        vec![
            "gpu_init_state [ctx]: collecting signals",
            "gpu_init_state [ctx]: /dev/nvidiactl=true /dev/nvidia-uvm=false \
             /dev/nvidia<N>=[\"/dev/nvidia0\", \"/dev/nvidia10\"]",
            "gpu_init_state [ctx]: /proc/driver/nvidia/gpus entries=[\"0000:01:00.0\", \"a\\\"b\"]",
            "gpu_init_state [ctx]: /proc/driver/nvidia/version first line: NVRM version: 580",
            "gpu_init_state [ctx]: gpu 0000:01:00.0 information: Device Minor: \t 0",
            "gpu_init_state [ctx]: gpu g1 information: <no Device Minor line>",
            "gpu_init_state [ctx]: gpu g2 information unreadable: denied",
        ]
    );
}

#[test]
fn the_snapshot_without_a_driver() {
    let signals = Signals {
        ctl: false,
        uvm: true,
        nodes: nodes(&[]),
        gpus: Err("No such file".to_string()),
        version: Err("No such file".to_string()),
        information: vec![],
    };
    assert_eq!(
        log_gpu_init_state("x", &signals),
        vec![
            "gpu_init_state [x]: collecting signals",
            "gpu_init_state [x]: /dev/nvidiactl=false /dev/nvidia-uvm=true /dev/nvidia<N>=[]",
            "gpu_init_state [x]: /proc/driver/nvidia/gpus unreadable: No such file",
            "gpu_init_state [x]: /proc/driver/nvidia/version unreadable: No such file",
        ]
    );
}

#[test]
fn single_lines() {
    assert_eq!(
        version_line("x", &Ok(String::new())),
        "gpu_init_state [x]: /proc/driver/nvidia/version first line: <empty>"
    );
    assert_eq!(
        gpus_line("x", Ok("[]")),
        "gpu_init_state [x]: /proc/driver/nvidia/gpus entries=[]"
    );
    assert_eq!(
        nodes_line("x", true, true, "L"),
        "gpu_init_state [x]: /dev/nvidiactl=true /dev/nvidia-uvm=true /dev/nvidia<N>=L"
    );
    assert_eq!(
        information_line("x", "g", &Ok("Device Minor: 3".to_string())),
        "gpu_init_state [x]: gpu g information: Device Minor: 3"
    );
}

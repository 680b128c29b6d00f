use nvrc::action::Action;
use nvrc::toolkit::{
    ctk, draft_path, imex_config_paths, inject_imex_config_mounts, insert_into_toplevel_mounts,
    nvidia_ctk_cdi, ImexAction, ImexEvent, CDI_SPEC,
};

const SPEC: &str = "cdiVersion: \"0.6.0\"
kind: \"nvidia.com/gpu\"
devices:
  - name: \"0\"
    containerEdits:
      deviceNodes:
        - path: /dev/nvidia0
containerEdits:
  deviceNodes:
    - path: /dev/nvidiactl
  mounts:
    - hostPath: /usr/bin/nvidia-smi
      containerPath: /usr/bin/nvidia-smi
      options:
        - ro
        - bind
";

#[test]
fn test_insert_into_toplevel_mounts_adds_under_toplevel() {
    let paths = vec!["/etc/nvidia-imex/config.cfg".to_string()];
    let out = insert_into_toplevel_mounts(SPEC, &paths).unwrap();
    assert!(out.contains("- hostPath: /etc/nvidia-imex/config.cfg"));
    assert!(out.contains("containerPath: /etc/nvidia-imex/config.cfg"));
    assert!(out.contains("/usr/bin/nvidia-smi"));
    let mounts_pos = out.find("\n  mounts:").unwrap();
    let imex_pos = out.find("/etc/nvidia-imex/config.cfg").unwrap();
    assert!(imex_pos > mounts_pos);
}

#[test]
fn test_insert_into_toplevel_mounts_none_without_mounts() {
    let spec = "kind: \"nvidia.com/gpu\"
containerEdits:
  deviceNodes:
    - path: /dev/nvidiactl
";
    assert!(insert_into_toplevel_mounts(spec, &["/x".to_string()]).is_none());
}

#[test]
fn the_whole_document_after_an_insertion() {
    let spec = "containerEdits:\n\n   mounts:\n   - x";
    let out = insert_into_toplevel_mounts(spec, &["/p".to_string(), "/q".to_string()]).unwrap();
    assert_eq!(
        out,
        "containerEdits:\n\n   mounts:\n     - hostPath: /p\n       containerPath: /p\n       \
         options:\n         - ro\n         - nosuid\n         - nodev\n         - bind\n     \
         - hostPath: /q\n       containerPath: /q\n       options:\n         - ro\n         \
         - nosuid\n         - nodev\n         - bind\n   - x\n"
    );
}

#[test]
fn an_insertion_keeps_every_line_and_the_key() {
    let paths = vec!["/etc/nvidia-imex/config.cfg".to_string()];
    let out = insert_into_toplevel_mounts(SPEC, &paths).unwrap();
    let before: Vec<&str> = SPEC.lines().collect();
    let after: Vec<&str> = out.lines().collect();
    assert_eq!(after[..11], before[..11]);
    assert_eq!(after[11 + 7..], before[11..]);
    assert!(insert_into_toplevel_mounts(&out, &paths).is_some());
    assert_eq!(insert_into_toplevel_mounts(SPEC, &[]).unwrap(), SPEC);
}

#[test]
fn the_last_top_level_block_counts() {
    let spec = "containerEdits:\n  mounts:\ncontainerEdits: \n  env:\n";
    assert!(insert_into_toplevel_mounts(spec, &[]).is_none());
}

#[test]
fn the_block_ends_at_column_zero() {
    let spec = "containerEdits:\n  env:\nother:\n  mounts:\n";
    assert!(insert_into_toplevel_mounts(spec, &[]).is_none());
    let spec = "devices:\n  containerEdits:\n    mounts:\n";
    assert!(insert_into_toplevel_mounts(spec, &[]).is_none());
}

#[test]
fn a_nested_mounts_key_is_passed_over() {
    let paths = ["/p".to_string()];
    let nested = "containerEdits:\n  hooks:\n    mounts:\n";
    assert_eq!(insert_into_toplevel_mounts(nested, &paths), None);

    let later = "containerEdits:\n  hooks:\n    mounts:\n  mounts:\n    - x\n";
    assert_eq!(
        insert_into_toplevel_mounts(later, &paths).unwrap(),
        "containerEdits:\n  hooks:\n    mounts:\n  mounts:\n    - hostPath: /p\n      \
         containerPath: /p\n      options:\n        - ro\n        - nosuid\n        - nodev\n        \
         - bind\n    - x\n"
    );

    let in_a_list = "containerEdits:\n  hooks:\n  - name: a\n    mounts:\n  env:\n";
    assert_eq!(insert_into_toplevel_mounts(in_a_list, &paths), None);
}

#[test]
fn the_indentation_of_a_comment_does_not_count() {
    let paths = ["/p".to_string()];
    let spec = "containerEdits:\n # a comment\n  mounts:\n";
    let out = insert_into_toplevel_mounts(spec, &paths).unwrap();
    assert!(out.starts_with("containerEdits:\n # a comment\n  mounts:\n    - hostPath: /p\n"));
    let nested = "containerEdits:\n  hooks:\n      # a comment\n    mounts:\n";
    assert_eq!(insert_into_toplevel_mounts(nested, &paths), None);
}

#[test]
fn the_toolkit_generates_the_document_and_completes_it() {
    let steps = nvidia_ctk_cdi();
    assert_eq!(
        steps,
        vec![
            Action::Run {
                bin: "/bin/nvidia-ctk".to_string(),
                args: vec![
                    "-d".to_string(),
                    "cdi".to_string(),
                    "generate".to_string(),
                    "--output=/var/run/cdi/nvidia.yaml".to_string(),
                ],
            },
            Action::InjectImexMounts,
        ]
    );
    assert_eq!(CDI_SPEC, "/var/run/cdi/nvidia.yaml");
    assert_eq!(
        ctk(vec!["--version".to_string()]),
        Action::Run {
            bin: "/bin/nvidia-ctk".to_string(),
            args: vec!["--version".to_string()],
        }
    );
}

#[test]
fn only_files_that_exist_are_mounted() {
    let config = "/etc/nvidia-imex/config.cfg".to_string();
    let nodes = "/etc/nvidia-imex/nodes_config.cfg".to_string();
    assert_eq!(imex_config_paths(), vec![config.clone(), nodes.clone()]);
    let probe = |a: bool, b: bool| inject_imex_config_mounts(&ImexEvent::Probed([a, b]));
    assert_eq!(probe(false, false), ImexAction::NoConfig);
    assert_eq!(probe(true, false), ImexAction::ReadSpec(vec![config.clone()]));
    assert_eq!(probe(false, true), ImexAction::ReadSpec(vec![nodes.clone()]));
    assert_eq!(probe(true, true), ImexAction::ReadSpec(vec![config, nodes]));
}

#[test]
fn a_document_without_a_place_for_mounts_is_not_written() {
    let read = |spec: Option<&str>| {
        inject_imex_config_mounts(&ImexEvent::SpecRead {
            present: vec!["/p".to_string()],
            spec: spec.map(|s| s.to_string()),
        })
    };
    assert_eq!(read(None), ImexAction::Unreadable);
    assert_eq!(read(Some("kind: x\n")), ImexAction::NoMounts);
    match read(Some(SPEC)) {
        ImexAction::WriteDraft(out) => assert_eq!(
            Some(out),
            insert_into_toplevel_mounts(SPEC, &["/p".to_string()])
        ),
        other => panic!("unexpected: {:?}", other),
    }
}

#[test]
fn the_document_is_replaced_only_by_a_whole_draft() {
    let next = |event: ImexEvent| inject_imex_config_mounts(&event);
    assert_eq!(next(ImexEvent::DraftWritten(true)), ImexAction::ReplaceSpec);
    assert_eq!(next(ImexEvent::DraftWritten(false)), ImexAction::Unwritable);
    assert_eq!(next(ImexEvent::SpecReplaced(true)), ImexAction::Injected);
    assert_eq!(next(ImexEvent::SpecReplaced(false)), ImexAction::Unwritable);
    assert_eq!(draft_path(CDI_SPEC), "/var/run/cdi/nvidia.yaml.draft");
}

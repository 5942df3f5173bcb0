use navi::deployment::{keys_for_step, ActivationStep, DeployOptions, Goal, NodeActivator, UploadKeyAt};

fn options(upload_keys: bool, reboot: bool) -> DeployOptions {
    DeployOptions {
        upload_keys,
        substituters_push: true,
        gzip: false,
        force_replace_unknown_profiles: false,
        install_bootloader: false,
        reboot,
        create_gc_roots: false,
        force_build_on_target: None,
    }
}

fn both_keys() -> Vec<(String, UploadKeyAt)> {
    vec![("a".to_string(), UploadKeyAt::PreActivation), ("b".to_string(), UploadKeyAt::PostActivation)]
}

fn steps(act: &NodeActivator, replace_unknown: bool, keys: &Vec<(String, UploadKeyAt)>) -> Vec<ActivationStep> {
    let mut out = Vec::new();
    let mut done = None;
    while let Some(s) = act.next_step(replace_unknown, keys, done, true) {
        out.push(s);
        done = Some(s);
    }
    out
}

#[test]
fn full_activation_order() {
    let act = NodeActivator::new(Goal::Switch, options(true, true), 1);
    assert_eq!(
        steps(&act, false, &both_keys()),
        vec![
            ActivationStep::PreActivationKeys,
            ActivationStep::CheckProfile,
            ActivationStep::Activate,
            ActivationStep::WriteProvenance,
            ActivationStep::Reboot,
            ActivationStep::PostActivationKeys,
        ]
    );
}

#[test]
fn skipped_steps() {
    let act = NodeActivator::new(Goal::Build, options(false, false), 1);
    assert_eq!(steps(&act, true, &both_keys()), vec![ActivationStep::Activate]);
    let act = NodeActivator::new(Goal::Boot, options(false, false), 1);
    assert_eq!(steps(&act, false, &both_keys()), vec![ActivationStep::CheckProfile, ActivationStep::Activate, ActivationStep::WriteProvenance]);
}

#[test]
fn failure_stops_activation() {
    let act = NodeActivator::new(Goal::Switch, options(true, true), 1);
    assert_eq!(act.next_step(false, &both_keys(), Some(ActivationStep::CheckProfile), false), None);
}

#[test]
fn keys_split_by_upload_time() {
    let keys = vec![
        ("a".to_string(), UploadKeyAt::PreActivation),
        ("b".to_string(), UploadKeyAt::PostActivation),
        ("c".to_string(), UploadKeyAt::PreActivation),
    ];
    assert_eq!(keys_for_step(&keys, ActivationStep::PreActivationKeys), vec!["a", "c"]);
    assert_eq!(keys_for_step(&keys, ActivationStep::PostActivationKeys), vec!["b"]);
    assert!(keys_for_step(&keys, ActivationStep::Activate).is_empty());
}

#[test]
fn key_steps_without_keys_are_skipped() {
    let act = NodeActivator::new(Goal::Switch, options(true, false), 1);
    let post_only = vec![("b".to_string(), UploadKeyAt::PostActivation)];
    assert_eq!(
        steps(&act, false, &post_only),
        vec![
            ActivationStep::CheckProfile,
            ActivationStep::Activate,
            ActivationStep::WriteProvenance,
            ActivationStep::PostActivationKeys,
        ]
    );
    assert_eq!(
        steps(&act, false, &vec![]),
        vec![ActivationStep::CheckProfile, ActivationStep::Activate, ActivationStep::WriteProvenance]
    );
}

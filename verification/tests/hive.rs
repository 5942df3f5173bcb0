use navi::hive::{
    build_config_chunks, deployment_config_selected, deployment_config_single, eval_selected, eval_selected_drv_paths,
    introspect, introspect_json, parent_of, repl_flake, repl_legacy, EvaluationMethod, Hive, HivePath, HIVE_SCHEMA,
};

#[test]
fn expressions_are_spliced() {
    assert_eq!(deployment_config_single("web"), "hive.nodes.\"web\".config.deployment or null");
    assert_eq!(deployment_config_selected("[ \"a\" ]"), "hive.deploymentConfigSelected [ \"a\" ]");
    assert_eq!(eval_selected_drv_paths("x"), "hive.evalSelectedDrvPaths x");
    assert_eq!(introspect("f"), "hive.introspect (f)");
    assert_eq!(introspect_json("f"), "toJSON (hive.introspect (f))");
    assert_eq!(eval_selected("base", "n"), "base hive.evalSelected n");
    assert_eq!(repl_legacy("base"), "base hive.introspect (x: x)");
    assert_eq!(
        repl_flake("github:o/r", "check"),
        "with builtins; let rawHive = (getFlake \"github:o/r\").outputs.naviHive; hive = (check hive) rawHive; in hive.introspect (x: x)"
    );
    assert_eq!(HIVE_SCHEMA, "v0.5");
}

#[test]
fn chunked_build_expression() {
    let legacy = build_config_chunks("import ./hive.nix", None, false, &["[ \"a\" ]".to_string(), "[ \"b\" ]".to_string()]);
    assert_eq!(
        legacy,
        "with builtins; let hive = import ./hive.nix; f = hive.exportSelectedConfig; in {\"chunk-0\" = f [ \"a\" ]; \"chunk-1\" = f [ \"b\" ]; }"
    );
    let flake = build_config_chunks("check", Some("path:/x"), true, &[]);
    assert_eq!(
        flake,
        "with builtins; let hive = (check hive) ((builtins.getFlake \"path:/x\").outputs.naviHive); f = hive.exportSelectedConfig; in {}"
    );
}

#[test]
fn context_directories() {
    assert_eq!(parent_of("/etc/nixos/hive.nix").as_deref(), Some("/etc/nixos"));
    assert_eq!(parent_of("/hive.nix").as_deref(), Some("/"));
    assert_eq!(parent_of("/"), None);
    let legacy = HivePath::Legacy("/srv/fleet/hive.nix".to_string());
    assert!(!legacy.is_flake());
    assert_eq!(legacy.context_dir().as_deref(), Some("/srv/fleet"));
    let flake = HivePath::Flake { uri: "git+https://x".to_string(), local_dir: None };
    assert!(flake.is_flake());
    assert_eq!(flake.context_dir(), None);
}

#[test]
fn hive_settings_and_flags() {
    let mut hive = Hive::new(HivePath::Legacy("/a/hive.nix".to_string()));
    assert_eq!(hive.evaluation_method, EvaluationMethod::NixInstantiate);
    hive.set_evaluation_method(EvaluationMethod::DirectFlakeEval);
    assert_eq!(hive.evaluation_method, EvaluationMethod::NixInstantiate);
    hive.set_show_trace(true);
    hive.add_nix_option("cores".to_string(), "2".to_string());
    hive.add_nix_option("jobs".to_string(), "4".to_string());
    hive.add_nix_option("cores".to_string(), "8".to_string());
    assert_eq!(hive.nix_options.len(), 2);
    assert!(hive.nix_options.contains(&("cores".to_string(), "8".to_string())));
    let flags = hive.nix_flags_with_builders(Some("/etc/machines"));
    assert!(flags.show_trace && !flags.pure_eval);
    assert_eq!(flags.builders.as_deref(), Some("@/etc/machines"));
    let args = flags.to_args();
    assert!(args.contains(&"--show-trace".to_string()));

    let mut fl = Hive::new(HivePath::Flake { uri: "path:.".to_string(), local_dir: Some("/x".to_string()) });
    assert_eq!(fl.evaluation_method, EvaluationMethod::DirectFlakeEval);
    fl.set_evaluation_method(EvaluationMethod::NixInstantiate);
    assert_eq!(fl.evaluation_method, EvaluationMethod::NixInstantiate);
    assert!(fl.nix_flags().pure_eval);
}

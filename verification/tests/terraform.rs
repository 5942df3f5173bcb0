use navi::terraform::{backend_changed, failure_plan, plan_args, stop_prompt};
use navi::nix::{GcpConfig, NodeConfig, NodeName};
use navi::terraform::{
    confirmed, extract_missing_providers, find_resource_address, instance_to_stop, last_segment_str, needs_instance_stop,
    provider_replacement, stderr_contains_auth_error, stop_zone, target_arg, underscore_name, var_arg, TerraformExecutor,
};

fn strings(xs: &[&str]) -> Vec<String> {
    xs.iter().map(|s| s.to_string()).collect()
}

#[test]
fn binary_from_environment_value() {
    let e = TerraformExecutor::new("/w".to_string(), None);
    assert_eq!(e.tf_bin(), "tofu");
    assert_eq!(e.work_dir, "/w");
    let t = TerraformExecutor::new("/w".to_string(), Some("terraform".to_string()));
    assert_eq!(t.tf_bin(), "terraform");
}

#[test]
fn missing_providers_from_init_errors() {
    let stderr = "Error: Failed to query available provider packages\n\
                  \n\
                  - hashicorp/porkbun: there is no package for hashicorp/porkbun cached in .terraform\n\
                  - kyswtn/porkbun:: cached in somewhere\n\
                  - nothing here\n\
                  - noslash: there is no package\n";
    assert_eq!(extract_missing_providers(stderr), strings(&["hashicorp/porkbun", "kyswtn/porkbun"]));
    assert!(extract_missing_providers("all good").is_empty());
}

#[test]
fn last_segment() {
    assert_eq!(last_segment_str("registry.terraform.io/hashicorp/porkbun"), "porkbun");
    assert_eq!(last_segment_str("plain"), "plain");
    assert_eq!(last_segment_str("ends/"), "");
}

#[test]
fn provider_replacement_needs_one_candidate() {
    let configured = strings(&["kyswtn/porkbun", "hashicorp/google"]);
    assert_eq!(provider_replacement("hashicorp/porkbun", &configured), Some("kyswtn/porkbun".to_string()));
    assert_eq!(provider_replacement("kyswtn/porkbun", &configured), None);
    let two = strings(&["a/porkbun", "b/porkbun"]);
    assert_eq!(provider_replacement("hashicorp/porkbun", &two), None);
    assert_eq!(provider_replacement("hashicorp/aws", &configured), None);
}

#[test]
fn auth_errors() {
    assert!(stderr_contains_auth_error("oauth2: \"invalid_grant\""));
    assert!(stderr_contains_auth_error("reauth: invalid_rapt"));
    assert!(!stderr_contains_auth_error("quota exceeded"));
}

#[test]
fn instance_stop_detection() {
    let err = "Error: Changing the machine_type ... requires stopping it. To acknowledge this, \
               please set allow_stopping_for_update = true in your config.\n\
               with google_compute_instance.web-1[\"x\"], on main.tf line 3";
    assert!(needs_instance_stop(err));
    assert!(!needs_instance_stop("requires stopping it"));
    assert_eq!(instance_to_stop(err), Some("web-1".to_string()));
    assert_eq!(instance_to_stop("no instance here"), None);
}

#[test]
fn confirmation_answers() {
    assert!(confirmed("y"));
    assert!(confirmed(" YES \n"));
    assert!(confirmed("Yes"));
    assert!(!confirmed("no"));
    assert!(!confirmed(""));
    assert!(!confirmed("yess"));
}

#[test]
fn underscores() {
    assert_eq!(underscore_name("web-1-a"), "web_1_a");
}

#[test]
fn resource_address_of_node() {
    let state = "  google_compute_instance.db\n  google_compute_instance.nodes[\"web_1\"]\nother.web-1\n";
    assert_eq!(find_resource_address(state, "web-1"), Some("google_compute_instance.nodes[\"web_1\"]".to_string()));
    assert_eq!(find_resource_address(state, "db"), Some("google_compute_instance.db".to_string()));
    assert_eq!(find_resource_address(state, "cache"), None);
}

#[test]
fn zone_for_stopping() {
    let mut gcp = NodeConfig::default();
    gcp.providers.gcp = Some(GcpConfig { project: None, zone: Some("europe-west1-b".to_string()), iap: false });
    let plain = NodeConfig::default();
    let targets = vec![
        (NodeName::new("plain".to_string()).unwrap(), plain),
        (NodeName::new("web".to_string()).unwrap(), gcp),
    ];
    assert_eq!(stop_zone(&targets, "web"), Some("europe-west1-b".to_string()));
    assert_eq!(stop_zone(&targets, "plain"), None);
    assert_eq!(stop_zone(&targets, "unknown"), None);
    let mut single = NodeConfig::default();
    single.providers.gcp = Some(GcpConfig { project: None, zone: Some("us-east1-c".to_string()), iap: true });
    let one = vec![(NodeName::new("only".to_string()).unwrap(), single)];
    assert_eq!(stop_zone(&one, "other-name"), Some("us-east1-c".to_string()));
}

#[test]
fn argument_words() {
    assert_eq!(var_arg("ip", "10.0.0.1"), "ip=10.0.0.1");
    assert_eq!(target_arg("a.b"), "-target=a.b");
}

#[test]
fn plan_arguments_and_recovery() {
    let vars = vec![("a".to_string(), "1".to_string()), ("b".to_string(), "x y".to_string())];
    assert_eq!(plan_args(&vars), strings(&["plan", "-out=tfplan", "-var", "a=1", "-var", "b=x y"]));
    assert_eq!(plan_args(&vec![]), strings(&["plan", "-out=tfplan"]));
    assert_eq!(failure_plan("oauth2: invalid_grant", false), (true, None));
    let err = "requires stopping it ... allow_stopping_for_update google_compute_instance.db-1 x";
    assert_eq!(failure_plan(err, true), (false, Some("db-1".to_string())));
    assert_eq!(failure_plan(err, false), (false, None));
    assert_eq!(stop_prompt("db-1"), "Do you want to stop instance 'db-1' now?");
}

#[test]
fn backend_change_detected() {
    assert!(backend_changed("Error: Backend configuration changed\n\nA change in the backend..."));
    assert!(!backend_changed("Error: Required plugins are not installed"));
}

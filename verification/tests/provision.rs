use navi::provision::providers_to_inject;
use navi::nix::{NodeConfig, NodeName, PorkbunAccount, ProvisionerConfig, ProvisionerType, RegistrantsConfig};
use navi::provision::{
    command_provisioner_args, credential_requests, facts_dir, flake_app_args, ip_answer, ip_choice, ip_key, lock_file_path,
    porkbun_provider, porkbun_provider_settings, relevant_nodes, resolve_provisioners_to_run, terranix_configuration, work_dir,
    IpChoice, ProvisionError,
};

fn strings(xs: &[&str]) -> Vec<String> {
    xs.iter().map(|s| s.to_string()).collect()
}

fn provisioner(kind: ProvisionerType) -> ProvisionerConfig {
    ProvisionerConfig { kind, command: None, app: None, configuration: None, nixos_anywhere: None, derive: vec![] }
}

fn target(name: &str, provisioner: Option<&str>) -> (NodeName, NodeConfig) {
    let mut c = NodeConfig::default();
    c.provisioner = provisioner.map(|p| p.to_string());
    (NodeName::new(name.to_string()).unwrap(), c)
}

fn account(terraform_secrets: bool) -> PorkbunAccount {
    PorkbunAccount {
        api_key_command: "pass api".to_string(),
        secret_api_key_command: "pass secret".to_string(),
        terraform_secrets,
        api_key_variable: "porkbun_api_key".to_string(),
        secret_key_variable: "porkbun_secret_key".to_string(),
    }
}

#[test]
fn explicit_provisioner_wins() {
    let targets = vec![target("a", Some("cloud"))];
    assert_eq!(resolve_provisioners_to_run(&Some("metal".to_string()), &targets), strings(&["metal"]));
}

#[test]
fn provisioners_named_by_nodes_once_each() {
    let targets = vec![target("a", Some("cloud")), target("b", None), target("c", Some("cloud")), target("d", Some("metal"))];
    let mut got = resolve_provisioners_to_run(&None, &targets);
    got.sort();
    assert_eq!(got, strings(&["cloud", "metal"]));
}

#[test]
fn command_arguments() {
    let mut p = provisioner(ProvisionerType::Command);
    assert!(matches!(command_provisioner_args(&p), Err(ProvisionError::NoCommand)));
    p.command = Some("echo hi".to_string());
    assert_eq!(command_provisioner_args(&p).unwrap(), strings(&["sh", "-c", "echo hi"]));
}

#[test]
fn flake_app_arguments() {
    let mut p = provisioner(ProvisionerType::FlakeApp);
    assert!(matches!(flake_app_args(&p), Err(ProvisionError::NoApp)));
    p.app = Some("deploy".to_string());
    assert_eq!(flake_app_args(&p).unwrap(), strings(&["nix", "run", ".#deploy"]));
}

#[test]
fn terranix_needs_configuration() {
    let mut p = provisioner(ProvisionerType::Terranix);
    assert!(matches!(terranix_configuration(&p), Err(ProvisionError::NoConfiguration)));
    p.configuration = Some("terranix".to_string());
    assert_eq!(terranix_configuration(&p).unwrap(), "terranix");
}

#[test]
fn paths() {
    assert_eq!(work_dir("cloud"), ".navi/provision/cloud");
    assert_eq!(lock_file_path("/x", true), "/x/.terraform.lock.hcl");
    assert_eq!(lock_file_path("/x/lock", false), "/x/lock");
    assert_eq!(facts_dir("facts", "cloud"), "facts/cloud");
}

#[test]
fn credentials_only_for_declared_variables() {
    let reg = RegistrantsConfig { porkbun: vec![("main".to_string(), account(true))], namecheap: vec![] };
    let reqs = credential_requests(&reg, &strings(&["porkbun_secret_key", "other"]));
    assert_eq!(reqs.len(), 1);
    assert_eq!(reqs[0].variable, "porkbun_secret_key");
    assert_eq!(reqs[0].command, "pass secret");
    let both = credential_requests(&reg, &strings(&["porkbun_api_key", "porkbun_secret_key"]));
    assert_eq!(both.len(), 2);
    assert_eq!(both[0].variable, "porkbun_api_key");
    assert_eq!(both[0].command, "pass api");
}

#[test]
fn no_credentials_without_terraform_secrets() {
    let reg = RegistrantsConfig { porkbun: vec![("main".to_string(), account(false))], namecheap: vec![] };
    assert!(credential_requests(&reg, &strings(&["porkbun_api_key"])).is_empty());
}

#[test]
fn nodes_of_a_provisioner() {
    let targets = vec![target("a", Some("cloud")), target("b", Some("metal")), target("c", Some("cloud"))];
    let got: Vec<String> = relevant_nodes(&targets, "cloud").iter().map(|n| n.as_str().to_string()).collect();
    assert_eq!(got, strings(&["a", "c"]));
}

#[test]
fn ip_variable_name() {
    assert_eq!(ip_key("web-1.prod"), "web_1.prod_ip");
}

#[test]
fn ip_choice_order() {
    let known = Some("10.0.0.1".to_string());
    let flag = Some("10.0.0.2".to_string());
    assert!(matches!(ip_choice(false, &known, &flag), IpChoice::Use(ref ip) if ip == "10.0.0.1"));
    assert!(matches!(ip_choice(true, &known, &flag), IpChoice::Use(ref ip) if ip == "10.0.0.2"));
    assert!(matches!(ip_choice(true, &known, &None), IpChoice::Ask(Some(ref d)) if d == "10.0.0.1"));
    assert!(matches!(ip_choice(false, &None, &None), IpChoice::Ask(None)));
}

#[test]
fn ip_answers() {
    assert_eq!(ip_answer("web", "  10.1.1.1 \n", &None).unwrap(), "10.1.1.1");
    assert_eq!(ip_answer("web", "  ", &Some("10.0.0.9".to_string())).unwrap(), "10.0.0.9");
    assert!(matches!(ip_answer("web", "", &None), Err(ProvisionError::NoIpAddress(ref n)) if n == "web"));
}

#[test]
fn porkbun_providers() {
    assert!(porkbun_provider("dns", Some("cullenmcdermott/porkbun")));
    assert!(porkbun_provider("porkbun_main", Some("example/other")));
    assert!(!porkbun_provider("porkbun", None));
    assert!(!porkbun_provider("dns", Some("hashicorp/google")));
    assert_eq!(
        porkbun_provider_settings("a", "b"),
        ("${var.a}".to_string(), "${var.b}".to_string())
    );
}

#[test]
fn provider_injection() {
    let required = vec![
        ("porkbun".to_string(), Some("kyswtn/porkbun".to_string())),
        ("dns".to_string(), Some("cullenmcdermott/porkbun".to_string())),
        ("google".to_string(), Some("hashicorp/google".to_string())),
        ("porkbun_alt".to_string(), None),
    ];
    assert_eq!(providers_to_inject(&required, &strings(&["dns"])), strings(&["porkbun"]));
    assert_eq!(providers_to_inject(&required, &vec![]), strings(&["porkbun", "dns"]));
}

use navi::facts::{build_fact_args, list_facts_args};
use navi::nix::NixFlags;
use navi::facts::{fact_attribute, fact_file_name, facts_attribute, no_facts_defined, select_facts, FactsError, GlobPattern};

fn strings(xs: &[&str]) -> Vec<String> {
    xs.iter().map(|s| s.to_string()).collect()
}

#[test]
fn glob_patterns_compile_and_match() {
    let p = GlobPattern::new("net*").unwrap();
    assert!(p.matches("network"));
    assert!(!p.matches("disk"));
    assert!(GlobPattern::new("[").is_none());
}

#[test]
fn all_facts_without_filters() {
    let facts = strings(&["network", "disk", "users"]);
    assert_eq!(select_facts(&facts, &vec![]).unwrap(), facts);
}

#[test]
fn filters_choose_facts_in_order() {
    let facts = strings(&["network", "disk", "netmask", "users"]);
    let filters = strings(&["u*", "net*"]);
    assert_eq!(select_facts(&facts, &filters).unwrap(), strings(&["network", "netmask", "users"]));
}

#[test]
fn invalid_filter_is_refused() {
    let facts = strings(&["network"]);
    match select_facts(&facts, &strings(&["ok", "x[bad", "[worse"])) {
        Err(FactsError::InvalidPattern(m)) => assert_eq!(m, "Pattern syntax error near position 1: invalid range pattern"),
        other => panic!("unexpected {:?}", other),
    }
}

#[test]
fn attributes_and_files() {
    assert_eq!(facts_attribute(".#"), ".##facts");
    assert_eq!(facts_attribute("path:/src"), "path:/src#facts");
    assert_eq!(fact_attribute("path:/src", "net"), "path:/src#facts.\"net\"");
    assert_eq!(fact_file_name("net"), "net.json");
}

#[test]
fn missing_facts_attribute() {
    assert!(no_facts_defined("error: attribute 'facts' missing\n at flake.nix"));
    assert!(!no_facts_defined("error: something else"));
}

#[test]
fn nix_arguments_for_facts() {
    let mut flags = NixFlags::default();
    flags.set_show_trace(true);
    assert_eq!(
        list_facts_args(&flags, "path:/src"),
        strings(&[
            "eval",
            "--json",
            "--apply",
            "builtins.attrNames",
            "--extra-experimental-features",
            "nix-command flakes",
            "--show-trace",
            "path:/src#facts"
        ])
    );
    assert_eq!(
        build_fact_args(&NixFlags::default(), "path:/src", "net", "/f/net.json"),
        strings(&[
            "build",
            "--extra-experimental-features",
            "nix-command flakes",
            "--out-link",
            "/f/net.json",
            "path:/src#facts.\"net\""
        ])
    );
}

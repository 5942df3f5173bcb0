use navi::model::RegistrantTreeItem;
use navi::registrant_tree::{build_registrant_tree, copy_domain, flatten_registrants};
use navi::registrants::{
    namecheap_auto_renew, namecheap_domain_info, namecheap_status_ok, porkbun_domain_info, porkbun_status_ok, DomainInfo,
    NamecheapDomain, PorkbunDomain,
};
use navi::registrant_tree::{copy_registrant_items, toggle_registrant_collapse, update_domain_records};
use navi::registrants::{
    command_failure, command_words, fetch_error, glue_records, namecheap_account_domains, namecheap_listing, namecheap_params,
    porkbun_account_domains, porkbun_listing, porkbun_url, spawn_failure, FetchStep, NamecheapDomainRaw, PorkbunGlueIps,
    PorkbunQuery,
};

fn domain(name: &str, provider: &str, account: &str) -> DomainInfo {
    DomainInfo {
        domain: name.to_string(),
        provider: provider.to_string(),
        account: account.to_string(),
        expiry_date: None,
        auto_renew: false,
    }
}

fn label(item: &RegistrantTreeItem) -> String {
    match item {
        RegistrantTreeItem::Provider { name, .. } => format!("provider {}", name),
        RegistrantTreeItem::Account { name, .. } => format!("account {}", name),
        RegistrantTreeItem::Domain { info, .. } => format!("domain {}", info.domain),
        RegistrantTreeItem::RecordGroup { name, .. } => format!("group {}", name),
        RegistrantTreeItem::Message { text } => format!("message {}", text),
        RegistrantTreeItem::DnsRecord { .. } => "dns".to_string(),
        RegistrantTreeItem::GlueRecord { .. } => "glue".to_string(),
    }
}

#[test]
fn porkbun_entry() {
    let d = PorkbunDomain {
        domain: "example.com".to_string(),
        expire_date: Some("2030-01-01".to_string()),
        auto_renew: 1,
        status: None,
    };
    let info = porkbun_domain_info(d, "main");
    assert_eq!(info.domain, "example.com");
    assert_eq!(info.provider, "Porkbun");
    assert_eq!(info.account, "main");
    assert_eq!(info.expiry_date, Some("2030-01-01".to_string()));
    assert!(info.auto_renew);
    let off = porkbun_domain_info(
        PorkbunDomain { domain: "b.org".to_string(), expire_date: None, auto_renew: 0, status: None },
        "main",
    );
    assert!(!off.auto_renew);
}

#[test]
fn namecheap_entry() {
    let info = namecheap_domain_info(
        NamecheapDomain { name: "x.net".to_string(), expires: "01/02/2031".to_string(), auto_renew: true },
        "work",
    );
    assert_eq!(info.provider, "Namecheap");
    assert_eq!(info.expiry_date, Some("01/02/2031".to_string()));
    assert!(info.auto_renew);
}

#[test]
fn response_flags() {
    assert!(namecheap_auto_renew("true"));
    assert!(namecheap_auto_renew("TRUE"));
    assert!(!namecheap_auto_renew("false"));
    assert!(!namecheap_auto_renew("truee"));
    assert!(porkbun_status_ok("SUCCESS"));
    assert!(!porkbun_status_ok("ERROR"));
    assert!(namecheap_status_ok("OK"));
    assert!(!namecheap_status_ok("ERROR"));
}

#[test]
fn copy_keeps_fields() {
    let mut d = domain("a.com", "Porkbun", "main");
    d.expiry_date = Some("2029".to_string());
    d.auto_renew = true;
    let c = copy_domain(&d);
    assert_eq!(c.domain, d.domain);
    assert_eq!(c.provider, d.provider);
    assert_eq!(c.account, d.account);
    assert_eq!(c.expiry_date, d.expiry_date);
    assert_eq!(c.auto_renew, d.auto_renew);
}

#[test]
fn tree_groups_by_provider_and_account() {
    let domains = vec![
        domain("b.com", "Porkbun", "main"),
        domain("x.net", "Namecheap", "work"),
        domain("a.com", "Porkbun", "alt"),
        domain("c.com", "Porkbun", "main"),
    ];
    let tree = build_registrant_tree(&domains);
    let shown: Vec<String> = flatten_registrants(&tree).iter().map(|i| label(i)).collect();
    assert_eq!(
        shown,
        vec![
            "provider Namecheap",
            "account work",
            "domain x.net",
            "provider Porkbun",
            "account alt",
            "domain a.com",
            "account main",
            "domain b.com",
            "domain c.com",
        ]
    );
}

#[test]
fn porkbun_domains_hold_record_groups() {
    let tree = build_registrant_tree(&vec![domain("b.com", "Porkbun", "main"), domain("n.io", "Namecheap", "w")]);
    let porkbun = &tree[1];
    let account = match porkbun {
        RegistrantTreeItem::Provider { children, .. } => &children[0],
        _ => panic!("expected a provider"),
    };
    let dom = match account {
        RegistrantTreeItem::Account { children, .. } => &children[0],
        _ => panic!("expected an account"),
    };
    match dom {
        RegistrantTreeItem::Domain { children, collapsed, .. } => {
            assert!(*collapsed);
            let names: Vec<String> = children.iter().map(label).collect();
            assert_eq!(names, vec!["group DNS Records", "group Glue Records"]);
        },
        _ => panic!("expected a domain"),
    }
    let namecheap_dom = match &tree[0] {
        RegistrantTreeItem::Provider { children, .. } => match &children[0] {
            RegistrantTreeItem::Account { children, .. } => &children[0],
            _ => panic!("expected an account"),
        },
        _ => panic!("expected a provider"),
    };
    match namecheap_dom {
        RegistrantTreeItem::Domain { children, .. } => assert!(children.is_empty()),
        _ => panic!("expected a domain"),
    }
}

#[test]
fn empty_tree() {
    assert!(build_registrant_tree(&vec![]).is_empty());
}

fn shown(tree: &Vec<RegistrantTreeItem>) -> Vec<String> {
    flatten_registrants(tree).iter().map(|i| label(i)).collect()
}

fn porkbun_tree() -> Vec<RegistrantTreeItem> {
    build_registrant_tree(&vec![domain("a.com", "Porkbun", "main"), domain("b.com", "Porkbun", "main")])
}

#[test]
fn toggling_rows_folds_and_unfolds() {
    let mut tree = porkbun_tree();
    assert_eq!(shown(&tree), vec!["provider Porkbun", "account main", "domain a.com", "domain b.com"]);
    toggle_registrant_collapse(&mut tree, 2);
    assert_eq!(
        shown(&tree),
        vec!["provider Porkbun", "account main", "domain a.com", "group DNS Records", "group Glue Records", "domain b.com"]
    );
    toggle_registrant_collapse(&mut tree, 3);
    assert_eq!(shown(&tree)[4], "message Loading...");
    toggle_registrant_collapse(&mut tree, 3);
    toggle_registrant_collapse(&mut tree, 2);
    assert_eq!(shown(&tree), vec!["provider Porkbun", "account main", "domain a.com", "domain b.com"]);
    toggle_registrant_collapse(&mut tree, 0);
    assert_eq!(shown(&tree), vec!["provider Porkbun"]);
    toggle_registrant_collapse(&mut tree, 7);
    assert_eq!(shown(&tree), vec!["provider Porkbun"]);
}

#[test]
fn records_replace_the_loading_message() {
    let mut tree = porkbun_tree();
    let records = vec![RegistrantTreeItem::Message { text: "No records found.".to_string() }];
    update_domain_records(&mut tree, "b.com", "DNS", &records);
    toggle_registrant_collapse(&mut tree, 3);
    toggle_registrant_collapse(&mut tree, 4);
    assert_eq!(
        shown(&tree),
        vec![
            "provider Porkbun",
            "account main",
            "domain a.com",
            "domain b.com",
            "group DNS Records",
            "message No records found.",
            "group Glue Records"
        ]
    );
    let loaded = match &tree[0] {
        RegistrantTreeItem::Provider { children, .. } => match &children[0] {
            RegistrantTreeItem::Account { children, .. } => match &children[1] {
                RegistrantTreeItem::Domain { children, .. } => match &children[0] {
                    RegistrantTreeItem::RecordGroup { loaded, .. } => *loaded,
                    _ => panic!("expected a group"),
                },
                _ => panic!("expected a domain"),
            },
            _ => panic!("expected an account"),
        },
        _ => panic!("expected a provider"),
    };
    assert!(loaded);
}

#[test]
fn copies_keep_entries() {
    let tree = porkbun_tree();
    let copy = copy_registrant_items(&tree);
    assert_eq!(shown(&copy), shown(&tree));
}

#[test]
fn fetch_messages() {
    assert_eq!(fetch_error(FetchStep::PorkbunApiKey, "main", "x"), "Porkbun account 'main' API key error: x");
    assert_eq!(fetch_error(FetchStep::PorkbunSecretKey, "main", "x"), "Porkbun account 'main' Secret key error: x");
    assert_eq!(fetch_error(FetchStep::PorkbunApi, "main", "x"), "Porkbun account 'main' API error: x");
    assert_eq!(fetch_error(FetchStep::NamecheapUser, "w", "x"), "Namecheap account 'w' user command failed: x");
    assert_eq!(fetch_error(FetchStep::NamecheapApiKey, "w", "x"), "Namecheap account 'w' api key command failed: x");
    assert_eq!(fetch_error(FetchStep::NamecheapApi, "w", "x"), "Namecheap account 'w' error: x");
    assert_eq!(spawn_failure("pass", "not found"), "Failed to spawn command 'pass': not found");
    assert_eq!(command_failure("exit status: 1", " bad \n"), "Command failed (exit status: 1): bad");
}

#[test]
fn credential_command_words() {
    let (p, args) = command_words("  pass show  porkbun/key ").unwrap();
    assert_eq!(p, "pass");
    assert_eq!(args, vec!["show".to_string(), "porkbun/key".to_string()]);
    assert_eq!(command_words("   ").unwrap_err(), "Empty command");
}

#[test]
fn listings() {
    let ok: Result<Vec<u8>, String> = porkbun_listing("SUCCESS", Some(vec![1, 2]), "body");
    assert_eq!(ok.unwrap(), vec![1, 2]);
    let empty: Result<Vec<u8>, String> = porkbun_listing("SUCCESS", None, "body");
    assert!(empty.unwrap().is_empty());
    let err: Result<Vec<u8>, String> = porkbun_listing("ERROR", Some(vec![1]), "{\"status\":\"ERROR\"}");
    assert_eq!(err.unwrap_err(), "Porkbun API Error: {\"status\":\"ERROR\"}");
    let g = glue_records(vec![("ns1".to_string(), PorkbunGlueIps { v4: vec!["1.1.1.1".to_string()], v6: vec![] })]);
    assert_eq!(g[0].host, "ns1");
    assert_eq!(g[0].ips.v4, vec!["1.1.1.1".to_string()]);
    assert_eq!(porkbun_url(PorkbunQuery::Domains, "x"), "https://api.porkbun.com/api/json/v3/domain/listAll");
    assert_eq!(porkbun_url(PorkbunQuery::DnsRecords, "a.com"), "https://api.porkbun.com/api/json/v3/dns/retrieve/a.com");
    assert_eq!(porkbun_url(PorkbunQuery::GlueRecords, "a.com"), "https://api.porkbun.com/api/json/v3/domain/getGlue/a.com");
}

#[test]
fn namecheap_requests() {
    let p = namecheap_params("u", "k", "1.2.3.4");
    assert_eq!(p[0], ("ApiUser".to_string(), "u".to_string()));
    assert_eq!(p[3], ("Command".to_string(), "namecheap.domains.getList".to_string()));
    assert_eq!(p[5], ("PageSize".to_string(), "100".to_string()));
    let raw = vec![NamecheapDomainRaw { name: "x.net".to_string(), expires: "01/01/2030".to_string(), auto_renew: "True".to_string() }];
    let listed = namecheap_listing("OK", raw, &vec![], "1.2.3.4").unwrap();
    assert_eq!(listed[0].name, "x.net");
    assert!(listed[0].auto_renew);
    let err = namecheap_listing("ERROR", vec![], &vec!["bad ip".to_string()], "1.2.3.4").unwrap_err();
    assert_eq!(err, "Namecheap API Error (IP: 1.2.3.4): bad ip");
    let unknown = namecheap_listing("ERROR", vec![], &vec![], "1.2.3.4").unwrap_err();
    assert_eq!(unknown, "Namecheap API Error (IP: 1.2.3.4): Unknown API Error");
}

#[test]
fn account_domains() {
    let p = porkbun_account_domains(
        "main",
        vec![PorkbunDomain { domain: "a.com".to_string(), expire_date: None, auto_renew: 1, status: None }],
    );
    assert_eq!(p[0].account, "main");
    assert_eq!(p[0].provider, "Porkbun");
    assert!(p[0].auto_renew);
    let n = namecheap_account_domains(
        "w",
        vec![NamecheapDomain { name: "x.net".to_string(), expires: "2030".to_string(), auto_renew: false }],
    );
    assert_eq!(n[0].expiry_date, Some("2030".to_string()));
    assert_eq!(n[0].provider, "Namecheap");
}

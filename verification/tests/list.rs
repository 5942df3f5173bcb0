use navi::list::{compute_widths, link_label, section_order, plural, GroupBy, Row};
use navi::nix::Provider;

fn row(name: &str, host: Option<&str>, prov: Option<&str>, provider: Provider, tags: &[&str]) -> Row {
    let link = link_label(&provider);
    Row {
        name: name.to_string(),
        host: host.map(str::to_string),
        prov: prov.map(str::to_string),
        provider,
        link,
        tags: tags.iter().map(|s| s.to_string()).collect(),
    }
}

#[test]
fn plural_suffix() {
    assert_eq!(plural(0), "s");
    assert_eq!(plural(1), "");
    assert_eq!(plural(2), "s");
}

#[test]
fn widths_respect_header_minimums_when_data_is_short() {
    let rows = vec![row("a", Some("h"), Some("p"), Provider::Ssh, &["t"])];
    let w = compute_widths(&rows);
    assert_eq!(w.name, 4); // "NAME"
    assert_eq!(w.host, 11); // "TARGET HOST"
    assert_eq!(w.prov, 11); // "PROVISIONER"
    assert_eq!(w.link, 4); // "LINK"
}

#[test]
fn widths_grow_to_fit_data() {
    let rows = vec![
        row("short", Some("h"), None, Provider::Ssh, &[]),
        row(
            "a-very-long-hostname-node",
            Some("some.long.target.host.example.com"),
            Some("baremetal-provisioner"),
            Provider::Gcp { project: None, zone: None, iap: false },
            &[],
        ),
    ];
    let w = compute_widths(&rows);
    assert_eq!(w.name, "a-very-long-hostname-node".len());
    assert_eq!(w.host, "some.long.target.host.example.com".len());
    assert_eq!(w.prov, "baremetal-provisioner".len());
    assert_eq!(w.link, "GCP (Direct)".len());
}

#[test]
fn missing_host_counts_as_one_column_for_width() {
    // A node with no target host should not force the column past the header.
    let rows = vec![row("n", None, None, Provider::Ssh, &[])];
    let w = compute_widths(&rows);
    assert_eq!(w.host, 11);
}

#[test]
fn group_keys_tag_lists_every_tag() {
    let r = row("n", None, None, Provider::Ssh, &["prod", "web"]);
    assert_eq!(r.group_keys(GroupBy::Tag), vec!["prod", "web"]);
}

#[test]
fn group_keys_tag_falls_back_to_untagged() {
    let r = row("n", None, None, Provider::Ssh, &[]);
    assert_eq!(r.group_keys(GroupBy::Tag), vec!["(untagged)"]);
}

#[test]
fn group_keys_provisioner_falls_back_to_none() {
    let with = row("n", None, Some("baremetal"), Provider::Ssh, &[]);
    let without = row("n", None, None, Provider::Ssh, &[]);
    assert_eq!(with.group_keys(GroupBy::Provisioner), vec!["baremetal"]);
    assert_eq!(without.group_keys(GroupBy::Provisioner), vec!["(none)"]);
}

#[test]
fn group_keys_link_uses_link_label() {
    let ssh = row("n", None, None, Provider::Ssh, &[]);
    let iap = row("n", None, None, Provider::Gcp { project: None, zone: None, iap: true }, &[]);
    assert_eq!(ssh.group_keys(GroupBy::Link), vec!["SSH"]);
    assert_eq!(iap.group_keys(GroupBy::Link), vec!["GCP (IAP)"]);
}

#[test]
fn sections_sort_catchall_last() {
    let mut keys = vec!["(untagged)", "web", "db", "(none)", "app"];
    keys.sort_by(|a, b| section_order(a, b));
    assert_eq!(keys, vec!["app", "db", "web", "(none)", "(untagged)"]);
}

use navi::model::{AppMode, MenuAction, MenuId, MenuItem, ProvenanceStatus, RegistrantTreeItem, SettingId};
use navi::nix::{NodeName, NodeState, Provenance};
use navi::registrants::{DomainInfo, PorkbunDnsRecord, PorkbunGlueIps, PorkbunGlueRecord};
use navi::view::{
    diff_line_color, diff_scroll, exit_popup_area, group_row, host_row_indent, menu_item_line, menu_title, node_row,
    registrant_lines, registrants_notice_text, repeat_str, short_rev, spinner, tab_index, tasks_label, visual_highlight,
    BarState, Shade,
};

fn name(n: &str) -> NodeName {
    NodeName::new(n.to_string()).unwrap()
}

fn verified(commit: &str) -> ProvenanceStatus {
    ProvenanceStatus::Verified(Provenance {
        commit: commit.to_string(),
        flake_uri: String::new(),
        timestamp: String::new(),
        deployed_by: "bob".to_string(),
    })
}

fn bar(mode: AppMode) -> BarState {
    BarState {
        mode,
        log_popup_open: false,
        show_exit_confirmation: false,
        tree_loading: false,
        use_daemon: false,
        daemon_connected: false,
        flash_message: None,
        tick_count: 0,
    }
}

#[test]
fn indentation() {
    assert_eq!(repeat_str("ab", 3), "ababab");
    assert_eq!(host_row_indent(0, true), "");
    assert_eq!(host_row_indent(1, false), "├── ");
    assert_eq!(host_row_indent(3, true), "        └── ");
}

#[test]
fn group_rows() {
    let leaves = vec![name("a"), name("b")];
    let prov = vec![(name("a"), verified("old"))];
    assert_eq!(group_row("web", false, &leaves, &vec![], &prov, "new"), "▾ [ ] web (2) (1 outdated!)");
    assert_eq!(group_row("web", true, &leaves, &vec![name("a")], &prov, "old"), "▸ [-] web (2)");
    assert_eq!(group_row("web", true, &leaves, &vec![name("b"), name("a")], &vec![], "x"), "▸ [x] web (2)");
}

#[test]
fn node_rows() {
    let n = name("web");
    assert_eq!(
        node_row(&n, &NodeState::Idle, true, Some(&verified("abc")), "abc", 0),
        ("[x]  web  ✔ Synced".to_string(), Shade::Green)
    );
    assert_eq!(
        node_row(&n, &NodeState::Idle, false, Some(&verified("abc")), "def", 0),
        ("[ ]  web  ✘ Outdated".to_string(), Shade::Red)
    );
    assert_eq!(node_row(&n, &NodeState::Idle, false, Some(&ProvenanceStatus::NoData), "d", 0).1, Shade::DarkGray);
    assert_eq!(
        node_row(&n, &NodeState::Idle, false, Some(&ProvenanceStatus::Error("e".to_string())), "d", 0).0,
        "[ ]  web  ! Unreachable"
    );
    assert_eq!(node_row(&n, &NodeState::Idle, false, None, "d", 0).0, "[ ]  web  ⟳ Checking...");
    assert_eq!(
        node_row(&n, &NodeState::Running("Building...".to_string()), true, None, "d", 9),
        (format!("[{}]  web  Building...", spinner(2)), Shade::Yellow)
    );
    assert_eq!(node_row(&n, &NodeState::Failed("boom".to_string()), false, None, "d", 0), ("[ ]  web  boom".to_string(), Shade::Red));
    assert_eq!(node_row(&n, &NodeState::Loading, false, None, "d", 0), ("[ ]  web  Loading...".to_string(), Shade::Gray));
}

#[test]
fn visual_range() {
    assert!(visual_highlight(AppMode::Visual, 3, Some(5), 2));
    assert!(!visual_highlight(AppMode::Visual, 6, Some(5), 2));
    assert!(!visual_highlight(AppMode::Normal, 3, Some(5), 2));
    assert!(!visual_highlight(AppMode::Visual, 3, None, 2));
}

#[test]
fn bars() {
    assert_eq!(tab_index(AppMode::Registrants), 1);
    assert_eq!(tab_index(AppMode::Logs), 2);
    assert_eq!(tab_index(AppMode::Visual), 0);
    assert_eq!(bar(AppMode::Visual).mode_label(), (" VISUAL ", Shade::Yellow));
    let mut b = bar(AppMode::Normal);
    b.log_popup_open = true;
    assert_eq!(b.mode_label(), (" LOG POPUP ", Shade::Green));
    assert_eq!(b.message(), "/ Search | [R] Filter | [s] Wrap | [y] Yank | [L] Close");
    b.show_exit_confirmation = true;
    assert_eq!(b.mode_label().0, " CONFIRM EXIT ");
    assert_eq!(b.message(), "[Enter/y] Yes | [Esc/q/n] No");
    let mut r = bar(AppMode::Normal);
    r.tree_loading = true;
    r.tick_count = 4;
    assert_eq!(r.mode_label(), (" REFRESHING ", Shade::Blue));
    assert_eq!(r.message(), format!("{} Refreshing...", spinner(2)));
    r.flash_message = Some("hi".to_string());
    assert_eq!(r.message(), "hi");
    assert_eq!(bar(AppMode::Normal).message(), "Ready. [Space] Select | [i] Inspect | [d] Deploy | [L] Logs Popup");
    let mut d = bar(AppMode::Logs);
    assert_eq!(d.daemon_indicator(), ("D:OFF", Shade::Gray));
    d.use_daemon = true;
    assert_eq!(d.daemon_indicator(), ("D:ERR", Shade::Red));
    d.daemon_connected = true;
    assert_eq!(d.daemon_indicator(), ("D:ON", Shade::Green));
    assert_eq!(tasks_label(0), "");
    assert_eq!(tasks_label(3), "⚙ 3");
    assert_eq!(short_rev("0123456789"), "012345");
    assert_eq!(exit_popup_area(100, 20), (28, 6, 44, 7));
    assert_eq!(exit_popup_area(10, 3), (0, 0, 44, 7));
}

fn dom(name: &str, provider: &str, expiry: Option<&str>) -> DomainInfo {
    DomainInfo {
        domain: name.to_string(),
        provider: provider.to_string(),
        account: "main".to_string(),
        expiry_date: expiry.map(|e| e.to_string()),
        auto_renew: false,
    }
}

#[test]
fn registrant_view_lines() {
    let tree = vec![RegistrantTreeItem::Provider {
        name: "Porkbun".to_string(),
        collapsed: false,
        children: vec![RegistrantTreeItem::Domain {
            info: dom("a.com", "Porkbun", Some("2030")),
            collapsed: false,
            children: vec![RegistrantTreeItem::RecordGroup {
                name: "DNS Records".to_string(),
                domain_info: dom("a.com", "Porkbun", None),
                collapsed: false,
                loaded: true,
                children: vec![
                    RegistrantTreeItem::DnsRecord {
                        record: PorkbunDnsRecord {
                            id: "1".to_string(),
                            name: "a.com".to_string(),
                            record_type: "A".to_string(),
                            content: "1.2.3.4".to_string(),
                            ttl: "600".to_string(),
                            prio: None,
                            notes: None,
                        },
                    },
                    RegistrantTreeItem::GlueRecord {
                        record: PorkbunGlueRecord {
                            host: "ns1".to_string(),
                            ips: PorkbunGlueIps { v4: vec!["1.1.1.1".to_string(), "2.2.2.2".to_string()], v6: vec![] },
                        },
                    },
                    RegistrantTreeItem::Message { text: "note".to_string() },
                ],
            }],
        }],
    }];
    let lines = registrant_lines(&tree);
    let expected: Vec<(String, String)> = vec![
        ("▼ Porkbun".to_string(), String::new()),
        ("  ▼ a.com".to_string(), " (Exp: 2030)".to_string()),
        ("    ▼ DNS Records".to_string(), String::new()),
        ("        A a.com 1.2.3.4 (TTL: 600)".to_string(), String::new()),
        ("        ns1 [v4: 1.1.1.1, 2.2.2.2] [v6: ]".to_string(), String::new()),
        ("        note".to_string(), String::new()),
    ];
    assert_eq!(lines, expected);
}

#[test]
fn folded_entries_hide_children() {
    let tree = vec![RegistrantTreeItem::Provider {
        name: "Namecheap".to_string(),
        collapsed: true,
        children: vec![RegistrantTreeItem::Message { text: "hidden".to_string() }],
    }];
    assert_eq!(registrant_lines(&tree), vec![("▶ Namecheap".to_string(), String::new())]);
    assert_eq!(registrants_notice_text(true, true, true), Some("Loading domains..."));
    assert_eq!(registrants_notice_text(false, false, true), Some("No registrants configured in meta.registrants."));
    assert_eq!(registrants_notice_text(false, true, true), Some("No domains found."));
    assert_eq!(registrants_notice_text(false, true, false), None);
}

#[test]
fn menu_lines() {
    let toggle = MenuItem { label: "Reboot".to_string(), action: MenuAction::Toggle(SettingId::Reboot), checked: Some(true) };
    assert_eq!(menu_item_line(&toggle), "[x] Reboot");
    let nav = MenuItem { label: "Options".to_string(), action: MenuAction::Navigate(MenuId::DeploySettings), checked: None };
    assert_eq!(menu_item_line(&nav), "> Options");
    let close = MenuItem { label: "Close Menu".to_string(), action: MenuAction::Close, checked: None };
    assert_eq!(menu_item_line(&close), "  Close Menu");
    assert_eq!(menu_title(MenuId::GarbageCollectInterval), "GC Interval");
}

#[test]
fn diff_lines() {
    assert_eq!(diff_line_color("+ added"), Shade::Green);
    assert_eq!(diff_line_color("x > y"), Shade::Green);
    assert_eq!(diff_line_color("-removed"), Shade::Red);
    assert_eq!(diff_line_color("a < b"), Shade::Red);
    assert_eq!(diff_line_color("same"), Shade::Plain);
    assert_eq!(diff_scroll(50, 30, 10), 20);
    assert_eq!(diff_scroll(5, 30, 10), 5);
    assert_eq!(diff_scroll(5, 3, 10), 0);
}

use navi::input::Key;
use navi::model::{AppMode, RegistrantTreeItem};
use navi::navigation::{
    credential_plan, credentials_message, g_key, initial_exit_prompt, initial_log_keys, initial_log_levels, initial_screen,
    initial_scroll, jump, log_key, log_popup_key, registrant_enter, screen_key, skipping_message, starting_message, yank_domain,
    CredentialPlan, Jump, Screen,
};
use navi::nix::{NamecheapAccount, NodeName, PorkbunAccount, RegistrantsConfig};
use navi::registrants::DomainInfo;

fn screen(mode: AppMode) -> Screen {
    let mut s = initial_screen(true);
    s.mode = mode;
    s
}

fn domain(provider: &str, account: &str) -> DomainInfo {
    DomainInfo {
        domain: "example.com".to_string(),
        provider: provider.to_string(),
        account: account.to_string(),
        expiry_date: None,
        auto_renew: false,
    }
}

#[test]
fn initial_state() {
    let s = initial_screen(false);
    assert_eq!(s.mode, AppMode::Boot);
    assert!(!s.registrants_available);
    assert!(initial_log_keys().wrap);
    assert!(initial_exit_prompt().selection);
    assert!(initial_scroll().stick_to_bottom);
    assert_eq!(initial_log_levels(), vec!["INFO".to_string(), "WARN".to_string(), "ERROR".to_string()]);
}

#[test]
fn tab_cycles_views() {
    let s = screen_key(screen(AppMode::Normal), Key::Tab);
    assert_eq!(s.mode, AppMode::Registrants);
    assert!(s.registrant_cursor);
    assert_eq!(screen_key(s, Key::Tab).mode, AppMode::Logs);
    assert_eq!(screen_key(screen(AppMode::Logs), Key::Tab).mode, AppMode::Normal);
    let mut no_reg = screen(AppMode::Normal);
    no_reg.registrants_available = false;
    assert_eq!(screen_key(no_reg, Key::Tab).mode, AppMode::Logs);
    let mut pending = screen(AppMode::Menu);
    pending.pending_g = true;
    let after = screen_key(pending, Key::Tab);
    assert_eq!(after.mode, AppMode::Normal);
    assert!(!after.pending_g);
}

#[test]
fn number_keys_switch_views() {
    assert_eq!(screen_key(screen(AppMode::Logs), Key::Char('1')).mode, AppMode::Normal);
    assert_eq!(screen_key(screen(AppMode::Normal), Key::Char('2')).mode, AppMode::Registrants);
    let mut no_reg = screen(AppMode::Normal);
    no_reg.registrants_available = false;
    assert_eq!(screen_key(no_reg, Key::Char('2')).mode, AppMode::Normal);
    assert_eq!(screen_key(screen(AppMode::Normal), Key::Char('3')).mode, AppMode::Logs);
    assert!(screen_key(screen(AppMode::Normal), Key::Char('i')).inspector_open);
}

#[test]
fn q_closes_or_asks() {
    let mut popup = screen(AppMode::Normal);
    popup.log_popup_open = true;
    assert!(!screen_key(popup, Key::Char('q')).log_popup_open);
    assert_eq!(screen_key(screen(AppMode::Logs), Key::Char('q')).mode, AppMode::Normal);
    let mut visual = screen(AppMode::Visual);
    visual.visual_anchor = Some(3);
    let v = screen_key(visual, Key::Char('q'));
    assert_eq!(v.mode, AppMode::Normal);
    assert_eq!(v.visual_anchor, None);
    assert!(screen_key(screen(AppMode::Normal), Key::Char('q')).show_exit_confirmation);
    assert!(!screen_key(screen(AppMode::Menu), Key::Char('q')).show_exit_confirmation);
}

#[test]
fn escape_backs_out() {
    let mut ask = screen(AppMode::Normal);
    ask.show_exit_confirmation = true;
    assert!(!screen_key(ask, Key::Esc).show_exit_confirmation);
    let mut diff = screen(AppMode::Diff);
    diff.diff_shown = true;
    let d = screen_key(diff, Key::Esc);
    assert_eq!(d.mode, AppMode::Normal);
    assert!(!d.diff_shown);
    let mut visual = screen(AppMode::Visual);
    visual.visual_anchor = Some(1);
    visual.pending_g = true;
    let v = screen_key(visual, Key::Esc);
    assert_eq!(v.visual_anchor, None);
    assert!(!v.pending_g);
}

#[test]
fn jumps() {
    assert_eq!(jump(AppMode::Diff, false, true, 0, 0), Jump::Diff(0));
    assert_eq!(jump(AppMode::Diff, false, false, 0, 0), Jump::Diff(usize::MAX));
    assert_eq!(jump(AppMode::Registrants, false, false, 0, 5), Jump::Registrant(Some(4)));
    assert_eq!(jump(AppMode::Registrants, false, false, 0, 0), Jump::Registrant(None));
    assert_eq!(jump(AppMode::Logs, false, true, 0, 0), Jump::Log(usize::MAX, false));
    assert_eq!(jump(AppMode::Normal, true, false, 0, 0), Jump::Log(0, true));
    assert_eq!(jump(AppMode::Normal, false, false, 7, 0), Jump::List(6));
    assert_eq!(jump(AppMode::Visual, false, true, 7, 0), Jump::List(0));
    assert_eq!(g_key(false), (false, true));
    assert_eq!(g_key(true), (true, false));
}

#[test]
fn log_keys() {
    let k = initial_log_keys();
    let (k2, m) = log_key(k, 's');
    assert!(!k2.wrap);
    assert_eq!(m, Some("Log Wrap: false".to_string()));
    let (k3, m3) = log_key(k2, 'S');
    assert!(k3.wrap);
    assert_eq!(m3, Some("Log Wrap: true".to_string()));
    assert!(log_key(k, '/').0.search_active);
    assert!(log_key(k, 'R').0.filter_active);
    assert!(log_key(k, 'E').0.level_popup_open);
    assert_eq!(log_key(k, 'z'), (k, None));
}

#[test]
fn log_popup_focus() {
    let n = NodeName::new("web".to_string()).unwrap();
    let (open, focus) = log_popup_key(false, false, Some(&n));
    assert!(open);
    assert_eq!(focus.unwrap().as_str(), "web");
    assert_eq!(log_popup_key(false, true, Some(&n)).1.is_none(), true);
    let (closed, none) = log_popup_key(true, false, Some(&n));
    assert!(!closed);
    assert!(none.is_none());
}

#[test]
fn enter_on_registrant_lines() {
    let group = RegistrantTreeItem::RecordGroup {
        name: "DNS Records".to_string(),
        domain_info: domain("Porkbun", "main"),
        children: vec![],
        collapsed: true,
        loaded: false,
    };
    let (req, toggle) = registrant_enter(&group);
    assert!(toggle);
    let req = req.unwrap();
    assert_eq!(req.rec_type, "DNS");
    assert_eq!(req.provider, "Porkbun");
    assert_eq!(req.account, "main");
    assert_eq!(req.domain, "example.com");
    let glue = RegistrantTreeItem::RecordGroup {
        name: "Glue Records".to_string(),
        domain_info: domain("Porkbun", "main"),
        children: vec![],
        collapsed: true,
        loaded: true,
    };
    assert!(registrant_enter(&glue).0.is_none());
    let msg = RegistrantTreeItem::Message { text: "x".to_string() };
    assert_eq!(registrant_enter(&msg).1, false);
    assert!(yank_domain(&glue).is_some());
    assert!(yank_domain(&msg).is_none());
}

#[test]
fn credential_plans() {
    let config = RegistrantsConfig {
        porkbun: vec![(
            "main".to_string(),
            PorkbunAccount {
                api_key_command: "pass a".to_string(),
                secret_api_key_command: "pass s".to_string(),
                terraform_secrets: false,
                api_key_variable: "k".to_string(),
                secret_key_variable: "s".to_string(),
            },
        )],
        namecheap: vec![(
            "work".to_string(),
            NamecheapAccount { api_key_command: "pass nk".to_string(), user_command: "pass nu".to_string() },
        )],
    };
    match credential_plan(&domain("Porkbun", "main"), &config) {
        Some(CredentialPlan::Porkbun(a, s)) => {
            assert_eq!(a, "pass a");
            assert_eq!(s, "pass s");
        },
        other => panic!("unexpected {:?}", other),
    }
    match credential_plan(&domain("Namecheap", "work"), &config) {
        Some(CredentialPlan::Namecheap(u, k)) => {
            assert_eq!(u, "pass nu");
            assert_eq!(k, "pass nk");
        },
        other => panic!("unexpected {:?}", other),
    }
    assert!(credential_plan(&domain("Porkbun", "other"), &config).is_none());
    assert!(credential_plan(&domain("Gandi", "main"), &config).is_none());
    assert_eq!(credentials_message("Porkbun", true), "Porkbun credentials copied!");
    assert_eq!(credentials_message("Namecheap", true), "Namecheap credentials copied!");
    assert_eq!(credentials_message("Porkbun", false), "Failed to fetch keys.");
}

#[test]
fn deployment_messages() {
    assert_eq!(skipping_message(2), "Skipping 2 busy nodes.");
    assert_eq!(starting_message(5), "Starting deployment for 5 nodes...");
}

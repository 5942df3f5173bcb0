use navi::input::{
    apply_toggle, cursor_down, cursor_up, exit_prompt_key, level_popup_key, line_key, log_input_key, menu_key,
    page_key, parse_count, skip_busy, toggle_menu, yank_key, yank_start, ExitPrompt, Key, LevelPopup, LogInput,
    MenuOutcome, ScrollState, YankOutcome,
};
use navi::model::{
    current_menu_items, AppMode, DeploySettings, LocalAction, MenuAction, MenuId, MenuState, SettingId,
};
use navi::nix::{NodeName, NodeState};

fn prompt(show: bool, selection: bool) -> ExitPrompt {
    ExitPrompt { show, selection, should_quit: false }
}

#[test]
fn exit_prompt_answers() {
    assert!(!exit_prompt_key(prompt(true, true), Key::Esc).show);
    assert!(!exit_prompt_key(prompt(true, true), Key::Char('n')).show);
    assert!(!exit_prompt_key(prompt(true, true), Key::Tab).selection);
    assert!(exit_prompt_key(prompt(true, true), Key::Enter).should_quit);
    let no = exit_prompt_key(prompt(true, false), Key::Enter);
    assert!(!no.should_quit && !no.show);
    assert!(exit_prompt_key(prompt(true, false), Key::Char('y')).should_quit);
    assert_eq!(exit_prompt_key(prompt(true, false), Key::Char('x')), prompt(true, false));
}

#[test]
fn level_popup_cycles_and_toggles() {
    let mut p = LevelPopup { open: true, idx: 0, levels: vec!["INFO".to_string(), "WARN".to_string(), "ERROR".to_string()] };
    level_popup_key(&mut p, Key::Up);
    assert_eq!(p.idx, 3);
    level_popup_key(&mut p, Key::Down);
    assert_eq!(p.idx, 0);
    // ERROR is shown: hide it
    level_popup_key(&mut p, Key::Enter);
    assert!(!p.levels.contains(&"ERROR".to_string()));
    level_popup_key(&mut p, Key::Char(' '));
    assert!(p.levels.contains(&"ERROR".to_string()));
    level_popup_key(&mut p, Key::Char('q'));
    assert!(!p.open);
}

fn input(search: bool, buffer: &str) -> LogInput {
    LogInput {
        search_active: search,
        filter_active: !search,
        buffer: buffer.to_string(),
        search_query: None,
        filter_query: None,
        stick_to_bottom: false,
        scroll_offset: 7,
    }
}

#[test]
fn log_input_line_edits_and_commits() {
    let mut st = input(true, "ab");
    log_input_key(&mut st, Key::Char('c'));
    assert_eq!(st.buffer, "abc");
    log_input_key(&mut st, Key::Backspace);
    assert_eq!(st.buffer, "ab");
    log_input_key(&mut st, Key::Enter);
    assert_eq!(st.search_query.as_deref(), Some("ab"));
    assert!(!st.search_active);
    assert_eq!(st.buffer, "");

    let mut f = input(false, "err");
    log_input_key(&mut f, Key::Enter);
    assert_eq!(f.filter_query.as_deref(), Some("err"));
    assert!(f.stick_to_bottom);
    assert_eq!(f.scroll_offset, 0);

    let mut e = input(false, "");
    log_input_key(&mut e, Key::Enter);
    assert_eq!(e.filter_query, None);
    assert_eq!(e.scroll_offset, 7);

    let mut esc = input(true, "zz");
    log_input_key(&mut esc, Key::Esc);
    assert!(!esc.search_active && !esc.filter_active);
    assert_eq!(esc.buffer, "");
}

#[test]
fn yank_count_parsing() {
    assert_eq!(parse_count(""), 1);
    assert_eq!(parse_count("12"), 12);
    assert_eq!(parse_count("007"), 7);
    assert_eq!(parse_count("99999999999999999999999"), 1);
    assert_eq!(parse_count("4x"), 1);
}

#[test]
fn yank_chord() {
    let mut count = String::new();
    let (o, going) = yank_key(&mut count, Key::Char('3'));
    assert!(going && o == YankOutcome::Nothing);
    assert_eq!(count, "3");
    let (o, going) = yank_key(&mut count, Key::Char('j'));
    assert!(!going);
    assert_eq!(o, YankOutcome::Last(3));
    assert_eq!(count, "");
    assert_eq!(yank_key(&mut count, Key::Char('G')).0, YankOutcome::All);
    assert_eq!(yank_key(&mut count, Key::Char('j')).0, YankOutcome::Last(1));
    assert_eq!(yank_key(&mut count, Key::Esc).0, YankOutcome::Nothing);
    assert_eq!(yank_start(10, 3), 7);
    assert_eq!(yank_start(2, 3), 0);
}

#[test]
fn menu_entries_and_navigation() {
    let settings = DeploySettings::default();
    let main = current_menu_items(MenuId::Main, true, &settings, 0);
    let labels: Vec<&str> = main.iter().map(|i| i.label.as_str()).collect();
    assert_eq!(labels, vec!["Inspector (i)", "Options", "Use Daemon", "Close Menu"]);
    assert_eq!(main[2].checked, Some(true));

    let ctx_one = current_menu_items(MenuId::NodeContext, true, &settings, 0);
    assert_eq!(ctx_one.len(), 5);
    let ctx_many = current_menu_items(MenuId::NodeContext, true, &settings, 3);
    let labels: Vec<&str> = ctx_many.iter().map(|i| i.label.as_str()).collect();
    assert_eq!(labels, vec!["Deploy", "Collect Garbage", "Cancel"]);

    let gc = current_menu_items(MenuId::GarbageCollectInterval, true, &settings, 0);
    assert!(matches!(&gc[2].action, MenuAction::Execute(LocalAction::Gc(Some(a))) if a == "7d"));
    assert_eq!(current_menu_items(MenuId::DeploySettings, false, &settings, 0).len(), 9);

    let mut menu = MenuState::default();
    assert!(matches!(menu_key(&mut menu, Key::Up, &main), MenuOutcome::Stay));
    assert_eq!(menu.selected_idx, 3);
    assert!(matches!(menu_key(&mut menu, Key::Down, &main), MenuOutcome::Stay));
    assert_eq!(menu.selected_idx, 0);
    menu_key(&mut menu, Key::Char('j'), &main);
    assert!(matches!(menu_key(&mut menu, Key::Enter, &main), MenuOutcome::Stay));
    assert_eq!(menu.active_menu_id, MenuId::DeploySettings);
    assert_eq!(menu.navigation_stack, vec![(MenuId::Main, 1)]);
    let opts = current_menu_items(menu.active_menu_id, true, &settings, 0);
    assert!(matches!(menu_key(&mut menu, Key::Char(' '), &opts), MenuOutcome::Toggle(SettingId::Reboot)));
    assert!(matches!(menu_key(&mut menu, Key::Esc, &opts), MenuOutcome::Stay));
    assert_eq!(menu.active_menu_id, MenuId::Main);
    assert_eq!(menu.selected_idx, 1);
    assert!(matches!(menu_key(&mut menu, Key::Char('h'), &main), MenuOutcome::Close));

    let mut m2 = MenuState::default();
    assert!(matches!(menu_key(&mut m2, Key::Right, &main), MenuOutcome::Execute(LocalAction::Inspect)));
}

#[test]
fn menu_toggle_and_settings() {
    let mut menu = MenuState { active_menu_id: MenuId::NodeContext, selected_idx: 2, navigation_stack: vec![] };
    assert_eq!(toggle_menu(AppMode::Normal, &mut menu), AppMode::Menu);
    assert_eq!(menu.active_menu_id, MenuId::Main);
    assert_eq!(toggle_menu(AppMode::Menu, &mut menu), AppMode::Normal);

    let mut s = DeploySettings::default();
    let mut use_daemon = true;
    assert!(!apply_toggle(&mut s, &mut use_daemon, true, SettingId::Reboot));
    assert!(s.reboot);
    assert!(!apply_toggle(&mut s, &mut use_daemon, true, SettingId::UseDaemon));
    assert!(!use_daemon);
    assert!(apply_toggle(&mut s, &mut use_daemon, false, SettingId::UseDaemon));
    assert!(!use_daemon);
}

#[test]
fn scrolling_views() {
    let s = ScrollState { diff_offset: 5, log_offset: 5, stick_to_bottom: false };
    let (d, top) = page_key(AppMode::Diff, false, s, Key::PageUp);
    assert_eq!(d.diff_offset, 0);
    assert!(!top);
    let (l, _) = page_key(AppMode::Logs, false, s, Key::PageDown);
    assert_eq!(l.log_offset, 0);
    assert!(l.stick_to_bottom);
    let (h, top) = page_key(AppMode::Registrants, false, s, Key::Home);
    assert!(top);
    assert_eq!(h, s);
    let (e, _) = page_key(AppMode::Normal, false, s, Key::Home);
    assert_eq!(e.log_offset, usize::MAX);
    let up = line_key(AppMode::Normal, true, s, false).unwrap();
    assert_eq!(up.log_offset, 6);
    assert!(line_key(AppMode::Normal, false, s, true).is_none());
    let m = ScrollState { diff_offset: usize::MAX, log_offset: 0, stick_to_bottom: true };
    assert_eq!(line_key(AppMode::Diff, false, m, true).unwrap().diff_offset, usize::MAX);
}

#[test]
fn cursor_wraps_around() {
    assert_eq!(cursor_down(None, 0), 0);
    assert_eq!(cursor_down(Some(2), 3), 0);
    assert_eq!(cursor_down(Some(0), 3), 1);
    assert_eq!(cursor_up(Some(0), 3), 2);
    assert_eq!(cursor_up(Some(2), 3), 1);
    assert_eq!(cursor_up(None, 3), 0);
}

#[test]
fn busy_nodes_are_skipped() {
    let n = |s: &str| NodeName::new(s.to_string()).unwrap();
    let targets = vec![n("a"), n("b"), n("c")];
    let states = vec![
        (n("b"), NodeState::Running("Queued...".to_string())),
        (n("c"), NodeState::Success("done".to_string())),
        (n("b"), NodeState::Idle),
    ];
    let (kept, skipped) = skip_busy(&targets, &states);
    let names: Vec<&str> = kept.iter().map(|k| k.as_str()).collect();
    assert_eq!(names, vec!["a", "c"]);
    assert_eq!(skipped, 1);
}

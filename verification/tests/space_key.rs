use navi::input::{input_route, InputRoute, Key};
use navi::model::AppMode;
use navi::navigation::{pending_g_key, space_key};
use navi::nix::NodeName;
use navi::selection::Selection;
use navi::tree::{flatten_tree, TreeItem};

fn n(s: &str) -> NodeName {
    NodeName::new(s.to_string()).unwrap()
}

fn tree() -> Vec<TreeItem> {
    vec![
        TreeItem::Group {
            name: "web".to_string(),
            children: vec![TreeItem::Node { name: n("web-1") }, TreeItem::Node { name: n("web-2") }],
            collapsed: false,
        },
        TreeItem::Node { name: n("db") },
    ]
}

#[test]
fn space_toggles_node_under_cursor() {
    let t = tree();
    let flat = flatten_tree(&t);
    let mut sel = Selection::new();
    assert_eq!(space_key(&mut sel, &flat, AppMode::Normal, None, Some(3)), (AppMode::Normal, None, false));
    assert!(sel.contains(&n("db")));
    space_key(&mut sel, &flat, AppMode::Normal, None, Some(3));
    assert!(!sel.contains(&n("db")));
}

#[test]
fn space_toggles_group_as_a_whole() {
    let t = tree();
    let flat = flatten_tree(&t);
    let mut sel = Selection::new();
    sel.insert(n("web-1"));
    space_key(&mut sel, &flat, AppMode::Normal, None, Some(0));
    assert!(sel.contains(&n("web-1")) && sel.contains(&n("web-2")));
    space_key(&mut sel, &flat, AppMode::Normal, None, Some(0));
    assert_eq!(sel.len(), 0);
}

#[test]
fn space_in_visual_mode_toggles_range_and_leaves_visual() {
    let t = tree();
    let flat = flatten_tree(&t);
    let mut sel = Selection::new();
    assert_eq!(space_key(&mut sel, &flat, AppMode::Visual, Some(3), Some(2)), (AppMode::Normal, None, false));
    assert!(sel.contains(&n("web-2")) && sel.contains(&n("db")) && !sel.contains(&n("web-1")));
    assert_eq!(space_key(&mut sel, &flat, AppMode::Visual, None, Some(2)), (AppMode::Visual, None, false));
    assert_eq!(space_key(&mut sel, &flat, AppMode::Logs, None, Some(2)), (AppMode::Logs, None, false));
    assert_eq!(sel.len(), 2);
}

#[test]
fn keys_go_to_popups_first() {
    assert_eq!(input_route(true, true, true, true, Key::Char('q'), false, AppMode::Menu), InputRoute::ExitPrompt);
    assert_eq!(input_route(false, true, true, false, Key::Enter, false, AppMode::Normal), InputRoute::LevelPopup);
    assert_eq!(input_route(false, false, true, true, Key::Char('a'), false, AppMode::Normal), InputRoute::InputBuffer);
    assert_eq!(input_route(false, false, false, true, Key::Char('p'), true, AppMode::Normal), InputRoute::Yank);
    assert_eq!(input_route(false, false, false, false, Key::Char('p'), true, AppMode::Menu), InputRoute::ToggleMenu);
    assert_eq!(input_route(false, false, false, false, Key::Char('L'), false, AppMode::Menu), InputRoute::ToggleLogPopup);
    assert_eq!(input_route(false, false, false, false, Key::Char('l'), true, AppMode::Normal), InputRoute::ResetLogs);
    assert_eq!(input_route(false, false, false, false, Key::Char('j'), false, AppMode::Menu), InputRoute::Menu);
    assert_eq!(input_route(false, false, false, false, Key::Char(' '), false, AppMode::Visual), InputRoute::Main);
}

#[test]
fn list_keys_cancel_the_g_chord() {
    assert_eq!(pending_g_key(false, Key::Char('g')), Some(true));
    assert_eq!(pending_g_key(true, Key::Char('g')), Some(false));
    assert_eq!(pending_g_key(true, Key::Char(' ')), Some(false));
    assert_eq!(pending_g_key(true, Key::Down), Some(false));
    assert_eq!(pending_g_key(true, Key::Char('z')), Some(false));
    assert_eq!(pending_g_key(true, Key::Char('/')), Some(true));
    assert_eq!(pending_g_key(true, Key::Enter), Some(true));
    assert_eq!(pending_g_key(true, Key::Char('q')), None);
}

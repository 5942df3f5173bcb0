use navi::boot::{
    caption_position, caption_text, closing_sequence, closing_tick, credits, phantom_alive, prompt_shown, scatter_spot, scene,
    scroll_glyph, Caption, Scene,
};

#[test]
fn scenes_follow_the_cycles() {
    assert_eq!(scene(0), Scene::Life);
    assert_eq!(scene(499), Scene::Life);
    assert_eq!(scene(500), Scene::Intermission { red: false, caption: Caption::Nothing });
    assert_eq!(scene(530), Scene::Intermission { red: false, caption: Caption::PresentDay });
    assert_eq!(scene(600), Scene::Intermission { red: false, caption: Caption::PresentTime });
    assert_eq!(scene(650), Scene::Intermission { red: false, caption: Caption::Laughter });
    assert_eq!(scene(3 * 700 + 10), Scene::Scatter);
    assert_eq!(scene(3 * 700 + 530), Scene::Intermission { red: true, caption: Caption::PresentDay });
    assert_eq!(scene(4 * 700 + 10), Scene::Scroll);
    assert_eq!(scene(4 * 700 + 600), Scene::Scroll);
    assert_eq!(scene(5 * 700), Scene::Blank);
}

#[test]
fn captions() {
    assert_eq!(caption_text(Caption::PresentDay), "PRESENT DAY");
    assert_eq!(caption_text(Caption::Laughter), "HAHAHAHAHA");
    assert_eq!(caption_position(80, 24, 11, false, 0), Some((34, 12)));
    assert_eq!(caption_position(80, 24, 10, true, 0), Some((34, 11)));
    assert_eq!(caption_position(80, 24, 10, true, 1), Some((35, 12)));
    assert_eq!(caption_position(80, 24, 10, true, 2), Some((36, 13)));
    assert_eq!(caption_position(5, 1, 10, true, 0), None);
}

#[test]
fn scattered_laughter() {
    let (x, y, bold, red) = scatter_spot(1000, 1, 80, 24);
    let seed: u64 = 1000 + 99991;
    assert_eq!(x as u64, seed % 70);
    assert_eq!(y as u64, (seed / 100) % 24);
    assert_eq!(bold, seed % 2 == 0);
    assert_eq!(red, seed % 3 == 0);
    let (x2, _, _, _) = scatter_spot(u64::MAX, 2, 5, 3);
    assert_eq!(x2, 0);
}

#[test]
fn scrolling_text() {
    assert_eq!(scroll_glyph(0, 0, 0), 'L');
    assert_eq!(scroll_glyph(1, 0, 0), 'E');
    assert_eq!(scroll_glyph(0, 0, 2), 'E');
    assert_eq!(scroll_glyph(4, 0, 0), ' ');
    assert_eq!(scroll_glyph(21, 0, 0), 'L');
}

#[test]
fn blinking_and_credits() {
    assert!(prompt_shown(0));
    assert!(!prompt_shown(30));
    assert_eq!(credits(0), "prodact by @cafkafk");
    assert_eq!(credits(20), "product by @cafkafk");
    assert!(phantom_alive(100, 50, 60));
    assert!(!phantom_alive(100, 40, 60));
    assert!(phantom_alive(10, 50, 1));
}

#[test]
fn closing_starts_late_in_the_sixth_cycle() {
    assert_eq!(closing_tick(5 * 700 + 1799), None);
    assert_eq!(closing_tick(5 * 700 + 1800), Some(0));
    assert_eq!(closing_tick(5 * 700 + 1900), Some(100));
}

fn texts(t: u64) -> Vec<(u16, u16, String, bool)> {
    closing_sequence(80, 24, t)
}

#[test]
fn closing_sequence_frames() {
    assert!(texts(0).is_empty());
    assert_eq!(texts(1), vec![(25, 11, "Close".to_string(), true)]);
    assert_eq!(texts(20).len(), 3);
    let typing = texts(60);
    assert_eq!(typing[3], (25, 12, "          ".to_string(), false));
    assert_eq!(typing[6], (46, 12, " Next".to_string(), true));
    let erasing = texts(90);
    assert_eq!(erasing[3].2, "          ...Open the N");
    let erased = texts(120);
    assert_eq!(erased[3].2, "          ...txEn ");
    let done = texts(180);
    assert_eq!(done[3].2, "          ...txEn eht nepO");
    assert_eq!(done[4], (25 + 26, 12, "█".to_string(), true));
    assert!(texts(454).is_empty());
}

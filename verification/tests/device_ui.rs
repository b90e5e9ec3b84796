use cargo_mre::device::{handle_key, handle_system, Key, KeyAction, KeyEvent, Page, SysAction, SysMsg, UiState};
use cargo_mre::layout::{
    background, footer_labels, footer_layout, menu_lines, COLOR_BG, ram_lines, screen_lines, Bar, HeapStats, COLOR_FOOTER, COLOR_SEL,
    COLOR_TEXT,
};

fn press(s: UiState, key: Key) -> (UiState, KeyAction) {
    handle_key(s, KeyEvent::Down, key)
}

#[test]
fn cursor_moves_within_the_menu() {
    let s = UiState::new();
    assert_eq!(s, UiState { page: Page::Menu, cursor: 0 });
    let (s, a) = press(s, Key::Up);
    assert_eq!((s.cursor, a), (0, KeyAction::Redraw));
    let (s, _) = press(s, Key::Down);
    assert_eq!(s.cursor, 1);
    let (s, a) = press(s, Key::Down);
    assert_eq!((s.cursor, a), (1, KeyAction::Redraw));
    let (s, _) = press(s, Key::Up);
    assert_eq!(s.cursor, 0);
}

#[test]
fn ok_opens_the_highlighted_page_and_back_returns() {
    let s = UiState::new();
    let (ram, _) = press(s, Key::Select);
    assert_eq!(ram.page, Page::Ram);
    let (back, a) = press(ram, Key::Back);
    assert_eq!((back, a), (s, KeyAction::Redraw));
    let (s1, _) = press(s, Key::Down);
    let (scr, _) = press(s1, Key::Select);
    assert_eq!(scr, UiState { page: Page::Screen, cursor: 1 });
    assert_eq!(press(scr, Key::LeftSoftkey).0, s1);
    assert_eq!(press(scr, Key::RightSoftkey), (s1, KeyAction::Redraw));
    // other keys on a page redraw and stay
    assert_eq!(press(scr, Key::Up), (scr, KeyAction::Redraw));
}

#[test]
fn right_softkey_on_menu_exits_and_releases_are_ignored() {
    let s = UiState::new();
    assert_eq!(press(s, Key::RightSoftkey), (s, KeyAction::Exit));
    assert_eq!(press(s, Key::Other), (s, KeyAction::Redraw));
    assert_eq!(press(s, Key::LeftSoftkey), (s, KeyAction::Redraw));
    assert_eq!(handle_key(s, KeyEvent::Other, Key::Down), (s, KeyAction::Ignore));
}

#[test]
fn system_messages() {
    assert_eq!(handle_system(false, SysMsg::Paint), SysAction::CreateLayerAndDraw);
    assert_eq!(handle_system(true, SysMsg::Paint), SysAction::Draw);
    assert_eq!(handle_system(true, SysMsg::Hide), SysAction::DeleteLayer);
    assert_eq!(handle_system(true, SysMsg::Quit), SysAction::DeleteLayer);
    assert_eq!(handle_system(false, SysMsg::Quit), SysAction::Nothing);
    assert_eq!(handle_system(true, SysMsg::Other), SysAction::Nothing);
}

#[test]
fn menu_page_layout() {
    let lines = menu_lines(1, 16);
    assert_eq!(lines.len(), 3);
    assert_eq!((lines[0].x, lines[0].y, lines[0].text.as_str(), lines[0].color), (8, 8, "Diagnostics", COLOR_SEL));
    assert_eq!((lines[1].x, lines[1].y, lines[1].text.as_str(), lines[1].color), (8, 40, "  RAM Test", COLOR_TEXT));
    assert_eq!((lines[2].x, lines[2].y, lines[2].text.as_str(), lines[2].color), (8, 64, "> Screen", COLOR_SEL));
}

#[test]
fn heap_page_layout() {
    let stats = HeapStats { current: 1234, peak: -5, avail_heap_size: 0, malloc_count: i32::MIN, free_count: 42 };
    let lines = ram_lines(stats, u32::MAX);
    let texts: Vec<&str> = lines.iter().map(|l| l.text.as_str()).collect();
    assert_eq!(
        texts,
        [
            "Heap Information",
            "Current : 1234",
            "Peak    : -5",
            "Free    : 0",
            "Mallocs : -2147483648",
            "Frees   : 42",
            "MRE Mem : 4294967295"
        ]
    );
    let ys: Vec<i32> = lines.iter().map(|l| l.y).collect();
    assert_eq!(ys, [8, 40, 60, 80, 100, 120, 140]);
    assert!(lines[1..].iter().all(|l| l.x == 8 && l.color == COLOR_TEXT));
}

#[test]
fn screen_page_layout() {
    let lines = screen_lines(240, 320);
    let texts: Vec<&str> = lines.iter().map(|l| l.text.as_str()).collect();
    assert_eq!(
        texts,
        ["Screen Information", "Width  : 240 px", "Height : 320 px", "Center : 120,160", "Color  : RGB565", "Layer  : Primary"]
    );
    let odd = screen_lines(-7, 9);
    assert_eq!(odd[3].text, "Center : -3,4");
    assert_eq!(odd[1].text, "Width  : -7 px");
}

#[test]
fn footer_geometry() {
    let (l, r) = footer_labels(Page::Menu);
    assert_eq!((l, r), ("Select", "Exit"));
    assert_eq!(footer_labels(Page::Ram), ("", "Back"));
    let f = footer_layout(240, 320, 16, l, r, 30);
    assert_eq!(f.bar, Bar { x: 0, y: 300, width: 240, height: 20, color: COLOR_FOOTER });
    assert_eq!((f.left.x, f.left.y, f.left.text.as_str(), f.left.color), (2, 302, "Select", COLOR_TEXT));
    assert_eq!((f.right.x, f.right.y, f.right.text.as_str()), (208, 302, "Exit"));
}

#[test]
fn background_covers_the_screen() {
    assert_eq!(background(240, 320), Bar { x: 0, y: 0, width: 240, height: 320, color: COLOR_BG });
}

#[test]
fn printed_numbers_read_back() {
    for n in [0i32, 7, 10, 99, 1000, -1, -2147483648, 2147483647] {
        let stats = HeapStats { current: n, peak: 0, avail_heap_size: 0, malloc_count: 0, free_count: 0 };
        let lines = ram_lines(stats, 0);
        let printed = lines[1].text.strip_prefix("Current : ").unwrap();
        assert_eq!(printed.parse::<i64>().unwrap(), n as i64);
        assert!(!printed.starts_with('0') || printed == "0");
    }
}

#[test]
fn layer_lifecycle() {
    let mut has_layer = false;
    for (msg, expected_after) in [
        (SysMsg::Paint, true),
        (SysMsg::Paint, true),
        (SysMsg::Other, true),
        (SysMsg::Hide, false),
        (SysMsg::Quit, false),
        (SysMsg::Paint, true),
    ] {
        match handle_system(has_layer, msg) {
            SysAction::CreateLayerAndDraw => has_layer = true,
            SysAction::DeleteLayer => has_layer = false,
            SysAction::Draw | SysAction::Nothing => {}
        }
        assert_eq!(has_layer, expected_after);
    }
}

//! The decisions of the on-device diagnostics application: which page is
//! shown, where the menu cursor stands, and what each key press and system
//! message leads to.
use vstd::prelude::*;

verus! {

/// The number of entries in the main menu.
pub const MENU_LEN: i32 = 2;

/// The page on screen.
#[derive(Debug, Clone, Copy, PartialEq, Eq, Structural)]
pub enum Page {
    /// The main menu.
    Menu,
    /// Heap statistics.
    Ram,
    /// Screen geometry.
    Screen,
}

/// What the application remembers between events.
#[derive(Debug, Clone, Copy, PartialEq, Eq, Structural)]
pub struct UiState {
    /// The page on screen.
    pub page: Page,
    /// The highlighted menu entry, from zero.
    pub cursor: i32,
}

/// A key event as the platform reports it.
#[derive(Debug, Clone, Copy, PartialEq, Eq, Structural)]
pub enum KeyEvent {
    /// The key went down.
    Down,
    /// Any other event (release, repeat, long press).
    Other,
}

/// The keys the application reacts to.
#[derive(Debug, Clone, Copy, PartialEq, Eq, Structural)]
pub enum Key {
    Up,
    Down,
    /// The OK (select) key.
    Select,
    LeftSoftkey,
    RightSoftkey,
    Back,
    /// Any other key.
    Other,
}

/// What to do after a key event.
#[derive(Debug, Clone, Copy, PartialEq, Eq, Structural)]
pub enum KeyAction {
    /// Nothing: the event is not a key press.
    Ignore,
    /// Draw the current page.
    Redraw,
    /// Leave the application.
    Exit,
}

/// The system messages the application reacts to.
#[derive(Debug, Clone, Copy, PartialEq, Eq, Structural)]
pub enum SysMsg {
    Paint,
    Hide,
    Quit,
    /// Any other message.
    Other,
}

/// What to do after a system message.
#[derive(Debug, Clone, Copy, PartialEq, Eq, Structural)]
pub enum SysAction {
    /// Create the drawing layer, then draw the current page.
    CreateLayerAndDraw,
    /// Draw the current page on the existing layer.
    Draw,
    /// Delete the drawing layer.
    DeleteLayer,
    /// Nothing.
    Nothing,
}

impl UiState {
    /// The cursor is on a menu entry.
    pub open spec fn wf(self) -> bool {
        0 <= self.cursor < MENU_LEN
    }

    /// The state at start-up: the menu, with its first entry highlighted.
    pub fn new() -> (s: UiState)
        ensures
            s.wf(),
            s.page == Page::Menu,
            s.cursor == 0,
    {
        UiState { page: Page::Menu, cursor: 0 }
    }
}

/// The state and action that a key event leads to: the rules of the
/// application, stated directly.
pub open spec fn key_step(s: UiState, event: KeyEvent, key: Key) -> (UiState, KeyAction) {
    if event != KeyEvent::Down {
        (s, KeyAction::Ignore)
    } else {
        match s.page {
            Page::Menu => match key {
                Key::Up => (
                    UiState { cursor: if s.cursor > 0 { (s.cursor - 1) as i32 } else { s.cursor }, ..s },
                    KeyAction::Redraw,
                ),
                Key::Down => (
                    UiState {
                        cursor: if s.cursor < MENU_LEN - 1 { (s.cursor + 1) as i32 } else { s.cursor },
                        ..s
                    },
                    KeyAction::Redraw,
                ),
                Key::Select => (
                    UiState { page: if s.cursor == 0 { Page::Ram } else { Page::Screen }, ..s },
                    KeyAction::Redraw,
                ),
                Key::RightSoftkey => (s, KeyAction::Exit),
                _ => (s, KeyAction::Redraw),
            },
            _ => match key {
                Key::LeftSoftkey | Key::RightSoftkey | Key::Back => (
                    UiState { page: Page::Menu, ..s },
                    KeyAction::Redraw,
                ),
                _ => (s, KeyAction::Redraw),
            },
        }
    }
}

/// Handles a key event: up and down move the menu cursor within the menu,
/// OK opens the highlighted page, the right softkey on the menu leaves the
/// application, and the softkeys or back on another page return to the
/// menu. Every key press but the one that leaves asks for a redraw.
pub fn handle_key(s: UiState, event: KeyEvent, key: Key) -> (r: (UiState, KeyAction))
    ensures
        r == key_step(s, event, key),
        s.wf() ==> r.0.wf(),
{
    match event {
        KeyEvent::Other => (s, KeyAction::Ignore),
        KeyEvent::Down => match s.page {
            Page::Menu => match key {
                Key::Up => {
                    let cursor = if s.cursor > 0 { s.cursor - 1 } else { s.cursor };
                    (UiState { page: s.page, cursor }, KeyAction::Redraw)
                },
                Key::Down => {
                    let cursor = if s.cursor < MENU_LEN - 1 { s.cursor + 1 } else { s.cursor };
                    (UiState { page: s.page, cursor }, KeyAction::Redraw)
                },
                Key::Select => {
                    let page = if s.cursor == 0 { Page::Ram } else { Page::Screen };
                    (UiState { page, cursor: s.cursor }, KeyAction::Redraw)
                },
                Key::RightSoftkey => (s, KeyAction::Exit),
                _ => (s, KeyAction::Redraw),
            },
            _ => match key {
                Key::LeftSoftkey | Key::RightSoftkey | Key::Back => (
                    UiState { page: Page::Menu, cursor: s.cursor },
                    KeyAction::Redraw,
                ),
                _ => (s, KeyAction::Redraw),
            },
        },
    }
}

/// The action that a system message leads to, given whether the drawing
/// layer exists.
pub open spec fn sys_step(has_layer: bool, msg: SysMsg) -> SysAction {
    match msg {
        SysMsg::Paint => if has_layer {
            SysAction::Draw
        } else {
            SysAction::CreateLayerAndDraw
        },
        SysMsg::Hide | SysMsg::Quit => if has_layer {
            SysAction::DeleteLayer
        } else {
            SysAction::Nothing
        },
        SysMsg::Other => SysAction::Nothing,
    }
}

/// Handles a system message: paint draws the page, creating the layer
/// first when there is none; hide and quit delete the layer if there is one.
pub fn handle_system(has_layer: bool, msg: SysMsg) -> (a: SysAction)
    ensures
        a == sys_step(has_layer, msg),
{
    match msg {
        SysMsg::Paint => if has_layer {
            SysAction::Draw
        } else {
            SysAction::CreateLayerAndDraw
        },
        SysMsg::Hide | SysMsg::Quit => if has_layer {
            SysAction::DeleteLayer
        } else {
            SysAction::Nothing
        },
        SysMsg::Other => SysAction::Nothing,
    }
}

/// Whether the drawing layer exists after `action`.
pub open spec fn layer_after(has_layer: bool, action: SysAction) -> bool {
    match action {
        SysAction::CreateLayerAndDraw => true,
        SysAction::DeleteLayer => false,
        _ => has_layer,
    }
}

/// Every key event keeps the cursor on a menu entry.
pub proof fn law_key_keeps_cursor_in_menu(s: UiState, event: KeyEvent, key: Key)
    requires
        s.wf(),
    ensures
        key_step(s, event, key).0.wf(),
{
}

/// Opening a page from the menu and going back returns to the menu with the
/// cursor where it was.
pub proof fn law_open_then_back_restores(s: UiState, back: Key)
    requires
        s.wf(),
        s.page == Page::Menu,
        back == Key::Back || back == Key::LeftSoftkey || back == Key::RightSoftkey,
    ensures
        key_step(key_step(s, KeyEvent::Down, Key::Select).0, KeyEvent::Down, back) == (
            s,
            KeyAction::Redraw,
        ),
{
}

/// OK on the menu opens the page of the highlighted entry: the first entry
/// opens the heap page, the second the screen page.
pub proof fn law_ok_opens_highlighted_page(s: UiState)
    requires
        s.wf(),
        s.page == Page::Menu,
    ensures
        key_step(s, KeyEvent::Down, Key::Select).0.page == (if s.cursor == 0 {
            Page::Ram
        } else {
            Page::Screen
        }),
{
}

/// Only the right softkey on the menu leaves the application.
pub proof fn law_only_menu_right_softkey_exits(s: UiState, event: KeyEvent, key: Key)
    ensures
        key_step(s, event, key).1 == KeyAction::Exit <==> (event == KeyEvent::Down && s.page
            == Page::Menu && key == Key::RightSoftkey),
{
}

/// A paint always ends with the layer present, and hide or quit always ends
/// with it gone.
pub proof fn law_layer_lifecycle(has_layer: bool, msg: SysMsg)
    ensures
        msg == SysMsg::Paint ==> layer_after(has_layer, sys_step(has_layer, msg)),
        (msg == SysMsg::Hide || msg == SysMsg::Quit) ==> !layer_after(
            has_layer,
            sys_step(has_layer, msg),
        ),
        msg == SysMsg::Other ==> layer_after(has_layer, sys_step(has_layer, msg)) == has_layer,
{
}

/// On the heap or screen page only the two softkeys and back do anything:
/// they return to the menu with the cursor kept; any other key press leaves
/// page and cursor as they are and asks for a redraw.
pub proof fn law_page_keys(s: UiState, key: Key)
    requires
        s.page != Page::Menu,
    ensures
        (key == Key::LeftSoftkey || key == Key::RightSoftkey || key == Key::Back) ==> key_step(
            s,
            KeyEvent::Down,
            key,
        ) == (UiState { page: Page::Menu, cursor: s.cursor }, KeyAction::Redraw),
        !(key == Key::LeftSoftkey || key == Key::RightSoftkey || key == Key::Back) ==> key_step(
            s,
            KeyEvent::Down,
            key,
        ) == (s, KeyAction::Redraw),
{
}

/// On the menu: up moves the cursor one entry up unless it is on the first,
/// down one entry down unless it is on the last, OK opens the page of the
/// highlighted entry and keeps the cursor, the right softkey leaves, and any
/// other key changes nothing; every key but the right softkey asks for a
/// redraw.
pub proof fn law_menu_keys(s: UiState, key: Key)
    requires
        s.page == Page::Menu,
        0 <= s.cursor < MENU_LEN,
    ensures
        key == Key::Up ==> {
            &&& key_step(s, KeyEvent::Down, key).0.page == Page::Menu
            &&& key_step(s, KeyEvent::Down, key).0.cursor == if s.cursor == 0 {
                0
            } else {
                s.cursor - 1
            }
            &&& key_step(s, KeyEvent::Down, key).1 == KeyAction::Redraw
        },
        key == Key::Down ==> {
            &&& key_step(s, KeyEvent::Down, key).0.page == Page::Menu
            &&& key_step(s, KeyEvent::Down, key).0.cursor == if s.cursor == 1 {
                1
            } else {
                s.cursor + 1
            }
            &&& key_step(s, KeyEvent::Down, key).1 == KeyAction::Redraw
        },
        key == Key::Select ==> key_step(s, KeyEvent::Down, key) == (
            UiState { page: if s.cursor == 0 { Page::Ram } else { Page::Screen }, cursor: s.cursor },
            KeyAction::Redraw,
        ),
        key == Key::RightSoftkey ==> key_step(s, KeyEvent::Down, key) == (s, KeyAction::Exit),
        (key == Key::LeftSoftkey || key == Key::Back || key == Key::Other) ==> key_step(
            s,
            KeyEvent::Down,
            key,
        ) == (s, KeyAction::Redraw),
{
}

/// An event that is not a key press changes nothing and asks for nothing.
pub proof fn law_non_press_ignored(s: UiState, event: KeyEvent, key: Key)
    requires
        event != KeyEvent::Down,
    ensures
        key_step(s, event, key) == (s, KeyAction::Ignore),
{
}

/// The page is drawn only on a paint message; the layer is created only on a
/// paint when there is none, used only when it exists, and deleted only on
/// hide or quit when it exists; any other message leads to nothing.
pub proof fn law_system_actions(has_layer: bool, msg: SysMsg)
    ensures
        msg == SysMsg::Other ==> sys_step(has_layer, msg) == SysAction::Nothing,
        sys_step(has_layer, msg) == SysAction::Draw <==> (msg == SysMsg::Paint && has_layer),
        sys_step(has_layer, msg) == SysAction::CreateLayerAndDraw <==> (msg == SysMsg::Paint
            && !has_layer),
        sys_step(has_layer, msg) == SysAction::DeleteLayer <==> ((msg == SysMsg::Hide || msg
            == SysMsg::Quit) && has_layer),
{
}

} // verus!

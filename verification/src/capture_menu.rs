//! State of the compact capture toolbar: which items are active or disabled,
//! what each click does, and where each item sits.

use vstd::prelude::*;

verus! {

#[derive(Debug, Clone, Copy, PartialEq, Eq)]
pub enum CaptureMenuAction {
    Cancel,
    Display,
    Window,
    Area,
}

#[derive(Debug, Clone, Copy, PartialEq, Eq)]
pub struct CaptureMenuResult {
    pub action: CaptureMenuAction,
    pub recording: bool,
    pub ocr: bool,
    pub timer_seconds: u8,
    pub microphone: bool,
    pub speaker: bool,
}

/// The result of a cancelled menu.
pub open spec fn cancelled_result() -> CaptureMenuResult {
    CaptureMenuResult {
        action: CaptureMenuAction::Cancel,
        recording: false,
        ocr: false,
        timer_seconds: 0,
        microphone: false,
        speaker: false,
    }
}

impl Default for CaptureMenuResult {
    fn default() -> (r: Self)
        ensures
            r == cancelled_result(),
    {
        CaptureMenuResult {
            action: CaptureMenuAction::Cancel,
            recording: false,
            ocr: false,
            timer_seconds: 0,
            microphone: false,
            speaker: false,
        }
    }
}

/// Toggles the user has set in the menu so far.
#[derive(Debug, Clone, Copy, PartialEq, Eq)]
pub struct MenuState {
    pub recording: bool,
    pub ocr: bool,
    pub timer_seconds: u8,
    pub microphone: bool,
    pub speaker: bool,
}

/// The menu's state when it opens: screenshot mode, nothing toggled.
pub open spec fn initial_state() -> MenuState {
    MenuState { recording: false, ocr: false, timer_seconds: 0, microphone: false, speaker: false }
}

/// The result that carries `s`'s toggles with `action`.
pub open spec fn result_spec(s: MenuState, action: CaptureMenuAction) -> CaptureMenuResult {
    CaptureMenuResult {
        action,
        recording: s.recording,
        ocr: s.ocr,
        timer_seconds: s.timer_seconds,
        microphone: s.microphone,
        speaker: s.speaker,
    }
}

/// The toolbar's consistency rules: video mode has neither OCR nor a timer,
/// OCR and a timer exclude each other, and the timer is off or 3, 5 or 10 s.
pub open spec fn menu_inv(s: MenuState) -> bool {
    &&& s.recording ==> !s.ocr && s.timer_seconds == 0
    &&& !(s.ocr && s.timer_seconds > 0)
    &&& (s.timer_seconds == 0 || s.timer_seconds == 3 || s.timer_seconds == 5 || s.timer_seconds == 10)
}

/// Whether item `index` is greyed out: Window and Area in video mode,
/// Display with OCR, Window with a timer or OCR, Area, OCR with a timer, and
/// the timer with OCR.
pub open spec fn disabled_spec(index: int, s: MenuState) -> bool {
    (s.recording && (index == 3 || index == 4)) || (!s.recording && index == 2 && s.ocr) || (
    !s.recording && index == 3 && (s.timer_seconds > 0 || s.ocr)) || (!s.recording && index == 4
        && s.timer_seconds > 0) || (!s.recording && index == 5 && s.timer_seconds > 0) || (
    !s.recording && index == 6 && s.ocr)
}

/// Whether item `index` is highlighted as on.
pub open spec fn active_spec(index: int, s: MenuState) -> bool {
    (index == 0 && !s.recording) || (index == 1 && s.recording) || (!s.recording && index == 5
        && s.ocr) || (!s.recording && index == 6 && s.timer_seconds > 0) || (s.recording && index
        == 5 && s.microphone) || (s.recording && index == 6 && s.speaker)
}

/// The next timer setting: off, 3 s, 5 s, 10 s, off again.
pub open spec fn next_timer(t: u8) -> u8 {
    if t == 0 {
        3
    } else if t == 3 {
        5
    } else if t == 5 {
        10
    } else {
        0
    }
}

/// What a click on item `index` does: the next state, and the result when
/// the click closes the menu. Disabled items do nothing; Shot and Video
/// switch mode (Video clears OCR and the timer); Display, Window and Area
/// finish with that action; item 5 toggles the microphone in video mode and
/// OCR otherwise; item 6 toggles the speaker in video mode and cycles the
/// timer otherwise; the close button cancels.
pub open spec fn press_spec(s: MenuState, index: int) -> (MenuState, Option<CaptureMenuResult>) {
    if disabled_spec(index, s) {
        (s, None)
    } else if index == 0 {
        (MenuState { recording: false, ..s }, None)
    } else if index == 1 {
        (MenuState { recording: true, ocr: false, timer_seconds: 0, ..s }, None)
    } else if index == 2 {
        (s, Some(result_spec(s, CaptureMenuAction::Display)))
    } else if index == 3 {
        (s, Some(result_spec(s, CaptureMenuAction::Window)))
    } else if index == 4 {
        (s, Some(result_spec(s, CaptureMenuAction::Area)))
    } else if index == 5 && s.recording {
        (MenuState { microphone: !s.microphone, ..s }, None)
    } else if index == 5 {
        (MenuState { ocr: !s.ocr, ..s }, None)
    } else if index == 6 && s.recording {
        (MenuState { speaker: !s.speaker, ..s }, None)
    } else if index == 6 {
        (MenuState { timer_seconds: next_timer(s.timer_seconds), ..s }, None)
    } else if index == 7 {
        (s, Some(cancelled_result()))
    } else {
        (s, None)
    }
}

impl MenuState {
    /// The state the menu opens in.
    pub fn new() -> (s: Self)
        ensures
            s == initial_state(),
    {
        MenuState { recording: false, ocr: false, timer_seconds: 0, microphone: false, speaker: false }
    }

    /// The menu result carrying these toggles and `action`.
    pub fn result(self, action: CaptureMenuAction) -> (r: CaptureMenuResult)
        ensures
            r == result_spec(self, action),
    {
        CaptureMenuResult {
            action,
            recording: self.recording,
            ocr: self.ocr,
            timer_seconds: self.timer_seconds,
            microphone: self.microphone,
            speaker: self.speaker,
        }
    }
}

/// Whether a separator line follows item `index`.
pub fn separator_after(index: usize) -> (b: bool)
    ensures
        b == (index == 1 || index == 4 || index == 6),
{
    matches!(index, 1 | 4 | 6)
}

pub fn item_is_disabled(index: usize, state: MenuState) -> (b: bool)
    ensures
        b == disabled_spec(index as int, state),
{
    (state.recording && matches!(index, 3 | 4)) || (!state.recording && index == 2 && state.ocr) || (
    !state.recording && index == 3 && (state.timer_seconds > 0 || state.ocr)) || (!state.recording
        && index == 4 && state.timer_seconds > 0) || (!state.recording && index == 5
        && state.timer_seconds > 0) || (!state.recording && index == 6 && state.ocr)
}

pub fn item_is_active(index: usize, state: MenuState) -> (b: bool)
    ensures
        b == active_spec(index as int, state),
{
    (index == 0 && !state.recording) || (index == 1 && state.recording) || (!state.recording && index
        == 5 && state.ocr) || (!state.recording && index == 6 && state.timer_seconds > 0) || (
    state.recording && index == 5 && state.microphone) || (state.recording && index == 6
        && state.speaker)
}

/// Apply a click on item `index`; returns the next state and, when the click
/// closes the menu, its result.
pub fn press(state: MenuState, index: usize) -> (out: (MenuState, Option<CaptureMenuResult>))
    ensures
        out == press_spec(state, index as int),
        menu_inv(state) ==> menu_inv(out.0),
{
    if item_is_disabled(index, state) {
        return (state, None);
    }
    let mut menu = state;
    match index {
        0 => menu.recording = false,
        1 => {
            menu.recording = true;
            menu.ocr = false;
            menu.timer_seconds = 0;
        },
        2 => {
            return (menu, Some(menu.result(CaptureMenuAction::Display)));
        },
        3 => {
            return (menu, Some(menu.result(CaptureMenuAction::Window)));
        },
        4 => {
            return (menu, Some(menu.result(CaptureMenuAction::Area)));
        },
        5 => {
            if menu.recording {
                menu.microphone = !menu.microphone;
            } else {
                menu.ocr = !menu.ocr;
            }
        },
        6 => {
            if menu.recording {
                menu.speaker = !menu.speaker;
            } else {
                menu.timer_seconds = match menu.timer_seconds {
                    0 => 3,
                    3 => 5,
                    5 => 10,
                    _ => 0,
                };
            }
        },
        7 => {
            return (menu, Some(CaptureMenuResult::default()));
        },
        _ => {},
    }
    (menu, None)
}

/// The item the pointer hovers, as shown: the item under it unless that item
/// is disabled, else -1.
pub fn hover_index(item: Option<usize>, state: MenuState) -> (h: i32)
    ensures
        h == (match item {
            Some(i) => if i < 8 && !disabled_spec(i as int, state) {
                i as int
            } else {
                -1
            },
            None => -1,
        }),
{
    match item {
        Some(i) => {
            if i < 8 && !item_is_disabled(i, state) {
                i as i32
            } else {
                -1
            }
        },
        None => -1,
    }
}

/// Width of each toolbar item.
pub open spec fn item_width_spec(index: int) -> int {
    if index == 0 {
        66
    } else if index == 1 {
        58
    } else if index == 2 {
        76
    } else if index == 3 {
        76
    } else if index == 4 {
        66
    } else if index == 5 {
        62
    } else if index == 6 {
        68
    } else {
        52
    }
}

/// Left edge of item `index`: 8 px in, then each earlier item's width and a
/// 13 px gap after each separator.
pub open spec fn item_x_spec(index: int) -> int
    decreases index,
{
    if index <= 0 {
        8
    } else {
        item_x_spec(index - 1) + item_width_spec(index - 1) + if index - 1 == 1 || index - 1 == 4
            || index - 1 == 6 {
            13int
        } else {
            0int
        }
    }
}

pub const PANEL_WIDTH: i32 = 579;

pub const PANEL_HEIGHT: i32 = 82;

/// An item's rectangle, in whole pixels.
#[derive(Debug, Clone, Copy, PartialEq, Eq)]
pub struct MenuRect {
    pub x: u32,
    pub y: u32,
    pub width: u32,
    pub height: u32,
}

pub fn item_width(index: usize) -> (w: u32)
    ensures
        w == item_width_spec(index as int),
{
    match index {
        0 => 66,
        1 => 58,
        2 => 76,
        3 => 76,
        4 => 66,
        5 => 62,
        6 => 68,
        _ => 52,
    }
}

/// The rectangle of toolbar item `index` (0..8): 66 px tall at y = 8.
pub fn item_rect(index: usize) -> (r: MenuRect)
    requires
        index < 8,
    ensures
        r.x == item_x_spec(index as int),
        r.y == 8,
        r.width == item_width_spec(index as int),
        r.height == 66,
{
    let mut x: u32 = 8;
    let mut prior: usize = 0;
    while prior < index
        invariant
            0 <= prior <= index < 8,
            x == item_x_spec(prior as int),
            x <= 8 + prior * 89,
        decreases index - prior,
    {
        x = x + item_width(prior);
        if separator_after(prior) {
            x = x + 13;
        }
        prior = prior + 1;
    }
    MenuRect { x, y: 8, width: item_width(index), height: 66 }
}

/// The label under item `index`.
pub open spec fn label_spec(index: int, s: MenuState) -> Seq<char> {
    if index == 5 && s.recording {
        "Mic"@
    } else if index == 6 && s.recording {
        "Speaker"@
    } else if index == 6 && s.timer_seconds > 0 {
        decimal_spec(s.timer_seconds as nat) + "s"@
    } else if index == 0 {
        "Shot"@
    } else if index == 1 {
        "Video"@
    } else if index == 2 {
        "Display"@
    } else if index == 3 {
        "Window"@
    } else if index == 4 {
        "Area"@
    } else if index == 5 {
        "OCR"@
    } else if index == 6 {
        "Timer"@
    } else {
        ""@
    }
}

/// The decimal digits of `n`.
pub open spec fn decimal_spec(n: nat) -> Seq<char>
    decreases n,
{
    if n < 10 {
        seq![digit_char(n)]
    } else {
        decimal_spec(n / 10) + seq![digit_char(n % 10)]
    }
}

pub open spec fn digit_char(d: nat) -> char {
    (('0' as nat) + d) as char
}

fn digit_str(d: u8) -> (s: &'static str)
    requires
        d < 10,
    ensures
        s@ == seq![digit_char(d as nat)],
{
    proof {
        reveal_strlit("0");
        reveal_strlit("1");
        reveal_strlit("2");
        reveal_strlit("3");
        reveal_strlit("4");
        reveal_strlit("5");
        reveal_strlit("6");
        reveal_strlit("7");
        reveal_strlit("8");
        reveal_strlit("9");
    }
    match d {
        0 => "0",
        1 => "1",
        2 => "2",
        3 => "3",
        4 => "4",
        5 => "5",
        6 => "6",
        7 => "7",
        8 => "8",
        _ => "9",
    }
}

/// The decimal text of `n`.
pub fn decimal_text(n: usize) -> (s: String)
    ensures
        s@ == decimal_spec(n as nat),
    decreases n,
{
    if n < 10 {
        return String::from_str(digit_str(n as u8));
    }
    let mut out = decimal_text(n / 10);
    out.append(digit_str((n % 10) as u8));
    out
}

/// The decimal text of `n`.
pub fn decimal_string(n: u8) -> (s: String)
    ensures
        s@ == decimal_spec(n as nat),
{
    decimal_text(n as usize)
}

/// The text under toolbar item `index`: the item's name, except that the
/// recording toolbar shows Mic and Speaker toggles and an armed timer shows
/// its delay in seconds.
pub fn label_for(index: usize, state: MenuState) -> (label: String)
    requires
        index < 8,
    ensures
        label@ == label_spec(index as int, state),
{
    if index == 5 && state.recording {
        return String::from_str("Mic");
    }
    if index == 6 && state.recording {
        return String::from_str("Speaker");
    }
    if index == 6 && state.timer_seconds > 0 {
        let mut text = decimal_string(state.timer_seconds);
        text.append("s");
        return text;
    }
    String::from_str(
        match index {
            0 => "Shot",
            1 => "Video",
            2 => "Display",
            3 => "Window",
            4 => "Area",
            5 => "OCR",
            6 => "Timer",
            _ => "",
        },
    )
}

/// Every state reachable from the opening state keeps the toolbar's
/// consistency rules: the opening state satisfies them and no click breaks
/// them.
pub proof fn lemma_press_keeps_rules(s: MenuState, index: int)
    requires
        menu_inv(s),
    ensures
        menu_inv(initial_state()),
        menu_inv(press_spec(s, index).0),
{
}

/// A click on a disabled item changes nothing and does not close the menu.
pub proof fn lemma_disabled_click_is_inert(s: MenuState, index: int)
    requires
        disabled_spec(index, s),
    ensures
        press_spec(s, index) == (s, Option::<CaptureMenuResult>::None),
{
}

/// Clicking the timer item four times in screenshot mode (without OCR)
/// brings the timer back to where it started.
pub proof fn lemma_timer_cycle_returns(s: MenuState)
    requires
        menu_inv(s),
        !s.recording,
        !s.ocr,
    ensures
        ({
            let s1 = press_spec(s, 6).0;
            let s2 = press_spec(s1, 6).0;
            let s3 = press_spec(s2, 6).0;
            let s4 = press_spec(s3, 6).0;
            s4 == s
        }),
{
}

/// Display, Window and Area finish the menu with their own, distinct action
/// and carry every toggle over unchanged; the state stays as it was. Display
/// is available unless OCR is on in screenshot mode; Window and Area only in
/// screenshot mode, Window without OCR or a timer and Area without a timer.
/// The freshly opened menu's Area item starts a plain area screenshot.
pub proof fn lemma_capture_items_finish(s: MenuState)
    ensures
        (s.recording || !s.ocr) ==> press_spec(s, 2) == (
            s,
            Some(
                CaptureMenuResult {
                    action: CaptureMenuAction::Display,
                    recording: s.recording,
                    ocr: s.ocr,
                    timer_seconds: s.timer_seconds,
                    microphone: s.microphone,
                    speaker: s.speaker,
                },
            ),
        ),
        (!s.recording && !s.ocr && s.timer_seconds == 0) ==> press_spec(s, 3) == (
            s,
            Some(
                CaptureMenuResult {
                    action: CaptureMenuAction::Window,
                    recording: s.recording,
                    ocr: s.ocr,
                    timer_seconds: s.timer_seconds,
                    microphone: s.microphone,
                    speaker: s.speaker,
                },
            ),
        ),
        (!s.recording && s.timer_seconds == 0) ==> press_spec(s, 4) == (
            s,
            Some(
                CaptureMenuResult {
                    action: CaptureMenuAction::Area,
                    recording: s.recording,
                    ocr: s.ocr,
                    timer_seconds: s.timer_seconds,
                    microphone: s.microphone,
                    speaker: s.speaker,
                },
            ),
        ),
        s.recording ==> press_spec(s, 3) == (s, None::<CaptureMenuResult>) && press_spec(s, 4) == (
            s,
            None::<CaptureMenuResult>,
        ),
        press_spec(s, 7) == (
            s,
            Some(
                CaptureMenuResult {
                    action: CaptureMenuAction::Cancel,
                    recording: false,
                    ocr: false,
                    timer_seconds: 0,
                    microphone: false,
                    speaker: false,
                },
            ),
        ),
        press_spec(
            MenuState { recording: false, ocr: false, timer_seconds: 0, microphone: false, speaker: false },
            4,
        ) == (
            MenuState { recording: false, ocr: false, timer_seconds: 0, microphone: false, speaker: false },
            Some(
                CaptureMenuResult {
                    action: CaptureMenuAction::Area,
                    recording: false,
                    ocr: false,
                    timer_seconds: 0,
                    microphone: false,
                    speaker: false,
                },
            ),
        ),
{
}

/// The mode and toggle items never close the menu. Shot enters screenshot
/// mode and Video enters video mode (dropping OCR and the timer); in video
/// mode items 5 and 6 flip the microphone and the speaker, in screenshot mode
/// item 5 flips OCR (when no timer is set) and item 6 steps the timer
/// 0 → 3 → 5 → 10 → 0 (when OCR is off); nothing else changes.
pub proof fn lemma_toggle_items(s: MenuState)
    ensures
        press_spec(s, 0) == (MenuState { recording: false, ..s }, None::<CaptureMenuResult>),
        press_spec(s, 1) == (
            MenuState { recording: true, ocr: false, timer_seconds: 0, ..s },
            None::<CaptureMenuResult>,
        ),
        s.recording ==> press_spec(s, 5) == (
            MenuState { microphone: !s.microphone, ..s },
            None::<CaptureMenuResult>,
        ),
        s.recording ==> press_spec(s, 6) == (MenuState { speaker: !s.speaker, ..s }, None::<CaptureMenuResult>),
        (!s.recording && s.timer_seconds == 0) ==> press_spec(s, 5) == (
            MenuState { ocr: !s.ocr, ..s },
            None::<CaptureMenuResult>,
        ),
        (!s.recording && s.timer_seconds > 0) ==> press_spec(s, 5) == (s, None::<CaptureMenuResult>),
        (!s.recording && !s.ocr) ==> press_spec(s, 6) == (
            MenuState {
                timer_seconds: if s.timer_seconds == 0 {
                    3u8
                } else if s.timer_seconds == 3 {
                    5u8
                } else if s.timer_seconds == 5 {
                    10u8
                } else {
                    0u8
                },
                ..s
            },
            None::<CaptureMenuResult>,
        ),
        (!s.recording && s.ocr) ==> press_spec(s, 6) == (s, None::<CaptureMenuResult>),
{
}

/// Each item is labelled by what it does: Shot, Video, Display, Window and
/// Area always; item 5 is OCR in screenshot mode and Mic in video mode;
/// item 6 is Speaker in video mode, the armed delay (such as `5s`) in
/// screenshot mode, and Timer when no delay is armed.
pub proof fn lemma_item_labels(s: MenuState)
    ensures
        label_spec(0, s) == "Shot"@,
        label_spec(1, s) == "Video"@,
        label_spec(2, s) == "Display"@,
        label_spec(3, s) == "Window"@,
        label_spec(4, s) == "Area"@,
        label_spec(5, s) == if s.recording { "Mic"@ } else { "OCR"@ },
        s.recording ==> label_spec(6, s) == "Speaker"@,
        (!s.recording && s.timer_seconds > 0) ==> label_spec(6, s) == decimal_spec(s.timer_seconds as nat) + "s"@,
        (!s.recording && s.timer_seconds == 0) ==> label_spec(6, s) == "Timer"@,
{
}

} // verus!

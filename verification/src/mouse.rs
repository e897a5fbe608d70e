use vstd::prelude::*;

verus! {

/// A mouse button.
#[derive(Debug, Clone, Copy, PartialEq, Eq, Structural)]
pub enum MouseClick {
    LEFT,
    RIGHT,
    MIDDLE,
}

/// A scroll direction: `UP` and `DOWN` turn the vertical wheel,
/// `LEFT` and `RIGHT` the horizontal one.
#[derive(Debug, Clone, Copy, PartialEq, Eq, Structural)]
pub enum MouseScroll {
    UP,
    DOWN,
    LEFT,
    RIGHT,
}

/// The kind of one mouse input event: one of the system's mouse-event flags.
#[derive(Debug, Clone, Copy, PartialEq, Eq, Structural)]
pub enum MouseEventKind {
    LeftDown,
    LeftUp,
    RightDown,
    RightUp,
    MiddleDown,
    MiddleUp,
    Wheel,
    HorizontalWheel,
}

/// One mouse input event as it is sent: a zeroed input record whose flags
/// hold `kind` and whose data word is `mouse_data` (the wheel delta of a
/// wheel event, zero otherwise).
#[derive(Debug, Clone, Copy, PartialEq, Eq, Structural)]
pub struct MouseInput {
    pub kind: MouseEventKind,
    pub mouse_data: u32,
}

/// An input event of the given kind with a zero data word.
pub open spec fn plain_input(kind: MouseEventKind) -> MouseInput {
    MouseInput { kind, mouse_data: 0 }
}

impl MouseClick {
    /// The event that presses this button.
    pub open spec fn press_kind(self) -> MouseEventKind {
        match self {
            MouseClick::LEFT => MouseEventKind::LeftDown,
            MouseClick::RIGHT => MouseEventKind::RightDown,
            MouseClick::MIDDLE => MouseEventKind::MiddleDown,
        }
    }

    /// The event that releases this button.
    pub open spec fn release_kind(self) -> MouseEventKind {
        match self {
            MouseClick::LEFT => MouseEventKind::LeftUp,
            MouseClick::RIGHT => MouseEventKind::RightUp,
            MouseClick::MIDDLE => MouseEventKind::MiddleUp,
        }
    }
}

impl MouseScroll {
    /// The wheel that a scroll in this direction turns.
    pub open spec fn wheel_kind(self) -> MouseEventKind {
        match self {
            MouseScroll::UP | MouseScroll::DOWN => MouseEventKind::Wheel,
            MouseScroll::LEFT | MouseScroll::RIGHT => MouseEventKind::HorizontalWheel,
        }
    }

    /// The wheel delta of one notch in this direction.
    pub open spec fn notch(self) -> int {
        match self {
            MouseScroll::UP => 120,
            MouseScroll::DOWN => -120,
            MouseScroll::LEFT => -120,
            MouseScroll::RIGHT => 120,
        }
    }
}

/// The intensity read as a 32-bit signed integer (two's complement), as
/// the wheel amount is computed from it.
pub open spec fn signed_intensity(intensity: u32) -> int {
    if intensity <= 0x7fff_ffff {
        intensity as int
    } else {
        intensity - 0x1_0000_0000
    }
}

/// The wheel amount of a scroll: notches times the signed intensity.
pub open spec fn scroll_amount(direction: MouseScroll, intensity: u32) -> int {
    direction.notch() * signed_intensity(intensity)
}

/// The wheel amount of a scroll fits in a 32-bit signed integer.
pub open spec fn scroll_amount_fits(direction: MouseScroll, intensity: u32) -> bool {
    -0x8000_0000 <= scroll_amount(direction, intensity) <= 0x7fff_ffff
}

/// The event a scroll sends: the wheel of its direction, with the wheel
/// amount stored in the 32-bit data word (two's complement).
pub open spec fn scroll_input(direction: MouseScroll, intensity: u32) -> MouseInput {
    MouseInput {
        kind: direction.wheel_kind(),
        mouse_data: (scroll_amount(direction, intensity) % 0x1_0000_0000) as u32,
    }
}

/// One step of a drag, performed in order.
#[derive(Debug, Clone, Copy, PartialEq, Eq, Structural)]
pub enum DragAction {
    /// Send this input event.
    Send(MouseInput),
    /// Wait this many milliseconds.
    SleepMillis(u64),
    /// Move the cursor to this point, over the drag's moving time;
    /// a failure here ends the drag with that failure.
    MoveTo(i32, i32),
}

/// The steps of dragging to `(x, y)`: press the left button, wait 80 ms,
/// move, wait 50 ms, release the left button.
pub open spec fn drag_plan(x: i32, y: i32) -> Seq<DragAction> {
    seq![
        DragAction::Send(plain_input(MouseClick::LEFT.press_kind())),
        DragAction::SleepMillis(80),
        DragAction::MoveTo(x, y),
        DragAction::SleepMillis(50),
        DragAction::Send(plain_input(MouseClick::LEFT.release_kind())),
    ]
}

/// The mouse.
#[derive(Debug)]
pub struct Mouse {}

impl Mouse {
    pub fn new() -> (m: Mouse)
        ensures
            m == (Mouse {}),
    {
        Mouse {}
    }

    /// The event that `mouse_down` sends: the press of `button`.
    pub fn mouse_down(button: MouseClick) -> (input: MouseInput)
        ensures
            input == plain_input(button.press_kind()),
    {
        let kind = match button {
            MouseClick::LEFT => MouseEventKind::LeftDown,
            MouseClick::RIGHT => MouseEventKind::RightDown,
            MouseClick::MIDDLE => MouseEventKind::MiddleDown,
        };
        MouseInput { kind, mouse_data: 0 }
    }

    /// The event that `mouse_up` sends: the release of `button`.
    pub fn mouse_up(button: MouseClick) -> (input: MouseInput)
        ensures
            input == plain_input(button.release_kind()),
    {
        let kind = match button {
            MouseClick::LEFT => MouseEventKind::LeftUp,
            MouseClick::RIGHT => MouseEventKind::RightUp,
            MouseClick::MIDDLE => MouseEventKind::MiddleUp,
        };
        MouseInput { kind, mouse_data: 0 }
    }

    /// The two events that a click sends, in one batch and in this order:
    /// the press of `button`, then its release.
    pub fn mouse_click(button: MouseClick) -> (inputs: (MouseInput, MouseInput))
        ensures
            inputs.0 == plain_input(button.press_kind()),
            inputs.1 == plain_input(button.release_kind()),
    {
        let (down, up) = match button {
            MouseClick::LEFT => (MouseEventKind::LeftDown, MouseEventKind::LeftUp),
            MouseClick::RIGHT => (MouseEventKind::RightDown, MouseEventKind::RightUp),
            MouseClick::MIDDLE => (MouseEventKind::MiddleDown, MouseEventKind::MiddleUp),
        };
        (MouseInput { kind: down, mouse_data: 0 }, MouseInput { kind: up, mouse_data: 0 })
    }

    /// The event that a scroll of `intensity` notches in `direction` sends.
    /// The amount is computed in 32-bit signed arithmetic, which must not
    /// overflow.
    pub fn scroll(direction: MouseScroll, intensity: u32) -> (input: MouseInput)
        requires
            scroll_amount_fits(direction, intensity),
        ensures
            input == scroll_input(direction, intensity),
    {
        let signed: i32 = intensity as i32;
        assert(intensity <= 0x7fff_ffff ==> signed == intensity) by (bit_vector)
            requires
                signed == intensity as i32,
        ;
        assert(intensity > 0x7fff_ffff ==> signed == intensity - 0x1_0000_0000) by (bit_vector)
            requires
                signed == intensity as i32,
        ;
        let (amount, kind): (i32, MouseEventKind) = match direction {
            MouseScroll::UP => (120 * signed, MouseEventKind::Wheel),
            MouseScroll::DOWN => (-120 * signed, MouseEventKind::Wheel),
            MouseScroll::LEFT => (-120 * signed, MouseEventKind::HorizontalWheel),
            MouseScroll::RIGHT => (120 * signed, MouseEventKind::HorizontalWheel),
        };
        let data: u32 = amount as u32;
        assert(amount >= 0 ==> data == amount) by (bit_vector)
            requires
                data == amount as u32,
        ;
        assert(amount < 0 ==> data == amount + 0x1_0000_0000) by (bit_vector)
            requires
                data == amount as u32,
        ;
        assert(amount == scroll_amount(direction, intensity));
        MouseInput { kind, mouse_data: data }
    }

    /// Whether the wheel amount of a scroll fits in a 32-bit signed integer,
    /// which `scroll` needs.
    pub fn scroll_amount_fits(direction: MouseScroll, intensity: u32) -> (fits: bool)
        ensures
            fits == scroll_amount_fits(direction, intensity),
    {
        let signed: i64 = if intensity <= 0x7fff_ffff {
            intensity as i64
        } else {
            intensity as i64 - 0x1_0000_0000
        };
        let amount: i64 = match direction {
            MouseScroll::UP | MouseScroll::RIGHT => 120 * signed,
            MouseScroll::DOWN | MouseScroll::LEFT => -(120 * signed),
        };
        -0x8000_0000 <= amount && amount <= 0x7fff_ffff
    }

    /// The steps of a drag to `(x, y)` with the left button.
    pub fn drag_mouse(x: i32, y: i32) -> (actions: Vec<DragAction>)
        ensures
            actions@ == drag_plan(x, y),
    {
        let mut actions: Vec<DragAction> = Vec::new();
        actions.push(DragAction::Send(Mouse::mouse_down(MouseClick::LEFT)));
        actions.push(DragAction::SleepMillis(80));
        actions.push(DragAction::MoveTo(x, y));
        actions.push(DragAction::SleepMillis(50));
        actions.push(DragAction::Send(Mouse::mouse_up(MouseClick::LEFT)));
        actions
    }
}

/// No event presses one button and releases another, and no two buttons
/// share a press or a release event.
pub proof fn lemma_button_events_distinct(a: MouseClick, b: MouseClick)
    ensures
        a.press_kind() != b.release_kind(),
        a != b ==> a.press_kind() != b.press_kind() && a.release_kind() != b.release_kind(),
{
}

/// Scrolling up and scrolling down by the same intensity turn the same
/// wheel by opposite amounts: their data words add up to zero modulo 2^32.
/// The same holds of scrolling left and right.
pub proof fn lemma_scroll_opposites(intensity: u32)
    requires
        scroll_amount_fits(MouseScroll::UP, intensity),
    ensures
        scroll_amount_fits(MouseScroll::DOWN, intensity),
        scroll_amount_fits(MouseScroll::LEFT, intensity),
        scroll_amount_fits(MouseScroll::RIGHT, intensity),
        scroll_input(MouseScroll::UP, intensity).kind == scroll_input(MouseScroll::DOWN, intensity).kind,
        (scroll_input(MouseScroll::UP, intensity).mouse_data + scroll_input(
            MouseScroll::DOWN,
            intensity,
        ).mouse_data) % 0x1_0000_0000 == 0,
        scroll_input(MouseScroll::LEFT, intensity).kind == scroll_input(MouseScroll::RIGHT, intensity).kind,
        (scroll_input(MouseScroll::LEFT, intensity).mouse_data + scroll_input(
            MouseScroll::RIGHT,
            intensity,
        ).mouse_data) % 0x1_0000_0000 == 0,
{
    let a = 120 * signed_intensity(intensity);
    assert(a != -0x8000_0000);
    let up = a % 0x1_0000_0000;
    let down = (-a) % 0x1_0000_0000;
    if a >= 0 {
        assert(up == a);
        assert(a == 0 ==> down == 0);
        assert(a > 0 ==> down == 0x1_0000_0000 - a);
    } else {
        assert(up == a + 0x1_0000_0000);
        assert(down == -a);
    }
}

/// Within the range where the intensity reads as itself, a scroll up turns
/// the vertical wheel by 120 per unit of intensity, and a scroll of
/// intensity zero sends a zero amount in every direction.
pub proof fn lemma_scroll_notches(direction: MouseScroll, intensity: u32)
    ensures
        intensity <= 17_895_697 ==> scroll_amount_fits(MouseScroll::UP, intensity) && scroll_input(
            MouseScroll::UP,
            intensity,
        ) == (MouseInput { kind: MouseEventKind::Wheel, mouse_data: (120 * intensity) as u32 }),
        intensity == 0 ==> scroll_amount_fits(direction, intensity) && scroll_input(
            direction,
            intensity,
        ).mouse_data == 0,
{
}

} // verus!

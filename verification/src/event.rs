//! Mouse input and cursor shapes of the retained GUI.
use vstd::prelude::*;

use crate::geom::Vec2i;

verus! {

/// Identifier for a mouse button.
#[derive(Copy, Clone, Debug, PartialEq, Eq, Structural)]
pub struct MouseButton(pub u8);

impl MouseButton {
    /// The left (primary) button.
    pub fn left() -> (r: MouseButton)
        ensures
            r.0 == 0,
    {
        MouseButton(0)
    }

    /// The right (secondary) button.
    pub fn right() -> (r: MouseButton)
        ensures
            r.0 == 1,
    {
        MouseButton(1)
    }

    /// The middle button.
    pub fn middle() -> (r: MouseButton)
        ensures
            r.0 == 2,
    {
        MouseButton(2)
    }
}

/// Kinds of mouse input handled by the GUI.
#[derive(Copy, Clone, Debug, PartialEq, Eq, Structural)]
pub enum MouseEventKind {
    /// The cursor entered this widget's pointed route.
    Enter,
    /// The cursor left this widget's pointed route.
    Leave,
    /// The cursor moved.
    Move,
    /// A mouse button was pressed.
    ButtonDown { button: MouseButton },
    /// A mouse button was released.
    ButtonUp { button: MouseButton },
    /// The mouse wheel moved.
    Wheel { delta: i32 },
}

impl MouseEventKind {
    /// The left button went down.
    pub open spec fn is_left_down(self) -> bool {
        self == MouseEventKind::ButtonDown { button: MouseButton(0) }
    }

    /// The left button went up.
    pub open spec fn is_left_up(self) -> bool {
        self == MouseEventKind::ButtonUp { button: MouseButton(0) }
    }

    /// Whether this is the left button going down.
    pub fn left_down(&self) -> (r: bool)
        ensures
            r == self.is_left_down(),
    {
        match self {
            MouseEventKind::ButtonDown { button } => button.0 == 0,
            _ => false,
        }
    }

    /// Whether this is the left button going up.
    pub fn left_up(&self) -> (r: bool)
        ensures
            r == self.is_left_up(),
    {
        match self {
            MouseEventKind::ButtonUp { button } => button.0 == 0,
            _ => false,
        }
    }
}

/// Mouse input delivered to the GUI scene.
#[derive(Copy, Clone, Debug, PartialEq, Eq, Structural)]
pub struct MouseEvent {
    /// The mouse action that occurred.
    pub kind: MouseEventKind,
    /// Cursor position in scene coordinates.
    pub pointer: Vec2i,
}

/// Raw input delivered to widgets in the GUI tree.
#[derive(Copy, Clone, Debug, PartialEq, Eq, Structural)]
pub enum InputEvent {
    Mouse(MouseEvent),
}

impl InputEvent {
    /// Returns the mouse payload when this input event is mouse-driven.
    pub fn mouse(&self) -> (r: Option<&MouseEvent>)
        ensures
            match *self {
                InputEvent::Mouse(m) => r == Some(&m),
            },
    {
        match self {
            InputEvent::Mouse(event) => Some(event),
        }
    }
}

/// Various cursor types.
#[derive(Copy, Clone, Debug, PartialEq, Eq, Structural)]
pub enum Cursor {
    /// Use the platform default cursor.
    Default,
    /// Indicates a clickable target.
    Pointer,
    /// Indicates a draggable target.
    Grab,
    /// Indicates an active drag operation.
    Grabbing,
    /// Indicates crosshair-style precision targeting.
    Crosshair,
    /// Indicates freeform movement.
    Move,
    /// Indicates horizontal resizing.
    ResizeHorizontal,
    /// Indicates vertical resizing.
    ResizeVertical,
    /// Indicates resizing along the northwest-southeast diagonal.
    ResizeNwse,
    /// Indicates resizing along the northeast-southwest diagonal.
    ResizeNesw,
}

} // verus!

//! The decisions of the terminal loop: which events reach a surface, whether
//! the terminal is big enough to take over, and whether the mouse was asked
//! for. Taking and giving back the terminal is the caller's.

use vstd::prelude::*;
use crate::keymap::KeyEvent;
use crate::text::{
    chars_of, decimal, lower_all, lower_chars, owned, push_decimal, push_str, same_chars, trim,
    trim_spec,
};

verus! {

/// The smallest terminal this surface will take over. Below it the plain
/// text report is the better answer.
pub const FLOOR_WIDTH: u16 = 100;

pub const FLOOR_HEIGHT: u16 = 30;

/// Whether the loop keeps going.
#[derive(Debug, Clone, Copy, PartialEq, Eq, Structural)]
pub enum Flow {
    Continue,
    Quit,
}

/// What a key report says happened to the key.
#[derive(Debug, Clone, Copy, PartialEq, Eq, Structural)]
pub enum KeyKind {
    Press,
    Repeat,
    Release,
}

/// What a mouse report says happened.
#[derive(Debug, Clone, Copy, PartialEq, Eq, Structural)]
pub enum MouseKind {
    Down,
    Up,
    Drag,
    Moved,
    ScrollDown,
    ScrollUp,
}

/// A mouse report: what happened and at which cell.
#[derive(Debug, Clone, Copy, PartialEq, Eq, Structural)]
pub struct MouseEvent {
    pub kind: MouseKind,
    pub column: u16,
    pub row: u16,
}

/// A terminal event as the terminal reports it.
#[derive(Debug, Clone, Copy, PartialEq, Eq, Structural)]
pub enum Event {
    Key(KeyEvent, KeyKind),
    Mouse(MouseEvent),
    Resize(u16, u16),
    /// Focus changes, pastes and anything else no surface reads.
    Other,
}

/// Something the loop wants the surface to know about.
#[derive(Debug, Clone, Copy, PartialEq, Eq, Structural)]
pub enum Input {
    Key(KeyEvent),
    Mouse(MouseEvent),
    Resize(u16, u16),
    /// Nothing happened, and the surface may repaint if it wants to.
    Tick,
}

pub open spec fn classify_spec(event: Event, mouse_enabled: bool) -> Option<Input> {
    match event {
        Event::Key(key, kind) => if kind == KeyKind::Press {
            Some(Input::Key(key))
        } else {
            None
        },
        Event::Resize(w, h) => Some(Input::Resize(w, h)),
        Event::Mouse(m) => if mouse_enabled {
            Some(Input::Mouse(m))
        } else {
            None
        },
        Event::Other => None,
    }
}

/// Turn a terminal event into something the surface cares about, or nothing.
/// Keys are filtered to presses, because terminals differ on whether they
/// also report releases and repeats.
pub fn classify(event: &Event, mouse_enabled: bool) -> (r: Option<Input>)
    ensures
        r == classify_spec(*event, mouse_enabled),
{
    match *event {
        Event::Key(key, kind) => if kind == KeyKind::Press {
            Some(Input::Key(key))
        } else {
            None
        },
        Event::Resize(w, h) => Some(Input::Resize(w, h)),
        Event::Mouse(m) => if mouse_enabled {
            Some(Input::Mouse(m))
        } else {
            None
        },
        Event::Other => None,
    }
}

pub open spec fn mouse_word(v: Seq<char>) -> bool {
    v == "1"@ || v == "true"@ || v == "yes"@
}

/// Whether the mouse was asked for, given the value of `SOLARXY_MOUSE`:
/// `1`, `true` or `yes` in any case and with any surrounding space.
pub fn mouse_requested(value: &Option<String>) -> (b: bool)
    ensures
        b == (value matches Some(v) && mouse_word(lower_all(trim_spec(v@)))),
{
    match value {
        Some(v) => {
            let folded = lower_chars(&trim(&chars_of(v.as_str())));
            same_chars(&folded, &chars_of("1")) || same_chars(&folded, &chars_of("true"))
                || same_chars(&folded, &chars_of("yes"))
        },
        None => false,
    }
}

pub open spec fn below_floor_spec(width: u16, height: u16, surface: Seq<char>, instead: Seq<char>) -> Option<Seq<char>> {
    if width < FLOOR_WIDTH || height < FLOOR_HEIGHT {
        Some(
            "This terminal is "@ + decimal(width as nat) + "x"@ + decimal(height as nat) + " and the "@
                + surface + " surface needs "@ + decimal(FLOOR_WIDTH as nat) + "x"@ + decimal(
                FLOOR_HEIGHT as nat,
            ) + ". "@ + instead,
        )
    } else {
        None
    }
}

/// The message for a terminal too small to take over, or `None` if it fits.
/// It names both the actual and the required size, which surface is refusing
/// and what happens instead.
pub fn below_floor(width: u16, height: u16, surface: &str, instead: &str) -> (r: Option<String>)
    ensures
        match (r, below_floor_spec(width, height, surface@, instead@)) {
            (Some(m), Some(w)) => m@ == w,
            (None, None) => true,
            _ => false,
        },
{
    if width < FLOOR_WIDTH || height < FLOOR_HEIGHT {
        let mut m = owned("This terminal is ");
        push_decimal(&mut m, width as u64);
        push_str(&mut m, "x");
        push_decimal(&mut m, height as u64);
        push_str(&mut m, " and the ");
        push_str(&mut m, surface);
        push_str(&mut m, " surface needs ");
        push_decimal(&mut m, FLOOR_WIDTH as u64);
        push_str(&mut m, "x");
        push_decimal(&mut m, FLOOR_HEIGHT as u64);
        push_str(&mut m, ". ");
        push_str(&mut m, instead);
        Some(m)
    } else {
        None
    }
}

/// Which stream a surface paints on.
#[derive(Debug, Clone, Copy, PartialEq, Eq, Structural)]
pub enum Stream {
    Stdout,
    Stderr,
}

impl Stream {
    pub open spec fn name_spec(self) -> Seq<char> {
        match self {
            Stream::Stdout => "standard output"@,
            Stream::Stderr => "standard error"@,
        }
    }

    /// How the stream is named to a person.
    pub fn name(self) -> (r: &'static str)
        ensures
            r@ == self.name_spec(),
    {
        match self {
            Stream::Stdout => "standard output",
            Stream::Stderr => "standard error",
        }
    }
}

/// A terminal is refused exactly when either dimension alone is below the
/// floor.
pub proof fn law_floor_is_either_dimension(width: u16, height: u16, surface: Seq<char>, instead: Seq<char>)
    ensures
        below_floor_spec(width, height, surface, instead) is Some <==> (width < FLOOR_WIDTH || height
            < FLOOR_HEIGHT),
{
}

} // verus!

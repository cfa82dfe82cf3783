use crate::camera::Input;
use vstd::prelude::*;

verus! {

/// The keys that turn the light, each by its code.
#[derive(Clone, Copy, Debug, PartialEq, Eq, Structural)]
pub struct ArrowKeys {
    pub left: u32,
    pub right: u32,
    pub up: u32,
    pub down: u32,
}

/// How far the light is nudged, in half units: `l` is added to its second
/// coordinate and `u` to its first.
#[derive(Clone, Copy, Debug, PartialEq, Eq, Structural)]
pub struct Nudge {
    pub l: i32,
    pub u: i32,
}

/// The nudge that a report of the window gives the light: a key that goes
/// down turns it by half a unit, left or right in `u`, up or down in `l`; any
/// other report leaves it alone. Where two arrows share a code, the first of
/// left, right, up, down counts.
pub open spec fn nudge_of(e: Input, keys: ArrowKeys) -> Option<Nudge> {
    match e {
        Input::KeyPressed(key) => if key == keys.left {
            Some(Nudge { l: 0, u: -1i32 })
        } else if key == keys.right {
            Some(Nudge { l: 0, u: 1 })
        } else if key == keys.up {
            Some(Nudge { l: 1, u: 0 })
        } else if key == keys.down {
            Some(Nudge { l: -1i32, u: 0 })
        } else {
            None
        },
        _ => None,
    }
}

/// The nudge that a report of the window gives the light, if any.
pub fn process_input(e: Input, keys: &ArrowKeys) -> (r: Option<Nudge>)
    ensures
        r == nudge_of(e, *keys),
{
    match e {
        Input::KeyPressed(key) => {
            if key == keys.left {
                Some(Nudge { l: 0, u: -1 })
            } else if key == keys.right {
                Some(Nudge { l: 0, u: 1 })
            } else if key == keys.up {
                Some(Nudge { l: 1, u: 0 })
            } else if key == keys.down {
                Some(Nudge { l: -1, u: 0 })
            } else {
                None
            }
        },
        _ => None,
    }
}

} // verus!

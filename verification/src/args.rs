//! The command-line settings and what they switch on.
use vstd::prelude::*;

verus! {

/// General and exploit fixes for UWP Roblox.
#[derive(Clone, Copy, Debug)]
pub struct Args {
    /// Disable the websocket server.
    pub disable_ws: bool,
    /// The port the websocket server is attached to.
    pub port: u16,
    /// The shift lock key to use. Provide the key id.
    pub shift_lock_key: u64,
    /// Disables clipping the mouse to the window during right click.
    pub disable_clip_mouse: bool,
    /// Disables clipping the mouse to the window during shift lock.
    pub disable_clip_shift: bool,
    /// Disables the mouse teleport fix.
    pub disable_mouse_tp: bool,
    /// Disables the teleport crash fix.
    pub disable_tp_crash: bool,
    /// Supresses all output messages.
    pub silent: bool,
}

/// The default port of the websocket server.
pub const DEFAULT_PORT: u16 = 8080;

/// The default shift lock key (left shift).
pub const DEFAULT_SHIFT_LOCK_KEY: u64 = 0xA0;

impl Default for Args {
    /// The settings when no option is given: port 8080, shift lock key 160,
    /// every fix and the server on, output on.
    fn default() -> (a: Self)
        ensures
            !a.disable_ws,
            a.port == 8080,
            a.shift_lock_key == 160,
            !a.disable_clip_mouse,
            !a.disable_clip_shift,
            !a.disable_mouse_tp,
            !a.disable_tp_crash,
            !a.silent,
    {
        Args {
            disable_ws: false,
            port: DEFAULT_PORT,
            shift_lock_key: DEFAULT_SHIFT_LOCK_KEY,
            disable_clip_mouse: false,
            disable_clip_shift: false,
            disable_mouse_tp: false,
            disable_tp_crash: false,
            silent: false,
        }
    }
}

/// Which UWP fixes run, and how.
#[derive(Clone, Copy, Debug, PartialEq, Eq)]
pub struct UwpPlan {
    /// The right click teleport fix, if on: whether it also clips the mouse
    /// to the window while the button is held.
    pub right_click: Option<bool>,
    /// The shift lock fix, if on: the key it binds.
    pub shift_lock: Option<u64>,
    /// Whether the duplicate instance checker runs.
    pub duplicate_checker: bool,
}

impl Args {
    /// The port to run the websocket server on, if it runs.
    pub fn ws_port(&self) -> (p: Option<u16>)
        ensures
            p == if self.disable_ws {
                None
            } else {
                Some(self.port)
            },
    {
        if !self.disable_ws {
            Some(self.port)
        } else {
            None
        }
    }

    /// The fixes that start with these settings.
    pub fn uwp_plan(&self) -> (p: UwpPlan)
        ensures
            p.right_click == if self.disable_mouse_tp {
                None
            } else {
                Some(!self.disable_clip_mouse)
            },
            p.shift_lock == if self.disable_clip_shift {
                None
            } else {
                Some(self.shift_lock_key)
            },
            p.duplicate_checker == !self.disable_tp_crash,
    {
        UwpPlan {
            right_click: if !self.disable_mouse_tp {
                Some(!self.disable_clip_mouse)
            } else {
                None
            },
            shift_lock: if !self.disable_clip_shift {
                Some(self.shift_lock_key)
            } else {
                None
            },
            duplicate_checker: !self.disable_tp_crash,
        }
    }
}

} // verus!

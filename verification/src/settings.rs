//! Settings the front end changes at run time: the size and dwell of the top
//! trigger, the global shortcut, the volume, and how the hot corner reads the
//! window mode.
use vstd::prelude::*;
use crate::hot_corner::CornerMode;
use crate::window::{mode_name, panel_size, spec_mode_plan, ModePlan, WindowMode};
use crate::text::{str_equals, string_of};

verus! {

broadcast use vstd::string::group_string_axioms;

/// Narrowest trigger strip, in logical pixels.
pub const TRIGGER_WIDTH_MIN: u32 = 160;

/// Widest trigger strip, in logical pixels.
pub const TRIGGER_WIDTH_MAX: u32 = 800;

/// Shortest dwell, in milliseconds.
pub const DWELL_MS_MIN: u32 = 100;

/// Longest dwell, in milliseconds.
pub const DWELL_MS_MAX: u32 = 1000;

/// `v` clamped to `[lo, hi]` (`u32::clamp`).
pub open spec fn clamp_u32(v: u32, lo: u32, hi: u32) -> u32 {
    if v < lo {
        lo
    } else if v > hi {
        hi
    } else {
        v
    }
}

/// The trigger width the panel starts with, in logical pixels.
pub const DEFAULT_TRIGGER_WIDTH: u32 = 360;

/// The dwell time the panel starts with, in milliseconds.
pub const DEFAULT_DWELL_MS: u32 = 250;

/// The starting settings are within range, so applying them keeps them.
pub proof fn default_settings_in_range()
    ensures
        clamp_u32(DEFAULT_TRIGGER_WIDTH, TRIGGER_WIDTH_MIN, TRIGGER_WIDTH_MAX) == DEFAULT_TRIGGER_WIDTH,
        clamp_u32(DEFAULT_DWELL_MS, DWELL_MS_MIN, DWELL_MS_MAX) == DEFAULT_DWELL_MS,
{
}

/// The trigger width and dwell time actually used for the requested ones:
/// the width clamped to 160..=800 and the dwell to 100..=1000.
pub fn top_trigger_settings(width: u32, dwell_ms: u32) -> (r: (u32, u32))
    ensures
        r.0 == clamp_u32(width, TRIGGER_WIDTH_MIN, TRIGGER_WIDTH_MAX),
        r.1 == clamp_u32(dwell_ms, DWELL_MS_MIN, DWELL_MS_MAX),
        TRIGGER_WIDTH_MIN <= r.0 <= TRIGGER_WIDTH_MAX,
        DWELL_MS_MIN <= r.1 <= DWELL_MS_MAX,
{
    let w = if width < TRIGGER_WIDTH_MIN {
        TRIGGER_WIDTH_MIN
    } else if width > TRIGGER_WIDTH_MAX {
        TRIGGER_WIDTH_MAX
    } else {
        width
    };
    let d = if dwell_ms < DWELL_MS_MIN {
        DWELL_MS_MIN
    } else if dwell_ms > DWELL_MS_MAX {
        DWELL_MS_MAX
    } else {
        dwell_ms
    };
    (w, d)
}

/// Applying the settings a second time changes nothing, and settings already
/// in range are kept as they are.
pub proof fn trigger_settings_idempotent(width: u32, dwell_ms: u32)
    ensures
        clamp_u32(clamp_u32(width, TRIGGER_WIDTH_MIN, TRIGGER_WIDTH_MAX), TRIGGER_WIDTH_MIN, TRIGGER_WIDTH_MAX)
            == clamp_u32(width, TRIGGER_WIDTH_MIN, TRIGGER_WIDTH_MAX),
        clamp_u32(clamp_u32(dwell_ms, DWELL_MS_MIN, DWELL_MS_MAX), DWELL_MS_MIN, DWELL_MS_MAX)
            == clamp_u32(dwell_ms, DWELL_MS_MIN, DWELL_MS_MAX),
        TRIGGER_WIDTH_MIN <= width <= TRIGGER_WIDTH_MAX ==> clamp_u32(width, TRIGGER_WIDTH_MIN, TRIGGER_WIDTH_MAX) == width,
        DWELL_MS_MIN <= dwell_ms <= DWELL_MS_MAX ==> clamp_u32(dwell_ms, DWELL_MS_MIN, DWELL_MS_MAX) == dwell_ms,
{
}

/// What turning the global shortcut on or off takes.
#[derive(Clone, Copy, Debug, PartialEq, Eq)]
pub enum ShortcutPlan {
    /// The shortcut already is as requested.
    Unchanged,
    Register,
    Unregister,
}

/// Nothing to do when the shortcut already is as requested; otherwise
/// register it to enable it and unregister it to disable it.
pub fn shortcut_plan(current: bool, enabled: bool) -> (p: ShortcutPlan)
    ensures
        current == enabled ==> p == ShortcutPlan::Unchanged,
        current != enabled && enabled ==> p == ShortcutPlan::Register,
        current != enabled && !enabled ==> p == ShortcutPlan::Unregister,
{
    if current == enabled {
        ShortcutPlan::Unchanged
    } else if enabled {
        ShortcutPlan::Register
    } else {
        ShortcutPlan::Unregister
    }
}

/// The message for a failed step of changing the shortcut: parsing it (with
/// no plan yet), registering or unregistering it; `detail` is the failure's
/// own description.
pub open spec fn spec_shortcut_failure(plan: Option<ShortcutPlan>, detail: Seq<char>) -> Seq<char> {
    match plan {
        Some(ShortcutPlan::Register) => "Alt+D 注册失败（可能已被其他程序占用）："@ + detail,
        Some(ShortcutPlan::Unregister) => "Alt+D 注销失败："@ + detail,
        _ => "快捷键格式错误："@ + detail,
    }
}

pub fn shortcut_failure(plan: Option<ShortcutPlan>, detail: &str) -> (s: String)
    ensures
        s@ == spec_shortcut_failure(plan, detail@),
{
    let mut s = match plan {
        Some(ShortcutPlan::Register) => string_of("Alt+D 注册失败（可能已被其他程序占用）："),
        Some(ShortcutPlan::Unregister) => string_of("Alt+D 注销失败："),
        _ => string_of("快捷键格式错误："),
    };
    s.append(detail);
    s
}

/// The loudest volume, in percent.
pub const VOLUME_MAX: u32 = 100;

/// The volume, in percent, that a requested volume is set to: at most 100.
pub fn volume_percent(volume: u32) -> (r: u32)
    ensures
        r == (if volume < VOLUME_MAX {
            volume
        } else {
            VOLUME_MAX
        }),
{
    if volume < VOLUME_MAX {
        volume
    } else {
        VOLUME_MAX
    }
}

/// How the hot corner reads a window mode name: `hidden`, `peek`, or any other.
pub open spec fn spec_corner_mode(mode: Seq<char>) -> CornerMode {
    if mode == "hidden"@ {
        CornerMode::Hidden
    } else if mode == "peek"@ {
        CornerMode::Peek
    } else {
        CornerMode::Other
    }
}

pub fn corner_mode(mode: &str) -> (m: CornerMode)
    ensures
        m == spec_corner_mode(mode@),
{
    if str_equals(mode, "hidden") {
        CornerMode::Hidden
    } else if str_equals(mode, "peek") {
        CornerMode::Peek
    } else {
        CornerMode::Other
    }
}

/// The hot corner and the window agree on modes: the reveal it requests is a
/// mode the window accepts, which docks the full panel for peeking, and the
/// window's names for peeking and hiding read back as the hot corner's modes.
pub proof fn reveal_request_is_accepted()
    ensures
        spec_mode_plan(mode_name(WindowMode::Peek)) == Ok::<ModePlan, Seq<char>>(ModePlan::Peek(panel_size())),
        spec_corner_mode(mode_name(WindowMode::Peek)) == CornerMode::Peek,
        spec_corner_mode(mode_name(WindowMode::Hidden)) == CornerMode::Hidden,
        spec_corner_mode(mode_name(WindowMode::Panel)) == CornerMode::Other,
{
    reveal_strlit("panel");
    reveal_strlit("capsule");
    reveal_strlit("peek");
    reveal_strlit("hidden");
    assert("peek"@.len() != "panel"@.len());
    assert("peek"@.len() != "capsule"@.len());
    assert("peek"@.len() != "hidden"@.len());
    assert("hidden"@.len() != "panel"@.len());
}

} // verus!

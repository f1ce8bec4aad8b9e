//! Window modes, monitor lookup, remembered per-monitor placements and the
//! integer docking geometry of the panel.
use vstd::prelude::*;
use crate::hot_corner::Point;
use crate::text::{chars_of, push_char, push_signed_decimal, signed_decimal, str_equals, string_of};

verus! {

// ---------------------------------------------------------------------------
// Modes
// ---------------------------------------------------------------------------

/// The modes the main window can be put in.
#[derive(Clone, Copy, Debug, PartialEq, Eq)]
pub enum WindowMode {
    Panel,
    Capsule,
    /// Raised above the top edge so that only the panel's bottom strip shows.
    Peek,
    Hidden,
}

/// The name of a mode, as stored and sent to the front end.
pub open spec fn mode_name(m: WindowMode) -> Seq<char> {
    match m {
        WindowMode::Panel => "panel"@,
        WindowMode::Capsule => "capsule"@,
        WindowMode::Peek => "peek"@,
        WindowMode::Hidden => "hidden"@,
    }
}

/// The mode a name stands for, if any.
pub open spec fn mode_of_name(s: Seq<char>) -> Option<WindowMode> {
    if s == "panel"@ {
        Some(WindowMode::Panel)
    } else if s == "capsule"@ {
        Some(WindowMode::Capsule)
    } else if s == "peek"@ {
        Some(WindowMode::Peek)
    } else if s == "hidden"@ {
        Some(WindowMode::Hidden)
    } else {
        None
    }
}

pub fn parse_window_mode(s: &str) -> (m: Option<WindowMode>)
    ensures
        m == mode_of_name(s@),
{
    if str_equals(s, "panel") {
        Some(WindowMode::Panel)
    } else if str_equals(s, "capsule") {
        Some(WindowMode::Capsule)
    } else if str_equals(s, "peek") {
        Some(WindowMode::Peek)
    } else if str_equals(s, "hidden") {
        Some(WindowMode::Hidden)
    } else {
        None
    }
}

pub fn window_mode_name(m: WindowMode) -> (s: String)
    ensures
        s@ == mode_name(m),
{
    match m {
        WindowMode::Panel => string_of("panel"),
        WindowMode::Capsule => string_of("capsule"),
        WindowMode::Peek => string_of("peek"),
        WindowMode::Hidden => string_of("hidden"),
    }
}

/// The mode that toggling switches to: the panel hides, anything else shows the panel.
pub open spec fn toggled(current: Seq<char>) -> WindowMode {
    if current == "panel"@ {
        WindowMode::Hidden
    } else {
        WindowMode::Panel
    }
}

/// The mode the tray icon, the menu and the global shortcut switch to.
pub fn toggle_target(current: &str) -> (m: WindowMode)
    ensures
        m == toggled(current@),
{
    if str_equals(current, "panel") {
        WindowMode::Hidden
    } else {
        WindowMode::Panel
    }
}

/// A drag of the window starts only in panel mode and when no drag is running.
pub fn drag_should_start(mode: &str, dragging: bool) -> (b: bool)
    ensures
        b == (mode@ == "panel"@ && !dragging),
{
    str_equals(mode, "panel") && !dragging
}

/// Expanding or collapsing the to-do list under the capsule acts only in capsule mode.
pub fn capsule_resize_applies(mode: &str) -> (b: bool)
    ensures
        b == (mode@ == "capsule"@),
{
    str_equals(mode, "capsule")
}

/// A size in logical pixels.
#[derive(Clone, Copy, Debug, PartialEq, Eq)]
pub struct LogicalSize {
    pub width: u32,
    pub height: u32,
}

/// Logical size of the full panel.
pub open spec fn panel_size() -> LogicalSize {
    LogicalSize { width: 320, height: 520 }
}

/// Logical size of the capsule.
pub open spec fn capsule_size() -> LogicalSize {
    LogicalSize { width: 220, height: 40 }
}

/// What putting the window in a mode takes.
#[derive(Clone, Copy, Debug, PartialEq, Eq)]
pub enum ModePlan {
    /// Dock the window at this logical size, then show it on top.
    Show(LogicalSize),
    /// Dock the window at this logical size raised above the top edge of
    /// the monitor so that only its bottom strip shows, then show it on top.
    Peek(LogicalSize),
    /// Hide the window.
    Hide,
}

/// The plan for a requested mode name, or the error for an unknown one.
pub open spec fn spec_mode_plan(mode: Seq<char>) -> Result<ModePlan, Seq<char>> {
    match mode_of_name(mode) {
        Some(WindowMode::Panel) => Ok(ModePlan::Show(panel_size())),
        Some(WindowMode::Capsule) => Ok(ModePlan::Show(capsule_size())),
        Some(WindowMode::Peek) => Ok(ModePlan::Peek(panel_size())),
        Some(WindowMode::Hidden) => Ok(ModePlan::Hide),
        None => Err("unknown mode: "@ + mode),
    }
}

/// Decides what `apply_mode` does for a requested mode name.
pub fn mode_plan(mode: &str) -> (r: Result<ModePlan, String>)
    ensures
        match r {
            Ok(p) => spec_mode_plan(mode@) == Ok::<ModePlan, Seq<char>>(p),
            Err(e) => spec_mode_plan(mode@) == Err::<ModePlan, Seq<char>>(e@),
        },
{
    match parse_window_mode(mode) {
        Some(WindowMode::Panel) => Ok(ModePlan::Show(LogicalSize { width: 320, height: 520 })),
        Some(WindowMode::Capsule) => Ok(ModePlan::Show(LogicalSize { width: 220, height: 40 })),
        Some(WindowMode::Peek) => Ok(ModePlan::Peek(LogicalSize { width: 320, height: 520 })),
        Some(WindowMode::Hidden) => Ok(ModePlan::Hide),
        None => {
            let mut e = string_of("unknown mode: ");
            e.append(mode);
            Err(e)
        },
    }
}

/// Toggling twice from the panel comes back to the panel, and from any other
/// mode the first toggle shows the panel.
pub proof fn toggle_round_trip(current: Seq<char>)
    ensures
        current == "panel"@ ==> toggled(mode_name(toggled(current))) == WindowMode::Panel,
        current != "panel"@ ==> toggled(current) == WindowMode::Panel,
        toggled(mode_name(WindowMode::Panel)) == WindowMode::Hidden,
{
    reveal_strlit("panel");
    reveal_strlit("hidden");
    assert("hidden"@.len() != "panel"@.len());
}

/// Every mode name parses back to its mode, and every accepted name has a plan.
pub proof fn mode_names_round_trip(m: WindowMode)
    ensures
        mode_of_name(mode_name(m)) == Some(m),
        spec_mode_plan(mode_name(m)) is Ok,
{
    reveal_strlit("panel");
    reveal_strlit("capsule");
    reveal_strlit("peek");
    reveal_strlit("hidden");
    assert("hidden"@.len() != "panel"@.len());
    assert("capsule"@.len() != "panel"@.len());
    assert("capsule"@.len() != "hidden"@.len());
    assert("peek"@.len() != "panel"@.len());
    assert("peek"@.len() != "capsule"@.len());
    assert("peek"@.len() != "hidden"@.len());
}

// ---------------------------------------------------------------------------
// Monitors
// ---------------------------------------------------------------------------

/// A rectangle of the virtual desktop in physical pixels: a monitor or its work area.
#[derive(Clone, Copy, Debug, PartialEq, Eq)]
pub struct MonitorRect {
    pub x: i32,
    pub y: i32,
    pub width: u32,
    pub height: u32,
}

/// The rectangle's far edges stay inside `i32`.
pub open spec fn rect_fits(r: MonitorRect) -> bool {
    &&& r.width <= i32::MAX
    &&& r.height <= i32::MAX
    &&& r.x + r.width <= i32::MAX
    &&& r.y + r.height <= i32::MAX
}

/// `p` lies in the half-open rectangle `r`.
pub open spec fn rect_contains(r: MonitorRect, p: Point) -> bool {
    &&& r.x <= p.x < r.x + r.width
    &&& r.y <= p.y < r.y + r.height
}

fn contains_point(r: MonitorRect, p: Point) -> (b: bool)
    requires
        rect_fits(r),
    ensures
        b == rect_contains(r, p),
{
    p.x >= r.x && p.x < r.x + r.width as i32 && p.y >= r.y && p.y < r.y + r.height as i32
}

/// The index of the first monitor that contains `point`, if any.
pub fn monitor_at_point(monitors: &Vec<MonitorRect>, point: Point) -> (r: Option<usize>)
    requires
        forall|i: int| 0 <= i < monitors.len() ==> rect_fits(#[trigger] monitors@[i]),
    ensures
        match r {
            Some(i) => i < monitors.len() && rect_contains(monitors@[i as int], point) && forall|k: int|
                0 <= k < i ==> !rect_contains(#[trigger] monitors@[k], point),
            None => forall|k: int|
                0 <= k < monitors.len() ==> !rect_contains(#[trigger] monitors@[k], point),
        },
{
    for i in 0..monitors.len()
        invariant
            forall|k: int| 0 <= k < monitors.len() ==> rect_fits(#[trigger] monitors@[k]),
            forall|k: int| 0 <= k < i ==> !rect_contains(#[trigger] monitors@[k], point),
    {
        if contains_point(monitors[i], point) {
            return Some(i);
        }
    }
    None
}

/// The key under which a monitor's placement is remembered: its name, or
/// `x:y:widthxheight` of its position and size when it has none.
pub open spec fn spec_monitor_key(name: Option<Seq<char>>, r: MonitorRect) -> Seq<char> {
    match name {
        Some(n) => n,
        None => signed_decimal(r.x as int) + seq![':'] + signed_decimal(r.y as int) + seq![':']
            + signed_decimal(r.width as int) + seq!['x'] + signed_decimal(r.height as int),
    }
}

pub fn monitor_key(name: Option<&str>, r: MonitorRect) -> (k: String)
    ensures
        k@ == spec_monitor_key(
            match name {
                Some(n) => Some(n@),
                None => None,
            },
            r,
        ),
{
    match name {
        Some(n) => string_of(n),
        None => {
            let mut k = String::new();
            push_signed_decimal(&mut k, r.x as i64);
            push_char(&mut k, ':');
            push_signed_decimal(&mut k, r.y as i64);
            push_char(&mut k, ':');
            push_signed_decimal(&mut k, r.width as i64);
            push_char(&mut k, 'x');
            push_signed_decimal(&mut k, r.height as i64);
            k
        },
    }
}

} // verus!

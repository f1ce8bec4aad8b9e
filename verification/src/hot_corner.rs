//! Top-edge hot corner: hit testing of the cursor against the trigger strip
//! and the visible panel edge, and the dwell / leave timers that decide when
//! the panel is revealed or hidden again.
use vstd::prelude::*;

verus! {

/// A point in physical screen pixels.
#[derive(Clone, Copy, Debug)]
pub struct Point {
    pub x: i32,
    pub y: i32,
}

/// Height in pixels of the trigger strip along the top of a monitor.
pub const TOP_ZONE_HEIGHT: i32 = 8;

/// Polling period of the cursor watcher, in nanoseconds (40 ms).
pub const POLL_INTERVAL_NS: u64 = 40_000_000;

/// Time the cursor must stay away from the peeking panel before it hides, in nanoseconds (420 ms).
pub const PEEK_LEAVE_DELAY_NS: u64 = 420_000_000;

/// Minimum spacing between two reveal attempts, in nanoseconds (180 ms).
pub const RETRY_INTERVAL_NS: u64 = 180_000_000;

/// The cursor lies in the strip `[zone_left, zone_right) x [top, top + 8)`.
pub open spec fn in_top_zone(pt: Point, top: int, zone_left: int, zone_right: int) -> bool {
    &&& zone_left <= pt.x < zone_right
    &&& top <= pt.y < top + TOP_ZONE_HEIGHT
}

/// Whether `pt` lies in the top trigger strip of a monitor whose top edge is `top`.
pub fn point_in_top_zone(pt: Point, top: i32, zone_left: i32, zone_right: i32) -> (b: bool)
    requires
        top + TOP_ZONE_HEIGHT <= i32::MAX,
    ensures
        b == in_top_zone(pt, top as int, zone_left as int, zone_right as int),
{
    pt.x >= zone_left && pt.x < zone_right && pt.y >= top && pt.y < top + TOP_ZONE_HEIGHT
}

/// The cursor lies on the visible strip of the peeking panel:
/// `[left, left + width) x [top, top + max(height, 1))`.
pub open spec fn in_peek_surface(pt: Point, top: int, left: int, width: int, height: int) -> bool {
    let h = if height < 1 { 1 } else { height };
    &&& left <= pt.x < left + width
    &&& top <= pt.y < top + h
}

/// Whether `pt` lies on the visible part of the peeking panel.
pub fn point_in_peek_surface(pt: Point, top: i32, left: i32, width: u32, height: i32) -> (b: bool)
    requires
        width <= i32::MAX,
        left + width <= i32::MAX,
        top + height <= i32::MAX,
        top < i32::MAX,
    ensures
        b == in_peek_surface(pt, top as int, left as int, width as int, height as int),
{
    let h = if height < 1 {
        1
    } else {
        height
    };
    pt.x >= left && pt.x < left + width as i32 && pt.y >= top && pt.y < top + h
}

/// Where the cursor is with respect to the hot corner.
#[derive(Clone, Copy, Debug)]
pub struct CursorHit {
    pub top_zone: bool,
    pub peek_surface: bool,
}

/// What the hit test needs to know of the monitor under the cursor and of the
/// panel docked on it, in physical pixels.
#[derive(Clone, Copy, Debug)]
pub struct HitGeometry {
    /// Top edge of the monitor.
    pub monitor_top: i32,
    /// Left edge of the docked panel.
    pub panel_x: i32,
    /// Width of the docked panel.
    pub panel_width: u32,
    /// Height of the strip of the panel that shows while peeking (at least 1).
    pub peek_height: i32,
    /// Width of the trigger strip (at least 1).
    pub zone_width: i32,
}

/// The geometry keeps every coordinate the hit test computes inside `i32`.
pub open spec fn hit_geometry_fits(g: HitGeometry) -> bool {
    &&& g.panel_width <= i32::MAX
    &&& g.zone_width >= 1
    &&& g.peek_height >= 1
    &&& i32::MIN <= g.panel_x + g.panel_width / 2 - g.zone_width / 2
    &&& g.panel_x + g.panel_width / 2 - g.zone_width / 2 + g.zone_width <= i32::MAX
    &&& g.panel_x + g.panel_width <= i32::MAX
    &&& g.monitor_top + g.peek_height <= i32::MAX
    &&& g.monitor_top + TOP_ZONE_HEIGHT <= i32::MAX
}

/// Left edge of the trigger strip: centred on the panel.
pub open spec fn zone_left(g: HitGeometry) -> int {
    g.panel_x + g.panel_width / 2 - g.zone_width / 2
}

/// The hit test: nothing is hit without a monitor under the cursor or while
/// the panel is being dragged; otherwise the trigger strip is centred on the
/// panel and the peek surface is the top strip of the panel.
pub open spec fn spec_cursor_hit(pt: Point, geometry: Option<HitGeometry>, dragging: bool) -> CursorHit {
    match geometry {
        Some(g) if !dragging => CursorHit {
            top_zone: in_top_zone(pt, g.monitor_top as int, zone_left(g), zone_left(g) + g.zone_width),
            peek_surface: in_peek_surface(
                pt,
                g.monitor_top as int,
                g.panel_x as int,
                g.panel_width as int,
                g.peek_height as int,
            ),
        },
        _ => CursorHit { top_zone: false, peek_surface: false },
    }
}

/// Tests the cursor against the trigger strip and the peek surface.
pub fn cursor_hit(pt: Point, geometry: Option<HitGeometry>, dragging: bool) -> (hit: CursorHit)
    requires
        geometry matches Some(g) ==> hit_geometry_fits(g),
    ensures
        hit == spec_cursor_hit(pt, geometry, dragging),
{
    match geometry {
        Some(g) if !dragging => {
            let center = g.panel_x + (g.panel_width / 2) as i32;
            let left = center - g.zone_width / 2;
            CursorHit {
                top_zone: point_in_top_zone(pt, g.monitor_top, left, left + g.zone_width),
                peek_surface: point_in_peek_surface(
                    pt,
                    g.monitor_top,
                    g.panel_x,
                    g.panel_width,
                    g.peek_height,
                ),
            }
        },
        _ => CursorHit { top_zone: false, peek_surface: false },
    }
}

// ---------------------------------------------------------------------------
// Dwell and leave timers
// ---------------------------------------------------------------------------

/// The window mode as the hot corner sees it.
#[derive(Clone, Copy, Debug, PartialEq, Eq)]
pub enum CornerMode {
    Hidden,
    Peek,
    Other,
}

/// The mode the hot corner asks the window to take.
#[derive(Clone, Copy, Debug, PartialEq, Eq)]
pub enum CornerRequest {
    Peek,
    Hidden,
}

/// The timers of the hot corner, as instants in nanoseconds of a monotonic clock.
#[derive(Clone, Copy, Debug)]
pub struct CornerTimers {
    /// When the cursor entered the trigger strip while the panel was hidden.
    pub dwell_started: Option<u64>,
    /// When the cursor left the peeking panel.
    pub leave_started: Option<u64>,
    /// When the last reveal was attempted without success.
    pub last_attempt: Option<u64>,
}

/// All timers cleared: the state the watcher starts in.
pub open spec fn idle_timers() -> CornerTimers {
    CornerTimers { dwell_started: None, leave_started: None, last_attempt: None }
}

pub fn corner_timers_new() -> (t: CornerTimers)
    ensures
        t == idle_timers(),
{
    CornerTimers { dwell_started: None, leave_started: None, last_attempt: None }
}

/// `Instant::duration_since`, which saturates at zero.
pub open spec fn elapsed(now: u64, since: u64) -> int {
    if now >= since {
        now - since
    } else {
        0
    }
}

/// One poll of the watcher: given the timers, the current window mode, the
/// cursor hit, the current instant and the configured dwell time (in
/// milliseconds), the timers afterwards and the mode to request, if any.
///
/// - Hidden: leaving the strip clears the dwell; inside the strip the dwell
///   starts (if it had not), and once it has lasted `dwell_ms` and the last
///   failed attempt is at least 180 ms old, a reveal is requested and the
///   attempt recorded.
/// - Peek: hovering the strip or the panel clears the leave timer; otherwise
///   the leave timer starts, and once it has lasted 420 ms hiding is requested.
/// - Any other mode clears every timer.
pub open spec fn corner_next(
    t: CornerTimers,
    mode: CornerMode,
    hit: CursorHit,
    now: u64,
    dwell_ms: u32,
) -> (CornerTimers, Option<CornerRequest>) {
    match mode {
        CornerMode::Hidden => {
            if !hit.top_zone {
                (idle_timers(), None)
            } else {
                let started = match t.dwell_started {
                    Some(s) => s,
                    None => now,
                };
                let retry_ready = match t.last_attempt {
                    Some(a) => elapsed(now, a) >= RETRY_INTERVAL_NS,
                    None => true,
                };
                if elapsed(now, started) >= dwell_ms * 1_000_000 && retry_ready {
                    (
                        CornerTimers {
                            dwell_started: Some(started),
                            leave_started: None,
                            last_attempt: Some(now),
                        },
                        Some(CornerRequest::Peek),
                    )
                } else {
                    (
                        CornerTimers {
                            dwell_started: Some(started),
                            leave_started: None,
                            last_attempt: t.last_attempt,
                        },
                        None,
                    )
                }
            }
        },
        CornerMode::Peek => {
            if hit.top_zone || hit.peek_surface {
                (idle_timers(), None)
            } else {
                let left_at = match t.leave_started {
                    Some(s) => s,
                    None => now,
                };
                let timers = CornerTimers {
                    dwell_started: None,
                    leave_started: Some(left_at),
                    last_attempt: None,
                };
                if elapsed(now, left_at) >= PEEK_LEAVE_DELAY_NS {
                    (timers, Some(CornerRequest::Hidden))
                } else {
                    (timers, None)
                }
            }
        },
        CornerMode::Other => (idle_timers(), None),
    }
}

/// The timers after a requested mode change was carried out (`ok`) or failed.
/// A successful reveal clears the dwell and the attempt; a successful hide
/// clears the leave timer; a failure leaves the timers as they are.
pub open spec fn corner_after(t: CornerTimers, request: CornerRequest, ok: bool) -> CornerTimers {
    if !ok {
        t
    } else {
        match request {
            CornerRequest::Peek => CornerTimers { dwell_started: None, last_attempt: None, ..t },
            CornerRequest::Hidden => CornerTimers { leave_started: None, ..t },
        }
    }
}

fn elapsed_ns(now: u64, since: u64) -> (d: u64)
    ensures
        d == elapsed(now, since),
{
    if now >= since {
        now - since
    } else {
        0
    }
}

/// One poll of the hot-corner watcher; see `corner_next`.
pub fn corner_step(t: CornerTimers, mode: CornerMode, hit: CursorHit, now: u64, dwell_ms: u32) -> (r: (
    CornerTimers,
    Option<CornerRequest>,
))
    ensures
        r == corner_next(t, mode, hit, now, dwell_ms),
{
    match mode {
        CornerMode::Hidden => {
            if !hit.top_zone {
                (corner_timers_new(), None)
            } else {
                let started = match t.dwell_started {
                    Some(s) => s,
                    None => now,
                };
                let retry_ready = match t.last_attempt {
                    Some(a) => elapsed_ns(now, a) >= RETRY_INTERVAL_NS,
                    None => true,
                };
                let dwell: u64 = dwell_ms as u64 * 1_000_000;
                if elapsed_ns(now, started) >= dwell && retry_ready {
                    (
                        CornerTimers {
                            dwell_started: Some(started),
                            leave_started: None,
                            last_attempt: Some(now),
                        },
                        Some(CornerRequest::Peek),
                    )
                } else {
                    (
                        CornerTimers {
                            dwell_started: Some(started),
                            leave_started: None,
                            last_attempt: t.last_attempt,
                        },
                        None,
                    )
                }
            }
        },
        CornerMode::Peek => {
            if hit.top_zone || hit.peek_surface {
                (corner_timers_new(), None)
            } else {
                let left_at = match t.leave_started {
                    Some(s) => s,
                    None => now,
                };
                let timers = CornerTimers {
                    dwell_started: None,
                    leave_started: Some(left_at),
                    last_attempt: None,
                };
                if elapsed_ns(now, left_at) >= PEEK_LEAVE_DELAY_NS {
                    (timers, Some(CornerRequest::Hidden))
                } else {
                    (timers, None)
                }
            }
        },
        CornerMode::Other => (corner_timers_new(), None),
    }
}

/// The timers after the requested mode change succeeded or failed; see `corner_after`.
pub fn corner_applied(t: CornerTimers, request: CornerRequest, ok: bool) -> (r: CornerTimers)
    ensures
        r == corner_after(t, request, ok),
{
    if !ok {
        t
    } else {
        match request {
            CornerRequest::Peek => CornerTimers { dwell_started: None, last_attempt: None, ..t },
            CornerRequest::Hidden => CornerTimers { leave_started: None, ..t },
        }
    }
}

// ---------------------------------------------------------------------------
// Laws of the watcher
// ---------------------------------------------------------------------------

/// A reveal is only requested while the panel is hidden, the cursor is in the
/// trigger strip, and the cursor has been there for at least the dwell time
/// (counted from when the dwell started, which is now if it had not).
pub proof fn reveal_needs_dwell(t: CornerTimers, mode: CornerMode, hit: CursorHit, now: u64, dwell_ms: u32)
    requires
        corner_next(t, mode, hit, now, dwell_ms).1 == Some(CornerRequest::Peek),
    ensures
        mode == CornerMode::Hidden,
        hit.top_zone,
        elapsed(now, corner_next(t, mode, hit, now, dwell_ms).0.dwell_started->0) >= dwell_ms * 1_000_000,
        t.dwell_started matches Some(s) ==> corner_next(t, mode, hit, now, dwell_ms).0.dwell_started == Some(s),
{
}

/// After a failed reveal, no new reveal is requested until at least 180 ms
/// have passed, whatever the cursor does meanwhile without leaving the strip.
pub proof fn failed_reveal_waits_retry_interval(
    t: CornerTimers,
    hit1: CursorHit,
    now1: u64,
    hit2: CursorHit,
    now2: u64,
    dwell_ms: u32,
)
    requires
        corner_next(t, CornerMode::Hidden, hit1, now1, dwell_ms).1 == Some(CornerRequest::Peek),
        corner_next(
            corner_after(corner_next(t, CornerMode::Hidden, hit1, now1, dwell_ms).0, CornerRequest::Peek, false),
            CornerMode::Hidden,
            hit2,
            now2,
            dwell_ms,
        ).1 == Some(CornerRequest::Peek),
    ensures
        elapsed(now2, now1) >= RETRY_INTERVAL_NS,
{
}

/// A successful reveal or hide starts the next phase from cleared timers of
/// its own kind: the dwell and attempt after a reveal, the leave timer after a hide.
pub proof fn success_clears_timers(t: CornerTimers, request: CornerRequest)
    ensures
        request == CornerRequest::Peek ==> corner_after(t, request, true).dwell_started is None
            && corner_after(t, request, true).last_attempt is None,
        request == CornerRequest::Hidden ==> corner_after(t, request, true).leave_started is None,
{
}

/// Hiding is only requested while peeking, with the cursor off both the strip
/// and the panel, once it has been away for at least 420 ms.
pub proof fn hide_needs_leave_delay(t: CornerTimers, mode: CornerMode, hit: CursorHit, now: u64, dwell_ms: u32)
    requires
        corner_next(t, mode, hit, now, dwell_ms).1 == Some(CornerRequest::Hidden),
    ensures
        mode == CornerMode::Peek,
        !hit.top_zone && !hit.peek_surface,
        elapsed(now, corner_next(t, mode, hit, now, dwell_ms).0.leave_started->0) >= PEEK_LEAVE_DELAY_NS,
{
}

/// Leaving the strip while hidden, or any mode other than hidden and peek,
/// clears every timer and requests nothing.
pub proof fn leaving_resets(t: CornerTimers, mode: CornerMode, hit: CursorHit, now: u64, dwell_ms: u32)
    requires
        mode == CornerMode::Other || (mode == CornerMode::Hidden && !hit.top_zone),
    ensures
        corner_next(t, mode, hit, now, dwell_ms) == (idle_timers(), None::<CornerRequest>),
{
}

// ---------------------------------------------------------------------------
// Laws over a run of polls
// ---------------------------------------------------------------------------

/// One poll of the watcher: the window mode, the cursor hit and the instant
/// of the poll, and whether the mode change it requested, if any, was carried out.
pub struct Poll {
    pub mode: CornerMode,
    pub hit: CursorHit,
    pub now: u64,
    pub ok: bool,
}

/// The timers after one poll, and what it requested.
pub open spec fn poll_once(t: CornerTimers, p: Poll, dwell_ms: u32) -> (CornerTimers, Option<CornerRequest>) {
    let (t1, r) = corner_next(t, p.mode, p.hit, p.now, dwell_ms);
    match r {
        Some(q) => (corner_after(t1, q, p.ok), r),
        None => (t1, r),
    }
}

/// The timers after a run of polls, starting from cleared timers.
pub open spec fn timers_after(polls: Seq<Poll>, dwell_ms: u32) -> CornerTimers
    decreases polls.len(),
{
    if polls.len() == 0 {
        idle_timers()
    } else {
        poll_once(timers_after(polls.drop_last(), dwell_ms), polls.last(), dwell_ms).0
    }
}

/// What the poll at index `j` of a run requests.
pub open spec fn request_at(polls: Seq<Poll>, j: int, dwell_ms: u32) -> Option<CornerRequest> {
    poll_once(timers_after(polls.take(j), dwell_ms), polls[j], dwell_ms).1
}

/// At this poll the panel is hidden and the cursor is in the trigger strip.
pub open spec fn dwelling(p: Poll) -> bool {
    p.mode == CornerMode::Hidden && p.hit.top_zone
}

/// At this poll the panel peeks and the cursor is off both the strip and the panel.
pub open spec fn away(p: Poll) -> bool {
    p.mode == CornerMode::Peek && !p.hit.top_zone && !p.hit.peek_surface
}

proof fn lemma_take_step(polls: Seq<Poll>, n: int)
    requires
        0 <= n < polls.len(),
    ensures
        polls.take(n + 1).drop_last() == polls.take(n),
        polls.take(n + 1).last() == polls[n],
{
    assert(polls.take(n + 1).drop_last() =~= polls.take(n));
}

/// Where a running dwell started: at a poll from which every poll so far dwelt.
proof fn lemma_dwell_start(ps: Seq<Poll>, dwell_ms: u32) -> (i: int)
    ensures
        timers_after(ps, dwell_ms).dwell_started matches Some(s) ==> {
            &&& 0 <= i < ps.len()
            &&& ps[i].now == s
            &&& forall|k: int| i <= k < ps.len() ==> dwelling(#[trigger] ps[k])
        },
        ps.len() == 0 || !dwelling(ps.last()) ==> timers_after(ps, dwell_ms).dwell_started is None
            && timers_after(ps, dwell_ms).last_attempt is None,
    decreases ps.len(),
{
    if ps.len() == 0 {
        0
    } else {
        let q = ps.drop_last();
        let i0 = lemma_dwell_start(q, dwell_ms);
        let t = timers_after(q, dwell_ms);
        let i = if t.dwell_started is Some {
            i0
        } else {
            ps.len() - 1
        };
        assert forall|k: int| 0 <= k < q.len() implies q[k] == ps[k] by {}
        i
    }
}

/// Where a running leave timer started: at a poll from which every poll so far was away.
proof fn lemma_leave_start(ps: Seq<Poll>, dwell_ms: u32) -> (i: int)
    ensures
        timers_after(ps, dwell_ms).leave_started matches Some(s) ==> {
            &&& 0 <= i < ps.len()
            &&& ps[i].now == s
            &&& forall|k: int| i <= k < ps.len() ==> away(#[trigger] ps[k])
        },
        ps.len() == 0 || !away(ps.last()) ==> timers_after(ps, dwell_ms).leave_started is None,
    decreases ps.len(),
{
    if ps.len() == 0 {
        0
    } else {
        let q = ps.drop_last();
        let i0 = lemma_leave_start(q, dwell_ms);
        let t = timers_after(q, dwell_ms);
        let i = if t.leave_started is Some {
            i0
        } else {
            ps.len() - 1
        };
        assert forall|k: int| 0 <= k < q.len() implies q[k] == ps[k] by {}
        i
    }
}

/// Over any run of polls from cleared timers, a reveal is requested only
/// after the panel was hidden with the cursor in the trigger strip at every
/// poll of a stretch that lasted at least the dwell time and ends with that poll.
pub proof fn reveal_after_continuous_dwell(polls: Seq<Poll>, j: int, dwell_ms: u32)
    requires
        0 <= j < polls.len(),
        request_at(polls, j, dwell_ms) == Some(CornerRequest::Peek),
    ensures
        exists|i: int|
            0 <= i <= j && elapsed(polls[j].now, polls[i].now) >= dwell_ms * 1_000_000 && forall|k: int|
                i <= k <= j ==> dwelling(#[trigger] polls[k]),
{
    let ps = polls.take(j);
    let i0 = lemma_dwell_start(ps, dwell_ms);
    let t = timers_after(ps, dwell_ms);
    let p = polls[j];
    assert(p.mode == CornerMode::Hidden && p.hit.top_zone);
    let i = if t.dwell_started is Some {
        i0
    } else {
        j
    };
    assert(forall|k: int| 0 <= k < ps.len() ==> ps[k] == polls[k]);
    assert(0 <= i <= j && elapsed(polls[j].now, polls[i].now) >= dwell_ms * 1_000_000 && forall|k: int|
        i <= k <= j ==> dwelling(#[trigger] polls[k]));
}

/// Over any run of polls from cleared timers, hiding is requested only after
/// the panel peeked with the cursor off the strip and the panel at every poll
/// of a stretch that lasted at least 420 ms and ends with that poll; no other
/// mode than hidden and peek ever requests anything.
pub proof fn hide_after_continuous_leave(polls: Seq<Poll>, j: int, dwell_ms: u32)
    requires
        0 <= j < polls.len(),
        request_at(polls, j, dwell_ms) is Some,
    ensures
        polls[j].mode != CornerMode::Other,
        request_at(polls, j, dwell_ms) == Some(CornerRequest::Hidden) ==> exists|i: int|
            0 <= i <= j && elapsed(polls[j].now, polls[i].now) >= PEEK_LEAVE_DELAY_NS && forall|k: int|
                i <= k <= j ==> away(#[trigger] polls[k]),
{
    let ps = polls.take(j);
    let i0 = lemma_leave_start(ps, dwell_ms);
    let t = timers_after(ps, dwell_ms);
    let p = polls[j];
    if request_at(polls, j, dwell_ms) == Some(CornerRequest::Hidden) {
        assert(away(p));
        let i = if t.leave_started is Some {
            i0
        } else {
            j
        };
        assert(forall|k: int| 0 <= k < ps.len() ==> ps[k] == polls[k]);
        assert(0 <= i <= j && elapsed(polls[j].now, polls[i].now) >= PEEK_LEAVE_DELAY_NS && forall|k: int|
            i <= k <= j ==> away(#[trigger] polls[k]));
    }
}

proof fn lemma_dwell_runs(polls: Seq<Poll>, i: int, m: int, j: int, dwell_ms: u32)
    requires
        0 <= i < m <= j < polls.len(),
        i == 0 || !dwelling(polls[i - 1]),
        forall|k: int| i <= k < m ==> dwelling(#[trigger] polls[k]),
        forall|k: int|
            i <= k < m ==> (#[trigger] request_at(polls, k, dwell_ms)) is None || (request_at(polls, k, dwell_ms)
                == Some(CornerRequest::Peek) && !polls[k].ok && elapsed(polls[j].now, polls[k].now)
                >= RETRY_INTERVAL_NS),
    ensures
        timers_after(polls.take(m), dwell_ms).dwell_started == Some(polls[i].now),
        timers_after(polls.take(m), dwell_ms).last_attempt matches Some(a) ==> elapsed(polls[j].now, a)
            >= RETRY_INTERVAL_NS,
    decreases m - i,
{
    lemma_take_step(polls, m - 1);
    let _ = request_at(polls, m - 1, dwell_ms);
    if m - 1 == i {
        if i > 0 {
            lemma_take_step(polls, i - 1);
        }
        lemma_dwell_start(polls.take(i), dwell_ms);
    } else {
        lemma_dwell_runs(polls, i, m - 1, j, dwell_ms);
    }
}

proof fn lemma_leave_runs(polls: Seq<Poll>, i: int, m: int, dwell_ms: u32)
    requires
        0 <= i < m <= polls.len(),
        i == 0 || !away(polls[i - 1]),
        forall|k: int| i <= k < m ==> away(#[trigger] polls[k]),
        forall|k: int| i <= k < m ==> request_at(polls, k, dwell_ms) is None,
    ensures
        timers_after(polls.take(m), dwell_ms).leave_started == Some(polls[i].now),
    decreases m - i,
{
    lemma_take_step(polls, m - 1);
    assert(request_at(polls, m - 1, dwell_ms) is None);
    if m - 1 == i {
        if i > 0 {
            lemma_take_step(polls, i - 1);
        }
        lemma_leave_start(polls.take(i), dwell_ms);
    } else {
        lemma_leave_runs(polls, i, m - 1, dwell_ms);
    }
}

/// Over any run of polls from cleared timers, a dwell is not left
/// unanswered: when the panel was hidden with the cursor in the strip at
/// every poll since the dwell began (the poll before did not dwell), the
/// dwell time has passed, and every poll of the dwell before this one either
/// requested nothing or asked for a reveal that failed at least 180 ms ago,
/// this poll asks for the reveal, whether it is the first attempt or a retry.
pub proof fn continuous_dwell_reveals(polls: Seq<Poll>, i: int, j: int, dwell_ms: u32)
    requires
        0 <= i <= j < polls.len(),
        i == 0 || !dwelling(polls[i - 1]),
        forall|k: int| i <= k <= j ==> dwelling(#[trigger] polls[k]),
        forall|k: int|
            i <= k < j ==> (#[trigger] request_at(polls, k, dwell_ms)) is None || (request_at(polls, k, dwell_ms)
                == Some(CornerRequest::Peek) && !polls[k].ok && elapsed(polls[j].now, polls[k].now)
                >= RETRY_INTERVAL_NS),
        elapsed(polls[j].now, polls[i].now) >= dwell_ms * 1_000_000,
    ensures
        request_at(polls, j, dwell_ms) == Some(CornerRequest::Peek),
{
    assert(dwelling(polls[j]));
    if i == j {
        if i > 0 {
            lemma_take_step(polls, i - 1);
        }
        lemma_dwell_start(polls.take(i), dwell_ms);
    } else {
        lemma_dwell_runs(polls, i, j, j, dwell_ms);
    }
}

/// Over any run of polls from cleared timers, a peeking panel that the
/// cursor has stayed away from at every poll for at least 420 ms, with
/// nothing requested meanwhile, is hidden at that poll.
pub proof fn continuous_leave_hides(polls: Seq<Poll>, i: int, j: int, dwell_ms: u32)
    requires
        0 <= i <= j < polls.len(),
        i == 0 || !away(polls[i - 1]),
        forall|k: int| i <= k <= j ==> away(#[trigger] polls[k]),
        forall|k: int| i <= k < j ==> request_at(polls, k, dwell_ms) is None,
        elapsed(polls[j].now, polls[i].now) >= PEEK_LEAVE_DELAY_NS,
    ensures
        request_at(polls, j, dwell_ms) == Some(CornerRequest::Hidden),
{
    assert(away(polls[j]));
    if i == j {
        if i > 0 {
            lemma_take_step(polls, i - 1);
        }
        lemma_leave_start(polls.take(i), dwell_ms);
    } else {
        lemma_leave_runs(polls, i, j, dwell_ms);
    }
}

} // verus!

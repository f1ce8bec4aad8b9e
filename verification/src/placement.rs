//! Remembered per-monitor placements of the panel, and the integer part of
//! docking: the horizontal bounds on a work area, the docked position for an
//! anchor, and the snapping of a dragged panel to an edge.
use vstd::prelude::*;
use crate::text::{str_equals, string_of};
use crate::window::MonitorRect;
use crate::hot_corner::{in_peek_surface, Point};

verus! {

/// How a remembered placement positions the panel horizontally.
#[derive(Clone, Copy, Debug, PartialEq, Eq)]
pub enum AnchorKind {
    /// Against the left edge of the work area.
    Left,
    /// Against the right edge of the work area.
    Right,
    /// Centred at a fraction of the work area's width.
    Free,
}

/// The anchor a stored anchor name means: `left`, `free`, and anything else is `right`.
pub open spec fn anchor_kind(s: Seq<char>) -> AnchorKind {
    if s == "left"@ {
        AnchorKind::Left
    } else if s == "free"@ {
        AnchorKind::Free
    } else {
        AnchorKind::Right
    }
}

/// The stored name of an anchor.
pub open spec fn anchor_name_of(k: AnchorKind) -> Seq<char> {
    match k {
        AnchorKind::Left => "left"@,
        AnchorKind::Right => "right"@,
        AnchorKind::Free => "free"@,
    }
}

pub fn anchor_of(s: &str) -> (k: AnchorKind)
    ensures
        k == anchor_kind(s@),
{
    if str_equals(s, "left") {
        AnchorKind::Left
    } else if str_equals(s, "free") {
        AnchorKind::Free
    } else {
        AnchorKind::Right
    }
}

pub fn anchor_name(k: AnchorKind) -> (s: String)
    ensures
        s@ == anchor_name_of(k),
{
    match k {
        AnchorKind::Left => string_of("left"),
        AnchorKind::Right => string_of("right"),
        AnchorKind::Free => string_of("free"),
    }
}

/// Every anchor's name reads back as that anchor.
pub proof fn anchor_names_round_trip(k: AnchorKind)
    ensures
        anchor_kind(anchor_name_of(k)) == k,
{
    reveal_strlit("left");
    reveal_strlit("right");
    reveal_strlit("free");
    assert("right"@.len() != "left"@.len());
    assert("free"@[0] != "left"@[0]);
    assert("right"@.len() != "free"@.len());
}

/// The placement remembered for one monitor. The centre ratio is a fraction
/// of the work area's width, kept as the bits of the `f64` it was saved as;
/// only the anchor `free` reads it.
pub struct MonitorPlacement {
    pub anchor: String,
    pub center_ratio_bits: u64,
}

/// What a placement holds.
pub struct PlacementView {
    pub anchor: Seq<char>,
    pub center_ratio_bits: u64,
}

impl View for MonitorPlacement {
    type V = PlacementView;

    open spec fn view(&self) -> PlacementView {
        PlacementView { anchor: self.anchor@, center_ratio_bits: self.center_ratio_bits }
    }
}

/// The bits of `1.0f64`.
pub const RATIO_ONE_BITS: u64 = 0x3ff0_0000_0000_0000;

/// The placement of a monitor that has none remembered: docked right, centre ratio 1.
pub open spec fn default_placement() -> PlacementView {
    PlacementView { anchor: "right"@, center_ratio_bits: RATIO_ONE_BITS }
}

impl Default for MonitorPlacement {
    fn default() -> (p: MonitorPlacement)
        ensures
            p@ == default_placement(),
    {
        MonitorPlacement { anchor: string_of("right"), center_ratio_bits: RATIO_ONE_BITS }
    }
}

impl MonitorPlacement {
    pub fn duplicate(&self) -> (p: MonitorPlacement)
        ensures
            p@ == self@,
    {
        MonitorPlacement { anchor: self.anchor.clone(), center_ratio_bits: self.center_ratio_bits }
    }
}

// ---------------------------------------------------------------------------
// The store of placements
// ---------------------------------------------------------------------------

/// The map that a list of entries describes; a later entry for a key wins.
pub open spec fn entries_map(s: Seq<(String, MonitorPlacement)>) -> Map<Seq<char>, PlacementView>
    decreases s.len(),
{
    if s.len() == 0 {
        Map::empty()
    } else {
        entries_map(s.drop_last()).insert(s.last().0@, s.last().1@)
    }
}

/// No key occurs twice.
pub open spec fn keys_unique(s: Seq<(String, MonitorPlacement)>) -> bool {
    forall|i: int, j: int| 0 <= i < j < s.len() ==> s[i].0@ != s[j].0@
}

proof fn lemma_entries_lookup(s: Seq<(String, MonitorPlacement)>, i: int)
    requires
        keys_unique(s),
        0 <= i < s.len(),
    ensures
        entries_map(s).contains_key(s[i].0@),
        entries_map(s)[s[i].0@] == s[i].1@,
    decreases s.len(),
{
    if i < s.len() - 1 {
        let t = s.drop_last();
        assert(t[i] == s[i]);
        lemma_entries_lookup(t, i);
    }
}

proof fn lemma_entries_absent(s: Seq<(String, MonitorPlacement)>, k: Seq<char>)
    requires
        forall|i: int| 0 <= i < s.len() ==> s[i].0@ != k,
    ensures
        !entries_map(s).contains_key(k),
    decreases s.len(),
{
    if s.len() > 0 {
        let t = s.drop_last();
        assert forall|i: int| 0 <= i < t.len() implies t[i].0@ != k by {
            assert(t[i] == s[i]);
        }
        lemma_entries_absent(t, k);
    }
}

proof fn lemma_entries_update(s: Seq<(String, MonitorPlacement)>, i: int, e: (String, MonitorPlacement))
    requires
        keys_unique(s),
        0 <= i < s.len(),
        s[i].0@ == e.0@,
    ensures
        entries_map(s.update(i, e)) == entries_map(s).insert(e.0@, e.1@),
    decreases s.len(),
{
    let u = s.update(i, e);
    let t = s.drop_last();
    if i == s.len() - 1 {
        assert(u.drop_last() == t);
        assert(entries_map(u) =~= entries_map(s).insert(e.0@, e.1@));
    } else {
        assert(u.drop_last() == t.update(i, e));
        lemma_entries_update(t, i, e);
        assert(s.last().0@ != e.0@);
        assert(entries_map(u) =~= entries_map(s).insert(e.0@, e.1@));
    }
}

/// The placements remembered per monitor, keyed by monitor key.
pub struct PlacementStore {
    entries: Vec<(String, MonitorPlacement)>,
}

impl View for PlacementStore {
    type V = Map<Seq<char>, PlacementView>;

    closed spec fn view(&self) -> Map<Seq<char>, PlacementView> {
        entries_map(self.entries@)
    }
}

impl PlacementStore {
    /// The store holds each key once.
    #[verifier::type_invariant]
    closed spec fn wf(&self) -> bool {
        keys_unique(self.entries@)
    }

    /// An empty store.
    pub fn new() -> (s: PlacementStore)
        ensures
            s@ == Map::<Seq<char>, PlacementView>::empty(),
    {
        PlacementStore { entries: Vec::new() }
    }

    fn position(&self, key: &String) -> (r: Option<usize>)
        ensures
            match r {
                Some(i) => i < self.entries@.len() && self.entries@[i as int].0@ == key@,
                None => forall|i: int| 0 <= i < self.entries@.len() ==> self.entries@[i].0@ != key@,
            },
    {
        for i in 0..self.entries.len()
            invariant
                forall|k: int| 0 <= k < i ==> self.entries@[k].0@ != key@,
        {
            if self.entries[i].0 == *key {
                return Some(i);
            }
        }
        None
    }

    /// The placement remembered for `key`, or the default placement.
    pub fn get_or_default(&self, key: &str) -> (p: MonitorPlacement)
        ensures
            p@ == placement_for(self@, key@),
    {
        proof {
            use_type_invariant(self);
        }
        let k = string_of(key);
        match self.position(&k) {
            Some(i) => {
                proof {
                    lemma_entries_lookup(self.entries@, i as int);
                }
                self.entries[i].1.duplicate()
            },
            None => {
                proof {
                    lemma_entries_absent(self.entries@, key@);
                }
                MonitorPlacement::default()
            },
        }
    }

    /// Remembers `placement` for `key`, replacing what was remembered for it.
    pub fn insert(&mut self, key: String, placement: MonitorPlacement)
        ensures
            final(self)@ == old(self)@.insert(key@, placement@),
    {
        proof {
            use_type_invariant(&*self);
        }
        let found = self.position(&key);
        let mut entries: Vec<(String, MonitorPlacement)> = Vec::new();
        std::mem::swap(&mut entries, &mut self.entries);
        let ghost old_entries = entries@;
        match found {
            Some(i) => {
                proof {
                    lemma_entries_update(entries@, i as int, (key, placement));
                }
                entries.set(i, (key, placement));
            },
            None => {
                entries.push((key, placement));
                assert(entries@.drop_last() == old_entries);
            },
        }
        self.entries = entries;
    }

    /// A store holding the given entries; of entries with the same key the last wins.
    pub fn from_entries(entries: Vec<(String, MonitorPlacement)>) -> (s: PlacementStore)
        ensures
            s@ == entries_map(entries@),
    {
        let mut s = PlacementStore::new();
        for i in 0..entries.len()
            invariant
                s@ == entries_map(entries@.take(i as int)),
        {
            assert(entries@.take(i + 1).drop_last() == entries@.take(i as int));
            s.insert(entries[i].0.clone(), entries[i].1.duplicate());
        }
        assert(entries@.take(entries.len() as int) == entries@);
        s
    }

    /// The entries of the store, each key once.
    pub fn entries(&self) -> (v: Vec<(String, MonitorPlacement)>)
        ensures
            keys_unique(v@),
            entries_map(v@) == self@,
    {
        proof {
            use_type_invariant(self);
        }
        let mut v: Vec<(String, MonitorPlacement)> = Vec::new();
        for i in 0..self.entries.len()
            invariant
                keys_unique(self.entries@),
                v@.len() == i,
                forall|k: int| 0 <= k < i ==> v@[k].0@ == self.entries@[k].0@ && v@[k].1@ == self.entries@[k].1@,
        {
            let e = (self.entries[i].0.clone(), self.entries[i].1.duplicate());
            v.push(e);
        }
        proof {
            lemma_same_views(v@, self.entries@);
        }
        v
    }
}

proof fn lemma_same_views(a: Seq<(String, MonitorPlacement)>, b: Seq<(String, MonitorPlacement)>)
    requires
        a.len() == b.len(),
        forall|k: int| 0 <= k < a.len() ==> a[k].0@ == b[k].0@ && a[k].1@ == b[k].1@,
    ensures
        entries_map(a) == entries_map(b),
        keys_unique(b) ==> keys_unique(a),
    decreases a.len(),
{
    if a.len() > 0 {
        lemma_same_views(a.drop_last(), b.drop_last());
    }
}

/// The placement a store gives for a monitor key: the remembered one, or the default.
pub open spec fn placement_for(m: Map<Seq<char>, PlacementView>, key: Seq<char>) -> PlacementView {
    if m.contains_key(key) {
        m[key]
    } else {
        default_placement()
    }
}

/// Reading a key gives back what was last inserted for it, and inserting for
/// one monitor leaves what every other monitor reads unchanged.
pub proof fn store_reads_back_insert(m: Map<Seq<char>, PlacementView>, key: Seq<char>, p: PlacementView, other: Seq<char>)
    ensures
        placement_for(m.insert(key, p), key) == p,
        other != key ==> placement_for(m.insert(key, p), other) == placement_for(m, other),
{
}

/// A fresh store gives the default placement for every monitor.
pub proof fn empty_store_gives_default(key: Seq<char>)
    ensures
        placement_for(Map::<Seq<char>, PlacementView>::empty(), key) == default_placement(),
{
}

// ---------------------------------------------------------------------------
// Docking geometry
// ---------------------------------------------------------------------------

/// Leftmost docked position on a work area: one edge margin in from its left side.
pub open spec fn dock_left(work: MonitorRect, edge: int) -> int {
    work.x + edge
}

/// Rightmost docked position for a panel `width` wide: one edge margin in from
/// the work area's right side, but never left of `dock_left`.
pub open spec fn dock_right(work: MonitorRect, width: int, edge: int) -> int {
    let r = work.x + work.width - width - edge;
    if r < dock_left(work, edge) {
        dock_left(work, edge)
    } else {
        r
    }
}

/// The docking bounds of a panel stay inside `i32`.
pub open spec fn dock_fits(work: MonitorRect, width: int, edge: int) -> bool {
    &&& work.width <= i32::MAX
    &&& 0 <= width <= i32::MAX
    &&& i32::MIN <= work.x + edge <= i32::MAX
    &&& work.x + work.width <= i32::MAX
    &&& i32::MIN <= work.x + work.width - width <= i32::MAX
    &&& i32::MIN <= work.x + work.width - width - edge <= i32::MAX
    &&& i32::MIN <= work.y + edge <= i32::MAX
}

/// The horizontal docking bounds `(left, right)` of a panel `width` wide on a work area.
pub fn dock_bounds(work: MonitorRect, width: u32, edge: i32) -> (r: (i32, i32))
    requires
        dock_fits(work, width as int, edge as int),
    ensures
        r.0 == dock_left(work, edge as int),
        r.1 == dock_right(work, width as int, edge as int),
        r.0 <= r.1,
{
    let left = work.x + edge;
    let r = work.x + work.width as i32 - width as i32 - edge;
    let right = if r < left {
        left
    } else {
        r
    };
    (left, right)
}

/// `v` clamped to `[lo, hi]`.
pub open spec fn clamped(v: int, lo: int, hi: int) -> int {
    if v < lo {
        lo
    } else if v > hi {
        hi
    } else {
        v
    }
}

/// A docked panel: its size and top-left corner in physical pixels.
#[derive(Clone, Copy, Debug, PartialEq, Eq)]
pub struct DockGeometry {
    pub width: u32,
    pub height: u32,
    pub x: i32,
    pub y: i32,
}

/// Horizontal docked position for an anchor. For `free`, `free_center` is the
/// pixel column of the remembered centre; the panel is centred there and kept
/// within the docking bounds.
pub open spec fn docked_x(work: MonitorRect, width: int, edge: int, anchor: AnchorKind, free_center: int) -> int {
    match anchor {
        AnchorKind::Left => dock_left(work, edge),
        AnchorKind::Free => clamped(
            free_center - width / 2,
            dock_left(work, edge),
            dock_right(work, width, edge),
        ),
        AnchorKind::Right => dock_right(work, width, edge),
    }
}

/// Where a panel of the given physical size docks on a work area, for a
/// remembered placement: at one edge margin below the top of the work area,
/// horizontally as the anchor says.
pub fn placement_geometry(
    width: u32,
    height: u32,
    edge: i32,
    work: MonitorRect,
    placement: &MonitorPlacement,
    free_center: i32,
) -> (g: DockGeometry)
    requires
        dock_fits(work, width as int, edge as int),
        i32::MIN <= free_center - width / 2,
    ensures
        g.width == width,
        g.height == height,
        g.y == work.y + edge,
        g.x == docked_x(work, width as int, edge as int, anchor_kind(placement.anchor@), free_center as int),
        dock_left(work, edge as int) <= g.x <= dock_right(work, width as int, edge as int),
{
    let (left, right) = dock_bounds(work, width, edge);
    let x = match anchor_of(placement.anchor.as_str()) {
        AnchorKind::Left => left,
        AnchorKind::Free => {
            let c = free_center - (width / 2) as i32;
            if c < left {
                left
            } else if c > right {
                right
            } else {
                c
            }
        },
        AnchorKind::Right => right,
    };
    DockGeometry { width, height, x, y: work.y + edge }
}

/// The top edge of a panel `height` high that peeks: raised so that only its
/// bottom `peek_height` pixels show below the monitor's top edge.
pub open spec fn peek_top(monitor_top: int, height: int, peek_height: int) -> int {
    monitor_top + peek_height - height
}

/// The docked panel raised for peeking: same size and column, with its top
/// edge at `peek_top`.
pub fn peek_geometry(g: DockGeometry, monitor_top: i32, peek_height: i32) -> (p: DockGeometry)
    requires
        g.height <= i32::MAX,
        i32::MIN <= monitor_top + peek_height - g.height <= i32::MAX,
    ensures
        p.width == g.width,
        p.height == g.height,
        p.x == g.x,
        p.y == peek_top(monitor_top as int, g.height as int, peek_height as int),
{
    let y = (monitor_top as i64 + peek_height as i64 - g.height as i64) as i32;
    DockGeometry { width: g.width, height: g.height, x: g.x, y }
}

/// While peeking, the strip the hot corner treats as the visible panel lies
/// on the panel: every point of the peek surface (the top `peek_height` rows
/// of the monitor over the panel's columns) is a point of the raised panel,
/// and it is the panel's bottom strip.
pub proof fn peek_surface_is_bottom_strip(p: DockGeometry, monitor_top: int, peek_height: int, pt: Point)
    requires
        1 <= peek_height <= p.height,
        p.y == peek_top(monitor_top, p.height as int, peek_height),
        in_peek_surface(pt, monitor_top, p.x as int, p.width as int, peek_height),
    ensures
        p.x <= pt.x < p.x + p.width,
        p.y + p.height - peek_height <= pt.y < p.y + p.height,
{
}

/// Where a panel being dragged lands, and the anchor it is remembered with.
/// Near the left of the screen or of the docking bounds (within `snap`) it
/// snaps left; else near the right it snaps right; else it stays at the
/// proposed position, clamped to the bounds, as a free placement.
pub open spec fn spec_drag_snap(
    cursor_x: int,
    proposed_x: int,
    screen: MonitorRect,
    left: int,
    right: int,
    snap: int,
) -> (int, AnchorKind) {
    if cursor_x <= screen.x + snap || proposed_x <= left + snap {
        (left, AnchorKind::Left)
    } else if cursor_x >= screen.x + screen.width - snap || proposed_x >= right - snap {
        (right, AnchorKind::Right)
    } else {
        (clamped(proposed_x, left, right), AnchorKind::Free)
    }
}

pub fn drag_snap(cursor_x: i32, proposed_x: i32, screen: MonitorRect, left: i32, right: i32, snap: i32) -> (r: (
    i32,
    AnchorKind,
))
    requires
        left <= right,
        screen.width <= i32::MAX,
        i32::MIN <= screen.x + snap <= i32::MAX,
        i32::MIN <= screen.x + screen.width <= i32::MAX,
        i32::MIN <= screen.x + screen.width - snap <= i32::MAX,
        i32::MIN <= left + snap <= i32::MAX,
        i32::MIN <= right - snap <= i32::MAX,
    ensures
        (r.0 as int, r.1) == spec_drag_snap(
            cursor_x as int,
            proposed_x as int,
            screen,
            left as int,
            right as int,
            snap as int,
        ),
        left <= r.0 <= right,
{
    let screen_left = screen.x;
    let screen_right = screen.x + screen.width as i32;
    if cursor_x <= screen_left + snap || proposed_x <= left + snap {
        (left, AnchorKind::Left)
    } else if cursor_x >= screen_right - snap || proposed_x >= right - snap {
        (right, AnchorKind::Right)
    } else {
        let x = if proposed_x < left {
            left
        } else if proposed_x > right {
            right
        } else {
            proposed_x
        };
        (x, AnchorKind::Free)
    }
}

/// A panel that a drag snapped to an edge docks at that same edge the next
/// time it is shown on that work area with the placement the drag remembered.
pub proof fn snapped_edge_is_remembered(
    cursor_x: int,
    proposed_x: int,
    screen: MonitorRect,
    work: MonitorRect,
    width: int,
    edge: int,
    snap: int,
    free_center: int,
)
    requires
        spec_drag_snap(
            cursor_x,
            proposed_x,
            screen,
            dock_left(work, edge),
            dock_right(work, width, edge),
            snap,
        ).1 != AnchorKind::Free,
    ensures
        ({
            let (x, k) = spec_drag_snap(
                cursor_x,
                proposed_x,
                screen,
                dock_left(work, edge),
                dock_right(work, width, edge),
                snap,
            );
            docked_x(work, width, edge, anchor_kind(anchor_name_of(k)), free_center) == x
        }),
{
    let k = spec_drag_snap(cursor_x, proposed_x, screen, dock_left(work, edge), dock_right(work, width, edge), snap).1;
    anchor_names_round_trip(k);
}

/// The placement a drag remembers: the anchor it snapped to, by name, and the
/// centre ratio of where it ended.
pub fn snapped_placement(anchor: AnchorKind, center_ratio_bits: u64) -> (p: MonitorPlacement)
    ensures
        p.anchor@ == anchor_name_of(anchor),
        p.center_ratio_bits == center_ratio_bits,
        p.anchor@ == "left"@ || p.anchor@ == "right"@ || p.anchor@ == "free"@,
{
    MonitorPlacement { anchor: anchor_name(anchor), center_ratio_bits }
}

/// Ends a drag: the last placement the drag snapped to is remembered for the
/// monitor it was on, and nothing else changes; a drag that was never over a
/// monitor leaves the store as it was.
pub fn finish_drag(store: &mut PlacementStore, last: Option<(String, MonitorPlacement)>)
    ensures
        final(store)@ == match last {
            Some((k, p)) => old(store)@.insert(k@, p@),
            None => old(store)@,
        },
{
    match last {
        Some((k, p)) => store.insert(k, p),
        None => {},
    }
}

} // verus!

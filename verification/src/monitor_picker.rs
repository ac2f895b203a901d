//! Monitor ordering and choice for the multi-monitor display picker.
//!
//! One monitor is used directly; several are shown as cards numbered left to
//! right (then top to bottom); Escape or Cancel cancels; number keys 1-9 pick
//! by that order.

use vstd::prelude::*;

verus! {

/// Origin and size of a monitor in the compositor's global space.
#[derive(Debug, Clone, Copy, PartialEq, Eq)]
pub struct MonitorGeometry {
    pub x: i32,
    pub y: i32,
    pub width: i32,
    pub height: i32,
}

/// Metadata about a connected monitor (for logging / capture targeting).
#[derive(Debug, Clone)]
pub struct MonitorChoice {
    pub index: u32,
    pub x: i32,
    pub y: i32,
    pub width: i32,
    pub height: i32,
    pub connector: String,
    pub is_primary: bool,
}

impl MonitorChoice {
    /// A choice for monitor `index`, named by its connector, else its model,
    /// else `fallback_name`.
    pub fn from_monitor(
        index: u32,
        geometry: MonitorGeometry,
        connector: Option<String>,
        model: Option<String>,
        fallback_name: String,
        is_primary: bool,
    ) -> (c: Self)
        ensures
            c.index == index,
            c.x == geometry.x,
            c.y == geometry.y,
            c.width == geometry.width,
            c.height == geometry.height,
            c.connector == (match connector {
                Some(n) => n,
                None => match model {
                    Some(m) => m,
                    None => fallback_name,
                },
            }),
            c.is_primary == is_primary,
    {
        let name = match connector {
            Some(n) => n,
            None => match model {
                Some(m) => m,
                None => fallback_name,
            },
        };
        MonitorChoice {
            index,
            x: geometry.x,
            y: geometry.y,
            width: geometry.width,
            height: geometry.height,
            connector: name,
            is_primary,
        }
    }
}

/// Picker order: left to right, then top to bottom, then by index.
pub open spec fn picker_before(g: Seq<MonitorGeometry>, a: int, b: int) -> bool {
    g[a].x < g[b].x || (g[a].x == g[b].x && (g[a].y < g[b].y || (g[a].y == g[b].y && a < b)))
}

/// `order` lists every monitor index once, sorted in picker order.
pub open spec fn is_picker_order(g: Seq<MonitorGeometry>, order: Seq<usize>) -> bool {
    &&& order.len() == g.len()
    &&& forall|i: int| 0 <= i < order.len() ==> #[trigger] order[i] < g.len()
    &&& forall|a: int, b: int|
        0 <= a < b < order.len() ==> picker_before(g, #[trigger] order[a] as int, #[trigger] order[b] as int)
    &&& forall|j: int| 0 <= j < g.len() ==> #[trigger] order.contains(j as usize)
}

fn picker_before_exec(monitors: &Vec<MonitorGeometry>, a: usize, b: usize) -> (r: bool)
    requires
        a < monitors@.len(),
        b < monitors@.len(),
    ensures
        r == picker_before(monitors@, a as int, b as int),
{
    let ga = monitors[a];
    let gb = monitors[b];
    ga.x < gb.x || (ga.x == gb.x && (ga.y < gb.y || (ga.y == gb.y && a < b)))
}

/// Monitor indices sorted left-to-right (then top-to-bottom) for stable
/// numbering.
pub fn sorted_monitor_indices(monitors: &Vec<MonitorGeometry>) -> (order: Vec<usize>)
    ensures
        is_picker_order(monitors@, order@),
{
    let n = monitors.len();
    let ghost g = monitors@;
    let mut order: Vec<usize> = Vec::new();
    let mut i: usize = 0;
    while i < n
        invariant
            0 <= i <= n,
            n == g.len(),
            g == monitors@,
            order@.len() == i,
            forall|k: int| 0 <= k < order@.len() ==> #[trigger] order@[k] < i,
            forall|a: int, b: int|
                0 <= a < b < order@.len() ==> picker_before(g, #[trigger] order@[a] as int, #[trigger] order@[b] as int),
            forall|j: int| 0 <= j < i ==> #[trigger] order@.contains(j as usize),
        decreases n - i,
    {
        let mut p: usize = 0;
        while p < order.len() && !picker_before_exec(monitors, i, order[p])
            invariant
                0 <= p <= order@.len(),
                i < n,
                n == g.len(),
                g == monitors@,
                forall|k: int| 0 <= k < order@.len() ==> #[trigger] order@[k] < i,
                forall|q: int| 0 <= q < p ==> !picker_before(g, i as int, #[trigger] order@[q] as int),
            decreases order@.len() - p,
        {
            p = p + 1;
        }
        let ghost before = order@;
        order.insert(p, i);
        proof {
            assert(order@ == before.insert(p as int, i));
            assert forall|a: int, b: int|
                0 <= a < b < order@.len() implies picker_before(g, #[trigger] order@[a] as int, #[trigger] order@[b] as int) by {
                if b < p {
                    assert(order@[a] == before[a] && order@[b] == before[b]);
                } else if b == p {
                    assert(order@[a] == before[a]);
                    assert(!picker_before(g, i as int, before[a] as int));
                    assert(before[a] < i);
                } else if a < p {
                    assert(order@[a] == before[a] && order@[b] == before[b - 1]);
                    if a < b - 1 {
                        assert(picker_before(g, before[a] as int, before[b - 1] as int));
                    }
                } else if a == p {
                    assert(order@[b] == before[b - 1]);
                    assert(picker_before(g, i as int, before[p as int] as int));
                    if p < b - 1 {
                        assert(picker_before(g, before[p as int] as int, before[b - 1] as int));
                    }
                } else {
                    assert(order@[a] == before[a - 1] && order@[b] == before[b - 1]);
                }
            }
            assert forall|j: int| 0 <= j < i + 1 implies #[trigger] order@.contains(j as usize) by {
                if j == i {
                    assert(order@[p as int] == i);
                } else {
                    assert(before.contains(j as usize));
                    let k = choose|k: int| 0 <= k < before.len() && before[k] == j as usize;
                    if k < p {
                        assert(order@[k] == j as usize);
                    } else {
                        assert(order@[k + 1] == j as usize);
                    }
                }
            }
            assert forall|k: int| 0 <= k < order@.len() implies #[trigger] order@[k] < i + 1 by {
                if k < p {
                    assert(order@[k] == before[k]);
                } else if k > p {
                    assert(order@[k] == before[k - 1]);
                }
            }
        }
        i = i + 1;
    }
    order
}

} // verus!

verus! {

pub open spec fn abs_int(v: int) -> int {
    if v < 0 {
        -v
    } else {
        v
    }
}

/// The key a monitor is ranked by when guessing the primary one: distance of
/// its origin from (0, 0), then x, then y.
pub open spec fn origin_key_less(a: MonitorGeometry, b: MonitorGeometry) -> bool {
    let da = abs_int(a.x as int) + abs_int(a.y as int);
    let db = abs_int(b.x as int) + abs_int(b.y as int);
    da < db || (da == db && (a.x < b.x || (a.x == b.x && a.y < b.y)))
}

/// `best` is the first monitor whose key is minimal.
pub open spec fn is_first_origin_min(g: Seq<MonitorGeometry>, best: int) -> bool {
    &&& 0 <= best < g.len()
    &&& forall|j: int| 0 <= j < g.len() ==> !origin_key_less(#[trigger] g[j], g[best])
    &&& forall|j: int| 0 <= j < best ==> origin_key_less(g[best], #[trigger] g[j])
}

/// The picker numbers monitors left to right, and monitors in one column
/// top to bottom.
pub proof fn lemma_picker_left_to_right(g: Seq<MonitorGeometry>, order: Seq<usize>)
    requires
        is_picker_order(g, order),
    ensures
        forall|a: int, b: int|
            0 <= a < b < order.len() ==> #[trigger] g[order[a] as int].x <= #[trigger] g[order[b] as int].x,
        forall|a: int, b: int|
            0 <= a < b < order.len() && g[order[a] as int].x == g[order[b] as int].x ==> #[trigger] g[order[a] as int].y
                <= #[trigger] g[order[b] as int].y,
{
    assert forall|a: int, b: int| 0 <= a < b < order.len() implies #[trigger] g[order[a] as int].x
        <= #[trigger] g[order[b] as int].x by {
        assert(picker_before(g, order[a] as int, order[b] as int));
    }
    assert forall|a: int, b: int|
        0 <= a < b < order.len() && g[order[a] as int].x == g[order[b] as int].x implies #[trigger] g[order[a] as int].y
            <= #[trigger] g[order[b] as int].y by {
        assert(picker_before(g, order[a] as int, order[b] as int));
    }
}

/// A monitor whose origin is (0, 0) makes the primary guess a monitor at
/// (0, 0); in general the guess is nearer to (0, 0) than every earlier
/// monitor and no farther than any other.
pub proof fn lemma_primary_at_origin(g: Seq<MonitorGeometry>, best: int, j: int)
    requires
        is_first_origin_min(g, best),
        0 <= j < g.len(),
    ensures
        g[j].x == 0 && g[j].y == 0 ==> g[best].x == 0 && g[best].y == 0,
        abs_int(g[best].x as int) + abs_int(g[best].y as int) <= abs_int(g[j].x as int) + abs_int(g[j].y as int),
{
    assert(!origin_key_less(g[j], g[best]));
}

fn origin_distance(g: MonitorGeometry) -> (d: u64)
    ensures
        d == abs_int(g.x as int) + abs_int(g.y as int),
{
    let ax: u64 = if g.x < 0 { (-(g.x as i64)) as u64 } else { g.x as u64 };
    let ay: u64 = if g.y < 0 { (-(g.y as i64)) as u64 } else { g.y as u64 };
    ax + ay
}

/// Best-effort "primary" flag: whether `index` is the first monitor whose
/// origin is closest to (0, 0) (ties broken by x, then y).
pub fn is_primary_guess(monitors: &Vec<MonitorGeometry>, index: usize) -> (primary: bool)
    requires
        forall|i: int|
            0 <= i < monitors@.len() ==> abs_int(#[trigger] monitors@[i].x as int) + abs_int(
                monitors@[i].y as int,
            ) <= u32::MAX,
    ensures
        primary == (is_first_origin_min(monitors@, index as int)),
{
    let n = monitors.len();
    if n == 0 {
        return false;
    }
    let mut best: usize = 0;
    let mut i: usize = 1;
    while i < n
        invariant
            1 <= i <= n,
            n == monitors@.len(),
            0 <= best < i,
            forall|j: int| 0 <= j < i ==> !origin_key_less(#[trigger] monitors@[j], monitors@[best as int]),
            forall|j: int| 0 <= j < best ==> origin_key_less(monitors@[best as int], #[trigger] monitors@[j]),
        decreases n - i,
    {
        let gi = monitors[i];
        let gb = monitors[best];
        let di = origin_distance(gi);
        let db = origin_distance(gb);
        if di < db || (di == db && (gi.x < gb.x || (gi.x == gb.x && gi.y < gb.y))) {
            best = i;
        }
        i = i + 1;
    }
    proof {
        if best != index && is_first_origin_min(monitors@, index as int) {
            if index < best {
                assert(origin_key_less(monitors@[best as int], monitors@[index as int]));
            } else {
                assert(origin_key_less(monitors@[index as int], monitors@[best as int]));
            }
        }
    }
    best == index
}

/// Whether monitor `g`'s origin is exactly (x, y).
pub open spec fn at_origin(g: MonitorGeometry, x: i32, y: i32) -> bool {
    g.x == x && g.y == y
}

/// Manhattan distance of a monitor's origin from (x, y).
pub open spec fn origin_offset(g: MonitorGeometry, x: i32, y: i32) -> int {
    abs_int(g.x - x) + abs_int(g.y - y)
}

/// The offset of `g` from (x, y) is computable without overflow.
pub open spec fn offset_fits(g: MonitorGeometry, x: i32, y: i32) -> bool {
    &&& i32::MIN <= g.x - x <= i32::MAX
    &&& i32::MIN <= g.y - y <= i32::MAX
    &&& origin_offset(g, x, y) <= u32::MAX
}

/// The monitor a previous choice at (x, y) refers to: the first monitor whose
/// origin is exactly (x, y), else the first one nearest to (x, y), else none.
pub open spec fn find_monitor_spec(g: Seq<MonitorGeometry>, x: i32, y: i32, found: Option<usize>) -> bool {
    match found {
        None => g.len() == 0,
        Some(i) => {
            &&& i < g.len()
            &&& if exists|j: int| 0 <= j < g.len() && #[trigger] at_origin(g[j], x, y) {
                &&& at_origin(g[i as int], x, y)
                &&& forall|j: int| 0 <= j < i ==> !#[trigger] at_origin(g[j], x, y)
            } else {
                &&& forall|j: int| 0 <= j < g.len() ==> origin_offset(g[i as int], x, y) <= origin_offset(#[trigger] g[j], x, y)
                &&& forall|j: int| 0 <= j < i ==> origin_offset(g[i as int], x, y) < origin_offset(#[trigger] g[j], x, y)
            }
        },
    }
}

fn offset_of(g: MonitorGeometry, x: i32, y: i32) -> (d: u64)
    ensures
        d == origin_offset(g, x, y),
{
    let dx = g.x as i64 - x as i64;
    let dy = g.y as i64 - y as i64;
    let ax: u64 = if dx < 0 { (-dx) as u64 } else { dx as u64 };
    let ay: u64 = if dy < 0 { (-dy) as u64 } else { dy as u64 };
    ax + ay
}

/// Resolve a previously chosen monitor by matching its geometry origin:
/// an exact match wins, else the nearest origin (handles minor geometry
/// drift). Returns the monitor's position in `monitors`.
pub fn find_monitor_at(monitors: &Vec<MonitorGeometry>, x: i32, y: i32) -> (found: Option<usize>)
    requires
        (exists|j: int| 0 <= j < monitors@.len() && #[trigger] at_origin(monitors@[j], x, y))
            || forall|j: int| 0 <= j < monitors@.len() ==> #[trigger] offset_fits(monitors@[j], x, y),
    ensures
        find_monitor_spec(monitors@, x, y, found),
{
    let n = monitors.len();
    let mut i: usize = 0;
    while i < n
        invariant
            0 <= i <= n,
            n == monitors@.len(),
            forall|j: int| 0 <= j < i ==> !#[trigger] at_origin(monitors@[j], x, y),
        decreases n - i,
    {
        if monitors[i].x == x && monitors[i].y == y {
            assert(at_origin(monitors@[i as int], x, y));
            return Some(i);
        }
        i = i + 1;
    }
    if n == 0 {
        return None;
    }
    let mut best: usize = 0;
    let mut best_d = offset_of(monitors[0], x, y);
    let mut k: usize = 1;
    while k < n
        invariant
            1 <= k <= n,
            n == monitors@.len(),
            0 <= best < k,
            best_d == origin_offset(monitors@[best as int], x, y),
            forall|j: int| 0 <= j < k ==> best_d <= origin_offset(#[trigger] monitors@[j], x, y),
            forall|j: int| 0 <= j < best ==> best_d < origin_offset(#[trigger] monitors@[j], x, y),
        decreases n - k,
    {
        let d = offset_of(monitors[k], x, y);
        if d < best_d {
            best = k;
            best_d = d;
        }
        k = k + 1;
    }
    Some(best)
}

/// Estimated width of the legacy picker panel: 288 px per card, 16 px gaps,
/// 72 px of margins, at least 360 px.
pub fn estimate_panel_width(n_monitors: usize) -> (w: i32)
    requires
        n_monitors * 304 + 72 <= i32::MAX,
    ensures
        w == (if n_monitors == 0 { 360 } else if 304 * n_monitors + 56 < 360 { 360 } else { 304 * n_monitors + 56 }),
{
    let n = n_monitors as i32;
    let gaps = if n - 1 > 0 { n - 1 } else { 0 };
    let width = n * 288 + gaps * 16 + 72;
    if width > 360 { width } else { 360 }
}

/// The exact width of a picker panel holding `card_count` cards:
/// 36 px margins, 288 px cards, 16 px gaps.
pub open spec fn panel_width_exact(card_count: int) -> int {
    72 + card_count * 288 + if card_count > 0 { (card_count - 1) * 16 } else { 0 }
}

/// Size of the picker panel: its width (never under 360 px, capped at the
/// largest `i32`) and a fixed 397 px height.
pub fn picker_panel_size(card_count: usize) -> (size: (i32, i32))
    ensures
        size.0 == (if panel_width_exact(card_count as int) > i32::MAX {
            i32::MAX as int
        } else if panel_width_exact(card_count as int) < 360 {
            360
        } else {
            panel_width_exact(card_count as int)
        }),
        size.1 == 397,
{
    let n = card_count as u128;
    let gaps: u128 = if n > 0 { n - 1 } else { 0 };
    let exact: u128 = 72 + n * 288 + gaps * 16;
    let width: i32 = if exact > i32::MAX as u128 {
        i32::MAX
    } else if exact < 360 {
        360
    } else {
        exact as i32
    };
    (width, 397)
}

/// Keys the picker reacts to.
#[derive(Debug, Clone, Copy, PartialEq, Eq)]
pub enum PickerKey {
    /// A number key 1-9.
    Digit(u8),
    Escape,
    /// Return, keypad Enter or space.
    Confirm,
    Other,
}

/// What a key press in the picker chooses: number key `d` picks the `d`-th
/// card (if there is one), Escape cancels (-1), Return/Enter/space picks the
/// first card, other keys choose nothing.
pub fn picker_key_choice(order: &Vec<usize>, key: PickerKey) -> (chosen: Option<i32>)
    requires
        forall|i: int| 0 <= i < order@.len() ==> #[trigger] order@[i] <= i32::MAX,
    ensures
        chosen == (match key {
            PickerKey::Digit(d) => if 1 <= d <= 9 && d <= order@.len() {
                Some(order@[d - 1] as i32)
            } else {
                None
            },
            PickerKey::Escape => Some(-1i32),
            PickerKey::Confirm => if order@.len() > 0 {
                Some(order@[0] as i32)
            } else {
                None
            },
            PickerKey::Other => None,
        }),
{
    match key {
        PickerKey::Digit(d) => {
            if 1 <= d && d <= 9 && (d as usize) <= order.len() {
                Some(order[(d - 1) as usize] as i32)
            } else {
                None
            }
        },
        PickerKey::Escape => Some(-1),
        PickerKey::Confirm => {
            if order.len() > 0 {
                Some(order[0] as i32)
            } else {
                None
            }
        },
        PickerKey::Other => None,
    }
}

/// What releasing the pointer chooses: the card that was pressed, when the
/// release lands on it; else cancel when it lands on Cancel; else nothing.
pub fn picker_release_choice(
    order: &Vec<usize>,
    hit: Option<usize>,
    pressed: i32,
    on_cancel: bool,
) -> (chosen: Option<i32>)
    requires
        forall|i: int| 0 <= i < order@.len() ==> #[trigger] order@[i] <= i32::MAX,
    ensures
        chosen == (if hit matches Some(h) && h == pressed && pressed >= 0 && (pressed as int) < order@.len() {
            Some(order@[pressed as int] as i32)
        } else if on_cancel {
            Some(-1i32)
        } else {
            None
        }),
{
    if let Some(h) = hit {
        if pressed >= 0 && h == pressed as usize && (pressed as usize) < order.len() {
            return Some(order[pressed as usize] as i32);
        }
    }
    if on_cancel {
        Some(-1)
    } else {
        None
    }
}

/// How the target monitor is obtained for `count` connected monitors.
#[derive(Debug, Clone, Copy, PartialEq, Eq)]
pub enum MonitorSelection {
    /// No monitor: an initialization error.
    NoMonitor,
    /// A single monitor is used without showing the picker.
    Single,
    /// Several monitors: ask the user.
    Interactive,
}

pub fn monitor_selection(count: usize) -> (s: MonitorSelection)
    ensures
        s == (if count == 0 {
            MonitorSelection::NoMonitor
        } else if count == 1 {
            MonitorSelection::Single
        } else {
            MonitorSelection::Interactive
        }),
{
    if count == 0 {
        MonitorSelection::NoMonitor
    } else if count == 1 {
        MonitorSelection::Single
    } else {
        MonitorSelection::Interactive
    }
}

/// The monitor a finished picker chose: `code` when it names one of the
/// `count` monitors, otherwise the picker was cancelled (`None`).
pub fn picker_outcome(code: i32, count: usize) -> (chosen: Option<usize>)
    ensures
        chosen == (if 0 <= code && (code as int) < count {
            Some(code as usize)
        } else {
            None
        }),
{
    if code < 0 || code as usize >= count {
        None
    } else {
        Some(code as usize)
    }
}

} // verus!

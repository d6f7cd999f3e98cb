//! Monitors: which one is meant, and which part of a screenshot shows it.

use vstd::prelude::*;

verus! {

/// A monitor's place on the desktop, in pixels.
#[derive(Debug, Clone, Copy, PartialEq, Eq, Structural)]
pub struct MonitorRect {
    pub x: i32,
    pub y: i32,
    pub width: u32,
    pub height: u32,
    pub primary: bool,
}

impl MonitorRect {
    /// The far edges are within the coordinates that a pointer can have.
    pub open spec fn fits(self) -> bool {
        &&& self.width <= i32::MAX
        &&& self.height <= i32::MAX
        &&& self.x + self.width <= i32::MAX
        &&& self.y + self.height <= i32::MAX
    }

    /// Whether the point lies on the monitor.
    pub open spec fn covers(self, x: int, y: int) -> bool {
        self.x <= x < self.x + self.width && self.y <= y < self.y + self.height
    }

    /// The monitor that RandR reports with these numbers.
    pub fn from_randr(x: i16, y: i16, width: u16, height: u16, primary: bool) -> (m: Self)
        ensures
            m == (MonitorRect {
                x: x as i32,
                y: y as i32,
                width: width as u32,
                height: height as u32,
                primary,
            }),
            m.fits(),
    {
        MonitorRect {
            x: x as i32,
            y: y as i32,
            width: width as u32,
            height: height as u32,
            primary,
        }
    }
}

/// Every monitor is within the coordinates that a pointer can have.
pub open spec fn all_fit(monitors: Seq<MonitorRect>) -> bool {
    forall|i: int| 0 <= i < monitors.len() ==> (#[trigger] monitors[i]).fits()
}

/// The first monitor that the point lies on.
pub open spec fn first_covering(monitors: Seq<MonitorRect>, x: int, y: int) -> Option<MonitorRect>
    decreases monitors.len(),
{
    if monitors.len() == 0 {
        None
    } else if monitors[0].covers(x, y) {
        Some(monitors[0])
    } else {
        first_covering(monitors.skip(1), x, y)
    }
}

/// The first monitor marked as primary.
pub open spec fn first_primary(monitors: Seq<MonitorRect>) -> Option<MonitorRect>
    decreases monitors.len(),
{
    if monitors.len() == 0 {
        None
    } else if monitors[0].primary {
        Some(monitors[0])
    } else {
        first_primary(monitors.skip(1))
    }
}

/// The primary monitor, or the first one where none is marked.
pub open spec fn main_monitor(monitors: Seq<MonitorRect>) -> Option<MonitorRect> {
    match first_primary(monitors) {
        Some(m) => Some(m),
        None => if monitors.len() > 0 {
            Some(monitors[0])
        } else {
            None
        },
    }
}

/// The monitor under a point.
pub fn monitor_at(monitors: &Vec<MonitorRect>, x: i32, y: i32) -> (r: Option<MonitorRect>)
    requires
        all_fit(monitors@),
    ensures
        r == first_covering(monitors@, x as int, y as int),
{
    let mut i: usize = 0;
    assert(monitors@.skip(0) == monitors@);
    while i < monitors.len()
        invariant
            i <= monitors@.len(),
            all_fit(monitors@),
            first_covering(monitors@, x as int, y as int) == first_covering(
                monitors@.skip(i as int),
                x as int,
                y as int,
            ),
        decreases monitors@.len() - i,
    {
        let m = monitors[i];
        proof {
            assert(monitors@[i as int].fits());
            assert(monitors@.skip(i as int)[0] == m);
            assert(monitors@.skip(i as int).skip(1) == monitors@.skip(i + 1));
        }
        if x >= m.x && x < m.x + m.width as i32 && y >= m.y && y < m.y + m.height as i32 {
            return Some(m);
        }
        i += 1;
    }
    None
}

/// The primary monitor, or the first one where none is marked.
pub fn primary_monitor(monitors: &Vec<MonitorRect>) -> (r: Option<MonitorRect>)
    ensures
        r == main_monitor(monitors@),
{
    let mut i: usize = 0;
    assert(monitors@.skip(0) == monitors@);
    while i < monitors.len()
        invariant
            i <= monitors@.len(),
            first_primary(monitors@) == first_primary(monitors@.skip(i as int)),
        decreases monitors@.len() - i,
    {
        let m = monitors[i];
        proof {
            assert(monitors@.skip(i as int)[0] == m);
            assert(monitors@.skip(i as int).skip(1) == monitors@.skip(i + 1));
        }
        if m.primary {
            return Some(m);
        }
        i += 1;
    }
    if monitors.len() > 0 {
        Some(monitors[0])
    } else {
        None
    }
}

/// Which of several monitors to use when the pointer is of no help: the
/// first one marked as primary, else the first.
pub fn primary_index(primary: &Vec<bool>) -> (r: Option<usize>)
    ensures
        (match r {
            Some(i) => {
                &&& i < primary@.len()
                &&& primary@[i as int] || i == 0
                &&& primary@[i as int] ==> forall|k: int| 0 <= k < i ==> !#[trigger] primary@[k]
                &&& !primary@[i as int] ==> forall|k: int|
                    0 <= k < primary@.len() ==> !#[trigger] primary@[k]
            },
            None => primary@.len() == 0,
        }),
{
    let mut i: usize = 0;
    while i < primary.len()
        invariant
            i <= primary@.len(),
            forall|k: int| 0 <= k < i ==> !#[trigger] primary@[k],
        decreases primary@.len() - i,
    {
        if primary[i] {
            return Some(i);
        }
        i += 1;
    }
    if primary.len() > 0 {
        Some(0)
    } else {
        None
    }
}

/// Whether a monitor lies whole, and not empty, within a picture of the
/// given size whose corner is the desktop's origin.
pub open spec fn lies_within(m: MonitorRect, width: int, height: int) -> bool {
    &&& m.x >= 0
    &&& m.y >= 0
    &&& m.x + m.width <= width
    &&& m.y + m.height <= height
    &&& m.width > 0
    &&& m.height > 0
}

/// The monitor that a screenshot is cut down to: the one under the pointer,
/// else the main one; none if the pointer's place is not known.
pub open spec fn active_monitor(
    monitors: Seq<MonitorRect>,
    pointer: Option<(i32, i32)>,
) -> Option<MonitorRect> {
    match pointer {
        None => None,
        Some((x, y)) => match first_covering(monitors, x as int, y as int) {
            Some(m) => Some(m),
            None => main_monitor(monitors),
        },
    }
}

/// The part of a desktop screenshot, as its corner and size, that shows the
/// active monitor. `None` means that the whole screenshot is used: the
/// pointer or the monitors are not known, or the screenshot does not hold
/// the monitor.
pub fn crop_to_active_monitor(
    width: u32,
    height: u32,
    pointer: Option<(i32, i32)>,
    monitors: &Vec<MonitorRect>,
) -> (r: Option<(u32, u32, u32, u32)>)
    requires
        all_fit(monitors@),
    ensures
        r == (match active_monitor(monitors@, pointer) {
            Some(m) => if lies_within(m, width as int, height as int) {
                Some((m.x as u32, m.y as u32, m.width, m.height))
            } else {
                None
            },
            None => None,
        }),
        r matches Some((x, y, w, h)) ==> x + w <= width && y + h <= height && w > 0 && h > 0,
{
    match pointer {
        None => None,
        Some((px, py)) => {
            let found = match monitor_at(monitors, px, py) {
                Some(m) => Some(m),
                None => primary_monitor(monitors),
            };
            match found {
                None => None,
                Some(m) => {
                    if m.x >= 0 && m.y >= 0 && m.x as u64 + m.width as u64 <= width as u64
                        && m.y as u64 + m.height as u64 <= height as u64 && m.width > 0
                        && m.height > 0 {
                        Some((m.x as u32, m.y as u32, m.width, m.height))
                    } else {
                        None
                    }
                },
            }
        },
    }
}

/// A length less a margin; nothing is left of a length that the margin
/// covers.
pub open spec fn with_margin(length: int, margin: int) -> int {
    if length > margin {
        length - margin
    } else {
        0
    }
}

/// The largest window that is asked for on a monitor: some pixels less than
/// the monitor has, since a window of the monitor's own size is shown wrong.
pub fn largest_window(m: MonitorRect) -> (r: (u32, u32))
    ensures
        r.0 == with_margin(m.width as int, 24),
        r.1 == with_margin(m.height as int, 24),
        m.width > 0 ==> r.0 < m.width,
        m.height > 0 ==> r.1 < m.height,
{
    let w: u32 = if m.width > 24 {
        m.width - 24
    } else {
        0
    };
    let h: u32 = if m.height > 24 {
        m.height - 24
    } else {
        0
    };
    (w, h)
}

/// The region from one corner to another, as corner and size. `None` if the
/// corners enclose no pixel.
pub open spec fn region_between(from: (int, int), to: (int, int)) -> Option<(u32, u32, u32, u32)> {
    if from.0 < to.0 && from.1 < to.1 {
        Some((from.0 as u32, from.1 as u32, (to.0 - from.0) as u32, (to.1 - from.1) as u32))
    } else {
        None
    }
}

/// The region between two corners that were picked, as corner and size.
/// `None` if nothing was picked or the corners enclose no pixel.
pub fn selected_region(picked: Option<((u32, u32), (u32, u32))>) -> (r: Option<
    (u32, u32, u32, u32),
>)
    ensures
        r == (match picked {
            Some(((x0, y0), (x1, y1))) => region_between(
                (x0 as int, y0 as int),
                (x1 as int, y1 as int),
            ),
            None => None,
        }),
{
    match picked {
        None => None,
        Some(((x0, y0), (x1, y1))) => {
            if x1 <= x0 || y1 <= y0 {
                None
            } else {
                Some((x0, y0, x1 - x0, y1 - y0))
            }
        },
    }
}

/// A coordinate moved to the nearest one from 0 to `most`.
pub open spec fn clamped(at: int, most: int) -> int {
    if at < 0 {
        0
    } else if at > most {
        most
    } else {
        at
    }
}

fn clamp_to(at: i64, most: u32) -> (r: u32)
    ensures
        r == clamped(at as int, most as int),
{
    if at < 0 {
        0
    } else if at > most as i64 {
        most
    } else {
        at as u32
    }
}

/// The region of a picture between two corners that were picked, which may
/// lie outside the picture: each is moved to the nearest place in it. `None`
/// if that leaves no pixel.
pub fn region_within(width: u32, height: u32, from: (i64, i64), to: (i64, i64)) -> (r: Option<
    (u32, u32, u32, u32),
>)
    ensures
        r == region_between(
            (clamped(from.0 as int, width as int), clamped(from.1 as int, height as int)),
            (clamped(to.0 as int, width as int), clamped(to.1 as int, height as int)),
        ),
        r matches Some((x, y, w, h)) ==> x + w <= width && y + h <= height && w > 0 && h > 0,
{
    selected_region(
        Some(
            (
                (clamp_to(from.0, width), clamp_to(from.1, height)),
                (clamp_to(to.0, width), clamp_to(to.1, height)),
            ),
        ),
    )
}

// ---------------------------------------------------------------------
// Laws
// ---------------------------------------------------------------------

proof fn lemma_first_covering_skip(monitors: Seq<MonitorRect>, i: int, x: int, y: int)
    requires
        0 <= i < monitors.len(),
        monitors[i].covers(x, y),
    ensures
        first_covering(monitors, x, y) is Some,
    decreases i,
{
    if i > 0 {
        assert(monitors.skip(1)[i - 1] == monitors[i]);
        lemma_first_covering_skip(monitors.skip(1), i - 1, x, y);
    }
}

/// The monitor that is found under a point is one of the monitors and the
/// point lies on it.
pub proof fn law_monitor_at_is_sound(monitors: Seq<MonitorRect>, x: int, y: int)
    ensures
        first_covering(monitors, x, y) matches Some(m) ==> m.covers(x, y) && monitors.contains(m),
    decreases monitors.len(),
{
    if monitors.len() > 0 {
        if monitors[0].covers(x, y) {
            assert(monitors.contains(monitors[0]));
        } else {
            law_monitor_at_is_sound(monitors.skip(1), x, y);
            if let Some(m) = first_covering(monitors.skip(1), x, y) {
                let k = choose|k: int| 0 <= k < monitors.skip(1).len() && monitors.skip(1)[k] == m;
                assert(monitors[k + 1] == m);
            }
        }
    }
}

/// A region of which both corners lie in the picture is taken as it was
/// picked.
pub proof fn law_corners_inside_stay(width: int, height: int, from: (int, int), to: (int, int))
    requires
        0 <= from.0 <= width,
        0 <= from.1 <= height,
        0 <= to.0 <= width,
        0 <= to.1 <= height,
    ensures
        region_between(
            (clamped(from.0, width), clamped(from.1, height)),
            (clamped(to.0, width), clamped(to.1, height)),
        ) == region_between(from, to),
{
}

/// A monitor is found under every point that lies on one.
pub proof fn law_monitor_at_is_complete(monitors: Seq<MonitorRect>, x: int, y: int)
    requires
        exists|i: int| 0 <= i < monitors.len() && (#[trigger] monitors[i]).covers(x, y),
    ensures
        first_covering(monitors, x, y) is Some,
{
    let i = choose|i: int| 0 <= i < monitors.len() && (#[trigger] monitors[i]).covers(x, y);
    lemma_first_covering_skip(monitors, i, x, y);
}

proof fn lemma_first_covering_place(monitors: Seq<MonitorRect>, x: int, y: int, k: int)
    requires
        0 <= k < monitors.len(),
        monitors[k].covers(x, y),
        forall|j: int| 0 <= j < k ==> !(#[trigger] monitors[j]).covers(x, y),
    ensures
        first_covering(monitors, x, y) == Some(monitors[k]),
    decreases k,
{
    if k > 0 {
        let rest = monitors.skip(1);
        assert(!monitors[0].covers(x, y));
        assert(rest[k - 1] == monitors[k]);
        assert forall|j: int| 0 <= j < k - 1 implies !(#[trigger] rest[j]).covers(x, y) by {
            assert(rest[j] == monitors[j + 1]);
        }
        lemma_first_covering_place(rest, x, y, k - 1);
    }
}

proof fn lemma_none_covers(monitors: Seq<MonitorRect>, x: int, y: int)
    requires
        forall|j: int| 0 <= j < monitors.len() ==> !(#[trigger] monitors[j]).covers(x, y),
    ensures
        first_covering(monitors, x, y) is None,
    decreases monitors.len(),
{
    if monitors.len() > 0 {
        let rest = monitors.skip(1);
        assert(!monitors[0].covers(x, y));
        assert forall|j: int| 0 <= j < rest.len() implies !(#[trigger] rest[j]).covers(x, y) by {
            assert(rest[j] == monitors[j + 1]);
        }
        lemma_none_covers(rest, x, y);
    }
}

/// Whether a point lies on a monitor: from its near edges up to, but not on,
/// its far edges.
pub proof fn law_covers(m: MonitorRect, x: int, y: int)
    ensures
        m.covers(x, y) <==> m.x <= x && x < m.x + m.width && m.y <= y && y < m.y + m.height,
{
}

/// The monitor at a point is the first that the point lies on, and none where
/// it lies on none.
pub proof fn law_monitor_at(
    monitors: &Vec<MonitorRect>,
    x: i32,
    y: i32,
    r: Option<MonitorRect>,
    k: int,
)
    requires
        all_fit(monitors@),
        call_ensures(monitor_at, (monitors, x, y), r),
    ensures
        0 <= k < monitors@.len() && monitors@[k].covers(x as int, y as int) && (forall|j: int|
            0 <= j < k ==> !(#[trigger] monitors@[j]).covers(x as int, y as int)) ==> r == Some(
            monitors@[k],
        ),
        (forall|j: int|
            0 <= j < monitors@.len() ==> !(#[trigger] monitors@[j]).covers(x as int, y as int))
            ==> r is None,
{
    if 0 <= k < monitors@.len() && monitors@[k].covers(x as int, y as int) && (forall|j: int|
        0 <= j < k ==> !(#[trigger] monitors@[j]).covers(x as int, y as int)) {
        lemma_first_covering_place(monitors@, x as int, y as int, k);
    }
    if forall|j: int|
        0 <= j < monitors@.len() ==> !(#[trigger] monitors@[j]).covers(x as int, y as int) {
        lemma_none_covers(monitors@, x as int, y as int);
    }
}

proof fn lemma_first_primary_place(monitors: Seq<MonitorRect>, k: int)
    requires
        0 <= k < monitors.len(),
        monitors[k].primary,
        forall|j: int| 0 <= j < k ==> !(#[trigger] monitors[j]).primary,
    ensures
        first_primary(monitors) == Some(monitors[k]),
    decreases k,
{
    if k > 0 {
        let rest = monitors.skip(1);
        assert(!monitors[0].primary);
        assert(rest[k - 1] == monitors[k]);
        assert forall|j: int| 0 <= j < k - 1 implies !(#[trigger] rest[j]).primary by {
            assert(rest[j] == monitors[j + 1]);
        }
        lemma_first_primary_place(rest, k - 1);
    }
}

proof fn lemma_no_primary(monitors: Seq<MonitorRect>)
    requires
        forall|j: int| 0 <= j < monitors.len() ==> !(#[trigger] monitors[j]).primary,
    ensures
        first_primary(monitors) is None,
    decreases monitors.len(),
{
    if monitors.len() > 0 {
        let rest = monitors.skip(1);
        assert(!monitors[0].primary);
        assert forall|j: int| 0 <= j < rest.len() implies !(#[trigger] rest[j]).primary by {
            assert(rest[j] == monitors[j + 1]);
        }
        lemma_no_primary(rest);
    }
}

/// The primary monitor is the first that is marked so; where none is, the
/// first one; and none where there is none. By their marks alone the same one
/// is picked.
pub proof fn law_primary_monitor(
    monitors: &Vec<MonitorRect>,
    r: Option<MonitorRect>,
    marks: &Vec<bool>,
    index: Option<usize>,
    k: int,
)
    requires
        call_ensures(primary_monitor, (monitors,), r),
        call_ensures(primary_index, (marks,), index),
        marks@ == monitors@.map_values(|m: MonitorRect| m.primary),
    ensures
        0 <= k < monitors@.len() && monitors@[k].primary && (forall|j: int|
            0 <= j < k ==> !(#[trigger] monitors@[j]).primary) ==> r == Some(monitors@[k]) && index
            == Some(k as usize),
        monitors@.len() > 0 && (forall|j: int|
            0 <= j < monitors@.len() ==> !(#[trigger] monitors@[j]).primary) ==> r == Some(
            monitors@[0],
        ) && index == Some(0usize),
        monitors@.len() == 0 ==> r is None && index is None,
{
    assert forall|j: int| 0 <= j < monitors@.len() implies #[trigger] marks@[j]
        == monitors@[j].primary by {}
    if 0 <= k < monitors@.len() && monitors@[k].primary && (forall|j: int|
        0 <= j < k ==> !(#[trigger] monitors@[j]).primary) {
        lemma_first_primary_place(monitors@, k);
        if let Some(i) = index {
            assert(marks@[k]);
            if i < k {
                assert(!monitors@[i as int].primary);
                assert(!marks@[i as int]);
            }
        }
    }
    if monitors@.len() > 0 && (forall|j: int|
        0 <= j < monitors@.len() ==> !(#[trigger] monitors@[j]).primary) {
        lemma_no_primary(monitors@);
        if let Some(i) = index {
            assert(!monitors@[i as int].primary);
            assert(!marks@[i as int]);
        }
    }
}

/// A screenshot is cut to the monitor under the pointer, or to the primary
/// one where there is none, if it holds that monitor whole; else it is not cut.
pub proof fn law_screenshot_is_cut_to_the_monitor(
    width: u32,
    height: u32,
    pointer: Option<(i32, i32)>,
    monitors: &Vec<MonitorRect>,
    r: Option<(u32, u32, u32, u32)>,
    under: Option<MonitorRect>,
    main: Option<MonitorRect>,
)
    requires
        all_fit(monitors@),
        call_ensures(crop_to_active_monitor, (width, height, pointer, monitors), r),
        pointer matches Some(p) ==> call_ensures(monitor_at, (monitors, p.0, p.1), under),
        call_ensures(primary_monitor, (monitors,), main),
    ensures
        pointer is None ==> r is None,
        pointer is Some ==> ({
            let m = if under is Some { under } else { main };
            &&& m is None ==> r is None
            &&& m is Some && 0 <= m->0.x && 0 <= m->0.y && m->0.width > 0 && m->0.height > 0
                && m->0.x + m->0.width <= width && m->0.y + m->0.height <= height ==> (r matches Some(
                c,
            ) && c.0 == m->0.x && c.1 == m->0.y && c.2 == m->0.width && c.3 == m->0.height)
            &&& m is Some && !(0 <= m->0.x && 0 <= m->0.y && m->0.width > 0 && m->0.height > 0
                && m->0.x + m->0.width <= width && m->0.y + m->0.height <= height) ==> r is None
        }),
{
}

/// The largest window is 24 pixels smaller than the monitor both ways, and
/// nothing on a monitor that is no larger than that.
pub proof fn law_largest_window(m: MonitorRect, r: (u32, u32))
    requires
        call_ensures(largest_window, (m,), r),
    ensures
        m.width >= 24 ==> r.0 == m.width - 24,
        m.width < 24 ==> r.0 == 0,
        m.height >= 24 ==> r.1 == m.height - 24,
        m.height < 24 ==> r.1 == 0,
{
}

/// The region between two corners reaches from the first up to the second,
/// if that encloses a pixel; without corners there is none.
pub proof fn law_selected_region(
    picked: Option<((u32, u32), (u32, u32))>,
    r: Option<(u32, u32, u32, u32)>,
)
    requires
        call_ensures(selected_region, (picked,), r),
    ensures
        picked is None ==> r is None,
        picked matches Some((from, to)) ==> {
            &&& r is Some <==> from.0 < to.0 && from.1 < to.1
            &&& r matches Some(c) ==> c.0 == from.0 && c.1 == from.1 && c.0 + c.2 == to.0 && c.1
                + c.3 == to.1
        },
{
}

/// A corner outside the picture counts as the nearest one in it.
pub proof fn law_region_within(
    width: u32,
    height: u32,
    from: (i64, i64),
    to: (i64, i64),
    r: Option<(u32, u32, u32, u32)>,
)
    requires
        call_ensures(region_within, (width, height, from, to), r),
    ensures
        r matches Some(c) ==> {
            &&& c.0 == (if from.0 < 0 { 0 } else { from.0 })
            &&& c.1 == (if from.1 < 0 { 0 } else { from.1 })
            &&& c.0 + c.2 == (if to.0 > width { width as i64 } else { to.0 })
            &&& c.1 + c.3 == (if to.1 > height { height as i64 } else { to.1 })
        },
        r is Some <==> from.0 < to.0 && from.1 < to.1 && from.0 < width && from.1 < height && to.0
            > 0 && to.1 > 0 && width > 0 && height > 0,
{
}

/// A monitor is as large and where it was reported to be.
pub proof fn law_reported_monitor(
    x: i16,
    y: i16,
    width: u16,
    height: u16,
    primary: bool,
    m: MonitorRect,
)
    requires
        call_ensures(MonitorRect::from_randr, (x, y, width, height, primary), m),
    ensures
        m.x == x,
        m.y == y,
        m.width == width,
        m.height == height,
        m.primary == primary,
{
}

} // verus!

//! The arrangement of outputs: reading it, changing it by dragging, and the
//! configuration that makes it last.
//!
//! An output's size on the desktop depends on its scale. It is part of the
//! monitor, as is the text of its scale and of its refresh rate.

use vstd::math::abs;
use vstd::prelude::*;
use vstd::string::*;

use crate::seqs::{
    find_first, first_index, lemma_filter_keeps, lemma_filter_members, lemma_filter_step,
    lemma_first_index, lemma_first_index_bounds,
};
use crate::text::{
    contains_text, decimal_int, decimal_int_text, ends_with, occurs_at, owned, same, text_before,
    text_contains, text_ends_with, text_less,
};

verus! {

/// How near an edge must be to another to be drawn to it.
pub const SNAP_DISTANCE: i32 = 24;

/// An output.
#[derive(Debug)]
pub struct Monitor {
    pub name: String,
    pub description: String,
    pub width: i32,
    pub height: i32,
    /// The refresh rate in hertz, with two decimals.
    pub refresh_rate: String,
    pub x: i32,
    pub y: i32,
    /// The scale, with four decimals.
    pub scale: String,
    pub transform: i32,
    pub focused: bool,
    pub disabled: bool,
    /// The width on the desktop.
    pub logical_width: i32,
    /// The height on the desktop.
    pub logical_height: i32,
}

impl Clone for Monitor {
    fn clone(&self) -> (r: Self)
        ensures
            r == *self,
    {
        Monitor {
            name: self.name.clone(),
            description: self.description.clone(),
            width: self.width,
            height: self.height,
            refresh_rate: self.refresh_rate.clone(),
            x: self.x,
            y: self.y,
            scale: self.scale.clone(),
            transform: self.transform,
            focused: self.focused,
            disabled: self.disabled,
            logical_width: self.logical_width,
            logical_height: self.logical_height,
        }
    }
}

/// The text of a mode: size and refresh rate.
pub open spec fn mode_text(m: Monitor) -> Seq<char> {
    decimal_int(m.width as int) + "x"@ + decimal_int(m.height as int) + "@"@ + m.refresh_rate@
}

/// The text of a position.
pub open spec fn position_text(m: Monitor) -> Seq<char> {
    decimal_int(m.x as int) + "x"@ + decimal_int(m.y as int)
}

impl Monitor {
    /// The size on the desktop.
    pub fn logical_size(&self) -> (r: (i32, i32))
        ensures
            r == (self.logical_width, self.logical_height),
    {
        (self.logical_width, self.logical_height)
    }

    /// The size of the panel as it is turned: an odd transform swaps the sides.
    pub fn oriented_size(width: i32, height: i32, transform: i32) -> (r: (i32, i32))
        ensures
            r == if transform as int % 2 != 0 {
                (height, width)
            } else {
                (width, height)
            },
    {
        let even: bool = if transform >= 0 {
            transform % 2 == 0
        } else {
            let magnitude: i64 = 0 - transform as i64;
            magnitude % 2 == 0
        };
        if even {
            (width, height)
        } else {
            (height, width)
        }
    }

    /// The text of the mode.
    pub fn mode(&self) -> (r: String)
        ensures
            r@ == mode_text(*self),
    {
        let mut out = decimal_int_text(self.width as i64);
        out.append("x");
        out.append(decimal_int_text(self.height as i64).as_str());
        out.append("@");
        out.append(self.refresh_rate.as_str());
        out
    }

    /// The text of the position.
    fn position(&self) -> (r: String)
        ensures
            r@ == position_text(*self),
    {
        let mut out = decimal_int_text(self.x as i64);
        out.append("x");
        out.append(decimal_int_text(self.y as i64).as_str());
        out
    }
}

/// The outputs, and the name of the main one.
#[derive(Debug)]
pub struct DisplayLayout {
    pub monitors: Vec<Monitor>,
    pub main: String,
}

/// The predicate that holds of monitors that are in use.
pub open spec fn enabled() -> spec_fn(Monitor) -> bool {
    |m: Monitor| !m.disabled
}

/// The predicate that holds of the monitor of a name.
pub open spec fn named(name: Seq<char>) -> spec_fn(Monitor) -> bool {
    |m: Monitor| m.name@ == name
}

/// The predicate that holds of monitors whose name comes after one.
pub open spec fn named_after(name: Seq<char>) -> spec_fn(Monitor) -> bool {
    |m: Monitor| text_less(name, m.name@)
}

/// The predicate that holds of monitors at the origin.
pub open spec fn at_origin() -> spec_fn(Monitor) -> bool {
    |m: Monitor| m.x == 0 && m.y == 0
}

/// The predicate that holds of focused monitors.
pub open spec fn focused() -> spec_fn(Monitor) -> bool {
    |m: Monitor| m.focused
}

/// The monitors ordered by name, those of one name in their order.
pub open spec fn by_name(s: Seq<Monitor>) -> Seq<Monitor>
    decreases s.len(),
{
    if s.len() == 0 {
        s
    } else {
        let t = by_name(s.drop_last());
        t.insert(first_index(t, named_after(s.last().name@)) as int, s.last())
    }
}

/// The name of the main monitor: at the origin, else focused, else the first.
pub open spec fn main_name(s: Seq<Monitor>) -> Seq<char> {
    match find_first(s, at_origin()) {
        Some(m) => m.name@,
        None => match find_first(s, focused()) {
            Some(m) => m.name@,
            None => if s.len() > 0 {
                s[0].name@
            } else {
                Seq::empty()
            },
        },
    }
}

/// Whether two monitors cover a common part of the desktop.
pub open spec fn overlap(a: Monitor, b: Monitor) -> bool {
    &&& a.x < b.x + b.logical_width
    &&& a.x + a.logical_width > b.x
    &&& a.y < b.y + b.logical_height
    &&& a.y + a.logical_height > b.y
}

/// Whether any two monitors cover a common part of the desktop.
pub open spec fn any_overlap(s: Seq<Monitor>) -> bool {
    exists|i: int, j: int| 0 <= i < j < s.len() && overlap(#[trigger] s[i], #[trigger] s[j])
}

/// The distance between two coordinates.
pub open spec fn gap(a: int, b: int) -> int {
    if a < b {
        b - a
    } else {
        a - b
    }
}

/// The candidate nearest to a coordinate within a distance, the first of those
/// that are equally near. A candidate that is no coordinate does not count.
pub open spec fn nearest(candidates: Seq<int>, x: int, distance: int) -> Option<int>
    decreases candidates.len(),
{
    if candidates.len() == 0 {
        None
    } else {
        let best = nearest(candidates.drop_last(), x, distance);
        let c = candidates.last();
        if i32::MIN <= c <= i32::MAX && gap(c, x) <= distance && (best is None || gap(c, x) < gap(
            best->0,
            x,
        )) {
            Some(c)
        } else {
            best
        }
    }
}

/// Where the left edge of something of a width may be drawn to: against the
/// left or the right edge of each monitor of another name.
pub open spec fn left_edges(s: Seq<Monitor>, moving: Seq<char>, width: int) -> Seq<int>
    decreases s.len(),
{
    if s.len() == 0 {
        Seq::empty()
    } else {
        let before = left_edges(s.drop_last(), moving, width);
        let m = s.last();
        if m.name@ == moving {
            before
        } else {
            before.push(m.x - width).push(m.x + m.logical_width)
        }
    }
}

/// Where the upper edge of something of a height may be drawn to.
pub open spec fn upper_edges(s: Seq<Monitor>, moving: Seq<char>, height: int) -> Seq<int>
    decreases s.len(),
{
    if s.len() == 0 {
        Seq::empty()
    } else {
        let before = upper_edges(s.drop_last(), moving, height);
        let m = s.last();
        if m.name@ == moving {
            before
        } else {
            before.push(m.y - height).push(m.y + m.logical_height)
        }
    }
}

/// A coordinate, or what it is drawn to.
pub open spec fn drawn_to(target: Option<int>, x: int) -> int {
    match target {
        Some(c) => c,
        None => x,
    }
}

/// Where a monitor comes to lie when it is dropped at a position.
pub open spec fn snapped(s: Seq<Monitor>, moving: Seq<char>, x: int, y: int, distance: int) -> (
    int,
    int,
) {
    match find_first(s, named(moving)) {
        None => (x, y),
        Some(m) => (
            drawn_to(nearest(left_edges(s, moving, m.logical_width as int), x, distance), x),
            drawn_to(nearest(upper_edges(s, moving, m.logical_height as int), y, distance), y),
        ),
    }
}

/// The better of a candidate and the best so far.
fn nearer(best: Option<i32>, candidate: i64, x: i32, distance: i32) -> (r: Option<i32>)
    ensures
        r == if i32::MIN <= candidate <= i32::MAX && gap(candidate as int, x as int) <= distance
            && (best is None || gap(candidate as int, x as int) < gap(best->0 as int, x as int)) {
            Some(candidate as i32)
        } else {
            best
        },
{
    if candidate < i32::MIN as i64 || candidate > i32::MAX as i64 {
        return best;
    }
    let delta: i64 = if candidate < x as i64 {
        x as i64 - candidate
    } else {
        candidate - x as i64
    };
    if delta > distance as i64 {
        return best;
    }
    match best {
        Some(b) => {
            let current: i64 = if b < x {
                x as i64 - b as i64
            } else {
                b as i64 - x as i64
            };
            if delta < current {
                Some(candidate as i32)
            } else {
                best
            }
        },
        None => Some(candidate as i32),
    }
}

/// An optional coordinate as a number.
pub open spec fn opt_int(v: Option<i32>) -> Option<int> {
    match v {
        Some(n) => Some(n as int),
        None => None,
    }
}

/// Where a monitor comes to lie when it is dropped at a position: each edge is
/// drawn to the nearest edge of another monitor within the distance.
pub fn snapped_position(
    layout: &DisplayLayout,
    moving_name: &str,
    x: i32,
    y: i32,
    distance: i32,
) -> (r: (i32, i32))
    ensures
        (r.0 as int, r.1 as int) == snapped(
            layout.monitors@,
            moving_name@,
            x as int,
            y as int,
            distance as int,
        ),
{
    let ghost s = layout.monitors@;
    let (width, height) = match layout.monitor(moving_name) {
        Some(moving) => moving.logical_size(),
        None => {
            return (x, y);
        },
    };
    let mut best_x: Option<i32> = None;
    let mut best_y: Option<i32> = None;
    let mut i: usize = 0;
    proof {
        assert(s.take(0) =~= Seq::empty());
    }
    while i < layout.monitors.len()
        invariant
            i <= layout.monitors.len(),
            s == layout.monitors@,
            opt_int(best_x) == nearest(
                left_edges(s.take(i as int), moving_name@, width as int),
                x as int,
                distance as int,
            ),
            opt_int(best_y) == nearest(
                upper_edges(s.take(i as int), moving_name@, height as int),
                y as int,
                distance as int,
            ),
        decreases layout.monitors.len() - i,
    {
        let other = &layout.monitors[i];
        proof {
            assert(s.take(i + 1).drop_last() =~= s.take(i as int));
            assert(s.take(i + 1).last() == *other);
        }
        if !same(other.name.as_str(), moving_name) {
            let (other_width, other_height) = other.logical_size();
            let ghost xs = left_edges(s.take(i as int), moving_name@, width as int);
            let ghost ys = upper_edges(s.take(i as int), moving_name@, height as int);
            let left: i64 = other.x as i64 - width as i64;
            let right: i64 = other.x as i64 + other_width as i64;
            let above: i64 = other.y as i64 - height as i64;
            let below: i64 = other.y as i64 + other_height as i64;
            proof {
                assert(xs.push(left as int).drop_last() =~= xs);
                assert(xs.push(left as int).push(right as int).drop_last() =~= xs.push(left as int));
                assert(ys.push(above as int).drop_last() =~= ys);
                assert(ys.push(above as int).push(below as int).drop_last() =~= ys.push(
                    above as int,
                ));
            }
            best_x = nearer(best_x, left, x, distance);
            best_y = nearer(best_y, above, y, distance);
            proof {
                assert(opt_int(best_x) == nearest(xs.push(left as int), x as int, distance as int));
                assert(opt_int(best_y) == nearest(ys.push(above as int), y as int, distance as int));
            }
            best_x = nearer(best_x, right, x, distance);
            best_y = nearer(best_y, below, y, distance);
        }
        i += 1;
    }
    proof {
        assert(s.take(i as int) =~= s);
    }
    let snapped_x: i32 = match best_x {
        Some(value) => value,
        None => x,
    };
    let snapped_y: i32 = match best_y {
        Some(value) => value,
        None => y,
    };
    (snapped_x, snapped_y)
}

/// Whether two monitors cover a common part of the desktop.
fn rectangles_overlap(left: &Monitor, right: &Monitor) -> (r: bool)
    ensures
        r == overlap(*left, *right),
{
    let (left_width, left_height) = left.logical_size();
    let (right_width, right_height) = right.logical_size();
    (left.x as i64) < right.x as i64 + right_width as i64 && left.x as i64 + left_width as i64
        > right.x as i64 && (left.y as i64) < right.y as i64 + right_height as i64 && left.y as i64
        + left_height as i64 > right.y as i64
}

/// Whether every monitor can be moved so that one comes to the origin.
pub open spec fn shift_fits(s: Seq<Monitor>, main: Monitor) -> bool {
    forall|i: int|
        0 <= i < s.len() ==> i32::MIN <= (#[trigger] s[i]).x - main.x <= i32::MAX && i32::MIN
            <= s[i].y - main.y <= i32::MAX
}

/// The monitor moved so that another comes to the origin.
pub open spec fn shifted(m: Monitor, main: Monitor) -> Monitor {
    Monitor { x: (m.x - main.x) as i32, y: (m.y - main.y) as i32, ..m }
}

impl Default for DisplayLayout {
    fn default() -> (r: Self)
        ensures
            r.monitors@.len() == 0,
            r.main@.len() == 0,
    {
        DisplayLayout { monitors: Vec::new(), main: String::new() }
    }
}

impl DisplayLayout {
    /// The layout of the monitors that are in use, by name.
    pub fn from_monitors(monitors: Vec<Monitor>) -> (r: Self)
        ensures
            r.monitors@ == by_name(monitors@.filter(enabled())),
            r.main@ == main_name(r.monitors@),
    {
        let ghost items = monitors@;
        let ghost p = enabled();
        let mut used: Vec<Monitor> = Vec::new();
        let mut i: usize = 0;
        proof {
            assert(items.take(0).filter(p) =~= Seq::empty()) by {
                reveal(Seq::filter);
            }
            assert(by_name(Seq::empty()) == Seq::<Monitor>::empty());
        }
        while i < monitors.len()
            invariant
                i <= monitors.len(),
                items == monitors@,
                p == enabled(),
                used@ == by_name(items.take(i as int).filter(p)),
            decreases monitors.len() - i,
        {
            let ghost f = items.take(i as int).filter(p);
            proof {
                lemma_filter_step(items, p, i as int);
            }
            if !monitors[i].disabled {
                let monitor = monitors[i].clone();
                proof {
                    assert(f.push(monitor).drop_last() =~= f);
                }
                let ghost q = named_after(monitor.name@);
                let mut k: usize = 0;
                while k < used.len() && !text_before(monitor.name.as_str(), used[k].name.as_str())
                    invariant
                        k <= used.len(),
                        q == named_after(monitor.name@),
                        forall|j: int| 0 <= j < k ==> !q(#[trigger] used@[j]),
                    decreases used.len() - k,
                {
                    k += 1;
                }
                proof {
                    lemma_first_index(used@, q, k as nat);
                }
                used.insert(k, monitor);
            }
            i += 1;
        }
        proof {
            assert(items.take(i as int) =~= items);
        }
        let main = choose_main(&used);
        DisplayLayout { monitors: used, main }
    }

    /// The monitor of a name.
    pub fn monitor(&self, name: &str) -> (r: Option<&Monitor>)
        ensures
            match r {
                Some(m) => find_first(self.monitors@, named(name@)) == Some(*m),
                None => find_first(self.monitors@, named(name@)) is None,
            },
    {
        let i: usize = self.index_of(name);
        if i < self.monitors.len() {
            Some(&self.monitors[i])
        } else {
            None
        }
    }

    /// The index of the monitor of a name, or the number of monitors.
    fn index_of(&self, name: &str) -> (r: usize)
        ensures
            r == first_index(self.monitors@, named(name@)),
            r <= self.monitors@.len(),
    {
        let mut i: usize = 0;
        while i < self.monitors.len() && !same(self.monitors[i].name.as_str(), name)
            invariant
                i <= self.monitors.len(),
                forall|j: int| 0 <= j < i ==> !named(name@)(#[trigger] self.monitors@[j]),
            decreases self.monitors.len() - i,
        {
            i += 1;
        }
        proof {
            lemma_first_index(self.monitors@, named(name@), i as nat);
        }
        i
    }

    /// Whether every position remains a coordinate when a monitor becomes the
    /// main one.
    pub fn can_normalize_main(&self, name: &str) -> (r: bool)
        ensures
            r == match find_first(self.monitors@, named(name@)) {
                Some(main) => shift_fits(self.monitors@, main),
                None => true,
            },
    {
        let k: usize = self.index_of(name);
        if k >= self.monitors.len() {
            return true;
        }
        let mx: i64 = self.monitors[k].x as i64;
        let my: i64 = self.monitors[k].y as i64;
        let mut i: usize = 0;
        while i < self.monitors.len()
            invariant
                i <= self.monitors.len(),
                k < self.monitors.len(),
                find_first(self.monitors@, named(name@)) == Some(self.monitors@[k as int]),
                mx == self.monitors@[k as int].x,
                my == self.monitors@[k as int].y,
                forall|j: int|
                    0 <= j < i ==> i32::MIN <= (#[trigger] self.monitors@[j]).x - mx <= i32::MAX
                        && i32::MIN <= self.monitors@[j].y - my <= i32::MAX,
            decreases self.monitors.len() - i,
        {
            let dx: i64 = self.monitors[i].x as i64 - mx;
            let dy: i64 = self.monitors[i].y as i64 - my;
            if dx < i32::MIN as i64 || dx > i32::MAX as i64 || dy < i32::MIN as i64 || dy
                > i32::MAX as i64 {
                proof {
                    assert(!shift_fits(self.monitors@, self.monitors@[k as int]));
                }
                return false;
            }
            i += 1;
        }
        true
    }

    /// Makes a monitor the main one, at the origin; all move along with it.
    pub fn normalize_main(&mut self, name: &str) -> (r: bool)
        requires
            find_first(old(self).monitors@, named(name@)) matches Some(main) ==> shift_fits(
                old(self).monitors@,
                main,
            ),
        ensures
            match find_first(old(self).monitors@, named(name@)) {
                Some(main) => {
                    &&& r
                    &&& final(self).main@ == name@
                    &&& final(self).monitors@ == old(self).monitors@.map_values(
                        |m: Monitor| shifted(m, main),
                    )
                },
                None => !r && *final(self) == *old(self),
            },
            final(self).monitors@.len() == old(self).monitors@.len(),
            forall|i: int, j: int|
                #![trigger final(self).monitors@[i], final(self).monitors@[j]]
                0 <= i < old(self).monitors@.len() && 0 <= j < old(self).monitors@.len() ==> {
                    &&& final(self).monitors@[i].x - final(self).monitors@[j].x
                        == old(self).monitors@[i].x - old(self).monitors@[j].x
                    &&& final(self).monitors@[i].y - final(self).monitors@[j].y
                        == old(self).monitors@[i].y - old(self).monitors@[j].y
                },
            r ==> exists|i: int|
                0 <= i < final(self).monitors@.len() && (#[trigger] final(self).monitors@[i]).name@
                    == name@ && final(self).monitors@[i].x == 0 && final(self).monitors@[i].y == 0,
    {
        let k: usize = self.index_of(name);
        if k >= self.monitors.len() {
            return false;
        }
        let ghost main = self.monitors@[k as int];
        let ghost s = self.monitors@;
        let main_x: i32 = self.monitors[k].x;
        let main_y: i32 = self.monitors[k].y;
        let mut i: usize = 0;
        while i < self.monitors.len()
            invariant
                i <= self.monitors.len(),
                self.monitors@.len() == s.len(),
                main_x == main.x,
                main_y == main.y,
                shift_fits(s, main),
                forall|j: int| 0 <= j < i ==> self.monitors@[j] == shifted(s[j], main),
                forall|j: int| i <= j < s.len() ==> self.monitors@[j] == s[j],
            decreases self.monitors.len() - i,
        {
            proof {
                assert(self.monitors@[i as int] == s[i as int]);
            }
            let mx: i32 = self.monitors[i].x - main_x;
            let my: i32 = self.monitors[i].y - main_y;
            self.monitors[i].x = mx;
            self.monitors[i].y = my;
            i += 1;
        }
        self.main = owned(name);
        proof {
            assert(self.monitors@ =~= s.map_values(|m: Monitor| shifted(m, main)));
            assert(self.monitors@[k as int] == shifted(s[k as int], main));
            lemma_first_index_bounds(s, named(name@));
        }
        true
    }

    /// Moves a monitor other than the main one to where it comes to lie when
    /// it is dropped at a position.
    pub fn move_monitor(&mut self, name: &str, x: i32, y: i32) -> (r: bool)
        ensures
            final(self).main == old(self).main,
            ({
                let s = old(self).monitors@;
                let i = first_index(s, named(name@)) as int;
                let p = snapped(s, name@, x as int, y as int, SNAP_DISTANCE as int);
                if name@ == old(self).main@ || i >= s.len() {
                    !r && final(self).monitors@ == s
                } else {
                    &&& r
                    &&& final(self).monitors@ == s.update(
                        i,
                        Monitor { x: p.0 as i32, y: p.1 as i32, ..s[i] },
                    )
                }
            }),
            final(self).monitors@.len() == old(self).monitors@.len(),
            forall|i: int|
                0 <= i < old(self).monitors@.len() && (old(self).monitors@[i].name@ != name@
                    || name@ == old(self).main@) ==> #[trigger] final(self).monitors@[i]
                    == old(self).monitors@[i],
    {
        if same(name, self.main.as_str()) {
            return false;
        }
        let i: usize = self.index_of(name);
        if i >= self.monitors.len() {
            return false;
        }
        proof {
            lemma_first_index_bounds(self.monitors@, named(name@));
        }
        let (snapped_x, snapped_y) = snapped_position(self, name, x, y, SNAP_DISTANCE);
        self.monitors[i].x = snapped_x;
        self.monitors[i].y = snapped_y;
        true
    }

    /// Whether any two monitors cover a common part of the desktop.
    pub fn overlaps(&self) -> (r: bool)
        ensures
            r == any_overlap(self.monitors@),
    {
        let ghost s = self.monitors@;
        let mut i: usize = 0;
        while i < self.monitors.len()
            invariant
                i <= self.monitors.len(),
                s == self.monitors@,
                forall|a: int, b: int|
                    0 <= a < i && a < b < s.len() ==> !overlap(#[trigger] s[a], #[trigger] s[b]),
            decreases self.monitors.len() - i,
        {
            let mut j: usize = i + 1;
            while j < self.monitors.len()
                invariant
                    i < j <= self.monitors.len(),
                    s == self.monitors@,
                    forall|b: int| i < b < j ==> !overlap(s[i as int], #[trigger] s[b]),
                decreases self.monitors.len() - j,
            {
                if rectangles_overlap(&self.monitors[i], &self.monitors[j]) {
                    proof {
                        assert(overlap(s[i as int], s[j as int]));
                    }
                    return true;
                }
                j += 1;
            }
            i += 1;
        }
        false
    }
}

/// The name of the main monitor.
fn choose_main(monitors: &Vec<Monitor>) -> (r: String)
    ensures
        r@ == main_name(monitors@),
{
    let ghost s = monitors@;
    let mut i: usize = 0;
    while i < monitors.len() && !(monitors[i].x == 0 && monitors[i].y == 0)
        invariant
            i <= monitors.len(),
            s == monitors@,
            forall|j: int| 0 <= j < i ==> !at_origin()(#[trigger] s[j]),
        decreases monitors.len() - i,
    {
        i += 1;
    }
    proof {
        lemma_first_index(s, at_origin(), i as nat);
    }
    if i < monitors.len() {
        return monitors[i].name.clone();
    }
    let mut k: usize = 0;
    while k < monitors.len() && !monitors[k].focused
        invariant
            k <= monitors.len(),
            s == monitors@,
            forall|j: int| 0 <= j < k ==> !focused()(#[trigger] s[j]),
        decreases monitors.len() - k,
    {
        k += 1;
    }
    proof {
        lemma_first_index(s, focused(), k as nat);
    }
    if k < monitors.len() {
        return monitors[k].name.clone();
    }
    if monitors.len() > 0 {
        return monitors[0].name.clone();
    }
    String::new()
}

/// Why a layout cannot be applied.
#[derive(Clone, Copy, Debug, PartialEq, Eq, Structural)]
pub enum LayoutError {
    NoMonitors,
    NoMain,
    Overlap,
}

impl LayoutError {
    /// The message of the error.
    pub fn message(self) -> (r: &'static str)
        ensures
            r@ == match self {
                LayoutError::NoMonitors => "no active monitors are available"@,
                LayoutError::NoMain => "a main monitor must be selected"@,
                LayoutError::Overlap => "monitor panels overlap; separate them before applying"@,
            },
    {
        match self {
            LayoutError::NoMonitors => "no active monitors are available",
            LayoutError::NoMain => "a main monitor must be selected",
            LayoutError::Overlap => "monitor panels overlap; separate them before applying",
        }
    }
}

/// Whether a main monitor is selected.
pub open spec fn has_main(layout: DisplayLayout) -> bool {
    layout.main@.len() > 0 && find_first(layout.monitors@, named(layout.main@)) is Some
}

/// Checks that a layout can be applied.
pub fn check_layout(layout: &DisplayLayout) -> (r: Result<(), LayoutError>)
    ensures
        r is Ok <==> layout.monitors@.len() > 0 && has_main(*layout) && !any_overlap(
            layout.monitors@,
        ),
        r == Err::<(), LayoutError>(LayoutError::NoMonitors) <==> layout.monitors@.len() == 0,
        r == Err::<(), LayoutError>(LayoutError::NoMain) <==> layout.monitors@.len() > 0
            && !has_main(*layout),
        r == Err::<(), LayoutError>(LayoutError::Overlap) <==> layout.monitors@.len() > 0
            && has_main(*layout) && any_overlap(layout.monitors@),
{
    if layout.monitors.len() == 0 {
        return Err(LayoutError::NoMonitors);
    }
    if layout.main.as_str().is_empty() || layout.monitor(layout.main.as_str()).is_none() {
        return Err(LayoutError::NoMain);
    }
    if layout.overlaps() {
        return Err(LayoutError::Overlap);
    }
    Ok(())
}

/// The compositor's configuration with the generated layout loaded by it.
pub open spec fn with_generated_layout(source: Seq<char>) -> Seq<char> {
    if contains_text(source, "require(\"bah_displays\")"@) {
        source
    } else if ends_with(source, "\n"@) {
        source + "-- bah: display-layout\nrequire(\"bah_displays\")\n"@
    } else {
        source + "\n"@ + "-- bah: display-layout\nrequire(\"bah_displays\")\n"@
    }
}

/// The compositor's configuration with the generated layout loaded by it, where
/// it has to change for that.
pub fn updated_config(source: &str) -> (r: Option<String>)
    ensures
        match r {
            Some(text) => !contains_text(source@, "require(\"bah_displays\")"@) && text@
                == with_generated_layout(source@),
            None => contains_text(source@, "require(\"bah_displays\")"@),
        },
{
    if text_contains(source, "require(\"bah_displays\")") {
        return None;
    }
    let mut updated = owned(source);
    if !text_ends_with(source, "\n") {
        updated.append("\n");
    }
    updated.append("-- bah: display-layout\nrequire(\"bah_displays\")\n");
    Some(updated)
}

/// Whether a layout has the monitors of another at the same positions.
pub open spec fn same_positions(expected: Seq<Monitor>, actual: Seq<Monitor>) -> bool {
    forall|i: int|
        0 <= i < expected.len() ==> (find_first(actual, named((#[trigger] expected[i]).name@)) matches Some(
            m,
        ) && m.x == expected[i].x && m.y == expected[i].y)
}

/// Whether a layout has the monitors of another at the same positions.
pub fn positions_match(expected: &DisplayLayout, actual: &DisplayLayout) -> (r: bool)
    ensures
        r == same_positions(expected.monitors@, actual.monitors@),
{
    let ghost s = expected.monitors@;
    let mut i: usize = 0;
    while i < expected.monitors.len()
        invariant
            i <= expected.monitors.len(),
            s == expected.monitors@,
            forall|j: int|
                0 <= j < i ==> (find_first(actual.monitors@, named((#[trigger] s[j]).name@)) matches Some(
                    m,
                ) && m.x == s[j].x && m.y == s[j].y),
        decreases expected.monitors.len() - i,
    {
        let monitor = &expected.monitors[i];
        let matched = match actual.monitor(monitor.name.as_str()) {
            Some(current) => current.x == monitor.x && current.y == monitor.y,
            None => false,
        };
        if !matched {
            proof {
                assert(s[i as int] == *monitor);
            }
            return false;
        }
        i += 1;
    }
    true
}

/// The hexadecimal digit of a number.
pub open spec fn hex_char(d: int) -> char {
    if d < 10 {
        (48 + d) as char
    } else {
        (87 + d) as char
    }
}

/// How a character stands in a quoted text.
pub open spec fn escaped(c: char) -> Seq<char> {
    let u = c as u32;
    if c == '"' {
        seq!['\\', '"']
    } else if c == '\\' {
        seq!['\\', '\\']
    } else if u == 8 {
        seq!['\\', 'b']
    } else if u == 9 {
        seq!['\\', 't']
    } else if u == 10 {
        seq!['\\', 'n']
    } else if u == 12 {
        seq!['\\', 'f']
    } else if u == 13 {
        seq!['\\', 'r']
    } else if u < 32 {
        seq!['\\', 'u', '0', '0', hex_char(u as int / 16), hex_char(u as int % 16)]
    } else {
        seq![c]
    }
}

/// The characters of a text as they stand in a quoted text.
pub open spec fn escaped_text(s: Seq<char>) -> Seq<char>
    decreases s.len(),
{
    if s.len() == 0 {
        Seq::empty()
    } else {
        escaped_text(s.drop_last()) + escaped(s.last())
    }
}

/// A text in quotes.
pub open spec fn quoted(s: Seq<char>) -> Seq<char> {
    seq!['"'] + escaped_text(s) + seq!['"']
}

/// `serde_json::to_string` of a text: the text in quotes, with the quote, the
/// backslash and the control characters below the space escaped.
#[verifier::external_body]
pub(crate) fn lua_string(value: &str) -> (r: String)
    ensures
        r@ == quoted(value@),
{
    serde_json::to_string(value).expect("strings always serialize")
}

/// The line that configures a monitor.
pub open spec fn monitor_line(m: Monitor) -> Seq<char> {
    "hl.monitor({ output = "@ + quoted(m.name@) + ", mode = "@ + quoted(mode_text(m))
        + ", position = "@ + quoted(position_text(m)) + ", scale = "@ + m.scale@ + ", transform = "@
        + decimal_int(m.transform as int) + " })\n"@
}

/// The lines that configure some monitors.
pub open spec fn monitor_lines(s: Seq<Monitor>) -> Seq<char>
    decreases s.len(),
{
    if s.len() == 0 {
        Seq::empty()
    } else {
        monitor_lines(s.drop_last()) + monitor_line(s.last())
    }
}

/// The generated configuration of a layout.
pub open spec fn layout_lua(layout: DisplayLayout) -> Seq<char> {
    "-- Generated by Bah. Changes will be replaced.\n\n"@ + monitor_lines(layout.monitors@)
        + "\nhl.workspace_rule({ workspace = \"1\", monitor = "@ + quoted(layout.main@)
        + ", default = true })\n"@
}

/// The line that configures a monitor.
fn monitor_text(monitor: &Monitor) -> (r: String)
    ensures
        r@ == monitor_line(*monitor),
{
    let mut result = owned("hl.monitor({ output = ");
    result.append(lua_string(monitor.name.as_str()).as_str());
    result.append(", mode = ");
    result.append(lua_string(monitor.mode().as_str()).as_str());
    result.append(", position = ");
    result.append(lua_string(monitor.position().as_str()).as_str());
    result.append(", scale = ");
    result.append(monitor.scale.as_str());
    result.append(", transform = ");
    result.append(decimal_int_text(monitor.transform as i64).as_str());
    result.append(" })\n");
    result
}

/// The generated configuration of a layout.
pub fn render_layout_lua(layout: &DisplayLayout) -> (r: String)
    ensures
        r@ == layout_lua(*layout),
{
    let ghost s = layout.monitors@;
    let mut result = owned("-- Generated by Bah. Changes will be replaced.\n\n");
    let ghost head = result@;
    let mut i: usize = 0;
    proof {
        assert(s.take(0) =~= Seq::empty());
        assert(result@ =~= head + monitor_lines(s.take(0)));
    }
    while i < layout.monitors.len()
        invariant
            i <= layout.monitors.len(),
            s == layout.monitors@,
            result@ == head + monitor_lines(s.take(i as int)),
        decreases layout.monitors.len() - i,
    {
        let monitor = &layout.monitors[i];
        proof {
            assert(s.take(i + 1).drop_last() =~= s.take(i as int));
            assert(s.take(i + 1).last() == *monitor);
        }
        result.append(monitor_text(monitor).as_str());
        proof {
            assert(result@ =~= head + monitor_lines(s.take(i + 1)));
        }
        i += 1;
    }
    proof {
        assert(s.take(i as int) =~= s);
    }
    result.append("\nhl.workspace_rule({ workspace = \"1\", monitor = ");
    result.append(lua_string(layout.main.as_str()).as_str());
    result.append(", default = true })\n");
    result
}

/// What is to follow once the compositor has reloaded its configuration.
#[derive(Debug)]
pub enum AfterReload {
    /// The layout is in force: the first workspace moves by this command.
    Finish(String),
    /// It is not, for this reason: the former configuration is to be restored.
    Rollback(String),
}

/// What is to follow once the compositor has reloaded its configuration, from
/// the layout that it then reports.
pub fn after_reload(expected: &DisplayLayout, actual: Result<&DisplayLayout, String>) -> (r:
    AfterReload)
    ensures
        match actual {
            Ok(a) => if same_positions(expected.monitors@, a.monitors@) {
                r matches AfterReload::Finish(command) && command@
                    == "hl.dsp.workspace.move({ workspace = \"1\", monitor = "@ + quoted(
                    expected.main@,
                ) + " })"@
            } else {
                r matches AfterReload::Rollback(reason) && reason@
                    == "Hyprland reported a different monitor layout"@
            },
            Err(error) => r matches AfterReload::Rollback(reason) && reason@ == error@,
        },
{
    match actual {
        Ok(layout) => if positions_match(expected, layout) {
            let mut command = owned("hl.dsp.workspace.move({ workspace = \"1\", monitor = ");
            command.append(lua_string(expected.main.as_str()).as_str());
            command.append(" })");
            AfterReload::Finish(command)
        } else {
            AfterReload::Rollback(owned("Hyprland reported a different monitor layout"))
        },
        Err(error) => AfterReload::Rollback(error),
    }
}

/// An output's own wallpaper.
#[derive(Debug)]
pub struct OutputWallpaper {
    pub output: String,
    pub path: String,
}

/// The predicate that holds of the wallpaper of an output.
pub open spec fn of_output(output: Seq<char>) -> spec_fn(OutputWallpaper) -> bool {
    |w: OutputWallpaper| w.output@ == output
}

/// The wallpaper of an output: its own, or the shared one.
pub open spec fn wallpaper_of(
    output: Seq<char>,
    own: Seq<OutputWallpaper>,
    shared: Option<Seq<char>>,
) -> Option<Seq<char>> {
    match find_first(own, of_output(output)) {
        Some(w) => Some(w.path@),
        None => shared,
    }
}

/// The outputs that have a wallpaper, each with it.
pub open spec fn wallpapers_of(
    s: Seq<Monitor>,
    own: Seq<OutputWallpaper>,
    shared: Option<Seq<char>>,
) -> Seq<(Seq<char>, Seq<char>)>
    decreases s.len(),
{
    if s.len() == 0 {
        Seq::empty()
    } else {
        let before = wallpapers_of(s.drop_last(), own, shared);
        match wallpaper_of(s.last().name@, own, shared) {
            Some(path) => before.push((s.last().name@, path)),
            None => before,
        }
    }
}

/// The contents of some wallpapers.
pub open spec fn wallpaper_views(s: Seq<OutputWallpaper>) -> Seq<(Seq<char>, Seq<char>)> {
    s.map_values(|w: OutputWallpaper| (w.output@, w.path@))
}

/// The outputs that have a wallpaper, each with it: its own takes precedence
/// over the shared one.
pub fn wallpaper_sources(
    layout: &DisplayLayout,
    wallpapers: &Vec<OutputWallpaper>,
    fallback: &Option<String>,
) -> (r: Vec<OutputWallpaper>)
    ensures
        wallpaper_views(r@) == wallpapers_of(
            layout.monitors@,
            wallpapers@,
            crate::text::opt_view(*fallback),
        ),
{
    let ghost s = layout.monitors@;
    let ghost shared = crate::text::opt_view(*fallback);
    let mut out: Vec<OutputWallpaper> = Vec::new();
    let mut i: usize = 0;
    proof {
        assert(s.take(0) =~= Seq::empty());
        assert(wallpaper_views(out@) =~= Seq::empty());
    }
    while i < layout.monitors.len()
        invariant
            i <= layout.monitors.len(),
            s == layout.monitors@,
            shared == crate::text::opt_view(*fallback),
            wallpaper_views(out@) == wallpapers_of(s.take(i as int), wallpapers@, shared),
        decreases layout.monitors.len() - i,
    {
        let ghost before = out@;
        let name = &layout.monitors[i].name;
        proof {
            assert(s.take(i + 1).drop_last() =~= s.take(i as int));
            assert(s.take(i + 1).last() == s[i as int]);
        }
        let mut k: usize = 0;
        while k < wallpapers.len() && !same(wallpapers[k].output.as_str(), name.as_str())
            invariant
                k <= wallpapers.len(),
                forall|j: int| 0 <= j < k ==> !of_output(name@)(#[trigger] wallpapers@[j]),
            decreases wallpapers.len() - k,
        {
            k += 1;
        }
        proof {
            lemma_first_index(wallpapers@, of_output(name@), k as nat);
        }
        let chosen: Option<String> = if k < wallpapers.len() {
            Some(wallpapers[k].path.clone())
        } else {
            fallback.clone()
        };
        if let Some(path) = chosen {
            out.push(OutputWallpaper { output: name.clone(), path });
            proof {
                assert(wallpaper_views(out@) =~= wallpaper_views(before).push((name@, path@)));
            }
        }
        i += 1;
    }
    proof {
        assert(s.take(i as int) =~= s);
    }
    out
}

/// Dragging is symmetric in what overlaps: whether two monitors overlap does
/// not depend on their order.
pub proof fn law_overlap_symmetric(a: Monitor, b: Monitor)
    ensures
        overlap(a, b) == overlap(b, a),
{
}

/// What an edge is drawn to lies within the distance, and no other candidate
/// is nearer.
pub proof fn law_nearest(candidates: Seq<int>, x: int, distance: int)
    ensures
        match nearest(candidates, x, distance) {
            Some(c) => {
                &&& candidates.contains(c)
                &&& gap(c, x) <= distance
                &&& forall|i: int|
                    0 <= i < candidates.len() && i32::MIN <= (#[trigger] candidates[i]) <= i32::MAX
                        ==> gap(c, x) <= gap(candidates[i], x)
            },
            None => forall|i: int|
                0 <= i < candidates.len() && i32::MIN <= (#[trigger] candidates[i]) <= i32::MAX
                    ==> gap(candidates[i], x) > distance,
        },
    decreases candidates.len(),
{
    if candidates.len() > 0 {
        let t = candidates.drop_last();
        law_nearest(t, x, distance);
        assert forall|i: int| 0 <= i < t.len() implies t[i] == candidates[i] by {}
        match nearest(candidates, x, distance) {
            Some(c) => {
                if t.contains(c) {
                    let k = choose|k: int| 0 <= k < t.len() && t[k] == c;
                    assert(candidates[k] == c);
                } else {
                    assert(candidates[candidates.len() - 1] == c);
                }
                assert forall|i: int|
                    0 <= i < candidates.len() && i32::MIN <= (#[trigger] candidates[i])
                        <= i32::MAX implies gap(c, x) <= gap(candidates[i], x) by {
                    if i < t.len() {
                        assert(t[i] == candidates[i]);
                    }
                }
            },
            None => {
                assert forall|i: int|
                    0 <= i < candidates.len() && i32::MIN <= (#[trigger] candidates[i])
                        <= i32::MAX implies gap(candidates[i], x) > distance by {
                    if i < t.len() {
                        assert(t[i] == candidates[i]);
                    }
                }
            },
        }
    }
}

/// A monitor that is dropped comes to lie at most the distance away from where
/// it is dropped, in each direction.
pub proof fn law_snapping_stays_near(
    s: Seq<Monitor>,
    moving: Seq<char>,
    x: int,
    y: int,
    distance: int,
)
    requires
        0 <= distance,
    ensures
        gap(snapped(s, moving, x, y, distance).0, x) <= distance,
        gap(snapped(s, moving, x, y, distance).1, y) <= distance,
{
    match find_first(s, named(moving)) {
        Some(m) => {
            law_nearest(left_edges(s, moving, m.logical_width as int), x, distance);
            law_nearest(upper_edges(s, moving, m.logical_height as int), y, distance);
        },
        None => {},
    }
}

/// The left edge of another monitor, moved by a width, and its right edge are among
/// what a left edge may be drawn to.
proof fn lemma_edge_listed(s: Seq<Monitor>, moving: Seq<char>, width: int, i: int) -> (k: int)
    requires
        0 <= i < s.len(),
        s[i].name@ != moving,
    ensures
        0 <= k,
        k + 1 < left_edges(s, moving, width).len(),
        left_edges(s, moving, width)[k] == s[i].x - width,
        left_edges(s, moving, width)[k + 1] == s[i].x + s[i].logical_width,
    decreases s.len(),
{
    let rest = s.drop_last();
    if i < rest.len() {
        lemma_edge_listed(rest, moving, width, i)
    } else {
        left_edges(rest, moving, width).len() as int
    }
}

/// What a left edge may be drawn to is the left edge of another monitor, moved by
/// the width, or its right edge.
proof fn lemma_edge_origin(s: Seq<Monitor>, moving: Seq<char>, width: int, k: int) -> (i: int)
    requires
        0 <= k < left_edges(s, moving, width).len(),
    ensures
        0 <= i < s.len(),
        s[i].name@ != moving,
        left_edges(s, moving, width)[k] == s[i].x - width || left_edges(s, moving, width)[k]
            == s[i].x + s[i].logical_width,
    decreases s.len(),
{
    let rest = s.drop_last();
    if k < left_edges(rest, moving, width).len() {
        lemma_edge_origin(rest, moving, width, k)
    } else {
        s.len() - 1
    }
}

/// The upper edge of another monitor, moved by a height, and its lower edge are among
/// what an upper edge may be drawn to.
proof fn lemma_upper_edge_listed(s: Seq<Monitor>, moving: Seq<char>, height: int, i: int) -> (k: int)
    requires
        0 <= i < s.len(),
        s[i].name@ != moving,
    ensures
        0 <= k,
        k + 1 < upper_edges(s, moving, height).len(),
        upper_edges(s, moving, height)[k] == s[i].y - height,
        upper_edges(s, moving, height)[k + 1] == s[i].y + s[i].logical_height,
    decreases s.len(),
{
    let rest = s.drop_last();
    if i < rest.len() {
        lemma_upper_edge_listed(rest, moving, height, i)
    } else {
        upper_edges(rest, moving, height).len() as int
    }
}

/// What an upper edge may be drawn to is the upper edge of another monitor, moved by
/// the height, or its lower edge.
proof fn lemma_upper_edge_origin(s: Seq<Monitor>, moving: Seq<char>, height: int, k: int) -> (i: int)
    requires
        0 <= k < upper_edges(s, moving, height).len(),
    ensures
        0 <= i < s.len(),
        s[i].name@ != moving,
        upper_edges(s, moving, height)[k] == s[i].y - height || upper_edges(s, moving, height)[k]
            == s[i].y + s[i].logical_height,
    decreases s.len(),
{
    let rest = s.drop_last();
    if k < upper_edges(rest, moving, height).len() {
        lemma_upper_edge_origin(rest, moving, height, k)
    } else {
        s.len() - 1
    }
}

/// Whether an edge that is a coordinate within the distance of one is no nearer to
/// it than what was chosen.
pub open spec fn not_nearer(edge: int, x: int, chosen: int, distance: int) -> bool {
    i32::MIN <= edge <= i32::MAX && abs(edge - x) <= distance ==> abs(chosen - x) <= abs(edge - x)
}

/// A dropped monitor is drawn to the nearest edge of another one: no edge within
/// the distance is nearer than where it comes to lie, and it comes to lie nowhere
/// but where it was dropped, against the left edge of another monitor or against
/// the right edge of one; and the same from top to bottom.
pub proof fn law_snapped_to_nearest_edge(
    s: Seq<Monitor>,
    moving: Seq<char>,
    x: int,
    y: int,
    distance: int,
    at: int,
)
    requires
        0 <= at < s.len(),
        s[at].name@ == moving,
        forall|j: int| 0 <= j < at ==> (#[trigger] s[j]).name@ != moving,
    ensures
        ({
            let r = snapped(s, moving, x, y, distance);
            let width = s[at].logical_width;
            let height = s[at].logical_height;
            &&& forall|i: int|
                0 <= i < s.len() && (#[trigger] s[i]).name@ != moving ==> {
                    &&& not_nearer(s[i].x - width, x, r.0, distance)
                    &&& not_nearer(s[i].x + s[i].logical_width, x, r.0, distance)
                    &&& not_nearer(s[i].y - height, y, r.1, distance)
                    &&& not_nearer(s[i].y + s[i].logical_height, y, r.1, distance)
                }
            &&& r.0 != x ==> abs(r.0 - x) <= distance && exists|i: int|
                0 <= i < s.len() && (#[trigger] s[i]).name@ != moving && (r.0 == s[i].x - width
                    || r.0 == s[i].x + s[i].logical_width)
            &&& r.1 != y ==> abs(r.1 - y) <= distance && exists|i: int|
                0 <= i < s.len() && (#[trigger] s[i]).name@ != moving && (r.1 == s[i].y - height
                    || r.1 == s[i].y + s[i].logical_height)
        }),
{
    lemma_first_index(s, named(moving), at as nat);
    let width = s[at].logical_width as int;
    let height = s[at].logical_height as int;
    let xs = left_edges(s, moving, width);
    let ys = upper_edges(s, moving, height);
    law_nearest(xs, x, distance);
    law_nearest(ys, y, distance);
    let r = snapped(s, moving, x, y, distance);
    assert forall|i: int| 0 <= i < s.len() && (#[trigger] s[i]).name@ != moving implies {
        &&& not_nearer(s[i].x - width, x, r.0, distance)
        &&& not_nearer(s[i].x + s[i].logical_width, x, r.0, distance)
        &&& not_nearer(s[i].y - height, y, r.1, distance)
        &&& not_nearer(s[i].y + s[i].logical_height, y, r.1, distance)
    } by {
        let k = lemma_edge_listed(s, moving, width, i);
        let l = lemma_upper_edge_listed(s, moving, height, i);
    }
    if r.0 != x {
        let k = choose|k: int| 0 <= k < xs.len() && xs[k] == r.0;
        let i = lemma_edge_origin(s, moving, width, k);
        assert(s[i].name@ != moving);
    }
    if r.1 != y {
        let k = choose|k: int| 0 <= k < ys.len() && ys[k] == r.1;
        let i = lemma_upper_edge_origin(s, moving, height, k);
        assert(s[i].name@ != moving);
    }
}

/// A monitor that is not in the layout stays where it is dropped.
pub proof fn law_unknown_is_not_snapped(
    s: Seq<Monitor>,
    moving: Seq<char>,
    x: int,
    y: int,
    distance: int,
)
    requires
        forall|j: int| 0 <= j < s.len() ==> (#[trigger] s[j]).name@ != moving,
    ensures
        snapped(s, moving, x, y, distance) == (x, y),
{
    lemma_first_index(s, named(moving), s.len());
}

/// A monitor that becomes the main one lies at the origin, and the distances
/// between monitors stay as they are.
pub proof fn law_changing_main_keeps_relative_positions(s: Seq<Monitor>, main: Monitor, i: int, j: int)
    requires
        shift_fits(s, main),
        0 <= i < s.len(),
        0 <= j < s.len(),
    ensures
        shifted(s[i], main).x - shifted(s[j], main).x == s[i].x - s[j].x,
        shifted(s[i], main).y - shifted(s[j], main).y == s[i].y - s[j].y,
        s[i] == main ==> shifted(s[i], main).x == 0 && shifted(s[i], main).y == 0,
        overlap(shifted(s[i], main), shifted(s[j], main)) == overlap(s[i], s[j]),
{
    assert(i32::MIN <= s[i].x - main.x <= i32::MAX);
    assert(i32::MIN <= s[j].x - main.x <= i32::MAX);
}

/// The monitors by name are the same monitors, in the order of their names.
pub proof fn law_by_name(s: Seq<Monitor>)
    ensures
        by_name(s).to_multiset() == s.to_multiset(),
        forall|i: int, j: int|
            0 <= i < j < by_name(s).len() ==> !text_less(
                (#[trigger] by_name(s)[j]).name@,
                (#[trigger] by_name(s)[i]).name@,
            ),
    decreases s.len(),
{
    broadcast use vstd::seq_lib::group_to_multiset_ensures;

    if s.len() > 0 {
        let rest = s.drop_last();
        let m = s.last();
        law_by_name(rest);
        let t = by_name(rest);
        let p = named_after(m.name@);
        let k = first_index(t, p) as int;
        lemma_first_index_bounds(t, p);
        let r = by_name(s);
        assert(s =~= rest.push(m));
        assert(rest.push(m).to_multiset() =~= rest.to_multiset().insert(m));
        assert(t.insert(k, m).to_multiset() =~= t.to_multiset().insert(m));
        assert forall|i: int, j: int| 0 <= i < j < r.len() implies !text_less(
            (#[trigger] r[j]).name@,
            (#[trigger] r[i]).name@,
        ) by {
            if j == k {
                assert(!p(t[i]));
            } else if i == k {
                // m comes before t[k], which does not come after t[j - 1].
                assert(p(t[k]));
                if text_less(r[j].name@, m.name@) {
                    crate::text::lemma_text_less_transitive(r[j].name@, m.name@, t[k].name@);
                    if j - 1 == k {
                        crate::text::lemma_text_less_irreflexive(t[k].name@);
                    }
                }
            }
        }
    }
}

/// The main monitor is the first at the origin; where none is there, the first that
/// has the focus; and else the first of all.
pub proof fn law_main_monitor(s: Seq<Monitor>, at: int)
    requires
        0 <= at < s.len(),
    ensures
        s[at].x == 0 && s[at].y == 0 && (forall|j: int|
            0 <= j < at ==> (#[trigger] s[j]).x != 0 || s[j].y != 0) ==> main_name(s)
            == s[at].name@,
        (forall|j: int| 0 <= j < s.len() ==> (#[trigger] s[j]).x != 0 || s[j].y != 0) ==> {
            &&& s[at].focused && (forall|j: int| 0 <= j < at ==> !(#[trigger] s[j]).focused)
                ==> main_name(s) == s[at].name@
            &&& (forall|j: int| 0 <= j < s.len() ==> !(#[trigger] s[j]).focused) ==> main_name(s)
                == s[0].name@
        },
{
    if s[at].x == 0 && s[at].y == 0 && (forall|j: int|
        0 <= j < at ==> (#[trigger] s[j]).x != 0 || s[j].y != 0) {
        lemma_first_index(s, at_origin(), at as nat);
    }
    if forall|j: int| 0 <= j < s.len() ==> (#[trigger] s[j]).x != 0 || s[j].y != 0 {
        lemma_first_index(s, at_origin(), s.len());
        if s[at].focused && (forall|j: int| 0 <= j < at ==> !(#[trigger] s[j]).focused) {
            lemma_first_index(s, focused(), at as nat);
        }
        if forall|j: int| 0 <= j < s.len() ==> !(#[trigger] s[j]).focused {
            lemma_first_index(s, focused(), s.len());
        }
    }
}

/// Whether a monitor covers a place on the desktop.
pub open spec fn covers(m: Monitor, x: int, y: int) -> bool {
    m.x <= x < m.x + m.logical_width && m.y <= y < m.y + m.logical_height
}

/// Two monitors that are no smaller than nothing overlap if and only if there is a
/// place that both cover.
pub proof fn law_overlapping_monitors_share_a_place(a: Monitor, b: Monitor)
    requires
        a.logical_width > 0,
        a.logical_height > 0,
        b.logical_width > 0,
        b.logical_height > 0,
    ensures
        overlap(a, b) <==> exists|x: int, y: int| covers(a, x, y) && covers(b, x, y),
{
    if overlap(a, b) {
        let x: int = if a.x < b.x {
            b.x as int
        } else {
            a.x as int
        };
        let y: int = if a.y < b.y {
            b.y as int
        } else {
            a.y as int
        };
        assert(covers(a, x, y) && covers(b, x, y));
    }
}

/// A layout overlaps as soon as two of its monitors do, wherever they stand in it,
/// and not where no two do.
pub proof fn law_overlap_is_found(s: Seq<Monitor>, i: int, j: int)
    requires
        0 <= i < s.len(),
        0 <= j < s.len(),
        i != j,
    ensures
        overlap(s[i], s[j]) ==> any_overlap(s),
        (forall|a: int, b: int|
            0 <= a < b < s.len() ==> !overlap(#[trigger] s[a], #[trigger] s[b])) ==> !any_overlap(
            s,
        ),
{
    law_overlap_symmetric(s[i], s[j]);
}

/// Of the monitors, a layout lists those that are in use and no others.
pub proof fn law_used_monitors_are_listed(s: Seq<Monitor>, i: int)
    requires
        0 <= i < s.len(),
    ensures
        by_name(s.filter(enabled())).contains(s[i]) == !s[i].disabled,
        forall|k: int|
            0 <= k < by_name(s.filter(enabled())).len() ==> s.contains(
                #[trigger] by_name(s.filter(enabled()))[k],
            ),
{
    broadcast use vstd::seq_lib::group_to_multiset_ensures;

    let used = s.filter(enabled());
    let r = by_name(used);
    law_by_name(used);
    lemma_filter_members(s, enabled());
    if !s[i].disabled {
        lemma_filter_keeps(s, enabled(), i);
        assert(used.to_multiset().count(s[i]) > 0);
        assert(r.contains(s[i]));
    } else if r.contains(s[i]) {
        assert(r.to_multiset().count(s[i]) > 0);
        assert(used.contains(s[i]));
        let k = choose|k: int| 0 <= k < used.len() && used[k] == s[i];
        assert(enabled()(used[k]));
    }
    assert forall|k: int| 0 <= k < r.len() implies s.contains(#[trigger] r[k]) by {
        assert(r.contains(r[k]));
        assert(r.to_multiset().count(r[k]) > 0);
        assert(used.contains(r[k]));
    }
}

/// Making a monitor the main one changes nothing of a monitor but its position.
pub proof fn law_shifting_keeps_the_rest(m: Monitor, main: Monitor)
    requires
        i32::MIN <= m.x - main.x <= i32::MAX,
        i32::MIN <= m.y - main.y <= i32::MAX,
    ensures
        ({
            let r = shifted(m, main);
            &&& r.x == m.x - main.x
            &&& r.y == m.y - main.y
            &&& r == (Monitor { x: r.x, y: r.y, ..m })
        }),
{
}

/// The configuration keeps all that it held, loads the generated layout in a line
/// of its own, and does not change when that is done again.
pub proof fn law_generated_layout_is_loaded(source: Seq<char>)
    ensures
        source.is_prefix_of(with_generated_layout(source)),
        contains_text(with_generated_layout(source), "require(\"bah_displays\")"@),
        with_generated_layout(with_generated_layout(source)) == with_generated_layout(source),
        with_generated_layout(source) != source ==> {
            let n = with_generated_layout(source).len();
            let tail = "\n-- bah: display-layout\nrequire(\"bah_displays\")\n"@;
            with_generated_layout(source).len() > tail.len() - 1 && (source.len() > 0
                ==> with_generated_layout(source).subrange(n - tail.len(), n as int) == tail)
        },
{
    let r = with_generated_layout(source);
    let line = "-- bah: display-layout\nrequire(\"bah_displays\")\n"@;
    let tail = "\n-- bah: display-layout\nrequire(\"bah_displays\")\n"@;
    let word = "require(\"bah_displays\")"@;
    reveal_strlit("\n-- bah: display-layout\nrequire(\"bah_displays\")\n");
    reveal_strlit("-- bah: display-layout\nrequire(\"bah_displays\")\n");
    reveal_strlit("require(\"bah_displays\")");
    reveal_strlit("\n");
    assert(line.len() == 47 && word.len() == 23);
    assert(tail =~= seq!['\n'] + line);
    assert(line.subrange(23, 46) =~= word);
    assert("\n"@ =~= seq!['\n']);
    if !contains_text(source, word) {
        let n = r.len() as int;
        let k = n - 24;
        assert(r.subrange(n - 47, n) =~= line);
        assert(r.subrange(k, k + 23) =~= line.subrange(23, 46));
        assert(occurs_at(r, word, k));
        if ends_with(source, "\n"@) {
            assert(source[source.len() - 1] == source.skip(source.len() - 1)[0]);
            assert(r[n - 48] == '\n');
        } else {
            assert(r[n - 48] == '\n');
        }
        assert(r.subrange(n - 48, n) =~= tail);
    }
}

/// A layout is in force only where each of its monitors lies where it should; and
/// where each does, it is.
pub proof fn law_layout_in_force(expected: Seq<Monitor>, actual: Seq<Monitor>, place: Seq<int>)
    requires
        place.len() == expected.len(),
        forall|i: int|
            #![trigger place[i]]
            0 <= i < expected.len() ==> 0 <= place[i] < actual.len()
                && actual[place[i]].name@ == expected[i].name@,
        forall|i: int, j: int|
            0 <= i < j < actual.len() ==> (#[trigger] actual[i]).name@ != (
            #[trigger] actual[j]).name@,
    ensures
        same_positions(expected, actual) <==> forall|i: int|
            #![trigger place[i]]
            0 <= i < expected.len() ==> actual[place[i]].x == expected[i].x && actual[place[i]].y
                == expected[i].y,
{
    assert forall|i: int| 0 <= i < expected.len() implies find_first(
        actual,
        named((#[trigger] expected[i]).name@),
    ) == Some(actual[place[i]]) by {
        lemma_first_index(actual, named(expected[i].name@), place[i] as nat);
    }
    if same_positions(expected, actual) {
        assert forall|i: int| #![trigger place[i]] 0 <= i < expected.len() implies (
        actual[place[i]].x == expected[i].x && actual[place[i]].y == expected[i].y) by {
            assert(find_first(actual, named(expected[i].name@)) == Some(actual[place[i]]));
        }
    }
    if forall|i: int|
        #![trigger place[i]]
        0 <= i < expected.len() ==> actual[place[i]].x == expected[i].x && actual[place[i]].y
            == expected[i].y {
        assert forall|i: int| 0 <= i < expected.len() implies (find_first(
            actual,
            named((#[trigger] expected[i]).name@),
        ) matches Some(m) && m.x == expected[i].x && m.y == expected[i].y) by {
            assert(0 <= place[i] < actual.len());
        }
    }
}

/// A layout is not in force where one of its monitors is missing.
pub proof fn law_missing_monitor_is_noticed(expected: Seq<Monitor>, actual: Seq<Monitor>, i: int)
    requires
        0 <= i < expected.len(),
        forall|j: int|
            0 <= j < actual.len() ==> (#[trigger] actual[j]).name@ != expected[i].name@,
    ensures
        !same_positions(expected, actual),
{
    lemma_first_index(actual, named(expected[i].name@), actual.len());
}

/// The generated configuration names each monitor, with its mode and its position,
/// in the order of the layout: what stands before a monitor's line depends on the
/// monitors before it alone.
pub proof fn law_generated_configuration(layout: DisplayLayout, rest: DisplayLayout, m: Monitor)
    requires
        layout.monitors@ == rest.monitors@.push(m),
        layout.main@ == rest.main@,
    ensures
        ({
            let tail = "\nhl.workspace_rule({ workspace = \"1\", monitor = "@ + quoted(
                layout.main@,
            ) + ", default = true })\n"@;
            let line = "hl.monitor({ output = "@ + quoted(m.name@) + ", mode = "@ + quoted(
                decimal_int(m.width as int) + "x"@ + decimal_int(m.height as int) + "@"@
                    + m.refresh_rate@,
            ) + ", position = "@ + quoted(
                decimal_int(m.x as int) + "x"@ + decimal_int(m.y as int),
            ) + ", scale = "@ + m.scale@ + ", transform = "@ + decimal_int(m.transform as int)
                + " })\n"@;
            &&& tail.is_suffix_of(layout_lua(rest))
            &&& layout_lua(layout) == layout_lua(rest).take(layout_lua(rest).len() - tail.len())
                + line + tail
        }),
{
    let s = layout.monitors@;
    assert(s.drop_last() =~= rest.monitors@);
    let tail = "\nhl.workspace_rule({ workspace = \"1\", monitor = "@ + quoted(layout.main@)
        + ", default = true })\n"@;
    let head = "-- Generated by Bah. Changes will be replaced.\n\n"@ + monitor_lines(
        rest.monitors@,
    );
    assert(layout_lua(rest) =~= head + tail);
    assert(layout_lua(rest).take(layout_lua(rest).len() - tail.len()) =~= head);
    assert(layout_lua(layout) =~= head + monitor_line(m) + tail);
}

/// Whether an output has a wallpaper of its own.
pub open spec fn has_wallpaper(own: Seq<OutputWallpaper>, output: Seq<char>) -> bool {
    exists|j: int| 0 <= j < own.len() && (#[trigger] own[j]).output@ == output
}

/// Whether a wallpaper is an output's own, or the shared one where it has none.
pub open spec fn is_wallpaper(
    own: Seq<OutputWallpaper>,
    shared: Option<Seq<char>>,
    output: Seq<char>,
    path: Seq<char>,
) -> bool {
    ||| exists|j: int|
        0 <= j < own.len() && (#[trigger] own[j]).output@ == output && own[j].path@ == path
    ||| shared == Some(path) && !has_wallpaper(own, output)
}

/// What is listed is an output with its wallpaper: its own where it has one, and else
/// the shared one.
pub proof fn law_listed_wallpaper(
    s: Seq<Monitor>,
    own: Seq<OutputWallpaper>,
    shared: Option<Seq<char>>,
    k: int,
) -> (i: int)
    requires
        0 <= k < wallpapers_of(s, own, shared).len(),
    ensures
        0 <= i < s.len(),
        wallpapers_of(s, own, shared)[k].0 == s[i].name@,
        is_wallpaper(own, shared, s[i].name@, wallpapers_of(s, own, shared)[k].1),
    decreases s.len(),
{
    let rest = s.drop_last();
    let before = wallpapers_of(rest, own, shared);
    if k < before.len() {
        law_listed_wallpaper(rest, own, shared, k)
    } else {
        let name = s.last().name@;
        lemma_wallpaper_of(name, own, shared);
        s.len() - 1
    }
}

proof fn lemma_wallpaper_of(name: Seq<char>, own: Seq<OutputWallpaper>, shared: Option<Seq<char>>)
    ensures
        wallpaper_of(name, own, shared) is Some <==> shared is Some || has_wallpaper(own, name),
        wallpaper_of(name, own, shared) matches Some(path) ==> is_wallpaper(
            own,
            shared,
            name,
            path,
        ),
{
    let p = of_output(name);
    lemma_first_index_bounds(own, p);
    let f = first_index(own, p) as int;
    if f < own.len() {
        assert(own[f].output@ == name && own[f].path@ == own[f].path@);
    } else if has_wallpaper(own, name) {
        let j = choose|j: int| 0 <= j < own.len() && (#[trigger] own[j]).output@ == name;
        assert(p(own[j]));
    }
}

/// Each output that has a wallpaper of its own is listed, and with a shared one every
/// output is.
pub proof fn law_wallpaper_is_listed(
    s: Seq<Monitor>,
    own: Seq<OutputWallpaper>,
    shared: Option<Seq<char>>,
    i: int,
) -> (k: int)
    requires
        0 <= i < s.len(),
        shared is Some || has_wallpaper(own, s[i].name@),
    ensures
        0 <= k < wallpapers_of(s, own, shared).len(),
        wallpapers_of(s, own, shared)[k].0 == s[i].name@,
    decreases s.len(),
{
    let rest = s.drop_last();
    if i < rest.len() {
        law_wallpaper_is_listed(rest, own, shared, i)
    } else {
        lemma_wallpaper_of(s[i].name@, own, shared);
        wallpapers_of(rest, own, shared).len() as int
    }
}

/// The wallpapers are listed in the order of the outputs.
pub proof fn law_wallpapers_in_order(
    s: Seq<Monitor>,
    own: Seq<OutputWallpaper>,
    shared: Option<Seq<char>>,
    k: int,
    l: int,
) -> (r: (int, int))
    requires
        0 <= k < l < wallpapers_of(s, own, shared).len(),
    ensures
        0 <= r.0 < r.1 < s.len(),
        wallpapers_of(s, own, shared)[k].0 == s[r.0].name@,
        wallpapers_of(s, own, shared)[l].0 == s[r.1].name@,
    decreases s.len(),
{
    let rest = s.drop_last();
    let before = wallpapers_of(rest, own, shared);
    if l < before.len() {
        law_wallpapers_in_order(rest, own, shared, k, l)
    } else {
        (law_listed_wallpaper(rest, own, shared, k), s.len() - 1)
    }
}

/// A main monitor is selected where the layout holds the monitor of that name.
pub proof fn law_main_is_selected(layout: DisplayLayout, at: int)
    ensures
        0 <= at < layout.monitors@.len() && layout.main@.len() > 0 && layout.monitors@[at].name@
            == layout.main@ ==> has_main(layout),
        (forall|j: int|
            0 <= j < layout.monitors@.len() ==> (#[trigger] layout.monitors@[j]).name@
                != layout.main@) ==> !has_main(layout),
        layout.main@.len() == 0 ==> !has_main(layout),
{
    let s = layout.monitors@;
    let p = named(layout.main@);
    lemma_first_index_bounds(s, p);
    if 0 <= at < s.len() && s[at].name@ == layout.main@ {
        assert(p(s[at]));
    }
    if forall|j: int| 0 <= j < s.len() ==> (#[trigger] s[j]).name@ != layout.main@ {
        lemma_first_index(s, p, s.len());
    }
}

} // verus!

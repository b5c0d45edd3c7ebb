//! The page on which monitors are arranged and given their wallpapers.

use vstd::prelude::*;
use vstd::string::*;

use crate::hyprland::display::{
    any_overlap, named, of_output, shift_fits, shifted, snapped, DisplayLayout, Monitor,
    OutputWallpaper, SNAP_DISTANCE,
};
use crate::paths::{file_name, file_name_of, law_names_of_files};
use crate::seqs::{
    find_first, first_index, lemma_filter_step, lemma_first_index, lemma_first_index_bounds,
};
use crate::text::{concat, decimal_int, decimal_int_text, opt_view, owned, same};

verus! {

/// A monitor that is dragged, and where it was.
#[derive(Debug)]
pub struct MonitorDrag {
    pub name: String,
    pub start_x: i32,
    pub start_y: i32,
}

/// The page on which monitors are arranged.
pub struct DisplaySettings {
    pub layout: Option<DisplayLayout>,
    pub original: Option<DisplayLayout>,
    pub wallpapers: Vec<OutputWallpaper>,
    pub selected: Option<String>,
    pub drag: Option<MonitorDrag>,
    pub message: Option<String>,
    pub applying: bool,
}

/// Whether two layouts are the same.
pub open spec fn same_layout(a: DisplayLayout, b: DisplayLayout) -> bool {
    a.monitors@ == b.monitors@ && a.main == b.main
}

/// The same layout once more.
fn copy_layout(layout: &DisplayLayout) -> (r: DisplayLayout)
    ensures
        same_layout(r, *layout),
{
    let mut monitors: Vec<Monitor> = Vec::new();
    let mut i: usize = 0;
    while i < layout.monitors.len()
        invariant
            i <= layout.monitors.len(),
            monitors@ =~= layout.monitors@.take(i as int),
        decreases layout.monitors.len() - i,
    {
        monitors.push(layout.monitors[i].clone());
        i += 1;
    }
    proof {
        assert(layout.monitors@.take(i as int) =~= layout.monitors@);
    }
    DisplayLayout { monitors, main: layout.main.clone() }
}

/// The predicate that holds of wallpapers of other outputs.
pub open spec fn of_other_output(output: Seq<char>) -> spec_fn(OutputWallpaper) -> bool {
    |w: OutputWallpaper| w.output@ != output
}

/// The wallpapers without that of an output.
fn without_output(s: &Vec<OutputWallpaper>, output: &str) -> (r: Vec<OutputWallpaper>)
    ensures
        r@ == s@.filter(of_other_output(output@)),
{
    let ghost p = of_other_output(output@);
    let mut out: Vec<OutputWallpaper> = Vec::new();
    let mut i: usize = 0;
    proof {
        assert(s@.take(0).filter(p) =~= Seq::empty()) by {
            reveal(Seq::filter);
        }
    }
    while i < s.len()
        invariant
            i <= s.len(),
            p == of_other_output(output@),
            out@ == s@.take(i as int).filter(p),
        decreases s.len() - i,
    {
        proof {
            lemma_filter_step(s@, p, i as int);
        }
        if !same(s[i].output.as_str(), output) {
            out.push(
                OutputWallpaper { output: s[i].output.clone(), path: s[i].path.clone() },
            );
        }
        i += 1;
    }
    proof {
        assert(s@.take(i as int) =~= s@);
    }
    out
}

/// The wallpaper of an output, where it has one of its own.
pub open spec fn own_wallpaper(s: Seq<OutputWallpaper>, output: Seq<char>) -> Option<Seq<char>> {
    match find_first(s, of_output(output)) {
        Some(w) => Some(w.path@),
        None => None,
    }
}

/// The layout after a monitor was moved, against whatever is near.
pub open spec fn moved_layout(
    after: DisplayLayout,
    before: DisplayLayout,
    name: Seq<char>,
    x: int,
    y: int,
) -> bool {
    let s = before.monitors@;
    let i = first_index(s, named(name)) as int;
    let p = snapped(s, name, x, y, SNAP_DISTANCE as int);
    &&& after.main == before.main
    &&& after.monitors@ == (if name == before.main@ || i >= s.len() {
        s
    } else {
        s.update(i, Monitor { x: p.0 as i32, y: p.1 as i32, ..s[i] })
    })
}

impl DisplaySettings {
    /// The page with what is known of the monitors and their wallpapers.
    pub fn new(layout: Option<DisplayLayout>, wallpapers: Vec<OutputWallpaper>) -> (r: Self)
        ensures
            r.layout == layout,
            match layout {
                Some(l) => {
                    &&& r.original is Some
                    &&& same_layout(r.original->0, l)
                    &&& r.selected == Some(l.main)
                },
                None => r.original is None && r.selected is None,
            },
            r.wallpapers == wallpapers,
            r.drag is None,
            r.message is None,
            !r.applying,
    {
        let (original, selected) = match &layout {
            Some(layout) => (Some(copy_layout(layout)), Some(layout.main.clone())),
            None => (None, None),
        };
        DisplaySettings {
            layout,
            original,
            wallpapers,
            selected,
            drag: None,
            message: None,
            applying: false,
        }
    }

    /// Shows the monitors as they were just read, or why they could not be.
    pub fn refresh(
        &mut self,
        loaded: Result<DisplayLayout, String>,
        wallpapers: Vec<OutputWallpaper>,
    )
        ensures
            match loaded {
                Ok(layout) => {
                    &&& final(self).original is Some
                    &&& same_layout(final(self).original->0, layout)
                    &&& *final(self) == (DisplaySettings {
                        layout: Some(layout),
                        original: final(self).original,
                        selected: Some(layout.main),
                        wallpapers,
                        message: None,
                        ..*old(self)
                    })
                },
                Err(error) => {
                    &&& opt_view(final(self).message) == Some(
                        "モニター情報を取得できません: "@ + error@,
                    )
                    &&& *final(self) == (DisplaySettings {
                        layout: None,
                        message: final(self).message,
                        ..*old(self)
                    })
                },
            },
    {
        match loaded {
            Ok(layout) => {
                self.selected = Some(layout.main.clone());
                self.original = Some(copy_layout(&layout));
                self.layout = Some(layout);
                self.wallpapers = wallpapers;
                self.message = None;
            },
            Err(error) => {
                self.layout = None;
                self.message = Some(concat("モニター情報を取得できません: ", error.as_str()));
            },
        }
    }

    /// Starts to drag a monitor, which is selected by that; one that is not there
    /// is not dragged.
    pub fn begin_drag(&mut self, name: &str) -> (r: bool)
        ensures
            ({
                let monitor = match old(self).layout {
                    Some(layout) => find_first(layout.monitors@, named(name@)),
                    None => None,
                };
                match monitor {
                    None => !r && *final(self) == *old(self),
                    Some(m) => {
                        &&& r
                        &&& opt_view(final(self).selected) == Some(name@)
                        &&& final(self).drag is Some
                        &&& final(self).drag->0.name@ == name@
                        &&& final(self).drag->0.start_x == m.x
                        &&& final(self).drag->0.start_y == m.y
                        &&& *final(self) == (DisplaySettings {
                            selected: final(self).selected,
                            drag: final(self).drag,
                            ..*old(self)
                        })
                    },
                }
            }),
    {
        let start = match &self.layout {
            Some(layout) => match layout.monitor(name) {
                Some(monitor) => Some((monitor.x, monitor.y)),
                None => None,
            },
            None => None,
        };
        match start {
            None => false,
            Some((start_x, start_y)) => {
                self.selected = Some(owned(name));
                self.drag = Some(MonitorDrag { name: owned(name), start_x, start_y });
                true
            },
        }
    }

    /// Moves the monitor that is dragged so far from where it was.
    pub fn move_drag(&mut self, dx: i32, dy: i32) -> (r: bool)
        requires
            old(self).drag matches Some(drag) ==> i32::MIN <= drag.start_x + dx <= i32::MAX
                && i32::MIN <= drag.start_y + dy <= i32::MAX,
        ensures
            r == (old(self).drag is Some && old(self).layout is Some),
            !r ==> *final(self) == *old(self),
            r ==> {
                &&& final(self).layout is Some
                &&& moved_layout(
                    final(self).layout->0,
                    old(self).layout->0,
                    old(self).drag->0.name@,
                    old(self).drag->0.start_x + dx,
                    old(self).drag->0.start_y + dy,
                )
                &&& *final(self) == (DisplaySettings {
                    layout: final(self).layout,
                    ..*old(self)
                })
            },
    {
        let (name, x, y) = match &self.drag {
            None => {
                return false;
            },
            Some(drag) => (drag.name.clone(), drag.start_x + dx, drag.start_y + dy),
        };
        match self.layout.take() {
            None => false,
            Some(mut layout) => {
                layout.move_monitor(name.as_str(), x, y);
                self.layout = Some(layout);
                true
            },
        }
    }

    /// Lets the monitor go.
    pub fn end_drag(&mut self) -> (r: bool)
        ensures
            r == (old(self).drag is Some),
            *final(self) == (DisplaySettings { drag: None, ..*old(self) }),
    {
        let dragging = self.drag.is_some();
        self.drag = None;
        dragging
    }

    /// Makes a monitor the main one, with the others placed around it; one that
    /// is not there, or whose move would push others out of what coordinates can
    /// tell, is not.
    pub fn set_main(&mut self, name: &str) -> (r: bool)
        ensures
            ({
                let main = match old(self).layout {
                    Some(layout) => find_first(layout.monitors@, named(name@)),
                    None => None,
                };
                let fits = main is Some && shift_fits(old(self).layout->0.monitors@, main->0);
                &&& r == fits
                &&& !r ==> *final(self) == *old(self)
                &&& r ==> {
                    &&& final(self).layout is Some
                    &&& final(self).layout->0.main@ == name@
                    &&& final(self).layout->0.monitors@ == old(self).layout->0.monitors@.map_values(
                        |m: Monitor| shifted(m, main->0),
                    )
                    &&& opt_view(final(self).selected) == Some(name@)
                    &&& *final(self) == (DisplaySettings {
                        layout: final(self).layout,
                        selected: final(self).selected,
                        ..*old(self)
                    })
                }
            }),
    {
        let layout = self.layout.take();
        match layout {
            None => false,
            Some(mut layout) => {
                let mut changed = false;
                if layout.can_normalize_main(name) {
                    changed = layout.normalize_main(name);
                }
                self.layout = Some(layout);
                if changed {
                    self.selected = Some(owned(name));
                }
                changed
            },
        }
    }

    /// Gives an output a wallpaper of its own.
    pub fn set_wallpaper(&mut self, output: &str, path: String)
        ensures
            final(self).wallpapers@.len() > 0,
            final(self).wallpapers@.last().output@ == output@,
            final(self).wallpapers@.last().path == path,
            final(self).wallpapers@.drop_last() == old(self).wallpapers@.filter(
                of_other_output(output@),
            ),
            *final(self) == (DisplaySettings {
                wallpapers: final(self).wallpapers,
                ..*old(self)
            }),
    {
        let mut kept = without_output(&self.wallpapers, output);
        let ghost before = kept@;
        kept.push(OutputWallpaper { output: owned(output), path });
        proof {
            assert(kept@.drop_last() =~= before);
        }
        self.wallpapers = kept;
    }

    /// Takes the wallpaper of the selected output away.
    pub fn clear_wallpaper(&mut self)
        ensures
            match old(self).selected {
                None => *final(self) == *old(self),
                Some(name) => {
                    &&& final(self).wallpapers@ == old(self).wallpapers@.filter(
                        of_other_output(name@),
                    )
                    &&& *final(self) == (DisplaySettings {
                        wallpapers: final(self).wallpapers,
                        ..*old(self)
                    })
                },
            },
    {
        if let Some(name) = &self.selected {
            self.wallpapers = without_output(&self.wallpapers, name.as_str());
        }
    }

    /// Starts to apply the layout, and tells whether to: not while that is under
    /// way, not without monitors, and not while monitors overlap, which is said.
    pub fn begin_apply(&mut self) -> (r: bool)
        ensures
            r == (!old(self).applying && old(self).layout is Some && !any_overlap(
                old(self).layout->0.monitors@,
            )),
            old(self).applying || old(self).layout is None ==> *final(self) == *old(self),
            !old(self).applying && old(self).layout is Some && any_overlap(
                old(self).layout->0.monitors@,
            ) ==> {
                &&& opt_view(final(self).message) == Some(
                    "モニターが重なっています。重ならないように配置してください。"@,
                )
                &&& *final(self) == (DisplaySettings {
                    message: final(self).message,
                    ..*old(self)
                })
            },
            r ==> *final(self) == (DisplaySettings {
                applying: true,
                message: None,
                ..*old(self)
            }),
    {
        if self.applying {
            return false;
        }
        let overlaps = match &self.layout {
            None => {
                return false;
            },
            Some(layout) => layout.overlaps(),
        };
        if overlaps {
            self.message = Some(
                owned("モニターが重なっています。重ならないように配置してください。"),
            );
            return false;
        }
        self.applying = true;
        self.message = None;
        true
    }

    /// Takes note of how applying the layout ended, and where it succeeded how
    /// renewing the wallpaper did.
    pub fn finish_apply(&mut self, outcome: Result<Result<(), String>, String>)
        ensures
            final(self).message is Some,
            !final(self).applying,
            match outcome {
                Ok(renewed) => {
                    &&& opt_view(final(self).message) == Some(
                        match renewed {
                            Ok(_) => "ディスプレイ設定を適用しました。"@,
                            Err(e) => "配置は保存しましたが、壁紙を更新できません: "@ + e@,
                        },
                    )
                    &&& match old(self).layout {
                        Some(layout) => final(self).original is Some && same_layout(
                            final(self).original->0,
                            layout,
                        ),
                        None => final(self).original == old(self).original,
                    }
                },
                Err(e) => {
                    &&& opt_view(final(self).message) == Some("適用できませんでした: "@ + e@)
                    &&& final(self).original == old(self).original
                },
            },
            *final(self) == (DisplaySettings {
                applying: false,
                message: final(self).message,
                original: final(self).original,
                ..*old(self)
            }),
    {
        match outcome {
            Ok(renewed) => {
                self.message = Some(
                    match renewed {
                        Ok(_) => owned("ディスプレイ設定を適用しました。"),
                        Err(error) => concat(
                            "配置は保存しましたが、壁紙を更新できません: ",
                            error.as_str(),
                        ),
                    },
                );
                if let Some(layout) = &self.layout {
                    self.original = Some(copy_layout(layout));
                }
            },
            Err(error) => {
                self.message = Some(concat("適用できませんでした: ", error.as_str()));
            },
        }
        self.applying = false;
    }
}

/// The least of coordinates, or another number where there are none.
pub open spec fn least_of(s: Seq<int>, none: int) -> int
    decreases s.len(),
{
    if s.len() == 0 {
        none
    } else if s.len() == 1 {
        s[0]
    } else {
        let before = least_of(s.drop_last(), none);
        if s.last() < before {
            s.last()
        } else {
            before
        }
    }
}

/// The greatest of coordinates, or another number where there are none.
pub open spec fn greatest_of(s: Seq<int>, none: int) -> int
    decreases s.len(),
{
    if s.len() == 0 {
        none
    } else if s.len() == 1 {
        s[0]
    } else {
        let before = greatest_of(s.drop_last(), none);
        if s.last() > before {
            s.last()
        } else {
            before
        }
    }
}

/// The left edges of monitors.
pub open spec fn lefts(s: Seq<Monitor>) -> Seq<int> {
    s.map_values(|m: Monitor| m.x as int)
}

/// The upper edges of monitors.
pub open spec fn tops(s: Seq<Monitor>) -> Seq<int> {
    s.map_values(|m: Monitor| m.y as int)
}

/// The right edges of monitors.
pub open spec fn rights(s: Seq<Monitor>) -> Seq<int> {
    s.map_values(|m: Monitor| m.x + m.logical_width)
}

/// The lower edges of monitors.
pub open spec fn bottoms(s: Seq<Monitor>) -> Seq<int> {
    s.map_values(|m: Monitor| m.y + m.logical_height)
}

/// The edges of the part of the desktop that the page shows.
#[derive(Clone, Copy, Debug, PartialEq, Eq, Structural)]
pub struct PreviewBounds {
    pub left: i64,
    pub top: i64,
    pub right: i64,
    pub bottom: i64,
}

/// The edges of the part of the desktop that the page shows: those of all its
/// monitors.
pub fn preview_bounds(layout: &DisplayLayout) -> (r: PreviewBounds)
    ensures
        r.left == least_of(lefts(layout.monitors@), 0),
        r.top == least_of(tops(layout.monitors@), 0),
        r.right == greatest_of(rights(layout.monitors@), 1),
        r.bottom == greatest_of(bottoms(layout.monitors@), 1),
{
    let ghost s = layout.monitors@;
    let mut left: i64 = 0;
    let mut top: i64 = 0;
    let mut right: i64 = 1;
    let mut bottom: i64 = 1;
    let mut i: usize = 0;
    proof {
        assert(lefts(s).take(0) =~= Seq::empty());
        assert(tops(s).take(0) =~= Seq::empty());
        assert(rights(s).take(0) =~= Seq::empty());
        assert(bottoms(s).take(0) =~= Seq::empty());
    }
    while i < layout.monitors.len()
        invariant
            i <= layout.monitors.len(),
            s == layout.monitors@,
            left == least_of(lefts(s).take(i as int), 0),
            top == least_of(tops(s).take(i as int), 0),
            right == greatest_of(rights(s).take(i as int), 1),
            bottom == greatest_of(bottoms(s).take(i as int), 1),
        decreases layout.monitors.len() - i,
    {
        proof {
            assert(lefts(s).take(i + 1).drop_last() =~= lefts(s).take(i as int));
            assert(tops(s).take(i + 1).drop_last() =~= tops(s).take(i as int));
            assert(rights(s).take(i + 1).drop_last() =~= rights(s).take(i as int));
            assert(bottoms(s).take(i + 1).drop_last() =~= bottoms(s).take(i as int));
        }
        let monitor = &layout.monitors[i];
        let (width, height) = monitor.logical_size();
        let monitor_right: i64 = monitor.x as i64 + width as i64;
        let monitor_bottom: i64 = monitor.y as i64 + height as i64;
        if i == 0 || (monitor.x as i64) < left {
            left = monitor.x as i64;
        }
        if i == 0 || (monitor.y as i64) < top {
            top = monitor.y as i64;
        }
        if i == 0 || monitor_right > right {
            right = monitor_right;
        }
        if i == 0 || monitor_bottom > bottom {
            bottom = monitor_bottom;
        }
        i += 1;
    }
    proof {
        assert(lefts(s).take(i as int) =~= lefts(s));
        assert(tops(s).take(i as int) =~= tops(s));
        assert(rights(s).take(i as int) =~= rights(s));
        assert(bottoms(s).take(i as int) =~= bottoms(s));
    }
    PreviewBounds { left, top, right, bottom }
}

/// The label of a monitor: its name, with a star for the main one.
pub fn monitor_label(monitor: &Monitor, main: &str) -> (r: String)
    ensures
        r@ == if monitor.name@ == main@ {
            monitor.name@ + " ★"@
        } else {
            monitor.name@
        },
{
    if same(monitor.name.as_str(), main) {
        concat(monitor.name.as_str(), " ★")
    } else {
        monitor.name.clone()
    }
}

/// The position of a monitor.
pub fn position_label(monitor: &Monitor) -> (r: String)
    ensures
        r@ == decimal_int(monitor.x as int) + " × "@ + decimal_int(monitor.y as int),
{
    let mut out = decimal_int_text(monitor.x as i64);
    out.append(" × ");
    out.append(decimal_int_text(monitor.y as i64).as_str());
    out
}

/// The name and the resolution of a monitor.
pub fn resolution_label(monitor: &Monitor) -> (r: String)
    ensures
        r@ == monitor.name@ + "  "@ + decimal_int(monitor.width as int) + "×"@ + decimal_int(
            monitor.height as int,
        ),
{
    let mut out = concat(monitor.name.as_str(), "  ");
    out.append(decimal_int_text(monitor.width as i64).as_str());
    out.append("×");
    out.append(decimal_int_text(monitor.height as i64).as_str());
    out
}

/// What is said of an output's wallpaper: the name of its file.
pub open spec fn wallpaper_label_of(own: Option<Seq<char>>) -> Seq<char> {
    match own {
        Some(path) => match file_name(path) {
            Some(name) => name,
            None => path,
        },
        None => "個別設定なし（共通壁紙を使用）"@,
    }
}

/// What is said of an output's wallpaper.
pub fn wallpaper_label(wallpapers: &Vec<OutputWallpaper>, output: &str) -> (r: String)
    ensures
        r@ == wallpaper_label_of(own_wallpaper(wallpapers@, output@)),
{
    let ghost p = of_output(output@);
    let mut i: usize = 0;
    while i < wallpapers.len() && !same(wallpapers[i].output.as_str(), output)
        invariant
            i <= wallpapers.len(),
            p == of_output(output@),
            forall|j: int| 0 <= j < i ==> !p(#[trigger] wallpapers@[j]),
        decreases wallpapers.len() - i,
    {
        i += 1;
    }
    proof {
        lemma_first_index(wallpapers@, p, i as nat);
    }
    if i < wallpapers.len() {
        match file_name_of(wallpapers[i].path.as_str()) {
            Some(name) => name,
            None => wallpapers[i].path.clone(),
        }
    } else {
        owned("個別設定なし（共通壁紙を使用）")
    }
}

proof fn lemma_found_past_filter(
    s: Seq<OutputWallpaper>,
    output: Seq<char>,
    other: Seq<char>,
)
    requires
        other != output,
    ensures
        find_first(s.filter(of_other_output(output)), of_output(other)) == find_first(
            s,
            of_output(other),
        ),
    decreases s.len(),
{
    let p = of_other_output(output);
    let q = of_output(other);
    reveal(Seq::filter);
    if s.len() > 0 {
        let t = s.drop_last();
        lemma_found_past_filter(t, output, other);
        lemma_find_last(s, q);
        if p(s.last()) {
            assert(s.filter(p) =~= t.filter(p).push(s.last()));
            assert(s.filter(p).drop_last() =~= t.filter(p));
            lemma_find_last(s.filter(p), q);
        } else {
            assert(s.filter(p) =~= t.filter(p));
        }
    }
}

proof fn lemma_find_last(s: Seq<OutputWallpaper>, q: spec_fn(OutputWallpaper) -> bool)
    requires
        s.len() > 0,
    ensures
        find_first(s, q) == match find_first(s.drop_last(), q) {
            Some(w) => Some(w),
            None => if q(s.last()) {
                Some(s.last())
            } else {
                None
            },
        },
{
    let t = s.drop_last();
    lemma_first_index_bounds(t, q);
    let k = first_index(t, q);
    assert forall|j: int| 0 <= j < k implies !q(#[trigger] s[j]) by {
        assert(s[j] == t[j]);
    }
    if k < t.len() {
        assert(s[k as int] == t[k as int]);
        lemma_first_index(s, q, k);
    } else if q(s.last()) {
        lemma_first_index(s, q, k);
    } else {
        lemma_first_index(s, q, k + 1);
    }
}

proof fn lemma_not_found(s: Seq<OutputWallpaper>, output: Seq<char>)
    ensures
        find_first(s.filter(of_other_output(output)), of_output(output)) is None,
{
    let f = s.filter(of_other_output(output));
    let q = of_output(output);
    crate::seqs::lemma_filter_members(s, of_other_output(output));
    assert forall|j: int| 0 <= j < f.len() implies !q(#[trigger] f[j]) by {
        assert(of_other_output(output)(f[j]));
    }
    lemma_first_index(f, q, f.len());
}

/// A wallpaper that was given to an output is the output's, and no other output
/// has another by that.
pub proof fn law_wallpaper_set(
    before: Seq<OutputWallpaper>,
    after: Seq<OutputWallpaper>,
    output: Seq<char>,
    other: Seq<char>,
)
    requires
        after.len() > 0,
        after.last().output@ == output,
        after.drop_last() == before.filter(of_other_output(output)),
    ensures
        own_wallpaper(after, output) == Some(after.last().path@),
        other != output ==> own_wallpaper(after, other) == own_wallpaper(before, other),
{
    lemma_not_found(before, output);
    lemma_find_last(after, of_output(output));
    if other != output {
        lemma_found_past_filter(before, output, other);
        lemma_find_last(after, of_output(other));
    }
}

/// A wallpaper that was taken away is gone, and no other output has another by
/// that.
pub proof fn law_wallpaper_cleared(
    before: Seq<OutputWallpaper>,
    output: Seq<char>,
    other: Seq<char>,
)
    ensures
        own_wallpaper(before.filter(of_other_output(output)), output) is None,
        other != output ==> own_wallpaper(before.filter(of_other_output(output)), other)
            == own_wallpaper(before, other),
{
    lemma_not_found(before, output);
    if other != output {
        lemma_found_past_filter(before, output, other);
    }
}

proof fn lemma_extremes(s: Seq<int>, none: int, i: int)
    requires
        0 <= i < s.len(),
    ensures
        least_of(s, none) <= s[i] <= greatest_of(s, none),
    decreases s.len(),
{
    if s.len() > 1 {
        if i < s.len() - 1 {
            lemma_extremes(s.drop_last(), none, i);
        }
    }
}

proof fn lemma_extremes_reached(s: Seq<int>, none: int) -> (r: (int, int))
    requires
        s.len() > 0,
    ensures
        0 <= r.0 < s.len(),
        0 <= r.1 < s.len(),
        least_of(s, none) == s[r.0],
        greatest_of(s, none) == s[r.1],
    decreases s.len(),
{
    if s.len() == 1 {
        (0, 0)
    } else {
        let r = lemma_extremes_reached(s.drop_last(), none);
        let n = s.len() - 1;
        (
            if s.last() < least_of(s.drop_last(), none) {
                n
            } else {
                r.0
            },
            if s.last() > greatest_of(s.drop_last(), none) {
                n
            } else {
                r.1
            },
        )
    }
}

/// The part of the desktop that is shown holds every monitor, and no more than that: each
/// of its edges is an edge of a monitor.
pub proof fn law_shown_part_fits(s: Seq<Monitor>, i: int) -> (r: (int, int, int, int))
    requires
        0 <= i < s.len(),
    ensures
        least_of(lefts(s), 0) <= s[i].x,
        least_of(tops(s), 0) <= s[i].y,
        s[i].x + s[i].logical_width <= greatest_of(rights(s), 1),
        s[i].y + s[i].logical_height <= greatest_of(bottoms(s), 1),
        0 <= r.0 < s.len() && least_of(lefts(s), 0) == s[r.0].x,
        0 <= r.1 < s.len() && least_of(tops(s), 0) == s[r.1].y,
        0 <= r.2 < s.len() && greatest_of(rights(s), 1) == s[r.2].x + s[r.2].logical_width,
        0 <= r.3 < s.len() && greatest_of(bottoms(s), 1) == s[r.3].y + s[r.3].logical_height,
{
    lemma_extremes(lefts(s), 0, i);
    lemma_extremes(tops(s), 0, i);
    lemma_extremes(rights(s), 1, i);
    lemma_extremes(bottoms(s), 1, i);
    let a = lemma_extremes_reached(lefts(s), 0);
    let b = lemma_extremes_reached(tops(s), 0);
    let c = lemma_extremes_reached(rights(s), 1);
    let d = lemma_extremes_reached(bottoms(s), 1);
    (a.0, b.0, c.1, d.1)
}

/// Dragging moves one monitor and never the main one; all others stay where they are, and
/// of the dragged one nothing changes but its position.
pub proof fn law_dragging_moves_one(
    after: DisplayLayout,
    before: DisplayLayout,
    name: Seq<char>,
    x: int,
    y: int,
    i: int,
)
    requires
        moved_layout(after, before, name, x, y),
        0 <= i < before.monitors@.len(),
    ensures
        after.main == before.main,
        after.monitors@.len() == before.monitors@.len(),
        before.monitors@[i].name@ != name || name == before.main@ ==> after.monitors@[i]
            == before.monitors@[i],
        after.monitors@[i] == (Monitor {
            x: after.monitors@[i].x,
            y: after.monitors@[i].y,
            ..before.monitors@[i]
        }),
{
    let s = before.monitors@;
    lemma_first_index_bounds(s, named(name));
}

/// A wallpaper is told by the name of its file.
pub proof fn law_wallpaper_is_told_by_its_name(directory: Seq<char>, stem: Seq<char>, ext: Seq<char>)
    requires
        stem.len() > 0,
        !stem.contains('/'),
        !ext.contains('/'),
        !ext.contains('.'),
        stem + seq!['.'] + ext != ".."@,
    ensures
        wallpaper_label_of(Some(directory + seq!['/'] + (stem + seq!['.'] + ext))) == stem + seq![
            '.',
        ] + ext,
{
    law_names_of_files(directory, stem, ext);
}

} // verus!

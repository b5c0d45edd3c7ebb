//! What the tray, the popups of notifications and the panel of the clipboard show.

use vstd::prelude::*;
use vstd::string::*;

use crate::bytes::lossy;
use crate::calendar::{
    adjacent, calendar_days_for_month, day_at, is_date, is_today, month_title, CalendarMonth,
    LocalTime, MAX_YEAR,
};
use crate::clipboard::{image_payloads, shown_payload, text_payloads, ClipboardEntry};
use crate::clipboard_laws::{is_picture, is_textual, lemma_payload_kinds};
use crate::clipboard_panel::{preview, size_label, text_preview};
use crate::modules::notifications::{Notification, NotificationAction, Urgency};
use crate::modules::system_controls::{
    AudioEndpoint, ControlSnapshot, LevelStatus, NetworkKind, ToggleStatus,
};
use crate::notification_tray::{
    level, mute_glyph, mute_icon, network_switch, NotificationTray, SliderKind,
};
use crate::seqs::{find_first, first_index, lemma_first_index_bounds};
use crate::text::{
    concat, decimal, decimal_int, decimal_text, opt_view, owned, same,
};

verus! {

/// A switch of the tray.
pub struct SwitchButton {
    pub glyph: &'static str,
    pub title: &'static str,
    /// What it is connected to, unless that goes without saying.
    pub label: Option<String>,
    pub on: bool,
    pub available: bool,
}

/// Whether a button shows a status.
pub open spec fn switch_of(r: SwitchButton, s: ToggleStatus) -> bool {
    &&& opt_view(r.label) == if s.wired {
        None
    } else {
        Some(s.label@)
    }
    &&& r.on == s.enabled
    &&& r.available == s.available
}

/// A button that shows a status.
fn switch_button(glyph: &'static str, title: &'static str, status: &ToggleStatus) -> (r:
    SwitchButton)
    ensures
        r.glyph == glyph,
        r.title == title,
        switch_of(r, *status),
{
    SwitchButton {
        glyph,
        title,
        label: if status.wired {
            None
        } else {
            Some(status.label.clone())
        },
        on: status.enabled,
        available: status.available,
    }
}

/// The switches of the network and of Bluetooth; a wired connection takes the place
/// of the wireless one.
pub fn switches(controls: &ControlSnapshot) -> (r: (SwitchButton, SwitchButton))
    ensures
        switch_of(r.0, controls.wifi),
        match controls.primary_network {
            Some(route) if route.kind == NetworkKind::Wired => r.0.glyph@ == "\u{f0200}"@
                && r.0.title@ == "有線接続"@,
            _ => r.0.glyph@ == "\u{f1eb}"@ && r.0.title@ == "Wi-Fi"@,
        },
        switch_of(r.1, controls.bluetooth),
        r.1.glyph@ == "\u{f293}"@,
        r.1.title@ == "Bluetooth"@,
{
    let kind = match &controls.primary_network {
        Some(route) => Some(route.kind),
        None => None,
    };
    let (glyph, title) = network_switch(kind);
    (
        switch_button(glyph, title, &controls.wifi),
        switch_button("\u{f293}", "Bluetooth", &controls.bluetooth),
    )
}

/// A slider of the tray.
pub struct SliderRow {
    pub kind: SliderKind,
    pub glyph: &'static str,
    /// How far it is, in hundredths.
    pub percent: u8,
    /// What stands by the knob while it is dragged.
    pub knob: Option<String>,
    pub note: Option<&'static str>,
}

/// A percentage, or a hundred where it is more.
pub open spec fn at_most_hundred(percent: u8) -> u8 {
    if percent > 100 {
        100
    } else {
        percent
    }
}

/// The glyph of a slider.
pub open spec fn slider_glyph(controls: ControlSnapshot, kind: SliderKind) -> Seq<char> {
    match kind {
        SliderKind::AudioOutput => mute_glyph(AudioEndpoint::Output, controls.audio_output.muted),
        SliderKind::AudioInput => mute_glyph(AudioEndpoint::Input, controls.audio_input.muted),
        SliderKind::Brightness => "\u{f0599}"@,
    }
}

/// Whether a row is that of a slider.
pub open spec fn slider_of(r: SliderRow, t: NotificationTray, kind: SliderKind) -> bool {
    let status = level(t.controls, kind);
    let dragged = t.slider_drag matches Some(drag) && drag.kind == kind;
    &&& r.kind == kind
    &&& r.glyph@ == slider_glyph(t.controls, kind)
    &&& r.percent == at_most_hundred(status.percent)
    &&& opt_view(r.knob) == if dragged {
        Some(decimal(at_most_hundred(status.percent) as nat) + "%"@)
    } else {
        None
    }
    &&& match r.note {
        Some(note) => !status.available && note@ == "利用不可"@,
        None => status.available,
    }
}

/// The row of a slider.
pub fn slider_row(tray: &NotificationTray, kind: SliderKind) -> (r: SliderRow)
    ensures
        slider_of(r, *tray, kind),
{
    let (status, glyph): (LevelStatus, &'static str) = match kind {
        SliderKind::AudioOutput => (
            tray.controls.audio_output,
            mute_icon(AudioEndpoint::Output, tray.controls.audio_output.muted),
        ),
        SliderKind::AudioInput => (
            tray.controls.audio_input,
            mute_icon(AudioEndpoint::Input, tray.controls.audio_input.muted),
        ),
        SliderKind::Brightness => (tray.controls.brightness, "\u{f0599}"),
    };
    let percent: u8 = if status.percent > 100 {
        100
    } else {
        status.percent
    };
    let dragged = match tray.slider_drag {
        Some(drag) => drag.kind == kind,
        None => false,
    };
    SliderRow {
        kind,
        glyph,
        percent,
        knob: if dragged {
            Some(concat(decimal_text(percent as u64).as_str(), "%"))
        } else {
            None
        },
        note: if status.available {
            None
        } else {
            Some("利用不可")
        },
    }
}

/// A text, unless it is empty.
pub open spec fn unless_empty(s: Seq<char>) -> Option<Seq<char>> {
    if s.len() == 0 {
        None
    } else {
        Some(s)
    }
}

/// A text, unless it is empty.
fn text_unless_empty(s: &String) -> (r: Option<String>)
    ensures
        opt_view(r) == unless_empty(s@),
{
    proof {
        reveal_strlit("");
        if s@.len() == 0 {
            assert(s@ =~= ""@);
        }
    }
    if same(s.as_str(), "") {
        None
    } else {
        Some(s.clone())
    }
}

/// A notification in the list of the tray.
pub struct NotificationRow {
    pub id: u32,
    pub summary: String,
    pub app_name: Option<String>,
    pub body: Option<String>,
}

/// Whether a row is that of a notification.
pub open spec fn row_of(r: NotificationRow, n: Notification) -> bool {
    &&& r.id == n.id
    &&& r.summary@ == n.summary@
    &&& opt_view(r.app_name) == unless_empty(n.app_name@)
    &&& opt_view(r.body) == unless_empty(n.body@)
}

/// The list of notifications.
pub struct NotificationList {
    pub title: String,
    pub note: Option<&'static str>,
    pub rows: Vec<NotificationRow>,
}

/// The list of notifications, with how many there are.
pub fn notification_list(notifications: &Vec<Notification>) -> (r: NotificationList)
    ensures
        r.title@ == "Notifications ("@ + decimal(notifications@.len()) + ")"@,
        match r.note {
            Some(note) => notifications@.len() == 0 && note@ == "No notifications"@,
            None => notifications@.len() > 0,
        },
        r.rows@.len() == notifications@.len(),
        forall|i: int|
            0 <= i < r.rows@.len() ==> row_of(#[trigger] r.rows@[i], notifications@[i]),
{
    let mut rows: Vec<NotificationRow> = Vec::new();
    let mut i: usize = 0;
    while i < notifications.len()
        invariant
            i <= notifications.len(),
            rows@.len() == i,
            forall|j: int| 0 <= j < i ==> row_of(#[trigger] rows@[j], notifications@[j]),
        decreases notifications.len() - i,
    {
        let notification = &notifications[i];
        rows.push(
            NotificationRow {
                id: notification.id,
                summary: notification.summary.clone(),
                app_name: text_unless_empty(&notification.app_name),
                body: text_unless_empty(&notification.body),
            },
        );
        i += 1;
    }
    let mut title = concat("Notifications (", decimal_text(notifications.len() as u64).as_str());
    title.append(")");
    NotificationList {
        title,
        note: if notifications.len() == 0 {
            Some("No notifications")
        } else {
            None
        },
        rows,
    }
}

/// A day of the calendar.
pub struct CalendarCell {
    pub label: Option<String>,
    pub today: bool,
}

/// Whether a cell is that of a day.
pub open spec fn cell_of(
    r: CalendarCell,
    day: Option<u32>,
    month: CalendarMonth,
    today: LocalTime,
) -> bool {
    &&& opt_view(r.label) == match day {
        Some(d) => Some(decimal(d as nat)),
        None => None,
    }
    &&& r.today == (month.year == today.year && month.month == today.month && day == Some(
        today.day,
    ))
}

/// The days of the week, from Sunday.
pub fn weekday_labels() -> (r: Vec<&'static str>)
    ensures
        r@.map_values(|l: &'static str| l@) == seq!["日"@, "月"@, "火"@, "水"@, "木"@, "金"@, "土"@],
{
    let labels: Vec<&'static str> = vec!["日", "月", "火", "水", "木", "金", "土"];
    proof {
        assert(labels@.map_values(|l: &'static str| l@)
            =~= seq!["日"@, "月"@, "火"@, "水"@, "木"@, "金"@, "土"@]);
    }
    labels
}

/// The calendar of a month.
pub struct CalendarView {
    pub title: String,
    pub cells: Vec<CalendarCell>,
}

/// The calendar of a month: six weeks, in which today stands out.
pub fn calendar_view(month: &CalendarMonth, today: &LocalTime) -> (r: CalendarView)
    requires
        is_date(month.year as int, month.month as int, 1),
        adjacent(month.year as int, month.month as int, 1).0 <= MAX_YEAR,
    ensures
        r.title@ == decimal_int(month.year as int) + "年"@ + decimal(month.month as nat) + "月"@,
        r.cells@.len() == 42,
        forall|i: int|
            0 <= i < 42 ==> cell_of(
                #[trigger] r.cells@[i],
                day_at(month.year as int, month.month as int, i),
                *month,
                *today,
            ),
{
    let days = calendar_days_for_month(month.year, month.month);
    let mut cells: Vec<CalendarCell> = Vec::new();
    let mut i: usize = 0;
    while i < days.len()
        invariant
            i <= days.len(),
            cells@.len() == i,
            forall|j: int|
                0 <= j < i ==> cell_of(#[trigger] cells@[j], days@[j], *month, *today),
        decreases days.len() - i,
    {
        let day = days[i];
        cells.push(
            CalendarCell {
                label: match day {
                    Some(day) => Some(decimal_text(day as u64)),
                    None => None,
                },
                today: is_today(month, day, today),
            },
        );
        i += 1;
    }
    proof {
        assert forall|j: int| 0 <= j < 42 implies cell_of(
            #[trigger] cells@[j],
            day_at(month.year as int, month.month as int, j),
            *month,
            *today,
        ) by {
            assert(days@[j] == day_at(month.year as int, month.month as int, j));
        }
    }
    CalendarView { title: month_title(month), cells }
}

/// A popup of a notification.
pub struct CardView {
    pub id: u32,
    pub urgency: Urgency,
    /// What stands for the icon where there is no image.
    pub glyph: &'static str,
    pub summary: String,
    /// How often it came, where it came more than once.
    pub repeated: Option<String>,
    pub app_name: Option<String>,
    pub body: Option<String>,
    pub progress: Option<u8>,
    pub actions: Vec<NotificationAction>,
}

/// The popup of a notification.
pub fn card_view(notification: &Notification) -> (r: CardView)
    ensures
        r.id == notification.id,
        r.urgency == notification.urgency,
        r.glyph@ == if notification.app_icon@.len() == 0 {
            "\u{f0f3}"@
        } else {
            "\u{f009a}"@
        },
        r.summary@ == notification.summary@,
        opt_view(r.repeated) == if notification.duplicate_count > 1 {
            Some("×"@ + decimal(notification.duplicate_count as nat))
        } else {
            None
        },
        opt_view(r.app_name) == unless_empty(notification.app_name@),
        opt_view(r.body) == unless_empty(notification.body@),
        r.progress == notification.progress,
        r.actions@.len() == notification.actions@.len(),
        forall|i: int|
            0 <= i < r.actions@.len() ==> (#[trigger] r.actions@[i])@ == notification.actions@[i]@,
{
    let mut actions: Vec<NotificationAction> = Vec::new();
    let mut i: usize = 0;
    while i < notification.actions.len()
        invariant
            i <= notification.actions.len(),
            actions@.len() == i,
            forall|j: int|
                0 <= j < i ==> (#[trigger] actions@[j])@ == notification.actions@[j]@,
        decreases notification.actions.len() - i,
    {
        actions.push(notification.actions[i].clone());
        i += 1;
    }
    let icon = text_unless_empty(&notification.app_icon);
    CardView {
        id: notification.id,
        urgency: notification.urgency,
        glyph: if icon.is_none() {
            "\u{f0f3}"
        } else {
            "\u{f009a}"
        },
        summary: notification.summary.clone(),
        repeated: if notification.duplicate_count > 1 {
            Some(concat("×", decimal_text(notification.duplicate_count as u64).as_str()))
        } else {
            None
        },
        app_name: text_unless_empty(&notification.app_name),
        body: text_unless_empty(&notification.body),
        progress: notification.progress,
        actions,
    }
}

/// What an entry of the clipboard is shown by.
pub enum EntryContent {
    /// Its text, or that it cannot be read.
    Text(String),
    /// Its image.
    Image,
    /// What it is, and how large.
    Description(String),
}

/// Whether that is what an entry is shown by: its text where it has one, else its
/// image where that can be drawn, else a description.
pub open spec fn content_of(
    r: EntryContent,
    entry: ClipboardEntry,
    text: Option<Seq<u8>>,
    drawable: bool,
) -> bool {
    match find_first(entry.payloads@, text_payloads()) {
        Some(_) => r matches EntryContent::Text(shown) && shown@ == match text {
            Some(bytes) => preview(lossy(bytes)),
            None => "<unable to read text>"@,
        },
        None => match find_first(entry.payloads@, image_payloads()) {
            Some(image) => if drawable {
                r is Image
            } else {
                r matches EntryContent::Description(shown) && shown@ == image.mime_type@ + "  "@
                    + decimal(image.size as nat) + " bytes"@
            },
            None => r matches EntryContent::Description(shown) && shown@ == (match shown_payload(
                entry.payloads@,
            ) {
                Some(p) => p.mime_type@,
                None => "application/octet-stream"@,
            }) + "  "@ + decimal(entry.total_size as nat) + " bytes"@,
        },
    }
}

/// What an entry of the clipboard is shown by, given the bytes of its text where
/// they could be read, and whether its image can be drawn.
pub fn entry_content(entry: &ClipboardEntry, text: Option<&Vec<u8>>, drawable: bool) -> (r:
    EntryContent)
    ensures
        content_of(
            r,
            *entry,
            match text {
                Some(bytes) => Some(bytes@),
                None => None,
            },
            drawable,
        ),
{
    if entry.text_payload().is_some() {
        return EntryContent::Text(
            match text {
                Some(bytes) => text_preview(bytes),
                None => owned("<unable to read text>"),
            },
        );
    }
    match entry.image_payload() {
        Some(image) => {
            if drawable {
                EntryContent::Image
            } else {
                EntryContent::Description(size_label(image.mime_type.as_str(), image.size))
            }
        },
        None => EntryContent::Description(size_label(entry.display_mime_type(), entry.total_size)),
    }
}

/// A switch shows the state of what it switches, and its label but for a wired connection.
pub proof fn law_switch_of_status(r: SwitchButton, s: ToggleStatus)
    requires
        switch_of(r, s),
    ensures
        r.on == s.enabled,
        r.available == s.available,
        r.label is None <==> s.wired,
        r.label matches Some(l) ==> l@ == s.label@,
{
}

/// A slider shows its own level, never above a hundred; the number on its knob is shown
/// only while it is dragged, and what is not there is said not to be.
pub proof fn law_slider_of_level(r: SliderRow, t: NotificationTray, kind: SliderKind)
    requires
        slider_of(r, t, kind),
    ensures
        r.kind == kind,
        r.percent <= 100,
        level(t.controls, kind).percent <= 100 ==> r.percent == level(t.controls, kind).percent,
        r.knob is Some <==> t.slider_drag is Some && t.slider_drag->0.kind == kind,
        r.knob matches Some(k) ==> k@ == decimal(r.percent as nat) + "%"@,
        r.note is None <==> level(t.controls, kind).available,
        kind is AudioOutput ==> r.glyph@ == mute_glyph(
            AudioEndpoint::Output,
            t.controls.audio_output.muted,
        ),
        kind is AudioInput ==> r.glyph@ == mute_glyph(
            AudioEndpoint::Input,
            t.controls.audio_input.muted,
        ),
{
}

/// A row tells what its notification says, and leaves out what is empty.
pub proof fn law_row_of_notification(r: NotificationRow, n: Notification)
    requires
        row_of(r, n),
    ensures
        r.id == n.id,
        r.summary@ == n.summary@,
        r.app_name is None <==> n.app_name@.len() == 0,
        r.app_name matches Some(a) ==> a@ == n.app_name@,
        r.body is None <==> n.body@.len() == 0,
        r.body matches Some(b) ==> b@ == n.body@,
{
}

/// A cell of the calendar shows its day, and is marked today only on this day of this
/// month of this year.
pub proof fn law_cell_of_day(
    r: CalendarCell,
    day: Option<u32>,
    month: CalendarMonth,
    today: LocalTime,
)
    requires
        cell_of(r, day, month, today),
    ensures
        r.label is None <==> day is None,
        r.label matches Some(l) ==> l@ == decimal(day->0 as nat),
        r.today <==> month.year == today.year && month.month == today.month && day is Some
            && day->0 == today.day,
{
}

/// An entry with text is shown by its text; one with a picture but no text by the
/// picture, where it can be drawn; and any other by its type and its size.
pub proof fn law_content_of_entry(
    r: EntryContent,
    entry: ClipboardEntry,
    text: Option<Seq<u8>>,
    drawable: bool,
)
    requires
        content_of(r, entry, text, drawable),
    ensures
        r is Text <==> exists|i: int|
            0 <= i < entry.payloads@.len() && is_textual(#[trigger] entry.payloads@[i]),
        r matches EntryContent::Text(shown) ==> (text matches Some(bytes) ==> shown@ == preview(
            lossy(bytes),
        )),
        r is Image <==> drawable && !(r is Text) && exists|i: int|
            0 <= i < entry.payloads@.len() && is_picture(#[trigger] entry.payloads@[i]),
{
    let s = entry.payloads@;
    lemma_payload_kinds(s);
    lemma_first_index_bounds(s, text_payloads());
    lemma_first_index_bounds(s, image_payloads());
    let a = first_index(s, text_payloads()) as int;
    let b = first_index(s, image_payloads()) as int;
    if a < s.len() {
        assert(text_payloads()(s[a]));
        assert(is_textual(s[a]));
    } else {
        assert forall|i: int| 0 <= i < s.len() implies !is_textual(#[trigger] s[i]) by {
            assert(!text_payloads()(s[i]));
        }
    }
    if b < s.len() {
        assert(image_payloads()(s[b]));
        assert(is_picture(s[b]));
    } else {
        assert forall|i: int| 0 <= i < s.len() implies !is_picture(#[trigger] s[i]) by {
            assert(!image_payloads()(s[i]));
        }
    }
}

} // verus!

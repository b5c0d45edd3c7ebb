//! The cards that show notifications for a while.

use vstd::prelude::*;

use crate::modules::notifications::Urgency;
use crate::theme::BahTheme;

verus! {

/// How high the stack of cards is: so many pixels for each, for at most six.
pub fn height_for(notification_count: usize) -> (r: u32)
    ensures
        r == (if notification_count > 6 {
            6
        } else {
            notification_count as int
        }) * 118 + 16,
        1 <= r <= 724,
{
    let shown: u32 = if notification_count > 6 {
        6
    } else {
        notification_count as u32
    };
    shown * 118 + 16
}

/// The colour in which a notification's summary stands.
pub fn urgency_colour(theme: &BahTheme, urgency: Urgency) -> (r: u32)
    ensures
        r == match urgency {
            Urgency::Low => theme.muted_foreground,
            Urgency::Normal => theme.foreground,
            Urgency::Critical => theme.error,
        },
{
    match urgency {
        Urgency::Low => theme.muted_foreground,
        Urgency::Normal => theme.foreground,
        Urgency::Critical => theme.error,
    }
}

} // verus!

//! Settings of the shell, as far as its decisions read them.

use vstd::prelude::*;

verus! {

/// The command that opens a terminal for the device control centre: the
/// executable first, then its literal arguments.
#[derive(Debug)]
pub struct DeviceControlCenterConfig {
    pub terminal_command: Vec<String>,
}

impl Default for DeviceControlCenterConfig {
    fn default() -> (r: Self)
        ensures
            r.terminal_command@.len() == 0,
    {
        DeviceControlCenterConfig { terminal_command: Vec::new() }
    }
}

/// A rule that changes how matching notifications are presented.
#[derive(Debug)]
pub struct NotificationRuleConfig {
    pub name: String,
    pub enabled: bool,
    pub app_name: Option<String>,
    pub summary: Option<String>,
    pub category: Option<String>,
    pub desktop_entry: Option<String>,
    pub urgency: Option<String>,
    pub timeout_seconds: Option<u64>,
    pub override_pause_level: Option<u8>,
    pub skip_popup: Option<bool>,
    pub history_ignore: Option<bool>,
    pub stack_tag: Option<String>,
}

impl Default for NotificationRuleConfig {
    fn default() -> (r: Self)
        ensures
            r.name@ == Seq::<char>::empty(),
            r.enabled,
            r.app_name is None,
            r.summary is None,
            r.category is None,
            r.desktop_entry is None,
            r.urgency is None,
            r.timeout_seconds is None,
            r.override_pause_level is None,
            r.skip_popup is None,
            r.history_ignore is None,
            r.stack_tag is None,
    {
        NotificationRuleConfig {
            name: String::new(),
            enabled: true,
            app_name: None,
            summary: None,
            category: None,
            desktop_entry: None,
            urgency: None,
            timeout_seconds: None,
            override_pause_level: None,
            skip_popup: None,
            history_ignore: None,
            stack_tag: None,
        }
    }
}

impl Clone for NotificationRuleConfig {
    fn clone(&self) -> (r: Self)
        ensures
            r == *self,
    {
        NotificationRuleConfig {
            name: self.name.clone(),
            enabled: self.enabled,
            app_name: self.app_name.clone(),
            summary: self.summary.clone(),
            category: self.category.clone(),
            desktop_entry: self.desktop_entry.clone(),
            urgency: self.urgency.clone(),
            timeout_seconds: self.timeout_seconds,
            override_pause_level: self.override_pause_level,
            skip_popup: self.skip_popup,
            history_ignore: self.history_ignore,
            stack_tag: self.stack_tag.clone(),
        }
    }
}

/// Settings of the notification daemon. A timeout of zero seconds means that
/// notifications of that urgency stay until they are dismissed.
#[derive(Debug)]
pub struct NotificationConfig {
    pub enabled: bool,
    pub notification_limit: usize,
    pub history_length: usize,
    pub low_timeout_seconds: u64,
    pub normal_timeout_seconds: u64,
    pub critical_timeout_seconds: u64,
    pub pause_level: u8,
    pub rules: Vec<NotificationRuleConfig>,
}

impl Default for NotificationConfig {
    fn default() -> (r: Self)
        ensures
            r.enabled,
            r.notification_limit == 20,
            r.history_length == 20,
            r.low_timeout_seconds == 10,
            r.normal_timeout_seconds == 10,
            r.critical_timeout_seconds == 0,
            r.pause_level == 0,
            r.rules@.len() == 0,
    {
        NotificationConfig {
            enabled: true,
            notification_limit: 20,
            history_length: 20,
            low_timeout_seconds: 10,
            normal_timeout_seconds: 10,
            critical_timeout_seconds: 0,
            pause_level: 0,
            rules: Vec::new(),
        }
    }
}

impl Clone for NotificationConfig {
    fn clone(&self) -> (r: Self)
        ensures
            r.enabled == self.enabled,
            r.notification_limit == self.notification_limit,
            r.history_length == self.history_length,
            r.low_timeout_seconds == self.low_timeout_seconds,
            r.normal_timeout_seconds == self.normal_timeout_seconds,
            r.critical_timeout_seconds == self.critical_timeout_seconds,
            r.pause_level == self.pause_level,
            r.rules@ == self.rules@,
    {
        NotificationConfig {
            enabled: self.enabled,
            notification_limit: self.notification_limit,
            history_length: self.history_length,
            low_timeout_seconds: self.low_timeout_seconds,
            normal_timeout_seconds: self.normal_timeout_seconds,
            critical_timeout_seconds: self.critical_timeout_seconds,
            pause_level: self.pause_level,
            rules: clone_rules(&self.rules),
        }
    }
}

/// A copy of some rules.
pub fn clone_rules(rules: &Vec<NotificationRuleConfig>) -> (r: Vec<NotificationRuleConfig>)
    ensures
        r@ == rules@,
{
    let mut out: Vec<NotificationRuleConfig> = Vec::new();
    let mut i: usize = 0;
    while i < rules.len()
        invariant
            i <= rules.len(),
            out@ == rules@.take(i as int),
        decreases rules.len() - i,
    {
        out.push(rules[i].clone());
        i += 1;
    }
    proof {
        assert(rules@.take(i as int) =~= rules@);
    }
    out
}

/// Why a configuration is refused.
#[derive(Clone, Copy, Debug, PartialEq, Eq, Structural)]
pub enum ConfigError {
    BarHeight,
    PopupWidth,
    PauseLevel,
}

impl ConfigError {
    /// The message that names the offending setting.
    pub fn message(self) -> (r: &'static str)
        ensures
            r@ == match self {
                ConfigError::BarHeight => "configuration bar_height must be a positive finite number"@,
                ConfigError::PopupWidth => "configuration notifications.popup_width must be a positive finite number"@,
                ConfigError::PauseLevel => "configuration notifications.pause_level must be between 0 and 100"@,
            },
    {
        match self {
            ConfigError::BarHeight => "configuration bar_height must be a positive finite number",
            ConfigError::PopupWidth =>
                "configuration notifications.popup_width must be a positive finite number",
            ConfigError::PauseLevel =>
                "configuration notifications.pause_level must be between 0 and 100",
        }
    }
}

/// Checks a configuration as it was read: whether the two lengths are positive
/// finite numbers, and the pause level. The first fault in this order is
/// reported.
pub fn check_config(bar_height_valid: bool, popup_width_valid: bool, pause_level: u8) -> (r: Result<
    (),
    ConfigError,
>)
    ensures
        r is Ok <==> bar_height_valid && popup_width_valid && pause_level <= 100,
        r == Err::<(), ConfigError>(ConfigError::BarHeight) <==> !bar_height_valid,
        r == Err::<(), ConfigError>(ConfigError::PopupWidth) <==> bar_height_valid
            && !popup_width_valid,
        r == Err::<(), ConfigError>(ConfigError::PauseLevel) <==> bar_height_valid
            && popup_width_valid && pause_level > 100,
{
    if !bar_height_valid {
        return Err(ConfigError::BarHeight);
    }
    if !popup_width_valid {
        return Err(ConfigError::PopupWidth);
    }
    if pause_level > 100 {
        return Err(ConfigError::PauseLevel);
    }
    Ok(())
}

} // verus!

//! The control interface of the notification daemon: what a command line asks
//! for, what the daemon reports, and how an icon is chosen.

use vstd::prelude::*;
use vstd::string::*;

use crate::config::NotificationRuleConfig;
use crate::modules::notifications::{urgency_name, Notification, NotificationView};
use crate::seqs::{find_first, lemma_first_index};
use crate::text::{
    concat, decimal, decimal_text, law_decimal_round_trip, lines, opt_view, owned, parse_u32,
    parse_unsigned, position, same, starts_with, text_lines, text_strip_prefix, trim, trim_text, views,
};

verus! {

/// Which of the counts is asked for.
#[derive(Clone, Copy, Debug, PartialEq, Eq, Structural)]
pub enum CountKind {
    All,
    Displayed,
    Waiting,
    History,
}

/// How the pause is to change.
#[derive(Clone, Copy, Debug, PartialEq, Eq, Structural)]
pub enum PausedChange {
    On,
    Off,
    Toggle,
}

/// What a command line asks of the daemon.
#[derive(Debug)]
pub enum ControlCommand {
    Help,
    CloseLast,
    Close(u32),
    CloseAll,
    Action(u32),
    Context,
    Count(CountKind),
    History,
    HistoryClear,
    HistoryShow,
    HistoryPop(u32),
    HistoryRemove(u32),
    IsPaused,
    SetPaused(PausedChange),
    GetPauseLevel,
    SetPauseLevel(u32),
    Rule { name: String, state: i32 },
    Rules,
    Reload(Vec<String>),
    Debug,
}

/// The contents of a command.
pub enum ControlView {
    Help,
    CloseLast,
    Close(u32),
    CloseAll,
    Action(u32),
    Context,
    Count(CountKind),
    History,
    HistoryClear,
    HistoryShow,
    HistoryPop(u32),
    HistoryRemove(u32),
    IsPaused,
    SetPaused(PausedChange),
    GetPauseLevel,
    SetPauseLevel(u32),
    Rule { name: Seq<char>, state: i32 },
    Rules,
    Reload(Seq<Seq<char>>),
    Debug,
}

impl View for ControlCommand {
    type V = ControlView;

    open spec fn view(&self) -> ControlView {
        match *self {
            ControlCommand::Help => ControlView::Help,
            ControlCommand::CloseLast => ControlView::CloseLast,
            ControlCommand::Close(id) => ControlView::Close(id),
            ControlCommand::CloseAll => ControlView::CloseAll,
            ControlCommand::Action(position) => ControlView::Action(position),
            ControlCommand::Context => ControlView::Context,
            ControlCommand::Count(kind) => ControlView::Count(kind),
            ControlCommand::History => ControlView::History,
            ControlCommand::HistoryClear => ControlView::HistoryClear,
            ControlCommand::HistoryShow => ControlView::HistoryShow,
            ControlCommand::HistoryPop(id) => ControlView::HistoryPop(id),
            ControlCommand::HistoryRemove(id) => ControlView::HistoryRemove(id),
            ControlCommand::IsPaused => ControlView::IsPaused,
            ControlCommand::SetPaused(change) => ControlView::SetPaused(change),
            ControlCommand::GetPauseLevel => ControlView::GetPauseLevel,
            ControlCommand::SetPauseLevel(level) => ControlView::SetPauseLevel(level),
            ControlCommand::Rule { name, state } => ControlView::Rule { name: name@, state },
            ControlCommand::Rules => ControlView::Rules,
            ControlCommand::Reload(paths) => ControlView::Reload(views(paths@)),
            ControlCommand::Debug => ControlView::Debug,
        }
    }
}

/// The identifier that a text denotes, or the message that it denotes none.
pub open spec fn read_id(value: Seq<char>) -> Result<u32, Seq<char>> {
    match parse_unsigned(value, u32::MAX as nat) {
        Some(n) => Ok(n as u32),
        None => Err("notification ID must be a number"@),
    }
}

/// Reads an identifier.
pub fn parse_id(value: &str) -> (r: Result<u32, String>)
    ensures
        match r {
            Ok(id) => read_id(value@) == Ok::<u32, Seq<char>>(id),
            Err(message) => read_id(value@) == Err::<u32, Seq<char>>(message@),
        },
{
    match parse_u32(value) {
        Some(id) => Ok(id),
        None => Err(owned("notification ID must be a number")),
    }
}

/// An argument, or the message that it is missing.
pub open spec fn argument(args: Seq<Seq<char>>, i: int) -> Option<Seq<char>> {
    if i < args.len() {
        Some(args[i])
    } else {
        None
    }
}

/// What the argument of `count` asks for.
pub open spec fn count_kind(argument: Option<Seq<char>>) -> Result<ControlView, Seq<char>> {
    match argument {
        None => Ok(ControlView::Count(CountKind::All)),
        Some(a) => if a == "displayed"@ {
            Ok(ControlView::Count(CountKind::Displayed))
        } else if a == "waiting"@ {
            Ok(ControlView::Count(CountKind::Waiting))
        } else if a == "history"@ {
            Ok(ControlView::Count(CountKind::History))
        } else {
            Err("count accepts displayed, waiting, or history"@)
        },
    }
}

/// What the argument of `set-paused` asks for.
pub open spec fn paused_change(argument: Option<Seq<char>>) -> Result<ControlView, Seq<char>> {
    if argument == Some("true"@) {
        Ok(ControlView::SetPaused(PausedChange::On))
    } else if argument == Some("false"@) {
        Ok(ControlView::SetPaused(PausedChange::Off))
    } else if argument == Some("toggle"@) {
        Ok(ControlView::SetPaused(PausedChange::Toggle))
    } else {
        Err("set-paused requires true, false, or toggle"@)
    }
}

/// What the arguments of `rule` ask for.
pub open spec fn rule_change(name: Option<Seq<char>>, state: Option<Seq<char>>) -> Result<
    ControlView,
    Seq<char>,
> {
    match name {
        None => Err("rule requires a name"@),
        Some(name) => if state == Some("disable"@) {
            Ok(ControlView::Rule { name, state: 0 })
        } else if state == Some("enable"@) {
            Ok(ControlView::Rule { name, state: 1 })
        } else if state == Some("toggle"@) {
            Ok(ControlView::Rule { name, state: 2 })
        } else {
            Err("rule requires enable, disable, or toggle"@)
        },
    }
}

/// What a command line asks of the daemon, or why it cannot be understood.
pub open spec fn control_of(args: Seq<Seq<char>>) -> Result<ControlView, Seq<char>> {
    let first = argument(args, 1);
    if args.len() == 0 || args[0] == "help"@ || args[0] == "--help"@ || args[0] == "-h"@ {
        Ok(ControlView::Help)
    } else if args[0] == "close"@ {
        match first {
            None => Ok(ControlView::CloseLast),
            Some(a) => match read_id(a) {
                Ok(id) => Ok(ControlView::Close(id)),
                Err(e) => Err(e),
            },
        }
    } else if args[0] == "close-all"@ {
        Ok(ControlView::CloseAll)
    } else if args[0] == "action"@ {
        match first {
            None => Ok(ControlView::Action(0)),
            Some(a) => match read_id(a) {
                Ok(id) => Ok(ControlView::Action(id)),
                Err(e) => Err(e),
            },
        }
    } else if args[0] == "context"@ {
        Ok(ControlView::Context)
    } else if args[0] == "count"@ {
        count_kind(first)
    } else if args[0] == "history"@ {
        Ok(ControlView::History)
    } else if args[0] == "history-clear"@ {
        Ok(ControlView::HistoryClear)
    } else if args[0] == "history-pop"@ {
        match first {
            None => Ok(ControlView::HistoryShow),
            Some(a) => match read_id(a) {
                Ok(id) => Ok(ControlView::HistoryPop(id)),
                Err(e) => Err(e),
            },
        }
    } else if args[0] == "history-rm"@ {
        match first {
            None => Err("history-rm requires an ID"@),
            Some(a) => match read_id(a) {
                Ok(id) => Ok(ControlView::HistoryRemove(id)),
                Err(e) => Err(e),
            },
        }
    } else if args[0] == "is-paused"@ {
        Ok(ControlView::IsPaused)
    } else if args[0] == "set-paused"@ {
        paused_change(first)
    } else if args[0] == "get-pause-level"@ {
        Ok(ControlView::GetPauseLevel)
    } else if args[0] == "set-pause-level"@ {
        match first {
            None => Err("set-pause-level requires a level"@),
            Some(a) => match read_id(a) {
                Ok(level) => if level > 100 {
                    Err("pause level must be between 0 and 100"@)
                } else {
                    Ok(ControlView::SetPauseLevel(level))
                },
                Err(e) => Err(e),
            },
        }
    } else if args[0] == "rule"@ {
        rule_change(first, argument(args, 2))
    } else if args[0] == "rules"@ {
        Ok(ControlView::Rules)
    } else if args[0] == "reload"@ {
        Ok(ControlView::Reload(args.skip(1)))
    } else if args[0] == "debug"@ {
        Ok(ControlView::Debug)
    } else {
        Err("unrecognized notification command: "@ + args[0])
    }
}

/// Whether a parse came out as a specification says.
pub open spec fn control_result(
    r: Result<ControlCommand, String>,
    expected: Result<ControlView, Seq<char>>,
) -> bool {
    match r {
        Ok(command) => expected == Ok::<ControlView, Seq<char>>(command@),
        Err(message) => expected == Err::<ControlView, Seq<char>>(message@),
    }
}

/// Reads the argument of `count`.
fn parse_count(argument: Option<&String>) -> (r: Result<ControlCommand, String>)
    ensures
        control_result(
            r,
            count_kind(
                match argument {
                    Some(a) => Some(a@),
                    None => None,
                },
            ),
        ),
{
    match argument {
        None => Ok(ControlCommand::Count(CountKind::All)),
        Some(a) => if same(a.as_str(), "displayed") {
            Ok(ControlCommand::Count(CountKind::Displayed))
        } else if same(a.as_str(), "waiting") {
            Ok(ControlCommand::Count(CountKind::Waiting))
        } else if same(a.as_str(), "history") {
            Ok(ControlCommand::Count(CountKind::History))
        } else {
            Err(owned("count accepts displayed, waiting, or history"))
        },
    }
}

/// Reads the argument of `set-paused`.
fn parse_paused(argument: Option<&String>) -> (r: Result<ControlCommand, String>)
    ensures
        control_result(
            r,
            paused_change(
                match argument {
                    Some(a) => Some(a@),
                    None => None,
                },
            ),
        ),
{
    if let Some(a) = argument {
        if same(a.as_str(), "true") {
            return Ok(ControlCommand::SetPaused(PausedChange::On));
        }
        if same(a.as_str(), "false") {
            return Ok(ControlCommand::SetPaused(PausedChange::Off));
        }
        if same(a.as_str(), "toggle") {
            return Ok(ControlCommand::SetPaused(PausedChange::Toggle));
        }
    }
    Err(owned("set-paused requires true, false, or toggle"))
}

/// Reads the arguments of `rule`.
fn parse_rule(name: Option<&String>, state: Option<&String>) -> (r: Result<ControlCommand, String>)
    ensures
        control_result(
            r,
            rule_change(
                match name {
                    Some(a) => Some(a@),
                    None => None,
                },
                match state {
                    Some(a) => Some(a@),
                    None => None,
                },
            ),
        ),
{
    match name {
        None => Err(owned("rule requires a name")),
        Some(name) => {
            if let Some(a) = state {
                if same(a.as_str(), "disable") {
                    return Ok(ControlCommand::Rule { name: name.clone(), state: 0 });
                }
                if same(a.as_str(), "enable") {
                    return Ok(ControlCommand::Rule { name: name.clone(), state: 1 });
                }
                if same(a.as_str(), "toggle") {
                    return Ok(ControlCommand::Rule { name: name.clone(), state: 2 });
                }
            }
            Err(owned("rule requires enable, disable, or toggle"))
        },
    }
}

/// The arguments from the second on.
fn rest_of(arguments: &Vec<String>) -> (r: Vec<String>)
    requires
        arguments@.len() > 0,
    ensures
        views(r@) == views(arguments@).skip(1),
{
    let mut out: Vec<String> = Vec::new();
    let mut i: usize = 1;
    proof {
        assert(views(out@) =~= views(arguments@).subrange(1, 1));
    }
    while i < arguments.len()
        invariant
            1 <= i <= arguments.len(),
            views(out@) == views(arguments@).subrange(1, i as int),
        decreases arguments.len() - i,
    {
        let ghost before = out@;
        out.push(arguments[i].clone());
        proof {
            assert(views(out@) =~= views(before).push(arguments@[i as int]@));
            assert(views(arguments@).subrange(1, i + 1) =~= views(arguments@).subrange(
                1,
                i as int,
            ).push(arguments@[i as int]@));
        }
        i += 1;
    }
    proof {
        assert(views(arguments@).subrange(1, i as int) =~= views(arguments@).skip(1));
    }
    out
}

/// Reads a command line of `bah notifications`.
pub fn parse_control(arguments: &Vec<String>) -> (r: Result<ControlCommand, String>)
    ensures
        control_result(r, control_of(views(arguments@))),
{
    let ghost args = views(arguments@);
    if arguments.len() == 0 {
        return Ok(ControlCommand::Help);
    }
    let command = arguments[0].as_str();
    let first: Option<&String> = if arguments.len() > 1 {
        Some(&arguments[1])
    } else {
        None
    };
    let second: Option<&String> = if arguments.len() > 2 {
        Some(&arguments[2])
    } else {
        None
    };
    proof {
        assert(args[0] == command@);
        assert(argument(args, 1) == match first {
            Some(a) => Some(a@),
            None => None,
        });
        assert(argument(args, 2) == match second {
            Some(a) => Some(a@),
            None => None,
        });
    }
    if same(command, "help") || same(command, "--help") || same(command, "-h") {
        return Ok(ControlCommand::Help);
    }
    if same(command, "close") {
        return match first {
            None => Ok(ControlCommand::CloseLast),
            Some(a) => match parse_id(a.as_str()) {
                Ok(id) => Ok(ControlCommand::Close(id)),
                Err(e) => Err(e),
            },
        };
    }
    if same(command, "close-all") {
        return Ok(ControlCommand::CloseAll);
    }
    if same(command, "action") {
        return match first {
            None => Ok(ControlCommand::Action(0)),
            Some(a) => match parse_id(a.as_str()) {
                Ok(id) => Ok(ControlCommand::Action(id)),
                Err(e) => Err(e),
            },
        };
    }
    if same(command, "context") {
        return Ok(ControlCommand::Context);
    }
    if same(command, "count") {
        return parse_count(first);
    }
    if same(command, "history") {
        return Ok(ControlCommand::History);
    }
    if same(command, "history-clear") {
        return Ok(ControlCommand::HistoryClear);
    }
    if same(command, "history-pop") {
        return match first {
            None => Ok(ControlCommand::HistoryShow),
            Some(a) => match parse_id(a.as_str()) {
                Ok(id) => Ok(ControlCommand::HistoryPop(id)),
                Err(e) => Err(e),
            },
        };
    }
    if same(command, "history-rm") {
        return match first {
            None => Err(owned("history-rm requires an ID")),
            Some(a) => match parse_id(a.as_str()) {
                Ok(id) => Ok(ControlCommand::HistoryRemove(id)),
                Err(e) => Err(e),
            },
        };
    }
    if same(command, "is-paused") {
        return Ok(ControlCommand::IsPaused);
    }
    if same(command, "set-paused") {
        return parse_paused(first);
    }
    if same(command, "get-pause-level") {
        return Ok(ControlCommand::GetPauseLevel);
    }
    if same(command, "set-pause-level") {
        return match first {
            None => Err(owned("set-pause-level requires a level")),
            Some(a) => match parse_id(a.as_str()) {
                Ok(level) => if level > 100 {
                    Err(owned("pause level must be between 0 and 100"))
                } else {
                    Ok(ControlCommand::SetPauseLevel(level))
                },
                Err(e) => Err(e),
            },
        };
    }
    if same(command, "rule") {
        return parse_rule(first, second);
    }
    if same(command, "rules") {
        return Ok(ControlCommand::Rules);
    }
    if same(command, "reload") {
        return Ok(ControlCommand::Reload(rest_of(arguments)));
    }
    if same(command, "debug") {
        return Ok(ControlCommand::Debug);
    }
    Err(concat("unrecognized notification command: ", command))
}

/// Whether the daemon is to be paused after a change.
pub fn paused_after(change: PausedChange, current: bool) -> (r: bool)
    ensures
        r == match change {
            PausedChange::On => true,
            PausedChange::Off => false,
            PausedChange::Toggle => !current,
        },
{
    match change {
        PausedChange::On => true,
        PausedChange::Off => false,
        PausedChange::Toggle => !current,
    }
}

/// The pause level that being paused or not stands for.
pub fn paused_level(paused: bool) -> (r: u8)
    ensures
        r == if paused {
            100u8
        } else {
            0u8
        },
{
    if paused {
        100
    } else {
        0
    }
}

/// The report of the counts that are asked for.
pub open spec fn count_report(kind: CountKind, displayed: u32, waiting: u32, history: u32) -> Seq<
    char,
> {
    match kind {
        CountKind::All => "              Waiting: "@ + decimal(waiting as nat)
            + "\n  Currently displayed: "@ + decimal(displayed as nat) + "\n              History: "@
            + decimal(history as nat),
        CountKind::Displayed => decimal(displayed as nat),
        CountKind::Waiting => decimal(waiting as nat),
        CountKind::History => decimal(history as nat),
    }
}

/// The report of the counts that are asked for.
pub fn count_text(kind: CountKind, displayed: u32, waiting: u32, history: u32) -> (r: String)
    ensures
        r@ == count_report(kind, displayed, waiting, history),
{
    match kind {
        CountKind::All => {
            let mut out = owned("              Waiting: ");
            out.append(decimal_text(waiting as u64).as_str());
            out.append("\n  Currently displayed: ");
            out.append(decimal_text(displayed as u64).as_str());
            out.append("\n              History: ");
            out.append(decimal_text(history as u64).as_str());
            out
        },
        CountKind::Displayed => decimal_text(displayed as u64),
        CountKind::Waiting => decimal_text(waiting as u64),
        CountKind::History => decimal_text(history as u64),
    }
}

/// What the daemon can do, as its clients ask for it.
pub open spec fn capabilities() -> Seq<Seq<char>> {
    seq![
        "actions"@,
        "body"@,
        "body-hyperlinks"@,
        "icon-static"@,
        "synchronous"@,
        "private-synchronous"@,
        "x-canonical-private-synchronous"@,
        "x-dunst-stack-tag"@,
    ]
}

/// What the daemon can do, as its clients ask for it.
pub fn get_capabilities() -> (r: Vec<String>)
    ensures
        views(r@) == capabilities(),
{
    let mut out: Vec<String> = Vec::new();
    out.push(owned("actions"));
    out.push(owned("body"));
    out.push(owned("body-hyperlinks"));
    out.push(owned("icon-static"));
    out.push(owned("synchronous"));
    out.push(owned("private-synchronous"));
    out.push(owned("x-canonical-private-synchronous"));
    out.push(owned("x-dunst-stack-tag"));
    proof {
        assert(views(out@) =~= capabilities());
    }
    out
}

/// A value of a report.
#[derive(Debug)]
pub enum FieldValue {
    Text(String),
    Number(i32),
    Flag(bool),
}

/// A field of a report.
#[derive(Debug)]
pub struct Field {
    pub key: String,
    pub value: FieldValue,
}

/// The contents of a value of a report.
pub enum ValueView {
    Text(Seq<char>),
    Number(i32),
    Flag(bool),
}

impl View for Field {
    type V = (Seq<char>, ValueView);

    open spec fn view(&self) -> (Seq<char>, ValueView) {
        (
            self.key@,
            match self.value {
                FieldValue::Text(text) => ValueView::Text(text@),
                FieldValue::Number(n) => ValueView::Number(n),
                FieldValue::Flag(b) => ValueView::Flag(b),
            },
        )
    }
}

/// The contents of some fields.
pub open spec fn field_views(s: Seq<Field>) -> Seq<(Seq<char>, ValueView)> {
    s.map_values(|f: Field| f@)
}

/// The number of 32 bits with the same bit pattern.
pub open spec fn signed_id(id: u32) -> int {
    if id < 0x8000_0000 {
        id as int
    } else {
        id - 0x1_0000_0000
    }
}

/// The report on a notification: its progress counts from minus 256, and is
/// minus one without one.
pub open spec fn notification_report(n: NotificationView) -> Seq<(Seq<char>, ValueView)> {
    seq![
        ("id"@, ValueView::Number(signed_id(n.id) as i32)),
        ("appname"@, ValueView::Text(n.app_name)),
        ("summary"@, ValueView::Text(n.summary)),
        ("body"@, ValueView::Text(n.body)),
        ("category"@, ValueView::Text(n.category)),
        ("icon_path"@, ValueView::Text(n.app_icon)),
        ("urgency"@, ValueView::Text(urgency_name(n.urgency))),
        (
            "progress"@,
            ValueView::Number(
                match n.progress {
                    Some(p) => (p - 256) as i32,
                    None => -1i32,
                },
            ),
        ),
        ("stack_tag"@, ValueView::Text(n.stack_tag)),
    ]
}

/// A field that holds text.
fn text_field(key: &str, value: &str) -> (r: Field)
    ensures
        r@ == (key@, ValueView::Text(value@)),
{
    Field { key: owned(key), value: FieldValue::Text(owned(value)) }
}

/// The report on a notification.
pub fn notification_fields(notification: &Notification) -> (r: Vec<Field>)
    ensures
        field_views(r@) == notification_report(notification@),
{
    let id: i32 = if notification.id < 0x8000_0000 {
        notification.id as i32
    } else {
        (notification.id as i64 - 0x1_0000_0000) as i32
    };
    let progress: i32 = match notification.progress {
        Some(p) => p as i32 - 256,
        None => -1,
    };
    let mut out: Vec<Field> = Vec::new();
    out.push(Field { key: owned("id"), value: FieldValue::Number(id) });
    out.push(text_field("appname", notification.app_name.as_str()));
    out.push(text_field("summary", notification.summary.as_str()));
    out.push(text_field("body", notification.body.as_str()));
    out.push(text_field("category", notification.category.as_str()));
    out.push(text_field("icon_path", notification.app_icon.as_str()));
    out.push(text_field("urgency", notification.urgency.as_str()));
    out.push(Field { key: owned("progress"), value: FieldValue::Number(progress) });
    out.push(text_field("stack_tag", notification.stack_tag.as_str()));
    proof {
        assert(field_views(out@) =~= notification_report(notification@));
    }
    out
}

/// A field of an optional text.
pub open spec fn optional_field(key: Seq<char>, value: Option<String>) -> Seq<(Seq<char>, ValueView)> {
    match value {
        Some(text) => seq![(key, ValueView::Text(text@))],
        None => Seq::empty(),
    }
}

/// The report on a rule.
pub open spec fn rule_report(rule: NotificationRuleConfig) -> Seq<(Seq<char>, ValueView)> {
    seq![("name"@, ValueView::Text(rule.name@)), ("enabled"@, ValueView::Flag(rule.enabled))]
        + optional_field("appname"@, rule.app_name) + optional_field("summary"@, rule.summary)
        + optional_field("category"@, rule.category)
}

/// Appends the field of an optional text.
fn push_optional(out: &mut Vec<Field>, key: &str, value: &Option<String>)
    ensures
        field_views(final(out)@) == field_views(old(out)@) + optional_field(key@, *value),
{
    let ghost before = out@;
    match value {
        Some(text) => {
            out.push(text_field(key, text.as_str()));
        },
        None => {},
    }
    proof {
        assert(field_views(out@) =~= field_views(before) + optional_field(key@, *value));
    }
}

/// The report on a rule.
pub fn rule_fields(rule: &NotificationRuleConfig) -> (r: Vec<Field>)
    ensures
        field_views(r@) == rule_report(*rule),
{
    let mut out: Vec<Field> = Vec::new();
    out.push(text_field("name", rule.name.as_str()));
    out.push(Field { key: owned("enabled"), value: FieldValue::Flag(rule.enabled) });
    proof {
        assert(field_views(out@) =~= seq![
            ("name"@, ValueView::Text(rule.name@)),
            ("enabled"@, ValueView::Flag(rule.enabled)),
        ]);
    }
    push_optional(&mut out, "appname", &rule.app_name);
    push_optional(&mut out, "summary", &rule.summary);
    push_optional(&mut out, "category", &rule.category);
    out
}

/// The file names under which a name may be found among the applications.
pub open spec fn entry_names(name: Seq<char>) -> Seq<Seq<char>> {
    if name.len() == 0 {
        Seq::empty()
    } else {
        seq![name, name + ".desktop"@]
    }
}

/// The file names under which a desktop entry is looked for, in order.
pub fn desktop_entry_names(desktop_entry: &str, app_name: &str) -> (r: Vec<String>)
    ensures
        views(r@) == entry_names(desktop_entry@) + entry_names(app_name@),
{
    let mut out: Vec<String> = Vec::new();
    if !desktop_entry.is_empty() {
        out.push(owned(desktop_entry));
        out.push(concat(desktop_entry, ".desktop"));
    }
    proof {
        assert(views(out@) =~= entry_names(desktop_entry@));
    }
    let ghost before = out@;
    if !app_name.is_empty() {
        out.push(owned(app_name));
        out.push(concat(app_name, ".desktop"));
    }
    proof {
        assert(views(out@) =~= views(before) + entry_names(app_name@));
    }
    out
}

/// The file names under which an icon is looked for: as it is named where it
/// has an extension, else with each extension of an image.
pub open spec fn icon_names(name: Seq<char>, has_extension: bool) -> Seq<Seq<char>> {
    if has_extension {
        seq![name]
    } else {
        seq![name + ".png"@, name + ".svg"@, name + ".xpm"@, name + ".webp"@]
    }
}

/// The file names under which an icon is looked for, in order.
pub fn icon_file_names(icon_name: &str, has_extension: bool) -> (r: Vec<String>)
    ensures
        views(r@) == icon_names(icon_name@, has_extension),
{
    let mut out: Vec<String> = Vec::new();
    if has_extension {
        out.push(owned(icon_name));
    } else {
        out.push(concat(icon_name, ".png"));
        out.push(concat(icon_name, ".svg"));
        out.push(concat(icon_name, ".xpm"));
        out.push(concat(icon_name, ".webp"));
    }
    proof {
        assert(views(out@) =~= icon_names(icon_name@, has_extension));
    }
    out
}

/// The icon that a desktop entry names: the value of its first line that sets
/// one, unless that is blank.
pub open spec fn entry_icon(contents: Seq<char>) -> Option<Seq<char>> {
    match find_first(lines(contents), |l: Seq<char>| starts_with(l, "Icon="@)) {
        Some(line) => {
            let value = trim(line.skip("Icon="@.len() as int));
            if value.len() == 0 {
                None
            } else {
                Some(value)
            }
        },
        None => None,
    }
}

/// The icon that a desktop entry names.
pub fn desktop_icon_name(contents: &str) -> (r: Option<String>)
    ensures
        opt_view(r) == entry_icon(contents@),
{
    let all = text_lines(contents);
    let ghost ls = views(all@);
    let ghost p = |l: Seq<char>| starts_with(l, "Icon="@);
    let mut i: usize = 0;
    while i < all.len()
        invariant
            i <= all.len(),
            ls == views(all@),
            ls == lines(contents@),
            p == (|l: Seq<char>| starts_with(l, "Icon="@)),
            forall|j: int| 0 <= j < i ==> !p(#[trigger] ls[j]),
        decreases all.len() - i,
    {
        proof {
            assert(ls[i as int] == all@[i as int]@);
        }
        if let Some(value) = text_strip_prefix(all[i].as_str(), "Icon=") {
            proof {
                lemma_first_index(ls, p, i as nat);
            }
            let trimmed = trim_text(value.as_str());
            if trimmed.as_str().is_empty() {
                return None;
            }
            return Some(trimmed);
        }
        i += 1;
    }
    proof {
        lemma_first_index(ls, p, i as nat);
    }
    None
}

/// What looking for a notification's icon found. A lookup that its
/// predecessors made unnecessary is left out.
pub struct IconLookup {
    /// Whether the requested icon is a readable file.
    pub requested_is_file: bool,
    /// The file found for the requested icon's name.
    pub requested_file: Option<String>,
    /// The contents of the desktop entry of the application.
    pub desktop_entry: Option<String>,
    /// Whether the icon that the desktop entry names is a readable file.
    pub desktop_is_file: bool,
    /// The file found for the name of the desktop entry's icon.
    pub desktop_file: Option<String>,
}

/// The icon of a notification: the requested file, the file found for the
/// requested name, what the application's desktop entry names, or the icon as
/// it was requested.
pub open spec fn resolved_icon(icon: Seq<char>, found: IconLookup) -> Seq<char> {
    if found.requested_is_file {
        icon
    } else if icon.len() > 0 && found.requested_file is Some {
        found.requested_file->0@
    } else {
        match found.desktop_entry {
            None => icon,
            Some(contents) => match entry_icon(contents@) {
                None => icon,
                Some(name) => if found.desktop_is_file {
                    name
                } else {
                    match found.desktop_file {
                        Some(path) => path@,
                        None => icon,
                    }
                },
            },
        }
    }
}

/// The icon of a notification, from what looking for it found.
pub fn resolve_notification_icon(icon: String, found: IconLookup) -> (r: String)
    ensures
        r@ == resolved_icon(icon@, found),
{
    if found.requested_is_file {
        return icon;
    }
    if !icon.as_str().is_empty() {
        if let Some(path) = found.requested_file {
            return path;
        }
    }
    match found.desktop_entry {
        None => icon,
        Some(contents) => match desktop_icon_name(contents.as_str()) {
            None => icon,
            Some(name) => if found.desktop_is_file {
                name
            } else {
                match found.desktop_file {
                    Some(path) => path,
                    None => icon,
                }
            },
        },
    }
}

/// The identifier under which a request is shown, and the next free one.
pub fn assign_id(replaces_id: u32, next_id: u32) -> (r: (u32, u32))
    ensures
        replaces_id == 0 ==> r.0 == next_id && r.1 == (if next_id == u32::MAX {
            0
        } else {
            next_id + 1
        }),
        replaces_id != 0 ==> r.0 == replaces_id && r.1 == next_id,
{
    if replaces_id == 0 {
        (next_id, next_id.wrapping_add(1))
    } else {
        (replaces_id, next_id)
    }
}

/// How a command is told: its word and its arguments.
pub open spec fn told(c: ControlView) -> Seq<Seq<char>> {
    match c {
        ControlView::Help => seq!["help"@],
        ControlView::CloseLast => seq!["close"@],
        ControlView::Close(id) => seq!["close"@, decimal(id as nat)],
        ControlView::CloseAll => seq!["close-all"@],
        ControlView::Action(position) => seq!["action"@, decimal(position as nat)],
        ControlView::Context => seq!["context"@],
        ControlView::Count(CountKind::All) => seq!["count"@],
        ControlView::Count(CountKind::Displayed) => seq!["count"@, "displayed"@],
        ControlView::Count(CountKind::Waiting) => seq!["count"@, "waiting"@],
        ControlView::Count(CountKind::History) => seq!["count"@, "history"@],
        ControlView::History => seq!["history"@],
        ControlView::HistoryClear => seq!["history-clear"@],
        ControlView::HistoryShow => seq!["history-pop"@],
        ControlView::HistoryPop(id) => seq!["history-pop"@, decimal(id as nat)],
        ControlView::HistoryRemove(id) => seq!["history-rm"@, decimal(id as nat)],
        ControlView::IsPaused => seq!["is-paused"@],
        ControlView::SetPaused(PausedChange::On) => seq!["set-paused"@, "true"@],
        ControlView::SetPaused(PausedChange::Off) => seq!["set-paused"@, "false"@],
        ControlView::SetPaused(PausedChange::Toggle) => seq!["set-paused"@, "toggle"@],
        ControlView::GetPauseLevel => seq!["get-pause-level"@],
        ControlView::SetPauseLevel(level) => seq!["set-pause-level"@, decimal(level as nat)],
        ControlView::Rule { name, state } => seq![
            "rule"@,
            name,
            if state == 0 {
                "disable"@
            } else if state == 1 {
                "enable"@
            } else {
                "toggle"@
            },
        ],
        ControlView::Rules => seq!["rules"@],
        ControlView::Reload(paths) => seq!["reload"@] + paths,
        ControlView::Debug => seq!["debug"@],
    }
}

/// No two commands have the same word.
proof fn lemma_command_words()
    ensures
        forall|i: int, j: int|
            0 <= i < j < 20 ==> #[trigger] command_words()[i] != #[trigger] command_words()[j],
        command_words().len() == 20,
{
    reveal_strlit("help");
    reveal_strlit("--help");
    reveal_strlit("-h");
    reveal_strlit("close");
    reveal_strlit("close-all");
    reveal_strlit("action");
    reveal_strlit("context");
    reveal_strlit("count");
    reveal_strlit("history");
    reveal_strlit("history-clear");
    reveal_strlit("history-pop");
    reveal_strlit("history-rm");
    reveal_strlit("is-paused");
    reveal_strlit("set-paused");
    reveal_strlit("get-pause-level");
    reveal_strlit("set-pause-level");
    reveal_strlit("rule");
    reveal_strlit("rules");
    reveal_strlit("reload");
    reveal_strlit("debug");
    assert("help"@.len() == 4 && "help"@[0] == 'h' && "help"@[1] == 'e');
    assert("--help"@.len() == 6 && "--help"@[0] == '-' && "--help"@[1] == '-');
    assert("-h"@.len() == 2 && "-h"@[0] == '-' && "-h"@[1] == 'h');
    assert("close"@.len() == 5 && "close"@[0] == 'c' && "close"@[1] == 'l');
    assert("close-all"@.len() == 9 && "close-all"@[0] == 'c' && "close-all"@[1] == 'l');
    assert("action"@.len() == 6 && "action"@[0] == 'a' && "action"@[1] == 'c');
    assert("context"@.len() == 7 && "context"@[0] == 'c' && "context"@[1] == 'o');
    assert("count"@.len() == 5 && "count"@[0] == 'c' && "count"@[1] == 'o');
    assert("history"@.len() == 7 && "history"@[0] == 'h' && "history"@[1] == 'i');
    assert("history-clear"@.len() == 13 && "history-clear"@[0] == 'h' && "history-clear"@[1] == 'i');
    assert("history-pop"@.len() == 11 && "history-pop"@[0] == 'h' && "history-pop"@[1] == 'i');
    assert("history-rm"@.len() == 10 && "history-rm"@[0] == 'h' && "history-rm"@[1] == 'i');
    assert("is-paused"@.len() == 9 && "is-paused"@[0] == 'i' && "is-paused"@[1] == 's');
    assert("set-paused"@.len() == 10 && "set-paused"@[0] == 's' && "set-paused"@[1] == 'e');
    assert("get-pause-level"@.len() == 15 && "get-pause-level"@[0] == 'g' && "get-pause-level"@[1] == 'e');
    assert("set-pause-level"@.len() == 15 && "set-pause-level"@[0] == 's' && "set-pause-level"@[1] == 'e');
    assert("rule"@.len() == 4 && "rule"@[0] == 'r' && "rule"@[1] == 'u');
    assert("rules"@.len() == 5 && "rules"@[0] == 'r' && "rules"@[1] == 'u');
    assert("reload"@.len() == 6 && "reload"@[0] == 'r' && "reload"@[1] == 'e');
    assert("debug"@.len() == 5 && "debug"@[0] == 'd' && "debug"@[1] == 'e');
    let all = command_words();
    assert forall|i: int, j: int| 0 <= i < j < 20 implies #[trigger] all[i] != #[trigger] all[j] by {
        assert(all[i].len() != all[j].len() || all[i][0] != all[j][0] || all[i][1] != all[j][1]);
    }
}

/// The words of the commands.
spec fn command_words() -> Seq<Seq<char>> {
    seq![
        "help"@,
        "--help"@,
        "-h"@,
        "close"@,
        "close-all"@,
        "action"@,
        "context"@,
        "count"@,
        "history"@,
        "history-clear"@,
        "history-pop"@,
        "history-rm"@,
        "is-paused"@,
        "set-paused"@,
        "get-pause-level"@,
        "set-pause-level"@,
        "rule"@,
        "rules"@,
        "reload"@,
        "debug"@,
    ]
}

/// The words of the arguments of commands.
proof fn lemma_argument_words()
    ensures
        "displayed"@ != "waiting"@,
        "displayed"@ != "history"@,
        "waiting"@ != "history"@,
        "true"@ != "false"@,
        "true"@ != "toggle"@,
        "false"@ != "toggle"@,
        "disable"@ != "enable"@,
        "disable"@ != "toggle"@,
        "enable"@ != "toggle"@,
{
    reveal_strlit("displayed");
    reveal_strlit("waiting");
    reveal_strlit("history");
    reveal_strlit("true");
    reveal_strlit("false");
    reveal_strlit("toggle");
    reveal_strlit("disable");
    reveal_strlit("enable");
    assert("displayed"@.len() == 9 && "waiting"@.len() == 7 && "history"@.len() == 7);
    assert("waiting"@[0] == 'w' && "history"@[0] == 'h');
    assert("true"@.len() == 4 && "false"@.len() == 5 && "toggle"@.len() == 6);
    assert("disable"@.len() == 7 && "enable"@.len() == 6);
    assert("toggle"@[0] == 't' && "enable"@[0] == 'e');
}

/// Every command is understood as it is told. What cannot be told is left out: a pause
/// level above a hundred, and a rule's state that is none.
pub proof fn law_commands_are_understood(c: ControlView)
    requires
        c matches ControlView::SetPauseLevel(level) ==> level <= 100,
        c matches ControlView::Rule { name, state } ==> 0 <= state <= 2,
    ensures
        control_of(told(c)) == Ok::<ControlView, Seq<char>>(c),
{
    lemma_command_words();
    lemma_argument_words();
    let all = command_words();
    assert(all[0] == "help"@);
    assert(all[1] == "--help"@);
    assert(all[2] == "-h"@);
    assert(all[3] == "close"@);
    assert(all[4] == "close-all"@);
    assert(all[5] == "action"@);
    assert(all[6] == "context"@);
    assert(all[7] == "count"@);
    assert(all[8] == "history"@);
    assert(all[9] == "history-clear"@);
    assert(all[10] == "history-pop"@);
    assert(all[11] == "history-rm"@);
    assert(all[12] == "is-paused"@);
    assert(all[13] == "set-paused"@);
    assert(all[14] == "get-pause-level"@);
    assert(all[15] == "set-pause-level"@);
    assert(all[16] == "rule"@);
    assert(all[17] == "rules"@);
    assert(all[18] == "reload"@);
    assert(all[19] == "debug"@);
    match c {
        ControlView::Close(id) => law_decimal_round_trip(id as nat, u32::MAX as nat),
        ControlView::Action(id) => law_decimal_round_trip(id as nat, u32::MAX as nat),
        ControlView::HistoryPop(id) => law_decimal_round_trip(id as nat, u32::MAX as nat),
        ControlView::HistoryRemove(id) => law_decimal_round_trip(id as nat, u32::MAX as nat),
        ControlView::SetPauseLevel(id) => law_decimal_round_trip(id as nat, u32::MAX as nat),
        ControlView::Reload(paths) => {
            assert(told(c).skip(1) =~= paths);
        },
        _ => {},
    }
}

/// What is no number names no notification, and no level above a hundred is accepted.
pub proof fn law_refused_commands(a: Seq<char>, level: u32)
    ensures
        parse_unsigned(a, u32::MAX as nat) is None ==> {
            &&& control_of(seq!["close"@, a]) is Err
            &&& control_of(seq!["history-rm"@, a]) is Err
        },
        level > 100 ==> control_of(seq!["set-pause-level"@, decimal(level as nat)]) is Err,
        control_of(seq!["history-rm"@]) is Err,
        control_of(seq!["set-pause-level"@]) is Err,
        control_of(seq!["set-paused"@]) is Err,
        control_of(seq!["rule"@]) is Err,
{
    lemma_command_words();
    let all = command_words();
    assert(all[0] == "help"@);
    assert(all[1] == "--help"@);
    assert(all[2] == "-h"@);
    assert(all[3] == "close"@);
    assert(all[4] == "close-all"@);
    assert(all[5] == "action"@);
    assert(all[6] == "context"@);
    assert(all[7] == "count"@);
    assert(all[8] == "history"@);
    assert(all[9] == "history-clear"@);
    assert(all[10] == "history-pop"@);
    assert(all[11] == "history-rm"@);
    assert(all[12] == "is-paused"@);
    assert(all[13] == "set-paused"@);
    assert(all[14] == "get-pause-level"@);
    assert(all[15] == "set-pause-level"@);
    assert(all[16] == "rule"@);
    assert(all[17] == "rules"@);
    assert(all[18] == "reload"@);
    assert(all[19] == "debug"@);
    law_decimal_round_trip(level as nat, u32::MAX as nat);
}

/// A count is reported as the number of what was asked for.
pub proof fn law_counts(displayed: u32, waiting: u32, history: u32)
    ensures
        parse_unsigned(
            count_report(CountKind::Displayed, displayed, waiting, history),
            u32::MAX as nat,
        ) == Some(displayed as nat),
        parse_unsigned(
            count_report(CountKind::Waiting, displayed, waiting, history),
            u32::MAX as nat,
        ) == Some(waiting as nat),
        parse_unsigned(
            count_report(CountKind::History, displayed, waiting, history),
            u32::MAX as nat,
        ) == Some(history as nat),
{
    law_decimal_round_trip(displayed as nat, u32::MAX as nat);
    law_decimal_round_trip(waiting as nat, u32::MAX as nat);
    law_decimal_round_trip(history as nat, u32::MAX as nat);
}

/// An identifier is reported as the number of 32 bits that is the same but for what a
/// sign takes away.
pub proof fn law_reported_identifier(n: NotificationView)
    ensures
        i32::MIN <= signed_id(n.id) <= i32::MAX,
        signed_id(n.id) % 0x1_0000_0000 == n.id,
        notification_report(n)[0] == ("id"@, ValueView::Number(signed_id(n.id) as i32)),
        n.progress is None ==> notification_report(n)[7] == ("progress"@, ValueView::Number(-1i32)),
        n.progress matches Some(p) ==> notification_report(n)[7] == (
            "progress"@,
            ValueView::Number((p - 256) as i32),
        ),
{
}

/// The first line that names an icon counts, without white space around the name.
pub proof fn law_named_icon(contents: Seq<char>, value: Seq<char>, at: int)
    requires
        0 <= at < lines(contents).len(),
        lines(contents)[at] == "Icon="@ + value,
        forall|j: int| 0 <= j < at ==> !"Icon="@.is_prefix_of(#[trigger] lines(contents)[j]),
    ensures
        entry_icon(contents) == if trim(value).len() == 0 {
            None
        } else {
            Some(trim(value))
        },
{
    let p = |l: Seq<char>| starts_with(l, "Icon="@);
    let ls = lines(contents);
    let n = "Icon="@.len() as int;
    assert(ls[at].take(n) =~= "Icon="@);
    assert(ls[at].skip(n) =~= value);
    assert forall|j: int| 0 <= j < at implies !p(#[trigger] ls[j]) by {
        if starts_with(ls[j], "Icon="@) {
            assert("Icon="@ =~= ls[j].subrange(0, n));
        }
    }
    lemma_first_index(ls, p, at as nat);
}

/// The icon that was asked for is shown where it is found; else the one that the
/// application names, where that is found; and else it stays what was asked for.
pub proof fn law_icon_of_notification(icon: Seq<char>, found: IconLookup)
    ensures
        ({
            let r = resolved_icon(icon, found);
            let asked_found = found.requested_is_file || (icon.len() > 0
                && found.requested_file is Some);
            let named = if found.desktop_entry is Some {
                entry_icon((found.desktop_entry->0)@)
            } else {
                None
            };
            &&& found.requested_is_file ==> r == icon
            &&& !found.requested_is_file && asked_found ==> r == (found.requested_file->0)@
            &&& !asked_found && named is None ==> r == icon
            &&& !asked_found && named is Some && found.desktop_is_file ==> Some(r) == named
            &&& !asked_found && named is Some && !found.desktop_is_file
                && found.desktop_file is Some ==> r == (found.desktop_file->0)@
            &&& !asked_found && named is Some && !found.desktop_is_file
                && found.desktop_file is None ==> r == icon
        }),
{
}

/// The report on a rule gives its name and whether it is on, and of what it looks for
/// only what it names.
pub proof fn law_report_on_rule(rule: NotificationRuleConfig)
    ensures
        rule_report(rule)[0] == ("name"@, ValueView::Text(rule.name@)),
        rule_report(rule)[1] == ("enabled"@, ValueView::Flag(rule.enabled)),
        rule_report(rule).len() == 2 + (if rule.app_name is Some {
            1int
        } else {
            0
        }) + (if rule.summary is Some {
            1int
        } else {
            0
        }) + (if rule.category is Some {
            1int
        } else {
            0
        }),
        rule.app_name matches Some(a) ==> rule_report(rule)[2] == ("appname"@, ValueView::Text(a@)),
        rule.category matches Some(c) ==> rule_report(rule).last() == (
            "category"@,
            ValueView::Text(c@),
        ),
        rule.app_name is None ==> (rule.summary matches Some(s) ==> rule_report(rule)[2] == (
            "summary"@,
            ValueView::Text(s@),
        )),
{
}

/// A desktop entry is looked for by the name as it is and with its extension; without a
/// name it is not looked for. So is an icon, by each extension where it has none.
pub proof fn law_names_that_are_looked_for(name: Seq<char>)
    ensures
        name.len() == 0 ==> entry_names(name).len() == 0,
        name.len() > 0 ==> entry_names(name) == seq![name, name + ".desktop"@],
        icon_names(name, true) == seq![name],
        icon_names(name, false).contains(name + ".png"@),
        icon_names(name, false).contains(name + ".svg"@),
        icon_names(name, false).contains(name + ".xpm"@),
        icon_names(name, false).contains(name + ".webp"@),
{
    let r = icon_names(name, false);
    assert(r[0] == name + ".png"@ && r[1] == name + ".svg"@ && r[2] == name + ".xpm"@ && r[3] == name
        + ".webp"@);
}

/// The daemon can show bodies and actions, and replace what has the same tag.
pub proof fn law_capabilities()
    ensures
        capabilities().len() == 8,
        capabilities().contains("actions"@),
        capabilities().contains("body"@),
        capabilities().contains("body-hyperlinks"@),
        capabilities().contains("icon-static"@),
        capabilities().contains("synchronous"@),
        capabilities().contains("private-synchronous"@),
        capabilities().contains("x-canonical-private-synchronous"@),
        capabilities().contains("x-dunst-stack-tag"@),
{
    let c = capabilities();
    assert(c[0] == "actions"@ && c[1] == "body"@ && c[2] == "body-hyperlinks"@ && c[3]
        == "icon-static"@ && c[4] == "synchronous"@ && c[5] == "private-synchronous"@ && c[6]
        == "x-canonical-private-synchronous"@ && c[7] == "x-dunst-stack-tag"@);
}

} // verus!

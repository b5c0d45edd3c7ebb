//! The actions that an application's desktop entry offers, and the command
//! lines that they stand for.

use vstd::prelude::*;
use vstd::string::*;

use crate::seqs::{
    find_first, first_index, lemma_filter_members, lemma_filter_step, lemma_filter_twice,
    lemma_first_index, lemma_first_index_bounds,
};
use crate::text::{
    ascii_lowercase, ascii_lowercase_text, char_is_white, chars_of, concat, contains_str,
    ends_with, is_white, lines, owned, push_char, same, split_on, split_once, split_text,
    split_text_once, starts_with, string_of, text_ends_with, text_lines, text_starts_with, trim,
    trim_text, views,
};
use crate::text_laws::law_split_once;

verus! {

/// The lower case of a text, by the Unicode tables.
pub uninterp spec fn lowercase(s: Seq<char>) -> Seq<char>;

/// `str::to_lowercase`: the lower case of a text by the Unicode tables, which
/// the name stands for; of ASCII letters it is their ASCII lower case.
#[verifier::external_body]
pub(crate) fn lowercase_text(s: &str) -> (r: String)
    ensures
        r@ == lowercase(s@),
        vstd::utf8::is_ascii_chars(s@) ==> r@ == ascii_lowercase(s@),
{
    s.to_lowercase()
}

/// An action of a desktop entry.
#[derive(Debug)]
pub struct JumpListAction {
    pub label: String,
    pub desktop_id: String,
    pub action_id: String,
    pub fallback_exec: String,
}

impl Clone for JumpListAction {
    fn clone(&self) -> (r: Self)
        ensures
            r == *self,
    {
        JumpListAction {
            label: self.label.clone(),
            desktop_id: self.desktop_id.clone(),
            action_id: self.action_id.clone(),
            fallback_exec: self.fallback_exec.clone(),
        }
    }
}

/// The contents of an action.
pub struct JumpView {
    pub label: Seq<char>,
    pub desktop_id: Seq<char>,
    pub action_id: Seq<char>,
    pub fallback_exec: Seq<char>,
}

impl View for JumpListAction {
    type V = JumpView;

    open spec fn view(&self) -> JumpView {
        JumpView {
            label: self.label@,
            desktop_id: self.desktop_id@,
            action_id: self.action_id@,
            fallback_exec: self.fallback_exec@,
        }
    }
}

/// The contents of some actions.
pub open spec fn jump_views(s: Seq<JumpListAction>) -> Seq<JumpView> {
    s.map_values(|a: JumpListAction| a@)
}

/// An application identifier without what follows a null character, and
/// without white space around it.
pub open spec fn clean_id(value: Seq<char>) -> Seq<char> {
    match split_once(value, '\0') {
        Some((head, _)) => trim(head),
        None => trim(value),
    }
}

/// The identifiers of an application that say something, in lower case.
pub open spec fn ids_of(app_id: Seq<char>, initial_app_id: Seq<char>) -> Seq<Seq<char>> {
    let a = clean_id(app_id);
    let b = clean_id(initial_app_id);
    let first = if a.len() > 0 {
        seq![ascii_lowercase(a)]
    } else {
        Seq::empty()
    };
    if b.len() > 0 {
        first.push(ascii_lowercase(b))
    } else {
        first
    }
}

/// An application identifier without what follows a null character, and
/// without white space around it.
fn cleaned(value: &str) -> (r: String)
    ensures
        r@ == clean_id(value@),
{
    match split_text_once(value, '\0') {
        Some((head, _)) => trim_text(head.as_str()),
        None => trim_text(value),
    }
}

/// The identifiers of an application that say something, in lower case.
pub fn application_ids(app_id: &str, initial_app_id: &str) -> (r: Vec<String>)
    ensures
        views(r@) == ids_of(app_id@, initial_app_id@),
{
    let mut out: Vec<String> = Vec::new();
    let a = cleaned(app_id);
    if !a.as_str().is_empty() {
        out.push(ascii_lowercase_text(a.as_str()));
    }
    let b = cleaned(initial_app_id);
    if !b.as_str().is_empty() {
        out.push(ascii_lowercase_text(b.as_str()));
    }
    proof {
        assert(views(out@) =~= ids_of(app_id@, initial_app_id@));
    }
    out
}

/// A value that a section sets.
#[derive(Debug)]
pub struct Setting {
    pub key: String,
    pub value: String,
}

/// The predicate that holds of the settings of a key.
pub open spec fn of_key(key: Seq<char>) -> spec_fn((Seq<char>, Seq<char>)) -> bool {
    |p: (Seq<char>, Seq<char>)| p.0 == key
}

/// The settings with a value set; a later value takes the place of an earlier.
pub open spec fn set_value(s: Seq<(Seq<char>, Seq<char>)>, key: Seq<char>, value: Seq<char>) -> Seq<
    (Seq<char>, Seq<char>),
> {
    let i = first_index(s, of_key(key));
    if i < s.len() {
        s.update(i as int, (key, value))
    } else {
        s.push((key, value))
    }
}

/// The value of a key.
pub open spec fn value_of(s: Seq<(Seq<char>, Seq<char>)>, key: Seq<char>) -> Option<Seq<char>> {
    match find_first(s, of_key(key)) {
        Some(p) => Some(p.1),
        None => None,
    }
}

/// Whether a line begins a section.
pub open spec fn is_header(line: Seq<char>) -> bool {
    starts_with(line, "["@) && ends_with(line, "]"@)
}

/// Whether a line within a section sets nothing.
pub open spec fn is_blank(line: Seq<char>) -> bool {
    line.len() == 0 || starts_with(line, "#"@)
}

/// Whether the lines end within the section of a title.
pub open spec fn within_section(s: Seq<Seq<char>>, title: Seq<char>) -> bool
    decreases s.len(),
{
    if s.len() == 0 {
        false
    } else {
        let line = trim(s.last());
        if is_header(line) {
            line.subrange(1, line.len() - 1) == title
        } else {
            within_section(s.drop_last(), title)
        }
    }
}

/// What the lines of the section of a title set.
pub open spec fn section_settings(s: Seq<Seq<char>>, title: Seq<char>) -> Seq<(Seq<char>, Seq<char>)>
    decreases s.len(),
{
    if s.len() == 0 {
        Seq::empty()
    } else {
        let before = section_settings(s.drop_last(), title);
        let line = trim(s.last());
        if is_header(line) || !within_section(s.drop_last(), title) || is_blank(line) {
            before
        } else {
            match split_once(line, '=') {
                Some((key, value)) => set_value(before, key, value),
                None => before,
            }
        }
    }
}

/// The contents of some settings.
pub open spec fn setting_views(s: Seq<Setting>) -> Seq<(Seq<char>, Seq<char>)> {
    s.map_values(|x: Setting| (x.key@, x.value@))
}

/// The index of a key among settings, or their number.
fn index_of_key(s: &Vec<Setting>, key: &str) -> (r: usize)
    ensures
        r == first_index(setting_views(s@), of_key(key@)),
        r <= s@.len(),
{
    let ghost v = setting_views(s@);
    let ghost p = of_key(key@);
    let mut i: usize = 0;
    while i < s.len() && !same(s[i].key.as_str(), key)
        invariant
            i <= s.len(),
            v == setting_views(s@),
            p == of_key(key@),
            forall|j: int| 0 <= j < i ==> !p(#[trigger] v[j]),
        decreases s.len() - i,
    {
        i += 1;
    }
    proof {
        assert(i < s.len() ==> v[i as int].0 == key@);
        lemma_first_index(v, p, i as nat);
    }
    i
}

/// The value of a key among settings.
pub fn setting_value<'a>(s: &'a Vec<Setting>, key: &str) -> (r: Option<&'a String>)
    ensures
        match r {
            Some(v) => value_of(setting_views(s@), key@) == Some(v@),
            None => value_of(setting_views(s@), key@) is None,
        },
{
    let i: usize = index_of_key(s, key);
    if i < s.len() {
        proof {
            assert(setting_views(s@)[i as int].1 == s@[i as int].value@);
        }
        Some(&s[i].value)
    } else {
        None
    }
}

/// What the section of a title sets, where it sets anything.
pub fn section(contents: &str, wanted: &str) -> (r: Option<Vec<Setting>>)
    ensures
        match r {
            Some(s) => setting_views(s@) == section_settings(lines(contents@), wanted@) && s@.len()
                > 0,
            None => section_settings(lines(contents@), wanted@).len() == 0,
        },
{
    let all = text_lines(contents);
    let ghost ls = lines(contents@);
    let mut current = false;
    let mut values: Vec<Setting> = Vec::new();
    let mut i: usize = 0;
    proof {
        assert(ls.take(0) =~= Seq::empty());
        assert(setting_views(values@) =~= Seq::empty());
    }
    while i < all.len()
        invariant
            i <= all.len(),
            ls == views(all@),
            current == within_section(ls.take(i as int), wanted@),
            setting_views(values@) == section_settings(ls.take(i as int), wanted@),
        decreases all.len() - i,
    {
        let line = trim_text(all[i].as_str());
        let ghost before = values@;
        proof {
            assert(ls.take(i + 1).drop_last() =~= ls.take(i as int));
            assert(ls.take(i + 1).last() == all@[i as int]@);
        }
        if text_starts_with(line.as_str(), "[") && text_ends_with(line.as_str(), "]") {
            let c = chars_of(line.as_str());
            proof {
                reveal_strlit("[");
                reveal_strlit("]");
                assert(line@.take(1)[0] == '[');
                assert(line@.skip(line@.len() - 1)[0] == ']');
                assert(line@.len() >= 2);
            }
            let inner = vstd::slice::slice_subrange(c.as_slice(), 1, c.len() - 1);
            let title = string_of(inner);
            current = same(title.as_str(), wanted);
        } else if current && !line.as_str().is_empty() && !text_starts_with(line.as_str(), "#") {
            if let Some((key, value)) = split_text_once(line.as_str(), '=') {
                let k: usize = index_of_key(&values, key.as_str());
                if k < values.len() {
                    values[k].value = value;
                    proof {
                        assert(setting_views(before)[k as int].0 == key@) by {
                            lemma_first_index_bounds(
                                setting_views(before),
                                of_key(key@),
                            );
                        }
                        assert(setting_views(values@) =~= setting_views(before).update(
                            k as int,
                            (key@, value@),
                        ));
                    }
                } else {
                    values.push(Setting { key, value });
                    proof {
                        assert(setting_views(values@) =~= setting_views(before).push(
                            (key@, value@),
                        ));
                    }
                }
            }
        }
        i += 1;
    }
    proof {
        assert(ls.take(i as int) =~= ls);
        assert(setting_views(values@).len() == values@.len());
    }
    if values.len() == 0 {
        None
    } else {
        Some(values)
    }
}

/// Whether a desktop entry belongs to an application: by the name of its file,
/// or by the window class that it announces.
pub open spec fn belongs(
    entry: Seq<(Seq<char>, Seq<char>)>,
    desktop_id: Seq<char>,
    candidates: Seq<Seq<char>>,
) -> bool {
    ||| candidates.contains(lowercase(desktop_id))
    ||| match value_of(entry, "StartupWMClass"@) {
        Some(class) => candidates.contains(lowercase(class)),
        None => false,
    }
}

/// The label of an action: its name, else a translated name, else its identifier.
pub open spec fn action_label(action: Seq<(Seq<char>, Seq<char>)>, id: Seq<char>) -> Seq<char> {
    match value_of(action, "Name"@) {
        Some(name) => name,
        None => match find_first(
            action,
            |p: (Seq<char>, Seq<char>)| starts_with(p.0, "Name["@),
        ) {
            Some(p) => p.1,
            None => id,
        },
    }
}

/// The predicate that holds of identifiers of actions.
pub open spec fn non_empty() -> spec_fn(Seq<char>) -> bool {
    |id: Seq<char>| id.len() > 0
}

/// The actions of identifiers, as the sections of an entry describe them; none
/// at all where a section is missing. An action without a command is left out.
pub open spec fn listed_actions(
    contents: Seq<char>,
    desktop_id: Seq<char>,
    ids: Seq<Seq<char>>,
) -> Option<Seq<JumpView>>
    decreases ids.len(),
{
    if ids.len() == 0 {
        Some(Seq::empty())
    } else {
        match listed_actions(contents, desktop_id, ids.drop_last()) {
            None => None,
            Some(before) => {
                let id = ids.last();
                let action = section_settings(lines(contents), "Desktop Action "@ + id);
                if action.len() == 0 {
                    None
                } else {
                    match value_of(action, "Exec"@) {
                        None => Some(before),
                        Some(command) => Some(
                            before.push(
                                JumpView {
                                    label: action_label(action, id),
                                    desktop_id,
                                    action_id: id,
                                    fallback_exec: command,
                                },
                            ),
                        ),
                    }
                }
            },
        }
    }
}

/// The actions that a desktop entry offers an application, where it belongs to
/// it and lists any.
pub open spec fn entry_actions(
    contents: Seq<char>,
    desktop_id: Seq<char>,
    candidates: Seq<Seq<char>>,
) -> Option<Seq<JumpView>> {
    let entry = section_settings(lines(contents), "Desktop Entry"@);
    if entry.len() == 0 || !belongs(entry, desktop_id, candidates) {
        None
    } else {
        match value_of(entry, "Actions"@) {
            None => None,
            Some(listed) => listed_actions(
                contents,
                desktop_id,
                split_on(listed, ';').filter(non_empty()),
            ),
        }
    }
}

/// The label of an action.
fn label_of(action: &Vec<Setting>, id: &str) -> (r: String)
    ensures
        r@ == action_label(setting_views(action@), id@),
{
    if let Some(name) = setting_value(action, "Name") {
        return name.clone();
    }
    let ghost v = setting_views(action@);
    let ghost p = |p: (Seq<char>, Seq<char>)| starts_with(p.0, "Name["@);
    let mut i: usize = 0;
    while i < action.len()
        invariant
            i <= action.len(),
            v == setting_views(action@),
            value_of(v, "Name"@) is None,
            p == (|p: (Seq<char>, Seq<char>)| starts_with(p.0, "Name["@)),
            forall|j: int| 0 <= j < i ==> !p(#[trigger] v[j]),
        decreases action.len() - i,
    {
        proof {
            assert(v[i as int] == (action@[i as int].key@, action@[i as int].value@));
        }
        if text_starts_with(action[i].key.as_str(), "Name[") {
            proof {
                lemma_first_index(v, p, i as nat);
            }
            return action[i].value.clone();
        }
        i += 1;
    }
    proof {
        lemma_first_index(v, p, i as nat);
    }
    owned(id)
}

/// The actions that a desktop entry offers an application, where it belongs to
/// it and lists any.
pub fn actions_in_entry(contents: &str, desktop_id: &str, candidates: &Vec<String>) -> (r: Option<
    Vec<JumpListAction>,
>)
    ensures
        match r {
            Some(s) => entry_actions(contents@, desktop_id@, views(candidates@)) == Some(
                jump_views(s@),
            ),
            None => entry_actions(contents@, desktop_id@, views(candidates@)) is None,
        },
{
    let entry = match section(contents, "Desktop Entry") {
        Some(entry) => entry,
        None => {
            return None;
        },
    };
    let stem = lowercase_text(desktop_id);
    let mut belonging = contains_str(candidates, stem.as_str());
    if let Some(class) = setting_value(&entry, "StartupWMClass") {
        let class = lowercase_text(class.as_str());
        if contains_str(candidates, class.as_str()) {
            belonging = true;
        }
    }
    proof {
        assert(setting_views(entry@).len() == entry@.len());
        assert(belonging == belongs(setting_views(entry@), desktop_id@, views(candidates@)));
    }
    if !belonging {
        return None;
    }
    let listed = match setting_value(&entry, "Actions") {
        Some(listed) => listed,
        None => {
            return None;
        },
    };
    let pieces = split_text(listed.as_str(), ';');
    let ghost ps = split_on(listed@, ';');
    let ghost f = non_empty();
    let mut actions: Vec<JumpListAction> = Vec::new();
    let mut i: usize = 0;
    proof {
        assert(ps.take(0).filter(f) =~= Seq::empty()) by {
            reveal(Seq::filter);
        }
        assert(jump_views(actions@) =~= Seq::empty());
        assert(entry_actions(contents@, desktop_id@, views(candidates@)) == listed_actions(
            contents@,
            desktop_id@,
            ps.filter(f),
        ));
    }
    while i < pieces.len()
        invariant
            i <= pieces.len(),
            ps == views(pieces@),
            f == non_empty(),
            listed_actions(contents@, desktop_id@, ps.take(i as int).filter(f)) == Some(
                jump_views(actions@),
            ),
            entry_actions(contents@, desktop_id@, views(candidates@)) == listed_actions(
                contents@,
                desktop_id@,
                ps.filter(f),
            ),
        decreases pieces.len() - i,
    {
        let id = pieces[i].as_str();
        let ghost before = actions@;
        let ghost seen = ps.take(i as int).filter(f);
        proof {
            lemma_filter_step(ps, f, i as int);
            assert(ps[i as int] == id@);
            assert(seen.push(id@).drop_last() =~= seen);
        }
        if !id.is_empty() {
            let title = concat("Desktop Action ", id);
            match section(contents, title.as_str()) {
                None => {
                    proof {
                        assert(listed_actions(contents@, desktop_id@, seen.push(id@)) is None);
                        lemma_listed_actions_none(contents@, desktop_id@, ps, f, i + 1);
                    }
                    return None;
                },
                Some(action) => {
                    proof {
                        assert(setting_views(action@).len() == action@.len());
                    }
                    if let Some(command) = setting_value(&action, "Exec") {
                        let label = label_of(&action, id);
                        actions.push(
                            JumpListAction {
                                label,
                                desktop_id: owned(desktop_id),
                                action_id: owned(id),
                                fallback_exec: command.clone(),
                            },
                        );
                        proof {
                            assert(jump_views(actions@) =~= jump_views(before).push(
                                JumpView {
                                    label: label@,
                                    desktop_id: desktop_id@,
                                    action_id: id@,
                                    fallback_exec: command@,
                                },
                            ));
                        }
                    }
                },
            }
        }
        i += 1;
    }
    proof {
        assert(ps.take(i as int) =~= ps);
    }
    Some(actions)
}

/// Where a section is missing, further identifiers do not bring actions back.
proof fn lemma_listed_actions_none(
    contents: Seq<char>,
    desktop_id: Seq<char>,
    ps: Seq<Seq<char>>,
    f: spec_fn(Seq<char>) -> bool,
    i: int,
)
    requires
        0 <= i <= ps.len(),
        listed_actions(contents, desktop_id, ps.take(i).filter(f)) is None,
    ensures
        listed_actions(contents, desktop_id, ps.filter(f)) is None,
    decreases ps.len() - i,
{
    if i < ps.len() {
        lemma_filter_step(ps, f, i);
        let seen = ps.take(i).filter(f);
        assert(seen.push(ps[i]).drop_last() =~= seen);
        lemma_listed_actions_none(contents, desktop_id, ps, f, i + 1);
    } else {
        assert(ps.take(i) =~= ps);
    }
}

/// The predicate that holds of the identifiers whose section of an entry sets a
/// command.
pub open spec fn has_command(contents: Seq<char>) -> spec_fn(Seq<char>) -> bool {
    |id: Seq<char>|
        id.len() > 0 && value_of(
            section_settings(lines(contents), "Desktop Action "@ + id),
            "Exec"@,
        ) is Some
}

proof fn lemma_listed_actions(contents: Seq<char>, desktop_id: Seq<char>, ids: Seq<Seq<char>>)
    requires
        forall|i: int| 0 <= i < ids.len() ==> (#[trigger] ids[i]).len() > 0,
    ensures
        listed_actions(contents, desktop_id, ids) is Some <==> forall|i: int|
            0 <= i < ids.len() ==> section_settings(
                lines(contents),
                "Desktop Action "@ + #[trigger] ids[i],
            ).len() > 0,
        listed_actions(contents, desktop_id, ids) matches Some(r) ==> {
            let kept = ids.filter(has_command(contents));
            &&& r.len() == kept.len()
            &&& forall|k: int|
                0 <= k < r.len() ==> {
                    let action = section_settings(
                        lines(contents),
                        "Desktop Action "@ + (#[trigger] kept[k]),
                    );
                    &&& r[k].action_id == kept[k]
                    &&& r[k].desktop_id == desktop_id
                    &&& Some(r[k].fallback_exec) == value_of(action, "Exec"@)
                    &&& r[k].label == action_label(action, kept[k])
                }
        },
    decreases ids.len(),
{
    reveal(Seq::filter);
    if ids.len() > 0 {
        let rest = ids.drop_last();
        assert forall|i: int| 0 <= i < rest.len() implies (#[trigger] rest[i]).len() > 0 by {
            assert(rest[i] == ids[i]);
        }
        lemma_listed_actions(contents, desktop_id, rest);
        assert(ids[ids.len() - 1] == ids.last());
        assert forall|i: int| 0 <= i < rest.len() implies #[trigger] rest[i] == ids[i] by {}
        if listed_actions(contents, desktop_id, ids) is Some {
            assert forall|i: int| 0 <= i < ids.len() implies section_settings(
                lines(contents),
                "Desktop Action "@ + #[trigger] ids[i],
            ).len() > 0 by {
                if i < rest.len() {
                    assert(section_settings(lines(contents), "Desktop Action "@ + rest[i]).len()
                        > 0);
                }
            }
        }
        if listed_actions(contents, desktop_id, rest) is None {
            let i = choose|i: int|
                0 <= i < rest.len() && section_settings(
                    lines(contents),
                    "Desktop Action "@ + #[trigger] rest[i],
                ).len() == 0;
            assert(section_settings(lines(contents), "Desktop Action "@ + ids[i]).len() == 0);
        }
    }
}

/// An entry that belongs to an application and lists actions offers exactly those
/// of the listed identifiers whose section sets a command, in the order of the
/// list, each with the command and the name of its own section. It offers none at
/// all where the section of a listed identifier is missing.
pub proof fn law_listed_actions_are_offered(
    contents: Seq<char>,
    desktop_id: Seq<char>,
    candidates: Seq<Seq<char>>,
    listed: Seq<char>,
)
    requires
        value_of(section_settings(lines(contents), "Desktop Entry"@), "Actions"@) == Some(listed),
        candidates.contains(lowercase(desktop_id)) || exists|class: Seq<char>|
            value_of(section_settings(lines(contents), "Desktop Entry"@), "StartupWMClass"@)
                == Some(class) && candidates.contains(#[trigger] lowercase(class)),
    ensures
        ({
            let ids = split_on(listed, ';').filter(|id: Seq<char>| id.len() > 0);
            let kept = split_on(listed, ';').filter(has_command(contents));
            &&& entry_actions(contents, desktop_id, candidates) is Some <==> forall|i: int|
                0 <= i < ids.len() ==> section_settings(
                    lines(contents),
                    "Desktop Action "@ + #[trigger] ids[i],
                ).len() > 0
            &&& entry_actions(contents, desktop_id, candidates) matches Some(r) ==> {
                &&& r.map_values(|a: JumpView| a.action_id) == kept
                &&& forall|k: int|
                    0 <= k < r.len() ==> {
                        let action = section_settings(
                            lines(contents),
                            "Desktop Action "@ + kept[k],
                        );
                        &&& (#[trigger] r[k]).desktop_id == desktop_id
                        &&& Some(r[k].fallback_exec) == value_of(action, "Exec"@)
                        &&& value_of(action, "Name"@) is Some ==> Some(r[k].label) == value_of(
                            action,
                            "Name"@,
                        )
                    }
            }
        }),
{
    let pieces = split_on(listed, ';');
    let f = non_empty();
    assert(f =~= |id: Seq<char>| id.len() > 0);
    let ids = pieces.filter(f);
    lemma_filter_members(pieces, f);
    assert forall|i: int| 0 <= i < ids.len() implies (#[trigger] ids[i]).len() > 0 by {
        assert(f(ids[i]));
    }
    lemma_listed_actions(contents, desktop_id, ids);
    lemma_filter_twice(pieces, f, has_command(contents));
    let kept = pieces.filter(has_command(contents));
    if entry_actions(contents, desktop_id, candidates) is Some {
        let r = entry_actions(contents, desktop_id, candidates)->0;
        assert(r.map_values(|a: JumpView| a.action_id) =~= kept);
        assert forall|k: int| 0 <= k < r.len() implies ({
            let action = section_settings(lines(contents), "Desktop Action "@ + kept[k]);
            &&& (#[trigger] r[k]).desktop_id == desktop_id
            &&& Some(r[k].fallback_exec) == value_of(action, "Exec"@)
            &&& value_of(action, "Name"@) is Some ==> Some(r[k].label) == value_of(action, "Name"@)
        }) by {
            assert(r[k].action_id == kept[k]);
        }
    }
}

/// An entry offers nothing to an application that neither the name of its file nor
/// its window class names, and nothing where it lists no actions.
pub proof fn law_other_entries_offer_nothing(
    contents: Seq<char>,
    desktop_id: Seq<char>,
    candidates: Seq<Seq<char>>,
)
    ensures
        !candidates.contains(lowercase(desktop_id)) && value_of(
            section_settings(lines(contents), "Desktop Entry"@),
            "StartupWMClass"@,
        ) is None ==> entry_actions(contents, desktop_id, candidates) is None,
        forall|class: Seq<char>|
            !candidates.contains(lowercase(desktop_id)) && value_of(
                section_settings(lines(contents), "Desktop Entry"@),
                "StartupWMClass"@,
            ) == Some(class) && !candidates.contains(#[trigger] lowercase(class)) ==> entry_actions(
                contents,
                desktop_id,
                candidates,
            ) is None,
        value_of(section_settings(lines(contents), "Desktop Entry"@), "Actions"@) is None
            ==> entry_actions(contents, desktop_id, candidates) is None,
{
}

/// Whether a line of a file stands in the section of a title: the last header
/// before it is that of the title.
pub open spec fn stands_in(s: Seq<Seq<char>>, i: int, title: Seq<char>) -> bool {
    exists|h: int|
        0 <= h < i && trim(#[trigger] s[h]) == seq!['['] + title + seq![']'] && forall|k: int|
            h < k < i ==> !is_header(trim(#[trigger] s[k]))
}

/// Whether a line sets a key of a section to a value.
pub open spec fn sets(
    s: Seq<Seq<char>>,
    i: int,
    title: Seq<char>,
    key: Seq<char>,
    value: Seq<char>,
) -> bool {
    let line = trim(s[i]);
    &&& stands_in(s, i, title)
    &&& !is_header(line)
    &&& line.len() > 0
    &&& line[0] != '#'
    &&& line == key + seq!['='] + value
    &&& !key.contains('=')
}

proof fn lemma_header(line: Seq<char>, title: Seq<char>)
    ensures
        (is_header(line) && line.subrange(1, line.len() - 1) == title) <==> line == seq!['[']
            + title + seq![']'],
{
    reveal_strlit("[");
    reveal_strlit("]");
    let whole = seq!['['] + title + seq![']'];
    if line == whole {
        assert(line.take(1) =~= "["@);
        assert(line.skip(line.len() - 1) =~= "]"@);
        assert(line.subrange(1, line.len() - 1) =~= title);
    }
    if is_header(line) && line.subrange(1, line.len() - 1) == title {
        assert(line.take(1)[0] == '[');
        assert(line.skip(line.len() - 1)[0] == ']');
        assert(line =~= whole);
    }
}

proof fn lemma_stands_in(s: Seq<Seq<char>>, title: Seq<char>)
    ensures
        within_section(s, title) == stands_in(s, s.len() as int, title),
    decreases s.len(),
{
    if s.len() > 0 {
        let rest = s.drop_last();
        let n = rest.len() as int;
        let line = trim(s.last());
        lemma_stands_in(rest, title);
        lemma_header(line, title);
        lemma_header_of_title(title);
        assert(s[n] == s.last());
        if is_header(line) {
            if stands_in(s, s.len() as int, title) {
                let h = choose|h: int|
                    0 <= h < s.len() && trim(#[trigger] s[h]) == seq!['['] + title + seq![']']
                        && forall|k: int| h < k < s.len() ==> !is_header(trim(#[trigger] s[k]));
                assert(h == n);
            }
        } else {
            if stands_in(rest, n, title) {
                let h = choose|h: int|
                    0 <= h < n && trim(#[trigger] rest[h]) == seq!['['] + title + seq![']']
                        && forall|k: int| h < k < n ==> !is_header(trim(#[trigger] rest[k]));
                assert(s[h] == rest[h]);
                assert forall|k: int| h < k < s.len() implies !is_header(trim(#[trigger] s[k])) by {
                    if k < n {
                        assert(rest[k] == s[k]);
                    }
                }
            }
            if stands_in(s, s.len() as int, title) {
                let h = choose|h: int|
                    0 <= h < s.len() && trim(#[trigger] s[h]) == seq!['['] + title + seq![']']
                        && forall|k: int| h < k < s.len() ==> !is_header(trim(#[trigger] s[k]));
                assert(h < n);
                assert(rest[h] == s[h]);
                assert forall|k: int| h < k < n implies !is_header(trim(#[trigger] rest[k])) by {
                    assert(rest[k] == s[k]);
                }
            }
        }
    }
}

proof fn lemma_header_of_title(title: Seq<char>)
    ensures
        is_header(seq!['['] + title + seq![']']),
{
    lemma_header(seq!['['] + title + seq![']'], title);
}

/// Whether a line stands in a section does not depend on what follows it.
proof fn lemma_stands_in_prefix(s: Seq<Seq<char>>, i: int, title: Seq<char>)
    requires
        0 <= i < s.len(),
    ensures
        stands_in(s.drop_last(), i, title) == stands_in(s, i, title),
{
    let rest = s.drop_last();
    if stands_in(rest, i, title) {
        let h = choose|h: int|
            0 <= h < i && trim(#[trigger] rest[h]) == seq!['['] + title + seq![']'] && forall|k: int|
                h < k < i ==> !is_header(trim(#[trigger] rest[k]));
        assert(s[h] == rest[h]);
        assert forall|k: int| h < k < i implies !is_header(trim(#[trigger] s[k])) by {
            assert(rest[k] == s[k]);
        }
    }
    if stands_in(s, i, title) {
        let h = choose|h: int|
            0 <= h < i && trim(#[trigger] s[h]) == seq!['['] + title + seq![']'] && forall|k: int|
                h < k < i ==> !is_header(trim(#[trigger] s[k]));
        assert(s[h] == rest[h]);
        assert forall|k: int| h < k < i implies !is_header(trim(#[trigger] rest[k])) by {
            assert(rest[k] == s[k]);
        }
    }
}

/// A value that is set is what is read, and other keys keep theirs.
pub proof fn law_set_value_is_read(
    s: Seq<(Seq<char>, Seq<char>)>,
    key: Seq<char>,
    value: Seq<char>,
    other: Seq<char>,
)
    ensures
        value_of(set_value(s, key, value), key) == Some(value),
        other != key ==> value_of(set_value(s, key, value), other) == value_of(s, other),
{
    let p = of_key(key);
    let q = of_key(other);
    let t = set_value(s, key, value);
    let i = first_index(s, p);
    let j = first_index(s, q);
    lemma_first_index_bounds(s, p);
    lemma_first_index_bounds(s, q);
    assert forall|k: int| 0 <= k < i implies !p(#[trigger] t[k]) by {
        assert(t[k] == s[k]);
    }
    assert(p(t[i as int]));
    lemma_first_index(t, p, i);
    if other != key {
        assert forall|k: int| 0 <= k < j implies !q(#[trigger] t[k]) by {
            assert(!q(s[k]));
        }
        if j < s.len() {
            assert(q(s[j as int]));
            assert(t[j as int] == s[j as int]);
            lemma_first_index(t, q, j);
        } else if i < s.len() {
            lemma_first_index(t, q, j);
        } else {
            assert(!q(t[j as int]));
            lemma_first_index(t, q, j + 1);
        }
    }
}

/// The value of a key in a section is the one that the last line sets which sets
/// the key and stands in the section.
pub proof fn law_last_line_sets_value(
    s: Seq<Seq<char>>,
    title: Seq<char>,
    key: Seq<char>,
    value: Seq<char>,
)
    ensures
        value_of(section_settings(s, title), key) == Some(value) <==> exists|i: int|
            0 <= i < s.len() && #[trigger] sets(s, i, title, key, value) && forall|j: int, v: Seq<
                char,
            >|
                i < j < s.len() ==> !#[trigger] sets(s, j, title, key, v),
    decreases s.len(),
{
    if s.len() > 0 {
        let rest = s.drop_last();
        let n = rest.len() as int;
        let line = trim(s.last());
        assert(s[n] == s.last());
        law_last_line_sets_value(rest, title, key, value);
        lemma_stands_in(rest, title);
        lemma_stands_in_prefix(s, n, title);
        assert(stands_in(rest, n, title) == stands_in(s, n, title));
        assert forall|i: int, v: Seq<char>| 0 <= i < n implies #[trigger] sets(s, i, title, key, v)
            == sets(rest, i, title, key, v) by {
            lemma_stands_in_prefix(s, i, title);
        }
        reveal_strlit("#");
        assert(starts_with(line, "#"@) == (line.len() > 0 && line[0] == '#')) by {
            if line.len() > 0 && line[0] == '#' {
                assert(line.take(1) =~= "#"@);
            }
            if starts_with(line, "#"@) {
                assert(line.take(1)[0] == '#');
            }
        }
        let inner = section_settings(rest, title);
        let active = !is_header(line) && stands_in(s, n, title) && line.len() > 0 && line[0]
            != '#';
        if active && split_once(line, '=') is Some {
            let (k, v) = split_once(line, '=')->0;
            law_split_once(line, '=', k, v);
            law_set_value_is_read(inner, k, v, key);
            assert(sets(s, n, title, k, v));
            assert forall|w: Seq<char>| #[trigger] sets(s, n, title, key, w) implies k == key && w
                == v by {
                law_split_once(line, '=', key, w);
            }
            if k == key {
                assert(sets(s, n, title, key, v));
                if exists|i: int|
                    0 <= i < s.len() && #[trigger] sets(s, i, title, key, value) && forall|
                        j: int,
                        w: Seq<char>,
                    |
                        i < j < s.len() ==> !#[trigger] sets(s, j, title, key, w) {
                    let i = choose|i: int|
                        0 <= i < s.len() && #[trigger] sets(s, i, title, key, value) && forall|
                            j: int,
                            w: Seq<char>,
                        |
                            i < j < s.len() ==> !#[trigger] sets(s, j, title, key, w);
                    assert(i == n);
                }
            } else {
                lemma_last_setting(s, title, key, value);
            }
        } else {
            assert forall|w: Seq<char>| !#[trigger] sets(s, n, title, key, w) by {
                if sets(s, n, title, key, w) {
                    law_split_once(line, '=', key, w);
                }
            }
            lemma_last_setting(s, title, key, value);
        }
    }
}

/// A line that does not set a key leaves the last one that does in force.
proof fn lemma_last_setting(s: Seq<Seq<char>>, title: Seq<char>, key: Seq<char>, value: Seq<char>)
    requires
        s.len() > 0,
        forall|w: Seq<char>| !#[trigger] sets(s, s.len() - 1, title, key, w),
        forall|i: int, v: Seq<char>|
            0 <= i < s.len() - 1 ==> #[trigger] sets(s, i, title, key, v) == sets(
                s.drop_last(),
                i,
                title,
                key,
                v,
            ),
    ensures
        (exists|i: int|
            0 <= i < s.len() && #[trigger] sets(s, i, title, key, value) && forall|j: int, v: Seq<
                char,
            >|
                i < j < s.len() ==> !#[trigger] sets(s, j, title, key, v)) == (exists|i: int|
            0 <= i < s.drop_last().len() && #[trigger] sets(s.drop_last(), i, title, key, value)
                && forall|j: int, v: Seq<char>|
                i < j < s.drop_last().len() ==> !#[trigger] sets(s.drop_last(), j, title, key, v)),
{
    let rest = s.drop_last();
    let n = rest.len() as int;
    if exists|i: int|
        0 <= i < s.len() && #[trigger] sets(s, i, title, key, value) && forall|j: int, v: Seq<char>|
            i < j < s.len() ==> !#[trigger] sets(s, j, title, key, v) {
        let i = choose|i: int|
            0 <= i < s.len() && #[trigger] sets(s, i, title, key, value) && forall|
                j: int,
                v: Seq<char>,
            |
                i < j < s.len() ==> !#[trigger] sets(s, j, title, key, v);
        assert(i < n);
        assert(sets(rest, i, title, key, value));
        assert forall|j: int, v: Seq<char>| i < j < n implies !#[trigger] sets(
            rest,
            j,
            title,
            key,
            v,
        ) by {
            assert(!sets(s, j, title, key, v));
        }
    }
    if exists|i: int|
        0 <= i < n && #[trigger] sets(rest, i, title, key, value) && forall|j: int, v: Seq<char>|
            i < j < n ==> !#[trigger] sets(rest, j, title, key, v) {
        let i = choose|i: int|
            0 <= i < n && #[trigger] sets(rest, i, title, key, value) && forall|j: int, v: Seq<char>|
                i < j < n ==> !#[trigger] sets(rest, j, title, key, v);
        assert(sets(s, i, title, key, value));
        assert forall|j: int, v: Seq<char>| i < j < s.len() implies !#[trigger] sets(
            s,
            j,
            title,
            key,
            v,
        ) by {
            if j < n {
                assert(!sets(rest, j, title, key, v));
            }
        }
    }
}

/// How far a command line has been read.
pub struct ExecState {
    pub words: Seq<Seq<char>>,
    pub word: Seq<char>,
    pub quoted: bool,
    pub escaped: bool,
}

/// What one more character does: a backslash takes the next as it is, quotes
/// keep white space, and white space outside them ends a word.
pub open spec fn exec_step(s: ExecState, c: char) -> ExecState {
    if s.escaped {
        ExecState { word: s.word.push(c), escaped: false, ..s }
    } else if c == '\\' {
        ExecState { escaped: true, ..s }
    } else if c == '"' {
        ExecState { quoted: !s.quoted, ..s }
    } else if is_white(c) && !s.quoted {
        if s.word.len() > 0 {
            ExecState { words: s.words.push(s.word), word: Seq::empty(), ..s }
        } else {
            s
        }
    } else {
        ExecState { word: s.word.push(c), ..s }
    }
}

/// How far a command line has been read after some characters.
pub open spec fn exec_state(s: Seq<char>) -> ExecState
    decreases s.len(),
{
    if s.len() == 0 {
        ExecState {
            words: Seq::empty(),
            word: Seq::empty(),
            quoted: false,
            escaped: false,
        }
    } else {
        exec_step(exec_state(s.drop_last()), s.last())
    }
}

/// Whether a character stands for a file, an address, an icon or a desktop
/// entry after a percent sign.
pub open spec fn is_field_code(c: char) -> bool {
    c == 'f' || c == 'F' || c == 'u' || c == 'U' || c == 'i' || c == 'c' || c == 'k'
}

/// The text without its field codes; two percent signs stand for one.
pub open spec fn without_codes(s: Seq<char>) -> Seq<char>
    decreases s.len(),
{
    if s.len() == 0 {
        s
    } else if s[0] != '%' {
        seq![s[0]] + without_codes(s.skip(1))
    } else if s.len() == 1 {
        seq!['%']
    } else if s[1] == '%' {
        seq!['%'] + without_codes(s.skip(2))
    } else if is_field_code(s[1]) {
        without_codes(s.skip(2))
    } else {
        seq!['%', s[1]] + without_codes(s.skip(2))
    }
}

/// The words of a command line, where its quotes and escapes are complete.
pub open spec fn exec_words(s: Seq<char>) -> Option<Seq<Seq<char>>> {
    let e = exec_state(s);
    if e.escaped || e.quoted {
        None
    } else if e.word.len() > 0 {
        Some(e.words.push(e.word))
    } else {
        Some(e.words)
    }
}

/// The command that a command line stands for, where it stands for one.
pub open spec fn exec_command(s: Seq<char>) -> Option<Seq<Seq<char>>> {
    match exec_words(s) {
        None => None,
        Some(words) => {
            let kept = words.map_values(|w: Seq<char>| without_codes(w)).filter(non_empty());
            if kept.len() == 0 {
                None
            } else {
                Some(kept)
            }
        },
    }
}

/// The text without its field codes.
pub fn remove_field_codes(value: &str) -> (r: String)
    ensures
        r@ == without_codes(value@),
{
    let c = chars_of(value);
    let mut result = String::new();
    let mut i: usize = 0;
    proof {
        assert(value@.skip(0) =~= value@);
        assert(result@ + without_codes(value@) =~= without_codes(value@));
    }
    while i < c.len()
        invariant
            i <= c.len(),
            c@ == value@,
            result@ + without_codes(value@.skip(i as int)) == without_codes(value@),
        decreases c.len() - i,
    {
        let ghost rest = value@.skip(i as int);
        let ghost before = result@;
        proof {
            assert(rest.skip(1) =~= value@.skip(i + 1));
            if rest.len() > 1 {
                assert(rest.skip(2) =~= value@.skip(i + 2));
            }
        }
        if c[i] != '%' {
            push_char(&mut result, c[i]);
            proof {
                assert(result@ + without_codes(rest.skip(1)) =~= before + without_codes(rest));
            }
            i += 1;
        } else if i + 1 == c.len() {
            push_char(&mut result, '%');
            proof {
                assert(without_codes(value@.skip(i + 1)) =~= Seq::empty());
                assert(result@ + without_codes(value@.skip(i + 1)) =~= before + without_codes(
                    rest,
                ));
            }
            i += 1;
        } else {
            let code = c[i + 1];
            if code == '%' {
                push_char(&mut result, '%');
            } else if code == 'f' || code == 'F' || code == 'u' || code == 'U' || code == 'i'
                || code == 'c' || code == 'k' {
            } else {
                push_char(&mut result, '%');
                push_char(&mut result, code);
            }
            proof {
                assert(result@ + without_codes(rest.skip(2)) =~= before + without_codes(rest));
            }
            i += 2;
        }
    }
    proof {
        assert(value@.skip(i as int) =~= Seq::empty());
        assert(result@ + without_codes(value@.skip(i as int)) =~= result@);
    }
    result
}

/// The command that the command line of a desktop entry stands for. Its field
/// codes go: an action is given no file and no address.
pub fn parse_exec(exec: &str) -> (r: Option<Vec<String>>)
    ensures
        match r {
            Some(words) => exec_command(exec@) == Some(views(words@)),
            None => exec_command(exec@) is None,
        },
{
    let c = chars_of(exec);
    let mut words: Vec<String> = Vec::new();
    let mut word = String::new();
    let mut quoted = false;
    let mut escaped = false;
    let mut i: usize = 0;
    proof {
        assert(exec@.take(0) =~= Seq::empty());
        assert(views(words@) =~= Seq::empty());
    }
    while i < c.len()
        invariant
            i <= c.len(),
            c@ == exec@,
            ({
                let e = exec_state(exec@.take(i as int));
                &&& e.words == views(words@)
                &&& e.word == word@
                &&& e.quoted == quoted
                &&& e.escaped == escaped
            }),
        decreases c.len() - i,
    {
        let character = c[i];
        let ghost before = words@;
        proof {
            assert(exec@.take(i + 1).drop_last() =~= exec@.take(i as int));
        }
        if escaped {
            push_char(&mut word, character);
            escaped = false;
        } else if character == '\\' {
            escaped = true;
        } else if character == '"' {
            quoted = !quoted;
        } else if char_is_white(character) && !quoted {
            if !word.as_str().is_empty() {
                words.push(word);
                proof {
                    assert(views(words@) =~= views(before).push(word@));
                }
                word = String::new();
            }
        } else {
            push_char(&mut word, character);
        }
        i += 1;
    }
    proof {
        assert(exec@.take(i as int) =~= exec@);
    }
    if escaped || quoted {
        return None;
    }
    let ghost before = words@;
    if !word.as_str().is_empty() {
        words.push(word);
        proof {
            assert(views(words@) =~= views(before).push(word@));
        }
    }
    let ghost all = views(words@).map_values(|w: Seq<char>| without_codes(w));
    let ghost f = non_empty();
    let mut out: Vec<String> = Vec::new();
    let mut k: usize = 0;
    proof {
        assert(exec_words(exec@) == Some(views(words@)));
        assert(all.take(0).filter(f) =~= Seq::empty()) by {
            reveal(Seq::filter);
        }
        assert(views(out@) =~= Seq::empty());
    }
    while k < words.len()
        invariant
            k <= words.len(),
            all == views(words@).map_values(|w: Seq<char>| without_codes(w)),
            f == non_empty(),
            views(out@) == all.take(k as int).filter(f),
        decreases words.len() - k,
    {
        let ghost before = out@;
        let cleaned = remove_field_codes(words[k].as_str());
        proof {
            lemma_filter_step(all, f, k as int);
            assert(all[k as int] == cleaned@);
        }
        if !cleaned.as_str().is_empty() {
            out.push(cleaned);
            proof {
                assert(views(out@) =~= views(before).push(cleaned@));
            }
        }
        k += 1;
    }
    proof {
        assert(all.take(k as int) =~= all);
        assert(views(out@).len() == out@.len());
    }
    if out.len() == 0 {
        None
    } else {
        Some(out)
    }
}

/// A command that is run has a program, and none of its words is empty.
pub proof fn law_exec_words_not_empty(s: Seq<char>)
    ensures
        exec_command(s) matches Some(words) ==> words.len() > 0 && forall|i: int|
            0 <= i < words.len() ==> (#[trigger] words[i]).len() > 0,
{
    match exec_words(s) {
        Some(words) => {
            crate::seqs::lemma_filter_members(
                words.map_values(|w: Seq<char>| without_codes(w)),
                non_empty(),
            );
        },
        None => {},
    }
}

/// A text without a percent sign holds no field code and stays as it is.
pub proof fn law_plain_text_has_no_codes(s: Seq<char>)
    requires
        forall|i: int| 0 <= i < s.len() ==> #[trigger] s[i] != '%',
    ensures
        without_codes(s) == s,
    decreases s.len(),
{
    if s.len() > 0 {
        let t = s.skip(1);
        assert forall|i: int| 0 <= i < t.len() implies #[trigger] t[i] != '%' by {
            assert(t[i] == s[i + 1]);
        }
        law_plain_text_has_no_codes(t);
        assert(without_codes(s) =~= s);
    }
}

/// A text with a backslash before each quote and each backslash.
pub open spec fn guarded(w: Seq<char>) -> Seq<char>
    decreases w.len(),
{
    if w.len() == 0 {
        w
    } else if w.last() == '"' || w.last() == '\\' {
        guarded(w.drop_last()) + seq!['\\', w.last()]
    } else {
        guarded(w.drop_last()).push(w.last())
    }
}

/// Whether a word needs no quotes.
pub open spec fn needs_no_quotes(w: Seq<char>) -> bool {
    forall|i: int|
        0 <= i < w.len() ==> !is_white(#[trigger] w[i]) && w[i] != '"' && w[i] != '\\'
}

/// A word of a command line as it may be written: white space before it, and
/// quotes around it where it needs them.
pub struct WrittenWord {
    pub space: Seq<char>,
    pub word: Seq<char>,
    pub quoted: bool,
}

/// Whether a word is written so that it stands alone.
pub open spec fn stands_alone(w: WrittenWord) -> bool {
    &&& w.space.len() > 0
    &&& forall|i: int| 0 <= i < w.space.len() ==> is_white(#[trigger] w.space[i])
    &&& w.word.len() > 0
    &&& w.quoted || needs_no_quotes(w.word)
}

/// A command line of written words.
pub open spec fn written(s: Seq<WrittenWord>) -> Seq<char>
    decreases s.len(),
{
    if s.len() == 0 {
        Seq::empty()
    } else {
        let w = s.last();
        written(s.drop_last()) + w.space + if w.quoted {
            seq!['"'] + guarded(w.word) + seq!['"']
        } else {
            w.word
        }
    }
}

proof fn lemma_exec_push(s: Seq<char>, c: char)
    ensures
        exec_state(s.push(c)) == exec_step(exec_state(s), c),
{
    assert(s.push(c).drop_last() =~= s);
}

/// White space outside quotes ends the word before it.
proof fn lemma_exec_space(s: Seq<char>, space: Seq<char>)
    requires
        !exec_state(s).quoted,
        !exec_state(s).escaped,
        space.len() > 0,
        forall|i: int| 0 <= i < space.len() ==> is_white(#[trigger] space[i]),
    ensures
        exec_state(s + space) == (ExecState {
            words: if exec_state(s).word.len() > 0 {
                exec_state(s).words.push(exec_state(s).word)
            } else {
                exec_state(s).words
            },
            word: Seq::empty(),
            quoted: false,
            escaped: false,
        }),
    decreases space.len(),
{
    let rest = space.drop_last();
    let c = space.last();
    assert(is_white(space[space.len() - 1]));
    lemma_white_is_plain(c);
    assert(s + space =~= (s + rest).push(c));
    lemma_exec_push(s + rest, c);
    if rest.len() > 0 {
        assert forall|i: int| 0 <= i < rest.len() implies is_white(#[trigger] rest[i]) by {
            assert(rest[i] == space[i]);
        }
        lemma_exec_space(s, rest);
    } else {
        assert(s + rest =~= s);
        assert(exec_state(s).word.len() == 0 ==> exec_state(s).word =~= Seq::empty());
    }
}

proof fn lemma_white_is_plain(c: char)
    requires
        is_white(c),
    ensures
        c != '"',
        c != '\\',
{
}

/// A word in quotes is read as it is.
proof fn lemma_exec_quoted(s: Seq<char>, w: Seq<char>)
    requires
        !exec_state(s).quoted,
        !exec_state(s).escaped,
        exec_state(s).word.len() == 0,
    ensures
        exec_state(s + seq!['"'] + guarded(w)) == (ExecState {
            word: w,
            quoted: true,
            ..exec_state(s)
        }),
    decreases w.len(),
{
    let open = s + seq!['"'];
    if w.len() == 0 {
        assert(open =~= s.push('"'));
        assert(open + guarded(w) =~= open);
        lemma_exec_push(s, '"');
        assert(exec_state(s).word =~= w);
    } else {
        let rest = w.drop_last();
        let c = w.last();
        lemma_exec_quoted(s, rest);
        let t = open + guarded(rest);
        assert(rest.push(c) =~= w);
        if c == '"' || c == '\\' {
            assert(open + guarded(w) =~= t.push('\\').push(c));
            lemma_exec_push(t, '\\');
            lemma_exec_push(t.push('\\'), c);
        } else {
            assert(open + guarded(w) =~= t.push(c));
            lemma_exec_push(t, c);
        }
    }
}

/// A word that needs no quotes is read as it is.
proof fn lemma_exec_bare(s: Seq<char>, w: Seq<char>)
    requires
        !exec_state(s).quoted,
        !exec_state(s).escaped,
        exec_state(s).word.len() == 0,
        needs_no_quotes(w),
    ensures
        exec_state(s + w) == (ExecState { word: w, ..exec_state(s) }),
    decreases w.len(),
{
    if w.len() == 0 {
        assert(s + w =~= s);
        assert(exec_state(s).word =~= w);
    } else {
        let rest = w.drop_last();
        let c = w.last();
        assert(!is_white(w[w.len() - 1]));
        assert forall|i: int| 0 <= i < rest.len() implies !is_white(#[trigger] rest[i]) && rest[i]
            != '"' && rest[i] != '\\' by {
            assert(rest[i] == w[i]);
        }
        lemma_exec_bare(s, rest);
        assert(s + w =~= (s + rest).push(c));
        lemma_exec_push(s + rest, c);
        assert(rest.push(c) =~= w);
    }
}

proof fn lemma_exec_written(s: Seq<WrittenWord>)
    requires
        forall|i: int| 0 <= i < s.len() ==> stands_alone(#[trigger] s[i]),
    ensures
        ({
            let e = exec_state(written(s));
            let words = s.map_values(|w: WrittenWord| w.word);
            &&& !e.quoted
            &&& !e.escaped
            &&& s.len() == 0 ==> e.words == words && e.word.len() == 0
            &&& s.len() > 0 ==> e.words == words.drop_last() && e.word == words.last()
        }),
    decreases s.len(),
{
    let words = s.map_values(|w: WrittenWord| w.word);
    if s.len() == 0 {
        assert(exec_state(written(s)).words =~= words);
    } else {
        let rest = s.drop_last();
        let w = s.last();
        assert(stands_alone(s[s.len() - 1]));
        assert forall|i: int| 0 <= i < rest.len() implies stands_alone(#[trigger] rest[i]) by {
            assert(rest[i] == s[i]);
        }
        lemma_exec_written(rest);
        let before = rest.map_values(|w: WrittenWord| w.word);
        let base = written(rest);
        lemma_exec_space(base, w.space);
        let t = base + w.space;
        if rest.len() > 0 {
            assert(stands_alone(rest[rest.len() - 1]));
            assert(before.drop_last().push(before.last()) =~= before);
        }
        assert(exec_state(t).words =~= before);
        assert(words.drop_last() =~= before);
        if w.quoted {
            lemma_exec_quoted(t, w.word);
            let open = t + seq!['"'] + guarded(w.word);
            assert(written(s) =~= open.push('"'));
            lemma_exec_push(open, '"');
        } else {
            lemma_exec_bare(t, w.word);
            assert(written(s) =~= t + w.word);
        }
    }
}

/// The words of a command line are those that were written, with or without quotes
/// around them, whatever white space stands between them.
pub proof fn law_written_words_are_read(s: Seq<WrittenWord>)
    requires
        forall|i: int| 0 <= i < s.len() ==> stands_alone(#[trigger] s[i]),
    ensures
        exec_words(written(s)) == Some(s.map_values(|w: WrittenWord| w.word)),
{
    lemma_exec_written(s);
    let words = s.map_values(|w: WrittenWord| w.word);
    if s.len() > 0 {
        assert(stands_alone(s[s.len() - 1]));
        assert(words.drop_last().push(words.last()) =~= words);
    }
}

/// A command line that ends within quotes, or behind a backslash, is none.
pub proof fn law_unfinished_command_is_none(s: Seq<WrittenWord>, space: Seq<char>, w: Seq<char>)
    requires
        forall|i: int| 0 <= i < s.len() ==> stands_alone(#[trigger] s[i]),
        space.len() > 0,
        forall|i: int| 0 <= i < space.len() ==> is_white(#[trigger] space[i]),
    ensures
        exec_command(written(s) + space + seq!['"'] + guarded(w)) is None,
        exec_command(written(s) + space + seq!['\\']) is None,
{
    lemma_exec_written(s);
    lemma_exec_space(written(s), space);
    let t = written(s) + space;
    lemma_exec_quoted(t, w);
    assert(t + seq!['\\'] =~= t.push('\\'));
    lemma_exec_push(t, '\\');
}

/// A text with each percent sign twice.
pub open spec fn doubled(w: Seq<char>) -> Seq<char>
    decreases w.len(),
{
    if w.len() == 0 {
        w
    } else if w[0] == '%' {
        seq!['%', '%'] + doubled(w.skip(1))
    } else {
        seq![w[0]] + doubled(w.skip(1))
    }
}

/// Percent signs that are written twice stand for themselves.
pub proof fn law_doubled_signs_stay(w: Seq<char>)
    ensures
        without_codes(doubled(w)) == w,
    decreases w.len(),
{
    if w.len() > 0 {
        let rest = w.skip(1);
        law_doubled_signs_stay(rest);
        let d = doubled(w);
        if w[0] == '%' {
            assert(d.skip(2) =~= doubled(rest));
        } else {
            assert(d.skip(1) =~= doubled(rest));
        }
        assert(seq![w[0]] + rest =~= w);
    }
}

/// A code of a file, an address, an icon, a name or an entry goes, and what stands
/// around it stays.
pub proof fn law_field_codes_go(before: Seq<char>, code: char, after: Seq<char>)
    requires
        code == 'f' || code == 'F' || code == 'u' || code == 'U' || code == 'i' || code == 'c'
            || code == 'k',
        !before.contains('%'),
    ensures
        without_codes(before + seq!['%', code] + after) == before + without_codes(after),
    decreases before.len(),
{
    let s = before + seq!['%', code] + after;
    if before.len() == 0 {
        assert(s[0] == '%' && s[1] == code);
        assert(s.skip(2) =~= after);
        assert(before + without_codes(after) =~= without_codes(after));
    } else {
        let rest = before.skip(1);
        assert(before[0] != '%');
        assert(!rest.contains('%')) by {
            if rest.contains('%') {
                let k = choose|k: int| 0 <= k < rest.len() && rest[k] == '%';
                assert(before[k + 1] == '%');
            }
        }
        law_field_codes_go(rest, code, after);
        assert(s.skip(1) =~= rest + seq!['%', code] + after);
        assert(s[0] == before[0]);
        assert(seq![before[0]] + (rest + without_codes(after)) =~= before + without_codes(after));
    }
}

/// A command line whose words hold no percent signs stands for the command of its
/// words.
pub proof fn law_plain_command(s: Seq<WrittenWord>)
    requires
        s.len() > 0,
        forall|i: int|
            0 <= i < s.len() ==> stands_alone(#[trigger] s[i]) && !s[i].word.contains('%'),
    ensures
        exec_command(written(s)) == Some(s.map_values(|w: WrittenWord| w.word)),
{
    law_written_words_are_read(s);
    let words = s.map_values(|w: WrittenWord| w.word);
    let kept = words.map_values(|w: Seq<char>| without_codes(w));
    assert forall|i: int| 0 <= i < kept.len() implies #[trigger] kept[i] == words[i] && non_empty()(
        kept[i],
    ) by {
        assert(stands_alone(s[i]));
        law_plain_text_has_no_codes(words[i]);
    }
    assert(kept =~= words);
    crate::seqs::lemma_filter_all(words, non_empty());
}

/// An application goes by its identifiers that say something, in lower case and without
/// what follows a null character; by the present one first.
pub proof fn law_identifiers_of_application(app_id: Seq<char>, initial_app_id: Seq<char>)
    requires
        !app_id.contains('\0'),
        !initial_app_id.contains('\0'),
    ensures
        ({
            let a = trim(app_id);
            let b = trim(initial_app_id);
            let r = ids_of(app_id, initial_app_id);
            &&& a.len() > 0 && b.len() > 0 ==> r == seq![ascii_lowercase(a), ascii_lowercase(b)]
            &&& a.len() > 0 && b.len() == 0 ==> r == seq![ascii_lowercase(a)]
            &&& a.len() == 0 && b.len() > 0 ==> r == seq![ascii_lowercase(b)]
            &&& a.len() == 0 && b.len() == 0 ==> r.len() == 0
        }),
        forall|rest: Seq<char>| #[trigger]
            clean_id(app_id + seq!['\0'] + rest) == trim(app_id),
{
    law_split_once(app_id, '\0', app_id, app_id);
    law_split_once(initial_app_id, '\0', app_id, app_id);
    assert forall|rest: Seq<char>| #[trigger]
        clean_id(app_id + seq!['\0'] + rest) == trim(app_id) by {
        law_split_once(app_id + seq!['\0'] + rest, '\0', app_id, rest);
    }
    let a = trim(app_id);
    let b = trim(initial_app_id);
    let r = ids_of(app_id, initial_app_id);
    if a.len() > 0 && b.len() > 0 {
        assert(r =~= seq![ascii_lowercase(a), ascii_lowercase(b)]);
    } else if b.len() > 0 {
        assert(r =~= seq![ascii_lowercase(b)]);
    }
}

/// An action is labelled by its name; without one by the first translated name; and
/// without any by its identifier.
pub proof fn law_label_of_action(action: Seq<(Seq<char>, Seq<char>)>, id: Seq<char>, at: int)
    ensures
        value_of(action, "Name"@) matches Some(name) ==> action_label(action, id) == name,
        value_of(action, "Name"@) is None ==> {
            &&& 0 <= at < action.len() && "Name["@.is_prefix_of(action[at].0) && (forall|j: int|
                0 <= j < at ==> !"Name["@.is_prefix_of((#[trigger] action[j]).0)) ==> action_label(
                action,
                id,
            ) == action[at].1
            &&& (forall|j: int|
                0 <= j < action.len() ==> !"Name["@.is_prefix_of((#[trigger] action[j]).0))
                ==> action_label(action, id) == id
        },
{
    let p = |p: (Seq<char>, Seq<char>)| starts_with(p.0, "Name["@);
    assert forall|j: int| 0 <= j < action.len() implies p(#[trigger] action[j])
        == "Name["@.is_prefix_of(action[j].0) by {
        let k = action[j].0;
        if "Name["@.len() <= k.len() {
            assert(k.take("Name["@.len() as int) =~= k.subrange(0, "Name["@.len() as int));
        }
    }
    if 0 <= at < action.len() && "Name["@.is_prefix_of(action[at].0) && (forall|j: int|
        0 <= j < at ==> !"Name["@.is_prefix_of((#[trigger] action[j]).0)) {
        lemma_first_index(action, p, at as nat);
    }
    if forall|j: int|
        0 <= j < action.len() ==> !"Name["@.is_prefix_of((#[trigger] action[j]).0) {
        lemma_first_index(action, p, action.len());
    }
}

} // verus!

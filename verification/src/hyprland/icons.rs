//! The names and icons of applications, from their desktop entries.

use vstd::prelude::*;
use vstd::string::*;

use crate::hyprland::jump_list::{lowercase, lowercase_text};
use crate::paths::{
    components, extension, extension_of, join_path, joined, law_names_of_files, same_path,
};
use crate::seqs::{find_first, first_index, lemma_first_index};
use crate::text::{
    ascii_lowercase, ascii_lowercase_text, concat, lines, opt_view, owned, same, split_on,
    split_once, split_text, split_text_once, starts_with, text_lines, text_starts_with, trim,
    trim_text, views,
};
use crate::text_laws::law_split_once;

verus! {

/// What the index knows of an application under a key of lower case.
#[derive(Debug)]
pub struct IndexEntry {
    pub key: String,
    pub value: String,
}

/// The contents of an index.
pub open spec fn index_views(s: Seq<IndexEntry>) -> Seq<(Seq<char>, Seq<char>)> {
    s.map_values(|e: IndexEntry| (e.key@, e.value@))
}

/// The predicate that holds of the entry of a key.
pub open spec fn keyed(key: Seq<char>) -> spec_fn((Seq<char>, Seq<char>)) -> bool {
    |p: (Seq<char>, Seq<char>)| p.0 == key
}

/// What an index holds under a key.
pub open spec fn indexed(s: Seq<(Seq<char>, Seq<char>)>, key: Seq<char>) -> Option<Seq<char>> {
    match find_first(s, keyed(key)) {
        Some(p) => Some(p.1),
        None => None,
    }
}

/// The index with a value under a key, unless there is one already.
pub open spec fn with_entry(s: Seq<(Seq<char>, Seq<char>)>, key: Seq<char>, value: Seq<char>) -> Seq<
    (Seq<char>, Seq<char>),
> {
    if indexed(s, key) is Some {
        s
    } else {
        s.push((key, value))
    }
}

/// The index with what a desktop entry gives: under the name of its file, and
/// under the window class that it announces.
pub open spec fn with_desktop_entry(
    s: Seq<(Seq<char>, Seq<char>)>,
    file_stem: Seq<char>,
    value: Seq<char>,
    class: Option<Seq<char>>,
) -> Seq<(Seq<char>, Seq<char>)> {
    let t = with_entry(s, lowercase(file_stem), value);
    match class {
        Some(c) => with_entry(t, lowercase(c), value),
        None => t,
    }
}

/// The index of a key, or the number of entries.
fn index_of(s: &Vec<IndexEntry>, key: &str) -> (r: usize)
    ensures
        r == first_index(index_views(s@), keyed(key@)),
        r <= s@.len(),
{
    let mut i: usize = 0;
    while i < s.len() && !same(s[i].key.as_str(), key)
        invariant
            i <= s.len(),
            forall|j: int| 0 <= j < i ==> !keyed(key@)(#[trigger] index_views(s@)[j]),
        decreases s.len() - i,
    {
        i += 1;
    }
    proof {
        assert(i < s.len() ==> index_views(s@)[i as int].0 == key@);
        lemma_first_index(index_views(s@), keyed(key@), i as nat);
    }
    i
}

/// Adds a value under a key, unless there is one already.
fn add_entry(s: &mut Vec<IndexEntry>, key: String, value: String)
    ensures
        index_views(final(s)@) == with_entry(index_views(old(s)@), key@, value@),
{
    let i: usize = index_of(s, key.as_str());
    if i < s.len() {
        return;
    }
    let ghost before = s@;
    s.push(IndexEntry { key, value });
    proof {
        assert(index_views(s@) =~= index_views(before).push((key@, value@)));
    }
}

/// What a desktop entry says of a key in its main section: the last value, and
/// the last window class.
pub open spec fn in_main_section(s: Seq<Seq<char>>) -> bool
    decreases s.len(),
{
    if s.len() == 0 {
        false
    } else {
        let line = trim(s.last());
        if starts_with(line, "["@) {
            line == "[Desktop Entry]"@
        } else {
            in_main_section(s.drop_last())
        }
    }
}

/// The last value of a key in the main section.
pub open spec fn main_value(s: Seq<Seq<char>>, key: Seq<char>) -> Option<Seq<char>>
    decreases s.len(),
{
    if s.len() == 0 {
        None
    } else {
        let before = main_value(s.drop_last(), key);
        let line = trim(s.last());
        if starts_with(line, "["@) || !in_main_section(s.drop_last()) || line.len() == 0
            || starts_with(line, "#"@) {
            before
        } else {
            match split_once(line, '=') {
                Some((k, value)) => if k == key {
                    Some(value)
                } else {
                    before
                },
                None => before,
            }
        }
    }
}

/// A value of a desktop entry and the window class that the entry announces.
fn desktop_entry_value(contents: &str, wanted: &str) -> (r: (Option<String>, Option<String>))
    requires
        wanted@ != "StartupWMClass"@,
    ensures
        opt_view(r.0) == main_value(lines(contents@), wanted@),
        opt_view(r.1) == main_value(lines(contents@), "StartupWMClass"@),
{
    let all = text_lines(contents);
    let ghost ls = lines(contents@);
    let mut inside = false;
    let mut found: Option<String> = None;
    let mut class: Option<String> = None;
    let mut i: usize = 0;
    proof {
        assert(ls.take(0) =~= Seq::empty());
    }
    while i < all.len()
        invariant
            i <= all.len(),
            ls == views(all@),
            wanted@ != "StartupWMClass"@,
            inside == in_main_section(ls.take(i as int)),
            opt_view(found) == main_value(ls.take(i as int), wanted@),
            opt_view(class) == main_value(ls.take(i as int), "StartupWMClass"@),
        decreases all.len() - i,
    {
        let line = trim_text(all[i].as_str());
        proof {
            assert(ls.take(i + 1).drop_last() =~= ls.take(i as int));
            assert(ls.take(i + 1).last() == all@[i as int]@);
        }
        if text_starts_with(line.as_str(), "[") {
            inside = same(line.as_str(), "[Desktop Entry]");
        } else if inside && !line.as_str().is_empty() && !text_starts_with(line.as_str(), "#") {
            if let Some((key, value)) = split_text_once(line.as_str(), '=') {
                if same(key.as_str(), wanted) {
                    found = Some(value);
                } else if same(key.as_str(), "StartupWMClass") {
                    class = Some(value);
                }
            }
        }
        i += 1;
    }
    proof {
        assert(ls.take(i as int) =~= ls);
    }
    (found, class)
}

/// The icon and the window class of a desktop entry, where it names an icon.
pub fn desktop_entry_icon(contents: &str) -> (r: Option<(String, Option<String>)>)
    ensures
        match r {
            Some((icon, class)) => main_value(lines(contents@), "Icon"@) == Some(icon@) && opt_view(
                class,
            ) == main_value(lines(contents@), "StartupWMClass"@),
            None => main_value(lines(contents@), "Icon"@) is None,
        },
{
    proof {
        reveal_strlit("Icon");
        reveal_strlit("StartupWMClass");
        assert("Icon"@.len() != "StartupWMClass"@.len());
    }
    let (icon, class) = desktop_entry_value(contents, "Icon");
    match icon {
        Some(icon) => Some((icon, class)),
        None => None,
    }
}

/// The name and the window class of a desktop entry, where it gives a name.
pub fn desktop_entry_name(contents: &str) -> (r: Option<(String, Option<String>)>)
    ensures
        match r {
            Some((name, class)) => main_value(lines(contents@), "Name"@) == Some(name@) && opt_view(
                class,
            ) == main_value(lines(contents@), "StartupWMClass"@),
            None => main_value(lines(contents@), "Name"@) is None,
        },
{
    proof {
        reveal_strlit("Name");
        reveal_strlit("StartupWMClass");
        assert("Name"@.len() != "StartupWMClass"@.len());
    }
    let (name, class) = desktop_entry_value(contents, "Name");
    match name {
        Some(name) => Some((name, class)),
        None => None,
    }
}

/// The identifier that a window reports, without what follows a null character.
pub open spec fn window_id(app_id: Seq<char>) -> Seq<char> {
    match split_once(trim(app_id), '\0') {
        Some((head, _)) => head,
        None => trim(app_id),
    }
}

/// The key under which a lookup is remembered.
pub open spec fn cache_key(app_id: Seq<char>, initial_app_id: Seq<char>) -> Seq<char> {
    lowercase(window_id(app_id)) + seq!['\u{1f}'] + lowercase(trim(initial_app_id))
}

/// What an index knows of an identifier that says something.
pub open spec fn known(index: Seq<(Seq<char>, Seq<char>)>, id: Seq<char>) -> Option<Seq<char>> {
    if id.len() == 0 {
        None
    } else {
        indexed(index, lowercase(id))
    }
}

/// What an index knows of an application, else its first identifier that says
/// something.
pub open spec fn known_or_id(
    index: Seq<(Seq<char>, Seq<char>)>,
    app_id: Seq<char>,
    initial_app_id: Seq<char>,
) -> Option<Seq<char>> {
    let a = window_id(app_id);
    let b = trim(initial_app_id);
    match known(index, a) {
        Some(v) => Some(v),
        None => match known(index, b) {
            Some(v) => Some(v),
            None => if a.len() > 0 {
                Some(a)
            } else if b.len() > 0 {
                Some(b)
            } else {
                None
            },
        },
    }
}

/// What was found for a key before.
#[derive(Debug)]
pub struct CachedIcon {
    pub key: String,
    pub icon: Option<String>,
}

/// The contents of a memory of lookups.
pub open spec fn cache_views(s: Seq<CachedIcon>) -> Seq<(Seq<char>, Option<Seq<char>>)> {
    s.map_values(|c: CachedIcon| (c.key@, opt_view(c.icon)))
}

/// The predicate that holds of what was found for a key.
pub open spec fn cached_under(key: Seq<char>) -> spec_fn((Seq<char>, Option<Seq<char>>)) -> bool {
    |p: (Seq<char>, Option<Seq<char>>)| p.0 == key
}

/// What is to be done to find an icon.
#[derive(Debug)]
pub enum IconRequest {
    /// It was looked for before, with this outcome.
    Known(Option<String>),
    /// An icon of the name, if any, is to be looked for and remembered.
    Find { key: String, name: Option<String> },
}

/// Resolves applications to their icons and names.
pub struct AppIconResolver {
    desktop_icons: Vec<IndexEntry>,
    desktop_names: Vec<IndexEntry>,
    cache: Vec<CachedIcon>,
}

/// The identifier that a window reports.
fn reported_id(app_id: &str) -> (r: String)
    ensures
        r@ == window_id(app_id@),
{
    let trimmed = trim_text(app_id);
    match split_text_once(trimmed.as_str(), '\0') {
        Some((head, _)) => head,
        None => trimmed,
    }
}

/// What an index knows of an identifier.
fn lookup(index: &Vec<IndexEntry>, id: &str) -> (r: Option<String>)
    ensures
        opt_view(r) == known(index_views(index@), id@),
{
    if id.is_empty() {
        return None;
    }
    let key = lowercase_text(id);
    let i: usize = index_of(index, key.as_str());
    if i < index.len() {
        proof {
            assert(index_views(index@)[i as int].1 == index@[i as int].value@);
        }
        Some(index[i].value.clone())
    } else {
        None
    }
}

/// What an index knows of an application, else its first identifier.
fn lookup_or_id(index: &Vec<IndexEntry>, app_id: &str, initial_app_id: &str) -> (r: Option<String>)
    ensures
        opt_view(r) == known_or_id(index_views(index@), app_id@, initial_app_id@),
{
    let a = reported_id(app_id);
    let b = trim_text(initial_app_id);
    if let Some(v) = lookup(index, a.as_str()) {
        return Some(v);
    }
    if let Some(v) = lookup(index, b.as_str()) {
        return Some(v);
    }
    if !a.as_str().is_empty() {
        Some(a)
    } else if !b.as_str().is_empty() {
        Some(b)
    } else {
        None
    }
}

impl AppIconResolver {
    /// The icons by application.
    pub closed spec fn icons(&self) -> Seq<(Seq<char>, Seq<char>)> {
        index_views(self.desktop_icons@)
    }

    /// The names by application.
    pub closed spec fn names(&self) -> Seq<(Seq<char>, Seq<char>)> {
        index_views(self.desktop_names@)
    }

    /// What was found before.
    pub closed spec fn remembered(&self) -> Seq<(Seq<char>, Option<Seq<char>>)> {
        cache_views(self.cache@)
    }

    /// A resolver that knows no application.
    pub fn new() -> (r: Self)
        ensures
            r.icons().len() == 0,
            r.names().len() == 0,
            r.remembered().len() == 0,
    {
        AppIconResolver {
            desktop_icons: Vec::new(),
            desktop_names: Vec::new(),
            cache: Vec::new(),
        }
    }

    /// Takes in a desktop entry: its icon and its name, where it has them. What
    /// came first stays.
    pub fn add_desktop_entry(&mut self, file_stem: &str, contents: &str)
        ensures
            final(self).remembered() == old(self).remembered(),
            final(self).icons() == match main_value(lines(contents@), "Icon"@) {
                Some(icon) => with_desktop_entry(
                    old(self).icons(),
                    file_stem@,
                    icon,
                    main_value(lines(contents@), "StartupWMClass"@),
                ),
                None => old(self).icons(),
            },
            final(self).names() == match main_value(lines(contents@), "Name"@) {
                Some(name) => with_desktop_entry(
                    old(self).names(),
                    file_stem@,
                    name,
                    main_value(lines(contents@), "StartupWMClass"@),
                ),
                None => old(self).names(),
            },
    {
        if let Some((icon, class)) = desktop_entry_icon(contents) {
            add_entry(&mut self.desktop_icons, lowercase_text(file_stem), icon.clone());
            if let Some(class) = class {
                add_entry(&mut self.desktop_icons, lowercase_text(class.as_str()), icon);
            }
        }
        if let Some((name, class)) = desktop_entry_name(contents) {
            add_entry(&mut self.desktop_names, lowercase_text(file_stem), name.clone());
            if let Some(class) = class {
                add_entry(&mut self.desktop_names, lowercase_text(class.as_str()), name);
            }
        }
    }

    /// What is to be done to find the icon of an application.
    pub fn resolve(&self, app_id: &str, initial_app_id: &str) -> (r: IconRequest)
        ensures
            match find_first(
                self.remembered(),
                cached_under(cache_key(app_id@, initial_app_id@)),
            ) {
                Some(p) => r matches IconRequest::Known(icon) && opt_view(icon) == p.1,
                None => {
                    &&& r matches IconRequest::Find { key, name }
                    &&& key@ == cache_key(app_id@, initial_app_id@)
                    &&& opt_view(name) == known_or_id(self.icons(), app_id@, initial_app_id@)
                },
            },
    {
        let a = reported_id(app_id);
        let b = trim_text(initial_app_id);
        let mut key = lowercase_text(a.as_str());
        crate::text::push_char(&mut key, '\u{1f}');
        key.append(lowercase_text(b.as_str()).as_str());
        proof {
            assert(key@ =~= cache_key(app_id@, initial_app_id@));
        }
        let ghost v = cache_views(self.cache@);
        let mut i: usize = 0;
        while i < self.cache.len() && !same(self.cache[i].key.as_str(), key.as_str())
            invariant
                i <= self.cache.len(),
                v == cache_views(self.cache@),
                forall|j: int| 0 <= j < i ==> !cached_under(key@)(#[trigger] v[j]),
            decreases self.cache.len() - i,
        {
            i += 1;
        }
        proof {
            assert(i < self.cache.len() ==> v[i as int] == (
                self.cache@[i as int].key@,
                opt_view(self.cache@[i as int].icon),
            ));
            lemma_first_index(v, cached_under(key@), i as nat);
        }
        if i < self.cache.len() {
            return IconRequest::Known(self.cache[i].icon.clone());
        }
        let name = lookup_or_id(&self.desktop_icons, app_id, initial_app_id);
        IconRequest::Find { key, name }
    }

    /// Remembers what was found for a key that was not known.
    pub fn remember(&mut self, key: String, icon: Option<String>)
        ensures
            final(self).icons() == old(self).icons(),
            final(self).names() == old(self).names(),
            final(self).remembered() == old(self).remembered().push((key@, opt_view(icon))),
    {
        let ghost before = self.cache@;
        self.cache.push(CachedIcon { key, icon });
        proof {
            assert(cache_views(self.cache@) =~= cache_views(before).push((key@, opt_view(icon))));
        }
    }

    /// The name of an application as it is shown.
    pub fn display_name(&self, app_id: &str, initial_app_id: &str) -> (r: String)
        ensures
            r@ == match known_or_id(self.names(), app_id@, initial_app_id@) {
                Some(name) => name,
                None => "Unknown application"@,
            },
    {
        match lookup_or_id(&self.desktop_names, app_id, initial_app_id) {
            Some(name) => name,
            None => owned("Unknown application"),
        }
    }
}

/// Whether a name ends in the extension of an image.
pub open spec fn named_as_image(name: Seq<char>) -> bool {
    match extension(name) {
        Some(e) => {
            let l = ascii_lowercase(e);
            l == "png"@ || l == "svg"@ || l == "xpm"@ || l == "jpg"@ || l == "jpeg"@ || l
                == "webp"@
        },
        None => false,
    }
}

/// Whether a name ends in the extension of an image.
pub fn has_image_extension(icon_name: &str) -> (r: bool)
    ensures
        r == named_as_image(icon_name@),
{
    match extension_of(icon_name) {
        Some(e) => {
            let l = ascii_lowercase_text(e.as_str());
            same(l.as_str(), "png") || same(l.as_str(), "svg") || same(l.as_str(), "xpm") || same(
                l.as_str(),
                "jpg",
            ) || same(l.as_str(), "jpeg") || same(l.as_str(), "webp")
        },
        None => false,
    }
}

/// The names of the files that may hold an icon, in order.
pub open spec fn icon_files(name: Seq<char>) -> Seq<Seq<char>> {
    if named_as_image(name) {
        seq![name]
    } else {
        seq![name + ".png"@, name + ".svg"@, name + ".xpm"@]
    }
}

/// The names of the files that may hold an icon, in order.
pub fn icon_file_names(icon_name: &str) -> (r: Vec<String>)
    ensures
        views(r@) == icon_files(icon_name@),
{
    let mut out: Vec<String> = Vec::new();
    if has_image_extension(icon_name) {
        out.push(owned(icon_name));
    } else {
        out.push(concat(icon_name, ".png"));
        out.push(concat(icon_name, ".svg"));
        out.push(concat(icon_name, ".xpm"));
    }
    proof {
        assert(views(out@) =~= icon_files(icon_name@));
    }
    out
}

/// The directories of a theme that hold icons of applications, the preferred
/// size first.
pub open spec fn theme_directories() -> Seq<Seq<char>> {
    seq![
        "32x32/apps"@,
        "24x24/apps"@,
        "16x16/apps"@,
        "48x48/apps"@,
        "64x64/apps"@,
        "128x128/apps"@,
        "256x256/apps"@,
        "512x512/apps"@,
        "512x512@2/apps"@,
        "scalable/apps"@,
    ]
}

/// The directories of a theme that hold icons of applications, in order.
pub fn theme_icon_directories() -> (r: Vec<String>)
    ensures
        views(r@) == theme_directories(),
{
    let mut out: Vec<String> = Vec::new();
    out.push(owned("32x32/apps"));
    out.push(owned("24x24/apps"));
    out.push(owned("16x16/apps"));
    out.push(owned("48x48/apps"));
    out.push(owned("64x64/apps"));
    out.push(owned("128x128/apps"));
    out.push(owned("256x256/apps"));
    out.push(owned("512x512/apps"));
    out.push(owned("512x512@2/apps"));
    out.push(owned("scalable/apps"));
    proof {
        assert(views(out@) =~= theme_directories());
    }
    out
}

/// The paths without those that lead where an earlier one leads.
pub open spec fn without_repeats(s: Seq<Seq<char>>) -> Seq<Seq<char>>
    decreases s.len(),
{
    if s.len() == 0 {
        s
    } else {
        let before = without_repeats(s.drop_last());
        if exists|i: int|
            0 <= i < before.len() && components(#[trigger] before[i]) == components(s.last()) {
            before
        } else {
            before.push(s.last())
        }
    }
}

/// The directories in which data of applications is found, before repeats are
/// left out.
pub open spec fn data_search_path(
    data_home: Option<Seq<char>>,
    home: Option<Seq<char>>,
    data_dirs: Option<Seq<char>>,
) -> Seq<Seq<char>> {
    let own = match data_home {
        Some(d) => seq![d],
        None => match home {
            Some(h) => seq![joined(h, ".local/share"@)],
            None => Seq::empty(),
        },
    };
    let shared = match data_dirs {
        Some(d) => split_on(d, ':'),
        None => split_on("/usr/local/share:/usr/share"@, ':'),
    };
    (own + shared).push("/run/current-system/sw/share"@)
}

/// Appends a path, unless one before leads to the same place.
fn push_new(out: &mut Vec<String>, path: &str)
    ensures
        views(final(out)@) == if exists|i: int|
            0 <= i < old(out)@.len() && components(#[trigger] views(old(out)@)[i]) == components(
                path@,
            ) {
            views(old(out)@)
        } else {
            views(old(out)@).push(path@)
        },
{
    let mut i: usize = 0;
    while i < out.len()
        invariant
            i <= out.len(),
            out@ == old(out)@,
            forall|j: int|
                0 <= j < i ==> components(#[trigger] views(out@)[j]) != components(path@),
        decreases out.len() - i,
    {
        if same_path(out[i].as_str(), path) {
            proof {
                assert(components(views(out@)[i as int]) == components(path@));
            }
            return;
        }
        i += 1;
    }
    let ghost before = out@;
    out.push(owned(path));
    proof {
        assert(views(out@) =~= views(before).push(path@));
    }
}

/// The directories in which data of applications is found, from what the
/// environment says, each once.
pub fn data_directories(
    data_home: &Option<String>,
    home: &Option<String>,
    data_dirs: &Option<String>,
) -> (r: Vec<String>)
    ensures
        views(r@) == without_repeats(
            data_search_path(opt_view(*data_home), opt_view(*home), opt_view(*data_dirs)),
        ),
{
    let ghost path = data_search_path(opt_view(*data_home), opt_view(*home), opt_view(*data_dirs));
    let mut all: Vec<String> = Vec::new();
    match data_home {
        Some(d) => {
            all.push(d.clone());
        },
        None => match home {
            Some(h) => {
                all.push(join_path(h.as_str(), ".local/share"));
            },
            None => {},
        },
    }
    let ghost own = views(all@);
    let shared = match data_dirs {
        Some(d) => split_text(d.as_str(), ':'),
        None => split_text("/usr/local/share:/usr/share", ':'),
    };
    let mut k: usize = 0;
    proof {
        assert(own + views(shared@).take(0) =~= own);
    }
    while k < shared.len()
        invariant
            k <= shared.len(),
            views(all@) == own + views(shared@).take(k as int),
        decreases shared.len() - k,
    {
        let ghost before = all@;
        all.push(shared[k].clone());
        proof {
            assert(views(all@) =~= views(before).push(shared@[k as int]@));
            assert(views(all@) =~= own + views(shared@).take(k + 1));
        }
        k += 1;
    }
    let ghost before = all@;
    all.push(owned("/run/current-system/sw/share"));
    proof {
        assert(views(shared@).take(k as int) =~= views(shared@));
        assert(views(all@) =~= views(before).push("/run/current-system/sw/share"@));
        assert(views(all@) =~= path);
    }
    let mut out: Vec<String> = Vec::new();
    let mut i: usize = 0;
    proof {
        assert(path.take(0) =~= Seq::empty());
        assert(views(out@) =~= Seq::empty());
    }
    while i < all.len()
        invariant
            i <= all.len(),
            path == views(all@),
            views(out@) == without_repeats(path.take(i as int)),
        decreases all.len() - i,
    {
        proof {
            assert(path.take(i + 1).drop_last() =~= path.take(i as int));
            assert(path.take(i + 1).last() == all@[i as int]@);
            assert(views(out@).len() == out@.len());
        }
        push_new(&mut out, all[i].as_str());
        i += 1;
    }
    proof {
        assert(path.take(i as int) =~= path);
    }
    out
}

/// What was remembered is what a later lookup under the same key finds, where
/// the key was not known before.
pub proof fn law_remembered(
    s: Seq<(Seq<char>, Option<Seq<char>>)>,
    key: Seq<char>,
    icon: Option<Seq<char>>,
)
    requires
        find_first(s, cached_under(key)) is None,
    ensures
        find_first(s.push((key, icon)), cached_under(key)) == Some((key, icon)),
{
    let t = s.push((key, icon));
    let p = cached_under(key);
    crate::seqs::lemma_first_index_bounds(s, p);
    assert forall|j: int| 0 <= j < s.len() implies !p(#[trigger] t[j]) by {
        assert(t[j] == s[j]);
    }
    lemma_first_index(t, p, s.len());
}

/// The first desktop entry of an application stays: taking in another changes
/// nothing that the index already knows.
pub proof fn law_first_entry_stays(
    s: Seq<(Seq<char>, Seq<char>)>,
    key: Seq<char>,
    other: Seq<char>,
    value: Seq<char>,
)
    requires
        indexed(s, key) is Some,
    ensures
        indexed(with_entry(s, other, value), key) == indexed(s, key),
{
    let p = keyed(key);
    crate::seqs::lemma_first_index_bounds(s, p);
    let i = first_index(s, p);
    let t = with_entry(s, other, value);
    assert forall|j: int| 0 <= j < i implies !p(#[trigger] t[j]) by {
        assert(t[j] == s[j]);
    }
    assert(t[i as int] == s[i as int]);
    lemma_first_index(t, p, i);
}

/// A value is found under a key that was new when it was taken in, and whatever is
/// found under another key stays the same.
pub proof fn law_new_entry_is_found(
    s: Seq<(Seq<char>, Seq<char>)>,
    key: Seq<char>,
    value: Seq<char>,
    other: Seq<char>,
)
    ensures
        indexed(s, key) is None ==> indexed(with_entry(s, key, value), key) == Some(value),
        indexed(s, key) is Some ==> indexed(with_entry(s, key, value), key) == indexed(s, key),
        other != key ==> indexed(with_entry(s, key, value), other) == indexed(s, other),
        indexed(Seq::empty(), key) is None,
{
    let t = with_entry(s, key, value);
    crate::seqs::lemma_first_index_bounds(s, keyed(key));
    crate::seqs::lemma_first_index_bounds(s, keyed(other));
    assert(first_index(Seq::<(Seq<char>, Seq<char>)>::empty(), keyed(key)) == 0);
    assert forall|j: int| 0 <= j < s.len() implies t[j] == s[j] by {}
    if indexed(s, key) is None {
        assert forall|j: int| 0 <= j < s.len() implies !keyed(key)(#[trigger] t[j]) by {
            assert(!keyed(key)(s[j]));
        }
        lemma_first_index(t, keyed(key), s.len());
        if other != key {
            let i = first_index(s, keyed(other));
            assert forall|j: int| 0 <= j < i implies !keyed(other)(#[trigger] t[j]) by {
                assert(!keyed(other)(s[j]));
            }
            if i < s.len() {
                lemma_first_index(t, keyed(other), i);
            } else {
                assert(!keyed(other)(t[i as int]));
                lemma_first_index(t, keyed(other), i + 1);
            }
        }
    }
}

/// A desktop entry is found under the name of its file and under the window class
/// that it announces, in whatever case they are written, unless an entry before it
/// took them; nothing else changes.
pub proof fn law_desktop_entry_is_found(
    s: Seq<(Seq<char>, Seq<char>)>,
    file_stem: Seq<char>,
    value: Seq<char>,
    class: Option<Seq<char>>,
    key: Seq<char>,
)
    ensures
        indexed(with_desktop_entry(s, file_stem, value, class), key) == if indexed(s, key) is None
            && (key == lowercase(file_stem) || (class is Some && key == lowercase(class->0))) {
            Some(value)
        } else {
            indexed(s, key)
        },
{
    let stem = lowercase(file_stem);
    let t = with_entry(s, stem, value);
    law_new_entry_is_found(s, stem, value, key);
    if class is Some {
        law_new_entry_is_found(t, lowercase(class->0), value, key);
    }
}

/// In the main section a line that gives a key a value sets it, whatever was set
/// before; lines of other sections, comments and lines of other keys set nothing.
pub proof fn law_line_sets_main_value(
    ls: Seq<Seq<char>>,
    key: Seq<char>,
    given: Seq<char>,
    value: Seq<char>,
)
    requires
        given.len() > 0,
        !given.contains('='),
        given[0] != '[',
        given[0] != '#',
        trim(given + seq!['='] + value) == given + seq!['='] + value,
    ensures
        ({
            let r = main_value(ls.push(given + seq!['='] + value), key);
            r == if in_main_section(ls) && given == key {
                Some(value)
            } else {
                main_value(ls, key)
            }
        }),
        in_main_section(ls.push(given + seq!['='] + value)) == in_main_section(ls),
{
    let line = given + seq!['='] + value;
    let t = ls.push(line);
    assert(t.drop_last() =~= ls);
    reveal_strlit("[");
    reveal_strlit("#");
    assert(line[0] == given[0]);
    if starts_with(line, "["@) {
        assert(line.take(1)[0] == line[0]);
    }
    if starts_with(line, "#"@) {
        assert(line.take(1)[0] == line[0]);
    }
    law_split_once(line, '=', given, value);
}

/// A header opens the main section if it is its own, and leaves it otherwise; it sets
/// nothing. Nor do blank lines and comments, which leave the section as it is.
pub proof fn law_headers_and_comments(ls: Seq<Seq<char>>, line: Seq<char>, key: Seq<char>)
    ensures
        trim(line).len() > 0 && trim(line)[0] == '[' ==> {
            &&& in_main_section(ls.push(line)) == (trim(line) == "[Desktop Entry]"@)
            &&& main_value(ls.push(line), key) == main_value(ls, key)
        },
        trim(line).len() == 0 || trim(line)[0] == '#' ==> {
            &&& in_main_section(ls.push(line)) == in_main_section(ls)
            &&& main_value(ls.push(line), key) == main_value(ls, key)
        },
        !in_main_section(Seq::empty()),
        main_value(Seq::empty(), key) is None,
{
    let t = ls.push(line);
    assert(t.drop_last() =~= ls);
    reveal_strlit("[");
    reveal_strlit("#");
    let l = trim(line);
    if l.len() > 0 {
        assert(l.take(1)[0] == l[0]);
        assert(l[0] == '[' ==> l.take(1) =~= "["@);
        assert(l[0] == '#' ==> l.take(1) =~= "#"@);
    }
}

/// An application is known by the identifier that its window reports, else by the
/// first one that it reported; and where neither is known, it goes by the first of
/// them that says something.
pub proof fn law_known_applications(
    index: Seq<(Seq<char>, Seq<char>)>,
    app_id: Seq<char>,
    initial_app_id: Seq<char>,
)
    ensures
        ({
            let a = window_id(app_id);
            let b = trim(initial_app_id);
            let r = known_or_id(index, app_id, initial_app_id);
            let by_first = if a.len() > 0 {
                indexed(index, lowercase(a))
            } else {
                None
            };
            let by_second = if b.len() > 0 {
                indexed(index, lowercase(b))
            } else {
                None
            };
            &&& by_first is Some ==> r == by_first
            &&& by_first is None && by_second is Some ==> r == by_second
            &&& by_first is None && by_second is None && a.len() > 0 ==> r == Some(a)
            &&& by_first is None && by_second is None && a.len() == 0 && b.len() > 0 ==> r == Some(b)
            &&& a.len() == 0 && b.len() == 0 ==> r is None
        }),
{
}

/// What follows a null character in a reported identifier does not count.
pub proof fn law_window_identifier(head: Seq<char>, rest: Seq<char>)
    requires
        !head.contains('\0'),
    ensures
        trim(head) == head ==> window_id(head) == head,
        trim(head + seq!['\0'] + rest) == head + seq!['\0'] + rest ==> window_id(
            head + seq!['\0'] + rest,
        ) == head,
{
    law_split_once(head + seq!['\0'] + rest, '\0', head, rest);
    law_split_once(head, '\0', head, rest);
}

/// Every path leads where a kept one leads.
pub proof fn law_every_place_is_kept(s: Seq<Seq<char>>, i: int) -> (k: int)
    requires
        0 <= i < s.len(),
    ensures
        0 <= k < without_repeats(s).len(),
        components(without_repeats(s)[k]) == components(s[i]),
    decreases s.len(),
{
    let rest = s.drop_last();
    let before = without_repeats(rest);
    if i < rest.len() {
        law_every_place_is_kept(rest, i)
    } else if exists|j: int|
        0 <= j < before.len() && components(#[trigger] before[j]) == components(s.last()) {
        choose|j: int| 0 <= j < before.len() && components(#[trigger] before[j]) == components(
            s.last(),
        )
    } else {
        before.len() as int
    }
}

/// A kept path is the first of those that lead where it leads.
pub proof fn law_first_path_is_kept(s: Seq<Seq<char>>, k: int) -> (i: int)
    requires
        0 <= k < without_repeats(s).len(),
    ensures
        0 <= i < s.len(),
        without_repeats(s)[k] == s[i],
        forall|j: int| 0 <= j < i ==> components(#[trigger] s[j]) != components(s[i]),
    decreases s.len(),
{
    let rest = s.drop_last();
    let before = without_repeats(rest);
    if k < before.len() {
        let i = law_first_path_is_kept(rest, k);
        assert forall|j: int| 0 <= j < i implies components(#[trigger] s[j]) != components(s[i]) by {
            assert(s[j] == rest[j]);
        }
        i
    } else {
        let i = s.len() - 1;
        assert forall|j: int| 0 <= j < i implies components(#[trigger] s[j]) != components(s[i]) by {
            let m = law_every_place_is_kept(rest, j);
            assert(components(before[m]) == components(rest[j]));
        }
        i
    }
}

/// The kept paths stand in the order in which they were given.
pub proof fn law_kept_paths_in_order(s: Seq<Seq<char>>, k: int, l: int) -> (r: (int, int))
    requires
        0 <= k < l < without_repeats(s).len(),
    ensures
        0 <= r.0 < r.1 < s.len(),
        without_repeats(s)[k] == s[r.0],
        without_repeats(s)[l] == s[r.1],
        components(without_repeats(s)[k]) != components(without_repeats(s)[l]),
    decreases s.len(),
{
    let rest = s.drop_last();
    let before = without_repeats(rest);
    if l < before.len() {
        law_kept_paths_in_order(rest, k, l)
    } else {
        assert(without_repeats(s)[k] == before[k]);
        (law_first_path_is_kept(rest, k), s.len() - 1)
    }
}

/// Data is looked for below the user's own directory first, then in the directories
/// that the system names or, without any, in the usual ones, and last in that of the
/// running system.
pub proof fn law_where_data_is_looked_for(
    data_home: Option<Seq<char>>,
    home: Option<Seq<char>>,
    data_dirs: Option<Seq<char>>,
)
    ensures
        ({
            let r = data_search_path(data_home, home, data_dirs);
            let shared = split_on(
                if data_dirs is Some {
                    data_dirs->0
                } else {
                    "/usr/local/share:/usr/share"@
                },
                ':',
            );
            &&& r.last() == "/run/current-system/sw/share"@
            &&& data_home is Some ==> r[0] == data_home->0
            &&& data_home is None && home is Some ==> r[0] == joined(home->0, ".local/share"@)
            &&& r.len() == shared.len() + (if data_home is Some || home is Some {
                2int
            } else {
                1int
            })
            &&& r.subrange(r.len() - 1 - shared.len(), r.len() - 1) == shared
        }),
{
    let r = data_search_path(data_home, home, data_dirs);
    let shared = split_on(
        if data_dirs is Some {
            data_dirs->0
        } else {
            "/usr/local/share:/usr/share"@
        },
        ':',
    );
    assert(r.subrange(r.len() - 1 - shared.len(), r.len() - 1) =~= shared);
}

/// The extensions of images.
pub open spec fn image_extensions() -> Seq<Seq<char>> {
    seq!["png"@, "svg"@, "xpm"@, "jpg"@, "jpeg"@, "webp"@]
}

/// An icon whose name ends in the extension of an image, in any case, is looked for by
/// that name alone; any other by its name with each of three extensions.
pub proof fn law_files_of_icons(directory: Seq<char>, stem: Seq<char>, ext: Seq<char>)
    requires
        stem.len() > 0,
        !stem.contains('/'),
        !ext.contains('/'),
        !ext.contains('.'),
        stem + seq!['.'] + ext != ".."@,
    ensures
        ({
            let name = directory + seq!['/'] + (stem + seq!['.'] + ext);
            let r = icon_files(name);
            &&& image_extensions().contains(ascii_lowercase(ext)) ==> r == seq![name]
            &&& !image_extensions().contains(ascii_lowercase(ext)) ==> r == seq![
                name + ".png"@,
                name + ".svg"@,
                name + ".xpm"@,
            ]
        }),
{
    law_names_of_files(directory, stem, ext);
    let all = image_extensions();
    assert(all[0] == "png"@ && all[1] == "svg"@ && all[2] == "xpm"@ && all[3] == "jpg"@ && all[4]
        == "jpeg"@ && all[5] == "webp"@);
}

/// Lookups of one application under identifiers that differ in nothing but case share
/// what is remembered, as far as the lower cases agree.
pub proof fn law_shared_lookups(a: Seq<char>, b: Seq<char>, c: Seq<char>, d: Seq<char>)
    ensures
        lowercase(window_id(a)) == lowercase(window_id(b)) && lowercase(trim(c)) == lowercase(
            trim(d),
        ) ==> cache_key(a, c) == cache_key(b, d),
        lowercase(window_id(a)) == lowercase(window_id(b)) && cache_key(a, c) == cache_key(b, d)
            ==> lowercase(trim(c)) == lowercase(trim(d)),
{
    let n = lowercase(window_id(a)).len() + 1int;
    assert(cache_key(a, c).skip(n) =~= lowercase(trim(c)));
    let m = lowercase(window_id(b)).len() + 1int;
    assert(cache_key(b, d).skip(m) =~= lowercase(trim(d)));
}

} // verus!

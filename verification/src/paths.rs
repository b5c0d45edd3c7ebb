//! Paths as texts: their components, the name of the file, and its extension.

use vstd::prelude::*;
use vstd::string::*;

use crate::seqs::lemma_filter_step;
use crate::text::{
    ends_with, lemma_position, lemma_position_bounds, only, owned, position, same, split_on, split_text, starts_with, text_ends_with, text_starts_with,
    views, chars_of, string_of,
};

verus! {

/// The predicate that holds of the pieces of a path that lead somewhere.
pub open spec fn leading() -> spec_fn(Seq<char>) -> bool {
    |p: Seq<char>| p.len() > 0 && p != "."@
}

/// The components of a path: the root, where it is absolute; the current
/// directory, where it begins there; then each piece that leads somewhere.
pub open spec fn components(path: Seq<char>) -> Seq<Seq<char>> {
    let pieces = split_on(path, '/');
    let inner = pieces.filter(leading());
    if starts_with(path, "/"@) {
        seq!["/"@] + inner
    } else if pieces[0] == "."@ {
        seq!["."@] + inner
    } else {
        inner
    }
}

/// The name of the file that a path leads to.
pub open spec fn file_name(path: Seq<char>) -> Option<Seq<char>> {
    let inner = split_on(path, '/').filter(leading());
    if inner.len() == 0 || inner.last() == ".."@ {
        None
    } else {
        Some(inner.last())
    }
}

/// The index of the last dot, or minus one.
pub open spec fn last_dot(s: Seq<char>) -> int
    decreases s.len(),
{
    if s.len() == 0 {
        -1
    } else if s.last() == '.' {
        s.len() - 1
    } else {
        last_dot(s.drop_last())
    }
}

/// The extension of a path: what follows the last dot of the file's name,
/// unless that dot begins the name.
pub open spec fn extension(path: Seq<char>) -> Option<Seq<char>> {
    match file_name(path) {
        Some(name) => if last_dot(name) > 0 {
            Some(name.skip(last_dot(name) + 1))
        } else {
            None
        },
        None => None,
    }
}

/// The path of something below a directory; an absolute path stays what it is.
pub open spec fn joined(base: Seq<char>, relative: Seq<char>) -> Seq<char> {
    if base.len() == 0 || starts_with(relative, "/"@) {
        relative
    } else if ends_with(base, "/"@) {
        base + relative
    } else {
        base + "/"@ + relative
    }
}

/// Where the last dot is.
proof fn lemma_last_dot(s: Seq<char>, i: int)
    requires
        -1 <= i < s.len(),
        i >= 0 ==> s[i] == '.',
        forall|j: int| i < j < s.len() ==> s[j] != '.',
    ensures
        last_dot(s) == i,
    decreases s.len(),
{
    if s.len() > 0 && i != s.len() - 1 {
        assert(s[s.len() - 1] != '.');
        let t = s.drop_last();
        assert(i >= 0 ==> t[i] == '.');
        lemma_last_dot(t, i);
    }
}

/// The pieces of a path that lead somewhere.
fn leading_pieces(path: &str) -> (r: Vec<String>)
    ensures
        views(r@) == split_on(path@, '/').filter(leading()),
{
    let pieces = split_text(path, '/');
    let ghost s = split_on(path@, '/');
    let mut out: Vec<String> = Vec::new();
    let mut i: usize = 0;
    proof {
        assert(s.take(0).filter(leading()) =~= Seq::empty()) by {
            reveal(Seq::filter);
        }
        assert(views(out@) =~= Seq::empty());
    }
    while i < pieces.len()
        invariant
            i <= pieces.len(),
            s == views(pieces@),
            views(out@) == s.take(i as int).filter(leading()),
        decreases pieces.len() - i,
    {
        let ghost before = out@;
        let piece = pieces[i].as_str();
        proof {
            lemma_filter_step(s, leading(), i as int);
            assert(s[i as int] == piece@);
        }
        if !piece.is_empty() && !same(piece, ".") {
            out.push(owned(piece));
            proof {
                assert(views(out@) =~= views(before).push(piece@));
            }
        }
        i += 1;
    }
    proof {
        assert(s.take(i as int) =~= s);
    }
    out
}

/// The components of a path.
pub fn path_components(path: &str) -> (r: Vec<String>)
    ensures
        views(r@) == components(path@),
{
    let inner = leading_pieces(path);
    let absolute = text_starts_with(path, "/");
    let pieces = split_text(path, '/');
    let ghost s = split_on(path@, '/');
    proof {
        assert(s.len() > 0);
        assert(s == views(pieces@));
        assert(s[0] == pieces@[0]@);
    }
    let here = same(pieces[0].as_str(), ".");
    let mut out: Vec<String> = Vec::new();
    if absolute {
        out.push(owned("/"));
    } else if here {
        out.push(owned("."));
    }
    let ghost head = views(out@);
    let mut i: usize = 0;
    proof {
        assert(views(out@) =~= head + views(inner@).take(0));
    }
    while i < inner.len()
        invariant
            i <= inner.len(),
            views(out@) == head + views(inner@).take(i as int),
        decreases inner.len() - i,
    {
        let ghost before = out@;
        out.push(inner[i].clone());
        proof {
            assert(views(out@) =~= views(before).push(inner@[i as int]@));
            assert(views(out@) =~= head + views(inner@).take(i + 1));
        }
        i += 1;
    }
    proof {
        assert(views(inner@).take(i as int) =~= views(inner@));
        assert(views(out@) =~= components(path@));
    }
    out
}

/// The name of the file that a path leads to.
pub fn file_name_of(path: &str) -> (r: Option<String>)
    ensures
        crate::text::opt_view(r) == file_name(path@),
{
    let inner = leading_pieces(path);
    let n: usize = inner.len();
    proof {
        assert(views(inner@).len() == n);
    }
    if n == 0 {
        return None;
    }
    proof {
        assert(views(inner@).last() == inner@[n - 1]@);
    }
    if same(inner[n - 1].as_str(), "..") {
        return None;
    }
    Some(inner[n - 1].clone())
}

/// The extension of a path.
pub fn extension_of(path: &str) -> (r: Option<String>)
    ensures
        crate::text::opt_view(r) == extension(path@),
{
    match file_name_of(path) {
        Some(name) => {
            let c = chars_of(name.as_str());
            let mut i: usize = c.len();
            while i > 0 && c[i - 1] != '.'
                invariant
                    i <= c.len(),
                    forall|j: int| i <= j < c.len() ==> c@[j] != '.',
                decreases i,
            {
                i -= 1;
            }
            proof {
                lemma_last_dot(c@, i - 1);
            }
            if i <= 1 {
                return None;
            }
            let tail = vstd::slice::slice_subrange(c.as_slice(), i, c.len());
            proof {
                assert(tail@ =~= name@.skip(i as int));
            }
            Some(string_of(tail))
        },
        None => None,
    }
}

/// The path of something below a directory; an absolute path stays what it is.
pub fn join_path(base: &str, relative: &str) -> (r: String)
    ensures
        r@ == joined(base@, relative@),
{
    if base.is_empty() || text_starts_with(relative, "/") {
        return owned(relative);
    }
    let mut out = owned(base);
    if !text_ends_with(base, "/") {
        out.append("/");
    }
    out.append(relative);
    out
}

/// Whether two lists of texts are the same.
fn same_texts(a: &Vec<String>, b: &Vec<String>) -> (r: bool)
    ensures
        r == (views(a@) == views(b@)),
{
    if a.len() != b.len() {
        proof {
            assert(views(a@).len() != views(b@).len());
        }
        return false;
    }
    let mut i: usize = 0;
    while i < a.len()
        invariant
            i <= a.len(),
            a.len() == b.len(),
            forall|j: int| 0 <= j < i ==> views(a@)[j] == views(b@)[j],
        decreases a.len() - i,
    {
        if !same(a[i].as_str(), b[i].as_str()) {
            proof {
                assert(views(a@)[i as int] != views(b@)[i as int]);
            }
            return false;
        }
        i += 1;
    }
    proof {
        assert(views(a@) =~= views(b@));
    }
    true
}

/// Whether two paths have the same components.
pub fn same_path(a: &str, b: &str) -> (r: bool)
    ensures
        r == (components(a@) == components(b@)),
{
    let x = path_components(a);
    let y = path_components(b);
    same_texts(&x, &y)
}

/// A path below a directory begins with the directory and ends with the rest, with one
/// slash between them; an absolute path stays what it is.
pub proof fn law_joined(base: Seq<char>, relative: Seq<char>)
    ensures
        relative.len() > 0 && relative[0] == '/' ==> joined(base, relative) == relative,
        base.len() == 0 ==> joined(base, relative) == relative,
        base.len() > 0 && (relative.len() == 0 || relative[0] != '/') ==> {
            let r = joined(base, relative);
            &&& base.is_prefix_of(r)
            &&& relative.is_suffix_of(r)
            &&& r[r.len() - relative.len() - 1] == '/'
            &&& r.len() == base.len() + relative.len() + (if base.last() == '/' {
                0int
            } else {
                1int
            })
        },
{
    reveal_strlit("/");
    let slash = "/"@;
    assert(slash =~= seq!['/']);
    if relative.len() > 0 {
        assert(relative.take(1)[0] == relative[0]);
        assert(relative[0] == '/' ==> relative.take(1) =~= slash);
    }
    if base.len() > 0 {
        assert(base.skip(base.len() - 1)[0] == base.last());
        assert(base.last() == '/' ==> base.skip(base.len() - 1) =~= slash);
        let r = joined(base, relative);
        if relative.len() == 0 || relative[0] != '/' {
            assert(base =~= r.subrange(0, base.len() as int));
            assert(relative =~= r.subrange(r.len() - relative.len(), r.len() as int));
        }
    }
}

/// The pieces of a text with one more separator and a last piece without any.
proof fn lemma_split_last(s: Seq<char>, c: char, last: Seq<char>)
    requires
        !last.contains(c),
    ensures
        split_on(s + seq![c] + last, c) == split_on(s, c).push(last),
        split_on(last, c) == seq![last],
    decreases s.len(),
{
    let all = s + seq![c] + last;
    assert forall|j: int| 0 <= j < last.len() implies !only(c)(#[trigger] last[j]) by {}
    lemma_position(last, only(c), last.len());
    lemma_position_bounds(s, only(c));
    let i = position(s, only(c)) as int;
    assert forall|j: int| 0 <= j < i implies !only(c)(#[trigger] all[j]) by {
        assert(all[j] == s[j]);
        assert(!only(c)(s[j]));
    }
    if i < s.len() {
        assert(all[i] == s[i]);
        lemma_position(all, only(c), i as nat);
        assert(all.skip(i + 1) =~= s.skip(i + 1) + seq![c] + last);
        assert(all.take(i) =~= s.take(i));
        lemma_split_last(s.skip(i + 1), c, last);
        assert(split_on(all, c) =~= split_on(s, c).push(last));
    } else {
        assert(all[i] == c);
        lemma_position(all, only(c), i as nat);
        assert(all.take(i) =~= s);
        assert(all.skip(i + 1) =~= last);
        assert(split_on(s, c) =~= seq![s]);
        assert(split_on(last, c) =~= seq![last]);
        assert(split_on(all, c) =~= split_on(s, c).push(last));
    }
}

proof fn lemma_file_name(name: Seq<char>, directory: Seq<char>)
    requires
        !name.contains('/'),
        name.len() > 0,
        name != "."@,
        name != ".."@,
    ensures
        file_name(name) == Some(name),
        file_name(directory + seq!['/'] + name) == Some(name),
{
    reveal(Seq::filter);
    lemma_split_last(directory, '/', name);
    let all = split_on(directory, '/').push(name);
    assert(all.drop_last() =~= split_on(directory, '/'));
    assert(all.filter(leading()) == all.drop_last().filter(leading()).push(name));
    assert(seq![name].drop_last() =~= Seq::empty());
    assert(seq![name].filter(leading()).last() == name);
}

/// The name of a file is what follows the last slash, whatever the directory; its
/// extension is what follows the last dot of it, unless it begins with that dot.
pub proof fn law_names_of_files(directory: Seq<char>, stem: Seq<char>, ext: Seq<char>)
    requires
        stem.len() > 0,
        !stem.contains('/'),
        !ext.contains('/'),
        !ext.contains('.'),
        stem + seq!['.'] + ext != ".."@,
    ensures
        ({
            let name = stem + seq!['.'] + ext;
            &&& file_name(name) == Some(name)
            &&& file_name(directory + seq!['/'] + name) == Some(name)
            &&& extension(name) == Some(ext)
            &&& extension(directory + seq!['/'] + name) == Some(ext)
        }),
{
    let name = stem + seq!['.'] + ext;
    reveal_strlit(".");
    assert("."@.len() == 1);
    assert(!name.contains('/')) by {
        if name.contains('/') {
            let k = choose|k: int| 0 <= k < name.len() && name[k] == '/';
            if k < stem.len() {
                assert(stem[k] == '/');
            } else if k > stem.len() {
                assert(ext[k - stem.len() - 1] == '/');
            }
        }
    }
    lemma_file_name(name, directory);
    assert forall|j: int| stem.len() < j < name.len() implies name[j] != '.' by {
        assert(name[j] == ext[j - stem.len() - 1]);
    }
    lemma_last_dot(name, stem.len() as int);
    assert(name.skip(stem.len() + 1int) =~= ext);
}

/// A name without a dot has no extension, and neither has one whose only dot is its
/// first character.
pub proof fn law_names_without_extension(directory: Seq<char>, name: Seq<char>)
    requires
        name.len() > 0,
        !name.contains('/'),
        name != "."@,
        name != ".."@,
        forall|j: int| 0 < j < name.len() ==> name[j] != '.',
    ensures
        extension(name) is None,
        extension(directory + seq!['/'] + name) is None,
        file_name(directory + seq!['/'] + name) == Some(name),
{
    lemma_file_name(name, directory);
    lemma_last_dot(
        name,
        if name[0] == '.' {
            0
        } else {
            -1
        },
    );
}

/// Slashes in a row and steps to the current directory lead nowhere: a path has the
/// same components with them as without.
pub proof fn law_empty_steps_lead_nowhere(path: Seq<char>)
    requires
        path.len() > 0,
    ensures
        components(path + seq!['/']) == components(path),
        components(path + seq!['/', '.']) == components(path),
{
    reveal(Seq::filter);
    reveal_strlit(".");
    reveal_strlit("/");
    let pieces = split_on(path, '/');
    let empty = Seq::<char>::empty();
    assert("."@ =~= seq!['.']);
    assert(!"."@.contains('/'));
    lemma_split_last(path, '/', empty);
    lemma_split_last(path, '/', "."@);
    assert(path + seq!['/'] + empty =~= path + seq!['/']);
    assert(path + seq!['/'] + "."@ =~= path + seq!['/', '.']);
    assert(pieces.push(empty).drop_last() =~= pieces);
    assert(pieces.push("."@).drop_last() =~= pieces);
    assert((path + seq!['/']).take(1) =~= path.take(1));
    assert((path + seq!['/', '.']).take(1) =~= path.take(1));
    assert(pieces.len() > 0);
}

/// One more step leads one further.
pub proof fn law_step_leads_further(path: Seq<char>, name: Seq<char>)
    requires
        path.len() > 0,
        name.len() > 0,
        name != "."@,
        !name.contains('/'),
    ensures
        components(path + seq!['/'] + name) == components(path).push(name),
{
    reveal(Seq::filter);
    reveal_strlit("/");
    let pieces = split_on(path, '/');
    lemma_split_last(path, '/', name);
    assert(pieces.push(name).drop_last() =~= pieces);
    assert((path + seq!['/'] + name).take(1) =~= path.take(1));
    assert(pieces.len() > 0);
    assert(components(path + seq!['/'] + name) =~= components(path).push(name));
}

} // verus!

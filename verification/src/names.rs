//! File names: their extension and their stem.

use vstd::prelude::*;

use crate::text::{
    behind_last, chars_of, last_index, lemma_last_stands, lower, lowered, opt_text, string_of,
};

verus! {

/// `part` stands somewhere in `whole`, in one piece.
pub open spec fn is_part_of(part: Seq<char>, whole: Seq<char>) -> bool {
    exists|i: int|
        0 <= i && i + part.len() <= whole.len() && #[trigger] whole.subrange(i, i + part.len())
            == part
}

/// Whether a character separates the components of a path: a slash always does,
/// a backslash on some targets (`back`).
pub open spec fn separates(c: char, back: bool) -> bool {
    c == '/' || (back && c == '\\')
}

/// `path` without what stands for nothing at its end: separators, and dots that
/// are a component of their own behind one.
pub open spec fn tidied(path: Seq<char>, back: bool) -> Seq<char>
    decreases path.len(),
{
    if path.len() > 0 && separates(path.last(), back) {
        tidied(path.drop_last(), back)
    } else if path.len() > 1 && path.last() == '.' && separates(path[path.len() - 2], back) {
        tidied(path.drop_last(), back)
    } else {
        path
    }
}

/// What stands behind the last separator of a path; all of it where there is
/// none.
pub open spec fn last_part(path: Seq<char>, back: bool) -> Seq<char>
    decreases path.len(),
{
    if path.len() == 0 || separates(path.last(), back) {
        Seq::empty()
    } else {
        last_part(path.drop_last(), back).push(path.last())
    }
}

/// A letter and a colon stand at the start of a path: on some targets, a drive.
pub open spec fn on_drive(path: Seq<char>) -> bool {
    path.len() > 1 && path[1] == ':' && ('a' <= path[0] <= 'z' || 'A' <= path[0] <= 'Z')
}

/// The path is a single component that stands directly behind the colon of a
/// drive, with no separator between them.
pub open spec fn bare_on_drive(path: Seq<char>) -> bool {
    let tidy = tidied(path, true);
    on_drive(tidy) && last_part(tidy, true).len() == tidy.len()
}

/// The final component of a path. Targets where a backslash separates components
/// also know drives.
pub open spec fn final_part(path: Seq<char>, back: bool) -> Seq<char> {
    let tidy = tidied(path, back);
    if back && bare_on_drive(path) {
        tidy.skip(2)
    } else {
        last_part(tidy, back)
    }
}

/// How many components stand in a path, those that are a single dot included.
pub open spec fn parts(path: Seq<char>) -> nat
    decreases path.len(),
{
    if path.len() == 0 {
        0
    } else if !separates(path.last(), true) && (path.len() == 1 || separates(
        path[path.len() - 2],
        true,
    )) {
        parts(path.drop_last()) + 1
    } else {
        parts(path.drop_last())
    }
}

/// What stands before the first separator of a path; all of it where there is
/// none.
pub open spec fn head(path: Seq<char>) -> Seq<char>
    decreases path.len(),
{
    if path.len() == 0 || separates(path[0], true) {
        Seq::empty()
    } else {
        seq![path[0]] + head(path.skip(1))
    }
}

/// The first component of a path.
pub open spec fn first_part(path: Seq<char>) -> Seq<char>
    decreases path.len(),
{
    if path.len() > 0 && separates(path[0], true) {
        first_part(path.skip(1))
    } else {
        head(path)
    }
}

/// Two separators stand at the start of a path.
pub open spec fn starts_like_a_share(path: Seq<char>) -> bool {
    path.len() > 1 && separates(path[0], true) && separates(path[1], true)
}

/// Behind what may be a server and its share, the path names something: a third
/// component. A first component of `?` or `.` stands for other things than a
/// server.
pub open spec fn behind_a_share(path: Seq<char>) -> bool {
    &&& first_part(path) != seq!['?']
    &&& first_part(path) != seq!['.']
    &&& parts(tidied(path, true)) >= 3
}

/// The file name that a path ends in, if there is one: its final component,
/// unless that is `..`.
pub open spec fn name_in(path: Seq<char>, back: bool) -> Option<Seq<char>> {
    let last = final_part(path, back);
    if last.len() == 0 || last == seq!['.', '.'] {
        None
    } else {
        Some(last)
    }
}

/// What the path ends in is not the current directory, not a share itself, and
/// does not stand behind a colon of which it is unclear whether it marks a drive.
pub open spec fn ordinary(path: Seq<char>) -> bool {
    &&& starts_like_a_share(path) ==> behind_a_share(path)
    &&& path.len() > 1 && path[1] == ':' && !on_drive(path) ==> final_part(path, true).len()
        < tidied(path, true).len()
    &&& final_part(path, true) != seq!['.']
    &&& final_part(path, false) != seq!['.']
}

/// `std::path::Path::file_name`: the final component of a path, if that is a
/// name. A name is a non-empty piece of the path and never `..`. Of an ordinary
/// path it is the one behind the last slash, or the one behind the last slash,
/// backslash or drive: which of the two depends on the target. Nothing more is
/// said of other paths: of those that name a share and nothing on it, of those
/// that begin with two separators and a `?` or a `.`, of a component behind a
/// colon that is the second character and follows no letter, and of the current
/// directory.
#[verifier::external_body]
pub(crate) fn file_name(path: &str) -> (name: Option<String>)
    ensures
        name matches Some(n) ==> n@.len() > 0 && n@ != seq!['.', '.'] && is_part_of(n@, path@),
        ordinary(path@) ==> opt_text(name) == name_in(path@, false) || opt_text(name) == name_in(
            path@,
            true,
        ),
{
    std::path::Path::new(path).file_name().and_then(|n| n.to_str()).map(|n| n.to_string())
}

/// Every target finds the same name in a path that holds no backslash, unless
/// the name stands directly behind a drive.
pub proof fn law_slashes_mean_the_same_everywhere(path: Seq<char>)
    requires
        !path.contains('\\'),
        !bare_on_drive(path),
    ensures
        name_in(path, false) == name_in(path, true),
{
    lemma_tidied_same(path);
    lemma_tidied_prefix(path);
    let t = tidied(path, true);
    assert forall|i: int| 0 <= i < t.len() implies #[trigger] t[i] != '\\' by {
        assert(t[i] == path[i]);
        assert(path.contains(path[i]));
    }
    lemma_last_part_same(t);
}

proof fn lemma_tidied_same(path: Seq<char>)
    requires
        !path.contains('\\'),
    ensures
        tidied(path, false) == tidied(path, true),
    decreases path.len(),
{
    assert forall|i: int| 0 <= i < path.len() implies #[trigger] path[i] != '\\' by {
        assert(path.contains(path[i]));
    }
    if path.len() > 0 {
        assert(!path.drop_last().contains('\\'));
        lemma_tidied_same(path.drop_last());
    }
}

proof fn lemma_tidied_prefix(path: Seq<char>)
    ensures
        tidied(path, true).len() <= path.len(),
        forall|i: int| 0 <= i < tidied(path, true).len() ==> #[trigger] tidied(path, true)[i] == path[i],
    decreases path.len(),
{
    if path.len() > 0 {
        lemma_tidied_prefix(path.drop_last());
    }
}

proof fn lemma_last_part_same(path: Seq<char>)
    requires
        forall|i: int| 0 <= i < path.len() ==> #[trigger] path[i] != '\\',
    ensures
        last_part(path, false) == last_part(path, true),
    decreases path.len(),
{
    if path.len() > 0 && path.last() != '/' {
        lemma_last_part_same(path.drop_last());
    }
}

/// The extension of a file name: what stands behind its last dot, unless that
/// dot is missing or is the first character.
pub open spec fn extension_of(name: Seq<char>) -> Option<Seq<char>> {
    if last_index(name, '.') > 0 {
        Some(name.skip(last_index(name, '.') + 1))
    } else {
        None
    }
}

/// The stem of a file name: what stands before the dot of its extension, or all
/// of it where it has none.
pub open spec fn stem_of(name: Seq<char>) -> Seq<char> {
    if last_index(name, '.') > 0 {
        name.take(last_index(name, '.'))
    } else {
        name
    }
}

/// The extension of a file name, with ASCII capitals made small.
pub fn extension(name: &str) -> (ext: Option<String>)
    ensures
        ext is Some <==> extension_of(name@) is Some,
        ext matches Some(e) ==> e@ == lower(extension_of(name@)->0),
{
    let v = chars_of(name);
    assert(v@.take(v@.len() as int) =~= v@);
    let behind = behind_last(&v, v.len(), '.');
    if behind < 2 {
        return None;
    }
    assert(v@.subrange(behind as int, v@.len() as int) =~= v@.skip(behind as int));
    Some(lowered(&v, behind, v.len()))
}

/// The stem of a file name.
pub fn stem(name: &str) -> (s: String)
    ensures
        s@ == stem_of(name@),
{
    let v = chars_of(name);
    assert(v@.take(v@.len() as int) =~= v@);
    let behind = behind_last(&v, v.len(), '.');
    if behind < 2 {
        assert(v@.subrange(0, v@.len() as int) =~= v@);
        string_of(&v, 0, v.len())
    } else {
        assert(v@.subrange(0, behind - 1) =~= v@.take(behind - 1));
        string_of(&v, 0, behind - 1)
    }
}

/// A name with an extension is its stem, a dot and the extension.
pub proof fn law_stem_and_extension(name: Seq<char>)
    ensures
        match extension_of(name) {
            Some(ext) => name == stem_of(name) + seq!['.'] + ext,
            None => name == stem_of(name),
        },
{
    let i = last_index(name, '.');
    if i > 0 {
        lemma_last_is(name);
        assert(name =~= name.take(i) + seq!['.'] + name.skip(i + 1));
    }
}

proof fn lemma_last_is(s: Seq<char>)
    ensures
        -1 <= last_index(s, '.') < s.len(),
        last_index(s, '.') >= 0 ==> s[last_index(s, '.')] == '.',
    decreases s.len(),
{
    if s.len() > 0 && s.last() != '.' {
        lemma_last_is(s.drop_last());
    }
}

/// An extension is what stands behind the last dot of a name, and holds none
/// itself. A name has one if and only if it has a dot that is not its first
/// character.
pub proof fn law_extensions_stand_behind_the_last_dot(name: Seq<char>, i: int)
    ensures
        extension_of(name) matches Some(e) ==> !e.contains('.'),
        extension_of(name) is None ==> (0 < i < name.len() ==> name[i] != '.'),
        0 < i < name.len() && name[i] == '.' ==> extension_of(name) is Some,
        extension_of(name) is Some ==> stem_of(name).len() > 0,
{
    lemma_last_stands(name, '.');
    if let Some(e) = extension_of(name) {
        let k = last_index(name, '.');
        if e.contains('.') {
            let j = choose|j: int| 0 <= j < e.len() && e[j] == '.';
            assert(name[k + 1 + j] == '.');
        }
    }
}

/// The name that a path ends in holds no separator, is never empty, and stands at
/// the end of the path, but for separators and lone dots behind it.
pub proof fn law_names_are_the_last_component(path: Seq<char>, back: bool, i: int)
    ensures
        name_in(path, back) matches Some(n) ==> {
            &&& n.len() > 0
            &&& n != seq!['.', '.']
            &&& n.len() <= tidied(path, back).len()
            &&& n == tidied(path, back).skip(tidied(path, back).len() - n.len())
            &&& 0 <= i < n.len() ==> n[i] != '/' && (back ==> n[i] != '\\')
        },
{
    let t = tidied(path, back);
    lemma_last_part(t, back);
    if back && bare_on_drive(path) {
        assert(last_part(t, back) =~= t);
        assert(t.skip(2) =~= t.skip(t.len() - t.skip(2).len()));
        if 0 <= i < t.len() - 2 {
            assert(t.skip(2)[i] == last_part(t, back)[i + 2]);
        }
    }
}

proof fn lemma_last_part(path: Seq<char>, back: bool)
    ensures
        last_part(path, back).len() <= path.len(),
        last_part(path, back) == path.skip(path.len() - last_part(path, back).len()),
        forall|i: int|
            0 <= i < last_part(path, back).len() ==> !separates(
                #[trigger] last_part(path, back)[i],
                back,
            ),
    decreases path.len(),
{
    if path.len() > 0 && !separates(path.last(), back) {
        lemma_last_part(path.drop_last(), back);
        let n = last_part(path, back).len();
        assert(last_part(path, back) =~= path.skip(path.len() - n));
        assert forall|i: int| 0 <= i < n implies !separates(
            #[trigger] last_part(path, back)[i],
            back,
        ) by {
            if i < n - 1 {
                assert(last_part(path, back)[i] == last_part(path.drop_last(), back)[i]);
            }
        }
    } else {
        assert(last_part(path, back) =~= path.skip(path.len() as int));
    }
}

} // verus!

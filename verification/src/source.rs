//! Where a track comes from.

use vstd::prelude::*;
use vstd::utf8::encode_utf8;

use crate::names::{
    bare_on_drive, extension, extension_of, file_name, is_part_of,
    law_slashes_mean_the_same_everywhere, name_in, ordinary,
};
use crate::text::{
    after_last, before_first, behind_last, chars_of, find_first, has_prefix, law_before_the_first,
    law_prefixes_stand_in_front, lemma_first_index, lemma_last_index, lower, lowered, opt_text,
    starts_with, string_of,
};

verus! {

/// A local file, by its path, or a stream, by its URL.
#[derive(Clone, Debug)]
pub enum Source {
    File(String),
    Url(String),
}

/// `s` is a URL that the player may fetch.
pub open spec fn is_http(s: Seq<char>) -> bool {
    starts_with(s, "http://"@) || starts_with(s, "https://"@)
}

/// Whether `s` is a URL that the player may fetch.
pub fn http_url(s: &str) -> (yes: bool)
    ensures
        yes == is_http(s@),
{
    has_prefix(s, "http://") || has_prefix(s, "https://")
}

/// The longest extension, in bytes, that a URL is believed to end in.
pub const MAX_URL_EXTENSION: usize = 5;

/// The extension hint of a URL: what stands behind the last dot before the
/// query, unless it is too long to be one.
pub open spec fn url_hint(url: Seq<char>) -> Option<Seq<char>> {
    let tail = after_last(before_first(url, '?'), '.');
    if encode_utf8(tail).len() <= MAX_URL_EXTENSION {
        Some(lower(tail))
    } else {
        None
    }
}

/// The extension hint of a file name, if there is one.
pub open spec fn name_hint(name: Option<Seq<char>>) -> Option<Seq<char>> {
    match name {
        Some(n) => match extension_of(n) {
            Some(e) => Some(lower(e)),
            None => None,
        },
        None => None,
    }
}

impl Source {
    /// The text that a source was parsed from.
    pub open spec fn text(self) -> Seq<char> {
        match self {
            Source::File(path) => path@,
            Source::Url(url) => url@,
        }
    }

    /// Tells streams from files: what starts with `http://` or `https://` is a
    /// URL, anything else a path.
    pub fn parse(s: &str) -> (source: Self)
        ensures
            source is Url <==> is_http(s@),
            source.text() == s@,
            is_parsed(s@, source),
    {
        if http_url(s) {
            Source::Url(s.to_owned())
        } else {
            Source::File(s.to_owned())
        }
    }

    /// The extension that tells the demuxer what to try first, if there is one.
    /// For a file it is that of the name that the path ends in: the one behind
    /// the last slash, or the one behind the last slash, backslash or drive, as
    /// the target has it.
    pub fn hint(&self) -> (ext: Option<String>)
        ensures
            self matches Source::Url(url) ==> opt_text(ext) == url_hint(url@),
            self matches Source::File(path) ==> (ext matches Some(e) ==> exists|name: Seq<char>| #[trigger]
                is_part_of(name, path@) && Some(e@) == name_hint(Some(name))),
            self matches Source::File(path) ==> (ordinary(path@) ==> opt_text(ext) == name_hint(
                name_in(path@, false),
            ) || opt_text(ext) == name_hint(name_in(path@, true))),
            self matches Source::File(path) ==> (ordinary(path@) && !path@.contains('\\')
                && !bare_on_drive(path@) ==> opt_text(ext) == name_hint(name_in(path@, false))),
    {
        match self {
            Source::File(path) => {
                proof {
                    if !path@.contains('\\') && !bare_on_drive(path@) {
                        law_slashes_mean_the_same_everywhere(path@);
                    }
                }
                match file_name(path.as_str()) {
                    Some(name) => extension(name.as_str()),
                    None => None,
                }
            },
            Source::Url(url) => Self::hint_of_url(url.as_str()),
        }
    }

    fn hint_of_url(url: &str) -> (ext: Option<String>)
        ensures
            opt_text(ext) == url_hint(url@),
    {
        let v = chars_of(url);
        let end = find_first(&v, '?');
        let start = behind_last(&v, end, '.');
        let tail = string_of(&v, start, end);
        assert(v@.subrange(start as int, end as int) =~= v@.take(end as int).skip(start as int));
        if tail.as_str().as_bytes().len() <= MAX_URL_EXTENSION {
            Some(lowered(&v, start, end))
        } else {
            None
        }
    }
}

/// A URL is what starts with one of the two schemes, whatever stands behind them,
/// and nothing else is.
pub proof fn law_urls_start_with_their_scheme(s: Seq<char>, rest: Seq<char>)
    ensures
        is_http(seq!['h', 't', 't', 'p', ':', '/', '/'] + rest),
        is_http(seq!['h', 't', 't', 'p', 's', ':', '/', '/'] + rest),
        is_http(s) ==> s.len() >= 7 && s.take(4) == seq!['h', 't', 't', 'p'] && (s.subrange(4, 7)
            == seq![':', '/', '/'] || (s.len() >= 8 && s.subrange(4, 8) == seq![
            's',
            ':',
            '/',
            '/',
        ])),
{
    reveal_strlit("http://");
    reveal_strlit("https://");
    assert("http://"@ =~= seq!['h', 't', 't', 'p', ':', '/', '/']);
    assert("https://"@ =~= seq!['h', 't', 't', 'p', 's', ':', '/', '/']);
    law_prefixes_stand_in_front(s, "http://"@, rest);
    law_prefixes_stand_in_front(s, "https://"@, rest);
    if is_http(s) {
        if starts_with(s, "http://"@) {
            assert(s.take(7) =~= "http://"@);
            assert forall|i: int| 0 <= i < 7 implies s[i] == #[trigger] "http://"@[i] by {
                assert(s.take(7)[i] == s[i]);
            }
            assert(s.take(4) =~= seq!['h', 't', 't', 'p']);
            assert(s.subrange(4, 7) =~= seq![':', '/', '/']);
        } else {
            assert(s.take(8) =~= "https://"@);
            assert forall|i: int| 0 <= i < 8 implies s[i] == #[trigger] "https://"@[i] by {
                assert(s.take(8)[i] == s[i]);
            }
            assert(s.take(4) =~= seq!['h', 't', 't', 'p']);
            assert(s.subrange(4, 8) =~= seq!['s', ':', '/', '/']);
        }
    }
}

/// The query of a URL has no say in its hint.
pub proof fn law_queries_do_not_change_the_hint(base: Seq<char>, query: Seq<char>)
    requires
        !base.contains('?'),
    ensures
        url_hint(base + seq!['?'] + query) == url_hint(base),
{
    let url = base + seq!['?'] + query;
    assert forall|j: int| 0 <= j < base.len() implies #[trigger] url[j] != '?' by {
        assert(base.contains(base[j]));
    }
    lemma_first_index(url, '?', base.len() as int);
    law_before_the_first(base, '?');
    assert(before_first(url, '?') =~= base);
}

/// The hint of a URL is what its last dot and its query enclose, in small letters,
/// if it is short enough for an extension.
pub proof fn law_hints_are_what_the_last_dot_leads_to(base: Seq<char>, ext: Seq<char>)
    requires
        !base.contains('?'),
        !ext.contains('?'),
        !ext.contains('.'),
    ensures
        encode_utf8(ext).len() <= 5 ==> url_hint(base + seq!['.'] + ext) == Some(lower(ext)),
        encode_utf8(ext).len() > 5 ==> url_hint(base + seq!['.'] + ext) is None,
{
    let url = base + seq!['.'] + ext;
    assert forall|j: int| 0 <= j < url.len() implies #[trigger] url[j] != '?' by {
        if j < base.len() {
            assert(base.contains(base[j]));
        } else if j > base.len() {
            assert(ext.contains(ext[j - base.len() - 1]));
        }
    }
    lemma_first_index(url, '?', url.len() as int);
    assert(before_first(url, '?') =~= url);
    assert forall|j: int| base.len() < j < url.len() implies #[trigger] url[j] != '.' by {
        assert(ext.contains(ext[j - base.len() - 1]));
    }
    lemma_last_index(url, '.', base.len() as int);
    assert(after_last(url, '.') =~= ext);
}

/// The hint of a file name is its extension in small letters, and a name without
/// one has none.
pub proof fn law_file_hints_are_extensions(name: Seq<char>)
    ensures
        name_hint(Some(name)) is Some <==> extension_of(name) is Some,
        extension_of(name) matches Some(e) ==> name_hint(Some(name)) == Some(lower(e)),
        name_hint(None) is None,
{
}

/// `source` is what `s` names.
pub open spec fn is_parsed(s: Seq<char>, source: Source) -> bool {
    if is_http(s) {
        source matches Source::Url(url) && url@ == s
    } else {
        source matches Source::File(path) && path@ == s
    }
}

/// What begins with a scheme of HTTP is fetched from there, anything else is a file
/// of that path, and nothing of the text is lost.
pub proof fn law_sources_are_what_their_text_says(
    s: Seq<char>,
    source: Source,
    t: Seq<char>,
    other: Source,
    rest: Seq<char>,
)
    requires
        is_parsed(s, source),
        is_parsed(t, other),
    ensures
        source == other ==> s == t,
        s == seq!['h', 't', 't', 'p', ':', '/', '/'] + rest ==> source is Url,
        s == seq!['h', 't', 't', 'p', 's', ':', '/', '/'] + rest ==> source is Url,
        source is Url ==> s.len() >= 7 && s.take(4) == seq!['h', 't', 't', 'p'],
        source matches Source::Url(url) ==> url@ == s,
        source matches Source::File(path) ==> path@ == s,
{
    law_urls_start_with_their_scheme(s, rest);
}

} // verus!

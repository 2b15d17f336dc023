//! Tags, cover art and stream details of a file.

use vstd::prelude::*;

use crate::base64::{base64_encode, encoded};
use crate::names::{
    bare_on_drive, file_name, is_part_of, law_slashes_mean_the_same_everywhere, name_in, ordinary,
    stem, stem_of,
};
use crate::stream::{codec_is_lossless, codec_label, codec_name, keeps_samples, OpenError, StreamParams};
use crate::text::{blank, is_blank, opt_text};

verus! {

/// Cover art larger than this is skipped: it would only bloat the payload.
pub const MAX_COVER_BYTES: usize = 3_145_728;

/// What the library shows of a file.
pub struct TrackInfo {
    pub path: String,
    pub title: Option<String>,
    pub artist: Option<String>,
    pub album: Option<String>,
    /// Frames and frames per second, where both are known.
    pub duration: Option<(u64, u32)>,
    pub sample_rate: u32,
    pub bit_depth: u32,
    pub channels: u32,
    pub codec: String,
    pub lossless: bool,
    pub cover: Option<String>,
}

/// The tags that the library reads.
#[derive(Clone, Copy, Debug, PartialEq, Eq, Structural)]
pub enum TagKey {
    TrackTitle,
    Artist,
    AlbumArtist,
    Album,
    Other,
}

/// A tag: what it is about, where that is known, and its text.
pub struct Tag {
    pub std_key: Option<TagKey>,
    pub value: String,
}

/// A picture.
pub struct Visual {
    pub media_type: String,
    pub data: Vec<u8>,
}

/// One revision of a file's metadata.
pub struct MetadataRevision {
    pub tags: Vec<Tag>,
    pub visuals: Vec<Visual>,
}

/// The first choice, or else the second.
pub open spec fn either(a: Option<Seq<char>>, b: Option<Seq<char>>) -> Option<Seq<char>> {
    if a is Some {
        a
    } else {
        b
    }
}

/// A tag of one of two keys that says something.
pub open spec fn speaks(tag: Tag, k1: TagKey, k2: TagKey) -> bool {
    (tag.std_key == Some(k1) || tag.std_key == Some(k2)) && !is_blank(tag.value@)
}

/// The first text that a tag of one of two keys gives.
pub open spec fn first_text(tags: Seq<Tag>, k1: TagKey, k2: TagKey) -> Option<Seq<char>>
    decreases tags.len(),
{
    if tags.len() == 0 {
        None
    } else {
        either(
            first_text(tags.drop_last(), k1, k2),
            if speaks(tags.last(), k1, k2) {
                Some(tags.last().value@)
            } else {
                None
            },
        )
    }
}

/// The media type of a picture, where JPEG stands in for a missing one.
pub open spec fn mime(v: Visual) -> Seq<char> {
    if v.media_type@.len() == 0 {
        "image/jpeg"@
    } else {
        v.media_type@
    }
}

/// A picture as a data URL, unless it is too large.
pub open spec fn data_url(v: Visual) -> Option<Seq<char>> {
    if v.data@.len() > MAX_COVER_BYTES {
        None
    } else {
        Some("data:"@ + mime(v) + ";base64,"@ + encoded(v.data@))
    }
}

/// The first picture that is not empty, as a data URL.
pub open spec fn first_cover(visuals: Seq<Visual>) -> Option<Seq<char>>
    decreases visuals.len(),
{
    if visuals.len() == 0 {
        None
    } else if visuals[0].data@.len() > 0 {
        data_url(visuals[0])
    } else {
        first_cover(visuals.skip(1))
    }
}

/// Turns a picture into a data URL, unless it is too large.
pub fn visual_to_data_url(v: &Visual) -> (url: Option<String>)
    ensures
        opt_text(url) == data_url(*v),
{
    if v.data.len() > MAX_COVER_BYTES {
        return None;
    }
    let mut url = "data:".to_owned();
    if v.media_type.as_str().is_empty() {
        url.append("image/jpeg");
    } else {
        url.append(v.media_type.as_str());
    }
    url.append(";base64,");
    let body = base64_encode(v.data.as_slice());
    url.append(body.as_str());
    Some(url)
}

fn first_visual(visuals: &Vec<Visual>) -> (cover: Option<String>)
    ensures
        opt_text(cover) == first_cover(visuals@),
{
    let mut i: usize = 0;
    assert(visuals@.skip(0) =~= visuals@);
    while i < visuals.len()
        invariant
            i <= visuals@.len(),
            first_cover(visuals@) == first_cover(visuals@.skip(i as int)),
        decreases visuals@.len() - i,
    {
        assert(visuals@.skip(i as int)[0] == visuals@[i as int]);
        if visuals[i].data.len() > 0 {
            return visual_to_data_url(&visuals[i]);
        }
        assert(visuals@.skip(i as int).skip(1) =~= visuals@.skip(i + 1));
        i += 1;
    }
    None
}

/// Fills in what is still missing from one revision of the metadata. What is
/// known already stays; among tags that give the same thing the first that says
/// something wins; the album artist stands in for the artist.
pub fn apply_metadata(info: &mut TrackInfo, rev: &MetadataRevision)
    ensures
        described(*old(info), *rev, *final(info)),
{
    let mut i: usize = 0;
    while i < rev.tags.len()
        invariant
            i <= rev.tags@.len(),
            *info == (TrackInfo {
                title: info.title,
                artist: info.artist,
                album: info.album,
                ..*old(info)
            }),
            opt_text(info.title) == either(
                opt_text(old(info).title),
                first_text(rev.tags@.take(i as int), TagKey::TrackTitle, TagKey::TrackTitle),
            ),
            opt_text(info.artist) == either(
                opt_text(old(info).artist),
                first_text(rev.tags@.take(i as int), TagKey::Artist, TagKey::AlbumArtist),
            ),
            opt_text(info.album) == either(
                opt_text(old(info).album),
                first_text(rev.tags@.take(i as int), TagKey::Album, TagKey::Album),
            ),
        decreases rev.tags@.len() - i,
    {
        let tag = &rev.tags[i];
        let ghost before = rev.tags@.take(i as int);
        assert(rev.tags@.take(i + 1).drop_last() =~= before);
        assert(rev.tags@.take(i + 1).last() == *tag);
        if !blank(tag.value.as_str()) {
            match tag.std_key {
                Some(TagKey::TrackTitle) => {
                    if info.title.is_none() {
                        info.title = Some(tag.value.clone());
                    }
                },
                Some(TagKey::Artist) | Some(TagKey::AlbumArtist) => {
                    if info.artist.is_none() {
                        info.artist = Some(tag.value.clone());
                    }
                },
                Some(TagKey::Album) => {
                    if info.album.is_none() {
                        info.album = Some(tag.value.clone());
                    }
                },
                _ => {},
            }
        }
        i += 1;
    }
    assert(rev.tags@.take(rev.tags@.len() as int) =~= rev.tags@);
    if info.cover.is_none() {
        info.cover = first_visual(&rev.visuals);
    }
}

/// `after` is `before` with what was missing filled in from `rev`.
pub open spec fn described(before: TrackInfo, rev: MetadataRevision, after: TrackInfo) -> bool {
    &&& after == TrackInfo {
        title: after.title,
        artist: after.artist,
        album: after.album,
        cover: after.cover,
        ..before
    }
    &&& opt_text(after.title) == either(
        opt_text(before.title),
        first_text(rev.tags@, TagKey::TrackTitle, TagKey::TrackTitle),
    )
    &&& opt_text(after.artist) == either(
        opt_text(before.artist),
        first_text(rev.tags@, TagKey::Artist, TagKey::AlbumArtist),
    )
    &&& opt_text(after.album) == either(
        opt_text(before.album),
        first_text(rev.tags@, TagKey::Album, TagKey::Album),
    )
    &&& opt_text(after.cover) == either(opt_text(before.cover), first_cover(rev.visuals@))
}

/// A second look at the same metadata changes nothing.
pub proof fn law_applying_twice_changes_nothing(
    a: TrackInfo,
    rev: MetadataRevision,
    b: TrackInfo,
    c: TrackInfo,
)
    requires
        described(a, rev, b),
        described(b, rev, c),
    ensures
        opt_text(c.title) == opt_text(b.title),
        opt_text(c.artist) == opt_text(b.artist),
        opt_text(c.album) == opt_text(b.album),
        opt_text(c.cover) == opt_text(b.cover),
{
}

/// What is known already is never overwritten.
pub proof fn law_known_tags_stay(a: TrackInfo, rev: MetadataRevision, b: TrackInfo)
    requires
        described(a, rev, b),
    ensures
        a.title is Some ==> opt_text(b.title) == opt_text(a.title),
        a.artist is Some ==> opt_text(b.artist) == opt_text(a.artist),
        a.album is Some ==> opt_text(b.album) == opt_text(a.album),
        a.cover is Some ==> opt_text(b.cover) == opt_text(a.cover),
{
}

/// What the demuxer found in a file.
pub struct Found {
    /// The audio track that plays by default.
    pub track: Option<StreamParams>,
    /// The metadata of the container.
    pub container: Option<MetadataRevision>,
    /// The metadata of a block in front of the container.
    pub leading: Option<MetadataRevision>,
}

/// What a revision says about a text, if there is one.
pub open spec fn rev_text(rev: Option<MetadataRevision>, k1: TagKey, k2: TagKey) -> Option<
    Seq<char>,
> {
    match rev {
        Some(rev) => first_text(rev.tags@, k1, k2),
        None => None,
    }
}

/// The cover that a revision has, if there is one.
pub open spec fn rev_cover(rev: Option<MetadataRevision>) -> Option<Seq<char>> {
    match rev {
        Some(rev) => first_cover(rev.visuals@),
        None => None,
    }
}

/// What the tags of a file say about a text: the container's first, then those
/// of the block in front of it.
pub open spec fn tag_text(found: Found, k1: TagKey, k2: TagKey) -> Option<Seq<char>> {
    either(rev_text(found.container, k1, k2), rev_text(found.leading, k1, k2))
}

/// `info` describes the file at `path` in which `found` was found; where no tag
/// gives a title, `stem` stands in for it.
pub open spec fn describes(
    info: TrackInfo,
    path: Seq<char>,
    found: Found,
    stem: Option<Seq<char>>,
) -> bool {
    &&& info.path@ == path
    &&& opt_text(info.title) == either(
        tag_text(found, TagKey::TrackTitle, TagKey::TrackTitle),
        stem,
    )
    &&& opt_text(info.artist) == tag_text(found, TagKey::Artist, TagKey::AlbumArtist)
    &&& opt_text(info.album) == tag_text(found, TagKey::Album, TagKey::Album)
    &&& opt_text(info.cover) == either(rev_cover(found.container), rev_cover(found.leading))
    &&& match found.track {
        Some(t) => {
            &&& info.sample_rate == match t.sample_rate {
                Some(rate) => rate,
                None => 0,
            }
            &&& info.bit_depth == t.depth()
            &&& info.channels == match t.channels {
                Some(n) => n as u32,
                None => 0,
            }
            &&& info.codec@ == codec_label(t.codec)
            &&& info.lossless == keeps_samples(t.codec)
            &&& info.duration == t.length()
        },
        None => {
            &&& info.sample_rate == 0
            &&& info.bit_depth == 0
            &&& info.channels == 0
            &&& info.codec@.len() == 0
            &&& !info.lossless
            &&& info.duration is None
        },
    }
}

/// Describes a file from what was found in it and from its name, if it has one.
pub fn track_info(path: &str, found: &Found, name: Option<String>) -> (info: TrackInfo)
    ensures
        describes(
            info,
            path@,
            *found,
            match name {
                Some(n) => Some(stem_of(n@)),
                None => None,
            },
        ),
{
    let mut info = TrackInfo {
        path: path.to_owned(),
        title: None,
        artist: None,
        album: None,
        duration: None,
        sample_rate: 0,
        bit_depth: 0,
        channels: 0,
        codec: String::new(),
        lossless: false,
        cover: None,
    };
    if let Some(t) = &found.track {
        if let Some(rate) = t.sample_rate {
            info.sample_rate = rate;
        }
        info.bit_depth = t.bit_depth();
        if let Some(n) = t.channels {
            info.channels = #[verifier::truncate] (n as u32);
        }
        info.codec = codec_name(t.codec);
        info.lossless = codec_is_lossless(t.codec);
        info.duration = t.duration();
    }
    // Tags can sit in the container metadata or in a leading block.
    if let Some(rev) = &found.container {
        apply_metadata(&mut info, rev);
    }
    if let Some(rev) = &found.leading {
        apply_metadata(&mut info, rev);
    }
    if info.title.is_none() {
        info.title = match name {
            Some(n) => Some(stem(n.as_str())),
            None => None,
        };
    }
    info
}

/// The stem of the name that a path ends in, if there is one.
pub open spec fn stem_in(path: Seq<char>, back: bool) -> Option<Seq<char>> {
    match name_in(path, back) {
        Some(name) => Some(stem_of(name)),
        None => None,
    }
}

/// Describes the file at `path`, given what the demuxer found in it, or says why
/// it found nothing. The stem of the name that the path ends in stands in for a
/// missing title: of the name behind the last slash, or of the one behind the
/// last slash, backslash or drive, as the target has it.
pub fn probe_file(path: &str, found: Result<Found, OpenError>) -> (info: Result<TrackInfo, String>)
    ensures
        info is Ok <==> found is Ok,
        found matches Err(e) ==> (info matches Err(m) ==> m@ == e.text()),
        found matches Ok(f) ==> (info matches Ok(i) ==> (exists|name: Seq<char>| #[trigger]
            is_part_of(name, path@) && describes(i, path@, f, Some(stem_of(name)))) || describes(
            i,
            path@,
            f,
            None,
        )),
        found matches Ok(f) ==> (info matches Ok(i) ==> (ordinary(path@) ==> describes(
            i,
            path@,
            f,
            stem_in(path@, false),
        ) || describes(i, path@, f, stem_in(path@, true)))),
        found matches Ok(f) ==> (info matches Ok(i) ==> (ordinary(path@) && !path@.contains('\\')
            && !bare_on_drive(path@) ==> describes(i, path@, f, stem_in(path@, false)))),
{
    match found {
        Ok(f) => {
            let name = file_name(path);
            let ghost n = name;
            let info = track_info(path, &f, name);
            proof {
                if let Some(n) = n {
                    assert(is_part_of(n@, path@));
                }
                if !path@.contains('\\') && !bare_on_drive(path@) {
                    law_slashes_mean_the_same_everywhere(path@);
                }
            }
            Ok(info)
        },
        Err(e) => Err(e.message()),
    }
}

/// The files of a batch that could be read, in their order.
pub open spec fn readable(results: Seq<Result<TrackInfo, String>>) -> Seq<TrackInfo>
    decreases results.len(),
{
    if results.len() == 0 {
        Seq::empty()
    } else {
        match results.last() {
            Ok(info) => readable(results.drop_last()).push(info),
            Err(_) => readable(results.drop_last()),
        }
    }
}

/// Leaves out the files that could not be read, rather than failing the whole
/// batch.
pub fn keep_readable(results: Vec<Result<TrackInfo, String>>) -> (infos: Vec<TrackInfo>)
    ensures
        infos@ == readable(results@),
{
    let mut infos: Vec<TrackInfo> = Vec::new();
    let ghost all = results@;
    for r in it: results
        invariant
            it.seq() == all,
            infos@ == readable(all.take(it.index() as int)),
    {
        proof {
            let i = it.index() as int;
            assert(all.take(i + 1).drop_last() =~= all.take(i));
        }
        if let Ok(info) = r {
            infos.push(info);
        }
    }
    assert(all.take(all.len() as int) =~= all);
    infos
}

proof fn lemma_first_text(tags: Seq<Tag>, k1: TagKey, k2: TagKey, i: int)
    ensures
        first_text(tags, k1, k2) is None ==> (0 <= i < tags.len() ==> !speaks(tags[i], k1, k2)),
        0 <= i < tags.len() && speaks(tags[i], k1, k2) && (forall|j: int|
            0 <= j < i ==> !speaks(#[trigger] tags[j], k1, k2)) ==> first_text(tags, k1, k2) == Some(
            tags[i].value@,
        ),
        (forall|j: int| 0 <= j < tags.len() ==> !speaks(#[trigger] tags[j], k1, k2)) ==> first_text(
            tags,
            k1,
            k2,
        ) is None,
    decreases tags.len(),
{
    if tags.len() > 0 {
        let front = tags.drop_last();
        lemma_first_text(front, k1, k2, i);
        assert(forall|j: int| 0 <= j < front.len() ==> front[j] == #[trigger] tags[j]);
        if i == tags.len() - 1 && (forall|j: int|
            0 <= j < i ==> !speaks(#[trigger] tags[j], k1, k2)) {
            assert forall|j: int| 0 <= j < front.len() implies !speaks(
                #[trigger] front[j],
                k1,
                k2,
            ) by {
                assert(!speaks(tags[j], k1, k2));
            }
        }
        if 0 <= i < front.len() {
            assert(front[i] == tags[i]);
            if forall|j: int| 0 <= j < i ==> !speaks(#[trigger] tags[j], k1, k2) {
                assert forall|j: int| 0 <= j < i implies !speaks(#[trigger] front[j], k1, k2) by {
                    assert(!speaks(tags[j], k1, k2));
                }
            }
        }
        if forall|j: int| 0 <= j < tags.len() ==> !speaks(#[trigger] tags[j], k1, k2) {
            assert forall|j: int| 0 <= j < front.len() implies !speaks(
                #[trigger] front[j],
                k1,
                k2,
            ) by {
                assert(!speaks(tags[j], k1, k2));
            }
            assert(!speaks(tags[tags.len() - 1], k1, k2));
        }
    }
}

/// A missing title is that of the first title tag that is not blank, wherever in
/// the revision it stands.
pub proof fn law_titles_come_from_title_tags(
    before: TrackInfo,
    rev: MetadataRevision,
    after: TrackInfo,
    i: int,
)
    requires
        described(before, rev, after),
        before.title is None,
        0 <= i < rev.tags@.len(),
    ensures
        rev.tags@[i].std_key == Some(TagKey::TrackTitle) && !is_blank(rev.tags@[i].value@) && (
        forall|j: int|
            0 <= j < i ==> (#[trigger] rev.tags@[j]).std_key != Some(TagKey::TrackTitle) || is_blank(
                rev.tags@[j].value@,
            )) ==> opt_text(after.title) == Some(rev.tags@[i].value@),
        after.title is None ==> rev.tags@[i].std_key != Some(TagKey::TrackTitle) || is_blank(
            rev.tags@[i].value@,
        ),
{
    lemma_first_text(rev.tags@, TagKey::TrackTitle, TagKey::TrackTitle, i);
}

/// A missing artist is that of the first tag, of the artist or of the album's
/// artist, that is not blank.
pub proof fn law_artists_come_from_artist_tags(
    before: TrackInfo,
    rev: MetadataRevision,
    after: TrackInfo,
    i: int,
)
    requires
        described(before, rev, after),
        before.artist is None,
        0 <= i < rev.tags@.len(),
    ensures
        (rev.tags@[i].std_key == Some(TagKey::Artist) || rev.tags@[i].std_key == Some(
            TagKey::AlbumArtist,
        )) && !is_blank(rev.tags@[i].value@) && (forall|j: int|
            0 <= j < i ==> ((#[trigger] rev.tags@[j]).std_key != Some(TagKey::Artist)
                && rev.tags@[j].std_key != Some(TagKey::AlbumArtist)) || is_blank(
                rev.tags@[j].value@,
            )) ==> opt_text(after.artist) == Some(rev.tags@[i].value@),
        after.artist is None ==> (rev.tags@[i].std_key != Some(TagKey::Artist)
            && rev.tags@[i].std_key != Some(TagKey::AlbumArtist)) || is_blank(rev.tags@[i].value@),
{
    lemma_first_text(rev.tags@, TagKey::Artist, TagKey::AlbumArtist, i);
}

/// A missing album is that of the first album tag that is not blank.
pub proof fn law_albums_come_from_album_tags(
    before: TrackInfo,
    rev: MetadataRevision,
    after: TrackInfo,
    i: int,
)
    requires
        described(before, rev, after),
        before.album is None,
        0 <= i < rev.tags@.len(),
    ensures
        rev.tags@[i].std_key == Some(TagKey::Album) && !is_blank(rev.tags@[i].value@) && (forall|
            j: int,
        |
            0 <= j < i ==> (#[trigger] rev.tags@[j]).std_key != Some(TagKey::Album) || is_blank(
                rev.tags@[j].value@,
            )) ==> opt_text(after.album) == Some(rev.tags@[i].value@),
        after.album is None ==> rev.tags@[i].std_key != Some(TagKey::Album) || is_blank(
            rev.tags@[i].value@,
        ),
{
    lemma_first_text(rev.tags@, TagKey::Album, TagKey::Album, i);
}

/// Tags that say nothing about a text leave it as it was.
pub proof fn law_other_tags_say_nothing(
    before: TrackInfo,
    rev: MetadataRevision,
    after: TrackInfo,
)
    requires
        described(before, rev, after),
        forall|j: int|
            0 <= j < rev.tags@.len() ==> (#[trigger] rev.tags@[j]).std_key is None
                || rev.tags@[j].std_key == Some(TagKey::Other) || is_blank(rev.tags@[j].value@),
    ensures
        opt_text(after.title) == opt_text(before.title),
        opt_text(after.artist) == opt_text(before.artist),
        opt_text(after.album) == opt_text(before.album),
{
    lemma_first_text(rev.tags@, TagKey::TrackTitle, TagKey::TrackTitle, 0);
    lemma_first_text(rev.tags@, TagKey::Artist, TagKey::AlbumArtist, 0);
    lemma_first_text(rev.tags@, TagKey::Album, TagKey::Album, 0);
}

/// Tags do not touch what is known of the stream.
pub proof fn law_tags_leave_the_stream_alone(
    before: TrackInfo,
    rev: MetadataRevision,
    after: TrackInfo,
)
    requires
        described(before, rev, after),
    ensures
        after.path == before.path,
        after.duration == before.duration,
        after.sample_rate == before.sample_rate,
        after.bit_depth == before.bit_depth,
        after.channels == before.channels,
        after.codec == before.codec,
        after.lossless == before.lossless,
{
}

proof fn lemma_first_cover(visuals: Seq<Visual>, i: int)
    ensures
        0 <= i < visuals.len() && visuals[i].data@.len() > 0 && (forall|j: int|
            0 <= j < i ==> (#[trigger] visuals[j]).data@.len() == 0) ==> first_cover(visuals)
            == data_url(visuals[i]),
        (forall|j: int| 0 <= j < visuals.len() ==> (#[trigger] visuals[j]).data@.len() == 0)
            ==> first_cover(visuals) is None,
    decreases visuals.len(),
{
    if visuals.len() > 0 && visuals[0].data@.len() == 0 {
        let rest = visuals.skip(1);
        lemma_first_cover(rest, i - 1);
        assert(forall|j: int| 0 <= j < rest.len() ==> #[trigger] rest[j] == visuals[j + 1]);
    }
}

/// A missing cover is the first picture that is not empty. One of up to three
/// mebibytes is handed over whole, in Base64 and under its media type, which is
/// JPEG where none is given; a larger one is left out, and so are those behind it.
pub proof fn law_covers_are_the_first_picture(
    before: TrackInfo,
    rev: MetadataRevision,
    after: TrackInfo,
    i: int,
)
    requires
        described(before, rev, after),
        before.cover is None,
        0 <= i < rev.visuals@.len(),
        rev.visuals@[i].data@.len() > 0,
        forall|j: int| 0 <= j < i ==> (#[trigger] rev.visuals@[j]).data@.len() == 0,
    ensures
        rev.visuals@[i].data@.len() > 3_145_728 ==> after.cover is None,
        rev.visuals@[i].data@.len() <= 3_145_728 && rev.visuals@[i].media_type@.len() > 0
            ==> opt_text(after.cover) == Some(
            "data:"@ + rev.visuals@[i].media_type@ + ";base64,"@ + encoded(rev.visuals@[i].data@),
        ),
        rev.visuals@[i].data@.len() <= 3_145_728 && rev.visuals@[i].media_type@.len() == 0
            ==> opt_text(after.cover) == Some(
            "data:"@ + "image/jpeg"@ + ";base64,"@ + encoded(rev.visuals@[i].data@),
        ),
{
    lemma_first_cover(rev.visuals@, i);
}

/// Empty pictures are no covers.
pub proof fn law_empty_pictures_are_no_covers(
    before: TrackInfo,
    rev: MetadataRevision,
    after: TrackInfo,
)
    requires
        described(before, rev, after),
        forall|j: int| 0 <= j < rev.visuals@.len() ==> (#[trigger] rev.visuals@[j]).data@.len() == 0,
    ensures
        opt_text(after.cover) == opt_text(before.cover),
{
    lemma_first_cover(rev.visuals@, 0);
}

/// The metadata of the container counts before that of the block in front of it:
/// describing a file is filling in from the one and then from the other, each
/// where it is there.
pub proof fn law_the_container_counts_first(
    info: TrackInfo,
    path: Seq<char>,
    found: Found,
    stem: Option<Seq<char>>,
    a: TrackInfo,
    b: TrackInfo,
    c: TrackInfo,
)
    requires
        describes(info, path, found, stem),
        a.title is None && a.artist is None && a.album is None && a.cover is None,
        match found.container {
            Some(rev) => described(a, rev, b),
            None => b == a,
        },
        match found.leading {
            Some(rev) => described(b, rev, c),
            None => c == b,
        },
    ensures
        c.title is Some ==> opt_text(info.title) == opt_text(c.title),
        c.title is None ==> opt_text(info.title) == stem,
        opt_text(info.artist) == opt_text(c.artist),
        opt_text(info.album) == opt_text(c.album),
        opt_text(info.cover) == opt_text(c.cover),
        info.path@ == path,
{
}

/// The details of a file are those of its stream, and none where it has none.
pub proof fn law_details_are_those_of_the_stream(
    info: TrackInfo,
    path: Seq<char>,
    found: Found,
    stem: Option<Seq<char>>,
)
    requires
        describes(info, path, found, stem),
    ensures
        found.track matches Some(t) ==> {
            &&& t.sample_rate matches Some(rate) ==> info.sample_rate == rate
            &&& t.sample_rate is None ==> info.sample_rate == 0
            &&& t.channels matches Some(n) ==> (n <= u32::MAX ==> info.channels == n)
            &&& t.channels is None ==> info.channels == 0
            &&& t.bits_per_sample matches Some(bits) ==> info.bit_depth == bits
            &&& t.bits_per_sample is None ==> (t.bits_per_coded_sample matches Some(bits)
                ==> info.bit_depth == bits)
            &&& t.bits_per_sample is None && t.bits_per_coded_sample is None ==> info.bit_depth == 0
            &&& t.n_frames is None || t.sample_rate is None ==> info.duration is None
            &&& t.n_frames is Some && t.sample_rate is Some ==> info.duration == Some(
                (t.n_frames->0, t.sample_rate->0),
            )
            &&& info.codec@ == codec_label(t.codec)
            &&& info.lossless == keeps_samples(t.codec)
        },
        found.track is None ==> {
            &&& info.sample_rate == 0 && info.bit_depth == 0 && info.channels == 0
            &&& info.codec@.len() == 0
            &&& !info.lossless
            &&& info.duration is None
        },
{
}

/// Of a batch, what can be read is kept, in its order, and nothing else: a file
/// that cannot be read costs no other.
pub proof fn law_batches_are_read_file_by_file(
    a: Seq<Result<TrackInfo, String>>,
    b: Seq<Result<TrackInfo, String>>,
    info: TrackInfo,
    why: String,
)
    ensures
        readable(a + b) == readable(a) + readable(b),
        readable(seq![Ok::<TrackInfo, String>(info)]) == seq![info],
        readable(seq![Err::<TrackInfo, String>(why)]).len() == 0,
    decreases b.len(),
{
    let one = seq![Ok::<TrackInfo, String>(info)];
    let none = seq![Err::<TrackInfo, String>(why)];
    assert(one.last() == Ok::<TrackInfo, String>(info));
    assert(none.last() == Err::<TrackInfo, String>(why));
    assert(readable(one.drop_last()) =~= Seq::empty());
    assert(readable(none.drop_last()) =~= Seq::empty());
    assert(readable(one) =~= seq![info]);
    if b.len() == 0 {
        assert(a + b =~= a);
        assert(readable(a) + readable(b) =~= readable(a));
    } else {
        law_batches_are_read_file_by_file(a, b.drop_last(), info, why);
        assert((a + b).drop_last() =~= a + b.drop_last());
        assert(readable(a + b) =~= readable(a) + readable(b));
    }
}

} // verus!

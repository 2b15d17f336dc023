//! What the library shows of a file.

use horriplayer::probe::{
    apply_metadata, keep_readable, probe_file, track_info, visual_to_data_url, Found,
    MetadataRevision, Tag, TagKey, TrackInfo, Visual, MAX_COVER_BYTES,
};
use horriplayer::stream::{codec_is_lossless, codec_name, Codec, OpenError, StreamParams};

fn tag(key: Option<TagKey>, value: &str) -> Tag {
    Tag { std_key: key, value: value.to_string() }
}

fn picture(media_type: &str, data: &[u8]) -> Visual {
    Visual { media_type: media_type.to_string(), data: data.to_vec() }
}

fn rev(tags: Vec<Tag>, visuals: Vec<Visual>) -> MetadataRevision {
    MetadataRevision { tags, visuals }
}

fn nothing_found() -> Found {
    Found { track: None, container: None, leading: None }
}

fn blank_info() -> TrackInfo {
    track_info("/x", &nothing_found(), None)
}

/// A 16-bit stereo WAV file.
fn test_wav(secs: u32, rate: u32) -> Vec<u8> {
    let frames = secs * rate;
    let data_len = frames * 2 * 2; // stereo, 2 bytes per sample
    let mut hdr = Vec::new();
    hdr.extend(b"RIFF");
    hdr.extend(&(36 + data_len).to_le_bytes());
    hdr.extend(b"WAVEfmt ");
    hdr.extend(&16u32.to_le_bytes());
    hdr.extend(&1u16.to_le_bytes()); // PCM
    hdr.extend(&2u16.to_le_bytes()); // channels
    hdr.extend(&rate.to_le_bytes());
    hdr.extend(&(rate * 4).to_le_bytes()); // byte rate
    hdr.extend(&4u16.to_le_bytes()); // block align
    hdr.extend(&16u16.to_le_bytes()); // bits
    hdr.extend(b"data");
    hdr.extend(&data_len.to_le_bytes());
    for i in 0..frames {
        let v = ((i as f32 * 440.0 * std::f32::consts::TAU / rate as f32).sin() * 12000.0) as i16;
        hdr.extend(&v.to_le_bytes());
        hdr.extend(&v.to_le_bytes());
    }
    hdr
}

#[test]
fn missing_file_is_an_error_not_a_panic() {
    let cause = std::io::Error::from(std::io::ErrorKind::NotFound);
    let opened = Err(OpenError::File(cause.to_string()));
    assert!(probe_file("Z:\\definitely\\missing.flac", opened).is_err());
}

#[test]
fn probes_a_real_wav_file() {
    let bytes = std::io::Cursor::new(test_wav(2, 44_100));
    let mss = symphonia::core::io::MediaSourceStream::new(Box::new(bytes), Default::default());
    let hint = symphonia::core::probe::Hint::new();
    let probed = symphonia::default::get_probe()
        .format(&hint, mss, &Default::default(), &Default::default())
        .expect("a container");
    let params = probed.format.default_track().expect("a track").codec_params.clone();
    assert_eq!(params.codec, symphonia::core::codecs::CODEC_TYPE_PCM_S16LE);
    let found = Found {
        track: Some(StreamParams {
            codec: Codec::PcmS16Le,
            sample_rate: params.sample_rate,
            channels: params.channels.map(|c| c.count()),
            n_frames: params.n_frames,
            bits_per_sample: params.bits_per_sample,
            bits_per_coded_sample: params.bits_per_coded_sample,
        }),
        container: None,
        leading: None,
    };

    let info = probe_file("/horriplayer-tests/probe-sample.wav", Ok(found)).expect("probe succeeds");
    assert_eq!(info.sample_rate, 44_100);
    assert_eq!(info.channels, 2);
    assert_eq!(info.bit_depth, 16);
    assert_eq!(info.codec, "PCM");
    assert!(info.lossless, "PCM must be reported as lossless");
    let (frames, rate) = info.duration.expect("a duration");
    let duration = frames as f64 / rate as f64;
    assert!((duration - 2.0).abs() < 0.05, "expected ~2 s, got {}", duration);
    // No tags in the file, so the filename stands in for the title.
    assert_eq!(info.title.as_deref(), Some("probe-sample"));
}

#[test]
fn the_first_tag_that_says_something_wins() {
    let mut info = blank_info();
    let r = rev(
        vec![
            tag(None, "ignored"),
            tag(Some(TagKey::Other), "ignored"),
            tag(Some(TagKey::TrackTitle), " \t"),
            tag(Some(TagKey::TrackTitle), " One "),
            tag(Some(TagKey::TrackTitle), "Two"),
            tag(Some(TagKey::AlbumArtist), "Band"),
            tag(Some(TagKey::Artist), "Singer"),
            tag(Some(TagKey::Album), "Record"),
        ],
        vec![],
    );
    apply_metadata(&mut info, &r);
    assert_eq!(info.title.as_deref(), Some(" One "));
    assert_eq!(info.artist.as_deref(), Some("Band"));
    assert_eq!(info.album.as_deref(), Some("Record"));
    assert_eq!(info.cover, None);

    // What is known stays, and a second look changes nothing.
    apply_metadata(&mut info, &rev(vec![tag(Some(TagKey::Album), "Other")], vec![]));
    apply_metadata(&mut info, &r);
    assert_eq!(info.title.as_deref(), Some(" One "));
    assert_eq!(info.album.as_deref(), Some("Record"));
}

#[test]
fn the_container_comes_before_a_leading_block() {
    let found = Found {
        track: None,
        container: Some(rev(vec![tag(Some(TagKey::TrackTitle), "Inner")], vec![])),
        leading: Some(rev(
            vec![tag(Some(TagKey::TrackTitle), "Outer"), tag(Some(TagKey::Album), "A")],
            vec![picture("image/png", b"foo")],
        )),
    };
    let info = probe_file("/a/b.flac", Ok(found)).unwrap();
    assert_eq!(info.path, "/a/b.flac");
    assert_eq!(info.title.as_deref(), Some("Inner"));
    assert_eq!(info.album.as_deref(), Some("A"));
    assert_eq!(info.artist, None);
    assert_eq!(info.cover.as_deref(), Some("data:image/png;base64,Zm9v"));
    assert_eq!(info.sample_rate, 0);
    assert_eq!(info.channels, 0);
    assert_eq!(info.codec, "");
    assert!(!info.lossless);
    assert_eq!(info.duration, None);
}

#[test]
fn a_file_without_a_name_has_no_title() {
    assert_eq!(probe_file("/music/..", Ok(nothing_found())).unwrap().title, None);
    assert_eq!(
        probe_file("/music/a.b.mp3", Ok(nothing_found())).unwrap().title.as_deref(),
        Some("a.b")
    );
}

#[test]
fn a_file_behind_backslashes_is_titled_by_its_name() {
    let title = probe_file(r"C:\music\a.b.mp3", Ok(nothing_found())).unwrap().title;
    // Either the name behind the last backslash, or all of it, as the target has it.
    let name = if std::path::is_separator('\\') { "a.b" } else { r"C:\music\a.b" };
    assert_eq!(title.as_deref(), Some(name));
    let title = probe_file("/music/live.d/", Ok(nothing_found())).unwrap().title;
    assert_eq!(title.as_deref(), Some("live"));
}

#[test]
fn an_untagged_file_is_titled_by_its_name_whatever_stands_in_it() {
    let title = |path: &str| probe_file(path, Ok(nothing_found())).unwrap().title;
    assert_eq!(title("/music/Song: Part 2.mp3").as_deref(), Some("Song: Part 2"));
    assert_eq!(title("Song: Part 2.mp3").as_deref(), Some("Song: Part 2"));
    assert_eq!(title("//NAS/music/song.flac").as_deref(), Some("song"));
    let on_share = if std::path::is_separator('\\') { "song" } else { r"\\NAS\music\song" };
    assert_eq!(title(r"\\NAS\music\song.flac").as_deref(), Some(on_share));
    let on_drive = if std::path::is_separator('\\') { "song" } else { "C:song" };
    assert_eq!(title("C:song.flac").as_deref(), Some(on_drive));
}

#[test]
fn the_first_picture_that_is_not_empty_is_the_cover() {
    let mut info = blank_info();
    let r = rev(
        vec![],
        vec![picture("image/png", b""), picture("", b"f"), picture("image/gif", b"fo")],
    );
    apply_metadata(&mut info, &r);
    assert_eq!(info.cover.as_deref(), Some("data:image/jpeg;base64,Zg=="));
}

#[test]
fn large_covers_are_skipped() {
    let fits = picture("image/png", &vec![0; MAX_COVER_BYTES]);
    assert!(visual_to_data_url(&fits).is_some());
    let large = picture("image/png", &vec![0; MAX_COVER_BYTES + 1]);
    assert_eq!(visual_to_data_url(&large), None);
    let mut info = blank_info();
    apply_metadata(&mut info, &rev(vec![], vec![large, picture("", b"f")]));
    assert_eq!(info.cover, None, "a large first picture is not replaced by the next");
}

#[test]
fn files_that_cannot_be_read_are_left_out() {
    let probe = |p: &str| probe_file(p, Ok(nothing_found()));
    let infos = keep_readable(vec![
        probe("/a"),
        Err("broken".to_string()),
        probe("/b"),
        Err("gone".to_string()),
    ]);
    let paths: Vec<&str> = infos.iter().map(|i| i.path.as_str()).collect();
    assert_eq!(paths, vec!["/a", "/b"]);
}

#[test]
fn every_way_of_failing_to_open_has_its_message() {
    let e = || "e".to_string();
    let cases = [
        (OpenError::File(e()), "cannot open file: e"),
        (OpenError::Stream(e()), "cannot open stream: e"),
        (OpenError::Format(e()), "unsupported or corrupt audio: e"),
        (OpenError::NoTrack, "file contains no audio track"),
        (OpenError::NoDecoder(e()), "no decoder for this format: e"),
        (OpenError::NoResampler(e()), "cannot build resampler: e"),
    ];
    for (error, message) in cases {
        assert_eq!(error.message(), message);
        assert_eq!(probe_file("/a", Err(error)).err().as_deref(), Some(message));
    }
}

#[test]
fn codecs_have_names_and_some_are_lossless() {
    let cases = [
        (Codec::Flac, "FLAC", true),
        (Codec::Alac, "ALAC", true),
        (Codec::Mp3, "MP3", false),
        (Codec::Aac, "AAC", false),
        (Codec::Vorbis, "Vorbis", false),
        (Codec::PcmS16Le, "PCM", true),
        (Codec::PcmS24Le, "PCM", true),
        (Codec::PcmS32Le, "PCM", true),
        (Codec::PcmF32Le, "PCM", true),
        (Codec::PcmF64Le, "audio", true),
        (Codec::PcmS16Be, "PCM", true),
        (Codec::PcmS24Be, "PCM", true),
        (Codec::PcmS32Be, "PCM", true),
        (Codec::PcmU8, "audio", true),
        (Codec::PcmS8, "audio", true),
        (Codec::PcmF32Be, "audio", true),
        (Codec::PcmF64Be, "audio", true),
        (Codec::PcmOther, "audio", true),
        (Codec::MonkeysAudio, "audio", true),
        (Codec::TrueAudio, "audio", true),
        (Codec::AdpcmImaWav, "ADPCM", false),
        (Codec::AdpcmMs, "ADPCM", false),
        (Codec::Other, "audio", false),
    ];
    for (codec, name, lossless) in cases {
        assert_eq!(codec_name(codec), name);
        assert_eq!(codec_is_lossless(codec), lossless, "{name}");
    }
}

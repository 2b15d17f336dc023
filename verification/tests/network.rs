//! Reading a file through Range requests, against a server in memory.

use horriplayer::http_source::{
    content_range_total, range_header, HttpSource, ReadStep, ReplyHead, SeekError, SeekTo, CHUNK,
};

/// A server that holds one file.
struct Server {
    file: Vec<u8>,
    honours_ranges: bool,
    requests: usize,
}

impl Server {
    fn new(len: usize, honours_ranges: bool) -> Server {
        let file = (0..len).map(|i| (i * 7 + i / 256) as u8).collect();
        Server { file, honours_ranges, requests: 0 }
    }

    /// Fills the window at `start`, as the owner of a connection does.
    fn serve(&mut self, src: &mut HttpSource, start: u64) {
        let Some(range) = src.fill_at(start) else {
            return;
        };
        self.requests += 1;
        let total = self.file.len();
        let (status, body, content_range) = if self.honours_ranges {
            let (from, to) = range["bytes=".len()..].split_once('-').unwrap();
            let from: usize = from.parse().unwrap();
            let to = to.parse::<usize>().unwrap().min(total - 1);
            let header = format!("bytes {from}-{to}/{total}");
            (206, self.file[from..=to].to_vec(), Some(header))
        } else {
            (200, self.file.clone(), None)
        };
        let head = ReplyHead {
            status,
            status_text: "OK".to_string(),
            content_range,
            content_length: None,
        };
        let partial = src.accept_head(&head).expect("granted");
        src.accept_body(start, partial, body);
    }

    fn read(&mut self, src: &mut HttpSource, out: &mut [u8]) -> usize {
        match src.read(out) {
            ReadStep::Done(n) => n,
            ReadStep::Fetch(start) => {
                self.serve(src, start);
                src.read_window(out)
            }
        }
    }
}

fn head(status: u16, range: Option<&str>, length: Option<u64>) -> ReplyHead {
    ReplyHead {
        status,
        status_text: status.to_string(),
        content_range: range.map(|r| r.to_string()),
        content_length: length,
    }
}

#[test]
fn the_whole_file_comes_back_in_few_requests() {
    let len = 2 * CHUNK as usize + 12_345;
    let mut server = Server::new(len, true);
    let mut src = HttpSource::new("http://h/a".to_string());
    server.serve(&mut src, 0);
    assert_eq!(src.byte_len(), Some(len as u64));
    assert!(src.is_seekable());

    let mut got = Vec::new();
    let mut out = vec![0u8; 100_000];
    loop {
        let n = server.read(&mut src, &mut out);
        if n == 0 {
            break;
        }
        got.extend_from_slice(&out[..n]);
    }
    assert!(got == server.file);
    assert_eq!(server.requests, 3);
}

#[test]
fn a_seek_costs_one_request() {
    let len = 5 * CHUNK as usize;
    let mut server = Server::new(len, true);
    let mut src = HttpSource::new("http://h/a".to_string());
    server.serve(&mut src, 0);
    assert_eq!(src.seek(SeekTo::End(-10)), Ok(len as u64 - 10));
    let mut out = [0u8; 64];
    assert_eq!(server.read(&mut src, &mut out), 10);
    assert_eq!(&out[..10], &server.file[len - 10..]);
    assert_eq!(&out[10..], &[0u8; 54]);
    assert_eq!(server.requests, 2);
    assert_eq!(server.read(&mut src, &mut out), 0, "the end of the file is clean");
    assert_eq!(server.requests, 2);
}

#[test]
fn a_server_that_ignores_ranges_is_asked_once() {
    let mut server = Server::new(3_000_000, false);
    let mut src = HttpSource::new("http://h/a".to_string());
    server.serve(&mut src, 0);
    assert!(src.whole_body);
    assert_eq!(src.byte_len(), Some(3_000_000));
    assert_eq!(src.seek(SeekTo::Start(2_500_000)), Ok(2_500_000));
    let mut out = [0u8; 4];
    assert_eq!(server.read(&mut src, &mut out), 4);
    assert_eq!(&out, &server.file[2_500_000..2_500_004]);
    assert_eq!(src.fill_at(7), None);
    assert_eq!(server.requests, 1);
}

#[test]
fn two_reads_in_a_row_follow_each_other() {
    let mut server = Server::new(1000, true);
    let mut src = HttpSource::new("http://h/a".to_string());
    server.serve(&mut src, 0);
    let mut a = [0u8; 10];
    let mut b = [0u8; 20];
    assert_eq!(server.read(&mut src, &mut a), 10);
    assert_eq!(server.read(&mut src, &mut b), 20);
    assert_eq!([&a[..], &b[..]].concat(), server.file[..30].to_vec());
}

#[test]
fn an_empty_buffer_reads_nothing() {
    let mut src = HttpSource::new("http://h/a".to_string());
    assert_eq!(src.read(&mut []), ReadStep::Done(0));
    assert_eq!(src.read(&mut [0]), ReadStep::Fetch(0));
}

#[test]
fn a_position_the_reply_does_not_reach_reads_as_the_end() {
    let mut src = HttpSource::new("http://h/a".to_string());
    src.accept_body(0, true, vec![1, 2, 3]);
    assert_eq!(src.seek(SeekTo::Start(100)), Ok(100));
    assert_eq!(src.read_window(&mut [0; 4]), 0);
    assert_eq!(src.pos, 100);
    assert!(src.buf_contains(2));
    assert!(!src.buf_contains(3));
}

#[test]
fn seeks_are_relative_to_start_position_and_end() {
    let mut src = HttpSource::new("http://h/a".to_string());
    src.len = Some(1000);
    assert_eq!(src.seek(SeekTo::Start(5)), Ok(5));
    assert_eq!(src.seek(SeekTo::Current(10)), Ok(15));
    assert_eq!(src.seek(SeekTo::Current(-15)), Ok(0));
    assert_eq!(src.seek(SeekTo::End(0)), Ok(1000));
    assert_eq!(src.seek(SeekTo::End(5)), Ok(1005), "past the end is allowed");
}

#[test]
fn seeks_can_be_refused() {
    let mut src = HttpSource::new("http://h/a".to_string());
    src.pos = 7;
    assert_eq!(src.seek(SeekTo::End(0)), Err(SeekError::Unsupported));
    assert_eq!(src.seek(SeekTo::Current(-8)), Err(SeekError::InvalidInput));
    assert_eq!(src.seek(SeekTo::Start(u64::MAX)), Err(SeekError::InvalidInput));
    assert_eq!(src.pos, 7);
    assert_eq!(SeekError::Unsupported.message(), "stream length unknown");
    assert_eq!(SeekError::InvalidInput.message(), "seek before start of stream");
}

#[test]
fn seek_targets_that_overflow_are_recognised() {
    let mut src = HttpSource::new("http://h/a".to_string());
    src.pos = i64::MAX as u64;
    assert!(src.can_seek(SeekTo::Current(0)));
    assert!(!src.can_seek(SeekTo::Current(1)));
    assert!(src.can_seek(SeekTo::End(1)));
}

#[test]
fn a_refused_request_is_an_error() {
    let mut src = HttpSource::new("http://h/a".to_string());
    let head = ReplyHead {
        status: 404,
        status_text: "404 Not Found".to_string(),
        content_range: Some("bytes 0-1/2".to_string()),
        content_length: Some(9),
    };
    assert_eq!(
        src.accept_head(&head),
        Err("HTTP 404 Not Found while fetching audio".to_string())
    );
    assert_eq!(src.len, None);
}

#[test]
fn the_length_comes_from_the_range_then_from_the_body() {
    let mut src = HttpSource::new("http://h/a".to_string());
    assert_eq!(src.accept_head(&head(206, Some("bytes 0-9/77"), Some(10))), Ok(true));
    assert_eq!(src.len, Some(77));
    assert_eq!(src.accept_head(&head(206, Some("bytes 0-9/*"), Some(10))), Ok(true));
    assert_eq!(src.len, Some(77), "an unknown total changes nothing");
    assert_eq!(src.accept_head(&head(200, None, Some(10))), Ok(false));
    assert_eq!(src.len, Some(10));
    assert_eq!(src.accept_head(&head(299, None, None)), Ok(false));
    assert_eq!(src.len, None);
    src.accept_body(5, false, vec![1, 2, 3]);
    assert_eq!(src.len, Some(3));
    assert_eq!(src.buf_start, 0);
    assert!(src.accept_head(&head(300, None, None)).is_err());
    assert!(src.accept_head(&head(199, None, None)).is_err());
}

#[test]
fn totals_are_read_behind_the_last_slash() {
    assert_eq!(content_range_total("bytes 0-1023/146515"), Some(146_515));
    assert_eq!(content_range_total("bytes 0-1023/ 42 "), Some(42));
    assert_eq!(content_range_total("bytes 0-1023/*"), None);
    assert_eq!(content_range_total("a/b/7"), Some(7));
    assert_eq!(content_range_total("12"), Some(12));
    assert_eq!(content_range_total("1/"), None);
    assert_eq!(content_range_total(""), None);
}

#[test]
fn range_headers_ask_for_one_window() {
    assert_eq!(range_header(0), "bytes=0-1048575");
    assert_eq!(range_header(1_048_576), "bytes=1048576-2097151");
    assert_eq!(
        range_header(u64::MAX),
        "bytes=18446744073709551615-18446744073709551614"
    );
}

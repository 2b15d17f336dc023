//! A seekable view of a file behind HTTP.
//!
//! One window of the file is kept in memory and refilled with Range requests,
//! so seeking costs one request rather than a re-download. The source decides
//! what to request and makes sense of the reply; sending the request is left to
//! whoever owns the connection.

use vstd::prelude::*;

use crate::text::{
    after_last, before_first, behind_last, chars_of, decimal, decimal_text, is_digit,
    law_decimal_reads_back, lemma_decimal_text, lemma_first_index, lemma_last_index, opt_text,
    parse_decimal, push_decimal, trim, trimmed, unsigned_part,
};

verus! {

/// Window size per Range request, in bytes. Large enough that sequential
/// playback issues few requests, small enough that a seek does not pull
/// megabytes it won't use.
pub const CHUNK: u64 = 1_048_576;

/// A file behind HTTP: the window of it that is held, and the reading position.
pub struct HttpSource {
    pub url: String,
    pub pos: u64,
    pub len: Option<u64>,
    pub buf: Vec<u8>,
    pub buf_start: u64,
    /// Set when the server ignored the Range header and sent the whole body.
    pub whole_body: bool,
}

/// What the status line and the headers of a reply say.
pub struct ReplyHead {
    pub status: u16,
    /// The status as text, for messages.
    pub status_text: String,
    pub content_range: Option<String>,
    pub content_length: Option<u64>,
}

/// What a read needs, or what it gave.
#[derive(Clone, Copy, Debug, PartialEq, Eq)]
pub enum ReadStep {
    /// So many bytes were read.
    Done(usize),
    /// The window does not hold this position: fill it there, then go on.
    Fetch(u64),
}

/// Where to seek to.
#[derive(Clone, Copy, Debug, PartialEq, Eq)]
pub enum SeekTo {
    Start(u64),
    Current(i64),
    End(i64),
}

/// Why a seek was refused.
#[derive(Clone, Copy, Debug, PartialEq, Eq)]
pub enum SeekError {
    /// The stream length is unknown.
    Unsupported,
    /// The target lies before the start of the stream.
    InvalidInput,
}

impl SeekError {
    /// What a refused seek says.
    pub open spec fn text(self) -> Seq<char> {
        match self {
            SeekError::Unsupported => "stream length unknown"@,
            SeekError::InvalidInput => "seek before start of stream"@,
        }
    }

    /// What a refused seek says.
    pub fn message(&self) -> (m: String)
        ensures
            m@ == self.text(),
    {
        match self {
            SeekError::Unsupported => "stream length unknown".to_owned(),
            SeekError::InvalidInput => "seek before start of stream".to_owned(),
        }
    }
}

/// The size of the whole file, as a `Content-Range` header gives it: the number
/// behind the last slash.
pub open spec fn range_total(header: Seq<char>) -> Option<u64> {
    decimal(trim(after_last(header, '/')))
}

/// Reads the size of the whole file from a `Content-Range` header.
pub fn content_range_total(header: &str) -> (total: Option<u64>)
    ensures
        total == range_total(header@),
{
    let v = chars_of(header);
    assert(v@.take(v@.len() as int) =~= v@);
    let from = behind_last(&v, v.len(), '/');
    let (start, end) = trimmed(&v, from);
    parse_decimal(&v, start, end)
}

/// The last byte of the window that starts at `start`.
pub open spec fn window_end(start: u64) -> u64 {
    if start + CHUNK <= u64::MAX {
        (start + CHUNK - 1) as u64
    } else {
        (u64::MAX - 1) as u64
    }
}

/// The `Range` header that asks for the window that starts at `start`.
pub open spec fn range_text(start: u64) -> Seq<char> {
    "bytes="@ + decimal_text(start as nat) + "-"@ + decimal_text(window_end(start) as nat)
}

/// Writes the `Range` header that asks for the window that starts at `start`.
pub fn range_header(start: u64) -> (header: String)
    ensures
        header@ == range_text(start),
{
    let end = start.saturating_add(CHUNK).saturating_sub(1);
    let mut header = "bytes=".to_owned();
    push_decimal(&mut header, start);
    header.push('-');
    proof {
        reveal_strlit("-");
        assert("-"@ =~= seq!['-']);
    }
    push_decimal(&mut header, end);
    header
}

/// The status says that the request was granted.
pub open spec fn is_success(status: u16) -> bool {
    200 <= status < 300
}

/// The number of bytes that `want` can get of `have`.
pub open spec fn at_most(have: int, want: int) -> int {
    if have <= want {
        have
    } else {
        want
    }
}

/// The signed number that a seek offset counts from: what `x` is as an `i64`.
pub open spec fn signed(x: u64) -> int {
    if x <= i64::MAX {
        x as int
    } else {
        x - 0x1_0000_0000_0000_0000
    }
}

impl HttpSource {
    /// The window lies within what positions can address.
    pub open spec fn wf(self) -> bool {
        self.buf_start + self.buf@.len() <= u64::MAX
    }

    /// The window holds the byte at `pos`.
    pub open spec fn holds(self, pos: u64) -> bool {
        self.buf_start <= pos < self.buf_start + self.buf@.len()
    }

    /// What is held is a piece of `file`, at its place.
    pub open spec fn mirrors(self, file: Seq<u8>) -> bool {
        &&& self.buf_start + self.buf@.len() <= file.len()
        &&& self.buf@ == file.subrange(
            self.buf_start as int,
            self.buf_start + self.buf@.len(),
        )
    }

    /// A source of which nothing is known yet.
    pub fn new(url: String) -> (src: Self)
        ensures
            src.wf(),
            src.url == url,
            src.pos == 0,
            src.len is None,
            src.buf@.len() == 0,
            src.buf_start == 0,
            !src.whole_body,
            is_fresh(src, url),
    {
        HttpSource { url, pos: 0, len: None, buf: Vec::new(), buf_start: 0, whole_body: false }
    }

    /// The `Range` header of the request that fills the window at `start`, or
    /// nothing where the whole file is held already.
    pub fn fill_at(&self, start: u64) -> (request: Option<String>)
        ensures
            request is None <==> self.whole_body && self.buf@.len() > 0,
            request matches Some(header) ==> header@ == range_text(start),
            asks(*self, start, opt_text(request)),
    {
        if self.whole_body && self.buf.len() > 0 {
            return None;  // already hold everything
        }
        Some(range_header(start))
    }

    /// Takes the head of a reply: refuses it unless the request was granted, and
    /// learns the length of the file where it says so. Says whether the body is
    /// the window that was asked for, rather than the whole file.
    pub fn accept_head(&mut self, head: &ReplyHead) -> (partial: Result<bool, String>)
        ensures
            partial is Ok <==> is_success(head.status),
            partial matches Ok(p) ==> p == (head.status == 206),
            partial matches Err(e) ==> e@ == "HTTP "@ + head.status_text@
                + " while fetching audio"@,
            partial is Err ==> *final(self) == *old(self),
            *final(self) == (HttpSource { len: final(self).len, ..*old(self) }),
            partial is Ok ==> final(self).len == match head.content_range {
                Some(header) if range_total(header@) is Some => range_total(header@),
                _ => if head.status == 206 {
                    old(self).len
                } else {
                    head.content_length
                },
            },
            took_head(*old(self), *head, *final(self), partial),
    {
        if head.status < 200 || head.status >= 300 {
            let mut e = "HTTP ".to_owned();
            e.append(head.status_text.as_str());
            e.append(" while fetching audio");
            return Err(e);
        }
        let partial = head.status == 206;
        let total = match &head.content_range {
            Some(header) => content_range_total(header.as_str()),
            None => None,
        };
        if total.is_some() {
            self.len = total;
        } else if !partial {
            self.len = head.content_length;
        }
        Ok(partial)
    }

    /// Takes the body of a reply to a request for the window at `start`.
    pub fn accept_body(&mut self, start: u64, partial: bool, body: Vec<u8>)
        requires
            partial ==> start + body@.len() <= u64::MAX,
        ensures
            final(self).wf(),
            final(self).buf == body,
            final(self).buf_start == if partial {
                start
            } else {
                0
            },
            final(self).whole_body == (old(self).whole_body || !partial),
            final(self).len == if !partial && old(self).len is None {
                Some(body@.len() as u64)
            } else {
                old(self).len
            },
            final(self).url == old(self).url,
            final(self).pos == old(self).pos,
            took_body(*old(self), start, partial, body@, *final(self)),
    {
        let n = body.len() as u64;
        self.buf = body;
        if partial {
            self.buf_start = start;
        } else {
            self.buf_start = 0;
            self.whole_body = true;
            if self.len.is_none() {
                self.len = Some(n);
            }
        }
    }

    /// Whether the window holds the byte at `pos`.
    pub fn buf_contains(&self, pos: u64) -> (yes: bool)
        ensures
            yes == self.holds(pos),
    {
        pos >= self.buf_start && pos - self.buf_start < self.buf.len() as u64
    }

    /// What reading into `want` bytes would give from the window at hand.
    pub open spec fn readable(self, want: nat) -> Seq<u8> {
        let from = self.pos - self.buf_start;
        if self.holds(self.pos) {
            self.buf@.subrange(from, from + at_most(self.buf@.len() - from, want as int))
        } else {
            Seq::empty()
        }
    }

    /// Reads from the window at hand, after a fetch: nothing, if it still does
    /// not hold the position.
    pub fn read_window(&mut self, out: &mut [u8]) -> (n: usize)
        requires
            old(self).wf(),
        ensures
            n == old(self).readable(old(out)@.len()).len(),
            n <= old(out)@.len(),
            final(out)@ == old(self).readable(old(out)@.len()) + old(out)@.skip(n as int),
            *final(self) == (HttpSource { pos: (old(self).pos + n) as u64, ..*old(self) }),
            read_on(*old(self), old(out)@, n, *final(self), final(out)@),
    {
        if !self.buf_contains(self.pos) {
            assert(out@ =~= old(self).readable(out@.len()) + out@.skip(0));
            return 0;  // past the end
        }
        let offset = (self.pos - self.buf_start) as usize;
        let have = self.buf.len();
        let available = have - offset;
        let n = if available <= out.len() {
            available
        } else {
            out.len()
        };
        let ghost data = self.buf@.subrange(offset as int, offset + n);
        let mut i: usize = 0;
        while i < n
            invariant
                i <= n <= out@.len(),
                out@.len() == old(out)@.len(),
                offset + n <= have,
                have == self.buf@.len(),
                data == self.buf@.subrange(offset as int, offset + n),
                *self == *old(self),
                forall|j: int| 0 <= j < i ==> #[trigger] out@[j] == data[j],
                forall|j: int| i <= j < out@.len() ==> #[trigger] out@[j] == old(out)@[j],
            decreases n - i,
        {
            out[i] = self.buf[offset + i];
            i += 1;
        }
        assert(out@ =~= data + old(out)@.skip(n as int));
        self.pos = self.pos + n as u64;
        n
    }

    /// Reads the next bytes, or says what has to be fetched first.
    pub fn read(&mut self, out: &mut [u8]) -> (step: ReadStep)
        requires
            old(self).wf(),
        ensures
            (old(out)@.len() == 0 || old(self).at_end()) ==> step == ReadStep::Done(0)
                && *final(self) == *old(self) && final(out)@ == old(out)@,
            !(old(out)@.len() == 0 || old(self).at_end()) && !old(self).holds(old(self).pos) ==> step
                == ReadStep::Fetch(old(self).pos) && *final(self) == *old(self) && final(out)@ == old(
                out,
            )@,
            !(old(out)@.len() == 0 || old(self).at_end()) && old(self).holds(old(self).pos) ==> ({
                let data = old(self).readable(old(out)@.len());
                &&& step == ReadStep::Done(data.len() as usize)
                &&& data.len() > 0
                &&& final(out)@ == data + old(out)@.skip(data.len() as int)
                &&& *final(self) == (HttpSource {
                    pos: (old(self).pos + data.len()) as u64,
                    ..*old(self)
                })
            }),
            read_does(*old(self), old(out)@, step, *final(self), final(out)@),
    {
        if out.len() == 0 {
            return ReadStep::Done(0);
        }
        if let Some(len) = self.len {
            if self.pos >= len {
                return ReadStep::Done(0);  // clean end of file
            }
        }
        if !self.buf_contains(self.pos) {
            return ReadStep::Fetch(self.pos);
        }
        ReadStep::Done(self.read_window(out))
    }

    /// The position is known to be at or past the end of the file.
    pub open spec fn at_end(self) -> bool {
        self.len matches Some(len) && self.pos >= len
    }

    /// The number that a seek leads to, where it can be told.
    pub open spec fn seek_target(self, to: SeekTo) -> Option<int> {
        match to {
            SeekTo::Start(p) => Some(signed(p)),
            SeekTo::Current(d) => Some(signed(self.pos) + d),
            SeekTo::End(d) => match self.len {
                Some(len) => Some(signed(len) + d),
                None => None,
            },
        }
    }

    /// Whether the target of a seek is a number that positions can be computed
    /// with.
    pub fn can_seek(&self, to: SeekTo) -> (yes: bool)
        ensures
            yes == (self.seek_target(to) matches Some(t) ==> i64::MIN <= t <= i64::MAX),
    {
        match self.target(to) {
            Some(t) => i64::MIN as i128 <= t && t <= i64::MAX as i128,
            None => true,
        }
    }

    fn target(&self, to: SeekTo) -> (t: Option<i128>)
        ensures
            t is Some <==> self.seek_target(to) is Some,
            t matches Some(t) ==> self.seek_target(to) == Some(t as int),
    {
        match to {
            SeekTo::Start(p) => Some(to_signed(p)),
            SeekTo::Current(d) => Some(to_signed(self.pos) + d as i128),
            SeekTo::End(d) => match self.len {
                Some(len) => Some(to_signed(len) + d as i128),
                None => None,
            },
        }
    }

    /// Moves the reading position. The window stays as it is.
    pub fn seek(&mut self, to: SeekTo) -> (pos: Result<u64, SeekError>)
        requires
            old(self).seek_target(to) matches Some(t) ==> i64::MIN <= t <= i64::MAX,
        ensures
            match old(self).seek_target(to) {
                None => pos == Err::<u64, SeekError>(SeekError::Unsupported) && *final(self) == *old(
                    self,
                ),
                Some(t) if t < 0 => pos == Err::<u64, SeekError>(SeekError::InvalidInput)
                    && *final(self) == *old(self),
                Some(t) => pos == Ok::<u64, SeekError>(t as u64) && *final(self) == (HttpSource {
                    pos: t as u64,
                    ..*old(self)
                }),
            },
            seek_does(*old(self), to, pos, *final(self)),
    {
        match self.target(to) {
            None => Err(SeekError::Unsupported),
            Some(t) => {
                if t < 0 {
                    return Err(SeekError::InvalidInput);
                }
                self.pos = t as u64;
                Ok(self.pos)
            },
        }
    }

    /// Whether the stream can be sought in from its end.
    pub fn is_seekable(&self) -> (yes: bool)
        ensures
            yes == (self.len is Some),
            yes == knows_its_end(*self),
    {
        self.len.is_some()
    }

    /// The length of the file, where it is known.
    pub fn byte_len(&self) -> (len: Option<u64>)
        ensures
            len == self.len,
            len is Some <==> knows_its_end(*self),
    {
        self.len
    }
}

fn to_signed(x: u64) -> (s: i128)
    ensures
        s == signed(x),
{
    if x <= i64::MAX as u64 {
        x as i128
    } else {
        x as i128 - 0x1_0000_0000_0000_0000
    }
}

/// A source that mirrors a file reads the file: what a read gives is what stands
/// in the file at the reading position.
pub proof fn law_reads_the_file(src: HttpSource, file: Seq<u8>, want: nat)
    requires
        src.wf(),
        src.mirrors(file),
    ensures
        src.pos + src.readable(want).len() <= file.len() || src.readable(want).len() == 0,
        src.holds(src.pos) ==> src.readable(want) == file.subrange(
            src.pos as int,
            src.pos + src.readable(want).len(),
        ),
{
    if src.holds(src.pos) {
        assert(src.readable(want) =~= file.subrange(
            src.pos as int,
            src.pos + src.readable(want).len(),
        ));
    }
}

/// A reply is honest about `file`: it holds the piece of it from `start` on that
/// it was asked for, or all of it.
pub open spec fn honest_reply(file: Seq<u8>, start: u64, partial: bool, body: Seq<u8>) -> bool {
    if partial {
        start + body.len() <= file.len() && body == file.subrange(
            start as int,
            start + body.len(),
        )
    } else {
        body == file
    }
}

/// An honest reply leaves the source mirroring the file.
pub proof fn law_reply_keeps_the_mirror(
    after: HttpSource,
    file: Seq<u8>,
    start: u64,
    partial: bool,
)
    requires
        honest_reply(file, start, partial, after.buf@),
        after.buf_start == if partial {
            start
        } else {
            0
        },
    ensures
        after.mirrors(file),
{
    if !partial {
        assert(file.subrange(0, file.len() as int) =~= file);
    }
}

/// Seeking anywhere in the file and fetching there costs one reply, after which
/// a read gives what stands in the file at that position.
pub proof fn law_fetch_then_read(
    after: HttpSource,
    file: Seq<u8>,
    partial: bool,
    want: nat,
)
    requires
        after.wf(),
        after.pos < file.len(),
        honest_reply(file, after.pos, partial, after.buf@),
        after.buf@.len() > 0,
        after.buf_start == if partial {
            after.pos
        } else {
            0
        },
    ensures
        after.holds(after.pos),
        want > 0 ==> after.readable(want).len() > 0,
        after.readable(want) == file.subrange(
            after.pos as int,
            after.pos + after.readable(want).len(),
        ),
{
    law_reply_keeps_the_mirror(after, file, after.pos, partial);
    law_reads_the_file(after, file, want);
}

/// Two reads in a row give the two pieces of the file that follow each other.
pub proof fn law_reads_follow_each_other(src: HttpSource, next: HttpSource, file: Seq<u8>, a: nat, b: nat)
    requires
        src.wf(),
        src.mirrors(file),
        src.holds(src.pos),
        next == (HttpSource { pos: (src.pos + src.readable(a).len()) as u64, ..src }),
        next.holds(next.pos),
    ensures
        src.readable(a) + next.readable(b) == file.subrange(
            src.pos as int,
            src.pos + src.readable(a).len() + next.readable(b).len(),
        ),
{
    law_reads_the_file(src, file, a);
    law_reads_the_file(next, file, b);
    assert(src.readable(a) + next.readable(b) =~= file.subrange(
        src.pos as int,
        src.pos + src.readable(a).len() + next.readable(b).len(),
    ));
}

/// What is requested to fill the window at `start`.
pub open spec fn asks(src: HttpSource, start: u64, request: Option<Seq<char>>) -> bool {
    if src.whole_body && src.buf@.len() > 0 {
        request is None
    } else {
        request == Some(range_text(start))
    }
}

/// What taking the head of a reply does.
pub open spec fn took_head(
    s0: HttpSource,
    head: ReplyHead,
    s1: HttpSource,
    partial: Result<bool, String>,
) -> bool {
    if is_success(head.status) {
        &&& partial matches Ok(p) && p == (head.status == 206)
        &&& s1 == HttpSource { len: s1.len, ..s0 }
        &&& s1.len == match head.content_range {
            Some(header) if range_total(header@) is Some => range_total(header@),
            _ => if head.status == 206 {
                s0.len
            } else {
                head.content_length
            },
        }
    } else {
        &&& partial matches Err(e) && e@ == "HTTP "@ + head.status_text@
            + " while fetching audio"@
        &&& s1 == s0
    }
}

/// What taking the body of a reply does.
pub open spec fn took_body(
    s0: HttpSource,
    start: u64,
    partial: bool,
    body: Seq<u8>,
    s1: HttpSource,
) -> bool {
    &&& s1.buf@ == body
    &&& s1.buf_start == if partial {
        start
    } else {
        0
    }
    &&& s1.whole_body == (s0.whole_body || !partial)
    &&& s1.len == if !partial && s0.len is None {
        Some(body.len() as u64)
    } else {
        s0.len
    }
    &&& s1.url == s0.url
    &&& s1.pos == s0.pos
}

/// What a read into a buffer that holds `out0` does.
pub open spec fn read_does(
    s0: HttpSource,
    out0: Seq<u8>,
    step: ReadStep,
    s1: HttpSource,
    out1: Seq<u8>,
) -> bool {
    if out0.len() == 0 || s0.at_end() {
        step == ReadStep::Done(0) && s1 == s0 && out1 == out0
    } else if !s0.holds(s0.pos) {
        step == ReadStep::Fetch(s0.pos) && s1 == s0 && out1 == out0
    } else {
        let data = s0.readable(out0.len());
        &&& step == ReadStep::Done(data.len() as usize)
        &&& out1 == data + out0.skip(data.len() as int)
        &&& s1 == HttpSource { pos: (s0.pos + data.len()) as u64, ..s0 }
    }
}

/// What a seek does.
pub open spec fn seek_does(
    s0: HttpSource,
    to: SeekTo,
    pos: Result<u64, SeekError>,
    s1: HttpSource,
) -> bool {
    match s0.seek_target(to) {
        None => pos == Err::<u64, SeekError>(SeekError::Unsupported) && s1 == s0,
        Some(t) => if t < 0 {
            pos == Err::<u64, SeekError>(SeekError::InvalidInput) && s1 == s0
        } else {
            pos == Ok::<u64, SeekError>(t as u64) && s1 == HttpSource { pos: t as u64, ..s0 }
        },
    }
}

/// A window is one mebibyte, wherever it starts, and the next one starts right
/// behind it.
pub proof fn law_windows_are_one_mebibyte(start: u64)
    ensures
        start + 1_048_576 <= u64::MAX ==> window_end(start) - start + 1 == 1_048_576,
        start + 1_048_576 > u64::MAX ==> window_end(start) == u64::MAX - 1,
{
}

/// The header of a request reads back: it asks, in bytes, for the window from its
/// first to its last byte.
pub proof fn law_range_headers_read_back(start: u64)
    ensures
        range_text(start).take(6) == "bytes="@,
        decimal(before_first(range_text(start).skip(6), '-')) == Some(start),
        decimal(after_last(range_text(start), '-')) == Some(window_end(start)),
{
    reveal_strlit("bytes=");
    reveal_strlit("-");
    let a = decimal_text(start as nat);
    let b = decimal_text(window_end(start) as nat);
    let text = range_text(start);
    lemma_decimal_text(start as nat);
    lemma_decimal_text(window_end(start) as nat);
    law_decimal_reads_back(start);
    law_decimal_reads_back(window_end(start));
    assert(text.take(6) =~= "bytes="@);
    let tail = text.skip(6);
    assert(tail =~= a + "-"@ + b);
    assert forall|j: int| 0 <= j < a.len() implies #[trigger] tail[j] != '-' by {
        assert(is_digit(a[j]));
    }
    lemma_first_index(tail, '-', a.len() as int);
    assert(before_first(tail, '-') =~= a);
    let k = 6 + a.len();
    assert forall|j: int| k < j < text.len() implies #[trigger] text[j] != '-' by {
        assert(is_digit(b[j - k - 1]));
    }
    lemma_last_index(text, '-', k as int);
    assert(after_last(text, '-') =~= b);
}

/// The size that a server gives behind the last slash of its range is believed,
/// whatever stands before it, and only a number is.
pub proof fn law_totals_stand_behind_the_slash(front: Seq<char>, n: u64)
    ensures
        range_total(front + seq!['/'] + decimal_text(n as nat)) == Some(n),
        range_total(front + seq!['/', '*']) is None,
{
    let digits = decimal_text(n as nat);
    let header = front + seq!['/'] + digits;
    lemma_decimal_text(n as nat);
    law_decimal_reads_back(n);
    assert forall|j: int| front.len() < j < header.len() implies #[trigger] header[j] != '/' by {
        assert(is_digit(digits[j - front.len() - 1]));
    }
    lemma_last_index(header, '/', front.len() as int);
    assert(after_last(header, '/') =~= digits);
    assert(is_digit(digits[0]));
    assert(is_digit(digits[digits.len() - 1]));
    assert(trim(digits) == digits);
    let unknown = front + seq!['/', '*'];
    lemma_last_index(unknown, '/', front.len() as int);
    assert(after_last(unknown, '/') =~= seq!['*']);
    let star = seq!['*'];
    assert(trim(star) == star);
    assert(!is_digit(star[0]));
    assert(unsigned_part(star) == star);
}

/// A request is granted by the two hundreds, and by nothing else; a body is the
/// window that was asked for if and only if the server says so.
pub proof fn law_replies_mean_what_their_status_says(
    s0: HttpSource,
    head: ReplyHead,
    s1: HttpSource,
    partial: Result<bool, String>,
)
    requires
        took_head(s0, head, s1, partial),
    ensures
        partial is Ok <==> 200 <= head.status <= 299,
        partial == Ok::<bool, String>(true) <==> head.status == 206,
        partial is Err ==> s1 == s0,
        partial matches Err(e) ==> e@ == "HTTP "@ + head.status_text@
            + " while fetching audio"@,
        s1.buf == s0.buf && s1.pos == s0.pos && s1.buf_start == s0.buf_start && s1.url == s0.url
            && s1.whole_body == s0.whole_body,
{
}

/// The length of the file is the total that the server gives with its range. If it
/// gives none, it is that of the body where the body is the whole file, and what
/// it was before where it is a piece of it.
pub proof fn law_lengths_come_from_the_server(
    s0: HttpSource,
    head: ReplyHead,
    s1: HttpSource,
    partial: Result<bool, String>,
    front: Seq<char>,
    total: u64,
)
    requires
        took_head(s0, head, s1, partial),
        200 <= head.status <= 299,
    ensures
        head.content_range matches Some(header) && header@ == front + seq!['/'] + decimal_text(
            total as nat,
        ) ==> s1.len == Some(total),
        head.content_range is None && head.status == 206 ==> s1.len == s0.len,
        head.content_range is None && head.status != 206 ==> s1.len == head.content_length,
{
    law_totals_stand_behind_the_slash(front, total);
}

/// An honest body is held at its place: the source mirrors the file, whatever it
/// held before, and stands where it stood.
pub proof fn law_bodies_are_held_at_their_place(
    s0: HttpSource,
    start: u64,
    partial: bool,
    body: Seq<u8>,
    s1: HttpSource,
    file: Seq<u8>,
    i: int,
)
    requires
        took_body(s0, start, partial, body, s1),
        partial ==> start + body.len() <= file.len() && body == file.subrange(
            start as int,
            start + body.len(),
        ),
        !partial ==> body == file,
    ensures
        s1.mirrors(file),
        0 <= i < s1.buf@.len() ==> s1.buf@[i] == file[s1.buf_start + i],
        partial && 0 < body.len() ==> s1.holds(start),
        !partial ==> (0 <= i < file.len() && i <= u64::MAX ==> s1.holds(i as u64)),
        s1.pos == s0.pos && s1.url == s0.url,
        !partial && s0.len is None && file.len() <= u64::MAX ==> s1.len == Some(file.len() as u64),
        s0.len is Some || partial ==> s1.len == s0.len,
{
    if !partial {
        assert(file.subrange(0, file.len() as int) =~= file);
    }
}

/// A server that sends the whole file is asked for it once: with all of it held,
/// nothing more is requested, wherever reading stands. Otherwise the window there
/// is.
pub proof fn law_whole_files_are_asked_for_once(
    s0: HttpSource,
    start: u64,
    body: Seq<u8>,
    s1: HttpSource,
    at: u64,
    request: Option<Seq<char>>,
)
    requires
        took_body(s0, start, false, body, s1),
        body.len() > 0,
        asks(s1, at, request),
    ensures
        request is None,
{
}

/// As long as pieces are held, what is missing is requested from where it starts.
pub proof fn law_missing_windows_are_asked_for(
    src: HttpSource,
    at: u64,
    request: Option<Seq<char>>,
)
    requires
        !src.whole_body || src.buf@.len() == 0,
        asks(src, at, request),
    ensures
        request == Some(range_text(at)),
{
}

/// A read gives the bytes at the reading position, as many as are held and wanted,
/// and goes on behind them. It gives none at the end of the file, or where none
/// are wanted, and asks for the window at its position where that is not held.
/// What it does not fill of the buffer stays.
pub proof fn law_reads_give_what_is_held(
    s0: HttpSource,
    out0: Seq<u8>,
    step: ReadStep,
    s1: HttpSource,
    out1: Seq<u8>,
    i: int,
)
    requires
        s0.wf(),
        out0.len() <= usize::MAX,
        read_does(s0, out0, step, s1, out1),
    ensures
        out1.len() == out0.len(),
        out0.len() == 0 || (s0.len matches Some(len) && s0.pos >= len) ==> step == ReadStep::Done(0)
            && s1 == s0 && out1 == out0,
        out0.len() > 0 && (s0.len matches Some(len) ==> s0.pos < len) && !(s0.buf_start <= s0.pos
            < s0.buf_start + s0.buf@.len()) ==> step == ReadStep::Fetch(s0.pos) && s1 == s0 && out1
            == out0,
        out0.len() > 0 && (s0.len matches Some(len) ==> s0.pos < len) && s0.buf_start <= s0.pos
            < s0.buf_start + s0.buf@.len() ==> (step matches ReadStep::Done(n) && {
            &&& 0 < n <= out0.len()
            &&& n <= s0.buf_start + s0.buf@.len() - s0.pos
            &&& n == out0.len() || n == s0.buf_start + s0.buf@.len() - s0.pos
            &&& s1.pos == s0.pos + n
            &&& s1.buf == s0.buf && s1.len == s0.len && s1.buf_start == s0.buf_start
            &&& 0 <= i < n ==> out1[i] == s0.buf@[s0.pos - s0.buf_start + i]
            &&& n <= i < out0.len() ==> out1[i] == out0[i]
        }),
{
}

/// A seek leads where it says: to that byte, so far from where reading stands, or
/// so far from the end. Before the start there is nothing, and without a length
/// there is no end to count from; then reading stays where it stands. What is
/// held stays in any case.
pub proof fn law_seeks_lead_where_they_say(
    s0: HttpSource,
    to: SeekTo,
    pos: Result<u64, SeekError>,
    s1: HttpSource,
)
    requires
        seek_does(s0, to, pos, s1),
        s0.pos <= i64::MAX,
        s0.len matches Some(len) ==> len <= i64::MAX,
    ensures
        to matches SeekTo::Start(p) ==> (p <= i64::MAX ==> pos == Ok::<u64, SeekError>(p)) && (p
            > i64::MAX ==> pos == Err::<u64, SeekError>(SeekError::InvalidInput)),
        to matches SeekTo::Current(d) ==> (s0.pos + d >= 0 ==> pos == Ok::<u64, SeekError>(
            (s0.pos + d) as u64,
        )) && (s0.pos + d < 0 ==> pos == Err::<u64, SeekError>(SeekError::InvalidInput)),
        to matches SeekTo::End(d) ==> match s0.len {
            None => pos == Err::<u64, SeekError>(SeekError::Unsupported),
            Some(len) => (len + d >= 0 ==> pos == Ok::<u64, SeekError>((len + d) as u64)) && (len
                + d < 0 ==> pos == Err::<u64, SeekError>(SeekError::InvalidInput)),
        },
        pos matches Ok(p) ==> s1.pos == p,
        pos is Err ==> s1.pos == s0.pos,
        s1 == (HttpSource { pos: s1.pos, ..s0 }),
{
}

/// A seek forward and the same way back leads to where it began.
pub proof fn law_seeks_can_be_undone(
    s0: HttpSource,
    d: i64,
    first: Result<u64, SeekError>,
    s1: HttpSource,
    back: Result<u64, SeekError>,
    s2: HttpSource,
)
    requires
        s0.pos <= i64::MAX,
        i64::MIN < d,
        0 <= s0.pos + d <= i64::MAX,
        seek_does(s0, SeekTo::Current(d), first, s1),
        seek_does(s1, SeekTo::Current((-d) as i64), back, s2),
    ensures
        back == Ok::<u64, SeekError>(s0.pos),
        s2 == s0,
{
}

/// A source of which nothing is known yet.
pub open spec fn is_fresh(src: HttpSource, url: String) -> bool {
    &&& src.url == url
    &&& src.pos == 0
    &&& src.len is None
    &&& src.buf@.len() == 0
    &&& src.buf_start == 0
    &&& !src.whole_body
}

/// What reading from the window at hand does.
pub open spec fn read_on(
    s0: HttpSource,
    out0: Seq<u8>,
    n: usize,
    s1: HttpSource,
    out1: Seq<u8>,
) -> bool {
    &&& n == s0.readable(out0.len()).len()
    &&& out1 == s0.readable(out0.len()) + out0.skip(n as int)
    &&& s1 == HttpSource { pos: (s0.pos + n) as u64, ..s0 }
}

/// The length of the file is known.
pub open spec fn knows_its_end(src: HttpSource) -> bool {
    src.len is Some
}

/// Reading begins at the first byte of the URL, which has to be fetched first,
/// from the start.
pub proof fn law_reading_begins_at_the_start(
    s0: HttpSource,
    url: String,
    out0: Seq<u8>,
    step: ReadStep,
    s1: HttpSource,
    out1: Seq<u8>,
    request: Option<Seq<char>>,
)
    requires
        is_fresh(s0, url),
        out0.len() > 0,
        read_does(s0, out0, step, s1, out1),
        asks(s0, 0, request),
    ensures
        step == ReadStep::Fetch(0),
        request == Some(range_text(0)),
        s1.url == url,
        s1.wf(),
        !s1.whole_body,
        s1.buf_start == 0 && s1.pos == 0,
{
}

/// Reading on from the window gives the bytes at the reading position, as many as
/// are held and wanted, and none where the window does not reach.
pub proof fn law_windows_are_read_on(
    s0: HttpSource,
    out0: Seq<u8>,
    n: usize,
    s1: HttpSource,
    out1: Seq<u8>,
    i: int,
)
    requires
        s0.wf(),
        read_on(s0, out0, n, s1, out1),
    ensures
        n <= out0.len(),
        out1.len() == out0.len(),
        s1.pos == s0.pos + n,
        s1.buf == s0.buf && s1.len == s0.len && s1.buf_start == s0.buf_start,
        s0.pos < s0.buf_start || s0.pos >= s0.buf_start + s0.buf@.len() ==> n == 0,
        s0.buf_start <= s0.pos < s0.buf_start + s0.buf@.len() ==> (n == out0.len() || n
            == s0.buf_start + s0.buf@.len() - s0.pos) && n <= s0.buf_start + s0.buf@.len() - s0.pos,
        0 <= i < n ==> out1[i] == s0.buf@[s0.pos - s0.buf_start + i],
        n <= i < out0.len() ==> out1[i] == out0[i],
{
}

/// A seek from the end is refused for want of a length if and only if the source
/// says that it knows none.
pub proof fn law_the_end_is_known_or_not(
    s0: HttpSource,
    d: i64,
    pos: Result<u64, SeekError>,
    s1: HttpSource,
)
    requires
        seek_does(s0, SeekTo::End(d), pos, s1),
    ensures
        knows_its_end(s0) <==> pos != Err::<u64, SeekError>(SeekError::Unsupported),
{
}

} // verus!

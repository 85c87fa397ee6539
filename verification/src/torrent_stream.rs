//! Serving a file of a torrent over HTTP: which bytes a request asks for, whether the stream is
//! ready to give them, and how the answer is headed.
use vstd::prelude::*;

use crate::text::{
    chars_of, contains, dec, find_char, index_of, match_at, mentions, parse_up_to, push_dec,
    read_number, slice_copy, starts_with, trim, trim_bounds,
};

verus! {

/// How many bytes of a stream are read before it is answered for.
pub const PROBE_BYTES: usize = 65536;

/// How long that may take, in seconds.
pub const PROBE_DEADLINE_SECS: u64 = 30;

/// How long a torrent that initializes is waited for, in seconds.
pub const OPEN_DEADLINE_SECS: u64 = 30;

/// How long to wait before a torrent that initializes is asked again, in milliseconds.
pub const OPEN_RETRY_MILLIS: u64 = 250;

/// How many bytes to probe for a range of a length.
pub open spec fn probe_target(range_len: u64) -> usize {
    if range_len < PROBE_BYTES {
        range_len as usize
    } else {
        PROBE_BYTES
    }
}

/// Computes [`probe_target`].
pub fn compute_probe_target(range_len: u64) -> (r: usize)
    ensures
        r == probe_target(range_len),
{
    if range_len < PROBE_BYTES as u64 {
        range_len as usize
    } else {
        PROBE_BYTES
    }
}

/// A probe gave all it was to give; one that was to give nothing never does.
pub open spec fn gave_all(probed: usize, target: usize) -> bool {
    target > 0 && probed >= target
}

/// Decides [`gave_all`].
pub fn probe_succeeded(probed: usize, target: usize) -> (r: bool)
    ensures
        r == gave_all(probed, target),
{
    target > 0 && probed >= target
}

/// A range of bytes, both ends inside it.
#[derive(Debug, Clone, Copy, PartialEq, Eq, Structural)]
pub struct ByteRange {
    pub start: u64,
    pub end: u64,
}

impl ByteRange {
    /// The range lies within a resource of `total` bytes.
    pub open spec fn within(self, total: u64) -> bool {
        self.start <= self.end < total
    }

    /// How many bytes the range holds.
    pub open spec fn length(self) -> int {
        self.end - self.start + 1
    }

    /// Computes [`ByteRange::length`].
    pub fn len(&self) -> (r: u64)
        requires
            self.start <= self.end,
            self.end - self.start < u64::MAX,
        ensures
            r == self.length(),
    {
        self.end - self.start + 1
    }

    /// The range is the whole resource.
    pub open spec fn is_whole(self, total: u64) -> bool {
        self.start == 0 && total > 0 && self.end == total - 1
    }

    /// Decides [`ByteRange::is_whole`].
    pub fn is_full(&self, total: u64) -> (r: bool)
        ensures
            r == self.is_whole(total),
    {
        self.start == 0 && total > 0 && self.end == total - 1
    }
}

/// Why a request for bytes is refused.
#[derive(Debug, Clone, Copy, PartialEq, Eq, Structural)]
pub enum RangeError {
    /// The header is no byte range.
    Malformed,
    /// It is one, and lies outside the resource.
    Unsatisfiable,
    /// The resource holds nothing.
    EmptyResource,
}

impl RangeError {
    /// The HTTP status that tells of it.
    pub open spec fn status(self) -> u16 {
        match self {
            RangeError::Malformed => 400,
            RangeError::Unsatisfiable => 416,
            RangeError::EmptyResource => 500,
        }
    }

    /// Gives [`RangeError::status`].
    pub fn http_status(&self) -> (r: u16)
        ensures
            r == self.status(),
    {
        match self {
            RangeError::Malformed => 400,
            RangeError::Unsatisfiable => 416,
            RangeError::EmptyResource => 500,
        }
    }
}

/// A byte that a header's text may hold: visible ASCII, a space or a tab.
pub open spec fn is_text_byte(b: u8) -> bool {
    (32 <= b && b < 127) || b == 9
}

/// The text of a header, where all its bytes are text.
pub open spec fn header_text(raw: Seq<u8>) -> Option<Seq<char>> {
    if forall|i: int| 0 <= i < raw.len() ==> is_text_byte(#[trigger] raw[i]) {
        Some(raw.map_values(|b: u8| b as char))
    } else {
        None
    }
}

/// Reads [`header_text`].
pub fn read_header(raw: &[u8]) -> (r: Option<Vec<char>>)
    ensures
        match r {
            Some(v) => header_text(raw@) == Some(v@),
            None => header_text(raw@) is None,
        },
{
    let n: usize = raw.len();
    let mut out: Vec<char> = Vec::new();
    let ghost text = raw@.map_values(|b: u8| b as char);
    let mut i: usize = 0;
    while i < n
        invariant
            n == raw@.len(),
            i <= n,
            text == raw@.map_values(|b: u8| b as char),
            out@ == text.take(i as int),
            forall|j: int| 0 <= j < i ==> is_text_byte(#[trigger] raw@[j]),
        decreases n - i,
    {
        let b = raw[i];
        if !((32 <= b && b < 127) || b == 9) {
            assert(!is_text_byte(raw@[i as int]));
            return None;
        }
        out.push(b as char);
        i += 1;
        assert(text.take(i as int) =~= text.take(i - 1).push(b as char));
    }
    assert(text.take(n as int) =~= text);
    Some(out)
}

/// The first range that a header names: what stands between the unit and the first comma,
/// trimmed, parted at its first hyphen.
pub open spec fn first_range(s: Seq<char>) -> Option<(Seq<char>, Seq<char>)> {
    let t = s.skip(6);
    let first = trim(t.take(index_of(t, ',')));
    let k = index_of(first, '-');
    if starts_with(s, "bytes="@) && k < first.len() {
        Some((first.take(k), first.skip(k + 1)))
    } else {
        None
    }
}

/// The last `n` bytes of `total`, or all of them.
pub open spec fn suffix_range(n: nat, total: u64) -> ByteRange {
    ByteRange {
        start: if n < total {
            (total - n) as u64
        } else {
            0
        },
        end: (total - 1) as u64,
    }
}

/// What a header asks for of a resource of `total` bytes.
pub open spec fn range_asked(s: Seq<char>, total: u64) -> Result<ByteRange, RangeError> {
    match first_range(s) {
        None => Err(RangeError::Malformed),
        Some((from, to)) => if from.len() == 0 {
            match parse_up_to(to, u64::MAX as nat) {
                None => Err(RangeError::Malformed),
                Some(n) => if n == 0 {
                    Err(RangeError::Unsatisfiable)
                } else {
                    Ok(suffix_range(n, total))
                },
            }
        } else {
            match parse_up_to(from, u64::MAX as nat) {
                None => Err(RangeError::Malformed),
                Some(start) => if start >= total {
                    Err(RangeError::Unsatisfiable)
                } else if to.len() == 0 {
                    Ok(ByteRange { start: start as u64, end: (total - 1) as u64 })
                } else {
                    match parse_up_to(to, u64::MAX as nat) {
                        None => Err(RangeError::Malformed),
                        Some(end) => if end < start {
                            Err(RangeError::Malformed)
                        } else if end < total {
                            Ok(ByteRange { start: start as u64, end: end as u64 })
                        } else {
                            Ok(ByteRange { start: start as u64, end: (total - 1) as u64 })
                        },
                    }
                },
            }
        },
    }
}

/// What a request asks for: all of the resource where it has no range header.
pub open spec fn range_requested(raw: Option<&[u8]>, total: u64) -> Result<ByteRange, RangeError> {
    if total == 0 {
        Err(RangeError::EmptyResource)
    } else {
        match raw {
            None => Ok(ByteRange { start: 0, end: (total - 1) as u64 }),
            Some(h) => match header_text(h@) {
                None => Err(RangeError::Malformed),
                Some(s) => range_asked(s, total),
            },
        }
    }
}

/// Reads a `Range` header against a resource of `total` bytes. Of several ranges the first
/// counts.
pub fn parse_range_header(raw: Option<&[u8]>, total: u64) -> (r: Result<ByteRange, RangeError>)
    ensures
        r == range_requested(raw, total),
        r matches Ok(range) ==> range.within(total),
{
    if total == 0 {
        return Err(RangeError::EmptyResource);
    }
    let last: u64 = total - 1;
    let raw = match raw {
        Some(h) => h,
        None => {
            return Ok(ByteRange { start: 0, end: last });
        },
    };
    let s = match read_header(raw) {
        Some(s) => s,
        None => {
            return Err(RangeError::Malformed);
        },
    };
    if !match_at(&s, &chars_of("bytes="), 0) {
        return Err(RangeError::Malformed);
    }
    proof {
        reveal_strlit("bytes=");
    }
    let comma = find_char(&s, ',', 6);
    let ghost t = s@.skip(6);
    let part = slice_copy(&s, 6, comma);
    assert(part@ =~= t.take(index_of(t, ',')));
    let (a, b) = trim_bounds(&part);
    let first = slice_copy(&part, a, b);
    let dash = find_char(&first, '-', 0);
    assert(first@.skip(0) =~= first@);
    if dash == first.len() {
        return Err(RangeError::Malformed);
    }
    let from = slice_copy(&first, 0, dash);
    let to = slice_copy(&first, dash + 1, first.len());
    assert(from@ =~= first@.take(dash as int));
    assert(to@ =~= first@.skip(dash + 1));
    if from.len() == 0 {
        return match read_number(&to, u64::MAX) {
            None => Err(RangeError::Malformed),
            Some(n) => if n == 0 {
                Err(RangeError::Unsatisfiable)
            } else if n < total {
                Ok(ByteRange { start: total - n, end: last })
            } else {
                Ok(ByteRange { start: 0, end: last })
            },
        };
    }
    let start = match read_number(&from, u64::MAX) {
        None => {
            return Err(RangeError::Malformed);
        },
        Some(start) => start,
    };
    if start >= total {
        return Err(RangeError::Unsatisfiable);
    }
    if to.len() == 0 {
        return Ok(ByteRange { start, end: last });
    }
    match read_number(&to, u64::MAX) {
        None => Err(RangeError::Malformed),
        Some(end) => if end < start {
            Err(RangeError::Malformed)
        } else if end < total {
            Ok(ByteRange { start, end })
        } else {
            Ok(ByteRange { start, end: last })
        },
    }
}

/// A range that is granted lies within the resource and is not empty, and where no header was
/// sent it is the whole.
pub proof fn granted_ranges_are_within(raw: Option<&[u8]>, total: u64, r: ByteRange)
    requires
        range_requested(raw, total) == Ok::<ByteRange, RangeError>(r),
    ensures
        r.within(total),
        raw is None ==> r.start == 0 && r.end == total - 1,
{
}

// ------------------------------------------------------------------- serving
/// What is done when a file of a torrent cannot be opened.
#[derive(Debug, Clone, Copy, PartialEq, Eq, Structural)]
pub enum OpenFailure {
    /// The torrent initializes: wait, and ask again.
    Retry,
    /// Give up, with this HTTP status.
    GiveUp(u16),
}

/// What is done about a failure to open, by what the session says of it.
pub open spec fn open_failure(message: Seq<char>, past_deadline: bool) -> OpenFailure {
    if contains(message, "initializing"@) {
        if past_deadline {
            OpenFailure::GiveUp(503)
        } else {
            OpenFailure::Retry
        }
    } else {
        OpenFailure::GiveUp(404)
    }
}

/// Judges a failure to open, as [`open_failure`].
pub fn judge_open_failure(message: &str, past_deadline: bool) -> (r: OpenFailure)
    ensures
        r == open_failure(message@, past_deadline),
{
    if mentions(message, "initializing") {
        if past_deadline {
            OpenFailure::GiveUp(503)
        } else {
            OpenFailure::Retry
        }
    } else {
        OpenFailure::GiveUp(404)
    }
}

/// How an answer is headed.
#[derive(Debug, Clone)]
pub struct StreamHead {
    pub status: u16,
    pub content_length: u64,
    pub content_range: Option<String>,
    /// How many bytes follow those that were probed.
    pub remaining: u64,
}

/// How a range is named in an answer.
pub open spec fn content_range(r: ByteRange, total: u64) -> Seq<char> {
    "bytes "@ + dec(r.start as nat) + "-"@ + dec(r.end as nat) + "/"@ + dec(total as nat)
}

/// Writes [`content_range`].
pub fn content_range_text(range: &ByteRange, total: u64) -> (r: String)
    ensures
        r@ == content_range(*range, total),
{
    let mut text = "bytes ".to_owned();
    push_dec(&mut text, range.start);
    text.append("-");
    push_dec(&mut text, range.end);
    text.append("/");
    push_dec(&mut text, total);
    text
}

/// `head` heads the answer to a range, behind a probe that gave `probed` bytes; there is none where
/// the probe fell short.
pub open spec fn is_head_of(
    head: Option<StreamHead>,
    range: ByteRange,
    total: u64,
    probed: usize,
) -> bool {
    let len = range.end - range.start + 1;
    let full = range.start == 0 && range.end == total - 1;
    let target = if len < PROBE_BYTES {
        len
    } else {
        PROBE_BYTES as int
    };
    match head {
        None => probed < target,
        Some(h) => {
            &&& probed == target
            &&& h.status == if full {
                200u16
            } else {
                206u16
            }
            &&& h.content_length == len
            &&& h.remaining == len - probed
            &&& match h.content_range {
                None => full,
                Some(text) => !full && text@ == content_range(range, total),
            }
        },
    }
}

/// The head of the answer to a range, behind a probe that gave `probed` bytes; none where the
/// probe fell short.
pub fn stream_head(range: &ByteRange, total: u64, probed: usize) -> (r: Option<StreamHead>)
    requires
        range.within(total),
        probed <= (if range.end - range.start + 1 < PROBE_BYTES {
            range.end - range.start + 1
        } else {
            PROBE_BYTES as int
        }),
    ensures
        is_head_of(r, *range, total, probed),
{
    let len = range.len();
    if !probe_succeeded(probed, compute_probe_target(len)) {
        return None;
    }
    let full = range.is_full(total);
    Some(
        StreamHead {
            status: if full {
                200
            } else {
                206
            },
            content_length: len,
            content_range: if full {
                None
            } else {
                Some(content_range_text(range, total))
            },
            remaining: len - probed as u64,
        },
    )
}

} // verus!

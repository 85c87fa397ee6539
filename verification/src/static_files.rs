//! Serving files over HTTP: which bytes of a file a request gets, and how the answer is headed.
use vstd::prelude::*;

use crate::text::{
    chars_of, find_char, index_of, match_at, parse_up_to, read_number, slice_copy, starts_with,
    trim, trim_chars,
};
use crate::titles::opt_str;
use crate::torrent_stream::{content_range, content_range_text, ByteRange};

verus! {

/// A text read as a number of 64 bits, or another value where it is none.
pub open spec fn number_or(s: Seq<char>, other: u64) -> u64 {
    match parse_up_to(s, u64::MAX as nat) {
        Some(n) => n as u64,
        None => other,
    }
}

/// The lesser of two numbers.
pub open spec fn lesser(a: nat, b: u64) -> u64 {
    if a < b {
        a as u64
    } else {
        b
    }
}

/// The numbers that a header names, the second where there is one: of several ranges those of the
/// first. None where the header is malformed: it is no range, its start is no number, or its end
/// is none or lies before the start.
pub open spec fn numbers_asked(h: Seq<char>) -> Option<(nat, Option<nat>)> {
    let rest = h.skip(6);
    let first = trim(rest.take(index_of(rest, ',')));
    let k = index_of(first, '-');
    let to = trim(first.skip(k + 1));
    if !starts_with(h, "bytes="@) || k >= first.len() {
        None
    } else {
        match (
            parse_up_to(trim(first.take(k)), u64::MAX as nat),
            parse_up_to(to, u64::MAX as nat),
        ) {
            (Some(a), Some(b)) => if a <= b {
                Some((a, Some(b)))
            } else {
                None
            },
            (Some(a), None) => if to.len() == 0 {
                Some((a, None))
            } else {
                None
            },
            _ => None,
        }
    }
}

/// The two ends that a header names, within a file of `total` bytes, of which there is one at
/// least. A range without an end goes to the last byte, and a header that is missing or malformed
/// asks for the whole.
pub open spec fn ends_asked(header: Option<Seq<char>>, total: u64) -> (u64, u64) {
    let last = (total - 1) as u64;
    match header {
        None => (0, last),
        Some(h) => match numbers_asked(h) {
            Some((a, Some(b))) => (lesser(a, last), lesser(b, last)),
            Some((a, None)) => (lesser(a, last), last),
            None => (0, last),
        },
    }
}

/// The two ends that a header names; 0 and 0 in an empty file.
pub open spec fn ends_requested(header: Option<Seq<char>>, total: u64) -> (u64, u64) {
    if total == 0 {
        (0, 0)
    } else {
        ends_asked(header, total)
    }
}

/// Reads a `Range` header against a file, as [`ends_requested`].
pub fn parse_http_range_header(header: Option<&str>, total_size: u64) -> (r: (u64, u64))
    ensures
        r == ends_requested(opt_str(header), total_size),
        total_size > 0 ==> r.0 <= r.1 < total_size,
{
    if total_size == 0 {
        return (0, 0);
    }
    let last: u64 = total_size - 1;
    let h = match header {
        Some(h) => chars_of(h),
        None => {
            return (0, last);
        },
    };
    if !match_at(&h, &chars_of("bytes="), 0) {
        return (0, last);
    }
    proof {
        reveal_strlit("bytes=");
    }
    let comma = find_char(&h, ',', 6);
    let part = slice_copy(&h, 6, comma);
    assert(part@ =~= h@.skip(6).take(index_of(h@.skip(6), ',')));
    let first = trim_chars(&part);
    assert(first@.skip(0) =~= first@);
    let dash = find_char(&first, '-', 0);
    if dash == first.len() {
        return (0, last);
    }
    let left = slice_copy(&first, 0, dash);
    let right = slice_copy(&first, dash + 1, first.len());
    assert(left@ =~= first@.take(dash as int));
    assert(right@ =~= first@.skip(dash + 1));
    let from = trim_chars(&left);
    let to = trim_chars(&right);
    let start: u64 = match read_number(&from, u64::MAX) {
        Some(n) => n,
        None => {
            return (0, last);
        },
    };
    let end: u64 = match read_number(&to, u64::MAX) {
        Some(n) => n,
        None => {
            if to.len() > 0 {
                return (0, last);
            }
            u64::MAX
        },
    };
    if end < start {
        return (0, last);
    }
    (
        if start < last {
            start
        } else {
            last
        },
        if end < last {
            end
        } else {
            last
        },
    )
}

/// How an answer with a file is headed.
#[derive(Debug)]
pub struct FileHead {
    pub status: u16,
    pub start: u64,
    pub content_length: u64,
    pub content_range: Option<String>,
}

/// `head` heads the answer to a request for a file of so many bytes.
pub open spec fn is_file_head(head: FileHead, header: Option<Seq<char>>, total: u64) -> bool {
    let (start, end) = ends_requested(header, total);
    &&& head.start == start
    &&& head.content_length == if total == 0 {
        0
    } else {
        end - start + 1
    }
    &&& match header {
        Some(_) => head.status == 206 && (head.content_range matches Some(text) && text@
            == content_range((ByteRange { start, end }), total)),
        None => head.status == 200 && head.content_range is None,
    }
}

/// Heads the answer to a request for a file: the part that the header asks for, or the whole. The
/// length is that of what is sent, which is nothing of an empty file.
pub fn file_head(header: Option<&str>, total_size: u64) -> (r: FileHead)
    ensures
        is_file_head(r, opt_str(header), total_size),
        r.start + r.content_length <= total_size,
{
    let (start, end) = parse_http_range_header(header, total_size);
    let content_length: u64 = if total_size == 0 {
        0
    } else {
        end - start + 1
    };
    if header.is_some() {
        FileHead {
            status: 206,
            start,
            content_length,
            content_range: Some(content_range_text(&ByteRange { start, end }, total_size)),
        }
    } else {
        FileHead { status: 200, start, content_length, content_range: None }
    }
}

/// The offset that a header asks a growing file from: that of an open range, else 0.
pub open spec fn offset_asked(header: Option<Seq<char>>) -> u64 {
    match header {
        Some(h) => {
            let rest = h.skip(6);
            let k = index_of(rest, '-');
            if starts_with(h, "bytes="@) && k + 1 == rest.len() {
                number_or(rest.take(k), 0)
            } else {
                0
            }
        },
        None => 0,
    }
}

/// Reads [`offset_asked`]. A range with an end is not honoured: the file has none yet.
pub fn parse_range_start(range_header: Option<&str>) -> (r: u64)
    ensures
        r == offset_asked(opt_str(range_header)),
{
    let h = match range_header {
        Some(h) => chars_of(h),
        None => {
            return 0;
        },
    };
    if !match_at(&h, &chars_of("bytes="), 0) {
        return 0;
    }
    proof {
        reveal_strlit("bytes=");
    }
    let n: usize = h.len();
    let dash = find_char(&h, '-', 6);
    if dash == n || dash + 1 < n {
        return 0;
    }
    let start = slice_copy(&h, 6, dash);
    assert(start@ =~= h@.skip(6).take(dash - 6));
    match read_number(&start, u64::MAX) {
        Some(v) => v,
        None => 0,
    }
}

/// Where in a growing file a stream begins: at the offset asked for, where the file has come
/// that far, else at its beginning.
pub open spec fn start_in(offset: u64, file_len: Option<u64>) -> u64 {
    match file_len {
        Some(len) => if offset <= len {
            offset
        } else {
            0
        },
        None => 0,
    }
}

/// Gives [`start_in`].
pub fn stream_start(offset: u64, file_len: Option<u64>) -> (r: u64)
    ensures
        r == start_in(offset, file_len),
{
    match file_len {
        Some(len) => if offset <= len {
            offset
        } else {
            0
        },
        None => 0,
    }
}

/// How often a file that is about to be written is looked for again.
pub const FILE_LOOKS: u32 = 30;

/// A file that is not there yet is waited for, until it was looked for often enough.
pub open spec fn is_awaited(exists: bool, looks: u32) -> bool {
    !exists && looks < FILE_LOOKS
}

/// Decides [`is_awaited`].
pub fn await_file(exists: bool, looks: u32) -> (r: bool)
    ensures
        r == is_awaited(exists, looks),
{
    !exists && looks < FILE_LOOKS
}

/// What is to be done after a read of a growing file.
#[derive(Debug, Clone, Copy, PartialEq, Eq, Structural)]
pub enum TailStep {
    /// Send what was read.
    Send,
    /// Look again a little later.
    Wait,
    /// The file has come to its end.
    End,
}

/// How a growing file is followed: what was read is sent; at its end it is waited for more for as
/// long as it is being written, however long that is.
pub open spec fn step_behind(read: usize, writer_alive: bool) -> TailStep {
    if read > 0 {
        TailStep::Send
    } else if writer_alive {
        TailStep::Wait
    } else {
        TailStep::End
    }
}

/// Decides [`step_behind`].
pub fn tail_step(read: usize, writer_alive: bool) -> (r: TailStep)
    ensures
        r == step_behind(read, writer_alive),
{
    if read > 0 {
        TailStep::Send
    } else if writer_alive {
        TailStep::Wait
    } else {
        TailStep::End
    }
}

} // verus!

//! Source positions: byte ranges, line and column arithmetic, and the lines
//! and snippets they select.

use vstd::prelude::*;
use vstd::string::*;
use vstd::utf8::*;

use crate::text::{decimal, decimal_string, repeat, repeated};

verus! {

/// Number of line feeds among the first `k` bytes.
pub open spec fn line_feeds(bytes: Seq<u8>, k: int) -> nat
    decreases k,
{
    if k <= 0 {
        0
    } else {
        line_feeds(bytes, k - 1) + if bytes[k - 1] == 10u8 {
            1nat
        } else {
            0nat
        }
    }
}

/// Index at which the line that holds position `k` begins: just after the
/// last line feed before `k`, or 0.
pub open spec fn line_start(bytes: Seq<u8>, k: int) -> int
    decreases k,
{
    if k <= 0 {
        0
    } else if bytes[k - 1] == 10u8 {
        k
    } else {
        line_start(bytes, k - 1)
    }
}

/// Index of the first line feed at or after `k`, or the length of the text.
pub open spec fn line_end(bytes: Seq<u8>, k: int) -> int
    decreases bytes.len() - k,
{
    if k < 0 || k >= bytes.len() {
        bytes.len() as int
    } else if bytes[k] == 10u8 {
        k
    } else {
        line_end(bytes, k + 1)
    }
}

/// Number of characters whose first byte lies in `lo..hi`.
pub open spec fn chars_between(bytes: Seq<u8>, lo: int, hi: int) -> nat
    decreases hi - lo,
{
    if hi <= lo {
        0
    } else {
        chars_between(bytes, lo, hi - 1) + if is_continuation_byte(bytes[hi - 1]) {
            0nat
        } else {
            1nat
        }
    }
}

/// An offset, held to the length of the text.
pub open spec fn clamped(bytes: Seq<u8>, offset: int) -> int {
    if offset < bytes.len() {
        offset
    } else {
        bytes.len() as int
    }
}

/// 1-based line of a byte offset.
pub open spec fn line_of(bytes: Seq<u8>, offset: int) -> nat {
    1 + line_feeds(bytes, clamped(bytes, offset))
}

/// 1-based column of a byte offset, counted in characters.
pub open spec fn column_of(bytes: Seq<u8>, offset: int) -> nat {
    let k = clamped(bytes, offset);
    1 + chars_between(bytes, line_start(bytes, k), k)
}

/// Where the text of the line that holds `k` stops: at its line feed, or one
/// earlier when a carriage return precedes that line feed.
pub open spec fn line_text_end(bytes: Seq<u8>, k: int) -> int {
    let begin = line_start(bytes, k);
    let stop = line_end(bytes, k);
    if stop < bytes.len() && begin < stop && bytes[stop - 1] == 13u8 {
        stop - 1
    } else {
        stop
    }
}

/// The bytes of the line that holds a byte offset, without its line ending.
pub open spec fn line_bytes(bytes: Seq<u8>, offset: int) -> Seq<u8> {
    let k = clamped(bytes, offset);
    bytes.subrange(line_start(bytes, k), line_text_end(bytes, k))
}

/// The bytes a range selects, its end held to the length of the text.
pub open spec fn snippet_bytes(bytes: Seq<u8>, start: int, end: int) -> Seq<u8> {
    bytes.subrange(start, clamped(bytes, end))
}

/// The line start never lies behind the position it is asked for, and no
/// line feed stands between the two.
pub proof fn lemma_line_start_bounds(bytes: Seq<u8>, k: int)
    requires
        0 <= k <= bytes.len(),
    ensures
        0 <= line_start(bytes, k) <= k,
        line_start(bytes, k) > 0 ==> bytes[line_start(bytes, k) - 1] == 10u8,
        forall|j: int| line_start(bytes, k) <= j < k ==> bytes[j] != 10u8,
    decreases k,
{
    if k > 0 && bytes[k - 1] != 10u8 {
        lemma_line_start_bounds(bytes, k - 1);
    }
}

/// The line end lies between the position and the end of the text, on a
/// line feed unless it is the end of the text.
pub proof fn lemma_line_end_bounds(bytes: Seq<u8>, k: int)
    requires
        0 <= k <= bytes.len(),
    ensures
        k <= line_end(bytes, k) <= bytes.len(),
        line_end(bytes, k) < bytes.len() ==> bytes[line_end(bytes, k)] == 10u8,
        forall|j: int| k <= j < line_end(bytes, k) ==> bytes[j] != 10u8,
    decreases bytes.len() - k,
{
    if k < bytes.len() && bytes[k] != 10u8 {
        lemma_line_end_bounds(bytes, k + 1);
    }
}

/// The place shown in a diagnostic's header: one `line:col` where the range
/// stays on one line, both ends otherwise.
pub open spec fn location_text(line: nat, col: nat, end_line: nat, end_col: nat) -> Seq<char> {
    if line == end_line {
        decimal(line) + ":"@ + decimal(col)
    } else {
        decimal(line) + ":"@ + decimal(col) + "-"@ + decimal(end_line) + ":"@ + decimal(end_col)
    }
}

/// Number of carets under a range: one per selected character, at least one.
pub open spec fn underline_len(bytes: Seq<u8>, start: int, end: int) -> nat {
    let marked = decode_utf8(snippet_bytes(bytes, start, end)).len();
    if marked < 1 {
        1
    } else {
        marked
    }
}

/// The source-anchored block for a message about the range `start..end`:
/// header, an empty gutter line, the line of context under its number, the
/// caret underline below the range's first column, and the message.
pub open spec fn rendered(
    file: Seq<char>,
    bytes: Seq<u8>,
    start: int,
    end: int,
    message: Seq<char>,
) -> Seq<char> {
    let line = line_of(bytes, start);
    let col = column_of(bytes, start);
    let number = decimal(line);
    let pad = repeated(" "@, number.len());
    pad + " --> "@ + file + ":"@ + location_text(
        line,
        col,
        line_of(bytes, end),
        column_of(bytes, end),
    ) + "\n"@ + pad + " |\n"@ + number + " | "@ + decode_utf8(line_bytes(bytes, start)) + "\n"@
        + pad + " | "@ + repeated(" "@, (col - 1) as nat) + repeated(
        "^"@,
        underline_len(bytes, start, end),
    ) + "\n"@ + pad + " | "@ + message + "\n"@
}

/// A byte range of the source text.
#[derive(Debug, PartialEq, Eq, Clone, Copy)]
pub struct Span {
    start: usize,
    end: usize,
}

impl Span {
    #[verifier::type_invariant]
    spec fn ordered(self) -> bool {
        self.start <= self.end
    }

    pub closed spec fn spec_start(self) -> usize {
        self.start
    }

    pub closed spec fn spec_end(self) -> usize {
        self.end
    }

    /// The span from `start` to `end`.
    pub closed spec fn spec_new(start: usize, end: usize) -> Span {
        Span { start, end }
    }

    pub fn new(start: usize, end: usize) -> (span: Span)
        requires
            start <= end,
        ensures
            span == Span::spec_new(start, end),
            span.spec_start() == start,
            span.spec_end() == end,
    {
        Span { start, end }
    }

    /// Line and column, both 1-based, of a byte offset in `source`.
    pub fn offset_to_location(source: &str, offset: usize) -> (at: (usize, usize))
        requires
            source.spec_bytes().len() < usize::MAX,
        ensures
            at.0 == line_of(source.spec_bytes(), offset as int),
            at.1 == column_of(source.spec_bytes(), offset as int),
    {
        let bytes = source.as_bytes();
        let stop: usize = if offset < bytes.len() {
            offset
        } else {
            bytes.len()
        };
        let mut line: usize = 1;
        let mut col: usize = 1;
        let mut i: usize = 0;
        while i < stop
            invariant
                i <= stop <= bytes@.len() < usize::MAX,
                line == 1 + line_feeds(bytes@, i as int),
                col == 1 + chars_between(bytes@, line_start(bytes@, i as int), i as int),
                0 <= line_start(bytes@, i as int) <= i,
                line + col <= i + 2,
            decreases stop - i,
        {
            let b: u8 = bytes[i];
            if b == 10 {
                line += 1;
                col = 1;
            } else if !(b >= 0x80 && b <= 0xbf) {
                col += 1;
            }
            i += 1;
        }
        (line, col)
    }

    /// Line and column of the start position.
    pub fn start_location(&self, source: &str) -> (at: (usize, usize))
        requires
            source.spec_bytes().len() < usize::MAX,
        ensures
            at.0 == line_of(source.spec_bytes(), self.spec_start() as int),
            at.1 == column_of(source.spec_bytes(), self.spec_start() as int),
    {
        Self::offset_to_location(source, self.start)
    }

    /// Line and column of the end position.
    pub fn end_location(&self, source: &str) -> (at: (usize, usize))
        requires
            source.spec_bytes().len() < usize::MAX,
        ensures
            at.0 == line_of(source.spec_bytes(), self.spec_end() as int),
            at.1 == column_of(source.spec_bytes(), self.spec_end() as int),
    {
        Self::offset_to_location(source, self.end)
    }

    /// Line and column of the span; the same as `start_location`.
    pub fn location(&self, source: &str) -> (at: (usize, usize))
        requires
            source.spec_bytes().len() < usize::MAX,
        ensures
            at.0 == line_of(source.spec_bytes(), self.spec_start() as int),
            at.1 == column_of(source.spec_bytes(), self.spec_start() as int),
    {
        self.start_location(source)
    }

    /// A 1-based line or column as the 0-based number a language-server
    /// client counts with: cut to its low 32 bits, then lowered by one,
    /// never below zero.
    pub open spec fn spec_zero_based(number: usize) -> u32 {
        let cut = number as u32;
        if cut == 0 {
            0
        } else {
            (cut - 1) as u32
        }
    }

    pub fn zero_based(number: usize) -> (index: u32)
        ensures
            index == Self::spec_zero_based(number),
    {
        let cut: u32 = #[verifier::truncate]
        (number as u32);
        if cut == 0 {
            0
        } else {
            cut - 1
        }
    }

    /// The span as a pair of 0-based (line, column) positions, start and
    /// end.
    pub fn protocol_range(&self, source: &str) -> (range: ((u32, u32), (u32, u32)))
        requires
            source.spec_bytes().len() < usize::MAX,
        ensures
            range.0.0 == Self::spec_zero_based(
                line_of(source.spec_bytes(), self.spec_start() as int) as usize,
            ),
            range.0.1 == Self::spec_zero_based(
                column_of(source.spec_bytes(), self.spec_start() as int) as usize,
            ),
            range.1.0 == Self::spec_zero_based(
                line_of(source.spec_bytes(), self.spec_end() as int) as usize,
            ),
            range.1.1 == Self::spec_zero_based(
                column_of(source.spec_bytes(), self.spec_end() as int) as usize,
            ),
    {
        let start = self.start_location(source);
        let end = self.end_location(source);
        (
            (Self::zero_based(start.0), Self::zero_based(start.1)),
            (Self::zero_based(end.0), Self::zero_based(end.1)),
        )
    }

    /// Whether the span selects whole characters of `source`.
    pub open spec fn fits(self, bytes: Seq<u8>) -> bool {
        &&& self.spec_start() <= bytes.len()
        &&& is_char_boundary(bytes, self.spec_start() as int)
        &&& is_char_boundary(bytes, clamped(bytes, self.spec_end() as int))
    }

    /// Tells whether `snippet` can be taken from `source`.
    pub fn is_within(&self, source: &str) -> (ok: bool)
        ensures
            ok == self.fits(source.spec_bytes()),
    {
        let len = source.as_bytes().len();
        let stop: usize = if self.end < len {
            self.end
        } else {
            len
        };
        self.start <= len && source.is_char_boundary(self.start) && source.is_char_boundary(stop)
    }

    /// The text the span selects.
    pub fn snippet<'a>(&self, source: &'a str) -> (text: &'a str)
        requires
            self.fits(source.spec_bytes()),
        ensures
            text.spec_bytes() == snippet_bytes(
                source.spec_bytes(),
                self.spec_start() as int,
                self.spec_end() as int,
            ),
    {
        broadcast use encode_utf8_valid_utf8;

        proof {
            use_type_invariant(self);
        }
        let len = source.as_bytes().len();
        let stop: usize = if self.end < len {
            self.end
        } else {
            len
        };
        let (head, _) = source.split_at(stop);
        proof {
            let all = source.spec_bytes();
            let front = head.spec_bytes();
            assert(valid_utf8(all));
            assert(valid_utf8(front));
            if self.start == stop {
                is_char_boundary_start_end_of_seq(front);
            } else {
                is_char_boundary_iff_not_is_continuation_byte(all, self.start as int);
                is_char_boundary_iff_not_is_continuation_byte(front, self.start as int);
            }
        }
        let (_, text) = head.split_at(self.start);
        assert(text.spec_bytes() =~= source.spec_bytes().subrange(
            self.start as int,
            stop as int,
        ));
        text
    }

    /// The line that holds the span's start, without its line ending.
    pub fn get_line<'a>(&self, source: &'a str) -> (line: &'a str)
        ensures
            line.spec_bytes() == line_bytes(source.spec_bytes(), self.spec_start() as int),
    {
        broadcast use encode_utf8_valid_utf8;

        let bytes = source.as_bytes();
        let len = bytes.len();
        let k: usize = if self.start < len {
            self.start
        } else {
            len
        };
        let mut begin: usize = k;
        while begin > 0 && bytes[begin - 1] != 10
            invariant
                begin <= k <= len == bytes@.len(),
                line_start(bytes@, k as int) == line_start(bytes@, begin as int),
            decreases begin,
        {
            begin -= 1;
        }
        let mut stop: usize = k;
        while stop < len && bytes[stop] != 10
            invariant
                k <= stop <= len == bytes@.len(),
                line_end(bytes@, k as int) == line_end(bytes@, stop as int),
            decreases len - stop,
        {
            stop += 1;
        }
        if stop < len && begin < stop && bytes[stop - 1] == 13 {
            stop -= 1;
        }
        assert(begin == line_start(bytes@, k as int));
        assert(stop == line_text_end(bytes@, k as int));
        let rest: &str = if begin == 0 {
            source
        } else {
            proof {
                is_char_boundary_iff_not_is_continuation_byte(bytes@, begin - 1);
            }
            let (_, tail) = source.split_at(begin - 1);
            proof {
                assert(tail.spec_bytes()[0] == 10u8);
                assert(valid_utf8(tail.spec_bytes()));
                reveal_with_fuel(is_char_boundary, 2);
                assert(is_char_boundary(tail.spec_bytes(), 1));
            }
            let (_, after) = tail.split_at(1);
            after
        };
        assert(rest.spec_bytes() =~= bytes@.subrange(begin as int, len as int));
        proof {
            let tail = rest.spec_bytes();
            assert(valid_utf8(tail));
            if stop == len {
                is_char_boundary_start_end_of_seq(tail);
            } else {
                assert(tail[stop - begin] == bytes@[stop as int]);
                is_char_boundary_iff_not_is_continuation_byte(tail, stop - begin);
            }
        }
        let (line, _) = rest.split_at(stop - begin);
        assert(line.spec_bytes() =~= bytes@.subrange(begin as int, stop as int));
        line
    }

    /// Where the span starts; never behind its end.
    pub fn start(&self) -> (at: usize)
        ensures
            at == self.spec_start(),
            at <= self.spec_end(),
    {
        proof {
            use_type_invariant(self);
        }
        self.start
    }

    /// Where the span ends; never before its start.
    pub fn end(&self) -> (at: usize)
        ensures
            at == self.spec_end(),
            at >= self.spec_start(),
    {
        proof {
            use_type_invariant(self);
        }
        self.end
    }
    /// Renders `error_msg` as a block anchored at the span in `source`,
    /// which was read from `file`.
    pub fn format_error(&self, file: &str, source: &str, error_msg: &str) -> (block: String)
        requires
            source.spec_bytes().len() < usize::MAX,
            self.fits(source.spec_bytes()),
        ensures
            block@ == rendered(
                file@,
                source.spec_bytes(),
                self.spec_start() as int,
                self.spec_end() as int,
                error_msg@,
            ),
    {
        broadcast use encode_utf8_decode_utf8;

        let (start_line, start_col) = self.start_location(source);
        let (end_line, end_col) = self.end_location(source);
        let error_line = self.get_line(source);
        let snippet = self.snippet(source);
        let marked = snippet.unicode_len();
        let underline: usize = if marked < 1 {
            1
        } else {
            marked
        };
        let number = decimal_string(start_line);
        let pad = repeat(" ", number.as_str().unicode_len());
        let mut location = decimal_string(start_line);
        location.append(":");
        location.append(decimal_string(start_col).as_str());
        if start_line != end_line {
            location.append("-");
            location.append(decimal_string(end_line).as_str());
            location.append(":");
            location.append(decimal_string(end_col).as_str());
        }
        assert(snippet@ == decode_utf8(snippet.spec_bytes()));
        assert(error_line@ == decode_utf8(error_line.spec_bytes()));
        let mut block = pad.clone();
        block.append(" --> ");
        block.append(file);
        block.append(":");
        block.append(location.as_str());
        block.append("\n");
        block.append(pad.as_str());
        block.append(" |\n");
        block.append(number.as_str());
        block.append(" | ");
        block.append(error_line);
        block.append("\n");
        block.append(pad.as_str());
        block.append(" | ");
        block.append(repeat(" ", start_col - 1).as_str());
        block.append(repeat("^", underline).as_str());
        block.append("\n");
        block.append(pad.as_str());
        block.append(" | ");
        block.append(error_msg);
        block.append("\n");
        block
    }
}

} // verus!

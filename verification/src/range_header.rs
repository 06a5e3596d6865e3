//! The `Range` request header of a video resource request, and the
//! partial-content answer that one range asks for.
use vstd::prelude::*;

use crate::consts::CHUNK_SIZE;
use crate::text::{
    char_views, decimal, digits_value, free_of, is_digit, lemma_decimal_digits, lemma_decimal_free,
    lemma_parse_decimal, lemma_split_nonempty, lemma_split_three, parse_u64, parse_unsigned,
    push_char, push_decimal, push_str, split, split_chars, str_eq, string_of,
};

verus! {

/// A parsed `Range` header: the unit and the inclusive byte range.
pub struct RangeHeader {
    pub unit: String,
    pub start: u64,
    pub end: u64,
}

/// Why a `Range` header was refused.
#[derive(Clone, Copy, PartialEq, Eq, Structural, Debug)]
pub enum RangeHeaderError {
    /// The header holds neither `=` nor `-`.
    InvalidRangeHeader,
}

/// Whether a header byte is visible ASCII or a tab, the bytes that a
/// header value must consist of to be read as text.
pub open spec fn is_visible_ascii(b: u8) -> bool {
    (32 <= b && b < 127) || b == 9
}

/// Whether every byte of a header value is visible ASCII or a tab.
pub open spec fn all_visible_ascii(h: Seq<u8>) -> bool {
    forall|i: int| 0 <= i < h.len() ==> #[trigger] is_visible_ascii(h[i])
}

/// The text of a header value whose bytes are all ASCII.
pub open spec fn header_text(h: Seq<u8>) -> Seq<char> {
    h.map_values(|b: u8| b as char)
}

/// The characters at which a `Range` header is split.
pub open spec fn range_separators() -> Seq<char> {
    seq!['=', '-']
}

/// The pieces of a `Range` header between its `=` and `-` characters.
pub open spec fn range_parts(h: Seq<u8>) -> Seq<Seq<char>> {
    split(header_text(h), range_separators())
}

/// The value of a piece read as an unsigned 64-bit number.
pub open spec fn parse_piece(p: Seq<char>) -> Option<nat> {
    parse_unsigned(p, u64::MAX as nat)
}

/// Whether a split header has no (or an empty) end position, so that the
/// range extends over one chunk from its start.
pub open spec fn open_ended(parts: Seq<Seq<char>>) -> bool {
    parts.len() < 3 || parts[2].len() == 0
}

/// The smaller of two numbers.
pub open spec fn min_nat(a: nat, b: nat) -> nat {
    if a <= b {
        a
    } else {
        b
    }
}

/// The inputs on which reading a `Range` header completes: the bytes are
/// text, and when the header has a position part, the positions are
/// numbers, the file is not empty, and the end of an open range fits in
/// 64 bits.
pub open spec fn range_parse_defined(h: Seq<u8>, size: u64) -> bool {
    &&& all_visible_ascii(h)
    &&& range_parts(h).len() >= 2 ==> {
        let parts = range_parts(h);
        &&& parse_piece(parts[1]) is Some
        &&& size >= 1
        &&& if open_ended(parts) {
            parse_piece(parts[1]).unwrap() + CHUNK_SIZE - 1 <= u64::MAX
        } else {
            parse_piece(parts[2]) is Some
        }
    }
}

/// What a `Range` header denotes for a file of `size` bytes: `None` when it
/// has fewer than two parts, else the unit, the start, and the end: the
/// given end, or one chunk past the start, never beyond the last byte.
pub open spec fn range_parse_spec(h: Seq<u8>, size: u64) -> Option<(Seq<char>, nat, nat)> {
    let parts = range_parts(h);
    if parts.len() < 2 {
        None
    } else {
        let start = parse_piece(parts[1]).unwrap();
        let last = (size - 1) as nat;
        let end = if open_ended(parts) {
            min_nat((start + CHUNK_SIZE - 1) as nat, last)
        } else {
            min_nat(parse_piece(parts[2]).unwrap(), last)
        };
        Some((parts[0], start, end))
    }
}

/// The text of a header value, byte by byte.
fn header_chars(h: &[u8]) -> (v: Vec<char>)
    requires
        all_visible_ascii(h@),
    ensures
        v@ == header_text(h@),
{
    let n = h.len();
    let mut v: Vec<char> = Vec::new();
    let mut i: usize = 0;
    while i < n
        invariant
            n == h@.len(),
            i <= n,
            v@ == header_text(h@.take(i as int)),
        decreases n - i,
    {
        let c: char = h[i] as char;
        v.push(c);
        i += 1;
        assert(header_text(h@.take(i as int)) =~= header_text(h@.take((i - 1) as int)).push(c));
    }
    assert(h@.take(n as int) =~= h@);
    v
}

/// The separators of a `Range` header as a vector.
fn separators() -> (v: Vec<char>)
    ensures
        v@ == range_separators(),
{
    let mut v: Vec<char> = Vec::new();
    v.push('=');
    v.push('-');
    assert(v@ =~= range_separators());
    v
}

impl RangeHeader {
    /// Whether `parse` completes on this header value and file size
    /// (see `range_parse_defined`).
    pub fn is_parsable(range: &[u8], size: u64) -> (r: bool)
        ensures
            r == range_parse_defined(range@, size),
    {
        let n = range.len();
        let mut i: usize = 0;
        while i < n
            invariant
                n == range@.len(),
                i <= n,
                forall|j: int| 0 <= j < i ==> #[trigger] is_visible_ascii(range@[j]),
            decreases n - i,
        {
            let b = range[i];
            if !((32 <= b && b < 127) || b == 9) {
                assert(!is_visible_ascii(range@[i as int]));
                return false;
            }
            i += 1;
        }
        let text = header_chars(range);
        let seps = separators();
        let parts = split_chars(&text, &seps);
        assert(char_views(parts@) == range_parts(range@));
        if parts.len() < 2 {
            return true;
        }
        assert(parts@[1]@ == range_parts(range@)[1]);
        let start = match parse_u64(&parts[1]) {
            Some(v) => v,
            None => {
                return false;
            },
        };
        if size < 1 {
            return false;
        }
        if parts.len() < 3 || parts[2].len() == 0 {
            start <= u64::MAX - (CHUNK_SIZE as u64 - 1)
        } else {
            assert(parts@[2]@ == range_parts(range@)[2]);
            match parse_u64(&parts[2]) {
                Some(_) => true,
                None => false,
            }
        }
    }

    /// Reads a `Range` header value such as `bytes=0-1023` for a file of
    /// `size` bytes. Fails when the value holds neither `=` nor `-`.
    pub fn parse(range: &[u8], size: u64) -> (r: Result<RangeHeader, RangeHeaderError>)
        requires
            range_parse_defined(range@, size),
        ensures
            match r {
                Ok(h) => range_parse_spec(range@, size) == Some(
                    (h.unit@, h.start as nat, h.end as nat),
                ),
                Err(e) => range_parse_spec(range@, size) is None && e
                    == RangeHeaderError::InvalidRangeHeader,
            },
    {
        let text = header_chars(range);
        let seps = separators();
        let parts = split_chars(&text, &seps);
        proof {
            lemma_split_nonempty(header_text(range@), range_separators());
        }
        assert(char_views(parts@) == range_parts(range@));
        if parts.len() < 2 {
            return Err(RangeHeaderError::InvalidRangeHeader);
        }
        assert(parts@[0]@ == range_parts(range@)[0]);
        assert(parts@[1]@ == range_parts(range@)[1]);
        let unit = string_of(&parts[0]);
        let start: u64 = match parse_u64(&parts[1]) {
            Some(v) => v,
            None => {
                assert(false);
                0
            },
        };
        let last: u64 = size - 1;
        let end: u64 = if parts.len() < 3 || parts[2].len() == 0 {
            let chunk_end = start + (CHUNK_SIZE as u64 - 1);
            if chunk_end <= last {
                chunk_end
            } else {
                last
            }
        } else {
            assert(parts@[2]@ == range_parts(range@)[2]);
            let given: u64 = match parse_u64(&parts[2]) {
                Some(v) => v,
                None => {
                    assert(false);
                    0
                },
            };
            if given <= last {
                given
            } else {
                last
            }
        };
        Ok(RangeHeader { unit, start, end })
    }

    /// The answer to this range for a file of `size` bytes: `None` when the
    /// unit is not `bytes` (a bad request); otherwise the first byte, the
    /// last byte, the number of bytes, and the `Content-Range` value
    /// `bytes {start}-{end}/{size}`.
    pub fn partial_content(&self, size: u64) -> (r: Option<PartialContent>)
        requires
            self.unit@ == "bytes"@ ==> self.start <= self.end && self.end - self.start < u64::MAX,
        ensures
            r is None <==> self.unit@ != "bytes"@,
            r matches Some(p) ==> {
                &&& p.start == self.start
                &&& p.end == self.end
                &&& p.content_length == self.end - self.start + 1
                &&& p.content_range@ == content_range_text(
                    self.start as nat,
                    self.end as nat,
                    size as nat,
                )
            },
    {
        if !str_eq(self.unit.as_str(), "bytes") {
            return None;
        }
        let content_length = self.end - self.start + 1;
        let mut content_range = String::new();
        push_str(&mut content_range, "bytes ");
        push_decimal(&mut content_range, self.start);
        push_char(&mut content_range, '-');
        push_decimal(&mut content_range, self.end);
        push_char(&mut content_range, '/');
        push_decimal(&mut content_range, size);
        Some(PartialContent { start: self.start, end: self.end, content_length, content_range })
    }
}

/// A parsed range never ends past the last byte of the file, and a range
/// without a given end covers at most one chunk from its start.
pub proof fn lemma_range_within_file(h: Seq<u8>, size: u64)
    requires
        range_parse_defined(h, size),
        range_parse_spec(h, size) is Some,
    ensures
        ({
            let (unit, start, end) = range_parse_spec(h, size).unwrap();
            &&& end < size
            &&& open_ended(range_parts(h)) ==> end + 1 <= start + CHUNK_SIZE
        }),
{
}

/// A header `{unit}={start}-` for a file of `size` bytes reads as that unit
/// and start, and ends one chunk past the start or at the last byte of the
/// file, whichever comes first; a start inside the file never lies past
/// the end. A header `{unit}={start}-{end}` ends at the given end or at the
/// last byte, whichever comes first.
pub proof fn lemma_range_of_text(h: Seq<u8>, size: u64, unit: Seq<char>, start: nat, end: nat)
    requires
        free_of(unit, range_separators()),
        start <= u64::MAX,
        end <= u64::MAX,
        size >= 1,
    ensures
        header_text(h) == unit + seq!['='] + decimal(start) + seq!['-'] ==> {
            let last = (size - 1) as nat;
            let chunk_end = (start + CHUNK_SIZE - 1) as nat;
            &&& range_parse_spec(h, size) matches Some((u, s, e))
            &&& u == unit
            &&& s == start
            &&& e == if chunk_end <= last {
                chunk_end
            } else {
                last
            }
            &&& start < size ==> s <= e
        },
        header_text(h) == unit + seq!['='] + decimal(start) + seq!['-'] + decimal(end) ==> {
            let last = (size - 1) as nat;
            &&& range_parse_spec(h, size) matches Some((u, s, e))
            &&& u == unit
            &&& s == start
            &&& e == if end <= last {
                end
            } else {
                last
            }
        },
{
    let seps = range_separators();
    assert(seps.contains('=')) by {
        assert(seps[0] == '=');
    }
    assert(seps.contains('-')) by {
        assert(seps[1] == '-');
    }
    assert(forall|i: int| 0 <= i < seps.len() ==> !is_digit(#[trigger] seps[i]));
    lemma_decimal_free(start, seps);
    lemma_decimal_free(end, seps);
    lemma_parse_decimal(start, u64::MAX as nat);
    lemma_parse_decimal(end, u64::MAX as nat);
    lemma_decimal_digits(end);
    assert(free_of(Seq::<char>::empty(), seps));
    if header_text(h) == unit + seq!['='] + decimal(start) + seq!['-'] {
        lemma_split_three(unit, '=', decimal(start), '-', Seq::empty(), seps);
        assert(unit + seq!['='] + decimal(start) + seq!['-'] + Seq::<char>::empty() =~= unit
            + seq!['='] + decimal(start) + seq!['-']);
        assert(range_parts(h) == seq![unit, decimal(start), Seq::<char>::empty()]);
        assert(open_ended(range_parts(h)));
    }
    if header_text(h) == unit + seq!['='] + decimal(start) + seq!['-'] + decimal(end) {
        lemma_split_three(unit, '=', decimal(start), '-', decimal(end), seps);
        assert(range_parts(h) == seq![unit, decimal(start), decimal(end)]);
        assert(!open_ended(range_parts(h)));
    }
}

/// The `Content-Range` text reads back as its parts: it begins with
/// `bytes `, and the rest splits at `-` and `/` into the decimal start, end
/// and size, which parse as those numbers.
pub proof fn lemma_content_range_reads_back(start: nat, end: nat, size: nat)
    requires
        start <= u64::MAX,
        end <= u64::MAX,
        size <= u64::MAX,
    ensures
        ({
            let t = content_range_text(start, end, size);
            let pieces = split(t.skip(6), seq!['-', '/']);
            &&& t.take(6) == "bytes "@
            &&& pieces.len() == 3
            &&& parse_unsigned(pieces[0], u64::MAX as nat) == Some(start)
            &&& parse_unsigned(pieces[1], u64::MAX as nat) == Some(end)
            &&& parse_unsigned(pieces[2], u64::MAX as nat) == Some(size)
        }),
{
    reveal_strlit("bytes ");
    let seps = seq!['-', '/'];
    assert(seps.contains('-')) by {
        assert(seps[0] == '-');
    }
    assert(seps.contains('/')) by {
        assert(seps[1] == '/');
    }
    assert(forall|i: int| 0 <= i < seps.len() ==> !is_digit(#[trigger] seps[i]));
    lemma_decimal_free(start, seps);
    lemma_decimal_free(end, seps);
    lemma_decimal_free(size, seps);
    lemma_parse_decimal(start, u64::MAX as nat);
    lemma_parse_decimal(end, u64::MAX as nat);
    lemma_parse_decimal(size, u64::MAX as nat);
    let t = content_range_text(start, end, size);
    let rest = decimal(start) + seq!['-'] + decimal(end) + seq!['/'] + decimal(size);
    assert(t == "bytes "@ + rest);
    assert(t.take(6) =~= "bytes "@);
    assert(t.skip(6) =~= rest);
    lemma_split_three(decimal(start), '-', decimal(end), '/', decimal(size), seps);
}

/// The `Content-Range` value `bytes {start}-{end}/{size}`.
pub open spec fn content_range_text(start: nat, end: nat, size: nat) -> Seq<char> {
    "bytes "@ + decimal(start) + seq!['-'] + decimal(end) + seq!['/'] + decimal(size)
}

/// The part of a file that one range request answers with.
pub struct PartialContent {
    pub start: u64,
    pub end: u64,
    pub content_length: u64,
    pub content_range: String,
}

} // verus!

//! HTTP range source: header parsing and the decisions of ranged reads.

use vstd::prelude::*;
use vstd::string::{StringExecFns, StringSliceAdditionalSpecFns};

use crate::error::{ErrorKind, IoError, Reason};
use crate::text::{decimal, digit_chars_value, lemma_decimal_denotes, push_decimal};

verus! {

/// `s` consists of ASCII decimal digits only.
pub open spec fn all_digits(s: Seq<u8>) -> bool {
    forall|i: int| 0 <= i < s.len() ==> 48 <= #[trigger] s[i] <= 57
}

/// The number that the decimal digits `s` denote.
pub open spec fn digits_value(s: Seq<u8>) -> nat
    decreases s.len(),
{
    if s.len() == 0 {
        0
    } else {
        digits_value(s.drop_last()) * 10 + (s.last() - 48) as nat
    }
}

/// What `usize::from_str` gives for the bytes `s`: an optional `+` followed
/// by at least one decimal digit, denoting a value that fits in `usize`.
pub open spec fn parse_usize_spec(s: Seq<u8>) -> Option<usize> {
    if s.len() > 0 && s[0] == 43 {
        parse_digits_spec(s.drop_first())
    } else {
        parse_digits_spec(s)
    }
}

/// The value of a non-empty digit string that fits in `usize`.
pub open spec fn parse_digits_spec(d: Seq<u8>) -> Option<usize> {
    if d.len() > 0 && all_digits(d) && digits_value(d) <= usize::MAX {
        Some(digits_value(d) as usize)
    } else {
        None
    }
}

/// `i` is the first position of `c` in `s`.
pub open spec fn is_first_index(s: Seq<u8>, c: u8, i: int) -> bool {
    &&& 0 <= i < s.len()
    &&& s[i] == c
    &&& forall|k: int| 0 <= k < i ==> #[trigger] s[k] != c
}

/// What `split_once(c)` gives: the parts before and after the first `c`.
pub open spec fn split_once_spec(s: Seq<u8>, c: u8) -> Option<(Seq<u8>, Seq<u8>)> {
    if exists|i: int| is_first_index(s, c, i) {
        let i = choose|i: int| is_first_index(s, c, i);
        Some((s.take(i), s.skip(i + 1)))
    } else {
        None
    }
}

/// The bytes of `"bytes "`, the unit prefix of a `Content-Range` value.
pub open spec fn bytes_unit_prefix() -> Seq<u8> {
    seq![98u8, 121u8, 116u8, 101u8, 115u8, 32u8]
}

/// What a `Content-Range` value `bytes START-END/TOTAL` denotes: the first
/// and last byte positions and the total length, which is `None` for `*`.
/// Malformed values and ranges that end before they start give `None`.
pub open spec fn content_range_spec(b: Seq<u8>) -> Option<(usize, usize, Option<usize>)> {
    if b.len() < 6 || b.take(6) != bytes_unit_prefix() {
        None
    } else {
        match split_once_spec(b.skip(6), 47) {
            None => None,
            Some((range, total)) => match split_once_spec(range, 45) {
                None => None,
                Some((start, end)) => match (parse_usize_spec(start), parse_usize_spec(end)) {
                    (Some(start), Some(end)) => {
                        if end < start {
                            None
                        } else if total == seq![42u8] {
                            Some((start, end, None))
                        } else {
                            match parse_usize_spec(total) {
                                Some(t) => Some((start, end, Some(t))),
                                None => None,
                            }
                        }
                    },
                    _ => None,
                },
            },
        }
    }
}

proof fn lemma_first_index_unique(s: Seq<u8>, c: u8, i: int, j: int)
    requires
        is_first_index(s, c, i),
        is_first_index(s, c, j),
    ensures
        i == j,
{
}

/// A prefix of a digit string never denotes more than the whole string.
proof fn lemma_digits_prefix_le(s: Seq<u8>, k: int)
    requires
        0 <= k <= s.len(),
    ensures
        digits_value(s.take(k)) <= digits_value(s),
    decreases s.len(),
{
    if k < s.len() {
        assert(s.drop_last().take(k) =~= s.take(k));
        lemma_digits_prefix_le(s.drop_last(), k);
    } else {
        assert(s.take(k) =~= s);
    }
}

/// Finds the first `c` in `b[lo..hi]`.
fn find_byte(b: &[u8], lo: usize, hi: usize, c: u8) -> (r: Option<usize>)
    requires
        lo <= hi <= b@.len(),
    ensures
        match r {
            Some(k) => lo <= k < hi && is_first_index(b@.subrange(lo as int, hi as int), c, k - lo),
            None => forall|k: int| lo <= k < hi ==> #[trigger] b@[k] != c,
        },
{
    let mut k = lo;
    while k < hi
        invariant
            lo <= k <= hi <= b@.len(),
            forall|j: int| lo <= j < k ==> #[trigger] b@[j] != c,
        decreases hi - k,
    {
        if b[k] == c {
            proof {
                let s = b@.subrange(lo as int, hi as int);
                assert(forall|j: int| 0 <= j < k - lo ==> #[trigger] s[j] != c);
            }
            return Some(k);
        }
        k = k + 1;
    }
    None
}

/// The split of `b[lo..hi]` at its first `c`, in terms of positions in `b`.
proof fn lemma_split_found(b: Seq<u8>, lo: int, hi: int, c: u8, k: int)
    requires
        0 <= lo <= k < hi <= b.len(),
        is_first_index(b.subrange(lo, hi), c, k - lo),
    ensures
        split_once_spec(b.subrange(lo, hi), c) == Some(
            (b.subrange(lo, k), b.subrange(k + 1, hi)),
        ),
{
    let s = b.subrange(lo, hi);
    let i = choose|i: int| is_first_index(s, c, i);
    lemma_first_index_unique(s, c, i, k - lo);
}

proof fn lemma_split_missing(b: Seq<u8>, lo: int, hi: int, c: u8)
    requires
        0 <= lo <= hi <= b.len(),
        forall|k: int| lo <= k < hi ==> #[trigger] b[k] != c,
    ensures
        split_once_spec(b.subrange(lo, hi), c) is None,
{
}

/// Parses `b[lo..hi]` as `usize::from_str` does.
fn parse_usize_bytes(b: &[u8], lo: usize, hi: usize) -> (r: Option<usize>)
    requires
        lo <= hi <= b@.len(),
    ensures
        r == parse_usize_spec(b@.subrange(lo as int, hi as int)),
{
    let ghost s = b@.subrange(lo as int, hi as int);
    let mut start = lo;
    if lo < hi && b[lo] == 43u8 {
        start = lo + 1;
    }
    let ghost d = b@.subrange(start as int, hi as int);
    proof {
        if lo < hi && b@[lo as int] == 43 {
            assert(s.drop_first() =~= d);
        }
    }
    if start == hi {
        return None;
    }
    let mut acc: usize = 0;
    let mut k = start;
    while k < hi
        invariant
            start <= k <= hi <= b@.len(),
            d == b@.subrange(start as int, hi as int),
            d.len() > 0,
            parse_usize_spec(b@.subrange(lo as int, hi as int)) == parse_digits_spec(d),
            all_digits(b@.subrange(start as int, k as int)),
            acc == digits_value(b@.subrange(start as int, k as int)),
        decreases hi - k,
    {
        let ch = b[k];
        proof {
            let p = b@.subrange(start as int, k as int);
            let p2 = b@.subrange(start as int, k + 1);
            assert(p2.drop_last() =~= p);
            assert(d.take(k + 1 - start) =~= p2);
        }
        if ch < 48u8 || ch > 57u8 {
            proof {
                assert(d[k - start] == ch);
            }
            return None;
        }
        let digit = (ch - 48u8) as usize;
        let next = match acc.checked_mul(10) {
            Some(t) => t.checked_add(digit),
            None => None,
        };
        match next {
            Some(v) => {
                acc = v;
            },
            None => {
                proof {
                    if all_digits(d) {
                        lemma_digits_prefix_le(d, k + 1 - start);
                    }
                }
                return None;
            },
        }
        k = k + 1;
        proof {
            let p2 = b@.subrange(start as int, k as int);
            assert(forall|i: int| 0 <= i < p2.len() ==> 48 <= #[trigger] p2[i] <= 57);
        }
    }
    Some(acc)
}

/// Parses a `Content-Range` header value of the form `bytes START-END/TOTAL`.
///
/// Returns the first and last byte positions and the total length (`None`
/// when the total is `*`); malformed values and ranges whose end precedes
/// their start give `None`.
pub fn parse_content_range(value: &str) -> (r: Option<(usize, usize, Option<usize>)>)
    ensures
        r == content_range_spec(value.spec_bytes()),
{
    let b = value.as_bytes();
    let ghost bs = b@;
    if b.len() < 6 {
        return None;
    }
    if !(b[0] == 98u8 && b[1] == 121u8 && b[2] == 116u8 && b[3] == 101u8 && b[4] == 115u8 && b[5]
        == 32u8) {
        return None;
    }
    proof {
        assert(bs.take(6) =~= bytes_unit_prefix());
    }
    let n = b.len();
    let slash = match find_byte(b, 6, n, 47u8) {
        Some(k) => k,
        None => {
            proof {
                lemma_split_missing(bs, 6, n as int, 47);
            }
            return None;
        },
    };
    proof {
        lemma_split_found(bs, 6, n as int, 47, slash as int);
    }
    let dash = match find_byte(b, 6, slash, 45u8) {
        Some(k) => k,
        None => {
            proof {
                lemma_split_missing(bs, 6, slash as int, 45);
            }
            return None;
        },
    };
    proof {
        lemma_split_found(bs, 6, slash as int, 45, dash as int);
    }
    let start = match parse_usize_bytes(b, 6, dash) {
        Some(v) => v,
        None => return None,
    };
    let end = match parse_usize_bytes(b, dash + 1, slash) {
        Some(v) => v,
        None => return None,
    };
    if end < start {
        return None;
    }
    let ghost total = bs.subrange(slash + 1, n as int);
    if n - slash == 2 && b[slash + 1] == 42u8 {
        proof {
            assert(total =~= seq![42u8]);
        }
        return Some((start, end, None));
    }
    match parse_usize_bytes(b, slash + 1, n) {
        Some(t) => Some((start, end, Some(t))),
        None => None,
    }
}

/// The ASCII decimal representation of `n`, without leading zeros.
pub open spec fn decimal_bytes(n: nat) -> Seq<u8>
    decreases n,
{
    if n < 10 {
        seq![(48 + n) as u8]
    } else {
        decimal_bytes(n / 10).push((48 + n % 10) as u8)
    }
}

/// The decimal representation of a number is a non-empty digit string that
/// denotes the number.
pub proof fn lemma_decimal_bytes(n: nat)
    ensures
        decimal_bytes(n).len() > 0,
        all_digits(decimal_bytes(n)),
        digits_value(decimal_bytes(n)) == n,
    decreases n,
{
    let d = decimal_bytes(n);
    if n >= 10 {
        lemma_decimal_bytes(n / 10);
        assert(d.drop_last() =~= decimal_bytes(n / 10));
        assert forall|i: int| 0 <= i < d.len() implies 48 <= #[trigger] d[i] <= 57 by {
            if i < d.len() - 1 {
                assert(d[i] == decimal_bytes(n / 10)[i]);
            }
        }
        assert(d.last() == (48 + n % 10) as u8);
        assert(d.last() - 48 == n % 10);
        assert(n == (n / 10) * 10 + n % 10);
        assert(digits_value(d) == digits_value(d.drop_last()) * 10 + (d.last() - 48) as nat);
    } else {
        assert(d.drop_last() =~= Seq::<u8>::empty());
        assert(d.last() - 48 == n);
        assert(digits_value(d) == digits_value(d.drop_last()) * 10 + (d.last() - 48) as nat);
    }
}

/// A digit string contains neither separator of a `Content-Range` value.
proof fn lemma_digits_have_no_separator(d: Seq<u8>, c: u8)
    requires
        all_digits(d),
        c < 48 || c > 57,
    ensures
        forall|k: int| 0 <= k < d.len() ==> #[trigger] d[k] != c,
{
}

/// Splitting `a + [c] + rest` at its first `c`, when `a` holds no `c`,
/// gives `a` and `rest`.
proof fn lemma_split_concat(a: Seq<u8>, c: u8, rest: Seq<u8>)
    requires
        forall|k: int| 0 <= k < a.len() ==> #[trigger] a[k] != c,
    ensures
        split_once_spec(a + seq![c] + rest, c) == Some((a, rest)),
{
    let s = a + seq![c] + rest;
    let n = a.len() as int;
    assert forall|k: int| 0 <= k < n implies #[trigger] s[k] != c by {
        assert(s[k] == a[k]);
    }
    assert(s[n] == c);
    assert(is_first_index(s, c, n));
    let i = choose|i: int| is_first_index(s, c, i);
    lemma_first_index_unique(s, c, i, n);
    assert(s.take(n) =~= a);
    assert(s.skip(n + 1) =~= rest);
}

/// The decimal representation of a `usize` parses back to it.
pub proof fn lemma_parse_decimal(n: usize)
    ensures
        parse_usize_spec(decimal_bytes(n as nat)) == Some(n),
{
    lemma_decimal_bytes(n as nat);
}

/// A `Content-Range` value of the form `bytes FIRST-LAST/TOTAL` written with
/// decimal numbers parses back to those numbers, with `*` as the total
/// giving no total, as long as the range does not end before it starts.
pub proof fn lemma_content_range_roundtrip(first: usize, last: usize, total: usize)
    requires
        first <= last,
    ensures
        content_range_spec(
            bytes_unit_prefix() + decimal_bytes(first as nat) + seq![45u8] + decimal_bytes(last as nat)
                + seq![47u8] + decimal_bytes(total as nat),
        ) == Some((first, last, Some(total))),
        content_range_spec(
            bytes_unit_prefix() + decimal_bytes(first as nat) + seq![45u8] + decimal_bytes(last as nat)
                + seq![47u8] + seq![42u8],
        ) == Some((first, last, None::<usize>)),
{
    let d1 = decimal_bytes(first as nat);
    let d2 = decimal_bytes(last as nat);
    let d3 = decimal_bytes(total as nat);
    lemma_decimal_bytes(first as nat);
    lemma_decimal_bytes(last as nat);
    lemma_decimal_bytes(total as nat);
    lemma_parse_decimal(first);
    lemma_parse_decimal(last);
    lemma_parse_decimal(total);
    lemma_digits_have_no_separator(d1, 45);
    lemma_digits_have_no_separator(d1, 47);
    lemma_digits_have_no_separator(d2, 47);
    let range = d1 + seq![45u8] + d2;
    assert forall|k: int| 0 <= k < range.len() implies #[trigger] range[k] != 47u8 by {
        if k < d1.len() {
            assert(range[k] == d1[k]);
        } else if k > d1.len() {
            assert(range[k] == d2[k - d1.len() - 1]);
        }
    }
    lemma_split_concat(d1, 45, d2);
    let tails = seq![d3, seq![42u8]];
    assert forall|t: int| 0 <= t < 2 implies {
        let b = bytes_unit_prefix() + d1 + seq![45u8] + d2 + seq![47u8] + #[trigger] tails[t];
        &&& b.take(6) == bytes_unit_prefix()
        &&& b.skip(6) == range + seq![47u8] + tails[t]
    } by {
        let b = bytes_unit_prefix() + d1 + seq![45u8] + d2 + seq![47u8] + tails[t];
        assert(b.take(6) =~= bytes_unit_prefix());
        assert(b.skip(6) =~= range + seq![47u8] + tails[t]);
    }
    lemma_split_concat(range, 47, d3);
    lemma_split_concat(range, 47, seq![42u8]);
    assert(tails[0] == d3);
    assert(tails[1] == seq![42u8]);
    if d3 == seq![42u8] {
        assert(d3[0] == 42u8);
    }
}

/// The bytes of the ASCII text `s`.
pub open spec fn ascii_bytes(s: Seq<char>) -> Seq<u8> {
    s.map_values(|c: char| c as u8)
}

/// Digit characters, taken as bytes, are digit bytes with the same value.
proof fn lemma_digit_chars_as_bytes(s: Seq<char>)
    requires
        forall|i: int| 0 <= i < s.len() ==> 48 <= #[trigger] (s[i] as int) <= 57,
    ensures
        all_digits(ascii_bytes(s)),
        digits_value(ascii_bytes(s)) == digit_chars_value(s),
    decreases s.len(),
{
    let b = ascii_bytes(s);
    assert forall|i: int| 0 <= i < b.len() implies 48 <= #[trigger] b[i] <= 57 by {
        assert(b[i] == s[i] as u8);
        assert(s[i] as u8 == s[i] as int);
    }
    if s.len() > 0 {
        let t = s.drop_last();
        assert forall|i: int| 0 <= i < t.len() implies 48 <= #[trigger] (t[i] as int) <= 57 by {
            assert(t[i] == s[i]);
        }
        lemma_digit_chars_as_bytes(t);
        assert(b.drop_last() =~= ascii_bytes(t));
        assert(b.last() == s.last() as u8);
        assert(s.last() as u8 == s.last() as int);
    }
}

/// The decimal text of a number, the form that `range_header` writes,
/// parses back to that number: a `Range` header asks for exactly the byte
/// positions it was built from.
pub proof fn lemma_decimal_text_parses_back(n: usize)
    ensures
        parse_usize_spec(ascii_bytes(decimal(n as nat))) == Some(n),
{
    lemma_decimal_denotes(n as nat);
    lemma_digit_chars_as_bytes(decimal(n as nat));
    let b = ascii_bytes(decimal(n as nat));
    assert(48 <= b[0] <= 57);
}

/// Parses a header value as `usize::from_str` does.
pub fn parse_usize(value: &str) -> (r: Option<usize>)
    ensures
        r == parse_usize_spec(value.spec_bytes()),
{
    let b = value.as_bytes();
    proof {
        assert(b@.subrange(0, b@.len() as int) =~= b@);
    }
    parse_usize_bytes(b, 0, b.len())
}

/// The value of a header that may be absent, parsed as a `usize`.
pub open spec fn header_usize(value: Option<&str>) -> Option<usize> {
    match value {
        Some(v) => parse_usize_spec(v.spec_bytes()),
        None => None,
    }
}

/// The `Content-Range` of a header that may be absent.
pub open spec fn header_content_range(value: Option<&str>) -> Option<(usize, usize, Option<usize>)> {
    match value {
        Some(v) => content_range_spec(v.spec_bytes()),
        None => None,
    }
}

fn parse_header_usize(value: Option<&str>) -> (r: Option<usize>)
    ensures
        r == header_usize(value),
{
    match value {
        Some(v) => parse_usize(v),
        None => None,
    }
}

fn parse_header_content_range(value: Option<&str>) -> (r: Option<(usize, usize, Option<usize>)>)
    ensures
        r == header_content_range(value),
{
    match value {
        Some(v) => parse_content_range(v),
        None => None,
    }
}

/// HTTP status: partial content.
pub const STATUS_PARTIAL_CONTENT: u16 = 206;

/// HTTP status: OK.
pub const STATUS_OK: u16 = 200;

/// HTTP status: range not satisfiable.
pub const STATUS_RANGE_NOT_SATISFIABLE: u16 = 416;

/// The request a ranged read of `buffer_len` bytes at `offset` makes.
#[derive(Clone, Copy, Debug, PartialEq, Eq, Structural)]
pub enum RangeRequest {
    /// The buffer is empty: nothing is requested and nothing is read.
    Empty,
    /// Request the bytes `first..=last`.
    Bytes { first: usize, last: usize },
}

/// What to do with the body of a ranged response.
#[derive(Clone, Copy, Debug, PartialEq, Eq, Structural)]
pub enum BodyPlan {
    /// The read is over and read this many bytes.
    Done(usize),
    /// Copy the body into the buffer; when a length was advertised, the body
    /// must have exactly that length.
    Copy { advertised: Option<usize> },
}

/// Plans the request of a ranged read: nothing for an empty buffer, else the
/// inclusive byte range the buffer covers.
pub fn plan_range_request(offset: usize, buffer_len: usize) -> (r: Result<RangeRequest, IoError>)
    ensures
        buffer_len == 0 ==> r == Ok::<RangeRequest, IoError>(RangeRequest::Empty),
        buffer_len > 0 && offset + buffer_len - 1 <= usize::MAX ==> r == Ok::<RangeRequest, IoError>(
            RangeRequest::Bytes { first: offset, last: (offset + buffer_len - 1) as usize },
        ),
        buffer_len > 0 && offset + buffer_len - 1 > usize::MAX ==> r == Err::<RangeRequest, IoError>(
            IoError { kind: ErrorKind::InvalidInput, reason: Reason::RangeEndOverflow },
        ),
{
    if buffer_len == 0 {
        return Ok(RangeRequest::Empty);
    }
    match offset.checked_add(buffer_len - 1) {
        Some(last) => Ok(RangeRequest::Bytes { first: offset, last }),
        None => Err(IoError { kind: ErrorKind::InvalidInput, reason: Reason::RangeEndOverflow }),
    }
}

/// The value of a `Range` header for the bytes `first..=last`.
pub fn range_header(first: usize, last: usize) -> (h: String)
    ensures
        h@ == "bytes="@ + decimal(first as nat) + "-"@ + decimal(last as nat),
{
    let mut h = String::from_str("bytes=");
    push_decimal(&mut h, first);
    h.append("-");
    push_decimal(&mut h, last);
    h
}

/// The outcome of a ranged response, by status.
pub open spec fn range_response_spec(offset: usize, buffer_len: usize, status: u16, content_range: Option<(usize, usize, Option<usize>)>) -> Result<BodyPlan, IoError> {
    if status == STATUS_PARTIAL_CONTENT {
        match content_range {
            None => Err(IoError { kind: ErrorKind::InvalidData, reason: Reason::MalformedContentRange }),
            Some((start, end, _)) => if start != offset {
                Err(
                    IoError {
                        kind: ErrorKind::InvalidData,
                        reason: Reason::RangeStartMismatch { start, expected: offset },
                    },
                )
            } else if end - start + 1 > usize::MAX {
                Err(IoError { kind: ErrorKind::InvalidData, reason: Reason::InvalidContentRangeLength })
            } else if end - start + 1 > buffer_len {
                Err(
                    IoError {
                        kind: ErrorKind::InvalidData,
                        reason: Reason::RangeLongerThanRequest {
                            advertised: (end - start + 1) as usize,
                            requested: buffer_len,
                        },
                    },
                )
            } else {
                Ok(BodyPlan::Copy { advertised: Some((end - start + 1) as usize) })
            },
        }
    } else if status == STATUS_OK && offset == 0 {
        Ok(BodyPlan::Copy { advertised: None })
    } else if status == STATUS_RANGE_NOT_SATISFIABLE {
        Ok(BodyPlan::Done(0))
    } else {
        Err(IoError { kind: ErrorKind::Other, reason: Reason::UnexpectedStatus { status, offset } })
    }
}

/// Decides what a ranged read at `offset` into a buffer of `buffer_len`
/// bytes does with a response of `status` carrying the `Content-Range`
/// header `content_range`: a partial response must start at `offset` and
/// fit the buffer; a full response is usable only at offset 0; an
/// unsatisfiable range reads nothing; any other status fails.
pub fn plan_range_response(offset: usize, buffer_len: usize, status: u16, content_range: Option<&str>) -> (r: Result<BodyPlan, IoError>)
    ensures
        r == range_response_spec(offset, buffer_len, status, header_content_range(content_range)),
{
    if status == STATUS_PARTIAL_CONTENT {
        let (start, end) = match parse_header_content_range(content_range) {
            Some((start, end, _)) => (start, end),
            None => {
                return Err(IoError { kind: ErrorKind::InvalidData, reason: Reason::MalformedContentRange });
            },
        };
        if start != offset {
            return Err(IoError { kind: ErrorKind::InvalidData, reason: Reason::RangeStartMismatch { start, expected: offset } });
        }
        let advertised = match (end - start).checked_add(1) {
            Some(n) => n,
            None => {
                return Err(IoError { kind: ErrorKind::InvalidData, reason: Reason::InvalidContentRangeLength });
            },
        };
        if advertised > buffer_len {
            return Err(IoError {
                kind: ErrorKind::InvalidData,
                reason: Reason::RangeLongerThanRequest { advertised, requested: buffer_len },
            });
        }
        Ok(BodyPlan::Copy { advertised: Some(advertised) })
    } else if status == STATUS_OK && offset == 0 {
        Ok(BodyPlan::Copy { advertised: None })
    } else if status == STATUS_RANGE_NOT_SATISFIABLE {
        Ok(BodyPlan::Done(0))
    } else {
        Err(IoError { kind: ErrorKind::Other, reason: Reason::UnexpectedStatus { status, offset } })
    }
}

/// How a ranged read treats a partial (206) response whose `Content-Range`
/// covers the positions `start..=end`: one that starts elsewhere than the
/// read fails; one that starts at the read's offset and covers no more bytes
/// than the buffer holds is copied, expecting exactly the `end - start + 1`
/// bytes it covers, however few (the tail of an object is shorter than a
/// chunk); only one that covers more bytes than the buffer holds fails.
pub proof fn lemma_partial_response_plan(
    offset: usize,
    buffer_len: usize,
    start: usize,
    end: usize,
    total: Option<usize>,
)
    requires
        start <= end,
    ensures
        start != offset ==> range_response_spec(offset, buffer_len, STATUS_PARTIAL_CONTENT, Some((start, end, total)))
            is Err,
        start == offset && end - start + 1 <= buffer_len ==> range_response_spec(
            offset,
            buffer_len,
            STATUS_PARTIAL_CONTENT,
            Some((start, end, total)),
        ) == Ok::<BodyPlan, IoError>(BodyPlan::Copy { advertised: Some((end - start + 1) as usize) }),
        start == offset && end - start + 1 > buffer_len ==> (range_response_spec(
            offset,
            buffer_len,
            STATUS_PARTIAL_CONTENT,
            Some((start, end, total)),
        ) matches Err(e) && e.kind == ErrorKind::InvalidData),
{
}

/// How a ranged read treats the other statuses: an unsatisfiable range
/// reads nothing, a full (200) response is copied unchecked only for a read
/// at offset 0 and fails elsewhere, and any other status fails.
pub proof fn lemma_other_status_plan(offset: usize, buffer_len: usize, status: u16, content_range: Option<(usize, usize, Option<usize>)>)
    requires
        status != STATUS_PARTIAL_CONTENT,
    ensures
        status == STATUS_RANGE_NOT_SATISFIABLE ==> range_response_spec(offset, buffer_len, status, content_range)
            == Ok::<BodyPlan, IoError>(BodyPlan::Done(0)),
        status == STATUS_OK && offset == 0 ==> range_response_spec(offset, buffer_len, status, content_range)
            == Ok::<BodyPlan, IoError>(BodyPlan::Copy { advertised: None }),
        status == STATUS_OK && offset != 0 ==> range_response_spec(offset, buffer_len, status, content_range) is Err,
        status != STATUS_OK && status != STATUS_RANGE_NOT_SATISFIABLE ==> range_response_spec(
            offset,
            buffer_len,
            status,
            content_range,
        ) is Err,
{
}

/// Checks the number of body bytes copied against the advertised length.
pub fn finish_range_body(advertised: Option<usize>, copied: usize) -> (r: Result<usize, IoError>)
    ensures
        r == (match advertised {
            Some(a) if a != copied => Err(
                IoError {
                    kind: ErrorKind::UnexpectedEof,
                    reason: Reason::BodyLengthMismatch { copied, advertised: a },
                },
            ),
            _ => Ok::<usize, IoError>(copied),
        }),
{
    match advertised {
        Some(a) => {
            if a != copied {
                return Err(IoError { kind: ErrorKind::UnexpectedEof, reason: Reason::BodyLengthMismatch { copied, advertised: a } });
            }
            Ok(copied)
        },
        None => Ok(copied),
    }
}

/// The next step of discovering an object's length.
#[derive(Clone, Copy, Debug, PartialEq, Eq, Structural)]
pub enum LengthProbe {
    /// The length is known.
    Known(usize),
    /// Ask with a `HEAD` request.
    Head,
    /// Ask with a ranged `GET` of the first byte.
    RangedGet,
    /// Read the whole body of the ranged `GET` and count it.
    Body,
    /// No probe revealed the length.
    Unknown,
}

/// A configured length override settles the length without any request.
pub fn length_from_override(len_override: Option<usize>) -> (p: LengthProbe)
    ensures
        p == (match len_override {
            Some(n) => LengthProbe::Known(n),
            None => LengthProbe::Head,
        }),
{
    match len_override {
        Some(n) => LengthProbe::Known(n),
        None => LengthProbe::Head,
    }
}

/// After a `HEAD` request: a successful response with a parseable
/// `Content-Length` settles the length; otherwise fall back to a ranged `GET`.
pub fn length_after_head(succeeded: bool, content_length: Option<&str>) -> (p: LengthProbe)
    ensures
        p == (if succeeded && header_usize(content_length) is Some {
            LengthProbe::Known(header_usize(content_length)->0)
        } else {
            LengthProbe::RangedGet
        }),
{
    if succeeded {
        match parse_header_usize(content_length) {
            Some(n) => {
                return LengthProbe::Known(n);
            },
            None => {},
        }
    }
    LengthProbe::RangedGet
}

/// After the ranged `GET` (`status` is `None` when the request failed): a
/// partial response settles the length by the total of its `Content-Range`;
/// a full response by its `Content-Length`, or else by its body.
pub fn length_after_ranged_get(status: Option<u16>, content_range: Option<&str>, content_length: Option<&str>) -> (p: LengthProbe)
    ensures
        p == (match status {
            Some(s) if s == STATUS_PARTIAL_CONTENT => match header_content_range(content_range) {
                Some((_, _, Some(total))) => LengthProbe::Known(total),
                _ => LengthProbe::Unknown,
            },
            Some(s) if s == STATUS_OK => match header_usize(content_length) {
                Some(n) => LengthProbe::Known(n),
                None => LengthProbe::Body,
            },
            _ => LengthProbe::Unknown,
        }),
{
    match status {
        Some(s) => {
            if s == STATUS_PARTIAL_CONTENT {
                match parse_header_content_range(content_range) {
                    Some((_, _, Some(total))) => LengthProbe::Known(total),
                    _ => LengthProbe::Unknown,
                }
            } else if s == STATUS_OK {
                match parse_header_usize(content_length) {
                    Some(n) => LengthProbe::Known(n),
                    None => LengthProbe::Body,
                }
            } else {
                LengthProbe::Unknown
            }
        },
        None => LengthProbe::Unknown,
    }
}

/// After reading the body (`None` when it could not be read): its length
/// settles the object's length.
pub fn length_after_body(body_len: Option<usize>) -> (p: LengthProbe)
    ensures
        p == (match body_len {
            Some(n) => LengthProbe::Known(n),
            None => LengthProbe::Unknown,
        }),
{
    match body_len {
        Some(n) => LengthProbe::Known(n),
        None => LengthProbe::Unknown,
    }
}

/// The failure reported when no probe revealed the length.
pub fn length_unknown() -> (e: IoError)
    ensures
        e == (IoError { kind: ErrorKind::InvalidData, reason: Reason::LengthUnknown }),
{
    IoError { kind: ErrorKind::InvalidData, reason: Reason::LengthUnknown }
}

/// How an HTTP status code in `100..=999` is displayed: the code followed
/// by its canonical reason.
pub uninterp spec fn status_display(status: u16) -> Seq<char>;

/// The text of a status code in a message: how it is displayed when it is
/// a valid status code, else its decimal form.
pub open spec fn status_label(status: u16) -> Seq<char> {
    if 100 <= status <= 999 {
        status_display(status)
    } else {
        decimal(status as nat)
    }
}

/// The display text of the HTTP status `status`
/// (`reqwest::StatusCode::from_u16`, then its `Display`).
#[verifier::external_body]
pub(crate) fn status_text(status: u16) -> (s: String)
    requires
        100 <= status <= 999,
    ensures
        s@ == status_display(status),
{
    match reqwest::StatusCode::from_u16(status) {
        Ok(code) => code.to_string(),
        Err(_) => String::new(),
    }
}

/// Idle time after which pooled connections are dropped, in seconds.
pub const IDLE_POOL_TIMEOUT_SECS: u64 = 300;

/// Maximum idle connections kept per host.
pub const IDLE_POOL_MAX_SIZE: usize = 32;

/// TCP keep-alive interval, in seconds.
pub const KEEPALIVE_SECS: u64 = 30;

#[verifier::external_type_specification]
#[verifier::external_body]
pub struct ExClient(reqwest::Client);

/// Cloning a client (`<reqwest::Client as Clone>::clone`) yields a handle to
/// the same connection pool; nothing is stated of the result.
pub assume_specification[ <reqwest::Client as Clone>::clone ](client: &reqwest::Client) -> reqwest::Client;

/// Builds an HTTP client with the given pool and keep-alive settings
/// (`reqwest::ClientBuilder::build`); `None` when the builder fails.
///
/// Nothing is stated of the client: it is carried through opaque.
#[verifier::external_body]
fn build_pooled_client(idle_timeout_secs: u64, max_idle_per_host: usize, keepalive_secs: u64) -> Option<reqwest::Client> {
    reqwest::Client::builder()
        .pool_idle_timeout(std::time::Duration::from_secs(idle_timeout_secs))
        .pool_max_idle_per_host(max_idle_per_host)
        .tcp_keepalive(std::time::Duration::from_secs(keepalive_secs))
        .build()
        .ok()
}

/// An HTTP client with default settings (`reqwest::Client::new`).
///
/// Nothing is stated of the client: it is carried through opaque.
#[verifier::external_body]
fn default_client() -> reqwest::Client {
    reqwest::Client::new()
}

/// Reads byte ranges from an HTTP resource.
///
/// Ranged reads issue `GET` requests with a `Range` header; the length comes
/// from an override, `HEAD`'s `Content-Length`, or a one-byte ranged `GET`.
#[derive(Clone, Debug)]
pub struct Reader {
    client: reqwest::Client,
    url: String,
    len_override: Option<usize>,
}

impl Reader {
    /// The source URL.
    pub closed spec fn spec_url(&self) -> Seq<char> {
        self.url@
    }

    /// The configured length override.
    pub closed spec fn spec_len_override(&self) -> Option<usize> {
        self.len_override
    }

    /// Creates a reader for `url` with a long-lived pooled client, so that
    /// sequential range reads reuse connections; falls back to a default
    /// client when the pooled one cannot be built.
    pub fn new(url: &str) -> (r: Self)
        ensures
            r.spec_url() == url@,
            r.spec_len_override() is None,
    {
        let client = match build_pooled_client(IDLE_POOL_TIMEOUT_SECS, IDLE_POOL_MAX_SIZE, KEEPALIVE_SECS) {
            Some(client) => client,
            None => default_client(),
        };
        Reader { client, url: url.to_owned(), len_override: None }
    }

    /// Creates a reader for `url` that uses `client`.
    pub fn with_client(client: reqwest::Client, url: &str) -> (r: Self)
        ensures
            r.spec_client() == client,
            r.spec_url() == url@,
            r.spec_len_override() is None,
    {
        Reader { client, url: url.to_owned(), len_override: None }
    }

    /// This reader, configured with a caller-provided object length.
    pub fn with_len_override(self, len: usize) -> (r: Self)
        ensures
            r.spec_client() == self.spec_client(),
            r.spec_url() == self.spec_url(),
            r.spec_len_override() == Some(len),
    {
        Reader { client: self.client, url: self.url, len_override: Some(len) }
    }

    /// Sets or clears the caller-provided object length.
    pub fn set_len_override(&mut self, len: Option<usize>)
        ensures
            final(self).spec_client() == old(self).spec_client(),
            final(self).spec_url() == old(self).spec_url(),
            final(self).spec_len_override() == len,
    {
        self.len_override = len;
    }

    /// The configured object length override.
    pub fn len_override(&self) -> (r: Option<usize>)
        ensures
            r == self.spec_len_override(),
    {
        self.len_override
    }

    /// The source URL.
    pub fn url(&self) -> (r: &str)
        ensures
            r@ == self.spec_url(),
    {
        self.url.as_str()
    }

    /// The client requests are made with.
    pub closed spec fn spec_client(&self) -> reqwest::Client {
        self.client
    }

    /// The client used for requests.
    pub fn client(&self) -> (c: &reqwest::Client)
        ensures
            *c == self.spec_client(),
    {
        &self.client
    }
}

} // verus!

//! Validation harnesses for downstream reader and writer implementations:
//! the failures they report and the probes they make.

use vstd::prelude::*;
use vstd::string::StringExecFns;

use crate::text::{decimal, hex_list, push_decimal, push_hex_list};

verus! {

/// Structured validation failure returned by the harnesses.
#[derive(Debug, Clone)]
pub struct ValidationError {
    /// Name of the failed check.
    pub check: &'static str,
    /// Offset associated with the failure, when relevant.
    pub offset: Option<usize>,
    /// Chunk size in effect when the failure was detected.
    pub chunk_size: usize,
    /// Expected value summary.
    pub expected: String,
    /// Actual value summary.
    pub actual: String,
}

impl ValidationError {
    /// A validation error with explicit expected and actual values.
    pub fn new(
        check: &'static str,
        offset: Option<usize>,
        chunk_size: usize,
        expected: String,
        actual: String,
    ) -> (e: Self)
        ensures
            e.check == check,
            e.offset == offset,
            e.chunk_size == chunk_size,
            e.expected@ == expected@,
            e.actual@ == actual@,
    {
        ValidationError { check, offset, chunk_size, expected, actual }
    }

    /// A validation error from an I/O failure, described by `err`, and an
    /// expectation; the actual value reads `error: ` followed by `err`.
    pub fn io(check: &'static str, offset: Option<usize>, chunk_size: usize, expected: String, err: &str) -> (e: Self)
        ensures
            e.check == check,
            e.offset == offset,
            e.chunk_size == chunk_size,
            e.expected@ == expected@,
            e.actual@ == "error: "@ + err@,
    {
        let mut actual = String::from_str("error: ");
        actual.append(err);
        Self::new(check, offset, chunk_size, expected, actual)
    }

    /// The one-line description of this failure.
    pub open spec fn description(&self) -> Seq<char> {
        self.check@ + " failed"@ + match self.offset {
            Some(offset) => " at offset "@ + decimal(offset as nat),
            None => Seq::empty(),
        } + " [chunk_size="@ + decimal(self.chunk_size as nat) + ", expected="@ + self.expected@
            + ", actual="@ + self.actual@ + "]"@
    }

    /// Describes this failure in one line: the check, the offset when there
    /// is one, and the chunk size with the expected and actual values.
    pub fn describe(&self) -> (s: String)
        ensures
            s@ == self.description(),
    {
        let mut s = String::from_str(self.check);
        s.append(" failed");
        match self.offset {
            Some(offset) => {
                s.append(" at offset ");
                push_decimal(&mut s, offset);
            },
            None => {},
        }
        let ghost head = s@;
        s.append(" [chunk_size=");
        push_decimal(&mut s, self.chunk_size);
        s.append(", expected=");
        s.append(self.expected.as_str());
        s.append(", actual=");
        s.append(self.actual.as_str());
        s.append("]");
        proof {
            match self.offset {
                Some(offset) => {
                    assert(head =~= self.check@ + " failed"@ + (" at offset "@ + decimal(offset as nat)));
                },
                None => {
                    assert(head =~= self.check@ + " failed"@ + Seq::<char>::empty());
                },
            }
        }
        assert(s@ =~= self.description());
        s
    }
}

/// The compact description of `bs`: its length and its first eight bytes in
/// hexadecimal, with `...` when more follow.
pub open spec fn summary(bs: Seq<u8>) -> Seq<char> {
    if bs.len() == 0 {
        "len=0 []"@
    } else if bs.len() <= 8 {
        "len="@ + decimal(bs.len()) + " ["@ + hex_list(bs) + "]"@
    } else {
        "len="@ + decimal(bs.len()) + " ["@ + hex_list(bs.take(8)) + " ...]"@
    }
}

/// Produces a compact description of a byte slice for validation errors.
pub fn fixture_summary(bytes: &[u8]) -> (s: String)
    ensures
        s@ == summary(bytes@),
{
    if bytes.len() == 0 {
        return String::from_str("len=0 []");
    }
    let mut s = String::from_str("len=");
    push_decimal(&mut s, bytes.len());
    s.append(" [");
    if bytes.len() <= 8 {
        push_hex_list(&mut s, bytes);
        s.append("]");
    } else {
        let head = slice_prefix(bytes, 8);
        push_hex_list(&mut s, head.as_slice());
        s.append(" ...]");
    }
    s
}

/// The same summary as [`fixture_summary`], for observed bytes.
pub fn bytes_summary(bytes: &[u8]) -> (s: String)
    ensures
        s@ == summary(bytes@),
{
    fixture_summary(bytes)
}

/// The first `n` bytes of `bytes`.
fn slice_prefix(bytes: &[u8], n: usize) -> (v: Vec<u8>)
    requires
        n <= bytes@.len(),
    ensures
        v@ == bytes@.take(n as int),
{
    slice_range(bytes, 0, n)
}

/// The bytes `bytes[lo..hi]`.
pub fn slice_range(bytes: &[u8], lo: usize, hi: usize) -> (v: Vec<u8>)
    requires
        lo <= hi <= bytes@.len(),
    ensures
        v@ == bytes@.subrange(lo as int, hi as int),
{
    let mut v: Vec<u8> = Vec::new();
    let mut i = lo;
    while i < hi
        invariant
            lo <= i <= hi <= bytes@.len(),
            v@ == bytes@.subrange(lo as int, i as int),
        decreases hi - i,
    {
        v.push(bytes[i]);
        i = i + 1;
        assert(v@ =~= bytes@.subrange(lo as int, i as int));
    }
    v
}

/// The bytes of `fixture` from `offset` for `len` bytes, cut at its end;
/// empty when `offset` lies past the end.
pub open spec fn expected_window(fixture: Seq<u8>, offset: int, len: int) -> Seq<u8> {
    let end = if offset + len <= fixture.len() {
        offset + len
    } else {
        fixture.len() as int
    };
    if offset <= end {
        fixture.subrange(offset, end)
    } else {
        Seq::empty()
    }
}

/// Summarizes the exact slice that validation expected to observe.
pub fn expected_range_summary(fixture: &[u8], offset: usize, len: usize) -> (s: String)
    requires
        offset + len <= usize::MAX,
    ensures
        s@ == "offset="@ + decimal(offset as nat) + ", "@ + summary(
            expected_window(fixture@, offset as int, len as int),
        ),
{
    let mut end = offset + len;
    if end > fixture.len() {
        end = fixture.len();
    }
    let window = if offset <= end {
        slice_range(fixture, offset, end)
    } else {
        Vec::new()
    };
    let mut s = String::from_str("offset=");
    push_decimal(&mut s, offset);
    s.append(", ");
    let tail = fixture_summary(window.as_slice());
    s.append(tail.as_str());
    s
}

/// The offsets a reader is probed at for a fixture of `fixture_len` bytes
/// and chunks of `chunk_size` bytes: aligned, unaligned, last byte, end of
/// object and beyond.
pub open spec fn probe_candidates(fixture_len: usize, chunk_size: usize) -> Seq<usize> {
    if fixture_len == 0 {
        seq![0usize]
    } else {
        let last = (fixture_len - 1) as usize;
        let below = if chunk_size == 0 {
            0usize
        } else {
            (chunk_size - 1) as usize
        };
        seq![
            0usize,
            if 1 <= last { 1usize } else { last },
            if below <= last { below } else { last },
            if chunk_size <= last { chunk_size } else { last },
            last,
            fixture_len,
            (fixture_len + chunk_size) as usize,
        ]
    }
}

/// `s` strictly increases.
pub open spec fn strictly_increasing(s: Seq<usize>) -> bool {
    forall|i: int, j: int| 0 <= i < j < s.len() ==> #[trigger] s[i] < #[trigger] s[j]
}

/// Inserts `x` into the strictly increasing `v` unless it is already there.
fn insert_sorted_unique(v: &mut Vec<usize>, x: usize)
    requires
        strictly_increasing(old(v)@),
    ensures
        strictly_increasing(final(v)@),
        forall|y: usize| final(v)@.contains(y) <==> (old(v)@.contains(y) || y == x),
{
    let ghost s = v@;
    let mut p: usize = 0;
    while p < v.len() && v[p] < x
        invariant
            p <= v@.len(),
            v@ == s,
            strictly_increasing(s),
            forall|i: int| 0 <= i < p ==> #[trigger] s[i] < x,
        decreases v@.len() - p,
    {
        p = p + 1;
    }
    if p < v.len() && v[p] == x {
        return;
    }
    v.insert(p, x);
    proof {
        let t = v@;
        assert(forall|i: int, j: int| 0 <= i < j < t.len() ==> #[trigger] t[i] < #[trigger] t[j]);
        assert forall|y: usize| t.contains(y) <==> (s.contains(y) || y == x) by {
            if s.contains(y) {
                let i = choose|i: int| 0 <= i < s.len() && s[i] == y;
                if i < p {
                    assert(t[i] == y);
                } else {
                    assert(t[i + 1] == y);
                }
            }
            if y == x {
                assert(t[p as int] == y);
            }
        }
    }
}

/// Builds the deterministic, sorted and duplicate-free set of offsets that
/// exercise aligned, unaligned, end-of-object and beyond-the-end reads.
pub fn make_offsets(fixture_len: usize, chunk_size: usize) -> (offsets: Vec<usize>)
    requires
        fixture_len + chunk_size <= usize::MAX,
    ensures
        strictly_increasing(offsets@),
        forall|x: usize| offsets@.contains(x) <==> probe_candidates(fixture_len, chunk_size).contains(x),
{
    let mut candidates: Vec<usize> = Vec::new();
    candidates.push(0);
    if fixture_len > 0 {
        let last = fixture_len - 1;
        candidates.push(if 1 <= last { 1 } else { last });
        let below = chunk_size.saturating_sub(1);
        candidates.push(if below <= last { below } else { last });
        candidates.push(if chunk_size <= last { chunk_size } else { last });
        candidates.push(last);
        candidates.push(fixture_len);
        candidates.push(fixture_len + chunk_size);
    }
    assert(candidates@ =~= probe_candidates(fixture_len, chunk_size));
    let mut offsets: Vec<usize> = Vec::new();
    let mut i: usize = 0;
    while i < candidates.len()
        invariant
            i <= candidates@.len(),
            strictly_increasing(offsets@),
            forall|x: usize| offsets@.contains(x) <==> candidates@.take(i as int).contains(x),
        decreases candidates@.len() - i,
    {
        insert_sorted_unique(&mut offsets, candidates[i]);
        proof {
            let t = candidates@.take(i + 1);
            assert forall|x: usize| t.contains(x) <==> (candidates@.take(i as int).contains(x) || x == candidates@[i as int]) by {
                if x == candidates@[i as int] {
                    assert(t[i as int] == x);
                }
            }
        }
        i = i + 1;
    }
    assert(candidates@.take(candidates@.len() as int) =~= candidates@);
    offsets
}

/// `e` is the failure of check `check` at `offset` with the given
/// expectation and observation.
pub open spec fn reports(
    e: ValidationError,
    check: &'static str,
    offset: Option<usize>,
    chunk_size: usize,
    expected: Seq<char>,
    actual: Seq<char>,
) -> bool {
    &&& e.check == check
    &&& e.offset == offset
    &&& e.chunk_size == chunk_size
    &&& e.expected@ == expected
    &&& e.actual@ == actual
}

/// `r` is the failure of check `check` at `offset` with the given
/// expectation and observation.
pub open spec fn fails_with(
    r: Result<(), ValidationError>,
    check: &'static str,
    offset: Option<usize>,
    chunk_size: usize,
    expected: Seq<char>,
    actual: Seq<char>,
) -> bool {
    r matches Err(e) && reports(e, check, offset, chunk_size, expected, actual)
}

/// `label` followed by the decimal form of `n`.
pub fn labeled(label: &str, n: usize) -> (s: String)
    ensures
        s@ == label@ + decimal(n as nat),
{
    let mut s = String::from_str(label);
    push_decimal(&mut s, n);
    s
}

/// Whether `a[alo..alo + n]` and `b[blo..blo + n]` hold the same bytes.
pub fn range_equal(a: &[u8], alo: usize, b: &[u8], blo: usize, n: usize) -> (r: bool)
    requires
        alo + n <= a@.len(),
        blo + n <= b@.len(),
    ensures
        r == (a@.subrange(alo as int, alo + n) == b@.subrange(blo as int, blo + n)),
{
    let alen = a.len();
    let blen = b.len();
    let mut i: usize = 0;
    while i < n
        invariant
            i <= n,
            alen == a@.len(),
            blen == b@.len(),
            alo + n <= a@.len(),
            blo + n <= b@.len(),
            a@.subrange(alo as int, alo + i) == b@.subrange(blo as int, blo + i),
        decreases n - i,
    {
        if a[alo + i] != b[blo + i] {
            proof {
                assert(b@.subrange(blo as int, blo + n)[i as int] == b@[blo + i]);
            }
            return false;
        }
        i = i + 1;
    }
    true
}

/// Whether `a` and `b` hold the same bytes.
pub fn bytes_equal(a: &[u8], b: &[u8]) -> (r: bool)
    ensures
        r == (a@ == b@),
{
    if a.len() != b.len() {
        return false;
    }
    let r = range_equal(a, 0, b, 0, a.len());
    assert(a@.subrange(0, a@.len() as int) =~= a@);
    assert(b@.subrange(0, b@.len() as int) =~= b@);
    r
}

/// Rejects a harness configured with a zero chunk size.
pub fn check_harness_config(check: &'static str, chunk_size: usize) -> (r: Result<(), ValidationError>)
    ensures
        chunk_size > 0 ==> r is Ok,
        chunk_size == 0 ==> fails_with(r, check, None, 0, "chunk_size > 0"@, "chunk_size == 0"@),
{
    if chunk_size == 0 {
        return Err(ValidationError::new(check, None, chunk_size, String::from_str("chunk_size > 0"), String::from_str("chunk_size == 0")));
    }
    Ok(())
}

/// Checks the lengths a reader reported three times against the fixture:
/// the first must equal the fixture's length, and all three must agree.
pub fn check_reader_len(fixture: &[u8], chunk_size: usize, len1: usize, len2: usize, len3: usize) -> (r: Result<(), ValidationError>)
    ensures
        len1 != fixture@.len() ==> fails_with(r, "reader len", None, chunk_size, summary(fixture@), "len="@ + decimal(len1 as nat)),
        len1 == fixture@.len() && (len1 != len2 || len2 != len3) ==> fails_with(r,
            "reader len repeatability",
            None,
            chunk_size,
            "len="@ + decimal(len1 as nat),
            "len2="@ + decimal(len2 as nat) + ", "@ + "len3="@ + decimal(len3 as nat),
        ),
        len1 == fixture@.len() && len1 == len2 && len2 == len3 ==> r is Ok,
{
    if len1 != fixture.len() {
        return Err(ValidationError::new("reader len", None, chunk_size, fixture_summary(fixture), labeled("len=", len1)));
    }
    if len1 != len2 || len2 != len3 {
        let mut actual = labeled("len2=", len2);
        actual.append(", ");
        let rest = labeled("len3=", len3);
        actual.append(rest.as_str());
        assert(actual@ =~= "len2="@ + decimal(len2 as nat) + ", "@ + "len3="@ + decimal(len3 as nat));
        return Err(ValidationError::new("reader len repeatability", None, chunk_size, labeled("len=", len1), actual));
    }
    Ok(())
}

/// The buffer sizes each reader probe uses: one byte, one chunk, and a
/// chunk plus three bytes.
pub fn reader_buffer_sizes(chunk_size: usize) -> (sizes: Vec<usize>)
    ensures
        sizes@ == seq![
            1usize,
            if chunk_size == 0 { 1usize } else { chunk_size },
            if chunk_size + 3 > usize::MAX { usize::MAX } else { (chunk_size + 3) as usize },
        ],
{
    let mut sizes = Vec::new();
    sizes.push(1);
    sizes.push(if chunk_size == 0 { 1 } else { chunk_size });
    sizes.push(chunk_size.saturating_add(3));
    assert(sizes@ =~= seq![
        1usize,
        if chunk_size == 0 { 1usize } else { chunk_size },
        if chunk_size + 3 > usize::MAX { usize::MAX } else { (chunk_size + 3) as usize },
    ]);
    sizes
}

/// The number of fixture bytes a read of `buffer_len` bytes at `offset`
/// must return.
pub open spec fn expected_read(fixture_len: int, offset: int, buffer_len: int) -> int {
    if fixture_len - offset <= buffer_len {
        fixture_len - offset
    } else {
        buffer_len
    }
}

/// Checks one direct read: it must report exactly the bytes available
/// (the smaller of the rest of the fixture and the buffer) and copy exactly
/// the fixture's bytes at `offset`.
pub fn check_read_at(fixture: &[u8], chunk_size: usize, offset: usize, read: usize, buffer: &[u8]) -> (r: Result<(), ValidationError>)
    requires
        offset < fixture@.len(),
        offset + buffer@.len() <= usize::MAX,
    ensures
        ({
            let expected = expected_read(fixture@.len() as int, offset as int, buffer@.len() as int);
            &&& read != expected ==> fails_with(r,
                "reader read_at length",
                Some(offset),
                chunk_size,
                "expected_read="@ + decimal(expected as nat),
                "actual_read="@ + decimal(read as nat),
            )
            &&& read == expected && buffer@.take(expected) != fixture@.subrange(offset as int, offset + expected)
                ==> fails_with(r,
                "reader read_at bytes",
                Some(offset),
                chunk_size,
                "offset="@ + decimal(offset as nat) + ", "@ + summary(
                    expected_window(fixture@, offset as int, buffer@.len() as int),
                ),
                summary(buffer@.take(expected)),
            )
            &&& read == expected && buffer@.take(expected) == fixture@.subrange(offset as int, offset + expected)
                ==> r is Ok
        }),
{
    let remaining = fixture.len() - offset;
    let expected = if remaining <= buffer.len() {
        remaining
    } else {
        buffer.len()
    };
    if read != expected {
        return Err(ValidationError::new(
            "reader read_at length",
            Some(offset),
            chunk_size,
            labeled("expected_read=", expected),
            labeled("actual_read=", read),
        ));
    }
    if expected > 0 && !range_equal(buffer, 0, fixture, offset, expected) {
        let observed = slice_range(buffer, 0, expected);
        return Err(ValidationError::new(
            "reader read_at bytes",
            Some(offset),
            chunk_size,
            expected_range_summary(fixture, offset, buffer.len()),
            bytes_summary(observed.as_slice()),
        ));
    }
    proof {
        if expected == 0 {
            assert(buffer@.take(0) =~= fixture@.subrange(offset as int, offset as int));
        }
    }
    Ok(())
}

/// Checks that repeating a read reported the same count and bytes; a
/// repeat that claims more bytes than its buffer holds fails, reported by
/// the count it claimed.
pub fn check_repeat_read(chunk_size: usize, offset: usize, read: usize, buffer: &[u8], repeat_read: usize, repeat: &[u8]) -> (r: Result<(), ValidationError>)
    requires
        read <= buffer@.len(),
    ensures
        repeat_read > repeat@.len() ==> fails_with(r,
            "reader read_at repeatability",
            Some(offset),
            chunk_size,
            summary(buffer@.take(read as int)),
            "read="@ + decimal(repeat_read as nat),
        ),
        repeat_read <= repeat@.len() && (repeat_read != read || repeat@.take(repeat_read as int) != buffer@.take(
            read as int,
        )) ==> fails_with(r,
            "reader read_at repeatability",
            Some(offset),
            chunk_size,
            summary(buffer@.take(read as int)),
            summary(repeat@.take(repeat_read as int)),
        ),
        (repeat_read == read && repeat_read <= repeat@.len() && repeat@.take(repeat_read as int) == buffer@.take(
            read as int,
        )) ==> r is Ok,
{
    if repeat_read > repeat.len() {
        let first = slice_range(buffer, 0, read);
        return Err(ValidationError::new(
            "reader read_at repeatability",
            Some(offset),
            chunk_size,
            bytes_summary(first.as_slice()),
            labeled("read=", repeat_read),
        ));
    }
    let same = repeat_read == read && range_equal(repeat, 0, buffer, 0, read);
    if !same {
        let first = slice_range(buffer, 0, read);
        let again = slice_range(repeat, 0, repeat_read);
        return Err(ValidationError::new(
            "reader read_at repeatability",
            Some(offset),
            chunk_size,
            bytes_summary(first.as_slice()),
            bytes_summary(again.as_slice()),
        ));
    }
    Ok(())
}

/// Checks that a read before the end of the fixture made forward progress.
pub fn check_progress(check: &'static str, offset: Option<usize>, chunk_size: usize, expectation: &str, read: usize) -> (r: Result<(), ValidationError>)
    ensures
        read == 0 ==> fails_with(r, check, offset, chunk_size, expectation@, "read=0"@),
        read != 0 ==> r is Ok,
{
    if read == 0 {
        return Err(ValidationError::new(check, offset, chunk_size, String::from_str(expectation), String::from_str("read=0")));
    }
    Ok(())
}

/// The offsets at and beyond the end of the fixture that reads are probed at.
pub fn eof_offsets(fixture_len: usize, chunk_size: usize) -> (offsets: Vec<usize>)
    ensures
        offsets@ == seq![
            fixture_len,
            if fixture_len + 1 > usize::MAX { usize::MAX } else { (fixture_len + 1) as usize },
            if fixture_len + chunk_size > usize::MAX { usize::MAX } else { (fixture_len + chunk_size) as usize },
        ],
{
    let mut offsets = Vec::new();
    offsets.push(fixture_len);
    offsets.push(fixture_len.saturating_add(1));
    offsets.push(fixture_len.saturating_add(chunk_size));
    assert(offsets@ =~= seq![
        fixture_len,
        if fixture_len + 1 > usize::MAX { usize::MAX } else { (fixture_len + 1) as usize },
        if fixture_len + chunk_size > usize::MAX { usize::MAX } else { (fixture_len + chunk_size) as usize },
    ]);
    offsets
}

/// Checks that a read at or beyond the end of the fixture read nothing.
pub fn check_eof_read(chunk_size: usize, offset: usize, read: usize) -> (r: Result<(), ValidationError>)
    ensures
        read != 0 ==> fails_with(r,
            "reader eof behavior",
            Some(offset),
            chunk_size,
            "read=0 at eof"@,
            "read="@ + decimal(read as nat),
        ),
        read == 0 ==> r is Ok,
{
    if read != 0 {
        return Err(ValidationError::new("reader eof behavior", Some(offset), chunk_size, String::from_str("read=0 at eof"), labeled("read=", read)));
    }
    Ok(())
}

/// Checks that `actual` holds the same bytes as `expected`.
pub fn check_same_bytes(check: &'static str, offset: Option<usize>, chunk_size: usize, expected: &[u8], actual: &[u8]) -> (r: Result<(), ValidationError>)
    ensures
        actual@ != expected@ ==> fails_with(r, check, offset, chunk_size, summary(expected@), summary(actual@)),
        actual@ == expected@ ==> r is Ok,
{
    if !bytes_equal(actual, expected) {
        return Err(ValidationError::new(check, offset, chunk_size, bytes_summary(expected), bytes_summary(actual)));
    }
    Ok(())
}

/// Checks that an extent read back empty.
pub fn check_empty(check: &'static str, offset: Option<usize>, chunk_size: usize, actual: &[u8]) -> (r: Result<(), ValidationError>)
    ensures
        actual@.len() != 0 ==> fails_with(r, check, offset, chunk_size, "empty bytes"@, summary(actual@)),
        actual@.len() == 0 ==> r is Ok,
{
    if actual.len() != 0 {
        return Err(ValidationError::new(check, offset, chunk_size, String::from_str("empty bytes"), bytes_summary(actual)));
    }
    Ok(())
}

/// The bytes a chunk read at `offset` must return: the fixture from the
/// start of the chunk holding `offset`, for `len` bytes, cut at its end.
pub open spec fn expected_chunk(fixture: Seq<u8>, chunk_size: usize, offset: usize, len: usize) -> Seq<u8> {
    let start = offset - offset % chunk_size;
    expected_window(fixture, start, len as int)
}

/// Checks that a chunk read at `offset` returned the fixture bytes of the
/// chunk holding it; the expectation names the window from the chunk start.
pub fn check_chunk_bytes(check: &'static str, fixture: &[u8], chunk_size: usize, offset: usize, chunk: &[u8]) -> (r: Result<(), ValidationError>)
    requires
        chunk_size > 0,
        offset - offset % chunk_size + chunk@.len() <= usize::MAX,
    ensures
        chunk@ != expected_chunk(fixture@, chunk_size, offset, chunk@.len() as usize) ==> fails_with(r,
            check,
            Some(offset),
            chunk_size,
            "offset="@ + decimal((offset - offset % chunk_size) as nat) + ", "@ + summary(
                expected_window(fixture@, offset - offset % chunk_size, chunk@.len() as int),
            ),
            summary(chunk@),
        ),
        chunk@ == expected_chunk(fixture@, chunk_size, offset, chunk@.len() as usize) ==> r is Ok,
{
    proof {
        crate::sparse::lemma_normalized(chunk_size, offset);
    }
    let start = offset - offset % chunk_size;
    let mut end = start + chunk.len();
    if end > fixture.len() {
        end = fixture.len();
    }
    let expected = if start <= end {
        slice_range(fixture, start, end)
    } else {
        Vec::new()
    };
    if !bytes_equal(chunk, expected.as_slice()) {
        return Err(ValidationError::new(check, Some(offset), chunk_size, expected_range_summary(fixture, start, chunk.len()), bytes_summary(chunk)));
    }
    Ok(())
}

/// Checks that serving a chunk from the cache did not read upstream again.
pub fn check_cache_reuse(chunk_size: usize, reads_before: usize, reads_after: usize) -> (r: Result<(), ValidationError>)
    ensures
        reads_after != reads_before ==> fails_with(r,
            "reader sparse cache reuse",
            Some(0),
            chunk_size,
            "upstream_reads="@ + decimal(reads_before as nat),
            "upstream_reads="@ + decimal(reads_after as nat),
        ),
        reads_after == reads_before ==> r is Ok,
{
    if reads_after != reads_before {
        return Err(ValidationError::new(
            "reader sparse cache reuse",
            Some(0),
            chunk_size,
            labeled("upstream_reads=", reads_before),
            labeled("upstream_reads=", reads_after),
        ));
    }
    Ok(())
}

/// `chunk` is a prefix of `fixture`.
pub open spec fn is_prefix_of(chunk: Seq<u8>, fixture: Seq<u8>) -> bool {
    chunk.len() <= fixture.len() && chunk == fixture.take(chunk.len() as int)
}

/// Checks that `chunk` holds the first bytes of the fixture (a chunk longer
/// than the fixture never does); the expectation names the window of
/// `window_len` bytes from the start.
pub fn check_prefix_bytes(check: &'static str, fixture: &[u8], chunk_size: usize, chunk: &[u8], window_len: usize) -> (r: Result<(), ValidationError>)
    ensures
        !is_prefix_of(chunk@, fixture@) ==> fails_with(r,
            check,
            Some(0),
            chunk_size,
            "offset="@ + decimal(0) + ", "@ + summary(expected_window(fixture@, 0, window_len as int)),
            summary(chunk@),
        ),
        is_prefix_of(chunk@, fixture@) ==> r is Ok,
{
    let same = chunk.len() <= fixture.len() && range_equal(chunk, 0, fixture, 0, chunk.len());
    proof {
        assert(chunk@.subrange(0, chunk@.len() as int) =~= chunk@);
    }
    if !same {
        return Err(ValidationError::new(check, Some(0), chunk_size, expected_range_summary(fixture, 0, window_len), bytes_summary(chunk)));
    }
    Ok(())
}

/// The fixture bytes a chunk read at `offset` must return, for a chunk of
/// `len` bytes.
pub fn expected_chunk_bytes(fixture: &[u8], chunk_size: usize, offset: usize, len: usize) -> (v: Vec<u8>)
    requires
        chunk_size > 0,
        offset - offset % chunk_size + len <= usize::MAX,
    ensures
        v@ == expected_chunk(fixture@, chunk_size, offset, len),
{
    proof {
        crate::sparse::lemma_normalized(chunk_size, offset);
    }
    let start = offset - offset % chunk_size;
    let mut end = start + len;
    if end > fixture.len() {
        end = fixture.len();
    }
    if start <= end {
        slice_range(fixture, start, end)
    } else {
        Vec::new()
    }
}

/// The probes a writer is checked with, for a fixture of `fixture_len`
/// bytes and a positive chunk size: the length of the first extent, the
/// offset and length of a disjoint extent, and the offset of a short tail.
#[derive(Clone, Copy, Debug, PartialEq, Eq, Structural)]
pub struct WriterProbes {
    pub first_len: usize,
    pub disjoint_offset: usize,
    pub disjoint_len: usize,
    pub tail_offset: usize,
}

/// The probe layout for a fixture of `fixture_len` bytes and a chunk size
/// of `chunk_size` bytes.
pub open spec fn probes_spec(fixture_len: usize, chunk_size: usize) -> WriterProbes {
    WriterProbes {
        first_len: if fixture_len <= chunk_size { fixture_len } else { chunk_size },
        disjoint_offset: (chunk_size * 2) as usize,
        disjoint_len: if fixture_len == 0 {
            1
        } else if fixture_len <= 4 {
            fixture_len
        } else {
            4
        },
        tail_offset: if fixture_len >= 3 { (fixture_len - 3) as usize } else { 0 },
    }
}

/// Lays out the writer probes: the first extent covers up to one chunk of
/// the fixture; a disjoint extent two chunks in holds up to four fixture
/// bytes (one zero byte for an empty fixture); the tail covers the last
/// three bytes. A chunk size whose double does not fit in `usize` leaves no
/// room for the disjoint extent and fails the harness configuration.
pub fn writer_probes(fixture_len: usize, chunk_size: usize) -> (r: Result<WriterProbes, ValidationError>)
    requires
        chunk_size > 0,
    ensures
        chunk_size * 2 <= usize::MAX ==> r == Ok::<WriterProbes, ValidationError>(probes_spec(fixture_len, chunk_size)),
        chunk_size * 2 > usize::MAX ==> (r matches Err(e) && reports(
            e,
            "writer harness config",
            None,
            chunk_size,
            "chunk_size * 2 <= usize::MAX"@,
            "chunk_size="@ + decimal(chunk_size as nat),
        )),
{
    let disjoint_offset = match chunk_size.checked_mul(2) {
        Some(n) => n,
        None => {
            return Err(ValidationError::new(
                "writer harness config",
                None,
                chunk_size,
                String::from_str("chunk_size * 2 <= usize::MAX"),
                labeled("chunk_size=", chunk_size),
            ));
        },
    };
    let first_len = if fixture_len <= chunk_size { fixture_len } else { chunk_size };
    let disjoint_len = if fixture_len == 0 {
        1
    } else if fixture_len <= 4 {
        fixture_len
    } else {
        4
    };
    Ok(WriterProbes {
        first_len,
        disjoint_offset,
        disjoint_len,
        tail_offset: fixture_len.saturating_sub(3),
    })
}

/// Checks that two repeated reads of an overwritten extent both returned
/// the last write.
pub fn check_stable_reads(chunk_size: usize, offset: usize, written: &[u8], first: &[u8], second: &[u8]) -> (r: Result<(), ValidationError>)
    ensures
        (first@ != second@ || second@ != written@) ==> fails_with(r,
            "writer repeated read stability",
            Some(offset),
            chunk_size,
            summary(written@),
            summary(first@) + ", "@ + summary(second@),
        ),
        (first@ == second@ && second@ == written@) ==> r is Ok,
{
    if !bytes_equal(first, second) || !bytes_equal(second, written) {
        let mut actual = bytes_summary(first);
        actual.append(", ");
        let tail = bytes_summary(second);
        actual.append(tail.as_str());
        return Err(ValidationError::new("writer repeated read stability", Some(offset), chunk_size, bytes_summary(written), actual));
    }
    Ok(())
}

/// Checks that a cached chunk read created no extent and read the store.
pub fn check_writer_cache_reuse(chunk_size: usize, creates_before: usize, reads_before: usize, creates: usize, reads: usize) -> (r: Result<(), ValidationError>)
    ensures
        (creates != creates_before || reads <= reads_before) ==> fails_with(r,
            "writer sparse cache reuse",
            Some(0),
            chunk_size,
            "create_calls="@ + decimal(creates_before as nat) + ", "@ + "read_calls>"@ + decimal(reads_before as nat),
            "create_calls="@ + decimal(creates as nat) + ", "@ + "read_calls="@ + decimal(reads as nat),
        ),
        (creates == creates_before && reads > reads_before) ==> r is Ok,
{
    if creates != creates_before || reads <= reads_before {
        let mut expected = labeled("create_calls=", creates_before);
        expected.append(", ");
        let e2 = labeled("read_calls>", reads_before);
        expected.append(e2.as_str());
        let mut actual = labeled("create_calls=", creates);
        actual.append(", ");
        let a2 = labeled("read_calls=", reads);
        actual.append(a2.as_str());
        assert(expected@ =~= "create_calls="@ + decimal(creates_before as nat) + ", "@ + "read_calls>"@ + decimal(reads_before as nat));
        assert(actual@ =~= "create_calls="@ + decimal(creates as nat) + ", "@ + "read_calls="@ + decimal(reads as nat));
        return Err(ValidationError::new("writer sparse cache reuse", Some(0), chunk_size, expected, actual));
    }
    Ok(())
}

/// Checks that the store's read count did not go backwards.
pub fn check_read_count(chunk_size: usize, before: usize, now: usize) -> (r: Result<(), ValidationError>)
    ensures
        now < before ==> fails_with(r,
            "writer sparse read count",
            None,
            chunk_size,
            "reads>="@ + decimal(before as nat),
            "reads="@ + decimal(now as nat),
        ),
        now >= before ==> r is Ok,
{
    if now < before {
        return Err(ValidationError::new("writer sparse read count", None, chunk_size, labeled("reads>=", before), labeled("reads=", now)));
    }
    Ok(())
}

/// The offsets read concurrently through a writer: the start of the
/// fixture and one chunk in (or its last byte when shorter).
pub fn writer_concurrent_offsets(fixture_len: usize, chunk_size: usize) -> (offsets: Vec<usize>)
    requires
        fixture_len > 0,
    ensures
        ({
            let step = if chunk_size == 0 { 1usize } else { chunk_size };
            offsets@ == seq![0usize, if step <= fixture_len - 1 { step } else { (fixture_len - 1) as usize }]
        }),
{
    let step = if chunk_size == 0 { 1 } else { chunk_size };
    let mut offsets = Vec::new();
    offsets.push(0);
    offsets.push(if step <= fixture_len - 1 { step } else { fixture_len - 1 });
    offsets
}

/// Checks a whole-object read through a viewer: it must read the entire
/// fixture, byte for byte.
pub fn check_viewer_read(check: &'static str, fixture: &[u8], chunk_size: usize, read: usize, buffer: &[u8]) -> (r: Result<(), ValidationError>)
    ensures
        (read != fixture@.len() || buffer@ != fixture@) ==> fails_with(r, check, Some(0), chunk_size, summary(fixture@), summary(buffer@)),
        (read == fixture@.len() && buffer@ == fixture@) ==> r is Ok,
{
    if read != fixture.len() || !bytes_equal(buffer, fixture) {
        return Err(ValidationError::new(check, Some(0), chunk_size, bytes_summary(fixture), bytes_summary(buffer)));
    }
    Ok(())
}

} // verus!

//! Object-store sources: path normalization, capability checks, and the
//! byte range a read asks for.

use vstd::prelude::*;
use vstd::string::{StrSliceExecFns, StringExecFns};

use opendal::Error as OperatorFailure;

use crate::error::{ErrorKind, IoError, Reason};

verus! {

/// Appends segment `seg` to the joined path `out`, unless the segment is
/// empty or `.`; kept segments are separated by `/`.
pub open spec fn keep_segment(out: Seq<char>, seg: Seq<char>) -> Seq<char> {
    if seg.len() == 0 || seg == seq!['.'] {
        out
    } else if out.len() == 0 {
        seg
    } else {
        out + seq!['/'] + seg
    }
}

/// Splitting `s` at each `/`: the joined path of the complete segments so
/// far, and the segment still being read.
pub open spec fn path_scan(s: Seq<char>) -> (Seq<char>, Seq<char>)
    decreases s.len(),
{
    if s.len() == 0 {
        (Seq::empty(), Seq::empty())
    } else {
        let (out, seg) = path_scan(s.drop_last());
        if s.last() == '/' {
            (keep_segment(out, seg), Seq::empty())
        } else {
            (out, seg.push(s.last()))
        }
    }
}

/// The normalized form of path `s`: its `/`-separated segments, without
/// empty and `.` segments, joined by single `/`; `/` when none remain.
pub open spec fn normalized_path(s: Seq<char>) -> Seq<char> {
    let (out, seg) = path_scan(s);
    let joined = keep_segment(out, seg);
    if joined.len() == 0 {
        seq!['/']
    } else {
        joined
    }
}

/// The joined path that scanning `s` yields: its kept segments joined by
/// single `/`.
pub open spec fn joined_path(s: Seq<char>) -> Seq<char> {
    keep_segment(path_scan(s).0, path_scan(s).1)
}

/// Scanning more characters that hold no `/` only extends the segment being
/// read.
proof fn lemma_scan_segment_suffix(p: Seq<char>, y: Seq<char>)
    requires
        forall|i: int| 0 <= i < y.len() ==> #[trigger] y[i] != '/',
    ensures
        path_scan(p + y) == (path_scan(p).0, path_scan(p).1 + y),
    decreases y.len(),
{
    if y.len() == 0 {
        assert(p + y =~= p);
        assert(path_scan(p).1 + y =~= path_scan(p).1);
    } else {
        let y0 = y.drop_last();
        lemma_scan_segment_suffix(p, y0);
        assert((p + y).drop_last() =~= p + y0);
        assert((p + y).last() == y.last());
        assert((path_scan(p).1 + y0).push(y.last()) =~= path_scan(p).1 + y);
    }
}

/// A joined path that scans to itself stays itself when one more segment
/// (holding no `/`) is kept after it.
proof fn lemma_keep_segment_fixed(out: Seq<char>, seg: Seq<char>)
    requires
        joined_path(out) == out,
        forall|i: int| 0 <= i < seg.len() ==> #[trigger] seg[i] != '/',
    ensures
        joined_path(keep_segment(out, seg)) == keep_segment(out, seg),
{
    if seg.len() == 0 || seg == seq!['.'] {
    } else if out.len() == 0 {
        lemma_scan_segment_suffix(Seq::empty(), seg);
        assert(Seq::<char>::empty() + seg =~= seg);
    } else {
        let head = out + seq!['/'];
        assert(head.drop_last() =~= out);
        assert(path_scan(head) == (joined_path(out), Seq::<char>::empty()));
        lemma_scan_segment_suffix(head, seg);
        assert(Seq::<char>::empty() + seg =~= seg);
        assert(keep_segment(out, seg) =~= head + seg);
    }
}

/// What scanning any path has kept so far scans to itself, and the segment
/// being read holds no `/`.
proof fn lemma_scan_state(s: Seq<char>)
    ensures
        joined_path(path_scan(s).0) == path_scan(s).0,
        forall|i: int| 0 <= i < path_scan(s).1.len() ==> #[trigger] path_scan(s).1[i] != '/',
    decreases s.len(),
{
    if s.len() == 0 {
        assert(path_scan(Seq::<char>::empty()) == (Seq::<char>::empty(), Seq::<char>::empty()));
    } else {
        lemma_scan_state(s.drop_last());
        let (out, seg) = path_scan(s.drop_last());
        if s.last() == '/' {
            lemma_keep_segment_fixed(out, seg);
        } else {
            assert forall|i: int| 0 <= i < seg.push(s.last()).len() implies #[trigger] seg.push(s.last())[i]
                != '/' by {
                if i < seg.len() {
                    assert(seg.push(s.last())[i] == seg[i]);
                }
            }
        }
    }
}

/// Normalizing a path twice gives what normalizing it once gives.
pub proof fn lemma_normalized_path_idempotent(s: Seq<char>)
    ensures
        normalized_path(normalized_path(s)) == normalized_path(s),
{
    lemma_scan_state(s);
    let (out, seg) = path_scan(s);
    lemma_keep_segment_fixed(out, seg);
    let root = seq!['/'];
    assert(root.drop_last() =~= Seq::<char>::empty());
    assert(path_scan(Seq::<char>::empty()) == (Seq::<char>::empty(), Seq::<char>::empty()));
    assert(path_scan(root) == (Seq::<char>::empty(), Seq::<char>::empty()));
}

/// Normalizes a relative object path: drops empty and `.` segments and
/// joins the rest with single slashes; an empty result becomes `/`.
pub fn normalize_relative_path(path: &str) -> (r: String)
    ensures
        r@ == normalized_path(path@),
{
    let mut out = String::new();
    let mut seg = String::new();
    let mut i: usize = 0;
    let n = path.unicode_len();
    while i < n
        invariant
            n == path@.len(),
            i <= n,
            (out@, seg@) == path_scan(path@.take(i as int)),
        decreases n - i,
    {
        let c = path.get_char(i);
        proof {
            assert(path@.take(i + 1).drop_last() =~= path@.take(i as int));
        }
        if c == '/' {
            flush_segment(&mut out, &seg);
            seg = String::new();
        } else {
            seg.push(c);
        }
        i = i + 1;
    }
    proof {
        assert(path@.take(n as int) =~= path@);
    }
    flush_segment(&mut out, &seg);
    if out.unicode_len() == 0 {
        proof {
            reveal_strlit("/");
        }
        return String::from_str("/");
    }
    out
}

/// Appends `seg` to the joined path `out` as [`keep_segment`] says.
fn flush_segment(out: &mut String, seg: &String)
    ensures
        final(out)@ == keep_segment(old(out)@, seg@),
{
    let len = seg.unicode_len();
    if len == 0 {
        return;
    }
    if len == 1 && seg.get_char(0) == '.' {
        assert(seg@ =~= seq!['.']);
        return;
    }
    if out.unicode_len() > 0 {
        out.push('/');
    }
    out.append(seg.as_str());
}

#[verifier::external_type_specification]
#[verifier::external_body]
pub struct ExOperator(opendal::Operator);

/// Cloning an operator (`<opendal::Operator as Clone>::clone`) yields a
/// handle to the same service; nothing is stated of the result.
pub assume_specification[ <opendal::Operator as Clone>::clone ](op: &opendal::Operator) -> opendal::Operator;

/// The `stat` and `read` capabilities of an operator
/// (`opendal::OperatorInfo::capability`).
///
/// Nothing is stated of the result: it depends on the service behind the
/// operator.
#[verifier::external_body]
fn operator_capabilities(op: &opendal::Operator) -> (bool, bool) {
    let capability = op.info().capability();
    (capability.stat, capability.read)
}

/// Checks that an operator can both stat and read objects.
pub fn check_capabilities(can_stat: bool, can_read: bool) -> (r: Result<(), IoError>)
    ensures
        r == (if !can_stat {
            Err(IoError { kind: ErrorKind::InvalidInput, reason: Reason::OperatorCannotStat })
        } else if !can_read {
            Err(IoError { kind: ErrorKind::InvalidInput, reason: Reason::OperatorCannotRead })
        } else {
            Ok::<(), IoError>(())
        }),
{
    if !can_stat {
        return Err(IoError { kind: ErrorKind::InvalidInput, reason: Reason::OperatorCannotStat });
    }
    if !can_read {
        return Err(IoError { kind: ErrorKind::InvalidInput, reason: Reason::OperatorCannotRead });
    }
    Ok(())
}

/// Checks that `operator` has the capabilities a source needs.
pub fn check_operator(operator: &opendal::Operator) -> (r: Result<(), IoError>)
    ensures
        r matches Err(e) ==> e.kind == ErrorKind::InvalidInput && (e.reason == Reason::OperatorCannotStat
            || e.reason == Reason::OperatorCannotRead),
{
    let (can_stat, can_read) = operator_capabilities(operator);
    check_capabilities(can_stat, can_read)
}

/// Converts an object's content length to `usize`.
pub fn object_len(content_length: u64) -> (r: Result<usize, IoError>)
    ensures
        content_length <= usize::MAX ==> r == Ok::<usize, IoError>(content_length as usize),
        content_length > usize::MAX ==> r == Err::<usize, IoError>(
            IoError { kind: ErrorKind::InvalidData, reason: Reason::ObjectTooLarge },
        ),
{
    if content_length > usize::MAX as u64 {
        return Err(IoError { kind: ErrorKind::InvalidData, reason: Reason::ObjectTooLarge });
    }
    Ok(content_length as usize)
}

/// The byte range `start..end` that a read of `buffer_len` bytes at
/// `offset` asks of an object of `len` bytes: none for an empty buffer or
/// at or past the end; the end is cut at the end of the object.
pub fn plan_object_read(offset: usize, buffer_len: usize, len: usize) -> (r: Result<Option<(u64, u64)>, IoError>)
    ensures
        (buffer_len == 0 || offset >= len) ==> r == Ok::<Option<(u64, u64)>, IoError>(None),
        buffer_len > 0 && offset < len && offset + buffer_len > usize::MAX ==> r == Err::<
            Option<(u64, u64)>,
            IoError,
        >(IoError { kind: ErrorKind::InvalidInput, reason: Reason::RangeEndOverflow }),
        buffer_len > 0 && offset < len && offset + buffer_len <= usize::MAX ==> r == Ok::<
            Option<(u64, u64)>,
            IoError,
        >(
            Some(
                (
                    offset as u64,
                    (if offset + buffer_len <= len {
                        offset + buffer_len
                    } else {
                        len as int
                    }) as u64,
                ),
            ),
        ),
{
    if buffer_len == 0 || offset >= len {
        return Ok(None);
    }
    let end = match offset.checked_add(buffer_len) {
        Some(end) => if end <= len {
            end
        } else {
            len
        },
        None => {
            return Err(IoError { kind: ErrorKind::InvalidInput, reason: Reason::RangeEndOverflow });
        },
    };
    if end <= offset {
        return Ok(None);
    }
    Ok(Some((offset as u64, end as u64)))
}

/// The categories of an OpenDAL failure that an object source tells apart.
#[derive(Clone, Copy, Debug, PartialEq, Eq, Structural)]
pub enum OperatorErrorKind {
    /// The object does not exist.
    NotFound,
    /// The operator lacks permission for the operation.
    PermissionDenied,
    /// The requested range lies outside the object.
    RangeNotSatisfied,
    /// Any other category.
    Other,
}

#[verifier::external_type_specification]
#[verifier::external_body]
pub struct ExOperatorError(OperatorFailure);

/// The category of an OpenDAL failure (`opendal::Error::kind`), for the
/// categories an object source tells apart; every other one reads as `Other`.
///
/// Nothing is stated of the result: the failure is opaque here.
#[verifier::external_body]
fn operator_error_kind(err: &OperatorFailure) -> OperatorErrorKind {
    match err.kind() {
        opendal::ErrorKind::NotFound => OperatorErrorKind::NotFound,
        opendal::ErrorKind::PermissionDenied => OperatorErrorKind::PermissionDenied,
        opendal::ErrorKind::RangeNotSatisfied => OperatorErrorKind::RangeNotSatisfied,
        _ => OperatorErrorKind::Other,
    }
}

/// The I/O error kind that OpenDAL's conversion into `std::io::Error` gives
/// a failure of category `kind`: not found and permission denied keep their
/// meaning, everything else is `Other`.
pub open spec fn operator_io_kind(kind: OperatorErrorKind) -> ErrorKind {
    match kind {
        OperatorErrorKind::NotFound => ErrorKind::NotFound,
        OperatorErrorKind::PermissionDenied => ErrorKind::PermissionDenied,
        _ => ErrorKind::Other,
    }
}

/// What a read that failed with a failure of category `kind` returns: an
/// unsatisfiable range reads nothing, any other failure is reported.
pub open spec fn read_failure_spec(kind: OperatorErrorKind) -> Result<usize, ErrorKind> {
    if kind == OperatorErrorKind::RangeNotSatisfied {
        Ok(0)
    } else {
        Err(operator_io_kind(kind))
    }
}

/// The I/O error kind an OpenDAL failure of category `kind` is reported as.
pub fn io_kind_of(kind: OperatorErrorKind) -> (k: ErrorKind)
    ensures
        k == operator_io_kind(kind),
{
    match kind {
        OperatorErrorKind::NotFound => ErrorKind::NotFound,
        OperatorErrorKind::PermissionDenied => ErrorKind::PermissionDenied,
        _ => ErrorKind::Other,
    }
}

/// Decides what a read that failed with a failure of category `kind`
/// returns: nothing read for an unsatisfiable range, else the failure.
pub fn read_failure_outcome(kind: OperatorErrorKind) -> (r: Result<usize, ErrorKind>)
    ensures
        r == read_failure_spec(kind),
{
    if kind == OperatorErrorKind::RangeNotSatisfied {
        Ok(0)
    } else {
        Err(io_kind_of(kind))
    }
}

/// The kind of I/O error an OpenDAL failure is reported as.
pub fn map_opendal_error(err: &OperatorFailure) -> (k: ErrorKind)
    ensures
        k == ErrorKind::NotFound || k == ErrorKind::PermissionDenied || k == ErrorKind::Other,
{
    io_kind_of(operator_error_kind(err))
}

/// What a read that failed with `err` returns: nothing read when the range
/// was not satisfiable, else the failure with its I/O error kind.
pub fn read_failure(err: &OperatorFailure) -> (r: Result<usize, ErrorKind>)
    ensures
        r == Ok::<usize, ErrorKind>(0) || r == Err::<usize, ErrorKind>(ErrorKind::NotFound) || r == Err::<
            usize,
            ErrorKind,
        >(ErrorKind::PermissionDenied) || r == Err::<usize, ErrorKind>(ErrorKind::Other),
{
    read_failure_outcome(operator_error_kind(err))
}

/// Reads byte ranges from an object behind an OpenDAL operator.
#[derive(Clone)]
pub struct Reader {
    operator: opendal::Operator,
    path: String,
    len: usize,
}

impl Reader {
    /// The normalized object path.
    pub closed spec fn spec_path(&self) -> Seq<char> {
        self.path@
    }

    /// The object's length.
    pub closed spec fn spec_len(&self) -> usize {
        self.len
    }

    /// The operator the object is read through.
    pub closed spec fn spec_operator(&self) -> opendal::Operator {
        self.operator
    }

    /// A reader for the object at `path` (normalized here), of `len` bytes,
    /// behind `operator`.
    pub fn from_parts(operator: opendal::Operator, path: &str, len: usize) -> (r: Self)
        ensures
            r.spec_operator() == operator,
            r.spec_path() == normalized_path(path@),
            r.spec_len() == len,
    {
        Reader { operator, path: normalize_relative_path(path), len }
    }

    /// Returns the object path used by this reader.
    pub fn path(&self) -> (p: &str)
        ensures
            p@ == self.spec_path(),
    {
        self.path.as_str()
    }

    /// The object's length.
    pub fn len(&self) -> (n: usize)
        ensures
            n == self.spec_len(),
    {
        self.len
    }

    /// The operator the object is read through.
    pub fn operator(&self) -> (op: &opendal::Operator)
        ensures
            *op == self.spec_operator(),
    {
        &self.operator
    }

    /// The byte range a read of `buffer_len` bytes at `offset` asks for.
    pub fn plan_read(&self, offset: usize, buffer_len: usize) -> (r: Result<Option<(u64, u64)>, IoError>)
        ensures
            r == plan_object_read_spec(offset, buffer_len, self.spec_len()),
    {
        plan_object_read(offset, buffer_len, self.len)
    }
}

/// What [`plan_object_read`] returns.
pub open spec fn plan_object_read_spec(offset: usize, buffer_len: usize, len: usize) -> Result<Option<(u64, u64)>, IoError> {
    if buffer_len == 0 || offset >= len {
        Ok(None)
    } else if offset + buffer_len > usize::MAX {
        Err(IoError { kind: ErrorKind::InvalidInput, reason: Reason::RangeEndOverflow })
    } else {
        Ok(
            Some(
                (
                    offset as u64,
                    (if offset + buffer_len <= len {
                        offset + buffer_len
                    } else {
                        len as int
                    }) as u64,
                ),
            ),
        )
    }
}



/// The range a read of `buffer_len` bytes at `offset` asks of an object of
/// `len` bytes: nothing when the buffer is empty or the read starts at or
/// past the end; otherwise it starts at `offset`, ends at or before the end
/// of the object, holds no more bytes than the buffer, and stops short of a
/// full buffer only at the end of the object. A read whose end does not fit
/// in `usize` fails.
pub proof fn lemma_object_read_range(offset: usize, buffer_len: usize, len: usize)
    ensures
        (buffer_len == 0 || offset >= len) ==> plan_object_read_spec(offset, buffer_len, len) == Ok::<
            Option<(u64, u64)>,
            IoError,
        >(None),
        buffer_len > 0 && offset < len && offset + buffer_len <= usize::MAX ==> (plan_object_read_spec(
            offset,
            buffer_len,
            len,
        ) matches Ok(Some((s, e))) && {
            &&& s == offset
            &&& s < e <= len
            &&& e - s <= buffer_len
            &&& (e - s == buffer_len || e == len)
        }),
        buffer_len > 0 && offset < len && offset + buffer_len > usize::MAX ==> plan_object_read_spec(
            offset,
            buffer_len,
            len,
        ) is Err,
{
}

} // verus!

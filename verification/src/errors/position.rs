//! Lines, columns and byte offsets of source text.
//!
//! A source is cut into pieces after each newline; each piece is one line with
//! its newline. Lines and columns count from 1, columns in bytes.
use vstd::prelude::*;
use vstd::string::StringSliceAdditionalSpecFns;
use vstd::utf8::*;

use crate::text::{chars_of, string_of};

verus! {

broadcast use encode_utf8_valid_utf8, encode_utf8_decode_utf8;

/// The end of the piece that starts at `start`: just after the next `sep`, or the end.
pub open spec fn piece_end<T>(b: Seq<T>, start: int, sep: T) -> int
    decreases b.len() - start,
{
    if start < 0 || start >= b.len() {
        b.len() as int
    } else if b[start] == sep {
        start + 1
    } else {
        piece_end(b, start + 1, sep)
    }
}

pub proof fn lemma_piece_end_bounds<T>(b: Seq<T>, start: int, sep: T)
    requires
        0 <= start < b.len(),
    ensures
        start < piece_end(b, start, sep) <= b.len(),
    decreases b.len() - start,
{
    if b[start] != sep {
        if start + 1 < b.len() {
            lemma_piece_end_bounds(b, start + 1, sep);
        } else {
            assert(piece_end(b, start + 1, sep) == b.len());
        }
    }
}

/// The number of pieces from `start` on.
pub open spec fn piece_count<T>(b: Seq<T>, start: int, sep: T) -> nat
    decreases b.len() - start,
{
    if start < 0 || start >= b.len() {
        0
    } else {
        proof {
            lemma_piece_end_bounds(b, start, sep);
        }
        1 + piece_count(b, piece_end(b, start, sep), sep)
    }
}

/// The number of lines of a source, and at least 1.
pub open spec fn line_total(b: Seq<u8>) -> int {
    let n = piece_count(b, 0, 10u8);
    if n == 0 { 1 } else { n as int }
}

/// The line and column of byte `offset`, scanning from the piece at `start`, which is line `line`.
pub open spec fn line_col_from(b: Seq<u8>, start: int, line: int, offset: int) -> (int, int)
    decreases b.len() - start,
{
    if start < 0 || start >= b.len() {
        (line_total(b), b.len() - start + 1)
    } else {
        proof {
            lemma_piece_end_bounds(b, start, 10u8);
        }
        let e = piece_end(b, start, 10u8);
        if offset < e {
            (line, (if offset >= start { offset - start } else { 0 }) + 1)
        } else {
            line_col_from(b, e, line + 1, offset)
        }
    }
}

/// The line and column of byte `offset` of `b`; past the end, the last line and column 1.
pub open spec fn line_column_spec(b: Seq<u8>, offset: int) -> (int, int) {
    line_col_from(b, 0, 1, offset)
}

/// The byte offset of column offset `c` on line `target`, scanning from the piece at `start`, which is line `line`.
pub open spec fn offset_from(b: Seq<u8>, start: int, line: int, target: int, c: int) -> Option<int>
    decreases b.len() - start,
{
    if start < 0 || start >= b.len() {
        if target == line_total(b) && c <= b.len() - start {
            Some(start + c)
        } else {
            None
        }
    } else {
        proof {
            lemma_piece_end_bounds(b, start, 10u8);
        }
        let e = piece_end(b, start, 10u8);
        if line == target {
            if c <= e - start { Some(start + c) } else { None }
        } else {
            offset_from(b, e, line + 1, target, c)
        }
    }
}

/// The byte offset of 1-based `line` and `column`: none where the column lies past the
/// end of that line (its newline counted), or the line does not exist.
pub open spec fn byte_offset_spec(b: Seq<u8>, line: int, column: int) -> Option<int> {
    offset_from(b, 0, 1, line, if column >= 1 { column - 1 } else { 0 })
}

/// A line without its line ending: a final `\n`, and then a `\r` before it.
pub open spec fn strip_line_ending(p: Seq<char>) -> Seq<char> {
    if p.len() > 0 && p.last() == '\n' {
        let q = p.drop_last();
        if q.len() > 0 && q.last() == '\r' { q.drop_last() } else { q }
    } else {
        p
    }
}

/// The text of the `k`-th line (from 0) counting from the piece at `start`.
pub open spec fn nth_line_from(s: Seq<char>, start: int, k: int) -> Option<Seq<char>>
    decreases s.len() - start,
{
    if start < 0 || start >= s.len() {
        None
    } else {
        proof {
            lemma_piece_end_bounds(s, start, '\n');
        }
        let e = piece_end(s, start, '\n');
        if k <= 0 {
            Some(strip_line_ending(s.subrange(start, e)))
        } else {
            nth_line_from(s, e, k - 1)
        }
    }
}

/// The text of 1-based line `line` (line 0 reads as line 1), without its line ending.
pub open spec fn source_line_spec(s: Seq<char>, line: int) -> Option<Seq<char>> {
    nth_line_from(s, 0, if line >= 1 { line - 1 } else { 0 })
}

fn piece_end_bytes(b: &[u8], start: usize, sep: u8) -> (e: usize)
    requires
        start <= b@.len(),
    ensures
        e == piece_end(b@, start as int, sep),
        start < b@.len() ==> start < e <= b@.len(),
        start == b@.len() ==> e == b@.len(),
{
    let mut i = start;
    while i < b.len() && b[i] != sep
        invariant
            start <= i <= b@.len(),
            piece_end(b@, start as int, sep) == piece_end(b@, i as int, sep),
            forall|j: int| start <= j < i ==> b@[j] != sep,
        decreases b.len() - i,
    {
        i = i + 1;
    }
    if i < b.len() {
        i + 1
    } else {
        proof {
            if start < b@.len() {
                lemma_piece_end_bounds(b@, start as int, sep);
            }
        }
        b.len()
    }
}

pub(crate) fn piece_end_chars(b: &[char], start: usize, sep: char) -> (e: usize)
    requires
        start <= b@.len(),
    ensures
        e == piece_end(b@, start as int, sep),
        start < b@.len() ==> start < e <= b@.len(),
        start == b@.len() ==> e == b@.len(),
{
    let mut i = start;
    while i < b.len() && b[i] != sep
        invariant
            start <= i <= b@.len(),
            piece_end(b@, start as int, sep) == piece_end(b@, i as int, sep),
            forall|j: int| start <= j < i ==> b@[j] != sep,
        decreases b.len() - i,
    {
        i = i + 1;
    }
    if i < b.len() {
        i + 1
    } else {
        proof {
            if start < b@.len() {
                lemma_piece_end_bounds(b@, start as int, sep);
            }
        }
        b.len()
    }
}

fn piece_count_exec(b: &[u8]) -> (n: usize)
    requires
        b@.len() < usize::MAX,
    ensures
        n == piece_count(b@, 0, 10u8),
{
    let mut start: usize = 0;
    let mut n: usize = 0;
    while start < b.len()
        invariant
            start <= b@.len() < usize::MAX,
            n <= start,
            n + piece_count(b@, start as int, 10u8) == piece_count(b@, 0, 10u8),
        decreases b.len() - start,
    {
        let e = piece_end_bytes(b, start, 10u8);
        start = e;
        n = n + 1;
    }
    n
}

/// The 1-based line and column (in bytes) of byte `offset` of `source`; an offset past
/// the end gives the last line and column 1.
pub fn line_column_at(source: &str, offset: usize) -> (r: (usize, usize))
    requires
        source.spec_bytes().len() < usize::MAX,
    ensures
        r.0 as int == line_column_spec(source.spec_bytes(), offset as int).0,
        r.1 as int == line_column_spec(source.spec_bytes(), offset as int).1,
{
    let b = source.as_bytes();
    let mut start: usize = 0;
    let mut line: usize = 1;
    while start < b.len()
        invariant
            b@ == source.spec_bytes(),
            start <= b@.len() < usize::MAX,
            1 <= line <= start + 1,
            line_col_from(b@, start as int, line as int, offset as int)
                == line_column_spec(b@, offset as int),
        decreases b.len() - start,
    {
        let e = piece_end_bytes(b, start, 10u8);
        if offset < e {
            let col = if offset >= start { offset - start } else { 0 };
            return (line, col + 1);
        }
        start = e;
        line = line + 1;
    }
    let n = piece_count_exec(b);
    let total = if n == 0 { 1 } else { n };
    (total, b.len() - start + 1)
}

/// The byte offset of 1-based `target_line` and `target_column` in `source`: none where
/// the column lies past the end of that line (its newline counted) or the line does not exist.
pub fn byte_offset_at(source: &str, target_line: usize, target_column: usize) -> (r: Option<usize>)
    requires
        source.spec_bytes().len() < usize::MAX,
    ensures
        match r {
            Some(x) => byte_offset_spec(source.spec_bytes(), target_line as int, target_column as int) == Some(x as int),
            None => byte_offset_spec(source.spec_bytes(), target_line as int, target_column as int) is None,
        },
{
    let b = source.as_bytes();
    let c: usize = if target_column >= 1 { target_column - 1 } else { 0 };
    let mut start: usize = 0;
    let mut line: usize = 1;
    while start < b.len()
        invariant
            b@ == source.spec_bytes(),
            start <= b@.len() < usize::MAX,
            1 <= line <= start + 1,
            c == (if target_column >= 1 { target_column - 1 } else { 0 }),
            offset_from(b@, start as int, line as int, target_line as int, c as int)
                == byte_offset_spec(b@, target_line as int, target_column as int),
        decreases b.len() - start,
    {
        let e = piece_end_bytes(b, start, 10u8);
        if line == target_line {
            if c <= e - start {
                return Some(start + c);
            } else {
                return None;
            }
        }
        start = e;
        line = line + 1;
    }
    let n = piece_count_exec(b);
    let total = if n == 0 { 1 } else { n };
    if target_line == total && c <= b.len() - start {
        Some(start + c)
    } else {
        None
    }
}

/// The text of 1-based line `target_line` of `source` (line 0 reads as line 1), without
/// its line ending; none past the last line.
pub fn source_line(source: &str, target_line: usize) -> (r: Option<String>)
    ensures
        match source_line_spec(source@, target_line as int) {
            Some(t) => r is Some && r->0@ == t,
            None => r is None,
        },
{
    let s = chars_of(source);
    let k: usize = if target_line >= 1 { target_line - 1 } else { 0 };
    let mut start: usize = 0;
    let mut idx: usize = 0;
    while start < s.len()
        invariant
            s@ == source@,
            start <= s@.len(),
            idx <= k,
            k == (if target_line >= 1 { target_line - 1 } else { 0 }),
            nth_line_from(s@, start as int, (k - idx) as int) == source_line_spec(s@, target_line as int),
        decreases s.len() - start,
    {
        let e = piece_end_chars(s.as_slice(), start, '\n');
        if idx == k {
            let mut end = e;
            if end > start && s[end - 1] == '\n' {
                end = end - 1;
                if end > start && s[end - 1] == '\r' {
                    end = end - 1;
                }
            }
            let line = string_of(slice_subrange(s.as_slice(), start, end));
            proof {
                let p = s@.subrange(start as int, e as int);
                if p.len() > 0 && p.last() == '\n' {
                    let q = p.drop_last();
                    assert(q =~= s@.subrange(start as int, e - 1));
                    if q.len() > 0 && q.last() == '\r' {
                        assert(q.drop_last() =~= s@.subrange(start as int, e - 2));
                    }
                }
                assert(line@ =~= strip_line_ending(p));
            }
            return Some(line);
        }
        start = e;
        idx = idx + 1;
    }
    None
}

/// The elements `from..to` of a slice.
fn slice_subrange<T>(v: &[T], from: usize, to: usize) -> (r: &[T])
    requires
        from <= to <= v@.len(),
    ensures
        r@ == v@.subrange(from as int, to as int),
{
    vstd::slice::slice_subrange(v, from, to)
}

proof fn lemma_line_col_from_line(b: Seq<u8>, start: int, line: int, offset: int)
    requires
        0 <= start <= offset < b.len(),
    ensures
        line_col_from(b, start, line, offset).0 >= line,
        line_col_from(b, start, line, offset).1 >= 1,
    decreases b.len() - start,
{
    lemma_piece_end_bounds(b, start, 10u8);
    let e = piece_end(b, start, 10u8);
    if offset >= e {
        lemma_line_col_from_line(b, e, line + 1, offset);
    }
}

proof fn lemma_offset_round_trip_from(b: Seq<u8>, start: int, line: int, offset: int)
    requires
        0 <= start <= offset < b.len(),
    ensures
        offset_from(b, start, line, line_col_from(b, start, line, offset).0, line_col_from(b, start, line, offset).1 - 1)
            == Some(offset),
    decreases b.len() - start,
{
    lemma_piece_end_bounds(b, start, 10u8);
    let e = piece_end(b, start, 10u8);
    if offset >= e {
        lemma_line_col_from_line(b, e, line + 1, offset);
        lemma_offset_round_trip_from(b, e, line + 1, offset);
    }
}

/// Every byte of a source is found again at its own line and column: the offset of
/// the line and column of an offset inside the source is that offset.
pub proof fn lemma_position_round_trip(b: Seq<u8>, offset: int)
    requires
        0 <= offset < b.len(),
    ensures
        byte_offset_spec(b, line_column_spec(b, offset).0, line_column_spec(b, offset).1) == Some(offset),
{
    lemma_line_col_from_line(b, 0, 1, offset);
    lemma_offset_round_trip_from(b, 0, 1, offset);
}

} // verus!

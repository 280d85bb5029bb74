//! The per-descriptor status record: lines of text, one of which reads
//! `pos:\t<offset>`.

use vstd::prelude::*;
use vstd::slice::slice_subrange;
use vstd::string::StringSliceAdditionalSpecFns;
use crate::decimal::{parse_decimal, u64_of};
use crate::error::SampleError;

verus! {

/// The index of the first `b` at or after `i`, or the length when there is none.
pub open spec fn byte_index(s: Seq<u8>, b: u8, i: int) -> int
    decreases s.len() - i,
{
    if i >= s.len() {
        s.len() as int
    } else if s[i] == b {
        i
    } else {
        byte_index(s, b, i + 1)
    }
}

pub proof fn lemma_byte_index_bounds(s: Seq<u8>, b: u8, i: int)
    requires
        0 <= i <= s.len(),
    ensures
        i <= byte_index(s, b, i) <= s.len(),
        byte_index(s, b, i) < s.len() ==> s[byte_index(s, b, i)] == b,
    decreases s.len() - i,
{
    if i < s.len() && s[i] != b {
        lemma_byte_index_bounds(s, b, i + 1);
    }
}

/// The line that starts at `i`: up to the next newline, without the carriage
/// return of a `\r\n` ending.
pub open spec fn line_at(s: Seq<u8>, i: int) -> Seq<u8> {
    let e = byte_index(s, 10, i);
    let raw = s.subrange(i, e);
    if e < s.len() && raw.len() > 0 && raw.last() == 13 {
        raw.drop_last()
    } else {
        raw
    }
}

/// A line that starts with `pos:`.
pub open spec fn is_pos_line(line: Seq<u8>) -> bool {
    line.len() >= 4 && line.take(4) == seq![112u8, 111u8, 115u8, 58u8]
}

/// The first `pos:` line among the lines from `i` on.
pub open spec fn pos_line_from(s: Seq<u8>, i: int) -> Option<Seq<u8>>
    decreases s.len() + 1 - i via pos_line_from_decreases
{
    if i < 0 || i >= s.len() {
        None
    } else if is_pos_line(line_at(s, i)) {
        Some(line_at(s, i))
    } else {
        pos_line_from(s, byte_index(s, 10, i) + 1)
    }
}

#[via_fn]
proof fn pos_line_from_decreases(s: Seq<u8>, i: int) {
    if 0 <= i < s.len() {
        lemma_byte_index_bounds(s, 10, i);
    }
}

/// The second of the tab-separated pieces of a line, if it has a tab.
pub open spec fn tab_field(line: Seq<u8>) -> Option<Seq<u8>> {
    let t = byte_index(line, 9, 0);
    if t >= line.len() {
        None
    } else {
        Some(line.subrange(t + 1, byte_index(line, 9, t + 1)))
    }
}

/// The offset a status record reports: the number in the second
/// tab-separated piece of its first `pos:` line.
pub open spec fn record_pos(s: Seq<u8>) -> Option<u64> {
    match pos_line_from(s, 0) {
        Some(line) => match tab_field(line) {
            Some(f) => u64_of(f),
            None => None,
        },
        None => None,
    }
}

fn find_byte(s: &[u8], b: u8, i: usize) -> (r: usize)
    requires
        i <= s@.len(),
    ensures
        r == byte_index(s@, b, i as int),
        i <= r <= s@.len(),
{
    let mut j: usize = i;
    while j < s.len()
        invariant
            i <= j <= s@.len(),
            byte_index(s@, b, j as int) == byte_index(s@, b, i as int),
        decreases s@.len() - j,
    {
        if s[j] == b {
            return j;
        }
        j = j + 1;
    }
    j
}

fn pos_of_line(line: &[u8]) -> (r: Option<u64>)
    ensures
        r == (match tab_field(line@) {
            Some(f) => u64_of(f),
            None => None,
        }),
{
    let t = find_byte(line, 9, 0);
    if t >= line.len() {
        return None;
    }
    let u = find_byte(line, 9, t + 1);
    parse_decimal(slice_subrange(line, t + 1, u))
}

/// The offset that a status record given as bytes reports.
pub fn record_pos_of_bytes(s: &[u8]) -> (r: Option<u64>)
    ensures
        r == record_pos(s@),
{
    let mut i: usize = 0;
    while i < s.len()
        invariant
            i <= s@.len(),
            pos_line_from(s@, i as int) == pos_line_from(s@, 0),
        decreases s@.len() - i,
    {
        let e = find_byte(s, 10, i);
        let end = if e < s.len() && e > i && s[e - 1] == 13 {
            e - 1
        } else {
            e
        };
        let line = slice_subrange(s, i, end);
        assert(line@ =~= line_at(s@, i as int));
        if line.len() >= 4 && line[0] == 112 && line[1] == 111 && line[2] == 115 && line[3] == 58 {
            assert(line@.take(4) =~= seq![112u8, 111u8, 115u8, 58u8]);
            return pos_of_line(line);
        }
        assert(!is_pos_line(line@));
        if e >= s.len() {
            assert(pos_line_from(s@, e + 1) == None::<Seq<u8>>);
            return None;
        }
        i = e + 1;
    }
    None
}

/// The offset that a descriptor's status record reports, from its first line
/// that starts with `pos:`; a record without such a line, or whose first such
/// line does not carry a decimal number after its tab, is malformed.
pub fn get_pos_from_fdinfo(contents: &str) -> (r: Result<u64, SampleError>)
    ensures
        r == (match record_pos(contents.spec_bytes()) {
            Some(p) => Ok(p),
            None => Err(SampleError::MalformedStatusRecord),
        }),
{
    match record_pos_of_bytes(contents.as_bytes()) {
        Some(p) => Ok(p),
        None => Err(SampleError::MalformedStatusRecord),
    }
}

} // verus!

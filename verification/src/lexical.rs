//! Classification of single characters and of the edges of a text slice.
use vstd::prelude::*;
use vstd::string::StringSliceAdditionalSpecFns;

verus! {

/// The byte of a space or of a tab.
pub open spec fn is_inline_space(b: u8) -> bool {
    b == 0x20 || b == 0x09
}

/// The byte of a line feed or of a carriage return.
pub open spec fn is_line_break(b: u8) -> bool {
    b == 0x0a || b == 0x0d
}

/// A line break occurs in `s` and only spaces and tabs follow it, or `s`
/// is empty, which stands for the start of the input.
pub open spec fn ends_with_blank_line(s: Seq<u8>) -> bool {
    s.len() == 0 || exists|k: int|
        0 <= k < s.len() && is_line_break(#[trigger] s[k]) && forall|j: int|
            k < j < s.len() ==> is_inline_space(#[trigger] s[j])
}

/// Only spaces and tabs stand before the first line break of `s`, or `s` is
/// empty, which stands for the end of the input.
pub open spec fn starts_with_blank_line(s: Seq<u8>) -> bool {
    s.len() == 0 || exists|k: int|
        0 <= k < s.len() && is_line_break(#[trigger] s[k]) && forall|j: int|
            0 <= j < k ==> is_inline_space(#[trigger] s[j])
}

/// True for a space and for a tab.
pub fn whitespace_matcher(c: char) -> (r: bool)
    ensures
        r == (c == ' ' || c == '\t'),
{
    c == ' ' || c == '\t'
}

/// True for a line feed and for a carriage return.
pub fn newline_matcher(c: char) -> (r: bool)
    ensures
        r == (c == '\n' || c == '\r'),
{
    c == '\n' || c == '\r'
}

/// True for the byte of a space or of a tab.
pub fn inline_space_byte(b: u8) -> (r: bool)
    ensures
        r == is_inline_space(b),
{
    b == 0x20 || b == 0x09
}

/// True for the byte of a line feed or of a carriage return.
pub fn line_break_byte(b: u8) -> (r: bool)
    ensures
        r == is_line_break(b),
{
    b == 0x0a || b == 0x0d
}

/// Whether the first `at` bytes of `src` end with a blank line.
pub fn blank_line_before(src: &[u8], at: usize) -> (r: bool)
    requires
        at <= src@.len(),
    ensures
        r == ends_with_blank_line(src@.subrange(0, at as int)),
{
    let ghost s = src@.subrange(0, at as int);
    if at == 0 {
        return true;
    }
    let mut i: usize = at;
    while i > 0 && inline_space_byte(src[i - 1])
        invariant
            i <= at <= src@.len(),
            s == src@.subrange(0, at as int),
            forall|j: int| i <= j < at ==> is_inline_space(#[trigger] s[j]),
        decreases i,
    {
        i = i - 1;
    }
    if i == 0 {
        assert(!ends_with_blank_line(s)) by {
            assert(forall|k: int| 0 <= k < s.len() ==> !is_line_break(#[trigger] s[k]));
        }
        return false;
    }
    let found = line_break_byte(src[i - 1]);
    proof {
        if found {
            assert(is_line_break(s[i - 1]));
        } else {
            assert forall|k: int| 0 <= k < s.len() && is_line_break(#[trigger] s[k]) implies !(
            forall|j: int| k < j < s.len() ==> is_inline_space(#[trigger] s[j])) by {
                if k < i - 1 {
                    assert(!is_inline_space(s[i - 1]));
                }
            }
        }
    }
    found
}

/// Whether the bytes of `src` from `at` on start with a blank line.
pub fn blank_line_after(src: &[u8], at: usize) -> (r: bool)
    requires
        at <= src@.len(),
    ensures
        r == starts_with_blank_line(src@.subrange(at as int, src@.len() as int)),
{
    let ghost s = src@.subrange(at as int, src@.len() as int);
    let n: usize = src.len();
    if at == n {
        return true;
    }
    let mut i: usize = at;
    while i < n && inline_space_byte(src[i])
        invariant
            at <= i <= n,
            n == src@.len(),
            s == src@.subrange(at as int, n as int),
            forall|j: int| 0 <= j < i - at ==> is_inline_space(#[trigger] s[j]),
        decreases n - i,
    {
        i = i + 1;
    }
    if i == n {
        assert(!starts_with_blank_line(s)) by {
            assert(forall|k: int| 0 <= k < s.len() ==> !is_line_break(#[trigger] s[k]));
        }
        return false;
    }
    let found = line_break_byte(src[i]);
    proof {
        if found {
            assert(is_line_break(s[i - at]));
        } else {
            assert forall|k: int| 0 <= k < s.len() && is_line_break(#[trigger] s[k]) implies !(
            forall|j: int| 0 <= j < k ==> is_inline_space(#[trigger] s[j])) by {
                if k > i - at {
                    assert(!is_inline_space(s[i - at]));
                }
            }
        }
    }
    found
}

/// Whether `text`, after its trailing spaces and tabs, ends in a line break.
/// The empty text counts as a blank line: nothing stands before the start
/// of the input.
pub fn ends_with_empty_line(text: &str) -> (r: bool)
    ensures
        r == ends_with_blank_line(text.spec_bytes()),
{
    let bytes = text.as_bytes();
    assert(bytes@.subrange(0, bytes@.len() as int) =~= bytes@);
    blank_line_before(bytes, bytes.len())
}

/// Whether `text`, after its leading spaces and tabs, starts with a line
/// break. The empty text counts as a blank line: nothing follows the end of
/// the input.
pub fn starts_with_empty_line(text: &str) -> (r: bool)
    ensures
        r == starts_with_blank_line(text.spec_bytes()),
{
    let bytes = text.as_bytes();
    assert(bytes@.subrange(0, bytes@.len() as int) =~= bytes@);
    blank_line_after(bytes, 0)
}

} // verus!

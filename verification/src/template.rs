//! The pass after parsing: blocks must be closed under the name they were
//! opened with, and the literal text around a tag is narrowed where the tag
//! asks for it or stands alone on its line.
use crate::error::{fault, is_tag_rule, Error, Fault};
use crate::lexical::{
    blank_line_after, blank_line_before, ends_with_blank_line, inline_space_byte, is_inline_space,
    starts_with_blank_line,
};
use crate::parser::{parse_bytes, MAX_DEPTH};
use crate::rule::Rule;
use crate::semantics::{is_space, parsed, Res};
use crate::tree::{nested, tidy, Node, Pairs, Span};
use vstd::prelude::*;
use vstd::slice::{slice_subrange, slice_to_vec};
use vstd::string::StringSliceAdditionalSpecFns;

verus! {

/// The rules of blocks: an opening tag, a body and a closing tag.
pub open spec fn spec_is_block_rule(r: Rule) -> bool {
    r == Rule::helper_block || r == Rule::raw_block || r == Rule::partial_block || r
        == Rule::decorator_block
}

/// The rules of blocks: an opening tag, a body and a closing tag.
#[verifier::when_used_as_spec(spec_is_block_rule)]
pub fn is_block_rule(r: Rule) -> (b: bool)
    ensures
        b == spec_is_block_rule(r),
{
    matches!(r, Rule::helper_block | Rule::raw_block | Rule::partial_block | Rule::decorator_block)
}

/// The rules by which a tag names what it calls.
pub open spec fn spec_is_name_rule(r: Rule) -> bool {
    r == Rule::identifier || r == Rule::partial_identifier || r == Rule::reference || r
        == Rule::subexpression
}

/// The rules by which a tag names what it calls.
#[verifier::when_used_as_spec(spec_is_name_rule)]
pub fn is_name_rule(r: Rule) -> (b: bool)
    ensures
        b == spec_is_name_rule(r),
{
    matches!(r, Rule::identifier | Rule::partial_identifier | Rule::reference | Rule::subexpression)
}

/// The rules of the tags that are taken off their line where they stand
/// alone on it: the tags of blocks, partials, decorators and comments, but
/// neither expressions nor the tags of raw blocks.
pub open spec fn spec_is_line_rule(r: Rule) -> bool {
    r == Rule::helper_block_start || r == Rule::helper_block_end || r == Rule::invert_tag || r
        == Rule::partial_block_start || r == Rule::partial_block_end || r
        == Rule::decorator_block_start || r == Rule::decorator_block_end || r
        == Rule::partial_expression || r == Rule::decorator_expression || r == Rule::hbs_comment
        || r == Rule::hbs_comment_compact
}

/// The rules of the tags that are taken off their line where they stand
/// alone on it.
#[verifier::when_used_as_spec(spec_is_line_rule)]
pub fn is_line_rule(r: Rule) -> (b: bool)
    ensures
        b == spec_is_line_rule(r),
{
    matches!(
        r,
        Rule::helper_block_start | Rule::helper_block_end | Rule::invert_tag
            | Rule::partial_block_start | Rule::partial_block_end | Rule::decorator_block_start
            | Rule::decorator_block_end | Rule::partial_expression | Rule::decorator_expression
            | Rule::hbs_comment | Rule::hbs_comment_compact
    )
}

/// The bytes of the input that a node covers.
pub open spec fn slice_of(src: Seq<u8>, node: Node) -> Seq<u8> {
    src.subrange(node.start as int, node.end as int)
}

/// The first node from `lo` up to `hi` that names something.
pub open spec fn first_name(n: Seq<Node>, lo: int, hi: int) -> Option<int>
    decreases hi - lo,
{
    if lo >= hi {
        None
    } else if is_name_rule(n[lo].rule) {
        Some(lo)
    } else {
        first_name(n, lo + 1, hi)
    }
}

/// The last node from `lo` up to `hi` that names something.
pub open spec fn last_name(n: Seq<Node>, lo: int, hi: int) -> Option<int>
    decreases hi - lo,
{
    if lo >= hi {
        None
    } else if is_name_rule(n[hi - 1].rule) {
        Some(hi - 1)
    } else {
        last_name(n, lo, hi - 1)
    }
}

/// The node at `b` is a block whose first name, that of its opening tag,
/// is not spelled as its last name, that of its closing tag.
pub open spec fn ill_named(src: Seq<u8>, n: Seq<Node>, b: int) -> bool {
    is_block_rule(n[b].rule) && match (
        first_name(n, b + 1, b + 1 + n[b].size),
        last_name(n, b + 1, b + 1 + n[b].size),
    ) {
        (Some(i), Some(j)) => slice_of(src, n[i]) != slice_of(src, n[j]),
        _ => false,
    }
}

/// The first block from `from` on that is ill named.
pub open spec fn first_ill_named(src: Seq<u8>, n: Seq<Node>, from: int) -> Option<int>
    decreases n.len() - from,
{
    if from >= n.len() || from < 0 {
        None
    } else if ill_named(src, n, from) {
        Some(from)
    } else {
        first_ill_named(src, n, from + 1)
    }
}

/// What is reported of the ill-named block at `b`.
pub open spec fn mismatch(src: Seq<u8>, n: Seq<Node>, b: int) -> Fault {
    let i = first_name(n, b + 1, b + 1 + n[b].size).unwrap();
    let j = last_name(n, b + 1, b + 1 + n[b].size).unwrap();
    Fault::MismatchedBlockName {
        opened: Span { start: n[i].start, end: n[i].end },
        closed: Span { start: n[j].start, end: n[j].end },
        opened_name: slice_of(src, n[i]),
        closed_name: slice_of(src, n[j]),
    }
}

/// Finds the first node from `lo` up to `hi` that names something.
pub fn find_first_name(n: &Vec<Node>, lo: usize, hi: usize) -> (r: Option<usize>)
    requires
        lo <= hi <= n@.len(),
    ensures
        r matches Some(i) ==> first_name(n@, lo as int, hi as int) == Some(i as int) && lo <= i
            < hi,
        r is None ==> first_name(n@, lo as int, hi as int) is None,
{
    let mut k: usize = lo;
    while k < hi
        invariant
            lo <= k <= hi <= n@.len(),
            first_name(n@, lo as int, hi as int) == first_name(n@, k as int, hi as int),
        decreases hi - k,
    {
        if is_name_rule(n[k].rule) {
            return Some(k);
        }
        k = k + 1;
    }
    None
}

/// Finds the last node from `lo` up to `hi` that names something.
pub fn find_last_name(n: &Vec<Node>, lo: usize, hi: usize) -> (r: Option<usize>)
    requires
        lo <= hi <= n@.len(),
    ensures
        r matches Some(i) ==> last_name(n@, lo as int, hi as int) == Some(i as int) && lo <= i
            < hi,
        r is None ==> last_name(n@, lo as int, hi as int) is None,
{
    let mut k: usize = hi;
    while k > lo
        invariant
            lo <= k <= hi <= n@.len(),
            last_name(n@, lo as int, hi as int) == last_name(n@, lo as int, k as int),
        decreases k - lo,
    {
        if is_name_rule(n[k - 1].rule) {
            return Some(k - 1);
        }
        k = k - 1;
    }
    None
}

/// Whether two nodes cover the same bytes.
pub fn same_text(src: &[u8], a: &Node, b: &Node) -> (r: bool)
    requires
        a.start <= a.end <= src@.len(),
        b.start <= b.end <= src@.len(),
    ensures
        r == (slice_of(src@, *a) == slice_of(src@, *b)),
{
    let ghost x = slice_of(src@, *a);
    let ghost y = slice_of(src@, *b);
    let len: usize = a.end - a.start;
    if b.end - b.start != len {
        assert(x.len() != y.len());
        return false;
    }
    let mut i: usize = 0;
    while i < len
        invariant
            i <= len,
            len == a.end - a.start,
            len == b.end - b.start,
            a.end <= src@.len(),
            b.end <= src@.len(),
            x == slice_of(src@, *a),
            y == slice_of(src@, *b),
            forall|k: int| 0 <= k < i ==> x[k] == y[k],
        decreases len - i,
    {
        if src[a.start + i] != src[b.start + i] {
            assert(x[i as int] != y[i as int]);
            return false;
        }
        i = i + 1;
    }
    assert(x =~= y);
    true
}

/// Checks that every block is closed under the name it was opened with,
/// and reports the first that is not.
pub fn check_blocks(src: &[u8], n: &Vec<Node>) -> (r: Result<(), Error>)
    requires
        tidy(n@, 0, src@.len() as int),
    ensures
        match first_ill_named(src@, n@, 0) {
            Some(b) => r matches Err(e) && e@ == mismatch(src@, n@, b),
            None => r is Ok,
        },
{
    let total: usize = n.len();
    let mut b: usize = 0;
    while b < total
        invariant
            b <= total,
            total == n@.len(),
            tidy(n@, 0, src@.len() as int),
            first_ill_named(src@, n@, 0) == first_ill_named(src@, n@, b as int),
        decreases total - b,
    {
        if is_block_rule(n[b].rule) {
            let hi: usize = b + 1 + n[b].size;
            let first = find_first_name(n, b + 1, hi);
            let last = find_last_name(n, b + 1, hi);
            match (first, last) {
                (Some(i), Some(j)) => {
                    if !same_text(src, &n[i], &n[j]) {
                        let opened = Span { start: n[i].start, end: n[i].end };
                        let closed = Span { start: n[j].start, end: n[j].end };
                        let opened_name = slice_to_vec(slice_subrange(src, n[i].start, n[i].end));
                        let closed_name = slice_to_vec(slice_subrange(src, n[j].start, n[j].end));
                        return Err(
                            Error::MismatchedBlockName { opened, closed, opened_name, closed_name },
                        );
                    }
                },
                _ => {},
            }
        }
        b = b + 1;
    }
    Ok(())
}

/// How much white space is taken off one end of a literal text.
#[derive(Clone, Copy, Debug, PartialEq, Eq, Structural)]
pub enum Cut {
    /// None.
    Keep,
    /// The spaces and tabs up to the line break and, at the start of a
    /// text, the line break too.
    Line,
    /// All of it, line breaks included.
    All,
}

/// The byte counts as white space for the cut: for `Cut::All` any white
/// space, else a space or a tab.
pub open spec fn cuts(b: u8, all: bool) -> bool {
    if all {
        is_space(b)
    } else {
        is_inline_space(b)
    }
}

/// The first position from `pos` up to `hi` that holds no white space.
pub open spec fn spaces_up(s: Seq<u8>, pos: int, hi: int, all: bool) -> int
    decreases hi - pos,
{
    if 0 <= pos < hi <= s.len() && cuts(s[pos], all) {
        spaces_up(s, pos + 1, hi, all)
    } else {
        pos
    }
}

/// The position behind the last byte from `lo` up to `pos` that is no
/// white space, or `lo` where there is none.
pub open spec fn spaces_down(s: Seq<u8>, lo: int, pos: int, all: bool) -> int
    decreases pos - lo,
{
    if 0 <= lo < pos <= s.len() && cuts(s[pos - 1], all) {
        spaces_down(s, lo, pos - 1, all)
    } else {
        pos
    }
}

/// The position behind the line break that stands at `pos`, if one does
/// before `hi`: a line feed, or a carriage return with or without one.
pub open spec fn after_break(s: Seq<u8>, pos: int, hi: int) -> int {
    if 0 <= pos < hi <= s.len() && s[pos] == 0x0a {
        pos + 1
    } else if 0 <= pos < hi <= s.len() && s[pos] == 0x0d {
        if pos + 1 < hi && s[pos + 1] == 0x0a {
            pos + 2
        } else {
            pos + 1
        }
    } else {
        pos
    }
}

/// Where the text `start..end` starts after the cut.
pub open spec fn lead_cut(s: Seq<u8>, start: int, end: int, cut: Cut) -> int {
    match cut {
        Cut::Keep => start,
        Cut::Line => after_break(s, spaces_up(s, start, end, false), end),
        Cut::All => spaces_up(s, start, end, true),
    }
}

/// Where the text `start..end` ends after the cut.
pub open spec fn trail_cut(s: Seq<u8>, start: int, end: int, cut: Cut) -> int {
    match cut {
        Cut::Keep => end,
        Cut::Line => spaces_down(s, start, end, false),
        Cut::All => spaces_down(s, start, end, true),
    }
}

/// The last tag before the node at `i`.
pub open spec fn tag_before(n: Seq<Node>, i: int) -> Option<int>
    decreases i,
{
    if i <= 0 {
        None
    } else if is_tag_rule(n[i - 1].rule) {
        Some(i - 1)
    } else {
        tag_before(n, i - 1)
    }
}

/// The first tag from the node at `i` on.
pub open spec fn tag_from(n: Seq<Node>, i: int) -> Option<int>
    decreases n.len() - i,
{
    if i >= n.len() || i < 0 {
        None
    } else if is_tag_rule(n[i].rule) {
        Some(i)
    } else {
        tag_from(n, i + 1)
    }
}

/// The tag at `t` holds a mark of rule `mark`.
pub open spec fn has_mark(n: Seq<Node>, t: int, mark: Rule) -> bool {
    exists|k: int| t < k <= t + n[t].size && k < n.len() && (#[trigger] n[k]).rule == mark
}

/// The tag at `t` is of a kind that is taken off its line, and stands
/// alone on it: before it the input ends with a blank line and behind it
/// the input starts with one.
pub open spec fn stands_alone(src: Seq<u8>, n: Seq<Node>, t: int) -> bool {
    &&& is_line_rule(n[t].rule)
    &&& ends_with_blank_line(src.subrange(0, n[t].start as int))
    &&& starts_with_blank_line(src.subrange(n[t].end as int, src.len() as int))
}

/// What the tag at `t` takes off the text on the side where `mark` stands:
/// all white space where the tag holds the mark, the line where it stands
/// alone, and else nothing.
#[verifier::opaque]
pub open spec fn cut_by(src: Seq<u8>, n: Seq<Node>, t: int, mark: Rule) -> Cut {
    if has_mark(n, t, mark) {
        Cut::All
    } else if stands_alone(src, n, t) {
        Cut::Line
    } else {
        Cut::Keep
    }
}

/// What is taken off the start of the text at `i`: what the tag that ends
/// where the text starts asks for.
pub open spec fn lead(src: Seq<u8>, n: Seq<Node>, i: int) -> Cut {
    match tag_before(n, i) {
        Some(t) => if n[t].end == n[i].start {
            cut_by(src, n, t, Rule::pro_whitespace_omitter)
        } else {
            Cut::Keep
        },
        None => Cut::Keep,
    }
}

/// What is taken off the end of the text at `i`: what the tag that starts
/// where the text ends asks for.
pub open spec fn trail(src: Seq<u8>, n: Seq<Node>, i: int) -> Cut {
    match tag_from(n, i + 1) {
        Some(t) => if n[t].start == n[i].end {
            cut_by(src, n, t, Rule::pre_whitespace_omitter)
        } else {
            Cut::Keep
        },
        None => Cut::Keep,
    }
}

/// The node at `i` after the pass: a literal text is narrowed at its start
/// and then at its end, any other node stays as it is.
#[verifier::opaque]
pub open spec fn narrowed(src: Seq<u8>, n: Seq<Node>, i: int) -> Node {
    if n[i].rule == Rule::raw_text {
        let start = lead_cut(src, n[i].start as int, n[i].end as int, lead(src, n, i));
        let end = trail_cut(src, start, n[i].end as int, trail(src, n, i));
        Node { rule: n[i].rule, start: start as usize, end: end as usize, size: n[i].size }
    } else {
        n[i]
    }
}

/// The tree after the pass.
pub open spec fn trimmed(src: Seq<u8>, n: Seq<Node>) -> Seq<Node> {
    Seq::new(n.len(), |i: int| narrowed(src, n, i))
}

/// Skips white space from `pos` up to `hi`.
pub fn skip_up(src: &[u8], pos: usize, hi: usize, all: bool) -> (r: usize)
    requires
        pos <= hi <= src@.len(),
    ensures
        r == spaces_up(src@, pos as int, hi as int, all),
        pos <= r <= hi,
{
    let mut i: usize = pos;
    while i < hi && (inline_space_byte(src[i]) || (all && (src[i] == 0x0a || src[i] == 0x0d)))
        invariant
            pos <= i <= hi <= src@.len(),
            spaces_up(src@, pos as int, hi as int, all) == spaces_up(src@, i as int, hi as int, all),
        decreases hi - i,
    {
        i = i + 1;
    }
    i
}

/// Skips white space from `pos` down to `lo`.
pub fn skip_down(src: &[u8], lo: usize, pos: usize, all: bool) -> (r: usize)
    requires
        lo <= pos <= src@.len(),
    ensures
        r == spaces_down(src@, lo as int, pos as int, all),
        lo <= r <= pos,
{
    let mut i: usize = pos;
    while i > lo && (inline_space_byte(src[i - 1]) || (all && (src[i - 1] == 0x0a || src[i - 1]
        == 0x0d)))
        invariant
            lo <= i <= pos <= src@.len(),
            spaces_down(src@, lo as int, pos as int, all) == spaces_down(
                src@,
                lo as int,
                i as int,
                all,
            ),
        decreases i - lo,
    {
        i = i - 1;
    }
    i
}

/// Where the text `start..end` starts after the cut.
pub fn cut_lead(src: &[u8], start: usize, end: usize, cut: Cut) -> (r: usize)
    requires
        start <= end <= src@.len(),
    ensures
        r == lead_cut(src@, start as int, end as int, cut),
        start <= r <= end,
{
    match cut {
        Cut::Keep => start,
        Cut::All => skip_up(src, start, end, true),
        Cut::Line => {
            let p: usize = skip_up(src, start, end, false);
            if p < end && src[p] == 0x0a {
                p + 1
            } else if p < end && src[p] == 0x0d {
                if p + 1 < end && src[p + 1] == 0x0a {
                    p + 2
                } else {
                    p + 1
                }
            } else {
                p
            }
        },
    }
}

/// Where the text `start..end` ends after the cut.
pub fn cut_trail(src: &[u8], start: usize, end: usize, cut: Cut) -> (r: usize)
    requires
        start <= end <= src@.len(),
    ensures
        r == trail_cut(src@, start as int, end as int, cut),
        start <= r <= end,
{
    match cut {
        Cut::Keep => end,
        Cut::All => skip_down(src, start, end, true),
        Cut::Line => skip_down(src, start, end, false),
    }
}

/// Whether the tag at `t` holds a mark of rule `mark`.
pub fn find_mark(n: &Vec<Node>, t: usize, mark: Rule) -> (r: bool)
    requires
        nested(n@),
        t < n@.len(),
    ensures
        r == has_mark(n@, t as int, mark),
{
    let total: usize = n.len();
    assert(t + n@[t as int].size < total);
    let hi: usize = t + n[t].size;
    let mut k: usize = t + 1;
    while k <= hi
        invariant
            t < k <= hi + 1,
            hi == t + n@[t as int].size,
            hi < n@.len() == total,
            forall|j: int| t < j < k ==> (#[trigger] n@[j]).rule != mark,
        decreases hi + 1 - k,
    {
        if n[k].rule == mark {
            return true;
        }
        k = k + 1;
    }
    false
}

/// What the tag at `t` takes off the text on the side where `mark` stands.
pub fn cut_of(src: &[u8], n: &Vec<Node>, t: usize, mark: Rule) -> (r: Cut)
    requires
        tidy(n@, 0, src@.len() as int),
        t < n@.len(),
    ensures
        r == cut_by(src@, n@, t as int, mark),
{
    proof {
        reveal(cut_by);
    }
    if find_mark(n, t, mark) {
        Cut::All
    } else if is_line_rule(n[t].rule) && blank_line_before(src, n[t].start) && blank_line_after(
        src,
        n[t].end,
    ) {
        Cut::Line
    } else {
        Cut::Keep
    }
}

/// Finds the first tag from the node at `i` on.
pub fn find_tag_from(n: &Vec<Node>, i: usize) -> (r: Option<usize>)
    requires
        i <= n@.len(),
    ensures
        r matches Some(t) ==> tag_from(n@, i as int) == Some(t as int) && i <= t < n@.len(),
        r is None ==> tag_from(n@, i as int) is None,
{
    let total: usize = n.len();
    let mut k: usize = i;
    while k < total
        invariant
            i <= k <= total,
            total == n@.len(),
            tag_from(n@, i as int) == tag_from(n@, k as int),
        decreases total - k,
    {
        if is_tag_rule(n[k].rule) {
            return Some(k);
        }
        k = k + 1;
    }
    None
}

/// Narrows every literal text of the tree as the tags around it ask.
pub fn trim(src: &[u8], n: &Vec<Node>) -> (r: Vec<Node>)
    requires
        tidy(n@, 0, src@.len() as int),
    ensures
        r@ == trimmed(src@, n@),
        tidy(r@, 0, src@.len() as int),
{
    let total: usize = n.len();
    let mut out: Vec<Node> = Vec::new();
    let mut before: Option<usize> = None;
    let mut i: usize = 0;
    while i < total
        invariant
            i <= total,
            total == n@.len(),
            tidy(n@, 0, src@.len() as int),
            out@.len() == i,
            forall|k: int| 0 <= k < i ==> out@[k] == narrowed(src@, n@, k),
            forall|k: int|
                0 <= k < i ==> (#[trigger] out@[k]).size == n@[k].size && 0 <= out@[k].start
                    <= out@[k].end <= src@.len(),
            match before {
                Some(t) => t < i && tag_before(n@, i as int) == Some(t as int),
                None => tag_before(n@, i as int) is None,
            },
        decreases total - i,
    {
        let node = n[i];
        let ghost done = out@;
        proof {
            reveal(narrowed);
        }
        if matches!(node.rule, Rule::raw_text) {
            let lead = match before {
                Some(t) => {
                    if n[t].end == node.start {
                        cut_of(src, n, t, Rule::pro_whitespace_omitter)
                    } else {
                        Cut::Keep
                    }
                },
                None => Cut::Keep,
            };
            let trail = match find_tag_from(n, i + 1) {
                Some(t) => {
                    if n[t].start == node.end {
                        cut_of(src, n, t, Rule::pre_whitespace_omitter)
                    } else {
                        Cut::Keep
                    }
                },
                None => Cut::Keep,
            };
            let start: usize = cut_lead(src, node.start, node.end, lead);
            let end: usize = cut_trail(src, start, node.end, trail);
            out.push(Node { rule: node.rule, start, end, size: node.size });
            assert(out@[i as int] == narrowed(src@, n@, i as int));
        } else {
            out.push(node);
            assert(out@[i as int] == narrowed(src@, n@, i as int));
        }
        assert forall|k: int| 0 <= k < i + 1 implies out@[k] == narrowed(src@, n@, k) by {
            if k < i {
                assert(out@[k] == done[k]);
            }
        }
        if is_tag_rule(node.rule) {
            before = Some(i);
        }
        i = i + 1;
    }
    assert(out@ =~= trimmed(src@, n@));
    out
}

/// The bytes from `pos` up to `end` without the first byte, the backslash,
/// of each escape among the nodes from `k` up to `hi` that starts there.
pub open spec fn plain(src: Seq<u8>, n: Seq<Node>, k: int, hi: int, pos: int, end: int) -> Seq<u8>
    decreases hi - k,
{
    if k >= hi {
        src.subrange(pos, end)
    } else if n[k].rule == Rule::escape && pos <= n[k].start < end {
        src.subrange(pos, n[k].start as int) + plain(src, n, k + 1, hi, n[k].start + 1, end)
    } else {
        plain(src, n, k + 1, hi, pos, end)
    }
}

/// The literal text of the node at `i`: the bytes it covers, without the
/// backslash of each escape below it.
pub open spec fn text_of(src: Seq<u8>, n: Seq<Node>, i: int) -> Seq<u8> {
    plain(src, n, i + 1, i + 1 + n[i].size, n[i].start as int, n[i].end as int)
}

/// The literal text of the node at `i`.
pub fn literal_text(src: &[u8], n: &Vec<Node>, i: usize) -> (r: Vec<u8>)
    requires
        tidy(n@, 0, src@.len() as int),
        i < n@.len(),
    ensures
        r@ == text_of(src@, n@, i as int),
{
    let total: usize = n.len();
    assert(i + n@[i as int].size < total);
    let hi: usize = i + 1 + n[i].size;
    let end: usize = n[i].end;
    let mut pos: usize = n[i].start;
    let mut k: usize = i + 1;
    let mut out: Vec<u8> = Vec::new();
    assert(out@ + plain(src@, n@, k as int, hi as int, pos as int, end as int) =~= text_of(
        src@,
        n@,
        i as int,
    ));
    while k < hi
        invariant
            i < k <= hi <= total,
            total == n@.len(),
            pos <= end <= src@.len(),
            text_of(src@, n@, i as int) == out@ + plain(
                src@,
                n@,
                k as int,
                hi as int,
                pos as int,
                end as int,
            ),
        decreases hi - k,
    {
        let c = n[k];
        if matches!(c.rule, Rule::escape) && pos <= c.start && c.start < end {
            let ghost rest = plain(src@, n@, k + 1, hi as int, c.start + 1, end as int);
            let ghost piece = src@.subrange(pos as int, c.start as int);
            assert(out@ + (piece + rest) =~= (out@ + piece) + rest);
            out.extend_from_slice(slice_subrange(src, pos, c.start));
            pos = c.start + 1;
        }
        k = k + 1;
    }
    out.extend_from_slice(slice_subrange(src, pos, end));
    out
}

/// A template after both passes, as a mathematical value.
pub struct TemplateView {
    /// The bytes of the source text.
    pub source: Seq<u8>,
    /// The syntax tree in flat form.
    pub nodes: Seq<Node>,
}

/// The syntax tree of a template: the parse tree of the whole input by
/// the rule `handlebars`, with its literal texts narrowed.
#[derive(Debug)]
pub struct Template {
    src: Vec<u8>,
    nodes: Vec<Node>,
}

impl View for Template {
    type V = TemplateView;

    closed spec fn view(&self) -> TemplateView {
        TemplateView { source: self.src@, nodes: self.nodes@ }
    }
}

/// What compiling the input `s` gives: the error of the parse where it
/// fails, else the report of the first ill-named block where there is
/// one, else the narrowed tree.
pub open spec fn compiled(s: Seq<u8>, depth: usize) -> Result<TemplateView, Fault> {
    let out = parsed(Rule::handlebars, s, depth);
    match out.res {
        Res::Match { end, nodes } => match first_ill_named(s, nodes, 0) {
            Some(b) => Err(mismatch(s, nodes, b)),
            None => Ok(TemplateView { source: s, nodes: trimmed(s, nodes) }),
        },
        Res::NoMatch => Err(fault(out.far, s.len() as int)),
        Res::TooDeep => Err(Fault::DepthExceeded),
    }
}

/// The result `r` is what `want` says.
pub open spec fn gives(r: Result<Template, Error>, want: Result<TemplateView, Fault>) -> bool {
    match want {
        Ok(v) => r matches Ok(t) && t@ == v,
        Err(f) => r matches Err(e) && e@ == f,
    }
}

impl Template {
    #[verifier::type_invariant]
    spec fn inv(self) -> bool {
        tidy(self.nodes@, 0, self.src@.len() as int)
    }

    /// Compiles a template given as bytes, with at most `depth` rules one
    /// inside the other.
    pub fn compile_bytes(src: &[u8], depth: usize) -> (r: Result<Template, Error>)
        ensures
            gives(r, compiled(src@, depth)),
    {
        match parse_bytes(Rule::handlebars, src, depth) {
            Ok(pairs) => {
                let parsed_nodes = pairs.nodes();
                match check_blocks(src, parsed_nodes) {
                    Ok(()) => {
                        let nodes = trim(src, parsed_nodes);
                        Ok(Template { src: slice_to_vec(src), nodes })
                    },
                    Err(e) => Err(e),
                }
            },
            Err(e) => Err(e),
        }
    }

    /// Compiles a template: parses the whole text, checks the names of its
    /// blocks and narrows its literal texts.
    pub fn compile(input: &str) -> (r: Result<Template, Error>)
        ensures
            gives(r, compiled(input.spec_bytes(), MAX_DEPTH)),
    {
        Template::compile_bytes(input.as_bytes(), MAX_DEPTH)
    }

    /// The bytes of the source text.
    pub fn source(&self) -> (r: &Vec<u8>)
        ensures
            r@ == self@.source,
    {
        &self.src
    }

    /// The nodes of the tree, in document order.
    pub fn nodes(&self) -> (r: &Vec<Node>)
        ensures
            r@ == self@.nodes,
            tidy(r@, 0, self@.source.len() as int),
    {
        proof {
            use_type_invariant(self);
        }
        &self.nodes
    }

    /// The tree, to be walked from its root.
    pub fn pairs(&self) -> (r: Pairs)
        ensures
            r@ == self@.nodes,
    {
        proof {
            use_type_invariant(self);
        }
        Pairs::new(self.nodes.clone())
    }

    /// The literal text of the node at `i`, if there is such a node.
    pub fn text(&self, i: usize) -> (r: Option<Vec<u8>>)
        ensures
            match r {
                Some(t) => i < self@.nodes.len() && t@ == text_of(
                    self@.source,
                    self@.nodes,
                    i as int,
                ),
                None => i >= self@.nodes.len(),
            },
    {
        proof {
            use_type_invariant(self);
        }
        if i < self.nodes.len() {
            Some(literal_text(self.src.as_slice(), &self.nodes, i))
        } else {
            None
        }
    }
}

} // verus!

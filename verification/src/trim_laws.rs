//! Laws of the pass that narrows literal text: what a tag takes off the
//! text around it, and what the pass leaves as it is.
use crate::lexical::{is_inline_space, is_line_break};
use crate::rule::Rule;
use crate::semantics::{after, is_space, parsed};
use crate::template::{
    cut_by, cuts, first_ill_named, first_name, has_mark, ill_named, is_name_rule, last_name,
    lead, lead_cut, narrowed, spaces_down, spaces_up, stands_alone, tag_before, tag_from,
    trimmed, Cut,
};
use crate::tree::{nested, Node};
use vstd::prelude::*;

verus! {

/// Skipping spaces and tabs upwards stops inside the range, passes only
/// spaces and tabs, and stops at the end or before another byte.
pub proof fn lemma_spaces_up(s: Seq<u8>, pos: int, hi: int)
    requires
        0 <= pos <= hi <= s.len(),
    ensures
        pos <= spaces_up(s, pos, hi, false) <= hi,
        forall|j: int| pos <= j < spaces_up(s, pos, hi, false) ==> is_inline_space(#[trigger] s[j]),
        spaces_up(s, pos, hi, false) < hi ==> !is_inline_space(s[spaces_up(s, pos, hi, false)]),
    decreases hi - pos,
{
    if pos < hi && is_inline_space(s[pos]) {
        lemma_spaces_up(s, pos + 1, hi);
    }
}

/// Skipping spaces and tabs downwards stops inside the range, passes only
/// spaces and tabs, and stops at the start or behind another byte.
pub proof fn lemma_spaces_down(s: Seq<u8>, lo: int, pos: int)
    requires
        0 <= lo <= pos <= s.len(),
    ensures
        lo <= spaces_down(s, lo, pos, false) <= pos,
        forall|j: int|
            spaces_down(s, lo, pos, false) <= j < pos ==> is_inline_space(#[trigger] s[j]),
        lo < spaces_down(s, lo, pos, false) ==> !is_inline_space(
            s[spaces_down(s, lo, pos, false) - 1],
        ),
    decreases pos - lo,
{
    if lo < pos && is_inline_space(s[pos - 1]) {
        lemma_spaces_down(s, lo, pos - 1);
    }
}

/// An expression without `~` leaves the literal text around it untouched,
/// whatever else stands on its line: a text whose neighbours are such
/// expressions, or the ends of the input, stays as it was parsed.
pub proof fn law_expression_keeps_text(src: Seq<u8>, n: Seq<Node>, i: int)
    requires
        0 <= i < n.len(),
        n[i].rule == Rule::raw_text,
        tag_before(n, i) matches Some(t) ==> (n[t].rule == Rule::expression || n[t].rule
            == Rule::html_expression) && !has_mark(n, t, Rule::pro_whitespace_omitter),
        tag_from(n, i + 1) matches Some(t) ==> (n[t].rule == Rule::expression || n[t].rule
            == Rule::html_expression) && !has_mark(n, t, Rule::pre_whitespace_omitter),
    ensures
        trimmed(src, n)[i] == n[i],
{
    reveal(cut_by);
    reveal(narrowed);
}

/// A tag of a block, a partial, a decorator or a comment that stands alone
/// on its line, without `~`, takes the rest of its line with it: of the
/// text that starts where the tag ends, the spaces and tabs at the start
/// go, and the line break behind them.
pub proof fn law_line_goes_behind_tag(src: Seq<u8>, n: Seq<Node>, t: int, i: int)
    requires
        0 <= i < n.len(),
        n[i].rule == Rule::raw_text,
        0 <= n[i].start <= n[i].end <= src.len(),
        tag_before(n, i) == Some(t),
        n[t].end == n[i].start,
        stands_alone(src, n, t),
        !has_mark(n, t, Rule::pro_whitespace_omitter),
    ensures
        ({
            let start = n[i].start as int;
            let end = n[i].end as int;
            let spaces = spaces_up(src, start, end, false);
            let cut = trimmed(src, n)[i].start as int;
            &&& start <= spaces <= cut <= end
            &&& forall|j: int| start <= j < spaces ==> is_inline_space(#[trigger] src[j])
            &&& spaces < end ==> is_line_break(src[spaces]) && spaces < cut <= spaces + 2
            &&& forall|j: int| spaces <= j < cut ==> is_line_break(#[trigger] src[j])
            &&& cut == spaces + 2 ==> src[spaces] == 0x0d && src[spaces + 1] == 0x0a
        }),
{
    reveal(cut_by);
    reveal(narrowed);
    let start = n[i].start as int;
    let end = n[i].end as int;
    lemma_spaces_up(src, start, end);
    let spaces = spaces_up(src, start, end, false);
    let behind = src.subrange(n[t].end as int, src.len() as int);
    if spaces < end {
        let k = choose|k: int|
            0 <= k < behind.len() && is_line_break(#[trigger] behind[k]) && forall|j: int|
                0 <= j < k ==> is_inline_space(#[trigger] behind[j]);
        assert(behind[spaces - start] == src[spaces]);
        if k < spaces - start {
            assert(behind[k] == src[start + k]);
            assert(is_inline_space(src[start + k]));
        }
        if k > spaces - start {
            assert(is_inline_space(behind[spaces - start]));
        }
        assert(k == spaces - start);
    }
}

/// A tag of a block, a partial, a decorator or a comment that stands alone
/// on its line, without `~`, takes the start of its line with it: of the
/// text that ends where the tag starts, the spaces and tabs at the end
/// go, and nothing else.
pub proof fn law_line_goes_before_tag(src: Seq<u8>, n: Seq<Node>, t: int, i: int)
    requires
        0 <= i < n.len(),
        n[i].rule == Rule::raw_text,
        0 <= n[i].start <= n[i].end <= src.len(),
        tag_from(n, i + 1) == Some(t),
        n[t].start == n[i].end,
        stands_alone(src, n, t),
        !has_mark(n, t, Rule::pre_whitespace_omitter),
        lead(src, n, i) == Cut::Keep,
    ensures
        ({
            let start = n[i].start as int;
            let end = n[i].end as int;
            let cut = trimmed(src, n)[i].end as int;
            &&& trimmed(src, n)[i].start == n[i].start
            &&& start <= cut <= end
            &&& forall|j: int| cut <= j < end ==> is_inline_space(#[trigger] src[j])
            &&& start < cut ==> !is_inline_space(src[cut - 1])
        }),
{
    reveal(cut_by);
    reveal(narrowed);
    lemma_spaces_down(src, n[i].start as int, n[i].end as int);
}

/// `~` takes the white space on its side: behind a tag that ends in `~`
/// the text starts with a byte that is no white space, or is empty.
pub proof fn law_tilde_takes_all(src: Seq<u8>, n: Seq<Node>, t: int, i: int)
    requires
        0 <= i < n.len(),
        n[i].rule == Rule::raw_text,
        0 <= n[i].start <= n[i].end <= src.len(),
        tag_before(n, i) == Some(t),
        n[t].end == n[i].start,
        has_mark(n, t, Rule::pro_whitespace_omitter),
    ensures
        ({
            let cut = trimmed(src, n)[i].start as int;
            &&& n[i].start <= cut <= n[i].end
            &&& forall|j: int| n[i].start <= j < cut ==> is_space(#[trigger] src[j])
            &&& cut < n[i].end ==> !is_space(src[cut])
        }),
{
    reveal(cut_by);
    reveal(narrowed);
    lemma_all_spaces_up(src, n[i].start as int, n[i].end as int);
}

/// Skipping white space upwards stops inside the range, passes only white
/// space, and stops at the end or before another byte.
pub proof fn lemma_all_spaces_up(s: Seq<u8>, pos: int, hi: int)
    requires
        0 <= pos <= hi <= s.len(),
    ensures
        pos <= spaces_up(s, pos, hi, true) <= hi,
        forall|j: int|
            pos <= j < spaces_up(s, pos, hi, true) ==> is_space(#[trigger] s[j]),
        spaces_up(s, pos, hi, true) < hi ==> !is_space(
            s[spaces_up(s, pos, hi, true)],
        ),
    decreases hi - pos,
{
    if pos < hi && is_space(s[pos]) {
        lemma_all_spaces_up(s, pos + 1, hi);
    }
}

/// Skipping white space of either kind stays inside the range.
pub proof fn lemma_skips_stay(s: Seq<u8>, lo: int, hi: int, all: bool)
    requires
        0 <= lo <= hi <= s.len(),
    ensures
        lo <= spaces_up(s, lo, hi, all) <= hi,
        lo <= spaces_down(s, lo, hi, all) <= hi,
{
    lemma_up_stays(s, lo, hi, all);
    lemma_down_stays(s, lo, hi, all);
}

/// Skipping white space upwards stays inside the range.
proof fn lemma_up_stays(s: Seq<u8>, pos: int, hi: int, all: bool)
    requires
        0 <= pos <= hi <= s.len(),
    ensures
        pos <= spaces_up(s, pos, hi, all) <= hi,
    decreases hi - pos,
{
    if pos < hi && cuts(s[pos], all) {
        lemma_up_stays(s, pos + 1, hi, all);
    }
}

/// Skipping white space downwards stays inside the range.
proof fn lemma_down_stays(s: Seq<u8>, lo: int, pos: int, all: bool)
    requires
        0 <= lo <= pos <= s.len(),
    ensures
        lo <= spaces_down(s, lo, pos, all) <= pos,
    decreases pos - lo,
{
    if lo < pos && cuts(s[pos - 1], all) {
        lemma_down_stays(s, lo, pos - 1, all);
    }
}

/// Narrowing keeps the shape of the tree: every node keeps its rule and
/// the number of nodes below it; only a literal text changes its range,
/// and only to a part of what it covered.
pub proof fn law_narrowing_keeps_shape(src: Seq<u8>, n: Seq<Node>, i: int)
    requires
        0 <= i < n.len(),
        n[i].start <= n[i].end <= src.len(),
    ensures
        trimmed(src, n).len() == n.len(),
        trimmed(src, n)[i].rule == n[i].rule,
        trimmed(src, n)[i].size == n[i].size,
        n[i].start <= trimmed(src, n)[i].start <= trimmed(src, n)[i].end <= n[i].end,
        n[i].rule != Rule::raw_text ==> trimmed(src, n)[i] == n[i],
{
    reveal(narrowed);
    let start = n[i].start as int;
    let end = n[i].end as int;
    lemma_skips_stay(src, start, end, true);
    lemma_skips_stay(src, start, end, false);
    let from = lead_cut(src, start, end, lead(src, n, i));
    assert(start <= from <= end);
    lemma_skips_stay(src, from, end, true);
    lemma_skips_stay(src, from, end, false);
}

/// Where no block from `from` on is ill named, the block at `b` is not.
proof fn lemma_none_ill(src: Seq<u8>, n: Seq<Node>, from: int, b: int)
    requires
        first_ill_named(src, n, from) is None,
        0 <= from <= b < n.len(),
    ensures
        !ill_named(src, n, b),
    decreases n.len() - from,
{
    if from < b {
        lemma_none_ill(src, n, from + 1, b);
    }
}

/// Sequences with the same rules in a range hold their first and their
/// last name at the same places.
proof fn lemma_names_by_rule(a: Seq<Node>, b: Seq<Node>, lo: int, hi: int)
    requires
        forall|k: int| lo <= k < hi ==> (#[trigger] a[k]).rule == b[k].rule,
    ensures
        first_name(a, lo, hi) == first_name(b, lo, hi),
        last_name(a, lo, hi) == last_name(b, lo, hi),
    decreases hi - lo,
{
    if lo < hi {
        lemma_names_by_rule(a, b, lo + 1, hi);
        lemma_names_by_rule(a, b, lo, hi - 1);
        assert(a[lo].rule == b[lo].rule);
        assert(a[hi - 1].rule == b[hi - 1].rule);
    }
}

/// A first or last name, where there is one, lies in its range and is a
/// name.
proof fn lemma_name_found(n: Seq<Node>, lo: int, hi: int)
    ensures
        first_name(n, lo, hi) matches Some(i) ==> lo <= i < hi && is_name_rule(
            n[i].rule,
        ),
        last_name(n, lo, hi) matches Some(i) ==> lo <= i < hi && is_name_rule(
            n[i].rule,
        ),
    decreases hi - lo,
{
    if lo < hi {
        lemma_name_found(n, lo + 1, hi);
        lemma_name_found(n, lo, hi - 1);
    }
}

/// Narrowing does not touch the names of blocks: in a tree in which every
/// block is closed under the name it was opened with, this is so after
/// narrowing too.
pub proof fn law_names_outlast_narrowing(src: Seq<u8>, n: Seq<Node>, b: int)
    requires
        nested(n),
        first_ill_named(src, n, 0) is None,
        0 <= b < n.len(),
    ensures
        !ill_named(src, trimmed(src, n), b),
{
    reveal(narrowed);
    let t = trimmed(src, n);
    let lo = b + 1;
    let hi = b + 1 + n[b].size;
    lemma_none_ill(src, n, 0, b);
    assert(t[b].size == n[b].size && t[b].rule == n[b].rule);
    assert forall|k: int| lo <= k < hi implies (#[trigger] t[k]).rule == n[k].rule by {
        assert(k < n.len());
    }
    lemma_names_by_rule(t, n, lo, hi);
    lemma_name_found(n, lo, hi);
    if first_name(n, lo, hi) is Some && last_name(n, lo, hi) is Some {
        let i = first_name(n, lo, hi).unwrap();
        let j = last_name(n, lo, hi).unwrap();
        assert(t[i] == n[i]);
        assert(t[j] == n[j]);
    }
}

} // verus!

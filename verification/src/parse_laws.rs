//! Laws of parsing by any rule: a template is parsed as a whole, a
//! failure is located in the input, and the limit on depth is a limit and
//! nothing else.
use crate::expr::Expr;
use crate::grammar::body;
use crate::rule::Rule;
use crate::semantics::{
    enter, eval, gap, is_space, note, nothing_tried, outset, parsed, peek, repeat, skip_space,
    Attempt, Ctx, Furthest, Res,
};
use crate::template::compiled;
use vstd::prelude::*;

verus! {

/// A template is parsed as a whole or not at all: where the rule
/// `handlebars` matches, it matches up to the end of the input.
pub proof fn law_whole_input(s: Seq<u8>, depth: usize)
    requires
        parsed(Rule::handlebars, s, depth).res is Match,
    ensures
        parsed(Rule::handlebars, s, depth).res->end == s.len(),
{
    reveal(body);
    reveal_with_fuel(eval, 3);
}

/// The record of failures is in order for an input of `len` bytes: its
/// position lies in the input, no attempt stands in it twice, and every
/// attempt had begun at or before the position.
pub open spec fn located(f: Furthest, len: int) -> bool {
    &&& 0 <= f.at <= len
    &&& f.tried.no_duplicates()
    &&& forall|i: int| 0 <= i < f.tried.len() ==> (#[trigger] f.tried[i]).since <= f.at
}

/// Recording a failure keeps the record in order.
proof fn lemma_note_located(f: Furthest, c: Ctx, pos: int, len: int)
    requires
        located(f, len),
        0 <= pos <= len,
        c.since <= pos,
    ensures
        located(note(f, c, pos), len),
{
    let a = Attempt { rule: c.rule, since: c.since };
    let g = note(f, c, pos);
    if !c.quiet && !(f.tried.len() == 0 || pos > f.at) && pos == f.at && !f.tried.contains(a) {
        assert forall|i: int, j: int|
            0 <= i < g.tried.len() && 0 <= j < g.tried.len() && i != j implies g.tried[i]
            != g.tried[j] by {
            if i < f.tried.len() && j < f.tried.len() {
                assert(f.tried[i] != f.tried[j]);
            } else if i < f.tried.len() {
                assert(f.tried.contains(f.tried[i]));
            } else {
                assert(f.tried.contains(f.tried[j]));
            }
        }
    }
}

/// Skipping white space moves on, and not beyond the input.
proof fn lemma_skip_stays(s: Seq<u8>, pos: int)
    requires
        0 <= pos <= s.len(),
    ensures
        pos <= skip_space(s, pos) <= s.len(),
    decreases s.len() - pos,
{
    if pos < s.len() && is_space(s[pos]) {
        lemma_skip_stays(s, pos + 1);
    }
}

/// Matching moves on, not beyond the input, and keeps the record of
/// failures in order.
proof fn lemma_eval_located(e: Expr, s: Seq<u8>, c: Ctx, pos: int, f: Furthest)
    requires
        0 <= pos <= s.len() <= usize::MAX,
        c.since <= pos,
        located(f, s.len() as int),
    ensures
        located(eval(e, s, c, pos, f).far, s.len() as int),
        eval(e, s, c, pos, f).res matches Res::Match { end, .. } ==> pos <= end <= s.len(),
    decreases c.depth, e, 0int,
{
    let len = s.len() as int;
    lemma_note_located(f, c, pos, len);
    match e {
        Expr::Chain(a, b) => {
            lemma_eval_located(*a, s, c, pos, f);
            let first = eval(*a, s, c, pos, f);
            if let Res::Match { end, nodes } = first.res {
                lemma_skip_stays(s, end);
                lemma_eval_located(*b, s, c, gap(s, c, end), first.far);
            }
        },
        Expr::Either(a, b) => {
            lemma_eval_located(*a, s, c, pos, f);
            lemma_eval_located(*b, s, c, pos, eval(*a, s, c, pos, f).far);
        },
        Expr::Maybe(a) => {
            lemma_eval_located(*a, s, c, pos, f);
        },
        Expr::Many(a) => {
            lemma_repeat_located(*a, s, c, pos, f, true);
        },
        Expr::More(a) => {
            lemma_eval_located(*a, s, c, pos, f);
            let first = eval(*a, s, c, pos, f);
            if let Res::Match { end, nodes } = first.res {
                if pos < end {
                    lemma_repeat_located(*a, s, c, end, first.far, false);
                }
            }
        },
        Expr::Unless(a) => {
            lemma_eval_located(*a, s, peek(c), pos, f);
            lemma_note_located(eval(*a, s, peek(c), pos, f).far, c, pos, len);
        },
        Expr::Ahead(a) => {
            lemma_eval_located(*a, s, peek(c), pos, f);
            lemma_note_located(eval(*a, s, peek(c), pos, f).far, c, pos, len);
        },
        Expr::Call(r) => {
            if c.depth > 0 {
                let inside = enter(c, r, pos);
                lemma_eval_located(body(r), s, inside, pos, f);
                lemma_note_located(eval(body(r), s, inside, pos, f).far, c, pos, len);
            }
        },
        _ => {},
    }
}

/// Repeating moves on, not beyond the input, and keeps the record of
/// failures in order.
proof fn lemma_repeat_located(e: Expr, s: Seq<u8>, c: Ctx, pos: int, f: Furthest, first: bool)
    requires
        0 <= pos <= s.len() <= usize::MAX,
        c.since <= pos,
        located(f, s.len() as int),
    ensures
        located(repeat(e, s, c, pos, f, first).far, s.len() as int),
        repeat(e, s, c, pos, f, first).res matches Res::Match { end, .. } ==> pos <= end
            <= s.len(),
    decreases c.depth, e, 1 + s.len() - pos,
{
    lemma_skip_stays(s, pos);
    let from = if first {
        pos
    } else {
        gap(s, c, pos)
    };
    lemma_eval_located(e, s, c, from, f);
    let one = eval(e, s, c, from, f);
    if let Res::Match { end, nodes } = one.res {
        if pos < end <= s.len() {
            lemma_repeat_located(e, s, c, end, one.far, false);
        }
    }
}

/// A failure is located: whatever rule a parse starts with, the furthest
/// failure that it records lies in the input, names each attempt once, and
/// names only attempts that had begun at or before it.
pub proof fn law_failure_is_located(r: Rule, s: Seq<u8>, depth: usize)
    requires
        s.len() <= usize::MAX,
    ensures
        located(parsed(r, s, depth).far, s.len() as int),
        parsed(r, s, depth).res matches Res::Match { end, .. } ==> 0 <= end <= s.len(),
{
    lemma_eval_located(Expr::Call(r), s, outset(r, depth), 0, nothing_tried());
}

/// The context `d` is `c` with at least as many rules left to enter.
pub open spec fn deeper(c: Ctx, d: Ctx) -> bool {
    &&& d.depth >= c.depth
    &&& d.joined == c.joined
    &&& d.mute == c.mute
    &&& d.quiet == c.quiet
    &&& d.rule == c.rule
    &&& d.since == c.since
}

/// Matching that does not run too deep ends the same with more depth.
proof fn lemma_eval_deeper(e: Expr, s: Seq<u8>, c: Ctx, d: Ctx, pos: int, f: Furthest)
    requires
        deeper(c, d),
        !(eval(e, s, c, pos, f).res is TooDeep),
    ensures
        eval(e, s, d, pos, f) == eval(e, s, c, pos, f),
    decreases c.depth, e, 0int,
{
    match e {
        Expr::Chain(a, b) => {
            let first = eval(*a, s, c, pos, f);
            lemma_eval_deeper(*a, s, c, d, pos, f);
            if let Res::Match { end, nodes } = first.res {
                lemma_eval_deeper(*b, s, c, d, gap(s, c, end), first.far);
            }
        },
        Expr::Either(a, b) => {
            let first = eval(*a, s, c, pos, f);
            lemma_eval_deeper(*a, s, c, d, pos, f);
            if first.res is NoMatch {
                lemma_eval_deeper(*b, s, c, d, pos, first.far);
            }
        },
        Expr::Maybe(a) => {
            lemma_eval_deeper(*a, s, c, d, pos, f);
        },
        Expr::Many(a) => {
            lemma_repeat_deeper(*a, s, c, d, pos, f, true);
        },
        Expr::More(a) => {
            let first = eval(*a, s, c, pos, f);
            lemma_eval_deeper(*a, s, c, d, pos, f);
            if let Res::Match { end, nodes } = first.res {
                if pos < end {
                    lemma_repeat_deeper(*a, s, c, d, end, first.far, false);
                }
            }
        },
        Expr::Unless(a) => {
            lemma_eval_deeper(*a, s, peek(c), peek(d), pos, f);
        },
        Expr::Ahead(a) => {
            lemma_eval_deeper(*a, s, peek(c), peek(d), pos, f);
        },
        Expr::Call(r) => {
            lemma_eval_deeper(body(r), s, enter(c, r, pos), enter(d, r, pos), pos, f);
        },
        _ => {},
    }
}

/// Repeating that does not run too deep ends the same with more depth.
proof fn lemma_repeat_deeper(
    e: Expr,
    s: Seq<u8>,
    c: Ctx,
    d: Ctx,
    pos: int,
    f: Furthest,
    first: bool,
)
    requires
        deeper(c, d),
        !(repeat(e, s, c, pos, f, first).res is TooDeep),
    ensures
        repeat(e, s, d, pos, f, first) == repeat(e, s, c, pos, f, first),
    decreases c.depth, e, 1 + s.len() - pos,
{
    if 0 <= pos <= s.len() {
        let from = if first {
            pos
        } else {
            gap(s, c, pos)
        };
        let one = eval(e, s, c, from, f);
        lemma_eval_deeper(e, s, c, d, from, f);
        if let Res::Match { end, nodes } = one.res {
            if pos < end <= s.len() {
                lemma_repeat_deeper(e, s, c, d, end, one.far, false);
            }
        }
    }
}

/// The depth is a limit and nothing else: a parse that stays within it
/// ends the same under every higher limit, and so does compiling.
pub proof fn law_depth_only_limits(r: Rule, s: Seq<u8>, depth: usize, higher: usize)
    requires
        depth <= higher,
        !(parsed(r, s, depth).res is TooDeep),
    ensures
        parsed(r, s, higher) == parsed(r, s, depth),
        r == Rule::handlebars ==> compiled(s, higher) == compiled(s, depth),
{
    lemma_eval_deeper(Expr::Call(r), s, outset(r, depth), outset(r, higher), 0, nothing_tried());
}

} // verus!

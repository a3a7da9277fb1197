//! What the grammar means: for an expression, an input and a position, the
//! outcome of matching.
//!
//! Matching threads one more value through: the furthest position at which
//! a match failed, with the rules that were being tried there. A failure is
//! recorded where a text, a byte or the end of the input is looked for in
//! vain, where a look-ahead turns a match down, and where a called rule
//! does not match; it is recorded for the innermost rule that leaves a
//! node. Inside a look-ahead nothing is recorded.
use crate::expr::Expr;
use crate::grammar::{body, kind};
use crate::rule::{Rule, RuleKind};
use crate::tree::Node;
use vstd::prelude::*;
use vstd::string::StringSliceAdditionalSpecFns;

verus! {

/// Where matching stands in the grammar.
#[derive(Clone, Copy, Debug)]
pub struct Ctx {
    /// How many more rules may be entered one inside the other.
    pub depth: usize,
    /// No white space is skipped between the parts of a chain.
    pub joined: bool,
    /// Matches leave no nodes.
    pub mute: bool,
    /// Failures are not recorded.
    pub quiet: bool,
    /// The innermost rule that leaves a node.
    pub rule: Rule,
    /// Where that rule started.
    pub since: usize,
}

/// A rule that was being tried, and where it had started.
#[derive(Clone, Copy, Debug, PartialEq, Eq, Structural)]
pub struct Attempt {
    pub rule: Rule,
    pub since: usize,
}

/// The furthest position at which a match failed, and what was tried
/// there, each attempt once, in the order of trying. Before any failure
/// `tried` is empty.
pub struct Furthest {
    pub at: int,
    pub tried: Seq<Attempt>,
}

/// How matching an expression ended.
pub enum Res {
    /// It matched up to `end` and left `nodes`.
    Match { end: int, nodes: Seq<Node> },
    /// It did not match.
    NoMatch,
    /// Rules were nested deeper than allowed; the whole parse is given up.
    TooDeep,
}

/// The outcome of matching, and the failures recorded up to then.
pub struct Out {
    pub res: Res,
    pub far: Furthest,
}

/// A space, a tab, a line feed or a carriage return.
pub open spec fn is_space(b: u8) -> bool {
    b == 0x20 || b == 0x09 || b == 0x0a || b == 0x0d
}

/// The first position from `pos` on that holds no white space.
pub open spec fn skip_space(s: Seq<u8>, pos: int) -> int
    decreases s.len() - pos,
{
    if 0 <= pos < s.len() && is_space(s[pos]) {
        skip_space(s, pos + 1)
    } else {
        pos
    }
}

/// Where the next part of a chain starts after a part that ended at `pos`.
pub open spec fn gap(s: Seq<u8>, c: Ctx, pos: int) -> int {
    if c.joined {
        pos
    } else {
        skip_space(s, pos)
    }
}

/// The bytes `t` stand in `s` at `pos`.
pub open spec fn text_at(s: Seq<u8>, pos: int, t: Seq<u8>) -> bool {
    &&& 0 <= pos
    &&& pos + t.len() <= s.len()
    &&& forall|i: int| 0 <= i < t.len() ==> s[pos + i] == t[i]
}

/// The record after a failure at `pos`: a failure further on than any
/// before starts the record anew, one at the same position is added to it
/// unless it is there already, and one less far on is dropped.
pub open spec fn note(f: Furthest, c: Ctx, pos: int) -> Furthest {
    let a = Attempt { rule: c.rule, since: c.since };
    if c.quiet {
        f
    } else if f.tried.len() == 0 || pos > f.at {
        Furthest { at: pos, tried: seq![a] }
    } else if pos == f.at && !f.tried.contains(a) {
        Furthest { at: pos, tried: f.tried.push(a) }
    } else {
        f
    }
}

/// A match up to `end` that leaves no node.
pub open spec fn hit(end: int, f: Furthest) -> Out {
    Out { res: Res::Match { end, nodes: Seq::empty() }, far: f }
}

/// A failure at `pos`.
pub open spec fn miss(f: Furthest, c: Ctx, pos: int) -> Out {
    Out { res: Res::NoMatch, far: note(f, c, pos) }
}

/// The outcome `out` with `before` put in front of its nodes.
pub open spec fn after(before: Seq<Node>, out: Out) -> Out {
    match out.res {
        Res::Match { end, nodes } => Out {
            res: Res::Match { end, nodes: before + nodes },
            far: out.far,
        },
        _ => out,
    }
}

/// The context inside a look-ahead: nothing is left and nothing recorded.
pub open spec fn peek(c: Ctx) -> Ctx {
    Ctx { mute: true, quiet: true, ..c }
}

/// The context inside rule `r`, entered at `pos`.
pub open spec fn enter(c: Ctx, r: Rule, pos: int) -> Ctx {
    let k = kind(r);
    Ctx {
        depth: (c.depth - 1) as usize,
        joined: if k == RuleKind::Spaced {
            false
        } else if k == RuleKind::Joined || k == RuleKind::Token {
            true
        } else {
            c.joined
        },
        mute: c.mute || k == RuleKind::Token,
        quiet: c.quiet,
        rule: if k == RuleKind::Silent {
            c.rule
        } else {
            r
        },
        since: if k == RuleKind::Silent {
            c.since
        } else {
            pos as usize
        },
    }
}

/// What a match of rule `r` from `pos` to `end` leaves, where its body
/// left `inner`.
pub open spec fn leave(c: Ctx, r: Rule, pos: int, end: int, inner: Seq<Node>) -> Seq<Node> {
    if c.mute {
        Seq::empty()
    } else if kind(r) == RuleKind::Silent {
        inner
    } else if kind(r) == RuleKind::Token {
        seq![Node { rule: r, start: pos as usize, end: end as usize, size: 0 }]
    } else {
        seq![Node { rule: r, start: pos as usize, end: end as usize, size: inner.len() as usize }]
            + inner
    }
}

/// The outcome of matching `e` against `s` at `pos`.
pub open spec fn eval(e: Expr, s: Seq<u8>, c: Ctx, pos: int, f: Furthest) -> Out
    decreases c.depth, e, 0int,
{
    match e {
        Expr::Text(t) => {
            if text_at(s, pos, t.spec_bytes()) {
                hit(pos + t.spec_bytes().len(), f)
            } else {
                miss(f, c, pos)
            }
        },
        Expr::Range(lo, hi) => {
            if 0 <= pos < s.len() && lo <= s[pos] <= hi {
                hit(pos + 1, f)
            } else {
                miss(f, c, pos)
            }
        },
        Expr::AnyByte => {
            if 0 <= pos < s.len() {
                hit(pos + 1, f)
            } else {
                miss(f, c, pos)
            }
        },
        Expr::End => {
            if pos == s.len() {
                hit(pos, f)
            } else {
                miss(f, c, pos)
            }
        },
        Expr::Chain(a, b) => {
            let first = eval(*a, s, c, pos, f);
            match first.res {
                Res::Match { end, nodes } => after(
                    nodes,
                    eval(*b, s, c, gap(s, c, end), first.far),
                ),
                _ => first,
            }
        },
        Expr::Either(a, b) => {
            let first = eval(*a, s, c, pos, f);
            match first.res {
                Res::NoMatch => eval(*b, s, c, pos, first.far),
                _ => first,
            }
        },
        Expr::Maybe(a) => {
            let first = eval(*a, s, c, pos, f);
            match first.res {
                Res::NoMatch => hit(pos, first.far),
                _ => first,
            }
        },
        Expr::Many(a) => repeat(*a, s, c, pos, f, true),
        Expr::More(a) => {
            let first = eval(*a, s, c, pos, f);
            match first.res {
                Res::Match { end, nodes } => {
                    if pos < end {
                        after(nodes, repeat(*a, s, c, end, first.far, false))
                    } else {
                        first
                    }
                },
                _ => first,
            }
        },
        Expr::Unless(a) => {
            let inner = eval(*a, s, peek(c), pos, f);
            match inner.res {
                Res::Match { .. } => miss(inner.far, c, pos),
                Res::NoMatch => hit(pos, inner.far),
                Res::TooDeep => inner,
            }
        },
        Expr::Ahead(a) => {
            let inner = eval(*a, s, peek(c), pos, f);
            match inner.res {
                Res::Match { .. } => hit(pos, inner.far),
                Res::NoMatch => miss(inner.far, c, pos),
                Res::TooDeep => inner,
            }
        },
        Expr::Call(r) => {
            if c.depth == 0 {
                Out { res: Res::TooDeep, far: f }
            } else {
                let inner = eval(body(r), s, enter(c, r, pos), pos, f);
                match inner.res {
                    Res::Match { end, nodes } => Out {
                        res: Res::Match { end, nodes: leave(c, r, pos, end, nodes) },
                        far: inner.far,
                    },
                    Res::NoMatch => miss(inner.far, c, pos),
                    Res::TooDeep => inner,
                }
            }
        },
    }
}

/// The outcome of matching `e` again and again from `pos` on, until it
/// matches no more or matches without moving on. But for the first round,
/// white space is skipped before each round where the context allows it,
/// and is given back where the round does not match.
pub open spec fn repeat(e: Expr, s: Seq<u8>, c: Ctx, pos: int, f: Furthest, first: bool) -> Out
    decreases c.depth, e, 1 + s.len() - pos,
{
    if pos < 0 || pos > s.len() {
        Out { res: Res::NoMatch, far: f }
    } else {
        let from = if first {
            pos
        } else {
            gap(s, c, pos)
        };
        let one = eval(e, s, c, from, f);
        match one.res {
            Res::Match { end, nodes } => {
                if pos < end <= s.len() {
                    after(nodes, repeat(e, s, c, end, one.far, false))
                } else {
                    one
                }
            },
            Res::NoMatch => hit(pos, one.far),
            Res::TooDeep => one,
        }
    }
}

/// The context in which a parse starts at rule `r`.
pub open spec fn outset(r: Rule, depth: usize) -> Ctx {
    Ctx { depth, joined: false, mute: false, quiet: false, rule: r, since: 0 }
}

/// The record before any failure.
pub open spec fn nothing_tried() -> Furthest {
    Furthest { at: 0, tried: Seq::empty() }
}

/// The outcome of parsing `s` from its start by rule `r`, with at most
/// `depth` rules one inside the other.
pub open spec fn parsed(r: Rule, s: Seq<u8>, depth: usize) -> Out {
    eval(Expr::Call(r), s, outset(r, depth), 0, nothing_tried())
}

} // verus!

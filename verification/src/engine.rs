//! The interpreter: matches parsing expressions against the input and is
//! proved to compute [`eval`](crate::semantics::eval).
use crate::expr::Expr;
use crate::grammar::{holds, index, Table};
use crate::rule::{Rule, RuleKind};
use crate::semantics::{
    after, enter, eval, gap, note, repeat, skip_space, text_at, Attempt, Ctx, Furthest, Out, Res,
};
use crate::tree::{framed, lemma_framed_concat, lemma_framed_under, Node};
use vstd::prelude::*;

verus! {

/// The furthest failure so far, as the interpreter keeps it.
pub struct Trace {
    pub at: usize,
    pub tried: Vec<Attempt>,
}

impl View for Trace {
    type V = Furthest;

    open spec fn view(&self) -> Furthest {
        Furthest { at: self.at as int, tried: self.tried@ }
    }
}

/// How one step of matching ended.
#[derive(Clone, Copy, Debug)]
pub enum Step {
    /// Matched up to the given position.
    Match(usize),
    NoMatch,
    TooDeep,
}

/// The interpreter's result and state stand for the outcome `out` of a match
/// that started at `lo` in an input of `hi` bytes: the step tells the
/// outcome, the new nodes were added behind the old ones, and they are
/// framed; without a match the nodes are as they were.
pub open spec fn agrees(
    out: Out,
    step: Step,
    lo: int,
    hi: int,
    before: Seq<Node>,
    now: Seq<Node>,
    far: Furthest,
) -> bool {
    &&& far == out.far
    &&& match out.res {
        Res::Match { end, nodes } => {
            &&& step == Step::Match(end as usize)
            &&& lo <= end <= hi
            &&& now == before + nodes
            &&& framed(nodes, lo, end)
        },
        Res::NoMatch => step == Step::NoMatch && now == before,
        Res::TooDeep => step == Step::TooDeep && now == before,
    }
}

/// Putting nodes in front twice is putting their concatenation in front.
pub proof fn lemma_after_twice(a: Seq<Node>, b: Seq<Node>, out: Out)
    ensures
        after(a, after(b, out)) == after(a + b, out),
{
    match out.res {
        Res::Match { end, nodes } => {
            assert(a + (b + nodes) =~= (a + b) + nodes);
        },
        _ => {},
    }
}

/// The first position from `pos` on that holds no white space.
pub fn skip(src: &[u8], pos: usize) -> (r: usize)
    requires
        pos <= src@.len(),
    ensures
        r == skip_space(src@, pos as int),
        pos <= r <= src@.len(),
{
    let n: usize = src.len();
    let mut i: usize = pos;
    while i < n && (src[i] == 0x20 || src[i] == 0x09 || src[i] == 0x0a || src[i] == 0x0d)
        invariant
            pos <= i <= n,
            n == src@.len(),
            skip_space(src@, pos as int) == skip_space(src@, i as int),
        decreases n - i,
    {
        i = i + 1;
    }
    i
}

/// Where the next part of a chain starts after a part that ended at `pos`.
pub fn gap_at(src: &[u8], c: &Ctx, pos: usize) -> (r: usize)
    requires
        pos <= src@.len(),
    ensures
        r == gap(src@, *c, pos as int),
        pos <= r <= src@.len(),
{
    if c.joined {
        pos
    } else {
        skip(src, pos)
    }
}

/// Whether the bytes `t` stand in `src` at `pos`.
pub fn starts_at(src: &[u8], pos: usize, t: &[u8]) -> (r: bool)
    requires
        pos <= src@.len(),
    ensures
        r == text_at(src@, pos as int, t@),
{
    let n: usize = t.len();
    if n > src.len() - pos {
        return false;
    }
    let mut i: usize = 0;
    while i < n
        invariant
            i <= n,
            n == t@.len(),
            pos + n <= src@.len() <= usize::MAX,
            forall|j: int| 0 <= j < i ==> src@[pos + j] == t@[j],
        decreases n - i,
    {
        if src[pos + i] != t[i] {
            return false;
        }
        i = i + 1;
    }
    true
}

/// Whether `a` is among `tried`.
pub fn was_tried(tried: &Vec<Attempt>, a: Attempt) -> (r: bool)
    ensures
        r == tried@.contains(a),
{
    let n: usize = tried.len();
    let mut i: usize = 0;
    while i < n
        invariant
            i <= n,
            n == tried@.len(),
            forall|j: int| 0 <= j < i ==> tried@[j] != a,
        decreases n - i,
    {
        if tried[i].rule == a.rule && tried[i].since == a.since {
            assert(tried@[i as int] == a);
            return true;
        }
        i = i + 1;
    }
    false
}

/// Records a failure at `pos`.
pub fn record(far: &mut Trace, c: &Ctx, pos: usize)
    ensures
        final(far)@ == note(old(far)@, *c, pos as int),
{
    if c.quiet {
        return ;
    }
    let a = Attempt { rule: c.rule, since: c.since };
    if far.tried.len() == 0 || pos > far.at {
        far.at = pos;
        far.tried.clear();
        far.tried.push(a);
        assert(far.tried@ =~= seq![a]);
    } else if pos == far.at && !was_tried(&far.tried, a) {
        far.tried.push(a);
    }
}

/// Matches `e` against `src` at `pos`. New nodes go behind those in
/// `nodes`; where `e` does not match, `nodes` is left as it was.
pub fn run(
    table: &Table,
    e: &Expr,
    src: &[u8],
    c: Ctx,
    pos: usize,
    nodes: &mut Vec<Node>,
    far: &mut Trace,
) -> (step: Step)
    requires
        table.complete(),
        pos <= src@.len(),
    ensures
        agrees(
            eval(*e, src@, c, pos as int, old(far)@),
            step,
            pos as int,
            src@.len() as int,
            old(nodes)@,
            final(nodes)@,
            final(far)@,
        ),
    decreases c.depth, *e, 1int,
{
    let ghost before = nodes@;
    let ghost f0 = far@;
    let mark: usize = nodes.len();
    let total: usize = src.len();
    match e {
        Expr::Text(t) => {
            let bytes = t.as_bytes();
            if starts_at(src, pos, bytes) {
                assert(before + Seq::<Node>::empty() =~= before);
                Step::Match(pos + bytes.len())
            } else {
                record(far, &c, pos);
                Step::NoMatch
            }
        },
        Expr::Range(lo, hi) => {
            if pos < src.len() && *lo <= src[pos] && src[pos] <= *hi {
                assert(before + Seq::<Node>::empty() =~= before);
                Step::Match(pos + 1)
            } else {
                record(far, &c, pos);
                Step::NoMatch
            }
        },
        Expr::AnyByte => {
            if pos < src.len() {
                assert(before + Seq::<Node>::empty() =~= before);
                Step::Match(pos + 1)
            } else {
                record(far, &c, pos);
                Step::NoMatch
            }
        },
        Expr::End => {
            if pos == src.len() {
                assert(before + Seq::<Node>::empty() =~= before);
                Step::Match(pos)
            } else {
                record(far, &c, pos);
                Step::NoMatch
            }
        },
        Expr::Chain(a, b) => run_chain(table, e, a, b, src, c, pos, nodes, far),
        Expr::Either(a, b) => {
            match run(table, a, src, c, pos, nodes, far) {
                Step::NoMatch => run(table, b, src, c, pos, nodes, far),
                other => other,
            }
        },
        Expr::Maybe(a) => {
            match run(table, a, src, c, pos, nodes, far) {
                Step::NoMatch => {
                    assert(before + Seq::<Node>::empty() =~= before);
                    Step::Match(pos)
                },
                other => other,
            }
        },
        Expr::Many(a) => run_repeat(table, a, src, c, pos, nodes, far, true),
        Expr::More(a) => run_more(table, e, a, src, c, pos, nodes, far),
        Expr::Unless(a) => run_unless(table, e, a, src, c, pos, nodes, far),
        Expr::Ahead(a) => run_ahead(table, e, a, src, c, pos, nodes, far),
        Expr::Call(r) => run_call(table, e, *r, src, c, pos, nodes, far),
    }
}

/// The case of a chain.
fn run_chain(
    table: &Table,
    e: &Expr,
    a: &Box<Expr>,
    b: &Box<Expr>,
    src: &[u8],
    c: Ctx,
    pos: usize,
    nodes: &mut Vec<Node>,
    far: &mut Trace,
) -> (step: Step)
    requires
        table.complete(),
        pos <= src@.len(),
        *e == Expr::Chain(*a, *b),
    ensures
        agrees(
            eval(*e, src@, c, pos as int, old(far)@),
            step,
            pos as int,
            src@.len() as int,
            old(nodes)@,
            final(nodes)@,
            final(far)@,
        ),
    decreases c.depth, *e, 0int,
{
    let ghost before = nodes@;
    let ghost f0 = far@;
    let mark: usize = nodes.len();
    let total: usize = src.len();
    let ghost first = eval(**a, src@, c, pos as int, f0);
    match run(table, a, src, c, pos, nodes, far) {
        Step::Match(end) => {
            let from = gap_at(src, &c, end);
            let ghost second = eval(**b, src@, c, from as int, first.far);
            match run(table, b, src, c, from, nodes, far) {
                Step::Match(end2) => {
                    proof {
                        let n1 = first.res->nodes;
                        let n2 = second.res->nodes;
                        lemma_framed_concat(
                            n1,
                            n2,
                            pos as int,
                            end as int,
                            from as int,
                            end2 as int,
                        );
                        assert((before + n1) + n2 =~= before + (n1 + n2));
                    }
                    Step::Match(end2)
                },
                Step::NoMatch => {
                    nodes.truncate(mark);
                    assert(nodes@ =~= before);
                    Step::NoMatch
                },
                Step::TooDeep => {
                    nodes.truncate(mark);
                    assert(nodes@ =~= before);
                    Step::TooDeep
                },
            }
        },
        Step::NoMatch => Step::NoMatch,
        Step::TooDeep => Step::TooDeep,
    }
}

/// The case of a repetition that must match once.
fn run_more(
    table: &Table,
    e: &Expr,
    a: &Box<Expr>,
    src: &[u8],
    c: Ctx,
    pos: usize,
    nodes: &mut Vec<Node>,
    far: &mut Trace,
) -> (step: Step)
    requires
        table.complete(),
        pos <= src@.len(),
        *e == Expr::More(*a),
    ensures
        agrees(
            eval(*e, src@, c, pos as int, old(far)@),
            step,
            pos as int,
            src@.len() as int,
            old(nodes)@,
            final(nodes)@,
            final(far)@,
        ),
    decreases c.depth, *e, 0int,
{
    let ghost before = nodes@;
    let ghost f0 = far@;
    let mark: usize = nodes.len();
    let total: usize = src.len();
    let ghost first = eval(**a, src@, c, pos as int, f0);
    match run(table, a, src, c, pos, nodes, far) {
        Step::Match(end) => {
            if pos < end {
                let ghost rest = repeat(**a, src@, c, end as int, first.far, false);
                match run_repeat(table, a, src, c, end, nodes, far, false) {
                    Step::Match(end2) => {
                        proof {
                            let n1 = first.res->nodes;
                            let n2 = rest.res->nodes;
                            lemma_framed_concat(
                                n1,
                                n2,
                                pos as int,
                                end as int,
                                end as int,
                                end2 as int,
                            );
                            assert((before + n1) + n2 =~= before + (n1 + n2));
                        }
                        Step::Match(end2)
                    },
                    Step::NoMatch => {
                        nodes.truncate(mark);
                        assert(nodes@ =~= before);
                        Step::NoMatch
                    },
                    Step::TooDeep => {
                        nodes.truncate(mark);
                        assert(nodes@ =~= before);
                        Step::TooDeep
                    },
                }
            } else {
                Step::Match(end)
            }
        },
        Step::NoMatch => Step::NoMatch,
        Step::TooDeep => Step::TooDeep,
    }
}

/// The case of a look-ahead that must fail.
fn run_unless(
    table: &Table,
    e: &Expr,
    a: &Box<Expr>,
    src: &[u8],
    c: Ctx,
    pos: usize,
    nodes: &mut Vec<Node>,
    far: &mut Trace,
) -> (step: Step)
    requires
        table.complete(),
        pos <= src@.len(),
        *e == Expr::Unless(*a),
    ensures
        agrees(
            eval(*e, src@, c, pos as int, old(far)@),
            step,
            pos as int,
            src@.len() as int,
            old(nodes)@,
            final(nodes)@,
            final(far)@,
        ),
    decreases c.depth, *e, 0int,
{
    let ghost before = nodes@;
    let ghost f0 = far@;
    let mark: usize = nodes.len();
    let total: usize = src.len();
    let inside = Ctx {
        depth: c.depth,
        joined: c.joined,
        mute: true,
        quiet: true,
        rule: c.rule,
        since: c.since,
    };
    match run(table, a, src, inside, pos, nodes, far) {
        Step::Match(_) => {
            nodes.truncate(mark);
            assert(nodes@ =~= before);
            record(far, &c, pos);
            Step::NoMatch
        },
        Step::NoMatch => {
            assert(before + Seq::<Node>::empty() =~= before);
            Step::Match(pos)
        },
        Step::TooDeep => Step::TooDeep,
    }
}

/// The case of a look-ahead that must match.
fn run_ahead(
    table: &Table,
    e: &Expr,
    a: &Box<Expr>,
    src: &[u8],
    c: Ctx,
    pos: usize,
    nodes: &mut Vec<Node>,
    far: &mut Trace,
) -> (step: Step)
    requires
        table.complete(),
        pos <= src@.len(),
        *e == Expr::Ahead(*a),
    ensures
        agrees(
            eval(*e, src@, c, pos as int, old(far)@),
            step,
            pos as int,
            src@.len() as int,
            old(nodes)@,
            final(nodes)@,
            final(far)@,
        ),
    decreases c.depth, *e, 0int,
{
    let ghost before = nodes@;
    let ghost f0 = far@;
    let mark: usize = nodes.len();
    let total: usize = src.len();
    let inside = Ctx {
        depth: c.depth,
        joined: c.joined,
        mute: true,
        quiet: true,
        rule: c.rule,
        since: c.since,
    };
    match run(table, a, src, inside, pos, nodes, far) {
        Step::Match(_) => {
            nodes.truncate(mark);
            assert(nodes@ =~= before);
            assert(before + Seq::<Node>::empty() =~= before);
            Step::Match(pos)
        },
        Step::NoMatch => {
            record(far, &c, pos);
            Step::NoMatch
        },
        Step::TooDeep => Step::TooDeep,
    }
}

/// The case of a call of a rule.
fn run_call(
    table: &Table,
    e: &Expr,
    r: Rule,
    src: &[u8],
    c: Ctx,
    pos: usize,
    nodes: &mut Vec<Node>,
    far: &mut Trace,
) -> (step: Step)
    requires
        table.complete(),
        pos <= src@.len(),
        *e == Expr::Call(r),
    ensures
        agrees(
            eval(*e, src@, c, pos as int, old(far)@),
            step,
            pos as int,
            src@.len() as int,
            old(nodes)@,
            final(nodes)@,
            final(far)@,
        ),
    decreases c.depth, *e, 0int,
{
    let ghost before = nodes@;
    let ghost f0 = far@;
    let mark: usize = nodes.len();
    let total: usize = src.len();
    if c.depth == 0 {
        return Step::TooDeep;
    }
    let i: usize = index(r);
    assert(holds(table.entries@, r));
    let entry = &table.entries[i];
    let silent = matches!(entry.kind, RuleKind::Silent);
    let token = matches!(entry.kind, RuleKind::Token);
    let inside = Ctx {
        depth: c.depth - 1,
        joined: match entry.kind {
            RuleKind::Spaced => false,
            RuleKind::Joined | RuleKind::Token => true,
            _ => c.joined,
        },
        mute: c.mute || token,
        quiet: c.quiet,
        rule: if silent {
            c.rule
        } else {
            r
        },
        since: if silent {
            c.since
        } else {
            pos
        },
    };
    assert(inside == enter(c, r, pos as int));
    let framed = !c.mute && !silent && !token;
    if framed {
        nodes.push(Node { rule: r, start: pos, end: pos, size: 0 });
    }
    let ghost inner = eval(entry.body, src@, inside, pos as int, f0);
    match run(table, &entry.body, src, inside, pos, nodes, far) {
        Step::Match(end) => {
            let ghost below = inner.res->nodes;
            if framed {
                let size: usize = nodes.len() - mark - 1;
                let head = Node { rule: r, start: pos, end, size };
                nodes.set(mark, head);
                proof {
                    lemma_framed_under(head, below, pos as int, end as int);
                    assert(nodes@ =~= before + (seq![head] + below));
                }
            } else if c.mute {
                nodes.truncate(mark);
                assert(nodes@ =~= before + Seq::<Node>::empty());
            } else if token {
                nodes.truncate(mark);
                let head = Node { rule: r, start: pos, end, size: 0 };
                nodes.push(head);
                proof {
                    lemma_framed_under(head, Seq::empty(), pos as int, end as int);
                    assert(seq![head] + Seq::<Node>::empty() =~= seq![head]);
                    assert(nodes@ =~= before + seq![head]);
                }
            }
            Step::Match(end)
        },
        Step::NoMatch => {
            nodes.truncate(mark);
            assert(nodes@ =~= before);
            record(far, &c, pos);
            Step::NoMatch
        },
        Step::TooDeep => {
            nodes.truncate(mark);
            assert(nodes@ =~= before);
            Step::TooDeep
        },
    }
}

/// Matches `e` again and again from `pos` on, as [`repeat`] says.
pub fn run_repeat(
    table: &Table,
    e: &Expr,
    src: &[u8],
    c: Ctx,
    pos: usize,
    nodes: &mut Vec<Node>,
    far: &mut Trace,
    first: bool,
) -> (step: Step)
    requires
        table.complete(),
        pos <= src@.len(),
    ensures
        agrees(
            repeat(*e, src@, c, pos as int, old(far)@, first),
            step,
            pos as int,
            src@.len() as int,
            old(nodes)@,
            final(nodes)@,
            final(far)@,
        ),
    decreases c.depth, *e, 2int,
{
    let ghost whole = repeat(*e, src@, c, pos as int, far@, first);
    let ghost before = nodes@;
    let ghost mut done: Seq<Node> = Seq::empty();
    let mut at: usize = pos;
    let mut fresh: bool = first;
    let total: usize = src.len();
    let mark: usize = nodes.len();
    proof {
        assert(before + done =~= before);
        lemma_after_nothing(repeat(*e, src@, c, pos as int, far@, first));
    }
    loop
        invariant
            table.complete(),
            pos <= at <= src@.len() == total,
            before == old(nodes)@,
            mark == before.len(),
            whole == repeat(*e, src@, c, pos as int, old(far)@, first),
            whole == after(done, repeat(*e, src@, c, at as int, far@, fresh)),
            nodes@ == before + done,
            framed(done, pos as int, at as int),
        decreases src@.len() - at,
    {
        let from = if fresh {
            at
        } else {
            gap_at(src, &c, at)
        };
        let ghost one = eval(*e, src@, c, from as int, far@);
        let ghost earlier = done;
        match run(table, e, src, c, from, nodes, far) {
            Step::Match(end) => {
                proof {
                    let n1 = one.res->nodes;
                    lemma_framed_concat(
                        earlier,
                        n1,
                        pos as int,
                        at as int,
                        from as int,
                        end as int,
                    );
                    assert((before + earlier) + n1 =~= before + (earlier + n1));
                    if at < end {
                        lemma_after_twice(
                            earlier,
                            n1,
                            repeat(*e, src@, c, end as int, one.far, false),
                        );
                    }
                    done = earlier + n1;
                }
                if at < end {
                    at = end;
                    fresh = false;
                } else {
                    return Step::Match(end);
                }
            },
            Step::NoMatch => {
                assert(earlier + Seq::<Node>::empty() =~= earlier);
                return Step::Match(at);
            },
            Step::TooDeep => {
                nodes.truncate(mark);
                assert(nodes@ =~= before);
                return Step::TooDeep;
            },
        }
    }
}

/// Putting no nodes in front changes nothing.
pub proof fn lemma_after_nothing(out: Out)
    ensures
        after(Seq::empty(), out) == out,
{
    match out.res {
        Res::Match { end, nodes } => {
            assert(Seq::<Node>::empty() + nodes =~= nodes);
        },
        _ => {},
    }
}

} // verus!
